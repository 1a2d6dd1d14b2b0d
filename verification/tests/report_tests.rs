use drmcru::hyprland_config::{inspect_monitor_rule, parse_config_file, ConfigDirective, ConfigScan};
use drmcru::install::{FirmwareEdidComparison, InstalledOverrideStatus};
use drmcru::models::TimingDescriptor;
use drmcru::report::{
    append_config_inspection_lines, append_connector_config_lines, append_override_status_lines,
    checksum_label, help_lines, normalize_import_path, polarity_label, timing_detail_lines,
    unavailable_mode_message, yes_no,
};

fn sample_timing() -> TimingDescriptor {
    TimingDescriptor {
        pixel_clock_khz: 138_500,
        h_active: 1920,
        h_blanking: 160,
        h_front_porch: 48,
        h_sync_width: 32,
        h_back_porch: 80,
        v_active: 1080,
        v_blanking: 31,
        v_front_porch: 3,
        v_sync_width: 5,
        v_back_porch: 23,
        h_sync_positive: true,
        v_sync_positive: false,
        interlaced: false,
    }
}

fn status(active: bool, firmware: bool, entries: usize, with_param: usize) -> InstalledOverrideStatus {
    InstalledOverrideStatus {
        connector: "DP-1".to_string(),
        edid_file_name: "drmcru_custom_DP-1.bin".to_string(),
        kernel_parameter: "drm.edid_firmware=DP-1:edid/drmcru_custom_DP-1.bin".to_string(),
        firmware_target: "/lib/firmware/edid/drmcru_custom_DP-1.bin".to_string(),
        firmware_present: firmware,
        mkinitcpio_references_firmware: firmware,
        bootloader_references_kernel_parameter: with_param > 0,
        limine_entry_tool_references_kernel_parameter: false,
        bootloader_cmdline_entries: entries,
        bootloader_cmdline_entries_with_kernel_parameter: with_param,
        active_kernel_references_kernel_parameter: active,
        read_warnings: Vec::new(),
    }
}

#[test]
fn labels() {
    assert_eq!(yes_no(true), "yes");
    assert_eq!(yes_no(false), "no");
    assert_eq!(polarity_label(true), "+");
    assert_eq!(polarity_label(false), "-");
    assert_eq!(checksum_label(true), "ok");
    assert_eq!(checksum_label(false), "bad");
}

#[test]
fn help_has_every_section() {
    let lines = help_lines();
    assert_eq!(lines.len(), 63);
    assert_eq!(lines[0], "Core workflow");
    assert!(lines.contains(&"Global keys".to_string()));
    assert!(lines.contains(&"Diagnostics".to_string()));
    assert_eq!(
        lines.last().unwrap(),
        "Verify shows whether the selected mode is exposed, active, and reload-persistent."
    );
}

#[test]
fn timing_details_show_totals_and_rates() {
    let lines = timing_detail_lines("Detailed timing", Some("base slot 1".to_string()), &sample_timing());
    assert_eq!(
        lines,
        vec![
            "Detailed timing",
            "Mode: 1920x1080@59.93",
            "Location: base slot 1",
            "Pixel clock: 138500 kHz",
            "Horizontal: active 1920  front 48  sync 32  back 80  blanking 160  total 2080",
            "Vertical:   active 1080  front 3  sync 5  back 23  blanking 31  total 1111",
            "Refresh: 59.934 Hz",
            "Horizontal rate: 66.587 kHz",
            "Sync polarity: H +  V -",
            "Interlaced: no",
        ]
    );
    let without = timing_detail_lines("x", None, &sample_timing());
    assert_eq!(without.len(), 9);
}

#[test]
fn refresh_in_details_matches_float_formatting() {
    let t = sample_timing();
    let refresh = (f64::from(t.pixel_clock_khz) * 1000.0) / f64::from(2080u32 * 1111);
    let rate = f64::from(t.pixel_clock_khz) / 2080.0;
    let lines = timing_detail_lines("x", None, &t);
    assert_eq!(lines[5], format!("Refresh: {refresh:.3} Hz"));
    assert_eq!(lines[6], format!("Horizontal rate: {rate:.3} kHz"));
}

#[test]
fn override_lines_report_active_match() {
    let mut lines = Vec::new();
    append_override_status_lines(
        &mut lines,
        &status(true, true, 1, 1),
        &FirmwareEdidComparison::Matches { bytes: 256 },
    );
    assert_eq!(lines[0], "");
    assert_eq!(lines[1], "EDID override");
    assert_eq!(lines[2], "Status:             active");
    assert_eq!(lines[5], "Bootloader config:  yes (1/1 cmdline entries)");
    assert_eq!(lines[8], "Live EDID match:    matches");
    assert_eq!(lines[10], "Result: installed EDID override is active on this boot.");
    assert_eq!(lines.len(), 11);
}

#[test]
fn override_lines_list_warnings_and_partial_state() {
    let mut s = status(false, true, 2, 1);
    s.read_warnings = vec!["could not read /boot/limine.conf".to_string()];
    let mut lines = vec!["before".to_string()];
    append_override_status_lines(&mut lines, &s, &FirmwareEdidComparison::MissingLiveEdid);
    assert_eq!(lines[0], "before");
    assert_eq!(lines[11], "Result: override install is partial; run Install/Update before rebooting.");
    assert_eq!(lines[12], "Override warnings");
    assert_eq!(lines[13], "- could not read /boot/limine.conf");
}

#[test]
fn unavailable_mode_messages_follow_override_state() {
    let matches = FirmwareEdidComparison::Matches { bytes: 256 };
    let differs = FirmwareEdidComparison::Differs { firmware_bytes: 256, live_bytes: 128 };
    let prefix = "2560x1440@165.00 is not exposed by DRM/Hyprland for DP-1.";
    assert_eq!(
        unavailable_mode_message("DP-1", "2560x1440@165.00", None, &matches),
        format!("{prefix} Install the EDID override and reboot first.")
    );
    assert!(unavailable_mode_message("DP-1", "2560x1440@165.00", Some(&status(true, true, 1, 1)), &matches)
        .ends_with("Update the EDID override with the current workspace and reboot."));
    assert!(unavailable_mode_message("DP-1", "2560x1440@165.00", Some(&status(true, true, 1, 1)), &differs)
        .ends_with("Run Install/Update again and reboot."));
    assert!(unavailable_mode_message("DP-1", "2560x1440@165.00", Some(&status(false, true, 1, 1)), &differs)
        .ends_with("Reboot and verify again."));
    assert!(unavailable_mode_message("DP-1", "2560x1440@165.00", Some(&status(false, true, 2, 1)), &differs)
        .ends_with("The EDID override install is partial. Run Install/Update, reboot, then verify again."));
}

fn scan_of(contents: &str) -> ConfigScan {
    let mut scan = ConfigScan {
        root_path: "/home/u/.config/hypr/hyprland.conf".to_string(),
        files_read: 1,
        monitor_rules: Vec::new(),
        read_warnings: (1..=5).map(|i| format!("warning {i}")).collect(),
    };
    for d in parse_config_file("/home/u/.config/hypr/hyprland.conf", contents) {
        if let ConfigDirective::Rule(rule) = d {
            scan.monitor_rules.push(rule);
        }
    }
    scan
}

#[test]
fn connector_config_lines_cap_warnings() {
    let report = inspect_monitor_rule(
        scan_of("monitor=DP-1,1920x1080@60,auto,1\n"),
        "DP-1",
        "monitor=DP-1,1920x1080@60,auto,1",
    );
    let mut lines = Vec::new();
    append_connector_config_lines(&mut lines, &report, "~/.config/hypr/hyprland.conf", "~/.config/hypr/hyprland.conf");
    assert_eq!(
        lines,
        vec![
            "",
            "Hyprland connector config",
            "Root: ~/.config/hypr/hyprland.conf",
            "Files read: 1",
            "Literal rules for connector: 1",
            "Last literal rule: ~/.config/hypr/hyprland.conf:1",
            "Last literal mode: monitor=DP-1,1920x1080@60,auto,1",
            "Config warnings",
            "- warning 1",
            "- warning 2",
            "- warning 3",
            "- ... 2 more warning(s)",
        ]
    );
}

#[test]
fn config_inspection_lines_explain_the_result() {
    let report = inspect_monitor_rule(
        scan_of("monitor=DP-1,1920x1080@60,auto,1\nmonitor=DP-1,1280x720@60,auto,1\n"),
        "DP-1",
        "monitor=DP-1,1920x1080@60,auto,1",
    );
    let mut lines = Vec::new();
    append_config_inspection_lines(&mut lines, &report, "~/h.conf", "~/h.conf", "~/h.conf");
    assert_eq!(lines[5], "Exact rule present: yes");
    assert_eq!(lines[6], "Exact rule location: ~/h.conf:1");
    assert_eq!(lines[7], "Last connector rule: ~/h.conf:2");
    assert_eq!(lines[8], "Last connector mode: monitor=DP-1,1280x720@60,auto,1");
    assert_eq!(lines[9], "Config result: a later literal connector rule may override the exact rule.");

    let none = inspect_monitor_rule(scan_of(""), "DP-1", "monitor=DP-1,1920x1080@60,auto,1");
    let mut lines = Vec::new();
    append_config_inspection_lines(&mut lines, &none, "~/h.conf", "", "");
    assert_eq!(lines[5], "Exact rule present: no");
    assert_eq!(lines[6], "Config result: no literal monitor rule for this connector was found.");
}

#[test]
fn import_paths_expand_home_and_strip_quotes() {
    assert_eq!(normalize_import_path("  '~/edid.bin' ", Some("/home/u")), "/home/u/edid.bin");
    assert_eq!(normalize_import_path("$HOME/x.bin", Some("/home/u/")), "/home/u/x.bin");
    assert_eq!(normalize_import_path("~", Some("/home/u")), "/home/u");
    assert_eq!(normalize_import_path("~", None), "~");
    assert_eq!(normalize_import_path("~/x.bin", None), "~/x.bin");
    assert_eq!(normalize_import_path("\"/tmp/a b.bin\"", None), "/tmp/a b.bin");
    assert_eq!(normalize_import_path("~//abs", Some("/home/u")), "/abs");
}
