use drmcru::doctor::{report_text, DoctorMonitor, HyprlandSummary, OverrideCheck};
use drmcru::hyprland_config::MonitorRuleInspection;
use drmcru::install::{FirmwareEdidComparison, InstalledOverrideStatus, SystemSupportReport};
use drmcru::models::{ConnectorStatus, EdidData};

fn sample_support() -> SystemSupportReport {
    SystemSupportReport {
        pkexec_available: true,
        mkinitcpio_available: true,
        mkinitcpio_conf_present: true,
        mkinitcpio_presets_present: true,
        limine_mkinitcpio_available: true,
        limine_conf_present: true,
        limine_has_cmdline: true,
        read_warnings: Vec::new(),
    }
}

fn sample_override() -> InstalledOverrideStatus {
    InstalledOverrideStatus {
        connector: "DP-1".to_string(),
        edid_file_name: "drmcru_custom_DP-1.bin".to_string(),
        kernel_parameter: "drm.edid_firmware=DP-1:edid/drmcru_custom_DP-1.bin".to_string(),
        firmware_target: "/lib/firmware/edid/drmcru_custom_DP-1.bin".to_string(),
        firmware_present: true,
        mkinitcpio_references_firmware: true,
        bootloader_references_kernel_parameter: true,
        limine_entry_tool_references_kernel_parameter: true,
        bootloader_cmdline_entries: 1,
        bootloader_cmdline_entries_with_kernel_parameter: 1,
        active_kernel_references_kernel_parameter: true,
        read_warnings: Vec::new(),
    }
}

fn no_config() -> MonitorRuleInspection {
    MonitorRuleInspection {
        root_path: "~/.config/hypr/hyprland.conf".to_string(),
        expected_rule: String::new(),
        files_read: 0,
        connector_rules: Vec::new(),
        exact_match: None,
        last_connector_rule: None,
        read_warnings: Vec::new(),
    }
}

fn test_monitor() -> DoctorMonitor {
    DoctorMonitor {
        connector: "DP-1".to_string(),
        status: ConnectorStatus::Connected,
        drm_path: Some("/sys/class/drm/card0-DP-1".to_string()),
        hyprland: None,
        edid: Some(EdidData {
            raw: vec![0; 128],
            manufacturer_id: Some("ABC".to_string()),
            product_code: Some(1),
            serial_number: Some(2),
            monitor_name: Some("Test Monitor".to_string()),
            descriptor_text: Vec::new(),
            established_timings: Vec::new(),
            standard_timings: Vec::new(),
            detailed_timings: Vec::new(),
            cta_blocks: Vec::new(),
            displayid_blocks: Vec::new(),
            extension_blocks: 0,
            checksum_valid: true,
        }),
        override_check: Some(OverrideCheck {
            status: sample_override(),
            comparison: FirmwareEdidComparison::MissingFirmware,
        }),
        config: no_config(),
        config_winner_shown: String::new(),
    }
}

#[test]
fn report_includes_system_and_monitor_summary() {
    let report = report_text("0.1.0", &sample_support(), &vec![test_monitor()]);

    assert!(report.contains("Automatic Apply: supported"));
    assert!(report.contains("1. DP-1"));
    assert!(report.contains("EDID name: Test Monitor"));
    assert!(report.contains("Override: active"));
    assert!(report.contains("Override EDID match:"));
}

#[test]
fn report_lists_each_monitor_line_in_order() {
    let mut monitor = test_monitor();
    monitor.hyprland = Some(HyprlandSummary {
        active_width: Some(1920),
        active_height: None,
        refresh_text: "143.998".to_string(),
        available_modes: 4,
    });
    monitor.drm_path = None;
    let report = report_text("9.9", &sample_support(), &vec![monitor]);
    let lines: Vec<&str> = report.lines().collect();
    assert_eq!(lines[0], "drmcru 9.9");
    assert_eq!(lines[1], "Doctor report");
    assert_eq!(lines[3], "System support");
    assert!(report.contains("\nMonitors: 1\n\n1. DP-1\n   Status: Connected\n   DRM path: (unknown)\n"));
    assert!(report.contains("   Hyprland: 1920x0 @ 143.998 Hz, 4 available mode(s)\n"));
    assert!(report.contains("   EDID: 0 extension block(s), base checksum ok\n"));
    assert!(report.contains(
        "   Override files: firmware yes, mkinitcpio yes, boot config yes (1/1 cmdline entries), entry-tool yes, active kernel yes\n"
    ));
    assert!(report.ends_with("   Override EDID match: missing firmware (installed firmware file is missing)"));
}

#[test]
fn unsupported_system_lists_blocking_issues_and_config_warnings_are_capped() {
    let mut support = sample_support();
    support.pkexec_available = false;
    let mut monitor = test_monitor();
    monitor.override_check = None;
    monitor.edid = None;
    monitor.config.read_warnings = vec!["a".into(), "b".into(), "c".into(), "d".into(), "e".into()];
    let report = report_text("1", &support, &vec![monitor]);
    assert!(report.contains("Automatic Apply: unsupported\n- pkexec was not found in PATH\n"));
    assert!(report.contains("   EDID: unavailable\n"));
    assert!(!report.contains("Override:"));
    assert!(report.contains("   Hyprland config warning: c\n   Hyprland config warning: ... 2 more"));
    assert!(!report.contains("warning: d"));
}
