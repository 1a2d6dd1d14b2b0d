use drmcru::export::{
    build_export_plan_for_monitor, build_export_plan_with_file, custom_edid_file_name,
    export_instructions, instructions_file_name, monitor_position,
};
use drmcru::models::TimingDescriptor;

fn sample_timing() -> TimingDescriptor {
    TimingDescriptor {
        pixel_clock_khz: 138_500,
        h_active: 1920,
        h_blanking: 160,
        h_front_porch: 48,
        h_sync_width: 32,
        h_back_porch: 80,
        v_active: 1080,
        v_blanking: 31,
        v_front_porch: 3,
        v_sync_width: 5,
        v_back_porch: 23,
        h_sync_positive: true,
        v_sync_positive: false,
        interlaced: false,
    }
}

#[test]
fn instructions_include_kernel_and_hyprland_rules() {
    let plan = build_export_plan_with_file("DP-1", "drmcru_custom_DP-1.bin", sample_timing());
    let instructions = export_instructions("/tmp/drmcru_custom_DP-1.bin", &plan);

    assert!(instructions.contains("sudo install -D -m 0644"));
    assert!(instructions.contains("drm.edid_firmware=DP-1:edid/drmcru_custom_DP-1.bin"));
    assert!(instructions.contains("monitor=DP-1,1920x1080@"));
    assert!(instructions.contains(",auto,1"));
}

#[test]
fn export_plan_can_use_current_hyprland_position_and_scale() {
    let plan = build_export_plan_for_monitor(
        "DP-1",
        "drmcru_custom_DP-1.bin",
        sample_timing(),
        Some(2560),
        Some(0),
        Some("1.25"),
    );

    let rule = plan.hyprland_monitor_rule();
    assert!(rule.starts_with("monitor=DP-1,1920x1080@"));
    assert!(rule.ends_with(",2560x0,1.25"));
}

#[test]
fn plan_rule_has_mode_position_and_scale() {
    let plan = build_export_plan_with_file("DP-1", "drmcru_custom_DP-1.bin", sample_timing());
    assert_eq!(plan.hyprland_mode, "1920x1080@59.93");
    assert_eq!(plan.hyprland_rule, "monitor=DP-1,1920x1080@59.93,auto,1");
    assert_eq!(plan.drm_kernel_parameter(), "drm.edid_firmware=DP-1:edid/drmcru_custom_DP-1.bin");
}

#[test]
fn positions_are_signed_and_default_to_auto() {
    assert_eq!(monitor_position(Some(-1920), Some(0)), "-1920x0");
    assert_eq!(monitor_position(Some(0), None), "auto");
    assert_eq!(monitor_position(Some(i32::MIN), Some(i32::MAX)), "-2147483648x2147483647");
}

#[test]
fn file_names_replace_unsafe_connector_characters() {
    assert_eq!(custom_edid_file_name("DP-1"), "drmcru_custom_DP-1.bin");
    assert_eq!(custom_edid_file_name("HDMI A/1"), "drmcru_custom_HDMI_A_1.bin");
    assert_eq!(instructions_file_name("eDP-1"), "drmcru_custom_eDP-1_instructions.txt");
}

#[test]
fn instructions_list_every_step_in_order() {
    let plan = build_export_plan_with_file("DP-1", "x.bin", sample_timing());
    let text = export_instructions("/out/x.bin", &plan);
    let lines: Vec<&str> = text.lines().collect();
    assert_eq!(lines[0], "drmcru export instructions");
    assert_eq!(lines[2], "Generated EDID: /out/x.bin");
    assert_eq!(lines[3], "Install target: /lib/firmware/edid/x.bin");
    assert_eq!(lines[6], "   sudo install -D -m 0644 /out/x.bin /lib/firmware/edid/x.bin");
    assert_eq!(lines[9], "   drm.edid_firmware=DP-1:edid/x.bin");
    assert_eq!(lines[12], "   monitor=DP-1,1920x1080@59.93,auto,1");
    assert_eq!(lines.len(), 15);
}

#[test]
fn patched_edid_without_monitor_edid_is_missing_edid() {
    let result = drmcru::export::patched_edid(None, &sample_timing());
    assert!(matches!(result, Err(drmcru::export::ExportError::MissingEdid)));
}

#[test]
fn patched_edid_places_timing_and_keeps_checksums() {
    let raw = drmcru::demo::sample_edid().expect("demo EDID");
    let edid = drmcru::edid::parse_edid(raw.clone()).expect("parse demo EDID");
    let (bytes, location) =
        drmcru::export::patched_edid(Some(&edid), &sample_timing()).expect("patched");
    assert_eq!(bytes.len(), raw.len());
    assert_ne!(bytes, raw);
    assert!(drmcru::edid::block_checksum_valid(&bytes[0..128]));
    let reparsed = drmcru::edid::parse_edid(bytes).expect("reparse");
    let found = reparsed
        .detailed_timings
        .iter()
        .chain(reparsed.cta_blocks.iter().flat_map(|b| b.detailed_timings.iter()))
        .any(|t| *t == sample_timing());
    assert!(found, "timing at {:?} not found", location);
}

#[test]
fn monitor_rule_follows_changed_position_and_scale() {
    let mut plan = build_export_plan_with_file("DP-1", "drmcru_custom_DP-1.bin", sample_timing());
    plan.position = "2560x0".to_string();
    plan.scale = "1.25".to_string();
    let rule = plan.hyprland_monitor_rule();
    assert!(rule.starts_with("monitor=DP-1,1920x1080@"));
    assert!(rule.ends_with(",2560x0,1.25"));
    assert!(export_instructions("/tmp/x.bin", &plan).contains(",2560x0,1.25"));
}
