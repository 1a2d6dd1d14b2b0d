use drmcru::export::{build_export_plan_with_file, custom_edid_file_name};
use drmcru::doctor::{connector_override_plan, inspect_connector_override, ok_bad};
use drmcru::install::{FileRead, OverrideFacts, PathProbe};
use drmcru::models::TimingDescriptor;
use drmcru::timings::{
    crt_porches, detailed_from_parts, exact_shape, has_aspect, hdtv_porches, round_down_to,
    vertical_sync_width, TimingPreset,
};

#[test]
fn preset_labels_and_cycle_wrap() {
    assert_eq!(TimingPreset::Manual.label(), "Manual");
    assert_eq!(TimingPreset::ExactReduced.label(), "Exact reduced");
    assert_eq!(TimingPreset::Manual.cycle(1), TimingPreset::AutomaticPc);
    assert_eq!(TimingPreset::Manual.cycle(-1), TimingPreset::ExactReduced);
    assert_eq!(TimingPreset::ExactReduced.cycle(1), TimingPreset::Manual);
    assert_eq!(TimingPreset::NativePc.cycle(16), TimingPreset::NativePc);
    assert_eq!(TimingPreset::AutomaticCrt.cycle(-11), TimingPreset::Manual);
    assert_eq!(TimingPreset::Exact.cycle(isize::MIN), TimingPreset::Exact);
}

#[test]
fn aspect_and_sync_width() {
    assert!(has_aspect(1920, 1080, 16, 9));
    assert!(!has_aspect(1920, 1200, 16, 9));
    assert_eq!(vertical_sync_width(1024, 768), 4);
    assert_eq!(vertical_sync_width(1920, 1080), 5);
    assert_eq!(vertical_sync_width(1920, 1200), 6);
    assert_eq!(vertical_sync_width(1280, 1024), 7);
    assert_eq!(vertical_sync_width(1280, 768), 7);
    assert_eq!(vertical_sync_width(3440, 1440), 10);
    assert_eq!(round_down_to(1366, 8), 1360);
}

#[test]
fn hdtv_and_crt_shapes() {
    assert_eq!(hdtv_porches(1920, 1080), (88, 44, 148, 4, 5, 36));
    assert_eq!(hdtv_porches(1280, 720), (110, 40, 220, 5, 5, 20));
    assert_eq!(hdtv_porches(720, 480), (16, 62, 60, 9, 6, 30));
    assert_eq!(crt_porches(1920), (80, 160, 240));
    assert_eq!(crt_porches(640), (24, 48, 88));
}

#[test]
fn parts_sum_into_blanking() {
    let t = detailed_from_parts(1920, 1080, 88, 44, 148, 4, 5, 36, 148_500, true, true, false);
    assert_eq!(t.h_blanking, 280);
    assert_eq!(t.v_blanking, 45);
    assert_eq!(t.h_total(), 2200);
    assert_eq!(t.v_total(), 1125);
    assert_eq!(t.hyprland_mode(), "1920x1080@60.00");
}

#[test]
fn exact_shape_keeps_current_porches() {
    let current = TimingDescriptor {
        pixel_clock_khz: 138_500,
        h_active: 1920,
        h_blanking: 160,
        h_front_porch: 48,
        h_sync_width: 32,
        h_back_porch: 80,
        v_active: 1080,
        v_blanking: 31,
        v_front_porch: 3,
        v_sync_width: 5,
        v_back_porch: 23,
        h_sync_positive: true,
        v_sync_positive: false,
        interlaced: false,
    };
    let t = exact_shape(1280, 1024, &current);
    assert_eq!(t.h_active, 1280);
    assert_eq!(t.v_active, 1024);
    assert_eq!(t.h_front_porch, current.h_front_porch);
    assert_eq!(t.h_back_porch, current.h_back_porch);
    assert_eq!(t.h_blanking, 160);
    assert_eq!(t.v_blanking, 31);
}

#[test]
fn doctor_checks_the_connectors_own_override() {
    let plan = connector_override_plan("DP-1");
    assert_eq!(plan.edid_file_name, "drmcru_custom_DP-1.bin");
    assert_eq!(plan.kernel_parameter, "drm.edid_firmware=DP-1:edid/drmcru_custom_DP-1.bin");

    let facts = OverrideFacts {
        firmware: PathProbe::Present,
        mkinitcpio_conf: FileRead::Missing,
        bootloader_conf: FileRead::Missing,
        limine_entry_tool_dropin: FileRead::Missing,
        active_cmdline: FileRead::Text(
            "root=/dev/sda1 drm.edid_firmware=DP-1:edid/drmcru_custom_DP-1.bin\n".to_string(),
        ),
    };
    let status = inspect_connector_override("DP-1", &facts);
    assert!(status.is_active());
    assert_eq!(status.short_label(), "active");
    assert_eq!(ok_bad(true), "ok");
    assert_eq!(ok_bad(false), "bad");
}

#[test]
fn cycling_back_returns_the_preset() {
    for preset in [
        TimingPreset::Manual,
        TimingPreset::AutomaticPc,
        TimingPreset::AutomaticHdtv,
        TimingPreset::AutomaticCrt,
        TimingPreset::NativePc,
        TimingPreset::NativeHdtv,
        TimingPreset::Exact,
        TimingPreset::ExactReduced,
    ] {
        for delta in [-9isize, -1, 0, 3, 8, 13] {
            assert_eq!(preset.cycle(delta).cycle(-delta), preset);
        }
        assert_eq!(preset.cycle(8), preset);
    }
}

#[test]
fn exported_parameter_is_the_one_doctor_checks() {
    let timing = exact_shape(
        1920,
        1080,
        &detailed_from_parts(1920, 1080, 48, 32, 80, 3, 5, 23, 138_500, true, false, false),
    );
    let plan = build_export_plan_with_file("HDMI-A-1", &custom_edid_file_name("HDMI-A-1"), timing);
    assert_eq!(plan.drm_kernel_parameter(), connector_override_plan("HDMI-A-1").kernel_parameter);
}
