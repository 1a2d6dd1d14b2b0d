use drmcru::models::{ConnectorStatus, CtaVideoDescriptor, CtaVideoMode, ExportPlan, TimingDescriptor};

fn timing(pixel_clock_khz: u32, h_active: u16, h_blanking: u16, v_active: u16, v_blanking: u16) -> TimingDescriptor {
    TimingDescriptor {
        pixel_clock_khz,
        h_active,
        h_blanking,
        h_front_porch: 0,
        h_sync_width: 0,
        h_back_porch: 0,
        v_active,
        v_blanking,
        v_front_porch: 0,
        v_sync_width: 0,
        v_back_porch: 0,
        h_sync_positive: false,
        v_sync_positive: false,
        interlaced: false,
    }
}

fn float_mode(t: &TimingDescriptor) -> String {
    let h = u32::from(t.h_total());
    let v = u32::from(t.v_total());
    let refresh = if h == 0 || v == 0 {
        0.0
    } else {
        (f64::from(t.pixel_clock_khz) * 1000.0) / f64::from(h * v)
    };
    format!("{}x{}@{refresh:.2}", t.h_active, t.v_active)
}

#[test]
fn hyprland_mode_matches_binary64_formatting() {
    let cases = [
        timing(138_500, 1920, 160, 1080, 31),
        timing(241_500, 2560, 160, 1440, 41),
        timing(704_260, 2560, 80, 1440, 41),
        timing(148_500, 1920, 280, 1080, 45),
        timing(25_175, 640, 160, 480, 45),
        timing(0, 1920, 160, 1080, 31),
        timing(1, 65535, 65535, 65535, 65535),
        timing(u32::MAX, 1, 0, 1, 0),
        timing(100, 0, 0, 1080, 31),
        timing(60_125, 1000, 0, 1000, 0),
        timing(60_135, 1000, 0, 1000, 0),
        timing(60_145, 1000, 0, 1000, 0),
        timing(59_875, 1000, 0, 1000, 0),
        timing(1_005, 100, 0, 100, 0),
        timing(1_015, 100, 0, 100, 0),
    ];
    for t in cases.iter() {
        assert_eq!(t.hyprland_mode(), float_mode(t), "{t:?}");
    }
    for clock in (1_000u32..400_000).step_by(997) {
        for (h, v) in [(1920u16, 1080u16), (2200, 1125), (3, 7), (1000, 1000), (800, 525)] {
            let t = timing(clock, h, 0, v, 0);
            assert_eq!(t.hyprland_mode(), float_mode(&t), "{t:?}");
        }
    }
}

#[test]
fn cta_mode_label_matches_binary64_formatting() {
    for millihz in [60_000u32, 59_940, 23_976, 119_880, 60_125, 60_135, 60_005, 60_015, 1, 0, u32::MAX] {
        let mode = CtaVideoMode {
            vic: 16,
            native: true,
            width: 1920,
            height: 1080,
            refresh_millihz: millihz,
            interlaced: false,
        };
        let refresh = f64::from(millihz) / 1000.0;
        assert_eq!(mode.label(), format!("VIC 16  1920x1080p@{refresh:.2} native"));
    }
    let unknown = CtaVideoDescriptor::Unknown { vic: 127, native: false };
    assert_eq!(unknown.label(), "VIC 127  [unmapped]");
}

#[test]
fn connector_status_reads_sysfs_text() {
    assert_eq!(ConnectorStatus::from_sysfs("connected\n"), ConnectorStatus::Connected);
    assert_eq!(ConnectorStatus::from_sysfs(" disconnected "), ConnectorStatus::Disconnected);
    assert_eq!(ConnectorStatus::from_sysfs("unknown"), ConnectorStatus::Unknown);
}

#[test]
fn kernel_parameter_names_connector_and_file() {
    let plan = ExportPlan {
        connector: "DP-1".to_string(),
        edid_file_name: "drmcru_custom_DP-1.bin".to_string(),
        hyprland_mode: "1920x1080@60.00".to_string(),
        hyprland_rule: "monitor=DP-1,1920x1080@60.00,auto,1".to_string(),
        position: "auto".to_string(),
        scale: "1".to_string(),
    };
    assert_eq!(plan.drm_kernel_parameter(), "drm.edid_firmware=DP-1:edid/drmcru_custom_DP-1.bin");
    assert_eq!(plan.hyprland_monitor_rule(), "monitor=DP-1,1920x1080@60.00,auto,1");
}
