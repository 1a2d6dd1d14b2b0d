use drmcru::models::TimingDescriptor;
use drmcru::validation::{internal_panel_scaling_warning, validate_timing, TimingWarningSeverity};

fn valid_timing() -> TimingDescriptor {
    TimingDescriptor {
        pixel_clock_khz: 138_500,
        h_active: 1920,
        h_blanking: 160,
        h_front_porch: 48,
        h_sync_width: 32,
        h_back_porch: 80,
        v_active: 1080,
        v_blanking: 31,
        v_front_porch: 3,
        v_sync_width: 5,
        v_back_porch: 23,
        h_sync_positive: true,
        v_sync_positive: false,
        interlaced: false,
    }
}

#[test]
fn valid_timing_has_no_warnings() {
    assert!(validate_timing(&valid_timing()).is_empty());
}

#[test]
fn warns_about_non_native_internal_panel_modes() {
    let native = valid_timing();
    let mut smaller = native.clone();
    smaller.h_active = 1280;
    smaller.v_active = 720;

    assert!(internal_panel_scaling_warning("eDP-1", &native, std::slice::from_ref(&native)).is_none());
    assert!(internal_panel_scaling_warning("DP-1", &native, &[smaller.clone()]).is_none());
    assert!(internal_panel_scaling_warning("eDP-1", &native, &[smaller]).is_some());
}

#[test]
fn detects_bad_blanking_sum_and_clock_limit() {
    let mut timing = valid_timing();
    timing.h_back_porch = 1;
    timing.pixel_clock_khz = 700_000;

    let warnings = validate_timing(&timing);
    assert!(warnings.iter().any(|warning| warning.severity == TimingWarningSeverity::Error));
    assert!(warnings.iter().any(|warning| warning.message.contains("horizontal porch/sync sum")));
    assert!(warnings
        .iter()
        .any(|warning| warning.message.contains("exceeds EDID DTD encoding limit")));
}

#[test]
fn scaling_warning_lists_each_size_once_in_string_order() {
    let native = valid_timing();
    let mut a = native;
    a.h_active = 800;
    a.v_active = 600;
    let mut b = native;
    b.h_active = 1280;
    b.v_active = 720;
    let warning = internal_panel_scaling_warning("eDP-1", &native, &[a, b, a, native]).expect("warning");
    assert_eq!(warning.severity, TimingWarningSeverity::Warning);
    assert!(warning
        .message
        .starts_with("internal panel modes 1280x720, 800x600 differ from native 1920x1080; "));
}

#[test]
fn unusual_refresh_is_reported_with_three_decimals() {
    let mut timing = valid_timing();
    timing.pixel_clock_khz = 20_000;
    let h_total = f64::from(timing.h_total());
    let v_total = f64::from(timing.v_total());
    let refresh = f64::from(timing.pixel_clock_khz) * 1000.0 / (h_total * v_total);
    let warnings = validate_timing(&timing);
    let expected = format!("refresh rate is unusual: {refresh:.3} Hz");
    assert!(warnings.iter().any(|w| w.message == expected), "{warnings:?}");
}

#[test]
fn each_field_limit_gives_an_error_above_and_a_warning_near() {
    let mut timing = valid_timing();
    timing.h_active = 0x1000;
    timing.v_sync_width = 0x3e;
    let warnings = validate_timing(&timing);
    assert!(warnings.iter().any(|w| w.severity == TimingWarningSeverity::Error
        && w.message == "horizontal active value 4096 exceeds EDID DTD field limit 4095"));
    assert!(warnings.iter().any(|w| w.severity == TimingWarningSeverity::Warning
        && w.message == "vertical sync width value 62 is close to EDID DTD field limit 63"));
}

#[test]
fn zero_totals_mean_refresh_cannot_be_calculated() {
    let mut timing = valid_timing();
    timing.h_active = 0;
    timing.h_blanking = 0;
    timing.h_front_porch = 0;
    timing.h_sync_width = 0;
    timing.h_back_porch = 0;
    let warnings = validate_timing(&timing);
    assert!(warnings.iter().any(|w| w.message == "refresh rate cannot be calculated"));
    assert!(warnings
        .iter()
        .any(|w| w.message == "active horizontal and vertical pixels must be greater than zero"));
}
