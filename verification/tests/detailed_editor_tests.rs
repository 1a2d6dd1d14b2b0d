use drmcru::detailed_editor::{
    detailed_summary, DetailedEditor, EditorMode, FollowUp, InputOp, StandardEditor,
    StandardEditorMode,
};
use drmcru::editor::EditorField;
use drmcru::models::{StandardTiming, StandardTimingAspect, TimingDescriptor};
use drmcru::timings::TimingPreset;

fn timing() -> TimingDescriptor {
    TimingDescriptor {
        pixel_clock_khz: 138_500,
        h_active: 1920,
        h_blanking: 160,
        h_front_porch: 48,
        h_sync_width: 32,
        h_back_porch: 80,
        v_active: 1080,
        v_blanking: 31,
        v_front_porch: 3,
        v_sync_width: 5,
        v_back_porch: 23,
        h_sync_positive: true,
        v_sync_positive: false,
        interlaced: false,
    }
}

fn editor() -> DetailedEditor {
    DetailedEditor::from_timing(&timing(), EditorMode::Add)
}

#[test]
fn editor_opens_on_the_timing() {
    let e = editor();
    assert_eq!(e.render_field(EditorField::Width, true), "1920|");
    assert_eq!(e.render_field(EditorField::HTotal, false), "2080");
    assert_eq!(e.render_field(EditorField::VTotal, false), "1111");
    assert_eq!(e.render_field(EditorField::HRate, false), "66.587");
    assert_eq!(e.render_field(EditorField::Refresh, false), "59.93");
    assert_eq!(e.render_field(EditorField::Preset, false), "Manual");
    assert_eq!(e.render_field(EditorField::HPolarity, false), "H+");
    assert_eq!(e.render_field(EditorField::VPolarity, false), "V-");
    assert_eq!(e.render_field(EditorField::Interlaced, false), "no");
    assert_eq!(e.manual_timing(), Ok(timing()));
    assert_eq!(e.totals_from_fields(), Some((2080, 1111)));
}

#[test]
fn editing_a_porch_refreshes_totals_and_rates() {
    let mut e = editor();
    e.active_field = EditorField::HFront;
    assert_eq!(e.move_cursor(InputOp::End), FollowUp::Nothing);
    assert_eq!(e.backspace(), FollowUp::Nothing);
    assert_eq!(e.h_front.buffer(), "4");
    assert_eq!(e.h_blanking.buffer(), "116");
    assert_eq!(e.h_total.buffer(), "2036");
    assert_eq!(e.h_rate.buffer(), "68.026");
    assert_eq!(e.refresh_hint.buffer(), "61.229");
}

#[test]
fn typed_blanking_sets_the_back_porch() {
    let mut e = editor();
    e.active_field = EditorField::HBlanking;
    e.h_blanking.set("20");
    assert_eq!(e.insert_char('0'), FollowUp::Nothing);
    assert_eq!(e.h_back.buffer(), "120");
    assert_eq!(e.h_blanking.buffer(), "200");
    assert_eq!(e.h_total.buffer(), "2120");
    assert_eq!(e.h_rate.buffer(), "65.330");
    assert_eq!(e.refresh_hint.buffer(), "58.803");
}

#[test]
fn typed_total_too_small_leaves_no_back_porch() {
    let mut e = editor();
    e.active_field = EditorField::HTotal;
    e.h_total.set("100");
    assert_eq!(e.after_text_edit(EditorField::HTotal), FollowUp::Nothing);
    assert_eq!(e.h_back.buffer(), "0");
    assert_eq!(e.h_total.buffer(), "2000");
}

#[test]
fn size_and_rate_edits_ask_for_a_pixel_clock() {
    let mut e = editor();
    e.active_field = EditorField::Width;
    assert_eq!(e.insert_char('0'), FollowUp::PixelClockFromRefresh);
    assert_eq!(e.h_active.buffer(), "19200");
    assert_eq!(e.h_total.buffer(), "19360");
    e.active_field = EditorField::Refresh;
    assert_eq!(e.insert_char(','), FollowUp::Nothing);
    assert_eq!(e.insert_char('5'), FollowUp::PixelClockFromRefresh);
    assert_eq!(e.refresh_hint.buffer(), "59.935");
    e.active_field = EditorField::HRate;
    assert_eq!(e.insert_char('x'), FollowUp::Nothing);
    assert_eq!(e.backspace(), FollowUp::PixelClockFromHRate);
}

#[test]
fn pixel_clock_from_typed_rates() {
    let mut e = editor();
    e.set_pixel_clock_from_refresh(148_500);
    assert_eq!(e.pixel_clock.buffer(), "148500");
    assert_eq!(e.h_rate.buffer(), "71.394");
    let mut e = editor();
    e.set_pixel_clock_from_h_rate(148_500);
    assert_eq!(e.pixel_clock.buffer(), "148500");
    assert_eq!(e.refresh_hint.buffer(), "64.261");
}

#[test]
fn toggles_and_presets() {
    let mut e = editor();
    e.active_field = EditorField::HPolarity;
    assert_eq!(e.insert_char(' '), FollowUp::Nothing);
    assert!(!e.h_sync_positive);
    assert_eq!(e.toggle_field(EditorField::Interlaced), Some(FollowUp::Nothing));
    assert!(e.interlaced);
    assert_eq!(e.toggle_field(EditorField::Width), None);
    e.active_field = EditorField::Preset;
    assert_eq!(e.move_cursor(InputOp::Right), FollowUp::ApplyPreset);
    assert_eq!(e.preset, TimingPreset::AutomaticPc);
    assert_eq!(e.move_cursor(InputOp::Left), FollowUp::Nothing);
    assert_eq!(e.preset, TimingPreset::Manual);
    e.preset = TimingPreset::NativePc;
    e.active_field = EditorField::Height;
    assert_eq!(e.insert_char('1'), FollowUp::ApplyPreset);
    assert_eq!(e.preset, TimingPreset::NativePc);
    e.active_field = EditorField::VFront;
    assert_eq!(e.insert_char('1'), FollowUp::Nothing);
    assert_eq!(e.preset, TimingPreset::Manual);
}

#[test]
fn clicks_move_the_cursor_or_toggle() {
    let mut e = editor();
    assert_eq!(e.set_cursor_from_column(EditorField::HSync, 15, 0), FollowUp::Nothing);
    assert_eq!(e.active_field, EditorField::HSync);
    assert_eq!(e.h_sync.cursor(), 2);
    assert_eq!(e.set_cursor_from_column(EditorField::HSync, 14, 0), FollowUp::Nothing);
    assert_eq!(e.h_sync.cursor(), 1);
    assert_eq!(e.set_cursor_from_column(EditorField::Interlaced, 30, 0), FollowUp::Nothing);
    assert!(e.interlaced);
    e.next_field();
    assert_eq!(e.active_field, EditorField::Preset);
    e.previous_field();
    assert_eq!(e.active_field, EditorField::Interlaced);
}

#[test]
fn setting_timing_fields_keeps_the_refresh_hint() {
    let mut e = editor();
    e.refresh_hint.set("75");
    let other = TimingDescriptor { h_active: 2560, pixel_clock_khz: 200_000, ..timing() };
    e.set_timing_fields(&other);
    assert_eq!(e.h_active.buffer(), "2560");
    assert_eq!(e.h_total.buffer(), "2720");
    assert_eq!(e.pixel_clock.buffer(), "200000");
    assert_eq!(e.refresh_hint.buffer(), "75");
}

#[test]
fn detailed_summary_lists_the_timing() {
    let summary = detailed_summary(&Ok(timing()), TimingPreset::Manual);
    let lines: Vec<&str> = summary.split('\n').collect();
    assert_eq!(lines[0], "Detailed Timing Summary");
    assert_eq!(lines[1], "Mode: 1920x1080@59.93");
    assert_eq!(
        lines[2],
        "Pixel clock: 138500 kHz   Horizontal rate: 66.587 kHz   Refresh: 59.934 Hz"
    );
    assert_eq!(lines[3], "Horizontal blanking 160 total 2080   Vertical blanking 31 total 1111");
    assert_eq!(lines[4], "Sync polarity: H+ V-   Interlaced: no");
    assert_eq!(lines[5], "Preset: Manual");
    assert_eq!(
        detailed_summary(&Err("invalid pixel clock"), TimingPreset::Manual),
        "Invalid detailed timing: invalid pixel clock."
    );
}

#[test]
fn standard_editor_fields_and_summary() {
    let t = StandardTiming {
        slot: 0,
        width: 1920,
        height: 1080,
        refresh_hz: 60,
        aspect: StandardTimingAspect::SixteenNine,
    };
    let mut e = StandardEditor::from_timing(&t, StandardEditorMode::Add);
    assert_eq!(
        e.derived_text(),
        "Encodable EDID Standard Timing\nMode: 1920x1080 @ 60 Hz\nAspect: 16:9\nThis writes one base-block standard timing slot."
    );
    e.next_field();
    e.next_field();
    assert_eq!(e.active_field, EditorField::Refresh);
    e.insert_char('x');
    e.insert_char('0');
    assert_eq!(e.refresh.buffer(), "600");
    assert!(e.derived_text().starts_with("Not encodable: refresh must be 60..123 Hz\n"));
    e.edit_active(InputOp::Backspace);
    assert_eq!(e.timing().unwrap().refresh_hz, 60);
    e.previous_field();
    assert_eq!(e.active_field, EditorField::Height);
    e.set_cursor_from_column(EditorField::Width, 14, 0);
    assert_eq!(e.width.cursor(), 1);
}
