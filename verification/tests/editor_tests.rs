use drmcru::editor::{
    axis_parts, back_from_blanking, back_from_total, blanking_and_total, cycle_detailed_field,
    detailed_field_order, manual_timing, parse_u16, parse_u32, standard_next_field,
    standard_previous_field, standard_timing_from_fields, totals_from_parts, wrap_index,
    EditorField, TextInput,
};
use drmcru::hyprland::{command_output_text, lua_monitor_expression, lua_string};
use drmcru::models::StandardTimingAspect;

fn input(text: &str) -> TextInput {
    TextInput::new(text)
}

#[test]
fn text_input_starts_with_cursor_at_end() {
    let field = input("1920");
    assert_eq!(field.buffer(), "1920");
    assert_eq!(field.cursor(), 4);
    assert_eq!(field.render(true), "1920|");
    assert_eq!(field.render(false), "1920");
}

#[test]
fn text_input_edits_at_the_cursor() {
    let mut field = input("1920");
    field.move_left();
    field.move_left();
    assert_eq!(field.render(true), "19|20");
    field.insert('5');
    assert_eq!(field.buffer(), "19520");
    assert_eq!(field.cursor(), 3);
    field.backspace();
    assert_eq!(field.buffer(), "1920");
    assert_eq!(field.cursor(), 2);
    field.delete();
    assert_eq!(field.buffer(), "190");
    assert_eq!(field.cursor(), 2);
    field.move_home();
    assert_eq!(field.cursor(), 0);
    field.backspace();
    assert_eq!(field.buffer(), "190");
    field.move_left();
    assert_eq!(field.cursor(), 0);
    field.move_end();
    assert_eq!(field.cursor(), 3);
    field.delete();
    assert_eq!(field.buffer(), "190");
    field.move_right();
    assert_eq!(field.cursor(), 3);
    field.set_cursor(1);
    assert_eq!(field.render(true), "1|90");
    field.set_cursor(99);
    assert_eq!(field.cursor(), 3);
}

#[test]
fn comma_is_typed_as_decimal_point() {
    let mut field = input("59");
    field.insert(',');
    field.insert('9');
    assert_eq!(field.buffer(), "59.9");
}

#[test]
fn inserting_then_backspacing_restores_the_field() {
    let mut field = input("144");
    field.set_cursor(1);
    field.insert('7');
    field.backspace();
    assert_eq!(field.buffer(), "144");
    assert_eq!(field.cursor(), 1);
}

#[test]
fn set_and_duplicate_keep_text() {
    let mut field = input("x");
    field.set("2560");
    assert_eq!(field.buffer(), "2560");
    assert_eq!(field.cursor(), 4);
    let copy = field.duplicate();
    assert_eq!(copy.buffer(), "2560");
    assert_eq!(copy.cursor(), 4);
}

#[test]
fn fields_accept_their_characters() {
    let empty = input("");
    let dotted = input("60.");
    assert!(EditorField::Width.allows('7', &empty));
    assert!(!EditorField::Width.allows('.', &empty));
    assert!(EditorField::Refresh.allows('.', &empty));
    assert!(EditorField::HRate.allows(',', &empty));
    assert!(!EditorField::Refresh.allows('.', &dotted));
    assert!(!EditorField::Preset.allows('1', &empty));
    assert!(EditorField::PixelClock.is_text_field());
    assert!(!EditorField::Interlaced.is_text_field());
}

#[test]
fn numbers_parse_like_str_parse() {
    assert_eq!(parse_u16("65535"), Some(65535));
    assert_eq!(parse_u16("65536"), None);
    assert_eq!(parse_u16("+5"), Some(5));
    assert_eq!(parse_u16(""), None);
    assert_eq!(parse_u16("+"), None);
    assert_eq!(parse_u16("-1"), None);
    assert_eq!(parse_u16(" 1"), None);
    assert_eq!(parse_u16("007"), Some(7));
    assert_eq!(parse_u32("4294967295"), Some(4294967295));
    assert_eq!(parse_u32("4294967296"), None);
    assert_eq!(parse_u32("148500"), Some(148500));
}

#[test]
fn manual_timing_from_fields() {
    let t = manual_timing(
        &input("1920"),
        &input("1080"),
        &input("88"),
        &input("44"),
        &input("148"),
        &input("4"),
        &input("5"),
        &input("36"),
        &input("148500"),
        true,
        false,
        false,
    )
    .unwrap();
    assert_eq!(t.pixel_clock_khz, 148500);
    assert_eq!(t.h_active, 1920);
    assert_eq!(t.h_blanking, 280);
    assert_eq!(t.v_active, 1080);
    assert_eq!(t.v_blanking, 45);
    assert_eq!(t.v_back_porch, 36);
    assert!(t.h_sync_positive);
    assert!(!t.v_sync_positive);
}

#[test]
fn manual_timing_names_the_first_bad_field() {
    let ok = |s: &str| input(s);
    let err = manual_timing(
        &ok("1920"), &ok("x"), &ok("88"), &ok("44"), &ok("148"), &ok("4"), &ok("5"), &ok("36"),
        &ok("148500"), true, true, false,
    );
    assert_eq!(err.unwrap_err(), "invalid vertical active pixels");
    let err = manual_timing(
        &ok("1920"), &ok("1080"), &ok("88"), &ok("44"), &ok("148"), &ok("4"), &ok("5"), &ok("36"),
        &ok("abc"), true, true, false,
    );
    assert_eq!(err.unwrap_err(), "invalid pixel clock");
    let err = manual_timing(
        &ok("0"), &ok("1080"), &ok("88"), &ok("44"), &ok("148"), &ok("4"), &ok("5"), &ok("36"),
        &ok("148500"), true, true, false,
    );
    assert_eq!(err.unwrap_err(), "active pixels and pixel clock must be greater than zero");
    let err = manual_timing(
        &ok("1920"), &ok("1080"), &ok("60000"), &ok("6000"), &ok("148"), &ok("4"), &ok("5"),
        &ok("36"), &ok("148500"), true, true, false,
    );
    assert_eq!(err.unwrap_err(), "horizontal blanking exceeds EDID limits");
    let err = manual_timing(
        &ok("1920"), &ok("1080"), &ok("88"), &ok("44"), &ok("148"), &ok("65535"), &ok("1"),
        &ok("0"), &ok("148500"), true, true, false,
    );
    assert_eq!(err.unwrap_err(), "vertical blanking exceeds EDID limits");
}

#[test]
fn standard_timing_fields() {
    let t = standard_timing_from_fields(&input("1920"), &input("1080"), &input("60")).unwrap();
    assert_eq!(t.width, 1920);
    assert_eq!(t.height, 1080);
    assert_eq!(t.refresh_hz, 60);
    assert_eq!(t.aspect, StandardTimingAspect::SixteenNine);
    assert_eq!(
        standard_timing_from_fields(&input("1920"), &input("1080"), &input("59.9")).unwrap_err(),
        "refresh must be an integer"
    );
    assert_eq!(
        standard_timing_from_fields(&input("2560"), &input("1440"), &input("60")).unwrap_err(),
        "width must be 256..2288"
    );
    assert_eq!(
        standard_timing_from_fields(&input("1004"), &input("753"), &input("60")).unwrap_err(),
        "width must be divisible by 8"
    );
    assert_eq!(
        standard_timing_from_fields(&input("1920"), &input("1080"), &input("124")).unwrap_err(),
        "refresh must be 60..123 Hz"
    );
    assert_eq!(
        standard_timing_from_fields(&input("1920"), &input("1000"), &input("60")).unwrap_err(),
        "height must match 16:10, 4:3, 5:4, or 16:9 exactly"
    );
    assert_eq!(
        standard_timing_from_fields(&input(""), &input("1000"), &input("60")).unwrap_err(),
        "invalid width"
    );
}

#[test]
fn axis_arithmetic() {
    let h = axis_parts(&input("1920"), &input("88"), &input("44"), &input("148")).unwrap();
    assert_eq!(h, (1920, 88, 44, 148));
    assert_eq!(axis_parts(&input("1920"), &input(""), &input("44"), &input("148")), None);
    assert_eq!(blanking_and_total(h), (280, 2200));
    let v = (1080, 4, 5, 36);
    assert_eq!(totals_from_parts(h, v), Some((2200, 1125)));
    assert_eq!(totals_from_parts((0, 0, 0, 0), v), None);
    assert_eq!(back_from_blanking(&input("300"), h), Some(168));
    assert_eq!(back_from_blanking(&input("100"), h), Some(0));
    assert_eq!(back_from_blanking(&input("x"), h), None);
    assert_eq!(back_from_total(&input("2200"), h), Some(148));
    assert_eq!(back_from_total(&input("1000"), h), Some(0));
    assert_eq!(back_from_total(&input("4000000000"), h), Some(65535));
}

#[test]
fn ring_indices_wrap_both_ways() {
    assert_eq!(wrap_index(0, 19, -1), 18);
    assert_eq!(wrap_index(18, 19, 1), 0);
    assert_eq!(wrap_index(5, 19, 40), 7);
    assert_eq!(wrap_index(3, 0, 2), 0);
    assert_eq!(wrap_index(2, 5, -13), 4);
}

#[test]
fn detailed_fields_cycle_in_tab_order() {
    let order = detailed_field_order();
    assert_eq!(order.len(), 19);
    assert_eq!(order[0], (EditorField::Preset, "Timing"));
    assert_eq!(order[18], (EditorField::Interlaced, "Interlace"));
    assert_eq!(cycle_detailed_field(EditorField::Preset, 1), EditorField::Width);
    assert_eq!(cycle_detailed_field(EditorField::Preset, -1), EditorField::Interlaced);
    assert_eq!(cycle_detailed_field(EditorField::HTotal, 1), EditorField::Height);
    assert_eq!(cycle_detailed_field(EditorField::Interlaced, 1), EditorField::Preset);
    assert_eq!(cycle_detailed_field(EditorField::VTotal, 19), EditorField::VTotal);
}

#[test]
fn standard_fields_cycle() {
    assert_eq!(standard_next_field(EditorField::Width), EditorField::Height);
    assert_eq!(standard_next_field(EditorField::Refresh), EditorField::Width);
    assert_eq!(standard_previous_field(EditorField::Width), EditorField::Refresh);
    assert_eq!(standard_previous_field(EditorField::Height), EditorField::Width);
}

#[test]
fn lua_strings_escape_quotes_and_backslashes() {
    assert_eq!(lua_string("DP-1"), "\"DP-1\"");
    assert_eq!(lua_string("a\"b\\c"), "\"a\\\"b\\\\c\"");
}

#[test]
fn command_output_joins_trimmed_streams() {
    assert_eq!(command_output_text(" ok \n", ""), "ok");
    assert_eq!(command_output_text("", " failed\n"), "failed");
    assert_eq!(command_output_text("ok\n", "warn\n"), "ok\nwarn");
    assert_eq!(command_output_text(" ", "\n"), "");
}

#[test]
fn monitor_argument_becomes_lua_call() {
    assert_eq!(
        lua_monitor_expression("DP-1,2560x1440@143.91,0x0,1").unwrap(),
        "hl.monitor({ output = \"DP-1\", mode = \"2560x1440@143.91\", position = \"0x0\", scale = 1 })"
    );
    assert_eq!(
        lua_monitor_expression("DP-1,preferred,auto,1,transform,1").unwrap(),
        "hl.monitor({ output = \"DP-1\", mode = \"preferred\", position = \"auto\", scale = 1,transform,1 })"
    );
    assert_eq!(lua_monitor_expression("DP-1,preferred,auto"), None);
}
