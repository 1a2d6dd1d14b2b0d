use drmcru::system_action::{apply_result_text, SystemOperation};
use drmcru::text::lines_of;

#[test]
fn result_dialog_text_per_outcome() {
    let (title, lines) = apply_result_text(SystemOperation::Install, true, "ok\r\ndone\n");
    assert_eq!(title, "Install EDID — Success");
    assert_eq!(
        lines,
        vec![
            "Custom EDID installed successfully!",
            "",
            "Reboot to activate the custom resolution.",
            "After reboot, set your monitor rule in Hyprland config.",
            "",
            "ok",
            "done",
        ]
    );
    let (title, lines) = apply_result_text(SystemOperation::Uninstall, false, "");
    assert_eq!(title, "Uninstall EDID — Failed");
    assert_eq!(lines, vec!["Uninstall failed. Details:", ""]);
    let (title, lines) = apply_result_text(SystemOperation::Update, true, "x");
    assert_eq!(title, "Update EDID — Success");
    assert_eq!(lines.len(), 5);
}

#[test]
fn lines_split_like_str_lines() {
    for s in ["", "a", "a\n", "a\r\nb", "a\n\nb\n", "a\r", "\r\n", "x\r\r\ny"] {
        let expected: Vec<String> = s.lines().map(str::to_string).collect();
        assert_eq!(lines_of(s), expected, "{s:?}");
    }
}
