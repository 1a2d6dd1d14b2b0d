use drmcru::browser::{
    cta_header_line, export_confirm_text, export_summary, monitor_detail_lines, page_delta, scrolled,
    verification_lines, LiveMonitor, ModeCheck,
};
use drmcru::export::{build_export_plan_with_file, ExportResult};
use drmcru::install::FirmwareEdidComparison;
use drmcru::models::ConnectorStatus;
use drmcru::browser::{
    applied_detailed_status, applied_standard_status, details_title, internal_panel_timing_warning,
    keep_selected_visible, scroll_title, selection_after_delete, shown_edid, workspace_validation_issues,
    ModeCatalog, ModeKey, ResolutionSection,
};
use drmcru::demo::sample_edid;
use drmcru::edid::{parse_edid, DtdLocation};
use drmcru::models::{EdidData, StandardTiming, StandardTimingAspect, TimingDescriptor};
use drmcru::validation::TimingWarning;
use drmcru::workspace::EdidWorkspace;

fn demo_edid() -> EdidData {
    parse_edid(sample_edid().expect("demo EDID")).expect("parsed demo EDID")
}

fn demo_workspace() -> EdidWorkspace {
    EdidWorkspace::new(sample_edid().expect("demo EDID")).expect("workspace")
}

fn timing_1080p59() -> TimingDescriptor {
    TimingDescriptor {
        pixel_clock_khz: 138_500,
        h_active: 1920,
        h_blanking: 160,
        h_front_porch: 48,
        h_sync_width: 32,
        h_back_porch: 80,
        v_active: 1080,
        v_blanking: 31,
        v_front_porch: 3,
        v_sync_width: 5,
        v_back_porch: 23,
        h_sync_positive: true,
        v_sync_positive: false,
        interlaced: false,
    }
}

fn timing_1080p60() -> TimingDescriptor {
    TimingDescriptor { pixel_clock_khz: 138_653, ..timing_1080p59() }
}

#[test]
fn mode_keys_round_refresh_to_millihertz() {
    let key = ModeKey::from_timing(&timing_1080p59()).unwrap();
    assert_eq!(key.refresh_millihz, 59_934);
    assert_eq!(key.text(), "1920x1080 @ 59.934 Hz");
    assert_eq!(ModeKey::from_hz(1920, 1080, 60).text(), "1920x1080 @ 60.000 Hz");
    let blank = TimingDescriptor { h_active: 0, h_blanking: 0, ..timing_1080p59() };
    assert_eq!(ModeKey::from_timing(&blank), None);
    let interlaced = ModeKey { interlaced: true, ..ModeKey::from_hz(1920, 1080, 60) };
    assert_eq!(interlaced.text(), "1920x1080 @ 60.000 Hz interlaced");
}

#[test]
fn scrolling_keeps_the_selection_in_view() {
    let mut scroll = 0;
    keep_selected_visible(Some(10), &mut scroll, 20, 5);
    assert_eq!(scroll, 6);
    let mut scroll = 8;
    keep_selected_visible(Some(2), &mut scroll, 20, 5);
    assert_eq!(scroll, 2);
    let mut scroll = 30;
    keep_selected_visible(None, &mut scroll, 20, 5);
    assert_eq!(scroll, 15);
    let mut scroll = 3;
    keep_selected_visible(Some(1), &mut scroll, 4, 5);
    assert_eq!(scroll, 0);
    let mut scroll = 0;
    keep_selected_visible(Some(3), &mut scroll, 4, 0);
    assert_eq!(scroll, 3);
}

#[test]
fn scroll_titles_show_range_and_arrows() {
    assert_eq!(scroll_title("Detailed resolutions", 0, 3, 5), "Detailed resolutions");
    assert_eq!(scroll_title("Detailed resolutions", 0, 20, 5), "Detailed resolutions  ↓ 1-5/20");
    assert_eq!(scroll_title("Detailed resolutions", 15, 20, 5), "Detailed resolutions ↑  16-20/20");
    assert_eq!(scroll_title("Detailed resolutions", 4, 20, 5), "Detailed resolutions ↑↓ 5-9/20");
    assert_eq!(details_title("Monitor Details", 0, 30, 10), "Monitor Details  1-10/30↓");
    assert_eq!(details_title("Monitor Details", 25, 30, 10), "Monitor Details ↑26-30/30 ");
    assert_eq!(details_title("Monitor Details", 0, 3, 10), "Monitor Details");
}

#[test]
fn catalog_lists_workspace_rows_and_video_modes() {
    let workspace = demo_workspace();
    let edid = shown_edid(None, Some(&workspace)).unwrap();
    let catalog = ModeCatalog::new(Some(edid), Some(&workspace));
    assert_eq!(catalog.established.len(), 2);
    assert_eq!(catalog.standard.len(), 2);
    assert_eq!(catalog.detailed.len(), 4);
    let slots = workspace.cta_dtd_slots().unwrap();
    assert_eq!(catalog.extension.len(), 4 + slots.len());

    let without_workspace = ModeCatalog::new(Some(edid), None);
    assert_eq!(without_workspace.standard.len(), 0);
    assert_eq!(without_workspace.extension.len(), 4);
}

#[test]
fn provenance_lists_every_place_a_mode_appears() {
    let workspace = demo_workspace();
    let catalog = ModeCatalog::new(Some(workspace.parsed()), Some(&workspace));
    let key = ModeKey::from_hz(1920, 1080, 60);
    assert_eq!(catalog.sources(key), vec!["Standard slot 0", "CTA ext 1 VIC 16"]);
    assert_eq!(catalog.provenance_suffix(key), "  [2 sources]");
    // The CTA timing stores its clock in 10 kHz steps and lands at 59.999 Hz.
    let stored = ModeKey { refresh_millihz: 59_999, ..key };
    assert_eq!(
        catalog.sources(stored),
        vec!["CTA-861 extension 1 DTD slot 0", "CTA ext 1 DTD slot 0"]
    );
    let lonely = ModeKey::from_hz(640, 480, 60);
    assert_eq!(catalog.sources(lonely), vec!["Established row 1"]);
    assert_eq!(catalog.provenance_suffix(lonely), "");
    let nowhere = ModeKey::from_hz(800, 600, 56);
    assert!(catalog.sources(nowhere).is_empty());
    assert_eq!(catalog.provenance(nowhere), vec!["Selected row"]);
}

#[test]
fn details_of_standard_and_established_rows() {
    let workspace = demo_workspace();
    let catalog = ModeCatalog::new(Some(workspace.parsed()), Some(&workspace));
    let details = catalog.standard_details(Some(0)).unwrap();
    assert_eq!(details.title, "Standard Resolution Details");
    assert_eq!(
        details.lines,
        vec![
            "Source: Base EDID standard timing identifier",
            "Slot: 0",
            "Mode: 1920x1080 @ 60 Hz",
            "Aspect encoding: 16:9",
            "Limit: standard timings only encode 16:10, 4:3, 5:4, and 16:9 shapes.",
            "",
            "Mode key: 1920x1080 @ 60.000 Hz",
            "Sources: 2",
            "  - Standard slot 0",
            "  - CTA ext 1 VIC 16",
        ]
    );
    let established = catalog.established_details(Some(1)).unwrap();
    assert_eq!(established.title, "Established Resolution Details");
    assert_eq!(established.lines[1], "Row: 2");
    assert_eq!(established.lines[2], "Mode: 1024x768 @ 60 Hz");
    assert!(catalog.established_details(Some(2)).is_none());
    assert!(catalog.standard_details(None).is_none());
}

#[test]
fn details_of_detailed_and_extension_rows() {
    let workspace = demo_workspace();
    let catalog = ModeCatalog::new(Some(workspace.parsed()), Some(&workspace));
    let details = catalog.detailed_details(Some(2)).unwrap();
    assert_eq!(details.title, "Detailed Resolution Details");
    assert_eq!(details.lines[0], "Source: Detailed Timing Descriptor");
    assert_eq!(details.lines[2], "Location: base DTD slot 2");
    assert!(details.lines.contains(&"Mode key: 1920x1080 @ 119.998 Hz".to_string()));
    assert!(details.lines.contains(&"Sources: 1".to_string()));
    assert_eq!(details.lines.last().unwrap(), "  - base DTD slot 2");

    let video = catalog.extension_details(Some(0)).unwrap();
    assert_eq!(video.title, "CTA Video Mode Details");
    assert_eq!(video.lines[2], "Descriptor: VIC 16  1920x1080p@60.00 native");
    assert_eq!(video.lines[3], "Mapped: yes");
    assert_eq!(video.lines[7], "Refresh: 60.000 Hz");

    let free = catalog.extension_details(Some(5)).unwrap();
    assert_eq!(free.title, "CTA DTD Slot Details");
    assert_eq!(free.lines[0], "Source: CTA-861 Detailed Timing Descriptor slot");
    assert_eq!(free.lines[1], "Location: CTA-861 extension 1 DTD slot 1");
    assert_eq!(free.lines[2], "State: free");
    assert_eq!(free.lines[5], "Checksum: ok");
}

#[test]
fn row_lines_and_section_titles() {
    let workspace = demo_workspace();
    let catalog = ModeCatalog::new(Some(workspace.parsed()), Some(&workspace));
    assert_eq!(
        catalog.standard_row_text(0, Some(0)),
        "> slot 0  1920x1080 @ 60 Hz  16:9  [2 sources]"
    );
    assert_eq!(
        catalog.detailed_row_text(2, Some(2)),
        "> 1920x1080@120.00   base DTD slot 2"
    );
    assert_eq!(
        catalog.extension_row_text(0, None),
        "    CTA ext 1 video  VIC 16  1920x1080p@60.00 native  [2 sources]"
    );
    assert_eq!(
        catalog.extension_row_text(4, None),
        "    DTD slot 1.0  1920x1080@60.00    checksum ok  [2 sources]"
    );
    assert_eq!(
        catalog.extension_row_text(5, Some(5)),
        ">   DTD slot 1.1  [free DTD slot]    checksum ok"
    );
    assert_eq!(catalog.established_row_text(0, None), "  640x480 @ 60 Hz");
    let summary = workspace.slot_summary().ok();
    assert_eq!(
        catalog.section_title(ResolutionSection::Standard, summary, 0, 10),
        "Standard resolutions  2/8 used, 6 free"
    );
    assert_eq!(
        catalog.section_title(ResolutionSection::Detailed, summary, 0, 10),
        "Detailed resolutions  base 3/3 used, 0 free"
    );
    assert_eq!(
        catalog.section_title(ResolutionSection::Detailed, None, 0, 10),
        "Detailed resolutions"
    );
}

#[test]
fn free_cta_slots_and_row_lookup() {
    let workspace = demo_workspace();
    let catalog = ModeCatalog::new(Some(workspace.parsed()), Some(&workspace));
    assert_eq!(catalog.selected_or_first_free_cta_slot(None), Some((1, 1)));
    assert_eq!(catalog.selected_or_first_free_cta_slot(Some(4)), Some((1, 1)));
    assert_eq!(catalog.selected_or_first_free_cta_slot(Some(7)), Some((1, 3)));
    assert_eq!(
        catalog.extension_row_index_for_location(DtdLocation::Cta { extension_index: 1, slot: 1 }),
        Some(5)
    );
    assert_eq!(
        catalog.extension_row_index_for_location(DtdLocation::Base { slot: 0 }),
        None
    );
    assert_eq!(catalog.fallback_target_mode().unwrap(), "2560x1440@144.00");
    let empty = ModeCatalog::new(None, None);
    assert_eq!(empty.fallback_target_mode(), None);
    assert_eq!(empty.selected_or_first_free_cta_slot(None), None);
}

#[test]
fn extension_summary_lines() {
    let edid = demo_edid();
    let line = cta_header_line(&edid.cta_blocks[0]);
    assert_eq!(line, "CTA ext 1 rev 3  data Video(4 VIC)  DTDs 1 used, 5 free  checksum ok");
}

#[test]
fn export_issues_without_a_monitor_or_edid() {
    let catalog = ModeCatalog::new(None, None);
    assert_eq!(
        catalog.export_validation_issues(false, None, None, &timing_1080p60(), None),
        vec!["Error: No monitor is selected."]
    );
    assert_eq!(
        catalog.export_validation_issues(true, None, None, &timing_1080p60(), None),
        vec!["Error: Selected monitor has no readable EDID to patch."]
    );
}

#[test]
fn export_issues_of_patching_with_a_duplicate_draft() {
    let edid = demo_edid();
    let workspace = demo_workspace();
    let catalog = ModeCatalog::new(Some(workspace.parsed()), Some(&workspace));
    let issues =
        catalog.export_validation_issues(true, Some(&edid), Some(&workspace), &timing_1080p60(), None);
    assert_eq!(
        issues[0],
        "Warning: No workspace EDID changes are pending; export will insert the current draft detailed timing."
    );
    assert_eq!(
        issues.last().unwrap(),
        "Warning: Draft timing duplicates an existing mode in 2 source(s): Standard slot 0, CTA ext 1 VIC 16."
    );
    assert!(!issues.iter().any(|issue| issue.starts_with("Error:")));

    let no_workspace =
        catalog.export_validation_issues(true, Some(&edid), None, &timing_1080p59(), None);
    assert_eq!(
        no_workspace[0],
        "Error: No free base or CTA detailed timing slot is visible for draft insertion."
    );
}

#[test]
fn workspace_issues_are_sorted_and_unique() {
    let mut workspace = demo_workspace();
    workspace.add_cta_dtd(1, timing_1080p59()).expect("added");
    let panel = TimingWarning::warning("panel");
    let issues = workspace_validation_issues(&workspace, Some(&panel));
    let mut expected = issues.clone();
    expected.sort();
    expected.dedup();
    assert_eq!(issues, expected);
    assert!(issues.contains(&"Warning: panel".to_string()));

    let edid = demo_edid();
    let catalog = ModeCatalog::new(Some(workspace.parsed()), Some(&workspace));
    let exported =
        catalog.export_validation_issues(true, Some(&edid), Some(&workspace), &timing_1080p60(), Some(&panel));
    assert_eq!(exported, issues);
}

#[test]
fn internal_panel_warning_compares_with_native_size() {
    let edid = demo_edid();
    let small = TimingDescriptor { h_active: 1280, v_active: 720, ..timing_1080p59() };
    let warning = internal_panel_timing_warning("eDP-1", Some(&edid), None, &small).unwrap();
    assert!(warning
        .message
        .starts_with("internal panel modes 1280x720 differ from native 2560x1440"));
    assert!(internal_panel_timing_warning("DP-1", Some(&edid), None, &small).is_none());
    assert!(internal_panel_timing_warning("eDP-1", None, None, &small).is_none());
}

#[test]
fn selection_and_status_after_edits() {
    assert_eq!(selection_after_delete(5, 3), Some(2));
    assert_eq!(selection_after_delete(1, 3), Some(1));
    assert_eq!(selection_after_delete(0, 0), None);
    let standard = StandardTiming {
        slot: 2,
        width: 1600,
        height: 900,
        refresh_hz: 75,
        aspect: StandardTimingAspect::SixteenNine,
    };
    assert_eq!(
        applied_standard_status(2, &standard),
        "Applied standard timing slot 2: 1600x900 @ 75 Hz."
    );
    assert_eq!(
        applied_detailed_status(&timing_1080p59(), DtdLocation::Base { slot: 1 }, 2),
        "Applied 1920x1080@59.93 at base DTD slot 1. Export writes the workspace EDID. 2 timing warning(s)."
    );
    assert_eq!(
        applied_detailed_status(&timing_1080p59(), DtdLocation::Base { slot: 1 }, 0),
        "Applied 1920x1080@59.93 at base DTD slot 1. Export writes the workspace EDID."
    );
}

#[test]
fn dialog_scrolling_stays_in_range() {
    assert_eq!(scrolled(0, 20, 1), 1);
    assert_eq!(scrolled(18, 20, 5), 19);
    assert_eq!(scrolled(3, 20, -5), 0);
    assert_eq!(scrolled(7, 20, -2), 5);
    assert_eq!(scrolled(4, 0, 1), 0);
    assert_eq!(page_delta(1), 10);
    assert_eq!(page_delta(-1), -10);
    assert_eq!(page_delta(isize::MAX), isize::MAX);
}

#[test]
fn export_dialog_texts() {
    let plan = build_export_plan_with_file("DP-1", "drmcru_custom_DP-1.bin", timing_1080p59());
    let result = ExportResult {
        path: "/tmp/drmcru_custom_DP-1.bin".to_string(),
        instructions_path: "/tmp/drmcru_custom_DP-1.txt".to_string(),
        plan,
        insert_location: Some(DtdLocation::Base { slot: 1 }),
    };
    let text = export_summary(&result);
    let lines: Vec<&str> = text.split('\n').collect();
    assert_eq!(lines[0], "Wrote: /tmp/drmcru_custom_DP-1.bin");
    assert_eq!(lines[2], "Source: base DTD slot 1");
    assert_eq!(lines[5], "drm.edid_firmware=DP-1:edid/drmcru_custom_DP-1.bin");
    assert_eq!(lines[8], "monitor=DP-1,1920x1080@59.93,auto,1");

    let few = vec!["Warning: a".to_string(), "Warning: b".to_string()];
    assert_eq!(
        export_confirm_text(&few),
        "Review these warnings before writing the EDID:\n\n- Warning: a\n- Warning: b"
    );
    let many: Vec<String> = (0..10).map(|i| format!("Warning: {i}")).collect();
    let text = export_confirm_text(&many);
    assert!(text.ends_with("- Warning: 7\n- ... 2 more warning(s) not shown"));
}

#[test]
fn monitor_details_start_with_identity() {
    let edid = demo_edid();
    let live = LiveMonitor {
        name: "DP-1".to_string(),
        description: "Example Display".to_string(),
        active_width: Some(2560),
        active_height: None,
        refresh_text: "143.998".to_string(),
        available_modes: 12,
    };
    let lines = monitor_detail_lines("DP-1", None, ConnectorStatus::Connected, Some(&live), Some(&edid));
    assert_eq!(lines[0], "Connector: DP-1");
    assert_eq!(lines[1], "DRM path: (unknown)");
    assert_eq!(lines[2], "Status: Connected");
    assert_eq!(lines[5], "Current mode: 2560x0 @ 143.998 Hz");
    assert_eq!(lines[6], "Available modes reported: 12");
    assert_eq!(lines[7], "EDID monitor name: Example Displ");
    assert_eq!(lines[9], "Extension blocks: 1");
    assert_eq!(lines[12], "Base checksum: ok");
    let bare = monitor_detail_lines("HDMI-A-1", Some("/sys/class/drm/card0-HDMI-A-1"), ConnectorStatus::Unknown, None, None);
    assert_eq!(
        bare,
        vec!["Connector: HDMI-A-1", "DRM path: /sys/class/drm/card0-HDMI-A-1", "Status: Unknown"]
    );
}

#[test]
fn verification_summary_gives_a_verdict() {
    let comparison = FirmwareEdidComparison::MissingLiveEdid;
    let unavailable = "2560x1440@165.00 is not exposed".to_string();
    let active = ModeCheck {
        active: Some("2560x1440@143.99".to_string()),
        available_mode: Some("2560x1440@143.99".to_string()),
        active_matches: true,
        monitor_rule: Some("monitor=DP-1,2560x1440@143.99,0x0,1".to_string()),
    };
    let config = vec!["Config: rule found".to_string()];
    let lines = verification_lines(
        "DP-1", "2560x1440@144.00", "Detailed resolutions", None, &comparison, Ok(&active), &config, &unavailable,
    );
    assert_eq!(lines[0], "Connector: DP-1");
    assert_eq!(lines[1], "Selected:  2560x1440@144.00");
    assert_eq!(lines[2], "Source:    Detailed resolutions");
    assert_eq!(lines[3], "");
    assert_eq!(lines[4], "Hyprland active: 2560x1440@143.99");
    assert_eq!(lines[5], "Selected mode exposed: yes");
    assert_eq!(lines[6], "Exact Hyprland mode: 2560x1440@143.99");
    assert_eq!(lines[7], "Selected mode active: yes");
    assert_eq!(lines[9], "Persist this exact Hyprland rule for reloads:");
    assert_eq!(lines[11], "Config: rule found");
    assert_eq!(
        lines.last().unwrap(),
        "Result: selected mode is active. If reload changes it, fix the Hyprland rule."
    );
    let missing = ModeCheck { active: None, available_mode: None, active_matches: false, monitor_rule: None };
    let lines = verification_lines(
        "DP-1", "2560x1440@165.00", "Standard resolutions", None, &comparison, Ok(&missing), &config, &unavailable,
    );
    assert_eq!(lines[4], "Hyprland active: unknown");
    assert_eq!(lines.last().unwrap(), &unavailable);
    let lines = verification_lines(
        "DP-1", "2560x1440@165.00", "Standard resolutions", None, &comparison, Err("no socket"), &config, &unavailable,
    );
    assert_eq!(lines[4], "Hyprland inspection failed: no socket");
    assert_eq!(
        lines.last().unwrap(),
        "Result: cannot verify runtime mode state until Hyprland is reachable."
    );
}
