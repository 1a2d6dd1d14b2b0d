use drmcru::browser::ExtensionRow;
use drmcru::clipboard::{copy_displayid_dtd, copy_extension_dtd, copy_selected_detailed, paste_detailed};
use drmcru::detailed_editor::EditorMode;
use drmcru::edid::{CtaDtdSlot, DtdLocation, LocatedDetailedTiming};
use drmcru::models::{DisplayIdDetailedTiming, TimingDescriptor};

fn timing() -> TimingDescriptor {
    TimingDescriptor {
        pixel_clock_khz: 148_500,
        h_active: 1920,
        h_blanking: 280,
        h_front_porch: 88,
        h_sync_width: 44,
        h_back_porch: 148,
        v_active: 1080,
        v_blanking: 45,
        v_front_porch: 4,
        v_sync_width: 5,
        v_back_porch: 36,
        h_sync_positive: true,
        v_sync_positive: true,
        interlaced: false,
    }
}

fn rows() -> Vec<LocatedDetailedTiming> {
    vec![LocatedDetailedTiming { location: DtdLocation::Base { slot: 0 }, timing: timing() }]
}

#[test]
fn copy_needs_a_selected_existing_row() {
    assert_eq!(copy_selected_detailed(&rows(), None), Err("Select a detailed timing before Copy.".to_string()));
    assert_eq!(copy_selected_detailed(&rows(), Some(1)), Err("Selected detailed timing no longer exists.".to_string()));
    let (copied, status) = copy_selected_detailed(&rows(), Some(0)).unwrap();
    assert_eq!(copied, timing());
    assert_eq!(status, format!("Copied {}. Press p or Add to paste it into a new detailed timing.", timing().hyprland_mode()));
    assert!(status.starts_with("Copied 1920x1080@60"));
}

#[test]
fn paste_opens_the_right_editor() {
    assert_eq!(
        paste_detailed(None, false, None),
        Err("No copied detailed timing. Select one and press c first.".to_string())
    );
    let base = paste_detailed(Some(timing()), false, Some((1, 2))).unwrap();
    assert_eq!(base.draft, timing());
    assert_eq!(base.editor, Some(EditorMode::Add));
    assert_eq!(base.status, "Pasting copied detailed timing into a new editable slot.");
    let cta = paste_detailed(Some(timing()), true, Some((1, 2))).unwrap();
    assert_eq!(cta.editor, Some(EditorMode::AddCta { extension_index: 1, slot: Some(2) }));
    assert_eq!(cta.status, "Pasting copied detailed timing into the selected CTA slot.");
    let none = paste_detailed(Some(timing()), true, None).unwrap();
    assert_eq!(none.editor, None);
    assert_eq!(none.draft, timing());
    assert_eq!(none.status, "No free CTA extension DTD slot is available.");
}

#[test]
fn extension_and_displayid_copies_name_where_they_came_from() {
    let slot = CtaDtdSlot {
        extension_index: 1,
        revision: 3,
        dtd_offset: 4,
        slot: 2,
        timing: Some(timing()),
        occupied_unknown: false,
        checksum_valid: true,
    };
    let (t, status) = copy_extension_dtd(Some(&ExtensionRow::Dtd(slot))).unwrap();
    assert_eq!(t, timing());
    assert_eq!(status, format!("Copied CTA extension 1 slot 2: {}.", timing().hyprland_mode()));
    let empty = CtaDtdSlot { timing: None, ..slot };
    assert_eq!(copy_extension_dtd(Some(&ExtensionRow::Dtd(empty))), Err("Selected CTA DTD slot is empty.".to_string()));
    assert_eq!(copy_extension_dtd(None), Err("Select a detailed timing row before Copy.".to_string()));
    let d = DisplayIdDetailedTiming {
        extension_index: 2,
        data_block_index: 0,
        descriptor_index: 1,
        raw_flags: 0,
        preferred: false,
        timing: timing(),
    };
    let (t, status) = copy_displayid_dtd(&d);
    assert_eq!(t, timing());
    assert_eq!(status, format!("Copied DisplayID extension 2 DTD 1: {}.", timing().hyprland_mode()));
}
