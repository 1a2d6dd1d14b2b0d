use drmcru::edid::{block_checksum_valid, patch_base_detailed_timing, DtdLocation};
use drmcru::models::{StandardTiming, StandardTimingAspect, TimingDescriptor};
use drmcru::workspace::{EdidWorkspace, MoveDirection, WorkspaceOperation};

const HEADER: [u8; 8] = [0x00, 0xff, 0xff, 0xff, 0xff, 0xff, 0xff, 0x00];

fn sample_timing() -> TimingDescriptor {
    TimingDescriptor {
        pixel_clock_khz: 138_500,
        h_active: 1920,
        h_blanking: 160,
        h_front_porch: 48,
        h_sync_width: 32,
        h_back_porch: 80,
        v_active: 1080,
        v_blanking: 31,
        v_front_porch: 3,
        v_sync_width: 5,
        v_back_porch: 23,
        h_sync_positive: true,
        v_sync_positive: false,
        interlaced: false,
    }
}

fn alternate_timing() -> TimingDescriptor {
    TimingDescriptor {
        pixel_clock_khz: 241_500,
        h_active: 2560,
        h_blanking: 160,
        h_front_porch: 48,
        h_sync_width: 32,
        h_back_porch: 80,
        v_active: 1440,
        v_blanking: 41,
        v_front_porch: 3,
        v_sync_width: 5,
        v_back_porch: 33,
        h_sync_positive: true,
        v_sync_positive: false,
        interlaced: false,
    }
}

fn repair_checksum(block: &mut [u8]) {
    let last = block.len() - 1;
    block[last] = 0;
    let sum = block[..last].iter().fold(0u8, |acc, byte| acc.wrapping_add(*byte));
    block[last] = 0u8.wrapping_sub(sum);
}

fn minimal_base_edid(extension_blocks: u8) -> Vec<u8> {
    let mut edid = vec![0u8; 128];
    edid[..8].copy_from_slice(&HEADER);
    edid[8] = 0x04;
    edid[9] = 0x6d;
    edid[38..54].fill(0x01);
    edid[126] = extension_blocks;
    repair_checksum(&mut edid);
    edid
}

fn cta_extension() -> Vec<u8> {
    let mut cta = vec![0u8; 128];
    cta[0] = 0x02;
    cta[1] = 3;
    cta[2] = 4;
    repair_checksum(&mut cta);
    cta
}

#[test]
fn add_dtd_tracks_location_and_diff() {
    let mut workspace = EdidWorkspace::new(minimal_base_edid(0)).expect("workspace");
    let location = workspace.add_dtd(sample_timing()).expect("add DTD");

    assert_eq!(location, DtdLocation::Base { slot: 0 });
    assert_eq!(workspace.operations().len(), 1);
    assert!(workspace.diff_summary().iter().any(|line| line.contains("Added")));
    assert!(workspace.validate().is_empty());
}

#[test]
fn unchanged_valid_workspace_has_no_validation_issues() {
    let workspace = EdidWorkspace::new(minimal_base_edid(0)).expect("workspace");

    assert!(workspace.validate().is_empty());
}

#[test]
fn validation_checks_extension_count_and_every_block_checksum() {
    let mut truncated = minimal_base_edid(1);
    let workspace = EdidWorkspace::new(truncated.clone()).expect("workspace");
    assert!(workspace.validate().iter().any(|issue| issue.message.contains("length")));

    truncated[126] = 0;
    repair_checksum(&mut truncated);
    let mut raw = truncated;
    let mut unknown = vec![0u8; 128];
    unknown[0] = 0x70;
    unknown[10] = 1;
    raw[126] = 1;
    repair_checksum(&mut raw[..128]);
    raw.extend(unknown);
    let workspace = EdidWorkspace::new(raw).expect("workspace");
    assert!(workspace
        .validate()
        .iter()
        .any(|issue| issue.message.contains("extension 1 checksum")));
}

#[test]
fn add_cta_dtd_targets_extension_slots() {
    let mut edid = minimal_base_edid(1);
    edid.extend(cta_extension());
    let mut workspace = EdidWorkspace::new(edid).expect("workspace");

    let location = workspace.add_cta_dtd(1, sample_timing()).expect("add CTA DTD");

    assert_eq!(location, DtdLocation::Cta { extension_index: 1, slot: 0 });
    assert!(block_checksum_valid(&workspace.export_bytes()[128..256]));
    let slots = workspace.cta_dtd_slots().expect("CTA DTD slots");
    assert!(slots[0].timing.is_some());
    assert!(workspace
        .diff_summary()
        .iter()
        .any(|line| line.contains("CTA-861 extension 1 DTD slot 0")));
}

#[test]
fn add_cta_dtd_at_targets_exact_free_slot() {
    let mut edid = minimal_base_edid(1);
    edid.extend(cta_extension());
    let mut workspace = EdidWorkspace::new(edid).expect("workspace");

    let location = workspace
        .add_cta_dtd_at(DtdLocation::Cta { extension_index: 1, slot: 2 }, sample_timing())
        .expect("add exact CTA DTD");

    assert_eq!(location, DtdLocation::Cta { extension_index: 1, slot: 2 });
    let slots = workspace.cta_dtd_slots().expect("CTA DTD slots");
    assert!(slots[2].timing.is_some());
    assert!(slots[0].timing.is_none());
}

#[test]
fn replace_and_delete_dtd_are_checksum_safe() {
    let timing = sample_timing();
    let mut edid = minimal_base_edid(0);
    edid = patch_base_detailed_timing(&edid, 0, &timing).expect("patch");

    let mut workspace = EdidWorkspace::new(edid).expect("workspace");
    workspace
        .replace_dtd(DtdLocation::Base { slot: 0 }, alternate_timing())
        .expect("replace");
    workspace.delete_dtd(DtdLocation::Base { slot: 0 }).expect("delete");

    assert!(block_checksum_valid(&workspace.export_bytes()[..128]));
    assert_eq!(workspace.dtds().expect("dtds").len(), 0);
    assert_eq!(workspace.operations().len(), 2);
}

#[test]
fn move_dtd_swaps_adjacent_timing_payloads() {
    let first = sample_timing();
    let second = alternate_timing();
    let mut workspace = EdidWorkspace::new(minimal_base_edid(0)).expect("workspace");
    workspace.add_dtd(first.clone()).expect("add first");
    workspace.add_dtd(second.clone()).expect("add second");

    let selected = workspace.move_dtd(1, MoveDirection::Up).expect("move up");
    let dtds = workspace.dtds().expect("dtds");

    assert_eq!(selected, 0);
    assert_eq!(dtds[0].timing, second);
    assert_eq!(dtds[1].timing, first);
    assert!(block_checksum_valid(&workspace.export_bytes()[..128]));
}

#[test]
fn reset_restores_original_bytes_and_clears_pending_changes() {
    let original = minimal_base_edid(0);
    let mut workspace = EdidWorkspace::new(original.clone()).expect("workspace");
    workspace.add_dtd(sample_timing()).expect("add");

    workspace.reset().expect("reset");

    assert_eq!(workspace.export_bytes(), original.as_slice());
    assert_eq!(workspace.operations(), &vec![WorkspaceOperation::Reset]);
    assert_eq!(workspace.diff_summary(), vec!["No EDID byte changes."]);
}

#[test]
fn import_replaces_working_edid_and_preserves_original_diff() {
    let original = minimal_base_edid(0);
    let mut imported = minimal_base_edid(0);
    imported[16] = 1;
    repair_checksum(&mut imported);

    let mut workspace = EdidWorkspace::new(original).expect("workspace");
    workspace
        .import_working_raw(imported.clone(), "/tmp/imported.bin")
        .expect("import");

    assert_eq!(workspace.export_bytes(), imported.as_slice());
    assert!(workspace.has_changes());
    assert!(workspace.diff_summary().iter().any(|line| line.contains("Imported EDID")));
}

#[test]
fn delete_standard_timing_repairs_checksum() {
    let mut edid = minimal_base_edid(0);
    edid[38] = (1920u16 / 8 - 31) as u8;
    edid[39] = 0b11_000000;
    repair_checksum(&mut edid);

    let mut workspace = EdidWorkspace::new(edid).expect("workspace");
    assert_eq!(workspace.standard_timings().expect("standard timings").len(), 1);

    workspace.delete_standard_timing(0).expect("delete standard");

    assert!(block_checksum_valid(&workspace.export_bytes()[..128]));
    assert!(workspace.standard_timings().expect("standard timings").is_empty());
    assert!(workspace
        .diff_summary()
        .iter()
        .any(|line| line.contains("Deleted standard timing")));
}

#[test]
fn add_and_replace_standard_timing_repairs_checksum() {
    let mut workspace = EdidWorkspace::new(minimal_base_edid(0)).expect("workspace");
    let slot = workspace
        .add_standard_timing(StandardTiming {
            slot: 0,
            width: 1920,
            height: 1080,
            refresh_hz: 60,
            aspect: StandardTimingAspect::SixteenNine,
        })
        .expect("add standard");

    assert_eq!(slot, 0);
    workspace
        .replace_standard_timing(
            slot,
            StandardTiming {
                slot,
                width: 1280,
                height: 1024,
                refresh_hz: 75,
                aspect: StandardTimingAspect::FiveFour,
            },
        )
        .expect("replace standard");

    assert!(block_checksum_valid(&workspace.export_bytes()[..128]));
    let timings = workspace.standard_timings().expect("standard timings");
    assert_eq!(timings.len(), 1);
    assert_eq!(timings[0].slot, slot);
    assert_eq!(timings[0].timing.width, 1280);
    assert!(workspace
        .diff_summary()
        .iter()
        .any(|line| line.contains("Replaced standard timing")));
}

#[test]
fn diff_summary_counts_changed_bytes_and_lists_edits() {
    let mut workspace = EdidWorkspace::new(minimal_base_edid(0)).expect("workspace");
    workspace.add_dtd(sample_timing()).expect("add");
    let summary = workspace.diff_summary();
    let changed = workspace
        .export_bytes()
        .iter()
        .zip(minimal_base_edid(0).iter())
        .filter(|(a, b)| a != b)
        .count();
    assert_eq!(summary[0], format!("{changed} EDID bytes changed."));
    assert_eq!(summary[1], format!("Added {} at base DTD slot 0", sample_timing().hyprland_mode()));
}

#[test]
fn failed_edit_leaves_workspace_unchanged() {
    let mut workspace = EdidWorkspace::new(minimal_base_edid(0)).expect("workspace");
    let before = workspace.export_bytes().to_vec();
    assert!(workspace.delete_dtd(DtdLocation::Base { slot: 4 }).is_err());
    assert!(workspace.add_cta_dtd_at(DtdLocation::Base { slot: 0 }, sample_timing()).is_err());
    assert_eq!(workspace.export_bytes(), before.as_slice());
    assert!(workspace.operations().is_empty());
    assert!(!workspace.has_changes());
}

#[test]
fn diff_summary_has_one_line_per_edit() {
    let mut workspace = EdidWorkspace::new(minimal_base_edid(0)).expect("workspace");
    workspace.add_dtd(sample_timing()).expect("add");
    let mut second = sample_timing();
    second.h_active = 1280;
    second.v_active = 720;
    workspace.add_dtd(second).expect("add second");
    let summary = workspace.diff_summary();
    assert_eq!(summary.len(), 1 + workspace.operations().len());
    assert_eq!(summary.len(), 3);
    assert!(summary[0].ends_with(" EDID bytes changed."));
    assert!(summary[1].contains("Added"));
    assert!(summary[2].contains("Added"));
}
