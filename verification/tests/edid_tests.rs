use drmcru::edid::{
    block_checksum_valid, cta_dtd_slots, delete_standard_timing, encode_detailed_timing,
    encode_standard_timing, insert_cta_detailed_timing, insert_detailed_timing,
    insert_standard_timing, parse_detailed_timing, parse_edid, patch_base_detailed_timing,
    patch_standard_timing, repair_block_checksum, slot_summary, DtdLocation, EdidError,
};
use drmcru::models::{CtaVideoDescriptor, StandardTiming, StandardTimingAspect, TimingDescriptor};

const HEADER: [u8; 8] = [0x00, 0xff, 0xff, 0xff, 0xff, 0xff, 0xff, 0x00];
const STANDARD_TIMING_START: usize = 38;
const CTA_TAG: u8 = 0x02;
const DISPLAYID_TAG: u8 = 0x70;
const CTA_HEADER_LEN: usize = 4;
const DTD_SLOTS: usize = 4;
const DISPLAYID_TYPE_I_DTD_LEN: usize = 20;

fn sample_timing() -> TimingDescriptor {
    TimingDescriptor {
        pixel_clock_khz: 138_500,
        h_active: 1920,
        h_blanking: 160,
        h_front_porch: 48,
        h_sync_width: 32,
        h_back_porch: 80,
        v_active: 1080,
        v_blanking: 31,
        v_front_porch: 3,
        v_sync_width: 5,
        v_back_porch: 23,
        h_sync_positive: true,
        v_sync_positive: false,
        interlaced: false,
    }
}

fn minimal_base_edid(extension_blocks: u8) -> Vec<u8> {
    let mut edid = vec![0u8; 128];
    edid[..8].copy_from_slice(&HEADER);
    edid[8] = 0x04;
    edid[9] = 0x6d;
    edid[STANDARD_TIMING_START..STANDARD_TIMING_START + 16].fill(0x01);
    edid[126] = extension_blocks;
    repair_block_checksum(&mut edid);
    edid
}

fn cta_block(dtd_start: u8) -> Vec<u8> {
    let mut cta = vec![0u8; 128];
    cta[0] = CTA_TAG;
    cta[1] = 3;
    cta[2] = dtd_start;
    cta
}

#[test]
fn rejects_short_edid() {
    assert!(matches!(parse_edid(vec![0; 127]), Err(EdidError::TooShort(127))));
}

#[test]
fn parses_and_deletes_standard_timing() {
    let mut edid = minimal_base_edid(0);
    edid[STANDARD_TIMING_START] = (1920u16 / 8 - 31) as u8;
    edid[STANDARD_TIMING_START + 1] = 0b11_000000;
    repair_block_checksum(&mut edid);

    let parsed = parse_edid(edid.clone()).expect("parse");
    assert_eq!(parsed.standard_timings.len(), 1);
    assert_eq!(parsed.standard_timings[0].width, 1920);
    assert_eq!(parsed.standard_timings[0].height, 1080);
    assert_eq!(parsed.standard_timings[0].refresh_hz, 60);
    assert_eq!(parsed.standard_timings[0].aspect, StandardTimingAspect::SixteenNine);

    let patched = delete_standard_timing(&edid, 0).expect("delete standard timing");
    assert!(block_checksum_valid(&patched[..128]));
    let parsed = parse_edid(patched).expect("parse patched");
    assert!(parsed.standard_timings.is_empty());
}

#[test]
fn inserts_and_replaces_standard_timing() {
    let edid = minimal_base_edid(0);
    let timing = StandardTiming {
        slot: 0,
        width: 1920,
        height: 1080,
        refresh_hz: 75,
        aspect: StandardTimingAspect::SixteenNine,
    };

    let (patched, slot) = insert_standard_timing(&edid, &timing).expect("insert standard timing");
    assert_eq!(slot, 0);
    assert!(block_checksum_valid(&patched[..128]));

    let replacement = StandardTiming {
        slot: 0,
        width: 1280,
        height: 1024,
        refresh_hz: 60,
        aspect: StandardTimingAspect::FiveFour,
    };
    let patched = patch_standard_timing(&patched, slot, &replacement).expect("patch standard timing");
    assert!(block_checksum_valid(&patched[..128]));

    let parsed = parse_edid(patched).expect("parse patched");
    assert_eq!(parsed.standard_timings.len(), 1);
    assert_eq!(parsed.standard_timings[0].width, 1280);
    assert_eq!(parsed.standard_timings[0].height, 1024);
    assert_eq!(parsed.standard_timings[0].aspect, StandardTimingAspect::FiveFour);
}

#[test]
fn rejects_unencodable_standard_timing() {
    let timing = StandardTiming {
        slot: 0,
        width: 1366,
        height: 768,
        refresh_hz: 60,
        aspect: StandardTimingAspect::SixteenNine,
    };

    assert!(matches!(
        encode_standard_timing(&timing),
        Err(EdidError::InvalidStandardTiming(_))
    ));
}

#[test]
fn reports_available_base_standard_and_cta_slots() {
    let timing = sample_timing();
    let mut edid = minimal_base_edid(1);
    edid = patch_base_detailed_timing(&edid, 0, &timing).expect("base DTD should patch");
    edid = patch_standard_timing(
        &edid,
        0,
        &StandardTiming {
            slot: 0,
            width: 1920,
            height: 1080,
            refresh_hz: 60,
            aspect: StandardTimingAspect::SixteenNine,
        },
    )
    .expect("standard timing should patch");

    let mut cta = cta_block(CTA_HEADER_LEN as u8);
    repair_block_checksum(&mut cta);
    edid.extend(cta);

    let summary = slot_summary(&edid).expect("slot summary");
    assert_eq!(summary.base_dtd_used, 1);
    assert_eq!(summary.base_dtd_free, 3);
    assert_eq!(summary.standard_used, 1);
    assert_eq!(summary.standard_free, 7);
    assert_eq!(summary.cta_dtd_used, 0);
    assert_eq!(summary.cta_dtd_free, 6);
}

#[test]
fn reports_cta_dtd_slot_rows() {
    let mut edid = minimal_base_edid(1);
    let mut cta = cta_block(CTA_HEADER_LEN as u8);
    repair_block_checksum(&mut cta);
    edid.extend(cta);

    let slots = cta_dtd_slots(&edid).expect("CTA DTD slots");
    assert_eq!(slots.len(), 6);
    assert_eq!(slots[0].extension_index, 1);
    assert_eq!(slots[0].slot, 0);
    assert!(slots.iter().all(|slot| slot.timing.is_none()));
    assert!(slots.iter().all(|slot| !slot.occupied_unknown));
}

#[test]
fn parses_cta_data_block_summaries() {
    let mut edid = minimal_base_edid(1);
    let mut cta = cta_block(10);
    cta[4] = (2 << 5) | 1;
    cta[5] = 16;
    cta[6] = (7 << 5) | 2;
    cta[7] = 6;
    cta[8] = 1;
    repair_block_checksum(&mut cta);
    edid.extend(cta);

    let parsed = parse_edid(edid).expect("parse EDID");
    let blocks = &parsed.cta_blocks[0].data_blocks;
    assert_eq!(blocks.len(), 2);
    assert_eq!(blocks[0].label(), "Video");
    assert_eq!(blocks[1].label(), "HDR Static");
    assert_eq!(blocks[0].video_modes.len(), 1);
    let CtaVideoDescriptor::Known(mode) = &blocks[0].video_modes[0] else {
        panic!("VIC 16 should be mapped");
    };
    assert_eq!(mode.vic, 16);
    assert_eq!(mode.width, 1920);
}

#[test]
fn parses_displayid_type_i_detailed_timings() {
    let mut edid = minimal_base_edid(1);
    let mut displayid = vec![0u8; 128];
    displayid[0] = DISPLAYID_TAG;
    displayid[1] = 0x13;
    displayid[2] = 121;
    displayid[3] = 0;
    displayid[4] = 0;
    displayid[5] = 0x03;
    displayid[6] = 0x01;
    displayid[7] = DISPLAYID_TYPE_I_DTD_LEN as u8;
    displayid[8..28].copy_from_slice(&[
        0x19, 0x13, 0x01, 0x84, 0xff, 0x09, 0xaf, 0x00, 0x2f, 0x00, 0x1f, 0x00, 0x9f, 0x05, 0x77,
        0x00, 0x02, 0x00, 0x05, 0x00,
    ]);
    repair_block_checksum(&mut displayid);
    edid.extend(displayid);

    let parsed = parse_edid(edid).expect("parse EDID");
    assert_eq!(parsed.displayid_blocks.len(), 1);
    let block = &parsed.displayid_blocks[0];
    assert_eq!(block.version_major, 1);
    assert_eq!(block.version_minor, 3);
    assert_eq!(block.data_blocks[0].label(), "Type I timings");
    assert_eq!(block.detailed_timings.len(), 1);

    let row = &block.detailed_timings[0];
    assert!(row.preferred);
    assert_eq!(row.timing.h_active, 2560);
    assert_eq!(row.timing.v_active, 1440);
    assert_eq!(row.timing.pixel_clock_khz, 704_260);
    let h_total = f64::from(row.timing.h_total());
    let v_total = f64::from(row.timing.v_total());
    let refresh = f64::from(row.timing.pixel_clock_khz) * 1000.0 / (h_total * v_total);
    assert!((refresh - 165.003).abs() < 0.01);
    assert_eq!(row.timing.hyprland_mode(), format!("2560x1440@{refresh:.2}"));
}

#[test]
fn preserves_unmapped_cta_vics() {
    let mut edid = minimal_base_edid(1);
    let mut cta = cta_block(6);
    cta[4] = (2 << 5) | 1;
    cta[5] = 127;
    repair_block_checksum(&mut cta);
    edid.extend(cta);

    let parsed = parse_edid(edid).expect("parse EDID");
    assert_eq!(
        parsed.cta_blocks[0].data_blocks[0].video_modes[0],
        CtaVideoDescriptor::Unknown { vic: 127, native: false }
    );
}

#[test]
fn encoded_detailed_timing_round_trips_through_parser() {
    let timing = sample_timing();

    let descriptor = encode_detailed_timing(&timing).expect("timing should encode");
    let parsed = parse_detailed_timing(&descriptor).expect("timing should parse");

    assert_eq!(parsed, timing);
}

#[test]
fn patched_base_block_gets_repaired_checksum() {
    let edid = minimal_base_edid(0);
    let timing = sample_timing();

    let patched = patch_base_detailed_timing(&edid, 0, &timing).expect("EDID should patch");
    assert!(block_checksum_valid(&patched[..128]));

    let parsed = parse_edid(patched).expect("patched EDID should parse");
    assert_eq!(parsed.detailed_timings.first(), Some(&timing));
    assert!(parsed.checksum_valid);
}

#[test]
fn insert_uses_empty_base_dtd_slot_first() {
    let edid = minimal_base_edid(0);
    let timing = sample_timing();

    let (patched, location) = insert_detailed_timing(&edid, &timing).expect("EDID should accept a DTD");

    assert_eq!(location, DtdLocation::Base { slot: 0 });
    assert!(block_checksum_valid(&patched[..128]));
    let parsed = parse_edid(patched).expect("patched EDID should parse");
    assert_eq!(parsed.detailed_timings.first(), Some(&timing));
}

#[test]
fn insert_uses_cta_dtd_slot_when_base_slots_are_full() {
    let timing = sample_timing();
    let mut edid = minimal_base_edid(1);
    for slot in 0..DTD_SLOTS {
        edid = patch_base_detailed_timing(&edid, slot, &timing).expect("base DTD should patch");
    }

    let mut cta = cta_block(CTA_HEADER_LEN as u8);
    repair_block_checksum(&mut cta);
    edid.extend(cta);

    let (patched, location) = insert_detailed_timing(&edid, &timing).expect("CTA DTD slot should be used");

    assert_eq!(location, DtdLocation::Cta { extension_index: 1, slot: 0 });
    assert!(block_checksum_valid(&patched[..128]));
    assert!(block_checksum_valid(&patched[128..256]));

    let parsed = parse_edid(patched).expect("patched EDID should parse");
    assert_eq!(parsed.cta_blocks.len(), 1);
    assert_eq!(parsed.cta_blocks[0].detailed_timings.first(), Some(&timing));
}

#[test]
fn explicit_cta_insert_uses_selected_extension() {
    let timing = sample_timing();
    let mut edid = minimal_base_edid(2);

    let mut first_cta = cta_block(CTA_HEADER_LEN as u8);
    repair_block_checksum(&mut first_cta);
    edid.extend(first_cta);

    let mut second_cta = cta_block(CTA_HEADER_LEN as u8);
    repair_block_checksum(&mut second_cta);
    edid.extend(second_cta);

    let (patched, location) = insert_cta_detailed_timing(&edid, 2, &timing).expect("CTA DTD insert");

    assert_eq!(location, DtdLocation::Cta { extension_index: 2, slot: 0 });
    assert!(block_checksum_valid(&patched[256..384]));
    let slots = cta_dtd_slots(&patched).expect("CTA DTD slots");
    let inserted = slots
        .iter()
        .find(|slot| slot.extension_index == 2 && slot.slot == 0)
        .expect("inserted slot");
    assert_eq!(inserted.timing.as_ref(), Some(&timing));
}
