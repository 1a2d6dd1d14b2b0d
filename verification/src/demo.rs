//! The synthetic EDID of the demo monitor: a base block with standard and
//! detailed timings and a name, and one CTA-861 extension.
use crate::edid::{
    checksum_byte, encode_detailed_timing, encode_standard_timing, repair_block_at,
    spec_checksum_valid, spec_encode_detailed_timing, spec_encode_standard_timing, spec_repair,
    spec_write, write_bytes, EdidError,
};
use crate::models::{StandardTiming, StandardTimingAspect, TimingDescriptor};
use vstd::prelude::*;

verus! {

/// A PNP manufacturer code: five bits per letter, `A` as 1, bytes below `A`
/// as 1 too.
pub open spec fn spec_manufacturer_code(value: Seq<u8>) -> u16
    decreases value.len(),
{
    if value.len() == 0 {
        0
    } else {
        let b = value.last();
        let letter: u16 = (if b >= 65 { (b - 65) as u8 } else { 0u8 } + 1) as u16;
        ((spec_manufacturer_code(value.drop_last()) << 5u16) | letter) as u16
    }
}

pub fn manufacturer_code(value: &[u8]) -> (r: u16)
    ensures
        r == spec_manufacturer_code(value@),
{
    let mut code: u16 = 0;
    let mut i: usize = 0;
    while i < value.len()
        invariant
            i <= value@.len(),
            code == spec_manufacturer_code(value@.take(i as int)),
        decreases value@.len() - i,
    {
        let b = value[i];
        let letter: u16 = ((if b >= 65 {
            b - 65
        } else {
            0
        }) + 1) as u16;
        assert(value@.take(i + 1).drop_last() =~= value@.take(i as int));
        code = (code << 5u16) | letter;
        i = i + 1;
    }
    assert(value@.take(value@.len() as int) =~= value@);
    code
}

/// The 18 bytes of a display name descriptor: tag `0xfc`, up to 13 bytes of
/// the name, a newline after a shorter name, zeros elsewhere.
pub open spec fn name_descriptor(name: Seq<u8>) -> Seq<u8> {
    let len = if name.len() < 13 {
        name.len() as int
    } else {
        13
    };
    Seq::new(
        18,
        |i: int|
            if i == 3 {
                0xfcu8
            } else if 5 <= i < 5 + len {
                name[i - 5]
            } else if i == 5 + len && len < 13 {
                0x0au8
            } else {
                0u8
            },
    )
}

/// Writes a display name descriptor for `name` at `at`.
pub fn write_name_descriptor(raw: &mut Vec<u8>, at: usize, name: &[u8])
    requires
        at + 18 <= old(raw)@.len(),
    ensures
        final(raw)@ == spec_write(old(raw)@, at as int, name_descriptor(name@)),
{
    let len: usize = if name.len() < 13 {
        name.len()
    } else {
        13
    };
    let mut d: Vec<u8> = Vec::new();
    let mut i: usize = 0;
    while i < 18
        invariant
            i <= 18,
            len == (if name@.len() < 13 { name@.len() as int } else { 13 }),
            d@ == name_descriptor(name@).take(i as int),
        decreases 18 - i,
    {
        let b: u8 = if i == 3 {
            0xfc
        } else if 5 <= i && i < 5 + len {
            name[i - 5]
        } else if i == 5 + len && len < 13 {
            0x0a
        } else {
            0
        };
        d.push(b);
        i = i + 1;
        assert(d@ =~= name_descriptor(name@).take(i as int));
    }
    assert(name_descriptor(name@).take(18) =~= name_descriptor(name@));
    write_bytes(raw, at, d.as_slice());
}

/// Rewrites the checksum byte of the 128-byte block at `block_start`.
pub fn repair_checksum(raw: &mut Vec<u8>, block_start: usize)
    requires
        block_start + 128 <= old(raw)@.len(),
    ensures
        final(raw)@ == old(raw)@.update(
            block_start + 127,
            checksum_byte(old(raw)@.subrange(block_start as int, block_start + 127)),
        ),
        spec_checksum_valid(final(raw)@.subrange(block_start as int, block_start + 128)),
{
    repair_block_at(raw, block_start);
    let ghost prefix = old(raw)@.subrange(block_start as int, block_start + 127);
    assert(raw@.subrange(block_start as int, block_start + 128) =~= prefix.push(
        checksum_byte(prefix),
    ));
    proof {
        crate::edid::lemma_checksum_byte_valid(prefix);
    }
}

/// A demo timing with the given active size, porches and sync widths, at a
/// whole refresh rate: the pixel clock in kHz is
/// `h_total * v_total * refresh / 1000`, rounded half up.
pub open spec fn demo_timing(
    width: u16,
    height: u16,
    h_front: u16,
    h_sync: u16,
    h_back: u16,
    v_front: u16,
    v_sync: u16,
    v_back: u16,
    refresh_hz: u32,
) -> TimingDescriptor {
    let h_blanking = h_front + h_sync + h_back;
    let v_blanking = v_front + v_sync + v_back;
    TimingDescriptor {
        pixel_clock_khz: (((width + h_blanking) * (height + v_blanking) * refresh_hz + 500) / 1000) as u32,
        h_active: width,
        h_blanking: h_blanking as u16,
        h_front_porch: h_front,
        h_sync_width: h_sync,
        h_back_porch: h_back,
        v_active: height,
        v_blanking: v_blanking as u16,
        v_front_porch: v_front,
        v_sync_width: v_sync,
        v_back_porch: v_back,
        h_sync_positive: true,
        v_sync_positive: false,
        interlaced: false,
    }
}

fn timing(
    width: u16,
    height: u16,
    h_front: u16,
    h_sync: u16,
    h_back: u16,
    v_front: u16,
    v_sync: u16,
    v_back: u16,
    refresh_hz: u32,
) -> (r: TimingDescriptor)
    requires
        width + h_front + h_sync + h_back <= 4096,
        height + v_front + v_sync + v_back <= 4096,
        refresh_hz <= 1000,
    ensures
        r == demo_timing(width, height, h_front, h_sync, h_back, v_front, v_sync, v_back, refresh_hz),
{
    let h_blanking = h_front + h_sync + h_back;
    let v_blanking = v_front + v_sync + v_back;
    let h_total = (width + h_blanking) as u64;
    let v_total = (height + v_blanking) as u64;
    assert(h_total * v_total <= 4096 * 4096) by (nonlinear_arith)
        requires
            h_total <= 4096,
            v_total <= 4096,
    ;
    assert(h_total * v_total * (refresh_hz as u64) <= 4096 * 4096 * 1000) by (nonlinear_arith)
        requires
            h_total * v_total <= 4096 * 4096,
            refresh_hz <= 1000,
    ;
    let clock = (h_total * v_total * refresh_hz as u64 + 500) / 1000;
    TimingDescriptor {
        pixel_clock_khz: clock as u32,
        h_active: width,
        h_blanking,
        h_front_porch: h_front,
        h_sync_width: h_sync,
        h_back_porch: h_back,
        v_active: height,
        v_blanking,
        v_front_porch: v_front,
        v_sync_width: v_sync,
        v_back_porch: v_back,
        h_sync_positive: true,
        v_sync_positive: false,
        interlaced: false,
    }
}

/// The demo's 2560x1440 timing at `refresh_hz`.
pub open spec fn timing_1440p(refresh_hz: u32) -> TimingDescriptor {
    demo_timing(2560, 1440, 48, 32, 80, 3, 5, 33, refresh_hz)
}

/// The demo's 1920x1080 timing at `refresh_hz`.
pub open spec fn timing_1080p(refresh_hz: u32) -> TimingDescriptor {
    demo_timing(1920, 1080, 48, 32, 80, 3, 5, 23, refresh_hz)
}

/// The demo's standard timings: 1920x1080 and 1280x720 at 60 Hz.
pub open spec fn demo_standard(slot: usize) -> StandardTiming {
    if slot == 0 {
        StandardTiming {
            slot: 0,
            width: 1920,
            height: 1080,
            refresh_hz: 60,
            aspect: StandardTimingAspect::SixteenNine,
        }
    } else {
        StandardTiming {
            slot: 1,
            width: 1280,
            height: 720,
            refresh_hz: 60,
            aspect: StandardTimingAspect::SixteenNine,
        }
    }
}

/// The name the demo monitor gives: `Example Display`.
pub open spec fn demo_name() -> Seq<u8> {
    seq![
        0x45u8, 0x78, 0x61, 0x6d, 0x70, 0x6c, 0x65, 0x20, 0x44, 0x69, 0x73, 0x70, 0x6c, 0x61, 0x79,
    ]
}

/// The base block of the demo EDID, before its checksum is repaired.
pub open spec fn demo_base() -> Seq<u8> {
    let code = spec_manufacturer_code(seq![0x44u8, 0x45, 0x4d]);
    let raw = Seq::new(256, |i: int| 0u8);
    let raw = spec_write(raw, 0, seq![0x00u8, 0xff, 0xff, 0xff, 0xff, 0xff, 0xff, 0x00]);
    let raw = spec_write(raw, 8, seq![(code / 256) as u8, (code % 256) as u8]);
    let raw = spec_write(raw, 10, seq![1u8, 0]);
    let raw = spec_write(raw, 16, seq![1u8, 36, 1, 4, 0xa5, 60, 34, 120, 0x0a]);
    let raw = spec_write(raw, 35, seq![32u8, 8]);
    let raw = spec_write(raw, 38, Seq::new(16, |i: int| 1u8));
    let raw = spec_write(raw, 38, spec_encode_standard_timing(demo_standard(0)));
    let raw = spec_write(raw, 40, spec_encode_standard_timing(demo_standard(1)));
    let raw = spec_write(raw, 54, spec_encode_detailed_timing(timing_1440p(144)));
    let raw = spec_write(raw, 72, spec_encode_detailed_timing(timing_1440p(120)));
    let raw = spec_write(raw, 90, spec_encode_detailed_timing(timing_1080p(120)));
    let raw = spec_write(raw, 108, name_descriptor(demo_name()));
    spec_write(raw, 126, seq![1u8])
}

/// The demo EDID: the base block with its checksum, then a CTA-861 block
/// (revision 3, timings from byte 9, native-format flags 4) with two video
/// modes and a 1920x1080 60 Hz detailed timing.
pub open spec fn spec_sample_edid() -> Seq<u8> {
    let raw = spec_repair(demo_base(), 0);
    let raw = spec_write(raw, 128, seq![0x02u8, 3, 9]);
    let raw = spec_write(raw, 132, seq![68u8, 0x90, 4, 64, 97]);
    let raw = spec_write(raw, 137, spec_encode_detailed_timing(timing_1080p(60)));
    spec_repair(raw, 128)
}

fn zeros(n: usize) -> (v: Vec<u8>)
    ensures
        v@ == Seq::new(n as nat, |i: int| 0u8),
{
    let mut v: Vec<u8> = Vec::new();
    let mut i: usize = 0;
    while i < n
        invariant
            i <= n,
            v@ == Seq::new(i as nat, |k: int| 0u8),
        decreases n - i,
    {
        v.push(0);
        i = i + 1;
        assert(v@ =~= Seq::new(i as nat, |k: int| 0u8));
    }
    v
}

fn push_standard(raw: &mut Vec<u8>, timing: &StandardTiming) -> (r: Result<(), EdidError>)
    requires
        old(raw)@.len() == 256,
        timing.slot <= 1,
    ensures
        match r {
            Ok(()) => final(raw)@ == spec_write(
                old(raw)@,
                38 + timing.slot * 2,
                spec_encode_standard_timing(*timing),
            ),
            Err(e) => crate::edid::spec_standard_encode_error(*timing) == Some(e),
        },
{
    let encoded = encode_standard_timing(timing)?;
    write_bytes(raw, 38 + timing.slot * 2, &encoded);
    Ok(())
}

fn push_detailed(raw: &mut Vec<u8>, at: usize, timing: &TimingDescriptor) -> (r: Result<(), EdidError>)
    requires
        old(raw)@.len() == 256,
        at + 18 <= 256,
    ensures
        match r {
            Ok(()) => final(raw)@ == spec_write(old(raw)@, at as int, spec_encode_detailed_timing(*timing)),
            Err(e) => crate::edid::spec_dtd_encode_error(*timing) == Some(e),
        },
{
    let encoded = encode_detailed_timing(timing)?;
    write_bytes(raw, at, &encoded);
    Ok(())
}

/// The demo's timings all encode.
proof fn lemma_demo_timings_encode()
    ensures
        crate::edid::spec_dtd_encode_error(timing_1440p(144)) is None,
        crate::edid::spec_dtd_encode_error(timing_1440p(120)) is None,
        crate::edid::spec_dtd_encode_error(timing_1080p(120)) is None,
        crate::edid::spec_dtd_encode_error(timing_1080p(60)) is None,
        crate::edid::spec_standard_encode_error(demo_standard(0)) is None,
        crate::edid::spec_standard_encode_error(demo_standard(1)) is None,
{
    assert(2720 * 1481 * 144 + 500 == 580078580);
    assert(2720 * 1481 * 120 + 500 == 483398900);
    assert(timing_1440p(144).pixel_clock_khz == 580078);
    assert(timing_1440p(120).pixel_clock_khz == 483398);
    assert(2080 * 1111 * 120 + 500 == 277306100);
    assert(2080 * 1111 * 60 + 500 == 138653300);
    assert(timing_1080p(120).pixel_clock_khz == 277306);
    assert(timing_1080p(60).pixel_clock_khz == 138653);
    assert(crate::edid::spec_dtd_encode_error(timing_1440p(144)) is None);
    assert(crate::edid::spec_dtd_encode_error(timing_1440p(120)) is None);
    assert(crate::edid::spec_dtd_encode_error(timing_1080p(120)) is None);
    assert(crate::edid::spec_dtd_encode_error(timing_1080p(60)) is None);
    assert(crate::edid::spec_standard_encode_error(demo_standard(0)) is None);
    assert(crate::edid::spec_standard_encode_error(demo_standard(1)) is None);
}

#[verifier::rlimit(60)]
fn base_block() -> (r: Vec<u8>)
    ensures
        r@ == demo_base(),
{
    proof {
        lemma_demo_timings_encode();
    }
    let mut raw = zeros(256);
    write_bytes(&mut raw, 0, &[0x00u8, 0xff, 0xff, 0xff, 0xff, 0xff, 0xff, 0x00]);
    let code = manufacturer_code(&[0x44u8, 0x45, 0x4d]);
    write_bytes(&mut raw, 8, &[(code / 256) as u8, (code % 256) as u8]);
    write_bytes(&mut raw, 10, &[1u8, 0]);
    write_bytes(&mut raw, 16, &[1u8, 36, 1, 4, 0xa5, 60, 34, 120, 0x0a]);
    write_bytes(&mut raw, 35, &[32u8, 8]);
    write_bytes(&mut raw, 38, &[1u8, 1, 1, 1, 1, 1, 1, 1, 1, 1, 1, 1, 1, 1, 1, 1]);
    let first = StandardTiming {
        slot: 0,
        width: 1920,
        height: 1080,
        refresh_hz: 60,
        aspect: StandardTimingAspect::SixteenNine,
    };
    let second = StandardTiming {
        slot: 1,
        width: 1280,
        height: 720,
        refresh_hz: 60,
        aspect: StandardTimingAspect::SixteenNine,
    };
    assert(first == demo_standard(0));
    assert(second == demo_standard(1));
    let _ = push_standard(&mut raw, &first);
    let _ = push_standard(&mut raw, &second);
    let _ = push_detailed(&mut raw, 54, &timing(2560, 1440, 48, 32, 80, 3, 5, 33, 144));
    let _ = push_detailed(&mut raw, 72, &timing(2560, 1440, 48, 32, 80, 3, 5, 33, 120));
    let _ = push_detailed(&mut raw, 90, &timing(1920, 1080, 48, 32, 80, 3, 5, 23, 120));
    write_name_descriptor(
        &mut raw,
        108,
        &[0x45u8, 0x78, 0x61, 0x6d, 0x70, 0x6c, 0x65, 0x20, 0x44, 0x69, 0x73, 0x70, 0x6c, 0x61, 0x79],
    );
    write_bytes(&mut raw, 126, &[1u8]);
    raw
}

/// The demo monitor's EDID bytes; both of its blocks have valid checksums.
pub fn sample_edid() -> (r: Result<Vec<u8>, EdidError>)
    ensures
        r matches Ok(v) && v@ == spec_sample_edid(),
        r matches Ok(v) && spec_checksum_valid(v@.subrange(0, 128)) && spec_checksum_valid(
            v@.subrange(128, 256),
        ),
{
    proof {
        lemma_demo_timings_encode();
    }
    let mut raw = base_block();
    repair_checksum(&mut raw, 0);
    let ghost after_base = raw@;
    write_bytes(&mut raw, 128, &[0x02u8, 3, 9]);
    write_bytes(&mut raw, 132, &[68u8, 0x90, 4, 64, 97]);
    let _ = push_detailed(&mut raw, 137, &timing(1920, 1080, 48, 32, 80, 3, 5, 23, 60));
    repair_checksum(&mut raw, 128);
    assert(raw@.subrange(0, 128) =~= after_base.subrange(0, 128));
    Ok(raw)
}

} // verus!
