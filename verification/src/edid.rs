//! Reading, encoding and patching EDID bytes: the 128-byte base block, its
//! detailed and standard timings, and CTA-861 and DisplayID extension blocks.
use crate::models::{
    spec_aspect_from_dimensions, Cta861Block, Cta861BlockView, CtaDataBlock, CtaDataBlockView,
    CtaVideoDescriptor, CtaVideoMode, DisplayIdBlock, DisplayIdBlockView, DisplayIdDataBlock,
    DisplayIdDetailedTiming, EdidData, EdidDataView, EstablishedTiming, StandardTiming, StandardTimingAspect,
    TimingDescriptor,
};
use crate::text::{push_char, string_of, trim, trim_chars};
use vstd::prelude::*;
use vstd::slice::slice_to_vec;

verus! {

#[derive(Debug, Clone, PartialEq, Eq)]
pub enum EdidError {
    TooShort(usize),
    InvalidHeader,
    InvalidDetailedTimingSlot(usize),
    InvalidStandardTimingSlot(usize),
    InvalidStandardTiming(&'static str),
    TimingFieldTooLarge { field: &'static str, value: u32 },
    PixelClockTooLarge(u32),
    NoAvailableDetailedTimingSlot,
    NoAvailableStandardTimingSlot,
}

// ---------------------------------------------------------------------------
// Checksums
// ---------------------------------------------------------------------------

/// The sum of the bytes of `s`.
pub open spec fn byte_sum(s: Seq<u8>) -> nat
    decreases s.len(),
{
    if s.len() == 0 {
        0
    } else {
        byte_sum(s.drop_last()) + s.last() as nat
    }
}

/// An EDID block's checksum holds when its bytes sum to a multiple of 256.
pub open spec fn spec_checksum_valid(block: Seq<u8>) -> bool {
    byte_sum(block) % 256 == 0
}

/// The byte that makes `prefix + [byte]` sum to a multiple of 256.
pub open spec fn checksum_byte(prefix: Seq<u8>) -> u8 {
    ((256 - byte_sum(prefix) % 256) % 256) as u8
}

pub proof fn lemma_byte_sum_push(s: Seq<u8>, b: u8)
    ensures
        byte_sum(s.push(b)) == byte_sum(s) + b,
{
    assert(s.push(b).drop_last() =~= s);
}

pub proof fn lemma_checksum_byte_valid(prefix: Seq<u8>)
    ensures
        spec_checksum_valid(prefix.push(checksum_byte(prefix))),
{
    lemma_byte_sum_push(prefix, checksum_byte(prefix));
}

/// The sum of `s[from..to]`, modulo 256.
fn sum_mod_256(s: &[u8], from: usize, to: usize) -> (r: u8)
    requires
        from <= to <= s@.len(),
    ensures
        r == byte_sum(s@.subrange(from as int, to as int)) % 256,
{
    let mut acc: u8 = 0;
    let mut i: usize = from;
    assert(s@.subrange(from as int, from as int) =~= Seq::<u8>::empty());
    while i < to
        invariant
            from <= i <= to <= s@.len(),
            acc == byte_sum(s@.subrange(from as int, i as int)) % 256,
        decreases to - i,
    {
        proof {
            lemma_byte_sum_push(s@.subrange(from as int, i as int), s@[i as int]);
            assert(s@.subrange(from as int, i + 1) =~= s@.subrange(from as int, i as int).push(
                s@[i as int],
            ));
        }
        acc = ((acc as u16 + s[i] as u16) % 256) as u8;
        i = i + 1;
    }
    acc
}

pub fn block_checksum_valid(block: &[u8]) -> (r: bool)
    ensures
        r == spec_checksum_valid(block@),
{
    let s = sum_mod_256(block, 0, block.len());
    assert(block@.subrange(0, block@.len() as int) =~= block@);
    s == 0
}

/// Rewrites the last byte of `raw[start..end]` so that the range sums to a multiple of 256.
fn repair_range_checksum(raw: &mut Vec<u8>, start: usize, end: usize)
    requires
        start < end <= old(raw)@.len(),
    ensures
        final(raw)@ == old(raw)@.update(
            end - 1,
            checksum_byte(old(raw)@.subrange(start as int, end - 1)),
        ),
        spec_checksum_valid(final(raw)@.subrange(start as int, end as int)),
{
    let sum = sum_mod_256(raw.as_slice(), start, end - 1);
    let fix: u8 = ((256u16 - sum as u16) % 256) as u8;
    raw.set(end - 1, fix);
    proof {
        let prefix = old(raw)@.subrange(start as int, end - 1);
        assert(raw@.subrange(start as int, end as int) =~= prefix.push(checksum_byte(prefix)));
        lemma_checksum_byte_valid(prefix);
    }
}

/// Rewrites the last byte of `block` so that its bytes sum to a multiple of 256.
pub fn repair_block_checksum(block: &mut Vec<u8>)
    requires
        old(block)@.len() > 0,
    ensures
        final(block)@ == old(block)@.update(
            old(block)@.len() - 1,
            checksum_byte(old(block)@.drop_last()),
        ),
        spec_checksum_valid(final(block)@),
{
    let n = block.len();
    repair_range_checksum(block, 0, n);
    assert(old(block)@.subrange(0, n - 1) =~= old(block)@.drop_last());
    assert(block@.subrange(0, n as int) =~= block@);
}

// ---------------------------------------------------------------------------
// Detailed timing descriptors (18 bytes)
// ---------------------------------------------------------------------------

/// `a - b`, or 0 when `b > a`.
pub open spec fn sat_sub(a: int, b: int) -> int {
    if a > b {
        a - b
    } else {
        0
    }
}

/// The timing that an 18-byte detailed timing descriptor holds, or `None`
/// when its pixel clock is zero (a display descriptor or an empty slot).
pub open spec fn spec_parse_detailed_timing(d: Seq<u8>) -> Option<TimingDescriptor> {
    let clock = d[0] + 256 * d[1];
    if clock == 0 {
        None
    } else {
        let h_blanking = d[3] + 256 * (d[4] % 16);
        let h_front_porch = d[8] + 256 * (d[11] / 64);
        let h_sync_width = d[9] + 256 * ((d[11] / 16) % 4);
        let v_blanking = d[6] + 256 * (d[7] % 16);
        let v_front_porch = d[10] / 16 + 16 * ((d[11] / 4) % 4);
        let v_sync_width = d[10] % 16 + 16 * (d[11] % 4);
        Some(
            TimingDescriptor {
                pixel_clock_khz: (clock * 10) as u32,
                h_active: (d[2] + 256 * (d[4] / 16)) as u16,
                h_blanking: h_blanking as u16,
                h_front_porch: h_front_porch as u16,
                h_sync_width: h_sync_width as u16,
                h_back_porch: sat_sub(h_blanking, h_front_porch + h_sync_width) as u16,
                v_active: (d[5] + 256 * (d[7] / 16)) as u16,
                v_blanking: v_blanking as u16,
                v_front_porch: v_front_porch as u16,
                v_sync_width: v_sync_width as u16,
                v_back_porch: sat_sub(v_blanking, v_front_porch + v_sync_width) as u16,
                h_sync_positive: (d[17] / 2) % 2 == 1,
                v_sync_positive: (d[17] / 4) % 2 == 1,
                interlaced: d[17] >= 128,
            },
        )
    }
}

pub fn parse_detailed_timing(descriptor: &[u8]) -> (r: Option<TimingDescriptor>)
    requires
        descriptor@.len() >= 18,
    ensures
        r == spec_parse_detailed_timing(descriptor@),
        r is None <==> (descriptor@[0] == 0 && descriptor@[1] == 0),
        r matches Some(t) ==> t.pixel_clock_khz == (descriptor@[0] + 256 * descriptor@[1]) * 10,
{
    let clock: u16 = le_u16(descriptor, 0);
    if clock == 0 {
        return None;
    }
    let d = descriptor;
    let h_active: u16 = d[2] as u16 + 256 * (d[4] / 16) as u16;
    let h_blanking: u16 = d[3] as u16 + 256 * (d[4] % 16) as u16;
    let v_active: u16 = d[5] as u16 + 256 * (d[7] / 16) as u16;
    let v_blanking: u16 = d[6] as u16 + 256 * (d[7] % 16) as u16;
    let h_front_porch: u16 = d[8] as u16 + 256 * (d[11] / 64) as u16;
    let h_sync_width: u16 = d[9] as u16 + 256 * ((d[11] / 16) % 4) as u16;
    let v_front_porch: u16 = (d[10] / 16) as u16 + 16 * ((d[11] / 4) % 4) as u16;
    let v_sync_width: u16 = (d[10] % 16) as u16 + 16 * (d[11] % 4) as u16;
    let h_back_porch: u16 = h_blanking.saturating_sub(h_front_porch + h_sync_width);
    let v_back_porch: u16 = v_blanking.saturating_sub(v_front_porch + v_sync_width);
    let flags = d[17];
    Some(
        TimingDescriptor {
            pixel_clock_khz: clock as u32 * 10,
            h_active,
            h_blanking,
            h_front_porch,
            h_sync_width,
            h_back_porch,
            v_active,
            v_blanking,
            v_front_porch,
            v_sync_width,
            v_back_porch,
            h_sync_positive: (flags / 2) % 2 == 1,
            v_sync_positive: (flags / 4) % 2 == 1,
            interlaced: flags >= 128,
        },
    )
}

/// The error that encoding `t` as a detailed timing descriptor meets first, if any.
pub open spec fn spec_dtd_encode_error(t: TimingDescriptor) -> Option<EdidError> {
    if t.h_active > 0x0fff {
        Some(EdidError::TimingFieldTooLarge { field: "h_active", value: t.h_active as u32 })
    } else if t.h_blanking > 0x0fff {
        Some(EdidError::TimingFieldTooLarge { field: "h_blanking", value: t.h_blanking as u32 })
    } else if t.v_active > 0x0fff {
        Some(EdidError::TimingFieldTooLarge { field: "v_active", value: t.v_active as u32 })
    } else if t.v_blanking > 0x0fff {
        Some(EdidError::TimingFieldTooLarge { field: "v_blanking", value: t.v_blanking as u32 })
    } else if t.h_front_porch > 0x03ff {
        Some(
            EdidError::TimingFieldTooLarge {
                field: "h_front_porch",
                value: t.h_front_porch as u32,
            },
        )
    } else if t.h_sync_width > 0x03ff {
        Some(
            EdidError::TimingFieldTooLarge { field: "h_sync_width", value: t.h_sync_width as u32 },
        )
    } else if t.v_front_porch > 0x003f {
        Some(
            EdidError::TimingFieldTooLarge {
                field: "v_front_porch",
                value: t.v_front_porch as u32,
            },
        )
    } else if t.v_sync_width > 0x003f {
        Some(
            EdidError::TimingFieldTooLarge { field: "v_sync_width", value: t.v_sync_width as u32 },
        )
    } else if t.pixel_clock_khz / 10 > 0xffff {
        Some(EdidError::PixelClockTooLarge(t.pixel_clock_khz))
    } else {
        None
    }
}

/// The 18 bytes that encode `t` (meaningful when `spec_dtd_encode_error(t)` is `None`).
pub open spec fn spec_encode_detailed_timing(t: TimingDescriptor) -> Seq<u8> {
    let clock = t.pixel_clock_khz / 10;
    seq![
        (clock % 256) as u8,
        (clock / 256) as u8,
        (t.h_active % 256) as u8,
        (t.h_blanking % 256) as u8,
        ((t.h_active / 256) * 16 + t.h_blanking / 256) as u8,
        (t.v_active % 256) as u8,
        (t.v_blanking % 256) as u8,
        ((t.v_active / 256) * 16 + t.v_blanking / 256) as u8,
        (t.h_front_porch % 256) as u8,
        (t.h_sync_width % 256) as u8,
        ((t.v_front_porch % 16) * 16 + t.v_sync_width % 16) as u8,
        ((t.h_front_porch / 256) * 64 + (t.h_sync_width / 256) * 16 + (t.v_front_porch / 16) * 4
            + t.v_sync_width / 16) as u8,
        0u8,
        0u8,
        0u8,
        0u8,
        0u8,
        (0x18 + (if t.interlaced {
            0x80int
        } else {
            0
        }) + (if t.v_sync_positive {
            0x04int
        } else {
            0
        }) + (if t.h_sync_positive {
            0x02int
        } else {
            0
        })) as u8,
    ]
}

fn validate_max(field: &'static str, value: u16, max: u16) -> (r: Result<(), EdidError>)
    ensures
        value > max ==> r == Err::<(), EdidError>(
            EdidError::TimingFieldTooLarge { field, value: value as u32 },
        ),
        value <= max ==> r is Ok,
{
    if value > max {
        Err(EdidError::TimingFieldTooLarge { field, value: value as u32 })
    } else {
        Ok(())
    }
}

fn validate_12_bit(field: &'static str, value: u16) -> (r: Result<(), EdidError>)
    ensures
        value > 0x0fff ==> r == Err::<(), EdidError>(
            EdidError::TimingFieldTooLarge { field, value: value as u32 },
        ),
        value <= 0x0fff ==> r is Ok,
{
    validate_max(field, value, 0x0fff)
}

fn validate_10_bit(field: &'static str, value: u16) -> (r: Result<(), EdidError>)
    ensures
        value > 0x03ff ==> r == Err::<(), EdidError>(
            EdidError::TimingFieldTooLarge { field, value: value as u32 },
        ),
        value <= 0x03ff ==> r is Ok,
{
    validate_max(field, value, 0x03ff)
}

fn validate_6_bit(field: &'static str, value: u16) -> (r: Result<(), EdidError>)
    ensures
        value > 0x003f ==> r == Err::<(), EdidError>(
            EdidError::TimingFieldTooLarge { field, value: value as u32 },
        ),
        value <= 0x003f ==> r is Ok,
{
    validate_max(field, value, 0x003f)
}

/// The low byte of `value`.
fn low_byte(value: u16) -> (r: u8)
    ensures
        r == value % 256,
{
    (value % 256) as u8
}

/// Bits 8..11 of `value`.
fn high_nibble(value: u16) -> (r: u8)
    ensures
        r == (value / 256) % 16,
{
    ((value / 256) % 16) as u8
}

/// Bits 0..3 of `value`.
fn low_nibble(value: u16) -> (r: u8)
    ensures
        r == value % 16,
{
    (value % 16) as u8
}

/// The little-endian `u16` at `bytes[at..at + 2]`.
fn le_u16(bytes: &[u8], at: usize) -> (r: u16)
    requires
        at + 2 <= bytes@.len(),
    ensures
        r == bytes@[at as int] + 256 * bytes@[at + 1],
{
    bytes[at] as u16 + 256 * bytes[at + 1] as u16
}

/// The little-endian 24-bit value at `bytes[at..at + 3]`.
fn le_u24(bytes: &[u8], at: usize) -> (r: u32)
    requires
        at + 3 <= bytes@.len(),
    ensures
        r == bytes@[at as int] + 256 * bytes@[at + 1] + 65536 * bytes@[at + 2],
{
    bytes[at] as u32 + 256 * bytes[at + 1] as u32 + 65536 * bytes[at + 2] as u32
}

pub fn encode_detailed_timing(timing: &TimingDescriptor) -> (r: Result<[u8; 18], EdidError>)
    ensures
        match r {
            Ok(bytes) => spec_dtd_encode_error(*timing) is None && bytes@
                == spec_encode_detailed_timing(*timing) && bytes[0] == (timing.pixel_clock_khz / 10) % 256
                && bytes[1] == (timing.pixel_clock_khz / 10) / 256,
            Err(e) => spec_dtd_encode_error(*timing) == Some(e),
        },
{
    let t = timing;
    validate_12_bit("h_active", t.h_active)?;
    validate_12_bit("h_blanking", t.h_blanking)?;
    validate_12_bit("v_active", t.v_active)?;
    validate_12_bit("v_blanking", t.v_blanking)?;
    validate_10_bit("h_front_porch", t.h_front_porch)?;
    validate_10_bit("h_sync_width", t.h_sync_width)?;
    validate_6_bit("v_front_porch", t.v_front_porch)?;
    validate_6_bit("v_sync_width", t.v_sync_width)?;
    let clock = t.pixel_clock_khz / 10;
    if clock > 0xffff {
        return Err(EdidError::PixelClockTooLarge(t.pixel_clock_khz));
    }
    let clock16: u16 = clock as u16;
    let b4: u8 = high_nibble(t.h_active) * 16 + high_nibble(t.h_blanking);
    let b7: u8 = high_nibble(t.v_active) * 16 + high_nibble(t.v_blanking);
    let b10: u8 = low_nibble(t.v_front_porch) * 16 + low_nibble(t.v_sync_width);
    let b11: u8 = (t.h_front_porch / 256) as u8 * 64 + (t.h_sync_width / 256) as u8 * 16 + (
    t.v_front_porch / 16) as u8 * 4 + (t.v_sync_width / 16) as u8;
    let flags: u8 = 0x18 + (if t.interlaced {
        0x80u8
    } else {
        0
    }) + (if t.v_sync_positive {
        0x04u8
    } else {
        0
    }) + (if t.h_sync_positive {
        0x02u8
    } else {
        0
    });
    let bytes: [u8; 18] = [
        low_byte(clock16),
        (clock16 / 256) as u8,
        low_byte(t.h_active),
        low_byte(t.h_blanking),
        b4,
        low_byte(t.v_active),
        low_byte(t.v_blanking),
        b7,
        low_byte(t.h_front_porch),
        low_byte(t.h_sync_width),
        b10,
        b11,
        0,
        0,
        0,
        0,
        0,
        flags,
    ];
    assert(bytes@ =~= spec_encode_detailed_timing(*timing));
    Ok(bytes)
}

/// A timing that survives encoding unchanged: its clock is a nonzero multiple
/// of 10 kHz and its back porches are what blanking, front porch and sync leave.
pub open spec fn dtd_round_trips(t: TimingDescriptor) -> bool {
    &&& spec_dtd_encode_error(t) is None
    &&& t.pixel_clock_khz % 10 == 0
    &&& t.pixel_clock_khz >= 10
    &&& t.h_back_porch == sat_sub(t.h_blanking as int, t.h_front_porch + t.h_sync_width)
    &&& t.v_back_porch == sat_sub(t.v_blanking as int, t.v_front_porch + t.v_sync_width)
}

proof fn lemma_pack2(hi: int, lo: int, base: int)
    by (nonlinear_arith)
    requires
        0 <= hi,
        0 <= lo < base,
    ensures
        (hi * base + lo) / base == hi,
        (hi * base + lo) % base == lo,
{
}

proof fn lemma_pack4(a: int, b: int, c: int, d: int)
    requires
        0 <= a < 4,
        0 <= b < 4,
        0 <= c < 4,
        0 <= d < 4,
    ensures
        (a * 64 + b * 16 + c * 4 + d) / 64 == a,
        ((a * 64 + b * 16 + c * 4 + d) / 16) % 4 == b,
        ((a * 64 + b * 16 + c * 4 + d) / 4) % 4 == c,
        (a * 64 + b * 16 + c * 4 + d) % 4 == d,
{
    lemma_pack2(a, b * 16 + c * 4 + d, 64);
    lemma_pack2(a * 4 + b, c * 4 + d, 16);
    lemma_pack2(a, b, 4);
    lemma_pack2(a * 16 + b * 4 + c, d, 4);
    lemma_pack2(a * 4 + b, c, 4);
}

proof fn lemma_split_byte(x: int)
    requires
        0 <= x,
    ensures
        x % 256 + 256 * (x / 256) == x,
{
}

/// Decoding what `encode_detailed_timing` wrote gives back the timing, for every
/// timing whose clock and back porches the 18-byte format can carry.
pub proof fn lemma_detailed_timing_round_trip(t: TimingDescriptor)
    requires
        dtd_round_trips(t),
    ensures
        spec_parse_detailed_timing(spec_encode_detailed_timing(t)) == Some(t),
{
    let d = spec_encode_detailed_timing(t);
    let clock = t.pixel_clock_khz / 10;
    lemma_split_byte(clock as int);
    assert(d[0] + 256 * d[1] == clock);
    lemma_pack2((t.h_active / 256) as int, (t.h_blanking / 256) as int, 16);
    lemma_pack2((t.v_active / 256) as int, (t.v_blanking / 256) as int, 16);
    lemma_pack2((t.v_front_porch % 16) as int, (t.v_sync_width % 16) as int, 16);
    lemma_pack4(
        (t.h_front_porch / 256) as int,
        (t.h_sync_width / 256) as int,
        (t.v_front_porch / 16) as int,
        (t.v_sync_width / 16) as int,
    );
    lemma_split_byte(t.h_active as int);
    lemma_split_byte(t.h_blanking as int);
    lemma_split_byte(t.v_active as int);
    lemma_split_byte(t.v_blanking as int);
    lemma_split_byte(t.h_front_porch as int);
    lemma_split_byte(t.h_sync_width as int);
    assert(d[2] + 256 * (d[4] / 16) == t.h_active);
    assert(d[3] + 256 * (d[4] % 16) == t.h_blanking);
    assert(d[5] + 256 * (d[7] / 16) == t.v_active);
    assert(d[6] + 256 * (d[7] % 16) == t.v_blanking);
    assert(d[8] + 256 * (d[11] / 64) == t.h_front_porch);
    assert(d[9] + 256 * ((d[11] / 16) % 4) == t.h_sync_width);
    assert(d[10] / 16 + 16 * ((d[11] / 4) % 4) == t.v_front_porch);
    assert(d[10] % 16 + 16 * (d[11] % 4) == t.v_sync_width);
    assert((d[17] / 2) % 2 == 1 <==> t.h_sync_positive);
    assert((d[17] / 4) % 2 == 1 <==> t.v_sync_positive);
    assert(d[17] >= 128 <==> t.interlaced);
}

// ---------------------------------------------------------------------------
// Standard timings (2 bytes)
// ---------------------------------------------------------------------------

/// The aspect ratio that bits 6..7 of a standard timing's second byte select.
pub open spec fn spec_aspect_bits(b: u8) -> StandardTimingAspect {
    let bits = b / 64;
    if bits == 0 {
        StandardTimingAspect::SixteenTen
    } else if bits == 1 {
        StandardTimingAspect::FourThree
    } else if bits == 2 {
        StandardTimingAspect::FiveFour
    } else {
        StandardTimingAspect::SixteenNine
    }
}

/// The height that a standard timing's width and aspect ratio give.
pub open spec fn spec_standard_height(width: int, aspect: StandardTimingAspect) -> int {
    match aspect {
        StandardTimingAspect::SixteenTen => width * 10 / 16,
        StandardTimingAspect::FourThree => width * 3 / 4,
        StandardTimingAspect::FiveFour => width * 4 / 5,
        StandardTimingAspect::SixteenNine => width * 9 / 16,
    }
}

/// The standard timing that bytes `a`, `b` hold in slot `slot`; none for an
/// unused slot (`01 01`) or a zero first byte.
pub open spec fn spec_parse_standard_timing(slot: usize, a: u8, b: u8) -> Option<StandardTiming> {
    if (a == 1 && b == 1) || a == 0 {
        None
    } else {
        let width = (a + 31) * 8;
        let aspect = spec_aspect_bits(b);
        Some(
            StandardTiming {
                slot,
                width: width as u16,
                height: spec_standard_height(width, aspect) as u16,
                refresh_hz: (b % 64 + 60) as u16,
                aspect,
            },
        )
    }
}

fn parse_standard_timing(slot: usize, byte_a: u8, byte_b: u8) -> (r: Option<StandardTiming>)
    ensures
        r == spec_parse_standard_timing(slot, byte_a, byte_b),
{
    if (byte_a == 0x01 && byte_b == 0x01) || byte_a == 0x00 {
        return None;
    }
    let width: u16 = (byte_a as u16 + 31) * 8;
    let bits = byte_b / 64;
    let aspect = if bits == 0 {
        StandardTimingAspect::SixteenTen
    } else if bits == 1 {
        StandardTimingAspect::FourThree
    } else if bits == 2 {
        StandardTimingAspect::FiveFour
    } else {
        StandardTimingAspect::SixteenNine
    };
    let height: u16 = match aspect {
        StandardTimingAspect::SixteenTen => width * 10 / 16,
        StandardTimingAspect::FourThree => width * 3 / 4,
        StandardTimingAspect::FiveFour => width * 4 / 5,
        StandardTimingAspect::SixteenNine => width * 9 / 16,
    };
    let refresh_hz: u16 = (byte_b % 64) as u16 + 60;
    Some(StandardTiming { slot, width, height, refresh_hz, aspect })
}

/// Why `t` cannot be written as a standard timing, if it cannot.
pub open spec fn spec_standard_encode_error(t: StandardTiming) -> Option<EdidError> {
    if t.width < 256 || t.width > 2288 {
        Some(EdidError::InvalidStandardTiming("width must be between 256 and 2288 pixels"))
    } else if t.width % 8 != 0 {
        Some(EdidError::InvalidStandardTiming("width must be divisible by 8 pixels"))
    } else if !(60 <= t.refresh_hz <= 123) {
        Some(EdidError::InvalidStandardTiming("refresh must be between 60 and 123 Hz"))
    } else if spec_aspect_from_dimensions(t.width, t.height) != Some(t.aspect) {
        Some(
            EdidError::InvalidStandardTiming(
                "height must exactly match one EDID standard timing aspect ratio",
            ),
        )
    } else {
        None
    }
}

/// The two aspect-ratio bits for `aspect`.
pub open spec fn spec_aspect_code(aspect: StandardTimingAspect) -> int {
    match aspect {
        StandardTimingAspect::SixteenTen => 0,
        StandardTimingAspect::FourThree => 1,
        StandardTimingAspect::FiveFour => 2,
        StandardTimingAspect::SixteenNine => 3,
    }
}

/// The two bytes that encode `t` (meaningful when it has no encode error).
pub open spec fn spec_encode_standard_timing(t: StandardTiming) -> Seq<u8> {
    seq![(t.width / 8 - 31) as u8, (spec_aspect_code(t.aspect) * 64 + (t.refresh_hz - 60)) as u8]
}

pub fn encode_standard_timing(timing: &StandardTiming) -> (r: Result<[u8; 2], EdidError>)
    ensures
        match r {
            Ok(bytes) => spec_standard_encode_error(*timing) is None && bytes@
                == spec_encode_standard_timing(*timing),
            Err(e) => spec_standard_encode_error(*timing) == Some(e),
        },
{
    if timing.width < 256 || timing.width > 2288 {
        return Err(EdidError::InvalidStandardTiming("width must be between 256 and 2288 pixels"));
    }
    if timing.width % 8 != 0 {
        return Err(EdidError::InvalidStandardTiming("width must be divisible by 8 pixels"));
    }
    if !(60 <= timing.refresh_hz && timing.refresh_hz <= 123) {
        return Err(EdidError::InvalidStandardTiming("refresh must be between 60 and 123 Hz"));
    }
    let aspect = StandardTimingAspect::from_dimensions(timing.width, timing.height);
    let matches = match aspect {
        Some(a) => a == timing.aspect,
        None => false,
    };
    if !matches {
        return Err(
            EdidError::InvalidStandardTiming(
                "height must exactly match one EDID standard timing aspect ratio",
            ),
        );
    }
    let width_byte: u8 = (timing.width / 8 - 31) as u8;
    let aspect_bits: u8 = match timing.aspect {
        StandardTimingAspect::SixteenTen => 0,
        StandardTimingAspect::FourThree => 1,
        StandardTimingAspect::FiveFour => 2,
        StandardTimingAspect::SixteenNine => 3,
    };
    let refresh_bits: u8 = (timing.refresh_hz - 60) as u8;
    let bytes: [u8; 2] = [width_byte, aspect_bits * 64 + refresh_bits];
    assert(bytes@ =~= spec_encode_standard_timing(*timing));
    Ok(bytes)
}

/// Reading back what `encode_standard_timing` wrote gives the same width,
/// height, refresh and aspect ratio, in the slot it was read from; the one
/// timing whose bytes are the unused-slot marker `01 01` (256x160 at 61 Hz,
/// 16:10) reads back as an unused slot instead.
pub proof fn lemma_standard_timing_round_trip(t: StandardTiming, slot: usize)
    requires
        spec_standard_encode_error(t) is None,
    ensures
        ({
            let e = spec_encode_standard_timing(t);
            &&& e[0] == 1 && e[1] == 1 ==> spec_parse_standard_timing(slot, e[0], e[1]) is None
            &&& !(e[0] == 1 && e[1] == 1) ==> spec_parse_standard_timing(slot, e[0], e[1]) == Some(
                StandardTiming { slot, ..t },
            )
        }),
{
    let e = spec_encode_standard_timing(t);
    assert(e[0] + 31 == t.width / 8);
    assert((e[0] + 31) * 8 == t.width);
    assert(e[1] / 64 == spec_aspect_code(t.aspect));
    assert(e[1] % 64 == t.refresh_hz - 60);
}


// ---------------------------------------------------------------------------
// Layout of an EDID: base block, slots, extension blocks
// ---------------------------------------------------------------------------

#[derive(Debug, Clone, Copy, PartialEq, Eq, Structural)]
pub enum DtdLocation {
    Base { slot: usize },
    Cta { extension_index: u8, slot: usize },
}

#[derive(Debug, Clone, Copy, PartialEq, Eq, Structural)]
pub struct LocatedDetailedTiming {
    pub location: DtdLocation,
    pub timing: TimingDescriptor,
}

#[derive(Debug, Clone, Copy, PartialEq, Eq, Structural)]
pub struct CtaDtdSlot {
    pub extension_index: u8,
    pub revision: u8,
    pub dtd_offset: u8,
    pub slot: usize,
    pub timing: Option<TimingDescriptor>,
    pub occupied_unknown: bool,
    pub checksum_valid: bool,
}

#[derive(Debug, Clone, Copy, PartialEq, Eq, Structural)]
pub struct LocatedStandardTiming {
    pub slot: usize,
    pub timing: StandardTiming,
}

#[derive(Debug, Clone, Copy, PartialEq, Eq, Structural)]
pub struct EdidSlotSummary {
    pub base_dtd_used: usize,
    pub base_dtd_free: usize,
    pub standard_used: usize,
    pub standard_free: usize,
    pub cta_dtd_used: usize,
    pub cta_dtd_free: usize,
}

/// The fixed eight-byte EDID header `00 ff ff ff ff ff ff 00`.
pub open spec fn spec_has_header(raw: Seq<u8>) -> bool {
    &&& raw.len() >= 8
    &&& raw[0] == 0x00
    &&& raw[1] == 0xff
    &&& raw[2] == 0xff
    &&& raw[3] == 0xff
    &&& raw[4] == 0xff
    &&& raw[5] == 0xff
    &&& raw[6] == 0xff
    &&& raw[7] == 0x00
}

/// Why `raw` is not an EDID base block, if it is not one.
pub open spec fn spec_base_error(raw: Seq<u8>) -> Option<EdidError> {
    if raw.len() < 128 {
        Some(EdidError::TooShort(raw.len() as usize))
    } else if !spec_has_header(raw) {
        Some(EdidError::InvalidHeader)
    } else {
        None
    }
}

fn check_base(raw: &[u8]) -> (r: Result<(), EdidError>)
    ensures
        match r {
            Ok(_) => spec_base_error(raw@) is None,
            Err(e) => spec_base_error(raw@) == Some(e),
        },
{
    if raw.len() < 128 {
        return Err(EdidError::TooShort(raw.len()));
    }
    if !(raw[0] == 0x00 && raw[1] == 0xff && raw[2] == 0xff && raw[3] == 0xff && raw[4] == 0xff
        && raw[5] == 0xff && raw[6] == 0xff && raw[7] == 0x00) {
        return Err(EdidError::InvalidHeader);
    }
    Ok(())
}

/// Whether every byte of `s` is zero.
pub open spec fn spec_all_zero(s: Seq<u8>) -> bool {
    forall|i: int| 0 <= i < s.len() ==> s[i] == 0
}

fn all_zero(s: &[u8], from: usize, to: usize) -> (r: bool)
    requires
        from <= to <= s@.len(),
    ensures
        r == spec_all_zero(s@.subrange(from as int, to as int)),
{
    let mut i: usize = from;
    while i < to
        invariant
            from <= i <= to <= s@.len(),
            forall|k: int| from <= k < i ==> s@[k] == 0,
        decreases to - i,
    {
        if s[i] != 0 {
            assert(s@.subrange(from as int, to as int)[i - from] != 0);
            return false;
        }
        i = i + 1;
    }
    assert forall|k: int| 0 <= k < to - from implies s@.subrange(from as int, to as int)[k] == 0 by {
        assert(s@.subrange(from as int, to as int)[k] == s@[from + k]);
    }
    true
}

/// The 18 bytes of base-block detailed timing slot `slot` (0..=3).
pub open spec fn base_dtd(raw: Seq<u8>, slot: int) -> Seq<u8> {
    raw.subrange(54 + 18 * slot, 72 + 18 * slot)
}

/// The 128 bytes of block `index` (0 is the base block).
pub open spec fn ext_block(raw: Seq<u8>, index: int) -> Seq<u8> {
    raw.subrange(128 * index, 128 * index + 128)
}

/// How many extension blocks are looked at: those the base block announces,
/// up to the last one that `raw` holds whole.
pub open spec fn spec_ext_limit(raw: Seq<u8>) -> int {
    let whole = raw.len() / 128 - 1;
    if raw[126] as int <= whole {
        raw[126] as int
    } else {
        whole
    }
}

fn ext_limit(raw: &[u8]) -> (r: usize)
    requires
        raw@.len() >= 128,
    ensures
        r == spec_ext_limit(raw@),
        r <= 255,
        128 * r + 128 <= raw@.len(),
{
    let whole = raw.len() / 128 - 1;
    if (raw[126] as usize) <= whole {
        raw[126] as usize
    } else {
        whole
    }
}

/// Where the detailed timings of a CTA-861 block start, when the block is
/// one (tag 2, 128 bytes) and its offset byte points inside it.
pub open spec fn spec_cta_dtd_start(block: Seq<u8>) -> Option<int> {
    if block.len() == 128 && block[0] == 2 && 4 <= block[2] < 127 {
        Some(block[2] as int)
    } else {
        None
    }
}

/// How many whole 18-byte slots fit between `start` and the checksum byte.
pub open spec fn cta_slot_count(start: int) -> int {
    (127 - start) / 18
}

/// An optional index, as a `usize`.
pub open spec fn opt_usize(o: Option<int>) -> Option<usize> {
    match o {
        Some(x) => Some(x as usize),
        None => None,
    }
}

fn cta_dtd_range(raw: &[u8], block_start: usize) -> (r: Option<usize>)
    requires
        block_start + 128 <= raw.len(),
    ensures
        r == opt_usize(spec_cta_dtd_start(raw@.subrange(block_start as int, block_start + 128))),
{
    let dtd_start = raw[block_start + 2] as usize;
    if raw[block_start] != 2 || dtd_start < 4 || dtd_start >= 127 {
        return None;
    }
    Some(dtd_start)
}

/// The first index below `n` at which `p` holds.
pub open spec fn first_index(n: nat, p: spec_fn(int) -> bool) -> Option<int>
    decreases n,
{
    if n == 0 {
        None
    } else {
        match first_index((n - 1) as nat, p) {
            Some(j) => Some(j),
            None => if p(n - 1) {
                Some(n - 1)
            } else {
                None
            },
        }
    }
}

/// The values `f(0), .., f(n - 1)` that are `Some`, in order.
pub open spec fn collect<T>(n: nat, f: spec_fn(int) -> Option<T>) -> Seq<T>
    decreases n,
{
    if n == 0 {
        Seq::empty()
    } else {
        let prev = collect((n - 1) as nat, f);
        match f(n - 1) {
            Some(x) => prev.push(x),
            None => prev,
        }
    }
}

/// `g(1) + g(2) + .. + g(m)`.
pub open spec fn concat_ext<T>(m: nat, g: spec_fn(int) -> Seq<T>) -> Seq<T>
    decreases m,
{
    if m == 0 {
        Seq::empty()
    } else {
        concat_ext((m - 1) as nat, g) + g(m as int)
    }
}

/// How many of `0, .., n - 1` satisfy `p`.
pub open spec fn count_where(n: nat, p: spec_fn(int) -> bool) -> nat
    decreases n,
{
    if n == 0 {
        0
    } else {
        count_where((n - 1) as nat, p) + if p(n - 1) {
            1nat
        } else {
            0
        }
    }
}

/// `g(1) + g(2) + .. + g(m)` for counts.
pub open spec fn sum_ext(m: nat, g: spec_fn(int) -> nat) -> nat
    decreases m,
{
    if m == 0 {
        0
    } else {
        sum_ext((m - 1) as nat, g) + g(m as int)
    }
}

pub proof fn lemma_count_where_bound(n: nat, p: spec_fn(int) -> bool)
    ensures
        count_where(n, p) <= n,
    decreases n,
{
    if n > 0 {
        lemma_count_where_bound((n - 1) as nat, p);
    }
}

// ---------------------------------------------------------------------------
// Reading slots
// ---------------------------------------------------------------------------

/// The standard timing in slot `j` of `raw`.
pub open spec fn std_slot(raw: Seq<u8>, j: int) -> Option<StandardTiming> {
    spec_parse_standard_timing(j as usize, raw[38 + 2 * j], raw[39 + 2 * j])
}

/// The standard timings of the base block, in slot order.
pub open spec fn spec_standard_timings(raw: Seq<u8>) -> Seq<StandardTiming> {
    collect(8, |j: int| std_slot(raw, j))
}

fn parse_standard_timings(base: &[u8]) -> (r: Vec<StandardTiming>)
    requires
        base@.len() >= 54,
    ensures
        r@ == spec_standard_timings(base@),
{
    let mut r: Vec<StandardTiming> = Vec::new();
    let mut slot: usize = 0;
    while slot < 8
        invariant
            base@.len() >= 54,
            slot <= 8,
            r@ == collect(slot as nat, |j: int| std_slot(base@, j)),
        decreases 8 - slot,
    {
        if let Some(t) = parse_standard_timing(slot, base[38 + 2 * slot], base[39 + 2 * slot]) {
            r.push(t);
        }
        slot = slot + 1;
    }
    r
}

pub fn standard_timing_locations(raw: &[u8]) -> (r: Result<Vec<LocatedStandardTiming>, EdidError>)
    ensures
        match r {
            Ok(v) => spec_base_error(raw@) is None && v@ == spec_standard_timings(raw@).map_values(
                |t: StandardTiming| LocatedStandardTiming { slot: t.slot, timing: t },
            ),
            Err(e) => spec_base_error(raw@) == Some(e),
        },
{
    check_base(raw)?;
    let timings = parse_standard_timings(raw);
    let mut r: Vec<LocatedStandardTiming> = Vec::new();
    let mut i: usize = 0;
    while i < timings.len()
        invariant
            i <= timings@.len(),
            r@ == timings@.take(i as int).map_values(
                |t: StandardTiming| LocatedStandardTiming { slot: t.slot, timing: t },
            ),
        decreases timings@.len() - i,
    {
        let t = timings[i];
        r.push(LocatedStandardTiming { slot: t.slot, timing: t });
        i = i + 1;
        assert(r@ =~= timings@.take(i as int).map_values(
            |t: StandardTiming| LocatedStandardTiming { slot: t.slot, timing: t },
        ));
    }
    assert(timings@.take(timings@.len() as int) =~= timings@);
    Ok(r)
}

/// The slot of the first unused standard timing (`01 01`), if any.
pub open spec fn spec_empty_standard_slot(raw: Seq<u8>) -> Option<int> {
    first_index(8, |j: int| raw[38 + 2 * j] == 1 && raw[39 + 2 * j] == 1)
}

fn empty_standard_timing_slot(raw: &[u8]) -> (r: Option<usize>)
    requires
        raw@.len() >= 54,
    ensures
        r == opt_usize(spec_empty_standard_slot(raw@)),
{
    let mut slot: usize = 0;
    while slot < 8
        invariant
            raw@.len() >= 54,
            slot <= 8,
            first_index(slot as nat, |j: int| raw@[38 + 2 * j] == 1 && raw@[39 + 2 * j] == 1)
                is None,
        decreases 8 - slot,
    {
        if raw[38 + 2 * slot] == 1 && raw[39 + 2 * slot] == 1 {
            assert(first_index(
                (slot + 1) as nat,
                |j: int| raw@[38 + 2 * j] == 1 && raw@[39 + 2 * j] == 1,
            ) == Some(slot as int));
            let ghost p = |j: int| raw@[38 + 2 * j] == 1 && raw@[39 + 2 * j] == 1;
            proof {
                lemma_first_index_stable(slot as nat + 1, 8, p);
            }
            return Some(slot);
        }
        slot = slot + 1;
    }
    None
}

/// Once `first_index` finds an index, looking further does not change it.
pub proof fn lemma_first_index_stable(n: nat, m: nat, p: spec_fn(int) -> bool)
    requires
        n <= m,
        first_index(n, p) is Some,
    ensures
        first_index(m, p) == first_index(n, p),
    decreases m - n,
{
    if n < m {
        lemma_first_index_stable(n, (m - 1) as nat, p);
    }
}

/// The first free (all-zero) base-block detailed timing slot, if any.
pub open spec fn spec_empty_base_dtd_slot(raw: Seq<u8>) -> Option<int> {
    first_index(4, |j: int| spec_all_zero(base_dtd(raw, j)))
}

fn base_empty_dtd_slot(raw: &[u8]) -> (r: Option<usize>)
    requires
        raw@.len() >= 128,
    ensures
        r == opt_usize(spec_empty_base_dtd_slot(raw@)),
{
    let ghost p = |j: int| spec_all_zero(base_dtd(raw@, j));
    let mut slot: usize = 0;
    while slot < 4
        invariant
            raw@.len() >= 128,
            slot <= 4,
            p == (|j: int| spec_all_zero(base_dtd(raw@, j))),
            first_index(slot as nat, p) is None,
        decreases 4 - slot,
    {
        if all_zero(raw, 54 + 18 * slot, 72 + 18 * slot) {
            assert(first_index((slot + 1) as nat, p) == Some(slot as int));
            proof {
                lemma_first_index_stable(slot as nat + 1, 4, p);
            }
            return Some(slot);
        }
        slot = slot + 1;
    }
    None
}

/// The bytes of slot `j` of the CTA block that starts at `block_start`,
/// whose detailed timings start at `dtd_start`.
pub open spec fn cta_slot_bytes(raw: Seq<u8>, block_start: int, dtd_start: int, j: int) -> Seq<
    u8,
> {
    raw.subrange(block_start + dtd_start + 18 * j, block_start + dtd_start + 18 * j + 18)
}

/// The 18 bytes of slot `j` of a CTA block whose timings start at `s`.
pub open spec fn cta_slot(block: Seq<u8>, s: int, j: int) -> Seq<u8> {
    block.subrange(s + 18 * j, s + 18 * j + 18)
}

/// Whether slot `j` of a CTA block whose timings start at `s` is free.
pub open spec fn cta_slot_free(block: Seq<u8>, s: int, j: int) -> bool {
    spec_all_zero(cta_slot(block, s, j))
}

/// The first free (all-zero) detailed timing slot of a CTA block, with its
/// offset inside the block.
pub open spec fn spec_cta_empty_slot(block: Seq<u8>) -> Option<(int, int)> {
    match spec_cta_dtd_start(block) {
        Some(s) => match first_index(cta_slot_count(s) as nat, |j: int| cta_slot_free(block, s, j)) {
            Some(j) => Some((j, s + 18 * j)),
            None => None,
        },
        None => None,
    }
}


fn cta_empty_dtd_slot(raw: &[u8], block_start: usize) -> (r: Option<(usize, usize)>)
    requires
        block_start + 128 <= raw.len(),
    ensures
        (r is None) == (spec_cta_empty_slot(raw@.subrange(block_start as int, block_start + 128)) is None),
        (r matches Some((j, o)) ==> spec_cta_empty_slot(raw@.subrange(block_start as int, block_start + 128))
            == Some((j as int, o as int))),
{
    let ghost block = raw@.subrange(block_start as int, block_start + 128);
    let start = match cta_dtd_range(raw, block_start) {
        Some(s) => s,
        None => return None,
    };
    assert(spec_cta_dtd_start(block) == Some(start as int));
    let count = (127 - start) / 18;
    let ghost p = |j: int| cta_slot_free(block, start as int, j);
    let mut slot: usize = 0;
    while slot < count
        invariant
            block_start + 128 <= raw.len(),
            block == raw@.subrange(block_start as int, block_start + 128),
            spec_cta_dtd_start(block) == Some(start as int),
            4 <= start < 127,
            count == cta_slot_count(start as int),
            slot <= count,
            p == (|j: int| cta_slot_free(block, start as int, j)),
            first_index(slot as nat, p) is None,
        decreases count - slot,
    {
        let from = block_start + start + 18 * slot;
        assert(block.subrange(start + 18 * slot, start + 18 * slot + 18) =~= raw@.subrange(
            from as int,
            from + 18,
        ));
        if all_zero(raw, from, from + 18) {
            assert(first_index((slot + 1) as nat, p) == Some(slot as int));
            proof {
                lemma_first_index_stable(slot as nat + 1, count as nat, p);
                let sp = block[2] as int;
                assert(sp == start);
                assert((|j: int| cta_slot_free(block, sp, j)) =~= p);
            }
            return Some((slot, start + 18 * slot));
        }
        slot = slot + 1;
    }
    None
}

/// `raw` with `bytes` written at `at`.
pub open spec fn spec_write(raw: Seq<u8>, at: int, bytes: Seq<u8>) -> Seq<u8> {
    raw.subrange(0, at) + bytes + raw.subrange(at + bytes.len(), raw.len() as int)
}

/// `raw` with the checksum byte of the block at `block_start` repaired.
pub open spec fn spec_repair(raw: Seq<u8>, block_start: int) -> Seq<u8> {
    raw.update(block_start + 127, checksum_byte(raw.subrange(block_start, block_start + 127)))
}

pub(crate) fn write_bytes(v: &mut Vec<u8>, at: usize, bytes: &[u8])
    requires
        at + bytes.len() <= old(v).len(),
    ensures
        final(v)@ == spec_write(old(v)@, at as int, bytes@),
{
    let mut k: usize = 0;
    while k < bytes.len()
        invariant
            at + bytes.len() <= v.len(),
            v@.len() == old(v)@.len(),
            k <= bytes@.len(),
            v@ == old(v)@.subrange(0, at as int) + bytes@.take(k as int) + old(v)@.subrange(
                at + k,
                old(v)@.len() as int,
            ),
        decreases bytes@.len() - k,
    {
        v.set(at + k, bytes[k]);
        k = k + 1;
        assert(v@ =~= old(v)@.subrange(0, at as int) + bytes@.take(k as int) + old(v)@.subrange(
            at + k,
            old(v)@.len() as int,
        ));
    }
    assert(bytes@.take(bytes@.len() as int) =~= bytes@);
}

pub(crate) fn repair_block_at(v: &mut Vec<u8>, block_start: usize)
    requires
        block_start + 128 <= old(v).len(),
    ensures
        final(v)@ == spec_repair(old(v)@, block_start as int),
{
    repair_range_checksum(v, block_start, block_start + 128);
}

/// Where detailed timing slot `location` lies: its offset and the start of its block.
pub open spec fn spec_dtd_offset(raw: Seq<u8>, location: DtdLocation) -> Result<(int, int), EdidError> {
    match spec_base_error(raw) {
        Some(e) => Err(e),
        None => match location {
            DtdLocation::Base { slot } => if slot >= 4 {
                Err(EdidError::InvalidDetailedTimingSlot(slot))
            } else {
                Ok((54 + 18 * slot, 0))
            },
            DtdLocation::Cta { extension_index, slot } => {
                let block_start = 128 * extension_index;
                let block_end = block_start + 128;
                if block_end > raw.len() {
                    Err(EdidError::TooShort(block_end as usize))
                } else {
                    match spec_cta_dtd_start(raw.subrange(block_start, block_end)) {
                        None => Err(EdidError::NoAvailableDetailedTimingSlot),
                        Some(s) => if s + 18 * slot + 18 > 127 {
                            Err(EdidError::InvalidDetailedTimingSlot(slot))
                        } else {
                            Ok((block_start + s + 18 * slot, block_start))
                        },
                    }
                }
            },
        },
    }
}

fn dtd_offset(raw: &[u8], location: DtdLocation) -> (r: Result<(usize, usize), EdidError>)
    ensures
        match r {
            Ok((o, b)) => spec_dtd_offset(raw@, location) == Ok::<(int, int), EdidError>(
                (o as int, b as int),
            ),
            Err(e) => spec_dtd_offset(raw@, location) == Err::<(int, int), EdidError>(e),
        },
{
    check_base(raw)?;
    match location {
        DtdLocation::Base { slot } => {
            if slot >= 4 {
                return Err(EdidError::InvalidDetailedTimingSlot(slot));
            }
            Ok((54 + 18 * slot, 0))
        },
        DtdLocation::Cta { extension_index, slot } => {
            let block_start = extension_index as usize * 128;
            let block_end = block_start + 128;
            if block_end > raw.len() {
                return Err(EdidError::TooShort(block_end));
            }
            let start = match cta_dtd_range(raw, block_start) {
                Some(s) => s,
                None => return Err(EdidError::NoAvailableDetailedTimingSlot),
            };
            if slot > 6 || start + 18 * slot + 18 > 127 {
                return Err(EdidError::InvalidDetailedTimingSlot(slot));
            }
            Ok((block_start + start + 18 * slot, block_start))
        },
    }
}

/// Where standard timing slot `slot` lies in the base block.
pub open spec fn spec_standard_offset(raw: Seq<u8>, slot: usize) -> Result<int, EdidError> {
    match spec_base_error(raw) {
        Some(e) => Err(e),
        None => if slot >= 8 {
            Err(EdidError::InvalidStandardTimingSlot(slot))
        } else {
            Ok(38 + 2 * slot)
        },
    }
}

fn standard_timing_offset(raw: &[u8], slot: usize) -> (r: Result<usize, EdidError>)
    ensures
        match r {
            Ok(o) => spec_standard_offset(raw@, slot) == Ok::<int, EdidError>(o as int),
            Err(e) => spec_standard_offset(raw@, slot) == Err::<int, EdidError>(e),
        },
{
    check_base(raw)?;
    if slot >= 8 {
        return Err(EdidError::InvalidStandardTimingSlot(slot));
    }
    Ok(38 + 2 * slot)
}

/// Whether an exec result holding bytes is the spec result.
pub open spec fn bytes_result(r: Result<Vec<u8>, EdidError>, s: Result<Seq<u8>, EdidError>) -> bool {
    match r {
        Ok(v) => s == Ok::<Seq<u8>, EdidError>(v@),
        Err(e) => s == Err::<Seq<u8>, EdidError>(e),
    }
}

/// The bytes that writing `timing` into detailed timing slot `location` gives.
pub open spec fn spec_patch_detailed_timing(
    raw: Seq<u8>,
    location: DtdLocation,
    timing: TimingDescriptor,
) -> Result<Seq<u8>, EdidError> {
    match spec_dtd_encode_error(timing) {
        Some(e) => Err(e),
        None => match spec_dtd_offset(raw, location) {
            Err(e) => Err(e),
            Ok((o, b)) => Ok(spec_repair(spec_write(raw, o, spec_encode_detailed_timing(timing)), b)),
        },
    }
}

pub fn patch_detailed_timing(raw: &[u8], location: DtdLocation, timing: &TimingDescriptor) -> (r:
    Result<Vec<u8>, EdidError>)
    ensures
        bytes_result(r, spec_patch_detailed_timing(raw@, location, *timing)),
{
    let mut patched = slice_to_vec(raw);
    let descriptor = encode_detailed_timing(timing)?;
    let (offset, block_start) = dtd_offset(raw, location)?;
    write_bytes(&mut patched, offset, descriptor.as_slice());
    repair_block_at(&mut patched, block_start);
    Ok(patched)
}

/// Eighteen zero bytes: a free detailed timing slot.
pub open spec fn zero_dtd() -> Seq<u8> {
    Seq::new(18, |i: int| 0u8)
}

/// The bytes that clearing detailed timing slot `location` gives.
pub open spec fn spec_delete_detailed_timing(raw: Seq<u8>, location: DtdLocation) -> Result<
    Seq<u8>,
    EdidError,
> {
    match spec_dtd_offset(raw, location) {
        Err(e) => Err(e),
        Ok((o, b)) => Ok(spec_repair(spec_write(raw, o, zero_dtd()), b)),
    }
}

pub fn delete_detailed_timing(raw: &[u8], location: DtdLocation) -> (r: Result<Vec<u8>, EdidError>)
    ensures
        bytes_result(r, spec_delete_detailed_timing(raw@, location)),
{
    let mut patched = slice_to_vec(raw);
    let (offset, block_start) = dtd_offset(raw, location)?;
    let zeros: [u8; 18] = [0, 0, 0, 0, 0, 0, 0, 0, 0, 0, 0, 0, 0, 0, 0, 0, 0, 0];
    assert(zeros@ =~= zero_dtd());
    write_bytes(&mut patched, offset, zeros.as_slice());
    repair_block_at(&mut patched, block_start);
    Ok(patched)
}

/// The bytes that marking standard timing slot `slot` unused gives.
pub open spec fn spec_delete_standard_timing(raw: Seq<u8>, slot: usize) -> Result<Seq<u8>, EdidError> {
    match spec_standard_offset(raw, slot) {
        Err(e) => Err(e),
        Ok(o) => Ok(spec_repair(spec_write(raw, o, seq![1u8, 1u8]), 0)),
    }
}

pub fn delete_standard_timing(raw: &[u8], slot: usize) -> (r: Result<Vec<u8>, EdidError>)
    ensures
        bytes_result(r, spec_delete_standard_timing(raw@, slot)),
{
    let mut patched = slice_to_vec(raw);
    let offset = standard_timing_offset(raw, slot)?;
    let unused: [u8; 2] = [1, 1];
    assert(unused@ =~= seq![1u8, 1u8]);
    write_bytes(&mut patched, offset, unused.as_slice());
    repair_block_at(&mut patched, 0);
    Ok(patched)
}

/// The bytes that writing `timing` into standard timing slot `slot` gives.
pub open spec fn spec_patch_standard_timing(raw: Seq<u8>, slot: usize, timing: StandardTiming) -> Result<
    Seq<u8>,
    EdidError,
> {
    match spec_standard_encode_error(timing) {
        Some(e) => Err(e),
        None => match spec_standard_offset(raw, slot) {
            Err(e) => Err(e),
            Ok(o) => Ok(spec_repair(spec_write(raw, o, spec_encode_standard_timing(timing)), 0)),
        },
    }
}

pub fn patch_standard_timing(raw: &[u8], slot: usize, timing: &StandardTiming) -> (r: Result<
    Vec<u8>,
    EdidError,
>)
    ensures
        bytes_result(r, spec_patch_standard_timing(raw@, slot, *timing)),
{
    let descriptor = encode_standard_timing(timing)?;
    let offset = standard_timing_offset(raw, slot)?;
    let mut patched = slice_to_vec(raw);
    write_bytes(&mut patched, offset, descriptor.as_slice());
    repair_block_at(&mut patched, 0);
    Ok(patched)
}

/// Writing `timing` into the first unused standard timing slot.
pub open spec fn spec_insert_standard_timing(raw: Seq<u8>, timing: StandardTiming) -> Result<
    (Seq<u8>, usize),
    EdidError,
> {
    match spec_base_error(raw) {
        Some(e) => Err(e),
        None => match spec_empty_standard_slot(raw) {
            None => Err(EdidError::NoAvailableStandardTimingSlot),
            Some(j) => match spec_patch_standard_timing(raw, j as usize, timing) {
                Ok(p) => Ok((p, j as usize)),
                Err(e) => Err(e),
            },
        },
    }
}

pub fn insert_standard_timing(raw: &[u8], timing: &StandardTiming) -> (r: Result<
    (Vec<u8>, usize),
    EdidError,
>)
    ensures
        match r {
            Ok((v, slot)) => spec_insert_standard_timing(raw@, *timing) == Ok::<
                (Seq<u8>, usize),
                EdidError,
            >((v@, slot)),
            Err(e) => spec_insert_standard_timing(raw@, *timing) == Err::<
                (Seq<u8>, usize),
                EdidError,
            >(e),
        },
{
    check_base(raw)?;
    let slot = match empty_standard_timing_slot(raw) {
        Some(s) => s,
        None => return Err(EdidError::NoAvailableStandardTimingSlot),
    };
    let patched = patch_standard_timing(raw, slot, timing)?;
    Ok((patched, slot))
}


/// Whether extension block `index` of `raw` is a CTA-861 block with a free detailed timing slot.
pub open spec fn cta_has_free_slot(raw: Seq<u8>, index: int) -> bool {
    spec_cta_empty_slot(ext_block(raw, index)) is Some
}

/// The first extension (counting from 1) that is a CTA-861 block with a free slot.
pub open spec fn spec_first_free_cta(raw: Seq<u8>) -> Option<int> {
    match first_index(spec_ext_limit(raw) as nat, |k: int| cta_has_free_slot(raw, k + 1)) {
        Some(k) => Some(k + 1),
        None => None,
    }
}

/// Writing `timing` into the first free CTA-861 slot of extension `index`.
pub open spec fn spec_write_cta_slot(raw: Seq<u8>, index: int, timing: TimingDescriptor) -> (
    Seq<u8>,
    DtdLocation,
) {
    let (slot, offset) = spec_cta_empty_slot(ext_block(raw, index))->0;
    (
        spec_repair(spec_write(raw, 128 * index + offset, spec_encode_detailed_timing(timing)), 128 * index),
        DtdLocation::Cta { extension_index: index as u8, slot: slot as usize },
    )
}

/// Writing `timing` into the first free base-block slot, else into the first
/// free slot of the first CTA-861 extension that has one.
pub open spec fn spec_insert_detailed_timing(raw: Seq<u8>, timing: TimingDescriptor) -> Result<
    (Seq<u8>, DtdLocation),
    EdidError,
> {
    match spec_base_error(raw) {
        Some(e) => Err(e),
        None => match spec_empty_base_dtd_slot(raw) {
            Some(j) => match spec_patch_detailed_timing(
                raw,
                DtdLocation::Base { slot: j as usize },
                timing,
            ) {
                Ok(p) => Ok((p, DtdLocation::Base { slot: j as usize })),
                Err(e) => Err(e),
            },
            None => match spec_dtd_encode_error(timing) {
                Some(e) => Err(e),
                None => match spec_first_free_cta(raw) {
                    Some(index) => Ok(spec_write_cta_slot(raw, index, timing)),
                    None => Err(EdidError::NoAvailableDetailedTimingSlot),
                },
            },
        },
    }
}

/// Whether an exec insert result is the spec result.
pub open spec fn insert_result(
    r: Result<(Vec<u8>, DtdLocation), EdidError>,
    s: Result<(Seq<u8>, DtdLocation), EdidError>,
) -> bool {
    match r {
        Ok((v, l)) => s == Ok::<(Seq<u8>, DtdLocation), EdidError>((v@, l)),
        Err(e) => s == Err::<(Seq<u8>, DtdLocation), EdidError>(e),
    }
}

fn write_cta_slot(raw: &[u8], index: usize, slot: usize, offset: usize, descriptor: &[u8; 18]) -> (r: (
    Vec<u8>,
    DtdLocation,
))
    requires
        1 <= index <= 255,
        128 * index + 128 <= raw@.len(),
        spec_cta_empty_slot(ext_block(raw@, index as int)) == Some((slot as int, offset as int)),
    ensures
        r.0@ == spec_repair(
            spec_write(raw@, 128 * index + offset, descriptor@),
            128 * index as int,
        ),
        r.1 == (DtdLocation::Cta { extension_index: index as u8, slot }),
{
    let block_start = index * 128;
    let mut patched = slice_to_vec(raw);
    proof {
        let block = ext_block(raw@, index as int);
        let s = spec_cta_dtd_start(block)->0;
        assert(offset == s + 18 * slot);
        assert(slot < cta_slot_count(s)) by {
            lemma_first_index_bound(cta_slot_count(s) as nat, |j: int| cta_slot_free(block, s, j));
        }
    }
    write_bytes(&mut patched, block_start + offset, descriptor.as_slice());
    repair_block_at(&mut patched, block_start);
    (patched, DtdLocation::Cta { extension_index: index as u8, slot })
}

pub proof fn lemma_first_index_bound(n: nat, p: spec_fn(int) -> bool)
    ensures
        (first_index(n, p) matches Some(j) ==> 0 <= j < n && p(j)),
    decreases n,
{
    if n > 0 {
        lemma_first_index_bound((n - 1) as nat, p);
    }
}

pub fn insert_detailed_timing(raw: &[u8], timing: &TimingDescriptor) -> (r: Result<
    (Vec<u8>, DtdLocation),
    EdidError,
>)
    ensures
        insert_result(r, spec_insert_detailed_timing(raw@, *timing)),
{
    check_base(raw)?;
    if let Some(slot) = base_empty_dtd_slot(raw) {
        let location = DtdLocation::Base { slot };
        let patched = patch_detailed_timing(raw, location, timing)?;
        return Ok((patched, location));
    }
    let descriptor = encode_detailed_timing(timing)?;
    let limit = ext_limit(raw);
    let ghost p = |k: int| cta_has_free_slot(raw@, k + 1);
    let mut index: usize = 1;
    while index <= limit
        invariant
            raw@.len() >= 128,
            limit == spec_ext_limit(raw@),
            limit <= 255,
            128 * limit + 128 <= raw@.len(),
            1 <= index <= limit + 1,
            p == (|k: int| cta_has_free_slot(raw@, k + 1)),
            first_index((index - 1) as nat, p) is None,
            spec_dtd_encode_error(*timing) is None,
            spec_base_error(raw@) is None,
            spec_empty_base_dtd_slot(raw@) is None,
            descriptor@ == spec_encode_detailed_timing(*timing),
        decreases limit + 1 - index,
    {
        let block_start = index * 128;
        if let Some((slot, offset)) = cta_empty_dtd_slot(raw, block_start) {
            proof {
                assert(raw@.subrange(block_start as int, block_start + 128) == ext_block(
                    raw@,
                    index as int,
                ));
                assert(first_index(index as nat, p) == Some(index - 1));
                lemma_first_index_stable(index as nat, limit as nat, p);
            }
            let (patched, location) = write_cta_slot(raw, index, slot, offset, &descriptor);
            return Ok((patched, location));
        }
        assert(raw@.subrange(block_start as int, block_start + 128) == ext_block(raw@, index as int));
        index = index + 1;
    }
    Err(EdidError::NoAvailableDetailedTimingSlot)
}

/// Writing `timing` into the first free slot of CTA-861 extension `extension_index`.
pub open spec fn spec_insert_cta_detailed_timing(
    raw: Seq<u8>,
    extension_index: u8,
    timing: TimingDescriptor,
) -> Result<(Seq<u8>, DtdLocation), EdidError> {
    let block_end = 128 * extension_index + 128;
    match spec_base_error(raw) {
        Some(e) => Err(e),
        None => if block_end > raw.len() {
            Err(EdidError::TooShort(block_end as usize))
        } else if ext_block(raw, extension_index as int)[0] != 2 || !cta_has_free_slot(
            raw,
            extension_index as int,
        ) {
            Err(EdidError::NoAvailableDetailedTimingSlot)
        } else {
            match spec_dtd_encode_error(timing) {
                Some(e) => Err(e),
                None => Ok(spec_write_cta_slot(raw, extension_index as int, timing)),
            }
        },
    }
}

pub fn insert_cta_detailed_timing(raw: &[u8], extension_index: u8, timing: &TimingDescriptor) -> (r:
    Result<(Vec<u8>, DtdLocation), EdidError>)
    ensures
        insert_result(r, spec_insert_cta_detailed_timing(raw@, extension_index, *timing)),
{
    check_base(raw)?;
    let block_start = extension_index as usize * 128;
    let block_end = block_start + 128;
    if block_end > raw.len() {
        return Err(EdidError::TooShort(block_end));
    }
    assert(raw@.subrange(block_start as int, block_end as int) == ext_block(
        raw@,
        extension_index as int,
    ));
    if raw[block_start] != 2 {
        return Err(EdidError::NoAvailableDetailedTimingSlot);
    }
    let (slot, offset) = match cta_empty_dtd_slot(raw, block_start) {
        Some(found) => found,
        None => return Err(EdidError::NoAvailableDetailedTimingSlot),
    };
    let descriptor = encode_detailed_timing(timing)?;
    if extension_index == 0 {
        // The base block's first byte is 0x00, never the CTA-861 tag.
        return Err(EdidError::NoAvailableDetailedTimingSlot);
    }
    let (patched, location) = write_cta_slot(
        raw,
        extension_index as usize,
        slot,
        offset,
        &descriptor,
    );
    Ok((patched, location))
}

/// Writing `timing` into base-block detailed timing slot `slot`.
pub open spec fn spec_patch_base_detailed_timing(raw: Seq<u8>, slot: usize, timing: TimingDescriptor) -> Result<
    Seq<u8>,
    EdidError,
> {
    match spec_base_error(raw) {
        Some(e) => Err(e),
        None => if slot >= 4 {
            Err(EdidError::InvalidDetailedTimingSlot(slot))
        } else {
            spec_patch_detailed_timing(raw, DtdLocation::Base { slot }, timing)
        },
    }
}

pub fn patch_base_detailed_timing(raw: &[u8], slot: usize, timing: &TimingDescriptor) -> (r: Result<
    Vec<u8>,
    EdidError,
>)
    ensures
        bytes_result(r, spec_patch_base_detailed_timing(raw@, slot, *timing)),
{
    check_base(raw)?;
    if slot >= 4 {
        return Err(EdidError::InvalidDetailedTimingSlot(slot));
    }
    patch_detailed_timing(raw, DtdLocation::Base { slot }, timing)
}

// ---------------------------------------------------------------------------
// Listing slots
// ---------------------------------------------------------------------------

/// Base-block slot `j` with the timing it holds, if it holds one.
pub open spec fn base_located(raw: Seq<u8>, j: int) -> Option<LocatedDetailedTiming> {
    match spec_parse_detailed_timing(base_dtd(raw, j)) {
        Some(t) => Some(LocatedDetailedTiming { location: DtdLocation::Base { slot: j as usize }, timing: t }),
        None => None,
    }
}

/// Slot `j` of CTA-861 extension `index` (timings from `s`) with its timing, if any.
pub open spec fn cta_located(block: Seq<u8>, s: int, index: int, j: int) -> Option<LocatedDetailedTiming> {
    match spec_parse_detailed_timing(cta_slot(block, s, j)) {
        Some(t) => Some(
            LocatedDetailedTiming {
                location: DtdLocation::Cta { extension_index: index as u8, slot: j as usize },
                timing: t,
            },
        ),
        None => None,
    }
}

/// The detailed timings of extension `index`, when it is a CTA-861 block.
pub open spec fn cta_block_located(raw: Seq<u8>, index: int) -> Seq<LocatedDetailedTiming> {
    let block = ext_block(raw, index);
    match spec_cta_dtd_start(block) {
        Some(s) => collect(cta_slot_count(s) as nat, |j: int| cta_located(block, s, index, j)),
        None => Seq::empty(),
    }
}

/// Every detailed timing of `raw` with its slot: the base block's first, then
/// each CTA-861 extension's in block order.
pub open spec fn spec_detailed_timing_locations(raw: Seq<u8>) -> Seq<LocatedDetailedTiming> {
    collect(4, |j: int| base_located(raw, j)) + concat_ext(
        spec_ext_limit(raw) as nat,
        |k: int| cta_block_located(raw, k),
    )
}

fn base_timing_locations(raw: &[u8]) -> (r: Vec<LocatedDetailedTiming>)
    requires
        raw@.len() >= 128,
    ensures
        r@ == collect(4, |j: int| base_located(raw@, j)),
{
    let mut r: Vec<LocatedDetailedTiming> = Vec::new();
    let mut slot: usize = 0;
    while slot < 4
        invariant
            raw@.len() >= 128,
            slot <= 4,
            r@ == collect(slot as nat, |j: int| base_located(raw@, j)),
        decreases 4 - slot,
    {
        let from = 54 + 18 * slot;
        let d = &raw[from..from + 18];
        assert(d@ == base_dtd(raw@, slot as int));
        if let Some(t) = parse_detailed_timing(d) {
            r.push(LocatedDetailedTiming { location: DtdLocation::Base { slot }, timing: t });
        }
        slot = slot + 1;
    }
    r
}

fn cta_block_locations(raw: &[u8], index: usize) -> (r: Vec<LocatedDetailedTiming>)
    requires
        1 <= index <= 255,
        128 * index + 128 <= raw@.len(),
    ensures
        r@ == cta_block_located(raw@, index as int),
{
    let block_start = index * 128;
    let ghost block = ext_block(raw@, index as int);
    assert(raw@.subrange(block_start as int, block_start + 128) == block);
    let mut r: Vec<LocatedDetailedTiming> = Vec::new();
    let start = match cta_dtd_range(raw, block_start) {
        Some(s) => s,
        None => return r,
    };
    let count = (127 - start) / 18;
    let mut slot: usize = 0;
    while slot < count
        invariant
            1 <= index <= 255,
            block_start == 128 * index,
            block_start + 128 <= raw@.len(),
            block == raw@.subrange(block_start as int, block_start + 128),
            4 <= start < 127,
            count == cta_slot_count(start as int),
            slot <= count,
            r@ == collect(slot as nat, |j: int| cta_located(block, start as int, index as int, j)),
        decreases count - slot,
    {
        let from = block_start + start + 18 * slot;
        let d = &raw[from..from + 18];
        assert(d@ == cta_slot(block, start as int, slot as int));
        if let Some(t) = parse_detailed_timing(d) {
            r.push(
                LocatedDetailedTiming {
                    location: DtdLocation::Cta { extension_index: index as u8, slot },
                    timing: t,
                },
            );
        }
        slot = slot + 1;
    }
    r
}

pub fn detailed_timing_locations(raw: &[u8]) -> (r: Result<Vec<LocatedDetailedTiming>, EdidError>)
    ensures
        match r {
            Ok(v) => spec_base_error(raw@) is None && v@ == spec_detailed_timing_locations(raw@),
            Err(e) => spec_base_error(raw@) == Some(e),
        },
{
    check_base(raw)?;
    let mut timings = base_timing_locations(raw);
    let ghost base = timings@;
    let limit = ext_limit(raw);
    let mut index: usize = 1;
    while index <= limit
        invariant
            raw@.len() >= 128,
            limit == spec_ext_limit(raw@),
            limit <= 255,
            128 * limit + 128 <= raw@.len(),
            1 <= index <= limit + 1,
            base == collect(4, |j: int| base_located(raw@, j)),
            timings@ == base + concat_ext((index - 1) as nat, |k: int| cta_block_located(raw@, k)),
        decreases limit + 1 - index,
    {
        let mut more = cta_block_locations(raw, index);
        let ghost prev = timings@;
        timings.append(&mut more);
        assert(timings@ =~= base + concat_ext(index as nat, |k: int| cta_block_located(raw@, k)));
        index = index + 1;
    }
    Ok(timings)
}

/// Row `j` of CTA-861 extension `index`: what the slot holds and what its block says.
pub open spec fn cta_slot_row(block: Seq<u8>, s: int, index: int, j: int) -> CtaDtdSlot {
    let d = cta_slot(block, s, j);
    let free = spec_all_zero(d);
    let timing = if free {
        None
    } else {
        spec_parse_detailed_timing(d)
    };
    CtaDtdSlot {
        extension_index: index as u8,
        revision: block[1],
        dtd_offset: block[2],
        slot: j as usize,
        timing,
        occupied_unknown: !free && timing is None,
        checksum_valid: spec_checksum_valid(block),
    }
}

/// The slot rows of extension `index`, when it is a CTA-861 block.
pub open spec fn cta_block_rows(raw: Seq<u8>, index: int) -> Seq<CtaDtdSlot> {
    let block = ext_block(raw, index);
    match spec_cta_dtd_start(block) {
        Some(s) => Seq::new(cta_slot_count(s) as nat, |j: int| cta_slot_row(block, s, index, j)),
        None => Seq::empty(),
    }
}

/// Every detailed timing slot of every CTA-861 extension, in block and slot order.
pub open spec fn spec_cta_dtd_slots(raw: Seq<u8>) -> Seq<CtaDtdSlot> {
    concat_ext(spec_ext_limit(raw) as nat, |k: int| cta_block_rows(raw, k))
}

fn cta_block_slot_rows(raw: &[u8], index: usize) -> (r: Vec<CtaDtdSlot>)
    requires
        1 <= index <= 255,
        128 * index + 128 <= raw@.len(),
    ensures
        r@ == cta_block_rows(raw@, index as int),
{
    let block_start = index * 128;
    let ghost block = ext_block(raw@, index as int);
    assert(raw@.subrange(block_start as int, block_start + 128) == block);
    let mut r: Vec<CtaDtdSlot> = Vec::new();
    let start = match cta_dtd_range(raw, block_start) {
        Some(s) => s,
        None => {
            assert(r@ =~= cta_block_rows(raw@, index as int));
            return r;
        },
    };
    let block_slice = &raw[block_start..block_start + 128];
    let checksum_valid = block_checksum_valid(block_slice);
    let revision = raw[block_start + 1];
    let dtd_offset = raw[block_start + 2];
    let count = (127 - start) / 18;
    let mut slot: usize = 0;
    while slot < count
        invariant
            1 <= index <= 255,
            block_start == 128 * index,
            block_start + 128 <= raw@.len(),
            block == raw@.subrange(block_start as int, block_start + 128),
            spec_cta_dtd_start(block) == Some(start as int),
            4 <= start < 127,
            count == cta_slot_count(start as int),
            slot <= count,
            checksum_valid == spec_checksum_valid(block),
            revision == block[1],
            dtd_offset == block[2],
            r@ =~= Seq::new(slot as nat, |j: int| cta_slot_row(block, start as int, index as int, j)),
        decreases count - slot,
    {
        let from = block_start + start + 18 * slot;
        let d = &raw[from..from + 18];
        assert(d@ == cta_slot(block, start as int, slot as int));
        let free = all_zero(d, 0, 18);
        assert(d@.subrange(0, 18) == d@);
        let timing = if free {
            None
        } else {
            parse_detailed_timing(d)
        };
        r.push(
            CtaDtdSlot {
                extension_index: index as u8,
                revision,
                dtd_offset,
                slot,
                timing,
                occupied_unknown: !free && timing.is_none(),
                checksum_valid,
            },
        );
        slot = slot + 1;
    }
    r
}

pub fn cta_dtd_slots(raw: &[u8]) -> (r: Result<Vec<CtaDtdSlot>, EdidError>)
    ensures
        match r {
            Ok(v) => spec_base_error(raw@) is None && v@ == spec_cta_dtd_slots(raw@),
            Err(e) => spec_base_error(raw@) == Some(e),
        },
{
    check_base(raw)?;
    let mut slots: Vec<CtaDtdSlot> = Vec::new();
    let limit = ext_limit(raw);
    let mut index: usize = 1;
    while index <= limit
        invariant
            raw@.len() >= 128,
            limit == spec_ext_limit(raw@),
            limit <= 255,
            128 * limit + 128 <= raw@.len(),
            1 <= index <= limit + 1,
            slots@ == concat_ext((index - 1) as nat, |k: int| cta_block_rows(raw@, k)),
        decreases limit + 1 - index,
    {
        let mut more = cta_block_slot_rows(raw, index);
        slots.append(&mut more);
        index = index + 1;
    }
    Ok(slots)
}

/// Whether base-block slot `j` holds a detailed timing.
pub open spec fn base_slot_used(raw: Seq<u8>, j: int) -> bool {
    spec_parse_detailed_timing(base_dtd(raw, j)) is Some
}

/// Whether slot `j` of a CTA block (timings from `s`) holds a timing.
pub open spec fn cta_slot_used(block: Seq<u8>, s: int, j: int) -> bool {
    !cta_slot_free(block, s, j) && spec_parse_detailed_timing(cta_slot(block, s, j)) is Some
}

/// How many slots of extension `index` hold a timing (0 unless it is a CTA-861 block).
pub open spec fn cta_used_count(raw: Seq<u8>, index: int) -> nat {
    let block = ext_block(raw, index);
    match spec_cta_dtd_start(block) {
        Some(s) => count_where(cta_slot_count(s) as nat, |j: int| cta_slot_used(block, s, j)),
        None => 0,
    }
}

/// How many slots of extension `index` are free (0 unless it is a CTA-861 block).
pub open spec fn cta_free_count(raw: Seq<u8>, index: int) -> nat {
    let block = ext_block(raw, index);
    match spec_cta_dtd_start(block) {
        Some(s) => count_where(cta_slot_count(s) as nat, |j: int| cta_slot_free(block, s, j)),
        None => 0,
    }
}

/// How many detailed and standard timing slots hold a timing and how many are free.
pub open spec fn spec_slot_summary(raw: Seq<u8>) -> EdidSlotSummary {
    let limit = spec_ext_limit(raw) as nat;
    EdidSlotSummary {
        base_dtd_used: count_where(4, |j: int| base_slot_used(raw, j)) as usize,
        base_dtd_free: count_where(4, |j: int| spec_all_zero(base_dtd(raw, j))) as usize,
        standard_used: spec_standard_timings(raw).len() as usize,
        standard_free: count_where(8, |j: int| raw[38 + 2 * j] == 1 && raw[39 + 2 * j] == 1) as usize,
        cta_dtd_used: sum_ext(limit, |k: int| cta_used_count(raw, k)) as usize,
        cta_dtd_free: sum_ext(limit, |k: int| cta_free_count(raw, k)) as usize,
    }
}

/// The used and free slot counts of extension `index`.
#[verifier::rlimit(40)]
fn cta_block_counts(raw: &[u8], index: usize) -> (r: (usize, usize))
    requires
        1 <= index <= 255,
        128 * index + 128 <= raw@.len(),
    ensures
        r.0 == cta_used_count(raw@, index as int),
        r.1 == cta_free_count(raw@, index as int),
        r.0 <= 6,
        r.1 <= 6,
{
    let block_start = index * 128;
    let ghost block = ext_block(raw@, index as int);
    assert(raw@.subrange(block_start as int, block_start + 128) == block);
    let start = match cta_dtd_range(raw, block_start) {
        Some(s) => s,
        None => return (0, 0),
    };
    let count = (127 - start) / 18;
    let ghost pu = |j: int| cta_slot_used(block, start as int, j);
    let ghost pf = |j: int| cta_slot_free(block, start as int, j);
    let mut used: usize = 0;
    let mut free: usize = 0;
    let mut slot: usize = 0;
    while slot < count
        invariant
            block_start == 128 * index,
            block_start + 128 <= raw@.len(),
            block == raw@.subrange(block_start as int, block_start + 128),
            4 <= start < 127,
            count == cta_slot_count(start as int),
            count <= 6,
            slot <= count,
            pu == (|j: int| cta_slot_used(block, start as int, j)),
            pf == (|j: int| cta_slot_free(block, start as int, j)),
            used == count_where(slot as nat, pu),
            free == count_where(slot as nat, pf),
            used <= slot,
            free <= slot,
        decreases count - slot,
    {
        let from = block_start + start + 18 * slot;
        let d = &raw[from..from + 18];
        assert(d@ == cta_slot(block, start as int, slot as int));
        assert(d@.subrange(0, 18) == d@);
        if all_zero(d, 0, 18) {
            free = free + 1;
        } else if parse_detailed_timing(d).is_some() {
            used = used + 1;
        }
        slot = slot + 1;
    }
    (used, free)
}

pub fn slot_summary(raw: &[u8]) -> (r: Result<EdidSlotSummary, EdidError>)
    ensures
        match r {
            Ok(s) => spec_base_error(raw@) is None && s == spec_slot_summary(raw@),
            Err(e) => spec_base_error(raw@) == Some(e),
        },
{
    check_base(raw)?;
    let ghost pu = |j: int| base_slot_used(raw@, j);
    let ghost pf = |j: int| spec_all_zero(base_dtd(raw@, j));
    let mut base_dtd_used: usize = 0;
    let mut base_dtd_free: usize = 0;
    let mut slot: usize = 0;
    while slot < 4
        invariant
            raw@.len() >= 128,
            slot <= 4,
            pu == (|j: int| base_slot_used(raw@, j)),
            pf == (|j: int| spec_all_zero(base_dtd(raw@, j))),
            base_dtd_used == count_where(slot as nat, pu),
            base_dtd_free == count_where(slot as nat, pf),
            base_dtd_used <= slot,
            base_dtd_free <= slot,
        decreases 4 - slot,
    {
        let from = 54 + 18 * slot;
        let d = &raw[from..from + 18];
        assert(d@ == base_dtd(raw@, slot as int));
        if parse_detailed_timing(d).is_some() {
            base_dtd_used = base_dtd_used + 1;
        }
        if all_zero(raw, from, from + 18) {
            base_dtd_free = base_dtd_free + 1;
        }
        slot = slot + 1;
    }
    let standard_used = parse_standard_timings(raw).len();
    let ghost ps = |j: int| raw@[38 + 2 * j] == 1 && raw@[39 + 2 * j] == 1;
    let mut standard_free: usize = 0;
    let mut slot: usize = 0;
    while slot < 8
        invariant
            raw@.len() >= 128,
            slot <= 8,
            ps == (|j: int| raw@[38 + 2 * j] == 1 && raw@[39 + 2 * j] == 1),
            standard_free == count_where(slot as nat, ps),
            standard_free <= slot,
        decreases 8 - slot,
    {
        if raw[38 + 2 * slot] == 1 && raw[39 + 2 * slot] == 1 {
            standard_free = standard_free + 1;
        }
        slot = slot + 1;
    }
    let limit = ext_limit(raw);
    let ghost gu = |k: int| cta_used_count(raw@, k);
    let ghost gf = |k: int| cta_free_count(raw@, k);
    let mut cta_dtd_used: usize = 0;
    let mut cta_dtd_free: usize = 0;
    let mut index: usize = 1;
    while index <= limit
        invariant
            raw@.len() >= 128,
            limit == spec_ext_limit(raw@),
            limit <= 255,
            128 * limit + 128 <= raw@.len(),
            1 <= index <= limit + 1,
            gu == (|k: int| cta_used_count(raw@, k)),
            gf == (|k: int| cta_free_count(raw@, k)),
            cta_dtd_used == sum_ext((index - 1) as nat, gu),
            cta_dtd_free == sum_ext((index - 1) as nat, gf),
            cta_dtd_used <= 6 * (index - 1),
            cta_dtd_free <= 6 * (index - 1),
        decreases limit + 1 - index,
    {
        let (used, free) = cta_block_counts(raw, index);
        cta_dtd_used = cta_dtd_used + used;
        cta_dtd_free = cta_dtd_free + free;
        index = index + 1;
    }
    Ok(
        EdidSlotSummary {
            base_dtd_used,
            base_dtd_free,
            standard_used,
            standard_free,
            cta_dtd_used,
            cta_dtd_free,
        },
    )
}

// ---------------------------------------------------------------------------
// Reading the base block: identity, text and established timings
// ---------------------------------------------------------------------------

/// The letter for a five-bit manufacturer code `c` (1 is `A`).
pub open spec fn pnp_letter(c: int) -> char {
    ((64 + c) as u8) as char
}

/// The three letters packed, five bits each, into the big-endian word `a b`,
/// when each code is 1..=26.
pub open spec fn spec_manufacturer_id(a: u8, b: u8) -> Option<Seq<char>> {
    let word = 256 * a + b;
    let c1 = (word / 1024) % 32;
    let c2 = (word / 32) % 32;
    let c3 = word % 32;
    if c1 == 0 || c1 > 26 || c2 == 0 || c2 > 26 || c3 == 0 || c3 > 26 {
        None
    } else {
        Some(seq![pnp_letter(c1), pnp_letter(c2), pnp_letter(c3)])
    }
}

fn parse_manufacturer_id(byte_a: u8, byte_b: u8) -> (r: Option<String>)
    ensures
        r.deep_view() == spec_manufacturer_id(byte_a, byte_b),
{
    let word: u16 = byte_a as u16 * 256 + byte_b as u16;
    let c1: u8 = ((word / 1024) % 32) as u8;
    let c2: u8 = ((word / 32) % 32) as u8;
    let c3: u8 = (word % 32) as u8;
    if c1 == 0 || c1 > 26 || c2 == 0 || c2 > 26 || c3 == 0 || c3 > 26 {
        return None;
    }
    let mut s = String::new();
    push_char(&mut s, (64 + c1) as char);
    push_char(&mut s, (64 + c2) as char);
    push_char(&mut s, (64 + c3) as char);
    assert(s@ =~= seq![pnp_letter(c1 as int), pnp_letter(c2 as int), pnp_letter(c3 as int)]);
    Some(s)
}

/// A byte that ends a display descriptor's text: newline or NUL.
pub open spec fn ends_text(b: u8) -> bool {
    b == 10 || b == 0
}

/// How many of a display descriptor's 13 text bytes come before the first newline or NUL.
pub open spec fn descriptor_text_len(d: Seq<u8>) -> int {
    match first_index(13, |i: int| ends_text(d[5 + i])) {
        Some(i) => i,
        None => 13,
    }
}

/// Bytes read as Latin-1 characters.
pub open spec fn latin1(bytes: Seq<u8>) -> Seq<char> {
    bytes.map_values(|b: u8| b as char)
}

/// The text of a display descriptor: bytes 5..18 up to a newline or NUL,
/// trimmed; none when nothing is left.
pub open spec fn spec_descriptor_text(d: Seq<u8>) -> Option<Seq<char>> {
    let t = trim(latin1(d.subrange(5, 5 + descriptor_text_len(d))));
    if t.len() == 0 {
        None
    } else {
        Some(t)
    }
}

fn parse_descriptor_text(descriptor: &[u8]) -> (r: Option<String>)
    requires
        descriptor@.len() >= 18,
    ensures
        r.deep_view() == spec_descriptor_text(descriptor@),
{
    let ghost d = descriptor@;
    let ghost p = |i: int| ends_text(d[5 + i]);
    let mut chars: Vec<char> = Vec::new();
    let mut i: usize = 0;
    while i < 13 && !(descriptor[5 + i] == 10 || descriptor[5 + i] == 0)
        invariant
            d == descriptor@,
            d.len() >= 18,
            i <= 13,
            p == (|i: int| ends_text(d[5 + i])),
            first_index(i as nat, p) is None,
            chars@ == latin1(d.subrange(5, 5 + i)),
        decreases 13 - i,
    {
        chars.push(descriptor[5 + i] as char);
        i = i + 1;
        assert(chars@ =~= latin1(d.subrange(5, 5 + i)));
    }
    proof {
        if i < 13 {
            assert(first_index((i + 1) as nat, p) == Some(i as int));
            lemma_first_index_stable((i + 1) as nat, 13, p);
        }
        assert(descriptor_text_len(d) == i);
    }
    let trimmed = trim_chars(&chars);
    if trimmed.len() == 0 {
        None
    } else {
        Some(string_of(&trimmed))
    }
}

/// Established timing `i` of the base block: the byte and bit mask that flag
/// it, and its width, height and refresh rate.
pub open spec fn established_definition(i: int) -> (usize, u8, u16, u16, u16) {
    if i == 0 {
        (35, 0x80, 720, 400, 70)
    } else if i == 1 {
        (35, 0x40, 720, 400, 88)
    } else if i == 2 {
        (35, 0x20, 640, 480, 60)
    } else if i == 3 {
        (35, 0x10, 640, 480, 67)
    } else if i == 4 {
        (35, 0x08, 640, 480, 72)
    } else if i == 5 {
        (35, 0x04, 640, 480, 75)
    } else if i == 6 {
        (35, 0x02, 800, 600, 56)
    } else if i == 7 {
        (35, 0x01, 800, 600, 60)
    } else if i == 8 {
        (36, 0x80, 800, 600, 72)
    } else if i == 9 {
        (36, 0x40, 800, 600, 75)
    } else if i == 10 {
        (36, 0x20, 832, 624, 75)
    } else if i == 11 {
        (36, 0x10, 1024, 768, 87)
    } else if i == 12 {
        (36, 0x08, 1024, 768, 60)
    } else if i == 13 {
        (36, 0x04, 1024, 768, 70)
    } else if i == 14 {
        (36, 0x02, 1024, 768, 75)
    } else if i == 15 {
        (36, 0x01, 1280, 1024, 75)
    } else {
        (37, 0x80, 1152, 870, 75)
    }
}

fn established_entry(i: usize) -> (r: (usize, u8, u16, u16, u16))
    requires
        i < 17,
    ensures
        r == established_definition(i as int),
{
    match i {
        0 => (35, 0x80, 720, 400, 70),
        1 => (35, 0x40, 720, 400, 88),
        2 => (35, 0x20, 640, 480, 60),
        3 => (35, 0x10, 640, 480, 67),
        4 => (35, 0x08, 640, 480, 72),
        5 => (35, 0x04, 640, 480, 75),
        6 => (35, 0x02, 800, 600, 56),
        7 => (35, 0x01, 800, 600, 60),
        8 => (36, 0x80, 800, 600, 72),
        9 => (36, 0x40, 800, 600, 75),
        10 => (36, 0x20, 832, 624, 75),
        11 => (36, 0x10, 1024, 768, 87),
        12 => (36, 0x08, 1024, 768, 60),
        13 => (36, 0x04, 1024, 768, 70),
        14 => (36, 0x02, 1024, 768, 75),
        15 => (36, 0x01, 1280, 1024, 75),
        _ => (37, 0x80, 1152, 870, 75),
    }
}

/// Established timing `i`, when its bit is set in `raw`.
pub open spec fn established_at(raw: Seq<u8>, i: int) -> Option<EstablishedTiming> {
    let (byte, mask, width, height, refresh_hz) = established_definition(i);
    if (raw[byte as int] / mask) % 2 == 1 {
        Some(EstablishedTiming { width, height, refresh_hz })
    } else {
        None
    }
}

/// The established timings whose bits are set, in table order.
pub open spec fn spec_established_timings(raw: Seq<u8>) -> Seq<EstablishedTiming> {
    collect(17, |i: int| established_at(raw, i))
}

fn parse_established_timings(base: &[u8]) -> (r: Vec<EstablishedTiming>)
    requires
        base@.len() >= 38,
    ensures
        r@ == spec_established_timings(base@),
{
    let mut r: Vec<EstablishedTiming> = Vec::new();
    let mut i: usize = 0;
    while i < 17
        invariant
            base@.len() >= 38,
            i <= 17,
            r@ == collect(i as nat, |i: int| established_at(base@, i)),
        decreases 17 - i,
    {
        let (byte, mask, width, height, refresh_hz) = established_entry(i);
        if (base[byte] / mask) % 2 == 1 {
            r.push(EstablishedTiming { width, height, refresh_hz });
        }
        i = i + 1;
    }
    r
}

// ---------------------------------------------------------------------------
// CTA-861 extension blocks
// ---------------------------------------------------------------------------

/// The width, height, refresh rate (mHz) and interlacing of the CTA-861
/// video identification codes this library knows.
pub open spec fn vic_format(vic: u16) -> Option<(u16, u16, u32, bool)> {
    if vic == 1 {
        Some((640, 480, 60_000, false))
    } else if vic == 2 || vic == 3 {
        Some((720, 480, 60_000, false))
    } else if vic == 4 {
        Some((1280, 720, 60_000, false))
    } else if vic == 5 {
        Some((1920, 1080, 60_000, true))
    } else if vic == 16 {
        Some((1920, 1080, 60_000, false))
    } else if vic == 17 || vic == 18 {
        Some((720, 576, 50_000, false))
    } else if vic == 19 {
        Some((1280, 720, 50_000, false))
    } else if vic == 20 {
        Some((1920, 1080, 50_000, true))
    } else if vic == 31 {
        Some((1920, 1080, 50_000, false))
    } else if vic == 32 {
        Some((1920, 1080, 24_000, false))
    } else if vic == 33 {
        Some((1920, 1080, 25_000, false))
    } else if vic == 34 {
        Some((1920, 1080, 30_000, false))
    } else if vic == 40 {
        Some((1920, 1080, 100_000, true))
    } else if vic == 41 {
        Some((1280, 720, 100_000, false))
    } else if vic == 47 {
        Some((1920, 1080, 120_000, true))
    } else if vic == 48 {
        Some((1280, 720, 120_000, false))
    } else if vic == 61 {
        Some((1280, 720, 24_000, false))
    } else if vic == 62 {
        Some((1280, 720, 25_000, false))
    } else if vic == 63 {
        Some((1280, 720, 30_000, false))
    } else if vic == 64 {
        Some((1920, 1080, 120_000, false))
    } else if vic == 93 {
        Some((3840, 2160, 24_000, false))
    } else if vic == 94 {
        Some((3840, 2160, 25_000, false))
    } else if vic == 95 {
        Some((3840, 2160, 30_000, false))
    } else if vic == 96 {
        Some((3840, 2160, 50_000, false))
    } else if vic == 97 {
        Some((3840, 2160, 60_000, false))
    } else if vic == 98 {
        Some((4096, 2160, 24_000, false))
    } else if vic == 99 {
        Some((4096, 2160, 25_000, false))
    } else if vic == 100 {
        Some((4096, 2160, 30_000, false))
    } else if vic == 101 {
        Some((4096, 2160, 50_000, false))
    } else if vic == 102 {
        Some((4096, 2160, 60_000, false))
    } else {
        None
    }
}

/// The video mode of a known VIC.
pub open spec fn spec_cta_vic_mode(vic: u16, native: bool) -> Option<CtaVideoMode> {
    match vic_format(vic) {
        Some((width, height, refresh_millihz, interlaced)) => Some(
            CtaVideoMode { vic, native, width, height, refresh_millihz, interlaced },
        ),
        None => None,
    }
}

fn cta_vic_mode(vic: u16, native: bool) -> (r: Option<CtaVideoMode>)
    ensures
        r == spec_cta_vic_mode(vic, native),
{
    let (width, height, refresh_millihz, interlaced): (u16, u16, u32, bool) = match vic {
        1 => (640, 480, 60_000, false),
        2 | 3 => (720, 480, 60_000, false),
        4 => (1280, 720, 60_000, false),
        5 => (1920, 1080, 60_000, true),
        16 => (1920, 1080, 60_000, false),
        17 | 18 => (720, 576, 50_000, false),
        19 => (1280, 720, 50_000, false),
        20 => (1920, 1080, 50_000, true),
        31 => (1920, 1080, 50_000, false),
        32 => (1920, 1080, 24_000, false),
        33 => (1920, 1080, 25_000, false),
        34 => (1920, 1080, 30_000, false),
        40 => (1920, 1080, 100_000, true),
        41 => (1280, 720, 100_000, false),
        47 => (1920, 1080, 120_000, true),
        48 => (1280, 720, 120_000, false),
        61 => (1280, 720, 24_000, false),
        62 => (1280, 720, 25_000, false),
        63 => (1280, 720, 30_000, false),
        64 => (1920, 1080, 120_000, false),
        93 => (3840, 2160, 24_000, false),
        94 => (3840, 2160, 25_000, false),
        95 => (3840, 2160, 30_000, false),
        96 => (3840, 2160, 50_000, false),
        97 => (3840, 2160, 60_000, false),
        98 => (4096, 2160, 24_000, false),
        99 => (4096, 2160, 25_000, false),
        100 => (4096, 2160, 30_000, false),
        101 => (4096, 2160, 50_000, false),
        102 => (4096, 2160, 60_000, false),
        _ => return None,
    };
    Some(CtaVideoMode { vic, native, width, height, refresh_millihz, interlaced })
}

/// What a short video descriptor byte says: bit 7 marks the native mode, the
/// rest is the VIC, known or not.
pub open spec fn spec_video_descriptor(b: u8) -> CtaVideoDescriptor {
    let native = b >= 128;
    let vic = (b % 128) as u16;
    match spec_cta_vic_mode(vic, native) {
        Some(mode) => CtaVideoDescriptor::Known(mode),
        None => CtaVideoDescriptor::Unknown { vic, native },
    }
}

fn parse_cta_video_modes(block: &[u8], from: usize, to: usize) -> (r: Vec<CtaVideoDescriptor>)
    requires
        from <= to <= block@.len(),
    ensures
        r@ == block@.subrange(from as int, to as int).map_values(|b: u8| spec_video_descriptor(b)),
{
    let mut r: Vec<CtaVideoDescriptor> = Vec::new();
    let mut i: usize = from;
    while i < to
        invariant
            from <= i <= to <= block@.len(),
            r@ == block@.subrange(from as int, i as int).map_values(
                |b: u8| spec_video_descriptor(b),
            ),
        decreases to - i,
    {
        let b = block[i];
        let native = b >= 128;
        let vic = (b % 128) as u16;
        let d = match cta_vic_mode(vic, native) {
            Some(mode) => CtaVideoDescriptor::Known(mode),
            None => CtaVideoDescriptor::Unknown { vic, native },
        };
        r.push(d);
        i = i + 1;
        assert(r@ =~= block@.subrange(from as int, i as int).map_values(
            |b: u8| spec_video_descriptor(b),
        ));
    }
    r
}

/// The data block whose header byte is at `offset`.
pub open spec fn cta_data_block_at(block: Seq<u8>, offset: int) -> CtaDataBlockView {
    let header = block[offset];
    let tag_code = header / 32;
    let len = header % 32;
    CtaDataBlockView {
        tag_code,
        extended_tag: if tag_code == 7 && len > 0 {
            Some(block[offset + 1])
        } else {
            None
        },
        payload_len: len as usize,
        video_modes: if tag_code == 2 {
            block.subrange(offset + 1, offset + 1 + len).map_values(
                |b: u8| spec_video_descriptor(b),
            )
        } else {
            Seq::empty()
        },
    }
}

/// The data blocks from `offset` on, up to a zero header or one that would
/// run past `end`.
pub open spec fn cta_data_blocks_from(block: Seq<u8>, offset: int, end: int) -> Seq<
    CtaDataBlockView,
>
    decreases end - offset,
{
    if offset >= end {
        Seq::empty()
    } else {
        let header = block[offset];
        let next = offset + 1 + header % 32;
        if header == 0 || next > end {
            Seq::empty()
        } else {
            seq![cta_data_block_at(block, offset)] + cta_data_blocks_from(block, next, end)
        }
    }
}

/// The data block collection of a CTA-861 block: from byte 4 up to where its
/// detailed timings start.
pub open spec fn spec_cta_data_blocks(block: Seq<u8>) -> Seq<CtaDataBlockView> {
    if block.len() != 128 || block[0] != 2 || !(4 <= block[2] <= 127) {
        Seq::empty()
    } else {
        cta_data_blocks_from(block, 4, block[2] as int)
    }
}

fn parse_cta_data_blocks(block: &[u8]) -> (r: Vec<CtaDataBlock>)
    ensures
        r.deep_view() == spec_cta_data_blocks(block@),
{
    let mut r: Vec<CtaDataBlock> = Vec::new();
    if block.len() != 128 || block[0] != 2 {
        assert(r.deep_view() =~= Seq::<CtaDataBlockView>::empty());
        return r;
    }
    let dtd_start = block[2] as usize;
    if !(4 <= dtd_start && dtd_start <= 127) {
        assert(r.deep_view() =~= Seq::<CtaDataBlockView>::empty());
        return r;
    }
    let ghost b = block@;
    let ghost all = cta_data_blocks_from(b, 4, dtd_start as int);
    let mut offset: usize = 4;
    assert(r.deep_view() + cta_data_blocks_from(b, 4, dtd_start as int) =~= all);
    while offset < dtd_start
        invariant
            b == block@,
            b.len() == 128,
            4 <= offset <= dtd_start <= 127,
            all == cta_data_blocks_from(b, 4, dtd_start as int),
            all == spec_cta_data_blocks(b),
            r.deep_view() + cta_data_blocks_from(b, offset as int, dtd_start as int) == all,
        decreases dtd_start - offset,
    {
        let header = block[offset];
        if header == 0 {
            assert(r.deep_view() =~= all);
            return r;
        }
        let tag_code = header / 32;
        let payload_len = (header % 32) as usize;
        let payload_start = offset + 1;
        let payload_end = payload_start + payload_len;
        if payload_end > dtd_start {
            assert(r.deep_view() =~= all);
            return r;
        }
        let extended_tag = if tag_code == 7 && payload_len > 0 {
            Some(block[payload_start])
        } else {
            None
        };
        let video_modes = if tag_code == 2 {
            parse_cta_video_modes(block, payload_start, payload_end)
        } else {
            Vec::new()
        };
        let item = CtaDataBlock { tag_code, extended_tag, payload_len, video_modes };
        assert(item.deep_view() == cta_data_block_at(b, offset as int));
        let ghost before = r.deep_view();
        r.push(item);
        assert(r.deep_view() =~= before.push(cta_data_block_at(b, offset as int)));
        assert(cta_data_blocks_from(b, offset as int, dtd_start as int) == seq![
            cta_data_block_at(b, offset as int),
        ] + cta_data_blocks_from(b, payload_end as int, dtd_start as int));
        offset = payload_end;
        assert(r.deep_view() + cta_data_blocks_from(b, offset as int, dtd_start as int) =~= all);
    }
    assert(r.deep_view() =~= all);
    r
}

/// The detailed timings of a CTA block whose timings start at `s`.
pub open spec fn cta_block_timings(block: Seq<u8>, s: int) -> Seq<TimingDescriptor> {
    collect(cta_slot_count(s) as nat, |j: int| spec_parse_detailed_timing(cta_slot(block, s, j)))
}

/// What a CTA-861 extension block (tag 2) holds; none for another block.
pub open spec fn spec_cta_block(block: Seq<u8>, extension_index: u8) -> Option<Cta861BlockView> {
    if block[0] != 2 {
        None
    } else {
        Some(
            Cta861BlockView {
                extension_index,
                revision: block[1],
                dtd_offset: block[2],
                checksum_valid: spec_checksum_valid(block),
                data_blocks: spec_cta_data_blocks(block),
                detailed_timings: match spec_cta_dtd_start(block) {
                    Some(s) => cta_block_timings(block, s),
                    None => Seq::empty(),
                },
                available_dtd_slots: match spec_cta_dtd_start(block) {
                    Some(s) => count_where(
                        cta_slot_count(s) as nat,
                        |j: int| cta_slot_free(block, s, j),
                    ) as usize,
                    None => 0,
                },
            },
        )
    }
}

fn parse_cta_block(extension_index: u8, block: &[u8]) -> (r: Option<Cta861Block>)
    requires
        block@.len() == 128,
    ensures
        r.deep_view() == spec_cta_block(block@, extension_index),
{
    if block[0] != 2 {
        return None;
    }
    let data_blocks = parse_cta_data_blocks(block);
    let mut detailed_timings: Vec<TimingDescriptor> = Vec::new();
    let mut available: usize = 0;
    let ghost b = block@;
    assert(b.subrange(0, 128) == b);
    match cta_dtd_range(block, 0) {
        Some(start) => {
            let count = (127 - start) / 18;
            let ghost pf = |j: int| cta_slot_free(b, start as int, j);
            let mut slot: usize = 0;
            while slot < count
                invariant
                    b == block@,
                    b.len() == 128,
                    4 <= start < 127,
                    count == cta_slot_count(start as int),
                    slot <= count,
                    pf == (|j: int| cta_slot_free(b, start as int, j)),
                    detailed_timings@ == collect(
                        slot as nat,
                        |j: int| spec_parse_detailed_timing(cta_slot(b, start as int, j)),
                    ),
                    available == count_where(slot as nat, pf),
                    available <= slot,
                decreases count - slot,
            {
                let from = start + 18 * slot;
                let d = &block[from..from + 18];
                assert(d@ == cta_slot(b, start as int, slot as int));
                if let Some(t) = parse_detailed_timing(d) {
                    detailed_timings.push(t);
                }
                if all_zero(block, from, from + 18) {
                    available = available + 1;
                }
                slot = slot + 1;
            }
        },
        None => {},
    }
    Some(
        Cta861Block {
            extension_index,
            revision: block[1],
            dtd_offset: block[2],
            checksum_valid: block_checksum_valid(block),
            data_blocks,
            detailed_timings,
            available_dtd_slots: available,
        },
    )
}

/// The CTA-861 blocks among the extensions, in block order.
pub open spec fn spec_cta_blocks(raw: Seq<u8>) -> Seq<Cta861BlockView> {
    collect(
        spec_ext_limit(raw) as nat,
        |i: int| spec_cta_block(ext_block(raw, i + 1), (i + 1) as u8),
    )
}

fn parse_cta_blocks(raw: &[u8]) -> (r: Vec<Cta861Block>)
    requires
        raw@.len() >= 128,
    ensures
        r.deep_view() == spec_cta_blocks(raw@),
{
    let mut r: Vec<Cta861Block> = Vec::new();
    let limit = ext_limit(raw);
    let mut index: usize = 1;
    while index <= limit
        invariant
            raw@.len() >= 128,
            limit == spec_ext_limit(raw@),
            limit <= 255,
            128 * limit + 128 <= raw@.len(),
            1 <= index <= limit + 1,
            r.deep_view() == collect(
                (index - 1) as nat,
                |i: int| spec_cta_block(ext_block(raw@, i + 1), (i + 1) as u8),
            ),
        decreases limit + 1 - index,
    {
        let block_start = index * 128;
        let block = &raw[block_start..block_start + 128];
        assert(block@ == ext_block(raw@, index as int));
        let ghost before = r.deep_view();
        if let Some(b) = parse_cta_block(index as u8, block) {
            r.push(b);
            assert(r.deep_view() =~= before.push(b.deep_view()));
        }
        index = index + 1;
    }
    r
}

// ---------------------------------------------------------------------------
// DisplayID extension blocks
// ---------------------------------------------------------------------------

/// The little-endian 16-bit value at `d[at..at + 2]`.
pub open spec fn le16_at(d: Seq<u8>, at: int) -> int {
    d[at] + 256 * d[at + 1]
}

/// A 20-byte DisplayID Type I timing: each size is stored minus one, the
/// clock in 10 kHz units minus one; none when a size overflows 16 bits or a
/// back porch would be negative.
pub open spec fn spec_type_i_dtd(
    extension_index: u8,
    data_block_index: usize,
    descriptor_index: usize,
    d: Seq<u8>,
) -> Option<DisplayIdDetailedTiming> {
    let h_active = le16_at(d, 4) + 1;
    let h_blanking = le16_at(d, 6) + 1;
    let h_front_porch = le16_at(d, 8) + 1;
    let h_sync_width = le16_at(d, 10) + 1;
    let v_active = le16_at(d, 12) + 1;
    let v_blanking = le16_at(d, 14) + 1;
    let v_front_porch = le16_at(d, 16) + 1;
    let v_sync_width = le16_at(d, 18) + 1;
    let flags = d[3];
    if h_active > 0xffff || h_blanking > 0xffff || h_front_porch > 0xffff || h_sync_width > 0xffff
        || v_active > 0xffff || v_blanking > 0xffff || v_front_porch > 0xffff || v_sync_width
        > 0xffff {
        None
    } else if h_blanking < h_front_porch + h_sync_width || v_blanking < v_front_porch
        + v_sync_width {
        None
    } else {
        Some(
            DisplayIdDetailedTiming {
                extension_index,
                data_block_index,
                descriptor_index,
                raw_flags: flags,
                preferred: flags >= 128,
                timing: TimingDescriptor {
                    pixel_clock_khz: ((d[0] + 256 * d[1] + 65536 * d[2] + 1) * 10) as u32,
                    h_active: h_active as u16,
                    h_blanking: h_blanking as u16,
                    h_front_porch: h_front_porch as u16,
                    h_sync_width: h_sync_width as u16,
                    h_back_porch: (h_blanking - h_front_porch - h_sync_width) as u16,
                    v_active: v_active as u16,
                    v_blanking: v_blanking as u16,
                    v_front_porch: v_front_porch as u16,
                    v_sync_width: v_sync_width as u16,
                    v_back_porch: (v_blanking - v_front_porch - v_sync_width) as u16,
                    h_sync_positive: false,
                    v_sync_positive: false,
                    interlaced: (flags / 16) % 2 == 1,
                },
            },
        )
    }
}

fn parse_displayid_type_i_dtd(
    extension_index: u8,
    data_block_index: usize,
    descriptor_index: usize,
    descriptor: &[u8],
) -> (r: Option<DisplayIdDetailedTiming>)
    requires
        descriptor@.len() == 20,
    ensures
        r == spec_type_i_dtd(extension_index, data_block_index, descriptor_index, descriptor@),
{
    let pixel_clock_khz: u32 = (le_u24(descriptor, 0) + 1) * 10;
    let raw_flags = descriptor[3];
    let h_active = le_u16(descriptor, 4).checked_add(1)?;
    let h_blanking = le_u16(descriptor, 6).checked_add(1)?;
    let h_front_porch = le_u16(descriptor, 8).checked_add(1)?;
    let h_sync_width = le_u16(descriptor, 10).checked_add(1)?;
    let v_active = le_u16(descriptor, 12).checked_add(1)?;
    let v_blanking = le_u16(descriptor, 14).checked_add(1)?;
    let v_front_porch = le_u16(descriptor, 16).checked_add(1)?;
    let v_sync_width = le_u16(descriptor, 18).checked_add(1)?;
    let h_back_porch = h_blanking.checked_sub(h_front_porch)?.checked_sub(h_sync_width)?;
    let v_back_porch = v_blanking.checked_sub(v_front_porch)?.checked_sub(v_sync_width)?;
    Some(
        DisplayIdDetailedTiming {
            extension_index,
            data_block_index,
            descriptor_index,
            raw_flags,
            preferred: raw_flags >= 128,
            timing: TimingDescriptor {
                pixel_clock_khz,
                h_active,
                h_blanking,
                h_front_porch,
                h_sync_width,
                h_back_porch,
                v_active,
                v_blanking,
                v_front_porch,
                v_sync_width,
                v_back_porch,
                h_sync_positive: false,
                v_sync_positive: false,
                interlaced: (raw_flags / 16) % 2 == 1,
            },
        },
    )
}

/// The Type I timings of a data block payload, 20 bytes each.
pub open spec fn spec_type_i_dtds(
    extension_index: u8,
    data_block_index: usize,
    payload: Seq<u8>,
) -> Seq<DisplayIdDetailedTiming> {
    collect(
        payload.len() / 20,
        |j: int|
            spec_type_i_dtd(
                extension_index,
                data_block_index,
                j as usize,
                payload.subrange(20 * j, 20 * j + 20),
            ),
    )
}

fn parse_displayid_type_i_dtds(
    extension_index: u8,
    data_block_index: usize,
    block: &[u8],
    from: usize,
    to: usize,
) -> (r: Vec<DisplayIdDetailedTiming>)
    requires
        from <= to <= block@.len(),
    ensures
        r@ == spec_type_i_dtds(
            extension_index,
            data_block_index,
            block@.subrange(from as int, to as int),
        ),
{
    let ghost payload = block@.subrange(from as int, to as int);
    let count = (to - from) / 20;
    let mut r: Vec<DisplayIdDetailedTiming> = Vec::new();
    let mut j: usize = 0;
    while j < count
        invariant
            from <= to <= block@.len(),
            payload == block@.subrange(from as int, to as int),
            count == payload.len() / 20,
            j <= count,
            r@ == collect(
                j as nat,
                |j: int|
                    spec_type_i_dtd(
                        extension_index,
                        data_block_index,
                        j as usize,
                        payload.subrange(20 * j, 20 * j + 20),
                    ),
            ),
        decreases count - j,
    {
        let at = from + 20 * j;
        let d = &block[at..at + 20];
        assert(d@ == payload.subrange(20 * j, 20 * j + 20));
        if let Some(t) = parse_displayid_type_i_dtd(extension_index, data_block_index, j, d) {
            r.push(t);
        }
        j = j + 1;
    }
    r
}

/// The data block headers of a DisplayID section from `offset` on, up to a
/// zero tag or one whose payload would run past `end`.
pub open spec fn did_blocks_from(block: Seq<u8>, offset: int, end: int) -> Seq<DisplayIdDataBlock>
    decreases end - offset,
{
    if offset + 3 > end {
        Seq::empty()
    } else {
        let tag = block[offset];
        let next = offset + 3 + block[offset + 2];
        if tag == 0 || next > end {
            Seq::empty()
        } else {
            seq![
                DisplayIdDataBlock {
                    tag,
                    revision: block[offset + 1],
                    payload_len: block[offset + 2] as usize,
                },
            ] + did_blocks_from(block, next, end)
        }
    }
}

/// The Type I timings of the data blocks from `offset` on, the one at
/// `offset` being data block number `index`.
pub open spec fn did_timings_from(
    block: Seq<u8>,
    extension_index: u8,
    offset: int,
    index: int,
    end: int,
) -> Seq<DisplayIdDetailedTiming>
    decreases end - offset,
{
    if offset + 3 > end {
        Seq::empty()
    } else {
        let tag = block[offset];
        let next = offset + 3 + block[offset + 2];
        if tag == 0 || next > end {
            Seq::empty()
        } else {
            (if tag == 3 {
                spec_type_i_dtds(extension_index, index as usize, block.subrange(offset + 3, next))
            } else {
                Seq::empty()
            }) + did_timings_from(block, extension_index, next, index + 1, end)
        }
    }
}

/// Where the data blocks of a DisplayID section end: its payload length, kept
/// inside the block.
pub open spec fn did_payload_end(block: Seq<u8>) -> int {
    5 + if block[2] <= 122 {
        block[2] as int
    } else {
        122
    }
}

/// What a DisplayID extension block (tag 0x70) holds; none for another block.
pub open spec fn spec_displayid_block(block: Seq<u8>, extension_index: u8) -> Option<
    DisplayIdBlockView,
> {
    if block.len() != 128 || block[0] != 0x70 {
        None
    } else {
        Some(
            DisplayIdBlockView {
                extension_index,
                version_major: block[1] / 16,
                version_minor: block[1] % 16,
                product_type: block[3],
                extension_count: block[4],
                checksum_valid: spec_checksum_valid(block),
                data_blocks: did_blocks_from(block, 5, did_payload_end(block)),
                detailed_timings: did_timings_from(
                    block,
                    extension_index,
                    5,
                    0,
                    did_payload_end(block),
                ),
            },
        )
    }
}

fn parse_displayid_block(extension_index: u8, block: &[u8]) -> (r: Option<DisplayIdBlock>)
    ensures
        r.deep_view() == spec_displayid_block(block@, extension_index),
{
    if block.len() != 128 || block[0] != 0x70 {
        return None;
    }
    let ghost b = block@;
    let version = block[1];
    let payload_len: usize = if block[2] <= 122 {
        block[2] as usize
    } else {
        122
    };
    let payload_end = 5 + payload_len;
    let ghost all_blocks = did_blocks_from(b, 5, payload_end as int);
    let ghost all_timings = did_timings_from(b, extension_index, 5, 0, payload_end as int);
    let mut data_blocks: Vec<DisplayIdDataBlock> = Vec::new();
    let mut detailed_timings: Vec<DisplayIdDetailedTiming> = Vec::new();
    let mut offset: usize = 5;
    let mut data_block_index: usize = 0;
    assert(data_blocks@ + did_blocks_from(b, 5, payload_end as int) =~= all_blocks);
    assert(detailed_timings@ + did_timings_from(b, extension_index, 5, 0, payload_end as int)
        =~= all_timings);
    while offset + 3 <= payload_end
        invariant
            b == block@,
            b.len() == 128,
            payload_end == did_payload_end(b),
            5 <= offset,
            payload_end <= 127,
            offset <= payload_end,
            data_block_index <= offset,
            all_blocks == did_blocks_from(b, 5, payload_end as int),
            all_timings == did_timings_from(b, extension_index, 5, 0, payload_end as int),
            data_blocks@ + did_blocks_from(b, offset as int, payload_end as int) == all_blocks,
            detailed_timings@ + did_timings_from(
                b,
                extension_index,
                offset as int,
                data_block_index as int,
                payload_end as int,
            ) == all_timings,
        ensures
            did_blocks_from(b, offset as int, payload_end as int) == Seq::<DisplayIdDataBlock>::empty(),
            did_timings_from(
                b,
                extension_index,
                offset as int,
                data_block_index as int,
                payload_end as int,
            ) == Seq::<DisplayIdDetailedTiming>::empty(),
        decreases payload_end - offset,
    {
        let tag = block[offset];
        if tag == 0 {
            break;
        }
        let revision = block[offset + 1];
        let block_payload_len = block[offset + 2] as usize;
        let payload_start = offset + 3;
        let data_end = payload_start + block_payload_len;
        if data_end > 127 || data_end > payload_end {
            break;
        }
        let ghost blocks_before = data_blocks@;
        let ghost timings_before = detailed_timings@;
        data_blocks.push(DisplayIdDataBlock { tag, revision, payload_len: block_payload_len });
        let found = if tag == 0x03 {
            parse_displayid_type_i_dtds(
                extension_index,
                data_block_index,
                block,
                payload_start,
                data_end,
            )
        } else {
            Vec::new()
        };
        let mut found = found;
        detailed_timings.append(&mut found);
        offset = data_end;
        data_block_index = data_block_index + 1;
        assert(data_blocks@ + did_blocks_from(b, offset as int, payload_end as int) =~= all_blocks);
        assert(detailed_timings@ + did_timings_from(
            b,
            extension_index,
            offset as int,
            data_block_index as int,
            payload_end as int,
        ) =~= all_timings);
    }
    proof {
        assert(data_blocks@ =~= all_blocks);
        assert(detailed_timings@ =~= all_timings);
    }
    Some(
        DisplayIdBlock {
            extension_index,
            version_major: version / 16,
            version_minor: version % 16,
            product_type: block[3],
            extension_count: block[4],
            checksum_valid: block_checksum_valid(block),
            data_blocks,
            detailed_timings,
        },
    )
}

/// The DisplayID blocks among the extensions, in block order.
pub open spec fn spec_displayid_blocks(raw: Seq<u8>) -> Seq<DisplayIdBlockView> {
    collect(
        spec_ext_limit(raw) as nat,
        |i: int| spec_displayid_block(ext_block(raw, i + 1), (i + 1) as u8),
    )
}

fn parse_displayid_blocks(raw: &[u8]) -> (r: Vec<DisplayIdBlock>)
    requires
        raw@.len() >= 128,
    ensures
        r.deep_view() == spec_displayid_blocks(raw@),
{
    let mut r: Vec<DisplayIdBlock> = Vec::new();
    let limit = ext_limit(raw);
    let mut index: usize = 1;
    while index <= limit
        invariant
            raw@.len() >= 128,
            limit == spec_ext_limit(raw@),
            limit <= 255,
            128 * limit + 128 <= raw@.len(),
            1 <= index <= limit + 1,
            r.deep_view() == collect(
                (index - 1) as nat,
                |i: int| spec_displayid_block(ext_block(raw@, i + 1), (i + 1) as u8),
            ),
        decreases limit + 1 - index,
    {
        let block_start = index * 128;
        let block = &raw[block_start..block_start + 128];
        assert(block@ == ext_block(raw@, index as int));
        let ghost before = r.deep_view();
        if let Some(b) = parse_displayid_block(index as u8, block) {
            r.push(b);
            assert(r.deep_view() =~= before.push(b.deep_view()));
        }
        index = index + 1;
    }
    r
}

// ---------------------------------------------------------------------------
// Parsing a whole EDID
// ---------------------------------------------------------------------------

/// A base-block descriptor whose first two bytes are zero holds text or other
/// display data, not a timing.
pub open spec fn is_display_descriptor(d: Seq<u8>) -> bool {
    d[0] == 0 && d[1] == 0
}

/// The monitor name of the last name descriptor (tag 0xfc) among the first
/// `n` base-block descriptors.
pub open spec fn monitor_name_upto(raw: Seq<u8>, n: nat) -> Option<Seq<char>>
    decreases n,
{
    if n == 0 {
        None
    } else {
        let d = base_dtd(raw, n - 1);
        if is_display_descriptor(d) && d[3] == 0xfc {
            spec_descriptor_text(d)
        } else {
            monitor_name_upto(raw, (n - 1) as nat)
        }
    }
}

/// The text of base-block descriptor `j` when it is a serial number (0xff)
/// or unspecified text (0xfe) descriptor.
pub open spec fn descriptor_text_at(raw: Seq<u8>, j: int) -> Option<Seq<char>> {
    let d = base_dtd(raw, j);
    if is_display_descriptor(d) && (d[3] == 0xfe || d[3] == 0xff) {
        spec_descriptor_text(d)
    } else {
        None
    }
}

/// What parsing `raw` gives: the base block's identity, name, text and
/// timings, and the CTA-861 and DisplayID extensions it holds.
pub open spec fn spec_parse_edid(raw: Seq<u8>) -> Result<EdidDataView, EdidError> {
    match spec_base_error(raw) {
        Some(e) => Err(e),
        None => Ok(
            EdidDataView {
                raw,
                manufacturer_id: spec_manufacturer_id(raw[8], raw[9]),
                product_code: Some(le16_at(raw, 10) as u16),
                serial_number: Some(
                    (raw[12] + 256 * raw[13] + 65536 * raw[14] + 16777216 * raw[15]) as u32,
                ),
                monitor_name: monitor_name_upto(raw, 4),
                descriptor_text: collect(4, |j: int| descriptor_text_at(raw, j)),
                established_timings: spec_established_timings(raw),
                standard_timings: spec_standard_timings(raw),
                detailed_timings: collect(4, |j: int| spec_parse_detailed_timing(base_dtd(raw, j))),
                cta_blocks: spec_cta_blocks(raw),
                displayid_blocks: spec_displayid_blocks(raw),
                extension_blocks: raw[126],
                checksum_valid: spec_checksum_valid(raw.subrange(0, 128)),
            },
        ),
    }
}

/// The name, text and timings of the four base-block descriptors.
fn parse_base_descriptors(raw: &[u8]) -> (r: (Option<String>, Vec<String>, Vec<TimingDescriptor>))
    requires
        raw@.len() >= 128,
    ensures
        r.0.deep_view() == monitor_name_upto(raw@, 4),
        r.1.deep_view() == collect(4, |j: int| descriptor_text_at(raw@, j)),
        r.2@ == collect(4, |j: int| spec_parse_detailed_timing(base_dtd(raw@, j))),
{
    let mut monitor_name: Option<String> = None;
    let mut descriptor_text: Vec<String> = Vec::new();
    let mut detailed_timings: Vec<TimingDescriptor> = Vec::new();
    let mut slot: usize = 0;
    while slot < 4
        invariant
            raw@.len() >= 128,
            slot <= 4,
            monitor_name.deep_view() == monitor_name_upto(raw@, slot as nat),
            descriptor_text.deep_view() == collect(
                slot as nat,
                |j: int| descriptor_text_at(raw@, j),
            ),
            detailed_timings@ == collect(
                slot as nat,
                |j: int| spec_parse_detailed_timing(base_dtd(raw@, j)),
            ),
        decreases 4 - slot,
    {
        let from = 54 + 18 * slot;
        let d = &raw[from..from + 18];
        assert(d@ == base_dtd(raw@, slot as int));
        if d[0] == 0 && d[1] == 0 {
            if d[3] == 0xfc {
                monitor_name = parse_descriptor_text(d);
            } else if d[3] == 0xfe || d[3] == 0xff {
                let ghost before = descriptor_text.deep_view();
                if let Some(text) = parse_descriptor_text(d) {
                    descriptor_text.push(text);
                    assert(descriptor_text.deep_view() =~= before.push(text@));
                }
            }
        } else if let Some(timing) = parse_detailed_timing(d) {
            detailed_timings.push(timing);
        }
        slot = slot + 1;
    }
    (monitor_name, descriptor_text, detailed_timings)
}

pub fn parse_edid(raw: Vec<u8>) -> (r: Result<EdidData, EdidError>)
    ensures
        match r {
            Ok(data) => spec_parse_edid(raw@) == Ok::<EdidDataView, EdidError>(data.deep_view()),
            Err(e) => spec_parse_edid(raw@) == Err::<EdidDataView, EdidError>(e),
        },
{
    check_base(raw.as_slice())?;
    let bytes = raw.as_slice();
    let manufacturer_id = parse_manufacturer_id(bytes[8], bytes[9]);
    let product_code = Some(le_u16(bytes, 10));
    let serial_number = Some(
        bytes[12] as u32 + 256 * bytes[13] as u32 + 65536 * bytes[14] as u32 + 16777216
            * bytes[15] as u32,
    );
    let extension_blocks = bytes[126];
    let checksum_valid = block_checksum_valid(&bytes[0..128]);
    let established_timings = parse_established_timings(bytes);
    let standard_timings = parse_standard_timings(bytes);
    let (monitor_name, descriptor_text, detailed_timings) = parse_base_descriptors(bytes);
    let cta_blocks = parse_cta_blocks(bytes);
    let displayid_blocks = parse_displayid_blocks(bytes);
    Ok(
        EdidData {
            raw,
            manufacturer_id,
            product_code,
            serial_number,
            monitor_name,
            descriptor_text,
            established_timings,
            standard_timings,
            detailed_timings,
            cta_blocks,
            displayid_blocks,
            extension_blocks,
            checksum_valid,
        },
    )
}

// ---------------------------------------------------------------------------
// Laws of patching
// ---------------------------------------------------------------------------

/// Writing `bytes` at `at` and repairing the checksum of the block at `b`
/// changes only those bytes and the block's last byte, and leaves the block's
/// checksum valid.
pub proof fn lemma_write_and_repair(raw: Seq<u8>, at: int, bytes: Seq<u8>, b: int)
    requires
        0 <= b,
        b + 128 <= raw.len(),
        b <= at,
        at + bytes.len() <= b + 127,
    ensures
        ({
            let p = spec_repair(spec_write(raw, at, bytes), b);
            &&& p.len() == raw.len()
            &&& spec_checksum_valid(p.subrange(b, b + 128))
            &&& p.subrange(at, at + bytes.len()) == bytes
            &&& forall|i: int|
                0 <= i < raw.len() && !(at <= i < at + bytes.len()) && i != b + 127 ==> p[i]
                    == raw[i]
        }),
{
    let w = spec_write(raw, at, bytes);
    let p = spec_repair(w, b);
    let prefix = w.subrange(b, b + 127);
    assert(p.subrange(b, b + 128) =~= prefix.push(checksum_byte(prefix)));
    lemma_checksum_byte_valid(prefix);
    assert(p.subrange(at, at + bytes.len()) =~= bytes);
}

/// Patching a detailed timing slot writes the encoded timing there, keeps every
/// other byte but the block's checksum, and leaves that checksum valid; a
/// timing whose clock and back porches the format carries reads back unchanged.
pub proof fn lemma_patch_detailed_timing(raw: Seq<u8>, location: DtdLocation, t: TimingDescriptor)
    requires
        spec_patch_detailed_timing(raw, location, t) is Ok,
    ensures
        ({
            let p = spec_patch_detailed_timing(raw, location, t)->Ok_0;
            let (o, b) = spec_dtd_offset(raw, location)->Ok_0;
            &&& p.len() == raw.len()
            &&& spec_checksum_valid(p.subrange(b, b + 128))
            &&& p.subrange(o, o + 18) == spec_encode_detailed_timing(t)
            &&& dtd_round_trips(t) ==> spec_parse_detailed_timing(p.subrange(o, o + 18)) == Some(t)
            &&& forall|i: int|
                0 <= i < raw.len() && !(o <= i < o + 18) && i != b + 127 ==> p[i] == raw[i]
        }),
{
    let (o, b) = spec_dtd_offset(raw, location)->Ok_0;
    lemma_write_and_repair(raw, o, spec_encode_detailed_timing(t), b);
    if dtd_round_trips(t) {
        lemma_detailed_timing_round_trip(t);
    }
}

/// Deleting a detailed timing leaves its slot all zero, so that it reads as
/// free and holds no timing, keeps every other byte but the block's checksum,
/// and leaves that checksum valid.
pub proof fn lemma_delete_detailed_timing(raw: Seq<u8>, location: DtdLocation)
    requires
        spec_delete_detailed_timing(raw, location) is Ok,
    ensures
        ({
            let p = spec_delete_detailed_timing(raw, location)->Ok_0;
            let (o, b) = spec_dtd_offset(raw, location)->Ok_0;
            &&& p.len() == raw.len()
            &&& spec_checksum_valid(p.subrange(b, b + 128))
            &&& spec_all_zero(p.subrange(o, o + 18))
            &&& spec_parse_detailed_timing(p.subrange(o, o + 18)) is None
            &&& forall|i: int|
                0 <= i < raw.len() && !(o <= i < o + 18) && i != b + 127 ==> p[i] == raw[i]
        }),
{
    let (o, b) = spec_dtd_offset(raw, location)->Ok_0;
    lemma_write_and_repair(raw, o, zero_dtd(), b);
    let p = spec_delete_detailed_timing(raw, location)->Ok_0;
    assert(p.subrange(o, o + 18)[0] == 0);
    assert(p.subrange(o, o + 18)[1] == 0);
}

/// Deleting a standard timing marks its slot unused (`01 01`), so that the
/// base block no longer lists a timing in that slot; every other byte but the
/// checksum is kept, and the checksum is valid.
pub proof fn lemma_delete_standard_timing(raw: Seq<u8>, slot: usize)
    requires
        spec_delete_standard_timing(raw, slot) is Ok,
    ensures
        ({
            let p = spec_delete_standard_timing(raw, slot)->Ok_0;
            &&& p.len() == raw.len()
            &&& spec_checksum_valid(p.subrange(0, 128))
            &&& std_slot(p, slot as int) is None
            &&& forall|i: int|
                0 <= i < raw.len() && i != 38 + 2 * slot && i != 39 + 2 * slot && i != 127
                    ==> p[i] == raw[i]
        }),
{
    let o = 38 + 2 * slot;
    lemma_write_and_repair(raw, o, seq![1u8, 1u8], 0);
    let p = spec_delete_standard_timing(raw, slot)->Ok_0;
    assert(p[o] == p.subrange(o, o + 2)[0]);
    assert(p[o + 1] == p.subrange(o, o + 2)[1]);
}

/// Patching a standard timing slot makes it list the timing (in that slot),
/// unless its encoding is the unused-slot marker; every other byte but the
/// checksum is kept, and the checksum is valid.
pub proof fn lemma_patch_standard_timing(raw: Seq<u8>, slot: usize, t: StandardTiming)
    requires
        spec_patch_standard_timing(raw, slot, t) is Ok,
    ensures
        ({
            let p = spec_patch_standard_timing(raw, slot, t)->Ok_0;
            let e = spec_encode_standard_timing(t);
            &&& p.len() == raw.len()
            &&& spec_checksum_valid(p.subrange(0, 128))
            &&& !(e[0] == 1 && e[1] == 1) ==> std_slot(p, slot as int) == Some(
                StandardTiming { slot, ..t },
            )
            &&& forall|i: int|
                0 <= i < raw.len() && i != 38 + 2 * slot && i != 39 + 2 * slot && i != 127
                    ==> p[i] == raw[i]
        }),
{
    let o = 38 + 2 * slot;
    let e = spec_encode_standard_timing(t);
    lemma_write_and_repair(raw, o, e, 0);
    let p = spec_patch_standard_timing(raw, slot, t)->Ok_0;
    assert(p[o] == p.subrange(o, o + 2)[0]);
    assert(p[o + 1] == p.subrange(o, o + 2)[1]);
    lemma_standard_timing_round_trip(t, slot);
}

/// Inserting a detailed timing fills a slot that was free and reports it: the
/// result is what patching that slot gives.
pub proof fn lemma_insert_detailed_timing(raw: Seq<u8>, t: TimingDescriptor)
    requires
        spec_insert_detailed_timing(raw, t) is Ok,
    ensures
        ({
            let (p, location) = spec_insert_detailed_timing(raw, t)->Ok_0;
            let (o, b) = spec_dtd_offset(raw, location)->Ok_0;
            &&& spec_dtd_offset(raw, location) is Ok
            &&& spec_all_zero(raw.subrange(o, o + 18))
            &&& spec_patch_detailed_timing(raw, location, t) == Ok::<Seq<u8>, EdidError>(p)
        }),
{
    match spec_empty_base_dtd_slot(raw) {
        Some(j) => {
            lemma_first_index_bound(4, |j: int| spec_all_zero(base_dtd(raw, j)));
        },
        None => {
            let index = spec_first_free_cta(raw)->0;
            lemma_first_index_bound(
                spec_ext_limit(raw) as nat,
                |k: int| cta_has_free_slot(raw, k + 1),
            );
            let block = ext_block(raw, index);
            let s = spec_cta_dtd_start(block)->0;
            lemma_first_index_bound(cta_slot_count(s) as nat, |j: int| cta_slot_free(block, s, j));
            let (slot, offset) = spec_cta_empty_slot(block)->0;
            assert(raw.subrange(128 * index, 128 * index + 128) == block);
            assert(raw.subrange(128 * index + offset, 128 * index + offset + 18) =~= cta_slot(
                block,
                s,
                slot,
            ));
        },
    }
}

/// Writing past the header and repairing a checksum keeps an EDID's base
/// block valid: same length, same header.
pub proof fn lemma_edit_keeps_base(raw: Seq<u8>, at: int, bytes: Seq<u8>, b: int)
    requires
        spec_base_error(raw) is None,
        8 <= at,
        at + bytes.len() <= raw.len(),
        0 <= b,
        b + 128 <= raw.len(),
    ensures
        spec_base_error(spec_repair(spec_write(raw, at, bytes), b)) is None,
{
    let p = spec_repair(spec_write(raw, at, bytes), b);
    assert(p.len() == raw.len());
    assert forall|i: int| 0 <= i < 8 implies p[i] == raw[i] by {}
}

/// A successful patch of a detailed timing leaves bytes that parse as an EDID.
pub proof fn lemma_patch_detailed_keeps_base(raw: Seq<u8>, location: DtdLocation, timing: TimingDescriptor)
    requires
        spec_patch_detailed_timing(raw, location, timing) is Ok,
    ensures
        spec_base_error(spec_patch_detailed_timing(raw, location, timing)->Ok_0) is None,
{
    let (o, b) = spec_dtd_offset(raw, location)->Ok_0;
    lemma_edit_keeps_base(raw, o, spec_encode_detailed_timing(timing), b);
}

/// A successful delete of a detailed timing leaves bytes that parse as an EDID.
pub proof fn lemma_delete_detailed_keeps_base(raw: Seq<u8>, location: DtdLocation)
    requires
        spec_delete_detailed_timing(raw, location) is Ok,
    ensures
        spec_base_error(spec_delete_detailed_timing(raw, location)->Ok_0) is None,
{
    let (o, b) = spec_dtd_offset(raw, location)->Ok_0;
    lemma_edit_keeps_base(raw, o, zero_dtd(), b);
}

/// A successful patch of a standard timing leaves bytes that parse as an EDID.
pub proof fn lemma_patch_standard_keeps_base(raw: Seq<u8>, slot: usize, timing: StandardTiming)
    requires
        spec_patch_standard_timing(raw, slot, timing) is Ok,
    ensures
        spec_base_error(spec_patch_standard_timing(raw, slot, timing)->Ok_0) is None,
{
    lemma_edit_keeps_base(raw, 38 + 2 * slot, spec_encode_standard_timing(timing), 0);
}

/// A successful delete of a standard timing leaves bytes that parse as an EDID.
pub proof fn lemma_delete_standard_keeps_base(raw: Seq<u8>, slot: usize)
    requires
        spec_delete_standard_timing(raw, slot) is Ok,
    ensures
        spec_base_error(spec_delete_standard_timing(raw, slot)->Ok_0) is None,
{
    lemma_edit_keeps_base(raw, 38 + 2 * slot, seq![1u8, 1u8], 0);
}

/// A successful insert of a standard timing leaves bytes that parse as an EDID.
pub proof fn lemma_insert_standard_keeps_base(raw: Seq<u8>, timing: StandardTiming)
    requires
        spec_insert_standard_timing(raw, timing) is Ok,
    ensures
        spec_base_error(spec_insert_standard_timing(raw, timing)->Ok_0.0) is None,
{
    let j = spec_empty_standard_slot(raw)->0;
    lemma_first_index_bound(8, |j: int| raw[38 + 2 * j] == 1 && raw[39 + 2 * j] == 1);
    lemma_edit_keeps_base(raw, 38 + 2 * j, spec_encode_standard_timing(timing), 0);
}

/// A successful insert of a detailed timing leaves bytes that parse as an EDID.
pub proof fn lemma_insert_detailed_keeps_base(raw: Seq<u8>, timing: TimingDescriptor)
    requires
        spec_insert_detailed_timing(raw, timing) is Ok,
    ensures
        spec_base_error(spec_insert_detailed_timing(raw, timing)->Ok_0.0) is None,
{
    lemma_insert_detailed_timing(raw, timing);
    let location = spec_insert_detailed_timing(raw, timing)->Ok_0.1;
    lemma_patch_detailed_keeps_base(raw, location, timing);
}

/// A successful insert into a chosen CTA-861 block leaves bytes that parse as an EDID.
pub proof fn lemma_insert_cta_keeps_base(raw: Seq<u8>, extension_index: u8, timing: TimingDescriptor)
    requires
        spec_insert_cta_detailed_timing(raw, extension_index, timing) is Ok,
    ensures
        spec_base_error(spec_insert_cta_detailed_timing(raw, extension_index, timing)->Ok_0.0) is None,
{
    let index = extension_index as int;
    let block = ext_block(raw, index);
    let s = spec_cta_dtd_start(block)->0;
    lemma_first_index_bound(cta_slot_count(s) as nat, |j: int| cta_slot_free(block, s, j));
    let (slot, offset) = spec_cta_empty_slot(block)->0;
    lemma_edit_keeps_base(raw, 128 * index + offset, spec_encode_detailed_timing(timing), 128 * index);
}


/// The pixel clock of an encoded detailed timing descriptor is stored
/// little-endian in units of 10 kHz: byte 0 is the low byte, byte 1 the high.
pub proof fn lemma_encoded_clock_little_endian(t: TimingDescriptor)
    requires
        spec_dtd_encode_error(t) is None,
    ensures
        spec_encode_detailed_timing(t).len() == 18,
        spec_encode_detailed_timing(t)[0] == (t.pixel_clock_khz / 10) % 256,
        spec_encode_detailed_timing(t)[1] == (t.pixel_clock_khz / 10) / 256,
        spec_encode_detailed_timing(t)[0] + 256 * spec_encode_detailed_timing(t)[1] == t.pixel_clock_khz / 10,
{
    lemma_split_byte((t.pixel_clock_khz / 10) as int);
}

/// Reading a detailed timing descriptor takes its pixel clock little-endian
/// in units of 10 kHz: a zero clock is no timing, any other gives
/// `(d[0] + 256 * d[1]) * 10` kHz, and the active sizes are the low byte
/// plus the high nibble times 256.
pub proof fn lemma_parsed_clock_little_endian(d: Seq<u8>)
    requires
        d.len() >= 18,
    ensures
        (d[0] == 0 && d[1] == 0) <==> spec_parse_detailed_timing(d) is None,
        spec_parse_detailed_timing(d) matches Some(t) ==> t.pixel_clock_khz == (d[0] + 256 * d[1]) * 10
            && t.h_active == d[2] + 256 * (d[4] / 16) && t.v_active == d[5] + 256 * (d[7] / 16)
            && t.h_blanking == d[3] + 256 * (d[4] % 16) && t.v_blanking == d[6] + 256 * (d[7] % 16)
            && t.h_front_porch == d[8] + 256 * (d[11] / 64) && t.h_sync_width == d[9] + 256 * ((d[11]
            / 16) % 4) && t.v_front_porch == d[10] / 16 + 16 * ((d[11] / 4) % 4) && t.v_sync_width
            == d[10] % 16 + 16 * (d[11] % 4) && t.interlaced == (d[17] >= 128) && t.v_sync_positive
            == ((d[17] / 4) % 2 == 1) && t.h_sync_positive == ((d[17] / 2) % 2 == 1),
{
}


proof fn lemma_collect_contains<T>(n: nat, f: spec_fn(int) -> Option<T>, x: T)
    ensures
        collect(n, f).contains(x) <==> exists|i: int| 0 <= i < n && #[trigger] f(i) == Some(x),
    decreases n,
{
    if n > 0 {
        lemma_collect_contains((n - 1) as nat, f, x);
        let prev = collect((n - 1) as nat, f);
        match f(n - 1) {
            Some(y) => {
                if prev.push(y).contains(x) {
                    let k = choose|k: int| 0 <= k < prev.push(y).len() && prev.push(y)[k] == x;
                    if k < prev.len() {
                        assert(prev[k] == x);
                        assert(prev.contains(x));
                    } else {
                        assert(f(n - 1) == Some(x));
                    }
                }
                if exists|i: int| 0 <= i < n && #[trigger] f(i) == Some(x) {
                    let i = choose|i: int| 0 <= i < n && #[trigger] f(i) == Some(x);
                    if i == n - 1 {
                        assert(prev.push(y)[prev.len() as int] == x);
                    } else {
                        let k = choose|k: int| 0 <= k < prev.len() && prev[k] == x;
                        assert(prev.push(y)[k] == x);
                    }
                }
            },
            None => {
                if exists|i: int| 0 <= i < n && #[trigger] f(i) == Some(x) {
                    let i = choose|i: int| 0 <= i < n && #[trigger] f(i) == Some(x);
                    assert(i != n - 1);
                }
            },
        }
    }
}

/// Whether the parsed base block lists `width`x`height` at `refresh_hz`.
pub open spec fn lists_established(raw: Seq<u8>, width: u16, height: u16, refresh_hz: u16) -> bool {
    spec_established_timings(raw).contains(EstablishedTiming { width, height, refresh_hz })
}

/// Whether the bits of `mask` are set in byte `byte` of `raw`.
pub open spec fn bit_set(raw: Seq<u8>, byte: int, mask: u8) -> bool {
    (raw[byte] / mask) % 2 == 1
}

proof fn lemma_established_row(raw: Seq<u8>, k: int)
    requires
        raw.len() >= 38,
        0 <= k < 17,
    ensures
        ({
            let (byte, mask, w, h, r) = established_definition(k);
            lists_established(raw, w, h, r) <==> bit_set(raw, byte as int, mask)
        }),
{
    let (byte, mask, w, h, r) = established_definition(k);
    let x = EstablishedTiming { width: w, height: h, refresh_hz: r };
    let f = |i: int| established_at(raw, i);
    lemma_collect_contains(17, f, x);
    if bit_set(raw, byte as int, mask) {
        assert(f(k) == Some(x));
    }
    if exists|i: int| 0 <= i < 17 && #[trigger] f(i) == Some(x) {
        let i = choose|i: int| 0 <= i < 17 && #[trigger] f(i) == Some(x);
        assert(i == k);
    }
}

/// The established timings a base block lists follow the VESA EDID 1.3
/// table: each mode below is listed exactly when its bit is set (bytes 35 to
/// 37, most significant bit first).
pub proof fn lemma_established_timings_follow_vesa_table(raw: Seq<u8>)
    requires
        raw.len() >= 38,
    ensures
        lists_established(raw, 720, 400, 70) <==> bit_set(raw, 35, 0x80),
        lists_established(raw, 720, 400, 88) <==> bit_set(raw, 35, 0x40),
        lists_established(raw, 640, 480, 60) <==> bit_set(raw, 35, 0x20),
        lists_established(raw, 640, 480, 67) <==> bit_set(raw, 35, 0x10),
        lists_established(raw, 640, 480, 72) <==> bit_set(raw, 35, 0x08),
        lists_established(raw, 640, 480, 75) <==> bit_set(raw, 35, 0x04),
        lists_established(raw, 800, 600, 56) <==> bit_set(raw, 35, 0x02),
        lists_established(raw, 800, 600, 60) <==> bit_set(raw, 35, 0x01),
        lists_established(raw, 800, 600, 72) <==> bit_set(raw, 36, 0x80),
        lists_established(raw, 800, 600, 75) <==> bit_set(raw, 36, 0x40),
        lists_established(raw, 832, 624, 75) <==> bit_set(raw, 36, 0x20),
        lists_established(raw, 1024, 768, 87) <==> bit_set(raw, 36, 0x10),
        lists_established(raw, 1024, 768, 60) <==> bit_set(raw, 36, 0x08),
        lists_established(raw, 1024, 768, 70) <==> bit_set(raw, 36, 0x04),
        lists_established(raw, 1024, 768, 75) <==> bit_set(raw, 36, 0x02),
        lists_established(raw, 1280, 1024, 75) <==> bit_set(raw, 36, 0x01),
        lists_established(raw, 1152, 870, 75) <==> bit_set(raw, 37, 0x80),
{
    lemma_established_row(raw, 0);
    lemma_established_row(raw, 1);
    lemma_established_row(raw, 2);
    lemma_established_row(raw, 3);
    lemma_established_row(raw, 4);
    lemma_established_row(raw, 5);
    lemma_established_row(raw, 6);
    lemma_established_row(raw, 7);
    lemma_established_row(raw, 8);
    lemma_established_row(raw, 9);
    lemma_established_row(raw, 10);
    lemma_established_row(raw, 11);
    lemma_established_row(raw, 12);
    lemma_established_row(raw, 13);
    lemma_established_row(raw, 14);
    lemma_established_row(raw, 15);
    lemma_established_row(raw, 16);
}


/// A parsed EDID lists, as its established timings, what the VESA table
/// gives for its base block (see `lemma_established_timings_follow_vesa_table`).
pub proof fn lemma_parsed_established_timings(raw: Seq<u8>)
    ensures
        spec_parse_edid(raw) matches Ok(d) ==> raw.len() >= 128 && d.established_timings
            == spec_established_timings(raw),
{
}


/// Reading a standard timing follows the EDID layout: `01 01` or a zero first
/// byte is an unused slot; otherwise the width is (first byte + 31) * 8, the
/// refresh is the low six bits of the second byte plus 60, and its top two
/// bits give the aspect ratio 16:10, 4:3, 5:4 or 16:9, from which the height
/// follows.
pub proof fn lemma_standard_timing_layout(slot: usize, a: u8, b: u8)
    ensures
        ((a == 1 && b == 1) || a == 0) <==> spec_parse_standard_timing(slot, a, b) is None,
        spec_parse_standard_timing(slot, a, b) matches Some(t) ==> {
            &&& t.slot == slot
            &&& t.width == (a + 31) * 8
            &&& t.refresh_hz == b % 64 + 60
            &&& b < 64 ==> t.aspect == StandardTimingAspect::SixteenTen && t.height == t.width * 10 / 16
            &&& 64 <= b < 128 ==> t.aspect == StandardTimingAspect::FourThree && t.height == t.width * 3 / 4
            &&& 128 <= b < 192 ==> t.aspect == StandardTimingAspect::FiveFour && t.height == t.width * 4 / 5
            &&& 192 <= b ==> t.aspect == StandardTimingAspect::SixteenNine && t.height == t.width * 9 / 16
        },
{
}



/// Whether the short video descriptor `b` decodes to a known mode of this
/// size, refresh and scan, with its VIC and native flag taken from the byte.
pub open spec fn decodes_to(b: u8, width: u16, height: u16, refresh_millihz: u32, interlaced: bool) -> bool {
    spec_video_descriptor(b) == CtaVideoDescriptor::Known(
        CtaVideoMode { vic: (b % 128) as u16, native: b >= 128, width, height, refresh_millihz, interlaced },
    )
}

/// Whether `b` decodes to an unknown VIC, with its VIC and native flag.
pub open spec fn stays_unknown(b: u8) -> bool {
    spec_video_descriptor(b) == CtaVideoDescriptor::Unknown { vic: (b % 128) as u16, native: b >= 128 }
}

/// A short video descriptor byte names its VIC in the low seven bits and
/// marks a native mode with the top bit; the VICs below decode to these
/// modes, and every other VIC stays unknown.
pub proof fn lemma_short_video_descriptor_table(b: u8)
    ensures
        b % 128 == 1 ==> decodes_to(b, 640, 480, 60_000, false),
        b % 128 == 2 ==> decodes_to(b, 720, 480, 60_000, false),
        b % 128 == 3 ==> decodes_to(b, 720, 480, 60_000, false),
        b % 128 == 4 ==> decodes_to(b, 1280, 720, 60_000, false),
        b % 128 == 5 ==> decodes_to(b, 1920, 1080, 60_000, true),
        b % 128 == 16 ==> decodes_to(b, 1920, 1080, 60_000, false),
        b % 128 == 17 ==> decodes_to(b, 720, 576, 50_000, false),
        b % 128 == 18 ==> decodes_to(b, 720, 576, 50_000, false),
        b % 128 == 19 ==> decodes_to(b, 1280, 720, 50_000, false),
        b % 128 == 20 ==> decodes_to(b, 1920, 1080, 50_000, true),
        b % 128 == 31 ==> decodes_to(b, 1920, 1080, 50_000, false),
        b % 128 == 32 ==> decodes_to(b, 1920, 1080, 24_000, false),
        b % 128 == 33 ==> decodes_to(b, 1920, 1080, 25_000, false),
        b % 128 == 34 ==> decodes_to(b, 1920, 1080, 30_000, false),
        b % 128 == 40 ==> decodes_to(b, 1920, 1080, 100_000, true),
        b % 128 == 41 ==> decodes_to(b, 1280, 720, 100_000, false),
        b % 128 == 47 ==> decodes_to(b, 1920, 1080, 120_000, true),
        b % 128 == 48 ==> decodes_to(b, 1280, 720, 120_000, false),
        b % 128 == 61 ==> decodes_to(b, 1280, 720, 24_000, false),
        b % 128 == 62 ==> decodes_to(b, 1280, 720, 25_000, false),
        b % 128 == 63 ==> decodes_to(b, 1280, 720, 30_000, false),
        b % 128 == 64 ==> decodes_to(b, 1920, 1080, 120_000, false),
        b % 128 == 93 ==> decodes_to(b, 3840, 2160, 24_000, false),
        b % 128 == 94 ==> decodes_to(b, 3840, 2160, 25_000, false),
        b % 128 == 95 ==> decodes_to(b, 3840, 2160, 30_000, false),
        b % 128 == 96 ==> decodes_to(b, 3840, 2160, 50_000, false),
        b % 128 == 97 ==> decodes_to(b, 3840, 2160, 60_000, false),
        b % 128 == 98 ==> decodes_to(b, 4096, 2160, 24_000, false),
        b % 128 == 99 ==> decodes_to(b, 4096, 2160, 25_000, false),
        b % 128 == 100 ==> decodes_to(b, 4096, 2160, 30_000, false),
        b % 128 == 101 ==> decodes_to(b, 4096, 2160, 50_000, false),
        b % 128 == 102 ==> decodes_to(b, 4096, 2160, 60_000, false),
        !seq![1, 2, 3, 4, 5, 16, 17, 18, 19, 20, 31, 32, 33, 34, 40, 41, 47, 48, 61, 62, 63, 64, 93, 94, 95, 96, 97, 98, 99, 100, 101, 102].contains(b % 128) ==> stays_unknown(b),
{
    let known = seq![1, 2, 3, 4, 5, 16, 17, 18, 19, 20, 31, 32, 33, 34, 40, 41, 47, 48, 61, 62, 63, 64, 93, 94, 95, 96, 97, 98, 99, 100, 101, 102];
    if !known.contains(b % 128) {
        assert(known[0] == 1);
        assert(known[1] == 2);
        assert(known[2] == 3);
        assert(known[3] == 4);
        assert(known[4] == 5);
        assert(known[5] == 16);
        assert(known[6] == 17);
        assert(known[7] == 18);
        assert(known[8] == 19);
        assert(known[9] == 20);
        assert(known[10] == 31);
        assert(known[11] == 32);
        assert(known[12] == 33);
        assert(known[13] == 34);
        assert(known[14] == 40);
        assert(known[15] == 41);
        assert(known[16] == 47);
        assert(known[17] == 48);
        assert(known[18] == 61);
        assert(known[19] == 62);
        assert(known[20] == 63);
        assert(known[21] == 64);
        assert(known[22] == 93);
        assert(known[23] == 94);
        assert(known[24] == 95);
        assert(known[25] == 96);
        assert(known[26] == 97);
        assert(known[27] == 98);
        assert(known[28] == 99);
        assert(known[29] == 100);
        assert(known[30] == 101);
        assert(known[31] == 102);
    }
}

} // verus!
