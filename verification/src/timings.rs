//! Timing presets and the integer parts of the timings they produce: the
//! porch and sync shapes. The pixel clock of a preset, which comes from a
//! refresh rate in floating point, is computed by the caller and handed in.
use crate::models::TimingDescriptor;
use vstd::prelude::*;

verus! {

#[derive(Debug, Clone, Copy, PartialEq, Eq, Structural)]
pub enum TimingPreset {
    Manual,
    AutomaticPc,
    AutomaticHdtv,
    AutomaticCrt,
    NativePc,
    NativeHdtv,
    Exact,
    ExactReduced,
}

/// The position of a preset in the cycle order.
pub open spec fn preset_index(p: TimingPreset) -> int {
    match p {
        TimingPreset::Manual => 0,
        TimingPreset::AutomaticPc => 1,
        TimingPreset::AutomaticHdtv => 2,
        TimingPreset::AutomaticCrt => 3,
        TimingPreset::NativePc => 4,
        TimingPreset::NativeHdtv => 5,
        TimingPreset::Exact => 6,
        TimingPreset::ExactReduced => 7,
    }
}

/// The preset at position `i` of the cycle order (`i` taken modulo 8).
pub open spec fn preset_at(i: int) -> TimingPreset {
    let k = i % 8;
    if k == 0 {
        TimingPreset::Manual
    } else if k == 1 {
        TimingPreset::AutomaticPc
    } else if k == 2 {
        TimingPreset::AutomaticHdtv
    } else if k == 3 {
        TimingPreset::AutomaticCrt
    } else if k == 4 {
        TimingPreset::NativePc
    } else if k == 5 {
        TimingPreset::NativeHdtv
    } else if k == 6 {
        TimingPreset::Exact
    } else {
        TimingPreset::ExactReduced
    }
}

impl TimingPreset {
    pub open spec fn spec_label(self) -> Seq<char> {
        match self {
            TimingPreset::Manual => "Manual"@,
            TimingPreset::AutomaticPc => "Automatic (PC)"@,
            TimingPreset::AutomaticHdtv => "Automatic (HDTV)"@,
            TimingPreset::AutomaticCrt => "Automatic (CRT)"@,
            TimingPreset::NativePc => "Native (PC)"@,
            TimingPreset::NativeHdtv => "Native (HDTV)"@,
            TimingPreset::Exact => "Exact"@,
            TimingPreset::ExactReduced => "Exact reduced"@,
        }
    }

    pub fn label(self) -> (r: &'static str)
        ensures
            r@ == self.spec_label(),
    {
        match self {
            TimingPreset::Manual => "Manual",
            TimingPreset::AutomaticPc => "Automatic (PC)",
            TimingPreset::AutomaticHdtv => "Automatic (HDTV)",
            TimingPreset::AutomaticCrt => "Automatic (CRT)",
            TimingPreset::NativePc => "Native (PC)",
            TimingPreset::NativeHdtv => "Native (HDTV)",
            TimingPreset::Exact => "Exact",
            TimingPreset::ExactReduced => "Exact reduced",
        }
    }

    fn index(self) -> (r: u8)
        ensures
            r as int == preset_index(self),
    {
        match self {
            TimingPreset::Manual => 0,
            TimingPreset::AutomaticPc => 1,
            TimingPreset::AutomaticHdtv => 2,
            TimingPreset::AutomaticCrt => 3,
            TimingPreset::NativePc => 4,
            TimingPreset::NativeHdtv => 5,
            TimingPreset::Exact => 6,
            TimingPreset::ExactReduced => 7,
        }
    }

    fn from_index(i: u8) -> (r: Self)
        requires
            i < 8,
        ensures
            r == preset_at(i as int),
    {
        if i == 0 {
            TimingPreset::Manual
        } else if i == 1 {
            TimingPreset::AutomaticPc
        } else if i == 2 {
            TimingPreset::AutomaticHdtv
        } else if i == 3 {
            TimingPreset::AutomaticCrt
        } else if i == 4 {
            TimingPreset::NativePc
        } else if i == 5 {
            TimingPreset::NativeHdtv
        } else if i == 6 {
            TimingPreset::Exact
        } else {
            TimingPreset::ExactReduced
        }
    }

    /// The preset `delta` steps away in the cycle order, wrapping around.
    pub fn cycle(self, delta: isize) -> (r: Self)
        requires
            delta <= isize::MAX - 7,
        ensures
            r == preset_at(preset_index(self) + delta),
    {
        let sum = self.index() as isize + delta;
        let k = sum % 8;
        let k = if k < 0 {
            k + 8
        } else {
            k
        };
        assert(k == (preset_index(self) + delta) % 8);
        Self::from_index(k as u8)
    }
}

/// Whether `width:height` is exactly `aspect_width:aspect_height`.
pub open spec fn spec_has_aspect(width: u16, height: u16, aspect_width: u16, aspect_height: u16) -> bool {
    width * aspect_height == height * aspect_width
}

pub fn has_aspect(width: u16, height: u16, aspect_width: u16, aspect_height: u16) -> (r: bool)
    ensures
        r == spec_has_aspect(width, height, aspect_width, aspect_height),
{
    let (w, ah, h, aw) = (width as u32, aspect_height as u32, height as u32, aspect_width as u32);
    assert(w * ah <= 65535 * 65535 && h * aw <= 65535 * 65535) by (nonlinear_arith)
        requires
            w <= 65535,
            ah <= 65535,
            h <= 65535,
            aw <= 65535,
    ;
    w * ah == h * aw
}

/// `value` rounded down to a multiple of `granularity`.
pub fn round_down_to(value: u16, granularity: u16) -> (r: u16)
    requires
        granularity > 0,
    ensures
        r == value / granularity * granularity,
{
    assert(value / granularity * granularity <= value) by (nonlinear_arith)
        requires
            granularity > 0,
    ;
    value / granularity * granularity
}

/// The vertical sync width CVT gives an aspect ratio: 4 for 4:3, 5 for 16:9,
/// 6 for 16:10, 7 for 5:4 and 15:9, 10 otherwise.
pub open spec fn spec_vertical_sync_width(width: u16, height: u16) -> u16 {
    if spec_has_aspect(width, height, 4, 3) {
        4
    } else if spec_has_aspect(width, height, 16, 9) {
        5
    } else if spec_has_aspect(width, height, 16, 10) {
        6
    } else if spec_has_aspect(width, height, 5, 4) || spec_has_aspect(width, height, 15, 9) {
        7
    } else {
        10
    }
}

pub fn vertical_sync_width(width: u16, height: u16) -> (r: u16)
    ensures
        r == spec_vertical_sync_width(width, height),
{
    if has_aspect(width, height, 4, 3) {
        4
    } else if has_aspect(width, height, 16, 9) {
        5
    } else if has_aspect(width, height, 16, 10) {
        6
    } else if has_aspect(width, height, 5, 4) || has_aspect(width, height, 15, 9) {
        7
    } else {
        10
    }
}

/// The HDTV porches for an active size: front, sync and back, horizontal
/// then vertical; the 1080 set from 1920 wide or 1080 high, the 720 set from
/// 1280 wide or 720 high, the 480 set below.
pub open spec fn spec_hdtv_porches(h_active: u16, v_active: u16) -> (u16, u16, u16, u16, u16, u16) {
    if h_active >= 1920 || v_active >= 1080 {
        (88, 44, 148, 4, 5, 36)
    } else if h_active >= 1280 || v_active >= 720 {
        (110, 40, 220, 5, 5, 20)
    } else {
        (16, 62, 60, 9, 6, 30)
    }
}

pub fn hdtv_porches(h_active: u16, v_active: u16) -> (r: (u16, u16, u16, u16, u16, u16))
    ensures
        r == spec_hdtv_porches(h_active, v_active),
{
    if h_active >= 1920 || v_active >= 1080 {
        (88, 44, 148, 4, 5, 36)
    } else if h_active >= 1280 || v_active >= 720 {
        (110, 40, 220, 5, 5, 20)
    } else {
        (16, 62, 60, 9, 6, 30)
    }
}

/// The CRT horizontal porches for an active width, each a multiple of 8:
/// blanking a quarter of the width (at least 160), sync a third of the
/// blanking (at least 32), front porch a sixth (at least 16), and the back
/// porch what remains (never below 0).
pub open spec fn spec_crt_porches(h_active: u16) -> (u16, u16, u16) {
    let blanking = (if h_active / 4 > 160 { h_active / 4 } else { 160 }) / 8 * 8;
    let sync = (if blanking / 3 > 32 { blanking / 3 } else { 32 }) / 8 * 8;
    let front = (if blanking / 6 > 16 { blanking / 6 } else { 16 }) / 8 * 8;
    let back = if blanking >= front + sync {
        blanking - front - sync
    } else {
        0
    };
    (front as u16, sync as u16, back as u16)
}

pub fn crt_porches(h_active: u16) -> (r: (u16, u16, u16))
    ensures
        r == spec_crt_porches(h_active),
{
    let quarter = h_active / 4;
    let blanking = round_down_to(if quarter > 160 { quarter } else { 160 }, 8);
    let third = blanking / 3;
    let sync = round_down_to(if third > 32 { third } else { 32 }, 8);
    let sixth = blanking / 6;
    let front = round_down_to(if sixth > 16 { sixth } else { 16 }, 8);
    let back = if blanking >= front + sync {
        blanking - (front + sync)
    } else {
        0
    };
    (front, sync, back)
}

/// A timing from its active size, porches, sync widths, pixel clock and flags;
/// each blanking is the sum of its porches and sync.
pub open spec fn spec_detailed_from_parts(
    h_active: u16,
    v_active: u16,
    h_front_porch: u16,
    h_sync_width: u16,
    h_back_porch: u16,
    v_front_porch: u16,
    v_sync_width: u16,
    v_back_porch: u16,
    pixel_clock_khz: u32,
    h_sync_positive: bool,
    v_sync_positive: bool,
    interlaced: bool,
) -> TimingDescriptor {
    TimingDescriptor {
        pixel_clock_khz,
        h_active,
        h_blanking: (h_front_porch + h_sync_width + h_back_porch) as u16,
        h_front_porch,
        h_sync_width,
        h_back_porch,
        v_active,
        v_blanking: (v_front_porch + v_sync_width + v_back_porch) as u16,
        v_front_porch,
        v_sync_width,
        v_back_porch,
        h_sync_positive,
        v_sync_positive,
        interlaced,
    }
}

pub fn detailed_from_parts(
    h_active: u16,
    v_active: u16,
    h_front_porch: u16,
    h_sync_width: u16,
    h_back_porch: u16,
    v_front_porch: u16,
    v_sync_width: u16,
    v_back_porch: u16,
    pixel_clock_khz: u32,
    h_sync_positive: bool,
    v_sync_positive: bool,
    interlaced: bool,
) -> (r: TimingDescriptor)
    requires
        h_front_porch + h_sync_width + h_back_porch <= u16::MAX,
        v_front_porch + v_sync_width + v_back_porch <= u16::MAX,
    ensures
        r == spec_detailed_from_parts(
            h_active,
            v_active,
            h_front_porch,
            h_sync_width,
            h_back_porch,
            v_front_porch,
            v_sync_width,
            v_back_porch,
            pixel_clock_khz,
            h_sync_positive,
            v_sync_positive,
            interlaced,
        ),
{
    TimingDescriptor {
        pixel_clock_khz,
        h_active,
        h_blanking: h_front_porch + h_sync_width + h_back_porch,
        h_front_porch,
        h_sync_width,
        h_back_porch,
        v_active,
        v_blanking: v_front_porch + v_sync_width + v_back_porch,
        v_front_porch,
        v_sync_width,
        v_back_porch,
        h_sync_positive,
        v_sync_positive,
        interlaced,
    }
}

/// The exact preset's shape: the requested active size over the porches and
/// syncs of `base`, each blanking their sum; the pixel clock is set afterwards.
pub fn exact_shape(width: u16, height: u16, base: &TimingDescriptor) -> (r: TimingDescriptor)
    requires
        base.h_front_porch + base.h_sync_width + base.h_back_porch <= u16::MAX,
        base.v_front_porch + base.v_sync_width + base.v_back_porch <= u16::MAX,
    ensures
        r == spec_detailed_from_parts(
            width,
            height,
            base.h_front_porch,
            base.h_sync_width,
            base.h_back_porch,
            base.v_front_porch,
            base.v_sync_width,
            base.v_back_porch,
            base.pixel_clock_khz,
            base.h_sync_positive,
            base.v_sync_positive,
            base.interlaced,
        ),
{
    detailed_from_parts(
        width,
        height,
        base.h_front_porch,
        base.h_sync_width,
        base.h_back_porch,
        base.v_front_porch,
        base.v_sync_width,
        base.v_back_porch,
        base.pixel_clock_khz,
        base.h_sync_positive,
        base.v_sync_positive,
        base.interlaced,
    )
}


/// Cycling a preset `delta` steps and then `-delta` steps gives it back.
pub proof fn lemma_cycle_round_trip(p: TimingPreset, delta: int)
    ensures
        preset_at(preset_index(preset_at(preset_index(p) + delta)) - delta) == p,
{
    let a = preset_index(p);
    let b = preset_index(preset_at(a + delta));
    assert(b == (a + delta) % 8);
    assert((b - delta) % 8 == a % 8) by (nonlinear_arith)
        requires
            b == (a + delta) % 8,
            0 <= a < 8,
    ;
}

/// Eight steps in either direction bring a preset back to itself.
pub proof fn lemma_cycle_period(p: TimingPreset)
    ensures
        preset_at(preset_index(p) + 8) == p,
        preset_at(preset_index(p) - 8) == p,
{
}

} // verus!
