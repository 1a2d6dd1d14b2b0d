//! Checks on a detailed timing before it is written into an EDID: hard
//! errors for what the 18-byte format cannot hold or what makes no sense,
//! warnings for what is legal but unusual.
use crate::fixed::{fixed_text, push_fixed};
use crate::models::TimingDescriptor;
use crate::text::{
    chars_of, decimal, insert_sorted, joined, lemma_strictly_sorted_unique, matches_at,
    push_decimal, push_joined, push_str, starts_at, strictly_sorted,
};
use vstd::prelude::*;

verus! {

#[derive(Debug, Clone, Copy, PartialEq, Eq, Structural)]
pub enum TimingWarningSeverity {
    Error,
    Warning,
}

#[derive(Debug, Clone, PartialEq, Eq)]
pub struct TimingWarning {
    pub severity: TimingWarningSeverity,
    pub message: String,
}

/// A warning as a severity and the characters of its message.
pub struct TimingWarningView {
    pub severity: TimingWarningSeverity,
    pub message: Seq<char>,
}

impl DeepView for TimingWarning {
    type V = TimingWarningView;

    open spec fn deep_view(&self) -> TimingWarningView {
        TimingWarningView { severity: self.severity, message: self.message@ }
    }
}

/// An error with message `m`.
pub open spec fn error_of(m: Seq<char>) -> TimingWarningView {
    TimingWarningView { severity: TimingWarningSeverity::Error, message: m }
}

/// A warning with message `m`.
pub open spec fn warning_of(m: Seq<char>) -> TimingWarningView {
    TimingWarningView { severity: TimingWarningSeverity::Warning, message: m }
}

impl TimingWarning {
    pub fn error(message: &str) -> (r: Self)
        ensures
            r.deep_view() == error_of(message@),
    {
        TimingWarning { severity: TimingWarningSeverity::Error, message: String::from_str(message) }
    }

    pub fn warning(message: &str) -> (r: Self)
        ensures
            r.deep_view() == warning_of(message@),
    {
        TimingWarning {
            severity: TimingWarningSeverity::Warning,
            message: String::from_str(message),
        }
    }

    pub fn label(&self) -> (r: &'static str)
        ensures
            r@ == (match self.severity {
                TimingWarningSeverity::Error => "Error"@,
                TimingWarningSeverity::Warning => "Warning"@,
            }),
    {
        match self.severity {
            TimingWarningSeverity::Error => "Error",
            TimingWarningSeverity::Warning => "Warning",
        }
    }
}

/// `seq![w]` when `c` holds, else nothing.
pub open spec fn when(c: bool, w: TimingWarningView) -> Seq<TimingWarningView> {
    if c {
        seq![w]
    } else {
        Seq::empty()
    }
}

/// What a field of `value` says against the field limit `limit`: an error
/// above it, a warning above 95% of it.
pub open spec fn limit_findings(label: Seq<char>, value: nat, limit: nat) -> Seq<TimingWarningView> {
    if value > limit {
        seq![
            error_of(
                label + " value "@ + decimal(value) + " exceeds EDID DTD field limit "@ + decimal(
                    limit,
                ),
            ),
        ]
    } else if value > limit * 95 / 100 {
        seq![
            warning_of(
                label + " value "@ + decimal(value) + " is close to EDID DTD field limit "@
                    + decimal(limit),
            ),
        ]
    } else {
        Seq::empty()
    }
}

fn validate_limit(warnings: &mut Vec<TimingWarning>, label: &str, value: u32, limit: u32)
    requires
        limit <= 0x0fff,
    ensures
        final(warnings).deep_view() == old(warnings).deep_view() + limit_findings(
            label@,
            value as nat,
            limit as nat,
        ),
{
    let ghost before = warnings.deep_view();
    if value > limit {
        let mut m = String::from_str(label);
        push_str(&mut m, " value ");
        push_decimal(&mut m, value as u64);
        push_str(&mut m, " exceeds EDID DTD field limit ");
        push_decimal(&mut m, limit as u64);
        warnings.push(TimingWarning { severity: TimingWarningSeverity::Error, message: m });
    } else if value > limit * 95 / 100 {
        let mut m = String::from_str(label);
        push_str(&mut m, " value ");
        push_decimal(&mut m, value as u64);
        push_str(&mut m, " is close to EDID DTD field limit ");
        push_decimal(&mut m, limit as u64);
        warnings.push(TimingWarning { severity: TimingWarningSeverity::Warning, message: m });
    }
    assert(warnings.deep_view() =~= before + limit_findings(label@, value as nat, limit as nat));
}

/// Appends a warning and keeps the deep view in step.
fn push_warning(warnings: &mut Vec<TimingWarning>, w: TimingWarning)
    ensures
        final(warnings).deep_view() == old(warnings).deep_view().push(w.deep_view()),
{
    let ghost before = warnings.deep_view();
    let ghost wv = w.deep_view();
    warnings.push(w);
    assert(warnings.deep_view() =~= before.push(wv));
}

/// What the pixel clock alone says.
pub open spec fn clock_findings(clock: u32) -> Seq<TimingWarningView> {
    (if clock == 0 {
        seq![error_of("pixel clock must be greater than zero"@)]
    } else if clock < 10 {
        seq![error_of("pixel clock must be at least 10 kHz for an EDID DTD"@)]
    } else {
        Seq::empty()
    }) + (if clock > 655_350 {
        seq![
            error_of(
                "pixel clock "@ + decimal(clock as nat)
                    + " kHz exceeds EDID DTD encoding limit 655350 kHz"@,
            ),
        ]
    } else if clock > 600_000 {
        seq![warning_of("pixel clock is high: "@ + decimal(clock as nat) + " kHz"@)]
    } else {
        Seq::empty()
    })
}

/// What the field limits of the 18-byte format say.
pub open spec fn field_findings(t: TimingDescriptor) -> Seq<TimingWarningView> {
    limit_findings("horizontal active"@, t.h_active as nat, 0x0fff) + limit_findings(
        "horizontal blanking"@,
        t.h_blanking as nat,
        0x0fff,
    ) + limit_findings("vertical active"@, t.v_active as nat, 0x0fff) + limit_findings(
        "vertical blanking"@,
        t.v_blanking as nat,
        0x0fff,
    ) + limit_findings("horizontal front porch"@, t.h_front_porch as nat, 0x03ff)
        + limit_findings("horizontal sync width"@, t.h_sync_width as nat, 0x03ff)
        + limit_findings("vertical front porch"@, t.v_front_porch as nat, 0x003f)
        + limit_findings("vertical sync width"@, t.v_sync_width as nat, 0x003f)
}

/// What the porch, sync and blanking sizes say about each other.
pub open spec fn blanking_findings(t: TimingDescriptor) -> Seq<TimingWarningView> {
    let h_parts = t.h_front_porch + t.h_sync_width + t.h_back_porch;
    let v_parts = t.v_front_porch + t.v_sync_width + t.v_back_porch;
    when(
        h_parts != t.h_blanking,
        error_of(
            "horizontal porch/sync sum "@ + decimal(h_parts as nat) + " does not match blanking "@
                + decimal(t.h_blanking as nat),
        ),
    ) + when(
        v_parts != t.v_blanking,
        error_of(
            "vertical porch/sync sum "@ + decimal(v_parts as nat) + " does not match blanking "@
                + decimal(t.v_blanking as nat),
        ),
    ) + when(
        t.h_front_porch + t.h_sync_width > t.h_blanking,
        error_of("horizontal front porch plus sync width exceeds horizontal blanking"@),
    ) + when(
        t.v_front_porch + t.v_sync_width > t.v_blanking,
        error_of("vertical front porch plus sync width exceeds vertical blanking"@),
    ) + if t.h_blanking == 0 || t.v_blanking == 0 {
        seq![error_of("horizontal and vertical blanking must be greater than zero"@)]
    } else {
        when(
            t.h_blanking < 16,
            warning_of(
                "horizontal blanking is very small: "@ + decimal(t.h_blanking as nat) + " pixels"@,
            ),
        ) + when(
            t.v_blanking < 3,
            warning_of(
                "vertical blanking is very small: "@ + decimal(t.v_blanking as nat) + " lines"@,
            ),
        )
    }
}

/// What the refresh rate says: an error when it cannot be computed (a zero
/// total), a warning outside 23..=360 Hz. The rate is compared exactly as a
/// ratio; the binary64 quotient the check is written with lies on the same
/// side of 23 and 360, as no ratio of these integers comes within half a unit
/// in the last place of either bound without reaching it.
pub open spec fn refresh_findings(t: TimingDescriptor) -> Seq<TimingWarningView> {
    let h = t.spec_h_total() as nat;
    let v = t.spec_v_total() as nat;
    let n = t.pixel_clock_khz * 1000;
    if h == 0 || v == 0 {
        seq![error_of("refresh rate cannot be calculated"@)]
    } else if n < 23 * (h * v) || n > 360 * (h * v) {
        seq![warning_of("refresh rate is unusual: "@ + t.spec_refresh_text(3) + " Hz"@)]
    } else {
        Seq::empty()
    }
}

/// Everything `validate_timing` reports for `t`, in the order it checks.
pub open spec fn spec_validate_timing(t: TimingDescriptor) -> Seq<TimingWarningView> {
    when(
        t.h_active == 0 || t.v_active == 0,
        error_of("active horizontal and vertical pixels must be greater than zero"@),
    ) + clock_findings(t.pixel_clock_khz) + field_findings(t) + blanking_findings(t)
        + refresh_findings(t) + when(
        t.interlaced,
        warning_of("interlaced DTDs are uncommon for modern Wayland/DRM workflows"@),
    )
}

fn clock_warnings(warnings: &mut Vec<TimingWarning>, clock: u32)
    ensures
        final(warnings).deep_view() == old(warnings).deep_view() + clock_findings(clock),
{
    let ghost before = warnings.deep_view();
    if clock == 0 {
        push_warning(warnings, TimingWarning::error("pixel clock must be greater than zero"));
    } else if clock < 10 {
        push_warning(
            warnings,
            TimingWarning::error("pixel clock must be at least 10 kHz for an EDID DTD"),
        );
    }
    let ghost mid = warnings.deep_view();
    if clock > 655_350 {
        let mut m = String::from_str("pixel clock ");
        push_decimal(&mut m, clock as u64);
        push_str(&mut m, " kHz exceeds EDID DTD encoding limit 655350 kHz");
        push_warning(warnings, TimingWarning { severity: TimingWarningSeverity::Error, message: m });
    } else if clock > 600_000 {
        let mut m = String::from_str("pixel clock is high: ");
        push_decimal(&mut m, clock as u64);
        push_str(&mut m, " kHz");
        push_warning(
            warnings,
            TimingWarning { severity: TimingWarningSeverity::Warning, message: m },
        );
    }
    assert(warnings.deep_view() =~= before + clock_findings(clock));
}

fn field_warnings(warnings: &mut Vec<TimingWarning>, t: &TimingDescriptor)
    ensures
        final(warnings).deep_view() == old(warnings).deep_view() + field_findings(*t),
{
    let ghost w0 = warnings.deep_view();
    let ghost f1 = limit_findings("horizontal active"@, t.h_active as nat, 0x0fff);
    let ghost f2 = limit_findings("horizontal blanking"@, t.h_blanking as nat, 0x0fff);
    let ghost f3 = limit_findings("vertical active"@, t.v_active as nat, 0x0fff);
    let ghost f4 = limit_findings("vertical blanking"@, t.v_blanking as nat, 0x0fff);
    let ghost f5 = limit_findings("horizontal front porch"@, t.h_front_porch as nat, 0x03ff);
    let ghost f6 = limit_findings("horizontal sync width"@, t.h_sync_width as nat, 0x03ff);
    let ghost f7 = limit_findings("vertical front porch"@, t.v_front_porch as nat, 0x003f);
    let ghost f8 = limit_findings("vertical sync width"@, t.v_sync_width as nat, 0x003f);
    validate_limit(warnings, "horizontal active", t.h_active as u32, 0x0fff);
    validate_limit(warnings, "horizontal blanking", t.h_blanking as u32, 0x0fff);
    assert(warnings.deep_view() =~= w0 + (f1 + f2));
    validate_limit(warnings, "vertical active", t.v_active as u32, 0x0fff);
    assert(warnings.deep_view() =~= w0 + (f1 + f2 + f3));
    validate_limit(warnings, "vertical blanking", t.v_blanking as u32, 0x0fff);
    assert(warnings.deep_view() =~= w0 + (f1 + f2 + f3 + f4));
    validate_limit(warnings, "horizontal front porch", t.h_front_porch as u32, 0x03ff);
    assert(warnings.deep_view() =~= w0 + (f1 + f2 + f3 + f4 + f5));
    validate_limit(warnings, "horizontal sync width", t.h_sync_width as u32, 0x03ff);
    assert(warnings.deep_view() =~= w0 + (f1 + f2 + f3 + f4 + f5 + f6));
    validate_limit(warnings, "vertical front porch", t.v_front_porch as u32, 0x003f);
    assert(warnings.deep_view() =~= w0 + (f1 + f2 + f3 + f4 + f5 + f6 + f7));
    validate_limit(warnings, "vertical sync width", t.v_sync_width as u32, 0x003f);
    assert(warnings.deep_view() =~= w0 + (f1 + f2 + f3 + f4 + f5 + f6 + f7 + f8));
}

fn blanking_warnings(warnings: &mut Vec<TimingWarning>, t: &TimingDescriptor)
    requires
        t.h_front_porch + t.h_sync_width <= u16::MAX,
        t.v_front_porch + t.v_sync_width <= u16::MAX,
    ensures
        final(warnings).deep_view() == old(warnings).deep_view() + blanking_findings(*t),
{
    let ghost before = warnings.deep_view();
    let h_parts: u32 = t.h_front_porch as u32 + t.h_sync_width as u32 + t.h_back_porch as u32;
    let v_parts: u32 = t.v_front_porch as u32 + t.v_sync_width as u32 + t.v_back_porch as u32;
    if h_parts != t.h_blanking as u32 {
        let mut m = String::from_str("horizontal porch/sync sum ");
        push_decimal(&mut m, h_parts as u64);
        push_str(&mut m, " does not match blanking ");
        push_decimal(&mut m, t.h_blanking as u64);
        push_warning(warnings, TimingWarning { severity: TimingWarningSeverity::Error, message: m });
    }
    if v_parts != t.v_blanking as u32 {
        let mut m = String::from_str("vertical porch/sync sum ");
        push_decimal(&mut m, v_parts as u64);
        push_str(&mut m, " does not match blanking ");
        push_decimal(&mut m, t.v_blanking as u64);
        push_warning(warnings, TimingWarning { severity: TimingWarningSeverity::Error, message: m });
    }
    if t.h_front_porch + t.h_sync_width > t.h_blanking {
        push_warning(
            warnings,
            TimingWarning::error(
                "horizontal front porch plus sync width exceeds horizontal blanking",
            ),
        );
    }
    if t.v_front_porch + t.v_sync_width > t.v_blanking {
        push_warning(
            warnings,
            TimingWarning::error("vertical front porch plus sync width exceeds vertical blanking"),
        );
    }
    if t.h_blanking == 0 || t.v_blanking == 0 {
        push_warning(
            warnings,
            TimingWarning::error("horizontal and vertical blanking must be greater than zero"),
        );
    } else {
        if t.h_blanking < 16 {
            let mut m = String::from_str("horizontal blanking is very small: ");
            push_decimal(&mut m, t.h_blanking as u64);
            push_str(&mut m, " pixels");
            push_warning(
                warnings,
                TimingWarning { severity: TimingWarningSeverity::Warning, message: m },
            );
        }
        if t.v_blanking < 3 {
            let mut m = String::from_str("vertical blanking is very small: ");
            push_decimal(&mut m, t.v_blanking as u64);
            push_str(&mut m, " lines");
            push_warning(
                warnings,
                TimingWarning { severity: TimingWarningSeverity::Warning, message: m },
            );
        }
    }
    assert(warnings.deep_view() =~= before + blanking_findings(*t));
}

fn refresh_warnings(warnings: &mut Vec<TimingWarning>, t: &TimingDescriptor)
    ensures
        final(warnings).deep_view() == old(warnings).deep_view() + refresh_findings(*t),
{
    let ghost before = warnings.deep_view();
    let h = t.h_total() as u64;
    let v = t.v_total() as u64;
    if h == 0 || v == 0 {
        push_warning(warnings, TimingWarning::error("refresh rate cannot be calculated"));
    } else {
        assert(h * v <= 65535 * 65535) by (nonlinear_arith)
            requires
                h <= 65535,
                v <= 65535,
        ;
        let total = h * v;
        let n = t.pixel_clock_khz as u64 * 1000;
        if n < 23 * total || n > 360 * total {
            let mut m = String::from_str("refresh rate is unusual: ");
            t.push_refresh(&mut m, 3);
            push_str(&mut m, " Hz");
            push_warning(
                warnings,
                TimingWarning { severity: TimingWarningSeverity::Warning, message: m },
            );
        }
    }
    assert(warnings.deep_view() =~= before + refresh_findings(*t));
}

/// The problems with `timing`, errors and warnings, in the order they are checked.
pub fn validate_timing(timing: &TimingDescriptor) -> (r: Vec<TimingWarning>)
    requires
        timing.h_front_porch + timing.h_sync_width <= u16::MAX,
        timing.v_front_porch + timing.v_sync_width <= u16::MAX,
    ensures
        r.deep_view() == spec_validate_timing(*timing),
        r@.len() == 0 ==> timing.h_front_porch + timing.h_sync_width + timing.h_back_porch == timing.h_blanking
            && timing.v_front_porch + timing.v_sync_width + timing.v_back_porch == timing.v_blanking,
{
    proof {
        lemma_validation_reports_blanking_mismatch(*timing);
    }
    let mut warnings: Vec<TimingWarning> = Vec::new();
    if timing.h_active == 0 || timing.v_active == 0 {
        push_warning(
            &mut warnings,
            TimingWarning::error("active horizontal and vertical pixels must be greater than zero"),
        );
    }
    clock_warnings(&mut warnings, timing.pixel_clock_khz);
    field_warnings(&mut warnings, timing);
    blanking_warnings(&mut warnings, timing);
    refresh_warnings(&mut warnings, timing);
    if timing.interlaced {
        push_warning(
            &mut warnings,
            TimingWarning::warning("interlaced DTDs are uncommon for modern Wayland/DRM workflows"),
        );
    }
    assert(warnings.deep_view() =~= spec_validate_timing(*timing));
    warnings
}

/// `WIDTHxHEIGHT` of a timing's active area.
pub open spec fn size_text(t: TimingDescriptor) -> Seq<char> {
    decimal(t.h_active as nat) + seq!['x'] + decimal(t.v_active as nat)
}

/// The active sizes of `timings` that differ from `native`'s.
pub open spec fn differing_sizes(native: TimingDescriptor, timings: Seq<TimingDescriptor>) -> Set<
    Seq<char>,
> {
    Set::new(
        |s: Seq<char>|
            exists|i: int|
                0 <= i < timings.len() && (timings[i].h_active != native.h_active
                    || timings[i].v_active != native.v_active) && s == size_text(
                    #[trigger] timings[i],
                ),
    )
}

/// The sizes of a set, each once, in string order.
pub open spec fn sorted_sizes(sizes: Set<Seq<char>>) -> Seq<Seq<char>> {
    choose|l: Seq<Seq<char>>| strictly_sorted(l) && l.to_set() == sizes
}

/// The message about modes of an internal panel that differ from its native size.
pub open spec fn scaling_message(native: TimingDescriptor, sizes: Seq<Seq<char>>) -> Seq<char> {
    "internal panel modes "@ + joined(sizes, ", "@) + " differ from native "@ + size_text(native)
        + "; many eDP panels cannot scale smaller scanouts and may tile or corrupt the image. Keep the native active size and change only the refresh timing"@
}

fn push_size(s: &mut String, t: &TimingDescriptor)
    ensures
        final(s)@ == old(s)@ + size_text(*t),
{
    push_decimal(s, t.h_active as u64);
    push_str(s, "x");
    push_decimal(s, t.v_active as u64);
    proof {
        reveal_strlit("x");
    }
    assert(s@ =~= old(s)@ + size_text(*t));
}

/// A warning for an internal panel (`eDP-` connector) when some of `timings`
/// have another active size than `native`: such panels often cannot scale.
pub fn internal_panel_scaling_warning(
    connector: &str,
    native: &TimingDescriptor,
    timings: &[TimingDescriptor],
) -> (r: Option<TimingWarning>)
    ensures
        match r {
            None => !starts_at(connector@, 0, "eDP-"@) || differing_sizes(
                *native,
                timings@,
            ).is_empty(),
            Some(w) => starts_at(connector@, 0, "eDP-"@) && !differing_sizes(
                *native,
                timings@,
            ).is_empty() && w.deep_view() == warning_of(
                scaling_message(*native, sorted_sizes(differing_sizes(*native, timings@))),
            ),
        },
{
    let prefix = chars_of("eDP-");
    if !matches_at(&chars_of(connector), 0, &prefix) {
        return None;
    }
    let ghost sizes_of = differing_sizes(*native, timings@);
    let mut sizes: Vec<Vec<char>> = Vec::new();
    let mut i: usize = 0;
    while i < timings.len()
        invariant
            0 <= i <= timings@.len(),
            strictly_sorted(sizes.deep_view()),
            forall|s: Seq<char>|
                #![trigger sizes.deep_view().to_set().contains(s)]
                sizes.deep_view().to_set().contains(s) <==> exists|k: int|
                    0 <= k < i && (timings@[k].h_active != native.h_active || timings@[k].v_active
                        != native.v_active) && s == size_text(#[trigger] timings@[k]),
        decreases timings@.len() - i,
    {
        let t = &timings[i];
        let ghost before = sizes.deep_view();
        if t.h_active != native.h_active || t.v_active != native.v_active {
            let mut text = String::new();
            push_size(&mut text, t);
            let chars = chars_of(text.as_str());
            insert_sorted(&mut sizes, chars);
        }
        proof {
            assert forall|s: Seq<char>|
                #![trigger sizes.deep_view().to_set().contains(s)]
                sizes.deep_view().to_set().contains(s) <==> exists|k: int|
                    0 <= k < i + 1 && (timings@[k].h_active != native.h_active
                        || timings@[k].v_active != native.v_active) && s == size_text(
                        #[trigger] timings@[k],
                    ) by {
                if sizes.deep_view().to_set().contains(s) && !before.to_set().contains(s) {
                    assert(timings@[i as int] == *t);
                }
                if exists|k: int|
                    0 <= k < i + 1 && (timings@[k].h_active != native.h_active
                        || timings@[k].v_active != native.v_active) && s == size_text(
                        #[trigger] timings@[k],
                    ) {
                    let k = choose|k: int|
                        0 <= k < i + 1 && (timings@[k].h_active != native.h_active
                            || timings@[k].v_active != native.v_active) && s == size_text(
                            #[trigger] timings@[k],
                        );
                    if k < i {
                        assert(before.to_set().contains(s));
                    }
                }
            }
        }
        i = i + 1;
    }
    proof {
        assert(sizes.deep_view().to_set() =~= sizes_of);
        assert(exists|l: Seq<Seq<char>>| strictly_sorted(l) && l.to_set() == sizes_of);
        lemma_strictly_sorted_unique(sizes.deep_view(), sorted_sizes(sizes_of));
    }
    if sizes.len() == 0 {
        assert(sizes_of =~= Set::<Seq<char>>::empty());
        return None;
    }
    proof {
        assert(sizes_of.contains(sizes.deep_view()[0]));
    }
    let mut m = String::from_str("internal panel modes ");
    push_joined(&mut m, &sizes, ", ");
    push_str(&mut m, " differ from native ");
    push_size(&mut m, native);
    push_str(
        &mut m,
        "; many eDP panels cannot scale smaller scanouts and may tile or corrupt the image. Keep the native active size and change only the refresh timing",
    );
    assert(m@ =~= scaling_message(*native, sorted_sizes(sizes_of)));
    Some(TimingWarning { severity: TimingWarningSeverity::Warning, message: m })
}


/// The message for a porch/sync sum that does not match its blanking.
pub open spec fn sum_mismatch(axis: Seq<char>, parts: nat, blanking: nat) -> Seq<char> {
    axis + " porch/sync sum "@ + decimal(parts) + " does not match blanking "@ + decimal(blanking)
}

proof fn lemma_inner_contains<T>(a: Seq<T>, b: Seq<T>, c: Seq<T>, d: Seq<T>, x: T)
    requires
        b.contains(x),
    ensures
        (((a + b) + c) + d).contains(x),
{
    let k = choose|k: int| 0 <= k < b.len() && b[k] == x;
    assert((((a + b) + c) + d)[a.len() + k] == x);
}

proof fn lemma_blanking_findings_mismatch(t: TimingDescriptor)
    ensures
        t.h_front_porch + t.h_sync_width + t.h_back_porch != t.h_blanking ==> blanking_findings(t).contains(
            error_of(sum_mismatch("horizontal"@, (t.h_front_porch + t.h_sync_width + t.h_back_porch) as nat, t.h_blanking as nat)),
        ),
        t.v_front_porch + t.v_sync_width + t.v_back_porch != t.v_blanking ==> blanking_findings(t).contains(
            error_of(sum_mismatch("vertical"@, (t.v_front_porch + t.v_sync_width + t.v_back_porch) as nat, t.v_blanking as nat)),
        ),
{
    let h_parts = t.h_front_porch + t.h_sync_width + t.h_back_porch;
    let v_parts = t.v_front_porch + t.v_sync_width + t.v_back_porch;
    let b = blanking_findings(t);
    reveal_strlit("horizontal");
    reveal_strlit("vertical");
    reveal_strlit(" porch/sync sum ");
    reveal_strlit("horizontal porch/sync sum ");
    reveal_strlit("vertical porch/sync sum ");
    assert("horizontal"@ + " porch/sync sum "@ =~= "horizontal porch/sync sum "@);
    assert("vertical"@ + " porch/sync sum "@ =~= "vertical porch/sync sum "@);
    let eh = error_of(sum_mismatch("horizontal"@, h_parts as nat, t.h_blanking as nat));
    let ev = error_of(sum_mismatch("vertical"@, v_parts as nat, t.v_blanking as nat));
    if h_parts != t.h_blanking {
        assert(eh.message =~= "horizontal porch/sync sum "@ + decimal(h_parts as nat) + " does not match blanking "@ + decimal(t.h_blanking as nat));
        assert(b[0] == eh);
    }
    if v_parts != t.v_blanking {
        assert(ev.message =~= "vertical porch/sync sum "@ + decimal(v_parts as nat) + " does not match blanking "@ + decimal(t.v_blanking as nat));
        let k: int = if h_parts != t.h_blanking { 1 } else { 0 };
        assert(b[k] == ev);
    }
}

/// A timing whose front porch, sync width and back porch do not add up to
/// its blanking, horizontally or vertically, is reported with an error that
/// names both numbers; so a timing with no findings at all has consistent
/// blanking on both axes.
pub proof fn lemma_validation_reports_blanking_mismatch(t: TimingDescriptor)
    ensures
        t.h_front_porch + t.h_sync_width + t.h_back_porch != t.h_blanking ==> spec_validate_timing(t).contains(
            error_of(sum_mismatch("horizontal"@, (t.h_front_porch + t.h_sync_width + t.h_back_porch) as nat, t.h_blanking as nat)),
        ),
        t.v_front_porch + t.v_sync_width + t.v_back_porch != t.v_blanking ==> spec_validate_timing(t).contains(
            error_of(sum_mismatch("vertical"@, (t.v_front_porch + t.v_sync_width + t.v_back_porch) as nat, t.v_blanking as nat)),
        ),
        spec_validate_timing(t).len() == 0 ==> t.h_front_porch + t.h_sync_width + t.h_back_porch == t.h_blanking
            && t.v_front_porch + t.v_sync_width + t.v_back_porch == t.v_blanking,
{
    lemma_blanking_findings_mismatch(t);
    let a = when(
        t.h_active == 0 || t.v_active == 0,
        error_of("active horizontal and vertical pixels must be greater than zero"@),
    ) + clock_findings(t.pixel_clock_khz) + field_findings(t);
    let c = refresh_findings(t);
    let d = when(
        t.interlaced,
        warning_of("interlaced DTDs are uncommon for modern Wayland/DRM workflows"@),
    );
    let h_parts = t.h_front_porch + t.h_sync_width + t.h_back_porch;
    let v_parts = t.v_front_porch + t.v_sync_width + t.v_back_porch;
    if h_parts != t.h_blanking {
        lemma_inner_contains(a, blanking_findings(t), c, d,
            error_of(sum_mismatch("horizontal"@, h_parts as nat, t.h_blanking as nat)));
    }
    if v_parts != t.v_blanking {
        lemma_inner_contains(a, blanking_findings(t), c, d,
            error_of(sum_mismatch("vertical"@, v_parts as nat, t.v_blanking as nat)));
    }
}

} // verus!
