//! What an export writes: the EDID file name for a connector, the plan of
//! kernel parameter and Hyprland rule, and the instructions text. Writing the
//! files is the caller's.
use crate::edid::{DtdLocation, EdidError};
use crate::models::{ExportPlan, TimingDescriptor};
use crate::text::{decimal, push_char, push_decimal, push_str};
use vstd::prelude::*;

verus! {

/// Where an export wrote its files, what it planned, and where the timing went.
#[derive(Debug, Clone, PartialEq, Eq)]
pub struct ExportResult {
    pub path: String,
    pub instructions_path: String,
    pub plan: ExportPlan,
    pub insert_location: Option<DtdLocation>,
}

/// Why an export failed; a write error carries the path and the system's message.
#[derive(Debug)]
pub enum ExportError {
    MissingEdid,
    Edid(EdidError),
    Write { path: String, source: String },
}

/// The rule an export plans: `monitor=CONNECTOR,MODE,POSITION,SCALE`.
pub open spec fn spec_plan_rule(
    connector: Seq<char>,
    timing: TimingDescriptor,
    position: Seq<char>,
    scale: Seq<char>,
) -> Seq<char> {
    "monitor="@ + connector + seq![','] + timing.spec_hyprland_mode() + seq![','] + position + seq![
        ',',
    ] + scale
}

/// What a plan holds for `connector`, `edid_file_name`, `timing` at `position`
/// and `scale`.
pub open spec fn plan_matches(
    plan: ExportPlan,
    connector: Seq<char>,
    edid_file_name: Seq<char>,
    timing: TimingDescriptor,
    position: Seq<char>,
    scale: Seq<char>,
) -> bool {
    &&& plan.connector@ == connector
    &&& plan.edid_file_name@ == edid_file_name
    &&& plan.hyprland_mode@ == timing.spec_hyprland_mode()
    &&& plan.hyprland_rule@ == spec_plan_rule(connector, timing, position, scale)
    &&& plan.position@ == position
    &&& plan.scale@ == scale
}

fn plan_with(
    connector: &str,
    edid_file_name: &str,
    timing: &TimingDescriptor,
    position: &str,
    scale: &str,
) -> (r: ExportPlan)
    ensures
        plan_matches(r, connector@, edid_file_name@, *timing, position@, scale@),
{
    let mode = timing.hyprland_mode();
    let mut rule = String::from_str("monitor=");
    push_str(&mut rule, connector);
    push_char(&mut rule, ',');
    push_str(&mut rule, mode.as_str());
    push_char(&mut rule, ',');
    push_str(&mut rule, position);
    push_char(&mut rule, ',');
    push_str(&mut rule, scale);
    assert(rule@ =~= spec_plan_rule(connector@, *timing, position@, scale@));
    ExportPlan {
        connector: String::from_str(connector),
        edid_file_name: String::from_str(edid_file_name),
        hyprland_mode: mode,
        hyprland_rule: rule,
        position: String::from_str(position),
        scale: String::from_str(scale),
    }
}

/// The plan for a timing on a connector, at position `auto` and scale `1`.
pub fn build_export_plan_with_file(
    connector: &str,
    edid_file_name: &str,
    timing: TimingDescriptor,
) -> (r: ExportPlan)
    ensures
        plan_matches(r, connector@, edid_file_name@, timing, "auto"@, "1"@),
{
    plan_with(connector, edid_file_name, &timing, "auto", "1")
}

/// A signed integer in decimal.
pub open spec fn signed_decimal(v: int) -> Seq<char> {
    if v < 0 {
        seq!['-'] + decimal((-v) as nat)
    } else {
        decimal(v as nat)
    }
}

fn push_signed(s: &mut String, v: i32)
    ensures
        final(s)@ == old(s)@ + signed_decimal(v as int),
{
    let w = v as i64;
    if w < 0 {
        push_char(s, '-');
        push_decimal(s, (-w) as u64);
    } else {
        push_decimal(s, w as u64);
    }
}

/// Where Hyprland shows a monitor now, `XxY`, or `auto` when it does not say.
pub open spec fn spec_monitor_position(x: Option<i32>, y: Option<i32>) -> Seq<char> {
    match (x, y) {
        (Some(x), Some(y)) => signed_decimal(x as int) + seq!['x'] + signed_decimal(y as int),
        _ => "auto"@,
    }
}

pub fn monitor_position(x: Option<i32>, y: Option<i32>) -> (r: String)
    ensures
        r@ == spec_monitor_position(x, y),
{
    match (x, y) {
        (Some(x), Some(y)) => {
            let mut r = String::new();
            push_signed(&mut r, x);
            push_char(&mut r, 'x');
            push_signed(&mut r, y);
            assert(r@ =~= spec_monitor_position(Some(x), Some(y)));
            r
        },
        _ => String::from_str("auto"),
    }
}

/// The plan for a monitor that Hyprland shows at `x`, `y` with the scale
/// written as `scale_text`; `auto` and `1` where Hyprland does not say.
pub fn build_export_plan_for_monitor(
    connector: &str,
    edid_file_name: &str,
    timing: TimingDescriptor,
    x: Option<i32>,
    y: Option<i32>,
    scale_text: Option<&str>,
) -> (r: ExportPlan)
    ensures
        plan_matches(
            r,
            connector@,
            edid_file_name@,
            timing,
            spec_monitor_position(x, y),
            match scale_text {
                Some(s) => s@,
                None => "1"@,
            },
        ),
{
    let position = monitor_position(x, y);
    match scale_text {
        Some(s) => plan_with(connector, edid_file_name, &timing, position.as_str(), s),
        None => plan_with(connector, edid_file_name, &timing, position.as_str(), "1"),
    }
}

/// Whether a connector character may stand in a file name as it is.
pub open spec fn is_file_safe(c: char) -> bool {
    ('a' <= c <= 'z') || ('A' <= c <= 'Z') || ('0' <= c <= '9') || c == '-' || c == '_'
}

/// A connector name with every other character replaced by `_`.
pub open spec fn spec_file_safe_connector(connector: Seq<char>) -> Seq<char> {
    Seq::new(connector.len(), |i: int| if is_file_safe(connector[i]) { connector[i] } else { '_' })
}

fn push_file_safe_connector(s: &mut String, connector: &str)
    ensures
        final(s)@ == old(s)@ + spec_file_safe_connector(connector@),
{
    let chars = crate::text::chars_of(connector);
    let ghost safe = spec_file_safe_connector(connector@);
    let mut i: usize = 0;
    while i < chars.len()
        invariant
            chars@ == connector@,
            safe == spec_file_safe_connector(connector@),
            i <= chars@.len(),
            s@ == old(s)@ + safe.take(i as int),
        decreases chars@.len() - i,
    {
        let c = chars[i];
        let safe_char = ('a' <= c && c <= 'z') || ('A' <= c && c <= 'Z') || ('0' <= c && c <= '9')
            || c == '-' || c == '_';
        if safe_char {
            push_char(s, c);
        } else {
            push_char(s, '_');
        }
        i = i + 1;
        assert(s@ =~= old(s)@ + safe.take(i as int));
    }
    assert(safe.take(chars@.len() as int) =~= safe);
}

/// A connector name with every character but ASCII letters, digits, `-`
/// and `_` replaced by `_`.
pub fn file_safe_connector(connector: &str) -> (r: String)
    ensures
        r@ == spec_file_safe_connector(connector@),
{
    let mut r = String::new();
    push_file_safe_connector(&mut r, connector);
    r
}

/// The file name of a connector's exported EDID: `drmcru_custom_NAME.bin`.
pub open spec fn spec_custom_edid_file_name(connector: Seq<char>) -> Seq<char> {
    "drmcru_custom_"@ + spec_file_safe_connector(connector) + ".bin"@
}

pub fn custom_edid_file_name(connector: &str) -> (r: String)
    ensures
        r@ == spec_custom_edid_file_name(connector@),
{
    let mut r = String::from_str("drmcru_custom_");
    push_file_safe_connector(&mut r, connector);
    push_str(&mut r, ".bin");
    r
}

/// The file name of a connector's export instructions.
pub fn instructions_file_name(connector: &str) -> (r: String)
    ensures
        r@ == "drmcru_custom_"@ + spec_file_safe_connector(connector@) + "_instructions.txt"@,
{
    let mut r = String::from_str("drmcru_custom_");
    push_file_safe_connector(&mut r, connector);
    push_str(&mut r, "_instructions.txt");
    r
}

/// The instructions that go with an exported EDID at `edid_path`.
pub open spec fn spec_export_instructions(edid_path: Seq<char>, plan: ExportPlan) -> Seq<char> {
    let target = "/lib/firmware/edid/"@ + plan.edid_file_name@;
    "drmcru export instructions\n\nGenerated EDID: "@ + edid_path + "\nInstall target: "@ + target
        + "\n\n1. Install the EDID override file:\n   sudo install -D -m 0644 "@ + edid_path
        + seq![' '] + target + "\n\n2. Add this kernel parameter to your bootloader:\n   "@
        + plan.spec_drm_kernel_parameter()
        + "\n\n3. Add or update this Hyprland monitor rule:\n   "@ + plan.spec_monitor_rule()
        + "\n\n4. Rebuild your bootloader/initramfs as required by your distribution, then reboot."@
}

pub fn export_instructions(edid_path: &str, plan: &ExportPlan) -> (r: String)
    ensures
        r@ == spec_export_instructions(edid_path@, *plan),
{
    let mut target = String::from_str("/lib/firmware/edid/");
    push_str(&mut target, plan.edid_file_name.as_str());
    let mut r = String::from_str("drmcru export instructions\n\nGenerated EDID: ");
    push_str(&mut r, edid_path);
    push_str(&mut r, "\nInstall target: ");
    push_str(&mut r, target.as_str());
    push_str(&mut r, "\n\n1. Install the EDID override file:\n   sudo install -D -m 0644 ");
    push_str(&mut r, edid_path);
    push_char(&mut r, ' ');
    push_str(&mut r, target.as_str());
    push_str(&mut r, "\n\n2. Add this kernel parameter to your bootloader:\n   ");
    let kernel = plan.drm_kernel_parameter();
    push_str(&mut r, kernel.as_str());
    push_str(&mut r, "\n\n3. Add or update this Hyprland monitor rule:\n   ");
    push_str(&mut r, plan.hyprland_monitor_rule().as_str());
    push_str(
        &mut r,
        "\n\n4. Rebuild your bootloader/initramfs as required by your distribution, then reboot.",
    );
    assert(r@ =~= spec_export_instructions(edid_path@, *plan));
    r
}


/// The bytes an export writes when no workspace edit is pending: the
/// monitor's own EDID with the draft timing put into its first free
/// detailed timing slot, and where it went.
pub fn patched_edid(monitor_edid: Option<&crate::models::EdidData>, timing: &TimingDescriptor) -> (r: Result<
    (Vec<u8>, DtdLocation),
    ExportError,
>)
    ensures
        monitor_edid is None ==> r matches Err(ExportError::MissingEdid),
        monitor_edid matches Some(e) ==> match r {
            Ok((bytes, location)) => crate::edid::spec_insert_detailed_timing(e.raw@, *timing) == Ok::<
                (Seq<u8>, DtdLocation),
                EdidError,
            >((bytes@, location)),
            Err(ExportError::Edid(err)) => crate::edid::spec_insert_detailed_timing(e.raw@, *timing)
                == Err::<(Seq<u8>, DtdLocation), EdidError>(err),
            Err(_) => false,
        },
{
    let edid = match monitor_edid {
        Some(e) => e,
        None => return Err(ExportError::MissingEdid),
    };
    match crate::edid::insert_detailed_timing(edid.raw.as_slice(), timing) {
        Ok((bytes, location)) => Ok((bytes, location)),
        Err(e) => Err(ExportError::Edid(e)),
    }
}


/// A plan as built holds, in its stored rule, the rule its fields give.
pub proof fn lemma_built_plan_rule_is_current(
    plan: ExportPlan,
    connector: Seq<char>,
    edid_file_name: Seq<char>,
    timing: TimingDescriptor,
    position: Seq<char>,
    scale: Seq<char>,
)
    requires
        plan_matches(plan, connector, edid_file_name, timing, position, scale),
    ensures
        plan.spec_monitor_rule() == plan.hyprland_rule@,
{
    reveal_strlit(",");
    assert(plan.spec_monitor_rule() =~= plan.hyprland_rule@);
}

} // verus!
