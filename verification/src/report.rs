//! The text the interface shows: help, timing details, the override state of a
//! connector, and what the Hyprland config holds for it.
use crate::fixed::fixed_text;
use crate::hyprland_config::{normalized, MonitorRuleInspection};
use crate::install::{line_of, push_line, FirmwareEdidComparison, InstalledOverrideStatus};
use crate::models::TimingDescriptor;
use crate::text::{
    chars_equal, chars_of, decimal, join_path, matches_at, path_join, push_decimal, push_str, slice_chars,
    starts_at, string_of, trim, trim_chars,
};
use vstd::prelude::*;

verus! {

pub open spec fn spec_yes_no(value: bool) -> Seq<char> {
    if value {
        "yes"@
    } else {
        "no"@
    }
}

pub fn yes_no(value: bool) -> (r: &'static str)
    ensures
        r@ == spec_yes_no(value),
{
    if value {
        "yes"
    } else {
        "no"
    }
}

/// `+` for a positive sync, `-` for a negative one.
pub fn polarity_label(positive: bool) -> (r: &'static str)
    ensures
        r@ == (if positive { "+"@ } else { "-"@ }),
{
    if positive {
        "+"
    } else {
        "-"
    }
}

/// `ok` for a valid checksum, `bad` otherwise.
pub fn checksum_label(valid: bool) -> (r: &'static str)
    ensures
        r@ == (if valid { "ok"@ } else { "bad"@ }),
{
    if valid {
        "ok"
    } else {
        "bad"
    }
}

/// The help screen, line by line.
pub open spec fn spec_help_lines() -> Seq<Seq<char>> {
    seq![
        "Core workflow"@,
        "1. Select a monitor in the top pane."@,
        "2. Add, edit, copy, paste, delete, or reorder detailed timings in the working EDID."@,
        "3. Export writes a patched EDID and instruction file without touching system config."@,
        "4. Install/Update writes the EDID override for the next boot on supported Limine systems."@,
        "5. Reboot, then Verify or run doctor to confirm the override is active and matching."@,
        "6. Switch selects a mode only after DRM/Hyprland already exposes it."@,
        "7. Persist the generated monitor=... rule manually in Hyprland config."@,
        ""@,
        "Global keys"@,
        "Tab / Shift+Tab  Move between panes"@,
        "Up/Down or j/k    Move the focused selection"@,
        "Enter             Open details, edit a selected row, or add when no row is selected"@,
        "? / h / F1        Open this help"@,
        "i                 Details for the focused monitor or row"@,
        "e                 Export patched EDID"@,
        "Shift+E           Edit the selected detailed, standard, or CTA DTD row"@,
        "A                 Install/Update EDID override"@,
        "u                 Uninstall drmcru EDID override"@,
        "s                 Switch to selected exposed mode"@,
        "v                 Verify selected mode and persistent config"@,
        "q / Esc           Quit from the main screen"@,
        ""@,
        "Detailed and CTA timing keys"@,
        "a                 Add timing in the focused timing pane"@,
        "Shift+E / Edit    Edit the selected row"@,
        "c                 Copy selected detailed or CTA DTD timing"@,
        "p                 Paste copied detailed timing into a new slot"@,
        "d / Delete        Delete selected timing"@,
        "Reset button      Restore the original monitor EDID workspace"@,
        "Up/Down buttons   Reorder base detailed timings"@,
        ""@,
        "Editor keys"@,
        "Tab / Shift+Tab  Move between fields"@,
        "Up/Down          Move between fields"@,
        "Left/Right       Move cursor, or cycle timing preset on the Timing field"@,
        "Home/End         Move to start/end of text fields"@,
        "Space            Toggle sync polarity/interlace fields"@,
        "Enter            Apply editor changes to the in-memory EDID"@,
        "Esc              Cancel the editor"@,
        ""@,
        "Mouse"@,
        "Left click        Select rows, fields, and buttons"@,
        "Right click       Open details for monitor and resolution rows"@,
        "Wheel             Scroll lists or long dialogs"@,
        ""@,
        "Status labels"@,
        "not installed    No drmcru EDID override detected for this connector"@,
        "partial install  Some override files exist, but the boot path is incomplete"@,
        "reboot pending   Boot config is ready, but this kernel has not loaded it yet"@,
        "active            The current kernel command line references the override"@,
        "matching          Live connector EDID bytes match the installed firmware file"@,
        ""@,
        "Important model"@,
        "Hyprland cannot make new DRM modes appear by itself. New custom timings must be in the kernel-exposed EDID first."@,
        "Switch changes only modes that DRM/Hyprland already exposes."@,
        "Install/Update requires a reboot because the kernel reads EDID firmware at boot."@,
        "drmcru does not auto-edit Hyprland config; Verify reports the exact rule to persist."@,
        ""@,
        "Diagnostics"@,
        "Run `drmcru doctor` outside the TUI for diagnostics."@,
        "Monitor Details shows override state, live EDID match, and the winning Hyprland monitor rule."@,
        "Verify shows whether the selected mode is exposed, active, and reload-persistent."@,
    ]
}

pub(crate) fn push_static(lines: &mut Vec<String>, line: &str)
    ensures
        final(lines).deep_view() == old(lines).deep_view().push(line@),
{
    push_line(lines, String::from_str(line));
}

pub fn help_lines() -> (r: Vec<String>)
    ensures
        r.deep_view() == spec_help_lines(),
{
    let mut l: Vec<String> = Vec::new();
    push_static(&mut l, "Core workflow");
    push_static(&mut l, "1. Select a monitor in the top pane.");
    push_static(&mut l, "2. Add, edit, copy, paste, delete, or reorder detailed timings in the working EDID.");
    push_static(&mut l, "3. Export writes a patched EDID and instruction file without touching system config.");
    push_static(&mut l, "4. Install/Update writes the EDID override for the next boot on supported Limine systems.");
    push_static(&mut l, "5. Reboot, then Verify or run doctor to confirm the override is active and matching.");
    push_static(&mut l, "6. Switch selects a mode only after DRM/Hyprland already exposes it.");
    push_static(&mut l, "7. Persist the generated monitor=... rule manually in Hyprland config.");
    push_static(&mut l, "");
    push_static(&mut l, "Global keys");
    push_static(&mut l, "Tab / Shift+Tab  Move between panes");
    push_static(&mut l, "Up/Down or j/k    Move the focused selection");
    push_static(&mut l, "Enter             Open details, edit a selected row, or add when no row is selected");
    push_static(&mut l, "? / h / F1        Open this help");
    push_static(&mut l, "i                 Details for the focused monitor or row");
    push_static(&mut l, "e                 Export patched EDID");
    push_static(&mut l, "Shift+E           Edit the selected detailed, standard, or CTA DTD row");
    push_static(&mut l, "A                 Install/Update EDID override");
    push_static(&mut l, "u                 Uninstall drmcru EDID override");
    push_static(&mut l, "s                 Switch to selected exposed mode");
    push_static(&mut l, "v                 Verify selected mode and persistent config");
    push_static(&mut l, "q / Esc           Quit from the main screen");
    push_static(&mut l, "");
    push_static(&mut l, "Detailed and CTA timing keys");
    push_static(&mut l, "a                 Add timing in the focused timing pane");
    push_static(&mut l, "Shift+E / Edit    Edit the selected row");
    push_static(&mut l, "c                 Copy selected detailed or CTA DTD timing");
    push_static(&mut l, "p                 Paste copied detailed timing into a new slot");
    push_static(&mut l, "d / Delete        Delete selected timing");
    push_static(&mut l, "Reset button      Restore the original monitor EDID workspace");
    push_static(&mut l, "Up/Down buttons   Reorder base detailed timings");
    push_static(&mut l, "");
    push_static(&mut l, "Editor keys");
    push_static(&mut l, "Tab / Shift+Tab  Move between fields");
    push_static(&mut l, "Up/Down          Move between fields");
    push_static(&mut l, "Left/Right       Move cursor, or cycle timing preset on the Timing field");
    push_static(&mut l, "Home/End         Move to start/end of text fields");
    push_static(&mut l, "Space            Toggle sync polarity/interlace fields");
    push_static(&mut l, "Enter            Apply editor changes to the in-memory EDID");
    push_static(&mut l, "Esc              Cancel the editor");
    push_static(&mut l, "");
    push_static(&mut l, "Mouse");
    push_static(&mut l, "Left click        Select rows, fields, and buttons");
    push_static(&mut l, "Right click       Open details for monitor and resolution rows");
    push_static(&mut l, "Wheel             Scroll lists or long dialogs");
    push_static(&mut l, "");
    push_static(&mut l, "Status labels");
    push_static(&mut l, "not installed    No drmcru EDID override detected for this connector");
    push_static(&mut l, "partial install  Some override files exist, but the boot path is incomplete");
    push_static(&mut l, "reboot pending   Boot config is ready, but this kernel has not loaded it yet");
    push_static(&mut l, "active            The current kernel command line references the override");
    push_static(&mut l, "matching          Live connector EDID bytes match the installed firmware file");
    push_static(&mut l, "");
    push_static(&mut l, "Important model");
    push_static(&mut l, "Hyprland cannot make new DRM modes appear by itself. New custom timings must be in the kernel-exposed EDID first.");
    push_static(&mut l, "Switch changes only modes that DRM/Hyprland already exposes.");
    push_static(&mut l, "Install/Update requires a reboot because the kernel reads EDID firmware at boot.");
    push_static(&mut l, "drmcru does not auto-edit Hyprland config; Verify reports the exact rule to persist.");
    push_static(&mut l, "");
    push_static(&mut l, "Diagnostics");
    push_static(&mut l, "Run `drmcru doctor` outside the TUI for diagnostics.");
    push_static(&mut l, "Monitor Details shows override state, live EDID match, and the winning Hyprland monitor rule.");
    push_static(&mut l, "Verify shows whether the selected mode is exposed, active, and reload-persistent.");
    assert(l.deep_view() =~= spec_help_lines());
    l
}


/// One axis of a timing: `LABEL active A  front F  sync S  back B  blanking K  total T`.
pub open spec fn axis_text(label: Seq<char>, a: u16, f: u16, s: u16, b: u16, k: u16, t: u16) -> Seq<char> {
    label + "active "@ + decimal(a as nat) + "  front "@ + decimal(f as nat) + "  sync "@ + decimal(
        s as nat,
    ) + "  back "@ + decimal(b as nat) + "  blanking "@ + decimal(k as nat) + "  total "@ + decimal(
        t as nat,
    )
}

fn axis_line(label: &str, a: u16, f: u16, s: u16, b: u16, k: u16, t: u16) -> (r: String)
    ensures
        r@ == axis_text(label@, a, f, s, b, k, t),
{
    let mut r = String::from_str(label);
    push_str(&mut r, "active ");
    push_decimal(&mut r, a as u64);
    push_str(&mut r, "  front ");
    push_decimal(&mut r, f as u64);
    push_str(&mut r, "  sync ");
    push_decimal(&mut r, s as u64);
    push_str(&mut r, "  back ");
    push_decimal(&mut r, b as u64);
    push_str(&mut r, "  blanking ");
    push_decimal(&mut r, k as u64);
    push_str(&mut r, "  total ");
    push_decimal(&mut r, t as u64);
    r
}

/// The horizontal rate in kHz, `pixel clock / h_total`, with three decimals;
/// 0 when the total is 0.
pub open spec fn horizontal_rate_text(t: TimingDescriptor) -> Seq<char> {
    if t.spec_h_total() == 0 {
        fixed_text(0, 1, 3)
    } else {
        fixed_text(t.pixel_clock_khz as nat, t.spec_h_total() as nat, 3)
    }
}

/// The detail lines of a timing: where it comes from, its mode, its location
/// if it has one, then clock, axes, rates, polarity and scan.
pub open spec fn spec_timing_detail_lines(
    source: Seq<char>,
    location: Option<Seq<char>>,
    t: TimingDescriptor,
) -> Seq<Seq<char>> {
    let head = seq![source, "Mode: "@ + t.spec_hyprland_mode()];
    let head = match location {
        Some(l) => head.push("Location: "@ + l),
        None => head,
    };
    head + seq![
        "Pixel clock: "@ + decimal(t.pixel_clock_khz as nat) + " kHz"@,
        axis_text(
            "Horizontal: "@,
            t.h_active,
            t.h_front_porch,
            t.h_sync_width,
            t.h_back_porch,
            t.h_blanking,
            t.spec_h_total(),
        ),
        axis_text(
            "Vertical:   "@,
            t.v_active,
            t.v_front_porch,
            t.v_sync_width,
            t.v_back_porch,
            t.v_blanking,
            t.spec_v_total(),
        ),
        "Refresh: "@ + t.spec_refresh_text(3) + " Hz"@,
        "Horizontal rate: "@ + horizontal_rate_text(t) + " kHz"@,
        "Sync polarity: H "@ + (if t.h_sync_positive { "+"@ } else { "-"@ }) + "  V "@ + (if t.v_sync_positive { "+"@ } else { "-"@ }),
        "Interlaced: "@ + spec_yes_no(t.interlaced),
    ]
}

pub fn timing_detail_lines(source: &str, location: Option<String>, timing: &TimingDescriptor) -> (r:
    Vec<String>)
    ensures
        r.deep_view() == spec_timing_detail_lines(source@, location.deep_view(), *timing),
{
    let mut lines: Vec<String> = Vec::new();
    push_line(&mut lines, String::from_str(source));
    let mut mode = String::from_str("Mode: ");
    push_str(&mut mode, timing.hyprland_mode().as_str());
    push_line(&mut lines, mode);
    match &location {
        Some(l) => push_line(&mut lines, line_of("Location: ", l.as_str())),
        None => {},
    }
    let ghost head = lines.deep_view();
    let mut clock = String::from_str("Pixel clock: ");
    push_decimal(&mut clock, timing.pixel_clock_khz as u64);
    push_str(&mut clock, " kHz");
    push_line(&mut lines, clock);
    push_line(
        &mut lines,
        axis_line(
            "Horizontal: ",
            timing.h_active,
            timing.h_front_porch,
            timing.h_sync_width,
            timing.h_back_porch,
            timing.h_blanking,
            timing.h_total(),
        ),
    );
    push_line(
        &mut lines,
        axis_line(
            "Vertical:   ",
            timing.v_active,
            timing.v_front_porch,
            timing.v_sync_width,
            timing.v_back_porch,
            timing.v_blanking,
            timing.v_total(),
        ),
    );
    let mut refresh = String::from_str("Refresh: ");
    timing.push_refresh(&mut refresh, 3);
    push_str(&mut refresh, " Hz");
    push_line(&mut lines, refresh);
    let mut rate = String::from_str("Horizontal rate: ");
    let h = timing.h_total();
    if h == 0 {
        crate::fixed::push_fixed(&mut rate, 0, 1, 3);
    } else {
        crate::fixed::push_fixed(&mut rate, timing.pixel_clock_khz as u64, h as u64, 3);
    }
    push_str(&mut rate, " kHz");
    push_line(&mut lines, rate);
    let mut polarity = String::from_str("Sync polarity: H ");
    push_str(&mut polarity, polarity_label(timing.h_sync_positive));
    push_str(&mut polarity, "  V ");
    push_str(&mut polarity, polarity_label(timing.v_sync_positive));
    push_line(&mut lines, polarity);
    push_line(&mut lines, line_of("Interlaced: ", yes_no(timing.interlaced)));
    assert(lines.deep_view() =~= spec_timing_detail_lines(source@, location.deep_view(), *timing));
    lines
}


/// Each of `items` behind `prefix`.
pub open spec fn prefixed(items: Seq<Seq<char>>, prefix: Seq<char>) -> Seq<Seq<char>> {
    Seq::new(items.len(), |i: int| prefix + items[i])
}

pub(crate) fn push_prefixed(lines: &mut Vec<String>, items: &Vec<String>, prefix: &str, limit: usize)
    ensures
        final(lines).deep_view() == old(lines).deep_view() + prefixed(
            items.deep_view().take(if items.deep_view().len() < limit { items.deep_view().len() as int } else { limit as int }),
            prefix@,
        ),
{
    let ghost iv = items.deep_view();
    let n: usize = if items.len() < limit {
        items.len()
    } else {
        limit
    };
    let mut i: usize = 0;
    while i < n
        invariant
            iv == items.deep_view(),
            n <= iv.len(),
            n == (if iv.len() < limit { iv.len() as int } else { limit as int }),
            i <= n,
            lines.deep_view() == old(lines).deep_view() + prefixed(iv.take(i as int), prefix@),
        decreases n - i,
    {
        push_line(lines, line_of(prefix, items[i].as_str()));
        i = i + 1;
        assert(lines.deep_view() =~= old(lines).deep_view() + prefixed(iv.take(i as int), prefix@));
    }
}

/// The verdict on an override: active and matching, ready for the next
/// boot, partial, or absent.
pub open spec fn override_result(status: InstalledOverrideStatus, comparison: FirmwareEdidComparison) -> Seq<char> {
    if status.spec_is_active() && comparison is Matches {
        "Result: installed EDID override is active on this boot."@
    } else if status.spec_is_configured_for_next_boot() {
        "Result: override is configured for next boot, but the active kernel does not use it yet."@
    } else if status.spec_has_any_override() {
        "Result: override install is partial; run Install/Update before rebooting."@
    } else {
        "Result: no drmcru EDID override is installed for this connector."@
    }
}

/// The lines that describe a connector's override, given how the installed
/// firmware compares with the live EDID.
pub open spec fn spec_override_status_lines(
    status: InstalledOverrideStatus,
    comparison: FirmwareEdidComparison,
) -> Seq<Seq<char>> {
    let warnings = status.read_warnings.deep_view();
    seq![
        ""@,
        "EDID override"@,
        "Status:             "@ + status.spec_short_label(),
        "Firmware file:      "@ + spec_yes_no(status.firmware_present),
        "mkinitcpio FILES:   "@ + spec_yes_no(status.mkinitcpio_references_firmware),
        "Bootloader config:  "@ + spec_yes_no(status.bootloader_references_kernel_parameter) + " ("@
            + decimal(status.bootloader_cmdline_entries_with_kernel_parameter as nat) + "/"@ + decimal(
            status.bootloader_cmdline_entries as nat,
        ) + " cmdline entries)"@,
        "Limine entry-tool:  "@ + spec_yes_no(status.limine_entry_tool_references_kernel_parameter),
        "Active kernel arg:  "@ + spec_yes_no(status.active_kernel_references_kernel_parameter),
        "Live EDID match:    "@ + comparison.spec_short_label(),
        "Match detail:       "@ + comparison.spec_detail(),
        override_result(status, comparison),
    ] + if warnings.len() > 0 {
        seq!["Override warnings"@] + prefixed(warnings, "- "@)
    } else {
        Seq::empty()
    }
}

fn override_result_line(status: &InstalledOverrideStatus, comparison: &FirmwareEdidComparison) -> (r:
    &'static str)
    ensures
        r@ == override_result(*status, *comparison),
{
    let matches = match comparison {
        FirmwareEdidComparison::Matches { .. } => true,
        _ => false,
    };
    if status.is_active() && matches {
        "Result: installed EDID override is active on this boot."
    } else if status.is_configured_for_next_boot() {
        "Result: override is configured for next boot, but the active kernel does not use it yet."
    } else if status.has_any_override() {
        "Result: override install is partial; run Install/Update before rebooting."
    } else {
        "Result: no drmcru EDID override is installed for this connector."
    }
}

#[verifier::rlimit(40)]
pub fn append_override_status_lines(
    lines: &mut Vec<String>,
    status: &InstalledOverrideStatus,
    comparison: &FirmwareEdidComparison,
)
    ensures
        final(lines).deep_view() == old(lines).deep_view() + spec_override_status_lines(*status, *comparison),
{
    push_static(lines, "");
    push_static(lines, "EDID override");
    push_line(lines, line_of("Status:             ", status.short_label()));
    push_line(lines, line_of("Firmware file:      ", yes_no(status.firmware_present)));
    push_line(lines, line_of("mkinitcpio FILES:   ", yes_no(status.mkinitcpio_references_firmware)));
    let mut boot = line_of("Bootloader config:  ", yes_no(status.bootloader_references_kernel_parameter));
    push_str(&mut boot, " (");
    push_decimal(&mut boot, status.bootloader_cmdline_entries_with_kernel_parameter as u64);
    push_str(&mut boot, "/");
    push_decimal(&mut boot, status.bootloader_cmdline_entries as u64);
    push_str(&mut boot, " cmdline entries)");
    push_line(lines, boot);
    push_line(
        lines,
        line_of("Limine entry-tool:  ", yes_no(status.limine_entry_tool_references_kernel_parameter)),
    );
    push_line(
        lines,
        line_of("Active kernel arg:  ", yes_no(status.active_kernel_references_kernel_parameter)),
    );
    push_line(lines, line_of("Live EDID match:    ", comparison.short_label()));
    push_line(lines, line_of("Match detail:       ", comparison.detail().as_str()));
    let result = override_result_line(status, comparison);
    push_static(lines, result);
    let ghost before = lines.deep_view();
    if status.read_warnings.len() > 0 {
        push_static(lines, "Override warnings");
        push_prefixed(lines, &status.read_warnings, "- ", status.read_warnings.len());
        assert(status.read_warnings.deep_view().take(status.read_warnings.deep_view().len() as int)
            =~= status.read_warnings.deep_view());
    }
    assert(lines.deep_view() =~= old(lines).deep_view() + spec_override_status_lines(*status, *comparison));
}

/// Why a requested mode is not there, judged from the override state.
pub open spec fn spec_unavailable_mode_message(
    connector: Seq<char>,
    requested: Seq<char>,
    status: Option<InstalledOverrideStatus>,
    comparison: FirmwareEdidComparison,
) -> Seq<char> {
    let prefix = requested + " is not exposed by DRM/Hyprland for "@ + connector + "."@;
    match status {
        Some(s) => if s.spec_is_active() {
            if comparison is Matches {
                prefix + " The EDID override is active, so this mode is not in the active EDID payload. Update the EDID override with the current workspace and reboot."@
            } else {
                prefix + " The kernel EDID argument is active, but live EDID does not match the installed firmware file. Run Install/Update again and reboot."@
            }
        } else if s.spec_is_configured_for_next_boot() {
            prefix + " The EDID override is installed for next boot, but this boot is still using the old EDID. Reboot and verify again."@
        } else if s.spec_has_any_override() {
            prefix + " The EDID override install is partial. Run Install/Update, reboot, then verify again."@
        } else {
            prefix + " Install the EDID override and reboot first."@
        },
        None => prefix + " Install the EDID override and reboot first."@,
    }
}

/// The message for a mode that DRM does not expose; `comparison` is how the
/// installed firmware compares with the live EDID, read only when the status
/// says the override is active.
pub fn unavailable_mode_message(
    connector: &str,
    requested: &str,
    status: Option<&InstalledOverrideStatus>,
    comparison: &FirmwareEdidComparison,
) -> (r: String)
    ensures
        r@ == spec_unavailable_mode_message(
            connector@,
            requested@,
            match status {
                Some(s) => Some(*s),
                None => None,
            },
            *comparison,
        ),
{
    let mut r = String::from_str(requested);
    push_str(&mut r, " is not exposed by DRM/Hyprland for ");
    push_str(&mut r, connector);
    push_str(&mut r, ".");
    let tail = match status {
        Some(s) => {
            if s.is_active() {
                match comparison {
                    FirmwareEdidComparison::Matches { .. } => " The EDID override is active, so this mode is not in the active EDID payload. Update the EDID override with the current workspace and reboot.",
                    _ => " The kernel EDID argument is active, but live EDID does not match the installed firmware file. Run Install/Update again and reboot.",
                }
            } else if s.is_configured_for_next_boot() {
                " The EDID override is installed for next boot, but this boot is still using the old EDID. Reboot and verify again."
            } else if s.has_any_override() {
                " The EDID override install is partial. Run Install/Update, reboot, then verify again."
            } else {
                " Install the EDID override and reboot first."
            }
        },
        None => " Install the EDID override and reboot first.",
    };
    push_str(&mut r, tail);
    r
}


/// The warnings block of a config report: at most three warnings, then how
/// many more there are.
pub open spec fn config_warning_lines(ws: Seq<Seq<char>>) -> Seq<Seq<char>> {
    if ws.len() == 0 {
        Seq::empty()
    } else {
        seq!["Config warnings"@] + prefixed(ws.take(if ws.len() < 3 { ws.len() as int } else { 3 }), "- "@)
            + if ws.len() > 3 {
            seq!["- ... "@ + decimal((ws.len() - 3) as nat) + " more warning(s)"@]
        } else {
            Seq::empty()
        }
    }
}

fn push_config_warnings(lines: &mut Vec<String>, warnings: &Vec<String>)
    ensures
        final(lines).deep_view() == old(lines).deep_view() + config_warning_lines(warnings.deep_view()),
{
    if warnings.len() > 0 {
        push_static(lines, "Config warnings");
        push_prefixed(lines, warnings, "- ", 3);
        if warnings.len() > 3 {
            let mut more = String::from_str("- ... ");
            push_decimal(&mut more, (warnings.len() - 3) as u64);
            push_str(&mut more, " more warning(s)");
            push_line(lines, more);
        }
    }
    assert(lines.deep_view() =~= old(lines).deep_view() + config_warning_lines(warnings.deep_view()));
}

/// `PATH:LINE` of a rule, with its path as shown.
pub open spec fn shown_location(shown_path: Seq<char>, line_number: usize) -> Seq<char> {
    shown_path + seq![':'] + decimal(line_number as nat)
}

/// The lines on a connector's rules in the Hyprland config: the root (as
/// shown), files read, how many literal rules, the last of them, warnings.
pub open spec fn spec_connector_config_lines(
    report: MonitorRuleInspection,
    shown_root: Seq<char>,
    last_shown: Seq<char>,
) -> Seq<Seq<char>> {
    seq![
        ""@,
        "Hyprland connector config"@,
        "Root: "@ + shown_root,
        "Files read: "@ + decimal(report.files_read as nat),
        "Literal rules for connector: "@ + decimal(report.connector_rules.len() as nat),
    ] + match report.last_connector_rule {
        Some(rule) => seq![
            "Last literal rule: "@ + shown_location(last_shown, rule.line_number),
            "Last literal mode: "@ + normalized(rule.deep_view()),
        ],
        None => seq!["Last literal rule: none"@],
    } + config_warning_lines(report.read_warnings.deep_view())
}

fn push_count(lines: &mut Vec<String>, prefix: &str, n: usize)
    ensures
        final(lines).deep_view() == old(lines).deep_view().push(prefix@ + decimal(n as nat)),
{
    let mut l = String::from_str(prefix);
    push_decimal(&mut l, n as u64);
    push_line(lines, l);
}

/// Appends what the config holds for a connector; `shown_root` and
/// `last_shown` are the root path and the last rule's path as the user sees them.
pub fn append_connector_config_lines(
    lines: &mut Vec<String>,
    report: &MonitorRuleInspection,
    shown_root: &str,
    last_shown: &str,
)
    ensures
        final(lines).deep_view() == old(lines).deep_view() + spec_connector_config_lines(
            *report,
            shown_root@,
            last_shown@,
        ),
{
    push_static(lines, "");
    push_static(lines, "Hyprland connector config");
    push_line(lines, line_of("Root: ", shown_root));
    push_count(lines, "Files read: ", report.files_read);
    push_count(lines, "Literal rules for connector: ", report.connector_rules.len());
    match &report.last_connector_rule {
        Some(rule) => {
            push_line(lines, line_of("Last literal rule: ", rule.location(last_shown).as_str()));
            push_line(lines, line_of("Last literal mode: ", rule.normalized_rule().as_str()));
        },
        None => push_static(lines, "Last literal rule: none"),
    }
    push_config_warnings(lines, &report.read_warnings);
    assert(lines.deep_view() =~= old(lines).deep_view() + spec_connector_config_lines(
        *report,
        shown_root@,
        last_shown@,
    ));
}

/// The verdict of a config check.
pub open spec fn config_result(report: MonitorRuleInspection) -> Seq<char> {
    if report.spec_exact_match_is_effective() {
        "Config result: the selected mode is the last literal rule found; dynamic Lua may still override it."@
    } else if report.exact_match is Some {
        "Config result: a later literal connector rule may override the exact rule."@
    } else if report.connector_rules.len() == 0 {
        "Config result: no literal monitor rule for this connector was found."@
    } else {
        "Config result: the last literal connector rule differs from the selected mode."@
    }
}

/// The lines of a config check for a selected mode.
pub open spec fn spec_config_inspection_lines(
    report: MonitorRuleInspection,
    shown_root: Seq<char>,
    exact_shown: Seq<char>,
    last_shown: Seq<char>,
) -> Seq<Seq<char>> {
    seq![
        ""@,
        "Hyprland config check"@,
        "Root: "@ + shown_root,
        "Files read: "@ + decimal(report.files_read as nat),
        "Literal rules for connector: "@ + decimal(report.connector_rules.len() as nat),
        "Exact rule present: "@ + spec_yes_no(report.exact_match is Some),
    ] + match report.exact_match {
        Some(rule) => seq!["Exact rule location: "@ + shown_location(exact_shown, rule.line_number)],
        None => Seq::empty(),
    } + match report.last_connector_rule {
        Some(rule) => seq![
            "Last connector rule: "@ + shown_location(last_shown, rule.line_number),
            "Last connector mode: "@ + normalized(rule.deep_view()),
        ],
        None => Seq::empty(),
    } + seq![config_result(report)] + config_warning_lines(report.read_warnings.deep_view())
}

/// Appends the result of checking the config for a selected mode; the shown
/// paths are those of the root, the exact rule and the last rule.
pub fn append_config_inspection_lines(
    lines: &mut Vec<String>,
    report: &MonitorRuleInspection,
    shown_root: &str,
    exact_shown: &str,
    last_shown: &str,
)
    ensures
        final(lines).deep_view() == old(lines).deep_view() + spec_config_inspection_lines(
            *report,
            shown_root@,
            exact_shown@,
            last_shown@,
        ),
{
    push_static(lines, "");
    push_static(lines, "Hyprland config check");
    push_line(lines, line_of("Root: ", shown_root));
    push_count(lines, "Files read: ", report.files_read);
    push_count(lines, "Literal rules for connector: ", report.connector_rules.len());
    push_line(lines, line_of("Exact rule present: ", yes_no(report.exact_match.is_some())));
    match &report.exact_match {
        Some(rule) => push_line(
            lines,
            line_of("Exact rule location: ", rule.location(exact_shown).as_str()),
        ),
        None => {},
    }
    match &report.last_connector_rule {
        Some(rule) => {
            push_line(lines, line_of("Last connector rule: ", rule.location(last_shown).as_str()));
            push_line(lines, line_of("Last connector mode: ", rule.normalized_rule().as_str()));
        },
        None => {},
    }
    let result = if report.exact_match_is_effective() {
        "Config result: the selected mode is the last literal rule found; dynamic Lua may still override it."
    } else if report.exact_match.is_some() {
        "Config result: a later literal connector rule may override the exact rule."
    } else if report.connector_rules.len() == 0 {
        "Config result: no literal monitor rule for this connector was found."
    } else {
        "Config result: the last literal connector rule differs from the selected mode."
    };
    push_static(lines, result);
    push_config_warnings(lines, &report.read_warnings);
    assert(lines.deep_view() =~= old(lines).deep_view() + spec_config_inspection_lines(
        *report,
        shown_root@,
        exact_shown@,
        last_shown@,
    ));
}


/// `v` without one pair of matching surrounding quotes.
pub open spec fn unquoted(v: Seq<char>) -> Seq<char> {
    if v.len() >= 2 && ((v[0] == '"' && v.last() == '"') || (v[0] == '\'' && v.last() == '\'')) {
        v.subrange(1, v.len() - 1)
    } else {
        v
    }
}

/// An import path as typed: trimmed, unquoted, with `~`, `~/` and `$HOME/`
/// expanded when the home directory is known.
pub open spec fn spec_normalize_import_path(value: Seq<char>, home: Option<Seq<char>>) -> Seq<char> {
    let v = unquoted(trim(value));
    if v == "~"@ {
        match home {
            Some(h) => h,
            None => v,
        }
    } else if starts_at(v, 0, "~/"@) && home is Some {
        path_join(home->0, v.skip(2))
    } else if starts_at(v, 0, "$HOME/"@) && home is Some {
        path_join(home->0, v.skip(6))
    } else {
        v
    }
}

pub fn normalize_import_path(value: &str, home: Option<&str>) -> (r: String)
    ensures
        r@ == spec_normalize_import_path(
            value@,
            match home {
                Some(h) => Some(h@),
                None => None,
            },
        ),
{
    let t = trim_chars(&chars_of(value));
    let n = t.len();
    let v = if n >= 2 && ((t[0] == '"' && t[n - 1] == '"') || (t[0] == '\'' && t[n - 1] == '\'')) {
        slice_chars(&t, 1, n - 1)
    } else {
        slice_chars(&t, 0, n)
    };
    assert(t@.subrange(0, n as int) =~= t@);
    let vs = string_of(&v);
    let tilde = chars_of("~");
    let home_prefix = chars_of("~/");
    let env_prefix = chars_of("$HOME/");
    proof {
        reveal_strlit("~/");
        reveal_strlit("$HOME/");
    }
    if chars_equal(&v, &tilde) {
        return match home {
            Some(h) => String::from_str(h),
            None => vs,
        };
    }
    match home {
        Some(h) => {
            if matches_at(&v, 0, &home_prefix) {
                let rest = slice_chars(&v, 2, v.len());
                assert(rest@ =~= v@.skip(2));
                return join_path(h, string_of(&rest).as_str());
            }
            if matches_at(&v, 0, &env_prefix) {
                let rest = slice_chars(&v, 6, v.len());
                assert(rest@ =~= v@.skip(6));
                return join_path(h, string_of(&rest).as_str());
            }
            vs
        },
        None => vs,
    }
}

} // verus!
