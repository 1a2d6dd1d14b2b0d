//! The decisions around installing, updating and uninstalling an override
//! from the interface: whether the action may go ahead, what its confirmation
//! lists, and what is reported once it has run. Exporting the EDID, running
//! the script and waiting for it are the caller's.
use crate::doctor::{connector_override_plan, override_parameter};
use crate::export::{custom_edid_file_name, spec_custom_edid_file_name};
use crate::install::{
    firmware_path, line_of, push_line, InstallPlan, InstallPreview, InstalledOverrideStatus,
    SystemSupportReport, UninstallPlan, UninstallPreview, LIMINE_CONF, LIMINE_ENTRY_TOOL_DROPIN,
    MKINITCPIO_CONF,
};
use crate::text::{join_path, joined, lines_of, path_join, push_joined_strings, push_str, starts_at, text_lines};
use vstd::prelude::*;

verus! {

/// A change to the system that needs authentication.
#[derive(Debug, Clone, Copy, PartialEq, Eq, Structural)]
pub enum SystemOperation {
    Install,
    Update,
    Uninstall,
}

/// What pressing Apply or Uninstall leads to: a refusal, with the status
/// line and possibly a report to show, or a confirmation to ask for.
#[derive(Debug)]
pub enum ActionDecision<P> {
    Blocked { status: String, output: Option<String> },
    Confirm { operation: SystemOperation, plan: P, summary_lines: Vec<String>, status: String },
}

/// The lines about the override found so far, put around a preview: the
/// current state first, each read warning last.
pub open spec fn with_current_state(
    preview: Seq<Seq<char>>,
    status: Option<&InstalledOverrideStatus>,
) -> Seq<Seq<char>> {
    match status {
        None => preview,
        Some(s) => seq!["Current:    "@ + s.spec_short_label()] + preview + s.read_warnings.deep_view().map_values(
            |w: Seq<char>| "Warning:    "@ + w,
        ),
    }
}

fn add_current_state(lines: Vec<String>, status: Option<&InstalledOverrideStatus>) -> (r: Vec<String>)
    ensures
        r.deep_view() == with_current_state(lines.deep_view(), status),
{
    match status {
        None => lines,
        Some(s) => {
            let mut r: Vec<String> = Vec::new();
            push_line(&mut r, line_of("Current:    ", s.short_label()));
            let mut i: usize = 0;
            let ghost head = r.deep_view();
            while i < lines.len()
                invariant
                    i <= lines@.len(),
                    r.deep_view() == head + lines.deep_view().take(i as int),
                decreases lines@.len() - i,
            {
                push_line(&mut r, lines[i].clone());
                i = i + 1;
                assert(r.deep_view() =~= head + lines.deep_view().take(i as int));
            }
            assert(lines.deep_view().take(i as int) =~= lines.deep_view());
            let ghost mid = r.deep_view();
            let mut k: usize = 0;
            while k < s.read_warnings.len()
                invariant
                    k <= s.read_warnings@.len(),
                    r.deep_view() == mid + s.read_warnings.deep_view().take(k as int).map_values(
                        |w: Seq<char>| "Warning:    "@ + w,
                    ),
                decreases s.read_warnings@.len() - k,
            {
                push_line(&mut r, line_of("Warning:    ", s.read_warnings[k].as_str()));
                k = k + 1;
                assert(r.deep_view() =~= mid + s.read_warnings.deep_view().take(k as int).map_values(
                    |w: Seq<char>| "Warning:    "@ + w,
                ));
            }
            assert(s.read_warnings.deep_view().take(k as int) =~= s.read_warnings.deep_view());
            assert(r.deep_view() =~= with_current_state(lines.deep_view(), status));
            r
        },
    }
}


/// The issues among the first `n` that are errors, in order.
pub open spec fn error_lines(issues: Seq<Seq<char>>, n: nat) -> Seq<Seq<char>>
    decreases n,
{
    if n == 0 {
        Seq::empty()
    } else {
        let e = error_lines(issues, (n - 1) as nat);
        if starts_at(issues[n - 1], 0, "Error:"@) {
            e.push(issues[n - 1])
        } else {
            e
        }
    }
}

fn errors_of(issues: &Vec<String>) -> (r: Vec<String>)
    ensures
        r.deep_view() == error_lines(issues.deep_view(), issues.deep_view().len()),
{
    let prefix = crate::text::chars_of("Error:");
    let mut r: Vec<String> = Vec::new();
    let mut i: usize = 0;
    while i < issues.len()
        invariant
            prefix@ == "Error:"@,
            i <= issues@.len(),
            r.deep_view() == error_lines(issues.deep_view(), i as nat),
        decreases issues@.len() - i,
    {
        if crate::text::matches_at(&crate::text::chars_of(issues[i].as_str()), 0, &prefix) {
            push_line(&mut r, issues[i].clone());
        }
        i = i + 1;
    }
    r
}

/// The operation Apply performs: an update over an existing override, else
/// an install.
pub open spec fn apply_operation(status: Option<&InstalledOverrideStatus>) -> SystemOperation {
    match status {
        Some(s) => if s.spec_has_any_override() {
            SystemOperation::Update
        } else {
            SystemOperation::Install
        },
        None => SystemOperation::Install,
    }
}

/// What an install preview lists for a plan.
pub open spec fn install_preview_lines(
    connector: Seq<char>,
    edid_source: Seq<char>,
    file_name: Seq<char>,
    kernel_parameter: Seq<char>,
) -> Seq<Seq<char>> {
    seq![
        "Connector:  "@ + connector,
        "Copy EDID:  "@ + edid_source + " → "@ + firmware_path(file_name),
        "Patch:      "@ + MKINITCPIO_CONF@ + " (add EDID to FILES)"@,
        "Patch:      "@ + LIMINE_CONF@ + " (add kernel param to cmdline entries)"@,
        "Patch:      "@ + LIMINE_ENTRY_TOOL_DROPIN@ + " (add persistent Limine entry-tool param)"@,
        "Parameter:  "@ + kernel_parameter,
        "Run:        limine-mkinitcpio when present, otherwise mkinitcpio -P"@,
    ]
}

/// What an uninstall preview lists for a plan.
pub open spec fn uninstall_preview_lines(connector: Seq<char>, file_name: Seq<char>, kernel_parameter: Seq<char>) -> Seq<
    Seq<char>,
> {
    seq![
        "Connector:  "@ + connector,
        "Remove:     "@ + firmware_path(file_name),
        "Patch:      "@ + MKINITCPIO_CONF@ + " (remove EDID from FILES)"@,
        "Patch:      "@ + LIMINE_CONF@ + " (remove kernel param from cmdline entries)"@,
        "Patch:      "@ + LIMINE_ENTRY_TOOL_DROPIN@ + " (remove persistent Limine entry-tool param)"@,
        "Parameter:  "@ + kernel_parameter,
        "Run:        limine-mkinitcpio when present, otherwise mkinitcpio -P"@,
    ]
}

/// The status line while a confirmation is shown.
pub open spec fn confirm_status(operation: SystemOperation) -> Seq<char> {
    match operation {
        SystemOperation::Install => "Review persistent EDID install changes. Enter to install, Esc to cancel."@,
        SystemOperation::Update => "Review persistent EDID update changes. Enter to update, Esc to cancel."@,
        SystemOperation::Uninstall => "Review EDID uninstall changes. Enter to uninstall, Esc to cancel."@,
    }
}

fn confirm_status_text(operation: SystemOperation) -> (r: String)
    ensures
        r@ == confirm_status(operation),
{
    String::from_str(
        match operation {
            SystemOperation::Install => "Review persistent EDID install changes. Enter to install, Esc to cancel.",
            SystemOperation::Update => "Review persistent EDID update changes. Enter to update, Esc to cancel.",
            SystemOperation::Uninstall => "Review EDID uninstall changes. Enter to uninstall, Esc to cancel.",
        },
    )
}

fn extend_lines(lines: &mut Vec<String>, more: Vec<String>)
    ensures
        final(lines).deep_view() == old(lines).deep_view() + more.deep_view(),
{
    let ghost head = lines.deep_view();
    let mut i: usize = 0;
    while i < more.len()
        invariant
            i <= more@.len(),
            lines.deep_view() == head + more.deep_view().take(i as int),
        decreases more@.len() - i,
    {
        push_line(lines, more[i].clone());
        i = i + 1;
        assert(lines.deep_view() =~= head + more.deep_view().take(i as int));
    }
    assert(more.deep_view().take(i as int) =~= more.deep_view());
}

/// What pressing Apply decides, for a connector whose EDID would be exported
/// into `output_dir`: no pending change, no mode for the Hyprland rule, an
/// error among the workspace's issues, or a system the scripts do not
/// support each block it, in that order; otherwise the install (or update,
/// over an existing override) is shown for confirmation with its preview,
/// the current state, the Hyprland mode, every issue and the preflight.
pub fn plan_apply(
    connector: &str,
    output_dir: &str,
    status: Option<&InstalledOverrideStatus>,
    workspace_changed: bool,
    target_mode: Option<&str>,
    validation_issues: &Vec<String>,
    support: &SystemSupportReport,
) -> (r: ActionDecision<InstallPlan>)
    ensures
        ({
            let errors = error_lines(validation_issues.deep_view(), validation_issues.deep_view().len());
            let file = spec_custom_edid_file_name(connector@);
            let source = path_join(output_dir@, file);
            &&& !workspace_changed ==> (r matches ActionDecision::Blocked { status: st, output }
                && st@ == "No workspace changes are pending. Add, edit, delete, or import a timing first."@
                && output is None)
            &&& workspace_changed && target_mode is None ==> (r matches ActionDecision::Blocked {
                status: st,
                output,
            } && st@ == "Apply needs at least one resolution in the working EDID."@ && output is None)
            &&& workspace_changed && target_mode is Some && errors.len() > 0 ==> (r matches ActionDecision::Blocked {
                status: st,
                output,
            } && st@ == "Apply blocked because the working EDID has validation errors."@
                && (output matches Some(o) && o@ == joined(errors, "\n"@)))
            &&& workspace_changed && target_mode is Some && errors.len() == 0
                && support.spec_blocking_issues().len() > 0 ==> (r matches ActionDecision::Blocked {
                status: st,
                output,
            } && st@ == "Automatic Apply is unsupported on this system. Review the details."@
                && (output matches Some(o) && o@ == support.spec_report_text()))
            &&& workspace_changed && target_mode is Some && errors.len() == 0
                && support.spec_blocking_issues().len() == 0 ==> (r matches ActionDecision::Confirm {
                operation,
                plan,
                summary_lines,
                status: st,
            } && operation == apply_operation(status) && plan.connector@ == connector@
                && plan.edid_file_name@ == file && plan.edid_source@ == source
                && plan.kernel_parameter@ == override_parameter(connector@)
                && summary_lines.deep_view() == with_current_state(
                install_preview_lines(connector@, source, file, override_parameter(connector@)),
                status,
            ) + seq!["Hyprland:  "@ + target_mode->0@] + validation_issues.deep_view().map_values(
                |i: Seq<char>| "Validation: "@ + i,
            ) + support.spec_summary_lines() && st@ == confirm_status(operation))
        }),
{
    let operation = match status {
        Some(s) => if s.has_any_override() {
            SystemOperation::Update
        } else {
            SystemOperation::Install
        },
        None => SystemOperation::Install,
    };
    if !workspace_changed {
        return ActionDecision::Blocked {
            status: String::from_str(
                "No workspace changes are pending. Add, edit, delete, or import a timing first.",
            ),
            output: None,
        };
    }
    let mode = match target_mode {
        Some(m) => m,
        None => {
            return ActionDecision::Blocked {
                status: String::from_str("Apply needs at least one resolution in the working EDID."),
                output: None,
            };
        },
    };
    let errors = errors_of(validation_issues);
    if errors.len() > 0 {
        let mut output = String::new();
        push_joined_strings(&mut output, &errors, "\n");
        return ActionDecision::Blocked {
            status: String::from_str("Apply blocked because the working EDID has validation errors."),
            output: Some(output),
        };
    }
    let uninstall = connector_override_plan(connector);
    let plan = InstallPlan {
        connector: uninstall.connector,
        edid_source: join_path(output_dir, uninstall.edid_file_name.as_str()),
        edid_file_name: uninstall.edid_file_name,
        kernel_parameter: uninstall.kernel_parameter,
    };
    let preview = InstallPreview::from_plan(&plan);
    let mut lines = add_current_state(preview.summary_lines(), status);
    push_line(&mut lines, line_of("Hyprland:  ", mode));
    let ghost before = lines.deep_view();
    let mut i: usize = 0;
    while i < validation_issues.len()
        invariant
            i <= validation_issues@.len(),
            lines.deep_view() == before + validation_issues.deep_view().take(i as int).map_values(
                |x: Seq<char>| "Validation: "@ + x,
            ),
        decreases validation_issues@.len() - i,
    {
        push_line(&mut lines, line_of("Validation: ", validation_issues[i].as_str()));
        i = i + 1;
        assert(lines.deep_view() =~= before + validation_issues.deep_view().take(i as int).map_values(
            |x: Seq<char>| "Validation: "@ + x,
        ));
    }
    assert(validation_issues.deep_view().take(i as int) =~= validation_issues.deep_view());
    if !support.is_supported() {
        return ActionDecision::Blocked {
            status: String::from_str("Automatic Apply is unsupported on this system. Review the details."),
            output: Some(support.report_text()),
        };
    }
    extend_lines(&mut lines, support.summary_lines());
    let status_line = confirm_status_text(operation);
    ActionDecision::Confirm { operation, plan, summary_lines: lines, status: status_line }
}

/// What pressing Uninstall decides: nothing to remove when the override is
/// known to be absent with nothing unreadable, an unsupported system blocks
/// it; otherwise the uninstall is shown for confirmation with its preview,
/// the current state and the preflight.
pub fn plan_uninstall(
    connector: &str,
    status: Option<&InstalledOverrideStatus>,
    support: &SystemSupportReport,
) -> (r: ActionDecision<UninstallPlan>)
    ensures
        ({
            let absent = status matches Some(s) && !s.spec_has_any_override()
                && s.read_warnings@.len() == 0;
            &&& absent ==> (r matches ActionDecision::Blocked { status: st, output } && st@
                == "No drmcru EDID override detected for "@ + connector@ + "."@ && output is None)
            &&& !absent && support.spec_blocking_issues().len() > 0 ==> (r matches ActionDecision::Blocked {
                status: st,
                output,
            } && st@ == "Automatic uninstall is unsupported on this system. Review the details."@
                && (output matches Some(o) && o@ == support.spec_report_text()))
            &&& !absent && support.spec_blocking_issues().len() == 0 ==> (r matches ActionDecision::Confirm {
                operation,
                plan,
                summary_lines,
                status: st,
            } && operation == SystemOperation::Uninstall && plan.connector@ == connector@
                && plan.edid_file_name@ == spec_custom_edid_file_name(connector@)
                && plan.kernel_parameter@ == override_parameter(connector@)
                && summary_lines.deep_view() == with_current_state(
                uninstall_preview_lines(
                    connector@,
                    spec_custom_edid_file_name(connector@),
                    override_parameter(connector@),
                ),
                status,
            ) + support.spec_summary_lines() && st@ == confirm_status(SystemOperation::Uninstall))
        }),
{
    match status {
        Some(s) => if !s.has_any_override() && s.read_warnings.len() == 0 {
            let mut st = String::from_str("No drmcru EDID override detected for ");
            push_str(&mut st, connector);
            push_str(&mut st, ".");
            return ActionDecision::Blocked { status: st, output: None };
        },
        None => {},
    }
    let plan = connector_override_plan(connector);
    let preview = UninstallPreview::from_plan(&plan);
    let mut lines = add_current_state(preview.summary_lines(), status);
    if !support.is_supported() {
        return ActionDecision::Blocked {
            status: String::from_str("Automatic uninstall is unsupported on this system. Review the details."),
            output: Some(support.report_text()),
        };
    }
    extend_lines(&mut lines, support.summary_lines());
    let st = confirm_status_text(SystemOperation::Uninstall);
    ActionDecision::Confirm { operation: SystemOperation::Uninstall, plan, summary_lines: lines, status: st }
}

/// The status line while the script runs, waiting for authentication.
pub fn in_progress_status(operation: SystemOperation) -> (r: &'static str)
    ensures
        r@ == match operation {
            SystemOperation::Install => "Installing EDID... (waiting for authentication)"@,
            SystemOperation::Update => "Updating EDID... (waiting for authentication)"@,
            SystemOperation::Uninstall => "Uninstalling EDID... (waiting for authentication)"@,
        },
{
    match operation {
        SystemOperation::Install => "Installing EDID... (waiting for authentication)",
        SystemOperation::Update => "Updating EDID... (waiting for authentication)",
        SystemOperation::Uninstall => "Uninstalling EDID... (waiting for authentication)",
    }
}

/// How a system action ended: the script ran (and reported success or not
/// with its output), authentication was dismissed, or it could not run.
#[derive(Debug)]
pub enum ActionOutcome {
    Finished { success: bool, output: String },
    Cancelled,
    Failed { message: String },
}

/// The result a finished action shows: the status line, and the result
/// dialog's success flag and text when there is one.
pub open spec fn spec_finished(operation: SystemOperation, outcome: ActionOutcome) -> (Seq<char>, Option<(bool, Seq<char>)>) {
    let name = match operation {
        SystemOperation::Install => "Install"@,
        SystemOperation::Update => "Update"@,
        SystemOperation::Uninstall => "Uninstall"@,
    };
    match outcome {
        ActionOutcome::Finished { success, output } => (
            match operation {
                SystemOperation::Install => "Install complete. Reboot to activate the custom EDID."@,
                SystemOperation::Update => "Update complete. Reboot to activate the updated EDID."@,
                SystemOperation::Uninstall => "Uninstall complete. Reboot to return to the monitor EDID."@,
            },
            Some((success, output@)),
        ),
        ActionOutcome::Cancelled => (name + " cancelled — authentication was dismissed."@, None),
        ActionOutcome::Failed { message } => (name + " failed: "@ + message@, Some((false, message@))),
    }
}

pub fn finished(operation: SystemOperation, outcome: ActionOutcome) -> (r: (String, Option<(bool, String)>))
    ensures
        r.0@ == spec_finished(operation, outcome).0,
        match (r.1, spec_finished(operation, outcome).1) {
            (None, None) => true,
            (Some((ok, text)), Some((sok, stext))) => ok == sok && text@ == stext,
            _ => false,
        },
{
    let name = match operation {
        SystemOperation::Install => "Install",
        SystemOperation::Update => "Update",
        SystemOperation::Uninstall => "Uninstall",
    };
    match outcome {
        ActionOutcome::Finished { success, output } => {
            let st = String::from_str(
                match operation {
                    SystemOperation::Install => "Install complete. Reboot to activate the custom EDID.",
                    SystemOperation::Update => "Update complete. Reboot to activate the updated EDID.",
                    SystemOperation::Uninstall => "Uninstall complete. Reboot to return to the monitor EDID.",
                },
            );
            (st, Some((success, output)))
        },
        ActionOutcome::Cancelled => {
            let mut st = String::from_str(name);
            push_str(&mut st, " cancelled — authentication was dismissed.");
            (st, None)
        },
        ActionOutcome::Failed { message } => {
            let mut st = String::from_str(name);
            push_str(&mut st, " failed: ");
            push_str(&mut st, message.as_str());
            (st, Some((false, message)))
        },
    }
}


/// The title of the dialog that reports how a system action ended.
pub open spec fn result_title(operation: SystemOperation, success: bool) -> Seq<char> {
    match (operation, success) {
        (SystemOperation::Install, true) => "Install EDID — Success"@,
        (SystemOperation::Install, false) => "Install EDID — Failed"@,
        (SystemOperation::Update, true) => "Update EDID — Success"@,
        (SystemOperation::Update, false) => "Update EDID — Failed"@,
        (SystemOperation::Uninstall, true) => "Uninstall EDID — Success"@,
        (SystemOperation::Uninstall, false) => "Uninstall EDID — Failed"@,
    }
}

/// What the result dialog says before the action's own output.
pub open spec fn result_head(operation: SystemOperation, success: bool) -> Seq<Seq<char>> {
    if success {
        match operation {
            SystemOperation::Install => seq![
                "Custom EDID installed successfully!"@,
                ""@,
                "Reboot to activate the custom resolution."@,
                "After reboot, set your monitor rule in Hyprland config."@,
            ],
            SystemOperation::Update => seq![
                "Custom EDID updated successfully."@,
                ""@,
                "Reboot to activate the updated EDID."@,
            ],
            SystemOperation::Uninstall => seq![
                "Custom EDID override removed successfully."@,
                ""@,
                "Reboot to return to the monitor's normal EDID."@,
            ],
        }
    } else {
        match operation {
            SystemOperation::Install => seq!["Installation failed. Details:"@],
            SystemOperation::Update => seq!["Update failed. Details:"@],
            SystemOperation::Uninstall => seq!["Uninstall failed. Details:"@],
        }
    }
}

fn push_lit(lines: &mut Vec<String>, l: &str)
    ensures
        final(lines).deep_view() == old(lines).deep_view().push(l@),
{
    push_line(lines, String::from_str(l));
}

/// The title and the lines of the dialog that reports how a system action
/// ended: what happened and what to do next, a blank line, then each line
/// of the action's output.
pub fn apply_result_text(operation: SystemOperation, success: bool, output: &str) -> (r: (String, Vec<String>))
    ensures
        r.0@ == result_title(operation, success),
        r.1.deep_view() == result_head(operation, success) + seq![""@] + text_lines(output@),
{
    let title = match (operation, success) {
        (SystemOperation::Install, true) => "Install EDID — Success",
        (SystemOperation::Install, false) => "Install EDID — Failed",
        (SystemOperation::Update, true) => "Update EDID — Success",
        (SystemOperation::Update, false) => "Update EDID — Failed",
        (SystemOperation::Uninstall, true) => "Uninstall EDID — Success",
        (SystemOperation::Uninstall, false) => "Uninstall EDID — Failed",
    };
    let mut lines: Vec<String> = Vec::new();
    if success {
        match operation {
            SystemOperation::Install => {
                push_lit(&mut lines, "Custom EDID installed successfully!");
                push_lit(&mut lines, "");
                push_lit(&mut lines, "Reboot to activate the custom resolution.");
                push_lit(&mut lines, "After reboot, set your monitor rule in Hyprland config.");
            },
            SystemOperation::Update => {
                push_lit(&mut lines, "Custom EDID updated successfully.");
                push_lit(&mut lines, "");
                push_lit(&mut lines, "Reboot to activate the updated EDID.");
            },
            SystemOperation::Uninstall => {
                push_lit(&mut lines, "Custom EDID override removed successfully.");
                push_lit(&mut lines, "");
                push_lit(&mut lines, "Reboot to return to the monitor's normal EDID.");
            },
        }
    } else {
        match operation {
            SystemOperation::Install => push_lit(&mut lines, "Installation failed. Details:"),
            SystemOperation::Update => push_lit(&mut lines, "Update failed. Details:"),
            SystemOperation::Uninstall => push_lit(&mut lines, "Uninstall failed. Details:"),
        }
    }
    assert(lines.deep_view() =~= result_head(operation, success));
    push_lit(&mut lines, "");
    let out = lines_of(output);
    let ghost head = lines.deep_view();
    let mut i: usize = 0;
    while i < out.len()
        invariant
            i <= out.deep_view().len(),
            lines.deep_view() == head + out.deep_view().take(i as int),
        decreases out.deep_view().len() - i,
    {
        push_line(&mut lines, out[i].clone());
        i = i + 1;
        assert(lines.deep_view() =~= head + out.deep_view().take(i as int));
    }
    assert(out.deep_view().take(out.deep_view().len() as int) =~= out.deep_view());
    (String::from_str(title), lines)
}

} // verus!
