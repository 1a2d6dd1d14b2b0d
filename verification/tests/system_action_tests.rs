use drmcru::install::{InstalledOverrideStatus, SystemSupportReport};
use drmcru::system_action::{
    finished, in_progress_status, plan_apply, plan_uninstall, ActionDecision, ActionOutcome,
    SystemOperation,
};

fn supported() -> SystemSupportReport {
    SystemSupportReport {
        pkexec_available: true,
        mkinitcpio_available: true,
        mkinitcpio_conf_present: true,
        mkinitcpio_presets_present: true,
        limine_mkinitcpio_available: false,
        limine_conf_present: true,
        limine_has_cmdline: true,
        read_warnings: Vec::new(),
    }
}

fn status(installed: bool) -> InstalledOverrideStatus {
    InstalledOverrideStatus {
        connector: "DP-1".to_string(),
        edid_file_name: "drmcru_custom_DP-1.bin".to_string(),
        kernel_parameter: "drm.edid_firmware=DP-1:edid/drmcru_custom_DP-1.bin".to_string(),
        firmware_target: "/lib/firmware/edid/drmcru_custom_DP-1.bin".to_string(),
        firmware_present: installed,
        mkinitcpio_references_firmware: installed,
        bootloader_references_kernel_parameter: installed,
        limine_entry_tool_references_kernel_parameter: false,
        bootloader_cmdline_entries: 1,
        bootloader_cmdline_entries_with_kernel_parameter: usize::from(installed),
        active_kernel_references_kernel_parameter: false,
        read_warnings: Vec::new(),
    }
}

fn blocked<P>(decision: ActionDecision<P>) -> (String, Option<String>) {
    match decision {
        ActionDecision::Blocked { status, output } => (status, output),
        ActionDecision::Confirm { .. } => panic!("expected a refusal"),
    }
}

#[test]
fn apply_needs_changes_a_mode_and_no_errors() {
    let support = supported();
    let (status_line, output) =
        blocked(plan_apply("DP-1", "/tmp/out", None, false, Some("1920x1080@60"), &Vec::new(), &support));
    assert_eq!(
        status_line,
        "No workspace changes are pending. Add, edit, delete, or import a timing first."
    );
    assert_eq!(output, None);
    let (status_line, _) = blocked(plan_apply("DP-1", "/tmp/out", None, true, None, &Vec::new(), &support));
    assert_eq!(status_line, "Apply needs at least one resolution in the working EDID.");
    let issues = vec![
        "Error: base EDID checksum is invalid".to_string(),
        "Warning: something".to_string(),
        "Error: EDID extension 1 checksum is invalid".to_string(),
    ];
    let (status_line, output) =
        blocked(plan_apply("DP-1", "/tmp/out", None, true, Some("1920x1080@60"), &issues, &support));
    assert_eq!(status_line, "Apply blocked because the working EDID has validation errors.");
    assert_eq!(
        output.unwrap(),
        "Error: base EDID checksum is invalid\nError: EDID extension 1 checksum is invalid"
    );
}

#[test]
fn apply_on_an_unsupported_system_shows_why() {
    let support = SystemSupportReport { pkexec_available: false, ..supported() };
    let (status_line, output) =
        blocked(plan_apply("DP-1", "/tmp/out", None, true, Some("1920x1080@60"), &Vec::new(), &support));
    assert_eq!(status_line, "Automatic Apply is unsupported on this system. Review the details.");
    assert!(output.unwrap().contains("- pkexec was not found in PATH"));
}

#[test]
fn apply_confirms_install_or_update() {
    let support = supported();
    let issues = vec!["Warning: low refresh".to_string()];
    match plan_apply("DP-1", "/tmp/out", None, true, Some("1920x1080@60"), &issues, &support) {
        ActionDecision::Confirm { operation, plan, summary_lines, status } => {
            assert_eq!(operation, SystemOperation::Install);
            assert_eq!(plan.edid_source, "/tmp/out/drmcru_custom_DP-1.bin");
            assert_eq!(plan.edid_file_name, "drmcru_custom_DP-1.bin");
            assert_eq!(plan.kernel_parameter, "drm.edid_firmware=DP-1:edid/drmcru_custom_DP-1.bin");
            assert_eq!(summary_lines[0], "Connector:  DP-1");
            assert_eq!(
                summary_lines[1],
                "Copy EDID:  /tmp/out/drmcru_custom_DP-1.bin → /lib/firmware/edid/drmcru_custom_DP-1.bin"
            );
            assert_eq!(summary_lines[7], "Hyprland:  1920x1080@60");
            assert_eq!(summary_lines[8], "Validation: Warning: low refresh");
            assert_eq!(summary_lines[9], "Preflight: pkexec ok");
            assert_eq!(
                status,
                "Review persistent EDID install changes. Enter to install, Esc to cancel."
            );
        }
        ActionDecision::Blocked { status, .. } => panic!("unexpected refusal: {status}"),
    }
    let mut current = status(true);
    current.read_warnings.push("could not read /boot/limine.conf".to_string());
    match plan_apply("DP-1", "/tmp/out", Some(&current), true, Some("1920x1080@60"), &Vec::new(), &support) {
        ActionDecision::Confirm { operation, summary_lines, .. } => {
            assert_eq!(operation, SystemOperation::Update);
            assert!(summary_lines[0].starts_with("Current:    "));
            assert_eq!(summary_lines[8], "Warning:    could not read /boot/limine.conf");
        }
        ActionDecision::Blocked { status, .. } => panic!("unexpected refusal: {status}"),
    }
}

#[test]
fn uninstall_needs_an_override() {
    let support = supported();
    let (status_line, output) = blocked(plan_uninstall("DP-1", Some(&status(false)), &support));
    assert_eq!(status_line, "No drmcru EDID override detected for DP-1.");
    assert_eq!(output, None);
    match plan_uninstall("DP-1", Some(&status(true)), &support) {
        ActionDecision::Confirm { operation, plan, summary_lines, status } => {
            assert_eq!(operation, SystemOperation::Uninstall);
            assert_eq!(plan.kernel_parameter, "drm.edid_firmware=DP-1:edid/drmcru_custom_DP-1.bin");
            assert_eq!(summary_lines[2], "Remove:     /lib/firmware/edid/drmcru_custom_DP-1.bin");
            assert_eq!(status, "Review EDID uninstall changes. Enter to uninstall, Esc to cancel.");
        }
        ActionDecision::Blocked { status, .. } => panic!("unexpected refusal: {status}"),
    }
    let unsupported = SystemSupportReport { limine_conf_present: false, ..supported() };
    let (status_line, _) = blocked(plan_uninstall("DP-1", None, &unsupported));
    assert_eq!(
        status_line,
        "Automatic uninstall is unsupported on this system. Review the details."
    );
}

#[test]
fn finished_actions_report_their_outcome() {
    assert_eq!(
        in_progress_status(SystemOperation::Update),
        "Updating EDID... (waiting for authentication)"
    );
    let (line, dialog) = finished(
        SystemOperation::Install,
        ActionOutcome::Finished { success: true, output: "done".to_string() },
    );
    assert_eq!(line, "Install complete. Reboot to activate the custom EDID.");
    assert_eq!(dialog, Some((true, "done".to_string())));
    let (line, dialog) = finished(SystemOperation::Uninstall, ActionOutcome::Cancelled);
    assert_eq!(line, "Uninstall cancelled — authentication was dismissed.");
    assert_eq!(dialog, None);
    let (line, dialog) = finished(
        SystemOperation::Update,
        ActionOutcome::Failed { message: "pkexec is not available".to_string() },
    );
    assert_eq!(line, "Update failed: pkexec is not available");
    assert_eq!(dialog, Some((false, "pkexec is not available".to_string())));
}
