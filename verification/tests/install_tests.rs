use drmcru::install::{
    build_install_script, build_uninstall_script, compare_firmware_to_live_edid,
    inspect_override_with_paths, inspect_system_support_with_paths, text_contains_kernel_mapping,
    validate_firmware_file_name, FileRead, FirmwareEdidComparison, InstallError, InstallPlan,
    InstallPreview, OverrideFacts, OverridePaths, PathProbe, SystemFacts, UninstallPlan,
    UninstallPreview,
};

fn sample_plan() -> InstallPlan {
    InstallPlan {
        connector: "DP-1".to_string(),
        edid_source: "/tmp/drmcru_custom_DP-1.bin".to_string(),
        edid_file_name: "drmcru_custom_DP-1.bin".to_string(),
        kernel_parameter: "drm.edid_firmware=DP-1:edid/drmcru_custom_DP-1.bin".to_string(),
    }
}

fn sample_uninstall_plan() -> UninstallPlan {
    UninstallPlan {
        connector: "DP-1".to_string(),
        edid_file_name: "drmcru_custom_DP-1.bin".to_string(),
        kernel_parameter: "drm.edid_firmware=DP-1:edid/drmcru_custom_DP-1.bin".to_string(),
    }
}

#[test]
fn script_contains_all_steps() {
    let script = build_install_script(&sample_plan());
    assert!(script.contains("install -D -m 0644"));
    assert!(script.contains("/lib/firmware/edid/drmcru_custom_DP-1.bin"));
    assert!(script.contains("mkinitcpio.conf"));
    assert!(script.contains("drm.edid_firmware=DP-1:edid/drmcru_custom_DP-1.bin"));
    assert!(script.contains("limine.conf"));
    assert!(script.contains("limine-entry-tool.d"));
    assert!(script.contains("drmcru-edid.conf"));
    assert!(script.contains("limine-mkinitcpio"));
    assert!(script.contains("mkinitcpio -P"));
}

#[test]
fn script_is_idempotent() {
    let script = build_install_script(&sample_plan());
    assert!(script.contains("grep -qF"));
    assert!(script.contains("if (!seen[mapping]++)"));
    assert!(script.contains("index(mapping, connector \":\") == 1"));
}

#[test]
fn script_creates_backups_before_config_edits() {
    let script = build_install_script(&sample_plan());
    assert!(script.contains("BACKUP_SUFFIX"));
    assert!(script.contains("backup_file \"$MKINIT\""));
    assert!(script.contains("backup_file \"$LIMINE\""));
    assert!(script.contains("backup_file \"$LIMINE_DROPIN\""));
}

#[test]
fn script_shell_quotes_interpolated_values() {
    let plan = InstallPlan {
        connector: "DP-1".to_string(),
        edid_source: "/tmp/hypr cru's.bin".to_string(),
        edid_file_name: "hypr cru's.bin".to_string(),
        kernel_parameter: "drm.edid_firmware=DP-1:edid/hypr cru's.bin".to_string(),
    };
    let script = build_install_script(&plan);

    assert!(script.contains("EDID_SOURCE='/tmp/hypr cru'\\''s.bin'"));
    assert!(script.contains("FIRMWARE_TARGET='/lib/firmware/edid/hypr cru'\\''s.bin'"));
    assert!(script.contains("KERNEL_PARAM='drm.edid_firmware=DP-1:edid/hypr cru'\\''s.bin'"));
}

#[test]
fn validation_rejects_firmware_names_with_path_separators() {
    assert!(matches!(
        validate_firmware_file_name("../escape.bin"),
        Err(InstallError::UnsafeFirmwareName(_))
    ));
}

#[test]
fn uninstall_script_removes_edid_references() {
    let script = build_uninstall_script(&sample_uninstall_plan());
    assert!(script.contains("rm -f -- \"$FIRMWARE_TARGET\""));
    assert!(script.contains("Removed EDID from mkinitcpio FILES"));
    assert!(script.contains("Removed persistent Limine entry-tool kernel parameter"));
    assert!(script.contains("Removed connector mapping from Limine cmdline entries"));
    assert!(script.contains("limine-mkinitcpio"));
    assert!(script.contains("mkinitcpio -P"));
}

#[test]
fn install_script_preflights_supported_stack_before_mutating() {
    let script = build_install_script(&sample_plan());
    let mkinit_check = script
        .find("[ERR] /etc/mkinitcpio.conf not found")
        .expect("mkinitcpio config preflight");
    let limine_check = script
        .find("[ERR] /boot/limine.conf not found")
        .expect("Limine config preflight");
    let cmdline_check = script
        .find("[ERR] /boot/limine.conf has no cmdline entries")
        .expect("Limine cmdline preflight");
    let rebuild_backend_check = script
        .find("[ERR] No initramfs rebuild backend found")
        .expect("initramfs backend preflight");
    let command_check = script
        .find("[ERR] mkinitcpio was not found")
        .expect("mkinitcpio command preflight");
    let first_mutation = script
        .find("install -D -m 0644")
        .expect("firmware install mutation");

    assert!(mkinit_check < first_mutation);
    assert!(limine_check < first_mutation);
    assert!(cmdline_check < first_mutation);
    assert!(rebuild_backend_check < first_mutation);
    assert!(command_check < first_mutation);
}

#[test]
fn install_script_updates_missing_limine_cmdlines_instead_of_global_skip() {
    let script = build_install_script(&sample_plan());

    assert!(script.contains("Consolidated EDID mappings in all Limine cmdline entries"));
    assert!(script.contains("combined == \"\" ? \"\" : \",\""));
    assert!(!script.contains("Kernel parameter already in Limine config (skipped)"));
}

#[test]
fn mapping_detection_handles_consolidated_kernel_parameter() {
    let dp1 = "drm.edid_firmware=DP-1:edid/drmcru_custom_DP-1.bin";
    let cmdline = "quiet drm.edid_firmware=DP-1:edid/drmcru_custom_DP-1.bin,eDP-1:edid/drmcru_custom_eDP-1.bin splash";

    assert!(text_contains_kernel_mapping(cmdline, dp1));
    assert!(text_contains_kernel_mapping(
        cmdline,
        "drm.edid_firmware=eDP-1:edid/drmcru_custom_eDP-1.bin"
    ));
    assert!(!text_contains_kernel_mapping(
        cmdline,
        "drm.edid_firmware=DP-2:edid/drmcru_custom_DP-2.bin"
    ));
}

#[test]
fn uninstall_script_preflights_supported_stack_before_mutating() {
    let script = build_uninstall_script(&sample_uninstall_plan());
    let mkinit_check = script
        .find("[ERR] /etc/mkinitcpio.conf not found")
        .expect("mkinitcpio config preflight");
    let limine_check = script
        .find("[ERR] /boot/limine.conf not found")
        .expect("Limine config preflight");
    let cmdline_check = script
        .find("[ERR] /boot/limine.conf has no cmdline entries")
        .expect("Limine cmdline preflight");
    let rebuild_backend_check = script
        .find("[ERR] No initramfs rebuild backend found")
        .expect("initramfs backend preflight");
    let command_check = script
        .find("[ERR] mkinitcpio was not found")
        .expect("mkinitcpio command preflight");
    let first_mutation = script
        .find("rm -f -- \"$FIRMWARE_TARGET\"")
        .expect("firmware removal mutation");

    assert!(mkinit_check < first_mutation);
    assert!(limine_check < first_mutation);
    assert!(cmdline_check < first_mutation);
    assert!(rebuild_backend_check < first_mutation);
    assert!(command_check < first_mutation);
    assert!(!script.contains("[WARN]"));
}

#[test]
fn uninstall_preview_has_all_targets() {
    let preview = UninstallPreview::from_plan(&sample_uninstall_plan());
    let lines = preview.summary_lines();
    assert_eq!(lines.len(), 7);
    assert!(lines[0].contains("DP-1"));
    assert!(lines[1].contains("Remove"));
    assert!(lines[2].contains("mkinitcpio"));
    assert!(lines[3].contains("limine"));
    assert!(lines[4].contains("limine-entry-tool"));
    assert!(lines[5].contains("drm.edid_firmware"));
    assert!(lines[6].contains("limine-mkinitcpio"));
}

#[test]
fn preview_summary_has_all_targets() {
    let preview = InstallPreview::from_plan(&sample_plan());
    let lines = preview.summary_lines();
    assert!(lines.len() == 7);
    assert!(lines[0].contains("DP-1"));
    assert!(lines[1].contains("firmware"));
    assert!(lines[2].contains("mkinitcpio"));
    assert!(lines[3].contains("limine"));
    assert!(lines[4].contains("limine-entry-tool"));
    assert!(lines[5].contains("drm.edid_firmware"));
    assert!(lines[6].contains("limine-mkinitcpio"));
}

fn support_facts(limine_text: &str, presets: bool, limine_mkinitcpio: bool) -> SystemFacts {
    SystemFacts {
        pkexec_available: true,
        mkinitcpio_available: true,
        limine_mkinitcpio_available: limine_mkinitcpio,
        mkinitcpio_conf: PathProbe::Present,
        mkinitcpio_presets: if presets { PathProbe::Present } else { PathProbe::Missing },
        limine_conf: PathProbe::Present,
        limine_conf_text: Ok(limine_text.to_string()),
    }
}

#[test]
fn system_support_accepts_limine_mkinitcpio_stack() {
    let facts = support_facts("cmdline: quiet\n", true, false);
    let report = inspect_system_support_with_paths(
        "/tmp/mkinitcpio.conf",
        "/tmp/mkinitcpio.d",
        "/tmp/limine.conf",
        &facts,
    );
    assert!(report.is_supported());
    assert!(report.blocking_issues().is_empty());
}

#[test]
fn system_support_accepts_limine_mkinitcpio_without_presets() {
    let facts = support_facts("cmdline: quiet\n", false, true);
    let report = inspect_system_support_with_paths(
        "/tmp/mkinitcpio.conf",
        "/tmp/mkinitcpio.d",
        "/tmp/limine.conf",
        &facts,
    );
    assert!(report.is_supported());
    assert!(report.blocking_issues().is_empty());
    assert_eq!(report.rebuild_backend_label(), "limine-mkinitcpio");
}

#[test]
fn system_support_blocks_missing_limine_cmdline() {
    let facts = support_facts("timeout: 3\n", true, false);
    let report = inspect_system_support_with_paths(
        "/tmp/mkinitcpio.conf",
        "/tmp/mkinitcpio.d",
        "/tmp/limine.conf",
        &facts,
    );
    assert!(!report.is_supported());
    assert!(report.blocking_issues().iter().any(|issue| issue.contains("no cmdline")));
}

fn override_paths_in(dir: &str) -> OverridePaths {
    OverridePaths {
        firmware_target: format!("{dir}/drmcru_custom_DP-1.bin"),
        mkinitcpio_conf: format!("{dir}/mkinitcpio.conf"),
        bootloader_conf: format!("{dir}/limine.conf"),
        limine_entry_tool_dropin: format!("{dir}/drmcru-edid.conf"),
        active_cmdline: format!("{dir}/cmdline"),
    }
}

#[test]
fn installed_override_status_detects_active_install() {
    let paths = override_paths_in("/tmp/t");
    let param = "drm.edid_firmware=DP-1:edid/drmcru_custom_DP-1.bin";
    let facts = OverrideFacts {
        firmware: PathProbe::Present,
        mkinitcpio_conf: FileRead::Text(format!("FILES=({})\n", paths.firmware_target)),
        bootloader_conf: FileRead::Text(format!("cmdline: quiet {param}\n")),
        limine_entry_tool_dropin: FileRead::Text(format!(
            "KERNEL_CMDLINE[default]+=\" {param}\"\n"
        )),
        active_cmdline: FileRead::Text(format!("root=/dev/sda1 {param}\n")),
    };
    let status =
        inspect_override_with_paths("DP-1", "drmcru_custom_DP-1.bin", param, &paths, &facts);

    assert!(status.firmware_present);
    assert!(status.mkinitcpio_references_firmware);
    assert!(status.bootloader_references_kernel_parameter);
    assert!(status.limine_entry_tool_references_kernel_parameter);
    assert_eq!(status.bootloader_cmdline_entries, 1);
    assert_eq!(status.bootloader_cmdline_entries_with_kernel_parameter, 1);
    assert!(status.active_kernel_references_kernel_parameter);
    assert_eq!(status.short_label(), "active");
}

#[test]
fn installed_override_status_detects_missing_override() {
    let paths = override_paths_in("/tmp/t");
    let param = "drm.edid_firmware=DP-1:edid/drmcru_custom_DP-1.bin";
    let facts = OverrideFacts {
        firmware: PathProbe::Missing,
        mkinitcpio_conf: FileRead::Text("FILES=()\n".to_string()),
        bootloader_conf: FileRead::Text("cmdline: quiet\n".to_string()),
        limine_entry_tool_dropin: FileRead::Missing,
        active_cmdline: FileRead::Text("root=/dev/sda1\n".to_string()),
    };
    let status =
        inspect_override_with_paths("DP-1", "drmcru_custom_DP-1.bin", param, &paths, &facts);

    assert!(!status.has_any_override());
    assert_eq!(status.short_label(), "not installed");
}

#[test]
fn installed_override_status_detects_partial_limine_cmdline_install() {
    let paths = override_paths_in("/tmp/t");
    let param = "drm.edid_firmware=DP-1:edid/drmcru_custom_DP-1.bin";
    let facts = OverrideFacts {
        firmware: PathProbe::Present,
        mkinitcpio_conf: FileRead::Text(format!("FILES=({})\n", paths.firmware_target)),
        bootloader_conf: FileRead::Text(format!("cmdline: quiet\ncmdline: quiet {param}\n")),
        limine_entry_tool_dropin: FileRead::Missing,
        active_cmdline: FileRead::Text("root=/dev/sda1\n".to_string()),
    };
    let status =
        inspect_override_with_paths("DP-1", "drmcru_custom_DP-1.bin", param, &paths, &facts);

    assert!(status.bootloader_references_kernel_parameter);
    assert_eq!(status.bootloader_cmdline_entries, 2);
    assert_eq!(status.bootloader_cmdline_entries_with_kernel_parameter, 1);
    assert!(!status.is_configured_for_next_boot());
    assert_eq!(status.short_label(), "partial install");
}

#[test]
fn firmware_comparison_detects_matching_live_edid() {
    let comparison = compare_firmware_to_live_edid(Ok(b"edid-bytes".to_vec()), Some(b"edid-bytes"));
    assert_eq!(comparison, FirmwareEdidComparison::Matches { bytes: 10 });
    assert_eq!(comparison.short_label(), "matches");
}

#[test]
fn firmware_comparison_detects_different_live_edid() {
    let comparison = compare_firmware_to_live_edid(Ok(b"firmware".to_vec()), Some(b"live"));
    assert_eq!(
        comparison,
        FirmwareEdidComparison::Differs {
            firmware_bytes: 8,
            live_bytes: 4,
        }
    );
    assert!(comparison.detail().contains("differs"));
}

#[test]
fn firmware_comparison_reports_missing_pieces() {
    assert_eq!(
        compare_firmware_to_live_edid(Err(None), Some(b"live")),
        FirmwareEdidComparison::MissingFirmware
    );
    assert_eq!(
        compare_firmware_to_live_edid(Ok(b"x".to_vec()), None),
        FirmwareEdidComparison::MissingLiveEdid
    );
    assert_eq!(
        compare_firmware_to_live_edid(Err(Some("denied".to_string())), Some(b"live")),
        FirmwareEdidComparison::ReadError("denied".to_string())
    );
}
