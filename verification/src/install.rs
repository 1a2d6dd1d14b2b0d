//! Installing and removing an EDID override on a Limine + mkinitcpio system:
//! the plans and previews, what the system offers, what is installed, and the
//! privileged scripts that do the work. Reading files and running commands is
//! left to the caller, which hands in what it found.
use crate::text::{
    push_char, chars_of, chars_equal, contains_chars, contains_seq, decimal, has_char, joined, leading_ws, leading_ws_end,
    lemma_chars_deep_view, matches_at, push_chars, push_decimal, push_joined_strings, push_str,
    slice_chars, split_chars, split_pieces, starts_at, string_of, trim_start,
};
use vstd::prelude::*;

verus! {

/// Everything needed to install a custom EDID.
#[derive(Debug, Clone)]
pub struct InstallPlan {
    /// DRM connector name, e.g. "DP-1".
    pub connector: String,
    /// Path of the exported .bin file.
    pub edid_source: String,
    /// File name inside /lib/firmware/edid/.
    pub edid_file_name: String,
    /// The kernel parameter, e.g. "drm.edid_firmware=DP-1:edid/custom.bin".
    pub kernel_parameter: String,
}

/// Where an EDID file named `name` is installed.
pub open spec fn firmware_path(name: Seq<char>) -> Seq<char> {
    "/lib/firmware/edid/"@ + name
}

fn firmware_path_of(name: &String) -> (r: String)
    ensures
        r@ == firmware_path(name@),
{
    let mut r = String::from_str("/lib/firmware/edid/");
    push_str(&mut r, name.as_str());
    r
}

impl InstallPlan {
    pub fn firmware_target(&self) -> (r: String)
        ensures
            r@ == firmware_path(self.edid_file_name@),
    {
        firmware_path_of(&self.edid_file_name)
    }
}

/// A previously installed override to remove.
#[derive(Debug, Clone)]
pub struct UninstallPlan {
    pub connector: String,
    pub edid_file_name: String,
    pub kernel_parameter: String,
}

impl UninstallPlan {
    pub fn firmware_target(&self) -> (r: String)
        ensures
            r@ == firmware_path(self.edid_file_name@),
    {
        firmware_path_of(&self.edid_file_name)
    }
}

/// What an install will change.
#[derive(Debug, Clone)]
pub struct InstallPreview {
    pub connector: String,
    pub edid_source: String,
    pub firmware_target: String,
    pub mkinitcpio_conf: String,
    pub bootloader_conf: String,
    pub limine_entry_tool_dropin: String,
    pub kernel_parameter: String,
}

/// What an uninstall will change.
#[derive(Debug, Clone)]
pub struct UninstallPreview {
    pub connector: String,
    pub firmware_target: String,
    pub mkinitcpio_conf: String,
    pub bootloader_conf: String,
    pub limine_entry_tool_dropin: String,
    pub kernel_parameter: String,
}

/// Whether drmcru's override appears installed, as far as reading files shows.
#[derive(Debug, Clone, PartialEq, Eq)]
pub struct InstalledOverrideStatus {
    pub connector: String,
    pub edid_file_name: String,
    pub kernel_parameter: String,
    pub firmware_target: String,
    pub firmware_present: bool,
    pub mkinitcpio_references_firmware: bool,
    pub bootloader_references_kernel_parameter: bool,
    pub limine_entry_tool_references_kernel_parameter: bool,
    pub bootloader_cmdline_entries: usize,
    pub bootloader_cmdline_entries_with_kernel_parameter: usize,
    pub active_kernel_references_kernel_parameter: bool,
    pub read_warnings: Vec<String>,
}

#[derive(Debug, Clone, PartialEq, Eq)]
pub struct SystemSupportReport {
    pub pkexec_available: bool,
    pub mkinitcpio_available: bool,
    pub mkinitcpio_conf_present: bool,
    pub mkinitcpio_presets_present: bool,
    pub limine_mkinitcpio_available: bool,
    pub limine_conf_present: bool,
    pub limine_has_cmdline: bool,
    pub read_warnings: Vec<String>,
}

#[derive(Debug, Clone, PartialEq, Eq)]
pub enum FirmwareEdidComparison {
    Matches { bytes: usize },
    Differs { firmware_bytes: usize, live_bytes: usize },
    MissingFirmware,
    MissingLiveEdid,
    ReadError(String),
}

#[derive(Debug, Clone)]
pub struct InstallReport {
    pub success: bool,
    pub output: String,
}

/// Why an install or uninstall did not happen; I/O errors come as their messages.
#[derive(Debug, Clone, PartialEq, Eq)]
pub enum InstallError {
    MissingEdid(String),
    UnsafeFirmwareName(String),
    ScriptWrite(String),
    NoPkexec,
    Launch(String),
    ScriptFailed { code: i32, output: String },
    Cancelled,
    UnsupportedSystem(String),
}

/// What looking for a path found.
#[derive(Debug, Clone, PartialEq, Eq)]
pub enum PathProbe {
    Present,
    Missing,
    Failed(String),
}

/// What reading a text file gave.
#[derive(Debug, Clone, PartialEq, Eq)]
pub enum FileRead {
    Text(String),
    Missing,
    Failed(String),
}

fn string_from(s: &str) -> (r: String)
    ensures
        r@ == s@,
{
    String::from_str(s)
}

impl FirmwareEdidComparison {
    pub open spec fn spec_short_label(&self) -> Seq<char> {
        match self {
            FirmwareEdidComparison::Matches { .. } => "matches"@,
            FirmwareEdidComparison::Differs { .. } => "differs"@,
            FirmwareEdidComparison::MissingFirmware => "missing firmware"@,
            FirmwareEdidComparison::MissingLiveEdid => "no live EDID"@,
            FirmwareEdidComparison::ReadError(_) => "read error"@,
        }
    }

    pub fn short_label(&self) -> (r: &'static str)
        ensures
            r@ == self.spec_short_label(),
    {
        match self {
            FirmwareEdidComparison::Matches { .. } => "matches",
            FirmwareEdidComparison::Differs { .. } => "differs",
            FirmwareEdidComparison::MissingFirmware => "missing firmware",
            FirmwareEdidComparison::MissingLiveEdid => "no live EDID",
            FirmwareEdidComparison::ReadError(_) => "read error",
        }
    }

    pub open spec fn spec_detail(&self) -> Seq<char> {
        match self {
            FirmwareEdidComparison::Matches { bytes } => "installed firmware matches live EDID ("@
                + decimal(*bytes as nat) + " bytes)"@,
            FirmwareEdidComparison::Differs { firmware_bytes, live_bytes } =>
                "installed firmware differs from live EDID ("@ + decimal(*firmware_bytes as nat)
                + " vs "@ + decimal(*live_bytes as nat) + " bytes)"@,
            FirmwareEdidComparison::MissingFirmware => "installed firmware file is missing"@,
            FirmwareEdidComparison::MissingLiveEdid =>
                "selected connector has no readable live EDID"@,
            FirmwareEdidComparison::ReadError(error) => "could not read installed firmware: "@
                + error@,
        }
    }

    pub fn detail(&self) -> (r: String)
        ensures
            r@ == self.spec_detail(),
    {
        let mut r = String::new();
        match self {
            FirmwareEdidComparison::Matches { bytes } => {
                push_str(&mut r, "installed firmware matches live EDID (");
                push_decimal(&mut r, *bytes as u64);
                push_str(&mut r, " bytes)");
            },
            FirmwareEdidComparison::Differs { firmware_bytes, live_bytes } => {
                push_str(&mut r, "installed firmware differs from live EDID (");
                push_decimal(&mut r, *firmware_bytes as u64);
                push_str(&mut r, " vs ");
                push_decimal(&mut r, *live_bytes as u64);
                push_str(&mut r, " bytes)");
            },
            FirmwareEdidComparison::MissingFirmware => {
                push_str(&mut r, "installed firmware file is missing");
            },
            FirmwareEdidComparison::MissingLiveEdid => {
                push_str(&mut r, "selected connector has no readable live EDID");
            },
            FirmwareEdidComparison::ReadError(error) => {
                push_str(&mut r, "could not read installed firmware: ");
                push_str(&mut r, error.as_str());
            },
        }
        assert(r@ =~= self.spec_detail());
        r
    }
}


/// `"ok"` or `"missing"`.
pub open spec fn ok_missing(value: bool) -> Seq<char> {
    if value {
        "ok"@
    } else {
        "missing"@
    }
}

fn yes_no(value: bool) -> (r: &'static str)
    ensures
        r@ == ok_missing(value),
{
    if value {
        "ok"
    } else {
        "missing"
    }
}

/// `seq![line]` when `c` holds, else nothing.
pub open spec fn line_if(c: bool, line: Seq<char>) -> Seq<Seq<char>> {
    if c {
        seq![line]
    } else {
        Seq::empty()
    }
}

/// Appends `line` to `lines` and keeps the deep view in step.
pub(crate) fn push_line(lines: &mut Vec<String>, line: String)
    ensures
        final(lines).deep_view() == old(lines).deep_view().push(line@),
{
    let ghost before = lines.deep_view();
    let ghost lv = line@;
    lines.push(line);
    assert(lines.deep_view() =~= before.push(lv));
}

/// A line made of `prefix` and `value`.
pub(crate) fn line_of(prefix: &str, value: &str) -> (r: String)
    ensures
        r@ == prefix@ + value@,
{
    let mut r = String::from_str(prefix);
    push_str(&mut r, value);
    r
}

impl SystemSupportReport {
    pub open spec fn spec_has_rebuild_backend(&self) -> bool {
        self.limine_mkinitcpio_available || self.mkinitcpio_presets_present
    }

    /// What keeps automatic Apply from running here, in the order checked.
    pub open spec fn spec_blocking_issues(&self) -> Seq<Seq<char>> {
        line_if(!self.pkexec_available, "pkexec was not found in PATH"@) + line_if(
            !self.mkinitcpio_available,
            "mkinitcpio was not found in PATH"@,
        ) + line_if(!self.mkinitcpio_conf_present, "/etc/mkinitcpio.conf was not found"@)
            + line_if(
            !self.spec_has_rebuild_backend(),
            "no initramfs rebuild backend found (expected limine-mkinitcpio or /etc/mkinitcpio.d/*.preset)"@,
        ) + (if !self.limine_conf_present {
            seq!["/boot/limine.conf was not found"@]
        } else if !self.limine_has_cmdline {
            seq!["/boot/limine.conf has no cmdline: entries"@]
        } else {
            Seq::empty()
        }) + self.read_warnings.deep_view()
    }

    pub fn is_supported(&self) -> (r: bool)
        ensures
            r == (self.spec_blocking_issues().len() == 0),
    {
        self.blocking_issues().len() == 0
    }

    pub fn has_rebuild_backend(&self) -> (r: bool)
        ensures
            r == self.spec_has_rebuild_backend(),
    {
        self.limine_mkinitcpio_available || self.mkinitcpio_presets_present
    }

    pub open spec fn spec_rebuild_backend_label(&self) -> Seq<char> {
        if self.limine_mkinitcpio_available {
            "limine-mkinitcpio"@
        } else if self.mkinitcpio_presets_present {
            "mkinitcpio -P"@
        } else {
            "missing"@
        }
    }

    pub fn rebuild_backend_label(&self) -> (r: &'static str)
        ensures
            r@ == self.spec_rebuild_backend_label(),
    {
        if self.limine_mkinitcpio_available {
            "limine-mkinitcpio"
        } else if self.mkinitcpio_presets_present {
            "mkinitcpio -P"
        } else {
            "missing"
        }
    }

    pub fn blocking_issues(&self) -> (r: Vec<String>)
        ensures
            r.deep_view() == self.spec_blocking_issues(),
    {
        let mut issues: Vec<String> = Vec::new();
        if !self.pkexec_available {
            push_line(&mut issues, string_from("pkexec was not found in PATH"));
        }
        if !self.mkinitcpio_available {
            push_line(&mut issues, string_from("mkinitcpio was not found in PATH"));
        }
        if !self.mkinitcpio_conf_present {
            push_line(&mut issues, string_from("/etc/mkinitcpio.conf was not found"));
        }
        if !self.has_rebuild_backend() {
            push_line(
                &mut issues,
                string_from(
                    "no initramfs rebuild backend found (expected limine-mkinitcpio or /etc/mkinitcpio.d/*.preset)",
                ),
            );
        }
        if !self.limine_conf_present {
            push_line(&mut issues, string_from("/boot/limine.conf was not found"));
        } else if !self.limine_has_cmdline {
            push_line(&mut issues, string_from("/boot/limine.conf has no cmdline: entries"));
        }
        let ghost head = issues.deep_view();
        let mut i: usize = 0;
        while i < self.read_warnings.len()
            invariant
                0 <= i <= self.read_warnings@.len(),
                issues.deep_view() == head + self.read_warnings.deep_view().take(i as int),
            decreases self.read_warnings@.len() - i,
        {
            push_line(&mut issues, self.read_warnings[i].clone());
            i = i + 1;
            assert(issues.deep_view() =~= head + self.read_warnings.deep_view().take(i as int));
        }
        assert(self.read_warnings.deep_view().take(self.read_warnings@.len() as int)
            =~= self.read_warnings.deep_view());
        assert(issues.deep_view() =~= self.spec_blocking_issues());
        issues
    }

    /// One `Preflight:` line per check.
    pub open spec fn spec_summary_lines(&self) -> Seq<Seq<char>> {
        seq![
            "Preflight: pkexec "@ + ok_missing(self.pkexec_available),
            "Preflight: mkinitcpio "@ + ok_missing(self.mkinitcpio_available),
            "Preflight: /etc/mkinitcpio.conf "@ + ok_missing(self.mkinitcpio_conf_present),
            "Preflight: mkinitcpio presets "@ + ok_missing(self.mkinitcpio_presets_present),
            "Preflight: limine-mkinitcpio "@ + ok_missing(self.limine_mkinitcpio_available),
            "Preflight: rebuild backend "@ + self.spec_rebuild_backend_label(),
            "Preflight: /boot/limine.conf "@ + ok_missing(self.limine_conf_present),
            "Preflight: Limine cmdline entries "@ + ok_missing(self.limine_has_cmdline),
        ]
    }

    pub fn summary_lines(&self) -> (r: Vec<String>)
        ensures
            r.deep_view() == self.spec_summary_lines(),
    {
        let mut lines: Vec<String> = Vec::new();
        push_line(&mut lines, line_of("Preflight: pkexec ", yes_no(self.pkexec_available)));
        push_line(
            &mut lines,
            line_of("Preflight: mkinitcpio ", yes_no(self.mkinitcpio_available)),
        );
        push_line(
            &mut lines,
            line_of("Preflight: /etc/mkinitcpio.conf ", yes_no(self.mkinitcpio_conf_present)),
        );
        push_line(
            &mut lines,
            line_of("Preflight: mkinitcpio presets ", yes_no(self.mkinitcpio_presets_present)),
        );
        push_line(
            &mut lines,
            line_of("Preflight: limine-mkinitcpio ", yes_no(self.limine_mkinitcpio_available)),
        );
        push_line(&mut lines, line_of("Preflight: rebuild backend ", self.rebuild_backend_label()));
        push_line(
            &mut lines,
            line_of("Preflight: /boot/limine.conf ", yes_no(self.limine_conf_present)),
        );
        push_line(
            &mut lines,
            line_of("Preflight: Limine cmdline entries ", yes_no(self.limine_has_cmdline)),
        );
        assert(lines.deep_view() =~= self.spec_summary_lines());
        lines
    }

    /// The summary when supported; otherwise why not, one issue per line.
    pub open spec fn spec_report_text(&self) -> Seq<char> {
        if self.spec_blocking_issues().len() == 0 {
            joined(self.spec_summary_lines(), seq!['\n'])
        } else {
            joined(
                seq![
                    "Automatic Apply currently supports Limine systems with mkinitcpio presets or limine-mkinitcpio."@,
                ] + self.spec_blocking_issues().map_values(|issue: Seq<char>| "- "@ + issue),
                seq!['\n'],
            )
        }
    }

    pub fn report_text(&self) -> (r: String)
        ensures
            r@ == self.spec_report_text(),
    {
        let mut r = String::new();
        if self.is_supported() {
            let lines = self.summary_lines();
            push_joined_strings(&mut r, &lines, "\n");
            proof {
                reveal_strlit("\n");
                assert("\n"@ =~= seq!['\n']);
            }
            assert(r@ =~= joined(self.spec_summary_lines(), seq!['\n']));
        } else {
            let issues = self.blocking_issues();
            let mut lines: Vec<String> = Vec::new();
            push_line(
                &mut lines,
                string_from(
                    "Automatic Apply currently supports Limine systems with mkinitcpio presets or limine-mkinitcpio.",
                ),
            );
            let ghost head = lines.deep_view();
            let ghost iv = issues.deep_view();
            let mut i: usize = 0;
            while i < issues.len()
                invariant
                    iv == issues.deep_view(),
                    0 <= i <= iv.len(),
                    lines.deep_view() == head + iv.take(i as int).map_values(
                        |issue: Seq<char>| "- "@ + issue,
                    ),
                decreases iv.len() - i,
            {
                push_line(&mut lines, line_of("- ", issues[i].as_str()));
                i = i + 1;
                assert(lines.deep_view() =~= head + iv.take(i as int).map_values(
                    |issue: Seq<char>| "- "@ + issue,
                ));
            }
            assert(iv.take(iv.len() as int) =~= iv);
            push_joined_strings(&mut r, &lines, "\n");
            proof {
                reveal_strlit("\n");
                assert("\n"@ =~= seq!['\n']);
            }
            assert(lines.deep_view() =~= seq![
                "Automatic Apply currently supports Limine systems with mkinitcpio presets or limine-mkinitcpio."@,
            ] + self.spec_blocking_issues().map_values(|issue: Seq<char>| "- "@ + issue));
        }
        proof {
            reveal_strlit("\n");
            assert("\n"@ =~= seq!['\n']);
        }
        assert(r@ =~= self.spec_report_text());
        r
    }
}

impl InstalledOverrideStatus {
    pub open spec fn spec_has_any_override(&self) -> bool {
        self.firmware_present || self.mkinitcpio_references_firmware
            || self.bootloader_references_kernel_parameter
            || self.limine_entry_tool_references_kernel_parameter
            || self.active_kernel_references_kernel_parameter
    }

    pub open spec fn spec_is_active(&self) -> bool {
        self.firmware_present && self.active_kernel_references_kernel_parameter
    }

    pub open spec fn spec_is_configured_for_next_boot(&self) -> bool {
        self.firmware_present && self.bootloader_cmdline_entries > 0
            && self.bootloader_cmdline_entries
            == self.bootloader_cmdline_entries_with_kernel_parameter
    }

    pub fn has_any_override(&self) -> (r: bool)
        ensures
            r == self.spec_has_any_override(),
    {
        self.firmware_present || self.mkinitcpio_references_firmware
            || self.bootloader_references_kernel_parameter
            || self.limine_entry_tool_references_kernel_parameter
            || self.active_kernel_references_kernel_parameter
    }

    pub fn is_active(&self) -> (r: bool)
        ensures
            r == self.spec_is_active(),
            r ==> self.firmware_present && self.active_kernel_references_kernel_parameter,
    {
        self.firmware_present && self.active_kernel_references_kernel_parameter
    }

    pub fn is_configured_for_next_boot(&self) -> (r: bool)
        ensures
            r == self.spec_is_configured_for_next_boot(),
    {
        self.firmware_present && self.bootloader_cmdline_entries > 0
            && self.bootloader_cmdline_entries
            == self.bootloader_cmdline_entries_with_kernel_parameter
    }

    pub open spec fn spec_short_label(&self) -> Seq<char> {
        if self.spec_is_active() {
            "active"@
        } else if self.spec_is_configured_for_next_boot() {
            "installed, reboot pending"@
        } else if self.spec_has_any_override() {
            "partial install"@
        } else {
            "not installed"@
        }
    }

    pub fn short_label(&self) -> (r: &'static str)
        ensures
            r@ == self.spec_short_label(),
    {
        if self.is_active() {
            "active"
        } else if self.is_configured_for_next_boot() {
            "installed, reboot pending"
        } else if self.has_any_override() {
            "partial install"
        } else {
            "not installed"
        }
    }
}

/// The mkinitcpio config the scripts patch.
pub const MKINITCPIO_CONF: &'static str = "/etc/mkinitcpio.conf";

/// The Limine config the scripts patch.
pub const LIMINE_CONF: &'static str = "/boot/limine.conf";

/// The Limine entry-tool drop-in the scripts manage.
pub const LIMINE_ENTRY_TOOL_DROPIN: &'static str = "/etc/limine-entry-tool.d/drmcru-edid.conf";

impl UninstallPreview {
    pub fn from_plan(plan: &UninstallPlan) -> (r: Self)
        ensures
            r.connector@ == plan.connector@,
            r.firmware_target@ == firmware_path(plan.edid_file_name@),
            r.mkinitcpio_conf@ == MKINITCPIO_CONF@,
            r.bootloader_conf@ == LIMINE_CONF@,
            r.limine_entry_tool_dropin@ == LIMINE_ENTRY_TOOL_DROPIN@,
            r.kernel_parameter@ == plan.kernel_parameter@,
    {
        UninstallPreview {
            connector: plan.connector.clone(),
            firmware_target: plan.firmware_target(),
            mkinitcpio_conf: string_from(MKINITCPIO_CONF),
            bootloader_conf: string_from(LIMINE_CONF),
            limine_entry_tool_dropin: string_from(LIMINE_ENTRY_TOOL_DROPIN),
            kernel_parameter: plan.kernel_parameter.clone(),
        }
    }

    pub open spec fn spec_summary_lines(&self) -> Seq<Seq<char>> {
        seq![
            "Connector:  "@ + self.connector@,
            "Remove:     "@ + self.firmware_target@,
            "Patch:      "@ + self.mkinitcpio_conf@ + " (remove EDID from FILES)"@,
            "Patch:      "@ + self.bootloader_conf@
                + " (remove kernel param from cmdline entries)"@,
            "Patch:      "@ + self.limine_entry_tool_dropin@
                + " (remove persistent Limine entry-tool param)"@,
            "Parameter:  "@ + self.kernel_parameter@,
            "Run:        limine-mkinitcpio when present, otherwise mkinitcpio -P"@,
        ]
    }

    pub fn summary_lines(&self) -> (r: Vec<String>)
        ensures
            r.deep_view() == self.spec_summary_lines(),
    {
        let mut lines: Vec<String> = Vec::new();
        push_line(&mut lines, line_of("Connector:  ", self.connector.as_str()));
        push_line(&mut lines, line_of("Remove:     ", self.firmware_target.as_str()));
        let mut l = line_of("Patch:      ", self.mkinitcpio_conf.as_str());
        push_str(&mut l, " (remove EDID from FILES)");
        push_line(&mut lines, l);
        let mut l = line_of("Patch:      ", self.bootloader_conf.as_str());
        push_str(&mut l, " (remove kernel param from cmdline entries)");
        push_line(&mut lines, l);
        let mut l = line_of("Patch:      ", self.limine_entry_tool_dropin.as_str());
        push_str(&mut l, " (remove persistent Limine entry-tool param)");
        push_line(&mut lines, l);
        push_line(&mut lines, line_of("Parameter:  ", self.kernel_parameter.as_str()));
        push_line(
            &mut lines,
            string_from("Run:        limine-mkinitcpio when present, otherwise mkinitcpio -P"),
        );
        assert(lines.deep_view() =~= self.spec_summary_lines());
        lines
    }
}

impl InstallPreview {
    pub fn from_plan(plan: &InstallPlan) -> (r: Self)
        ensures
            r.connector@ == plan.connector@,
            r.edid_source@ == plan.edid_source@,
            r.firmware_target@ == firmware_path(plan.edid_file_name@),
            r.mkinitcpio_conf@ == MKINITCPIO_CONF@,
            r.bootloader_conf@ == LIMINE_CONF@,
            r.limine_entry_tool_dropin@ == LIMINE_ENTRY_TOOL_DROPIN@,
            r.kernel_parameter@ == plan.kernel_parameter@,
    {
        InstallPreview {
            connector: plan.connector.clone(),
            edid_source: plan.edid_source.clone(),
            firmware_target: plan.firmware_target(),
            mkinitcpio_conf: string_from(MKINITCPIO_CONF),
            bootloader_conf: string_from(LIMINE_CONF),
            limine_entry_tool_dropin: string_from(LIMINE_ENTRY_TOOL_DROPIN),
            kernel_parameter: plan.kernel_parameter.clone(),
        }
    }

    pub open spec fn spec_summary_lines(&self) -> Seq<Seq<char>> {
        seq![
            "Connector:  "@ + self.connector@,
            "Copy EDID:  "@ + self.edid_source@ + " → "@ + self.firmware_target@,
            "Patch:      "@ + self.mkinitcpio_conf@ + " (add EDID to FILES)"@,
            "Patch:      "@ + self.bootloader_conf@ + " (add kernel param to cmdline entries)"@,
            "Patch:      "@ + self.limine_entry_tool_dropin@
                + " (add persistent Limine entry-tool param)"@,
            "Parameter:  "@ + self.kernel_parameter@,
            "Run:        limine-mkinitcpio when present, otherwise mkinitcpio -P"@,
        ]
    }

    pub fn summary_lines(&self) -> (r: Vec<String>)
        ensures
            r.deep_view() == self.spec_summary_lines(),
    {
        let mut lines: Vec<String> = Vec::new();
        push_line(&mut lines, line_of("Connector:  ", self.connector.as_str()));
        let mut l = line_of("Copy EDID:  ", self.edid_source.as_str());
        push_str(&mut l, " → ");
        push_str(&mut l, self.firmware_target.as_str());
        push_line(&mut lines, l);
        let mut l = line_of("Patch:      ", self.mkinitcpio_conf.as_str());
        push_str(&mut l, " (add EDID to FILES)");
        push_line(&mut lines, l);
        let mut l = line_of("Patch:      ", self.bootloader_conf.as_str());
        push_str(&mut l, " (add kernel param to cmdline entries)");
        push_line(&mut lines, l);
        let mut l = line_of("Patch:      ", self.limine_entry_tool_dropin.as_str());
        push_str(&mut l, " (add persistent Limine entry-tool param)");
        push_line(&mut lines, l);
        push_line(&mut lines, line_of("Parameter:  ", self.kernel_parameter.as_str()));
        push_line(
            &mut lines,
            string_from("Run:        limine-mkinitcpio when present, otherwise mkinitcpio -P"),
        );
        assert(lines.deep_view() =~= self.spec_summary_lines());
        lines
    }
}


/// The kernel parameter name that maps connectors to EDID files.
pub open spec fn kernel_prefix() -> Seq<char> {
    "drm.edid_firmware="@
}

/// Whether a command-line token sets `drm.edid_firmware=` with `expected` among
/// its comma-separated mappings.
pub open spec fn token_has_mapping(token: Seq<char>, expected: Seq<char>) -> bool {
    starts_at(token, 0, kernel_prefix()) && split_pieces(token.skip(kernel_prefix().len() as int), 1).contains(
        expected,
    )
}

/// Whether `contents` maps a connector as the `drm.edid_firmware=` parameter
/// `kernel_parameter` does: some token of `contents` (split at whitespace,
/// quotes and semicolons) sets the parameter with that mapping among its
/// comma-separated ones.
pub open spec fn spec_contains_kernel_mapping(contents: Seq<char>, kernel_parameter: Seq<char>) -> bool {
    let tokens = split_pieces(contents, 0);
    &&& starts_at(kernel_parameter, 0, kernel_prefix())
    &&& exists|i: int|
        0 <= i < tokens.len() && token_has_mapping(
            #[trigger] tokens[i],
            kernel_parameter.skip(kernel_prefix().len() as int),
        )
}

/// Whether `contents` holds the connector mapping of `kernel_parameter`.
pub fn text_contains_kernel_mapping(contents: &str, kernel_parameter: &str) -> (r: bool)
    ensures
        r == spec_contains_kernel_mapping(contents@, kernel_parameter@),
{
    let prefix = chars_of("drm.edid_firmware=");
    let kp = chars_of(kernel_parameter);
    if !matches_at(&kp, 0, &prefix) {
        return false;
    }
    let expected = slice_chars(&kp, prefix.len(), kp.len());
    let tokens = split_chars(&chars_of(contents), 0);
    let ghost tv = tokens.deep_view();
    let mut i: usize = 0;
    while i < tokens.len()
        invariant
            tv == tokens.deep_view(),
            tv == split_pieces(contents@, 0),
            prefix@ == kernel_prefix(),
            starts_at(kernel_parameter@, 0, kernel_prefix()),
            expected@ == kernel_parameter@.skip(kernel_prefix().len() as int),
            0 <= i <= tv.len(),
            forall|k: int| 0 <= k < i ==> !token_has_mapping(#[trigger] tv[k], expected@),
        decreases tv.len() - i,
    {
        let token = &tokens[i];
        proof {
            lemma_chars_deep_view(*token);
        }
        if matches_at(token, 0, &prefix) {
            let value = slice_chars(token, prefix.len(), token.len());
            assert(value@ =~= tv[i as int].skip(kernel_prefix().len() as int));
            let maps = split_chars(&value, 1);
            let ghost mv = maps.deep_view();
            let mut j: usize = 0;
            while j < maps.len()
                invariant
                    mv == maps.deep_view(),
                    mv == split_pieces(value@, 1),
                    tv == tokens.deep_view(),
                    tv == split_pieces(contents@, 0),
                    starts_at(kernel_parameter@, 0, kernel_prefix()),
                    expected@ == kernel_parameter@.skip(kernel_prefix().len() as int),
                    0 <= i < tv.len(),
                    prefix@ == kernel_prefix(),
                    starts_at(tv[i as int], 0, kernel_prefix()),
                    value@ == tv[i as int].skip(kernel_prefix().len() as int),
                    0 <= j <= mv.len(),
                    forall|m: int| 0 <= m < j ==> mv[m] != expected@,
                decreases mv.len() - j,
            {
                proof {
                    lemma_chars_deep_view(maps@[j as int]);
                }
                if chars_equal(&maps[j], &expected) {
                    assert(mv[j as int] == expected@);
                    assert(token_has_mapping(tv[i as int], expected@));
                    return true;
                }
                j = j + 1;
            }
        }
        i = i + 1;
    }
    false
}

/// Accepts a firmware file name only when it is not empty and names no directory.
pub fn validate_firmware_file_name(edid_file_name: &str) -> (r: Result<(), InstallError>)
    ensures
        match r {
            Ok(_) => edid_file_name@.len() > 0 && !edid_file_name@.contains('/')
                && !edid_file_name@.contains('\\'),
            Err(e) => (edid_file_name@.len() == 0 || edid_file_name@.contains('/')
                || edid_file_name@.contains('\\')) && (e matches InstallError::UnsafeFirmwareName(n)
                && n@ == edid_file_name@),
        },
{
    let chars = chars_of(edid_file_name);
    if chars.len() == 0 || has_char(&chars, '/') || has_char(&chars, '\\') {
        return Err(InstallError::UnsafeFirmwareName(string_from(edid_file_name)));
    }
    Ok(())
}

/// `s` with each single quote written as `'\''`.
pub open spec fn quote_escaped(s: Seq<char>) -> Seq<char>
    decreases s.len(),
{
    if s.len() == 0 {
        Seq::empty()
    } else {
        quote_escaped(s.drop_last()) + if s.last() == '\'' {
            seq!['\'', '\\', '\'', '\'']
        } else {
            seq![s.last()]
        }
    }
}

/// `s` as one single-quoted shell word.
pub open spec fn shell_quoted(s: Seq<char>) -> Seq<char> {
    seq!['\''] + quote_escaped(s) + seq!['\'']
}

/// Appends `value` as one single-quoted shell word.
fn push_shell_quoted(s: &mut String, value: &str)
    ensures
        final(s)@ == old(s)@ + shell_quoted(value@),
{
    let chars = chars_of(value);
    push_char(s, '\'');
    let ghost start = s@;
    let mut i: usize = 0;
    while i < chars.len()
        invariant
            0 <= i <= chars@.len(),
            chars@ == value@,
            s@ == start + quote_escaped(chars@.take(i as int)),
        decreases chars@.len() - i,
    {
        let c = chars[i];
        if c == '\'' {
            push_char(s, '\'');
            push_char(s, '\\');
            push_char(s, '\'');
            push_char(s, '\'');
        } else {
            push_char(s, c);
        }
        proof {
            assert(chars@.take(i + 1).drop_last() =~= chars@.take(i as int));
        }
        i = i + 1;
        assert(s@ =~= start + quote_escaped(chars@.take(i as int)));
    }
    push_char(s, '\'');
    assert(chars@.take(chars@.len() as int) =~= chars@);
    assert(s@ =~= old(s)@ + shell_quoted(value@));
}

pub fn shell_quote(value: &str) -> (r: String)
    ensures
        r@ == shell_quoted(value@),
{
    let mut r = String::new();
    push_shell_quoted(&mut r, value);
    assert(r@ =~= shell_quoted(value@));
    r
}

/// The install script for the given source, target, parameter and connector.
pub open spec fn spec_install_script(
    source: Seq<char>,
    target: Seq<char>,
    kernel_parameter: Seq<char>,
    connector: Seq<char>,
) -> Seq<char> {
    INSTALL_SCRIPT_HEAD@ + shell_quoted(source) + "\nFIRMWARE_TARGET="@ + shell_quoted(target)
        + "\nKERNEL_PARAM="@ + shell_quoted(kernel_parameter) + "\nCONNECTOR="@ + shell_quoted(
        connector,
    ) + INSTALL_SCRIPT_BODY@
}

/// The uninstall script for the given target, parameter and connector.
pub open spec fn spec_uninstall_script(
    target: Seq<char>,
    kernel_parameter: Seq<char>,
    connector: Seq<char>,
) -> Seq<char> {
    UNINSTALL_SCRIPT_HEAD@ + shell_quoted(target) + "\nKERNEL_PARAM="@ + shell_quoted(
        kernel_parameter,
    ) + "\nCONNECTOR="@ + shell_quoted(connector) + UNINSTALL_SCRIPT_BODY@
}

/// The bash script that installs the EDID of `plan`; it checks the supported
/// stack before changing anything and can be run again.
pub fn build_install_script(plan: &InstallPlan) -> (r: String)
    ensures
        r@ == spec_install_script(
            plan.edid_source@,
            firmware_path(plan.edid_file_name@),
            plan.kernel_parameter@,
            plan.connector@,
        ),
{
    let target = plan.firmware_target();
    let mut r = String::from_str(INSTALL_SCRIPT_HEAD);
    push_shell_quoted(&mut r, plan.edid_source.as_str());
    push_str(&mut r, "\nFIRMWARE_TARGET=");
    push_shell_quoted(&mut r, target.as_str());
    push_str(&mut r, "\nKERNEL_PARAM=");
    push_shell_quoted(&mut r, plan.kernel_parameter.as_str());
    push_str(&mut r, "\nCONNECTOR=");
    push_shell_quoted(&mut r, plan.connector.as_str());
    push_str(&mut r, INSTALL_SCRIPT_BODY);
    assert(r@ =~= spec_install_script(
        plan.edid_source@,
        firmware_path(plan.edid_file_name@),
        plan.kernel_parameter@,
        plan.connector@,
    ));
    r
}

/// The bash script that removes the EDID override of `plan`.
pub fn build_uninstall_script(plan: &UninstallPlan) -> (r: String)
    ensures
        r@ == spec_uninstall_script(
            firmware_path(plan.edid_file_name@),
            plan.kernel_parameter@,
            plan.connector@,
        ),
{
    let target = plan.firmware_target();
    let mut r = String::from_str(UNINSTALL_SCRIPT_HEAD);
    push_shell_quoted(&mut r, target.as_str());
    push_str(&mut r, "\nKERNEL_PARAM=");
    push_shell_quoted(&mut r, plan.kernel_parameter.as_str());
    push_str(&mut r, "\nCONNECTOR=");
    push_shell_quoted(&mut r, plan.connector.as_str());
    push_str(&mut r, UNINSTALL_SCRIPT_BODY);
    assert(r@ =~= spec_uninstall_script(
        firmware_path(plan.edid_file_name@),
        plan.kernel_parameter@,
        plan.connector@,
    ));
    r
}

/// Whether a firmware file name is safe to install under /lib/firmware/edid/.
pub open spec fn safe_firmware_name(name: Seq<char>) -> bool {
    name.len() > 0 && !name.contains('/') && !name.contains('\\')
}

/// Decides an install: the script to run with privileges, or why not. The
/// caller says whether the EDID source exists and what the system supports.
pub fn install(plan: &InstallPlan, source_exists: bool, support: &SystemSupportReport) -> (r: Result<
    String,
    InstallError,
>)
    ensures
        match r {
            Ok(script) => safe_firmware_name(plan.edid_file_name@) && source_exists
                && support.spec_blocking_issues().len() == 0 && script@ == spec_install_script(
                plan.edid_source@,
                firmware_path(plan.edid_file_name@),
                plan.kernel_parameter@,
                plan.connector@,
            ),
            Err(InstallError::UnsafeFirmwareName(n)) => !safe_firmware_name(plan.edid_file_name@)
                && n@ == plan.edid_file_name@,
            Err(InstallError::MissingEdid(source)) => safe_firmware_name(plan.edid_file_name@)
                && !source_exists && source@ == plan.edid_source@,
            Err(InstallError::UnsupportedSystem(report)) => safe_firmware_name(
                plan.edid_file_name@,
            ) && source_exists && support.spec_blocking_issues().len() > 0 && report@
                == support.spec_report_text(),
            Err(_) => false,
        },
{
    validate_firmware_file_name(plan.edid_file_name.as_str())?;
    if !source_exists {
        return Err(InstallError::MissingEdid(plan.edid_source.clone()));
    }
    if !support.is_supported() {
        return Err(InstallError::UnsupportedSystem(support.report_text()));
    }
    Ok(build_install_script(plan))
}

/// Decides an uninstall: the script to run with privileges, or why not.
pub fn uninstall(plan: &UninstallPlan, support: &SystemSupportReport) -> (r: Result<
    String,
    InstallError,
>)
    ensures
        match r {
            Ok(script) => safe_firmware_name(plan.edid_file_name@)
                && support.spec_blocking_issues().len() == 0 && script@ == spec_uninstall_script(
                firmware_path(plan.edid_file_name@),
                plan.kernel_parameter@,
                plan.connector@,
            ),
            Err(InstallError::UnsafeFirmwareName(n)) => !safe_firmware_name(plan.edid_file_name@)
                && n@ == plan.edid_file_name@,
            Err(InstallError::UnsupportedSystem(report)) => safe_firmware_name(
                plan.edid_file_name@,
            ) && support.spec_blocking_issues().len() > 0 && report@ == support.spec_report_text(),
            Err(_) => false,
        },
{
    validate_firmware_file_name(plan.edid_file_name.as_str())?;
    if !support.is_supported() {
        return Err(InstallError::UnsupportedSystem(support.report_text()));
    }
    Ok(build_uninstall_script(plan))
}

/// The output a privileged run reports: standard output, then standard error
/// after a marker line when there is any.
pub open spec fn script_output(stdout: Seq<char>, stderr: Seq<char>) -> Seq<char> {
    if stderr.len() == 0 {
        stdout
    } else {
        stdout + "\n--- stderr ---\n"@ + stderr
    }
}

/// What a finished privileged run means: success, a cancelled authorisation
/// (exit 126), or a failure with its exit code (-1 when killed by a signal).
pub fn script_result(success: bool, code: Option<i32>, stdout: &str, stderr: &str) -> (r: Result<
    InstallReport,
    InstallError,
>)
    ensures
        match r {
            Ok(report) => success && report.success && report.output@ == script_output(
                stdout@,
                stderr@,
            ),
            Err(InstallError::Cancelled) => !success && code == Some(126i32),
            Err(InstallError::ScriptFailed { code: c, output }) => !success && c == (match code {
                Some(c) => c,
                None => -1i32,
            }) && c != 126 && output@ == script_output(stdout@, stderr@),
            Err(_) => false,
        },
{
    let mut output = String::from_str(stdout);
    if chars_of(stderr).len() > 0 {
        push_str(&mut output, "\n--- stderr ---\n");
        push_str(&mut output, stderr);
    }
    if success {
        return Ok(InstallReport { success: true, output });
    }
    let c = match code {
        Some(c) => c,
        None => -1,
    };
    if c == 126 {
        Err(InstallError::Cancelled)
    } else {
        Err(InstallError::ScriptFailed { code: c, output })
    }
}

/// How the installed firmware compares with the connector's live EDID, given
/// what reading the firmware file gave: its bytes, `Err(None)` when it is
/// missing, or `Err(Some(message))` when reading failed.
pub fn compare_firmware_to_live_edid(
    firmware: Result<Vec<u8>, Option<String>>,
    live_edid: Option<&[u8]>,
) -> (r: FirmwareEdidComparison)
    ensures
        match live_edid {
            None => r == FirmwareEdidComparison::MissingLiveEdid,
            Some(live) => match firmware {
                Err(None) => r == FirmwareEdidComparison::MissingFirmware,
                Err(Some(message)) => (r matches FirmwareEdidComparison::ReadError(m) && m@
                    == message@),
                Ok(bytes) => if bytes@ == live@ {
                    r == (FirmwareEdidComparison::Matches { bytes: bytes@.len() as usize })
                } else {
                    r == (FirmwareEdidComparison::Differs {
                        firmware_bytes: bytes@.len() as usize,
                        live_bytes: live@.len() as usize,
                    })
                },
            },
        },
{
    let live = match live_edid {
        Some(live) => live,
        None => return FirmwareEdidComparison::MissingLiveEdid,
    };
    let bytes = match firmware {
        Ok(bytes) => bytes,
        Err(None) => return FirmwareEdidComparison::MissingFirmware,
        Err(Some(message)) => return FirmwareEdidComparison::ReadError(message),
    };
    let mut same = bytes.len() == live.len();
    let mut i: usize = 0;
    while same && i < bytes.len()
        invariant
            same ==> bytes@.len() == live@.len(),
            0 <= i <= bytes@.len(),
            same ==> forall|k: int| 0 <= k < i ==> bytes@[k] == live@[k],
            !same ==> bytes@ != live@,
        decreases bytes@.len() - i,
    {
        if bytes[i] != live[i] {
            same = false;
        }
        i = i + 1;
    }
    if same {
        assert(bytes@ =~= live@);
        FirmwareEdidComparison::Matches { bytes: bytes.len() }
    } else {
        FirmwareEdidComparison::Differs { firmware_bytes: bytes.len(), live_bytes: live.len() }
    }
}

/// Whether a line of a Limine config is a `cmdline:` entry.
pub open spec fn is_cmdline_line(line: Seq<char>) -> bool {
    starts_at(trim_start(line), 0, "cmdline:"@)
}

fn cmdline_line(line: &Vec<char>, marker: &Vec<char>) -> (r: bool)
    requires
        marker@ == "cmdline:"@,
    ensures
        r == is_cmdline_line(line@),
{
    let start = leading_ws_end(line, 0, line.len());
    assert(line@.subrange(0, line@.len() as int) =~= line@);
    let r = matches_at(line, start, marker);
    proof {
        let t = trim_start(line@);
        assert(t =~= line@.skip(start as int));
        if start + marker@.len() <= line@.len() {
            assert(t.subrange(0, marker@.len() as int) =~= line@.subrange(
                start as int,
                start + marker@.len(),
            ));
        }
    }
    r
}

/// The `cmdline:` entries among `lines`, and those that hold the mapping of
/// `kernel_parameter`.
pub open spec fn cmdline_counts(lines: Seq<Seq<char>>, kernel_parameter: Seq<char>) -> (nat, nat)
    decreases lines.len(),
{
    if lines.len() == 0 {
        (0, 0)
    } else {
        let (all, with) = cmdline_counts(lines.drop_last(), kernel_parameter);
        let line = lines.last();
        if is_cmdline_line(line) {
            (all + 1, with + if spec_contains_kernel_mapping(line, kernel_parameter) {
                1nat
            } else {
                0
            })
        } else {
            (all, with)
        }
    }
}

/// Whether any line of `text` is a `cmdline:` entry. The lines are the pieces
/// between newlines; a carriage return before a newline, or a last empty piece,
/// never makes a line a `cmdline:` entry nor changes which mappings it holds.
pub open spec fn has_cmdline_line(text: Seq<char>) -> bool {
    cmdline_counts(split_pieces(text, 2), Seq::empty()).0 > 0
}

/// Counts the `cmdline:` entries of `text` and those holding the mapping of
/// `kernel_parameter`.
fn count_cmdlines(text: &str, kernel_parameter: &str) -> (r: (usize, usize))
    ensures
        r.0 == cmdline_counts(split_pieces(text@, 2), kernel_parameter@).0,
        r.1 == cmdline_counts(split_pieces(text@, 2), kernel_parameter@).1,
        r.1 <= r.0,
{
    let marker = chars_of("cmdline:");
    let lines = split_chars(&chars_of(text), 2);
    let ghost lv = lines.deep_view();
    let mut all: usize = 0;
    let mut with: usize = 0;
    let mut i: usize = 0;
    while i < lines.len()
        invariant
            lv == lines.deep_view(),
            lv == split_pieces(text@, 2),
            marker@ == "cmdline:"@,
            0 <= i <= lv.len(),
            all == cmdline_counts(lv.take(i as int), kernel_parameter@).0,
            with == cmdline_counts(lv.take(i as int), kernel_parameter@).1,
            with <= all <= i,
        decreases lv.len() - i,
    {
        proof {
            lemma_chars_deep_view(lines@[i as int]);
            assert(lv.take(i + 1).drop_last() =~= lv.take(i as int));
        }
        if cmdline_line(&lines[i], &marker) {
            all = all + 1;
            let line_text = string_of(&lines[i]);
            if text_contains_kernel_mapping(line_text.as_str(), kernel_parameter) {
                with = with + 1;
            }
        }
        i = i + 1;
    }
    assert(lv.take(lv.len() as int) =~= lv);
    (all, with)
}

/// Why an inspection of `label` at `path` failed with `error`.
pub open spec fn inspect_warning(label: Seq<char>, path: Seq<char>, error: Seq<char>) -> Seq<char> {
    "Could not inspect "@ + label + " "@ + path + ": "@ + error
}

/// Why reading `label` at `path` failed with `error`.
pub open spec fn read_warning(label: Seq<char>, path: Seq<char>, error: Seq<char>) -> Seq<char> {
    "Could not read "@ + label + " "@ + path + ": "@ + error
}

fn warning_text(verb: &str, label: &str, path: &str, error: &str) -> (r: String)
    ensures
        r@ == "Could not "@ + verb@ + " "@ + label@ + " "@ + path@ + ": "@ + error@,
{
    let mut r = String::from_str("Could not ");
    push_str(&mut r, verb);
    push_str(&mut r, " ");
    push_str(&mut r, label);
    push_str(&mut r, " ");
    push_str(&mut r, path);
    push_str(&mut r, ": ");
    push_str(&mut r, error);
    assert(r@ =~= "Could not "@ + verb@ + " "@ + label@ + " "@ + path@ + ": "@ + error@);
    r
}

/// What the caller found on the system for the support check.
#[derive(Debug)]
pub struct SystemFacts {
    pub pkexec_available: bool,
    pub mkinitcpio_available: bool,
    pub limine_mkinitcpio_available: bool,
    /// Looking for the mkinitcpio config.
    pub mkinitcpio_conf: PathProbe,
    /// Looking for `*.preset` files in the mkinitcpio preset directory
    /// (`Missing` when there are none or the directory does not exist).
    pub mkinitcpio_presets: PathProbe,
    /// Looking for the Limine config.
    pub limine_conf: PathProbe,
    /// Reading the Limine config, when it is present: its text or the error.
    pub limine_conf_text: Result<String, String>,
}

/// Whether a probe found its path.
pub open spec fn probe_found(p: PathProbe) -> bool {
    p is Present
}

/// The warning a probe of `label` at `path` leaves, if it failed.
pub open spec fn probe_warning(p: PathProbe, label: Seq<char>, path: Seq<char>) -> Seq<Seq<char>> {
    match p {
        PathProbe::Failed(e) => seq![inspect_warning(label, path, e@)],
        _ => Seq::empty(),
    }
}

/// The support report for the given config paths and facts.
pub open spec fn spec_support_report(
    mkinitcpio_conf: Seq<char>,
    mkinitcpio_dir: Seq<char>,
    limine_conf: Seq<char>,
    facts: SystemFacts,
) -> (bool, bool, bool, bool, Seq<Seq<char>>) {
    let conf_present = probe_found(facts.mkinitcpio_conf);
    let presets_present = probe_found(facts.mkinitcpio_presets);
    let limine_present = probe_found(facts.limine_conf);
    let warnings = probe_warning(facts.mkinitcpio_conf, "mkinitcpio config"@, mkinitcpio_conf)
        + probe_warning(facts.mkinitcpio_presets, "mkinitcpio preset directory"@, mkinitcpio_dir)
        + probe_warning(facts.limine_conf, "Limine config"@, limine_conf);
    if !limine_present {
        (conf_present, presets_present, false, false, warnings)
    } else {
        match facts.limine_conf_text {
            Ok(text) => (conf_present, presets_present, true, has_cmdline_line(text@), warnings),
            Err(e) => (
                conf_present,
                presets_present,
                true,
                false,
                warnings.push(read_warning("Limine config"@, limine_conf, e@)),
            ),
        }
    }
}

fn probe(p: &PathProbe, label: &str, path: &str, warnings: &mut Vec<String>) -> (r: bool)
    ensures
        r == probe_found(*p),
        final(warnings).deep_view() == old(warnings).deep_view() + probe_warning(*p, label@, path@),
{
    let ghost before = warnings.deep_view();
    match p {
        PathProbe::Present => {
            assert(warnings.deep_view() =~= before + probe_warning(*p, label@, path@));
            true
        },
        PathProbe::Missing => {
            assert(warnings.deep_view() =~= before + probe_warning(*p, label@, path@));
            false
        },
        PathProbe::Failed(e) => {
            push_line(warnings, warning_text("inspect", label, path, e.as_str()));
            proof {
                reveal_strlit("inspect");
                reveal_strlit("Could not ");
                reveal_strlit("Could not inspect ");
                reveal_strlit(" ");
                assert("Could not "@ + "inspect"@ + " "@ =~= "Could not inspect "@);
            }
            assert(warnings.deep_view() =~= before + probe_warning(*p, label@, path@));
            false
        },
    }
}

/// The support report for the given config paths and what the caller found.
pub fn inspect_system_support_with_paths(
    mkinitcpio_conf: &str,
    mkinitcpio_dir: &str,
    limine_conf: &str,
    facts: &SystemFacts,
) -> (r: SystemSupportReport)
    ensures
        ({
            let (conf, presets, limine, cmdline, warnings) = spec_support_report(
                mkinitcpio_conf@,
                mkinitcpio_dir@,
                limine_conf@,
                *facts,
            );
            &&& r.pkexec_available == facts.pkexec_available
            &&& r.mkinitcpio_available == facts.mkinitcpio_available
            &&& r.limine_mkinitcpio_available == facts.limine_mkinitcpio_available
            &&& r.mkinitcpio_conf_present == conf
            &&& r.mkinitcpio_presets_present == presets
            &&& r.limine_conf_present == limine
            &&& r.limine_has_cmdline == cmdline
            &&& r.read_warnings.deep_view() == warnings
        }),
{
    let mut read_warnings: Vec<String> = Vec::new();
    let conf_present = probe(
        &facts.mkinitcpio_conf,
        "mkinitcpio config",
        mkinitcpio_conf,
        &mut read_warnings,
    );
    let presets_present = probe(
        &facts.mkinitcpio_presets,
        "mkinitcpio preset directory",
        mkinitcpio_dir,
        &mut read_warnings,
    );
    let limine_present = probe(
        &facts.limine_conf,
        "Limine config",
        limine_conf,
        &mut read_warnings,
    );
    let has_cmdline = if limine_present {
        match &facts.limine_conf_text {
            Ok(text) => {
                let (all, _) = count_cmdlines(text.as_str(), "");
                all > 0
            },
            Err(error) => {
                push_line(
                    &mut read_warnings,
                    warning_text("read", "Limine config", limine_conf, error.as_str()),
                );
                false
            },
        }
    } else {
        false
    };
    proof {
        reveal_strlit("");
        assert(""@ =~= Seq::<char>::empty());
        reveal_strlit("read");
        reveal_strlit("Could not ");
        reveal_strlit("Could not read ");
        reveal_strlit(" ");
        assert("Could not "@ + "read"@ + " "@ =~= "Could not read "@);
        let (conf, presets, limine, cmdline, warnings) = spec_support_report(
            mkinitcpio_conf@,
            mkinitcpio_dir@,
            limine_conf@,
            *facts,
        );
        assert(read_warnings.deep_view() =~= warnings);
    }
    SystemSupportReport {
        pkexec_available: facts.pkexec_available,
        mkinitcpio_available: facts.mkinitcpio_available,
        mkinitcpio_conf_present: conf_present,
        mkinitcpio_presets_present: presets_present,
        limine_mkinitcpio_available: facts.limine_mkinitcpio_available,
        limine_conf_present: limine_present,
        limine_has_cmdline: has_cmdline,
        read_warnings,
    }
}

/// The support report for the standard locations of the configs.
pub fn inspect_system_support(facts: &SystemFacts) -> (r: SystemSupportReport)
    ensures
        ({
            let (conf, presets, limine, cmdline, warnings) = spec_support_report(
                MKINITCPIO_CONF@,
                "/etc/mkinitcpio.d"@,
                LIMINE_CONF@,
                *facts,
            );
            &&& r.pkexec_available == facts.pkexec_available
            &&& r.mkinitcpio_available == facts.mkinitcpio_available
            &&& r.limine_mkinitcpio_available == facts.limine_mkinitcpio_available
            &&& r.mkinitcpio_conf_present == conf
            &&& r.mkinitcpio_presets_present == presets
            &&& r.limine_conf_present == limine
            &&& r.limine_has_cmdline == cmdline
            &&& r.read_warnings.deep_view() == warnings
        }),
{
    inspect_system_support_with_paths(MKINITCPIO_CONF, "/etc/mkinitcpio.d", LIMINE_CONF, facts)
}


/// The files an override inspection reads.
#[derive(Debug, Clone)]
pub struct OverridePaths {
    pub firmware_target: String,
    pub mkinitcpio_conf: String,
    pub bootloader_conf: String,
    pub limine_entry_tool_dropin: String,
    pub active_cmdline: String,
}

/// What the caller found at those paths.
#[derive(Debug, Clone)]
pub struct OverrideFacts {
    pub firmware: PathProbe,
    pub mkinitcpio_conf: FileRead,
    pub bootloader_conf: FileRead,
    pub limine_entry_tool_dropin: FileRead,
    pub active_cmdline: FileRead,
}

/// The warning a failed read of `label` at `path` leaves.
pub open spec fn read_failure(f: FileRead, label: Seq<char>, path: Seq<char>) -> Seq<Seq<char>> {
    match f {
        FileRead::Failed(e) => seq![read_warning(label, path, e@)],
        _ => Seq::empty(),
    }
}

/// Whether a read file contains `needle` (false when it could not be read).
pub open spec fn read_contains(f: FileRead, needle: Seq<char>) -> bool {
    match f {
        FileRead::Text(t) => contains_seq(t@, needle),
        _ => false,
    }
}

/// Whether a read file holds the mapping of `kernel_parameter`.
pub open spec fn read_has_mapping(f: FileRead, kernel_parameter: Seq<char>) -> bool {
    match f {
        FileRead::Text(t) => spec_contains_kernel_mapping(t@, kernel_parameter),
        _ => false,
    }
}

/// The `cmdline:` entry counts of a read Limine config.
pub open spec fn read_cmdline_counts(f: FileRead, kernel_parameter: Seq<char>) -> (nat, nat) {
    match f {
        FileRead::Text(t) => cmdline_counts(split_pieces(t@, 2), kernel_parameter),
        _ => (0, 0),
    }
}

fn note_read_failure(f: &FileRead, label: &str, path: &str, warnings: &mut Vec<String>)
    ensures
        final(warnings).deep_view() == old(warnings).deep_view() + read_failure(*f, label@, path@),
{
    let ghost before = warnings.deep_view();
    if let FileRead::Failed(e) = f {
        push_line(warnings, warning_text("read", label, path, e.as_str()));
        proof {
            reveal_strlit("read");
            reveal_strlit("Could not ");
            reveal_strlit("Could not read ");
            reveal_strlit(" ");
            assert("Could not "@ + "read"@ + " "@ =~= "Could not read "@);
        }
    }
    assert(warnings.deep_view() =~= before + read_failure(*f, label@, path@));
}

/// What an inspection of drmcru's override finds.
pub open spec fn spec_override_warnings(
    paths: OverridePaths,
    facts: OverrideFacts,
) -> Seq<Seq<char>> {
    probe_warning(facts.firmware, "firmware target"@, paths.firmware_target@) + read_failure(
        facts.mkinitcpio_conf,
        "mkinitcpio config"@,
        paths.mkinitcpio_conf@,
    ) + read_failure(facts.bootloader_conf, "bootloader config"@, paths.bootloader_conf@)
        + read_failure(
        facts.limine_entry_tool_dropin,
        "Limine entry-tool drop-in"@,
        paths.limine_entry_tool_dropin@,
    ) + read_failure(facts.active_cmdline, "active kernel command line"@, paths.active_cmdline@)
}

/// Whether drmcru's override for `connector` appears installed, from what
/// the caller found at `paths`: the firmware file, its entry in the mkinitcpio
/// config, the kernel parameter in the Limine config's `cmdline:` entries, in
/// the entry-tool drop-in and in the running kernel's command line.
pub fn inspect_override_with_paths(
    connector: &str,
    edid_file_name: &str,
    kernel_parameter: &str,
    paths: &OverridePaths,
    facts: &OverrideFacts,
) -> (r: InstalledOverrideStatus)
    ensures
        r.connector@ == connector@,
        r.edid_file_name@ == edid_file_name@,
        r.kernel_parameter@ == kernel_parameter@,
        r.firmware_target@ == paths.firmware_target@,
        r.firmware_present == probe_found(facts.firmware),
        r.mkinitcpio_references_firmware == read_contains(
            facts.mkinitcpio_conf,
            paths.firmware_target@,
        ),
        r.bootloader_cmdline_entries == read_cmdline_counts(
            facts.bootloader_conf,
            kernel_parameter@,
        ).0,
        r.bootloader_cmdline_entries_with_kernel_parameter == read_cmdline_counts(
            facts.bootloader_conf,
            kernel_parameter@,
        ).1,
        r.bootloader_references_kernel_parameter == (read_cmdline_counts(
            facts.bootloader_conf,
            kernel_parameter@,
        ).1 > 0),
        r.limine_entry_tool_references_kernel_parameter == read_has_mapping(
            facts.limine_entry_tool_dropin,
            kernel_parameter@,
        ),
        r.active_kernel_references_kernel_parameter == read_has_mapping(
            facts.active_cmdline,
            kernel_parameter@,
        ),
        r.read_warnings.deep_view() == spec_override_warnings(*paths, *facts),
{
    let mut read_warnings: Vec<String> = Vec::new();
    let firmware_present = probe(
        &facts.firmware,
        "firmware target",
        paths.firmware_target.as_str(),
        &mut read_warnings,
    );
    let ghost w1 = read_warnings.deep_view();
    note_read_failure(
        &facts.mkinitcpio_conf,
        "mkinitcpio config",
        paths.mkinitcpio_conf.as_str(),
        &mut read_warnings,
    );
    let mkinitcpio_references_firmware = match &facts.mkinitcpio_conf {
        FileRead::Text(t) => contains_chars(
            &chars_of(t.as_str()),
            &chars_of(paths.firmware_target.as_str()),
        ),
        _ => false,
    };
    let ghost w2 = read_warnings.deep_view();
    note_read_failure(
        &facts.bootloader_conf,
        "bootloader config",
        paths.bootloader_conf.as_str(),
        &mut read_warnings,
    );
    let (entries, with_parameter) = match &facts.bootloader_conf {
        FileRead::Text(t) => count_cmdlines(t.as_str(), kernel_parameter),
        _ => (0, 0),
    };
    let ghost w3 = read_warnings.deep_view();
    note_read_failure(
        &facts.limine_entry_tool_dropin,
        "Limine entry-tool drop-in",
        paths.limine_entry_tool_dropin.as_str(),
        &mut read_warnings,
    );
    let dropin_mapping = match &facts.limine_entry_tool_dropin {
        FileRead::Text(t) => text_contains_kernel_mapping(t.as_str(), kernel_parameter),
        _ => false,
    };
    let ghost w4 = read_warnings.deep_view();
    note_read_failure(
        &facts.active_cmdline,
        "active kernel command line",
        paths.active_cmdline.as_str(),
        &mut read_warnings,
    );
    let active_mapping = match &facts.active_cmdline {
        FileRead::Text(t) => text_contains_kernel_mapping(t.as_str(), kernel_parameter),
        _ => false,
    };
    assert(read_warnings.deep_view() =~= spec_override_warnings(*paths, *facts));
    InstalledOverrideStatus {
        connector: string_from(connector),
        edid_file_name: string_from(edid_file_name),
        kernel_parameter: string_from(kernel_parameter),
        firmware_target: paths.firmware_target.clone(),
        firmware_present,
        mkinitcpio_references_firmware,
        bootloader_references_kernel_parameter: with_parameter > 0,
        limine_entry_tool_references_kernel_parameter: dropin_mapping,
        bootloader_cmdline_entries: entries,
        bootloader_cmdline_entries_with_kernel_parameter: with_parameter,
        active_kernel_references_kernel_parameter: active_mapping,
        read_warnings,
    }
}

/// The standard locations an installed override is looked for at.
pub open spec fn standard_override_paths(plan: UninstallPlan, paths: OverridePaths) -> bool {
    &&& paths.firmware_target@ == firmware_path(plan.edid_file_name@)
    &&& paths.mkinitcpio_conf@ == MKINITCPIO_CONF@
    &&& paths.bootloader_conf@ == LIMINE_CONF@
    &&& paths.limine_entry_tool_dropin@ == LIMINE_ENTRY_TOOL_DROPIN@
    &&& paths.active_cmdline@ == "/proc/cmdline"@
}

/// The paths `inspect_installed_override` reads for `plan`.
pub fn override_paths(plan: &UninstallPlan) -> (r: OverridePaths)
    ensures
        standard_override_paths(*plan, r),
{
    OverridePaths {
        firmware_target: plan.firmware_target(),
        mkinitcpio_conf: string_from(MKINITCPIO_CONF),
        bootloader_conf: string_from(LIMINE_CONF),
        limine_entry_tool_dropin: string_from(LIMINE_ENTRY_TOOL_DROPIN),
        active_cmdline: string_from("/proc/cmdline"),
    }
}

/// Whether the override of `plan` appears installed, from what the caller
/// found at the standard locations (see `override_paths`).
pub fn inspect_installed_override(plan: &UninstallPlan, facts: &OverrideFacts) -> (r:
    InstalledOverrideStatus)
    ensures
        exists|paths: OverridePaths|
            standard_override_paths(*plan, paths) && r.firmware_target@ == paths.firmware_target@
                && r.read_warnings.deep_view() == spec_override_warnings(paths, *facts),
        r.connector@ == plan.connector@,
        r.edid_file_name@ == plan.edid_file_name@,
        r.kernel_parameter@ == plan.kernel_parameter@,
        r.firmware_present == probe_found(facts.firmware),
        r.mkinitcpio_references_firmware == read_contains(
            facts.mkinitcpio_conf,
            firmware_path(plan.edid_file_name@),
        ),
        r.bootloader_cmdline_entries == read_cmdline_counts(
            facts.bootloader_conf,
            plan.kernel_parameter@,
        ).0,
        r.bootloader_cmdline_entries_with_kernel_parameter == read_cmdline_counts(
            facts.bootloader_conf,
            plan.kernel_parameter@,
        ).1,
        r.bootloader_references_kernel_parameter == (read_cmdline_counts(
            facts.bootloader_conf,
            plan.kernel_parameter@,
        ).1 > 0),
        r.limine_entry_tool_references_kernel_parameter == read_has_mapping(
            facts.limine_entry_tool_dropin,
            plan.kernel_parameter@,
        ),
        r.active_kernel_references_kernel_parameter == read_has_mapping(
            facts.active_cmdline,
            plan.kernel_parameter@,
        ),
{
    let paths = override_paths(plan);
    inspect_override_with_paths(
        plan.connector.as_str(),
        plan.edid_file_name.as_str(),
        plan.kernel_parameter.as_str(),
        &paths,
        facts,
    )
}

/// The install script up to the value of `EDID_SOURCE`.
pub const INSTALL_SCRIPT_HEAD: &'static str = r###"#!/bin/bash
set -euo pipefail

echo "=== drmcru: installing custom EDID ==="

if [ "$(id -u)" -ne 0 ]; then
    echo "[ERR] This installer must run as root." >&2
    exit 1
fi

EDID_SOURCE="###;

/// The install script after the value of `CONNECTOR`.
pub const INSTALL_SCRIPT_BODY: &'static str = r###"
MKINIT="/etc/mkinitcpio.conf"
LIMINE="/boot/limine.conf"
LIMINE_DROPIN_DIR="/etc/limine-entry-tool.d"
LIMINE_DROPIN="$LIMINE_DROPIN_DIR/drmcru-edid.conf"
BACKUP_SUFFIX=".drmcru.$(date +%Y%m%d-%H%M%S-%N)-$$.bak"
declare -a BACKUP_ORIGINALS=()
declare -a BACKUP_PATHS=()
FIRMWARE_WAS_PRESENT=0

backup_file() {
    local file="$1"
    local backup="${file}${BACKUP_SUFFIX}"
    cp -a -- "$file" "$backup"
    BACKUP_ORIGINALS+=("$file")
    BACKUP_PATHS+=("$backup")
    echo "[OK] Backup: $backup"
}

rollback() {
    local status="$?"
    trap - ERR
    echo "[ERR] Apply failed; restoring files changed by this run." >&2
    local i
    for ((i=${#BACKUP_ORIGINALS[@]} - 1; i >= 0; i--)); do
        cp -a -- "${BACKUP_PATHS[$i]}" "${BACKUP_ORIGINALS[$i]}" || true
    done
    if [ "$FIRMWARE_WAS_PRESENT" -eq 0 ]; then
        rm -f -- "$FIRMWARE_TARGET" || true
    fi
    exit "$status"
}

if [ ! -f "$EDID_SOURCE" ]; then
    echo "[ERR] EDID source does not exist: $EDID_SOURCE" >&2
    exit 1
fi

if [ ! -f "$MKINIT" ]; then
    echo "[ERR] /etc/mkinitcpio.conf not found — automatic Apply supports mkinitcpio only" >&2
    exit 1
fi

if [ ! -f "$LIMINE" ]; then
    echo "[ERR] /boot/limine.conf not found — automatic Apply supports Limine only" >&2
    exit 1
fi

if ! grep -qE '^[[:space:]]*cmdline:' "$LIMINE"; then
    echo "[ERR] /boot/limine.conf has no cmdline entries" >&2
    exit 1
fi

if ! command -v mkinitcpio >/dev/null 2>&1; then
    echo "[ERR] mkinitcpio was not found" >&2
    exit 1
fi

if ! command -v limine-mkinitcpio >/dev/null 2>&1 && ! compgen -G "/etc/mkinitcpio.d/*.preset" >/dev/null; then
    echo "[ERR] No initramfs rebuild backend found (expected limine-mkinitcpio or mkinitcpio presets)" >&2
    exit 1
fi

if [ -e "$FIRMWARE_TARGET" ]; then
    FIRMWARE_WAS_PRESENT=1
    backup_file "$FIRMWARE_TARGET"
fi
trap rollback ERR

# 1. Copy EDID to firmware directory
install -D -m 0644 -- "$EDID_SOURCE" "$FIRMWARE_TARGET"
echo "[OK] Installed EDID to $FIRMWARE_TARGET"

# 2. Patch /etc/mkinitcpio.conf — add EDID to FILES if not already present
if [ -f "$MKINIT" ]; then
    if grep -qF -- "$FIRMWARE_TARGET" "$MKINIT" 2>/dev/null; then
        echo "[OK] EDID already in mkinitcpio FILES (skipped)"
    else
        backup_file "$MKINIT"
        TMP="$(mktemp /tmp/drmcru-mkinitcpio.XXXXXX)"
        awk -v path="$FIRMWARE_TARGET" '
            BEGIN { inserted = 0 }
            /^[[:space:]]*FILES=\(/ && !inserted {
                sub(/\(/, "(" path " ")
                inserted = 1
            }
            { print }
            END {
                if (!inserted) {
                    print ""
                    print "FILES=(" path ")"
                }
            }
        ' "$MKINIT" > "$TMP"
        cat "$TMP" > "$MKINIT"
        rm -f "$TMP"
        echo "[OK] Added EDID to mkinitcpio FILES"
    fi
else
    echo "[ERR] /etc/mkinitcpio.conf not found — automatic Apply supports mkinitcpio only" >&2
    exit 1
fi

# 3. Patch Limine entry-tool drop-in when available. limine-mkinitcpio uses this
#    to embed the same kernel parameter into regenerated Limine entries/UKIs.
if command -v limine-mkinitcpio >/dev/null 2>&1; then
    mkdir -p "$LIMINE_DROPIN_DIR"
    if [ -f "$LIMINE_DROPIN" ]; then
        backup_file "$LIMINE_DROPIN"
        TMP="$(mktemp /tmp/drmcru-limine-entry.XXXXXX)"
        awk -v connector="$CONNECTOR" -v param="$KERNEL_PARAM" '
            function add_mapping(mapping) {
                if (mapping == "" || index(mapping, connector ":") == 1)
                    return
                if (!seen[mapping]++)
                    mappings[++mapping_count] = mapping
            }
            /^[[:space:]]*KERNEL_CMDLINE\[default\]\+=/ && index($0, "drm.edid_firmware=") > 0 {
                value = substr($0, index($0, "drm.edid_firmware=") + length("drm.edid_firmware="))
                sub(/[\"[:space:]].*$/, "", value)
                count = split(value, values, ",")
                for (i = 1; i <= count; i++)
                    add_mapping(values[i])
                next
            }
            { print }
            END {
                desired = substr(param, length("drm.edid_firmware=") + 1)
                add_mapping(desired)
                combined = ""
                for (i = 1; i <= mapping_count; i++)
                    combined = combined (combined == "" ? "" : ",") mappings[i]
                print "KERNEL_CMDLINE[default]+=\" drm.edid_firmware=" combined "\""
            }
        ' "$LIMINE_DROPIN" > "$TMP"
        cat "$TMP" > "$LIMINE_DROPIN"
        rm -f "$TMP"
    else
        {
            echo "# Managed by drmcru. Edit through drmcru when possible."
            printf 'KERNEL_CMDLINE[default]+=" %s"\n' "$KERNEL_PARAM"
        } > "$LIMINE_DROPIN"
    fi
    echo "[OK] Consolidated persistent Limine entry-tool EDID mappings"
else
    echo "[OK] limine-mkinitcpio not present; Limine entry-tool drop-in skipped"
fi

# 4. Patch /boot/limine.conf. The kernel accepts one drm.edid_firmware value;
#    connector mappings inside that value are comma-separated. Consolidate any
#    older repeated parameters while replacing this connector's mapping.
if [ -f "$LIMINE" ]; then
    if grep -qE '^[[:space:]]*cmdline:' "$LIMINE"; then
        backup_file "$LIMINE"
        TMP="$(mktemp /tmp/drmcru-limine.XXXXXX)"
        awk -v connector="$CONNECTOR" -v param="$KERNEL_PARAM" '
            function add_mapping(mapping) {
                if (mapping == "" || index(mapping, connector ":") == 1)
                    return
                if (!seen[mapping]++)
                    mappings[++mapping_count] = mapping
            }
            /^[[:space:]]*cmdline:/ {
                delete seen
                delete mappings
                mapping_count = 0
                prefix = substr($0, 1, index($0, ":"))
                other = ""
                for (i = 2; i <= NF; i++) {
                    if (index($i, "drm.edid_firmware=") == 1) {
                        value = substr($i, length("drm.edid_firmware=") + 1)
                        count = split(value, values, ",")
                        for (j = 1; j <= count; j++)
                            add_mapping(values[j])
                    } else {
                        other = other (other == "" ? "" : " ") $i
                    }
                }
                desired = substr(param, length("drm.edid_firmware=") + 1)
                add_mapping(desired)
                combined = ""
                for (i = 1; i <= mapping_count; i++)
                    combined = combined (combined == "" ? "" : ",") mappings[i]
                print prefix (other == "" ? "" : " " other) " drm.edid_firmware=" combined
                next
            }
            { print }
        ' "$LIMINE" > "$TMP"
        cat "$TMP" > "$LIMINE"
        rm -f "$TMP"
        echo "[OK] Consolidated EDID mappings in all Limine cmdline entries"
    else
        echo "[ERR] /boot/limine.conf has no cmdline entries" >&2
        exit 1
    fi
else
    echo "[ERR] /boot/limine.conf not found — automatic Apply supports Limine only" >&2
    exit 1
fi

# 5. Rebuild initramfs/UKIs.
if command -v limine-mkinitcpio >/dev/null 2>&1; then
    echo "[..] Rebuilding Limine initramfs/UKI entries (limine-mkinitcpio)..."
    limine-mkinitcpio
    echo "[OK] Limine initramfs/UKI entries rebuilt"
elif compgen -G "/etc/mkinitcpio.d/*.preset" >/dev/null; then
    echo "[..] Rebuilding initramfs (mkinitcpio -P)..."
    mkinitcpio -P
    echo "[OK] Initramfs rebuilt"
else
    echo "[ERR] No initramfs rebuild backend found" >&2
    exit 1
fi

trap - ERR

echo ""
echo "=== Done! Reboot to activate the custom resolution. ==="
"###;

/// The uninstall script up to the value of `FIRMWARE_TARGET`.
pub const UNINSTALL_SCRIPT_HEAD: &'static str = r###"#!/bin/bash
set -euo pipefail

echo "=== drmcru: uninstalling custom EDID ==="

if [ "$(id -u)" -ne 0 ]; then
    echo "[ERR] This uninstaller must run as root." >&2
    exit 1
fi

FIRMWARE_TARGET="###;

/// The uninstall script after the value of `CONNECTOR`.
pub const UNINSTALL_SCRIPT_BODY: &'static str = r###"
MKINIT="/etc/mkinitcpio.conf"
LIMINE="/boot/limine.conf"
LIMINE_DROPIN_DIR="/etc/limine-entry-tool.d"
LIMINE_DROPIN="$LIMINE_DROPIN_DIR/drmcru-edid.conf"
BACKUP_SUFFIX=".drmcru.$(date +%Y%m%d-%H%M%S-%N)-$$.bak"
declare -a BACKUP_ORIGINALS=()
declare -a BACKUP_PATHS=()
FIRMWARE_WAS_PRESENT=0

backup_file() {
    local file="$1"
    local backup="${file}${BACKUP_SUFFIX}"
    cp -a -- "$file" "$backup"
    BACKUP_ORIGINALS+=("$file")
    BACKUP_PATHS+=("$backup")
    echo "[OK] Backup: $backup"
}

rollback() {
    local status="$?"
    trap - ERR
    echo "[ERR] Uninstall failed; restoring files changed by this run." >&2
    local i
    for ((i=${#BACKUP_ORIGINALS[@]} - 1; i >= 0; i--)); do
        cp -a -- "${BACKUP_PATHS[$i]}" "${BACKUP_ORIGINALS[$i]}" || true
    done
    exit "$status"
}

if [ ! -f "$MKINIT" ]; then
    echo "[ERR] /etc/mkinitcpio.conf not found — automatic uninstall supports mkinitcpio only" >&2
    exit 1
fi

if [ ! -f "$LIMINE" ]; then
    echo "[ERR] /boot/limine.conf not found — automatic uninstall supports Limine only" >&2
    exit 1
fi

if ! grep -qE '^[[:space:]]*cmdline:' "$LIMINE"; then
    echo "[ERR] /boot/limine.conf has no cmdline entries" >&2
    exit 1
fi

if ! command -v mkinitcpio >/dev/null 2>&1; then
    echo "[ERR] mkinitcpio was not found" >&2
    exit 1
fi

if ! command -v limine-mkinitcpio >/dev/null 2>&1 && ! compgen -G "/etc/mkinitcpio.d/*.preset" >/dev/null; then
    echo "[ERR] No initramfs rebuild backend found (expected limine-mkinitcpio or mkinitcpio presets)" >&2
    exit 1
fi

if [ -e "$FIRMWARE_TARGET" ]; then
    FIRMWARE_WAS_PRESENT=1
    backup_file "$FIRMWARE_TARGET"
fi
trap rollback ERR

# 1. Remove EDID from firmware directory
if [ -e "$FIRMWARE_TARGET" ]; then
    rm -f -- "$FIRMWARE_TARGET"
    echo "[OK] Removed $FIRMWARE_TARGET"
else
    echo "[OK] Firmware file not present (skipped)"
fi

# 2. Patch /etc/mkinitcpio.conf — remove EDID from FILES if present
if [ -f "$MKINIT" ]; then
    if grep -qF -- "$FIRMWARE_TARGET" "$MKINIT" 2>/dev/null; then
        backup_file "$MKINIT"
        TMP="$(mktemp /tmp/drmcru-mkinitcpio.XXXXXX)"
        awk -v path="$FIRMWARE_TARGET" '
            /^[[:space:]]*FILES=\(/ {
                while ((pos = index($0, path)) > 0) {
                    before = substr($0, 1, pos - 1)
                    after = substr($0, pos + length(path))
                    sub(/^[[:space:]]+/, "", after)
                    $0 = before after
                }
            }
            { print }
        ' "$MKINIT" > "$TMP"
        cat "$TMP" > "$MKINIT"
        rm -f "$TMP"
        echo "[OK] Removed EDID from mkinitcpio FILES"
    else
        echo "[OK] EDID not present in mkinitcpio FILES (skipped)"
    fi
else
    echo "[ERR] /etc/mkinitcpio.conf not found — automatic uninstall supports mkinitcpio only" >&2
    exit 1
fi

# 3. Patch Limine entry-tool drop-in when present
if [ -f "$LIMINE_DROPIN" ]; then
    if grep -qF -- "drm.edid_firmware=" "$LIMINE_DROPIN" 2>/dev/null; then
        backup_file "$LIMINE_DROPIN"
        TMP="$(mktemp /tmp/drmcru-limine-entry.XXXXXX)"
        awk -v connector="$CONNECTOR" '
            function add_mapping(mapping) {
                if (mapping == "" || index(mapping, connector ":") == 1)
                    return
                if (!seen[mapping]++)
                    mappings[++mapping_count] = mapping
            }
            /^[[:space:]]*KERNEL_CMDLINE\[default\]\+=/ && index($0, "drm.edid_firmware=") > 0 {
                value = substr($0, index($0, "drm.edid_firmware=") + length("drm.edid_firmware="))
                sub(/[\"[:space:]].*$/, "", value)
                count = split(value, values, ",")
                for (i = 1; i <= count; i++)
                    add_mapping(values[i])
                next
            }
            { print }
            END {
                if (mapping_count > 0) {
                    combined = ""
                    for (i = 1; i <= mapping_count; i++)
                        combined = combined (combined == "" ? "" : ",") mappings[i]
                    print "KERNEL_CMDLINE[default]+=\" drm.edid_firmware=" combined "\""
                }
            }
        ' "$LIMINE_DROPIN" > "$TMP"
        cat "$TMP" > "$LIMINE_DROPIN"
        rm -f "$TMP"
        if ! grep -qE '^[[:space:]]*KERNEL_CMDLINE\[default\]\+=' "$LIMINE_DROPIN"; then
            rm -f -- "$LIMINE_DROPIN"
            echo "[OK] Removed empty Limine entry-tool drop-in"
        else
            echo "[OK] Removed persistent Limine entry-tool kernel parameter"
        fi
    else
        echo "[OK] Limine entry-tool drop-in has no matching kernel parameter (skipped)"
    fi
else
    echo "[OK] Limine entry-tool drop-in not present (skipped)"
fi

# 4. Patch /boot/limine.conf — remove this connector mapping and consolidate
#    any remaining mappings into a single drm.edid_firmware parameter.
if [ -f "$LIMINE" ]; then
    if grep -qF -- "drm.edid_firmware=" "$LIMINE" 2>/dev/null; then
        backup_file "$LIMINE"
        TMP="$(mktemp /tmp/drmcru-limine.XXXXXX)"
        awk -v connector="$CONNECTOR" '
            function add_mapping(mapping) {
                if (mapping == "" || index(mapping, connector ":") == 1)
                    return
                if (!seen[mapping]++)
                    mappings[++mapping_count] = mapping
            }
            /^[[:space:]]*cmdline:/ {
                delete seen
                delete mappings
                mapping_count = 0
                prefix = substr($0, 1, index($0, ":"))
                other = ""
                for (i = 2; i <= NF; i++) {
                    if (index($i, "drm.edid_firmware=") == 1) {
                        value = substr($i, length("drm.edid_firmware=") + 1)
                        count = split(value, values, ",")
                        for (j = 1; j <= count; j++)
                            add_mapping(values[j])
                    } else {
                        other = other (other == "" ? "" : " ") $i
                    }
                }
                combined = ""
                for (i = 1; i <= mapping_count; i++)
                    combined = combined (combined == "" ? "" : ",") mappings[i]
                print prefix (other == "" ? "" : " " other) \
                    (combined == "" ? "" : " drm.edid_firmware=" combined)
                next
            }
            { print }
        ' "$LIMINE" > "$TMP"
        cat "$TMP" > "$LIMINE"
        rm -f "$TMP"
        echo "[OK] Removed connector mapping from Limine cmdline entries"
    else
        echo "[OK] Kernel parameter not present in Limine config (skipped)"
    fi
else
    echo "[ERR] /boot/limine.conf not found — automatic uninstall supports Limine only" >&2
    exit 1
fi

# 5. Rebuild initramfs/UKIs.
if command -v limine-mkinitcpio >/dev/null 2>&1; then
    echo "[..] Rebuilding Limine initramfs/UKI entries (limine-mkinitcpio)..."
    limine-mkinitcpio
    echo "[OK] Limine initramfs/UKI entries rebuilt"
elif compgen -G "/etc/mkinitcpio.d/*.preset" >/dev/null; then
    echo "[..] Rebuilding initramfs (mkinitcpio -P)..."
    mkinitcpio -P
    echo "[OK] Initramfs rebuilt"
else
    echo "[ERR] No initramfs rebuild backend found" >&2
    exit 1
fi

trap - ERR

echo ""
echo "=== Done! Reboot to return to the monitor's normal EDID. ==="
"###;


/// An override counts as active exactly when its firmware file is present and
/// the running kernel was booted with its parameter; with the firmware file
/// gone (say after an uninstall, before the reboot) it is never reported
/// active or pending, but a partial install while anything else still refers
/// to it, and not installed otherwise.
pub proof fn lemma_override_status_needs_firmware(s: InstalledOverrideStatus)
    ensures
        s.spec_is_active() <==> (s.firmware_present && s.active_kernel_references_kernel_parameter),
        (s.spec_short_label() == "active"@) <==> (s.firmware_present
            && s.active_kernel_references_kernel_parameter),
        !s.firmware_present ==> (s.spec_short_label() == (if s.mkinitcpio_references_firmware
            || s.bootloader_references_kernel_parameter || s.limine_entry_tool_references_kernel_parameter
            || s.active_kernel_references_kernel_parameter {
            "partial install"@
        } else {
            "not installed"@
        })),
        s.spec_is_configured_for_next_boot() ==> s.firmware_present,
        s.spec_is_configured_for_next_boot() <==> (s.firmware_present && s.bootloader_cmdline_entries > 0
            && s.bootloader_cmdline_entries_with_kernel_parameter == s.bootloader_cmdline_entries),
        (s.spec_short_label() == "not installed"@) <==> !(s.firmware_present || s.mkinitcpio_references_firmware
            || s.bootloader_references_kernel_parameter || s.limine_entry_tool_references_kernel_parameter
            || s.active_kernel_references_kernel_parameter),
{
    reveal_strlit("active");
    reveal_strlit("installed, reboot pending");
    reveal_strlit("partial install");
    reveal_strlit("not installed");
    assert("active"@ != "installed, reboot pending"@) by {
        assert("active"@.len() != "installed, reboot pending"@.len());
    }
    assert("active"@ != "partial install"@) by {
        assert("active"@.len() != "partial install"@.len());
    }
    assert("active"@ != "not installed"@) by {
        assert("active"@.len() != "not installed"@.len());
    }
    assert("installed, reboot pending"@ != "not installed"@) by {
        assert("installed, reboot pending"@.len() != "not installed"@.len());
    }
    assert("partial install"@ != "not installed"@) by {
        assert("partial install"@[0] != "not installed"@[0]);
    }
}

} // verus!
