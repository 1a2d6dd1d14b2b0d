//! The parts of the diagnostics report that decide what to check and how a
//! result reads.
use crate::export::{custom_edid_file_name, plan_matches, spec_custom_edid_file_name};
use crate::hyprland_config::{normalized, MonitorRuleInspection};
use crate::models::{ConnectorStatus, EdidData, ExportPlan, TimingDescriptor};
use crate::install::{
    firmware_path, inspect_installed_override, line_of, probe_found, push_line,
    read_cmdline_counts, read_contains, read_has_mapping, FirmwareEdidComparison,
    InstalledOverrideStatus, OverrideFacts, SystemSupportReport, UninstallPlan,
};
use crate::report::{prefixed, push_prefixed, push_static, shown_location, spec_yes_no, yes_no};
use crate::text::{decimal, joined, push_decimal, push_joined_strings, push_str};
use vstd::prelude::*;

verus! {

/// The kernel parameter that maps `connector` to its custom EDID.
pub open spec fn override_parameter(connector: Seq<char>) -> Seq<char> {
    "drm.edid_firmware="@ + connector + ":edid/"@ + spec_custom_edid_file_name(connector)
}

/// The override the tool would have installed for a connector: its custom
/// EDID file and the kernel parameter that maps the connector to it.
pub fn connector_override_plan(connector: &str) -> (r: UninstallPlan)
    ensures
        r.connector@ == connector@,
        r.edid_file_name@ == spec_custom_edid_file_name(connector@),
        r.kernel_parameter@ == override_parameter(connector@),
{
    let edid_file_name = custom_edid_file_name(connector);
    let mut kernel_parameter = String::from_str("drm.edid_firmware=");
    push_str(&mut kernel_parameter, connector);
    push_str(&mut kernel_parameter, ":edid/");
    push_str(&mut kernel_parameter, edid_file_name.as_str());
    UninstallPlan { connector: String::from_str(connector), kernel_parameter, edid_file_name }
}

/// The installed-override state of a connector's own override, from what the
/// caller found at the standard locations for `connector_override_plan`.
pub fn inspect_connector_override(connector: &str, facts: &OverrideFacts) -> (r: InstalledOverrideStatus)
    ensures
        r.connector@ == connector@,
        r.edid_file_name@ == spec_custom_edid_file_name(connector@),
        r.kernel_parameter@ == override_parameter(connector@),
        r.firmware_present == probe_found(facts.firmware),
        r.mkinitcpio_references_firmware == read_contains(
            facts.mkinitcpio_conf,
            firmware_path(spec_custom_edid_file_name(connector@)),
        ),
        r.bootloader_cmdline_entries == read_cmdline_counts(
            facts.bootloader_conf,
            override_parameter(connector@),
        ).0,
        r.bootloader_cmdline_entries_with_kernel_parameter == read_cmdline_counts(
            facts.bootloader_conf,
            override_parameter(connector@),
        ).1,
        r.bootloader_references_kernel_parameter == (read_cmdline_counts(
            facts.bootloader_conf,
            override_parameter(connector@),
        ).1 > 0),
        r.limine_entry_tool_references_kernel_parameter == read_has_mapping(
            facts.limine_entry_tool_dropin,
            override_parameter(connector@),
        ),
        r.active_kernel_references_kernel_parameter == read_has_mapping(
            facts.active_cmdline,
            override_parameter(connector@),
        ),
{
    let plan = connector_override_plan(connector);
    inspect_installed_override(&plan, facts)
}

/// `ok` for a good checksum, `bad` otherwise.
pub fn ok_bad(value: bool) -> (r: &'static str)
    ensures
        r@ == (if value { "ok"@ } else { "bad"@ }),
{
    if value {
        "ok"
    } else {
        "bad"
    }
}


/// The kernel parameter an export plans for a connector's custom EDID file is
/// the one the diagnostics look for when they check that connector's override.
pub proof fn lemma_export_parameter_is_checked(
    plan: ExportPlan,
    connector: Seq<char>,
    timing: TimingDescriptor,
    position: Seq<char>,
    scale: Seq<char>,
)
    requires
        plan_matches(plan, connector, spec_custom_edid_file_name(connector), timing, position, scale),
    ensures
        plan.spec_drm_kernel_parameter() == override_parameter(connector),
{
}


/// What Hyprland reports of a monitor, as the report shows it.
#[derive(Debug, Clone, PartialEq, Eq)]
pub struct HyprlandSummary {
    pub active_width: Option<u32>,
    pub active_height: Option<u32>,
    /// The refresh rate, written with three decimals.
    pub refresh_text: String,
    pub available_modes: usize,
}

/// A connector's installed override and how its firmware file compares with
/// the live EDID.
#[derive(Debug, Clone, PartialEq, Eq)]
pub struct OverrideCheck {
    pub status: InstalledOverrideStatus,
    pub comparison: FirmwareEdidComparison,
}

/// Everything the report says of one monitor, as the caller gathered it.
#[derive(Debug, Clone)]
pub struct DoctorMonitor {
    pub connector: String,
    pub status: ConnectorStatus,
    pub drm_path: Option<String>,
    pub hyprland: Option<HyprlandSummary>,
    pub edid: Option<EdidData>,
    pub override_check: Option<OverrideCheck>,
    pub config: MonitorRuleInspection,
    /// The path of the last literal rule for the connector, as the user sees it.
    pub config_winner_shown: String,
}

/// A connector status the way the report names it.
pub open spec fn status_name(status: ConnectorStatus) -> Seq<char> {
    match status {
        ConnectorStatus::Connected => "Connected"@,
        ConnectorStatus::Disconnected => "Disconnected"@,
        ConnectorStatus::Unknown => "Unknown"@,
    }
}

fn status_name_str(status: ConnectorStatus) -> (r: &'static str)
    ensures
        r@ == status_name(status),
{
    match status {
        ConnectorStatus::Connected => "Connected",
        ConnectorStatus::Disconnected => "Disconnected",
        ConnectorStatus::Unknown => "Unknown",
    }
}

pub open spec fn or_zero(value: Option<u32>) -> nat {
    match value {
        Some(v) => v as nat,
        None => 0,
    }
}

/// The Hyprland line of a monitor.
pub open spec fn hyprland_line(h: Option<HyprlandSummary>) -> Seq<char> {
    match h {
        Some(h) => "   Hyprland: "@ + decimal(or_zero(h.active_width)) + "x"@ + decimal(
            or_zero(h.active_height),
        ) + " @ "@ + h.refresh_text@ + " Hz, "@ + decimal(h.available_modes as nat)
            + " available mode(s)"@,
        None => "   Hyprland: not reported"@,
    }
}

/// The EDID lines of a monitor.
pub open spec fn edid_lines(edid: Option<EdidData>) -> Seq<Seq<char>> {
    match edid {
        Some(e) => seq![
            "   EDID: "@ + decimal(e.extension_blocks as nat) + " extension block(s), base checksum "@
                + (if e.checksum_valid { "ok"@ } else { "bad"@ }),
            "   EDID name: "@ + match e.monitor_name {
                Some(name) => name@,
                None => "(none)"@,
            },
        ],
        None => seq!["   EDID: unavailable"@],
    }
}

/// The line that lists which override files are in place.
pub open spec fn override_files_line(s: InstalledOverrideStatus) -> Seq<char> {
    "   Override files: firmware "@ + spec_yes_no(s.firmware_present) + ", mkinitcpio "@ + spec_yes_no(
        s.mkinitcpio_references_firmware,
    ) + ", boot config "@ + spec_yes_no(s.bootloader_references_kernel_parameter) + " ("@ + decimal(
        s.bootloader_cmdline_entries_with_kernel_parameter as nat,
    ) + "/"@ + decimal(s.bootloader_cmdline_entries as nat) + " cmdline entries), entry-tool "@
        + spec_yes_no(s.limine_entry_tool_references_kernel_parameter) + ", active kernel "@
        + spec_yes_no(s.active_kernel_references_kernel_parameter)
}

/// The override lines of a monitor.
pub open spec fn override_lines(check: Option<OverrideCheck>) -> Seq<Seq<char>> {
    match check {
        Some(c) => seq![
            "   Override: "@ + c.status.spec_short_label(),
            override_files_line(c.status),
            "   Override EDID match: "@ + c.comparison.spec_short_label() + " ("@
                + c.comparison.spec_detail() + ")"@,
        ] + prefixed(c.status.read_warnings.deep_view(), "   Override warning: "@),
        None => Seq::empty(),
    }
}

/// The Hyprland config lines of a monitor: its literal rules and the last of
/// them, then at most three warnings and how many more there are.
pub open spec fn config_lines(config: MonitorRuleInspection, winner_shown: Seq<char>) -> Seq<Seq<char>> {
    let ws = config.read_warnings.deep_view();
    (if config.connector_rules.len() > 0 {
        seq![
            "   Hyprland config rules: "@ + decimal(config.connector_rules.len() as nat)
                + " literal rule(s)"@,
        ] + match config.last_connector_rule {
            Some(rule) => seq![
                "   Hyprland config winner: "@ + shown_location(winner_shown, rule.line_number),
                "   Hyprland config mode: "@ + normalized(rule.deep_view()),
            ],
            None => Seq::empty(),
        }
    } else {
        Seq::empty()
    }) + prefixed(ws.take(if ws.len() < 3 { ws.len() as int } else { 3 }), "   Hyprland config warning: "@)
        + if ws.len() > 3 {
        seq!["   Hyprland config warning: ... "@ + decimal((ws.len() - 3) as nat) + " more"@]
    } else {
        Seq::empty()
    }
}

/// The lines of the monitor at `index` in the report.
pub open spec fn monitor_lines(index: nat, m: DoctorMonitor) -> Seq<Seq<char>> {
    seq![
        ""@,
        decimal(index + 1) + ". "@ + m.connector@,
        "   Status: "@ + status_name(m.status),
        "   DRM path: "@ + match m.drm_path {
            Some(p) => p@,
            None => "(unknown)"@,
        },
        hyprland_line(m.hyprland),
    ] + edid_lines(m.edid) + override_lines(m.override_check) + config_lines(
        m.config,
        m.config_winner_shown@,
    )
}

/// The lines of all monitors, numbered from one.
pub open spec fn all_monitor_lines(ms: Seq<DoctorMonitor>) -> Seq<Seq<char>>
    decreases ms.len(),
{
    if ms.len() == 0 {
        Seq::empty()
    } else {
        all_monitor_lines(ms.drop_last()) + monitor_lines((ms.len() - 1) as nat, ms.last())
    }
}

/// The system part of the report: the preflight checks, then whether
/// automatic apply is supported and, if not, why.
pub open spec fn support_lines(support: SystemSupportReport) -> Seq<Seq<char>> {
    support.spec_summary_lines() + if support.spec_blocking_issues().len() == 0 {
        seq!["Automatic Apply: supported"@]
    } else {
        seq!["Automatic Apply: unsupported"@] + prefixed(support.spec_blocking_issues(), "- "@)
    }
}

/// The lines of the diagnostics report.
pub open spec fn spec_report_lines(
    version: Seq<char>,
    support: SystemSupportReport,
    ms: Seq<DoctorMonitor>,
) -> Seq<Seq<char>> {
    seq!["drmcru "@ + version, "Doctor report"@, ""@, "System support"@] + support_lines(support) + seq![
        ""@,
        "Monitors: "@ + decimal(ms.len()),
    ] + all_monitor_lines(ms)
}


fn push_number_line(lines: &mut Vec<String>, prefix: &str, n: u64, suffix: &str)
    ensures
        final(lines).deep_view() == old(lines).deep_view().push(prefix@ + decimal(n as nat) + suffix@),
{
    let mut l = String::from_str(prefix);
    push_decimal(&mut l, n);
    push_str(&mut l, suffix);
    push_line(lines, l);
}

fn push_hyprland_line(lines: &mut Vec<String>, h: &Option<HyprlandSummary>)
    ensures
        final(lines).deep_view() == old(lines).deep_view().push(hyprland_line(*h)),
{
    match h {
        Some(h) => {
            let mut l = String::from_str("   Hyprland: ");
            push_decimal(&mut l, match h.active_width { Some(w) => w as u64, None => 0 });
            push_str(&mut l, "x");
            push_decimal(&mut l, match h.active_height { Some(v) => v as u64, None => 0 });
            push_str(&mut l, " @ ");
            push_str(&mut l, h.refresh_text.as_str());
            push_str(&mut l, " Hz, ");
            push_decimal(&mut l, h.available_modes as u64);
            push_str(&mut l, " available mode(s)");
            push_line(lines, l);
        },
        None => push_static(lines, "   Hyprland: not reported"),
    }
}

fn push_edid_lines(lines: &mut Vec<String>, edid: &Option<EdidData>)
    ensures
        final(lines).deep_view() == old(lines).deep_view() + edid_lines(*edid),
{
    match edid {
        Some(e) => {
            let mut l = String::from_str("   EDID: ");
            push_decimal(&mut l, e.extension_blocks as u64);
            push_str(&mut l, " extension block(s), base checksum ");
            push_str(&mut l, ok_bad(e.checksum_valid));
            push_line(lines, l);
            let name = match &e.monitor_name {
                Some(n) => n.as_str(),
                None => "(none)",
            };
            push_line(lines, line_of("   EDID name: ", name));
        },
        None => push_static(lines, "   EDID: unavailable"),
    }
    assert(lines.deep_view() =~= old(lines).deep_view() + edid_lines(*edid));
}

fn override_files_text(s: &InstalledOverrideStatus) -> (r: String)
    ensures
        r@ == override_files_line(*s),
{
    let mut l = String::from_str("   Override files: firmware ");
    push_str(&mut l, yes_no(s.firmware_present));
    push_str(&mut l, ", mkinitcpio ");
    push_str(&mut l, yes_no(s.mkinitcpio_references_firmware));
    push_str(&mut l, ", boot config ");
    push_str(&mut l, yes_no(s.bootloader_references_kernel_parameter));
    push_str(&mut l, " (");
    push_decimal(&mut l, s.bootloader_cmdline_entries_with_kernel_parameter as u64);
    push_str(&mut l, "/");
    push_decimal(&mut l, s.bootloader_cmdline_entries as u64);
    push_str(&mut l, " cmdline entries), entry-tool ");
    push_str(&mut l, yes_no(s.limine_entry_tool_references_kernel_parameter));
    push_str(&mut l, ", active kernel ");
    push_str(&mut l, yes_no(s.active_kernel_references_kernel_parameter));
    l
}

fn push_override_lines(lines: &mut Vec<String>, check: &Option<OverrideCheck>)
    ensures
        final(lines).deep_view() == old(lines).deep_view() + override_lines(*check),
{
    match check {
        Some(c) => {
            push_line(lines, line_of("   Override: ", c.status.short_label()));
            push_line(lines, override_files_text(&c.status));
            let mut m = String::from_str("   Override EDID match: ");
            push_str(&mut m, c.comparison.short_label());
            push_str(&mut m, " (");
            push_str(&mut m, c.comparison.detail().as_str());
            push_str(&mut m, ")");
            push_line(lines, m);
            push_prefixed(lines, &c.status.read_warnings, "   Override warning: ", c.status.read_warnings.len());
            assert(c.status.read_warnings.deep_view().take(c.status.read_warnings.deep_view().len() as int)
                =~= c.status.read_warnings.deep_view());
        },
        None => {},
    }
    assert(lines.deep_view() =~= old(lines).deep_view() + override_lines(*check));
}

fn push_config_lines(lines: &mut Vec<String>, config: &MonitorRuleInspection, winner_shown: &str)
    ensures
        final(lines).deep_view() == old(lines).deep_view() + config_lines(*config, winner_shown@),
{
    if config.connector_rules.len() > 0 {
        push_number_line(lines, "   Hyprland config rules: ", config.connector_rules.len() as u64, " literal rule(s)");
        match &config.last_connector_rule {
            Some(rule) => {
                push_line(lines, line_of("   Hyprland config winner: ", rule.location(winner_shown).as_str()));
                push_line(lines, line_of("   Hyprland config mode: ", rule.normalized_rule().as_str()));
            },
            None => {},
        }
    }
    let ghost mid = lines.deep_view();
    push_prefixed(lines, &config.read_warnings, "   Hyprland config warning: ", 3);
    if config.read_warnings.len() > 3 {
        push_number_line(lines, "   Hyprland config warning: ... ", (config.read_warnings.len() - 3) as u64, " more");
    }
    assert(lines.deep_view() =~= old(lines).deep_view() + config_lines(*config, winner_shown@));
}


fn push_monitor_lines(lines: &mut Vec<String>, index: usize, m: &DoctorMonitor)
    requires
        index < usize::MAX,
    ensures
        final(lines).deep_view() == old(lines).deep_view() + monitor_lines(index as nat, *m),
{
    push_static(lines, "");
    let mut head = String::new();
    push_decimal(&mut head, (index + 1) as u64);
    push_str(&mut head, ". ");
    push_str(&mut head, m.connector.as_str());
    push_line(lines, head);
    push_line(lines, line_of("   Status: ", status_name_str(m.status)));
    let path = match &m.drm_path {
        Some(p) => p.as_str(),
        None => "(unknown)",
    };
    push_line(lines, line_of("   DRM path: ", path));
    push_hyprland_line(lines, &m.hyprland);
    let ghost top = lines.deep_view();
    assert(top =~= old(lines).deep_view() + seq![
        ""@,
        decimal(index as nat + 1) + ". "@ + m.connector@,
        "   Status: "@ + status_name(m.status),
        "   DRM path: "@ + match m.drm_path {
            Some(p) => p@,
            None => "(unknown)"@,
        },
        hyprland_line(m.hyprland),
    ]);
    push_edid_lines(lines, &m.edid);
    push_override_lines(lines, &m.override_check);
    push_config_lines(lines, &m.config, m.config_winner_shown.as_str());
    assert(lines.deep_view() =~= old(lines).deep_view() + monitor_lines(index as nat, *m));
}

/// The diagnostics report: the version, the system's preflight checks and
/// whether automatic apply is supported, then each monitor with its status,
/// DRM path, Hyprland state, EDID, override and config rules, one line each,
/// joined by newlines.
pub fn report_text(version: &str, support: &SystemSupportReport, monitors: &Vec<DoctorMonitor>) -> (r: String)
    ensures
        r@ == joined(spec_report_lines(version@, *support, monitors@), "\n"@),
{
    let mut lines: Vec<String> = Vec::new();
    push_line(&mut lines, line_of("drmcru ", version));
    push_static(&mut lines, "Doctor report");
    push_static(&mut lines, "");
    push_static(&mut lines, "System support");
    let summary = support.summary_lines();
    let ghost before = lines.deep_view();
    let mut k: usize = 0;
    while k < summary.len()
        invariant
            0 <= k <= summary.deep_view().len(),
            lines.deep_view() == before + summary.deep_view().take(k as int),
        decreases summary.deep_view().len() - k,
    {
        push_line(&mut lines, summary[k].clone());
        k = k + 1;
        assert(lines.deep_view() =~= before + summary.deep_view().take(k as int));
    }
    assert(summary.deep_view().take(summary.deep_view().len() as int) =~= summary.deep_view());
    if support.is_supported() {
        push_static(&mut lines, "Automatic Apply: supported");
    } else {
        push_static(&mut lines, "Automatic Apply: unsupported");
        let issues = support.blocking_issues();
        push_prefixed(&mut lines, &issues, "- ", issues.len());
        assert(issues.deep_view().take(issues.deep_view().len() as int) =~= issues.deep_view());
    }
    assert(lines.deep_view() =~= seq!["drmcru "@ + version@, "Doctor report"@, ""@, "System support"@]
        + support_lines(*support));
    push_static(&mut lines, "");
    push_number_line(&mut lines, "Monitors: ", monitors.len() as u64, "");
    proof {
        reveal_strlit("");
        assert("Monitors: "@ + decimal(monitors@.len()) + ""@ =~= "Monitors: "@ + decimal(monitors@.len()));
    }
    let ghost head = lines.deep_view();
    assert(head =~= seq!["drmcru "@ + version@, "Doctor report"@, ""@, "System support"@]
        + support_lines(*support) + seq![""@, "Monitors: "@ + decimal(monitors@.len())]);
    let mut i: usize = 0;
    while i < monitors.len()
        invariant
            0 <= i <= monitors@.len(),
            lines.deep_view() == head + all_monitor_lines(monitors@.take(i as int)),
        decreases monitors@.len() - i,
    {
        push_monitor_lines(&mut lines, i, &monitors[i]);
        proof {
            let t = monitors@.take(i + 1);
            assert(t.drop_last() =~= monitors@.take(i as int));
            assert(t.last() == monitors@[i as int]);
        }
        i = i + 1;
        assert(lines.deep_view() =~= head + all_monitor_lines(monitors@.take(i as int)));
    }
    assert(monitors@.take(monitors@.len() as int) =~= monitors@);
    let mut r = String::new();
    push_joined_strings(&mut r, &lines, "\n");
    r
}

} // verus!
