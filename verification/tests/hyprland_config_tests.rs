use drmcru::hyprland_config::expand_config_path;
use drmcru::hyprland_config::{
    dynamic_rule_warning, format_monitor_rule, format_monitor_rule_for_path,
    inspect_connector_rules, inspect_monitor_rule, lua_module_path, normalize_monitor_rule,
    parse_config_file, parse_literal_lua_call_argument, parse_lua_table_fields,
    parse_monitor_rule, path_contains_simple_glob, path_contains_unsupported_glob,
    resolve_source_paths, source_kind, strip_lua_comments, wildcard_match, ConfigDirective,
    ConfigScan, MonitorRule, MonitorRuleInspection, SourceKind,
};

fn chars(s: &str) -> Vec<char> {
    s.chars().collect()
}

/// Reads a config tree held in memory the way the reader does: directives in
/// order, included files read in place, each file once.
fn scan(files: &[(&str, &str)], root: &str) -> ConfigScan {
    fn read(
        files: &[(&str, &str)],
        path: &str,
        seen: &mut Vec<String>,
        out: &mut ConfigScan,
    ) {
        if seen.iter().any(|p| p == path) {
            return;
        }
        seen.push(path.to_string());
        let Some((_, contents)) = files.iter().find(|(p, _)| *p == path) else {
            out.read_warnings.push(format!("Could not read {path}: missing"));
            return;
        };
        out.files_read += 1;
        let dir = path.rsplit_once('/').map(|(d, _)| d).unwrap_or(".");
        for directive in parse_config_file(path, contents) {
            match directive {
                ConfigDirective::Rule(rule) => out.monitor_rules.push(rule),
                ConfigDirective::DynamicRule(line) => {
                    out.read_warnings.push(dynamic_rule_warning(path, line))
                }
                ConfigDirective::Source(value) | ConfigDirective::DoFile(value) => {
                    let target = format!("{dir}/{value}");
                    read(files, &target, seen, out);
                }
                ConfigDirective::Require(module) => {
                    if let Some(relative) = lua_module_path(&module) {
                        let mut roots = vec![dir.to_string()];
                        if let Some((parent, last)) = dir.rsplit_once('/') {
                            if last == "hypr" {
                                roots.push(parent.to_string());
                            }
                        }
                        let found = roots.iter().find_map(|root| {
                            [format!("{root}/{relative}.lua"), format!("{root}/{relative}/init.lua")]
                                .into_iter()
                                .find(|candidate| files.iter().any(|(p, _)| p == candidate))
                        });
                        if let Some(target) = found {
                            read(files, &target, seen, out);
                        }
                    }
                }
            }
        }
    }
    let mut out = ConfigScan {
        root_path: root.to_string(),
        files_read: 0,
        monitor_rules: Vec::new(),
        read_warnings: Vec::new(),
    };
    let mut seen = Vec::new();
    read(files, root, &mut seen, &mut out);
    out
}

#[test]
fn parses_literal_monitor_rule() {
    let rule = parse_monitor_rule(
        "/tmp/hyprland.conf",
        7,
        "monitor = DP-1,1920x1080@239.76,auto,1 # comment",
        "DP-1,1920x1080@239.76,auto,1",
    )
    .unwrap();

    assert_eq!(rule.connector, "DP-1");
    assert_eq!(rule.mode, "1920x1080@239.76");
    assert_eq!(rule.position.as_deref(), Some("auto"));
    assert_eq!(rule.scale.as_deref(), Some("1"));
    assert_eq!(rule.normalized_rule(), "monitor=DP-1,1920x1080@239.76,auto,1");
}

#[test]
fn wildcard_match_supports_star_and_question_mark() {
    assert!(wildcard_match("*.conf", "monitors.conf"));
    assert!(wildcard_match("monitor-?.conf", "monitor-1.conf"));
    assert!(!wildcard_match("monitor-?.conf", "monitor-10.conf"));
}

#[test]
fn parses_lua_monitor_rules_and_literal_dofile() {
    let files = [
        (
            "/cfg/hyprland.lua",
            "dofile('monitors.lua') -- literal include\nhl.monitor({ output = 'DP-1', mode = '1920x1080@240',\n    position = 'auto', scale = 1.25 })\n",
        ),
        (
            "/cfg/monitors.lua",
            "hl.monitor({ output = 'HDMI-A-1', mode = 'preferred', position = 'auto', scale = 1 })\n",
        ),
    ];
    let report = inspect_monitor_rule(
        scan(&files, "/cfg/hyprland.lua"),
        "DP-1",
        "monitor=DP-1,1920x1080@240,auto,1.25",
    );

    assert_eq!(report.files_read, 2);
    assert!(report.read_warnings.is_empty());
    assert_eq!(report.connector_rules.len(), 1);
    assert!(report.exact_match_is_effective());
}

#[test]
fn follows_local_lua_require_and_ignores_dynamic_bootstrap() {
    let files = [
        (
            "/cfg/hypr/hyprland.lua",
            "dofile((os.getenv(\"OMARCHY_PATH\") or \"/usr/share/omarchy\") .. \"/default/hypr/bootstrap.lua\")\nrequire(\"hypr.monitors\")\n",
        ),
        (
            "/cfg/hypr/monitors.lua",
            "hl.monitor({ output = \"DP-1\", mode = \"1920x1080@239.76\", position = \"0x0\", scale = 1 })\n",
        ),
    ];
    let report = inspect_monitor_rule(
        scan(&files, "/cfg/hypr/hyprland.lua"),
        "DP-1",
        "monitor=DP-1,1920x1080@239.76,0x0,1",
    );

    assert_eq!(report.files_read, 2);
    assert!(report.read_warnings.is_empty());
    assert_eq!(report.connector_rules.len(), 1);
    assert!(report.exact_match_is_effective());
}

#[test]
fn lua_calls_preserve_include_order_and_skip_comments() {
    let files = [
        (
            "/cfg/hyprland.lua",
            "-- hl.monitor({ output = \"DP-1\", mode = \"800x600@60\" })\nhl.monitor({ output = \"DP-1\", mode = \"1920x1080@60\", position = \"auto\", scale = 1 })\ndofile(\"monitors.lua\")\nhl.monitor({ output = \"DP-1\", mode = \"1920x1080@144\", position = \"auto\", scale = 1 })\n",
        ),
        (
            "/cfg/monitors.lua",
            "hl.monitor({ output = \"DP-1\", mode = \"1920x1080@120\", position = \"auto\", scale = 1 })\n",
        ),
    ];
    let report = inspect_monitor_rule(
        scan(&files, "/cfg/hyprland.lua"),
        "DP-1",
        "monitor=DP-1,1920x1080@144,auto,1",
    );

    assert_eq!(report.connector_rules.len(), 3);
    assert_eq!(report.connector_rules[0].mode, "1920x1080@60");
    assert_eq!(report.connector_rules[1].mode, "1920x1080@120");
    assert_eq!(report.connector_rules[2].mode, "1920x1080@144");
    assert!(report.exact_match_is_effective());
}

#[test]
fn lua_expected_rule_matches_canonical_monitor_values() {
    let files = [(
        "/cfg/hyprland.lua",
        "hl.monitor({ output = \"DP-1\", mode = \"1920x1080@144\", position = \"0x0\", scale = 1.25 })\n",
    )];
    let expected =
        format_monitor_rule_for_path("/cfg/hyprland.lua", "DP-1", "1920x1080@144", "0x0", "1.25");
    assert!(expected.starts_with("hl.monitor({"));

    let report = inspect_monitor_rule(scan(&files, "/cfg/hyprland.lua"), "DP-1", &expected);

    assert!(report.exact_match_is_effective());
}

#[test]
fn parses_lua_disabled_monitor_rule() {
    let files = [("/cfg/hyprland.lua", "hl.monitor({ output = \"eDP-1\", disabled = true })\n")];
    let report =
        inspect_monitor_rule(scan(&files, "/cfg/hyprland.lua"), "eDP-1", "monitor=eDP-1,disabled");

    assert_eq!(report.connector_rules.len(), 1);
    assert_eq!(report.connector_rules[0].mode, "disabled");
    assert!(report.exact_match_is_effective());
}

#[test]
fn lua_monitor_fields_ignore_comments_and_accept_table_whitespace() {
    let files = [(
        "/cfg/hyprland.lua",
        "hl.monitor( { output = \"DP-1\"; -- mode = \"800x600@60\"\n--[[ disabled = true; ]]\nmode = \"1920x1080@144\"; position = \"auto\"; scale = 1 } )\n",
    )];
    let report = inspect_monitor_rule(
        scan(&files, "/cfg/hyprland.lua"),
        "DP-1",
        "monitor=DP-1,1920x1080@144,auto,1",
    );

    assert_eq!(report.connector_rules.len(), 1);
    assert_eq!(report.connector_rules[0].mode, "1920x1080@144");
    assert!(report.exact_match_is_effective());
}

#[test]
fn follows_sources_and_detects_later_override() {
    let files = [
        (
            "/cfg/hyprland.conf",
            "source = conf.d/monitors.conf\nmonitor=DP-1,1920x1080@239.76,auto,1\n",
        ),
        ("/cfg/conf.d/monitors.conf", "monitor=DP-1,1280x1080@239.76,auto,1\n"),
    ];
    let report = inspect_monitor_rule(
        scan(&files, "/cfg/hyprland.conf"),
        "DP-1",
        "monitor=DP-1,1920x1080@239.76,auto,1",
    );

    assert_eq!(report.files_read, 2);
    assert_eq!(report.connector_rules.len(), 2);
    assert!(report.exact_match.is_some());
    assert!(report.exact_match_is_effective());
}

#[test]
fn reports_exact_match_as_ineffective_when_later_rule_wins() {
    let files = [(
        "/cfg/hyprland.conf",
        "monitor=DP-1,1920x1080@239.76,auto,1\nmonitor=DP-1,1280x1080@239.76,auto,1\n",
    )];
    let report = inspect_monitor_rule(
        scan(&files, "/cfg/hyprland.conf"),
        "DP-1",
        "monitor=DP-1,1920x1080@239.76,auto,1",
    );

    assert!(report.exact_match.is_some());
    assert!(!report.exact_match_is_effective());
    assert_eq!(
        report.last_connector_rule.as_ref().map(MonitorRule::normalized_rule),
        Some("monitor=DP-1,1280x1080@239.76,auto,1".to_string())
    );
}

#[test]
fn uses_last_duplicate_exact_rule_for_effective_match() {
    let files = [(
        "/cfg/hyprland.conf",
        "monitor=DP-1,1920x1080@60,auto,1\nmonitor=DP-1,1280x720@60,auto,1\nmonitor=DP-1,1920x1080@60,auto,1\n",
    )];
    let report = inspect_monitor_rule(
        scan(&files, "/cfg/hyprland.conf"),
        "DP-1",
        "monitor=DP-1,1920x1080@60,auto,1",
    );

    assert!(report.exact_match_is_effective());
    assert_eq!(report.exact_match.as_ref().map(|rule| rule.line_number), Some(3));
}

#[test]
fn dynamic_monitor_values_leave_a_warning() {
    let directives =
        parse_config_file("/cfg/hyprland.conf", "# header\nmonitor = $main,preferred,auto,1\n");
    assert_eq!(directives, vec![ConfigDirective::DynamicRule(2)]);
    assert_eq!(
        dynamic_rule_warning("~/.config/hypr/hyprland.conf", 2),
        "Skipped dynamic monitor rule at ~/.config/hypr/hyprland.conf:2"
    );
}

#[test]
fn connector_rules_ignore_other_connectors() {
    let files = [(
        "/cfg/hyprland.conf",
        "monitor=HDMI-A-1,preferred,auto,1\nmonitor=DP-1,1920x1080@60,0x0,1\n",
    )];
    let report: MonitorRuleInspection =
        inspect_connector_rules(scan(&files, "/cfg/hyprland.conf"), "DP-1");
    assert_eq!(report.connector_rules.len(), 1);
    assert!(report.exact_match.is_none());
    assert_eq!(report.last_connector_rule.unwrap().line_number, 2);
}

#[test]
fn monitor_rule_format_follows_config_syntax() {
    assert_eq!(
        format_monitor_rule("DP-1", "1920x1080@144.00", "0x0", "1", "/home/u/.config/hypr/hyprland.conf"),
        "monitor=DP-1,1920x1080@144.00,0x0,1"
    );
    assert_eq!(
        format_monitor_rule("DP-1", "1920x1080@144.00", "0x0", "1", "/home/u/.config/hypr/hyprland.lua"),
        "hl.monitor({ output = \"DP-1\", mode = \"1920x1080@144.00\", position = \"0x0\", scale = 1 })"
    );
}

#[test]
fn normalizes_expected_rules_of_both_syntaxes() {
    assert_eq!(
        normalize_monitor_rule("  monitor = DP-1 , 1920x1080@60 , auto , 1 "),
        Some("monitor=DP-1,1920x1080@60,auto,1".to_string())
    );
    assert_eq!(
        normalize_monitor_rule("hl.monitor({ output = \"DP-1\", mode = \"1920x1080@60\" })"),
        Some("monitor=DP-1,1920x1080@60".to_string())
    );
    assert_eq!(normalize_monitor_rule("monitor = $main,preferred"), None);
    assert_eq!(normalize_monitor_rule("__drmcru_no_expected_rule__"), None);
}

#[test]
fn literal_call_arguments_are_unescaped() {
    assert_eq!(
        parse_literal_lua_call_argument(&chars("dofile(\"a\\tb\\\\c\")")),
        Some("a\tb\\c".to_string())
    );
    assert_eq!(parse_literal_lua_call_argument(&chars("require('x.y')")), Some("x.y".to_string()));
    assert_eq!(parse_literal_lua_call_argument(&chars("dofile(path)")), None);
    assert_eq!(parse_literal_lua_call_argument(&chars("dofile(\"trailing\\\")")), Some("trailing\\".to_string()));
}

#[test]
fn lua_comments_are_stripped_but_strings_kept() {
    let cleaned: String = strip_lua_comments(&chars("a -- gone\nb --[[x\ny]] c \"--kept\" [[--also]]")).into_iter().collect();
    assert_eq!(cleaned, "a \nb \n c \"--kept\" [[--also]]");
}

#[test]
fn table_fields_keep_only_monitor_keys() {
    let fields = parse_lua_table_fields(&chars(
        "hl.monitor({ output = \"DP-1\", transform = 1, scale = 2 })",
    ));
    let named: Vec<(String, String)> = fields
        .into_iter()
        .map(|(k, v)| (k.into_iter().collect(), v.into_iter().collect()))
        .collect();
    assert_eq!(
        named,
        vec![
            ("output".to_string(), "DP-1".to_string()),
            ("scale".to_string(), "2".to_string())
        ]
    );
}

#[test]
fn source_paths_are_classified_and_resolved() {
    assert!(path_contains_simple_glob("/cfg/conf.d/*.conf"));
    assert!(!path_contains_simple_glob("/cfg/conf.d/a.conf"));
    assert!(path_contains_unsupported_glob("/cfg/[ab].conf"));
    assert_eq!(source_kind("/cfg/[ab].conf"), SourceKind::Unsupported);
    assert_eq!(source_kind("/cfg/a.conf"), SourceKind::Plain);
    assert_eq!(source_kind("/cfg/*.conf"), SourceKind::Glob);

    let (paths, warning) = resolve_source_paths("a.conf", "~/h.conf", "/cfg/a.conf", Ok(Vec::new()));
    assert_eq!(paths, vec!["/cfg/a.conf".to_string()]);
    assert_eq!(warning, None);

    let (paths, warning) = resolve_source_paths("*.conf", "~/h.conf", "/cfg/*.conf", Ok(Vec::new()));
    assert!(paths.is_empty());
    assert_eq!(warning, Some("Source glob '*.conf' from ~/h.conf matched no files".to_string()));

    let (paths, warning) = resolve_source_paths("[x].conf", "~/h.conf", "/cfg/[x].conf", Ok(Vec::new()));
    assert!(paths.is_empty());
    assert_eq!(
        warning,
        Some("Skipped unsupported glob source '[x].conf' from ~/h.conf".to_string())
    );

    let (paths, warning) = resolve_source_paths(
        "*.conf",
        "~/h.conf",
        "/cfg/*.conf",
        Err("permission denied".to_string()),
    );
    assert!(paths.is_empty());
    assert_eq!(
        warning,
        Some("Could not expand source glob '*.conf' from ~/h.conf: permission denied".to_string())
    );
}

#[test]
fn lua_modules_map_to_relative_paths() {
    assert_eq!(lua_module_path("hypr.monitors"), Some("hypr/monitors".to_string()));
    assert_eq!(lua_module_path(""), None);
    assert_eq!(lua_module_path("a/b"), None);
}

#[test]
fn rule_location_uses_shown_path() {
    let rule = parse_monitor_rule("/h/u/hyprland.conf", 12, "monitor=DP-1,preferred", "DP-1,preferred")
        .unwrap();
    assert_eq!(rule.location("~/hyprland.conf"), "~/hyprland.conf:12");
    assert_eq!(rule.normalized_rule(), "monitor=DP-1,preferred");
}

#[test]
fn literal_patterns_match_only_themselves() {
    assert!(wildcard_match("monitors.conf", "monitors.conf"));
    assert!(!wildcard_match("monitors.conf", "monitors.conf.bak"));
    assert!(!wildcard_match("monitors.conf", "monitors.con"));
    assert!(wildcard_match("*", ""));
    assert!(wildcard_match("*", "anything-at-all"));
}

#[test]
fn written_line_rules_read_back_as_written() {
    let written = format_monitor_rule_for_path(
        "/home/u/.config/hypr/hyprland.conf",
        "DP-1",
        "2560x1440@165.00",
        "0x0",
        "1.25",
    );
    assert_eq!(normalize_monitor_rule(&written), Some(written.clone()));
}

#[test]
fn config_paths_expand_home_and_config_home() {
    assert_eq!(expand_config_path("~/hypr/a.conf", Some("/home/u"), None), "/home/u/hypr/a.conf");
    assert_eq!(expand_config_path("\"$HOME/b.conf\"", Some("/home/u/"), None), "/home/u/b.conf");
    assert_eq!(
        expand_config_path("'$XDG_CONFIG_HOME/hypr/c.conf'", None, Some("/cfg")),
        "/cfg/hypr/c.conf"
    );
    assert_eq!(expand_config_path("~/d.conf", None, Some("/cfg")), "~/d.conf");
    assert_eq!(expand_config_path("\"\"'conf.d/x.conf'\"", None, None), "conf.d/x.conf");
    assert_eq!(expand_config_path("\"\"\"", Some("/h"), None), "");
}

#[test]
fn wildcard_matching_is_glob_for_plain_names() {
    assert!(wildcard_match("a*b?c", "a-xyz-b1c"));
    assert!(wildcard_match("*", ""));
    assert!(wildcard_match("**x", "yyx"));
    assert!(!wildcard_match("a*b", "a-x-c"));
    assert!(!wildcard_match("?", ""));
    // A `*` in the name is first taken as the literal character.
    assert!(!wildcard_match("*", "*a"));
}
