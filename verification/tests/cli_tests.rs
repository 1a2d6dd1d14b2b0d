use drmcru::cli::{help_text, parse_args, Command};

fn args(list: &[&str]) -> Vec<String> {
    list.iter().map(|a| a.to_string()).collect()
}

#[test]
fn no_args_runs_tui() {
    assert_eq!(parse_args(&Vec::<String>::new()), Ok(Command::Tui));
}

#[test]
fn parses_supported_commands() {
    assert_eq!(parse_args(&args(&["doctor"])), Ok(Command::Doctor));
    assert_eq!(parse_args(&args(&["--doctor"])), Ok(Command::Doctor));
    assert_eq!(parse_args(&args(&["--help"])), Ok(Command::Help));
    assert_eq!(parse_args(&args(&["-h"])), Ok(Command::Help));
    assert_eq!(parse_args(&args(&["--version"])), Ok(Command::Version));
    assert_eq!(parse_args(&args(&["-V"])), Ok(Command::Version));
}

#[test]
fn rejects_unknown_arguments() {
    assert!(parse_args(&args(&["--bad"])).is_err());
    assert!(parse_args(&args(&["doctor", "--extra"])).is_err());
}

#[test]
fn errors_name_the_arguments() {
    assert_eq!(parse_args(&args(&["--bad"])), Err("unknown argument: --bad".to_string()));
    assert_eq!(
        parse_args(&args(&["doctor", "--extra"])),
        Err("too many arguments: doctor --extra".to_string())
    );
    assert_eq!(parse_args(&args(&["help"])), Ok(Command::Help));
    assert_eq!(parse_args(&args(&["version"])), Ok(Command::Version));
}

#[test]
fn help_text_names_version_and_commands() {
    let text = help_text("1.2.3");
    assert!(text.starts_with("drmcru 1.2.3\nLinux DRM/KMS custom resolution utility\n"));
    assert!(text.ends_with("  drmcru --help      Show this help"));
    assert_eq!(text.lines().count(), 8);
}
