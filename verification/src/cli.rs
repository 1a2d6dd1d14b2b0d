//! The command line: what the arguments ask for, and the help text.
use crate::text::{joined, push_joined_strings, push_str, str_equal};
use vstd::prelude::*;

verus! {

#[derive(Debug, Clone, Copy, PartialEq, Eq, Structural)]
pub enum Command {
    Tui,
    Doctor,
    Help,
    Version,
}

/// The command one argument names, if any.
pub open spec fn command_of(arg: Seq<char>) -> Option<Command> {
    if arg == "-h"@ || arg == "--help"@ || arg == "help"@ {
        Some(Command::Help)
    } else if arg == "-V"@ || arg == "--version"@ || arg == "version"@ {
        Some(Command::Version)
    } else if arg == "doctor"@ || arg == "--doctor"@ {
        Some(Command::Doctor)
    } else {
        None
    }
}

/// What the arguments after the program name ask for: the TUI for none, the
/// command of a single known argument, an error otherwise.
pub open spec fn spec_parse_args(args: Seq<Seq<char>>) -> Result<Command, Seq<char>> {
    if args.len() == 0 {
        Ok(Command::Tui)
    } else if args.len() == 1 {
        match command_of(args[0]) {
            Some(c) => Ok(c),
            None => Err("unknown argument: "@ + args[0]),
        }
    } else {
        Err("too many arguments: "@ + joined(args, " "@))
    }
}

fn one_of(arg: &str, a: &str, b: &str, c: &str) -> (r: bool)
    ensures
        r == (arg@ == a@ || arg@ == b@ || arg@ == c@),
{
    str_equal(arg, a) || str_equal(arg, b) || str_equal(arg, c)
}

pub fn parse_args(args: &Vec<String>) -> (r: Result<Command, String>)
    ensures
        match r {
            Ok(c) => spec_parse_args(args.deep_view()) == Ok::<Command, Seq<char>>(c),
            Err(e) => spec_parse_args(args.deep_view()) == Err::<Command, Seq<char>>(e@),
        },
{
    if args.len() == 0 {
        return Ok(Command::Tui);
    }
    if args.len() == 1 {
        let arg = args[0].as_str();
        assert(args.deep_view()[0] == arg@);
        if one_of(arg, "-h", "--help", "help") {
            return Ok(Command::Help);
        }
        if one_of(arg, "-V", "--version", "version") {
            return Ok(Command::Version);
        }
        if str_equal(arg, "doctor") || str_equal(arg, "--doctor") {
            return Ok(Command::Doctor);
        }
        let mut e = String::from_str("unknown argument: ");
        push_str(&mut e, arg);
        return Err(e);
    }
    let mut e = String::from_str("too many arguments: ");
    push_joined_strings(&mut e, args, " ");
    Err(e)
}

/// The usage text, under a first line naming the program and `version`.
pub open spec fn spec_help_text(version: Seq<char>) -> Seq<char> {
    "drmcru "@ + version + "\nLinux DRM/KMS custom resolution utility\n\nUsage:\n  drmcru             Start the TUI\n  drmcru doctor      Print noninteractive diagnostics\n  drmcru --version   Print version\n  drmcru --help      Show this help"@
}

pub fn help_text(version: &str) -> (r: String)
    ensures
        r@ == spec_help_text(version@),
{
    let mut r = String::from_str("drmcru ");
    push_str(&mut r, version);
    push_str(
        &mut r,
        "\nLinux DRM/KMS custom resolution utility\n\nUsage:\n  drmcru             Start the TUI\n  drmcru doctor      Print noninteractive diagnostics\n  drmcru --version   Print version\n  drmcru --help      Show this help",
    );
    r
}

} // verus!
