//! The command-line surface: which subcommand an argument list asks for, and
//! the exit code that each outcome maps to.
use vstd::prelude::*;

use crate::text::same_text;

verus! {

pub const EXIT_OK: i32 = 0;

pub const EXIT_ERROR: i32 = 1;

pub const EXIT_USAGE: i32 = 2;

pub const EXIT_CHECK_FAILED: i32 = 10;

/// A subcommand, or none that is known.
#[derive(Debug, Clone, Copy, PartialEq, Eq)]
pub enum Command {
    Help,
    Version,
    Init,
    Status,
    Check,
    Run,
    Unknown,
}

/// The command that a word names.
pub open spec fn command_named(w: Seq<char>) -> Command {
    if w == "help"@ {
        Command::Help
    } else if w == "version"@ {
        Command::Version
    } else if w == "init"@ {
        Command::Init
    } else if w == "status"@ {
        Command::Status
    } else if w == "check"@ {
        Command::Check
    } else if w == "run"@ {
        Command::Run
    } else {
        Command::Unknown
    }
}

/// The command of an argument list whose first item is the program's name:
/// help where no second item follows.
pub open spec fn command_of(args: Seq<Seq<char>>) -> Command {
    if args.len() < 2 {
        Command::Help
    } else {
        command_named(args[1])
    }
}

/// The exit code of a command; `status` succeeds where the configuration
/// loaded.
pub open spec fn exit_code_spec(c: Command, config_loaded: bool) -> i32 {
    match c {
        Command::Help => EXIT_OK,
        Command::Version => EXIT_OK,
        Command::Init => EXIT_ERROR,
        Command::Status => if config_loaded {
            EXIT_OK
        } else {
            EXIT_ERROR
        },
        Command::Check => EXIT_CHECK_FAILED,
        Command::Run => EXIT_ERROR,
        Command::Unknown => EXIT_USAGE,
    }
}

/// The command that an argument list asks for; its first item is the
/// program's name.
pub fn parse_command(args: &Vec<String>) -> (r: Command)
    ensures
        r == command_of(args@.map_values(|s: String| s@)),
{
    if args.len() < 2 {
        return Command::Help;
    }
    let w = &args[1];
    assert(args@.map_values(|s: String| s@)[1] == w@);
    if same_text(w.as_str(), "help") {
        Command::Help
    } else if same_text(w.as_str(), "version") {
        Command::Version
    } else if same_text(w.as_str(), "init") {
        Command::Init
    } else if same_text(w.as_str(), "status") {
        Command::Status
    } else if same_text(w.as_str(), "check") {
        Command::Check
    } else if same_text(w.as_str(), "run") {
        Command::Run
    } else {
        Command::Unknown
    }
}

impl Command {
    /// The exit code of this command; `status` succeeds where the
    /// configuration loaded.
    pub fn exit_code(&self, config_loaded: bool) -> (r: i32)
        ensures
            r == exit_code_spec(*self, config_loaded),
    {
        match self {
            Command::Help => EXIT_OK,
            Command::Version => EXIT_OK,
            Command::Init => EXIT_ERROR,
            Command::Status => if config_loaded {
                EXIT_OK
            } else {
                EXIT_ERROR
            },
            Command::Check => EXIT_CHECK_FAILED,
            Command::Run => EXIT_ERROR,
            Command::Unknown => EXIT_USAGE,
        }
    }
}

/// The exit code of an invocation with these arguments, given whether the
/// configuration loaded.
pub fn parse_and_run(args: &Vec<String>, config_loaded: bool) -> (r: i32)
    ensures
        r == exit_code_spec(command_of(args@.map_values(|s: String| s@)), config_loaded),
{
    parse_command(args).exit_code(config_loaded)
}

} // verus!
