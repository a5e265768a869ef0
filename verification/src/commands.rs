//! The fixed command set of a bot that runs without a registry: each command
//! with its name and help line, the `-d` convention that tells dev from
//! production, and the help listing.

use crate::flags::{args_have_flag, args_without_flag, extract_dev_flag};
use crate::strings::{join_lines, strings_view};
use crate::text::{joined, str_eq};
use vstd::prelude::*;

verus! {

/// A command of the fixed set.
pub trait Command {
    /// The token that invokes the command.
    fn name(&self) -> String;

    /// A one-line description.
    fn help(&self) -> String;

    /// Whether the command runs on dev instances only.
    fn dev_only(&self) -> bool;
}

/// `!ping`.
#[derive(Clone, Copy, Debug, PartialEq, Eq, Structural)]
pub struct PingCommand;

/// `!diag`.
#[derive(Clone, Copy, Debug, PartialEq, Eq, Structural)]
pub struct DiagCommand;

/// `!help`.
#[derive(Clone, Copy, Debug, PartialEq, Eq, Structural)]
pub struct HelpCommand;

/// `!mode`.
#[derive(Clone, Copy, Debug, PartialEq, Eq, Structural)]
pub struct ModeCommand;

/// `!ai`.
#[derive(Clone, Copy, Debug, PartialEq, Eq, Structural)]
pub struct AiCommand;

impl Command for PingCommand {
    fn name(&self) -> (r: String)
        ensures
            r@ == "!ping"@,
    {
        "!ping".to_owned()
    }

    fn help(&self) -> (r: String)
        ensures
            r@ == "Responds with pong."@,
    {
        "Responds with pong.".to_owned()
    }

    fn dev_only(&self) -> (b: bool)
        ensures
            !b,
    {
        false
    }
}

impl Command for DiagCommand {
    fn name(&self) -> (r: String)
        ensures
            r@ == "!diag"@,
    {
        "!diag".to_owned()
    }

    fn help(&self) -> (r: String)
        ensures
            r@ == "Show encryption/session diagnostics."@,
    {
        "Show encryption/session diagnostics.".to_owned()
    }

    fn dev_only(&self) -> (b: bool)
        ensures
            !b,
    {
        false
    }
}

impl Command for HelpCommand {
    fn name(&self) -> (r: String)
        ensures
            r@ == "!help"@,
    {
        "!help".to_owned()
    }

    fn help(&self) -> (r: String)
        ensures
            r@ == "List available commands."@,
    {
        "List available commands.".to_owned()
    }

    fn dev_only(&self) -> (b: bool)
        ensures
            !b,
    {
        false
    }
}

impl Command for ModeCommand {
    fn name(&self) -> (r: String)
        ensures
            r@ == "!mode"@,
    {
        "!mode".to_owned()
    }

    fn help(&self) -> (r: String)
        ensures
            r@ == "Show current mode (dev/prod) and how to target it."@,
    {
        "Show current mode (dev/prod) and how to target it.".to_owned()
    }

    fn dev_only(&self) -> (b: bool)
        ensures
            !b,
    {
        false
    }
}

impl Command for AiCommand {
    fn name(&self) -> (r: String)
        ensures
            r@ == "!ai"@,
    {
        "!ai".to_owned()
    }

    fn help(&self) -> (r: String)
        ensures
            r@ == "Ask the AI: !ai <prompt> (dev only)"@,
    {
        "Ask the AI: !ai <prompt> (dev only)".to_owned()
    }

    fn dev_only(&self) -> (b: bool)
        ensures
            b,
    {
        true
    }
}

/// The commands of the fixed set.
#[derive(Clone, Copy, Debug, PartialEq, Eq, Structural)]
pub enum CommandId {
    Ping,
    Diag,
    Help,
    Mode,
    Ai,
}

/// The command that `token` invokes.
pub open spec fn command_of(token: Seq<char>) -> Option<CommandId> {
    if token == "!ping"@ {
        Some(CommandId::Ping)
    } else if token == "!diag"@ {
        Some(CommandId::Diag)
    } else if token == "!help"@ {
        Some(CommandId::Help)
    } else if token == "!mode"@ {
        Some(CommandId::Mode)
    } else if token == "!ai"@ {
        Some(CommandId::Ai)
    } else {
        None
    }
}

/// Looks a command token up in the fixed set.
pub fn default_registry(token: &str) -> (r: Option<CommandId>)
    ensures
        r == command_of(token@),
{
    if str_eq(token, "!ping") {
        Some(CommandId::Ping)
    } else if str_eq(token, "!diag") {
        Some(CommandId::Diag)
    } else if str_eq(token, "!help") {
        Some(CommandId::Help)
    } else if str_eq(token, "!mode") {
        Some(CommandId::Mode)
    } else if str_eq(token, "!ai") {
        Some(CommandId::Ai)
    } else {
        None
    }
}

/// Whether a command of the fixed set runs on dev instances only.
pub open spec fn command_dev_only(id: CommandId) -> bool {
    id == CommandId::Ai
}

/// What becomes of a command under the `-d` convention.
#[derive(Debug, PartialEq, Eq)]
pub enum FlaggedRun {
    /// The command is for the other mode: with `-d` on production, without on dev.
    WrongMode,
    /// The command is dev-only and this is production.
    DevOnly,
    /// The command runs with these arguments.
    Run(String),
}

/// Decides whether a command of the fixed set runs on this instance: a dev
/// instance handles exactly the commands that carry `-d` or `--dev`, a
/// production instance exactly those that do not, and a dev-only command
/// runs on dev instances alone. The flag is taken out of the arguments.
pub fn flagged_run(id: CommandId, args: &str, dev_active: bool) -> (r: FlaggedRun)
    ensures
        args_have_flag(args@, "-d"@, "--dev"@) != dev_active ==> r == FlaggedRun::WrongMode,
        args_have_flag(args@, "-d"@, "--dev"@) == dev_active && command_dev_only(id)
            && !dev_active ==> r == FlaggedRun::DevOnly,
        args_have_flag(args@, "-d"@, "--dev"@) == dev_active && !(command_dev_only(id)
            && !dev_active) ==> r is Run && r->Run_0@ == args_without_flag(
            args@,
            "-d"@,
            "--dev"@,
        ),
{
    let (clean, flag) = extract_dev_flag(args);
    let dev_only = match id {
        CommandId::Ai => true,
        _ => false,
    };
    if flag != dev_active {
        FlaggedRun::WrongMode
    } else if dev_only && !dev_active {
        FlaggedRun::DevOnly
    } else {
        FlaggedRun::Run(clean)
    }
}

/// The lines of the help listing, commands in alphabetical order; the
/// dev-only command shows on dev instances alone.
pub open spec fn help_lines(dev_active: bool) -> Seq<Seq<char>> {
    seq!["Available commands:"@] + (if dev_active {
        seq!["!ai \u{2014} Ask the AI: !ai <prompt> (dev only)"@]
    } else {
        Seq::empty()
    }) + seq![
        "!diag \u{2014} Show encryption/session diagnostics."@,
        "!help \u{2014} List available commands."@,
        "!mode \u{2014} Show current mode (dev/prod) and how to target it."@,
        "!ping \u{2014} Responds with pong."@,
    ]
}

/// The help listing of the fixed set.
pub fn help_listing(dev_active: bool) -> (out: String)
    ensures
        out@ == joined(help_lines(dev_active), seq!['\n']),
{
    let mut lines: Vec<String> = Vec::new();
    lines.push("Available commands:".to_owned());
    if dev_active {
        lines.push("!ai \u{2014} Ask the AI: !ai <prompt> (dev only)".to_owned());
    }
    lines.push("!diag \u{2014} Show encryption/session diagnostics.".to_owned());
    lines.push("!help \u{2014} List available commands.".to_owned());
    lines.push("!mode \u{2014} Show current mode (dev/prod) and how to target it.".to_owned());
    lines.push("!ping \u{2014} Responds with pong.".to_owned());
    assert(strings_view(lines@) =~= help_lines(dev_active));
    join_lines(&lines)
}

/// The lines of the mode report under the `-d` convention.
pub open spec fn flag_mode_lines(dev_active: bool) -> Seq<Seq<char>> {
    if dev_active {
        seq![
            "mode: dev"@,
            "this instance handles commands that include -d"@,
            "example: !diag -d"@,
        ]
    } else {
        seq![
            "mode: prod"@,
            "this instance handles commands without -d"@,
            "example: !diag"@,
        ]
    }
}

/// The mode report under the `-d` convention.
pub fn flag_mode_report(dev_active: bool) -> (out: String)
    ensures
        out@ == joined(flag_mode_lines(dev_active), seq!['\n']),
{
    let mut lines: Vec<String> = Vec::new();
    if dev_active {
        lines.push("mode: dev".to_owned());
        lines.push("this instance handles commands that include -d".to_owned());
        lines.push("example: !diag -d".to_owned());
    } else {
        lines.push("mode: prod".to_owned());
        lines.push("this instance handles commands without -d".to_owned());
        lines.push("example: !diag".to_owned());
    }
    assert(strings_view(lines@) =~= flag_mode_lines(dev_active));
    join_lines(&lines)
}

} // verus!
