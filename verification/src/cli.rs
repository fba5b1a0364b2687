//! The command line: from the arguments of `mux` to a command.

use vstd::prelude::*;
use crate::command::{Command, Request};
use crate::overlay::flag_value;
use crate::text::{chars_of, first_from, parse_u32, quote, quoting, str_is, u32_of};

verus! {

/// The arguments of a command line as values of the model.
pub open spec fn words_in(args: Seq<&str>) -> Seq<Seq<char>> {
    Seq::new(args.len(), |i: int| args[i]@)
}

/// The usage line of the `studio` command.
pub open spec fn studio_usage() -> Seq<char> {
    "Usage: mux studio --pane <id> --x <n> --y <n>"@
}

/// The command that `layout` and its arguments denote.
pub open spec fn layout_command_of(args: Seq<Seq<char>>) -> Result<Request, Seq<char>> {
    if args.len() < 2 {
        Err("Usage: mux layout <subcommand> ..."@)
    } else if args[1] == "row"@ {
        if args.len() < 3 {
            Err("Usage: mux layout row <session> [--percent <n>]"@)
        } else {
            Ok(Request::LayoutRow { session: args[2], percent: flag_value(args, "--percent"@) })
        }
    } else if args[1] == "column"@ {
        if args.len() < 3 {
            Err("Usage: mux layout column <session> [--percent <n>]"@)
        } else {
            Ok(Request::LayoutColumn { session: args[2], percent: flag_value(args, "--percent"@) })
        }
    } else if args[1] == "merge"@ {
        if args.len() < 3 {
            Err("Usage: mux layout merge <session>"@)
        } else {
            Ok(Request::LayoutMerge { session: args[2] })
        }
    } else if args[1] == "place"@ {
        if args.len() < 4 {
            Err("Usage: mux layout place <pane> <agent>"@)
        } else {
            Ok(Request::LayoutPlace { pane: args[2], agent: args[3] })
        }
    } else if args[1] == "capture"@ {
        if args.len() < 3 {
            Err("Usage: mux layout capture <session>"@)
        } else {
            Ok(Request::LayoutCapture { session: args[2] })
        }
    } else if args[1] == "session"@ {
        if args.len() < 3 {
            Err("Usage: mux layout session <name> [--cwd <path>]"@)
        } else {
            Ok(Request::LayoutSession { name: args[2], cwd: flag_value(args, "--cwd"@) })
        }
    } else {
        Err(quoting("Unknown layout subcommand: '"@, args[1], "'"@))
    }
}

/// The command that `client` and its arguments denote.
pub open spec fn client_command_of(args: Seq<Seq<char>>) -> Result<Request, Seq<char>> {
    if args.len() < 2 {
        Err("Usage: mux client <next|prev>"@)
    } else if args[1] == "next"@ {
        Ok(Request::ClientNext)
    } else if args[1] == "prev"@ {
        Ok(Request::ClientPrev)
    } else {
        Err(quoting("Unknown client subcommand: '"@, args[1], "'"@))
    }
}

/// The command that `daemon` and its arguments denote.
pub open spec fn daemon_command_of(args: Seq<Seq<char>>) -> Result<Request, Seq<char>> {
    if args.len() < 2 {
        Err("Usage: mux daemon <run|stop>"@)
    } else if args[1] == "run"@ {
        Ok(Request::DaemonRun)
    } else if args[1] == "stop"@ {
        Ok(Request::DaemonStop)
    } else {
        Err(quoting("Unknown daemon subcommand: '"@, args[1], "'"@))
    }
}

/// The command that `setup` and its arguments denote.
pub open spec fn setup_command_of(args: Seq<Seq<char>>) -> Result<Request, Seq<char>> {
    if args.len() < 2 {
        Err("Usage: mux setup <hook|unhook>"@)
    } else if args[1] == "hook"@ {
        Ok(Request::SetupHook)
    } else if args[1] == "unhook"@ {
        Ok(Request::RemoveHook)
    } else {
        Err(quoting("Unknown setup subcommand: '"@, args[1], "'"@))
    }
}

/// The command that `studio` and its flags denote: the pane and the two
/// coordinates must be given, the coordinates as unsigned numbers.
pub open spec fn studio_command_of(args: Seq<Seq<char>>) -> Result<Request, Seq<char>> {
    match flag_value(args, "--pane"@) {
        None => Err(studio_usage()),
        Some(pane) => match flag_value(args, "--x"@) {
            None => Err(studio_usage()),
            Some(x_text) => match u32_of(x_text) {
                None => Err("Invalid value for --x: expected integer"@),
                Some(x) => match flag_value(args, "--y"@) {
                    None => Err(studio_usage()),
                    Some(y_text) => match u32_of(y_text) {
                        None => Err("Invalid value for --y: expected integer"@),
                        Some(y) => Ok(Request::Studio { pane, x, y }),
                    },
                },
            },
        },
    }
}

/// The command that a command line denotes, or the message that says why it
/// denotes none.
pub open spec fn command_of(args: Seq<Seq<char>>) -> Result<Request, Seq<char>> {
    if args.len() == 0 {
        Err("No command specified. Run 'mux help' for usage."@)
    } else if args[0] == "status"@ {
        Ok(
            Request::Status {
                format: if args.len() > 1 && args[1] == "--json"@ {
                    Some("json"@)
                } else {
                    None
                },
            },
        )
    } else if args[0] == "view"@ {
        if args.len() < 2 {
            Err("Usage: mux view <name>"@)
        } else {
            Ok(Request::View { name: args[1] })
        }
    } else if args[0] == "help"@ {
        Ok(
            Request::Help {
                topic: if args.len() > 1 {
                    Some(args[1])
                } else {
                    None
                },
            },
        )
    } else if args[0] == "layout"@ {
        layout_command_of(args)
    } else if args[0] == "client"@ {
        client_command_of(args)
    } else if args[0] == "daemon"@ {
        daemon_command_of(args)
    } else if args[0] == "studio"@ {
        studio_command_of(args)
    } else if args[0] == "setup"@ {
        setup_command_of(args)
    } else if args[0] == "watch"@ {
        Ok(Request::Watch { since: None, timeout: None })
    } else {
        Err(quoting("Unknown command: '"@, args[0], "'. Run 'mux help' for usage."@))
    }
}

/// An outcome of reading a command line as a value of the model.
pub open spec fn command_outcome(outcome: Result<Command, String>) -> Result<Request, Seq<char>> {
    match outcome {
        Ok(command) => Ok(command@),
        Err(message) => Err(message@),
    }
}

/// The message that quotes an argument.
fn unknown(before: &str, arg: &str, after: &str) -> (message: String)
    ensures
        message@ == quoting(before@, arg@, after@),
{
    let chars = chars_of(arg);
    quote(before, chars.as_slice(), after)
}

/// The argument that follows the first occurrence of the flag.
pub fn find_flag(args: &[&str], flag: &str) -> (value: Option<String>)
    ensures
        match value {
            Some(text) => flag_value(words_in(args@), flag@) == Some(text@),
            None => flag_value(words_in(args@), flag@) is None,
        },
{
    let ghost test = |arg: Seq<char>| arg == flag@;
    let ghost all = words_in(args@);
    let mut i: usize = 0;
    while i < args.len()
        invariant
            i <= args.len(),
            all == words_in(args@),
            test == |arg: Seq<char>| arg == flag@,
            first_from(all, 0, test) == first_from(all, i as int, test),
        decreases args.len() - i,
    {
        assert(all[i as int] == args@[i as int]@);
        if str_is(args[i], flag) {
            if i + 1 < args.len() {
                assert(all[i + 1] == args@[i + 1]@);
                return Some(args[i + 1].to_owned());
            } else {
                return None;
            }
        }
        i += 1;
    }
    None
}

/// Reads the arguments of `layout`.
pub fn parse_layout(args: &[&str]) -> (outcome: Result<Command, String>)
    ensures
        command_outcome(outcome) == layout_command_of(words_in(args@)),
{
    let ghost all = words_in(args@);
    if args.len() < 2 {
        return Err("Usage: mux layout <subcommand> ...".to_owned());
    }
    assert(all[1] == args@[1]@);
    if args.len() > 2 {
        assert(all[2] == args@[2]@);
    }
    if args.len() > 3 {
        assert(all[3] == args@[3]@);
    }
    let sub = args[1];
    if str_is(sub, "row") {
        if args.len() < 3 {
            return Err("Usage: mux layout row <session> [--percent <n>]".to_owned());
        }
        let percent = find_flag(args, "--percent");
        Ok(Command::LayoutRow { session: args[2].to_owned(), percent })
    } else if str_is(sub, "column") {
        if args.len() < 3 {
            return Err("Usage: mux layout column <session> [--percent <n>]".to_owned());
        }
        let percent = find_flag(args, "--percent");
        Ok(Command::LayoutColumn { session: args[2].to_owned(), percent })
    } else if str_is(sub, "merge") {
        if args.len() < 3 {
            return Err("Usage: mux layout merge <session>".to_owned());
        }
        Ok(Command::LayoutMerge { session: args[2].to_owned() })
    } else if str_is(sub, "place") {
        if args.len() < 4 {
            return Err("Usage: mux layout place <pane> <agent>".to_owned());
        }
        Ok(Command::LayoutPlace { pane: args[2].to_owned(), agent: args[3].to_owned() })
    } else if str_is(sub, "capture") {
        if args.len() < 3 {
            return Err("Usage: mux layout capture <session>".to_owned());
        }
        Ok(Command::LayoutCapture { session: args[2].to_owned() })
    } else if str_is(sub, "session") {
        if args.len() < 3 {
            return Err("Usage: mux layout session <name> [--cwd <path>]".to_owned());
        }
        let cwd = find_flag(args, "--cwd");
        Ok(Command::LayoutSession { name: args[2].to_owned(), cwd })
    } else {
        Err(unknown("Unknown layout subcommand: '", sub, "'"))
    }
}

/// Reads the arguments of `client`.
pub fn parse_client(args: &[&str]) -> (outcome: Result<Command, String>)
    ensures
        command_outcome(outcome) == client_command_of(words_in(args@)),
{
    if args.len() < 2 {
        return Err("Usage: mux client <next|prev>".to_owned());
    }
    assert(words_in(args@)[1] == args@[1]@);
    if str_is(args[1], "next") {
        Ok(Command::ClientNext)
    } else if str_is(args[1], "prev") {
        Ok(Command::ClientPrev)
    } else {
        Err(unknown("Unknown client subcommand: '", args[1], "'"))
    }
}

/// Reads the arguments of `daemon`.
pub fn parse_daemon(args: &[&str]) -> (outcome: Result<Command, String>)
    ensures
        command_outcome(outcome) == daemon_command_of(words_in(args@)),
{
    if args.len() < 2 {
        return Err("Usage: mux daemon <run|stop>".to_owned());
    }
    assert(words_in(args@)[1] == args@[1]@);
    if str_is(args[1], "run") {
        Ok(Command::DaemonRun)
    } else if str_is(args[1], "stop") {
        Ok(Command::DaemonStop)
    } else {
        Err(unknown("Unknown daemon subcommand: '", args[1], "'"))
    }
}

/// Reads the flags of `studio`.
pub fn parse_studio(args: &[&str]) -> (outcome: Result<Command, String>)
    ensures
        command_outcome(outcome) == studio_command_of(words_in(args@)),
{
    let pane = match find_flag(args, "--pane") {
        Some(pane) => pane,
        None => {
            return Err("Usage: mux studio --pane <id> --x <n> --y <n>".to_owned());
        },
    };
    let x_text = match find_flag(args, "--x") {
        Some(text) => text,
        None => {
            return Err("Usage: mux studio --pane <id> --x <n> --y <n>".to_owned());
        },
    };
    let x_chars = chars_of(x_text.as_str());
    let x = match parse_u32(x_chars.as_slice()) {
        Some(x) => x,
        None => {
            return Err("Invalid value for --x: expected integer".to_owned());
        },
    };
    let y_text = match find_flag(args, "--y") {
        Some(text) => text,
        None => {
            return Err("Usage: mux studio --pane <id> --x <n> --y <n>".to_owned());
        },
    };
    let y_chars = chars_of(y_text.as_str());
    let y = match parse_u32(y_chars.as_slice()) {
        Some(y) => y,
        None => {
            return Err("Invalid value for --y: expected integer".to_owned());
        },
    };
    Ok(Command::Studio { pane, x, y })
}

/// Reads the arguments of `setup`.
pub fn parse_setup(args: &[&str]) -> (outcome: Result<Command, String>)
    ensures
        command_outcome(outcome) == setup_command_of(words_in(args@)),
{
    if args.len() < 2 {
        return Err("Usage: mux setup <hook|unhook>".to_owned());
    }
    assert(words_in(args@)[1] == args@[1]@);
    if str_is(args[1], "hook") {
        Ok(Command::SetupHook)
    } else if str_is(args[1], "unhook") {
        Ok(Command::RemoveHook)
    } else {
        Err(unknown("Unknown setup subcommand: '", args[1], "'"))
    }
}

/// Reads a command line, without the name of the program: the command that
/// it denotes, or the message for the user where it denotes none.
pub fn parse_args(args: &[&str]) -> (outcome: Result<Command, String>)
    ensures
        command_outcome(outcome) == command_of(words_in(args@)),
{
    let ghost all = words_in(args@);
    if args.len() == 0 {
        return Err("No command specified. Run 'mux help' for usage.".to_owned());
    }
    assert(all[0] == args@[0]@);
    if args.len() > 1 {
        assert(all[1] == args@[1]@);
    }
    let name = args[0];
    if str_is(name, "status") {
        let format = if args.len() > 1 && str_is(args[1], "--json") {
            Some("json".to_owned())
        } else {
            None
        };
        Ok(Command::Status { format })
    } else if str_is(name, "view") {
        if args.len() < 2 {
            return Err("Usage: mux view <name>".to_owned());
        }
        Ok(Command::View { name: args[1].to_owned() })
    } else if str_is(name, "help") {
        let topic = if args.len() > 1 {
            Some(args[1].to_owned())
        } else {
            None
        };
        Ok(Command::Help { topic })
    } else if str_is(name, "layout") {
        parse_layout(args)
    } else if str_is(name, "client") {
        parse_client(args)
    } else if str_is(name, "daemon") {
        parse_daemon(args)
    } else if str_is(name, "studio") {
        parse_studio(args)
    } else if str_is(name, "setup") {
        parse_setup(args)
    } else if str_is(name, "watch") {
        Ok(Command::Watch { since: None, timeout: None })
    } else {
        Err(unknown("Unknown command: '", name, "'. Run 'mux help' for usage."))
    }
}

} // verus!
