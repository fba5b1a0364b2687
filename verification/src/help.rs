//! The help texts of the command line.

use vstd::prelude::*;
use crate::text::{chars_of, is_text, push_chars, push_str, string_of};

verus! {

/// The overview of all commands.
pub const OVERVIEW: &'static str = "\
mux — MuxUX command-line interface (Structure App)

Usage: mux <command> [args...]

Commands:
  status [--json]             Show MuxUX status
  view <name>                Look up a session or layout by name
  help [topic]               Show help

Layout commands:
  layout row <session> [--percent <n>]     Split session horizontally
  layout column <session> [--percent <n>]  Split session vertically
  layout merge <session>                   Merge all panes into one
  layout place <pane> <agent>              Place an agent in a pane
  layout capture <session>                 Capture pane contents
  layout session <name> [--cwd <path>]     Create a new tmux session

Client commands:
  client next                Switch to next client view
  client prev                Switch to previous client view

Watch command:
  watch [--since <ms>] [--timeout <ms>]  Stream state changes

Daemon commands:
  daemon run                 Start MuxUX daemon in foreground
  daemon stop                Stop running daemon

Run 'mux help <command>' for detailed help on a specific command.";

/// The help for the `layout` commands.
pub const GROUP_LAYOUT: &'static str = "\
Layout commands — manage tmux sessions and pane layout

  layout row <session> [--percent <n>]
    Split the session with a horizontal divider. Default 50%.

  layout column <session> [--percent <n>]
    Split the session with a vertical divider. Default 50%.

  layout merge <session>
    Merge all panes in a session into a single pane.

  layout place <pane> <agent>
    Place an agent into a specific tmux pane (e.g. %3).

  layout capture <session>
    Capture the current content of all panes in a session.

  layout session <name> [--cwd <path>]
    Create a new tmux session. Uses project_root as default cwd.";

/// The help for the `client` commands.
pub const GROUP_CLIENT: &'static str = "\
Client commands — navigate between client views

  client next
    Switch to the next client view.

  client prev
    Switch to the previous client view.";

/// The help for the `watch` commands.
pub const GROUP_WATCH: &'static str = "\
Watch command — stream state changes

  watch [--since <ms>] [--timeout <ms>]
    Stream state change events to stdout as they occur.";

/// The help for the `daemon` commands.
pub const GROUP_DAEMON: &'static str = "\
Daemon commands — manage the MuxUX daemon process

  daemon run
    Start the MuxUX daemon in the foreground.

  daemon stop
    Stop the running MuxUX daemon gracefully.";

/// The help for `status`.
pub const COMMAND_STATUS: &'static str = "mux status — show MuxUX status\n\nUsage: mux status [--json]";

/// The help for `view`.
pub const COMMAND_VIEW: &'static str = "mux view — look up a session or layout\n\nUsage: mux view <name>";

/// The help for `help`.
pub const COMMAND_HELP: &'static str = "mux help — show help\n\nUsage: mux help [topic]";

/// The help for `layout row`.
pub const COMMAND_LAYOUT_ROW: &'static str = "mux layout row — horizontal split\n\nUsage: mux layout row <session> [--percent <n>]";

/// The help for `layout column`.
pub const COMMAND_LAYOUT_COLUMN: &'static str = "mux layout column — vertical split\n\nUsage: mux layout column <session> [--percent <n>]";

/// The help for `layout merge`.
pub const COMMAND_LAYOUT_MERGE: &'static str = "mux layout merge — merge panes\n\nUsage: mux layout merge <session>";

/// The help for `layout place`.
pub const COMMAND_LAYOUT_PLACE: &'static str = "mux layout place — place agent in pane\n\nUsage: mux layout place <pane> <agent>";

/// The help for `layout capture`.
pub const COMMAND_LAYOUT_CAPTURE: &'static str = "mux layout capture — capture pane contents\n\nUsage: mux layout capture <session>";

/// The help for `layout session`.
pub const COMMAND_LAYOUT_SESSION: &'static str = "mux layout session — create tmux session\n\nUsage: mux layout session <name> [--cwd <path>]";

/// The help for `client next`.
pub const COMMAND_CLIENT_NEXT: &'static str = "mux client next — switch to next view\n\nUsage: mux client next";

/// The help for `client prev`.
pub const COMMAND_CLIENT_PREV: &'static str = "mux client prev — switch to previous view\n\nUsage: mux client prev";

/// The help for `watch`.
pub const COMMAND_WATCH: &'static str = "mux watch — stream state changes\n\nUsage: mux watch [--since <ms>] [--timeout <ms>]";

/// The help for `daemon run`.
pub const COMMAND_DAEMON_RUN: &'static str = "mux daemon run — start daemon\n\nUsage: mux daemon run";

/// The help for `daemon stop`.
pub const COMMAND_DAEMON_STOP: &'static str = "mux daemon stop — stop daemon\n\nUsage: mux daemon stop";

/// The help for a single command, if the topic names one.
pub open spec fn command_help_of(topic: Seq<char>) -> Option<Seq<char>> {
    if topic == "status"@ {
        Some(COMMAND_STATUS@)
    }     else if topic == "view"@ {
        Some(COMMAND_VIEW@)
    }     else if topic == "help"@ {
        Some(COMMAND_HELP@)
    }     else if topic == "layout.row"@ {
        Some(COMMAND_LAYOUT_ROW@)
    }     else if topic == "layout.column"@ {
        Some(COMMAND_LAYOUT_COLUMN@)
    }     else if topic == "layout.merge"@ {
        Some(COMMAND_LAYOUT_MERGE@)
    }     else if topic == "layout.place"@ {
        Some(COMMAND_LAYOUT_PLACE@)
    }     else if topic == "layout.capture"@ {
        Some(COMMAND_LAYOUT_CAPTURE@)
    }     else if topic == "layout.session"@ {
        Some(COMMAND_LAYOUT_SESSION@)
    }     else if topic == "client.next"@ {
        Some(COMMAND_CLIENT_NEXT@)
    }     else if topic == "client.prev"@ {
        Some(COMMAND_CLIENT_PREV@)
    }     else if topic == "watch"@ {
        Some(COMMAND_WATCH@)
    }     else if topic == "daemon.run"@ {
        Some(COMMAND_DAEMON_RUN@)
    }     else if topic == "daemon.stop"@ {
        Some(COMMAND_DAEMON_STOP@)
    } else {
        None
    }
}

/// The help for a group of commands, if the topic names one.
pub open spec fn group_help_of(topic: Seq<char>) -> Option<Seq<char>> {
    if topic == "layout"@ {
        Some(GROUP_LAYOUT@)
    }     else if topic == "client"@ {
        Some(GROUP_CLIENT@)
    }     else if topic == "watch"@ {
        Some(GROUP_WATCH@)
    }     else if topic == "daemon"@ {
        Some(GROUP_DAEMON@)
    } else {
        None
    }
}

/// The message for a topic that names neither a command nor a group.
pub open spec fn unknown_topic(topic: Seq<char>) -> Seq<char> {
    "Unknown help topic: '"@ + topic + "'. Run 'mux help' for a list of commands."@
}

/// The help text for a topic: the overview without one, else the help for
/// the command of that name, else for the group of that name, else the
/// message that the topic is unknown.
pub open spec fn help_of(topic: Option<Seq<char>>) -> Seq<char> {
    match topic {
        None => OVERVIEW@,
        Some(t) => match command_help_of(t) {
            Some(text) => text,
            None => match group_help_of(t) {
                Some(text) => text,
                None => unknown_topic(t),
            },
        },
    }
}

/// The overview of all commands.
fn overview() -> (text: String)
    ensures
        text@ == OVERVIEW@,
{
    OVERVIEW.to_owned()
}

/// The help for a group of commands.
fn group_help(group: &[char]) -> (text: Option<String>)
    ensures
        match text {
            Some(t) => group_help_of(group@) == Some(t@),
            None => group_help_of(group@) is None,
        },
{
    if is_text(group, "layout") {
        Some(GROUP_LAYOUT.to_owned())
    }     else if is_text(group, "client") {
        Some(GROUP_CLIENT.to_owned())
    }     else if is_text(group, "watch") {
        Some(GROUP_WATCH.to_owned())
    }     else if is_text(group, "daemon") {
        Some(GROUP_DAEMON.to_owned())
    } else {
        None
    }
}

/// The help for a single command.
fn command_help(command: &[char]) -> (text: Option<String>)
    ensures
        match text {
            Some(t) => command_help_of(command@) == Some(t@),
            None => command_help_of(command@) is None,
        },
{
    if is_text(command, "status") {
        Some(COMMAND_STATUS.to_owned())
    }     else if is_text(command, "view") {
        Some(COMMAND_VIEW.to_owned())
    }     else if is_text(command, "help") {
        Some(COMMAND_HELP.to_owned())
    }     else if is_text(command, "layout.row") {
        Some(COMMAND_LAYOUT_ROW.to_owned())
    }     else if is_text(command, "layout.column") {
        Some(COMMAND_LAYOUT_COLUMN.to_owned())
    }     else if is_text(command, "layout.merge") {
        Some(COMMAND_LAYOUT_MERGE.to_owned())
    }     else if is_text(command, "layout.place") {
        Some(COMMAND_LAYOUT_PLACE.to_owned())
    }     else if is_text(command, "layout.capture") {
        Some(COMMAND_LAYOUT_CAPTURE.to_owned())
    }     else if is_text(command, "layout.session") {
        Some(COMMAND_LAYOUT_SESSION.to_owned())
    }     else if is_text(command, "client.next") {
        Some(COMMAND_CLIENT_NEXT.to_owned())
    }     else if is_text(command, "client.prev") {
        Some(COMMAND_CLIENT_PREV.to_owned())
    }     else if is_text(command, "watch") {
        Some(COMMAND_WATCH.to_owned())
    }     else if is_text(command, "daemon.run") {
        Some(COMMAND_DAEMON_RUN.to_owned())
    }     else if is_text(command, "daemon.stop") {
        Some(COMMAND_DAEMON_STOP.to_owned())
    } else {
        None
    }
}

/// The help text for a topic, or the overview where none is given.
pub fn help_text(topic: Option<&str>) -> (text: String)
    ensures
        text@ == help_of(
            match topic {
                Some(t) => Some(t@),
                None => None,
            },
        ),
{
    match topic {
        None => overview(),
        Some(t) => {
            let chars = chars_of(t);
            if let Some(text) = command_help(chars.as_slice()) {
                return text;
            }
            if let Some(text) = group_help(chars.as_slice()) {
                return text;
            }
            let mut out: Vec<char> = Vec::new();
            push_str(&mut out, "Unknown help topic: '");
            push_chars(&mut out, chars.as_slice());
            push_str(&mut out, "'. Run 'mux help' for a list of commands.");
            string_of(out.as_slice())
        },
    }
}

} // verus!
