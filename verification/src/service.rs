//! What to do with a command that arrives over the service socket.

use vstd::prelude::*;
use crate::command::{optional_text, Command, Request};
use crate::text::{chars_of, copy_range, parse_u64, push_str, string_of, u64_of};

verus! {

/// How long a watcher waits where it names no time, in milliseconds.
pub const DEFAULT_WATCH_TIMEOUT_MS: u64 = 30_000;

/// How many characters of a command are told to the watchers.
pub const SUMMARY_LIMIT: usize = 200;

/// What the service does with a connection once it has read its command.
#[derive(Clone, Copy, Debug, PartialEq, Eq, Structural)]
pub enum ConnectionPlan {
    /// Keep the connection as a watcher of changes since `since_ms`, for at
    /// most `timeout_ms`.
    Watch { since_ms: Option<u64>, timeout_ms: u64 },
    /// Carry the command out, answer, and shut the service down.
    Shutdown,
    /// Carry the command out, answer, and tell the watchers.
    Serve,
}

/// The number that an optional text gives, if it gives one.
pub open spec fn optional_number(text: Option<Seq<char>>) -> Option<u64> {
    match text {
        Some(t) => u64_of(t),
        None => None,
    }
}

/// The plan for a command.
pub open spec fn plan_of(request: Request) -> ConnectionPlan {
    match request {
        Request::Watch { since, timeout } => ConnectionPlan::Watch {
            since_ms: optional_number(since),
            timeout_ms: match optional_number(timeout) {
                Some(n) => n,
                None => DEFAULT_WATCH_TIMEOUT_MS,
            },
        },
        Request::DaemonStop => ConnectionPlan::Shutdown,
        _ => ConnectionPlan::Serve,
    }
}

/// The number that an optional text gives.
fn number_of(text: &Option<String>) -> (number: Option<u64>)
    ensures
        number == optional_number(optional_text(*text)),
{
    match text {
        Some(t) => {
            let chars = chars_of(t.as_str());
            parse_u64(chars.as_slice())
        },
        None => None,
    }
}

/// Decides what the service does with a command: a watch is registered
/// with its times, a stop is carried out and ends the service, anything else
/// is carried out and told to the watchers.
pub fn plan_connection(cmd: &Command) -> (plan: ConnectionPlan)
    ensures
        plan == plan_of(cmd@),
{
    match cmd {
        Command::Watch { since, timeout } => {
            let since_ms = number_of(since);
            let timeout_ms = match number_of(timeout) {
                Some(n) => n,
                None => DEFAULT_WATCH_TIMEOUT_MS,
            };
            ConnectionPlan::Watch { since_ms, timeout_ms }
        },
        Command::DaemonStop => ConnectionPlan::Shutdown,
        _ => ConnectionPlan::Serve,
    }
}

/// The summary of a command for the watchers: its description, cut after
/// `SUMMARY_LIMIT` characters and marked with three dots where it is longer.
pub open spec fn summary_of(description: Seq<char>) -> Seq<char> {
    if description.len() > SUMMARY_LIMIT {
        description.subrange(0, SUMMARY_LIMIT as int) + "..."@
    } else {
        description
    }
}

/// Cuts the description of a command to the length told to the watchers.
pub fn summarize(description: &str) -> (summary: String)
    ensures
        summary@ == summary_of(description@),
{
    let chars = chars_of(description);
    if chars.len() > SUMMARY_LIMIT {
        let mut out = copy_range(chars.as_slice(), 0, SUMMARY_LIMIT);
        push_str(&mut out, "...");
        string_of(out.as_slice())
    } else {
        description.to_owned()
    }
}

} // verus!
