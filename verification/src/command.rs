//! The commands of the application: layout, session and structure operations.

use vstd::prelude::*;

verus! {

/// A command, as the command line and the front end issue it.
#[derive(Debug, PartialEq)]
pub enum Command {
    Status { format: Option<String> },
    SessionList,
    View { name: String },
    LayoutRow { session: String, percent: Option<String> },
    LayoutColumn { session: String, percent: Option<String> },
    LayoutMerge { session: String },
    LayoutPlace { pane: String, agent: String },
    LayoutCapture { session: String },
    LayoutSession { name: String, cwd: Option<String> },
    ClientNext,
    ClientPrev,
    Watch { since: Option<String>, timeout: Option<String> },
    DaemonRun,
    DaemonStop,
    Help { topic: Option<String> },
    Studio { pane: String, x: u32, y: u32 },
    SetupHook,
    RemoveHook,
}

/// A command as a value of the model.
pub enum Request {
    Status { format: Option<Seq<char>> },
    SessionList,
    View { name: Seq<char> },
    LayoutRow { session: Seq<char>, percent: Option<Seq<char>> },
    LayoutColumn { session: Seq<char>, percent: Option<Seq<char>> },
    LayoutMerge { session: Seq<char> },
    LayoutPlace { pane: Seq<char>, agent: Seq<char> },
    LayoutCapture { session: Seq<char> },
    LayoutSession { name: Seq<char>, cwd: Option<Seq<char>> },
    ClientNext,
    ClientPrev,
    Watch { since: Option<Seq<char>>, timeout: Option<Seq<char>> },
    DaemonRun,
    DaemonStop,
    Help { topic: Option<Seq<char>> },
    Studio { pane: Seq<char>, x: u32, y: u32 },
    SetupHook,
    RemoveHook,
}

/// An optional string as a value of the model.
pub open spec fn optional_text(text: Option<String>) -> Option<Seq<char>> {
    match text {
        Some(t) => Some(t@),
        None => None,
    }
}

impl View for Command {
    type V = Request;

    open spec fn view(&self) -> Request {
        match self {
            Command::Status { format } => Request::Status { format: optional_text(*format) },
            Command::SessionList => Request::SessionList,
            Command::View { name } => Request::View { name: name@ },
            Command::LayoutRow { session, percent } => Request::LayoutRow {
                session: session@,
                percent: optional_text(*percent),
            },
            Command::LayoutColumn { session, percent } => Request::LayoutColumn {
                session: session@,
                percent: optional_text(*percent),
            },
            Command::LayoutMerge { session } => Request::LayoutMerge { session: session@ },
            Command::LayoutPlace { pane, agent } => Request::LayoutPlace {
                pane: pane@,
                agent: agent@,
            },
            Command::LayoutCapture { session } => Request::LayoutCapture { session: session@ },
            Command::LayoutSession { name, cwd } => Request::LayoutSession {
                name: name@,
                cwd: optional_text(*cwd),
            },
            Command::ClientNext => Request::ClientNext,
            Command::ClientPrev => Request::ClientPrev,
            Command::Watch { since, timeout } => Request::Watch {
                since: optional_text(*since),
                timeout: optional_text(*timeout),
            },
            Command::DaemonRun => Request::DaemonRun,
            Command::DaemonStop => Request::DaemonStop,
            Command::Help { topic } => Request::Help { topic: optional_text(*topic) },
            Command::Studio { pane, x, y } => Request::Studio { pane: pane@, x: *x, y: *y },
            Command::SetupHook => Request::SetupHook,
            Command::RemoveHook => Request::RemoveHook,
        }
    }
}

/// A copy of an optional string.
fn copy_of(text: &Option<String>) -> (copy: Option<String>)
    ensures
        optional_text(copy) == optional_text(*text),
{
    match text {
        Some(t) => Some(t.clone()),
        None => None,
    }
}

impl Clone for Command {
    fn clone(&self) -> (copy: Self)
        ensures
            copy@ == self@,
    {
        match self {
            Command::Status { format } => Command::Status { format: copy_of(format) },
            Command::SessionList => Command::SessionList,
            Command::View { name } => Command::View { name: name.clone() },
            Command::LayoutRow { session, percent } => Command::LayoutRow {
                session: session.clone(),
                percent: copy_of(percent),
            },
            Command::LayoutColumn { session, percent } => Command::LayoutColumn {
                session: session.clone(),
                percent: copy_of(percent),
            },
            Command::LayoutMerge { session } => Command::LayoutMerge { session: session.clone() },
            Command::LayoutPlace { pane, agent } => Command::LayoutPlace {
                pane: pane.clone(),
                agent: agent.clone(),
            },
            Command::LayoutCapture { session } => Command::LayoutCapture {
                session: session.clone(),
            },
            Command::LayoutSession { name, cwd } => Command::LayoutSession {
                name: name.clone(),
                cwd: copy_of(cwd),
            },
            Command::ClientNext => Command::ClientNext,
            Command::ClientPrev => Command::ClientPrev,
            Command::Watch { since, timeout } => Command::Watch {
                since: copy_of(since),
                timeout: copy_of(timeout),
            },
            Command::DaemonRun => Command::DaemonRun,
            Command::DaemonStop => Command::DaemonStop,
            Command::Help { topic } => Command::Help { topic: copy_of(topic) },
            Command::Studio { pane, x, y } => Command::Studio { pane: pane.clone(), x: *x, y: *y },
            Command::SetupHook => Command::SetupHook,
            Command::RemoveHook => Command::RemoveHook,
        }
    }
}

} // verus!
