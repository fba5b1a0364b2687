//! The runtime that turns commands into replies and into actions for the
//! multiplexer. It decides; it runs nothing itself.

use vstd::prelude::*;
use crate::command::{optional_text, Command, Request};
use crate::data::parts::json_quote;
use crate::data::parts::json_string;
use crate::help::{help_of, help_text};
use crate::infrastructure::tmux::{
    bind_mouse_hook_command, list_panes_command, parse_list_sessions, sessions_of,
    TmuxCommandBuilder,
};
use crate::text::{
    chars_of, decimal, parse_u32, push_decimal, push_str, string_of, strings_of, u32_of,
};
use crate::types::config::MuxSettings;

verus! {

/// The direction of the divider of a split.
#[derive(Clone, Copy, Debug, PartialEq, Eq, Structural)]
pub enum Direction {
    Horizontal,
    Vertical,
}

/// Something for the multiplexer to do.
#[derive(Debug, PartialEq)]
pub enum Action {
    SplitPane { session: String, direction: Direction, percent: u32 },
    PlaceAgent { pane_id: String, agent: String },
    CreateSession { name: String, cwd: String },
}

/// An action as a value of the model.
pub enum Step {
    SplitPane { session: Seq<char>, direction: Direction, percent: u32 },
    PlaceAgent { pane_id: Seq<char>, agent: Seq<char> },
    CreateSession { name: Seq<char>, cwd: Seq<char> },
}

impl View for Action {
    type V = Step;

    open spec fn view(&self) -> Step {
        match self {
            Action::SplitPane { session, direction, percent } => Step::SplitPane {
                session: session@,
                direction: *direction,
                percent: *percent,
            },
            Action::PlaceAgent { pane_id, agent } => Step::PlaceAgent {
                pane_id: pane_id@,
                agent: agent@,
            },
            Action::CreateSession { name, cwd } => Step::CreateSession { name: name@, cwd: cwd@ },
        }
    }
}

impl Clone for Action {
    fn clone(&self) -> (copy: Self)
        ensures
            copy@ == self@,
    {
        match self {
            Action::SplitPane { session, direction, percent } => Action::SplitPane {
                session: session.clone(),
                direction: *direction,
                percent: *percent,
            },
            Action::PlaceAgent { pane_id, agent } => Action::PlaceAgent {
                pane_id: pane_id.clone(),
                agent: agent.clone(),
            },
            Action::CreateSession { name, cwd } => Action::CreateSession {
                name: name.clone(),
                cwd: cwd.clone(),
            },
        }
    }
}

/// The reply to a command.
#[derive(Debug, PartialEq)]
pub enum Response {
    Success { output: String },
    Error { message: String },
}

/// A reply as a value of the model.
pub enum Reply {
    Success { output: Seq<char> },
    Error { message: Seq<char> },
}

impl View for Response {
    type V = Reply;

    open spec fn view(&self) -> Reply {
        match self {
            Response::Success { output } => Reply::Success { output: output@ },
            Response::Error { message } => Reply::Error { message: message@ },
        }
    }
}

/// The steps that a list of actions stands for.
pub open spec fn steps_of(actions: Seq<Action>) -> Seq<Step> {
    Seq::new(actions.len(), |i: int| actions[i]@)
}

/// The share of a split: the number given, 50 where none or no number is given.
pub open spec fn split_percent(percent: Option<Seq<char>>) -> u32 {
    match percent {
        Some(text) => match u32_of(text) {
            Some(n) => n,
            None => 50,
        },
        None => 50,
    }
}

/// The names of sessions as a JSON array of objects with a `name`.
pub open spec fn names_json(names: Seq<Seq<char>>) -> Seq<char>
    decreases names.len(),
{
    if names.len() == 0 {
        Seq::empty()
    } else if names.len() == 1 {
        "{\"name\":"@ + json_string(names[0]) + "}"@
    } else {
        names_json(names.drop_last()) + ","@ + "{\"name\":"@ + json_string(names.last()) + "}"@
    }
}

/// The reply to `session.list`: the sessions of the listing as JSON, the
/// empty array where there is no listing.
pub open spec fn session_list_output(listing: Option<Seq<char>>) -> Seq<char> {
    match listing {
        Some(text) => "["@ + names_json(sessions_of(text)) + "]"@,
        None => "[]"@,
    }
}

/// The reply to a command.
pub open spec fn reply_to(request: Request, listing: Option<Seq<char>>) -> Reply {
    match request {
        Request::Status { format } => Reply::Success { output: "MuxUX status: running"@ },
        Request::SessionList => Reply::Success { output: session_list_output(listing) },
        Request::View { name } => Reply::Success { output: "MuxUX view: "@ + name },
        Request::LayoutRow { session, percent } => Reply::Success { output: "Row split queued"@ },
        Request::LayoutColumn { session, percent } => Reply::Success { output: "Column split queued"@ },
        Request::LayoutMerge { session } => Reply::Success { output: "Merge queued"@ },
        Request::LayoutPlace { pane, agent } => Reply::Success {
            output: "Agent '"@ + agent + "' placed in pane"@,
        },
        Request::LayoutCapture { session } => Reply::Success {
            output: "Capture queued: "@ + list_panes_command(session),
        },
        Request::LayoutSession { name, cwd } => Reply::Success {
            output: "Session '"@ + name + "' creation queued"@,
        },
        Request::ClientNext => Reply::Success { output: "Switched to next client"@ },
        Request::ClientPrev => Reply::Success { output: "Switched to previous client"@ },
        Request::Watch { since, timeout } => Reply::Error {
            message: "Watch commands are handled at the service layer"@,
        },
        Request::DaemonRun => Reply::Error {
            message: "DaemonRun must be handled by the binary"@,
        },
        Request::DaemonStop => Reply::Success { output: "MuxUX daemon shutting down"@ },
        Request::Help { topic } => Reply::Success { output: help_of(topic) },
        Request::Studio { pane, x, y } => Reply::Success {
            output: "overlay target: pane="@ + pane + " x="@ + decimal(x as nat) + " y="@ + decimal(
                y as nat,
            ),
        },
        Request::SetupHook => Reply::Success { output: bind_mouse_hook_command("mux"@) },
        Request::RemoveHook => Reply::Success { output: "tmux unbind -n MouseDown3Pane"@ },
    }
}

/// The actions that a command asks of the multiplexer.
pub open spec fn steps_for(request: Request, project_root: Seq<char>) -> Seq<Step> {
    match request {
        Request::LayoutRow { session, percent } => seq![
            Step::SplitPane {
                session,
                direction: Direction::Horizontal,
                percent: split_percent(percent),
            },
        ],
        Request::LayoutColumn { session, percent } => seq![
            Step::SplitPane {
                session,
                direction: Direction::Vertical,
                percent: split_percent(percent),
            },
        ],
        Request::LayoutPlace { pane, agent } => seq![Step::PlaceAgent { pane_id: pane, agent }],
        Request::LayoutSession { name, cwd } => seq![
            Step::CreateSession {
                name,
                cwd: match cwd {
                    Some(path) => path,
                    None => project_root,
                },
            },
        ],
        _ => Seq::empty(),
    }
}

/// The runtime: the root of the project, the settings, and the actions that
/// the last command asked for.
pub struct Sys {
    project_root: String,
    actions: Vec<Action>,
    settings: MuxSettings,
}

/// The text of a JSON array of the sessions that a listing names.
fn session_list_json(listing: Option<&str>) -> (text: String)
    ensures
        text@ == session_list_output(
            match listing {
                Some(t) => Some(t@),
                None => None,
            },
        ),
{
    let raw = match listing {
        Some(raw) => raw,
        None => {
            return "[]".to_owned();
        },
    };
    let names = parse_list_sessions(raw);
    let ghost all = sessions_of(raw@);
    let mut out: Vec<char> = Vec::new();
    push_str(&mut out, "[");
    let ghost start = out@;
    let mut i: usize = 0;
    assert(out@ =~= start + names_json(all.take(0)));
    while i < names.len()
        invariant
            i <= names.len(),
            all == strings_of(names@),
            out@ == start + names_json(all.take(i as int)),
        decreases names.len() - i,
    {
        let ghost before = out@;
        let ghost next = all.take(i + 1);
        proof {
            assert(next.drop_last() =~= all.take(i as int));
            assert(next.last() == names@[i as int]@);
        }
        if i > 0 {
            push_str(&mut out, ",");
        }
        push_str(&mut out, "{\"name\":");
        let quoted = json_quote(names[i].as_str());
        push_str(&mut out, quoted.as_str());
        push_str(&mut out, "}");
        assert(out@ =~= before + (if i > 0 {
            ","@
        } else {
            Seq::<char>::empty()
        }) + "{\"name\":"@ + json_string(names@[i as int]@) + "}"@);
        assert(out@ =~= start + names_json(next));
        i += 1;
    }
    assert(all.take(names.len() as int) =~= all);
    push_str(&mut out, "]");
    string_of(out.as_slice())
}

/// The share of a split.
fn percent_or_half(percent: &Option<String>) -> (share: u32)
    ensures
        share == split_percent(optional_text(*percent)),
{
    match percent {
        Some(text) => {
            let chars = chars_of(text.as_str());
            match parse_u32(chars.as_slice()) {
                Some(n) => n,
                None => 50,
            }
        },
        None => 50,
    }
}

/// `before` followed by `rest`.
fn prefixed(before: &str, rest: &str) -> (text: String)
    ensures
        text@ == before@ + rest@,
{
    let mut out: Vec<char> = Vec::new();
    push_str(&mut out, before);
    push_str(&mut out, rest);
    string_of(out.as_slice())
}

/// `before` followed by `middle` and `after`.
fn framed(before: &str, middle: &str, after: &str) -> (text: String)
    ensures
        text@ == before@ + middle@ + after@,
{
    let mut out: Vec<char> = Vec::new();
    push_str(&mut out, before);
    push_str(&mut out, middle);
    push_str(&mut out, after);
    string_of(out.as_slice())
}

impl Sys {
    /// The root of the project, where sessions are created by default.
    pub closed spec fn root(&self) -> Seq<char> {
        self.project_root@
    }

    /// The actions that the last command asked for and that were not taken yet.
    pub closed spec fn pending(&self) -> Seq<Step> {
        steps_of(self.actions@)
    }

    /// The settings in force.
    pub closed spec fn current_settings(&self) -> MuxSettings {
        self.settings
    }

    /// A runtime for the project at `project_root`, with the default settings
    /// and nothing pending.
    pub fn new(project_root: String) -> (sys: Sys)
        ensures
            sys.root() == project_root@,
            sys.pending() == Seq::<Step>::empty(),
            sys.current_settings().project_root@ == project_root@,
            sys.current_settings().zone_max_width == 160,
            sys.current_settings().search_max_rows == 10,
    {
        let defaults = MuxSettings::default();
        let settings = MuxSettings {
            project_root: project_root.clone(),
            zone_max_width: defaults.zone_max_width,
            search_max_rows: defaults.search_max_rows,
        };
        let sys = Sys { project_root, actions: Vec::new(), settings };
        assert(sys.pending() =~= Seq::<Step>::empty());
        sys
    }

    /// The settings in force.
    pub fn settings(&self) -> (settings: &MuxSettings)
        ensures
            *settings == self.current_settings(),
    {
        &self.settings
    }

    /// Carries out a command: gives the reply to it and leaves pending the
    /// actions that it asks of the multiplexer, in place of those of the
    /// command before. `session_listing` is what the multiplexer printed when
    /// asked for the names of its sessions, where it was asked and answered;
    /// only `session.list` reads it.
    pub fn execute(&mut self, cmd: Command, session_listing: Option<&str>) -> (response: Response)
        ensures
            response@ == reply_to(
                cmd@,
                match session_listing {
                    Some(t) => Some(t@),
                    None => None,
                },
            ),
            final(self).pending() == steps_for(cmd@, old(self).root()),
            final(self).root() == old(self).root(),
            final(self).current_settings() == old(self).current_settings(),
    {
        self.actions = Vec::new();
        assert(self.pending() =~= Seq::<Step>::empty());
        let response = match cmd {
            Command::Status { format } => Response::Success { output: "MuxUX status: running".to_owned() },
            Command::SessionList => Response::Success { output: session_list_json(session_listing) },
            Command::View { name } => Response::Success {
                output: prefixed("MuxUX view: ", name.as_str()),
            },
            Command::LayoutRow { session, percent } => {
                let share = percent_or_half(&percent);
                self.actions.push(
                    Action::SplitPane { session, direction: Direction::Horizontal, percent: share },
                );
                Response::Success { output: "Row split queued".to_owned() }
            },
            Command::LayoutColumn { session, percent } => {
                let share = percent_or_half(&percent);
                self.actions.push(
                    Action::SplitPane { session, direction: Direction::Vertical, percent: share },
                );
                Response::Success { output: "Column split queued".to_owned() }
            },
            Command::LayoutMerge { session } => Response::Success { output: "Merge queued".to_owned() },
            Command::LayoutPlace { pane, agent } => {
                let output = framed("Agent '", agent.as_str(), "' placed in pane");
                self.actions.push(Action::PlaceAgent { pane_id: pane, agent });
                Response::Success { output }
            },
            Command::LayoutCapture { session } => {
                let builder = TmuxCommandBuilder::new();
                let list = builder.list_panes(session.as_str());
                Response::Success { output: prefixed("Capture queued: ", list.as_str()) }
            },
            Command::LayoutSession { name, cwd } => {
                let output = framed("Session '", name.as_str(), "' creation queued");
                let cwd = match cwd {
                    Some(path) => path,
                    None => self.project_root.clone(),
                };
                self.actions.push(Action::CreateSession { name, cwd });
                Response::Success { output }
            },
            Command::ClientNext => Response::Success { output: "Switched to next client".to_owned() },
            Command::ClientPrev => Response::Success {
                output: "Switched to previous client".to_owned(),
            },
            Command::Watch { since, timeout } => Response::Error {
                message: "Watch commands are handled at the service layer".to_owned(),
            },
            Command::DaemonRun => Response::Error {
                message: "DaemonRun must be handled by the binary".to_owned(),
            },
            Command::DaemonStop => Response::Success {
                output: "MuxUX daemon shutting down".to_owned(),
            },
            Command::Help { topic } => Response::Success {
                output: match &topic {
                    Some(t) => help_text(Some(t.as_str())),
                    None => help_text(None),
                },
            },
            Command::Studio { pane, x, y } => {
                let mut out: Vec<char> = Vec::new();
                push_str(&mut out, "overlay target: pane=");
                push_str(&mut out, pane.as_str());
                push_str(&mut out, " x=");
                push_decimal(&mut out, x as u64);
                push_str(&mut out, " y=");
                push_decimal(&mut out, y as u64);
                Response::Success { output: string_of(out.as_slice()) }
            },
            Command::SetupHook => {
                let builder = TmuxCommandBuilder::new();
                Response::Success { output: builder.bind_mouse_hook("mux") }
            },
            Command::RemoveHook => {
                let builder = TmuxCommandBuilder::new();
                Response::Success { output: builder.unbind_mouse_hook() }
            },
        };
        assert(self.pending() =~= steps_for(cmd@, old(self).root()));
        response
    }

    /// The actions that the last command asked for.
    pub fn pending_actions(&self) -> (actions: &[Action])
        ensures
            steps_of(actions@) == self.pending(),
    {
        self.actions.as_slice()
    }

    /// Takes the pending actions: they are handed out and none stays pending.
    pub fn drain_actions(&mut self) -> (actions: Vec<Action>)
        ensures
            steps_of(actions@) == old(self).pending(),
            final(self).pending() == Seq::<Step>::empty(),
            final(self).root() == old(self).root(),
            final(self).current_settings() == old(self).current_settings(),
    {
        let mut taken: Vec<Action> = Vec::new();
        std::mem::swap(&mut taken, &mut self.actions);
        assert(self.pending() =~= Seq::<Step>::empty());
        taken
    }
}

} // verus!
