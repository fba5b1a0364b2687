//! The capture pipeline: read a pane listing, reconstruct the layout, write
//! it as an expression and tell whether it differs from the one recorded.

use vstd::prelude::*;
use vstd::hash_map::StringHashMap;
use crate::data::layout_expr::{expr_of, serialize_layout_expr};
use crate::infrastructure::tmux::{panes_of, parse_list_panes};
use crate::layout::snapshot::{from_panes, layout_of};
use crate::text::{push_str, string_of, strings_of};
use crate::types::session::{geometries_of, LayoutNode, LayoutTree};

verus! {

/// The result of one capture.
#[derive(Debug)]
pub struct CaptureResult {
    pub session: String,
    pub layout: LayoutNode,
    pub layout_expr: String,
    pub changed: bool,
    pub timestamp_ms: u64,
}

/// The result of one capture as a value of the model.
pub struct Capture {
    pub session: Seq<char>,
    pub layout: LayoutTree,
    pub layout_expr: Seq<char>,
    pub changed: bool,
    pub timestamp_ms: u64,
}

impl View for CaptureResult {
    type V = Capture;

    open spec fn view(&self) -> Capture {
        Capture {
            session: self.session@,
            layout: self.layout@,
            layout_expr: self.layout_expr@,
            changed: self.changed,
            timestamp_ms: self.timestamp_ms,
        }
    }
}

impl Clone for CaptureResult {
    fn clone(&self) -> (copy: Self)
        ensures
            copy@ == self@,
    {
        CaptureResult {
            session: self.session.clone(),
            layout: self.layout.clone(),
            layout_expr: self.layout_expr.clone(),
            changed: self.changed,
            timestamp_ms: self.timestamp_ms,
        }
    }
}

/// Texts by session name: the pane listings of the sessions, or the layout
/// expressions last recorded for them.
pub struct SessionTexts {
    entries: StringHashMap<String>,
}

impl View for SessionTexts {
    type V = Map<Seq<char>, Seq<char>>;

    closed spec fn view(&self) -> Map<Seq<char>, Seq<char>> {
        self.entries@.map_values(|text: String| text@)
    }
}

impl SessionTexts {
    /// A table without entries.
    pub fn new() -> (table: Self)
        ensures
            table@ == Map::<Seq<char>, Seq<char>>::empty(),
    {
        let table = SessionTexts { entries: StringHashMap::new() };
        assert(table@ =~= Map::<Seq<char>, Seq<char>>::empty());
        table
    }

    /// Sets the text of a session, in place of the one it had.
    pub fn insert(&mut self, session: String, text: String)
        ensures
            final(self)@ == old(self)@.insert(session@, text@),
    {
        self.entries.insert(session, text);
        assert(self@ =~= old(self)@.insert(session@, text@));
    }

    /// The text of a session, if it has one.
    pub fn get(&self, session: &str) -> (text: Option<&String>)
        ensures
            match text {
                Some(t) => self@.contains_key(session@) && t@ == self@[session@],
                None => !self@.contains_key(session@),
            },
    {
        self.entries.get(session)
    }
}

/// The message of a capture that found no pane.
pub open spec fn no_panes_message(session: Seq<char>) -> Seq<char> {
    "No panes found for session '"@ + session + "'"@
}

/// What a capture gives: the layout of the panes listed, its expression, and
/// whether that differs from the previous one, where one was recorded. A
/// listing without panes gives the message that says so.
pub open spec fn capture_of(
    session: Seq<char>,
    listing: Seq<char>,
    previous: Option<Seq<char>>,
    now_ms: u64,
) -> Result<Capture, Seq<char>> {
    let panes = panes_of(listing);
    if panes.len() == 0 {
        Err(no_panes_message(session))
    } else {
        let layout = layout_of(panes);
        Ok(
            Capture {
                session,
                layout,
                layout_expr: expr_of(layout),
                changed: match previous {
                    Some(text) => text != expr_of(layout),
                    None => true,
                },
                timestamp_ms: now_ms,
            },
        )
    }
}

/// The outcome of a capture as a value of the model.
pub open spec fn capture_outcome(outcome: Result<CaptureResult, String>) -> Result<
    Capture,
    Seq<char>,
> {
    match outcome {
        Ok(result) => Ok(result@),
        Err(message) => Err(message@),
    }
}

/// An optional text as a value of the model.
pub open spec fn text_view(text: Option<&str>) -> Option<Seq<char>> {
    match text {
        Some(t) => Some(t@),
        None => None,
    }
}

/// Captures the current layout of a session.
///
/// Reads the pane listing, reconstructs the layout and writes it as an
/// expression. The capture counts as changed where no previous expression is
/// given or the new one differs from it. Fails where the listing holds no pane.
pub fn capture_session(
    session: &str,
    pane_output: &str,
    previous_expr: Option<&str>,
    now_ms: u64,
) -> (outcome: Result<CaptureResult, String>)
    ensures
        capture_outcome(outcome) == capture_of(
            session@,
            pane_output@,
            text_view(previous_expr),
            now_ms,
        ),
        outcome is Err <==> panes_of(pane_output@).len() == 0,
        outcome matches Ok(result) ==> (result.changed <==> (previous_expr matches Some(text)
            ==> text@ != result.layout_expr@)),
{
    let panes = parse_list_panes(pane_output);
    assert(geometries_of(panes@).len() == panes@.len());
    if panes.len() == 0 {
        let mut message: Vec<char> = Vec::new();
        push_str(&mut message, "No panes found for session '");
        push_str(&mut message, session);
        push_str(&mut message, "'");
        return Err(string_of(message.as_slice()));
    }
    let layout = from_panes(panes.as_slice());
    let layout_expr = serialize_layout_expr(&layout);
    let changed = match previous_expr {
        Some(previous) => {
            let recorded = previous.to_owned();
            !(recorded == layout_expr)
        },
        None => true,
    };
    Ok(
        CaptureResult {
            session: session.to_owned(),
            layout,
            layout_expr,
            changed,
            timestamp_ms: now_ms,
        },
    )
}

/// What the capture of one session among many gives: a result where the
/// session has a pane listing that holds a pane, nothing otherwise.
pub open spec fn capture_among(
    session: Seq<char>,
    pane_outputs: Map<Seq<char>, Seq<char>>,
    previous_layouts: Map<Seq<char>, Seq<char>>,
    now_ms: u64,
) -> Option<Capture> {
    if pane_outputs.contains_key(session) {
        match capture_of(
            session,
            pane_outputs[session],
            if previous_layouts.contains_key(session) {
                Some(previous_layouts[session])
            } else {
                None
            },
            now_ms,
        ) {
            Ok(capture) => Some(capture),
            Err(_) => None,
        }
    } else {
        None
    }
}

/// The captures of a list of results as values of the model.
pub open spec fn captures_of(results: Seq<CaptureResult>) -> Seq<Capture> {
    Seq::new(results.len(), |i: int| results[i]@)
}

/// The captures of the sessions named, in their order, without those that
/// have no pane listing or whose listing holds no pane.
pub open spec fn captures_among(
    sessions: Seq<Seq<char>>,
    pane_outputs: Map<Seq<char>, Seq<char>>,
    previous_layouts: Map<Seq<char>, Seq<char>>,
    now_ms: u64,
) -> Seq<Capture> {
    sessions.filter_map(
        |session: Seq<char>| capture_among(session, pane_outputs, previous_layouts, now_ms),
    )
}

/// Why a session has no capture.
#[derive(Clone, Copy, Debug, PartialEq, Eq, Structural)]
pub enum SkipReason {
    /// There is no pane listing for the session.
    NoPaneOutput,
    /// The pane listing of the session holds no pane.
    NoPanes,
}

/// A session that was left out of a capture of many.
#[derive(Debug)]
pub struct SkippedSession {
    pub session: String,
    pub reason: SkipReason,
}

/// A session that was left out, as a value of the model.
pub struct Skipped {
    pub session: Seq<char>,
    pub reason: SkipReason,
}

impl View for SkippedSession {
    type V = Skipped;

    open spec fn view(&self) -> Skipped {
        Skipped { session: self.session@, reason: self.reason }
    }
}

/// The sessions left out that a list of records stands for.
pub open spec fn skipped_of(records: Seq<SkippedSession>) -> Seq<Skipped> {
    Seq::new(records.len(), |i: int| records[i]@)
}

/// Why the session is left out of a capture of many, if it is.
pub open spec fn skip_among(session: Seq<char>, pane_outputs: Map<Seq<char>, Seq<char>>) -> Option<
    Skipped,
> {
    if !pane_outputs.contains_key(session) {
        Some(Skipped { session, reason: SkipReason::NoPaneOutput })
    } else if panes_of(pane_outputs[session]).len() == 0 {
        Some(Skipped { session, reason: SkipReason::NoPanes })
    } else {
        None
    }
}

/// The sessions named that are left out of a capture of many, in their order.
pub open spec fn skipped_among(
    sessions: Seq<Seq<char>>,
    pane_outputs: Map<Seq<char>, Seq<char>>,
) -> Seq<Skipped> {
    sessions.filter_map(|session: Seq<char>| skip_among(session, pane_outputs))
}

/// Captures every session named that has a pane listing, in the order of
/// the names, and tells which sessions were left out, and why.
pub fn capture_all_sessions_with_report(
    sessions: &[String],
    pane_outputs: &SessionTexts,
    previous_layouts: &SessionTexts,
    now_ms: u64,
) -> (outcome: (Vec<CaptureResult>, Vec<SkippedSession>))
    ensures
        captures_of(outcome.0@) == captures_among(
            strings_of(sessions@),
            pane_outputs@,
            previous_layouts@,
            now_ms,
        ),
        skipped_of(outcome.1@) == skipped_among(strings_of(sessions@), pane_outputs@),
{
    let ghost names = strings_of(sessions@);
    let ghost pick = |session: Seq<char>|
        capture_among(session, pane_outputs@, previous_layouts@, now_ms);
    let ghost miss = |session: Seq<char>| skip_among(session, pane_outputs@);
    let mut results: Vec<CaptureResult> = Vec::new();
    let mut skipped: Vec<SkippedSession> = Vec::new();
    let mut i: usize = 0;
    assert(captures_of(results@) =~= names.take(0).filter_map(pick));
    assert(skipped_of(skipped@) =~= names.take(0).filter_map(miss));
    while i < sessions.len()
        invariant
            i <= sessions.len(),
            names == strings_of(sessions@),
            pick == |session: Seq<char>|
                capture_among(session, pane_outputs@, previous_layouts@, now_ms),
            miss == |session: Seq<char>| skip_among(session, pane_outputs@),
            captures_of(results@) == names.take(i as int).filter_map(pick),
            skipped_of(skipped@) == names.take(i as int).filter_map(miss),
        decreases sessions.len() - i,
    {
        proof {
            assert(names.take(i + 1).drop_last() =~= names.take(i as int));
            assert(names.take(i + 1).last() == sessions@[i as int]@);
        }
        let ghost before = captures_of(results@);
        let ghost gone = skipped_of(skipped@);
        let name = sessions[i].as_str();
        let reason = match pane_outputs.get(name) {
            Some(output) => {
                let previous = match previous_layouts.get(name) {
                    Some(text) => Some(text.as_str()),
                    None => None,
                };
                match capture_session(name, output.as_str(), previous, now_ms) {
                    Ok(result) => {
                        let ghost found = result@;
                        results.push(result);
                        assert(captures_of(results@) =~= before + seq![found]);
                        None
                    },
                    Err(_) => Some(SkipReason::NoPanes),
                }
            },
            None => Some(SkipReason::NoPaneOutput),
        };
        match reason {
            Some(reason) => {
                let record = SkippedSession { session: sessions[i].clone(), reason };
                let ghost lost = record@;
                skipped.push(record);
                assert(skipped_of(skipped@) =~= gone + seq![lost]);
            },
            None => {},
        }
        i += 1;
    }
    assert(names.take(sessions.len() as int) =~= names);
    (results, skipped)
}

/// Captures every session named that has a pane listing, in the order of
/// the names. A session without a listing, or whose capture fails, is left
/// out and does not stop the others.
pub fn capture_all_sessions(
    sessions: &[String],
    pane_outputs: &SessionTexts,
    previous_layouts: &SessionTexts,
    now_ms: u64,
) -> (results: Vec<CaptureResult>)
    ensures
        captures_of(results@) == captures_among(
            strings_of(sessions@),
            pane_outputs@,
            previous_layouts@,
            now_ms,
        ),
{
    let (results, _) = capture_all_sessions_with_report(
        sessions,
        pane_outputs,
        previous_layouts,
        now_ms,
    );
    results
}

/// Every session named is either captured or reported as left out: the
/// captures and the sessions left out are together as many as the names.
pub proof fn lemma_every_session_accounted(
    sessions: Seq<Seq<char>>,
    pane_outputs: Map<Seq<char>, Seq<char>>,
    previous_layouts: Map<Seq<char>, Seq<char>>,
    now_ms: u64,
)
    ensures
        captures_among(sessions, pane_outputs, previous_layouts, now_ms).len() + skipped_among(
            sessions,
            pane_outputs,
        ).len() == sessions.len(),
    decreases sessions.len(),
{
    if sessions.len() > 0 {
        lemma_every_session_accounted(
            sessions.drop_last(),
            pane_outputs,
            previous_layouts,
            now_ms,
        );
    }
}

} // verus!
