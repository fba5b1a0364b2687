//! The capture scheduler: which sessions are due for a new capture.

use vstd::prelude::*;
use vstd::hash_map::StringHashMap;
use crate::text::strings_of;

verus! {

/// Keeps, for each session, the time of its last capture, and tells which
/// sessions are due for a new one after a fixed interval.
pub struct SnapshotTimer {
    interval_ms: u64,
    last_capture: StringHashMap<u64>,
}

/// Whether a capture is due at `now_ms`: always where none was recorded,
/// else once the interval has passed since the last one. A session is due
/// exactly at the interval; a clock that went backward counts as no time passed.
pub open spec fn is_due(last: Option<u64>, interval_ms: u64, now_ms: u64) -> bool {
    match last {
        None => true,
        Some(at) => (if now_ms >= at {
            now_ms - at
        } else {
            0
        }) >= interval_ms,
    }
}

impl SnapshotTimer {
    /// The interval between two captures of a session, in milliseconds.
    pub closed spec fn interval(&self) -> u64 {
        self.interval_ms
    }

    /// The time of the last capture of each session that has one.
    pub closed spec fn recorded(&self) -> Map<Seq<char>, u64> {
        self.last_capture@
    }

    /// The time of the last capture of a session, if one was recorded.
    pub open spec fn last_of(&self, session: Seq<char>) -> Option<u64> {
        if self.recorded().contains_key(session) {
            Some(self.recorded()[session])
        } else {
            None
        }
    }

    /// The sessions among `sessions` that are due at `now_ms`, in their order.
    pub open spec fn due_among(&self, sessions: Seq<Seq<char>>, now_ms: u64) -> Seq<Seq<char>> {
        sessions.filter(|session: Seq<char>| is_due(self.last_of(session), self.interval(), now_ms))
    }

    /// A timer with the given interval in milliseconds and no capture recorded.
    pub fn new(interval_ms: u64) -> (timer: Self)
        ensures
            timer.interval() == interval_ms,
            timer.recorded() == Map::<Seq<char>, u64>::empty(),
    {
        SnapshotTimer { interval_ms, last_capture: StringHashMap::new() }
    }

    /// The sessions that are due for a capture, in the order given: those
    /// never captured, and those whose last capture lies at least the interval back.
    pub fn sessions_due(&self, sessions: &[String], now_ms: u64) -> (due: Vec<String>)
        ensures
            strings_of(due@) == self.due_among(strings_of(sessions@), now_ms),
    {
        let ghost names = strings_of(sessions@);
        let ghost test = |session: Seq<char>|
            is_due(self.last_of(session), self.interval(), now_ms);
        let mut due: Vec<String> = Vec::new();
        let mut i: usize = 0;
        proof {
            reveal(Seq::filter);
            assert(strings_of(due@) =~= names.take(0).filter(test));
        }
        while i < sessions.len()
            invariant
                i <= sessions.len(),
                names == strings_of(sessions@),
                test == |session: Seq<char>|
                    is_due(self.last_of(session), self.interval(), now_ms),
                strings_of(due@) == names.take(i as int).filter(test),
            decreases sessions.len() - i,
        {
            proof {
                reveal(Seq::filter);
                assert(names.take(i + 1).drop_last() =~= names.take(i as int));
                assert(names.take(i + 1).last() == sessions@[i as int]@);
            }
            let ghost before = strings_of(due@);
            let due_now = match self.last_capture.get(sessions[i].as_str()) {
                Some(last) => {
                    let passed = if now_ms >= *last {
                        now_ms - *last
                    } else {
                        0
                    };
                    passed >= self.interval_ms
                },
                None => true,
            };
            if due_now {
                let name = sessions[i].clone();
                due.push(name);
                assert(strings_of(due@) =~= before.push(sessions@[i as int]@));
            }
            i += 1;
        }
        assert(names.take(sessions.len() as int) =~= names);
        due
    }

    /// Records that a session was captured at `now_ms`, in place of any
    /// earlier record of it.
    pub fn record_capture(&mut self, session: &str, now_ms: u64)
        ensures
            final(self).recorded() == old(self).recorded().insert(session@, now_ms),
            final(self).interval() == old(self).interval(),
    {
        self.last_capture.insert(session.to_owned(), now_ms);
    }

    /// Forgets a session: it is due at once when it appears again.
    pub fn remove_session(&mut self, session: &str)
        ensures
            final(self).recorded() == old(self).recorded().remove(session@),
            final(self).interval() == old(self).interval(),
    {
        self.last_capture.remove(session);
    }

    /// The interval between two captures of a session, in milliseconds.
    pub fn interval_ms(&self) -> (interval: u64)
        ensures
            interval == self.interval(),
    {
        self.interval_ms
    }
}

/// A session that was captured is not due before the interval has passed,
/// and is due from then on; one that was never captured, or was forgotten,
/// is due at any time.
pub proof fn lemma_due_rule(last: Option<u64>, interval_ms: u64, now_ms: u64)
    ensures
        last is None ==> is_due(last, interval_ms, now_ms),
        last matches Some(at) ==> (is_due(last, interval_ms, now_ms) <==> now_ms - at
            >= interval_ms || interval_ms == 0),
{
}

} // verus!
