use vstd::prelude::*;
use crate::protocol::State;

verus! {

/// Lead time before the cue at which sources, generators and mixers start
/// prerolling: ten seconds, in nanoseconds.
pub const PREROLL_LEAD_TIME_NANOS: i128 = 10_000_000_000;

/// The current time as whole seconds since the Unix epoch and the
/// nanoseconds past that second.
///
/// Calls `chrono::Utc::now` and takes its `timestamp` and
/// `timestamp_subsec_nanos`. Nothing is claimed of the values: they are the
/// time at the call.
#[verifier::external_body]
fn utc_now() -> (i64, u32) {
    let t = chrono::Utc::now();
    (t.timestamp(), t.timestamp_subsec_nanos())
}

/// The current time, in nanoseconds since the Unix epoch.
pub(crate) fn now_nanos() -> i128 {
    let (secs, nanos) = utc_now();
    secs as i128 * 1_000_000_000 + nanos as i128
}

/// States in the order a schedule moves through them.
pub open spec fn rank(s: State) -> int {
    match s {
        State::Initial => 0,
        State::Starting => 1,
        State::Started => 2,
        State::Stopping => 3,
        State::Stopped => 4,
    }
}

/// The next state of a node that prerolls before its cue (sources, video
/// generators, mixers), at time `now`, if a transition is due: from `Initial`
/// to `Starting` ten seconds before the cue (to `Started` at once without a
/// cue); from `Starting` to `Started` at the cue; from `Started` to `Stopping`
/// at the end time; from `Stopping` to `Stopped`.
pub open spec fn preroll_transition(state: State, cue: Option<i128>, end: Option<i128>, now: i128) -> Option<State> {
    match state {
        State::Initial => match cue {
            Some(c) => if now >= c - PREROLL_LEAD_TIME_NANOS {
                Some(State::Starting)
            } else {
                None
            },
            None => Some(State::Started),
        },
        State::Starting => match cue {
            Some(c) => if now >= c {
                Some(State::Started)
            } else {
                None
            },
            None => Some(State::Started),
        },
        State::Started => match end {
            Some(e) => if now >= e {
                Some(State::Stopping)
            } else {
                None
            },
            None => None,
        },
        State::Stopping => Some(State::Stopped),
        State::Stopped => None,
    }
}

/// The state a prerolling node reaches at `now` by taking every due transition.
pub open spec fn preroll_settle(state: State, cue: Option<i128>, end: Option<i128>, now: i128) -> State
    decreases 4 - rank(state),
{
    match preroll_transition(state, cue, end, now) {
        Some(next) => if rank(next) > rank(state) {
            preroll_settle(next, cue, end, now)
        } else {
            state
        },
        None => state,
    }
}

pub proof fn lemma_preroll_transition_advances(state: State, cue: Option<i128>, end: Option<i128>, now: i128)
    ensures
        preroll_transition(state, cue, end, now) matches Some(next) ==> rank(next) > rank(state),
{
}

/// Settling reaches a state with no transition due, at or after the start.
pub proof fn lemma_preroll_settle_final(state: State, cue: Option<i128>, end: Option<i128>, now: i128)
    ensures
        preroll_transition(preroll_settle(state, cue, end, now), cue, end, now) is None,
        rank(preroll_settle(state, cue, end, now)) >= rank(state),
    decreases 4 - rank(state),
{
    match preroll_transition(state, cue, end, now) {
        Some(next) => {
            lemma_preroll_settle_final(next, cue, end, now);
        },
        None => {},
    }
}

/// Settling a settled state changes nothing.
pub proof fn lemma_preroll_settle_idempotent(state: State, cue: Option<i128>, end: Option<i128>, now: i128)
    ensures
        preroll_settle(preroll_settle(state, cue, end, now), cue, end, now) == preroll_settle(
            state,
            cue,
            end,
            now,
        ),
{
    lemma_preroll_settle_final(state, cue, end, now);
}

/// The next state of a destination at time `now`, if a transition is due: from
/// `Initial` to `Starting` at the cue (at once without a cue); from `Starting`
/// to `Started`; from `Started` to `Stopping` at the end time; from `Stopping`
/// to `Stopped`.
pub open spec fn destination_transition(state: State, cue: Option<i128>, end: Option<i128>, now: i128) -> Option<State> {
    match state {
        State::Initial => match cue {
            Some(c) => if now >= c {
                Some(State::Starting)
            } else {
                None
            },
            None => Some(State::Starting),
        },
        State::Starting => Some(State::Started),
        State::Started => match end {
            Some(e) => if now >= e {
                Some(State::Stopping)
            } else {
                None
            },
            None => None,
        },
        State::Stopping => Some(State::Stopped),
        State::Stopped => None,
    }
}

/// The state a destination reaches at `now`: every due transition is taken,
/// and reaching `Stopping` stops it at once.
pub open spec fn destination_settle(state: State, cue: Option<i128>, end: Option<i128>, now: i128) -> State
    decreases 4 - rank(state),
{
    match destination_transition(state, cue, end, now) {
        Some(next) => if next == State::Stopping {
            State::Stopped
        } else if rank(next) > rank(state) {
            destination_settle(next, cue, end, now)
        } else {
            state
        },
        None => state,
    }
}

/// Settling a destination reaches a state with no transition due, at or after the start.
pub proof fn lemma_destination_settle_final(state: State, cue: Option<i128>, end: Option<i128>, now: i128)
    ensures
        destination_transition(destination_settle(state, cue, end, now), cue, end, now) is None,
        rank(destination_settle(state, cue, end, now)) >= rank(state),
    decreases 4 - rank(state),
{
    match destination_transition(state, cue, end, now) {
        Some(next) => {
            if next != State::Stopping {
                lemma_destination_settle_final(next, cue, end, now);
            }
        },
        None => {},
    }
}

/// Takes every due transition of a prerolling node; tells whether the state changed.
pub fn settle_preroll(state: State, cue: Option<i128>, end: Option<i128>, now: i128) -> (r: (State, bool))
    ensures
        r.0 == preroll_settle(state, cue, end, now),
        r.1 == (r.0 != state),
{
    let mut s = state;
    let mut changed = false;
    loop
        invariant
            preroll_settle(s, cue, end, now) == preroll_settle(state, cue, end, now),
            changed == (s != state),
            rank(s) >= rank(state),
        decreases 4 - rank(s),
    {
        let next = preroll_next(s, cue, end, now);
        match next {
            Some(n) => {
                if n == s {
                    return (s, changed);
                }
                s = n;
                changed = true;
            },
            None => {
                return (s, changed);
            },
        }
    }
}

/// The due transition of a prerolling node, if any.
pub fn preroll_next(state: State, cue: Option<i128>, end: Option<i128>, now: i128) -> (r: Option<State>)
    ensures
        r == preroll_transition(state, cue, end, now),
{
    match state {
        State::Initial => match cue {
            Some(c) => if c < i128::MIN + PREROLL_LEAD_TIME_NANOS || now >= c - PREROLL_LEAD_TIME_NANOS {
                Some(State::Starting)
            } else {
                None
            },
            None => Some(State::Started),
        },
        State::Starting => match cue {
            Some(c) => if now >= c {
                Some(State::Started)
            } else {
                None
            },
            None => Some(State::Started),
        },
        State::Started => match end {
            Some(e) => if now >= e {
                Some(State::Stopping)
            } else {
                None
            },
            None => None,
        },
        State::Stopping => Some(State::Stopped),
        State::Stopped => None,
    }
}

/// The due transition of a destination, if any.
pub fn destination_next(state: State, cue: Option<i128>, end: Option<i128>, now: i128) -> (r: Option<State>)
    ensures
        r == destination_transition(state, cue, end, now),
{
    match state {
        State::Initial => match cue {
            Some(c) => if now >= c {
                Some(State::Starting)
            } else {
                None
            },
            None => Some(State::Starting),
        },
        State::Starting => Some(State::Started),
        State::Started => match end {
            Some(e) => if now >= e {
                Some(State::Stopping)
            } else {
                None
            },
            None => None,
        },
        State::Stopping => Some(State::Stopped),
        State::Stopped => None,
    }
}

} // verus!

verus! {

/// The state a node restarts its schedule from: a node that was starting or
/// had stopped starts over; an idle, started or just stopping node keeps its state.
pub open spec fn rescheduled(state: State) -> State {
    match state {
        State::Starting | State::Stopping | State::Stopped => State::Initial,
        s => s,
    }
}

} // verus!
