use vstd::prelude::*;
use crate::protocol::{ControlMode, ControlPoint};
use crate::value::{JsonValue, Number};

verus! {

/// Time of point `i` is at or before `at`, and no point at or before `at` is
/// later; of several points at that time, `i` is the last one.
pub open spec fn is_latest_at_or_before(points: Seq<ControlPoint>, at: i128, i: int) -> bool {
    &&& 0 <= i < points.len()
    &&& points[i].time <= at
    &&& forall|j: int|
        0 <= j < points.len() && #[trigger] points[j].time <= at ==> points[j].time < points[i].time
            || (points[j].time == points[i].time && j <= i)
}

/// Time of point `i` is after `at`, and no point after `at` is earlier; of
/// several points at that time, `i` is the first one.
pub open spec fn is_earliest_after(points: Seq<ControlPoint>, at: i128, i: int) -> bool {
    &&& 0 <= i < points.len()
    &&& points[i].time > at
    &&& forall|j: int|
        0 <= j < points.len() && #[trigger] points[j].time > at ==> points[i].time < points[j].time
            || (points[j].time == points[i].time && i <= j)
}

/// The points around a time: the latest point at or before it and the
/// earliest point after it, by index into the list of points.
#[derive(Clone, Copy, Debug, PartialEq, Eq, Structural)]
pub struct ControlWindow {
    pub before: Option<usize>,
    pub after: Option<usize>,
}

/// `w` is the window of `points` around `at`.
pub open spec fn is_window(points: Seq<ControlPoint>, at: i128, w: ControlWindow) -> bool {
    &&& match w.before {
        Some(i) => is_latest_at_or_before(points, at, i as int),
        None => forall|j: int| 0 <= j < points.len() ==> #[trigger] points[j].time > at,
    }
    &&& match w.after {
        Some(i) => is_earliest_after(points, at, i as int),
        None => forall|j: int| 0 <= j < points.len() ==> #[trigger] points[j].time <= at,
    }
}

/// The window around a time is unique.
pub proof fn lemma_window_unique(points: Seq<ControlPoint>, at: i128, w1: ControlWindow, w2: ControlWindow)
    requires
        is_window(points, at, w1),
        is_window(points, at, w2),
    ensures
        w1 == w2,
{
    match (w1.before, w2.before) {
        (Some(a), Some(b)) => {
            assert(points[b as int].time <= at);
            assert(points[a as int].time <= at);
        },
        (Some(a), None) => {
            assert(points[a as int].time <= at);
        },
        (None, Some(b)) => {
            assert(points[b as int].time <= at);
        },
        (None, None) => {},
    }
    match (w1.after, w2.after) {
        (Some(a), Some(b)) => {
            assert(points[b as int].time > at);
            assert(points[a as int].time > at);
        },
        (Some(a), None) => {
            assert(points[a as int].time > at);
        },
        (None, Some(b)) => {
            assert(points[b as int].time > at);
        },
        (None, None) => {},
    }
}

/// Finds the window of `points` around `at`, walking the points in order.
pub fn control_window(points: &[ControlPoint], at: i128) -> (w: ControlWindow)
    ensures
        is_window(points@, at, w),
{
    let mut before: Option<usize> = None;
    let mut after: Option<usize> = None;
    let mut k: usize = 0;
    while k < points.len()
        invariant
            k <= points@.len(),
            match before {
                Some(i) => is_latest_at_or_before(points@.take(k as int), at, i as int),
                None => forall|j: int| 0 <= j < k ==> #[trigger] points@[j].time > at,
            },
            match after {
                Some(i) => is_earliest_after(points@.take(k as int), at, i as int),
                None => forall|j: int| 0 <= j < k ==> #[trigger] points@[j].time <= at,
            },
        decreases points@.len() - k,
    {
        let ghost pre = points@.take(k as int);
        let ghost post = points@.take(k + 1);
        assert forall|j: int| 0 <= j < k implies #[trigger] post[j] == pre[j] by {}
        assert(post[k as int] == points@[k as int]);
        let t = points[k].time;
        if t <= at {
            let take = match before {
                None => true,
                Some(b) => t >= points[b].time,
            };
            if take {
                before = Some(k);
            }
        } else {
            let take = match after {
                None => true,
                Some(a) => t < points[a].time,
            };
            if take {
                after = Some(k);
            }
        }
        proof {
            match before {
                Some(i) => {
                    assert forall|j: int|
                        0 <= j < post.len() && #[trigger] post[j].time <= at implies post[j].time
                        < post[i as int].time || (post[j].time == post[i as int].time && j <= i) by {
                        if j < k {
                            assert(post[j] == pre[j]);
                            if i < k {
                                assert(post[i as int] == pre[i as int]);
                            }
                        }
                    }
                },
                None => {},
            }
            match after {
                Some(i) => {
                    assert forall|j: int|
                        0 <= j < post.len() && #[trigger] post[j].time > at implies post[i as int].time
                        < post[j].time || (post[j].time == post[i as int].time && i <= j) by {
                        if j < k {
                            assert(post[j] == pre[j]);
                            if i < k {
                                assert(post[i as int] == pre[i as int]);
                            }
                        }
                    }
                },
                None => {},
            }
        }
        k = k + 1;
    }
    assert(points@.take(k as int) =~= points@);
    ControlWindow { before, after }
}

/// Whole milliseconds from `from` to `to` (times in nanoseconds), rounded
/// toward zero and held to the range of `i64`.
pub open spec fn millis_between(from: i128, to: i128) -> i64 {
    let d = to - from;
    let q = if d >= 0 {
        d / 1_000_000
    } else {
        -((-d) / 1_000_000)
    };
    if q > i64::MAX {
        i64::MAX
    } else if q < i64::MIN {
        i64::MIN
    } else {
        q as i64
    }
}

/// Whole milliseconds from `from` to `at`, and no fewer than zero.
pub open spec fn elapsed_millis(from: i128, at: i128) -> i64 {
    if millis_between(from, at) > 0 {
        millis_between(from, at)
    } else {
        0
    }
}

pub fn compute_millis_between(from: i128, to: i128) -> (r: i64)
    ensures
        r == millis_between(from, to),
{
    let (up, d): (bool, u128) = if to >= from {
        if from >= 0 || to < 0 {
            (true, (to - from) as u128)
        } else {
            (true, to as u128 + (0i128 - (from + 1)) as u128 + 1)
        }
    } else {
        if to >= 0 || from < 0 {
            (false, (from - to) as u128)
        } else {
            (false, from as u128 + (0i128 - (to + 1)) as u128 + 1)
        }
    };
    let q: u128 = d / 1_000_000;
    if up {
        if q > i64::MAX as u128 {
            i64::MAX
        } else {
            q as i64
        }
    } else {
        if q > i64::MAX as u128 + 1 {
            i64::MIN
        } else if q == i64::MAX as u128 + 1 {
            i64::MIN
        } else {
            0i64 - (q as i64)
        }
    }
}

/// The point that holds the value at a time: the latest point at or before it,
/// or else the earliest point after it.
pub open spec fn current_index(w: ControlWindow) -> int {
    match w.before {
        Some(i) => i as int,
        None => match w.after {
            Some(i) => i as int,
            None => 0,
        },
    }
}

/// The current point interpolates towards a later point, over a positive
/// number of milliseconds, between two numbers.
pub open spec fn interpolates(points: Seq<ControlPoint>, w: ControlWindow) -> bool {
    let cur = points[current_index(w)];
    &&& cur.mode == ControlMode::Interpolate
    &&& w.after is Some
    &&& millis_between(cur.time, points[w.after->0 as int].time) > 0
    &&& cur.value is Number
    &&& points[w.after->0 as int].value is Number
}

/// What evaluating `points` at `at` may give, with `interpolate` computing the
/// value between two numbers from the elapsed and total milliseconds: nothing
/// when there are no points; the interpolated value when the current point
/// interpolates; the current point's value otherwise.
pub open spec fn evaluates_to<F: Fn(Number, Number, i64, i64) -> JsonValue>(
    points: Seq<ControlPoint>,
    at: i128,
    interpolate: F,
    r: Option<JsonValue>,
) -> bool {
    if points.len() == 0 {
        r is None
    } else {
        exists|w: ControlWindow|
            #![trigger is_window(points, at, w)]
            {
                &&& is_window(points, at, w)
                &&& if interpolates(points, w) {
                    let cur = points[current_index(w)];
                    let next = points[w.after->0 as int];
                    exists|out: JsonValue|
                        #![trigger call_ensures(interpolate, (cur.value->Number_0, next.value->Number_0, elapsed_millis(cur.time, at), millis_between(cur.time, next.time)), out)]
                        call_ensures(
                            interpolate,
                            (
                                cur.value->Number_0,
                                next.value->Number_0,
                                elapsed_millis(cur.time, at),
                                millis_between(cur.time, next.time),
                            ),
                            out,
                        ) && r == Some(out)
                } else {
                    r == Some(points[current_index(w)].value)
                }
            }
    }
}

/// `interpolate` may be called with any two numbers and durations.
pub open spec fn interpolation_total<F: Fn(Number, Number, i64, i64) -> JsonValue>(interpolate: F) -> bool {
    forall|a: Number, b: Number, e: i64, t: i64| call_requires(interpolate, (a, b, e, t))
}

/// The value that `points` give a setting at `at`: the latest point at or
/// before `at` sets it (the first point when all are later); a point in
/// interpolate mode moves it linearly towards the next point's value when both
/// are numbers and the points are at least a millisecond apart.
pub fn evaluate_control_points<F: Fn(Number, Number, i64, i64) -> JsonValue>(
    points: &[ControlPoint],
    at: i128,
    interpolate: &F,
) -> (r: Option<JsonValue>)
    requires
        interpolation_total(*interpolate),
    ensures
        evaluates_to(points@, at, *interpolate, r),
{
    if points.len() == 0 {
        return None;
    }
    let w = control_window(points, at);
    let cur: usize = match w.before {
        Some(i) => i,
        None => match w.after {
            Some(i) => i,
            None => {
                assert(points@[0].time > at);
                assert(false);
                0
            },
        },
    };
    let current = &points[cur];
    if current.mode == ControlMode::Interpolate {
        if let Some(n) = w.after {
            let next = &points[n];
            let total = compute_millis_between(current.time, next.time);
            if total > 0 {
                let elapsed_raw = compute_millis_between(current.time, at);
                let elapsed = if elapsed_raw > 0 {
                    elapsed_raw
                } else {
                    0
                };
                match (&current.value, &next.value) {
                    (JsonValue::Number(a), JsonValue::Number(b)) => {
                        let ac = a.clone();
                        let bc = b.clone();
                        let out = interpolate(ac, bc, elapsed, total);
                        assert(is_window(points@, at, w));
                        assert(current_index(w) == cur as int);
                        assert(interpolates(points@, w));
                        assert(call_ensures(
                            *interpolate,
                            (
                                points@[cur as int].value->Number_0,
                                points@[n as int].value->Number_0,
                                elapsed_millis(points@[cur as int].time, at),
                                millis_between(points@[cur as int].time, points@[n as int].time),
                            ),
                            out,
                        ));
                        return Some(out);
                    },
                    _ => {},
                }
            }
        }
    }
    assert(is_window(points@, at, w));
    Some(current.value.clone())
}

/// Times never decrease along `points`.
pub open spec fn sorted_by_time(points: Seq<ControlPoint>) -> bool {
    forall|i: int, j: int| 0 <= i <= j < points.len() ==> #[trigger] points[i].time <= #[trigger] points[j].time
}

/// `after` is `before` with `cp` added after every point that is not later
/// than it and before every point that is.
pub open spec fn inserted_by_time(before: Seq<ControlPoint>, cp: ControlPoint, after: Seq<ControlPoint>) -> bool {
    exists|pos: int|
        0 <= pos <= before.len() && after == before.insert(pos, cp) && (forall|j: int|
            0 <= j < pos ==> #[trigger] before[j].time <= cp.time) && (forall|j: int|
            pos <= j < before.len() ==> #[trigger] before[j].time > cp.time)
}

/// Adds `cp` after every point that is not later than it, as a stable sort of
/// the points with `cp` appended puts it.
pub fn insert_by_time(points: &mut Vec<ControlPoint>, cp: ControlPoint)
    requires
        sorted_by_time(old(points)@),
    ensures
        sorted_by_time(final(points)@),
        inserted_by_time(old(points)@, cp, final(points)@),
{
    let ghost old_seq = points@;
    let mut pos: usize = 0;
    while pos < points.len() && points[pos].time <= cp.time
        invariant
            pos <= points@.len(),
            points@ == old_seq,
            forall|j: int| 0 <= j < pos ==> #[trigger] old_seq[j].time <= cp.time,
        decreases points@.len() - pos,
    {
        pos = pos + 1;
    }
    assert forall|j: int| pos <= j < old_seq.len() implies #[trigger] old_seq[j].time > cp.time by {
        assert(old_seq[pos as int].time <= old_seq[j].time);
    }
    let ghost t = cp.time;
    points.insert(pos, cp);
    assert forall|i: int, j: int| 0 <= i <= j < points@.len() implies #[trigger] points@[i].time
        <= #[trigger] points@[j].time by {
        if j < pos {
        } else if i < pos && j == pos {
        } else if i < pos {
            assert(points@[j] == old_seq[j - 1]);
        } else if i == pos {
            if j > pos {
                assert(points@[j] == old_seq[j - 1]);
            }
        } else {
            assert(points@[i] == old_seq[i - 1]);
            assert(points@[j] == old_seq[j - 1]);
        }
    }
}

/// `points` without the points whose id is `id`, in their order.
pub open spec fn without_id(points: Seq<ControlPoint>, id: Seq<char>) -> Seq<ControlPoint>
    decreases points.len(),
{
    if points.len() == 0 {
        Seq::empty()
    } else if points.last().id@ == id {
        without_id(points.drop_last(), id)
    } else {
        without_id(points.drop_last(), id).push(points.last())
    }
}

/// Drops every point with the given id, keeping the others in order.
pub fn remove_by_id(points: &mut Vec<ControlPoint>, id: &String)
    requires
        sorted_by_time(old(points)@),
    ensures
        final(points)@ == without_id(old(points)@, id@),
        sorted_by_time(final(points)@),
{
    let ghost old_seq = points@;
    let mut kept: Vec<ControlPoint> = Vec::new();
    let mut rest: Vec<ControlPoint> = Vec::new();
    std::mem::swap(&mut rest, points);
    let mut i: usize = 0;
    let n = rest.len();
    // Take the points out front to back; `rest` is consumed in reverse.
    let mut reversed: Vec<ControlPoint> = Vec::new();
    while rest.len() > 0
        invariant
            rest@.len() + reversed@.len() == n,
            n == old_seq.len(),
            forall|j: int| 0 <= j < rest@.len() ==> #[trigger] rest@[j] == old_seq[j],
            forall|j: int| 0 <= j < reversed@.len() ==> #[trigger] reversed@[j] == old_seq[n - 1 - j],
        decreases rest@.len(),
    {
        let p = rest.pop().unwrap();
        reversed.push(p);
    }
    while i < n
        invariant
            i <= n,
            n == old_seq.len(),
            reversed@.len() == n - i,
            forall|j: int| 0 <= j < reversed@.len() ==> #[trigger] reversed@[j] == old_seq[n - 1 - j],
            kept@ == without_id(old_seq.take(i as int), id@),
            sorted_by_time(old_seq),
            sorted_by_time(kept@),
            forall|a: int, b: int|
                0 <= a < kept@.len() && i <= b < n ==> #[trigger] kept@[a].time <= #[trigger] old_seq[b].time,
        decreases n - i,
    {
        let p = reversed.pop().unwrap();
        assert(p == old_seq[i as int]);
        assert(old_seq.take(i + 1).drop_last() =~= old_seq.take(i as int));
        assert(old_seq.take(i + 1).last() == old_seq[i as int]);
        if p.id == *id {
        } else {
            let ghost prev = kept@;
            kept.push(p);
            assert forall|a: int, b: int| 0 <= a <= b < kept@.len() implies #[trigger] kept@[a].time
                <= #[trigger] kept@[b].time by {
                if b == prev.len() && a < b {
                    assert(prev[a].time <= old_seq[i as int].time);
                }
            }
        }
        assert forall|a: int, b: int| 0 <= a < kept@.len() && i + 1 <= b < n implies #[trigger] kept@[a].time
            <= #[trigger] old_seq[b].time by {
            if a < kept@.len() - 1 || p.id@ == id@ {
                assert(kept@[a].time <= old_seq[i as int].time || kept@[a].time <= old_seq[b].time);
            }
        }
        i = i + 1;
    }
    assert(old_seq.take(n as int) =~= old_seq);
    *points = kept;
}

proof fn lemma_without_id_insert(s: Seq<ControlPoint>, pos: int, cp: ControlPoint)
    requires
        0 <= pos <= s.len(),
    ensures
        without_id(s.insert(pos, cp), cp.id@) == without_id(s, cp.id@),
    decreases s.len(),
{
    let t = s.insert(pos, cp);
    if pos == s.len() {
        assert(t.drop_last() =~= s);
        assert(t.last() == cp);
    } else {
        assert(t.drop_last() =~= s.drop_last().insert(pos, cp));
        assert(t.last() == s.last());
        lemma_without_id_insert(s.drop_last(), pos, cp);
    }
}

/// Dropping the points of a controller right after adding one of its
/// points gives what dropping them gave before the addition.
pub proof fn law_remove_undoes_add(points: Seq<ControlPoint>, cp: ControlPoint, added: Seq<ControlPoint>)
    requires
        inserted_by_time(points, cp, added),
    ensures
        without_id(added, cp.id@) == without_id(points, cp.id@),
{
    let pos = choose|pos: int|
        0 <= pos <= points.len() && added == points.insert(pos, cp) && (forall|j: int|
            0 <= j < pos ==> #[trigger] points[j].time <= cp.time) && (forall|j: int|
            pos <= j < points.len() ==> #[trigger] points[j].time > cp.time);
    lemma_without_id_insert(points, pos, cp);
}

} // verus!
