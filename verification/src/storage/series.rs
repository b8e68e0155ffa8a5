//! Readings of one day in the order of the times they were taken: where a
//! new reading goes, and which reading lies closest to a time.

use crate::clock::{distance, lemma_span_falls, span_nanos, TimeOfDay};
use vstd::prelude::*;

verus! {

/// Whether the times never fall from one reading to the next.
pub open spec fn sorted_by_time(times: Seq<TimeOfDay>) -> bool {
    forall|i: int, j: int| 0 <= i <= j < times.len() ==> times[i].rank() <= times[j].rank()
}

/// The first place at or behind `from` whose time is later than `t`, or the
/// length where there is none.
pub open spec fn first_later_from(times: Seq<TimeOfDay>, t: TimeOfDay, from: int) -> int
    decreases times.len() - from,
{
    if from < 0 || from >= times.len() || times[from].rank() > t.rank() {
        from
    } else {
        first_later_from(times, t, from + 1)
    }
}

/// The place of a new reading taken at `t`: behind every reading taken at
/// that time or before, in front of the first later one.
pub open spec fn slot_for(times: Seq<TimeOfDay>, t: TimeOfDay) -> int {
    first_later_from(times, t, 0)
}

/// Where the search for the reading closest to `target` ends when it has
/// come as far as `from`: it moves on while the next reading is no farther
/// away than the one it holds.
pub open spec fn scan_from(times: Seq<TimeOfDay>, target: TimeOfDay, from: int) -> int
    decreases times.len() - from,
{
    if from < 0 || from + 1 >= times.len() {
        from
    } else if distance(target, times[from + 1]) <= distance(target, times[from]) {
        scan_from(times, target, from + 1)
    } else {
        from
    }
}

/// The place of the reading that a search for the one closest to `target`
/// returns: the first place whose successor lies strictly farther away, or
/// the last place where the distance never grows.
pub open spec fn closest_index(times: Seq<TimeOfDay>, target: TimeOfDay) -> int {
    scan_from(times, target, 0)
}

/// What `first_later_from` finds lies between its start and the length,
/// with no later time in front of it and a later time at it.
pub proof fn lemma_first_later(times: Seq<TimeOfDay>, t: TimeOfDay, from: int)
    requires
        0 <= from <= times.len(),
    ensures
        from <= first_later_from(times, t, from) <= times.len(),
        forall|i: int|
            from <= i < first_later_from(times, t, from) ==> times[i].rank() <= t.rank(),
        first_later_from(times, t, from) < times.len() ==> times[first_later_from(
            times,
            t,
            from,
        )].rank() > t.rank(),
    decreases times.len() - from,
{
    if from < times.len() && times[from].rank() <= t.rank() {
        lemma_first_later(times, t, from + 1);
    }
}

/// A reading put at its slot into times that stand in order leaves them in
/// order, with every earlier or equal time in front of it and every later
/// time behind it.
pub proof fn lemma_slot_keeps_order(times: Seq<TimeOfDay>, t: TimeOfDay)
    requires
        sorted_by_time(times),
    ensures
        0 <= slot_for(times, t) <= times.len(),
        forall|i: int| 0 <= i < slot_for(times, t) ==> times[i].rank() <= t.rank(),
        forall|i: int| slot_for(times, t) <= i < times.len() ==> times[i].rank() > t.rank(),
        sorted_by_time(times.insert(slot_for(times, t), t)),
{
    lemma_first_later(times, t, 0);
    let k = slot_for(times, t);
    assert forall|i: int| k <= i < times.len() implies times[i].rank() > t.rank() by {
        assert(times[k].rank() <= times[i].rank());
    }
    let after = times.insert(k, t);
    assert forall|i: int, j: int| 0 <= i <= j < after.len() implies after[i].rank()
        <= after[j].rank() by {
        if i < k && j > k {
            assert(times[i].rank() <= t.rank());
            assert(times[j - 1].rank() > t.rank());
        } else if i < k && j < k {
            assert(times[i].rank() <= times[j].rank());
        } else if i > k && j > k {
            assert(times[i - 1].rank() <= times[j - 1].rank());
        }
    }
}

/// A run that holds nothing twice still does so with one more item that
/// it did not hold.
pub proof fn lemma_insert_keeps_distinct<T>(s: Seq<T>, k: int, x: T)
    requires
        s.no_duplicates(),
        !s.contains(x),
        0 <= k <= s.len(),
    ensures
        s.insert(k, x).no_duplicates(),
        s.insert(k, x).contains(x),
        s.insert(k, x).len() == s.len() + 1,
{
    let after = s.insert(k, x);
    assert forall|i: int, j: int|
        0 <= i < after.len() && 0 <= j < after.len() && i != j implies after[i] != after[j] by {
        let oi = if i < k {
            i
        } else {
            i - 1
        };
        let oj = if j < k {
            j
        } else {
            j - 1
        };
        if i != k {
            assert(after[i] == s[oi]);
        }
        if j != k {
            assert(after[j] == s[oj]);
        }
    }
    assert(after[k] == x);
}

/// What a run holds it still holds with one more item in it.
pub proof fn lemma_insert_keeps_items<T>(s: Seq<T>, k: int, x: T, y: T)
    requires
        0 <= k <= s.len(),
        s.contains(y),
    ensures
        s.insert(k, x).contains(y),
{
    let i = choose|i: int| 0 <= i < s.len() && s[i] == y;
    if i < k {
        assert(s.insert(k, x)[i] == y);
    } else {
        assert(s.insert(k, x)[i + 1] == y);
    }
}

/// Where the search ends, the distance has not grown on the way there, and
/// the next reading, if there is one, lies strictly farther away.
pub proof fn lemma_scan(times: Seq<TimeOfDay>, target: TimeOfDay, from: int)
    requires
        0 <= from < times.len(),
    ensures
        from <= scan_from(times, target, from) < times.len(),
        forall|i: int|
            from <= i <= scan_from(times, target, from) ==> distance(
                target,
                times[scan_from(times, target, from)],
            ) <= distance(target, #[trigger] times[i]),
        scan_from(times, target, from) + 1 < times.len() ==> distance(
            target,
            times[scan_from(times, target, from) + 1],
        ) > distance(target, times[scan_from(times, target, from)]),
    decreases times.len() - from,
{
    if from + 1 < times.len() && distance(target, times[from + 1]) <= distance(
        target,
        times[from],
    ) {
        lemma_scan(times, target, from + 1);
    }
}

/// Among readings that stand in the order of their times, none of them a
/// leap second, the search returns a reading that no other reading of the
/// day beats: its time lies as close to the target as any.
pub proof fn lemma_closest_is_nearest(times: Seq<TimeOfDay>, target: TimeOfDay)
    requires
        times.len() > 0,
        sorted_by_time(times),
        forall|i: int| 0 <= i < times.len() ==> (#[trigger] times[i]).is_plain(),
    ensures
        0 <= closest_index(times, target) < times.len(),
        forall|j: int|
            0 <= j < times.len() ==> distance(target, times[closest_index(times, target)])
                <= distance(target, #[trigger] times[j]),
{
    lemma_scan(times, target, 0);
    let k = closest_index(times, target);
    assert forall|j: int| 0 <= j < times.len() implies distance(target, times[k]) <= distance(
        target,
        #[trigger] times[j],
    ) by {
        if j > k {
            lemma_span_falls(target, times[k], times[k + 1]);
            lemma_span_falls(target, times[k + 1], times[j]);
            assert(span_nanos(target, times[k + 1]) < 0);
        }
    }
}

} // verus!
