//! Schedules: what it means for events to be in order, to fit, and to be
//! found, stated over the views of the events.

use crate::event::EventView;
use vstd::prelude::*;

verus! {

/// A schedule in order: every event is a reservation proper, and each has
/// ended when the next begins.
pub open spec fn ordered(s: Seq<EventView>) -> bool {
    &&& forall|i: int| 0 <= i < s.len() ==> (#[trigger] s[i]).is_booking()
    &&& forall|i: int, j: int| 0 <= i < j < s.len() ==> (#[trigger] s[i]).stop <= (#[trigger] s[j]).start
}

/// The schedule has nothing between `start` and `stop`: every event has
/// ended by `start` or begins at `stop` or later.
pub open spec fn free(s: Seq<EventView>, start: int, stop: int) -> bool {
    forall|i: int| 0 <= i < s.len() ==> (#[trigger] s[i]).start >= stop || s[i].stop <= start
}

/// The candidate is cleanly separated from every event of the schedule: the
/// schedule is free for its span.
pub open spec fn fits(s: Seq<EventView>, candidate: EventView) -> bool {
    free(s, candidate.start, candidate.stop)
}

/// The number of events of the schedule that start before `t`.
pub open spec fn rank(s: Seq<EventView>, t: int) -> int
    decreases s.len(),
{
    if s.len() == 0 {
        0
    } else {
        rank(s.drop_last(), t) + if s.last().start < t {
            1int
        } else {
            0int
        }
    }
}

/// The place of the event that starts at `t` or holds `t` strictly inside
/// its span, where the schedule has one.
pub open spec fn covering(s: Seq<EventView>, t: int) -> Option<int> {
    if exists|i: int| 0 <= i < s.len() && (#[trigger] s[i]).covers(t) {
        Some(choose|i: int| 0 <= i < s.len() && (#[trigger] s[i]).covers(t))
    } else {
        None
    }
}

/// The events of the schedule that lie within the window `[from, to]`, in
/// the order of the schedule.
pub open spec fn window(s: Seq<EventView>, from: int, to: int) -> Seq<EventView> {
    s.filter(|e: EventView| e.within(from, to))
}

/// The number of events that start before an instant is at most the number
/// of events.
pub proof fn lemma_rank_bounds(s: Seq<EventView>, t: int)
    ensures
        0 <= rank(s, t) <= s.len(),
    decreases s.len(),
{
    if s.len() > 0 {
        lemma_rank_bounds(s.drop_last(), t);
    }
}

/// Nothing lies within a window of an empty schedule.
pub proof fn lemma_window_of_nothing(from: int, to: int)
    ensures
        window(Seq::<EventView>::empty(), from, to) == Seq::<EventView>::empty(),
{
    reveal(Seq::filter);
}

/// In an ordered schedule at most one event covers an instant.
pub proof fn lemma_one_event_covers(s: Seq<EventView>, t: int, i: int)
    requires
        ordered(s),
        0 <= i < s.len(),
        s[i].covers(t),
    ensures
        covering(s, t) == Some(i),
{
    let j = choose|j: int| 0 <= j < s.len() && (#[trigger] s[j]).covers(t);
    if j < i {
        assert(s[j].stop <= s[i].start);
    } else if i < j {
        assert(s[i].stop <= s[j].start);
    }
}

/// An ordered schedule stays ordered when an event leaves it.
pub proof fn lemma_remove_keeps_order(s: Seq<EventView>, k: int)
    requires
        ordered(s),
        0 <= k < s.len(),
    ensures
        ordered(s.remove(k)),
{
    let n = s.remove(k);
    assert forall|i: int| 0 <= i < n.len() implies (#[trigger] n[i]).is_booking() by {
        if i < k {
            assert(n[i] == s[i]);
        } else {
            assert(n[i] == s[i + 1]);
        }
    }
    assert forall|i: int, j: int| 0 <= i < j < n.len() implies (#[trigger] n[i]).stop <= (
    #[trigger] n[j]).start by {
        let a = if i < k { i } else { i + 1 };
        let b = if j < k { j } else { j + 1 };
        assert(n[i] == s[a] && n[j] == s[b]);
    }
}

/// In a schedule that is split at `k` into the events that start before `t`
/// and those that do not, `k` events start before `t`.
pub proof fn lemma_rank_at_split(s: Seq<EventView>, t: int, k: int)
    requires
        0 <= k <= s.len(),
        forall|i: int| 0 <= i < k ==> (#[trigger] s[i]).start < t,
        forall|i: int| k <= i < s.len() ==> (#[trigger] s[i]).start >= t,
    ensures
        rank(s, t) == k,
    decreases s.len(),
{
    if s.len() > 0 {
        let front = s.drop_last();
        if k == s.len() {
            assert(s.last() == s[k - 1]);
            lemma_rank_at_split(front, t, k - 1);
        } else {
            assert(s.last() == s[s.len() - 1]);
            lemma_rank_at_split(front, t, k);
        }
    }
}

/// In an ordered schedule the events that start before `t` come first.
pub proof fn lemma_rank_splits(s: Seq<EventView>, t: int)
    requires
        ordered(s),
    ensures
        0 <= rank(s, t) <= s.len(),
        forall|i: int| 0 <= i < rank(s, t) ==> (#[trigger] s[i]).start < t,
        forall|i: int| rank(s, t) <= i < s.len() ==> (#[trigger] s[i]).start >= t,
    decreases s.len(),
{
    if s.len() > 0 {
        let front = s.drop_last();
        let last = s.len() - 1;
        assert forall|i: int| 0 <= i < front.len() implies (#[trigger] front[i]).is_booking() by {
            assert(front[i] == s[i]);
        }
        assert forall|i: int, j: int| 0 <= i < j < front.len() implies (#[trigger] front[i]).stop
            <= (#[trigger] front[j]).start by {
            assert(front[i] == s[i] && front[j] == s[j]);
        }
        lemma_rank_splits(front, t);
        if s.last().start < t {
            assert forall|i: int| 0 <= i < front.len() implies (#[trigger] front[i]).start < t by {
                assert(front[i] == s[i]);
                assert(s[i].is_booking());
                assert(s[i].stop <= s[last].start);
            }
            lemma_rank_at_split(front, t, front.len() as int);
            assert forall|i: int| 0 <= i < rank(s, t) implies (#[trigger] s[i]).start < t by {
                if i < last {
                    assert(s[i] == front[i]);
                }
            }
        } else {
            assert forall|i: int| 0 <= i < rank(s, t) implies (#[trigger] s[i]).start < t by {
                assert(s[i] == front[i]);
            }
            assert forall|i: int| rank(s, t) <= i < s.len() implies (#[trigger] s[i]).start
                >= t by {
                if i < last {
                    assert(s[i] == front[i]);
                }
            }
        }
    }
}

/// An event that fits an ordered schedule leaves it ordered when it goes in
/// behind the events that start before it.
pub proof fn lemma_insert_keeps_order(s: Seq<EventView>, e: EventView, k: int)
    requires
        ordered(s),
        e.is_booking(),
        fits(s, e),
        0 <= k <= s.len(),
        forall|i: int| 0 <= i < k ==> (#[trigger] s[i]).start < e.start,
        forall|i: int| k <= i < s.len() ==> (#[trigger] s[i]).start >= e.start,
    ensures
        ordered(s.insert(k, e)),
{
    let n = s.insert(k, e);
    assert forall|i: int| 0 <= i < n.len() implies (#[trigger] n[i]).is_booking() by {
        if i < k {
            assert(n[i] == s[i]);
        } else if i > k {
            assert(n[i] == s[i - 1]);
        }
    }
    assert forall|i: int, j: int| 0 <= i < j < n.len() implies (#[trigger] n[i]).stop <= (
    #[trigger] n[j]).start by {
        if j < k {
            assert(n[i] == s[i] && n[j] == s[j]);
        } else if j == k {
            assert(n[i] == s[i]);
            assert(s[i].apart(e));
        } else if i < k {
            assert(n[i] == s[i] && n[j] == s[j - 1]);
        } else if i == k {
            assert(n[j] == s[j - 1]);
            assert(s[j - 1].apart(e));
            assert(s[j - 1].is_booking());
        } else {
            assert(n[i] == s[i - 1] && n[j] == s[j - 1]);
        }
    }
}

} // verus!
