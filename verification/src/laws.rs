//! What holds of every room and every schedule.

use crate::event::{Event, EventView};
use crate::room::{ref_views, Room, RoomView};
use crate::schedule::{
    covering, fits, lemma_insert_keeps_order, lemma_one_event_covers, lemma_rank_splits, ordered,
    rank, window,
};
use crate::time::{minute_start, nanos_per_minute};
use vstd::prelude::*;

verus! {

/// Cutting an instant back to the minute gives a whole minute, moves the
/// instant towards the past if at all, and by less than a minute.
pub proof fn lemma_minute_start_is_the_minute(t: int)
    ensures
        minute_start(t) % nanos_per_minute() == 0,
        minute_start(t) <= t < minute_start(t) + nanos_per_minute(),
        minute_start(minute_start(t)) == minute_start(t),
{
}

/// An event is made of every start and stop whose minutes are in order,
/// and of no others: whether one is made does not depend on the seconds.
pub proof fn lemma_creation_goes_by_the_minute(
    booker_id: Seq<char>,
    headline: Seq<char>,
    start: int,
    stop: int,
)
    requires
        booker_id.len() > 0,
        headline.len() > 0,
    ensures
        Event::accepts(booker_id, headline, start, stop) <==> minute_start(start) < minute_start(
            stop,
        ),
        start >= stop ==> !Event::accepts(booker_id, headline, start, stop),
        Event::accepts(booker_id, headline, start, stop) <==> Event::accepts(
            booker_id,
            headline,
            minute_start(start),
            minute_start(stop),
        ),
{
    lemma_minute_start_is_the_minute(start);
    lemma_minute_start_is_the_minute(stop);
    if start >= stop {
        lemma_minute_start_grows(stop, start);
    }
}

/// A later instant is not cut back to an earlier minute.
pub proof fn lemma_minute_start_grows(a: int, b: int)
    requires
        a <= b,
    ensures
        minute_start(a) <= minute_start(b),
{
    lemma_minute_start_is_the_minute(a);
    lemma_minute_start_is_the_minute(b);
    if minute_start(a) > minute_start(b) {
        let m = nanos_per_minute();
        assert(minute_start(a) - minute_start(b) >= m) by {
            assert((minute_start(a) - minute_start(b)) % m == 0);
        }
    }
}

/// Two spans of positive length that are cleanly separated do not overlap,
/// whichever of the two is asked.
pub proof fn lemma_apart_is_no_overlap(a: EventView, b: EventView)
    requires
        a.start < a.stop,
        b.start < b.stop,
        a.apart(b),
    ensures
        !a.overlaps(b),
        !b.overlaps(a),
{
}

/// Two events that meet at a boundary are cleanly separated: such a pair is
/// no conflict.
pub proof fn lemma_touching_is_apart(a: EventView, b: EventView)
    requires
        a.touches(b),
    ensures
        a.apart(b),
        b.apart(a),
{
}

/// No two events of a valid room overlap: of any two, one has ended when the
/// other begins.
pub proof fn lemma_room_is_free_of_overlap(room: Room, i: int, j: int)
    requires
        room.wf(),
        0 <= i < room@.events.len(),
        0 <= j < room@.events.len(),
        i != j,
    ensures
        room@.events[i].apart(room@.events[j]),
        !room@.events[i].overlaps(room@.events[j]),
        !room@.events[j].overlaps(room@.events[i]),
{
    let s = room@.events;
    if i < j {
        assert(s[i].stop <= s[j].start);
    } else {
        assert(s[j].stop <= s[i].start);
    }
    assert(s[i].is_booking() && s[j].is_booking());
}

/// An event that was booked overlaps none of the events that were there
/// before it.
pub proof fn lemma_booked_event_overlaps_none(s: Seq<EventView>, e: EventView, i: int)
    requires
        ordered(s),
        e.is_booking(),
        fits(s, e),
        0 <= i < s.len(),
    ensures
        !s[i].overlaps(e),
        !e.overlaps(s[i]),
{
    assert(s[i].apart(e));
    assert(s[i].is_booking());
}

/// No two events of a schedule start at the same instant: an event that
/// starts where a stored one does is turned away.
pub proof fn lemma_same_start_does_not_fit(s: Seq<EventView>, e: EventView, i: int)
    requires
        ordered(s),
        e.is_booking(),
        0 <= i < s.len(),
        s[i].start == e.start,
    ensures
        !fits(s, e),
{
    assert(s[i].is_booking());
    assert(!(s[i].start >= e.stop || s[i].stop <= e.start));
}

/// A query for a window has one answer: any two lists of events that the
/// room may hand out for the same window show the same events in the same
/// order.
pub proof fn lemma_range_query_repeats(
    room: Room,
    from: int,
    to: int,
    first: Seq<&Event>,
    second: Seq<&Event>,
)
    requires
        ref_views(first) == window(room@.events, from, to),
        ref_views(second) == window(room@.events, from, to),
    ensures
        ref_views(first) == ref_views(second),
{
}

/// Asking for a window once more, of what the first answer holds, changes
/// nothing.
pub proof fn lemma_window_of_window(s: Seq<EventView>, from: int, to: int)
    ensures
        window(window(s, from, to), from, to) == window(s, from, to),
    decreases s.len(),
{
    reveal(Seq::filter);
    if s.len() > 0 {
        let inside = |e: EventView| e.within(from, to);
        let front = s.drop_last();
        lemma_window_of_window(front, from, to);
        if s.last().within(from, to) {
            front.filter(inside).lemma_filter_push(s.last(), inside);
        }
    }
}

/// The events within a window are events of the schedule that lie within
/// it, and each event of the schedule that lies within it is among them.
pub proof fn lemma_window_holds_what_lies_within(s: Seq<EventView>, from: int, to: int)
    ensures
        forall|i: int|
            0 <= i < window(s, from, to).len() ==> (#[trigger] window(s, from, to)[i]).within(
                from,
                to,
            ) && s.contains(window(s, from, to)[i]),
        forall|i: int|
            0 <= i < s.len() && (#[trigger] s[i]).within(from, to) ==> window(
                s,
                from,
                to,
            ).contains(s[i]),
{
    let inside = |e: EventView| e.within(from, to);
    let w = window(s, from, to);
    assert forall|i: int| 0 <= i < w.len() implies (#[trigger] w[i]).within(from, to)
        && s.contains(w[i]) by {
        s.lemma_filter_pred(inside, i);
        assert(w.contains(w[i]));
        s.lemma_filter_contains_rev(inside, w[i]);
    }
    assert forall|i: int| 0 <= i < s.len() && (#[trigger] s[i]).within(from, to) implies w.contains(
        s[i],
    ) by {
        s.lemma_filter_contains(inside, i);
    }
}

/// The events within a window of an ordered schedule come in start order.
pub proof fn lemma_window_is_ordered(s: Seq<EventView>, from: int, to: int)
    requires
        ordered(s),
    ensures
        ordered(window(s, from, to)),
    decreases s.len(),
{
    reveal(Seq::filter);
    if s.len() > 0 {
        let front = s.drop_last();
        let last = s.len() - 1;
        assert forall|i: int| 0 <= i < front.len() implies (#[trigger] front[i]).is_booking() by {
            assert(front[i] == s[i]);
        }
        assert forall|i: int, j: int| 0 <= i < j < front.len() implies (#[trigger] front[i]).stop
            <= (#[trigger] front[j]).start by {
            assert(front[i] == s[i] && front[j] == s[j]);
        }
        lemma_window_is_ordered(front, from, to);
        lemma_window_holds_what_lies_within(front, from, to);
        let w = window(s, from, to);
        let wf = window(front, from, to);
        if s.last().within(from, to) {
            assert(w == wf.push(s.last()));
            assert(s[last].is_booking());
            assert forall|i: int| 0 <= i < w.len() implies (#[trigger] w[i]).is_booking() by {
                if i < wf.len() {
                    assert(w[i] == wf[i]);
                }
            }
            assert forall|i: int, j: int| 0 <= i < j < w.len() implies (#[trigger] w[i]).stop <= (
            #[trigger] w[j]).start by {
                if j < wf.len() {
                    assert(w[i] == wf[i] && w[j] == wf[j]);
                } else {
                    assert(w[i] == wf[i]);
                    assert(front.contains(wf[i]));
                    let k = choose|k: int| 0 <= k < front.len() && front[k] == wf[i];
                    assert(front[k] == s[k]);
                    assert(s[k].stop <= s[last].start);
                }
            }
        } else {
            assert(w == wf);
        }
    }
}

/// Booking an event that fits and then removing by an instant strictly
/// inside its span gives the room back as it was.
pub proof fn lemma_book_then_remove(room: RoomView, e: EventView, t: int)
    requires
        ordered(room.events),
        e.is_booking(),
        fits(room.events, e),
        e.contains_instant(t),
    ensures
        ({
            let place = rank(room.events, e.start);
            let booked = RoomView { events: room.events.insert(place, e), ..room };
            &&& ordered(booked.events)
            &&& covering(booked.events, t) == Some(place)
            &&& (RoomView { events: booked.events.remove(place), ..booked }) == room
        }),
{
    let s = room.events;
    let place = rank(s, e.start);
    lemma_rank_splits(s, e.start);
    lemma_insert_keeps_order(s, e, place);
    let booked = s.insert(place, e);
    assert(booked[place] == e);
    lemma_one_event_covers(booked, t, place);
    assert(booked.remove(place) =~= s);
}

} // verus!
