//! A reservation of a room for a span of time.

use crate::oid::ObjectId;
use crate::time::{minute_start, nanos_per_minute, Timestamp};
use core::cmp::Ordering;
use vstd::prelude::*;
use vstd::std_specs::cmp::{PartialEqSpecImpl, PartialOrdSpecImpl};

verus! {

/// What an [`Event`] stands for: who booked what, and the span
/// `[start, stop)` in nanoseconds since the Unix epoch.
pub struct EventView {
    pub id: Seq<u8>,
    pub booker_id: Seq<char>,
    pub headline: Seq<char>,
    pub description: Option<Seq<char>>,
    pub start: int,
    pub stop: int,
    pub is_dummy: bool,
}

impl EventView {
    /// The instant lies strictly between start and stop.
    pub open spec fn contains_instant(self, t: int) -> bool {
        self.start < t < self.stop
    }

    /// The instant is the start of the span or lies strictly inside it.
    pub open spec fn covers(self, t: int) -> bool {
        self.start <= t < self.stop
    }

    /// The start or the stop of `other` lies strictly inside this span.
    pub open spec fn overlaps(self, other: EventView) -> bool {
        self.contains_instant(other.start) || self.contains_instant(other.stop)
    }

    /// One span ends at the instant at which the other begins.
    pub open spec fn touches(self, other: EventView) -> bool {
        self.start == other.stop || self.stop == other.start
    }

    /// The two spans are cleanly separated in time: one has ended when the
    /// other begins. Meeting at a boundary counts as separated.
    pub open spec fn apart(self, other: EventView) -> bool {
        self.start >= other.stop || self.stop <= other.start
    }

    /// The span lies within the window `[from, to]`.
    pub open spec fn within(self, from: int, to: int) -> bool {
        self.start >= from && self.stop <= to
    }

    /// A reservation proper: named, of positive length, on whole minutes.
    pub open spec fn is_booking(self) -> bool {
        &&& !self.is_dummy
        &&& self.booker_id.len() > 0
        &&& self.headline.len() > 0
        &&& self.start < self.stop
        &&& self.start % nanos_per_minute() == 0
        &&& self.stop % nanos_per_minute() == 0
    }

    /// A probe: a span of no length that only marks an instant.
    pub open spec fn is_probe(self) -> bool {
        self.is_dummy && self.start == self.stop
    }
}

/// The view of an optional text.
pub open spec fn text_view(text: Option<String>) -> Option<Seq<char>> {
    match text {
        Some(s) => Some(s@),
        None => None,
    }
}

/// A reservation. Events are compared by their start alone: two events are
/// equal when they start at the same instant, and the one that starts earlier
/// is the lesser. Identity is told by [`Event::id`].
#[derive(Debug)]
pub struct Event {
    id: ObjectId,
    booker_id: String,
    headline: String,
    description: Option<String>,
    start: Timestamp,
    stop: Timestamp,
    isdummy: bool,
}

impl View for Event {
    type V = EventView;

    closed spec fn view(&self) -> EventView {
        EventView {
            id: self.id@,
            booker_id: self.booker_id@,
            headline: self.headline@,
            description: text_view(self.description),
            start: self.start@,
            stop: self.stop@,
            is_dummy: self.isdummy,
        }
    }
}

impl Event {
    /// Both ends are valid timestamps.
    pub closed spec fn ends_wf(&self) -> bool {
        self.start.wf() && self.stop.wf()
    }

    /// The event is either a reservation proper or a probe.
    pub open spec fn wf(&self) -> bool {
        &&& self.ends_wf()
        &&& self@.is_booking() || self@.is_probe()
    }

    /// Whether a reservation can be made from these values: both names are
    /// given, and the minute of `start` comes before the minute of `stop`.
    pub open spec fn accepts(booker_id: Seq<char>, headline: Seq<char>, start: int, stop: int) -> bool {
        &&& booker_id.len() > 0
        &&& headline.len() > 0
        &&& minute_start(start) < minute_start(stop)
    }

    /// What a reservation made from these values holds, whatever its
    /// identifier.
    pub open spec fn holds(
        self,
        booker_id: Seq<char>,
        headline: Seq<char>,
        description: Option<Seq<char>>,
        start: int,
        stop: int,
    ) -> bool {
        &&& self.wf()
        &&& !self@.is_dummy
        &&& self@.booker_id == booker_id
        &&& self@.headline == headline
        &&& self@.description == description
        &&& self@.start == minute_start(start)
        &&& self@.stop == minute_start(stop)
    }

    /// A new reservation under a fresh identifier. Start and stop are cut
    /// back to the whole minute. Refused when a name is empty or when, after
    /// the cut, the start is not before the stop.
    pub fn create(
        booker_id: String,
        headline: String,
        description: Option<String>,
        start: Timestamp,
        stop: Timestamp,
    ) -> (r: Option<Event>)
        requires
            start.wf(),
            stop.wf(),
        ensures
            r is Some <==> Self::accepts(booker_id@, headline@, start@, stop@),
            r matches Some(e) ==> e.holds(
                booker_id@,
                headline@,
                text_view(description),
                start@,
                stop@,
            ),
    {
        Self::restore(ObjectId::new(), booker_id, headline, description, start, stop)
    }

    /// The reservation that was made under `id`, from the values it was made
    /// of. Accepts and refuses as [`Event::create`] does.
    pub fn restore(
        id: ObjectId,
        booker_id: String,
        headline: String,
        description: Option<String>,
        start: Timestamp,
        stop: Timestamp,
    ) -> (r: Option<Event>)
        requires
            start.wf(),
            stop.wf(),
        ensures
            r is Some <==> Self::accepts(booker_id@, headline@, start@, stop@),
            r matches Some(e) ==> e@.id == id@ && e.holds(
                booker_id@,
                headline@,
                text_view(description),
                start@,
                stop@,
            ),
    {
        let start = start.truncate_to_minute();
        let stop = stop.truncate_to_minute();
        if start >= stop || booker_id.as_str().is_empty() || headline.as_str().is_empty() {
            return None;
        }
        Some(Event { id, booker_id, headline, description, start, stop, isdummy: false })
    }

    /// A probe at `date`: a value to look an instant up with, never one to
    /// store.
    pub fn create_dummy(date: Timestamp) -> (r: Event)
        ensures
            date.wf() ==> r.wf(),
            r@ == (EventView {
                id: Seq::new(12, |i: int| 0u8),
                booker_id: Seq::<char>::empty(),
                headline: Seq::<char>::empty(),
                description: None,
                start: date@,
                stop: date@,
                is_dummy: true,
            }),
    {
        let id = ObjectId::from_bytes([0u8; 12]);
        assert(id@ =~= Seq::new(12, |i: int| 0u8));
        Event {
            id,
            booker_id: String::new(),
            headline: String::new(),
            description: None,
            start: date,
            stop: date,
            isdummy: true,
        }
    }

    /// The identifier of this event.
    pub fn id(&self) -> (r: ObjectId)
        ensures
            r@ == self@.id,
    {
        self.id
    }

    /// Who made the reservation.
    pub fn booker_id(&self) -> (r: &str)
        ensures
            r@ == self@.booker_id,
    {
        self.booker_id.as_str()
    }

    /// What the reservation is for.
    pub fn headline(&self) -> (r: &str)
        ensures
            r@ == self@.headline,
    {
        self.headline.as_str()
    }

    /// More about the reservation, where something was given.
    pub fn description(&self) -> (r: Option<&String>)
        ensures
            match r {
                Some(text) => self@.description == Some(text@),
                None => self@.description is None,
            },
    {
        self.description.as_ref()
    }

    /// The instant at which the event begins.
    pub fn start(&self) -> (r: Timestamp)
        ensures
            r@ == self@.start,
            self.wf() ==> r.wf(),
    {
        self.start
    }

    /// The instant at which the event ends.
    pub fn stop(&self) -> (r: Timestamp)
        ensures
            r@ == self@.stop,
            self.wf() ==> r.wf(),
    {
        self.stop
    }

    /// Whether this is a probe.
    pub fn isdummy(&self) -> (r: bool)
        ensures
            r == self@.is_dummy,
    {
        self.isdummy
    }

    /// Whether the start or the stop of `event` lies strictly inside this
    /// event. Meeting at a boundary is no overlap.
    pub fn overlaps_with(&self, event: &Event) -> (r: bool)
        ensures
            r == self@.overlaps(event@),
    {
        self.datetime_is_in(&event.start) || self.datetime_is_in(&event.stop)
    }

    /// Whether one of the two ends at the instant at which the other begins.
    pub fn partial_overlaps_with(&self, event: &Event) -> (r: bool)
        ensures
            r == self@.touches(event@),
    {
        self.start == event.stop || self.stop == event.start
    }

    /// Whether `datetime` lies strictly between start and stop.
    pub fn datetime_is_in(&self, datetime: &Timestamp) -> (r: bool)
        ensures
            r == self@.contains_instant(datetime@),
    {
        *datetime > self.start && *datetime < self.stop
    }
}

impl Clone for Event {
    fn clone(&self) -> (r: Event)
        ensures
            r@ == self@,
            r.wf() == self.wf(),
    {
        Event {
            id: self.id,
            booker_id: self.booker_id.clone(),
            headline: self.headline.clone(),
            description: match &self.description {
                Some(text) => Some(text.clone()),
                None => None,
            },
            start: self.start,
            stop: self.stop,
            isdummy: self.isdummy,
        }
    }
}

impl PartialEq for Event {
    fn eq(&self, other: &Event) -> (r: bool) {
        self.start == other.start
    }
}

impl Eq for Event {

}

impl PartialEqSpecImpl for Event {
    open spec fn obeys_eq_spec() -> bool {
        true
    }

    open spec fn eq_spec(&self, other: &Event) -> bool {
        self@.start == other@.start
    }
}

impl PartialOrd for Event {
    fn partial_cmp(&self, other: &Event) -> (r: Option<Ordering>) {
        self.start.partial_cmp(&other.start)
    }
}

impl PartialOrdSpecImpl for Event {
    open spec fn obeys_partial_cmp_spec() -> bool {
        true
    }

    open spec fn partial_cmp_spec(&self, other: &Event) -> Option<Ordering> {
        if self@.start < other@.start {
            Some(Ordering::Less)
        } else if self@.start == other@.start {
            Some(Ordering::Equal)
        } else {
            Some(Ordering::Greater)
        }
    }
}

} // verus!
