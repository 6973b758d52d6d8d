//! A bookable room and its schedule.
//!
//! The schedule is kept in start order and no two of its events overlap. An
//! event that ends at the instant at which another begins is no overlap.

use crate::event::{text_view, Event, EventView};
use crate::oid::{hex, id_view, id_views, ObjectId};
use crate::route::{post, table, Method, Route};
use crate::schedule::{
    covering, fits, free, lemma_insert_keeps_order, lemma_one_event_covers, lemma_rank_at_split,
    lemma_rank_bounds, lemma_remove_keeps_order, lemma_window_of_nothing, ordered, rank, window,
};
use crate::time::{instant_named, minute_start, Timestamp};
use crate::user::User;
use std::collections::HashMap;
use vstd::prelude::*;
use vstd::seq_lib::*;

verus! {

/// The views of a list of events.
pub open spec fn views(events: Seq<Event>) -> Seq<EventView> {
    events.map_values(|e: Event| e@)
}

/// The views of a list of borrowed events.
pub open spec fn ref_views(events: Seq<&Event>) -> Seq<EventView> {
    events.map_values(|e: &Event| e@)
}

/// What a [`Room`] stands for.
pub struct RoomView {
    pub id: Seq<u8>,
    pub name: Seq<char>,
    pub events: Seq<EventView>,
    pub layouts: Seq<Seq<u8>>,
    pub layout_values: Map<String, String>,
    pub owner: Option<Seq<u8>>,
    pub description: Option<Seq<char>>,
}

/// A room with its schedule.
#[derive(Debug)]
pub struct Room {
    id: ObjectId,
    name: String,
    events: Vec<Event>,
    layouts: Vec<ObjectId>,
    layout_values: HashMap<String, String>,
    owner: Option<ObjectId>,
    description: Option<String>,
}

impl View for Room {
    type V = RoomView;

    closed spec fn view(&self) -> RoomView {
        RoomView {
            id: self.id@,
            name: self.name@,
            events: views(self.events@),
            layouts: id_views(self.layouts@),
            layout_values: self.layout_values@,
            owner: id_view(self.owner),
            description: text_view(self.description),
        }
    }
}

impl Room {
    /// Every stored event is valid by itself.
    pub closed spec fn events_wf(&self) -> bool {
        forall|i: int| 0 <= i < self.events@.len() ==> (#[trigger] self.events@[i]).wf()
    }

    /// The schedule is in order and free of overlaps.
    pub open spec fn wf(&self) -> bool {
        self.events_wf() && ordered(self@.events)
    }

    /// A new room of the given name under a fresh identifier, with an empty
    /// schedule, no layouts, no owner and no description.
    pub fn create(name: String) -> (r: Room)
        ensures
            r.wf(),
            r@.name == name@,
            r@.events == Seq::<EventView>::empty(),
            r@.layouts == Seq::<Seq<u8>>::empty(),
            r@.layout_values == Map::<String, String>::empty(),
            r@.owner is None,
            r@.description is None,
    {
        let r = Room {
            id: ObjectId::new(),
            name,
            events: Vec::new(),
            layouts: Vec::new(),
            layout_values: HashMap::new(),
            owner: None,
            description: None,
        };
        assert(r@.events =~= Seq::<EventView>::empty());
        assert(r@.layouts =~= Seq::<Seq<u8>>::empty());
        r
    }

    /// The room that was stored under `id`, from the values it was stored
    /// with. Refused when the events are not a schedule in order: a probe
    /// among them, or two that are not cleanly separated, the earlier first.
    pub fn restore(
        id: ObjectId,
        name: String,
        events: Vec<Event>,
        layouts: Vec<ObjectId>,
        layout_values: HashMap<String, String>,
        owner: Option<ObjectId>,
        description: Option<String>,
    ) -> (r: Option<Room>)
        requires
            forall|i: int| 0 <= i < events@.len() ==> (#[trigger] events@[i]).wf(),
        ensures
            r is Some <==> ordered(views(events@)),
            r matches Some(room) ==> room.wf() && room@ == (RoomView {
                id: id@,
                name: name@,
                events: views(events@),
                layouts: id_views(layouts@),
                layout_values: layout_values@,
                owner: id_view(owner),
                description: text_view(description),
            }),
    {
        if !in_order(&events) {
            return None;
        }
        Some(Room { id, name, events, layouts, layout_values, owner, description })
    }

    /// The identifier of the room.
    pub fn id(&self) -> (r: ObjectId)
        ensures
            r@ == self@.id,
    {
        self.id
    }

    /// The name of the room.
    pub fn name(&self) -> (r: &str)
        ensures
            r@ == self@.name,
    {
        self.name.as_str()
    }

    /// The field by which rooms are found in the store: the name.
    pub fn index_name() -> (r: &'static str)
        ensures
            r@ == "name"@,
    {
        "name"
    }

    /// The schedule, in start order.
    pub fn events(&self) -> (r: &Vec<Event>)
        ensures
            views(r@) == self@.events,
            self.wf() ==> forall|i: int| 0 <= i < r@.len() ==> (#[trigger] r@[i]).wf(),
    {
        &self.events
    }

    /// The layouts that belong to the room.
    pub fn layouts(&self) -> (r: &Vec<ObjectId>)
        ensures
            id_views(r@) == self@.layouts,
    {
        &self.layouts
    }

    /// The values of the layout variables.
    pub fn layout_values(&self) -> (r: &HashMap<String, String>)
        ensures
            r@ == self@.layout_values,
    {
        &self.layout_values
    }

    /// The owner of the room, where it has one.
    pub fn owner(&self) -> (r: Option<ObjectId>)
        ensures
            id_view(r) == self@.owner,
    {
        self.owner
    }

    /// More about the room, where something was given.
    pub fn description(&self) -> (r: Option<&String>)
        ensures
            match r {
                Some(text) => self@.description == Some(text@),
                None => self@.description is None,
            },
    {
        self.description.as_ref()
    }

    /// Whether the room could take the event: the event is no probe, and it
    /// is cleanly separated from every event of the schedule. Events that
    /// meet at a boundary are separated.
    pub fn could_accomodate(&self, event: &Event) -> (r: bool)
        ensures
            r == (!event@.is_dummy && fits(self@.events, event@)),
    {
        if event.isdummy() {
            return false;
        }
        let start = event.start();
        let stop = event.stop();
        let mut i: usize = 0;
        while i < self.events.len()
            invariant
                i <= self.events@.len(),
                start@ == event@.start,
                stop@ == event@.stop,
                forall|j: int| 0 <= j < i ==> (#[trigger] self@.events[j]).apart(event@),
            decreases self.events@.len() - i,
        {
            let current = &self.events[i];
            if !(current.start() >= stop || current.stop() <= start) {
                assert(!self@.events[i as int].apart(event@));
                return false;
            }
            i += 1;
        }
        true
    }

    /// The place of the first stored event that starts at `t` or later, which
    /// is the number of events that start before `t`.
    fn first_from(&self, t: &Timestamp) -> (k: usize)
        requires
            self.wf(),
        ensures
            k <= self@.events.len(),
            k == rank(self@.events, t@),
            forall|i: int| 0 <= i < k ==> (#[trigger] self@.events[i]).start < t@,
            forall|i: int| k <= i < self@.events.len() ==> (#[trigger] self@.events[i]).start >= t@,
    {
        let mut low: usize = 0;
        let mut high: usize = self.events.len();
        while low < high
            invariant
                self.wf(),
                low <= high <= self@.events.len(),
                forall|i: int| 0 <= i < low ==> (#[trigger] self@.events[i]).start < t@,
                forall|i: int|
                    high <= i < self@.events.len() ==> (#[trigger] self@.events[i]).start >= t@,
            decreases high - low,
        {
            let mid: usize = low + (high - low) / 2;
            if self.events[mid].start() < *t {
                assert forall|i: int| 0 <= i < mid + 1 implies (#[trigger] self@.events[i]).start
                    < t@ by {
                    if i < mid {
                        assert(self@.events[i].stop <= self@.events[mid as int].start);
                    }
                }
                low = mid + 1;
            } else {
                assert forall|i: int| mid <= i < self@.events.len() implies (
                #[trigger] self@.events[i]).start >= t@ by {
                    if mid < i {
                        assert(self@.events[mid as int].stop <= self@.events[i].start);
                    }
                }
                high = mid;
            }
        }
        proof {
            lemma_rank_at_split(self@.events, t@, low as int);
        }
        low
    }

    /// Books the event: it goes into the schedule behind the events that
    /// start before it, if it is cleanly separated from every event already
    /// there. Otherwise the room stays as it is.
    pub fn add_event(&mut self, event: Event) -> (r: Option<()>)
        requires
            old(self).wf(),
            event.wf(),
            !event@.is_dummy,
        ensures
            final(self).wf(),
            r is Some <==> fits(old(self)@.events, event@),
            r is Some ==> final(self)@ == (RoomView {
                events: old(self)@.events.insert(
                    rank(old(self)@.events, event@.start),
                    event@,
                ),
                ..old(self)@
            }),
            r is None ==> final(self)@ == old(self)@,
    {
        if !self.could_accomodate(&event) {
            return None;
        }
        let start = event.start();
        let k = self.first_from(&start);
        proof {
            lemma_insert_keeps_order(self@.events, event@, k as int);
            assert(views(self.events@.insert(k as int, event)) =~= views(self.events@).insert(
                k as int,
                event@,
            ));
        }
        self.events.insert(k, event);
        Some(())
    }

    /// Takes the event out of the schedule that starts at `datetime` or, if
    /// none does, the nearest event before it where `datetime` lies strictly
    /// inside its span. Reports `None`, and leaves the room as it is, when
    /// there is no such event.
    pub fn remove_event_datetime(&mut self, datetime: Timestamp) -> (r: Option<()>)
        requires
            old(self).wf(),
        ensures
            final(self).wf(),
            match covering(old(self)@.events, datetime@) {
                Some(i) => r is Some && final(self)@ == (RoomView {
                    events: old(self)@.events.remove(i),
                    ..old(self)@
                }),
                None => r is None && final(self)@ == old(self)@,
            },
    {
        let probe = Event::create_dummy(datetime);
        let k = self.first_from(&datetime);
        if k < self.events.len() && self.events[k] == probe {
            proof {
                assert(self@.events[k as int].is_booking());
                self.lemma_taking_out(datetime@, k as int);
            }
            self.events.remove(k);
            return Some(());
        }
        if k > 0 && self.events[k - 1].overlaps_with(&probe) {
            proof {
                self.lemma_taking_out(datetime@, k - 1);
            }
            self.events.remove(k - 1);
            return Some(());
        }
        proof {
            let s = self@.events;
            assert forall|i: int| 0 <= i < s.len() implies !(#[trigger] s[i]).covers(datetime@) by {
                if i > k {
                    assert(s[k as int].is_booking());
                    assert(s[k as int].stop <= s[i].start);
                } else if i < k - 1 {
                    assert(s[i].stop <= s[k - 1].start);
                }
            }
        }
        None
    }

    /// Taking the event at `i` out, which covers `t`, is what the contract of
    /// removal asks for, and leaves a valid room.
    proof fn lemma_taking_out(&self, t: int, i: int)
        requires
            self.wf(),
            0 <= i < self@.events.len(),
            self@.events[i].covers(t),
        ensures
            covering(self@.events, t) == Some(i),
            ordered(self@.events.remove(i)),
            views(self.events@.remove(i)) == self@.events.remove(i),
            forall|j: int|
                0 <= j < self.events@.remove(i).len() ==> (#[trigger] self.events@.remove(i)[j]).wf(),
    {
        lemma_one_event_covers(self@.events, t, i);
        lemma_remove_keeps_order(self@.events, i);
        assert(views(self.events@.remove(i)) =~= self@.events.remove(i));
    }

    /// The stored events that lie within the window from `start` to `stop`,
    /// in start order: those that start at `start` or later and have ended
    /// by `stop`. The room is left as it is.
    pub fn get_event_range(&self, start: Timestamp, stop: Timestamp) -> (r: Vec<&Event>)
        ensures
            ref_views(r@) == window(self@.events, start@, stop@),
    {
        let mut found: Vec<&Event> = Vec::new();
        let mut i: usize = 0;
        assert(self@.events.take(0) =~= Seq::<EventView>::empty());
        assert(ref_views(found@) =~= Seq::<EventView>::empty());
        proof {
            lemma_window_of_nothing(start@, stop@);
        }
        while i < self.events.len()
            invariant
                i <= self.events@.len(),
                ref_views(found@) == window(self@.events.take(i as int), start@, stop@),
            decreases self.events@.len() - i,
        {
            let event = &self.events[i];
            proof {
                let sofar = self@.events.take(i as int);
                assert(self@.events.take(i + 1) =~= sofar.push(event@));
                sofar.lemma_filter_push(event@, |e: EventView| e.within(start@, stop@));
                assert(ref_views(found@.push(event)) =~= ref_views(found@).push(event@));
            }
            if event.start() >= start && event.stop() <= stop {
                found.push(event);
            }
            i += 1;
        }
        assert(self@.events.take(self.events@.len() as int) =~= self@.events);
        found
    }
}

/// How a request names its room.
#[derive(Debug)]
pub enum RoomKey {
    /// By the identifier, as the request wrote it.
    Id(String),
    /// By the name.
    Name(String),
}

/// The room that a request means: the one of the identifier where the
/// request gives one, else the one of the name where it gives that.
pub fn room_key(room_id: Option<String>, room_name: Option<String>) -> (r: Option<RoomKey>)
    ensures
        r == match (room_id, room_name) {
            (Some(id), _) => Some(RoomKey::Id(id)),
            (None, Some(name)) => Some(RoomKey::Name(name)),
            (None, None) => None,
        },
{
    match room_id {
        Some(id) => Some(RoomKey::Id(id)),
        None => match room_name {
            Some(name) => Some(RoomKey::Name(name)),
            None => None,
        },
    }
}

/// Opens a room of the given name for a user who may create rooms, unless
/// the name is taken.
pub fn create(user: &User, name: String, name_taken: bool) -> (r: Option<Room>)
    ensures
        r is Some <==> user@.is_admin && !name_taken,
        r matches Some(room) ==> {
            &&& room.wf()
            &&& room@.name == name@
            &&& room@.events == Seq::<EventView>::empty()
            &&& room@.layouts == Seq::<Seq<u8>>::empty()
            &&& room@.layout_values == Map::<String, String>::empty()
            &&& room@.owner is None
            &&& room@.description is None
        },
{
    if !user.can_create_rooms() || name_taken {
        return None;
    }
    Some(Room::create(name))
}

/// Whether the user may have the room deleted: those who may change it may.
pub fn delete(user: &User, room: &Room) -> (r: Option<()>)
    ensures
        r is Some <==> user@.may_edit(room@.id),
{
    let id = room.id();
    if !user.can_edit_room(&id) {
        return None;
    }
    Some(())
}

/// The room, for a user who may change it.
pub fn get<'a>(user: &User, room: &'a Room) -> (r: Option<&'a Room>)
    ensures
        r is Some <==> user@.may_edit(room@.id),
        r matches Some(shown) ==> shown == room,
{
    let id = room.id();
    if !user.can_edit_room(&id) {
        return None;
    }
    Some(room)
}

/// What stands in the way of a booking by this user, of these values, in
/// this room: nothing, if the texts name instants, a reservation can be made
/// of the values, the user may change the room, and the room is free between
/// the minutes of start and stop.
pub open spec fn bookable(
    room: RoomView,
    user_id: Seq<u8>,
    may_edit: bool,
    headline: Seq<char>,
    start: Seq<char>,
    stop: Seq<char>,
) -> bool {
    &&& instant_named(start) matches Some(from)
    &&& instant_named(stop) matches Some(to)
    &&& Event::accepts(hex(user_id), headline, from, to)
    &&& may_edit
    &&& free(room.events, minute_start(from), minute_start(to))
}

/// Books the room for the user from `start` to `stop`, two texts in the
/// notation of RFC 3339. The event is made in the name of the user's
/// identifier in hexadecimal. Where something stands in the way the room
/// stays as it is.
pub fn add_event(
    room: &mut Room,
    user: &User,
    headline: String,
    description: Option<String>,
    start: &str,
    stop: &str,
) -> (r: Option<()>)
    requires
        old(room).wf(),
    ensures
        final(room).wf(),
        r is Some <==> bookable(
            old(room)@,
            user@.id,
            user@.may_edit(old(room)@.id),
            headline@,
            start@,
            stop@,
        ),
        r is None ==> final(room)@ == old(room)@,
        r is Some ==> {
            let from = minute_start(instant_named(start@)->0);
            let to = minute_start(instant_named(stop@)->0);
            let place = rank(old(room)@.events, from);
            let booked = final(room)@.events[place];
            &&& final(room)@ == (RoomView {
                events: old(room)@.events.insert(place, booked),
                ..old(room)@
            })
            &&& booked.is_booking()
            &&& booked.booker_id == hex(user@.id)
            &&& booked.headline == headline@
            &&& booked.description == text_view(description)
            &&& booked.start == from
            &&& booked.stop == to
        },
{
    let start = match Timestamp::parse_from_rfc3339(start) {
        Some(start) => start,
        None => return None,
    };
    let stop = match Timestamp::parse_from_rfc3339(stop) {
        Some(stop) => stop,
        None => return None,
    };
    let event = match Event::create(user.id().to_hex(), headline, description, start, stop) {
        Some(event) => event,
        None => return None,
    };
    let id = room.id();
    if !user.can_edit_room(&id) {
        return None;
    }
    proof {
        lemma_rank_bounds(room@.events, event@.start);
    }
    room.add_event(event)
}

/// Takes the event out of the room that starts at the instant that
/// `remove_datetime` names in the notation of RFC 3339, or holds it strictly
/// inside its span. Where the text names no instant or there is no such
/// event the room stays as it is.
pub fn remove_event(room: &mut Room, remove_datetime: &str) -> (r: Option<()>)
    requires
        old(room).wf(),
    ensures
        final(room).wf(),
        match instant_named(remove_datetime@) {
            Some(t) => match covering(old(room)@.events, t) {
                Some(i) => r is Some && final(room)@ == (RoomView {
                    events: old(room)@.events.remove(i),
                    ..old(room)@
                }),
                None => r is None && final(room)@ == old(room)@,
            },
            None => r is None && final(room)@ == old(room)@,
        },
{
    match Timestamp::parse_from_rfc3339(remove_datetime) {
        Some(datetime) => room.remove_event_datetime(datetime),
        None => None,
    }
}

/// The window that a request for events asks for.
#[derive(Debug)]
pub enum RangeRequest {
    /// From `start` to `stop`, as the request wrote them.
    Between { start: String, stop: String },
    /// The day that begins `seconds` seconds after the Unix epoch.
    DayFrom { seconds: i64 },
    /// The day that is `days` days after today, or before it where `later`
    /// is false.
    Today { later: bool, days: u32 },
}

/// The day that a request for the current day means, `offset` days from
/// today.
pub open spec fn today(offset: Option<i32>) -> RangeRequest {
    match offset {
        Some(days) => if days >= 0 {
            RangeRequest::Today { later: true, days: days as u32 }
        } else {
            RangeRequest::Today { later: false, days: (-days) as u32 }
        },
        None => RangeRequest::Today { later: true, days: 0 },
    }
}

/// The window that a request means, by what it holds. A request that gives
/// both a start and a stop means the window between them; else one that
/// gives the seconds of a day means that day; else one that asks for the
/// current day means it, moved by the offset it gives; any other asks for
/// nothing.
pub open spec fn range_asked(
    start: Option<String>,
    stop: Option<String>,
    get_day_from_sec_since_utc: Option<i64>,
    get_current_day: Option<bool>,
    get_current_day_offset_in_days: Option<i32>,
) -> Option<RangeRequest> {
    if start is Some && stop is Some {
        Some(RangeRequest::Between { start: start->0, stop: stop->0 })
    } else if get_day_from_sec_since_utc is Some {
        Some(RangeRequest::DayFrom { seconds: get_day_from_sec_since_utc->0 })
    } else if get_current_day == Some(true) {
        Some(today(get_current_day_offset_in_days))
    } else {
        None
    }
}

/// Reads off a request for events which window it asks for.
pub fn get_event_range(
    start: Option<String>,
    stop: Option<String>,
    get_day_from_sec_since_utc: Option<i64>,
    get_current_day: Option<bool>,
    get_current_day_offset_in_days: Option<i32>,
) -> (r: Option<RangeRequest>)
    ensures
        r == range_asked(
            start,
            stop,
            get_day_from_sec_since_utc,
            get_current_day,
            get_current_day_offset_in_days,
        ),
{
    if start.is_some() && stop.is_some() {
        match (start, stop) {
            (Some(start), Some(stop)) => {
                return Some(RangeRequest::Between { start, stop });
            },
            _ => {
                return None;
            },
        }
    }
    if let Some(seconds) = get_day_from_sec_since_utc {
        return Some(RangeRequest::DayFrom { seconds });
    }
    match get_current_day {
        Some(true) => {},
        _ => {
            return None;
        },
    }
    match get_current_day_offset_in_days {
        Some(days) => {
            if days >= 0 {
                Some(RangeRequest::Today { later: true, days: days as u32 })
            } else {
                let back: i64 = -(days as i64);
                Some(RangeRequest::Today { later: false, days: back as u32 })
            }
        },
        None => Some(RangeRequest::Today { later: true, days: 0 }),
    }
}

/// The routes for rooms: creating, deleting and reading a room, booking and
/// removing an event, and reading the events of a window, all with `POST`.
pub fn routes() -> (r: Vec<Route>)
    ensures
        table(r@) == seq![
            (Method::Post, "/create"@),
            (Method::Post, "/delete"@),
            (Method::Post, "/get?<name>"@),
            (Method::Post, "/add_event"@),
            (Method::Post, "/remove_event"@),
            (Method::Post, "/get_event_range"@),
        ],
{
    let mut r: Vec<Route> = Vec::new();
    r.push(post("/create"));
    r.push(post("/delete"));
    r.push(post("/get?<name>"));
    r.push(post("/add_event"));
    r.push(post("/remove_event"));
    r.push(post("/get_event_range"));
    assert(table(r@) =~= seq![
        (Method::Post, "/create"@),
        (Method::Post, "/delete"@),
        (Method::Post, "/get?<name>"@),
        (Method::Post, "/add_event"@),
        (Method::Post, "/remove_event"@),
        (Method::Post, "/get_event_range"@),
    ]);
    r
}

impl Default for Room {
    /// A nameless room under a fresh identifier, with an empty schedule.
    fn default() -> (r: Room)
        ensures
            r.wf(),
            r@.name == Seq::<char>::empty(),
            r@.events == Seq::<EventView>::empty(),
            r@.layouts == Seq::<Seq<u8>>::empty(),
            r@.layout_values == Map::<String, String>::empty(),
            r@.owner is None,
            r@.description is None,
    {
        Room::create(String::new())
    }
}

/// Whether the events are a schedule in order.
fn in_order(events: &Vec<Event>) -> (r: bool)
    requires
        forall|i: int| 0 <= i < events@.len() ==> (#[trigger] events@[i]).wf(),
    ensures
        r == ordered(views(events@)),
{
    let ghost s = views(events@);
    let mut i: usize = 0;
    while i < events.len()
        invariant
            i <= events@.len(),
            s == views(events@),
            forall|i: int| 0 <= i < events@.len() ==> (#[trigger] events@[i]).wf(),
            ordered(s.take(i as int)),
        decreases events@.len() - i,
    {
        let event = &events[i];
        if event.isdummy() || (i > 0 && events[i - 1].stop() > event.start()) {
            proof {
                if ordered(s) {
                    assert(s[i as int].is_booking());
                    if i > 0 {
                        assert(s[i - 1].stop <= s[i as int].start);
                    }
                }
            }
            return false;
        }
        proof {
            let front = s.take(i as int);
            let next = s.take(i + 1);
            assert forall|j: int| 0 <= j < next.len() implies (#[trigger] next[j]).is_booking() by {
                if j < i {
                    assert(next[j] == front[j]);
                } else {
                    assert(events@[j].wf());
                }
            }
            assert forall|a: int, b: int| 0 <= a < b < next.len() implies (#[trigger] next[a]).stop
                <= (#[trigger] next[b]).start by {
                if b < i {
                    assert(next[a] == front[a] && next[b] == front[b]);
                } else if a < i - 1 {
                    assert(front[a].stop <= front[i - 1].start);
                    assert(front[i - 1].is_booking());
                }
            }
        }
        i += 1;
    }
    assert(s.take(events@.len() as int) =~= s);
    true
}

} // verus!
