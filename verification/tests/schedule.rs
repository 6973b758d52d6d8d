use room_reservation::event::Event;
use room_reservation::oid::ObjectId;
use room_reservation::room::Room;
use room_reservation::time::Timestamp;
use std::collections::HashMap;

fn at(text: &str) -> Timestamp {
    Timestamp::parse_from_rfc3339(text).expect("not an instant")
}

fn booking(start: &str, stop: &str) -> Event {
    Event::create(String::from("booker"), String::from("meeting"), None, at(start), at(stop))
        .expect("no event")
}

fn starts(room: &Room) -> Vec<Timestamp> {
    room.events().iter().map(|event| event.start()).collect()
}

#[test]
fn touching_events_are_both_booked() {
    let mut room = Room::create(String::from("blue"));
    let a = booking("2024-05-01T10:00:00Z", "2024-05-01T11:00:00Z");
    let b = booking("2024-05-01T11:00:00Z", "2024-05-01T12:00:00Z");
    assert!(a.partial_overlaps_with(&b));
    assert!(!a.overlaps_with(&b));
    assert!(!b.overlaps_with(&a));
    assert_eq!(room.add_event(a), Some(()));
    assert!(room.could_accomodate(&b));
    assert_eq!(room.add_event(b), Some(()));
    assert_eq!(room.events().len(), 2);
}

#[test]
fn touching_events_are_booked_in_either_order() {
    let mut room = Room::create(String::from("blue"));
    assert_eq!(room.add_event(booking("2024-05-01T11:00:00Z", "2024-05-01T12:00:00Z")), Some(()));
    assert_eq!(room.add_event(booking("2024-05-01T10:00:00Z", "2024-05-01T11:00:00Z")), Some(()));
    assert_eq!(
        starts(&room),
        vec![at("2024-05-01T10:00:00Z"), at("2024-05-01T11:00:00Z")]
    );
}

#[test]
fn overlapping_event_is_a_conflict() {
    let mut room = Room::create(String::from("blue"));
    let a = booking("2024-05-01T10:00:00Z", "2024-05-01T12:00:00Z");
    let b = booking("2024-05-01T11:00:00Z", "2024-05-01T13:00:00Z");
    assert!(a.overlaps_with(&b));
    assert_eq!(room.add_event(a), Some(()));
    assert!(!room.could_accomodate(&b));
    assert_eq!(room.add_event(b), None);
    assert_eq!(starts(&room), vec![at("2024-05-01T10:00:00Z")]);
}

#[test]
fn conflict_with_a_later_event_is_found_behind_an_earlier_one() {
    let mut room = Room::create(String::from("blue"));
    room.add_event(booking("2024-05-01T08:00:00Z", "2024-05-01T09:00:00Z")).unwrap();
    room.add_event(booking("2024-05-01T12:00:00Z", "2024-05-01T13:00:00Z")).unwrap();
    let late = booking("2024-05-01T11:30:00Z", "2024-05-01T12:30:00Z");
    assert!(!room.could_accomodate(&late));
    assert_eq!(room.add_event(late), None);
    assert_eq!(room.events().len(), 2);
}

#[test]
fn event_around_another_is_a_conflict() {
    let mut room = Room::create(String::from("blue"));
    room.add_event(booking("2024-05-01T10:00:00Z", "2024-05-01T11:00:00Z")).unwrap();
    let around = booking("2024-05-01T09:00:00Z", "2024-05-01T12:00:00Z");
    let inside = booking("2024-05-01T10:15:00Z", "2024-05-01T10:45:00Z");
    let same = booking("2024-05-01T10:00:00Z", "2024-05-01T11:00:00Z");
    assert_eq!(room.add_event(around), None);
    assert_eq!(room.add_event(inside), None);
    assert_eq!(room.add_event(same), None);
    assert_eq!(room.events().len(), 1);
}

#[test]
fn same_start_is_a_conflict() {
    let mut room = Room::create(String::from("blue"));
    room.add_event(booking("2024-05-01T10:00:00Z", "2024-05-01T11:00:00Z")).unwrap();
    assert_eq!(room.add_event(booking("2024-05-01T10:00:00Z", "2024-05-01T10:30:00Z")), None);
}

#[test]
fn a_probe_is_never_accommodated() {
    let room = Room::create(String::from("blue"));
    let probe = Event::create_dummy(at("2024-05-01T10:00:00Z"));
    assert!(!room.could_accomodate(&probe));
}

#[test]
fn events_are_kept_in_start_order() {
    let mut room = Room::create(String::from("blue"));
    room.add_event(booking("2024-05-01T12:00:00Z", "2024-05-01T13:00:00Z")).unwrap();
    room.add_event(booking("2024-05-01T08:00:00Z", "2024-05-01T09:00:00Z")).unwrap();
    room.add_event(booking("2024-05-01T10:00:00Z", "2024-05-01T11:00:00Z")).unwrap();
    room.add_event(booking("2024-05-01T09:00:00Z", "2024-05-01T10:00:00Z")).unwrap();
    assert_eq!(
        starts(&room),
        vec![
            at("2024-05-01T08:00:00Z"),
            at("2024-05-01T09:00:00Z"),
            at("2024-05-01T10:00:00Z"),
            at("2024-05-01T12:00:00Z"),
        ]
    );
}

#[test]
fn removal_by_an_instant_inside_the_span() {
    let mut room = Room::create(String::from("blue"));
    room.add_event(booking("2024-05-01T10:00:00Z", "2024-05-01T10:01:00Z")).unwrap();
    assert_eq!(room.remove_event_datetime(at("2024-05-01T10:00:30Z")), Some(()));
    assert!(room.events().is_empty());
    assert_eq!(room.remove_event_datetime(at("2024-05-01T10:00:30Z")), None);
}

#[test]
fn removal_by_the_start() {
    let mut room = Room::create(String::from("blue"));
    room.add_event(booking("2024-05-01T10:00:00Z", "2024-05-01T11:00:00Z")).unwrap();
    room.add_event(booking("2024-05-01T11:00:00Z", "2024-05-01T12:00:00Z")).unwrap();
    assert_eq!(room.remove_event_datetime(at("2024-05-01T11:00:00Z")), Some(()));
    assert_eq!(starts(&room), vec![at("2024-05-01T10:00:00Z")]);
}

#[test]
fn removal_by_the_stop_finds_nothing() {
    let mut room = Room::create(String::from("blue"));
    room.add_event(booking("2024-05-01T10:00:00Z", "2024-05-01T11:00:00Z")).unwrap();
    assert_eq!(room.remove_event_datetime(at("2024-05-01T11:00:00Z")), None);
    assert_eq!(room.remove_event_datetime(at("2024-05-01T09:59:59.999999999Z")), None);
    assert_eq!(room.events().len(), 1);
    assert_eq!(room.remove_event_datetime(at("2024-05-01T10:59:59.999999999Z")), Some(()));
    assert!(room.events().is_empty());
}

#[test]
fn removal_takes_the_event_that_holds_the_instant() {
    let mut room = Room::create(String::from("blue"));
    room.add_event(booking("2024-05-01T08:00:00Z", "2024-05-01T09:00:00Z")).unwrap();
    room.add_event(booking("2024-05-01T10:00:00Z", "2024-05-01T11:00:00Z")).unwrap();
    room.add_event(booking("2024-05-01T12:00:00Z", "2024-05-01T13:00:00Z")).unwrap();
    assert_eq!(room.remove_event_datetime(at("2024-05-01T09:30:00Z")), None);
    assert_eq!(room.remove_event_datetime(at("2024-05-01T10:30:00Z")), Some(()));
    assert_eq!(
        starts(&room),
        vec![at("2024-05-01T08:00:00Z"), at("2024-05-01T12:00:00Z")]
    );
}

#[test]
fn booking_and_removing_gives_the_room_back() {
    let mut room = Room::create(String::from("blue"));
    room.add_event(booking("2024-05-01T08:00:00Z", "2024-05-01T09:00:00Z")).unwrap();
    room.add_event(booking("2024-05-01T12:00:00Z", "2024-05-01T13:00:00Z")).unwrap();
    let before: Vec<ObjectId> = room.events().iter().map(|event| event.id()).collect();
    room.add_event(booking("2024-05-01T10:00:00Z", "2024-05-01T11:00:00Z")).unwrap();
    assert_eq!(room.events().len(), 3);
    assert_eq!(room.remove_event_datetime(at("2024-05-01T10:20:00Z")), Some(()));
    let after: Vec<ObjectId> = room.events().iter().map(|event| event.id()).collect();
    assert_eq!(before, after);
}

#[test]
fn range_holds_only_what_lies_within() {
    let mut room = Room::create(String::from("blue"));
    room.add_event(booking("2024-05-01T09:00:00Z", "2024-05-01T10:00:00Z")).unwrap();
    room.add_event(booking("2024-05-01T10:00:00Z", "2024-05-01T11:00:00Z")).unwrap();
    let found = room.get_event_range(at("2024-05-01T09:00:00Z"), at("2024-05-01T10:30:00Z"));
    assert_eq!(found.len(), 1);
    assert_eq!(found[0].start(), at("2024-05-01T09:00:00Z"));
    assert_eq!(found[0].stop(), at("2024-05-01T10:00:00Z"));
}

#[test]
fn range_is_the_same_when_asked_again() {
    let mut room = Room::create(String::from("blue"));
    room.add_event(booking("2024-05-01T09:00:00Z", "2024-05-01T10:00:00Z")).unwrap();
    room.add_event(booking("2024-05-01T10:00:00Z", "2024-05-01T11:00:00Z")).unwrap();
    room.add_event(booking("2024-05-01T13:00:00Z", "2024-05-01T14:00:00Z")).unwrap();
    let from = at("2024-05-01T09:00:00Z");
    let to = at("2024-05-01T11:00:00Z");
    let first: Vec<ObjectId> = room.get_event_range(from, to).iter().map(|e| e.id()).collect();
    let second: Vec<ObjectId> = room.get_event_range(from, to).iter().map(|e| e.id()).collect();
    assert_eq!(first.len(), 2);
    assert_eq!(first, second);
    assert_eq!(room.events().len(), 3);
}

#[test]
fn range_leaves_out_what_starts_before_or_ends_after() {
    let mut room = Room::create(String::from("blue"));
    room.add_event(booking("2024-05-01T09:00:00Z", "2024-05-01T10:00:00Z")).unwrap();
    room.add_event(booking("2024-05-01T10:00:00Z", "2024-05-01T11:00:00Z")).unwrap();
    room.add_event(booking("2024-05-01T11:00:00Z", "2024-05-01T12:00:00Z")).unwrap();
    let found = room.get_event_range(at("2024-05-01T09:00:00.5Z"), at("2024-05-01T11:59:59Z"));
    assert_eq!(found.len(), 1);
    assert_eq!(found[0].start(), at("2024-05-01T10:00:00Z"));
    let all = room.get_event_range(at("2024-05-01T09:00:00Z"), at("2024-05-01T12:00:00Z"));
    assert_eq!(all.len(), 3);
    assert!(all[0].start() < all[1].start() && all[1].start() < all[2].start());
    let none = room.get_event_range(at("2024-05-01T12:00:00Z"), at("2024-05-01T09:00:00Z"));
    assert!(none.is_empty());
}

#[test]
fn a_new_room_is_empty() {
    let room = Room::create(String::from("blue"));
    assert_eq!(room.name(), "blue");
    assert!(room.events().is_empty());
    assert!(room.layouts().is_empty());
    assert!(room.layout_values().is_empty());
    assert_eq!(room.owner(), None);
    assert_eq!(room.description(), None);
    let other = Room::create(String::from("blue"));
    assert_ne!(room.id(), other.id());
    let nameless = Room::default();
    assert_eq!(nameless.name(), "");
    assert!(nameless.events().is_empty());
}

#[test]
fn a_stored_room_comes_back_as_it_was() {
    let id = ObjectId::from_bytes([7; 12]);
    let owner = ObjectId::from_bytes([9; 12]);
    let events = vec![
        booking("2024-05-01T09:00:00Z", "2024-05-01T10:00:00Z"),
        booking("2024-05-01T10:00:00Z", "2024-05-01T11:00:00Z"),
    ];
    let mut values = HashMap::new();
    values.insert(String::from("title"), String::from("Blue room"));
    let room = Room::restore(
        id,
        String::from("blue"),
        events,
        vec![ObjectId::from_bytes([1; 12])],
        values,
        Some(owner),
        Some(String::from("first floor")),
    )
    .expect("a schedule in order");
    assert_eq!(room.id(), id);
    assert_eq!(room.name(), "blue");
    assert_eq!(room.events().len(), 2);
    assert_eq!(room.layouts(), &vec![ObjectId::from_bytes([1; 12])]);
    assert_eq!(room.layout_values().get("title"), Some(&String::from("Blue room")));
    assert_eq!(room.owner(), Some(owner));
    assert_eq!(room.description(), Some(&String::from("first floor")));
}

#[test]
fn a_stored_room_out_of_order_is_refused() {
    let id = ObjectId::from_bytes([7; 12]);
    let backwards = vec![
        booking("2024-05-01T10:00:00Z", "2024-05-01T11:00:00Z"),
        booking("2024-05-01T09:00:00Z", "2024-05-01T10:00:00Z"),
    ];
    assert!(Room::restore(
        id,
        String::from("blue"),
        backwards,
        Vec::new(),
        HashMap::new(),
        None,
        None
    )
    .is_none());
    let overlapping = vec![
        booking("2024-05-01T09:00:00Z", "2024-05-01T10:30:00Z"),
        booking("2024-05-01T10:00:00Z", "2024-05-01T11:00:00Z"),
    ];
    assert!(Room::restore(
        id,
        String::from("blue"),
        overlapping,
        Vec::new(),
        HashMap::new(),
        None,
        None
    )
    .is_none());
    let with_probe = vec![Event::create_dummy(at("2024-05-01T09:00:00Z"))];
    assert!(Room::restore(
        id,
        String::from("blue"),
        with_probe,
        Vec::new(),
        HashMap::new(),
        None,
        None
    )
    .is_none());
}
