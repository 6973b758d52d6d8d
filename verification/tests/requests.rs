use room_reservation::event::Event;
use room_reservation::oid::ObjectId;
use room_reservation::room::{
    add_event, create, delete, get, get_event_range, remove_event, RangeRequest, Room,
};
use room_reservation::time::Timestamp;
use room_reservation::user::User;
use std::collections::HashMap;

const ROOM: [u8; 12] = [8; 12];

fn account(is_admin: bool, editable_rooms: Vec<ObjectId>) -> User {
    User::restore(
        ObjectId::from_bytes([0xab, 0xcd, 0xef, 0x01, 0x23, 0x45, 0x67, 0x89, 0x00, 0x10, 0xff, 0x0a]),
        String::from("Lee.Thomas"),
        String::from("no hash"),
        true,
        is_admin,
        false,
        editable_rooms,
        String::from("Thomas"),
        String::from("Lee"),
        None,
        None,
    )
}

fn room() -> Room {
    Room::restore(
        ObjectId::from_bytes(ROOM),
        String::from("blue"),
        Vec::new(),
        Vec::new(),
        HashMap::new(),
        None,
        None,
    )
    .unwrap()
}

fn at(text: &str) -> Timestamp {
    Timestamp::parse_from_rfc3339(text).expect("not an instant")
}

#[test]
fn rooms_are_created_by_administrators_under_free_names() {
    let admin = account(true, Vec::new());
    let made = create(&admin, String::from("green"), false).unwrap();
    assert_eq!(made.name(), "green");
    assert!(made.events().is_empty());
    assert!(create(&admin, String::from("green"), true).is_none());
    let user = account(false, vec![ObjectId::from_bytes(ROOM)]);
    assert!(create(&user, String::from("green"), false).is_none());
}

#[test]
fn rooms_are_shown_and_deleted_for_those_who_may_change_them() {
    let room = room();
    let owner = account(false, vec![ObjectId::from_bytes(ROOM)]);
    let stranger = account(false, vec![ObjectId::from_bytes([9; 12])]);
    let admin = account(true, Vec::new());
    assert_eq!(delete(&owner, &room), Some(()));
    assert_eq!(delete(&admin, &room), Some(()));
    assert_eq!(delete(&stranger, &room), None);
    assert_eq!(get(&owner, &room).map(|shown| shown.id()), Some(room.id()));
    assert!(get(&stranger, &room).is_none());
}

#[test]
fn a_request_books_in_the_name_of_the_user() {
    let mut room = room();
    let user = account(false, vec![ObjectId::from_bytes(ROOM)]);
    let booked = add_event(
        &mut room,
        &user,
        String::from("headline"),
        Some(String::from("more")),
        "2024-05-01T12:00:20+02:00",
        "2024-05-01T13:00:00+02:00",
    );
    assert_eq!(booked, Some(()));
    assert_eq!(room.events().len(), 1);
    let event: &Event = &room.events()[0];
    assert_eq!(event.booker_id(), "abcdef01234567890010ff0a");
    assert_eq!(event.booker_id(), user.id().to_hex());
    assert_eq!(event.headline(), "headline");
    assert_eq!(event.description(), Some(&String::from("more")));
    assert_eq!(event.start(), at("2024-05-01T10:00:00Z"));
    assert_eq!(event.stop(), at("2024-05-01T11:00:00Z"));
}

#[test]
fn a_request_that_cannot_be_met_changes_nothing() {
    let mut room = room();
    let user = account(false, vec![ObjectId::from_bytes(ROOM)]);
    let stranger = account(false, Vec::new());
    let start = "2024-05-01T10:00:00Z";
    let stop = "2024-05-01T11:00:00Z";
    assert_eq!(add_event(&mut room, &stranger, String::from("headline"), None, start, stop), None);
    assert_eq!(add_event(&mut room, &user, String::new(), None, start, stop), None);
    assert_eq!(add_event(&mut room, &user, String::from("headline"), None, stop, start), None);
    assert_eq!(add_event(&mut room, &user, String::from("headline"), None, "now", stop), None);
    assert_eq!(add_event(&mut room, &user, String::from("headline"), None, start, "later"), None);
    assert!(room.events().is_empty());
    assert_eq!(add_event(&mut room, &user, String::from("headline"), None, start, stop), Some(()));
    assert_eq!(
        add_event(&mut room, &user, String::from("other"), None, "2024-05-01T10:30:00Z", stop),
        None
    );
    assert_eq!(room.events().len(), 1);
}

#[test]
fn a_request_removes_by_an_instant() {
    let mut room = room();
    let user = account(true, Vec::new());
    add_event(
        &mut room,
        &user,
        String::from("headline"),
        None,
        "2024-05-01T10:00:00Z",
        "2024-05-01T10:01:00Z",
    )
    .unwrap();
    assert_eq!(remove_event(&mut room, "yesterday"), None);
    assert_eq!(remove_event(&mut room, "2024-05-01T10:01:00Z"), None);
    assert_eq!(room.events().len(), 1);
    assert_eq!(remove_event(&mut room, "2024-05-01T10:00:30Z"), Some(()));
    assert!(room.events().is_empty());
    assert_eq!(remove_event(&mut room, "2024-05-01T10:00:30Z"), None);
}

#[test]
fn a_request_for_events_names_its_window() {
    let between = get_event_range(
        Some(String::from("a")),
        Some(String::from("b")),
        Some(5),
        Some(true),
        Some(1),
    );
    assert!(matches!(
        between,
        Some(RangeRequest::Between { start, stop }) if start == "a" && stop == "b"
    ));
    let day = get_event_range(Some(String::from("a")), None, Some(86_400), Some(true), Some(1));
    assert!(matches!(day, Some(RangeRequest::DayFrom { seconds: 86_400 })));
    let today = get_event_range(None, Some(String::from("b")), None, Some(true), None);
    assert!(matches!(today, Some(RangeRequest::Today { later: true, days: 0 })));
    let tomorrow = get_event_range(None, None, None, Some(true), Some(1));
    assert!(matches!(tomorrow, Some(RangeRequest::Today { later: true, days: 1 })));
    let last_week = get_event_range(None, None, None, Some(true), Some(-7));
    assert!(matches!(last_week, Some(RangeRequest::Today { later: false, days: 7 })));
    let long_ago = get_event_range(None, None, None, Some(true), Some(i32::MIN));
    assert!(matches!(long_ago, Some(RangeRequest::Today { later: false, days: 2_147_483_648 })));
}

#[test]
fn a_request_for_nothing_names_no_window() {
    assert!(get_event_range(None, None, None, None, None).is_none());
    assert!(get_event_range(None, None, None, Some(false), Some(3)).is_none());
    assert!(get_event_range(Some(String::from("a")), None, None, None, Some(3)).is_none());
}
