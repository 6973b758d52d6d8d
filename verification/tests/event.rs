use chrono::{DateTime, Days, Local, TimeDelta};
use room_reservation::event::Event;
use room_reservation::room::Room;
use room_reservation::time::Timestamp;

fn instant(at: DateTime<Local>) -> Timestamp {
    Timestamp::new(at.timestamp(), at.timestamp_subsec_nanos()).expect("instant out of range")
}

fn defaultevent(start: DateTime<Local>, stop: Option<DateTime<Local>>) -> Event {
    if let Some(stop) = stop {
        Event::create(
            String::from("test_booker_id"),
            String::from("test event"),
            None,
            instant(start),
            instant(stop),
        )
        .expect("event creation with stop time failed")
    } else {
        Event::create(
            String::from("test_booker_id"),
            String::from("test event"),
            None,
            instant(start),
            instant(start + TimeDelta::minutes(1)),
        )
        .expect("event creation failed")
    }
}

/// Just try to add an event to a newly created room.
#[test]
fn test_add_event_on_empty() {
    let mut room = Room::default();
    let event = defaultevent(Local::now(), None);
    (room.add_event(event)).unwrap()
}

#[test]
#[should_panic]
fn test_add_event_overlap() {
    let mut room = Room::default();
    let now = Local::now();
    let event = Event::create(
        String::from("test"),
        String::from("test event"),
        None,
        instant(now),
        instant(now),
    )
    .unwrap();
    println!("first event:{:?}", event);
    room.add_event(event.clone()).unwrap();
    println!("second event:{:?}", event);
    room.add_event(event).unwrap();
}

/// As one event could start at 12 while another stops at 12, meeting at a
/// boundary is allowed.
#[test]
fn test_add_event_partial_overlap() {
    let mut room = Room::default();
    let now = Local::now();
    let event = defaultevent(now.checked_sub_days(Days::new(1)).unwrap(), Some(now));
    println!("first event:{:?}", event);
    room.add_event(event).unwrap();
    let event = defaultevent(
        now,
        Some((now + TimeDelta::minutes(1)).checked_add_days(Days::new(1)).unwrap()),
    );
    println!("second event:{:?}", event);
    room.add_event(event).unwrap();
}

#[test]
#[should_panic]
fn test_remove_event_on_empty() {
    let mut room = Room::default();
    let far: DateTime<Local> = DateTime::<Local>::MAX_UTC.into();
    assert!(room.remove_event_datetime(instant(far)).is_some());
}

#[test]
#[should_panic]
fn test_remove_event_unknown_id() {
    let mut room = Room::default();
    let now = Local::now();
    let event = defaultevent(now, None);
    room.add_event(event.clone()).unwrap();
    let far: DateTime<Local> = DateTime::<Local>::MAX_UTC.into();
    assert!(room.remove_event_datetime(instant(far)).is_some());
}

#[test]
fn test_remove_event_normal() {
    let mut room = Room::default();
    let now = Local::now();
    let event = defaultevent(now, None);
    room.add_event(event.clone()).unwrap();
    assert!(room.remove_event_datetime(event.start()).is_some());
}
