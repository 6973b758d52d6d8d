use room_reservation::database::{
    fetched, insertable, isindb, unique_indices, updated, DatabaseError, DATABASE,
};
use room_reservation::layout::Layout;
use room_reservation::oid::ObjectId;
use room_reservation::route::{get, not_found, post, Method, Route};

fn paths(routes: Vec<Route>) -> Vec<(Method, &'static str)> {
    routes.iter().map(|route| (route.method, route.path)).collect()
}

#[test]
fn identifiers_are_told_apart_by_their_bytes() {
    let a = ObjectId::from_bytes([1, 2, 3, 4, 5, 6, 7, 8, 9, 10, 11, 12]);
    let b = ObjectId::from_bytes([1, 2, 3, 4, 5, 6, 7, 8, 9, 10, 11, 13]);
    assert!(a.same(&a));
    assert!(!a.same(&b));
    assert!(a == a && a != b);
    assert_eq!(a.bytes(), [1, 2, 3, 4, 5, 6, 7, 8, 9, 10, 11, 12]);
    assert!(!ObjectId::new().same(&ObjectId::new()));
}

#[test]
fn identifiers_are_written_in_hexadecimal() {
    let id = ObjectId::from_bytes([0x00, 0x01, 0x0f, 0x10, 0x7f, 0x80, 0x9a, 0xbc, 0xde, 0xf0, 0xff, 0x2b]);
    assert_eq!(id.to_hex(), "00010f107f809abcdef0ff2b");
    assert_eq!(ObjectId::from_bytes([0; 12]).to_hex(), "000000000000000000000000");
    assert_eq!(ObjectId::new().to_hex().len(), 24);
}

#[test]
fn an_update_that_changed_nothing_is_an_error() {
    assert!(matches!(updated(0), Err(DatabaseError::NoUpdate)));
    assert!(matches!(updated(1), Ok(())));
    assert!(matches!(updated(u64::MAX), Ok(())));
}

#[test]
fn a_lookup_that_found_nothing_is_an_error() {
    assert!(matches!(fetched(Some(5)), Ok(5)));
    assert!(matches!(fetched::<u8>(None), Err(DatabaseError::NotFound)));
}

#[test]
fn what_is_stored_is_not_inserted_again() {
    assert!(isindb(true, false));
    assert!(isindb(false, true));
    assert!(isindb(true, true));
    assert!(!isindb(false, false));
    assert!(matches!(insertable(true), Err(DatabaseError::AlreadyInDB)));
    assert!(matches!(insertable(false), Ok(())));
}

#[test]
fn names_are_unique_in_every_collection() {
    assert_eq!(DATABASE, "helper:Paper");
    assert_eq!(
        unique_indices(),
        vec![("users", "username"), ("rooms", "name"), ("layouts", "name"), ("epapers", "name")]
    );
}

#[test]
fn errors_of_the_store_are_taken_over() {
    let encoding = bson::to_document(&5).expect_err("a number is no document");
    assert!(matches!(DatabaseError::from(encoding), DatabaseError::Bson(_)));
    let store = mongodb::error::Error::custom(String::from("down"));
    assert!(matches!(DatabaseError::from(store), DatabaseError::MongoDB(_)));
}

#[test]
fn a_layout_needs_a_name_and_a_text() {
    let made = Layout::create(String::from("door"), String::from("[title]"), vec![String::from("title")])
        .unwrap();
    assert_eq!(made.name(), "door");
    assert_eq!(made.layout(), "[title]");
    assert_eq!(made.variables(), &vec![String::from("title")]);
    assert!(Layout::create(String::new(), String::from("[title]"), Vec::new()).is_none());
    assert!(Layout::create(String::from("door"), String::new(), Vec::new()).is_none());
}

#[test]
fn a_layout_shows_the_value_of_its_last_variable() {
    let layout = Layout::restore(
        ObjectId::from_bytes([2; 12]),
        String::from("door"),
        String::from("[title]: [title] until [stop]"),
        vec![String::from("stop"), String::from("title")],
    );
    let values = vec![
        (String::from("title"), String::from("Blue room")),
        (String::from("stop"), String::from("12:00")),
        (String::from("title"), String::from("Red room")),
    ];
    assert_eq!(
        layout.resolve_variables(&values),
        Some(String::from("Blue room: Blue room until [stop]"))
    );
    let single = Layout::restore(
        ObjectId::from_bytes([2; 12]),
        String::from("door"),
        String::from("until [stop]."),
        vec![String::from("stop")],
    );
    assert_eq!(single.resolve_variables(&values), Some(String::from("until 12:00.")));
}

#[test]
fn a_layout_without_variables_or_values_resolves_to_little() {
    let plain = Layout::restore(
        ObjectId::from_bytes([2; 12]),
        String::from("door"),
        String::from("no variables"),
        Vec::new(),
    );
    assert_eq!(plain.resolve_variables(&Vec::new()), Some(String::new()));
    let layout = Layout::restore(
        ObjectId::from_bytes([2; 12]),
        String::from("door"),
        String::from("[title] until [stop]"),
        vec![String::from("stop"), String::from("title")],
    );
    let only_title = vec![(String::from("title"), String::from("Blue room"))];
    assert_eq!(layout.resolve_variables(&only_title), None);
    let only_stop = vec![(String::from("stop"), String::from("12:00"))];
    assert_eq!(layout.resolve_variables(&only_stop), None);
}

#[test]
fn routes_are_made_of_method_and_path() {
    let a = post("/create");
    assert_eq!(a.method, Method::Post);
    assert_eq!(a.path, "/create");
    let b = get("/status");
    assert_eq!(b.method, Method::Get);
    assert_eq!(b.path, "/status");
    assert_eq!(not_found(), "");
}

#[test]
fn the_tables_of_routes() {
    assert_eq!(paths(room_reservation::epaper::routes()), vec![(Method::Post, "/get")]);
    assert_eq!(
        paths(room_reservation::image::routes()),
        vec![
            (Method::Post, "/upload"),
            (Method::Post, "/list"),
            (Method::Post, "/get/<image>"),
            (Method::Post, "/preview/<image>"),
        ]
    );
    assert_eq!(
        paths(room_reservation::room::routes()),
        vec![
            (Method::Post, "/create"),
            (Method::Post, "/delete"),
            (Method::Post, "/get?<name>"),
            (Method::Post, "/add_event"),
            (Method::Post, "/remove_event"),
            (Method::Post, "/get_event_range"),
        ]
    );
    assert_eq!(
        paths(room_reservation::user::routes()),
        vec![
            (Method::Post, "/create"),
            (Method::Post, "/delete"),
            (Method::Post, "/get"),
            (Method::Post, "/get_rooms"),
            (Method::Post, "/isvalid"),
            (Method::Post, "/update_password"),
            (Method::Post, "/change"),
        ]
    );
}

#[test]
fn images_are_listed_with_line_feeds_between() {
    assert_eq!(room_reservation::image::list(&Vec::new()), "");
    assert_eq!(room_reservation::image::list(&vec![String::from("a.png")]), "a.png");
    assert_eq!(
        room_reservation::image::list(&vec![
            String::from("a.png"),
            String::from("b.jpg"),
            String::from("c.gif")
        ]),
        "a.png\nb.jpg\nc.gif"
    );
}

#[test]
fn images_and_previews_have_their_places() {
    assert_eq!(room_reservation::image::image_path("a.png"), "./images/a.png");
    assert_eq!(room_reservation::image::preview_path("a.png"), "./previews/a.png");
    assert_eq!(room_reservation::image::MAX_UPLOAD_BYTES, 1024 * 200 * 1024);
    assert_eq!(room_reservation::image::PREVIEW_EDGE, 300);
    assert_eq!(room_reservation::image::PREVIEW_QUALITY, 40);
}

#[test]
fn the_known_displays() {
    let known = room_reservation::epaper::get();
    assert_eq!(known, vec![("neues Epaper", "1.2.3.4"), ("altes Epaper", "2.3.4.5")]);
    let display = room_reservation::epaper::Epaper::restore(
        ObjectId::from_bytes([3; 12]),
        String::from("door"),
        String::from("10.0.0.7"),
    );
    assert_eq!(display.id(), ObjectId::from_bytes([3; 12]));
    assert_eq!(display.name(), "door");
    assert_eq!(display.ip(), "10.0.0.7");
    let blank = room_reservation::epaper::Epaper::default();
    assert_eq!(blank.name(), "");
    assert_eq!(blank.ip(), "");
}
