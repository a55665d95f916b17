use client_records::commands::{
    add_client, add_session, get_client_sessions, get_clients, get_next_session_number,
    get_session, update_client, update_session, update_session_crop,
};
use client_records::errors::{RecordError, StorageFault};
use client_records::models::{
    Client, CreateClientDto, CreateSessionDto, Measurement, Session, UpdateClientDto,
    UpdateSessionDto,
};
use client_records::store::RecordStore;

fn person(firstname: &str) -> CreateClientDto {
    CreateClientDto {
        firstname: firstname.to_string(),
        lastname: "Doe".to_string(),
        dob: "1990-04-12".to_string(),
        sex: "F".to_string(),
    }
}

fn bare_session(client_id: i32) -> CreateSessionDto {
    CreateSessionDto {
        client_id,
        height: None,
        weight: None,
        anterior: None,
        posterior: None,
        right_lateral: None,
        left_lateral: None,
        notes: None,
        anterior_crop: None,
        posterior_crop: None,
        right_lateral_crop: None,
        left_lateral_crop: None,
    }
}

fn full_session(client_id: i32) -> CreateSessionDto {
    CreateSessionDto {
        client_id,
        height: Some(Measurement { bits: 172.5f64.to_bits() }),
        weight: Some(Measurement { bits: 68.25f64.to_bits() }),
        anterior: Some("/photos/a.jpg".to_string()),
        posterior: Some("/photos/p.jpg".to_string()),
        right_lateral: Some("/photos/r.jpg".to_string()),
        left_lateral: Some("/photos/l.jpg".to_string()),
        notes: Some("first visit".to_string()),
        anterior_crop: Some("{\"x\":1}".to_string()),
        posterior_crop: Some("{\"x\":2}".to_string()),
        right_lateral_crop: Some("{\"x\":3}".to_string()),
        left_lateral_crop: Some("{\"x\":4}".to_string()),
    }
}

fn blank_update(id: i32) -> UpdateSessionDto {
    UpdateSessionDto {
        id,
        height: None,
        weight: None,
        anterior: None,
        posterior: None,
        right_lateral: None,
        left_lateral: None,
        notes: None,
        anterior_crop: None,
        posterior_crop: None,
        right_lateral_crop: None,
        left_lateral_crop: None,
    }
}

#[test]
fn new_store_is_empty() {
    let store = RecordStore::new();
    assert_eq!(Client::find_all(&store), Ok(vec![]));
    assert_eq!(Session::find_by_client_id(&store, 1), Ok(vec![]));
    assert_eq!(Session::find_by_id(&store, 1), Ok(None));
    assert_eq!(Session::get_next_session_number(&store, 1), Ok(1));
}

#[test]
fn clients_get_identities_in_order_of_creation() {
    let mut store = RecordStore::new();
    assert_eq!(Client::create_at(&mut store, person("Ann"), "2024-01-01T10:00:00+00:00".to_string()), Ok(1));
    assert_eq!(Client::create_at(&mut store, person("Bob"), "2024-01-02T10:00:00+00:00".to_string()), Ok(2));
    assert_eq!(Client::create_at(&mut store, person("Cid"), "2024-01-03T10:00:00+00:00".to_string()), Ok(3));
}

#[test]
fn created_client_keeps_the_submitted_fields() {
    let mut store = RecordStore::new();
    let id = Client::create_at(&mut store, person("Ann"), "2024-01-01T10:00:00+00:00".to_string()).unwrap();
    let listing = Client::find_all(&store).unwrap();
    assert_eq!(
        listing,
        vec![Client {
            id,
            firstname: "Ann".to_string(),
            lastname: "Doe".to_string(),
            dob: "1990-04-12".to_string(),
            sex: "F".to_string(),
            registration_date: "2024-01-01T10:00:00+00:00".to_string(),
        }]
    );
}

#[test]
fn clients_are_listed_newest_registration_first() {
    let mut store = RecordStore::new();
    Client::create_at(&mut store, person("Ann"), "2024-01-01T10:00:00+00:00".to_string()).unwrap();
    Client::create_at(&mut store, person("Bob"), "2024-01-02T10:00:00+00:00".to_string()).unwrap();
    Client::create_at(&mut store, person("Cid"), "2024-01-03T10:00:00+00:00".to_string()).unwrap();
    let names: Vec<String> =
        Client::find_all(&store).unwrap().into_iter().map(|client| client.firstname).collect();
    assert_eq!(names, vec!["Cid", "Bob", "Ann"]);
}

#[test]
fn listing_orders_by_date_not_by_creation() {
    let mut store = RecordStore::new();
    Client::create_at(&mut store, person("Mid"), "2024-06-01T00:00:00+00:00".to_string()).unwrap();
    Client::create_at(&mut store, person("Old"), "2023-01-01T00:00:00+00:00".to_string()).unwrap();
    Client::create_at(&mut store, person("New"), "2025-03-09T00:00:00+00:00".to_string()).unwrap();
    Client::create_at(&mut store, person("Mid2"), "2024-06-01T00:00:00+00:00".to_string()).unwrap();
    let ids: Vec<i32> = Client::find_all(&store).unwrap().into_iter().map(|client| client.id).collect();
    assert_eq!(ids, vec![3, 1, 4, 2]);
}

#[test]
fn listing_compares_dates_byte_by_byte() {
    let mut store = RecordStore::new();
    Client::create_at(&mut store, person("Short"), "2024".to_string()).unwrap();
    Client::create_at(&mut store, person("Long"), "2024-01".to_string()).unwrap();
    Client::create_at(&mut store, person("Accent"), "é".to_string()).unwrap();
    Client::create_at(&mut store, person("Empty"), "".to_string()).unwrap();
    let names: Vec<String> =
        Client::find_all(&store).unwrap().into_iter().map(|client| client.firstname).collect();
    assert_eq!(names, vec!["Accent", "Long", "Short", "Empty"]);
}

#[test]
fn clock_dated_clients_are_listed_newest_first() {
    let mut store = RecordStore::new();
    for name in ["Ann", "Bob", "Cid", "Dee"] {
        Client::create(&mut store, person(name)).unwrap();
    }
    let listing = get_clients(&store).unwrap();
    assert_eq!(listing.len(), 4);
    for pair in listing.windows(2) {
        assert!(pair[0].registration_date >= pair[1].registration_date);
    }
}

#[test]
fn clock_gives_an_rfc3339_date_in_utc() {
    let mut store = RecordStore::new();
    Client::create(&mut store, person("Ann")).unwrap();
    let date = Client::find_all(&store).unwrap().remove(0).registration_date;
    let parsed = chrono::DateTime::parse_from_rfc3339(&date).unwrap();
    assert_eq!(parsed.offset().local_minus_utc(), 0);
    assert!(date.ends_with("+00:00"));
    assert!(parsed.timestamp() > 1_600_000_000);
}

#[test]
fn update_client_replaces_the_mutable_fields_only() {
    let mut store = RecordStore::new();
    Client::create_at(&mut store, person("Ann"), "2024-01-01T10:00:00+00:00".to_string()).unwrap();
    Client::create_at(&mut store, person("Bob"), "2024-01-02T10:00:00+00:00".to_string()).unwrap();
    let change = UpdateClientDto {
        id: 1,
        firstname: "Anna".to_string(),
        lastname: "Roe".to_string(),
        dob: "1991-05-13".to_string(),
        sex: "X".to_string(),
    };
    assert_eq!(Client::update(&mut store, change), Ok(()));
    let listing = Client::find_all(&store).unwrap();
    assert_eq!(
        listing[1],
        Client {
            id: 1,
            firstname: "Anna".to_string(),
            lastname: "Roe".to_string(),
            dob: "1991-05-13".to_string(),
            sex: "X".to_string(),
            registration_date: "2024-01-01T10:00:00+00:00".to_string(),
        }
    );
    assert_eq!(listing[0].firstname, "Bob");
}

#[test]
fn update_of_a_missing_client_succeeds_and_changes_nothing() {
    let mut store = RecordStore::new();
    Client::create_at(&mut store, person("Ann"), "2024-01-01T10:00:00+00:00".to_string()).unwrap();
    let before = Client::find_all(&store).unwrap();
    for id in [0, 2, -1, i32::MAX, i32::MIN] {
        let change = UpdateClientDto {
            id,
            firstname: "Zed".to_string(),
            lastname: "Zed".to_string(),
            dob: "2000-01-01".to_string(),
            sex: "M".to_string(),
        };
        assert_eq!(update_client(&mut store, change), Ok(()));
    }
    assert_eq!(Client::find_all(&store).unwrap(), before);
}

#[test]
fn session_numbers_run_from_one_without_gaps() {
    let mut store = RecordStore::new();
    let ann = Client::create_at(&mut store, person("Ann"), "2024-01-01T10:00:00+00:00".to_string()).unwrap();
    for expected in 1..=25 {
        let id = Session::create_at(&mut store, bare_session(ann), format!("2024-02-{:02}", expected)).unwrap();
        assert_eq!(Session::find_by_id(&store, id).unwrap().unwrap().session_number, expected);
    }
    let numbers: Vec<i32> = Session::find_by_client_id(&store, ann)
        .unwrap()
        .into_iter()
        .map(|session| session.session_number)
        .collect();
    assert_eq!(numbers, (1..=25).rev().collect::<Vec<i32>>());
}

#[test]
fn session_numbers_are_per_client_whatever_the_interleaving() {
    let mut store = RecordStore::new();
    let ann = Client::create_at(&mut store, person("Ann"), "2024-01-01".to_string()).unwrap();
    let bob = Client::create_at(&mut store, person("Bob"), "2024-01-02".to_string()).unwrap();
    let cid = Client::create_at(&mut store, person("Cid"), "2024-01-03".to_string()).unwrap();
    let order = [ann, bob, bob, ann, cid, bob, ann, ann, cid, bob];
    let expected = [1, 1, 2, 2, 1, 3, 3, 4, 2, 4];
    for (client, number) in order.iter().zip(expected.iter()) {
        let id = Session::create_at(&mut store, bare_session(*client), "2024-03-01".to_string()).unwrap();
        assert_eq!(Session::find_by_id(&store, id).unwrap().unwrap().session_number, *number);
    }
    let numbers_of = |client: i32| -> Vec<i32> {
        Session::find_by_client_id(&store, client)
            .unwrap()
            .into_iter()
            .map(|session| session.session_number)
            .collect()
    };
    assert_eq!(numbers_of(ann), vec![4, 3, 2, 1]);
    assert_eq!(numbers_of(bob), vec![4, 3, 2, 1]);
    assert_eq!(numbers_of(cid), vec![2, 1]);
}

#[test]
fn next_session_number_previews_the_number_of_the_next_session() {
    let mut store = RecordStore::new();
    let ann = Client::create_at(&mut store, person("Ann"), "2024-01-01".to_string()).unwrap();
    let bob = Client::create_at(&mut store, person("Bob"), "2024-01-02".to_string()).unwrap();
    for k in 1..=6 {
        assert_eq!(Session::get_next_session_number(&store, ann), Ok(k));
        assert_eq!(get_next_session_number(&store, ann), Ok(k));
        let id = Session::create_at(&mut store, bare_session(ann), "2024-03-01".to_string()).unwrap();
        assert_eq!(Session::find_by_id(&store, id).unwrap().unwrap().session_number, k);
        assert_eq!(Session::get_next_session_number(&store, ann), Ok(k + 1));
        assert_eq!(Session::get_next_session_number(&store, bob), Ok(1));
    }
}

#[test]
fn next_session_number_of_an_unknown_client_is_one() {
    let mut store = RecordStore::new();
    let ann = Client::create_at(&mut store, person("Ann"), "2024-01-01".to_string()).unwrap();
    Session::create_at(&mut store, bare_session(ann), "2024-03-01".to_string()).unwrap();
    assert_eq!(Session::get_next_session_number(&store, 77), Ok(1));
    assert_eq!(Session::get_next_session_number(&store, -3), Ok(1));
}

#[test]
fn session_identities_count_across_clients() {
    let mut store = RecordStore::new();
    let ann = Client::create_at(&mut store, person("Ann"), "2024-01-01".to_string()).unwrap();
    let bob = Client::create_at(&mut store, person("Bob"), "2024-01-02".to_string()).unwrap();
    assert_eq!(Session::create_at(&mut store, bare_session(ann), "d".to_string()), Ok(1));
    assert_eq!(Session::create_at(&mut store, bare_session(bob), "d".to_string()), Ok(2));
    assert_eq!(Session::create_at(&mut store, bare_session(ann), "d".to_string()), Ok(3));
}

#[test]
fn created_session_keeps_the_submitted_fields() {
    let mut store = RecordStore::new();
    let ann = Client::create_at(&mut store, person("Ann"), "2024-01-01".to_string()).unwrap();
    let id = Session::create_at(&mut store, full_session(ann), "2024-03-01T09:30:00+00:00".to_string()).unwrap();
    let session = Session::find_by_id(&store, id).unwrap().unwrap();
    assert_eq!(
        session,
        Session {
            id: 1,
            client_id: ann,
            datetime: "2024-03-01T09:30:00+00:00".to_string(),
            session_number: 1,
            height: Some(Measurement { bits: 172.5f64.to_bits() }),
            weight: Some(Measurement { bits: 68.25f64.to_bits() }),
            anterior: Some("/photos/a.jpg".to_string()),
            posterior: Some("/photos/p.jpg".to_string()),
            right_lateral: Some("/photos/r.jpg".to_string()),
            left_lateral: Some("/photos/l.jpg".to_string()),
            notes: Some("first visit".to_string()),
            anterior_crop: Some("{\"x\":1}".to_string()),
            posterior_crop: Some("{\"x\":2}".to_string()),
            right_lateral_crop: Some("{\"x\":3}".to_string()),
            left_lateral_crop: Some("{\"x\":4}".to_string()),
        }
    );
    assert_eq!(f64::from_bits(session.height.unwrap().bits), 172.5);
    assert_eq!(f64::from_bits(session.weight.unwrap().bits), 68.25);
}

#[test]
fn session_for_an_unknown_client_is_refused() {
    let mut store = RecordStore::new();
    Client::create_at(&mut store, person("Ann"), "2024-01-01".to_string()).unwrap();
    for client in [0, 2, -1, i32::MAX, i32::MIN] {
        assert_eq!(
            Session::create_at(&mut store, bare_session(client), "d".to_string()),
            Err(RecordError::Storage(StorageFault::UnknownClient))
        );
    }
    assert_eq!(Session::find_by_id(&store, 1), Ok(None));
    assert_eq!(
        add_session(&mut store, bare_session(9)),
        Err("The session's client does not exist".to_string())
    );
}

#[test]
fn clock_dated_session_gets_the_next_number() {
    let mut store = RecordStore::new();
    let ann = add_client(&mut store, person("Ann")).unwrap();
    let first = add_session(&mut store, full_session(ann)).unwrap();
    let second = Session::create(&mut store, bare_session(ann)).unwrap();
    let sessions = get_client_sessions(&store, ann).unwrap();
    assert_eq!(sessions.len(), 2);
    assert_eq!((sessions[0].id, sessions[0].session_number), (second, 2));
    assert_eq!((sessions[1].id, sessions[1].session_number), (first, 1));
    assert!(chrono::DateTime::parse_from_rfc3339(&sessions[0].datetime).is_ok());
    assert!(chrono::DateTime::parse_from_rfc3339(&sessions[1].datetime).is_ok());
}

#[test]
fn sessions_of_a_client_without_sessions_are_empty() {
    let mut store = RecordStore::new();
    let ann = Client::create_at(&mut store, person("Ann"), "2024-01-01".to_string()).unwrap();
    let bob = Client::create_at(&mut store, person("Bob"), "2024-01-02".to_string()).unwrap();
    Session::create_at(&mut store, bare_session(ann), "d".to_string()).unwrap();
    assert_eq!(Session::find_by_client_id(&store, bob), Ok(vec![]));
    assert_eq!(Session::find_by_client_id(&store, 40), Ok(vec![]));
}

#[test]
fn get_session_tells_found_from_absent() {
    let mut store = RecordStore::new();
    let ann = Client::create_at(&mut store, person("Ann"), "2024-01-01".to_string()).unwrap();
    let id = Session::create_at(&mut store, bare_session(ann), "d".to_string()).unwrap();
    assert_eq!(get_session(&store, id).unwrap().id, id);
    for missing in [0, 2, -1, i32::MAX, i32::MIN] {
        assert_eq!(get_session(&store, missing), Err("Session not found".to_string()));
        assert_eq!(Session::find_by_id(&store, missing), Ok(None));
    }
}

#[test]
fn update_session_with_absent_fields_clears_every_optional_field() {
    let mut store = RecordStore::new();
    let ann = Client::create_at(&mut store, person("Ann"), "2024-01-01".to_string()).unwrap();
    let id = Session::create_at(&mut store, full_session(ann), "2024-03-01".to_string()).unwrap();
    assert_eq!(Session::update(&mut store, blank_update(id)), Ok(()));
    assert_eq!(
        Session::find_by_id(&store, id).unwrap().unwrap(),
        Session {
            id,
            client_id: ann,
            datetime: "2024-03-01".to_string(),
            session_number: 1,
            height: None,
            weight: None,
            anterior: None,
            posterior: None,
            right_lateral: None,
            left_lateral: None,
            notes: None,
            anterior_crop: None,
            posterior_crop: None,
            right_lateral_crop: None,
            left_lateral_crop: None,
        }
    );
}

#[test]
fn update_session_replaces_every_mutable_field() {
    let mut store = RecordStore::new();
    let ann = Client::create_at(&mut store, person("Ann"), "2024-01-01".to_string()).unwrap();
    let first = Session::create_at(&mut store, bare_session(ann), "2024-03-01".to_string()).unwrap();
    let second = Session::create_at(&mut store, full_session(ann), "2024-03-02".to_string()).unwrap();
    let untouched = Session::find_by_id(&store, second).unwrap().unwrap();
    let change = UpdateSessionDto {
        id: first,
        height: Some(Measurement { bits: 180.0f64.to_bits() }),
        weight: None,
        anterior: Some("a2".to_string()),
        posterior: None,
        right_lateral: Some("r2".to_string()),
        left_lateral: None,
        notes: Some("n2".to_string()),
        anterior_crop: None,
        posterior_crop: Some("pc2".to_string()),
        right_lateral_crop: None,
        left_lateral_crop: Some("lc2".to_string()),
    };
    assert_eq!(update_session(&mut store, change), Ok(()));
    assert_eq!(
        Session::find_by_id(&store, first).unwrap().unwrap(),
        Session {
            id: first,
            client_id: ann,
            datetime: "2024-03-01".to_string(),
            session_number: 1,
            height: Some(Measurement { bits: 180.0f64.to_bits() }),
            weight: None,
            anterior: Some("a2".to_string()),
            posterior: None,
            right_lateral: Some("r2".to_string()),
            left_lateral: None,
            notes: Some("n2".to_string()),
            anterior_crop: None,
            posterior_crop: Some("pc2".to_string()),
            right_lateral_crop: None,
            left_lateral_crop: Some("lc2".to_string()),
        }
    );
    assert_eq!(Session::find_by_id(&store, second).unwrap().unwrap(), untouched);
}

#[test]
fn update_of_a_missing_session_succeeds_and_changes_nothing() {
    let mut store = RecordStore::new();
    let ann = Client::create_at(&mut store, person("Ann"), "2024-01-01".to_string()).unwrap();
    Session::create_at(&mut store, full_session(ann), "2024-03-01".to_string()).unwrap();
    let before = Session::find_by_client_id(&store, ann).unwrap();
    for id in [0, 2, -1, i32::MAX, i32::MIN] {
        assert_eq!(Session::update(&mut store, blank_update(id)), Ok(()));
    }
    assert_eq!(Session::find_by_client_id(&store, ann).unwrap(), before);
}

#[test]
fn update_crop_on_posterior_changes_only_the_posterior_crop() {
    let mut store = RecordStore::new();
    let ann = Client::create_at(&mut store, person("Ann"), "2024-01-01".to_string()).unwrap();
    let id = Session::create_at(&mut store, full_session(ann), "2024-03-01".to_string()).unwrap();
    let other = Session::create_at(&mut store, full_session(ann), "2024-03-02".to_string()).unwrap();
    let before = Session::find_by_id(&store, id).unwrap().unwrap();
    let other_before = Session::find_by_id(&store, other).unwrap().unwrap();
    assert_eq!(Session::update_crop(&mut store, id, "posterior", "{\"x\":9}".to_string()), Ok(()));
    let after = Session::find_by_id(&store, id).unwrap().unwrap();
    assert_eq!(after.posterior_crop, Some("{\"x\":9}".to_string()));
    assert_eq!(after.anterior_crop, before.anterior_crop);
    assert_eq!(after, Session { posterior_crop: Some("{\"x\":9}".to_string()), ..before });
    assert_eq!(Session::find_by_id(&store, other).unwrap().unwrap(), other_before);
}

#[test]
fn update_crop_reaches_each_of_the_four_slots() {
    let mut store = RecordStore::new();
    let ann = Client::create_at(&mut store, person("Ann"), "2024-01-01".to_string()).unwrap();
    let id = Session::create_at(&mut store, bare_session(ann), "2024-03-01".to_string()).unwrap();
    for slot in ["anterior", "posterior", "right_lateral", "left_lateral"] {
        assert_eq!(update_session_crop(&mut store, id, slot.to_string(), format!("crop of {slot}")), Ok(()));
    }
    let after = Session::find_by_id(&store, id).unwrap().unwrap();
    assert_eq!(after.anterior_crop, Some("crop of anterior".to_string()));
    assert_eq!(after.posterior_crop, Some("crop of posterior".to_string()));
    assert_eq!(after.right_lateral_crop, Some("crop of right_lateral".to_string()));
    assert_eq!(after.left_lateral_crop, Some("crop of left_lateral".to_string()));
    assert_eq!(after.anterior, None);
    assert_eq!(after.notes, None);
}

#[test]
fn update_crop_with_a_bogus_slot_fails_and_changes_nothing() {
    let mut store = RecordStore::new();
    let ann = Client::create_at(&mut store, person("Ann"), "2024-01-01".to_string()).unwrap();
    let id = Session::create_at(&mut store, full_session(ann), "2024-03-01".to_string()).unwrap();
    let before = Session::find_by_id(&store, id).unwrap().unwrap();
    assert_eq!(
        Session::update_crop(&mut store, id, "bogus", "{}".to_string()),
        Err(RecordError::InvalidSlot)
    );
    for name in ["", "Anterior", "posterior ", "anterior_crop", "left-lateral"] {
        assert_eq!(
            Session::update_crop(&mut store, id, name, "{}".to_string()),
            Err(RecordError::InvalidSlot)
        );
    }
    assert_eq!(
        update_session_crop(&mut store, id, "bogus".to_string(), "{}".to_string()),
        Err("Invalid image type".to_string())
    );
    assert_eq!(Session::find_by_id(&store, id).unwrap().unwrap(), before);
}

#[test]
fn update_crop_of_a_missing_session_succeeds_and_changes_nothing() {
    let mut store = RecordStore::new();
    let ann = Client::create_at(&mut store, person("Ann"), "2024-01-01".to_string()).unwrap();
    Session::create_at(&mut store, full_session(ann), "2024-03-01".to_string()).unwrap();
    let before = Session::find_by_client_id(&store, ann).unwrap();
    for id in [0, 2, -1, i32::MAX, i32::MIN] {
        assert_eq!(Session::update_crop(&mut store, id, "anterior", "{}".to_string()), Ok(()));
    }
    assert_eq!(Session::find_by_client_id(&store, ann).unwrap(), before);
}

#[test]
fn a_bogus_slot_is_refused_even_without_the_session() {
    let mut store = RecordStore::new();
    assert_eq!(
        Session::update_crop(&mut store, 5, "bogus", "{}".to_string()),
        Err(RecordError::InvalidSlot)
    );
}

fn stored_client(id: i32, firstname: &str, registration_date: &str) -> Client {
    Client {
        id,
        firstname: firstname.to_string(),
        lastname: "Doe".to_string(),
        dob: "1990-04-12".to_string(),
        sex: "F".to_string(),
        registration_date: registration_date.to_string(),
    }
}

fn stored_session(id: i32, client_id: i32, session_number: i32) -> Session {
    Session {
        id,
        client_id,
        datetime: "2024-03-01".to_string(),
        session_number,
        height: Some(Measurement { bits: 1.5f64.to_bits() }),
        weight: None,
        anterior: None,
        posterior: Some("p".to_string()),
        right_lateral: None,
        left_lateral: None,
        notes: None,
        anterior_crop: None,
        posterior_crop: None,
        right_lateral_crop: None,
        left_lateral_crop: None,
    }
}

fn refused(result: Result<RecordStore, RecordError>) -> bool {
    matches!(result, Err(RecordError::Storage(StorageFault::Inconsistent)))
}

#[test]
fn restore_of_no_records_is_the_empty_store() {
    let store = RecordStore::restore(vec![], vec![]).ok().unwrap();
    assert_eq!(Client::find_all(&store), Ok(vec![]));
    assert_eq!(Session::get_next_session_number(&store, 1), Ok(1));
}

#[test]
fn restored_store_continues_where_the_records_end() {
    let clients = vec![stored_client(1, "Ann", "2024-01-01"), stored_client(2, "Bob", "2024-01-02")];
    let sessions = vec![
        stored_session(1, 1, 1),
        stored_session(2, 2, 1),
        stored_session(3, 1, 2),
        stored_session(4, 1, 3),
    ];
    let mut store = RecordStore::restore(clients, sessions).ok().unwrap();
    assert_eq!(Session::get_next_session_number(&store, 1), Ok(4));
    assert_eq!(Session::get_next_session_number(&store, 2), Ok(2));
    assert_eq!(Session::find_by_id(&store, 3).unwrap(), Some(stored_session(3, 1, 2)));
    assert_eq!(Session::create_at(&mut store, bare_session(2), "d".to_string()), Ok(5));
    assert_eq!(Session::find_by_id(&store, 5).unwrap().unwrap().session_number, 2);
    assert_eq!(Client::create_at(&mut store, person("Cid"), "2024-01-03".to_string()), Ok(3));
    let names: Vec<String> =
        Client::find_all(&store).unwrap().into_iter().map(|client| client.firstname).collect();
    assert_eq!(names, vec!["Cid", "Bob", "Ann"]);
}

#[test]
fn restore_gives_back_what_a_store_held() {
    let mut store = RecordStore::new();
    let ann = Client::create_at(&mut store, person("Ann"), "2024-01-01".to_string()).unwrap();
    let bob = Client::create_at(&mut store, person("Bob"), "2024-01-02".to_string()).unwrap();
    for client in [ann, bob, bob, ann, bob] {
        Session::create_at(&mut store, full_session(client), "2024-03-01".to_string()).unwrap();
    }
    let mut clients = Client::find_all(&store).unwrap();
    clients.sort_by_key(|client| client.id);
    let sessions: Vec<Session> =
        (1..=5).map(|id| Session::find_by_id(&store, id).unwrap().unwrap()).collect();
    let restored = RecordStore::restore(clients, sessions).ok().unwrap();
    assert_eq!(Client::find_all(&restored), Client::find_all(&store));
    for client in [ann, bob] {
        assert_eq!(
            Session::find_by_client_id(&restored, client),
            Session::find_by_client_id(&store, client)
        );
    }
}

#[test]
fn restore_refuses_identities_out_of_order() {
    assert!(refused(RecordStore::restore(vec![stored_client(2, "Ann", "d")], vec![])));
    assert!(refused(RecordStore::restore(vec![stored_client(0, "Ann", "d")], vec![])));
    assert!(refused(RecordStore::restore(
        vec![stored_client(1, "Ann", "d"), stored_client(3, "Bob", "d")],
        vec![]
    )));
    assert!(refused(RecordStore::restore(
        vec![stored_client(1, "Ann", "d")],
        vec![stored_session(2, 1, 1)]
    )));
}

#[test]
fn restore_refuses_a_session_without_its_client() {
    assert!(refused(RecordStore::restore(vec![], vec![stored_session(1, 1, 1)])));
    assert!(refused(RecordStore::restore(
        vec![stored_client(1, "Ann", "d")],
        vec![stored_session(1, 2, 1)]
    )));
    assert!(refused(RecordStore::restore(
        vec![stored_client(1, "Ann", "d")],
        vec![stored_session(1, 0, 1)]
    )));
}

#[test]
fn restore_refuses_gaps_and_repeats_in_session_numbers() {
    let clients = || vec![stored_client(1, "Ann", "d"), stored_client(2, "Bob", "d")];
    assert!(refused(RecordStore::restore(clients(), vec![stored_session(1, 1, 2)])));
    assert!(refused(RecordStore::restore(clients(), vec![stored_session(1, 1, 0)])));
    assert!(refused(RecordStore::restore(
        clients(),
        vec![stored_session(1, 1, 1), stored_session(2, 1, 1)]
    )));
    assert!(refused(RecordStore::restore(
        clients(),
        vec![stored_session(1, 1, 1), stored_session(2, 1, 3)]
    )));
    assert!(refused(RecordStore::restore(
        clients(),
        vec![stored_session(1, 1, 1), stored_session(2, 2, 2)]
    )));
    assert!(RecordStore::restore(
        clients(),
        vec![stored_session(1, 1, 1), stored_session(2, 2, 1), stored_session(3, 1, 2)]
    )
    .is_ok());
}
