use winlog::database::{
    auto_disconnect_row, auto_disconnect_timestamp, event_row, normalized_host, on_same_day,
    Database, StorageError,
};
use winlog::models::{ClientEvent, DbEvent, OsInfo};

fn row_copy(row: &DbEvent) -> DbEvent {
    DbEvent {
        id: row.id,
        username: row.username.clone(),
        action: row.action.clone(),
        timestamp: row.timestamp.clone(),
        hostname: row.hostname.clone(),
        source_ip: row.source_ip.clone(),
        server_timestamp: row.server_timestamp.clone(),
        os_name: row.os_name.clone(),
        os_version: row.os_version.clone(),
        kernel_version: row.kernel_version.clone(),
        hardware_info: row.hardware_info.clone(),
        session_uuid: row.session_uuid.clone(),
        created_at: row.created_at.clone(),
    }
}

fn table_event(username: &str, action: &str, timestamp: &str, hostname: Option<&str>) -> ClientEvent {
    ClientEvent {
        username: username.to_string(),
        action: action.to_string(),
        timestamp: timestamp.to_string(),
        hostname: hostname.map(|h| h.to_string()),
        os_info: None,
        hardware_info: None,
    }
}

fn table_insert(db: &mut Database, event: &ClientEvent, session: &str) -> i64 {
    db.insert_event_at(event, session, "10.0.0.1", "2024-01-01T00:00:00+00:00".to_string())
        .unwrap()
}

#[test]
fn new_table_is_empty() {
    let db = Database::new();
    assert_eq!(db.len(), 0);
    assert!(db.row(0).is_none());
    assert!(db.find_last_open_session("alice", "host1").is_none());
    assert!(db.find_open_session_today("alice", "host1", "2024-01-01T09:00:00Z").is_none());
    assert!(!db.is_closed("anything"));
}

#[test]
fn rows_are_numbered_from_one_in_order() {
    let mut db = Database::new();
    let e = table_event("alice", "C", "2024-01-01T09:00:00Z", Some("host1"));
    assert_eq!(table_insert(&mut db, &e, "s1"), 1);
    assert_eq!(table_insert(&mut db, &e, "s2"), 2);
    assert_eq!(table_insert(&mut db, &e, "s3"), 3);
    assert_eq!(db.len(), 3);
    assert_eq!(db.row(0).unwrap().id, 1);
    assert_eq!(db.row(1).unwrap().id, 2);
    assert_eq!(db.row(2).unwrap().id, 3);
    assert_eq!(db.row(1).unwrap().session_uuid, "s2");
    assert!(db.row(3).is_none());
}

#[test]
fn insert_event_at_stores_every_field() {
    let mut db = Database::new();
    let event = ClientEvent {
        username: "alice".to_string(),
        action: "M".to_string(),
        timestamp: "2024-01-01T09:00:00Z".to_string(),
        hostname: Some("host1".to_string()),
        os_info: Some(OsInfo {
            os_name: Some("Linux".to_string()),
            os_version: None,
            kernel_version: Some("6.5.0".to_string()),
        }),
        hardware_info: Some("{\"cpu_count\":8}".to_string()),
    };
    let id = db
        .insert_event_at(&event, "hardware_x", "10.1.2.3", "2024-01-01T09:00:01+00:00".to_string())
        .unwrap();
    assert_eq!(id, 1);
    let row = db.row(0).unwrap();
    assert_eq!(row.id, 1);
    assert_eq!(row.username, "alice");
    assert_eq!(row.action, "M");
    assert_eq!(row.timestamp, "2024-01-01T09:00:00Z");
    assert_eq!(row.hostname.as_deref(), Some("host1"));
    assert_eq!(row.source_ip.as_deref(), Some("10.1.2.3"));
    assert_eq!(row.server_timestamp, "2024-01-01T09:00:01+00:00");
    assert_eq!(row.os_name.as_deref(), Some("Linux"));
    assert_eq!(row.os_version, None);
    assert_eq!(row.kernel_version.as_deref(), Some("6.5.0"));
    assert_eq!(row.hardware_info.as_deref(), Some("{\"cpu_count\":8}"));
    assert_eq!(row.session_uuid, "hardware_x");
    assert_eq!(row.created_at, "2024-01-01T09:00:01+00:00");
}

#[test]
fn insert_event_stamps_the_row_with_the_clock() {
    let mut db = Database::new();
    let e = table_event("alice", "C", "2024-01-01T09:00:00Z", None);
    assert_eq!(db.insert_event(&e, "s1", "10.0.0.1").unwrap(), 1);
    let row = db.row(0).unwrap();
    assert_eq!(row.hostname, None);
    assert_eq!(row.os_name, None);
    assert_eq!(row.hardware_info, None);
    assert_eq!(row.created_at, row.server_timestamp);
    assert!(chrono::DateTime::parse_from_rfc3339(&row.server_timestamp).is_ok());
}

#[test]
fn open_session_is_found_until_a_logout_closes_it() {
    let mut db = Database::new();
    let login = table_event("alice", "C", "2024-01-01T09:00:00Z", Some("host1"));
    table_insert(&mut db, &login, "alice@host1@aaaaaa");
    assert_eq!(
        db.find_last_open_session("alice", "host1").as_deref(),
        Some("alice@host1@aaaaaa")
    );
    let open = db.find_open_session_today("alice", "host1", "2024-01-01T17:00:00Z").unwrap();
    assert_eq!(open.session_uuid, "alice@host1@aaaaaa");
    assert_eq!(open.timestamp, "2024-01-01T09:00:00Z");
    assert!(!db.is_closed("alice@host1@aaaaaa"));

    let logout = table_event("alice", "D", "2024-01-01T12:00:00Z", Some("host1"));
    table_insert(&mut db, &logout, "alice@host1@aaaaaa");
    assert!(db.is_closed("alice@host1@aaaaaa"));
    assert!(db.find_last_open_session("alice", "host1").is_none());
    assert!(db.find_open_session_today("alice", "host1", "2024-01-01T17:00:00Z").is_none());
}

#[test]
fn logout_of_another_user_closes_the_session_it_names() {
    // a session is closed by any logout row that carries its identifier
    let mut db = Database::new();
    table_insert(&mut db, &table_event("alice", "C", "2024-01-01T09:00:00Z", Some("host1")), "s1");
    table_insert(&mut db, &table_event("bob", "D", "2024-01-01T10:00:00Z", Some("host2")), "s1");
    assert!(db.find_last_open_session("alice", "host1").is_none());
}

#[test]
fn lookups_match_user_and_host() {
    let mut db = Database::new();
    table_insert(&mut db, &table_event("alice", "C", "2024-01-01T09:00:00Z", Some("host1")), "s1");
    assert!(db.find_last_open_session("alice", "host2").is_none());
    assert!(db.find_last_open_session("bob", "host1").is_none());
    assert!(db.find_last_open_session("Alice", "host1").is_none());
    assert!(db.find_open_session_today("bob", "host1", "2024-01-01T10:00:00Z").is_none());
    assert!(db.find_open_session_today("alice", "host2", "2024-01-01T10:00:00Z").is_none());
}

#[test]
fn only_logins_open_sessions() {
    let mut db = Database::new();
    table_insert(&mut db, &table_event("alice", "M", "2024-01-01T09:00:00Z", Some("host1")), "s1");
    table_insert(&mut db, &table_event("alice", "D", "2024-01-01T09:00:00Z", Some("host1")), "s2");
    table_insert(&mut db, &table_event("alice", "c", "2024-01-01T09:00:00Z", Some("host1")), "s3");
    assert!(db.find_last_open_session("alice", "host1").is_none());
}

#[test]
fn absent_host_is_matched_as_unknown() {
    let mut db = Database::new();
    table_insert(&mut db, &table_event("alice", "C", "2024-01-01T09:00:00Z", None), "s1");
    assert_eq!(db.find_last_open_session("alice", "unknown").as_deref(), Some("s1"));
    assert!(db.find_last_open_session("alice", "").is_none());
    assert_eq!(normalized_host(&None), "unknown");
    assert_eq!(normalized_host(&Some("host1".to_string())), "host1");
    assert_eq!(normalized_host(&Some(String::new())), "");
}

#[test]
fn open_session_today_is_scoped_to_the_day() {
    let mut db = Database::new();
    table_insert(&mut db, &table_event("alice", "C", "2024-01-01T23:00:00Z", Some("host1")), "s1");
    assert!(db.find_open_session_today("alice", "host1", "2024-01-02T08:00:00Z").is_none());
    assert!(db.find_open_session_today("alice", "host1", "2024-01-01T08:00:00Z").is_some());
    // the lookup for a logout has no such scope
    assert_eq!(db.find_last_open_session("alice", "host1").as_deref(), Some("s1"));
}

#[test]
fn timestamps_of_fewer_than_ten_characters_name_no_day() {
    assert!(on_same_day("2024-01-01T09:00:00Z", "2024-01-01"));
    assert!(on_same_day("2024-01-01T09:00:00Z", "2024-01-01T23:59:59+02:00"));
    assert!(!on_same_day("2024-01-01T09:00:00Z", "2024-01-02T09:00:00Z"));
    assert!(!on_same_day("2024-01-0", "2024-01-0"));
    assert!(!on_same_day("", ""));
    assert!(!on_same_day("2024-01-01T09:00:00Z", "short"));

    let mut db = Database::new();
    table_insert(&mut db, &table_event("alice", "C", "T", Some("host1")), "s1");
    assert!(db.find_open_session_today("alice", "host1", "T").is_none());
    assert_eq!(db.find_last_open_session("alice", "host1").as_deref(), Some("s1"));
}

#[test]
fn latest_open_session_goes_by_timestamp() {
    let mut db = Database::new();
    table_insert(&mut db, &table_event("alice", "C", "2024-01-01T12:00:00Z", Some("host1")), "noon");
    table_insert(&mut db, &table_event("alice", "C", "2024-01-01T09:00:00Z", Some("host1")), "morning");
    assert_eq!(db.find_last_open_session("alice", "host1").as_deref(), Some("noon"));
    let open = db.find_open_session_today("alice", "host1", "2024-01-01T20:00:00Z").unwrap();
    assert_eq!(open.session_uuid, "noon");
    assert_eq!(open.timestamp, "2024-01-01T12:00:00Z");

    table_insert(&mut db, &table_event("alice", "D", "2024-01-01T13:00:00Z", Some("host1")), "noon");
    assert_eq!(db.find_last_open_session("alice", "host1").as_deref(), Some("morning"));
}

#[test]
fn latest_open_session_of_one_timestamp_is_the_one_inserted_last() {
    let mut db = Database::new();
    table_insert(&mut db, &table_event("alice", "C", "2024-01-01T09:00:00Z", Some("host1")), "first");
    table_insert(&mut db, &table_event("alice", "C", "2024-01-01T09:00:00Z", Some("host1")), "second");
    assert_eq!(db.find_last_open_session("alice", "host1").as_deref(), Some("second"));
}

#[test]
fn last_open_session_may_be_of_an_earlier_day() {
    let mut db = Database::new();
    table_insert(&mut db, &table_event("alice", "C", "2024-01-01T09:00:00Z", Some("host1")), "monday");
    table_insert(&mut db, &table_event("alice", "C", "2024-01-02T09:00:00Z", Some("host1")), "tuesday");
    table_insert(&mut db, &table_event("alice", "D", "2024-01-02T18:00:00Z", Some("host1")), "tuesday");
    assert_eq!(db.find_last_open_session("alice", "host1").as_deref(), Some("monday"));
    assert!(db.find_open_session_today("alice", "host1", "2024-01-02T19:00:00Z").is_none());
}

#[test]
fn full_table_refuses_a_row_and_stays_as_it_was() {
    let mut db = Database::with_limit(1);
    let e = table_event("alice", "C", "2024-01-01T09:00:00Z", Some("host1"));
    assert_eq!(table_insert(&mut db, &e, "s1"), 1);
    let refused = db.insert_event_at(&e, "s2", "10.0.0.1", "now".to_string());
    assert_eq!(refused, Err(StorageError::Full));
    assert_eq!(db.insert_event(&e, "s2", "10.0.0.1"), Err(StorageError::Full));
    assert_eq!(db.insert_auto_disconnect(&e, "s1", "10.0.0.1"), Err(StorageError::Full));
    assert_eq!(
        db.insert_auto_disconnect_at(&e, "s1", "10.0.0.1", "now".to_string()),
        Err(StorageError::Full)
    );
    assert_eq!(db.len(), 1);
    assert_eq!(db.row(0).unwrap().session_uuid, "s1");
    assert!(!db.is_closed("s1"));
}

#[test]
fn table_without_room_takes_nothing() {
    let mut db = Database::with_limit(0);
    let e = table_event("alice", "C", "2024-01-01T09:00:00Z", Some("host1"));
    assert_eq!(db.insert_event(&e, "s1", "10.0.0.1"), Err(StorageError::Full));
    assert_eq!(db.len(), 0);
}

#[test]
fn auto_disconnect_is_dated_one_second_before_the_login() {
    let mut db = Database::new();
    let login = ClientEvent {
        username: "alice".to_string(),
        action: "C".to_string(),
        timestamp: "2024-01-01T17:00:00Z".to_string(),
        hostname: Some("host1".to_string()),
        os_info: Some(OsInfo {
            os_name: Some("Windows".to_string()),
            os_version: Some("10.0.19045".to_string()),
            kernel_version: None,
        }),
        hardware_info: Some("{}".to_string()),
    };
    db.insert_auto_disconnect_at(&login, "old", "10.9.9.9", "2024-01-01T17:00:05+00:00".to_string())
        .unwrap();
    let row = db.row(0).unwrap();
    assert_eq!(row.id, 1);
    assert_eq!(row.username, "alice");
    assert_eq!(row.action, "D");
    assert_eq!(row.timestamp, "2024-01-01T16:59:59Z");
    assert_eq!(row.hostname.as_deref(), Some("host1"));
    assert_eq!(row.source_ip.as_deref(), Some("10.9.9.9"));
    assert_eq!(row.server_timestamp, "2024-01-01T17:00:05+00:00");
    assert_eq!(row.os_name.as_deref(), Some("Windows"));
    assert_eq!(row.os_version.as_deref(), Some("10.0.19045"));
    assert_eq!(row.kernel_version, None);
    assert_eq!(row.hardware_info, None);
    assert_eq!(row.session_uuid, "old");
    assert_eq!(row.created_at, "2024-01-01T17:00:05+00:00");
    assert!(db.is_closed("old"));
}

#[test]
fn auto_disconnect_keeps_offset_and_fraction() {
    let mut db = Database::new();
    let e = table_event("alice", "C", "2024-03-01T00:00:00.250+02:00", Some("host1"));
    db.insert_auto_disconnect_at(&e, "old", "ip", "now".to_string()).unwrap();
    assert_eq!(db.row(0).unwrap().timestamp, "2024-02-29T23:59:59.250+02:00");

    let e = table_event("alice", "C", "2024-01-01T00:00:00Z", Some("host1"));
    db.insert_auto_disconnect_at(&e, "old", "ip", "now".to_string()).unwrap();
    assert_eq!(db.row(1).unwrap().timestamp, "2023-12-31T23:59:59Z");
}

#[test]
fn auto_disconnect_of_an_unreadable_timestamp_is_dated_by_the_server() {
    let mut db = Database::new();
    let e = table_event("alice", "C", "2024-01-01Tnonsense", Some("host1"));
    db.insert_auto_disconnect_at(&e, "old", "ip", "2024-01-01T17:00:05+00:00".to_string())
        .unwrap();
    assert_eq!(db.row(0).unwrap().timestamp, "2024-01-01T17:00:05+00:00");

    db.insert_auto_disconnect(&e, "old", "ip").unwrap();
    let row = db.row(1).unwrap();
    assert_eq!(row.timestamp, row.server_timestamp);
    assert!(chrono::DateTime::parse_from_rfc3339(&row.timestamp).is_ok());
}

#[test]
fn table_is_made_of_rows_that_are_numbered_in_order() {
    let mut db = Database::new();
    let e = table_event("alice", "C", "2024-01-01T09:00:00Z", Some("host1"));
    table_insert(&mut db, &e, "s1");
    table_insert(&mut db, &e, "s2");
    let rows = vec![row_copy(db.row(0).unwrap()), row_copy(db.row(1).unwrap())];
    let copy = Database::from_rows(rows).unwrap();
    assert_eq!(copy.len(), 2);
    assert_eq!(copy.row(1).unwrap().session_uuid, "s2");
    assert_eq!(copy.find_last_open_session("alice", "host1").as_deref(), Some("s2"));
    assert_eq!(Database::from_rows(Vec::new()).unwrap().len(), 0);
}

#[test]
fn table_is_not_made_of_rows_that_are_numbered_otherwise() {
    let mut db = Database::new();
    let e = table_event("alice", "C", "2024-01-01T09:00:00Z", Some("host1"));
    table_insert(&mut db, &e, "s1");
    table_insert(&mut db, &e, "s2");
    let swapped = vec![row_copy(db.row(1).unwrap()), row_copy(db.row(0).unwrap())];
    assert!(Database::from_rows(swapped).is_none());
    let from_two = vec![row_copy(db.row(1).unwrap())];
    assert!(Database::from_rows(from_two).is_none());
    let mut zero = row_copy(db.row(0).unwrap());
    zero.id = 0;
    assert!(Database::from_rows(vec![zero]).is_none());
}

#[test]
fn rows_are_built_without_a_number() {
    let event = table_event("alice", "C", "2024-01-01T17:00:00.5+01:00", None);
    let row = event_row(&event, "s1", "10.0.0.1", "now".to_string());
    assert_eq!(row.id, 0);
    assert_eq!(row.action, "C");
    assert_eq!(row.timestamp, "2024-01-01T17:00:00.5+01:00");
    assert_eq!(row.hostname, None);
    assert_eq!(row.session_uuid, "s1");
    assert_eq!(row.server_timestamp, "now");
    assert_eq!(row.created_at, "now");

    let logout = auto_disconnect_row(&event, "old", "10.0.0.1", "now".to_string());
    assert_eq!(logout.id, 0);
    assert_eq!(logout.action, "D");
    assert_eq!(logout.timestamp, "2024-01-01T16:59:59.500+01:00");
    assert_eq!(logout.session_uuid, "old");
    assert_eq!(logout.username, "alice");
    assert_eq!(logout.hostname, None);
    assert_eq!(logout.hardware_info, None);
}

#[test]
fn auto_disconnect_timestamp_prefers_the_earlier_instant() {
    assert_eq!(
        auto_disconnect_timestamp(Some("2024-01-01T16:59:59Z".to_string()), "now".to_string()),
        "2024-01-01T16:59:59Z"
    );
    assert_eq!(auto_disconnect_timestamp(None, "now".to_string()), "now");
}
