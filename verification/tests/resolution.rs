use winlog::database::{Database, SessionState};
use winlog::models::ClientEvent;
use winlog::resolver::{
    event_kind, lookup_for, read_state, resolve, session_id_for, EventKind, IdSource, Lookup,
};

fn resolver_event(username: &str, action: &str, timestamp: &str, hostname: Option<&str>) -> ClientEvent {
    ClientEvent {
        username: username.to_string(),
        action: action.to_string(),
        timestamp: timestamp.to_string(),
        hostname: hostname.map(|h| h.to_string()),
        os_info: None,
        hardware_info: None,
    }
}

fn open_state(session: &str) -> SessionState {
    SessionState::OpenSession(session.to_string())
}

#[test]
fn event_kind_reads_the_action_code() {
    assert_eq!(event_kind("C"), Some(EventKind::Connect));
    assert_eq!(event_kind("D"), Some(EventKind::Disconnect));
    assert_eq!(event_kind("M"), Some(EventKind::HardwareReport));
    assert_eq!(event_kind("c"), None);
    assert_eq!(event_kind(""), None);
    assert_eq!(event_kind("CD"), None);
}

#[test]
fn each_kind_of_event_has_its_lookup() {
    assert_eq!(lookup_for(EventKind::Connect), Lookup::OpenToday);
    assert_eq!(lookup_for(EventKind::Disconnect), Lookup::LastOpen);
    assert_eq!(lookup_for(EventKind::HardwareReport), Lookup::Nothing);
}

#[test]
fn login_without_an_open_session_gets_a_fresh_identifier() {
    let r = resolve(EventKind::Connect, SessionState::NoOpenSession);
    assert_eq!(r.close_first, None);
    assert!(matches!(r.id, IdSource::Fresh));
}

#[test]
fn login_with_an_open_session_closes_it_and_gets_a_fresh_identifier() {
    let r = resolve(EventKind::Connect, open_state("alice@host1@aaaaaa"));
    assert_eq!(r.close_first.as_deref(), Some("alice@host1@aaaaaa"));
    assert!(matches!(r.id, IdSource::Fresh));
}

#[test]
fn logout_with_an_open_session_joins_it() {
    let r = resolve(EventKind::Disconnect, open_state("alice@host1@aaaaaa"));
    assert_eq!(r.close_first, None);
    assert!(matches!(&r.id, IdSource::Existing(session) if session == "alice@host1@aaaaaa"));
}

#[test]
fn logout_without_an_open_session_is_an_orphan() {
    let r = resolve(EventKind::Disconnect, SessionState::NoOpenSession);
    assert_eq!(r.close_first, None);
    assert!(matches!(r.id, IdSource::Orphan));
}

#[test]
fn hardware_report_joins_no_session_in_any_state() {
    for state in [SessionState::NoOpenSession, open_state("alice@host1@aaaaaa")] {
        let r = resolve(EventKind::HardwareReport, state);
        assert_eq!(r.close_first, None);
        assert!(matches!(r.id, IdSource::Hardware));
    }
}

#[test]
fn identifier_comes_from_its_source() {
    let event = resolver_event("alice", "D", "2024-01-01T09:00:00Z", Some("host1"));
    assert_eq!(session_id_for(IdSource::Existing("anything".to_string()), &event), "anything");
    let fresh = session_id_for(IdSource::Fresh, &event);
    assert!(fresh.starts_with("alice@host1@"));
    assert_eq!(fresh.len(), "alice@host1@".len() + 6);
    let orphan = session_id_for(IdSource::Orphan, &event);
    assert!(orphan.starts_with("orphan_alice@host1@"));
    assert_eq!(orphan.len(), "orphan_alice@host1@".len() + 6);
    let hardware = session_id_for(IdSource::Hardware, &event);
    assert!(hardware.starts_with("hardware_alice@host1@"));
    assert_eq!(hardware.len(), "hardware_alice@host1@".len() + 6);
    let hostless = resolver_event("alice", "D", "2024-01-01T09:00:00Z", None);
    assert!(session_id_for(IdSource::Fresh, &hostless).starts_with("alice@unknown@"));
}

#[test]
fn state_is_read_for_the_day_of_a_login_and_for_all_days_of_a_logout() {
    let mut db = Database::new();
    let monday = resolver_event("alice", "C", "2024-01-01T09:00:00Z", Some("host1"));
    db.insert_event_at(&monday, "monday", "ip", "now".to_string()).unwrap();

    let tuesday_login = resolver_event("alice", "C", "2024-01-02T09:00:00Z", Some("host1"));
    assert!(matches!(
        read_state(&db, EventKind::Connect, &tuesday_login),
        SessionState::NoOpenSession
    ));
    let monday_login = resolver_event("alice", "C", "2024-01-01T17:00:00Z", Some("host1"));
    assert!(matches!(
        read_state(&db, EventKind::Connect, &monday_login),
        SessionState::OpenSession(session) if session == "monday"
    ));
    let tuesday_logout = resolver_event("alice", "D", "2024-01-02T09:00:00Z", Some("host1"));
    assert!(matches!(
        read_state(&db, EventKind::Disconnect, &tuesday_logout),
        SessionState::OpenSession(session) if session == "monday"
    ));
    let report = resolver_event("alice", "M", "2024-01-01T17:00:00Z", Some("host1"));
    assert!(matches!(
        read_state(&db, EventKind::HardwareReport, &report),
        SessionState::NoOpenSession
    ));
    let stranger = resolver_event("bob", "D", "2024-01-01T17:00:00Z", Some("host1"));
    assert!(matches!(
        read_state(&db, EventKind::Disconnect, &stranger),
        SessionState::NoOpenSession
    ));
}

#[test]
fn session_state_names_the_latest_open_session() {
    let mut db = Database::new();
    assert!(matches!(db.session_state("alice", "host1", None), SessionState::NoOpenSession));
    let first = resolver_event("alice", "C", "2024-01-01T09:00:00Z", Some("host1"));
    let second = resolver_event("alice", "C", "2024-01-01T12:00:00Z", Some("host1"));
    db.insert_event_at(&second, "noon", "ip", "now".to_string()).unwrap();
    db.insert_event_at(&first, "morning", "ip", "now".to_string()).unwrap();
    assert!(matches!(
        db.session_state("alice", "host1", None),
        SessionState::OpenSession(session) if session == "noon"
    ));
    assert!(matches!(
        db.session_state("alice", "host1", Some("2024-01-01T23:00:00Z")),
        SessionState::OpenSession(session) if session == "noon"
    ));
    assert!(matches!(
        db.session_state("alice", "host1", Some("2024-01-02T00:00:00Z")),
        SessionState::NoOpenSession
    ));
    let logout = resolver_event("alice", "D", "2024-01-01T13:00:00Z", Some("host1"));
    db.insert_event_at(&logout, "noon", "ip", "now".to_string()).unwrap();
    assert!(matches!(
        db.session_state("alice", "host1", None),
        SessionState::OpenSession(session) if session == "morning"
    ));
}
