use winlog::database::Database;
use winlog::session::{
    fresh_session_id, hash_input_text, salt_of, session_id_from_digest, session_id_with_salt,
};

fn is_well_formed(id: &str, username: &str, hostname: &str) -> bool {
    let head = format!("{}@{}@", username, hostname);
    match id.strip_prefix(head.as_str()) {
        Some(hash) => {
            hash.len() == 6 && hash.chars().all(|c| c.is_ascii_digit() || ('a'..='f').contains(&c))
        }
        None => false,
    }
}

#[test]
fn session_id_hashes_user_host_day_and_salt() {
    // md5("alicehost12024-01-0142") begins with 87f323
    assert_eq!(
        session_id_with_salt("alice", "host1", "2024-01-01T09:00:00Z", 42),
        "alice@host1@87f323"
    );
}

#[test]
fn session_id_uses_only_the_day_of_the_timestamp() {
    let morning = session_id_with_salt("alice", "host1", "2024-01-01T09:00:00Z", 42);
    let evening = session_id_with_salt("alice", "host1", "2024-01-01T17:30:00+02:00", 42);
    assert_eq!(morning, evening);
    let next_day = session_id_with_salt("alice", "host1", "2024-01-02T09:00:00Z", 42);
    assert_ne!(morning, next_day);
}

#[test]
fn session_id_changes_with_the_salt() {
    let a = session_id_with_salt("alice", "host1", "2024-01-01T09:00:00Z", 42);
    let b = session_id_with_salt("alice", "host1", "2024-01-01T09:00:00Z", -5);
    assert_eq!(b, "alice@host1@12b8bc");
    assert_ne!(a, b);
}

#[test]
fn session_id_of_a_short_timestamp_uses_the_epoch_day() {
    // md5("alicehost11970-01-017") begins with fa94b0
    assert_eq!(session_id_with_salt("alice", "host1", "short", 7), "alice@host1@fa94b0");
    assert_eq!(
        session_id_with_salt("alice", "host1", "short", 7),
        session_id_with_salt("alice", "host1", "1970-01-01T00:00:00Z", 7)
    );
}

#[test]
fn session_id_of_an_empty_timestamp_uses_the_epoch_day() {
    // md5("bobunknown1970-01-010") begins with 490646
    assert_eq!(session_id_with_salt("bob", "unknown", "", 0), "bob@unknown@490646");
}

#[test]
fn session_id_of_a_nine_character_timestamp_uses_the_epoch_day() {
    assert_eq!(
        session_id_with_salt("alice", "host1", "2024-01-0", 7),
        session_id_with_salt("alice", "host1", "", 7)
    );
    assert_ne!(
        session_id_with_salt("alice", "host1", "2024-01-09", 7),
        session_id_with_salt("alice", "host1", "", 7)
    );
}

#[test]
fn session_id_counts_characters_not_bytes() {
    // ten characters of three bytes each, then a T: the day is those ten
    assert_eq!(
        session_id_with_salt("alice", "host1", "日本語日本語日本語日T", 1),
        "alice@host1@55b988"
    );
    assert_eq!(session_id_with_salt("é", "ü", "ééééééééééT", 3), "é@ü@80038c");
}

#[test]
fn session_id_takes_the_largest_and_the_smallest_salt() {
    assert_eq!(
        session_id_with_salt("alice", "host1", "2024-01-01T09:00:00Z", i64::MAX),
        "alice@host1@edc903"
    );
    assert_eq!(
        session_id_with_salt("alice", "host1", "2024-01-01T09:00:00Z", i64::MIN),
        "alice@host1@e5afe3"
    );
}

#[test]
fn session_id_of_a_malformed_timestamp_is_well_formed() {
    for timestamp in ["", "x", "not a date", "2024", "T", "2024-13-99Tzz"] {
        let id = session_id_with_salt("alice", "host1", timestamp, 123);
        assert!(is_well_formed(&id, "alice", "host1"), "{}", id);
    }
}

#[test]
fn fresh_session_id_is_well_formed() {
    let id = fresh_session_id("alice", "host1", "2024-01-01T09:00:00Z");
    assert!(is_well_formed(&id, "alice", "host1"), "{}", id);
    let id = fresh_session_id("alice", "host1", "bad");
    assert!(is_well_formed(&id, "alice", "host1"), "{}", id);
}

#[test]
fn generate_session_id_is_well_formed() {
    let id = Database::generate_session_id("bob", "unknown", "2024-01-01T09:00:00Z");
    assert!(is_well_formed(&id, "bob", "unknown"), "{}", id);
}

#[test]
fn hash_input_is_user_host_day_and_salt() {
    assert_eq!(
        hash_input_text("alice", "host1", "2024-01-01T09:00:00Z", 42),
        "alicehost12024-01-0142"
    );
    assert_eq!(hash_input_text("alice", "host1", "short", -7), "alicehost11970-01-01-7");
    assert_eq!(hash_input_text("", "", "", 0), "1970-01-010");
    assert_eq!(hash_input_text("a", "b", "0123456789", 1), "ab01234567891");
}

#[test]
fn identifier_takes_the_first_three_bytes_of_the_digest() {
    let mut digest = [0u8; 16];
    digest[0] = 0xab;
    digest[1] = 0x01;
    digest[2] = 0xff;
    digest[3] = 0x77;
    assert_eq!(session_id_from_digest("alice", "host1", &digest), "alice@host1@ab01ff");
    assert_eq!(session_id_from_digest("", "", &[0u8; 16]), "@@000000");
}

#[test]
fn salt_is_the_clock_or_zero() {
    assert_eq!(salt_of(Some(1_700_000_000_000_000_000)), 1_700_000_000_000_000_000);
    assert_eq!(salt_of(Some(-1)), -1);
    assert_eq!(salt_of(None), 0);
}
