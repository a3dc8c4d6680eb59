//! Session identifiers: `user@host@` and six hexadecimal digits that hash
//! the user, the host, the calendar day and a salt.

use vstd::prelude::*;
use vstd::slice::slice_subrange;
use vstd::string::*;
use vstd::utf8::encode_utf8;
use crate::clock::now_nanos;
use crate::digest::{md5_digest, md5_of};
use crate::text::{hex_digit, hex_lower, hex_text, signed_decimal, signed_decimal_text};

verus! {

/// The calendar day of `timestamp`: its first ten characters, or
/// `1970-01-01` where it has fewer.
pub open spec fn session_day(timestamp: Seq<char>) -> Seq<char> {
    if timestamp.len() >= 10 {
        timestamp.take(10)
    } else {
        "1970-01-01"@
    }
}

/// The text that is hashed into an identifier.
pub open spec fn hash_input(
    username: Seq<char>,
    hostname: Seq<char>,
    timestamp: Seq<char>,
    salt: int,
) -> Seq<char> {
    username + hostname + session_day(timestamp) + signed_decimal(salt)
}

/// The first six hexadecimal digits of `digest`.
pub open spec fn short_hash(digest: Seq<u8>) -> Seq<char> {
    hex_lower(digest).take(6)
}

/// The identifier for `username` on `hostname` on the day of `timestamp`,
/// salted with `salt`.
pub open spec fn session_id(
    username: Seq<char>,
    hostname: Seq<char>,
    timestamp: Seq<char>,
    salt: int,
) -> Seq<char> {
    username + seq!['@'] + hostname + seq!['@'] + short_hash(
        md5_digest(encode_utf8(hash_input(username, hostname, timestamp, salt))),
    )
}

/// `id` is the identifier for `username`, `hostname` and `timestamp` under
/// some salt.
pub open spec fn is_generated_id(
    id: Seq<char>,
    username: Seq<char>,
    hostname: Seq<char>,
    timestamp: Seq<char>,
) -> bool {
    exists|salt: i64| id == #[trigger] session_id(username, hostname, timestamp, salt as int)
}

/// `c` is one of `0` to `9` and `a` to `f`.
pub open spec fn is_lower_hex(c: char) -> bool {
    exists|d: int| 0 <= d < 16 && c == #[trigger] hex_digit(d)
}

/// `id` is `username`, `@`, `hostname`, `@` and six lower-case hexadecimal
/// digits.
pub open spec fn well_formed_id(id: Seq<char>, username: Seq<char>, hostname: Seq<char>) -> bool {
    exists|hash: Seq<char>|
        {
            &&& hash.len() == 6
            &&& forall|i: int| 0 <= i < 6 ==> is_lower_hex(#[trigger] hash[i])
            &&& id == username + seq!['@'] + hostname + seq!['@'] + hash
        }
}

/// The first six hexadecimal digits of a digest of three bytes or more
/// are the rendering of its first three bytes.
pub proof fn lemma_short_hash(digest: Seq<u8>)
    requires
        digest.len() >= 3,
    ensures
        short_hash(digest) == hex_lower(digest.take(3)),
        short_hash(digest).len() == 6,
        forall|i: int| 0 <= i < 6 ==> is_lower_hex(#[trigger] short_hash(digest)[i]),
{
    let h = short_hash(digest);
    assert(h =~= hex_lower(digest.take(3)));
    assert forall|i: int| 0 <= i < 6 implies is_lower_hex(#[trigger] h[i]) by {
        let b = digest[i / 2] as int;
        let d = if i % 2 == 0 {
            b / 16
        } else {
            b % 16
        };
        assert(h[i] == hex_digit(d));
    }
}

/// A timestamp of fewer than ten characters gives the identifier of the
/// day `1970-01-01`, whatever it holds; a longer one gives the identifier
/// of its first ten characters, whatever follows them.
pub proof fn identifier_goes_by_the_day(
    username: Seq<char>,
    hostname: Seq<char>,
    timestamp: Seq<char>,
    salt: int,
)
    ensures
        timestamp.len() < 10 ==> session_id(username, hostname, timestamp, salt) == session_id(
            username,
            hostname,
            "1970-01-01"@,
            salt,
        ),
        timestamp.len() >= 10 ==> session_id(username, hostname, timestamp, salt) == session_id(
            username,
            hostname,
            timestamp.take(10),
            salt,
        ),
{
    reveal_strlit("1970-01-01");
    assert("1970-01-01"@.take(10) =~= "1970-01-01"@);
    if timestamp.len() >= 10 {
        assert(timestamp.take(10).take(10) =~= timestamp.take(10));
    }
}

/// The text that is hashed into the identifier for `username` on
/// `hostname` on the day of `timestamp`, salted with `salt`. A timestamp
/// of fewer than ten characters counts as `1970-01-01`.
pub fn hash_input_text(username: &str, hostname: &str, timestamp: &str, salt: i64) -> (data: String)
    ensures
        data@ == hash_input(username@, hostname@, timestamp@, salt as int),
{
    let day = if timestamp.unicode_len() >= 10 {
        timestamp.substring_char(0, 10)
    } else {
        "1970-01-01"
    };
    let mut data = String::from_str(username);
    data.append(hostname);
    data.append(day);
    let salt_text = signed_decimal_text(salt);
    data.append(salt_text.as_str());
    data
}

/// The identifier of `username` on `hostname` whose hash has the digest
/// `digest`: user, `@`, host, `@`, and the first six hexadecimal digits of
/// the digest.
pub fn session_id_from_digest(username: &str, hostname: &str, digest: &[u8; 16]) -> (id: String)
    ensures
        id@ == username@ + seq!['@'] + hostname@ + seq!['@'] + short_hash(digest@),
        well_formed_id(id@, username@, hostname@),
{
    let hash = hex_text(slice_subrange(digest.as_slice(), 0, 3));
    proof {
        lemma_short_hash(digest@);
        reveal_strlit("@");
    }
    let mut id = String::from_str(username);
    id.append("@");
    id.append(hostname);
    id.append("@");
    id.append(hash.as_str());
    id
}

/// The identifier for `username` on `hostname` on the day of `timestamp`,
/// salted with `salt`. A timestamp of fewer than ten characters counts as
/// `1970-01-01`.
pub fn session_id_with_salt(username: &str, hostname: &str, timestamp: &str, salt: i64) -> (id:
    String)
    ensures
        id@ == session_id(username@, hostname@, timestamp@, salt as int),
        is_generated_id(id@, username@, hostname@, timestamp@),
        well_formed_id(id@, username@, hostname@),
{
    let data = hash_input_text(username, hostname, timestamp, salt);
    let digest = md5_of(data.as_str().as_bytes());
    let id = session_id_from_digest(username, hostname, &digest);
    assert(id@ == session_id(username@, hostname@, timestamp@, salt as int));
    id
}

/// The salt that the clock's reading `nanos` gives: the nanoseconds, or 0
/// where the clock gave none.
pub fn salt_of(nanos: Option<i64>) -> (salt: i64)
    ensures
        salt == match nanos {
            Some(n) => n,
            None => 0,
        },
{
    match nanos {
        Some(n) => n,
        None => 0,
    }
}

/// A fresh identifier for `username` on `hostname` on the day of
/// `timestamp`, salted with the clock's nanoseconds, or with 0 where the
/// clock gives none.
pub fn fresh_session_id(username: &str, hostname: &str, timestamp: &str) -> (id: String)
    ensures
        is_generated_id(id@, username@, hostname@, timestamp@),
        well_formed_id(id@, username@, hostname@),
{
    session_id_with_salt(username, hostname, timestamp, salt_of(now_nanos()))
}

} // verus!
