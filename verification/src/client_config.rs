//! The agent's settings: each one is what the environment says, where it
//! says anything usable, and a default otherwise.

use vstd::prelude::*;
use vstd::string::*;
use crate::text::chars_of;

verus! {

/// Seconds that a request may take, by default.
pub const DEFAULT_TIMEOUT: u64 = 30;

/// How many times a report is sent at most, by default.
pub const DEFAULT_MAX_RETRIES: u32 = 3;

/// Milliseconds between two attempts, by default.
pub const DEFAULT_RETRY_DELAY_MS: u64 = 1000;

/// Where reports are sent, by default.
pub open spec fn default_server_url() -> Seq<char> {
    "http://127.0.0.1:3000/api/v1/events"@
}

/// The signature that the agent sends, by default.
pub open spec fn default_user_agent() -> Seq<char> {
    "Winlog/0.1.0"@
}

/// `c` is one of `0` to `9`.
pub open spec fn is_digit(c: char) -> bool {
    48 <= c as u32 <= 57
}

/// The number that the decimal digits `digits` write.
pub open spec fn digits_value(digits: Seq<char>) -> nat
    decreases digits.len(),
{
    if digits.len() == 0 {
        0
    } else {
        (10 * digits_value(digits.drop_last()) + (digits.last() as u32 - 48)) as nat
    }
}

/// `text` without a plus sign at its start.
pub open spec fn unsigned_digits(text: Seq<char>) -> Seq<char> {
    if text.len() > 0 && text[0] == '+' {
        text.drop_first()
    } else {
        text
    }
}

/// The number that `text` writes, if it is one of 0 to `max`: an optional
/// plus sign and then one decimal digit or more, nothing else.
pub open spec fn parsed_unsigned(text: Seq<char>, max: nat) -> Option<nat> {
    let digits = unsigned_digits(text);
    if digits.len() > 0 && (forall|i: int| 0 <= i < digits.len() ==> is_digit(#[trigger] digits[i]))
        && digits_value(digits) <= max {
        Some(digits_value(digits))
    } else {
        None
    }
}

/// More digits never write a smaller number.
pub proof fn lemma_digits_value_grows(digits: Seq<char>, k: int)
    requires
        0 <= k <= digits.len(),
        forall|i: int| 0 <= i < digits.len() ==> is_digit(#[trigger] digits[i]),
    ensures
        digits_value(digits.take(k)) <= digits_value(digits),
    decreases digits.len() - k,
{
    if k == digits.len() {
        assert(digits.take(k) =~= digits);
    } else {
        let shorter = digits.drop_last();
        assert(shorter.take(k) =~= digits.take(k));
        assert(is_digit(digits[digits.len() - 1]));
        lemma_digits_value_grows(shorter, k);
    }
}

/// Reads `text` as a number of 0 to `max`, as the standard library reads
/// an unsigned integer: an optional plus sign and then decimal digits.
pub fn parse_unsigned(text: &str, max: u64) -> (value: Option<u64>)
    ensures
        match value {
            Some(v) => parsed_unsigned(text@, max as nat) == Some(v as nat),
            None => parsed_unsigned(text@, max as nat) is None,
        },
{
    let chars = chars_of(text);
    let start: usize = if chars.len() > 0 && chars[0] == '+' {
        1
    } else {
        0
    };
    let ghost digits = unsigned_digits(text@);
    assert(digits =~= text@.skip(start as int));
    if start == chars.len() {
        return None;
    }
    let mut value: u64 = 0;
    let mut i: usize = start;
    assert(digits.take(0) =~= Seq::<char>::empty());
    while i < chars.len()
        invariant
            start <= i <= chars.len(),
            start < chars.len(),
            chars@ == text@,
            digits == text@.skip(start as int),
            digits == unsigned_digits(text@),
            forall|j: int| 0 <= j < i - start ==> is_digit(#[trigger] digits[j]),
            value == digits_value(digits.take(i - start)),
            value <= max,
        decreases chars.len() - i,
    {
        let code = chars[i] as u32;
        if code < 48 || code > 57 {
            assert(!is_digit(digits[i - start]));
            return None;
        }
        let digit = (code - 48) as u64;
        let ghost longer = digits.take(i - start + 1);
        assert(longer.drop_last() =~= digits.take(i - start));
        assert(longer.last() == chars@[i as int]);
        if digit > max || value > (max - digit) / 10 {
            proof {
                assert(digits_value(longer) > max);
                if forall|j: int| 0 <= j < digits.len() ==> is_digit(#[trigger] digits[j]) {
                    lemma_digits_value_grows(digits, i - start + 1);
                }
            }
            return None;
        }
        value = value * 10 + digit;
        i += 1;
    }
    assert(digits.take(i - start) =~= digits);
    Some(value)
}

/// Where reports are sent: what the environment says, or the default.
pub fn server_url(configured: Option<String>) -> (url: String)
    ensures
        url@ == match configured {
            Some(value) => value@,
            None => default_server_url(),
        },
{
    match configured {
        Some(value) => value,
        None => String::from_str("http://127.0.0.1:3000/api/v1/events"),
    }
}

/// Seconds that a request may take: what the environment says where it is
/// a number, or the default.
pub fn timeout(configured: Option<String>) -> (seconds: u64)
    ensures
        seconds == match configured {
            Some(value) => match parsed_unsigned(value@, u64::MAX as nat) {
                Some(n) => n,
                None => DEFAULT_TIMEOUT as nat,
            },
            None => DEFAULT_TIMEOUT as nat,
        },
{
    match configured {
        Some(value) => match parse_unsigned(value.as_str(), u64::MAX) {
            Some(n) => n,
            None => DEFAULT_TIMEOUT,
        },
        None => DEFAULT_TIMEOUT,
    }
}

/// How many times a report is sent at most: what the environment says
/// where it is a number, or the default.
pub fn max_retries(configured: Option<String>) -> (attempts: u32)
    ensures
        attempts == match configured {
            Some(value) => match parsed_unsigned(value@, u32::MAX as nat) {
                Some(n) => n,
                None => DEFAULT_MAX_RETRIES as nat,
            },
            None => DEFAULT_MAX_RETRIES as nat,
        },
{
    match configured {
        Some(value) => match parse_unsigned(value.as_str(), u32::MAX as u64) {
            Some(n) => n as u32,
            None => DEFAULT_MAX_RETRIES,
        },
        None => DEFAULT_MAX_RETRIES,
    }
}

/// Milliseconds between two attempts: what the environment says where it
/// is a number, or the default.
pub fn retry_delay_ms(configured: Option<String>) -> (milliseconds: u64)
    ensures
        milliseconds == match configured {
            Some(value) => match parsed_unsigned(value@, u64::MAX as nat) {
                Some(n) => n,
                None => DEFAULT_RETRY_DELAY_MS as nat,
            },
            None => DEFAULT_RETRY_DELAY_MS as nat,
        },
{
    match configured {
        Some(value) => match parse_unsigned(value.as_str(), u64::MAX) {
            Some(n) => n,
            None => DEFAULT_RETRY_DELAY_MS,
        },
        None => DEFAULT_RETRY_DELAY_MS,
    }
}

/// The signature that the agent sends: what the environment says, or the
/// default.
pub fn user_agent(configured: Option<String>) -> (agent: String)
    ensures
        agent@ == match configured {
            Some(value) => value@,
            None => default_user_agent(),
        },
{
    match configured {
        Some(value) => value,
        None => String::from_str("Winlog/0.1.0"),
    }
}

} // verus!
