//! Verified helpers over the characters of strings.
//!
//! Every contract here speaks of a string through its view, the sequence of
//! its characters.

use vstd::prelude::*;
use vstd::string::*;

verus! {

/// The text of an optional string.
pub open spec fn opt_text(s: Option<String>) -> Option<Seq<char>> {
    match s {
        Some(t) => Some(t@),
        None => None,
    }
}

/// The text of an optional string slice.
pub open spec fn opt_str_text(s: Option<&str>) -> Option<Seq<char>> {
    match s {
        Some(t) => Some(t@),
        None => None,
    }
}

/// `a` sorts strictly before `b`: `a` is a proper prefix of `b`, or at the
/// first position where the two differ `a` holds the smaller code point.
/// This is also the order of the two strings' UTF-8 bytes.
pub open spec fn lex_lt(a: Seq<char>, b: Seq<char>) -> bool {
    exists|k: int| #[trigger] differ_at(a, b, k) && first_lower_at(a, b, k)
}

/// `a` and `b` agree on their first `k` characters and not on one more.
pub open spec fn differ_at(a: Seq<char>, b: Seq<char>, k: int) -> bool {
    &&& 0 <= k <= a.len()
    &&& k <= b.len()
    &&& a.take(k) == b.take(k)
    &&& (k < a.len() && k < b.len() ==> a[k] != b[k])
    &&& !(k == a.len() && k == b.len())
}

/// At position `k`, `a` has ended or holds a smaller code point than `b`.
pub open spec fn first_lower_at(a: Seq<char>, b: Seq<char>, k: int) -> bool {
    if k == a.len() {
        k < b.len()
    } else {
        k < b.len() && (a[k] as u32) < (b[k] as u32)
    }
}

/// How many characters of `s` stand before the first `sep`; all of them if
/// `sep` does not occur.
pub open spec fn field_len(s: Seq<char>, sep: char) -> nat
    decreases s.len(),
{
    if s.len() == 0 || s.first() == sep {
        0
    } else {
        1 + field_len(s.drop_first(), sep)
    }
}

/// The part of `s` before the first `sep`.
pub open spec fn first_field(s: Seq<char>, sep: char) -> Seq<char> {
    s.take(field_len(s, sep) as int)
}

/// Whether `c` is white space, as the standard library's
/// `char::is_whitespace` decides it.
pub uninterp spec fn is_white_space(c: char) -> bool;

/// For each character of `s`, whether it is white space.
pub open spec fn white_flags(s: Seq<char>) -> Seq<bool> {
    s.map_values(|c: char| is_white_space(c))
}

/// How many of the flags at the start of `white` are set.
pub open spec fn leading(white: Seq<bool>) -> nat
    decreases white.len(),
{
    if white.len() > 0 && white.first() {
        1 + leading(white.drop_first())
    } else {
        0
    }
}

/// How many of the flags at the end of `white` are set.
pub open spec fn trailing(white: Seq<bool>) -> nat
    decreases white.len(),
{
    if white.len() > 0 && white.last() {
        1 + trailing(white.drop_last())
    } else {
        0
    }
}

/// Where the part of a text begins and ends that is left once the white
/// space at its start, and then the white space at its end, is dropped;
/// `white` flags the characters that are white space.
pub open spec fn kept_range(white: Seq<bool>) -> (int, int) {
    let start = leading(white) as int;
    (start, white.len() - trailing(white.skip(start)))
}

/// `s` without the white space at either end.
pub open spec fn trimmed(s: Seq<char>) -> Seq<char> {
    let (start, end) = kept_range(white_flags(s));
    s.subrange(start, end)
}

/// The lower-case hexadecimal digit for `d`, meant for `d` below 16.
pub open spec fn hex_digit(d: int) -> char {
    "0123456789abcdef"@[d]
}

/// The lower-case hexadecimal rendering of `bytes`, two digits for each.
pub open spec fn hex_lower(bytes: Seq<u8>) -> Seq<char> {
    Seq::new(
        2 * bytes.len(),
        |i: int| hex_digit(if i % 2 == 0 { bytes[i / 2] as int / 16 } else { bytes[i / 2] as int % 16 }),
    )
}

/// The decimal rendering of `n`, without leading zeros.
pub open spec fn decimal(n: nat) -> Seq<char>
    decreases n,
{
    if n < 10 {
        seq![hex_digit(n as int)]
    } else {
        decimal(n / 10).push(hex_digit((n % 10) as int))
    }
}

/// The decimal rendering of `n`, with a minus sign where `n` is negative.
pub open spec fn signed_decimal(n: int) -> Seq<char> {
    if n < 0 {
        seq!['-'] + decimal((-n) as nat)
    } else {
        decimal(n as nat)
    }
}

/// Calls `char::is_whitespace` of the standard library. Trusted: the result
/// is the Unicode `White_Space` property of `c`, which the library knows
/// only by the name [`is_white_space`].
#[verifier::external_body]
fn white_space(c: char) -> (w: bool)
    ensures
        w == is_white_space(c),
{
    c.is_whitespace()
}

/// Two strings differ first at one position only.
pub proof fn lemma_differ_at_unique(a: Seq<char>, b: Seq<char>, k: int)
    requires
        differ_at(a, b, k),
    ensures
        forall|j: int| #[trigger] differ_at(a, b, j) ==> j == k,
        lex_lt(a, b) == first_lower_at(a, b, k),
{
    assert forall|j: int| #[trigger] differ_at(a, b, j) implies j == k by {
        if j < k {
            assert(a.take(k)[j] == b.take(k)[j]);
        } else if k < j {
            assert(a.take(j)[k] == b.take(j)[k]);
        }
    }
}

/// Two strings that are not the same differ first at some position.
pub proof fn lemma_first_difference(a: Seq<char>, b: Seq<char>)
    requires
        a != b,
    ensures
        exists|k: int| differ_at(a, b, k),
    decreases a.len(),
{
    if a.len() == 0 || b.len() == 0 {
        if a.len() == 0 && b.len() == 0 {
            assert(a =~= b);
        }
        assert(a.take(0) =~= b.take(0));
        assert(differ_at(a, b, 0));
    } else if a[0] != b[0] {
        assert(a.take(0) =~= b.take(0));
        assert(differ_at(a, b, 0));
    } else {
        let x = a.drop_first();
        let y = b.drop_first();
        if x == y {
            assert(a =~= seq![a[0]] + x);
            assert(b =~= seq![b[0]] + y);
        }
        lemma_first_difference(x, y);
        let k = choose|k: int| differ_at(x, y, k);
        assert(a.take(k + 1) =~= seq![a[0]] + x.take(k));
        assert(b.take(k + 1) =~= seq![b[0]] + y.take(k));
        assert(differ_at(a, b, k + 1));
    }
}

/// No string sorts before itself.
pub proof fn lemma_lex_lt_irreflexive(a: Seq<char>)
    ensures
        !lex_lt(a, a),
{
}

/// Of two strings that are not the same, exactly one sorts before the
/// other.
pub proof fn lemma_lex_lt_total(a: Seq<char>, b: Seq<char>)
    ensures
        a == b ==> !lex_lt(a, b) && !lex_lt(b, a),
        a != b ==> (lex_lt(a, b) <==> !lex_lt(b, a)),
{
    if a == b {
        lemma_lex_lt_irreflexive(a);
    } else {
        lemma_first_difference(a, b);
        let k = choose|k: int| differ_at(a, b, k);
        assert(differ_at(b, a, k));
        lemma_differ_at_unique(a, b, k);
        lemma_differ_at_unique(b, a, k);
        if k < a.len() && k < b.len() {
            vstd::utf8::char_u32_cast(a[k], a[k] as u32);
            vstd::utf8::char_u32_cast(b[k], b[k] as u32);
        }
    }
}

/// Sorting before is transitive.
pub proof fn lemma_lex_lt_transitive(a: Seq<char>, b: Seq<char>, c: Seq<char>)
    requires
        lex_lt(a, b),
        lex_lt(b, c),
    ensures
        lex_lt(a, c),
{
    let i = choose|i: int| #[trigger] differ_at(a, b, i) && first_lower_at(a, b, i);
    let j = choose|j: int| #[trigger] differ_at(b, c, j) && first_lower_at(b, c, j);
    let k = if i <= j {
        i
    } else {
        j
    };
    assert(a.take(k) =~= c.take(k)) by {
        assert forall|n: int| 0 <= n < k implies a[n] == c[n] by {
            assert(a.take(i)[n] == b.take(i)[n]);
            assert(b.take(j)[n] == c.take(j)[n]);
        }
    }
    if i < j {
        assert(b.take(j)[i] == c.take(j)[i]);
    } else if j < i {
        assert(a.take(i)[j] == b.take(i)[j]);
    }
    assert(differ_at(a, c, k) && first_lower_at(a, c, k));
}

/// The characters of `s`, in order.
pub fn chars_of(s: &str) -> (out: Vec<char>)
    ensures
        out@ == s@,
{
    let mut out: Vec<char> = Vec::new();
    for c in it: s.chars()
        invariant
            out@ == it.seq().take(it.index() as int),
    {
        out.push(c);
    }
    out
}

/// Whether two strings hold the same characters.
pub fn text_eq(a: &str, b: &str) -> (same: bool)
    ensures
        same == (a@ == b@),
{
    let x = chars_of(a);
    let y = chars_of(b);
    if x.len() != y.len() {
        return false;
    }
    let mut i: usize = 0;
    while i < x.len()
        invariant
            i <= x.len(),
            x.len() == y.len(),
            x@ == a@,
            y@ == b@,
            x@.take(i as int) == y@.take(i as int),
        decreases x.len() - i,
    {
        if x[i] != y[i] {
            return false;
        }
        assert(x@.take(i + 1) =~= x@.take(i as int).push(x@[i as int]));
        assert(y@.take(i + 1) =~= y@.take(i as int).push(y@[i as int]));
        i += 1;
    }
    assert(x@ =~= x@.take(i as int));
    assert(y@ =~= y@.take(i as int));
    true
}

/// Whether `s` begins with `prefix`.
pub fn starts_with(s: &str, prefix: &str) -> (found: bool)
    ensures
        found == prefix@.is_prefix_of(s@),
{
    let x = chars_of(s);
    let p = chars_of(prefix);
    if p.len() > x.len() {
        return false;
    }
    let mut i: usize = 0;
    while i < p.len()
        invariant
            i <= p.len() <= x.len(),
            x@ == s@,
            p@ == prefix@,
            x@.take(i as int) == p@.take(i as int),
        decreases p.len() - i,
    {
        if x[i] != p[i] {
            assert(x@.subrange(0, p@.len() as int)[i as int] == x@[i as int]);
            return false;
        }
        assert(x@.take(i + 1) =~= x@.take(i as int).push(x@[i as int]));
        assert(p@.take(i + 1) =~= p@.take(i as int).push(p@[i as int]));
        i += 1;
    }
    assert(p@ =~= p@.take(i as int));
    assert(p@ =~= x@.subrange(0, p@.len() as int));
    true
}

/// Whether the character `c` occurs in `s`.
pub fn contains_char(s: &str, c: char) -> (found: bool)
    ensures
        found == s@.contains(c),
{
    let x = chars_of(s);
    let mut i: usize = 0;
    while i < x.len()
        invariant
            i <= x.len(),
            x@ == s@,
            forall|j: int| 0 <= j < i ==> x@[j] != c,
        decreases x.len() - i,
    {
        if x[i] == c {
            return true;
        }
        i += 1;
    }
    false
}

/// Whether `a` sorts strictly before `b`.
pub fn sorts_before(a: &str, b: &str) -> (before: bool)
    ensures
        before == lex_lt(a@, b@),
{
    let x = chars_of(a);
    let y = chars_of(b);
    let mut i: usize = 0;
    while i < x.len() && i < y.len()
        invariant
            i <= x.len(),
            i <= y.len(),
            x@ == a@,
            y@ == b@,
            x@.take(i as int) == y@.take(i as int),
        decreases x.len() - i,
    {
        if x[i] != y[i] {
            let lower = (x[i] as u32) < (y[i] as u32);
            proof {
                lemma_differ_at_unique(x@, y@, i as int);
            }
            return lower;
        }
        assert(x@.take(i + 1) =~= x@.take(i as int).push(x@[i as int]));
        assert(y@.take(i + 1) =~= y@.take(i as int).push(y@[i as int]));
        i += 1;
    }
    let shorter = i < y.len();
    proof {
        if x.len() == y.len() {
            assert(x@ =~= x@.take(i as int));
            assert(y@ =~= y@.take(i as int));
            lemma_lex_lt_irreflexive(x@);
        } else {
            lemma_differ_at_unique(x@, y@, i as int);
        }
    }
    shorter
}

/// The part of `s` before the first `sep`, or all of `s` where `sep` does
/// not occur.
pub fn before_first<'a>(s: &'a str, sep: char) -> (field: &'a str)
    ensures
        field@ == first_field(s@, sep),
{
    let x = chars_of(s);
    let mut i: usize = 0;
    assert(s@.skip(0) =~= s@);
    while i < x.len() && x[i] != sep
        invariant
            i <= x.len(),
            x@ == s@,
            field_len(s@, sep) == i + field_len(s@.skip(i as int), sep),
        decreases x.len() - i,
    {
        assert(s@.skip(i as int).drop_first() =~= s@.skip(i + 1));
        i += 1;
    }
    assert(field_len(s@.skip(i as int), sep) == 0);
    s.substring_char(0, i)
}

/// Where the part of a text begins and ends that is left once the white
/// space at either end is dropped; `white` flags the characters that are
/// white space.
pub fn trim_bounds(white: &Vec<bool>) -> (bounds: (usize, usize))
    ensures
        (bounds.0 as int, bounds.1 as int) == kept_range(white@),
        bounds.0 <= bounds.1 <= white@.len(),
{
    let mut start: usize = 0;
    assert(white@.skip(0) =~= white@);
    while start < white.len() && white[start]
        invariant
            start <= white@.len(),
            leading(white@) == start + leading(white@.skip(start as int)),
        decreases white@.len() - start,
    {
        assert(white@.skip(start as int).drop_first() =~= white@.skip(start + 1));
        start += 1;
    }
    let ghost rest = white@.skip(start as int);
    let mut end: usize = white.len();
    assert(rest.take(end - start) =~= rest);
    while end > start && white[end - 1]
        invariant
            start <= end <= white@.len(),
            rest == white@.skip(start as int),
            trailing(rest) == (white@.len() - end) + trailing(rest.take(end - start)),
        decreases end,
    {
        assert(rest.take(end - start).drop_last() =~= rest.take(end - start - 1));
        end -= 1;
    }
    (start, end)
}

/// `s` without the white space at either end.
pub fn trim<'a>(s: &'a str) -> (t: &'a str)
    ensures
        t@ == trimmed(s@),
{
    let x = chars_of(s);
    let mut white: Vec<bool> = Vec::new();
    let mut i: usize = 0;
    while i < x.len()
        invariant
            i <= x@.len(),
            x@ == s@,
            white@ == white_flags(s@.take(i as int)),
        decreases x@.len() - i,
    {
        white.push(white_space(x[i]));
        assert(white@ =~= white_flags(s@.take(i + 1)));
        i += 1;
    }
    assert(s@.take(i as int) =~= s@);
    let (start, end) = trim_bounds(&white);
    s.substring_char(start, end)
}

/// The one-character string that holds the digit `d`.
fn digit_text(d: u8) -> (s: &'static str)
    requires
        d < 16,
    ensures
        s@ == seq![hex_digit(d as int)],
{
    proof {
        reveal_strlit("0123456789abcdef");
    }
    let all = "0123456789abcdef";
    all.substring_char(d as usize, d as usize + 1)
}

/// Appends the decimal rendering of `n` to `out`.
fn push_decimal(out: &mut String, n: u64)
    ensures
        final(out)@ == old(out)@ + decimal(n as nat),
    decreases n,
{
    if n >= 10 {
        push_decimal(out, n / 10);
    }
    out.append(digit_text((n % 10) as u8));
}

/// The decimal rendering of `n`.
pub fn decimal_text(n: u64) -> (s: String)
    ensures
        s@ == decimal(n as nat),
{
    let mut s = String::new();
    push_decimal(&mut s, n);
    s
}

/// The decimal rendering of `n`, with its sign where it is negative.
pub fn signed_decimal_text(n: i64) -> (s: String)
    ensures
        s@ == signed_decimal(n as int),
{
    let mut s = String::new();
    if n < 0 {
        s.append("-");
        proof {
            reveal_strlit("-");
        }
        let magnitude: u64 = ((-(n + 1)) as u64) + 1;
        push_decimal(&mut s, magnitude);
    } else {
        push_decimal(&mut s, n as u64);
    }
    s
}

/// The lower-case hexadecimal rendering of `bytes`.
pub fn hex_text(bytes: &[u8]) -> (s: String)
    ensures
        s@ == hex_lower(bytes@),
{
    let mut s = String::new();
    let mut i: usize = 0;
    while i < bytes.len()
        invariant
            i <= bytes.len(),
            s@ == hex_lower(bytes@.take(i as int)),
        decreases bytes.len() - i,
    {
        let b = bytes[i];
        let ghost before = s@;
        s.append(digit_text(b / 16));
        s.append(digit_text(b % 16));
        assert(s@ =~= hex_lower(bytes@.take(i + 1))) by {
            assert(s@ == before.push(hex_digit(b as int / 16)).push(hex_digit(b as int % 16)));
            assert forall|j: int| 0 <= j < 2 * (i + 1) implies s@[j] == hex_lower(
                bytes@.take(i + 1),
            )[j] by {
                if j < 2 * i {
                    assert(bytes@.take(i as int)[j / 2] == bytes@.take(i + 1)[j / 2]);
                }
            }
        }
        i += 1;
    }
    assert(bytes@.take(i as int) =~= bytes@);
    s
}

} // verus!
