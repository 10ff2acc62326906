//! Phone-number handling, relative time stamps, message truncation and
//! vCard parsing for the SMS window.

use crate::clock::unix_time_secs;
use crate::text::{
    before_char, chars_eq, chars_of, concat_chars, contains_chars, contains_seq, decimal,
    find_char, first_index_of, lines_chars, lines_of, push_decimal, slice_chars,
    ascii_upper, is_ascii_text, lossy_utf8, str_to_uppercase, string_from_utf8_lossy, string_of,
    trim, trim_bounds, trim_chars, trim_start, trim_start_chars, uppercase,
};
use vstd::utf8::{encode_scalar, encode_utf8, has_width_1_encoding, valid_utf8};
use vstd::prelude::*;
use vstd::string::StringExecFns;

verus! {

broadcast use vstd::string::group_string_axioms;

// ---------------------------------------------------------------------------
// Phone numbers
// ---------------------------------------------------------------------------

pub open spec fn is_ascii_digit(c: char) -> bool {
    48 <= (c as u32) <= 57
}

/// The ASCII digits of `s`, in order.
pub open spec fn digits_of(s: Seq<char>) -> Seq<char>
    decreases s.len(),
{
    if s.len() == 0 {
        Seq::empty()
    } else if is_ascii_digit(s.last()) {
        digits_of(s.drop_last()).push(s.last())
    } else {
        digits_of(s.drop_last())
    }
}

/// Normalizes a phone number by removing all non-digit characters.
pub fn normalize_phone_number(phone: &str) -> (r: String)
    ensures
        r@ == digits_of(phone@),
{
    let cs = chars_of(phone);
    let mut r = String::new();
    let mut i: usize = 0;
    while i < cs.len()
        invariant
            i <= cs@.len(),
            cs@ == phone@,
            r@ == digits_of(cs@.take(i as int)),
        decreases cs.len() - i,
    {
        proof {
            assert(cs@.take(i + 1).drop_last() =~= cs@.take(i as int));
        }
        let c = cs[i];
        let u = c as u32;
        if 48 <= u && u <= 57 {
            r.push(c);
        }
        i += 1;
    }
    assert(cs@.take(i as int) =~= phone@);
    r
}

/// Whether two digit strings name the same number: equal, equal up to a
/// leading US country code `1` on an eleven-digit side against ten digits,
/// or, failing both, equal in their last seven digits.
pub open spec fn digits_match(n1: Seq<char>, n2: Seq<char>) -> bool {
    if n1 == n2 {
        true
    } else if n1.len() == 10 && n2.len() == 11 && n2[0] == '1' {
        n1 == n2.drop_first()
    } else if n2.len() == 10 && n1.len() == 11 && n1[0] == '1' {
        n2 == n1.drop_first()
    } else if n1.len() >= 7 && n2.len() >= 7 {
        n1.skip(n1.len() - 7) == n2.skip(n2.len() - 7)
    } else {
        false
    }
}

pub open spec fn numbers_match(phone1: Seq<char>, phone2: Seq<char>) -> bool {
    digits_match(digits_of(phone1), digits_of(phone2))
}

/// Checks if two phone numbers match, handling various formats: exact
/// matches, a US country code (+1) on one side, and the last seven digits
/// for international numbers.
pub fn phone_numbers_match(phone1: &str, phone2: &str) -> (r: bool)
    ensures
        r == numbers_match(phone1@, phone2@),
{
    let s1 = normalize_phone_number(phone1);
    let s2 = normalize_phone_number(phone2);
    let n1 = chars_of(s1.as_str());
    let n2 = chars_of(s2.as_str());
    if chars_eq(&n1, &n2) {
        return true;
    }
    if n1.len() == 10 && n2.len() == 11 && n2[0] == '1' {
        let tail = slice_chars(&n2, 1, 11);
        assert(tail@ =~= n2@.drop_first());
        return chars_eq(&n1, &tail);
    }
    if n2.len() == 10 && n1.len() == 11 && n1[0] == '1' {
        let tail = slice_chars(&n1, 1, 11);
        assert(tail@ =~= n1@.drop_first());
        return chars_eq(&n2, &tail);
    }
    if n1.len() >= 7 && n2.len() >= 7 {
        let last1 = slice_chars(&n1, n1.len() - 7, n1.len());
        let last2 = slice_chars(&n2, n2.len() - 7, n2.len());
        assert(last1@ =~= n1@.skip(n1@.len() - 7));
        assert(last2@ =~= n2@.skip(n2@.len() - 7));
        if chars_eq(&last1, &last2) {
            return true;
        }
    }
    false
}

// ---------------------------------------------------------------------------
// Laws of phone-number matching
// ---------------------------------------------------------------------------

/// The normalized form holds digits only.
pub proof fn law_normalized_is_digits(s: Seq<char>)
    ensures
        forall|i: int| 0 <= i < digits_of(s).len() ==> is_ascii_digit(#[trigger] digits_of(s)[i]),
    decreases s.len(),
{
    if s.len() > 0 {
        law_normalized_is_digits(s.drop_last());
        let d = digits_of(s.drop_last());
        assert forall|i: int| 0 <= i < digits_of(s).len() implies is_ascii_digit(
            #[trigger] digits_of(s)[i],
        ) by {
            if i < d.len() {
                assert(is_ascii_digit(d[i]));
            }
        }
    }
}

/// Normalizing a normalized number changes nothing.
pub proof fn law_normalize_idempotent(s: Seq<char>)
    ensures
        digits_of(digits_of(s)) == digits_of(s),
    decreases s.len(),
{
    if s.len() > 0 {
        law_normalize_idempotent(s.drop_last());
        if is_ascii_digit(s.last()) {
            assert(digits_of(s).drop_last() =~= digits_of(s.drop_last()));
        }
    }
}

/// Every number matches itself.
pub proof fn law_match_reflexive(p: Seq<char>)
    ensures
        numbers_match(p, p),
{
}

/// Matching does not depend on the order of the two numbers.
pub proof fn law_match_symmetric(p1: Seq<char>, p2: Seq<char>)
    ensures
        numbers_match(p1, p2) == numbers_match(p2, p1),
{
}

/// Whether two numbers match depends only on their digits.
pub proof fn law_match_by_digits(p1: Seq<char>, p2: Seq<char>)
    ensures
        numbers_match(p1, p2) == numbers_match(digits_of(p1), digits_of(p2)),
{
    law_normalize_idempotent(p1);
    law_normalize_idempotent(p2);
}

/// A ten-digit number matches itself written with the US country code
/// `1` in front, either way round.
pub proof fn law_match_us_country_code(d: Seq<char>)
    requires
        d.len() == 10,
        forall|i: int| 0 <= i < d.len() ==> is_ascii_digit(#[trigger] d[i]),
    ensures
        numbers_match(seq!['1'] + d, d),
        numbers_match(d, seq!['1'] + d),
{
    lemma_digits_of_digits(d);
    lemma_digits_of_digits(seq!['1'] + d);
    assert((seq!['1'] + d).drop_first() =~= d);
}

/// Two numbers of at least seven digits that end in the same seven digits
/// match, unless one has ten digits and the other eleven starting with
/// `1`: then only the US country-code rule decides.
pub proof fn law_match_last_seven_digits(p1: Seq<char>, p2: Seq<char>)
    requires
        digits_of(p1).len() >= 7,
        digits_of(p2).len() >= 7,
        digits_of(p1).skip(digits_of(p1).len() - 7) == digits_of(p2).skip(digits_of(p2).len() - 7),
        !(digits_of(p1).len() == 10 && digits_of(p2).len() == 11 && digits_of(p2)[0] == '1'),
        !(digits_of(p2).len() == 10 && digits_of(p1).len() == 11 && digits_of(p1)[0] == '1'),
    ensures
        numbers_match(p1, p2),
{
}

/// Two numbers match only for a reason: their digits are equal, or one is
/// the other's ten digits behind the US country code `1`, or both have at
/// least seven digits and their last seven digits agree position by
/// position.
pub proof fn law_match_needs_reason(p1: Seq<char>, p2: Seq<char>)
    ensures
        numbers_match(p1, p2) ==> {
            let n1 = digits_of(p1);
            let n2 = digits_of(p2);
            ||| n1 == n2
            ||| (n1.len() == 10 && n2.len() == 11 && n2[0] == '1' && forall|k: int|
                0 <= k < 10 ==> #[trigger] n1[k] == n2[k + 1])
            ||| (n2.len() == 10 && n1.len() == 11 && n1[0] == '1' && forall|k: int|
                0 <= k < 10 ==> #[trigger] n2[k] == n1[k + 1])
            ||| (n1.len() >= 7 && n2.len() >= 7 && forall|k: int|
                0 <= k < 7 ==> #[trigger] n1[n1.len() - 7 + k] == n2[n2.len() - 7 + k])
        },
{
    let n1 = digits_of(p1);
    let n2 = digits_of(p2);
    if numbers_match(p1, p2) && n1 != n2 {
        if n1.len() == 10 && n2.len() == 11 && n2[0] == '1' {
            assert forall|k: int| 0 <= k < 10 implies #[trigger] n1[k] == n2[k + 1] by {
                assert(n2.drop_first()[k] == n2[k + 1]);
            }
        } else if n2.len() == 10 && n1.len() == 11 && n1[0] == '1' {
            assert forall|k: int| 0 <= k < 10 implies #[trigger] n2[k] == n1[k + 1] by {
                assert(n1.drop_first()[k] == n1[k + 1]);
            }
        } else {
            assert forall|k: int| 0 <= k < 7 implies #[trigger] n1[n1.len() - 7 + k] == n2[n2.len()
                - 7 + k] by {
                assert(n1.skip(n1.len() - 7)[k] == n1[n1.len() - 7 + k]);
                assert(n2.skip(n2.len() - 7)[k] == n2[n2.len() - 7 + k]);
            }
        }
    }
}

/// A sequence of digits is its own digit string.
proof fn lemma_digits_of_digits(d: Seq<char>)
    requires
        forall|i: int| 0 <= i < d.len() ==> is_ascii_digit(#[trigger] d[i]),
    ensures
        digits_of(d) == d,
    decreases d.len(),
{
    if d.len() > 0 {
        lemma_digits_of_digits(d.drop_last());
        assert(d.drop_last().push(d.last()) =~= d);
    }
}

// ---------------------------------------------------------------------------
// Truncation
// ---------------------------------------------------------------------------

/// `s` when it has fewer than `max_len` characters, else its first
/// `max_len` characters followed by `...`.
pub open spec fn truncated_message(s: Seq<char>, max_len: nat) -> Seq<char> {
    if s.len() < max_len {
        s
    } else {
        s.take(max_len as int) + seq!['.', '.', '.']
    }
}

pub fn truncate_message(s: &str, max_len: usize) -> (r: String)
    ensures
        r@ == truncated_message(s@, max_len as nat),
{
    let cs = chars_of(s);
    if cs.len() < max_len {
        return string_of(&cs);
    }
    let mut out = slice_chars(&cs, 0, max_len);
    out.push('.');
    out.push('.');
    out.push('.');
    assert(out@ =~= s@.take(max_len as int) + seq!['.', '.', '.']);
    string_of(&out)
}

/// A truncated message holds at most `max_len` characters of the message
/// and the three dots, and begins as the message does.
pub proof fn law_truncation_bounded(s: Seq<char>, max_len: nat)
    ensures
        truncated_message(s, max_len).len() <= max_len + 3,
        forall|i: int|
            0 <= i < s.len() && i < max_len ==> #[trigger] truncated_message(s, max_len)[i] == s[i],
{
}

// ---------------------------------------------------------------------------
// Relative time stamps
// ---------------------------------------------------------------------------

/// Integer division rounding toward zero, as Rust's `/` does.
pub open spec fn trunc_div(a: int, b: int) -> int {
    if a >= 0 {
        a / b
    } else {
        -((-a) / b)
    }
}

/// How long ago a time stamp in milliseconds was, seen at `now` seconds.
pub open spec fn relative_time(now_secs: int, timestamp_ms: int) -> Seq<char> {
    let d = now_secs - trunc_div(timestamp_ms, 1000);
    if d < 60 {
        "Just now"@
    } else if d < 3600 {
        decimal((d / 60) as nat) + " min ago"@
    } else if d < 86400 {
        decimal((d / 3600) as nat) + " hours ago"@
    } else if d < 604800 {
        decimal((d / 86400) as nat) + " days ago"@
    } else {
        "More than a week ago"@
    }
}

/// A number followed by a fixed suffix.
fn count_with_suffix(n: u64, suffix: &str) -> (r: String)
    ensures
        r@ == decimal(n as nat) + suffix@,
{
    let mut digits: Vec<char> = Vec::new();
    push_decimal(&mut digits, n);
    assert(digits@ =~= decimal(n as nat));
    let mut r = string_of(&digits);
    r.append(suffix);
    r
}

/// The relative time of `timestamp` (milliseconds) as seen at `now_secs`.
pub fn format_relative_time(now_secs: i64, timestamp: i64) -> (r: String)
    ensures
        r@ == relative_time(now_secs as int, timestamp as int),
{
    let ts = timestamp as i128;
    let secs: i128 = if ts >= 0 {
        ts / 1000
    } else {
        -((-ts) / 1000)
    };
    let d: i128 = now_secs as i128 - secs;
    if d < 60 {
        "Just now".to_string()
    } else if d < 3600 {
        count_with_suffix((d / 60) as u64, " min ago")
    } else if d < 86400 {
        count_with_suffix((d / 3600) as u64, " hours ago")
    } else if d < 604800 {
        count_with_suffix((d / 86400) as u64, " days ago")
    } else {
        "More than a week ago".to_string()
    }
}

/// Formats a Unix timestamp (in milliseconds) to a human-readable relative
/// time, as seen from the current clock reading.
pub fn format_timestamp(timestamp: i64) -> (r: String)
    ensures
        exists|now: int| r@ == relative_time(now, timestamp as int),
{
    let now = unix_time_secs() as i64;
    format_relative_time(now, timestamp)
}

/// Returns the current time in milliseconds since Unix epoch.
pub fn now_millis() -> i64 {
    crate::clock::unix_time_millis() as i64
}

// ---------------------------------------------------------------------------
// Quoted-printable
// ---------------------------------------------------------------------------

pub open spec fn is_hex_byte(b: u8) -> bool {
    (48 <= b <= 57) || (65 <= b <= 70) || (97 <= b <= 102)
}

pub open spec fn hex_value(b: u8) -> int {
    if b <= 57 {
        b - 48
    } else if b <= 70 {
        b - 55
    } else {
        b - 87
    }
}

/// Quoted-printable decoding of bytes: each `=` followed by two hex digits
/// becomes the byte they spell; every other byte is kept.
pub open spec fn qp_decode(b: Seq<u8>) -> Seq<u8>
    decreases b.len(),
{
    if b.len() == 0 {
        Seq::empty()
    } else if b[0] == 61 && b.len() > 2 && is_hex_byte(b[1]) && is_hex_byte(b[2]) {
        seq![(hex_value(b[1]) * 16 + hex_value(b[2])) as u8] + qp_decode(b.skip(3))
    } else {
        seq![b[0]] + qp_decode(b.drop_first())
    }
}

/// The text that `decode_quoted_printable` makes of `s`: the decoded bytes
/// read as UTF-8 when they are valid UTF-8, and otherwise what
/// `String::from_utf8_lossy` makes of them.
pub open spec fn quoted_printable_text(s: Seq<char>) -> Seq<char> {
    lossy_utf8(qp_decode(encode_utf8(s)))
}

fn hex_digit_value(b: u8) -> (r: u8)
    requires
        is_hex_byte(b),
    ensures
        r == hex_value(b),
        r < 16,
{
    if b <= 57 {
        b - 48
    } else if b <= 70 {
        b - 55
    } else {
        b - 87
    }
}

fn is_hex(b: u8) -> (r: bool)
    ensures
        r == is_hex_byte(b),
{
    (48 <= b && b <= 57) || (65 <= b && b <= 70) || (97 <= b && b <= 102)
}

/// Quoted-printable decoding of a byte string.
pub fn qp_decode_bytes(bytes: &[u8]) -> (out: Vec<u8>)
    ensures
        out@ == qp_decode(bytes@),
{
    let mut out: Vec<u8> = Vec::new();
    let mut i: usize = 0;
    assert(bytes@.skip(0) =~= bytes@);
    while i < bytes.len()
        invariant
            i <= bytes@.len(),
            out@ + qp_decode(bytes@.skip(i as int)) == qp_decode(bytes@),
        decreases bytes.len() - i,
    {
        let ghost rest = bytes@.skip(i as int);
        if bytes[i] == 61 && bytes.len() - i > 2 && is_hex(bytes[i + 1]) && is_hex(bytes[i + 2]) {
            let hi = hex_digit_value(bytes[i + 1]);
            let lo = hex_digit_value(bytes[i + 2]);
            let byte: u8 = hi * 16 + lo;
            proof {
                assert(rest[0] == 61 && rest.len() > 2 && rest[1] == bytes@[i + 1] && rest[2]
                    == bytes@[i + 2]);
                assert(rest.skip(3) =~= bytes@.skip(i + 3));
                assert(out@.push(byte) + qp_decode(bytes@.skip(i + 3)) =~= out@ + qp_decode(
                    rest,
                ));
            }
            out.push(byte);
            i += 3;
        } else {
            proof {
                assert(rest.drop_first() =~= bytes@.skip(i + 1));
                assert(out@.push(bytes@[i as int]) + qp_decode(bytes@.skip(i + 1)) =~= out@
                    + qp_decode(rest));
            }
            out.push(bytes[i]);
            i += 1;
        }
    }
    assert(bytes@.skip(i as int) =~= Seq::<u8>::empty());
    assert(out@ + qp_decode(Seq::<u8>::empty()) =~= out@);
    out
}

proof fn lemma_marked_bytes(x: u8)
    by (bit_vector)
    ensures
        (0x80u8 | x) != 61u8,
        (0xC0u8 | x) != 61u8,
        (0xE0u8 | x) != 61u8,
        (0xF0u8 | x) != 61u8,
{
}

proof fn lemma_ascii_byte(v: u32)
    by (bit_vector)
    requires
        v <= 0x7F,
        v != 61,
    ensures
        ((v & 0x7F) as u8) != 61u8,
{
}

/// The UTF-8 encoding of a character other than `=` holds no `=` byte.
proof fn lemma_encode_scalar_no_equals(c: char)
    requires
        c != '=',
    ensures
        !encode_scalar(c as u32).contains(61u8),
{
    let v = c as u32;
    if has_width_1_encoding(v) {
        lemma_ascii_byte(v);
        assert(encode_scalar(v)[0] != 61u8);
    } else {
        lemma_marked_bytes(((v >> 6) & 0x1F) as u8);
        lemma_marked_bytes(((v >> 12) & 0x0F) as u8);
        lemma_marked_bytes(((v >> 18) & 0x7) as u8);
        lemma_marked_bytes((v & 0x3F) as u8);
        lemma_marked_bytes(((v >> 6) & 0x3F) as u8);
        lemma_marked_bytes(((v >> 12) & 0x3F) as u8);
        let e = encode_scalar(v);
        assert forall|i: int| 0 <= i < e.len() implies e[i] != 61u8 by {}
    }
}

proof fn lemma_encode_no_equals(s: Seq<char>)
    requires
        !s.contains('='),
    ensures
        !encode_utf8(s).contains(61u8),
    decreases s.len(),
{
    if s.len() > 0 {
        assert(s[0] != '=');
        lemma_encode_scalar_no_equals(s[0]);
        assert(!s.drop_first().contains('=')) by {
            if s.drop_first().contains('=') {
                let i = choose|i: int| 0 <= i < s.drop_first().len() && s.drop_first()[i] == '=';
                assert(s[i + 1] == '=');
            }
        }
        lemma_encode_no_equals(s.drop_first());
        let a = encode_scalar(s[0] as u32);
        let b = encode_utf8(s.drop_first());
        assert forall|i: int| 0 <= i < (a + b).len() implies (a + b)[i] != 61u8 by {
            if i < a.len() {
                assert((a + b)[i] == a[i]);
            } else {
                assert((a + b)[i] == b[i - a.len()]);
            }
        }
    }
}

/// Bytes without `=` come through quoted-printable decoding unchanged.
proof fn lemma_qp_decode_identity(b: Seq<u8>)
    requires
        !b.contains(61u8),
    ensures
        qp_decode(b) == b,
    decreases b.len(),
{
    if b.len() > 0 {
        assert(b[0] != 61u8);
        assert(!b.drop_first().contains(61u8)) by {
            if b.drop_first().contains(61u8) {
                let i = choose|i: int| 0 <= i < b.drop_first().len() && b.drop_first()[i] == 61u8;
                assert(b[i + 1] == 61u8);
            }
        }
        lemma_qp_decode_identity(b.drop_first());
        assert(seq![b[0]] + b.drop_first() =~= b);
    }
}

/// Decodes quoted-printable escapes in `input`; the bytes that result are
/// read as UTF-8, with invalid sequences replaced. Text without `=` comes
/// back unchanged.
pub fn decode_quoted_printable(input: &str) -> (r: String)
    ensures
        r@ == quoted_printable_text(input@),
        !valid_utf8(qp_decode(encode_utf8(input@))) ==> r@.contains('\u{FFFD}'),
        !input@.contains('=') ==> r@ == input@,
{
    let bytes = input.as_bytes();
    let out = qp_decode_bytes(bytes);
    proof {
        if !input@.contains('=') {
            lemma_encode_no_equals(input@);
            lemma_qp_decode_identity(encode_utf8(input@));
            vstd::utf8::encode_utf8_valid_utf8(input@);
            vstd::utf8::encode_utf8_decode_utf8(input@);
        }
    }
    string_from_utf8_lossy(out.as_slice())
}

// ---------------------------------------------------------------------------
// vCard line unfolding
// ---------------------------------------------------------------------------

/// A vCard 3.0/4.0 continuation line starts with a space or a tab.
pub open spec fn is_folded(line: Seq<char>) -> bool {
    line.len() > 0 && (line[0] == ' ' || line[0] == '\t')
}

/// One step of unfolding: `state` is (finished lines, line being built).
pub open spec fn unfold_step(state: (Seq<Seq<char>>, Seq<char>), line: Seq<char>) -> (
    Seq<Seq<char>>,
    Seq<char>,
) {
    let done = state.0;
    let cur = state.1;
    if is_folded(line) {
        (done, cur + trim_start(line))
    } else if cur.len() > 0 && cur.last() == '=' {
        (done, cur.drop_last() + trim_start(line))
    } else if cur.len() > 0 {
        (done.push(cur), line)
    } else {
        (done, line)
    }
}

pub open spec fn unfold_fold(lines: Seq<Seq<char>>) -> (Seq<Seq<char>>, Seq<char>)
    decreases lines.len(),
{
    if lines.len() == 0 {
        (Seq::empty(), Seq::empty())
    } else {
        unfold_step(unfold_fold(lines.drop_last()), lines.last())
    }
}

/// The logical lines of a vCard: folded continuation lines (leading space
/// or tab) and quoted-printable soft breaks (a line ending in `=`) are
/// joined to the line before, and empty logical lines are dropped.
pub open spec fn unfolded_lines(content: Seq<char>) -> Seq<Seq<char>> {
    let st = unfold_fold(lines_of(content));
    if st.1.len() > 0 {
        st.0.push(st.1)
    } else {
        st.0
    }
}

/// The logical lines of `content`, as character vectors.
fn unfold_chars(content: &[char]) -> (r: Vec<Vec<char>>)
    ensures
        r@.len() == unfolded_lines(content@).len(),
        forall|i: int| 0 <= i < r@.len() ==> #[trigger] r@[i]@ == unfolded_lines(content@)[i],
{
    let lines = lines_chars(content);
    let ghost ls = lines_of(content@);
    let mut done: Vec<Vec<char>> = Vec::new();
    let mut cur: Vec<char> = Vec::new();
    let mut i: usize = 0;
    while i < lines.len()
        invariant
            i <= lines@.len(),
            lines@.len() == ls.len(),
            forall|k: int| 0 <= k < lines@.len() ==> #[trigger] lines@[k]@ == ls[k],
            done@.len() == unfold_fold(ls.take(i as int)).0.len(),
            forall|k: int|
                0 <= k < done@.len() ==> #[trigger] done@[k]@ == unfold_fold(ls.take(i as int)).0[k],
            cur@ == unfold_fold(ls.take(i as int)).1,
        decreases lines.len() - i,
    {
        proof {
            assert(ls.take(i + 1).drop_last() =~= ls.take(i as int));
            assert(ls.take(i + 1).last() == ls[i as int]);
        }
        let line = &lines[i];
        if line.len() > 0 && (line[0] == ' ' || line[0] == '\t') {
            let t = trim_start_chars(line);
            cur = concat_chars(&cur, &t);
        } else if cur.len() > 0 && cur[cur.len() - 1] == '=' {
            let t = trim_start_chars(line);
            let n = cur.len() - 1;
            let head = slice_chars(&cur, 0, n);
            assert(head@ =~= cur@.drop_last());
            cur = concat_chars(&head, &t);
        } else if cur.len() > 0 {
            let mut other = slice_chars(line, 0, line.len());
            assert(other@ =~= line@);
            std::mem::swap(&mut cur, &mut other);
            done.push(other);
        } else {
            cur = slice_chars(line, 0, line.len());
            assert(cur@ =~= line@);
        }
        i += 1;
    }
    proof {
        assert(ls.take(i as int) =~= ls);
    }
    if cur.len() > 0 {
        done.push(cur);
    }
    done
}

/// Joins folded vCard lines into logical lines.
pub fn unfold_vcard_lines(content: &str) -> (r: Vec<String>)
    ensures
        r@.len() == unfolded_lines(content@).len(),
        forall|i: int| 0 <= i < r@.len() ==> #[trigger] r@[i]@ == unfolded_lines(content@)[i],
{
    let cs = chars_of(content);
    let lines = unfold_chars(&cs);
    let mut r: Vec<String> = Vec::new();
    let mut i: usize = 0;
    while i < lines.len()
        invariant
            i <= lines@.len(),
            cs@ == content@,
            lines@.len() == unfolded_lines(content@).len(),
            forall|k: int| 0 <= k < lines@.len() ==> #[trigger] lines@[k]@ == unfolded_lines(content@)[k],
            r@.len() == i,
            forall|k: int| 0 <= k < i ==> #[trigger] r@[k]@ == unfolded_lines(content@)[k],
        decreases lines.len() - i,
    {
        r.push(string_of(&lines[i]));
        i += 1;
    }
    r
}

// ---------------------------------------------------------------------------
// vCard parsing
// ---------------------------------------------------------------------------

/// What one property does to the (name, phone numbers) found so far:
/// `FN` sets the name; `N`, while no name is known, gives "given family"
/// from its first two `;`-separated fields; `TEL` adds a non-empty number.
pub open spec fn vcard_property(
    state: (Option<Seq<char>>, Seq<Seq<char>>),
    prop_name: Seq<char>,
    value: Seq<char>,
) -> (Option<Seq<char>>, Seq<Seq<char>>) {
    if prop_name == "FN"@ {
        (Some(trim(value)), state.1)
    } else if state.0 is None && prop_name == "N"@ {
        match first_index_of(value, ';') {
            None => state,
            Some(k) => {
                let family = value.take(k);
                let given = before_char(value.skip(k + 1), ';');
                let full = trim(trim(given) + seq![' '] + trim(family));
                if full.len() > 0 {
                    (Some(full), state.1)
                } else {
                    state
                }
            },
        }
    } else if prop_name == "TEL"@ {
        let phone = trim(value);
        if phone.len() > 0 {
            (state.0, state.1.push(phone))
        } else {
            state
        }
    } else {
        state
    }
}

/// `s` in upper case: for an all-ASCII text each ASCII letter is mapped to
/// its upper-case counterpart, so property names are read in any letter
/// case.
pub open spec fn upper_text(s: Seq<char>) -> Seq<char> {
    if is_ascii_text(s) {
        s.map_values(|c: char| ascii_upper(c))
    } else {
        uppercase(s)
    }
}

/// What one logical line does: it is trimmed and split at its first `:`
/// into property and value (a line without `:` is skipped); the property is
/// upper-cased, and a value whose property names
/// `ENCODING=QUOTED-PRINTABLE` is decoded, any other value trimmed; the
/// property name is the part before the first `;`, trimmed.
pub open spec fn vcard_step(state: (Option<Seq<char>>, Seq<Seq<char>>), raw: Seq<char>) -> (
    Option<Seq<char>>,
    Seq<Seq<char>>,
) {
    let line = trim(raw);
    match first_index_of(line, ':') {
        None => state,
        Some(pos) => {
            let prop_upper = upper_text(line.take(pos));
            let value_raw = line.skip(pos + 1);
            let value = if contains_seq(prop_upper, "ENCODING=QUOTED-PRINTABLE"@) {
                quoted_printable_text(value_raw)
            } else {
                trim(value_raw)
            };
            vcard_property(state, trim(before_char(prop_upper, ';')), value)
        },
    }
}

/// A property name is read in any letter case: two trimmed lines that
/// differ only in the ASCII letter case of the part before their first `:`
/// do the same.
pub proof fn law_property_name_any_case(
    state: (Option<Seq<char>>, Seq<Seq<char>>),
    l1: Seq<char>,
    l2: Seq<char>,
    pos: int,
)
    requires
        0 <= pos < l1.len(),
        l1.len() == l2.len(),
        l1[pos] == ':',
        forall|i: int| 0 <= i < pos ==> #[trigger] l1[i] != ':' && (l1[i] as u32) < 128,
        forall|i: int| 0 <= i < pos ==> #[trigger] l2[i] != ':' && (l2[i] as u32) < 128,
        forall|i: int| 0 <= i < pos ==> ascii_upper(#[trigger] l1[i]) == ascii_upper(l2[i]),
        forall|i: int| pos <= i < l1.len() ==> l1[i] == l2[i],
        trim(l1) == l1,
        trim(l2) == l2,
    ensures
        vcard_step(state, l1) == vcard_step(state, l2),
{
    crate::text::lemma_first_index_of_unique(l1, ':', pos);
    crate::text::lemma_first_index_of_unique(l2, ':', pos);
    let p1 = l1.take(pos);
    let p2 = l2.take(pos);
    assert(is_ascii_text(p1)) by {
        assert forall|i: int| 0 <= i < p1.len() implies (#[trigger] p1[i] as u32) < 128 by {
            assert(p1[i] == l1[i]);
        }
    }
    assert(is_ascii_text(p2)) by {
        assert forall|i: int| 0 <= i < p2.len() implies (#[trigger] p2[i] as u32) < 128 by {
            assert(p2[i] == l2[i]);
        }
    }
    assert(p1.map_values(|c: char| ascii_upper(c)) =~= p2.map_values(|c: char| ascii_upper(c)));
    assert(l1.skip(pos + 1) =~= l2.skip(pos + 1));
}

pub open spec fn vcard_fold(lines: Seq<Seq<char>>) -> (Option<Seq<char>>, Seq<Seq<char>>)
    decreases lines.len(),
{
    if lines.len() == 0 {
        (None, Seq::empty())
    } else {
        vcard_step(vcard_fold(lines.drop_last()), lines.last())
    }
}

/// The display name and phone numbers of a vCard.
pub open spec fn vcard_contents(content: Seq<char>) -> (Option<Seq<char>>, Seq<Seq<char>>) {
    vcard_fold(unfolded_lines(content))
}

pub open spec fn opt_chars(o: Option<Vec<char>>) -> Option<Seq<char>> {
    match o {
        Some(v) => Some(v@),
        None => None,
    }
}

pub open spec fn opt_string(o: Option<String>) -> Option<Seq<char>> {
    match o {
        Some(v) => Some(v@),
        None => None,
    }
}

fn apply_property(
    name: &mut Option<Vec<char>>,
    phones: &mut Vec<Vec<char>>,
    prop_name: &[char],
    value: &[char],
)
    ensures
        (opt_chars(*final(name)), final(phones)@.map_values(|p: Vec<char>| p@)) == vcard_property(
            (opt_chars(*old(name)), old(phones)@.map_values(|p: Vec<char>| p@)),
            prop_name@,
            value@,
        ),
{
    let ghost st = (opt_chars(*old(name)), old(phones)@.map_values(|p: Vec<char>| p@));
    let fn_lit = chars_of("FN");
    let n_lit = chars_of("N");
    let tel_lit = chars_of("TEL");
    if chars_eq(prop_name, &fn_lit) {
        *name = Some(trim_chars(value));
    } else if name.is_none() && chars_eq(prop_name, &n_lit) {
        match find_char(value, 0, value.len(), ';') {
            None => {
                assert(value@.subrange(0, value@.len() as int) =~= value@);
            },
            Some(k) => {
                assert(value@.subrange(0, value@.len() as int) =~= value@);
                let family = trim_chars(&slice_chars(value, 0, k));
                let given_end = match find_char(value, k + 1, value.len(), ';') {
                    Some(e) => e,
                    None => value.len(),
                };
                let given = trim_chars(&slice_chars(value, k + 1, given_end));
                proof {
                    let rest = value@.skip(k + 1);
                    assert(value@.subrange(k + 1, value@.len() as int) =~= rest);
                    assert(rest.take(given_end - (k + 1)) =~= value@.subrange(
                        k + 1,
                        given_end as int,
                    ));
                    assert(value@.take(k as int) =~= value@.subrange(0, k as int));
                }
                let mut joined = given;
                joined.push(' ');
                let joined = concat_chars(&joined, &family);
                let full = trim_chars(&joined);
                proof {
                    let fam = value@.take(k as int);
                    let giv = before_char(value@.skip(k + 1), ';');
                    assert(first_index_of(value@, ';') == Some(k as int));
                    assert(given@ == trim(giv));
                    assert(family@ == trim(fam));
                    assert(joined@ =~= trim(giv) + seq![' '] + trim(fam));
                }
                if full.len() > 0 {
                    *name = Some(full);
                }
            },
        }
    } else if chars_eq(prop_name, &tel_lit) {
        let phone = trim_chars(value);
        if phone.len() > 0 {
            let ghost before = phones@;
            phones.push(phone);
            proof {
                assert(phones@.map_values(|p: Vec<char>| p@) =~= before.map_values(
                    |p: Vec<char>| p@,
                ).push(phone@));
            }
        }
    }
}

fn apply_line(name: &mut Option<Vec<char>>, phones: &mut Vec<Vec<char>>, raw: &[char])
    ensures
        (opt_chars(*final(name)), final(phones)@.map_values(|p: Vec<char>| p@)) == vcard_step(
            (opt_chars(*old(name)), old(phones)@.map_values(|p: Vec<char>| p@)),
            raw@,
        ),
{
    assert(raw@.subrange(0, raw@.len() as int) =~= raw@);
    let line = trim_chars(raw);
    assert(line@.subrange(0, line@.len() as int) =~= line@);
    let pos = match find_char(&line, 0, line.len(), ':') {
        None => {
            return ;
        },
        Some(p) => p,
    };
    let prop = slice_chars(&line, 0, pos);
    assert(prop@ =~= line@.take(pos as int));
    let upper_s = str_to_uppercase(string_of(&prop).as_str());
    let upper = chars_of(upper_s.as_str());
    let value_raw = slice_chars(&line, pos + 1, line.len());
    assert(value_raw@ =~= line@.skip(pos + 1));
    let qp_lit = chars_of("ENCODING=QUOTED-PRINTABLE");
    let value = if contains_chars(&upper, &qp_lit) {
        let decoded = decode_quoted_printable(string_of(&value_raw).as_str());
        chars_of(decoded.as_str())
    } else {
        trim_chars(&value_raw)
    };
    assert(upper@.subrange(0, upper@.len() as int) =~= upper@);
    let name_end = match find_char(&upper, 0, upper.len(), ';') {
        Some(k) => k,
        None => upper.len(),
    };
    assert(upper@.take(name_end as int) =~= upper@.subrange(0, name_end as int));
    let (a, b) = trim_bounds(&upper, 0, name_end);
    let prop_name = slice_chars(&upper, a, b);
    apply_property(name, phones, &prop_name, &value);
}

/// The display name (from `FN`, else from `N`) and the phone numbers
/// (`TEL`) of a vCard, in the order they appear.
pub fn parse_vcard(content: &str) -> (r: (Option<String>, Vec<String>))
    ensures
        opt_string(r.0) == vcard_contents(content@).0,
        r.1@.map_values(|p: String| p@) == vcard_contents(content@).1,
{
    let cs = chars_of(content);
    let lines = unfold_chars(&cs);
    let ghost ls = unfolded_lines(content@);
    let mut name: Option<Vec<char>> = None;
    let mut phones: Vec<Vec<char>> = Vec::new();
    let mut i: usize = 0;
    assert(phones@.map_values(|p: Vec<char>| p@) =~= Seq::<Seq<char>>::empty());
    while i < lines.len()
        invariant
            i <= lines@.len(),
            cs@ == content@,
            lines@.len() == ls.len(),
            forall|k: int| 0 <= k < lines@.len() ==> #[trigger] lines@[k]@ == ls[k],
            (opt_chars(name), phones@.map_values(|p: Vec<char>| p@)) == vcard_fold(
                ls.take(i as int),
            ),
        decreases lines.len() - i,
    {
        proof {
            assert(ls.take(i + 1).drop_last() =~= ls.take(i as int));
            assert(ls.take(i + 1).last() == ls[i as int]);
        }
        apply_line(&mut name, &mut phones, &lines[i]);
        i += 1;
    }
    proof {
        assert(ls.take(i as int) =~= ls);
    }
    let name_out = match name {
        Some(n) => Some(string_of(&n)),
        None => None,
    };
    let mut out: Vec<String> = Vec::new();
    let mut j: usize = 0;
    while j < phones.len()
        invariant
            j <= phones@.len(),
            out@.len() == j,
            forall|k: int| 0 <= k < j ==> #[trigger] out@[k]@ == phones@[k]@,
        decreases phones.len() - j,
    {
        out.push(string_of(&phones[j]));
        j += 1;
    }
    assert(out@.map_values(|p: String| p@) =~= phones@.map_values(|p: Vec<char>| p@));
    (name_out, out)
}

} // verus!
