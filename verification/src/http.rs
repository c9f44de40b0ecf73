//! HTTP request handling for the configuration web page: routing, body and
//! form-field extraction, URL decoding and the parsing of numbers and IPv4
//! addresses typed into the form.

use vstd::prelude::*;
use vstd::string::StringSliceAdditionalSpecFns;
use vstd::utf8::{decode_utf8, encode_utf8, valid_utf8};
use crate::config::Config;

verus! {

/// `haystack` begins with `needle`.
pub open spec fn has_prefix(haystack: Seq<u8>, needle: Seq<u8>) -> bool {
    needle.len() <= haystack.len() && haystack.take(needle.len() as int) == needle
}

/// Whether `haystack` begins with `needle`.
pub fn starts_with(haystack: &[u8], needle: &[u8]) -> (r: bool)
    ensures
        r == has_prefix(haystack@, needle@),
{
    if haystack.len() < needle.len() {
        return false;
    }
    let mut i: usize = 0;
    while i < needle.len()
        invariant
            needle@.len() <= haystack@.len(),
            i <= needle@.len(),
            forall|j: int| 0 <= j < i ==> haystack@[j] == needle@[j],
        decreases needle@.len() - i,
    {
        if haystack[i] != needle[i] {
            assert(haystack@.take(needle@.len() as int)[i as int] != needle@[i as int]);
            return false;
        }
        i = i + 1;
    }
    assert(haystack@.take(needle@.len() as int) =~= needle@);
    true
}

/// Whether two byte strings are equal.
pub fn bytes_equal(a: &[u8], b: &[u8]) -> (r: bool)
    ensures
        r == (a@ == b@),
{
    if a.len() != b.len() {
        return false;
    }
    let r = starts_with(a, b);
    proof {
        if r {
            assert(a@.take(b@.len() as int) =~= a@);
        } else {
            assert(a@.take(b@.len() as int) =~= a@);
        }
    }
    r
}


/// The value of one hexadecimal digit.
pub open spec fn spec_hex_val(b: u8) -> Option<u8> {
    if 0x30u8 <= b <= 0x39u8 {
        Some((b - 0x30u8) as u8)
    } else if 0x61u8 <= b <= 0x66u8 {
        Some((b - 0x61u8 + 10) as u8)
    } else if 0x41u8 <= b <= 0x46u8 {
        Some((b - 0x41u8 + 10) as u8)
    } else {
        None
    }
}

/// The value of a hexadecimal digit `0-9`, `a-f`, `A-F`.
pub fn hex_val(b: u8) -> (r: Option<u8>)
    ensures
        r == spec_hex_val(b),
{
    if 0x30 <= b && b <= 0x39 {
        Some(b - 0x30)
    } else if 0x61 <= b && b <= 0x66 {
        Some(b - 0x61 + 10)
    } else if 0x41 <= b && b <= 0x46 {
        Some(b - 0x41 + 10)
    } else {
        None
    }
}

/// Whether `s` starts with an escape `%XY` of two hexadecimal digits.
pub open spec fn starts_with_escape(s: Seq<u8>) -> bool {
    &&& s.len() > 2
    &&& s[0] == 0x25u8
    &&& spec_hex_val(s[1]) is Some
    &&& spec_hex_val(s[2]) is Some
}

/// Form decoding of a whole text: `%XY` with two hexadecimal digits is the
/// byte 0xXY, `+` is a space, every other byte stands for itself.
pub open spec fn url_decoded(s: Seq<u8>) -> Seq<u8>
    decreases s.len(),
{
    if s.len() == 0 {
        Seq::empty()
    } else if starts_with_escape(s) {
        seq![((spec_hex_val(s[1]).unwrap() << 4u8) | spec_hex_val(s[2]).unwrap()) as u8]
            + url_decoded(s.skip(3))
    } else {
        seq![if s[0] == 0x2Bu8 { 0x20u8 } else { s[0] }] + url_decoded(s.drop_first())
    }
}

/// The first `cap` bytes of the decoding (all of it when shorter).
pub open spec fn url_decoded_capped(s: Seq<u8>, cap: nat) -> Seq<u8> {
    let d = url_decoded(s);
    if d.len() <= cap {
        d
    } else {
        d.take(cap as int)
    }
}

/// Decode a form value into at most `capacity` bytes.
pub fn url_decode(input: &[u8], capacity: usize) -> (out: Vec<u8>)
    ensures
        out@ == url_decoded_capped(input@, capacity as nat),
{
    let mut out: Vec<u8> = Vec::new();
    let mut i: usize = 0;
    assert(input@.skip(0) =~= input@);
    while i < input.len() && out.len() < capacity
        invariant
            i <= input@.len(),
            out@.len() <= capacity,
            out@ + url_decoded(input@.skip(i as int)) == url_decoded(input@),
        decreases input@.len() - i,
    {
        let ghost rest = input@.skip(i as int);
        if input[i] == 0x25 && input.len() - i > 2 {
            let h = hex_val(input[i + 1]);
            let l = hex_val(input[i + 2]);
            if let (Some(h), Some(l)) = (h, l) {
                proof {
                    assert(rest[0] == input@[i as int]);
                    assert(rest[1] == input@[i + 1]);
                    assert(rest[2] == input@[i + 2]);
                    assert(rest.skip(3) =~= input@.skip(i + 3));
                }
                out.push((h << 4u8) | l);
                i = i + 3;
                continue;
            }
        }
        proof {
            assert(rest[0] == input@[i as int]);
            if rest.len() > 2 {
                assert(rest[1] == input@[i + 1]);
                assert(rest[2] == input@[i + 2]);
            }
            assert(rest.drop_first() =~= input@.skip(i + 1));
        }
        if input[i] == 0x2B {
            out.push(0x20);
        } else {
            out.push(input[i]);
        }
        i = i + 1;
    }
    proof {
        let d = url_decoded(input@);
        if i == input@.len() {
            assert(input@.skip(i as int) =~= Seq::<u8>::empty());
            assert(out@ =~= d);
        } else {
            assert(out@ =~= d.take(capacity as int));
        }
    }
    out
}

/// Index of the first `b` in `s` at or after `i`.
pub open spec fn index_of(s: Seq<u8>, b: u8, i: int) -> Option<int>
    decreases s.len() - i,
{
    if i < 0 || i >= s.len() {
        None
    } else if s[i] == b {
        Some(i)
    } else {
        index_of(s, b, i + 1)
    }
}

fn find_byte(s: &[u8], b: u8, from: usize) -> (r: Option<usize>)
    requires
        from <= s@.len(),
    ensures
        match r {
            Some(p) => index_of(s@, b, from as int) == Some(p as int) && from <= p < s@.len(),
            None => index_of(s@, b, from as int) is None,
        },
{
    let mut i: usize = from;
    while i < s.len()
        invariant
            from <= i <= s@.len(),
            index_of(s@, b, from as int) == index_of(s@, b, i as int),
        decreases s@.len() - i,
    {
        if s[i] == b {
            return Some(i);
        }
        i = i + 1;
    }
    None
}

pub proof fn lemma_index_of_bounds(s: Seq<u8>, b: u8, i: int)
    ensures
        index_of(s, b, i) matches Some(p) ==> i <= p < s.len() && s[p] == b,
    decreases s.len() - i,
{
    if 0 <= i < s.len() && s[i] != b {
        lemma_index_of_bounds(s, b, i + 1);
    }
}

/// The value of field `key` (given with its `=`) in a form body
/// `k1=v1&k2=v2...`, searched from field position `pos`: the text after the
/// key up to the next `&` or the end.
pub open spec fn form_value_from(body: Seq<u8>, key: Seq<u8>, pos: int) -> Option<Seq<u8>>
    decreases body.len() - pos,
{
    if pos < 0 || pos >= body.len() {
        None
    } else if has_prefix(body.skip(pos), key) {
        let start = pos + key.len();
        match index_of(body, 0x26u8, start) {
            Some(e) => Some(body.subrange(start, e)),
            None => Some(body.subrange(start, body.len() as int)),
        }
    } else {
        match index_of(body, 0x26u8, pos) {
            Some(p) => {
                proof {
                    lemma_index_of_bounds(body, 0x26u8, pos);
                }
                form_value_from(body, key, p + 1)
            },
            None => None,
        }
    }
}

/// The value of the first field of `body` that starts with `key`.
pub open spec fn form_value(body: Seq<u8>, key: Seq<u8>) -> Option<Seq<u8>> {
    form_value_from(body, key, 0)
}

/// Extract the value of a form field from a URL-encoded body such as
/// `paz=180.0&pel=0.0`; `key` includes the `=`.
pub fn get_form_value<'a>(body: &'a [u8], key: &[u8]) -> (r: Option<&'a [u8]>)
    ensures
        match r {
            Some(v) => form_value(body@, key@) == Some(v@),
            None => form_value(body@, key@) is None,
        },
{
    let mut pos: usize = 0;
    while pos < body.len()
        invariant
            pos <= body@.len(),
            form_value(body@, key@) == form_value_from(body@, key@, pos as int),
        decreases body@.len() - pos,
    {
        let remaining = &body[pos..body.len()];
        assert(remaining@ =~= body@.skip(pos as int));
        if starts_with(remaining, key) {
            let val_start = pos + key.len();
            let val_end = match find_byte(body, 0x26, val_start) {
                Some(p) => p,
                None => body.len(),
            };
            return Some(&body[val_start..val_end]);
        }
        match find_byte(body, 0x26, pos) {
            Some(p) => {
                pos = p + 1;
            },
            None => {
                return None;
            },
        }
    }
    None
}

/// Index of the first blank line `\r\n\r\n` in `req` at or after `i`.
pub open spec fn blank_line_at(req: Seq<u8>, i: int) -> Option<int>
    decreases req.len() - i,
{
    if i < 0 || i + 4 > req.len() {
        None
    } else if req.subrange(i, i + 4) == seq![0x0Du8, 0x0Au8, 0x0Du8, 0x0Au8] {
        Some(i)
    } else {
        blank_line_at(req, i + 1)
    }
}

/// The body of a request: everything after the first `\r\n\r\n`.
pub open spec fn spec_find_body(req: Seq<u8>) -> Option<Seq<u8>> {
    match blank_line_at(req, 0) {
        Some(i) => Some(req.skip(i + 4)),
        None => None,
    }
}

/// The body of an HTTP request, after the first blank line.
pub fn find_body(req: &[u8]) -> (r: Option<&[u8]>)
    ensures
        match r {
            Some(b) => spec_find_body(req@) == Some(b@),
            None => spec_find_body(req@) is None,
        },
{
    let n = if req.len() >= 3 { req.len() - 3 } else { 0 };
    let mut i: usize = 0;
    while i < n
        invariant
            n == (if req@.len() >= 3 { req@.len() - 3 } else { 0 }),
            i <= n,
            blank_line_at(req@, 0) == blank_line_at(req@, i as int),
        decreases n - i,
    {
        if req[i] == 0x0D && req[i + 1] == 0x0A && req[i + 2] == 0x0D && req[i + 3] == 0x0A {
            assert(req@.subrange(i as int, i + 4) =~= seq![0x0Du8, 0x0Au8, 0x0Du8, 0x0Au8]);
            let b = &req[i + 4..req.len()];
            assert(b@ =~= req@.skip(i + 4));
            return Some(b);
        }
        assert(req@.subrange(i as int, i + 4) != seq![0x0Du8, 0x0Au8, 0x0Du8, 0x0Au8]) by {
            let w = req@.subrange(i as int, i + 4);
            if w == seq![0x0Du8, 0x0Au8, 0x0Du8, 0x0Au8] {
                assert(w[0] == req@[i as int]);
                assert(w[1] == req@[i + 1]);
                assert(w[2] == req@[i + 2]);
                assert(w[3] == req@[i + 3]);
            }
        }
        i = i + 1;
    }
    None
}


/// Unicode `White_Space` characters, the ones `str::trim` removes.
pub open spec fn is_unicode_whitespace(c: char) -> bool {
    let u = c as u32;
    ||| 0x09 <= u <= 0x0D
    ||| u == 0x20
    ||| u == 0x85
    ||| u == 0xA0
    ||| u == 0x1680
    ||| 0x2000 <= u <= 0x200A
    ||| u == 0x2028
    ||| u == 0x2029
    ||| u == 0x202F
    ||| u == 0x205F
    ||| u == 0x3000
}

pub open spec fn trim_start_chars(s: Seq<char>) -> Seq<char>
    decreases s.len(),
{
    if s.len() > 0 && is_unicode_whitespace(s[0]) {
        trim_start_chars(s.drop_first())
    } else {
        s
    }
}

pub open spec fn trim_end_chars(s: Seq<char>) -> Seq<char>
    decreases s.len(),
{
    if s.len() > 0 && is_unicode_whitespace(s.last()) {
        trim_end_chars(s.drop_last())
    } else {
        s
    }
}

/// `s` without leading and trailing Unicode whitespace.
pub open spec fn trim_chars(s: Seq<char>) -> Seq<char> {
    trim_end_chars(trim_start_chars(s))
}

/// `core::str::from_utf8`: the text when the bytes are well-formed UTF-8.
/// The contract claims what std documents: `Some` exactly for valid UTF-8,
/// holding the characters those bytes encode.
#[verifier::external_body]
fn str_from_utf8(v: &[u8]) -> (r: Option<&str>)
    ensures
        r is Some <==> valid_utf8(v@),
        r matches Some(s) ==> s@ == decode_utf8(v@),
{
    core::str::from_utf8(v).ok()
}

/// `str::trim`: the text without leading and trailing whitespace in the
/// sense of the Unicode `White_Space` property, as std documents it.
#[verifier::external_body]
fn str_trim(s: &str) -> (r: &str)
    ensures
        r@ == trim_chars(s@),
{
    s.trim()
}

/// A decimal number as the form parser reads it: sign, the integer digits
/// (wrapping modulo 2^32 when there are too many), the first six fraction
/// digits as an integer, and how many fraction digits that is.
#[derive(Clone, Copy, Debug, PartialEq, Eq, Structural)]
pub struct Decimal {
    pub negative: bool,
    pub integer_part: u32,
    pub frac_part: u32,
    pub frac_digits: u32,
}

pub open spec fn is_digit(b: u8) -> bool {
    0x30u8 <= b <= 0x39u8
}

/// One byte of the number text: a digit extends the integer part, or the
/// fraction while it has fewer than six digits (later fraction digits are
/// dropped); `.` starts the fraction; anything else is an error.
pub open spec fn scan_step(st: (u32, u32, u32, bool), b: u8) -> Option<(u32, u32, u32, bool)> {
    if is_digit(b) {
        if st.3 {
            if st.2 < 6 {
                Some((st.0, (st.1 * 10 + (b - 0x30u8)) as u32, (st.2 + 1) as u32, true))
            } else {
                Some(st)
            }
        } else {
            Some((st.0.wrapping_mul(10).wrapping_add((b - 0x30u8) as u32), st.1, st.2, false))
        }
    } else if b == 0x2Eu8 {
        Some((st.0, st.1, st.2, true))
    } else {
        None
    }
}

/// The scan of an unsigned number text: integer part, fraction, fraction
/// digits, and whether a `.` was seen.
pub open spec fn scan_number(s: Seq<u8>) -> Option<(u32, u32, u32, bool)>
    decreases s.len(),
{
    if s.len() == 0 {
        Some((0, 0, 0, false))
    } else {
        match scan_number(s.drop_last()) {
            Some(st) => scan_step(st, s.last()),
            None => None,
        }
    }
}

/// A number text: an optional `-` and then digits and dots only; empty is
/// no number.
pub open spec fn decimal_text(t: Seq<u8>) -> Option<Decimal> {
    if t.len() == 0 {
        None
    } else {
        let negative = t[0] == 0x2Du8;
        let body = if negative {
            t.drop_first()
        } else {
            t
        };
        match scan_number(body) {
            Some(st) => Some(
                Decimal {
                    negative,
                    integer_part: st.0,
                    frac_part: st.1,
                    frac_digits: st.2,
                },
            ),
            None => None,
        }
    }
}

/// A form value read as a number: decoded into at most 32 bytes, required
/// to be UTF-8, trimmed of whitespace, then read as a number text.
pub open spec fn spec_parse_decimal(raw: Seq<u8>) -> Option<Decimal> {
    let d = url_decoded_capped(raw, 32);
    if valid_utf8(d) {
        decimal_text(encode_utf8(trim_chars(decode_utf8(d))))
    } else {
        None
    }
}

pub open spec fn frac_limit(digits: u32) -> int {
    if digits == 0 {
        1
    } else if digits == 1 {
        10
    } else if digits == 2 {
        100
    } else if digits == 3 {
        1000
    } else if digits == 4 {
        10000
    } else if digits == 5 {
        100000
    } else {
        1000000
    }
}

proof fn lemma_scan_none_prefix(s: Seq<u8>, i: int)
    requires
        0 <= i <= s.len(),
        scan_number(s.take(i)) is None,
    ensures
        scan_number(s) is None,
    decreases s.len() - i,
{
    if i < s.len() {
        assert(s.take(i + 1).drop_last() =~= s.take(i));
        lemma_scan_none_prefix(s, i + 1);
    } else {
        assert(s.take(i) =~= s);
    }
}

fn scan_number_exec(s: &[u8]) -> (r: Option<(u32, u32, u32, bool)>)
    ensures
        r == scan_number(s@),
        r matches Some(st) ==> st.2 <= 6 && st.1 < frac_limit(st.2),
{
    let mut int_part: u32 = 0;
    let mut frac: u32 = 0;
    let mut digits: u32 = 0;
    let mut in_frac = false;
    let mut i: usize = 0;
    while i < s.len()
        invariant
            i <= s@.len(),
            scan_number(s@.take(i as int)) == Some((int_part, frac, digits, in_frac)),
            digits <= 6,
            frac < frac_limit(digits),
        decreases s@.len() - i,
    {
        let b = s[i];
        proof {
            assert(s@.take(i + 1).drop_last() =~= s@.take(i as int));
        }
        if 0x30 <= b && b <= 0x39 {
            if in_frac {
                if digits < 6 {
                    frac = frac * 10 + (b - 0x30) as u32;
                    digits = digits + 1;
                }
            } else {
                int_part = int_part.wrapping_mul(10).wrapping_add((b - 0x30) as u32);
            }
        } else if b == 0x2E {
            in_frac = true;
        } else {
            proof {
                lemma_scan_none_prefix(s@, i + 1);
            }
            return None;
        }
        i = i + 1;
    }
    assert(s@.take(s@.len() as int) =~= s@);
    Some((int_part, frac, digits, in_frac))
}

fn decimal_text_exec(t: &[u8]) -> (r: Option<Decimal>)
    ensures
        r == decimal_text(t@),
        r matches Some(d) ==> d.frac_digits <= 6 && d.frac_part < frac_limit(d.frac_digits),
{
    if t.len() == 0 {
        return None;
    }
    let negative = t[0] == 0x2D;
    let body = if negative {
        &t[1..t.len()]
    } else {
        t
    };
    assert(negative ==> body@ =~= t@.drop_first());
    match scan_number_exec(body) {
        Some(st) => Some(
            Decimal { negative, integer_part: st.0, frac_part: st.1, frac_digits: st.2 },
        ),
        None => None,
    }
}

/// Read a form value as a decimal number (see `spec_parse_decimal`). The
/// number is `integer_part + frac_part / 10^frac_digits`, negated when
/// `negative`.
pub fn parse_decimal(bytes: &[u8]) -> (r: Option<Decimal>)
    ensures
        r == spec_parse_decimal(bytes@),
        r matches Some(d) ==> d.frac_digits <= 6 && d.frac_part < frac_limit(d.frac_digits),
{
    let decoded = url_decode(bytes, 32);
    let s = match str_from_utf8(decoded.as_slice()) {
        Some(s) => s,
        None => return None,
    };
    let t = str_trim(s);
    decimal_text_exec(t.as_bytes())
}

/// The decimal value of a string of ASCII digits.
pub open spec fn digits_value(d: Seq<u8>) -> nat
    decreases d.len(),
{
    if d.len() == 0 {
        0
    } else {
        digits_value(d.drop_last()) * 10 + (d.last() - 0x30u8) as nat
    }
}

pub open spec fn all_digits(d: Seq<u8>) -> bool {
    forall|i: int| 0 <= i < d.len() ==> is_digit(d[i])
}

/// One address part as `str::parse::<u16>` reads it (an optional `+`, then
/// one or more digits), accepted when at most 255.
pub open spec fn spec_octet(p: Seq<u8>) -> Option<u8> {
    let d = if p.len() > 0 && p[0] == 0x2Bu8 {
        p.drop_first()
    } else {
        p
    };
    if d.len() > 0 && all_digits(d) && digits_value(d) <= 255 {
        Some(digits_value(d) as u8)
    } else {
        None
    }
}

/// Exactly `k` dot-separated octets.
pub open spec fn spec_octets(t: Seq<u8>, k: nat) -> Option<Seq<u8>>
    decreases k,
{
    if k == 0 {
        None
    } else {
        match index_of(t, 0x2Eu8, 0) {
            None => if k == 1 {
                match spec_octet(t) {
                    Some(o) => Some(seq![o]),
                    None => None,
                }
            } else {
                None
            },
            Some(p) => if k == 1 {
                None
            } else {
                match spec_octet(t.take(p)) {
                    None => None,
                    Some(o) => match spec_octets(t.skip(p + 1), (k - 1) as nat) {
                        Some(rest) => Some(seq![o] + rest),
                        None => None,
                    },
                }
            },
        }
    }
}

/// A form value read as an IPv4 address `a.b.c.d`: decoded into at most 32
/// bytes, required to be UTF-8, then exactly four parts.
pub open spec fn spec_parse_ip(raw: Seq<u8>) -> Option<Seq<u8>> {
    let d = url_decoded_capped(raw, 32);
    if valid_utf8(d) {
        spec_octets(d, 4)
    } else {
        None
    }
}

fn octet(p: &[u8]) -> (r: Option<u8>)
    ensures
        r == spec_octet(p@),
{
    let d = if p.len() > 0 && p[0] == 0x2B {
        &p[1..p.len()]
    } else {
        p
    };
    assert(p@.len() > 0 && p@[0] == 0x2Bu8 ==> d@ =~= p@.drop_first());
    if d.len() == 0 {
        return None;
    }
    let mut v: u32 = 0;
    let mut i: usize = 0;
    while i < d.len()
        invariant
            i <= d@.len(),
            d@ == (if p@.len() > 0 && p@[0] == 0x2Bu8 {
                p@.drop_first()
            } else {
                p@
            }),
            all_digits(d@.take(i as int)),
            v == (if digits_value(d@.take(i as int)) < 256 {
                digits_value(d@.take(i as int))
            } else {
                256
            }),
        decreases d@.len() - i,
    {
        let b = d[i];
        if !(0x30 <= b && b <= 0x39) {
            assert(!is_digit(d@[i as int]));
            assert(!all_digits(d@));
            return None;
        }
        proof {
            assert(d@.take(i + 1).drop_last() =~= d@.take(i as int));
        }
        let n = v * 10 + (b - 0x30) as u32;
        v = if n < 256 { n } else { 256 };
        i = i + 1;
    }
    assert(d@.take(d@.len() as int) =~= d@);
    if v <= 255 {
        Some(v as u8)
    } else {
        None
    }
}

/// Parse an IPv4 address such as `192.168.1.100`, also URL-encoded as
/// `192%2E168%2E1%2E100`.
pub fn parse_ip(bytes: &[u8]) -> (r: Option<[u8; 4]>)
    ensures
        match r {
            Some(a) => spec_parse_ip(bytes@) == Some(a@),
            None => spec_parse_ip(bytes@) is None,
        },
{
    let decoded = url_decode(bytes, 32);
    let t = decoded.as_slice();
    if str_from_utf8(t).is_none() {
        return None;
    }
    let mut octets: [u8; 4] = [0, 0, 0, 0];
    let mut rest: &[u8] = t;
    let mut k: usize = 0;
    while k < 4
        invariant
            k <= 4,
            t@ == url_decoded_capped(bytes@, 32),
            valid_utf8(t@),
            spec_octets(t@, 4) == (match spec_octets(rest@, (4 - k) as nat) {
                Some(r) => Some(octets@.take(k as int) + r),
                None => None,
            }),
        decreases 4 - k,
    {
        proof {
            lemma_index_of_bounds(rest@, 0x2Eu8, 0);
        }
        match find_byte(rest, 0x2E, 0) {
            None => {
                if k < 3 {
                    assert(spec_octets(rest@, (4 - k) as nat) is None);
                    return None;
                }
                match octet(rest) {
                    Some(o) => {
                        octets[3] = o;
                        assert(octets@.take(4) =~= octets@.take(3) + seq![o]);
                        return Some(octets);
                    },
                    None => {
                        assert(spec_octets(rest@, (4 - k) as nat) is None);
                        return None;
                    },
                }
            },
            Some(p) => {
                if k == 3 {
                    return None;
                }
                let len = rest.len();
                assert(p < len);
                let part = &rest[0..p];
                assert(part@ =~= rest@.take(p as int));
                match octet(part) {
                    Some(o) => {
                        let ghost before = octets@.take(k as int);
                        octets[k] = o;
                        assert(octets@.take(k + 1) =~= before + seq![o]);
                        let next = &rest[p + 1..len];
                        assert(next@ =~= rest@.skip(p + 1));
                        rest = next;
                        k = k + 1;
                    },
                    None => {
                        return None;
                    },
                }
            },
        }
    }
    None
}

/// What a request asks for.
#[derive(Clone, Copy, Debug, PartialEq, Eq, Structural)]
pub enum Route {
    /// `GET /`: the status page.
    StatusPage,
    /// `POST /config`: apply and save settings.
    ConfigPost,
    /// `POST /cal/capture-low`: record the low calibration point.
    CalCaptureLow,
    /// `POST /cal/capture-high`: record the high calibration point.
    CalCaptureHigh,
    /// `POST /cal/clear`: forget the calibration.
    CalClear,
    /// Anything else: 404.
    NotFound,
}

pub open spec fn spec_route(req: Seq<u8>) -> Route {
    if has_prefix(req, "GET / ".spec_bytes()) || has_prefix(req, "GET / HTTP".spec_bytes()) {
        Route::StatusPage
    } else if has_prefix(req, "POST /config".spec_bytes()) {
        Route::ConfigPost
    } else if has_prefix(req, "POST /cal/capture-low".spec_bytes()) {
        Route::CalCaptureLow
    } else if has_prefix(req, "POST /cal/capture-high".spec_bytes()) {
        Route::CalCaptureHigh
    } else if has_prefix(req, "POST /cal/clear".spec_bytes()) {
        Route::CalClear
    } else {
        Route::NotFound
    }
}

/// Route a request by the start of its first line.
pub fn route_request(req: &[u8]) -> (r: Route)
    ensures
        r == spec_route(req@),
{
    if starts_with(req, "GET / ".as_bytes()) || starts_with(req, "GET / HTTP".as_bytes()) {
        Route::StatusPage
    } else if starts_with(req, "POST /config".as_bytes()) {
        Route::ConfigPost
    } else if starts_with(req, "POST /cal/capture-low".as_bytes()) {
        Route::CalCaptureLow
    } else if starts_with(req, "POST /cal/capture-high".as_bytes()) {
        Route::CalCaptureHigh
    } else if starts_with(req, "POST /cal/clear".as_bytes()) {
        Route::CalClear
    } else {
        Route::NotFound
    }
}

/// The body of a request, empty when it has none.
pub open spec fn body_or_empty(req: Seq<u8>) -> Seq<u8> {
    match spec_find_body(req) {
        Some(b) => b,
        None => Seq::empty(),
    }
}

/// The number in form field `key`, when the field is there and is a number.
pub open spec fn field_decimal(body: Seq<u8>, key: Seq<u8>) -> Option<Decimal> {
    match form_value(body, key) {
        Some(v) => spec_parse_decimal(v),
        None => None,
    }
}

fn field_decimal_exec(body: &[u8], key: &str) -> (r: Option<Decimal>)
    ensures
        r == field_decimal(body@, key.spec_bytes()),
{
    match get_form_value(body, key.as_bytes()) {
        Some(v) => parse_decimal(v),
        None => None,
    }
}

fn request_body(req: &[u8]) -> (r: &[u8])
    ensures
        r@ == body_or_empty(req@),
{
    match find_body(req) {
        Some(b) => b,
        None => {
            let e = &req[0..0];
            assert(e@ =~= Seq::<u8>::empty());
            e
        },
    }
}

/// The settings submitted by the configuration form; a field that is
/// missing or unreadable leaves that setting unchanged.
#[derive(Clone, Copy, Debug, PartialEq, Eq)]
pub struct ConfigForm {
    pub park_az: Option<Decimal>,
    pub park_el: Option<Decimal>,
    pub az_cal_offset: Option<Decimal>,
    pub el_cal_offset: Option<Decimal>,
    pub static_ip: Option<[u8; 4]>,
    /// The checkbox is ticked (the `sip` field is present).
    pub static_ip_enabled: bool,
}

/// Read the configuration form (`paz`, `pel`, `azo`, `elo`, `ip`, `sip`)
/// from a `POST /config` request.
pub fn parse_config_form(req: &[u8]) -> (f: ConfigForm)
    ensures
        f.park_az == field_decimal(body_or_empty(req@), "paz=".spec_bytes()),
        f.park_el == field_decimal(body_or_empty(req@), "pel=".spec_bytes()),
        f.az_cal_offset == field_decimal(body_or_empty(req@), "azo=".spec_bytes()),
        f.el_cal_offset == field_decimal(body_or_empty(req@), "elo=".spec_bytes()),
        match f.static_ip {
            Some(a) => form_value(body_or_empty(req@), "ip=".spec_bytes()) matches Some(v)
                && spec_parse_ip(v) == Some(a@),
            None => match form_value(body_or_empty(req@), "ip=".spec_bytes()) {
                Some(v) => spec_parse_ip(v) is None,
                None => true,
            },
        },
        f.static_ip_enabled == form_value(body_or_empty(req@), "sip=".spec_bytes()) is Some,
{
    let body = request_body(req);
    let static_ip = match get_form_value(body, "ip=".as_bytes()) {
        Some(v) => parse_ip(v),
        None => None,
    };
    ConfigForm {
        park_az: field_decimal_exec(body, "paz="),
        park_el: field_decimal_exec(body, "pel="),
        az_cal_offset: field_decimal_exec(body, "azo="),
        el_cal_offset: field_decimal_exec(body, "elo="),
        static_ip,
        static_ip_enabled: get_form_value(body, "sip=".as_bytes()).is_some(),
    }
}

/// `v` when there is one, `old` otherwise.
pub open spec fn or_keep(v: Option<u32>, old: u32) -> u32 {
    match v {
        Some(x) => x,
        None => old,
    }
}

/// The configuration a form submission asks for, starting from `base`.
pub open spec fn spec_apply_config_form(
    base: Config,
    form: ConfigForm,
    park_az: Option<u32>,
    park_el: Option<u32>,
    az_cal_offset: Option<u32>,
    el_cal_offset: Option<u32>,
) -> Config {
    Config {
        park_az: or_keep(park_az, base.park_az),
        park_el: or_keep(park_el, base.park_el),
        az_cal_offset: or_keep(az_cal_offset, base.az_cal_offset),
        el_cal_offset: or_keep(el_cal_offset, base.el_cal_offset),
        static_ip: match form.static_ip {
            Some(a) => a,
            None => base.static_ip,
        },
        static_ip_enabled: form.static_ip_enabled,
        ..base
    }
}

/// Apply a submitted configuration form to `base`. The four angles are the
/// form's angle fields after limiting (park 0..=450° / 0..=180°, offsets
/// -50..=50°), as bit patterns, present exactly when the form holds a
/// number in that field; each one present replaces the stored setting. A valid static address
/// replaces the stored one, the static-address switch follows the checkbox,
/// and the calibration is kept.
pub fn apply_config_form(
    base: Config,
    form: &ConfigForm,
    park_az: Option<u32>,
    park_el: Option<u32>,
    az_cal_offset: Option<u32>,
    el_cal_offset: Option<u32>,
) -> (c: Config)
    requires
        park_az is Some <==> form.park_az is Some,
        park_el is Some <==> form.park_el is Some,
        az_cal_offset is Some <==> form.az_cal_offset is Some,
        el_cal_offset is Some <==> form.el_cal_offset is Some,
    ensures
        c == spec_apply_config_form(base, *form, park_az, park_el, az_cal_offset, el_cal_offset),
        c.az_cal_offset == (match az_cal_offset {
            Some(v) => v,
            None => base.az_cal_offset,
        }),
        c.el_cal_offset == (match el_cal_offset {
            Some(v) => v,
            None => base.el_cal_offset,
        }),
{
    let mut c = base;
    if let Some(v) = park_az {
        c.park_az = v;
    }
    if let Some(v) = park_el {
        c.park_el = v;
    }
    if let Some(v) = az_cal_offset {
        c.az_cal_offset = v;
    }
    if let Some(v) = el_cal_offset {
        c.el_cal_offset = v;
    }
    if let Some(ip) = form.static_ip {
        c.static_ip = ip;
    }
    c.static_ip_enabled = form.static_ip_enabled;
    c
}

/// Each setting of the form lands in its own field: an angle that is given
/// replaces exactly that setting and one that is not keeps the stored value,
/// whatever the other angles are; a valid address replaces the stored one;
/// the static-address switch follows the checkbox; the calibration is never
/// touched.
pub proof fn lemma_apply_config_form_fields(
    base: Config,
    form: ConfigForm,
    park_az: Option<u32>,
    park_el: Option<u32>,
    az_cal_offset: Option<u32>,
    el_cal_offset: Option<u32>,
)
    ensures
        ({
            let c = spec_apply_config_form(
                base,
                form,
                park_az,
                park_el,
                az_cal_offset,
                el_cal_offset,
            );
            &&& (park_az matches Some(v) ==> c.park_az == v) && (park_az is None ==> c.park_az
                == base.park_az)
            &&& (park_el matches Some(v) ==> c.park_el == v) && (park_el is None ==> c.park_el
                == base.park_el)
            &&& (az_cal_offset matches Some(v) ==> c.az_cal_offset == v) && (az_cal_offset is None
                ==> c.az_cal_offset == base.az_cal_offset)
            &&& (el_cal_offset matches Some(v) ==> c.el_cal_offset == v) && (el_cal_offset is None
                ==> c.el_cal_offset == base.el_cal_offset)
            &&& (form.static_ip matches Some(a) ==> c.static_ip == a) && (form.static_ip is None
                ==> c.static_ip == base.static_ip)
            &&& c.static_ip_enabled == form.static_ip_enabled
            &&& c.calibration_valid == base.calibration_valid
            &&& c.az_raw_low == base.az_raw_low
            &&& c.az_raw_high == base.az_raw_high
            &&& c.el_raw_low == base.el_raw_low
            &&& c.el_raw_high == base.el_raw_high
            &&& c.az_deg_low == base.az_deg_low
            &&& c.az_deg_high == base.az_deg_high
            &&& c.el_deg_low == base.el_deg_low
            &&& c.el_deg_high == base.el_deg_high
        }),
{
}

/// The angles entered in a calibration capture form: the numbers in the
/// azimuth and elevation fields, when present and readable.
pub fn parse_capture_form(req: &[u8], az_key: &str, el_key: &str) -> (r: (
    Option<Decimal>,
    Option<Decimal>,
))
    ensures
        r.0 == field_decimal(body_or_empty(req@), az_key.spec_bytes()),
        r.1 == field_decimal(body_or_empty(req@), el_key.spec_bytes()),
{
    let body = request_body(req);
    (field_decimal_exec(body, az_key), field_decimal_exec(body, el_key))
}


/// The position of the first `.` in `s`.
pub fn find_dot(s: &[u8]) -> (r: Option<usize>)
    ensures
        match r {
            Some(p) => index_of(s@, 0x2Eu8, 0) == Some(p as int) && p < s@.len(),
            None => index_of(s@, 0x2Eu8, 0) is None,
        },
{
    find_byte(s, 0x2E, 0)
}


/// The decimal text of a byte value, without leading zeros, as the status
/// page shows each part of the static address.
pub open spec fn u8_decimal(v: u8) -> Seq<u8> {
    if v < 10 {
        seq![(0x30 + v) as u8]
    } else if v < 100 {
        seq![(0x30 + v / 10) as u8, (0x30 + v % 10) as u8]
    } else {
        seq![(0x30 + v / 100) as u8, (0x30 + (v / 10) % 10) as u8, (0x30 + v % 10) as u8]
    }
}

/// An address written `a.b.c.d` in decimal.
pub open spec fn dotted_quad(a: Seq<u8>) -> Seq<u8> {
    u8_decimal(a[0]) + seq![0x2Eu8] + u8_decimal(a[1]) + seq![0x2Eu8] + u8_decimal(a[2]) + seq![
        0x2Eu8,
    ] + u8_decimal(a[3])
}

proof fn lemma_u8_decimal(v: u8)
    ensures
        spec_octet(u8_decimal(v)) == Some(v),
        1 <= u8_decimal(v).len() <= 3,
        forall|i: int| 0 <= i < u8_decimal(v).len() ==> is_digit(#[trigger] u8_decimal(v)[i]),
{
    let d = u8_decimal(v);
    reveal_with_fuel(digits_value, 4);
    if v < 10 {
        assert(d.drop_last() =~= Seq::<u8>::empty());
    } else if v < 100 {
        assert(d.drop_last().drop_last() =~= Seq::<u8>::empty());
        assert(digits_value(d) == (v / 10) * 10 + v % 10);
    } else {
        assert(d.drop_last().drop_last().drop_last() =~= Seq::<u8>::empty());
        assert(digits_value(d) == ((v / 100) * 10 + (v / 10) % 10) * 10 + v % 10);
        assert(((v / 100) * 10 + (v / 10) % 10) * 10 + v % 10 == v) by (nonlinear_arith)
            requires
                100 <= v < 256,
        ;
    }
}

proof fn lemma_url_decoded_plain(t: Seq<u8>)
    requires
        forall|i: int| 0 <= i < t.len() ==> t[i] != 0x25u8 && t[i] != 0x2Bu8,
    ensures
        url_decoded(t) == t,
    decreases t.len(),
{
    if t.len() > 0 {
        assert(!starts_with_escape(t));
        lemma_url_decoded_plain(t.drop_first());
        assert(url_decoded(t) =~= t);
    }
}

proof fn lemma_ascii_valid_utf8(t: Seq<u8>)
    requires
        forall|i: int| 0 <= i < t.len() ==> t[i] < 0x80u8,
    ensures
        valid_utf8(t),
{
    let chars = Seq::new(t.len(), |i: int| t[i] as char);
    assert(vstd::utf8::is_ascii_chars(chars));
    vstd::utf8::is_ascii_chars_encode_utf8(chars);
    vstd::utf8::encode_utf8_valid_utf8(chars);
    assert forall|i: int| 0 <= i < t.len() implies encode_utf8(chars)[i] == t[i] by {
        assert(chars[i] as u8 == t[i]);
    }
    assert(encode_utf8(chars) =~= t);
}

proof fn lemma_octets_of_parts(x: u8, rest: Seq<u8>, tail: Seq<u8>, k: nat)
    requires
        k >= 2,
        spec_octets(rest, (k - 1) as nat) == Some(tail),
    ensures
        spec_octets(u8_decimal(x) + seq![0x2Eu8] + rest, k) == Some(seq![x] + tail),
{
    lemma_u8_decimal(x);
    let d = u8_decimal(x);
    let t = d + seq![0x2Eu8] + rest;
    crate::mdns::lemma_index_of_first(t, 0x2Eu8, 0, d.len() as int);
    assert(t.take(d.len() as int) =~= d);
    assert(t.skip(d.len() + 1int) =~= rest);
}

/// The address the status page shows in the static IP field reads back as
/// the same address when the form is submitted: `parse_ip` of `a.b.c.d` in
/// decimal is `[a, b, c, d]`.
pub proof fn lemma_parse_ip_dotted_quad(a: Seq<u8>)
    requires
        a.len() == 4,
    ensures
        spec_parse_ip(dotted_quad(a)) == Some(a),
{
    lemma_u8_decimal(a[0]);
    lemma_u8_decimal(a[1]);
    lemma_u8_decimal(a[2]);
    lemma_u8_decimal(a[3]);
    let d3 = u8_decimal(a[3]);
    crate::mdns::lemma_index_of_none(d3, 0x2Eu8, 0);
    assert(spec_octets(d3, 1) == Some(seq![a[3]]));
    let r2 = u8_decimal(a[2]) + seq![0x2Eu8] + d3;
    lemma_octets_of_parts(a[2], d3, seq![a[3]], 2);
    let r1 = u8_decimal(a[1]) + seq![0x2Eu8] + r2;
    lemma_octets_of_parts(a[1], r2, seq![a[2]] + seq![a[3]], 3);
    let r0 = u8_decimal(a[0]) + seq![0x2Eu8] + r1;
    lemma_octets_of_parts(a[0], r1, seq![a[1]] + (seq![a[2]] + seq![a[3]]), 4);
    let t = dotted_quad(a);
    assert(t =~= r0);
    assert forall|i: int| 0 <= i < t.len() implies t[i] != 0x25u8 && t[i] != 0x2Bu8 && t[i]
        < 0x80u8 by {
        if i < u8_decimal(a[0]).len() {
            assert(t[i] == u8_decimal(a[0])[i]);
        } else if i == u8_decimal(a[0]).len() {
        } else if i < u8_decimal(a[0]).len() + 1 + u8_decimal(a[1]).len() {
            assert(t[i] == u8_decimal(a[1])[i - u8_decimal(a[0]).len() - 1]);
        } else if i == u8_decimal(a[0]).len() + 1 + u8_decimal(a[1]).len() {
        } else if i < u8_decimal(a[0]).len() + 2 + u8_decimal(a[1]).len() + u8_decimal(
            a[2],
        ).len() {
            assert(t[i] == u8_decimal(a[2])[i - u8_decimal(a[0]).len() - 2 - u8_decimal(
                a[1],
            ).len()]);
        } else if i == u8_decimal(a[0]).len() + 2 + u8_decimal(a[1]).len() + u8_decimal(
            a[2],
        ).len() {
        } else {
            assert(t[i] == u8_decimal(a[3])[i - u8_decimal(a[0]).len() - 3 - u8_decimal(
                a[1],
            ).len() - u8_decimal(a[2]).len()]);
        }
    }
    lemma_url_decoded_plain(t);
    lemma_ascii_valid_utf8(t);
    assert(t.len() <= 32);
    assert(seq![a[0]] + (seq![a[1]] + (seq![a[2]] + seq![a[3]])) =~= a);
}

} // verus!
