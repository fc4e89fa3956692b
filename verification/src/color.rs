//! Hex notation of RGB colors, as typed in the color picker.
//!
//! The picker's channels are floating point; this module works on the
//! bytes that the hex notation holds.

use vstd::prelude::*;
use vstd::utf8::{
    encode_utf8, encode_utf8_valid_utf8, is_ascii_chars, is_ascii_chars_encode_utf8,
    is_char_boundary, is_char_boundary_iff_not_is_continuation_byte,
    is_char_boundary_start_end_of_seq, valid_utf8,
};
use crate::html::skip_ws;
use crate::text::{chars_of, is_ws, string_of, trim_end, trim_end_chars, trim_end_len};

verus! {

/// An RGB color with one byte per channel.
#[derive(Debug, Clone, Copy, PartialEq, Eq)]
pub struct Rgb {
    pub r: u8,
    pub g: u8,
    pub b: u8,
}

/// Value of a hexadecimal digit byte (either case).
pub open spec fn hex_digit(b: u8) -> Option<u8> {
    if 48 <= b <= 57 {
        Some((b - 48) as u8)
    } else if 97 <= b <= 102 {
        Some((b - 87) as u8)
    } else if 65 <= b <= 70 {
        Some((b - 55) as u8)
    } else {
        None
    }
}

/// What `u8::from_str_radix(.., 16)` gives for the two bytes `x y`: a
/// leading `+` sign is allowed before a single digit.
pub open spec fn hex_pair(x: u8, y: u8) -> Option<u8> {
    if x == 43 {
        hex_digit(y)
    } else {
        match (hex_digit(x), hex_digit(y)) {
            (Some(a), Some(c)) => Some((16 * a + c) as u8),
            _ => None,
        }
    }
}

/// The channel written as one digit `x` in the short form (`x` doubled).
pub open spec fn hex_short(x: u8) -> Option<u8> {
    match hex_digit(x) {
        Some(a) => Some((17 * a) as u8),
        None => None,
    }
}

/// The text left once surrounding white space and leading `#` signs are
/// removed.
pub open spec fn hex_body(input: Seq<char>) -> Seq<char> {
    let t = trim_end(input.skip(skip_ws(input, 0)));
    t.skip(skip_hashes(t, 0))
}

/// First position at or after `i` that does not hold `#`.
pub open spec fn skip_hashes(s: Seq<char>, i: int) -> int
    decreases s.len() - i,
{
    if 0 <= i < s.len() && s[i] == '#' {
        skip_hashes(s, i + 1)
    } else {
        i
    }
}

/// The color written in the UTF-8 bytes `b`: three channels of two digits,
/// or three channels of one doubled digit.
pub open spec fn hex_value(b: Seq<u8>) -> Option<Rgb> {
    if b.len() == 3 {
        match (hex_short(b[0]), hex_short(b[1]), hex_short(b[2])) {
            (Some(r), Some(g), Some(bl)) => Some(Rgb { r, g, b: bl }),
            _ => None,
        }
    } else if b.len() == 6 {
        match (hex_pair(b[0], b[1]), hex_pair(b[2], b[3]), hex_pair(b[4], b[5])) {
            (Some(r), Some(g), Some(bl)) => Some(Rgb { r, g, b: bl }),
            _ => None,
        }
    } else {
        None
    }
}

/// Whether reading the channels of `b` one after the other cuts a multi-byte
/// character before a channel fails to parse: the byte slicing of the text
/// then panics.
pub open spec fn hex_cuts_char(b: Seq<u8>) -> bool {
    if b.len() == 3 {
        ||| !is_char_boundary(b, 1)
        ||| hex_short(b[0]) is Some && !is_char_boundary(b, 2)
        ||| hex_short(b[0]) is Some && hex_short(b[1]) is Some && !is_char_boundary(b, 3)
    } else if b.len() == 6 {
        ||| !is_char_boundary(b, 2)
        ||| hex_pair(b[0], b[1]) is Some && !is_char_boundary(b, 4)
        ||| hex_pair(b[0], b[1]) is Some && hex_pair(b[2], b[3]) is Some && !is_char_boundary(b, 6)
    } else {
        false
    }
}

/// The color written as `#rgb` or `#rrggbb` (the `#` optional, hex digits in
/// either case, white space around ignored).
pub open spec fn parsed_hex(input: Seq<char>) -> Option<Rgb> {
    hex_value(encode_utf8(hex_body(input)))
}

fn digit_value(b: u8) -> (r: Option<u8>)
    ensures
        r == hex_digit(b),
{
    if 48 <= b && b <= 57 {
        Some(b - 48)
    } else if 97 <= b && b <= 102 {
        Some(b - 87)
    } else if 65 <= b && b <= 70 {
        Some(b - 55)
    } else {
        None
    }
}

fn pair_value(x: u8, y: u8) -> (r: Option<u8>)
    ensures
        r == hex_pair(x, y),
{
    if x == 43 {
        digit_value(y)
    } else {
        match (digit_value(x), digit_value(y)) {
            (Some(a), Some(c)) => Some(16 * a + c),
            _ => None,
        }
    }
}

fn short_value(x: u8) -> (r: Option<u8>)
    ensures
        r == hex_short(x),
{
    match digit_value(x) {
        Some(a) => Some(17 * a),
        None => None,
    }
}

/// The text of `input` without surrounding white space and leading `#`.
fn hex_body_string(input: &str) -> (r: String)
    ensures
        r@ == hex_body(input@),
{
    let cs = chars_of(input);
    let n = cs.len();
    let mut a: usize = 0;
    while a < n && crate::text::is_whitespace(cs[a])
        invariant
            n == cs@.len(),
            a <= n,
            skip_ws(cs@, a as int) == skip_ws(cs@, 0),
        decreases n - a,
    {
        a = a + 1;
    }
    let mut rest: Vec<char> = Vec::new();
    let mut i: usize = a;
    while i < n
        invariant
            n == cs@.len(),
            a <= i <= n,
            rest@ == cs@.subrange(a as int, i as int),
        decreases n - i,
    {
        rest.push(cs[i]);
        i = i + 1;
        assert(rest@ =~= cs@.subrange(a as int, i as int));
    }
    assert(rest@ =~= cs@.skip(a as int));
    let t = trim_end_chars(rest.as_slice());
    let tn = t.len();
    let mut h: usize = 0;
    while h < tn && t[h] == '#'
        invariant
            tn == t@.len(),
            h <= tn,
            skip_hashes(t@, h as int) == skip_hashes(t@, 0),
        decreases tn - h,
    {
        h = h + 1;
    }
    let mut body: Vec<char> = Vec::new();
    let mut j: usize = h;
    while j < tn
        invariant
            tn == t@.len(),
            h <= j <= tn,
            body@ == t@.subrange(h as int, j as int),
        decreases tn - j,
    {
        body.push(t[j]);
        j = j + 1;
        assert(body@ =~= t@.subrange(h as int, j as int));
    }
    assert(body@ =~= hex_body(input@));
    string_of(body.as_slice())
}

/// Whether byte `i` of the UTF-8 text `b` starts a character (or ends the
/// text).
fn at_char_boundary(b: &[u8], i: usize) -> (r: bool)
    requires
        valid_utf8(b@),
        0 < i <= b@.len(),
    ensures
        r == is_char_boundary(b@, i as int),
{
    proof {
        is_char_boundary_start_end_of_seq(b@);
        if i < b@.len() {
            is_char_boundary_iff_not_is_continuation_byte(b@, i as int);
        }
    }
    i == b.len() || !(0x80 <= b[i] && b[i] <= 0xbf)
}

/// Whether [`parse_hex`] would slice a multi-byte character of `input` in
/// two: the parse panics there.
pub fn parse_hex_panics(input: &str) -> (r: bool)
    ensures
        r == hex_cuts_char(encode_utf8(hex_body(input@))),
{
    let s = hex_body_string(input);
    let bytes = s.as_str().as_bytes();
    proof {
        encode_utf8_valid_utf8(s@);
    }
    if bytes.len() == 3 {
        !at_char_boundary(bytes, 1)
            || (short_value(bytes[0]).is_some() && !at_char_boundary(bytes, 2))
            || (short_value(bytes[0]).is_some() && short_value(bytes[1]).is_some()
                && !at_char_boundary(bytes, 3))
    } else if bytes.len() == 6 {
        !at_char_boundary(bytes, 2)
            || (pair_value(bytes[0], bytes[1]).is_some() && !at_char_boundary(bytes, 4))
            || (pair_value(bytes[0], bytes[1]).is_some() && pair_value(bytes[2], bytes[3]).is_some()
                && !at_char_boundary(bytes, 6))
    } else {
        false
    }
}

/// Parses `#rgb` or `#rrggbb`.
pub fn parse_hex(input: &str) -> (r: Option<Rgb>)
    requires
        !hex_cuts_char(encode_utf8(hex_body(input@))),
    ensures
        r == parsed_hex(input@),
{
    let s = hex_body_string(input);
    let bytes = s.as_str().as_bytes();
    if bytes.len() == 3 {
        let r = short_value(bytes[0]);
        let g = short_value(bytes[1]);
        let bl = short_value(bytes[2]);
        match (r, g, bl) {
            (Some(r), Some(g), Some(bl)) => Some(Rgb { r, g, b: bl }),
            _ => None,
        }
    } else if bytes.len() == 6 {
        let r = pair_value(bytes[0], bytes[1]);
        let g = pair_value(bytes[2], bytes[3]);
        let bl = pair_value(bytes[4], bytes[5]);
        match (r, g, bl) {
            (Some(r), Some(g), Some(bl)) => Some(Rgb { r, g, b: bl }),
            _ => None,
        }
    } else {
        None
    }
}

/// Upper-case hexadecimal digit character of `d < 16`.
pub open spec fn hex_char(d: u8) -> char {
    if d < 10 {
        ((48 + d) as u32) as char
    } else {
        ((55 + d) as u32) as char
    }
}

/// `#RRGGBB` in upper-case hexadecimal.
pub open spec fn hex_text(c: Rgb) -> Seq<char> {
    seq![
        '#',
        hex_char(c.r / 16),
        hex_char(c.r % 16),
        hex_char(c.g / 16),
        hex_char(c.g % 16),
        hex_char(c.b / 16),
        hex_char(c.b % 16),
    ]
}

fn hex_digit_char(d: u8) -> (r: char)
    requires
        d < 16,
    ensures
        r == hex_char(d),
{
    if d < 10 {
        (48 + d) as char
    } else {
        (55 + d) as char
    }
}

/// Formats a color as `#RRGGBB`.
pub fn format_hex_rgb(c: Rgb) -> (r: String)
    ensures
        r@ == hex_text(c),
{
    let v: Vec<char> = vec![
        '#',
        hex_digit_char(c.r / 16),
        hex_digit_char(c.r % 16),
        hex_digit_char(c.g / 16),
        hex_digit_char(c.g % 16),
        hex_digit_char(c.b / 16),
        hex_digit_char(c.b % 16),
    ];
    assert(v@ =~= hex_text(c));
    string_of(v.as_slice())
}

proof fn lemma_hex_char_digit(d: u8)
    requires
        d < 16,
    ensures
        hex_digit(hex_char(d) as u8) == Some(d),
        !is_ws(hex_char(d)),
        hex_char(d) != '#',
        hex_char(d) != '+',
        (hex_char(d) as u32) < 128,
{
}

/// Parsing what `format_hex_rgb` writes gives back the color.
pub proof fn law_hex_round_trip(c: Rgb)
    ensures
        !hex_cuts_char(encode_utf8(hex_body(hex_text(c)))),
        parsed_hex(hex_text(c)) == Some(c),
{
    let s = hex_text(c);
    let digits = seq![c.r / 16, c.r % 16, c.g / 16, c.g % 16, c.b / 16, c.b % 16];
    assert forall|k: int| 0 <= k < 6 implies #[trigger] digits[k] < 16 by {}
    lemma_hex_char_digit(c.r / 16);
    lemma_hex_char_digit(c.r % 16);
    lemma_hex_char_digit(c.g / 16);
    lemma_hex_char_digit(c.g % 16);
    lemma_hex_char_digit(c.b / 16);
    lemma_hex_char_digit(c.b % 16);
    assert(skip_ws(s, 0) == 0);
    assert(s.skip(0) =~= s);
    assert(trim_end_len(s, 7) == 7);
    assert(s.take(7) =~= s);
    assert(skip_hashes(s, 1) == 1);
    assert(skip_hashes(s, 0) == 1);
    let body = s.skip(1);
    assert(hex_body(s) == body);
    assert(is_ascii_chars(body));
    is_ascii_chars_encode_utf8(body);
    let b = encode_utf8(body);
    assert(b.len() == 6);
    encode_utf8_valid_utf8(body);
    is_char_boundary_start_end_of_seq(b);
    is_char_boundary_iff_not_is_continuation_byte(b, 2);
    is_char_boundary_iff_not_is_continuation_byte(b, 4);
    assert(b[0] == hex_char(c.r / 16) as u8);
    assert(b[1] == hex_char(c.r % 16) as u8);
    assert(b[2] == hex_char(c.g / 16) as u8);
    assert(b[3] == hex_char(c.g % 16) as u8);
    assert(b[4] == hex_char(c.b / 16) as u8);
    assert(b[5] == hex_char(c.b % 16) as u8);
    assert(hex_pair(b[0], b[1]) == Some(c.r));
    assert(hex_pair(b[2], b[3]) == Some(c.g));
    assert(hex_pair(b[4], b[5]) == Some(c.b));
}

/// Whether `c` is a hexadecimal digit (either case).
pub open spec fn is_hex_char(c: char) -> bool {
    ||| '0' <= c <= '9'
    ||| 'a' <= c <= 'f'
    ||| 'A' <= c <= 'F'
}

/// `#` followed by hex digits: the body is the digits, encoded one byte
/// each, and no byte index inside it cuts a character.
proof fn lemma_hash_and_digits(body: Seq<char>)
    requires
        body.len() > 0,
        forall|i: int| 0 <= i < body.len() ==> is_hex_char(#[trigger] body[i]),
    ensures
        hex_body(seq!['#'] + body) == body,
        encode_utf8(body).len() == body.len(),
        forall|i: int| 0 <= i < body.len() ==> #[trigger] encode_utf8(body)[i] == body[i] as u8,
        forall|i: int| 0 <= i <= body.len() ==> is_char_boundary(encode_utf8(body), i),
{
    let s = seq!['#'] + body;
    let n = s.len() as int;
    assert(s[0] == '#');
    assert(!is_ws(s[0]));
    assert(skip_ws(s, 0) == 0);
    assert(s.skip(0) =~= s);
    assert(s[n - 1] == body[body.len() - 1]);
    assert(!is_ws(s[n - 1]));
    assert(trim_end_len(s, n) == n);
    assert(s.take(n) =~= s);
    assert(s[1] == body[0]);
    assert(skip_hashes(s, 1) == 1);
    assert(skip_hashes(s, 0) == 1);
    assert(s.skip(1) =~= body);
    assert(is_ascii_chars(body)) by {
        assert forall|i: int| 0 <= i < body.len() implies (body[i] as u32) < 128 by {
            assert(is_hex_char(body[i]));
        }
    }
    is_ascii_chars_encode_utf8(body);
    let b = encode_utf8(body);
    encode_utf8_valid_utf8(body);
    is_char_boundary_start_end_of_seq(b);
    assert forall|i: int| 0 <= i <= body.len() implies is_char_boundary(b, i) by {
        if i < body.len() {
            is_char_boundary_iff_not_is_continuation_byte(b, i);
            assert(b[i] == body[i] as u8);
            assert(is_hex_char(body[i]));
        }
    }
}

/// The short form is the long form with each digit doubled, in either
/// case: a one-digit channel `x` is worth what the two digits `x x` are.
pub proof fn law_short_digit_is_doubled(x: u8)
    ensures
        hex_short(x) == hex_pair(x, x),
        (48 <= x <= 57 || 65 <= x <= 70 || 97 <= x <= 102) ==> hex_short(x) is Some,
{
}

/// `#xyz` is the color `#xxyyzz`, for hex digits of either case: both
/// parse, without slicing a character, to the same color.
pub proof fn law_short_form_doubles(a: char, b: char, c: char)
    requires
        is_hex_char(a),
        is_hex_char(b),
        is_hex_char(c),
    ensures
        !hex_cuts_char(encode_utf8(hex_body(seq!['#', a, b, c]))),
        !hex_cuts_char(encode_utf8(hex_body(seq!['#', a, a, b, b, c, c]))),
        parsed_hex(seq!['#', a, b, c]) is Some,
        parsed_hex(seq!['#', a, b, c]) == parsed_hex(seq!['#', a, a, b, b, c, c]),
{
    let short = seq![a, b, c];
    let long = seq![a, a, b, b, c, c];
    assert(seq!['#'] + short =~= seq!['#', a, b, c]);
    assert(seq!['#'] + long =~= seq!['#', a, a, b, b, c, c]);
    assert forall|i: int| 0 <= i < short.len() implies is_hex_char(#[trigger] short[i]) by {}
    assert forall|i: int| 0 <= i < long.len() implies is_hex_char(#[trigger] long[i]) by {}
    lemma_hash_and_digits(short);
    lemma_hash_and_digits(long);
    let sb = encode_utf8(short);
    let lb = encode_utf8(long);
    assert(sb[0] == a as u8 && sb[1] == b as u8 && sb[2] == c as u8);
    assert(lb[0] == a as u8 && lb[1] == a as u8 && lb[2] == b as u8);
    assert(lb[3] == b as u8 && lb[4] == c as u8 && lb[5] == c as u8);
    assert(is_char_boundary(sb, 1) && is_char_boundary(sb, 2) && is_char_boundary(sb, 3));
    assert(is_char_boundary(lb, 2) && is_char_boundary(lb, 4) && is_char_boundary(lb, 6));
    law_short_digit_is_doubled(a as u8);
    law_short_digit_is_doubled(b as u8);
    law_short_digit_is_doubled(c as u8);
}

} // verus!
