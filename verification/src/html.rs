//! HTML subset to Markdown conversion.
//!
//! A tokenizer splits the input into text runs and tags; the tags `h1`–`h6`,
//! `p`, `br`, `hr`, `strong`/`b`, `em`/`i`, `code`, `pre`, `a`, `ul`, `ol`,
//! `li` and `blockquote` become Markdown markup. Unknown tags are dropped and
//! their text content is kept. A `<` that does not start a tag is text.

use vstd::prelude::*;
use iced::widget::markdown;
use crate::text::{
    chars_of, decimal, is_ascii_alpha, is_ascii_alphabetic, is_whitespace, is_ws, lower,
    is_literal, lower_seq, push_all, push_decimal, same_chars, trim_end_len, string_of, to_ascii_lowercase,
};

verus! {

// ---------------------------------------------------------------------------
// Entities
// ---------------------------------------------------------------------------

/// `s` with every occurrence of `pat` replaced by `rep`, scanning left to right
/// without overlaps (what `str::replace` does).
pub open spec fn replace_all(s: Seq<char>, pat: Seq<char>, rep: char) -> Seq<char>
    decreases s.len(),
{
    if s.len() == 0 {
        Seq::empty()
    } else if 0 < pat.len() <= s.len() && s.take(pat.len() as int) == pat {
        seq![rep] + replace_all(s.skip(pat.len() as int), pat, rep)
    } else {
        seq![s[0]] + replace_all(s.skip(1), pat, rep)
    }
}

pub open spec fn amp_entity() -> Seq<char> { seq!['&', 'a', 'm', 'p', ';'] }
pub open spec fn lt_entity() -> Seq<char> { seq!['&', 'l', 't', ';'] }
pub open spec fn gt_entity() -> Seq<char> { seq!['&', 'g', 't', ';'] }
pub open spec fn quot_entity() -> Seq<char> { seq!['&', 'q', 'u', 'o', 't', ';'] }
pub open spec fn apos_entity() -> Seq<char> { seq!['&', '#', '3', '9', ';'] }
pub open spec fn nbsp_entity() -> Seq<char> { seq!['&', 'n', 'b', 's', 'p', ';'] }

/// Entity decoding: `&amp;`, `&lt;`, `&gt;`, `&quot;`, `&#39;` and `&nbsp;`
/// are replaced, one entity after the other, in that order.
pub open spec fn decode(s: Seq<char>) -> Seq<char> {
    replace_all(
        replace_all(
            replace_all(
                replace_all(
                    replace_all(replace_all(s, amp_entity(), '&'), lt_entity(), '<'),
                    gt_entity(),
                    '>',
                ),
                quot_entity(),
                '"',
            ),
            apos_entity(),
            '\'',
        ),
        nbsp_entity(),
        ' ',
    )
}

/// Whether `pat` occurs in `s` at position `i`.
fn matches_at(s: &[char], i: usize, pat: &[char]) -> (r: bool)
    requires
        i <= s@.len(),
    ensures
        r == (i + pat@.len() <= s@.len() && s@.subrange(i as int, i + pat@.len()) == pat@),
{
    if pat.len() > s.len() - i {
        return false;
    }
    let mut j: usize = 0;
    while j < pat.len()
        invariant
            i + pat@.len() <= s@.len(),
            s@.len() == s.len(),
            j <= pat@.len(),
            forall|k: int| 0 <= k < j ==> s@[i + k] == pat@[k],
        decreases pat@.len() - j,
    {
        if s[i + j] != pat[j] {
            assert(s@.subrange(i as int, i + pat@.len())[j as int] != pat@[j as int]);
            return false;
        }
        j = j + 1;
    }
    assert(s@.subrange(i as int, i + pat@.len()) =~= pat@);
    true
}

/// Replaces every occurrence of `pat` in `s` by `rep`.
fn replace_chars(s: &[char], pat: &[char], rep: char) -> (r: Vec<char>)
    requires
        pat@.len() > 0,
    ensures
        r@ == replace_all(s@, pat@, rep),
{
    let mut out: Vec<char> = Vec::new();
    let mut i: usize = 0;
    assert(s@.skip(0) =~= s@);
    while i < s.len()
        invariant
            pat@.len() > 0,
            i <= s@.len(),
            out@ + replace_all(s@.skip(i as int), pat@, rep) == replace_all(s@, pat@, rep),
        decreases s@.len() - i,
    {
        let ghost t = s@.skip(i as int);
        if matches_at(s, i, pat) {
            assert(t.take(pat@.len() as int) =~= s@.subrange(i as int, i + pat@.len()));
            assert(t.skip(pat@.len() as int) =~= s@.skip(i + pat@.len()));
            out.push(rep);
            i = i + pat.len();
        } else {
            assert(t.take(pat@.len() as int) =~= s@.subrange(i as int, i + pat@.len()) || pat@.len()
                > t.len());
            assert(t.skip(1) =~= s@.skip(i + 1));
            out.push(s[i]);
            i = i + 1;
        }
        assert(out@ + replace_all(s@.skip(i as int), pat@, rep) =~= replace_all(s@, pat@, rep));
    }
    assert(s@.skip(i as int) =~= Seq::<char>::empty());
    assert(out@ + Seq::<char>::empty() =~= out@);
    out
}

/// Entity decoding on characters.
fn decode_chars(s: &[char]) -> (r: Vec<char>)
    ensures
        r@ == decode(s@),
{
    let a = replace_chars(s, &['&', 'a', 'm', 'p', ';'], '&');
    let b = replace_chars(a.as_slice(), &['&', 'l', 't', ';'], '<');
    let c = replace_chars(b.as_slice(), &['&', 'g', 't', ';'], '>');
    let d = replace_chars(c.as_slice(), &['&', 'q', 'u', 'o', 't', ';'], '"');
    let e = replace_chars(d.as_slice(), &['&', '#', '3', '9', ';'], '\'');
    replace_chars(e.as_slice(), &['&', 'n', 'b', 's', 'p', ';'], ' ')
}

/// Replaces the HTML entities `&amp;`, `&lt;`, `&gt;`, `&quot;`, `&#39;` and
/// `&nbsp;`, in that order.
pub fn decode_entities(s: &str) -> (r: String)
    ensures
        r@ == decode(s@),
{
    let cs = chars_of(s);
    let d = decode_chars(cs.as_slice());
    string_of(d.as_slice())
}

// ---------------------------------------------------------------------------
// Scanning
// ---------------------------------------------------------------------------

/// First position at or after `i` that holds `c`, or `s.len()` when there is none.
pub open spec fn find_char(s: Seq<char>, i: int, c: char) -> int
    decreases s.len() - i,
{
    if 0 <= i < s.len() && s[i] != c {
        find_char(s, i + 1, c)
    } else {
        i
    }
}

/// First position at or after `i` that does not hold white space.
pub open spec fn skip_ws(s: Seq<char>, i: int) -> int
    decreases s.len() - i,
{
    if 0 <= i < s.len() && is_ws(s[i]) {
        skip_ws(s, i + 1)
    } else {
        i
    }
}

/// First position at or after `i` that holds white space, or `s.len()`.
pub open spec fn find_ws(s: Seq<char>, i: int) -> int
    decreases s.len() - i,
{
    if 0 <= i < s.len() && !is_ws(s[i]) {
        find_ws(s, i + 1)
    } else {
        i
    }
}

/// Characters that end an attribute name.
pub open spec fn is_key_stop(c: char) -> bool {
    c == '=' || is_ws(c) || c == '>'
}

/// End of the attribute name that starts at `i`.
pub open spec fn key_end(s: Seq<char>, i: int) -> int
    decreases s.len() - i,
{
    if 0 <= i < s.len() && !is_key_stop(s[i]) {
        key_end(s, i + 1)
    } else {
        i
    }
}

/// End of the unquoted attribute value that starts at `i`.
pub open spec fn unquoted_end(s: Seq<char>, i: int) -> int
    decreases s.len() - i,
{
    if 0 <= i < s.len() && !(is_ws(s[i]) || s[i] == '>') {
        unquoted_end(s, i + 1)
    } else {
        i
    }
}

pub proof fn lemma_find_char_bounds(s: Seq<char>, i: int, c: char)
    requires
        0 <= i <= s.len(),
    ensures
        i <= find_char(s, i, c) <= s.len(),
        find_char(s, i, c) < s.len() ==> s[find_char(s, i, c)] == c,
        forall|j: int| i <= j < find_char(s, i, c) ==> s[j] != c,
    decreases s.len() - i,
{
    if i < s.len() && s[i] != c {
        lemma_find_char_bounds(s, i + 1, c);
    }
}

pub proof fn lemma_skip_ws_bounds(s: Seq<char>, i: int)
    requires
        0 <= i <= s.len(),
    ensures
        i <= skip_ws(s, i) <= s.len(),
    decreases s.len() - i,
{
    if i < s.len() && is_ws(s[i]) {
        lemma_skip_ws_bounds(s, i + 1);
    }
}

pub proof fn lemma_key_end_bounds(s: Seq<char>, i: int)
    requires
        0 <= i <= s.len(),
    ensures
        i <= key_end(s, i) <= s.len(),
    decreases s.len() - i,
{
    if i < s.len() && !is_key_stop(s[i]) {
        lemma_key_end_bounds(s, i + 1);
    }
}

pub proof fn lemma_unquoted_end_bounds(s: Seq<char>, i: int)
    requires
        0 <= i <= s.len(),
    ensures
        i <= unquoted_end(s, i) <= s.len(),
    decreases s.len() - i,
{
    if i < s.len() && !(is_ws(s[i]) || s[i] == '>') {
        lemma_unquoted_end_bounds(s, i + 1);
    }
}

/// Copy of `s[a..b]`.
fn copy_range(s: &[char], a: usize, b: usize) -> (r: Vec<char>)
    requires
        a <= b <= s@.len(),
    ensures
        r@ == s@.subrange(a as int, b as int),
{
    let mut r: Vec<char> = Vec::new();
    let mut i: usize = a;
    while i < b
        invariant
            a <= i <= b <= s@.len(),
            r@ == s@.subrange(a as int, i as int),
        decreases b - i,
    {
        r.push(s[i]);
        i = i + 1;
        assert(r@ =~= s@.subrange(a as int, i as int));
    }
    r
}

/// ASCII-lower-cased copy of `s[a..b]`.
fn lower_range(s: &[char], a: usize, b: usize) -> (r: Vec<char>)
    requires
        a <= b <= s@.len(),
    ensures
        r@ == lower_seq(s@.subrange(a as int, b as int)),
{
    let mut r: Vec<char> = Vec::new();
    let mut i: usize = a;
    while i < b
        invariant
            a <= i <= b <= s@.len(),
            r@ == lower_seq(s@.subrange(a as int, i as int)),
        decreases b - i,
    {
        let c = to_ascii_lowercase(s[i]);
        r.push(c);
        i = i + 1;
        assert(r@ =~= lower_seq(s@.subrange(a as int, i as int)));
    }
    r
}

// ---------------------------------------------------------------------------
// Attributes
// ---------------------------------------------------------------------------

/// The value of the attribute whose name ends at `k`, and the position after it.
pub open spec fn attr_value(s: Seq<char>, k: int) -> (Seq<char>, int) {
    if 0 <= k < s.len() && s[k] == '=' {
        let v = k + 1;
        if v < s.len() && (s[v] == '"' || s[v] == '\'') {
            let e = find_char(s, v + 1, s[v]);
            (s.subrange(v + 1, e), if e < s.len() {
                e + 1
            } else {
                e
            })
        } else {
            let e = unquoted_end(s, v);
            (s.subrange(v, e), e)
        }
    } else {
        (Seq::empty(), k)
    }
}

pub proof fn lemma_attr_value_bounds(s: Seq<char>, k: int)
    requires
        0 <= k <= s.len(),
    ensures
        k <= attr_value(s, k).1 <= s.len(),
{
    if 0 <= k < s.len() && s[k] == '=' {
        let v = k + 1;
        if v < s.len() && (s[v] == '"' || s[v] == '\'') {
            lemma_find_char_bounds(s, v + 1, s[v]);
        } else {
            lemma_unquoted_end_bounds(s, v);
        }
    }
}

/// Attributes `name`, `name=value`, `name="value"` and `name='value'` from
/// position `i` on: names are lower-cased, values entity-decoded; parsing
/// stops at the first position where no name starts.
pub open spec fn attrs_from(s: Seq<char>, i: int) -> Seq<(Seq<char>, Seq<char>)>
    decreases s.len() - i,
{
    if !(0 <= i <= s.len()) {
        Seq::empty()
    } else {
        let a = skip_ws(s, i);
        let k = key_end(s, a);
        if k <= a {
            Seq::empty()
        } else {
            let n = attr_value(s, k).1;
            proof {
                lemma_skip_ws_bounds(s, i);
                lemma_key_end_bounds(s, a);
                lemma_attr_value_bounds(s, k);
            }
            seq![(lower_seq(s.subrange(a, k)), decode(attr_value(s, k).0))] + attrs_from(s, n)
        }
    }
}

/// The attribute pairs held by `v`, as character sequences.
pub open spec fn pairs_view(v: Seq<(String, String)>) -> Seq<(Seq<char>, Seq<char>)> {
    v.map_values(|p: (String, String)| (p.0@, p.1@))
}

/// Parses the attribute list of a tag (the text after the tag name).
pub fn parse_attrs(s: &[char]) -> (r: Vec<(String, String)>)
    ensures
        pairs_view(r@) == attrs_from(s@, 0),
{
    let mut out: Vec<(String, String)> = Vec::new();
    let mut i: usize = 0;
    let n = s.len();
    loop
        invariant
            n == s@.len(),
            i <= n,
            pairs_view(out@) + attrs_from(s@, i as int) == attrs_from(s@, 0),
        decreases n - i,
    {
        let mut a: usize = i;
        while a < n && is_whitespace(s[a])
            invariant
                n == s@.len(),
                i <= a <= n,
                skip_ws(s@, a as int) == skip_ws(s@, i as int),
            decreases n - a,
        {
            a = a + 1;
        }
        let mut k: usize = a;
        while k < n && !(s[k] == '=' || is_whitespace(s[k]) || s[k] == '>')
            invariant
                n == s@.len(),
                a <= k <= n,
                key_end(s@, k as int) == key_end(s@, a as int),
            decreases n - k,
        {
            k = k + 1;
        }
        if k == a {
            assert(attrs_from(s@, i as int) =~= Seq::empty());
            assert(pairs_view(out@) + Seq::empty() =~= pairs_view(out@));
            return out;
        }
        let key = lower_range(s, a, k);
        let mut vstart: usize = k;
        let mut vend: usize = k;
        let mut next: usize = k;
        if k < n && s[k] == '=' {
            let v = k + 1;
            if v < n && (s[v] == '"' || s[v] == '\'') {
                let q = s[v];
                let mut e: usize = v + 1;
                while e < n && s[e] != q
                    invariant
                        n == s@.len(),
                        v + 1 <= e <= n,
                        find_char(s@, e as int, q) == find_char(s@, v + 1, q),
                    decreases n - e,
                {
                    e = e + 1;
                }
                vstart = v + 1;
                vend = e;
                next = if e < n { e + 1 } else { e };
            } else {
                let mut e: usize = v;
                while e < n && !(is_whitespace(s[e]) || s[e] == '>')
                    invariant
                        n == s@.len(),
                        v <= e <= n,
                        unquoted_end(s@, e as int) == unquoted_end(s@, v as int),
                    decreases n - e,
                {
                    e = e + 1;
                }
                vstart = v;
                vend = e;
                next = e;
            }
        }
        assert(attr_value(s@, k as int) == (s@.subrange(vstart as int, vend as int), next as int));
        let raw = copy_range(s, vstart, vend);
        let value = decode_chars(raw.as_slice());
        let ks = string_of(key.as_slice());
        let vs = string_of(value.as_slice());
        let ghost before = out@;
        out.push((ks, vs));
        proof {
            assert(pairs_view(out@) =~= pairs_view(before).push((ks@, vs@)));
            assert(attrs_from(s@, i as int) =~= seq![(ks@, vs@)] + attrs_from(s@, next as int));
            assert(pairs_view(out@) + attrs_from(s@, next as int) =~= pairs_view(before)
                + attrs_from(s@, i as int));
        }
        i = next;
    }
}

// ---------------------------------------------------------------------------
// Tags
// ---------------------------------------------------------------------------

/// A lexical unit of the input: a text run (entities decoded) or a tag.
#[derive(Debug, Clone)]
pub enum Token {
    Text(String),
    Open(String, Vec<(String, String)>),
    Close(String),
    SelfClose(String),
}

/// A token as character sequences.
pub enum SpecToken {
    Text(Seq<char>),
    Open(Seq<char>, Seq<(Seq<char>, Seq<char>)>),
    Close(Seq<char>),
    SelfClose(Seq<char>),
}

impl View for Token {
    type V = SpecToken;

    open spec fn view(&self) -> SpecToken {
        match self {
            Token::Text(s) => SpecToken::Text(s@),
            Token::Open(n, a) => SpecToken::Open(n@, pairs_view(a@)),
            Token::Close(n) => SpecToken::Close(n@),
            Token::SelfClose(n) => SpecToken::SelfClose(n@),
        }
    }
}

/// Tags that never have content, whether or not they are written with `/>`.
pub open spec fn is_void(name: Seq<char>) -> bool {
    ||| name == seq!['b', 'r']
    ||| name == seq!['h', 'r']
    ||| name == seq!['i', 'm', 'g']
    ||| name == seq!['i', 'n', 'p', 'u', 't']
}

/// The tag that starts at `pos`, if one does: `<name attrs>`, `</name>` or
/// `<name attrs/>`, with the position just after its `>`. The name is the
/// text up to the first white space, lower-cased, and must start with an
/// ASCII letter.
pub open spec fn tag_at(src: Seq<char>, pos: int) -> Option<(SpecToken, int)> {
    let end = find_char(src, pos, '>');
    if !(0 <= pos) || end >= src.len() {
        None
    } else {
        let inner = src.subrange(pos + 1, end);
        if inner.len() == 0 {
            None
        } else {
            let is_close = inner[0] == '/';
            let body0 = if is_close {
                inner.skip(1)
            } else {
                inner
            };
            let self_close = body0.len() > 0 && body0.last() == '/';
            let body = if self_close {
                body0.take(trim_end_len(body0, body0.len() - 1))
            } else {
                body0
            };
            let name_end = find_ws(body, 0);
            let name = lower_seq(body.take(name_end));
            if name.len() == 0 || !is_ascii_alpha(name[0]) {
                None
            } else {
                let tok = if is_close {
                    SpecToken::Close(name)
                } else if self_close || is_void(name) {
                    SpecToken::SelfClose(name)
                } else {
                    SpecToken::Open(name, attrs_from(body.skip(name_end), 0))
                };
                Some((tok, end + 1))
            }
        }
    }
}

/// Whether `name` is one of the void tags.
fn is_void_name(name: &[char]) -> (r: bool)
    ensures
        r == is_void(name@),
{
    same_chars(name, &['b', 'r']) || same_chars(name, &['h', 'r']) || same_chars(
        name,
        &['i', 'm', 'g'],
    ) || same_chars(name, &['i', 'n', 'p', 'u', 't'])
}

/// Parses the tag that starts at `pos` (a `<`), returning it with the
/// position just after its closing `>`.
pub fn parse_tag(src: &[char], pos: usize) -> (r: Option<(Token, usize)>)
    requires
        pos <= src@.len(),
        pos < src@.len() ==> src@[pos as int] != '>',
    ensures
        match tag_at(src@, pos as int) {
            None => r is None,
            Some((t, np)) => r is Some && (r->0).0@ == t && (r->0).1 == np,
        },
{
    let n = src.len();
    let ghost s = src@;
    let mut end: usize = pos;
    while end < n && src[end] != '>'
        invariant
            n == s.len(),
            s == src@,
            pos <= end <= n,
            find_char(s, end as int, '>') == find_char(s, pos as int, '>'),
        decreases n - end,
    {
        end = end + 1;
    }
    if end >= n {
        return None;
    }
    assert(end > pos);
    let start = pos + 1;
    let ghost inner = s.subrange(start as int, end as int);
    if start == end {
        return None;
    }
    let is_close = src[start] == '/';
    let b0: usize = if is_close {
        start + 1
    } else {
        start
    };
    let ghost body0 = if is_close {
        inner.skip(1)
    } else {
        inner
    };
    assert(body0 =~= s.subrange(b0 as int, end as int));
    let mut b1: usize = end;
    let self_close = b0 < end && src[end - 1] == '/';
    if self_close {
        b1 = end - 1;
        while b1 > b0 && is_whitespace(src[b1 - 1])
            invariant
                b0 <= b1 < end,
                end <= n == s.len(),
                s == src@,
                body0 =~= s.subrange(b0 as int, end as int),
                trim_end_len(body0, b1 - b0) == trim_end_len(body0, body0.len() - 1),
            decreases b1,
        {
            assert(body0[b1 - b0 - 1] == s[b1 - 1]);
            b1 = b1 - 1;
        }
    }
    let body = copy_range(src, b0, b1);
    proof {
        if self_close {
            assert(body@ =~= body0.take(trim_end_len(body0, body0.len() - 1)));
        } else {
            assert(body@ =~= body0);
        }
    }
    let bl = body.len();
    let mut ne: usize = 0;
    while ne < bl && !is_whitespace(body[ne])
        invariant
            bl == body@.len(),
            ne <= bl,
            find_ws(body@, ne as int) == find_ws(body@, 0),
        decreases bl - ne,
    {
        ne = ne + 1;
    }
    let ghost name_spec = lower_seq(body@.take(ne as int));
    if ne == 0 {
        assert(name_spec.len() == 0);
        return None;
    }
    let first = to_ascii_lowercase(body[0]);
    assert(name_spec[0] == first);
    if !is_ascii_alphabetic(first) {
        return None;
    }
    let name = lower_range(body.as_slice(), 0, ne);
    assert(name@ =~= name_spec);
    let tok = if is_close {
        Token::Close(string_of(name.as_slice()))
    } else if self_close || is_void_name(name.as_slice()) {
        Token::SelfClose(string_of(name.as_slice()))
    } else {
        let rest = copy_range(body.as_slice(), ne, bl);
        assert(rest@ =~= body@.skip(ne as int));
        let attrs = parse_attrs(rest.as_slice());
        Token::Open(string_of(name.as_slice()), attrs)
    };
    Some((tok, end + 1))
}

// ---------------------------------------------------------------------------
// Tokenizer
// ---------------------------------------------------------------------------

/// The token that starts at `pos` and the position after it. A `<` that
/// does not start a tag is text, like everything up to the next `<`.
pub open spec fn next_token(src: Seq<char>, pos: int) -> Option<(SpecToken, int)> {
    if !(0 <= pos < src.len()) {
        None
    } else if src[pos] == '<' && tag_at(src, pos) is Some {
        tag_at(src, pos)
    } else {
        let from = if src[pos] == '<' {
            pos + 1
        } else {
            pos
        };
        let e = find_char(src, from, '<');
        Some((SpecToken::Text(decode(src.subrange(pos, e))), e))
    }
}

pub proof fn lemma_next_token_advances(src: Seq<char>, pos: int)
    requires
        0 <= pos < src.len(),
    ensures
        next_token(src, pos) is Some,
        pos < (next_token(src, pos)->0).1 <= src.len(),
{
    if src[pos] == '<' && tag_at(src, pos) is Some {
        lemma_find_char_bounds(src, pos, '>');
    } else {
        let from = if src[pos] == '<' {
            pos + 1
        } else {
            pos
        };
        lemma_find_char_bounds(src, from, '<');
    }
}

/// All tokens of `src` from position `pos` on.
pub open spec fn tokens_from(src: Seq<char>, pos: int) -> Seq<SpecToken>
    decreases src.len() - pos,
{
    if 0 <= pos < src.len() {
        proof {
            lemma_next_token_advances(src, pos);
        }
        seq![(next_token(src, pos)->0).0] + tokens_from(src, (next_token(src, pos)->0).1)
    } else {
        Seq::empty()
    }
}

/// Splits HTML source into tokens, one per call of [`Tokenizer::next`].
pub struct Tokenizer {
    pub src: Vec<char>,
    pub pos: usize,
    /// The `href` of the innermost open `<a>`, kept for its closing tag.
    pub pending_href: Option<String>,
}

impl Tokenizer {
    pub fn new(src: &str) -> (r: Tokenizer)
        ensures
            r.src@ == src@,
            r.pos == 0,
            r.pending_href is None,
    {
        Tokenizer { src: chars_of(src), pos: 0, pending_href: None }
    }

    /// The next token, or `None` at the end of the source.
    pub fn next(&mut self) -> (r: Option<Token>)
        ensures
            final(self).src@ == old(self).src@,
            final(self).pending_href == old(self).pending_href,
            match next_token(old(self).src@, old(self).pos as int) {
                None => r is None && final(self).pos == old(self).pos,
                Some((t, np)) => r is Some && r->0@ == t && final(self).pos == np,
            },
    {
        let n = self.src.len();
        if self.pos >= n {
            return None;
        }
        let ghost s = self.src@;
        let pos = self.pos;
        if self.src[pos] == '<' {
            match parse_tag(self.src.as_slice(), pos) {
                Some((tok, np)) => {
                    self.pos = np;
                    return Some(tok);
                },
                None => {},
            }
        }
        let mut p: usize = if self.src[pos] == '<' {
            pos + 1
        } else {
            pos
        };
        let ghost from = p;
        while p < n && self.src[p] != '<'
            invariant
                n == s.len(),
                self.src@ == s,
                from <= p <= n,
                find_char(s, p as int, '<') == find_char(s, from as int, '<'),
            decreases n - p,
        {
            p = p + 1;
        }
        let raw = copy_range(self.src.as_slice(), pos, p);
        let text = decode_chars(raw.as_slice());
        self.pos = p;
        Some(Token::Text(string_of(text.as_slice())))
    }
}

// ---------------------------------------------------------------------------
// Markdown
// ---------------------------------------------------------------------------

/// The kind of an open list.
#[derive(Debug, Clone, Copy, PartialEq, Eq)]
pub enum ListKind {
    Unordered,
    Ordered,
}

/// What the converter has produced and what it remembers while it reads tokens:
/// the Markdown so far, the open lists with the number of items each has
/// seen, and the `href` of the open link.
pub struct MdState {
    pub out: Seq<char>,
    pub lists: Seq<(ListKind, nat)>,
    pub href: Option<Seq<char>>,
}

pub open spec fn md_start() -> MdState {
    MdState { out: Seq::empty(), lists: Seq::empty(), href: None }
}

pub open spec fn emit(st: MdState, s: Seq<char>) -> MdState {
    MdState { out: st.out + s, lists: st.lists, href: st.href }
}

/// The tag names that the conversion knows.
#[derive(Debug, Clone, Copy, PartialEq, Eq)]
pub enum TagName {
    H1,
    H2,
    H3,
    H4,
    H5,
    H6,
    P,
    Strong,
    B,
    Em,
    I,
    Code,
    Pre,
    Blockquote,
    Ul,
    Ol,
    Li,
    A,
    Br,
    Hr,
    Other,
}

/// Which known tag `name` is.
pub open spec fn tag_name(name: Seq<char>) -> TagName {
    if name == seq!['h', '1'] {
        TagName::H1
    } else if name == seq!['h', '2'] {
        TagName::H2
    } else if name == seq!['h', '3'] {
        TagName::H3
    } else if name == seq!['h', '4'] {
        TagName::H4
    } else if name == seq!['h', '5'] {
        TagName::H5
    } else if name == seq!['h', '6'] {
        TagName::H6
    } else if name == seq!['p'] {
        TagName::P
    } else if name == seq!['s', 't', 'r', 'o', 'n', 'g'] {
        TagName::Strong
    } else if name == seq!['b'] {
        TagName::B
    } else if name == seq!['e', 'm'] {
        TagName::Em
    } else if name == seq!['i'] {
        TagName::I
    } else if name == seq!['c', 'o', 'd', 'e'] {
        TagName::Code
    } else if name == seq!['p', 'r', 'e'] {
        TagName::Pre
    } else if name == seq!['b', 'l', 'o', 'c', 'k', 'q', 'u', 'o', 't', 'e'] {
        TagName::Blockquote
    } else if name == seq!['u', 'l'] {
        TagName::Ul
    } else if name == seq!['o', 'l'] {
        TagName::Ol
    } else if name == seq!['l', 'i'] {
        TagName::Li
    } else if name == seq!['a'] {
        TagName::A
    } else if name == seq!['b', 'r'] {
        TagName::Br
    } else if name == seq!['h', 'r'] {
        TagName::Hr
    } else {
        TagName::Other
    }
}

/// Classifies a tag name.
fn classify(name: &[char]) -> (r: TagName)
    ensures
        r == tag_name(name@),
{
    let ghost is_h1_lit = seq!['h', '1'];
    let is_h1 = is_literal(name, &['h', '1'], Ghost(is_h1_lit));
    if is_h1 {
        return TagName::H1;
    }
    let ghost is_h2_lit = seq!['h', '2'];
    let is_h2 = is_literal(name, &['h', '2'], Ghost(is_h2_lit));
    if is_h2 {
        return TagName::H2;
    }
    let ghost is_h3_lit = seq!['h', '3'];
    let is_h3 = is_literal(name, &['h', '3'], Ghost(is_h3_lit));
    if is_h3 {
        return TagName::H3;
    }
    let ghost is_h4_lit = seq!['h', '4'];
    let is_h4 = is_literal(name, &['h', '4'], Ghost(is_h4_lit));
    if is_h4 {
        return TagName::H4;
    }
    let ghost is_h5_lit = seq!['h', '5'];
    let is_h5 = is_literal(name, &['h', '5'], Ghost(is_h5_lit));
    if is_h5 {
        return TagName::H5;
    }
    let ghost is_h6_lit = seq!['h', '6'];
    let is_h6 = is_literal(name, &['h', '6'], Ghost(is_h6_lit));
    if is_h6 {
        return TagName::H6;
    }
    let ghost is_p_lit = seq!['p'];
    let is_p = is_literal(name, &['p'], Ghost(is_p_lit));
    if is_p {
        return TagName::P;
    }
    let ghost is_strong_lit = seq!['s', 't', 'r', 'o', 'n', 'g'];
    let is_strong = is_literal(name, &['s', 't', 'r', 'o', 'n', 'g'], Ghost(is_strong_lit));
    if is_strong {
        return TagName::Strong;
    }
    let ghost is_b_lit = seq!['b'];
    let is_b = is_literal(name, &['b'], Ghost(is_b_lit));
    if is_b {
        return TagName::B;
    }
    let ghost is_em_lit = seq!['e', 'm'];
    let is_em = is_literal(name, &['e', 'm'], Ghost(is_em_lit));
    if is_em {
        return TagName::Em;
    }
    let ghost is_i_lit = seq!['i'];
    let is_i = is_literal(name, &['i'], Ghost(is_i_lit));
    if is_i {
        return TagName::I;
    }
    let ghost is_code_lit = seq!['c', 'o', 'd', 'e'];
    let is_code = is_literal(name, &['c', 'o', 'd', 'e'], Ghost(is_code_lit));
    if is_code {
        return TagName::Code;
    }
    let ghost is_pre_lit = seq!['p', 'r', 'e'];
    let is_pre = is_literal(name, &['p', 'r', 'e'], Ghost(is_pre_lit));
    if is_pre {
        return TagName::Pre;
    }
    let ghost is_blockquote_lit = seq!['b', 'l', 'o', 'c', 'k', 'q', 'u', 'o', 't', 'e'];
    let is_blockquote = is_literal(name, &['b', 'l', 'o', 'c', 'k', 'q', 'u', 'o', 't', 'e'], Ghost(is_blockquote_lit));
    if is_blockquote {
        return TagName::Blockquote;
    }
    let ghost is_ul_lit = seq!['u', 'l'];
    let is_ul = is_literal(name, &['u', 'l'], Ghost(is_ul_lit));
    if is_ul {
        return TagName::Ul;
    }
    let ghost is_ol_lit = seq!['o', 'l'];
    let is_ol = is_literal(name, &['o', 'l'], Ghost(is_ol_lit));
    if is_ol {
        return TagName::Ol;
    }
    let ghost is_li_lit = seq!['l', 'i'];
    let is_li = is_literal(name, &['l', 'i'], Ghost(is_li_lit));
    if is_li {
        return TagName::Li;
    }
    let ghost is_a_lit = seq!['a'];
    let is_a = is_literal(name, &['a'], Ghost(is_a_lit));
    if is_a {
        return TagName::A;
    }
    let ghost is_br_lit = seq!['b', 'r'];
    let is_br = is_literal(name, &['b', 'r'], Ghost(is_br_lit));
    if is_br {
        return TagName::Br;
    }
    let ghost is_hr_lit = seq!['h', 'r'];
    let is_hr = is_literal(name, &['h', 'r'], Ghost(is_hr_lit));
    if is_hr {
        return TagName::Hr;
    }
    TagName::Other
}

/// Markup written for an opening tag that needs no bookkeeping.
pub open spec fn open_markup(name: Seq<char>) -> Option<Seq<char>> {
    match tag_name(name) {
        TagName::H1 => Some(seq!['\n', '\n', '#', ' ']),
        TagName::H2 => Some(seq!['\n', '\n', '#', '#', ' ']),
        TagName::H3 => Some(seq!['\n', '\n', '#', '#', '#', ' ']),
        TagName::H4 => Some(seq!['\n', '\n', '#', '#', '#', '#', ' ']),
        TagName::H5 => Some(seq!['\n', '\n', '#', '#', '#', '#', '#', ' ']),
        TagName::H6 => Some(seq!['\n', '\n', '#', '#', '#', '#', '#', '#', ' ']),
        TagName::P => Some(seq!['\n', '\n']),
        TagName::Strong | TagName::B => Some(seq!['*', '*']),
        TagName::Em | TagName::I => Some(seq!['*']),
        TagName::Code => Some(seq!['`']),
        TagName::Pre => Some(seq!['\n', '\n', '`', '`', '`', '\n']),
        TagName::Blockquote => Some(seq!['\n', '\n', '>', ' ']),
        _ => None,
    }
}

/// Markup written for a closing tag that needs no bookkeeping.
pub open spec fn close_markup(name: Seq<char>) -> Option<Seq<char>> {
    match tag_name(name) {
        TagName::H1 | TagName::H2 | TagName::H3 | TagName::H4 | TagName::H5 | TagName::H6
        | TagName::P => Some(seq!['\n']),
        TagName::Strong | TagName::B => Some(seq!['*', '*']),
        TagName::Em | TagName::I => Some(seq!['*']),
        TagName::Code => Some(seq!['`']),
        TagName::Pre => Some(seq!['\n', '`', '`', '`', '\n']),
        TagName::Blockquote => Some(seq!['\n']),
        _ => None,
    }
}

/// Markup written for a self-closing tag.
pub open spec fn void_markup(name: Seq<char>) -> Seq<char> {
    match tag_name(name) {
        TagName::Br => seq![' ', ' ', '\n'],
        TagName::Hr => seq!['\n', '\n', '-', '-', '-', '\n', '\n'],
        _ => Seq::empty(),
    }
}

/// The value of the first `href` attribute.
pub open spec fn href_of(attrs: Seq<(Seq<char>, Seq<char>)>) -> Option<Seq<char>>
    decreases attrs.len(),
{
    if attrs.len() == 0 {
        None
    } else if attrs[0].0 == seq!['h', 'r', 'e', 'f'] {
        Some(attrs[0].1)
    } else {
        href_of(attrs.drop_first())
    }
}

/// The marker of a new list item: `- ` in an unordered list, `n. ` for the
/// `n`-th item of an ordered one.
pub open spec fn item_marker(kind: ListKind, n: nat) -> Seq<char> {
    match kind {
        ListKind::Unordered => seq!['-', ' '],
        ListKind::Ordered => decimal(n) + seq!['.', ' '],
    }
}

pub open spec fn step_open(
    st: MdState,
    name: Seq<char>,
    attrs: Seq<(Seq<char>, Seq<char>)>,
) -> MdState {
    if open_markup(name) is Some {
        emit(st, open_markup(name)->0)
    } else {
        match tag_name(name) {
            TagName::Ul => MdState {
                out: st.out.push('\n'),
                lists: st.lists.push((ListKind::Unordered, 0)),
                href: st.href,
            },
            TagName::Ol => MdState {
                out: st.out.push('\n'),
                lists: st.lists.push((ListKind::Ordered, 0)),
                href: st.href,
            },
            TagName::Li => if st.lists.len() > 0 {
                let top = st.lists.last();
                let n = top.1 + 1;
                MdState {
                    out: st.out.push('\n') + item_marker(top.0, n),
                    lists: st.lists.update(st.lists.len() - 1, (top.0, n)),
                    href: st.href,
                }
            } else {
                emit(st, seq!['\n', '-', ' '])
            },
            TagName::A => MdState { out: st.out.push('['), lists: st.lists, href: href_of(attrs) },
            _ => st,
        }
    }
}

pub open spec fn step_close(st: MdState, name: Seq<char>) -> MdState {
    if close_markup(name) is Some {
        emit(st, close_markup(name)->0)
    } else {
        match tag_name(name) {
            TagName::Ul | TagName::Ol => MdState {
                out: st.out.push('\n'),
                lists: if st.lists.len() > 0 {
                    st.lists.drop_last()
                } else {
                    st.lists
                },
                href: st.href,
            },
            TagName::A => {
                let target = match st.href {
                    Some(h) => h,
                    None => Seq::empty(),
                };
                MdState {
                    out: st.out + seq![']', '('] + target + seq![')'],
                    lists: st.lists,
                    href: None,
                }
            },
            _ => st,
        }
    }
}

/// The effect of one token on the conversion.
pub open spec fn step(st: MdState, t: SpecToken) -> MdState {
    match t {
        SpecToken::Text(s) => emit(st, s),
        SpecToken::Open(name, attrs) => step_open(st, name, attrs),
        SpecToken::Close(name) => step_close(st, name),
        SpecToken::SelfClose(name) => emit(st, void_markup(name)),
    }
}

/// The conversion state after the tokens `toks`, starting from `st`.
pub open spec fn run(st: MdState, toks: Seq<SpecToken>) -> MdState
    decreases toks.len(),
{
    if toks.len() == 0 {
        st
    } else {
        run(step(st, toks[0]), toks.drop_first())
    }
}

/// The Markdown for the HTML source `src`.
pub open spec fn markdown_of(src: Seq<char>) -> Seq<char> {
    run(md_start(), tokens_from(src, 0)).out
}

pub open spec fn lists_view(v: Seq<(ListKind, u64)>) -> Seq<(ListKind, nat)> {
    v.map_values(|e: (ListKind, u64)| (e.0, e.1 as nat))
}

pub open spec fn href_view(h: Option<String>) -> Option<Seq<char>> {
    match h {
        Some(s) => Some(s@),
        None => None,
    }
}

pub open spec fn state_of(out: Seq<char>, lists: Seq<(ListKind, u64)>, href: Option<String>) -> MdState {
    MdState { out, lists: lists_view(lists), href: href_view(href) }
}

fn open_markup_of(tag: TagName) -> (r: Option<&'static [char]>)
    ensures
        forall|name: Seq<char>| #[trigger] tag_name(name) == tag ==> (open_markup(name) is None
            <==> r is None) && (r is Some ==> (r->0)@ =~= open_markup(name)->0),
{
    match tag {
        TagName::H1 => Some(&['\n', '\n', '#', ' ']),
        TagName::H2 => Some(&['\n', '\n', '#', '#', ' ']),
        TagName::H3 => Some(&['\n', '\n', '#', '#', '#', ' ']),
        TagName::H4 => Some(&['\n', '\n', '#', '#', '#', '#', ' ']),
        TagName::H5 => Some(&['\n', '\n', '#', '#', '#', '#', '#', ' ']),
        TagName::H6 => Some(&['\n', '\n', '#', '#', '#', '#', '#', '#', ' ']),
        TagName::P => Some(&['\n', '\n']),
        TagName::Strong | TagName::B => Some(&['*', '*']),
        TagName::Em | TagName::I => Some(&['*']),
        TagName::Code => Some(&['`']),
        TagName::Pre => Some(&['\n', '\n', '`', '`', '`', '\n']),
        TagName::Blockquote => Some(&['\n', '\n', '>', ' ']),
        _ => None,
    }
}

fn close_markup_of(tag: TagName) -> (r: Option<&'static [char]>)
    ensures
        forall|name: Seq<char>| #[trigger] tag_name(name) == tag ==> (close_markup(name) is None
            <==> r is None) && (r is Some ==> (r->0)@ =~= close_markup(name)->0),
{
    match tag {
        TagName::H1 | TagName::H2 | TagName::H3 | TagName::H4 | TagName::H5 | TagName::H6
        | TagName::P => Some(&['\n']),
        TagName::Strong | TagName::B => Some(&['*', '*']),
        TagName::Em | TagName::I => Some(&['*']),
        TagName::Code => Some(&['`']),
        TagName::Pre => Some(&['\n', '`', '`', '`', '\n']),
        TagName::Blockquote => Some(&['\n']),
        _ => None,
    }
}

fn find_href(attrs: &Vec<(String, String)>) -> (r: Option<String>)
    ensures
        href_view(r) == href_of(pairs_view(attrs@)),
{
    let mut i: usize = 0;
    assert(pairs_view(attrs@).skip(0) =~= pairs_view(attrs@));
    while i < attrs.len()
        invariant
            i <= attrs@.len(),
            href_of(pairs_view(attrs@)) == href_of(pairs_view(attrs@).skip(i as int)),
        decreases attrs@.len() - i,
    {
        let key = chars_of(attrs[i].0.as_str());
        let ghost rest = pairs_view(attrs@).skip(i as int);
        assert(rest[0] == (attrs@[i as int].0@, attrs@[i as int].1@));
        let ghost is_href_lit = seq!['h', 'r', 'e', 'f'];
        let is_href = is_literal(key.as_slice(), &['h', 'r', 'e', 'f'], Ghost(is_href_lit));
        if is_href {
            return Some(attrs[i].1.clone());
        }
        assert(rest.drop_first() =~= pairs_view(attrs@).skip(i + 1));
        i = i + 1;
    }
    None
}

/// Applies one token to the conversion state held in `out`, `lists` and `href`.
fn apply_token(
    out: &mut Vec<char>,
    lists: &mut Vec<(ListKind, u64)>,
    href: &mut Option<String>,
    tok: Token,
    bound: u64,
)
    requires
        bound < u64::MAX,
        forall|j: int| 0 <= j < old(lists)@.len() ==> old(lists)@[j].1 <= bound,
    ensures
        state_of(final(out)@, final(lists)@, *final(href)) == step(
            state_of(old(out)@, old(lists)@, *old(href)),
            tok@,
        ),
        forall|j: int| 0 <= j < final(lists)@.len() ==> final(lists)@[j].1 <= bound + 1,
{
    let ghost st = state_of(out@, lists@, *href);
    let ghost t = tok@;
    match tok {
        Token::Text(s) => {
            let cs = chars_of(s.as_str());
            push_all(out, cs.as_slice());
            assert(state_of(out@, lists@, *href) == step(st, t));
        },
        Token::Open(name, attrs) => {
            let nm = chars_of(name.as_str());
            let tag = classify(nm.as_slice());
            match open_markup_of(tag) {
                Some(m) => {
                    push_all(out, m);
                    assert(state_of(out@, lists@, *href) == step(st, t));
                },
                None => {
                    match tag {
                        TagName::Ul => {
                            let ghost before = lists@;
                            lists.push((ListKind::Unordered, 0));
                            assert(lists_view(lists@) =~= lists_view(before).push(
                                (ListKind::Unordered, 0),
                            ));
                            out.push('\n');
                            assert(state_of(out@, lists@, *href) == step(st, t));
                        },
                        TagName::Ol => {
                            let ghost before = lists@;
                            lists.push((ListKind::Ordered, 0));
                            assert(lists_view(lists@) =~= lists_view(before).push(
                                (ListKind::Ordered, 0),
                            ));
                            out.push('\n');
                            assert(state_of(out@, lists@, *href) == step(st, t));
                        },
                        TagName::Li => {
                            let len = lists.len();
                            if len > 0 {
                                let (kind, count) = lists[len - 1];
                                let c = count + 1;
                                let ghost before = lists@;
                                lists.set(len - 1, (kind, c));
                                assert(lists_view(lists@) =~= lists_view(before).update(
                                    len - 1,
                                    (kind, c as nat),
                                ));
                                out.push('\n');
                                match kind {
                                    ListKind::Unordered => {
                                        push_all(out, &['-', ' ']);
                                        assert(out@ =~= st.out.push('\n') + item_marker(
                                            kind,
                                            c as nat,
                                        ));
                                    },
                                    ListKind::Ordered => {
                                        push_decimal(out, c);
                                        push_all(out, &['.', ' ']);
                                        assert(out@ =~= st.out.push('\n') + item_marker(
                                            kind,
                                            c as nat,
                                        ));
                                    },
                                }
                            } else {
                                push_all(out, &['\n', '-', ' ']);
                            }
                            assert(state_of(out@, lists@, *href) == step(st, t));
                        },
                        TagName::A => {
                            out.push('[');
                            *href = find_href(&attrs);
                            assert(state_of(out@, lists@, *href) == step(st, t));
                        },
                        _ => {},
                    }
                },
            }
        },
        Token::Close(name) => {
            let nm = chars_of(name.as_str());
            let tag = classify(nm.as_slice());
            match close_markup_of(tag) {
                Some(m) => {
                    push_all(out, m);
                    assert(state_of(out@, lists@, *href) == step(st, t));
                },
                None => {
                    match tag {
                        TagName::Ul | TagName::Ol => {
                            let ghost before = lists@;
                            if lists.len() > 0 {
                                lists.pop();
                                assert(lists_view(lists@) =~= lists_view(before).drop_last());
                            }
                            out.push('\n');
                            assert(state_of(out@, lists@, *href) == step(st, t));
                        },
                        TagName::A => {
                            let target = match href.take() {
                                Some(h) => chars_of(h.as_str()),
                                None => Vec::new(),
                            };
                            push_all(out, &[']', '(']);
                            push_all(out, target.as_slice());
                            out.push(')');
                            assert(out@ =~= st.out + seq![']', '('] + target@ + seq![')']);
                            assert(state_of(out@, lists@, *href) == step(st, t));
                        },
                        _ => {},
                    }
                },
            }
        },
        Token::SelfClose(name) => {
            let nm = chars_of(name.as_str());
            let tag = classify(nm.as_slice());
            match tag {
                TagName::Br => {
                    push_all(out, &[' ', ' ', '\n']);
                    assert(state_of(out@, lists@, *href) == step(st, t));
                },
                TagName::Hr => {
                    push_all(out, &['\n', '\n', '-', '-', '-', '\n', '\n']);
                    assert(state_of(out@, lists@, *href) == step(st, t));
                },
                _ => {
                    assert(out@ + Seq::<char>::empty() =~= out@);
                },
            }
        },
    }
}

/// Converts an HTML subset into a Markdown string.
pub fn to_markdown(html: &str) -> (r: String)
    ensures
        r@ == markdown_of(html@),
{
    let mut out: Vec<char> = Vec::new();
    let mut tokens = Tokenizer::new(html);
    let mut list_stack: Vec<(ListKind, u64)> = Vec::new();
    let ghost src = html@;
    assert(lists_view(list_stack@) =~= Seq::empty());
    loop
        invariant
            tokens.src@ == src,
            src == html@,
            src.len() == tokens.src.len(),
            tokens.pos <= src.len(),
            forall|j: int| 0 <= j < list_stack@.len() ==> list_stack@[j].1 <= tokens.pos,
            run(
                state_of(out@, list_stack@, tokens.pending_href),
                tokens_from(src, tokens.pos as int),
            ) == run(md_start(), tokens_from(src, 0)),
        decreases src.len() - tokens.pos,
    {
        let pos = tokens.pos;
        let ghost st = state_of(out@, list_stack@, tokens.pending_href);
        match tokens.next() {
            None => {
                assert(tokens_from(src, pos as int) =~= Seq::empty());
                let ghost fin = state_of(out@, list_stack@, tokens.pending_href);
                assert(run(fin, Seq::empty()) == fin);
                assert(fin.out == out@);
                assert(run(md_start(), tokens_from(src, 0)) == fin);
                let res = string_of(out.as_slice());
                assert(res@ == out@);
                assert(markdown_of(html@) == run(md_start(), tokens_from(html@, 0)).out);
                return res;
            },
            Some(tok) => {
                proof {
                    lemma_next_token_advances(src, pos as int);
                    let toks = tokens_from(src, pos as int);
                    assert(toks[0] == tok@);
                    assert(toks.drop_first() =~= tokens_from(src, tokens.pos as int));
                }
                apply_token(&mut out, &mut list_stack, &mut tokens.pending_href, tok, pos as u64);
            },
        }
    }
}


// ---------------------------------------------------------------------------
// Laws of the conversion
// ---------------------------------------------------------------------------

/// Text without tags converts to itself, with its entities decoded.
pub proof fn law_plain_text(src: Seq<char>)
    requires
        forall|j: int| 0 <= j < src.len() ==> src[j] != '<',
    ensures
        markdown_of(src) == decode(src),
{
    if src.len() == 0 {
        assert(tokens_from(src, 0) =~= Seq::<SpecToken>::empty());
        assert(markdown_of(src) =~= Seq::<char>::empty());
    } else {
        lemma_find_char_bounds(src, 0, '<');
        let e = find_char(src, 0, '<');
        assert(e == src.len());
        assert(src.subrange(0, e) =~= src);
        let t = SpecToken::Text(decode(src));
        assert(next_token(src, 0) == Some((t, e)));
        assert(tokens_from(src, e) =~= Seq::<SpecToken>::empty());
        assert(tokens_from(src, 0) =~= seq![t]);
        assert(seq![t].drop_first() =~= Seq::<SpecToken>::empty());
        assert(run(md_start(), seq![t]) == step(md_start(), t)) by {
            reveal_with_fuel(run, 2);
        }
        assert(Seq::<char>::empty() + decode(src) =~= decode(src));
    }
}

/// Unknown tags are dropped: opening, closing or self-closing one leaves
/// the conversion as it was, so the text inside them is kept as it is.
pub proof fn law_unknown_tags_dropped(
    st: MdState,
    name: Seq<char>,
    attrs: Seq<(Seq<char>, Seq<char>)>,
)
    requires
        tag_name(name) == TagName::Other,
    ensures
        step(st, SpecToken::Open(name, attrs)) == st,
        step(st, SpecToken::Close(name)) == st,
        step(st, SpecToken::SelfClose(name)) == st,
{
    assert(st.out + Seq::<char>::empty() =~= st.out);
}

proof fn lemma_list_tag_names()
    ensures
        tag_name(seq!['l', 'i']) == TagName::Li,
        tag_name(seq!['u', 'l']) == TagName::Ul,
        tag_name(seq!['o', 'l']) == TagName::Ol,
        open_markup(seq!['l', 'i']) is None,
        open_markup(seq!['u', 'l']) is None,
        open_markup(seq!['o', 'l']) is None,
        close_markup(seq!['u', 'l']) is None,
        close_markup(seq!['o', 'l']) is None,
{
    let li = seq!['l', 'i'];
    let ul = seq!['u', 'l'];
    let ol = seq!['o', 'l'];
    assert(li[0] == 'l' && ul[0] == 'u' && ol[0] == 'o');
    assert(li.len() == 2 && ul.len() == 2 && ol.len() == 2);
    assert(li != seq!['h', '1'] && li != seq!['h', '2'] && li != seq!['h', '3']) by {
        assert(seq!['h', '1'][0] == 'h' && seq!['h', '2'][0] == 'h' && seq!['h', '3'][0] == 'h');
    }
    assert(li != seq!['h', '4'] && li != seq!['h', '5'] && li != seq!['h', '6']) by {
        assert(seq!['h', '4'][0] == 'h' && seq!['h', '5'][0] == 'h' && seq!['h', '6'][0] == 'h');
    }
    assert(ul != seq!['h', '1'] && ul != seq!['h', '2'] && ul != seq!['h', '3']) by {
        assert(seq!['h', '1'][0] == 'h' && seq!['h', '2'][0] == 'h' && seq!['h', '3'][0] == 'h');
    }
    assert(ul != seq!['h', '4'] && ul != seq!['h', '5'] && ul != seq!['h', '6']) by {
        assert(seq!['h', '4'][0] == 'h' && seq!['h', '5'][0] == 'h' && seq!['h', '6'][0] == 'h');
    }
    assert(ol != seq!['h', '1'] && ol != seq!['h', '2'] && ol != seq!['h', '3']) by {
        assert(seq!['h', '1'][0] == 'h' && seq!['h', '2'][0] == 'h' && seq!['h', '3'][0] == 'h');
    }
    assert(ol != seq!['h', '4'] && ol != seq!['h', '5'] && ol != seq!['h', '6']) by {
        assert(seq!['h', '4'][0] == 'h' && seq!['h', '5'][0] == 'h' && seq!['h', '6'][0] == 'h');
    }
    assert(seq!['p'].len() == 1 && seq!['b'].len() == 1 && seq!['i'].len() == 1);
    assert(seq!['s', 't', 'r', 'o', 'n', 'g'].len() == 6 && seq!['c', 'o', 'd', 'e'].len() == 4);
    assert(seq!['p', 'r', 'e'].len() == 3);
    assert(seq!['b', 'l', 'o', 'c', 'k', 'q', 'u', 'o', 't', 'e'].len() == 10);
    assert(li != seq!['e', 'm'] && ul != seq!['e', 'm'] && ol != seq!['e', 'm']) by {
        assert(seq!['e', 'm'][0] == 'e');
    }
    assert(li != seq!['u', 'l'] && li != seq!['o', 'l'] && ul != seq!['o', 'l']) by {
        assert(seq!['u', 'l'][0] == 'u' && seq!['o', 'l'][0] == 'o');
    }
}

/// An item belongs to the innermost open list: an `<li>` counts one more
/// item in the list opened last and still open, writes that list's marker
/// (`- ` for a bulleted list, the new count and `. ` for a numbered one) on
/// a new line, and leaves the counters of the enclosing lists as they were.
/// With no list open it writes a bullet.
pub proof fn law_item_in_innermost_list(st: MdState, attrs: Seq<(Seq<char>, Seq<char>)>)
    ensures
        st.lists.len() > 0 ==> ({
            let last = st.lists.len() - 1;
            let (kind, count) = st.lists[last];
            let after = step(st, SpecToken::Open(seq!['l', 'i'], attrs));
            &&& after.lists.len() == st.lists.len()
            &&& after.lists[last] == (kind, count + 1)
            &&& forall|j: int| 0 <= j < last ==> after.lists[j] == st.lists[j]
            &&& after.out == st.out + (match kind {
                ListKind::Unordered => seq!['\n', '-', ' '],
                ListKind::Ordered => seq!['\n'] + decimal(count + 1) + seq!['.', ' '],
            })
            &&& after.href == st.href
        }),
        st.lists.len() == 0 ==> (step(st, SpecToken::Open(seq!['l', 'i'], attrs)) == (MdState {
            out: st.out + seq!['\n', '-', ' '],
            lists: st.lists,
            href: st.href,
        })),
{
    lemma_list_tag_names();
    let after = step(st, SpecToken::Open(seq!['l', 'i'], attrs));
    if st.lists.len() > 0 {
        let last = st.lists.len() - 1;
        let (kind, count) = st.lists[last];
        assert(st.lists.last() == st.lists[last]);
        match kind {
            ListKind::Unordered => {
                assert(after.out =~= st.out + seq!['\n', '-', ' ']);
            },
            ListKind::Ordered => {
                assert(after.out =~= st.out + (seq!['\n'] + decimal(count + 1) + seq!['.', ' ']));
            },
        }
    }
}

/// Lists nest: `<ul>` and `<ol>` open a new innermost list with no items
/// yet, after the lists already open, and `</ul>` or `</ol>` closes the
/// innermost one, so the enclosing list goes on counting where it was.
pub proof fn law_lists_nest(st: MdState, attrs: Seq<(Seq<char>, Seq<char>)>)
    ensures
        ({
            let ul = seq!['u', 'l'];
            let ol = seq!['o', 'l'];
            let in_ul = step(st, SpecToken::Open(ul, attrs));
            let in_ol = step(st, SpecToken::Open(ol, attrs));
            &&& in_ul.lists == st.lists.push((ListKind::Unordered, 0nat))
            &&& in_ol.lists == st.lists.push((ListKind::Ordered, 0nat))
            &&& st.lists.len() > 0 ==> step(st, SpecToken::Close(ul)).lists == st.lists.drop_last()
            &&& st.lists.len() > 0 ==> step(st, SpecToken::Close(ol)).lists == st.lists.drop_last()
            &&& step(in_ul, SpecToken::Close(ul)).lists == st.lists
            &&& step(in_ol, SpecToken::Close(ol)).lists == st.lists
        }),
{
    lemma_list_tag_names();
    assert(st.lists.push((ListKind::Unordered, 0nat)).drop_last() =~= st.lists);
    assert(st.lists.push((ListKind::Ordered, 0nat)).drop_last() =~= st.lists);
}

// ---------------------------------------------------------------------------
// Markdown items
// ---------------------------------------------------------------------------

/// A parsed Markdown block of iced's markdown widget (a heading, a
/// paragraph, a list, ...).
#[verifier::external_type_specification]
#[verifier::external_body]
pub struct ExMarkdownItem(iced::widget::markdown::Item);

/// The items that iced's Markdown parser produces for the given text.
pub uninterp spec fn markdown_items(text: Seq<char>) -> Seq<markdown::Item>;

/// Calls `iced::widget::markdown::parse` and collects the items.
///
/// Trusted: the parser (built on `pulldown-cmark`) starts from an empty
/// state on each call, so the items are a function of the text alone. What
/// they hold is not stated; each item's cache of styled spans starts empty.
#[verifier::external_body]
fn parse_markdown(text: &str) -> (r: Vec<markdown::Item>)
    ensures
        r@ == markdown_items(text@),
{
    markdown::parse(text).collect()
}

/// Parses an HTML subset into Markdown items ready to be rendered: the
/// Markdown of [`to_markdown`] handed to iced's Markdown parser.
pub fn parse(html: &str) -> (r: Vec<markdown::Item>)
    ensures
        r@ == markdown_items(markdown_of(html@)),
{
    let md = to_markdown(html);
    parse_markdown(md.as_str())
}

} // verus!
