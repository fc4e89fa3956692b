//! OTP input: N single-character boxes that share one value.

use vstd::prelude::*;
use crate::text::{chars_of, is_ws, string_of, trim_end, trim_end_chars, trim_end_len};

verus! {

/// `s` cut or padded with spaces to `len` characters (what
/// `Vec::resize(len, ' ')` does).
pub open spec fn resized(s: Seq<char>, len: nat) -> Seq<char> {
    if s.len() >= len {
        s.take(len as int)
    } else {
        s + Seq::new((len - s.len()) as nat, |i: int| ' ')
    }
}

/// The value after the box at `index` receives `input`, and the box that
/// takes focus next: an empty input clears the box (a space) and keeps focus;
/// otherwise the last character typed fills the box and focus moves on
/// unless this was the last box. Trailing white space is dropped.
pub open spec fn otp_after_input(existing: Seq<char>, length: nat, index: nat, input: Seq<char>) -> (
    Seq<char>,
    Option<nat>,
) {
    let base = resized(existing, length);
    if input.len() == 0 {
        (trim_end(base.update(index as int, ' ')), None)
    } else {
        (
            trim_end(base.update(index as int, input.last())),
            if index + 1 < length {
                Some(index + 1)
            } else {
                None
            },
        )
    }
}

/// The new full value and the next box to focus when the box at `index` of
/// an OTP group of `length` boxes is edited to `input`.
pub fn otp_next_value(existing: &str, length: usize, index: usize, input: &str) -> (r: (
    String,
    Option<usize>,
))
    requires
        index < length,
    ensures
        r.0@ == otp_after_input(existing@, length as nat, index as nat, input@).0,
        match otp_after_input(existing@, length as nat, index as nat, input@).1 {
            None => r.1 is None,
            Some(n) => r.1 == Some(n as usize),
        },
{
    let new_chars = chars_of(input);
    let old_chars = chars_of(existing);
    let mut updated: Vec<char> = Vec::new();
    let mut i: usize = 0;
    while i < length
        invariant
            i <= length,
            updated@.len() == i,
            forall|j: int| 0 <= j < i ==> updated@[j] == resized(old_chars@, length as nat)[j],
        decreases length - i,
    {
        if i < old_chars.len() {
            updated.push(old_chars[i]);
        } else {
            updated.push(' ');
        }
        i = i + 1;
    }
    assert(updated@ =~= resized(old_chars@, length as nat));
    let advance = if new_chars.len() == 0 {
        updated.set(index, ' ');
        None
    } else {
        updated.set(index, new_chars[new_chars.len() - 1]);
        if index + 1 < length {
            Some(index + 1)
        } else {
            None
        }
    };
    let trimmed = trim_end_chars(updated.as_slice());
    (string_of(trimmed.as_slice()), advance)
}

/// What the box at `index` shows: the character of the value there, or
/// nothing for a space or a box past the end of the value.
pub open spec fn otp_cell(value: Seq<char>, index: int) -> Seq<char> {
    if 0 <= index < value.len() && value[index] != ' ' {
        seq![value[index]]
    } else {
        Seq::empty()
    }
}

pub fn otp_cell_text(value: &str, index: usize) -> (r: String)
    ensures
        r@ == otp_cell(value@, index as int),
{
    let chars = chars_of(value);
    let mut out: Vec<char> = Vec::new();
    if index < chars.len() && chars[index] != ' ' {
        out.push(chars[index]);
    }
    assert(out@ =~= otp_cell(value@, index as int));
    string_of(out.as_slice())
}

proof fn lemma_trim_end_len_ws(s: Seq<char>, n: int)
    requires
        0 <= n <= s.len(),
    ensures
        0 <= trim_end_len(s, n) <= n,
        forall|j: int| trim_end_len(s, n) <= j < n ==> is_ws(#[trigger] s[j]),
    decreases n,
{
    if 0 < n && is_ws(s[n - 1]) {
        lemma_trim_end_len_ws(s, n - 1);
    }
}

/// The character that box `j` holds once box `index` received `input`:
/// the last character typed (a space for a clear) in box `index`, the old
/// character elsewhere, and a space past the end of the old value.
pub open spec fn edited_box(existing: Seq<char>, index: nat, input: Seq<char>, j: int) -> char {
    if j == index {
        if input.len() == 0 {
            ' '
        } else {
            input.last()
        }
    } else if j < existing.len() {
        existing[j]
    } else {
        ' '
    }
}

/// Editing box `index` changes that box alone: every other box keeps the
/// character it had (a space past the end of the old value), nothing before
/// the end is removed or shifted, only white space is dropped from the end,
/// and focus moves to the next box only when a character was typed there.
pub proof fn law_otp_edit_keeps_other_boxes(
    existing: Seq<char>,
    length: nat,
    index: nat,
    input: Seq<char>,
)
    requires
        index < length,
    ensures
        otp_after_input(existing, length, index, input).0.len() <= length,
        forall|j: int|
            0 <= j < otp_after_input(existing, length, index, input).0.len() ==> (
            #[trigger] otp_after_input(existing, length, index, input).0[j]) == edited_box(
                existing,
                index,
                input,
                j,
            ),
        forall|j: int|
            otp_after_input(existing, length, index, input).0.len() <= j < length ==> is_ws(
                #[trigger] edited_box(existing, index, input, j),
            ),
        otp_after_input(existing, length, index, input).1 == (if input.len() > 0 && index + 1
            < length {
            Some(index + 1)
        } else {
            None
        }),
{
    let base = resized(existing, length);
    let typed = if input.len() == 0 {
        ' '
    } else {
        input.last()
    };
    let u = base.update(index as int, typed);
    assert(base.len() == length);
    assert forall|j: int| 0 <= j < length implies #[trigger] u[j] == edited_box(
        existing,
        index,
        input,
        j,
    ) by {
        if j != index {
            assert(u[j] == base[j]);
        }
    }
    lemma_trim_end_len_ws(u, u.len() as int);
    let v = trim_end(u);
    assert(otp_after_input(existing, length, index, input).0 == v);
    assert forall|j: int| 0 <= j < v.len() implies #[trigger] v[j] == u[j] by {}
    assert forall|j: int| v.len() <= j < length implies is_ws(
        #[trigger] edited_box(existing, index, input, j),
    ) by {
        assert(is_ws(u[j]));
    }
}

} // verus!
