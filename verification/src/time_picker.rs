//! Time picker arithmetic: the values behind the `+`/`−` buttons of each
//! column and the trigger label.

use vstd::prelude::*;
use crate::text::{decimal, push_decimal, string_of};
use vstd::arithmetic::div_mod::{lemma_mod_add_multiples_vanish, lemma_mod_self_0, lemma_small_mod};

verus! {

/// The values one step up and one step down from `value` in a column that
/// wraps at `modulo` (24 for hours, 60 for minutes and seconds).
pub fn spinner_steps(value: u32, modulo: u32) -> (r: (u32, u32))
    requires
        modulo > 0,
        value + modulo <= u32::MAX,
    ensures
        r.0 == (value + 1) % (modulo as int),
        r.1 == (value + modulo - 1) % (modulo as int),
{
    let next = (value + 1) % modulo;
    let prev = (value + modulo - 1) % modulo;
    (next, prev)
}

/// Stepping up and then down, or down and then up, gives back a value of
/// the column.
pub proof fn law_spinner_round_trip(value: int, modulo: int)
    requires
        0 <= value < modulo,
    ensures
        ((value + 1) % modulo + modulo - 1) % modulo == value,
        ((value + modulo - 1) % modulo + 1) % modulo == value,
{
    lemma_mod_self_0(modulo);
    if value + 1 < modulo {
        lemma_small_mod((value + 1) as nat, modulo as nat);
        lemma_small_mod(value as nat, modulo as nat);
        lemma_mod_add_multiples_vanish(value, modulo);
    } else {
        lemma_small_mod(value as nat, modulo as nat);
        lemma_small_mod((modulo - 1) as nat, modulo as nat);
    }
    if value > 0 {
        lemma_mod_add_multiples_vanish(value - 1, modulo);
        lemma_small_mod((value - 1) as nat, modulo as nat);
        lemma_small_mod(value as nat, modulo as nat);
    } else {
        lemma_small_mod((modulo - 1) as nat, modulo as nat);
    }
}

/// `n` in decimal with at least two digits (what `{:02}` prints).
pub open spec fn two_digits(n: nat) -> Seq<char> {
    if n < 10 {
        seq!['0'] + decimal(n)
    } else {
        decimal(n)
    }
}

fn push_two_digits(out: &mut Vec<char>, n: u32)
    ensures
        final(out)@ == old(out)@ + two_digits(n as nat),
{
    if n < 10 {
        out.push('0');
    }
    push_decimal(out, n as u64);
    proof {
        if n < 10 {
            assert(final(out)@ =~= old(out)@ + two_digits(n as nat));
        }
    }
}

/// `HH:MM`, or `HH:MM:SS` when seconds are shown.
pub open spec fn time_text(hour: nat, minute: nat, second: nat, show_seconds: bool) -> Seq<char> {
    if show_seconds {
        two_digits(hour) + seq![':'] + two_digits(minute) + seq![':'] + two_digits(second)
    } else {
        two_digits(hour) + seq![':'] + two_digits(minute)
    }
}

/// The label of the picker's trigger button.
pub fn time_label(hour: u32, minute: u32, second: u32, show_seconds: bool) -> (r: String)
    ensures
        r@ == time_text(hour as nat, minute as nat, second as nat, show_seconds),
{
    let mut out: Vec<char> = Vec::new();
    push_two_digits(&mut out, hour);
    out.push(':');
    push_two_digits(&mut out, minute);
    if show_seconds {
        out.push(':');
        push_two_digits(&mut out, second);
    }
    let ghost o = out@;
    assert(o =~= time_text(hour as nat, minute as nat, second as nat, show_seconds));
    string_of(out.as_slice())
}

/// A time of day, as the picker's columns show it.
#[derive(Debug, Clone, Copy, PartialEq, Eq)]
pub struct TimeOfDay {
    pub hour: u32,
    pub minute: u32,
    pub second: u32,
}

/// The label of the picker's trigger button for `time`: its hour, minute
/// and (when shown) second, two digits each.
pub fn time_picker_label(time: TimeOfDay, show_seconds: bool) -> (r: String)
    ensures
        r@ == time_text(time.hour as nat, time.minute as nat, time.second as nat, show_seconds),
{
    time_label(time.hour, time.minute, time.second, show_seconds)
}

} // verus!
