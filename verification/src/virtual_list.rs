//! Virtual list: which rows of a uniform-height list to build for the
//! current scroll position.

use vstd::prelude::*;

verus! {

/// Rows built beyond each edge of the viewport so that quick scrolls do not
/// reveal empty space.
pub const OVERSCAN: usize = 4;

/// Rows to build: `first..last` of `total`, with `first` rows of spacer
/// above and `trailing` rows of spacer below.
#[derive(Debug, Clone, Copy, PartialEq, Eq)]
pub struct Window {
    pub first: usize,
    pub last: usize,
    pub trailing: usize,
}

pub open spec fn window_first(scrolled_rows: nat) -> nat {
    if scrolled_rows >= OVERSCAN {
        (scrolled_rows - OVERSCAN) as nat
    } else {
        0
    }
}

pub open spec fn window_last(scrolled_rows: nat, viewport_rows: nat, total: nat) -> nat {
    let end = (window_first(scrolled_rows) + viewport_rows + 2 * OVERSCAN) as nat;
    if end < total {
        end
    } else {
        total
    }
}

/// The rows to build when `scrolled_rows` whole rows are scrolled past the
/// top and the viewport spans `viewport_rows` rows (rounded up), out of
/// `total` rows.
pub fn visible_window(scrolled_rows: usize, viewport_rows: usize, total: usize) -> (r: Window)
    requires
        window_first(scrolled_rows as nat) + viewport_rows + 2 * OVERSCAN <= usize::MAX,
    ensures
        r.first == window_first(scrolled_rows as nat),
        r.last == window_last(scrolled_rows as nat, viewport_rows as nat, total as nat),
        r.trailing == total - r.last,
{
    let first = scrolled_rows.saturating_sub(OVERSCAN);
    let visible = viewport_rows + OVERSCAN * 2;
    let end = first + visible;
    let last = if end < total {
        end
    } else {
        total
    };
    let trailing = total.saturating_sub(last);
    Window { first, last, trailing }
}

/// The built rows and the two spacers always account for every row, and at
/// most the viewport plus the overscan is built.
pub proof fn law_window_covers(scrolled_rows: nat, viewport_rows: nat, total: nat)
    requires
        window_first(scrolled_rows) <= total,
    ensures
        window_first(scrolled_rows) + (window_last(scrolled_rows, viewport_rows, total)
            - window_first(scrolled_rows)) + (total - window_last(
            scrolled_rows,
            viewport_rows,
            total,
        )) == total,
        window_last(scrolled_rows, viewport_rows, total) - window_first(scrolled_rows)
            <= viewport_rows + 2 * OVERSCAN,
{
}

} // verus!
