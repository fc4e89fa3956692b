//! Table decisions: keyboard navigation, sort indicators, row striping and
//! the steps of a column resize drag.

use vstd::prelude::*;
use crate::text::{chars_of, same_chars};

verus! {

#[derive(Debug, Clone, Copy, PartialEq, Eq)]
pub enum SortDir {
    Asc,
    Desc,
}

/// Keyboard-navigation event emitted while the table has focus. The caller
/// decides what each one means for its row state.
#[derive(Debug, Clone, Copy, PartialEq, Eq)]
pub enum NavEvent {
    Up,
    Down,
    Home,
    End,
    PageUp,
    PageDown,
    /// Enter pressed — typically maps to "press the focused row".
    Activate,
}

/// The named keys that matter for table navigation; every other named key
/// is `Other`.
#[derive(Debug, Clone, Copy, PartialEq, Eq)]
pub enum NamedKey {
    ArrowUp,
    ArrowDown,
    Home,
    End,
    PageUp,
    PageDown,
    Enter,
    Other,
}

/// A pressed key.
#[derive(Debug, Clone, Copy, PartialEq, Eq)]
pub enum Key {
    Named(NamedKey),
    Character,
    Unidentified,
}

/// The navigation event that a key stands for.
pub open spec fn nav_of(key: Key) -> Option<NavEvent> {
    match key {
        Key::Named(NamedKey::ArrowUp) => Some(NavEvent::Up),
        Key::Named(NamedKey::ArrowDown) => Some(NavEvent::Down),
        Key::Named(NamedKey::Home) => Some(NavEvent::Home),
        Key::Named(NamedKey::End) => Some(NavEvent::End),
        Key::Named(NamedKey::PageUp) => Some(NavEvent::PageUp),
        Key::Named(NamedKey::PageDown) => Some(NavEvent::PageDown),
        Key::Named(NamedKey::Enter) => Some(NavEvent::Activate),
        _ => None,
    }
}

/// The navigation event of a key press, if the key navigates.
pub fn key_to_nav(key: &Key) -> (r: Option<NavEvent>)
    ensures
        r == nav_of(*key),
{
    let named = match key {
        Key::Named(n) => n,
        _ => return None,
    };
    match named {
        NamedKey::ArrowUp => Some(NavEvent::Up),
        NamedKey::ArrowDown => Some(NavEvent::Down),
        NamedKey::Home => Some(NavEvent::Home),
        NamedKey::End => Some(NavEvent::End),
        NamedKey::PageUp => Some(NavEvent::PageUp),
        NamedKey::PageDown => Some(NavEvent::PageDown),
        NamedKey::Enter => Some(NavEvent::Activate),
        NamedKey::Other => None,
    }
}

/// The sort arrow of a column header: the current direction when the table
/// is sorted by the column's own sort key, none otherwise.
pub open spec fn header_sort(sort: Option<(Seq<char>, SortDir)>, sort_key: Option<Seq<char>>) -> Option<SortDir> {
    match sort {
        Some((k, d)) => if sort_key == Some(k) {
            Some(d)
        } else {
            None
        },
        None => None,
    }
}

pub fn header_sort_dir(sort: Option<(&str, SortDir)>, sort_key: Option<&str>) -> (r: Option<SortDir>)
    ensures
        r == header_sort(
            match sort {
                Some((k, d)) => Some((k@, d)),
                None => None,
            },
            match sort_key {
                Some(k) => Some(k@),
                None => None,
            },
        ),
{
    match sort {
        Some((k, d)) => match sort_key {
            Some(col) => {
                let a = chars_of(k);
                let b = chars_of(col);
                if same_chars(a.as_slice(), b.as_slice()) {
                    Some(d)
                } else {
                    None
                }
            },
            None => None,
        },
        None => None,
    }
}

/// Whether row `index` gets the alternate background.
pub fn zebra_row(striped: bool, index: usize) -> (r: bool)
    ensures
        r == (striped && index % 2 == 1),
{
    striped && index % 2 == 1
}

/// A column resize drag in progress.
#[derive(Debug, Clone, Copy, PartialEq, Eq)]
pub struct Drag {
    /// The column whose right edge is dragged.
    pub col: usize,
    /// Whether a pointer position was seen since the grab: the next move
    /// then resizes by the distance from it.
    pub moved: bool,
}

/// A step of the resize interaction, without the pointer position.
#[derive(Debug, Clone, Copy, PartialEq, Eq)]
pub enum ResizeStep {
    /// The divider right of column `col` was grabbed.
    Grab(usize),
    /// The pointer moved.
    Move,
    /// The divider was released.
    Release,
}

/// What a resize step asks of the column widths.
#[derive(Debug, Clone, Copy, PartialEq, Eq)]
pub enum ResizeAction {
    /// Nothing changes.
    Keep,
    /// Column `col` grows by the pointer's distance from its last position,
    /// kept between the minimal and maximal width.
    Resize(usize),
}

/// The drag after `step`, and what it does to the widths of `n_cols`
/// columns: a grab starts a drag, a move of a drag that already saw the
/// pointer resizes its column (when it exists) and every move of a drag
/// records the pointer, a release ends the drag.
pub open spec fn resize_next(drag: Option<Drag>, step: ResizeStep, n_cols: nat) -> (Option<Drag>, ResizeAction) {
    match step {
        ResizeStep::Grab(col) => (Some(Drag { col, moved: false }), ResizeAction::Keep),
        ResizeStep::Move => match drag {
            Some(d) => (
                Some(Drag { col: d.col, moved: true }),
                if d.moved && d.col < n_cols {
                    ResizeAction::Resize(d.col)
                } else {
                    ResizeAction::Keep
                },
            ),
            None => (None, ResizeAction::Keep),
        },
        ResizeStep::Release => (None, ResizeAction::Keep),
    }
}

/// Applies one step of the resize interaction.
pub fn resize_step(drag: Option<Drag>, step: ResizeStep, n_cols: usize) -> (r: (Option<Drag>, ResizeAction))
    ensures
        r == resize_next(drag, step, n_cols as nat),
{
    match step {
        ResizeStep::Grab(col) => (Some(Drag { col, moved: false }), ResizeAction::Keep),
        ResizeStep::Move => match drag {
            Some(d) => {
                let act = if d.moved && d.col < n_cols {
                    ResizeAction::Resize(d.col)
                } else {
                    ResizeAction::Keep
                };
                (Some(Drag { col: d.col, moved: true }), act)
            },
            None => (None, ResizeAction::Keep),
        },
        ResizeStep::Release => (None, ResizeAction::Keep),
    }
}

/// Each navigation key gives the event of the same name: the arrows move
/// up and down, Home and End jump to the first and last row, Page Up and
/// Page Down move by a page, Enter activates; no other key navigates.
pub proof fn law_keys_navigate_by_name(k: NamedKey)
    ensures
        nav_of(Key::Named(NamedKey::ArrowUp)) == Some(NavEvent::Up),
        nav_of(Key::Named(NamedKey::ArrowDown)) == Some(NavEvent::Down),
        nav_of(Key::Named(NamedKey::Home)) == Some(NavEvent::Home),
        nav_of(Key::Named(NamedKey::End)) == Some(NavEvent::End),
        nav_of(Key::Named(NamedKey::PageUp)) == Some(NavEvent::PageUp),
        nav_of(Key::Named(NamedKey::PageDown)) == Some(NavEvent::PageDown),
        nav_of(Key::Named(NamedKey::Enter)) == Some(NavEvent::Activate),
        nav_of(Key::Named(NamedKey::Other)) == None::<NavEvent>,
        nav_of(Key::Character) == None::<NavEvent>,
        nav_of(Key::Unidentified) == None::<NavEvent>,
        nav_of(Key::Named(k)) is Some ==> k != NamedKey::Other,
{
}

/// A resize only ever touches an existing column, the one of the drag in
/// progress, and only once the drag has seen the pointer; after a release
/// no move resizes anything until the next grab.
pub proof fn law_resize_only_while_dragging(drag: Option<Drag>, step: ResizeStep, n_cols: nat)
    ensures
        resize_next(drag, step, n_cols).1 matches ResizeAction::Resize(c) ==> (
            step == ResizeStep::Move && drag == Some(Drag { col: c, moved: true }) && c < n_cols
        ),
        resize_next(resize_next(drag, ResizeStep::Release, n_cols).0, ResizeStep::Move, n_cols)
            == (None::<Drag>, ResizeAction::Keep),
{
}

} // verus!
