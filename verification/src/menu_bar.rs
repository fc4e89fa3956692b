//! Menu bar: which menu's trigger shows its panel and which ones switch to
//! their menu on hover. The caller holds the index of the open menu.

use vstd::prelude::*;
use crate::menu::MenuItem;

verus! {

/// One menu of the bar: its trigger label, the message that opens or
/// closes it, and its entries.
pub struct MenuBarMenu<Message> {
    pub label: String,
    pub on_toggle: Message,
    pub items: Vec<MenuItem<Message>>,
}

impl<Message> MenuBarMenu<Message> {
    pub fn new(label: &str, on_toggle: Message, items: Vec<MenuItem<Message>>) -> (r: MenuBarMenu<Message>)
        ensures
            r.label@ == label@,
            r.on_toggle == on_toggle,
            r.items == items,
    {
        MenuBarMenu { label: String::from_str(label), on_toggle, items }
    }
}

/// How the trigger of one menu of the bar behaves.
#[derive(Debug, Clone, Copy, PartialEq, Eq)]
pub struct MenuTrigger {
    /// The menu is open: its trigger is highlighted and its panel shown.
    pub open: bool,
    /// Another menu is open: hovering this trigger switches to this menu.
    pub switch_on_hover: bool,
}

/// The trigger of menu `index` when `open` is the index of the open menu.
pub fn menu_trigger(open: Option<usize>, index: usize) -> (r: MenuTrigger)
    ensures
        r.open == (open == Some(index)),
        r.switch_on_hover == (open is Some && open != Some(index)),
{
    let is_open = match open {
        Some(i) => i == index,
        None => false,
    };
    MenuTrigger { open: is_open, switch_on_hover: open.is_some() && !is_open }
}

} // verus!
