//! Dialog: modal dialog actions and variants.

use vstd::prelude::*;

verus! {

#[derive(Debug, Clone, Copy, PartialEq, Eq)]
pub enum DialogVariant {
    Default,
    Info,
    Success,
    Warning,
    Danger,
}

impl Default for DialogVariant {
    fn default() -> (r: DialogVariant)
        ensures
            r == DialogVariant::Default,
    {
        DialogVariant::Default
    }
}

pub struct DialogAction<Message> {
    pub label: String,
    pub on_press: Message,
    pub primary: bool,
}

impl<Message> DialogAction<Message> {
    pub fn new(label: &str, on_press: Message) -> (r: DialogAction<Message>)
        ensures
            r.label@ == label@,
            r.on_press == on_press,
            !r.primary,
    {
        DialogAction { label: String::from_str(label), on_press, primary: false }
    }

    /// Marks the action as the dialog's main one.
    pub fn primary(self) -> (r: DialogAction<Message>)
        ensures
            r.label == self.label,
            r.on_press == self.on_press,
            r.primary,
    {
        let mut s = self;
        s.primary = true;
        s
    }
}

} // verus!
