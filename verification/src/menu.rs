//! Menu entries: actions, separators and section headers.

use vstd::prelude::*;
use crate::icon::Icon;

verus! {

/// One entry of a menu.
pub enum MenuItem<Message> {
    Separator,
    Action {
        label: String,
        icon: Option<Icon>,
        shortcut: Option<String>,
        on_press: Message,
        /// Shown in the danger color.
        danger: bool,
        /// Shown muted and not pressable.
        disabled: bool,
    },
    Header(String),
}

impl<Message> MenuItem<Message> {
    /// An action entry with no icon, shortcut or flags.
    pub fn new(label: &str, on_press: Message) -> (r: MenuItem<Message>)
        ensures
            r matches MenuItem::Action { label: l, icon, shortcut, on_press: m, danger, disabled }
                && l@ == label@ && icon is None && shortcut is None && m == on_press && !danger
                && !disabled,
    {
        MenuItem::Action {
            label: String::from_str(label),
            icon: None,
            shortcut: None,
            on_press,
            danger: false,
            disabled: false,
        }
    }

    /// Sets the icon of an action; other entries are unchanged.
    pub fn icon(self, icon_src: Icon) -> (r: MenuItem<Message>)
        ensures
            r == (match self {
                MenuItem::Action { label, icon, shortcut, on_press, danger, disabled } => MenuItem::Action {
                    label,
                    icon: Some(icon_src),
                    shortcut,
                    on_press,
                    danger,
                    disabled,
                },
                other => other,
            }),
    {
        match self {
            MenuItem::Action { label, icon: _, shortcut, on_press, danger, disabled } => MenuItem::Action {
                label,
                icon: Some(icon_src),
                shortcut,
                on_press,
                danger,
                disabled,
            },
            other => other,
        }
    }

    /// Sets the keyboard shortcut shown by an action; other entries are
    /// unchanged.
    pub fn shortcut(self, s: &str) -> (r: MenuItem<Message>)
        ensures
            match self {
                MenuItem::Action { label, icon, shortcut: _, on_press, danger, disabled } => r matches MenuItem::Action {
                    label: l2,
                    icon: i2,
                    shortcut: Some(s2),
                    on_press: m2,
                    danger: d2,
                    disabled: x2,
                } && l2 == label && i2 == icon && s2@ == s@ && m2 == on_press && d2 == danger && x2
                    == disabled,
                other => r == other,
            },
    {
        match self {
            MenuItem::Action { label, icon, shortcut: _, on_press, danger, disabled } => MenuItem::Action {
                label,
                icon,
                shortcut: Some(String::from_str(s)),
                on_press,
                danger,
                disabled,
            },
            other => other,
        }
    }

    /// Marks an action as destructive; other entries are unchanged.
    pub fn danger(self) -> (r: MenuItem<Message>)
        ensures
            r == (match self {
                MenuItem::Action { label, icon, shortcut, on_press, danger: _, disabled } => MenuItem::Action {
                    label,
                    icon,
                    shortcut,
                    on_press,
                    danger: true,
                    disabled,
                },
                other => other,
            }),
    {
        match self {
            MenuItem::Action { label, icon, shortcut, on_press, danger: _, disabled } => MenuItem::Action {
                label,
                icon,
                shortcut,
                on_press,
                danger: true,
                disabled,
            },
            other => other,
        }
    }

    /// Disables an action; other entries are unchanged.
    pub fn disabled(self) -> (r: MenuItem<Message>)
        ensures
            r == (match self {
                MenuItem::Action { label, icon, shortcut, on_press, danger, disabled: _ } => MenuItem::Action {
                    label,
                    icon,
                    shortcut,
                    on_press,
                    danger,
                    disabled: true,
                },
                other => other,
            }),
    {
        match self {
            MenuItem::Action { label, icon, shortcut, on_press, danger, disabled: _ } => MenuItem::Action {
                label,
                icon,
                shortcut,
                on_press,
                danger,
                disabled: true,
            },
            other => other,
        }
    }
}

} // verus!
