//! Sidebar navigation entries.

use vstd::prelude::*;
use crate::icon::Icon;

verus! {

/// One navigation entry of a sidebar.
pub struct SidebarItem<Message> {
    pub label: String,
    pub icon: Option<Icon>,
    /// A short count or tag shown as a pill.
    pub badge: Option<String>,
    pub on_press: Option<Message>,
    /// The entry of the current page.
    pub active: bool,
}

impl<Message> SidebarItem<Message> {
    pub fn new(label: &str) -> (r: SidebarItem<Message>)
        ensures
            r.label@ == label@,
            r.icon is None,
            r.badge is None,
            r.on_press is None,
            !r.active,
    {
        SidebarItem {
            label: String::from_str(label),
            icon: None,
            badge: None,
            on_press: None,
            active: false,
        }
    }

    pub fn icon(self, icon: Icon) -> (r: SidebarItem<Message>)
        ensures
            r.label == self.label,
            r.icon == Some(icon),
            r.badge == self.badge,
            r.on_press == self.on_press,
            r.active == self.active,
    {
        let mut s = self;
        s.icon = Some(icon);
        s
    }

    pub fn badge(self, b: &str) -> (r: SidebarItem<Message>)
        ensures
            r.label == self.label,
            r.icon == self.icon,
            r.badge is Some && (r.badge->0)@ == b@,
            r.on_press == self.on_press,
            r.active == self.active,
    {
        let mut s = self;
        s.badge = Some(String::from_str(b));
        s
    }

    pub fn active(self, a: bool) -> (r: SidebarItem<Message>)
        ensures
            r.label == self.label,
            r.icon == self.icon,
            r.badge == self.badge,
            r.on_press == self.on_press,
            r.active == a,
    {
        let mut s = self;
        s.active = a;
        s
    }

    pub fn on_press(self, msg: Message) -> (r: SidebarItem<Message>)
        ensures
            r.label == self.label,
            r.icon == self.icon,
            r.badge == self.badge,
            r.on_press == Some(msg),
            r.active == self.active,
    {
        let mut s = self;
        s.on_press = Some(msg);
        s
    }
}

} // verus!
