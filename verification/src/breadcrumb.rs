//! Breadcrumb: a trail of links separated by chevrons.

use vstd::prelude::*;

verus! {

pub struct Crumb<Message> {
    pub label: String,
    pub on_press: Option<Message>,
}

impl<Message> Crumb<Message> {
    pub fn new(label: &str) -> (r: Crumb<Message>)
        ensures
            r.label@ == label@,
            r.on_press is None,
    {
        Crumb { label: String::from_str(label), on_press: None }
    }

    pub fn on_press(self, msg: Message) -> (r: Crumb<Message>)
        ensures
            r.label == self.label,
            r.on_press == Some(msg),
    {
        let mut s = self;
        s.on_press = Some(msg);
        s
    }
}

/// How one crumb of a trail is shown.
#[derive(Debug, Clone, Copy, PartialEq, Eq)]
pub struct CrumbRole {
    /// The current page: the last crumb, shown in the foreground color.
    pub is_last: bool,
    /// Shown as a button: a crumb with a message that is not the last.
    pub is_link: bool,
    /// Followed by a chevron: every crumb but the last.
    pub separator_after: bool,
}

pub open spec fn crumb_role(index: int, count: int, has_message: bool) -> CrumbRole {
    CrumbRole {
        is_last: index + 1 == count,
        is_link: index + 1 != count && has_message,
        separator_after: index + 1 != count,
    }
}

/// The role of each crumb of `crumbs`, in order.
pub fn crumb_roles<Message>(crumbs: &Vec<Crumb<Message>>) -> (r: Vec<CrumbRole>)
    ensures
        r@.len() == crumbs@.len(),
        forall|i: int|
            0 <= i < r@.len() ==> r@[i] == crumb_role(
                i,
                crumbs@.len() as int,
                crumbs@[i].on_press is Some,
            ),
{
    let count = crumbs.len();
    let mut r: Vec<CrumbRole> = Vec::new();
    let mut i: usize = 0;
    while i < count
        invariant
            count == crumbs@.len(),
            i <= count,
            r@.len() == i,
            forall|j: int|
                0 <= j < i ==> r@[j] == crumb_role(j, count as int, crumbs@[j].on_press is Some),
        decreases count - i,
    {
        let is_last = i + 1 == count;
        let is_link = !is_last && crumbs[i].on_press.is_some();
        r.push(CrumbRole { is_last, is_link, separator_after: !is_last });
        i = i + 1;
    }
    r
}

} // verus!
