//! Button group: segmented buttons sharing an outer border.

use vstd::prelude::*;

verus! {

pub struct GroupButton<Message> {
    pub label: String,
    pub on_press: Message,
    pub active: bool,
}

impl<Message> GroupButton<Message> {
    pub fn new(label: &str, on_press: Message) -> (r: GroupButton<Message>)
        ensures
            r.label@ == label@,
            r.on_press == on_press,
            !r.active,
    {
        GroupButton { label: String::from_str(label), on_press, active: false }
    }

    pub fn active(self, a: bool) -> (r: GroupButton<Message>)
        ensures
            r.label == self.label,
            r.on_press == self.on_press,
            r.active == a,
    {
        let mut s = self;
        s.active = a;
        s
    }
}

/// Which outer corners of the segment at `index` of `count` are rounded:
/// the left ones on the first segment, the right ones on the last.
pub fn segment_corners(index: usize, count: usize) -> (r: (bool, bool))
    ensures
        r.0 == (index == 0),
        r.1 == (index + 1 == count),
{
    (index == 0, index as u128 + 1 == count as u128)
}

} // verus!
