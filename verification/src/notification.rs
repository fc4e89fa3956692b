//! Notifications: a toast stack with auto-dismiss.
//!
//! The host owns a [`NotificationList`], calls [`NotificationList::push`] to
//! add entries and [`NotificationList::tick`] once per frame so that expired
//! entries disappear.

use vstd::prelude::*;
use crate::alignment::{Horizontal, Vertical};
use crate::icon::IconName;

verus! {

#[derive(Debug, Clone, Copy, PartialEq, Eq)]
pub enum NotificationKind {
    Info,
    Success,
    Warning,
    Error,
}

impl NotificationKind {
    pub open spec fn spec_icon(self) -> IconName {
        match self {
            NotificationKind::Info => IconName::Info,
            NotificationKind::Success => IconName::CheckCircle,
            NotificationKind::Warning => IconName::Warning,
            NotificationKind::Error => IconName::XCircle,
        }
    }

    /// The icon shown with a notification of this kind.
    pub fn icon(self) -> (r: IconName)
        ensures
            r == self.spec_icon(),
    {
        match self {
            NotificationKind::Info => IconName::Info,
            NotificationKind::Success => IconName::CheckCircle,
            NotificationKind::Warning => IconName::Warning,
            NotificationKind::Error => IconName::XCircle,
        }
    }
}

/// One toast.
#[derive(Debug)]
pub struct Notification {
    pub id: u64,
    pub kind: NotificationKind,
    pub title: String,
    pub message: Option<String>,
    /// Remaining lifetime in milliseconds. 0 means "persist until dismissed".
    pub remaining_ms: i64,
}

impl Clone for Notification {
    fn clone(&self) -> (r: Notification)
        ensures
            r == *self,
    {
        Notification {
            id: self.id,
            kind: self.kind,
            title: self.title.clone(),
            message: self.message.clone(),
            remaining_ms: self.remaining_ms,
        }
    }
}

/// Lifetime of a new notification, in milliseconds.
pub const DEFAULT_TTL_MS: i64 = 5000;

impl Notification {
    pub fn new(id: u64, kind: NotificationKind, title: &str) -> (r: Notification)
        ensures
            r.id == id,
            r.kind == kind,
            r.title@ == title@,
            r.message is None,
            r.remaining_ms == DEFAULT_TTL_MS,
    {
        Notification {
            id,
            kind,
            title: String::from_str(title),
            message: None,
            remaining_ms: DEFAULT_TTL_MS,
        }
    }

    pub fn message(self, m: &str) -> (r: Notification)
        ensures
            r.id == self.id,
            r.kind == self.kind,
            r.title == self.title,
            r.message is Some && (r.message->0)@ == m@,
            r.remaining_ms == self.remaining_ms,
    {
        let mut s = self;
        s.message = Some(String::from_str(m));
        s
    }

    pub fn ttl_ms(self, ms: i64) -> (r: Notification)
        ensures
            r.id == self.id,
            r.kind == self.kind,
            r.title == self.title,
            r.message == self.message,
            r.remaining_ms == ms,
    {
        let mut s = self;
        s.remaining_ms = ms;
        s
    }

    /// Makes the notification persist until it is dismissed.
    pub fn sticky(self) -> (r: Notification)
        ensures
            r.id == self.id,
            r.kind == self.kind,
            r.title == self.title,
            r.message == self.message,
            r.remaining_ms == 0,
    {
        let mut s = self;
        s.remaining_ms = 0;
        s
    }

    pub open spec fn expired(&self) -> bool {
        self.remaining_ms < 0
    }

    /// Whether the lifetime has run out.
    pub fn is_expired(&self) -> (r: bool)
        ensures
            r == self.expired(),
    {
        self.remaining_ms < 0
    }
}

/// The stack of live notifications and where it is shown.
#[derive(Debug)]
pub struct NotificationList {
    pub items: Vec<Notification>,
    pub placement: (Horizontal, Vertical),
    pub max_items: usize,
}

/// `items` without those whose id is `id`, in order.
pub open spec fn without_id(items: Seq<Notification>, id: u64) -> Seq<Notification> {
    items.filter(|e: Notification| e.id != id)
}

/// The stack after pushing `n`: any entry with the id of `n` is replaced, `n`
/// goes on top, and the oldest entries are dropped beyond `max` entries.
pub open spec fn pushed(items: Seq<Notification>, n: Notification, max: nat) -> Seq<Notification> {
    let s = without_id(items, n.id).push(n);
    if s.len() > max {
        s.skip(s.len() - max)
    } else {
        s
    }
}

/// A notification after `elapsed` milliseconds: a positive lifetime shrinks,
/// a sticky (0) or exhausted one is kept as it is.
pub open spec fn aged(n: Notification, elapsed: i64) -> Notification {
    if n.remaining_ms > 0 {
        Notification {
            id: n.id,
            kind: n.kind,
            title: n.title,
            message: n.message,
            remaining_ms: (n.remaining_ms - elapsed) as i64,
        }
    } else {
        n
    }
}

/// Whether aging every item by `elapsed` stays within `i64`.
pub open spec fn can_age(items: Seq<Notification>, elapsed: i64) -> bool {
    forall|i: int|
        0 <= i < items.len() && items[i].remaining_ms > 0 ==> i64::MIN <= #[trigger] items[i].remaining_ms
            - elapsed <= i64::MAX
}

/// The stack after `elapsed` milliseconds: every item is aged and the
/// expired ones are dropped.
pub open spec fn ticked(items: Seq<Notification>, elapsed: i64) -> Seq<Notification> {
    items.map_values(|n: Notification| aged(n, elapsed)).filter(|n: Notification| !n.expired())
}

/// Whether no two entries share an id.
pub open spec fn unique_ids(items: Seq<Notification>) -> bool {
    forall|i: int, j: int|
        0 <= i < items.len() && 0 <= j < items.len() && i != j ==> items[i].id != items[j].id
}

/// Maximal number of notifications a new list shows.
pub const DEFAULT_MAX_ITEMS: usize = 6;

/// Moves the items of `v` out, leaving it empty.
fn take_all(v: &mut Vec<Notification>) -> (r: Vec<Notification>)
    ensures
        r@ == old(v)@,
        final(v)@ == Seq::<Notification>::empty(),
{
    let mut r: Vec<Notification> = Vec::new();
    core::mem::swap(v, &mut r);
    r
}

/// Keeps the entries of `items` whose id is not `id`.
fn retain_other_ids(items: Vec<Notification>, id: u64) -> (r: Vec<Notification>)
    ensures
        r@ == without_id(items@, id),
{
    let mut rest = items;
    let ghost all = rest@;
    let mut out: Vec<Notification> = Vec::new();
    let ghost mut i: int = 0;
    proof {
        reveal(Seq::filter);
        assert(all.take(0).filter(|e: Notification| e.id != id) =~= Seq::empty());
    }
    while rest.len() > 0
        invariant
            0 <= i <= all.len(),
            rest@ == all.skip(i),
            out@ == all.take(i).filter(|e: Notification| e.id != id),
        decreases rest@.len(),
    {
        let n = rest.remove(0);
        proof {
            reveal(Seq::filter);
            assert(all.take(i + 1).drop_last() =~= all.take(i));
            assert(all.take(i + 1).last() == n);
            assert(all.skip(i).remove(0) =~= all.skip(i + 1));
        }
        if n.id != id {
            out.push(n);
        }
        proof {
            i = i + 1;
        }
    }
    assert(all.take(i) =~= all);
    out
}

impl NotificationList {
    pub fn new() -> (r: NotificationList)
        ensures
            r.items@ == Seq::<Notification>::empty(),
            r.placement == (Horizontal::Right, Vertical::Bottom),
            r.max_items == DEFAULT_MAX_ITEMS,
    {
        NotificationList {
            items: Vec::new(),
            placement: (Horizontal::Right, Vertical::Bottom),
            max_items: DEFAULT_MAX_ITEMS,
        }
    }

    /// Sets the corner the stack is shown in.
    pub fn placement(self, h: Horizontal, v: Vertical) -> (r: NotificationList)
        ensures
            r.items == self.items,
            r.placement == (h, v),
            r.max_items == self.max_items,
    {
        let mut s = self;
        s.placement = (h, v);
        s
    }

    /// Adds `n` on top, replacing any entry with the same id and dropping the
    /// oldest entries beyond `max_items`.
    pub fn push(&mut self, n: Notification)
        ensures
            final(self).items@ == pushed(old(self).items@, n, old(self).max_items as nat),
            final(self).placement == old(self).placement,
            final(self).max_items == old(self).max_items,
    {
        let items = take_all(&mut self.items);
        let mut kept = retain_other_ids(items, n.id);
        kept.push(n);
        let len = kept.len();
        let over = len.saturating_sub(self.max_items);
        if over > 0 {
            let ghost all = kept@;
            let mut rest = kept;
            let mut dropped: usize = 0;
            while dropped < over
                invariant
                    over <= all.len(),
                    dropped <= over,
                    rest@ == all.skip(dropped as int),
                decreases over - dropped,
            {
                let _ = rest.remove(0);
                assert(all.skip(dropped as int).remove(0) =~= all.skip(dropped + 1));
                dropped = dropped + 1;
            }
            self.items = rest;
        } else {
            self.items = kept;
        }
    }

    /// Removes every entry whose id is `id`.
    pub fn dismiss(&mut self, id: u64)
        ensures
            final(self).items@ == without_id(old(self).items@, id),
            final(self).placement == old(self).placement,
            final(self).max_items == old(self).max_items,
    {
        let items = take_all(&mut self.items);
        self.items = retain_other_ids(items, id);
    }

    /// Decrements all remaining lifetimes and drops expired entries. A
    /// remaining value of 0 is treated as sticky and is never decremented.
    pub fn tick(&mut self, elapsed_ms: i64)
        requires
            can_age(old(self).items@, elapsed_ms),
        ensures
            final(self).items@ == ticked(old(self).items@, elapsed_ms),
            final(self).placement == old(self).placement,
            final(self).max_items == old(self).max_items,
    {
        let mut rest = take_all(&mut self.items);
        let ghost all = rest@;
        let ghost aged_all = all.map_values(|n: Notification| aged(n, elapsed_ms));
        let mut out: Vec<Notification> = Vec::new();
        let ghost mut i: int = 0;
        proof {
            reveal(Seq::filter);
            assert(aged_all.take(0).filter(|n: Notification| !n.expired()) =~= Seq::empty());
        }
        while rest.len() > 0
            invariant
                0 <= i <= all.len(),
                rest@ == all.skip(i),
                aged_all == all.map_values(|n: Notification| aged(n, elapsed_ms)),
                can_age(all, elapsed_ms),
                out@ == aged_all.take(i).filter(|n: Notification| !n.expired()),
            decreases rest@.len(),
        {
            let mut n = rest.remove(0);
            proof {
                assert(all[i] == n);
                assert(all.skip(i).remove(0) =~= all.skip(i + 1));
            }
            if n.remaining_ms > 0 {
                n.remaining_ms = n.remaining_ms - elapsed_ms;
            }
            proof {
                reveal(Seq::filter);
                assert(aged_all[i] == n);
                assert(aged_all.take(i + 1).drop_last() =~= aged_all.take(i));
            }
            if !n.is_expired() {
                out.push(n);
            }
            proof {
                i = i + 1;
            }
        }
        assert(aged_all.take(i) =~= aged_all);
        self.items = out;
    }

    pub open spec fn newest_on_top(&self) -> bool {
        self.placement.1 == Vertical::Top
    }

    /// The order in which the entries are stacked on screen, as indices into
    /// `items`: newest first for a top placement, oldest first otherwise.
    pub fn display_order(&self) -> (r: Vec<usize>)
        ensures
            r@.len() == self.items@.len(),
            forall|k: int|
                0 <= k < r@.len() ==> r@[k] == if self.newest_on_top() {
                    self.items@.len() - 1 - k
                } else {
                    k
                },
    {
        let len = self.items.len();
        let top = match self.placement.1 {
            Vertical::Top => true,
            _ => false,
        };
        let mut r: Vec<usize> = Vec::new();
        let mut k: usize = 0;
        while k < len
            invariant
                len == self.items@.len(),
                top == self.newest_on_top(),
                k <= len,
                r@.len() == k,
                forall|j: int|
                    0 <= j < k ==> r@[j] == if top {
                        len - 1 - j
                    } else {
                        j
                    },
            decreases len - k,
        {
            if top {
                r.push(len - 1 - k);
            } else {
                r.push(k);
            }
            k = k + 1;
        }
        r
    }
}

impl Clone for NotificationList {
    fn clone(&self) -> (r: NotificationList)
        ensures
            r.items@ == self.items@,
            r.placement == self.placement,
            r.max_items == self.max_items,
    {
        let items = self.items.clone();
        assert(items@ =~= self.items@);
        NotificationList { items, placement: self.placement, max_items: self.max_items }
    }
}

impl Default for NotificationList {
    fn default() -> (r: NotificationList)
        ensures
            r.items@ == Seq::<Notification>::empty(),
            r.placement == (Horizontal::Right, Vertical::Bottom),
            r.max_items == DEFAULT_MAX_ITEMS,
    {
        NotificationList::new()
    }
}

/// Every entry left by `without_id` comes from `items` and lacks the id; the
/// entries keep unique ids.
pub proof fn lemma_without_id(items: Seq<Notification>, id: u64)
    ensures
        forall|k: int|
            0 <= k < without_id(items, id).len() ==> (#[trigger] without_id(items, id)[k]).id != id
                && items.contains(without_id(items, id)[k]),
        without_id(items, id).len() <= items.len(),
        unique_ids(items) ==> unique_ids(without_id(items, id)),
    decreases items.len(),
{
    let pred = |e: Notification| e.id != id;
    let f = without_id(items, id);
    items.lemma_filter_len(pred);
    assert forall|k: int| 0 <= k < f.len() implies (#[trigger] f[k]).id != id && items.contains(
        f[k],
    ) by {
        items.lemma_filter_pred(pred, k);
        assert(f.contains(f[k]));
        items.lemma_filter_contains_rev(pred, f[k]);
    }
    if items.len() > 0 && unique_ids(items) {
        reveal(Seq::filter);
        let rest = items.drop_last();
        assert(unique_ids(rest));
        lemma_without_id(rest, id);
        let fr = without_id(rest, id);
        if pred(items.last()) {
            assert(f == fr.push(items.last()));
            assert forall|a: int, b: int|
                0 <= a < f.len() && 0 <= b < f.len() && a != b implies f[a].id != f[b].id by {
                if a < fr.len() && b < fr.len() {
                } else if a == fr.len() {
                    let j = choose|j: int| 0 <= j < rest.len() && rest[j] == fr[b];
                    assert(items[j] == rest[j]);
                    assert(items[items.len() - 1] == items.last());
                } else {
                    let j = choose|j: int| 0 <= j < rest.len() && rest[j] == fr[a];
                    assert(items[j] == rest[j]);
                    assert(items[items.len() - 1] == items.last());
                }
            }
        } else {
            assert(f == fr);
        }
    }
}

/// A push puts the new notification on top, leaves no other entry with its
/// id and keeps at most `max` entries; it keeps ids unique.
pub proof fn law_push(items: Seq<Notification>, n: Notification, max: nat)
    requires
        max >= 1,
    ensures
        pushed(items, n, max).len() <= max,
        pushed(items, n, max).len() >= 1,
        pushed(items, n, max).last() == n,
        forall|k: int|
            0 <= k < pushed(items, n, max).len() - 1 ==> (#[trigger] pushed(items, n, max)[k]).id
                != n.id,
        unique_ids(items) ==> unique_ids(pushed(items, n, max)),
{
    lemma_without_id(items, n.id);
    let w = without_id(items, n.id);
    let s = w.push(n);
    let p = pushed(items, n, max);
    assert(forall|k: int| 0 <= k < w.len() ==> s[k] == w[k]);
    if s.len() > max {
        let d = s.len() - max;
        assert(p.last() == s.last());
        assert(forall|k: int| 0 <= k < p.len() ==> p[k] == s[k + d]);
    }
    if unique_ids(items) {
        assert(unique_ids(s)) by {
            assert forall|a: int, b: int|
                0 <= a < s.len() && 0 <= b < s.len() && a != b implies s[a].id != s[b].id by {
                if a < w.len() && b < w.len() {
                    assert(w[a].id != w[b].id);
                }
            }
        }
    }
}

/// After a dismiss no entry has the dismissed id, and ids stay unique.
pub proof fn law_dismiss(items: Seq<Notification>, id: u64)
    ensures
        forall|k: int|
            0 <= k < without_id(items, id).len() ==> (#[trigger] without_id(items, id)[k]).id != id,
        unique_ids(items) ==> unique_ids(without_id(items, id)),
{
    lemma_without_id(items, id);
}

/// After a tick no entry is expired, and a sticky entry (lifetime 0) is
/// still there, unchanged.
pub proof fn law_tick(items: Seq<Notification>, elapsed: i64)
    ensures
        forall|k: int| 0 <= k < ticked(items, elapsed).len() ==> !(#[trigger] ticked(items, elapsed)[k]).expired(),
        forall|k: int|
            0 <= k < items.len() && (#[trigger] items[k]).remaining_ms == 0 ==> ticked(
                items,
                elapsed,
            ).contains(items[k]),
{
    let a = items.map_values(|n: Notification| aged(n, elapsed));
    let pred = |n: Notification| !n.expired();
    assert forall|k: int| 0 <= k < ticked(items, elapsed).len() implies !(#[trigger] ticked(
        items,
        elapsed,
    )[k]).expired() by {
        a.lemma_filter_pred(pred, k);
    }
    assert forall|k: int|
        0 <= k < items.len() && (#[trigger] items[k]).remaining_ms == 0 implies ticked(
        items,
        elapsed,
    ).contains(items[k]) by {
        assert(a[k] == items[k]);
        a.lemma_filter_contains(pred, k);
    }
}

} // verus!
