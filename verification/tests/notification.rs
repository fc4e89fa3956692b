use iced_longbridge::alignment::{Horizontal, Vertical};
use iced_longbridge::icon::IconName;
use iced_longbridge::notification::{Notification, NotificationKind, NotificationList};

fn ids(list: &NotificationList) -> Vec<u64> {
    list.items.iter().map(|n| n.id).collect()
}

#[test]
fn builders() {
    let n = Notification::new(7, NotificationKind::Success, "Saved").message("All good").ttl_ms(1200);
    assert_eq!(n.id, 7);
    assert_eq!(n.title, "Saved");
    assert_eq!(n.message.as_deref(), Some("All good"));
    assert_eq!(n.remaining_ms, 1200);
    assert_eq!(Notification::new(1, NotificationKind::Info, "x").remaining_ms, 5000);
    assert_eq!(Notification::new(1, NotificationKind::Info, "x").sticky().remaining_ms, 0);
    assert_eq!(NotificationKind::Error.icon(), IconName::XCircle);
    assert_eq!(NotificationKind::Success.icon(), IconName::CheckCircle);
}

#[test]
fn push_replaces_same_id_and_caps() {
    let mut list = NotificationList::new();
    assert_eq!(list.max_items, 6);
    for id in 0..8u64 {
        list.push(Notification::new(id, NotificationKind::Info, "t"));
    }
    assert_eq!(ids(&list), vec![2, 3, 4, 5, 6, 7]);
    list.push(Notification::new(4, NotificationKind::Warning, "again"));
    assert_eq!(ids(&list), vec![2, 3, 5, 6, 7, 4]);
    assert_eq!(list.items.last().unwrap().title, "again");
}

#[test]
fn push_with_zero_capacity_keeps_nothing() {
    let mut list = NotificationList::new();
    list.max_items = 0;
    list.push(Notification::new(1, NotificationKind::Info, "t"));
    assert!(list.items.is_empty());
}

#[test]
fn dismiss_removes_by_id() {
    let mut list = NotificationList::default();
    list.push(Notification::new(1, NotificationKind::Info, "a"));
    list.push(Notification::new(2, NotificationKind::Info, "b"));
    list.dismiss(1);
    assert_eq!(ids(&list), vec![2]);
    list.dismiss(99);
    assert_eq!(ids(&list), vec![2]);
}

#[test]
fn tick_expires_and_keeps_sticky() {
    let mut list = NotificationList::new();
    list.push(Notification::new(1, NotificationKind::Info, "short").ttl_ms(100));
    list.push(Notification::new(2, NotificationKind::Info, "sticky").sticky());
    list.push(Notification::new(3, NotificationKind::Info, "long"));
    list.tick(100);
    assert_eq!(ids(&list), vec![1, 2, 3]);
    assert_eq!(list.items[0].remaining_ms, 0);
    list.tick(1);
    assert_eq!(ids(&list), vec![1, 2, 3]);
    assert_eq!(list.items[2].remaining_ms, 4899);
    list.tick(4900);
    assert_eq!(ids(&list), vec![1, 2]);
    assert!(!list.items[0].is_expired());
    list.tick(1_000_000);
    assert_eq!(ids(&list), vec![1, 2]);
}

#[test]
fn placement_and_display_order() {
    let mut list = NotificationList::new().placement(Horizontal::Left, Vertical::Top);
    assert_eq!(list.placement, (Horizontal::Left, Vertical::Top));
    for id in 0..3u64 {
        list.push(Notification::new(id, NotificationKind::Info, "t"));
    }
    assert_eq!(list.display_order(), vec![2, 1, 0]);
    let list = list.placement(Horizontal::Right, Vertical::Bottom);
    assert_eq!(list.display_order(), vec![0, 1, 2]);
}
