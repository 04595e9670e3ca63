//! The subscription registry that gates notifications.

use gatt_core::server::NotificationTable;
use gatt_core::ConnHandle;

#[test]
fn enable_then_should_notify() {
    let mut reg: NotificationTable<4> = NotificationTable::new();
    let conn = ConnHandle::new(7);
    assert!(!reg.should_notify(conn, 0x0004));
    reg.set_notify(conn, 0x0004, true);
    assert!(reg.should_notify(conn, 0x0004));
    // A different handle or connection is not subscribed.
    assert!(!reg.should_notify(conn, 0x0005));
    assert!(!reg.should_notify(ConnHandle::new(8), 0x0004));
}

#[test]
fn disable_silences() {
    let mut reg: NotificationTable<4> = NotificationTable::new();
    let conn = ConnHandle::new(7);
    reg.set_notify(conn, 0x0004, true);
    reg.set_notify(conn, 0x0004, false);
    assert!(!reg.should_notify(conn, 0x0004));
}

#[test]
fn disable_keeps_other_connection() {
    let mut reg: NotificationTable<4> = NotificationTable::new();
    let c1 = ConnHandle::new(1);
    let c2 = ConnHandle::new(2);
    reg.set_notify(c1, 0x0004, true);
    reg.set_notify(c2, 0x0004, true);
    reg.set_notify(c1, 0x0004, false);
    assert!(!reg.should_notify(c1, 0x0004));
    assert!(reg.should_notify(c2, 0x0004));
}

#[test]
fn overflow_is_dropped_silently() {
    let mut reg: NotificationTable<4> = NotificationTable::new();
    for i in 1..=4u16 {
        reg.set_notify(ConnHandle::new(i), 0x0010 + i, true);
    }
    // All four slots are taken; a fifth subscription is dropped.
    reg.set_notify(ConnHandle::new(9), 0x0020, true);
    assert!(!reg.should_notify(ConnHandle::new(9), 0x0020));
    // Clearing one slot makes room again.
    reg.set_notify(ConnHandle::new(1), 0x0011, false);
    reg.set_notify(ConnHandle::new(9), 0x0020, true);
    assert!(reg.should_notify(ConnHandle::new(9), 0x0020));
    assert!(reg.should_notify(ConnHandle::new(2), 0x0012));
}

#[test]
fn double_enable_needs_two_disables() {
    // Enabling twice takes two slots; this is why clearing a subscription
    // only silences it when it was held in a single slot.
    let mut reg: NotificationTable<4> = NotificationTable::new();
    let conn = ConnHandle::new(7);
    reg.set_notify(conn, 0x0004, true);
    reg.set_notify(conn, 0x0004, true);
    reg.set_notify(conn, 0x0004, false);
    assert!(reg.should_notify(conn, 0x0004));
    reg.set_notify(conn, 0x0004, false);
    assert!(!reg.should_notify(conn, 0x0004));
}
