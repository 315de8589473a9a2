use rmux::notification::NotificationStore;

const WS: u128 = 1;
const WS2: u128 = 2;
const TAB: u128 = 10;
const TAB2: u128 = 11;

fn add(store: &mut NotificationStore, id: u128, ws: u128, tab: u128, title: &str) {
    store.add_notification_with(
        id,
        ws,
        tab,
        title.to_string(),
        "sub".to_string(),
        "body".to_string(),
        1_700_000_000,
    );
}

#[test]
fn new_store_is_empty() {
    let s = NotificationStore::new();
    assert_eq!(s.get_unread_count(), 0);
    assert!(s.all_notifications().is_empty());
    assert!(!s.has_unread_for_workspace(WS));
    assert!(!s.has_unread_for_tab(TAB));
    assert!(s.get_notifications_for_workspace(WS).is_empty());
    assert_eq!(NotificationStore::default().get_unread_count(), 0);
}

#[test]
fn added_notification_is_unread_in_its_workspace_and_tab() {
    let mut s = NotificationStore::new();
    add(&mut s, 100, WS, TAB, "AI Response");
    assert_eq!(s.get_unread_count(), 1);
    assert!(s.has_unread_for_workspace(WS));
    assert!(s.has_unread_for_tab(TAB));
    assert!(!s.has_unread_for_workspace(WS2));
    assert!(!s.has_unread_for_tab(TAB2));
    let list = s.get_notifications_for_workspace(WS);
    assert_eq!(list.len(), 1);
    assert_eq!(list[0].id, 100);
    assert_eq!(list[0].title, "AI Response");
    assert_eq!(list[0].subtitle, "sub");
    assert_eq!(list[0].body, "body");
    assert_eq!(list[0].timestamp, 1_700_000_000);
    assert!(!list[0].read);
}

#[test]
fn workspace_list_keeps_arrival_order() {
    let mut s = NotificationStore::new();
    add(&mut s, 3, WS, TAB, "third id first");
    add(&mut s, 1, WS2, TAB2, "elsewhere");
    add(&mut s, 2, WS, TAB2, "second");
    let ids: Vec<u128> = s.get_notifications_for_workspace(WS).iter().map(|n| n.id).collect();
    assert_eq!(ids, vec![3, 2]);
}

#[test]
fn mark_read_marks_one() {
    let mut s = NotificationStore::new();
    add(&mut s, 1, WS, TAB, "a");
    add(&mut s, 2, WS, TAB, "b");
    s.mark_read(1);
    assert_eq!(s.get_unread_count(), 1);
    assert!(s.has_unread_for_tab(TAB));
    s.mark_read(2);
    assert_eq!(s.get_unread_count(), 0);
    assert!(!s.has_unread_for_workspace(WS));
    s.mark_read(99);
    assert_eq!(s.all_notifications().len(), 2);
}

#[test]
fn mark_read_for_tab_leaves_other_tabs() {
    let mut s = NotificationStore::new();
    add(&mut s, 1, WS, TAB, "a");
    add(&mut s, 2, WS, TAB2, "b");
    add(&mut s, 3, WS2, TAB, "c");
    s.mark_read_for_tab(TAB);
    assert!(!s.has_unread_for_tab(TAB));
    assert!(s.has_unread_for_tab(TAB2));
    assert!(s.has_unread_for_workspace(WS));
    assert!(!s.has_unread_for_workspace(WS2));
    assert_eq!(s.get_unread_count(), 1);
}

#[test]
fn mark_all_read_leaves_nothing_unread() {
    let mut s = NotificationStore::new();
    add(&mut s, 1, WS, TAB, "a");
    add(&mut s, 2, WS2, TAB2, "b");
    s.mark_all_read();
    assert_eq!(s.get_unread_count(), 0);
    assert!(!s.has_unread_for_workspace(WS));
    assert!(!s.has_unread_for_tab(TAB2));
    assert_eq!(s.all_notifications().len(), 2);
    assert!(s.all_notifications().iter().all(|n| n.read));
}

#[test]
fn clear_all_forgets_everything() {
    let mut s = NotificationStore::new();
    add(&mut s, 1, WS, TAB, "a");
    s.clear_all();
    assert_eq!(s.get_unread_count(), 0);
    assert!(s.all_notifications().is_empty());
    assert!(s.get_notifications_for_workspace(WS).is_empty());
    assert!(!s.has_unread_for_tab(TAB));
}

#[test]
fn all_notifications_holds_each_once() {
    let mut s = NotificationStore::new();
    add(&mut s, 5, WS, TAB, "a");
    add(&mut s, 6, WS, TAB, "b");
    add(&mut s, 7, WS2, TAB2, "c");
    let mut ids: Vec<u128> = s.all_notifications().iter().map(|n| n.id).collect();
    ids.sort();
    assert_eq!(ids, vec![5, 6, 7]);
}

#[test]
fn add_notification_uses_a_fresh_v4_id_and_the_clock() {
    let mut s = NotificationStore::new();
    s.add_notification(WS, TAB, "AI Response".to_string(), "AI replied".to_string(), "hello".to_string());
    s.add_notification(WS, TAB, "AI Response".to_string(), "AI replied".to_string(), "again".to_string());
    assert_eq!(s.get_unread_count(), 2);
    let list = s.get_notifications_for_workspace(WS);
    assert_eq!(list.len(), 2);
    assert_ne!(list[0].id, list[1].id);
    for n in &list {
        let u = uuid::Uuid::from_u128(n.id);
        assert_eq!(u.get_version_num(), 4);
        assert_eq!(u.get_variant(), uuid::Variant::RFC4122);
        assert!(n.timestamp > 1_600_000_000);
        assert_eq!(n.title, "AI Response");
        assert_eq!(n.workspace_id, WS);
        assert_eq!(n.tab_id, TAB);
    }
    assert_eq!(list[1].body, "again");
}

#[test]
fn a_notification_copy_can_be_marked() {
    let mut s = NotificationStore::new();
    add(&mut s, 1, WS, TAB, "a");
    let list = s.get_notifications_for_workspace(WS);
    let copy = list[0].with_read(true);
    assert!(copy.read);
    assert_eq!(copy.title, "a");
    assert_eq!(copy.id, 1);
}

#[test]
fn every_listed_notification_is_returned() {
    let mut s = NotificationStore::new();
    for id in 0..5u128 {
        add(&mut s, id, WS, TAB + id, "n");
    }
    s.mark_read(2);
    s.mark_read_for_tab(TAB + 3);
    s.mark_all_read();
    assert_eq!(s.get_notifications_for_workspace(WS).len(), 5);
    assert_eq!(s.all_notifications().len(), 5);
}

#[test]
fn marking_a_tab_read_lowers_the_count_by_its_unread() {
    let mut s = NotificationStore::new();
    add(&mut s, 1, WS, TAB, "a");
    add(&mut s, 2, WS2, TAB, "b");
    add(&mut s, 3, WS, TAB2, "c");
    add(&mut s, 4, WS, TAB, "d");
    s.mark_read(4);
    assert_eq!(s.get_unread_count(), 3);
    s.mark_read_for_tab(TAB);
    assert_eq!(s.get_unread_count(), 1);
    assert!(!s.has_unread_for_tab(TAB));
    assert!(s.has_unread_for_tab(TAB2));
    let listed: Vec<u128> = s.get_notifications_for_workspace(WS).iter().map(|n| n.id).collect();
    assert_eq!(listed, vec![1, 3, 4]);
    assert!(s.get_notifications_for_workspace(WS).iter().all(|n| n.workspace_id == WS));
}
