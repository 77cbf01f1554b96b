use toast_list::{
    default_icon, render_item, slide_offset, IconName, ItemIcon, Notification, NotificationList,
    NotificationType, Tone, AUTOHIDE_DELAY_MS, WINDOW,
};

fn note(id: &str) -> Notification {
    Notification::new(format!("content of {}", id)).with_id(id.to_string())
}

#[test]
fn new_notification_defaults() {
    let n = Notification::new("hello".to_string());
    assert_eq!(n.id.len(), 36);
    assert_eq!(n.kind, NotificationType::Info);
    assert_eq!(n.title, None);
    assert_eq!(n.content, "hello");
    assert_eq!(n.icon, None);
    assert!(n.autohide);
    assert_eq!(n.on_click, None);
}

#[test]
fn fresh_ids_differ() {
    let a = Notification::new("a".to_string());
    let b = Notification::new("a".to_string());
    assert_ne!(a.id, b.id);
    assert_eq!(a.id.matches('-').count(), 4);
}

#[test]
fn builders_set_fields() {
    let n = Notification::new("body".to_string())
        .with_id("x".to_string())
        .title("Title".to_string())
        .icon("bell".to_string())
        .warning()
        .autohide(false)
        .on_click(9);
    assert_eq!(n.id, "x");
    assert_eq!(n.title.as_deref(), Some("Title"));
    assert_eq!(n.icon.as_deref(), Some("bell"));
    assert_eq!(n.kind, NotificationType::Warning);
    assert!(!n.autohide);
    assert_eq!(n.on_click, Some(9));
    assert_eq!(n.error().kind, NotificationType::Error);
}

#[test]
fn type_builders() {
    let n = Notification::new("b".to_string());
    assert_eq!(n.success().kind, NotificationType::Success);
    let n = Notification::new("b".to_string()).error().info();
    assert_eq!(n.kind, NotificationType::Info);
    let n = Notification::new("b".to_string()).with_type(NotificationType::Error);
    assert_eq!(n.kind, NotificationType::Error);
}

#[test]
fn default_icons_follow_severity() {
    assert_eq!(default_icon(NotificationType::Info), (IconName::Info, Tone::Blue));
    assert_eq!(default_icon(NotificationType::Success), (IconName::CircleCheck, Tone::Green));
    assert_eq!(default_icon(NotificationType::Warning), (IconName::TriangleAlert, Tone::Yellow));
    assert_eq!(default_icon(NotificationType::Error), (IconName::CircleX, Tone::Red));
}

#[test]
fn render_item_describes_notification() {
    let n = note("a").title("T".to_string()).autohide(false).error();
    let r = render_item(4, &n);
    assert_eq!(r.key, 4);
    assert_eq!(r.id, "a");
    assert!(matches!(r.icon, ItemIcon::Builtin(IconName::CircleX, Tone::Red)));
    assert_eq!(r.icon_top, 12);
    assert_eq!(r.title.as_deref(), Some("T"));
    assert_eq!(r.content, "content of a");
    assert!(r.closable);
    assert!(!r.clickable);

    let n = note("b").icon("star".to_string()).on_click(1);
    let r = render_item(5, &n);
    assert!(matches!(&r.icon, ItemIcon::Custom(s) if s == "star"));
    assert_eq!(r.icon_top, 10);
    assert_eq!(r.title, None);
    assert!(!r.closable);
    assert!(r.clickable);
}

#[test]
fn slide_offsets() {
    assert_eq!(slide_offset(0), 120);
    assert_eq!(slide_offset(500), 60);
    assert_eq!(slide_offset(333), 80);
    assert_eq!(slide_offset(1000), 0);
}

#[test]
fn slide_is_monotonic() {
    let mut last = slide_offset(0);
    for p in 1..=1000u32 {
        let o = slide_offset(p);
        assert!(o <= last);
        last = o;
    }
}

#[test]
fn new_list_is_empty() {
    let l = NotificationList::new();
    assert_eq!(l.len(), 0);
    assert!(l.can_push());
    assert_eq!(AUTOHIDE_DELAY_MS, 5000);
    assert_eq!(WINDOW, 10);
}

#[test]
fn dedup_replace_same_id() {
    let mut l = NotificationList::new();
    l.push(note("other").autohide(false));
    l.push(note("dup").title("first".to_string()));
    let first_key = l.keys()[1];
    let r = l.render();
    assert!(r.arm.contains(&first_key));
    l.push(note("dup").title("second".to_string()));
    assert_eq!(l.ids(), vec!["other".to_string(), "dup".to_string()]);
    let r = l.render();
    assert_eq!(r.items.len(), 2);
    assert_eq!(r.items[1].title.as_deref(), Some("second"));
    // the first item's timer fires late: nothing happens
    assert!(!l.dismiss(first_key));
    assert_eq!(l.ids(), vec!["other".to_string(), "dup".to_string()]);
}

#[test]
fn bounded_window_of_fifteen() {
    let mut l = NotificationList::new();
    for i in 0..15 {
        l.push(note(&format!("n{}", i)).autohide(false));
    }
    assert_eq!(l.len(), 15);
    let r = l.render();
    assert_eq!(r.items.len(), 10);
    let contents: Vec<String> = r.items.iter().map(|d| d.content.clone()).collect();
    let expected: Vec<String> = (5..15).map(|i| format!("content of n{}", i)).collect();
    assert_eq!(contents, expected);
    let ids: Vec<String> = r.items.iter().map(|d| d.id.clone()).collect();
    let expected_ids: Vec<String> = (5..15).map(|i| format!("n{}", i)).collect();
    assert_eq!(ids, expected_ids);
    let keys = l.keys();
    let shown: Vec<u64> = r.items.iter().map(|d| d.key).collect();
    assert_eq!(shown, keys[5..].to_vec());
    assert!(r.arm.is_empty());
    assert_eq!(l.len(), 15);
}

#[test]
fn autohide_removes_after_timer() {
    let mut l = NotificationList::new();
    l.push(note("a"));
    let key = l.keys()[0];
    assert_eq!(l.len(), 1);
    let r = l.render();
    assert_eq!(r.arm, vec![key]);
    // re-rendering does not arm a second timer
    let r = l.render();
    assert!(r.arm.is_empty());
    assert_eq!(l.len(), 1);
    assert!(l.dismiss(key));
    assert_eq!(l.len(), 0);
}

#[test]
fn hidden_items_arm_when_shown() {
    let mut l = NotificationList::new();
    for i in 0..12 {
        l.push(note(&format!("n{}", i)));
    }
    let keys = l.keys();
    let r = l.render();
    assert_eq!(r.arm, keys[2..].to_vec());
    l.dismiss(keys[11]);
    let r = l.render();
    assert_eq!(r.arm, vec![keys[1]]);
}

#[test]
fn manual_dismiss_removes_only_that_item() {
    let mut l = NotificationList::new();
    l.push(note("a").autohide(false));
    l.push(note("b").autohide(false));
    l.push(note("c").autohide(false));
    let r = l.render();
    assert!(r.items.iter().all(|d| d.closable));
    assert!(r.arm.is_empty());
    assert!(l.dismiss(r.items[1].key));
    assert_eq!(l.ids(), vec!["a".to_string(), "c".to_string()]);
    assert!(!l.dismiss(r.items[1].key));
}

#[test]
fn click_dismisses_and_hands_out_handler_once() {
    let mut l = NotificationList::new();
    l.push(note("a").autohide(false));
    l.push(note("b").on_click(42));
    let keys = l.keys();
    assert_eq!(l.click(keys[0]), None);
    assert_eq!(l.len(), 2);
    assert_eq!(l.click(keys[1]), Some(42));
    assert_eq!(l.ids(), vec!["a".to_string()]);
    assert_eq!(l.click(keys[1]), None);
    assert_eq!(l.len(), 1);
}

#[test]
fn clear_drops_all_and_silences_timers() {
    let mut l = NotificationList::new();
    l.push(note("a"));
    l.push(note("b").autohide(false));
    l.push(note("c"));
    let r = l.render();
    let armed = r.arm.clone();
    assert_eq!(armed.len(), 2);
    l.clear();
    assert_eq!(l.len(), 0);
    for k in &armed {
        assert!(!l.dismiss(*k));
    }
    l.push(note("a"));
    for k in &armed {
        assert!(!l.dismiss(*k));
    }
    assert_eq!(l.ids(), vec!["a".to_string()]);
}
