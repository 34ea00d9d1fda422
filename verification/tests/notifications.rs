use tde::{toast_text, Area, NotificationDaemon, MAX_VISIBLE, TOAST_TTL_NS};

fn texts(d: &NotificationDaemon) -> Vec<String> {
    d.toast_slots(Area { x: 0, y: 0, width: 80, height: 40 })
        .into_iter()
        .map(|s| s.text)
        .collect()
}

fn msgs(v: &[&str]) -> Vec<String> {
    v.iter().map(|s| s.to_string()).collect()
}

#[test]
fn new_daemon_shows_nothing() {
    let d = NotificationDaemon::new();
    assert!(texts(&d).is_empty());
}

#[test]
fn advance_keeps_only_the_newest_three() {
    let mut d = NotificationDaemon::new();
    d.advance(msgs(&["a", "b", "c", "d", "e"]), 100);
    // newest first on screen
    assert_eq!(texts(&d), vec!["e", "d", "c"]);
    assert_eq!(MAX_VISIBLE, 3);
}

#[test]
fn advance_expires_toasts_after_their_lifetime() {
    let mut d = NotificationDaemon::new();
    d.advance(msgs(&["old"]), 0);
    d.advance(Vec::new(), TOAST_TTL_NS - 1);
    assert_eq!(texts(&d), vec!["old"]);
    d.advance(msgs(&["new"]), TOAST_TTL_NS);
    assert_eq!(texts(&d), vec!["new"]);
}

#[test]
fn newest_message_is_shown_first() {
    let mut d = NotificationDaemon::new();
    d.advance(msgs(&["one", "two"]), 10);
    d.advance(msgs(&["three"]), 20);
    assert_eq!(texts(&d), vec!["three", "two", "one"]);
}

#[test]
fn tick_receives_messages_from_the_channel() {
    let mut d = NotificationDaemon::new();
    d.tx.send("hello".to_string()).unwrap();
    let other = d.sender();
    other.send("world".to_string()).unwrap();
    d.tick();
    assert_eq!(texts(&d), vec!["world", "hello"]);
}

#[test]
fn toast_slots_stack_against_the_right_edge() {
    let mut d = NotificationDaemon::new();
    d.advance(msgs(&["a", "b", "c"]), 0);
    let slots = d.toast_slots(Area { x: 0, y: 0, width: 80, height: 24 });
    let areas: Vec<(u16, u16, u16, u16)> =
        slots.iter().map(|s| (s.area.x, s.area.y, s.area.width, s.area.height)).collect();
    assert_eq!(areas, vec![(43, 1, 36, 3), (43, 5, 36, 3), (43, 9, 36, 3)]);
    assert_eq!(slots[0].born_ns, 0);
}

#[test]
fn toast_slots_stop_when_the_area_is_full() {
    let mut d = NotificationDaemon::new();
    d.advance(msgs(&["a", "b", "c"]), 0);
    // rows 1..4 fit, the next toast would need rows 5..8
    let slots = d.toast_slots(Area { x: 0, y: 0, width: 20, height: 7 });
    assert_eq!(slots.len(), 1);
    assert_eq!(slots[0].text, "c");
    assert_eq!((slots[0].area.x, slots[0].area.y), (0, 1));
    assert!(d.toast_slots(Area { x: 0, y: 0, width: 20, height: 3 }).is_empty());
}

#[test]
fn toast_text_keeps_short_messages() {
    assert_eq!(toast_text("build finished"), "build finished");
    let exactly = "x".repeat(32);
    assert_eq!(toast_text(&exactly), exactly);
}

#[test]
fn toast_text_shortens_long_messages() {
    let long = "abcdefghijklmnopqrstuvwxyz0123456789";
    assert_eq!(toast_text(long), "abcdefghijklmnopqrstuvwxyz01234\u{2026}");
}

#[test]
fn toast_text_shortens_at_bytes_not_chars() {
    // 29 ASCII bytes, then a 2-byte character ending at byte 31
    let msg = format!("{}\u{e9}{}", "a".repeat(29), "zzzz");
    assert_eq!(toast_text(&msg), format!("{}\u{e9}\u{2026}", "a".repeat(29)));
}

#[test]
fn placement_fits_checks_coordinates_and_cut_points() {
    let mut d = NotificationDaemon::new();
    assert!(d.placement_fits(Area { x: 0, y: u16::MAX, width: 10, height: 0 }));
    d.advance(msgs(&["a"]), 0);
    assert!(d.placement_fits(Area { x: 0, y: 0, width: 80, height: 24 }));
    assert!(!d.placement_fits(Area { x: 0, y: u16::MAX, width: 10, height: 0 }));
    assert!(!d.placement_fits(Area { x: 0, y: 65531, width: 10, height: 4 }));
    // a message whose 31st byte falls inside a character cannot be shortened
    let mut e = NotificationDaemon::new();
    e.advance(vec![format!("{}\u{e9}{}", "a".repeat(30), "zzzz")], 0);
    assert!(!e.placement_fits(Area { x: 0, y: 0, width: 80, height: 24 }));
    assert!(e.placement_fits(Area { x: 0, y: 0, width: 80, height: 3 }));
}

#[test]
fn a_toast_lives_until_its_full_lifetime_has_passed() {
    let mut d = NotificationDaemon::new();
    d.advance(msgs(&["almost"]), 1_000);
    d.advance(Vec::new(), 1_000 + 3_999_600_000);
    assert_eq!(texts(&d), vec!["almost"]);
    d.advance(Vec::new(), 1_000 + TOAST_TTL_NS);
    assert!(texts(&d).is_empty());
}
