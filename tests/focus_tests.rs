use zooming_kittens::focus::{is_kitty_window, FocusTracker, FocusTranslator, ListedWindow, NiriEvent, WindowInfo};
use zooming_kittens::service::systemd_unit;

fn info(id: u64, app: &str, pid: i32) -> WindowInfo {
    WindowInfo { id, app_id: Some(app.to_string()), pid: Some(pid), title: Some(format!("w{}", id)) }
}

fn ids(events: &[NiriEvent]) -> Vec<(char, u64)> {
    events
        .iter()
        .map(|e| match e {
            NiriEvent::Focus { window_id, .. } => ('F', *window_id),
            NiriEvent::Blur { window_id, .. } => ('B', *window_id),
            NiriEvent::Create { window_id, .. } => ('C', *window_id),
            NiriEvent::Destroy { window_id } => ('D', *window_id),
        })
        .collect()
}

#[test]
fn focus_change_blurs_the_previous_window_first() {
    let windows = vec![info(1, "kitty", 10), info(2, "kitty", 20)];
    let mut t = FocusTranslator::new();
    assert_eq!(ids(&t.on_focus_changed(1, &windows)), vec![('F', 1)]);
    assert_eq!(ids(&t.on_focus_changed(2, &windows)), vec![('B', 1), ('F', 2)]);
    assert_eq!(ids(&t.on_focus_changed(2, &windows)), vec![('F', 2)]);
    assert_eq!(t.last_focused(), Some(2));
}

#[test]
fn unknown_windows_produce_nothing() {
    let windows = vec![info(1, "kitty", 10)];
    let mut t = FocusTranslator::new();
    t.on_focus_changed(1, &windows);
    assert!(t.on_focus_changed(9, &windows).is_empty());
    assert_eq!(t.last_focused(), Some(1));
    // The previous window is gone from the list: no blur for it.
    assert_eq!(ids(&t.on_focus_changed(3, &vec![info(3, "foot", 30)])), vec![('F', 3)]);
}

#[test]
fn window_list_seeds_the_first_focus() {
    let listed = vec![
        ListedWindow { info: info(1, "kitty", 10), is_focused: false },
        ListedWindow { info: info(2, "kitty", 20), is_focused: true },
    ];
    let mut t = FocusTranslator::new();
    let events = t.on_windows_changed(&listed);
    assert_eq!(ids(&events), vec![('F', 2)]);
    match &events[0] {
        NiriEvent::Focus { window, .. } => assert_eq!(window.title.as_deref(), Some("w2")),
        _ => panic!("expected a focus event"),
    }
    assert!(t.on_windows_changed(&listed).is_empty());
    t.on_focus_cleared();
    assert_eq!(t.last_focused(), None);
}

#[test]
fn events_are_matched_by_application() {
    let e = NiriEvent::Focus { window_id: 1, window: info(1, "kitty", 10) };
    assert!(e.concerns_app("kitty"));
    assert!(!e.concerns_app("kit"));
    assert!(e.is_focus_change());
    assert_eq!(e.window_id(), Some(1));
    assert_eq!(e.window().unwrap().pid, Some(10));
    let d = NiriEvent::Destroy { window_id: 4 };
    assert!(!d.concerns_app("kitty"));
    assert!(d.window().is_none());
    assert!(is_kitty_window("kitty", "kitty"));
    assert!(!is_kitty_window("Kitty", "kitty"));
}

#[test]
fn tracker_hands_back_the_focused_process() {
    let mut t = FocusTracker::new();
    assert_eq!(t.current_focused(), None);
    t.on_focus_gained(12);
    assert_eq!(t.current_focused(), Some(12));
    assert_eq!(t.on_focus_lost(), Some(12));
    assert_eq!(t.on_focus_lost(), None);
}

#[test]
fn systemd_unit_text() {
    let unit = systemd_unit("zooming-kittens", "/usr/bin/zk");
    assert!(unit.starts_with("[Unit]\nDescription=zooming-kittens Focus Tracker\n"));
    assert!(unit.contains("ExecStart=/usr/bin/zk\n"));
    assert!(unit.ends_with("WantedBy=default.target\n"));
}
