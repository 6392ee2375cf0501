use sway_monocle_layout::config::default_excludes;
use sway_monocle_layout::events::{EventContainer, WindowEvent};
use sway_monocle_layout::focus_back::{append_new, build_excludes, FocusBackAction, FocusBackEngine};

fn event(change: &str, id: i64, app_id: &str) -> WindowEvent {
    WindowEvent {
        change: Some(change.to_string()),
        container: Some(EventContainer {
            id: Some(id),
            pid: Some(1000 + id),
            app_id: Some(app_id.to_string()),
            window_class: None,
        }),
    }
}

fn engine() -> FocusBackEngine {
    FocusBackEngine::new(build_excludes(vec![]))
}

fn nothing(a: FocusBackAction) -> bool {
    matches!(a, FocusBackAction::Nothing)
}

#[test]
fn launcher_is_skipped_in_the_chain() {
    let mut e = engine();
    assert!(nothing(e.process_event(&event("focus", 1, "foot"))));
    assert!(nothing(e.process_event(&event("new", 2, "wofi"))));
    assert!(nothing(e.process_event(&event("focus", 2, "wofi"))));
    assert!(nothing(e.process_event(&event("new", 3, "firefox"))));
    assert!(nothing(e.process_event(&event("focus", 3, "firefox"))));
    assert!(nothing(e.process_event(&event("close", 2, "wofi"))));
    assert!(matches!(e.process_event(&event("close", 3, "firefox")), FocusBackAction::CheckVisible(1)));
    match e.visibility(true) {
        FocusBackAction::Command(c) => assert_eq!(c, "[con_id=1] focus"),
        _ => panic!("expected a focus command"),
    }
    assert!(nothing(e.visibility(true)));
}

#[test]
fn dead_parent_is_walked_past() {
    let mut e = engine();
    e.process_event(&event("focus", 1, "foot"));
    e.process_event(&event("new", 2, "app1"));
    e.process_event(&event("focus", 2, "app1"));
    e.process_event(&event("new", 3, "app2"));
    e.process_event(&event("focus", 3, "app2"));
    assert!(matches!(e.process_event(&event("close", 3, "app2")), FocusBackAction::CheckVisible(2)));
    assert!(matches!(e.visibility(false), FocusBackAction::CheckVisible(1)));
    assert!(matches!(e.visibility(false), FocusBackAction::Nothing));
}

#[test]
fn background_close_is_ignored() {
    let mut e = engine();
    e.process_event(&event("focus", 1, "foot"));
    e.process_event(&event("new", 2, "app"));
    e.process_event(&event("focus", 2, "app"));
    e.process_event(&event("focus", 1, "foot"));
    assert!(nothing(e.process_event(&event("close", 2, "app"))));
}

#[test]
fn containers_and_other_events_are_ignored() {
    let mut e = engine();
    let mut container = event("focus", 1, "foot");
    container.container.as_mut().unwrap().pid = Some(0);
    assert!(nothing(e.process_event(&container)));
    let no_pid = WindowEvent {
        change: Some("focus".to_string()),
        container: Some(EventContainer { id: Some(4), pid: None, app_id: None, window_class: None }),
    };
    assert!(nothing(e.process_event(&no_pid)));
    assert!(nothing(e.process_event(&event("title", 1, "foot"))));
    assert!(nothing(e.process_event(&WindowEvent { change: None, container: None })));
    assert!(nothing(e.on_close(1)));
}

#[test]
fn engine_methods_directly() {
    let mut e = engine();
    assert!(e.is_excluded(&Some("rofi".to_string())));
    assert!(!e.is_excluded(&Some("Rofi".to_string())));
    assert!(!e.is_excluded(&None));
    e.on_focus(5, &Some("foot".to_string()));
    e.on_new(5);
    e.on_new(6);
    e.on_focus(6, &None);
    assert!(matches!(e.on_close(6), FocusBackAction::CheckVisible(5)));
    assert!(nothing(e.visibility(false)));
    assert!(nothing(e.on_close(5)));
}

#[test]
fn cyclic_chain_stops() {
    let mut e = engine();
    e.on_focus(1, &None);
    e.on_new(2);
    e.on_focus(2, &None);
    e.on_new(1);
    e.on_focus(1, &None);
    assert!(matches!(e.on_close(1), FocusBackAction::CheckVisible(2)));
    assert!(nothing(e.visibility(false)));
}

#[test]
fn exclusion_list_adds_lowercased_extras_once() {
    let list = build_excludes(vec!["MyApp".to_string(), "myapp".to_string(), "WOFI".to_string(), "other".to_string()]);
    let defaults = default_excludes();
    assert_eq!(defaults.len(), 12);
    assert_eq!(&list[..12], &defaults[..]);
    assert_eq!(&list[12..], &["myapp".to_string(), "other".to_string()]);
}

#[test]
fn cycle_without_the_closed_window_stops_after_the_limit() {
    let mut e = engine();
    e.on_focus(2, &None);
    e.on_new(1);
    e.on_focus(1, &None);
    e.on_new(2);
    e.on_new(3);
    e.on_focus(3, &None);
    let mut action = e.on_close(3);
    let mut asked = 0;
    let mut candidates = Vec::new();
    while let FocusBackAction::CheckVisible(t) = action {
        asked += 1;
        candidates.push(t);
        action = e.visibility(false);
    }
    assert_eq!(asked, 100);
    assert!(nothing(action));
    assert_eq!(&candidates[..4], &[1, 2, 1, 2]);
    assert!(!candidates.contains(&3));
}

#[test]
fn first_visible_ancestor_gets_focus() {
    let mut e = engine();
    e.on_focus(1, &None);
    e.on_new(2);
    e.on_focus(2, &None);
    e.on_new(3);
    e.on_focus(3, &None);
    assert!(matches!(e.on_close(3), FocusBackAction::CheckVisible(2)));
    match e.visibility(true) {
        FocusBackAction::Command(c) => assert_eq!(c, "[con_id=2] focus"),
        _ => panic!("expected a focus command"),
    }
}

#[test]
fn excluded_app_matched_case_insensitively() {
    let mut e = FocusBackEngine::new(build_excludes(vec!["Firefox".to_string()]));
    let ev = WindowEvent {
        change: Some("focus".to_string()),
        container: Some(EventContainer {
            id: Some(9),
            pid: Some(99),
            app_id: None,
            window_class: Some("FIREFOX".to_string()),
        }),
    };
    assert!(nothing(e.process_event(&event("focus", 1, "foot"))));
    assert!(nothing(e.process_event(&ev)));
    assert!(nothing(e.process_event(&event("new", 5, "mpv"))));
    assert!(nothing(e.process_event(&event("focus", 5, "mpv"))));
    assert!(matches!(e.process_event(&event("close", 5, "mpv")), FocusBackAction::CheckVisible(1)));
}

#[test]
fn append_new_skips_listed_items() {
    let r = append_new(vec!["a".to_string()], vec!["b".to_string(), "a".to_string(), "b".to_string()]);
    assert_eq!(r, vec!["a".to_string(), "b".to_string()]);
}
