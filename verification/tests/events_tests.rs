use sway_monocle_layout::events::{
    extract_hint, extract_window_info, subscription_accepted, EventContainer, HintType, HintWindow,
    WindowEvent, SUBSCRIPTION_PAYLOAD,
};

fn event(change: Option<&str>, id: Option<i64>) -> WindowEvent {
    WindowEvent {
        change: change.map(|c| c.to_string()),
        container: Some(EventContainer { id, pid: Some(42), app_id: None, window_class: None }),
    }
}

#[test]
fn hint_from_new_and_move_events() {
    assert_eq!(extract_hint(&event(Some("new"), Some(7))), Some((7, HintType::New)));
    assert_eq!(extract_hint(&event(Some("move"), Some(8))), Some((8, HintType::Move)));
    assert_eq!(extract_hint(&event(Some("focus"), Some(8))), None);
    assert_eq!(extract_hint(&event(None, Some(8))), None);
    assert_eq!(extract_hint(&event(Some("new"), None)), None);
    assert_eq!(extract_hint(&WindowEvent { change: Some("new".to_string()), container: None }), None);
}

#[test]
fn hint_window_prefers_new_windows() {
    let mut h = HintWindow::new();
    assert_eq!((h.hint, h.hint_is_new), (None, false));
    h.absorb(Some((3, HintType::Move)));
    assert_eq!((h.hint, h.hint_is_new), (Some(3), false));
    h.absorb(Some((4, HintType::New)));
    assert_eq!((h.hint, h.hint_is_new), (Some(4), true));
    h.absorb(Some((5, HintType::Move)));
    assert_eq!((h.hint, h.hint_is_new), (Some(4), true));
    h.absorb(None);
    assert_eq!((h.hint, h.hint_is_new), (Some(4), true));
    h.absorb(Some((6, HintType::New)));
    assert_eq!((h.hint, h.hint_is_new), (Some(6), true));
}

#[test]
fn window_info_prefers_wayland_app_id_lowercased() {
    let e = WindowEvent {
        change: Some("focus".to_string()),
        container: Some(EventContainer {
            id: Some(9),
            pid: Some(1234),
            app_id: Some("Org.Foot".to_string()),
            window_class: Some("Ignored".to_string()),
        }),
    };
    let info = extract_window_info(&e).unwrap();
    assert_eq!(info.change, "focus");
    assert_eq!(info.con_id, 9);
    assert_eq!(info.pid, 1234);
    assert_eq!(info.app_id, Some("org.foot".to_string()));
}

#[test]
fn window_info_falls_back_to_x11_class() {
    let e = WindowEvent {
        change: Some("new".to_string()),
        container: Some(EventContainer {
            id: Some(9),
            pid: None,
            app_id: Some(String::new()),
            window_class: Some("Firefox".to_string()),
        }),
    };
    let info = extract_window_info(&e).unwrap();
    assert_eq!(info.app_id, Some("firefox".to_string()));
    assert_eq!(info.pid, 0);
    let bare = WindowEvent {
        change: Some("new".to_string()),
        container: Some(EventContainer { id: Some(9), pid: None, app_id: None, window_class: None }),
    };
    assert_eq!(extract_window_info(&bare).unwrap().app_id, None);
}

#[test]
fn window_info_needs_change_container_and_id() {
    assert!(extract_window_info(&event(None, Some(1))).is_none());
    assert!(extract_window_info(&event(Some("new"), None)).is_none());
    assert!(extract_window_info(&WindowEvent { change: Some("new".to_string()), container: None }).is_none());
}

#[test]
fn subscription_reply() {
    assert!(subscription_accepted(Some(true)));
    assert!(!subscription_accepted(Some(false)));
    assert!(!subscription_accepted(None));
    assert_eq!(&SUBSCRIPTION_PAYLOAD[..], b"[\"window\",\"workspace\"]");
}
