use sway_monocle_layout::snapshot::{is_on_visible_workspace, snapshot, PollStep, StablePoll};
use sway_monocle_layout::tree::{Snapshot, SwayNode, WinInfo};

fn blank() -> SwayNode {
    SwayNode {
        id: None,
        pid: None,
        name: None,
        node_type: None,
        layout: None,
        focused: None,
        fullscreen_mode: None,
        marks: None,
        border: None,
        current_border_width: None,
        focus: None,
        nodes: None,
        floating_nodes: None,
    }
}

fn window(id: i64) -> SwayNode {
    SwayNode { id: Some(id), pid: Some(100 + id), ..blank() }
}

fn workspace(id: i64, name: &str, kids: Vec<SwayNode>) -> SwayNode {
    SwayNode {
        id: Some(id),
        name: Some(name.to_string()),
        node_type: Some("workspace".to_string()),
        layout: Some("splith".to_string()),
        nodes: Some(kids),
        floating_nodes: Some(vec![]),
        ..blank()
    }
}

fn output(name: &str, shown: i64, workspaces: Vec<SwayNode>) -> SwayNode {
    SwayNode {
        id: Some(1000 + shown),
        name: Some(name.to_string()),
        node_type: Some("output".to_string()),
        focus: Some(vec![Some(shown)]),
        nodes: Some(workspaces),
        ..blank()
    }
}

fn root(outputs: Vec<SwayNode>) -> SwayNode {
    SwayNode { id: Some(1), nodes: Some(outputs), ..blank() }
}

fn sample_tree() -> SwayNode {
    root(vec![
        output("__i3", 2, vec![workspace(2, "__i3_scratch", vec![window(50)])]),
        output("DP-1", 10, vec![
            workspace(10, "1", vec![SwayNode { focused: Some(true), ..window(11) }]),
        ]),
        output("DP-2", 21, vec![
            workspace(20, "4", vec![window(40)]),
            SwayNode {
                floating_nodes: Some(vec![SwayNode { fullscreen_mode: Some(1), ..window(23) }]),
                ..workspace(21, "5", vec![window(22), window(24)])
            },
        ]),
    ])
}

#[test]
fn snapshot_reads_the_shown_workspace() {
    let snap = snapshot(&sample_tree(), "DP-2").unwrap();
    assert_eq!(snap.ws_name, "5");
    assert_eq!(snap.ws_layout, "splith");
    let ids: Vec<i64> = snap.tiled.iter().map(|w| w.id).collect();
    assert_eq!(ids, vec![22, 24]);
    assert_eq!((snap.float_n, snap.float_fs), (0, 1));
    assert!(!snap.any_focused);
    assert_eq!(snap.global_focused, Some(11));
}

#[test]
fn snapshot_needs_the_output_and_its_workspace() {
    assert!(snapshot(&sample_tree(), "HDMI-A-1").is_none());
    let no_focus = root(vec![SwayNode { focus: Some(vec![]), ..output("DP-2", 21, vec![]) }]);
    assert!(snapshot(&no_focus, "DP-2").is_none());
    let wrong_type = root(vec![output("DP-2", 21, vec![SwayNode {
        node_type: Some("con".to_string()),
        ..workspace(21, "5", vec![])
    }])]);
    assert!(snapshot(&wrong_type, "DP-2").is_none());
    let unnamed = root(vec![output("DP-2", 21, vec![SwayNode { name: None, ..workspace(21, "5", vec![]) }])]);
    assert!(snapshot(&unnamed, "DP-2").is_none());
}

#[test]
fn snapshot_defaults_layout_to_unknown() {
    let tree = root(vec![output("DP-2", 21, vec![SwayNode { layout: None, ..workspace(21, "5", vec![]) }])]);
    let snap = snapshot(&tree, "DP-2").unwrap();
    assert_eq!(snap.ws_layout, "unknown");
    assert!(snap.tiled.is_empty());
}

#[test]
fn visible_workspace_check() {
    let tree = sample_tree();
    assert!(is_on_visible_workspace(&tree, 11));
    assert!(is_on_visible_workspace(&tree, 24));
    assert!(is_on_visible_workspace(&tree, 23));
    assert!(!is_on_visible_workspace(&tree, 40));
    assert!(!is_on_visible_workspace(&tree, 50));
    assert!(!is_on_visible_workspace(&tree, 77));
    assert!(!is_on_visible_workspace(&blank(), 11));
}

fn snap_with(ids: &[i64]) -> Snapshot {
    Snapshot {
        ws_name: "5".to_string(),
        ws_layout: "tabbed".to_string(),
        tiled: ids
            .iter()
            .map(|&id| WinInfo {
                id,
                fs: 0,
                marks: vec![],
                focused: false,
                border: "normal".to_string(),
                border_width: 2,
            })
            .collect(),
        float_n: 0,
        float_fs: 0,
        any_focused: true,
        global_focused: None,
    }
}

#[test]
fn stable_poll_waits_for_two_equal_counts() {
    let mut poll = StablePoll::new(None);
    assert!(matches!(poll.observe(Some(snap_with(&[1]))), PollStep::Wait(1)));
    assert!(matches!(poll.waited(), PollStep::TakeSnapshot));
    assert!(matches!(poll.observe(Some(snap_with(&[1, 2]))), PollStep::Wait(1)));
    assert!(matches!(poll.waited(), PollStep::TakeSnapshot));
    match poll.observe(Some(snap_with(&[1, 3]))) {
        PollStep::Finished(Some(s)) => assert_eq!(s.tiled[1].id, 3),
        _ => panic!("expected a settled snapshot"),
    }
}

#[test]
fn stable_poll_waits_for_expected_window() {
    let mut poll = StablePoll::new(Some(9));
    assert!(matches!(poll.observe(Some(snap_with(&[1]))), PollStep::Wait(1)));
    assert!(matches!(poll.waited(), PollStep::TakeSnapshot));
    assert!(matches!(poll.observe(Some(snap_with(&[1]))), PollStep::Wait(1)));
    assert!(matches!(poll.waited(), PollStep::TakeSnapshot));
    assert!(matches!(poll.observe(None), PollStep::Wait(1)));
    assert!(matches!(poll.waited(), PollStep::TakeSnapshot));
    match poll.observe(Some(snap_with(&[1, 9]))) {
        PollStep::Wait(1) => {},
        _ => panic!("count changed, must wait"),
    }
    assert!(matches!(poll.waited(), PollStep::TakeSnapshot));
    assert!(matches!(poll.observe(Some(snap_with(&[1, 9]))), PollStep::Finished(Some(_))));
}

#[test]
fn stable_poll_gives_up_on_missing_window_and_backs_off() {
    let mut poll = StablePoll::new(Some(9));
    for _ in 0..10 {
        assert!(matches!(poll.observe(Some(snap_with(&[1]))), PollStep::Wait(1)));
        assert!(matches!(poll.waited(), PollStep::TakeSnapshot));
    }
    assert!(matches!(poll.observe(Some(snap_with(&[1]))), PollStep::Finished(Some(_))));
    let mut poll = StablePoll::new(None);
    for i in 0..11 {
        let ids: Vec<i64> = (0..=i).collect();
        let step = poll.observe(Some(snap_with(&ids)));
        if i < 10 {
            assert!(matches!(step, PollStep::Wait(1)));
        } else {
            assert!(matches!(step, PollStep::Wait(5)));
        }
        assert!(matches!(poll.waited(), PollStep::TakeSnapshot));
    }
}

#[test]
fn stable_poll_ends_with_last_snapshot_after_max_tries() {
    let mut poll = StablePoll::new(None);
    let mut last = PollStep::TakeSnapshot;
    for i in 0..100 {
        assert!(poll.can_observe());
        let ids: Vec<i64> = (0..=(i % 2)).collect();
        assert!(matches!(poll.observe(Some(snap_with(&ids))), PollStep::Wait(_)));
        last = poll.waited();
    }
    assert!(!poll.can_observe());
    match last {
        PollStep::Finished(Some(s)) => assert_eq!(s.tiled.len(), 2),
        _ => panic!("expected the last snapshot"),
    }
}
