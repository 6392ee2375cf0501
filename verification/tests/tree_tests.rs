use sway_monocle_layout::tree::{
    collect_tiled, contains_con_id, count_floating, find_focused_window, has_focused_descendant,
    parse_win, SwayNode, WinInfo,
};

fn blank() -> SwayNode {
    SwayNode {
        id: None,
        pid: None,
        name: None,
        node_type: None,
        layout: None,
        focused: None,
        fullscreen_mode: None,
        marks: None,
        border: None,
        current_border_width: None,
        focus: None,
        nodes: None,
        floating_nodes: None,
    }
}

fn window(id: i64) -> SwayNode {
    SwayNode { id: Some(id), pid: Some(100 + id), ..blank() }
}

fn container(id: i64, kids: Vec<SwayNode>) -> SwayNode {
    SwayNode { id: Some(id), pid: Some(0), nodes: Some(kids), ..blank() }
}

#[test]
fn parse_win_reads_defaults() {
    let w = parse_win(&window(7)).unwrap();
    assert_eq!(w.id, 7);
    assert_eq!(w.fs, 0);
    assert!(w.marks.is_empty());
    assert!(!w.focused);
    assert_eq!(w.border, "normal");
    assert_eq!(w.border_width, 2);
}

#[test]
fn parse_win_reads_members() {
    let n = SwayNode {
        fullscreen_mode: Some(1),
        marks: Some(vec![Some("_auto_fs".to_string()), None, Some("x".to_string())]),
        focused: Some(true),
        border: Some("pixel".to_string()),
        current_border_width: Some(3),
        ..window(9)
    };
    let w = parse_win(&n).unwrap();
    assert_eq!(w.fs, 1);
    assert_eq!(w.marks, vec!["_auto_fs".to_string(), "x".to_string()]);
    assert!(w.focused);
    assert_eq!(w.border, "pixel");
    assert_eq!(w.border_width, 3);
    assert!(w.has_auto_fs());
    assert!(w.is_fs());
}

#[test]
fn parse_win_rejects_containers_and_missing_ids() {
    assert!(parse_win(&container(1, vec![])).is_none());
    assert!(parse_win(&SwayNode { pid: Some(-3), ..window(2) }).is_none());
    assert!(parse_win(&SwayNode { id: None, ..window(2) }).is_none());
    assert!(parse_win(&blank()).is_none());
}

#[test]
fn window_without_mark_is_not_managed() {
    let w = WinInfo {
        id: 1,
        fs: 0,
        marks: vec!["other".to_string()],
        focused: false,
        border: "none".to_string(),
        border_width: 0,
    };
    assert!(!w.has_auto_fs());
    assert!(!w.is_fs());
}

#[test]
fn collect_tiled_walks_in_tree_order() {
    let tree = container(1, vec![
        window(2),
        container(3, vec![window(4), window(5)]),
        SwayNode { nodes: Some(vec![window(99)]), ..window(6) },
    ]);
    let mut out = Vec::new();
    collect_tiled(&tree, &mut out);
    let ids: Vec<i64> = out.iter().map(|w| w.id).collect();
    assert_eq!(ids, vec![2, 4, 5, 6]);
}

#[test]
fn collect_tiled_appends_to_existing() {
    let mut out = Vec::new();
    collect_tiled(&window(1), &mut out);
    collect_tiled(&window(2), &mut out);
    assert_eq!(out.len(), 2);
    assert_eq!(out[1].id, 2);
}

#[test]
fn count_floating_counts_normal_and_fullscreen() {
    let ws = SwayNode {
        floating_nodes: Some(vec![
            window(10),
            SwayNode { fullscreen_mode: Some(1), ..window(11) },
            container(12, vec![window(13), SwayNode { fullscreen_mode: Some(2), ..window(14) }]),
        ]),
        nodes: Some(vec![window(1)]),
        ..container(5, vec![])
    };
    assert_eq!(count_floating(&ws), (2, 2));
    assert_eq!(count_floating(&window(3)), (0, 0));
}

#[test]
fn has_focused_descendant_looks_under_floating_nodes() {
    let ws = SwayNode {
        floating_nodes: Some(vec![SwayNode { focused: Some(true), ..window(4) }]),
        ..container(1, vec![window(2)])
    };
    assert!(has_focused_descendant(&ws));
    assert!(!has_focused_descendant(&container(1, vec![window(2)])));
    assert!(has_focused_descendant(&SwayNode { focused: Some(true), ..blank() }));
}

#[test]
fn find_focused_window_stops_at_windows() {
    let focused_child_of_window = SwayNode {
        nodes: Some(vec![SwayNode { focused: Some(true), ..window(8) }]),
        ..window(7)
    };
    assert_eq!(find_focused_window(&focused_child_of_window), None);
    let tree = container(1, vec![
        window(2),
        container(3, vec![SwayNode { focused: Some(true), ..window(4) }]),
    ]);
    assert_eq!(find_focused_window(&tree), Some(4));
    let floating = SwayNode {
        floating_nodes: Some(vec![SwayNode { focused: Some(true), ..window(9) }]),
        ..container(1, vec![window(2)])
    };
    assert_eq!(find_focused_window(&floating), Some(9));
}

#[test]
fn contains_con_id_searches_everywhere() {
    let tree = SwayNode {
        floating_nodes: Some(vec![window(30)]),
        ..container(1, vec![container(2, vec![window(3)])])
    };
    assert!(contains_con_id(&tree, 1));
    assert!(contains_con_id(&tree, 3));
    assert!(contains_con_id(&tree, 30));
    assert!(!contains_con_id(&tree, 4));
}
