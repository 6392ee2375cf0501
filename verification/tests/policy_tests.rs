use sway_monocle_layout::policy::{Dp2State, Policy, PolicyAction, PolicyEvent};
use sway_monocle_layout::tree::{Snapshot, WinInfo};

fn win(id: i64) -> WinInfo {
    WinInfo {
        id,
        fs: 0,
        marks: vec![],
        focused: false,
        border: "pixel".to_string(),
        border_width: 2,
    }
}

fn managed(id: i64) -> WinInfo {
    WinInfo { marks: vec!["_auto_fs".to_string()], border: "none".to_string(), border_width: 0, ..win(id) }
}

fn snap(tiled: Vec<WinInfo>, layout: &str) -> Snapshot {
    Snapshot {
        ws_name: "5".to_string(),
        ws_layout: layout.to_string(),
        tiled,
        float_n: 0,
        float_fs: 0,
        any_focused: true,
        global_focused: None,
    }
}

fn command(a: PolicyAction) -> String {
    match a {
        PolicyAction::Command(c) => c,
        _ => panic!("expected a command"),
    }
}

fn is_done(a: &PolicyAction) -> bool {
    matches!(a, PolicyAction::Done)
}

fn is_snapshot(a: &PolicyAction) -> bool {
    matches!(a, PolicyAction::Snapshot)
}

/// Runs a pass up to its first command and returns it, with the policy left
/// waiting for the command's outcome.
fn pass_to_command(p: &mut Policy, hint: Option<i64>, s: Snapshot) -> PolicyAction {
    let a = p.start(hint);
    assert!(matches!(a, PolicyAction::StableSnapshot(h) if h == hint));
    p.resume(PolicyEvent::Snapshot(Some(s)))
}

/// Finishes a pass that is reading its final snapshot.
fn finish_with(p: &mut Policy, s: Snapshot) {
    assert!(is_done(&p.resume(PolicyEvent::Snapshot(Some(s)))));
}

#[test]
fn single_window_gets_monocle_and_border_is_saved() {
    let mut p = Policy::new();
    let a = pass_to_command(&mut p, Some(3), snap(vec![win(3)], "splith"));
    assert_eq!(
        command(a),
        "[con_id=3] split none; [workspace=5] layout splith; [con_id=3] mark --add _auto_fs; [con_id=3] border none"
    );
    assert_eq!(p.border_restore_cmd(3), "border pixel 2");
    assert!(is_snapshot(&p.resume(PolicyEvent::CommandDone(true))));
    finish_with(&mut p, snap(vec![managed(3)], "splith"));
}

#[test]
fn unchanged_pass_sends_nothing() {
    let mut p = Policy::new();
    let a = pass_to_command(&mut p, None, snap(vec![win(3)], "splith"));
    command(a);
    assert!(is_snapshot(&p.resume(PolicyEvent::CommandDone(true))));
    finish_with(&mut p, snap(vec![managed(3)], "splith"));
    let a = p.start(None);
    assert!(matches!(a, PolicyAction::StableSnapshot(None)));
    assert!(is_done(&p.resume(PolicyEvent::Snapshot(Some(snap(vec![managed(3)], "splith"))))));
}

#[test]
fn layout_drift_is_reset() {
    let mut p = Policy::new();
    let a = pass_to_command(&mut p, None, snap(vec![managed(3)], "tabbed"));
    assert_eq!(command(a), "[workspace=5] layout splith");
}

#[test]
fn second_window_switches_to_tabbed_and_focuses_it() {
    let mut p = Policy::new();
    command(pass_to_command(&mut p, None, snap(vec![win(3)], "splith")));
    p.resume(PolicyEvent::CommandDone(true));
    finish_with(&mut p, snap(vec![managed(3)], "splith"));
    let a = pass_to_command(&mut p, Some(8), snap(vec![managed(3), win(8)], "splith"));
    assert_eq!(
        command(a),
        "[con_id=3] border pixel 2; [con_id=3] unmark _auto_fs; [con_id=3] split none; [con_id=8] split none; [workspace=5] layout tabbed"
    );
    let a = p.resume(PolicyEvent::CommandDone(true));
    assert_eq!(command(a), "[con_id=8] focus");
    assert_eq!(p.border_restore_cmd(3), "border normal");
    assert!(matches!(p.resume(PolicyEvent::CommandDone(true)), PolicyAction::Wait(2)));
    assert!(is_snapshot(&p.resume(PolicyEvent::Waited)));
    let mut focused = snap(vec![win(3), win(8)], "tabbed");
    focused.tiled[1].focused = true;
    assert!(is_snapshot(&p.resume(PolicyEvent::Snapshot(Some(focused)))));
    finish_with(&mut p, snap(vec![win(3), win(8)], "tabbed"));
}

#[test]
fn focus_is_retried_when_it_did_not_hold() {
    let mut p = Policy::new();
    let a = pass_to_command(&mut p, Some(8), snap(vec![win(3), win(8)], "tabbed"));
    assert_eq!(command(a), "[con_id=8] focus");
    assert!(matches!(p.resume(PolicyEvent::CommandDone(true)), PolicyAction::Wait(2)));
    assert!(is_snapshot(&p.resume(PolicyEvent::Waited)));
    let mut other = snap(vec![win(3), win(8)], "tabbed");
    other.tiled[0].focused = true;
    assert_eq!(command(p.resume(PolicyEvent::Snapshot(Some(other)))), "[con_id=8] focus");
    assert!(matches!(p.resume(PolicyEvent::CommandDone(false)), PolicyAction::Wait(2)));
    assert!(is_snapshot(&p.resume(PolicyEvent::Waited)));
    assert!(matches!(p.resume(PolicyEvent::Snapshot(None)), PolicyAction::Snapshot));
    finish_with(&mut p, snap(vec![win(3), win(8)], "tabbed"));
}

#[test]
fn no_focus_taken_when_output_unfocused() {
    let mut p = Policy::new();
    let mut s = snap(vec![win(3), win(8)], "tabbed");
    s.any_focused = false;
    let a = pass_to_command(&mut p, Some(8), s);
    assert!(is_snapshot(&a));
}

#[test]
fn user_layout_is_respected() {
    let mut p = Policy::new();
    let a = pass_to_command(&mut p, Some(8), snap(vec![win(3), win(8)], "splitv"));
    assert!(is_snapshot(&a));
}

#[test]
fn user_fullscreen_is_respected() {
    let mut p = Policy::new();
    let mut s = snap(vec![win(3)], "splith");
    s.tiled[0].fs = 1;
    assert!(is_snapshot(&pass_to_command(&mut p, None, s)));
    let mut p = Policy::new();
    let mut s = snap(vec![managed(3), win(8)], "splith");
    s.tiled[1].fs = 1;
    assert!(is_snapshot(&pass_to_command(&mut p, Some(8), s)));
}

#[test]
fn user_fullscreen_managed_window_is_restored_on_second_window() {
    let mut p = Policy::new();
    let mut s = snap(vec![managed(3), win(8)], "splith");
    s.tiled[0].fs = 1;
    let a = pass_to_command(&mut p, Some(8), s);
    assert_eq!(
        command(a),
        "[con_id=3] fullscreen disable; [con_id=3] border normal; [con_id=3] unmark _auto_fs; [con_id=3] split none; [con_id=8] split none; [workspace=5] layout tabbed"
    );
    let a = p.resume(PolicyEvent::CommandDone(true));
    assert_eq!(command(a), "[con_id=8] focus");
}

#[test]
fn dialog_restores_border_and_then_monocle_returns() {
    let mut p = Policy::new();
    command(pass_to_command(&mut p, None, snap(vec![win(3)], "splith")));
    p.resume(PolicyEvent::CommandDone(true));
    finish_with(&mut p, snap(vec![managed(3)], "splith"));
    let mut s = snap(vec![managed(3)], "splith");
    s.float_n = 1;
    let a = pass_to_command(&mut p, None, s);
    assert_eq!(command(a), "[con_id=3] border pixel 2; [con_id=3] unmark _auto_fs");
    p.resume(PolicyEvent::CommandDone(true));
    let mut after = snap(vec![win(3)], "splith");
    after.float_n = 1;
    finish_with(&mut p, after);
    assert_eq!(p.border_restore_cmd(3), "border normal");
}

#[test]
fn failed_restore_keeps_border() {
    let mut p = Policy::new();
    command(pass_to_command(&mut p, None, snap(vec![win(3)], "splith")));
    p.resume(PolicyEvent::CommandDone(true));
    finish_with(&mut p, snap(vec![managed(3)], "splith"));
    let mut s = snap(vec![managed(3)], "splith");
    s.float_n = 1;
    command(pass_to_command(&mut p, None, s));
    p.resume(PolicyEvent::CommandDone(false));
    assert_eq!(p.border_restore_cmd(3), "border pixel 2");
}

#[test]
fn departed_window_gets_border_back() {
    let mut p = Policy::new();
    command(pass_to_command(&mut p, None, snap(vec![win(3)], "splith")));
    p.resume(PolicyEvent::CommandDone(true));
    finish_with(&mut p, snap(vec![managed(3)], "splith"));
    let a = pass_to_command(&mut p, None, snap(vec![], "splith"));
    assert_eq!(command(a), "[con_id=3] border pixel 2; [con_id=3] unmark _auto_fs; ");
    assert!(is_snapshot(&p.resume(PolicyEvent::CommandDone(true))));
    assert_eq!(p.border_restore_cmd(3), "border normal");
}

#[test]
fn floating_fullscreen_backs_off_and_focus_returns() {
    let mut p = Policy::new();
    let mut s = snap(vec![managed(3)], "splith");
    s.global_focused = Some(3);
    let a = p.start(None);
    assert!(matches!(a, PolicyAction::StableSnapshot(None)));
    assert!(is_snapshot(&p.resume(PolicyEvent::Snapshot(Some(s)))));
    let mut post = snap(vec![managed(3)], "splith");
    post.global_focused = Some(3);
    finish_with(&mut p, post);
    let mut s = snap(vec![managed(3)], "splith");
    s.float_fs = 1;
    s.global_focused = Some(40);
    p.start(None);
    assert!(is_done(&p.resume(PolicyEvent::Snapshot(Some(s)))));
    let s = snap(vec![managed(3)], "splith");
    p.start(None);
    assert!(matches!(p.resume(PolicyEvent::Snapshot(Some(s))), PolicyAction::CheckVisible(3)));
    assert_eq!(command(p.resume(PolicyEvent::Visibility(true))), "[con_id=3] focus");
    assert!(is_snapshot(&p.resume(PolicyEvent::CommandDone(true))));
    assert!(is_snapshot(&p.resume(PolicyEvent::Snapshot(Some(snap(vec![managed(3)], "splith"))))));
    finish_with(&mut p, snap(vec![managed(3)], "splith"));
}

#[test]
fn unexpected_event_ends_the_pass() {
    let mut p = Policy::new();
    p.start(None);
    assert!(is_done(&p.resume(PolicyEvent::Waited)));
    assert!(is_done(&p.resume(PolicyEvent::Snapshot(None))));
}

#[test]
fn border_restore_commands() {
    let mut p = Policy::new();
    for (id, style, width) in [(1, "none", 0), (2, "pixel", 3), (3, "csd", 0), (4, "normal", 5), (5, "weird", 1)] {
        p.save_border(&WinInfo { border: style.to_string(), border_width: width, ..win(id) });
    }
    assert_eq!(p.border_restore_cmd(1), "border none");
    assert_eq!(p.border_restore_cmd(2), "border pixel 3");
    assert_eq!(p.border_restore_cmd(3), "border csd");
    assert_eq!(p.border_restore_cmd(4), "border normal 5");
    assert_eq!(p.border_restore_cmd(5), "border normal 1");
    assert_eq!(p.border_restore_cmd(6), "border normal");
    p.save_border(&WinInfo { border: "none".to_string(), ..win(2) });
    assert_eq!(p.border_restore_cmd(2), "border pixel 3");
    p.clear_saved_border(2);
    assert_eq!(p.border_restore_cmd(2), "border normal");
}

#[test]
fn needs_action_cases() {
    let p = Policy::new();
    assert!(!p.needs_action(&snap(vec![], "splith")));
    assert!(p.needs_action(&snap(vec![win(1)], "splith")));
    assert!(!p.needs_action(&snap(vec![managed(1)], "splith")));
    assert!(p.needs_action(&snap(vec![managed(1)], "tabbed")));
    let mut f = snap(vec![win(1)], "splith");
    f.float_n = 2;
    assert!(!p.needs_action(&f));
    let mut fs = snap(vec![win(1)], "splith");
    fs.tiled[0].fs = 1;
    assert!(!p.needs_action(&fs));
    assert!(p.needs_action(&snap(vec![win(1), managed(2)], "tabbed")));
    assert!(!p.needs_action(&snap(vec![win(1), win(2)], "tabbed")));
}

#[test]
fn state_ignores_window_order() {
    let mut a = snap(vec![win(5), win(2), win(9)], "tabbed");
    a.tiled[1].fs = 1;
    let mut b = snap(vec![win(9), win(2), win(5)], "tabbed");
    b.tiled[1].fs = 1;
    let sa = Dp2State::from_snapshot(&a);
    let sb = Dp2State::from_snapshot(&b);
    assert!(sa.same_as(&sb));
    assert!(sa.contains_window(9));
    assert!(!sa.contains_window(3));
    let c = snap(vec![win(9), win(2), win(5)], "tabbed");
    assert!(!sa.same_as(&Dp2State::from_snapshot(&c)));
    let d = snap(vec![win(5), win(2), win(9)], "splith");
    assert!(!Dp2State::from_snapshot(&d).same_as(&Dp2State::from_snapshot(&c)));
}
