use sway_monocle_layout::config::{
    default_excludes, focus_back_pidfile, init, pidfile, pidfile_path, target_output, IPC_MAGIC,
};

#[test]
fn default_pidfile_is_derived_from_output() {
    let c = init("DP-2".to_string(), None);
    assert_eq!(target_output(&c), "DP-2");
    assert_eq!(pidfile(&c), "/tmp/sway-monocle-dp-2.pid");
    let c = init("Some Output/1".to_string(), None);
    assert_eq!(pidfile(&c), "/tmp/sway-monocle-some-output-1.pid");
}

#[test]
fn given_pidfile_is_kept() {
    let c = init("HDMI-A-1".to_string(), Some("/run/user/1000/hdmi.pid".to_string()));
    assert_eq!(target_output(&c), "HDMI-A-1");
    assert_eq!(pidfile(&c), "/run/user/1000/hdmi.pid");
}

#[test]
fn focus_back_pidfile_default() {
    assert_eq!(focus_back_pidfile(None), "/tmp/sway-monocle-focus-back.pid");
    assert_eq!(focus_back_pidfile(Some("/tmp/fb.pid".to_string())), "/tmp/fb.pid");
}

#[test]
fn built_in_exclusions() {
    let d = default_excludes();
    let expected = [
        "wofi", "rofi", "dmenu", "bemenu", "fuzzel", "tofi", "kickoff", "swaynag", "wlogout",
        "nwg-drawer", "ulauncher", "albert",
    ];
    assert_eq!(d, expected.iter().map(|s| s.to_string()).collect::<Vec<_>>());
    assert_eq!(&IPC_MAGIC, b"i3-ipc");
}

#[test]
fn pidfile_path_from_lowered_name() {
    assert_eq!(pidfile_path("hdmi a/1"), "/tmp/sway-monocle-hdmi-a-1.pid");
}
