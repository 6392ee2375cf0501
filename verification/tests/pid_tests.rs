use sway_monocle_layout::pid::{owns_pidfile, pidfile_contents, previous_instance, shutdown_step, ShutdownStep};

#[test]
fn previous_instance_from_file_contents() {
    assert_eq!(previous_instance("1234\n", 99), Some(1234));
    assert_eq!(previous_instance("  +17 \t", 99), Some(17));
    assert_eq!(previous_instance("99", 99), None);
    assert_eq!(previous_instance("", 99), None);
    assert_eq!(previous_instance("12a", 99), None);
    assert_eq!(previous_instance("-5", 99), None);
    assert_eq!(previous_instance("4294967295", 99), Some(4294967295));
    assert_eq!(previous_instance("4294967296", 99), None);
    assert_eq!(previous_instance("99999999999999999999x", 99), None);
}

#[test]
fn pidfile_roundtrip() {
    for pid in [0u32, 7, 4096, 4294967295] {
        let contents = pidfile_contents(pid);
        assert_eq!(contents, pid.to_string());
        assert!(owns_pidfile(&contents, pid));
        assert!(!owns_pidfile(&contents, pid.wrapping_add(1)));
    }
    assert!(!owns_pidfile("garbage", 1));
}

#[test]
fn shutdown_wait_steps() {
    assert_eq!(shutdown_step(false, false), ShutdownStep::Exited);
    assert_eq!(shutdown_step(false, true), ShutdownStep::Exited);
    assert_eq!(shutdown_step(true, false), ShutdownStep::Poll);
    assert_eq!(shutdown_step(true, true), ShutdownStep::Kill);
}
