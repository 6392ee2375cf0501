use sway_monocle_layout::cli::{drop_empty, parse_args, parse_excludes, CliError, Mode, ParsedArgs};

fn args(a: &[&str]) -> Vec<String> {
    a.iter().map(|s| s.to_string()).collect()
}

fn error(a: &[&str]) -> String {
    match parse_args(&args(a)) {
        ParsedArgs::Invalid(e) => e.message(),
        _ => panic!("expected an error"),
    }
}

#[test]
fn monitor_mode() {
    match parse_args(&args(&["DP-2"])) {
        ParsedArgs::Run(Mode::Monitor { output, pidfile }) => {
            assert_eq!(output, "DP-2");
            assert_eq!(pidfile, None);
        },
        _ => panic!("expected monitor mode"),
    }
    match parse_args(&args(&["HDMI-A-1", "--pidfile", "/run/user/1000/hdmi.pid"])) {
        ParsedArgs::Run(Mode::Monitor { output, pidfile }) => {
            assert_eq!(output, "HDMI-A-1");
            assert_eq!(pidfile, Some("/run/user/1000/hdmi.pid".to_string()));
        },
        _ => panic!("expected monitor mode"),
    }
}

#[test]
fn focus_back_mode() {
    match parse_args(&args(&["--focus-back", "--exclude", " MyApp, ,OtherApp,", "--pidfile", "/tmp/fb.pid"])) {
        ParsedArgs::Run(Mode::FocusBack { excludes, pidfile }) => {
            assert_eq!(excludes, args(&["myapp", "otherapp"]));
            assert_eq!(pidfile, Some("/tmp/fb.pid".to_string()));
        },
        _ => panic!("expected focus-back mode"),
    }
    match parse_args(&args(&["--exclude", "a", "--focus-back", "--exclude", "b"])) {
        ParsedArgs::Run(Mode::FocusBack { excludes, pidfile }) => {
            assert_eq!(excludes, args(&["a", "b"]));
            assert_eq!(pidfile, None);
        },
        _ => panic!("expected focus-back mode"),
    }
}

#[test]
fn help_is_recognised() {
    assert!(matches!(parse_args(&args(&["-h"])), ParsedArgs::Help));
    assert!(matches!(parse_args(&args(&["DP-2", "--help"])), ParsedArgs::Help));
    assert!(matches!(parse_args(&args(&["--help", "--bogus"])), ParsedArgs::Help));
}

#[test]
fn errors_and_their_messages() {
    assert_eq!(error(&[]), "missing arguments");
    assert_eq!(error(&["DP-2", "--pidfile"]), "--pidfile requires a value");
    assert_eq!(error(&["--focus-back", "--exclude"]), "--exclude requires a value");
    assert_eq!(error(&["--bogus"]), "unknown option '--bogus'");
    assert_eq!(error(&["DP-1", "DP-2"]), "unexpected argument 'DP-2'");
    assert_eq!(error(&["--focus-back", "DP-2"]), "--focus-back and <OUTPUT> are mutually exclusive");
    assert_eq!(error(&["--pidfile", "/tmp/x"]), "missing required argument <OUTPUT>");
    assert!(matches!(parse_args(&args(&[])), ParsedArgs::Invalid(CliError::MissingArguments)));
}

#[test]
fn exclude_values() {
    assert_eq!(parse_excludes("Wofi,ROFI"), args(&["wofi", "rofi"]));
    assert_eq!(parse_excludes(""), Vec::<String>::new());
    assert_eq!(parse_excludes(",,"), Vec::<String>::new());
    assert_eq!(parse_excludes(" a b ,c"), args(&["a b", "c"]));
}

#[test]
fn empty_items_are_dropped() {
    assert_eq!(
        drop_empty(vec!["a".to_string(), "".to_string(), "b".to_string()]),
        vec!["a".to_string(), "b".to_string()]
    );
    assert_eq!(parse_excludes(" , ,"), Vec::<String>::new());
}
