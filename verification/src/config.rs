//! Protocol constants, timings, the default exclusions of focus-back mode
//! and the runtime configuration of monitor mode.
use vstd::prelude::*;
use crate::text::{all_ascii, ascii_lowercase, dashify, lowercase, replace_separators, string_views, to_lowercase};

verus! {

/// The magic string that opens every sway IPC message (`i3-ipc`).
pub const IPC_MAGIC: [u8; 6] = [105, 51, 45, 105, 112, 99];

/// Message type of a command.
pub const MSG_COMMAND: u32 = 0;

/// Message type of an event subscription.
pub const MSG_SUBSCRIBE: u32 = 2;

/// Message type of a tree request.
pub const MSG_TREE: u32 = 4;

/// Milliseconds a burst of events is given to end before a pass.
pub const DEBOUNCE_MS: u64 = 5;

/// The app ids that focus-back mode passes over by default: launchers and
/// menus.
pub open spec fn default_exclude_names() -> Seq<Seq<char>> {
    seq![
        "wofi"@,
        "rofi"@,
        "dmenu"@,
        "bemenu"@,
        "fuzzel"@,
        "tofi"@,
        "kickoff"@,
        "swaynag"@,
        "wlogout"@,
        "nwg-drawer"@,
        "ulauncher"@,
        "albert"@,
    ]
}

/// The app ids that focus-back mode passes over by default.
pub fn default_excludes() -> (r: Vec<String>)
    ensures
        string_views(r@) == default_exclude_names(),
{
    let r = vec![
        String::from_str("wofi"),
        String::from_str("rofi"),
        String::from_str("dmenu"),
        String::from_str("bemenu"),
        String::from_str("fuzzel"),
        String::from_str("tofi"),
        String::from_str("kickoff"),
        String::from_str("swaynag"),
        String::from_str("wlogout"),
        String::from_str("nwg-drawer"),
        String::from_str("ulauncher"),
        String::from_str("albert"),
    ];
    assert(string_views(r@) =~= default_exclude_names());
    r
}

/// The PID file focus-back mode uses when none is given.
pub open spec fn default_focus_back_pidfile() -> Seq<char> {
    "/tmp/sway-monocle-focus-back.pid"@
}

/// The PID file of focus-back mode: the one given, else
/// `/tmp/sway-monocle-focus-back.pid`.
pub fn focus_back_pidfile(pidfile: Option<String>) -> (r: String)
    ensures
        r@ == match pidfile {
            Some(p) => p@,
            None => default_focus_back_pidfile(),
        },
{
    match pidfile {
        Some(p) => p,
        None => String::from_str("/tmp/sway-monocle-focus-back.pid"),
    }
}

/// The runtime configuration of monitor mode.
pub struct RuntimeConfig {
    target_output: String,
    pidfile: String,
}

/// `/tmp/sway-monocle-<name>.pid`, with `/` and spaces in `name` replaced
/// by `-`.
pub open spec fn pidfile_path_of(name: Seq<char>) -> Seq<char> {
    "/tmp/sway-monocle-"@ + dashify(name) + ".pid"@
}

/// The PID file monitor mode uses for `output` when none is given:
/// `/tmp/sway-monocle-<output>.pid`, the output name lower-cased with `/`
/// and spaces replaced by `-`.
pub open spec fn default_pidfile(output: Seq<char>) -> Seq<char> {
    pidfile_path_of(lowercase(output))
}

/// The PID file path for an output name already lower-cased (see
/// `pidfile_path_of`).
pub fn pidfile_path(lower_output: &str) -> (r: String)
    ensures
        r@ == pidfile_path_of(lower_output@),
{
    let name = replace_separators(lower_output);
    let mut p = String::from_str("/tmp/sway-monocle-");
    p.append(name.as_str());
    p.append(".pid");
    p
}

impl RuntimeConfig {
    /// The managed output.
    pub closed spec fn output_spec(&self) -> Seq<char> {
        self.target_output@
    }

    /// The PID file.
    pub closed spec fn pidfile_spec(&self) -> Seq<char> {
        self.pidfile@
    }
}

/// The configuration for managing `target_output`, with the PID file given
/// or else the default one (see `default_pidfile`).
pub fn init(target_output: String, pidfile: Option<String>) -> (r: RuntimeConfig)
    ensures
        r.output_spec() == target_output@,
        r.pidfile_spec() == match pidfile {
            Some(p) => p@,
            None => default_pidfile(target_output@),
        },
        pidfile is None && all_ascii(target_output@) ==> r.pidfile_spec() == pidfile_path_of(
            ascii_lowercase(target_output@),
        ),
{
    let pidfile = match pidfile {
        Some(p) => p,
        None => {
            let lower = to_lowercase(target_output.as_str());
            pidfile_path(lower.as_str())
        },
    };
    RuntimeConfig { target_output, pidfile }
}

/// The managed output.
pub fn target_output(config: &RuntimeConfig) -> (r: &str)
    ensures
        r@ == config.output_spec(),
{
    config.target_output.as_str()
}

/// The PID file.
pub fn pidfile(config: &RuntimeConfig) -> (r: &str)
    ensures
        r@ == config.pidfile_spec(),
{
    config.pidfile.as_str()
}

} // verus!
