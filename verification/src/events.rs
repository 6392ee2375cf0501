//! Sway window events: what the daemons read from them.
use vstd::prelude::*;
use crate::text::{all_ascii, ascii_lowercase, lowercase, str_eq, to_lowercase};

verus! {

/// The `container` member of a window event, holding the members that are
/// read from it; each is `None` when absent or of another JSON type.
pub struct EventContainer {
    /// `id` as an integer.
    pub id: Option<i64>,
    /// `pid` as an integer.
    pub pid: Option<i64>,
    /// `app_id` as a string (Wayland clients).
    pub app_id: Option<String>,
    /// `window_properties.class` as a string (X11 clients).
    pub window_class: Option<String>,
}

/// A message from sway's event subscription, holding the members that are
/// read from it.
pub struct WindowEvent {
    /// `change` as a string: `"new"`, `"close"`, `"focus"`, `"move"`, ...
    pub change: Option<String>,
    /// `container`, when present.
    pub container: Option<EventContainer>,
}

/// The kind of window event that hints at a window to look at.
#[derive(Debug, Clone, Copy, PartialEq, Eq, Structural)]
pub enum HintType {
    New,
    Move,
}

/// The change named `"new"`.
pub open spec fn new_change() -> Seq<char> {
    "new"@
}

/// The change named `"move"`.
pub open spec fn move_change() -> Seq<char> {
    "move"@
}

/// The hint an event gives: its container id and whether the window is
/// new or moved; `None` for other changes or when a member is missing.
pub open spec fn hint_of(e: WindowEvent) -> Option<(i64, HintType)> {
    match (e.change, e.container) {
        (Some(c), Some(k)) => match k.id {
            Some(id) => if c@ == new_change() {
                Some((id, HintType::New))
            } else if c@ == move_change() {
                Some((id, HintType::Move))
            } else {
                None
            },
            None => None,
        },
        _ => None,
    }
}

/// The container id and kind of a `new` or `move` window event.
pub fn extract_hint(event: &WindowEvent) -> (r: Option<(i64, HintType)>)
    ensures
        r == hint_of(*event),
{
    let change = match &event.change {
        Some(c) => c,
        None => return None,
    };
    let id = match &event.container {
        Some(k) => match k.id {
            Some(i) => i,
            None => return None,
        },
        None => return None,
    };
    if str_eq(change.as_str(), "new") {
        Some((id, HintType::New))
    } else if str_eq(change.as_str(), "move") {
        Some((id, HintType::Move))
    } else {
        None
    }
}

/// The hint kept over the events of one burst: a window that arrived wins
/// over a window that moved, and a later hint wins over an earlier one of
/// the same kind.
pub struct HintWindow {
    pub hint: Option<i64>,
    pub hint_is_new: bool,
}

/// The hint kept after one more event.
pub open spec fn absorb_spec(hint: Option<i64>, is_new: bool, next: Option<(i64, HintType)>) -> (Option<i64>, bool) {
    match next {
        Some((id, ht)) => if ht == HintType::New || !is_new {
            (Some(id), ht == HintType::New)
        } else {
            (hint, is_new)
        },
        None => (hint, is_new),
    }
}

impl HintWindow {
    /// No hint yet.
    pub fn new() -> (r: HintWindow)
        ensures
            r.hint is None,
            !r.hint_is_new,
    {
        HintWindow { hint: None, hint_is_new: false }
    }

    /// Takes the hint of one more event of the burst into account.
    pub fn absorb(&mut self, next: Option<(i64, HintType)>)
        ensures
            (final(self).hint, final(self).hint_is_new) == absorb_spec(old(self).hint, old(self).hint_is_new, next),
    {
        match next {
            Some((id, ht)) => {
                let is_new = ht == HintType::New;
                if is_new || !self.hint_is_new {
                    self.hint = Some(id);
                    self.hint_is_new = is_new;
                }
            },
            None => {},
        }
    }
}

/// A new window, once hinted, is not displaced by a moved one: whatever
/// events follow in the burst, the kept hint is a new window.
pub proof fn law_new_hint_sticks(hint: Option<i64>, next: Option<(i64, HintType)>)
    ensures
        absorb_spec(hint, true, next).1,
{
}

/// Within a burst, the latest new window wins whatever was kept before; a
/// moved window replaces only a hint that is not a new window; an event
/// without a hint keeps what was kept.
pub proof fn law_latest_new_window_wins(hint: Option<i64>, is_new: bool, id: i64)
    ensures
        absorb_spec(hint, is_new, Some((id, HintType::New))) == (Some(id), true),
        !is_new ==> absorb_spec(hint, is_new, Some((id, HintType::Move))) == (Some(id), false),
        is_new ==> absorb_spec(hint, is_new, Some((id, HintType::Move))) == (hint, true),
        absorb_spec(hint, is_new, None) == (hint, is_new),
{
}

/// Details of a window event, for the focus-back engine.
pub struct WindowEventInfo {
    /// Event type: `"new"`, `"close"`, `"focus"`, `"title"`, ...
    pub change: String,
    /// Sway container id of the window.
    pub con_id: i64,
    /// Lower-cased application id: Wayland `app_id` when present and not
    /// empty, else X11 `window_properties.class`.
    pub app_id: Option<String>,
    /// Process id: above zero for windows, 0 for containers (and when
    /// absent).
    pub pid: i64,
}

/// The mathematical value of a `WindowEventInfo`.
pub struct WindowEventView {
    pub change: Seq<char>,
    pub con_id: i64,
    pub app_id: Option<Seq<char>>,
    pub pid: i64,
}

impl View for WindowEventInfo {
    type V = WindowEventView;

    open spec fn view(&self) -> WindowEventView {
        WindowEventView {
            change: self.change@,
            con_id: self.con_id,
            app_id: match self.app_id {
                Some(a) => Some(a@),
                None => None,
            },
            pid: self.pid,
        }
    }
}

/// The application id of a container: its non-empty Wayland `app_id`,
/// else its X11 class, lower-cased.
pub open spec fn app_id_of(k: EventContainer) -> Option<Seq<char>> {
    match k.app_id {
        Some(a) if a@.len() > 0 => Some(lowercase(a@)),
        _ => match k.window_class {
            Some(c) => Some(lowercase(c@)),
            None => None,
        },
    }
}

/// The container's `app_id` and class are ASCII text where present.
pub open spec fn ascii_names(k: EventContainer) -> bool {
    &&& (k.app_id is Some ==> all_ascii(k.app_id->0@))
    &&& (k.window_class is Some ==> all_ascii(k.window_class->0@))
}

/// `app_id_of` for ASCII names: the non-empty `app_id`, else the class,
/// with `A`-`Z` mapped to `a`-`z`.
pub open spec fn ascii_app_id_of(k: EventContainer) -> Option<Seq<char>> {
    match k.app_id {
        Some(a) if a@.len() > 0 => Some(ascii_lowercase(a@)),
        _ => match k.window_class {
            Some(c) => Some(ascii_lowercase(c@)),
            None => None,
        },
    }
}

/// The details of a window event: `None` unless it has a `change` and a
/// container with an `id`.
pub open spec fn info_of(e: WindowEvent) -> Option<WindowEventView> {
    match (e.change, e.container) {
        (Some(c), Some(k)) => match k.id {
            Some(id) => Some(
                WindowEventView {
                    change: c@,
                    con_id: id,
                    app_id: app_id_of(k),
                    pid: match k.pid {
                        Some(p) => p,
                        None => 0,
                    },
                },
            ),
            None => None,
        },
        _ => None,
    }
}

/// Reads the details of a window event (see `info_of`).
pub fn extract_window_info(event: &WindowEvent) -> (r: Option<WindowEventInfo>)
    ensures
        match r {
            Some(i) => info_of(*event) == Some(i@),
            None => info_of(*event) is None,
        },
        r is Some && ascii_names(event.container->0) ==> r->0@.app_id == ascii_app_id_of(event.container->0),
{
    let change = match &event.change {
        Some(c) => c.clone(),
        None => return None,
    };
    let container = match &event.container {
        Some(k) => k,
        None => return None,
    };
    let con_id = match container.id {
        Some(i) => i,
        None => return None,
    };
    let pid: i64 = match container.pid {
        Some(p) => p,
        None => 0,
    };
    let wayland = match &container.app_id {
        Some(a) => {
            if a.as_str().unicode_len() > 0 {
                Some(to_lowercase(a.as_str()))
            } else {
                None
            }
        },
        None => None,
    };
    let app_id = match wayland {
        Some(a) => Some(a),
        None => match &container.window_class {
            Some(c) => Some(to_lowercase(c.as_str())),
            None => None,
        },
    };
    Some(WindowEventInfo { change, con_id, app_id, pid })
}

/// The payload of the subscription to window and workspace events:
/// `["window","workspace"]`.
pub const SUBSCRIPTION_PAYLOAD: [u8; 22] = [
    91, 34, 119, 105, 110, 100, 111, 119, 34, 44, 34, 119, 111, 114, 107, 115, 112, 97, 99, 101, 34, 93,
];

/// Whether sway accepted a subscription: its reply's `success`, read as a
/// boolean, is `true`.
pub fn subscription_accepted(success: Option<bool>) -> (r: bool)
    ensures
        r == (success == Some(true)),
{
    match success {
        Some(b) => b,
        None => false,
    }
}

} // verus!
