//! The focus-back engine: remembers which window was focused when each
//! window opened, and when the focused window closes, gives focus back to
//! the nearest ancestor that is still on a visible workspace. Launchers and
//! menus (the excluded app ids) are passed over.
use std::collections::HashMap;
use vstd::prelude::*;
use crate::commands::{focus_command, focus_text};
use crate::config::{default_exclude_names, default_excludes};
use crate::events::{WindowEvent, extract_window_info, info_of};
use crate::text::{string_views, lowercase, str_eq, to_lowercase};

verus! {

broadcast use vstd::std_specs::hash::group_hash_axioms;

/// Candidates examined, at most, when walking up the parent chain.
pub const MAX_CHAIN: u32 = 100;

/// What the engine asks its driver to do.
pub enum FocusBackAction {
    /// Nothing to do.
    Nothing,
    /// Find out whether the container is on a visible workspace and report
    /// with `FocusBackEngine::visibility`.
    CheckVisible(i64),
    /// Send this command to sway (its outcome does not matter).
    Command(String),
}

/// The mathematical value of a `FocusBackAction`.
pub enum FocusBackActionView {
    Nothing,
    CheckVisible(i64),
    Command(Seq<char>),
}

impl View for FocusBackAction {
    type V = FocusBackActionView;

    open spec fn view(&self) -> FocusBackActionView {
        match self {
            FocusBackAction::Nothing => FocusBackActionView::Nothing,
            FocusBackAction::CheckVisible(id) => FocusBackActionView::CheckVisible(*id),
            FocusBackAction::Command(c) => FocusBackActionView::Command(c@),
        }
    }
}

/// A walk up the parent chain of a closed window, waiting to hear whether
/// the candidate `target`, reached in `visited` steps, is visible.
struct CloseWalk {
    closed: i64,
    target: i64,
    visited: u32,
}

/// The focus-back engine.
pub struct FocusBackEngine {
    parents: HashMap<i64, i64>,
    last_focused: Option<i64>,
    last_focused_normal: Option<i64>,
    excludes: Vec<String>,
    walk: Option<CloseWalk>,
}

/// The mathematical value of a `FocusBackEngine`.
pub struct FocusBackView {
    /// Child window to the window that was focused when the child opened.
    pub parents: Map<i64, i64>,
    /// The window that last received focus.
    pub last_focused: Option<i64>,
    /// The window not excluded that last received focus.
    pub last_focused_normal: Option<i64>,
    /// App ids passed over.
    pub excludes: Seq<Seq<char>>,
    /// The walk in progress: closed window, candidate, steps taken.
    pub walk: Option<(i64, i64, nat)>,
}

impl View for FocusBackEngine {
    type V = FocusBackView;

    closed spec fn view(&self) -> FocusBackView {
        FocusBackView {
            parents: self.parents@,
            last_focused: self.last_focused,
            last_focused_normal: self.last_focused_normal,
            excludes: string_views(self.excludes@),
            walk: match self.walk {
                Some(w) => Some((w.closed, w.target, w.visited as nat)),
                None => None,
            },
        }
    }
}

/// The ancestor `k` steps up the parent chain of `c` (`c` itself for 0).
pub open spec fn ancestor(parents: Map<i64, i64>, c: i64, k: nat) -> Option<i64>
    decreases k,
{
    if k == 0 {
        Some(c)
    } else {
        match ancestor(parents, c, (k - 1) as nat) {
            Some(a) => if parents.contains_key(a) {
                Some(parents[a])
            } else {
                None
            },
            None => None,
        }
    }
}

/// The app id is one of the excluded ones.
pub open spec fn excluded(excludes: Seq<Seq<char>>, app_id: Option<Seq<char>>) -> bool {
    match app_id {
        Some(id) => excludes.contains(id),
        None => false,
    }
}

/// After a window opened: it is a child of the last window not excluded
/// that had focus (never of itself).
pub open spec fn on_new_spec(e: FocusBackView, con_id: i64) -> FocusBackView {
    match e.last_focused_normal {
        Some(parent) => if parent != con_id {
            FocusBackView { parents: e.parents.insert(con_id, parent), ..e }
        } else {
            e
        },
        None => e,
    }
}

/// After a window received focus.
pub open spec fn on_focus_spec(e: FocusBackView, con_id: i64, app_id: Option<Seq<char>>) -> FocusBackView {
    FocusBackView {
        last_focused: Some(con_id),
        last_focused_normal: if !excluded(e.excludes, app_id) {
            Some(con_id)
        } else {
            e.last_focused_normal
        },
        ..e
    }
}

/// Go on with the walk for `closed` at the candidate `target` after
/// `visited` steps: stop when there is none, when too many were examined,
/// or at the closed window itself; else ask whether it is visible.
pub open spec fn walk_step(e: FocusBackView, closed: i64, target: Option<i64>, visited: nat) -> (
    FocusBackView,
    FocusBackActionView,
) {
    match target {
        None => (FocusBackView { walk: None, ..e }, FocusBackActionView::Nothing),
        Some(t) => if visited + 1 > MAX_CHAIN || t == closed {
            (FocusBackView { walk: None, ..e }, FocusBackActionView::Nothing)
        } else {
            (FocusBackView { walk: Some((closed, t, visited + 1)), ..e }, FocusBackActionView::CheckVisible(t))
        },
    }
}

/// The parent of `c`, when one is recorded.
pub open spec fn parent_of(parents: Map<i64, i64>, c: i64) -> Option<i64> {
    if parents.contains_key(c) {
        Some(parents[c])
    } else {
        None
    }
}

/// After a window closed: only when it was the focused window, walk up its
/// parent chain.
pub open spec fn on_close_spec(e: FocusBackView, con_id: i64) -> (FocusBackView, FocusBackActionView) {
    if e.last_focused != Some(con_id) {
        (FocusBackView { walk: None, ..e }, FocusBackActionView::Nothing)
    } else {
        walk_step(e, con_id, parent_of(e.parents, con_id), 0)
    }
}

/// After hearing whether the candidate is visible: focus it, or go on up.
pub open spec fn visibility_spec(e: FocusBackView, visible: bool) -> (FocusBackView, FocusBackActionView) {
    match e.walk {
        Some((closed, t, k)) => if visible {
            (FocusBackView { walk: None, ..e }, FocusBackActionView::Command(focus_text(t)))
        } else {
            walk_step(e, closed, parent_of(e.parents, t), k)
        },
        None => (e, FocusBackActionView::Nothing),
    }
}

/// After a window event: only windows (a positive pid) are tracked, by
/// their `new`, `focus` and `close` events.
pub open spec fn event_spec(e: FocusBackView, ev: WindowEvent) -> (FocusBackView, FocusBackActionView) {
    match info_of(ev) {
        None => (e, FocusBackActionView::Nothing),
        Some(i) => if i.pid <= 0 {
            (e, FocusBackActionView::Nothing)
        } else if i.change == "new"@ {
            (on_new_spec(e, i.con_id), FocusBackActionView::Nothing)
        } else if i.change == "focus"@ {
            (on_focus_spec(e, i.con_id, i.app_id), FocusBackActionView::Nothing)
        } else if i.change == "close"@ {
            on_close_spec(e, i.con_id)
        } else {
            (e, FocusBackActionView::Nothing)
        },
    }
}

/// The walk in progress, if any, stands on an ancestor of the closed
/// window, reached in 1 to `MAX_CHAIN` steps, other than that window.
pub open spec fn walk_sound(e: FocusBackView) -> bool {
    match e.walk {
        Some((closed, t, k)) => 1 <= k <= MAX_CHAIN && ancestor(e.parents, closed, k) == Some(t)
            && t != closed,
        None => true,
    }
}

/// `list` followed by each of `extra` that is not listed yet, in order.
pub open spec fn with_new(list: Seq<Seq<char>>, extra: Seq<Seq<char>>) -> Seq<Seq<char>>
    decreases extra.len(),
{
    if extra.len() == 0 {
        list
    } else {
        let init = with_new(list, extra.drop_last());
        if init.contains(extra.last()) {
            init
        } else {
            init.push(extra.last())
        }
    }
}

/// The exclusion list for the extra app ids given: the defaults, then each
/// extra id lower-cased, unless already listed.
pub open spec fn exclude_list(extra: Seq<Seq<char>>) -> Seq<Seq<char>> {
    with_new(default_exclude_names(), extra.map_values(|x: Seq<char>| lowercase(x)))
}

fn list_contains(list: &Vec<String>, s: &str) -> (r: bool)
    ensures
        r == string_views(list@).contains(s@),
{
    let mut i: usize = 0;
    while i < list.len()
        invariant
            i <= list.len(),
            forall|j: int| 0 <= j < i ==> list@[j]@ != s@,
        decreases list.len() - i,
    {
        if str_eq(list[i].as_str(), s) {
            assert(string_views(list@)[i as int] == s@);
            return true;
        }
        i = i + 1;
    }
    assert(!string_views(list@).contains(s@)) by {
        if string_views(list@).contains(s@) {
            let j = choose|j: int| 0 <= j < list@.len() && #[trigger] string_views(list@)[j] == s@;
            assert(list@[j]@ == s@);
        }
    }
    false
}

/// Appends to `list` each of `extra` that is not listed yet (see
/// `with_new`).
pub fn append_new(list: Vec<String>, extra: Vec<String>) -> (r: Vec<String>)
    ensures
        string_views(r@) == with_new(string_views(list@), string_views(extra@)),
{
    let ghost base = string_views(list@);
    let ghost ev = string_views(extra@);
    let mut out = list;
    let mut i: usize = 0;
    while i < extra.len()
        invariant
            i <= extra.len(),
            ev == string_views(extra@),
            string_views(out@) == with_new(base, ev.take(i as int)),
        decreases extra.len() - i,
    {
        assert(ev.take(i + 1).drop_last() =~= ev.take(i as int));
        assert(ev.take(i + 1).last() == extra@[i as int]@);
        if !list_contains(&out, extra[i].as_str()) {
            let ghost before = string_views(out@);
            out.push(extra[i].clone());
            assert(string_views(out@) =~= before.push(extra@[i as int]@));
        }
        i = i + 1;
    }
    assert(ev.take(extra.len() as int) =~= ev);
    out
}

/// The exclusion list: the default app ids, then the extra ones given,
/// lower-cased and without repeats (see `exclude_list`).
pub fn build_excludes(extra_excludes: Vec<String>) -> (r: Vec<String>)
    ensures
        string_views(r@) == exclude_list(string_views(extra_excludes@)),
{
    let ghost extra = string_views(extra_excludes@);
    let mut lowered: Vec<String> = Vec::new();
    let mut i: usize = 0;
    while i < extra_excludes.len()
        invariant
            i <= extra_excludes.len(),
            extra == string_views(extra_excludes@),
            string_views(lowered@) == extra.take(i as int).map_values(|x: Seq<char>| lowercase(x)),
        decreases extra_excludes.len() - i,
    {
        let ghost before = string_views(lowered@);
        let item = to_lowercase(extra_excludes[i].as_str());
        lowered.push(item);
        assert(string_views(lowered@) =~= before.push(item@));
        assert(extra.take(i + 1).map_values(|x: Seq<char>| lowercase(x)) =~= extra.take(i as int).map_values(
            |x: Seq<char>| lowercase(x),
        ).push(lowercase(extra[i as int])));
        i = i + 1;
    }
    assert(extra.take(extra_excludes.len() as int) =~= extra);
    append_new(default_excludes(), lowered)
}

impl FocusBackEngine {
    /// An engine that has seen nothing yet and passes over `excludes`.
    pub fn new(excludes: Vec<String>) -> (r: FocusBackEngine)
        ensures
            r@ == (FocusBackView {
                parents: Map::empty(),
                last_focused: None,
                last_focused_normal: None,
                excludes: string_views(excludes@),
                walk: None,
            }),
    {
        let r = FocusBackEngine {
            parents: HashMap::new(),
            last_focused: None,
            last_focused_normal: None,
            excludes,
            walk: None,
        };
        assert(r@.parents =~= Map::empty());
        r
    }

    /// Whether the app id is excluded.
    pub fn is_excluded(&self, app_id: &Option<String>) -> (r: bool)
        ensures
            r == excluded(self@.excludes, match app_id {
                Some(a) => Some(a@),
                None => None,
            }),
    {
        match app_id {
            Some(id) => list_contains(&self.excludes, id.as_str()),
            None => false,
        }
    }

    /// A window opened: records its parent.
    pub fn on_new(&mut self, con_id: i64)
        ensures
            final(self)@ == on_new_spec(old(self)@, con_id),
    {
        match self.last_focused_normal {
            Some(parent) => {
                if parent != con_id {
                    self.parents.insert(con_id, parent);
                }
            },
            None => {},
        }
    }

    /// A window received focus.
    pub fn on_focus(&mut self, con_id: i64, app_id: &Option<String>)
        ensures
            final(self)@ == on_focus_spec(old(self)@, con_id, match app_id {
                Some(a) => Some(a@),
                None => None,
            }),
    {
        self.last_focused = Some(con_id);
        if !self.is_excluded(app_id) {
            self.last_focused_normal = Some(con_id);
        }
    }

    fn parent(&self, c: i64) -> (r: Option<i64>)
        ensures
            r == parent_of(self@.parents, c),
    {
        match self.parents.get(&c) {
            Some(p) => Some(*p),
            None => None,
        }
    }

    fn step_walk(&mut self, closed: i64, target: Option<i64>, visited: u32) -> (a: FocusBackAction)
        ensures
            (final(self)@, a@) == walk_step(old(self)@, closed, target, visited as nat),
    {
        match target {
            None => {
                self.walk = None;
                FocusBackAction::Nothing
            },
            Some(t) => {
                if visited >= MAX_CHAIN || t == closed {
                    self.walk = None;
                    FocusBackAction::Nothing
                } else {
                    self.walk = Some(CloseWalk { closed, target: t, visited: visited + 1 });
                    FocusBackAction::CheckVisible(t)
                }
            },
        }
    }

    /// A window closed: when it was the focused one, starts the walk up its
    /// parent chain.
    pub fn on_close(&mut self, con_id: i64) -> (a: FocusBackAction)
        ensures
            (final(self)@, a@) == on_close_spec(old(self)@, con_id),
    {
        if self.last_focused != Some(con_id) {
            self.walk = None;
            return FocusBackAction::Nothing;
        }
        let target = self.parent(con_id);
        self.step_walk(con_id, target, 0)
    }

    /// Reports whether the candidate of the walk is visible.
    pub fn visibility(&mut self, visible: bool) -> (a: FocusBackAction)
        ensures
            (final(self)@, a@) == visibility_spec(old(self)@, visible),
    {
        match &self.walk {
            Some(w) => {
                let closed = w.closed;
                let t = w.target;
                let k = w.visited;
                if visible {
                    self.walk = None;
                    FocusBackAction::Command(focus_command(t))
                } else {
                    let next = self.parent(t);
                    self.step_walk(closed, next, k)
                }
            },
            None => FocusBackAction::Nothing,
        }
    }

    /// Handles one window event.
    pub fn process_event(&mut self, event: &WindowEvent) -> (a: FocusBackAction)
        ensures
            (final(self)@, a@) == event_spec(old(self)@, *event),
    {
        let info = match extract_window_info(event) {
            Some(i) => i,
            None => return FocusBackAction::Nothing,
        };
        if info.pid <= 0 {
            return FocusBackAction::Nothing;
        }
        if str_eq(info.change.as_str(), "new") {
            self.on_new(info.con_id);
            FocusBackAction::Nothing
        } else if str_eq(info.change.as_str(), "focus") {
            self.on_focus(info.con_id, &info.app_id);
            FocusBackAction::Nothing
        } else if str_eq(info.change.as_str(), "close") {
            self.on_close(info.con_id)
        } else {
            FocusBackAction::Nothing
        }
    }
}

/// A close of a window that did not have focus changes nothing: the
/// engine never steals focus.
pub proof fn law_background_close_ignored(e: FocusBackView, con_id: i64)
    requires
        e.last_focused != Some(con_id),
    ensures
        on_close_spec(e, con_id) == (FocusBackView { walk: None, ..e }, FocusBackActionView::Nothing),
{
}

/// An excluded app (a launcher or menu) taking focus does not become the
/// parent of the windows that open next.
pub proof fn law_excluded_apps_transparent(e: FocusBackView, con_id: i64, app_id: Option<Seq<char>>)
    requires
        excluded(e.excludes, app_id),
    ensures
        on_focus_spec(e, con_id, app_id).last_focused_normal == e.last_focused_normal,
        on_focus_spec(e, con_id, app_id).last_focused == Some(con_id),
{
}

/// Parent entries are never dropped (closed windows stay in the chain),
/// and no window becomes its own parent.
pub proof fn law_parents_kept(e: FocusBackView, con_id: i64)
    ensures
        e.parents.dom().subset_of(on_new_spec(e, con_id).parents.dom()),
        forall|k: i64| #[trigger] e.parents.contains_key(k) && k != con_id ==> on_new_spec(e, con_id).parents[k] == e.parents[k],
        (forall|k: i64| #[trigger] e.parents.contains_key(k) ==> e.parents[k] != k) ==> (forall|k: i64|
            #[trigger] on_new_spec(e, con_id).parents.contains_key(k) ==> on_new_spec(e, con_id).parents[k] != k),
{
}

/// A walk that starts at a close always stands on an ancestor of the
/// closed window (see `walk_sound`), and the answers about visibility keep
/// it so.
pub proof fn law_walk_sound(e: FocusBackView, con_id: i64, visible: bool)
    ensures
        walk_sound(on_close_spec(e, con_id).0),
        walk_sound(e) ==> walk_sound(visibility_spec(e, visible).0),
{
    if e.last_focused == Some(con_id) && e.parents.contains_key(con_id) {
        assert(ancestor(e.parents, con_id, 1) == Some(e.parents[con_id])) by {
            reveal_with_fuel(ancestor, 2);
        }
    }
    match e.walk {
        Some((closed, t, k)) => {
            if walk_sound(e) && !visible && e.parents.contains_key(t) {
                assert(ancestor(e.parents, closed, k + 1) == Some(e.parents[t]));
            }
        },
        None => {},
    }
}

/// Focus is given back only to an ancestor of the closed window, found at
/// most `MAX_CHAIN` steps up, and never to the closed window itself.
pub proof fn law_focus_back_to_ancestor(e: FocusBackView, visible: bool)
    requires
        walk_sound(e),
        visibility_spec(e, visible).1 is Command,
    ensures
        ({
            let (closed, t, k) = e.walk->0;
            &&& visibility_spec(e, visible).1 == FocusBackActionView::Command(focus_text(t))
            &&& 1 <= k <= MAX_CHAIN
            &&& ancestor(e.parents, closed, k) == Some(t)
            &&& t != closed
        }),
{
}

/// Drives the engine through a walk: answers each visibility question about
/// a candidate `t` with `vis(t)`, at most `fuel` times. Gives the number of
/// questions answered and the last action.
pub open spec fn answer_walk(
    e: FocusBackView,
    a: FocusBackActionView,
    vis: spec_fn(i64) -> bool,
    fuel: nat,
) -> (nat, FocusBackActionView)
    decreases fuel,
{
    match a {
        FocusBackActionView::CheckVisible(t) => if fuel == 0 {
            (0, a)
        } else {
            let (e2, a2) = visibility_spec(e, vis(t));
            let (n, last) = answer_walk(e2, a2, vis, (fuel - 1) as nat);
            (n + 1, last)
        },
        _ => (0, a),
    }
}

/// The walk for `closed` seen from the candidate `target`, reached after
/// `visited` steps: the number of candidates asked about, and the outcome
/// (focus the first visible candidate, or nothing when the chain ends, comes
/// back to the closed window, or `MAX_CHAIN` candidates were asked about).
pub open spec fn walk_from(
    parents: Map<i64, i64>,
    closed: i64,
    vis: spec_fn(i64) -> bool,
    target: Option<i64>,
    visited: nat,
) -> (nat, FocusBackActionView)
    decreases MAX_CHAIN - visited,
{
    match target {
        None => (0, FocusBackActionView::Nothing),
        Some(t) => if visited + 1 > MAX_CHAIN || t == closed {
            (0, FocusBackActionView::Nothing)
        } else if vis(t) {
            (1, FocusBackActionView::Command(focus_text(t)))
        } else {
            let (n, last) = walk_from(parents, closed, vis, parent_of(parents, t), visited + 1);
            (n + 1, last)
        },
    }
}

/// The ancestors of `closed` from `lo` to `hi - 1` steps up all exist, are
/// not `closed` itself, and are not visible.
pub open spec fn passed_over(parents: Map<i64, i64>, closed: i64, vis: spec_fn(i64) -> bool, lo: nat, hi: nat) -> bool {
    forall|j: nat|
        lo <= j < hi ==> {
            &&& #[trigger] ancestor(parents, closed, j) is Some
            &&& ancestor(parents, closed, j)->0 != closed
            &&& !vis(ancestor(parents, closed, j)->0)
        }
}

/// The ancestor `k` steps up is the first visible one: every ancestor below
/// it was passed over, and it is visible and not the closed window.
pub open spec fn first_visible_at(parents: Map<i64, i64>, closed: i64, vis: spec_fn(i64) -> bool, k: nat) -> bool {
    &&& 1 <= k <= MAX_CHAIN
    &&& passed_over(parents, closed, vis, 1, k)
    &&& ancestor(parents, closed, k) is Some
    &&& ancestor(parents, closed, k)->0 != closed
    &&& vis(ancestor(parents, closed, k)->0)
}

proof fn lemma_answer_walk(
    e: FocusBackView,
    closed: i64,
    target: Option<i64>,
    visited: nat,
    vis: spec_fn(i64) -> bool,
    fuel: nat,
)
    requires
        visited <= MAX_CHAIN,
        fuel + visited >= MAX_CHAIN,
    ensures
        answer_walk(walk_step(e, closed, target, visited).0, walk_step(e, closed, target, visited).1, vis, fuel)
            == walk_from(e.parents, closed, vis, target, visited),
        walk_from(e.parents, closed, vis, target, visited).0 + visited <= MAX_CHAIN,
    decreases MAX_CHAIN - visited,
{
    match target {
        None => {},
        Some(t) => {
            if visited + 1 > MAX_CHAIN || t == closed {
            } else {
                let (e1, a1) = walk_step(e, closed, target, visited);
                let (e2, a2) = visibility_spec(e1, vis(t));
                if vis(t) {
                    assert(answer_walk(e2, a2, vis, (fuel - 1) as nat) == (0nat, a2));
                } else {
                    lemma_answer_walk(e1, closed, parent_of(e.parents, t), visited + 1, vis, (fuel - 1) as nat);
                }
            }
        },
    }
}

proof fn lemma_walk_from_first(
    parents: Map<i64, i64>,
    closed: i64,
    vis: spec_fn(i64) -> bool,
    visited: nat,
)
    requires
        visited <= MAX_CHAIN,
        passed_over(parents, closed, vis, 1, visited + 1),
    ensures
        ({
            let last = walk_from(parents, closed, vis, ancestor(parents, closed, visited + 1), visited).1;
            &&& last is Nothing || last is Command
            &&& last is Command ==> exists|k: nat|
                #[trigger] first_visible_at(parents, closed, vis, k) && last == FocusBackActionView::Command(
                    focus_text(ancestor(parents, closed, k)->0),
                )
            &&& last is Nothing ==> forall|k: nat| !#[trigger] first_visible_at(parents, closed, vis, k)
        }),
    decreases MAX_CHAIN - visited,
{
    let target = ancestor(parents, closed, visited + 1);
    let last = walk_from(parents, closed, vis, target, visited).1;
    assert forall|k: nat| first_visible_at(parents, closed, vis, k) implies k >= visited + 1 by {
        if k < visited + 1 {
            assert(passed_over(parents, closed, vis, 1, visited + 1));
            assert(ancestor(parents, closed, k) is Some);
            if k == 0 {
            } else {
                assert(!vis(ancestor(parents, closed, k)->0));
            }
        }
    }
    match target {
        None => {
            assert forall|k: nat| !#[trigger] first_visible_at(parents, closed, vis, k) by {
                if first_visible_at(parents, closed, vis, k) {
                    if k > visited + 1 {
                        assert(ancestor(parents, closed, visited + 1) is Some);
                    }
                }
            }
        },
        Some(t) => {
            if visited + 1 > MAX_CHAIN || t == closed {
                assert forall|k: nat| !#[trigger] first_visible_at(parents, closed, vis, k) by {
                    if first_visible_at(parents, closed, vis, k) {
                        if k > visited + 1 {
                            assert(ancestor(parents, closed, visited + 1)->0 != closed);
                        }
                    }
                }
            } else if vis(t) {
                assert(first_visible_at(parents, closed, vis, visited + 1));
            } else {
                assert(parent_of(parents, t) == ancestor(parents, closed, visited + 2));
                assert(passed_over(parents, closed, vis, 1, visited + 2)) by {
                    assert forall|j: nat| 1 <= j < visited + 2 implies {
                        &&& #[trigger] ancestor(parents, closed, j) is Some
                        &&& ancestor(parents, closed, j)->0 != closed
                        &&& !vis(ancestor(parents, closed, j)->0)
                    } by {
                        if j < visited + 1 {
                            assert(passed_over(parents, closed, vis, 1, visited + 1));
                        }
                    }
                }
                if visited + 1 == MAX_CHAIN {
                    assert(walk_from(parents, closed, vis, ancestor(parents, closed, visited + 2), visited + 1).1
                        is Nothing);
                    assert forall|k: nat| !#[trigger] first_visible_at(parents, closed, vis, k) by {
                        if first_visible_at(parents, closed, vis, k) {
                            assert(k == visited + 1);
                        }
                    }
                } else {
                    lemma_walk_from_first(parents, closed, vis, visited + 1);
                    assert forall|k: nat| #[trigger] first_visible_at(parents, closed, vis, k) implies k != visited + 1 by {
                    }
                }
            }
        },
    }
}

/// Over a whole walk, from the close of the focused window until the engine
/// stops asking: at most `MAX_CHAIN` visibility questions are asked, the
/// walk always ends, and focus goes to the first ancestor within
/// `MAX_CHAIN` steps that is visible (never to the closed window), or, when
/// there is none, no command is sent.
pub proof fn law_whole_walk(e: FocusBackView, con_id: i64, vis: spec_fn(i64) -> bool)
    requires
        e.last_focused == Some(con_id),
    ensures
        ({
            let (e1, a1) = on_close_spec(e, con_id);
            let (n, last) = answer_walk(e1, a1, vis, MAX_CHAIN as nat);
            &&& n <= MAX_CHAIN
            &&& last is Nothing || last is Command
            &&& last is Command ==> exists|k: nat|
                #[trigger] first_visible_at(e.parents, con_id, vis, k) && last == FocusBackActionView::Command(
                    focus_text(ancestor(e.parents, con_id, k)->0),
                )
            &&& last is Nothing ==> forall|k: nat| !#[trigger] first_visible_at(e.parents, con_id, vis, k)
        }),
{
    assert(parent_of(e.parents, con_id) == ancestor(e.parents, con_id, 1)) by {
        reveal_with_fuel(ancestor, 2);
    }
    lemma_answer_walk(e, con_id, parent_of(e.parents, con_id), 0, vis, MAX_CHAIN as nat);
    lemma_walk_from_first(e.parents, con_id, vis, 0);
}

/// Every `new` event of a window (a positive pid) records, as the parent of
/// the new window, the last window not excluded that had focus, whatever
/// the new window's app id (a launcher opened from a terminal is a child of
/// that terminal); nothing else changes and nothing is sent.
pub proof fn law_new_window_records_parent(e: FocusBackView, ev: WindowEvent)
    requires
        ev.change is Some,
        ev.change->0@ == "new"@,
        ev.container is Some,
        ev.container->0.id is Some,
        ev.container->0.pid is Some,
        ev.container->0.pid->0 > 0,
    ensures
        ({
            let c = ev.container->0.id->0;
            let (e2, a) = event_spec(e, ev);
            &&& a == FocusBackActionView::Nothing
            &&& e2.last_focused == e.last_focused
            &&& e2.last_focused_normal == e.last_focused_normal
            &&& e2.excludes == e.excludes
            &&& e2.walk == e.walk
            &&& e2.parents == match e.last_focused_normal {
                Some(q) => if q != c {
                    e.parents.insert(c, q)
                } else {
                    e.parents
                },
                None => e.parents,
            }
        }),
{
}

/// A window taking focus becomes the last focused window; it becomes the
/// last focused window that is not excluded exactly when its app id is not
/// on the exclusion list; the parent records are untouched.
pub proof fn law_focus_tracking(e: FocusBackView, con_id: i64, app_id: Option<Seq<char>>)
    ensures
        on_focus_spec(e, con_id, app_id).last_focused == Some(con_id),
        on_focus_spec(e, con_id, app_id).parents == e.parents,
        (app_id matches Some(a) && e.excludes.contains(a)) ==> on_focus_spec(e, con_id, app_id).last_focused_normal
            == e.last_focused_normal,
        !(app_id matches Some(a) && e.excludes.contains(a)) ==> on_focus_spec(e, con_id, app_id).last_focused_normal
            == Some(con_id),
{
}

} // verus!
