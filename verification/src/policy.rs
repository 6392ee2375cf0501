//! The monitor-mode decision engine: from the managed output's snapshots to
//! the sway commands that give it a monocle layout with a tabbed fallback.
use std::collections::HashMap;
use vstd::prelude::*;
use vstd::relations::{sorted_by, total_ordering};
use vstd::std_specs::iter::IteratorSpec;
use crate::commands::{
    border_command, border_text, default_border_command, focus_command, focus_text,
    fullscreen_disable_text, monocle_command, monocle_text, push_fullscreen_disable,
    push_split_none, push_tabbed, push_unmark,
    single_restore_command, single_restore_text, split_none_text, splith_command, splith_text,
    tabbed_text, unmark_text,
};
use crate::text::str_eq;
use crate::tree::{SnapView, Snapshot, WinInfo, WinView, opt_snap_view, win_views};

verus! {

broadcast use vstd::std_specs::hash::group_hash_axioms;

/// Window pairs ordered by id, then by fullscreen mode.
pub open spec fn pair_le(a: (i64, i64), b: (i64, i64)) -> bool {
    a.0 < b.0 || (a.0 == b.0 && a.1 <= b.1)
}

proof fn lemma_pair_le_total()
    ensures
        total_ordering(|a: (i64, i64), b: (i64, i64)| pair_le(a, b)),
{
}

/// Sorts window pairs in place (`<[T]>::sort`, which sorts by the
/// tuples' `Ord`: by the first member, then the second).
#[verifier::external_body]
fn sort_pairs(v: &mut Vec<(i64, i64)>)
    ensures
        final(v)@.to_multiset() == old(v)@.to_multiset(),
        sorted_by(final(v)@, |a: (i64, i64), b: (i64, i64)| pair_le(a, b)),
{
    v.sort();
}

/// The `(id, fullscreen mode)` pairs of some windows, in order.
pub open spec fn window_pairs(ws: Seq<WinView>) -> Seq<(i64, i64)> {
    ws.map_values(|w: WinView| (w.id, w.fs))
}

/// What the change detection compares between two passes.
pub struct Dp2State {
    windows: Vec<(i64, i64)>,
    float_n: usize,
    float_fs: usize,
    ws_layout: String,
}

/// The mathematical value of a `Dp2State`.
pub struct Dp2View {
    pub windows: Seq<(i64, i64)>,
    pub float_n: nat,
    pub float_fs: nat,
    pub ws_layout: Seq<char>,
}

impl View for Dp2State {
    type V = Dp2View;

    closed spec fn view(&self) -> Dp2View {
        Dp2View {
            windows: self.windows@,
            float_n: self.float_n as nat,
            float_fs: self.float_fs as nat,
            ws_layout: self.ws_layout@,
        }
    }
}

/// The state a snapshot stands for: its windows as `(id, fullscreen mode)`
/// pairs in sorted order, its floating counts and its layout.
pub open spec fn state_of(s: SnapView) -> Dp2View {
    Dp2View {
        windows: window_pairs(s.tiled).sort_by(|a: (i64, i64), b: (i64, i64)| pair_le(a, b)),
        float_n: s.float_n,
        float_fs: s.float_fs,
        ws_layout: s.ws_layout,
    }
}

/// The state lists window `id`.
pub open spec fn lists_window(d: Dp2View, id: i64) -> bool {
    exists|i: int| 0 <= i < d.windows.len() && d.windows[i].0 == id
}

impl Dp2State {
    /// The state of a snapshot (see `state_of`).
    pub fn from_snapshot(snap: &Snapshot) -> (r: Dp2State)
        ensures
            r@ == state_of(snap@),
    {
        let mut windows: Vec<(i64, i64)> = Vec::new();
        let mut i: usize = 0;
        while i < snap.tiled.len()
            invariant
                i <= snap.tiled.len(),
                windows@ == window_pairs(win_views(snap.tiled@)).take(i as int),
            decreases snap.tiled.len() - i,
        {
            windows.push((snap.tiled[i].id, snap.tiled[i].fs));
            assert(windows@ =~= window_pairs(win_views(snap.tiled@)).take(i + 1));
            i = i + 1;
        }
        let ghost unsorted = windows@;
        assert(unsorted =~= window_pairs(snap@.tiled));
        sort_pairs(&mut windows);
        proof {
            let leq = |a: (i64, i64), b: (i64, i64)| pair_le(a, b);
            lemma_pair_le_total();
            unsorted.lemma_sort_by_ensures(leq);
            vstd::seq_lib::lemma_sorted_unique(windows@, unsorted.sort_by(leq), leq);
        }
        Dp2State {
            windows,
            float_n: snap.float_n,
            float_fs: snap.float_fs,
            ws_layout: snap.ws_layout.clone(),
        }
    }

    /// Whether the state lists window `id`.
    pub fn contains_window(&self, id: i64) -> (r: bool)
        ensures
            r == lists_window(self@, id),
    {
        let mut i: usize = 0;
        while i < self.windows.len()
            invariant
                i <= self.windows.len(),
                forall|j: int| 0 <= j < i ==> self.windows@[j].0 != id,
            decreases self.windows.len() - i,
        {
            if self.windows[i].0 == id {
                assert(self@.windows[i as int].0 == id);
                return true;
            }
            i = i + 1;
        }
        assert(!lists_window(self@, id)) by {
            if lists_window(self@, id) {
                let j = choose|j: int| 0 <= j < self@.windows.len() && self@.windows[j].0 == id;
                assert(self.windows@[j].0 == id);
            }
        }
        false
    }

    /// Whether two states are the same.
    pub fn same_as(&self, other: &Dp2State) -> (r: bool)
        ensures
            r == (self@ == other@),
    {
        if self.float_n != other.float_n || self.float_fs != other.float_fs {
            return false;
        }
        if !str_eq(self.ws_layout.as_str(), other.ws_layout.as_str()) {
            return false;
        }
        if self.windows.len() != other.windows.len() {
            return false;
        }
        let mut i: usize = 0;
        while i < self.windows.len()
            invariant
                i <= self.windows.len(),
                self.windows.len() == other.windows.len(),
                forall|j: int| 0 <= j < i ==> self.windows@[j] == other.windows@[j],
            decreases self.windows.len() - i,
        {
            if self.windows[i].0 != other.windows[i].0 || self.windows[i].1 != other.windows[i].1 {
                return false;
            }
            i = i + 1;
        }
        assert(self@.windows =~= other@.windows);
        true
    }
}

/// The saved borders as mathematical values.
pub open spec fn saved_view(m: Map<i64, (String, i64)>) -> Map<i64, (Seq<char>, i64)> {
    m.map_values(|v: (String, i64)| (v.0@, v.1))
}

/// The ids among `keys` that are not ids of `tiled`.
pub open spec fn departed_ids(keys: Set<i64>, tiled: Seq<WinView>) -> Set<i64> {
    keys.filter(|id: i64| !tiled_has_id(tiled, id))
}

/// Whether some window of `tiled` has id `id`.
pub open spec fn tiled_has_id(tiled: Seq<WinView>, id: i64) -> bool {
    exists|i: int| 0 <= i < tiled.len() && tiled[i].id == id
}

fn has_window(tiled: &Vec<WinInfo>, id: i64) -> (r: bool)
    ensures
        r == tiled_has_id(win_views(tiled@), id),
{
    let mut i: usize = 0;
    while i < tiled.len()
        invariant
            i <= tiled.len(),
            forall|k: int| 0 <= k < i ==> tiled@[k].id != id,
        decreases tiled.len() - i,
    {
        if tiled[i].id == id {
            assert(win_views(tiled@)[i as int].id == id);
            return true;
        }
        i = i + 1;
    }
    assert(!tiled_has_id(win_views(tiled@), id)) by {
        if tiled_has_id(win_views(tiled@), id) {
            let k = choose|k: int| 0 <= k < win_views(tiled@).len() && win_views(tiled@)[k].id == id;
            assert(tiled@[k].id == id);
        }
    }
    false
}

fn departed_keys(m: &HashMap<i64, (String, i64)>, tiled: &Vec<WinInfo>) -> (r: Vec<i64>)
    ensures
        r@.no_duplicates(),
        r@.to_set() == departed_ids(m@.dom(), win_views(tiled@)),
{
    let mut out: Vec<i64> = Vec::new();
    let ghost keys = m@.dom();
    let ghost tv = win_views(tiled@);
    let keys_it = m.keys();
    let ghost order: Seq<i64> = keys_it.remaining().unref();
    assert(order.to_set() =~= keys);
    assert(order.no_duplicates()) by {
        assert forall|a: int, b: int| 0 <= a < order.len() && 0 <= b < order.len() && a != b implies order[a] != order[b] by {
            assert(keys_it.remaining()[a] != keys_it.remaining()[b]);
        }
    }
    for id in it: keys_it
        invariant
            it.seq().unref() == order,
            order.no_duplicates(),
            order.to_set() == keys,
            tv == win_views(tiled@),
            out@.no_duplicates(),
            forall|x: i64| #[trigger] out@.contains(x) <==> (order.take(it.index() as int).contains(x) && !tiled_has_id(tv, x)),
            it.index() == order.len() ==> out@.to_set() == departed_ids(keys, tv),
    {
        assert(order[it.index() as int] == *id);
        assert(order.take(it.index() + 1) =~= order.take(it.index() as int).push(*id));
        let ghost old_out = out@;
        let ghost idx = it.index() as int;
        assert(!order.take(idx).contains(*id)) by {
            if order.take(idx).contains(*id) {
                let k = choose|k: int| 0 <= k < idx && #[trigger] order.take(idx)[k] == *id;
                assert(order[k] == order[idx]);
            }
        }
        assert(forall|x: i64| #[trigger] old_out.contains(x) <==> (order.take(idx).contains(x) && !tiled_has_id(tv, x)));
        if !has_window(tiled, *id) {
            assert(!out@.contains(*id)) by {
                if out@.contains(*id) {
                    let k = choose|k: int| 0 <= k < it.index() && order[k] == *id;
                    assert(order[it.index() as int] == *id);
                }
            }
            out.push(*id);
        }
        assert forall|x: i64| #[trigger] out@.contains(x) <==> (order.take(it.index() + 1).contains(x) && !tiled_has_id(tv, x)) by {
            assert(out@.contains(x) <==> (old_out.contains(x) || (x == *id && !tiled_has_id(tv, x)))) by {
                if out@.contains(x) && !old_out.contains(x) {
                    let k = choose|k: int| 0 <= k < out@.len() && #[trigger] out@[k] == x;
                    assert(k == old_out.len());
                }
                if old_out.contains(x) {
                    let k = choose|k: int| 0 <= k < old_out.len() && #[trigger] old_out[k] == x;
                    assert(out@[k] == x);
                }
                if x == *id && !tiled_has_id(tv, x) {
                    assert(out@[out@.len() - 1] == x);
                }
            }
            assert(order.take(idx + 1).contains(x) <==> (order.take(idx).contains(x) || x == *id)) by {
                if order.take(idx + 1).contains(x) {
                    let k = choose|k: int| 0 <= k < idx + 1 && #[trigger] order.take(idx + 1)[k] == x;
                    if k < idx {
                        assert(order.take(idx)[k] == x);
                    }
                }
                if x == *id {
                    assert(order.take(idx + 1)[idx] == x);
                }
            }
            if order.take(it.index() as int).contains(x) {
                let k = choose|k: int| 0 <= k < it.index() && #[trigger] order.take(it.index() as int)[k] == x;
                assert(order.take(it.index() + 1)[k] == x);
            }
        }
        assert(it.index() + 1 == order.len() ==> out@.to_set() =~= departed_ids(keys, tv)) by {
            if it.index() + 1 == order.len() {
                assert(order.take(it.index() + 1) =~= order);
            }
        }
    }
    out
}

/// Milliseconds between a focus command and the check that it held.
pub const VERIFY_WAIT_MS: u64 = 2;

/// Rounds of checking that a focus command held.
pub const VERIFY_ROUNDS: u8 = 2;

/// The saved border of `id`, when one is saved.
pub open spec fn saved_style(saved: Map<i64, (Seq<char>, i64)>, id: i64) -> Option<(Seq<char>, i64)> {
    if saved.contains_key(id) {
        Some(saved[id])
    } else {
        None
    }
}

/// The command restoring the border of `id` from the saved borders.
pub open spec fn restore_text(saved: Map<i64, (Seq<char>, i64)>, id: i64) -> Seq<char> {
    border_text(saved_style(saved, id))
}

/// Restores the border and drops the mark of each of `ids`, in order.
pub open spec fn departed_text(ids: Seq<i64>, saved: Map<i64, (Seq<char>, i64)>) -> Seq<char>
    decreases ids.len(),
{
    if ids.len() == 0 {
        Seq::empty()
    } else {
        departed_text(ids.drop_last(), saved) + unmark_text(ids.last(), restore_text(saved, ids.last()))
    }
}

/// The ids of some windows, in order.
pub open spec fn window_ids(ws: Seq<WinView>) -> Seq<i64> {
    ws.map_values(|w: WinView| w.id)
}

/// The ids of the windows that carry the management mark, in order.
pub open spec fn managed_ids(ws: Seq<WinView>) -> Seq<i64>
    decreases ws.len(),
{
    if ws.len() == 0 {
        Seq::empty()
    } else {
        let init = managed_ids(ws.drop_last());
        if ws.last().has_auto_fs() {
            init.push(ws.last().id)
        } else {
            init
        }
    }
}

/// The ids of the managed windows that the user made fullscreen, in order.
pub open spec fn fullscreen_managed_ids(ws: Seq<WinView>) -> Seq<i64>
    decreases ws.len(),
{
    if ws.len() == 0 {
        Seq::empty()
    } else {
        let init = fullscreen_managed_ids(ws.drop_last());
        if ws.last().has_auto_fs() && ws.last().is_fs() {
            init.push(ws.last().id)
        } else {
            init
        }
    }
}

/// The command that turns a workspace tabbed: turn fullscreen off on every
/// managed window that has it, restore and unmark every managed window,
/// undo every window's split, set the tabbed layout.
pub open spec fn transition_text(
    managed: Seq<i64>,
    tiled: Seq<WinView>,
    ws: Seq<char>,
    saved: Map<i64, (Seq<char>, i64)>,
) -> Seq<char> {
    fullscreen_disable_text(fullscreen_managed_ids(tiled)) + departed_text(managed, saved)
        + split_none_text(window_ids(tiled)) + tabbed_text(ws)
}

/// The first window that is not managed.
pub open spec fn first_unmanaged(ws: Seq<WinView>) -> Option<i64>
    decreases ws.len(),
{
    if ws.len() == 0 {
        None
    } else if !ws[0].has_auto_fs() {
        Some(ws[0].id)
    } else {
        first_unmanaged(ws.drop_first())
    }
}

/// The first focused window.
pub open spec fn first_focused_tiled(ws: Seq<WinView>) -> Option<i64>
    decreases ws.len(),
{
    if ws.len() == 0 {
        None
    } else if ws[0].focused {
        Some(ws[0].id)
    } else {
        first_focused_tiled(ws.drop_first())
    }
}

/// Where focus goes after the switch to tabbed: the hinted window, else the
/// first unmanaged window, else the first window.
pub open spec fn transition_focus(s: SnapView, hint: Option<i64>) -> Option<i64> {
    match hint {
        Some(h) => Some(h),
        None => match first_unmanaged(s.tiled) {
            Some(id) => Some(id),
            None => if s.tiled.len() > 0 {
                Some(s.tiled[0].id)
            } else {
                None
            },
        },
    }
}

/// Some window is fullscreen without being managed: the user made it so.
pub open spec fn user_fullscreen(ws: Seq<WinView>) -> bool {
    exists|i: int| 0 <= i < ws.len() && ws[i].is_fs() && !ws[i].has_auto_fs()
}

/// Whether the snapshot calls for the daemon to act even though nothing
/// changed since the last pass.
pub open spec fn needs_action_spec(s: SnapView) -> bool {
    if s.tiled.len() == 0 {
        false
    } else if s.tiled.len() == 1 {
        let w = s.tiled[0];
        if w.is_fs() && !w.has_auto_fs() {
            false
        } else if s.float_n > 0 {
            false
        } else if !w.has_auto_fs() && !w.is_fs() {
            true
        } else {
            w.has_auto_fs() && s.ws_layout != "splith"@
        }
    } else {
        exists|i: int| 0 <= i < s.tiled.len() && s.tiled[i].has_auto_fs()
    }
}

/// The saved borders after saving the border of `w`, unless one is saved.
pub open spec fn save_spec(saved: Map<i64, (Seq<char>, i64)>, w: WinView) -> Map<i64, (Seq<char>, i64)> {
    if saved.contains_key(w.id) {
        saved
    } else {
        saved.insert(w.id, (w.border, w.border_width))
    }
}

/// Where a pass of the policy stands.
pub enum PhaseView {
    Idle,
    AwaitStable { hint: Option<i64> },
    AwaitDeparted { snap: SnapView, hint: Option<i64>, ids: Seq<i64> },
    AwaitVisibility { target: i64, hint: Option<i64> },
    AwaitRefocus { hint: Option<i64> },
    AwaitResnapshot { hint: Option<i64> },
    AwaitSingleRestore { id: i64 },
    AwaitThenPost,
    AwaitTransition { ids: Seq<i64>, focus: Option<i64> },
    AwaitFocusSent { target: i64 },
    AwaitVerifyWait { target: i64, round: nat },
    AwaitVerifySnapshot { target: i64, round: nat },
    AwaitVerifyRefocus { target: i64, round: nat },
    AwaitPost,
}

/// The mathematical value of a `Policy`.
pub struct PolicyView {
    pub prev_focused: Option<i64>,
    pub cur_focused: Option<i64>,
    pub saved_focused: Option<i64>,
    pub floating_fs_active: bool,
    pub last_state: Option<Dp2View>,
    pub saved_borders: Map<i64, (Seq<char>, i64)>,
    pub last_global_focused: Option<i64>,
    pub phase: PhaseView,
}

/// What the policy asks its driver to do.
pub enum ActionView {
    StableSnapshot(Option<i64>),
    Snapshot,
    Command(Seq<char>),
    CheckVisible(i64),
    Wait(nat),
    Done,
}

/// What the driver reports back.
pub enum EventView {
    Snapshot(Option<SnapView>),
    CommandDone(bool),
    Visibility(bool),
    Waited,
}

/// The policy `p` with the saved borders `m`.
pub open spec fn with_saved(p: PolicyView, m: Map<i64, (Seq<char>, i64)>) -> PolicyView {
    PolicyView { saved_borders: m, ..p }
}

/// The policy's phase agrees with itself: the windows whose borders a
/// pass is restoring are not on the snapshot it will go on with.
pub open spec fn consistent(p: PolicyView) -> bool {
    match p.phase {
        PhaseView::AwaitDeparted { snap, ids, .. } => forall|i: int|
            0 <= i < ids.len() ==> !tiled_has_id(snap.tiled, #[trigger] ids[i]),
        _ => true,
    }
}

/// End the pass.
pub open spec fn finish(p: PolicyView) -> (PolicyView, ActionView) {
    (PolicyView { phase: PhaseView::Idle, ..p }, ActionView::Done)
}

/// Read the tree once more and end the pass with the result.
pub open spec fn to_post(p: PolicyView) -> (PolicyView, ActionView) {
    (PolicyView { phase: PhaseView::AwaitPost, ..p }, ActionView::Snapshot)
}

/// Send `cmd` and wait in `phase`.
pub open spec fn send(p: PolicyView, phase: PhaseView, cmd: Seq<char>) -> (PolicyView, ActionView) {
    (PolicyView { phase, ..p }, ActionView::Command(cmd))
}

/// The single-window policy.
pub open spec fn single_step(p: PolicyView, s: SnapView) -> (PolicyView, ActionView) {
    let w = s.tiled[0];
    if w.is_fs() && !w.has_auto_fs() {
        to_post(p)
    } else if s.float_n > 0 {
        if w.has_auto_fs() {
            send(
                p,
                PhaseView::AwaitSingleRestore { id: w.id },
                single_restore_text(w.id, restore_text(p.saved_borders, w.id)),
            )
        } else {
            to_post(p)
        }
    } else if !w.has_auto_fs() {
        send(
            PolicyView { saved_borders: save_spec(p.saved_borders, w), ..p },
            PhaseView::AwaitThenPost,
            monocle_text(w.id, s.ws_name),
        )
    } else if s.ws_layout != "splith"@ {
        send(p, PhaseView::AwaitThenPost, splith_text(s.ws_name))
    } else {
        to_post(p)
    }
}

/// The multi-window policy.
pub open spec fn multi_step(p: PolicyView, s: SnapView, hint: Option<i64>) -> (PolicyView, ActionView) {
    let managed = managed_ids(s.tiled);
    if user_fullscreen(s.tiled) {
        to_post(p)
    } else if managed.len() > 0 {
        send(
            p,
            PhaseView::AwaitTransition {
                ids: managed,
                focus: if s.any_focused {
                    transition_focus(s, hint)
                } else {
                    None
                },
            },
            transition_text(managed, s.tiled, s.ws_name, p.saved_borders),
        )
    } else if s.ws_layout == "tabbed"@ && s.any_focused && hint is Some {
        send(p, PhaseView::AwaitFocusSent { target: hint->0 }, focus_text(hint->0))
    } else {
        to_post(p)
    }
}

/// Apply the policy that fits the number of tiled windows.
pub open spec fn dispatch_step(p: PolicyView, s: SnapView, hint: Option<i64>) -> (PolicyView, ActionView) {
    if s.tiled.len() == 0 {
        to_post(p)
    } else if s.tiled.len() == 1 {
        single_step(p, s)
    } else {
        multi_step(p, s, hint)
    }
}

/// After the borders of departed windows were seen to: track focus, handle
/// floating fullscreen windows, then dispatch.
pub open spec fn after_restore_step(p: PolicyView, s: SnapView, hint: Option<i64>) -> (PolicyView, ActionView) {
    let tf = first_focused_tiled(s.tiled);
    let p1 = PolicyView {
        prev_focused: p.cur_focused,
        cur_focused: if tf is Some {
            tf
        } else {
            p.cur_focused
        },
        ..p
    };
    if s.float_fs > 0 {
        finish(
            PolicyView {
                saved_focused: if !p1.floating_fs_active {
                    p1.last_global_focused
                } else {
                    p1.saved_focused
                },
                floating_fs_active: true,
                last_global_focused: s.global_focused,
                ..p1
            },
        )
    } else if p1.floating_fs_active {
        let p2 = PolicyView { floating_fs_active: false, saved_focused: None, ..p1 };
        match p1.saved_focused {
            Some(id) => (
                PolicyView { phase: PhaseView::AwaitVisibility { target: id, hint }, ..p2 },
                ActionView::CheckVisible(id),
            ),
            None => (PolicyView { phase: PhaseView::AwaitResnapshot { hint }, ..p2 }, ActionView::Snapshot),
        }
    } else {
        dispatch_step(p1, s, hint)
    }
}

/// The hint, kept only when it names a window of this output that the last
/// pass did not see.
pub open spec fn relevant_hint(p: PolicyView, s: SnapView, hint: Option<i64>) -> Option<i64> {
    match hint {
        Some(h) => if tiled_has_id(s.tiled, h) && match p.last_state {
            Some(ls) => !lists_window(ls, h),
            None => true,
        } {
            Some(h)
        } else {
            None
        },
        None => None,
    }
}

/// Nothing changed since the last pass and nothing calls for action.
pub open spec fn unchanged(p: PolicyView, s: SnapView, hint: Option<i64>) -> bool {
    &&& relevant_hint(p, s, hint) is None
    &&& p.last_state == Some(state_of(s))
    &&& !needs_action_spec(s)
}

/// A changed snapshot: remember its state, then restore the borders of the
/// windows `ids` (those with a saved border that left the output, in the
/// order the saved borders were walked).
pub open spec fn changed_step(p: PolicyView, s: SnapView, hint: Option<i64>, ids: Seq<i64>) -> (PolicyView, ActionView) {
    let rel = relevant_hint(p, s, hint);
    let p1 = PolicyView { last_state: Some(state_of(s)), ..p };
    if ids.len() == 0 {
        after_restore_step(p1, s, rel)
    } else {
        send(
            p1,
            PhaseView::AwaitDeparted { snap: s, hint: rel, ids },
            departed_text(ids, p.saved_borders),
        )
    }
}

/// The snapshot that opens a pass arrived.
pub open spec fn stable_step(p: PolicyView, s: SnapView, hint: Option<i64>, post: PolicyView, act: ActionView) -> bool {
    if unchanged(p, s, hint) {
        (post, act) == finish(PolicyView { last_global_focused: s.global_focused, ..p })
    } else {
        exists|ids: Seq<i64>|
            {
                &&& ids.no_duplicates()
                &&& ids.to_set() == departed_ids(p.saved_borders.dom(), s.tiled)
                &&& (post, act) == #[trigger] changed_step(p, s, hint, ids)
            }
    }
}

/// The next round of checking a focus command, if any is left.
pub open spec fn next_round(p: PolicyView, target: i64, round: nat) -> (PolicyView, ActionView) {
    if round + 1 < VERIFY_ROUNDS {
        (
            PolicyView { phase: PhaseView::AwaitVerifyWait { target, round: round + 1 }, ..p },
            ActionView::Wait(VERIFY_WAIT_MS as nat),
        )
    } else {
        to_post(p)
    }
}

/// Forget the saved borders of `ids` when `ok`.
pub open spec fn forget_if(p: PolicyView, ok: bool, ids: Set<i64>) -> PolicyView {
    if ok {
        PolicyView { saved_borders: p.saved_borders.remove_keys(ids), ..p }
    } else {
        p
    }
}

/// One step of a pass: from the policy `p` and what its driver reports,
/// to the policy `post` and the next action. An event that the pass does
/// not wait for ends it.
pub open spec fn pass_step(p: PolicyView, ev: EventView, post: PolicyView, act: ActionView) -> bool {
    match (p.phase, ev) {
        (PhaseView::AwaitStable { hint }, EventView::Snapshot(Some(s))) => stable_step(p, s, hint, post, act),
        (PhaseView::AwaitDeparted { snap, hint, ids }, EventView::CommandDone(ok)) => (post, act)
            == after_restore_step(forget_if(p, ok, ids.to_set()), snap, hint),
        (PhaseView::AwaitVisibility { target, hint }, EventView::Visibility(visible)) => (post, act) == if visible {
            send(p, PhaseView::AwaitRefocus { hint }, focus_text(target))
        } else {
            (PolicyView { phase: PhaseView::AwaitResnapshot { hint }, ..p }, ActionView::Snapshot)
        },
        (PhaseView::AwaitRefocus { hint }, EventView::CommandDone(_)) => (post, act) == (
            PolicyView { phase: PhaseView::AwaitResnapshot { hint }, ..p },
            ActionView::Snapshot,
        ),
        (PhaseView::AwaitResnapshot { hint }, EventView::Snapshot(Some(s))) => (post, act) == dispatch_step(
            PolicyView { last_state: Some(state_of(s)), last_global_focused: s.global_focused, ..p },
            s,
            hint,
        ),
        (PhaseView::AwaitSingleRestore { id }, EventView::CommandDone(ok)) => (post, act) == to_post(
            forget_if(p, ok, set![id]),
        ),
        (PhaseView::AwaitThenPost, EventView::CommandDone(_)) => (post, act) == to_post(p),
        (PhaseView::AwaitTransition { ids, focus }, EventView::CommandDone(ok)) => (post, act) == match focus {
            Some(fid) => send(
                forget_if(p, ok, ids.to_set()),
                PhaseView::AwaitFocusSent { target: fid },
                focus_text(fid),
            ),
            None => to_post(forget_if(p, ok, ids.to_set())),
        },
        (PhaseView::AwaitFocusSent { target }, EventView::CommandDone(_)) => (post, act) == (
            PolicyView { phase: PhaseView::AwaitVerifyWait { target, round: 0 }, ..p },
            ActionView::Wait(VERIFY_WAIT_MS as nat),
        ),
        (PhaseView::AwaitVerifyWait { target, round }, EventView::Waited) => (post, act) == (
            PolicyView { phase: PhaseView::AwaitVerifySnapshot { target, round }, ..p },
            ActionView::Snapshot,
        ),
        (PhaseView::AwaitVerifySnapshot { target, round }, EventView::Snapshot(None)) => (post, act)
            == next_round(p, target, round),
        (PhaseView::AwaitVerifySnapshot { target, round }, EventView::Snapshot(Some(s))) => (post, act)
            == if !s.any_focused || first_focused_tiled(s.tiled) == Some(target) {
            to_post(p)
        } else {
            send(p, PhaseView::AwaitVerifyRefocus { target, round }, focus_text(target))
        },
        (PhaseView::AwaitVerifyRefocus { target, round }, EventView::CommandDone(_)) => (post, act)
            == next_round(p, target, round),
        (PhaseView::AwaitPost, EventView::Snapshot(Some(s))) => (post, act) == finish(
            PolicyView { last_state: Some(state_of(s)), last_global_focused: s.global_focused, ..p },
        ),
        _ => (post, act) == finish(p),
    }
}

/// Where a pass stands; see `PhaseView`.
enum Phase {
    Idle,
    AwaitStable(Option<i64>),
    AwaitDeparted(Snapshot, Option<i64>, Vec<i64>),
    AwaitVisibility(i64, Option<i64>),
    AwaitRefocus(Option<i64>),
    AwaitResnapshot(Option<i64>),
    AwaitSingleRestore(i64),
    AwaitThenPost,
    AwaitTransition(Vec<i64>, Option<i64>),
    AwaitFocusSent(i64),
    AwaitVerifyWait(i64, u8),
    AwaitVerifySnapshot(i64, u8),
    AwaitVerifyRefocus(i64, u8),
    AwaitPost,
}

impl View for Phase {
    type V = PhaseView;

    closed spec fn view(&self) -> PhaseView {
        match self {
            Phase::Idle => PhaseView::Idle,
            Phase::AwaitStable(h) => PhaseView::AwaitStable { hint: *h },
            Phase::AwaitDeparted(s, h, ids) => PhaseView::AwaitDeparted { snap: s@, hint: *h, ids: ids@ },
            Phase::AwaitVisibility(t, h) => PhaseView::AwaitVisibility { target: *t, hint: *h },
            Phase::AwaitRefocus(h) => PhaseView::AwaitRefocus { hint: *h },
            Phase::AwaitResnapshot(h) => PhaseView::AwaitResnapshot { hint: *h },
            Phase::AwaitSingleRestore(id) => PhaseView::AwaitSingleRestore { id: *id },
            Phase::AwaitThenPost => PhaseView::AwaitThenPost,
            Phase::AwaitTransition(ids, t) => PhaseView::AwaitTransition { ids: ids@, focus: *t },
            Phase::AwaitFocusSent(t) => PhaseView::AwaitFocusSent { target: *t },
            Phase::AwaitVerifyWait(t, r) => PhaseView::AwaitVerifyWait { target: *t, round: *r as nat },
            Phase::AwaitVerifySnapshot(t, r) => PhaseView::AwaitVerifySnapshot { target: *t, round: *r as nat },
            Phase::AwaitVerifyRefocus(t, r) => PhaseView::AwaitVerifyRefocus { target: *t, round: *r as nat },
            Phase::AwaitPost => PhaseView::AwaitPost,
        }
    }
}

/// What the policy asks its driver to do next.
pub enum PolicyAction {
    /// Read a settled snapshot of the output (waiting for the window, when
    /// one is given) and report it with `PolicyEvent::Snapshot`.
    StableSnapshot(Option<i64>),
    /// Read one snapshot and report it with `PolicyEvent::Snapshot`.
    Snapshot,
    /// Send this command to sway and report with `PolicyEvent::CommandDone`
    /// whether it was delivered.
    Command(String),
    /// Find out whether the container is on a visible workspace and report
    /// with `PolicyEvent::Visibility`.
    CheckVisible(i64),
    /// Wait this many milliseconds and report with `PolicyEvent::Waited`.
    Wait(u64),
    /// The pass is over.
    Done,
}

/// What the driver reports after doing what the policy asked.
pub enum PolicyEvent {
    Snapshot(Option<Snapshot>),
    CommandDone(bool),
    Visibility(bool),
    Waited,
}

impl View for PolicyAction {
    type V = ActionView;

    open spec fn view(&self) -> ActionView {
        match self {
            PolicyAction::StableSnapshot(h) => ActionView::StableSnapshot(*h),
            PolicyAction::Snapshot => ActionView::Snapshot,
            PolicyAction::Command(c) => ActionView::Command(c@),
            PolicyAction::CheckVisible(id) => ActionView::CheckVisible(*id),
            PolicyAction::Wait(ms) => ActionView::Wait(*ms as nat),
            PolicyAction::Done => ActionView::Done,
        }
    }
}

impl View for PolicyEvent {
    type V = EventView;

    open spec fn view(&self) -> EventView {
        match self {
            PolicyEvent::Snapshot(s) => EventView::Snapshot(opt_snap_view(*s)),
            PolicyEvent::CommandDone(ok) => EventView::CommandDone(*ok),
            PolicyEvent::Visibility(v) => EventView::Visibility(*v),
            PolicyEvent::Waited => EventView::Waited,
        }
    }
}

/// The monitor-mode policy: what it remembers between passes over the
/// managed output, and where the current pass stands.
pub struct Policy {
    prev_focused: Option<i64>,
    cur_focused: Option<i64>,
    saved_focused: Option<i64>,
    floating_fs_active: bool,
    last_state: Option<Dp2State>,
    saved_borders: HashMap<i64, (String, i64)>,
    last_global_focused: Option<i64>,
    phase: Phase,
}

impl View for Policy {
    type V = PolicyView;

    closed spec fn view(&self) -> PolicyView {
        PolicyView {
            prev_focused: self.prev_focused,
            cur_focused: self.cur_focused,
            saved_focused: self.saved_focused,
            floating_fs_active: self.floating_fs_active,
            last_state: match self.last_state {
                Some(s) => Some(s@),
                None => None,
            },
            saved_borders: saved_view(self.saved_borders@),
            last_global_focused: self.last_global_focused,
            phase: self.phase@,
        }
    }
}

/// A policy that has seen nothing yet.
pub open spec fn initial_policy() -> PolicyView {
    PolicyView {
        prev_focused: None,
        cur_focused: None,
        saved_focused: None,
        floating_fs_active: false,
        last_state: None,
        saved_borders: Map::empty(),
        last_global_focused: None,
        phase: PhaseView::Idle,
    }
}

impl Policy {
    /// A policy that has seen nothing yet.
    pub fn new() -> (r: Policy)
        ensures
            r@ == initial_policy(),
    {
        let r = Policy {
            prev_focused: None,
            cur_focused: None,
            saved_focused: None,
            floating_fs_active: false,
            last_state: None,
            saved_borders: HashMap::new(),
            last_global_focused: None,
            phase: Phase::Idle,
        };
        assert(r@.saved_borders =~= Map::empty());
        r
    }

    /// Whether the snapshot calls for action even when nothing changed.
    pub fn needs_action(&self, snap: &Snapshot) -> (r: bool)
        ensures
            r == needs_action_spec(snap@),
    {
        let n: usize = snap.tiled.len();
        if n == 0 {
            return false;
        }
        if n == 1 {
            let w = &snap.tiled[0];
            let auto = w.has_auto_fs();
            let fs = w.is_fs();
            if fs && !auto {
                return false;
            }
            if snap.float_n > 0 {
                return false;
            }
            if !auto && !fs {
                return true;
            }
            if auto && !str_eq(snap.ws_layout.as_str(), "splith") {
                return true;
            }
            return false;
        }
        let mut i: usize = 0;
        while i < n
            invariant
                i <= n,
                n == snap.tiled.len(),
                n >= 2,
                forall|j: int| 0 <= j < i ==> !snap@.tiled[j].has_auto_fs(),
            decreases n - i,
        {
            if snap.tiled[i].has_auto_fs() {
                assert(snap@.tiled[i as int].has_auto_fs());
                return true;
            }
            i = i + 1;
        }
        false
    }

    /// Remembers the border of `w`, unless one is remembered already.
    pub fn save_border(&mut self, w: &WinInfo)
        ensures
            final(self)@ == with_saved(old(self)@, save_spec(old(self)@.saved_borders, w@)),
    {
        if !self.saved_borders.contains_key(&w.id) {
            self.saved_borders.insert(w.id, (w.border.clone(), w.border_width));
            assert(self@.saved_borders =~= old(self)@.saved_borders.insert(w.id, (w@.border, w@.border_width)));
        }
    }

    /// The command that restores the remembered border of `id`.
    pub fn border_restore_cmd(&self, id: i64) -> (r: String)
        ensures
            r@ == restore_text(self@.saved_borders, id),
    {
        match self.saved_borders.get(&id) {
            Some(saved) => border_command(saved.0.as_str(), saved.1),
            None => default_border_command(),
        }
    }

    /// Forgets the remembered border of `id`.
    pub fn clear_saved_border(&mut self, id: i64)
        ensures
            final(self)@ == with_saved(old(self)@, old(self)@.saved_borders.remove(id)),
    {
        self.saved_borders.remove(&id);
        assert(self@.saved_borders =~= old(self)@.saved_borders.remove(id));
    }
}

fn managed_window_ids(tiled: &Vec<WinInfo>) -> (r: Vec<i64>)
    ensures
        r@ == managed_ids(win_views(tiled@)),
{
    let mut out: Vec<i64> = Vec::new();
    let mut i: usize = 0;
    while i < tiled.len()
        invariant
            i <= tiled.len(),
            out@ == managed_ids(win_views(tiled@).take(i as int)),
        decreases tiled.len() - i,
    {
        assert(win_views(tiled@).take(i + 1).drop_last() =~= win_views(tiled@).take(i as int));
        if tiled[i].has_auto_fs() {
            out.push(tiled[i].id);
        }
        i = i + 1;
    }
    assert(win_views(tiled@).take(tiled.len() as int) =~= win_views(tiled@));
    out
}

fn has_user_fullscreen(tiled: &Vec<WinInfo>) -> (r: bool)
    ensures
        r == user_fullscreen(win_views(tiled@)),
{
    let mut i: usize = 0;
    while i < tiled.len()
        invariant
            i <= tiled.len(),
            forall|j: int| 0 <= j < i ==> !(win_views(tiled@)[j].is_fs() && !win_views(tiled@)[j].has_auto_fs()),
        decreases tiled.len() - i,
    {
        if tiled[i].is_fs() && !tiled[i].has_auto_fs() {
            assert(win_views(tiled@)[i as int].is_fs() && !win_views(tiled@)[i as int].has_auto_fs());
            return true;
        }
        i = i + 1;
    }
    false
}

fn first_unmanaged_id(tiled: &Vec<WinInfo>) -> (r: Option<i64>)
    ensures
        r == first_unmanaged(win_views(tiled@)),
{
    let ghost ws = win_views(tiled@);
    let mut i: usize = 0;
    assert(ws.skip(0) =~= ws);
    while i < tiled.len()
        invariant
            i <= tiled.len(),
            ws == win_views(tiled@),
            first_unmanaged(ws) == first_unmanaged(ws.skip(i as int)),
        decreases tiled.len() - i,
    {
        assert(ws.skip(i as int)[0] == ws[i as int]);
        assert(ws.skip(i as int).drop_first() =~= ws.skip(i + 1));
        if !tiled[i].has_auto_fs() {
            return Some(tiled[i].id);
        }
        i = i + 1;
    }
    assert(ws.skip(tiled.len() as int) =~= Seq::<WinView>::empty());
    None
}

fn first_focused_id(tiled: &Vec<WinInfo>) -> (r: Option<i64>)
    ensures
        r == first_focused_tiled(win_views(tiled@)),
{
    let ghost ws = win_views(tiled@);
    let mut i: usize = 0;
    assert(ws.skip(0) =~= ws);
    while i < tiled.len()
        invariant
            i <= tiled.len(),
            ws == win_views(tiled@),
            first_focused_tiled(ws) == first_focused_tiled(ws.skip(i as int)),
        decreases tiled.len() - i,
    {
        assert(ws.skip(i as int)[0] == ws[i as int]);
        assert(ws.skip(i as int).drop_first() =~= ws.skip(i + 1));
        if tiled[i].focused {
            return Some(tiled[i].id);
        }
        i = i + 1;
    }
    assert(ws.skip(tiled.len() as int) =~= Seq::<WinView>::empty());
    None
}

proof fn lemma_take_to_set(s: Seq<i64>, i: int)
    requires
        0 <= i < s.len(),
    ensures
        s.take(i + 1).to_set() == s.take(i).to_set().insert(s[i]),
{
    assert forall|a: i64| s.take(i + 1).to_set().contains(a) <==> s.take(i).to_set().insert(s[i]).contains(a) by {
        if s.take(i + 1).contains(a) {
            let k = choose|k: int| 0 <= k < i + 1 && #[trigger] s.take(i + 1)[k] == a;
            if k < i {
                assert(s.take(i)[k] == a);
            }
        }
        if s.take(i).contains(a) {
            let k = choose|k: int| 0 <= k < i && #[trigger] s.take(i)[k] == a;
            assert(s.take(i + 1)[k] == a);
        }
        if a == s[i] {
            assert(s.take(i + 1)[i] == a);
        }
    }
    assert(s.take(i + 1).to_set() =~= s.take(i).to_set().insert(s[i]));
}

/// The policy `p` waiting in `phase`.
pub open spec fn in_phase(p: PolicyView, phase: PhaseView) -> PolicyView {
    PolicyView { phase, ..p }
}

proof fn lemma_steps_ignore_phase(p: PolicyView, s: SnapView, hint: Option<i64>, ph: PhaseView)
    ensures
        after_restore_step(in_phase(p, ph), s, hint) == after_restore_step(p, s, hint),
        dispatch_step(in_phase(p, ph), s, hint) == dispatch_step(p, s, hint),
        finish(in_phase(p, ph)) == finish(p),
        to_post(in_phase(p, ph)) == to_post(p),
{
}

proof fn lemma_stable_ignores_phase(
    p: PolicyView,
    s: SnapView,
    hint: Option<i64>,
    ph: PhaseView,
    post: PolicyView,
    act: ActionView,
)
    requires
        stable_step(in_phase(p, ph), s, hint, post, act),
    ensures
        stable_step(p, s, hint, post, act),
{
    if !unchanged(p, s, hint) {
        let ids = choose|ids: Seq<i64>|
            {
                &&& ids.no_duplicates()
                &&& ids.to_set() == departed_ids(in_phase(p, ph).saved_borders.dom(), s.tiled)
                &&& (post, act) == #[trigger] changed_step(in_phase(p, ph), s, hint, ids)
            };
        let p1 = PolicyView { last_state: Some(state_of(s)), ..p };
        lemma_steps_ignore_phase(p1, s, relevant_hint(p, s, hint), ph);
        assert(changed_step(in_phase(p, ph), s, hint, ids) == changed_step(p, s, hint, ids));
    }
}

impl Policy {
    fn finish_pass(&mut self) -> (a: PolicyAction)
        ensures
            (final(self)@, a@) == finish(old(self)@),
    {
        self.phase = Phase::Idle;
        PolicyAction::Done
    }

    fn enter_post(&mut self) -> (a: PolicyAction)
        ensures
            (final(self)@, a@) == to_post(old(self)@),
    {
        self.phase = Phase::AwaitPost;
        PolicyAction::Snapshot
    }

    fn send_in(&mut self, phase: Phase, cmd: String) -> (a: PolicyAction)
        ensures
            (final(self)@, a@) == send(old(self)@, phase@, cmd@),
    {
        self.phase = phase;
        PolicyAction::Command(cmd)
    }

    /// Appends the restore-and-unmark text of each of `ids` to `cmd`.
    fn push_unmark_all(&self, ids: &Vec<i64>, cmd: &mut String)
        ensures
            final(cmd)@ == old(cmd)@ + departed_text(ids@, self@.saved_borders),
    {
        let ghost start = cmd@;
        let mut i: usize = 0;
        while i < ids.len()
            invariant
                i <= ids.len(),
                cmd@ == start + departed_text(ids@.take(i as int), self@.saved_borders),
            decreases ids.len() - i,
        {
            assert(ids@.take(i + 1).drop_last() =~= ids@.take(i as int));
            let restore = self.border_restore_cmd(ids[i]);
            push_unmark(cmd, ids[i], restore.as_str());
            assert(cmd@ =~= start + departed_text(ids@.take(i + 1), self@.saved_borders));
            i = i + 1;
        }
        assert(ids@.take(ids.len() as int) =~= ids@);
    }

    fn handle_single(&mut self, snap: &Snapshot) -> (a: PolicyAction)
        requires
            snap.tiled.len() == 1,
        ensures
            (final(self)@, a@) == single_step(old(self)@, snap@),
    {
        let w = &snap.tiled[0];
        let auto = w.has_auto_fs();
        if w.is_fs() && !auto {
            return self.enter_post();
        }
        if snap.float_n > 0 {
            if auto {
                let restore = self.border_restore_cmd(w.id);
                let cmd = single_restore_command(w.id, restore.as_str());
                return self.send_in(Phase::AwaitSingleRestore(w.id), cmd);
            }
            return self.enter_post();
        }
        if !auto {
            self.save_border(w);
            let cmd = monocle_command(w.id, snap.ws_name.as_str());
            return self.send_in(Phase::AwaitThenPost, cmd);
        }
        if !str_eq(snap.ws_layout.as_str(), "splith") {
            let cmd = splith_command(snap.ws_name.as_str());
            return self.send_in(Phase::AwaitThenPost, cmd);
        }
        self.enter_post()
    }

    fn handle_multi(&mut self, snap: &Snapshot, hint: Option<i64>) -> (a: PolicyAction)
        requires
            snap.tiled.len() >= 2,
        ensures
            (final(self)@, a@) == multi_step(old(self)@, snap@, hint),
    {
        if has_user_fullscreen(&snap.tiled) {
            return self.enter_post();
        }
        let managed = managed_window_ids(&snap.tiled);
        if managed.len() > 0 {
            let ghost tv = win_views(snap.tiled@);
            let mut cmd = String::new();
            let mut j: usize = 0;
            while j < snap.tiled.len()
                invariant
                    j <= snap.tiled.len(),
                    tv == win_views(snap.tiled@),
                    cmd@ == fullscreen_disable_text(fullscreen_managed_ids(tv.take(j as int))),
                decreases snap.tiled.len() - j,
            {
                assert(tv.take(j + 1).drop_last() =~= tv.take(j as int));
                assert(tv.take(j + 1).last() == snap.tiled@[j as int]@);
                let ghost prev = fullscreen_managed_ids(tv.take(j as int));
                if snap.tiled[j].has_auto_fs() && snap.tiled[j].is_fs() {
                    push_fullscreen_disable(&mut cmd, snap.tiled[j].id);
                    assert(fullscreen_managed_ids(tv.take(j + 1)) == prev.push(snap.tiled@[j as int].id));
                    assert(prev.push(snap.tiled@[j as int].id).drop_last() =~= prev);
                } else {
                    assert(fullscreen_managed_ids(tv.take(j + 1)) == prev);
                }
                j = j + 1;
            }
            assert(tv.take(snap.tiled.len() as int) =~= tv);
            self.push_unmark_all(&managed, &mut cmd);
            let ghost ids_text = cmd@;
            let mut i: usize = 0;
            while i < snap.tiled.len()
                invariant
                    i <= snap.tiled.len(),
                    tv == win_views(snap.tiled@),
                    cmd@ == ids_text + split_none_text(window_ids(tv).take(i as int)),
                decreases snap.tiled.len() - i,
            {
                assert(window_ids(tv).take(i + 1).drop_last() =~= window_ids(tv).take(i as int));
                push_split_none(&mut cmd, snap.tiled[i].id);
                i = i + 1;
            }
            assert(window_ids(tv).take(snap.tiled.len() as int) =~= window_ids(tv));
            push_tabbed(&mut cmd, snap.ws_name.as_str());
            let focus = if snap.any_focused {
                match hint {
                    Some(h) => Some(h),
                    None => match first_unmanaged_id(&snap.tiled) {
                        Some(id) => Some(id),
                        None => Some(snap.tiled[0].id),
                    },
                }
            } else {
                None
            };
            assert(cmd@ =~= transition_text(managed@, tv, snap@.ws_name, self@.saved_borders));
            return self.send_in(Phase::AwaitTransition(managed, focus), cmd);
        }
        if str_eq(snap.ws_layout.as_str(), "tabbed") && snap.any_focused {
            match hint {
                Some(fid) => {
                    let cmd = focus_command(fid);
                    return self.send_in(Phase::AwaitFocusSent(fid), cmd);
                },
                None => {},
            }
        }
        self.enter_post()
    }

    fn dispatch(&mut self, snap: &Snapshot, hint: Option<i64>) -> (a: PolicyAction)
        ensures
            (final(self)@, a@) == dispatch_step(old(self)@, snap@, hint),
    {
        let n: usize = snap.tiled.len();
        if n == 0 {
            self.enter_post()
        } else if n == 1 {
            self.handle_single(snap)
        } else {
            self.handle_multi(snap, hint)
        }
    }

    fn after_restore(&mut self, snap: &Snapshot, hint: Option<i64>) -> (a: PolicyAction)
        ensures
            (final(self)@, a@) == after_restore_step(old(self)@, snap@, hint),
    {
        let tree_focus = first_focused_id(&snap.tiled);
        self.prev_focused = self.cur_focused;
        if tree_focus.is_some() {
            self.cur_focused = tree_focus;
        }
        if snap.float_fs > 0 {
            if !self.floating_fs_active {
                self.saved_focused = self.last_global_focused;
                self.floating_fs_active = true;
            }
            self.last_global_focused = snap.global_focused;
            return self.finish_pass();
        }
        if self.floating_fs_active {
            self.floating_fs_active = false;
            let saved = self.saved_focused;
            self.saved_focused = None;
            match saved {
                Some(id) => {
                    self.phase = Phase::AwaitVisibility(id, hint);
                    return PolicyAction::CheckVisible(id);
                },
                None => {
                    self.phase = Phase::AwaitResnapshot(hint);
                    return PolicyAction::Snapshot;
                },
            }
        }
        self.dispatch(snap, hint)
    }

    fn relevant_hint_of(&self, snap: &Snapshot, hint: Option<i64>) -> (r: Option<i64>)
        ensures
            r == relevant_hint(self@, snap@, hint),
    {
        match hint {
            Some(h) => {
                let on_output = has_window(&snap.tiled, h);
                let is_new_arrival = match &self.last_state {
                    Some(ls) => !ls.contains_window(h),
                    None => true,
                };
                if on_output && is_new_arrival {
                    Some(h)
                } else {
                    None
                }
            },
            None => None,
        }
    }

    fn on_stable(&mut self, snap: Snapshot, hint: Option<i64>) -> (a: PolicyAction)
        ensures
            stable_step(old(self)@, snap@, hint, final(self)@, a@),
    {
        let relevant = self.relevant_hint_of(&snap, hint);
        let current_state = Dp2State::from_snapshot(&snap);
        if relevant.is_none() {
            let same = match &self.last_state {
                Some(last) => last.same_as(&current_state),
                None => false,
            };
            if same && !self.needs_action(&snap) {
                self.last_global_focused = snap.global_focused;
                return self.finish_pass();
            }
        }
        self.last_state = Some(current_state);
        let departed = departed_keys(&self.saved_borders, &snap.tiled);
        assert(saved_view(self.saved_borders@).dom() =~= self.saved_borders@.dom());
        assert(!unchanged(old(self)@, snap@, hint));
        proof {
            if departed@.len() == 0 {
                assert(departed@.to_set() =~= Set::<i64>::empty());
            }
        }
        if departed.len() == 0 {
            let a = self.after_restore(&snap, relevant);
            assert((self@, a@) == changed_step(old(self)@, snap@, hint, departed@));
            return a;
        }
        let mut cmd = String::new();
        self.push_unmark_all(&departed, &mut cmd);
        let ghost ids = departed@;
        let a = self.send_in(Phase::AwaitDeparted(snap, relevant, departed), cmd);
        assert((self@, a@) == changed_step(old(self)@, snap@, hint, ids));
        a
    }

    /// Begins a pass, with the container the triggering events named when
    /// they named one.
    pub fn start(&mut self, hint: Option<i64>) -> (a: PolicyAction)
        ensures
            final(self)@ == in_phase(old(self)@, PhaseView::AwaitStable { hint }),
            a@ == ActionView::StableSnapshot(hint),
    {
        self.phase = Phase::AwaitStable(hint);
        PolicyAction::StableSnapshot(hint)
    }

    /// Takes the pass one step further with what the driver reports.
    pub fn resume(&mut self, event: PolicyEvent) -> (a: PolicyAction)
        ensures
            pass_step(old(self)@, event@, final(self)@, a@),
    {
        let mut phase = Phase::Idle;
        std::mem::swap(&mut phase, &mut self.phase);
        let ghost p = old(self)@;
        assert(self@ == in_phase(p, PhaseView::Idle));
        match phase {
            Phase::AwaitStable(hint) => match event {
                PolicyEvent::Snapshot(Some(s)) => {
                    let ghost sv = s@;
                    let a = self.on_stable(s, hint);
                    proof {
                        lemma_stable_ignores_phase(p, sv, hint, PhaseView::Idle, self@, a@);
                    }
                    a
                },
                _ => self.finish_pass(),
            },
            Phase::AwaitDeparted(snap, hint, ids) => match event {
                PolicyEvent::CommandDone(ok) => {
                    if ok {
                        assert(p.saved_borders.remove_keys(ids@.take(0).to_set()) =~= p.saved_borders);
                        let mut i: usize = 0;
                        while i < ids.len()
                            invariant
                                i <= ids.len(),
                                self@ == with_saved(in_phase(p, PhaseView::Idle), p.saved_borders.remove_keys(ids@.take(i as int).to_set())),
                            decreases ids.len() - i,
                        {
                            self.clear_saved_border(ids[i]);
                            proof {
                                lemma_take_to_set(ids@, i as int);
                            }
                            assert(self@.saved_borders =~= p.saved_borders.remove_keys(ids@.take(i + 1).to_set()));
                            i = i + 1;
                        }
                        assert(ids@.take(ids.len() as int) =~= ids@);
                    }
                    proof {
                        lemma_steps_ignore_phase(forget_if(p, ok, ids@.to_set()), snap@, hint, PhaseView::Idle);
                    }
                    self.after_restore(&snap, hint)
                },
                _ => self.finish_pass(),
            },
            Phase::AwaitVisibility(target, hint) => match event {
                PolicyEvent::Visibility(visible) => {
                    if visible {
                        self.send_in(Phase::AwaitRefocus(hint), focus_command(target))
                    } else {
                        self.phase = Phase::AwaitResnapshot(hint);
                        PolicyAction::Snapshot
                    }
                },
                _ => self.finish_pass(),
            },
            Phase::AwaitRefocus(hint) => match event {
                PolicyEvent::CommandDone(_) => {
                    self.phase = Phase::AwaitResnapshot(hint);
                    PolicyAction::Snapshot
                },
                _ => self.finish_pass(),
            },
            Phase::AwaitResnapshot(hint) => match event {
                PolicyEvent::Snapshot(Some(s)) => {
                    self.last_state = Some(Dp2State::from_snapshot(&s));
                    self.last_global_focused = s.global_focused;
                    self.dispatch(&s, hint)
                },
                _ => self.finish_pass(),
            },
            Phase::AwaitSingleRestore(id) => match event {
                PolicyEvent::CommandDone(ok) => {
                    if ok {
                        self.clear_saved_border(id);
                        assert(set![id] =~= Set::<i64>::empty().insert(id));
                        assert(self@.saved_borders =~= p.saved_borders.remove_keys(set![id]));
                    }
                    self.enter_post()
                },
                _ => self.finish_pass(),
            },
            Phase::AwaitThenPost => match event {
                PolicyEvent::CommandDone(_) => self.enter_post(),
                _ => self.finish_pass(),
            },
            Phase::AwaitTransition(ids, focus) => match event {
                PolicyEvent::CommandDone(ok) => {
                    if ok {
                        assert(p.saved_borders.remove_keys(ids@.take(0).to_set()) =~= p.saved_borders);
                        let mut i: usize = 0;
                        while i < ids.len()
                            invariant
                                i <= ids.len(),
                                self@ == with_saved(in_phase(p, PhaseView::Idle), p.saved_borders.remove_keys(ids@.take(i as int).to_set())),
                            decreases ids.len() - i,
                        {
                            self.clear_saved_border(ids[i]);
                            proof {
                                lemma_take_to_set(ids@, i as int);
                            }
                            assert(self@.saved_borders =~= p.saved_borders.remove_keys(ids@.take(i + 1).to_set()));
                            i = i + 1;
                        }
                        assert(ids@.take(ids.len() as int) =~= ids@);
                    }
                    match focus {
                        Some(fid) => self.send_in(Phase::AwaitFocusSent(fid), focus_command(fid)),
                        None => self.enter_post(),
                    }
                },
                _ => self.finish_pass(),
            },
            Phase::AwaitFocusSent(target) => match event {
                PolicyEvent::CommandDone(_) => {
                    self.phase = Phase::AwaitVerifyWait(target, 0);
                    PolicyAction::Wait(VERIFY_WAIT_MS)
                },
                _ => self.finish_pass(),
            },
            Phase::AwaitVerifyWait(target, round) => match event {
                PolicyEvent::Waited => {
                    self.phase = Phase::AwaitVerifySnapshot(target, round);
                    PolicyAction::Snapshot
                },
                _ => self.finish_pass(),
            },
            Phase::AwaitVerifySnapshot(target, round) => match event {
                PolicyEvent::Snapshot(None) => self.next_round(target, round),
                PolicyEvent::Snapshot(Some(s)) => {
                    if !s.any_focused {
                        return self.enter_post();
                    }
                    let actual = first_focused_id(&s.tiled);
                    if actual == Some(target) {
                        return self.enter_post();
                    }
                    self.send_in(Phase::AwaitVerifyRefocus(target, round), focus_command(target))
                },
                _ => self.finish_pass(),
            },
            Phase::AwaitVerifyRefocus(target, round) => match event {
                PolicyEvent::CommandDone(_) => self.next_round(target, round),
                _ => self.finish_pass(),
            },
            Phase::AwaitPost => match event {
                PolicyEvent::Snapshot(Some(s)) => {
                    self.last_state = Some(Dp2State::from_snapshot(&s));
                    self.last_global_focused = s.global_focused;
                    self.finish_pass()
                },
                _ => self.finish_pass(),
            },
            Phase::Idle => self.finish_pass(),
        }
    }

    fn next_round(&mut self, target: i64, round: u8) -> (a: PolicyAction)
        ensures
            (final(self)@, a@) == next_round(old(self)@, target, round as nat),
    {
        if round < VERIFY_ROUNDS - 1 {
            self.phase = Phase::AwaitVerifyWait(target, round + 1);
            PolicyAction::Wait(VERIFY_WAIT_MS)
        } else {
            self.enter_post()
        }
    }
}

} // verus!
