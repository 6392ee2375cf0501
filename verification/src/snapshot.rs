//! Reading the managed output's state out of the tree, the visibility
//! test, and the wait for a settled tree.
use vstd::prelude::*;
use crate::text::{str_eq, str_starts_with};
use crate::tree::{
    collect_tiled, contains_con_id, count_floating, find_focused_window, floating_counts, focused_window,
    has_focus, has_focused_descendant, holds_con, opt_snap_view, tiled_children, tiled_in, win_views,
    SnapView, Snapshot, SwayNode, WinInfo, WinView,
};

verus! {

/// `"workspace"`, the `type` of a workspace node.
pub open spec fn workspace_kind() -> Seq<char> {
    seq!['w', 'o', 'r', 'k', 's', 'p', 'a', 'c', 'e']
}

/// `"unknown"`, the layout assumed when a workspace reports none.
pub open spec fn unknown_layout() -> Seq<char> {
    seq!['u', 'n', 'k', 'n', 'o', 'w', 'n']
}

/// `"__"`, the name prefix of sway's internal outputs.
pub open spec fn internal_prefix() -> Seq<char> {
    seq!['_', '_']
}

/// The node is named `name`.
pub open spec fn named(n: SwayNode, name: Seq<char>) -> bool {
    n.name is Some && n.name->0@ == name
}

/// The node is the workspace with id `id`.
pub open spec fn is_workspace_with_id(n: SwayNode, id: i64) -> bool {
    n.id == Some(id) && n.node_type is Some && n.node_type->0@ == workspace_kind()
}

/// The first node of `s` named `name`.
pub open spec fn output_named(s: Seq<SwayNode>, name: Seq<char>) -> Option<SwayNode>
    decreases s.len(),
{
    if s.len() == 0 {
        None
    } else if named(s[0], name) {
        Some(s[0])
    } else {
        output_named(s.drop_first(), name)
    }
}

/// The first workspace of `s` with id `id`.
pub open spec fn workspace_with_id(s: Seq<SwayNode>, id: i64) -> Option<SwayNode>
    decreases s.len(),
{
    if s.len() == 0 {
        None
    } else if is_workspace_with_id(s[0], id) {
        Some(s[0])
    } else {
        workspace_with_id(s.drop_first(), id)
    }
}

/// The first entry of an output's `focus` list, when it is an integer: the
/// id of the workspace it shows.
pub open spec fn focused_child(out: SwayNode) -> Option<i64> {
    match out.focus {
        Some(v) => if v@.len() > 0 { v@[0] } else { None },
        None => None,
    }
}

/// The workspace an output shows: its child workspace whose id is the
/// first entry of its `focus` list.
pub open spec fn shown_workspace(out: SwayNode) -> Option<SwayNode> {
    match focused_child(out) {
        Some(fid) => match out.nodes {
            Some(v) => workspace_with_id(v@, fid),
            None => None,
        },
        None => None,
    }
}

/// The snapshot of output `target` in `tree`: `None` unless the tree has an
/// output of that name showing a named workspace.
pub open spec fn snapshot_of(tree: SwayNode, target: Seq<char>) -> Option<SnapView> {
    match tree.nodes {
        None => None,
        Some(outs) => match output_named(outs@, target) {
            None => None,
            Some(out) => match shown_workspace(out) {
                None => None,
                Some(ws) => match ws.name {
                    None => None,
                    Some(name) => Some(
                        SnapView {
                            ws_name: name@,
                            ws_layout: match ws.layout {
                                Some(l) => l@,
                                None => unknown_layout(),
                            },
                            tiled: tiled_in(tiled_children(ws)),
                            float_n: floating_counts(ws).0,
                            float_fs: floating_counts(ws).1,
                            any_focused: has_focus(ws),
                            global_focused: focused_window(tree),
                        },
                    ),
                },
            },
        },
    }
}

fn find_output(outs: &Vec<SwayNode>, target: &str) -> (r: Option<usize>)
    ensures
        match r {
            Some(i) => i < outs@.len() && output_named(outs@, target@) == Some(outs@[i as int]),
            None => output_named(outs@, target@) is None,
        },
{
    let mut i: usize = 0;
    assert(outs@.skip(0) =~= outs@);
    while i < outs.len()
        invariant
            i <= outs.len(),
            output_named(outs@, target@) == output_named(outs@.skip(i as int), target@),
        decreases outs.len() - i,
    {
        assert(outs@.skip(i as int)[0] == outs@[i as int]);
        assert(outs@.skip(i as int).drop_first() =~= outs@.skip(i + 1));
        match &outs[i].name {
            Some(n) => {
                if str_eq(n.as_str(), target) {
                    return Some(i);
                }
            },
            None => {},
        }
        i = i + 1;
    }
    assert(outs@.skip(outs.len() as int) =~= Seq::<SwayNode>::empty());
    None
}

fn find_workspace(nodes: &Vec<SwayNode>, id: i64) -> (r: Option<usize>)
    ensures
        match r {
            Some(i) => i < nodes@.len() && workspace_with_id(nodes@, id) == Some(nodes@[i as int]),
            None => workspace_with_id(nodes@, id) is None,
        },
{
    let kind = "workspace";
    proof {
        reveal_strlit("workspace");
    }
    assert(kind@ =~= workspace_kind());
    let mut i: usize = 0;
    assert(nodes@.skip(0) =~= nodes@);
    while i < nodes.len()
        invariant
            i <= nodes.len(),
            kind@ == workspace_kind(),
            workspace_with_id(nodes@, id) == workspace_with_id(nodes@.skip(i as int), id),
        decreases nodes.len() - i,
    {
        assert(nodes@.skip(i as int)[0] == nodes@[i as int]);
        assert(nodes@.skip(i as int).drop_first() =~= nodes@.skip(i + 1));
        if nodes[i].id == Some(id) {
            match &nodes[i].node_type {
                Some(t) => {
                    if str_eq(t.as_str(), kind) {
                        return Some(i);
                    }
                },
                None => {},
            }
        }
        i = i + 1;
    }
    assert(nodes@.skip(nodes.len() as int) =~= Seq::<SwayNode>::empty());
    None
}

fn first_focus_entry(out: &SwayNode) -> (r: Option<i64>)
    ensures
        r == focused_child(*out),
{
    match &out.focus {
        Some(v) => {
            if v.len() > 0 {
                v[0]
            } else {
                None
            }
        },
        None => None,
    }
}

/// The workspace shown on `out`, as an index into its `nodes`.
fn shown_workspace_index(out: &SwayNode) -> (r: Option<usize>)
    ensures
        match r {
            Some(i) => out.nodes is Some && i < out.nodes->0@.len() && shown_workspace(*out) == Some(
                out.nodes->0@[i as int],
            ),
            None => shown_workspace(*out) is None,
        },
{
    let fid = match first_focus_entry(out) {
        Some(f) => f,
        None => return None,
    };
    match &out.nodes {
        Some(v) => find_workspace(v, fid),
        None => None,
    }
}

/// Reads the state of output `target` from `tree`, the result of sway's
/// `get_tree`: the workspace the output shows, its tiled windows, its
/// floating windows counted by fullscreen state, whether it holds focus,
/// and the focused window of the whole tree.
pub fn snapshot(tree: &SwayNode, target: &str) -> (r: Option<Snapshot>)
    ensures
        opt_snap_view(r) == snapshot_of(*tree, target@),
{
    let global_focused = find_focused_window(tree);
    let outs = match &tree.nodes {
        Some(v) => v,
        None => return None,
    };
    let oi = match find_output(outs, target) {
        Some(i) => i,
        None => return None,
    };
    let out = &outs[oi];
    let wi = match shown_workspace_index(out) {
        Some(i) => i,
        None => return None,
    };
    let ws = match &out.nodes {
        Some(v) => &v[wi],
        None => return None,
    };
    let ws_name = match &ws.name {
        Some(n) => n.clone(),
        None => return None,
    };
    let mut tiled: Vec<WinInfo> = Vec::new();
    match &ws.nodes {
        Some(v) => {
            let mut i: usize = 0;
            while i < v.len()
                invariant
                    i <= v.len(),
                    win_views(tiled@) == tiled_in(v@.take(i as int)),
                decreases v.len() - i,
            {
                assert(v@.take(i + 1).drop_last() =~= v@.take(i as int));
                collect_tiled(&v[i], &mut tiled);
                i = i + 1;
            }
            assert(v@.take(v.len() as int) =~= v@);
        },
        None => {
            assert(win_views(tiled@) =~= Seq::<WinView>::empty());
        },
    }
    let (float_n, float_fs) = count_floating(ws);
    let ws_layout = match &ws.layout {
        Some(l) => l.clone(),
        None => {
            let u = String::from_str("unknown");
            proof {
                reveal_strlit("unknown");
            }
            assert(u@ =~= unknown_layout());
            u
        },
    };
    let any_focused = has_focused_descendant(ws);
    let snap = Snapshot {
        ws_name,
        ws_layout,
        tiled,
        float_n,
        float_fs,
        any_focused,
        global_focused,
    };
    Some(snap)
}

/// The output is a real one (its name, `""` when absent, does not begin
/// with `__`) and the workspace it shows holds `target`.
pub open spec fn shows_con(out: SwayNode, target: i64) -> bool {
    let name = match out.name {
        Some(n) => n@,
        None => Seq::empty(),
    };
    &&& !(internal_prefix().len() <= name.len() && name.subrange(0, 2) == internal_prefix())
    &&& shown_workspace(out) is Some
    &&& holds_con(shown_workspace(out)->0, target)
}

/// Some output of `s` shows `target`.
pub open spec fn any_shows_con(s: Seq<SwayNode>, target: i64) -> bool
    decreases s.len(),
{
    if s.len() == 0 {
        false
    } else {
        any_shows_con(s.drop_last(), target) || shows_con(s.last(), target)
    }
}

/// `target` is on a visible workspace of `tree`.
pub open spec fn visible_in(tree: SwayNode, target: i64) -> bool {
    match tree.nodes {
        Some(v) => any_shows_con(v@, target),
        None => false,
    }
}

proof fn lemma_any_shows_prefix(s: Seq<SwayNode>, k: int, target: i64)
    requires
        0 <= k <= s.len(),
        any_shows_con(s.take(k), target),
    ensures
        any_shows_con(s, target),
    decreases s.len() - k,
{
    if k < s.len() {
        assert(s.take(k + 1).drop_last() =~= s.take(k));
        lemma_any_shows_prefix(s, k + 1, target);
    } else {
        assert(s.take(k) =~= s);
    }
}

/// Whether the container `target_id` is on a workspace that some output
/// (other than sway's internal `__` outputs) currently shows.
pub fn is_on_visible_workspace(tree: &SwayNode, target_id: i64) -> (r: bool)
    ensures
        r == visible_in(*tree, target_id),
{
    let outputs = match &tree.nodes {
        Some(o) => o,
        None => return false,
    };
    let prefix = "__";
    proof {
        reveal_strlit("__");
    }
    assert(prefix@ =~= internal_prefix());
    let mut i: usize = 0;
    while i < outputs.len()
        invariant
            i <= outputs.len(),
            prefix@ == internal_prefix(),
            tree.nodes == Some(*outputs),
            !any_shows_con(outputs@.take(i as int), target_id),
        decreases outputs.len() - i,
    {
        assert(outputs@.take(i + 1).drop_last() =~= outputs@.take(i as int));
        let output = &outputs[i];
        let internal = match &output.name {
            Some(n) => str_starts_with(n.as_str(), prefix),
            None => {
                let empty = "";
                proof {
                    reveal_strlit("");
                }
                str_starts_with(empty, prefix)
            },
        };
        if !internal {
            match shown_workspace_index(output) {
                Some(wi) => {
                    let ws = match &output.nodes {
                        Some(v) => &v[wi],
                        None => {
                            i = i + 1;
                            continue;
                        },
                    };
                    if contains_con_id(ws, target_id) {
                        assert(shows_con(outputs@[i as int], target_id));
                        assert(outputs@.take(i + 1).last() == outputs@[i as int]);
                        assert(any_shows_con(outputs@.take(i + 1), target_id));
                        proof {
                            lemma_any_shows_prefix(outputs@, i + 1, target_id);
                        }
                        assert(any_shows_con(outputs@, target_id));
                        assert(tree.nodes == Some(*outputs));
                        return true;
                    }
                },
                None => {},
            }
        }
        i = i + 1;
    }
    assert(outputs@.take(outputs.len() as int) =~= outputs@);
    false
}

/// Reads of the tree before the wait for a settled tree gives up.
pub const STABLE_MAX_TRIES: usize = 100;

/// Reads during which a missing expected window is still waited for.
pub const HINT_PATIENCE: usize = 10;

/// Milliseconds between reads during the first `HINT_PATIENCE` reads, and
/// after a failed read.
pub const STABLE_INTERVAL_MS: u64 = 1;

/// Milliseconds between later reads.
pub const STABLE_BACKOFF_MS: u64 = 5;

/// What the caller of a `StablePoll` is to do next.
pub enum PollStep {
    /// Read a snapshot and hand it to `observe`.
    TakeSnapshot,
    /// Wait this many milliseconds, then call `waited`.
    Wait(u64),
    /// The wait is over, with this snapshot.
    Finished(Option<Snapshot>),
}

/// The mathematical value of a `PollStep`.
pub enum PollStepView {
    TakeSnapshot,
    Wait(nat),
    Finished(Option<SnapView>),
}

impl View for PollStep {
    type V = PollStepView;

    open spec fn view(&self) -> PollStepView {
        match self {
            PollStep::TakeSnapshot => PollStepView::TakeSnapshot,
            PollStep::Wait(ms) => PollStepView::Wait(*ms as nat),
            PollStep::Finished(s) => PollStepView::Finished(opt_snap_view(*s)),
        }
    }
}

/// The wait for a settled tree: snapshots are read until the number of
/// tiled windows is the same on two consecutive reads (and, when a window
/// is expected, until it shows up or `HINT_PATIENCE` reads have passed), at
/// most `STABLE_MAX_TRIES` times; then the last snapshot read is used.
pub struct StablePoll {
    expected: Option<i64>,
    tries: usize,
    prev_count: Option<usize>,
    last_good: Option<Snapshot>,
}

/// The mathematical value of a `StablePoll`.
pub struct StablePollView {
    pub expected: Option<i64>,
    pub tries: nat,
    pub prev_count: Option<nat>,
    pub last_good: Option<SnapView>,
}

impl View for StablePoll {
    type V = StablePollView;

    closed spec fn view(&self) -> StablePollView {
        StablePollView {
            expected: self.expected,
            tries: self.tries as nat,
            prev_count: match self.prev_count {
                Some(c) => Some(c as nat),
                None => None,
            },
            last_good: opt_snap_view(self.last_good),
        }
    }
}

/// Whether the window `id` is among the tiled windows of `s`.
pub open spec fn tiled_has(s: SnapView, id: i64) -> bool {
    exists|i: int| 0 <= i < s.tiled.len() && s.tiled[i].id == id
}

/// Whether a snapshot read at try `tries` ends the wait.
pub open spec fn settles(p: StablePollView, s: SnapView) -> bool {
    let stable = p.prev_count == Some(s.tiled.len());
    match p.expected {
        Some(eid) => stable && (tiled_has(s, eid) || p.tries >= HINT_PATIENCE),
        None => stable,
    }
}

impl StablePoll {
    /// A fresh wait, for the window `expected_id` when one is given.
    pub fn new(expected_id: Option<i64>) -> (r: StablePoll)
        ensures
            r@ == (StablePollView { expected: expected_id, tries: 0, prev_count: None, last_good: None }),
    {
        StablePoll { expected: expected_id, tries: 0, prev_count: None, last_good: None }
    }

    /// Hands over the snapshot read (or `None` when the read failed).
    pub fn observe(&mut self, snap: Option<Snapshot>) -> (step: PollStep)
        requires
            old(self)@.tries < STABLE_MAX_TRIES,
        ensures
            match opt_snap_view(snap) {
                None => step@ == PollStepView::Wait(STABLE_INTERVAL_MS as nat) && final(self)@ == old(
                    self,
                )@,
                Some(s) => if settles(old(self)@, s) {
                    step@ == PollStepView::Finished(Some(s)) && final(self)@ == old(self)@
                } else {
                    &&& step@ == PollStepView::Wait(
                        if old(self)@.tries < HINT_PATIENCE {
                            STABLE_INTERVAL_MS as nat
                        } else {
                            STABLE_BACKOFF_MS as nat
                        },
                    )
                    &&& final(self)@ == StablePollView {
                        prev_count: Some(s.tiled.len()),
                        last_good: Some(s),
                        ..old(self)@
                    }
                },
            },
    {
        let snap = match snap {
            Some(s) => s,
            None => return PollStep::Wait(STABLE_INTERVAL_MS),
        };
        let count: usize = snap.tiled.len();
        let count_stable = match self.prev_count {
            Some(c) => c == count,
            None => false,
        };
        match self.expected {
            Some(eid) => {
                let mut found = false;
                let mut i: usize = 0;
                while i < snap.tiled.len()
                    invariant
                        i <= snap.tiled.len(),
                        found == (exists|j: int| 0 <= j < i && snap.tiled@[j].id == eid),
                    decreases snap.tiled.len() - i,
                {
                    if snap.tiled[i].id == eid {
                        found = true;
                    }
                    i = i + 1;
                }
                assert(found == tiled_has(snap@, eid)) by {
                    if found {
                        let j = choose|j: int| 0 <= j < snap.tiled@.len() && snap.tiled@[j].id == eid;
                        assert(snap@.tiled[j].id == eid);
                    }
                    if tiled_has(snap@, eid) {
                        let j = choose|j: int| 0 <= j < snap@.tiled.len() && snap@.tiled[j].id == eid;
                        assert(snap.tiled@[j].id == eid);
                    }
                }
                if found && count_stable {
                    return PollStep::Finished(Some(snap));
                }
                if !found && count_stable && self.tries >= HINT_PATIENCE {
                    return PollStep::Finished(Some(snap));
                }
            },
            None => {
                if count_stable {
                    return PollStep::Finished(Some(snap));
                }
            },
        }
        self.prev_count = Some(count);
        self.last_good = Some(snap);
        if self.tries < HINT_PATIENCE {
            PollStep::Wait(STABLE_INTERVAL_MS)
        } else {
            PollStep::Wait(STABLE_BACKOFF_MS)
        }
    }

    /// Reports that the wait asked for is over.
    pub fn waited(&mut self) -> (step: PollStep)
        requires
            old(self)@.tries < STABLE_MAX_TRIES,
        ensures
            final(self)@.tries == old(self)@.tries + 1,
            final(self)@.expected == old(self)@.expected,
            final(self)@.prev_count == old(self)@.prev_count,
            if old(self)@.tries + 1 < STABLE_MAX_TRIES {
                step@ == PollStepView::TakeSnapshot && final(self)@.last_good == old(self)@.last_good
            } else {
                step@ == PollStepView::Finished(old(self)@.last_good) && final(self)@.last_good is None
            },
    {
        self.tries = self.tries + 1;
        if self.tries < STABLE_MAX_TRIES {
            PollStep::TakeSnapshot
        } else {
            let last = self.last_good.take();
            PollStep::Finished(last)
        }
    }

    /// Whether another read may still be handed to `observe`.
    pub fn can_observe(&self) -> (r: bool)
        ensures
            r == (self@.tries < STABLE_MAX_TRIES),
    {
        self.tries < STABLE_MAX_TRIES
    }
}

/// The workspace that output `i` of `tree` shows, read from the raw tree:
/// output `i` is the first output named `target`, and `j` is the first of
/// its children that is a workspace whose id is the first entry of the
/// output's `focus` list.
pub open spec fn workspace_at(tree: SwayNode, target: Seq<char>, i: int, j: int) -> bool {
    &&& tree.nodes is Some
    &&& 0 <= i < tree.nodes->0@.len()
    &&& tree.nodes->0@[i].name is Some
    &&& tree.nodes->0@[i].name->0@ == target
    &&& forall|k: int|
        0 <= k < i ==> !(#[trigger] tree.nodes->0@[k].name is Some && tree.nodes->0@[k].name->0@ == target)
    &&& front_workspace(tree.nodes->0@[i], j)
}

/// Child `j` of `out` is the first workspace child whose id is the first
/// entry of `out`'s `focus` list.
pub open spec fn front_workspace(out: SwayNode, j: int) -> bool {
    &&& out.focus is Some
    &&& out.focus->0@.len() > 0
    &&& out.focus->0@[0] is Some
    &&& out.nodes is Some
    &&& 0 <= j < out.nodes->0@.len()
    &&& out.nodes->0@[j].id == out.focus->0@[0]
    &&& out.nodes->0@[j].node_type is Some
    &&& out.nodes->0@[j].node_type->0@ == "workspace"@
    &&& forall|k: int|
        0 <= k < j ==> !(#[trigger] out.nodes->0@[k].id == out.focus->0@[0] && out.nodes->0@[k].node_type is Some
            && out.nodes->0@[k].node_type->0@ == "workspace"@)
}

proof fn lemma_output_first(s: Seq<SwayNode>, name: Seq<char>, i: int)
    requires
        0 <= i < s.len(),
        s[i].name is Some && s[i].name->0@ == name,
        forall|k: int| 0 <= k < i ==> !(#[trigger] s[k].name is Some && s[k].name->0@ == name),
    ensures
        output_named(s, name) == Some(s[i]),
    decreases i,
{
    if i > 0 {
        assert(!(s[0].name is Some && s[0].name->0@ == name));
        assert forall|k: int| 0 <= k < i - 1 implies !(#[trigger] s.drop_first()[k].name is Some
            && s.drop_first()[k].name->0@ == name) by {
            assert(s.drop_first()[k] == s[k + 1]);
        }
        lemma_output_first(s.drop_first(), name, i - 1);
    }
}

proof fn lemma_workspace_first(s: Seq<SwayNode>, id: i64, j: int)
    requires
        0 <= j < s.len(),
        is_workspace_with_id(s[j], id),
        forall|k: int| 0 <= k < j ==> !is_workspace_with_id(#[trigger] s[k], id),
    ensures
        workspace_with_id(s, id) == Some(s[j]),
    decreases j,
{
    if j > 0 {
        assert(!is_workspace_with_id(s[0], id));
        assert forall|k: int| 0 <= k < j - 1 implies !is_workspace_with_id(#[trigger] s.drop_first()[k], id) by {
            assert(s.drop_first()[k] == s[k + 1]);
            assert(!is_workspace_with_id(s[k + 1], id));
        }
        lemma_workspace_first(s.drop_first(), id, j - 1);
    }
}

proof fn lemma_workspace_found(s: Seq<SwayNode>, id: i64)
    requires
        workspace_with_id(s, id) is Some,
    ensures
        exists|j: int|
            0 <= j < s.len() && s[j] == workspace_with_id(s, id)->0 && is_workspace_with_id(s[j], id)
                && #[trigger] first_workspace_index(s, id, j),
    decreases s.len(),
{
    if is_workspace_with_id(s[0], id) {
        assert(first_workspace_index(s, id, 0));
    } else {
        lemma_workspace_found(s.drop_first(), id);
        let j = choose|j: int|
            0 <= j < s.drop_first().len() && s.drop_first()[j] == workspace_with_id(s.drop_first(), id)->0
                && is_workspace_with_id(s.drop_first()[j], id) && #[trigger] first_workspace_index(
                s.drop_first(),
                id,
                j,
            );
        assert forall|k: int| 0 <= k < j + 1 implies !is_workspace_with_id(#[trigger] s[k], id) by {
            if k > 0 {
                assert(s[k] == s.drop_first()[k - 1]);
            }
        }
        assert(first_workspace_index(s, id, j + 1));
    }
}

/// No workspace with id `id` comes before index `j` of `s`.
pub open spec fn first_workspace_index(s: Seq<SwayNode>, id: i64, j: int) -> bool {
    forall|k: int| 0 <= k < j ==> !is_workspace_with_id(#[trigger] s[k], id)
}

proof fn lemma_front_workspace(out: SwayNode, j: int)
    requires
        front_workspace(out, j),
    ensures
        shown_workspace(out) == Some(out.nodes->0@[j]),
{
    let fid = out.focus->0@[0]->0;
    let v = out.nodes->0@;
    assert(workspace_kind() =~= "workspace"@) by {
        reveal_strlit("workspace");
    }
    assert forall|k: int| 0 <= k < j implies !is_workspace_with_id(#[trigger] v[k], fid) by {
        assert(!(v[k].id == out.focus->0@[0] && v[k].node_type is Some && v[k].node_type->0@ == "workspace"@));
    }
    lemma_workspace_first(v, fid, j);
}

/// The snapshot reads the workspace that the output shows: the first
/// workspace child whose id is the FIRST entry of the output's `focus`
/// list (the most recently focused one), for a `focus` list of any length.
/// Its name, layout (`"unknown"` when absent) and tiled windows are the
/// snapshot's; without a name there is no snapshot.
pub proof fn law_snapshot_reads_shown_workspace(tree: SwayNode, target: Seq<char>, i: int, j: int)
    requires
        workspace_at(tree, target, i, j),
    ensures
        ({
            let ws = tree.nodes->0@[i].nodes->0@[j];
            &&& ws.name is None ==> snapshot_of(tree, target) is None
            &&& ws.name is Some ==> {
                &&& snapshot_of(tree, target) is Some
                &&& snapshot_of(tree, target)->0.ws_name == ws.name->0@
                &&& snapshot_of(tree, target)->0.ws_layout == match ws.layout {
                    Some(l) => l@,
                    None => "unknown"@,
                }
                &&& snapshot_of(tree, target)->0.tiled == tiled_in(tiled_children(ws))
            }
        }),
{
    let outs = tree.nodes->0@;
    lemma_output_first(outs, target, i);
    lemma_front_workspace(outs[i], j);
    assert(unknown_layout() =~= "unknown"@) by {
        reveal_strlit("unknown");
    }
}

/// Output `i` of `tree` is a real output (its name, `""` when absent, does
/// not begin with `__`), and child `j`, the workspace it shows (see
/// `front_workspace`), holds container `t`.
pub open spec fn shows_at(tree: SwayNode, t: i64, i: int, j: int) -> bool {
    &&& tree.nodes is Some
    &&& 0 <= i < tree.nodes->0@.len()
    &&& !(match tree.nodes->0@[i].name {
        Some(n) => n@.len() >= 2 && n@[0] == '_' && n@[1] == '_',
        None => false,
    })
    &&& front_workspace(tree.nodes->0@[i], j)
    &&& holds_con(tree.nodes->0@[i].nodes->0@[j], t)
}

proof fn lemma_any_shows_found(s: Seq<SwayNode>, t: i64)
    requires
        any_shows_con(s, t),
    ensures
        exists|i: int| 0 <= i < s.len() && #[trigger] shows_con(s[i], t),
    decreases s.len(),
{
    if !shows_con(s.last(), t) {
        lemma_any_shows_found(s.drop_last(), t);
        let i = choose|i: int| 0 <= i < s.drop_last().len() && #[trigger] shows_con(s.drop_last()[i], t);
        assert(s[i] == s.drop_last()[i]);
    } else {
        assert(shows_con(s[s.len() - 1], t));
    }
}

proof fn lemma_internal_raw(out: SwayNode)
    ensures
        ({
            let name = match out.name {
                Some(n) => n@,
                None => Seq::<char>::empty(),
            };
            (internal_prefix().len() <= name.len() && name.subrange(0, 2) == internal_prefix()) <==> (match out.name {
                Some(n) => n@.len() >= 2 && n@[0] == '_' && n@[1] == '_',
                None => false,
            })
        }),
{
    let name = match out.name {
        Some(n) => n@,
        None => Seq::<char>::empty(),
    };
    if name.len() >= 2 && name[0] == '_' && name[1] == '_' {
        assert(name.subrange(0, 2) =~= internal_prefix());
    }
    if internal_prefix().len() <= name.len() && name.subrange(0, 2) == internal_prefix() {
        assert(name.subrange(0, 2)[0] == '_');
        assert(name.subrange(0, 2)[1] == '_');
    }
}

/// A container counts as visible exactly when some real output (name not
/// beginning with `__`) shows, as the workspace whose id is the FIRST entry
/// of its `focus` list, a workspace that holds it.
pub proof fn law_visible_means_shown(tree: SwayNode, t: i64)
    ensures
        visible_in(tree, t) <==> exists|i: int, j: int| #[trigger] shows_at(tree, t, i, j),
{
    if visible_in(tree, t) {
        let outs = tree.nodes->0@;
        lemma_any_shows_found(outs, t);
        let i = choose|i: int| 0 <= i < outs.len() && #[trigger] shows_con(outs[i], t);
        let out = outs[i];
        lemma_internal_raw(out);
        let fid = focused_child(out)->0;
        lemma_workspace_found(out.nodes->0@, fid);
        let v = out.nodes->0@;
        let j = choose|j: int|
            0 <= j < v.len() && v[j] == workspace_with_id(v, fid)->0 && is_workspace_with_id(v[j], fid)
                && #[trigger] first_workspace_index(v, fid, j);
        assert(workspace_kind() =~= "workspace"@) by {
            reveal_strlit("workspace");
        }
        assert forall|k: int| 0 <= k < j implies !(#[trigger] v[k].id == out.focus->0@[0] && v[k].node_type is Some
            && v[k].node_type->0@ == "workspace"@) by {
            assert(!is_workspace_with_id(v[k], fid));
        }
        assert(shows_at(tree, t, i, j));
    }
    if exists|i: int, j: int| #[trigger] shows_at(tree, t, i, j) {
        let (i, j) = choose|i: int, j: int| #[trigger] shows_at(tree, t, i, j);
        let outs = tree.nodes->0@;
        lemma_internal_raw(outs[i]);
        lemma_front_workspace(outs[i], j);
        assert(shows_con(outs[i], t));
        assert(outs.take(i + 1).last() == outs[i]);
        assert(any_shows_con(outs.take(i + 1), t));
        lemma_any_shows_prefix(outs, i + 1, t);
    }
}

} // verus!
