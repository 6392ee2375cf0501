//! The container tree that sway reports, the windows read from it, and
//! the walks over it.
use vstd::prelude::*;
use crate::text::str_eq;

verus! {

/// One node of sway's container tree (the output of `get_tree`), holding
/// the members that the daemon reads. Each member is what looking up its
/// key and reading it as the named JSON type gives: `None` when the key is
/// absent or holds a value of another type. `marks` and `focus` keep one
/// entry per array element, `None` for an element of another type.
pub struct SwayNode {
    /// `id` as an integer.
    pub id: Option<i64>,
    /// `pid` as an integer: above zero for a window, zero for a container.
    pub pid: Option<i64>,
    /// `name` as a string.
    pub name: Option<String>,
    /// `type` as a string (`"output"`, `"workspace"`, `"con"`, ...).
    pub node_type: Option<String>,
    /// `layout` as a string.
    pub layout: Option<String>,
    /// `focused` as a boolean.
    pub focused: Option<bool>,
    /// `fullscreen_mode` as an integer.
    pub fullscreen_mode: Option<i64>,
    /// `marks` as an array; each element as a string.
    pub marks: Option<Vec<Option<String>>>,
    /// `border` as a string.
    pub border: Option<String>,
    /// `current_border_width` as an integer.
    pub current_border_width: Option<i64>,
    /// `focus` as an array; each element as an integer.
    pub focus: Option<Vec<Option<i64>>>,
    /// `nodes` as an array of nodes.
    pub nodes: Option<Vec<SwayNode>>,
    /// `floating_nodes` as an array of nodes.
    pub floating_nodes: Option<Vec<SwayNode>>,
}

/// A tiled window as the daemon sees it.
pub struct WinInfo {
    pub id: i64,
    pub fs: i64,
    pub marks: Vec<String>,
    pub focused: bool,
    pub border: String,
    pub border_width: i64,
}

/// The mathematical value of a `WinInfo`.
pub struct WinView {
    pub id: i64,
    pub fs: i64,
    pub marks: Seq<Seq<char>>,
    pub focused: bool,
    pub border: Seq<char>,
    pub border_width: i64,
}

impl View for WinInfo {
    type V = WinView;

    open spec fn view(&self) -> WinView {
        WinView {
            id: self.id,
            fs: self.fs,
            marks: self.marks@.map_values(|m: String| m@),
            focused: self.focused,
            border: self.border@,
            border_width: self.border_width,
        }
    }
}

/// The views of a sequence of windows.
pub open spec fn win_views(s: Seq<WinInfo>) -> Seq<WinView> {
    s.map_values(|w: WinInfo| w@)
}

/// The mark that the daemon puts on the window it manages.
pub open spec fn auto_fs_mark() -> Seq<char> {
    seq!['_', 'a', 'u', 't', 'o', '_', 'f', 's']
}

impl WinView {
    /// The window carries the management mark.
    pub open spec fn has_auto_fs(self) -> bool {
        self.marks.contains(auto_fs_mark())
    }

    /// The window is fullscreen.
    pub open spec fn is_fs(self) -> bool {
        self.fs > 0
    }
}

impl WinInfo {
    /// Whether the window carries the `_auto_fs` management mark.
    pub fn has_auto_fs(&self) -> (r: bool)
        ensures
            r == self@.has_auto_fs(),
    {
        let mark = "_auto_fs";
        proof {
            reveal_strlit("_auto_fs");
        }
        assert(mark@ =~= auto_fs_mark());
        let mut i: usize = 0;
        while i < self.marks.len()
            invariant
                i <= self.marks.len(),
                mark@ == auto_fs_mark(),
                forall|j: int| 0 <= j < i ==> self.marks@[j]@ != auto_fs_mark(),
            decreases self.marks.len() - i,
        {
            if str_eq(self.marks[i].as_str(), mark) {
                assert(self@.marks[i as int] == auto_fs_mark());
                return true;
            }
            i = i + 1;
        }
        assert forall|j: int| 0 <= j < self@.marks.len() implies self@.marks[j] != auto_fs_mark() by {
            assert(self@.marks[j] == self.marks@[j]@);
        }
        false
    }

    /// Whether the window is fullscreen (a fullscreen mode above zero).
    pub fn is_fs(&self) -> (r: bool)
        ensures
            r == self@.is_fs(),
    {
        self.fs > 0
    }
}

/// The strings among the elements of a `marks` array, in order.
pub open spec fn present_strings(s: Seq<Option<String>>) -> Seq<Seq<char>>
    decreases s.len(),
{
    if s.len() == 0 {
        Seq::empty()
    } else {
        let init = present_strings(s.drop_last());
        match s.last() {
            Some(m) => init.push(m@),
            None => init,
        }
    }
}

/// The marks of a node: its string marks, none when `marks` is absent.
pub open spec fn node_marks(m: Option<Vec<Option<String>>>) -> Seq<Seq<char>> {
    match m {
        Some(v) => present_strings(v@),
        None => Seq::empty(),
    }
}

/// `"normal"`, the border style assumed when a window reports none.
pub open spec fn normal_style() -> Seq<char> {
    seq!['n', 'o', 'r', 'm', 'a', 'l']
}

/// The window a node stands for: a node with a positive `pid` and an `id`.
/// The fullscreen mode defaults to 0, focus to false, the border to
/// `"normal"` and its width to 2.
pub open spec fn win_of(v: SwayNode) -> Option<WinView> {
    if v.pid is None || v.pid->0 <= 0 || v.id is None {
        None
    } else {
        Some(WinView {
            id: v.id->0,
            fs: match v.fullscreen_mode { Some(f) => f, None => 0 },
            marks: node_marks(v.marks),
            focused: match v.focused { Some(b) => b, None => false },
            border: match v.border { Some(b) => b@, None => normal_style() },
            border_width: match v.current_border_width { Some(w) => w, None => 2 },
        })
    }
}

/// The children listed under `nodes` (none when absent).
pub open spec fn tiled_children(n: SwayNode) -> Seq<SwayNode> {
    match n.nodes {
        Some(v) => v@,
        None => Seq::empty(),
    }
}

/// The children listed under `floating_nodes` (none when absent).
pub open spec fn floating_children(n: SwayNode) -> Seq<SwayNode> {
    match n.floating_nodes {
        Some(v) => v@,
        None => Seq::empty(),
    }
}

fn clone_opt_string(s: &Option<String>) -> (r: Option<String>)
    ensures
        r == *s,
{
    match s {
        Some(x) => Some(x.clone()),
        None => None,
    }
}

/// Reads a window from a tree node: `None` unless the node has a positive
/// `pid` and an integer `id`.
pub fn parse_win(v: &SwayNode) -> (r: Option<WinInfo>)
    ensures
        match r {
            Some(w) => win_of(*v) == Some(w@),
            None => win_of(*v) is None,
        },
{
    let pid = match v.pid {
        Some(p) => p,
        None => return None,
    };
    if pid <= 0 {
        return None;
    }
    let id = match v.id {
        Some(i) => i,
        None => return None,
    };
    let mut marks: Vec<String> = Vec::new();
    match &v.marks {
        Some(ms) => {
            let mut i: usize = 0;
            while i < ms.len()
                invariant
                    i <= ms.len(),
                    marks@.map_values(|m: String| m@) == present_strings(ms@.take(i as int)),
                decreases ms.len() - i,
            {
                assert(ms@.take(i + 1).drop_last() =~= ms@.take(i as int));
                match &ms[i] {
                    Some(m) => {
                        marks.push(m.clone());
                        assert(marks@.map_values(|m: String| m@) =~= present_strings(
                            ms@.take(i as int),
                        ).push(m@));
                    },
                    None => {},
                }
                i = i + 1;
            }
            assert(ms@.take(ms.len() as int) =~= ms@);
        },
        None => {
            assert(marks@.map_values(|m: String| m@) =~= Seq::<Seq<char>>::empty());
        },
    }
    let border = match &v.border {
        Some(b) => b.clone(),
        None => {
            let d = String::from_str("normal");
            proof {
                reveal_strlit("normal");
            }
            assert(d@ =~= normal_style());
            d
        },
    };
    let w = WinInfo {
        id,
        fs: match v.fullscreen_mode { Some(f) => f, None => 0 },
        marks,
        focused: match v.focused { Some(b) => b, None => false },
        border,
        border_width: match v.current_border_width { Some(b) => b, None => 2 },
    };
    assert(w@ == win_of(*v)->0);
    Some(w)
}

/// The windows under a node, in tree order: the node itself when it is a
/// window, else the windows under each of its `nodes` children.
pub open spec fn tiled_windows(n: SwayNode) -> Seq<WinView>
    decreases n, 1nat,
{
    match win_of(n) {
        Some(w) => seq![w],
        None => match n.nodes {
            Some(v) => tiled_in(v@),
            None => Seq::empty(),
        },
    }
}

/// The windows under each node of `s`, one after another.
pub open spec fn tiled_in(s: Seq<SwayNode>) -> Seq<WinView>
    decreases s, 0nat,
{
    if s.len() == 0 {
        Seq::empty()
    } else {
        tiled_in(s.drop_last()) + tiled_windows(s.last())
    }
}

fn collect_tiled_in(v: &Vec<SwayNode>, out: &mut Vec<WinInfo>)
    ensures
        win_views(final(out)@) == win_views(old(out)@) + tiled_in(v@),
    decreases v, 0nat,
{
    let ghost start = win_views(out@);
    let mut i: usize = 0;
    while i < v.len()
        invariant
            i <= v.len(),
            win_views(out@) == start + tiled_in(v@.take(i as int)),
        decreases v.len() - i,
    {
        assert(v@.take(i + 1).drop_last() =~= v@.take(i as int));
        collect_tiled(&v[i], out);
        assert(win_views(out@) =~= start + tiled_in(v@.take(i + 1)));
        i = i + 1;
    }
    assert(v@.take(v.len() as int) =~= v@);
}

/// Appends to `out` every window under `node` (the node itself when it is
/// a window, else the windows under its `nodes` children, in order).
pub fn collect_tiled(node: &SwayNode, out: &mut Vec<WinInfo>)
    ensures
        win_views(final(out)@) == win_views(old(out)@) + tiled_windows(*node),
    decreases node, 1nat,
{
    match parse_win(node) {
        Some(w) => {
            let ghost before = win_views(out@);
            out.push(w);
            assert(win_views(out@) =~= before + tiled_windows(*node));
            return ;
        },
        None => {},
    }
    match &node.nodes {
        Some(v) => {
            collect_tiled_in(v, out);
        },
        None => {
            assert(win_views(out@) =~= win_views(out@) + Seq::<WinView>::empty());
        },
    }
}

/// For each floating window under a node (searching `nodes` only, and
/// stopping at the first node with a positive `pid`), whether it is
/// fullscreen.
pub open spec fn floating_flags(n: SwayNode) -> Seq<bool>
    decreases n, 1nat,
{
    if n.pid is Some && n.pid->0 > 0 {
        seq![match n.fullscreen_mode { Some(f) => f, None => 0 } > 0]
    } else {
        match n.nodes {
            Some(v) => floating_flags_in(v@),
            None => Seq::empty(),
        }
    }
}

/// The floating flags under each node of `s`, one after another.
pub open spec fn floating_flags_in(s: Seq<SwayNode>) -> Seq<bool>
    decreases s, 0nat,
{
    if s.len() == 0 {
        Seq::empty()
    } else {
        floating_flags_in(s.drop_last()) + floating_flags(s.last())
    }
}

/// How many entries of `s` equal `b`.
pub open spec fn count_of(s: Seq<bool>, b: bool) -> nat
    decreases s.len(),
{
    if s.len() == 0 {
        0
    } else {
        count_of(s.drop_last(), b) + if s.last() == b { 1nat } else { 0nat }
    }
}

/// The number of floating windows on a workspace that are not fullscreen,
/// and the number that are.
pub open spec fn floating_counts(ws: SwayNode) -> (nat, nat) {
    let flags = floating_flags_in(floating_children(ws));
    (count_of(flags, false), count_of(flags, true))
}

fn collect_floating_flags_in(v: &Vec<SwayNode>, out: &mut Vec<bool>)
    ensures
        final(out)@ == old(out)@ + floating_flags_in(v@),
    decreases v, 0nat,
{
    let ghost start = out@;
    let mut i: usize = 0;
    while i < v.len()
        invariant
            i <= v.len(),
            out@ == start + floating_flags_in(v@.take(i as int)),
        decreases v.len() - i,
    {
        assert(v@.take(i + 1).drop_last() =~= v@.take(i as int));
        collect_floating_flags(&v[i], out);
        assert(out@ =~= start + floating_flags_in(v@.take(i + 1)));
        i = i + 1;
    }
    assert(v@.take(v.len() as int) =~= v@);
}

fn collect_floating_flags(node: &SwayNode, out: &mut Vec<bool>)
    ensures
        final(out)@ == old(out)@ + floating_flags(*node),
    decreases node, 1nat,
{
    match node.pid {
        Some(pid) => {
            if pid > 0 {
                let f: i64 = match node.fullscreen_mode { Some(f) => f, None => 0 };
                let ghost before = out@;
                out.push(f > 0);
                assert(out@ =~= before + floating_flags(*node));
                return ;
            }
        },
        None => {},
    }
    match &node.nodes {
        Some(v) => {
            collect_floating_flags_in(v, out);
        },
        None => {
            assert(out@ =~= out@ + Seq::<bool>::empty());
        },
    }
}

/// Counts the floating windows of a workspace: `(normal, fullscreen)`.
pub fn count_floating(ws: &SwayNode) -> (r: (usize, usize))
    ensures
        r.0 == floating_counts(*ws).0,
        r.1 == floating_counts(*ws).1,
{
    let mut flags: Vec<bool> = Vec::new();
    match &ws.floating_nodes {
        Some(v) => {
            collect_floating_flags_in(v, &mut flags);
        },
        None => {},
    }
    assert(flags@ =~= floating_flags_in(floating_children(*ws)));
    let mut normal: usize = 0;
    let mut fullscreen: usize = 0;
    let mut k: usize = 0;
    while k < flags.len()
        invariant
            k <= flags.len(),
            normal + fullscreen == k,
            normal == count_of(flags@.take(k as int), false),
            fullscreen == count_of(flags@.take(k as int), true),
        decreases flags.len() - k,
    {
        assert(flags@.take(k + 1).drop_last() =~= flags@.take(k as int));
        if flags[k] {
            fullscreen = fullscreen + 1;
        } else {
            normal = normal + 1;
        }
        k = k + 1;
    }
    assert(flags@.take(flags.len() as int) =~= flags@);
    (normal, fullscreen)
}

/// A node is focused or has a focused node below it, through `nodes` or
/// `floating_nodes`.
pub open spec fn has_focus(n: SwayNode) -> bool
    decreases n, 1nat,
{
    ||| n.focused == Some(true)
    ||| match n.nodes {
        Some(v) => any_has_focus(v@),
        None => false,
    }
    ||| match n.floating_nodes {
        Some(v) => any_has_focus(v@),
        None => false,
    }
}

/// Some node of `s` has focus on it or below it.
pub open spec fn any_has_focus(s: Seq<SwayNode>) -> bool
    decreases s, 0nat,
{
    if s.len() == 0 {
        false
    } else {
        any_has_focus(s.drop_last()) || has_focus(s.last())
    }
}

fn any_focused_in(v: &Vec<SwayNode>) -> (r: bool)
    ensures
        r == any_has_focus(v@),
    decreases v, 0nat,
{
    let mut i: usize = 0;
    while i < v.len()
        invariant
            i <= v.len(),
            !any_has_focus(v@.take(i as int)),
        decreases v.len() - i,
    {
        assert(v@.take(i + 1).drop_last() =~= v@.take(i as int));
        if has_focused_descendant(&v[i]) {
            assert(any_has_focus(v@.take(i + 1)));
            proof {
                lemma_any_prefix(v@, i + 1);
            }
            return true;
        }
        i = i + 1;
    }
    assert(v@.take(v.len() as int) =~= v@);
    false
}

proof fn lemma_any_prefix(s: Seq<SwayNode>, k: int)
    requires
        0 <= k <= s.len(),
        any_has_focus(s.take(k)),
    ensures
        any_has_focus(s),
    decreases s.len() - k,
{
    if k < s.len() {
        assert(s.take(k + 1).drop_last() =~= s.take(k));
        lemma_any_prefix(s, k + 1);
    } else {
        assert(s.take(k) =~= s);
    }
}

/// Whether the node, or any node below it (through `nodes` or
/// `floating_nodes`), is focused.
pub fn has_focused_descendant(node: &SwayNode) -> (r: bool)
    ensures
        r == has_focus(*node),
    decreases node, 1nat,
{
    if node.focused == Some(true) {
        return true;
    }
    match &node.nodes {
        Some(v) => {
            if any_focused_in(v) {
                return true;
            }
        },
        None => {},
    }
    match &node.floating_nodes {
        Some(v) => {
            if any_focused_in(v) {
                return true;
            }
        },
        None => {},
    }
    false
}

/// The focused window under a node: at a node with a positive `pid`, that
/// node's `id` when it is focused and nothing otherwise; elsewhere the
/// first found under `nodes`, then under `floating_nodes`.
pub open spec fn focused_window(n: SwayNode) -> Option<i64>
    decreases n, 1nat,
{
    if n.pid is Some && n.pid->0 > 0 {
        if n.focused == Some(true) {
            n.id
        } else {
            None
        }
    } else {
        let in_tiled = match n.nodes {
            Some(v) => first_focused(v@),
            None => None,
        };
        match in_tiled {
            Some(id) => Some(id),
            None => match n.floating_nodes {
                Some(v) => first_focused(v@),
                None => None,
            },
        }
    }
}

/// The first focused window found under the nodes of `s`, in order.
pub open spec fn first_focused(s: Seq<SwayNode>) -> Option<i64>
    decreases s, 0nat,
{
    if s.len() == 0 {
        None
    } else {
        match focused_window(s.first()) {
            Some(id) => Some(id),
            None => first_focused(s.drop_first()),
        }
    }
}

fn find_focused_in(v: &Vec<SwayNode>) -> (r: Option<i64>)
    ensures
        r == first_focused(v@),
    decreases v, 0nat,
{
    let mut i: usize = 0;
    assert(v@.skip(0) =~= v@);
    while i < v.len()
        invariant
            i <= v.len(),
            first_focused(v@) == first_focused(v@.skip(i as int)),
        decreases v.len() - i,
    {
        assert(v@.skip(i as int).first() == v@[i as int]);
        assert(v@.skip(i as int).drop_first() =~= v@.skip(i + 1));
        match find_focused_window(&v[i]) {
            Some(id) => {
                return Some(id);
            },
            None => {},
        }
        i = i + 1;
    }
    assert(v@.skip(v.len() as int) =~= Seq::<SwayNode>::empty());
    None
}

/// The id of the focused window under `node` (see `focused_window`).
pub fn find_focused_window(node: &SwayNode) -> (r: Option<i64>)
    ensures
        r == focused_window(*node),
    decreases node, 1nat,
{
    match node.pid {
        Some(pid) => {
            if pid > 0 {
                if node.focused == Some(true) {
                    return node.id;
                }
                return None;
            }
        },
        None => {},
    }
    match &node.nodes {
        Some(v) => {
            match find_focused_in(v) {
                Some(id) => {
                    return Some(id);
                },
                None => {},
            }
        },
        None => {},
    }
    match &node.floating_nodes {
        Some(v) => {
            return find_focused_in(v);
        },
        None => {},
    }
    None
}

/// A node or a node below it (through `nodes` or `floating_nodes`) has the
/// id `target`.
pub open spec fn holds_con(n: SwayNode, target: i64) -> bool
    decreases n, 1nat,
{
    ||| n.id == Some(target)
    ||| match n.nodes {
        Some(v) => any_holds_con(v@, target),
        None => false,
    }
    ||| match n.floating_nodes {
        Some(v) => any_holds_con(v@, target),
        None => false,
    }
}

/// Some node of `s` holds `target` on it or below it.
pub open spec fn any_holds_con(s: Seq<SwayNode>, target: i64) -> bool
    decreases s, 0nat,
{
    if s.len() == 0 {
        false
    } else {
        any_holds_con(s.drop_last(), target) || holds_con(s.last(), target)
    }
}

proof fn lemma_any_holds_prefix(s: Seq<SwayNode>, k: int, target: i64)
    requires
        0 <= k <= s.len(),
        any_holds_con(s.take(k), target),
    ensures
        any_holds_con(s, target),
    decreases s.len() - k,
{
    if k < s.len() {
        assert(s.take(k + 1).drop_last() =~= s.take(k));
        lemma_any_holds_prefix(s, k + 1, target);
    } else {
        assert(s.take(k) =~= s);
    }
}

fn contains_con_id_in(v: &Vec<SwayNode>, target: i64) -> (r: bool)
    ensures
        r == any_holds_con(v@, target),
    decreases v, 0nat,
{
    let mut i: usize = 0;
    while i < v.len()
        invariant
            i <= v.len(),
            !any_holds_con(v@.take(i as int), target),
        decreases v.len() - i,
    {
        assert(v@.take(i + 1).drop_last() =~= v@.take(i as int));
        if contains_con_id(&v[i], target) {
            proof {
                lemma_any_holds_prefix(v@, i + 1, target);
            }
            return true;
        }
        i = i + 1;
    }
    assert(v@.take(v.len() as int) =~= v@);
    false
}

/// Whether a node with id `target_id` is this node or below it.
pub fn contains_con_id(node: &SwayNode, target_id: i64) -> (r: bool)
    ensures
        r == holds_con(*node, target_id),
    decreases node, 1nat,
{
    if node.id == Some(target_id) {
        return true;
    }
    match &node.nodes {
        Some(v) => {
            if contains_con_id_in(v, target_id) {
                return true;
            }
        },
        None => {},
    }
    match &node.floating_nodes {
        Some(v) => {
            if contains_con_id_in(v, target_id) {
                return true;
            }
        },
        None => {},
    }
    false
}

/// The state of the managed output, read from one tree.
pub struct Snapshot {
    /// Name of the workspace visible on the output.
    pub ws_name: String,
    /// Its layout (`"unknown"` when the tree gives none).
    pub ws_layout: String,
    /// Its tiled windows, in tree order.
    pub tiled: Vec<WinInfo>,
    /// Its floating windows that are not fullscreen.
    pub float_n: usize,
    /// Its floating windows that are fullscreen.
    pub float_fs: usize,
    /// Whether anything on the workspace has focus.
    pub any_focused: bool,
    /// The focused window anywhere in the tree.
    pub global_focused: Option<i64>,
}

/// The mathematical value of a `Snapshot`.
pub struct SnapView {
    pub ws_name: Seq<char>,
    pub ws_layout: Seq<char>,
    pub tiled: Seq<WinView>,
    pub float_n: nat,
    pub float_fs: nat,
    pub any_focused: bool,
    pub global_focused: Option<i64>,
}

impl View for Snapshot {
    type V = SnapView;

    open spec fn view(&self) -> SnapView {
        SnapView {
            ws_name: self.ws_name@,
            ws_layout: self.ws_layout@,
            tiled: win_views(self.tiled@),
            float_n: self.float_n as nat,
            float_fs: self.float_fs as nat,
            any_focused: self.any_focused,
            global_focused: self.global_focused,
        }
    }
}

/// The view of an optional snapshot.
pub open spec fn opt_snap_view(s: Option<Snapshot>) -> Option<SnapView> {
    match s {
        Some(x) => Some(x@),
        None => None,
    }
}

} // verus!
