//! Properties of the monitor-mode policy that hold of every step of every
//! pass.
use vstd::prelude::*;
use crate::commands::{focus_text, monocle_text};
use crate::policy::{
    ActionView, EventView, PhaseView, PolicyView, dispatch_step, pass_step, after_restore_step,
    save_spec, to_post, unchanged, user_fullscreen, managed_ids,
    first_focused_tiled, changed_step, consistent,
};
use crate::tree::{SnapView, WinView};

verus! {

proof fn lemma_dispatch_saves(p: PolicyView, s: SnapView, hint: Option<i64>, post: PolicyView, act: ActionView)
    requires
        (post, act) == dispatch_step(p, s, hint),
    ensures
        forall|id: i64| #[trigger] p.saved_borders.contains_key(id) ==> post.saved_borders.contains_key(id)
            && post.saved_borders[id] == p.saved_borders[id],
        forall|id: i64| #[trigger] post.saved_borders.contains_key(id) ==> p.saved_borders.contains_key(id)
            || (s.tiled.len() == 1 && id == s.tiled[0].id),
{
}

proof fn lemma_after_restore_saves(p: PolicyView, s: SnapView, hint: Option<i64>, post: PolicyView, act: ActionView)
    requires
        (post, act) == after_restore_step(p, s, hint),
    ensures
        forall|id: i64| #[trigger] p.saved_borders.contains_key(id) ==> post.saved_borders.contains_key(id)
            && post.saved_borders[id] == p.saved_borders[id],
{
    let tf = first_focused_tiled(s.tiled);
    let p1 = PolicyView {
        prev_focused: p.cur_focused,
        cur_focused: if tf is Some { tf } else { p.cur_focused },
        ..p
    };
    if s.float_fs == 0 && !p1.floating_fs_active {
        lemma_dispatch_saves(p1, s, hint, post, act);
    }
}

proof fn lemma_after_restore_adds(p: PolicyView, s: SnapView, hint: Option<i64>, post: PolicyView, act: ActionView)
    requires
        (post, act) == after_restore_step(p, s, hint),
    ensures
        forall|id: i64| #[trigger] post.saved_borders.contains_key(id) ==> p.saved_borders.contains_key(id)
            || (s.tiled.len() == 1 && id == s.tiled[0].id),
{
    let tf = first_focused_tiled(s.tiled);
    let p1 = PolicyView {
        prev_focused: p.cur_focused,
        cur_focused: if tf is Some { tf } else { p.cur_focused },
        ..p
    };
    if s.float_fs == 0 && !p1.floating_fs_active {
        lemma_dispatch_saves(p1, s, hint, post, act);
    }
}

/// A remembered border is never replaced: as long as the policy remembers
/// the border of a window, it remembers the style and width first saved.
pub proof fn law_saved_border_kept(p: PolicyView, ev: EventView, post: PolicyView, act: ActionView, id: i64)
    requires
        consistent(p),
        pass_step(p, ev, post, act),
        p.saved_borders.contains_key(id),
        post.saved_borders.contains_key(id),
    ensures
        post.saved_borders[id] == p.saved_borders[id],
{
    match (p.phase, ev) {
        (PhaseView::AwaitStable { hint }, EventView::Snapshot(Some(s))) => {
            if !unchanged(p, s, hint) {
                let ids = choose|ids: Seq<i64>|
                    {
                        &&& ids.no_duplicates()
                        &&& ids.to_set() == crate::policy::departed_ids(p.saved_borders.dom(), s.tiled)
                        &&& (post, act) == #[trigger] changed_step(p, s, hint, ids)
                    };
                if ids.len() == 0 {
                    let p1 = PolicyView { last_state: Some(crate::policy::state_of(s)), ..p };
                    lemma_after_restore_saves(p1, s, crate::policy::relevant_hint(p, s, hint), post, act);
                }
            }
        },
        (PhaseView::AwaitDeparted { snap, hint, ids }, EventView::CommandDone(ok)) => {
            let p1 = crate::policy::forget_if(p, ok, ids.to_set());
            lemma_after_restore_saves(p1, snap, hint, post, act);
            lemma_after_restore_adds(p1, snap, hint, post, act);
            if ok && ids.to_set().contains(id) {
                let k = choose|k: int| 0 <= k < ids.len() && ids[k] == id;
                assert(!crate::policy::tiled_has_id(snap.tiled, ids[k]));
                if snap.tiled.len() == 1 {
                    assert(snap.tiled[0].id == id ==> crate::policy::tiled_has_id(snap.tiled, id));
                }
            }
        },
        (PhaseView::AwaitResnapshot { hint }, EventView::Snapshot(Some(s))) => {
            let p1 = PolicyView {
                last_state: Some(crate::policy::state_of(s)),
                last_global_focused: s.global_focused,
                ..p
            };
            lemma_dispatch_saves(p1, s, hint, post, act);
        },
        _ => {},
    }
}

proof fn lemma_dispatch_no_awaitdeparted(p: PolicyView, s: SnapView, hint: Option<i64>)
    ensures
        !(dispatch_step(p, s, hint).0.phase is AwaitDeparted),
        !(after_restore_step(p, s, hint).0.phase is AwaitDeparted),
{
}

/// Every step keeps the policy consistent (see `consistent`).
pub proof fn law_consistency_kept(p: PolicyView, ev: EventView, post: PolicyView, act: ActionView)
    requires
        consistent(p),
        pass_step(p, ev, post, act),
    ensures
        consistent(post),
{
    match (p.phase, ev) {
        (PhaseView::AwaitStable { hint }, EventView::Snapshot(Some(s))) => {
            if !unchanged(p, s, hint) {
                let ids = choose|ids: Seq<i64>|
                    {
                        &&& ids.no_duplicates()
                        &&& ids.to_set() == crate::policy::departed_ids(p.saved_borders.dom(), s.tiled)
                        &&& (post, act) == #[trigger] changed_step(p, s, hint, ids)
                    };
                let p1 = PolicyView { last_state: Some(crate::policy::state_of(s)), ..p };
                lemma_dispatch_no_awaitdeparted(p1, s, crate::policy::relevant_hint(p, s, hint));
                if ids.len() > 0 {
                    assert forall|i: int| 0 <= i < ids.len() implies !crate::policy::tiled_has_id(
                        s.tiled,
                        #[trigger] ids[i],
                    ) by {
                        assert(ids.to_set().contains(ids[i]));
                    }
                }
            }
        },
        (PhaseView::AwaitDeparted { snap, hint, ids }, EventView::CommandDone(ok)) => {
            lemma_dispatch_no_awaitdeparted(crate::policy::forget_if(p, ok, ids.to_set()), snap, hint);
        },
        (PhaseView::AwaitResnapshot { hint }, EventView::Snapshot(Some(s))) => {
            let p1 = PolicyView {
                last_state: Some(crate::policy::state_of(s)),
                last_global_focused: s.global_focused,
                ..p
            };
            lemma_dispatch_no_awaitdeparted(p1, s, hint);
        },
        _ => {},
    }
}

/// A remembered border is forgotten only in a step that reports a command
/// as delivered: when sway cannot be reached, the border stays remembered
/// for a later pass.
pub proof fn law_border_forgotten_only_after_delivery(
    p: PolicyView,
    ev: EventView,
    post: PolicyView,
    act: ActionView,
    id: i64,
)
    requires
        pass_step(p, ev, post, act),
        p.saved_borders.contains_key(id),
        !post.saved_borders.contains_key(id),
    ensures
        ev == EventView::CommandDone(true),
{
    match (p.phase, ev) {
        (PhaseView::AwaitStable { hint }, EventView::Snapshot(Some(s))) => {
            if !unchanged(p, s, hint) {
                let ids = choose|ids: Seq<i64>|
                    {
                        &&& ids.no_duplicates()
                        &&& ids.to_set() == crate::policy::departed_ids(p.saved_borders.dom(), s.tiled)
                        &&& (post, act) == #[trigger] changed_step(p, s, hint, ids)
                    };
                if ids.len() == 0 {
                    let p1 = PolicyView { last_state: Some(crate::policy::state_of(s)), ..p };
                    lemma_after_restore_saves(p1, s, crate::policy::relevant_hint(p, s, hint), post, act);
                }
            }
        },
        (PhaseView::AwaitDeparted { snap, hint, ids }, EventView::CommandDone(ok)) => {
            lemma_after_restore_saves(crate::policy::forget_if(p, ok, ids.to_set()), snap, hint, post, act);
        },
        (PhaseView::AwaitResnapshot { hint }, EventView::Snapshot(Some(s))) => {
            let p1 = PolicyView {
                last_state: Some(crate::policy::state_of(s)),
                last_global_focused: s.global_focused,
                ..p
            };
            lemma_dispatch_saves(p1, s, hint, post, act);
        },
        _ => {},
    }
}

/// A lone window that nobody made fullscreen, with no floating window
/// beside it, gets the monocle look (no split, `splith`, the management
/// mark, no border), and its border is remembered before that: the one
/// remembered already, else the one it has now.
pub proof fn law_monocle_remembers_border(p: PolicyView, s: SnapView, hint: Option<i64>)
    requires
        s.tiled.len() == 1,
        !s.tiled[0].has_auto_fs(),
        !s.tiled[0].is_fs(),
        s.float_n == 0,
    ensures
        dispatch_step(p, s, hint).1 == ActionView::Command(monocle_text(s.tiled[0].id, s.ws_name)),
        dispatch_step(p, s, hint).0.saved_borders == save_spec(p.saved_borders, s.tiled[0]),
        dispatch_step(p, s, hint).0.saved_borders.contains_key(s.tiled[0].id),
{
}

/// When a floating window appears beside the managed window, the
/// window's remembered border comes back and its mark goes.
pub proof fn law_dialog_restores_border(p: PolicyView, s: SnapView, hint: Option<i64>)
    requires
        s.tiled.len() == 1,
        s.tiled[0].has_auto_fs(),
        s.float_n > 0,
    ensures
        dispatch_step(p, s, hint).1 == ActionView::Command(
            crate::commands::single_restore_text(
                s.tiled[0].id,
                crate::policy::restore_text(p.saved_borders, s.tiled[0].id),
            ),
        ),
{
}

/// Nothing changed since the last pass, no new window was hinted, and
/// nothing calls for action: the pass sends no command and only notes the
/// focused window.
pub proof fn law_unchanged_pass_is_quiet(
    p: PolicyView,
    s: SnapView,
    hint: Option<i64>,
    post: PolicyView,
    act: ActionView,
)
    requires
        p.phase == (PhaseView::AwaitStable { hint }),
        pass_step(p, EventView::Snapshot(Some(s)), post, act),
        unchanged(p, s, hint),
    ensures
        act == ActionView::Done,
        post == (PolicyView { phase: PhaseView::Idle, last_global_focused: s.global_focused, ..p }),
{
}

/// Focus is moved only while the managed output holds focus: the daemon
/// never pulls focus from another output.
pub proof fn law_focus_only_when_output_focused(p: PolicyView, s: SnapView, hint: Option<i64>)
    ensures
        ({
            let post = dispatch_step(p, s, hint).0;
            (post.phase is AwaitFocusSent || (post.phase is AwaitTransition && post.phase->focus is Some))
                ==> s.any_focused
        }),
{
}

/// Several windows, none of them managed, on a workspace the user laid out
/// other than tabbed: the daemon backs off.
pub proof fn law_user_layout_respected(p: PolicyView, s: SnapView, hint: Option<i64>)
    requires
        s.tiled.len() >= 2,
        managed_ids(s.tiled).len() == 0,
        s.ws_layout != "tabbed"@,
    ensures
        dispatch_step(p, s, hint) == to_post(p),
{
}

/// A window the user made fullscreen is left alone, alone or among others.
pub proof fn law_user_fullscreen_respected(p: PolicyView, s: SnapView, hint: Option<i64>)
    requires
        s.tiled.len() >= 1,
        s.tiled.len() == 1 ==> s.tiled[0].is_fs() && !s.tiled[0].has_auto_fs(),
        s.tiled.len() >= 2 ==> user_fullscreen(s.tiled),
    ensures
        dispatch_step(p, s, hint) == to_post(p),
{
}

/// With several windows on a tabbed workspace that holds focus, a newly
/// arrived window is focused.
pub proof fn law_new_window_focused_in_tabbed(p: PolicyView, s: SnapView, h: i64)
    requires
        s.tiled.len() >= 2,
        !user_fullscreen(s.tiled),
        managed_ids(s.tiled).len() == 0,
        s.ws_layout == "tabbed"@,
        s.any_focused,
    ensures
        dispatch_step(p, s, Some(h)).1 == ActionView::Command(focus_text(h)),
{
}

/// A floating fullscreen window makes the pass back off; the window focused
/// before it appeared is remembered for when it goes.
pub proof fn law_floating_fullscreen_backs_off(p: PolicyView, s: SnapView, hint: Option<i64>)
    requires
        s.float_fs > 0,
    ensures
        after_restore_step(p, s, hint).1 == ActionView::Done,
        after_restore_step(p, s, hint).0.floating_fs_active,
        after_restore_step(p, s, hint).0.saved_focused == if p.floating_fs_active {
            p.saved_focused
        } else {
            p.last_global_focused
        },
        after_restore_step(p, s, hint).0.saved_borders == p.saved_borders,
{
}

/// Once the switch to tabbed is delivered, none of the windows it
/// unmarked has a border remembered any more.
pub proof fn law_transition_forgets_managed(
    p: PolicyView,
    ids: Seq<i64>,
    focus: Option<i64>,
    post: PolicyView,
    act: ActionView,
    id: i64,
)
    requires
        p.phase == (PhaseView::AwaitTransition { ids, focus }),
        pass_step(p, EventView::CommandDone(true), post, act),
        ids.contains(id),
    ensures
        !post.saved_borders.contains_key(id),
{
}

/// Several windows, one of them managed and no unmanaged one made
/// fullscreen by the user: the workspace turns tabbed in one command
/// (fullscreen is turned off on the managed windows that have it, the
/// managed windows get their remembered borders back and lose the mark,
/// every split is undone),
/// and when the output holds focus, the hinted window is focused.
pub proof fn law_transition_to_tabbed(p: PolicyView, s: SnapView, hint: Option<i64>)
    requires
        s.tiled.len() >= 2,
        !user_fullscreen(s.tiled),
        managed_ids(s.tiled).len() > 0,
    ensures
        dispatch_step(p, s, hint).1 == ActionView::Command(
            crate::policy::transition_text(managed_ids(s.tiled), s.tiled, s.ws_name, p.saved_borders),
        ),
        dispatch_step(p, s, hint).0.saved_borders == p.saved_borders,
        dispatch_step(p, s, hint).0.phase is AwaitTransition,
        s.any_focused && hint is Some ==> dispatch_step(p, s, hint).0.phase->focus == hint,
        !s.any_focused ==> dispatch_step(p, s, hint).0.phase->focus is None,
{
}

/// A window whose border is remembered and that is no longer on the
/// output (it moved away or closed) gets its border back and loses the
/// mark, in the command that a changed pass sends first.
pub proof fn law_departed_windows_restored(
    p: PolicyView,
    s: SnapView,
    hint: Option<i64>,
    post: PolicyView,
    act: ActionView,
    id: i64,
)
    requires
        p.phase == (PhaseView::AwaitStable { hint }),
        pass_step(p, EventView::Snapshot(Some(s)), post, act),
        !unchanged(p, s, hint),
        p.saved_borders.contains_key(id),
        !crate::policy::tiled_has_id(s.tiled, id),
    ensures
        exists|ids: Seq<i64>|
            {
                &&& ids.contains(id)
                &&& ids.to_set() == crate::policy::departed_ids(p.saved_borders.dom(), s.tiled)
                &&& act == ActionView::Command(#[trigger] crate::policy::departed_text(ids, p.saved_borders))
            },
        post.phase is AwaitDeparted,
{
    let ids = choose|ids: Seq<i64>|
        {
            &&& ids.no_duplicates()
            &&& ids.to_set() == crate::policy::departed_ids(p.saved_borders.dom(), s.tiled)
            &&& (post, act) == #[trigger] changed_step(p, s, hint, ids)
        };
    assert(crate::policy::departed_ids(p.saved_borders.dom(), s.tiled).contains(id));
    assert(ids.to_set().contains(id));
    assert(ids.len() > 0);
    assert(ids.contains(id));
}

/// When the floating fullscreen window is gone, the window focused before
/// it appeared is checked for visibility, and focused again only when it is
/// on a visible workspace.
pub proof fn law_focus_returns_after_floating_fullscreen(
    p: PolicyView,
    s: SnapView,
    hint: Option<i64>,
    id: i64,
    visible: bool,
    post: PolicyView,
    act: ActionView,
)
    requires
        s.float_fs == 0,
        p.floating_fs_active,
        p.saved_focused == Some(id),
        pass_step(after_restore_step(p, s, hint).0, EventView::Visibility(visible), post, act),
    ensures
        after_restore_step(p, s, hint).1 == ActionView::CheckVisible(id),
        !after_restore_step(p, s, hint).0.floating_fs_active,
        after_restore_step(p, s, hint).0.saved_focused is None,
        visible ==> act == ActionView::Command(focus_text(id)),
        !visible ==> act == ActionView::Snapshot,
{
}

proof fn lemma_fullscreen_managed_listed(ws: Seq<WinView>, i: int)
    requires
        0 <= i < ws.len(),
        ws[i].has_auto_fs(),
        ws[i].is_fs(),
    ensures
        crate::policy::fullscreen_managed_ids(ws).contains(ws[i].id),
    decreases ws.len(),
{
    let init = crate::policy::fullscreen_managed_ids(ws.drop_last());
    if i == ws.len() - 1 {
        assert(crate::policy::fullscreen_managed_ids(ws) == init.push(ws[i].id));
        assert(init.push(ws[i].id)[init.len() as int] == ws[i].id);
    } else {
        lemma_fullscreen_managed_listed(ws.drop_last(), i);
        let k = choose|k: int| 0 <= k < init.len() && init[k] == ws[i].id;
        if ws.last().has_auto_fs() && ws.last().is_fs() {
            assert(crate::policy::fullscreen_managed_ids(ws)[k] == ws[i].id);
        } else {
            assert(crate::policy::fullscreen_managed_ids(ws)[k] == ws[i].id);
        }
    }
}

/// A managed window that the user made fullscreen, when more windows join
/// it: fullscreen is turned off on it first, in the command that then
/// restores its border, unmarks it and turns the workspace tabbed.
pub proof fn law_fullscreen_disabled_before_tabbed(p: PolicyView, s: SnapView, hint: Option<i64>, i: int)
    requires
        s.tiled.len() >= 2,
        !user_fullscreen(s.tiled),
        0 <= i < s.tiled.len(),
        s.tiled[i].has_auto_fs(),
        s.tiled[i].is_fs(),
    ensures
        crate::policy::fullscreen_managed_ids(s.tiled).contains(s.tiled[i].id),
        dispatch_step(p, s, hint).1 == ActionView::Command(
            crate::commands::fullscreen_disable_text(crate::policy::fullscreen_managed_ids(s.tiled))
                + crate::policy::departed_text(managed_ids(s.tiled), p.saved_borders)
                + crate::commands::split_none_text(crate::policy::window_ids(s.tiled))
                + crate::commands::tabbed_text(s.ws_name),
        ),
{
    lemma_fullscreen_managed_listed(s.tiled, i);
    lemma_managed_listed(s.tiled, i);
}

proof fn lemma_managed_listed(ws: Seq<WinView>, i: int)
    requires
        0 <= i < ws.len(),
        ws[i].has_auto_fs(),
    ensures
        managed_ids(ws).len() > 0,
    decreases ws.len(),
{
    if i < ws.len() - 1 {
        lemma_managed_listed(ws.drop_last(), i);
    }
}

proof fn lemma_first_unmanaged_at(ws: Seq<WinView>, i: int)
    requires
        0 <= i < ws.len(),
        !ws[i].has_auto_fs(),
        forall|k: int| 0 <= k < i ==> (#[trigger] ws[k]).has_auto_fs(),
    ensures
        crate::policy::first_unmanaged(ws) == Some(ws[i].id),
    decreases i,
{
    if i > 0 {
        assert(ws[0].has_auto_fs());
        assert forall|k: int| 0 <= k < i - 1 implies (#[trigger] ws.drop_first()[k]).has_auto_fs() by {
            assert(ws.drop_first()[k] == ws[k + 1]);
        }
        lemma_first_unmanaged_at(ws.drop_first(), i - 1);
    }
}

proof fn lemma_first_unmanaged_none(ws: Seq<WinView>)
    requires
        forall|k: int| 0 <= k < ws.len() ==> (#[trigger] ws[k]).has_auto_fs(),
    ensures
        crate::policy::first_unmanaged(ws) is None,
    decreases ws.len(),
{
    if ws.len() > 0 {
        assert(ws[0].has_auto_fs());
        assert forall|k: int| 0 <= k < ws.len() - 1 implies (#[trigger] ws.drop_first()[k]).has_auto_fs() by {
            assert(ws.drop_first()[k] == ws[k + 1]);
        }
        lemma_first_unmanaged_none(ws.drop_first());
    }
}

proof fn lemma_first_unmanaged_in(ws: Seq<WinView>)
    ensures
        crate::policy::first_unmanaged(ws) matches Some(id) ==> exists|k: int|
            0 <= k < ws.len() && (#[trigger] ws[k]).id == id && !ws[k].has_auto_fs(),
    decreases ws.len(),
{
    if ws.len() > 0 && ws[0].has_auto_fs() {
        lemma_first_unmanaged_in(ws.drop_first());
        if crate::policy::first_unmanaged(ws) is Some {
            let id = crate::policy::first_unmanaged(ws)->0;
            let k = choose|k: int|
                0 <= k < ws.drop_first().len() && (#[trigger] ws.drop_first()[k]).id == id
                    && !ws.drop_first()[k].has_auto_fs();
            assert(ws[k + 1] == ws.drop_first()[k]);
        }
    } else if ws.len() > 0 {
        assert(ws[0].id == ws[0].id);
    }
}

/// Switching to tabbed with no hint while the output holds focus: focus
/// goes to the first window (in tree order) that does not carry the
/// management mark, the newcomer; only when every window carries it does
/// focus go to the first window.
pub proof fn law_transition_focuses_first_unmarked(p: PolicyView, s: SnapView)
    requires
        s.tiled.len() >= 2,
        !user_fullscreen(s.tiled),
        managed_ids(s.tiled).len() > 0,
        s.any_focused,
    ensures
        dispatch_step(p, s, None).0.phase is AwaitTransition,
        forall|i: int|
            0 <= i < s.tiled.len() && !s.tiled[i].has_auto_fs() && (forall|k: int|
                0 <= k < i ==> (#[trigger] s.tiled[k]).has_auto_fs()) ==> dispatch_step(p, s, None).0.phase->focus
                == Some(#[trigger] s.tiled[i].id),
        (forall|k: int| 0 <= k < s.tiled.len() ==> (#[trigger] s.tiled[k]).has_auto_fs())
            ==> dispatch_step(p, s, None).0.phase->focus == Some(s.tiled[0].id),
        (exists|k: int| 0 <= k < s.tiled.len() && !(#[trigger] s.tiled[k]).has_auto_fs()) ==> exists|k: int|
            0 <= k < s.tiled.len() && !(#[trigger] s.tiled[k]).has_auto_fs() && dispatch_step(p, s, None).0.phase->focus
                == Some(s.tiled[k].id),
{
    assert forall|i: int|
        0 <= i < s.tiled.len() && !s.tiled[i].has_auto_fs() && (forall|k: int|
            0 <= k < i ==> (#[trigger] s.tiled[k]).has_auto_fs()) implies dispatch_step(p, s, None).0.phase->focus
        == Some(#[trigger] s.tiled[i].id) by {
        lemma_first_unmanaged_at(s.tiled, i);
    }
    if forall|k: int| 0 <= k < s.tiled.len() ==> (#[trigger] s.tiled[k]).has_auto_fs() {
        lemma_first_unmanaged_none(s.tiled);
    }
    lemma_first_unmanaged_in(s.tiled);
    if exists|k: int| 0 <= k < s.tiled.len() && !(#[trigger] s.tiled[k]).has_auto_fs() {
        if crate::policy::first_unmanaged(s.tiled) is None {
            let k = choose|k: int| 0 <= k < s.tiled.len() && !(#[trigger] s.tiled[k]).has_auto_fs();
            lemma_first_unmanaged_absent(s.tiled, k);
        }
    }
}

proof fn lemma_first_unmanaged_absent(ws: Seq<WinView>, k: int)
    requires
        0 <= k < ws.len(),
        !ws[k].has_auto_fs(),
    ensures
        crate::policy::first_unmanaged(ws) is Some,
    decreases k,
{
    if k > 0 && ws[0].has_auto_fs() {
        assert(ws.drop_first()[k - 1] == ws[k]);
        lemma_first_unmanaged_absent(ws.drop_first(), k - 1);
    }
}

/// A lone unmarked window beside a floating window gets nothing: no
/// monocle command and no border saved; the pass only reads the tree again.
pub proof fn law_floating_window_blocks_monocle(p: PolicyView, s: SnapView, hint: Option<i64>)
    requires
        s.tiled.len() == 1,
        !s.tiled[0].has_auto_fs(),
        s.float_n > 0,
    ensures
        dispatch_step(p, s, hint).1 == ActionView::Snapshot,
        dispatch_step(p, s, hint).0 == (PolicyView { phase: PhaseView::AwaitPost, ..p }),
{
}

proof fn lemma_after_restore_targets(p: PolicyView, s: SnapView, rel: Option<i64>)
    requires
        rel matches Some(h) ==> crate::policy::tiled_has_id(s.tiled, h),
    ensures
        after_restore_step(p, s, rel).0.phase matches PhaseView::AwaitFocusSent { target }
            ==> crate::policy::tiled_has_id(s.tiled, target),
        after_restore_step(p, s, rel).0.phase matches PhaseView::AwaitTransition { focus: Some(t), .. }
            ==> crate::policy::tiled_has_id(s.tiled, t),
{
    lemma_first_unmanaged_in(s.tiled);
    if s.tiled.len() > 0 {
        assert(s.tiled[0].id == s.tiled[0].id);
    }
}

/// Every focus command that a pass decides on when its snapshot arrives
/// names a tiled window of that snapshot, a window of the managed output:
/// the direct focus of a new arrival, the focus after the switch to tabbed,
/// and the hint kept while borders of departed windows are restored.
pub proof fn law_focus_targets_output_window(
    p: PolicyView,
    s: SnapView,
    hint: Option<i64>,
    post: PolicyView,
    act: ActionView,
)
    requires
        p.phase == (PhaseView::AwaitStable { hint }),
        pass_step(p, EventView::Snapshot(Some(s)), post, act),
    ensures
        post.phase matches PhaseView::AwaitFocusSent { target } ==> exists|k: int|
            0 <= k < s.tiled.len() && (#[trigger] s.tiled[k]).id == target,
        post.phase matches PhaseView::AwaitTransition { focus: Some(t), .. } ==> exists|k: int|
            0 <= k < s.tiled.len() && (#[trigger] s.tiled[k]).id == t,
        post.phase matches PhaseView::AwaitDeparted { snap, hint: Some(h), .. } ==> snap == s && exists|k: int|
            0 <= k < s.tiled.len() && (#[trigger] s.tiled[k]).id == h,
{
    if !unchanged(p, s, hint) {
        let ids = choose|ids: Seq<i64>|
            {
                &&& ids.no_duplicates()
                &&& ids.to_set() == crate::policy::departed_ids(p.saved_borders.dom(), s.tiled)
                &&& (post, act) == #[trigger] changed_step(p, s, hint, ids)
            };
        let p1 = PolicyView { last_state: Some(crate::policy::state_of(s)), ..p };
        lemma_after_restore_targets(p1, s, crate::policy::relevant_hint(p, s, hint));
    }
}

/// The walk on from restoring departed windows keeps to the same rule: a
/// kept hint that names a window of the stored snapshot leads only to focus
/// commands for windows of that snapshot.
pub proof fn law_focus_after_departed_targets_output_window(
    p: PolicyView,
    snap: SnapView,
    hint: Option<i64>,
    ids: Seq<i64>,
    ok: bool,
    post: PolicyView,
    act: ActionView,
)
    requires
        p.phase == (PhaseView::AwaitDeparted { snap, hint, ids }),
        hint matches Some(h) ==> exists|k: int| 0 <= k < snap.tiled.len() && (#[trigger] snap.tiled[k]).id == h,
        pass_step(p, EventView::CommandDone(ok), post, act),
    ensures
        post.phase matches PhaseView::AwaitFocusSent { target } ==> exists|k: int|
            0 <= k < snap.tiled.len() && (#[trigger] snap.tiled[k]).id == target,
        post.phase matches PhaseView::AwaitTransition { focus: Some(t), .. } ==> exists|k: int|
            0 <= k < snap.tiled.len() && (#[trigger] snap.tiled[k]).id == t,
{
    lemma_after_restore_targets(crate::policy::forget_if(p, ok, ids.to_set()), snap, hint);
}

} // verus!
