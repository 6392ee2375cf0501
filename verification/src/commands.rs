//! The text of the sway commands the daemons send.
use vstd::prelude::*;
use crate::text::{decimal, push_decimal, str_eq};

verus! {

/// `[con_id=ID] `: the criteria that select container `id`.
pub open spec fn con_criteria(id: i64) -> Seq<char> {
    "[con_id="@ + decimal(id as int) + "] "@
}

/// The command that restores a border: `border none`, `border pixel W`,
/// `border csd`, `border normal W` for any other saved style, and
/// `border normal` when nothing was saved.
pub open spec fn border_text(saved: Option<(Seq<char>, i64)>) -> Seq<char> {
    match saved {
        Some((style, width)) => if style == "none"@ {
            "border none"@
        } else if style == "pixel"@ {
            "border pixel "@ + decimal(width as int)
        } else if style == "csd"@ {
            "border csd"@
        } else {
            "border normal "@ + decimal(width as int)
        },
        None => "border normal"@,
    }
}

/// `[con_id=ID] RESTORE; [con_id=ID] unmark _auto_fs; `: restores the
/// border of `id` and drops its management mark.
pub open spec fn unmark_text(id: i64, restore: Seq<char>) -> Seq<char> {
    con_criteria(id) + restore + "; "@ + con_criteria(id) + "unmark _auto_fs; "@
}

/// `[con_id=ID] RESTORE; [con_id=ID] unmark _auto_fs`: the same, as a
/// command of its own.
pub open spec fn single_restore_text(id: i64, restore: Seq<char>) -> Seq<char> {
    con_criteria(id) + restore + "; "@ + con_criteria(id) + "unmark _auto_fs"@
}

/// Gives the single window `id` of workspace `ws` the monocle look:
/// no split, a horizontal workspace layout, the management mark, no border.
pub open spec fn monocle_text(id: i64, ws: Seq<char>) -> Seq<char> {
    con_criteria(id) + "split none; [workspace="@ + ws + "] layout splith; "@ + con_criteria(id)
        + "mark --add _auto_fs; "@ + con_criteria(id) + "border none"@
}

/// `[workspace=WS] layout splith`.
pub open spec fn splith_text(ws: Seq<char>) -> Seq<char> {
    "[workspace="@ + ws + "] layout splith"@
}

/// `[con_id=ID] split none; ` for each id, in order.
pub open spec fn split_none_text(ids: Seq<i64>) -> Seq<char>
    decreases ids.len(),
{
    if ids.len() == 0 {
        Seq::empty()
    } else {
        split_none_text(ids.drop_last()) + con_criteria(ids.last()) + "split none; "@
    }
}

/// `[con_id=ID] fullscreen disable; ` for each id, in order.
pub open spec fn fullscreen_disable_text(ids: Seq<i64>) -> Seq<char>
    decreases ids.len(),
{
    if ids.len() == 0 {
        Seq::empty()
    } else {
        fullscreen_disable_text(ids.drop_last()) + con_criteria(ids.last()) + "fullscreen disable; "@
    }
}

/// `[workspace=WS] layout tabbed`.
pub open spec fn tabbed_text(ws: Seq<char>) -> Seq<char> {
    "[workspace="@ + ws + "] layout tabbed"@
}

/// `[con_id=ID] focus`.
pub open spec fn focus_text(id: i64) -> Seq<char> {
    con_criteria(id) + "focus"@
}

/// Appends `[con_id=ID] ` to `s`.
pub fn push_con_criteria(s: &mut String, id: i64)
    ensures
        final(s)@ == old(s)@ + con_criteria(id),
{
    s.append("[con_id=");
    push_decimal(s, id);
    s.append("] ");
    assert(final(s)@ =~= old(s)@ + con_criteria(id));
}

/// The border-restoring command for a saved style and width (see
/// `border_text`).
pub fn border_command(style: &str, width: i64) -> (r: String)
    ensures
        r@ == border_text(Some((style@, width))),
{
    if str_eq(style, "none") {
        String::from_str("border none")
    } else if str_eq(style, "pixel") {
        let mut s = String::from_str("border pixel ");
        push_decimal(&mut s, width);
        s
    } else if str_eq(style, "csd") {
        String::from_str("border csd")
    } else {
        let mut s = String::from_str("border normal ");
        push_decimal(&mut s, width);
        s
    }
}

/// The border-restoring command when no style was saved.
pub fn default_border_command() -> (r: String)
    ensures
        r@ == border_text(None),
{
    String::from_str("border normal")
}

/// Appends `unmark_text(id, restore)` to `s`.
pub fn push_unmark(s: &mut String, id: i64, restore: &str)
    ensures
        final(s)@ == old(s)@ + unmark_text(id, restore@),
{
    push_con_criteria(s, id);
    s.append(restore);
    s.append("; ");
    push_con_criteria(s, id);
    s.append("unmark _auto_fs; ");
    assert(final(s)@ =~= old(s)@ + unmark_text(id, restore@));
}

/// The command `single_restore_text(id, restore)`.
pub fn single_restore_command(id: i64, restore: &str) -> (r: String)
    ensures
        r@ == single_restore_text(id, restore@),
{
    let mut s = String::new();
    push_con_criteria(&mut s, id);
    s.append(restore);
    s.append("; ");
    push_con_criteria(&mut s, id);
    s.append("unmark _auto_fs");
    assert(s@ =~= single_restore_text(id, restore@));
    s
}

/// The command `monocle_text(id, ws)`.
pub fn monocle_command(id: i64, ws: &str) -> (r: String)
    ensures
        r@ == monocle_text(id, ws@),
{
    let mut s = String::new();
    push_con_criteria(&mut s, id);
    s.append("split none; [workspace=");
    s.append(ws);
    s.append("] layout splith; ");
    push_con_criteria(&mut s, id);
    s.append("mark --add _auto_fs; ");
    push_con_criteria(&mut s, id);
    s.append("border none");
    assert(s@ =~= monocle_text(id, ws@));
    s
}

/// The command `splith_text(ws)`.
pub fn splith_command(ws: &str) -> (r: String)
    ensures
        r@ == splith_text(ws@),
{
    let mut s = String::from_str("[workspace=");
    s.append(ws);
    s.append("] layout splith");
    assert(s@ =~= splith_text(ws@));
    s
}

/// Appends `[con_id=ID] split none; ` to `s`.
pub fn push_split_none(s: &mut String, id: i64)
    ensures
        final(s)@ == old(s)@ + con_criteria(id) + "split none; "@,
{
    push_con_criteria(s, id);
    s.append("split none; ");
}

/// Appends `[con_id=ID] fullscreen disable; ` to `s`.
pub fn push_fullscreen_disable(s: &mut String, id: i64)
    ensures
        final(s)@ == old(s)@ + con_criteria(id) + "fullscreen disable; "@,
{
    push_con_criteria(s, id);
    s.append("fullscreen disable; ");
}

/// Appends `tabbed_text(ws)` to `s`.
pub fn push_tabbed(s: &mut String, ws: &str)
    ensures
        final(s)@ == old(s)@ + tabbed_text(ws@),
{
    s.append("[workspace=");
    s.append(ws);
    s.append("] layout tabbed");
    assert(final(s)@ =~= old(s)@ + tabbed_text(ws@));
}

/// The command `focus_text(id)`.
pub fn focus_command(id: i64) -> (r: String)
    ensures
        r@ == focus_text(id),
{
    let mut s = String::new();
    push_con_criteria(&mut s, id);
    s.append("focus");
    assert(s@ =~= focus_text(id));
    s
}

} // verus!
