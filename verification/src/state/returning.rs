//! Windows that are hidden, minimized or made to fill a screen come back to
//! where they were.

use vstd::prelude::*;
use super::laws::{housed, law_scanning_keeps_windows_housed, placed_on, seated};
use super::scan::{
    admitted, first_placement, first_workspace, in_its_place, noticed, put_off, ScannedView,
    TreeReply,
};
use super::switching::switch_outcome;
use super::{ActionView, PlacementView, StateView};
use crate::placement::{
    restore_of, restored_placement, special_in, special_of, special_placement, PlacementKind,
    Restore, SpecialKind,
};

verus! {

/// The special state that a window was found in.
pub open spec fn live_state(w: ScannedView) -> Option<SpecialKind> {
    special_of(w.app_hidden, w.minimized, w.window.fullscreen)
}

/// Two placements differ at most in where the user has a floating window.
pub open spec fn same_kind(a: PlacementKind, b: PlacementKind) -> bool {
    a == b || (a is Floating && b is Floating)
}

/// A window belongs to a workspace as tiled or floating, and is in a special
/// state or in none. It has a leaf in the tree of that workspace exactly if it
/// is in none, and none in any other tree.
pub open spec fn settled(
    s: StateView,
    id: u32,
    name: Seq<char>,
    restore: Restore,
    special: Option<SpecialKind>,
) -> bool {
    &&& s.placements.contains_key(id)
    &&& s.placements[id].workspace == name
    &&& match special {
        Some(kind) => s.placements[id].kind == special_placement(kind, restore),
        None => same_kind(s.placements[id].kind, restored_placement(restore)),
    }
    &&& forall|n: Seq<char>| #[trigger]
        seated(s.forest, n, id) <==> special is None && n == name
}

/// What one scan says of a window.
pub struct Finding {
    pub id: u32,
    pub scanned: ScannedView,
    /// The workspace that was active when the scan began.
    pub active: Seq<char>,
    pub now: u64,
    pub reply: TreeReply,
    /// What had to be done then.
    pub acts: Seq<ActionView>,
}

/// The states that the state goes through while windows are found, in turn.
pub open spec fn course(states: Seq<StateView>, found: Seq<Finding>) -> bool {
    &&& states.len() == found.len() + 1
    &&& forall|i: int|
        0 <= i < found.len() ==> {
            let f = #[trigger] found[i];
            admitted(
                states[i],
                f.id,
                f.scanned,
                f.active,
                f.now,
                f.reply,
                states[i + 1],
                f.acts,
            )
        }
}

/// The special state that a window was found in last, `before` where it was not
/// found at all.
pub open spec fn last_state(
    found: Seq<Finding>,
    id: u32,
    before: Option<SpecialKind>,
) -> Option<SpecialKind>
    decreases found.len(),
{
    if found.len() == 0 {
        before
    } else if found.last().id == id {
        live_state(found.last().scanned)
    } else {
        last_state(found.drop_last(), id, before)
    }
}

proof fn lemma_settled(
    s: StateView,
    id: u32,
    name: Seq<char>,
    restore: Restore,
    special: Option<SpecialKind>,
)
    requires
        housed(s),
        s.placements.contains_key(id),
        s.placements[id].workspace == name,
        match special {
            Some(kind) => s.placements[id].kind == special_placement(kind, restore),
            None => same_kind(s.placements[id].kind, restored_placement(restore)),
        },
    ensures
        settled(s, id, name, restore, special),
{
    assert forall|n: Seq<char>| #[trigger] seated(s.forest, n, id) <==> special is None && n
        == name by {
        assert(seated(s.forest, n, id) <==> placed_on(s, n, id));
    }
}

/// Once a scan found a window that has a place, it is placed as the state that
/// it was found in says, on the workspace where it was. What it returns to
/// after a special state does not change, and it is then placed as that.
pub proof fn law_scan_follows_the_live_state(
    s: StateView,
    id: u32,
    w: ScannedView,
    active: Seq<char>,
    now: u64,
    reply: TreeReply,
    after: StateView,
    acts: Seq<ActionView>,
)
    requires
        housed(s),
        s.placements.contains_key(id),
        !(s.placements[id].kind is Popup),
        admitted(s, id, w, active, now, reply, after, acts),
    ensures
        settled(
            after,
            id,
            s.placements[id].workspace,
            restore_of(s.placements[id].kind),
            live_state(w),
        ),
        special_in(s.placements[id].kind) is Some && live_state(w) is None ==> after.placements[id]
            == (PlacementView {
            workspace: s.placements[id].workspace,
            kind: restored_placement(restore_of(s.placements[id].kind)),
        }),
{
    law_scanning_keeps_windows_housed(s, id, w, active, now, reply, after, acts);
    lemma_settled(
        after,
        id,
        s.placements[id].workspace,
        restore_of(s.placements[id].kind),
        live_state(w),
    );
}

/// A scan that finds a window in the state that its placement stands for moves
/// it to no other workspace, puts it in no tree and takes it out of none, and
/// leaves its kind as it is, but for where the user has it.
pub proof fn law_matching_scan_changes_no_place(
    s: StateView,
    id: u32,
    w: ScannedView,
    active: Seq<char>,
    now: u64,
    reply: TreeReply,
    after: StateView,
    acts: Seq<ActionView>,
)
    requires
        s.placements.contains_key(id),
        special_in(s.placements[id].kind) == live_state(w),
        admitted(s, id, w, active, now, reply, after, acts),
    ensures
        after.placements.contains_key(id),
        after.placements[id].workspace == s.placements[id].workspace,
        same_kind(after.placements[id].kind, s.placements[id].kind),
        after.forest == s.forest,
        after.desk == s.desk,
        after.placements.remove(id) == s.placements.remove(id),
{
    assert(after.placements.remove(id) =~= s.placements.remove(id));
}

/// A scan that finds one window changes the place of no other one.
pub proof fn law_scan_leaves_other_windows(
    s: StateView,
    id: u32,
    w: ScannedView,
    active: Seq<char>,
    now: u64,
    reply: TreeReply,
    after: StateView,
    acts: Seq<ActionView>,
)
    requires
        admitted(s, id, w, active, now, reply, after, acts),
    ensures
        after.placements.remove(id) == s.placements.remove(id),
{
    let seen = noticed(s, id, w);
    if !s.placements.contains_key(id) && !put_off(s, id, w) {
        let kind = first_placement(s, w);
        let name = first_workspace(s, w.window, active);
        let placed = StateView {
            placements: seen.placements.insert(id, PlacementView { workspace: name, kind }),
            ..seen
        };
        let rooted = in_its_place(placed, id, kind, name, reply.node);
        if after != rooted {
            let r = choose|r: Result<Seq<ActionView>, Seq<char>>| #[trigger]
                switch_outcome(rooted, name, reply.default_focus, after, r);
            assert(after.placements == rooted.placements);
        }
    }
    assert(after.placements.remove(id) =~= s.placements.remove(id));
}

/// However often and in whatever states scans find a tiled or floating window,
/// and whatever other windows they find, it keeps its workspace and what it
/// returns to. At any time it is placed as the state that it was found in last
/// says, and is in the tree of its workspace exactly if that is no special one.
pub proof fn law_special_states_lose_no_window(
    states: Seq<StateView>,
    found: Seq<Finding>,
    id: u32,
    name: Seq<char>,
    restore: Restore,
    special: Option<SpecialKind>,
    at: int,
)
    requires
        course(states, found),
        housed(states[0]),
        settled(states[0], id, name, restore, special),
        0 <= at <= found.len(),
    ensures
        housed(states[at]),
        settled(states[at], id, name, restore, last_state(found.take(at), id, special)),
    decreases at,
{
    if at > 0 {
        let past = at - 1;
        law_special_states_lose_no_window(states, found, id, name, restore, special, past);
        let f = found[past];
        let s = states[past];
        let t = states[at];
        assert(found.take(at).drop_last() =~= found.take(past));
        assert(found.take(at).last() == f);
        assert(admitted(s, f.id, f.scanned, f.active, f.now, f.reply, t, f.acts));
        law_scanning_keeps_windows_housed(
            s,
            f.id,
            f.scanned,
            f.active,
            f.now,
            f.reply,
            t,
            f.acts,
        );
        if f.id == id {
            law_scan_follows_the_live_state(
                s,
                id,
                f.scanned,
                f.active,
                f.now,
                f.reply,
                t,
                f.acts,
            );
        } else {
            law_scan_leaves_other_windows(
                s,
                f.id,
                f.scanned,
                f.active,
                f.now,
                f.reply,
                t,
                f.acts,
            );
            assert(s.placements.remove(f.id).contains_key(id));
            assert(t.placements.remove(f.id).contains_key(id));
            assert(t.placements[id] == t.placements.remove(f.id)[id]);
            assert(s.placements[id] == s.placements.remove(f.id)[id]);
            lemma_settled(t, id, name, restore, last_state(found.take(past), id, special));
        }
    }
}

/// A tiled or floating window that goes through special states, one or several
/// in turn, and is then found in none, is tiled or floating as before, on the
/// workspace where it was and in its tree.
pub proof fn law_windows_come_back(
    states: Seq<StateView>,
    found: Seq<Finding>,
    id: u32,
)
    requires
        course(states, found),
        housed(states[0]),
        states[0].placements.contains_key(id),
        states[0].placements[id].kind.in_tree(),
        found.len() > 0,
        found.last().id == id,
        live_state(found.last().scanned) is None,
    ensures
        states.last().placements.contains_key(id),
        states.last().placements[id].workspace == states[0].placements[id].workspace,
        same_kind(states.last().placements[id].kind, states[0].placements[id].kind),
        forall|n: Seq<char>| #[trigger]
            seated(states.last().forest, n, id) <==> n == states[0].placements[id].workspace,
{
    let name = states[0].placements[id].workspace;
    let restore = restore_of(states[0].placements[id].kind);
    lemma_settled(states[0], id, name, restore, None);
    assert(found.take(found.len() as int) =~= found);
    law_special_states_lose_no_window(
        states,
        found,
        id,
        name,
        restore,
        None,
        found.len() as int,
    );
}

/// A tiled or floating window that is found in one special state, in another,
/// and in none, is placed as exactly the first, as exactly the second, and as
/// before, on its workspace all the while. It is in no tree in between, and in
/// that of its workspace in the end.
pub proof fn law_round_trip_through_special_states(
    states: Seq<StateView>,
    found: Seq<Finding>,
    id: u32,
    first: SpecialKind,
    second: SpecialKind,
)
    requires
        course(states, found),
        housed(states[0]),
        states[0].placements.contains_key(id),
        states[0].placements[id].kind.in_tree(),
        found.len() == 3,
        forall|i: int| 0 <= i < 3 ==> (#[trigger] found[i]).id == id,
        live_state(found[0].scanned) == Some(first),
        live_state(found[1].scanned) == Some(second),
        live_state(found[2].scanned) is None,
    ensures
        ({
            let name = states[0].placements[id].workspace;
            let restore = restore_of(states[0].placements[id].kind);
            &&& settled(states[1], id, name, restore, Some(first))
            &&& settled(states[2], id, name, restore, Some(second))
            &&& settled(states[3], id, name, restore, None)
            &&& states[3].placements[id].kind == restored_placement(restore)
        }),
{
    let name = states[0].placements[id].workspace;
    let restore = restore_of(states[0].placements[id].kind);
    lemma_settled(states[0], id, name, restore, None);
    law_special_states_lose_no_window(states, found, id, name, restore, None, 1);
    law_special_states_lose_no_window(states, found, id, name, restore, None, 2);
    law_special_states_lose_no_window(states, found, id, name, restore, None, 3);
    assert(found.take(1).last() == found[0]);
    assert(found.take(2).last() == found[1]);
    assert(found.take(3).last() == found[2]);
    let f = found[2];
    law_scan_follows_the_live_state(
        states[2],
        id,
        f.scanned,
        f.active,
        f.now,
        f.reply,
        states[3],
        f.acts,
    );
}

}
