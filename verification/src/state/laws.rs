//! What holds of the window manager's state as a whole, whatever happens.

use vstd::prelude::*;
use super::bringup::{
    attended, brought_up, focus_given, focus_synced, in_front, revealed, summon_outcome,
    summoned_by,
};
use super::commands::focus_moved;
use super::presence::shown_exists;
use super::scan::{
    admitted, captured, demoted, displaced, first_placement, first_workspace, forgotten,
    forgotten_all, grown, in_its_place, noticed, promoted, put_off, scan_begun, ScannedView,
    Suggestion, TreeReply,
};
use super::setup::{at_startup, configured, startup_workspace, supplanted, with_declared};
use super::switching::{
    all_fresh, all_given, back_outcome, carried, carry_outcome, displays_outcome, floatable,
    floating_done, movable, move_done, move_outcome, named_or_active, park_each,
    park_floating, park_tiled, rearranged, refresh, switch_done, switch_outcome, taken,
};
use super::{
    active_name, default_workspace, focused_at, focused_node, parked, raised, ActionView,
    PlacementView, StateView,
};
use crate::config::{ConfigView, WorkspaceConfigView};
use crate::desk::{
    after_disconnects, after_renames, exclusive,
    law_displays_changed_keeps_exclusive, law_move_keeps_exclusive, law_switch_keeps_exclusive,
    law_switching_back_undoes_a_switch, lookup, parked_by, shown, shows_elsewhere, switched, Monitor,
    MonitorDiff,
};
use crate::display::{has_id, one_display, paired, renamed_to};
use crate::dispatch::{dispatched, Permissions, TreeAnswer};
use crate::forest::{
    leaf_from, leaves_of, taken_out, window_at, window_from, with_focus, with_leaf, with_workspace,
    without, ForestView, Leaf,
};
use crate::grace::waking;
use crate::ipc::{Command, MonitorTarget, Response};
use crate::placement::{PlacementKind, Restore, SpecialKind};
use crate::text::opt_text;

verus! {

/// Some leaf holds a window.
pub open spec fn has_leaf(s: Seq<Leaf>, window: u32) -> bool {
    exists|i: int| 0 <= i < s.len() && (#[trigger] s[i]).window == window
}

/// No two leaves hold one window.
pub open spec fn distinct_windows(s: Seq<Leaf>) -> bool {
    forall|i: int, j: int|
        0 <= i < j < s.len() ==> (#[trigger] s[i]).window != (#[trigger] s[j]).window
}

/// A window has a leaf in the tree of a workspace.
pub open spec fn seated(f: ForestView, name: Seq<char>, window: u32) -> bool {
    has_leaf(leaves_of(f, name), window)
}

/// A window is placed on a workspace as tiled or floating.
pub open spec fn placed_on(s: StateView, name: Seq<char>, id: u32) -> bool {
    s.placements.contains_key(id) && s.placements[id].workspace == name
        && s.placements[id].kind.in_tree()
}

/// Trees and placements tell the same: a window has a leaf in the tree of a
/// workspace exactly if it is tiled or floating there, and then only one. So no
/// window is in two trees, and none is lost.
pub open spec fn housed(s: StateView) -> bool {
    &&& forall|name: Seq<char>, id: u32| #[trigger]
        seated(s.forest, name, id) <==> placed_on(s, name, id)
    &&& forall|name: Seq<char>| distinct_windows(#[trigger] leaves_of(s.forest, name))
}

proof fn lemma_leaf_place(s: Seq<Leaf>, window: u32, from: int)
    requires
        0 <= from <= s.len(),
    ensures
        from <= leaf_from(s, window, from) <= s.len(),
        leaf_from(s, window, from) < s.len() ==> s[leaf_from(s, window, from)].window == window,
        leaf_from(s, window, from) == s.len() ==> forall|i: int|
            from <= i < s.len() ==> (#[trigger] s[i]).window != window,
    decreases s.len() - from,
{
    if from < s.len() && s[from].window != window {
        lemma_leaf_place(s, window, from + 1);
    }
}

proof fn lemma_window_from(s: Seq<Leaf>, node: u64, from: int)
    requires
        0 <= from <= s.len(),
    ensures
        window_from(s, node, from) matches Some(w) ==> has_leaf(s, w),
    decreases s.len() - from,
{
    if from < s.len() {
        if s[from].node == node {
            assert(s[from].window == s[from].window);
        } else {
            lemma_window_from(s, node, from + 1);
        }
    }
}

proof fn lemma_without(s: Seq<Leaf>, window: u32)
    requires
        distinct_windows(s),
    ensures
        distinct_windows(without(s, window)),
        forall|x: u32| #[trigger]
            has_leaf(without(s, window), x) <==> has_leaf(s, x) && x != window,
{
    lemma_leaf_place(s, window, 0);
    let k = leaf_from(s, window, 0);
    let t = without(s, window);
    assert forall|x: u32| #[trigger] has_leaf(t, x) <==> has_leaf(s, x) && x != window by {
        if has_leaf(t, x) {
            let i = choose|i: int| 0 <= i < t.len() && (#[trigger] t[i]).window == x;
            if k < s.len() {
                let i1 = if i < k { i } else { i + 1 };
                assert(t[i] == s[i1]);
                assert(s[k].window == window);
            }
        }
        if has_leaf(s, x) && x != window {
            let i = choose|i: int| 0 <= i < s.len() && (#[trigger] s[i]).window == x;
            if k < s.len() {
                let i1 = if i < k { i } else { i - 1 };
                assert(t[i1] == s[i]);
            } else {
                assert(t[i].window == x);
            }
        }
    }
    if k < s.len() {
        assert forall|i: int, j: int| 0 <= i < j < t.len() implies (#[trigger] t[i]).window != (
        #[trigger] t[j]).window by {
            let i1 = if i < k { i } else { i + 1 };
            let j1 = if j < k { j } else { j + 1 };
            assert(t[i] == s[i1] && t[j] == s[j1]);
        }
    }
}

proof fn lemma_push(s: Seq<Leaf>, leaf: Leaf)
    requires
        distinct_windows(s),
        !has_leaf(s, leaf.window),
    ensures
        distinct_windows(s.push(leaf)),
        forall|x: u32| #[trigger]
            has_leaf(s.push(leaf), x) <==> has_leaf(s, x) || x == leaf.window,
{
    let t = s.push(leaf);
    assert(t[s.len() as int] == leaf);
    assert forall|x: u32| #[trigger] has_leaf(t, x) <==> has_leaf(s, x) || x == leaf.window by {
        if has_leaf(t, x) {
            let i = choose|i: int| 0 <= i < t.len() && (#[trigger] t[i]).window == x;
            if i < s.len() {
                assert(s[i].window == x);
            }
        }
        if has_leaf(s, x) {
            let i = choose|i: int| 0 <= i < s.len() && (#[trigger] s[i]).window == x;
            assert(t[i].window == x);
        }
    }
    assert forall|i: int, j: int| 0 <= i < j < t.len() implies (#[trigger] t[i]).window != (
    #[trigger] t[j]).window by {
        assert(s[i] == t[i]);
    }
}

/// The leaves of every workspace are distinct.
pub open spec fn orderly(f: ForestView) -> bool {
    forall|name: Seq<char>| distinct_windows(#[trigger] leaves_of(f, name))
}

proof fn lemma_with_leaf(f: ForestView, name: Seq<char>, leaf: Leaf)
    requires
        orderly(f),
        !seated(f, name, leaf.window),
    ensures
        orderly(with_leaf(f, name, leaf)),
        forall|n: Seq<char>, x: u32| #[trigger]
            seated(with_leaf(f, name, leaf), n, x) <==> seated(f, n, x) || (n == name && x
                == leaf.window),
{
    lemma_push(leaves_of(f, name), leaf);
    let g = with_leaf(f, name, leaf);
    assert forall|n: Seq<char>| distinct_windows(#[trigger] leaves_of(g, n)) by {
        if n != name {
            assert(leaves_of(g, n) == leaves_of(f, n));
        }
    }
    assert forall|n: Seq<char>, x: u32| #[trigger] seated(g, n, x) <==> seated(f, n, x) || (n
        == name && x == leaf.window) by {
        if n != name {
            assert(leaves_of(g, n) == leaves_of(f, n));
        }
    }
}

proof fn lemma_taken_out(f: ForestView, name: Seq<char>, window: u32, suggested: Option<u64>)
    requires
        orderly(f),
    ensures
        orderly(taken_out(f, name, window, suggested)),
        forall|n: Seq<char>, x: u32| #[trigger]
            seated(taken_out(f, name, window, suggested), n, x) <==> seated(f, n, x) && !(n == name
                && x == window),
{
    let g = taken_out(f, name, window, suggested);
    if f.leaves.contains_key(name) {
        assert(distinct_windows(leaves_of(f, name)));
        lemma_without(f.leaves[name], window);
    }
    assert forall|n: Seq<char>| distinct_windows(#[trigger] leaves_of(g, n)) by {
        if n != name {
            assert(leaves_of(g, n) == leaves_of(f, n));
        }
    }
    assert forall|n: Seq<char>, x: u32| #[trigger] seated(g, n, x) <==> seated(f, n, x) && !(n
        == name && x == window) by {
        if n != name {
            assert(leaves_of(g, n) == leaves_of(f, n));
        }
    }
}

/// Two forests have the same leaves.
pub open spec fn same_leaves(f: ForestView, g: ForestView) -> bool {
    forall|name: Seq<char>| #[trigger] leaves_of(g, name) == leaves_of(f, name)
}

proof fn lemma_with_workspace(f: ForestView, name: Seq<char>)
    ensures
        same_leaves(f, with_workspace(f, name)),
{
    let g = with_workspace(f, name);
    assert forall|n: Seq<char>| #[trigger] leaves_of(g, n) == leaves_of(f, n) by {
        if n == name {
            assert(g.leaves.contains_key(n));
        }
    }
}

/// With the same leaves and the same placements, windows stay housed.
proof fn lemma_same_house(s: StateView, t: StateView)
    requires
        housed(s),
        same_leaves(s.forest, t.forest),
        t.placements == s.placements,
    ensures
        housed(t),
{
    assert forall|name: Seq<char>, id: u32| #[trigger]
        seated(t.forest, name, id) <==> placed_on(t, name, id) by {
        assert(leaves_of(t.forest, name) == leaves_of(s.forest, name));
        assert(seated(s.forest, name, id) <==> placed_on(s, name, id));
    }
    assert forall|name: Seq<char>| distinct_windows(#[trigger] leaves_of(t.forest, name)) by {
        assert(leaves_of(t.forest, name) == leaves_of(s.forest, name));
    }
}

pub(super) proof fn lemma_focused_at(s: StateView, node: u64)
    ensures
        same_leaves(s.forest, focused_at(s, node).0.forest),
        focused_at(s, node).0.placements == s.placements,
        focused_at(s, node).0.desk == s.desk,
{
    let f = with_focus(s.forest, active_name(s), node);
    lemma_with_workspace(f, active_name(s));
    assert forall|n: Seq<char>| #[trigger]
        leaves_of(focused_at(s, node).0.forest, n) == leaves_of(s.forest, n) by {
        assert(leaves_of(f, n) == leaves_of(s.forest, n));
    }
}

pub(super) proof fn lemma_switch(
    s: StateView,
    name: Seq<char>,
    default_focus: Option<u64>,
    after: StateView,
    r: Result<Seq<ActionView>, Seq<char>>,
)
    requires
        switch_outcome(s, name, default_focus, after, r),
    ensures
        same_leaves(s.forest, after.forest),
        after.placements == s.placements,
        after.desk == s.desk || exists|swap: Option<u32>|
            shows_elsewhere(s.desk.active, name, s.desk.focused, swap) && after.desk
                == #[trigger] switched(s.desk, name, swap),
        r is Err ==> after == s,
        s.forest.leaves.contains_key(name) ==> r is Ok,
{
    if s.forest.leaves.contains_key(name) && lookup(s.desk.active, s.desk.focused) != Some(name) {
        let swap = choose|swap: Option<u32>|
            shows_elsewhere(s.desk.active, name, s.desk.focused, swap) && r is Ok && (
                after,
                r->Ok_0,
            ) == #[trigger] switch_done(s, name, swap, default_focus);
        let mid = StateView { desk: switched(s.desk, name, swap), ..s };
        let restore = match lookup(s.forest.focus, name) {
            Some(node) => Some(node),
            None => default_focus,
        };
        if restore is Some {
            lemma_focused_at(mid, restore->0);
        }
        assert(after.desk == switched(s.desk, name, swap));
    }
}

proof fn lemma_switch_exclusive(
    s: StateView,
    name: Seq<char>,
    default_focus: Option<u64>,
    after: StateView,
    r: Result<Seq<ActionView>, Seq<char>>,
)
    requires
        switch_outcome(s, name, default_focus, after, r),
        exclusive(s.desk.active),
    ensures
        exclusive(after.desk.active),
{
    lemma_switch(s, name, default_focus, after, r);
    if after.desk != s.desk {
        let swap = choose|swap: Option<u32>|
            shows_elsewhere(s.desk.active, name, s.desk.focused, swap) && after.desk
                == #[trigger] switched(s.desk, name, swap);
        law_switch_keeps_exclusive(s.desk, name, swap);
    }
}

pub(super) proof fn lemma_brought_up(
    s: StateView,
    name: Seq<char>,
    default_focus: Option<u64>,
    mid: StateView,
    r: Result<Seq<ActionView>, Seq<char>>,
)
    requires
        brought_up(s, name, default_focus, mid, r),
    ensures
        same_leaves(s.forest, mid.forest),
        mid.placements == s.placements,
        exclusive(s.desk.active) ==> exclusive(mid.desk.active),
        r is Err ==> mid == s,
{
    if !shown(s.desk.active, name) {
        lemma_switch(s, name, default_focus, mid, r);
        if exclusive(s.desk.active) {
            lemma_switch_exclusive(s, name, default_focus, mid, r);
        }
    }
}

pub(super) proof fn lemma_focus_given(s: StateView, id: u32)
    ensures
        same_leaves(s.forest, focus_given(s, id).0.forest),
        focus_given(s, id).0.placements == s.placements,
        focus_given(s, id).0.desk == s.desk,
{
    if focus_given(s, id).0 != s {
        let p = s.placements[id];
        let node = crate::forest::node_of(s.forest, p.workspace, id)->0;
        lemma_focused_at(s, node);
    }
}

proof fn lemma_summon(
    s: StateView,
    query: Seq<char>,
    default_focus: Option<u64>,
    after: StateView,
    r: Result<Seq<ActionView>, Seq<char>>,
)
    requires
        summon_outcome(s, query, default_focus, after, r),
    ensures
        same_leaves(s.forest, after.forest),
        after.placements == s.placements,
        exclusive(s.desk.active) ==> exclusive(after.desk.active),
        r is Err ==> after == s,
{
    if let Some(id) = summoned_by(s, query) {
        if s.placements.contains_key(id) {
            let p = s.placements[id];
            let (mid, up) = choose|mid: StateView, up: Result<Seq<ActionView>, Seq<char>>| #[trigger]
                brought_up(s, p.workspace, default_focus, mid, up) && (match up {
                    Err(e) => r == up && after == mid,
                    Ok(acts) => r == Ok::<Seq<ActionView>, Seq<char>>(acts + attended(mid, id).1)
                        && after == attended(mid, id).0,
                });
            lemma_brought_up(s, p.workspace, default_focus, mid, up);
            lemma_focus_given(mid, id);
            if up is Ok {
                assert forall|n: Seq<char>| #[trigger]
                    leaves_of(after.forest, n) == leaves_of(s.forest, n) by {
                    assert(leaves_of(focus_given(mid, id).0.forest, n) == leaves_of(mid.forest, n));
                }
            }
        }
    }
}

/// A state without windows that shows one workspace is sound: trees and
/// placements tell the same, every focus is on a workspace that exists, and no
/// workspace is shown twice.
pub proof fn law_new_state_is_sound(s: StateView)
    requires
        s.placements == Map::<u32, PlacementView>::empty(),
        s.forest.leaves == Map::<Seq<char>, Seq<Leaf>>::empty().insert(
            default_workspace(),
            Seq::empty(),
        ),
        s.forest.focus == Map::<Seq<char>, u64>::empty(),
        s.desk.active == Map::<u32, Seq<char>>::empty().insert(s.desk.focused, default_workspace()),
    ensures
        housed(s),
        focus_is_grounded(s.forest),
        exclusive(s.desk.active),
{
    assert forall|name: Seq<char>| (#[trigger] leaves_of(s.forest, name)).len() == 0 by {
    }
}

/// A command that fails changes nothing and has nothing done.
pub proof fn law_failed_commands_change_nothing(
    s: StateView,
    c: Command,
    a: TreeAnswer,
    p: Permissions,
    after: StateView,
    r: Response,
    acts: Seq<ActionView>,
)
    requires
        dispatched(s, c, a, p, after, r, acts),
        r is Failed,
    ensures
        after == s,
        acts.len() == 0,
{
    match c {
        Command::WorkspaceSwitch(name) => {
            let res = choose|res: Result<Seq<ActionView>, Seq<char>>| #[trigger]
                switch_outcome(s, name@, a.found, after, res) && crate::dispatch::replied(res, r, acts);
            lemma_switch(s, name@, a.found, after, res);
        },
        Command::WorkspaceBack => {
            let res = choose|res: Result<Seq<ActionView>, Seq<char>>| #[trigger]
                back_outcome(s, a.found, after, res) && crate::dispatch::replied(res, r, acts);
            if s.desk.previous is Some {
                lemma_switch(s, s.desk.previous->0, a.found, after, res);
            }
        },
        Command::MoveNodeToWorkspace(name) => {
            let res = choose|res: Result<Seq<ActionView>, Seq<char>>| #[trigger]
                carry_outcome(s, name@, a.suggested, a.node, after, res)
                    && crate::dispatch::replied(res, r, acts);
            if let Ok(Some(id)) = movable(s, name@) {
                lemma_switch(
                    carried(s, name@, id, a.suggested, a.node),
                    name@,
                    None,
                    after,
                    res,
                );
            }
        },
        Command::Summon(query) => {
            let res = choose|res: Result<Seq<ActionView>, Seq<char>>| #[trigger]
                summon_outcome(s, query@, a.found, after, res) && crate::dispatch::replied(
                    res,
                    r,
                    acts,
                );
            lemma_summon(s, query@, a.found, after, res);
        },
        _ => {},
    }
}

/// No command makes two monitors show one workspace.
pub proof fn law_commands_keep_workspaces_apart(
    s: StateView,
    c: Command,
    a: TreeAnswer,
    p: Permissions,
    after: StateView,
    r: Response,
    acts: Seq<ActionView>,
)
    requires
        dispatched(s, c, a, p, after, r, acts),
        exclusive(s.desk.active),
    ensures
        exclusive(after.desk.active),
{
    match c {
        Command::WorkspaceSwitch(name) => {
            let res = choose|res: Result<Seq<ActionView>, Seq<char>>| #[trigger]
                switch_outcome(s, name@, a.found, after, res) && crate::dispatch::replied(res, r, acts);
            lemma_switch_exclusive(s, name@, a.found, after, res);
        },
        Command::WorkspaceBack => {
            let res = choose|res: Result<Seq<ActionView>, Seq<char>>| #[trigger]
                back_outcome(s, a.found, after, res) && crate::dispatch::replied(res, r, acts);
            if s.desk.previous is Some {
                lemma_switch_exclusive(s, s.desk.previous->0, a.found, after, res);
            }
        },
        Command::MoveNodeToWorkspace(name) => {
            let res = choose|res: Result<Seq<ActionView>, Seq<char>>| #[trigger]
                carry_outcome(s, name@, a.suggested, a.node, after, res)
                    && crate::dispatch::replied(res, r, acts);
            if let Ok(Some(id)) = movable(s, name@) {
                lemma_switch_exclusive(
                    carried(s, name@, id, a.suggested, a.node),
                    name@,
                    None,
                    after,
                    res,
                );
            }
        },
        Command::Summon(query) => {
            let res = choose|res: Result<Seq<ActionView>, Seq<char>>| #[trigger]
                summon_outcome(s, query@, a.found, after, res) && crate::dispatch::replied(
                    res,
                    r,
                    acts,
                );
            lemma_summon(s, query@, a.found, after, res);
        },
        Command::MoveWorkspaceToMonitor { workspace, target } => {
            let name = named_or_active(s, opt_text(workspace));
            let res = choose|res: Result<Seq<ActionView>, Seq<char>>| #[trigger]
                move_outcome(s, name, target, after, res) && crate::dispatch::replied(
                    res,
                    r,
                    acts,
                );
            lemma_move(s, name, target, after, res);
        },
        _ => {
            lemma_plain_commands_keep_the_desk(s, c, a, p, after, r, acts);
        },
    }
}

proof fn lemma_move(
    s: StateView,
    name: Seq<char>,
    target: MonitorTarget,
    after: StateView,
    r: Result<Seq<ActionView>, Seq<char>>,
)
    requires
        move_outcome(s, name, target, after, r),
    ensures
        after.forest == s.forest,
        after.placements == s.placements,
        exclusive(s.desk.active) ==> exclusive(after.desk.active),
{
    if s.forest.leaves.contains_key(name) {
        let to = crate::desk::resolved_target(s.desk, target);
        if to is Ok && after != s {
            let from = choose|from: Option<u32>|
                crate::desk::shows(s.desk.active, name, from) && from != Some(to->Ok_0) && r is Ok
                    && (after, r->Ok_0) == #[trigger] move_done(s, name, to->Ok_0, from);
            if exclusive(s.desk.active) {
                law_move_keeps_exclusive(s.desk, name, to->Ok_0, from);
            }
        }
    }
}

/// The commands that do not change which workspace is shown where.
pub(super) proof fn lemma_plain_commands_keep_the_desk(
    s: StateView,
    c: Command,
    a: TreeAnswer,
    p: Permissions,
    after: StateView,
    r: Response,
    acts: Seq<ActionView>,
)
    requires
        dispatched(s, c, a, p, after, r, acts),
        !(c is WorkspaceSwitch || c is WorkspaceBack || c is MoveNodeToWorkspace || c is Summon
            || c is MoveWorkspaceToMonitor),
    ensures
        after.desk.active == s.desk.active,
{
    match c {
        Command::Focus(_) => {
            if a.found is Some {
                lemma_focus_moved(s, a.found->0);
            }
        },
        Command::Move(_) => {
            if focused_node(s) is Some {
                lemma_focus_moved(s, focused_node(s)->0);
            }
        },
        Command::SetFloating(floating) => {
            if floatable(s, floating) is Ok {
                lemma_floating_done(s, floating, floatable(s, floating)->Ok_0, a.suggested, a.node);
            }
        },
        _ => {},
    }
}

proof fn lemma_focus_moved(s: StateView, node: u64)
    ensures
        same_leaves(s.forest, focus_moved(s, node).0.forest),
        focus_moved(s, node).0.placements == s.placements,
        focus_moved(s, node).0.desk == s.desk,
{
    lemma_focused_at(s, node);
}

proof fn lemma_floating_done(
    s: StateView,
    floating: bool,
    id: u32,
    suggested: Option<u64>,
    node: u64,
)
    requires
        floatable(s, floating) == Ok::<u32, Seq<char>>(id),
    ensures
        floating_done(s, floating, id, suggested, node).0.desk == s.desk,
        housed(s) ==> housed(floating_done(s, floating, id, suggested, node).0),
{
    let name = active_name(s);
    let out = taken_out(s.forest, name, id, suggested);
    let leaf = Leaf { node, window: id };
    let placed = StateView {
        forest: with_leaf(out, name, leaf),
        placements: s.placements.insert(
            id,
            PlacementView {
                workspace: name,
                kind: if floating {
                    PlacementKind::Floating { manual: None }
                } else {
                    PlacementKind::Tiled
                },
            },
        ),
        ..s
    };
    lemma_focused_at(placed, node);
    if housed(s) {
        let focus = focused_node(s)->0;
        lemma_window_from(leaves_of(s.forest, name), focus, 0);
        assert(seated(s.forest, name, id));
        lemma_taken_out(s.forest, name, id, suggested);
        assert(!seated(out, name, id));
        lemma_with_leaf(out, name, leaf);
        assert forall|n: Seq<char>, x: u32| #[trigger]
            seated(placed.forest, n, x) <==> placed_on(placed, n, x) by {
            assert(seated(s.forest, n, x) <==> placed_on(s, n, x));
            assert(seated(out, n, x) <==> seated(s.forest, n, x) && !(n == name && x == id));
        }
        assert(housed(placed));
        lemma_same_house(placed, floating_done(s, floating, id, suggested, node).0);
    }
}

proof fn lemma_carried(s: StateView, target: Seq<char>, id: u32, suggested: Option<u64>, node: u64)
    requires
        movable(s, target) == Ok::<Option<u32>, Seq<char>>(Some(id)),
        housed(s),
    ensures
        housed(carried(s, target, id, suggested, node)),
{
    let from = active_name(s);
    let f = s.forest;
    lemma_window_from(leaves_of(f, from), focused_node(s)->0, 0);
    assert(seated(f, from, id));
    assert(distinct_windows(leaves_of(f, from)));
    lemma_without(leaves_of(f, from), id);
    let left = ForestView {
        leaves: f.leaves.insert(from, without(leaves_of(f, from), id)),
        focus: match suggested {
            Some(n) => f.focus.insert(from, n),
            None => f.focus.remove(from),
        },
        ..f
    };
    assert forall|n: Seq<char>, x: u32| #[trigger] seated(left, n, x) <==> seated(f, n, x) && !(n
        == from && x == id) by {
        if n != from {
            assert(leaves_of(left, n) == leaves_of(f, n));
        }
    }
    assert forall|n: Seq<char>| distinct_windows(#[trigger] leaves_of(left, n)) by {
        if n != from {
            assert(leaves_of(left, n) == leaves_of(f, n));
        }
    }
    let leaf = Leaf { node, window: id };
    assert(!seated(left, target, id)) by {
        assert(seated(f, target, id) <==> placed_on(s, target, id));
    }
    lemma_with_leaf(left, target, leaf);
    let end = carried(s, target, id, suggested, node);
    assert forall|n: Seq<char>| #[trigger]
        leaves_of(end.forest, n) == leaves_of(with_leaf(left, target, leaf), n) by {
    }
    assert forall|n: Seq<char>, x: u32| #[trigger]
        seated(end.forest, n, x) <==> placed_on(end, n, x) by {
        assert(leaves_of(end.forest, n) == leaves_of(with_leaf(left, target, leaf), n));
        assert(seated(with_leaf(left, target, leaf), n, x) <==> seated(left, n, x) || (n == target
            && x == id));
        assert(seated(left, n, x) <==> seated(f, n, x) && !(n == from && x == id));
        assert(seated(f, n, x) <==> placed_on(s, n, x));
        assert(placed_on(s, from, id)) by {
            assert(seated(f, from, id) <==> placed_on(s, from, id));
        }
    }
    assert forall|n: Seq<char>| distinct_windows(#[trigger] leaves_of(end.forest, n)) by {
        assert(leaves_of(end.forest, n) == leaves_of(with_leaf(left, target, leaf), n));
    }
}

/// Trees and placements tell the same after every command, whatever the trees
/// answer.
pub proof fn law_commands_keep_windows_housed(
    s: StateView,
    c: Command,
    a: TreeAnswer,
    p: Permissions,
    after: StateView,
    r: Response,
    acts: Seq<ActionView>,
)
    requires
        dispatched(s, c, a, p, after, r, acts),
        housed(s),
    ensures
        housed(after),
{
    match c {
        Command::WorkspaceSwitch(name) => {
            let res = choose|res: Result<Seq<ActionView>, Seq<char>>| #[trigger]
                switch_outcome(s, name@, a.found, after, res) && crate::dispatch::replied(res, r, acts);
            lemma_switch(s, name@, a.found, after, res);
            lemma_same_house(s, after);
        },
        Command::WorkspaceBack => {
            let res = choose|res: Result<Seq<ActionView>, Seq<char>>| #[trigger]
                back_outcome(s, a.found, after, res) && crate::dispatch::replied(res, r, acts);
            if s.desk.previous is Some {
                lemma_switch(s, s.desk.previous->0, a.found, after, res);
                lemma_same_house(s, after);
            }
        },
        Command::MoveNodeToWorkspace(name) => {
            let res = choose|res: Result<Seq<ActionView>, Seq<char>>| #[trigger]
                carry_outcome(s, name@, a.suggested, a.node, after, res)
                    && crate::dispatch::replied(res, r, acts);
            if let Ok(Some(id)) = movable(s, name@) {
                let mid = carried(s, name@, id, a.suggested, a.node);
                lemma_carried(s, name@, id, a.suggested, a.node);
                lemma_switch(mid, name@, None, after, res);
                lemma_same_house(mid, after);
            }
        },
        Command::Summon(query) => {
            let res = choose|res: Result<Seq<ActionView>, Seq<char>>| #[trigger]
                summon_outcome(s, query@, a.found, after, res) && crate::dispatch::replied(
                    res,
                    r,
                    acts,
                );
            lemma_summon(s, query@, a.found, after, res);
            lemma_same_house(s, after);
        },
        Command::MoveWorkspaceToMonitor { workspace, target } => {
            let name = named_or_active(s, opt_text(workspace));
            let res = choose|res: Result<Seq<ActionView>, Seq<char>>| #[trigger]
                move_outcome(s, name, target, after, res) && crate::dispatch::replied(
                    res,
                    r,
                    acts,
                );
            lemma_move(s, name, target, after, res);
            lemma_same_house(s, after);
        },
        Command::Focus(_) => {
            if a.found is Some {
                lemma_focus_moved(s, a.found->0);
            }
            lemma_same_house(s, after);
        },
        Command::Move(_) => {
            if focused_node(s) is Some {
                lemma_focus_moved(s, focused_node(s)->0);
            }
            lemma_same_house(s, after);
        },
        Command::SetFloating(floating) => {
            if floatable(s, floating) is Ok {
                lemma_floating_done(s, floating, floatable(s, floating)->Ok_0, a.suggested, a.node);
            }
        },
        _ => {
            lemma_same_house(s, after);
        },
    }
}

proof fn lemma_displaced(s: StateView, id: u32, suggested: Option<u64>)
    requires
        housed(s),
    ensures
        housed(displaced(s, id, suggested).0),
        displaced(s, id, suggested).0.desk == s.desk,
        !displaced(s, id, suggested).0.placements.contains_key(id),
{
    let end = displaced(s, id, suggested).0;
    if s.placements.contains_key(id) {
        let p = s.placements[id];
        let g = if p.kind.in_tree() {
            taken_out(s.forest, p.workspace, id, suggested)
        } else {
            s.forest
        };
        lemma_taken_out(s.forest, p.workspace, id, suggested);
        assert(end.forest == g);
        assert(end.placements == s.placements.remove(id));
        assert forall|n: Seq<char>, x: u32| #[trigger]
            seated(end.forest, n, x) <==> placed_on(end, n, x) by {
            assert(seated(s.forest, n, x) <==> placed_on(s, n, x));
            assert(seated(taken_out(s.forest, p.workspace, id, suggested), n, x) <==> seated(
                s.forest,
                n,
                x,
            ) && !(n == p.workspace && x == id));
        }
        assert(orderly(g));
    } else {
        lemma_same_house(s, end);
    }
}

proof fn lemma_forgotten(s: StateView, id: u32, suggested: Option<u64>)
    requires
        housed(s),
    ensures
        housed(forgotten(s, id, suggested).0),
        forgotten(s, id, suggested).0.desk == s.desk,
{
    let bare = StateView {
        windows: s.windows.remove(id),
        retries: s.retries.remove(id),
        grace: crate::grace::GraceView { missing: s.grace.missing.remove(id), ..s.grace },
        ..s
    };
    lemma_same_house(s, bare);
    lemma_displaced(bare, id, suggested);
}

/// Trees and placements tell the same after windows are forgotten, because
/// their application ended or they were missing for too long. What is shown
/// stays, and every focus is on a workspace that exists.
pub proof fn law_forgetting_keeps_windows_housed(
    s: StateView,
    ids: Seq<u32>,
    suggestions: Seq<Suggestion>,
)
    requires
        housed(s),
    ensures
        housed(forgotten_all(s, ids, suggestions).0),
        forgotten_all(s, ids, suggestions).0.desk == s.desk,
        focus_is_grounded(s.forest) ==> focus_is_grounded(
            forgotten_all(s, ids, suggestions).0.forest,
        ),
    decreases ids.len(),
{
    if ids.len() > 0 {
        law_forgetting_keeps_windows_housed(s, ids.drop_last(), suggestions);
        let mid = forgotten_all(s, ids.drop_last(), suggestions).0;
        lemma_forgotten(mid, ids.last(), super::scan::suggestion_from(suggestions, ids.last(), 0));
    }
}

/// A window that is forgotten leaves neither a placement nor a leaf behind, and
/// nothing is known of it.
pub proof fn law_forgotten_window_leaves_no_trace(s: StateView, id: u32, suggested: Option<u64>)
    requires
        housed(s),
    ensures
        ({
            let end = forgotten(s, id, suggested).0;
            &&& !end.windows.contains_key(id)
            &&& !end.placements.contains_key(id)
            &&& !end.grace.missing.contains_key(id)
            &&& !end.retries.contains_key(id)
            &&& !end.floating_placed.contains_key(id)
            &&& forall|name: Seq<char>| !#[trigger] seated(end.forest, name, id)
        }),
{
    lemma_forgotten(s, id, suggested);
    let bare = StateView {
        windows: s.windows.remove(id),
        retries: s.retries.remove(id),
        grace: crate::grace::GraceView { missing: s.grace.missing.remove(id), ..s.grace },
        ..s
    };
    lemma_same_house(s, bare);
    lemma_displaced(bare, id, suggested);
    let end = forgotten(s, id, suggested).0;
    assert forall|name: Seq<char>| !#[trigger] seated(end.forest, name, id) by {
        assert(seated(end.forest, name, id) <==> placed_on(end, name, id));
    }
}

pub(super) proof fn lemma_grown(s: StateView, name: Seq<char>, id: u32, node: u64)
    requires
        orderly(s.forest),
        !seated(s.forest, name, id),
    ensures
        orderly(grown(s, name, id, node).forest),
        forall|n: Seq<char>, x: u32| #[trigger]
            seated(grown(s, name, id, node).forest, n, x) <==> seated(s.forest, n, x) || (n == name
                && x == id),
{
    let leaf = Leaf { node, window: id };
    lemma_with_leaf(s.forest, name, leaf);
    let a = with_leaf(s.forest, name, leaf);
    let b = grown(s, name, id, node).forest;
    assert(b.leaves == a.leaves);
    assert forall|n: Seq<char>| distinct_windows(#[trigger] leaves_of(b, n)) by {
        assert(leaves_of(b, n) == leaves_of(a, n));
    }
    assert forall|n: Seq<char>, x: u32| #[trigger] seated(b, n, x) <==> seated(s.forest, n, x) || (n
        == name && x == id) by {
        assert(leaves_of(b, n) == leaves_of(a, n));
        assert(seated(a, n, x) <==> seated(s.forest, n, x) || (n == name && x == id));
    }
}

proof fn lemma_promoted(s: StateView, id: u32, restore: Restore, node: u64)
    requires
        housed(s),
        s.placements.contains_key(id),
        !s.placements[id].kind.in_tree(),
    ensures
        housed(promoted(s, id, restore, node).0),
        promoted(s, id, restore, node).0.desk == s.desk,
{
    let p = s.placements[id];
    let end = promoted(s, id, restore, node).0;
    assert(!seated(s.forest, p.workspace, id)) by {
        assert(seated(s.forest, p.workspace, id) <==> placed_on(s, p.workspace, id));
    }
    lemma_grown(s, p.workspace, id, node);
    assert(end.forest == grown(s, p.workspace, id, node).forest);
    assert forall|n: Seq<char>, x: u32| #[trigger]
        seated(end.forest, n, x) <==> placed_on(end, n, x) by {
        assert(seated(s.forest, n, x) <==> placed_on(s, n, x));
    }
}

proof fn lemma_demoted(
    s: StateView,
    id: u32,
    special: SpecialKind,
    restore: Restore,
    suggested: Option<u64>,
)
    requires
        housed(s),
    ensures
        housed(demoted(s, id, special, restore, suggested)),
        demoted(s, id, special, restore, suggested).desk == s.desk,
{
    if s.placements.contains_key(id) {
        let p = s.placements[id];
        let end = demoted(s, id, special, restore, suggested);
        lemma_taken_out(s.forest, p.workspace, id, suggested);
        assert forall|n: Seq<char>, x: u32| #[trigger]
            seated(end.forest, n, x) <==> placed_on(end, n, x) by {
            assert(seated(s.forest, n, x) <==> placed_on(s, n, x));
            assert(seated(taken_out(s.forest, p.workspace, id, suggested), n, x) <==> seated(
                s.forest,
                n,
                x,
            ) && !(n == p.workspace && x == id));
        }
        assert(orderly(end.forest));
    }
}

proof fn lemma_captured(s: StateView, id: u32, geometry: crate::placement::FloatGeometry)
    requires
        housed(s),
    ensures
        housed(captured(s, id, geometry)),
        captured(s, id, geometry).desk == s.desk,
{
    let end = captured(s, id, geometry);
    assert forall|n: Seq<char>, x: u32| #[trigger]
        seated(end.forest, n, x) <==> placed_on(end, n, x) by {
        assert(seated(s.forest, n, x) <==> placed_on(s, n, x));
    }
}

/// Trees and placements tell the same after a scan found a window, be it new,
/// known, or changed by the user, no two monitors come to show one workspace,
/// and every focus is on a workspace that exists.
pub proof fn law_scanning_keeps_windows_housed(
    s: StateView,
    id: u32,
    w: ScannedView,
    active: Seq<char>,
    now: u64,
    reply: TreeReply,
    after: StateView,
    acts: Seq<ActionView>,
)
    requires
        admitted(s, id, w, active, now, reply, after, acts),
        housed(s),
    ensures
        housed(after),
        exclusive(s.desk.active) ==> exclusive(after.desk.active),
        focus_is_grounded(s.forest) ==> focus_is_grounded(after.forest),
{
    let seen = noticed(s, id, w);
    lemma_same_house(s, seen);
    if s.placements.contains_key(id) {
        let moved = match w.moved_to {
            Some(geometry) => captured(seen, id, geometry),
            None => seen,
        };
        if w.moved_to is Some {
            lemma_captured(seen, id, w.moved_to->0);
        }
        let live = crate::placement::special_of(w.app_hidden, w.minimized, w.window.fullscreen);
        let p = moved.placements[id];
        let stored = crate::placement::special_in(p.kind);
        let restore = crate::placement::restore_of(p.kind);
        let up = if stored != live && stored is Some {
            promoted(moved, id, restore, reply.node).0
        } else {
            moved
        };
        if stored != live && stored is Some {
            lemma_promoted(moved, id, restore, reply.node);
        }
        if stored != live && live is Some {
            lemma_demoted(up, id, live->0, restore, reply.suggested);
        }
    } else if !put_off(s, id, w) {
        let kind = first_placement(s, w);
        let name = first_workspace(s, w.window, active);
        let placed = StateView {
            placements: seen.placements.insert(id, PlacementView { workspace: name, kind }),
            ..seen
        };
        let rooted = in_its_place(placed, id, kind, name, reply.node);
        assert(!seated(seen.forest, name, id)) by {
            assert(seated(seen.forest, name, id) <==> placed_on(seen, name, id));
        }
        lemma_grown(placed, name, id, reply.node);
        assert(housed(rooted)) by {
            assert forall|n: Seq<char>, x: u32| #[trigger]
                seated(rooted.forest, n, x) <==> placed_on(rooted, n, x) by {
                assert(seated(seen.forest, n, x) <==> placed_on(seen, n, x));
                assert(seated(grown(placed, name, id, reply.node).forest, n, x) <==> seated(
                    placed.forest,
                    n,
                    x,
                ) || (n == name && x == id));
            }
            assert(orderly(rooted.forest));
        }
        if after != rooted {
            let r = choose|r: Result<Seq<ActionView>, Seq<char>>| #[trigger]
                switch_outcome(rooted, name, reply.default_focus, after, r);
            lemma_switch(rooted, name, reply.default_focus, after, r);
            lemma_same_house(rooted, after);
            if exclusive(s.desk.active) {
                lemma_switch_exclusive(rooted, name, reply.default_focus, after, r);
            }
            if focus_is_grounded(s.forest) {
                lemma_switch_grounded(rooted, name, reply.default_focus, after, r);
            }
        }
    }
}

/// The beginning of a scan changes nothing about where windows are.
pub proof fn law_scan_begins_gently(s: StateView, pid: i32, fresh: Seq<u32>, now: u64)
    ensures
        scan_begun(s, pid, fresh, now).placements == s.placements,
        scan_begun(s, pid, fresh, now).windows == s.windows,
        scan_begun(s, pid, fresh, now).forest == s.forest,
        scan_begun(s, pid, fresh, now).desk == s.desk,
        housed(s) ==> housed(scan_begun(s, pid, fresh, now)),
{
    if housed(s) {
        lemma_same_house(s, scan_begun(s, pid, fresh, now));
    }
}

/// Bringing what is in front into view moves no window to another workspace,
/// makes no two monitors show one, and leaves every focus on a workspace that
/// exists.
pub proof fn law_revealing_keeps_windows_housed(
    s: StateView,
    pid: i32,
    id: u32,
    previous_bundle: Option<Seq<char>>,
    allow_unchanged_pid: bool,
    now: u64,
    default_focus: Option<u64>,
    after: StateView,
    acts: Seq<ActionView>,
)
    requires
        revealed(
            s,
            pid,
            id,
            previous_bundle,
            allow_unchanged_pid,
            now,
            default_focus,
            after,
            acts,
        ),
        housed(s),
    ensures
        housed(after),
        after.placements == s.placements,
        exclusive(s.desk.active) ==> exclusive(after.desk.active),
        focus_is_grounded(s.forest) ==> focus_is_grounded(after.forest),
{
    let front = in_front(s, pid);
    lemma_same_house(s, front);
    if after != front && s.placements.contains_key(id) {
        let p = s.placements[id];
        let (mid, up) = choose|mid: StateView, up: Result<Seq<ActionView>, Seq<char>>| #[trigger]
            brought_up(front, p.workspace, default_focus, mid, up) && up is Ok && ({
                let (focused, record) = focus_given(mid, id);
                let moved = !shown(s.desk.active, p.workspace) || mid.desk.focused
                    != s.desk.focused;
                let (end, raise) = if s.last_frontmost_pid != Some(pid) || moved {
                    raised(focused, id)
                } else {
                    (focused, Seq::empty())
                };
                after == end && acts == up->Ok_0 + record + raise
            });
        lemma_brought_up(front, p.workspace, default_focus, mid, up);
        lemma_focus_given(mid, id);
        lemma_same_house(front, mid);
        lemma_same_house(mid, focus_given(mid, id).0);
        lemma_same_house(focus_given(mid, id).0, after);
        if focus_is_grounded(s.forest) {
            if !shown(s.desk.active, p.workspace) {
                lemma_switch_grounded(front, p.workspace, default_focus, mid, up);
            }
            if focus_given(mid, id).0 != mid {
                lemma_shown_after(front, p.workspace, default_focus, mid, up);
                lemma_focused_at_grounded(
                    mid,
                    crate::forest::node_of(mid.forest, p.workspace, id)->0,
                );
            }
        }
    }
}

/// The system's focus moves no window, and leaves every focus on a workspace
/// that exists.
pub proof fn law_focus_sync_keeps_windows_housed(s: StateView, id: u32)
    requires
        housed(s),
    ensures
        housed(focus_synced(s, id).0),
        focus_synced(s, id).0.desk == s.desk,
        focus_synced(s, id).0.placements == s.placements,
        focus_is_grounded(s.forest) ==> focus_is_grounded(focus_synced(s, id).0.forest),
{
    let end = focus_synced(s, id).0;
    assert forall|n: Seq<char>| #[trigger] leaves_of(end.forest, n) == leaves_of(s.forest, n) by {
    }
    lemma_same_house(s, end);
}

proof fn lemma_all_given(s: StateView, fresh: Seq<u32>, names: Seq<Seq<char>>)
    ensures
        ({
            let t = all_given(s, fresh, names);
            &&& t == (StateView { forest: t.forest, desk: t.desk, ..s })
            &&& same_leaves(s.forest, t.forest)
            &&& t.forest.focus == s.forest.focus
            &&& s.forest.leaves.dom().subset_of(t.forest.leaves.dom())
        }),
    decreases fresh.len(),
{
    if fresh.len() > 0 && names.len() == fresh.len() {
        lemma_all_given(s, fresh.drop_last(), names.drop_last());
        let mid = all_given(s, fresh.drop_last(), names.drop_last());
        let t = all_given(s, fresh, names);
        lemma_with_workspace(mid.forest, names.last());
        assert forall|n: Seq<char>| #[trigger]
            leaves_of(t.forest, n) == leaves_of(s.forest, n) by {
            assert(leaves_of(mid.forest, n) == leaves_of(s.forest, n));
        }
    }
}

proof fn lemma_given_apart(s: StateView, fresh: Seq<u32>, names: Seq<Seq<char>>)
    requires
        all_fresh(s, fresh, names),
        exclusive(s.desk.active),
    ensures
        exclusive(all_given(s, fresh, names).desk.active),
    decreases fresh.len(),
{
    if fresh.len() > 0 {
        lemma_given_apart(s, fresh.drop_last(), names.drop_last());
        let mid = all_given(s, fresh.drop_last(), names.drop_last());
        let id = fresh.last();
        let a = mid.desk.active;
        let b = all_given(s, fresh, names).desk.active;
        assert(!taken(mid, id, names.last()));
        assert forall|x: u32, y: u32| #[trigger]
            b.contains_key(x) && #[trigger] b.contains_key(y) && b[x] == b[y] implies x == y by {
            let rest = a.remove(id);
            assert(x != id ==> a.contains_key(x) && rest.contains_key(x) && rest[x] == b[x]);
            assert(y != id ==> a.contains_key(y) && rest.contains_key(y) && rest[y] == b[y]);
        }
    }
}

/// A change of the displays moves no window to another workspace, and leaves
/// every focus on a workspace that exists.
pub proof fn law_display_changes_keep_windows_housed(
    s: StateView,
    monitors: Seq<Monitor>,
    diff: &MonitorDiff,
    after: StateView,
    acts: Seq<ActionView>,
)
    requires
        housed(s),
        displays_outcome(s, monitors, diff, after, acts),
    ensures
        housed(after),
        after.placements == s.placements,
        focus_is_grounded(s.forest) ==> focus_is_grounded(after.forest),
{
    if monitors.len() > 0 {
        let mid = rearranged(s, monitors, diff);
        let names = choose|names: Seq<Seq<char>>| #[trigger]
            all_fresh(mid, diff.connected@, names) && after == all_given(mid, diff.connected@, names);
        lemma_all_given(mid, diff.connected@, names);
        lemma_same_house(s, after);
    }
}

/// A change of the displays makes no two monitors show one workspace.
pub proof fn law_display_changes_keep_workspaces_apart(
    s: StateView,
    monitors: Seq<Monitor>,
    diff: &MonitorDiff,
    after: StateView,
    acts: Seq<ActionView>,
)
    requires
        exclusive(s.desk.active),
        displays_outcome(s, monitors, diff, after, acts),
    ensures
        exclusive(after.desk.active),
{
    if monitors.len() > 0 {
        let mid = rearranged(s, monitors, diff);
        let names = choose|names: Seq<Seq<char>>| #[trigger]
            all_fresh(mid, diff.connected@, names) && after == all_given(mid, diff.connected@, names);
        law_displays_changed_keeps_exclusive(
            s.desk,
            monitors,
            diff.renamed@,
            diff.disconnected@,
        );
        lemma_given_apart(mid, diff.connected@, names);
    }
}

proof fn lemma_declared_leaves(f: ForestView, s: Seq<WorkspaceConfigView>)
    ensures
        same_leaves(f, with_declared(f, s)),
        with_declared(f, s).focus == f.focus,
        f.leaves.dom().subset_of(with_declared(f, s).leaves.dom()),
    decreases s.len(),
{
    if s.len() > 0 {
        lemma_declared_leaves(f, s.drop_last());
        let g = with_declared(f, s.drop_last());
        lemma_with_workspace(g, s.last().name);
        assert forall|n: Seq<char>| #[trigger]
            leaves_of(with_declared(f, s), n) == leaves_of(f, n) by {
            assert(leaves_of(with_workspace(g, s.last().name), n) == leaves_of(g, n));
            assert(leaves_of(g, n) == leaves_of(f, n));
        }
    }
}

/// A configuration moves no window, and leaves every focus on a workspace that
/// exists.
pub proof fn law_configuring_keeps_windows_housed(s: StateView, c: ConfigView)
    requires
        housed(s),
    ensures
        housed(configured(s, c)),
        configured(s, c).placements == s.placements,
        focus_is_grounded(s.forest) ==> focus_is_grounded(configured(s, c).forest),
{
    let f = with_declared(s.forest, c.workspaces);
    lemma_declared_leaves(s.forest, c.workspaces);
    let end = configured(s, c);
    assert forall|n: Seq<char>| #[trigger] leaves_of(end.forest, n) == leaves_of(s.forest, n) by {
        assert(leaves_of(f, n) == leaves_of(s.forest, n));
        if n == default_workspace() && at_startup(s) && supplanted(c) {
            let all = leaves_of(s.forest, n);
            if all.len() > 0 {
                assert(all[0].window == all[0].window);
                assert(seated(s.forest, n, all[0].window));
            }
            assert(leaves_of(end.forest, n) =~= all);
        }
    }
    lemma_same_house(s, end);
}

/// A configuration makes no two monitors show one workspace.
pub proof fn law_configuring_keeps_workspaces_apart(s: StateView, c: ConfigView)
    requires
        exclusive(s.desk.active),
    ensures
        exclusive(configured(s, c).desk.active),
{
    if at_startup(s) {
        let end = configured(s, c).desk.active;
        let d = s.desk;
        assert forall|x: u32, y: u32| #[trigger]
            end.contains_key(x) && #[trigger] end.contains_key(y) && end[x] == end[y] implies x
            == y by {
            assert(x != d.focused ==> d.active.contains_key(x));
            assert(y != d.focused ==> d.active.contains_key(y));
            assert(startup_workspace(c) is None ==> d.active.contains_key(x)
                && d.active.contains_key(y));
            assert(d.active.contains_key(d.focused) || !d.active.contains_key(d.focused));
        }
    }
}

/// Switching to a workspace and back leaves every monitor showing what it
/// showed before, and no window anywhere else.
pub proof fn law_back_and_forth(
    s: StateView,
    name: Seq<char>,
    there: Option<u64>,
    mid: StateView,
    first: Result<Seq<ActionView>, Seq<char>>,
    back: Option<u64>,
    after: StateView,
    second: Result<Seq<ActionView>, Seq<char>>,
)
    requires
        exclusive(s.desk.active),
        shown_exists(s),
        s.desk.active.contains_key(s.desk.focused),
        s.forest.leaves.contains_key(name),
        s.desk.active[s.desk.focused] != name,
        switch_outcome(s, name, there, mid, first),
        back_outcome(mid, back, after, second),
    ensures
        first is Ok,
        second is Ok,
        after.desk.active == s.desk.active,
        after.desk.previous == Some(name),
        after.placements == s.placements,
{
    let o = s.desk.active[s.desk.focused];
    let swap = choose|swap: Option<u32>|
        shows_elsewhere(s.desk.active, name, s.desk.focused, swap) && first is Ok && (
            mid,
            first->Ok_0,
        ) == #[trigger] switch_done(s, name, swap, there);
    lemma_switch_desk(s, name, swap, there);
    lemma_switch(s, name, there, mid, first);
    assert(mid.desk == switched(s.desk, name, swap));
    assert(mid.desk.previous == Some(o));
    assert(mid.forest.leaves.contains_key(o));
    assert(lookup(mid.desk.active, mid.desk.focused) == Some(name));
    let swap2 = choose|swap: Option<u32>|
        shows_elsewhere(mid.desk.active, o, mid.desk.focused, swap) && second is Ok && (
            after,
            second->Ok_0,
        ) == #[trigger] switch_done(mid, o, swap, back);
    lemma_switch_desk(mid, o, swap2, back);
    lemma_switch(mid, o, back, after, second);
    law_switching_back_undoes_a_switch(s.desk, name, swap, swap2);
}

pub(super) proof fn lemma_switch_desk(
    s: StateView,
    name: Seq<char>,
    swap: Option<u32>,
    default_focus: Option<u64>,
)
    ensures
        switch_done(s, name, swap, default_focus).0.desk == switched(s.desk, name, swap),
        forall|n: Seq<char>|
            s.forest.leaves.contains_key(n) ==> #[trigger] switch_done(
                s,
                name,
                swap,
                default_focus,
            ).0.forest.leaves.contains_key(n),
{
}

/// A switch is counted if and only if it shows something else, so that what was
/// put off before it can be told to be stale.
pub proof fn law_only_switches_are_counted(
    s: StateView,
    name: Seq<char>,
    default_focus: Option<u64>,
    after: StateView,
    r: Result<Seq<ActionView>, Seq<char>>,
)
    requires
        switch_outcome(s, name, default_focus, after, r),
    ensures
        after.desk.epoch != s.desk.epoch <==> after.desk.active != s.desk.active,
        after.desk.active != s.desk.active ==> lookup(after.desk.active, s.desk.focused) == Some(
            name,
        ),
{
    lemma_switch(s, name, default_focus, after, r);
    if s.forest.leaves.contains_key(name) && lookup(s.desk.active, s.desk.focused) != Some(name) {
        let swap = choose|swap: Option<u32>|
            shows_elsewhere(s.desk.active, name, s.desk.focused, swap) && r is Ok && (
                after,
                r->Ok_0,
            ) == #[trigger] switch_done(s, name, swap, default_focus);
        lemma_switch_desk(s, name, swap, default_focus);
        crate::desk::law_switch_shows_the_workspace(s.desk, name, swap);
    }
}

/// What an outcome hides is parked: the windows of a workspace that some
/// monitor showed before and none shows after are moved off the screen.
pub open spec fn hidden_is_parked(s: StateView, after: StateView, acts: Seq<ActionView>) -> bool {
    forall|name: Seq<char>| #[trigger]
        shown(s.desk.active, name) && !shown(after.desk.active, name) ==> acts.contains(
            ActionView::ParkTiled(name),
        ) && acts.contains(ActionView::ParkFloating(name))
}

pub(super) proof fn lemma_contains_left<A>(a: Seq<A>, b: Seq<A>, x: A)
    requires
        a.contains(x),
    ensures
        (a + b).contains(x),
{
    let i = a.index_of(x);
    assert((a + b)[i] == x);
}

pub(super) proof fn lemma_contains_right<A>(a: Seq<A>, b: Seq<A>, x: A)
    requires
        b.contains(x),
    ensures
        (a + b).contains(x),
{
    let i = b.index_of(x);
    assert((a + b)[a.len() + i] == x);
}

proof fn lemma_switch_parks(
    s: StateView,
    name: Seq<char>,
    default_focus: Option<u64>,
    after: StateView,
    r: Result<Seq<ActionView>, Seq<char>>,
)
    requires
        switch_outcome(s, name, default_focus, after, r),
        r is Ok,
    ensures
        hidden_is_parked(s, after, r->Ok_0),
{
    if s.forest.leaves.contains_key(name) && lookup(s.desk.active, s.desk.focused) != Some(name) {
        let swap = choose|swap: Option<u32>|
            shows_elsewhere(s.desk.active, name, s.desk.focused, swap) && r is Ok && (
                after,
                r->Ok_0,
            ) == #[trigger] switch_done(s, name, swap, default_focus);
        lemma_switch_desk(s, name, swap, default_focus);
        let a = s.desk.active;
        let b = after.desk.active;
        let f = s.desk.focused;
        assert(b.contains_key(f) && b[f] == name);
        let outgoing = lookup(a, f);
        assert forall|n: Seq<char>| #[trigger] shown(a, n) && !shown(b, n) implies swap is None
            && outgoing == Some(n) by {
            let m = choose|m: u32| #[trigger] a.contains_key(m) && a[m] == n;
            if m != f {
                if swap == Some(m) {
                    assert(a.remove(f).contains_key(m));
                } else {
                    assert(b.contains_key(m) && b[m] == n);
                }
            } else if swap is Some {
                assert(b.contains_key(swap->0) && b[swap->0] == n);
            }
        }
        if swap is None && outgoing is Some {
            let o = outgoing->0;
            let first = park_floating(outgoing);
            let second = park_tiled(outgoing);
            let parking = first + second;
            assert(first[0] == ActionView::ParkFloating(o));
            assert(second[0] == ActionView::ParkTiled(o));
            lemma_contains_left(first, second, ActionView::ParkFloating(o));
            lemma_contains_right(first, second, ActionView::ParkTiled(o));
            let head = r->Ok_0.take(r->Ok_0.len() - parking.len());
            assert(r->Ok_0 =~= head + parking);
            lemma_contains_right(head, parking, ActionView::ParkFloating(o));
            lemma_contains_right(head, parking, ActionView::ParkTiled(o));
        }
    }
}

proof fn lemma_move_parks(
    s: StateView,
    name: Seq<char>,
    target: MonitorTarget,
    after: StateView,
    r: Result<Seq<ActionView>, Seq<char>>,
)
    requires
        move_outcome(s, name, target, after, r),
        r is Ok,
    ensures
        hidden_is_parked(s, after, r->Ok_0),
{
    let to = crate::desk::resolved_target(s.desk, target)->Ok_0;
    if after != s {
        let from = choose|from: Option<u32>|
            crate::desk::shows(s.desk.active, name, from) && from != Some(to) && r is Ok && (
                after,
                r->Ok_0,
            ) == #[trigger] move_done(s, name, to, from);
        let a = s.desk.active;
        let b = after.desk.active;
        let displaced = lookup(a, to);
        assert(b.contains_key(to) && b[to] == name);
        assert forall|n: Seq<char>| #[trigger] shown(a, n) && !shown(b, n) implies from is None
            && displaced == Some(n) by {
            let m = choose|m: u32| #[trigger] a.contains_key(m) && a[m] == n;
            if m != to {
                if from != Some(m) {
                    assert(b.contains_key(m) && b[m] == n);
                }
            } else if from is Some {
                assert(b.contains_key(from->0) && b[from->0] == n);
            }
        }
        if from is None && displaced is Some {
            let o = displaced->0;
            let first = park_tiled(displaced);
            let second = park_floating(displaced);
            assert(first[0] == ActionView::ParkTiled(o));
            assert(second[0] == ActionView::ParkFloating(o));
            lemma_contains_left(first, second, ActionView::ParkTiled(o));
            lemma_contains_right(first, second, ActionView::ParkFloating(o));
            lemma_contains_left(first + second, refresh(to), ActionView::ParkTiled(o));
            lemma_contains_left(first + second, refresh(to), ActionView::ParkFloating(o));
        }
    }
}

proof fn lemma_more_actions(s: StateView, mid: StateView, after: StateView, a: Seq<ActionView>, b: Seq<ActionView>)
    requires
        hidden_is_parked(s, mid, a),
        after.desk.active == mid.desk.active,
    ensures
        hidden_is_parked(s, after, a + b),
{
    assert forall|name: Seq<char>| #[trigger] shown(s.desk.active, name) && !shown(
        after.desk.active,
        name,
    ) implies (a + b).contains(ActionView::ParkTiled(name)) && (a + b).contains(
        ActionView::ParkFloating(name),
    ) by {
        lemma_contains_left(a, b, ActionView::ParkTiled(name));
        lemma_contains_left(a, b, ActionView::ParkFloating(name));
    }
}

proof fn lemma_brought_up_parks(
    s: StateView,
    name: Seq<char>,
    default_focus: Option<u64>,
    mid: StateView,
    r: Result<Seq<ActionView>, Seq<char>>,
)
    requires
        brought_up(s, name, default_focus, mid, r),
        r is Ok,
    ensures
        hidden_is_parked(s, mid, r->Ok_0),
{
    if !shown(s.desk.active, name) {
        lemma_switch_parks(s, name, default_focus, mid, r);
    }
}

/// Whatever a command hides, its windows are parked off the screen.
pub proof fn law_commands_park_what_they_hide(
    s: StateView,
    c: Command,
    a: TreeAnswer,
    p: Permissions,
    after: StateView,
    r: Response,
    acts: Seq<ActionView>,
)
    requires
        dispatched(s, c, a, p, after, r, acts),
    ensures
        hidden_is_parked(s, after, acts),
{
    if r is Failed {
        law_failed_commands_change_nothing(s, c, a, p, after, r, acts);
    } else {
        lemma_done_commands_park(s, c, a, p, after, r, acts);
    }
}

proof fn lemma_done_commands_park(
    s: StateView,
    c: Command,
    a: TreeAnswer,
    p: Permissions,
    after: StateView,
    r: Response,
    acts: Seq<ActionView>,
)
    requires
        dispatched(s, c, a, p, after, r, acts),
        !(r is Failed),
    ensures
        hidden_is_parked(s, after, acts),
{
    match c {
        Command::WorkspaceSwitch(name) => {
            let res = choose|res: Result<Seq<ActionView>, Seq<char>>| #[trigger]
                switch_outcome(s, name@, a.found, after, res) && crate::dispatch::replied(res, r, acts);
            lemma_switch_parks(s, name@, a.found, after, res);
        },
        Command::WorkspaceBack => {
            let res = choose|res: Result<Seq<ActionView>, Seq<char>>| #[trigger]
                back_outcome(s, a.found, after, res) && crate::dispatch::replied(res, r, acts);
            lemma_switch_parks(s, s.desk.previous->0, a.found, after, res);
        },
        Command::MoveNodeToWorkspace(name) => {
            let res = choose|res: Result<Seq<ActionView>, Seq<char>>| #[trigger]
                carry_outcome(s, name@, a.suggested, a.node, after, res)
                    && crate::dispatch::replied(res, r, acts);
            if let Ok(Some(id)) = movable(s, name@) {
                lemma_switch_parks(
                    carried(s, name@, id, a.suggested, a.node),
                    name@,
                    None,
                    after,
                    res,
                );
            }
        },
        Command::Summon(query) => {
            let res = choose|res: Result<Seq<ActionView>, Seq<char>>| #[trigger]
                summon_outcome(s, query@, a.found, after, res) && crate::dispatch::replied(
                    res,
                    r,
                    acts,
                );
            let id = summoned_by(s, query@)->0;
            let w = s.placements[id];
            let (mid, up) = choose|mid: StateView, up: Result<Seq<ActionView>, Seq<char>>| #[trigger]
                brought_up(s, w.workspace, a.found, mid, up) && (match up {
                    Err(e) => res == up && after == mid,
                    Ok(done) => res == Ok::<Seq<ActionView>, Seq<char>>(done + attended(mid, id).1)
                        && after == attended(mid, id).0,
                });
            lemma_brought_up_parks(s, w.workspace, a.found, mid, up);
            lemma_focus_given(mid, id);
            lemma_more_actions(s, mid, after, up->Ok_0, attended(mid, id).1);
        },
        Command::MoveWorkspaceToMonitor { workspace, target } => {
            let name = named_or_active(s, opt_text(workspace));
            let res = choose|res: Result<Seq<ActionView>, Seq<char>>| #[trigger]
                move_outcome(s, name, target, after, res) && crate::dispatch::replied(
                    res,
                    r,
                    acts,
                );
            lemma_move_parks(s, name, target, after, res);
        },
        _ => {
            lemma_plain_commands_keep_the_desk(s, c, a, p, after, r, acts);
        },
    }
}

/// Bringing what is in front into view parks what it hides.
pub proof fn law_revealing_parks_what_it_hides(
    s: StateView,
    pid: i32,
    id: u32,
    previous_bundle: Option<Seq<char>>,
    allow_unchanged_pid: bool,
    now: u64,
    default_focus: Option<u64>,
    after: StateView,
    acts: Seq<ActionView>,
)
    requires
        revealed(
            s,
            pid,
            id,
            previous_bundle,
            allow_unchanged_pid,
            now,
            default_focus,
            after,
            acts,
        ),
    ensures
        hidden_is_parked(s, after, acts),
{
    let front = in_front(s, pid);
    if after != front && s.placements.contains_key(id) {
        let p = s.placements[id];
        let (mid, up) = choose|mid: StateView, up: Result<Seq<ActionView>, Seq<char>>| #[trigger]
            brought_up(front, p.workspace, default_focus, mid, up) && up is Ok && ({
                let (focused, record) = focus_given(mid, id);
                let moved = !shown(s.desk.active, p.workspace) || mid.desk.focused
                    != s.desk.focused;
                let (end, raise) = if s.last_frontmost_pid != Some(pid) || moved {
                    raised(focused, id)
                } else {
                    (focused, Seq::empty())
                };
                after == end && acts == up->Ok_0 + record + raise
            });
        lemma_brought_up_parks(front, p.workspace, default_focus, mid, up);
        lemma_focus_given(mid, id);
        let (focused, record) = focus_given(mid, id);
        lemma_more_actions(front, mid, focused, up->Ok_0, record);
        let raise = acts.skip((up->Ok_0 + record).len() as int);
        assert(acts =~= (up->Ok_0 + record) + raise);
        lemma_more_actions(front, focused, after, up->Ok_0 + record, raise);
    }
}

/// Placing a window that a scan found parks what it hides.
pub proof fn law_scanning_parks_what_it_hides(
    s: StateView,
    id: u32,
    w: ScannedView,
    active: Seq<char>,
    now: u64,
    reply: TreeReply,
    after: StateView,
    acts: Seq<ActionView>,
)
    requires
        admitted(s, id, w, active, now, reply, after, acts),
    ensures
        hidden_is_parked(s, after, acts),
{
    let seen = noticed(s, id, w);
    if !s.placements.contains_key(id) && !put_off(s, id, w) {
        let kind = first_placement(s, w);
        let name = first_workspace(s, w.window, active);
        let placed = StateView {
            placements: seen.placements.insert(id, PlacementView { workspace: name, kind }),
            ..seen
        };
        let rooted = in_its_place(placed, id, kind, name, reply.node);
        if name != active_name(placed) && !waking(placed.grace, now) {
            let first = if kind is Floating && name == active_name(placed) {
                seq![ActionView::PlaceFloating(id)]
            } else {
                Seq::empty()
            };
            let r = choose|r: Result<Seq<ActionView>, Seq<char>>| #[trigger]
                switch_outcome(rooted, name, reply.default_focus, after, r) && acts == first + (
                match r {
                    Ok(more) => more,
                    Err(e) => Seq::empty(),
                });
            lemma_switch(rooted, name, reply.default_focus, after, r);
            if r is Ok {
                lemma_switch_parks(rooted, name, reply.default_focus, after, r);
                assert(acts =~= r->Ok_0);
            }
        }
    }
}

/// While the system wakes up, a new window whose workspace no monitor shows is
/// moved off the screen, and nothing else is done: no monitor shows anything
/// other than before.
pub proof fn law_waking_parks_new_windows(
    s: StateView,
    id: u32,
    w: ScannedView,
    active: Seq<char>,
    now: u64,
    reply: TreeReply,
    after: StateView,
    acts: Seq<ActionView>,
)
    requires
        admitted(s, id, w, active, now, reply, after, acts),
        !s.placements.contains_key(id),
        !put_off(s, id, w),
        waking(s.grace, now),
        first_placement(s, w).in_tree(),
        !shown(s.desk.active, first_workspace(s, w.window, active)),
    ensures
        acts == seq![ActionView::Park(id)],
        parked(after, id),
        after.desk == s.desk,
{
}

/// Every focus is on a workspace that exists.
pub open spec fn focus_is_grounded(f: ForestView) -> bool {
    forall|name: Seq<char>| #[trigger] f.focus.contains_key(name) ==> f.leaves.contains_key(name)
}

/// Two forests have the same workspaces, and every focus of the second is on
/// one of them.
pub open spec fn same_workspaces(f: ForestView, g: ForestView) -> bool {
    g.leaves.dom() == f.leaves.dom() && focus_is_grounded(g)
}

proof fn lemma_focused_at_grounded(s: StateView, node: u64)
    requires
        focus_is_grounded(s.forest),
        s.forest.leaves.contains_key(active_name(s)),
    ensures
        same_workspaces(s.forest, focused_at(s, node).0.forest),
{
    assert(focused_at(s, node).0.forest.leaves.dom() =~= s.forest.leaves.dom());
}

proof fn lemma_switch_grounded(
    s: StateView,
    name: Seq<char>,
    default_focus: Option<u64>,
    after: StateView,
    r: Result<Seq<ActionView>, Seq<char>>,
)
    requires
        switch_outcome(s, name, default_focus, after, r),
        focus_is_grounded(s.forest),
    ensures
        same_workspaces(s.forest, after.forest),
{
    if s.forest.leaves.contains_key(name) && lookup(s.desk.active, s.desk.focused) != Some(name) {
        let swap = choose|swap: Option<u32>|
            shows_elsewhere(s.desk.active, name, s.desk.focused, swap) && r is Ok && (
                after,
                r->Ok_0,
            ) == #[trigger] switch_done(s, name, swap, default_focus);
        let mid = StateView { desk: switched(s.desk, name, swap), ..s };
        assert(active_name(mid) == name);
        let restore = match lookup(s.forest.focus, name) {
            Some(node) => Some(node),
            None => default_focus,
        };
        if restore is Some {
            lemma_focused_at_grounded(mid, restore->0);
        }
    }
}

proof fn lemma_seated_exists(f: ForestView, name: Seq<char>, node: u64)
    requires
        window_at(f, name, node) is Some,
    ensures
        f.leaves.contains_key(name),
{
}

/// No command makes a workspace, or does away with one: they come from the
/// configuration and from displays alone.
pub proof fn law_commands_make_no_workspace(
    s: StateView,
    c: Command,
    a: TreeAnswer,
    p: Permissions,
    after: StateView,
    r: Response,
    acts: Seq<ActionView>,
)
    requires
        dispatched(s, c, a, p, after, r, acts),
        focus_is_grounded(s.forest),
    ensures
        same_workspaces(s.forest, after.forest),
{
    match c {
        Command::Focus(_) => {
            if focused_node(s) is Some && a.found is Some {
                lemma_focused_at_grounded(s, a.found->0);
            }
        },
        Command::Move(_) => {
            if focused_node(s) is Some {
                lemma_focused_at_grounded(s, focused_node(s)->0);
            }
        },
        Command::WorkspaceSwitch(name) => {
            let res = choose|res: Result<Seq<ActionView>, Seq<char>>| #[trigger]
                switch_outcome(s, name@, a.found, after, res) && crate::dispatch::replied(res, r, acts);
            lemma_switch_grounded(s, name@, a.found, after, res);
        },
        Command::WorkspaceBack => {
            let res = choose|res: Result<Seq<ActionView>, Seq<char>>| #[trigger]
                back_outcome(s, a.found, after, res) && crate::dispatch::replied(res, r, acts);
            if s.desk.previous is Some {
                lemma_switch_grounded(s, s.desk.previous->0, a.found, after, res);
            }
        },
        Command::MoveNodeToWorkspace(name) => {
            let res = choose|res: Result<Seq<ActionView>, Seq<char>>| #[trigger]
                carry_outcome(s, name@, a.suggested, a.node, after, res)
                    && crate::dispatch::replied(res, r, acts);
            if let Ok(Some(id)) = movable(s, name@) {
                let mid = carried(s, name@, id, a.suggested, a.node);
                lemma_seated_exists(s.forest, active_name(s), focused_node(s)->0);
                assert(mid.forest.leaves.dom() =~= s.forest.leaves.dom());
                assert(focus_is_grounded(mid.forest));
                lemma_switch_grounded(mid, name@, None, after, res);
            }
        },
        Command::Summon(query) => {
            let res = choose|res: Result<Seq<ActionView>, Seq<char>>| #[trigger]
                summon_outcome(s, query@, a.found, after, res) && crate::dispatch::replied(
                    res,
                    r,
                    acts,
                );
            lemma_summon_grounded(s, query@, a.found, after, res);
        },
        Command::MoveWorkspaceToMonitor { workspace, target } => {
            let name = named_or_active(s, opt_text(workspace));
            let res = choose|res: Result<Seq<ActionView>, Seq<char>>| #[trigger]
                move_outcome(s, name, target, after, res) && crate::dispatch::replied(
                    res,
                    r,
                    acts,
                );
            lemma_move(s, name, target, after, res);
        },
        Command::SetFloating(floating) => {
            if floatable(s, floating) is Ok {
                let id = floatable(s, floating)->Ok_0;
                let name = active_name(s);
                lemma_seated_exists(s.forest, name, focused_node(s)->0);
                let out = taken_out(s.forest, name, id, a.suggested);
                let grown_forest = with_leaf(out, name, Leaf { node: a.node, window: id });
                assert(grown_forest.leaves.dom() =~= s.forest.leaves.dom());
                assert(focus_is_grounded(grown_forest));
                assert(after.forest.leaves.dom() =~= s.forest.leaves.dom());
            }
        },
        _ => {},
    }
}

proof fn lemma_summon_grounded(
    s: StateView,
    query: Seq<char>,
    default_focus: Option<u64>,
    after: StateView,
    r: Result<Seq<ActionView>, Seq<char>>,
)
    requires
        summon_outcome(s, query, default_focus, after, r),
        focus_is_grounded(s.forest),
    ensures
        same_workspaces(s.forest, after.forest),
{
    if let Some(id) = summoned_by(s, query) {
        if s.placements.contains_key(id) {
            let w = s.placements[id];
            let (mid, up) = choose|mid: StateView, up: Result<Seq<ActionView>, Seq<char>>| #[trigger]
                brought_up(s, w.workspace, default_focus, mid, up) && (match up {
                    Err(e) => r == up && after == mid,
                    Ok(done) => r == Ok::<Seq<ActionView>, Seq<char>>(done + attended(mid, id).1)
                        && after == attended(mid, id).0,
                });
            if !shown(s.desk.active, w.workspace) {
                lemma_switch_grounded(s, w.workspace, default_focus, mid, up);
            }
            lemma_brought_up(s, w.workspace, default_focus, mid, up);
            if up is Ok && focus_given(mid, id).0 != mid {
                let node = crate::forest::node_of(mid.forest, w.workspace, id)->0;
                lemma_shown_after(s, w.workspace, default_focus, mid, up);
                assert(mid.forest.leaves.contains_key(w.workspace));
                lemma_focused_at_grounded(mid, node);
            }
        }
    }
}

/// A workspace that was brought into view is the active one.
pub(super) proof fn lemma_shown_after(
    s: StateView,
    name: Seq<char>,
    default_focus: Option<u64>,
    mid: StateView,
    r: Result<Seq<ActionView>, Seq<char>>,
)
    requires
        brought_up(s, name, default_focus, mid, r),
        r is Ok,
    ensures
        active_name(mid) == name,
{
    if !shown(s.desk.active, name) {
        if lookup(s.desk.active, s.desk.focused) == Some(name) {
            assert(s.desk.active.contains_key(s.desk.focused));
            assert(shown(s.desk.active, name));
        }
        let swap = choose|swap: Option<u32>|
            shows_elsewhere(s.desk.active, name, s.desk.focused, swap) && r is Ok && (
                mid,
                r->Ok_0,
            ) == #[trigger] switch_done(s, name, swap, default_focus);
        lemma_switch_desk(s, name, swap, default_focus);
    }
}

/// A monitor that changed its id shows what it showed, as long as no new id is
/// in use.
proof fn lemma_renames_show(active: Map<u32, Seq<char>>, focused: u32, renamed: Seq<(u32, u32)>)
    requires
        forall|k: int|
            0 <= k < renamed.len() ==> !active.contains_key((#[trigger] renamed[k]).1),
        forall|k: int, l: int|
            0 <= k < l < renamed.len() ==> (#[trigger] renamed[k]).1 != (#[trigger] renamed[l]).1,
    ensures
        forall|n: Seq<char>| #[trigger]
            shown(active, n) ==> shown(after_renames(active, focused, renamed).0, n),
        forall|id: u32| #[trigger]
            after_renames(active, focused, renamed).0.contains_key(id) ==> active.contains_key(id)
                || renamed_to(renamed, id),
    decreases renamed.len(),
{
    if renamed.len() > 0 {
        let rest = renamed.drop_last();
        let (old_id, new_id) = renamed.last();
        assert forall|k: int| 0 <= k < rest.len() implies !active.contains_key(
            (#[trigger] rest[k]).1,
        ) by {
            assert(rest[k] == renamed[k]);
        }
        assert forall|k: int, l: int| 0 <= k < l < rest.len() implies (#[trigger] rest[k]).1 != (
        #[trigger] rest[l]).1 by {
            assert(rest[k] == renamed[k] && rest[l] == renamed[l]);
        }
        lemma_renames_show(active, focused, rest);
        let a = after_renames(active, focused, rest).0;
        let b = after_renames(active, focused, renamed).0;
        assert(renamed[renamed.len() - 1] == (old_id, new_id));
        assert(!a.contains_key(new_id)) by {
            if a.contains_key(new_id) {
                assert(!active.contains_key(renamed[renamed.len() - 1].1));
                let k = choose|k: int| 0 <= k < rest.len() && (#[trigger] rest[k]).1 == new_id;
                assert(renamed[k].1 == renamed[renamed.len() - 1].1);
            }
        }
        assert forall|n: Seq<char>| #[trigger] shown(active, n) implies shown(b, n) by {
            let m = choose|m: u32| #[trigger] a.contains_key(m) && a[m] == n;
            if m == old_id {
                assert(b.contains_key(new_id) && b[new_id] == n);
            } else {
                assert(b.contains_key(m) && b[m] == n);
            }
        }
        assert forall|id: u32| #[trigger] b.contains_key(id) implies active.contains_key(id)
            || renamed_to(renamed, id) by {
            if id == new_id {
                assert(renamed[renamed.len() - 1].1 == id);
            } else {
                assert(a.contains_key(id));
                if !active.contains_key(id) {
                    let k = choose|k: int| 0 <= k < rest.len() && (#[trigger] rest[k]).1 == id;
                    assert(renamed[k].1 == id);
                }
            }
        }
    }
}

proof fn lemma_disconnects_show(active: Map<u32, Seq<char>>, gone: Seq<u32>)
    ensures
        forall|n: Seq<char>| #[trigger]
            shown(active, n) ==> shown(after_disconnects(active, gone), n) || parked_by(
                active,
                gone,
            ).contains(n),
    decreases gone.len(),
{
    if gone.len() == 0 {
        assert(after_disconnects(active, gone) =~= active);
    } else {
        let rest = gone.drop_last();
        let id = gone.last();
        lemma_disconnects_show(active, rest);
        let b = after_disconnects(active, rest);
        let c = after_disconnects(active, gone);
        let names = parked_by(active, rest);
        let more = parked_by(active, gone);
        assert forall|x: u32| c.contains_key(x) <==> b.contains_key(x) && x != id by {
            assert(gone =~= rest.push(id));
            if gone.contains(x) && x != id {
                let i = gone.index_of(x);
                assert(rest[i] == x);
            }
            if rest.contains(x) {
                let i = rest.index_of(x);
                assert(gone[i] == x);
            }
            assert(gone[gone.len() - 1] == id);
        }
        assert forall|n: Seq<char>| #[trigger] shown(active, n) implies shown(c, n)
            || more.contains(n) by {
            if names.contains(n) {
                let i = names.index_of(n);
                assert(more[i] == n);
            } else {
                let m = choose|m: u32| #[trigger] b.contains_key(m) && b[m] == n;
                if m == id {
                    assert(more[more.len() - 1] == n);
                } else {
                    assert(c.contains_key(m) && c[m] == n);
                }
            }
        }
    }
}

proof fn lemma_given_show(s: StateView, fresh: Seq<u32>, names: Seq<Seq<char>>)
    requires
        forall|i: int|
            0 <= i < fresh.len() ==> !s.desk.active.contains_key(#[trigger] fresh[i]),
    ensures
        forall|m: u32| #[trigger]
            s.desk.active.contains_key(m) ==> all_given(s, fresh, names).desk.active.contains_key(m)
                && all_given(s, fresh, names).desk.active[m] == s.desk.active[m],
    decreases fresh.len(),
{
    if fresh.len() > 0 && names.len() == fresh.len() {
        let rest = fresh.drop_last();
        assert forall|i: int| 0 <= i < rest.len() implies !s.desk.active.contains_key(
            #[trigger] rest[i],
        ) by {
            assert(rest[i] == fresh[i]);
        }
        lemma_given_show(s, rest, names.drop_last());
        assert(!s.desk.active.contains_key(fresh[fresh.len() - 1]));
    }
}

proof fn lemma_park_each(names: Seq<Seq<char>>)
    ensures
        forall|n: Seq<char>| #[trigger]
            names.contains(n) ==> park_each(names).contains(ActionView::ParkTiled(n)) && park_each(
                names,
            ).contains(ActionView::ParkFloating(n)),
    decreases names.len(),
{
    if names.len() > 0 {
        let rest = names.drop_last();
        lemma_park_each(rest);
        let last = seq![
            ActionView::ParkTiled(names.last()),
            ActionView::ParkFloating(names.last()),
        ];
        assert forall|n: Seq<char>| #[trigger] names.contains(n) implies park_each(names).contains(
            ActionView::ParkTiled(n),
        ) && park_each(names).contains(ActionView::ParkFloating(n)) by {
            if rest.contains(n) {
                lemma_contains_left(park_each(rest), last, ActionView::ParkTiled(n));
                lemma_contains_left(park_each(rest), last, ActionView::ParkFloating(n));
            } else {
                let i = names.index_of(n);
                if i < rest.len() {
                    assert(rest[i] == n);
                }
                assert(last[0] == ActionView::ParkTiled(n));
                assert(last[1] == ActionView::ParkFloating(n));
                lemma_contains_right(park_each(rest), last, ActionView::ParkTiled(n));
                lemma_contains_right(park_each(rest), last, ActionView::ParkFloating(n));
            }
        }
    }
}

/// When displays go, what they showed is parked; a display that only changed
/// its id goes on showing what it showed. This holds of what `match_monitors`
/// tells apart, as long as only displays that were connected show something.
pub proof fn law_display_changes_park_what_they_hide(
    s: StateView,
    monitors: Seq<Monitor>,
    diff: &MonitorDiff,
    after: StateView,
    acts: Seq<ActionView>,
)
    requires
        displays_outcome(s, monitors, diff, after, acts),
        forall|id: u32| #[trigger] s.desk.active.contains_key(id) ==> has_id(s.desk.monitors, id),
        paired(s.desk.monitors, monitors, diff.renamed@),
        forall|i: int|
            0 <= i < diff.connected@.len() ==> !has_id(
                s.desk.monitors,
                #[trigger] diff.connected@[i],
            ) && !renamed_to(diff.renamed@, diff.connected@[i]),
    ensures
        hidden_is_parked(s, after, acts),
{
    if monitors.len() > 0 {
        let renamed = diff.renamed@;
        let active = s.desk.active;
        assert forall|k: int| 0 <= k < renamed.len() implies !active.contains_key(
            (#[trigger] renamed[k]).1,
        ) by {
            assert(one_display(s.desk.monitors, monitors, renamed[k]));
        }
        lemma_renames_show(active, s.desk.focused, renamed);
        let a = after_renames(active, s.desk.focused, renamed).0;
        lemma_disconnects_show(a, diff.disconnected@);
        let b = after_disconnects(a, diff.disconnected@);
        assert forall|i: int| 0 <= i < diff.connected@.len() implies !b.contains_key(
            #[trigger] diff.connected@[i],
        ) by {
            assert(b.contains_key(diff.connected@[i]) ==> a.contains_key(diff.connected@[i]));
        }
        let mid = rearranged(s, monitors, diff);
        let given_names = choose|names: Seq<Seq<char>>| #[trigger]
            all_fresh(mid, diff.connected@, names) && after == all_given(mid, diff.connected@, names);
        lemma_given_show(mid, diff.connected@, given_names);
        let names = parked_by(a, diff.disconnected@);
        lemma_park_each(names);
        let c = after.desk.active;
        assert forall|n: Seq<char>| #[trigger] shown(active, n) && !shown(c, n) implies acts.contains(
            ActionView::ParkTiled(n),
        ) && acts.contains(ActionView::ParkFloating(n)) by {
            assert(shown(a, n));
            if shown(b, n) {
                let m = choose|m: u32| #[trigger] b.contains_key(m) && b[m] == n;
                assert(mid.desk.active.contains_key(m));
                assert(c.contains_key(m) && c[m] == n);
            }
            assert(names.contains(n));
            let all = park_each(names);
            assert(acts =~= all + seq![ActionView::RefreshAll]);
            lemma_contains_left(all, seq![ActionView::RefreshAll], ActionView::ParkTiled(n));
            lemma_contains_left(all, seq![ActionView::RefreshAll], ActionView::ParkFloating(n));
        }
    }
}

}
