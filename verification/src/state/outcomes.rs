//! What each command leads to.

use vstd::prelude::*;
use super::commands::focus_moved;
use super::effects::stands_in;
use super::laws::{lemma_focused_at, lemma_switch, lemma_switch_desk, same_leaves};
use super::switching::{
    back_outcome, floatable, floating_done, move_done, move_outcome, named_or_active, switch_done,
    switch_outcome,
};
use super::{active_name, focused_at, focused_node, raised_focus, ActionView, StateView};
use crate::desk::{
    lookup, main_from, place_from, resolved_target, shown, shows, shows_elsewhere, switched,
    Monitor,
};
use crate::dispatch::{asked, dispatched, replied, Permissions, TreeAnswer, TreeCall};
use crate::forest::{leaves_of, window_at, Leaf};
use crate::ipc::{Command, Direction, LayoutKind, MonitorTarget, Payload, Response};
use crate::modes::has_block;
use crate::text::{lemma_part_of, opt_text, part_of};

verus! {

/// A switch succeeds exactly if the workspace exists. The focused monitor shows
/// it then, and a monitor that showed it shows what the focused one showed; all
/// others show what they did. The node that had the focus when the workspace was
/// left has it again, else the one that its tree gives, and the window there is
/// raised. What was shown is the previous workspace.
pub proof fn law_switching_leads_to_the_workspace(
    s: StateView,
    name: String,
    a: TreeAnswer,
    p: Permissions,
    after: StateView,
    r: Response,
    acts: Seq<ActionView>,
)
    requires
        dispatched(s, Command::WorkspaceSwitch(name), a, p, after, r, acts),
        crate::desk::exclusive(s.desk.active),
    ensures
        r is Done <==> s.forest.leaves.contains_key(name@),
        r is Done ==> {
            let f = s.desk.focused;
            let there = s.desk.active.contains_key(f) && s.desk.active[f] == name@;
            let restore = if s.forest.focus.contains_key(name@) {
                Some(s.forest.focus[name@])
            } else {
                a.found
            };
            &&& after.desk.active.contains_key(f) && after.desk.active[f] == name@
            &&& after.desk.focused == f && after.desk.monitors == s.desk.monitors
            &&& forall|m: u32| #[trigger]
                s.desk.active.contains_key(m) && m != f ==> {
                    if s.desk.active[m] != name@ {
                        after.desk.active.contains_key(m) && after.desk.active[m]
                            == s.desk.active[m]
                    } else {
                        lookup(after.desk.active, m) == lookup(s.desk.active, f)
                    }
                }
            &&& forall|m: u32| #[trigger]
                after.desk.active.contains_key(m) ==> m == f || s.desk.active.contains_key(m)
            &&& there ==> after == s && acts.len() == 0
            &&& !there ==> after.desk.previous == lookup(s.desk.active, f)
            &&& after.placements == s.placements && same_leaves(s.forest, after.forest)
            &&& !there && restore is Some ==> {
                &&& after.forest.focus.contains_key(name@) && after.forest.focus[name@]
                    == restore->0
                &&& acts.contains(ActionView::RecordFocus { workspace: name@, node: restore->0 })
                &&& forall|w: u32| #[trigger]
                    s.windows.contains_key(w) && window_at(s.forest, name@, restore->0) == Some(w)
                        ==> acts.contains(
                        ActionView::Raise { window: w, warp: s.mouse_follows_focus },
                    ) && after.last_frontmost_pid == Some(s.windows[w].pid)
            }
            &&& forall|n: Seq<char>| #[trigger]
                s.forest.focus.contains_key(n) && n != name@ ==> after.forest.focus.contains_key(n)
                    && after.forest.focus[n] == s.forest.focus[n]
        },
{
    let res = choose|res: Result<Seq<ActionView>, Seq<char>>| #[trigger]
        switch_outcome(s, name@, a.found, after, res) && replied(res, r, acts);
    lemma_switch(s, name@, a.found, after, res);
    if s.forest.leaves.contains_key(name@) && lookup(s.desk.active, s.desk.focused) != Some(
        name@,
    ) {
        let f = s.desk.focused;
        let swap = choose|swap: Option<u32>|
            shows_elsewhere(s.desk.active, name@, f, swap) && res is Ok && (after, res->Ok_0)
                == #[trigger] switch_done(s, name@, swap, a.found);
        lemma_switch_desk(s, name@, swap, a.found);
        let rest = s.desk.active.remove(f);
        assert forall|m: u32| #[trigger] s.desk.active.contains_key(m) && m != f implies {
            if s.desk.active[m] != name@ {
                after.desk.active.contains_key(m) && after.desk.active[m] == s.desk.active[m]
            } else {
                lookup(after.desk.active, m) == lookup(s.desk.active, f)
            }
        } by {
            assert(rest.contains_key(m));
            if s.desk.active[m] == name@ {
                assert(shown(rest, name@));
                assert(rest.contains_key(swap->0));
                assert(s.desk.active.contains_key(swap->0));
                assert(swap == Some(m));
            }
        }
        let there = StateView { desk: switched(s.desk, name@, swap), ..s };
        assert(active_name(there) == name@);
        let restore = match lookup(s.forest.focus, name@) {
            Some(node) => Some(node),
            None => a.found,
        };
        if restore is Some {
            let (focused, record) = focused_at(there, restore->0);
            let (end, raise) = raised_focus(focused);
            lemma_focused_at(there, restore->0);
            assert(acts[2] == record[0]);
            assert forall|w: u32| #[trigger]
                s.windows.contains_key(w) && window_at(s.forest, name@, restore->0) == Some(
                    w,
                ) implies acts.contains(
                ActionView::Raise { window: w, warp: s.mouse_follows_focus },
            ) && after.last_frontmost_pid == Some(s.windows[w].pid) by {
                assert(leaves_of(focused.forest, name@) == leaves_of(s.forest, name@));
                assert(window_at(focused.forest, name@, restore->0) == Some(w));
                assert(acts[3] == raise[0]);
            }
        }
    }
}

/// Switching back is switching to the previous workspace, and fails where there
/// is none.
pub proof fn law_back_is_a_switch_to_the_previous(
    s: StateView,
    name: String,
    a: TreeAnswer,
    p: Permissions,
    after: StateView,
    r: Response,
    acts: Seq<ActionView>,
)
    requires
        dispatched(s, Command::WorkspaceBack, a, p, after, r, acts),
    ensures
        s.desk.previous is None ==> r is Failed,
        s.desk.previous == Some(name@) ==> dispatched(
            s,
            Command::WorkspaceSwitch(name),
            a,
            p,
            after,
            r,
            acts,
        ),
{
    let res = choose|res: Result<Seq<ActionView>, Seq<char>>| #[trigger]
        back_outcome(s, a.found, after, res) && replied(res, r, acts);
    if s.desk.previous == Some(name@) {
        let c = Command::WorkspaceSwitch(name);
        assert(switch_outcome(s, name@, a.found, after, res) && replied(res, r, acts));
        assert(exists|res: Result<Seq<ActionView>, Seq<char>>| #[trigger]
            switch_outcome(s, name@, a.found, after, res) && replied(res, r, acts));
        assert(dispatched(s, c, a, p, after, r, acts)) by {
            match c {
                Command::WorkspaceSwitch(n) => {
                    assert(n == name);
                    assert(exists|res: Result<Seq<ActionView>, Seq<char>>| #[trigger]
                        switch_outcome(s, n@, a.found, after, res) && replied(res, r, acts));
                },
                _ => {},
            }
        }
    }
}

/// A monitor is the one that a target means: the one with an id, the first main
/// one, or the one after the focused one in a circle.
pub open spec fn meant_by(s: Seq<Monitor>, focused: u32, target: MonitorTarget, to: u32) -> bool {
    match target {
        MonitorTarget::Id(id) => to == id && exists|i: int|
            0 <= i < s.len() && (#[trigger] s[i]).id == id,
        MonitorTarget::Main => exists|i: int|
            0 <= i < s.len() && (#[trigger] s[i]).is_main && s[i].id == to && forall|j: int|
                0 <= j < i ==> !(#[trigger] s[j]).is_main,
        MonitorTarget::Next => s.len() >= 2 && exists|i: int|
            0 <= i < s.len() && #[trigger] first_with_id(s, focused, i) && to == s[if i + 1
                < s.len() {
                i + 1
            } else {
                0
            }].id,
    }
}

/// The first monitor with an id is at a place; where none has it, that is the
/// first place.
pub open spec fn first_with_id(s: Seq<Monitor>, id: u32, i: int) -> bool {
    if exists|j: int| 0 <= j < s.len() && (#[trigger] s[j]).id == id {
        s[i].id == id && forall|j: int| 0 <= j < i ==> (#[trigger] s[j]).id != id
    } else {
        i == 0
    }
}

proof fn lemma_place_from(s: Seq<Monitor>, id: u32, from: int)
    requires
        0 <= from <= s.len(),
        forall|j: int| 0 <= j < from ==> (#[trigger] s[j]).id != id,
        s.len() > 0,
    ensures
        0 <= place_from(s, id, from) < s.len(),
        first_with_id(s, id, place_from(s, id, from)),
    decreases s.len() - from,
{
    if from < s.len() && s[from].id != id {
        lemma_place_from(s, id, from + 1);
    }
}

proof fn lemma_main_from(s: Seq<Monitor>, from: int)
    requires
        0 <= from <= s.len(),
        forall|j: int| 0 <= j < from ==> !(#[trigger] s[j]).is_main,
    ensures
        match main_from(s, from) {
            Some(id) => exists|i: int|
                0 <= i < s.len() && (#[trigger] s[i]).is_main && s[i].id == id && forall|j: int|
                    0 <= j < i ==> !(#[trigger] s[j]).is_main,
            None => forall|j: int| 0 <= j < s.len() ==> !(#[trigger] s[j]).is_main,
        },
    decreases s.len() - from,
{
    if from < s.len() && !s[from].is_main {
        lemma_main_from(s, from + 1);
    }
}

/// A target means a monitor exactly if one is found for it, and that one.
pub proof fn law_targets_mean_monitors(s: StateView, target: MonitorTarget)
    ensures
        match resolved_target(s.desk, target) {
            Ok(to) => meant_by(s.desk.monitors, s.desk.focused, target, to),
            Err(_) => forall|to: u32| !#[trigger]
                meant_by(s.desk.monitors, s.desk.focused, target, to),
        },
{
    let all = s.desk.monitors;
    if target is Main {
        lemma_main_from(all, 0);
    }
    if target is Next && all.len() >= 2 {
        lemma_place_from(all, s.desk.focused, 0);
        let i = place_from(all, s.desk.focused, 0);
        let n = all.len() as int;
        assert((i + 1) % n == (if i + 1 < n {
            i + 1
        } else {
            0
        })) by (nonlinear_arith)
            requires
                0 <= i < n,
        ;
    }
}

/// Moving a workspace to a monitor succeeds exactly if the workspace exists and
/// the target means a monitor. That monitor shows it then; one that showed it
/// shows what that monitor showed; all others, and the focus, stay.
pub proof fn law_workspaces_move_to_monitors(
    s: StateView,
    workspace: Option<String>,
    target: MonitorTarget,
    a: TreeAnswer,
    p: Permissions,
    after: StateView,
    r: Response,
    acts: Seq<ActionView>,
)
    requires
        dispatched(
            s,
            Command::MoveWorkspaceToMonitor { workspace, target },
            a,
            p,
            after,
            r,
            acts,
        ),
        crate::desk::exclusive(s.desk.active),
    ensures
        ({
            let name = if workspace is Some {
                workspace->0@
            } else {
                active_name(s)
            };
            &&& r is Done <==> s.forest.leaves.contains_key(name) && exists|to: u32| #[trigger]
                meant_by(s.desk.monitors, s.desk.focused, target, to)
            &&& r is Done ==> exists|to: u32| #[trigger]
                meant_by(s.desk.monitors, s.desk.focused, target, to) && moved_there(
                    s,
                    name,
                    to,
                    after,
                )
        }),
{
    let name = named_or_active(s, opt_text(workspace));
    let res = choose|res: Result<Seq<ActionView>, Seq<char>>| #[trigger]
        move_outcome(s, name, target, after, res) && replied(res, r, acts);
    law_targets_mean_monitors(s, target);
    if s.forest.leaves.contains_key(name) && resolved_target(s.desk, target) is Ok {
        let to = resolved_target(s.desk, target)->Ok_0;
        assert(meant_by(s.desk.monitors, s.desk.focused, target, to));
        if lookup(s.desk.active, to) == Some(name) {
            if after != s {
                let from = choose|from: Option<u32>|
                    shows(s.desk.active, name, from) && from != Some(to) && res is Ok && (
                        after,
                        res->Ok_0,
                    ) == #[trigger] move_done(s, name, to, from);
                assert(s.desk.active.contains_key(to));
                assert(shown(s.desk.active, name));
                assert(s.desk.active.contains_key(from->0));
                assert(false);
            }
        } else {
            let from = choose|from: Option<u32>|
                shows(s.desk.active, name, from) && from != Some(to) && res is Ok && (
                    after,
                    res->Ok_0,
                ) == #[trigger] move_done(s, name, to, from);
            assert forall|m: u32| #[trigger] s.desk.active.contains_key(m) && m != to implies {
                if s.desk.active[m] != name {
                    after.desk.active.contains_key(m) && after.desk.active[m] == s.desk.active[m]
                } else {
                    lookup(after.desk.active, m) == lookup(s.desk.active, to)
                }
            } by {
                if s.desk.active[m] == name {
                    assert(shown(s.desk.active, name));
                    assert(s.desk.active.contains_key(from->0));
                    assert(from == Some(m));
                }
            }
        }
        assert(moved_there(s, name, to, after));
    }
}

/// A workspace is on a monitor that it was moved to, and nothing else changed
/// than that it and what was there changed places.
pub open spec fn moved_there(s: StateView, name: Seq<char>, to: u32, after: StateView) -> bool {
    &&& after.desk.active.contains_key(to) && after.desk.active[to] == name
    &&& forall|m: u32| #[trigger]
        s.desk.active.contains_key(m) && m != to ==> {
            if s.desk.active[m] != name {
                after.desk.active.contains_key(m) && after.desk.active[m] == s.desk.active[m]
            } else {
                lookup(after.desk.active, m) == lookup(s.desk.active, to)
            }
        }
    &&& forall|m: u32| #[trigger]
        after.desk.active.contains_key(m) ==> m == to || s.desk.active.contains_key(m)
    &&& after.desk.focused == s.desk.focused && after.desk.monitors == s.desk.monitors
    &&& after.forest == s.forest && after.placements == s.placements
}

/// The next monitor in a circle gets the focus, where there are two or more;
/// what they show stays.
pub proof fn law_focus_goes_round_the_monitors(
    s: StateView,
    a: TreeAnswer,
    p: Permissions,
    after: StateView,
    r: Response,
    acts: Seq<ActionView>,
)
    requires
        dispatched(s, Command::FocusMonitor, a, p, after, r, acts),
    ensures
        r is Done,
        s.desk.monitors.len() < 2 ==> after == s,
        s.desk.monitors.len() >= 2 ==> meant_by(
            s.desk.monitors,
            s.desk.focused,
            MonitorTarget::Next,
            after.desk.focused,
        ),
        after.desk.active == s.desk.active && after.forest == s.forest && after.placements
            == s.placements,
{
    law_targets_mean_monitors(s, MonitorTarget::Next);
}

/// Moving the focus succeeds exactly if something has it and the tree finds a
/// node in that direction: that node has it then, the window there is raised,
/// and the monitor is laid out. No window moves.
pub proof fn law_focus_goes_to_what_was_found(
    s: StateView,
    d: Direction,
    a: TreeAnswer,
    p: Permissions,
    after: StateView,
    r: Response,
    acts: Seq<ActionView>,
)
    requires
        dispatched(s, Command::Focus(d), a, p, after, r, acts),
    ensures
        ({
            let name = active_name(s);
            &&& r is Done <==> s.forest.focus.contains_key(name) && a.found is Some
            &&& r is Done ==> {
                &&& focus_went_to(s, a.found->0, after, acts)
                &&& same_leaves(s.forest, after.forest)
            }
        }),
{
    if s.forest.focus.contains_key(active_name(s)) && a.found is Some {
        lemma_focus_went(s, a.found->0);
    }
}

/// The focus of the active workspace is at a node, which the trees are told; the
/// monitor is laid out, and the window there is raised. The focus of no other
/// workspace changed.
pub open spec fn focus_went_to(
    s: StateView,
    node: u64,
    after: StateView,
    acts: Seq<ActionView>,
) -> bool {
    let name = active_name(s);
    &&& after.forest.focus == s.forest.focus.insert(name, node)
    &&& after.desk == s.desk && after.placements == s.placements
    &&& acts.contains(ActionView::RecordFocus { workspace: name, node })
    &&& acts.contains(ActionView::Relayout(s.desk.focused))
    &&& forall|w: u32| #[trigger]
        s.windows.contains_key(w) && window_at(s.forest, name, node) == Some(w) ==> acts.contains(
            ActionView::Raise { window: w, warp: s.mouse_follows_focus },
        ) && after.last_frontmost_pid == Some(s.windows[w].pid)
}

proof fn lemma_focus_went(s: StateView, node: u64)
    ensures
        focus_went_to(s, node, focus_moved(s, node).0, focus_moved(s, node).1),
        same_leaves(s.forest, focus_moved(s, node).0.forest),
{
    let name = active_name(s);
    let (after, acts) = focus_moved(s, node);
    let (focused, record) = focused_at(s, node);
    let (end, raise) = raised_focus(focused);
    lemma_focused_at(s, node);
    assert(acts[0] == record[0]);
    assert(acts[1] == ActionView::Relayout(s.desk.focused));
    assert forall|w: u32| #[trigger]
        s.windows.contains_key(w) && window_at(s.forest, name, node) == Some(
            w,
        ) implies acts.contains(
        ActionView::Raise { window: w, warp: s.mouse_follows_focus },
    ) && after.last_frontmost_pid == Some(s.windows[w].pid) by {
        assert(leaves_of(focused.forest, name) == leaves_of(s.forest, name));
        assert(window_at(focused.forest, name, node) == Some(w));
        assert(acts[2] == raise[0]);
    }
    assert forall|n: Seq<char>| #[trigger]
        leaves_of(after.forest, n) == leaves_of(s.forest, n) by {
        assert(leaves_of(focused.forest, n) == leaves_of(s.forest, n));
    }
}

/// The focused window floats.
pub open spec fn focus_floats(s: StateView) -> bool {
    focused_node(s) is Some && exists|w: u32| #[trigger]
        s.placements.contains_key(w) && s.placements[w].kind is Floating && window_at(
            s.forest,
            active_name(s),
            focused_node(s)->0,
        ) == Some(w)
}

/// Moving a window succeeds exactly if a tiled one has the focus and the tree
/// moved it. It keeps the focus, and the monitor is laid out.
pub proof fn law_moved_window_stays_focused(
    s: StateView,
    d: Direction,
    a: TreeAnswer,
    p: Permissions,
    after: StateView,
    r: Response,
    acts: Seq<ActionView>,
)
    requires
        dispatched(s, Command::Move(d), a, p, after, r, acts),
    ensures
        r is Done <==> focused_node(s) is Some && !focus_floats(s) && a.changed,
        r is Done ==> focus_went_to(s, focused_node(s)->0, after, acts) && same_leaves(
            s.forest,
            after.forest,
        ),
{
    if focused_node(s) is Some {
        lemma_focus_went(s, focused_node(s)->0);
        lemma_focus_floats(s);
    }
}

proof fn lemma_focus_floats(s: StateView)
    ensures
        focused_node(s) is Some ==> focus_floats(s) == super::floating_at(s, focused_node(s)->0),
{
    if focused_node(s) is Some {
        if let Some(w) = window_at(s.forest, active_name(s), focused_node(s)->0) {
            if s.placements.contains_key(w) && s.placements[w].kind is Floating {
                assert(s.placements.contains_key(w));
            }
        }
    }
}

/// The flag of a command for the root container.
pub open spec fn root_of(c: Command) -> bool {
    match c {
        Command::OrientationSet(_, root) => root,
        Command::OrientationToggle(root) => root,
        Command::LayoutToggle(root) => root,
        Command::LayoutSet(_, root) => root,
        Command::BalanceSizes { root } => root,
        _ => false,
    }
}

/// A command that has a container changed by the tree alone.
pub open spec fn changes_container(c: Command) -> bool {
    c is Join || c is ResizeRatio || c is OrientationSet || c is OrientationToggle || c
        is LayoutToggle || c is LayoutSet || c is BalanceSizes
}

/// A command on a container succeeds exactly if something has the focus, which
/// is not floating unless the root container is meant, and the tree did what it
/// was asked for, or the container is laid out that way already. The state does
/// not change, and the monitor is laid out if the tree changed.
pub proof fn law_container_commands_lay_out_anew(
    s: StateView,
    c: Command,
    a: TreeAnswer,
    p: Permissions,
    after: StateView,
    r: Response,
    acts: Seq<ActionView>,
)
    requires
        dispatched(s, c, a, p, after, r, acts),
        changes_container(c),
    ensures
        after == s,
        ({
            let there = focused_node(s) is Some && (root_of(c) || !focus_floats(s));
            let already = match c {
                Command::LayoutSet(LayoutKind::Accordion, _) => a.is_accordion,
                Command::LayoutSet(LayoutKind::Tiles, _) => !a.is_accordion,
                _ => false,
            };
            &&& r is Done <==> there && (already || a.changed)
            &&& r is Done && !already ==> acts.contains(ActionView::Relayout(s.desk.focused))
            &&& r is Done && already ==> acts.len() == 0
        }),
{
    lemma_focus_floats(s);
    if acts.len() > 0 {
        assert(acts[0] == ActionView::Relayout(s.desk.focused));
    }
}

/// Making a window float, or tiling it, succeeds exactly if the focused window
/// is in its workspace's tree and not so yet. It is placed so then, on the same
/// workspace, at the node that the tree gave it, which has the focus; the
/// monitor is laid out, and a floating window is brought to its place.
pub proof fn law_focused_window_floats_or_not(
    s: StateView,
    floating: bool,
    a: TreeAnswer,
    p: Permissions,
    after: StateView,
    r: Response,
    acts: Seq<ActionView>,
)
    requires
        dispatched(s, Command::SetFloating(floating), a, p, after, r, acts),
    ensures
        ({
            let name = active_name(s);
            &&& r is Done <==> focused_node(s) is Some && window_at(
                s.forest,
                name,
                focused_node(s)->0,
            ) is Some && focus_floats(s) != floating
            &&& r is Done ==> {
                let w = window_at(s.forest, name, focused_node(s)->0)->0;
                &&& after.placements.contains_key(w)
                &&& after.placements[w].workspace == name
                &&& after.placements[w].kind is Floating <==> floating
                &&& after.placements[w].kind.in_tree()
                &&& after.placements.remove(w) == s.placements.remove(w)
                &&& stands_in(after.forest, name, a.node, w)
                &&& after.forest.focus.contains_key(name) && after.forest.focus[name] == a.node
                &&& after.desk == s.desk
                &&& lookup(s.forest.fullscreen, name) == crate::forest::node_of(s.forest, name, w)
                    ==> !after.forest.fullscreen.contains_key(name)
                &&& acts.contains(ActionView::RecordFocus { workspace: name, node: a.node })
                &&& acts.contains(ActionView::Relayout(s.desk.focused))
                &&& acts.contains(ActionView::PlaceFloating(w)) <==> floating
            }
        }),
{
    lemma_focus_floats(s);
    if floatable(s, floating) is Ok {
        let w = floatable(s, floating)->Ok_0;
        let name = active_name(s);
        assert(after.placements.remove(w) =~= s.placements.remove(w));
        assert(after == floating_done(s, floating, w, a.suggested, a.node).0);
        let all = after.forest.leaves[name];
        assert(all[all.len() - 1] == (Leaf { node: a.node, window: w }));
        assert(acts[0] == (ActionView::RecordFocus { workspace: name, node: a.node }));
        assert(acts[acts.len() - 1] == ActionView::Relayout(s.desk.focused));
        if floating {
            assert(acts[1] == ActionView::PlaceFloating(w));
        }
        if acts.contains(ActionView::PlaceFloating(w)) {
            let i = acts.index_of(ActionView::PlaceFloating(w));
            assert(i == 1);
        }
    }
}

/// Toggling fullscreen makes the focused tiled window fill its monitor, or ends
/// that if it does; natively, it is the focused window itself that is told to
/// fill a screen or not, the other way from what is known of it, and is known so
/// from then on. In either way no other window changes.
pub proof fn law_fullscreen_is_toggled(
    s: StateView,
    native: bool,
    a: TreeAnswer,
    p: Permissions,
    after: StateView,
    r: Response,
    acts: Seq<ActionView>,
)
    requires
        dispatched(s, Command::FullscreenToggle { native }, a, p, after, r, acts),
    ensures
        ({
            let name = active_name(s);
            let at = focused_node(s);
            let window = if at is Some {
                window_at(s.forest, name, at->0)
            } else {
                None
            };
            &&& !native ==> {
                &&& r is Done <==> at is Some && !focus_floats(s)
                &&& r is Done ==> {
                    let fills = s.forest.fullscreen.contains_key(name)
                        && s.forest.fullscreen[name] == at->0;
                    &&& after.forest.fullscreen.contains_key(name) <==> !fills
                    &&& !fills ==> after.forest.fullscreen[name] == at->0
                    &&& forall|n: Seq<char>|
                        n != name ==> (after.forest.fullscreen.contains_key(n)
                            <==> #[trigger] s.forest.fullscreen.contains_key(n)) && (
                        s.forest.fullscreen.contains_key(n) ==> after.forest.fullscreen[n]
                            == s.forest.fullscreen[n])
                    &&& after.forest.leaves == s.forest.leaves && after.windows == s.windows
                    &&& acts.contains(ActionView::Relayout(s.desk.focused))
                }
            }
            &&& native ==> {
                &&& r is Done <==> window is Some && s.windows.contains_key(window->0)
                &&& r is Done ==> {
                    let w = window->0;
                    let on = !s.windows[w].fullscreen;
                    &&& acts == seq![ActionView::SetNativeFullscreen { window: w, on }]
                    &&& after.windows.contains_key(w) && after.windows[w].fullscreen == on
                    &&& after.windows.remove(w) == s.windows.remove(w)
                    &&& after.forest == s.forest
                }
            }
            &&& after.desk == s.desk && after.placements == s.placements
        }),
{
    lemma_focus_floats(s);
    if r is Done && !native {
        assert(acts[0] == ActionView::Relayout(s.desk.focused));
    }
    if r is Done && native {
        let w = window_at(s.forest, active_name(s), focused_node(s)->0)->0;
        assert(after.windows.remove(w) =~= s.windows.remove(w));
    }
}

/// The window that is closed is the focused one, if it is known, and no other.
pub proof fn law_focused_window_is_closed(
    s: StateView,
    a: TreeAnswer,
    p: Permissions,
    after: StateView,
    r: Response,
    acts: Seq<ActionView>,
    w: u32,
)
    requires
        dispatched(s, Command::Close, a, p, after, r, acts),
    ensures
        after == s,
        acts.contains(ActionView::Close(w)) <==> focused_node(s) is Some && window_at(
            s.forest,
            active_name(s),
            focused_node(s)->0,
        ) == Some(w) && s.windows.contains_key(w),
        r is Done <==> acts.len() == 1,
        acts.len() <= 1,
        acts.len() == 1 ==> acts[0] is Close,
{
    if r is Done {
        assert(acts[0] is Close);
    }
}

/// A mode is entered exactly if it is `main` or some keybindings are for it, and
/// left for `main`. Nothing else changes.
pub proof fn law_modes_are_entered_and_left(
    s: StateView,
    name: String,
    a: TreeAnswer,
    p: Permissions,
    after: StateView,
    r: Response,
    acts: Seq<ActionView>,
)
    ensures
        dispatched(s, Command::ModeEnter(name), a, p, after, r, acts) ==> {
            &&& r is Done <==> name@ == "main"@ || has_block(s.modes.blocks, name@)
            &&& r is Done ==> after.modes.current == name@
            &&& after.modes.blocks == s.modes.blocks
            &&& after == (StateView { modes: after.modes, ..s })
            &&& acts.len() == 0
        },
        dispatched(s, Command::ModeExit, a, p, after, r, acts) ==> {
            &&& r is Done
            &&& after.modes.current == "main"@
            &&& after.modes.blocks == s.modes.blocks
            &&& after == (StateView { modes: after.modes, ..s })
            &&& acts.len() == 0
        },
        dispatched(s, Command::CurrentMode, a, p, after, r, acts) ==> {
            &&& after == s
            &&& r matches Response::OkWithPayload(Payload::Mode(m)) && m@ == s.modes.current
        },
{
    crate::modes::law_declared_modes_can_be_entered(s.modes, name@);
}

/// The direction that a command or a call of the trees goes in.
pub open spec fn command_direction(c: Command) -> Option<Direction> {
    match c {
        Command::Focus(d) => Some(d),
        Command::Move(d) => Some(d),
        Command::Join(d) => Some(d),
        _ => None,
    }
}

pub open spec fn call_direction(call: TreeCall) -> Option<Direction> {
    match call {
        TreeCall::FocusInDirection { direction, .. } => Some(direction),
        TreeCall::MoveInDirection { direction, .. } => Some(direction),
        TreeCall::JoinWith { direction, .. } => Some(direction),
        _ => None,
    }
}

/// Whether a call of the trees is about the root container.
pub open spec fn call_root(call: TreeCall) -> bool {
    match call {
        TreeCall::SetOrientation { root, .. } => root,
        TreeCall::ToggleOrientation { root, .. } => root,
        TreeCall::ToggleLayout { root, .. } => root,
        TreeCall::SetLayout { root, .. } => root,
        TreeCall::Balance { root, .. } => root,
        _ => false,
    }
}

/// The node that a call of the trees starts from.
pub open spec fn call_node(call: TreeCall) -> Option<u64> {
    match call {
        TreeCall::FocusInDirection { node, .. } => Some(node),
        TreeCall::MoveInDirection { node, .. } => Some(node),
        TreeCall::JoinWith { node, .. } => Some(node),
        TreeCall::ResizeWeight { node, .. } => Some(node),
        TreeCall::SetOrientation { node, .. } => Some(node),
        TreeCall::ToggleOrientation { node, .. } => Some(node),
        TreeCall::ToggleLayout { node, .. } => Some(node),
        TreeCall::SetLayout { node, .. } => Some(node),
        TreeCall::Balance { node, .. } => Some(node),
        _ => None,
    }
}

/// What the trees are asked for is what the command says: in its direction, by
/// its amount, with its axis, its layout and its flag, and from the focused
/// node; each kind of command asks for its own kind of change. A command that
/// asks for nothing fails, or leaves the trees as they are.
pub proof fn law_trees_are_asked_for_what_is_commanded(
    s: StateView,
    c: Command,
    call: TreeCall,
    a: TreeAnswer,
    p: Permissions,
    after: StateView,
    r: Response,
    acts: Seq<ActionView>,
)
    requires
        asked(s, c, call),
        dispatched(s, c, a, p, after, r, acts),
    ensures
        call is FocusInDirection ==> c is Focus,
        call is MoveInDirection ==> c is Move,
        call is JoinWith ==> c is Join,
        call is ResizeWeight ==> (c matches Command::ResizeRatio { amount } && call->amount@
            == amount@),
        call is SetOrientation ==> (c matches Command::OrientationSet(o, _) && call->orientation
            == o),
        call is ToggleOrientation ==> c is OrientationToggle,
        call is ToggleLayout ==> c is LayoutToggle,
        call is SetLayout ==> (c matches Command::LayoutSet(l, _) && call->layout == l),
        call is Balance ==> c is BalanceSizes,
        call is Reinsert ==> (c matches Command::SetFloating(f) && call->floating == f),
        call is Carry ==> (c matches Command::MoveNodeToWorkspace(n) && call->to@ == n@),
        call is DefaultFocus ==> c is WorkspaceSwitch || c is WorkspaceBack || c is Summon,
        !(call is Nothing) ==> call_direction(call) == command_direction(c) && call_root(call)
            == root_of(c),
        call_node(call) is Some ==> call_node(call) == focused_node(s),
        call matches TreeCall::Reinsert { window, .. } ==> focused_node(s) is Some && window_at(
            s.forest,
            active_name(s),
            focused_node(s)->0,
        ) == Some(window),
        call matches TreeCall::Carry { window, .. } ==> focused_node(s) is Some && window_at(
            s.forest,
            active_name(s),
            focused_node(s)->0,
        ) == Some(window),
        c matches Command::WorkspaceSwitch(n) ==> call is DefaultFocus && call->workspace@ == n@,
        c is WorkspaceBack && r is Done ==> call is DefaultFocus && s.desk.previous == Some(
            call->workspace@,
        ),
        call is Nothing && (c is Focus || c is Move || changes_container(c) || c is SetFloating)
            ==> r is Failed,
        call is Nothing && c is MoveNodeToWorkspace ==> after == s,
{
    if let Command::MoveNodeToWorkspace(name) = c {
        let res = choose|res: Result<Seq<ActionView>, Seq<char>>| #[trigger]
            super::switching::carry_outcome(s, name@, a.suggested, a.node, after, res) && replied(
                res,
                r,
                acts,
            );
    }
    if c is WorkspaceBack {
        let res = choose|res: Result<Seq<ActionView>, Seq<char>>| #[trigger]
            back_outcome(s, a.found, after, res) && replied(res, r, acts);
    }
}

/// A summoned window is the one whose workspace the trees are asked about: it is
/// the active one afterwards.
pub proof fn law_trees_are_asked_about_what_is_summoned(
    s: StateView,
    query: String,
    call: TreeCall,
    a: TreeAnswer,
    p: Permissions,
    after: StateView,
    r: Response,
    acts: Seq<ActionView>,
)
    requires
        asked(s, Command::Summon(query), call),
        dispatched(s, Command::Summon(query), a, p, after, r, acts),
        r is Done,
    ensures
        call matches TreeCall::DefaultFocus { workspace } && active_name(after) == workspace@,
{
    let res = choose|res: Result<Seq<ActionView>, Seq<char>>| #[trigger]
        super::bringup::summon_outcome(s, query@, a.found, after, res) && replied(res, r, acts);
    let id = super::bringup::summoned_by(s, query@)->0;
    let w = s.placements[id];
    let (mid, up) = choose|mid: StateView, up: Result<Seq<ActionView>, Seq<char>>| #[trigger]
        super::bringup::brought_up(s, w.workspace, a.found, mid, up) && (match up {
            Err(e) => res == up && after == mid,
            Ok(done) => res == Ok::<Seq<ActionView>, Seq<char>>(
                done + super::bringup::attended(mid, id).1,
            ) && after == super::bringup::attended(mid, id).0,
        });
    super::laws::lemma_focus_given(mid, id);
    super::laws::lemma_shown_after(s, w.workspace, a.found, mid, up);
}

/// A checkup tells which permissions are granted, each by itself, and what is
/// wrong with the configuration, word for word.
pub proof fn law_checkup_tells_what_is_known(
    s: StateView,
    a: TreeAnswer,
    p: Permissions,
    after: StateView,
    r: Response,
    acts: Seq<ActionView>,
)
    requires
        dispatched(s, Command::Doctor, a, p, after, r, acts),
    ensures
        r matches Response::OkWithPayload(Payload::Report(d)) && d.accessibility_granted
            == p.accessibility && d.input_monitoring_granted == p.input_monitoring
            && d.config_warnings@.len() == s.warnings.len() && forall|i: int|
            0 <= i < s.warnings.len() ==> (#[trigger] d.config_warnings@[i])@ == s.warnings[i],
{
    if let Response::OkWithPayload(Payload::Report(d)) = r {
        assert(crate::text::texts(d.config_warnings@).len() == d.config_warnings@.len());
        assert forall|i: int| 0 <= i < s.warnings.len() implies (#[trigger] d.config_warnings@[i])@
            == s.warnings[i] by {
            assert(crate::text::texts(d.config_warnings@)[i] == s.warnings[i]);
        }
    }
}

/// Where a command fails because of what it names, the message has that in it:
/// the workspace, the text, the mode, the display or the verb.
pub proof fn law_failures_name_what_was_asked(
    s: StateView,
    c: Command,
    a: TreeAnswer,
    p: Permissions,
    after: StateView,
    r: Response,
    acts: Seq<ActionView>,
)
    requires
        dispatched(s, c, a, p, after, r, acts),
        r is Failed,
    ensures
        c matches Command::WorkspaceSwitch(name) ==> part_of(name@, r->message@),
        c matches Command::MoveNodeToWorkspace(name) ==> s.forest.leaves.contains_key(name@)
            || part_of(name@, r->message@),
        c matches Command::Summon(query) ==> (forall|x: u32| #[trigger]
            s.windows.contains_key(x) ==> !super::effects::named_by(s.windows[x], query@))
            ==> part_of(query@, r->message@),
        c matches Command::ModeEnter(name) ==> part_of(name@, r->message@),
        c matches Command::Raw { verb, args } ==> part_of(verb@, r->message@),
        c matches Command::MoveWorkspaceToMonitor { workspace, target } ==> (
        s.forest.leaves.contains_key(named_or_active(s, opt_text(workspace))) ==> (target
            matches MonitorTarget::Id(id) ==> part_of(
            crate::text::decimal_text(id as nat),
            r->message@,
        ))),
        c matches Command::MoveWorkspaceToMonitor { workspace: Some(name), target } ==> (
        s.forest.leaves.contains_key(name@) || part_of(name@, r->message@)),
{
    let m = r->message@;
    match c {
        Command::WorkspaceSwitch(name) => {
            let res = choose|res: Result<Seq<ActionView>, Seq<char>>| #[trigger]
                switch_outcome(s, name@, a.found, after, res) && replied(res, r, acts);
            lemma_switch(s, name@, a.found, after, res);
            lemma_undeclared(name@);
        },
        Command::MoveNodeToWorkspace(name) => {
            let res = choose|res: Result<Seq<ActionView>, Seq<char>>| #[trigger]
                super::switching::carry_outcome(s, name@, a.suggested, a.node, after, res)
                    && replied(res, r, acts);
            lemma_undeclared(name@);
        },
        Command::Summon(query) => {
            let res = choose|res: Result<Seq<ActionView>, Seq<char>>| #[trigger]
                super::bringup::summon_outcome(s, query@, a.found, after, res) && replied(
                    res,
                    r,
                    acts,
                );
            super::effects::lemma_summoned_by(s, query@);
            if super::bringup::summoned_by(s, query@) is None {
                lemma_part_of("no window matching '"@, query@, "'"@, m);
            }
        },
        Command::ModeEnter(name) => {
            lemma_part_of("unknown keybinding mode '"@, name@, "'"@, m);
        },
        Command::Raw { verb, args } => {
            lemma_part_of("unknown command: "@, verb@, Seq::empty(), m);
        },
        Command::MoveWorkspaceToMonitor { workspace, target } => {
            let name = named_or_active(s, opt_text(workspace));
            let res = choose|res: Result<Seq<ActionView>, Seq<char>>| #[trigger]
                move_outcome(s, name, target, after, res) && replied(res, r, acts);
            lemma_undeclared(name);
            if s.forest.leaves.contains_key(name) {
                if let MonitorTarget::Id(id) = target {
                    lemma_part_of(
                        "no connected monitor with id "@,
                        crate::text::decimal_text(id as nat),
                        Seq::empty(),
                        m,
                    );
                }
            }
        },
        _ => {},
    }
}

proof fn lemma_undeclared(name: Seq<char>)
    ensures
        part_of(name, super::switching::undeclared(name)),
{
    lemma_part_of(
        "workspace '"@,
        name,
        "' isn't declared in config"@,
        super::switching::undeclared(name),
    );
}

}
