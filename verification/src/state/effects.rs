//! What commands bring about, whatever they are made of.

use vstd::prelude::*;
use super::bringup::{
    attended, brought_up, first_to_answer, focus_given, in_front, revealed, summon_outcome,
    summoned_by,
};
use super::laws::{
    housed, law_commands_keep_windows_housed, law_failed_commands_change_nothing, placed_on, seated,
    lemma_brought_up, lemma_contains_left, lemma_contains_right,
    lemma_focus_given, lemma_plain_commands_keep_the_desk, lemma_shown_after, lemma_switch,
    lemma_switch_desk,
};
use super::scan::{
    admitted, first_placement, first_workspace, in_its_place, noticed, put_off, ScannedView,
    TreeReply,
};
use super::switching::{
    all_fresh, all_given, rearranged, back_outcome, carried, carry_outcome, displays_outcome, movable, move_done, move_outcome,
    named_or_active, refresh, switch_done, switch_outcome,
};
use super::{active_name, focused_node, raised, ActionView, PlacementView, StateView, WindowView};
use crate::desk::{
    after_renames, connected, lookup, resolved_target, shown, shows, shows_elsewhere, Monitor,
    MonitorDiff,
};
use crate::display::{has_id, one_display, renamed_from, renamed_to, told_apart};
use crate::dispatch::{dispatched, replied, Permissions, TreeAnswer};
use crate::forest::{leaf_from, leaves_of, node_of, window_at, window_from, ForestView, Leaf};
use crate::grace::waking;
use crate::ipc::{Command, MonitorTarget, Response};
use crate::placement::PlacementKind;
use crate::text::{law_texts_are_found_in_others, opt_text, part_of};

verus! {

/// A monitor shows something else than before, or nothing, or something where
/// it showed nothing.
pub open spec fn shows_another(s: StateView, after: StateView, id: u32) -> bool {
    ||| s.desk.active.contains_key(id) != after.desk.active.contains_key(id)
    ||| s.desk.active.contains_key(id) && s.desk.active[id] != after.desk.active[id]
}

/// Every monitor that shows something else than before is laid out, and its
/// floating windows are brought to their places.
pub open spec fn changed_is_laid_out(s: StateView, after: StateView, acts: Seq<ActionView>) -> bool {
    forall|id: u32| #[trigger]
        shows_another(s, after, id) ==> acts.contains(ActionView::RefreshAll) || (acts.contains(
            ActionView::Relayout(id),
        ) && acts.contains(ActionView::RepositionFloating(id)))
}

proof fn lemma_refresh(id: u32)
    ensures
        refresh(id).contains(ActionView::Relayout(id)),
        refresh(id).contains(ActionView::RepositionFloating(id)),
{
    assert(refresh(id)[0] == ActionView::Relayout(id));
    assert(refresh(id)[1] == ActionView::RepositionFloating(id));
}

proof fn lemma_both_left(a: Seq<ActionView>, b: Seq<ActionView>, id: u32)
    requires
        a.contains(ActionView::Relayout(id)),
        a.contains(ActionView::RepositionFloating(id)),
    ensures
        (a + b).contains(ActionView::Relayout(id)),
        (a + b).contains(ActionView::RepositionFloating(id)),
{
    lemma_contains_left(a, b, ActionView::Relayout(id));
    lemma_contains_left(a, b, ActionView::RepositionFloating(id));
}

proof fn lemma_switch_lays_out(
    s: StateView,
    name: Seq<char>,
    default_focus: Option<u64>,
    after: StateView,
    r: Result<Seq<ActionView>, Seq<char>>,
)
    requires
        switch_outcome(s, name, default_focus, after, r),
        r is Ok,
    ensures
        changed_is_laid_out(s, after, r->Ok_0),
{
    if s.forest.leaves.contains_key(name) && lookup(s.desk.active, s.desk.focused) != Some(name) {
        let swap = choose|swap: Option<u32>|
            shows_elsewhere(s.desk.active, name, s.desk.focused, swap) && r is Ok && (
                after,
                r->Ok_0,
            ) == #[trigger] switch_done(s, name, swap, default_focus);
        lemma_switch_desk(s, name, swap, default_focus);
        let acts = r->Ok_0;
        let f = s.desk.focused;
        lemma_refresh(f);
        assert(acts =~= refresh(f) + acts.skip(2));
        lemma_both_left(refresh(f), acts.skip(2), f);
        if swap is Some {
            let other = swap->0;
            let head = acts.take(acts.len() - 2);
            lemma_refresh(other);
            assert(acts =~= head + refresh(other));
            lemma_contains_right(head, refresh(other), ActionView::Relayout(other));
            lemma_contains_right(head, refresh(other), ActionView::RepositionFloating(other));
        }
    }
}

proof fn lemma_move_lays_out(
    s: StateView,
    name: Seq<char>,
    target: MonitorTarget,
    after: StateView,
    r: Result<Seq<ActionView>, Seq<char>>,
)
    requires
        move_outcome(s, name, target, after, r),
        r is Ok,
    ensures
        changed_is_laid_out(s, after, r->Ok_0),
{
    let to = resolved_target(s.desk, target)->Ok_0;
    if after != s {
        let from = choose|from: Option<u32>|
            shows(s.desk.active, name, from) && from != Some(to) && r is Ok && (after, r->Ok_0)
                == #[trigger] move_done(s, name, to, from);
        let acts = r->Ok_0;
        lemma_refresh(to);
        if from is Some {
            lemma_refresh(from->0);
            lemma_both_left(refresh(to), refresh(from->0), to);
            lemma_contains_right(refresh(to), refresh(from->0), ActionView::Relayout(from->0));
            lemma_contains_right(
                refresh(to),
                refresh(from->0),
                ActionView::RepositionFloating(from->0),
            );
        } else {
            let head = acts.take(acts.len() - 2);
            assert(acts =~= head + refresh(to));
            lemma_contains_right(head, refresh(to), ActionView::Relayout(to));
            lemma_contains_right(head, refresh(to), ActionView::RepositionFloating(to));
        }
    }
}

proof fn lemma_more_lays_out(
    s: StateView,
    mid: StateView,
    after: StateView,
    a: Seq<ActionView>,
    b: Seq<ActionView>,
)
    requires
        changed_is_laid_out(s, mid, a),
        after.desk.active == mid.desk.active,
    ensures
        changed_is_laid_out(s, after, a + b),
{
    assert forall|id: u32| #[trigger] shows_another(s, after, id) implies (a + b).contains(
        ActionView::RefreshAll,
    ) || ((a + b).contains(ActionView::Relayout(id)) && (a + b).contains(
        ActionView::RepositionFloating(id),
    )) by {
        assert(shows_another(s, mid, id));
        if a.contains(ActionView::RefreshAll) {
            lemma_contains_left(a, b, ActionView::RefreshAll);
        } else {
            lemma_both_left(a, b, id);
        }
    }
}

proof fn lemma_same_start(s: StateView, t: StateView, after: StateView, acts: Seq<ActionView>)
    requires
        t.desk.active == s.desk.active,
        changed_is_laid_out(t, after, acts),
    ensures
        changed_is_laid_out(s, after, acts),
{
    assert forall|id: u32| #[trigger] shows_another(s, after, id) implies acts.contains(
        ActionView::RefreshAll,
    ) || (acts.contains(ActionView::Relayout(id)) && acts.contains(
        ActionView::RepositionFloating(id),
    )) by {
        assert(shows_another(t, after, id));
    }
}

proof fn lemma_brought_up_lays_out(
    s: StateView,
    name: Seq<char>,
    default_focus: Option<u64>,
    mid: StateView,
    r: Result<Seq<ActionView>, Seq<char>>,
)
    requires
        brought_up(s, name, default_focus, mid, r),
        r is Ok,
    ensures
        changed_is_laid_out(s, mid, r->Ok_0),
{
    if !shown(s.desk.active, name) {
        lemma_switch_lays_out(s, name, default_focus, mid, r);
    }
}

/// Whatever command is carried out, every monitor that shows something else
/// than before is laid out anew, and the floating windows there come to their
/// places.
pub proof fn law_commands_lay_out_what_they_show(
    s: StateView,
    c: Command,
    a: TreeAnswer,
    p: Permissions,
    after: StateView,
    r: Response,
    acts: Seq<ActionView>,
)
    requires
        dispatched(s, c, a, p, after, r, acts),
    ensures
        changed_is_laid_out(s, after, acts),
{
    if r is Failed {
        law_failed_commands_change_nothing(s, c, a, p, after, r, acts);
    } else {
        match c {
            Command::WorkspaceSwitch(name) => {
                let res = choose|res: Result<Seq<ActionView>, Seq<char>>| #[trigger]
                    switch_outcome(s, name@, a.found, after, res) && replied(res, r, acts);
                lemma_switch_lays_out(s, name@, a.found, after, res);
            },
            Command::WorkspaceBack => {
                let res = choose|res: Result<Seq<ActionView>, Seq<char>>| #[trigger]
                    back_outcome(s, a.found, after, res) && replied(res, r, acts);
                lemma_switch_lays_out(s, s.desk.previous->0, a.found, after, res);
            },
            Command::MoveNodeToWorkspace(name) => {
                let res = choose|res: Result<Seq<ActionView>, Seq<char>>| #[trigger]
                    carry_outcome(s, name@, a.suggested, a.node, after, res) && replied(
                        res,
                        r,
                        acts,
                    );
                if let Ok(Some(id)) = movable(s, name@) {
                    let mid = carried(s, name@, id, a.suggested, a.node);
                    lemma_switch_lays_out(mid, name@, None, after, res);
                    lemma_same_start(s, mid, after, acts);
                }
            },
            Command::Summon(query) => {
                let res = choose|res: Result<Seq<ActionView>, Seq<char>>| #[trigger]
                    summon_outcome(s, query@, a.found, after, res) && replied(res, r, acts);
                let id = summoned_by(s, query@)->0;
                let w = s.placements[id];
                let (mid, up) = choose|
                    mid: StateView,
                    up: Result<Seq<ActionView>, Seq<char>>,
                | #[trigger]
                    brought_up(s, w.workspace, a.found, mid, up) && (match up {
                        Err(e) => res == up && after == mid,
                        Ok(done) => res == Ok::<Seq<ActionView>, Seq<char>>(
                            done + attended(mid, id).1,
                        ) && after == attended(mid, id).0,
                    });
                lemma_brought_up_lays_out(s, w.workspace, a.found, mid, up);
                lemma_focus_given(mid, id);
                lemma_more_lays_out(s, mid, after, up->Ok_0, attended(mid, id).1);
            },
            Command::MoveWorkspaceToMonitor { workspace, target } => {
                let name = named_or_active(s, opt_text(workspace));
                let res = choose|res: Result<Seq<ActionView>, Seq<char>>| #[trigger]
                    move_outcome(s, name, target, after, res) && replied(res, r, acts);
                lemma_move_lays_out(s, name, target, after, res);
            },
            _ => {
                lemma_plain_commands_keep_the_desk(s, c, a, p, after, r, acts);
            },
        }
    }
}

/// When what is in front is brought into view, every monitor that shows
/// something else than before is laid out anew.
pub proof fn law_revealing_lays_out_what_it_shows(
    s: StateView,
    pid: i32,
    id: u32,
    previous_bundle: Option<Seq<char>>,
    allow_unchanged_pid: bool,
    now: u64,
    default_focus: Option<u64>,
    after: StateView,
    acts: Seq<ActionView>,
)
    requires
        revealed(
            s,
            pid,
            id,
            previous_bundle,
            allow_unchanged_pid,
            now,
            default_focus,
            after,
            acts,
        ),
    ensures
        changed_is_laid_out(s, after, acts),
{
    let front = in_front(s, pid);
    if after != front && s.placements.contains_key(id) {
        let p = s.placements[id];
        let (mid, up) = choose|mid: StateView, up: Result<Seq<ActionView>, Seq<char>>| #[trigger]
            brought_up(front, p.workspace, default_focus, mid, up) && up is Ok && ({
                let (focused, record) = focus_given(mid, id);
                let moved = !shown(s.desk.active, p.workspace) || mid.desk.focused
                    != s.desk.focused;
                let (end, raise) = if s.last_frontmost_pid != Some(pid) || moved {
                    raised(focused, id)
                } else {
                    (focused, Seq::empty())
                };
                after == end && acts == up->Ok_0 + record + raise
            });
        lemma_brought_up_lays_out(front, p.workspace, default_focus, mid, up);
        lemma_focus_given(mid, id);
        let rest = acts.skip(up->Ok_0.len() as int);
        assert(acts =~= up->Ok_0 + rest);
        lemma_more_lays_out(front, mid, after, up->Ok_0, rest);
        lemma_same_start(s, front, after, acts);
    }
}

/// When a scan finds a window, every monitor that shows something else than
/// before is laid out anew.
pub proof fn law_scanning_lays_out_what_it_shows(
    s: StateView,
    id: u32,
    w: ScannedView,
    active: Seq<char>,
    now: u64,
    reply: TreeReply,
    after: StateView,
    acts: Seq<ActionView>,
)
    requires
        admitted(s, id, w, active, now, reply, after, acts),
    ensures
        changed_is_laid_out(s, after, acts),
{
    let seen = noticed(s, id, w);
    if !s.placements.contains_key(id) && !put_off(s, id, w) {
        let kind = first_placement(s, w);
        let name = first_workspace(s, w.window, active);
        let placed = StateView {
            placements: seen.placements.insert(id, PlacementView { workspace: name, kind }),
            ..seen
        };
        let rooted = in_its_place(placed, id, kind, name, reply.node);
        if name != active_name(placed) && !waking(placed.grace, now) {
            let r = choose|r: Result<Seq<ActionView>, Seq<char>>| #[trigger]
                switch_outcome(rooted, name, reply.default_focus, after, r) && acts == (
                Seq::<ActionView>::empty() + (match r {
                    Ok(more) => more,
                    Err(e) => Seq::empty(),
                }));
            lemma_switch(rooted, name, reply.default_focus, after, r);
            if r is Ok {
                lemma_switch_lays_out(rooted, name, reply.default_focus, after, r);
                assert(acts =~= r->Ok_0);
                lemma_same_start(s, rooted, after, acts);
            }
        }
    }
}

/// However the displays change, every monitor that shows something else than
/// before is laid out anew.
pub proof fn law_display_changes_lay_out_what_they_show(
    s: StateView,
    monitors: Seq<Monitor>,
    diff: &MonitorDiff,
    after: StateView,
    acts: Seq<ActionView>,
)
    requires
        displays_outcome(s, monitors, diff, after, acts),
    ensures
        changed_is_laid_out(s, after, acts),
{
    if monitors.len() > 0 {
        assert(acts[acts.len() - 1] == ActionView::RefreshAll);
    }
}

/// A window is at a node of a workspace's tree.
pub open spec fn stands_in(f: ForestView, name: Seq<char>, node: u64, window: u32) -> bool {
    f.leaves.contains_key(name) && f.leaves[name].contains(Leaf { node, window })
}

/// No two windows of a workspace are at one node.
pub open spec fn nodes_differ(f: ForestView, name: Seq<char>) -> bool {
    forall|i: int, j: int|
        f.leaves.contains_key(name) && 0 <= i < j < f.leaves[name].len()
            ==> #[trigger] f.leaves[name][i].node != #[trigger] f.leaves[name][j].node
}

proof fn lemma_first_at(s: Seq<Leaf>, node: u64, i: int, from: int)
    requires
        0 <= from <= i < s.len(),
        s[i].node == node,
        forall|j: int| from <= j < i ==> (#[trigger] s[j]).node != node,
    ensures
        window_from(s, node, from) == Some(s[i].window),
    decreases i - from,
{
    if from < i {
        lemma_first_at(s, node, i, from + 1);
    }
}

/// The window at a node is told by the node: it is the one that stands there.
pub proof fn law_window_is_found_at_its_node(
    f: ForestView,
    name: Seq<char>,
    node: u64,
    window: u32,
)
    requires
        nodes_differ(f, name),
    ensures
        stands_in(f, name, node, window) <==> window_at(f, name, node) == Some(window),
{
    if stands_in(f, name, node, window) {
        let s = f.leaves[name];
        let i = s.index_of(Leaf { node, window });
        lemma_first_at(s, node, i, 0);
    }
    if window_at(f, name, node) == Some(window) {
        lemma_found(f.leaves[name], node, 0);
    }
}

proof fn lemma_found(s: Seq<Leaf>, node: u64, from: int)
    requires
        from >= 0,
    ensures
        window_from(s, node, from) is Some ==> s.contains(
            Leaf { node, window: window_from(s, node, from)->0 },
        ),
    decreases s.len() - from,
{
    if from < s.len() {
        if s[from].node == node {
            assert(s[from] == (Leaf { node, window: s[from].window }));
        } else {
            lemma_found(s, node, from + 1);
        }
    }
}

/// A window that is moved to another workspace is in its tree then, at the node
/// that the tree gave it, and no more in the tree that it came from. It has the
/// focus there, whatever had it before, the workspace is shown on the focused
/// monitor, and the window is raised and no other one. The workspace that it
/// came from has the focus that its tree suggests, and is not filled by it any
/// more. No other window is placed otherwise than before.
pub proof fn law_moved_window_keeps_the_focus(
    s: StateView,
    name: String,
    a: TreeAnswer,
    p: Permissions,
    after: StateView,
    r: Response,
    acts: Seq<ActionView>,
    window: u32,
)
    requires
        dispatched(s, Command::MoveNodeToWorkspace(name), a, p, after, r, acts),
        r is Done,
        name@ != active_name(s),
        focused_node(s) is Some,
        window_at(s.forest, active_name(s), focused_node(s)->0) == Some(window),
    ensures
        after.desk.active.contains_key(s.desk.focused) && after.desk.active[s.desk.focused]
            == name@,
        after.desk.focused == s.desk.focused,
        after.forest.focus.contains_key(name@) && after.forest.focus[name@] == a.node,
        stands_in(after.forest, name@, a.node, window),
        housed(s) ==> !seated(after.forest, active_name(s), window),
        after.placements.contains_key(window) && after.placements[window].workspace == name@,
        after.placements[window].kind == (if s.placements.contains_key(window)
            && s.placements[window].kind is Floating {
            PlacementKind::Floating { manual: None }
        } else {
            PlacementKind::Tiled
        }),
        after.placements.remove(window) == s.placements.remove(window),
        lookup(after.forest.focus, active_name(s)) == a.suggested,
        node_of(s.forest, active_name(s), window) is Some && lookup(
            s.forest.fullscreen,
            active_name(s),
        ) == node_of(s.forest, active_name(s), window) ==> !after.forest.fullscreen.contains_key(
            active_name(s),
        ),
        node_of(s.forest, active_name(s), window) is Some && lookup(
            s.forest.fullscreen,
            active_name(s),
        ) != node_of(s.forest, active_name(s), window) ==> after.forest.fullscreen
            == s.forest.fullscreen,
        acts.contains(ActionView::RecordFocus { workspace: name@, node: a.node }),
        nodes_differ(after.forest, name@) && s.windows.contains_key(window) ==> acts.contains(
            ActionView::Raise { window, warp: s.mouse_follows_focus },
        ),
        nodes_differ(after.forest, name@) ==> forall|x: u32, warp: bool| #[trigger]
            acts.contains(ActionView::Raise { window: x, warp }) ==> x == window,
{
    let res = choose|res: Result<Seq<ActionView>, Seq<char>>| #[trigger]
        carry_outcome(s, name@, a.suggested, a.node, after, res) && replied(res, r, acts);
    let mid = carried(s, name@, window, a.suggested, a.node);
    assert(movable(s, name@) == Ok::<Option<u32>, Seq<char>>(Some(window)));
    let swap = choose|swap: Option<u32>|
        shows_elsewhere(mid.desk.active, name@, mid.desk.focused, swap) && res is Ok && (
            after,
            res->Ok_0,
        ) == #[trigger] switch_done(mid, name@, swap, None);
    lemma_switch_desk(mid, name@, swap, None);
    lemma_switch(mid, name@, None, after, res);
    let f = s.desk.focused;
    let all = mid.forest.leaves[name@];
    assert(all[all.len() - 1] == (Leaf { node: a.node, window }));
    let there = StateView { desk: after.desk, ..mid };
    assert(active_name(there) == name@);
    assert(lookup(mid.forest.focus, name@) == Some(a.node));
    let (focused, record) = super::focused_at(there, a.node);
    let (end, raise) = super::raised_focus(focused);
    assert(after == end);
    assert(after.forest.leaves[name@] == all);
    assert(acts == refresh(f) + record + raise + (match swap {
        Some(id) => refresh(id),
        None => super::switching::park_floating(lookup(mid.desk.active, f))
            + super::switching::park_tiled(lookup(mid.desk.active, f)),
    }));
    assert(acts[2] == record[0]);
    assert(after.placements.remove(window) =~= s.placements.remove(window));
    if housed(s) {
        law_commands_keep_windows_housed(
            s,
            Command::MoveNodeToWorkspace(name),
            a,
            p,
            after,
            r,
            acts,
        );
        assert(seated(after.forest, active_name(s), window) <==> placed_on(
            after,
            active_name(s),
            window,
        ));
    }
    if nodes_differ(after.forest, name@) {
        law_window_is_found_at_its_node(after.forest, name@, a.node, window);
        if s.windows.contains_key(window) {
            assert(acts[3] == raise[0]);
        }
        assert forall|x: u32, warp: bool| #[trigger]
            acts.contains(ActionView::Raise { window: x, warp }) implies x == window by {
            let i = acts.index_of(ActionView::Raise { window: x, warp });
            assert(i == 3);
        }
    }
}

/// A window's title, or its application's bundle id, has a text in it.
pub open spec fn named_by(w: WindowView, query: Seq<char>) -> bool {
    part_of(query, w.title) || (w.bundle_id is Some && part_of(query, w.bundle_id->0))
}

pub(super) proof fn lemma_summoned_by(s: StateView, query: Seq<char>)
    ensures
        match summoned_by(s, query) {
            Some(id) => s.windows.contains_key(id) && named_by(s.windows[id], query)
                && forall|x: u32| #[trigger]
                s.windows.contains_key(x) && named_by(s.windows[x], query) ==> id <= x,
            None => forall|x: u32| #[trigger]
                s.windows.contains_key(x) ==> !named_by(s.windows[x], query),
        },
{
    assert forall|x: u32| #[trigger] s.windows.contains_key(x) implies (named_by(
        s.windows[x],
        query,
    ) <==> super::bringup::answers_to(s.windows[x], query)) by {
        law_texts_are_found_in_others(query, s.windows[x].title);
        if s.windows[x].bundle_id is Some {
            law_texts_are_found_in_others(query, s.windows[x].bundle_id->0);
        }
    }
    if summoned_by(s, query) is Some {
        let some = choose|id: u32| #[trigger]
            s.windows.contains_key(id) && super::bringup::answers_to(s.windows[id], query);
        lemma_least(s, query, some);
        assert(first_to_answer(s, query, summoned_by(s, query)->0));
    }
}

proof fn lemma_least(s: StateView, query: Seq<char>, some: u32)
    requires
        s.windows.contains_key(some),
        super::bringup::answers_to(s.windows[some], query),
    ensures
        exists|id: u32| first_to_answer(s, query, id),
    decreases some,
{
    if !first_to_answer(s, query, some) {
        let less = choose|x: u32| #[trigger]
            s.windows.contains_key(x) && super::bringup::answers_to(s.windows[x], query) && x
                < some;
        lemma_least(s, query, less);
    }
}

/// Summoning succeeds if a known window has the text in its title or its bundle
/// id, as long as those that have it are placed on workspaces that exist. Of
/// those, the one with the least id comes into view: its workspace is shown on
/// the focused monitor then, it has the focus there, and it is raised. Where no
/// window has the text, summoning fails.
pub proof fn law_summoning_finds_by_title_and_bundle(
    s: StateView,
    query: String,
    a: TreeAnswer,
    p: Permissions,
    after: StateView,
    r: Response,
    acts: Seq<ActionView>,
)
    requires
        dispatched(s, Command::Summon(query), a, p, after, r, acts),
        forall|x: u32| #[trigger]
            s.windows.contains_key(x) && named_by(s.windows[x], query@) ==> s.placements.contains_key(
                x,
            ) && s.forest.leaves.contains_key(s.placements[x].workspace),
    ensures
        r is Done <==> exists|x: u32| #[trigger]
            s.windows.contains_key(x) && named_by(s.windows[x], query@),
        r is Done ==> exists|id: u32| #[trigger]
            came_into_view(s, query@, after, acts, id),
{
    lemma_summoned_by(s, query@);
    let res = choose|res: Result<Seq<ActionView>, Seq<char>>| #[trigger]
        summon_outcome(s, query@, a.found, after, res) && replied(res, r, acts);
    if let Some(id) = summoned_by(s, query@) {
        let w = s.placements[id];
        let (mid, up) = choose|mid: StateView, up: Result<Seq<ActionView>, Seq<char>>| #[trigger]
            brought_up(s, w.workspace, a.found, mid, up) && (match up {
                Err(e) => res == up && after == mid,
                Ok(done) => res == Ok::<Seq<ActionView>, Seq<char>>(done + attended(mid, id).1)
                    && after == attended(mid, id).0,
            });
        lemma_brought_up(s, w.workspace, a.found, mid, up);
        if !shown(s.desk.active, w.workspace) {
            lemma_switch(s, w.workspace, a.found, mid, up);
        }
        assert(up is Ok);
        lemma_focus_given(mid, id);
        lemma_shown_after(s, w.workspace, a.found, mid, up);
        lemma_windows_stay(s, w.workspace, a.found, mid, up);
        let more = attended(mid, id).1;
        assert(more.last() == (ActionView::Raise { window: id, warp: s.mouse_follows_focus }));
        assert(more[more.len() - 1] == more.last());
        lemma_contains_right(
            up->Ok_0,
            more,
            ActionView::Raise { window: id, warp: s.mouse_follows_focus },
        );
        let name = w.workspace;
        law_node_of_a_window(mid.forest, name, id);
        assert(leaves_of(mid.forest, name) == leaves_of(s.forest, name));
        assert(leaves_of(after.forest, name) == leaves_of(mid.forest, name));
        if w.kind.in_tree() && in_some_place(s.forest, name, id) {
            let n = choose|node: u64| stands_in(s.forest, name, node, id);
            assert(mid.forest.leaves.contains_key(name));
            assert(stands_in(mid.forest, name, n, id));
            assert(after.forest.leaves.contains_key(name));
        }
        assert(came_into_view(s, query@, after, acts, id));
    }
}

pub(super) proof fn lemma_windows_stay(
    s: StateView,
    name: Seq<char>,
    default_focus: Option<u64>,
    mid: StateView,
    r: Result<Seq<ActionView>, Seq<char>>,
)
    requires
        brought_up(s, name, default_focus, mid, r),
    ensures
        mid.windows == s.windows,
        mid.mouse_follows_focus == s.mouse_follows_focus,
        mid.desk.active.contains_key(mid.desk.focused) || mid == s,
{
    if !shown(s.desk.active, name) && s.forest.leaves.contains_key(name) {
        if lookup(s.desk.active, s.desk.focused) != Some(name) {
            let swap = choose|swap: Option<u32>|
                shows_elsewhere(s.desk.active, name, s.desk.focused, swap) && r is Ok && (
                    mid,
                    r->Ok_0,
                ) == #[trigger] switch_done(s, name, swap, default_focus);
            lemma_switch_desk(s, name, swap, default_focus);
        }
    }
}

/// The window with the least id of those that have a text in their title or
/// bundle id came into view: a monitor shows its workspace and is the focused
/// one, the window has the focus of that workspace if it is in its tree, and it
/// is raised.
pub open spec fn came_into_view(
    s: StateView,
    query: Seq<char>,
    after: StateView,
    acts: Seq<ActionView>,
    id: u32,
) -> bool {
    &&& s.windows.contains_key(id)
    &&& named_by(s.windows[id], query)
    &&& forall|x: u32| #[trigger]
        s.windows.contains_key(x) && named_by(s.windows[x], query) ==> id <= x
    &&& active_name(after) == s.placements[id].workspace
    &&& acts.contains(ActionView::Raise { window: id, warp: s.mouse_follows_focus })
    &&& s.placements[id].kind.in_tree() && in_some_place(s.forest, s.placements[id].workspace, id)
        ==> {
        let name = s.placements[id].workspace;
        &&& after.forest.focus.contains_key(name)
        &&& stands_in(after.forest, name, after.forest.focus[name], id)
    }
}

/// A window is at some node of a workspace's tree.
pub open spec fn in_some_place(f: ForestView, name: Seq<char>, window: u32) -> bool {
    exists|node: u64| stands_in(f, name, node, window)
}

proof fn lemma_leaf_at(s: Seq<Leaf>, window: u32, from: int)
    requires
        from >= 0,
    ensures
        leaf_from(s, window, from) < s.len() ==> leaf_from(s, window, from) >= 0 && s[leaf_from(
            s,
            window,
            from,
        )].window == window,
        leaf_from(s, window, from) >= s.len() ==> forall|i: int|
            from <= i < s.len() ==> (#[trigger] s[i]).window != window,
    decreases s.len() - from,
{
    if from < s.len() && s[from].window != window {
        lemma_leaf_at(s, window, from + 1);
    }
}

/// A window that has a node is found at it.
pub proof fn law_node_of_a_window(f: ForestView, name: Seq<char>, window: u32)
    ensures
        in_some_place(f, name, window) <==> node_of(f, name, window) is Some,
        node_of(f, name, window) is Some ==> stands_in(
            f,
            name,
            node_of(f, name, window)->0,
            window,
        ),
{
    if f.leaves.contains_key(name) {
        let s = f.leaves[name];
        lemma_leaf_at(s, window, 0);
        let i = leaf_from(s, window, 0);
        if i < s.len() {
            assert(s[i] == (Leaf { node: s[i].node, window }));
            assert(stands_in(f, name, s[i].node, window));
        }
        if in_some_place(f, name, window) {
            let node = choose|node: u64| stands_in(f, name, node, window);
            let k = s.index_of(Leaf { node, window });
            assert(s[k].window == window);
        }
    }
}

/// Only what no monitor shows any more is parked, and nothing is parked before
/// what comes into view is laid out and raised. What floats goes before what is
/// tiled.
pub open spec fn parked_last(after: StateView, acts: Seq<ActionView>) -> bool {
    &&& forall|name: Seq<char>|
        (acts.contains(ActionView::ParkTiled(name)) || acts.contains(ActionView::ParkFloating(name)))
            ==> !#[trigger] shown(after.desk.active, name)
    &&& forall|i: int, j: int|
        0 <= i < acts.len() && 0 <= j < acts.len() && (#[trigger] acts[i] is ParkTiled) && (
        #[trigger] acts[j] is Relayout || acts[j] is RepositionFloating || acts[j] is Raise || acts[j]
            is ParkFloating) ==> j < i
    &&& forall|i: int, j: int|
        0 <= i < acts.len() && 0 <= j < acts.len() && (#[trigger] acts[i] is ParkFloating) && (
        #[trigger] acts[j] is Relayout || acts[j] is RepositionFloating || acts[j] is Raise) ==> j < i
}

/// A switch parks what it hides and nothing else, and only after what comes into
/// view is there, so that the screen is never empty.
pub proof fn law_switching_parks_last(
    s: StateView,
    name: String,
    a: TreeAnswer,
    p: Permissions,
    after: StateView,
    r: Response,
    acts: Seq<ActionView>,
)
    requires
        dispatched(s, Command::WorkspaceSwitch(name), a, p, after, r, acts),
        crate::desk::exclusive(s.desk.active),
    ensures
        parked_last(after, acts),
{
    let res = choose|res: Result<Seq<ActionView>, Seq<char>>| #[trigger]
        switch_outcome(s, name@, a.found, after, res) && replied(res, r, acts);
    if s.forest.leaves.contains_key(name@) && lookup(s.desk.active, s.desk.focused) != Some(
        name@,
    ) {
        let f = s.desk.focused;
        let swap = choose|swap: Option<u32>|
            shows_elsewhere(s.desk.active, name@, f, swap) && res is Ok && (after, res->Ok_0)
                == #[trigger] switch_done(s, name@, swap, a.found);
        lemma_switch_desk(s, name@, swap, a.found);
        let outgoing = lookup(s.desk.active, f);
        assert forall|n: Seq<char>|
            (acts.contains(ActionView::ParkTiled(n)) || acts.contains(ActionView::ParkFloating(n))) implies !#[trigger] shown(
            after.desk.active,
            n,
        ) by {
            if acts.contains(ActionView::ParkTiled(n)) {
                let k = acts.index_of(ActionView::ParkTiled(n));
                assert(acts[k] == ActionView::ParkTiled(n));
            } else {
                let k = acts.index_of(ActionView::ParkFloating(n));
                assert(acts[k] == ActionView::ParkFloating(n));
            }
            assert(swap is None && outgoing == Some(n));
            if shown(after.desk.active, n) {
                let m = choose|m: u32| #[trigger]
                    after.desk.active.contains_key(m) && after.desk.active[m] == n;
                assert(s.desk.active.contains_key(f));
                assert(m != f ==> s.desk.active.contains_key(m));
            }
        }
    }
}

proof fn lemma_renames_move(
    active: Map<u32, Seq<char>>,
    focused: u32,
    renamed: Seq<(u32, u32)>,
    n: int,
)
    requires
        0 <= n <= renamed.len(),
        forall|k: int|
            0 <= k < renamed.len() ==> !active.contains_key((#[trigger] renamed[k]).1),
        forall|k: int, l: int|
            0 <= k < renamed.len() && 0 <= l < renamed.len() ==> (#[trigger] renamed[k]).0 != (
            #[trigger] renamed[l]).1,
        forall|k: int, l: int|
            0 <= k < l < renamed.len() ==> (#[trigger] renamed[k]).0 != (#[trigger] renamed[l]).0
                && renamed[k].1 != renamed[l].1,
    ensures
        ({
            let (a, f) = after_renames(active, focused, renamed.take(n));
            &&& forall|m: u32|
                active.contains_key(m) && (forall|k: int| 0 <= k < n ==> (#[trigger] renamed[k]).0 != m)
                    ==> #[trigger] a.contains_key(m) && a[m] == active[m]
            &&& forall|k: int|
                0 <= k < n ==> lookup(a, (#[trigger] renamed[k]).1) == lookup(active, renamed[k].0)
            &&& forall|k: int| 0 <= k < n && (#[trigger] renamed[k]).0 == focused ==> f
                == renamed[k].1
            &&& (forall|k: int| 0 <= k < n ==> (#[trigger] renamed[k]).0 != focused) ==> f == focused
            &&& forall|m: u32| #[trigger]
                a.contains_key(m) ==> active.contains_key(m) || exists|k: int|
                    0 <= k < n && (#[trigger] renamed[k]).1 == m
            &&& forall|k: int| 0 <= k < n ==> !a.contains_key((#[trigger] renamed[k]).0)
            &&& forall|k: int|
                n <= k < renamed.len() ==> lookup(a, (#[trigger] renamed[k]).0) == lookup(
                    active,
                    renamed[k].0,
                )
        }),
    decreases n,
{
    if n == 0 {
        assert(renamed.take(0) =~= Seq::empty());
    } else {
        lemma_renames_move(active, focused, renamed, n - 1);
        assert(renamed.take(n).drop_last() =~= renamed.take(n - 1));
        assert(renamed.take(n).last() == renamed[n - 1]);
        let (a, f) = after_renames(active, focused, renamed.take(n - 1));
        let (b, g) = after_renames(active, focused, renamed.take(n));
        let (old_id, new_id) = renamed[n - 1];
        assert(lookup(a, renamed[n - 1].0) == lookup(active, old_id));
        assert forall|k: int| 0 <= k < n implies lookup(b, (#[trigger] renamed[k]).1) == lookup(
            active,
            renamed[k].0,
        ) by {
            if k == n - 1 {
                if !active.contains_key(old_id) && a.contains_key(new_id) {
                    let j = choose|j: int| 0 <= j < n - 1 && (#[trigger] renamed[j]).1 == new_id;
                    assert(renamed[j].1 != renamed[n - 1].1);
                }
            } else {
                assert(renamed[k].1 != renamed[n - 1].1);
                assert(renamed[n - 1].0 != renamed[k].1);
            }
        }
        assert forall|m: u32|
            active.contains_key(m) && (forall|k: int| 0 <= k < n ==> (#[trigger] renamed[k]).0 != m) implies #[trigger] b.contains_key(
            m,
        ) && b[m] == active[m] by {
            assert(renamed[n - 1].0 != m);
            assert(!active.contains_key(renamed[n - 1].1));
            assert(a.contains_key(m));
        }
        assert forall|k: int| 0 <= k < n implies !b.contains_key((#[trigger] renamed[k]).0) by {
            assert(renamed[k].0 != renamed[n - 1].1);
            if k < n - 1 {
                assert(!a.contains_key(renamed[k].0));
            }
        }
        assert forall|k: int| n <= k < renamed.len() implies lookup(b, (#[trigger] renamed[k]).0)
            == lookup(active, renamed[k].0) by {
            assert(renamed[n - 1].0 != renamed[k].0);
            assert(renamed[k].0 != renamed[n - 1].1);
        }
        assert forall|m: u32| #[trigger] b.contains_key(m) implies active.contains_key(m)
            || exists|k: int| 0 <= k < n && (#[trigger] renamed[k]).1 == m by {
            if m == new_id {
                assert(renamed[n - 1].1 == m);
            } else {
                assert(a.contains_key(m));
            }
        }
        assert forall|k: int| 0 <= k < n && (#[trigger] renamed[k]).0 == focused implies g
            == renamed[k].1 by {
            if k < n - 1 {
                assert(renamed[n - 1].0 != renamed[k].1);
            }
        }
    }
}

/// When displays change, one that stays shows what it showed, one that is called
/// otherwise now does so under its new id, and the focus goes with it. A focused
/// one that is gone leaves the focus to the first that is connected. This holds
/// of what `match_monitors` tells apart, as long as only displays that were
/// connected show something.
pub proof fn law_displays_keep_showing_what_they_showed(
    s: StateView,
    monitors: Seq<Monitor>,
    diff: &MonitorDiff,
    after: StateView,
    acts: Seq<ActionView>,
    id: u32,
    k: int,
)
    requires
        displays_outcome(s, monitors, diff, after, acts),
        told_apart(s.desk.monitors, monitors, diff),
        monitors.len() > 0,
        forall|m: u32| #[trigger] s.desk.active.contains_key(m) ==> has_id(s.desk.monitors, m),
        has_id(s.desk.monitors, s.desk.focused),
    ensures
        after.desk.monitors == monitors,
        has_id(s.desk.monitors, id) && has_id(monitors, id) ==> lookup(after.desk.active, id)
            == lookup(s.desk.active, id),
        0 <= k < diff.renamed@.len() ==> lookup(after.desk.active, diff.renamed@[k].1) == lookup(
            s.desk.active,
            diff.renamed@[k].0,
        ),
        has_id(monitors, s.desk.focused) ==> after.desk.focused == s.desk.focused,
        0 <= k < diff.renamed@.len() && diff.renamed@[k].0 == s.desk.focused ==> after.desk.focused
            == diff.renamed@[k].1,
        diff.disconnected@.contains(s.desk.focused) ==> after.desk.focused == monitors[0].id,
        !has_id(monitors, id) ==> !after.desk.active.contains_key(id),
{
    let renamed = diff.renamed@;
    let gone = diff.disconnected@;
    let active = s.desk.active;
    let old_ms = s.desk.monitors;
    assert forall|j: int| 0 <= j < renamed.len() implies !active.contains_key(
        (#[trigger] renamed[j]).1,
    ) && has_id(monitors, renamed[j].1) && has_id(old_ms, renamed[j].0) && !has_id(
        monitors,
        renamed[j].0,
    ) && !has_id(old_ms, renamed[j].1) by {
        assert(one_display(old_ms, monitors, renamed[j]));
    }
    assert forall|x: int, y: int| 0 <= x < renamed.len() && 0 <= y < renamed.len() implies (
    #[trigger] renamed[x]).0 != (#[trigger] renamed[y]).1 by {
        assert(!has_id(monitors, renamed[x].0));
    }
    lemma_renames_move(active, s.desk.focused, renamed, renamed.len() as int);
    assert(renamed.take(renamed.len() as int) =~= renamed);
    let (a, f) = after_renames(active, s.desk.focused, renamed);
    let mid = rearranged(s, monitors, diff);
    let b = mid.desk.active;
    assert forall|m: u32| #[trigger] b.contains_key(m) == (a.contains_key(m) && !gone.contains(m)) by {}
    let names = choose|names: Seq<Seq<char>>| #[trigger]
        all_fresh(mid, diff.connected@, names) && after == all_given(mid, diff.connected@, names);
    lemma_given_only(mid, diff.connected@, names);
    if has_id(old_ms, id) && has_id(monitors, id) {
        assert forall|j: int| 0 <= j < renamed.len() implies (#[trigger] renamed[j]).0 != id
            && renamed[j].1 != id by {
            assert(!has_id(monitors, renamed[j].0));
        }
        assert(!gone.contains(id));
        assert(!diff.connected@.contains(id));
        if active.contains_key(id) {
            assert(a.contains_key(id));
        }
        assert(lookup(b, id) == lookup(active, id));
    }
    if 0 <= k < renamed.len() {
        let to = renamed[k].1;
        assert(lookup(a, to) == lookup(active, renamed[k].0));
        assert(!gone.contains(to));
        assert(renamed_to(renamed, to));
        assert(!diff.connected@.contains(to));
    }
    if !has_id(monitors, id) {
        assert(!diff.connected@.contains(id));
        if b.contains_key(id) {
            assert(a.contains_key(id));
            if active.contains_key(id) {
                assert(has_id(old_ms, id));
                if !renamed_from(renamed, id) {
                    assert(gone.contains(id));
                } else {
                    let j = choose|j: int| 0 <= j < renamed.len() && (#[trigger] renamed[j]).0 == id;
                    assert(!a.contains_key(renamed[j].0));
                }
            } else {
                let j = choose|j: int| 0 <= j < renamed.len() && (#[trigger] renamed[j]).1 == id;
                assert(has_id(monitors, renamed[j].1));
            }
        }
    }
    if has_id(monitors, s.desk.focused) {
        assert forall|j: int| 0 <= j < renamed.len() implies (#[trigger] renamed[j]).0
            != s.desk.focused by {
            assert(!has_id(monitors, renamed[j].0));
        }
        assert(connected(monitors, s.desk.focused));
    }
    if 0 <= k < renamed.len() && renamed[k].0 == s.desk.focused {
        assert(f == renamed[k].1);
        assert(has_id(monitors, renamed[k].1));
        assert(connected(monitors, f));
    }
    if gone.contains(s.desk.focused) {
        assert forall|j: int| 0 <= j < renamed.len() implies (#[trigger] renamed[j]).0
            != s.desk.focused by {
            if renamed[j].0 == s.desk.focused {
                assert(renamed_from(renamed, s.desk.focused));
            }
        }
        assert(f == s.desk.focused);
        assert(!has_id(monitors, f));
        assert(!connected(monitors, f)) by {
            if connected(monitors, f) {
                let i = choose|i: int| 0 <= i < monitors.len() && (#[trigger] monitors[i]).id == f;
                assert(monitors[i].id == f);
            }
        }
    }
}

proof fn lemma_given_only(s: StateView, fresh: Seq<u32>, names: Seq<Seq<char>>)
    ensures
        forall|m: u32|
            !fresh.contains(m) ==> #[trigger] lookup(all_given(s, fresh, names).desk.active, m)
                == lookup(s.desk.active, m),
        all_given(s, fresh, names).desk == (crate::desk::DeskView {
            active: all_given(s, fresh, names).desk.active,
            ..s.desk
        }),
    decreases fresh.len(),
{
    if fresh.len() > 0 && names.len() == fresh.len() {
        let init = fresh.drop_last();
        lemma_given_only(s, init, names.drop_last());
        assert(fresh[fresh.len() - 1] == fresh.last());
        assert forall|m: u32| !fresh.contains(m) implies #[trigger] lookup(
            all_given(s, fresh, names).desk.active,
            m,
        ) == lookup(s.desk.active, m) by {
            if init.contains(m) {
                let i = init.index_of(m);
                assert(fresh[i] == m);
            }
            assert(lookup(all_given(s, init, names.drop_last()).desk.active, m) == lookup(
                s.desk.active,
                m,
            ));
        }
    }
}

}
