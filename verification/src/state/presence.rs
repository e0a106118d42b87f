//! What a monitor shows is a workspace that exists.

use vstd::prelude::*;
use super::bringup::{
    attended, brought_up, focus_given, focus_synced, in_front, revealed, summon_outcome,
    summoned_by,
};
use super::scan::{
    admitted, first_placement, first_workspace, forgotten_all, in_its_place, noticed, put_off,
    ScannedView, Suggestion, TreeReply,
};
use super::setup::{at_startup, configured, law_least_name_is_least, startup_workspace};
use super::switching::{
    all_fresh, all_given, back_outcome, carried, carry_outcome, displays_outcome, movable,
    move_done, move_outcome, named_or_active, rearranged, switch_done, switch_outcome,
};
use super::{default_workspace, is_new, raised, ActionView, StateView};
use crate::config::ConfigView;
use crate::desk::{
    after_disconnects, after_renames, lookup, resolved_target, shown, shows, shows_elsewhere,
    Monitor, MonitorDiff,
};
use crate::dispatch::{dispatched, replied, Permissions, TreeAnswer};
use crate::forest::{ForestView, Leaf};
use crate::ipc::{Command, MonitorTarget, Response};
use crate::text::opt_text;

verus! {

/// Every workspace that a monitor shows exists.
pub open spec fn shown_exists(s: StateView) -> bool {
    forall|id: u32| #[trigger]
        s.desk.active.contains_key(id) ==> s.forest.leaves.contains_key(s.desk.active[id])
}

/// Every workspace of a forest is in another one too.
pub open spec fn all_kept(f: ForestView, g: ForestView) -> bool {
    forall|name: Seq<char>| #[trigger] f.leaves.contains_key(name) ==> g.leaves.contains_key(name)
}

/// A new state shows a workspace that exists.
pub proof fn law_new_state_shows_what_exists(s: StateView)
    requires
        s.forest.leaves == Map::<Seq<char>, Seq<Leaf>>::empty().insert(
            default_workspace(),
            Seq::empty(),
        ),
        s.desk.active == Map::<u32, Seq<char>>::empty().insert(s.desk.focused, default_workspace()),
    ensures
        shown_exists(s),
{
}

proof fn lemma_switch_present(
    s: StateView,
    name: Seq<char>,
    default_focus: Option<u64>,
    after: StateView,
    r: Result<Seq<ActionView>, Seq<char>>,
)
    requires
        switch_outcome(s, name, default_focus, after, r),
        shown_exists(s),
    ensures
        shown_exists(after),
        all_kept(s.forest, after.forest),
{
    if s.forest.leaves.contains_key(name) && lookup(s.desk.active, s.desk.focused) != Some(name) {
        let swap = choose|swap: Option<u32>|
            shows_elsewhere(s.desk.active, name, s.desk.focused, swap) && r is Ok && (
                after,
                r->Ok_0,
            ) == #[trigger] switch_done(s, name, swap, default_focus);
        assert(all_kept(s.forest, after.forest));
        assert forall|id: u32| #[trigger]
            after.desk.active.contains_key(id) implies after.forest.leaves.contains_key(
            after.desk.active[id],
        ) by {
            if id != s.desk.focused && swap != Some(id) {
                assert(s.desk.active.contains_key(id));
            }
            if swap is Some && swap == Some(id) && lookup(s.desk.active, s.desk.focused) is Some {
                assert(s.desk.active.contains_key(s.desk.focused));
            }
        }
    }
}

proof fn lemma_move_present(
    s: StateView,
    name: Seq<char>,
    target: MonitorTarget,
    after: StateView,
    r: Result<Seq<ActionView>, Seq<char>>,
)
    requires
        move_outcome(s, name, target, after, r),
        shown_exists(s),
    ensures
        shown_exists(after),
{
    if s.forest.leaves.contains_key(name) {
        let to = resolved_target(s.desk, target);
        if to is Ok && after != s {
            let from = choose|from: Option<u32>|
                shows(s.desk.active, name, from) && from != Some(to->Ok_0) && r is Ok && (
                    after,
                    r->Ok_0,
                ) == #[trigger] move_done(s, name, to->Ok_0, from);
            assert forall|id: u32| #[trigger]
                after.desk.active.contains_key(id) implies after.forest.leaves.contains_key(
                after.desk.active[id],
            ) by {
                if id != to->Ok_0 && from != Some(id) {
                    assert(s.desk.active.contains_key(id));
                }
                if from == Some(id) && lookup(s.desk.active, to->Ok_0) is Some {
                    assert(s.desk.active.contains_key(to->Ok_0));
                }
            }
        }
    }
}

proof fn lemma_brought_up_present(
    s: StateView,
    name: Seq<char>,
    default_focus: Option<u64>,
    mid: StateView,
    r: Result<Seq<ActionView>, Seq<char>>,
)
    requires
        brought_up(s, name, default_focus, mid, r),
        shown_exists(s),
    ensures
        shown_exists(mid),
{
    if !shown(s.desk.active, name) {
        lemma_switch_present(s, name, default_focus, mid, r);
    }
}

proof fn lemma_focus_given_present(s: StateView, id: u32)
    requires
        shown_exists(s),
    ensures
        shown_exists(focus_given(s, id).0),
        shown_exists(attended(s, id).0),
{
    let t = focus_given(s, id).0;
    assert(all_kept(s.forest, t.forest));
    assert(t.desk == s.desk);
}

/// Whatever command is carried out, every workspace that a monitor shows
/// exists.
pub proof fn law_commands_show_what_exists(
    s: StateView,
    c: Command,
    a: TreeAnswer,
    p: Permissions,
    after: StateView,
    r: Response,
    acts: Seq<ActionView>,
)
    requires
        dispatched(s, c, a, p, after, r, acts),
        shown_exists(s),
    ensures
        shown_exists(after),
{
    match c {
        Command::WorkspaceSwitch(name) => {
            let res = choose|res: Result<Seq<ActionView>, Seq<char>>| #[trigger]
                switch_outcome(s, name@, a.found, after, res) && replied(res, r, acts);
            lemma_switch_present(s, name@, a.found, after, res);
        },
        Command::WorkspaceBack => {
            let res = choose|res: Result<Seq<ActionView>, Seq<char>>| #[trigger]
                back_outcome(s, a.found, after, res) && replied(res, r, acts);
            if s.desk.previous is Some {
                lemma_switch_present(s, s.desk.previous->0, a.found, after, res);
            }
        },
        Command::MoveNodeToWorkspace(name) => {
            let res = choose|res: Result<Seq<ActionView>, Seq<char>>| #[trigger]
                carry_outcome(s, name@, a.suggested, a.node, after, res) && replied(res, r, acts);
            if let Ok(Some(id)) = movable(s, name@) {
                let mid = carried(s, name@, id, a.suggested, a.node);
                assert(all_kept(s.forest, mid.forest));
                assert(shown_exists(mid));
                lemma_switch_present(mid, name@, None, after, res);
            }
        },
        Command::Summon(query) => {
            let res = choose|res: Result<Seq<ActionView>, Seq<char>>| #[trigger]
                summon_outcome(s, query@, a.found, after, res) && replied(res, r, acts);
            if let Some(id) = summoned_by(s, query@) {
                if s.placements.contains_key(id) {
                    let w = s.placements[id];
                    let (mid, up) = choose|
                        mid: StateView,
                        up: Result<Seq<ActionView>, Seq<char>>,
                    | #[trigger]
                        brought_up(s, w.workspace, a.found, mid, up) && (match up {
                            Err(e) => res == up && after == mid,
                            Ok(done) => res == Ok::<Seq<ActionView>, Seq<char>>(
                                done + attended(mid, id).1,
                            ) && after == attended(mid, id).0,
                        });
                    lemma_brought_up_present(s, w.workspace, a.found, mid, up);
                    lemma_focus_given_present(mid, id);
                }
            }
        },
        Command::MoveWorkspaceToMonitor { workspace, target } => {
            let name = named_or_active(s, opt_text(workspace));
            let res = choose|res: Result<Seq<ActionView>, Seq<char>>| #[trigger]
                move_outcome(s, name, target, after, res) && replied(res, r, acts);
            lemma_move_present(s, name, target, after, res);
        },
        _ => {
            assert(all_kept(s.forest, after.forest));
            assert(after.desk.active == s.desk.active);
        },
    }
}

/// Whatever window a scan finds, every workspace that a monitor shows exists.
pub proof fn law_scanning_shows_what_exists(
    s: StateView,
    id: u32,
    w: ScannedView,
    active: Seq<char>,
    now: u64,
    reply: TreeReply,
    after: StateView,
    acts: Seq<ActionView>,
)
    requires
        admitted(s, id, w, active, now, reply, after, acts),
        shown_exists(s),
    ensures
        shown_exists(after),
{
    let seen = noticed(s, id, w);
    if s.placements.contains_key(id) {
        assert(all_kept(s.forest, after.forest));
        assert(after.desk == s.desk);
    } else if !put_off(s, id, w) {
        let kind = first_placement(s, w);
        let name = first_workspace(s, w.window, active);
        let placed = StateView {
            placements: seen.placements.insert(
                id,
                super::PlacementView { workspace: name, kind },
            ),
            ..seen
        };
        let rooted = in_its_place(placed, id, kind, name, reply.node);
        assert(all_kept(s.forest, rooted.forest));
        assert(shown_exists(rooted));
        if after != rooted {
            let r = choose|r: Result<Seq<ActionView>, Seq<char>>| #[trigger]
                switch_outcome(rooted, name, reply.default_focus, after, r);
            lemma_switch_present(rooted, name, reply.default_focus, after, r);
        }
    }
}

/// Whatever windows are forgotten, every workspace that a monitor shows exists.
pub proof fn law_forgetting_shows_what_exists(
    s: StateView,
    ids: Seq<u32>,
    suggestions: Seq<Suggestion>,
)
    requires
        shown_exists(s),
    ensures
        shown_exists(forgotten_all(s, ids, suggestions).0),
    decreases ids.len(),
{
    if ids.len() > 0 {
        law_forgetting_shows_what_exists(s, ids.drop_last(), suggestions);
        let mid = forgotten_all(s, ids.drop_last(), suggestions).0;
        let end = forgotten_all(s, ids, suggestions).0;
        assert(all_kept(mid.forest, end.forest));
        assert(end.desk == mid.desk);
    }
}

/// Whatever is brought into view, every workspace that a monitor shows exists.
pub proof fn law_revealing_shows_what_exists(
    s: StateView,
    pid: i32,
    id: u32,
    previous_bundle: Option<Seq<char>>,
    allow_unchanged_pid: bool,
    now: u64,
    default_focus: Option<u64>,
    after: StateView,
    acts: Seq<ActionView>,
)
    requires
        revealed(
            s,
            pid,
            id,
            previous_bundle,
            allow_unchanged_pid,
            now,
            default_focus,
            after,
            acts,
        ),
        shown_exists(s),
    ensures
        shown_exists(after),
{
    let front = in_front(s, pid);
    if after != front && s.placements.contains_key(id) {
        let p = s.placements[id];
        let (mid, up) = choose|mid: StateView, up: Result<Seq<ActionView>, Seq<char>>| #[trigger]
            brought_up(front, p.workspace, default_focus, mid, up) && up is Ok && ({
                let (focused, record) = focus_given(mid, id);
                let moved = !shown(s.desk.active, p.workspace) || mid.desk.focused
                    != s.desk.focused;
                let (end, raise) = if s.last_frontmost_pid != Some(pid) || moved {
                    raised(focused, id)
                } else {
                    (focused, Seq::empty())
                };
                after == end && acts == up->Ok_0 + record + raise
            });
        lemma_brought_up_present(front, p.workspace, default_focus, mid, up);
        lemma_focus_given_present(mid, id);
    }
}

/// Wherever the system's focus goes, every workspace that a monitor shows
/// exists.
pub proof fn law_focus_sync_shows_what_exists(s: StateView, id: u32)
    requires
        shown_exists(s),
    ensures
        shown_exists(focus_synced(s, id).0),
{
}

proof fn lemma_renames_present(
    active: Map<u32, Seq<char>>,
    focused: u32,
    renamed: Seq<(u32, u32)>,
)
    ensures
        forall|id: u32| #[trigger]
            after_renames(active, focused, renamed).0.contains_key(id) ==> shown(
                active,
                after_renames(active, focused, renamed).0[id],
            ),
    decreases renamed.len(),
{
    if renamed.len() == 0 {
        assert forall|id: u32| #[trigger] active.contains_key(id) implies shown(
            active,
            active[id],
        ) by {
        }
    } else {
        lemma_renames_present(active, focused, renamed.drop_last());
        let a = after_renames(active, focused, renamed.drop_last()).0;
        let b = after_renames(active, focused, renamed).0;
        let (old_id, new_id) = renamed.last();
        assert forall|id: u32| #[trigger] b.contains_key(id) implies shown(active, b[id]) by {
            if id == new_id && a.contains_key(old_id) {
                assert(shown(active, a[old_id]));
            } else {
                assert(a.contains_key(id));
            }
        }
    }
}

proof fn lemma_given_present(s: StateView, fresh: Seq<u32>, names: Seq<Seq<char>>)
    requires
        shown_exists(s),
    ensures
        shown_exists(all_given(s, fresh, names)),
    decreases fresh.len(),
{
    if fresh.len() > 0 && names.len() == fresh.len() {
        lemma_given_present(s, fresh.drop_last(), names.drop_last());
        let mid = all_given(s, fresh.drop_last(), names.drop_last());
        let end = all_given(s, fresh, names);
        assert(all_kept(mid.forest, end.forest));
    }
}

/// However the displays change, every workspace that a monitor shows exists.
pub proof fn law_display_changes_show_what_exists(
    s: StateView,
    monitors: Seq<Monitor>,
    diff: &MonitorDiff,
    after: StateView,
    acts: Seq<ActionView>,
)
    requires
        displays_outcome(s, monitors, diff, after, acts),
        shown_exists(s),
    ensures
        shown_exists(after),
{
    if monitors.len() > 0 {
        let mid = rearranged(s, monitors, diff);
        let names = choose|names: Seq<Seq<char>>| #[trigger]
            all_fresh(mid, diff.connected@, names) && after == all_given(mid, diff.connected@, names);
        let a = after_renames(s.desk.active, s.desk.focused, diff.renamed@).0;
        lemma_renames_present(s.desk.active, s.desk.focused, diff.renamed@);
        assert forall|id: u32| #[trigger]
            mid.desk.active.contains_key(id) implies mid.forest.leaves.contains_key(
            mid.desk.active[id],
        ) by {
            assert(after_disconnects(a, diff.disconnected@).contains_key(id));
            assert(a.contains_key(id));
            let m = choose|m: u32| #[trigger]
                s.desk.active.contains_key(m) && s.desk.active[m] == a[id];
            assert(s.desk.active.contains_key(m));
        }
        lemma_given_present(mid, diff.connected@, names);
    }
}

/// Whatever is configured, every workspace that a monitor shows exists.
pub proof fn law_configuring_shows_what_exists(s: StateView, c: ConfigView)
    requires
        shown_exists(s),
    ensures
        shown_exists(configured(s, c)),
{
    let end = configured(s, c);
    super::setup::lemma_with_declared(s.forest, c.workspaces);
    if at_startup(s) {
        if c.workspaces.len() > 0 {
            law_least_name_is_least(c.workspaces, 0);
        }
        assert forall|id: u32| #[trigger]
            end.desk.active.contains_key(id) implies end.forest.leaves.contains_key(
            end.desk.active[id],
        ) by {
            let active = s.desk.active;
            if startup_workspace(c) is None {
                assert(active.contains_key(id));
            } else {
                assert(id != s.desk.focused ==> active.contains_key(id));
                assert(id != s.desk.focused && active[id] == startup_workspace(c)->0
                    ==> active.contains_key(s.desk.focused));
            }
        }
    }
}

/// A new state focuses the first monitor, which shows the workspace `main`; no
/// other workspace exists, no other monitor shows anything, no window is known,
/// and keys mean nothing yet.
pub proof fn law_new_state_shows_the_default_workspace(s: StateView, monitors: Seq<Monitor>, m: u32)
    requires
        is_new(s, monitors),
    ensures
        monitors.len() > 0 ==> s.desk.focused == monitors[0].id,
        s.desk.monitors == monitors,
        s.desk.active.contains_key(m) <==> m == s.desk.focused,
        s.desk.active[s.desk.focused] == "main"@,
        forall|name: Seq<char>| #[trigger] s.forest.leaves.contains_key(name) <==> name == "main"@,
        s.forest.leaves["main"@].len() == 0,
        forall|id: u32| !#[trigger] s.windows.contains_key(id),
        forall|id: u32| !#[trigger] s.placements.contains_key(id),
        s.modes.current == "main"@ && s.modes.blocks.len() == 0,
        s.desk.previous is None && s.last_frontmost_pid is None && !s.mouse_button_down,
        super::setup::at_startup(s),
        shown_exists(s),
        super::laws::housed(s),
        crate::desk::exclusive(s.desk.active),
{
    super::laws::law_new_state_is_sound(s);
}

}
