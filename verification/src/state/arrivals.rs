//! What becomes of windows that come, change and go.

use vstd::prelude::*;
use super::effects::stands_in;
use super::laws::{
    housed, law_scanning_keeps_windows_housed, lemma_switch, lemma_switch_desk, placed_on, seated,
};
use super::scan::{
    admitted, all_gone, all_of, app_removed, first_placement, first_workspace, forgotten,
    forgotten_all, in_its_place, launched, launches_finalized, noticed, planned, put_off,
    removals_finalized, scan_begun, scan_ended, suggestion_from, woken, ScanPlan, ScannedView,
    Suggestion, TreeReply,
};
use super::switching::{switch_done, switch_outcome};
use super::{active_name, ActionView, PlacementView, StateView, WindowView};
use crate::config::{FloatingRuleView, WorkspaceRuleView};
use crate::desk::{lookup, shows_elsewhere};
use crate::forest::{leaves_of, node_of, window_at};
use crate::grace::waking;
use crate::placement::{FloatGeometry, PlacementKind, Restore};
use crate::rules::{
    fits, law_first_workspace_rule_holds, law_windows_are_placed_by_the_first_fitting_rule,
};

verus! {

/// The first rule for a window, at place `k`, or none where `k` is the length.
pub open spec fn first_fitting(rules: Seq<FloatingRuleView>, w: WindowView, k: int) -> bool {
    &&& 0 <= k <= rules.len()
    &&& w.bundle_id is None ==> k == rules.len()
    &&& k < rules.len() ==> fits(rules[k], w.bundle_id->0, w.title)
    &&& w.bundle_id is Some ==> forall|j: int|
        0 <= j < k ==> !fits(#[trigger] rules[j], w.bundle_id->0, w.title)
}

/// The first rule for the workspace of a window, at place `k`, or none where `k`
/// is the length.
pub open spec fn first_naming(rules: Seq<WorkspaceRuleView>, w: WindowView, k: int) -> bool {
    &&& 0 <= k <= rules.len()
    &&& w.bundle_id is None ==> k == rules.len()
    &&& k < rules.len() ==> w.bundle_id == Some(rules[k].app_id)
    &&& forall|j: int| 0 <= j < k ==> w.bundle_id != Some((#[trigger] rules[j]).app_id)
}

/// A window is the system's own, or one of Finder's that no rule may touch.
pub open spec fn untouchable(w: WindowView) -> bool {
    ||| w.bundle_id == Some("com.apple.dock"@)
    ||| w.bundle_id == Some("com.apple.screencaptureui"@)
    ||| w.bundle_id == Some("com.apple.SecurityAgent"@)
    ||| w.bundle_id == Some("com.apple.Spotlight"@)
    ||| w.bundle_id == Some("com.apple.notificationcenterui"@)
    ||| w.bundle_id == Some("com.apple.finder"@) && (w.title == "Copy"@ || w.title
        == "Connect to Server"@)
}

/// A new window comes to the workspace that the first rule for its application
/// names, else to the one that was active. It floats, is tiled or is left alone
/// as the first fitting rule says, else a dialog floats, a standard window is
/// tiled, and anything else is left alone; the system's own windows are left
/// alone whatever the rules say. A window in a special state stays in it, and is
/// treated so afterwards.
pub proof fn law_new_windows_come_where_they_belong(
    s: StateView,
    id: u32,
    w: ScannedView,
    active: Seq<char>,
    now: u64,
    reply: TreeReply,
    after: StateView,
    acts: Seq<ActionView>,
    k: int,
    n: int,
)
    requires
        admitted(s, id, w, active, now, reply, after, acts),
        !s.placements.contains_key(id),
        after.placements.contains_key(id),
        first_fitting(s.floating_rules, w.window, k),
        first_naming(s.workspace_rules, w.window, n),
    ensures
        after.placements[id].workspace == (if n < s.workspace_rules.len() {
            s.workspace_rules[n].workspace
        } else {
            active
        }),
        ({
            let ignored = untouchable(w.window) || (if k < s.floating_rules.len() {
                s.floating_rules[k].mode is Ignore
            } else {
                w.kind is Popup
            });
            let floats = !untouchable(w.window) && (if k < s.floating_rules.len() {
                s.floating_rules[k].mode is Float
            } else {
                w.kind is Dialog
            });
            let restore = if floats {
                Restore::Floating
            } else {
                Restore::Tiled
            };
            after.placements[id].kind == (if w.app_hidden {
                PlacementKind::HiddenApplication(restore)
            } else if w.minimized {
                PlacementKind::Minimized(restore)
            } else if w.window.fullscreen {
                PlacementKind::NativeFullscreen(restore)
            } else if ignored {
                PlacementKind::Popup
            } else if floats {
                PlacementKind::Floating { manual: None }
            } else {
                PlacementKind::Tiled
            })
        }),
{
    lemma_placed_as(s, id, w, active, now, reply, after, acts);
    if w.window.bundle_id is Some {
        let b = w.window.bundle_id->0;
        law_windows_are_placed_by_the_first_fitting_rule(s.floating_rules, b, w.window.title, k);
        assert forall|j: int| 0 <= j < n implies (#[trigger] s.workspace_rules[j]).app_id != b by {
            assert(w.window.bundle_id != Some(s.workspace_rules[j].app_id));
        }
        law_first_workspace_rule_holds(s.workspace_rules, b, n);
    }
}

proof fn lemma_placed_as(
    s: StateView,
    id: u32,
    w: ScannedView,
    active: Seq<char>,
    now: u64,
    reply: TreeReply,
    after: StateView,
    acts: Seq<ActionView>,
)
    requires
        admitted(s, id, w, active, now, reply, after, acts),
        !s.placements.contains_key(id),
        after.placements.contains_key(id),
    ensures
        !put_off(s, id, w),
        after.placements == s.placements.insert(
            id,
            PlacementView {
                workspace: first_workspace(s, w.window, active),
                kind: first_placement(s, w),
            },
        ),
        after.windows == s.windows.insert(id, w.window),
        after.grace == noticed(s, id, w).grace,
{
    let seen = noticed(s, id, w);
    let kind = first_placement(s, w);
    let name = first_workspace(s, w.window, active);
    let placed = StateView {
        placements: seen.placements.insert(id, PlacementView { workspace: name, kind }),
        ..seen
    };
    let rooted = in_its_place(placed, id, kind, name, reply.node);
    if after != rooted {
        let r = choose|r: Result<Seq<ActionView>, Seq<char>>| #[trigger]
            switch_outcome(rooted, name, reply.default_focus, after, r);
        lemma_switch(rooted, name, reply.default_focus, after, r);
    }
}

/// A new window that is tiled or floats is in the tree of its workspace, at the
/// node that the tree gave it, and in no other tree. Unless the system wakes up,
/// its workspace is shown on the focused monitor. A floating one is brought to
/// its first place, by itself or with all that its monitor shows.
pub proof fn law_new_windows_come_into_view(
    s: StateView,
    id: u32,
    w: ScannedView,
    active: Seq<char>,
    now: u64,
    reply: TreeReply,
    after: StateView,
    acts: Seq<ActionView>,
)
    requires
        admitted(s, id, w, active, now, reply, after, acts),
        housed(s),
        !s.placements.contains_key(id),
        after.placements.contains_key(id),
        after.placements[id].kind.in_tree(),
    ensures
        ({
            let name = after.placements[id].workspace;
            &&& stands_in(after.forest, name, reply.node, id)
            &&& forall|n: Seq<char>| #[trigger] seated(after.forest, n, id) ==> n == name
            &&& after.forest.focus.contains_key(name)
            &&& after.forest.focus[name] == (if s.forest.focus.contains_key(name) {
                s.forest.focus[name]
            } else {
                reply.node
            })
            &&& after.desk.focused == s.desk.focused
            &&& !waking(s.grace, now) ==> active_name(after) == name
            &&& !waking(s.grace, now) && after.placements[id].kind is Floating ==> acts.contains(
                ActionView::PlaceFloating(id),
            ) || acts.contains(ActionView::RepositionFloating(s.desk.focused))
        }),
{
    lemma_placed_as(s, id, w, active, now, reply, after, acts);
    law_scanning_keeps_windows_housed(s, id, w, active, now, reply, after, acts);
    let seen = noticed(s, id, w);
    let kind = first_placement(s, w);
    let name = first_workspace(s, w.window, active);
    let placed = StateView {
        placements: seen.placements.insert(id, PlacementView { workspace: name, kind }),
        ..seen
    };
    let rooted = in_its_place(placed, id, kind, name, reply.node);
    let all = rooted.forest.leaves[name];
    assert(all[all.len() - 1] == (crate::forest::Leaf { node: reply.node, window: id }));
    assert(stands_in(rooted.forest, name, reply.node, id));
    assert forall|n: Seq<char>| #[trigger] seated(after.forest, n, id) implies n == name by {
        assert(placed_on(after, n, id));
    }
    if name == active_name(placed) && !waking(s.grace, now) {
        if kind is Floating {
            assert(acts[0] == ActionView::PlaceFloating(id));
        }
    }
    if name != active_name(placed) && !waking(s.grace, now) {
        let r = choose|r: Result<Seq<ActionView>, Seq<char>>| #[trigger]
            switch_outcome(rooted, name, reply.default_focus, after, r) && acts == (
            Seq::<ActionView>::empty() + (match r {
                Ok(more) => more,
                Err(e) => Seq::empty(),
            }));
        lemma_switch(rooted, name, reply.default_focus, after, r);
        if lookup(rooted.desk.active, rooted.desk.focused) != Some(name) {
            let swap = choose|swap: Option<u32>|
                shows_elsewhere(rooted.desk.active, name, rooted.desk.focused, swap) && r is Ok && (
                    after,
                    r->Ok_0,
                ) == #[trigger] switch_done(rooted, name, swap, reply.default_focus);
            lemma_switch_desk(rooted, name, swap, reply.default_focus);
            assert(acts =~= r->Ok_0);
            assert(acts[1] == ActionView::RepositionFloating(s.desk.focused));
            assert(leaves_of(after.forest, name) == leaves_of(rooted.forest, name));
            assert(after.forest.leaves.contains_key(name));
        }
    }
}

/// A window that a scan finds is known as it was found, is not missing any more,
/// and nothing changes for the others. It has a place then, unless its
/// application is not known yet: then it is put off, three times at most.
pub proof fn law_found_windows_are_known(
    s: StateView,
    id: u32,
    w: ScannedView,
    active: Seq<char>,
    now: u64,
    reply: TreeReply,
    after: StateView,
    acts: Seq<ActionView>,
)
    requires
        admitted(s, id, w, active, now, reply, after, acts),
    ensures
        after.windows.contains_key(id) && after.windows[id] == w.window,
        after.windows.remove(id) == s.windows.remove(id),
        !after.grace.missing.contains_key(id),
        after.grace.missing == s.grace.missing.remove(id),
        after.grace.launches == s.grace.launches && after.grace.wake_until == s.grace.wake_until,
        s.placements.contains_key(id) || w.window.bundle_id is Some ==> after.placements.contains_key(
            id,
        ),
        !after.placements.contains_key(id) ==> {
            &&& acts.len() == 0
            &&& after.forest == s.forest && after.desk == s.desk
            &&& after.retries.contains_key(id)
            &&& after.retries[id] == (if s.retries.contains_key(id) {
                s.retries[id] + 1
            } else {
                1
            })
            &&& after.retries[id] <= 3
        },
        after.placements.contains_key(id) ==> !after.retries.contains_key(id),
        after.placements.contains_key(id) <==> s.placements.contains_key(id) || w.window.bundle_id
            is Some || (s.retries.contains_key(id) && s.retries[id] >= 3),
{
    let seen = noticed(s, id, w);
    if !s.placements.contains_key(id) && !put_off(s, id, w) {
        let kind = first_placement(s, w);
        let name = first_workspace(s, w.window, active);
        let placed = StateView {
            placements: seen.placements.insert(id, PlacementView { workspace: name, kind }),
            ..seen
        };
        let rooted = in_its_place(placed, id, kind, name, reply.node);
        if after != rooted {
            let r = choose|r: Result<Seq<ActionView>, Seq<char>>| #[trigger]
                switch_outcome(rooted, name, reply.default_focus, after, r);
            lemma_switch(rooted, name, reply.default_focus, after, r);
        }
        assert(after.windows == seen.windows);
        assert(after.placements == placed.placements);
    }
    assert(after.windows.remove(id) =~= s.windows.remove(id));
}

/// The user's own place of a floating window is kept from the first time that it
/// is found elsewhere, and is not changed by later scans.
pub proof fn law_users_place_is_kept(
    s: StateView,
    id: u32,
    w: ScannedView,
    active: Seq<char>,
    now: u64,
    reply: TreeReply,
    after: StateView,
    acts: Seq<ActionView>,
    manual: Option<FloatGeometry>,
)
    requires
        admitted(s, id, w, active, now, reply, after, acts),
        s.placements.contains_key(id),
        s.placements[id].kind == (PlacementKind::Floating { manual }),
        !w.app_hidden && !w.minimized && !w.window.fullscreen,
    ensures
        after.placements.contains_key(id),
        after.placements[id].kind == (PlacementKind::Floating {
            manual: if manual is Some {
                manual
            } else {
                w.moved_to
            },
        }),
{
}

/// A window that leaves a special state to float is brought to a place again,
/// and one that belongs where no monitor shows it is moved off the screen. None
/// other is.
pub proof fn law_known_windows_are_put_in_place(
    s: StateView,
    id: u32,
    w: ScannedView,
    active: Seq<char>,
    now: u64,
    reply: TreeReply,
    after: StateView,
    acts: Seq<ActionView>,
)
    requires
        admitted(s, id, w, active, now, reply, after, acts),
        s.placements.contains_key(id),
    ensures
        !s.placements[id].kind.in_tree() && after.placements[id].kind is Floating ==> acts.contains(
            ActionView::PlaceFloating(id),
        ),
        acts.contains(ActionView::Park(id)) <==> after.placements[id].kind.in_tree() && forall|m: u32|
            #[trigger]
            after.desk.active.contains_key(m) ==> after.desk.active[m]
                != after.placements[id].workspace,
        forall|x: ActionView| #[trigger]
            acts.contains(x) ==> x == ActionView::Park(id) || x == ActionView::PlaceFloating(id),
        after.desk == s.desk,
{
    if !s.placements[id].kind.in_tree() && after.placements[id].kind is Floating {
        assert(acts[0] == ActionView::PlaceFloating(id));
    }
    if super::parked(after, id) {
        assert(acts[acts.len() - 1] == ActionView::Park(id));
    }
    if acts.contains(ActionView::Park(id)) {
        let i = acts.index_of(ActionView::Park(id));
        assert(acts[i] == ActionView::Park(id));
    }
}

/// What the trees are asked for is what is then taken for done: a known window
/// is put into the tree of its workspace, and taken out of it, so that it is
/// there in the end exactly if it is tiled or floats; a new one goes into the
/// tree of the workspace where it is placed, as what it is placed as.
pub proof fn law_plans_are_kept(
    s: StateView,
    id: u32,
    w: ScannedView,
    active: Seq<char>,
    now: u64,
    reply: TreeReply,
    after: StateView,
    acts: Seq<ActionView>,
    plan: ScanPlan,
)
    requires
        admitted(s, id, w, active, now, reply, after, acts),
        planned(s, id, w, active, plan),
        housed(s),
    ensures
        match plan {
            ScanPlan::PutOff => !after.placements.contains_key(id),
            ScanPlan::New { workspace, kind } => {
                &&& !s.placements.contains_key(id)
                &&& after.placements.contains_key(id)
                &&& after.placements[id].workspace == workspace@
                &&& after.placements[id].kind == kind
            },
            ScanPlan::Known { workspace, put_in, take_out } => {
                &&& after.placements.contains_key(id)
                &&& after.placements[id].workspace == workspace@
                &&& s.placements[id].workspace == workspace@
                &&& seated(after.forest, workspace@, id) <==> (seated(s.forest, workspace@, id)
                    || put_in is Some) && !take_out
                &&& put_in is Some ==> !seated(s.forest, workspace@, id)
                &&& take_out ==> seated(s.forest, workspace@, id) || put_in is Some
                &&& put_in is Some && !take_out ==> (put_in == Some(Restore::Floating)
                    <==> after.placements[id].kind is Floating)
            },
        },
{
    law_scanning_keeps_windows_housed(s, id, w, active, now, reply, after, acts);
    if s.placements.contains_key(id) {
        let name = s.placements[id].workspace;
        assert(seated(s.forest, name, id) <==> placed_on(s, name, id));
        assert(seated(after.forest, name, id) <==> placed_on(after, name, id));
    } else if !put_off(s, id, w) {
        let seen = noticed(s, id, w);
        let kind = first_placement(s, w);
        let name = first_workspace(s, w.window, active);
        let placed = StateView {
            placements: seen.placements.insert(id, PlacementView { workspace: name, kind }),
            ..seen
        };
        let rooted = in_its_place(placed, id, kind, name, reply.node);
        if after != rooted {
            let r = choose|r: Result<Seq<ActionView>, Seq<char>>| #[trigger]
                switch_outcome(rooted, name, reply.default_focus, after, r);
            lemma_switch(rooted, name, reply.default_focus, after, r);
        }
        assert(after.placements == placed.placements);
    }
}

/// When a scan of an application begins, those of its windows that were not
/// found are missing from now on, unless they were missing before: then since
/// when does not change. No other window is. An application that has windows is
/// not waited for any more.
pub proof fn law_scans_notice_what_is_missing(
    s: StateView,
    pid: i32,
    fresh: Seq<u32>,
    now: u64,
    id: u32,
    other: i32,
)
    ensures
        ({
            let after = scan_begun(s, pid, fresh, now);
            let mine = s.windows.contains_key(id) && s.windows[id].pid == pid;
            &&& after.grace.missing.contains_key(id) <==> s.grace.missing.contains_key(id) || (mine
                && !fresh.contains(id))
            &&& s.grace.missing.contains_key(id) ==> after.grace.missing[id]
                == s.grace.missing[id]
            &&& !s.grace.missing.contains_key(id) && mine && !fresh.contains(id)
                ==> after.grace.missing[id] == now
            &&& after.grace.launches.contains_key(other) <==> s.grace.launches.contains_key(other)
                && (other != pid || fresh.len() == 0)
            &&& after.windows == s.windows && after.placements == s.placements
        }),
{
}

proof fn lemma_forgotten_all(s: StateView, ids: Seq<u32>, suggestions: Seq<Suggestion>)
    ensures
        ({
            let end = forgotten_all(s, ids, suggestions).0;
            &&& forall|id: u32| #[trigger]
                end.windows.contains_key(id) <==> s.windows.contains_key(id) && !ids.contains(id)
            &&& forall|id: u32| #[trigger]
                end.windows.contains_key(id) ==> end.windows[id] == s.windows[id]
            &&& forall|id: u32| #[trigger]
                end.placements.contains_key(id) <==> s.placements.contains_key(id)
                    && !ids.contains(id)
            &&& forall|id: u32| #[trigger]
                end.placements.contains_key(id) ==> end.placements[id] == s.placements[id]
            &&& forall|id: u32| #[trigger]
                end.grace.missing.contains_key(id) <==> s.grace.missing.contains_key(id)
                    && !ids.contains(id)
            &&& end.grace.launches == s.grace.launches
            &&& end.desk == s.desk
        }),
    decreases ids.len(),
{
    if ids.len() > 0 {
        let init = ids.drop_last();
        lemma_forgotten_all(s, init, suggestions);
        let mid = forgotten_all(s, init, suggestions).0;
        let end = forgotten_all(s, ids, suggestions).0;
        let last = ids.last();
        assert(end == forgotten(mid, last, suggestion_from(suggestions, last, 0)).0);
        assert(end.windows == mid.windows.remove(last));
        assert(end.placements =~= mid.placements.remove(last));
        assert forall|id: u32| ids.contains(id) <==> #[trigger] init.contains(id) || id == last by {
            if ids.contains(id) && id != last {
                let i = ids.index_of(id);
                assert(init[i] == id);
            }
            if init.contains(id) {
                let i = init.index_of(id);
                assert(ids[i] == id);
            }
            assert(ids[ids.len() - 1] == last);
        }
        assert forall|id: u32| #[trigger] end.windows.contains_key(id) <==> s.windows.contains_key(
            id,
        ) && !ids.contains(id) by {
            assert(mid.windows.contains_key(id) <==> s.windows.contains_key(id) && !init.contains(
                id,
            ));
        }
        assert forall|id: u32| #[trigger]
            end.placements.contains_key(id) <==> s.placements.contains_key(id) && !ids.contains(id) by {
            assert(mid.placements.contains_key(id) <==> s.placements.contains_key(id)
                && !init.contains(id));
        }
        assert forall|id: u32| #[trigger]
            end.grace.missing.contains_key(id) <==> s.grace.missing.contains_key(id)
                && !ids.contains(id) by {
            assert(mid.grace.missing.contains_key(id) <==> s.grace.missing.contains_key(id)
                && !init.contains(id));
        }
        assert forall|id: u32| #[trigger] end.windows.contains_key(id) implies end.windows[id]
            == s.windows[id] by {
            assert(mid.windows.contains_key(id));
        }
        assert forall|id: u32| #[trigger] end.placements.contains_key(id) implies end.placements[id]
            == s.placements[id] by {
            assert(mid.placements.contains_key(id));
        }
    }
}

/// A window is forgotten exactly if it was missing for as long as is allowed, or
/// longer; while the system wakes up, that is never shorter than usual. Nothing
/// changes for any other window, and all is laid out if one went.
pub proof fn law_only_missing_windows_are_forgotten(
    s: StateView,
    now: u64,
    suggestions: Seq<Suggestion>,
    after: StateView,
    acts: Seq<ActionView>,
    id: u32,
)
    requires
        removals_finalized(s, now, suggestions, after, acts),
    ensures
        ({
            let awake = s.grace.wake_until is None || s.grace.wake_until->0 <= now;
            let grace = if !awake && s.grace.removal_grace < crate::grace::WAKE_REMOVAL_GRACE {
                crate::grace::WAKE_REMOVAL_GRACE
            } else {
                s.grace.removal_grace
            };
            let lost = s.grace.missing.contains_key(id) && (grace == 0 || s.grace.missing[id]
                + grace <= now);
            &&& after.windows.contains_key(id) <==> s.windows.contains_key(id) && !lost
            &&& after.windows.contains_key(id) ==> after.windows[id] == s.windows[id]
            &&& after.placements.contains_key(id) <==> s.placements.contains_key(id) && !lost
            &&& after.placements.contains_key(id) ==> after.placements[id] == s.placements[id]
            &&& after.grace.missing.contains_key(id) <==> s.grace.missing.contains_key(id) && !lost
            &&& lost ==> acts.contains(ActionView::RelayoutAll)
            &&& after.desk == s.desk
        }),
{
    let ids = choose|ids: Seq<u32>| #[trigger]
        all_gone(s, now, ids) && (if ids.len() == 0 {
            after == s && acts.len() == 0
        } else {
            let (end, done) = forgotten_all(s, ids, suggestions);
            after == end && acts == done.push(ActionView::RelayoutAll)
        });
    lemma_forgotten_all(s, ids, suggestions);
    assert(ids.contains(id) <==> crate::grace::gone(s.grace, id, now));
    if ids.len() > 0 {
        assert(acts[acts.len() - 1] == ActionView::RelayoutAll);
    }
}

/// When an application ends, exactly its windows are forgotten, it is not waited
/// for any more, and all is laid out.
pub proof fn law_ended_applications_leave_nothing(
    s: StateView,
    pid: i32,
    suggestions: Seq<Suggestion>,
    after: StateView,
    acts: Seq<ActionView>,
    id: u32,
    other: i32,
)
    requires
        app_removed(s, pid, suggestions, after, acts),
    ensures
        ({
            let mine = s.windows.contains_key(id) && s.windows[id].pid == pid;
            &&& after.windows.contains_key(id) <==> s.windows.contains_key(id) && !mine
            &&& after.windows.contains_key(id) ==> after.windows[id] == s.windows[id]
            &&& after.placements.contains_key(id) <==> s.placements.contains_key(id) && !mine
            &&& after.placements.contains_key(id) ==> after.placements[id] == s.placements[id]
            &&& after.grace.missing.contains_key(id) <==> s.grace.missing.contains_key(id) && !mine
            &&& after.grace.launches.contains_key(other) <==> s.grace.launches.contains_key(other)
                && other != pid
            &&& acts.contains(ActionView::RelayoutAll)
            &&& after.desk == s.desk
        }),
{
    let ids = choose|ids: Seq<u32>| #[trigger]
        all_of(s, pid, ids) && ({
            let (end, done) = forgotten_all(s, ids, suggestions);
            &&& after == (StateView {
                grace: crate::grace::GraceView {
                    launches: end.grace.launches.remove(pid),
                    ..end.grace
                },
                ..end
            })
            &&& acts == done.push(ActionView::RelayoutAll)
        });
    lemma_forgotten_all(s, ids, suggestions);
    assert(ids.contains(id) <==> s.windows.contains_key(id) && s.windows[id].pid == pid);
    assert(acts[acts.len() - 1] == ActionView::RelayoutAll);
}

/// Where a window goes that had the focus of its workspace, the node that the
/// tree suggests has it, and the window there is raised if its workspace is
/// shown. Where another one goes, the focus stays, and nothing is raised.
pub proof fn law_focus_passes_on(s: StateView, id: u32, suggested: Option<u64>, node: u64)
    requires
        s.placements.contains_key(id),
        s.placements[id].kind.in_tree(),
        node_of(s.forest, s.placements[id].workspace, id) == Some(node),
    ensures
        ({
            let name = s.placements[id].workspace;
            let (after, acts) = forgotten(s, id, suggested);
            let had = s.forest.focus.contains_key(name) && s.forest.focus[name] == node;
            &&& had && suggested is Some ==> after.forest.focus.contains_key(name)
                && after.forest.focus[name] == suggested->0
            &&& had && suggested is None ==> !after.forest.focus.contains_key(name)
            &&& !had ==> after.forest.focus == s.forest.focus && acts.len() == 0
            &&& forall|n: Seq<char>| #[trigger]
                leaves_of(after.forest, n) == leaves_of(s.forest, n) || n == name
            &&& had && suggested is Some && (exists|m: u32| #[trigger]
                s.desk.active.contains_key(m) && s.desk.active[m] == name) ==> forall|next: u32| #[trigger]
                after.windows.contains_key(next) && window_at(after.forest, name, suggested->0)
                    == Some(next) ==> acts.contains(
                    ActionView::Raise { window: next, warp: s.mouse_follows_focus },
                )
            &&& (forall|m: u32| #[trigger] s.desk.active.contains_key(m) ==> s.desk.active[m]
                != name) ==> acts.len() == 0
        }),
{
    let name = s.placements[id].workspace;
    let (after, acts) = forgotten(s, id, suggested);
    assert forall|n: Seq<char>| #[trigger]
        leaves_of(after.forest, n) == leaves_of(s.forest, n) || n == name by {}
    if acts.len() > 0 {
        assert(acts[0] == acts[0]);
        assert(acts.contains(acts[0]));
    }
}

/// An application that was launched is waited for from then on; one that has
/// been without windows for as long as is allowed is waited for no more, and any
/// other one still is.
pub proof fn law_launched_applications_are_waited_for(s: StateView, pid: i32, other: i32, now: u64)
    ensures
        ({
            let after = launched(s, pid, now);
            &&& after.grace.launches.contains_key(pid) && after.grace.launches[pid] == now
            &&& other != pid ==> (after.grace.launches.contains_key(other)
                <==> s.grace.launches.contains_key(other))
            &&& after == (StateView { grace: after.grace, ..s })
            &&& after.grace.missing == s.grace.missing
        }),
        ({
            let after = launches_finalized(s, now);
            &&& after.grace.launches.contains_key(pid) <==> s.grace.launches.contains_key(pid)
                && s.grace.launch_grace > 0 && s.grace.launches[pid] + s.grace.launch_grace > now
            &&& after.grace.launches.contains_key(pid) ==> after.grace.launches[pid]
                == s.grace.launches[pid]
            &&& after == (StateView { grace: after.grace, ..s })
            &&& after.grace.missing == s.grace.missing
        }),
{
}

/// The system counts as waking up from the moment it wakes, for as long as a
/// window may be missing then, and no longer.
pub proof fn law_waking_takes_a_while(s: StateView, now: u64, then: u64)
    requires
        now + crate::grace::WAKE_REMOVAL_GRACE <= u64::MAX,
        then >= now,
    ensures
        waking(woken(s, now).grace, then) <==> then < now + crate::grace::WAKE_REMOVAL_GRACE,
        woken(s, now) == (StateView { grace: woken(s, now).grace, ..s }),
        woken(s, now).grace.missing == s.grace.missing,
        woken(s, now).grace.launches == s.grace.launches,
{
}

/// Once a scan is over, the focused monitor is laid out, unless a mouse button
/// is down: nothing moves under the cursor.
pub proof fn law_layout_waits_for_the_mouse(s: StateView)
    ensures
        !s.mouse_button_down ==> scan_ended(s).contains(ActionView::Relayout(s.desk.focused)),
        s.mouse_button_down ==> scan_ended(s).len() == 0,
{
    if !s.mouse_button_down {
        assert(scan_ended(s)[0] == ActionView::Relayout(s.desk.focused));
    }
}

/// A window that leaves its tree for a special state passes the focus of its
/// workspace on to the node that the tree suggests, if it had it; else the focus
/// stays where it is. It fills no monitor any more.
pub proof fn law_hidden_windows_pass_the_focus_on(
    s: StateView,
    id: u32,
    w: ScannedView,
    active: Seq<char>,
    now: u64,
    reply: TreeReply,
    after: StateView,
    acts: Seq<ActionView>,
    node: u64,
)
    requires
        admitted(s, id, w, active, now, reply, after, acts),
        s.placements.contains_key(id),
        s.placements[id].kind.in_tree(),
        node_of(s.forest, s.placements[id].workspace, id) == Some(node),
        w.app_hidden || w.minimized || w.window.fullscreen,
    ensures
        ({
            let name = s.placements[id].workspace;
            let had = s.forest.focus.contains_key(name) && s.forest.focus[name] == node;
            &&& had ==> lookup(after.forest.focus, name) == reply.suggested
            &&& !had ==> after.forest.focus == s.forest.focus
            &&& after.forest.focus.remove(name) == s.forest.focus.remove(name)
            &&& !(after.forest.fullscreen.contains_key(name) && after.forest.fullscreen[name]
                == node)
            &&& after.desk == s.desk
        }),
{
    let name = s.placements[id].workspace;
    assert(after.forest.focus.remove(name) =~= s.forest.focus.remove(name));
}

/// A window that comes back from a special state is in the tree of its workspace
/// again, at the node that the tree gave it, and has the focus there only if
/// nothing else had it.
pub proof fn law_returning_windows_get_their_node(
    s: StateView,
    id: u32,
    w: ScannedView,
    active: Seq<char>,
    now: u64,
    reply: TreeReply,
    after: StateView,
    acts: Seq<ActionView>,
)
    requires
        admitted(s, id, w, active, now, reply, after, acts),
        s.placements.contains_key(id),
        crate::placement::special_in(s.placements[id].kind) is Some,
        !w.app_hidden && !w.minimized && !w.window.fullscreen,
    ensures
        ({
            let name = s.placements[id].workspace;
            &&& stands_in(after.forest, name, reply.node, id)
            &&& after.forest.focus.contains_key(name)
            &&& after.forest.focus[name] == (if s.forest.focus.contains_key(name) {
                s.forest.focus[name]
            } else {
                reply.node
            })
        }),
{
    let name = s.placements[id].workspace;
    let all = after.forest.leaves[name];
    assert(all[all.len() - 1] == (crate::forest::Leaf { node: reply.node, window: id }));
}

}
