//! What a scan of an application's windows changes.

use vstd::prelude::*;
use super::{
    active_name, parked, push_all, raised, Action, ActionView, Placement, PlacementView, StateView,
    Window, WindowView, WmState,
};
use super::switching::{done, no_actions, switch_outcome};
use crate::config::views;
use crate::desk::{lookup, shown};
use crate::forest::{refocused, taken_out, window_at, with_first_focus, with_leaf, Leaf};
use crate::grace::{gone, later, waking, GraceView, WAKE_REMOVAL_GRACE};
use crate::placement::{
    classify_new_window, current_special, is_protected_finder_dialog, is_system_ui_bundle,
    kind_disposition, new_placement, placed_special, protected_title, resolve_disposition,
    restore_for, restore_of, restored_placement, special_in, special_kind, special_of,
    special_placement, system_ui_bundle, FloatGeometry, FloatingRuleMode, PlacementKind, Restore,
    SpecialKind, WindowKind,
};
use crate::rules::{applying_rule, matching_floating_rule, matching_workspace_rule, ruled_workspace};
use crate::text::{opt_text, same_text};

verus! {

/// How often a new window is put off for want of a bundle id.
pub const MAX_BUNDLE_ID_RETRIES: u8 = 3;

/// The node that a tree suggested for the focus when it let a window go.
#[derive(Debug, Clone, Copy, PartialEq, Eq, Structural)]
pub struct Suggestion {
    pub window: u32,
    pub node: Option<u64>,
}

/// What the trees said while a window was put in or taken out.
#[derive(Debug, Clone, Copy, PartialEq, Eq, Structural)]
pub struct TreeReply {
    /// The node that the window was put at, if it was put in.
    pub node: u64,
    /// The node that was suggested for the focus, if it was taken out.
    pub suggested: Option<u64>,
    /// The node that the tree of a workspace would focus by itself, for a
    /// workspace that has to be switched to.
    pub default_focus: Option<u64>,
}

/// A window as a scan found it.
#[derive(Debug, PartialEq, Eq)]
pub struct Scanned {
    pub window: Window,
    pub kind: WindowKind,
    pub app_hidden: bool,
    pub minimized: bool,
    /// Where the user has the window, if it is not where it was put.
    pub moved_to: Option<FloatGeometry>,
}

/// What a `Scanned` holds.
pub struct ScannedView {
    pub window: WindowView,
    pub kind: WindowKind,
    pub app_hidden: bool,
    pub minimized: bool,
    pub moved_to: Option<FloatGeometry>,
}

impl View for Scanned {
    type V = ScannedView;

    open spec fn view(&self) -> ScannedView {
        ScannedView {
            window: self.window@,
            kind: self.kind,
            app_hidden: self.app_hidden,
            minimized: self.minimized,
            moved_to: self.moved_to,
        }
    }
}

/// The node suggested for a window's leave, at or after place `from`.
pub open spec fn suggestion_from(s: Seq<Suggestion>, id: u32, from: int) -> Option<u64>
    decreases s.len() - from,
{
    if from < 0 || from >= s.len() {
        None
    } else if s[from].window == id {
        s[from].node
    } else {
        suggestion_from(s, id, from + 1)
    }
}

fn suggestion(s: &Vec<Suggestion>, id: u32) -> (r: Option<u64>)
    ensures
        r == suggestion_from(s@, id, 0),
{
    let mut i: usize = 0;
    while i < s.len()
        invariant
            i <= s.len(),
            suggestion_from(s@, id, 0) == suggestion_from(s@, id, i as int),
        decreases s.len() - i,
    {
        if s[i].window == id {
            return s[i].node;
        }
        i = i + 1;
    }
    None
}

/// The state once a window has no placement any more. If it had the focus of a
/// workspace that is shown, the window that gets it is raised.
pub open spec fn displaced(s: StateView, id: u32, suggested: Option<u64>) -> (
    StateView,
    Seq<ActionView>,
) {
    let bare = StateView { floating_placed: s.floating_placed.remove(id), ..s };
    match lookup(s.placements, id) {
        None => (bare, Seq::empty()),
        Some(p) => {
            let unplaced = StateView { placements: s.placements.remove(id), ..bare };
            if !p.kind.in_tree() {
                (unplaced, Seq::empty())
            } else {
                let out = StateView {
                    forest: taken_out(s.forest, p.workspace, id, suggested),
                    ..unplaced
                };
                match refocused(s.forest, p.workspace, id, suggested) {
                    Some(node) => match window_at(out.forest, p.workspace, node) {
                        Some(next) => if shown(s.desk.active, p.workspace) {
                            raised(out, next)
                        } else {
                            (out, Seq::empty())
                        },
                        None => (out, Seq::empty()),
                    },
                    None => (out, Seq::empty()),
                }
            }
        },
    }
}

/// The state once nothing is known of a window any more.
pub open spec fn forgotten(s: StateView, id: u32, suggested: Option<u64>) -> (
    StateView,
    Seq<ActionView>,
) {
    displaced(
        StateView {
            windows: s.windows.remove(id),
            retries: s.retries.remove(id),
            grace: GraceView { missing: s.grace.missing.remove(id), ..s.grace },
            ..s
        },
        id,
        suggested,
    )
}

/// The state once nothing is known of each of some windows in turn.
pub open spec fn forgotten_all(s: StateView, ids: Seq<u32>, suggestions: Seq<Suggestion>) -> (
    StateView,
    Seq<ActionView>,
)
    decreases ids.len(),
{
    if ids.len() == 0 {
        (s, Seq::empty())
    } else {
        let (mid, acts) = forgotten_all(s, ids.drop_last(), suggestions);
        let (end, more) = forgotten(mid, ids.last(), suggestion_from(suggestions, ids.last(), 0));
        (end, acts + more)
    }
}

/// `ids` are the windows that were missing for too long, each once.
pub open spec fn all_gone(s: StateView, now: u64, ids: Seq<u32>) -> bool {
    ids.no_duplicates() && forall|id: u32| ids.contains(id) <==> #[trigger] gone(s.grace, id, now)
}

/// `ids` are the windows of an application, each once.
pub open spec fn all_of(s: StateView, pid: i32, ids: Seq<u32>) -> bool {
    ids.no_duplicates() && forall|id: u32|
        ids.contains(id) <==> (#[trigger] s.windows.contains_key(id) && s.windows[id].pid == pid)
}

/// A window of an application that a scan did not find.
pub open spec fn vanished(s: StateView, pid: i32, fresh: Seq<u32>, id: u32) -> bool {
    s.windows.contains_key(id) && s.windows[id].pid == pid && !fresh.contains(id)
}

/// The state once a scan of an application began. Its windows that were not
/// found are missing from now on, unless they were already.
pub open spec fn scan_begun(s: StateView, pid: i32, fresh: Seq<u32>, now: u64) -> StateView {
    let old = s.grace.missing;
    StateView {
        grace: GraceView {
            missing: Map::new(
                |id: u32| old.contains_key(id) || vanished(s, pid, fresh, id),
                |id: u32| if old.contains_key(id) { old[id] } else { now },
            ),
            launches: if fresh.len() > 0 {
                s.grace.launches.remove(pid)
            } else {
                s.grace.launches
            },
            ..s.grace
        },
        ..s
    }
}

/// A window is new, and put off until its bundle id is known.
pub open spec fn put_off(s: StateView, id: u32, w: ScannedView) -> bool {
    &&& !s.placements.contains_key(id)
    &&& w.window.bundle_id is None
    &&& match lookup(s.retries, id) {
        Some(n) => n < MAX_BUNDLE_ID_RETRIES,
        None => true,
    }
}

/// The state once a window was found by a scan, whatever else it means.
pub open spec fn noticed(s: StateView, id: u32, w: ScannedView) -> StateView {
    StateView {
        windows: s.windows.insert(id, w.window),
        retries: if put_off(s, id, w) {
            s.retries.insert(
                id,
                match lookup(s.retries, id) {
                    Some(n) => (n + 1) as u8,
                    None => 1u8,
                },
            )
        } else {
            s.retries.remove(id)
        },
        grace: GraceView { missing: s.grace.missing.remove(id), ..s.grace },
        ..s
    }
}

/// What the rules say of a new window: the system's own and Finder's protected
/// dialogs are left alone whatever the configuration says.
pub open spec fn rule_mode_for(s: StateView, w: WindowView) -> Option<FloatingRuleMode> {
    if (w.bundle_id is Some && system_ui_bundle(w.bundle_id->0)) || (w.bundle_id == Some(
        "com.apple.finder"@,
    ) && protected_title(w.title)) {
        Some(FloatingRuleMode::Ignore)
    } else {
        match applying_rule(s.floating_rules, w.bundle_id, w.title) {
            Some(rule) => Some(rule.mode),
            None => None,
        }
    }
}

/// How a new window is placed.
pub open spec fn first_placement(s: StateView, w: ScannedView) -> PlacementKind {
    new_placement(
        match rule_mode_for(s, w.window) {
            Some(mode) => mode,
            None => kind_disposition(w.kind),
        },
        w.app_hidden,
        w.minimized,
        w.window.fullscreen,
    )
}

/// The workspace that a new window starts on: what a rule says, else the one
/// that was active when the scan began.
pub open spec fn first_workspace(s: StateView, w: WindowView, active: Seq<char>) -> Seq<char> {
    match ruled_workspace(s.workspace_rules, w.bundle_id) {
        Some(name) => name,
        None => active,
    }
}

/// The state once a window has a leaf in a workspace's tree. It gets the focus
/// where the workspace had none.
pub open spec fn grown(s: StateView, name: Seq<char>, id: u32, node: u64) -> StateView {
    StateView {
        forest: with_first_focus(
            with_leaf(s.forest, name, Leaf { node, window: id }),
            name,
            node,
        ),
        ..s
    }
}

/// The state once a new window is in the tree of its workspace, if it belongs
/// there.
pub open spec fn in_its_place(
    s: StateView,
    id: u32,
    kind: PlacementKind,
    name: Seq<char>,
    node: u64,
) -> StateView {
    if kind.in_tree() {
        grown(s, name, id, node)
    } else {
        s
    }
}

/// `after` and `acts` are what placing a new window gives. A workspace that is
/// not the active one is switched to, unless the system is waking up: then a
/// window that no monitor shows is parked.
pub open spec fn placed_new(
    s: StateView,
    id: u32,
    kind: PlacementKind,
    name: Seq<char>,
    now: u64,
    reply: TreeReply,
    after: StateView,
    acts: Seq<ActionView>,
) -> bool {
    let first = if kind is Floating && name == active_name(s) {
        seq![ActionView::PlaceFloating(id)]
    } else {
        Seq::empty()
    };
    if name == active_name(s) || waking(s.grace, now) {
        &&& after == in_its_place(s, id, kind, name, reply.node)
        &&& acts == (if waking(s.grace, now) && kind.in_tree() && !shown(s.desk.active, name) {
            seq![ActionView::Park(id)]
        } else {
            first
        })
    } else {
        exists|r: Result<Seq<ActionView>, Seq<char>>| #[trigger]
            switch_outcome(
                in_its_place(s, id, kind, name, reply.node),
                name,
                reply.default_focus,
                after,
                r,
            ) && acts == first + (
            match r {
                Ok(more) => more,
                Err(e) => Seq::empty(),
            })
    }
}

/// The state once a window left a special state.
pub open spec fn promoted(s: StateView, id: u32, restore: Restore, node: u64) -> (
    StateView,
    Seq<ActionView>,
) {
    match lookup(s.placements, id) {
        None => (s, Seq::empty()),
        Some(p) => (
            StateView {
                placements: s.placements.insert(
                    id,
                    PlacementView { workspace: p.workspace, kind: restored_placement(restore) },
                ),
                ..grown(s, p.workspace, id, node)
            },
            if restore is Floating {
                seq![ActionView::PlaceFloating(id)]
            } else {
                Seq::empty()
            },
        ),
    }
}

/// The state once a window entered a special state.
pub open spec fn demoted(
    s: StateView,
    id: u32,
    special: SpecialKind,
    restore: Restore,
    suggested: Option<u64>,
) -> StateView {
    match lookup(s.placements, id) {
        None => s,
        Some(p) => StateView {
            forest: if p.kind.in_tree() {
                taken_out(s.forest, p.workspace, id, suggested)
            } else {
                s.forest
            },
            placements: s.placements.insert(
                id,
                PlacementView { workspace: p.workspace, kind: special_placement(special, restore) },
            ),
            ..s
        },
    }
}

/// The state once a known window's placement follows its live flags, and what
/// has to be done. A window that belongs off the screen is moved there again.
pub open spec fn reconciled(
    s: StateView,
    id: u32,
    live: Option<SpecialKind>,
    reply: TreeReply,
) -> (StateView, Seq<ActionView>) {
    match lookup(s.placements, id) {
        None => (s, Seq::empty()),
        Some(p) => {
            let stored = special_in(p.kind);
            let restore = restore_of(p.kind);
            let (up, acts) = if stored != live && stored is Some {
                promoted(s, id, restore, reply.node)
            } else {
                (s, Seq::empty())
            };
            let down = if stored != live && live is Some {
                demoted(up, id, live->0, restore, reply.suggested)
            } else {
                up
            };
            (
                down,
                if parked(down, id) {
                    acts.push(ActionView::Park(id))
                } else {
                    acts
                },
            )
        },
    }
}

/// The state once the user's own place of a floating window is kept, where
/// none was kept before.
pub open spec fn captured(s: StateView, id: u32, geometry: FloatGeometry) -> StateView {
    match lookup(s.placements, id) {
        None => s,
        Some(p) => if p.kind == (PlacementKind::Floating { manual: None }) {
            StateView {
                placements: s.placements.insert(
                    id,
                    PlacementView {
                        workspace: p.workspace,
                        kind: PlacementKind::Floating { manual: Some(geometry) },
                    },
                ),
                ..s
            }
        } else {
            s
        },
    }
}

/// `after` and `acts` are what finding a window in a scan gives.
pub open spec fn admitted(
    s: StateView,
    id: u32,
    w: ScannedView,
    active: Seq<char>,
    now: u64,
    reply: TreeReply,
    after: StateView,
    acts: Seq<ActionView>,
) -> bool {
    let seen = noticed(s, id, w);
    if s.placements.contains_key(id) {
        let moved = match w.moved_to {
            Some(geometry) => captured(seen, id, geometry),
            None => seen,
        };
        (after, acts) == reconciled(
            moved,
            id,
            special_of(w.app_hidden, w.minimized, w.window.fullscreen),
            reply,
        )
    } else if put_off(s, id, w) {
        after == seen && acts.len() == 0
    } else {
        let kind = first_placement(s, w);
        let name = first_workspace(s, w.window, active);
        placed_new(
            StateView {
                placements: seen.placements.insert(id, PlacementView { workspace: name, kind }),
                ..seen
            },
            id,
            kind,
            name,
            now,
            reply,
            after,
            acts,
        )
    }
}

/// `after` and `acts` are what forgetting the windows that were missing for too
/// long gives.
pub open spec fn removals_finalized(
    s: StateView,
    now: u64,
    suggestions: Seq<Suggestion>,
    after: StateView,
    acts: Seq<ActionView>,
) -> bool {
    exists|ids: Seq<u32>| #[trigger]
        all_gone(s, now, ids) && (if ids.len() == 0 {
            after == s && acts.len() == 0
        } else {
            let (end, done) = forgotten_all(s, ids, suggestions);
            after == end && acts == done.push(ActionView::RelayoutAll)
        })
}

/// `after` and `acts` are what forgetting an application that is gone gives.
pub open spec fn app_removed(
    s: StateView,
    pid: i32,
    suggestions: Seq<Suggestion>,
    after: StateView,
    acts: Seq<ActionView>,
) -> bool {
    exists|ids: Seq<u32>| #[trigger]
        all_of(s, pid, ids) && ({
            let (end, done) = forgotten_all(s, ids, suggestions);
            &&& after == (StateView {
                grace: GraceView { launches: end.grace.launches.remove(pid), ..end.grace },
                ..end
            })
            &&& acts == done.push(ActionView::RelayoutAll)
        })
}

/// The state once an application was launched.
pub open spec fn launched(s: StateView, pid: i32, now: u64) -> StateView {
    StateView {
        grace: GraceView { launches: s.grace.launches.insert(pid, now), ..s.grace },
        ..s
    }
}

/// The state once the system woke up.
pub open spec fn woken(s: StateView, now: u64) -> StateView {
    StateView {
        grace: GraceView { wake_until: Some(later(now, WAKE_REMOVAL_GRACE)), ..s.grace },
        ..s
    }
}

/// The state once the launched applications that were without windows for too
/// long are forgotten.
pub open spec fn launches_finalized(s: StateView, now: u64) -> StateView {
    StateView {
        grace: GraceView {
            launches: s.grace.launches.remove_keys(
                Set::new(|pid: i32| crate::grace::stillborn(s.grace, pid, now)),
            ),
            ..s.grace
        },
        ..s
    }
}

/// What has to be done once a scan is over.
pub open spec fn scan_ended(s: StateView) -> Seq<ActionView> {
    if s.mouse_button_down {
        Seq::empty()
    } else {
        seq![ActionView::Relayout(s.desk.focused)]
    }
}

impl WmState {
    fn remove_placement(&mut self, id: u32, suggested: Option<u64>) -> (r: Vec<Action>)
        requires
            old(self).wf(),
        ensures
            final(self).wf(),
            (final(self)@, views(r@)) == displaced(old(self)@, id, suggested),
    {
        let ghost s = self@;
        let _ = self.floating_placed.remove(&id);
        let p: Placement = match self.placements.remove(&id) {
            Some(p) => p,
            None => {
                assert(self.placements@ =~= s.placements);
                return no_actions();
            },
        };
        if !p.kind.is_in_tree() {
            return no_actions();
        }
        let name: &str = p.workspace.as_str();
        match self.forest.take_out(name, id, suggested) {
            Some(node) => {
                if self.desk.is_shown(name) {
                    match self.forest.window_at(name, node) {
                        Some(next) => {
                            return self.raise_focused_window(next);
                        },
                        None => {},
                    }
                }
            },
            None => {},
        }
        no_actions()
    }

    fn forget_window(&mut self, id: u32, suggested: Option<u64>) -> (r: Vec<Action>)
        requires
            old(self).wf(),
        ensures
            final(self).wf(),
            (final(self)@, views(r@)) == forgotten(old(self)@, id, suggested),
    {
        let _ = self.windows.remove(&id);
        let _ = self.retries.remove(&id);
        self.grace.note_present(id);
        self.remove_placement(id, suggested)
    }

    fn forget_all(&mut self, ids: &Vec<u32>, suggestions: &Vec<Suggestion>) -> (r: Vec<Action>)
        requires
            old(self).wf(),
        ensures
            final(self).wf(),
            (final(self)@, views(r@)) == forgotten_all(old(self)@, ids@, suggestions@),
    {
        let ghost s = self@;
        let mut out: Vec<Action> = no_actions();
        let mut i: usize = 0;
        assert(ids@.take(0) =~= Seq::empty());
        while i < ids.len()
            invariant
                i <= ids.len(),
                self.wf(),
                (self@, views(out@)) == forgotten_all(s, ids@.take(i as int), suggestions@),
            decreases ids.len() - i,
        {
            proof {
                assert(ids@.take(i + 1).drop_last() =~= ids@.take(i as int));
                assert(ids@.take(i + 1).last() == ids@[i as int]);
            }
            let id: u32 = ids[i];
            let more: Vec<Action> = self.forget_window(id, suggestion(suggestions, id));
            push_all(&mut out, more);
            i = i + 1;
        }
        assert(ids@.take(i as int) =~= ids@);
        out
    }

    /// The windows that were missing for too long, each once.
    pub fn expired_removals(&self, now: u64) -> (r: Vec<u32>)
        requires
            self.wf(),
        ensures
            all_gone(self@, now, r@),
    {
        self.grace.expired_removals(now)
    }

    /// Forgets the windows that were missing for too long. `suggestions` says
    /// what the trees suggested when they let those windows go.
    pub fn finalize_expired_removals(&mut self, now: u64, suggestions: &Vec<Suggestion>) -> (r: Vec<
        Action,
    >)
        requires
            old(self).wf(),
        ensures
            final(self).wf(),
            removals_finalized(old(self)@, now, suggestions@, final(self)@, views(r@)),
    {
        let ids: Vec<u32> = self.expired_removals(now);
        assert(all_gone(self@, now, ids@));
        if ids.len() == 0 {
            return Vec::new();
        }
        let mut out: Vec<Action> = self.forget_all(&ids, suggestions);
        let ghost before = views(out@);
        out.push(Action::RelayoutAll);
        assert(views(out@) =~= before.push(ActionView::RelayoutAll));
        out
    }

    /// The windows of an application, each once.
    pub fn windows_of(&self, pid: i32) -> (r: Vec<u32>)
        requires
            self.wf(),
        ensures
            all_of(self@, pid, r@),
    {
        let n: usize = self.windows.len();
        let ghost order = self.windows.order();
        let mut out: Vec<u32> = Vec::new();
        let mut i: usize = 0;
        while i < n
            invariant
                self.wf(),
                order == self.windows.order(),
                n == order.len(),
                order.no_duplicates(),
                i <= n,
                out@.no_duplicates(),
                forall|id: u32| #[trigger] out@.contains(id) ==> self@.windows.contains_key(id)
                    && self@.windows[id].pid == pid && order.take(i as int).contains(id),
                forall|j: int| 0 <= j < i && self@.windows[#[trigger] order[j]].pid == pid
                    ==> out@.contains(order[j]),
            decreases n - i,
        {
            let id: u32 = *self.windows.key_at(i);
            let ghost before = out@;
            proof {
                assert forall|x: u32| order.take(i as int).contains(x) implies order.take(
                    i + 1,
                ).contains(x) && x != order[i as int] by {
                    let k = order.take(i as int).index_of(x);
                    assert(order.take(i + 1)[k] == x);
                    assert(order[k] == x);
                }
                assert(order.take(i + 1)[i as int] == id);
            }
            if self.windows.value_at(i).pid == pid {
                out.push(id);
                proof {
                    assert(out@.last() == id);
                    assert forall|x: u32| #[trigger] out@.contains(x) implies before.contains(x)
                        || x == id by {
                        let k = out@.index_of(x);
                        if k < before.len() {
                            assert(before[k] == x);
                        }
                    }
                    assert forall|x: u32| before.contains(x) implies out@.contains(x) by {
                        let k = before.index_of(x);
                        assert(out@[k] == x);
                    }
                    assert(!before.contains(id));
                }
            }
            i = i + 1;
        }
        proof {
            assert forall|id: u32| #[trigger]
                self@.windows.contains_key(id) && self@.windows[id].pid == pid implies out@.contains(
                id,
            ) by {
                assert(order.contains(id));
                let k = order.index_of(id);
                assert(self@.windows[order[k]].pid == pid);
            }
        }
        out
    }

    /// Forgets every window of an application that is gone.
    pub fn remove_app(&mut self, pid: i32, suggestions: &Vec<Suggestion>) -> (r: Vec<Action>)
        requires
            old(self).wf(),
        ensures
            final(self).wf(),
            app_removed(old(self)@, pid, suggestions@, final(self)@, views(r@)),
    {
        let ids: Vec<u32> = self.windows_of(pid);
        assert(all_of(self@, pid, ids@));
        let mut out: Vec<Action> = self.forget_all(&ids, suggestions);
        self.grace.forget_launch(pid);
        let ghost before = views(out@);
        out.push(Action::RelayoutAll);
        assert(views(out@) =~= before.push(ActionView::RelayoutAll));
        out
    }

    /// An application was launched.
    pub fn note_app_launched(&mut self, pid: i32, now: u64)
        requires
            old(self).wf(),
        ensures
            final(self).wf(),
            final(self)@ == launched(old(self)@, pid, now),
    {
        self.grace.note_app_launched(pid, now);
    }

    /// The system woke up.
    pub fn note_system_wake(&mut self, now: u64)
        requires
            old(self).wf(),
        ensures
            final(self).wf(),
            final(self)@ == woken(old(self)@, now),
    {
        self.grace.note_system_wake(now);
    }

    /// Forgets the launched applications that were without windows for too
    /// long.
    pub fn finalize_expired_launches(&mut self, now: u64)
        requires
            old(self).wf(),
        ensures
            final(self).wf(),
            final(self)@ == launches_finalized(old(self)@, now),
    {
        self.grace.finalize_expired_launches(now);
    }

    /// Sets how long a window may be missing.
    pub fn set_removal_grace(&mut self, ms: u64)
        requires
            old(self).wf(),
        ensures
            final(self).wf(),
            final(self)@ == (StateView {
                grace: GraceView { removal_grace: ms, ..old(self)@.grace },
                ..old(self)@
            }),
    {
        self.grace.set_removal_grace(ms);
    }

    /// Sets how long a launched application may be without windows.
    pub fn set_launch_grace(&mut self, ms: u64)
        requires
            old(self).wf(),
        ensures
            final(self).wf(),
            final(self)@ == (StateView {
                grace: GraceView { launch_grace: ms, ..old(self)@.grace },
                ..old(self)@
            }),
    {
        self.grace.set_launch_grace(ms);
    }

    /// Begins a scan of an application, in which the windows `fresh` were
    /// found.
    pub fn begin_scan(&mut self, pid: i32, fresh: &Vec<u32>, now: u64)
        requires
            old(self).wf(),
        ensures
            final(self).wf(),
            final(self)@ == scan_begun(old(self)@, pid, fresh@, now),
    {
        let ghost s = self@;
        if fresh.len() > 0 {
            self.grace.forget_launch(pid);
        }
        let ghost mid = self@;
        let n: usize = self.windows.len();
        let ghost order = self.windows.order();
        let mut i: usize = 0;
        while i < n
            invariant
                self.wf(),
                order == self.windows.order(),
                n == order.len(),
                i <= n,
                s.windows == mid.windows,
                self@ == (StateView {
                    grace: GraceView { missing: self@.grace.missing, ..mid.grace },
                    ..mid
                }),
                forall|id: u32| #[trigger] self@.grace.missing.contains_key(id)
                    ==> s.grace.missing.contains_key(id) || vanished(s, pid, fresh@, id),
                forall|id: u32| #[trigger] self@.grace.missing.contains_key(id)
                    ==> self@.grace.missing[id] == (if s.grace.missing.contains_key(id) {
                    s.grace.missing[id]
                } else {
                    now
                }),
                forall|id: u32| #[trigger] s.grace.missing.contains_key(id)
                    ==> self@.grace.missing.contains_key(id),
                forall|j: int| 0 <= j < i && vanished(s, pid, fresh@, #[trigger] order[j])
                    ==> self@.grace.missing.contains_key(order[j]),
            decreases n - i,
        {
            let id: u32 = *self.windows.key_at(i);
            if self.windows.value_at(i).pid == pid && !holds(fresh, id) {
                self.grace.note_missing(id, now);
            }
            i = i + 1;
        }
        proof {
            let want = scan_begun(s, pid, fresh@, now);
            assert(self@.grace.missing =~= want.grace.missing) by {
                assert forall|id: u32| vanished(s, pid, fresh@, id) implies self@.grace.missing.contains_key(id) by {
                    assert(order.contains(id));
                    let k = order.index_of(id);
                    assert(vanished(s, pid, fresh@, order[k]));
                }
            }
        }
    }

    fn is_put_off(&self, id: u32, w: &Scanned) -> (r: bool)
        requires
            self.wf(),
        ensures
            r == put_off(self@, id, w@),
    {
        if self.placements.contains(&id) || w.window.bundle_id.is_some() {
            return false;
        }
        match self.retries.get(&id) {
            Some(n) => *n < MAX_BUNDLE_ID_RETRIES,
            None => true,
        }
    }

    fn rule_mode(&self, w: &Window) -> (r: Option<FloatingRuleMode>)
        requires
            self.wf(),
        ensures
            r == rule_mode_for(self@, w@),
    {
        let bundle_id: Option<&str> = match &w.bundle_id {
            Some(b) => Some(b.as_str()),
            None => None,
        };
        if is_system_ui_bundle(bundle_id) || is_protected_finder_dialog(
            bundle_id,
            w.title.as_str(),
        ) {
            return Some(FloatingRuleMode::Ignore);
        }
        match matching_floating_rule(&self.floating_rules, bundle_id, w.title.as_str()) {
            Some(rule) => Some(rule.mode()),
            None => None,
        }
    }

    fn ruled_workspace(&self, w: &Window) -> (r: Option<String>)
        requires
            self.wf(),
        ensures
            opt_text(r) == ruled_workspace(self@.workspace_rules, w@.bundle_id),
    {
        let bundle_id: Option<&str> = match &w.bundle_id {
            Some(b) => Some(b.as_str()),
            None => None,
        };
        match matching_workspace_rule(&self.workspace_rules, bundle_id) {
            Some(rule) => Some(rule.workspace.clone()),
            None => None,
        }
    }

    /// Says what a window found by a scan will mean, and so what the trees have
    /// to do before `admit_window` is called.
    pub fn scan_plan(&self, id: u32, w: &Scanned, active: &str) -> (r: ScanPlan)
        requires
            self.wf(),
        ensures
            planned(self@, id, w@, active@, r),
    {
        match self.placements.get(&id) {
            Some(p) => {
                let stored: Option<SpecialKind> = current_special(&p.kind);
                let live: Option<SpecialKind> = special_kind(
                    w.app_hidden,
                    w.minimized,
                    w.window.fullscreen,
                );
                if stored == live {
                    return ScanPlan::Known { workspace: p.workspace.clone(), put_in: None, take_out: false };
                }
                let put_in: Option<Restore> = if stored.is_some() {
                    Some(restore_for(&p.kind))
                } else {
                    None
                };
                let take_out: bool = live.is_some() && (stored.is_some() || p.kind.is_in_tree());
                ScanPlan::Known { workspace: p.workspace.clone(), put_in, take_out }
            },
            None => {
                if self.is_put_off(id, w) {
                    return ScanPlan::PutOff;
                }
                let (kind, workspace) = self.first_place(w, active);
                ScanPlan::New { workspace, kind }
            },
        }
    }

    fn first_place(&self, w: &Scanned, active: &str) -> (r: (PlacementKind, String))
        requires
            self.wf(),
        ensures
            r.0 == first_placement(self@, w@),
            r.1@ == first_workspace(self@, w@.window, active@),
    {
        let disposition: FloatingRuleMode = resolve_disposition(w.kind, self.rule_mode(&w.window));
        let kind: PlacementKind = classify_new_window(
            disposition,
            w.app_hidden,
            w.minimized,
            w.window.fullscreen,
        );
        let workspace: String = match self.ruled_workspace(&w.window) {
            Some(name) => name,
            None => active.to_owned(),
        };
        (kind, workspace)
    }

    fn grow(&mut self, name: &str, id: u32, node: u64)
        requires
            old(self).wf(),
        ensures
            final(self).wf(),
            final(self)@ == grown(old(self)@, name@, id, node),
    {
        self.forest.add_leaf(name, Leaf { node, window: id });
        self.forest.set_first_focus(name, node);
    }

    fn place_new_window(
        &mut self,
        id: u32,
        kind: PlacementKind,
        name: &str,
        now: u64,
        reply: TreeReply,
    ) -> (r: Vec<Action>)
        requires
            old(self).wf(),
        ensures
            final(self).wf(),
            placed_new(old(self)@, id, kind, name@, now, reply, final(self)@, views(r@)),
    {
        let active: String = self.active_workspace_name();
        let here: bool = same_text(name, active.as_str());
        if kind.is_in_tree() {
            self.grow(name, id, reply.node);
        }
        let mut out: Vec<Action> = no_actions();
        let waking: bool = self.grace.is_waking(now);
        if waking && kind.is_in_tree() && !self.desk.is_shown(name) {
            out.push(Action::Park(id));
            assert(views(out@) =~= seq![ActionView::Park(id)]);
            return out;
        }
        if here && kind.is_floating() {
            out.push(Action::PlaceFloating(id));
        }
        let ghost first = views(out@);
        assert(first =~= (if kind is Floating && name@ == active@ {
            seq![ActionView::PlaceFloating(id)]
        } else {
            Seq::empty()
        }));
        let ghost mid = self@;
        if !here && !waking {
            let switched: Result<Vec<Action>, String> = self.switch_workspace(
                name,
                reply.default_focus,
            );
            let ghost seen = done(switched);
            match switched {
                Ok(more) => {
                    push_all(&mut out, more);
                },
                Err(_) => {
                    assert(first + Seq::<ActionView>::empty() =~= first);
                },
            }
            assert(views(out@) == first + (match seen {
                Ok(more) => more,
                Err(e) => Seq::empty(),
            }));
            assert(switch_outcome(mid, name@, reply.default_focus, self@, seen));
        }
        out
    }

    fn promote_from_special(&mut self, id: u32, restore: Restore, node: u64) -> (r: Vec<Action>)
        requires
            old(self).wf(),
        ensures
            final(self).wf(),
            (final(self)@, views(r@)) == promoted(old(self)@, id, restore, node),
    {
        let mut out: Vec<Action> = no_actions();
        let workspace: String = match self.placements.get(&id) {
            Some(p) => p.workspace.clone(),
            None => {
                return out;
            },
        };
        self.grow(workspace.as_str(), id, node);
        let kind: PlacementKind = match restore {
            Restore::Tiled => PlacementKind::Tiled,
            Restore::Floating => {
                out.push(Action::PlaceFloating(id));
                PlacementKind::Floating { manual: None }
            },
        };
        self.placements.insert(id, Placement { workspace, kind });
        assert(views(out@) =~= promoted(old(self)@, id, restore, node).1);
        out
    }

    fn demote_to_special(
        &mut self,
        id: u32,
        special: SpecialKind,
        restore: Restore,
        suggested: Option<u64>,
    )
        requires
            old(self).wf(),
        ensures
            final(self).wf(),
            final(self)@ == demoted(old(self)@, id, special, restore, suggested),
    {
        let (workspace, in_tree) = match self.placements.get(&id) {
            Some(p) => (p.workspace.clone(), p.kind.is_in_tree()),
            None => {
                return;
            },
        };
        if in_tree {
            let _ = self.forest.take_out(workspace.as_str(), id, suggested);
        }
        self.placements.insert(id, Placement { workspace, kind: placed_special(special, restore) });
    }

    /// Whether a window is placed where no monitor shows it.
    pub fn is_parked(&self, id: u32) -> (r: bool)
        requires
            self.wf(),
        ensures
            r == parked(self@, id),
    {
        match self.placements.get(&id) {
            Some(p) => p.kind.is_in_tree() && !self.desk.is_shown(p.workspace.as_str()),
            None => false,
        }
    }

    fn reconcile_existing_placement(
        &mut self,
        id: u32,
        live: Option<SpecialKind>,
        reply: TreeReply,
    ) -> (r: Vec<Action>)
        requires
            old(self).wf(),
        ensures
            final(self).wf(),
            (final(self)@, views(r@)) == reconciled(old(self)@, id, live, reply),
    {
        let kind: PlacementKind = match self.placements.get(&id) {
            Some(p) => p.kind,
            None => {
                return no_actions();
            },
        };
        let stored: Option<SpecialKind> = current_special(&kind);
        let mut out: Vec<Action> = no_actions();
        if stored != live {
            let restore: Restore = restore_for(&kind);
            if stored.is_some() {
                out = self.promote_from_special(id, restore, reply.node);
            }
            match live {
                Some(special) => {
                    self.demote_to_special(id, special, restore, reply.suggested);
                },
                None => {},
            }
        }
        let ghost acts = views(out@);
        if self.is_parked(id) {
            out.push(Action::Park(id));
            assert(views(out@) =~= acts.push(ActionView::Park(id)));
        }
        out
    }

    /// Keeps the user's own place of a floating window, where none was kept
    /// before.
    pub fn capture_manual_geometry(&mut self, id: u32, geometry: FloatGeometry)
        requires
            old(self).wf(),
        ensures
            final(self).wf(),
            final(self)@ == captured(old(self)@, id, geometry),
    {
        let workspace: String = match self.placements.get(&id) {
            Some(p) => match p.kind {
                PlacementKind::Floating { manual: None } => p.workspace.clone(),
                _ => {
                    return;
                },
            },
            None => {
                return;
            },
        };
        self.placements.insert(
            id,
            Placement { workspace, kind: PlacementKind::Floating { manual: Some(geometry) } },
        );
    }

    /// Takes in a window that a scan found. `active` is the workspace that was
    /// active when the scan began, and `reply` is what the trees said to what
    /// `scan_plan` asked for.
    pub fn admit_window(
        &mut self,
        id: u32,
        scanned: Scanned,
        active: &str,
        now: u64,
        reply: TreeReply,
    ) -> (r: Vec<Action>)
        requires
            old(self).wf(),
        ensures
            final(self).wf(),
            admitted(old(self)@, id, scanned@, active@, now, reply, final(self)@, views(r@)),
    {
        let ghost s = self@;
        let ghost w = scanned@;
        let known: bool = self.placements.contains(&id);
        let later: bool = self.is_put_off(id, &scanned);
        let (kind, workspace) = self.first_place(&scanned, active);
        self.grace.note_present(id);
        if later {
            let n: u8 = match self.retries.get(&id) {
                Some(n) => *n + 1,
                None => 1,
            };
            self.retries.insert(id, n);
        } else {
            let _ = self.retries.remove(&id);
        }
        let live: Option<SpecialKind> = special_kind(
            scanned.app_hidden,
            scanned.minimized,
            scanned.window.fullscreen,
        );
        let moved_to: Option<FloatGeometry> = scanned.moved_to;
        self.windows.insert(id, scanned.window);
        assert(self@ == noticed(s, id, w));
        if known {
            match moved_to {
                Some(geometry) => {
                    self.capture_manual_geometry(id, geometry);
                },
                None => {},
            }
            return self.reconcile_existing_placement(id, live, reply);
        }
        if later {
            return Vec::new();
        }
        let name: String = workspace.clone();
        self.placements.insert(id, Placement { workspace, kind });
        self.place_new_window(id, kind, name.as_str(), now, reply)
    }

    /// Ends a scan in which a new window was placed or not. Unless a mouse
    /// button is down, the active workspace is laid out.
    pub fn end_scan(&self) -> (r: Vec<Action>)
        ensures
            views(r@) == scan_ended(self@),
    {
        let mut out: Vec<Action> = no_actions();
        if !self.mouse_button_down {
            out.push(Action::Relayout(self.desk.focused()));
        }
        assert(views(out@) =~= scan_ended(self@));
        out
    }
}

/// What a window found by a scan will mean.
#[derive(Debug, PartialEq, Eq)]
pub enum ScanPlan {
    /// It is put off until its bundle id is known.
    PutOff,
    /// It is known. It is to be put into the tree of its workspace as tiled or
    /// floating, beside the workspace's focus, if `put_in` says so; then it is
    /// to be taken out of it, if `take_out` is set.
    Known { workspace: String, put_in: Option<Restore>, take_out: bool },
    /// It is new. It is to be put into the tree of a workspace, beside its
    /// focus, if it is tiled or floating.
    New { workspace: String, kind: PlacementKind },
}

/// `plan` says what admitting a window will do to the trees.
pub open spec fn planned(s: StateView, id: u32, w: ScannedView, active: Seq<char>, plan: ScanPlan) -> bool {
    match lookup(s.placements, id) {
        Some(p) => {
            let stored = special_in(p.kind);
            let live = special_of(w.app_hidden, w.minimized, w.window.fullscreen);
            plan matches ScanPlan::Known { workspace, put_in, take_out } && workspace@ == p.workspace
                && put_in == (if stored != live && stored is Some {
                Some(restore_of(p.kind))
            } else {
                None
            }) && take_out == (stored != live && live is Some && (stored is Some
                || p.kind.in_tree()))
        },
        None => if put_off(s, id, w) {
            plan is PutOff
        } else {
            plan matches ScanPlan::New { workspace, kind } && workspace@ == first_workspace(
                s,
                w.window,
                active,
            ) && kind == first_placement(s, w)
        },
    }
}

fn holds(v: &Vec<u32>, id: u32) -> (r: bool)
    ensures
        r == v@.contains(id),
{
    let mut i: usize = 0;
    while i < v.len()
        invariant
            i <= v.len(),
            forall|j: int| 0 <= j < i ==> v@[j] != id,
        decreases v.len() - i,
    {
        if v[i] == id {
            assert(v@[i as int] == id);
            return true;
        }
        i = i + 1;
    }
    false
}

/// A coordinate is greater than zero: the bit pattern of a positive double, of
/// infinity at most.
pub open spec fn positive(bits: u64) -> bool {
    0 < bits <= 0x7FF0_0000_0000_0000
}

/// A frame takes up room.
pub open spec fn takes_room(frame: crate::ipc::RectInfo) -> bool {
    positive(frame.width) && positive(frame.height)
}

/// A frame takes up room exactly if both its sides are greater than zero: not
/// zero, not below it, and not a pattern that is no number.
pub proof fn law_room_has_two_sides(frame: crate::ipc::RectInfo)
    ensures
        frame.width == 0 || frame.height == 0 ==> !takes_room(frame),
        frame.width >= 0x8000_0000_0000_0000 || frame.height >= 0x8000_0000_0000_0000
            ==> !takes_room(frame),
        frame.width > 0x7FF0_0000_0000_0000 || frame.height > 0x7FF0_0000_0000_0000 ==> !takes_room(
            frame,
        ),
        0 < frame.width <= 0x7FF0_0000_0000_0000 && 0 < frame.height <= 0x7FF0_0000_0000_0000
            ==> takes_room(frame),
{
}

/// Whether a window takes up any room. One that does not is a phantom.
pub fn has_area(frame: &crate::ipc::RectInfo) -> (r: bool)
    ensures
        r == takes_room(*frame),
{
    0 < frame.width && frame.width <= 0x7FF0_0000_0000_0000 && 0 < frame.height && frame.height
        <= 0x7FF0_0000_0000_0000
}

}
