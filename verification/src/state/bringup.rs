//! Bringing a window into view: on request, or because its application came to
//! the front.

use vstd::prelude::*;
use super::{focused_at, push_all, raised, Action, ActionView, StateView, WindowView, WmState};
use super::switching::{done, no_actions, switch_outcome};
use crate::config::views;
use crate::desk::{lookup, shown, DeskView};
use crate::forest::{node_of, with_focus};
use crate::grace::waking;
use crate::placement::{is_system_ui_bundle, system_ui_bundle, PlacementKind};
use crate::text::{contains, contains_text, join3, opt_str};

verus! {

/// A window's title or bundle id contains a text.
pub open spec fn answers_to(w: WindowView, query: Seq<char>) -> bool {
    contains_text(w.title, query) || (w.bundle_id is Some && contains_text(w.bundle_id->0, query))
}

/// `mid` and `r` are what bringing a workspace into view gives: the monitor
/// that shows it gets the focus, or else the focused monitor switches to it.
pub open spec fn brought_up(
    s: StateView,
    name: Seq<char>,
    default_focus: Option<u64>,
    mid: StateView,
    r: Result<Seq<ActionView>, Seq<char>>,
) -> bool {
    if shown(s.desk.active, name) {
        &&& r == Ok::<Seq<ActionView>, Seq<char>>(Seq::empty())
        &&& s.desk.active.contains_key(mid.desk.focused)
        &&& s.desk.active[mid.desk.focused] == name
        &&& mid == (StateView { desk: DeskView { focused: mid.desk.focused, ..s.desk }, ..s })
    } else {
        switch_outcome(s, name, default_focus, mid, r)
    }
}

/// The state after the focus of the active workspace went to a window of
/// another, or the same, workspace: nothing where it has no node.
pub open spec fn focus_given(s: StateView, id: u32) -> (StateView, Seq<ActionView>) {
    match lookup(s.placements, id) {
        Some(p) => match node_of(s.forest, p.workspace, id) {
            Some(node) => if p.kind.in_tree() {
                focused_at(s, node)
            } else {
                (s, Seq::empty())
            },
            None => (s, Seq::empty()),
        },
        None => (s, Seq::empty()),
    }
}

/// The state after the focus went to a window and it was raised.
pub open spec fn attended(s: StateView, id: u32) -> (StateView, Seq<ActionView>) {
    let (focused, record) = focus_given(s, id);
    let (end, raise) = raised(focused, id);
    (end, record + raise)
}

/// `after` and `r` are what summoning a window gives.
pub open spec fn summoned(
    s: StateView,
    id: u32,
    default_focus: Option<u64>,
    after: StateView,
    r: Result<Seq<ActionView>, Seq<char>>,
) -> bool {
    match lookup(s.placements, id) {
        None => r == Err::<Seq<ActionView>, Seq<char>>("window has no placement"@) && after == s,
        Some(p) => exists|mid: StateView, up: Result<Seq<ActionView>, Seq<char>>| #[trigger]
            brought_up(s, p.workspace, default_focus, mid, up) && (match up {
                Err(e) => r == up && after == mid,
                Ok(acts) => r == Ok::<Seq<ActionView>, Seq<char>>(acts + attended(mid, id).1)
                    && after == attended(mid, id).0,
            }),
    }
}

/// A window answers to a text, and none with a lesser id does.
pub open spec fn first_to_answer(s: StateView, query: Seq<char>, id: u32) -> bool {
    &&& s.windows.contains_key(id)
    &&& answers_to(s.windows[id], query)
    &&& forall|x: u32| #[trigger]
        s.windows.contains_key(x) && answers_to(s.windows[x], query) ==> id <= x
}

/// The window that a text summons: of those that answer to it, the one with the
/// least id.
pub open spec fn summoned_by(s: StateView, query: Seq<char>) -> Option<u32> {
    if exists|id: u32| #[trigger] s.windows.contains_key(id) && answers_to(s.windows[id], query) {
        Some(choose|id: u32| first_to_answer(s, query, id))
    } else {
        None
    }
}

/// `after` and `r` are what summoning by a text gives: there is an error where
/// no window answers to it.
pub open spec fn summon_outcome(
    s: StateView,
    query: Seq<char>,
    default_focus: Option<u64>,
    after: StateView,
    r: Result<Seq<ActionView>, Seq<char>>,
) -> bool {
    match summoned_by(s, query) {
        Some(id) => summoned(s, id, default_focus, after, r),
        None => r == Err::<Seq<ActionView>, Seq<char>>("no window matching '"@ + query + "'"@)
            && after == s,
    }
}

/// The application owns a window that is there and is no passing popup.
pub open spec fn lives(s: StateView, pid: i32) -> bool {
    exists|id: u32| #[trigger]
        s.windows.contains_key(id) && s.windows[id].pid == pid && !s.grace.missing.contains_key(id)
            && !(s.placements.contains_key(id) && s.placements[id].kind is Popup)
}

/// The application that was in front lost its last window, so that another one
/// comes to the front by itself. That is not told of the system's own
/// applications, which never own a lasting window.
pub open spec fn fell_back(s: StateView, previous_bundle: Option<Seq<char>>) -> bool {
    match s.last_frontmost_pid {
        Some(previous) => !(previous_bundle is Some && system_ui_bundle(previous_bundle->0))
            && !lives(s, previous),
        None => false,
    }
}

/// A parked window of the application in front is not brought into view: the
/// application did not change, or not by the user's doing, or it is too early
/// to tell.
pub open spec fn stays_parked(
    s: StateView,
    pid: i32,
    previous_bundle: Option<Seq<char>>,
    allow_unchanged_pid: bool,
    now: u64,
) -> bool {
    ||| s.last_frontmost_pid == Some(pid) && !allow_unchanged_pid
    ||| fell_back(s, previous_bundle)
    ||| exists|p: i32| s.grace.launches.contains_key(p)
    ||| waking(s.grace, now)
}

/// The state in which `pid` is known to be in front.
pub open spec fn in_front(s: StateView, pid: i32) -> StateView {
    StateView { last_frontmost_pid: Some(pid), ..s }
}

/// `after` and `acts` are what bringing the focused window `id` of the
/// application in front into view gives.
pub open spec fn revealed(
    s: StateView,
    pid: i32,
    id: u32,
    previous_bundle: Option<Seq<char>>,
    allow_unchanged_pid: bool,
    now: u64,
    default_focus: Option<u64>,
    after: StateView,
    acts: Seq<ActionView>,
) -> bool {
    let front = in_front(s, pid);
    match lookup(s.placements, id) {
        None => after == front && acts.len() == 0,
        Some(p) => if !shown(s.desk.active, p.workspace) && (stays_parked(
            s,
            pid,
            previous_bundle,
            allow_unchanged_pid,
            now,
        ) || !s.forest.leaves.contains_key(p.workspace)) {
            after == front && acts.len() == 0
        } else {
            exists|mid: StateView, up: Result<Seq<ActionView>, Seq<char>>| #[trigger]
                brought_up(front, p.workspace, default_focus, mid, up) && up is Ok && ({
                    let (focused, record) = focus_given(mid, id);
                    let moved = !shown(s.desk.active, p.workspace) || mid.desk.focused
                        != s.desk.focused;
                    let (end, raise) = if s.last_frontmost_pid != Some(pid) || moved {
                        raised(focused, id)
                    } else {
                        (focused, Seq::empty())
                    };
                    after == end && acts == up->Ok_0 + record + raise
                })
        },
    }
}

/// Some launched application is without windows yet.
pub open spec fn launching(s: StateView) -> bool {
    exists|pid: i32| s.grace.launches.contains_key(pid)
}

/// The state after the focus of a window's workspace went to it, as the system
/// has it already: nothing for a window without a node, or one that has it.
pub open spec fn focus_synced(s: StateView, id: u32) -> (StateView, Seq<ActionView>) {
    match lookup(s.placements, id) {
        Some(p) => match node_of(s.forest, p.workspace, id) {
            Some(node) => if p.kind.in_tree() && lookup(s.forest.focus, p.workspace) != Some(node) {
                (
                    StateView { forest: with_focus(s.forest, p.workspace, node), ..s },
                    seq![ActionView::RecordFocus { workspace: p.workspace, node }],
                )
            } else {
                (s, Seq::empty())
            },
            None => (s, Seq::empty()),
        },
        None => (s, Seq::empty()),
    }
}

/// `after` and `acts` are what the application in front gives, by its focused
/// window, if it has one.
pub open spec fn front_revealed(
    s: StateView,
    pid: i32,
    focused: Option<u32>,
    previous_bundle: Option<Seq<char>>,
    allow_unchanged_pid: bool,
    now: u64,
    default_focus: Option<u64>,
    after: StateView,
    acts: Seq<ActionView>,
) -> bool {
    match focused {
        Some(id) => revealed(
            s,
            pid,
            id,
            previous_bundle,
            allow_unchanged_pid,
            now,
            default_focus,
            after,
            acts,
        ),
        None => after == s && acts.len() == 0,
    }
}

/// `after` and `acts` are what whatever is in front gives. Nothing is brought
/// into view while an application is launching.
pub open spec fn frontmost_revealed(
    s: StateView,
    frontmost: Option<i32>,
    focused: Option<u32>,
    previous_bundle: Option<Seq<char>>,
    allow_unchanged_pid: bool,
    now: u64,
    default_focus: Option<u64>,
    after: StateView,
    acts: Seq<ActionView>,
) -> bool {
    match frontmost {
        Some(pid) if !launching(s) => front_revealed(
            s,
            pid,
            focused,
            previous_bundle,
            allow_unchanged_pid,
            now,
            default_focus,
            after,
            acts,
        ),
        _ => after == s && acts.len() == 0,
    }
}

/// The state after the focus went to the window that the system has focused, if
/// there is one.
pub open spec fn focus_followed(s: StateView, focused: Option<u32>) -> (StateView, Seq<ActionView>) {
    match focused {
        Some(id) => focus_synced(s, id),
        None => (s, Seq::empty()),
    }
}

impl WmState {
    fn bring_up(&mut self, name: &str, default_focus: Option<u64>) -> (r: Result<
        Vec<Action>,
        String,
    >)
        requires
            old(self).wf(),
        ensures
            final(self).wf(),
            brought_up(old(self)@, name@, default_focus, final(self)@, done(r)),
    {
        match self.desk.shown_on(name) {
            Some(id) => {
                assert(shown(self@.desk.active, name@));
                self.desk.set_focused(id);
                Ok(no_actions())
            },
            None => self.switch_workspace(name, default_focus),
        }
    }

    fn give_focus(&mut self, id: u32) -> (r: Vec<Action>)
        requires
            old(self).wf(),
        ensures
            final(self).wf(),
            (final(self)@, views(r@)) == focus_given(old(self)@, id),
    {
        let node: Option<u64> = match self.placements.get(&id) {
            Some(p) => {
                if p.kind.is_in_tree() {
                    self.forest.node_of(p.workspace.as_str(), id)
                } else {
                    None
                }
            },
            None => None,
        };
        match node {
            Some(n) => self.set_focused_node(n),
            None => no_actions(),
        }
    }

    /// Focuses and raises a window whose title or bundle id contains a text,
    /// and brings its workspace into view. `default_focus` is the node that the
    /// tree of a workspace gives, for one that has to be switched to.
    pub fn summon(&mut self, query: &str, default_focus: Option<u64>) -> (r: Result<
        Vec<Action>,
        String,
    >)
        requires
            old(self).wf(),
        ensures
            final(self).wf(),
            summon_outcome(old(self)@, query@, default_focus, final(self)@, done(r)),
    {
        let ghost s = self@;
        let id: u32 = match self.summon_target(query) {
            Some(id) => id,
            None => {
                return Err(join3("no window matching '", query, "'"));
            },
        };
        let name: String = match self.placements.get(&id) {
            Some(p) => p.workspace.clone(),
            None => {
                return Err("window has no placement".to_owned());
            },
        };
        let up: Result<Vec<Action>, String> = self.bring_up(name.as_str(), default_focus);
        let ghost mid = self@;
        let ghost seen = done(up);
        proof {
            assert(brought_up(s, name@, default_focus, mid, seen));
        }
        let mut out: Vec<Action> = match up {
            Ok(acts) => acts,
            Err(e) => {
                assert(brought_up(s, s.placements[id].workspace, default_focus, mid, seen));
                assert(summoned(s, id, default_focus, mid, seen));
                return Err(e);
            },
        };
        let ghost first = views(out@);
        let a: Vec<Action> = self.give_focus(id);
        let ghost record = views(a@);
        let b: Vec<Action> = self.raise_focused_window(id);
        let ghost raise = views(b@);
        push_all(&mut out, a);
        push_all(&mut out, b);
        proof {
            assert(first + record + raise =~= first + (record + raise));
            assert(summoned(s, id, default_focus, self@, Ok(views(out@))));
        }
        Ok(out)
    }

    /// Of the windows whose title or bundle id contains a text, the one with the
    /// least id.
    pub fn summon_target(&self, query: &str) -> (r: Option<u32>)
        requires
            self.wf(),
        ensures
            r == summoned_by(self@, query@),
    {
        let n: usize = self.windows.len();
        let ghost order = self.windows.order();
        let mut best: Option<u32> = None;
        let mut i: usize = 0;
        while i < n
            invariant
                self.wf(),
                order == self.windows.order(),
                n == order.len(),
                i <= n,
                forall|j: int| 0 <= j < n ==> self@.windows.contains_key(#[trigger] order[j]),
                match best {
                    Some(b) => self@.windows.contains_key(b) && answers_to(self@.windows[b], query@)
                        && forall|j: int|
                        0 <= j < i && answers_to(self@.windows[#[trigger] order[j]], query@) ==> b
                            <= order[j],
                    None => forall|j: int|
                        0 <= j < i ==> !answers_to(self@.windows[#[trigger] order[j]], query@),
                },
            decreases n - i,
        {
            let id: u32 = *self.windows.key_at(i);
            let w: &super::Window = self.windows.value_at(i);
            let in_bundle: bool = match &w.bundle_id {
                Some(b) => contains(b.as_str(), query),
                None => false,
            };
            let answers: bool = in_bundle || contains(w.title.as_str(), query);
            let less: bool = match best {
                Some(b) => id < b,
                None => true,
            };
            if answers && less {
                best = Some(id);
            }
            i = i + 1;
        }
        proof {
            assert forall|x: u32| #[trigger] self@.windows.contains_key(x) && answers_to(
                self@.windows[x],
                query@,
            ) implies best is Some && best->0 <= x by {
                assert(order.contains(x));
                let k = order.index_of(x);
                assert(answers_to(self@.windows[order[k]], query@));
            }
            match best {
                Some(b) => {
                    assert(first_to_answer(self@, query@, b));
                    let other = choose|id: u32| first_to_answer(self@, query@, id);
                    assert(first_to_answer(self@, query@, other));
                    assert(self@.windows.contains_key(b) && self@.windows.contains_key(other));
                },
                None => {},
            }
        }
        best
    }

    /// Whether an application owns a window that is there and is no passing
    /// popup.
    fn owns_live_window(&self, pid: i32) -> (r: bool)
        requires
            self.wf(),
        ensures
            r == lives(self@, pid),
    {
        let n: usize = self.windows.len();
        let ghost order = self.windows.order();
        let mut i: usize = 0;
        while i < n
            invariant
                self.wf(),
                order == self.windows.order(),
                n == order.len(),
                i <= n,
                forall|j: int| #![trigger order[j]]
                    0 <= j < i ==> !(self@.windows[order[j]].pid == pid
                        && !self@.grace.missing.contains_key(order[j]) && !(
                    self@.placements.contains_key(order[j])
                        && self@.placements[order[j]].kind is Popup)),
            decreases n - i,
        {
            let id: u32 = *self.windows.key_at(i);
            if self.windows.value_at(i).pid == pid && !self.grace.is_missing(id) {
                let popup: bool = match self.placements.get(&id) {
                    Some(p) => match p.kind {
                        PlacementKind::Popup => true,
                        _ => false,
                    },
                    None => false,
                };
                if !popup {
                    assert(self@.windows.contains_key(id));
                    return true;
                }
            }
            i = i + 1;
        }
        proof {
            assert(!lives(self@, pid)) by {
                if lives(self@, pid) {
                    let id = choose|id: u32| #[trigger]
                        self@.windows.contains_key(id) && self@.windows[id].pid == pid
                            && !self@.grace.missing.contains_key(id) && !(
                        self@.placements.contains_key(id) && self@.placements[id].kind is Popup);
                    assert(order.contains(id));
                    let k = order.index_of(id);
                    assert(order[k] == id);
                }
            }
        }
        false
    }

    /// The application `pid` is in front, with the focused window `focused`, if
    /// it has one. Brings that into view where the user seems to have asked for
    /// it. `previous_bundle` is the bundle id of the application that was in
    /// front before, `default_focus` the node that the tree of a workspace
    /// gives.
    pub fn reveal_frontmost(
        &mut self,
        pid: i32,
        focused: Option<u32>,
        previous_bundle: Option<&str>,
        allow_unchanged_pid: bool,
        now: u64,
        default_focus: Option<u64>,
    ) -> (r: Vec<Action>)
        requires
            old(self).wf(),
        ensures
            final(self).wf(),
            front_revealed(
                old(self)@,
                pid,
                focused,
                opt_str(previous_bundle),
                allow_unchanged_pid,
                now,
                default_focus,
                final(self)@,
                views(r@),
            ),
    {
        let ghost s = self@;
        let id: u32 = match focused {
            Some(id) => id,
            None => {
                return Vec::new();
            },
        };
        let previous: Option<i32> = self.last_frontmost_pid;
        let unchanged: bool = match previous {
            Some(p) => p == pid,
            None => false,
        };
        let fell: bool = match previous {
            Some(p) => !is_system_ui_bundle(previous_bundle) && !self.owns_live_window(p),
            None => false,
        };
        self.last_frontmost_pid = Some(pid);
        let ghost front = self@;
        assert(front == in_front(s, pid));
        let name: String = match self.placements.get(&id) {
            Some(p) => p.workspace.clone(),
            None => {
                return no_actions();
            },
        };
        let visible: bool = self.desk.is_shown(name.as_str());
        if !visible {
            if (unchanged && !allow_unchanged_pid) || fell || self.grace.is_launching()
                || self.grace.is_waking(now) {
                return no_actions();
            }
        }
        let before: u32 = self.desk.focused();
        let up: Result<Vec<Action>, String> = self.bring_up(name.as_str(), default_focus);
        let ghost mid = self@;
        let ghost seen = done(up);
        proof {
            assert(brought_up(front, name@, default_focus, mid, seen));
        }
        let mut out: Vec<Action> = match up {
            Ok(acts) => acts,
            Err(_) => {
                return no_actions();
            },
        };
        let moved: bool = !visible || self.desk.focused() != before;
        let ghost first = views(out@);
        let a: Vec<Action> = self.give_focus(id);
        let ghost record = views(a@);
        push_all(&mut out, a);
        if !unchanged || moved {
            let b: Vec<Action> = self.raise_focused_window(id);
            push_all(&mut out, b);
        } else {
            assert(views(out@) + Seq::<ActionView>::empty() =~= views(out@));
        }
        out
    }

    /// The window `id` has the system's focus: so it has that of its workspace.
    pub fn sync_focus(&mut self, id: u32) -> (r: Vec<Action>)
        requires
            old(self).wf(),
        ensures
            final(self).wf(),
            (final(self)@, views(r@)) == focus_synced(old(self)@, id),
    {
        let (name, in_tree) = match self.placements.get(&id) {
            Some(p) => (p.workspace.clone(), p.kind.is_in_tree()),
            None => {
                return no_actions();
            },
        };
        if !in_tree {
            return no_actions();
        }
        let node: u64 = match self.forest.node_of(name.as_str(), id) {
            Some(node) => node,
            None => {
                return no_actions();
            },
        };
        match self.forest.focus(name.as_str()) {
            Some(n) => {
                if n == node {
                    return no_actions();
                }
            },
            None => {},
        }
        self.forest.set_focus(name.as_str(), node);
        let mut out: Vec<Action> = no_actions();
        out.push(Action::RecordFocus { workspace: name, node });
        assert(views(out@) =~= focus_synced(old(self)@, id).1);
        out
    }

    /// The application that was last known to be in front.
    pub fn last_frontmost_pid(&self) -> (r: Option<i32>)
        ensures
            r == self@.last_frontmost_pid,
    {
        self.last_frontmost_pid
    }

    /// The window `focused`, if there is one, has the system's focus. Every
    /// command acts on what the user looks at, so this comes before each.
    pub fn sync_focus_from_frontmost(&mut self, focused: Option<u32>) -> (r: Vec<Action>)
        requires
            old(self).wf(),
        ensures
            final(self).wf(),
            (final(self)@, views(r@)) == focus_followed(old(self)@, focused),
    {
        match focused {
            Some(id) => self.sync_focus(id),
            None => no_actions(),
        }
    }

    /// Brings the application `frontmost`, if there is one, into view as
    /// `reveal_frontmost` does, but not while some launched application is
    /// without windows.
    pub fn reveal_current_frontmost(
        &mut self,
        frontmost: Option<i32>,
        focused: Option<u32>,
        previous_bundle: Option<&str>,
        allow_unchanged_pid: bool,
        now: u64,
        default_focus: Option<u64>,
    ) -> (r: Vec<Action>)
        requires
            old(self).wf(),
        ensures
            final(self).wf(),
            frontmost_revealed(
                old(self)@,
                frontmost,
                focused,
                opt_str(previous_bundle),
                allow_unchanged_pid,
                now,
                default_focus,
                final(self)@,
                views(r@),
            ),
    {
        if self.is_launching() {
            return Vec::new();
        }
        match frontmost {
            Some(pid) => self.reveal_frontmost(
                pid,
                focused,
                previous_bundle,
                allow_unchanged_pid,
                now,
                default_focus,
            ),
            None => Vec::new(),
        }
    }

    /// Whether some launched application is without windows yet. While one is,
    /// the application in front is not to be asked for.
    pub fn is_launching(&self) -> (r: bool)
        requires
            self.wf(),
        ensures
            r == launching(self@),
    {
        self.grace.is_launching()
    }
}

}
