//! Which workspace is shown where, and what a switch has to do.

use vstd::prelude::*;
use super::{
    active_name, focused_at, focused_node, parked, placed_floating, push_all, raised_focus, Action,
    ActionView, Placement, PlacementView, StateView, WmState,
};
use crate::config::views;
use crate::desk::{
    displays_changed, fresh_name, fresh_text, law_fresh_names_differ, lookup, moved, parked_by,
    resolved_target, shown, shows, shows_elsewhere, switched, DeskView, Monitor, MonitorDiff, Move,
    Switch,
};
use crate::forest::{carried_over, leaves_of, window_at, with_workspace};
use crate::ipc::MonitorTarget;
use crate::placement::PlacementKind;
use crate::text::{join3, opt_str, opt_text, outcome, same_text, texts};

verus! {

/// What is said of a workspace that is not declared.
pub open spec fn undeclared(name: Seq<char>) -> Seq<char> {
    "workspace '"@ + name + "' isn't declared in config"@
}

fn undeclared_text(name: &str) -> (r: String)
    ensures
        r@ == undeclared(name@),
{
    join3("workspace '", name, "' isn't declared in config")
}

/// Parking the tiled, or the floating, windows of what a monitor showed.
pub open spec fn park_tiled(outgoing: Option<Seq<char>>) -> Seq<ActionView> {
    match outgoing {
        Some(name) => seq![ActionView::ParkTiled(name)],
        None => Seq::empty(),
    }
}

pub open spec fn park_floating(outgoing: Option<Seq<char>>) -> Seq<ActionView> {
    match outgoing {
        Some(name) => seq![ActionView::ParkFloating(name)],
        None => Seq::empty(),
    }
}

/// Laying out a monitor and bringing its floating windows to their places.
pub open spec fn refresh(id: u32) -> Seq<ActionView> {
    seq![ActionView::Relayout(id), ActionView::RepositionFloating(id)]
}

/// The state once the focused monitor shows `name`, which `swap` showed before,
/// and what has to be done, in order. The focus goes to the node that had it
/// when the workspace was left, else to the one that its tree gives.
pub open spec fn switch_done(
    s: StateView,
    name: Seq<char>,
    swap: Option<u32>,
    default_focus: Option<u64>,
) -> (StateView, Seq<ActionView>) {
    let outgoing = lookup(s.desk.active, s.desk.focused);
    let shown = StateView { desk: switched(s.desk, name, swap), ..s };
    let restore = match lookup(s.forest.focus, name) {
        Some(node) => Some(node),
        None => default_focus,
    };
    let (focused, record) = match restore {
        Some(node) => focused_at(shown, node),
        None => (shown, Seq::empty()),
    };
    let (end, raise) = match restore {
        Some(node) => raised_focus(focused),
        None => (focused, Seq::empty()),
    };
    (
        end,
        refresh(s.desk.focused) + record + raise + (match swap {
            Some(id) => refresh(id),
            None => park_floating(outgoing) + park_tiled(outgoing),
        }),
    )
}

/// `r` and `after` are what switching to `name` gives: an error for a workspace
/// that is not declared, nothing where it is shown already.
pub open spec fn switch_outcome(
    s: StateView,
    name: Seq<char>,
    default_focus: Option<u64>,
    after: StateView,
    r: Result<Seq<ActionView>, Seq<char>>,
) -> bool {
    if !s.forest.leaves.contains_key(name) {
        r == Err::<Seq<ActionView>, Seq<char>>(undeclared(name)) && after == s
    } else if lookup(s.desk.active, s.desk.focused) == Some(name) {
        r == Ok::<Seq<ActionView>, Seq<char>>(Seq::empty()) && after == s
    } else {
        exists|swap: Option<u32>|
            shows_elsewhere(s.desk.active, name, s.desk.focused, swap) && r is Ok && (
                after,
                r->Ok_0,
            ) == #[trigger] switch_done(s, name, swap, default_focus)
    }
}

/// The actions of a result, by their views.
pub open spec fn done(r: Result<Vec<Action>, String>) -> Result<Seq<ActionView>, Seq<char>> {
    match r {
        Ok(v) => Ok(views(v@)),
        Err(e) => Err(e@),
    }
}

pub(crate) fn refresh_actions(id: u32) -> (r: Vec<Action>)
    ensures
        views(r@) == refresh(id),
{
    let mut out: Vec<Action> = Vec::new();
    out.push(Action::Relayout(id));
    out.push(Action::RepositionFloating(id));
    assert(views(out@) =~= refresh(id));
    out
}

proof fn lemma_push_text(v: Seq<String>, t: String)
    ensures
        forall|x: Seq<char>| #[trigger]
            texts(v.push(t)).contains(x) <==> texts(v).contains(x) || x == t@,
{
    let a = texts(v);
    let b = texts(v.push(t));
    assert(b =~= a.push(t@));
    assert(b[a.len() as int] == t@);
    assert forall|x: Seq<char>| #[trigger] b.contains(x) <==> a.contains(x) || x == t@ by {
        if a.contains(x) {
            let i = a.index_of(x);
            assert(b[i] == x);
        }
        if b.contains(x) && x != t@ {
            let i = b.index_of(x);
            assert(a[i] == x);
        }
    }
}

fn holds_text(v: &Vec<String>, s: &str) -> (r: bool)
    ensures
        r == texts(v@).contains(s@),
{
    let ghost all = texts(v@);
    let mut i: usize = 0;
    while i < v.len()
        invariant
            i <= v.len(),
            all == texts(v@),
            forall|j: int| 0 <= j < i ==> all[j] != s@,
        decreases v.len() - i,
    {
        assert(all[i as int] == v@[i as int]@);
        if same_text(v[i].as_str(), s) {
            assert(all.contains(all[i as int]));
            return true;
        }
        i = i + 1;
    }
    false
}

pub(crate) fn no_actions() -> (r: Vec<Action>)
    ensures
        views(r@) == Seq::<ActionView>::empty(),
{
    let out: Vec<Action> = Vec::new();
    assert(views(out@) =~= Seq::empty());
    out
}

/// The state once the cursor is over a monitor, if it is over one.
pub open spec fn under(s: StateView, under_cursor: Option<u32>) -> StateView {
    match under_cursor {
        Some(id) => if s.focus_follows_monitor {
            StateView { desk: DeskView { focused: id, ..s.desk }, ..s }
        } else {
            s
        },
        None => s,
    }
}

impl WmState {
    /// Shows a workspace on the focused monitor. `default_focus` is the node
    /// that its tree would focus by itself.
    pub fn switch_workspace(&mut self, name: &str, default_focus: Option<u64>) -> (r: Result<
        Vec<Action>,
        String,
    >)
        requires
            old(self).wf(),
        ensures
            final(self).wf(),
            switch_outcome(old(self)@, name@, default_focus, final(self)@, done(r)),
    {
        let ghost s = self@;
        if !self.forest.is_declared(name) {
            return Err(undeclared_text(name));
        }
        let monitor: u32 = self.desk.focused();
        let switch: Switch = self.desk.switch_to(name);
        let (outgoing, swap) = match switch {
            Switch::Already => {
                return Ok(no_actions());
            },
            Switch::Done { outgoing, swap } => (outgoing, swap),
        };
        let ghost shown = self@;
        assert(shown == (StateView { desk: switched(s.desk, name@, swap), ..s }));
        let mut out: Vec<Action> = refresh_actions(monitor);
        let restore: Option<u64> = match self.forest.focus(name) {
            Some(node) => Some(node),
            None => default_focus,
        };
        let ghost mut record = Seq::<ActionView>::empty();
        let ghost mut raise = Seq::<ActionView>::empty();
        match restore {
            Some(node) => {
                let a: Vec<Action> = self.set_focused_node(node);
                let ghost focused = self@;
                let b: Vec<Action> = self.raise_focused();
                proof {
                    record = views(a@);
                    raise = views(b@);
                    assert((focused, record) == focused_at(shown, node));
                    assert((self@, raise) == raised_focus(focused));
                }
                push_all(&mut out, a);
                push_all(&mut out, b);
            },
            None => {},
        }
        proof {
            assert(views(out@) =~= refresh(monitor) + record + raise);
        }
        match swap {
            Some(id) => {
                push_all(&mut out, refresh_actions(id));
            },
            None => {
                match &outgoing {
                    Some(o) => {
                        let mut parks: Vec<Action> = Vec::new();
                        parks.push(Action::ParkFloating(o.clone()));
                        parks.push(Action::ParkTiled(o.clone()));
                        assert(views(parks@) =~= park_floating(Some(o@)) + park_tiled(Some(o@)));
                        push_all(&mut out, parks);
                    },
                    None => {
                        assert(park_floating(None) + park_tiled(None) =~= Seq::empty());
                    },
                }
            },
        }
        proof {
            let want = switch_done(s, name@, swap, default_focus);
            assert(views(out@) =~= want.1);
            assert((self@, views(out@)) == want);
        }
        Ok(out)
    }

    /// Shows the workspace that the focused monitor showed before its last
    /// switch.
    pub fn switch_to_previous_workspace(&mut self, default_focus: Option<u64>) -> (r: Result<
        Vec<Action>,
        String,
    >)
        requires
            old(self).wf(),
        ensures
            final(self).wf(),
            back_outcome(old(self)@, default_focus, final(self)@, done(r)),
    {
        match self.desk.previous() {
            Some(name) => self.switch_workspace(name.as_str(), default_focus),
            None => Err("no previous workspace to switch back to".to_owned()),
        }
    }

    /// What the focused monitor showed before its last switch.
    pub fn previous_workspace(&self) -> (r: Option<String>)
        ensures
            opt_text(r) == self@.desk.previous,
    {
        self.desk.previous()
    }

    /// How many switches there were, modulo the range of the counter.
    pub fn switch_epoch(&self) -> (r: u64)
        ensures
            r == self@.desk.epoch,
    {
        self.desk.epoch()
    }

    /// Makes the next monitor the one that commands act on.
    pub fn focus_monitor_next(&mut self)
        requires
            old(self).wf(),
        ensures
            final(self).wf(),
            final(self)@ == (StateView {
                desk: if old(self)@.desk.monitors.len() < 2 {
                    old(self)@.desk
                } else {
                    DeskView {
                        focused: crate::desk::next_monitor(
                            old(self)@.desk.monitors,
                            old(self)@.desk.focused,
                        ),
                        ..old(self)@.desk
                    }
                },
                ..old(self)@
            }),
    {
        self.desk.focus_next();
    }

    /// The cursor is over a monitor, if it is over one. Where the focus follows
    /// the cursor, that monitor is the one that commands act on.
    pub fn on_mouse_moved(&mut self, under_cursor: Option<u32>)
        requires
            old(self).wf(),
        ensures
            final(self).wf(),
            final(self)@ == under(old(self)@, under_cursor),
    {
        if !self.focus_follows_monitor {
            return;
        }
        match under_cursor {
            Some(id) => {
                self.desk.set_focused(id);
            },
            None => {},
        }
    }

    /// Moves a workspace, by default the active one, to another monitor without
    /// focusing it.
    pub fn move_workspace_to_monitor(&mut self, workspace: Option<&str>, target: MonitorTarget) -> (r:
        Result<Vec<Action>, String>)
        requires
            old(self).wf(),
        ensures
            final(self).wf(),
            move_outcome(
                old(self)@,
                named_or_active(old(self)@, opt_str(workspace)),
                target,
                final(self)@,
                done(r),
            ),
    {
        let ghost s = self@;
        let name: String = match workspace {
            Some(name) => name.to_owned(),
            None => self.active_workspace_name(),
        };
        if !self.forest.is_declared(name.as_str()) {
            return Err(undeclared_text(name.as_str()));
        }
        let to: u32 = match self.desk.resolve_monitor_target(target) {
            Ok(id) => id,
            Err(e) => {
                return Err(e);
            },
        };
        let (displaced, from) = match self.desk.move_to(name.as_str(), to) {
            Move::Already => {
                return Ok(no_actions());
            },
            Move::Done { displaced, from } => (displaced, from),
        };
        let mut out: Vec<Action> = no_actions();
        match from {
            Some(id) => {},
            None => {
                match &displaced {
                    Some(d) => {
                        out.push(Action::ParkTiled(d.clone()));
                        out.push(Action::ParkFloating(d.clone()));
                    },
                    None => {},
                }
            },
        }
        proof {
            assert(views(out@) =~= (match from {
                Some(id) => Seq::empty(),
                None => park_tiled(opt_text(displaced)) + park_floating(opt_text(displaced)),
            }));
        }
        push_all(&mut out, refresh_actions(to));
        match from {
            Some(id) => {
                push_all(&mut out, refresh_actions(id));
            },
            None => {},
        }
        proof {
            let want = move_done(s, name@, to, from);
            assert(views(out@) =~= want.1);
            assert((self@, views(out@)) == want);
        }
        Ok(out)
    }

    /// The names of the workspaces that are in use, for a monitor that needs one.
    fn taken_names(&self, id: u32) -> (r: Vec<String>)
        requires
            self.wf(),
        ensures
            forall|name: Seq<char>| #[trigger] texts(r@).contains(name) <==> taken(self@, id, name),
    {
        let mut out: Vec<String> = self.desk.shown_besides(id);
        let n: usize = self.forest.count();
        let ghost names = self.forest.names();
        let mut i: usize = 0;
        while i < n
            invariant
                self.wf(),
                names == self.forest.names(),
                n == names.len(),
                i <= n,
                forall|name: Seq<char>| #[trigger] texts(out@).contains(name) ==> taken(self@, id, name),
                forall|name: Seq<char>|
                    shown(self@.desk.active.remove(id), name) ==> #[trigger] texts(out@).contains(name),
                forall|j: int|
                    0 <= j < i && leaves_of(self@.forest, #[trigger] names[j]).len() > 0 ==> texts(
                        out@,
                    ).contains(names[j]),
            decreases n - i,
        {
            let name: &str = self.forest.name_at(i);
            if self.forest.window_count(name) > 0 {
                let ghost before = out@;
                out.push(name.to_owned());
                proof {
                    lemma_push_text(before, out@.last());
                    assert(out@ =~= before.push(out@.last()));
                }
            }
            i = i + 1;
        }
        let m: usize = self.placements.len();
        let ghost order = self.placements.order();
        let mut i: usize = 0;
        proof {
            assert forall|name: Seq<char>| leaves_of(self@.forest, name).len() > 0 implies #[trigger] texts(
                out@,
            ).contains(name) by {
                assert(self@.forest.leaves.contains_key(name));
                let k = names.index_of(name);
                assert(names[k] == name);
            }
        }
        while i < m
            invariant
                self.wf(),
                order == self.placements.order(),
                m == order.len(),
                i <= m,
                forall|name: Seq<char>| #[trigger] texts(out@).contains(name) ==> taken(self@, id, name),
                forall|name: Seq<char>|
                    shown(self@.desk.active.remove(id), name) || leaves_of(self@.forest, name).len() > 0
                        ==> #[trigger] texts(out@).contains(name),
                forall|j: int|
                    0 <= j < i ==> texts(out@).contains(
                        self@.placements[#[trigger] order[j]].workspace,
                    ),
            decreases m - i,
        {
            let w: u32 = *self.placements.key_at(i);
            let name: String = self.placements.value_at(i).workspace.clone();
            let ghost before = out@;
            proof {
                assert(self@.placements.contains_key(w) && self@.placements[w].workspace == name@);
                assert(taken(self@, id, name@));
                lemma_push_text(before, name);
            }
            out.push(name);
            i = i + 1;
        }
        proof {
            assert forall|name: Seq<char>| taken(self@, id, name) implies #[trigger] texts(out@).contains(
                name,
            ) by {
                if exists|w: u32| #[trigger]
                    self@.placements.contains_key(w) && self@.placements[w].workspace == name {
                    let w = choose|w: u32| #[trigger]
                        self@.placements.contains_key(w) && self@.placements[w].workspace == name;
                    let k = order.index_of(w);
                    assert(order[k] == w);
                }
            }
        }
        out
    }

    /// The workspace that a newly connected monitor gets: the first of its names
    /// that is not in use.
    fn fresh_workspace(&self, id: u32) -> (r: String)
        requires
            self.wf(),
        ensures
            is_fresh(self@, id, r@),
    {
        let used: Vec<String> = self.taken_names(id);
        let mut k: u64 = 0;
        loop
            invariant
                self.wf(),
                k <= used@.len(),
                forall|name: Seq<char>| #[trigger]
                    texts(used@).contains(name) <==> taken(self@, id, name),
                forall|j: nat| j < k ==> taken(self@, id, #[trigger] fresh_name(id, j)),
            decreases used@.len() - k,
        {
            let name: String = fresh_text(id, k);
            if !holds_text(&used, name.as_str()) {
                assert(first_free(self@, id, k as nat));
                return name;
            }
            proof {
                assert(taken(self@, id, fresh_name(id, k as nat)));
                assert forall|j: nat| j < k + 1 implies texts(used@).contains(
                    #[trigger] fresh_name(id, j),
                ) by {
                    assert(taken(self@, id, fresh_name(id, j)));
                }
                lemma_enough_names(id, texts(used@), (k + 1) as nat);
                assert(texts(used@).len() == used@.len());
                assert(k + 1 <= used.len());
            }
            k = k + 1;
        }
    }

    /// Takes over the displays that are connected now. Each newly connected one
    /// gets a workspace without windows that no other one shows.
    pub fn on_displays_changed(&mut self, monitors: Vec<Monitor>, diff: &MonitorDiff) -> (r: Vec<
        Action,
    >)
        requires
            old(self).wf(),
        ensures
            final(self).wf(),
            displays_outcome(old(self)@, monitors@, diff, final(self)@, views(r@)),
            monitors@.len() > 0 ==> forall|i: int|
                0 <= i < diff.connected@.len() ==> shows_fresh(
                    final(self)@,
                    #[trigger] diff.connected@[i],
                ),
    {
        let ghost s = self@;
        let ghost mons = monitors@;
        if monitors.len() == 0 {
            let _ = self.desk.displays_changed(monitors, diff);
            return no_actions();
        }
        let parked: Vec<String> = self.desk.displays_changed(monitors, diff);
        let ghost names = texts(parked@);
        let mut out: Vec<Action> = no_actions();
        let mut i: usize = 0;
        assert(names.take(0) =~= Seq::empty());
        while i < parked.len()
            invariant
                i <= parked.len(),
                names == texts(parked@),
                views(out@) == park_each(names.take(i as int)),
            decreases parked.len() - i,
        {
            proof {
                assert(names.take(i + 1).drop_last() =~= names.take(i as int));
                assert(names.take(i + 1).last() == parked@[i as int]@);
            }
            let ghost before = views(out@);
            out.push(Action::ParkTiled(parked[i].clone()));
            out.push(Action::ParkFloating(parked[i].clone()));
            assert(views(out@) =~= before + seq![
                ActionView::ParkTiled(parked@[i as int]@),
                ActionView::ParkFloating(parked@[i as int]@),
            ]);
            i = i + 1;
        }
        assert(names.take(i as int) =~= names);
        let ghost mid = rearranged(s, mons, diff);
        assert(self@ == mid);
        let ghost mut given_names = Seq::<Seq<char>>::empty();
        let mut i: usize = 0;
        assert(diff.connected@.take(0) =~= Seq::empty());
        while i < diff.connected.len()
            invariant
                i <= diff.connected.len(),
                self.wf(),
                all_fresh(mid, diff.connected@.take(i as int), given_names),
                self@ == all_given(mid, diff.connected@.take(i as int), given_names),
            decreases diff.connected.len() - i,
        {
            let id: u32 = diff.connected[i];
            let name: String = self.fresh_workspace(id);
            let ghost more = given_names.push(name@);
            proof {
                assert(diff.connected@.take(i + 1).drop_last() =~= diff.connected@.take(i as int));
                assert(diff.connected@.take(i + 1).last() == id);
                assert(more.drop_last() =~= given_names);
            }
            self.forest.declare(name.as_str());
            self.desk.assign(id, name);
            proof {
                given_names = more;
            }
            i = i + 1;
        }
        assert(diff.connected@.take(i as int) =~= diff.connected@);
        let ghost before = views(out@);
        out.push(Action::RefreshAll);
        proof {
            assert(views(out@) =~= before.push(ActionView::RefreshAll));
            assert(all_fresh(mid, diff.connected@, given_names));
            lemma_all_given(mid, diff.connected@, given_names);
        }
        out
    }

    /// Makes the focused window float, or tiles it. The window is to be taken
    /// out of the active workspace's tree first, which suggests a node, and
    /// put in again beside that, which gives the node `node`; where this
    /// returns an error neither is to be done (see `floating_target`).
    pub fn set_floating(&mut self, floating: bool, suggested: Option<u64>, node: u64) -> (r: Result<
        Vec<Action>,
        String,
    >)
        requires
            old(self).wf(),
        ensures
            final(self).wf(),
            (final(self)@, done(r)) == floating_outcome(old(self)@, floating, suggested, node),
    {
        let ghost s = self@;
        let id: u32 = match self.floating_target(floating) {
            Ok(id) => id,
            Err(e) => {
                return Err(e);
            },
        };
        let name: String = self.active_workspace_name();
        let _ = self.forest.take_out(name.as_str(), id, suggested);
        self.forest.add_leaf(name.as_str(), crate::forest::Leaf { node, window: id });
        let kind: PlacementKind = if floating {
            PlacementKind::Floating { manual: None }
        } else {
            PlacementKind::Tiled
        };
        self.placements.insert(id, Placement { workspace: name, kind });
        let ghost mid = self@;
        let mut out: Vec<Action> = self.set_focused_node(node);
        let ghost record = views(out@);
        if floating {
            out.push(Action::PlaceFloating(id));
        }
        out.push(Action::Relayout(self.desk.focused()));
        proof {
            let want = floating_done(s, floating, id, suggested, node);
            assert(views(out@) =~= want.1);
            assert((self@, views(out@)) == want);
        }
        Ok(out)
    }

    /// The window that `set_floating` is about.
    pub fn floating_target(&self, floating: bool) -> (r: Result<u32, String>)
        requires
            self.wf(),
        ensures
            outcome(r) == floatable(self@, floating),
    {
        let current: u64 = match self.focused_node() {
            Some(node) => node,
            None => {
                return Err("no window is focused".to_owned());
            },
        };
        let name: String = self.active_workspace_name();
        let id: u32 = match self.forest.window_at(name.as_str(), current) {
            Some(id) => id,
            None => {
                return Err("focused window not found".to_owned());
            },
        };
        if self.placed_floating(id) == floating {
            if floating {
                Err("focused window is already floating".to_owned())
            } else {
                Err("focused window is already tiled".to_owned())
            }
        } else {
            Ok(id)
        }
    }

    /// The window that `move_focused_to_workspace` is about, `None` where it
    /// has nothing to do.
    pub fn movable_to(&self, target: &str) -> (r: Result<Option<u32>, String>)
        requires
            self.wf(),
        ensures
            outcome(r) == movable(self@, target@),
    {
        if !self.forest.is_declared(target) {
            return Err(undeclared_text(target));
        }
        let active: String = self.active_workspace_name();
        if same_text(target, active.as_str()) {
            return Ok(None);
        }
        let current: u64 = match self.focused_node() {
            Some(node) => node,
            None => {
                return Err("no window is focused".to_owned());
            },
        };
        match self.forest.window_at(active.as_str(), current) {
            Some(id) => Ok(Some(id)),
            None => Err("focused window not found".to_owned()),
        }
    }

    /// Moves the focused window to another workspace and shows that. The window
    /// is to be taken out of the active workspace's tree first, which suggests
    /// a node, and put into the other tree beside its focus, which gives the
    /// node `node`; where `movable_to` names no window neither is to be done.
    pub fn move_focused_to_workspace(
        &mut self,
        target: &str,
        suggested: Option<u64>,
        node: u64,
    ) -> (r: Result<Vec<Action>, String>)
        requires
            old(self).wf(),
        ensures
            final(self).wf(),
            carry_outcome(old(self)@, target@, suggested, node, final(self)@, done(r)),
    {
        let id: u32 = match self.movable_to(target) {
            Ok(Some(id)) => id,
            Ok(None) => {
                return Ok(no_actions());
            },
            Err(e) => {
                return Err(e);
            },
        };
        let active: String = self.active_workspace_name();
        let kind: PlacementKind = if self.placed_floating(id) {
            PlacementKind::Floating { manual: None }
        } else {
            PlacementKind::Tiled
        };
        self.forest.carry_over(active.as_str(), target, id, suggested, node);
        self.placements.insert(id, Placement { workspace: target.to_owned(), kind });
        self.switch_workspace(target, None)
    }
}

/// The workspace of a name, the active one without.
pub open spec fn named_or_active(s: StateView, name: Option<Seq<char>>) -> Seq<char> {
    match name {
        Some(n) => n,
        None => active_name(s),
    }
}

/// The state once `name`, which `from` showed, is on the monitor `to`, and what
/// has to be done, in order.
pub open spec fn move_done(s: StateView, name: Seq<char>, to: u32, from: Option<u32>) -> (
    StateView,
    Seq<ActionView>,
) {
    let displaced = lookup(s.desk.active, to);
    (
        StateView { desk: moved(s.desk, name, to, from), ..s },
        match from {
            Some(id) => refresh(to) + refresh(id),
            None => park_tiled(displaced) + park_floating(displaced) + refresh(to),
        },
    )
}

/// `r` and `after` are what moving `name` to a monitor gives.
pub open spec fn move_outcome(
    s: StateView,
    name: Seq<char>,
    target: MonitorTarget,
    after: StateView,
    r: Result<Seq<ActionView>, Seq<char>>,
) -> bool {
    if !s.forest.leaves.contains_key(name) {
        r == Err::<Seq<ActionView>, Seq<char>>(undeclared(name)) && after == s
    } else {
        match resolved_target(s.desk, target) {
            Err(e) => r == Err::<Seq<ActionView>, Seq<char>>(e) && after == s,
            Ok(to) => {
                ||| lookup(s.desk.active, to) == Some(name) && r == Ok::<
                    Seq<ActionView>,
                    Seq<char>,
                >(Seq::empty()) && after == s
                ||| exists|from: Option<u32>|
                    shows(s.desk.active, name, from) && from != Some(to) && r is Ok && (
                        after,
                        r->Ok_0,
                    ) == #[trigger] move_done(s, name, to, from)
            },
        }
    }
}

/// Parking the windows of each of some workspaces in turn.
pub open spec fn park_each(names: Seq<Seq<char>>) -> Seq<ActionView>
    decreases names.len(),
{
    if names.len() == 0 {
        Seq::empty()
    } else {
        park_each(names.drop_last()) + seq![
            ActionView::ParkTiled(names.last()),
            ActionView::ParkFloating(names.last()),
        ]
    }
}

/// A workspace is in use, for a monitor that needs one: another monitor shows
/// it, or it has windows.
pub open spec fn taken(s: StateView, id: u32, name: Seq<char>) -> bool {
    ||| shown(s.desk.active.remove(id), name)
    ||| leaves_of(s.forest, name).len() > 0
    ||| exists|w: u32| #[trigger] s.placements.contains_key(w) && s.placements[w].workspace == name
}

/// The first name for a monitor's workspace that is not in use.
pub open spec fn first_free(s: StateView, id: u32, k: nat) -> bool {
    &&& !taken(s, id, fresh_name(id, k))
    &&& forall|j: nat| j < k ==> taken(s, id, #[trigger] fresh_name(id, j))
}

/// A name is that of the workspace which a newly connected monitor gets.
pub open spec fn is_fresh(s: StateView, id: u32, name: Seq<char>) -> bool {
    exists|k: nat| #[trigger] first_free(s, id, k) && name == fresh_name(id, k)
}

/// The state once a newly connected monitor shows a workspace.
pub open spec fn given(s: StateView, id: u32, name: Seq<char>) -> StateView {
    StateView {
        desk: DeskView { active: s.desk.active.insert(id, name), ..s.desk },
        forest: with_workspace(s.forest, name),
        ..s
    }
}

/// The state once each newly connected monitor shows a workspace.
pub open spec fn all_given(s: StateView, fresh: Seq<u32>, names: Seq<Seq<char>>) -> StateView
    decreases fresh.len(),
{
    if fresh.len() == 0 || names.len() != fresh.len() {
        s
    } else {
        given(all_given(s, fresh.drop_last(), names.drop_last()), fresh.last(), names.last())
    }
}

/// Each of some newly connected monitors in turn gets a fresh workspace.
pub open spec fn all_fresh(s: StateView, fresh: Seq<u32>, names: Seq<Seq<char>>) -> bool
    decreases fresh.len(),
{
    &&& names.len() == fresh.len()
    &&& fresh.len() > 0 ==> all_fresh(s, fresh.drop_last(), names.drop_last()) && is_fresh(
        all_given(s, fresh.drop_last(), names.drop_last()),
        fresh.last(),
        names.last(),
    )
}

/// The state after the displays changed, before newly connected ones show
/// anything.
pub open spec fn rearranged(s: StateView, monitors: Seq<Monitor>, diff: &MonitorDiff) -> StateView {
    StateView {
        desk: displays_changed(s.desk, monitors, diff.renamed@, diff.disconnected@),
        ..s
    }
}

/// `after` and `acts` are what a change of the displays gives. Newly connected
/// ones get workspaces of their own.
pub open spec fn displays_outcome(
    s: StateView,
    monitors: Seq<Monitor>,
    diff: &MonitorDiff,
    after: StateView,
    acts: Seq<ActionView>,
) -> bool {
    if monitors.len() == 0 {
        after == s && acts.len() == 0
    } else {
        &&& exists|names: Seq<Seq<char>>| #[trigger]
            all_fresh(rearranged(s, monitors, diff), diff.connected@, names) && after == all_given(
                rearranged(s, monitors, diff),
                diff.connected@,
                names,
            )
        &&& acts == park_each(
            parked_by(
                crate::desk::after_renames(s.desk.active, s.desk.focused, diff.renamed@).0,
                diff.disconnected@,
            ),
        ).push(ActionView::RefreshAll)
    }
}

/// A monitor shows a workspace without windows that no other monitor shows.
pub open spec fn shows_fresh(s: StateView, id: u32) -> bool {
    &&& s.desk.active.contains_key(id)
    &&& !taken(s, id, s.desk.active[id])
    &&& s.forest.leaves.contains_key(s.desk.active[id])
}

proof fn lemma_given(s: StateView, id: u32, name: Seq<char>)
    requires
        is_fresh(s, id, name),
    ensures
        shows_fresh(given(s, id, name), id),
        forall|other: u32| other != id && #[trigger] shows_fresh(s, other) ==> shows_fresh(
            given(s, id, name),
            other,
        ),
        forall|n: Seq<char>| #[trigger]
            leaves_of(given(s, id, name).forest, n) == leaves_of(s.forest, n),
{
    let t = given(s, id, name);
    assert forall|n: Seq<char>| #[trigger] leaves_of(t.forest, n) == leaves_of(s.forest, n) by {
        if n == name {
            assert(t.forest.leaves.contains_key(n));
        }
    }
    assert(t.desk.active.remove(id) =~= s.desk.active.remove(id));
    assert forall|other: u32| other != id && #[trigger] shows_fresh(s, other) implies shows_fresh(
        t,
        other,
    ) by {
        let mine = s.desk.active[other];
        let rest = t.desk.active.remove(other);
        assert(s.desk.active.remove(id).contains_key(other));
        assert(mine != name);
        if shown(rest, mine) {
            let m = choose|m: u32| #[trigger] rest.contains_key(m) && rest[m] == mine;
            assert(s.desk.active.remove(other).contains_key(m));
        }
    }
}

proof fn lemma_all_given(s: StateView, fresh: Seq<u32>, names: Seq<Seq<char>>)
    requires
        all_fresh(s, fresh, names),
    ensures
        forall|i: int|
            0 <= i < fresh.len() ==> shows_fresh(all_given(s, fresh, names), #[trigger] fresh[i]),
    decreases fresh.len(),
{
    if fresh.len() > 0 {
        let rest = fresh.drop_last();
        let mid = all_given(s, rest, names.drop_last());
        lemma_all_given(s, rest, names.drop_last());
        lemma_given(mid, fresh.last(), names.last());
        assert forall|i: int| 0 <= i < fresh.len() implies shows_fresh(
            all_given(s, fresh, names),
            #[trigger] fresh[i],
        ) by {
            if fresh[i] != fresh.last() {
                assert(rest[i] == fresh[i]);
                assert(shows_fresh(mid, rest[i]));
            }
        }
    }
}

/// Every newly connected monitor gets a workspace of its own: one without
/// windows, which no other monitor shows.
pub proof fn law_connected_monitors_get_fresh_workspaces(
    s: StateView,
    monitors: Seq<Monitor>,
    diff: &MonitorDiff,
    after: StateView,
    acts: Seq<ActionView>,
)
    requires
        displays_outcome(s, monitors, diff, after, acts),
        monitors.len() > 0,
    ensures
        forall|i: int|
            0 <= i < diff.connected@.len() ==> shows_fresh(after, #[trigger] diff.connected@[i]),
{
    let mid = rearranged(s, monitors, diff);
    let names = choose|names: Seq<Seq<char>>| #[trigger]
        all_fresh(mid, diff.connected@, names) && after == all_given(mid, diff.connected@, names);
    lemma_all_given(mid, diff.connected@, names);
}

/// A name that is not in use is found among as many as are in use, and one more.
proof fn lemma_enough_names(id: u32, used: Seq<Seq<char>>, k: nat)
    requires
        forall|j: nat| j < k ==> used.contains(#[trigger] fresh_name(id, j)),
    ensures
        k <= used.len(),
{
    let tried = Seq::new(k, |j: int| fresh_name(id, j as nat));
    assert(tried.no_duplicates()) by {
        assert forall|i: int, j: int| 0 <= i < tried.len() && 0 <= j < tried.len() && i
            != j implies tried[i] != tried[j] by {
            if tried[i] == tried[j] {
                law_fresh_names_differ(id, i as nat, j as nat);
            }
        }
    }
    tried.unique_seq_to_set();
    used.lemma_cardinality_of_set();
    assert(tried.to_set().subset_of(used.to_set())) by {
        assert forall|x: Seq<char>| tried.to_set().contains(x) implies used.to_set().contains(x) by {
            let j = tried.index_of(x);
            assert(x == fresh_name(id, j as nat));
        }
    }
    vstd::set_lib::lemma_len_subset(tried.to_set(), used.to_set());
}

/// The window that can be made to float, or be tiled: the focused one, where it
/// is not so already.
pub open spec fn floatable(s: StateView, floating: bool) -> Result<u32, Seq<char>> {
    match focused_node(s) {
        None => Err("no window is focused"@),
        Some(node) => match window_at(s.forest, active_name(s), node) {
            None => Err("focused window not found"@),
            Some(id) => if placed_floating(s, id) != floating {
                Ok(id)
            } else if floating {
                Err("focused window is already floating"@)
            } else {
                Err("focused window is already tiled"@)
            },
        },
    }
}

/// The state once a window floats, or is tiled, at its new node, and what has
/// to be done, in order.
pub open spec fn floating_done(
    s: StateView,
    floating: bool,
    id: u32,
    suggested: Option<u64>,
    node: u64,
) -> (StateView, Seq<ActionView>) {
    let name = active_name(s);
    let placed = StateView {
        forest: crate::forest::with_leaf(
            crate::forest::taken_out(s.forest, name, id, suggested),
            name,
            crate::forest::Leaf { node, window: id },
        ),
        placements: s.placements.insert(
            id,
            PlacementView {
                workspace: name,
                kind: if floating {
                    PlacementKind::Floating { manual: None }
                } else {
                    PlacementKind::Tiled
                },
            },
        ),
        ..s
    };
    let (end, record) = focused_at(placed, node);
    (
        end,
        if floating {
            record + seq![ActionView::PlaceFloating(id), ActionView::Relayout(s.desk.focused)]
        } else {
            record + seq![ActionView::Relayout(s.desk.focused)]
        },
    )
}

/// The window that can be moved to a workspace: the focused one. `None` where
/// the workspace is the active one.
pub open spec fn movable(s: StateView, target: Seq<char>) -> Result<Option<u32>, Seq<char>> {
    if !s.forest.leaves.contains_key(target) {
        Err(undeclared(target))
    } else if target == active_name(s) {
        Ok(None)
    } else {
        match focused_node(s) {
            None => Err("no window is focused"@),
            Some(node) => match window_at(s.forest, active_name(s), node) {
                None => Err("focused window not found"@),
                Some(id) => Ok(Some(id)),
            },
        }
    }
}

/// The state once a window was carried to another workspace, floating there if
/// it did before.
pub open spec fn carried(
    s: StateView,
    target: Seq<char>,
    id: u32,
    suggested: Option<u64>,
    node: u64,
) -> StateView {
    StateView {
        forest: carried_over(s.forest, active_name(s), target, id, suggested, node),
        placements: s.placements.insert(
            id,
            PlacementView {
                workspace: target,
                kind: if placed_floating(s, id) {
                    PlacementKind::Floating { manual: None }
                } else {
                    PlacementKind::Tiled
                },
            },
        ),
        ..s
    }
}

/// The outcome of making the focused window float, or tiling it.
pub open spec fn floating_outcome(
    s: StateView,
    floating: bool,
    suggested: Option<u64>,
    node: u64,
) -> (StateView, Result<Seq<ActionView>, Seq<char>>) {
    match floatable(s, floating) {
        Ok(id) => {
            let (end, acts) = floating_done(s, floating, id, suggested, node);
            (end, Ok(acts))
        },
        Err(e) => (s, Err(e)),
    }
}

/// `r` and `after` are what moving the focused window to a workspace gives.
pub open spec fn carry_outcome(
    s: StateView,
    target: Seq<char>,
    suggested: Option<u64>,
    node: u64,
    after: StateView,
    r: Result<Seq<ActionView>, Seq<char>>,
) -> bool {
    match movable(s, target) {
        Ok(Some(id)) => switch_outcome(
            carried(s, target, id, suggested, node),
            target,
            None,
            after,
            r,
        ),
        Ok(None) => r == Ok::<Seq<ActionView>, Seq<char>>(Seq::empty()) && after == s,
        Err(e) => r == Err::<Seq<ActionView>, Seq<char>>(e) && after == s,
    }
}

/// `r` and `after` are what switching back to the previous workspace gives.
pub open spec fn back_outcome(
    s: StateView,
    default_focus: Option<u64>,
    after: StateView,
    r: Result<Seq<ActionView>, Seq<char>>,
) -> bool {
    match s.desk.previous {
        Some(name) => switch_outcome(s, name, default_focus, after, r),
        None => {
            &&& r == Err::<Seq<ActionView>, Seq<char>>("no previous workspace to switch back to"@)
            &&& after == s
        },
    }
}

}
