//! What the state says of windows, workspaces and layouts.

use vstd::prelude::*;
use super::{floats_on, parked, placed_floating, StateView, Window, WindowView, WmState};
use crate::config::{FloatingDefaults, FloatingRuleView, Gaps, Ratio};
use crate::desk::{connected, lookup, monitor_report, shown, shows};
use crate::forest::{leaves_of, window_at, ForestView, Leaf};
use crate::ipc::{MonitorInfo, PlacementInfo, RectInfo, WindowInfo, WorkspaceInfo};
use crate::placement::{
    cascade_steps, cascade_steps_of, placement_info, reported, FloatGeometry, PlacementKind,
};
use crate::rules::{applying_rule, matching_floating_rule};
use crate::text::{is_less, law_text_order, opt_text, text_less};

verus! {

/// What is reported of a window.
pub open spec fn window_report(s: StateView, id: u32, info: WindowInfo) -> bool {
    &&& s.windows.contains_key(id)
    &&& info.id == id
    &&& info.pid == s.windows[id].pid
    &&& info.title@ == s.windows[id].title
    &&& info.frame == s.windows[id].frame
    &&& info.placement == (match lookup(s.placements, id) {
        Some(p) => reported(p.kind),
        None => PlacementInfo::Tiled,
    })
}

/// What is reported of a workspace.
pub open spec fn workspace_report(s: StateView, name: Seq<char>, info: WorkspaceInfo) -> bool {
    &&& info.name@ == name
    &&& info.active == shown(s.desk.active, name)
    &&& info.window_count == leaves_of(s.forest, name).len()
    &&& shows(s.desk.active, name, info.monitor)
}

/// The state once a window, if it is known, was put somewhere.
pub open spec fn framed_at(s: StateView, id: u32, frame: RectInfo) -> StateView {
    match lookup(s.windows, id) {
        Some(w) => StateView {
            windows: s.windows.insert(id, WindowView { frame, ..w }),
            ..s
        },
        None => s,
    }
}

/// Every known window is reported once.
pub open spec fn windows_listed(s: StateView, v: Seq<WindowInfo>) -> bool {
    &&& v.len() == s.windows.len()
    &&& forall|i: int| 0 <= i < v.len() ==> window_report(s, (#[trigger] v[i]).id, v[i])
    &&& forall|i: int, j: int| 0 <= i < j < v.len() ==> (#[trigger] v[i]).id != (#[trigger] v[j]).id
}

/// Every connected monitor is reported, in order.
pub open spec fn monitors_listed(s: StateView, v: Seq<MonitorInfo>) -> bool {
    &&& v.len() == s.desk.monitors.len()
    &&& forall|i: int|
        0 <= i < v.len() ==> monitor_report(s.desk, s.desk.monitors[i], #[trigger] v[i])
}

/// Every workspace is reported once, in the order of their names.
pub open spec fn workspaces_listed(s: StateView, v: Seq<WorkspaceInfo>) -> bool {
    &&& forall|i: int|
        0 <= i < v.len() ==> s.forest.leaves.contains_key((#[trigger] v[i]).name@)
            && workspace_report(s, v[i].name@, v[i])
    &&& forall|name: Seq<char>| #[trigger]
        s.forest.leaves.contains_key(name) ==> exists|i: int|
            0 <= i < v.len() && (#[trigger] v[i]).name@ == name
    &&& forall|i: int, j: int|
        0 <= i < j < v.len() ==> text_less((#[trigger] v[i]).name@, (#[trigger] v[j]).name@)
}

/// How a monitor is laid out.
#[derive(Debug, PartialEq, Eq)]
pub enum LayoutPlan {
    /// One window fills it, if that is known; the others stay where they are.
    Fill { window: Option<u32> },
    /// By the tree of a workspace.
    Tree { workspace: String, gaps: Gaps, accordion_padding: u32 },
}

/// What a monitor is laid out by: the workspace that it shows.
pub open spec fn laid_out(s: StateView, monitor: u32) -> Option<Seq<char>> {
    match lookup(s.desk.active, monitor) {
        Some(name) => if connected(s.desk.monitors, monitor) && s.forest.leaves.contains_key(name) {
            Some(name)
        } else {
            None
        },
        None => None,
    }
}

/// The gaps of a workspace.
pub open spec fn gaps_for(s: StateView, name: Seq<char>) -> Gaps {
    match lookup(s.workspace_gaps, name) {
        Some(g) => g,
        None => s.gaps,
    }
}

/// The known window at the node that fills a workspace's monitor.
pub open spec fn filling(s: StateView, name: Seq<char>, node: u64) -> Option<u32> {
    match window_at(s.forest, name, node) {
        Some(id) => if s.windows.contains_key(id) {
            Some(id)
        } else {
            None
        },
        None => None,
    }
}

/// What has to be done to a floating window when its workspace comes into view.
#[derive(Debug, Clone, Copy, PartialEq, Eq, Structural)]
pub enum FloatingStep {
    /// Bring it to where the user had it.
    Restore { window: u32, geometry: FloatGeometry },
    /// Bring it to its first place.
    Place { window: u32 },
}

/// The step that a floating window needs: none where it had its first place
/// and the user did not move it.
pub open spec fn step_for(s: StateView, id: u32) -> Option<FloatingStep> {
    match lookup(s.placements, id) {
        Some(p) => match p.kind {
            PlacementKind::Floating { manual: Some(geometry) } => Some(
                FloatingStep::Restore { window: id, geometry },
            ),
            PlacementKind::Floating { manual: None } => if s.floating_placed.contains_key(id) {
                None
            } else {
                Some(FloatingStep::Place { window: id })
            },
            _ => None,
        },
        None => None,
    }
}

/// The window that a step is about.
pub open spec fn step_window(step: FloatingStep) -> u32 {
    match step {
        FloatingStep::Restore { window, geometry } => window,
        FloatingStep::Place { window } => window,
    }
}

/// A floating window of a workspace needs a step.
pub open spec fn step_on(s: StateView, name: Seq<char>, step: FloatingStep) -> bool {
    exists|id: u32| #[trigger] floats_on(s, name, id) && step_for(s, id) == Some(step)
}

/// A width or height: in points, or as a share of the monitor.
#[derive(Debug, Clone, Copy, PartialEq, Eq, Structural)]
pub enum Extent {
    Points(u32),
    Share(Ratio),
}

/// The first place of a floating window.
#[derive(Debug, Clone, Copy, PartialEq, Eq, Structural)]
pub struct FirstPlace {
    pub width: Extent,
    pub height: Extent,
    pub center: bool,
    /// How many steps it is moved off the centre, along both axes.
    pub steps: i32,
}

/// The size that a rule gives, else the default share.
pub open spec fn extent(rule: Option<u32>, share: Ratio) -> Extent {
    match rule {
        Some(points) => Extent::Points(points),
        None => Extent::Share(share),
    }
}

/// How a window is sized and centred: by the rule that applies to it, and by
/// the defaults where that does not say.
pub open spec fn first_size(
    rule: Option<FloatingRuleView>,
    defaults: FloatingDefaults,
) -> (Extent, Extent, bool) {
    match rule {
        Some(r) => (
            extent(r.width, defaults.width_ratio),
            extent(r.height, defaults.height_ratio),
            match r.center {
                Some(c) => c,
                None => defaults.center,
            },
        ),
        None => (
            Extent::Share(defaults.width_ratio),
            Extent::Share(defaults.height_ratio),
            defaults.center,
        ),
    }
}

/// The first place of a window, and the state once it was given: a centred
/// window of a workspace counts.
pub open spec fn first_placed(s: StateView, id: u32) -> (StateView, Option<FirstPlace>) {
    match lookup(s.windows, id) {
        None => (s, None),
        Some(w) => {
            let (width, height, center) = first_size(
                applying_rule(s.floating_rules, w.bundle_id, w.title),
                s.floating_defaults,
            );
            let placed = StateView { floating_placed: s.floating_placed.insert(id, true), ..s };
            match lookup(s.placements, id) {
                Some(p) => if center {
                    let index = match lookup(s.forest.cascade, p.workspace) {
                        Some(n) => n,
                        None => 0u32,
                    };
                    (
                        StateView {
                            forest: ForestView {
                                cascade: s.forest.cascade.insert(p.workspace, index.wrapping_add(1)),
                                ..s.forest
                            },
                            ..placed
                        },
                        Some(FirstPlace { width, height, center, steps: cascade_steps_of(index) as i32 }),
                    )
                } else {
                    (placed, Some(FirstPlace { width, height, center, steps: 0 }))
                },
                None => (placed, Some(FirstPlace { width, height, center, steps: 0 })),
            }
        },
    }
}

/// A window that is brought back onto the screen, and where the user had it.
#[derive(Debug, Clone, Copy, PartialEq, Eq, Structural)]
pub struct Unpark {
    pub window: u32,
    pub geometry: Option<FloatGeometry>,
}

/// The user's own place of a floating window.
pub open spec fn manual_of(s: StateView, id: u32) -> Option<FloatGeometry> {
    match lookup(s.placements, id) {
        Some(p) => match p.kind {
            PlacementKind::Floating { manual } => manual,
            _ => None,
        },
        None => None,
    }
}

/// The monitor that a floating window's place is measured by: the one that
/// shows its workspace, else the focused one, as far as they are connected.
pub open spec fn measured_by(s: StateView, id: u32, r: Option<u32>) -> bool {
    match lookup(s.placements, id) {
        None => r is None,
        Some(p) => {
            ||| r is Some && lookup(s.desk.active, r->0) == Some(p.workspace) && connected(
                s.desk.monitors,
                r->0,
            )
            ||| (exists|m: Option<u32>| #[trigger]
                shows(s.desk.active, p.workspace, m) && (m is Some ==> !connected(
                    s.desk.monitors,
                    m->0,
                ))) && r == (if connected(s.desk.monitors, s.desk.focused) {
                Some(s.desk.focused)
            } else {
                None
            })
        },
    }
}

/// `r` is what a monitor is laid out by, and with which gaps.
pub open spec fn layout_inputs(s: StateView, monitor: u32, r: Option<(String, Gaps)>) -> bool {
    match laid_out(s, monitor) {
        None => r is None,
        Some(name) => r matches Some((workspace, gaps)) && workspace@ == name && gaps == gaps_for(
            s,
            name,
        ),
    }
}

/// `r` is how a monitor is laid out.
pub open spec fn layout_planned(s: StateView, monitor: u32, r: Option<LayoutPlan>) -> bool {
    match laid_out(s, monitor) {
        None => r is None,
        Some(name) => match lookup(s.forest.fullscreen, name) {
            Some(node) => r == Some(LayoutPlan::Fill { window: filling(s, name, node) }),
            None => r matches Some(LayoutPlan::Tree { workspace, gaps, accordion_padding })
                && workspace@ == name && gaps == gaps_for(s, name) && accordion_padding
                == s.accordion_padding,
        },
    }
}

/// `r` is what has to be done to the floating windows of what a monitor shows.
pub open spec fn steps_planned(s: StateView, monitor: u32, r: Seq<FloatingStep>) -> bool {
    match lookup(s.desk.active, monitor) {
        Some(name) => if connected(s.desk.monitors, monitor) {
            forall|step: FloatingStep| r.contains(step) <==> #[trigger] step_on(s, name, step)
        } else {
            r.len() == 0
        },
        None => r.len() == 0,
    }
}

/// `r` are the windows to bring back onto the focused monitor.
pub open spec fn brought_back(s: StateView, r: Seq<Unpark>) -> bool {
    if connected(s.desk.monitors, s.desk.focused) {
        &&& forall|i: int|
            0 <= i < r.len() ==> parked(s, (#[trigger] r[i]).window) && r[i].geometry == manual_of(
                s,
                r[i].window,
            )
        &&& forall|id: u32| #[trigger]
            parked(s, id) ==> exists|i: int| 0 <= i < r.len() && (#[trigger] r[i]).window == id
    } else {
        r.len() == 0
    }
}

/// The workspace whose layout a drag of the mouse may resize.
pub open spec fn resizable(s: StateView) -> Option<Seq<char>> {
    match laid_out(s, s.desk.focused) {
        Some(name) => if !s.forest.fullscreen.contains_key(name) && tiled_of(
            s,
            leaves_of(s.forest, name),
        ).len() >= 2 {
            Some(name)
        } else {
            None
        },
        None => None,
    }
}

impl WmState {
    /// Takes note of where a window was just put, so that what is told of it
    /// right after is true. Nothing for a window that is not known.
    pub fn note_frame(&mut self, id: u32, frame: RectInfo)
        requires
            old(self).wf(),
        ensures
            final(self).wf(),
            final(self)@ == framed_at(old(self)@, id, frame),
    {
        match self.windows.remove(&id) {
            Some(mut w) => {
                w.frame = frame;
                self.windows.insert(id, w);
                assert(self@.windows =~= framed_at(old(self)@, id, frame).windows);
            },
            None => {
                assert(self@.windows =~= old(self)@.windows);
            },
        }
    }

    /// Every known window.
    pub fn list_windows(&self) -> (r: Vec<WindowInfo>)
        requires
            self.wf(),
        ensures
            windows_listed(self@, r@),
    {
        let n: usize = self.windows.len();
        let ghost order = self.windows.order();
        let mut out: Vec<WindowInfo> = Vec::new();
        let mut i: usize = 0;
        while i < n
            invariant
                self.wf(),
                order == self.windows.order(),
                order.no_duplicates(),
                n == order.len(),
                i <= n,
                out@.len() == i,
                forall|j: int|
                    0 <= j < i ==> window_report(self@, order[j], #[trigger] out@[j]),
            decreases n - i,
        {
            let id: u32 = *self.windows.key_at(i);
            let w: &Window = self.windows.value_at(i);
            let placement: PlacementInfo = match self.placements.get(&id) {
                Some(p) => placement_info(&p.kind),
                None => PlacementInfo::Tiled,
            };
            out.push(
                WindowInfo { id, pid: w.pid, title: w.title.clone(), placement, frame: w.frame },
            );
            i = i + 1;
        }
        proof {
            assert forall|i: int, j: int| 0 <= i < j < out@.len() implies (#[trigger] out@[i]).id != (
            #[trigger] out@[j]).id by {
                assert(window_report(self@, order[i], out@[i]));
                assert(window_report(self@, order[j], out@[j]));
            }
        }
        out
    }

    /// Every connected monitor and what it shows.
    pub fn list_monitors(&self) -> (r: Vec<MonitorInfo>)
        requires
            self.wf(),
        ensures
            monitors_listed(self@, r@),
    {
        self.desk.list_monitors()
    }

    fn workspace_info(&self, name: &str) -> (r: WorkspaceInfo)
        requires
            self.wf(),
        ensures
            workspace_report(self@, name@, r),
    {
        let monitor: Option<u32> = self.desk.shown_on(name);
        assert(monitor is Some ==> shown(self@.desk.active, name@));
        WorkspaceInfo {
            name: name.to_owned(),
            active: monitor.is_some(),
            window_count: self.forest.window_count(name),
            monitor,
        }
    }

    /// Every workspace, in the order of their names.
    pub fn list_workspaces(&self) -> (r: Vec<WorkspaceInfo>)
        requires
            self.wf(),
        ensures
            workspaces_listed(self@, r@),
    {
        let n: usize = self.forest.count();
        let ghost names = self.forest.names();
        let mut out: Vec<WorkspaceInfo> = Vec::new();
        let mut i: usize = 0;
        while i < n
            invariant
                self.wf(),
                names == self.forest.names(),
                names.no_duplicates(),
                n == names.len(),
                i <= n,
                out@.len() == i,
                forall|k: int|
                    0 <= k < out@.len() ==> self@.forest.leaves.contains_key(
                        (#[trigger] out@[k]).name@,
                    ) && workspace_report(self@, out@[k].name@, out@[k]),
                forall|k: int|
                    0 <= k < out@.len() ==> names.take(i as int).contains((#[trigger] out@[k]).name@),
                forall|j: int|
                    0 <= j < i ==> exists|k: int|
                        0 <= k < out@.len() && (#[trigger] out@[k]).name@ == #[trigger] names[j],
                forall|a: int, b: int|
                    0 <= a < b < out@.len() ==> text_less(
                        (#[trigger] out@[a]).name@,
                        (#[trigger] out@[b]).name@,
                    ),
            decreases n - i,
        {
            let info: WorkspaceInfo = self.workspace_info(self.forest.name_at(i));
            let ghost before = out@;
            let mut place: usize = 0;
            while place < out.len() && is_less(out[place].name.as_str(), info.name.as_str())
                invariant
                    place <= out.len(),
                    out@ == before,
                    forall|k: int|
                        0 <= k < place ==> text_less((#[trigger] out@[k]).name@, info.name@),
                decreases out.len() - place,
            {
                place = place + 1;
            }
            proof {
                let name = info.name@;
                assert(name == names[i as int]);
                assert forall|k: int| place <= k < before.len() implies text_less(
                    name,
                    (#[trigger] before[k]).name@,
                ) by {
                    let other = before[k].name@;
                    assert(names.take(i as int).contains(other));
                    let m = names.take(i as int).index_of(other);
                    assert(names[m] == other && names[m] != names[i as int]);
                    let at = before[place as int].name@;
                    assert(names.take(i as int).contains(at));
                    let q = names.take(i as int).index_of(at);
                    assert(names[q] == at && names[q] != names[i as int]);
                    law_text_order(name, at, other);
                    law_text_order(at, name, other);
                    if k > place {
                        assert(text_less(before[place as int].name@, before[k].name@));
                    }
                }
            }
            out.insert(place, info);
            proof {
                let after = out@;
                assert forall|k: int| 0 <= k < after.len() implies names.take(i + 1).contains(
                    (#[trigger] after[k]).name@,
                ) by {
                    if k == place {
                        assert(names.take(i + 1)[i as int] == info.name@);
                    } else {
                        let k1 = if k < place { k } else { k - 1 };
                        assert(after[k] == before[k1]);
                        let m = names.take(i as int).index_of(before[k1].name@);
                        assert(names.take(i + 1)[m] == before[k1].name@);
                    }
                }
                assert forall|k: int| 0 <= k < after.len() implies self@.forest.leaves.contains_key(
                    (#[trigger] after[k]).name@,
                ) && workspace_report(self@, after[k].name@, after[k]) by {
                    if k != place {
                        let k1 = if k < place { k } else { k - 1 };
                        assert(after[k] == before[k1]);
                    }
                }
                assert forall|j: int| 0 <= j < i + 1 implies exists|k: int|
                    0 <= k < after.len() && (#[trigger] after[k]).name@ == #[trigger] names[j] by {
                    if j < i {
                        let k = choose|k: int|
                            0 <= k < before.len() && (#[trigger] before[k]).name@ == names[j];
                        let k1 = if k < place { k } else { k + 1 };
                        assert(after[k1] == before[k]);
                    } else {
                        assert(after[place as int] == info);
                    }
                }
                assert forall|a: int, b: int| 0 <= a < b < after.len() implies text_less(
                    (#[trigger] after[a]).name@,
                    (#[trigger] after[b]).name@,
                ) by {
                    let a1 = if a < place { a } else { a - 1 };
                    let b1 = if b < place { b } else { b - 1 };
                    if a != place && b != place {
                        assert(after[a] == before[a1] && after[b] == before[b1]);
                    } else if a == place {
                        assert(after[b] == before[b1]);
                    } else {
                        assert(after[a] == before[a1]);
                    }
                }
            }
            i = i + 1;
        }
        proof {
            assert forall|name: Seq<char>| #[trigger]
                self@.forest.leaves.contains_key(name) implies exists|k: int|
                0 <= k < out@.len() && (#[trigger] out@[k]).name@ == name by {
                assert(names.contains(name));
                let j = names.index_of(name);
                assert(names[j] == name);
            }
        }
        out
    }

    /// The workspace whose tree a monitor is laid out by, and the gaps that it
    /// has.
    pub fn tiled_layout_inputs(&self, monitor: u32) -> (r: Option<(String, Gaps)>)
        requires
            self.wf(),
        ensures
            layout_inputs(self@, monitor, r),
    {
        let name: String = match self.desk.active_on(monitor) {
            Some(name) => name.clone(),
            None => {
                return None;
            },
        };
        if !self.desk.is_connected(monitor) || !self.forest.is_declared(name.as_str()) {
            return None;
        }
        let gaps: Gaps = match self.workspace_gaps.get(&name) {
            Some(g) => *g,
            None => self.gaps,
        };
        Some((name, gaps))
    }

    /// How a monitor is laid out, `None` where there is nothing to lay out.
    pub fn layout_plan(&self, monitor: u32) -> (r: Option<LayoutPlan>)
        requires
            self.wf(),
        ensures
            layout_planned(self@, monitor, r),
    {
        let (name, gaps): (String, Gaps) = match self.tiled_layout_inputs(monitor) {
            Some(inputs) => inputs,
            None => {
                return None;
            },
        };
        match self.forest.fullscreen(name.as_str()) {
            Some(node) => {
                let window: Option<u32> = match self.forest.window_at(name.as_str(), node) {
                    Some(id) => if self.windows.contains(&id) {
                        Some(id)
                    } else {
                        None
                    },
                    None => None,
                };
                Some(LayoutPlan::Fill { window })
            },
            None => {
                Some(
                    LayoutPlan::Tree {
                        workspace: name,
                        gaps,
                        accordion_padding: self.accordion_padding,
                    },
                )
            },
        }
    }

    fn placed_ids(&self) -> (r: Vec<u32>)
        requires
            self.wf(),
        ensures
            r@.no_duplicates(),
            forall|id: u32| r@.contains(id) <==> self@.placements.contains_key(id),
    {
        let n: usize = self.placements.len();
        let ghost order = self.placements.order();
        let mut out: Vec<u32> = Vec::new();
        let mut i: usize = 0;
        while i < n
            invariant
                self.wf(),
                order == self.placements.order(),
                n == order.len(),
                i <= n,
                out@ == order.take(i as int),
            decreases n - i,
        {
            out.push(*self.placements.key_at(i));
            i = i + 1;
        }
        assert(out@ =~= order);
        out
    }

    /// The floating windows of a workspace, each once.
    pub fn floating_windows_in(&self, name: &str) -> (r: Vec<u32>)
        requires
            self.wf(),
        ensures
            r@.no_duplicates(),
            forall|id: u32| r@.contains(id) <==> floats_on(self@, name@, id),
    {
        let ids: Vec<u32> = self.placed_ids();
        let mut out: Vec<u32> = Vec::new();
        let mut i: usize = 0;
        while i < ids.len()
            invariant
                self.wf(),
                i <= ids.len(),
                ids@.no_duplicates(),
                forall|id: u32| ids@.contains(id) <==> self@.placements.contains_key(id),
                picked(ids@, i as int, out@, |id: u32| floats_on(self@, name@, id)),
            decreases ids.len() - i,
        {
            let id: u32 = ids[i];
            let pick: bool = match self.placements.get(&id) {
                Some(p) => p.kind.is_floating() && crate::text::same_text(p.workspace.as_str(), name),
                None => false,
            };
            let ghost before = out@;
            if pick {
                out.push(id);
            }
            proof {
                lemma_picked(ids@, i as int, before, |id: u32| floats_on(self@, name@, id));
            }
            i = i + 1;
        }
        proof {
            assert forall|id: u32| floats_on(self@, name@, id) implies out@.contains(id) by {
                assert(ids@.contains(id));
                let k = ids@.index_of(id);
                assert(ids@[k] == id);
            }
        }
        out
    }

    /// The windows that are placed where no monitor shows them, each once.
    pub fn parked_positionable_ids(&self) -> (r: Vec<u32>)
        requires
            self.wf(),
        ensures
            r@.no_duplicates(),
            forall|id: u32| r@.contains(id) <==> parked(self@, id),
    {
        let ids: Vec<u32> = self.placed_ids();
        let mut out: Vec<u32> = Vec::new();
        let mut i: usize = 0;
        while i < ids.len()
            invariant
                self.wf(),
                i <= ids.len(),
                ids@.no_duplicates(),
                forall|id: u32| ids@.contains(id) <==> self@.placements.contains_key(id),
                picked(ids@, i as int, out@, |id: u32| parked(self@, id)),
            decreases ids.len() - i,
        {
            let id: u32 = ids[i];
            let ghost before = out@;
            if self.is_parked(id) {
                out.push(id);
            }
            proof {
                lemma_picked(ids@, i as int, before, |id: u32| parked(self@, id));
            }
            i = i + 1;
        }
        proof {
            assert forall|id: u32| parked(self@, id) implies out@.contains(id) by {
                assert(ids@.contains(id));
                let k = ids@.index_of(id);
                assert(ids@[k] == id);
            }
        }
        out
    }

    /// What has to be done to the floating windows of what a monitor shows, each
    /// step once.
    pub fn floating_plan(&self, monitor: u32) -> (r: Vec<FloatingStep>)
        requires
            self.wf(),
        ensures
            r@.no_duplicates(),
            steps_planned(self@, monitor, r@),
    {
        let mut out: Vec<FloatingStep> = Vec::new();
        let name: String = match self.desk.active_on(monitor) {
            Some(name) => name.clone(),
            None => {
                return out;
            },
        };
        if !self.desk.is_connected(monitor) {
            return out;
        }
        let ids: Vec<u32> = self.floating_windows_in(name.as_str());
        let mut i: usize = 0;
        while i < ids.len()
            invariant
                self.wf(),
                i <= ids.len(),
                ids@.no_duplicates(),
                out@.no_duplicates(),
                forall|id: u32| ids@.contains(id) <==> floats_on(self@, name@, id),
                forall|step: FloatingStep| #[trigger]
                    out@.contains(step) ==> step_on(self@, name@, step),
                forall|step: FloatingStep| #[trigger]
                    out@.contains(step) ==> ids@.take(i as int).contains(step_window(step)),
                forall|j: int|
                    0 <= j < i && step_for(self@, #[trigger] ids@[j]) is Some ==> out@.contains(
                        step_for(self@, ids@[j])->0,
                    ),
            decreases ids.len() - i,
        {
            let id: u32 = ids[i];
            assert(ids@.contains(id));
            assert(floats_on(self@, name@, id));
            let step: Option<FloatingStep> = self.floating_step(id);
            let ghost before = out@;
            match step {
                Some(x) => {
                    proof {
                        assert(step_window(x) == id);
                        if before.contains(x) {
                            let k = ids@.take(i as int).index_of(id);
                            assert(ids@[k] == ids@[i as int]);
                        }
                    }
                    out.push(x);
                    proof {
                        assert(out@.last() == x);
                        assert forall|a: int, b: int|
                            0 <= a < out@.len() && 0 <= b < out@.len() && a != b implies out@[a]
                            != out@[b] by {
                            if a < before.len() {
                                assert(before.contains(before[a]));
                            }
                            if b < before.len() {
                                assert(before.contains(before[b]));
                            }
                        }
                        assert forall|y: FloatingStep| before.contains(y) implies out@.contains(y) by {
                            let k = before.index_of(y);
                            assert(out@[k] == y);
                        }
                        assert forall|y: FloatingStep| #[trigger] out@.contains(y) implies step_on(
                            self@,
                            name@,
                            y,
                        ) by {
                            let k = out@.index_of(y);
                            if k < before.len() {
                                assert(before[k] == y);
                                assert(before.contains(y));
                            }
                        }
                    }
                },
                None => {},
            }
            proof {
                let seen = ids@.take(i as int);
                let more = ids@.take(i + 1);
                assert(more[i as int] == id);
                assert forall|y: FloatingStep| #[trigger] out@.contains(y) implies more.contains(
                    step_window(y),
                ) by {
                    if before.contains(y) {
                        let k = seen.index_of(step_window(y));
                        assert(more[k] == step_window(y));
                    } else {
                        let k = out@.index_of(y);
                        if k < before.len() {
                            assert(before[k] == y);
                        }
                    }
                }
            }
            i = i + 1;
        }
        proof {
            assert forall|step: FloatingStep| #[trigger] step_on(
                self@,
                name@,
                step,
            ) implies out@.contains(step) by {
                let id = choose|id: u32| #[trigger]
                    floats_on(self@, name@, id) && step_for(self@, id) == Some(step);
                assert(ids@.contains(id));
                let k = ids@.index_of(id);
                assert(step_for(self@, ids@[k]) == Some(step));
            }
        }
        out
    }

    fn floating_step(&self, id: u32) -> (r: Option<FloatingStep>)
        requires
            self.wf(),
        ensures
            r == step_for(self@, id),
    {
        match self.placements.get(&id) {
            Some(p) => match p.kind {
                PlacementKind::Floating { manual: Some(geometry) } => Some(
                    FloatingStep::Restore { window: id, geometry },
                ),
                PlacementKind::Floating { manual: None } => if self.floating_placed.contains(&id) {
                    None
                } else {
                    Some(FloatingStep::Place { window: id })
                },
                _ => None,
            },
            None => None,
        }
    }

    /// Gives a floating window its first place, `None` for one that is not
    /// known.
    pub fn place_floating_window(&mut self, id: u32) -> (r: Option<FirstPlace>)
        requires
            old(self).wf(),
        ensures
            final(self).wf(),
            (final(self)@, r) == first_placed(old(self)@, id),
    {
        let w: &Window = match self.windows.get(&id) {
            Some(w) => w,
            None => {
                return None;
            },
        };
        let bundle_id: Option<&str> = match &w.bundle_id {
            Some(b) => Some(b.as_str()),
            None => None,
        };
        let defaults: FloatingDefaults = self.floating_defaults;
        let (width, height, center) = match matching_floating_rule(
            &self.floating_rules,
            bundle_id,
            w.title.as_str(),
        ) {
            Some(rule) => (
                extent_of(rule.width(), defaults.width_ratio),
                extent_of(rule.height(), defaults.height_ratio),
                match rule.center() {
                    Some(c) => c,
                    None => defaults.center,
                },
            ),
            None => (
                Extent::Share(defaults.width_ratio),
                Extent::Share(defaults.height_ratio),
                defaults.center,
            ),
        };
        let mut steps: i32 = 0;
        if center {
            match self.placements.get(&id) {
                Some(p) => {
                    let name: String = p.workspace.clone();
                    let index: u32 = self.forest.next_floating_cascade_index(name.as_str());
                    steps = cascade_steps(index);
                },
                None => {},
            }
        }
        self.floating_placed.insert(id, true);
        Some(FirstPlace { width, height, center, steps })
    }

    /// The windows to bring back onto the focused monitor before the window
    /// manager goes: those that are off the screen, each once, if that is
    /// connected.
    pub fn unpark_all(&self) -> (r: Vec<Unpark>)
        requires
            self.wf(),
        ensures
            forall|i: int, j: int|
                0 <= i < j < r@.len() ==> (#[trigger] r@[i]).window != (#[trigger] r@[j]).window,
            brought_back(self@, r@),
    {
        let mut out: Vec<Unpark> = Vec::new();
        if !self.desk.is_connected(self.desk.focused()) {
            return out;
        }
        let ids: Vec<u32> = self.parked_positionable_ids();
        let mut i: usize = 0;
        while i < ids.len()
            invariant
                self.wf(),
                i <= ids.len(),
                out@.len() == i,
                ids@.no_duplicates(),
                forall|id: u32| ids@.contains(id) <==> parked(self@, id),
                forall|j: int|
                    0 <= j < i ==> (#[trigger] out@[j]).window == ids@[j] && out@[j].geometry
                        == manual_of(self@, ids@[j]),
            decreases ids.len() - i,
        {
            let id: u32 = ids[i];
            let geometry: Option<FloatGeometry> = match self.placements.get(&id) {
                Some(p) => match p.kind {
                    PlacementKind::Floating { manual } => manual,
                    _ => None,
                },
                None => None,
            };
            out.push(Unpark { window: id, geometry });
            i = i + 1;
        }
        proof {
            assert forall|i: int| 0 <= i < out@.len() implies parked(self@, (#[trigger] out@[i]).window) by {
                assert(ids@.contains(ids@[i]));
            }
            assert forall|id: u32| #[trigger] parked(self@, id) implies exists|i: int|
                0 <= i < out@.len() && (#[trigger] out@[i]).window == id by {
                assert(ids@.contains(id));
                let k = ids@.index_of(id);
                assert(out@[k].window == id);
            }
        }
        out
    }

    /// The monitor that a floating window's place is measured by.
    pub fn capture_monitor(&self, id: u32) -> (r: Option<u32>)
        requires
            self.wf(),
        ensures
            measured_by(self@, id, r),
    {
        let name: String = match self.placements.get(&id) {
            Some(p) => p.workspace.clone(),
            None => {
                return None;
            },
        };
        let on: Option<u32> = self.desk.shown_on(name.as_str());
        match on {
            Some(m) => {
                if self.desk.is_connected(m) {
                    return Some(m);
                }
            },
            None => {},
        }
        assert(shows(self@.desk.active, self@.placements[id].workspace, on));
        let focused: u32 = self.desk.focused();
        if self.desk.is_connected(focused) {
            Some(focused)
        } else {
            None
        }
    }

    /// The tiled windows of a workspace: those of its leaves that do not float.
    pub fn tiled_windows_in(&self, name: &str) -> (r: Vec<u32>)
        requires
            self.wf(),
        ensures
            r@ == tiled_of(self@, leaves_of(self@.forest, name@)),
    {
        let leaves: Vec<Leaf> = self.forest.leaves(name);
        let mut out: Vec<u32> = Vec::new();
        let mut i: usize = 0;
        assert(leaves@.take(0) =~= Seq::empty());
        while i < leaves.len()
            invariant
                self.wf(),
                i <= leaves.len(),
                out@ == tiled_of(self@, leaves@.take(i as int)),
            decreases leaves.len() - i,
        {
            proof {
                assert(leaves@.take(i + 1).drop_last() =~= leaves@.take(i as int));
                assert(leaves@.take(i + 1).last() == leaves@[i as int]);
            }
            let id: u32 = leaves[i].window;
            if !self.placed_floating(id) {
                out.push(id);
            }
            i = i + 1;
        }
        assert(leaves@.take(i as int) =~= leaves@);
        out
    }

    /// The workspace whose layout a drag of the mouse may resize: what the
    /// focused monitor is laid out by, if that has at least two tiled windows
    /// and none fills it.
    pub fn resizable_workspace(&self) -> (r: Option<String>)
        requires
            self.wf(),
        ensures
            opt_text(r) == resizable(self@),
    {
        match self.layout_plan(self.desk.focused()) {
            Some(LayoutPlan::Tree { workspace, gaps, accordion_padding }) => {
                if self.tiled_windows_in(workspace.as_str()).len() >= 2 {
                    Some(workspace)
                } else {
                    None
                }
            },
            _ => None,
        }
    }

    /// The placement of a window.
    pub fn placement(&self, id: u32) -> (r: Option<PlacementKind>)
        requires
            self.wf(),
        ensures
            r == (match lookup(self@.placements, id) {
                Some(p) => Some(p.kind),
                None => None,
            }),
    {
        match self.placements.get(&id) {
            Some(p) => Some(p.kind),
            None => None,
        }
    }

    /// The workspace of a window.
    pub fn workspace_of(&self, id: u32) -> (r: Option<String>)
        requires
            self.wf(),
        ensures
            opt_text(r) == (match lookup(self@.placements, id) {
                Some(p) => Some(p.workspace),
                None => None,
            }),
    {
        match self.placements.get(&id) {
            Some(p) => Some(p.workspace.clone()),
            None => None,
        }
    }

    /// The node that has the focus of a workspace.
    pub fn focus_of(&self, name: &str) -> (r: Option<u64>)
        requires
            self.wf(),
        ensures
            r == lookup(self@.forest.focus, name@),
    {
        self.forest.focus(name)
    }

    /// The node that fills the monitor of a workspace.
    pub fn fullscreen_of(&self, name: &str) -> (r: Option<u64>)
        requires
            self.wf(),
        ensures
            r == lookup(self@.forest.fullscreen, name@),
    {
        self.forest.fullscreen(name)
    }

    /// The monitor that commands act on.
    pub fn focused_monitor(&self) -> (r: u32)
        ensures
            r == self@.desk.focused,
    {
        self.desk.focused()
    }

    /// The workspace that a monitor shows.
    pub fn active_on(&self, monitor: u32) -> (r: Option<String>)
        requires
            self.wf(),
        ensures
            opt_text(r) == lookup(self@.desk.active, monitor),
    {
        match self.desk.active_on(monitor) {
            Some(name) => Some(name.clone()),
            None => None,
        }
    }
}

/// The windows of some leaves that do not float, in order.
pub open spec fn tiled_of(s: StateView, leaves: Seq<Leaf>) -> Seq<u32>
    decreases leaves.len(),
{
    if leaves.len() == 0 {
        Seq::empty()
    } else if placed_floating(s, leaves.last().window) {
        tiled_of(s, leaves.drop_last())
    } else {
        tiled_of(s, leaves.drop_last()).push(leaves.last().window)
    }
}

fn extent_of(rule: Option<u32>, share: Ratio) -> (r: Extent)
    ensures
        r == extent(rule, share),
{
    match rule {
        Some(points) => Extent::Points(points),
        None => Extent::Share(share),
    }
}

/// `out` holds those of the first `n` of `ids` that satisfy `p`, each once.
spec fn picked(ids: Seq<u32>, n: int, out: Seq<u32>, p: spec_fn(u32) -> bool) -> bool {
    &&& out.no_duplicates()
    &&& forall|id: u32| #[trigger] out.contains(id) ==> p(id) && ids.take(n).contains(id)
    &&& forall|j: int| 0 <= j < n && p(#[trigger] ids[j]) ==> out.contains(ids[j])
}

proof fn lemma_picked(ids: Seq<u32>, n: int, out: Seq<u32>, p: spec_fn(u32) -> bool)
    requires
        0 <= n < ids.len(),
        ids.no_duplicates(),
        picked(ids, n, out, p),
    ensures
        p(ids[n]) ==> picked(ids, n + 1, out.push(ids[n]), p),
        !p(ids[n]) ==> picked(ids, n + 1, out, p),
{
    let id = ids[n];
    assert forall|x: u32| ids.take(n).contains(x) implies ids.take(n + 1).contains(x) && x != id by {
        let k = ids.take(n).index_of(x);
        assert(ids.take(n + 1)[k] == x);
        assert(ids[k] == x);
    }
    assert(ids.take(n + 1)[n] == id);
    let more = out.push(id);
    assert(more.last() == id);
    assert forall|x: u32| #[trigger] more.contains(x) implies out.contains(x) || x == id by {
        let k = more.index_of(x);
        if k < out.len() {
            assert(out[k] == x);
        }
    }
    assert forall|x: u32| out.contains(x) implies more.contains(x) by {
        let k = out.index_of(x);
        assert(more[k] == x);
    }
    assert(!out.contains(id));
}

}
