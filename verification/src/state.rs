//! The state of the window manager: what it knows of windows, workspaces and
//! monitors, and how events and commands change it. What has to be done to the
//! real windows and to the container trees is handed out as actions.

use vstd::prelude::*;
use crate::config::{
    plain_floating_defaults, views, FloatingDefaults, FloatingRuleView, Gaps, WorkspaceRule,
    WorkspaceRuleView,
};
use crate::desk::{lookup, Desk, DeskView, Monitor};
use crate::forest::{window_at, with_focus, with_workspace, Forest, ForestView};
use crate::grace::{Grace, GraceView};
use crate::ipc::{OrientationKind, RectInfo};
use crate::modes::{Modes, ModesView};
use crate::placement::PlacementKind;
use crate::rules::CompiledFloatingRule;
use crate::table::Table;
use crate::text::{opt_text, texts};

pub mod arrivals;
pub mod bringup;
pub mod commands;
pub mod effects;
pub mod laws;
pub mod outcomes;
pub mod presence;
pub mod report;
pub mod returning;
pub mod scan;
pub mod setup;
pub mod showing;
pub mod switching;

verus! {

/// A window, as the last scan found it.
#[derive(Debug, PartialEq, Eq)]
pub struct Window {
    pub pid: i32,
    pub bundle_id: Option<String>,
    pub title: String,
    /// Whether the window fills a space of its own.
    pub fullscreen: bool,
    pub frame: RectInfo,
}

/// What a `Window` holds.
pub struct WindowView {
    pub pid: i32,
    pub bundle_id: Option<Seq<char>>,
    pub title: Seq<char>,
    pub fullscreen: bool,
    pub frame: RectInfo,
}

impl View for Window {
    type V = WindowView;

    open spec fn view(&self) -> WindowView {
        WindowView {
            pid: self.pid,
            bundle_id: opt_text(self.bundle_id),
            title: self.title@,
            fullscreen: self.fullscreen,
            frame: self.frame,
        }
    }
}

/// Which workspace a window belongs to, and how it is placed there.
#[derive(Debug, PartialEq, Eq)]
pub struct Placement {
    pub workspace: String,
    pub kind: PlacementKind,
}

/// What a `Placement` holds.
pub struct PlacementView {
    pub workspace: Seq<char>,
    pub kind: PlacementKind,
}

impl View for Placement {
    type V = PlacementView;

    open spec fn view(&self) -> PlacementView {
        PlacementView { workspace: self.workspace@, kind: self.kind }
    }
}

/// Work on the real windows and on the container trees.
#[derive(Debug, PartialEq, Eq)]
pub enum Action {
    /// Lay out what a monitor shows (see `WmState::layout_plan`).
    Relayout(u32),
    /// Lay out what every monitor shows.
    RelayoutAll,
    /// Lay out what every monitor shows, and bring its floating windows to
    /// their places.
    RefreshAll,
    /// Bring the floating windows of what a monitor shows to their places (see
    /// `WmState::floating_plan`).
    RepositionFloating(u32),
    /// Bring a floating window to its first place on the focused monitor.
    PlaceFloating(u32),
    /// Move the tiled windows of a workspace off the screen.
    ParkTiled(String),
    /// Move the floating windows of a workspace off the screen.
    ParkFloating(String),
    /// Move a window off the screen.
    Park(u32),
    /// Tell a workspace's tree which node has the focus.
    RecordFocus { workspace: String, node: u64 },
    /// Raise and focus a window, and take the cursor there if `warp` is set.
    Raise { window: u32, warp: bool },
    /// Put a window into a space of its own, or take it back.
    SetNativeFullscreen { window: u32, on: bool },
    /// Press a window's close button.
    Close(u32),
}

/// What an `Action` holds.
pub enum ActionView {
    Relayout(u32),
    RelayoutAll,
    RefreshAll,
    RepositionFloating(u32),
    PlaceFloating(u32),
    ParkTiled(Seq<char>),
    ParkFloating(Seq<char>),
    Park(u32),
    RecordFocus { workspace: Seq<char>, node: u64 },
    Raise { window: u32, warp: bool },
    SetNativeFullscreen { window: u32, on: bool },
    Close(u32),
}

impl View for Action {
    type V = ActionView;

    open spec fn view(&self) -> ActionView {
        match *self {
            Action::Relayout(id) => ActionView::Relayout(id),
            Action::RelayoutAll => ActionView::RelayoutAll,
            Action::RefreshAll => ActionView::RefreshAll,
            Action::RepositionFloating(id) => ActionView::RepositionFloating(id),
            Action::PlaceFloating(id) => ActionView::PlaceFloating(id),
            Action::ParkTiled(name) => ActionView::ParkTiled(name@),
            Action::ParkFloating(name) => ActionView::ParkFloating(name@),
            Action::Park(id) => ActionView::Park(id),
            Action::RecordFocus { workspace, node } => ActionView::RecordFocus {
                workspace: workspace@,
                node,
            },
            Action::Raise { window, warp } => ActionView::Raise { window, warp },
            Action::SetNativeFullscreen { window, on } => ActionView::SetNativeFullscreen {
                window,
                on,
            },
            Action::Close(id) => ActionView::Close(id),
        }
    }
}

/// The whole state of the window manager.
pub struct WmState {
    windows: Table<u32, Window>,
    placements: Table<u32, Placement>,
    retries: Table<u32, u8>,
    grace: Grace,
    forest: Forest,
    desk: Desk,
    modes: Modes,
    gaps: Gaps,
    workspace_gaps: Table<String, Gaps>,
    accordion_padding: u32,
    workspace_rules: Vec<WorkspaceRule>,
    floating_rules: Vec<CompiledFloatingRule>,
    floating_defaults: FloatingDefaults,
    mouse_follows_focus: bool,
    focus_follows_monitor: bool,
    root_orientation: Option<OrientationKind>,
    config_loaded_once: bool,
    mouse_button_down: bool,
    last_frontmost_pid: Option<i32>,
    floating_placed: Table<u32, bool>,
    warnings: Vec<String>,
}

/// What a `WmState` holds.
pub struct StateView {
    /// The known windows.
    pub windows: Map<u32, WindowView>,
    /// Where each placed window is.
    pub placements: Map<u32, PlacementView>,
    /// How often each new window was put off for want of a bundle id.
    pub retries: Map<u32, u8>,
    pub grace: GraceView,
    pub forest: ForestView,
    pub desk: DeskView,
    pub modes: ModesView,
    pub gaps: Gaps,
    pub workspace_gaps: Map<Seq<char>, Gaps>,
    pub accordion_padding: u32,
    pub workspace_rules: Seq<WorkspaceRuleView>,
    pub floating_rules: Seq<FloatingRuleView>,
    pub floating_defaults: FloatingDefaults,
    pub mouse_follows_focus: bool,
    pub focus_follows_monitor: bool,
    /// The axis of a new root container, `None` for the monitor to decide.
    pub root_orientation: Option<OrientationKind>,
    /// Whether a configuration was applied.
    pub config_loaded_once: bool,
    pub mouse_button_down: bool,
    /// The application that was last known to be in front.
    pub last_frontmost_pid: Option<i32>,
    /// The floating windows that had their first place.
    pub floating_placed: Map<u32, bool>,
    /// What was wrong with the configuration.
    pub warnings: Seq<Seq<char>>,
}

impl View for WmState {
    type V = StateView;

    closed spec fn view(&self) -> StateView {
        StateView {
            windows: self.windows@,
            placements: self.placements@,
            retries: self.retries@,
            grace: self.grace@,
            forest: self.forest@,
            desk: self.desk@,
            modes: self.modes@,
            gaps: self.gaps,
            workspace_gaps: self.workspace_gaps@,
            accordion_padding: self.accordion_padding,
            workspace_rules: views(self.workspace_rules@),
            floating_rules: views(self.floating_rules@),
            floating_defaults: self.floating_defaults,
            mouse_follows_focus: self.mouse_follows_focus,
            focus_follows_monitor: self.focus_follows_monitor,
            root_orientation: self.root_orientation,
            config_loaded_once: self.config_loaded_once,
            mouse_button_down: self.mouse_button_down,
            last_frontmost_pid: self.last_frontmost_pid,
            floating_placed: self.floating_placed@,
            warnings: texts(self.warnings@),
        }
    }
}

/// The workspace that is shown at first, and stands in where the focused
/// monitor shows none.
pub open spec fn default_workspace() -> Seq<char> {
    "main"@
}

/// A state that nothing was done to yet, on some monitors.
pub open spec fn is_new(s: StateView, monitors: Seq<Monitor>) -> bool {
    &&& s.windows == Map::<u32, WindowView>::empty()
    &&& s.placements == Map::<u32, PlacementView>::empty()
    &&& s.retries == Map::<u32, u8>::empty()
    &&& s.grace.missing == Map::<u32, u64>::empty()
    &&& s.grace.launches == Map::<i32, u64>::empty()
    &&& s.grace.wake_until is None
    &&& s.grace.removal_grace == crate::grace::REMOVAL_GRACE_PERIOD
    &&& s.grace.launch_grace == crate::grace::LAUNCH_GRACE_PERIOD
    &&& s.forest.leaves == Map::<Seq<char>, Seq<crate::forest::Leaf>>::empty().insert(
        default_workspace(),
        Seq::empty(),
    )
    &&& s.forest.focus == Map::<Seq<char>, u64>::empty()
    &&& s.forest.fullscreen == Map::<Seq<char>, u64>::empty()
    &&& s.forest.cascade == Map::<Seq<char>, u32>::empty()
    &&& s.desk.monitors == monitors
    &&& s.desk.focused == (if monitors.len() > 0 { monitors[0].id } else { 0u32 })
    &&& s.desk.active == Map::<u32, Seq<char>>::empty().insert(
        s.desk.focused,
        default_workspace(),
    )
    &&& s.desk.previous is None
    &&& s.desk.epoch == 0
    &&& s.modes.blocks.len() == 0
    &&& s.modes.current == crate::modes::default_mode()
    &&& s.gaps == crate::config::no_gaps()
    &&& s.workspace_gaps == Map::<Seq<char>, Gaps>::empty()
    &&& s.accordion_padding == 0
    &&& s.workspace_rules.len() == 0
    &&& s.floating_rules.len() == 0
    &&& s.floating_defaults == plain_floating_defaults()
    &&& !s.mouse_follows_focus
    &&& !s.focus_follows_monitor
    &&& s.root_orientation is None
    &&& !s.config_loaded_once
    &&& !s.mouse_button_down
    &&& s.last_frontmost_pid is None
    &&& s.floating_placed == Map::<u32, bool>::empty()
    &&& s.warnings.len() == 0
}

/// The workspace that commands act on.
pub open spec fn active_name(s: StateView) -> Seq<char> {
    match lookup(s.desk.active, s.desk.focused) {
        Some(name) => name,
        None => default_workspace(),
    }
}

/// The node that commands act on.
pub open spec fn focused_node(s: StateView) -> Option<u64> {
    lookup(s.forest.focus, active_name(s))
}

/// A window is placed as floating.
pub open spec fn placed_floating(s: StateView, id: u32) -> bool {
    s.placements.contains_key(id) && s.placements[id].kind is Floating
}

/// The window at a node of the active workspace floats.
pub open spec fn floating_at(s: StateView, node: u64) -> bool {
    match window_at(s.forest, active_name(s), node) {
        Some(id) => placed_floating(s, id),
        None => false,
    }
}

/// The state after the focus of the active workspace went to a node, and what
/// has to be done for it.
pub open spec fn focused_at(s: StateView, node: u64) -> (StateView, Seq<ActionView>) {
    let name = active_name(s);
    (
        StateView { forest: with_workspace(with_focus(s.forest, name, node), name), ..s },
        seq![ActionView::RecordFocus { workspace: name, node }],
    )
}

/// The state after a window was raised, and what has to be done for it: nothing
/// for a window that is not known.
pub open spec fn raised(s: StateView, id: u32) -> (StateView, Seq<ActionView>) {
    match lookup(s.windows, id) {
        Some(w) => (
            StateView { last_frontmost_pid: Some(w.pid), ..s },
            seq![ActionView::Raise { window: id, warp: s.mouse_follows_focus }],
        ),
        None => (s, Seq::empty()),
    }
}

/// The state after the focused window of the active workspace was raised.
pub open spec fn raised_focus(s: StateView) -> (StateView, Seq<ActionView>) {
    match focused_node(s) {
        Some(node) => match window_at(s.forest, active_name(s), node) {
            Some(id) => raised(s, id),
            None => (s, Seq::empty()),
        },
        None => (s, Seq::empty()),
    }
}

/// The windows that float on a workspace.
pub open spec fn floats_on(s: StateView, name: Seq<char>, id: u32) -> bool {
    placed_floating(s, id) && s.placements[id].workspace == name
}

/// A window is placed where no monitor shows it.
pub open spec fn parked(s: StateView, id: u32) -> bool {
    &&& s.placements.contains_key(id)
    &&& s.placements[id].kind.in_tree()
    &&& !crate::desk::shown(s.desk.active, s.placements[id].workspace)
}

pub(crate) fn push_all(to: &mut Vec<Action>, from: Vec<Action>)
    ensures
        views(final(to)@) == views(old(to)@) + views(from@),
{
    let mut rest: Vec<Action> = from;
    to.append(&mut rest);
    assert(views(to@) =~= views(old(to)@) + views(from@));
}

impl WmState {
    pub closed spec fn wf(&self) -> bool {
        &&& self.windows.wf()
        &&& self.placements.wf()
        &&& self.retries.wf()
        &&& self.grace.wf()
        &&& self.forest.wf()
        &&& self.desk.wf()
        &&& self.modes.wf()
        &&& self.workspace_gaps.wf()
        &&& self.floating_placed.wf()
    }

    /// A state without windows or configuration. The first monitor shows the
    /// default workspace.
    pub fn new(monitors: Vec<Monitor>) -> (r: Self)
        ensures
            r.wf(),
            is_new(r@, monitors@),
    {
        let mut forest: Forest = Forest::new();
        forest.declare("main");
        let r: WmState = WmState {
            windows: Table::new(),
            placements: Table::new(),
            retries: Table::new(),
            grace: Grace::new(),
            forest,
            desk: Desk::new(monitors, "main".to_owned()),
            modes: Modes::new(),
            gaps: Gaps::default(),
            workspace_gaps: Table::new(),
            accordion_padding: 0,
            workspace_rules: Vec::new(),
            floating_rules: Vec::new(),
            floating_defaults: FloatingDefaults::default(),
            mouse_follows_focus: false,
            focus_follows_monitor: false,
            root_orientation: None,
            config_loaded_once: false,
            mouse_button_down: false,
            last_frontmost_pid: None,
            floating_placed: Table::new(),
            warnings: Vec::new(),
        };
        r
    }

    /// The name of the workspace that commands act on.
    pub fn active_workspace_name(&self) -> (r: String)
        requires
            self.wf(),
        ensures
            r@ == active_name(self@),
    {
        match self.desk.active_on(self.desk.focused()) {
            Some(name) => name.clone(),
            None => "main".to_owned(),
        }
    }

    /// The node that commands act on.
    pub fn focused_node(&self) -> (r: Option<u64>)
        requires
            self.wf(),
        ensures
            r == focused_node(self@),
    {
        let name: String = self.active_workspace_name();
        self.forest.focus(name.as_str())
    }

    fn placed_floating(&self, id: u32) -> (r: bool)
        requires
            self.wf(),
        ensures
            r == placed_floating(self@, id),
    {
        match self.placements.get(&id) {
            Some(p) => p.kind.is_floating(),
            None => false,
        }
    }

    /// Whether the window at a node of the active workspace floats.
    pub fn focused_window_is_floating(&self, node: u64) -> (r: bool)
        requires
            self.wf(),
        ensures
            r == floating_at(self@, node),
    {
        let name: String = self.active_workspace_name();
        match self.forest.window_at(name.as_str(), node) {
            Some(id) => self.placed_floating(id),
            None => false,
        }
    }

    fn set_focused_node(&mut self, node: u64) -> (r: Vec<Action>)
        requires
            old(self).wf(),
        ensures
            final(self).wf(),
            (final(self)@, views(r@)) == focused_at(old(self)@, node),
    {
        let name: String = self.active_workspace_name();
        self.forest.set_focus(name.as_str(), node);
        self.forest.declare(name.as_str());
        let mut out: Vec<Action> = Vec::new();
        out.push(Action::RecordFocus { workspace: name, node });
        assert(views(out@) =~= focused_at(old(self)@, node).1);
        out
    }

    fn raise_focused_window(&mut self, id: u32) -> (r: Vec<Action>)
        requires
            old(self).wf(),
        ensures
            final(self).wf(),
            (final(self)@, views(r@)) == raised(old(self)@, id),
    {
        let mut out: Vec<Action> = Vec::new();
        match self.windows.get(&id) {
            Some(w) => {
                self.last_frontmost_pid = Some(w.pid);
                out.push(Action::Raise { window: id, warp: self.mouse_follows_focus });
            },
            None => {},
        }
        assert(views(out@) =~= raised(old(self)@, id).1);
        out
    }

    fn raise_focused(&mut self) -> (r: Vec<Action>)
        requires
            old(self).wf(),
        ensures
            final(self).wf(),
            (final(self)@, views(r@)) == raised_focus(old(self)@),
    {
        let name: String = self.active_workspace_name();
        match self.focused_node() {
            Some(node) => match self.forest.window_at(name.as_str(), node) {
                Some(id) => {
                    return self.raise_focused_window(id);
                },
                None => {},
            },
            None => {},
        }
        let out: Vec<Action> = Vec::new();
        assert(views(out@) =~= Seq::empty());
        out
    }
}

}
