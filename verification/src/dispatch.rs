//! What each command does, whether it comes over the socket or from a hotkey.

use vstd::prelude::*;
use crate::config::views;
use crate::desk::{lookup, next_monitor, DeskView};
use crate::ipc::{
    Command, Direction, DoctorReport, LayoutKind, OrientationKind, Payload, Response,
};
use crate::modes::{default_mode, entered, ModesView};
use crate::state::bringup::{focus_followed, summon_outcome, summoned_by};
use crate::state::commands::{
    close_outcome, container_outcome, focus_outcome, fullscreen_done, layout_outcome,
    move_focused_outcome, resize_outcome, tiled_focus,
};
use crate::state::report::{monitors_listed, windows_listed, workspaces_listed};
use crate::state::switching::{
    back_outcome, carry_outcome, floatable, floating_outcome, movable, move_outcome,
    named_or_active, switch_outcome,
};
use crate::state::{focused_node, Action, ActionView, StateView, WmState};
use crate::text::{join2, opt_text, texts};

verus! {

/// What a command asks of the container trees before it is dispatched.
#[derive(Debug, PartialEq, Eq)]
pub enum TreeCall {
    Nothing,
    /// The node in a direction from the focused one.
    FocusInDirection { node: u64, direction: Direction },
    /// Move a node in a direction.
    MoveInDirection { node: u64, direction: Direction },
    /// Join a node with its neighbour in a direction.
    JoinWith { node: u64, direction: Direction },
    /// Change a node's weight by an amount, which is the text of a number.
    ResizeWeight { node: u64, amount: String },
    /// Set the axis of a node's container, or of the root.
    SetOrientation { node: u64, root: bool, orientation: OrientationKind },
    /// Set the axis of a node's container, or of the root, to the other one.
    ToggleOrientation { node: u64, root: bool },
    /// Toggle the layout of a node's container, or of the root.
    ToggleLayout { node: u64, root: bool },
    /// Toggle the layout of a node's container, or of the root, if it is not
    /// the given one.
    SetLayout { node: u64, root: bool, layout: LayoutKind },
    /// Balance the weights in a node's container, or in the root.
    Balance { node: u64, root: bool },
    /// Take a window out of the active workspace's tree and put it in again,
    /// as floating or tiled.
    Reinsert { window: u32, floating: bool },
    /// Take a window out of the active workspace's tree and put it into
    /// another one.
    Carry { window: u32, to: String },
    /// The node that the tree of a workspace would focus by itself.
    DefaultFocus { workspace: String },
}

/// What the trees answered. A field that the command did not ask for is of no
/// account.
#[derive(Debug, Clone, Copy, PartialEq, Eq, Structural)]
pub struct TreeAnswer {
    /// The node that was found.
    pub found: Option<u64>,
    /// Whether the tree did what it was asked for.
    pub changed: bool,
    /// Whether the container was an accordion before.
    pub is_accordion: bool,
    /// The node that was suggested for the focus.
    pub suggested: Option<u64>,
    /// The node that a window was put at.
    pub node: u64,
}

/// Which permissions the system grants.
#[derive(Debug, Clone, Copy, PartialEq, Eq, Structural)]
pub struct Permissions {
    pub accessibility: bool,
    pub input_monitoring: bool,
}

/// The command only asks: it changes nothing that anyone could wait for.
pub open spec fn read_only(c: Command) -> bool {
    match c {
        Command::Ping
        | Command::ListWindows
        | Command::ListWorkspaces
        | Command::ListMonitors
        | Command::CurrentMode
        | Command::MenubarStyle
        | Command::Doctor => true,
        _ => false,
    }
}

/// Whether a command only asks.
pub fn command_is_read_only(c: &Command) -> (r: bool)
    ensures
        r == read_only(*c),
{
    match c {
        Command::Ping => true,
        Command::ListWindows => true,
        Command::ListWorkspaces => true,
        Command::ListMonitors => true,
        Command::CurrentMode => true,
        Command::MenubarStyle => true,
        Command::Doctor => true,
        _ => false,
    }
}

/// The reply that tells a result.
pub open spec fn replied(
    res: Result<Seq<ActionView>, Seq<char>>,
    r: Response,
    acts: Seq<ActionView>,
) -> bool {
    match res {
        Ok(a) => r is Done && acts == a,
        Err(e) => r matches Response::Failed { message } && message@ == e && acts.len() == 0,
    }
}

/// A plain reply: it went well, and there is nothing to do.
pub open spec fn plain(r: Response, acts: Seq<ActionView>) -> bool {
    r is Done && acts.len() == 0
}

/// `call` is what a command asks of the trees: nothing where it will be
/// refused whatever they answer.
pub open spec fn asked(s: StateView, c: Command, call: TreeCall) -> bool {
    match c {
        Command::Focus(direction) => match focused_node(s) {
            Some(node) => call == TreeCall::FocusInDirection { node, direction },
            None => call is Nothing,
        },
        Command::Move(direction) => match tiled_focus(s, false) {
            Ok(node) => call == TreeCall::MoveInDirection { node, direction },
            Err(e) => call is Nothing,
        },
        Command::Join(direction) => match tiled_focus(s, false) {
            Ok(node) => call == TreeCall::JoinWith { node, direction },
            Err(e) => call is Nothing,
        },
        Command::ResizeRatio { amount } => match tiled_focus(s, false) {
            Ok(n) => call matches TreeCall::ResizeWeight { node, amount: a } && node == n && a@
                == amount@,
            Err(e) => call is Nothing,
        },
        Command::OrientationSet(orientation, root) => match tiled_focus(s, root) {
            Ok(node) => call == TreeCall::SetOrientation { node, root, orientation },
            Err(e) => call is Nothing,
        },
        Command::OrientationToggle(root) => match tiled_focus(s, root) {
            Ok(node) => call == TreeCall::ToggleOrientation { node, root },
            Err(e) => call is Nothing,
        },
        Command::LayoutToggle(root) => match tiled_focus(s, root) {
            Ok(node) => call == TreeCall::ToggleLayout { node, root },
            Err(e) => call is Nothing,
        },
        Command::LayoutSet(layout, root) => match tiled_focus(s, root) {
            Ok(node) => call == TreeCall::SetLayout { node, root, layout },
            Err(e) => call is Nothing,
        },
        Command::BalanceSizes { root } => match tiled_focus(s, root) {
            Ok(node) => call == TreeCall::Balance { node, root },
            Err(e) => call is Nothing,
        },
        Command::SetFloating(floating) => match floatable(s, floating) {
            Ok(window) => call == TreeCall::Reinsert { window, floating },
            Err(e) => call is Nothing,
        },
        Command::MoveNodeToWorkspace(name) => match movable(s, name@) {
            Ok(Some(id)) => call matches TreeCall::Carry { window, to } && window == id && to@
                == name@,
            _ => call is Nothing,
        },
        Command::WorkspaceSwitch(name) => call matches TreeCall::DefaultFocus { workspace }
            && workspace@ == name@,
        Command::WorkspaceBack => match s.desk.previous {
            Some(name) => call matches TreeCall::DefaultFocus { workspace } && workspace@ == name,
            None => call is Nothing,
        },
        Command::Summon(query) => match summoned_by(s, query@) {
            Some(id) => match lookup(s.placements, id) {
                Some(p) => call matches TreeCall::DefaultFocus { workspace } && workspace@
                    == p.workspace,
                None => call is Nothing,
            },
            None => call is Nothing,
        },
        _ => call is Nothing,
    }
}

/// `after`, `r` and `acts` are what a command gives, by what the trees
/// answered.
pub open spec fn dispatched(
    s: StateView,
    c: Command,
    a: TreeAnswer,
    p: Permissions,
    after: StateView,
    r: Response,
    acts: Seq<ActionView>,
) -> bool {
    match c {
        Command::Ping | Command::Flatten => after == s && plain(r, acts),
        Command::ListWindows => {
            &&& after == s
            &&& acts.len() == 0
            &&& r matches Response::OkWithPayload(Payload::Windows(v)) && windows_listed(s, v@)
        },
        Command::ListWorkspaces => {
            &&& after == s
            &&& acts.len() == 0
            &&& r matches Response::OkWithPayload(Payload::Workspaces(v)) && workspaces_listed(s, v@)
        },
        Command::ListMonitors => {
            &&& after == s
            &&& acts.len() == 0
            &&& r matches Response::OkWithPayload(Payload::Monitors(v)) && monitors_listed(s, v@)
        },
        Command::CurrentMode => {
            &&& after == s
            &&& acts.len() == 0
            &&& r matches Response::OkWithPayload(Payload::Mode(m)) && m@ == s.modes.current
        },
        Command::Doctor => {
            &&& after == s
            &&& acts.len() == 0
            &&& r matches Response::OkWithPayload(Payload::Report(d)) && d.accessibility_granted
                == p.accessibility && d.input_monitoring_granted == p.input_monitoring && texts(
                d.config_warnings@,
            ) == s.warnings
        },
        Command::Focus(_) => {
            let (end, res) = focus_outcome(s, a.found);
            after == end && replied(res, r, acts)
        },
        Command::Move(_) => {
            let (end, res) = move_focused_outcome(s, a.changed);
            after == end && replied(res, r, acts)
        },
        Command::Join(_) => after == s && replied(
            container_outcome(s, false, a.changed, "nothing to join in that direction"@),
            r,
            acts,
        ),
        Command::ResizeRatio { amount: _ } => after == s && replied(
            resize_outcome(s, a.changed),
            r,
            acts,
        ),
        Command::OrientationSet(_, root) => after == s && replied(
            container_outcome(s, root, a.changed, "nothing to set — only one window here"@),
            r,
            acts,
        ),
        Command::OrientationToggle(root) => after == s && replied(
            container_outcome(s, root, a.changed, "nothing to set — only one window here"@),
            r,
            acts,
        ),
        Command::LayoutToggle(root) => after == s && replied(
            container_outcome(s, root, a.changed, "nothing to toggle — only one window here"@),
            r,
            acts,
        ),
        Command::LayoutSet(kind, root) => after == s && replied(
            layout_outcome(s, kind, root, a.is_accordion, a.changed),
            r,
            acts,
        ),
        Command::BalanceSizes { root } => after == s && replied(
            container_outcome(s, root, a.changed, "nothing to balance — only one window here"@),
            r,
            acts,
        ),
        Command::WorkspaceSwitch(name) => exists|res: Result<Seq<ActionView>, Seq<char>>| #[trigger]
            switch_outcome(s, name@, a.found, after, res) && replied(res, r, acts),
        Command::WorkspaceBack => exists|res: Result<Seq<ActionView>, Seq<char>>| #[trigger]
            back_outcome(s, a.found, after, res) && replied(res, r, acts),
        Command::MoveNodeToWorkspace(name) => exists|res: Result<Seq<ActionView>, Seq<char>>| #[trigger]
            carry_outcome(s, name@, a.suggested, a.node, after, res) && replied(res, r, acts),
        Command::Summon(query) => exists|res: Result<Seq<ActionView>, Seq<char>>| #[trigger]
            summon_outcome(s, query@, a.found, after, res) && replied(res, r, acts),
        Command::MoveWorkspaceToMonitor { workspace, target } => exists|
            res: Result<Seq<ActionView>, Seq<char>>,
        | #[trigger]
            move_outcome(s, named_or_active(s, opt_text(workspace)), target, after, res) && replied(
                res,
                r,
                acts,
            ),
        Command::SetFloating(floating) => {
            let (end, res) = floating_outcome(s, floating, a.suggested, a.node);
            after == end && replied(res, r, acts)
        },
        Command::FullscreenToggle { native } => {
            let (end, res) = fullscreen_done(s, native);
            after == end && replied(res, r, acts)
        },
        Command::Close => after == s && replied(close_outcome(s), r, acts),
        Command::ModeEnter(name) => match entered(s.modes, name@) {
            Ok(m) => after == (StateView { modes: m, ..s }) && plain(r, acts),
            Err(e) => after == s && replied(Err(e), r, acts),
        },
        Command::ModeExit => {
            &&& after == (StateView {
                modes: ModesView { current: default_mode(), ..s.modes },
                ..s
            })
            &&& plain(r, acts)
        },
        Command::FocusMonitor => {
            &&& after == (StateView {
                desk: if s.desk.monitors.len() < 2 {
                    s.desk
                } else {
                    DeskView { focused: next_monitor(s.desk.monitors, s.desk.focused), ..s.desk }
                },
                ..s
            })
            &&& plain(r, acts)
        },
        Command::Raw { verb, args: _ } => after == s && replied(
            Err("unknown command: "@ + verb@),
            r,
            acts,
        ),
        Command::ReloadConfig
        | Command::MenubarStyle
        | Command::WaitForChange
        | Command::Shutdown => after == s && replied(Err("not implemented yet"@), r, acts),
    }
}

fn result_response(result: Result<Vec<Action>, String>) -> (r: (Response, Vec<Action>))
    ensures
        replied(crate::state::switching::done(result), r.0, views(r.1@)),
{
    match result {
        Ok(acts) => (Response::Done, acts),
        Err(message) => {
            let acts: Vec<Action> = Vec::new();
            (Response::Failed { message }, acts)
        },
    }
}

/// Says what a command asks of the container trees.
pub fn tree_call(state: &WmState, c: &Command) -> (r: TreeCall)
    requires
        state.wf(),
    ensures
        asked(state@, *c, r),
{
    match c {
        Command::Focus(direction) => match state.focused_node() {
            Some(node) => TreeCall::FocusInDirection { node, direction: *direction },
            None => TreeCall::Nothing,
        },
        Command::Move(direction) => match state.tiled_focus(false) {
            Ok(node) => TreeCall::MoveInDirection { node, direction: *direction },
            Err(_) => TreeCall::Nothing,
        },
        Command::Join(direction) => match state.tiled_focus(false) {
            Ok(node) => TreeCall::JoinWith { node, direction: *direction },
            Err(_) => TreeCall::Nothing,
        },
        Command::ResizeRatio { amount } => match state.tiled_focus(false) {
            Ok(node) => TreeCall::ResizeWeight { node, amount: amount.clone() },
            Err(_) => TreeCall::Nothing,
        },
        Command::OrientationSet(orientation, root) => match state.tiled_focus(*root) {
            Ok(node) => TreeCall::SetOrientation { node, root: *root, orientation: *orientation },
            Err(_) => TreeCall::Nothing,
        },
        Command::OrientationToggle(root) => match state.tiled_focus(*root) {
            Ok(node) => TreeCall::ToggleOrientation { node, root: *root },
            Err(_) => TreeCall::Nothing,
        },
        Command::LayoutToggle(root) => match state.tiled_focus(*root) {
            Ok(node) => TreeCall::ToggleLayout { node, root: *root },
            Err(_) => TreeCall::Nothing,
        },
        Command::LayoutSet(layout, root) => match state.tiled_focus(*root) {
            Ok(node) => TreeCall::SetLayout { node, root: *root, layout: *layout },
            Err(_) => TreeCall::Nothing,
        },
        Command::BalanceSizes { root } => match state.tiled_focus(*root) {
            Ok(node) => TreeCall::Balance { node, root: *root },
            Err(_) => TreeCall::Nothing,
        },
        Command::SetFloating(floating) => match state.floating_target(*floating) {
            Ok(window) => TreeCall::Reinsert { window, floating: *floating },
            Err(_) => TreeCall::Nothing,
        },
        Command::MoveNodeToWorkspace(name) => match state.movable_to(name.as_str()) {
            Ok(Some(window)) => TreeCall::Carry { window, to: name.clone() },
            _ => TreeCall::Nothing,
        },
        Command::WorkspaceSwitch(name) => TreeCall::DefaultFocus { workspace: name.clone() },
        Command::WorkspaceBack => match state.previous_workspace() {
            Some(name) => TreeCall::DefaultFocus { workspace: name },
            None => TreeCall::Nothing,
        },
        Command::Summon(query) => match state.summon_target(query.as_str()) {
            Some(id) => match state.workspace_of(id) {
                Some(workspace) => TreeCall::DefaultFocus { workspace },
                None => TreeCall::Nothing,
            },
            None => TreeCall::Nothing,
        },
        _ => TreeCall::Nothing,
    }
}

/// Gets ready for a command, while the window `focused`, if there is one, has
/// the system's focus. Returns what has to be done first, and what the command
/// then asks of the container trees.
pub fn prepare(state: &mut WmState, command: &Command, focused: Option<u32>) -> (r: (
    Vec<Action>,
    TreeCall,
))
    requires
        old(state).wf(),
    ensures
        final(state).wf(),
        (final(state)@, views(r.0@)) == focus_followed(old(state)@, focused),
        asked(final(state)@, *command, r.1),
{
    let first: Vec<Action> = state.sync_focus_from_frontmost(focused);
    let call: TreeCall = tree_call(state, command);
    (first, call)
}

/// Runs a command. `answer` is what the trees answered to `tree_call`.
pub fn dispatch(
    state: &mut WmState,
    command: &Command,
    answer: TreeAnswer,
    permissions: Permissions,
) -> (r: (Response, Vec<Action>))
    requires
        old(state).wf(),
    ensures
        final(state).wf(),
        dispatched(
            old(state)@,
            *command,
            answer,
            permissions,
            final(state)@,
            r.0,
            views(r.1@),
        ),
{
    let nothing: Vec<Action> = Vec::new();
    match command {
        Command::Ping => (Response::Done, nothing),
        Command::Flatten => (Response::Done, nothing),
        Command::ListWindows => (
            Response::OkWithPayload(Payload::Windows(state.list_windows())),
            nothing,
        ),
        Command::ListWorkspaces => (
            Response::OkWithPayload(Payload::Workspaces(state.list_workspaces())),
            nothing,
        ),
        Command::ListMonitors => (
            Response::OkWithPayload(Payload::Monitors(state.list_monitors())),
            nothing,
        ),
        Command::CurrentMode => (
            Response::OkWithPayload(Payload::Mode(state.current_mode().to_owned())),
            nothing,
        ),
        Command::Doctor => (
            Response::OkWithPayload(
                Payload::Report(
                    DoctorReport {
                        accessibility_granted: permissions.accessibility,
                        input_monitoring_granted: permissions.input_monitoring,
                        config_warnings: state.config_warnings(),
                    },
                ),
            ),
            nothing,
        ),
        Command::Focus(_) => result_response(state.focus(answer.found)),
        Command::Move(_) => result_response(state.move_focused(answer.changed)),
        Command::Join(_) => result_response(state.join(answer.changed)),
        Command::ResizeRatio { amount: _ } => result_response(state.resize(answer.changed)),
        Command::OrientationSet(_, root) => result_response(
            state.set_orientation(*root, answer.changed),
        ),
        Command::OrientationToggle(root) => result_response(
            state.toggle_orientation(*root, answer.changed),
        ),
        Command::LayoutToggle(root) => result_response(state.toggle_layout(*root, answer.changed)),
        Command::LayoutSet(kind, root) => result_response(
            state.set_layout(*kind, *root, answer.is_accordion, answer.changed),
        ),
        Command::BalanceSizes { root } => result_response(
            state.balance_sizes(*root, answer.changed),
        ),
        Command::WorkspaceSwitch(name) => {
            let res: Result<Vec<Action>, String> = state.switch_workspace(
                name.as_str(),
                answer.found,
            );
            result_response(res)
        },
        Command::WorkspaceBack => {
            let res: Result<Vec<Action>, String> = state.switch_to_previous_workspace(answer.found);
            result_response(res)
        },
        Command::MoveNodeToWorkspace(name) => {
            let res: Result<Vec<Action>, String> = state.move_focused_to_workspace(
                name.as_str(),
                answer.suggested,
                answer.node,
            );
            result_response(res)
        },
        Command::Summon(query) => {
            let res: Result<Vec<Action>, String> = state.summon(query.as_str(), answer.found);
            result_response(res)
        },
        Command::MoveWorkspaceToMonitor { workspace, target } => {
            let name: Option<&str> = match workspace {
                Some(w) => Some(w.as_str()),
                None => None,
            };
            let res: Result<Vec<Action>, String> = state.move_workspace_to_monitor(name, *target);
            result_response(res)
        },
        Command::SetFloating(floating) => result_response(
            state.set_floating(*floating, answer.suggested, answer.node),
        ),
        Command::FullscreenToggle { native } => result_response(state.toggle_fullscreen(*native)),
        Command::Close => result_response(state.close_focused()),
        Command::ModeEnter(name) => {
            match state.enter_mode(name.as_str()) {
                Ok(()) => (Response::Done, nothing),
                Err(message) => (Response::Failed { message }, nothing),
            }
        },
        Command::ModeExit => {
            state.exit_mode();
            (Response::Done, nothing)
        },
        Command::FocusMonitor => {
            state.focus_monitor_next();
            (Response::Done, nothing)
        },
        Command::Raw { verb, args: _ } => (
            Response::Failed { message: join2("unknown command: ", verb.as_str()) },
            nothing,
        ),
        _ => (Response::Failed { message: "not implemented yet".to_owned() }, nothing),
    }
}

/// A command that only asks changes nothing and has nothing done.
pub proof fn law_read_only_commands_change_nothing(
    s: StateView,
    c: Command,
    a: TreeAnswer,
    p: Permissions,
    after: StateView,
    r: Response,
    acts: Seq<ActionView>,
)
    requires
        read_only(c),
        dispatched(s, c, a, p, after, r, acts),
    ensures
        after == s,
        acts.len() == 0,
{
}

}
