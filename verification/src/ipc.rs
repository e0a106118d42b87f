//! The commands and replies that travel between the daemon and its clients.

use vstd::prelude::*;

verus! {

#[derive(Debug, Clone, Copy, PartialEq, Eq, Structural)]
pub enum Direction {
    Left,
    Right,
    Up,
    Down,
}

#[derive(Debug, Clone, Copy, PartialEq, Eq, Structural)]
pub enum LayoutKind {
    Tiles,
    Accordion,
}

/// A container's axis, independent of its `LayoutKind`.
#[derive(Debug, Clone, Copy, PartialEq, Eq, Structural)]
pub enum OrientationKind {
    Horizontal,
    Vertical,
}

/// Which connected monitor `Command::MoveWorkspaceToMonitor` targets.
#[derive(Debug, Clone, Copy, PartialEq, Eq, Structural)]
pub enum MonitorTarget {
    /// A specific display id.
    Id(u32),
    /// Whichever monitor `Command::FocusMonitor` would cycle to next.
    Next,
    /// The main display.
    Main,
}

/// What a command is directed at when it is not whatever is focused.
#[derive(Debug, Clone, PartialEq, Eq)]
pub struct Target {
    pub window_id: Option<u32>,
    pub workspace: Option<String>,
}

impl Default for Target {
    fn default() -> (r: Self)
        ensures
            r.window_id is None,
            r.workspace is None,
    {
        Target { window_id: None, workspace: None }
    }
}

#[derive(Debug, Clone, PartialEq, Eq)]
pub enum Command {
    Focus(Direction),
    Move(Direction),
    /// Wraps the focused window and its neighbour into a new container.
    Join(Direction),
    WorkspaceSwitch(String),
    MoveNodeToWorkspace(String),
    /// The flag targets the workspace's root container instead of the
    /// focused window's parent, here and in the variants below.
    LayoutSet(LayoutKind, bool),
    LayoutToggle(bool),
    OrientationSet(OrientationKind, bool),
    OrientationToggle(bool),
    /// Grows or shrinks the focused window's share of its container. The
    /// amount is the text of a decimal floating-point number (see
    /// `command::float_text`), in the weight-space of the container tree.
    ResizeRatio { amount: String },
    ModeEnter(String),
    ModeExit,
    CurrentMode,
    ListWindows,
    ListWorkspaces,
    BalanceSizes { root: bool },
    Flatten,
    FullscreenToggle { native: bool },
    Close,
    /// Focuses the first window whose title or bundle id contains the text.
    Summon(String),
    MoveWorkspaceToMonitor { workspace: Option<String>, target: MonitorTarget },
    WorkspaceBack,
    SetFloating(bool),
    FocusMonitor,
    ListMonitors,
    ReloadConfig,
    MenubarStyle,
    Doctor,
    /// Answered once something changed, or after a while.
    WaitForChange,
    Shutdown,
    Ping,
    Raw { verb: String, args: Vec<String> },
}

/// Which placement state a window is reported in.
#[derive(Debug, Clone, Copy, PartialEq, Eq, Structural)]
pub enum PlacementInfo {
    Tiled,
    Floating,
    NativeFullscreen,
    Minimized,
    HiddenApplication,
    Popup,
}

/// A rectangle whose coordinates are the bit patterns of IEEE 754 doubles:
/// carried through, never computed with here.
#[derive(Debug, Clone, Copy, PartialEq, Eq, Structural)]
pub struct RectInfo {
    pub x: u64,
    pub y: u64,
    pub width: u64,
    pub height: u64,
}

/// A window as reported by `Command::ListWindows`.
#[derive(Debug, Clone, PartialEq, Eq)]
pub struct WindowInfo {
    pub id: u32,
    pub pid: i32,
    pub title: String,
    pub placement: PlacementInfo,
    pub frame: RectInfo,
}

/// A workspace as reported by `Command::ListWorkspaces`.
#[derive(Debug, Clone, PartialEq, Eq)]
pub struct WorkspaceInfo {
    pub name: String,
    pub active: bool,
    pub window_count: usize,
    /// The monitor that shows the workspace, `None` while it is parked.
    pub monitor: Option<u32>,
}

/// A connected display as reported by `Command::ListMonitors`.
#[derive(Debug, Clone, PartialEq, Eq)]
pub struct MonitorInfo {
    pub id: u32,
    pub is_main: bool,
    pub focused: bool,
    pub active_workspace: Option<String>,
    pub frame: RectInfo,
}

/// What the daemon knows about its own permissions and configuration.
#[derive(Debug, Clone, PartialEq, Eq)]
pub struct DoctorReport {
    pub accessibility_granted: bool,
    pub input_monitoring_granted: bool,
    pub config_warnings: Vec<String>,
}

/// What a reply carries.
#[derive(Debug, PartialEq, Eq)]
pub enum Payload {
    Windows(Vec<WindowInfo>),
    Workspaces(Vec<WorkspaceInfo>),
    Monitors(Vec<MonitorInfo>),
    Mode(String),
    Report(DoctorReport),
}

/// The reply to a command.
#[derive(Debug, PartialEq, Eq)]
pub enum Response {
    Done,
    OkWithPayload(Payload),
    Failed { message: String },
}

}
