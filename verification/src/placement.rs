//! How a window is placed: tiled, floating, or in a state of its own.

use vstd::prelude::*;
use crate::ipc::PlacementInfo;
use crate::text::{opt_str, same_text};

verus! {

/// What the accessibility attributes of a window make of it.
#[derive(Debug, Clone, Copy, PartialEq, Eq, Structural)]
pub enum WindowKind {
    /// An ordinary document or application window.
    Standard,
    /// A dialog.
    Dialog,
    /// Anything transient or unclear.
    Popup,
}

/// What a floating rule says of the windows that it matches.
#[derive(Debug, Clone, Copy, PartialEq, Eq, Structural)]
pub enum FloatingRuleMode {
    Tile,
    Float,
    Ignore,
}

/// Which plain state a window returns to once it leaves a special one.
#[derive(Debug, Clone, Copy, PartialEq, Eq, Structural)]
pub enum Restore {
    Tiled,
    Floating,
}

/// The special states.
#[derive(Debug, Clone, Copy, PartialEq, Eq, Structural)]
pub enum SpecialKind {
    HiddenApplication,
    Minimized,
    NativeFullscreen,
}

/// A floating window's place and size as proportions of a monitor, each the
/// bit pattern of an IEEE 754 double.
#[derive(Debug, Clone, Copy, PartialEq, Eq, Structural)]
pub struct FloatGeometry {
    pub rel_x: u64,
    pub rel_y: u64,
    pub rel_w: u64,
    pub rel_h: u64,
}

/// A window's placement state.
#[derive(Debug, Clone, Copy, PartialEq, Eq, Structural)]
pub enum PlacementKind {
    Tiled,
    Floating {
        /// The user's own placement, once there is one.
        manual: Option<FloatGeometry>,
    },
    NativeFullscreen(Restore),
    Minimized(Restore),
    HiddenApplication(Restore),
    /// Known, and left alone.
    Popup,
}

impl PlacementKind {
    /// Whether a window of this kind is a leaf of its workspace's tree.
    pub open spec fn in_tree(self) -> bool {
        self is Tiled || self is Floating
    }

    pub fn is_in_tree(&self) -> (r: bool)
        ensures
            r == self.in_tree(),
    {
        match self {
            PlacementKind::Tiled => true,
            PlacementKind::Floating { manual: _ } => true,
            _ => false,
        }
    }

    pub fn is_floating(&self) -> (r: bool)
        ensures
            r == (self is Floating),
    {
        match self {
            PlacementKind::Floating { manual: _ } => true,
            _ => false,
        }
    }
}

/// The special state that a window's live flags put it in: a hidden
/// application outranks a minimized window, which outranks a fullscreen one.
pub open spec fn special_of(app_hidden: bool, minimized: bool, fullscreen: bool) -> Option<
    SpecialKind,
> {
    if app_hidden {
        Some(SpecialKind::HiddenApplication)
    } else if minimized {
        Some(SpecialKind::Minimized)
    } else if fullscreen {
        Some(SpecialKind::NativeFullscreen)
    } else {
        None
    }
}

/// Tells which special state a window's live flags put it in.
pub fn special_kind(app_hidden: bool, minimized: bool, fullscreen: bool) -> (r: Option<SpecialKind>)
    ensures
        r == special_of(app_hidden, minimized, fullscreen),
{
    if app_hidden {
        Some(SpecialKind::HiddenApplication)
    } else if minimized {
        Some(SpecialKind::Minimized)
    } else if fullscreen {
        Some(SpecialKind::NativeFullscreen)
    } else {
        None
    }
}

/// The special state that a placement stands for.
pub open spec fn special_in(kind: PlacementKind) -> Option<SpecialKind> {
    match kind {
        PlacementKind::HiddenApplication(_) => Some(SpecialKind::HiddenApplication),
        PlacementKind::Minimized(_) => Some(SpecialKind::Minimized),
        PlacementKind::NativeFullscreen(_) => Some(SpecialKind::NativeFullscreen),
        _ => None,
    }
}

/// Tells which special state a placement stands for.
pub fn current_special(kind: &PlacementKind) -> (r: Option<SpecialKind>)
    ensures
        r == special_in(*kind),
{
    match kind {
        PlacementKind::HiddenApplication(_) => Some(SpecialKind::HiddenApplication),
        PlacementKind::Minimized(_) => Some(SpecialKind::Minimized),
        PlacementKind::NativeFullscreen(_) => Some(SpecialKind::NativeFullscreen),
        _ => None,
    }
}

/// What a window of a placement returns to after a special state. One that is
/// in a special state keeps what it was put there with.
pub open spec fn restore_of(kind: PlacementKind) -> Restore {
    match kind {
        PlacementKind::Tiled | PlacementKind::Popup => Restore::Tiled,
        PlacementKind::Floating { manual: _ } => Restore::Floating,
        PlacementKind::HiddenApplication(r) => r,
        PlacementKind::Minimized(r) => r,
        PlacementKind::NativeFullscreen(r) => r,
    }
}

/// Tells what a window of a placement returns to after a special state.
pub fn restore_for(kind: &PlacementKind) -> (r: Restore)
    ensures
        r == restore_of(*kind),
{
    match kind {
        PlacementKind::Tiled => Restore::Tiled,
        PlacementKind::Popup => Restore::Tiled,
        PlacementKind::Floating { manual: _ } => Restore::Floating,
        PlacementKind::HiddenApplication(r) => *r,
        PlacementKind::Minimized(r) => *r,
        PlacementKind::NativeFullscreen(r) => *r,
    }
}

/// The placement of a window in a special state.
pub open spec fn special_placement(special: SpecialKind, restore: Restore) -> PlacementKind {
    match special {
        SpecialKind::HiddenApplication => PlacementKind::HiddenApplication(restore),
        SpecialKind::Minimized => PlacementKind::Minimized(restore),
        SpecialKind::NativeFullscreen => PlacementKind::NativeFullscreen(restore),
    }
}

/// Gives the placement of a window in a special state.
pub fn placed_special(special: SpecialKind, restore: Restore) -> (r: PlacementKind)
    ensures
        r == special_placement(special, restore),
{
    match special {
        SpecialKind::HiddenApplication => PlacementKind::HiddenApplication(restore),
        SpecialKind::Minimized => PlacementKind::Minimized(restore),
        SpecialKind::NativeFullscreen => PlacementKind::NativeFullscreen(restore),
    }
}

/// The placement that a window is restored to.
pub open spec fn restored_placement(restore: Restore) -> PlacementKind {
    match restore {
        Restore::Tiled => PlacementKind::Tiled,
        Restore::Floating => PlacementKind::Floating { manual: None },
    }
}

/// What a new window's kind makes of it where no rule says otherwise.
pub open spec fn kind_disposition(kind: WindowKind) -> FloatingRuleMode {
    match kind {
        WindowKind::Popup => FloatingRuleMode::Ignore,
        WindowKind::Dialog => FloatingRuleMode::Float,
        WindowKind::Standard => FloatingRuleMode::Tile,
    }
}

/// Decides what becomes of a new window: a rule's mode wins, else its kind
/// decides.
pub fn resolve_disposition(kind: WindowKind, rule_mode: Option<FloatingRuleMode>) -> (r:
    FloatingRuleMode)
    ensures
        r == (match rule_mode {
            Some(mode) => mode,
            None => kind_disposition(kind),
        }),
{
    match rule_mode {
        Some(mode) => mode,
        None => match kind {
            WindowKind::Popup => FloatingRuleMode::Ignore,
            WindowKind::Dialog => FloatingRuleMode::Float,
            WindowKind::Standard => FloatingRuleMode::Tile,
        },
    }
}

/// The placement that a new window gets: a special state outranks its
/// disposition, and remembers whether to return to floating.
pub open spec fn new_placement(
    disposition: FloatingRuleMode,
    app_hidden: bool,
    minimized: bool,
    fullscreen: bool,
) -> PlacementKind {
    match special_of(app_hidden, minimized, fullscreen) {
        Some(special) => special_placement(
            special,
            if disposition == FloatingRuleMode::Float {
                Restore::Floating
            } else {
                Restore::Tiled
            },
        ),
        None => match disposition {
            FloatingRuleMode::Ignore => PlacementKind::Popup,
            FloatingRuleMode::Float => PlacementKind::Floating { manual: None },
            FloatingRuleMode::Tile => PlacementKind::Tiled,
        },
    }
}

/// Decides the placement of a new window.
pub fn classify_new_window(
    disposition: FloatingRuleMode,
    app_hidden: bool,
    minimized: bool,
    fullscreen: bool,
) -> (r: PlacementKind)
    ensures
        r == new_placement(disposition, app_hidden, minimized, fullscreen),
{
    let base: Restore = if disposition == FloatingRuleMode::Float {
        Restore::Floating
    } else {
        Restore::Tiled
    };
    match special_kind(app_hidden, minimized, fullscreen) {
        Some(special) => placed_special(special, base),
        None => match disposition {
            FloatingRuleMode::Ignore => PlacementKind::Popup,
            FloatingRuleMode::Float => PlacementKind::Floating { manual: None },
            FloatingRuleMode::Tile => PlacementKind::Tiled,
        },
    }
}

/// How a placement is reported.
pub open spec fn reported(kind: PlacementKind) -> PlacementInfo {
    match kind {
        PlacementKind::Tiled => PlacementInfo::Tiled,
        PlacementKind::Floating { manual: _ } => PlacementInfo::Floating,
        PlacementKind::NativeFullscreen(_) => PlacementInfo::NativeFullscreen,
        PlacementKind::Minimized(_) => PlacementInfo::Minimized,
        PlacementKind::HiddenApplication(_) => PlacementInfo::HiddenApplication,
        PlacementKind::Popup => PlacementInfo::Popup,
    }
}

/// Tells how a placement is reported.
pub fn placement_info(kind: &PlacementKind) -> (r: PlacementInfo)
    ensures
        r == reported(*kind),
{
    match kind {
        PlacementKind::Tiled => PlacementInfo::Tiled,
        PlacementKind::Floating { manual: _ } => PlacementInfo::Floating,
        PlacementKind::NativeFullscreen(_) => PlacementInfo::NativeFullscreen,
        PlacementKind::Minimized(_) => PlacementInfo::Minimized,
        PlacementKind::HiddenApplication(_) => PlacementInfo::HiddenApplication,
        PlacementKind::Popup => PlacementInfo::Popup,
    }
}

/// The bundle ids of system processes whose windows are always transient.
pub open spec fn system_ui_bundle(id: Seq<char>) -> bool {
    ||| id == "com.apple.dock"@
    ||| id == "com.apple.screencaptureui"@
    ||| id == "com.apple.SecurityAgent"@
    ||| id == "com.apple.Spotlight"@
    ||| id == "com.apple.notificationcenterui"@
}

/// Whether a bundle id belongs to the system's own user interface.
pub fn is_system_ui_bundle(bundle_id: Option<&str>) -> (r: bool)
    ensures
        r == (match opt_str(bundle_id) {
            Some(id) => system_ui_bundle(id),
            None => false,
        }),
{
    match bundle_id {
        Some(id) => same_text(id, "com.apple.dock") || same_text(id, "com.apple.screencaptureui")
            || same_text(id, "com.apple.SecurityAgent") || same_text(id, "com.apple.Spotlight")
            || same_text(id, "com.apple.notificationcenterui"),
        None => false,
    }
}

/// The titles of Finder's dialogs that are always left alone.
pub open spec fn protected_title(title: Seq<char>) -> bool {
    title == "Copy"@ || title == "Connect to Server"@
}

/// Whether a window is one of Finder's dialogs that are always left alone.
pub fn is_protected_finder_dialog(bundle_id: Option<&str>, title: &str) -> (r: bool)
    ensures
        r == (opt_str(bundle_id) == Some("com.apple.finder"@) && protected_title(title@)),
{
    match bundle_id {
        Some(id) => same_text(id, "com.apple.finder") && (same_text(title, "Copy") || same_text(
            title,
            "Connect to Server",
        )),
        None => false,
    }
}

/// How many placements the cascade of floating windows spans before it is at
/// the centre again.
pub const FLOATING_CASCADE_CYCLE: u32 = 8;

/// How many cascade steps a floating window is moved off the centre, along
/// both axes: none, then one step out and one step back, two out, two back,
/// and so on, and none again at the end of each cycle.
pub open spec fn cascade_steps_of(index: u32) -> int {
    let c = index as int % 8;
    if c % 2 == 1 {
        (c + 1) / 2
    } else {
        -(c / 2)
    }
}

/// Tells how many steps the `index`-th floating window is moved off the centre.
pub fn cascade_steps(index: u32) -> (r: i32)
    ensures
        r == cascade_steps_of(index),
{
    let c: u32 = index % FLOATING_CASCADE_CYCLE;
    if c % 2 == 1 {
        ((c + 1) / 2) as i32
    } else {
        -((c / 2) as i32)
    }
}

/// A placement in a special state is told by `special_in` and `restore_of`
/// for what it is.
pub proof fn law_special_placement_is_recognized(special: SpecialKind, restore: Restore)
    ensures
        special_in(special_placement(special, restore)) == Some(special),
        restore_of(special_placement(special, restore)) == restore,
{
}

/// A window that goes through special states and back ends up tiled or
/// floating as it was.
pub proof fn law_restore_survives_special_states(kind: PlacementKind, a: SpecialKind, b: SpecialKind)
    requires
        kind.in_tree(),
    ensures
        ({
            let first = special_placement(a, restore_of(kind));
            let second = special_placement(b, restore_of(first));
            &&& restore_of(second) == restore_of(kind)
            &&& restored_placement(restore_of(second)) is Tiled <==> kind is Tiled
            &&& restored_placement(restore_of(second)) is Floating <==> kind is Floating
        }),
{
}

/// A new window's placement shows exactly the special state that its flags
/// put it in.
pub proof fn law_new_placement_mirrors_the_flags(
    disposition: FloatingRuleMode,
    app_hidden: bool,
    minimized: bool,
    fullscreen: bool,
)
    ensures
        special_in(new_placement(disposition, app_hidden, minimized, fullscreen)) == special_of(
            app_hidden,
            minimized,
            fullscreen,
        ),
{
}

/// The cascade repeats after a cycle, starts each cycle at the centre, and
/// never goes further than half a cycle's steps.
pub proof fn law_cascade_is_bounded_and_periodic(index: u32)
    ensures
        -4 < cascade_steps_of(index) <= 4,
        index % FLOATING_CASCADE_CYCLE == 0 <==> cascade_steps_of(index) == 0,
        index + FLOATING_CASCADE_CYCLE <= u32::MAX ==> cascade_steps_of(
            (index + FLOATING_CASCADE_CYCLE) as u32,
        ) == cascade_steps_of(index),
        index % 2 == 1 && index < u32::MAX && (index + 1) as u32 % FLOATING_CASCADE_CYCLE != 0
            ==> cascade_steps_of((index + 1) as u32) == -cascade_steps_of(index),
{
}

/// A hidden application hides its windows whatever else they are; a minimized
/// window is minimized though it fills a screen; and a window that is none of
/// these is in no special state.
pub proof fn law_special_states_outrank_each_other(minimized: bool, fullscreen: bool)
    ensures
        special_of(true, minimized, fullscreen) == Some(SpecialKind::HiddenApplication),
        special_of(false, true, fullscreen) == Some(SpecialKind::Minimized),
        special_of(false, false, true) == Some(SpecialKind::NativeFullscreen),
        special_of(false, false, false) is None,
{
}

/// A new window that is in no special state floats, is tiled or is left alone
/// as it is said to; one that is in a special state is left there, and floats
/// afterwards exactly if it is said to.
pub proof fn law_new_windows_go_where_they_are_said_to(
    app_hidden: bool,
    minimized: bool,
    fullscreen: bool,
)
    ensures
        ({
            let float = new_placement(FloatingRuleMode::Float, app_hidden, minimized, fullscreen);
            let tile = new_placement(FloatingRuleMode::Tile, app_hidden, minimized, fullscreen);
            let ignore = new_placement(FloatingRuleMode::Ignore, app_hidden, minimized, fullscreen);
            if app_hidden || minimized || fullscreen {
                &&& !float.in_tree() && restore_of(float) == Restore::Floating
                &&& !tile.in_tree() && restore_of(tile) == Restore::Tiled
                &&& !ignore.in_tree() && restore_of(ignore) == Restore::Tiled
            } else {
                &&& float == (PlacementKind::Floating { manual: None })
                &&& tile is Tiled
                &&& ignore is Popup
            }
        }),
{
}

/// What is reported of a placement tells tiled, floating and ignored windows and
/// each special state apart, and does not depend on where the user has a
/// floating window or on what it returns to.
pub proof fn law_reports_tell_placements_apart(a: PlacementKind, b: PlacementKind)
    ensures
        reported(a) == reported(b) <==> special_in(a) == special_in(b) && (a is Tiled <==> b is Tiled)
            && (a is Floating <==> b is Floating) && (a is Popup <==> b is Popup),
        reported(a) is Tiled <==> a is Tiled,
        reported(a) is Floating <==> a is Floating,
        reported(a) is Popup <==> a is Popup,
        reported(a) is Minimized <==> a is Minimized,
        reported(a) is NativeFullscreen <==> a is NativeFullscreen,
        reported(a) is HiddenApplication <==> a is HiddenApplication,
{
}

/// Of as many floating windows as a cycle has, no two are moved equally far off
/// the centre: none covers another.
pub proof fn law_cascade_covers_no_window(i: u32, j: u32)
    requires
        i < j,
        i / FLOATING_CASCADE_CYCLE == j / FLOATING_CASCADE_CYCLE,
    ensures
        cascade_steps_of(i) != cascade_steps_of(j),
{
}

}
