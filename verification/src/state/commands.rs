//! Commands that act on the focused window. What they ask of its container
//! tree is done outside, and the tree's answer is handed in.

use vstd::prelude::*;
use super::{
    active_name, floating_at, focused_at, focused_node, push_all, raised_focus, Action, ActionView,
    StateView, WindowView, WmState,
};
use super::switching::{done, no_actions};
use crate::config::views;
use crate::forest::{fullscreen_toggled, window_at};
use crate::ipc::{LayoutKind, OrientationKind};
use crate::text::outcome;

verus! {

/// The node that a command on tiled windows acts on: the focused one, which
/// must not float. Where the command is about the root container, the focused
/// window may float.
pub open spec fn tiled_focus(s: StateView, root: bool) -> Result<u64, Seq<char>> {
    match focused_node(s) {
        None => Err("no window is focused"@),
        Some(node) => if !root && floating_at(s, node) {
            Err("no tiled window is focused"@)
        } else {
            Ok(node)
        },
    }
}

/// Laying out the focused monitor.
pub open spec fn relayout(s: StateView) -> Seq<ActionView> {
    seq![ActionView::Relayout(s.desk.focused)]
}

/// The outcome of a command on a container, by the tree's answer: nothing but a
/// new layout, or an error in words.
pub open spec fn container_outcome(s: StateView, root: bool, changed: bool, refusal: Seq<char>) -> Result<
    Seq<ActionView>,
    Seq<char>,
> {
    match tiled_focus(s, root) {
        Err(e) => Err(e),
        Ok(node) => if changed {
            Ok(relayout(s))
        } else {
            Err(refusal)
        },
    }
}

/// The state once the focus of the active workspace went to a node, the layout
/// follows, and the window there is raised.
pub open spec fn focus_moved(s: StateView, node: u64) -> (StateView, Seq<ActionView>) {
    let (focused, record) = focused_at(s, node);
    let (end, raise) = raised_focus(focused);
    (end, record + relayout(s) + raise)
}

/// The outcome of moving the focus, by the node that the tree found.
pub open spec fn focus_outcome(s: StateView, found: Option<u64>) -> (
    StateView,
    Result<Seq<ActionView>, Seq<char>>,
) {
    if focused_node(s) is None {
        (s, Err("no window is focused"@))
    } else {
        match found {
            Some(node) => (focus_moved(s, node).0, Ok(focus_moved(s, node).1)),
            None => (s, Err("no window in that direction"@)),
        }
    }
}

/// The outcome of moving the focused window, by whether the tree moved it.
pub open spec fn move_focused_outcome(s: StateView, moved: bool) -> (
    StateView,
    Result<Seq<ActionView>, Seq<char>>,
) {
    match tiled_focus(s, false) {
        Ok(node) => if moved {
            (focus_moved(s, node).0, Ok(focus_moved(s, node).1))
        } else {
            (s, Err("no window in that direction"@))
        },
        Err(e) => (s, Err(e)),
    }
}

/// The outcome of resizing the focused window, by whether the tree resized it.
pub open spec fn resize_outcome(s: StateView, resized: bool) -> Result<Seq<ActionView>, Seq<char>> {
    match focused_node(s) {
        None => Err("no window is focused"@),
        Some(node) => if resized && !floating_at(s, node) {
            Ok(relayout(s))
        } else {
            Err("nothing to resize — no tiled container here"@)
        },
    }
}

/// The outcome of setting a container's layout, by what the tree says of it.
pub open spec fn layout_outcome(
    s: StateView,
    kind: LayoutKind,
    root: bool,
    is_accordion: bool,
    toggled: bool,
) -> Result<Seq<ActionView>, Seq<char>> {
    match tiled_focus(s, root) {
        Err(e) => Err(e),
        Ok(node) => if is_accordion == (kind == LayoutKind::Accordion) {
            Ok(Seq::empty())
        } else if toggled {
            Ok(relayout(s))
        } else {
            Err("nothing to set — only one window here"@)
        },
    }
}

/// The outcome of closing the focused window.
pub open spec fn close_outcome(s: StateView) -> Result<Seq<ActionView>, Seq<char>> {
    match focused_window(s) {
        Ok(id) => Ok(seq![ActionView::Close(id)]),
        Err(e) => Err(e),
    }
}

/// The other axis. A container that has none yet counts as horizontal.
pub open spec fn flipped(existing: Option<OrientationKind>) -> OrientationKind {
    if existing == Some(OrientationKind::Vertical) {
        OrientationKind::Horizontal
    } else {
        OrientationKind::Vertical
    }
}

/// Gives the axis that toggling leads to.
pub fn next_orientation(existing: Option<OrientationKind>) -> (r: OrientationKind)
    ensures
        r == flipped(existing),
{
    match existing {
        Some(OrientationKind::Vertical) => OrientationKind::Horizontal,
        _ => OrientationKind::Vertical,
    }
}

/// The known window at the focused node.
pub open spec fn focused_window(s: StateView) -> Result<u32, Seq<char>> {
    match focused_node(s) {
        None => Err("no window is focused"@),
        Some(node) => match window_at(s.forest, active_name(s), node) {
            Some(id) => if s.windows.contains_key(id) {
                Ok(id)
            } else {
                Err("focused window not found"@)
            },
            None => Err("focused window not found"@),
        },
    }
}

/// The state after toggling fullscreen, and what has to be done: natively by
/// the window itself, else by the layout.
pub open spec fn fullscreen_done(s: StateView, native: bool) -> (
    StateView,
    Result<Seq<ActionView>, Seq<char>>,
) {
    if native {
        match focused_window(s) {
            Ok(id) => (
                StateView {
                    windows: s.windows.insert(
                        id,
                        WindowView { fullscreen: !s.windows[id].fullscreen, ..s.windows[id] },
                    ),
                    ..s
                },
                Ok(
                    seq![
                        ActionView::SetNativeFullscreen {
                            window: id,
                            on: !s.windows[id].fullscreen,
                        },
                    ],
                ),
            ),
            Err(e) => (s, Err(e)),
        }
    } else {
        match tiled_focus(s, false) {
            Ok(node) => (
                StateView { forest: fullscreen_toggled(s.forest, active_name(s), node), ..s },
                Ok(relayout(s)),
            ),
            Err(e) => (s, Err(e)),
        }
    }
}

impl WmState {
    /// The node that a command on tiled windows acts on.
    pub fn tiled_focus(&self, root: bool) -> (r: Result<u64, String>)
        requires
            self.wf(),
        ensures
            outcome(r) == tiled_focus(self@, root),
    {
        match self.focused_node() {
            Some(node) => {
                if !root && self.focused_window_is_floating(node) {
                    Err("no tiled window is focused".to_owned())
                } else {
                    Ok(node)
                }
            },
            None => Err("no window is focused".to_owned()),
        }
    }

    fn relayout_active(&self) -> (r: Vec<Action>)
        ensures
            views(r@) == relayout(self@),
    {
        let mut out: Vec<Action> = Vec::new();
        out.push(Action::Relayout(self.desk.focused()));
        assert(views(out@) =~= relayout(self@));
        out
    }

    /// Moves the focus to the node that the tree found in a direction from
    /// `focused_node`, if it found one.
    pub fn focus(&mut self, found: Option<u64>) -> (r: Result<Vec<Action>, String>)
        requires
            old(self).wf(),
        ensures
            final(self).wf(),
            (final(self)@, done(r)) == focus_outcome(old(self)@, found),
    {
        if self.focused_node().is_none() {
            return Err("no window is focused".to_owned());
        }
        match found {
            Some(node) => Ok(self.move_focus(node)),
            None => Err("no window in that direction".to_owned()),
        }
    }

    fn move_focus(&mut self, node: u64) -> (r: Vec<Action>)
        requires
            old(self).wf(),
        ensures
            final(self).wf(),
            (final(self)@, views(r@)) == focus_moved(old(self)@, node),
    {
        let mut out: Vec<Action> = self.set_focused_node(node);
        push_all(&mut out, self.relayout_active());
        push_all(&mut out, self.raise_focused());
        out
    }

    /// Keeps the focus on the window that the tree moved in a direction from
    /// the node that `tiled_focus` gives, if it moved it.
    pub fn move_focused(&mut self, moved: bool) -> (r: Result<Vec<Action>, String>)
        requires
            old(self).wf(),
        ensures
            final(self).wf(),
            (final(self)@, done(r)) == move_focused_outcome(old(self)@, moved),
    {
        match self.tiled_focus(false) {
            Ok(node) => {
                if moved {
                    Ok(self.move_focus(node))
                } else {
                    Err("no window in that direction".to_owned())
                }
            },
            Err(e) => Err(e),
        }
    }

    /// Lays out anew what the tree joined, if it joined anything.
    pub fn join(&self, joined: bool) -> (r: Result<Vec<Action>, String>)
        requires
            self.wf(),
        ensures
            done(r) == container_outcome(
                self@,
                false,
                joined,
                "nothing to join in that direction"@,
            ),
    {
        match self.tiled_focus(false) {
            Ok(_) => {
                if joined {
                    Ok(self.relayout_active())
                } else {
                    Err("nothing to join in that direction".to_owned())
                }
            },
            Err(e) => Err(e),
        }
    }

    /// Lays out anew what the tree resized, if it resized anything.
    pub fn resize(&self, resized: bool) -> (r: Result<Vec<Action>, String>)
        requires
            self.wf(),
        ensures
            done(r) == resize_outcome(self@, resized),
    {
        match self.focused_node() {
            Some(node) => {
                if resized && !self.focused_window_is_floating(node) {
                    Ok(self.relayout_active())
                } else {
                    Err("nothing to resize — no tiled container here".to_owned())
                }
            },
            None => Err("no window is focused".to_owned()),
        }
    }

    /// Lays out anew the container whose axis the tree set, if it set one.
    pub fn set_orientation(&self, root: bool, changed: bool) -> (r: Result<Vec<Action>, String>)
        requires
            self.wf(),
        ensures
            done(r) == container_outcome(
                self@,
                root,
                changed,
                "nothing to set — only one window here"@,
            ),
    {
        match self.tiled_focus(root) {
            Ok(_) => {
                if changed {
                    Ok(self.relayout_active())
                } else {
                    Err("nothing to set — only one window here".to_owned())
                }
            },
            Err(e) => Err(e),
        }
    }

    /// Lays out anew the container whose axis the tree set to what
    /// `next_orientation` gave, if it set it.
    pub fn toggle_orientation(&self, root: bool, changed: bool) -> (r: Result<Vec<Action>, String>)
        requires
            self.wf(),
        ensures
            done(r) == container_outcome(
                self@,
                root,
                changed,
                "nothing to set — only one window here"@,
            ),
    {
        self.set_orientation(root, changed)
    }

    /// Lays out anew the container whose layout the tree toggled, if it toggled
    /// one.
    pub fn toggle_layout(&self, root: bool, toggled: bool) -> (r: Result<Vec<Action>, String>)
        requires
            self.wf(),
        ensures
            done(r) == container_outcome(
                self@,
                root,
                toggled,
                "nothing to toggle — only one window here"@,
            ),
    {
        match self.tiled_focus(root) {
            Ok(_) => {
                if toggled {
                    Ok(self.relayout_active())
                } else {
                    Err("nothing to toggle — only one window here".to_owned())
                }
            },
            Err(e) => Err(e),
        }
    }

    /// Sets a container's layout. `is_accordion` is what the tree says of it
    /// now; only where that is not what is wanted is the tree to toggle it, and
    /// `toggled` says whether it did.
    pub fn set_layout(
        &self,
        kind: LayoutKind,
        root: bool,
        is_accordion: bool,
        toggled: bool,
    ) -> (r: Result<Vec<Action>, String>)
        requires
            self.wf(),
        ensures
            done(r) == layout_outcome(self@, kind, root, is_accordion, toggled),
    {
        match self.tiled_focus(root) {
            Ok(_) => {
                if is_accordion == (kind == LayoutKind::Accordion) {
                    Ok(no_actions())
                } else if toggled {
                    Ok(self.relayout_active())
                } else {
                    Err("nothing to set — only one window here".to_owned())
                }
            },
            Err(e) => Err(e),
        }
    }

    /// Lays out anew the container that the tree balanced, if it balanced one.
    pub fn balance_sizes(&self, root: bool, balanced: bool) -> (r: Result<Vec<Action>, String>)
        requires
            self.wf(),
        ensures
            done(r) == container_outcome(
                self@,
                root,
                balanced,
                "nothing to balance — only one window here"@,
            ),
    {
        match self.tiled_focus(root) {
            Ok(_) => {
                if balanced {
                    Ok(self.relayout_active())
                } else {
                    Err("nothing to balance — only one window here".to_owned())
                }
            },
            Err(e) => Err(e),
        }
    }

    fn focused_window(&self) -> (r: Result<u32, String>)
        requires
            self.wf(),
        ensures
            outcome(r) == focused_window(self@),
    {
        let node: u64 = match self.focused_node() {
            Some(node) => node,
            None => {
                return Err("no window is focused".to_owned());
            },
        };
        let name: String = self.active_workspace_name();
        match self.forest.window_at(name.as_str(), node) {
            Some(id) => {
                if self.windows.contains(&id) {
                    Ok(id)
                } else {
                    Err("focused window not found".to_owned())
                }
            },
            None => Err("focused window not found".to_owned()),
        }
    }

    /// Makes the focused window fill the screen, or not any more.
    pub fn toggle_fullscreen(&mut self, native: bool) -> (r: Result<Vec<Action>, String>)
        requires
            old(self).wf(),
        ensures
            final(self).wf(),
            (final(self)@, done(r)) == fullscreen_done(old(self)@, native),
    {
        let ghost s = self@;
        if native {
            match self.focused_window() {
                Ok(id) => {
                    let on: bool = match self.windows.remove(&id) {
                        Some(mut w) => {
                            let on: bool = !w.fullscreen;
                            w.fullscreen = on;
                            self.windows.insert(id, w);
                            on
                        },
                        None => true,
                    };
                    assert(self@.windows =~= fullscreen_done(s, native).0.windows);
                    let mut out: Vec<Action> = Vec::new();
                    out.push(Action::SetNativeFullscreen { window: id, on });
                    assert(views(out@) =~= fullscreen_done(s, native).1->Ok_0);
                    Ok(out)
                },
                Err(e) => Err(e),
            }
        } else {
            match self.tiled_focus(false) {
                Ok(node) => {
                    let name: String = self.active_workspace_name();
                    self.forest.toggle_fullscreen(name.as_str(), node);
                    Ok(self.relayout_active())
                },
                Err(e) => Err(e),
            }
        }
    }

    /// Presses the close button of the focused window.
    pub fn close_focused(&self) -> (r: Result<Vec<Action>, String>)
        requires
            self.wf(),
        ensures
            done(r) == close_outcome(self@),
    {
        match self.focused_window() {
            Ok(id) => {
                let mut out: Vec<Action> = Vec::new();
                out.push(Action::Close(id));
                assert(views(out@) =~= seq![ActionView::Close(id)]);
                Ok(out)
            },
            Err(e) => Err(e),
        }
    }

    /// A mouse button is down: windows are left alone until it is up again.
    pub fn on_mouse_button_down(&mut self)
        requires
            old(self).wf(),
        ensures
            final(self).wf(),
            final(self)@ == (StateView { mouse_button_down: true, ..old(self)@ }),
    {
        self.mouse_button_down = true;
    }

    /// The mouse button is up again.
    pub fn on_mouse_button_up(&mut self) -> (r: Vec<Action>)
        requires
            old(self).wf(),
        ensures
            final(self).wf(),
            final(self)@ == (StateView { mouse_button_down: false, ..old(self)@ }),
            views(r@) == relayout(old(self)@),
    {
        self.mouse_button_down = false;
        self.relayout_active()
    }
}

/// Toggling a container's axis twice leads back to where it was.
pub proof fn law_orientation_toggles_back(o: OrientationKind)
    ensures
        flipped(Some(flipped(Some(o)))) == o,
        flipped(None) == OrientationKind::Vertical,
{
}

/// No command on tiled windows does anything to a floating one, whatever the
/// tree would answer.
pub proof fn law_floating_focus_is_refused(s: StateView, node: u64, changed: bool, refusal: Seq<char>)
    requires
        focused_node(s) == Some(node),
        floating_at(s, node),
    ensures
        tiled_focus(s, false) is Err,
        container_outcome(s, false, changed, refusal) == Err::<Seq<ActionView>, Seq<char>>(
            "no tiled window is focused"@,
        ),
        fullscreen_done(s, false) == (
            s,
            Err::<Seq<ActionView>, Seq<char>>("no tiled window is focused"@),
        ),
{
}

}
