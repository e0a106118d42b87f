//! Resizing with the mouse: what the drag of a tiled window's edge asks of the
//! tree, and how often the mouse is listened to.

use vstd::prelude::*;
use crate::grace::elapsed;

verus! {

/// How long the mouse has to be silent between two moves that count, in
/// milliseconds.
pub const THROTTLE: u64 = 80;

/// One edge of a tiled window. The drag of a corner moves two of them.
#[derive(Debug, Clone, Copy, PartialEq, Eq, Structural)]
pub enum ResizeEdge {
    Left,
    Right,
    Top,
    Bottom,
}

/// The tree's border that an edge lies on: the branches before and after it.
#[derive(Debug, Clone, Copy, PartialEq, Eq, Structural)]
pub struct Border {
    pub before: u64,
    pub after: u64,
}

/// How far an edge was dragged, measured in weight.
#[derive(Debug, Clone, Copy, PartialEq, Eq, Structural)]
pub struct Pull {
    /// Whether the drag asks for at least as much as there is room for.
    pub beyond: bool,
    /// Whether there is any room.
    pub room: bool,
    /// The nearest number of whole steps.
    pub steps: u64,
}

/// How much a branch is resized by, in the direction of the drag.
#[derive(Debug, Clone, Copy, PartialEq, Eq, Structural)]
pub enum Amount {
    /// By all that there is room for.
    Room,
    /// By so many steps, or what there is room for if that is less.
    Steps(u64),
}

/// The window is before the border that this edge lies on.
pub open spec fn before_border(edge: ResizeEdge) -> bool {
    edge == ResizeEdge::Right || edge == ResizeEdge::Bottom
}

/// Says whether the window is before the border that an edge lies on. It grows
/// where such an edge moves right or down, and where another one moves left or
/// up.
pub fn is_before_border(edge: ResizeEdge) -> (r: bool)
    ensures
        r == before_border(edge),
{
    match edge {
        ResizeEdge::Left => false,
        ResizeEdge::Right => true,
        ResizeEdge::Top => false,
        ResizeEdge::Bottom => true,
    }
}

/// The branch of a border that a window's edge resizes.
pub open spec fn side_of(edge: ResizeEdge, border: Border) -> u64 {
    if before_border(edge) {
        border.before
    } else {
        border.after
    }
}

/// What the drag of an edge asks of the tree. Nothing if the edge did not
/// move, lies on no border, has no bounds, or moved by less than half a step
/// and stayed within them.
pub open spec fn magnet(
    edge: ResizeEdge,
    moved: bool,
    border: Option<Border>,
    pull: Option<Pull>,
) -> Option<(u64, Amount)> {
    match (border, pull) {
        (Some(b), Some(p)) => if !moved {
            None
        } else if p.beyond {
            if p.room {
                Some((side_of(edge, b), Amount::Room))
            } else {
                None
            }
        } else if p.steps >= 1 {
            Some((side_of(edge, b), Amount::Steps(p.steps)))
        } else {
            None
        },
        _ => None,
    }
}

/// Says what the drag of an edge asks of the tree.
pub fn magnet_resize_edge(
    edge: ResizeEdge,
    moved: bool,
    border: Option<Border>,
    pull: Option<Pull>,
) -> (r: Option<(u64, Amount)>)
    ensures
        r == magnet(edge, moved, border, pull),
{
    if !moved {
        return None;
    }
    let branch: u64 = match border {
        Some(b) => if is_before_border(edge) {
            b.before
        } else {
            b.after
        },
        None => {
            return None;
        },
    };
    match pull {
        Some(p) => {
            if p.beyond {
                if p.room {
                    Some((branch, Amount::Room))
                } else {
                    None
                }
            } else if p.steps < 1 {
                None
            } else {
                Some((branch, Amount::Steps(p.steps)))
            }
        },
        None => None,
    }
}

/// A position among the windows of a drag is that of the dragged one: it is
/// known and moved, and none before it is.
pub open spec fn dragged_at(known: Seq<bool>, moved: Seq<bool>, i: int) -> bool {
    &&& 0 <= i < known.len() && i < moved.len()
    &&& known[i] && moved[i]
    &&& forall|j: int| 0 <= j < i ==> !(#[trigger] known[j] && moved[j])
}

/// The position of the dragged window, given which of a drag's windows are
/// still known and which of them moved.
pub fn dragged_window(known: &Vec<bool>, moved: &Vec<bool>) -> (r: Option<usize>)
    requires
        known@.len() == moved@.len(),
    ensures
        found_dragged(known@, moved@, r),
{
    let mut i: usize = 0;
    while i < known.len()
        invariant
            known@.len() == moved@.len(),
            i <= known.len(),
            forall|j: int| 0 <= j < i ==> !(#[trigger] known@[j] && moved@[j]),
        decreases known.len() - i,
    {
        if known[i] && moved[i] {
            return Some(i);
        }
        i = i + 1;
    }
    None
}

/// What the mouse did. Where it is is told by bit patterns of floating-point
/// numbers.
#[derive(Debug, Clone, Copy, PartialEq, Eq, Structural)]
pub enum MouseSignal {
    Moved { x: u64, y: u64 },
    ButtonDown,
    ButtonUp,
}

/// When a move of the mouse was last passed on.
#[derive(Debug)]
pub struct Throttle {
    pub last_sent: Option<u64>,
}

/// A signal is passed on: moves only if none was for a while.
pub open spec fn passes(last_sent: Option<u64>, signal: MouseSignal, now: u64) -> bool {
    match signal {
        MouseSignal::Moved { x, y } => match last_sent {
            Some(t) => elapsed(t, now) >= THROTTLE,
            None => true,
        },
        _ => true,
    }
}

impl Throttle {
    pub fn new() -> (r: Self)
        ensures
            r.last_sent is None,
    {
        Throttle { last_sent: None }
    }

    /// Says whether a signal is passed on.
    pub fn lets_pass(&mut self, signal: MouseSignal, now: u64) -> (r: bool)
        ensures
            r == passes(old(self).last_sent, signal, now),
            final(self).last_sent == sent_after(old(self).last_sent, signal, now),
    {
        match signal {
            MouseSignal::Moved { x, y } => {
                let due: bool = match self.last_sent {
                    Some(t) => now >= t && now - t >= THROTTLE,
                    None => true,
                };
                if due {
                    self.last_sent = Some(now);
                }
                due
            },
            MouseSignal::ButtonDown => true,
            MouseSignal::ButtonUp => true,
        }
    }
}

/// An edge that did not move asks for nothing, and one that did never for more
/// than there is room for.
pub proof fn law_magnet_stays_within_bounds(
    edge: ResizeEdge,
    moved: bool,
    border: Option<Border>,
    pull: Pull,
)
    ensures
        magnet(edge, false, border, Some(pull)) is None,
        !pull.room && pull.beyond ==> magnet(edge, moved, border, Some(pull)) is None,
        pull.beyond ==> !(magnet(edge, moved, border, Some(pull)) matches Some((_, Amount::Steps(_)))),
{
}

/// The two opposite edges of a border resize its two sides.
pub proof fn law_opposite_edges_share_a_border(border: Border)
    ensures
        side_of(ResizeEdge::Right, border) == border.before,
        side_of(ResizeEdge::Left, border) == border.after,
        side_of(ResizeEdge::Bottom, border) == border.before,
        side_of(ResizeEdge::Top, border) == border.after,
{
}

/// `r` is the window that was dragged, if any was.
pub open spec fn found_dragged(known: Seq<bool>, moved: Seq<bool>, r: Option<usize>) -> bool {
    match r {
        Some(i) => dragged_at(known, moved, i as int),
        None => forall|j: int| 0 <= j < known.len() ==> !(#[trigger] known[j] && moved[j]),
    }
}

/// When the last move was passed on, after a signal.
pub open spec fn sent_after(last_sent: Option<u64>, signal: MouseSignal, now: u64) -> Option<u64> {
    if signal is Moved && passes(last_sent, signal, now) {
        Some(now)
    } else {
        last_sent
    }
}

/// The window that was dragged is the first one of those that are known and
/// moved, and there is one exactly if any is.
pub proof fn law_first_moved_window_was_dragged(
    known: Seq<bool>,
    moved: Seq<bool>,
    r: Option<usize>,
    j: int,
)
    requires
        found_dragged(known, moved, r),
        known.len() == moved.len(),
        0 <= j < known.len(),
        known[j] && moved[j],
    ensures
        r is Some,
        r->0 <= j,
        known[r->0 as int] && moved[r->0 as int],
{
    assert(known[j] && moved[j]);
}

/// An edge that moved and lies on a border asks for as many steps as it moved
/// by, or for all the room that there is where it moved beyond that. The side
/// that it asks for is the one that the window is on.
pub proof fn law_drags_ask_for_what_they_moved_by(edge: ResizeEdge, border: Border, pull: Pull)
    ensures
        ({
            let side = match edge {
                ResizeEdge::Right | ResizeEdge::Bottom => border.before,
                ResizeEdge::Left | ResizeEdge::Top => border.after,
            };
            let asked = magnet(edge, true, Some(border), Some(pull));
            &&& !pull.beyond && pull.steps > 0 ==> asked == Some((side, Amount::Steps(pull.steps)))
            &&& pull.beyond && pull.room ==> asked == Some((side, Amount::Room))
            &&& !pull.beyond && pull.steps == 0 ==> asked is None
            &&& magnet(edge, true, None, Some(pull)) is None
            &&& magnet(edge, true, Some(border), None) is None
        }),
{
}

/// Presses and releases of a button are always passed on. A move is passed on
/// exactly if none was within the time before it, so that two that are passed
/// on are never closer than that.
pub proof fn law_moves_are_throttled(
    last: Option<u64>,
    first: MouseSignal,
    second: MouseSignal,
    now: u64,
    then: u64,
)
    requires
        now <= then,
    ensures
        !(first is Moved) ==> passes(last, first, now) && sent_after(last, first, now) == last,
        passes(None, first, now),
        first is Moved && passes(last, first, now) && second is Moved ==> (passes(
            sent_after(last, first, now),
            second,
            then,
        ) <==> then >= now + THROTTLE),
        first is Moved && !passes(last, first, now) ==> sent_after(last, first, now) == last,
{
}

}
