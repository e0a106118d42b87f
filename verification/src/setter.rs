//! Moving windows: at once, or in an animation. Where a window is to be
//! written, and when, is decided here. Times are in milliseconds.

use vstd::prelude::*;
use crate::grace::elapsed;
use crate::ipc::RectInfo;
use crate::table::Table;

verus! {

/// The animation of one window.
#[derive(Debug, Clone, Copy, PartialEq, Eq, Structural)]
pub struct Tween {
    pub start: RectInfo,
    pub target: RectInfo,
    pub started: u64,
}

impl View for Tween {
    type V = Tween;

    open spec fn view(&self) -> Tween {
        *self
    }
}

/// What a setter holds.
#[verifier::ext_equal]
pub struct SetterView {
    /// The animations under way.
    pub active: Map<u32, Tween>,
    pub duration: u64,
    /// Whether windows are moved at once for now.
    pub at_once: bool,
    /// Whether they always are.
    pub instant: bool,
}

/// A request to move a window.
#[derive(Debug, Clone, Copy, PartialEq, Eq, Structural)]
pub struct Request {
    pub id: u32,
    /// Where the window is.
    pub from: RectInfo,
    pub target: RectInfo,
    /// Whether it is there already.
    pub there: bool,
    /// Whether an animation under way leads there.
    pub on_the_way: bool,
    pub now: u64,
}

/// A request is answered by writing its target at once.
pub open spec fn written_at_once(s: SetterView, q: Request) -> bool {
    s.at_once || (!(s.active.contains_key(q.id) && q.on_the_way) && q.there)
}

/// The setter once a request was made. An animation that leads to the target
/// keeps its clock: restarting it would never let it end.
pub open spec fn requested(s: SetterView, q: Request) -> SetterView {
    if written_at_once(s, q) {
        SetterView { active: s.active.remove(q.id), ..s }
    } else if s.active.contains_key(q.id) && q.on_the_way {
        s
    } else {
        SetterView {
            active: s.active.insert(
                q.id,
                Tween { start: q.from, target: q.target, started: q.now },
            ),
            ..s
        }
    }
}

/// One write of an animation.
#[derive(Debug, Clone, Copy, PartialEq, Eq, Structural)]
pub enum Frame {
    /// The end.
    Target(RectInfo),
    /// A part of the way, as far as `passed` is of the duration.
    Between { start: RectInfo, target: RectInfo, passed: u64 },
}

/// The setter once windows are moved at once for now, or no more.
pub open spec fn suppressed_to(s: SetterView, suppressed: bool) -> SetterView {
    SetterView { at_once: suppressed || s.instant, ..s }
}

/// The setter once the animation of a window ended.
pub open spec fn finished(s: SetterView, id: u32) -> SetterView {
    SetterView { active: s.active.remove(id), ..s }
}

/// Where the animation of a window leads.
pub open spec fn leads_to(s: SetterView, id: u32) -> Option<RectInfo> {
    if s.active.contains_key(id) {
        Some(s.active[id].target)
    } else {
        None
    }
}

/// An animation is over.
pub open spec fn is_over(t: Tween, duration: u64, now: u64) -> bool {
    elapsed(t.started, now) >= duration
}

/// What an animation writes now.
pub open spec fn frame_now(t: Tween, duration: u64, now: u64) -> Frame {
    if is_over(t, duration, now) {
        Frame::Target(t.target)
    } else {
        Frame::Between { start: t.start, target: t.target, passed: elapsed(t.started, now) as u64 }
    }
}

/// The animations after a tick: those of windows that are still there and that
/// are not over.
pub open spec fn ticked(s: SetterView, windows: Seq<u32>, now: u64) -> SetterView {
    SetterView {
        active: s.active.restrict(
            s.active.dom().filter(
                |id: u32| windows.contains(id) && !is_over(s.active[id], s.duration, now),
            ),
        ),
        ..s
    }
}

/// What a tick writes: each animated window that is still there, once.
pub open spec fn tick_writes(s: SetterView, windows: Seq<u32>, now: u64, out: Seq<(u32, Frame)>) -> bool {
    &&& forall|i: int, j: int| 0 <= i < j < out.len() ==> (#[trigger] out[i]).0 != (#[trigger] out[j]).0
    &&& forall|i: int|
        0 <= i < out.len() ==> s.active.contains_key((#[trigger] out[i]).0) && windows.contains(out[i].0)
            && out[i].1 == frame_now(s.active[out[i].0], s.duration, now)
    &&& forall|id: u32| #[trigger]
        s.active.contains_key(id) && windows.contains(id) ==> exists|i: int|
            0 <= i < out.len() && (#[trigger] out[i]).0 == id
}

/// What moves windows.
pub trait WindowFrameSetter: View<V = SetterView> + Sized {
    spec fn wf(&self) -> bool;

    /// Moves a window. Returns whether its target has to be written at once.
    fn set_frame(&mut self, request: Request) -> (r: bool)
        requires
            old(self).wf(),
        ensures
            final(self).wf(),
            r == written_at_once(old(self)@, request),
            final(self)@ == requested(old(self)@, request),
    ;

    /// Carries all animations on. Returns what has to be written.
    fn tick(&mut self, windows: &Vec<u32>, now: u64) -> (r: Vec<(u32, Frame)>)
        requires
            old(self).wf(),
        ensures
            final(self).wf(),
            final(self)@ == ticked(old(self)@, windows@, now),
            tick_writes(old(self)@, windows@, now, r@),
    ;

    fn is_animating(&self, id: u32) -> (r: bool)
        requires
            self.wf(),
        ensures
            r == self@.active.contains_key(id),
    ;

    fn has_active_animations(&self) -> (r: bool)
        requires
            self.wf(),
        ensures
            r == (self@.active.dom() != Set::<u32>::empty()),
    ;

    /// Ends the animation of a window. Returns where the window has to be
    /// written.
    fn finish(&mut self, id: u32) -> (r: Option<RectInfo>)
        requires
            old(self).wf(),
        ensures
            final(self).wf(),
            r == leads_to(old(self)@, id),
            final(self)@ == finished(old(self)@, id),
    ;

    /// Has windows moved at once for now, or no more.
    fn set_suppressed(&mut self, suppressed: bool)
        requires
            old(self).wf(),
        ensures
            final(self).wf(),
            final(self)@ == suppressed_to(old(self)@, suppressed),
    ;
}

/// Moves windows at once.
pub struct InstantFrameSetter;

impl View for InstantFrameSetter {
    type V = SetterView;

    open spec fn view(&self) -> SetterView {
        SetterView { active: Map::empty(), duration: 0, at_once: true, instant: true }
    }
}

impl WindowFrameSetter for InstantFrameSetter {
    open spec fn wf(&self) -> bool {
        true
    }

    fn set_frame(&mut self, request: Request) -> (r: bool) {
        proof {
            let m = Map::<u32, Tween>::empty();
            assert(m.remove(request.id) =~= m);
        }
        true
    }

    fn tick(&mut self, windows: &Vec<u32>, now: u64) -> (r: Vec<(u32, Frame)>) {
        assert(ticked(self@, windows@, now).active =~= Map::empty());
        Vec::new()
    }

    fn is_animating(&self, id: u32) -> (r: bool) {
        false
    }

    fn has_active_animations(&self) -> (r: bool) {
        assert(Map::<u32, Tween>::empty().dom() =~= Set::empty());
        false
    }

    fn finish(&mut self, id: u32) -> (r: Option<RectInfo>) {
        proof {
            let m = Map::<u32, Tween>::empty();
            assert(m.remove(id) =~= m);
        }
        None
    }

    fn set_suppressed(&mut self, suppressed: bool) {
    }
}

/// Moves windows in an animation.
pub struct TweenedFrameSetter {
    active: Table<u32, Tween>,
    duration: u64,
    suppressed: bool,
}

impl View for TweenedFrameSetter {
    type V = SetterView;

    closed spec fn view(&self) -> SetterView {
        SetterView {
            active: self.active@,
            duration: self.duration,
            at_once: self.suppressed,
            instant: false,
        }
    }
}

impl TweenedFrameSetter {
    /// A setter whose animations take this long.
    pub fn new(duration: u64) -> (r: Self)
        ensures
            r.wf(),
            r@ == (SetterView { active: Map::empty(), duration, at_once: false, instant: false }),
    {
        TweenedFrameSetter { active: Table::new(), duration, suppressed: false }
    }

    /// Where the animation of a window leads.
    pub fn target_of(&self, id: u32) -> (r: Option<RectInfo>)
        requires
            self.wf(),
        ensures
            r == leads_to(self@, id),
    {
        match self.active.get(&id) {
            Some(t) => Some(t.target),
            None => None,
        }
    }
}

fn among(windows: &Vec<u32>, id: u32) -> (r: bool)
    ensures
        r == windows@.contains(id),
{
    let mut i: usize = 0;
    while i < windows.len()
        invariant
            i <= windows.len(),
            forall|j: int| 0 <= j < i ==> windows@[j] != id,
        decreases windows.len() - i,
    {
        if windows[i] == id {
            return true;
        }
        i = i + 1;
    }
    false
}

impl WindowFrameSetter for TweenedFrameSetter {
    closed spec fn wf(&self) -> bool {
        self.active.wf()
    }

    fn set_frame(&mut self, request: Request) -> (r: bool) {
        if self.suppressed {
            self.active.remove(&request.id);
            return true;
        }
        if request.on_the_way && self.active.contains(&request.id) {
            return false;
        }
        if request.there {
            self.active.remove(&request.id);
            return true;
        }
        self.active.insert(
            request.id,
            Tween { start: request.from, target: request.target, started: request.now },
        );
        false
    }

    fn tick(&mut self, windows: &Vec<u32>, now: u64) -> (r: Vec<(u32, Frame)>) {
        let ghost s = self@;
        let mut left: Table<u32, Tween> = Table::new();
        let mut out: Vec<(u32, Frame)> = Vec::new();
        let mut i: usize = 0;
        let ghost order = self.active.order();
        while i < self.active.len()
            invariant
                self.active.wf(),
                left.wf(),
                s == self@,
                order == self.active.order(),
                i <= order.len(),
                forall|id: u32| #[trigger]
                    left@.contains_key(id) <==> order.take(i as int).contains(id) && windows@.contains(id)
                        && !is_over(s.active[id], s.duration, now),
                forall|id: u32| #[trigger] left@.contains_key(id) ==> left@[id] == s.active[id],
                forall|k: int| 0 <= k < out@.len() ==> order.take(i as int).contains((#[trigger] out@[k]).0),
                forall|k: int, j: int| 0 <= k < j < out@.len() ==> (#[trigger] out@[k]).0 != (#[trigger] out@[j]).0,
                forall|k: int|
                    0 <= k < out@.len() ==> s.active.contains_key((#[trigger] out@[k]).0) && windows@.contains(out@[k].0)
                        && out@[k].1 == frame_now(s.active[out@[k].0], s.duration, now),
                forall|id: u32| #[trigger]
                    order.take(i as int).contains(id) && windows@.contains(id) ==> exists|k: int|
                        0 <= k < out@.len() && (#[trigger] out@[k]).0 == id,
            decreases order.len() - i,
        {
            let ghost seen = order.take(i as int);
            let ghost more = order.take(i + 1);
            let id: u32 = *self.active.key_at(i);
            let tween: Tween = *self.active.value_at(i);
            proof {
                assert(more =~= seen.push(id));
                assert(more[i as int] == id);
                assert forall|x: u32| #[trigger] more.contains(x) <==> seen.contains(x) || x == id by {
                    if seen.contains(x) {
                        assert(more[seen.index_of(x)] == x);
                    }
                    if more.contains(x) && x != id {
                        assert(seen[more.index_of(x)] == x);
                    }
                }
                assert(!seen.contains(id)) by {
                    if seen.contains(id) {
                        let k = seen.index_of(id);
                        assert(order[k] == order[i as int]);
                    }
                }
            }
            if among(windows, id) {
                let ghost before = out@;
                if now >= tween.started && now - tween.started >= self.duration || (now < tween.started
                    && self.duration == 0) {
                    out.push((id, Frame::Target(tween.target)));
                } else {
                    let passed: u64 = if now >= tween.started {
                        now - tween.started
                    } else {
                        0
                    };
                    out.push(
                        (id, Frame::Between { start: tween.start, target: tween.target, passed }),
                    );
                    left.insert(id, tween);
                }
                proof {
                    assert(out@[before.len() as int].0 == id);
                    assert(forall|k: int| 0 <= k < before.len() ==> out@[k] == before[k]);
                    assert forall|x: u32| #[trigger] more.contains(x) && windows@.contains(x) implies exists|k: int|
                        0 <= k < out@.len() && (#[trigger] out@[k]).0 == x by {
                        if x != id {
                            assert(seen.contains(x));
                            let k = choose|k: int| 0 <= k < before.len() && (#[trigger] before[k]).0 == x;
                            assert(out@[k].0 == x);
                        }
                    }
                }
            }
            i = i + 1;
        }
        proof {
            assert(order.take(i as int) =~= order);
            let want = ticked(s, windows@, now).active;
            assert forall|id: u32| #[trigger] s.active.contains_key(id) <==> order.contains(id) by {
                if order.contains(id) {
                    assert(order[order.index_of(id)] == id);
                }
            }
            assert(left@ =~= want);
        }
        self.active = left;
        out
    }

    fn is_animating(&self, id: u32) -> (r: bool) {
        self.active.contains(&id)
    }

    fn has_active_animations(&self) -> (r: bool) {
        let n: usize = self.active.len();
        proof {
            if n == 0 {
                assert(self@.active.dom() =~= Set::empty());
            } else {
                assert(self@.active.dom().contains(self.active.order()[0]));
            }
        }
        n > 0
    }

    fn finish(&mut self, id: u32) -> (r: Option<RectInfo>) {
        let target: Option<RectInfo> = self.target_of(id);
        self.active.remove(&id);
        target
    }

    fn set_suppressed(&mut self, suppressed: bool) {
        self.suppressed = suppressed;
    }
}

/// Asking again for what an animation leads to does not restart it: the second
/// request changes nothing.
pub proof fn law_repeated_request_keeps_the_clock(s: SetterView, first: Request, again: Request)
    requires
        !written_at_once(s, first),
        again.id == first.id,
        again.on_the_way,
    ensures
        requested(requested(s, first), again) == requested(s, first),
        !written_at_once(requested(s, first), again),
{
}

/// An animation is written to its end once its duration is over, and is no
/// longer active then.
pub proof fn law_animation_ends(s: SetterView, id: u32, windows: Seq<u32>, now: u64)
    requires
        s.active.contains_key(id),
        elapsed(s.active[id].started, now) >= s.duration,
    ensures
        frame_now(s.active[id], s.duration, now) == Frame::Target(s.active[id].target),
        !ticked(s, windows, now).active.contains_key(id),
{
}

/// A setter that moves windows at once never has an animation under way.
pub proof fn law_instant_setter_never_animates(s: SetterView, q: Request)
    requires
        s.instant,
        s.at_once,
        s.active == Map::<u32, Tween>::empty(),
    ensures
        written_at_once(s, q),
        requested(s, q) == s,
{
    assert(requested(s, q).active =~= s.active);
}

/// A request moves a window in an animation from where it is to its target, from
/// now on, whatever animation led elsewhere; where windows are moved at once, or
/// it is there already, none is under way after it. No other window's animation
/// changes.
pub proof fn law_requests_lead_to_their_targets(s: SetterView, q: Request, other: u32)
    ensures
        ({
            let after = requested(s, q);
            &&& s.at_once ==> written_at_once(s, q) && !after.active.contains_key(q.id)
            &&& !s.at_once && !q.there && !q.on_the_way ==> {
                &&& !written_at_once(s, q)
                &&& after.active.contains_key(q.id)
                &&& after.active[q.id].start == q.from && after.active[q.id].target == q.target
                &&& after.active[q.id].started == q.now
                &&& leads_to(after, q.id) == Some(q.target)
            }
            &&& !s.at_once && q.there && !q.on_the_way ==> written_at_once(s, q)
                && !after.active.contains_key(q.id)
            &&& other != q.id ==> (after.active.contains_key(other) <==> s.active.contains_key(other))
            &&& other != q.id && s.active.contains_key(other) ==> after.active[other]
                == s.active[other]
            &&& after.duration == s.duration && after.at_once == s.at_once
        }),
{
}

/// A tick writes each window whose animation is under way and that is still
/// there: to its target once the duration is over, else a part of the way, as
/// much as time passed. It goes on exactly until then, and is dropped if its
/// window is gone.
pub proof fn law_animations_go_on_until_they_end(
    s: SetterView,
    windows: Seq<u32>,
    now: u64,
    out: Seq<(u32, Frame)>,
    id: u32,
    i: int,
)
    requires
        tick_writes(s, windows, now, out),
    ensures
        ({
            let after = ticked(s, windows, now);
            let t = s.active[id];
            let over = t.started + s.duration <= now || s.duration == 0;
            &&& after.active.contains_key(id) <==> s.active.contains_key(id) && windows.contains(id)
                && !over
            &&& after.active.contains_key(id) ==> after.active[id] == t
            &&& 0 <= i < out.len() && out[i].0 == id ==> {
                &&& s.active.contains_key(id) && windows.contains(id)
                &&& over ==> out[i].1 == Frame::Target(t.target)
                &&& !over && t.started <= now ==> out[i].1 == (Frame::Between {
                    start: t.start,
                    target: t.target,
                    passed: (now - t.started) as u64,
                })
            }
            &&& s.active.contains_key(id) && windows.contains(id) ==> exists|k: int|
                0 <= k < out.len() && (#[trigger] out[k]).0 == id
        }),
{
    if 0 <= i < out.len() {
        assert(out[i].1 == frame_now(s.active[out[i].0], s.duration, now));
    }
}

/// While animations are suppressed, every request is written at once; once they
/// are not any more, it is as before. An animation that is ended is gone, and
/// the others go on.
pub proof fn law_suppressed_setters_move_at_once(s: SetterView, q: Request, id: u32, other: u32)
    ensures
        written_at_once(suppressed_to(s, true), q),
        !s.instant ==> !suppressed_to(s, false).at_once,
        suppressed_to(s, true).active == s.active && suppressed_to(s, false).active == s.active,
        !finished(s, id).active.contains_key(id),
        leads_to(finished(s, id), id) is None,
        other != id ==> leads_to(finished(s, id), other) == leads_to(s, other),
{
}

}
