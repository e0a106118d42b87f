//! Periods of grace: how long a window may be missing, an application may be
//! without windows, and the system may take to wake up. Times are in
//! milliseconds.

use vstd::prelude::*;
use crate::table::Table;

verus! {

/// How long a window may be missing before it counts as closed.
pub const REMOVAL_GRACE_PERIOD: u64 = 100;

/// How long it may be missing while the system wakes up, and how long that
/// takes.
pub const WAKE_REMOVAL_GRACE: u64 = 90_000;

/// How long an application may be without windows after its launch.
pub const LAUNCH_GRACE_PERIOD: u64 = 2_000;

pub struct Grace {
    missing: Table<u32, u64>,
    launches: Table<i32, u64>,
    wake_until: Option<u64>,
    removal_grace: u64,
    launch_grace: u64,
}

/// What a `Grace` holds.
pub struct GraceView {
    /// The missing windows, and since when.
    pub missing: Map<u32, u64>,
    /// The launched applications without windows, and since when.
    pub launches: Map<i32, u64>,
    /// Until when the system wakes up.
    pub wake_until: Option<u64>,
    pub removal_grace: u64,
    pub launch_grace: u64,
}

impl View for Grace {
    type V = GraceView;

    closed spec fn view(&self) -> GraceView {
        GraceView {
            missing: self.missing@,
            launches: self.launches@,
            wake_until: self.wake_until,
            removal_grace: self.removal_grace,
            launch_grace: self.launch_grace,
        }
    }
}

/// The system is waking up.
pub open spec fn waking(g: GraceView, now: u64) -> bool {
    match g.wake_until {
        Some(until) => now < until,
        None => false,
    }
}

/// How long a window may be missing now.
pub open spec fn removal_grace_at(g: GraceView, now: u64) -> u64 {
    if waking(g, now) && g.removal_grace < WAKE_REMOVAL_GRACE {
        WAKE_REMOVAL_GRACE
    } else {
        g.removal_grace
    }
}

/// How long it is since `since`, nothing where that is yet to come.
pub open spec fn elapsed(since: u64, now: u64) -> int {
    if since <= now {
        now - since
    } else {
        0
    }
}

/// A window has been missing for too long.
pub open spec fn gone(g: GraceView, id: u32, now: u64) -> bool {
    g.missing.contains_key(id) && elapsed(g.missing[id], now) >= removal_grace_at(g, now)
}

/// An application has been without windows for too long.
pub open spec fn stillborn(g: GraceView, pid: i32, now: u64) -> bool {
    g.launches.contains_key(pid) && elapsed(g.launches[pid], now) >= g.launch_grace
}

/// The moment `by` milliseconds after `now`, or the last one there is.
pub open spec fn later(now: u64, by: u64) -> u64 {
    if now + by > u64::MAX {
        u64::MAX
    } else {
        (now + by) as u64
    }
}

fn age(since: u64, now: u64) -> (r: u64)
    ensures
        r == elapsed(since, now),
{
    if since <= now {
        now - since
    } else {
        0
    }
}

impl Grace {
    pub closed spec fn wf(&self) -> bool {
        self.missing.wf() && self.launches.wf()
    }

    pub fn new() -> (r: Self)
        ensures
            r.wf(),
            r@ == (GraceView {
                missing: Map::empty(),
                launches: Map::empty(),
                wake_until: None,
                removal_grace: REMOVAL_GRACE_PERIOD,
                launch_grace: LAUNCH_GRACE_PERIOD,
            }),
    {
        Grace {
            missing: Table::new(),
            launches: Table::new(),
            wake_until: None,
            removal_grace: REMOVAL_GRACE_PERIOD,
            launch_grace: LAUNCH_GRACE_PERIOD,
        }
    }

    /// Sets how long a window may be missing.
    pub fn set_removal_grace(&mut self, ms: u64)
        requires
            old(self).wf(),
        ensures
            final(self).wf(),
            final(self)@ == (GraceView { removal_grace: ms, ..old(self)@ }),
    {
        self.removal_grace = ms;
    }

    /// Sets how long an application may be without windows.
    pub fn set_launch_grace(&mut self, ms: u64)
        requires
            old(self).wf(),
        ensures
            final(self).wf(),
            final(self)@ == (GraceView { launch_grace: ms, ..old(self)@ }),
    {
        self.launch_grace = ms;
    }

    /// Whether the system is waking up.
    pub fn is_waking(&self, now: u64) -> (r: bool)
        ensures
            r == waking(self@, now),
    {
        match self.wake_until {
            Some(until) => now < until,
            None => false,
        }
    }

    /// How long a window may be missing now.
    pub fn effective_removal_grace(&self, now: u64) -> (r: u64)
        ensures
            r == removal_grace_at(self@, now),
    {
        if self.is_waking(now) && self.removal_grace < WAKE_REMOVAL_GRACE {
            WAKE_REMOVAL_GRACE
        } else {
            self.removal_grace
        }
    }

    /// The system woke up.
    pub fn note_system_wake(&mut self, now: u64)
        requires
            old(self).wf(),
        ensures
            final(self).wf(),
            final(self)@ == (GraceView {
                wake_until: Some(later(now, WAKE_REMOVAL_GRACE)),
                ..old(self)@
            }),
    {
        self.wake_until = Some(now.saturating_add(WAKE_REMOVAL_GRACE));
    }

    /// A window is missing. Since when stays as it was noticed first.
    pub fn note_missing(&mut self, id: u32, now: u64)
        requires
            old(self).wf(),
        ensures
            final(self).wf(),
            final(self)@ == (GraceView {
                missing: if old(self)@.missing.contains_key(id) {
                    old(self)@.missing
                } else {
                    old(self)@.missing.insert(id, now)
                },
                ..old(self)@
            }),
    {
        if !self.missing.contains(&id) {
            self.missing.insert(id, now);
        }
    }

    /// A window is there.
    pub fn note_present(&mut self, id: u32)
        requires
            old(self).wf(),
        ensures
            final(self).wf(),
            final(self)@ == (GraceView { missing: old(self)@.missing.remove(id), ..old(self)@ }),
    {
        let _ = self.missing.remove(&id);
    }

    /// Whether a window is missing.
    pub fn is_missing(&self, id: u32) -> (r: bool)
        requires
            self.wf(),
        ensures
            r == self@.missing.contains_key(id),
    {
        self.missing.contains(&id)
    }

    /// An application was launched.
    pub fn note_app_launched(&mut self, pid: i32, now: u64)
        requires
            old(self).wf(),
        ensures
            final(self).wf(),
            final(self)@ == (GraceView { launches: old(self)@.launches.insert(pid, now), ..old(self)@ }),
    {
        self.launches.insert(pid, now);
    }

    /// A launched application has a window, or is gone.
    pub fn forget_launch(&mut self, pid: i32)
        requires
            old(self).wf(),
        ensures
            final(self).wf(),
            final(self)@ == (GraceView { launches: old(self)@.launches.remove(pid), ..old(self)@ }),
    {
        let _ = self.launches.remove(&pid);
    }

    /// Whether some launched application is without windows yet.
    pub fn is_launching(&self) -> (r: bool)
        requires
            self.wf(),
        ensures
            r == (exists|pid: i32| self@.launches.contains_key(pid)),
    {
        let n: usize = self.launches.len();
        if n > 0 {
            assert(self@.launches.contains_key(self.launches.order()[0]));
            true
        } else {
            assert forall|pid: i32| !self@.launches.contains_key(pid) by {
                if self@.launches.contains_key(pid) {
                    assert(self.launches.order().contains(pid));
                }
            }
            false
        }
    }

    /// The windows that have been missing for too long, each once.
    pub fn expired_removals(&self, now: u64) -> (r: Vec<u32>)
        requires
            self.wf(),
        ensures
            r@.no_duplicates(),
            forall|id: u32| r@.contains(id) <==> gone(self@, id, now),
    {
        let grace: u64 = self.effective_removal_grace(now);
        let n: usize = self.missing.len();
        let ghost order = self.missing.order();
        let mut out: Vec<u32> = Vec::new();
        let mut i: usize = 0;
        while i < n
            invariant
                self.wf(),
                n == self.missing.order().len(),
                order == self.missing.order(),
                order.no_duplicates(),
                i <= n,
                grace == removal_grace_at(self@, now),
                out@.no_duplicates(),
                forall|id: u32| #[trigger] out@.contains(id) ==> gone(self@, id, now),
                forall|id: u32| #[trigger] out@.contains(id) ==> order.take(i as int).contains(id),
                forall|j: int| 0 <= j < i && gone(self@, #[trigger] order[j], now) ==> out@.contains(order[j]),
            decreases n - i,
        {
            let id: u32 = *self.missing.key_at(i);
            let since: u64 = *self.missing.value_at(i);
            let ghost before = out@;
            proof {
                assert forall|x: u32| order.take(i as int).contains(x) implies order.take(i + 1).contains(x) && x
                    != order[i as int] by {
                    let k = order.take(i as int).index_of(x);
                    assert(order.take(i + 1)[k] == x);
                    assert(order[k] == x);
                }
                assert(order.take(i + 1)[i as int] == id);
            }
            if age(since, now) >= grace {
                out.push(id);
                proof {
                    assert(out@.last() == id);
                    assert forall|x: u32| #[trigger] out@.contains(x) implies before.contains(x) || x == id by {
                        let k = out@.index_of(x);
                        if k < before.len() {
                            assert(before[k] == x);
                        }
                    }
                    assert forall|x: u32| before.contains(x) implies out@.contains(x) by {
                        let k = before.index_of(x);
                        assert(out@[k] == x);
                    }
                    assert(!before.contains(id));
                }
            }
            i = i + 1;
        }
        proof {
            assert forall|id: u32| gone(self@, id, now) implies out@.contains(id) by {
                assert(order.contains(id));
                let k = order.index_of(id);
                assert(gone(self@, order[k], now));
            }
        }
        out
    }

    /// Forgets the launched applications that have been without windows for
    /// too long.
    pub fn finalize_expired_launches(&mut self, now: u64)
        requires
            old(self).wf(),
        ensures
            final(self).wf(),
            final(self)@ == (GraceView {
                launches: old(self)@.launches.remove_keys(
                    Set::new(|pid: i32| stillborn(old(self)@, pid, now)),
                ),
                ..old(self)@
            }),
    {
        let ghost before = self@;
        let mut kept: Table<i32, u64> = Table::new();
        let n: usize = self.launches.len();
        let ghost order = self.launches.order();
        let mut i: usize = 0;
        while i < n
            invariant
                self.wf(),
                self@ == before,
                before == old(self)@,
                kept.wf(),
                n == self.launches.order().len(),
                order == self.launches.order(),
                i <= n,
                forall|pid: i32| #[trigger] kept@.contains_key(pid) ==> before.launches.contains_key(pid)
                    && kept@[pid] == before.launches[pid] && !stillborn(before, pid, now),
                forall|j: int| 0 <= j < i && !stillborn(before, #[trigger] order[j], now) ==> kept@.contains_key(order[j]),
            decreases n - i,
        {
            let pid: i32 = *self.launches.key_at(i);
            let since: u64 = *self.launches.value_at(i);
            if age(since, now) < self.launch_grace {
                kept.insert(pid, since);
            }
            i = i + 1;
        }
        proof {
            let doomed = Set::new(|pid: i32| stillborn(before, pid, now));
            assert(kept@ =~= before.launches.remove_keys(doomed)) by {
                assert forall|pid: i32| before.launches.contains_key(pid) && !stillborn(before, pid, now) implies kept@.contains_key(pid) by {
                    assert(order.contains(pid));
                    let k = order.index_of(pid);
                    assert(!stillborn(before, order[k], now));
                }
            }
        }
        self.launches = kept;
    }
}

/// Waking up never shortens the period of grace, and a window that is still
/// in its grace is not gone a moment earlier either.
pub proof fn law_grace_is_patient(g: GraceView, id: u32, earlier: u64, now: u64)
    requires
        earlier <= now,
        waking(g, earlier) == waking(g, now),
        g.missing.contains_key(id),
    ensures
        removal_grace_at(g, now) >= g.removal_grace,
        gone(g, id, earlier) ==> gone(g, id, now),
{
}

/// While the system wakes up, no window that was noticed missing within that
/// time is gone.
pub proof fn law_no_window_is_lost_while_waking(g: GraceView, id: u32, woke: u64, since: u64, now: u64)
    requires
        woke + WAKE_REMOVAL_GRACE <= u64::MAX,
        g.wake_until == Some(later(woke, WAKE_REMOVAL_GRACE)),
        g.missing.contains_key(id),
        g.missing[id] == since,
        woke <= since <= now,
        waking(g, now),
    ensures
        !gone(g, id, now),
{
}

}
