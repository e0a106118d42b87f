//! Watching applications: what each notification means, and when everything
//! has to be looked at again. Times are in milliseconds.

use vstd::prelude::*;
use crate::grace::{elapsed, later};
use crate::text::same_text;

verus! {

/// How long to wait for a notification before looking around.
pub const WATCHER_RESYNC_INTERVAL: u64 = 2_000;

/// A wait that takes longer than this means that the system slept.
pub const SUSPECTED_SLEEP_GAP: u64 = 5_000;

/// How long after the last launch or end of an application all windows are
/// looked at again.
pub const FULL_RESYNC_DEBOUNCE: u64 = 2_000;

/// After this time all windows are looked at again in any case.
pub const FULL_RESYNC_MAX_INTERVAL: u64 = 20_000;

/// What the system says of applications and of itself.
#[derive(Debug, Clone, PartialEq, Eq)]
pub enum AppEvent {
    Launched { pid: i32, bundle_id: Option<String> },
    Terminated { pid: i32 },
    Activated { pid: i32 },
    SystemDidWake,
    ScreenLocked,
    ScreenUnlocked,
}

/// Something that the window manager reacts to. What changed about an
/// application's windows is not said: they are read again.
#[derive(Debug, Clone, PartialEq, Eq)]
pub enum WmEvent {
    AppLaunched { pid: i32, bundle_id: Option<String> },
    AppTerminated { pid: i32 },
    WindowsChanged { pid: i32 },
    WindowFocused { pid: i32 },
    /// Another application is in front.
    FrontmostAppChanged { pid: i32 },
    SystemDidWake,
    ScreenLocked,
    ScreenUnlocked,
}

/// What waiting for a notification gave.
pub enum Wait {
    Event(AppEvent),
    /// Nothing came, and the wait took this long.
    Timeout { waited: u64 },
}

/// What the watcher has to do.
#[derive(Debug, PartialEq, Eq)]
pub enum WatchStep {
    Send(WmEvent),
    /// Subscribe to an application's windows.
    Watch(i32),
    /// Drop that subscription.
    Unwatch(i32),
    /// Look at all applications again (see `Watcher::attach` and `Watcher::resync`), and at all
    /// windows if `full` is set.
    Resync { full: bool },
}

/// What a `WatchStep` holds, texts aside.
pub enum StepView {
    Launched { pid: i32, bundle_id: Option<Seq<char>> },
    Terminated { pid: i32 },
    Changed { pid: i32 },
    Focused { pid: i32 },
    Frontmost { pid: i32 },
    Woke,
    Locked,
    Unlocked,
    Watch(i32),
    Unwatch(i32),
    Resync { full: bool },
}

impl View for WatchStep {
    type V = StepView;

    open spec fn view(&self) -> StepView {
        match *self {
            WatchStep::Send(e) => match e {
                WmEvent::AppLaunched { pid, bundle_id } => StepView::Launched {
                    pid,
                    bundle_id: crate::text::opt_text(bundle_id),
                },
                WmEvent::AppTerminated { pid } => StepView::Terminated { pid },
                WmEvent::WindowsChanged { pid } => StepView::Changed { pid },
                WmEvent::WindowFocused { pid } => StepView::Focused { pid },
                WmEvent::FrontmostAppChanged { pid } => StepView::Frontmost { pid },
                WmEvent::SystemDidWake => StepView::Woke,
                WmEvent::ScreenLocked => StepView::Locked,
                WmEvent::ScreenUnlocked => StepView::Unlocked,
            },
            WatchStep::Watch(pid) => StepView::Watch(pid),
            WatchStep::Unwatch(pid) => StepView::Unwatch(pid),
            WatchStep::Resync { full } => StepView::Resync { full },
        }
    }
}

pub struct Watcher {
    last_full_resync: u64,
    debounce_deadline: Option<u64>,
    last_frontmost_pid: Option<i32>,
    screen_locked: bool,
    watched: Vec<i32>,
    unwatchable: Vec<i32>,
}

/// What a `Watcher` holds.
#[verifier::ext_equal]
pub struct WatcherView {
    pub last_full_resync: u64,
    /// When all windows are to be looked at again after some activity.
    pub debounce_deadline: Option<u64>,
    pub last_frontmost_pid: Option<i32>,
    pub screen_locked: bool,
    /// The applications that are subscribed to.
    pub watched: Set<i32>,
    /// Those that cannot be subscribed to.
    pub unwatchable: Set<i32>,
}

impl View for Watcher {
    type V = WatcherView;

    closed spec fn view(&self) -> WatcherView {
        WatcherView {
            last_full_resync: self.last_full_resync,
            debounce_deadline: self.debounce_deadline,
            last_frontmost_pid: self.last_frontmost_pid,
            screen_locked: self.screen_locked,
            watched: self.watched@.to_set(),
            unwatchable: self.unwatchable@.to_set(),
        }
    }
}

/// The watcher once all windows were looked at again.
pub open spec fn resynced(w: WatcherView, now: u64) -> WatcherView {
    WatcherView { last_full_resync: now, debounce_deadline: None, ..w }
}

/// The watcher once an application was launched or ended.
pub open spec fn stirred(w: WatcherView, now: u64) -> WatcherView {
    WatcherView { debounce_deadline: Some(later(now, FULL_RESYNC_DEBOUNCE)), ..w }
}

/// All windows are due to be looked at again.
pub open spec fn sweep_due(w: WatcherView, now: u64, waited: u64) -> bool {
    ||| w.debounce_deadline is Some && now >= w.debounce_deadline->0
    ||| elapsed(w.last_full_resync, now) >= FULL_RESYNC_MAX_INTERVAL
    ||| waited > SUSPECTED_SLEEP_GAP
}

/// What a wait means: the watcher after it, and what has to be done, in order.
/// While the screen is locked nothing is looked at again.
pub open spec fn watched_step(w: WatcherView, wait: Wait, now: u64) -> (WatcherView, Seq<StepView>) {
    match wait {
        Wait::Event(AppEvent::Launched { pid, bundle_id }) => (
            stirred(w, now),
            seq![
                StepView::Launched { pid, bundle_id: crate::text::opt_text(bundle_id) },
                StepView::Watch(pid),
                StepView::Changed { pid },
            ],
        ),
        Wait::Event(AppEvent::Terminated { pid }) => (
            stirred(
                WatcherView {
                    watched: w.watched.remove(pid),
                    unwatchable: w.unwatchable.remove(pid),
                    ..w
                },
                now,
            ),
            if w.watched.contains(pid) {
                seq![StepView::Terminated { pid }, StepView::Unwatch(pid)]
            } else {
                seq![StepView::Terminated { pid }]
            },
        ),
        Wait::Event(AppEvent::Activated { pid }) => (
            WatcherView { last_frontmost_pid: Some(pid), ..w },
            if w.last_frontmost_pid != Some(pid) {
                seq![StepView::Frontmost { pid }]
            } else {
                Seq::empty()
            },
        ),
        Wait::Event(AppEvent::SystemDidWake) => if w.screen_locked {
            (w, seq![StepView::Woke])
        } else {
            (resynced(w, now), seq![StepView::Woke, StepView::Resync { full: true }])
        },
        Wait::Event(AppEvent::ScreenLocked) => (
            WatcherView { screen_locked: true, ..w },
            seq![StepView::Locked],
        ),
        Wait::Event(AppEvent::ScreenUnlocked) => (
            WatcherView { screen_locked: false, ..resynced(w, now) },
            seq![StepView::Unlocked, StepView::Resync { full: true }],
        ),
        Wait::Timeout { waited } => {
            let woke = if waited > SUSPECTED_SLEEP_GAP {
                seq![StepView::Woke]
            } else {
                Seq::empty()
            };
            if w.screen_locked {
                (w, woke)
            } else if sweep_due(w, now, waited) {
                (resynced(w, now), woke + seq![StepView::Resync { full: true }])
            } else {
                (w, woke + seq![StepView::Resync { full: false }])
            }
        },
    }
}

/// The views of some steps.
pub open spec fn steps(v: Seq<WatchStep>) -> Seq<StepView> {
    v.map_values(|s: WatchStep| s@)
}

pub(crate) fn holds(v: &Vec<i32>, pid: i32) -> (r: bool)
    ensures
        r == v@.contains(pid),
        r == v@.to_set().contains(pid),
{
    let mut i: usize = 0;
    while i < v.len()
        invariant
            i <= v.len(),
            forall|j: int| 0 <= j < i ==> v@[j] != pid,
        decreases v.len() - i,
    {
        if v[i] == pid {
            assert(v@[i as int] == pid);
            return true;
        }
        i = i + 1;
    }
    false
}

proof fn lemma_push_set(v: Seq<i32>, pid: i32)
    ensures
        v.push(pid).to_set() == v.to_set().insert(pid),
{
    let p = v.push(pid);
    assert(p[v.len() as int] == pid);
    assert forall|x: i32| p.contains(x) <==> (v.contains(x) || x == pid) by {
        if p.contains(x) && x != pid {
            let i = p.index_of(x);
            assert(v[i] == x);
        }
        if v.contains(x) {
            let i = v.index_of(x);
            assert(p[i] == x);
        }
    }
    assert(p.to_set() =~= v.to_set().insert(pid));
}

pub(crate) fn add_pid(v: &mut Vec<i32>, pid: i32)
    requires
        old(v)@.no_duplicates(),
    ensures
        final(v)@.no_duplicates(),
        final(v)@.to_set() == old(v)@.to_set().insert(pid),
{
    if !holds(v, pid) {
        proof {
            lemma_push_set(v@, pid);
        }
        let ghost before = v@;
        v.push(pid);
        assert(v@.no_duplicates()) by {
            assert forall|i: int, j: int| 0 <= i < v@.len() && 0 <= j < v@.len() && i != j implies v@[i]
                != v@[j] by {
                if i == before.len() {
                    assert(before.contains(before[j]));
                } else if j == before.len() {
                    assert(before.contains(before[i]));
                }
            }
        }
    } else {
        assert(v@.to_set().insert(pid) =~= v@.to_set());
    }
}

pub(crate) fn without(v: &Vec<i32>, pid: i32) -> (r: Vec<i32>)
    requires
        v@.no_duplicates(),
    ensures
        r@.no_duplicates(),
        r@.to_set() == v@.to_set().remove(pid),
{
    let mut out: Vec<i32> = Vec::new();
    let mut i: usize = 0;
    assert(v@.take(0).to_set() =~= Set::empty());
    assert(out@.to_set() =~= Set::empty());
    while i < v.len()
        invariant
            i <= v.len(),
            v@.no_duplicates(),
            out@.no_duplicates(),
            out@.to_set() == v@.take(i as int).to_set().remove(pid),
        decreases v.len() - i,
    {
        let x: i32 = v[i];
        proof {
            lemma_push_set(v@.take(i as int), x);
            assert(v@.take(i as int).push(x) =~= v@.take(i + 1));
        }
        if x != pid {
            add_pid(&mut out, x);
        }
        assert(out@.to_set() =~= v@.take(i + 1).to_set().remove(pid));
        i = i + 1;
    }
    assert(v@.take(i as int) =~= v@);
    out
}

impl Watcher {
    pub closed spec fn wf(&self) -> bool {
        self.watched@.no_duplicates() && self.unwatchable@.no_duplicates()
    }

    /// A watcher that subscribes to nothing yet.
    pub fn new(now: u64) -> (r: Self)
        ensures
            r.wf(),
            r@ == (WatcherView {
                last_full_resync: now,
                debounce_deadline: None,
                last_frontmost_pid: None,
                screen_locked: false,
                watched: Set::empty(),
                unwatchable: Set::empty(),
            }),
    {
        let r: Watcher = Watcher {
            last_full_resync: now,
            debounce_deadline: None,
            last_frontmost_pid: None,
            screen_locked: false,
            watched: Vec::new(),
            unwatchable: Vec::new(),
        };
        assert(r.watched@.to_set() =~= Set::empty());
        assert(r.unwatchable@.to_set() =~= Set::empty());
        r
    }

    /// Says what a wait means.
    pub fn step(&mut self, wait: Wait, now: u64) -> (r: Vec<WatchStep>)
        requires
            old(self).wf(),
        ensures
            final(self).wf(),
            (final(self)@, steps(r@)) == watched_step(old(self)@, wait, now),
    {
        let ghost w = self@;
        let mut out: Vec<WatchStep> = Vec::new();
        match wait {
            Wait::Event(event) => match event {
                AppEvent::Launched { pid, bundle_id } => {
                    out.push(WatchStep::Send(WmEvent::AppLaunched { pid, bundle_id }));
                    out.push(WatchStep::Watch(pid));
                    out.push(WatchStep::Send(WmEvent::WindowsChanged { pid }));
                    self.debounce_deadline = Some(now.saturating_add(FULL_RESYNC_DEBOUNCE));
                },
                AppEvent::Terminated { pid } => {
                    out.push(WatchStep::Send(WmEvent::AppTerminated { pid }));
                    self.unwatchable = without(&self.unwatchable, pid);
                    if holds(&self.watched, pid) {
                        out.push(WatchStep::Unwatch(pid));
                    }
                    self.watched = without(&self.watched, pid);
                    self.debounce_deadline = Some(now.saturating_add(FULL_RESYNC_DEBOUNCE));
                },
                AppEvent::Activated { pid } => {
                    let same: bool = match self.last_frontmost_pid {
                        Some(p) => p == pid,
                        None => false,
                    };
                    if !same {
                        out.push(WatchStep::Send(WmEvent::FrontmostAppChanged { pid }));
                    }
                    self.last_frontmost_pid = Some(pid);
                },
                AppEvent::SystemDidWake => {
                    out.push(WatchStep::Send(WmEvent::SystemDidWake));
                    if !self.screen_locked {
                        self.last_full_resync = now;
                        self.debounce_deadline = None;
                        out.push(WatchStep::Resync { full: true });
                    }
                },
                AppEvent::ScreenLocked => {
                    self.screen_locked = true;
                    out.push(WatchStep::Send(WmEvent::ScreenLocked));
                },
                AppEvent::ScreenUnlocked => {
                    self.screen_locked = false;
                    self.last_full_resync = now;
                    self.debounce_deadline = None;
                    out.push(WatchStep::Send(WmEvent::ScreenUnlocked));
                    out.push(WatchStep::Resync { full: true });
                },
            },
            Wait::Timeout { waited } => {
                let slept: bool = waited > SUSPECTED_SLEEP_GAP;
                if slept {
                    out.push(WatchStep::Send(WmEvent::SystemDidWake));
                }
                if !self.screen_locked {
                    let ready: bool = match self.debounce_deadline {
                        Some(due) => now >= due,
                        None => false,
                    };
                    let capped: bool = self.last_full_resync <= now && now - self.last_full_resync
                        >= FULL_RESYNC_MAX_INTERVAL;
                    let full: bool = ready || capped || slept;
                    if full {
                        self.last_full_resync = now;
                        self.debounce_deadline = None;
                    }
                    out.push(WatchStep::Resync { full });
                }
            },
        }
        assert(steps(out@) =~= watched_step(w, wait, now).1);
        out
    }

    /// A subscription to an application's windows succeeded, or did not.
    pub fn watch_result(&mut self, pid: i32, subscribed: bool)
        requires
            old(self).wf(),
        ensures
            final(self).wf(),
            final(self)@ == subscribed_to(old(self)@, pid, subscribed),
    {
        if subscribed {
            add_pid(&mut self.watched, pid);
        } else {
            add_pid(&mut self.unwatchable, pid);
        }
    }

    /// Subscribes to the applications of `current` that a subscription was not
    /// tried for. The windows of those on the screen have to be read.
    pub fn attach(&self, current: &Vec<i32>, onscreen: &Vec<i32>) -> (r: Vec<WatchStep>)
        ensures
            steps(r@) == attached(self@, current@, onscreen@),
    {
        let mut out: Vec<WatchStep> = Vec::new();
        let mut i: usize = 0;
        assert(current@.take(0) =~= Seq::empty());
        assert(steps(out@) =~= Seq::empty());
        while i < current.len()
            invariant
                i <= current.len(),
                steps(out@) == attached(self@, current@.take(i as int), onscreen@),
            decreases current.len() - i,
        {
            let pid: i32 = current[i];
            proof {
                assert(current@.take(i + 1).drop_last() =~= current@.take(i as int));
                assert(current@.take(i + 1).last() == pid);
            }
            let ghost before = steps(out@);
            if !holds(&self.watched, pid) && !holds(&self.unwatchable, pid) {
                out.push(WatchStep::Watch(pid));
                assert(steps(out@) =~= before.push(StepView::Watch(pid)));
                if holds(onscreen, pid) {
                    out.push(WatchStep::Send(WmEvent::WindowsChanged { pid }));
                    assert(steps(out@) =~= before.push(StepView::Watch(pid)).push(
                        StepView::Changed { pid },
                    ));
                }
            }
            i = i + 1;
        }
        assert(current@.take(i as int) =~= current@);
        out
    }

    /// The applications that a subscription was tried for. Whether they still run
    /// has to be known to look at all applications again.
    pub fn known_pids(&self) -> (r: Vec<i32>)
        requires
            self.wf(),
        ensures
            r@.no_duplicates(),
            r@.to_set() == self@.watched.union(self@.unwatchable),
    {
        let mut out: Vec<i32> = Vec::new();
        let mut i: usize = 0;
        assert(out@.to_set() =~= self.watched@.take(0).to_set());
        while i < self.watched.len()
            invariant
                i <= self.watched.len(),
                out@.no_duplicates(),
                out@.to_set() == self.watched@.take(i as int).to_set(),
            decreases self.watched.len() - i,
        {
            proof {
                lemma_push_set(self.watched@.take(i as int), self.watched@[i as int]);
                assert(self.watched@.take(i + 1) =~= self.watched@.take(i as int).push(
                    self.watched@[i as int],
                ));
            }
            add_pid(&mut out, self.watched[i]);
            i = i + 1;
        }
        assert(self.watched@.take(i as int) =~= self.watched@);
        let mut i: usize = 0;
        assert(out@.to_set() =~= self@.watched.union(self.unwatchable@.take(0).to_set()));
        while i < self.unwatchable.len()
            invariant
                i <= self.unwatchable.len(),
                out@.no_duplicates(),
                out@.to_set() == self@.watched.union(self.unwatchable@.take(i as int).to_set()),
            decreases self.unwatchable.len() - i,
        {
            let ghost seen = self.unwatchable@.take(i as int);
            let ghost pid = self.unwatchable@[i as int];
            proof {
                lemma_push_set(seen, pid);
                assert(self.unwatchable@.take(i + 1) =~= seen.push(pid));
            }
            add_pid(&mut out, self.unwatchable[i]);
            assert(out@.to_set() =~= self@.watched.union(seen.to_set().insert(pid)));
            i = i + 1;
        }
        assert(self.unwatchable@.take(i as int) =~= self.unwatchable@);
        out
    }

    /// Looks at all applications again, once those that were not subscribed to
    /// are attached. `current` are the applications that should be subscribed
    /// to, `onscreen` those with windows on the screen, and `dead` those that
    /// run no more.
    pub fn resync(
        &mut self,
        current: &Vec<i32>,
        onscreen: &Vec<i32>,
        dead: &Vec<i32>,
        full: bool,
    ) -> (r: Vec<WatchStep>)
        requires
            old(self).wf(),
        ensures
            final(self).wf(),
            final(self)@ == pruned(old(self)@, current@, dead@),
            resync_takes(old(self)@, current@, onscreen@, dead@, full, steps(r@)),
    {
        let ghost w = self@;
        let mut out: Vec<WatchStep> = Vec::new();
        assert(steps(out@) =~= Seq::empty());
        if full {
            let mut i: usize = 0;
            assert(onscreen@.take(0) =~= Seq::empty());
            while i < onscreen.len()
                invariant
                    i <= onscreen.len(),
                    steps(out@) == changed_all(onscreen@.take(i as int)),
                decreases onscreen.len() - i,
            {
                proof {
                    assert(onscreen@.take(i + 1).drop_last() =~= onscreen@.take(i as int));
                    assert(onscreen@.take(i + 1).last() == onscreen@[i as int]);
                }
                let ghost before = steps(out@);
                out.push(WatchStep::Send(WmEvent::WindowsChanged { pid: onscreen[i] }));
                assert(steps(out@) =~= before.push(StepView::Changed { pid: onscreen@[i as int] }));
                i = i + 1;
            }
            assert(onscreen@.take(i as int) =~= onscreen@);
        }
        let ghost head = steps(out@);
        assert(head == swept(full, onscreen@));
        let mut kept: Vec<i32> = Vec::new();
        let mut a: Vec<i32> = Vec::new();
        let mut i: usize = 0;
        assert(self.watched@.take(0) =~= Seq::empty());
        assert(kept@.to_set() =~= Set::empty());
        assert(a@.to_set() =~= Set::empty());
        assert(dropped(a@, dead@) =~= Seq::empty());
        assert(head + Seq::<StepView>::empty() =~= head);
        let ghost gone = |p: i32| dead@.contains(p) || !current@.contains(p);
        while i < self.watched.len()
            invariant
                i <= self.watched.len(),
                self.watched@.no_duplicates(),
                kept@.no_duplicates(),
                a@.no_duplicates(),
                gone == |p: i32| dead@.contains(p) || !current@.contains(p),
                forall|p: i32| #[trigger] kept@.contains(p) <==> self.watched@.take(i as int).contains(p) && !gone(p),
                forall|p: i32| #[trigger] a@.contains(p) <==> self.watched@.take(i as int).contains(p) && gone(p),
                steps(out@) == head + dropped(a@, dead@),
            decreases self.watched.len() - i,
        {
            let pid: i32 = self.watched[i];
            let ghost seen = self.watched@.take(i as int);
            proof {
                assert(self.watched@.take(i + 1) =~= seen.push(pid));
                lemma_push_contains(seen, pid);
                assert(!seen.contains(pid)) by {
                    if seen.contains(pid) {
                        let k = seen.index_of(pid);
                        assert(self.watched@[k] == self.watched@[i as int]);
                    }
                }
                lemma_push_contains(a@, pid);
                lemma_push_contains(kept@, pid);
            }
            let ghost before = steps(out@);
            if holds(dead, pid) {
                out.push(WatchStep::Send(WmEvent::AppTerminated { pid }));
                out.push(WatchStep::Unwatch(pid));
                let ghost olda = a@;
                a.push(pid);
                proof {
                    assert(a@.drop_last() =~= olda);
                    assert(steps(out@) =~= before + seq![
                        StepView::Terminated { pid },
                        StepView::Unwatch(pid),
                    ]);
                    assert(head + (dropped(olda, dead@) + seq![
                        StepView::Terminated { pid },
                        StepView::Unwatch(pid),
                    ]) =~= (head + dropped(olda, dead@)) + seq![
                        StepView::Terminated { pid },
                        StepView::Unwatch(pid),
                    ]);
                    lemma_push_distinct(olda, pid);
                }
            } else if !holds(current, pid) {
                out.push(WatchStep::Unwatch(pid));
                let ghost olda = a@;
                a.push(pid);
                proof {
                    assert(a@.drop_last() =~= olda);
                    assert(steps(out@) =~= before + seq![StepView::Unwatch(pid)]);
                    assert(head + (dropped(olda, dead@) + seq![StepView::Unwatch(pid)]) =~= (head
                        + dropped(olda, dead@)) + seq![StepView::Unwatch(pid)]);
                    lemma_push_distinct(olda, pid);
                }
            } else {
                proof {
                    lemma_push_distinct(kept@, pid);
                }
                kept.push(pid);
            }
            i = i + 1;
        }
        assert(self.watched@.take(i as int) =~= self.watched@);
        let ghost middle = steps(out@);
        let mut left: Vec<i32> = Vec::new();
        let mut b: Vec<i32> = Vec::new();
        let mut i: usize = 0;
        assert(self.unwatchable@.take(0) =~= Seq::empty());
        assert(ended(b@) =~= Seq::empty());
        assert(middle + Seq::<StepView>::empty() =~= middle);
        while i < self.unwatchable.len()
            invariant
                i <= self.unwatchable.len(),
                self.unwatchable@.no_duplicates(),
                left@.no_duplicates(),
                b@.no_duplicates(),
                forall|p: i32| #[trigger] left@.contains(p) <==> self.unwatchable@.take(i as int).contains(p) && !dead@.contains(p),
                forall|p: i32| #[trigger] b@.contains(p) <==> self.unwatchable@.take(i as int).contains(p) && dead@.contains(p),
                steps(out@) == middle + ended(b@),
            decreases self.unwatchable.len() - i,
        {
            let pid: i32 = self.unwatchable[i];
            let ghost seen = self.unwatchable@.take(i as int);
            proof {
                assert(self.unwatchable@.take(i + 1) =~= seen.push(pid));
                lemma_push_contains(seen, pid);
                assert(!seen.contains(pid)) by {
                    if seen.contains(pid) {
                        let k = seen.index_of(pid);
                        assert(self.unwatchable@[k] == self.unwatchable@[i as int]);
                    }
                }
                lemma_push_contains(b@, pid);
                lemma_push_contains(left@, pid);
            }
            let ghost before = steps(out@);
            if holds(dead, pid) {
                out.push(WatchStep::Send(WmEvent::AppTerminated { pid }));
                let ghost oldb = b@;
                b.push(pid);
                proof {
                    assert(b@.drop_last() =~= oldb);
                    assert(steps(out@) =~= before.push(StepView::Terminated { pid }));
                    assert(middle + ended(oldb).push(StepView::Terminated { pid }) =~= (middle
                        + ended(oldb)).push(StepView::Terminated { pid }));
                    lemma_push_distinct(oldb, pid);
                }
            } else {
                proof {
                    lemma_push_distinct(left@, pid);
                }
                left.push(pid);
            }
            i = i + 1;
        }
        assert(self.unwatchable@.take(i as int) =~= self.unwatchable@);
        proof {
            let gone_set = w.watched.filter(gone);
            assert(a@.to_set() =~= gone_set);
            assert(each_once(a@, gone_set));
            let dead_set = w.unwatchable.filter(|p: i32| dead@.contains(p));
            assert(b@.to_set() =~= dead_set);
            assert(each_once(b@, dead_set));
            let want = pruned(w, current@, dead@);
            assert(kept@.to_set() =~= want.watched);
            assert(left@.to_set() =~= want.unwatchable);
            assert(steps(out@) =~= head + dropped(a@, dead@) + ended(b@));
        }
        self.watched = kept;
        self.unwatchable = left;
        out
    }
}

/// The watcher once a subscription was tried.
pub open spec fn subscribed_to(w: WatcherView, pid: i32, subscribed: bool) -> WatcherView {
    if subscribed {
        WatcherView { watched: w.watched.insert(pid), ..w }
    } else {
        WatcherView { unwatchable: w.unwatchable.insert(pid), ..w }
    }
}

/// What attaching some applications takes, in order. One that a subscription
/// was tried for is passed over.
pub open spec fn attached(w: WatcherView, current: Seq<i32>, onscreen: Seq<i32>) -> Seq<StepView>
    decreases current.len(),
{
    if current.len() == 0 {
        Seq::empty()
    } else {
        let before = attached(w, current.drop_last(), onscreen);
        let pid = current.last();
        if w.watched.contains(pid) || w.unwatchable.contains(pid) {
            before
        } else if onscreen.contains(pid) {
            before.push(StepView::Watch(pid)).push(StepView::Changed { pid })
        } else {
            before.push(StepView::Watch(pid))
        }
    }
}

/// The watcher without the applications that ended, and without subscriptions
/// to those that should have none. One that cannot be subscribed to is
/// remembered as long as it runs.
pub open spec fn pruned(w: WatcherView, current: Seq<i32>, dead: Seq<i32>) -> WatcherView {
    WatcherView {
        watched: w.watched.filter(|p: i32| !dead.contains(p) && current.contains(p)),
        unwatchable: w.unwatchable.filter(|p: i32| !dead.contains(p)),
        ..w
    }
}

/// `s` holds the elements of a set, each once.
pub open spec fn each_once(s: Seq<i32>, set: Set<i32>) -> bool {
    s.no_duplicates() && s.to_set() == set
}

/// The windows of some applications changed.
pub open spec fn changed_all(pids: Seq<i32>) -> Seq<StepView>
    decreases pids.len(),
{
    if pids.len() == 0 {
        Seq::empty()
    } else {
        changed_all(pids.drop_last()).push(StepView::Changed { pid: pids.last() })
    }
}

/// All windows on the screen are read again, if that is asked for.
pub open spec fn swept(full: bool, onscreen: Seq<i32>) -> Seq<StepView> {
    if full {
        changed_all(onscreen)
    } else {
        Seq::empty()
    }
}

/// Subscriptions to some applications are dropped. Only one that ended is
/// reported to have ended.
pub open spec fn dropped(pids: Seq<i32>, dead: Seq<i32>) -> Seq<StepView>
    decreases pids.len(),
{
    if pids.len() == 0 {
        Seq::empty()
    } else if dead.contains(pids.last()) {
        dropped(pids.drop_last(), dead) + seq![
            StepView::Terminated { pid: pids.last() },
            StepView::Unwatch(pids.last()),
        ]
    } else {
        dropped(pids.drop_last(), dead) + seq![StepView::Unwatch(pids.last())]
    }
}

/// Some applications ended.
pub open spec fn ended(pids: Seq<i32>) -> Seq<StepView>
    decreases pids.len(),
{
    if pids.len() == 0 {
        Seq::empty()
    } else {
        ended(pids.drop_last()).push(StepView::Terminated { pid: pids.last() })
    }
}

proof fn lemma_push_contains(s: Seq<i32>, pid: i32)
    ensures
        forall|x: i32| #[trigger] s.push(pid).contains(x) <==> (s.contains(x) || x == pid),
{
    let p = s.push(pid);
    assert(p[s.len() as int] == pid);
    assert forall|x: i32| #[trigger] p.contains(x) <==> (s.contains(x) || x == pid) by {
        if p.contains(x) && x != pid {
            let i = p.index_of(x);
            assert(s[i] == x);
        }
        if s.contains(x) {
            let i = s.index_of(x);
            assert(p[i] == x);
        }
    }
}

proof fn lemma_push_distinct(s: Seq<i32>, pid: i32)
    requires
        s.no_duplicates(),
        !s.contains(pid),
    ensures
        s.push(pid).no_duplicates(),
{
    let p = s.push(pid);
    assert forall|i: int, j: int| 0 <= i < p.len() && 0 <= j < p.len() && i != j implies p[i] != p[j] by {
        if i == s.len() {
            assert(s.contains(s[j]));
        } else if j == s.len() {
            assert(s.contains(s[i]));
        }
    }
}

/// The event that a notification about an application's windows stands for.
pub fn window_event(notification: &str, pid: i32) -> (r: WmEvent)
    ensures
        r == event_of(notification@, pid),
{
    if same_text(notification, "AXFocusedWindowChanged") || same_text(
        notification,
        "AXMainWindowChanged",
    ) {
        WmEvent::WindowFocused { pid }
    } else {
        WmEvent::WindowsChanged { pid }
    }
}

/// The applications that should be subscribed to: those with windows on the
/// screen, and the regular ones. In ascending order, each once.
pub fn watchable_pids(onscreen: &Vec<i32>, regular: &Vec<i32>) -> (r: Vec<i32>)
    ensures
        forall|i: int, j: int| 0 <= i < j < r@.len() ==> r@[i] < r@[j],
        forall|p: i32| r@.contains(p) <==> onscreen@.contains(p) || regular@.contains(p),
{
    let mut out: Vec<i32> = Vec::new();
    let mut i: usize = 0;
    while i < onscreen.len()
        invariant
            i <= onscreen.len(),
            forall|a: int, b: int| 0 <= a < b < out@.len() ==> out@[a] < out@[b],
            forall|p: i32| #[trigger] out@.contains(p) <==> onscreen@.take(i as int).contains(p),
        decreases onscreen.len() - i,
    {
        proof {
            assert(onscreen@.take(i + 1) =~= onscreen@.take(i as int).push(onscreen@[i as int]));
            lemma_push_contains(onscreen@.take(i as int), onscreen@[i as int]);
        }
        insert_sorted(&mut out, onscreen[i]);
        i = i + 1;
    }
    assert(onscreen@.take(i as int) =~= onscreen@);
    let mut i: usize = 0;
    while i < regular.len()
        invariant
            i <= regular.len(),
            forall|a: int, b: int| 0 <= a < b < out@.len() ==> out@[a] < out@[b],
            forall|p: i32| #[trigger] out@.contains(p) <==> onscreen@.contains(p) || regular@.take(i as int).contains(p),
        decreases regular.len() - i,
    {
        proof {
            assert(regular@.take(i + 1) =~= regular@.take(i as int).push(regular@[i as int]));
            lemma_push_contains(regular@.take(i as int), regular@[i as int]);
        }
        insert_sorted(&mut out, regular[i]);
        i = i + 1;
    }
    assert(regular@.take(i as int) =~= regular@);
    out
}

fn insert_sorted(v: &mut Vec<i32>, pid: i32)
    requires
        forall|a: int, b: int| 0 <= a < b < old(v)@.len() ==> old(v)@[a] < old(v)@[b],
    ensures
        forall|a: int, b: int| 0 <= a < b < final(v)@.len() ==> final(v)@[a] < final(v)@[b],
        forall|p: i32| #[trigger] final(v)@.contains(p) <==> old(v)@.contains(p) || p == pid,
{
    let ghost before = v@;
    let mut i: usize = 0;
    while i < v.len() && v[i] < pid
        invariant
            i <= v.len(),
            v@ == before,
            forall|j: int| 0 <= j < i ==> v@[j] < pid,
        decreases v.len() - i,
    {
        i = i + 1;
    }
    if i < v.len() && v[i] == pid {
        assert(before[i as int] == pid);
        return;
    }
    v.insert(i, pid);
    proof {
        let after = v@;
        assert(after[i as int] == pid);
        assert forall|p: i32| #[trigger] after.contains(p) <==> before.contains(p) || p == pid by {
            if after.contains(p) && p != pid {
                let k = after.index_of(p);
                let k1 = if k < i { k } else { k - 1 };
                assert(before[k1] == p);
            }
            if before.contains(p) {
                let k = before.index_of(p);
                let k1 = if k < i { k } else { k + 1 };
                assert(after[k1] == p);
            }
        }
    }
}

/// While the screen is locked, nothing is looked at again, whatever happens,
/// until it is unlocked.
pub proof fn law_locked_screen_is_left_alone(w: WatcherView, wait: Wait, now: u64)
    requires
        w.screen_locked,
        !(wait matches Wait::Event(AppEvent::ScreenUnlocked)),
    ensures
        ({
            let (after, acts) = watched_step(w, wait, now);
            &&& after.screen_locked
            &&& forall|i: int| 0 <= i < acts.len() ==> !(#[trigger] acts[i] is Resync)
        }),
{
}

/// On a quiet system all windows are looked at again before the longest
/// interval is over by more than one wait.
pub proof fn law_quiet_system_is_swept(w: WatcherView, waited: u64, now: u64)
    requires
        !w.screen_locked,
        elapsed(w.last_full_resync, now) >= FULL_RESYNC_MAX_INTERVAL,
    ensures
        watched_step(w, Wait::Timeout { waited }, now).0 == resynced(w, now),
        watched_step(w, Wait::Timeout { waited }, now).1.last() == (StepView::Resync { full: true }),
{
}

/// An application that is in front already is not reported again.
pub proof fn law_frontmost_is_reported_once(w: WatcherView, pid: i32, now: u64)
    ensures
        ({
            let (after, acts) = watched_step(w, Wait::Event(AppEvent::Activated { pid }), now);
            watched_step(after, Wait::Event(AppEvent::Activated { pid }), now).1.len() == 0
        }),
{
}

/// `acts` is what looking at all applications again takes.
pub open spec fn resync_takes(
    w: WatcherView,
    current: Seq<i32>,
    onscreen: Seq<i32>,
    dead: Seq<i32>,
    full: bool,
    acts: Seq<StepView>,
) -> bool {
    exists|a: Seq<i32>, b: Seq<i32>|
        each_once(a, w.watched.filter(|p: i32| dead.contains(p) || !current.contains(p)))
            && each_once(b, w.unwatchable.filter(|p: i32| dead.contains(p))) && acts == swept(
            full,
            onscreen,
        ) + #[trigger] dropped(a, dead) + #[trigger] ended(b)
}

/// What a notification of a window means.
pub open spec fn event_of(notification: Seq<char>, pid: i32) -> WmEvent {
    if notification == "AXFocusedWindowChanged"@ || notification == "AXMainWindowChanged"@ {
        WmEvent::WindowFocused { pid }
    } else {
        WmEvent::WindowsChanged { pid }
    }
}

/// A change of which window has the focus, or is the main one, is told as such;
/// any other notification means that the application's windows changed.
pub proof fn law_notifications_mean_changes(notification: Seq<char>, pid: i32)
    ensures
        event_of("AXFocusedWindowChanged"@, pid) == (WmEvent::WindowFocused { pid }),
        event_of("AXMainWindowChanged"@, pid) == (WmEvent::WindowFocused { pid }),
        event_of(notification, pid) == (WmEvent::WindowFocused { pid }) || event_of(notification, pid)
            == (WmEvent::WindowsChanged { pid }),
        notification != "AXFocusedWindowChanged"@ && notification != "AXMainWindowChanged"@
            ==> event_of(notification, pid) == (WmEvent::WindowsChanged { pid }),
{
}

/// Every notification is passed on for what it is. A launched application is
/// subscribed to and read; one that ended is not subscribed to any more; after
/// the system woke, and once the screen is unlocked, everything is looked at
/// again, but not while the screen is locked.
pub proof fn law_notifications_are_passed_on(w: WatcherView, event: AppEvent, now: u64)
    ensures
        ({
            let (after, acts) = watched_step(w, Wait::Event(event), now);
            match event {
                AppEvent::Launched { pid, bundle_id } => {
                    &&& acts.contains(
                        StepView::Launched { pid, bundle_id: crate::text::opt_text(bundle_id) },
                    )
                    &&& acts.contains(StepView::Watch(pid))
                    &&& acts.contains(StepView::Changed { pid })
                    &&& after.debounce_deadline is Some
                    &&& after == (WatcherView { debounce_deadline: after.debounce_deadline, ..w })
                },
                AppEvent::Terminated { pid } => {
                    &&& acts.contains(StepView::Terminated { pid })
                    &&& w.watched.contains(pid) ==> acts.contains(StepView::Unwatch(pid))
                    &&& !after.watched.contains(pid) && !after.unwatchable.contains(pid)
                    &&& after.debounce_deadline is Some
                },
                AppEvent::Activated { pid } => {
                    &&& after.last_frontmost_pid == Some(pid)
                    &&& acts.contains(StepView::Frontmost { pid }) <==> w.last_frontmost_pid
                        != Some(pid)
                    &&& after == (WatcherView { last_frontmost_pid: Some(pid), ..w })
                },
                AppEvent::SystemDidWake => {
                    &&& acts.contains(StepView::Woke)
                    &&& acts.contains(StepView::Resync { full: true }) <==> !w.screen_locked
                    &&& after.screen_locked == w.screen_locked
                },
                AppEvent::ScreenLocked => {
                    &&& acts.contains(StepView::Locked)
                    &&& after == (WatcherView { screen_locked: true, ..w })
                },
                AppEvent::ScreenUnlocked => {
                    &&& acts.contains(StepView::Unlocked)
                    &&& acts.contains(StepView::Resync { full: true })
                    &&& !after.screen_locked
                },
            }
        }),
{
    let (after, acts) = watched_step(w, Wait::Event(event), now);
    if acts.len() > 0 {
        assert(acts.contains(acts[0]));
    }
    if acts.len() > 1 {
        assert(acts.contains(acts[1]));
    }
    if acts.len() > 2 {
        assert(acts.contains(acts[2]));
    }
}

/// After a wait in which nothing came, applications are looked at again, unless
/// the screen is locked; all windows are, exactly if that was put off until now,
/// was not done for the longest time allowed, or the wait took so long that the
/// system must have slept, which is told too.
pub proof fn law_quiet_waits_look_again(w: WatcherView, waited: u64, now: u64)
    ensures
        ({
            let (after, acts) = watched_step(w, Wait::Timeout { waited }, now);
            let due = (w.debounce_deadline is Some && w.debounce_deadline->0 <= now)
                || w.last_full_resync + FULL_RESYNC_MAX_INTERVAL <= now || waited
                > SUSPECTED_SLEEP_GAP;
            &&& acts.contains(StepView::Woke) <==> waited > SUSPECTED_SLEEP_GAP
            &&& acts.contains(StepView::Resync { full: true }) <==> !w.screen_locked && due
            &&& acts.contains(StepView::Resync { full: false }) <==> !w.screen_locked && !due
            &&& !w.screen_locked && due ==> after.last_full_resync == now
                && after.debounce_deadline is None
            &&& w.screen_locked || !due ==> after == w
            &&& after.watched == w.watched && after.unwatchable == w.unwatchable
        }),
{
    let (after, acts) = watched_step(w, Wait::Timeout { waited }, now);
    if acts.len() > 0 {
        assert(acts.contains(acts[0]));
        assert(acts.contains(acts[acts.len() - 1]));
    }
}

/// A subscription that was made is kept, and an application that cannot be
/// subscribed to is remembered.
pub proof fn law_subscriptions_are_remembered(w: WatcherView, pid: i32, other: i32, made: bool)
    ensures
        ({
            let after = subscribed_to(w, pid, made);
            &&& made ==> after.watched.contains(pid) && after.unwatchable == w.unwatchable
            &&& !made ==> after.unwatchable.contains(pid) && after.watched == w.watched
            &&& other != pid ==> (after.watched.contains(other) <==> w.watched.contains(other))
                && (after.unwatchable.contains(other) <==> w.unwatchable.contains(other))
        }),
{
}

/// Exactly those of the current applications are subscribed to for which it was
/// not tried yet, and those of them that are on the screen are read.
pub proof fn law_current_applications_are_attached(
    w: WatcherView,
    current: Seq<i32>,
    onscreen: Seq<i32>,
    pid: i32,
)
    ensures
        ({
            let acts = attached(w, current, onscreen);
            let new = current.contains(pid) && !w.watched.contains(pid) && !w.unwatchable.contains(
                pid,
            );
            &&& acts.contains(StepView::Watch(pid)) <==> new
            &&& acts.contains(StepView::Changed { pid }) <==> new && onscreen.contains(pid)
        }),
    decreases current.len(),
{
    let acts = attached(w, current, onscreen);
    if current.len() > 0 {
        let init = current.drop_last();
        let last = current.last();
        law_current_applications_are_attached(w, init, onscreen, pid);
        let before = attached(w, init, onscreen);
        assert(current[current.len() - 1] == last);
        if init.contains(pid) {
            let k = init.index_of(pid);
            assert(current[k] == pid);
        }
        if current.contains(pid) && pid != last {
            let k = current.index_of(pid);
            assert(init[k] == pid);
        }
        lemma_all_from(before, acts, StepView::Watch(pid));
        lemma_all_from(before, acts, StepView::Changed { pid });
        if acts != before {
            assert(acts[before.len() as int] == StepView::Watch(last));
            if onscreen.contains(last) {
                assert(acts[before.len() as int + 1] == (StepView::Changed { pid: last }));
            }
        }
        if acts.contains(StepView::Watch(pid)) && !before.contains(StepView::Watch(pid)) {
            let k = acts.index_of(StepView::Watch(pid));
            assert(k < before.len() ==> before[k] == acts[k]);
        }
        if acts.contains(StepView::Changed { pid }) && !before.contains(StepView::Changed { pid }) {
            let k = acts.index_of(StepView::Changed { pid });
            assert(k < before.len() ==> before[k] == acts[k]);
        }
    }
}

proof fn lemma_all_from(a: Seq<StepView>, b: Seq<StepView>, x: StepView)
    requires
        a.len() <= b.len(),
        forall|i: int| 0 <= i < a.len() ==> a[i] == #[trigger] b[i],
    ensures
        a.contains(x) ==> b.contains(x),
{
    if a.contains(x) {
        let k = a.index_of(x);
        assert(b[k] == x);
    }
}

proof fn lemma_changed_all(pids: Seq<i32>, pid: i32)
    ensures
        changed_all(pids).contains(StepView::Changed { pid }) <==> pids.contains(pid),
        forall|i: int| 0 <= i < changed_all(pids).len() ==> #[trigger] changed_all(pids)[i] is Changed,
    decreases pids.len(),
{
    if pids.len() > 0 {
        let init = pids.drop_last();
        lemma_changed_all(init, pid);
        let a = changed_all(init);
        let b = changed_all(pids);
        lemma_all_from(a, b, StepView::Changed { pid });
        assert(b[a.len() as int] == (StepView::Changed { pid: pids.last() }));
        assert(pids[pids.len() - 1] == pids.last());
        if init.contains(pid) {
            let k = init.index_of(pid);
            assert(pids[k] == pid);
        }
        if pids.contains(pid) && pid != pids.last() {
            let k = pids.index_of(pid);
            assert(init[k] == pid);
        }
        if b.contains(StepView::Changed { pid }) && pid != pids.last() {
            let k = b.index_of(StepView::Changed { pid });
            assert(a[k] == b[k]);
        }
    }
}

proof fn lemma_ended(pids: Seq<i32>, pid: i32)
    ensures
        ended(pids).contains(StepView::Terminated { pid }) <==> pids.contains(pid),
        forall|i: int| 0 <= i < ended(pids).len() ==> #[trigger] ended(pids)[i] is Terminated,
    decreases pids.len(),
{
    if pids.len() > 0 {
        let init = pids.drop_last();
        lemma_ended(init, pid);
        let a = ended(init);
        let b = ended(pids);
        lemma_all_from(a, b, StepView::Terminated { pid });
        assert(b[a.len() as int] == (StepView::Terminated { pid: pids.last() }));
        assert(pids[pids.len() - 1] == pids.last());
        if init.contains(pid) {
            let k = init.index_of(pid);
            assert(pids[k] == pid);
        }
        if pids.contains(pid) && pid != pids.last() {
            let k = pids.index_of(pid);
            assert(init[k] == pid);
        }
        if b.contains(StepView::Terminated { pid }) && pid != pids.last() {
            let k = b.index_of(StepView::Terminated { pid });
            assert(a[k] == b[k]);
        }
    }
}

proof fn lemma_dropped(pids: Seq<i32>, dead: Seq<i32>, pid: i32)
    ensures
        dropped(pids, dead).contains(StepView::Unwatch(pid)) <==> pids.contains(pid),
        dropped(pids, dead).contains(StepView::Terminated { pid }) <==> pids.contains(pid)
            && dead.contains(pid),
        forall|i: int|
            0 <= i < dropped(pids, dead).len() ==> !(#[trigger] dropped(pids, dead)[i] is Changed),
    decreases pids.len(),
{
    if pids.len() > 0 {
        let init = pids.drop_last();
        let last = pids.last();
        lemma_dropped(init, dead, pid);
        let a = dropped(init, dead);
        let b = dropped(pids, dead);
        lemma_all_from(a, b, StepView::Terminated { pid });
        lemma_all_from(a, b, StepView::Unwatch(pid));
        assert(b[b.len() - 1] == StepView::Unwatch(last));
        if dead.contains(last) {
            assert(b[a.len() as int] == (StepView::Terminated { pid: last }));
        }
        assert(pids[pids.len() - 1] == last);
        if init.contains(pid) {
            let k = init.index_of(pid);
            assert(pids[k] == pid);
        }
        if pids.contains(pid) && pid != last {
            let k = pids.index_of(pid);
            assert(init[k] == pid);
        }
        if b.contains(StepView::Terminated { pid }) && !a.contains(StepView::Terminated { pid }) {
            let k = b.index_of(StepView::Terminated { pid });
            assert(k < a.len() ==> a[k] == b[k]);
        }
        if b.contains(StepView::Unwatch(pid)) && !a.contains(StepView::Unwatch(pid)) {
            let k = b.index_of(StepView::Unwatch(pid));
            assert(k < a.len() ==> a[k] == b[k]);
        }
        assert forall|i: int| 0 <= i < b.len() implies !(#[trigger] b[i] is Changed) by {
            if i < a.len() {
                assert(b[i] == a[i]);
            }
        }
    }
}

/// When everything is looked at again, an application keeps its subscription
/// exactly if it runs and is current; a subscription that goes is dropped. An
/// application that was known and ended is told to have ended, and none that
/// runs is. All that is on the screen is read exactly if that is asked for.
pub proof fn law_resync_keeps_what_lives(
    w: WatcherView,
    current: Seq<i32>,
    onscreen: Seq<i32>,
    dead: Seq<i32>,
    full: bool,
    acts: Seq<StepView>,
    pid: i32,
)
    requires
        resync_takes(w, current, onscreen, dead, full, acts),
    ensures
        ({
            let after = pruned(w, current, dead);
            let gone = dead.contains(pid) || !current.contains(pid);
            &&& after.watched.contains(pid) <==> w.watched.contains(pid) && !gone
            &&& after.unwatchable.contains(pid) <==> w.unwatchable.contains(pid) && !dead.contains(pid)
            &&& acts.contains(StepView::Unwatch(pid)) <==> w.watched.contains(pid) && gone
            &&& acts.contains(StepView::Terminated { pid }) <==> dead.contains(pid) && (
            w.watched.contains(pid) || w.unwatchable.contains(pid))
            &&& acts.contains(StepView::Changed { pid }) <==> full && onscreen.contains(pid)
        }),
{
    let (a, b) = choose|a: Seq<i32>, b: Seq<i32>|
        each_once(a, w.watched.filter(|p: i32| dead.contains(p) || !current.contains(p)))
            && each_once(b, w.unwatchable.filter(|p: i32| dead.contains(p))) && acts == swept(
            full,
            onscreen,
        ) + #[trigger] dropped(a, dead) + #[trigger] ended(b);
    lemma_dropped(a, dead, pid);
    lemma_ended(b, pid);
    lemma_changed_all(onscreen, pid);
    let x = swept(full, onscreen);
    let y = dropped(a, dead);
    let z = ended(b);
    assert(a.contains(pid) <==> a.to_set().contains(pid));
    assert(b.contains(pid) <==> b.to_set().contains(pid));
    let unwatch = StepView::Unwatch(pid);
    let over = StepView::Terminated { pid };
    let read = StepView::Changed { pid };
    lemma_three(x, y, z, unwatch);
    lemma_three(x, y, z, over);
    lemma_three(x, y, z, read);
    if x.contains(unwatch) {
        assert(x[x.index_of(unwatch)] is Changed);
    }
    if x.contains(over) {
        assert(x[x.index_of(over)] is Changed);
    }
    if y.contains(read) {
        assert(!(y[y.index_of(read)] is Changed));
    }
    if z.contains(unwatch) {
        assert(z[z.index_of(unwatch)] is Terminated);
    }
    if z.contains(read) {
        assert(z[z.index_of(read)] is Terminated);
    }
}

proof fn lemma_three(x: Seq<StepView>, y: Seq<StepView>, z: Seq<StepView>, v: StepView)
    ensures
        (x + y + z).contains(v) <==> x.contains(v) || y.contains(v) || z.contains(v),
{
    let all = x + y + z;
    if x.contains(v) {
        assert(all[x.index_of(v)] == v);
    }
    if y.contains(v) {
        assert(all[x.len() + y.index_of(v)] == v);
    }
    if z.contains(v) {
        assert(all[x.len() + y.len() + z.index_of(v)] == v);
    }
    if all.contains(v) {
        let i = all.index_of(v);
        if i < x.len() {
            assert(x[i] == v);
        } else if i < x.len() + y.len() {
            assert(y[i - x.len()] == v);
        } else {
            assert(z[i - x.len() - y.len()] == v);
        }
    }
}

}
