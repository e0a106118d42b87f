//! Which workspace each connected monitor shows.

use vstd::prelude::*;
use crate::ipc::{MonitorInfo, MonitorTarget, RectInfo};
use crate::table::Table;
use crate::text::{
    decimal, decimal_text, join2, join3, law_decimal_is_injective, opt_text, outcome, same_text,
    texts,
};

verus! {

/// A connected display.
#[derive(Debug, Clone, Copy, PartialEq, Eq, Structural)]
pub struct Monitor {
    pub id: u32,
    pub is_main: bool,
    /// Whether the display is higher than it is wide.
    pub tall: bool,
    pub frame: RectInfo,
}

/// Which monitors went, came, or only changed their id.
#[derive(Debug, PartialEq, Eq)]
pub struct MonitorDiff {
    /// Pairs of an old and a new id of one display.
    pub renamed: Vec<(u32, u32)>,
    pub disconnected: Vec<u32>,
    pub connected: Vec<u32>,
}

/// The monitors and what they show.
pub struct Desk {
    monitors: Vec<Monitor>,
    active: Table<u32, String>,
    focused: u32,
    previous: Option<String>,
    epoch: u64,
}

/// What a `Desk` holds.
pub struct DeskView {
    /// The connected monitors, in order.
    pub monitors: Seq<Monitor>,
    /// The workspace that each monitor shows. A workspace that no monitor
    /// shows is parked.
    pub active: Map<u32, Seq<char>>,
    /// The monitor that commands act on.
    pub focused: u32,
    /// What the focused monitor showed before its last switch.
    pub previous: Option<Seq<char>>,
    /// How many switches there were, modulo the range of the counter.
    pub epoch: u64,
}

/// What switching the focused monitor to a workspace did.
pub enum Switch {
    /// The focused monitor shows it already.
    Already,
    /// The focused monitor showed `outgoing` before. If `swap` showed the
    /// workspace, it shows `outgoing` now.
    Done { outgoing: Option<String>, swap: Option<u32> },
}

/// What moving a workspace to a monitor did.
pub enum Move {
    /// The monitor shows it already.
    Already,
    /// The target showed `displaced` before, and `from` showed the workspace.
    Done { displaced: Option<String>, from: Option<u32> },
}

/// What `m` holds for `k`.
pub open spec fn lookup<K, V>(m: Map<K, V>, k: K) -> Option<V> {
    if m.contains_key(k) {
        Some(m[k])
    } else {
        None
    }
}

/// Some monitor shows `name`.
pub open spec fn shown(active: Map<u32, Seq<char>>, name: Seq<char>) -> bool {
    exists|id: u32| #[trigger] active.contains_key(id) && active[id] == name
}

/// `r` is a monitor that shows `name`, `None` if there is none.
pub open spec fn shows(active: Map<u32, Seq<char>>, name: Seq<char>, r: Option<u32>) -> bool {
    match r {
        Some(id) => active.contains_key(id) && active[id] == name,
        None => !shown(active, name),
    }
}

/// `r` is a monitor other than `but` that shows `name`, `None` if there is none.
pub open spec fn shows_elsewhere(
    active: Map<u32, Seq<char>>,
    name: Seq<char>,
    but: u32,
    r: Option<u32>,
) -> bool {
    shows(active.remove(but), name, r)
}

/// No two monitors show the same workspace.
pub open spec fn exclusive(active: Map<u32, Seq<char>>) -> bool {
    forall|a: u32, b: u32| #[trigger]
        active.contains_key(a) && #[trigger] active.contains_key(b) && active[a] == active[b] ==> a
            == b
}

/// The place of the first monitor with the given id at or after `from`, the
/// first place if there is none.
pub open spec fn place_from(s: Seq<Monitor>, id: u32, from: int) -> int
    decreases s.len() - from,
{
    if from < 0 || from >= s.len() {
        0
    } else if s[from].id == id {
        from
    } else {
        place_from(s, id, from + 1)
    }
}

/// The id of the monitor after the focused one, in a circle.
pub open spec fn next_monitor(s: Seq<Monitor>, focused: u32) -> u32 {
    s[(place_from(s, focused, 0) + 1) % (s.len() as int)].id
}

/// Some connected monitor has the id.
pub open spec fn connected(s: Seq<Monitor>, id: u32) -> bool {
    exists|i: int| 0 <= i < s.len() && (#[trigger] s[i]).id == id
}

/// The first monitor with an id at or after `from`.
pub open spec fn monitor_from(s: Seq<Monitor>, id: u32, from: int) -> Option<Monitor>
    decreases s.len() - from,
{
    if from < 0 || from >= s.len() {
        None
    } else if s[from].id == id {
        Some(s[from])
    } else {
        monitor_from(s, id, from + 1)
    }
}

/// The first main monitor at or after `from`.
pub open spec fn main_from(s: Seq<Monitor>, from: int) -> Option<u32>
    decreases s.len() - from,
{
    if from < 0 || from >= s.len() {
        None
    } else if s[from].is_main {
        Some(s[from].id)
    } else {
        main_from(s, from + 1)
    }
}

/// The monitor that a target names.
pub open spec fn resolved_target(d: DeskView, target: MonitorTarget) -> Result<u32, Seq<char>> {
    match target {
        MonitorTarget::Id(id) => if connected(d.monitors, id) {
            Ok(id)
        } else {
            Err("no connected monitor with id "@ + decimal_text(id as nat))
        },
        MonitorTarget::Main => match main_from(d.monitors, 0) {
            Some(id) => Ok(id),
            None => Err("no main monitor connected"@),
        },
        MonitorTarget::Next => if d.monitors.len() < 2 {
            Err("fewer than two monitors connected"@)
        } else {
            Ok(next_monitor(d.monitors, d.focused))
        },
    }
}

/// The desk after the focused monitor switched to `name`, which `swap` showed.
pub open spec fn switched(d: DeskView, name: Seq<char>, swap: Option<u32>) -> DeskView {
    let outgoing = lookup(d.active, d.focused);
    DeskView {
        active: match swap {
            None => d.active,
            Some(id) => match outgoing {
                Some(o) => d.active.insert(id, o),
                None => d.active.remove(id),
            },
        }.insert(d.focused, name),
        previous: outgoing,
        epoch: d.epoch.wrapping_add(1),
        ..d
    }
}

/// The desk after `name`, which `from` showed, moved to the monitor `to`.
pub open spec fn moved(d: DeskView, name: Seq<char>, to: u32, from: Option<u32>) -> DeskView {
    DeskView {
        active: match from {
            None => d.active,
            Some(id) => match lookup(d.active, to) {
                Some(o) => d.active.insert(id, o),
                None => d.active.remove(id),
            },
        }.insert(to, name),
        ..d
    }
}

/// What the monitors show once the monitor `focused` shows `name`. One that
/// showed it shows what `focused` showed.
pub open spec fn swapped_in(active: Map<u32, Seq<char>>, focused: u32, name: Seq<char>) -> Map<
    u32,
    Seq<char>,
> {
    Map::new(
        |id: u32|
            id == focused || (active.contains_key(id) && (active[id] != name
                || active.contains_key(focused))),
        |id: u32|
            if id == focused {
                name
            } else if active[id] == name {
                active[focused]
            } else {
                active[id]
            },
    )
}

/// The names that a newly connected monitor's workspace may get, in the order in
/// which they are tried.
pub open spec fn fresh_name(id: u32, k: nat) -> Seq<char> {
    let plain = "monitor-"@ + decimal_text(id as nat);
    if k == 0 {
        plain
    } else {
        plain + "-"@ + decimal_text(k)
    }
}

/// What the monitors show, and which is focused, once each pair of `renamed`
/// was applied in turn.
pub open spec fn after_renames(
    active: Map<u32, Seq<char>>,
    focused: u32,
    renamed: Seq<(u32, u32)>,
) -> (Map<u32, Seq<char>>, u32)
    decreases renamed.len(),
{
    if renamed.len() == 0 {
        (active, focused)
    } else {
        let (a, f) = after_renames(active, focused, renamed.drop_last());
        let (old_id, new_id) = renamed.last();
        (
            if a.contains_key(old_id) {
                a.remove(old_id).insert(new_id, a[old_id])
            } else {
                a
            },
            if f == old_id {
                new_id
            } else {
                f
            },
        )
    }
}

/// What the monitors show once those in `gone` are off.
pub open spec fn after_disconnects(active: Map<u32, Seq<char>>, gone: Seq<u32>) -> Map<
    u32,
    Seq<char>,
> {
    active.remove_keys(gone.to_set())
}

/// The workspaces that the monitors in `gone` showed, in turn.
pub open spec fn parked_by(active: Map<u32, Seq<char>>, gone: Seq<u32>) -> Seq<Seq<char>>
    decreases gone.len(),
{
    if gone.len() == 0 {
        Seq::empty()
    } else {
        let before = after_disconnects(active, gone.drop_last());
        let names = parked_by(active, gone.drop_last());
        if before.contains_key(gone.last()) {
            names.push(before[gone.last()])
        } else {
            names
        }
    }
}

/// The desk after the displays changed, before newly connected ones show
/// anything. With no display at all nothing changes: the system sleeps.
pub open spec fn displays_changed(
    d: DeskView,
    monitors: Seq<Monitor>,
    renamed: Seq<(u32, u32)>,
    gone: Seq<u32>,
) -> DeskView {
    if monitors.len() == 0 {
        d
    } else {
        let (active, focused) = after_renames(d.active, d.focused, renamed);
        DeskView {
            monitors,
            active: after_disconnects(active, gone),
            focused: if connected(monitors, focused) {
                focused
            } else {
                monitors[0].id
            },
            ..d
        }
    }
}

/// What `list_monitors` reports of one monitor.
pub open spec fn monitor_report(d: DeskView, m: Monitor, info: MonitorInfo) -> bool {
    &&& info.id == m.id
    &&& info.is_main == m.is_main
    &&& info.focused == (m.id == d.focused)
    &&& opt_text(info.active_workspace) == lookup(d.active, m.id)
    &&& info.frame == m.frame
}

impl View for Desk {
    type V = DeskView;

    closed spec fn view(&self) -> DeskView {
        DeskView {
            monitors: self.monitors@,
            active: self.active@,
            focused: self.focused,
            previous: opt_text(self.previous),
            epoch: self.epoch,
        }
    }
}

impl Desk {
    pub closed spec fn wf(&self) -> bool {
        self.active.wf()
    }

    /// A desk whose first monitor is focused and shows `name`. Without any
    /// monitor, the id zero stands for one.
    pub fn new(monitors: Vec<Monitor>, name: String) -> (r: Self)
        ensures
            r.wf(),
            r@.monitors == monitors@,
            r@.focused == (if monitors@.len() > 0 { monitors@[0].id } else { 0u32 }),
            r@.active == Map::<u32, Seq<char>>::empty().insert(r@.focused, name@),
            r@.previous is None,
            r@.epoch == 0,
    {
        let focused: u32 = if monitors.len() > 0 { monitors[0].id } else { 0 };
        let mut active: Table<u32, String> = Table::new();
        active.insert(focused, name);
        Desk { monitors, active, focused, previous: None, epoch: 0 }
    }

    /// A monitor that shows `name`.
    pub fn shown_on(&self, name: &str) -> (r: Option<u32>)
        requires
            self.wf(),
        ensures
            shows(self@.active, name@, r),
    {
        let n: usize = self.active.len();
        let mut i: usize = 0;
        while i < n
            invariant
                self.wf(),
                n == self.active.order().len(),
                i <= n,
                forall|j: int|
                    0 <= j < i ==> self.active@[#[trigger] self.active.order()[j]] != name@,
            decreases n - i,
        {
            if same_text(self.active.value_at(i).as_str(), name) {
                return Some(*self.active.key_at(i));
            }
            i = i + 1;
        }
        proof {
            let active = self@.active;
            assert(!shown(active, name@)) by {
                if shown(active, name@) {
                    let id = choose|id: u32| #[trigger]
                        active.contains_key(id) && active[id] == name@;
                    assert(self.active.order().contains(id));
                    let j = choose|j: int|
                        0 <= j < self.active.order().len() && self.active.order()[j] == id;
                    assert(self.active@[self.active.order()[j]] == name@);
                }
            }
        }
        None
    }

    /// A monitor other than the focused one that shows `name`.
    fn shown_elsewhere(&self, name: &str) -> (r: Option<u32>)
        requires
            self.wf(),
        ensures
            shows_elsewhere(self@.active, name@, self@.focused, r),
    {
        let n: usize = self.active.len();
        let mut i: usize = 0;
        while i < n
            invariant
                self.wf(),
                n == self.active.order().len(),
                i <= n,
                forall|j: int|
                    0 <= j < i ==> self.active@[#[trigger] self.active.order()[j]] != name@
                        || self.active.order()[j] == self.focused,
            decreases n - i,
        {
            if *self.active.key_at(i) != self.focused && same_text(
                self.active.value_at(i).as_str(),
                name,
            ) {
                return Some(*self.active.key_at(i));
            }
            i = i + 1;
        }
        proof {
            let active = self@.active.remove(self.focused);
            assert(!shown(active, name@)) by {
                if shown(active, name@) {
                    let id = choose|id: u32| #[trigger]
                        active.contains_key(id) && active[id] == name@;
                    assert(self.active@.contains_key(id));
                    assert(self.active.order().contains(id));
                    let j = choose|j: int|
                        0 <= j < self.active.order().len() && self.active.order()[j] == id;
                    assert(self.active@[self.active.order()[j]] == name@);
                }
            }
        }
        None
    }

    /// Whether some monitor shows `name`.
    pub fn is_shown(&self, name: &str) -> (r: bool)
        requires
            self.wf(),
        ensures
            r == shown(self@.active, name@),
    {
        match self.shown_on(name) {
            Some(id) => true,
            None => false,
        }
    }

    /// The workspace that a monitor shows.
    pub fn active_on(&self, id: u32) -> (r: Option<&String>)
        requires
            self.wf(),
        ensures
            match r {
                Some(name) => lookup(self@.active, id) == Some(name@),
                None => lookup(self@.active, id) is None,
            },
    {
        self.active.get(&id)
    }

    pub fn focused(&self) -> (r: u32)
        ensures
            r == self@.focused,
    {
        self.focused
    }

    /// Makes a monitor the one that commands act on.
    pub fn set_focused(&mut self, id: u32)
        requires
            old(self).wf(),
        ensures
            final(self).wf(),
            final(self)@ == (DeskView { focused: id, ..old(self)@ }),
    {
        self.focused = id;
    }

    pub fn epoch(&self) -> (r: u64)
        ensures
            r == self@.epoch,
    {
        self.epoch
    }

    pub fn previous(&self) -> (r: Option<String>)
        ensures
            opt_text(r) == self@.previous,
    {
        match &self.previous {
            Some(name) => Some(name.clone()),
            None => None,
        }
    }

    /// The monitor with an id.
    pub fn monitor(&self, id: u32) -> (r: Option<Monitor>)
        ensures
            r == monitor_from(self@.monitors, id, 0),
            match r {
                Some(m) => m.id == id && self@.monitors.contains(m),
                None => !connected(self@.monitors, id),
            },
    {
        let mut i: usize = 0;
        while i < self.monitors.len()
            invariant
                i <= self.monitors.len(),
                monitor_from(self.monitors@, id, 0) == monitor_from(self.monitors@, id, i as int),
                forall|j: int| 0 <= j < i ==> (#[trigger] self.monitors@[j]).id != id,
            decreases self.monitors.len() - i,
        {
            if self.monitors[i].id == id {
                assert(self.monitors@[i as int].id == id);
                return Some(self.monitors[i]);
            }
            i = i + 1;
        }
        None
    }

    /// Whether a monitor is connected.
    pub fn is_connected(&self, id: u32) -> (r: bool)
        ensures
            r == connected(self@.monitors, id),
    {
        match self.monitor(id) {
            Some(m) => {
                proof {
                    let i = choose|i: int| 0 <= i < self@.monitors.len() && self@.monitors[i] == m;
                    assert(self@.monitors[i].id == id);
                }
                true
            },
            None => false,
        }
    }

    fn next_id(&self) -> (r: u32)
        requires
            self@.monitors.len() > 0,
        ensures
            r == next_monitor(self@.monitors, self@.focused),
    {
        let n: usize = self.monitors.len();
        let mut i: usize = 0;
        while i < n && self.monitors[i].id != self.focused
            invariant
                n == self.monitors.len(),
                i <= n,
                place_from(self.monitors@, self.focused, 0) == place_from(
                    self.monitors@,
                    self.focused,
                    i as int,
                ),
            decreases n - i,
        {
            i = i + 1;
        }
        let place: usize = if i < n { i } else { 0 };
        let next: usize = if place + 1 < n { place + 1 } else { 0 };
        assert(next == (place + 1) % (n as int)) by {
            if place + 1 < n {
                assert((place + 1) % (n as int) == place + 1) by (nonlinear_arith)
                    requires
                        0 <= place + 1 < n,
                ;
            } else {
                assert((place + 1) % (n as int) == 0) by (nonlinear_arith)
                    requires
                        place + 1 == n,
                        n > 0,
                ;
            }
        }
        self.monitors[next].id
    }

    /// Makes the next monitor, in a circle, the one that commands act on. With
    /// fewer than two monitors nothing changes.
    pub fn focus_next(&mut self)
        requires
            old(self).wf(),
        ensures
            final(self).wf(),
            final(self)@ == (if old(self)@.monitors.len() < 2 { old(self)@ } else {
                DeskView { focused: next_monitor(old(self)@.monitors, old(self)@.focused), ..old(self)@ }
            }),
    {
        if self.monitors.len() < 2 {
            return;
        }
        self.focused = self.next_id();
    }

    /// Finds the monitor that a target names.
    pub fn resolve_monitor_target(&self, target: MonitorTarget) -> (r: Result<u32, String>)
        ensures
            outcome(r) == resolved_target(self@, target),
    {
        match target {
            MonitorTarget::Id(id) => {
                if self.is_connected(id) {
                    Ok(id)
                } else {
                    let number: String = decimal(id as u64);
                    Err(join2("no connected monitor with id ", number.as_str()))
                }
            },
            MonitorTarget::Main => {
                let mut i: usize = 0;
                while i < self.monitors.len()
                    invariant
                        i <= self.monitors.len(),
                        target is Main,
                        main_from(self.monitors@, 0) == main_from(self.monitors@, i as int),
                    decreases self.monitors.len() - i,
                {
                    if self.monitors[i].is_main {
                        return Ok(self.monitors[i].id);
                    }
                    i = i + 1;
                }
                Err("no main monitor connected".to_owned())
            },
            MonitorTarget::Next => {
                if self.monitors.len() < 2 {
                    Err("fewer than two monitors connected".to_owned())
                } else {
                    Ok(self.next_id())
                }
            },
        }
    }

    /// Makes the focused monitor show `name`. A monitor that showed it takes
    /// over what the focused one showed.
    pub fn switch_to(&mut self, name: &str) -> (r: Switch)
        requires
            old(self).wf(),
        ensures
            final(self).wf(),
            match r {
                Switch::Already => {
                    &&& lookup(old(self)@.active, old(self)@.focused) == Some(name@)
                    &&& final(self)@ == old(self)@
                },
                Switch::Done { outgoing, swap } => {
                    &&& lookup(old(self)@.active, old(self)@.focused) != Some(name@)
                    &&& opt_text(outgoing) == lookup(old(self)@.active, old(self)@.focused)
                    &&& shows_elsewhere(old(self)@.active, name@, old(self)@.focused, swap)
                    &&& final(self)@ == switched(old(self)@, name@, swap)
                },
            },
    {
        let outgoing: Option<String> = match self.active.get(&self.focused) {
            Some(current) => {
                if same_text(current.as_str(), name) {
                    return Switch::Already;
                }
                Some(current.clone())
            },
            None => None,
        };
        let swap: Option<u32> = self.shown_elsewhere(name);
        self.epoch = self.epoch.wrapping_add(1);
        self.previous = match &outgoing {
            Some(o) => Some(o.clone()),
            None => None,
        };
        match swap {
            Some(id) => {
                match &outgoing {
                    Some(o) => {
                        self.active.insert(id, o.clone());
                    },
                    None => {
                        let _ = self.active.remove(&id);
                    },
                }
            },
            None => {},
        }
        self.active.insert(self.focused, name.to_owned());
        Switch::Done { outgoing, swap }
    }

    /// Makes the monitor `to` show `name`, without focusing it. What it showed
    /// goes to the monitor that showed `name`, if one did.
    pub fn move_to(&mut self, name: &str, to: u32) -> (r: Move)
        requires
            old(self).wf(),
        ensures
            final(self).wf(),
            match r {
                Move::Already => {
                    &&& lookup(old(self)@.active, to) == Some(name@)
                    &&& final(self)@ == old(self)@
                },
                Move::Done { displaced, from } => {
                    &&& opt_text(displaced) == lookup(old(self)@.active, to)
                    &&& shows(old(self)@.active, name@, from)
                    &&& from != Some(to)
                    &&& final(self)@ == moved(old(self)@, name@, to, from)
                },
            },
    {
        let from: Option<u32> = self.shown_on(name);
        match from {
            Some(id) => {
                if id == to {
                    return Move::Already;
                }
            },
            None => {},
        }
        let displaced: Option<String> = match self.active.get(&to) {
            Some(o) => Some(o.clone()),
            None => None,
        };
        match from {
            Some(id) => {
                match &displaced {
                    Some(o) => {
                        self.active.insert(id, o.clone());
                    },
                    None => {
                        let _ = self.active.remove(&id);
                    },
                }
            },
            None => {},
        }
        self.active.insert(to, name.to_owned());
        Move::Done { displaced, from }
    }

    /// Takes over the displays that are connected now. Returns the workspaces
    /// that are parked by it, in order.
    pub fn displays_changed(&mut self, monitors: Vec<Monitor>, diff: &MonitorDiff) -> (r: Vec<
        String,
    >)
        requires
            old(self).wf(),
        ensures
            final(self).wf(),
            final(self)@ == displays_changed(
                old(self)@,
                monitors@,
                diff.renamed@,
                diff.disconnected@,
            ),
            texts(r@) == (if monitors@.len() == 0 { Seq::empty() } else {
                parked_by(
                    after_renames(old(self)@.active, old(self)@.focused, diff.renamed@).0,
                    diff.disconnected@,
                )
            }),
    {
        let mut parked: Vec<String> = Vec::new();
        if monitors.len() == 0 {
            assert(texts(parked@) =~= Seq::empty());
            return parked;
        }
        let ghost before = self@;
        self.monitors = monitors;
        let mut i: usize = 0;
        assert(diff.renamed@.take(0) =~= Seq::empty());
        while i < diff.renamed.len()
            invariant
                self.wf(),
                i <= diff.renamed.len(),
                (self.active@, self.focused) == after_renames(
                    before.active,
                    before.focused,
                    diff.renamed@.take(i as int),
                ),
                self@ == (DeskView {
                    monitors: monitors@,
                    active: self.active@,
                    focused: self.focused,
                    ..before
                }),
            decreases diff.renamed.len() - i,
        {
            assert(diff.renamed@.take(i + 1).drop_last() =~= diff.renamed@.take(i as int));
            let (old_id, new_id) = diff.renamed[i];
            match self.active.remove(&old_id) {
                Some(name) => {
                    self.active.insert(new_id, name);
                },
                None => {
                },
            }
            if self.focused == old_id {
                self.focused = new_id;
            }
            i = i + 1;
        }
        assert(diff.renamed@.take(i as int) =~= diff.renamed@);
        let ghost renamed = self.active@;
        let ghost focus = self.focused;
        let mut i: usize = 0;
        assert(diff.disconnected@.take(0) =~= Seq::empty());
        assert(after_disconnects(renamed, Seq::empty()) =~= renamed);
        assert(texts(parked@) =~= Seq::empty());
        while i < diff.disconnected.len()
            invariant
                self.wf(),
                i <= diff.disconnected.len(),
                self.active@ == after_disconnects(renamed, diff.disconnected@.take(i as int)),
                texts(parked@) == parked_by(renamed, diff.disconnected@.take(i as int)),
                self@ == (DeskView {
                    monitors: monitors@,
                    active: self.active@,
                    focused: focus,
                    ..before
                }),
            decreases diff.disconnected.len() - i,
        {
            let ghost gone = diff.disconnected@.take(i + 1);
            let ghost names = texts(parked@);
            proof {
                assert(gone.drop_last() =~= diff.disconnected@.take(i as int));
                lemma_one_more(renamed, gone);
            }
            match self.active.remove(&diff.disconnected[i]) {
                Some(name) => {
                    parked.push(name);
                    assert(texts(parked@) =~= names.push(name@));
                },
                None => {
                },
            }
            i = i + 1;
        }
        assert(diff.disconnected@.take(i as int) =~= diff.disconnected@);
        if !self.is_connected(self.focused) {
            self.focused = self.monitors[0].id;
        }
        parked
    }

    /// Every connected monitor and what it shows.
    pub fn list_monitors(&self) -> (r: Vec<MonitorInfo>)
        requires
            self.wf(),
        ensures
            r@.len() == self@.monitors.len(),
            forall|i: int|
                0 <= i < r@.len() ==> monitor_report(self@, self@.monitors[i], #[trigger] r@[i]),
    {
        let mut out: Vec<MonitorInfo> = Vec::new();
        let mut i: usize = 0;
        while i < self.monitors.len()
            invariant
                self.wf(),
                i <= self.monitors.len(),
                out@.len() == i,
                forall|j: int|
                    0 <= j < i ==> monitor_report(self@, self@.monitors[j], #[trigger] out@[j]),
            decreases self.monitors.len() - i,
        {
            let m: Monitor = self.monitors[i];
            let active_workspace: Option<String> = match self.active.get(&m.id) {
                Some(name) => Some(name.clone()),
                None => None,
            };
            out.push(
                MonitorInfo {
                    id: m.id,
                    is_main: m.is_main,
                    focused: m.id == self.focused,
                    active_workspace,
                    frame: m.frame,
                },
            );
            i = i + 1;
        }
        out
    }

    /// Makes a monitor show `name`, whatever the others show.
    pub fn assign(&mut self, id: u32, name: String)
        requires
            old(self).wf(),
        ensures
            final(self).wf(),
            final(self)@ == (DeskView { active: old(self)@.active.insert(id, name@), ..old(self)@ }),
    {
        self.active.insert(id, name);
    }

    /// What the monitors other than `but` show.
    pub fn shown_besides(&self, but: u32) -> (r: Vec<String>)
        requires
            self.wf(),
        ensures
            forall|name: Seq<char>| #[trigger]
                texts(r@).contains(name) <==> shown(self@.active.remove(but), name),
    {
        let mut out: Vec<String> = Vec::new();
        let n: usize = self.active.len();
        let ghost order = self.active.order();
        let ghost rest = self@.active.remove(but);
        let mut i: usize = 0;
        while i < n
            invariant
                self.wf(),
                order == self.active.order(),
                n == order.len(),
                i <= n,
                rest == self@.active.remove(but),
                forall|j: int| 0 <= j < n ==> self@.active.contains_key(#[trigger] order[j]),
                forall|name: Seq<char>| #[trigger] texts(out@).contains(name) ==> shown(rest, name),
                forall|j: int|
                    0 <= j < i && #[trigger] order[j] != but ==> texts(out@).contains(
                        self@.active[order[j]],
                    ),
            decreases n - i,
        {
            let id: u32 = *self.active.key_at(i);
            if id != but {
                let name: String = self.active.value_at(i).clone();
                let ghost before = texts(out@);
                out.push(name);
                proof {
                    let more = texts(out@);
                    assert(more =~= before.push(name@));
                    assert(more[before.len() as int] == name@);
                    assert(rest.contains_key(id) && rest[id] == name@);
                    assert forall|x: Seq<char>| #[trigger] more.contains(x) implies shown(rest, x) by {
                        let k = more.index_of(x);
                        if k < before.len() {
                            assert(before[k] == x);
                            assert(before.contains(x));
                        }
                    }
                    assert forall|x: Seq<char>| before.contains(x) implies more.contains(x) by {
                        let k = before.index_of(x);
                        assert(more[k] == x);
                    }
                }
            }
            i = i + 1;
        }
        proof {
            assert forall|name: Seq<char>| shown(rest, name) implies #[trigger] texts(out@).contains(name) by {
                let id = choose|id: u32| #[trigger] rest.contains_key(id) && rest[id] == name;
                assert(self@.active.contains_key(id));
                let k = order.index_of(id);
                assert(order[k] == id);
            }
        }
        out
    }

    /// Makes the focused monitor show `name`. One that showed it shows what the
    /// focused one showed.
    pub fn bring_in(&mut self, name: String)
        requires
            old(self).wf(),
        ensures
            final(self).wf(),
            final(self)@ == (DeskView {
                active: swapped_in(old(self)@.active, old(self)@.focused, name@),
                ..old(self)@
            }),
    {
        let ghost before = self@.active;
        let ghost want = swapped_in(before, self.focused, name@);
        let focused: u32 = self.focused;
        let mut active: Table<u32, String> = Table::new();
        let n: usize = self.active.len();
        let ghost order = self.active.order();
        let mut i: usize = 0;
        while i < n
            invariant
                self.wf(),
                active.wf(),
                focused == self.focused,
                before == self.active@,
                want == swapped_in(before, focused, name@),
                order == self.active.order(),
                order.no_duplicates(),
                n == order.len(),
                i <= n,
                forall|k: u32| #[trigger]
                    active@.contains_key(k) <==> order.take(i as int).contains(k) && want.contains_key(k)
                        && k != focused,
                forall|k: u32| #[trigger] active@.contains_key(k) ==> active@[k] == want[k],
            decreases n - i,
        {
            let id: u32 = *self.active.key_at(i);
            proof {
                let seen = order.take(i as int);
                let more = order.take(i + 1);
                assert(more =~= seen.push(id));
                assert(more[i as int] == id);
                assert forall|x: u32| #[trigger] more.contains(x) <==> seen.contains(x) || x == id by {
                    if seen.contains(x) {
                        assert(more[seen.index_of(x)] == x);
                    }
                    if more.contains(x) && x != id {
                        assert(seen[more.index_of(x)] == x);
                    }
                }
            }
            if id != focused {
                if !same_text(self.active.value_at(i).as_str(), name.as_str()) {
                    active.insert(id, self.active.value_at(i).clone());
                } else {
                    match self.active.get(&focused) {
                        Some(o) => {
                            active.insert(id, o.clone());
                        },
                        None => {},
                    }
                }
            }
            i = i + 1;
        }
        proof {
            assert(order.take(i as int) =~= order);
            assert forall|k: u32| want.contains_key(k) && k != focused implies active@.contains_key(k) by {
                assert(before.contains_key(k));
                assert(order.contains(k));
            }
        }
        active.insert(focused, name);
        assert(active@ =~= want);
        self.active = active;
    }

    /// Takes `name` off every monitor that shows it.
    pub fn withdraw(&mut self, name: &str)
        requires
            old(self).wf(),
        ensures
            final(self).wf(),
            final(self)@ == (DeskView {
                active: old(self)@.active.remove_keys(
                    Set::new(|id: u32| old(self)@.active.contains_key(id) && old(self)@.active[id] == name@),
                ),
                ..old(self)@
            }),
    {
        let ghost before = self@.active;
        let ghost doomed = Set::new(|id: u32| before.contains_key(id) && before[id] == name@);
        proof {
            self.active.lemma_finite();
        }
        loop
            invariant
                self.wf(),
                before == old(self)@.active,
                doomed == Set::new(|id: u32| before.contains_key(id) && before[id] == name@),
                self@ == (DeskView { active: self@.active, ..old(self)@ }),
                self@.active.dom().finite(),
                forall|id: u32| #[trigger] self@.active.contains_key(id) ==> before.contains_key(id)
                    && self@.active[id] == before[id],
                forall|id: u32| #[trigger]
                    before.contains_key(id) && before[id] != name@ ==> self@.active.contains_key(id),
            ensures
                !shown(self@.active, name@),
            decreases self@.active.len(),
        {
            match self.shown_on(name) {
                Some(id) => {
                    let _ = self.active.remove(&id);
                },
                None => {
                    break;
                },
            }
        }
        assert(self@.active =~= before.remove_keys(doomed)) by {
            assert forall|id: u32| self@.active.contains_key(id) implies !doomed.contains(id) by {
                assert(self@.active.contains_key(id));
            }
        }
    }
}

/// Writes a name that a newly connected monitor's workspace may get.
pub fn fresh_text(id: u32, k: u64) -> (r: String)
    ensures
        r@ == fresh_name(id, k as nat),
{
    let number: String = decimal(id as u64);
    let plain: String = join2("monitor-", number.as_str());
    if k == 0 {
        plain
    } else {
        let count: String = decimal(k);
        join3(plain.as_str(), "-", count.as_str())
    }
}

proof fn lemma_one_more(active: Map<u32, Seq<char>>, gone: Seq<u32>)
    requires
        gone.len() > 0,
    ensures
        after_disconnects(active, gone.drop_last()).remove(gone.last()) == after_disconnects(
            active,
            gone,
        ),
{
    let a = gone.drop_last().to_set();
    assert(gone.to_set() =~= a.insert(gone.last())) by {
        assert forall|x: u32| gone.contains(x) == (gone.drop_last().contains(x) || x == gone.last()) by {
            if gone.contains(x) && x != gone.last() {
                let i = gone.index_of(x);
                assert(gone.drop_last()[i] == x);
            }
            if gone.drop_last().contains(x) {
                let i = gone.drop_last().index_of(x);
                assert(gone[i] == x);
            }
            assert(gone[gone.len() - 1] == gone.last());
        }
    }
    assert(after_disconnects(active, gone.drop_last()).remove(gone.last()) =~= after_disconnects(
        active,
        gone,
    ));
}

/// Switching keeps it so that no two monitors show the same workspace.
pub proof fn law_switch_keeps_exclusive(d: DeskView, name: Seq<char>, swap: Option<u32>)
    requires
        exclusive(d.active),
        shows_elsewhere(d.active, name, d.focused, swap),
    ensures
        exclusive(switched(d, name, swap).active),
{
    let after = switched(d, name, swap).active;
    assert forall|a: u32, b: u32| #[trigger]
        after.contains_key(a) && #[trigger] after.contains_key(b) && after[a] == after[b] implies a
        == b by {
        assert(d.active.remove(d.focused).contains_key(a) == (d.active.contains_key(a) && a != d.focused));
        assert(d.active.remove(d.focused).contains_key(b) == (d.active.contains_key(b) && b != d.focused));
        assert(d.active.contains_key(a) ==> d.active.contains_key(a));
    }
}

/// Moving a workspace keeps it so that no two monitors show the same one.
pub proof fn law_move_keeps_exclusive(d: DeskView, name: Seq<char>, to: u32, from: Option<u32>)
    requires
        exclusive(d.active),
        shows(d.active, name, from),
    ensures
        exclusive(moved(d, name, to, from).active),
{
    let after = moved(d, name, to, from).active;
    assert forall|a: u32, b: u32| #[trigger]
        after.contains_key(a) && #[trigger] after.contains_key(b) && after[a] == after[b] implies a
        == b by {
        assert(d.active.contains_key(a) ==> d.active.contains_key(a));
    }
}

/// The names that a newly connected monitor's workspace may get are different.
pub proof fn law_fresh_names_differ(id: u32, j: nat, k: nat)
    requires
        fresh_name(id, j) == fresh_name(id, k),
    ensures
        j == k,
{
    let p = "monitor-"@ + decimal_text(id as nat) + "-"@;
    let plain = "monitor-"@ + decimal_text(id as nat);
    reveal_strlit("-");
    if j == 0 && k > 0 {
        assert(fresh_name(id, k).len() > plain.len());
    } else if j > 0 && k == 0 {
        assert(fresh_name(id, j).len() > plain.len());
    } else if j > 0 && k > 0 {
        let x = decimal_text(j);
        let y = decimal_text(k);
        assert((p + x).skip(p.len() as int) =~= x);
        assert((p + y).skip(p.len() as int) =~= y);
        law_decimal_is_injective(j, k);
    }
}

proof fn lemma_renames_keep_exclusive(
    active: Map<u32, Seq<char>>,
    focused: u32,
    renamed: Seq<(u32, u32)>,
)
    requires
        exclusive(active),
    ensures
        exclusive(after_renames(active, focused, renamed).0),
    decreases renamed.len(),
{
    if renamed.len() > 0 {
        lemma_renames_keep_exclusive(active, focused, renamed.drop_last());
        let a = after_renames(active, focused, renamed.drop_last()).0;
        let after = after_renames(active, focused, renamed).0;
        assert forall|x: u32, y: u32| #[trigger]
            after.contains_key(x) && #[trigger] after.contains_key(y) && after[x] == after[y] implies x
            == y by {
            assert(a.contains_key(x) ==> a.contains_key(x));
        }
    }
}

/// A change of the displays keeps it so that no two monitors show the same
/// workspace.
pub proof fn law_displays_changed_keeps_exclusive(
    d: DeskView,
    monitors: Seq<Monitor>,
    renamed: Seq<(u32, u32)>,
    gone: Seq<u32>,
)
    requires
        exclusive(d.active),
    ensures
        exclusive(displays_changed(d, monitors, renamed, gone).active),
{
    lemma_renames_keep_exclusive(d.active, d.focused, renamed);
    let a = after_renames(d.active, d.focused, renamed).0;
    let b = after_disconnects(a, gone);
    assert(exclusive(b)) by {
        assert forall|x: u32, y: u32| #[trigger]
            b.contains_key(x) && #[trigger] b.contains_key(y) && b[x] == b[y] implies x == y by {
            assert(a.contains_key(x) && a.contains_key(y));
        }
    }
}

/// Once the displays changed, the focused monitor is a connected one.
pub proof fn law_focused_monitor_is_connected(
    d: DeskView,
    monitors: Seq<Monitor>,
    renamed: Seq<(u32, u32)>,
    gone: Seq<u32>,
)
    requires
        monitors.len() > 0,
    ensures
        ({
            let after = displays_changed(d, monitors, renamed, gone);
            connected(after.monitors, after.focused)
        }),
{
    assert(connected(monitors, monitors[0].id)) by {
        assert(monitors[0].id == monitors[0].id);
    }
}

/// Switching to the previous workspace undoes a switch: every monitor shows
/// what it showed before, and the workspace that was left is the previous one
/// now, so that one more switch back leads there again.
pub proof fn law_switching_back_undoes_a_switch(
    d: DeskView,
    name: Seq<char>,
    swap: Option<u32>,
    back: Option<u32>,
)
    requires
        exclusive(d.active),
        d.active.contains_key(d.focused),
        d.active[d.focused] != name,
        shows_elsewhere(d.active, name, d.focused, swap),
        shows_elsewhere(
            switched(d, name, swap).active,
            d.active[d.focused],
            d.focused,
            back,
        ),
    ensures
        switched(d, name, swap).previous == Some(d.active[d.focused]),
        switched(switched(d, name, swap), d.active[d.focused], back).active == d.active,
        switched(switched(d, name, swap), d.active[d.focused], back).previous == Some(name),
{
    let one = switched(d, name, swap);
    let a = d.active[d.focused];
    let two = switched(one, a, back);
    let rest = one.active.remove(d.focused);
    assert(d.active.contains_key(d.focused));
    match swap {
        Some(id) => {
            assert(d.active.remove(d.focused).contains_key(id));
            assert(rest.contains_key(id) && rest[id] == a);
            assert(shown(rest, a));
            assert(back is Some);
            let b = back->0;
            if b != id {
                assert(d.active.contains_key(b) && d.active[b] == a);
            }
        },
        None => {
            if back is Some {
                assert(d.active.contains_key(back->0) && d.active[back->0] == a);
            }
        },
    }
    assert(two.active =~= d.active);
}

/// A switch shows the workspace on the focused monitor, and what was shown
/// there only vanishes from the screen if no monitor takes it over.
pub proof fn law_switch_shows_the_workspace(d: DeskView, name: Seq<char>, swap: Option<u32>)
    requires
        shows_elsewhere(d.active, name, d.focused, swap),
        lookup(d.active, d.focused) != Some(name),
    ensures
        lookup(switched(d, name, swap).active, d.focused) == Some(name),
        swap is Some && d.active.contains_key(d.focused) ==> shown(
            switched(d, name, swap).active,
            d.active[d.focused],
        ),
        switched(d, name, swap).epoch != d.epoch,
        switched(d, name, swap).focused == d.focused,
{
    if swap is Some && d.active.contains_key(d.focused) {
        let after = switched(d, name, swap).active;
        assert(d.active.remove(d.focused).contains_key(swap->0));
        assert(after.contains_key(swap->0) && after[swap->0] == d.active[d.focused]);
    }
}

/// With at least two monitors of different ids, cycling leads to a connected
/// monitor other than the focused one.
pub proof fn law_next_monitor_is_another(s: Seq<Monitor>, focused: u32)
    requires
        s.len() >= 2,
        forall|i: int, j: int| 0 <= i < j < s.len() ==> (#[trigger] s[i]).id != (#[trigger] s[j]).id,
    ensures
        connected(s, next_monitor(s, focused)),
        connected(s, focused) ==> next_monitor(s, focused) != focused,
{
    lemma_place(s, focused, 0);
    let p = place_from(s, focused, 0);
    let n = s.len() as int;
    let q = (p + 1) % n;
    assert(0 <= q < n && q != p) by (nonlinear_arith)
        requires
            q == (p + 1) % n,
            0 <= p < n,
            n >= 2,
    ;
    assert(s[q].id == next_monitor(s, focused));
    if connected(s, focused) {
        assert(s[p].id == focused);
    }
}

proof fn lemma_place(s: Seq<Monitor>, id: u32, from: int)
    requires
        0 <= from <= s.len(),
        s.len() > 0,
        forall|i: int| 0 <= i < from ==> (#[trigger] s[i]).id != id,
    ensures
        0 <= place_from(s, id, from) < s.len(),
        connected(s, id) ==> s[place_from(s, id, from)].id == id,
    decreases s.len() - from,
{
    if from < s.len() && s[from].id != id {
        lemma_place(s, id, from + 1);
    }
}

}
