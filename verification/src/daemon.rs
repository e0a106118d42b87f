//! The daemon's loop: what it does with each thing that happens, and what it
//! puts off. Times are in milliseconds.

use vstd::prelude::*;
use crate::config::views;
use crate::dispatch::{
    command_is_read_only, dispatch, dispatched, read_only, Permissions, TreeAnswer,
};
use crate::grace::later;
use crate::hotkey::KeyCombo;
use crate::ipc::{Command, Response};
use crate::modes::{bound_line, default_mode, meant, one_shot, ModesView};
use crate::resize::MouseSignal;
use crate::state::scan::{launched, woken, Suggestion};
use crate::state::commands::relayout;
use crate::state::switching::under;
use crate::state::{Action, ActionView, StateView, WmState};
use crate::watch::{add_pid, each_once, without, WmEvent};

verus! {

/// How long to wait before what is in front is brought into view.
pub const REVEAL_DEBOUNCE: u64 = 100;

/// How long a client may wait for a change.
pub const WAIT_FOR_CHANGE_TIMEOUT: u64 = 30_000;

/// How often what was put off is looked at.
pub const MAINTENANCE_INTERVAL: u64 = 30;

/// What is in front is to be brought into view.
#[derive(Debug, Clone, Copy, PartialEq, Eq, Structural)]
pub struct Reveal {
    pub deadline: u64,
    /// How many switches there had been when this was put off.
    pub epoch: u64,
    /// Whether to do so even if the same application is in front as before.
    pub allow_unchanged: bool,
}

/// What was put off.
pub struct Backlog {
    pids: Vec<i32>,
    reveal_at: Option<Reveal>,
}

/// What a `Backlog` holds.
#[verifier::ext_equal]
pub struct BacklogView {
    /// The applications whose windows have to be read again.
    pub pids: Set<i32>,
    pub reveal_at: Option<Reveal>,
}

impl View for Backlog {
    type V = BacklogView;

    closed spec fn view(&self) -> BacklogView {
        BacklogView { pids: self.pids@.to_set(), reveal_at: self.reveal_at }
    }
}

/// What to do with a client's command.
#[derive(Debug, Clone, Copy, PartialEq, Eq, Structural)]
pub enum RequestStep {
    /// Answer that it is done, put all windows back and stop.
    Shutdown,
    /// Answer once something changed, or after a while.
    Wait,
    /// Dispatch it. `changes` says whether clients that wait for a change are
    /// told.
    Dispatch { changes: bool },
}

/// Says what to do with a client's command. One that only asks is no change: a
/// waiting client asks each time it is told of one, which would never end.
pub fn on_request(command: &Command) -> (r: RequestStep)
    ensures
        r == request_step(*command),
{
    match command {
        Command::Shutdown => RequestStep::Shutdown,
        Command::WaitForChange => RequestStep::Wait,
        _ => RequestStep::Dispatch { changes: !command_is_read_only(command) },
    }
}

/// The application `pid` ended: its windows are forgotten.
pub open spec fn app_removed(
    s: StateView,
    pid: i32,
    suggestions: Seq<Suggestion>,
    after: StateView,
    acts: Seq<ActionView>,
) -> bool {
    crate::state::scan::app_removed(s, pid, suggestions, after, acts)
}

/// A reveal that is put off now.
pub open spec fn put_off(s: StateView, now: u64, allow_unchanged: bool) -> Option<Reveal> {
    Some(
        Reveal { deadline: later(now, REVEAL_DEBOUNCE), epoch: s.desk.epoch, allow_unchanged },
    )
}

/// What an event makes of the backlog.
pub open spec fn backlog_after(b: BacklogView, s: StateView, event: WmEvent, now: u64) -> BacklogView {
    match event {
        WmEvent::WindowsChanged { pid } => BacklogView { pids: b.pids.insert(pid), ..b },
        WmEvent::AppTerminated { pid } => BacklogView { pids: b.pids.remove(pid), ..b },
        WmEvent::FrontmostAppChanged { pid } => BacklogView {
            reveal_at: put_off(s, now, false),
            ..b
        },
        _ => b,
    }
}

/// What an event makes of the state.
pub open spec fn state_after(
    s: StateView,
    event: WmEvent,
    suggestions: Seq<Suggestion>,
    now: u64,
    after: StateView,
    acts: Seq<ActionView>,
) -> bool {
    match event {
        WmEvent::AppTerminated { pid } => app_removed(s, pid, suggestions, after, acts),
        WmEvent::AppLaunched { pid, bundle_id } => acts.len() == 0 && after == launched(
            s,
            pid,
            now,
        ),
        WmEvent::SystemDidWake => acts.len() == 0 && after == woken(s, now),
        _ => acts.len() == 0 && after == s,
    }
}

/// What to do with a request.
pub open spec fn request_step(c: Command) -> RequestStep {
    match c {
        Command::Shutdown => RequestStep::Shutdown,
        Command::WaitForChange => RequestStep::Wait,
        c => RequestStep::Dispatch { changes: !read_only(c) },
    }
}

/// Clients that wait for a change are told of an event.
pub open spec fn tells_clients(event: WmEvent) -> bool {
    event is WindowsChanged || event is AppTerminated
}

/// What the mouse gives: the backlog, the state and the actions after it, and
/// whether clients that wait for a change are told.
pub open spec fn mouse_handled(
    b: BacklogView,
    s: StateView,
    signal: MouseSignal,
    under_cursor: Option<u32>,
    now: u64,
    b_after: BacklogView,
    after: StateView,
    acts: Seq<ActionView>,
    told: bool,
) -> bool {
    &&& told == !(signal is Moved)
    &&& match signal {
        MouseSignal::Moved { x, y } => {
            &&& b_after == b
            &&& after == under(s, under_cursor)
            &&& acts.len() == 0
        },
        MouseSignal::ButtonDown => {
            &&& b_after == b
            &&& after == (StateView { mouse_button_down: true, ..s })
            &&& acts.len() == 0
        },
        MouseSignal::ButtonUp => {
            &&& b_after == (BacklogView { reveal_at: put_off(s, now, true), ..b })
            &&& after == (StateView { mouse_button_down: false, ..s })
            &&& acts == relayout(s)
        },
    }
}

/// `r` is what to do with a hotkey.
pub open spec fn hotkey_told(s: StateView, combo: KeyCombo, r: HotkeyStep) -> bool {
    match bound_line(s.modes, combo) {
        None => r is Ignore,
        Some(line) => match r {
            HotkeyStep::Ignore => false,
            HotkeyStep::Shutdown => meant(line, Command::Shutdown),
            HotkeyStep::Run { command, auto_exits } => {
                &&& meant(line, *command)
                &&& !(*command is Shutdown)
                &&& auto_exits == one_shot(s.modes.blocks, s.modes.current)
            },
        },
    }
}

/// What to do with a hotkey.
pub enum HotkeyStep<'a> {
    Ignore,
    /// Put all windows back and stop.
    Shutdown,
    /// Dispatch a command (see `run_hotkey`).
    Run { command: &'a Command, auto_exits: bool },
}

/// Says what to do with a hotkey. A mode that is left after one command is that
/// of the key, whatever the command makes of it.
pub fn on_hotkey<'a>(state: &'a WmState, combo: KeyCombo) -> (r: HotkeyStep<'a>)
    requires
        state.wf(),
    ensures
        hotkey_told(state@, combo, r),
{
    match state.resolve_hotkey(combo) {
        Some(command) => match command {
            Command::Shutdown => HotkeyStep::Shutdown,
            _ => HotkeyStep::Run { command, auto_exits: state.current_mode_auto_exits() },
        },
        None => HotkeyStep::Ignore,
    }
}

/// The state after the mode was left, if it is left after one command.
pub open spec fn left_mode(s: StateView, auto_exits: bool) -> StateView {
    if auto_exits {
        StateView { modes: ModesView { current: default_mode(), ..s.modes }, ..s }
    } else {
        s
    }
}

/// `after` and `acts` are what the command of a hotkey gives: what it gives
/// over the socket, and the mode left if that is due.
pub open spec fn hotkey_outcome(
    s: StateView,
    command: Command,
    answer: TreeAnswer,
    permissions: Permissions,
    auto_exits: bool,
    after: StateView,
    acts: Seq<ActionView>,
) -> bool {
    exists|mid: StateView, reply: Response| #[trigger]
        dispatched(s, command, answer, permissions, mid, reply, acts) && after == left_mode(
            mid,
            auto_exits,
        )
}

/// Runs the command of a hotkey.
pub fn run_hotkey(
    state: &mut WmState,
    command: &Command,
    answer: TreeAnswer,
    permissions: Permissions,
    auto_exits: bool,
) -> (r: Vec<Action>)
    requires
        old(state).wf(),
    ensures
        final(state).wf(),
        hotkey_outcome(
            old(state)@,
            *command,
            answer,
            permissions,
            auto_exits,
            final(state)@,
            views(r@),
        ),
{
    let ghost s = state@;
    let (reply, acts) = dispatch(state, command, answer, permissions);
    let ghost mid = state@;
    if auto_exits {
        state.exit_mode();
    }
    assert(dispatched(s, *command, answer, permissions, mid, reply, views(acts@)));
    acts
}

impl Backlog {
    pub closed spec fn wf(&self) -> bool {
        self.pids@.no_duplicates()
    }

    pub fn new() -> (r: Self)
        ensures
            r.wf(),
            r@ == (BacklogView { pids: Set::empty(), reveal_at: None }),
    {
        let r: Backlog = Backlog { pids: Vec::new(), reveal_at: None };
        assert(r.pids@.to_set() =~= Set::empty());
        r
    }

    fn put_off_reveal(&mut self, state: &WmState, now: u64, allow_unchanged: bool)
        requires
            old(self).wf(),
        ensures
            final(self).wf(),
            final(self)@ == (BacklogView {
                reveal_at: put_off(state@, now, allow_unchanged),
                ..old(self)@
            }),
    {
        self.reveal_at = Some(
            Reveal {
                deadline: now.saturating_add(REVEAL_DEBOUNCE),
                epoch: state.switch_epoch(),
                allow_unchanged,
            },
        );
    }

    /// Reacts to an event. `suggestions` are what the container trees suggest
    /// to focus where the windows of an application that ended leave them.
    /// Returns what has to be done, and whether clients that wait for a change
    /// are told.
    pub fn handle_event(
        &mut self,
        state: &mut WmState,
        event: WmEvent,
        suggestions: &Vec<Suggestion>,
        now: u64,
    ) -> (r: (Vec<Action>, bool))
        requires
            old(self).wf(),
            old(state).wf(),
        ensures
            final(self).wf(),
            final(state).wf(),
            final(self)@ == backlog_after(old(self)@, old(state)@, event, now),
            state_after(old(state)@, event, suggestions@, now, final(state)@, views(r.0@)),
            r.1 == tells_clients(event),
    {
        let nothing: Vec<Action> = Vec::new();
        match event {
            WmEvent::WindowsChanged { pid } => {
                add_pid(&mut self.pids, pid);
                (nothing, true)
            },
            WmEvent::AppTerminated { pid } => {
                self.pids = without(&self.pids, pid);
                (state.remove_app(pid, suggestions), true)
            },
            WmEvent::AppLaunched { pid, bundle_id } => {
                state.note_app_launched(pid, now);
                (nothing, false)
            },
            WmEvent::SystemDidWake => {
                state.note_system_wake(now);
                (nothing, false)
            },
            WmEvent::FrontmostAppChanged { pid } => {
                self.put_off_reveal(state, now, false);
                (nothing, false)
            },
            WmEvent::WindowFocused { pid } => (nothing, false),
            WmEvent::ScreenLocked => (nothing, false),
            WmEvent::ScreenUnlocked => (nothing, false),
        }
    }

    /// Reacts to the mouse. `under_cursor` is the monitor that the cursor is
    /// over. Returns what has to be done, and whether clients that wait for a
    /// change are told.
    pub fn handle_mouse(
        &mut self,
        state: &mut WmState,
        signal: MouseSignal,
        under_cursor: Option<u32>,
        now: u64,
    ) -> (r: (Vec<Action>, bool))
        requires
            old(self).wf(),
            old(state).wf(),
        ensures
            final(self).wf(),
            final(state).wf(),
            mouse_handled(
                old(self)@,
                old(state)@,
                signal,
                under_cursor,
                now,
                final(self)@,
                final(state)@,
                views(r.0@),
                r.1,
            ),
    {
        let nothing: Vec<Action> = Vec::new();
        match signal {
            MouseSignal::Moved { x, y } => {
                state.on_mouse_moved(under_cursor);
                (nothing, false)
            },
            MouseSignal::ButtonDown => {
                state.on_mouse_button_down();
                (nothing, true)
            },
            MouseSignal::ButtonUp => {
                let acts: Vec<Action> = state.on_mouse_button_up();
                self.put_off_reveal(state, now, true);
                (acts, true)
            },
        }
    }

    /// Takes out the applications whose windows have to be read again. Each
    /// comes once, however often its windows changed.
    pub fn take_pids(&mut self) -> (r: Vec<i32>)
        requires
            old(self).wf(),
        ensures
            final(self).wf(),
            each_once(r@, old(self)@.pids),
            final(self)@ == pids_taken(old(self)@),
    {
        let mut pids: Vec<i32> = Vec::new();
        let mut i: usize = 0;
        assert(self.pids@.take(0) =~= Seq::empty());
        while i < self.pids.len()
            invariant
                i <= self.pids.len(),
                pids@ == self.pids@.take(i as int),
            decreases self.pids.len() - i,
        {
            pids.push(self.pids[i]);
            assert(self.pids@.take(i + 1) =~= self.pids@.take(i as int).push(self.pids@[i as int]));
            i = i + 1;
        }
        assert(self.pids@.take(i as int) =~= self.pids@);
        self.pids = Vec::new();
        assert(self.pids@.to_set() =~= Set::empty());
        pids
    }

    /// Says whether bringing what is in front into view is due, `Some` if it
    /// is, and takes it out of the backlog then. Inside stands what to do: a
    /// switch of the user's own since then (`epoch` counts them) takes
    /// precedence, so there is nothing to do in that case, and otherwise
    /// whether to do so even if the same application is in front as before.
    pub fn take_reveal(&mut self, epoch: u64, now: u64) -> (r: Option<Option<bool>>)
        requires
            old(self).wf(),
        ensures
            final(self).wf(),
            (final(self)@, r) == reveal_taken(old(self)@, epoch, now),
    {
        match self.reveal_at {
            Some(reveal) => {
                if now >= reveal.deadline {
                    self.reveal_at = None;
                    if reveal.epoch == epoch {
                        Some(Some(reveal.allow_unchanged))
                    } else {
                        Some(None)
                    }
                } else {
                    None
                }
            },
            None => None,
        }
    }
}

/// Whether a reveal is due, and what to do then.
pub open spec fn reveal_step(pending: Option<Reveal>, epoch: u64, now: u64) -> Option<Option<bool>> {
    match pending {
        Some(reveal) => if now >= reveal.deadline {
            Some(
                if reveal.epoch == epoch {
                    Some(reveal.allow_unchanged)
                } else {
                    None
                },
            )
        } else {
            None
        },
        None => None,
    }
}

/// However often an application's windows change, they are read once.
pub proof fn law_changes_coalesce(b: BacklogView, s: StateView, pid: i32, now: u64, then: u64)
    ensures
        ({
            let e = WmEvent::WindowsChanged { pid };
            backlog_after(backlog_after(b, s, e, now), s, e, then) == backlog_after(b, s, e, now)
        }),
{
    assert(b.pids.insert(pid).insert(pid) =~= b.pids.insert(pid));
}

/// The windows of an application that ended are not read again.
pub proof fn law_ended_application_is_not_read(b: BacklogView, s: StateView, pid: i32, now: u64)
    ensures
        !backlog_after(b, s, WmEvent::AppTerminated { pid }, now).pids.contains(pid),
{
}

/// A switch since a reveal was put off takes precedence: nothing is brought
/// into view.
pub proof fn law_newer_switch_takes_precedence(pending: Option<Reveal>, epoch: u64, now: u64)
    requires
        pending is Some,
        pending->0.epoch != epoch,
    ensures
        !(reveal_step(pending, epoch, now) matches Some(Some(_))),
{
}

/// A reveal is put off for the debounce time, and not for longer.
pub proof fn law_reveal_comes_in_time(s: StateView, now: u64, allow_unchanged: bool)
    requires
        now + REVEAL_DEBOUNCE <= u64::MAX,
    ensures
        reveal_step(put_off(s, now, allow_unchanged), s.desk.epoch, (now + REVEAL_DEBOUNCE) as u64)
            == Some(Some(allow_unchanged)),
        forall|t: u64|
            t < now + REVEAL_DEBOUNCE ==> #[trigger] reveal_step(
                put_off(s, now, allow_unchanged),
                s.desk.epoch,
                t,
            ) is None,
{
}

/// A hotkey does what its command does over the socket: the state and the
/// actions are the same, but for a mode that is left after one command.
pub proof fn law_hotkeys_do_what_clients_do(
    s: StateView,
    command: Command,
    answer: TreeAnswer,
    permissions: Permissions,
    after: StateView,
    acts: Seq<ActionView>,
)
    ensures
        hotkey_outcome(s, command, answer, permissions, false, after, acts) <==> exists|
            reply: Response,
        | #[trigger]
            dispatched(s, command, answer, permissions, after, reply, acts),
{
    if hotkey_outcome(s, command, answer, permissions, false, after, acts) {
        let (mid, reply) = choose|mid: StateView, reply: Response| #[trigger]
            dispatched(s, command, answer, permissions, mid, reply, acts) && after == left_mode(
                mid,
                false,
            );
        assert(dispatched(s, command, answer, permissions, after, reply, acts));
    }
}

/// Clients that wait for a change are told of a request exactly if it can change
/// something: one that may change the state or have anything done is told of,
/// one that only asks is not.
pub proof fn law_clients_are_told_of_changes(
    s: StateView,
    c: Command,
    a: TreeAnswer,
    p: Permissions,
    after: StateView,
    r: Response,
    acts: Seq<ActionView>,
)
    requires
        dispatched(s, c, a, p, after, r, acts),
    ensures
        request_step(c) is Dispatch && (after != s || acts.len() > 0) ==> request_step(c) == (
        RequestStep::Dispatch { changes: true }),
        c is ListWindows || c is ListWorkspaces || c is ListMonitors || c is CurrentMode || c is Ping
            || c is MenubarStyle || c is Doctor ==> request_step(c) == (RequestStep::Dispatch {
            changes: false,
        }),
        request_step(c) is Shutdown <==> c is Shutdown,
        request_step(c) is Wait <==> c is WaitForChange,
{
    if read_only(c) {
        crate::dispatch::law_read_only_commands_change_nothing(s, c, a, p, after, r, acts);
    }
}

/// Each event has its own effect, and no other one: an application whose windows
/// changed is read again; one that ended is forgotten, and not read; one that
/// was launched is waited for; after the system woke, windows may be missing for
/// longer; and what came to the front is brought into view after a while, unless
/// the same application is still in front.
pub proof fn law_events_have_their_effects(
    b: BacklogView,
    s: StateView,
    event: WmEvent,
    suggestions: Seq<Suggestion>,
    now: u64,
    after: StateView,
    acts: Seq<ActionView>,
    pid: i32,
)
    requires
        state_after(s, event, suggestions, now, after, acts),
    ensures
        ({
            let then = backlog_after(b, s, event, now);
            &&& then.pids.contains(pid) <==> (b.pids.contains(pid) || event == (
            WmEvent::WindowsChanged { pid })) && event != (WmEvent::AppTerminated { pid })
            &&& then.reveal_at != b.reveal_at ==> event is FrontmostAppChanged
            &&& event is FrontmostAppChanged ==> then.reveal_at is Some
                && !then.reveal_at->0.allow_unchanged && then.reveal_at->0.epoch == s.desk.epoch
            &&& event == (WmEvent::AppTerminated { pid }) ==> crate::state::scan::app_removed(
                s,
                pid,
                suggestions,
                after,
                acts,
            )
            &&& event matches WmEvent::AppLaunched { pid: p, bundle_id }
                ==> after.grace.launches.contains_key(p) && after.grace.launches[p] == now
                && after.windows == s.windows && after.placements == s.placements
            &&& event is SystemDidWake && now < u64::MAX ==> crate::grace::waking(after.grace, now)
                && after.windows == s.windows && after.placements == s.placements
            &&& !(event is AppTerminated || event is AppLaunched || event is SystemDidWake)
                ==> after == s
            &&& !(event is AppTerminated) ==> acts.len() == 0
            &&& tells_clients(event) <==> event is WindowsChanged || event is AppTerminated
        }),
{
}

/// A move of the mouse chooses the monitor under the cursor, if the focus is to
/// follow it, and nothing else. While a button is down that is known; once it is
/// up, the focused monitor is laid out, and what is in front is brought into
/// view after a while, even if it is what was in front before.
pub proof fn law_the_mouse_has_its_effects(
    b: BacklogView,
    s: StateView,
    signal: MouseSignal,
    under_cursor: Option<u32>,
    now: u64,
    b_after: BacklogView,
    after: StateView,
    acts: Seq<ActionView>,
    told: bool,
)
    requires
        mouse_handled(b, s, signal, under_cursor, now, b_after, after, acts, told),
    ensures
        after.desk.focused == (if signal is Moved && s.focus_follows_monitor && under_cursor is Some {
            under_cursor->0
        } else {
            s.desk.focused
        }),
        after.desk.active == s.desk.active && after.forest == s.forest && after.placements
            == s.placements && after.windows == s.windows,
        after.mouse_button_down == (if signal is ButtonDown {
            true
        } else if signal is ButtonUp {
            false
        } else {
            s.mouse_button_down
        }),
        acts.contains(ActionView::Relayout(s.desk.focused)) <==> signal is ButtonUp,
        b_after.pids == b.pids,
        signal is ButtonUp ==> b_after.reveal_at is Some && b_after.reveal_at->0.allow_unchanged,
        !(signal is ButtonUp) ==> b_after.reveal_at == b.reveal_at,
        told <==> signal is ButtonDown || signal is ButtonUp,
{
    if signal is ButtonUp {
        assert(acts[0] == ActionView::Relayout(s.desk.focused));
    }
}

/// A key that is bound in the current mode does what its line means, or stops
/// the window manager; any other key does nothing. A mode that is left after one
/// command is left for `main`.
pub proof fn law_hotkeys_do_what_they_are_bound_to(
    s: StateView,
    combo: KeyCombo,
    r: HotkeyStep,
    line: Seq<char>,
    c: Command,
    answer: TreeAnswer,
    permissions: Permissions,
    after: StateView,
    acts: Seq<ActionView>,
)
    requires
        hotkey_told(s, combo, r),
    ensures
        bound_line(s.modes, combo) is None <==> r is Ignore,
        bound_line(s.modes, combo) == Some(line) && r is Shutdown ==> meant(line, Command::Shutdown),
        bound_line(s.modes, combo) == Some(line) && r is Run ==> meant(line, *r->command),
        hotkey_outcome(s, c, answer, permissions, true, after, acts) ==> after.modes.current
            == "main"@,
        r is Run && r->auto_exits ==> exists|i: int|
            0 <= i < s.modes.blocks.len() && (#[trigger] s.modes.blocks[i]).name == s.modes.current
                && s.modes.blocks[i].auto_exit,
        r is Run && !r->auto_exits ==> forall|i: int|
            0 <= i < s.modes.blocks.len() && (#[trigger] s.modes.blocks[i]).name == s.modes.current
                ==> !s.modes.blocks[i].auto_exit,
{
}

/// The backlog once the reveal was looked at, and what to do then.
pub open spec fn reveal_taken(b: BacklogView, epoch: u64, now: u64) -> (
    BacklogView,
    Option<Option<bool>>,
) {
    let r = reveal_step(b.reveal_at, epoch, now);
    (
        BacklogView {
            reveal_at: if r is Some {
                None
            } else {
                b.reveal_at
            },
            ..b
        },
        r,
    )
}

/// The backlog once the applications to be read were taken.
pub open spec fn pids_taken(b: BacklogView) -> BacklogView {
    BacklogView { pids: Set::empty(), ..b }
}

/// What was put off is done once: a reveal stays until it is due, and is gone
/// then, done or not; it is done exactly if no switch came in between. The
/// applications to be read are gone once they were taken.
pub proof fn law_what_was_put_off_is_done_once(b: BacklogView, epoch: u64, now: u64, later_on: u64)
    ensures
        ({
            let (after, r) = reveal_taken(b, epoch, now);
            let due = b.reveal_at is Some && b.reveal_at->0.deadline <= now;
            &&& r is Some <==> due
            &&& due ==> after.reveal_at is None && reveal_taken(after, epoch, later_on).1 is None
            &&& !due ==> after == b
            &&& due && b.reveal_at->0.epoch == epoch ==> r == Some(
                Some(b.reveal_at->0.allow_unchanged),
            )
            &&& due && b.reveal_at->0.epoch != epoch ==> r == Some(None::<bool>)
            &&& after.pids == b.pids
        }),
        forall|pid: i32| !pids_taken(b).pids.contains(pid),
        pids_taken(b).reveal_at == b.reveal_at,
{
}

}
