//! The command line: what it prints of replies, and how it starts, stops and
//! removes the daemon.

use vstd::prelude::*;
use crate::command::{law_targets_are_read_back, monitor_target_of, target_word};
use crate::ipc::{MonitorInfo, MonitorTarget, Payload, PlacementInfo, Response, WindowInfo, WorkspaceInfo};
use crate::text::{
    decimal, decimal_text, join2, lemma_part_of, opt_text, parse_unsigned, part_of, same_text, texts,
    unsigned_value,
};

verus! {

/// So many spaces.
pub open spec fn spaces(n: nat) -> Seq<char> {
    Seq::new(n, |i: int| ' ')
}

/// A text, made as wide as a column by spaces behind it. A wider text stays as
/// it is.
pub open spec fn left_aligned(s: Seq<char>, width: nat) -> Seq<char> {
    if s.len() < width {
        s + spaces((width - s.len()) as nat)
    } else {
        s
    }
}

/// A text, made as wide as a column by spaces before it.
pub open spec fn right_aligned(s: Seq<char>, width: nat) -> Seq<char> {
    if s.len() < width {
        spaces((width - s.len()) as nat) + s
    } else {
        s
    }
}

fn blank(n: usize) -> (r: String)
    ensures
        r@ == spaces(n as nat),
{
    let mut out: String = String::new();
    let mut i: usize = 0;
    assert(out@ =~= spaces(0));
    while i < n
        invariant
            i <= n,
            out@ == spaces(i as nat),
        decreases n - i,
    {
        out.append(" ");
        proof {
            reveal_strlit(" ");
            assert(out@ =~= spaces((i + 1) as nat));
        }
        i = i + 1;
    }
    out
}

pub fn left_align(s: &str, width: usize) -> (r: String)
    ensures
        r@ == left_aligned(s@, width as nat),
{
    let n: usize = s.unicode_len();
    if n < width {
        let pad: String = blank(width - n);
        join2(s, pad.as_str())
    } else {
        s.to_owned()
    }
}

pub fn right_align(s: &str, width: usize) -> (r: String)
    ensures
        r@ == right_aligned(s@, width as nat),
{
    let n: usize = s.unicode_len();
    if n < width {
        let pad: String = blank(width - n);
        join2(pad.as_str(), s)
    } else {
        s.to_owned()
    }
}

/// A number written in decimal, with a sign before it where it is negative.
pub open spec fn signed_text(n: int) -> Seq<char> {
    if n < 0 {
        "-"@ + decimal_text((-n) as nat)
    } else {
        decimal_text(n as nat)
    }
}

fn signed(n: i32) -> (r: String)
    ensures
        r@ == signed_text(n as int),
{
    if n < 0 {
        let d: String = decimal((-(n as i64)) as u64);
        join2("-", d.as_str())
    } else {
        decimal(n as u64)
    }
}

/// The label of a window's placement.
pub open spec fn label_of(placement: PlacementInfo) -> Seq<char> {
    match placement {
        PlacementInfo::Tiled => "tile "@,
        PlacementInfo::Floating => "float"@,
        PlacementInfo::NativeFullscreen => "fullscr"@,
        PlacementInfo::Minimized => "min  "@,
        PlacementInfo::HiddenApplication => "hidden"@,
        PlacementInfo::Popup => "popup"@,
    }
}

pub fn placement_label(placement: PlacementInfo) -> (r: &'static str)
    ensures
        r@ == label_of(placement),
{
    match placement {
        PlacementInfo::Tiled => "tile ",
        PlacementInfo::Floating => "float",
        PlacementInfo::NativeFullscreen => "fullscr",
        PlacementInfo::Minimized => "min  ",
        PlacementInfo::HiddenApplication => "hidden",
        PlacementInfo::Popup => "popup",
    }
}

/// The monitor that an argument names: an id, `next` or `main`.
pub open spec fn target_named(s: Seq<char>) -> Option<MonitorTarget> {
    if s == "next"@ {
        Some(MonitorTarget::Next)
    } else if s == "main"@ {
        Some(MonitorTarget::Main)
    } else {
        match unsigned_value(s, u32::MAX as nat) {
            Some(n) => Some(MonitorTarget::Id(n as u32)),
            None => None,
        }
    }
}

pub fn parse_monitor_target(s: &str) -> (r: Option<MonitorTarget>)
    ensures
        r == target_named(s@),
{
    if same_text(s, "next") {
        Some(MonitorTarget::Next)
    } else if same_text(s, "main") {
        Some(MonitorTarget::Main)
    } else {
        match parse_unsigned(s, u32::MAX as u64) {
            Some(n) => Some(MonitorTarget::Id(n as u32)),
            None => None,
        }
    }
}

/// The line that tells of a window. `frame` is where it is, in words.
pub open spec fn window_line(w: WindowInfo, frame: Seq<char>) -> Seq<char> {
    right_aligned(decimal_text(w.id as nat), 10) + "  pid="@ + left_aligned(
        signed_text(w.pid as int),
        8,
    ) + " "@ + label_of(w.placement) + " "@ + frame + "  "@ + w.title@
}

fn write_window(w: &WindowInfo, frame: &str) -> (r: String)
    ensures
        r@ == window_line(*w, frame@),
{
    let id: String = decimal(w.id as u64);
    let pid: String = signed(w.pid);
    let mut out: String = right_align(id.as_str(), 10);
    out.append("  pid=");
    out.append(left_align(pid.as_str(), 8).as_str());
    out.append(" ");
    out.append(placement_label(w.placement));
    out.append(" ");
    out.append(frame);
    out.append("  ");
    out.append(w.title.as_str());
    out
}

/// The line that tells of a workspace.
pub open spec fn workspace_line(w: WorkspaceInfo) -> Seq<char> {
    mark(w.active) + " "@ + left_aligned(w.name@, 20) + " "@ + decimal_text(w.window_count as nat)
        + " window(s)  "@ + (match w.monitor {
        Some(id) => "monitor="@ + decimal_text(id as nat),
        None => ""@,
    })
}

/// The mark of what is active or focused.
pub open spec fn mark(on: bool) -> Seq<char> {
    if on {
        "*"@
    } else {
        " "@
    }
}

fn write_mark(on: bool) -> (r: String)
    ensures
        r@ == mark(on),
{
    if on {
        "*".to_owned()
    } else {
        " ".to_owned()
    }
}

fn write_workspace(w: &WorkspaceInfo) -> (r: String)
    ensures
        r@ == workspace_line(*w),
{
    let count: String = decimal(w.window_count as u64);
    let mut out: String = write_mark(w.active);
    out.append(" ");
    out.append(left_align(w.name.as_str(), 20).as_str());
    out.append(" ");
    out.append(count.as_str());
    out.append(" window(s)  ");
    let monitor: String = match w.monitor {
        Some(id) => {
            let d: String = decimal(id as u64);
            join2("monitor=", d.as_str())
        },
        None => "".to_owned(),
    };
    out.append(monitor.as_str());
    out
}

/// The line that tells of a monitor. `frame` is where it is, in words.
pub open spec fn monitor_line(m: MonitorInfo, frame: Seq<char>) -> Seq<char> {
    mark(m.focused) + " "@ + left_aligned(decimal_text(m.id as nat), 10) + " "@ + (if m.is_main {
        "main"@
    } else {
        "    "@
    }) + "  "@ + frame + "  "@ + (match m.active_workspace {
        Some(name) => name@,
        None => "-"@,
    })
}

fn write_monitor(m: &MonitorInfo, frame: &str) -> (r: String)
    ensures
        r@ == monitor_line(*m, frame@),
{
    let id: String = decimal(m.id as u64);
    let mut out: String = write_mark(m.focused);
    out.append(" ");
    out.append(left_align(id.as_str(), 10).as_str());
    out.append(" ");
    out.append(
        if m.is_main {
            "main"
        } else {
            "    "
        },
    );
    out.append("  ");
    out.append(frame);
    out.append("  ");
    match &m.active_workspace {
        Some(name) => {
            out.append(name.as_str());
        },
        None => {
            out.append("-");
        },
    }
    out
}

/// The text at a place of a list, nothing behind its end.
pub open spec fn text_at(v: Seq<Seq<char>>, i: int) -> Seq<char> {
    if 0 <= i < v.len() {
        v[i]
    } else {
        Seq::empty()
    }
}

fn get_text(v: &Vec<String>, i: usize) -> (r: String)
    ensures
        r@ == text_at(texts(v@), i as int),
{
    if i < v.len() {
        assert(texts(v@)[i as int] == v@[i as int]@);
        v[i].as_str().to_owned()
    } else {
        let r: String = String::new();
        assert(r@ =~= Seq::empty());
        r
    }
}

/// What a reply is expected to carry.
#[derive(Debug, Clone, Copy, PartialEq, Eq, Structural)]
pub enum ExpectedPayload {
    Nothing,
    Windows,
    Workspaces,
    Monitors,
}

/// What is printed of a reply.
#[derive(Debug, PartialEq, Eq)]
pub enum Printed {
    Lines(Vec<String>),
    /// An error, with which the program ends.
    Failure(String),
    /// What the reply carries, as it came.
    Payload,
}

/// What a `Printed` holds.
pub enum PrintedView {
    Lines(Seq<Seq<char>>),
    Failure(Seq<char>),
    Payload,
}

impl View for Printed {
    type V = PrintedView;

    open spec fn view(&self) -> PrintedView {
        match *self {
            Printed::Lines(v) => PrintedView::Lines(texts(v@)),
            Printed::Failure(s) => PrintedView::Failure(s@),
            Printed::Payload => PrintedView::Payload,
        }
    }
}

/// The lines that tell of some windows.
pub open spec fn window_lines(ws: Seq<WindowInfo>, frames: Seq<Seq<char>>) -> Seq<Seq<char>> {
    if ws.len() == 0 {
        seq!["no windows found"@]
    } else {
        Seq::new(ws.len(), |i: int| window_line(ws[i], text_at(frames, i)))
    }
}

/// The lines that tell of some monitors.
pub open spec fn monitor_lines(ms: Seq<MonitorInfo>, frames: Seq<Seq<char>>) -> Seq<Seq<char>> {
    if ms.len() == 0 {
        seq!["no monitors found"@]
    } else {
        Seq::new(ms.len(), |i: int| monitor_line(ms[i], text_at(frames, i)))
    }
}

/// The lines that tell of some workspaces.
pub open spec fn workspace_lines(ws: Seq<WorkspaceInfo>) -> Seq<Seq<char>> {
    ws.map_values(|w: WorkspaceInfo| workspace_line(w))
}

/// What is printed of a reply. `frames` are where the windows or monitors are,
/// in words.
pub open spec fn printed(r: Response, expected: ExpectedPayload, frames: Seq<Seq<char>>) -> PrintedView {
    match r {
        Response::Done => PrintedView::Lines(seq!["ok"@]),
        Response::Failed { message } => PrintedView::Failure("tili: "@ + message@),
        Response::OkWithPayload(payload) => match expected {
            ExpectedPayload::Nothing => PrintedView::Payload,
            ExpectedPayload::Windows => match payload {
                Payload::Windows(ws) => PrintedView::Lines(window_lines(ws@, frames)),
                _ => PrintedView::Lines(seq!["(response payload not recognized)"@]),
            },
            ExpectedPayload::Workspaces => match payload {
                Payload::Workspaces(ws) => PrintedView::Lines(workspace_lines(ws@)),
                _ => PrintedView::Lines(seq!["(response payload not recognized)"@]),
            },
            ExpectedPayload::Monitors => match payload {
                Payload::Monitors(ms) => PrintedView::Lines(monitor_lines(ms@, frames)),
                _ => PrintedView::Lines(seq!["(response payload not recognized)"@]),
            },
        },
    }
}

fn one_line(s: &str) -> (r: Vec<String>)
    ensures
        texts(r@) == seq![s@],
{
    let mut v: Vec<String> = Vec::new();
    v.push(s.to_owned());
    assert(texts(v@) =~= seq![s@]);
    v
}

/// Says what is printed of some windows.
pub fn print_windows(ws: &Vec<WindowInfo>, frames: &Vec<String>) -> (r: Vec<String>)
    ensures
        texts(r@) == window_lines(ws@, texts(frames@)),
{
    if ws.len() == 0 {
        return one_line("no windows found");
    }
    let mut out: Vec<String> = Vec::new();
    let mut i: usize = 0;
    while i < ws.len()
        invariant
            i <= ws.len(),
            out@.len() == i,
            forall|j: int|
                0 <= j < i ==> (#[trigger] out@[j])@ == window_line(ws@[j], text_at(texts(frames@), j)),
        decreases ws.len() - i,
    {
        let frame: String = get_text(frames, i);
        let line: String = write_window(&ws[i], frame.as_str());
        out.push(line);
        i = i + 1;
    }
    assert(texts(out@) =~= window_lines(ws@, texts(frames@)));
    out
}

/// Says what is printed of some workspaces.
pub fn print_workspaces(ws: &Vec<WorkspaceInfo>) -> (r: Vec<String>)
    ensures
        texts(r@) == workspace_lines(ws@),
{
    let mut out: Vec<String> = Vec::new();
    let mut i: usize = 0;
    while i < ws.len()
        invariant
            i <= ws.len(),
            out@.len() == i,
            forall|j: int| 0 <= j < i ==> (#[trigger] out@[j])@ == workspace_line(ws@[j]),
        decreases ws.len() - i,
    {
        out.push(write_workspace(&ws[i]));
        i = i + 1;
    }
    assert(texts(out@) =~= ws@.map_values(|w: WorkspaceInfo| workspace_line(w)));
    out
}

/// Says what is printed of some monitors.
pub fn print_monitors(ms: &Vec<MonitorInfo>, frames: &Vec<String>) -> (r: Vec<String>)
    ensures
        texts(r@) == monitor_lines(ms@, texts(frames@)),
{
    if ms.len() == 0 {
        return one_line("no monitors found");
    }
    let mut out: Vec<String> = Vec::new();
    let mut i: usize = 0;
    while i < ms.len()
        invariant
            i <= ms.len(),
            out@.len() == i,
            forall|j: int|
                0 <= j < i ==> (#[trigger] out@[j])@ == monitor_line(ms@[j], text_at(texts(frames@), j)),
        decreases ms.len() - i,
    {
        let frame: String = get_text(frames, i);
        let line: String = write_monitor(&ms[i], frame.as_str());
        out.push(line);
        i = i + 1;
    }
    assert(texts(out@) =~= monitor_lines(ms@, texts(frames@)));
    out
}

/// Says what is printed of a reply.
pub fn print_response(response: &Response, expected: ExpectedPayload, frames: &Vec<String>) -> (r:
    Printed)
    ensures
        r@ == printed(*response, expected, texts(frames@)),
{
    match response {
        Response::Done => Printed::Lines(one_line("ok")),
        Response::Failed { message } => Printed::Failure(join2("tili: ", message.as_str())),
        Response::OkWithPayload(payload) => match expected {
            ExpectedPayload::Nothing => Printed::Payload,
            ExpectedPayload::Windows => match payload {
                Payload::Windows(ws) => Printed::Lines(print_windows(ws, frames)),
                _ => Printed::Lines(one_line("(response payload not recognized)")),
            },
            ExpectedPayload::Workspaces => match payload {
                Payload::Workspaces(ws) => Printed::Lines(print_workspaces(ws)),
                _ => Printed::Lines(one_line("(response payload not recognized)")),
            },
            ExpectedPayload::Monitors => match payload {
                Payload::Monitors(ms) => Printed::Lines(print_monitors(ms, frames)),
                _ => Printed::Lines(one_line("(response payload not recognized)")),
            },
        },
    }
}

/// What asking the daemon for a sign of life gave.
#[derive(Debug, Clone, Copy, PartialEq, Eq, Structural)]
pub enum Ping {
    Answered,
    /// It listens, but did not answer in time.
    TimedOut,
    Failed,
}

/// What is said of the daemon.
pub open spec fn status_of(ping: Ping, socket: Seq<char>) -> Seq<char> {
    match ping {
        Ping::Answered => "tili-daemon is running (socket: "@ + socket + ")"@,
        Ping::TimedOut =>
            "tili-daemon is running but hasn't finished starting yet (likely still waiting on a permission grant) — try again in a moment, or check ~/Library/Logs/tili/daemon.err.log"@,
        Ping::Failed => "tili-daemon is not running"@,
    }
}

/// Says whether the daemon runs.
pub fn print_status(ping: Ping, socket: &str) -> (r: String)
    ensures
        r@ == status_of(ping, socket@),
{
    match ping {
        Ping::Answered => {
            let mut out: String = "tili-daemon is running (socket: ".to_owned();
            out.append(socket);
            out.append(")");
            out
        },
        Ping::TimedOut =>
            "tili-daemon is running but hasn't finished starting yet (likely still waiting on a permission grant) — try again in a moment, or check ~/Library/Logs/tili/daemon.err.log".to_owned(),
        Ping::Failed => "tili-daemon is not running".to_owned(),
    }
}

/// What to do while the daemon starts.
#[derive(Debug, Clone, Copy, PartialEq, Eq, Structural)]
pub enum StartStep {
    /// The user does not want to wait: stop the daemon.
    Interrupted,
    Running,
    /// The daemon stopped itself.
    Stopped,
    WaitOn,
}

/// Says what to do while the daemon starts. What the user wants comes first,
/// and a daemon that can be reached runs, whatever its launch agent is said to
/// do.
pub fn start_step(interrupted: bool, reachable: bool, loaded: bool) -> (r: StartStep)
    ensures
        r == starting(interrupted, reachable, loaded),
{
    if interrupted {
        StartStep::Interrupted
    } else if reachable {
        StartStep::Running
    } else if !loaded {
        StartStep::Stopped
    } else {
        StartStep::WaitOn
    }
}

/// What is known of a launch agent: whether its file is there, and whether it
/// is loaded.
#[derive(Debug, Clone, Copy, PartialEq, Eq, Structural)]
pub struct Agent {
    pub installed: bool,
    pub loaded: bool,
}

/// One step of stopping the daemon and the menu bar badge.
#[derive(Debug, Clone, Copy, PartialEq, Eq, Structural)]
pub enum StopStep {
    UnloadDaemon,
    RemoveDaemon,
    UnloadMenubar,
    RemoveMenubar,
}

/// What stopping a launch agent takes. One can be loaded though its file is
/// gone.
pub open spec fn stopping(agent: Agent, unload: StopStep, remove: StopStep) -> Seq<StopStep> {
    (if agent.loaded {
        seq![unload]
    } else {
        Seq::empty()
    }) + (if agent.installed {
        seq![remove]
    } else {
        Seq::empty()
    })
}

/// What stopping the daemon and the menu bar badge takes.
pub open spec fn stop_steps(daemon: Agent, menubar: Agent) -> Seq<StopStep> {
    stopping(daemon, StopStep::UnloadDaemon, StopStep::RemoveDaemon) + stopping(
        menubar,
        StopStep::UnloadMenubar,
        StopStep::RemoveMenubar,
    )
}

/// Says what stopping the daemon and the menu bar badge takes. Nothing if
/// neither runs.
pub fn stop_daemon(daemon: Agent, menubar: Agent) -> (r: Vec<StopStep>)
    ensures
        r@ == stop_steps(daemon, menubar),
        r@.len() == 0 <==> !daemon.installed && !daemon.loaded && !menubar.installed
            && !menubar.loaded,
{
    let mut out: Vec<StopStep> = Vec::new();
    if daemon.loaded {
        out.push(StopStep::UnloadDaemon);
    }
    if daemon.installed {
        out.push(StopStep::RemoveDaemon);
    }
    if menubar.loaded {
        out.push(StopStep::UnloadMenubar);
    }
    if menubar.installed {
        out.push(StopStep::RemoveMenubar);
    }
    assert(out@ =~= stop_steps(daemon, menubar));
    out
}

/// What a launch agent's file holds: a program that runs from login on, is
/// started again when it ends, and writes two logs.
pub open spec fn plist(label: Seq<char>, binary: Seq<char>, log_dir: Seq<char>, log_name: Seq<char>) -> Seq<
    char,
> {
    "<?xml version=\"1.0\" encoding=\"UTF-8\"?>\n<!DOCTYPE plist PUBLIC \"-//Apple//DTD PLIST 1.0//EN\" \"http://www.apple.com/DTDs/PropertyList-1.0.dtd\">\n<plist version=\"1.0\">\n<dict>\n    <key>Label</key>\n    <string>"@
        + label
        + "</string>\n    <key>ProgramArguments</key>\n    <array>\n        <string>"@ + binary
        + "</string>\n    </array>\n    <key>RunAtLoad</key>\n    <true/>\n    <key>KeepAlive</key>\n    <true/>\n    <key>StandardOutPath</key>\n    <string>"@
        + log_dir + "/"@ + log_name
        + ".log</string>\n    <key>StandardErrorPath</key>\n    <string>"@ + log_dir + "/"@
        + log_name + ".err.log</string>\n</dict>\n</plist>\n"@
}

/// Writes a launch agent's file.
pub fn launch_agent_plist(label: &str, binary: &str, log_dir: &str, log_name: &str) -> (r: String)
    ensures
        r@ == plist(label@, binary@, log_dir@, log_name@),
{
    let mut out: String =
        "<?xml version=\"1.0\" encoding=\"UTF-8\"?>\n<!DOCTYPE plist PUBLIC \"-//Apple//DTD PLIST 1.0//EN\" \"http://www.apple.com/DTDs/PropertyList-1.0.dtd\">\n<plist version=\"1.0\">\n<dict>\n    <key>Label</key>\n    <string>".to_owned();
    out.append(label);
    out.append("</string>\n    <key>ProgramArguments</key>\n    <array>\n        <string>");
    out.append(binary);
    out.append(
        "</string>\n    </array>\n    <key>RunAtLoad</key>\n    <true/>\n    <key>KeepAlive</key>\n    <true/>\n    <key>StandardOutPath</key>\n    <string>",
    );
    out.append(log_dir);
    out.append("/");
    out.append(log_name);
    out.append(".log</string>\n    <key>StandardErrorPath</key>\n    <string>");
    out.append(log_dir);
    out.append("/");
    out.append(log_name);
    out.append(".err.log</string>\n</dict>\n</plist>\n");
    out
}

/// What was found at the configuration file's place.
#[derive(Debug, PartialEq, Eq)]
pub enum ConfigFile {
    Absent,
    /// A symbolic link.
    Link,
    /// A file. Some directory above it may be a symbolic link.
    Plain { linked_dir: Option<String> },
}

/// What is said of a configuration file that is left in place when tili is
/// removed: one that is a link, or below one, is managed by some other tool.
pub open spec fn left_in_place(file: ConfigFile, path: Seq<char>) -> Option<Seq<char>> {
    match file {
        ConfigFile::Absent => None,
        ConfigFile::Link => Some(
            "tili: "@ + path
                + " is a symlink (likely managed by a dotfiles tool) — leaving it in place"@,
        ),
        ConfigFile::Plain { linked_dir } => match linked_dir {
            Some(dir) => Some(
                "tili: "@ + path + " is inside "@ + dir@
                    + ", a symlink (likely managed by a dotfiles tool) — leaving it in place"@,
            ),
            None => None,
        },
    }
}

/// Says what to do with the configuration file when tili is removed: whether to
/// remove it, and what to say if it is left in place.
pub fn uninstall_config(file: &ConfigFile, path: &str) -> (r: (bool, Option<String>))
    ensures
        r.0 == to_be_removed(*file),
        opt_text(r.1) == left_in_place(*file, path@),
{
    match file {
        ConfigFile::Absent => (false, None),
        ConfigFile::Link => {
            let mut out: String = "tili: ".to_owned();
            out.append(path);
            out.append(" is a symlink (likely managed by a dotfiles tool) — leaving it in place");
            (false, Some(out))
        },
        ConfigFile::Plain { linked_dir } => match linked_dir {
            Some(dir) => {
                let mut out: String = "tili: ".to_owned();
                out.append(path);
                out.append(" is inside ");
                out.append(dir.as_str());
                out.append(
                    ", a symlink (likely managed by a dotfiles tool) — leaving it in place",
                );
                (false, Some(out))
            },
            None => (true, None),
        },
    }
}

/// A configuration file that is a link, or below one, is never removed.
pub proof fn law_linked_config_is_kept(file: ConfigFile, path: Seq<char>)
    ensures
        left_in_place(file, path) is Some <==> (file is Link || (file is Plain
            && file->linked_dir is Some)),
{
}

/// Stopping the daemon takes the menu bar badge down with it, whatever is left
/// of either.
pub proof fn law_stop_takes_both_down(daemon: Agent, menubar: Agent)
    ensures
        daemon.loaded <==> stop_steps(daemon, menubar).contains(StopStep::UnloadDaemon),
        daemon.installed <==> stop_steps(daemon, menubar).contains(StopStep::RemoveDaemon),
        menubar.loaded <==> stop_steps(daemon, menubar).contains(StopStep::UnloadMenubar),
        menubar.installed <==> stop_steps(daemon, menubar).contains(StopStep::RemoveMenubar),
{
    let a = stopping(daemon, StopStep::UnloadDaemon, StopStep::RemoveDaemon);
    let b = stopping(menubar, StopStep::UnloadMenubar, StopStep::RemoveMenubar);
    let all = a + b;
    assert(daemon.loaded ==> all[0] == StopStep::UnloadDaemon);
    assert(daemon.installed ==> all[a.len() - 1] == StopStep::RemoveDaemon);
    assert(menubar.loaded ==> all[a.len() as int] == StopStep::UnloadMenubar);
    assert(menubar.installed ==> all[all.len() - 1] == StopStep::RemoveMenubar);
}

/// What comes next while the daemon starts.
pub open spec fn starting(interrupted: bool, reachable: bool, loaded: bool) -> StartStep {
    if interrupted {
        StartStep::Interrupted
    } else if reachable {
        StartStep::Running
    } else if !loaded {
        StartStep::Stopped
    } else {
        StartStep::WaitOn
    }
}

/// The configuration file is removed with tili.
pub open spec fn to_be_removed(file: ConfigFile) -> bool {
    file matches ConfigFile::Plain { linked_dir } && linked_dir is None
}

/// Waiting for the daemon ends when the user interrupts it, when the daemon can
/// be reached, or when it is not loaded any more, and goes on otherwise.
pub proof fn law_waiting_ends_in_time(reachable: bool, loaded: bool)
    ensures
        starting(true, reachable, loaded) is Interrupted,
        starting(false, true, loaded) is Running,
        starting(false, false, false) is Stopped,
        starting(false, false, true) is WaitOn,
{
}

/// A configuration file is removed exactly if it is there and neither a link nor
/// below one; where it is there and stays, that is said, with its path.
pub proof fn law_config_is_removed_or_spoken_of(file: ConfigFile, path: Seq<char>)
    ensures
        to_be_removed(file) <==> file is Plain && file->linked_dir is None,
        to_be_removed(file) || file is Absent <==> left_in_place(file, path) is None,
        left_in_place(file, path) is Some ==> part_of(path, left_in_place(file, path)->0),
        file matches ConfigFile::Plain { linked_dir: Some(dir) } ==> part_of(
            dir@,
            left_in_place(file, path)->0,
        ),
{
    match file {
        ConfigFile::Absent => {},
        ConfigFile::Link => {
            let all = left_in_place(file, path)->0;
            lemma_part_of("tili: "@, path, all.skip(("tili: "@ + path).len() as int), all);
        },
        ConfigFile::Plain { linked_dir } => {
            if let Some(dir) = linked_dir {
                let all = left_in_place(file, path)->0;
                lemma_part_of("tili: "@, path, all.skip(("tili: "@ + path).len() as int), all);
                let head = "tili: "@ + path + " is inside "@;
                lemma_part_of(head, dir@, all.skip((head + dir@).len() as int), all);
            }
        },
    }
}

/// A text in a column is as wide as the column, or as it is where that is wider;
/// it begins, or ends, with the text, and all else is spaces.
pub proof fn law_columns_are_filled_with_spaces(s: Seq<char>, width: nat, i: int)
    ensures
        ({
            let l = left_aligned(s, width);
            let r = right_aligned(s, width);
            let n = if s.len() < width {
                width
            } else {
                s.len()
            };
            &&& l.len() == n && r.len() == n
            &&& l.take(s.len() as int) == s
            &&& r.skip(n - s.len()) == s
            &&& s.len() <= i < n ==> l[i] == ' '
            &&& 0 <= i < n - s.len() ==> r[i] == ' '
        }),
{
    let l = left_aligned(s, width);
    let r = right_aligned(s, width);
    assert(l.take(s.len() as int) =~= s);
    assert(r.skip(r.len() - s.len()) =~= s);
}

/// A number and its opposite are written alike but for the sign.
pub proof fn law_signs_are_written(n: nat)
    ensures
        signed_text(n as int) == decimal_text(n),
        n > 0 ==> signed_text(-n) == seq!['-'] + decimal_text(n),
{
    reveal_strlit("-");
    assert("-"@ =~= seq!['-']);
}

/// Different placements have different labels.
pub proof fn law_labels_tell_placements_apart(a: PlacementInfo, b: PlacementInfo)
    ensures
        label_of(a) == label_of(b) ==> a == b,
        part_of("tile"@, label_of(PlacementInfo::Tiled)),
        part_of("float"@, label_of(PlacementInfo::Floating)),
        part_of("fullscr"@, label_of(PlacementInfo::NativeFullscreen)),
        part_of("min"@, label_of(PlacementInfo::Minimized)),
        part_of("hidden"@, label_of(PlacementInfo::HiddenApplication)),
        part_of("popup"@, label_of(PlacementInfo::Popup)),
{
    reveal_strlit("tile ");
    reveal_strlit("tile");
    reveal_strlit("float");
    reveal_strlit("fullscr");
    reveal_strlit("min  ");
    reveal_strlit("min");
    reveal_strlit("hidden");
    reveal_strlit("popup");
    assert("tile "@.len() == 5 && "float"@.len() == 5 && "min  "@.len() == 5);
    assert("popup"@.len() == 5 && "fullscr"@.len() == 7 && "hidden"@.len() == 6);
    assert("tile "@[0] == 't' && "float"@[0] == 'f' && "min  "@[0] == 'm' && "popup"@[0] == 'p');
    let none = Seq::<char>::empty();
    assert("tile "@ =~= none + "tile"@ + seq![' ']);
    lemma_part_of(none, "tile"@, seq![' '], "tile "@);
    lemma_part_of(none, "float"@, none, "float"@);
    lemma_part_of(none, "fullscr"@, none, "fullscr"@);
    assert("min  "@ =~= none + "min"@ + seq![' ', ' ']);
    lemma_part_of(none, "min"@, seq![' ', ' '], "min  "@);
    lemma_part_of(none, "hidden"@, none, "hidden"@);
    lemma_part_of(none, "popup"@, none, "popup"@);
}

/// A monitor that is written on the command line as in a command is taken for
/// the same.
pub proof fn law_targets_are_named_alike(m: MonitorTarget, s: Seq<char>)
    ensures
        target_named(target_word(m)) == Some(m),
        target_named(s) == monitor_target_of(s),
{
    law_targets_are_read_back(m);
}

/// The line of a window has its id, its application, its label, where it is and
/// its title in it.
pub proof fn law_window_lines_tell_all(w: WindowInfo, frame: Seq<char>)
    ensures
        part_of(decimal_text(w.id as nat), window_line(w, frame)),
        part_of(signed_text(w.pid as int), window_line(w, frame)),
        part_of(label_of(w.placement), window_line(w, frame)),
        part_of(frame, window_line(w, frame)),
        part_of(w.title@, window_line(w, frame)),
{
    let all = window_line(w, frame);
    let id = decimal_text(w.id as nat);
    let pid = signed_text(w.pid as int);
    let a = right_aligned(id, 10);
    let b = left_aligned(pid, 8);
    law_columns_are_filled_with_spaces(id, 10, 0);
    law_columns_are_filled_with_spaces(pid, 8, 0);
    let pad = a.take(a.len() - id.len());
    assert(a =~= pad + id);
    lemma_part_of(pad, id, all.skip(a.len() as int), all);
    let head = a + "  pid="@;
    assert(b =~= pid + b.skip(pid.len() as int));
    lemma_part_of(head, pid, all.skip((head + pid).len() as int), all);
    let head = a + "  pid="@ + b + " "@;
    lemma_part_of(head, label_of(w.placement), all.skip((head + label_of(w.placement)).len() as int), all);
    let head = head + label_of(w.placement) + " "@;
    lemma_part_of(head, frame, all.skip((head + frame).len() as int), all);
    lemma_part_of(head + frame + "  "@, w.title@, Seq::empty(), all);
}

/// The line of a workspace has its name, how many windows it has, and where it
/// is shown in it, and is marked exactly if it is shown.
pub proof fn law_workspace_lines_tell_all(w: WorkspaceInfo)
    ensures
        part_of(w.name@, workspace_line(w)),
        part_of(decimal_text(w.window_count as nat), workspace_line(w)),
        w.monitor is Some ==> part_of(decimal_text(w.monitor->0 as nat), workspace_line(w)),
        workspace_line(w)[0] == (if w.active {
            '*'
        } else {
            ' '
        }),
{
    let all = workspace_line(w);
    reveal_strlit("*");
    reveal_strlit(" ");
    let count = decimal_text(w.window_count as nat);
    let b = left_aligned(w.name@, 20);
    law_columns_are_filled_with_spaces(w.name@, 20, 0);
    assert(b =~= w.name@ + b.skip(w.name@.len() as int));
    let head = mark(w.active) + " "@;
    assert(all[0] == mark(w.active)[0]);
    lemma_part_of(head, w.name@, all.skip((head + w.name@).len() as int), all);
    let head = head + b + " "@;
    lemma_part_of(head, count, all.skip((head + count).len() as int), all);
    if w.monitor is Some {
        let head = head + count + " window(s)  "@ + "monitor="@;
        let id = decimal_text(w.monitor->0 as nat);
        lemma_part_of(head, id, Seq::empty(), all);
    }
}

/// The line of a monitor has its id, where it is and what it shows in it, is
/// marked exactly if it is focused, and says whether it is the main one.
pub proof fn law_monitor_lines_tell_all(m: MonitorInfo, frame: Seq<char>)
    ensures
        part_of(decimal_text(m.id as nat), monitor_line(m, frame)),
        part_of(frame, monitor_line(m, frame)),
        m.active_workspace is Some ==> part_of(m.active_workspace->0@, monitor_line(m, frame)),
        monitor_line(m, frame)[0] == (if m.focused {
            '*'
        } else {
            ' '
        }),
        m.is_main ==> part_of("main"@, monitor_line(m, frame)),
{
    let all = monitor_line(m, frame);
    reveal_strlit("*");
    reveal_strlit(" ");
    let id = decimal_text(m.id as nat);
    let b = left_aligned(id, 10);
    law_columns_are_filled_with_spaces(id, 10, 0);
    assert(b =~= id + b.skip(id.len() as int));
    let head = mark(m.focused) + " "@;
    assert(all[0] == mark(m.focused)[0]);
    lemma_part_of(head, id, all.skip((head + id).len() as int), all);
    let main = if m.is_main {
        "main"@
    } else {
        "    "@
    };
    let head = head + b + " "@;
    lemma_part_of(head, main, all.skip((head + main).len() as int), all);
    let head = head + main + "  "@;
    lemma_part_of(head, frame, all.skip((head + frame).len() as int), all);
    if m.active_workspace is Some {
        lemma_part_of(head + frame + "  "@, m.active_workspace->0@, Seq::empty(), all);
    }
}

/// A reply that something failed is printed as a failure, with its message, and
/// no other reply is.
pub proof fn law_replies_are_printed_for_what_they_are(
    r: Response,
    expected: ExpectedPayload,
    frames: Seq<Seq<char>>,
)
    ensures
        r is Failed <==> printed(r, expected, frames) is Failure,
        r matches Response::Failed { message } ==> (printed(r, expected, frames)
            matches PrintedView::Failure(t) && part_of(message@, t)),
        r is Done ==> printed(r, expected, frames) == PrintedView::Lines(seq!["ok"@]),
        r is OkWithPayload && expected is Nothing ==> printed(r, expected, frames) is Payload,
{
    if let Response::Failed { message } = r {
        lemma_part_of("tili: "@, message@, Seq::empty(), "tili: "@ + message@);
    }
}

/// What is asked for is printed line by line: one for each window, workspace or
/// monitor, in order, each with what it is told by and where it is.
pub proof fn law_lists_are_printed_line_by_line(
    windows: Vec<WindowInfo>,
    workspaces: Vec<WorkspaceInfo>,
    monitors: Vec<MonitorInfo>,
    frames: Seq<Seq<char>>,
    i: int,
)
    requires
        0 <= i < frames.len(),
    ensures
        printed(
            Response::OkWithPayload(Payload::Windows(windows)),
            ExpectedPayload::Windows,
            frames,
        ) matches PrintedView::Lines(v) && (windows@.len() > 0 ==> v.len() == windows@.len()) && (i
            < windows@.len() ==> part_of(windows@[i].title@, v[i]) && part_of(
            decimal_text(windows@[i].id as nat),
            v[i],
        ) && part_of(frames[i], v[i])),
        printed(
            Response::OkWithPayload(Payload::Workspaces(workspaces)),
            ExpectedPayload::Workspaces,
            frames,
        ) matches PrintedView::Lines(v) && v.len() == workspaces@.len() && (i < workspaces@.len()
            ==> part_of(workspaces@[i].name@, v[i])),
        printed(
            Response::OkWithPayload(Payload::Monitors(monitors)),
            ExpectedPayload::Monitors,
            frames,
        ) matches PrintedView::Lines(v) && (monitors@.len() > 0 ==> v.len() == monitors@.len()) && (i
            < monitors@.len() ==> part_of(decimal_text(monitors@[i].id as nat), v[i]) && part_of(
            frames[i],
            v[i],
        )),
{
    if i < windows@.len() {
        law_window_lines_tell_all(windows@[i], frames[i]);
    }
    if i < workspaces@.len() {
        law_workspace_lines_tell_all(workspaces@[i]);
    }
    if i < monitors@.len() {
        law_monitor_lines_tell_all(monitors@[i], frames[i]);
    }
}

/// What is said of the daemon differs by how it answered, and names the socket
/// where it did.
pub proof fn law_status_tells_answers_apart(socket: Seq<char>)
    ensures
        part_of(socket, status_of(Ping::Answered, socket)),
        status_of(Ping::TimedOut, socket) != status_of(Ping::Failed, socket),
        part_of("is not running"@, status_of(Ping::Failed, socket)),
        part_of("is running"@, status_of(Ping::Answered, socket)),
{
    let a = "tili-daemon is running (socket: "@;
    lemma_part_of(a, socket, ")"@, status_of(Ping::Answered, socket));
    reveal_strlit("tili-daemon is not running");
    reveal_strlit(
        "tili-daemon is running but hasn't finished starting yet (likely still waiting on a permission grant) — try again in a moment, or check ~/Library/Logs/tili/daemon.err.log",
    );
    reveal_strlit("tili-daemon is running (socket: ");
    reveal_strlit("tili-daemon ");
    reveal_strlit("is not running");
    reveal_strlit("is running");
    reveal_strlit(" (socket: ");
    assert("tili-daemon is not running"@[15] == 'n');
    assert(status_of(Ping::TimedOut, socket)[15] == 'r');
    assert("tili-daemon is not running"@ =~= "tili-daemon "@ + "is not running"@
        + Seq::<char>::empty());
    lemma_part_of(
        "tili-daemon "@,
        "is not running"@,
        Seq::empty(),
        "tili-daemon is not running"@,
    );
    assert(a =~= "tili-daemon "@ + "is running"@ + " (socket: "@);
    lemma_part_of(
        "tili-daemon "@,
        "is running"@,
        " (socket: "@ + socket + ")"@,
        status_of(Ping::Answered, socket),
    );
}

/// Whatever is left of a launch agent goes: it is unloaded exactly if it is
/// loaded, and its file removed exactly if that is there, after it was unloaded.
pub proof fn law_stopping_takes_down_what_is_left(daemon: Agent, menubar: Agent)
    ensures
        ({
            let steps = stop_steps(daemon, menubar);
            &&& steps.contains(StopStep::UnloadDaemon) <==> daemon.loaded
            &&& steps.contains(StopStep::RemoveDaemon) <==> daemon.installed
            &&& steps.contains(StopStep::UnloadMenubar) <==> menubar.loaded
            &&& steps.contains(StopStep::RemoveMenubar) <==> menubar.installed
            &&& daemon.loaded ==> steps[0] is UnloadDaemon
            &&& menubar.installed ==> steps.last() is RemoveMenubar
        }),
{
    let steps = stop_steps(daemon, menubar);
    if steps.len() > 0 {
        assert(steps.contains(steps[0]));
        assert(steps.contains(steps[steps.len() - 1]));
    }
    if steps.len() > 1 {
        assert(steps.contains(steps[1]));
    }
    if steps.len() > 2 {
        assert(steps.contains(steps[2]));
    }
}

/// A launch agent's file names the agent, its program, and where it writes.
pub proof fn law_launch_agents_name_their_program(
    label: Seq<char>,
    binary: Seq<char>,
    log_dir: Seq<char>,
    log_name: Seq<char>,
)
    ensures
        ({
            let all = plist(label, binary, log_dir, log_name);
            &&& part_of("<key>Label</key>\n    <string>"@ + label + "</string>"@, all)
            &&& part_of("<array>\n        <string>"@ + binary + "</string>"@, all)
            &&& part_of(log_dir + "/"@ + log_name + ".log</string>"@, all)
            &&& part_of(log_dir + "/"@ + log_name + ".err.log</string>"@, all)
        }),
{
    let all = plist(label, binary, log_dir, log_name);
    let p1 = "<?xml version=\"1.0\" encoding=\"UTF-8\"?>\n<!DOCTYPE plist PUBLIC \"-//Apple//DTD PLIST 1.0//EN\" \"http://www.apple.com/DTDs/PropertyList-1.0.dtd\">\n<plist version=\"1.0\">\n<dict>\n    <key>Label</key>\n    <string>"@;
    let p2 = "</string>\n    <key>ProgramArguments</key>\n    <array>\n        <string>"@;
    let p3 = "</string>\n    </array>\n    <key>RunAtLoad</key>\n    <true/>\n    <key>KeepAlive</key>\n    <true/>\n    <key>StandardOutPath</key>\n    <string>"@;
    let p4 = ".log</string>\n    <key>StandardErrorPath</key>\n    <string>"@;
    let p5 = ".err.log</string>\n</dict>\n</plist>\n"@;
    assert(all =~= p1 + label + p2 + binary + p3 + log_dir + "/"@ + log_name + p4 + log_dir + "/"@
        + log_name + p5);
    reveal_strlit("<?xml version=\"1.0\" encoding=\"UTF-8\"?>\n<!DOCTYPE plist PUBLIC \"-//Apple//DTD PLIST 1.0//EN\" \"http://www.apple.com/DTDs/PropertyList-1.0.dtd\">\n<plist version=\"1.0\">\n<dict>\n    <key>Label</key>\n    <string>");
    reveal_strlit("</string>\n    <key>ProgramArguments</key>\n    <array>\n        <string>");
    reveal_strlit("</string>\n    </array>\n    <key>RunAtLoad</key>\n    <true/>\n    <key>KeepAlive</key>\n    <true/>\n    <key>StandardOutPath</key>\n    <string>");
    reveal_strlit(".log</string>\n    <key>StandardErrorPath</key>\n    <string>");
    reveal_strlit(".err.log</string>\n</dict>\n</plist>\n");
    reveal_strlit("<key>Label</key>\n    <string>");
    reveal_strlit("<array>\n        <string>");
    reveal_strlit("</string>");
    reveal_strlit(".log</string>");
    reveal_strlit(".err.log</string>");
    let key = "<key>Label</key>\n    <string>"@;
    let end = "</string>"@;
    let arr = "<array>\n        <string>"@;
    assert(p1.skip(p1.len() - key.len()) =~= key);
    assert(p2.take(end.len() as int) =~= end);
    assert(p2.skip(p2.len() - arr.len()) =~= arr);
    assert(p3.take(end.len() as int) =~= end);
    assert(p4.take(".log</string>"@.len() as int) =~= ".log</string>"@);
    assert(p5.take(".err.log</string>"@.len() as int) =~= ".err.log</string>"@);
    let a = p1.take(p1.len() - key.len());
    lemma_part_of(a, key + label + end, all.skip((a + key + label + end).len() as int), all);
    let a = p1 + label + p2.take(p2.len() - arr.len());
    lemma_part_of(a, arr + binary + end, all.skip((a + arr + binary + end).len() as int), all);
    let a = p1 + label + p2 + binary + p3;
    let out = log_dir + "/"@ + log_name + ".log</string>"@;
    lemma_part_of(a, out, all.skip((a + out).len() as int), all);
    let a = a + log_dir + "/"@ + log_name + p4;
    let out = log_dir + "/"@ + log_name + ".err.log</string>"@;
    lemma_part_of(a, out, all.skip((a + out).len() as int), all);
}

}
