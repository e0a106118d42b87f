//! The checkup: what is wrong with an installation, and what can be done about
//! it without asking the user what they meant.

use vstd::prelude::*;
use crate::cli::{law_columns_are_filled_with_spaces, left_align, left_aligned, Agent};
use crate::ipc::DoctorReport;
use crate::text::{decimal, decimal_text, lemma_part_of, part_of, texts};

verus! {

/// What a checkup says of one thing.
#[derive(Debug, Clone, Copy, PartialEq, Eq, Structural)]
pub enum Status {
    Fine,
    Wrong,
    /// Nothing can be said yet.
    Open,
}

pub open spec fn status_text(s: Status) -> Seq<char> {
    match s {
        Status::Fine => "ok"@,
        Status::Wrong => "FAIL"@,
        Status::Open => ".."@,
    }
}

fn write_status(s: Status) -> (r: &'static str)
    ensures
        r@ == status_text(s),
{
    match s {
        Status::Fine => "ok",
        Status::Wrong => "FAIL",
        Status::Open => "..",
    }
}

/// One line of the report.
pub open spec fn line(label: Seq<char>, status: Status, detail: Seq<char>) -> Seq<char> {
    left_aligned(label, 20) + " "@ + left_aligned(status_text(status), 5) + " "@ + detail
}

/// Writes one line of the report.
pub fn doctor_line(label: &str, status: Status, detail: &str) -> (r: String)
    ensures
        r@ == line(label@, status, detail@),
{
    let mut out: String = left_align(label, 20);
    out.append(" ");
    out.append(left_align(write_status(status), 5).as_str());
    out.append(" ");
    out.append(detail);
    out
}

/// What can be done about a problem.
#[derive(Debug, Clone, Copy, PartialEq, Eq, Structural)]
pub enum Fix {
    InstallMenubar,
    InstallDaemon,
    ReloadDaemon,
    ReloadMenubar,
    RemoveSocket,
}

pub open spec fn fix_text(f: Fix) -> Seq<char> {
    match f {
        Fix::InstallMenubar => "install the missing menu bar badge LaunchAgent"@,
        Fix::InstallDaemon => "install the missing daemon LaunchAgent"@,
        Fix::ReloadDaemon => "reload the daemon's LaunchAgent"@,
        Fix::ReloadMenubar => "reload the menu bar badge's LaunchAgent"@,
        Fix::RemoveSocket => "remove the stale IPC socket file"@,
    }
}

/// Says what is done about a problem.
pub fn fix_description(f: Fix) -> (r: &'static str)
    ensures
        r@ == fix_text(f),
{
    match f {
        Fix::InstallMenubar => "install the missing menu bar badge LaunchAgent",
        Fix::InstallDaemon => "install the missing daemon LaunchAgent",
        Fix::ReloadDaemon => "reload the daemon's LaunchAgent",
        Fix::ReloadMenubar => "reload the menu bar badge's LaunchAgent",
        Fix::RemoveSocket => "remove the stale IPC socket file",
    }
}

/// What was found of the configuration file.
#[derive(Debug, PartialEq, Eq)]
pub enum ConfigCheck {
    Missing,
    Parses,
    /// It does not parse, and why.
    Broken(String),
}

/// What the daemon answered when asked for its own report.
#[derive(Debug, PartialEq, Eq)]
pub enum Reply {
    Report(DoctorReport),
    Unreadable,
    NoAnswer,
}

/// What was found of an installation. The daemon's reply counts only if it can
/// be reached, and an agent is loaded only if it is installed.
#[derive(Debug, PartialEq, Eq)]
pub struct Findings {
    pub config_path: String,
    pub config: ConfigCheck,
    pub daemon: Agent,
    pub menubar: Agent,
    pub socket_path: String,
    pub socket_exists: bool,
    pub reachable: bool,
    pub reply: Reply,
}

/// A report: its lines, how many problems there are, and what can be done
/// about them.
#[derive(Debug, PartialEq, Eq)]
pub struct Diagnosis {
    pub lines: Vec<String>,
    pub problems: u32,
    pub fixes: Vec<Fix>,
}

/// What a `Diagnosis` holds.
#[verifier::ext_equal]
pub struct DiagnosisView {
    pub lines: Seq<Seq<char>>,
    pub problems: int,
    pub fixes: Seq<Fix>,
}

impl View for Diagnosis {
    type V = DiagnosisView;

    open spec fn view(&self) -> DiagnosisView {
        DiagnosisView { lines: texts(self.lines@), problems: self.problems as int, fixes: self.fixes@ }
    }
}

/// A report with one line more. A line that something is wrong may count as a
/// problem.
pub open spec fn with_line(d: DiagnosisView, l: Seq<char>) -> DiagnosisView {
    DiagnosisView { lines: d.lines.push(l), ..d }
}

pub open spec fn with_problem(d: DiagnosisView) -> DiagnosisView {
    DiagnosisView { problems: d.problems + 1, ..d }
}

pub open spec fn with_fix(d: DiagnosisView, f: Fix) -> DiagnosisView {
    DiagnosisView { fixes: d.fixes.push(f), ..with_problem(d) }
}

/// The report on the configuration file: only the user can mend it.
pub open spec fn config_checked(d: DiagnosisView, path: Seq<char>, c: ConfigCheck) -> DiagnosisView {
    match c {
        ConfigCheck::Missing => with_line(
            d,
            line(
                "config file"@,
                Status::Open,
                path + " doesn't exist yet (tili start writes a starter)"@,
            ),
        ),
        ConfigCheck::Parses => with_line(d, line("config file"@, Status::Fine, path + " parses"@)),
        ConfigCheck::Broken(e) => with_problem(
            with_line(
                d,
                line("config file"@, Status::Wrong, path + " failed to parse: "@ + e@),
            ),
        ),
    }
}

/// The line on a launch agent.
pub open spec fn agent_line(label: Seq<char>, a: Agent) -> Seq<char> {
    if !a.installed {
        line(label, Status::Open, "not installed"@)
    } else if a.loaded {
        line(label, Status::Fine, "installed and loaded"@)
    } else {
        line(label, Status::Wrong, "installed but not loaded"@)
    }
}

/// The report on the daemon and the badge as a pair: neither runs without the
/// other.
pub open spec fn pair_checked(d: DiagnosisView, daemon: Agent, menubar: Agent) -> DiagnosisView {
    if daemon.installed && !menubar.installed {
        with_fix(
            with_line(
                d,
                line(
                    "daemon/menubar pair"@,
                    Status::Wrong,
                    "daemon is installed but the menu bar badge isn't"@,
                ),
            ),
            Fix::InstallMenubar,
        )
    } else if menubar.installed && !daemon.installed {
        with_fix(
            with_line(
                d,
                line(
                    "daemon/menubar pair"@,
                    Status::Wrong,
                    "the menu bar badge is installed but the daemon isn't"@,
                ),
            ),
            Fix::InstallDaemon,
        )
    } else if daemon.installed {
        with_line(d, line("daemon/menubar pair"@, Status::Fine, "both installed"@))
    } else {
        d
    }
}

/// What can be done about an agent that is installed but not loaded.
pub open spec fn reload_checked(d: DiagnosisView, a: Agent, f: Fix) -> DiagnosisView {
    if a.installed && !a.loaded {
        with_fix(d, f)
    } else {
        d
    }
}

/// The report on the socket.
pub open spec fn socket_checked(
    d: DiagnosisView,
    path: Seq<char>,
    there: bool,
    reachable: bool,
) -> DiagnosisView {
    if there && !reachable {
        with_fix(
            with_line(
                d,
                line(
                    "IPC socket"@,
                    Status::Wrong,
                    path + " exists but nothing is listening (stale, from an unclean shutdown)"@,
                ),
            ),
            Fix::RemoveSocket,
        )
    } else if reachable {
        with_line(d, line("IPC socket"@, Status::Fine, "daemon reachable at "@ + path))
    } else {
        with_line(d, line("IPC socket"@, Status::Open, "not present (daemon not running)"@))
    }
}

/// The report on a permission.
pub open spec fn grant_checked(
    d: DiagnosisView,
    label: Seq<char>,
    granted: bool,
    advice: Seq<char>,
) -> DiagnosisView {
    if granted {
        with_line(d, line(label, Status::Fine, "granted"@))
    } else {
        with_problem(with_line(d, line(label, Status::Wrong, advice)))
    }
}

/// The lines of some warnings.
pub open spec fn warning_lines(warnings: Seq<Seq<char>>) -> Seq<Seq<char>> {
    warnings.map_values(|w: Seq<char>| "                            - "@ + w)
}

/// The report on the warnings of the last load of the configuration: each is a
/// problem.
pub open spec fn warnings_checked(d: DiagnosisView, warnings: Seq<Seq<char>>) -> DiagnosisView {
    if warnings.len() == 0 {
        with_line(d, line("config warnings"@, Status::Fine, "none from the last load"@))
    } else {
        DiagnosisView {
            lines: d.lines.push(
                line(
                    "config warnings"@,
                    Status::Wrong,
                    decimal_text(warnings.len()) + " from the last load:"@,
                ),
            ) + warning_lines(warnings),
            problems: d.problems + warnings.len(),
            ..d
        }
    }
}

/// The report on what the daemon says of itself.
pub open spec fn reply_checked(d: DiagnosisView, reachable: bool, reply: Reply) -> DiagnosisView {
    if !reachable {
        with_line(
            d,
            line(
                "permissions"@,
                Status::Open,
                "can't check without a running daemon — run `tili start`"@,
            ),
        )
    } else {
        match reply {
            Reply::Report(report) => warnings_checked(
                grant_checked(
                    grant_checked(
                        d,
                        "accessibility"@,
                        report.accessibility_granted,
                        "not granted — grant it in System Settings > Privacy & Security > Accessibility"@,
                    ),
                    "input monitoring"@,
                    report.input_monitoring_granted,
                    "not granted — grant it in System Settings > Privacy & Security > Input Monitoring"@,
                ),
                texts(report.config_warnings@),
            ),
            Reply::Unreadable => with_line(
                d,
                line("doctor report"@, Status::Open, "couldn't parse the daemon's reply"@),
            ),
            Reply::NoAnswer => with_line(
                d,
                line("doctor report"@, Status::Open, "daemon didn't answer Command::Doctor"@),
            ),
        }
    }
}

/// A report that says nothing yet.
pub open spec fn blank_report() -> DiagnosisView {
    DiagnosisView { lines: Seq::empty(), problems: 0, fixes: Seq::empty() }
}

/// The report on the two launch agents, each and as a pair.
pub open spec fn agents_checked(d: DiagnosisView, daemon: Agent, menubar: Agent) -> DiagnosisView {
    let each = with_line(
        with_line(d, agent_line("daemon LaunchAgent"@, daemon)),
        agent_line("menubar LaunchAgent"@, menubar),
    );
    reload_checked(
        reload_checked(pair_checked(each, daemon, menubar), daemon, Fix::ReloadDaemon),
        menubar,
        Fix::ReloadMenubar,
    )
}

/// The whole report.
pub open spec fn diagnosed(f: Findings) -> DiagnosisView {
    reply_checked(
        socket_checked(
            agents_checked(
                config_checked(blank_report(), f.config_path@, f.config),
                f.daemon,
                f.menubar,
            ),
            f.socket_path@,
            f.socket_exists,
            f.reachable,
        ),
        f.reachable,
        f.reply,
    )
}

impl Diagnosis {
    fn say(&mut self, label: &str, status: Status, detail: &str)
        ensures
            final(self)@ == with_line(old(self)@, line(label@, status, detail@)),
    {
        self.lines.push(doctor_line(label, status, detail));
        assert(texts(self.lines@) =~= texts(old(self).lines@).push(line(label@, status, detail@)));
    }

    fn count(&mut self)
        requires
            old(self).problems < u32::MAX,
        ensures
            final(self)@ == with_problem(old(self)@),
    {
        self.problems = self.problems + 1;
    }

    fn offer(&mut self, f: Fix)
        requires
            old(self).problems < u32::MAX,
        ensures
            final(self)@ == with_fix(old(self)@, f),
    {
        self.problems = self.problems + 1;
        self.fixes.push(f);
    }

    fn check_config(&mut self, path: &str, c: &ConfigCheck)
        requires
            old(self).problems < u32::MAX,
        ensures
            final(self)@ == config_checked(old(self)@, path@, *c),
    {
        let mut detail: String = path.to_owned();
        match c {
            ConfigCheck::Missing => {
                detail.append(" doesn't exist yet (tili start writes a starter)");
                self.say("config file", Status::Open, detail.as_str());
            },
            ConfigCheck::Parses => {
                detail.append(" parses");
                self.say("config file", Status::Fine, detail.as_str());
            },
            ConfigCheck::Broken(e) => {
                detail.append(" failed to parse: ");
                detail.append(e.as_str());
                self.say("config file", Status::Wrong, detail.as_str());
                self.count();
            },
        }
    }

    fn check_pair(&mut self, daemon: Agent, menubar: Agent)
        requires
            old(self).problems < u32::MAX,
        ensures
            final(self)@ == pair_checked(old(self)@, daemon, menubar),
    {
        if daemon.installed && !menubar.installed {
            self.say(
                "daemon/menubar pair",
                Status::Wrong,
                "daemon is installed but the menu bar badge isn't",
            );
            self.offer(Fix::InstallMenubar);
        } else if menubar.installed && !daemon.installed {
            self.say(
                "daemon/menubar pair",
                Status::Wrong,
                "the menu bar badge is installed but the daemon isn't",
            );
            self.offer(Fix::InstallDaemon);
        } else if daemon.installed {
            self.say("daemon/menubar pair", Status::Fine, "both installed");
        }
    }

    fn check_reload(&mut self, a: Agent, f: Fix)
        requires
            old(self).problems < u32::MAX,
        ensures
            final(self)@ == reload_checked(old(self)@, a, f),
    {
        if a.installed && !a.loaded {
            self.offer(f);
        }
    }

    fn report_agent(&mut self, label: &str, a: Agent)
        ensures
            final(self)@ == with_line(old(self)@, agent_line(label@, a)),
    {
        let l: String = doctor_report_launch_agent(label, a.installed, a.loaded);
        self.lines.push(l);
        assert(texts(self.lines@) =~= texts(old(self).lines@).push(l@));
    }

    fn check_agents(&mut self, daemon: Agent, menubar: Agent)
        requires
            old(self).problems <= 1,
        ensures
            final(self)@ == agents_checked(old(self)@, daemon, menubar),
            final(self).problems <= 4,
    {
        self.report_agent("daemon LaunchAgent", daemon);
        self.report_agent("menubar LaunchAgent", menubar);
        self.check_pair(daemon, menubar);
        self.check_reload(daemon, Fix::ReloadDaemon);
        self.check_reload(menubar, Fix::ReloadMenubar);
    }

    fn check_socket(&mut self, path: &str, there: bool, reachable: bool)
        requires
            old(self).problems < u32::MAX,
        ensures
            final(self)@ == socket_checked(old(self)@, path@, there, reachable),
    {
        if there && !reachable {
            let mut detail: String = path.to_owned();
            detail.append(" exists but nothing is listening (stale, from an unclean shutdown)");
            self.say("IPC socket", Status::Wrong, detail.as_str());
            self.offer(Fix::RemoveSocket);
        } else if reachable {
            let mut detail: String = "daemon reachable at ".to_owned();
            detail.append(path);
            self.say("IPC socket", Status::Fine, detail.as_str());
        } else {
            self.say("IPC socket", Status::Open, "not present (daemon not running)");
        }
    }

    fn check_grant(&mut self, label: &str, granted: bool, advice: &str)
        requires
            old(self).problems < u32::MAX,
        ensures
            final(self)@ == grant_checked(old(self)@, label@, granted, advice@),
    {
        if granted {
            self.say(label, Status::Fine, "granted");
        } else {
            self.say(label, Status::Wrong, advice);
            self.count();
        }
    }

    fn check_warnings(&mut self, warnings: &Vec<String>)
        requires
            old(self).problems + warnings@.len() <= u32::MAX,
        ensures
            final(self)@ == warnings_checked(old(self)@, texts(warnings@)),
    {
        let ghost d = self@;
        if warnings.len() == 0 {
            self.say("config warnings", Status::Fine, "none from the last load");
            return;
        }
        let mut detail: String = decimal(warnings.len() as u64);
        detail.append(" from the last load:");
        self.say("config warnings", Status::Wrong, detail.as_str());
        self.problems = self.problems + warnings.len() as u32;
        let ghost head = texts(self.lines@);
        let ghost all = warning_lines(texts(warnings@));
        let ghost problems = self.problems;
        let ghost fixes = self.fixes@;
        let mut i: usize = 0;
        assert(texts(self.lines@) =~= head + all.take(0));
        while i < warnings.len()
            invariant
                i <= warnings.len(),
                all == warning_lines(texts(warnings@)),
                texts(self.lines@) == head + all.take(i as int),
                self.problems == problems,
                self.fixes@ == fixes,
            decreases warnings.len() - i,
        {
            let mut l: String = "                            - ".to_owned();
            l.append(warnings[i].as_str());
            assert(all[i as int] == l@);
            let ghost before = texts(self.lines@);
            self.lines.push(l);
            assert(texts(self.lines@) =~= before.push(all[i as int]));
            assert(texts(self.lines@) =~= head + all.take(i + 1));
            i = i + 1;
        }
        assert(all.take(i as int) =~= all);
    }

    fn check_reply(&mut self, reachable: bool, reply: &Reply)
        requires
            old(self).problems + 2 <= u32::MAX,
            *reply matches Reply::Report(report) ==> old(self).problems + 2
                + report.config_warnings@.len() <= u32::MAX,
        ensures
            final(self)@ == reply_checked(old(self)@, reachable, *reply),
    {
        if !reachable {
            self.say(
                "permissions",
                Status::Open,
                "can't check without a running daemon — run `tili start`",
            );
            return;
        }
        match reply {
            Reply::Report(report) => {
                self.check_grant(
                    "accessibility",
                    report.accessibility_granted,
                    "not granted — grant it in System Settings > Privacy & Security > Accessibility",
                );
                self.check_grant(
                    "input monitoring",
                    report.input_monitoring_granted,
                    "not granted — grant it in System Settings > Privacy & Security > Input Monitoring",
                );
                self.check_warnings(&report.config_warnings);
            },
            Reply::Unreadable => {
                self.say("doctor report", Status::Open, "couldn't parse the daemon's reply");
            },
            Reply::NoAnswer => {
                self.say("doctor report", Status::Open, "daemon didn't answer Command::Doctor");
            },
        }
    }
}

/// Writes the line on a launch agent.
pub fn doctor_report_launch_agent(label: &str, installed: bool, loaded: bool) -> (r: String)
    ensures
        r@ == agent_line(label@, Agent { installed, loaded }),
{
    if !installed {
        doctor_line(label, Status::Open, "not installed")
    } else if loaded {
        doctor_line(label, Status::Fine, "installed and loaded")
    } else {
        doctor_line(label, Status::Wrong, "installed but not loaded")
    }
}

/// How many warnings the daemon reported.
pub open spec fn warning_count(reply: Reply) -> nat {
    match reply {
        Reply::Report(report) => report.config_warnings@.len(),
        _ => 0,
    }
}

/// Reports on an installation.
pub fn doctor(findings: &Findings) -> (r: Diagnosis)
    requires
        warning_count(findings.reply) + 7 <= u32::MAX,
    ensures
        r@ == diagnosed(*findings),
{
    let mut d: Diagnosis = Diagnosis { lines: Vec::new(), problems: 0, fixes: Vec::new() };
    assert(d@ =~= blank_report());
    d.check_config(findings.config_path.as_str(), &findings.config);
    d.check_agents(findings.daemon, findings.menubar);
    d.check_socket(findings.socket_path.as_str(), findings.socket_exists, findings.reachable);
    d.check_reply(findings.reachable, &findings.reply);
    d
}

/// What comes of a report.
#[derive(Debug, PartialEq, Eq)]
pub enum Verdict {
    Healthy(String),
    /// Nothing can be done, and the program ends with an error.
    Unfixable(String),
    /// Something can be done, if the user agrees.
    Fixable(Vec<String>),
}

/// What a `Verdict` holds.
pub enum VerdictView {
    Healthy(Seq<char>),
    Unfixable(Seq<char>),
    Fixable(Seq<Seq<char>>),
}

impl View for Verdict {
    type V = VerdictView;

    open spec fn view(&self) -> VerdictView {
        match *self {
            Verdict::Healthy(s) => VerdictView::Healthy(s@),
            Verdict::Unfixable(s) => VerdictView::Unfixable(s@),
            Verdict::Fixable(v) => VerdictView::Fixable(texts(v@)),
        }
    }
}

/// The lines that list what can be done.
pub open spec fn offer_lines(fixes: Seq<Fix>) -> Seq<Seq<char>> {
    fixes.map_values(|f: Fix| "  - "@ + fix_text(f))
}

/// What comes of a report.
pub open spec fn judged(problems: nat, fixes: Seq<Fix>) -> VerdictView {
    if fixes.len() > 0 {
        VerdictView::Fixable(
            seq![
                "tili doctor: found "@ + decimal_text(problems) + " problem(s), "@ + decimal_text(
                    fixes.len(),
                ) + " auto-fixable:"@,
            ] + offer_lines(fixes),
        )
    } else if problems == 0 {
        VerdictView::Healthy("tili doctor: no problems found."@)
    } else {
        VerdictView::Unfixable(
            "tili doctor: found "@ + decimal_text(problems)
                + " problem(s), none auto-fixable — see above."@,
        )
    }
}

/// Says what comes of a report.
pub fn verdict(diagnosis: &Diagnosis) -> (r: Verdict)
    ensures
        r@ == judged(diagnosis.problems as nat, diagnosis.fixes@),
{
    let problems: String = decimal(diagnosis.problems as u64);
    let mut head: String = "tili doctor: found ".to_owned();
    head.append(problems.as_str());
    if diagnosis.fixes.len() == 0 {
        if diagnosis.problems == 0 {
            return Verdict::Healthy("tili doctor: no problems found.".to_owned());
        }
        head.append(" problem(s), none auto-fixable — see above.");
        return Verdict::Unfixable(head);
    }
    let n: String = decimal(diagnosis.fixes.len() as u64);
    head.append(" problem(s), ");
    head.append(n.as_str());
    head.append(" auto-fixable:");
    let ghost first = head@;
    let ghost all = offer_lines(diagnosis.fixes@);
    let mut out: Vec<String> = Vec::new();
    out.push(head);
    let mut i: usize = 0;
    assert(texts(out@) =~= seq![first] + all.take(0));
    while i < diagnosis.fixes.len()
        invariant
            i <= diagnosis.fixes.len(),
            all == offer_lines(diagnosis.fixes@),
            texts(out@) == seq![first] + all.take(i as int),
        decreases diagnosis.fixes.len() - i,
    {
        let mut l: String = "  - ".to_owned();
        l.append(fix_description(diagnosis.fixes[i]));
        assert(all[i as int] == l@);
        let ghost before = texts(out@);
        out.push(l);
        assert(texts(out@) =~= before.push(all[i as int]));
        assert(texts(out@) =~= seq![first] + all.take(i + 1));
        i = i + 1;
    }
    assert(all.take(i as int) =~= all);
    Verdict::Fixable(out)
}

/// Says whether problems are left once everything that can be done is done.
pub fn problems_remain(diagnosis: &Diagnosis) -> (r: bool)
    ensures
        r == remaining(diagnosis@),
{
    diagnosis.problems as usize > diagnosis.fixes.len()
}

/// Every offer is for a problem of its own: what can be done is never more than
/// what is wrong.
pub proof fn law_every_fix_has_its_problem(f: Findings)
    ensures
        diagnosed(f).fixes.len() <= diagnosed(f).problems,
        diagnosed(f).fixes.no_duplicates(),
{
}

/// A broken configuration file and a missing permission are only reported:
/// problems remain whatever is done.
pub proof fn law_what_only_the_user_can_mend_remains(f: Findings)
    requires
        f.config is Broken || (f.reachable && f.reply is Report && (
        !f.reply->Report_0.accessibility_granted || !f.reply->Report_0.input_monitoring_granted
            || f.reply->Report_0.config_warnings@.len() > 0)),
    ensures
        diagnosed(f).problems > diagnosed(f).fixes.len(),
{
}

/// An installation with nothing wrong is found healthy.
pub proof fn law_healthy_installation_has_no_problems(f: Findings)
    requires
        !(f.config is Broken),
        f.daemon.installed == f.menubar.installed,
        f.daemon.installed ==> f.daemon.loaded && f.menubar.loaded,
        f.socket_exists ==> f.reachable,
        f.reachable && f.reply is Report ==> f.reply->Report_0.accessibility_granted
            && f.reply->Report_0.input_monitoring_granted && f.reply->Report_0.config_warnings@.len()
            == 0,
    ensures
        diagnosed(f).problems == 0,
        diagnosed(f).fixes.len() == 0,
        judged(0, diagnosed(f).fixes) is Healthy,
{
}

/// Problems remain once all is done that can be done.
pub open spec fn remaining(d: DiagnosisView) -> bool {
    d.problems > d.fixes.len()
}

pub open spec fn one_if(b: bool) -> int {
    if b {
        1
    } else {
        0
    }
}

/// Everything that is wrong counts as a problem, and nothing else does: a
/// configuration that does not parse, one agent without the other, each agent
/// that is not loaded, a socket that nobody listens at, each permission that is
/// missing, and each warning.
pub proof fn law_problems_are_counted(f: Findings)
    ensures
        diagnosed(f).problems == one_if(f.config is Broken) + one_if(
            f.daemon.installed != f.menubar.installed,
        ) + one_if(f.daemon.installed && !f.daemon.loaded) + one_if(
            f.menubar.installed && !f.menubar.loaded,
        ) + one_if(f.socket_exists && !f.reachable) + (if f.reachable && f.reply is Report {
            one_if(!f.reply->Report_0.accessibility_granted) + one_if(
                !f.reply->Report_0.input_monitoring_granted,
            ) + f.reply->Report_0.config_warnings@.len()
        } else {
            0
        }),
{
    if let Reply::Report(report) = f.reply {
        assert(texts(report.config_warnings@).len() == report.config_warnings@.len());
    }
}

/// What is offered is what would mend something, and all of that: the agent that
/// is missing is installed, one that is not loaded is loaded again, and a socket
/// that nobody listens at is removed.
pub proof fn law_offers_mend_what_is_wrong(f: Findings)
    ensures
        ({
            let fixes = diagnosed(f).fixes;
            &&& fixes.contains(Fix::InstallMenubar) <==> f.daemon.installed && !f.menubar.installed
            &&& fixes.contains(Fix::InstallDaemon) <==> f.menubar.installed && !f.daemon.installed
            &&& fixes.contains(Fix::ReloadDaemon) <==> f.daemon.installed && !f.daemon.loaded
            &&& fixes.contains(Fix::ReloadMenubar) <==> f.menubar.installed && !f.menubar.loaded
            &&& fixes.contains(Fix::RemoveSocket) <==> f.socket_exists && !f.reachable
        }),
        remaining(diagnosed(f)) <==> f.config is Broken || (f.reachable && f.reply is Report && (
        !f.reply->Report_0.accessibility_granted || !f.reply->Report_0.input_monitoring_granted
            || f.reply->Report_0.config_warnings@.len() > 0)),
{
    law_problems_are_counted(f);
    let fixes = diagnosed(f).fixes;
    assert(fixes.len() <= 4);
    if fixes.len() > 0 {
        assert(fixes.contains(fixes[0]));
    }
    if fixes.len() > 1 {
        assert(fixes.contains(fixes[1]));
    }
    if fixes.len() > 2 {
        assert(fixes.contains(fixes[2]));
    }
    if fixes.len() > 3 {
        assert(fixes.contains(fixes[3]));
    }
}

/// A line of the report has what it is about, what is said of it, and why in
/// it; and it says different things by different words.
pub proof fn law_report_lines_tell_all(label: Seq<char>, status: Status, detail: Seq<char>, other: Status)
    ensures
        part_of(label, line(label, status, detail)),
        part_of(status_text(status), line(label, status, detail)),
        part_of(detail, line(label, status, detail)),
        status_text(status) == status_text(other) ==> status == other,
{
    reveal_strlit("ok");
    reveal_strlit("FAIL");
    reveal_strlit("..");
    assert("ok"@.len() == 2 && "FAIL"@.len() == 4);
    assert("ok"@[0] == 'o' && ".."@[0] == '.' && "FAIL"@[0] == 'F');
    let all = line(label, status, detail);
    let a = left_aligned(label, 20);
    let b = left_aligned(status_text(status), 5);
    law_columns_are_filled_with_spaces(label, 20, 0);
    law_columns_are_filled_with_spaces(status_text(status), 5, 0);
    assert(a =~= label + a.skip(label.len() as int));
    assert(b =~= status_text(status) + b.skip(status_text(status).len() as int));
    lemma_part_of(Seq::empty(), label, all.skip(label.len() as int), all);
    let head = a + " "@;
    lemma_part_of(
        head,
        status_text(status),
        all.skip((head + status_text(status)).len() as int),
        all,
    );
    lemma_part_of(head + b + " "@, detail, Seq::empty(), all);
}

/// A line of the report says that something is wrong, fine or open.
pub open spec fn says(l: Seq<char>, label: Seq<char>, status: Status, about: Seq<char>) -> bool {
    exists|detail: Seq<char>| l == #[trigger] line(label, status, detail) && part_of(about, detail)
}

/// The report begins with the configuration file and the two agents: each is
/// wrong exactly if it does not parse, or is there and not loaded, and fine
/// exactly if it parses, or is loaded.
pub proof fn law_report_begins_with_what_is_installed(f: Findings)
    ensures
        ({
            let l = diagnosed(f).lines;
            let none = Seq::<char>::empty();
            &&& l.len() >= 3
            &&& says(
                l[0],
                "config file"@,
                match f.config {
                    ConfigCheck::Missing => Status::Open,
                    ConfigCheck::Parses => Status::Fine,
                    ConfigCheck::Broken(_) => Status::Wrong,
                },
                f.config_path@,
            )
            &&& f.config matches ConfigCheck::Broken(e) ==> part_of(e@, l[0])
            &&& says(
                l[1],
                "daemon LaunchAgent"@,
                if !f.daemon.installed {
                    Status::Open
                } else if f.daemon.loaded {
                    Status::Fine
                } else {
                    Status::Wrong
                },
                none,
            )
            &&& says(
                l[2],
                "menubar LaunchAgent"@,
                if !f.menubar.installed {
                    Status::Open
                } else if f.menubar.loaded {
                    Status::Fine
                } else {
                    Status::Wrong
                },
                none,
            )
        }),
{
    let l = diagnosed(f).lines;
    let none = Seq::<char>::empty();
    let path = f.config_path@;
    let first = match f.config {
        ConfigCheck::Missing => path + " doesn't exist yet (tili start writes a starter)"@,
        ConfigCheck::Parses => path + " parses"@,
        ConfigCheck::Broken(e) => path + " failed to parse: "@ + e@,
    };
    lemma_part_of(none, path, first.skip(path.len() as int), first);
    let st = match f.config {
        ConfigCheck::Missing => Status::Open,
        ConfigCheck::Parses => Status::Fine,
        ConfigCheck::Broken(_) => Status::Wrong,
    };
    assert(l[0] == line("config file"@, st, first));
    if let ConfigCheck::Broken(e) = f.config {
        let all = l[0];
        let n = all.len() - e@.len();
        assert(all.skip(n) =~= e@);
        lemma_part_of(all.take(n), e@, none, all);
    }
    assert(l[1] == agent_line("daemon LaunchAgent"@, f.daemon));
    assert(l[2] == agent_line("menubar LaunchAgent"@, f.menubar));
    lemma_part_of(none, none, "not installed"@, "not installed"@);
    lemma_part_of(none, none, "installed and loaded"@, "installed and loaded"@);
    lemma_part_of(none, none, "installed but not loaded"@, "installed but not loaded"@);
}

/// Something is offered exactly if something can be done; else the installation
/// is found healthy exactly if there is no problem. An offer lists what would be
/// done, thing by thing, and says how many problems there are.
pub proof fn law_verdict_follows_the_report(problems: nat, fixes: Seq<Fix>, i: int)
    ensures
        judged(problems, fixes) is Fixable <==> fixes.len() > 0,
        judged(problems, fixes) is Healthy <==> fixes.len() == 0 && problems == 0,
        judged(problems, fixes) matches VerdictView::Fixable(v) ==> v.len() == fixes.len() + 1
            && part_of(decimal_text(problems), v[0]) && (0 <= i < fixes.len() ==> part_of(
            fix_text(fixes[i]),
            v[i + 1],
        )),
        judged(problems, fixes) matches VerdictView::Unfixable(t) ==> part_of(
            decimal_text(problems),
            t,
        ),
{
    let n = decimal_text(problems);
    let start = "tili doctor: found "@;
    if let VerdictView::Fixable(v) = judged(problems, fixes) {
        lemma_part_of(start, n, v[0].skip((start + n).len() as int), v[0]);
        if 0 <= i < fixes.len() {
            assert(v[i + 1] == offer_lines(fixes)[i]);
            lemma_part_of("  - "@, fix_text(fixes[i]), Seq::empty(), v[i + 1]);
        }
    }
    if let VerdictView::Unfixable(t) = judged(problems, fixes) {
        lemma_part_of(start, n, t.skip((start + n).len() as int), t);
    }
}

/// Different things that can be done are described by different words, which
/// name the agent that they are about.
pub proof fn law_offers_differ_in_words(a: Fix, b: Fix)
    ensures
        fix_text(a) == fix_text(b) ==> a == b,
{
    reveal_strlit("install the missing menu bar badge LaunchAgent");
    reveal_strlit("install the missing daemon LaunchAgent");
    reveal_strlit("reload the daemon's LaunchAgent");
    reveal_strlit("reload the menu bar badge's LaunchAgent");
    reveal_strlit("remove the stale IPC socket file");
    assert("install the missing menu bar badge LaunchAgent"@.len() == 46);
    assert("install the missing daemon LaunchAgent"@.len() == 38);
    assert("reload the daemon's LaunchAgent"@.len() == 31);
    assert("reload the menu bar badge's LaunchAgent"@.len() == 39);
    assert("remove the stale IPC socket file"@.len() == 32);
}

/// After the agents, and their pair where one is installed, the report tells of
/// the socket, and of each permission and the warnings where the daemon told of
/// them: each is wrong exactly if it is, and every warning has a line.
pub proof fn law_report_goes_on_with_what_runs(f: Findings, i: int)
    ensures
        ({
            let l = diagnosed(f).lines;
            let none = Seq::<char>::empty();
            let at = if f.daemon.installed || f.menubar.installed {
                4int
            } else {
                3int
            };
            &&& l.len() > at
            &&& at == 4 ==> says(
                l[3],
                "daemon/menubar pair"@,
                if f.daemon.installed && f.menubar.installed {
                    Status::Fine
                } else {
                    Status::Wrong
                },
                none,
            )
            &&& says(
                l[at],
                "IPC socket"@,
                if f.reachable {
                    Status::Fine
                } else if f.socket_exists {
                    Status::Wrong
                } else {
                    Status::Open
                },
                if f.reachable || f.socket_exists {
                    f.socket_path@
                } else {
                    none
                },
            )
            &&& f.reachable ==> (f.reply matches Reply::Report(d) ==> {
                &&& l.len() == at + 4 + d.config_warnings@.len()
                &&& says(
                    l[at + 1],
                    "accessibility"@,
                    if d.accessibility_granted {
                        Status::Fine
                    } else {
                        Status::Wrong
                    },
                    none,
                )
                &&& says(
                    l[at + 2],
                    "input monitoring"@,
                    if d.input_monitoring_granted {
                        Status::Fine
                    } else {
                        Status::Wrong
                    },
                    none,
                )
                &&& says(
                    l[at + 3],
                    "config warnings"@,
                    if d.config_warnings@.len() == 0 {
                        Status::Fine
                    } else {
                        Status::Wrong
                    },
                    none,
                )
                &&& 0 <= i < d.config_warnings@.len() ==> part_of(
                    d.config_warnings@[i]@,
                    l[at + 4 + i],
                )
            })
        }),
{
    let l = diagnosed(f).lines;
    let none = Seq::<char>::empty();
    let path = f.socket_path@;
    let at = if f.daemon.installed || f.menubar.installed {
        4int
    } else {
        3int
    };
    assert forall|t: Seq<char>| #[trigger] part_of(none, t) by {
        lemma_part_of(none, none, t, t);
    }
    let a = path + " exists but nothing is listening (stale, from an unclean shutdown)"@;
    lemma_part_of(none, path, " exists but nothing is listening (stale, from an unclean shutdown)"@, a);
    let b = "daemon reachable at "@ + path;
    lemma_part_of("daemon reachable at "@, path, none, b);
    if f.reachable {
        assert(l[at] == line("IPC socket"@, Status::Fine, b));
    } else if f.socket_exists {
        assert(l[at] == line("IPC socket"@, Status::Wrong, a));
    } else {
        assert(l[at] == line("IPC socket"@, Status::Open, "not present (daemon not running)"@));
    }
    if f.daemon.installed && f.menubar.installed {
        assert(l[3] == line("daemon/menubar pair"@, Status::Fine, "both installed"@));
    } else if f.daemon.installed {
        assert(l[3] == line(
            "daemon/menubar pair"@,
            Status::Wrong,
            "daemon is installed but the menu bar badge isn't"@,
        ));
    } else if f.menubar.installed {
        assert(l[3] == line(
            "daemon/menubar pair"@,
            Status::Wrong,
            "the menu bar badge is installed but the daemon isn't"@,
        ));
    }
    if f.reachable {
        if let Reply::Report(d) = f.reply {
            let w = texts(d.config_warnings@);
            assert(w.len() == d.config_warnings@.len());
            if d.accessibility_granted {
                assert(l[at + 1] == line("accessibility"@, Status::Fine, "granted"@));
            } else {
                assert(l[at + 1] == line(
                    "accessibility"@,
                    Status::Wrong,
                    "not granted — grant it in System Settings > Privacy & Security > Accessibility"@,
                ));
            }
            if d.input_monitoring_granted {
                assert(l[at + 2] == line("input monitoring"@, Status::Fine, "granted"@));
            } else {
                assert(l[at + 2] == line(
                    "input monitoring"@,
                    Status::Wrong,
                    "not granted — grant it in System Settings > Privacy & Security > Input Monitoring"@,
                ));
            }
            if w.len() == 0 {
                assert(l[at + 3] == line(
                    "config warnings"@,
                    Status::Fine,
                    "none from the last load"@,
                ));
            } else {
                assert(l[at + 3] == line(
                    "config warnings"@,
                    Status::Wrong,
                    decimal_text(w.len()) + " from the last load:"@,
                ));
                if 0 <= i < w.len() {
                    assert(l[at + 4 + i] == warning_lines(w)[i]);
                    lemma_part_of(
                        "                            - "@,
                        w[i],
                        none,
                        l[at + 4 + i],
                    );
                }
            }
        }
    }
}

}
