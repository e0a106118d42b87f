//! Parsing of command lines, as written in a keybinding or on a socket.

use vstd::prelude::*;
use crate::ipc::{Command, Direction, LayoutKind, MonitorTarget, OrientationKind, Target};
use crate::text::{
    chars_of, decimal_text, is_blank, is_word, law_decimal_round_trip,
    law_decimal_spells_its_number, law_words_are_told_apart, opt_text, parse_unsigned, same_text,
    spaced, split_words, texts, unsigned_value, words,
};

verus! {

/// The direction that `s` names.
pub open spec fn direction_of(s: Seq<char>) -> Option<Direction> {
    if s == "left"@ {
        Some(Direction::Left)
    } else if s == "right"@ {
        Some(Direction::Right)
    } else if s == "up"@ {
        Some(Direction::Up)
    } else if s == "down"@ {
        Some(Direction::Down)
    } else {
        None
    }
}

/// Reads a direction.
pub fn direction(s: &str) -> (r: Option<Direction>)
    ensures
        r == direction_of(s@),
{
    if same_text(s, "left") {
        Some(Direction::Left)
    } else if same_text(s, "right") {
        Some(Direction::Right)
    } else if same_text(s, "up") {
        Some(Direction::Up)
    } else if same_text(s, "down") {
        Some(Direction::Down)
    } else {
        None
    }
}

/// The monitor that `s` names: `next`, `main`, or a display id.
pub open spec fn monitor_target_of(s: Seq<char>) -> Option<MonitorTarget> {
    if s == "next"@ {
        Some(MonitorTarget::Next)
    } else if s == "main"@ {
        Some(MonitorTarget::Main)
    } else {
        match unsigned_value(s, u32::MAX as nat) {
            Some(id) => Some(MonitorTarget::Id(id as u32)),
            None => None,
        }
    }
}

/// Reads a monitor target.
pub fn monitor_target(s: &str) -> (r: Option<MonitorTarget>)
    ensures
        r == monitor_target_of(s@),
{
    if same_text(s, "next") {
        Some(MonitorTarget::Next)
    } else if same_text(s, "main") {
        Some(MonitorTarget::Main)
    } else {
        match parse_unsigned(s, u32::MAX as u64) {
            Some(id) => Some(MonitorTarget::Id(id as u32)),
            None => None,
        }
    }
}

/// How many decimal digits `s` starts with.
pub open spec fn digits_len(s: Seq<char>) -> nat
    decreases s.len(),
{
    if s.len() > 0 && '0' <= s[0] <= '9' {
        1 + digits_len(s.skip(1))
    } else {
        0
    }
}

/// `s` without the sign it may start with.
pub open spec fn after_sign(s: Seq<char>) -> Seq<char> {
    if s.len() > 0 && (s[0] == '+' || s[0] == '-') {
        s.skip(1)
    } else {
        s
    }
}

/// An empty text, or an exponent: `e`, an optional sign, digits.
pub open spec fn exponent_text(s: Seq<char>) -> bool {
    ||| s.len() == 0
    ||| {
        &&& s[0] == 'e' || s[0] == 'E'
        &&& after_sign(s.skip(1)).len() > 0
        &&& digits_len(after_sign(s.skip(1))) == after_sign(s.skip(1)).len()
    }
}

/// Digits with at most one point among them, and an exponent or none.
pub open spec fn number_text(s: Seq<char>) -> bool {
    let whole = digits_len(s);
    let rest = s.skip(whole as int);
    if rest.len() > 0 && rest[0] == '.' {
        let frac = digits_len(rest.skip(1));
        whole + frac > 0 && exponent_text(rest.skip(1 + frac as int))
    } else {
        whole > 0 && exponent_text(rest)
    }
}

/// Whether `s` is the word `lower`, each letter in lower or upper case.
pub open spec fn same_letters(s: Seq<char>, lower: Seq<char>, upper: Seq<char>) -> bool {
    &&& s.len() == lower.len()
    &&& forall|i: int| 0 <= i < s.len() ==> (#[trigger] s[i] == lower[i] || s[i] == upper[i])
}

/// Whether `s` spells a floating-point number: an optional sign, then a
/// number, or `inf`, `infinity` or `nan` in letters of any case.
pub open spec fn float_text(s: Seq<char>) -> bool {
    let t = after_sign(s);
    ||| number_text(t)
    ||| same_letters(t, "inf"@, "INF"@)
    ||| same_letters(t, "infinity"@, "INFINITY"@)
    ||| same_letters(t, "nan"@, "NAN"@)
}

/// The end of the run of digits of `cs` that starts at `from`.
fn skip_digits(cs: &Vec<char>, from: usize) -> (r: usize)
    requires
        from <= cs.len(),
    ensures
        from <= r <= cs.len(),
        r == from + digits_len(cs@.skip(from as int)),
{
    let mut i: usize = from;
    while i < cs.len() && '0' <= cs[i] && cs[i] <= '9'
        invariant
            from <= i <= cs.len(),
            i - from + digits_len(cs@.skip(i as int)) == digits_len(cs@.skip(from as int)),
        decreases cs.len() - i,
    {
        assert(cs@.skip(i as int).skip(1) =~= cs@.skip(i + 1));
        i = i + 1;
    }
    i
}

fn skip_sign(cs: &Vec<char>, from: usize) -> (r: usize)
    requires
        from <= cs.len(),
    ensures
        from <= r <= cs.len(),
        cs@.skip(r as int) == after_sign(cs@.skip(from as int)),
{
    if from < cs.len() && (cs[from] == '+' || cs[from] == '-') {
        assert(cs@.skip(from as int).skip(1) =~= cs@.skip(from + 1));
        from + 1
    } else {
        from
    }
}

fn is_exponent(cs: &Vec<char>, from: usize) -> (r: bool)
    requires
        from <= cs.len(),
    ensures
        r == exponent_text(cs@.skip(from as int)),
{
    if from == cs.len() {
        return true;
    }
    if cs[from] != 'e' && cs[from] != 'E' {
        return false;
    }
    assert(cs@.skip(from as int).skip(1) =~= cs@.skip(from + 1));
    let start: usize = skip_sign(cs, from + 1);
    let end: usize = skip_digits(cs, start);
    start < cs.len() && end == cs.len()
}

fn is_number(cs: &Vec<char>, from: usize) -> (r: bool)
    requires
        from <= cs.len(),
    ensures
        r == number_text(cs@.skip(from as int)),
{
    let point: usize = skip_digits(cs, from);
    assert(cs@.skip(from as int).skip(point - from) =~= cs@.skip(point as int));
    if point < cs.len() && cs[point] == '.' {
        let end: usize = skip_digits(cs, point + 1);
        assert(cs@.skip(point as int).skip(1) =~= cs@.skip(point + 1));
        assert(cs@.skip(point as int).skip(end - point) =~= cs@.skip(end as int));
        (point > from || end > point + 1) && is_exponent(cs, end)
    } else {
        point > from && is_exponent(cs, point)
    }
}

fn is_letters(cs: &Vec<char>, from: usize, lower: &str, upper: &str) -> (r: bool)
    requires
        from <= cs.len(),
        lower@.len() == upper@.len(),
    ensures
        r == same_letters(cs@.skip(from as int), lower@, upper@),
{
    let lo: Vec<char> = chars_of(lower);
    let up: Vec<char> = chars_of(upper);
    let ghost s = cs@.skip(from as int);
    if cs.len() - from != lo.len() {
        return false;
    }
    let mut i: usize = 0;
    while i < lo.len()
        invariant
            from + lo.len() == cs.len(),
            lo.len() == up.len(),
            lo@ == lower@,
            up@ == upper@,
            s == cs@.skip(from as int),
            i <= lo.len(),
            forall|j: int| 0 <= j < i ==> (#[trigger] s[j] == lower@[j] || s[j] == upper@[j]),
        decreases lo.len() - i,
    {
        assert(s[i as int] == cs@[from + i]);
        if cs[from + i] != lo[i] && cs[from + i] != up[i] {
            return false;
        }
        i = i + 1;
    }
    true
}

/// Whether `s` spells a floating-point number.
pub fn is_float(s: &str) -> (r: bool)
    ensures
        r == float_text(s@),
{
    let cs: Vec<char> = chars_of(s);
    assert(cs@.skip(0) =~= s@);
    proof {
        reveal_strlit("inf");
        reveal_strlit("INF");
        reveal_strlit("infinity");
        reveal_strlit("INFINITY");
        reveal_strlit("nan");
        reveal_strlit("NAN");
    }
    let from: usize = skip_sign(&cs, 0);
    is_number(&cs, from) || is_letters(&cs, from, "inf", "INF") || is_letters(
        &cs,
        from,
        "infinity",
        "INFINITY",
    ) || is_letters(&cs, from, "nan", "NAN")
}

/// The line has one word, `a`.
pub open spec fn line1(t: Seq<Seq<char>>, a: Seq<char>) -> bool {
    t.len() == 1 && t[0] == a
}

/// The line has the two words `a` and `b`.
pub open spec fn line2(t: Seq<Seq<char>>, a: Seq<char>, b: Seq<char>) -> bool {
    t.len() == 2 && t[0] == a && t[1] == b
}

/// The line has the three words `a`, `b` and `c`.
pub open spec fn line3(t: Seq<Seq<char>>, a: Seq<char>, b: Seq<char>, c: Seq<char>) -> bool {
    t.len() == 3 && t[0] == a && t[1] == b && t[2] == c
}

/// The line has `n` words, of which `verb` is the first.
pub open spec fn verb_line(t: Seq<Seq<char>>, verb: Seq<char>, n: nat) -> bool {
    t.len() == n && n > 0 && t[0] == verb
}

/// The command that a line of fixed words stands for.
pub open spec fn fixed_command(t: Seq<Seq<char>>) -> Option<Command> {
    if line1(t, "workspace-back"@) {
        Some(Command::WorkspaceBack)
    } else if line2(t, "layout"@, "toggle"@) {
        Some(Command::LayoutToggle(false))
    } else if line3(t, "layout"@, "toggle"@, "root"@) {
        Some(Command::LayoutToggle(true))
    } else if line2(t, "layout"@, "tiles"@) {
        Some(Command::LayoutSet(LayoutKind::Tiles, false))
    } else if line3(t, "layout"@, "tiles"@, "root"@) {
        Some(Command::LayoutSet(LayoutKind::Tiles, true))
    } else if line2(t, "layout"@, "accordion"@) {
        Some(Command::LayoutSet(LayoutKind::Accordion, false))
    } else if line3(t, "layout"@, "accordion"@, "root"@) {
        Some(Command::LayoutSet(LayoutKind::Accordion, true))
    } else if line2(t, "layout"@, "horizontal"@) {
        Some(Command::OrientationSet(OrientationKind::Horizontal, false))
    } else if line3(t, "layout"@, "horizontal"@, "root"@) {
        Some(Command::OrientationSet(OrientationKind::Horizontal, true))
    } else if line2(t, "layout"@, "vertical"@) {
        Some(Command::OrientationSet(OrientationKind::Vertical, false))
    } else if line3(t, "layout"@, "vertical"@, "root"@) {
        Some(Command::OrientationSet(OrientationKind::Vertical, true))
    } else if line2(t, "layout"@, "toggle-orientation"@) {
        Some(Command::OrientationToggle(false))
    } else if line3(t, "layout"@, "toggle-orientation"@, "root"@) {
        Some(Command::OrientationToggle(true))
    } else if line1(t, "balance"@) {
        Some(Command::BalanceSizes { root: false })
    } else if line2(t, "balance"@, "root"@) {
        Some(Command::BalanceSizes { root: true })
    } else if line1(t, "flatten"@) {
        Some(Command::Flatten)
    } else if line1(t, "fullscreen"@) {
        Some(Command::FullscreenToggle { native: false })
    } else if line2(t, "fullscreen"@, "native"@) {
        Some(Command::FullscreenToggle { native: true })
    } else if line1(t, "close"@) {
        Some(Command::Close)
    } else if line2(t, "set-floating"@, "on"@) {
        Some(Command::SetFloating(true))
    } else if line2(t, "set-floating"@, "off"@) {
        Some(Command::SetFloating(false))
    } else if line2(t, "mode"@, "exit"@) {
        Some(Command::ModeExit)
    } else if line1(t, "list-windows"@) {
        Some(Command::ListWindows)
    } else if line1(t, "list-workspaces"@) {
        Some(Command::ListWorkspaces)
    } else if line1(t, "focus-monitor"@) {
        Some(Command::FocusMonitor)
    } else if line1(t, "list-monitors"@) {
        Some(Command::ListMonitors)
    } else if line1(t, "reload-config"@) {
        Some(Command::ReloadConfig)
    } else if line1(t, "shutdown"@) {
        Some(Command::Shutdown)
    } else if line1(t, "ping"@) {
        Some(Command::Ping)
    } else {
        None
    }
}

/// `c` holds the line `t` unread: its first word, empty where there is none,
/// and the others.
pub open spec fn raw_line(t: Seq<Seq<char>>, c: Command) -> bool {
    match c {
        Command::Raw { verb, args } => if t.len() == 0 {
            verb@ == Seq::<char>::empty() && args@.len() == 0
        } else {
            verb@ == t[0] && texts(args@) == t.skip(1)
        },
        _ => false,
    }
}

/// `c` is what the line `t` means: every line means one command, and a line
/// that no verb claims is kept unread.
pub open spec fn parsed_line(t: Seq<Seq<char>>, c: Command) -> bool {
    if fixed_command(t) is Some {
        c == fixed_command(t)->0
    } else if verb_line(t, "focus"@, 2) {
        match direction_of(t[1]) {
            Some(d) => c == Command::Focus(d),
            None => raw_line(t, c),
        }
    } else if verb_line(t, "move"@, 2) {
        match direction_of(t[1]) {
            Some(d) => c == Command::Move(d),
            None => raw_line(t, c),
        }
    } else if verb_line(t, "join"@, 2) {
        match direction_of(t[1]) {
            Some(d) => c == Command::Join(d),
            None => raw_line(t, c),
        }
    } else if verb_line(t, "workspace"@, 2) {
        c matches Command::WorkspaceSwitch(name) && name@ == t[1]
    } else if verb_line(t, "move-node-to-workspace"@, 2) {
        c matches Command::MoveNodeToWorkspace(name) && name@ == t[1]
    } else if verb_line(t, "move-workspace-to-monitor"@, 2) {
        match monitor_target_of(t[1]) {
            Some(m) => c matches Command::MoveWorkspaceToMonitor { workspace, target } && workspace
                is None && target == m,
            None => raw_line(t, c),
        }
    } else if verb_line(t, "move-workspace-to-monitor"@, 3) {
        match monitor_target_of(t[2]) {
            Some(m) => c matches Command::MoveWorkspaceToMonitor { workspace, target } && workspace
                is Some && workspace->0@ == t[1] && target == m,
            None => raw_line(t, c),
        }
    } else if verb_line(t, "resize"@, 2) {
        if float_text(t[1]) {
            c matches Command::ResizeRatio { amount } && amount@ == t[1]
        } else {
            raw_line(t, c)
        }
    } else if verb_line(t, "summon"@, 2) {
        c matches Command::Summon(name) && name@ == t[1]
    } else if verb_line(t, "mode"@, 2) {
        c matches Command::ModeEnter(name) && name@ == t[1]
    } else {
        raw_line(t, c)
    }
}

fn is_line1(t: &Vec<String>, a: &str) -> (r: bool)
    ensures
        r == line1(texts(t@), a@),
{
    t.len() == 1 && same_text(t[0].as_str(), a)
}

fn is_line2(t: &Vec<String>, a: &str, b: &str) -> (r: bool)
    ensures
        r == line2(texts(t@), a@, b@),
{
    t.len() == 2 && same_text(t[0].as_str(), a) && same_text(t[1].as_str(), b)
}

fn is_line3(t: &Vec<String>, a: &str, b: &str, c: &str) -> (r: bool)
    ensures
        r == line3(texts(t@), a@, b@, c@),
{
    t.len() == 3 && same_text(t[0].as_str(), a) && same_text(t[1].as_str(), b) && same_text(
        t[2].as_str(),
        c,
    )
}

fn is_verb(t: &Vec<String>, verb: &str, n: usize) -> (r: bool)
    requires
        n > 0,
    ensures
        r == verb_line(texts(t@), verb@, n as nat),
{
    t.len() == n && same_text(t[0].as_str(), verb)
}

/// Keeps the line `tokens` unread.
pub fn raw(tokens: &Vec<String>) -> (r: Command)
    ensures
        raw_line(texts(tokens@), r),
{
    if tokens.len() == 0 {
        return Command::Raw { verb: String::new(), args: Vec::new() };
    }
    let verb: String = tokens[0].clone();
    let mut args: Vec<String> = Vec::new();
    let mut i: usize = 1;
    while i < tokens.len()
        invariant
            1 <= i <= tokens.len(),
            args@.len() == i - 1,
            forall|j: int| 0 <= j < args@.len() ==> (#[trigger] args@[j])@ == tokens@[j + 1]@,
        decreases tokens.len() - i,
    {
        args.push(tokens[i].clone());
        i = i + 1;
    }
    assert(texts(args@) =~= texts(tokens@).skip(1));
    Command::Raw { verb, args }
}

fn fixed(t: &Vec<String>) -> (r: Option<Command>)
    ensures
        r == fixed_command(texts(t@)),
{
    if is_line1(t, "workspace-back") {
        Some(Command::WorkspaceBack)
    } else if is_line2(t, "layout", "toggle") {
        Some(Command::LayoutToggle(false))
    } else if is_line3(t, "layout", "toggle", "root") {
        Some(Command::LayoutToggle(true))
    } else if is_line2(t, "layout", "tiles") {
        Some(Command::LayoutSet(LayoutKind::Tiles, false))
    } else if is_line3(t, "layout", "tiles", "root") {
        Some(Command::LayoutSet(LayoutKind::Tiles, true))
    } else if is_line2(t, "layout", "accordion") {
        Some(Command::LayoutSet(LayoutKind::Accordion, false))
    } else if is_line3(t, "layout", "accordion", "root") {
        Some(Command::LayoutSet(LayoutKind::Accordion, true))
    } else if is_line2(t, "layout", "horizontal") {
        Some(Command::OrientationSet(OrientationKind::Horizontal, false))
    } else if is_line3(t, "layout", "horizontal", "root") {
        Some(Command::OrientationSet(OrientationKind::Horizontal, true))
    } else if is_line2(t, "layout", "vertical") {
        Some(Command::OrientationSet(OrientationKind::Vertical, false))
    } else if is_line3(t, "layout", "vertical", "root") {
        Some(Command::OrientationSet(OrientationKind::Vertical, true))
    } else if is_line2(t, "layout", "toggle-orientation") {
        Some(Command::OrientationToggle(false))
    } else if is_line3(t, "layout", "toggle-orientation", "root") {
        Some(Command::OrientationToggle(true))
    } else if is_line1(t, "balance") {
        Some(Command::BalanceSizes { root: false })
    } else if is_line2(t, "balance", "root") {
        Some(Command::BalanceSizes { root: true })
    } else if is_line1(t, "flatten") {
        Some(Command::Flatten)
    } else if is_line1(t, "fullscreen") {
        Some(Command::FullscreenToggle { native: false })
    } else if is_line2(t, "fullscreen", "native") {
        Some(Command::FullscreenToggle { native: true })
    } else if is_line1(t, "close") {
        Some(Command::Close)
    } else if is_line2(t, "set-floating", "on") {
        Some(Command::SetFloating(true))
    } else if is_line2(t, "set-floating", "off") {
        Some(Command::SetFloating(false))
    } else if is_line2(t, "mode", "exit") {
        Some(Command::ModeExit)
    } else if is_line1(t, "list-windows") {
        Some(Command::ListWindows)
    } else if is_line1(t, "list-workspaces") {
        Some(Command::ListWorkspaces)
    } else if is_line1(t, "focus-monitor") {
        Some(Command::FocusMonitor)
    } else if is_line1(t, "list-monitors") {
        Some(Command::ListMonitors)
    } else if is_line1(t, "reload-config") {
        Some(Command::ReloadConfig)
    } else if is_line1(t, "shutdown") {
        Some(Command::Shutdown)
    } else if is_line1(t, "ping") {
        Some(Command::Ping)
    } else {
        None
    }
}

/// Reads a command from its words.
pub fn parse_tokens(tokens: &Vec<String>) -> (r: Command)
    ensures
        parsed_line(texts(tokens@), r),
{
    match fixed(tokens) {
        Some(c) => {
            return c;
        },
        None => {},
    }
    if is_verb(tokens, "focus", 2) {
        match direction(tokens[1].as_str()) {
            Some(d) => Command::Focus(d),
            None => raw(tokens),
        }
    } else if is_verb(tokens, "move", 2) {
        match direction(tokens[1].as_str()) {
            Some(d) => Command::Move(d),
            None => raw(tokens),
        }
    } else if is_verb(tokens, "join", 2) {
        match direction(tokens[1].as_str()) {
            Some(d) => Command::Join(d),
            None => raw(tokens),
        }
    } else if is_verb(tokens, "workspace", 2) {
        Command::WorkspaceSwitch(tokens[1].clone())
    } else if is_verb(tokens, "move-node-to-workspace", 2) {
        Command::MoveNodeToWorkspace(tokens[1].clone())
    } else if is_verb(tokens, "move-workspace-to-monitor", 2) {
        match monitor_target(tokens[1].as_str()) {
            Some(target) => Command::MoveWorkspaceToMonitor { workspace: None, target },
            None => raw(tokens),
        }
    } else if is_verb(tokens, "move-workspace-to-monitor", 3) {
        match monitor_target(tokens[2].as_str()) {
            Some(target) => Command::MoveWorkspaceToMonitor {
                workspace: Some(tokens[1].clone()),
                target,
            },
            None => raw(tokens),
        }
    } else if is_verb(tokens, "resize", 2) {
        if is_float(tokens[1].as_str()) {
            Command::ResizeRatio { amount: tokens[1].clone() }
        } else {
            raw(tokens)
        }
    } else if is_verb(tokens, "summon", 2) {
        Command::Summon(tokens[1].clone())
    } else if is_verb(tokens, "mode", 2) {
        Command::ModeEnter(tokens[1].clone())
    } else {
        raw(tokens)
    }
}

/// The line ends in a flag, by its name in the second but last word.
pub open spec fn ends_in(t: Seq<Seq<char>>, flag: Seq<char>) -> bool {
    t.len() >= 2 && t[t.len() - 2] == flag
}

/// How many words stand before the flags that the line ends in.
pub open spec fn flags_start(t: Seq<Seq<char>>) -> nat
    decreases t.len(),
{
    if ends_in(t, "--window-id"@) || ends_in(t, "--workspace"@) {
        flags_start(t.take(t.len() - 2))
    } else {
        t.len()
    }
}

/// The window that the flags at the line's end name: the last one whose value
/// is a number.
pub open spec fn flag_window(t: Seq<Seq<char>>) -> Option<u32>
    decreases t.len(),
{
    if ends_in(t, "--window-id"@) {
        match unsigned_value(t.last(), u32::MAX as nat) {
            Some(id) => Some(id as u32),
            None => flag_window(t.take(t.len() - 2)),
        }
    } else if ends_in(t, "--workspace"@) {
        flag_window(t.take(t.len() - 2))
    } else {
        None
    }
}

/// The workspace that the flags at the line's end name: the last one.
pub open spec fn flag_workspace(t: Seq<Seq<char>>) -> Option<Seq<char>>
    decreases t.len(),
{
    if ends_in(t, "--window-id"@) {
        flag_workspace(t.take(t.len() - 2))
    } else if ends_in(t, "--workspace"@) {
        Some(t.last())
    } else {
        None
    }
}

/// Takes the target flags off the end of a line. They may stand in either
/// order and repeat: a later one of the same kind wins, and a window id that
/// is no number is dropped.
pub fn strip_target_flags(tokens: Vec<String>) -> (r: (Vec<String>, Target))
    ensures
        texts(r.0@) == texts(tokens@).take(flags_start(texts(tokens@)) as int),
        r.1.window_id == flag_window(texts(tokens@)),
        opt_text(r.1.workspace) == flag_workspace(texts(tokens@)),
{
    let ghost t = texts(tokens@);
    let mut n: usize = tokens.len();
    let mut window_id: Option<u32> = None;
    let mut workspace: Option<String> = None;
    assert(t.take(n as int) =~= t);
    loop
        invariant
            n <= tokens.len(),
            t == texts(tokens@),
            flags_start(t) == flags_start(t.take(n as int)),
            flag_window(t) == (if window_id is Some { window_id } else { flag_window(t.take(n as int)) }),
            flag_workspace(t) == (if workspace is Some { opt_text(workspace) } else {
                flag_workspace(t.take(n as int))
            }),
        ensures
            flags_start(t) == n,
            n <= tokens.len(),
            window_id == flag_window(t),
            opt_text(workspace) == flag_workspace(t),
        decreases n,
    {
        if n < 2 {
            break;
        }
        let ghost head = t.take(n as int);
        proof {
            assert(head.take(n - 2) =~= t.take(n - 2));
            assert(head[n - 2] == tokens@[n - 2]@);
            assert(head.last() == tokens@[n - 1]@);
        }
        if same_text(tokens[n - 2].as_str(), "--window-id") {
            match parse_unsigned(tokens[n - 1].as_str(), u32::MAX as u64) {
                Some(id) => {
                    if window_id.is_none() {
                        window_id = Some(id as u32);
                    }
                },
                None => {},
            }
        } else if same_text(tokens[n - 2].as_str(), "--workspace") {
            if workspace.is_none() {
                workspace = Some(tokens[n - 1].clone());
            }
        } else {
            break;
        }
        n = n - 2;
    }
    let mut kept: Vec<String> = tokens;
    kept.truncate(n);
    assert(texts(kept@) =~= t.take(n as int));
    (kept, Target { window_id, workspace })
}

/// Reads a command line and the target that it is directed at.
pub fn parse_with_target(command: &str) -> (r: (Command, Target))
    ensures
        parsed_line(words(command@).take(flags_start(words(command@)) as int), r.0),
        r.1.window_id == flag_window(words(command@)),
        opt_text(r.1.workspace) == flag_workspace(words(command@)),
{
    let tokens: Vec<String> = split_words(command);
    let (tokens, target) = strip_target_flags(tokens);
    (parse_tokens(&tokens), target)
}

/// Reads a command line, dropping the target that it may be directed at.
/// Nothing is refused: a line that no verb claims is kept unread.
pub fn parse(command: &str) -> (r: Command)
    ensures
        parsed_line(words(command@).take(flags_start(words(command@)) as int), r),
{
    parse_with_target(command).0
}

/// A line that is kept unread loses no word: its words can be put back
/// together from the command.
pub proof fn law_raw_keeps_every_word(t: Seq<Seq<char>>, c: Command)
    requires
        raw_line(t, c),
        t.len() > 0,
    ensures
        c matches Command::Raw { verb, args } && seq![verb@] + texts(args@) == t,
{
    match c {
        Command::Raw { verb, args } => {
            assert(seq![verb@] + texts(args@) =~= t);
        },
        _ => {},
    }
}

/// A flag at the end of a line leaves the command before it as it was.
pub proof fn law_flags_do_not_change_the_command(t: Seq<Seq<char>>, flag: Seq<char>, value: Seq<char>)
    requires
        flag == "--window-id"@ || flag == "--workspace"@,
    ensures
        flags_start(t.push(flag).push(value)) == flags_start(t),
        t.push(flag).push(value).take(flags_start(t) as int) == t.take(flags_start(t) as int),
{
    let u = t.push(flag).push(value);
    assert(u.take(u.len() - 2) =~= t);
    lemma_flags_start(t);
    assert(u.take(flags_start(t) as int) =~= t.take(flags_start(t) as int));
}

proof fn lemma_flags_start(t: Seq<Seq<char>>)
    ensures
        flags_start(t) <= t.len(),
    decreases t.len(),
{
    if ends_in(t, "--window-id"@) || ends_in(t, "--workspace"@) {
        lemma_flags_start(t.take(t.len() - 2));
    }
}

/// Of two flags of one kind the later one wins.
pub proof fn law_later_flag_wins(t: Seq<Seq<char>>, name: Seq<char>, id: Seq<char>)
    requires
        unsigned_value(id, u32::MAX as nat) is Some,
    ensures
        flag_workspace(t.push("--workspace"@).push(name)) == Some(name),
        flag_window(t.push("--window-id"@).push(id)) == Some(
            unsigned_value(id, u32::MAX as nat)->0 as u32,
        ),
{
    lemma_flag_names_differ();
    let u = t.push("--workspace"@).push(name);
    assert(u[u.len() - 2] == "--workspace"@);
    let w = t.push("--window-id"@).push(id);
    assert(w[w.len() - 2] == "--window-id"@);
}

proof fn lemma_flag_names_differ()
    ensures
        "--window-id"@ != "--workspace"@,
{
    reveal_strlit("--window-id");
    reveal_strlit("--workspace");
    assert("--window-id"@[3] == 'i');
    assert("--workspace"@[3] == 'o');
}

/// The two kinds of flag may stand in either order.
pub proof fn law_flag_order_does_not_matter(t: Seq<Seq<char>>, id: Seq<char>, name: Seq<char>)
    ensures
        ({
            let u = t.push("--window-id"@).push(id).push("--workspace"@).push(name);
            let w = t.push("--workspace"@).push(name).push("--window-id"@).push(id);
            &&& flags_start(u) == flags_start(w)
            &&& flag_window(u) == flag_window(w)
            &&& flag_workspace(u) == flag_workspace(w)
        }),
{
    lemma_flag_names_differ();
    let t1 = t.push("--window-id"@).push(id);
    let t2 = t.push("--workspace"@).push(name);
    let u = t1.push("--workspace"@).push(name);
    let w = t2.push("--window-id"@).push(id);
    assert(u.take(u.len() - 2) =~= t1);
    assert(w.take(w.len() - 2) =~= t2);
    assert(t1.take(t1.len() - 2) =~= t);
    assert(t2.take(t2.len() - 2) =~= t);
    assert(u[u.len() - 2] == "--workspace"@);
    assert(w[w.len() - 2] == "--window-id"@);
    assert(t1[t1.len() - 2] == "--window-id"@);
    assert(t2[t2.len() - 2] == "--workspace"@);
    assert(flags_start(u) == flags_start(t1) && flags_start(t1) == flags_start(t));
    assert(flags_start(w) == flags_start(t2) && flags_start(t2) == flags_start(t));
    assert(flag_window(u) == flag_window(t1));
    assert(flag_window(t2) == flag_window(t));
    assert(flag_workspace(w) == flag_workspace(t2));
    assert(t1.last() == id && w.last() == id && t2.last() == name && u.last() == name);
}

/// The word that a direction is written as.
pub open spec fn direction_word(d: Direction) -> Seq<char> {
    match d {
        Direction::Left => "left"@,
        Direction::Right => "right"@,
        Direction::Up => "up"@,
        Direction::Down => "down"@,
    }
}

/// A direction that is written as its word is read as itself, and no other word
/// is read as a direction.
pub proof fn law_directions_are_read_back(d: Direction, s: Seq<char>)
    ensures
        direction_of(direction_word(d)) == Some(d),
        direction_of(s) == Some(d) ==> s == direction_word(d),
{
    reveal_strlit("left");
    reveal_strlit("right");
    reveal_strlit("up");
    reveal_strlit("down");
    assert("left"@[0] == 'l');
    assert("right"@[0] == 'r');
    assert("up"@[0] == 'u');
    assert("down"@[0] == 'd');
}

/// The word that a monitor is written as.
pub open spec fn target_word(m: MonitorTarget) -> Seq<char> {
    match m {
        MonitorTarget::Next => "next"@,
        MonitorTarget::Main => "main"@,
        MonitorTarget::Id(id) => decimal_text(id as nat),
    }
}

/// A monitor that is written as its word is read as itself.
pub proof fn law_targets_are_read_back(m: MonitorTarget)
    ensures
        monitor_target_of(target_word(m)) == Some(m),
{
    reveal_strlit("next");
    reveal_strlit("main");
    if let MonitorTarget::Id(id) = m {
        law_decimal_round_trip(id as nat, u32::MAX as nat);
        law_decimal_spells_its_number(id as nat);
        assert("next"@[0] == 'n');
        assert("main"@[0] == 'm');
    }
}

/// The words of a command on a container, with the flag for the root one.
pub open spec fn container_words(verb: Seq<char>, what: Seq<char>, root: bool) -> Seq<Seq<char>> {
    if root {
        seq![verb, what, "root"@]
    } else {
        seq![verb, what]
    }
}

/// The words that a command is written as. Some commands are never written.
pub open spec fn spelled(c: Command) -> Option<Seq<Seq<char>>> {
    match c {
        Command::Focus(d) => Some(seq!["focus"@, direction_word(d)]),
        Command::Move(d) => Some(seq!["move"@, direction_word(d)]),
        Command::Join(d) => Some(seq!["join"@, direction_word(d)]),
        Command::WorkspaceSwitch(name) => Some(seq!["workspace"@, name@]),
        Command::MoveNodeToWorkspace(name) => Some(seq!["move-node-to-workspace"@, name@]),
        Command::LayoutSet(LayoutKind::Tiles, root) => Some(
            container_words("layout"@, "tiles"@, root),
        ),
        Command::LayoutSet(LayoutKind::Accordion, root) => Some(
            container_words("layout"@, "accordion"@, root),
        ),
        Command::LayoutToggle(root) => Some(container_words("layout"@, "toggle"@, root)),
        Command::OrientationSet(OrientationKind::Horizontal, root) => Some(
            container_words("layout"@, "horizontal"@, root),
        ),
        Command::OrientationSet(OrientationKind::Vertical, root) => Some(
            container_words("layout"@, "vertical"@, root),
        ),
        Command::OrientationToggle(root) => Some(
            container_words("layout"@, "toggle-orientation"@, root),
        ),
        Command::ResizeRatio { amount } => if float_text(amount@) {
            Some(seq!["resize"@, amount@])
        } else {
            None
        },
        Command::ModeEnter(name) => if name@ != "exit"@ {
            Some(seq!["mode"@, name@])
        } else {
            None
        },
        Command::ModeExit => Some(seq!["mode"@, "exit"@]),
        Command::ListWindows => Some(seq!["list-windows"@]),
        Command::ListWorkspaces => Some(seq!["list-workspaces"@]),
        Command::BalanceSizes { root } => Some(
            if root {
                seq!["balance"@, "root"@]
            } else {
                seq!["balance"@]
            },
        ),
        Command::Flatten => Some(seq!["flatten"@]),
        Command::FullscreenToggle { native } => Some(
            if native {
                seq!["fullscreen"@, "native"@]
            } else {
                seq!["fullscreen"@]
            },
        ),
        Command::Close => Some(seq!["close"@]),
        Command::Summon(query) => Some(seq!["summon"@, query@]),
        Command::MoveWorkspaceToMonitor { workspace: None, target } => Some(
            seq!["move-workspace-to-monitor"@, target_word(target)],
        ),
        Command::MoveWorkspaceToMonitor { workspace: Some(name), target } => Some(
            seq!["move-workspace-to-monitor"@, name@, target_word(target)],
        ),
        Command::WorkspaceBack => Some(seq!["workspace-back"@]),
        Command::SetFloating(on) => Some(
            seq![
                "set-floating"@,
                if on {
                    "on"@
                } else {
                    "off"@
                },
            ],
        ),
        Command::FocusMonitor => Some(seq!["focus-monitor"@]),
        Command::ListMonitors => Some(seq!["list-monitors"@]),
        Command::ReloadConfig => Some(seq!["reload-config"@]),
        Command::Shutdown => Some(seq!["shutdown"@]),
        Command::Ping => Some(seq!["ping"@]),
        Command::CurrentMode
        | Command::MenubarStyle
        | Command::Doctor
        | Command::WaitForChange
        | Command::Raw { .. } => None,
    }
}

/// Two commands are the same, texts taken by what they hold.
pub open spec fn same_command(c: Command, d: Command) -> bool {
    match c {
        Command::WorkspaceSwitch(a) => d matches Command::WorkspaceSwitch(b) && a@ == b@,
        Command::MoveNodeToWorkspace(a) => d matches Command::MoveNodeToWorkspace(b) && a@ == b@,
        Command::ResizeRatio { amount: a } => d matches Command::ResizeRatio { amount: b } && a@
            == b@,
        Command::ModeEnter(a) => d matches Command::ModeEnter(b) && a@ == b@,
        Command::Summon(a) => d matches Command::Summon(b) && a@ == b@,
        Command::MoveWorkspaceToMonitor { workspace: a, target: m } => d
            matches Command::MoveWorkspaceToMonitor { workspace: b, target: n } && m == n
            && opt_text(a) == opt_text(b),
        Command::Raw { verb: a, args: x } => d matches Command::Raw { verb: b, args: y } && a@ == b@
            && texts(x@) == texts(y@),
        _ => c == d,
    }
}

/// Every command that can be written is read back from its words as itself.
#[verifier::rlimit(60)]
#[verifier::spinoff_prover]
pub proof fn law_commands_are_read_back(c: Command, d: Command)
    requires
        spelled(c) is Some,
        parsed_line(spelled(c)->0, d),
    ensures
        same_command(c, d),
{
    reveal_strlit("focus");
    reveal_strlit("move");
    reveal_strlit("join");
    reveal_strlit("workspace");
    reveal_strlit("move-node-to-workspace");
    reveal_strlit("layout");
    reveal_strlit("tiles");
    reveal_strlit("accordion");
    reveal_strlit("toggle");
    reveal_strlit("horizontal");
    reveal_strlit("vertical");
    reveal_strlit("toggle-orientation");
    reveal_strlit("root");
    reveal_strlit("resize");
    reveal_strlit("exit");
    reveal_strlit("mode");
    reveal_strlit("list-windows");
    reveal_strlit("list-workspaces");
    reveal_strlit("balance");
    reveal_strlit("flatten");
    reveal_strlit("fullscreen");
    reveal_strlit("native");
    reveal_strlit("close");
    reveal_strlit("summon");
    reveal_strlit("move-workspace-to-monitor");
    reveal_strlit("workspace-back");
    reveal_strlit("set-floating");
    reveal_strlit("on");
    reveal_strlit("off");
    reveal_strlit("focus-monitor");
    reveal_strlit("list-monitors");
    reveal_strlit("reload-config");
    reveal_strlit("shutdown");
    reveal_strlit("ping");
    assert("focus"@.len() == 5 && "focus"@[0] == 'f');
    assert("move"@.len() == 4 && "move"@[0] == 'm');
    assert("join"@.len() == 4 && "join"@[0] == 'j');
    assert("workspace"@.len() == 9 && "workspace"@[0] == 'w');
    assert("move-node-to-workspace"@.len() == 22 && "move-node-to-workspace"@[0] == 'm');
    assert("layout"@.len() == 6 && "layout"@[0] == 'l');
    assert("tiles"@.len() == 5 && "tiles"@[0] == 't');
    assert("accordion"@.len() == 9 && "accordion"@[0] == 'a');
    assert("toggle"@.len() == 6 && "toggle"@[0] == 't');
    assert("horizontal"@.len() == 10 && "horizontal"@[0] == 'h');
    assert("vertical"@.len() == 8 && "vertical"@[0] == 'v');
    assert("toggle-orientation"@.len() == 18 && "toggle-orientation"@[0] == 't');
    assert("root"@.len() == 4 && "root"@[0] == 'r');
    assert("resize"@.len() == 6 && "resize"@[0] == 'r');
    assert("exit"@.len() == 4 && "exit"@[0] == 'e');
    assert("mode"@.len() == 4 && "mode"@[0] == 'm');
    assert("list-windows"@.len() == 12 && "list-windows"@[0] == 'l');
    assert("list-workspaces"@.len() == 15 && "list-workspaces"@[0] == 'l');
    assert("balance"@.len() == 7 && "balance"@[0] == 'b');
    assert("flatten"@.len() == 7 && "flatten"@[0] == 'f');
    assert("fullscreen"@.len() == 10 && "fullscreen"@[0] == 'f');
    assert("native"@.len() == 6 && "native"@[0] == 'n');
    assert("close"@.len() == 5 && "close"@[0] == 'c');
    assert("summon"@.len() == 6 && "summon"@[0] == 's');
    assert("move-workspace-to-monitor"@.len() == 25 && "move-workspace-to-monitor"@[0] == 'm');
    assert("workspace-back"@.len() == 14 && "workspace-back"@[0] == 'w');
    assert("set-floating"@.len() == 12 && "set-floating"@[0] == 's');
    assert("on"@.len() == 2 && "on"@[0] == 'o');
    assert("off"@.len() == 3 && "off"@[0] == 'o');
    assert("focus-monitor"@.len() == 13 && "focus-monitor"@[0] == 'f');
    assert("list-monitors"@.len() == 13 && "list-monitors"@[0] == 'l');
    assert("reload-config"@.len() == 13 && "reload-config"@[0] == 'r');
    assert("shutdown"@.len() == 8 && "shutdown"@[0] == 's');
    assert("ping"@.len() == 4 && "ping"@[0] == 'p');
    assert("move"@[2] == 'v');
    assert("mode"@[2] == 'd');
    match c {
        Command::Focus(x) | Command::Move(x) | Command::Join(x) => {
            law_directions_are_read_back(x, Seq::empty());
        },
        Command::MoveWorkspaceToMonitor { workspace, target } => {
            law_targets_are_read_back(target);
        },
        _ => {},
    }
}

/// What a line is read as is written as that line, but for a display id, which
/// may have leading zeros or a sign: nothing else than the words of a command is
/// taken for it.
#[verifier::rlimit(60)]
#[verifier::spinoff_prover]
pub proof fn law_only_its_words_are_a_command(t: Seq<Seq<char>>, d: Command)
    requires
        parsed_line(t, d),
        !(d is Raw),
        !(d is MoveWorkspaceToMonitor),
    ensures
        spelled(d) is Some,
        spelled(d)->0 =~= t,
{
    reveal_strlit("exit");
    if t.len() == 2 && direction_of(t[1]) is Some {
        law_directions_are_read_back(direction_of(t[1])->0, t[1]);
    }
}


/// A line that a command is written as is read as that command, however its
/// words are spaced.
pub proof fn law_written_lines_are_read(
    c: Command,
    d: Command,
    spaces: Seq<Seq<char>>,
    line: Seq<char>,
)
    requires
        spelled(c) is Some,
        spaces.len() == spelled(c)->0.len() + 1,
        forall|i: int| 0 <= i < spelled(c)->0.len() ==> is_word(#[trigger] spelled(c)->0[i]),
        forall|i: int| 0 <= i < spaces.len() ==> is_blank(#[trigger] spaces[i]),
        forall|i: int| 0 < i < spelled(c)->0.len() ==> (#[trigger] spaces[i]).len() > 0,
        c matches Command::MoveWorkspaceToMonitor { workspace: Some(name), .. } ==> name@
            != "--workspace"@ && name@ != "--window-id"@,
        line == spaced(spaces, spelled(c)->0),
        parsed_line(words(line).take(flags_start(words(line)) as int), d),
    ensures
        same_command(c, d),
{
    let t = spelled(c)->0;
    law_words_are_told_apart(spaces, t);
    reveal_strlit("--workspace");
    reveal_strlit("--window-id");
    assert("--workspace"@[0] == '-' && "--workspace"@.len() == 11);
    assert("--window-id"@[0] == '-' && "--window-id"@.len() == 11);
    reveal_strlit("focus");
    assert("focus"@.len() == 5);
    reveal_strlit("move");
    assert("move"@.len() == 4);
    reveal_strlit("join");
    assert("join"@.len() == 4);
    reveal_strlit("workspace");
    assert("workspace"@.len() == 9);
    reveal_strlit("move-node-to-workspace");
    assert("move-node-to-workspace"@.len() == 22);
    reveal_strlit("layout");
    assert("layout"@.len() == 6);
    reveal_strlit("resize");
    assert("resize"@.len() == 6);
    reveal_strlit("mode");
    assert("mode"@.len() == 4);
    reveal_strlit("balance");
    assert("balance"@.len() == 7);
    reveal_strlit("fullscreen");
    assert("fullscreen"@.len() == 10);
    reveal_strlit("summon");
    assert("summon"@.len() == 6);
    reveal_strlit("move-workspace-to-monitor");
    assert("move-workspace-to-monitor"@.len() == 25);
    reveal_strlit("set-floating");
    assert("set-floating"@.len() == 12);
    reveal_strlit("tiles");
    assert("tiles"@.len() == 5);
    reveal_strlit("accordion");
    assert("accordion"@.len() == 9);
    reveal_strlit("toggle");
    assert("toggle"@.len() == 6);
    reveal_strlit("horizontal");
    assert("horizontal"@.len() == 10);
    reveal_strlit("vertical");
    assert("vertical"@.len() == 8);
    reveal_strlit("toggle-orientation");
    assert("toggle-orientation"@.len() == 18);
    assert(t.take(t.len() as int) =~= t);
    law_commands_are_read_back(c, d);
}

/// Decimal digits, any number of them.
pub open spec fn all_digits(s: Seq<char>) -> bool {
    forall|i: int| 0 <= i < s.len() ==> '0' <= #[trigger] s[i] <= '9'
}

/// A sign or none.
pub open spec fn is_sign(s: Seq<char>) -> bool {
    s.len() == 0 || s == seq!['+'] || s == seq!['-']
}

proof fn lemma_digits_len(d: Seq<char>, rest: Seq<char>)
    requires
        all_digits(d),
        rest.len() > 0 ==> !('0' <= rest[0] <= '9'),
    ensures
        digits_len(d + rest) == d.len(),
        (d + rest).skip(d.len() as int) == rest,
    decreases d.len(),
{
    assert((d + rest).skip(d.len() as int) =~= rest);
    if d.len() > 0 {
        assert((d + rest)[0] == d[0]);
        assert((d + rest).skip(1) =~= d.skip(1) + rest);
        assert forall|i: int| 0 <= i < d.skip(1).len() implies '0' <= #[trigger] d.skip(1)[i]
            <= '9' by {
            assert(d.skip(1)[i] == d[i + 1]);
        }
        lemma_digits_len(d.skip(1), rest);
    } else {
        assert(d + rest =~= rest);
    }
}

proof fn lemma_after_sign(sign: Seq<char>, t: Seq<char>)
    requires
        is_sign(sign),
        t.len() > 0,
        t[0] != '+' && t[0] != '-',
    ensures
        after_sign(sign + t) == t,
{
    if sign.len() == 0 {
        assert(sign + t =~= t);
    } else {
        assert((sign + t).skip(1) =~= t);
    }
}

/// A number may have a sign, digits before a point, digits after it, and an
/// exponent with a sign; there is a digit before or after the point.
pub proof fn law_numbers_are_read(
    sign: Seq<char>,
    whole: Seq<char>,
    frac: Seq<char>,
    e: char,
    exp_sign: Seq<char>,
    exp: Seq<char>,
)
    requires
        is_sign(sign) && is_sign(exp_sign),
        all_digits(whole) && all_digits(frac) && all_digits(exp),
        e == 'e' || e == 'E',
        whole.len() + frac.len() > 0,
        exp.len() > 0,
    ensures
        whole.len() > 0 ==> float_text(sign + whole),
        float_text(sign + (whole.push('.') + frac)),
        whole.len() > 0 ==> float_text(sign + (whole + (seq![e] + (exp_sign + exp)))),
        float_text(sign + (whole.push('.') + (frac + (seq![e] + (exp_sign + exp))))),
{
    let none = Seq::<char>::empty();
    let tail = seq![e] + (exp_sign + exp);
    assert(tail.skip(1) =~= exp_sign + exp);
    lemma_after_sign(exp_sign, exp);
    lemma_digits_len(exp, none);
    assert(exp + none =~= exp);
    assert(exponent_text(tail));
    if whole.len() > 0 {
        assert('0' <= whole[0] <= '9');
        lemma_after_sign(sign, whole);
        lemma_digits_len(whole, none);
        assert(whole + none =~= whole);
        assert(number_text(whole));
        lemma_after_sign(sign, whole + tail);
        lemma_digits_len(whole, tail);
        assert(number_text(whole + tail));
    }
    let point = seq!['.'] + frac;
    let long = seq!['.'] + (frac + tail);
    assert(point.skip(1) =~= frac && long.skip(1) =~= frac + tail);
    assert(whole.push('.') + frac =~= whole + point);
    assert(whole.push('.') + (frac + tail) =~= whole + long);
    lemma_digits_len(whole, point);
    lemma_digits_len(whole, long);
    lemma_digits_len(frac, none);
    assert(frac + none =~= frac);
    lemma_digits_len(frac, tail);
    assert(point.skip(1 + frac.len() as int) =~= none);
    assert(long.skip(1 + frac.len() as int) =~= tail);
    assert(number_text(whole + point));
    assert(number_text(whole + long));
    if whole.len() > 0 {
        assert('0' <= whole[0] <= '9');
        assert((whole + point)[0] == whole[0] && (whole + long)[0] == whole[0]);
    } else {
        assert((whole + point)[0] == '.' && (whole + long)[0] == '.');
    }
    lemma_after_sign(sign, whole + point);
    lemma_after_sign(sign, whole + long);
}

proof fn lemma_digits_run(s: Seq<char>)
    ensures
        digits_len(s) <= s.len(),
        forall|i: int| 0 <= i < digits_len(s) ==> '0' <= #[trigger] s[i] <= '9',
    decreases s.len(),
{
    if s.len() > 0 && '0' <= s[0] <= '9' {
        lemma_digits_run(s.skip(1));
        assert forall|i: int| 0 <= i < digits_len(s) implies '0' <= #[trigger] s[i] <= '9' by {
            if i > 0 {
                assert(s[i] == s.skip(1)[i - 1]);
            }
        }
    }
}

/// Whether a character may stand in a number that is not written as a word.
pub open spec fn number_char(c: char) -> bool {
    '0' <= c <= '9' || c == '.' || c == 'e' || c == 'E' || c == '+' || c == '-'
}

proof fn lemma_number_chars(s: Seq<char>)
    requires
        number_text(s),
    ensures
        forall|i: int| 0 <= i < s.len() ==> number_char(#[trigger] s[i]),
        s.len() > 0,
{
    let whole = digits_len(s);
    let rest = s.skip(whole as int);
    lemma_digits_run(s);
    let point = rest.len() > 0 && rest[0] == '.';
    let frac = digits_len(rest.skip(1));
    lemma_digits_run(rest.skip(1));
    let tail = if point {
        rest.skip(1 + frac as int)
    } else {
        rest
    };
    let exp = tail.skip(1);
    lemma_digits_run(after_sign(exp));
    assert forall|i: int| 0 <= i < s.len() implies number_char(#[trigger] s[i]) by {
        if i >= whole {
            assert(s[i] == rest[i - whole]);
            let at = i - whole;
            if point && at > 0 && at <= frac {
                assert(rest[at] == rest.skip(1)[at - 1]);
            } else if !point || at > frac {
                let k = if point {
                    at - 1 - frac
                } else {
                    at
                };
                assert(rest[at] == tail[k]);
                if k > 0 {
                    assert(tail[k] == exp[k - 1]);
                    if after_sign(exp) != exp {
                        if k > 1 {
                            assert(exp[k - 1] == after_sign(exp)[k - 2]);
                        }
                    }
                }
            }
        }
    }
}

/// A text that is neither made of digits, signs, points and exponents nor ends
/// in a word for what is no finite number is no number.
pub proof fn law_other_texts_are_no_numbers(s: Seq<char>, i: int)
    requires
        0 <= i < s.len(),
        !number_char(s[i]),
        s.len() != 3 && s.len() != 4 && s.len() != 8 && s.len() != 9,
    ensures
        !float_text(s),
{
    reveal_strlit("inf");
    reveal_strlit("infinity");
    reveal_strlit("nan");
    let t = after_sign(s);
    if number_text(t) {
        lemma_number_chars(t);
        if t != s {
            if i > 0 {
                assert(s[i] == t[i - 1]);
            }
        }
    }
    assert("inf"@.len() == 3 && "infinity"@.len() == 8 && "nan"@.len() == 3);
}

/// A number has a digit.
pub proof fn law_numbers_have_a_digit(s: Seq<char>)
    requires
        float_text(s),
        forall|i: int| 0 <= i < s.len() ==> number_char(#[trigger] s[i]),
    ensures
        exists|i: int| 0 <= i < s.len() && '0' <= #[trigger] s[i] <= '9',
{
    reveal_strlit("inf");
    reveal_strlit("INF");
    reveal_strlit("infinity");
    reveal_strlit("INFINITY");
    reveal_strlit("nan");
    reveal_strlit("NAN");
    let t = after_sign(s);
    let off = s.len() - t.len();
    assert forall|i: int| 0 <= i < t.len() implies t[i] == #[trigger] s[i + off] by {}
    assert("inf"@.len() == 3 && "inf"@[0] == 'i' && "INF"@[0] == 'I');
    assert("infinity"@.len() == 8 && "infinity"@[0] == 'i' && "INFINITY"@[0] == 'I');
    assert("nan"@.len() == 3 && "nan"@[0] == 'n' && "NAN"@[0] == 'N');
    if t.len() > 0 {
        assert(number_char(s[off as int]));
        assert(t[0] == s[off as int]);
    }
    let whole = digits_len(t);
    lemma_digits_run(t);
    if whole > 0 {
        assert('0' <= t[0] <= '9');
    } else {
        let rest = t.skip(0);
        assert(rest =~= t);
        lemma_digits_run(rest.skip(1));
        assert('0' <= rest.skip(1)[0] <= '9');
        assert(rest.skip(1)[0] == t[1]);
        assert(t[1] == s[1 + off]);
    }
}

}
