//! The menu bar badge: what it shows of the daemon, and what its menu does.

use vstd::prelude::*;
use crate::ipc::{MonitorInfo, WorkspaceInfo};
use crate::table::Table;
use crate::text::{
    chars_of, decimal, decimal_text, is_less, join2, join3, law_text_order, opt_str, opt_text,
    same_text, strip_prefix, text_less, texts, without_prefix,
};

verus! {

/// How many ticks pass between two frames of the spinner.
pub const SPINNER_TICKS_PER_FRAME: u32 = 4;

/// After how many failures in a row the daemon is given up.
pub const MAX_CONSECUTIVE_FAILURES: u32 = 60;

/// How long to wait after a failure, in milliseconds.
pub const RECONNECT_BACKOFF: u64 = 1_000;

/// How the badge and its menu look.
pub struct MenubarStyle {
    /// The fill, as the user wrote it.
    pub color: Option<String>,
    /// The glyphs of modes.
    pub glyphs: Table<String, String>,
    pub show_window_count: bool,
}

/// What a `MenubarStyle` holds.
#[verifier::ext_equal]
pub struct StyleView {
    pub color: Option<Seq<char>>,
    pub glyphs: Map<Seq<char>, Seq<char>>,
    pub show_window_count: bool,
}

impl View for MenubarStyle {
    type V = StyleView;

    open spec fn view(&self) -> StyleView {
        StyleView {
            color: opt_text(self.color),
            glyphs: self.glyphs@,
            show_window_count: self.show_window_count,
        }
    }
}

/// How the badge looks where the user says nothing.
pub open spec fn plain_style() -> StyleView {
    StyleView { color: None, glyphs: Map::empty(), show_window_count: true }
}

impl Default for MenubarStyle {
    fn default() -> (r: Self)
        ensures
            r.glyphs.wf(),
            r@ == plain_style(),
    {
        MenubarStyle { color: None, glyphs: Table::new(), show_window_count: true }
    }
}

/// What one poll of the daemon gave.
pub struct Snapshot {
    /// What the focused monitor shows.
    pub current: Option<String>,
    pub workspaces: Vec<WorkspaceInfo>,
    pub mode: String,
    /// `None` where only the style could not be had.
    pub style: Option<MenubarStyle>,
}

/// The first focused monitor at or after `i`.
pub open spec fn focused_from(ms: Seq<MonitorInfo>, i: int) -> Option<int>
    decreases ms.len() - i,
{
    if i < 0 || i >= ms.len() {
        None
    } else if ms[i].focused {
        Some(i)
    } else {
        focused_from(ms, i + 1)
    }
}

/// What the focused monitor shows.
pub open spec fn current_workspace(ms: Seq<MonitorInfo>) -> Option<Seq<char>> {
    match focused_from(ms, 0) {
        Some(i) => opt_text(ms[i].active_workspace),
        None => None,
    }
}

fn find_current(ms: &Vec<MonitorInfo>) -> (r: Option<String>)
    ensures
        opt_text(r) == current_workspace(ms@),
{
    let mut i: usize = 0;
    while i < ms.len()
        invariant
            i <= ms.len(),
            focused_from(ms@, 0) == focused_from(ms@, i as int),
        decreases ms.len() - i,
    {
        if ms[i].focused {
            return match &ms[i].active_workspace {
                Some(name) => Some(name.as_str().to_owned()),
                None => None,
            };
        }
        i = i + 1;
    }
    None
}

/// Makes a snapshot of what the daemon answered, each `None` where the request
/// or its answer failed. Without the monitors, the workspaces or the mode there
/// is none; the style may be missing.
pub fn poll_daemon(
    monitors: Option<Vec<MonitorInfo>>,
    workspaces: Option<Vec<WorkspaceInfo>>,
    mode: Option<String>,
    style: Option<MenubarStyle>,
) -> (r: Option<Snapshot>)
    ensures
        polled(monitors, workspaces, mode, style, r),
{
    match (monitors, workspaces, mode) {
        (Some(ms), Some(workspaces), Some(mode)) => {
            let current: Option<String> = find_current(&ms);
            Some(Snapshot { current, workspaces, mode, style })
        },
        _ => None,
    }
}

/// The names of some workspaces.
pub open spec fn names_of(ws: Seq<WorkspaceInfo>) -> Seq<Seq<char>> {
    ws.map_values(|w: WorkspaceInfo| w.name@)
}

/// How many elements of an ordered list come before or with `x`.
pub open spec fn place_in(s: Seq<Seq<char>>, x: Seq<char>) -> nat
    decreases s.len(),
{
    if s.len() == 0 || text_less(x, s[0]) {
        0
    } else {
        1 + place_in(s.skip(1), x)
    }
}

/// Some texts in order.
pub open spec fn in_order(names: Seq<Seq<char>>) -> Seq<Seq<char>>
    decreases names.len(),
{
    if names.len() == 0 {
        Seq::empty()
    } else {
        let s = in_order(names.drop_last());
        s.insert(place_in(s, names.last()) as int, names.last())
    }
}

/// No text of a list comes before an earlier one.
pub open spec fn ascending(s: Seq<Seq<char>>) -> bool {
    forall|i: int, j: int| 0 <= i < j < s.len() ==> !text_less(#[trigger] s[j], #[trigger] s[i])
}

proof fn lemma_place(s: Seq<Seq<char>>, x: Seq<char>)
    requires
        ascending(s),
    ensures
        place_in(s, x) <= s.len(),
        forall|i: int| 0 <= i < place_in(s, x) ==> !text_less(x, #[trigger] s[i]),
        forall|i: int| place_in(s, x) <= i < s.len() ==> text_less(x, #[trigger] s[i]),
    decreases s.len(),
{
    if s.len() > 0 {
        let t = s.skip(1);
        if text_less(x, s[0]) {
            assert forall|i: int| 0 <= i < s.len() implies text_less(x, #[trigger] s[i]) by {
                if i > 0 {
                    assert(!text_less(s[i], s[0]));
                    law_text_order(x, s[0], s[i]);
                    law_text_order(s[0], s[i], s[i]);
                }
            }
        } else {
            assert forall|i: int, j: int| 0 <= i < j < t.len() implies !text_less(
                #[trigger] t[j],
                #[trigger] t[i],
            ) by {
                assert(t[j] == s[j + 1] && t[i] == s[i + 1]);
            }
            lemma_place(t, x);
            assert forall|i: int| 0 <= i < place_in(s, x) implies !text_less(x, #[trigger] s[i]) by {
                if i > 0 {
                    assert(s[i] == t[i - 1]);
                }
            }
            assert forall|i: int| place_in(s, x) <= i < s.len() implies text_less(x, #[trigger] s[i]) by {
                assert(s[i] == t[i - 1]);
            }
        }
    }
}

/// Texts put in order are the same texts, and none comes before an earlier one.
pub proof fn law_in_order(names: Seq<Seq<char>>)
    ensures
        in_order(names).len() == names.len(),
        in_order(names).to_multiset() == names.to_multiset(),
        ascending(in_order(names)),
    decreases names.len(),
{
    broadcast use vstd::seq_lib::group_to_multiset_ensures;

    if names.len() > 0 {
        let rest = names.drop_last();
        let x = names.last();
        law_in_order(rest);
        let s = in_order(rest);
        lemma_place(s, x);
        let k = place_in(s, x) as int;
        let t = s.insert(k, x);
        assert(names =~= rest.push(x));
        vstd::seq_lib::to_multiset_insert(s, k, x);
        assert(t.to_multiset() =~= names.to_multiset());
        assert forall|i: int, j: int| 0 <= i < j < t.len() implies !text_less(
            #[trigger] t[j],
            #[trigger] t[i],
        ) by {
            let i1 = if i < k { i } else { i - 1 };
            let j1 = if j < k { j } else { j - 1 };
            if i == k {
                assert(t[j] == s[j1]);
                law_text_order(x, s[j1], x);
            } else if j == k {
                assert(t[i] == s[i1]);
            } else {
                assert(t[i] == s[i1] && t[j] == s[j1]);
            }
        }
    } else {
        assert(in_order(names) =~= names);
    }
}

/// Texts that are in order already stay as they are, as the daemon lists
/// workspaces by their names.
pub proof fn law_ordered_names_stay(names: Seq<Seq<char>>)
    requires
        forall|i: int, j: int| 0 <= i < j < names.len() ==> text_less(#[trigger] names[i], #[trigger] names[j]),
    ensures
        in_order(names) == names,
    decreases names.len(),
{
    if names.len() > 0 {
        let rest = names.drop_last();
        let x = names.last();
        law_ordered_names_stay(rest);
        law_in_order(rest);
        lemma_place(rest, x);
        let k = place_in(rest, x) as int;
        if k < rest.len() {
            assert(text_less(rest[k], x)) by {
                assert(names[k] == rest[k] && names[names.len() - 1] == x);
            }
            law_text_order(x, rest[k], x);
        }
        assert(rest.insert(k, x) =~= names);
    }
}

fn sorted(names: &Vec<String>) -> (r: Vec<String>)
    ensures
        texts(r@) == in_order(texts(names@)),
{
    let ghost all = texts(names@);
    let mut out: Vec<String> = Vec::new();
    let mut i: usize = 0;
    assert(all.take(0) =~= Seq::empty());
    assert(texts(out@) =~= Seq::empty());
    while i < names.len()
        invariant
            i <= names.len(),
            all == texts(names@),
            texts(out@) == in_order(all.take(i as int)),
        decreases names.len() - i,
    {
        let x: String = names[i].as_str().to_owned();
        let ghost s = texts(out@);
        proof {
            assert(all.take(i + 1).drop_last() =~= all.take(i as int));
            assert(all.take(i + 1).last() == x@);
            law_in_order(all.take(i as int));
            lemma_place(s, x@);
            assert(s.skip(0) =~= s);
        }
        let mut k: usize = 0;
        while k < out.len() && !is_less(x.as_str(), out[k].as_str())
            invariant
                k <= out.len(),
                s == texts(out@),
                place_in(s, x@) == k + place_in(s.skip(k as int), x@),
            decreases out.len() - k,
        {
            proof {
                assert(s.skip(k as int)[0] == out@[k as int]@);
                assert(s.skip(k as int).skip(1) =~= s.skip(k + 1));
            }
            k = k + 1;
        }
        proof {
            if k < out.len() {
                assert(s.skip(k as int)[0] == out@[k as int]@);
            }
            assert(place_in(s, x@) == k);
        }
        let ghost before = out@;
        out.insert(k, x);
        assert(texts(out@) =~= s.insert(k as int, x@));
        i = i + 1;
    }
    assert(all.take(i as int) =~= all);
    out
}

/// What decides whether the menu has to be built anew: what is shown, the names
/// of the workspaces in order, and the mode. Window counts change too often for
/// that, so they are not part of it.
pub type MenuKey = (Option<String>, Vec<String>, String);

/// What a `MenuKey` holds.
#[verifier::ext_equal]
pub struct KeyView {
    pub current: Option<Seq<char>>,
    pub names: Seq<Seq<char>>,
    pub mode: Seq<char>,
}

pub open spec fn key_view(k: MenuKey) -> KeyView {
    KeyView { current: opt_text(k.0), names: texts(k.1@), mode: k.2@ }
}

pub open spec fn key_of(s: Snapshot) -> KeyView {
    KeyView {
        current: opt_text(s.current),
        names: in_order(names_of(s.workspaces@)),
        mode: s.mode@,
    }
}

fn copy_opt(s: &Option<String>) -> (r: Option<String>)
    ensures
        opt_text(r) == opt_text(*s),
{
    match s {
        Some(t) => Some(t.as_str().to_owned()),
        None => None,
    }
}

fn copy_names(ws: &Vec<WorkspaceInfo>) -> (r: Vec<String>)
    ensures
        texts(r@) == names_of(ws@),
{
    let mut out: Vec<String> = Vec::new();
    let mut i: usize = 0;
    while i < ws.len()
        invariant
            i <= ws.len(),
            out@.len() == i,
            forall|j: int| 0 <= j < i ==> (#[trigger] out@[j])@ == ws@[j].name@,
        decreases ws.len() - i,
    {
        out.push(ws[i].name.as_str().to_owned());
        i = i + 1;
    }
    assert(texts(out@) =~= names_of(ws@));
    out
}

/// The key of a snapshot.
pub fn menu_key(snapshot: &Snapshot) -> (r: MenuKey)
    ensures
        key_view(r) == key_of(*snapshot),
{
    let names: Vec<String> = copy_names(&snapshot.workspaces);
    (copy_opt(&snapshot.current), sorted(&names), snapshot.mode.as_str().to_owned())
}

fn same_opt(a: &Option<String>, b: &Option<String>) -> (r: bool)
    ensures
        r == (opt_text(*a) == opt_text(*b)),
{
    match (a, b) {
        (Some(x), Some(y)) => same_text(x.as_str(), y.as_str()),
        (None, None) => true,
        _ => false,
    }
}

fn same_texts(a: &Vec<String>, b: &Vec<String>) -> (r: bool)
    ensures
        r == (texts(a@) == texts(b@)),
{
    let ghost x = texts(a@);
    let ghost y = texts(b@);
    if a.len() != b.len() {
        assert(x.len() != y.len());
        return false;
    }
    let mut i: usize = 0;
    while i < a.len()
        invariant
            i <= a.len(),
            a@.len() == b@.len(),
            x == texts(a@),
            y == texts(b@),
            forall|j: int| 0 <= j < i ==> x[j] == y[j],
        decreases a.len() - i,
    {
        assert(x[i as int] == a@[i as int]@ && y[i as int] == b@[i as int]@);
        if !same_text(a[i].as_str(), b[i].as_str()) {
            return false;
        }
        i = i + 1;
    }
    assert(x =~= y);
    true
}

fn same_key(a: &MenuKey, b: &MenuKey) -> (r: bool)
    ensures
        r == (key_view(*a) == key_view(*b)),
{
    let r: bool = same_opt(&a.0, &b.0) && same_texts(&a.1, &b.1) && same_text(
        a.2.as_str(),
        b.2.as_str(),
    );
    r
}

/// The label of a workspace in the menu: marked if it is shown, with its number
/// of windows if it has any and the style asks for that.
pub open spec fn label(w: WorkspaceInfo, checked: bool, show_window_count: bool) -> Seq<char> {
    (if checked {
        "\u{2022} "@
    } else {
        ""@
    }) + w.name@ + (if show_window_count && w.window_count > 0 {
        " ("@ + decimal_text(w.window_count as nat) + ")"@
    } else {
        ""@
    })
}

/// Writes the label of a workspace in the menu.
pub fn workspace_label(ws: &WorkspaceInfo, checked: bool, style: &MenubarStyle) -> (r: String)
    ensures
        r@ == label(*ws, checked, style.show_window_count),
{
    let mut out: String = if checked {
        "\u{2022} ".to_owned()
    } else {
        "".to_owned()
    };
    out.append(ws.name.as_str());
    let suffix: String = if style.show_window_count && ws.window_count > 0 {
        let n: String = decimal(ws.window_count as u64);
        join3(" (", n.as_str(), ")")
    } else {
        "".to_owned()
    };
    out.append(suffix.as_str());
    out
}

/// The glyph before the name on the badge: the user's for that mode, else that
/// of a mode that is built in, else a dot.
pub open spec fn glyph(mode: Seq<char>, glyphs: Map<Seq<char>, Seq<char>>) -> Seq<char> {
    if glyphs.contains_key(mode) {
        glyphs[mode] + " "@
    } else if mode == "resize"@ {
        "\u{2194} "@
    } else if mode == "manage"@ {
        "\u{2699} "@
    } else {
        "\u{25CF} "@
    }
}

/// The glyph before the name on the badge.
pub fn glyph_for_mode(mode: &str, style: &MenubarStyle) -> (r: String)
    requires
        style.glyphs.wf(),
    ensures
        r@ == glyph(mode@, style.glyphs@),
{
    let key: String = mode.to_owned();
    match style.glyphs.get(&key) {
        Some(g) => join2(g.as_str(), " "),
        None => if same_text(mode, "resize") {
            "\u{2194} ".to_owned()
        } else if same_text(mode, "manage") {
            "\u{2699} ".to_owned()
        } else {
            "\u{25CF} ".to_owned()
        },
    }
}

/// How large a glyph is.
#[derive(Debug, Clone, Copy, PartialEq, Eq, Structural)]
pub enum GlyphSize {
    /// As large as the name.
    Name,
    /// Large enough to be told apart.
    Mode,
    /// Small.
    Dot,
}

/// How large the glyph of a mode is.
pub fn glyph_font_size_for_mode(mode: &str) -> (r: GlyphSize)
    ensures
        r == glyph_size(mode@),
{
    if same_text(mode, "manage") {
        GlyphSize::Name
    } else if same_text(mode, "resize") {
        GlyphSize::Mode
    } else {
        GlyphSize::Dot
    }
}

/// The frames of the spinner.
pub open spec fn spinner_frames() -> Seq<Seq<char>> {
    seq![
        "\u{280B}"@,
        "\u{2819}"@,
        "\u{2839}"@,
        "\u{2838}"@,
        "\u{283C}"@,
        "\u{2834}"@,
        "\u{2826}"@,
        "\u{2827}"@,
        "\u{2807}"@,
        "\u{280F}"@,
    ]
}

/// The glyph of the badge while it waits for the daemon.
pub fn spinner_glyph(frame: usize) -> (r: String)
    ensures
        r@ == spinner_text(frame as int),
{
    let f: usize = frame % 10;
    let g: &str = if f == 0 {
        "\u{280B}"
    } else if f == 1 {
        "\u{2819}"
    } else if f == 2 {
        "\u{2839}"
    } else if f == 3 {
        "\u{2838}"
    } else if f == 4 {
        "\u{283C}"
    } else if f == 5 {
        "\u{2834}"
    } else if f == 6 {
        "\u{2826}"
    } else if f == 7 {
        "\u{2827}"
    } else if f == 8 {
        "\u{2807}"
    } else {
        "\u{280F}"
    };
    join2(g, " ")
}

/// The value of a hexadecimal digit.
pub open spec fn hex_value(c: char) -> Option<nat> {
    if '0' <= c <= '9' {
        Some((c as nat - '0' as nat) as nat)
    } else if 'a' <= c <= 'f' {
        Some((c as nat - 'a' as nat + 10) as nat)
    } else if 'A' <= c <= 'F' {
        Some((c as nat - 'A' as nat + 10) as nat)
    } else {
        None
    }
}

/// The number that two digits spell. A sign may stand for the first.
pub open spec fn hex_pair(a: char, b: char) -> Option<nat> {
    match (hex_value(a), hex_value(b)) {
        (Some(x), Some(y)) => Some(16 * x + y),
        (None, Some(y)) => if a == '+' {
            Some(y)
        } else {
            None
        },
        _ => None,
    }
}

/// The colour that six digits spell, or three that stand for two each.
pub open spec fn color_of(text: Seq<char>) -> Option<(nat, nat, nat)> {
    let h = if text.len() > 0 && text[0] == '#' {
        text.skip(1)
    } else {
        text
    };
    if h.len() == 6 {
        match (hex_pair(h[0], h[1]), hex_pair(h[2], h[3]), hex_pair(h[4], h[5])) {
            (Some(r), Some(g), Some(b)) => Some((r, g, b)),
            _ => None,
        }
    } else if h.len() == 3 {
        match (hex_value(h[0]), hex_value(h[1]), hex_value(h[2])) {
            (Some(r), Some(g), Some(b)) => Some((17 * r, 17 * g, 17 * b)),
            _ => None,
        }
    } else {
        None
    }
}

fn hex_digit(c: char) -> (r: Option<u8>)
    ensures
        match r {
            Some(v) => hex_value(c) == Some(v as nat) && v < 16,
            None => hex_value(c) is None,
        },
{
    if '0' <= c && c <= '9' {
        Some((c as u32 - '0' as u32) as u8)
    } else if 'a' <= c && c <= 'f' {
        Some((c as u32 - 'a' as u32 + 10) as u8)
    } else if 'A' <= c && c <= 'F' {
        Some((c as u32 - 'A' as u32 + 10) as u8)
    } else {
        None
    }
}

fn read_pair(a: char, b: char) -> (r: Option<u8>)
    ensures
        match r {
            Some(v) => hex_pair(a, b) == Some(v as nat),
            None => hex_pair(a, b) is None,
        },
{
    match (hex_digit(a), hex_digit(b)) {
        (Some(x), Some(y)) => Some(16 * x + y),
        (None, Some(y)) => if a == '+' {
            Some(y)
        } else {
            None
        },
        _ => None,
    }
}

/// Reads a colour. What is malformed is none: the badge then looks as it does
/// where the user says nothing.
pub fn parse_hex_color(text: &str) -> (r: Option<(u8, u8, u8)>)
    ensures
        match r {
            Some(c) => color_of(text@) == Some((c.0 as nat, c.1 as nat, c.2 as nat)),
            None => color_of(text@) is None,
        },
{
    let all: Vec<char> = chars_of(text);
    let start: usize = if all.len() > 0 && all[0] == '#' {
        1
    } else {
        0
    };
    let ghost h = if text@.len() > 0 && text@[0] == '#' {
        text@.skip(1)
    } else {
        text@
    };
    assert(h =~= all@.skip(start as int));
    let n: usize = all.len() - start;
    if n == 6 {
        match (
            read_pair(all[start], all[start + 1]),
            read_pair(all[start + 2], all[start + 3]),
            read_pair(all[start + 4], all[start + 5]),
        ) {
            (Some(r), Some(g), Some(b)) => Some((r, g, b)),
            _ => None,
        }
    } else if n == 3 {
        match (hex_digit(all[start]), hex_digit(all[start + 1]), hex_digit(all[start + 2])) {
            (Some(r), Some(g), Some(b)) => Some((17 * r, 17 * g, 17 * b)),
            _ => None,
        }
    } else {
        None
    }
}

/// One line of the menu.
#[derive(Debug, PartialEq, Eq)]
pub enum MenuLine {
    Item { id: String, label: String, enabled: bool },
    Separator,
}

/// What a `MenuLine` holds.
pub enum LineView {
    Item { id: Seq<char>, label: Seq<char>, enabled: bool },
    Separator,
}

impl View for MenuLine {
    type V = LineView;

    open spec fn view(&self) -> LineView {
        match *self {
            MenuLine::Item { id, label, enabled } => LineView::Item {
                id: id@,
                label: label@,
                enabled,
            },
            MenuLine::Separator => LineView::Separator,
        }
    }
}

pub open spec fn line_views(v: Seq<MenuLine>) -> Seq<LineView> {
    v.map_values(|l: MenuLine| l@)
}

/// The lines that every menu ends with.
pub open spec fn static_lines() -> Seq<LineView> {
    seq![
        LineView::Item { id: "open-settings"@, label: "Open Settings"@, enabled: true },
        LineView::Item { id: "quit"@, label: "Quit tili"@, enabled: true },
    ]
}

/// The line of a workspace.
pub open spec fn workspace_item(
    w: WorkspaceInfo,
    current: Option<Seq<char>>,
    show_window_count: bool,
) -> LineView {
    LineView::Item {
        id: "workspace:"@ + w.name@,
        label: label(w, current == Some(w.name@), show_window_count),
        enabled: true,
    }
}

/// The menu: the workspaces, and what every menu ends with.
pub open spec fn menu_lines(
    current: Option<Seq<char>>,
    ws: Seq<WorkspaceInfo>,
    show_window_count: bool,
) -> Seq<LineView> {
    ws.map_values(|w: WorkspaceInfo| workspace_item(w, current, show_window_count)) + (if ws.len()
        > 0 {
        seq![LineView::Separator]
    } else {
        Seq::empty()
    }) + static_lines()
}

/// The menu while there is nothing to say of workspaces.
pub open spec fn connecting_lines() -> Seq<LineView> {
    seq![
        LineView::Item { id: "status"@, label: "Connecting…"@, enabled: false },
        LineView::Separator,
    ] + static_lines()
}

fn item(id: &str, label: &str, enabled: bool) -> (r: MenuLine)
    ensures
        r@ == (LineView::Item { id: id@, label: label@, enabled }),
{
    MenuLine::Item { id: id.to_owned(), label: label.to_owned(), enabled }
}

fn append_static_items(menu: &mut Vec<MenuLine>)
    ensures
        line_views(final(menu)@) == line_views(old(menu)@) + static_lines(),
{
    menu.push(item("open-settings", "Open Settings", true));
    menu.push(item("quit", "Quit tili", true));
    assert(line_views(menu@) =~= line_views(old(menu)@) + static_lines());
}

/// Builds the menu.
pub fn build_menu(current: Option<&str>, workspaces: &Vec<WorkspaceInfo>, style: &MenubarStyle) -> (r:
    Vec<MenuLine>)
    ensures
        line_views(r@) == menu_lines(opt_str(current), workspaces@, style.show_window_count),
{
    let ghost all = workspaces@.map_values(
        |w: WorkspaceInfo| workspace_item(w, opt_str(current), style.show_window_count),
    );
    let mut menu: Vec<MenuLine> = Vec::new();
    let mut i: usize = 0;
    assert(line_views(menu@) =~= all.take(0));
    while i < workspaces.len()
        invariant
            i <= workspaces.len(),
            all == workspaces@.map_values(
                |w: WorkspaceInfo| workspace_item(w, opt_str(current), style.show_window_count),
            ),
            line_views(menu@) == all.take(i as int),
        decreases workspaces.len() - i,
    {
        let ws: &WorkspaceInfo = &workspaces[i];
        let checked: bool = match current {
            Some(c) => same_text(c, ws.name.as_str()),
            None => false,
        };
        let text: String = workspace_label(ws, checked, style);
        let id: String = join2("workspace:", ws.name.as_str());
        let ghost before = line_views(menu@);
        let l: MenuLine = item(id.as_str(), text.as_str(), true);
        assert(l@ == all[i as int]);
        menu.push(l);
        assert(line_views(menu@) =~= before.push(all[i as int]));
        assert(line_views(menu@) =~= all.take(i + 1));
        i = i + 1;
    }
    assert(all.take(i as int) =~= all);
    if workspaces.len() > 0 {
        let ghost before = line_views(menu@);
        menu.push(MenuLine::Separator);
        assert(line_views(menu@) =~= before + seq![LineView::Separator]);
    } else {
        assert(line_views(menu@) =~= line_views(menu@) + Seq::<LineView>::empty());
    }
    append_static_items(&mut menu);
    menu
}

/// Builds the menu while there is nothing to say of workspaces.
pub fn build_menu_connecting() -> (r: Vec<MenuLine>)
    ensures
        line_views(r@) == connecting_lines(),
{
    let mut menu: Vec<MenuLine> = Vec::new();
    menu.push(item("status", "Connecting…", false));
    menu.push(MenuLine::Separator);
    assert(line_views(menu@) =~= seq![
        LineView::Item { id: "status"@, label: "Connecting…"@, enabled: false },
        LineView::Separator,
    ]);
    append_static_items(&mut menu);
    menu
}

/// What was applied to the badge last.
pub struct MenuState {
    key: Option<MenuKey>,
    visible: bool,
    connected: Option<bool>,
    spinner_frame: usize,
    spinner_tick: u32,
    items: Vec<String>,
    style: MenubarStyle,
}

/// What a `MenuState` holds.
#[verifier::ext_equal]
pub struct MenuStateView {
    pub key: Option<KeyView>,
    pub visible: bool,
    /// `None` until something is known of the daemon.
    pub connected: Option<bool>,
    pub spinner_frame: usize,
    pub spinner_tick: u32,
    /// The workspaces in the menu.
    pub items: Seq<Seq<char>>,
    pub style: StyleView,
}

impl View for MenuState {
    type V = MenuStateView;

    closed spec fn view(&self) -> MenuStateView {
        MenuStateView {
            key: match self.key {
                Some(k) => Some(key_view(k)),
                None => None,
            },
            visible: self.visible,
            connected: self.connected,
            spinner_frame: self.spinner_frame,
            spinner_tick: self.spinner_tick,
            items: texts(self.items@),
            style: self.style@,
        }
    }
}

/// One change of the badge or its menu.
#[derive(Debug, PartialEq, Eq)]
pub enum BadgeStep {
    Show,
    /// The badge, while there is no daemon.
    ConnectingBadge { frame: usize },
    /// The badge, with a text, in a mode. It looks as `MenuState::style` says.
    Badge { text: String, mode: String },
    /// The label of a workspace in the menu.
    SetLabel { workspace: String, label: String },
    Menu(Vec<MenuLine>),
}

/// What a `BadgeStep` holds.
pub enum BadgeStepView {
    Show,
    ConnectingBadge { frame: usize },
    Badge { text: Seq<char>, mode: Seq<char> },
    SetLabel { workspace: Seq<char>, label: Seq<char> },
    Menu(Seq<LineView>),
}

impl View for BadgeStep {
    type V = BadgeStepView;

    open spec fn view(&self) -> BadgeStepView {
        match *self {
            BadgeStep::Show => BadgeStepView::Show,
            BadgeStep::ConnectingBadge { frame } => BadgeStepView::ConnectingBadge { frame },
            BadgeStep::Badge { text, mode } => BadgeStepView::Badge { text: text@, mode: mode@ },
            BadgeStep::SetLabel { workspace, label } => BadgeStepView::SetLabel {
                workspace: workspace@,
                label: label@,
            },
            BadgeStep::Menu(lines) => BadgeStepView::Menu(line_views(lines@)),
        }
    }
}

pub open spec fn step_views(v: Seq<BadgeStep>) -> Seq<BadgeStepView> {
    v.map_values(|s: BadgeStep| s@)
}

/// The first change ever makes the badge visible.
pub open spec fn shown_first(s: MenuStateView) -> Seq<BadgeStepView> {
    if s.visible {
        Seq::empty()
    } else {
        seq![BadgeStepView::Show]
    }
}

/// The badge without a daemon. The spinner and its menu start only once.
pub open spec fn disconnected(s: MenuStateView) -> (MenuStateView, Seq<BadgeStepView>) {
    if s.connected == Some(false) {
        (
            MenuStateView { visible: true, ..s },
            shown_first(s) + seq![BadgeStepView::ConnectingBadge { frame: s.spinner_frame }],
        )
    } else {
        (
            MenuStateView {
                key: None,
                visible: true,
                connected: Some(false),
                spinner_frame: 0,
                spinner_tick: 0,
                items: Seq::empty(),
                ..s
            },
            shown_first(s) + seq![
                BadgeStepView::Menu(connecting_lines()),
                BadgeStepView::ConnectingBadge { frame: 0 },
            ],
        )
    }
}

/// The labels of those of some workspaces that are in the menu.
pub open spec fn relabelled(
    items: Seq<Seq<char>>,
    ws: Seq<WorkspaceInfo>,
    current: Option<Seq<char>>,
    show_window_count: bool,
) -> Seq<BadgeStepView>
    decreases ws.len(),
{
    if ws.len() == 0 {
        Seq::empty()
    } else {
        let before = relabelled(items, ws.drop_last(), current, show_window_count);
        let w = ws.last();
        if items.contains(w.name@) {
            before.push(
                BadgeStepView::SetLabel {
                    workspace: w.name@,
                    label: label(w, current == Some(w.name@), show_window_count),
                },
            )
        } else {
            before
        }
    }
}

/// The style that counts once a snapshot came: the one it brings, else the last
/// one.
pub open spec fn style_after(s: MenuStateView, snap: Snapshot) -> StyleView {
    match snap.style {
        Some(style) => style@,
        None => s.style,
    }
}

/// What the badge says: what is shown, or the name of the program.
pub open spec fn badge_text(current: Option<Seq<char>>) -> Seq<char> {
    match current {
        Some(name) => name,
        None => "tili"@,
    }
}

/// The badge once a snapshot came. The menu is built anew only if its key
/// changed; otherwise labels are changed in place.
pub open spec fn connected(s: MenuStateView, snap: Snapshot) -> (MenuStateView, Seq<BadgeStepView>) {
    let style = style_after(s, snap);
    let current = opt_text(snap.current);
    let first = shown_first(s).push(
        BadgeStepView::Badge { text: badge_text(current), mode: snap.mode@ },
    ) + relabelled(s.items, snap.workspaces@, current, style.show_window_count);
    let same = MenuStateView { visible: true, connected: Some(true), style, ..s };
    if s.key == Some(key_of(snap)) {
        (same, first)
    } else {
        (
            MenuStateView { key: Some(key_of(snap)), items: names_of(snap.workspaces@), ..same },
            first.push(
                BadgeStepView::Menu(menu_lines(current, snap.workspaces@, style.show_window_count)),
            ),
        )
    }
}

/// What one tick makes of the spinner: every few ticks the next frame, while
/// there is no daemon.
pub open spec fn spun(s: MenuStateView) -> (MenuStateView, Option<usize>) {
    if s.connected != Some(false) {
        (s, None)
    } else {
        let tick = if s.spinner_tick == u32::MAX {
            0u32
        } else {
            (s.spinner_tick + 1) as u32
        };
        if tick % SPINNER_TICKS_PER_FRAME == 0 {
            let frame = if s.spinner_frame == usize::MAX {
                0usize
            } else {
                (s.spinner_frame + 1) as usize
            };
            (MenuStateView { spinner_tick: tick, spinner_frame: frame, ..s }, Some(frame))
        } else {
            (MenuStateView { spinner_tick: tick, ..s }, None)
        }
    }
}

fn among(v: &Vec<String>, s: &str) -> (r: bool)
    ensures
        r == texts(v@).contains(s@),
{
    let ghost all = texts(v@);
    let mut i: usize = 0;
    while i < v.len()
        invariant
            i <= v.len(),
            all == texts(v@),
            forall|j: int| 0 <= j < i ==> all[j] != s@,
        decreases v.len() - i,
    {
        assert(all[i as int] == v@[i as int]@);
        if same_text(v[i].as_str(), s) {
            assert(all.contains(all[i as int]));
            return true;
        }
        i = i + 1;
    }
    false
}

impl MenuState {
    pub closed spec fn wf(&self) -> bool {
        self.style.glyphs.wf()
    }

    /// A badge that was never shown.
    pub fn new() -> (r: Self)
        ensures
            r.wf(),
            r@ == (MenuStateView {
                key: None,
                visible: false,
                connected: None,
                spinner_frame: 0,
                spinner_tick: 0,
                items: Seq::empty(),
                style: plain_style(),
            }),
    {
        let r: MenuState = MenuState {
            key: None,
            visible: false,
            connected: None,
            spinner_frame: 0,
            spinner_tick: 0,
            items: Vec::new(),
            style: MenubarStyle::default(),
        };
        assert(texts(r.items@) =~= Seq::empty());
        r
    }

    pub fn style(&self) -> (r: &MenubarStyle)
        requires
            self.wf(),
        ensures
            r@ == self@.style,
            r.glyphs.wf(),
    {
        &self.style
    }

    fn show(&mut self) -> (r: Vec<BadgeStep>)
        requires
            old(self).wf(),
        ensures
            final(self).wf(),
            final(self)@ == (MenuStateView { visible: true, ..old(self)@ }),
            step_views(r@) == shown_first(old(self)@),
    {
        let mut out: Vec<BadgeStep> = Vec::new();
        if !self.visible {
            self.visible = true;
            out.push(BadgeStep::Show);
        }
        assert(step_views(out@) =~= shown_first(old(self)@));
        out
    }

    /// Applies what a poll gave, `None` if the daemon cannot be reached.
    pub fn apply_snapshot(&mut self, snapshot: Option<Snapshot>) -> (r: Vec<BadgeStep>)
        requires
            old(self).wf(),
            snapshot matches Some(s) ==> (s.style matches Some(style) ==> style.glyphs.wf()),
        ensures
            final(self).wf(),
            (final(self)@, step_views(r@)) == applied(old(self)@, snapshot),
    {
        let ghost s = self@;
        let mut out: Vec<BadgeStep> = self.show();
        let snap: Snapshot = match snapshot {
            Some(snap) => snap,
            None => {
                let waiting: bool = match self.connected {
                    Some(c) => !c,
                    None => false,
                };
                if !waiting {
                    self.connected = Some(false);
                    self.spinner_frame = 0;
                    self.spinner_tick = 0;
                    self.items = Vec::new();
                    self.key = None;
                    out.push(BadgeStep::Menu(build_menu_connecting()));
                    assert(texts(self.items@) =~= Seq::empty());
                }
                out.push(BadgeStep::ConnectingBadge { frame: self.spinner_frame });
                assert(step_views(out@) =~= disconnected(s).1);
                return out;
            },
        };
        let ghost given = snap;
        self.connected = Some(true);
        let key: MenuKey = menu_key(&snap);
        let Snapshot { current, workspaces, mode, style } = snap;
        match style {
            Some(style) => {
                self.style = style;
            },
            None => {},
        }
        let text: String = match &current {
            Some(name) => name.as_str().to_owned(),
            None => "tili".to_owned(),
        };
        let ghost start = step_views(out@);
        out.push(BadgeStep::Badge { text, mode });
        let ghost head = start.push(
            BadgeStepView::Badge { text: badge_text(opt_text(current)), mode: mode@ },
        );
        assert(step_views(out@) =~= head);
        let ghost count = self.style.show_window_count;
        let ghost items = texts(self.items@);
        let mut i: usize = 0;
        assert(workspaces@.take(0) =~= Seq::empty());
        assert(head + Seq::<BadgeStepView>::empty() =~= head);
        while i < workspaces.len()
            invariant
                i <= workspaces.len(),
                count == self.style.show_window_count,
                items == texts(self.items@),
                step_views(out@) == head + relabelled(
                    items,
                    workspaces@.take(i as int),
                    opt_text(current),
                    count,
                ),
            decreases workspaces.len() - i,
        {
            let ws: &WorkspaceInfo = &workspaces[i];
            proof {
                assert(workspaces@.take(i + 1).drop_last() =~= workspaces@.take(i as int));
                assert(workspaces@.take(i + 1).last() == *ws);
            }
            if among(&self.items, ws.name.as_str()) {
                let checked: bool = match &current {
                    Some(c) => same_text(c.as_str(), ws.name.as_str()),
                    None => false,
                };
                let label: String = workspace_label(ws, checked, &self.style);
                let workspace: String = ws.name.as_str().to_owned();
                let ghost before = step_views(out@);
                let step: BadgeStep = BadgeStep::SetLabel { workspace, label };
                let ghost view = step@;
                out.push(step);
                proof {
                    assert(step_views(out@) =~= before.push(view));
                    let done = relabelled(
                        items,
                        workspaces@.take(i as int),
                        opt_text(current),
                        count,
                    );
                    assert(head + done.push(view) =~= (head + done).push(view));
                }
            }
            i = i + 1;
        }
        assert(workspaces@.take(i as int) =~= workspaces@);
        let unchanged: bool = match &self.key {
            Some(k) => same_key(k, &key),
            None => false,
        };
        if !unchanged {
            let shown: Option<&str> = match &current {
                Some(c) => Some(c.as_str()),
                None => None,
            };
            let menu: Vec<MenuLine> = build_menu(shown, &workspaces, &self.style);
            let ghost before = step_views(out@);
            let ghost lines = line_views(menu@);
            out.push(BadgeStep::Menu(menu));
            assert(step_views(out@) =~= before.push(BadgeStepView::Menu(lines)));
            self.items = copy_names(&workspaces);
            self.key = Some(key);
        }
        out
    }

    /// Carries the spinner on. Returns the frame that has to be drawn.
    pub fn tick_spinner(&mut self) -> (r: Option<usize>)
        requires
            old(self).wf(),
        ensures
            final(self).wf(),
            (final(self)@, r) == spun(old(self)@),
    {
        let waiting: bool = match self.connected {
            Some(c) => !c,
            None => false,
        };
        if !waiting {
            return None;
        }
        self.spinner_tick = if self.spinner_tick == u32::MAX {
            0
        } else {
            self.spinner_tick + 1
        };
        if self.spinner_tick % SPINNER_TICKS_PER_FRAME != 0 {
            return None;
        }
        self.spinner_frame = if self.spinner_frame == usize::MAX {
            0
        } else {
            self.spinner_frame + 1
        };
        Some(self.spinner_frame)
    }
}

/// What a click in the menu does.
#[derive(Debug, PartialEq, Eq)]
pub enum MenuAction {
    Switch(String),
    OpenSettings,
    /// Stop the daemon and the badge.
    Quit,
    Nothing,
}

/// What a `MenuAction` holds.
pub enum MenuActionView {
    Switch(Seq<char>),
    OpenSettings,
    Quit,
    Nothing,
}

impl View for MenuAction {
    type V = MenuActionView;

    open spec fn view(&self) -> MenuActionView {
        match *self {
            MenuAction::Switch(name) => MenuActionView::Switch(name@),
            MenuAction::OpenSettings => MenuActionView::OpenSettings,
            MenuAction::Quit => MenuActionView::Quit,
            MenuAction::Nothing => MenuActionView::Nothing,
        }
    }
}

/// What a click on the line with an id does.
pub open spec fn clicked(id: Seq<char>) -> MenuActionView {
    match without_prefix(id, "workspace:"@) {
        Some(name) => MenuActionView::Switch(name),
        None => if id == "open-settings"@ {
            MenuActionView::OpenSettings
        } else if id == "quit"@ {
            MenuActionView::Quit
        } else {
            MenuActionView::Nothing
        },
    }
}

/// Says what a click on the line with an id does.
pub fn handle(id: &str) -> (r: MenuAction)
    ensures
        r@ == clicked(id@),
{
    match strip_prefix(id, "workspace:") {
        Some(name) => MenuAction::Switch(name),
        None => if same_text(id, "open-settings") {
            MenuAction::OpenSettings
        } else if same_text(id, "quit") {
            MenuAction::Quit
        } else {
            MenuAction::Nothing
        },
    }
}

/// A way to open the settings.
#[derive(Debug, PartialEq, Eq)]
pub enum Opener {
    Editor(String),
    /// What the system opens such files with.
    Default,
    TextEdit,
}

/// The ways to open the settings, to be tried in order until one works.
pub fn openers(editor: Option<&str>) -> (r: Vec<Opener>)
    ensures
        tried_in_turn(opt_str(editor), r@),
{
    let mut out: Vec<Opener> = Vec::new();
    match editor {
        Some(e) => {
            if e.unicode_len() > 0 {
                out.push(Opener::Editor(e.to_owned()));
            }
        },
        None => {},
    }
    out.push(Opener::Default);
    out.push(Opener::TextEdit);
    out
}

/// What the badge does when it waited for a change.
#[derive(Debug, Clone, Copy, PartialEq, Eq, Structural)]
pub enum WatchStep {
    /// Poll the daemon, and wait again at once.
    Poll,
    /// The daemon cannot be reached: say so, and wait again after a while.
    Retry,
    /// The daemon is gone for good: stop the badge as well.
    GiveUp,
}

/// Counts failures in a row.
#[derive(Debug)]
pub struct Outage {
    pub failures: u32,
}

impl Outage {
    pub fn new() -> (r: Self)
        ensures
            r.failures == 0,
    {
        Outage { failures: 0 }
    }

    /// Says what to do once a wait for a change was answered, or failed.
    pub fn on_wait(&mut self, answered: bool) -> (r: WatchStep)
        ensures
            (final(self).failures, r) == waited(old(self).failures, answered),
    {
        if answered {
            self.failures = 0;
            return WatchStep::Poll;
        }
        if self.failures < u32::MAX {
            self.failures = self.failures + 1;
        }
        if self.failures >= MAX_CONSECUTIVE_FAILURES {
            WatchStep::GiveUp
        } else {
            WatchStep::Retry
        }
    }
}

/// A click on the line of a workspace switches to that workspace, whatever its
/// name.
pub proof fn law_workspace_line_switches(w: WorkspaceInfo, current: Option<Seq<char>>, count: bool)
    ensures
        workspace_item(w, current, count) matches LineView::Item { id, .. } && clicked(id)
            == MenuActionView::Switch(w.name@),
{
    let prefix = "workspace:"@;
    let id = prefix + w.name@;
    assert(id.subrange(0, prefix.len() as int) =~= prefix);
    assert(id.skip(prefix.len() as int) =~= w.name@);
}

/// The menu is not built anew while its key stays the same: a live menu is left
/// alone.
pub proof fn law_same_key_keeps_the_menu(s: MenuStateView, first: Snapshot, second: Snapshot)
    requires
        key_of(first) == key_of(second),
    ensures
        ({
            let (mid, _) = connected(s, first);
            let (end, steps) = connected(mid, second);
            &&& end.key == mid.key
            &&& end.items == mid.items
            &&& forall|i: int| 0 <= i < steps.len() ==> !(#[trigger] steps[i] is Menu)
        }),
{
    let (mid, _) = connected(s, first);
    let (end, steps) = connected(mid, second);
    let style = style_after(mid, second);
    lemma_relabelled(
        mid.items,
        second.workspaces@,
        opt_text(second.current),
        style.show_window_count,
    );
}

proof fn lemma_relabelled(
    items: Seq<Seq<char>>,
    ws: Seq<WorkspaceInfo>,
    current: Option<Seq<char>>,
    count: bool,
)
    ensures
        forall|i: int|
            0 <= i < relabelled(items, ws, current, count).len() ==> #[trigger] relabelled(
                items,
                ws,
                current,
                count,
            )[i] is SetLabel,
    decreases ws.len(),
{
    if ws.len() > 0 {
        lemma_relabelled(items, ws.drop_last(), current, count);
    }
}

/// After an outage the menu is built anew, even if nothing changed meanwhile.
pub proof fn law_reconnecting_builds_the_menu(s: MenuStateView, snap: Snapshot)
    requires
        s.connected != Some(false),
    ensures
        ({
            let (gone, _) = disconnected(s);
            connected(gone, snap).1.last() is Menu
        }),
{
}

/// A failed request for the style keeps the last one.
pub proof fn law_missing_style_keeps_the_last(s: MenuStateView, snap: Snapshot)
    requires
        snap.style is None,
    ensures
        connected(s, snap).0.style == s.style,
{
}

/// The spinner shows the next frame every few ticks.
pub proof fn law_spinner_turns(s: MenuStateView)
    requires
        s.connected == Some(false),
        s.spinner_tick % SPINNER_TICKS_PER_FRAME == 0,
        s.spinner_tick <= u32::MAX - SPINNER_TICKS_PER_FRAME,
        s.spinner_frame < usize::MAX,
    ensures
        ({
            let (a, f1) = spun(s);
            let (b, f2) = spun(a);
            let (c, f3) = spun(b);
            let (d, f4) = spun(c);
            f1 is None && f2 is None && f3 is None && f4 == Some((s.spinner_frame + 1) as usize)
        }),
{
}

/// `r` is what one poll of the daemon gave, by its answers.
pub open spec fn polled(
    monitors: Option<Vec<MonitorInfo>>,
    workspaces: Option<Vec<WorkspaceInfo>>,
    mode: Option<String>,
    style: Option<MenubarStyle>,
    r: Option<Snapshot>,
) -> bool {
    match r {
        Some(s) => {
            &&& monitors is Some && workspaces is Some && mode is Some
            &&& opt_text(s.current) == current_workspace(monitors->0@)
            &&& s.workspaces == workspaces->0
            &&& s.mode == mode->0
            &&& s.style == style
        },
        None => monitors is None || workspaces is None || mode is None,
    }
}

/// How large the glyph of a mode is.
pub open spec fn glyph_size(mode: Seq<char>) -> GlyphSize {
    if mode == "manage"@ {
        GlyphSize::Name
    } else if mode == "resize"@ {
        GlyphSize::Mode
    } else {
        GlyphSize::Dot
    }
}

/// What the spinner shows at a frame.
pub open spec fn spinner_text(frame: int) -> Seq<char> {
    spinner_frames()[frame % 10] + " "@
}

/// The badge once a poll came back, or failed.
pub open spec fn applied(s: MenuStateView, snapshot: Option<Snapshot>) -> (
    MenuStateView,
    Seq<BadgeStepView>,
) {
    match snapshot {
        Some(snap) => connected(s, snap),
        None => disconnected(s),
    }
}

/// `r` is what the configuration file is opened with, tried in turn.
pub open spec fn tried_in_turn(editor: Option<Seq<char>>, r: Seq<Opener>) -> bool {
    match editor {
        Some(e) if e.len() > 0 => r.len() == 3 && (r[0] matches Opener::Editor(t) && t@ == e) && r[1]
            is Default && r[2] is TextEdit,
        _ => r.len() == 2 && r[0] is Default && r[1] is TextEdit,
    }
}

/// How many waits failed in a row after one more, and what to do then.
pub open spec fn waited(failures: u32, answered: bool) -> (u32, WatchStep) {
    if answered {
        (0, WatchStep::Poll)
    } else {
        let n = if failures == u32::MAX {
            u32::MAX
        } else {
            (failures + 1) as u32
        };
        (
            n,
            if n >= MAX_CONSECUTIVE_FAILURES {
                WatchStep::GiveUp
            } else {
                WatchStep::Retry
            },
        )
    }
}

/// How many waits failed in a row, after so many more failed.
pub open spec fn after_failures(failures: u32, n: nat) -> u32
    decreases n,
{
    if n == 0 {
        failures
    } else {
        waited(after_failures(failures, (n - 1) as nat), false).0
    }
}

/// The badge gives up once so many waits failed in a row, not before, and an
/// answer starts the count anew.
pub proof fn law_badge_gives_up_in_the_end(n: nat, failures: u32)
    requires
        0 < n < u32::MAX,
    ensures
        waited(failures, true) == (0u32, WatchStep::Poll),
        after_failures(0, n) == n,
        waited(after_failures(0, (n - 1) as nat), false).1 is GiveUp <==> n >= MAX_CONSECUTIVE_FAILURES,
        waited(after_failures(0, (n - 1) as nat), false).1 is Retry <==> n < MAX_CONSECUTIVE_FAILURES,
    decreases n,
{
    if n > 1 {
        law_badge_gives_up_in_the_end((n - 1) as nat, failures);
    }
}

proof fn lemma_focused_from(ms: Seq<MonitorInfo>, k: int, from: int)
    requires
        0 <= from <= k <= ms.len(),
        k < ms.len() ==> ms[k].focused,
        forall|j: int| 0 <= j < k ==> !(#[trigger] ms[j]).focused,
    ensures
        focused_from(ms, from) == (if k < ms.len() {
            Some(k)
        } else {
            None
        }),
    decreases k - from,
{
    if from < k {
        assert(!ms[from].focused);
        lemma_focused_from(ms, k, from + 1);
    }
}

/// A poll succeeds if all but the style was answered. What is current then is
/// what the first focused monitor shows; all else is as it was answered.
pub proof fn law_polls_tell_what_was_answered(
    monitors: Option<Vec<MonitorInfo>>,
    workspaces: Option<Vec<WorkspaceInfo>>,
    mode: Option<String>,
    style: Option<MenubarStyle>,
    r: Option<Snapshot>,
    k: int,
)
    requires
        polled(monitors, workspaces, mode, style, r),
        monitors is Some ==> 0 <= k <= monitors->0@.len() && (k < monitors->0@.len()
            ==> monitors->0@[k].focused) && forall|j: int|
            0 <= j < k ==> !(#[trigger] monitors->0@[j]).focused,
    ensures
        r is Some <==> monitors is Some && workspaces is Some && mode is Some,
        r is Some ==> {
            &&& r->0.workspaces == workspaces->0 && r->0.mode == mode->0 && r->0.style == style
            &&& k < monitors->0@.len() ==> opt_text(r->0.current) == opt_text(
                monitors->0@[k].active_workspace,
            )
            &&& k == monitors->0@.len() ==> r->0.current is None
        },
{
    if monitors is Some {
        lemma_focused_from(monitors->0@, k, 0);
    }
}

/// The label of a workspace has its name in it; it is marked exactly if it is to
/// be, and ends in the number of its windows exactly if it has any and that is
/// asked for.
pub proof fn law_labels_tell_of_workspaces(w: WorkspaceInfo, checked: bool, count: bool)
    ensures
        ({
            let all = label(w, checked, count);
            let front = if checked {
                seq!['\u{2022}', ' ']
            } else {
                Seq::empty()
            };
            let back = if count && w.window_count > 0 {
                seq![' ', '('] + decimal_text(w.window_count as nat) + seq![')']
            } else {
                Seq::empty()
            };
            all == front + w.name@ + back
        }),
{
    reveal_strlit("\u{2022} ");
    reveal_strlit("");
    reveal_strlit(" (");
    reveal_strlit(")");
    assert("\u{2022} "@ =~= seq!['\u{2022}', ' ']);
    assert(""@ =~= Seq::<char>::empty());
    assert(" ("@ =~= seq![' ', '(']);
    assert(")"@ =~= seq![')']);
}

/// The user's glyph for a mode is used whatever mode that is; without one, the
/// two modes that are built in have glyphs of their own, and all others share
/// one. A space follows it.
pub proof fn law_glyphs_tell_modes_apart(
    mode: Seq<char>,
    other: Seq<char>,
    glyphs: Map<Seq<char>, Seq<char>>,
)
    ensures
        glyphs.contains_key(mode) ==> glyph(mode, glyphs) == glyphs[mode].push(' '),
        ({
            let none = Map::<Seq<char>, Seq<char>>::empty();
            &&& glyph("resize"@, none) == seq!['\u{2194}', ' ']
            &&& glyph("manage"@, none) == seq!['\u{2699}', ' ']
            &&& mode != "resize"@ && mode != "manage"@ ==> glyph(mode, none) == seq!['\u{25CF}', ' ']
        }),
        mode != "resize"@ && mode != "manage"@ && other != "resize"@ && other != "manage"@
            ==> glyph_size(mode) == glyph_size(other) && glyph_size(mode) != glyph_size("resize"@)
            && glyph_size(mode) != glyph_size("manage"@),
        glyph_size("resize"@) != glyph_size("manage"@),
{
    reveal_strlit("resize");
    reveal_strlit("manage");
    reveal_strlit(" ");
    reveal_strlit("\u{2194} ");
    reveal_strlit("\u{2699} ");
    reveal_strlit("\u{25CF} ");
    assert("resize"@[0] == 'r' && "manage"@[0] == 'm');
    if glyphs.contains_key(mode) {
        assert(glyphs[mode] + " "@ =~= glyphs[mode].push(' '));
    }
    assert("\u{2194} "@ =~= seq!['\u{2194}', ' ']);
    assert("\u{2699} "@ =~= seq!['\u{2699}', ' ']);
    assert("\u{25CF} "@ =~= seq!['\u{25CF}', ' ']);
}

/// The spinner goes through ten frames, which all differ, and starts again.
pub proof fn law_spinner_has_ten_frames(i: int, j: int)
    requires
        0 <= i,
        0 <= j,
    ensures
        spinner_text(i + 10) == spinner_text(i),
        spinner_text(i) == spinner_text(j) ==> i % 10 == j % 10,
        spinner_text(i).len() == 2,
{
    reveal_strlit(" ");
    reveal_strlit("\u{280B}");
    reveal_strlit("\u{2819}");
    reveal_strlit("\u{2839}");
    reveal_strlit("\u{2838}");
    reveal_strlit("\u{283C}");
    reveal_strlit("\u{2834}");
    reveal_strlit("\u{2826}");
    reveal_strlit("\u{2827}");
    reveal_strlit("\u{2807}");
    reveal_strlit("\u{280F}");
    assert("\u{280B}"@.len() == 1 && "\u{280B}"@[0] == '\u{280B}');
    assert("\u{2819}"@.len() == 1 && "\u{2819}"@[0] == '\u{2819}');
    assert("\u{2839}"@.len() == 1 && "\u{2839}"@[0] == '\u{2839}');
    assert("\u{2838}"@.len() == 1 && "\u{2838}"@[0] == '\u{2838}');
    assert("\u{283C}"@.len() == 1 && "\u{283C}"@[0] == '\u{283C}');
    assert("\u{2834}"@.len() == 1 && "\u{2834}"@[0] == '\u{2834}');
    assert("\u{2826}"@.len() == 1 && "\u{2826}"@[0] == '\u{2826}');
    assert("\u{2827}"@.len() == 1 && "\u{2827}"@[0] == '\u{2827}');
    assert("\u{2807}"@.len() == 1 && "\u{2807}"@[0] == '\u{2807}');
    assert("\u{280F}"@.len() == 1 && "\u{280F}"@[0] == '\u{280F}');
    let a = spinner_frames()[i % 10];
    let b = spinner_frames()[j % 10];
    assert(a.len() == 1 && b.len() == 1);
    assert(spinner_text(i)[0] == a[0]);
    assert(spinner_text(j)[0] == b[0]);
}

/// The character of a hexadecimal digit, in lower or upper case.
pub open spec fn hex_char(n: nat, upper: bool) -> char {
    if n < 10 {
        (48 + n) as u8 as char
    } else if upper {
        (55 + n) as u8 as char
    } else {
        (87 + n) as u8 as char
    }
}

/// Two hexadecimal digits.
pub open spec fn hex_text(n: nat, upper: bool) -> Seq<char> {
    seq![hex_char(n / 16, upper), hex_char(n % 16, upper)]
}

proof fn lemma_hex_char(n: nat, upper: bool)
    requires
        n < 16,
    ensures
        hex_value(hex_char(n, upper)) == Some(n),
        hex_char(n, upper) != '#',
{
}

/// A colour that is written as three pairs of hexadecimal digits, in letters of
/// either case, with or without a sharp before it, is read as itself: red, green
/// and blue.
pub proof fn law_colors_are_read_back(r: nat, g: nat, b: nat, upper: bool)
    requires
        r < 256 && g < 256 && b < 256,
    ensures
        ({
            let text = hex_text(r, upper) + hex_text(g, upper) + hex_text(b, upper);
            &&& color_of(text) == Some((r, g, b))
            &&& color_of(seq!['#'] + text) == Some((r, g, b))
        }),
{
    lemma_hex_char(r / 16, upper);
    lemma_hex_char(r % 16, upper);
    lemma_hex_char(g / 16, upper);
    lemma_hex_char(g % 16, upper);
    lemma_hex_char(b / 16, upper);
    lemma_hex_char(b % 16, upper);
    let text = hex_text(r, upper) + hex_text(g, upper) + hex_text(b, upper);
    assert(text.len() == 6);
    assert(text[0] == hex_char(r / 16, upper) && text[1] == hex_char(r % 16, upper));
    assert(text[2] == hex_char(g / 16, upper) && text[3] == hex_char(g % 16, upper));
    assert(text[4] == hex_char(b / 16, upper) && text[5] == hex_char(b % 16, upper));
    assert((seq!['#'] + text).skip(1) =~= text);
}

/// Three digits stand for two each; a text of any other length is no colour, nor
/// is one with a letter that is no digit.
pub proof fn law_short_colors_are_doubled(a: char, b: char, c: char, text: Seq<char>)
    ensures
        hex_value(a) is Some && hex_value(b) is Some && hex_value(c) is Some ==> color_of(
            seq![a, b, c],
        ) is Some && color_of(seq![a, b, c]) == color_of(seq![a, a, b, b, c, c]),
        text.len() != 3 && text.len() != 4 && text.len() != 6 && text.len() != 7 ==> color_of(text)
            is None,
        hex_value(c) is None ==> color_of(seq![a, b, c]) is None || a == '#',
{
}

/// The menu has a line for each workspace, in order, which switches to it, and
/// ends with the lines for the settings and for quitting, which do just that.
/// Without a daemon there is a line that does nothing instead.
pub proof fn law_menu_lines_do_what_they_say(
    current: Option<Seq<char>>,
    ws: Seq<WorkspaceInfo>,
    count: bool,
    i: int,
)
    ensures
        ({
            let m = menu_lines(current, ws, count);
            let n = m.len() as int;
            &&& n == ws.len() + (if ws.len() > 0 {
                3int
            } else {
                2int
            })
            &&& 0 <= i < ws.len() ==> (m[i] matches LineView::Item { id, label: l, enabled } && clicked(
                id,
            ) == MenuActionView::Switch(ws[i].name@) && enabled && l == label(
                ws[i],
                current == Some(ws[i].name@),
                count,
            ))
            &&& ws.len() > 0 ==> m[ws.len() as int] is Separator
            &&& m[n - 2] matches LineView::Item { id, label: l, enabled } && clicked(id)
                == MenuActionView::OpenSettings && enabled
            &&& m[n - 1] matches LineView::Item { id, label: l, enabled } && clicked(id)
                == MenuActionView::Quit && enabled
        }),
        connecting_lines()[0] matches LineView::Item { id, label: l, enabled } && clicked(id)
            == MenuActionView::Nothing && !enabled,
        connecting_lines().skip(2) == static_lines(),
{
    let m = menu_lines(current, ws, count);
    if 0 <= i < ws.len() {
        law_workspace_line_switches(ws[i], current, count);
        assert(m[i] == workspace_item(ws[i], current, count));
    }
    reveal_strlit("workspace:");
    reveal_strlit("open-settings");
    reveal_strlit("quit");
    reveal_strlit("status");
    assert("workspace:"@.len() == 10 && "workspace:"@[0] == 'w');
    assert("open-settings"@.len() == 13 && "open-settings"@[0] == 'o');
    assert("quit"@.len() == 4 && "status"@.len() == 6);
    assert("open-settings"@.subrange(0, 10)[0] == 'o');
    assert(without_prefix("open-settings"@, "workspace:"@) is None);
    assert(without_prefix("quit"@, "workspace:"@) is None);
    assert(without_prefix("status"@, "workspace:"@) is None);
    assert("quit"@[0] == 'q' && "status"@[0] == 's');
    assert(m[m.len() - 2] == static_lines()[0]);
    assert(m[m.len() - 1] == static_lines()[1]);
    assert(connecting_lines().skip(2) =~= static_lines());
}

/// Once a poll came back, the badge says what is shown, or the program's name,
/// in the current mode, and is visible; every workspace in the menu has its
/// label; and the menu is built anew exactly if what it depends on changed.
pub proof fn law_badge_tells_what_is_shown(s: MenuStateView, snap: Snapshot, i: int)
    ensures
        ({
            let (after, steps) = applied(s, Some(snap));
            let text = if snap.current is Some {
                snap.current->0@
            } else {
                "tili"@
            };
            let count = if snap.style is Some {
                snap.style->0.show_window_count
            } else {
                s.style.show_window_count
            };
            &&& after.visible && after.connected == Some(true)
            &&& steps.contains(BadgeStepView::Show) <==> !s.visible
            &&& steps.contains(BadgeStepView::Badge { text, mode: snap.mode@ })
            &&& snap.style is Some ==> after.style == snap.style->0@
            &&& after.key == Some(key_of(snap))
            &&& s.key != Some(key_of(snap)) ==> steps.contains(
                BadgeStepView::Menu(menu_lines(opt_text(snap.current), snap.workspaces@, count)),
            ) && after.items == names_of(snap.workspaces@)
            &&& s.key == Some(key_of(snap)) ==> after.items == s.items
            &&& 0 <= i < snap.workspaces@.len() && s.items.contains(snap.workspaces@[i].name@)
                ==> steps.contains(
                BadgeStepView::SetLabel {
                    workspace: snap.workspaces@[i].name@,
                    label: label(
                        snap.workspaces@[i],
                        opt_text(snap.current) == Some(snap.workspaces@[i].name@),
                        count,
                    ),
                },
            )
        }),
{
    let (after, steps) = applied(s, Some(snap));
    let style = style_after(s, snap);
    let current = opt_text(snap.current);
    let ws = snap.workspaces@;
    let badge = BadgeStepView::Badge { text: badge_text(current), mode: snap.mode@ };
    let head = shown_first(s).push(badge);
    let labels = relabelled(s.items, ws, current, style.show_window_count);
    lemma_relabelled(s.items, ws, current, style.show_window_count);
    assert(steps[head.len() - 1] == badge);
    if !s.visible {
        assert(steps[0] == BadgeStepView::Show);
    }
    if steps.contains(BadgeStepView::Show) && s.visible {
        let k = steps.index_of(BadgeStepView::Show);
        if k >= 1 && k < 1 + labels.len() {
            assert(steps[k] == labels[k - 1]);
        }
    }
    if s.key != Some(key_of(snap)) {
        assert(steps[steps.len() - 1] is Menu);
        assert(steps.contains(steps[steps.len() - 1]));
    }
    if 0 <= i < ws.len() && s.items.contains(ws[i].name@) {
        lemma_relabels(s.items, ws, current, style.show_window_count, i);
        let x = BadgeStepView::SetLabel {
            workspace: ws[i].name@,
            label: label(ws[i], current == Some(ws[i].name@), style.show_window_count),
        };
        let k = labels.index_of(x);
        assert(steps[head.len() + k] == x);
    }
}

proof fn lemma_relabels(
    items: Seq<Seq<char>>,
    ws: Seq<WorkspaceInfo>,
    current: Option<Seq<char>>,
    count: bool,
    i: int,
)
    requires
        0 <= i < ws.len(),
        items.contains(ws[i].name@),
    ensures
        relabelled(items, ws, current, count).contains(
            BadgeStepView::SetLabel {
                workspace: ws[i].name@,
                label: label(ws[i], current == Some(ws[i].name@), count),
            },
        ),
    decreases ws.len(),
{
    let init = ws.drop_last();
    let a = relabelled(items, init, current, count);
    let b = relabelled(items, ws, current, count);
    let x = BadgeStepView::SetLabel {
        workspace: ws[i].name@,
        label: label(ws[i], current == Some(ws[i].name@), count),
    };
    if i < init.len() {
        assert(init[i] == ws[i]);
        lemma_relabels(items, init, current, count, i);
        let k = a.index_of(x);
        assert(b[k] == x);
    } else {
        assert(b[b.len() - 1] == x);
    }
}

/// The menu depends on what is shown, on the mode, and on which workspaces there
/// are, in whatever order.
pub proof fn law_menu_depends_on_what_it_shows(a: Snapshot, b: Snapshot)
    ensures
        key_of(a) == key_of(b) ==> opt_text(a.current) == opt_text(b.current) && a.mode@ == b.mode@
            && names_of(a.workspaces@).to_multiset() == names_of(b.workspaces@).to_multiset(),
{
    law_in_order(names_of(a.workspaces@));
    law_in_order(names_of(b.workspaces@));
}

/// Without a daemon the badge shows a spinner, and the menu says so from the
/// first failed poll on; the menu for workspaces is forgotten.
pub proof fn law_badge_spins_without_a_daemon(s: MenuStateView)
    ensures
        ({
            let (after, steps) = applied(s, None);
            &&& after.visible && after.connected == Some(false)
            &&& steps.contains(BadgeStepView::Show) <==> !s.visible
            &&& steps.last() == (BadgeStepView::ConnectingBadge { frame: after.spinner_frame })
            &&& steps.contains(BadgeStepView::Menu(connecting_lines())) <==> s.connected != Some(
                false,
            )
            &&& s.connected != Some(false) ==> after.key is None && after.items.len() == 0
                && after.spinner_frame == 0
            &&& after.style == s.style
        }),
{
    let (after, steps) = applied(s, None);
    assert(steps.contains(steps[0]));
    if steps.len() > 1 {
        assert(steps.contains(steps[1]));
    }
}

/// The user's editor is tried first, if there is one, then what the system
/// opens such files with, then a plain editor.
pub proof fn law_openers_are_tried_in_turn(editor: Option<Seq<char>>, r: Seq<Opener>)
    requires
        tried_in_turn(editor, r),
    ensures
        r.len() >= 2,
        r.last() is TextEdit,
        r[r.len() - 2] is Default,
        r[0] is Editor <==> editor is Some && editor->0.len() > 0,
        r[0] matches Opener::Editor(t) ==> Some(t@) == editor,
{
}

}
