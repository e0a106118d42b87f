//! The configuration, as it stands in a KDL document.

use vstd::prelude::*;
use crate::document::{
    node_view, nodes_view, read_kdl, kdl_parsed, Entry, EntryView, Node, NodeView, Value, ValueView,
};
use crate::placement::FloatingRuleMode;
use crate::table::Table;
use crate::text::{join2, opt_text, same_text};

verus! {

#[derive(Debug, Clone, PartialEq, Eq)]
pub struct WorkspaceConfig {
    pub name: String,
    pub monitor: Option<String>,
}

#[derive(Debug, Clone, Copy, PartialEq, Eq)]
pub struct Gaps {
    pub inner: u32,
    /// Top, right, bottom, left.
    pub outer: (u32, u32, u32, u32),
}

#[derive(Debug, Clone, PartialEq, Eq)]
pub struct Keybinding {
    pub key: String,
    pub command: String,
}

#[derive(Debug, Clone, PartialEq, Eq)]
pub struct KeybindingMode {
    pub name: String,
    /// Whether the mode is left once a command bound in it has run.
    pub auto_exit: bool,
    pub bindings: Vec<Keybinding>,
}

/// Which workspace the windows of an application start on.
#[derive(Debug, Clone, PartialEq, Eq)]
pub struct WorkspaceRule {
    pub app_id: String,
    pub workspace: String,
}

#[derive(Debug, Clone, PartialEq, Eq)]
pub struct FloatingRule {
    pub app_id: String,
    /// A pattern that the window's title has to match.
    pub title: Option<String>,
    pub width: Option<u32>,
    pub height: Option<u32>,
    pub center: Option<bool>,
    pub mode: FloatingRuleMode,
}

/// A share of a monitor's width or height, as written: a whole number, or the
/// bit pattern of an IEEE 754 double.
#[derive(Debug, Clone, Copy, PartialEq, Eq, Structural)]
pub enum Ratio {
    Whole(i128),
    Double(u64),
}

/// The bit pattern of the double nearest to six tenths.
pub const SIX_TENTHS: u64 = 0x3FE3_3333_3333_3333;

/// How a floating window is placed where its rule does not say.
#[derive(Debug, Clone, Copy, PartialEq, Eq, Structural)]
pub struct FloatingDefaults {
    pub center: bool,
    pub width_ratio: Ratio,
    pub height_ratio: Ratio,
}

#[derive(Debug, Clone, PartialEq, Eq)]
pub struct Settings {
    pub mouse_follows_focus: bool,
    pub focus_follows_monitor: bool,
    pub auto_reload: bool,
    /// The workspace that is shown at first.
    pub default_workspace: Option<String>,
    /// How many points of a stacked window peek out from behind another.
    pub accordion_padding: u32,
    /// `horizontal`, `vertical`, or anything else for the monitor's shape to
    /// decide.
    pub default_root_orientation: String,
}

/// The whole configuration.
pub struct Config {
    pub workspaces: Vec<WorkspaceConfig>,
    pub default_layout: Option<String>,
    pub gaps: Gaps,
    pub workspace_gaps: Table<String, Gaps>,
    pub settings: Settings,
    pub keybindings: Vec<KeybindingMode>,
    /// The first match wins.
    pub workspace_rules: Vec<WorkspaceRule>,
    /// The first match wins.
    pub floating_rules: Vec<FloatingRule>,
    pub floating_defaults: FloatingDefaults,
}

#[derive(Debug, PartialEq, Eq)]
pub enum ConfigError {
    Parse(String),
}

impl ConfigError {
    /// The error in words.
    pub fn message(&self) -> (r: String)
        ensures
            r@ == "config parse error: "@ + (match *self {
                ConfigError::Parse(m) => m@,
            }),
    {
        match self {
            ConfigError::Parse(m) => join2("config parse error: ", m.as_str()),
        }
    }
}

pub struct WorkspaceConfigView {
    pub name: Seq<char>,
    pub monitor: Option<Seq<char>>,
}

pub struct KeybindingView {
    pub key: Seq<char>,
    pub command: Seq<char>,
}

pub struct KeybindingModeView {
    pub name: Seq<char>,
    pub auto_exit: bool,
    pub bindings: Seq<KeybindingView>,
}

pub struct WorkspaceRuleView {
    pub app_id: Seq<char>,
    pub workspace: Seq<char>,
}

pub struct FloatingRuleView {
    pub app_id: Seq<char>,
    pub title: Option<Seq<char>>,
    pub width: Option<u32>,
    pub height: Option<u32>,
    pub center: Option<bool>,
    pub mode: FloatingRuleMode,
}

pub struct SettingsView {
    pub mouse_follows_focus: bool,
    pub focus_follows_monitor: bool,
    pub auto_reload: bool,
    pub default_workspace: Option<Seq<char>>,
    pub accordion_padding: u32,
    pub default_root_orientation: Seq<char>,
}

pub struct ConfigView {
    pub workspaces: Seq<WorkspaceConfigView>,
    pub default_layout: Option<Seq<char>>,
    pub gaps: Gaps,
    pub workspace_gaps: Map<Seq<char>, Gaps>,
    pub settings: SettingsView,
    pub keybindings: Seq<KeybindingModeView>,
    pub workspace_rules: Seq<WorkspaceRuleView>,
    pub floating_rules: Seq<FloatingRuleView>,
    pub floating_defaults: FloatingDefaults,
}

impl View for Gaps {
    type V = Gaps;

    open spec fn view(&self) -> Gaps {
        *self
    }
}

impl View for WorkspaceConfig {
    type V = WorkspaceConfigView;

    open spec fn view(&self) -> WorkspaceConfigView {
        WorkspaceConfigView { name: self.name@, monitor: opt_text(self.monitor) }
    }
}

impl View for Keybinding {
    type V = KeybindingView;

    open spec fn view(&self) -> KeybindingView {
        KeybindingView { key: self.key@, command: self.command@ }
    }
}

impl View for KeybindingMode {
    type V = KeybindingModeView;

    open spec fn view(&self) -> KeybindingModeView {
        KeybindingModeView {
            name: self.name@,
            auto_exit: self.auto_exit,
            bindings: views(self.bindings@),
        }
    }
}

impl View for WorkspaceRule {
    type V = WorkspaceRuleView;

    open spec fn view(&self) -> WorkspaceRuleView {
        WorkspaceRuleView { app_id: self.app_id@, workspace: self.workspace@ }
    }
}

impl View for FloatingRule {
    type V = FloatingRuleView;

    open spec fn view(&self) -> FloatingRuleView {
        FloatingRuleView {
            app_id: self.app_id@,
            title: opt_text(self.title),
            width: self.width,
            height: self.height,
            center: self.center,
            mode: self.mode,
        }
    }
}

impl View for Settings {
    type V = SettingsView;

    open spec fn view(&self) -> SettingsView {
        SettingsView {
            mouse_follows_focus: self.mouse_follows_focus,
            focus_follows_monitor: self.focus_follows_monitor,
            auto_reload: self.auto_reload,
            default_workspace: opt_text(self.default_workspace),
            accordion_padding: self.accordion_padding,
            default_root_orientation: self.default_root_orientation@,
        }
    }
}

impl View for Config {
    type V = ConfigView;

    open spec fn view(&self) -> ConfigView {
        ConfigView {
            workspaces: views(self.workspaces@),
            default_layout: opt_text(self.default_layout),
            gaps: self.gaps,
            workspace_gaps: self.workspace_gaps@,
            settings: self.settings@,
            keybindings: views(self.keybindings@),
            workspace_rules: views(self.workspace_rules@),
            floating_rules: views(self.floating_rules@),
            floating_defaults: self.floating_defaults,
        }
    }
}

impl Config {
    pub open spec fn wf(&self) -> bool {
        self.workspace_gaps.wf()
    }
}

/// The views of a sequence of values.
pub open spec fn views<T: View>(s: Seq<T>) -> Seq<T::V> {
    s.map_values(|x: T| x@)
}

/// What `f` makes of the elements of `s`, without those of which it makes
/// nothing.
pub open spec fn filter_map<A, B>(s: Seq<A>, f: spec_fn(A) -> Option<B>) -> Seq<B>
    decreases s.len(),
{
    if s.len() == 0 {
        Seq::empty()
    } else {
        match f(s.last()) {
            Some(b) => filter_map(s.drop_last(), f).push(b),
            None => filter_map(s.drop_last(), f),
        }
    }
}

pub proof fn lemma_filter_map_step<A, B>(s: Seq<A>, f: spec_fn(A) -> Option<B>, i: int)
    requires
        0 <= i < s.len(),
    ensures
        filter_map(s.take(i + 1), f) == (match f(s[i]) {
            Some(b) => filter_map(s.take(i), f).push(b),
            None => filter_map(s.take(i), f),
        }),
{
    assert(s.take(i + 1).drop_last() =~= s.take(i));
    assert(s.take(i + 1).last() == s[i]);
}

/// The first node called `name` at or after place `from`.
pub open spec fn named_from(nodes: Seq<NodeView>, name: Seq<char>, from: int) -> Option<NodeView>
    decreases nodes.len() - from,
{
    if from < 0 || from >= nodes.len() {
        None
    } else if nodes[from].name == name {
        Some(nodes[from])
    } else {
        named_from(nodes, name, from + 1)
    }
}

/// The first node called `name`.
pub open spec fn first_named(nodes: Seq<NodeView>, name: Seq<char>) -> Option<NodeView> {
    named_from(nodes, name, 0)
}

/// The value of the `k`-th argument at or after place `from`.
pub open spec fn arg_from(entries: Seq<EntryView>, k: nat, from: int) -> Option<ValueView>
    decreases entries.len() - from,
{
    if from < 0 || from >= entries.len() {
        None
    } else if entries[from].name is Some {
        arg_from(entries, k, from + 1)
    } else if k == 0 {
        Some(entries[from].value)
    } else {
        arg_from(entries, (k - 1) as nat, from + 1)
    }
}

/// The value of a node's `k`-th argument, counted from zero.
pub open spec fn arg(n: NodeView, k: nat) -> Option<ValueView> {
    arg_from(n.entries, k, 0)
}

/// The value of the last property called `name` before place `end`.
pub open spec fn prop_before(entries: Seq<EntryView>, name: Seq<char>, end: int) -> Option<ValueView>
    decreases end,
{
    if end <= 0 || end > entries.len() {
        None
    } else if entries[end - 1].name == Some(name) {
        Some(entries[end - 1].value)
    } else {
        prop_before(entries, name, end - 1)
    }
}

/// The value of a node's property: where it is written twice, the later one.
pub open spec fn prop(n: NodeView, name: Seq<char>) -> Option<ValueView> {
    prop_before(n.entries, name, n.entries.len() as int)
}

/// The first argument of the first node called `name`.
pub open spec fn setting(nodes: Seq<NodeView>, name: Seq<char>) -> Option<ValueView> {
    match first_named(nodes, name) {
        Some(n) => arg(n, 0),
        None => None,
    }
}

/// The children of the first node called `name`.
pub open spec fn block(nodes: Seq<NodeView>, name: Seq<char>) -> Option<Seq<NodeView>> {
    match first_named(nodes, name) {
        Some(n) => n.children,
        None => None,
    }
}

pub open spec fn as_text(v: Option<ValueView>) -> Option<Seq<char>> {
    match v {
        Some(ValueView::Text(t)) => Some(t),
        _ => None,
    }
}

pub open spec fn as_bool(v: Option<ValueView>) -> Option<bool> {
    match v {
        Some(ValueView::Bool(b)) => Some(b),
        _ => None,
    }
}

/// A whole number that fits an unsigned word.
pub open spec fn as_u32(v: Option<ValueView>) -> Option<u32> {
    match v {
        Some(ValueView::Integer(i)) => if 0 <= i <= u32::MAX {
            Some(i as u32)
        } else {
            None
        },
        _ => None,
    }
}

/// A number, whole or not.
pub open spec fn as_ratio(v: Option<ValueView>) -> Option<Ratio> {
    match v {
        Some(ValueView::Float(b)) => Some(Ratio::Double(b)),
        Some(ValueView::Integer(i)) => Some(Ratio::Whole(i)),
        _ => None,
    }
}

pub open spec fn or_default<T>(v: Option<T>, default: T) -> T {
    match v {
        Some(x) => x,
        None => default,
    }
}

fn text_value(v: Option<&Value>) -> (r: Option<String>)
    ensures
        opt_text(r) == as_text(opt_value(v)),
{
    match v {
        Some(Value::Text(t)) => Some(t.clone()),
        _ => None,
    }
}

fn bool_value(v: Option<&Value>) -> (r: Option<bool>)
    ensures
        r == as_bool(opt_value(v)),
{
    match v {
        Some(Value::Bool(b)) => Some(*b),
        _ => None,
    }
}

fn u32_value(v: Option<&Value>) -> (r: Option<u32>)
    ensures
        r == as_u32(opt_value(v)),
{
    match v {
        Some(Value::Integer(i)) => if 0 <= *i && *i <= u32::MAX as i128 {
            Some(*i as u32)
        } else {
            None
        },
        _ => None,
    }
}

fn ratio_value(v: Option<&Value>) -> (r: Option<Ratio>)
    ensures
        r == as_ratio(opt_value(v)),
{
    match v {
        Some(Value::Float(b)) => Some(Ratio::Double(*b)),
        Some(Value::Integer(i)) => Some(Ratio::Whole(*i)),
        _ => None,
    }
}

pub open spec fn opt_value(v: Option<&Value>) -> Option<ValueView> {
    match v {
        Some(x) => Some(x@),
        None => None,
    }
}

pub open spec fn opt_node(n: Option<&Node>) -> Option<NodeView> {
    match n {
        Some(x) => Some(node_view(*x)),
        None => None,
    }
}

pub open spec fn opt_nodes(n: Option<&Vec<Node>>) -> Option<Seq<NodeView>> {
    match n {
        Some(x) => Some(nodes_view(x@)),
        None => None,
    }
}

fn find_named<'a>(nodes: &'a Vec<Node>, name: &str) -> (r: Option<&'a Node>)
    ensures
        opt_node(r) == first_named(nodes_view(nodes@), name@),
{
    let ghost s = nodes_view(nodes@);
    let mut i: usize = 0;
    while i < nodes.len()
        invariant
            i <= nodes.len(),
            s == nodes_view(nodes@),
            first_named(s, name@) == named_from(s, name@, i as int),
        decreases nodes.len() - i,
    {
        assert(s[i as int] == node_view(nodes@[i as int]));
        if same_text(nodes[i].name.as_str(), name) {
            return Some(&nodes[i]);
        }
        i = i + 1;
    }
    None
}

fn find_block<'a>(nodes: &'a Vec<Node>, name: &str) -> (r: Option<&'a Vec<Node>>)
    ensures
        opt_nodes(r) == block(nodes_view(nodes@), name@),
{
    match find_named(nodes, name) {
        Some(n) => n.children.as_ref(),
        None => None,
    }
}

fn find_arg<'a>(n: &'a Node, k: usize) -> (r: Option<&'a Value>)
    ensures
        opt_value(r) == arg(node_view(*n), k as nat),
{
    let ghost s = node_view(*n).entries;
    let mut left: usize = k;
    let mut i: usize = 0;
    while i < n.entries.len()
        invariant
            i <= n.entries.len(),
            s == node_view(*n).entries,
            arg_from(s, k as nat, 0) == arg_from(s, left as nat, i as int),
        decreases n.entries.len() - i,
    {
        let e: &Entry = &n.entries[i];
        assert(s[i as int] == e@);
        if e.name.is_none() {
            if left == 0 {
                return Some(&e.value);
            }
            left = left - 1;
        }
        i = i + 1;
    }
    None
}

fn find_prop<'a>(n: &'a Node, name: &str) -> (r: Option<&'a Value>)
    ensures
        opt_value(r) == prop(node_view(*n), name@),
{
    let ghost s = node_view(*n).entries;
    let mut end: usize = n.entries.len();
    while end > 0
        invariant
            end <= n.entries.len(),
            s == node_view(*n).entries,
            s.len() == n.entries@.len(),
            prop(node_view(*n), name@) == prop_before(s, name@, end as int),
        decreases end,
    {
        let e: &Entry = &n.entries[end - 1];
        assert(s[end - 1] == e@);
        match &e.name {
            Some(key) => {
                if same_text(key.as_str(), name) {
                    return Some(&e.value);
                }
            },
            None => {},
        }
        end = end - 1;
    }
    None
}

fn find_setting<'a>(nodes: &'a Vec<Node>, name: &str) -> (r: Option<&'a Value>)
    ensures
        opt_value(r) == setting(nodes_view(nodes@), name@),
{
    match find_named(nodes, name) {
        Some(n) => find_arg(n, 0),
        None => None,
    }
}

/// A workspace declaration: its name is the first argument.
pub open spec fn workspace_of(n: NodeView) -> Option<WorkspaceConfigView> {
    if n.name != "workspace"@ {
        None
    } else {
        match as_text(arg(n, 0)) {
            Some(name) => Some(
                WorkspaceConfigView { name, monitor: as_text(prop(n, "monitor"@)) },
            ),
            None => None,
        }
    }
}

/// The declared workspaces, in order.
pub open spec fn workspaces_of(doc: Seq<NodeView>) -> Seq<WorkspaceConfigView> {
    match block(doc, "workspaces"@) {
        Some(nodes) => filter_map(nodes, |n: NodeView| workspace_of(n)),
        None => Seq::empty(),
    }
}

fn parse_workspaces(doc: &Vec<Node>) -> (r: Vec<WorkspaceConfig>)
    ensures
        views(r@) == workspaces_of(nodes_view(doc@)),
{
    let mut out: Vec<WorkspaceConfig> = Vec::new();
    assert(views(out@) =~= Seq::empty());
    let nodes: &Vec<Node> = match find_block(doc, "workspaces") {
        Some(nodes) => nodes,
        None => {
            return out;
        },
    };
    let ghost s = nodes_view(nodes@);
    let ghost f = |n: NodeView| workspace_of(n);
    assert(s.take(0) =~= Seq::empty());
    let mut i: usize = 0;
    while i < nodes.len()
        invariant
            i <= nodes.len(),
            s == nodes_view(nodes@),
            f == |n: NodeView| workspace_of(n),
            views(out@) == filter_map(s.take(i as int), f),
        decreases nodes.len() - i,
    {
        let n: &Node = &nodes[i];
        let ghost before = views(out@);
        proof {
            assert(s[i as int] == node_view(*n));
            lemma_filter_map_step(s, f, i as int);
        }
        if same_text(n.name.as_str(), "workspace") {
            match text_value(find_arg(n, 0)) {
                Some(name) => {
                    let w: WorkspaceConfig = WorkspaceConfig {
                        name,
                        monitor: text_value(find_prop(n, "monitor")),
                    };
                    out.push(w);
                    assert(views(out@) =~= before.push(w@));
                },
                None => {},
            }
        }
        i = i + 1;
    }
    assert(s.take(i as int) =~= s);
    out
}

/// A binding: a key and a command.
pub open spec fn binding_of(n: NodeView) -> Option<KeybindingView> {
    if n.name != "bind"@ {
        None
    } else {
        match (as_text(arg(n, 0)), as_text(arg(n, 1))) {
            (Some(key), Some(command)) => Some(KeybindingView { key, command }),
            _ => None,
        }
    }
}

/// A block of keybindings: it has to name its mode.
pub open spec fn mode_of(n: NodeView) -> Option<KeybindingModeView> {
    if n.name != "keybindings"@ {
        None
    } else {
        match (as_text(prop(n, "mode"@)), n.children) {
            (Some(name), Some(nodes)) => Some(
                KeybindingModeView {
                    name,
                    auto_exit: or_default(as_bool(prop(n, "auto-exit"@)), false),
                    bindings: filter_map(nodes, |b: NodeView| binding_of(b)),
                },
            ),
            _ => None,
        }
    }
}

/// Every block of keybindings, in order.
pub open spec fn keybindings_of(doc: Seq<NodeView>) -> Seq<KeybindingModeView> {
    filter_map(doc, |n: NodeView| mode_of(n))
}

fn parse_bindings(nodes: &Vec<Node>) -> (r: Vec<Keybinding>)
    ensures
        views(r@) == filter_map(nodes_view(nodes@), |b: NodeView| binding_of(b)),
{
    let mut out: Vec<Keybinding> = Vec::new();
    assert(views(out@) =~= Seq::empty());
    let ghost s = nodes_view(nodes@);
    let ghost f = |b: NodeView| binding_of(b);
    assert(s.take(0) =~= Seq::empty());
    let mut i: usize = 0;
    while i < nodes.len()
        invariant
            i <= nodes.len(),
            s == nodes_view(nodes@),
            f == |b: NodeView| binding_of(b),
            views(out@) == filter_map(s.take(i as int), f),
        decreases nodes.len() - i,
    {
        let n: &Node = &nodes[i];
        let ghost before = views(out@);
        proof {
            assert(s[i as int] == node_view(*n));
            lemma_filter_map_step(s, f, i as int);
        }
        if same_text(n.name.as_str(), "bind") {
            match (text_value(find_arg(n, 0)), text_value(find_arg(n, 1))) {
                (Some(key), Some(command)) => {
                    let b: Keybinding = Keybinding { key, command };
                    out.push(b);
                    assert(views(out@) =~= before.push(b@));
                },
                _ => {},
            }
        }
        i = i + 1;
    }
    assert(s.take(i as int) =~= s);
    out
}

fn parse_keybindings(doc: &Vec<Node>) -> (r: Vec<KeybindingMode>)
    ensures
        views(r@) == keybindings_of(nodes_view(doc@)),
{
    let mut out: Vec<KeybindingMode> = Vec::new();
    assert(views(out@) =~= Seq::empty());
    let ghost s = nodes_view(doc@);
    let ghost f = |n: NodeView| mode_of(n);
    assert(s.take(0) =~= Seq::empty());
    let mut i: usize = 0;
    while i < doc.len()
        invariant
            i <= doc.len(),
            s == nodes_view(doc@),
            f == |n: NodeView| mode_of(n),
            views(out@) == filter_map(s.take(i as int), f),
        decreases doc.len() - i,
    {
        let n: &Node = &doc[i];
        let ghost before = views(out@);
        proof {
            assert(s[i as int] == node_view(*n));
            lemma_filter_map_step(s, f, i as int);
        }
        if same_text(n.name.as_str(), "keybindings") {
            match (text_value(find_prop(n, "mode")), &n.children) {
                (Some(name), Some(nodes)) => {
                    let auto_exit: bool = match bool_value(find_prop(n, "auto-exit")) {
                        Some(b) => b,
                        None => false,
                    };
                    let m: KeybindingMode = KeybindingMode {
                        name,
                        auto_exit,
                        bindings: parse_bindings(nodes),
                    };
                    out.push(m);
                    assert(views(out@) =~= before.push(m@));
                },
                _ => {},
            }
        }
        i = i + 1;
    }
    assert(s.take(i as int) =~= s);
    out
}

/// A rule that says on which workspace an application's windows start.
pub open spec fn workspace_rule_of(n: NodeView) -> Option<WorkspaceRuleView> {
    if n.name != "rule"@ {
        None
    } else {
        match (as_text(prop(n, "app-id"@)), as_text(prop(n, "workspace"@))) {
            (Some(app_id), Some(workspace)) => Some(WorkspaceRuleView { app_id, workspace }),
            _ => None,
        }
    }
}

pub open spec fn workspace_rules_of(doc: Seq<NodeView>) -> Seq<WorkspaceRuleView> {
    match block(doc, "workspace-rules"@) {
        Some(nodes) => filter_map(nodes, |n: NodeView| workspace_rule_of(n)),
        None => Seq::empty(),
    }
}

fn parse_workspace_rules(doc: &Vec<Node>) -> (r: Vec<WorkspaceRule>)
    ensures
        views(r@) == workspace_rules_of(nodes_view(doc@)),
{
    let mut out: Vec<WorkspaceRule> = Vec::new();
    assert(views(out@) =~= Seq::empty());
    let nodes: &Vec<Node> = match find_block(doc, "workspace-rules") {
        Some(nodes) => nodes,
        None => {
            return out;
        },
    };
    let ghost s = nodes_view(nodes@);
    let ghost f = |n: NodeView| workspace_rule_of(n);
    assert(s.take(0) =~= Seq::empty());
    let mut i: usize = 0;
    while i < nodes.len()
        invariant
            i <= nodes.len(),
            s == nodes_view(nodes@),
            f == |n: NodeView| workspace_rule_of(n),
            views(out@) == filter_map(s.take(i as int), f),
        decreases nodes.len() - i,
    {
        let n: &Node = &nodes[i];
        let ghost before = views(out@);
        proof {
            assert(s[i as int] == node_view(*n));
            lemma_filter_map_step(s, f, i as int);
        }
        if same_text(n.name.as_str(), "rule") {
            match (text_value(find_prop(n, "app-id")), text_value(find_prop(n, "workspace"))) {
                (Some(app_id), Some(workspace)) => {
                    let w: WorkspaceRule = WorkspaceRule { app_id, workspace };
                    out.push(w);
                    assert(views(out@) =~= before.push(w@));
                },
                _ => {},
            }
        }
        i = i + 1;
    }
    assert(s.take(i as int) =~= s);
    out
}

/// What a rule's `mode` says: a floating rule floats unless it says otherwise.
pub open spec fn rule_mode_of(mode: Option<Seq<char>>) -> FloatingRuleMode {
    if mode == Some("tile"@) {
        FloatingRuleMode::Tile
    } else if mode == Some("ignore"@) {
        FloatingRuleMode::Ignore
    } else {
        FloatingRuleMode::Float
    }
}

fn rule_mode(mode: Option<String>) -> (r: FloatingRuleMode)
    ensures
        r == rule_mode_of(opt_text(mode)),
{
    match mode {
        Some(m) => {
            if same_text(m.as_str(), "tile") {
                FloatingRuleMode::Tile
            } else if same_text(m.as_str(), "ignore") {
                FloatingRuleMode::Ignore
            } else {
                FloatingRuleMode::Float
            }
        },
        None => FloatingRuleMode::Float,
    }
}

/// The first argument of the first node called `name` in a block, if there is
/// a block.
pub open spec fn inner_setting(nodes: Option<Seq<NodeView>>, name: Seq<char>) -> Option<ValueView> {
    match nodes {
        Some(s) => setting(s, name),
        None => None,
    }
}

fn find_inner<'a>(nodes: &'a Option<Vec<Node>>, name: &str) -> (r: Option<&'a Value>)
    ensures
        opt_value(r) == inner_setting(
            match *nodes {
                Some(s) => Some(nodes_view(s@)),
                None => None,
            },
            name@,
        ),
{
    match nodes {
        Some(s) => find_setting(s, name),
        None => None,
    }
}

/// A floating rule: it has to name an application.
pub open spec fn floating_rule_of(n: NodeView) -> Option<FloatingRuleView> {
    if n.name != "rule"@ {
        None
    } else {
        match as_text(prop(n, "app-id"@)) {
            Some(app_id) => Some(
                FloatingRuleView {
                    app_id,
                    title: as_text(prop(n, "title"@)),
                    width: as_u32(inner_setting(n.children, "width"@)),
                    height: as_u32(inner_setting(n.children, "height"@)),
                    center: as_bool(inner_setting(n.children, "center"@)),
                    mode: rule_mode_of(as_text(prop(n, "mode"@))),
                },
            ),
            None => None,
        }
    }
}

pub open spec fn floating_rules_of(doc: Seq<NodeView>) -> Seq<FloatingRuleView> {
    match block(doc, "floating-rules"@) {
        Some(nodes) => filter_map(nodes, |n: NodeView| floating_rule_of(n)),
        None => Seq::empty(),
    }
}

/// The defaults where none are written.
pub open spec fn plain_floating_defaults() -> FloatingDefaults {
    FloatingDefaults {
        center: true,
        width_ratio: Ratio::Double(SIX_TENTHS),
        height_ratio: Ratio::Double(SIX_TENTHS),
    }
}

impl Default for FloatingDefaults {
    fn default() -> (r: Self)
        ensures
            r == plain_floating_defaults(),
    {
        FloatingDefaults {
            center: true,
            width_ratio: Ratio::Double(SIX_TENTHS),
            height_ratio: Ratio::Double(SIX_TENTHS),
        }
    }
}

pub open spec fn floating_defaults_of(doc: Seq<NodeView>) -> FloatingDefaults {
    let nodes = match block(doc, "floating-rules"@) {
        Some(nodes) => block(nodes, "defaults"@),
        None => None,
    };
    let plain = plain_floating_defaults();
    FloatingDefaults {
        center: or_default(as_bool(inner_setting(nodes, "center"@)), plain.center),
        width_ratio: or_default(as_ratio(inner_setting(nodes, "width-ratio"@)), plain.width_ratio),
        height_ratio: or_default(as_ratio(inner_setting(nodes, "height-ratio"@)), plain.height_ratio),
    }
}

fn parse_floating_rules(doc: &Vec<Node>) -> (r: (Vec<FloatingRule>, FloatingDefaults))
    ensures
        views(r.0@) == floating_rules_of(nodes_view(doc@)),
        r.1 == floating_defaults_of(nodes_view(doc@)),
{
    let mut out: Vec<FloatingRule> = Vec::new();
    let mut defaults: FloatingDefaults = FloatingDefaults::default();
    assert(views(out@) =~= Seq::empty());
    let nodes: &Vec<Node> = match find_block(doc, "floating-rules") {
        Some(nodes) => nodes,
        None => {
            return (out, defaults);
        },
    };
    let ghost s = nodes_view(nodes@);
    let ghost f = |n: NodeView| floating_rule_of(n);
    assert(s.take(0) =~= Seq::empty());
    let mut i: usize = 0;
    while i < nodes.len()
        invariant
            i <= nodes.len(),
            s == nodes_view(nodes@),
            f == |n: NodeView| floating_rule_of(n),
            views(out@) == filter_map(s.take(i as int), f),
        decreases nodes.len() - i,
    {
        let n: &Node = &nodes[i];
        let ghost before = views(out@);
        proof {
            assert(s[i as int] == node_view(*n));
            lemma_filter_map_step(s, f, i as int);
        }
        if same_text(n.name.as_str(), "rule") {
            match text_value(find_prop(n, "app-id")) {
                Some(app_id) => {
                    let rule: FloatingRule = FloatingRule {
                        app_id,
                        title: text_value(find_prop(n, "title")),
                        width: u32_value(find_inner(&n.children, "width")),
                        height: u32_value(find_inner(&n.children, "height")),
                        center: bool_value(find_inner(&n.children, "center")),
                        mode: rule_mode(text_value(find_prop(n, "mode"))),
                    };
                    out.push(rule);
                    assert(views(out@) =~= before.push(rule@));
                },
                None => {},
            }
        }
        i = i + 1;
    }
    assert(s.take(i as int) =~= s);
    match find_block(nodes, "defaults") {
        Some(block) => {
            match bool_value(find_setting(block, "center")) {
                Some(v) => {
                    defaults.center = v;
                },
                None => {},
            }
            match ratio_value(find_setting(block, "width-ratio")) {
                Some(v) => {
                    defaults.width_ratio = v;
                },
                None => {},
            }
            match ratio_value(find_setting(block, "height-ratio")) {
                Some(v) => {
                    defaults.height_ratio = v;
                },
                None => {},
            }
        },
        None => {},
    }
    (out, defaults)
}

/// The settings where none are written.
pub open spec fn plain_settings() -> SettingsView {
    SettingsView {
        mouse_follows_focus: false,
        focus_follows_monitor: false,
        auto_reload: true,
        default_workspace: None,
        accordion_padding: 30,
        default_root_orientation: "auto"@,
    }
}

impl Default for Settings {
    fn default() -> (r: Self)
        ensures
            r@ == plain_settings(),
    {
        Settings {
            mouse_follows_focus: false,
            focus_follows_monitor: false,
            auto_reload: true,
            default_workspace: None,
            accordion_padding: 30,
            default_root_orientation: "auto".to_owned(),
        }
    }
}

pub open spec fn settings_of(doc: Seq<NodeView>) -> SettingsView {
    let nodes = block(doc, "settings"@);
    let plain = plain_settings();
    SettingsView {
        mouse_follows_focus: or_default(
            as_bool(inner_setting(nodes, "mouse-follows-focus"@)),
            plain.mouse_follows_focus,
        ),
        focus_follows_monitor: or_default(
            as_bool(inner_setting(nodes, "focus-follows-monitor"@)),
            plain.focus_follows_monitor,
        ),
        auto_reload: or_default(as_bool(inner_setting(nodes, "auto-reload"@)), plain.auto_reload),
        default_workspace: as_text(inner_setting(nodes, "default-workspace"@)),
        accordion_padding: or_default(
            as_u32(inner_setting(nodes, "accordion-padding"@)),
            plain.accordion_padding,
        ),
        default_root_orientation: or_default(
            as_text(inner_setting(nodes, "default-root-orientation"@)),
            plain.default_root_orientation,
        ),
    }
}

fn parse_settings(doc: &Vec<Node>) -> (r: Settings)
    ensures
        r@ == settings_of(nodes_view(doc@)),
{
    let mut settings: Settings = Settings::default();
    let nodes: &Vec<Node> = match find_block(doc, "settings") {
        Some(nodes) => nodes,
        None => {
            return settings;
        },
    };
    match bool_value(find_setting(nodes, "mouse-follows-focus")) {
        Some(v) => {
            settings.mouse_follows_focus = v;
        },
        None => {},
    }
    match bool_value(find_setting(nodes, "focus-follows-monitor")) {
        Some(v) => {
            settings.focus_follows_monitor = v;
        },
        None => {},
    }
    match bool_value(find_setting(nodes, "auto-reload")) {
        Some(v) => {
            settings.auto_reload = v;
        },
        None => {},
    }
    settings.default_workspace = text_value(find_setting(nodes, "default-workspace"));
    match u32_value(find_setting(nodes, "accordion-padding")) {
        Some(v) => {
            settings.accordion_padding = v;
        },
        None => {},
    }
    match text_value(find_setting(nodes, "default-root-orientation")) {
        Some(v) => {
            settings.default_root_orientation = v;
        },
        None => {},
    }
    settings
}

/// No gaps.
pub open spec fn no_gaps() -> Gaps {
    Gaps { inner: 0, outer: (0, 0, 0, 0) }
}

impl Default for Gaps {
    fn default() -> (r: Self)
        ensures
            r == no_gaps(),
    {
        Gaps { inner: 0, outer: (0, 0, 0, 0) }
    }
}

/// The first `k` arguments of a node that are whole numbers in range.
pub open spec fn numbers_of(n: NodeView, k: nat) -> Seq<u32>
    decreases k,
{
    if k == 0 {
        Seq::empty()
    } else {
        match as_u32(arg(n, (k - 1) as nat)) {
            Some(v) => numbers_of(n, (k - 1) as nat).push(v),
            None => numbers_of(n, (k - 1) as nat),
        }
    }
}

/// The outer gaps that a list of numbers stands for: one for all sides, or
/// four for the four sides.
pub open spec fn outer_of(values: Seq<u32>) -> (u32, u32, u32, u32) {
    if values.len() == 1 {
        (values[0], values[0], values[0], values[0])
    } else if values.len() == 4 {
        (values[0], values[1], values[2], values[3])
    } else {
        (0, 0, 0, 0)
    }
}

/// The gaps that a block of a node sets.
pub open spec fn gap_values_of(n: NodeView) -> Gaps {
    match n.children {
        Some(nodes) => Gaps {
            inner: or_default(as_u32(setting(nodes, "inner"@)), 0),
            outer: match first_named(nodes, "outer"@) {
                Some(outer) => outer_of(numbers_of(outer, 4)),
                None => (0, 0, 0, 0),
            },
        },
        None => no_gaps(),
    }
}

fn parse_gap_values(n: &Node) -> (r: Gaps)
    ensures
        r == gap_values_of(node_view(*n)),
{
    let mut gaps: Gaps = Gaps::default();
    let nodes: &Vec<Node> = match &n.children {
        Some(nodes) => nodes,
        None => {
            return gaps;
        },
    };
    match u32_value(find_setting(nodes, "inner")) {
        Some(v) => {
            gaps.inner = v;
        },
        None => {},
    }
    match find_named(nodes, "outer") {
        Some(outer) => {
            let mut values: Vec<u32> = Vec::new();
            let mut k: usize = 0;
            while k < 4
                invariant
                    k <= 4,
                    values@ == numbers_of(node_view(*outer), k as nat),
                decreases 4 - k,
            {
                match u32_value(find_arg(outer, k)) {
                    Some(v) => {
                        values.push(v);
                    },
                    None => {},
                }
                k = k + 1;
            }
            if values.len() == 1 {
                gaps.outer = (values[0], values[0], values[0], values[0]);
            } else if values.len() == 4 {
                gaps.outer = (values[0], values[1], values[2], values[3]);
            }
        },
        None => {},
    }
    gaps
}

/// The gaps of single workspaces that a list of nodes sets: where a workspace
/// is named twice, the later one stands.
pub open spec fn overrides_of(nodes: Seq<NodeView>) -> Map<Seq<char>, Gaps>
    decreases nodes.len(),
{
    if nodes.len() == 0 {
        Map::empty()
    } else {
        let n = nodes.last();
        let before = overrides_of(nodes.drop_last());
        match as_text(arg(n, 0)) {
            Some(name) => if n.name == "workspace"@ {
                before.insert(name, gap_values_of(n))
            } else {
                before
            },
            None => before,
        }
    }
}

pub open spec fn gaps_of(doc: Seq<NodeView>) -> (Gaps, Map<Seq<char>, Gaps>) {
    match first_named(doc, "gaps"@) {
        Some(n) => (
            gap_values_of(n),
            match n.children {
                Some(nodes) => overrides_of(nodes),
                None => Map::empty(),
            },
        ),
        None => (no_gaps(), Map::empty()),
    }
}

fn parse_gaps(doc: &Vec<Node>) -> (r: (Gaps, Table<String, Gaps>))
    ensures
        r.1.wf(),
        (r.0, r.1@) == gaps_of(nodes_view(doc@)),
{
    let mut overrides: Table<String, Gaps> = Table::new();
    let n: &Node = match find_named(doc, "gaps") {
        Some(n) => n,
        None => {
            return (Gaps::default(), overrides);
        },
    };
    let global: Gaps = parse_gap_values(n);
    match &n.children {
        Some(nodes) => {
            let ghost s = nodes_view(nodes@);
            assert(s.take(0) =~= Seq::empty());
            let mut i: usize = 0;
            while i < nodes.len()
                invariant
                    i <= nodes.len(),
                    s == nodes_view(nodes@),
                    overrides.wf(),
                    overrides@ == overrides_of(s.take(i as int)),
                decreases nodes.len() - i,
            {
                let w: &Node = &nodes[i];
                proof {
                    assert(s[i as int] == node_view(*w));
                    assert(s.take(i + 1).drop_last() =~= s.take(i as int));
                }
                if same_text(w.name.as_str(), "workspace") {
                    match text_value(find_arg(w, 0)) {
                        Some(name) => {
                            overrides.insert(name, parse_gap_values(w));
                        },
                        None => {},
                    }
                }
                i = i + 1;
            }
            assert(s.take(i as int) =~= s);
        },
        None => {},
    }
    (global, overrides)
}

/// The configuration that a document stands for. Nodes that it does not speak
/// of are of no account.
pub open spec fn config_of(doc: Seq<NodeView>) -> ConfigView {
    ConfigView {
        workspaces: workspaces_of(doc),
        default_layout: as_text(setting(doc, "default-layout"@)),
        gaps: gaps_of(doc).0,
        workspace_gaps: gaps_of(doc).1,
        settings: settings_of(doc),
        keybindings: keybindings_of(doc),
        workspace_rules: workspace_rules_of(doc),
        floating_rules: floating_rules_of(doc),
        floating_defaults: floating_defaults_of(doc),
    }
}

/// Reads a configuration from the nodes of a document.
pub fn parse_document(doc: &Vec<Node>) -> (r: Config)
    ensures
        r.wf(),
        r@ == config_of(nodes_view(doc@)),
{
    let (floating_rules, floating_defaults) = parse_floating_rules(doc);
    let (gaps, workspace_gaps) = parse_gaps(doc);
    Config {
        workspaces: parse_workspaces(doc),
        default_layout: text_value(find_setting(doc, "default-layout")),
        gaps,
        workspace_gaps,
        settings: parse_settings(doc),
        keybindings: parse_keybindings(doc),
        workspace_rules: parse_workspace_rules(doc),
        floating_rules,
        floating_defaults,
    }
}

/// Reads a configuration from text. It is refused only where the text is no
/// KDL document.
pub fn parse(source: &str) -> (r: Result<Config, ConfigError>)
    ensures
        r is Ok ==> r->Ok_0.wf(),
        config_read(kdl_parsed(source@), r),
{
    match read_kdl(source) {
        Ok(nodes) => Ok(parse_document(&nodes)),
        Err(message) => Err(ConfigError::Parse(message)),
    }
}

/// The configuration where there is none.
pub open spec fn plain_config() -> ConfigView {
    ConfigView {
        workspaces: Seq::empty(),
        default_layout: None,
        gaps: no_gaps(),
        workspace_gaps: Map::empty(),
        settings: plain_settings(),
        keybindings: Seq::empty(),
        workspace_rules: Seq::empty(),
        floating_rules: Seq::empty(),
        floating_defaults: plain_floating_defaults(),
    }
}

impl Default for Config {
    fn default() -> (r: Self)
        ensures
            r.wf(),
            r@ == plain_config(),
    {
        let r: Config = Config {
            workspaces: Vec::new(),
            default_layout: None,
            gaps: Gaps::default(),
            workspace_gaps: Table::new(),
            settings: Settings::default(),
            keybindings: Vec::new(),
            workspace_rules: Vec::new(),
            floating_rules: Vec::new(),
            floating_defaults: FloatingDefaults::default(),
        };
        proof {
            assert(views(r.workspaces@) =~= Seq::empty());
            assert(views(r.keybindings@) =~= Seq::empty());
            assert(views(r.workspace_rules@) =~= Seq::empty());
            assert(views(r.floating_rules@) =~= Seq::empty());
        }
        r
    }
}

/// What reading the configuration file gave.
pub enum Source {
    /// The file's text.
    Text(String),
    /// There is no such file.
    Missing,
    /// The file cannot be read, and why.
    Unreadable(String),
}

/// Makes a configuration of what reading its file gave. A missing file is no
/// error: there is no configuration yet.
pub fn load(source: Source) -> (r: Result<Config, ConfigError>)
    ensures
        r is Ok ==> r->Ok_0.wf(),
        config_loaded(source, r),
{
    match source {
        Source::Text(text) => parse(text.as_str()),
        Source::Missing => Ok(Config::default()),
        Source::Unreadable(why) => Err(ConfigError::Parse(why)),
    }
}

/// An empty document stands for the same configuration as no document.
pub proof fn law_empty_document_is_plain()
    ensures
        config_of(Seq::empty()) == plain_config(),
{
    let doc = Seq::<NodeView>::empty();
    assert(first_named(doc, "workspaces"@) is None);
    assert(first_named(doc, "default-layout"@) is None);
    assert(first_named(doc, "gaps"@) is None);
    assert(first_named(doc, "settings"@) is None);
    assert(first_named(doc, "workspace-rules"@) is None);
    assert(first_named(doc, "floating-rules"@) is None);
}

proof fn lemma_named_skips(a: Seq<NodeView>, n: NodeView, b: Seq<NodeView>, name: Seq<char>, from: int)
    requires
        n.name != name,
        0 <= from <= a.len() + b.len(),
    ensures
        from <= a.len() ==> named_from(a.push(n) + b, name, from) == named_from(a + b, name, from),
        from >= a.len() ==> named_from(a.push(n) + b, name, from + 1) == named_from(a + b, name, from),
    decreases a.len() + b.len() - from,
{
    let long = a.push(n) + b;
    let short = a + b;
    if from < a.len() + b.len() {
        lemma_named_skips(a, n, b, name, from + 1);
        if from < a.len() {
            assert(long[from] == short[from]);
        } else {
            assert(long[from + 1] == short[from]);
            assert(long[a.len() as int] == n);
        }
    } else {
        assert(from == a.len() ==> long[a.len() as int] == n);
    }
}

proof fn lemma_filter_map_skips<B>(
    a: Seq<NodeView>,
    n: NodeView,
    b: Seq<NodeView>,
    f: spec_fn(NodeView) -> Option<B>,
)
    requires
        f(n) is None,
    ensures
        filter_map(a.push(n) + b, f) == filter_map(a + b, f),
    decreases b.len(),
{
    if b.len() == 0 {
        assert(a.push(n) + b =~= a.push(n));
        assert(a + b =~= a);
        assert(a.push(n).drop_last() =~= a);
    } else {
        lemma_filter_map_skips(a, n, b.drop_last(), f);
        assert((a.push(n) + b).drop_last() =~= a.push(n) + b.drop_last());
        assert((a + b).drop_last() =~= a + b.drop_last());
    }
}

/// A node that the configuration does not speak of is ignored, wherever it
/// stands.
pub proof fn law_unknown_nodes_are_ignored(a: Seq<NodeView>, n: NodeView, b: Seq<NodeView>)
    requires
        n.name != "workspaces"@,
        n.name != "default-layout"@,
        n.name != "gaps"@,
        n.name != "settings"@,
        n.name != "keybindings"@,
        n.name != "workspace-rules"@,
        n.name != "floating-rules"@,
    ensures
        config_of(a.push(n) + b) == config_of(a + b),
{
    lemma_named_skips(a, n, b, "workspaces"@, 0);
    lemma_named_skips(a, n, b, "default-layout"@, 0);
    lemma_named_skips(a, n, b, "gaps"@, 0);
    lemma_named_skips(a, n, b, "settings"@, 0);
    lemma_named_skips(a, n, b, "workspace-rules"@, 0);
    lemma_named_skips(a, n, b, "floating-rules"@, 0);
    lemma_filter_map_skips(a, n, b, |x: NodeView| mode_of(x));
}

/// `r` is what the nodes of a document, or none where a text is no document, are
/// read as.
pub open spec fn config_read(doc: Option<Seq<NodeView>>, r: Result<Config, ConfigError>) -> bool {
    match doc {
        Some(nodes) => r is Ok && r->Ok_0@ == config_of(nodes),
        None => r matches Err(ConfigError::Parse(m)) && m@ == "Failed to parse KDL document"@,
    }
}

/// `r` is what reading the configuration file gives.
pub open spec fn config_loaded(source: Source, r: Result<Config, ConfigError>) -> bool {
    match source {
        Source::Missing => r is Ok && r->Ok_0@ == plain_config(),
        Source::Unreadable(why) => r matches Err(ConfigError::Parse(m)) && m@ == why@,
        Source::Text(text) => config_read(kdl_parsed(text@), r),
    }
}

/// A file that is missing is as good as an empty one; one that cannot be read,
/// or is no document, is an error, with the reason where there is one; and any
/// other is read as its document says.
pub proof fn law_files_are_loaded_or_refused(source: Source, r: Result<Config, ConfigError>)
    requires
        config_loaded(source, r),
    ensures
        source is Missing ==> r is Ok && r->Ok_0@ == config_of(Seq::empty()),
        source matches Source::Unreadable(why) ==> (r matches Err(ConfigError::Parse(m)) && m@
            == why@),
        source matches Source::Text(text) ==> (r is Ok <==> kdl_parsed(text@) is Some),
        source matches Source::Text(text) ==> (r is Ok ==> r->Ok_0@ == config_of(
            kdl_parsed(text@)->0,
        )),
{
    law_empty_document_is_plain();
}

}
