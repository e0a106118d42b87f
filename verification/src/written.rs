//! How a configuration is written, and that it is read as it was written.

use vstd::prelude::*;
use crate::config::{
    arg, arg_from, as_bool, as_ratio, as_text, as_u32, block, config_of, filter_map, first_named,
    floating_rule_of, gap_values_of, keybindings_of, mode_of, named_from, numbers_of, overrides_of,
    plain_config, prop, prop_before, setting, settings_of, workspace_of, workspace_rule_of,
    ConfigView, FloatingDefaults, FloatingRuleView, Gaps, KeybindingModeView, KeybindingView, Ratio,
    WorkspaceConfigView, WorkspaceRuleView,
};
use crate::document::{EntryView, NodeView, ValueView};
use crate::placement::FloatingRuleMode;

verus! {

/// An argument of a node.
pub open spec fn argument(value: ValueView) -> EntryView {
    EntryView { name: None, value }
}

/// A property of a node.
pub open spec fn property(name: Seq<char>, value: ValueView) -> EntryView {
    EntryView { name: Some(name), value }
}

/// A property of a node that has a text, where there is one.
pub open spec fn text_property(name: Seq<char>, text: Option<Seq<char>>) -> Seq<EntryView> {
    match text {
        Some(t) => seq![property(name, ValueView::Text(t))],
        None => Seq::empty(),
    }
}

/// A node.
pub open spec fn node(
    name: Seq<char>,
    entries: Seq<EntryView>,
    children: Option<Seq<NodeView>>,
) -> NodeView {
    NodeView { name, entries, children }
}

/// A node with one argument, where there is a value.
pub open spec fn value_node(name: Seq<char>, value: Option<ValueView>) -> Seq<NodeView> {
    match value {
        Some(v) => seq![node(name, seq![argument(v)], None)],
        None => Seq::empty(),
    }
}

pub open spec fn text_value(t: Option<Seq<char>>) -> Option<ValueView> {
    match t {
        Some(t) => Some(ValueView::Text(t)),
        None => None,
    }
}

pub open spec fn bool_value(b: Option<bool>) -> Option<ValueView> {
    match b {
        Some(b) => Some(ValueView::Bool(b)),
        None => None,
    }
}

pub open spec fn number_value(n: Option<u32>) -> Option<ValueView> {
    match n {
        Some(n) => Some(ValueView::Integer(n as i128)),
        None => None,
    }
}

pub open spec fn ratio_value(r: Option<Ratio>) -> Option<ValueView> {
    match r {
        Some(Ratio::Whole(i)) => Some(ValueView::Integer(i)),
        Some(Ratio::Double(b)) => Some(ValueView::Float(b)),
        None => None,
    }
}

/// What is written of a workspace.
pub open spec fn workspace_node(w: WorkspaceConfigView) -> NodeView {
    node(
        "workspace"@,
        seq![argument(ValueView::Text(w.name))] + text_property("monitor"@, w.monitor),
        None,
    )
}

/// What is written of a binding.
pub open spec fn binding_node(b: KeybindingView) -> NodeView {
    node(
        "bind"@,
        seq![argument(ValueView::Text(b.key)), argument(ValueView::Text(b.command))],
        None,
    )
}

/// What is written of the bindings of a mode.
pub open spec fn mode_node(m: KeybindingModeView) -> NodeView {
    node(
        "keybindings"@,
        seq![
            property("mode"@, ValueView::Text(m.name)),
            property("auto-exit"@, ValueView::Bool(m.auto_exit)),
        ],
        Some(m.bindings.map_values(|b: KeybindingView| binding_node(b))),
    )
}

/// What is written of a rule for workspaces.
pub open spec fn workspace_rule_node(r: WorkspaceRuleView) -> NodeView {
    node(
        "rule"@,
        seq![
            property("app-id"@, ValueView::Text(r.app_id)),
            property("workspace"@, ValueView::Text(r.workspace)),
        ],
        None,
    )
}

/// The word for what a rule does with a window.
pub open spec fn rule_word(mode: FloatingRuleMode) -> Seq<char> {
    match mode {
        FloatingRuleMode::Float => "float"@,
        FloatingRuleMode::Tile => "tile"@,
        FloatingRuleMode::Ignore => "ignore"@,
    }
}

/// What is written of a rule for floating windows.
pub open spec fn floating_rule_node(r: FloatingRuleView) -> NodeView {
    node(
        "rule"@,
        seq![property("app-id"@, ValueView::Text(r.app_id))] + text_property("title"@, r.title)
            + seq![property("mode"@, ValueView::Text(rule_word(r.mode)))],
        Some(
            value_node("width"@, number_value(r.width)) + (value_node(
                "height"@,
                number_value(r.height),
            ) + value_node("center"@, bool_value(r.center))),
        ),
    )
}

/// What is written of the defaults for floating windows.
pub open spec fn defaults_node(
    center: Option<bool>,
    width: Option<Ratio>,
    height: Option<Ratio>,
) -> NodeView {
    node(
        "defaults"@,
        Seq::empty(),
        Some(
            value_node("center"@, bool_value(center)) + (value_node(
                "width-ratio"@,
                ratio_value(width),
            ) + value_node("height-ratio"@, ratio_value(height))),
        ),
    )
}

/// What is written of the settings, each or none of them.
pub open spec fn settings_nodes(
    mouse_follows_focus: Option<bool>,
    focus_follows_monitor: Option<bool>,
    auto_reload: Option<bool>,
    default_workspace: Option<Seq<char>>,
    accordion_padding: Option<u32>,
    default_root_orientation: Option<Seq<char>>,
) -> Seq<NodeView> {
    value_node("mouse-follows-focus"@, bool_value(mouse_follows_focus)) + (value_node(
        "focus-follows-monitor"@,
        bool_value(focus_follows_monitor),
    ) + (value_node("auto-reload"@, bool_value(auto_reload)) + (value_node(
        "default-workspace"@,
        text_value(default_workspace),
    ) + (value_node("accordion-padding"@, number_value(accordion_padding)) + value_node(
        "default-root-orientation"@,
        text_value(default_root_orientation),
    )))))
}

/// What is written of gaps.
pub open spec fn gap_nodes(g: Gaps) -> Seq<NodeView> {
    seq![
        node("inner"@, seq![argument(ValueView::Integer(g.inner as i128))], None),
        node(
            "outer"@,
            seq![
                argument(ValueView::Integer(g.outer.0 as i128)),
                argument(ValueView::Integer(g.outer.1 as i128)),
                argument(ValueView::Integer(g.outer.2 as i128)),
                argument(ValueView::Integer(g.outer.3 as i128)),
            ],
            None,
        ),
    ]
}

/// What is written of the gaps of one workspace.
pub open spec fn override_node(o: (Seq<char>, Gaps)) -> NodeView {
    node("workspace"@, seq![argument(ValueView::Text(o.0))], Some(gap_nodes(o.1)))
}

/// A configuration, written down. The gaps of single workspaces are listed in
/// `overrides`.
pub open spec fn written(c: ConfigView, overrides: Seq<(Seq<char>, Gaps)>) -> Seq<NodeView> {
    let blocks = seq![
        node(
            "workspaces"@,
            Seq::empty(),
            Some(c.workspaces.map_values(|w: WorkspaceConfigView| workspace_node(w))),
        ),
        node(
            "gaps"@,
            Seq::empty(),
            Some(
                gap_nodes(c.gaps) + overrides.map_values(|o: (Seq<char>, Gaps)| override_node(o)),
            ),
        ),
        node(
            "settings"@,
            Seq::empty(),
            Some(
                settings_nodes(
                    Some(c.settings.mouse_follows_focus),
                    Some(c.settings.focus_follows_monitor),
                    Some(c.settings.auto_reload),
                    c.settings.default_workspace,
                    Some(c.settings.accordion_padding),
                    Some(c.settings.default_root_orientation),
                ),
            ),
        ),
        node(
            "workspace-rules"@,
            Seq::empty(),
            Some(c.workspace_rules.map_values(|r: WorkspaceRuleView| workspace_rule_node(r))),
        ),
        node(
            "floating-rules"@,
            Seq::empty(),
            Some(
                seq![
                    defaults_node(
                        Some(c.floating_defaults.center),
                        Some(c.floating_defaults.width_ratio),
                        Some(c.floating_defaults.height_ratio),
                    ),
                ] + c.floating_rules.map_values(|r: FloatingRuleView| floating_rule_node(r)),
            ),
        ),
    ];
    blocks + (value_node("default-layout"@, text_value(c.default_layout)) + c.keybindings.map_values(
        |m: KeybindingModeView| mode_node(m),
    ))
}

proof fn lemma_named_after(a: Seq<NodeView>, rest: Seq<NodeView>, name: Seq<char>, i: int)
    requires
        0 <= i,
    ensures
        named_from(a + rest, name, a.len() + i) == named_from(rest, name, i),
    decreases rest.len() - i,
{
    if i < rest.len() {
        assert((a + rest)[a.len() + i] == rest[i]);
        lemma_named_after(a, rest, name, i + 1);
    }
}

proof fn lemma_first_is(x: NodeView, rest: Seq<NodeView>, name: Seq<char>)
    ensures
        first_named(seq![x] + rest, name) == (if x.name == name {
            Some(x)
        } else {
            first_named(rest, name)
        }),
{
    assert((seq![x] + rest)[0] == x);
    lemma_named_after(seq![x], rest, name, 0);
}

proof fn lemma_setting_is(n: Seq<char>, v: Option<ValueView>, rest: Seq<NodeView>, name: Seq<char>)
    ensures
        setting(value_node(n, v) + rest, name) == (if n == name && v is Some {
            v
        } else {
            setting(rest, name)
        }),
        first_named(value_node(n, v) + rest, name) == (if n == name && v is Some {
            Some(node(n, seq![argument(v->0)], None))
        } else {
            first_named(rest, name)
        }),
{
    if v is Some {
        let x = node(n, seq![argument(v->0)], None);
        assert(value_node(n, v) =~= seq![x]);
        lemma_first_is(x, rest, name);
        assert(x.entries[0] == argument(v->0));
        assert(arg(x, 0) == Some(v->0));
    } else {
        assert(value_node(n, v) + rest =~= rest);
    }
}

proof fn lemma_no_setting(name: Seq<char>)
    ensures
        setting(Seq::empty(), name) is None,
        first_named(Seq::empty(), name) is None,
{
}

proof fn lemma_filter_map_all<A, B>(s: Seq<A>, f: spec_fn(A) -> Option<B>, t: Seq<B>)
    requires
        s.len() == t.len(),
        forall|i: int| 0 <= i < s.len() ==> f(#[trigger] s[i]) == Some(t[i]),
    ensures
        filter_map(s, f) == t,
    decreases s.len(),
{
    if s.len() > 0 {
        assert forall|i: int| 0 <= i < s.len() - 1 implies f(#[trigger] s.drop_last()[i]) == Some(
            t.drop_last()[i],
        ) by {
            assert(s.drop_last()[i] == s[i]);
        }
        lemma_filter_map_all(s.drop_last(), f, t.drop_last());
        assert(s.last() == s[s.len() - 1]);
        assert(t.drop_last().push(t.last()) =~= t);
    } else {
        assert(t =~= Seq::empty());
    }
}

proof fn lemma_filter_map_after<A, B>(a: Seq<A>, s: Seq<A>, f: spec_fn(A) -> Option<B>)
    requires
        forall|i: int| 0 <= i < a.len() ==> f(#[trigger] a[i]) is None,
    ensures
        filter_map(a + s, f) == filter_map(s, f),
    decreases a.len() + s.len(),
{
    if s.len() > 0 {
        lemma_filter_map_after(a, s.drop_last(), f);
        assert((a + s).drop_last() =~= a + s.drop_last());
        assert((a + s).last() == s.last());
    } else if a.len() > 0 {
        assert(a + s =~= a);
        assert forall|i: int| 0 <= i < a.len() - 1 implies f(#[trigger] a.drop_last()[i]) is None by {
            assert(a.drop_last()[i] == a[i]);
        }
        lemma_filter_map_after(a.drop_last(), s, f);
        assert(a.drop_last() + s =~= a.drop_last());
        assert(a.last() == a[a.len() - 1]);
    }
}

/// A workspace, a binding, and a rule for workspaces are read as they were
/// written.
pub proof fn law_plain_nodes_are_read_back(
    w: WorkspaceConfigView,
    m: KeybindingModeView,
    r: WorkspaceRuleView,
)
    ensures
        workspace_of(workspace_node(w)) == Some(w),
        mode_of(mode_node(m)) == Some(m),
        workspace_rule_of(workspace_rule_node(r)) == Some(r),
{
    reveal_with_fuel(arg_from, 4);
    reveal_with_fuel(prop_before, 4);
    reveal_strlit("mode");
    reveal_strlit("auto-exit");
    reveal_strlit("app-id");
    reveal_strlit("workspace");
    assert("mode"@.len() == 4 && "auto-exit"@.len() == 9);
    assert("app-id"@.len() == 6 && "workspace"@.len() == 9);
    let n = workspace_node(w);
    assert(n.entries[0] == argument(ValueView::Text(w.name)));
    assert(workspace_of(n) == Some(w));
    let f = |b: crate::document::NodeView| crate::config::binding_of(b);
    let nodes = m.bindings.map_values(|b: KeybindingView| binding_node(b));
    assert forall|i: int| 0 <= i < nodes.len() implies f(#[trigger] nodes[i]) == Some(
        m.bindings[i],
    ) by {
        let b = m.bindings[i];
        let x = binding_node(b);
        assert(nodes[i] == x);
        assert(x.entries[0] == argument(ValueView::Text(b.key)));
        assert(x.entries[1] == argument(ValueView::Text(b.command)));
        assert(arg(x, 0) == Some(ValueView::Text(b.key)));
        assert(arg(x, 1) == Some(ValueView::Text(b.command)));
    }
    lemma_filter_map_all(nodes, f, m.bindings);
    let n = mode_node(m);
    assert(prop(n, "auto-exit"@) == Some(ValueView::Bool(m.auto_exit)));
    assert(prop(n, "mode"@) == Some(ValueView::Text(m.name)));
    assert(mode_of(n) == Some(m));
    let n = workspace_rule_node(r);
    assert(prop(n, "workspace"@) == Some(ValueView::Text(r.workspace)));
    assert(prop(n, "app-id"@) == Some(ValueView::Text(r.app_id)));
}

/// A rule for floating windows is read as it was written, be its title, sizes
/// and centring given or not.
pub proof fn law_floating_rules_are_read_back(r: FloatingRuleView)
    ensures
        floating_rule_of(floating_rule_node(r)) == Some(r),
{
    reveal_with_fuel(prop_before, 5);
    reveal_strlit("app-id");
    reveal_strlit("title");
    reveal_strlit("mode");
    reveal_strlit("width");
    reveal_strlit("height");
    reveal_strlit("center");
    reveal_strlit("tile");
    reveal_strlit("ignore");
    reveal_strlit("float");
    assert("app-id"@.len() == 6 && "title"@.len() == 5 && "mode"@.len() == 4);
    assert("width"@.len() == 5 && "height"@[0] == 'h' && "center"@[0] == 'c');
    assert("height"@.len() == 6 && "center"@.len() == 6);
    assert("tile"@.len() == 4 && "ignore"@.len() == 6 && "float"@.len() == 5);
    let n = floating_rule_node(r);
    let none = Seq::<NodeView>::empty();
    let c = value_node("center"@, bool_value(r.center));
    let h = value_node("height"@, number_value(r.height));
    let w = value_node("width"@, number_value(r.width));
    let all = w + (h + c);
    assert(c + none =~= c);
    assert forall|name: Seq<char>| #[trigger] setting(all, name) == (if name == "width"@
        && r.width is Some {
        number_value(r.width)
    } else if name == "height"@ && r.height is Some {
        number_value(r.height)
    } else if name == "center"@ && r.center is Some {
        bool_value(r.center)
    } else {
        None
    }) by {
        lemma_setting_is("width"@, number_value(r.width), h + c, name);
        lemma_setting_is("height"@, number_value(r.height), c, name);
        lemma_setting_is("center"@, bool_value(r.center), none, name);
        lemma_no_setting(name);
    }
    assert(setting(all, "width"@) == number_value(r.width));
    assert(setting(all, "height"@) == number_value(r.height));
    assert(setting(all, "center"@) == bool_value(r.center));
    assert(prop(n, "app-id"@) == Some(ValueView::Text(r.app_id)));
    assert(prop(n, "mode"@) == Some(ValueView::Text(rule_word(r.mode))));
    assert(prop(n, "title"@) == text_value(r.title));
}

/// Each setting that is written is read as it was written, and those that are
/// not have their defaults.
pub proof fn law_settings_are_read_one_by_one(
    doc: Seq<NodeView>,
    mouse_follows_focus: Option<bool>,
    focus_follows_monitor: Option<bool>,
    auto_reload: Option<bool>,
    default_workspace: Option<Seq<char>>,
    accordion_padding: Option<u32>,
    default_root_orientation: Option<Seq<char>>,
)
    requires
        block(doc, "settings"@) == Some(
            settings_nodes(
                mouse_follows_focus,
                focus_follows_monitor,
                auto_reload,
                default_workspace,
                accordion_padding,
                default_root_orientation,
            ),
        ),
    ensures
        ({
            let s = settings_of(doc);
            let d = plain_config().settings;
            &&& s.mouse_follows_focus == (if mouse_follows_focus is Some {
                mouse_follows_focus->0
            } else {
                d.mouse_follows_focus
            })
            &&& s.focus_follows_monitor == (if focus_follows_monitor is Some {
                focus_follows_monitor->0
            } else {
                d.focus_follows_monitor
            })
            &&& s.auto_reload == (if auto_reload is Some {
                auto_reload->0
            } else {
                d.auto_reload
            })
            &&& s.default_workspace == default_workspace
            &&& s.accordion_padding == (if accordion_padding is Some {
                accordion_padding->0
            } else {
                d.accordion_padding
            })
            &&& s.default_root_orientation == (if default_root_orientation is Some {
                default_root_orientation->0
            } else {
                d.default_root_orientation
            })
        }),
{
    reveal_strlit("mouse-follows-focus");
    reveal_strlit("focus-follows-monitor");
    reveal_strlit("auto-reload");
    reveal_strlit("default-workspace");
    reveal_strlit("accordion-padding");
    reveal_strlit("default-root-orientation");
    assert("mouse-follows-focus"@.len() == 19 && "focus-follows-monitor"@.len() == 21);
    assert("auto-reload"@.len() == 11 && "default-root-orientation"@.len() == 24);
    assert("default-workspace"@.len() == 17 && "accordion-padding"@.len() == 17);
    assert("default-workspace"@[0] == 'd' && "accordion-padding"@[0] == 'a');
    let none = Seq::<NodeView>::empty();
    let v6 = text_value(default_root_orientation);
    let v5 = number_value(accordion_padding);
    let v4 = text_value(default_workspace);
    let v3 = bool_value(auto_reload);
    let v2 = bool_value(focus_follows_monitor);
    let v1 = bool_value(mouse_follows_focus);
    let s6 = value_node("default-root-orientation"@, v6);
    let s5 = value_node("accordion-padding"@, v5) + s6;
    let s4 = value_node("default-workspace"@, v4) + s5;
    let s3 = value_node("auto-reload"@, v3) + s4;
    let s2 = value_node("focus-follows-monitor"@, v2) + s3;
    let s1 = value_node("mouse-follows-focus"@, v1) + s2;
    assert(s6 + none =~= s6);
    assert forall|name: Seq<char>| #[trigger] setting(s1, name) == (if name
        == "mouse-follows-focus"@ && v1 is Some {
        v1
    } else if name == "focus-follows-monitor"@ && v2 is Some {
        v2
    } else if name == "auto-reload"@ && v3 is Some {
        v3
    } else if name == "default-workspace"@ && v4 is Some {
        v4
    } else if name == "accordion-padding"@ && v5 is Some {
        v5
    } else if name == "default-root-orientation"@ && v6 is Some {
        v6
    } else {
        None
    }) by {
        lemma_setting_is("mouse-follows-focus"@, v1, s2, name);
        lemma_setting_is("focus-follows-monitor"@, v2, s3, name);
        lemma_setting_is("auto-reload"@, v3, s4, name);
        lemma_setting_is("default-workspace"@, v4, s5, name);
        lemma_setting_is("accordion-padding"@, v5, s6, name);
        lemma_setting_is("default-root-orientation"@, v6, none, name);
        lemma_no_setting(name);
    }
    assert(setting(s1, "mouse-follows-focus"@) == v1);
    assert(setting(s1, "focus-follows-monitor"@) == v2);
    assert(setting(s1, "auto-reload"@) == v3);
    assert(setting(s1, "default-workspace"@) == v4);
    assert(setting(s1, "accordion-padding"@) == v5);
    assert(setting(s1, "default-root-orientation"@) == v6);
}

/// Gaps are read as they were written: the inner one, and those at the top, the
/// right, the bottom and the left. What else the block holds does not matter.
pub proof fn law_gaps_are_read_back(
    name: Seq<char>,
    entries: Seq<EntryView>,
    g: Gaps,
    more: Seq<NodeView>,
)
    ensures
        gap_values_of(node(name, entries, Some(gap_nodes(g) + more))) == g,
{
    reveal_with_fuel(arg_from, 6);
    reveal_with_fuel(numbers_of, 6);
    reveal_strlit("inner");
    reveal_strlit("outer");
    assert("inner"@[0] == 'i' && "outer"@[0] == 'o');
    let all = gap_nodes(g) + more;
    let i = gap_nodes(g)[0];
    let o = gap_nodes(g)[1];
    assert(all =~= seq![i] + (seq![o] + more));
    lemma_first_is(i, seq![o] + more, "inner"@);
    lemma_first_is(i, seq![o] + more, "outer"@);
    lemma_first_is(o, more, "outer"@);
    assert(arg(i, 0) == Some(ValueView::Integer(g.inner as i128)));
    assert(arg(o, 0) == Some(ValueView::Integer(g.outer.0 as i128)));
    assert(arg(o, 1) == Some(ValueView::Integer(g.outer.1 as i128)));
    assert(arg(o, 2) == Some(ValueView::Integer(g.outer.2 as i128)));
    assert(arg(o, 3) == Some(ValueView::Integer(g.outer.3 as i128)));
    let v = numbers_of(o, 4);
    assert(v =~= seq![g.outer.0, g.outer.1, g.outer.2, g.outer.3]);
}

/// One number for the outer gaps is that of all four sides.
pub proof fn law_one_outer_gap_is_for_all_sides(
    name: Seq<char>,
    entries: Seq<EntryView>,
    inner: u32,
    outer: u32,
)
    ensures
        gap_values_of(
            node(
                name,
                entries,
                Some(
                    seq![
                        node("outer"@, seq![argument(ValueView::Integer(outer as i128))], None),
                        node("inner"@, seq![argument(ValueView::Integer(inner as i128))], None),
                    ],
                ),
            ),
        ) == (Gaps { inner, outer: (outer, outer, outer, outer) }),
{
    reveal_with_fuel(arg_from, 6);
    reveal_with_fuel(numbers_of, 6);
    reveal_strlit("inner");
    reveal_strlit("outer");
    assert("inner"@[0] == 'i' && "outer"@[0] == 'o');
    let o = node("outer"@, seq![argument(ValueView::Integer(outer as i128))], None);
    let i = node("inner"@, seq![argument(ValueView::Integer(inner as i128))], None);
    let none = Seq::<NodeView>::empty();
    assert(seq![o, i] =~= seq![o] + (seq![i] + none));
    lemma_first_is(o, seq![i] + none, "inner"@);
    lemma_first_is(o, seq![i] + none, "outer"@);
    lemma_first_is(i, none, "inner"@);
    assert(arg(i, 0) == Some(ValueView::Integer(inner as i128)));
    assert(arg(o, 0) == Some(ValueView::Integer(outer as i128)));
    assert(numbers_of(o, 4) =~= seq![outer]);
}

/// The gaps of single workspaces are those that a list says.
pub open spec fn lists_gaps(overrides: Seq<(Seq<char>, Gaps)>, m: Map<Seq<char>, Gaps>) -> bool {
    &&& forall|k: Seq<char>| #[trigger]
        m.contains_key(k) ==> exists|i: int| 0 <= i < overrides.len() && (#[trigger] overrides[i]).0 == k
    &&& forall|i: int|
        0 <= i < overrides.len() ==> m.contains_key((#[trigger] overrides[i]).0)
            && m[overrides[i].0] == overrides[i].1
}

proof fn lemma_overrides(g: Gaps, overrides: Seq<(Seq<char>, Gaps)>)
    ensures
        ({
            let nodes = gap_nodes(g) + overrides.map_values(
                |o: (Seq<char>, Gaps)| override_node(o),
            );
            let m = overrides_of(nodes);
            &&& forall|k: Seq<char>| #[trigger]
                m.contains_key(k) ==> exists|i: int|
                    0 <= i < overrides.len() && (#[trigger] overrides[i]).0 == k && overrides[i].1
                        == m[k]
            &&& forall|i: int|
                0 <= i < overrides.len() ==> m.contains_key((#[trigger] overrides[i]).0)
        }),
    decreases overrides.len(),
{
    let nodes = gap_nodes(g) + overrides.map_values(|o: (Seq<char>, Gaps)| override_node(o));
    let m = overrides_of(nodes);
    reveal_strlit("inner");
    reveal_strlit("outer");
    reveal_strlit("workspace");
    assert("inner"@.len() == 5 && "outer"@.len() == 5 && "workspace"@.len() == 9);
    if overrides.len() == 0 {
        assert(nodes =~= gap_nodes(g));
        reveal_with_fuel(overrides_of, 4);
        assert(nodes.drop_last().drop_last() =~= Seq::empty());
        assert(m =~= Map::empty());
    } else {
        let init = overrides.drop_last();
        let o = overrides.last();
        lemma_overrides(g, init);
        let before = gap_nodes(g) + init.map_values(|o: (Seq<char>, Gaps)| override_node(o));
        assert(nodes.drop_last() =~= before);
        assert(nodes.last() == override_node(o));
        assert(override_node(o).entries[0] == argument(ValueView::Text(o.0)));
        assert(arg(override_node(o), 0) == Some(ValueView::Text(o.0)));
        law_gaps_are_read_back("workspace"@, override_node(o).entries, o.1, Seq::empty());
        assert(gap_nodes(o.1) + Seq::empty() =~= gap_nodes(o.1));
        assert(m == overrides_of(before).insert(o.0, o.1));
        assert(overrides[overrides.len() - 1] == o);
        assert forall|k: Seq<char>| #[trigger] m.contains_key(k) implies exists|i: int|
            0 <= i < overrides.len() && (#[trigger] overrides[i]).0 == k && overrides[i].1
                == m[k] by {
            if k != o.0 {
                assert(overrides_of(before).contains_key(k));
                let i = choose|i: int|
                    0 <= i < init.len() && (#[trigger] init[i]).0 == k && init[i].1
                        == overrides_of(before)[k];
                assert(overrides[i] == init[i]);
            }
        }
        assert forall|i: int| 0 <= i < overrides.len() implies m.contains_key(
            (#[trigger] overrides[i]).0,
        ) by {
            if i < init.len() {
                assert(init[i] == overrides[i]);
            }
        }
    }
}

proof fn lemma_defaults(d: FloatingDefaults, rules: Seq<FloatingRuleView>, doc: Seq<NodeView>)
    requires
        block(doc, "floating-rules"@) == Some(
            seq![
                defaults_node(Some(d.center), Some(d.width_ratio), Some(d.height_ratio)),
            ] + rules.map_values(|r: FloatingRuleView| floating_rule_node(r)),
        ),
    ensures
        crate::config::floating_defaults_of(doc) == d,
        crate::config::floating_rules_of(doc) == rules,
{
    let x = defaults_node(Some(d.center), Some(d.width_ratio), Some(d.height_ratio));
    let rest = rules.map_values(|r: FloatingRuleView| floating_rule_node(r));
    let f = |n: NodeView| floating_rule_of(n);
    reveal_strlit("defaults");
    reveal_strlit("rule");
    reveal_strlit("center");
    reveal_strlit("width-ratio");
    reveal_strlit("height-ratio");
    assert("defaults"@.len() == 8 && "rule"@.len() == 4);
    assert("center"@.len() == 6 && "width-ratio"@.len() == 11 && "height-ratio"@.len() == 12);
    lemma_first_is(x, rest, "defaults"@);
    assert(f(seq![x][0]) is None);
    lemma_filter_map_after(seq![x], rest, f);
    assert forall|i: int| 0 <= i < rest.len() implies f(#[trigger] rest[i]) == Some(rules[i]) by {
        law_floating_rules_are_read_back(rules[i]);
    }
    lemma_filter_map_all(rest, f, rules);
    let none = Seq::<NodeView>::empty();
    let c = bool_value(Some(d.center));
    let w = ratio_value(Some(d.width_ratio));
    let h = ratio_value(Some(d.height_ratio));
    let s3 = value_node("height-ratio"@, h);
    let s2 = value_node("width-ratio"@, w) + s3;
    assert(s3 + none =~= s3);
    assert forall|name: Seq<char>| #[trigger] setting(value_node("center"@, c) + s2, name) == (if name
        == "center"@ {
        c
    } else if name == "width-ratio"@ {
        w
    } else if name == "height-ratio"@ {
        h
    } else {
        None
    }) by {
        lemma_setting_is("center"@, c, s2, name);
        lemma_setting_is("width-ratio"@, w, s3, name);
        lemma_setting_is("height-ratio"@, h, none, name);
        lemma_no_setting(name);
    }
    let all = value_node("center"@, c) + s2;
    assert(setting(all, "center"@) == c);
    assert(setting(all, "width-ratio"@) == w);
    assert(setting(all, "height-ratio"@) == h);
}

/// A configuration that is written down is read as what it was: every
/// workspace, gap, setting, binding and rule.
pub proof fn law_configurations_are_read_back(c: ConfigView, overrides: Seq<(Seq<char>, Gaps)>)
    requires
        lists_gaps(overrides, c.workspace_gaps),
    ensures
        config_of(written(c, overrides)) == c,
{
    let doc = written(c, overrides);
    let modes = c.keybindings.map_values(|m: KeybindingModeView| mode_node(m));
    let layout = value_node("default-layout"@, text_value(c.default_layout));
    let workspaces = c.workspaces.map_values(|w: WorkspaceConfigView| workspace_node(w));
    let rules = c.workspace_rules.map_values(|r: WorkspaceRuleView| workspace_rule_node(r));
    reveal_strlit("workspaces");
    reveal_strlit("gaps");
    reveal_strlit("settings");
    reveal_strlit("workspace-rules");
    reveal_strlit("floating-rules");
    reveal_strlit("default-layout");
    reveal_strlit("keybindings");
    assert("workspaces"@.len() == 10 && "gaps"@.len() == 4 && "settings"@.len() == 8);
    assert("workspace-rules"@.len() == 15 && "keybindings"@.len() == 11);
    assert("floating-rules"@.len() == 14 && "default-layout"@.len() == 14);
    assert("floating-rules"@[0] == 'f' && "default-layout"@[0] == 'd');
    let n0 = doc[0];
    let n1 = doc[1];
    let n2 = doc[2];
    let n3 = doc[3];
    let n4 = doc[4];
    let tail = layout + modes;
    let d4 = seq![n4] + tail;
    let d3 = seq![n3] + d4;
    let d2 = seq![n2] + d3;
    let d1 = seq![n1] + d2;
    assert(doc =~= seq![n0] + d1);
    assert forall|name: Seq<char>| name != "keybindings"@ implies #[trigger] first_named(doc, name)
        == (if name == n0.name {
        Some(n0)
    } else if name == n1.name {
        Some(n1)
    } else if name == n2.name {
        Some(n2)
    } else if name == n3.name {
        Some(n3)
    } else if name == n4.name {
        Some(n4)
    } else {
        first_named(tail, name)
    }) by {
        lemma_first_is(n0, d1, name);
        lemma_first_is(n1, d2, name);
        lemma_first_is(n2, d3, name);
        lemma_first_is(n3, d4, name);
        lemma_first_is(n4, tail, name);
    }
    lemma_setting_is("default-layout"@, text_value(c.default_layout), modes, "default-layout"@);
    lemma_not_among(modes, "default-layout"@, 0);
    assert(first_named(doc, "default-layout"@) == first_named(tail, "default-layout"@));
    assert(setting(doc, "default-layout"@) == text_value(c.default_layout));
    assert(first_named(doc, "workspaces"@) == Some(n0));
    assert(first_named(doc, "gaps"@) == Some(n1));
    assert(first_named(doc, "settings"@) == Some(n2));
    assert(first_named(doc, "workspace-rules"@) == Some(n3));
    assert(first_named(doc, "floating-rules"@) == Some(n4));
    let f = |n: NodeView| workspace_of(n);
    assert forall|i: int| 0 <= i < workspaces.len() implies f(#[trigger] workspaces[i]) == Some(
        c.workspaces[i],
    ) by {
        law_plain_nodes_are_read_back(c.workspaces[i], arbitrary(), arbitrary());
    }
    lemma_filter_map_all(workspaces, f, c.workspaces);
    let g = |n: NodeView| workspace_rule_of(n);
    assert forall|i: int| 0 <= i < rules.len() implies g(#[trigger] rules[i]) == Some(
        c.workspace_rules[i],
    ) by {
        law_plain_nodes_are_read_back(arbitrary(), arbitrary(), c.workspace_rules[i]);
    }
    lemma_filter_map_all(rules, g, c.workspace_rules);
    let h = |n: NodeView| mode_of(n);
    assert forall|i: int| 0 <= i < modes.len() implies h(#[trigger] modes[i]) == Some(
        c.keybindings[i],
    ) by {
        law_plain_nodes_are_read_back(arbitrary(), c.keybindings[i], arbitrary());
    }
    lemma_filter_map_all(modes, h, c.keybindings);
    let head = seq![n0, n1, n2, n3, n4] + layout;
    assert(doc =~= head + modes);
    assert forall|i: int| 0 <= i < head.len() implies h(#[trigger] head[i]) is None by {
        if i >= 5 {
            assert(head[i] == layout[i - 5]);
        }
    }
    lemma_filter_map_after(head, modes, h);
    assert(keybindings_of(doc) == c.keybindings);
    law_settings_are_read_one_by_one(
        doc,
        Some(c.settings.mouse_follows_focus),
        Some(c.settings.focus_follows_monitor),
        Some(c.settings.auto_reload),
        c.settings.default_workspace,
        Some(c.settings.accordion_padding),
        Some(c.settings.default_root_orientation),
    );
    lemma_defaults(c.floating_defaults, c.floating_rules, doc);
    let more = overrides.map_values(|o: (Seq<char>, Gaps)| override_node(o));
    law_gaps_are_read_back("gaps"@, Seq::empty(), c.gaps, more);
    lemma_overrides(c.gaps, overrides);
    let m = overrides_of(gap_nodes(c.gaps) + more);
    assert(m =~= c.workspace_gaps) by {
        assert forall|k: Seq<char>| #[trigger] m.contains_key(k) == c.workspace_gaps.contains_key(
            k,
        ) by {
            if c.workspace_gaps.contains_key(k) {
                let i = choose|i: int| 0 <= i < overrides.len() && (#[trigger] overrides[i]).0 == k;
                assert(m.contains_key(overrides[i].0));
            }
        }
        assert forall|k: Seq<char>| #[trigger] m.contains_key(k) implies m[k]
            == c.workspace_gaps[k] by {
            let i = choose|i: int|
                0 <= i < overrides.len() && (#[trigger] overrides[i]).0 == k && overrides[i].1
                    == m[k];
            assert(c.workspace_gaps[overrides[i].0] == overrides[i].1);
        }
    }
}

proof fn lemma_not_among(nodes: Seq<NodeView>, name: Seq<char>, from: int)
    requires
        forall|i: int| 0 <= i < nodes.len() ==> (#[trigger] nodes[i]).name != name,
        from >= 0,
    ensures
        named_from(nodes, name, from) is None,
    decreases nodes.len() - from,
{
    if from < nodes.len() {
        lemma_not_among(nodes, name, from + 1);
    }
}

/// Of two blocks of one name the first counts, of two properties of one name
/// the last.
pub proof fn law_first_block_and_last_property_count(
    first: NodeView,
    rest: Seq<NodeView>,
    name: Seq<char>,
    entries: Seq<EntryView>,
    value: ValueView,
    children: Option<Seq<NodeView>>,
)
    requires
        first.name == name,
    ensures
        first_named(seq![first] + rest, name) == Some(first),
        prop(node(name, entries.push(property(name, value)), children), name) == Some(value),
        arg(node(name, seq![argument(value)] + entries, children), 0) == Some(value),
{
    lemma_first_is(first, rest, name);
    let all = seq![argument(value)] + entries;
    assert(all[0] == argument(value));
}

/// A value counts only as what it was written as: a text, a truth value, a
/// whole number that is not negative and fits, or a number.
pub proof fn law_values_count_as_what_they_are(
    v: Option<ValueView>,
    t: Seq<char>,
    b: bool,
    n: u32,
    r: Ratio,
)
    ensures
        as_text(v) == Some(t) <==> v == Some(ValueView::Text(t)),
        as_bool(v) == Some(b) <==> v == Some(ValueView::Bool(b)),
        as_u32(v) == Some(n) <==> v == Some(ValueView::Integer(n as i128)),
        as_ratio(v) == Some(r) <==> v is Some && v == ratio_value(Some(r)),
{
}

}
