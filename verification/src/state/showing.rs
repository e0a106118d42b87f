//! What is laid out, brought into view and told of the state.

use vstd::prelude::*;
use super::bringup::{
    brought_up, focus_followed, focus_given, front_revealed, frontmost_revealed, in_front,
};
use super::effects::{in_some_place, law_node_of_a_window, stands_in};
use super::laws::{
    lemma_brought_up, lemma_contains_right, lemma_focus_given, lemma_shown_after, lemma_switch,
    seated,
};
use super::report::{
    brought_back, first_placed, framed_at, layout_inputs, layout_planned, measured_by,
    monitors_listed, resizable, steps_planned, tiled_of, windows_listed, workspaces_listed, Extent,
    FloatingStep, LayoutPlan, Unpark,
};
use super::setup::{
    after_configuring, at_startup, configured, law_least_name_is_least, orientation_hint,
};
use super::{active_name, parked, raised, ActionView, StateView};
use crate::config::{filter_map, ConfigView, FloatingRuleView, Gaps, WorkspaceRuleView};
use crate::desk::{connected, lookup, monitor_from, shown, Monitor};
use crate::forest::{leaves_of, window_at, Leaf};
use crate::grace::waking;
use crate::ipc::{MonitorInfo, OrientationKind, RectInfo, WindowInfo, WorkspaceInfo};
use crate::modes::has_block;
use crate::placement::{cascade_steps_of, FloatGeometry, PlacementKind};
use crate::rules::{applying_rule, regex_refusal};
use crate::text::{part_of, text_less};

verus! {

/// A monitor with an id is connected.
pub open spec fn is_there(s: StateView, monitor: u32) -> bool {
    exists|i: int| 0 <= i < s.desk.monitors.len() && (#[trigger] s.desk.monitors[i]).id == monitor
}

proof fn lemma_is_there(s: StateView, monitor: u32)
    ensures
        is_there(s, monitor) <==> connected(s.desk.monitors, monitor),
{
    if is_there(s, monitor) {
        let i = choose|i: int|
            0 <= i < s.desk.monitors.len() && (#[trigger] s.desk.monitors[i]).id == monitor;
        assert(s.desk.monitors[i].id == monitor);
    }
}

/// A connected monitor is laid out by the tree of the workspace that it shows,
/// with the gaps that are set for that workspace, else the general ones; where a
/// node fills the monitor, the window there alone is laid out.
pub proof fn law_monitors_are_laid_out_by_what_they_show(
    s: StateView,
    monitor: u32,
    plan: Option<LayoutPlan>,
    inputs: Option<(String, Gaps)>,
)
    requires
        layout_planned(s, monitor, plan),
        layout_inputs(s, monitor, inputs),
    ensures
        ({
            let name = s.desk.active[monitor];
            let gaps = if s.workspace_gaps.contains_key(name) {
                s.workspace_gaps[name]
            } else {
                s.gaps
            };
            let fills = s.forest.fullscreen.contains_key(name);
            &&& plan is Some <==> s.desk.active.contains_key(monitor) && is_there(s, monitor)
                && s.forest.leaves.contains_key(name)
            &&& inputs is Some <==> plan is Some
            &&& inputs matches Some((workspace, own)) ==> workspace@ == name && own == gaps
            &&& plan is Some ==> (plan->0 is Fill <==> fills)
            &&& plan matches Some(LayoutPlan::Tree { workspace, gaps: g, accordion_padding })
                ==> workspace@ == name && g == gaps && accordion_padding == s.accordion_padding
            &&& plan matches Some(LayoutPlan::Fill { window: Some(w) }) ==> window_at(
                s.forest,
                name,
                s.forest.fullscreen[name],
            ) == Some(w) && s.windows.contains_key(w)
            &&& plan matches Some(LayoutPlan::Fill { window: None }) ==> (forall|w: u32| #[trigger]
                s.windows.contains_key(w) ==> window_at(
                    s.forest,
                    name,
                    s.forest.fullscreen[name],
                ) != Some(w))
        }),
{
}

proof fn lemma_steps(
    s: StateView,
    monitor: u32,
    steps: Seq<FloatingStep>,
    x: FloatingStep,
    name: Seq<char>,
)
    requires
        steps_planned(s, monitor, steps),
        lookup(s.desk.active, monitor) == Some(name),
        connected(s.desk.monitors, monitor),
    ensures
        steps.contains(x) <==> super::report::step_on(s, name, x),
{
    let shows = lookup(s.desk.active, monitor)->0;
    assert(shows == name);
    assert(super::report::step_on(s, shows, x) == super::report::step_on(s, name, x));
}

/// A floating window of what a monitor shows is brought to where the user had
/// it, else to its first place, unless it was brought there before. Nothing is
/// done to any other window.
pub proof fn law_floating_windows_are_brought_to_their_places(
    s: StateView,
    monitor: u32,
    steps: Seq<FloatingStep>,
    id: u32,
    geometry: FloatGeometry,
)
    requires
        steps_planned(s, monitor, steps),
    ensures
        ({
            let here = s.desk.active.contains_key(monitor) && is_there(s, monitor)
                && s.placements.contains_key(id) && s.placements[id].workspace
                == s.desk.active[monitor];
            &&& steps.contains(FloatingStep::Restore { window: id, geometry }) <==> here
                && s.placements[id].kind == (PlacementKind::Floating { manual: Some(geometry) })
            &&& steps.contains(FloatingStep::Place { window: id }) <==> here
                && s.placements[id].kind == (PlacementKind::Floating { manual: None })
                && !s.floating_placed.contains_key(id)
        }),
{
    lemma_is_there(s, monitor);
    let name = s.desk.active[monitor];
    let restore = FloatingStep::Restore { window: id, geometry };
    let place = FloatingStep::Place { window: id };
    if s.desk.active.contains_key(monitor) && is_there(s, monitor) {
        lemma_steps(s, monitor, steps, restore, name);
        lemma_steps(s, monitor, steps, place, name);
        if super::floats_on(s, name, id) {
            assert(super::report::step_for(s, id) == Some(restore) ==> super::report::step_on(
                s,
                name,
                restore,
            ));
            assert(super::report::step_for(s, id) == Some(place) ==> super::report::step_on(
                s,
                name,
                place,
            ));
        }
    }
}

/// A window is tiled or floats on a workspace that no monitor shows.
pub open spec fn out_of_sight(s: StateView, id: u32) -> bool {
    &&& s.placements.contains_key(id)
    &&& s.placements[id].kind is Tiled || s.placements[id].kind is Floating
    &&& forall|m: u32| #[trigger]
        s.desk.active.contains_key(m) ==> s.desk.active[m] != s.placements[id].workspace
}

/// Exactly the tiled and floating windows on workspaces that no monitor shows
/// are brought back before the window manager goes, each to where the user had
/// it, if it was anywhere. Without a focused monitor none is.
pub proof fn law_hidden_windows_are_brought_back(s: StateView, back: Seq<Unpark>, id: u32)
    requires
        brought_back(s, back),
    ensures
        out_of_sight(s, id) && is_there(s, s.desk.focused) ==> exists|i: int|
            0 <= i < back.len() && (#[trigger] back[i]).window == id,
        forall|i: int|
            0 <= i < back.len() && (#[trigger] back[i]).window == id ==> out_of_sight(s, id)
                && is_there(s, s.desk.focused) && (match back[i].geometry {
                Some(g) => s.placements[id].kind == (PlacementKind::Floating { manual: Some(g) }),
                None => s.placements[id].kind is Tiled || s.placements[id].kind == (
                PlacementKind::Floating { manual: None }),
            }),
{
    lemma_is_there(s, s.desk.focused);
    assert forall|x: u32| out_of_sight(s, x) <==> #[trigger] parked(s, x) by {}
    if out_of_sight(s, id) {
        assert(parked(s, id));
    }
}

/// The first place of a known floating window has the width and the height that
/// the rule for it gives, each by itself, and else the shares of the screen that
/// are the defaults for each; it is centred as the rule says, else as the
/// defaults say.
pub proof fn law_first_place_is_by_rule_and_defaults(s: StateView, id: u32)
    ensures
        first_placed(s, id).1 is Some <==> s.windows.contains_key(id),
        s.windows.contains_key(id) ==> {
            let place = first_placed(s, id).1->0;
            let rule = applying_rule(
                s.floating_rules,
                s.windows[id].bundle_id,
                s.windows[id].title,
            );
            let d = s.floating_defaults;
            &&& rule is Some && rule->0.width is Some ==> place.width == Extent::Points(
                rule->0.width->0,
            )
            &&& rule is None || rule->0.width is None ==> place.width == Extent::Share(
                d.width_ratio,
            )
            &&& rule is Some && rule->0.height is Some ==> place.height == Extent::Points(
                rule->0.height->0,
            )
            &&& rule is None || rule->0.height is None ==> place.height == Extent::Share(
                d.height_ratio,
            )
            &&& place.center == (if rule is Some && rule->0.center is Some {
                rule->0.center->0
            } else {
                d.center
            })
            &&& first_placed(s, id).0.floating_placed.contains_key(id)
            &&& first_placed(s, id).0.placements == s.placements
        },
{
}

/// A rule's width says nothing of the height, and its height nothing of the
/// width; nor do they say whether a window is centred.
pub proof fn law_width_and_height_are_apart(
    s: StateView,
    t: StateView,
    id: u32,
    r: FloatingRuleView,
    q: FloatingRuleView,
)
    requires
        s.windows.contains_key(id),
        t == (StateView { floating_rules: t.floating_rules, ..s }),
        applying_rule(s.floating_rules, s.windows[id].bundle_id, s.windows[id].title) == Some(r),
        applying_rule(t.floating_rules, s.windows[id].bundle_id, s.windows[id].title) == Some(q),
    ensures
        r.height == q.height ==> first_placed(s, id).1->0.height == first_placed(t, id).1->0.height,
        r.width == q.width ==> first_placed(s, id).1->0.width == first_placed(t, id).1->0.width,
        r.center == q.center ==> first_placed(s, id).1->0.center == first_placed(t, id).1->0.center,
{
}

/// Two windows that are centred on one workspace, one after the other, do not
/// cover each other, and the first of all is in the middle. One that is not
/// centred is not moved off, and is not counted.
pub proof fn law_centred_windows_do_not_cover_each_other(s: StateView, id: u32, other: u32)
    requires
        s.windows.contains_key(id) && s.windows.contains_key(other),
        s.placements.contains_key(id) && s.placements.contains_key(other),
    ensures
        ({
            let (mid, first) = first_placed(s, id);
            let (after, second) = first_placed(mid, other);
            let name = s.placements[id].workspace;
            &&& first->0.center && second->0.center && s.placements[other].workspace == name
                ==> first->0.steps != second->0.steps
            &&& first->0.center && !s.forest.cascade.contains_key(name) ==> first->0.steps == 0
            &&& !first->0.center ==> first->0.steps == 0 && mid.forest == s.forest
            &&& s.placements[other].workspace != name ==> lookup(
                mid.forest.cascade,
                s.placements[other].workspace,
            ) == lookup(s.forest.cascade, s.placements[other].workspace)
        }),
{
    let (mid, first) = first_placed(s, id);
    let name = s.placements[id].workspace;
    let index = match lookup(s.forest.cascade, name) {
        Some(n) => n,
        None => 0u32,
    };
    let next = index.wrapping_add(1);
    assert(next as int == (if index == u32::MAX {
        0
    } else {
        index + 1
    }));
    assert(cascade_steps_of(index) != cascade_steps_of(next));
    assert(-4 <= cascade_steps_of(index) <= 4);
    assert(-4 <= cascade_steps_of(next) <= 4);
}

/// Every known window is told of once, by its id, its application, its title,
/// where it is and how it is placed.
pub proof fn law_windows_are_told_truly(s: StateView, v: Seq<WindowInfo>, i: int, id: u32)
    requires
        windows_listed(s, v),
        s.windows.dom().finite(),
    ensures
        0 <= i < v.len() ==> {
            let w = v[i];
            &&& s.windows.contains_key(w.id)
            &&& w.pid == s.windows[w.id].pid && w.title@ == s.windows[w.id].title
            &&& w.frame == s.windows[w.id].frame
            &&& !s.placements.contains_key(w.id) ==> w.placement is Tiled
            &&& s.placements.contains_key(w.id) ==> {
                let k = s.placements[w.id].kind;
                &&& w.placement is Tiled <==> k is Tiled
                &&& w.placement is Floating <==> k is Floating
                &&& w.placement is Popup <==> k is Popup
                &&& w.placement is Minimized <==> k is Minimized
                &&& w.placement is HiddenApplication <==> k is HiddenApplication
                &&& w.placement is NativeFullscreen <==> k is NativeFullscreen
            }
        },
        s.windows.contains_key(id) ==> exists|k: int| 0 <= k < v.len() && (#[trigger] v[k]).id == id,
{
    let ids = Seq::new(v.len(), |k: int| v[k].id);
    assert(ids.no_duplicates());
    ids.unique_seq_to_set();
    assert(ids.to_set().subset_of(s.windows.dom())) by {
        assert forall|x: u32| ids.to_set().contains(x) implies s.windows.dom().contains(x) by {
            let k = ids.index_of(x);
            assert(super::report::window_report(s, v[k].id, v[k]));
        }
    }
    vstd::set_lib::lemma_subset_equality(ids.to_set(), s.windows.dom());
    if s.windows.contains_key(id) {
        assert(ids.to_set().contains(id));
        let k = ids.index_of(id);
        assert(v[k].id == id);
    }
    if 0 <= i < v.len() {
        assert(super::report::window_report(s, v[i].id, v[i]));
    }
}

/// Once a window was put somewhere, it is told to be there, and nothing else
/// changes.
pub proof fn law_written_frames_are_told(
    s: StateView,
    id: u32,
    frame: RectInfo,
    v: Seq<WindowInfo>,
    i: int,
)
    requires
        windows_listed(framed_at(s, id, frame), v),
        0 <= i < v.len(),
    ensures
        s.windows.contains_key(v[i].id),
        v[i].id == id ==> v[i].frame == frame,
        v[i].id != id ==> v[i].frame == s.windows[v[i].id].frame,
        v[i].title@ == s.windows[v[i].id].title && v[i].pid == s.windows[v[i].id].pid,
        framed_at(s, id, frame).placements == s.placements,
        framed_at(s, id, frame).forest == s.forest,
        framed_at(s, id, frame).desk == s.desk,
{
    assert(super::report::window_report(framed_at(s, id, frame), v[i].id, v[i]));
}

/// Every workspace is told of once, in the order of the names, with whether and
/// where it is shown and how many tiled and floating windows it has.
pub proof fn law_workspaces_are_told_truly(
    s: StateView,
    v: Seq<WorkspaceInfo>,
    i: int,
    j: int,
    name: Seq<char>,
)
    requires
        workspaces_listed(s, v),
    ensures
        s.forest.leaves.contains_key(name) <==> exists|k: int|
            0 <= k < v.len() && (#[trigger] v[k]).name@ == name,
        0 <= i < j < v.len() ==> text_less(v[i].name@, v[j].name@),
        0 <= i < v.len() ==> {
            &&& v[i].window_count == s.forest.leaves[v[i].name@].len()
            &&& v[i].active <==> exists|m: u32| #[trigger]
                s.desk.active.contains_key(m) && s.desk.active[m] == v[i].name@
            &&& v[i].active <==> v[i].monitor is Some
            &&& v[i].monitor is Some ==> s.desk.active.contains_key(v[i].monitor->0)
                && s.desk.active[v[i].monitor->0] == v[i].name@
        },
{
    if 0 <= i < v.len() {
        assert(super::report::workspace_report(s, v[i].name@, v[i]));
    }
}

/// Every connected monitor is told of, in order, with what it shows and whether
/// it is the main one and the focused one.
pub proof fn law_monitors_are_told_truly(s: StateView, v: Seq<MonitorInfo>, i: int)
    requires
        monitors_listed(s, v),
    ensures
        v.len() == s.desk.monitors.len(),
        0 <= i < v.len() ==> {
            let m = s.desk.monitors[i];
            &&& v[i].id == m.id && v[i].is_main == m.is_main && v[i].frame == m.frame
            &&& v[i].focused <==> m.id == s.desk.focused
            &&& v[i].active_workspace is Some <==> s.desk.active.contains_key(m.id)
            &&& v[i].active_workspace is Some ==> v[i].active_workspace->0@
                == s.desk.active[m.id]
        },
{
    if 0 <= i < v.len() {
        assert(crate::desk::monitor_report(s.desk, s.desk.monitors[i], v[i]));
    }
}

proof fn lemma_tiled_of(s: StateView, leaves: Seq<Leaf>, id: u32)
    ensures
        tiled_of(s, leaves).contains(id) <==> (exists|i: int|
            0 <= i < leaves.len() && (#[trigger] leaves[i]).window == id) && !(
        s.placements.contains_key(id) && s.placements[id].kind is Floating),
    decreases leaves.len(),
{
    if leaves.len() > 0 {
        let init = leaves.drop_last();
        let last = leaves.last().window;
        lemma_tiled_of(s, init, id);
        let floats = s.placements.contains_key(last) && s.placements[last].kind is Floating;
        if exists|i: int| 0 <= i < init.len() && (#[trigger] init[i]).window == id {
            let i = choose|i: int| 0 <= i < init.len() && (#[trigger] init[i]).window == id;
            assert(leaves[i].window == id);
        }
        if exists|i: int| 0 <= i < leaves.len() && (#[trigger] leaves[i]).window == id {
            let i = choose|i: int| 0 <= i < leaves.len() && (#[trigger] leaves[i]).window == id;
            if i < init.len() {
                assert(init[i].window == id);
            }
        }
        assert(leaves[leaves.len() - 1].window == last);
        if !floats {
            let all = tiled_of(s, init).push(last);
            assert(all[all.len() - 1] == last);
            if tiled_of(s, init).contains(id) {
                let k = tiled_of(s, init).index_of(id);
                assert(all[k] == id);
            }
            if all.contains(id) && id != last {
                let k = all.index_of(id);
                assert(tiled_of(s, init)[k] == id);
            }
        }
    }
}

/// The tiled windows of a workspace are those of its tree that do not float.
pub proof fn law_tiled_windows_do_not_float(s: StateView, name: Seq<char>, id: u32)
    ensures
        tiled_of(s, leaves_of(s.forest, name)).contains(id) <==> seated(s.forest, name, id) && !(
        s.placements.contains_key(id) && s.placements[id].kind is Floating),
{
    lemma_tiled_of(s, leaves_of(s.forest, name), id);
}

/// A drag of the mouse may resize what the focused monitor shows, if that has
/// two tiled windows and no window fills the monitor, and nothing else.
pub proof fn law_drags_resize_what_is_shown(s: StateView, name: Seq<char>)
    ensures
        resizable(s) == Some(name) <==> s.desk.active.contains_key(s.desk.focused)
            && s.desk.active[s.desk.focused] == name && is_there(s, s.desk.focused)
            && s.forest.leaves.contains_key(name) && !s.forest.fullscreen.contains_key(name)
            && tiled_of(s, s.forest.leaves[name]).len() >= 2,
{
}

proof fn lemma_monitor_from(s: Seq<Monitor>, id: u32, from: int)
    requires
        0 <= from <= s.len(),
    ensures
        match monitor_from(s, id, from) {
            Some(m) => exists|i: int|
                from <= i < s.len() && (#[trigger] s[i]) == m && m.id == id,
            None => forall|i: int| from <= i < s.len() ==> (#[trigger] s[i]).id != id,
        },
    decreases s.len() - from,
{
    if from < s.len() && s[from].id != id {
        lemma_monitor_from(s, id, from + 1);
    }
}

/// A new tree has the axis that is configured; without one it goes along the
/// longer side of the focused monitor.
pub proof fn law_trees_go_along_the_longer_side(s: StateView, i: int)
    ensures
        s.root_orientation is Some ==> orientation_hint(s) == s.root_orientation->0,
        s.root_orientation is None && 0 <= i < s.desk.monitors.len() && s.desk.monitors[i].id
            == s.desk.focused && (forall|j: int|
            0 <= j < s.desk.monitors.len() && j != i ==> (#[trigger] s.desk.monitors[j]).id
                != s.desk.focused) ==> orientation_hint(s) == (if s.desk.monitors[i].tall {
            OrientationKind::Vertical
        } else {
            OrientationKind::Horizontal
        }),
{
    lemma_monitor_from(s.desk.monitors, s.desk.focused, 0);
}

proof fn lemma_filter_map<A, B>(s: Seq<A>, f: spec_fn(A) -> Option<B>, b: B)
    ensures
        filter_map(s, f).contains(b) <==> exists|i: int| 0 <= i < s.len() && f(#[trigger] s[i]) == Some(b),
        (forall|i: int| 0 <= i < s.len() ==> f(#[trigger] s[i]) is None) ==> filter_map(s, f).len()
            == 0,
        filter_map(s, f).len() <= s.len(),
    decreases s.len(),
{
    if s.len() > 0 {
        let init = s.drop_last();
        lemma_filter_map(init, f, b);
        let rest = filter_map(init, f);
        let all = filter_map(s, f);
        assert(s[s.len() - 1] == s.last());
        if exists|i: int| 0 <= i < init.len() && f(#[trigger] init[i]) == Some(b) {
            let i = choose|i: int| 0 <= i < init.len() && f(#[trigger] init[i]) == Some(b);
            assert(s[i] == init[i]);
        }
        if exists|i: int| 0 <= i < s.len() && f(#[trigger] s[i]) == Some(b) {
            let i = choose|i: int| 0 <= i < s.len() && f(#[trigger] s[i]) == Some(b);
            if i < init.len() {
                assert(init[i] == s[i]);
            }
        }
        if f(s.last()) is Some {
            assert(all[all.len() - 1] == f(s.last())->0);
            if rest.contains(b) {
                let k = rest.index_of(b);
                assert(all[k] == b);
            }
            if all.contains(b) && f(s.last()) != Some(b) {
                let k = all.index_of(b);
                assert(rest[k] == b);
            }
        }
        if forall|i: int| 0 <= i < s.len() ==> f(#[trigger] s[i]) is None {
            assert forall|i: int| 0 <= i < init.len() implies f(#[trigger] init[i]) is None by {
                assert(init[i] == s[i]);
            }
        }
    }
}

/// A configuration takes effect in every part: gaps, padding, what follows what,
/// keybindings, defaults and rules are as it says, and all is laid out. Rules
/// are kept if they can be followed.
pub proof fn law_configuration_takes_effect(
    s: StateView,
    c: ConfigView,
    rule: WorkspaceRuleView,
    floating: FloatingRuleView,
)
    ensures
        ({
            let after = configured(s, c);
            &&& after.gaps == c.gaps && after.workspace_gaps == c.workspace_gaps
            &&& after.accordion_padding == c.settings.accordion_padding
            &&& after.mouse_follows_focus == c.settings.mouse_follows_focus
            &&& after.focus_follows_monitor == c.settings.focus_follows_monitor
            &&& after.floating_defaults == c.floating_defaults
            &&& after.modes.blocks == c.keybindings
            &&& after.modes.current == (if has_block(c.keybindings, s.modes.current) {
                s.modes.current
            } else {
                "main"@
            })
            &&& after.config_loaded_once
            &&& after.root_orientation == Some(OrientationKind::Horizontal)
                <==> c.settings.default_root_orientation == "horizontal"@
            &&& after.root_orientation == Some(OrientationKind::Vertical)
                <==> c.settings.default_root_orientation == "vertical"@
            &&& after.workspace_rules.contains(rule) <==> c.workspace_rules.contains(rule)
                && exists|i: int|
                0 <= i < c.workspaces.len() && (#[trigger] c.workspaces[i]).name == rule.workspace
            &&& after.floating_rules.contains(floating) <==> c.floating_rules.contains(floating) && (
            floating.title is None || regex_refusal(floating.title->0) is None)
            &&& after.windows == s.windows && after.placements == s.placements && after.grace
                == s.grace
            &&& c.workspace_rules.contains(rule) && !after.workspace_rules.contains(rule)
                ==> exists|i: int| 0 <= i < after.warnings.len() && part_of(
                rule.app_id,
                #[trigger] after.warnings[i],
            ) && part_of(rule.workspace, after.warnings[i])
            &&& c.floating_rules.contains(floating) && !after.floating_rules.contains(floating)
                ==> exists|i: int| 0 <= i < after.warnings.len() && part_of(
                floating.app_id,
                #[trigger] after.warnings[i],
            )
            &&& (forall|i: int|
                0 <= i < c.workspace_rules.len() ==> exists|k: int|
                    0 <= k < c.workspaces.len() && (#[trigger] c.workspaces[k]).name == (
                    #[trigger] c.workspace_rules[i]).workspace) && c.floating_rules.len() == 0
                ==> after.warnings.len() == 0
            &&& after_configuring().contains(ActionView::RelayoutAll)
        }),
{
    let after = configured(s, c);
    crate::modes::law_new_keybindings_keep_the_mode(s.modes, c.keybindings);
    reveal_strlit("horizontal");
    reveal_strlit("vertical");
    assert("horizontal"@.len() == 10 && "vertical"@.len() == 8);
    let f = |x: WorkspaceRuleView| crate::rules::kept_workspace_rule(c.workspaces, x);
    lemma_filter_map(c.workspace_rules, f, rule);
    let g = |x: FloatingRuleView| crate::rules::usable_rule(x);
    lemma_filter_map(c.floating_rules, g, floating);
    if c.workspace_rules.contains(rule) {
        let k = c.workspace_rules.index_of(rule);
        assert(c.workspace_rules[k] == rule);
    }
    if c.floating_rules.contains(floating) {
        let k = c.floating_rules.index_of(floating);
        assert(c.floating_rules[k] == floating);
    }
    assert(after_configuring()[0] == ActionView::RelayoutAll);
    let wf = |x: WorkspaceRuleView| crate::rules::workspace_warning(c.workspaces, x);
    let wg = |x: FloatingRuleView| crate::rules::title_warning(x);
    let first = filter_map(c.workspace_rules, wf);
    let second = filter_map(c.floating_rules, wg);
    assert(after.warnings == first + second);
    crate::rules::law_warnings_name_their_rule(c.workspaces, rule, floating);
    crate::rules::law_rules_are_kept_or_warned_of(c.workspaces, rule, floating);
    if c.workspace_rules.contains(rule) && !after.workspace_rules.contains(rule) {
        let w = wf(rule)->0;
        lemma_filter_map(c.workspace_rules, wf, w);
        let k = c.workspace_rules.index_of(rule);
        assert(wf(c.workspace_rules[k]) == Some(w));
        let i = first.index_of(w);
        assert(after.warnings[i] == w);
    }
    if c.floating_rules.contains(floating) && !after.floating_rules.contains(floating) {
        let w = wg(floating)->0;
        lemma_filter_map(c.floating_rules, wg, w);
        let k = c.floating_rules.index_of(floating);
        assert(wg(c.floating_rules[k]) == Some(w));
        let i = second.index_of(w);
        assert(after.warnings[first.len() + i] == w);
    }
    if forall|i: int|
        0 <= i < c.workspace_rules.len() ==> exists|k: int|
            0 <= k < c.workspaces.len() && (#[trigger] c.workspaces[k]).name == (
            #[trigger] c.workspace_rules[i]).workspace {
        assert forall|i: int| 0 <= i < c.workspace_rules.len() implies wf(
            #[trigger] c.workspace_rules[i],
        ) is None by {
            let k = choose|k: int|
                0 <= k < c.workspaces.len() && (#[trigger] c.workspaces[k]).name
                    == c.workspace_rules[i].workspace;
            assert(c.workspaces[k].name == c.workspace_rules[i].workspace);
        }
        lemma_filter_map(c.workspace_rules, wf, Seq::empty());
    }
}

/// At the start the focused monitor shows the workspace that the settings name,
/// if it is declared; else the declared one whose name comes first; else what it
/// showed.
pub proof fn law_start_shows_the_configured_workspace(s: StateView, c: ConfigView, i: int)
    requires
        at_startup(s),
        0 <= i < c.workspaces.len(),
    ensures
        ({
            let after = configured(s, c);
            let named = c.settings.default_workspace is Some && exists|k: int|
                0 <= k < c.workspaces.len() && (#[trigger] c.workspaces[k]).name
                    == c.settings.default_workspace->0;
            let shows = after.desk.active[after.desk.focused];
            &&& after.desk.focused == s.desk.focused
            &&& after.desk.active.contains_key(after.desk.focused)
            &&& named ==> shows == c.settings.default_workspace->0
            &&& !named ==> !text_less(c.workspaces[i].name, shows) && exists|k: int|
                0 <= k < c.workspaces.len() && (#[trigger] c.workspaces[k]).name == shows
        }),
{
    law_least_name_is_least(c.workspaces, i);
}

/// An application is one of the system's own.
pub open spec fn systems_own(bundle: Option<Seq<char>>) -> bool {
    ||| bundle == Some("com.apple.dock"@)
    ||| bundle == Some("com.apple.screencaptureui"@)
    ||| bundle == Some("com.apple.SecurityAgent"@)
    ||| bundle == Some("com.apple.Spotlight"@)
    ||| bundle == Some("com.apple.notificationcenterui"@)
}

/// A window is not brought into view because its application came to the front
/// where that is not the user's doing: the application was in front before, the
/// one before it lost its last window, some application is still launching, or
/// the system wakes up. Then nothing is done, unless the window's workspace is
/// shown anyway.
pub proof fn law_nothing_is_revealed_unasked(
    s: StateView,
    pid: i32,
    id: u32,
    previous_bundle: Option<Seq<char>>,
    allow_unchanged_pid: bool,
    now: u64,
    default_focus: Option<u64>,
    after: StateView,
    acts: Seq<ActionView>,
)
    requires
        front_revealed(
            s,
            pid,
            Some(id),
            previous_bundle,
            allow_unchanged_pid,
            now,
            default_focus,
            after,
            acts,
        ),
        s.placements.contains_key(id),
        forall|m: u32| #[trigger]
            s.desk.active.contains_key(m) ==> s.desk.active[m] != s.placements[id].workspace,
        ({
            ||| s.last_frontmost_pid == Some(pid) && !allow_unchanged_pid
            ||| waking(s.grace, now)
            ||| exists|p: i32| #[trigger] s.grace.launches.contains_key(p)
            ||| !systems_own(previous_bundle) && s.last_frontmost_pid is Some && forall|x: u32| #[trigger]
                s.windows.contains_key(x) && s.windows[x].pid == s.last_frontmost_pid->0
                    ==> s.grace.missing.contains_key(x) || (s.placements.contains_key(x)
                    && s.placements[x].kind is Popup)
        }),
    ensures
        acts.len() == 0,
        after == (StateView { last_frontmost_pid: Some(pid), ..s }),
{
    if exists|p: i32| #[trigger] s.grace.launches.contains_key(p) {
        let p = choose|p: i32| #[trigger] s.grace.launches.contains_key(p);
        assert(s.grace.launches.contains_key(p));
    }
}

/// Where the user brought an application to the front, its focused window comes
/// into view: its workspace is shown on the focused monitor then, the window has
/// the focus there, and it is raised. Who is in front is known from then on.
pub proof fn law_what_comes_to_the_front_is_revealed(
    s: StateView,
    pid: i32,
    id: u32,
    previous_bundle: Option<Seq<char>>,
    allow_unchanged_pid: bool,
    now: u64,
    default_focus: Option<u64>,
    after: StateView,
    acts: Seq<ActionView>,
    w: u32,
)
    requires
        front_revealed(
            s,
            pid,
            Some(id),
            previous_bundle,
            allow_unchanged_pid,
            now,
            default_focus,
            after,
            acts,
        ),
        s.placements.contains_key(id),
        s.forest.leaves.contains_key(s.placements[id].workspace),
        s.last_frontmost_pid != Some(pid) || allow_unchanged_pid,
        !waking(s.grace, now),
        forall|p: i32| !#[trigger] s.grace.launches.contains_key(p),
        s.last_frontmost_pid is None || systems_own(previous_bundle) || (s.windows.contains_key(w)
            && s.windows[w].pid == s.last_frontmost_pid->0 && !s.grace.missing.contains_key(w) && !(
        s.placements.contains_key(w) && s.placements[w].kind is Popup)),
    ensures
        ({
            let name = s.placements[id].workspace;
            &&& active_name(after) == name
            &&& s.placements[id].kind.in_tree() && in_some_place(s.forest, name, id) ==> {
                &&& after.forest.focus.contains_key(name)
                &&& stands_in(after.forest, name, after.forest.focus[name], id)
            }
            &&& s.windows.contains_key(id) && s.last_frontmost_pid != Some(pid) ==> acts.contains(
                ActionView::Raise { window: id, warp: s.mouse_follows_focus },
            )
            &&& s.windows.contains_key(id) && !shown(s.desk.active, name) ==> acts.contains(
                ActionView::Raise { window: id, warp: s.mouse_follows_focus },
            )
            &&& after.placements == s.placements
        }),
{
    let front = in_front(s, pid);
    let p = s.placements[id];
    let name = p.workspace;
    if s.last_frontmost_pid is Some && !systems_own(previous_bundle) {
        assert(super::bringup::lives(s, s.last_frontmost_pid->0)) by {
            assert(s.windows.contains_key(w));
        }
    }
    assert(!super::bringup::stays_parked(
        s,
        pid,
        previous_bundle,
        allow_unchanged_pid,
        now,
    ));
    let (mid, up) = choose|mid: StateView, up: Result<Seq<ActionView>, Seq<char>>| #[trigger]
        brought_up(front, name, default_focus, mid, up) && up is Ok && ({
            let (focused, record) = focus_given(mid, id);
            let moved = !shown(s.desk.active, name) || mid.desk.focused != s.desk.focused;
            let (end, raise) = if s.last_frontmost_pid != Some(pid) || moved {
                raised(focused, id)
            } else {
                (focused, Seq::empty())
            };
            after == end && acts == up->Ok_0 + record + raise
        });
    let (focused, record) = focus_given(mid, id);
    lemma_brought_up(front, name, default_focus, mid, up);
    if !shown(s.desk.active, name) {
        lemma_switch(front, name, default_focus, mid, up);
    }
    lemma_focus_given(mid, id);
    lemma_shown_after(front, name, default_focus, mid, up);
    super::effects::lemma_windows_stay(front, name, default_focus, mid, up);
    law_node_of_a_window(mid.forest, name, id);
    assert(leaves_of(mid.forest, name) == leaves_of(s.forest, name));
    assert(leaves_of(focused.forest, name) == leaves_of(mid.forest, name));
    if p.kind.in_tree() && in_some_place(s.forest, name, id) {
        let n = choose|node: u64| stands_in(s.forest, name, node, id);
        assert(mid.forest.leaves.contains_key(name));
        assert(stands_in(mid.forest, name, n, id));
        assert(focused.forest.leaves.contains_key(name));
    }
    if s.windows.contains_key(id) && (s.last_frontmost_pid != Some(pid) || !shown(
        s.desk.active,
        name,
    )) {
        let raise = raised(focused, id).1;
        assert(raise[0] == (ActionView::Raise { window: id, warp: s.mouse_follows_focus }));
        lemma_contains_right(
            up->Ok_0 + record,
            raise,
            ActionView::Raise { window: id, warp: s.mouse_follows_focus },
        );
    }
}

/// Nothing is brought into view while an application is launching, or where
/// nothing is in front or the application in front has no focused window.
pub proof fn law_nothing_is_revealed_while_launching(
    s: StateView,
    frontmost: Option<i32>,
    focused: Option<u32>,
    previous_bundle: Option<Seq<char>>,
    allow_unchanged_pid: bool,
    now: u64,
    default_focus: Option<u64>,
    after: StateView,
    acts: Seq<ActionView>,
    p: i32,
)
    requires
        frontmost_revealed(
            s,
            frontmost,
            focused,
            previous_bundle,
            allow_unchanged_pid,
            now,
            default_focus,
            after,
            acts,
        ),
    ensures
        s.grace.launches.contains_key(p) || frontmost is None || focused is None ==> after == s
            && acts.len() == 0,
        (forall|q: i32| !#[trigger] s.grace.launches.contains_key(q)) && frontmost is Some
            ==> front_revealed(
            s,
            frontmost->0,
            focused,
            previous_bundle,
            allow_unchanged_pid,
            now,
            default_focus,
            after,
            acts,
        ),
{
}

/// The window that the system has focused has the focus of its workspace, if it
/// is in its tree, and the trees are told where that is new. Nothing else
/// changes, and no window is raised.
pub proof fn law_focus_follows_the_system(s: StateView, id: u32)
    ensures
        ({
            let (after, acts) = focus_followed(s, Some(id));
            let name = s.placements[id].workspace;
            let here = s.placements.contains_key(id) && s.placements[id].kind.in_tree()
                && in_some_place(s.forest, name, id);
            &&& here ==> after.forest.focus.contains_key(name) && stands_in(
                s.forest,
                name,
                after.forest.focus[name],
                id,
            ) && after.forest.focus.remove(name) == s.forest.focus.remove(name)
            &&& here && after != s ==> acts.contains(
                ActionView::RecordFocus { workspace: name, node: after.forest.focus[name] },
            )
            &&& !here ==> after == s
            &&& after == s ==> acts.len() == 0
            &&& acts.len() <= 1
            &&& after.forest.leaves == s.forest.leaves && after.desk == s.desk
                && after.placements == s.placements
        }),
        focus_followed(s, None) == (s, Seq::<ActionView>::empty()),
{
    let (after, acts) = focus_followed(s, Some(id));
    if s.placements.contains_key(id) {
        let name = s.placements[id].workspace;
        law_node_of_a_window(s.forest, name, id);
        assert(after.forest.focus.remove(name) =~= s.forest.focus.remove(name));
        if acts.len() > 0 {
            assert(acts[0] is RecordFocus);
        }
    }
}

/// A floating window's place is measured by a connected monitor that shows its
/// workspace, else by the focused one.
pub proof fn law_places_are_measured_where_they_are(s: StateView, id: u32, r: Option<u32>, m: u32)
    requires
        measured_by(s, id, r),
        crate::desk::exclusive(s.desk.active),
    ensures
        s.placements.contains_key(id) && s.desk.active.contains_key(m) && s.desk.active[m]
            == s.placements[id].workspace && is_there(s, m) ==> r == Some(m),
        s.placements.contains_key(id) && (forall|x: u32| #[trigger]
            s.desk.active.contains_key(x) ==> s.desk.active[x] != s.placements[id].workspace)
            && is_there(s, s.desk.focused) ==> r == Some(s.desk.focused),
        !s.placements.contains_key(id) ==> r is None,
        r is Some ==> is_there(s, r->0),
{
    if s.placements.contains_key(id) && s.desk.active.contains_key(m) && s.desk.active[m]
        == s.placements[id].workspace && is_there(s, m) {
        if r is Some && s.desk.active.contains_key(r->0) {
            assert(s.desk.active.contains_key(r->0));
        }
        if exists|x: Option<u32>| #[trigger]
            crate::desk::shows(s.desk.active, s.placements[id].workspace, x) && (x is Some
                ==> !crate::desk::connected(s.desk.monitors, x->0)) {
            let x = choose|x: Option<u32>| #[trigger]
                crate::desk::shows(s.desk.active, s.placements[id].workspace, x) && (x is Some
                    ==> !crate::desk::connected(s.desk.monitors, x->0));
            if x is Some {
                assert(s.desk.active.contains_key(x->0));
            }
        }
    }
}

proof fn lemma_all_tiled(s: StateView, leaves: Seq<Leaf>)
    ensures
        (forall|i: int|
            0 <= i < leaves.len() ==> !(s.placements.contains_key((#[trigger] leaves[i]).window)
                && s.placements[leaves[i].window].kind is Floating)) ==> tiled_of(s, leaves)
            == leaves.map_values(|l: Leaf| l.window),
        tiled_of(s, leaves).len() <= leaves.len(),
    decreases leaves.len(),
{
    if leaves.len() > 0 {
        let init = leaves.drop_last();
        lemma_all_tiled(s, init);
        assert(leaves[leaves.len() - 1] == leaves.last());
        if forall|i: int|
            0 <= i < leaves.len() ==> !(s.placements.contains_key((#[trigger] leaves[i]).window)
                && s.placements[leaves[i].window].kind is Floating) {
            assert forall|i: int| 0 <= i < init.len() implies !(s.placements.contains_key(
                (#[trigger] init[i]).window,
            ) && s.placements[init[i].window].kind is Floating) by {
                assert(init[i] == leaves[i]);
            }
            assert(tiled_of(s, leaves) =~= leaves.map_values(|l: Leaf| l.window));
        }
    } else {
        assert(tiled_of(s, leaves) =~= leaves.map_values(|l: Leaf| l.window));
    }
}

/// Where nothing floats, the tiled windows of a workspace are all windows of its
/// tree, in the tree's order; they are never more.
pub proof fn law_tiled_windows_are_in_the_order_of_the_tree(s: StateView, name: Seq<char>)
    ensures
        (forall|i: int|
            0 <= i < leaves_of(s.forest, name).len() ==> !(s.placements.contains_key(
                (#[trigger] leaves_of(s.forest, name)[i]).window,
            ) && s.placements[leaves_of(s.forest, name)[i].window].kind is Floating)) ==> tiled_of(
            s,
            leaves_of(s.forest, name),
        ) == leaves_of(s.forest, name).map_values(|l: Leaf| l.window),
        tiled_of(s, leaves_of(s.forest, name)).len() <= leaves_of(s.forest, name).len(),
{
    lemma_all_tiled(s, leaves_of(s.forest, name));
}

/// A configuration does away with no workspace, but for the default one at the
/// start, where workspaces are declared and it is none of them. A configuration
/// without workspaces changes nothing of what is shown. At the start, a monitor
/// that showed the workspace to start with shows what the focused one showed,
/// and all others show what they did, but for the default one that is gone.
pub proof fn law_start_changes_no_more_than_needed(
    s: StateView,
    c: ConfigView,
    name: Seq<char>,
    m: u32,
)
    ensures
        ({
            let after = configured(s, c);
            let declared = exists|k: int|
                0 <= k < c.workspaces.len() && (#[trigger] c.workspaces[k]).name == "main"@;
            let gone = at_startup(s) && c.workspaces.len() > 0 && !declared;
            &&& s.forest.leaves.contains_key(name) && !(gone && name == "main"@)
                ==> after.forest.leaves.contains_key(name) && after.forest.leaves[name]
                == s.forest.leaves[name]
            &&& c.workspaces.len() == 0 || !at_startup(s) ==> after.desk == s.desk
            &&& c.workspaces.len() == 0 ==> after.forest == s.forest
            &&& at_startup(s) && c.workspaces.len() > 0 && m != s.desk.focused
                && s.desk.active.contains_key(m) ==> {
                let start = after.desk.active[s.desk.focused];
                let mine = s.desk.active[m];
                let front = s.desk.active[s.desk.focused];
                &&& mine != start && !(gone && mine == "main"@) ==> lookup(after.desk.active, m)
                    == Some(mine)
                &&& mine == start && s.desk.active.contains_key(s.desk.focused) && !(gone && front
                    == "main"@) ==> lookup(after.desk.active, m) == Some(front)
            }
        }),
{
    super::setup::lemma_with_declared(s.forest, c.workspaces);
    if c.workspaces.len() > 0 {
        law_least_name_is_least(c.workspaces, 0);
    }
}

}
