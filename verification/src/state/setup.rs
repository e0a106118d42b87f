//! Taking over a configuration.

use vstd::prelude::*;
use super::{default_workspace, Action, ActionView, StateView, WmState};
use crate::config::{
    filter_map, views, Config, ConfigView, FloatingRuleView, Gaps, WorkspaceConfig,
    WorkspaceConfigView, WorkspaceRuleView,
};
use crate::desk::{monitor_from, swapped_in, DeskView};
use crate::forest::{abolished, with_workspace, ForestView};
use crate::hotkey::KeyCombo;
use crate::ipc::{Command, OrientationKind};
use crate::modes::{
    bound_line, default_mode, entered, meant, one_shot, reconfigured, ModesView,
};
use crate::rules::{
    compile_floating_rules, compile_workspace_rules, declared, is_declared, kept_workspace_rule,
    title_warning, usable_rule, workspace_warning,
};
use crate::table::Table;
use crate::text::{is_less, law_text_order, opt_text, outcome, same_text, text_less, texts};

verus! {

/// The name that comes first among those of some workspaces.
pub open spec fn least_name(s: Seq<WorkspaceConfigView>) -> Seq<char>
    recommends
        s.len() > 0,
    decreases s.len(),
{
    if s.len() <= 1 {
        s[0].name
    } else {
        let m = least_name(s.drop_last());
        if text_less(s.last().name, m) {
            s.last().name
        } else {
            m
        }
    }
}

/// The workspace to show at first: the one that the settings name, if it is
/// declared, else the declared one whose name comes first.
pub open spec fn startup_workspace(c: ConfigView) -> Option<Seq<char>> {
    match c.settings.default_workspace {
        Some(name) if declared(c.workspaces, name) => Some(name),
        _ => if c.workspaces.len() > 0 {
            Some(least_name(c.workspaces))
        } else {
            None
        },
    }
}

/// Finds the workspace to show at first.
pub fn resolve_default_workspace(config: &Config) -> (r: Option<String>)
    ensures
        opt_text(r) == startup_workspace(config@),
{
    match &config.settings.default_workspace {
        Some(name) => {
            if is_declared(&config.workspaces, name.as_str()) {
                return Some(name.clone());
            }
        },
        None => {},
    }
    let all: &Vec<WorkspaceConfig> = &config.workspaces;
    if all.len() == 0 {
        return None;
    }
    let ghost s = views(all@);
    let mut least: usize = 0;
    let mut i: usize = 1;
    while i < all.len()
        invariant
            1 <= i <= all.len(),
            least < i,
            s == views(all@),
            all@[least as int].name@ == least_name(s.take(i as int)),
        decreases all.len() - i,
    {
        proof {
            assert(s.take(i + 1).drop_last() =~= s.take(i as int));
            assert(s.take(i + 1).last() == all@[i as int]@);
        }
        if is_less(all[i].name.as_str(), all[least].name.as_str()) {
            least = i;
        }
        i = i + 1;
    }
    assert(s.take(i as int) =~= s);
    Some(all[least].name.clone())
}

/// No declared name comes before the least one.
pub proof fn law_least_name_is_least(s: Seq<WorkspaceConfigView>, i: int)
    requires
        0 <= i < s.len(),
    ensures
        !text_less(s[i].name, least_name(s)),
        declared(s, least_name(s)),
    decreases s.len(),
{
    if s.len() == 1 {
        law_text_order(s[0].name, s[0].name, s[0].name);
        assert(s[0].name == least_name(s));
    } else {
        let init = s.drop_last();
        let m = least_name(init);
        law_least_name_is_least(init, if i < init.len() { i } else { 0 });
        let k = choose|k: int| 0 <= k < init.len() && (#[trigger] init[k]).name == m;
        assert(s[k].name == m);
        assert(s[s.len() - 1] == s.last());
        law_text_order(s.last().name, s.last().name, s.last().name);
        law_text_order(s[i].name, s.last().name, m);
        if i < init.len() {
            assert(init[i] == s[i]);
        }
    }
}

/// The workspaces once each of some is declared.
pub open spec fn with_declared(f: ForestView, s: Seq<WorkspaceConfigView>) -> ForestView
    decreases s.len(),
{
    if s.len() == 0 {
        f
    } else {
        with_workspace(with_declared(f, s.drop_last()), s.last().name)
    }
}

/// The default workspace gives way to the declared ones: some are declared, and
/// none of its name.
pub open spec fn supplanted(c: ConfigView) -> bool {
    c.workspaces.len() > 0 && !declared(c.workspaces, default_workspace())
}

/// The window manager starts: no configuration was applied, and no window is
/// placed yet.
pub open spec fn at_startup(s: StateView) -> bool {
    !s.config_loaded_once && forall|id: u32| !#[trigger] s.placements.contains_key(id)
}

/// What the monitors show once a configuration was applied at the start. A
/// monitor that showed the workspace to start with shows what the focused one
/// showed.
pub open spec fn first_shown(d: DeskView, c: ConfigView) -> DeskView {
    let active = match startup_workspace(c) {
        Some(name) => swapped_in(d.active, d.focused, name),
        None => d.active,
    };
    DeskView {
        active: if supplanted(c) {
            active.remove_keys(
                Set::new(|id: u32| active.contains_key(id) && active[id] == default_workspace()),
            )
        } else {
            active
        },
        ..d
    }
}

/// The axis that a setting names, `None` for the monitor to decide.
pub open spec fn orientation_of(s: Seq<char>) -> Option<OrientationKind> {
    if s == "horizontal"@ {
        Some(OrientationKind::Horizontal)
    } else if s == "vertical"@ {
        Some(OrientationKind::Vertical)
    } else {
        None
    }
}

/// The state once a configuration was applied. What is shown changes only at
/// the start.
pub open spec fn configured(s: StateView, c: ConfigView) -> StateView {
    let forest = with_declared(s.forest, c.workspaces);
    let first = at_startup(s);
    StateView {
        gaps: c.gaps,
        workspace_gaps: c.workspace_gaps,
        accordion_padding: c.settings.accordion_padding,
        forest: if first && supplanted(c) {
            abolished(forest, default_workspace())
        } else {
            forest
        },
        desk: if first {
            first_shown(s.desk, c)
        } else {
            s.desk
        },
        config_loaded_once: true,
        modes: reconfigured(s.modes, c.keybindings),
        workspace_rules: filter_map(
            c.workspace_rules,
            |x: WorkspaceRuleView| kept_workspace_rule(c.workspaces, x),
        ),
        floating_rules: filter_map(c.floating_rules, |x: FloatingRuleView| usable_rule(x)),
        floating_defaults: c.floating_defaults,
        mouse_follows_focus: c.settings.mouse_follows_focus,
        focus_follows_monitor: c.settings.focus_follows_monitor,
        root_orientation: orientation_of(c.settings.default_root_orientation),
        warnings: filter_map(
            c.workspace_rules,
            |x: WorkspaceRuleView| workspace_warning(c.workspaces, x),
        ) + filter_map(c.floating_rules, |x: FloatingRuleView| title_warning(x)),
        ..s
    }
}

/// What has to be done once a configuration was applied.
pub open spec fn after_configuring() -> Seq<ActionView> {
    seq![ActionView::RelayoutAll]
}

/// The axis that a new tree starts with: as configured, else along the focused
/// monitor's longer side.
pub open spec fn orientation_hint(s: StateView) -> OrientationKind {
    match s.root_orientation {
        Some(o) => o,
        None => match monitor_from(s.desk.monitors, s.desk.focused, 0) {
            Some(m) => if m.tall {
                OrientationKind::Vertical
            } else {
                OrientationKind::Horizontal
            },
            None => OrientationKind::Horizontal,
        },
    }
}

fn copy_gaps(t: &Table<String, Gaps>) -> (r: Table<String, Gaps>)
    requires
        t.wf(),
    ensures
        r.wf(),
        r@ == t@,
{
    let mut out: Table<String, Gaps> = Table::new();
    let n: usize = t.len();
    let ghost order = t.order();
    let mut i: usize = 0;
    while i < n
        invariant
            t.wf(),
            out.wf(),
            order == t.order(),
            n == order.len(),
            i <= n,
            forall|k: Seq<char>| #[trigger] out@.contains_key(k) ==> t@.contains_key(k) && out@[k]
                == t@[k],
            forall|j: int| 0 <= j < i ==> out@.contains_key(#[trigger] order[j]),
        decreases n - i,
    {
        out.insert(t.key_at(i).clone(), *t.value_at(i));
        i = i + 1;
    }
    assert(out@ =~= t@) by {
        assert forall|k: Seq<char>| t@.contains_key(k) implies out@.contains_key(k) by {
            assert(order.contains(k));
            let j = order.index_of(k);
            assert(out@.contains_key(order[j]));
        }
    }
    out
}

fn orientation(s: &str) -> (r: Option<OrientationKind>)
    ensures
        r == orientation_of(s@),
{
    if same_text(s, "horizontal") {
        Some(OrientationKind::Horizontal)
    } else if same_text(s, "vertical") {
        Some(OrientationKind::Vertical)
    } else {
        None
    }
}

impl WmState {
    /// Applies a configuration, at the start or when it changed. Workspaces are
    /// only ever added by it, but for the default one, which gives way to
    /// declared ones at the start.
    pub fn apply_config(&mut self, config: &Config) -> (r: Vec<Action>)
        requires
            old(self).wf(),
            config.wf(),
        ensures
            final(self).wf(),
            final(self)@ == configured(old(self)@, config@),
            views(r@) == after_configuring(),
    {
        let ghost s = self@;
        let ghost c = config@;
        self.gaps = config.gaps;
        self.workspace_gaps = copy_gaps(&config.workspace_gaps);
        self.accordion_padding = config.settings.accordion_padding;
        let all: &Vec<WorkspaceConfig> = &config.workspaces;
        let ghost mid = self@;
        let mut i: usize = 0;
        assert(c.workspaces.take(0) =~= Seq::empty());
        while i < all.len()
            invariant
                self.wf(),
                i <= all.len(),
                c.workspaces == views(all@),
                self@ == (StateView {
                    forest: with_declared(s.forest, c.workspaces.take(i as int)),
                    ..mid
                }),
            decreases all.len() - i,
        {
            proof {
                assert(c.workspaces.take(i + 1).drop_last() =~= c.workspaces.take(i as int));
                assert(c.workspaces.take(i + 1).last() == all@[i as int]@);
            }
            self.forest.declare(all[i].name.as_str());
            i = i + 1;
        }
        assert(c.workspaces.take(i as int) =~= c.workspaces);
        let count: usize = self.placements.len();
        let first: bool = !self.config_loaded_once && count == 0;
        proof {
            if self.placements.order().len() > 0 {
                assert(s.placements.contains_key(self.placements.order()[0]));
            }
        }
        self.config_loaded_once = true;
        assert(first == at_startup(s));
        if first {
            match resolve_default_workspace(config) {
                Some(name) => {
                    self.desk.bring_in(name);
                },
                None => {},
            }
            if all.len() > 0 && !is_declared(all, "main") {
                self.forest.abolish("main");
                self.desk.withdraw("main");
            }
        }
        self.modes.reconfigure(&config.keybindings);
        let (workspace_rules, mut warnings) = compile_workspace_rules(&config.workspace_rules, all);
        let (floating_rules, mut more) = compile_floating_rules(&config.floating_rules);
        let ghost said = texts(warnings@);
        let ghost rest = texts(more@);
        warnings.append(&mut more);
        assert(texts(warnings@) =~= said + rest);
        self.workspace_rules = workspace_rules;
        self.floating_rules = floating_rules;
        self.warnings = warnings;
        self.floating_defaults = config.floating_defaults;
        self.mouse_follows_focus = config.settings.mouse_follows_focus;
        self.focus_follows_monitor = config.settings.focus_follows_monitor;
        self.root_orientation = orientation(config.settings.default_root_orientation.as_str());
        proof {
            let want = configured(s, c);
            assert(self@.desk.active =~= want.desk.active);
            assert(self@.desk == want.desk);
            assert(self@.forest == want.forest);
            assert(self@.modes == want.modes);
            assert(self@.workspace_rules == want.workspace_rules);
            assert(self@.floating_rules == want.floating_rules);
            assert(self@.warnings == want.warnings);
        }
        let mut out: Vec<Action> = Vec::new();
        out.push(Action::RelayoutAll);
        assert(views(out@) =~= seq![ActionView::RelayoutAll]);
        out
    }

    /// What was wrong with the configuration, each in words.
    pub fn config_warnings(&self) -> (r: Vec<String>)
        ensures
            texts(r@) == self@.warnings,
    {
        let mut out: Vec<String> = Vec::new();
        let mut i: usize = 0;
        while i < self.warnings.len()
            invariant
                i <= self.warnings.len(),
                out@.len() == i,
                forall|j: int| 0 <= j < i ==> (#[trigger] out@[j])@ == self.warnings@[j]@,
            decreases self.warnings.len() - i,
        {
            out.push(self.warnings[i].clone());
            i = i + 1;
        }
        assert(texts(out@) =~= self@.warnings);
        out
    }

    /// The axis that a new root container gets: the configured one, else the
    /// longer side of the focused monitor.
    pub fn root_orientation_hint(&self) -> (r: OrientationKind)
        ensures
            r == orientation_hint(self@),
    {
        match self.root_orientation {
            Some(o) => o,
            None => match self.desk.monitor(self.desk.focused()) {
                Some(m) => {
                    if m.tall {
                        OrientationKind::Vertical
                    } else {
                        OrientationKind::Horizontal
                    }
                },
                None => OrientationKind::Horizontal,
            },
        }
    }

    /// Makes a keybinding mode current.
    pub fn enter_mode(&mut self, name: &str) -> (r: Result<(), String>)
        requires
            old(self).wf(),
        ensures
            final(self).wf(),
            match entered(old(self)@.modes, name@) {
                Ok(m) => r is Ok && final(self)@ == (StateView { modes: m, ..old(self)@ }),
                Err(e) => outcome(r) == Err::<(), Seq<char>>(e) && final(self)@ == old(self)@,
            },
    {
        self.modes.enter_mode(name)
    }

    /// Makes the default keybinding mode current.
    pub fn exit_mode(&mut self)
        requires
            old(self).wf(),
        ensures
            final(self).wf(),
            final(self)@ == (StateView {
                modes: ModesView { current: default_mode(), ..old(self)@.modes },
                ..old(self)@
            }),
    {
        self.modes.exit_mode();
    }

    pub fn current_mode(&self) -> (r: &str)
        ensures
            r@ == self@.modes.current,
    {
        self.modes.current_mode()
    }

    /// Whether the current mode is left after one command.
    pub fn current_mode_auto_exits(&self) -> (r: bool)
        ensures
            r == one_shot(self@.modes.blocks, self@.modes.current),
    {
        self.modes.current_mode_auto_exits()
    }

    /// Finds the command that a combination stands for in the current mode.
    pub fn resolve_hotkey(&self, combo: KeyCombo) -> (r: Option<&Command>)
        requires
            self.wf(),
        ensures
            match bound_line(self@.modes, combo) {
                Some(line) => r is Some && meant(line, *r->0),
                None => r is None,
            },
    {
        self.modes.resolve_hotkey(combo)
    }

    /// The combinations that are bound in the current mode, each once.
    pub fn active_key_combos(&self) -> (r: Vec<KeyCombo>)
        requires
            self.wf(),
        ensures
            r@.no_duplicates(),
            forall|k: KeyCombo| r@.contains(k) <==> bound_line(self@.modes, k) is Some,
    {
        self.modes.active_key_combos()
    }
}

/// A configuration that comes later, or while some window is placed, never
/// changes what the monitors show.
pub proof fn law_reload_keeps_what_is_shown(s: StateView, c: ConfigView)
    requires
        !at_startup(s),
    ensures
        configured(s, c).desk == s.desk,
        configured(s, c).placements == s.placements,
        forall|name: Seq<char>| #[trigger] s.forest.leaves.contains_key(name)
            ==> configured(s, c).forest.leaves.contains_key(name)
            && configured(s, c).forest.leaves[name] == s.forest.leaves[name],
        configured(s, c).forest.focus == s.forest.focus,
{
    lemma_with_declared(s.forest, c.workspaces);
}

pub(super) proof fn lemma_with_declared(f: ForestView, s: Seq<WorkspaceConfigView>)
    ensures
        with_declared(f, s).focus == f.focus,
        with_declared(f, s).fullscreen == f.fullscreen,
        forall|name: Seq<char>| #[trigger] f.leaves.contains_key(name) ==> with_declared(
            f,
            s,
        ).leaves.contains_key(name) && with_declared(f, s).leaves[name] == f.leaves[name],
        forall|i: int|
            0 <= i < s.len() ==> with_declared(f, s).leaves.contains_key(
                (#[trigger] s[i]).name,
            ),
    decreases s.len(),
{
    if s.len() > 0 {
        let init = s.drop_last();
        lemma_with_declared(f, init);
        assert forall|i: int| 0 <= i < s.len() implies with_declared(f, s).leaves.contains_key(
            (#[trigger] s[i]).name,
        ) by {
            if i < init.len() {
                assert(init[i] == s[i]);
            }
        }
    }
}

/// Every declared workspace exists once the configuration was applied.
pub proof fn law_declared_workspaces_exist(s: StateView, c: ConfigView, i: int)
    requires
        0 <= i < c.workspaces.len(),
    ensures
        configured(s, c).forest.leaves.contains_key(c.workspaces[i].name),
{
    lemma_with_declared(s.forest, c.workspaces);
    assert(declared(c.workspaces, c.workspaces[i].name));
}

/// Once a configuration declared workspaces at the start, the default one is
/// not reachable any more unless it is declared itself.
pub proof fn law_default_workspace_gives_way(s: StateView, c: ConfigView)
    requires
        at_startup(s),
        c.workspaces.len() > 0,
        !declared(c.workspaces, default_workspace()),
    ensures
        !configured(s, c).forest.leaves.contains_key(default_workspace()),
        !crate::desk::shown(configured(s, c).desk.active, default_workspace()),
{
}

}
