//! Rules that say where a new window goes and how it is placed.

use vstd::prelude::*;
use crate::config::{
    filter_map, lemma_filter_map_step, views, FloatingRule, FloatingRuleView, WorkspaceConfig,
    WorkspaceConfigView, WorkspaceRule, WorkspaceRuleView,
};
use crate::placement::FloatingRuleMode;
use crate::text::{join3, lemma_part_of, opt_str, opt_text, part_of, same_text, texts};
use regex::Regex;

verus! {

/// `regex::Regex`, a compiled pattern.
#[verifier::external_type_specification]
#[verifier::external_body]
pub struct ExRegex(regex::Regex);

/// `regex::Error`, why a pattern does not compile.
#[verifier::external_type_specification]
#[verifier::external_body]
pub struct ExRegexError(regex::Error);

/// What `Regex::new` says of a pattern that it does not compile, in the words of
/// its error; `None` for one that it compiles.
pub uninterp spec fn regex_refusal(pattern: Seq<char>) -> Option<Seq<char>>;

/// The words of an error.
pub uninterp spec fn regex_error_words(e: regex::Error) -> Seq<char>;

/// The pattern that `Regex::new` made a `Regex` from.
pub uninterp spec fn regex_source(re: Regex) -> Seq<char>;

/// Whether `Regex::is_match` finds a match of a pattern in a text.
pub uninterp spec fn regex_matches(pattern: Seq<char>, text: Seq<char>) -> bool;

/// Calls `Regex::new`: whether a pattern compiles, and why not, depends on it
/// alone, and the result stands for that pattern.
#[verifier::external_body]
fn regex_new(pattern: &str) -> (r: Result<Regex, regex::Error>)
    ensures
        match r {
            Ok(re) => regex_refusal(pattern@) is None && regex_source(re) == pattern@,
            Err(e) => regex_refusal(pattern@) == Some(regex_error_words(e)),
        },
{
    Regex::new(pattern)
}

/// Calls `regex::Error`'s `Display`: its words are a part of the error.
#[verifier::external_body]
fn regex_error_text(e: &regex::Error) -> (r: String)
    ensures
        r@ == regex_error_words(*e),
{
    e.to_string()
}

/// Calls `Regex::is_match`: whether there is a match depends on the pattern
/// and the text alone, for a `Regex` that `Regex::new` made.
#[verifier::external_body]
fn regex_is_match(re: &Regex, text: &str) -> (r: bool)
    ensures
        r == regex_matches(regex_source(*re), text@),
{
    re.is_match(text)
}

/// A floating rule whose title pattern is compiled.
pub struct CompiledFloatingRule {
    app_id: String,
    title: Option<Regex>,
    width: Option<u32>,
    height: Option<u32>,
    center: Option<bool>,
    mode: FloatingRuleMode,
}

impl View for CompiledFloatingRule {
    type V = FloatingRuleView;

    closed spec fn view(&self) -> FloatingRuleView {
        FloatingRuleView {
            app_id: self.app_id@,
            title: match self.title {
                Some(re) => Some(regex_source(re)),
                None => None,
            },
            width: self.width,
            height: self.height,
            center: self.center,
            mode: self.mode,
        }
    }
}

impl CompiledFloatingRule {
    pub fn mode(&self) -> (r: FloatingRuleMode)
        ensures
            r == self@.mode,
    {
        self.mode
    }

    pub fn width(&self) -> (r: Option<u32>)
        ensures
            r == self@.width,
    {
        self.width
    }

    pub fn height(&self) -> (r: Option<u32>)
        ensures
            r == self@.height,
    {
        self.height
    }

    pub fn center(&self) -> (r: Option<bool>)
        ensures
            r == self@.center,
    {
        self.center
    }
}

/// Why a rule cannot be used: its title pattern, if it has one, does not
/// compile.
pub open spec fn refusal(rule: FloatingRuleView) -> Option<Seq<char>> {
    match rule.title {
        Some(pattern) => regex_refusal(pattern),
        None => None,
    }
}

/// The rule, where it can be used.
pub open spec fn usable_rule(rule: FloatingRuleView) -> Option<FloatingRuleView> {
    if refusal(rule) is None {
        Some(rule)
    } else {
        None
    }
}

/// What is said of a rule, given why its title pattern does not compile, if it
/// does not.
pub open spec fn warning_for(rule: FloatingRuleView, why: Option<Seq<char>>) -> Option<Seq<char>> {
    match (rule.title, why) {
        (Some(pattern), Some(words)) => Some(
            "skipping floating rule for '"@ + rule.app_id + "' — invalid title regex '"@ + pattern
                + "': "@ + words,
        ),
        _ => None,
    }
}

/// What is said of a rule that cannot be used.
pub open spec fn title_warning(rule: FloatingRuleView) -> Option<Seq<char>> {
    warning_for(rule, refusal(rule))
}

/// Says what is wrong with a rule, given why its title pattern does not compile,
/// if it does not. A rule without a pattern is never wrong.
pub fn rule_warning(rule: &FloatingRule, why: Option<&str>) -> (r: Option<String>)
    ensures
        opt_text(r) == warning_for(rule@, opt_str(why)),
{
    match (&rule.title, why) {
        (Some(pattern), Some(words)) => {
            let mut w: String = "skipping floating rule for '".to_owned();
            w.append(rule.app_id.as_str());
            w.append("' — invalid title regex '");
            w.append(pattern.as_str());
            w.append("': ");
            w.append(words);
            Some(w)
        },
        _ => None,
    }
}

/// Compiles the rules. One whose pattern does not compile is dropped, with a
/// warning, and the others stay in order.
pub fn compile_floating_rules(rules: &Vec<FloatingRule>) -> (r: (
    Vec<CompiledFloatingRule>,
    Vec<String>,
))
    ensures
        views(r.0@) == filter_map(views(rules@), |x: FloatingRuleView| usable_rule(x)),
        texts(r.1@) == filter_map(views(rules@), |x: FloatingRuleView| title_warning(x)),
{
    let mut out: Vec<CompiledFloatingRule> = Vec::new();
    let mut warnings: Vec<String> = Vec::new();
    let ghost s = views(rules@);
    let ghost f = |x: FloatingRuleView| usable_rule(x);
    let ghost g = |x: FloatingRuleView| title_warning(x);
    assert(s.take(0) =~= Seq::empty());
    assert(views(out@) =~= Seq::empty());
    assert(texts(warnings@) =~= Seq::empty());
    let mut i: usize = 0;
    while i < rules.len()
        invariant
            i <= rules.len(),
            s == views(rules@),
            f == |x: FloatingRuleView| usable_rule(x),
            g == |x: FloatingRuleView| title_warning(x),
            views(out@) == filter_map(s.take(i as int), f),
            texts(warnings@) == filter_map(s.take(i as int), g),
        decreases rules.len() - i,
    {
        let rule: &FloatingRule = &rules[i];
        let ghost before = views(out@);
        let ghost said = texts(warnings@);
        proof {
            assert(s[i as int] == rule@);
            lemma_filter_map_step(s, f, i as int);
            lemma_filter_map_step(s, g, i as int);
        }
        i = i + 1;
        let (title, why) = match &rule.title {
            Some(pattern) => match regex_new(pattern.as_str()) {
                Ok(re) => (Some(re), None),
                Err(e) => (None, Some(regex_error_text(&e))),
            },
            None => (None, None),
        };
        let words: Option<&str> = match &why {
            Some(w) => Some(w.as_str()),
            None => None,
        };
        assert(opt_str(words) == refusal(rule@));
        match rule_warning(rule, words) {
            Some(w) => {
                warnings.push(w);
                assert(texts(warnings@) =~= said.push(w@));
                continue;
            },
            None => {},
        }
        let c: CompiledFloatingRule = CompiledFloatingRule {
            app_id: rule.app_id.clone(),
            title,
            width: rule.width,
            height: rule.height,
            center: rule.center,
            mode: rule.mode,
        };
        out.push(c);
        assert(views(out@) =~= before.push(c@));
    }
    assert(s.take(i as int) =~= s);
    (out, warnings)
}

/// Says whether a rule for the application `app_id` applies to a window of the
/// application `bundle_id`, given whether its pattern, if it has one, matches
/// the window's title.
pub fn rule_applies(app_id: &str, bundle_id: &str, title_matches: Option<bool>) -> (r: bool)
    ensures
        r == (app_id@ == bundle_id@ && title_matches != Some(false)),
{
    let title: bool = match title_matches {
        Some(matches) => matches,
        None => true,
    };
    title && same_text(app_id, bundle_id)
}

/// A rule applies to a window: the bundle id is the same, and the title
/// matches where the rule asks for it.
pub open spec fn applies(rule: FloatingRuleView, id: Seq<char>, title: Seq<char>) -> bool {
    &&& rule.app_id == id
    &&& match rule.title {
        Some(pattern) => regex_matches(pattern, title),
        None => true,
    }
}

/// The first rule at or after place `from` that applies to a window.
pub open spec fn applying_from(
    rules: Seq<FloatingRuleView>,
    id: Seq<char>,
    title: Seq<char>,
    from: int,
) -> Option<FloatingRuleView>
    decreases rules.len() - from,
{
    if from < 0 || from >= rules.len() {
        None
    } else if applies(rules[from], id, title) {
        Some(rules[from])
    } else {
        applying_from(rules, id, title, from + 1)
    }
}

/// The rule that a window is placed by: the first that applies, none where its
/// bundle id is unknown.
pub open spec fn applying_rule(
    rules: Seq<FloatingRuleView>,
    bundle_id: Option<Seq<char>>,
    title: Seq<char>,
) -> Option<FloatingRuleView> {
    match bundle_id {
        Some(id) => applying_from(rules, id, title, 0),
        None => None,
    }
}

/// Finds the rule that a window is placed by.
pub fn matching_floating_rule<'a>(
    rules: &'a Vec<CompiledFloatingRule>,
    bundle_id: Option<&str>,
    title: &str,
) -> (r: Option<&'a CompiledFloatingRule>)
    ensures
        match r {
            Some(rule) => applying_rule(views(rules@), opt_str(bundle_id), title@) == Some(rule@),
            None => applying_rule(views(rules@), opt_str(bundle_id), title@) is None,
        },
{
    let id: &str = match bundle_id {
        Some(id) => id,
        None => {
            return None;
        },
    };
    let ghost s = views(rules@);
    let mut i: usize = 0;
    while i < rules.len()
        invariant
            i <= rules.len(),
            s == views(rules@),
            opt_str(bundle_id) == Some(id@),
            applying_from(s, id@, title@, 0) == applying_from(s, id@, title@, i as int),
        decreases rules.len() - i,
    {
        let rule: &CompiledFloatingRule = &rules[i];
        assert(s[i as int] == rule@);
        let matched: Option<bool> = match &rule.title {
            Some(re) => Some(regex_is_match(re, title)),
            None => None,
        };
        if rule_applies(rule.app_id.as_str(), id, matched) {
            return Some(rule);
        }
        i = i + 1;
    }
    None
}

/// A workspace is declared.
pub open spec fn declared(workspaces: Seq<WorkspaceConfigView>, name: Seq<char>) -> bool {
    exists|i: int| 0 <= i < workspaces.len() && (#[trigger] workspaces[i]).name == name
}

/// Whether a workspace is declared.
pub fn is_declared(workspaces: &Vec<WorkspaceConfig>, name: &str) -> (r: bool)
    ensures
        r == declared(views(workspaces@), name@),
{
    let ghost s = views(workspaces@);
    let mut i: usize = 0;
    while i < workspaces.len()
        invariant
            i <= workspaces.len(),
            s == views(workspaces@),
            forall|j: int| 0 <= j < i ==> (#[trigger] s[j]).name != name@,
        decreases workspaces.len() - i,
    {
        assert(s[i as int] == workspaces@[i as int]@);
        if same_text(workspaces[i].name.as_str(), name) {
            return true;
        }
        i = i + 1;
    }
    false
}

/// The rule, where the workspace that it names is declared.
pub open spec fn kept_workspace_rule(
    workspaces: Seq<WorkspaceConfigView>,
    rule: WorkspaceRuleView,
) -> Option<WorkspaceRuleView> {
    if declared(workspaces, rule.workspace) {
        Some(rule)
    } else {
        None
    }
}

/// What is said of a rule whose workspace is not declared.
pub open spec fn workspace_warning(
    workspaces: Seq<WorkspaceConfigView>,
    rule: WorkspaceRuleView,
) -> Option<Seq<char>> {
    if declared(workspaces, rule.workspace) {
        None
    } else {
        Some(
            "skipping workspace rule for '"@ + rule.app_id + "' — workspace '"@ + rule.workspace
                + "' isn't declared in config"@,
        )
    }
}

/// Keeps the rules whose workspace is declared. Any other is dropped whole,
/// with a warning.
pub fn compile_workspace_rules(
    rules: &Vec<WorkspaceRule>,
    workspaces: &Vec<WorkspaceConfig>,
) -> (r: (Vec<WorkspaceRule>, Vec<String>))
    ensures
        views(r.0@) == filter_map(
            views(rules@),
            |x: WorkspaceRuleView| kept_workspace_rule(views(workspaces@), x),
        ),
        texts(r.1@) == filter_map(
            views(rules@),
            |x: WorkspaceRuleView| workspace_warning(views(workspaces@), x),
        ),
{
    let mut out: Vec<WorkspaceRule> = Vec::new();
    let mut warnings: Vec<String> = Vec::new();
    let ghost s = views(rules@);
    let ghost ws = views(workspaces@);
    let ghost f = |x: WorkspaceRuleView| kept_workspace_rule(ws, x);
    let ghost g = |x: WorkspaceRuleView| workspace_warning(ws, x);
    assert(s.take(0) =~= Seq::empty());
    assert(views(out@) =~= Seq::empty());
    assert(texts(warnings@) =~= Seq::empty());
    let mut i: usize = 0;
    while i < rules.len()
        invariant
            i <= rules.len(),
            s == views(rules@),
            ws == views(workspaces@),
            f == |x: WorkspaceRuleView| kept_workspace_rule(ws, x),
            g == |x: WorkspaceRuleView| workspace_warning(ws, x),
            views(out@) == filter_map(s.take(i as int), f),
            texts(warnings@) == filter_map(s.take(i as int), g),
        decreases rules.len() - i,
    {
        let rule: &WorkspaceRule = &rules[i];
        let ghost before = views(out@);
        let ghost said = texts(warnings@);
        proof {
            assert(s[i as int] == rule@);
            lemma_filter_map_step(s, f, i as int);
            lemma_filter_map_step(s, g, i as int);
        }
        if is_declared(workspaces, rule.workspace.as_str()) {
            let kept: WorkspaceRule = WorkspaceRule {
                app_id: rule.app_id.clone(),
                workspace: rule.workspace.clone(),
            };
            out.push(kept);
            assert(views(out@) =~= before.push(kept@));
        } else {
            let head: String = join3(
                "skipping workspace rule for '",
                rule.app_id.as_str(),
                "' — workspace '",
            );
            let w: String = join3(
                head.as_str(),
                rule.workspace.as_str(),
                "' isn't declared in config",
            );
            warnings.push(w);
            assert(texts(warnings@) =~= said.push(w@));
        }
        i = i + 1;
    }
    assert(s.take(i as int) =~= s);
    (out, warnings)
}

/// The workspace that the first rule for an application at or after place
/// `from` names.
pub open spec fn ruled_from(rules: Seq<WorkspaceRuleView>, id: Seq<char>, from: int) -> Option<
    Seq<char>,
>
    decreases rules.len() - from,
{
    if from < 0 || from >= rules.len() {
        None
    } else if rules[from].app_id == id {
        Some(rules[from].workspace)
    } else {
        ruled_from(rules, id, from + 1)
    }
}

/// The workspace that a window starts on by a rule.
pub open spec fn ruled_workspace(
    rules: Seq<WorkspaceRuleView>,
    bundle_id: Option<Seq<char>>,
) -> Option<Seq<char>> {
    match bundle_id {
        Some(id) => ruled_from(rules, id, 0),
        None => None,
    }
}

/// Finds the rule for the workspace that a window starts on.
pub fn matching_workspace_rule<'a>(rules: &'a Vec<WorkspaceRule>, bundle_id: Option<&str>) -> (r:
    Option<&'a WorkspaceRule>)
    ensures
        match r {
            Some(rule) => ruled_workspace(views(rules@), opt_str(bundle_id)) == Some(
                rule.workspace@,
            ),
            None => ruled_workspace(views(rules@), opt_str(bundle_id)) is None,
        },
{
    let id: &str = match bundle_id {
        Some(id) => id,
        None => {
            return None;
        },
    };
    let ghost s = views(rules@);
    let mut i: usize = 0;
    while i < rules.len()
        invariant
            i <= rules.len(),
            s == views(rules@),
            opt_str(bundle_id) == Some(id@),
            ruled_from(s, id@, 0) == ruled_from(s, id@, i as int),
        decreases rules.len() - i,
    {
        assert(s[i as int] == rules@[i as int]@);
        if same_text(rules[i].app_id.as_str(), id) {
            return Some(&rules[i]);
        }
        i = i + 1;
    }
    None
}

/// The first rule that applies wins: one before which no rule applies is the
/// one that a window is placed by, whatever follows it.
pub proof fn law_first_applying_rule_wins(
    rules: Seq<FloatingRuleView>,
    id: Seq<char>,
    title: Seq<char>,
    k: int,
)
    requires
        0 <= k < rules.len(),
        applies(rules[k], id, title),
        forall|j: int| 0 <= j < k ==> !applies(#[trigger] rules[j], id, title),
    ensures
        applying_rule(rules, Some(id), title) == Some(rules[k]),
{
    lemma_applying_from(rules, id, title, k, 0);
}

proof fn lemma_applying_from(
    rules: Seq<FloatingRuleView>,
    id: Seq<char>,
    title: Seq<char>,
    k: int,
    from: int,
)
    requires
        0 <= from <= k < rules.len(),
        applies(rules[k], id, title),
        forall|j: int| 0 <= j < k ==> !applies(#[trigger] rules[j], id, title),
    ensures
        applying_from(rules, id, title, from) == Some(rules[k]),
    decreases k - from,
{
    if from < k {
        assert(!applies(rules[from], id, title));
        lemma_applying_from(rules, id, title, k, from + 1);
    }
}

/// A rule is for an application, and for all of its windows or for those whose
/// titles match its pattern.
pub open spec fn fits(rule: FloatingRuleView, id: Seq<char>, title: Seq<char>) -> bool {
    rule.app_id == id && (rule.title is Some ==> regex_matches(rule.title->0, title))
}

proof fn lemma_none_applies(
    rules: Seq<FloatingRuleView>,
    id: Seq<char>,
    title: Seq<char>,
    from: int,
)
    requires
        0 <= from,
        forall|j: int| 0 <= j < rules.len() ==> !fits(#[trigger] rules[j], id, title),
    ensures
        applying_from(rules, id, title, from) is None,
    decreases rules.len() - from,
{
    if from < rules.len() {
        assert(!fits(rules[from], id, title));
        lemma_none_applies(rules, id, title, from + 1);
    }
}

/// A window is placed by a rule exactly if some rule is for its application and
/// its title: by the first of them, with all that this rule says. A window
/// whose application is unknown is placed by none.
pub proof fn law_windows_are_placed_by_the_first_fitting_rule(
    rules: Seq<FloatingRuleView>,
    id: Seq<char>,
    title: Seq<char>,
    k: int,
)
    ensures
        (forall|j: int| 0 <= j < rules.len() ==> !fits(#[trigger] rules[j], id, title))
            ==> applying_rule(rules, Some(id), title) is None,
        0 <= k < rules.len() && fits(rules[k], id, title) && (forall|j: int|
            0 <= j < k ==> !fits(#[trigger] rules[j], id, title)) ==> applying_rule(
            rules,
            Some(id),
            title,
        ) == Some(rules[k]),
        applying_rule(rules, None, title) is None,
{
    if forall|j: int| 0 <= j < rules.len() ==> !fits(#[trigger] rules[j], id, title) {
        lemma_none_applies(rules, id, title, 0);
    }
    if 0 <= k < rules.len() && fits(rules[k], id, title) && (forall|j: int|
        0 <= j < k ==> !fits(#[trigger] rules[j], id, title)) {
        assert forall|j: int| 0 <= j < k implies !applies(#[trigger] rules[j], id, title) by {
            assert(!fits(rules[j], id, title));
        }
        law_first_applying_rule_wins(rules, id, title, k);
    }
}

proof fn lemma_ruled_from(rules: Seq<WorkspaceRuleView>, id: Seq<char>, k: int, from: int)
    requires
        0 <= from <= k <= rules.len(),
        k < rules.len() ==> rules[k].app_id == id,
        forall|j: int| 0 <= j < k ==> (#[trigger] rules[j]).app_id != id,
    ensures
        ruled_from(rules, id, from) == (if k < rules.len() {
            Some(rules[k].workspace)
        } else {
            None
        }),
    decreases k - from,
{
    if from < k {
        assert(rules[from].app_id != id);
        lemma_ruled_from(rules, id, k, from + 1);
    }
}

/// A window starts on the workspace that the first rule for its application
/// names, and on none by a rule where there is no such rule or the application
/// is unknown.
pub proof fn law_first_workspace_rule_holds(rules: Seq<WorkspaceRuleView>, id: Seq<char>, k: int)
    requires
        0 <= k <= rules.len(),
        k < rules.len() ==> rules[k].app_id == id,
        forall|j: int| 0 <= j < k ==> (#[trigger] rules[j]).app_id != id,
    ensures
        ruled_workspace(rules, Some(id)) == (if k < rules.len() {
            Some(rules[k].workspace)
        } else {
            None
        }),
        ruled_workspace(rules, None) is None,
{
    lemma_ruled_from(rules, id, k, 0);
}

/// A rule for workspaces is kept as it is, or is warned of: which of the two is
/// settled by whether its workspace is declared. So it is with a rule for
/// floating windows and its title pattern.
pub proof fn law_rules_are_kept_or_warned_of(
    workspaces: Seq<WorkspaceConfigView>,
    rule: WorkspaceRuleView,
    floating: FloatingRuleView,
)
    ensures
        (exists|i: int| 0 <= i < workspaces.len() && (#[trigger] workspaces[i]).name == rule.workspace)
            ==> kept_workspace_rule(workspaces, rule) == Some(rule) && workspace_warning(
            workspaces,
            rule,
        ) is None,
        (forall|i: int| 0 <= i < workspaces.len() ==> (#[trigger] workspaces[i]).name != rule.workspace)
            ==> kept_workspace_rule(workspaces, rule) is None && workspace_warning(
            workspaces,
            rule,
        ) is Some,
        floating.title is None || regex_refusal(floating.title->0) is None ==> usable_rule(floating)
            == Some(floating) && title_warning(floating) is None,
        floating.title is Some && regex_refusal(floating.title->0) is Some ==> usable_rule(floating)
            is None && title_warning(floating) is Some,
{
}

/// A warning names the application that the rule is for, and what is wrong with
/// it: the workspace that is not declared, or the pattern and why it is none.
pub proof fn law_warnings_name_their_rule(
    workspaces: Seq<WorkspaceConfigView>,
    rule: WorkspaceRuleView,
    floating: FloatingRuleView,
)
    ensures
        workspace_warning(workspaces, rule) is Some ==> part_of(
            rule.app_id,
            workspace_warning(workspaces, rule)->0,
        ) && part_of(rule.workspace, workspace_warning(workspaces, rule)->0),
        title_warning(floating) is Some ==> part_of(floating.app_id, title_warning(floating)->0)
            && part_of(floating.title->0, title_warning(floating)->0) && part_of(
            regex_refusal(floating.title->0)->0,
            title_warning(floating)->0,
        ),
{
    if let Some(t) = workspace_warning(workspaces, rule) {
        let a = "skipping workspace rule for '"@;
        lemma_part_of(a, rule.app_id, t.skip((a + rule.app_id).len() as int), t);
        let b = a + rule.app_id + "' — workspace '"@;
        lemma_part_of(b, rule.workspace, t.skip((b + rule.workspace).len() as int), t);
    }
    if let Some(t) = title_warning(floating) {
        let a = "skipping floating rule for '"@;
        lemma_part_of(a, floating.app_id, t.skip((a + floating.app_id).len() as int), t);
        let b = a + floating.app_id + "' — invalid title regex '"@;
        let pattern = floating.title->0;
        lemma_part_of(b, pattern, t.skip((b + pattern).len() as int), t);
        let c = b + pattern + "': "@;
        lemma_part_of(c, regex_refusal(pattern)->0, Seq::empty(), t);
    }
}

}
