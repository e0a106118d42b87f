//! Where tili keeps its files. Paths are texts, or the components of one.

use vstd::prelude::*;
use crate::text::{join2, join3, opt_text, same_text, texts};

verus! {

/// The label of the daemon's launch agent.
pub fn daemon_label() -> (r: &'static str)
    ensures
        r@ == "com.tili.daemon"@,
{
    "com.tili.daemon"
}

/// The label of the menu bar badge's launch agent.
pub fn menubar_label() -> (r: &'static str)
    ensures
        r@ == "com.tili.menubar"@,
{
    "com.tili.menubar"
}

/// A path that continues another one. An absolute path takes its place.
pub open spec fn joined(base: Seq<char>, rel: Seq<char>) -> Seq<char> {
    if rel.len() > 0 && rel[0] == '/' {
        rel
    } else if base.len() == 0 || base.last() == '/' {
        base + rel
    } else {
        base + "/"@ + rel
    }
}

fn join(base: &str, rel: &str) -> (r: String)
    ensures
        r@ == joined(base@, rel@),
{
    if rel.unicode_len() > 0 && rel.get_char(0) == '/' {
        return rel.to_owned();
    }
    let n: usize = base.unicode_len();
    if n == 0 || base.get_char(n - 1) == '/' {
        join2(base, rel)
    } else {
        join3(base, "/", rel)
    }
}

/// Where the daemon listens, below the home directory.
pub open spec fn socket_path(home: Seq<char>) -> Seq<char> {
    joined(joined(home, "Library/Application Support/tili"@), "tili.sock"@)
}

/// Where the daemon listens.
pub fn default_socket_path(home: &str) -> (r: String)
    ensures
        r@ == socket_path(home@),
{
    join(join(home, "Library/Application Support/tili").as_str(), "tili.sock")
}

/// Where the configuration stands.
pub fn default_config_path(home: &str) -> (r: String)
    ensures
        r@ == config_path(home@),
{
    join(home, ".config/tili/tili.kdl")
}

/// Where the launch agent with a label stands.
pub open spec fn agent_path(home: Seq<char>, label: Seq<char>) -> Seq<char> {
    joined(joined(home, "Library/LaunchAgents"@), label + ".plist"@)
}

/// Where the launch agent with a label stands.
pub fn launch_agent_path(home: &str, label: &str) -> (r: String)
    ensures
        r@ == agent_path(home@, label@),
{
    let file: String = join2(label, ".plist");
    join(join(home, "Library/LaunchAgents").as_str(), file.as_str())
}

/// Where logs are written.
pub fn logs_dir(home: &str) -> (r: String)
    ensures
        r@ == log_path(home@),
{
    join2(home, "/Library/Logs/tili")
}

/// The place of the first `Cellar` at or after `i`.
pub open spec fn cellar_from(comps: Seq<Seq<char>>, i: int) -> Option<int>
    decreases comps.len() - i,
{
    if i < 0 || i >= comps.len() {
        None
    } else if comps[i] == "Cellar"@ {
        Some(i)
    } else {
        cellar_from(comps, i + 1)
    }
}

/// A path runs through the version of tili that Homebrew keeps in its Cellar:
/// where that starts.
pub open spec fn keg_at(comps: Seq<Seq<char>>) -> Option<int> {
    match cellar_from(comps, 0) {
        Some(i) => if i + 3 <= comps.len() && comps[i + 1] == "tili"@ {
            Some(i)
        } else {
            None
        },
        None => None,
    }
}

/// The link that Homebrew keeps to the current version of tili.
pub open spec fn opt_link(comps: Seq<Seq<char>>, i: int) -> Seq<Seq<char>> {
    comps.take(i) + seq!["opt"@, "tili"@]
}

/// The path through that link, if the link leads to the version that the path
/// runs through.
pub open spec fn stable_path(comps: Seq<Seq<char>>, opt_target: Option<Seq<Seq<char>>>) -> Option<
    Seq<Seq<char>>,
> {
    match keg_at(comps) {
        Some(i) => if opt_target == Some(comps.take(i + 3)) {
            Some(opt_link(comps, i) + comps.skip(i + 3))
        } else {
            None
        },
        None => None,
    }
}

proof fn lemma_cellar_range(comps: Seq<Seq<char>>, i: int)
    requires
        0 <= i,
    ensures
        match cellar_from(comps, i) {
            Some(k) => i <= k < comps.len() && comps[k] == "Cellar"@,
            None => forall|j: int| i <= j < comps.len() ==> comps[j] != "Cellar"@,
        },
        forall|k: int|
            i <= k < comps.len() && comps[k] == "Cellar"@ && (forall|j: int|
                i <= j < k ==> comps[j] != "Cellar"@) ==> cellar_from(comps, i) == Some(k),
    decreases comps.len() - i,
{
    if i < comps.len() && comps[i] != "Cellar"@ {
        lemma_cellar_range(comps, i + 1);
    }
}

fn find_keg(comps: &Vec<String>) -> (r: Option<usize>)
    ensures
        match r {
            Some(i) => keg_at(texts(comps@)) == Some(i as int) && i + 3 <= comps@.len(),
            None => keg_at(texts(comps@)) is None,
        },
{
    let ghost all = texts(comps@);
    let mut i: usize = 0;
    while i < comps.len()
        invariant
            i <= comps.len(),
            all == texts(comps@),
            cellar_from(all, 0) == cellar_from(all, i as int),
        decreases comps.len() - i,
    {
        assert(all[i as int] == comps@[i as int]@);
        if same_text(comps[i].as_str(), "Cellar") {
            if comps.len() - i < 3 {
                return None;
            }
            assert(all[i + 1] == comps@[i + 1]@);
            return if same_text(comps[i + 1].as_str(), "tili") {
                Some(i)
            } else {
                None
            };
        }
        i = i + 1;
    }
    None
}

fn copy_text(out: &mut Vec<String>, s: &str)
    ensures
        texts(final(out)@) == texts(old(out)@).push(s@),
{
    let t: String = s.to_owned();
    out.push(t);
    assert(texts(out@) =~= texts(old(out)@).push(s@));
}

fn copy_range(out: &mut Vec<String>, comps: &Vec<String>, from: usize, to: usize)
    requires
        from <= to <= comps@.len(),
    ensures
        texts(final(out)@) == texts(old(out)@) + texts(comps@).subrange(from as int, to as int),
{
    let ghost all = texts(comps@);
    let mut i: usize = from;
    assert(texts(out@) =~= texts(old(out)@) + all.subrange(from as int, from as int));
    while i < to
        invariant
            from <= i <= to <= comps@.len(),
            all == texts(comps@),
            texts(out@) == texts(old(out)@) + all.subrange(from as int, i as int),
        decreases to - i,
    {
        copy_text(out, comps[i].as_str());
        assert(all.subrange(from as int, i + 1) =~= all.subrange(from as int, i as int).push(
            all[i as int],
        ));
        assert((texts(old(out)@) + all.subrange(from as int, i as int)).push(all[i as int])
            =~= texts(old(out)@) + all.subrange(from as int, i + 1));
        i = i + 1;
    }
}

/// The link that has to be resolved for `homebrew_stable_equivalent`, `None`
/// for a path that runs through no version that Homebrew keeps.
pub fn homebrew_link(comps: &Vec<String>) -> (r: Option<Vec<String>>)
    ensures
        opt_texts(r) == link_of(texts(comps@)),
{
    match find_keg(comps) {
        Some(i) => {
            let mut out: Vec<String> = Vec::new();
            copy_range(&mut out, comps, 0, i);
            copy_text(&mut out, "opt");
            copy_text(&mut out, "tili");
            assert(texts(out@) =~= opt_link(texts(comps@), i as int));
            Some(out)
        },
        None => None,
    }
}

/// The views of an optional list of texts.
pub open spec fn opt_texts(v: Option<Vec<String>>) -> Option<Seq<Seq<char>>> {
    match v {
        Some(v) => Some(texts(v@)),
        None => None,
    }
}

/// Rewrites a path through the version that Homebrew keeps in its Cellar to one
/// through the link that follows upgrades. `opt_target` is what that link
/// leads to. `None` for any other path, and where the link leads elsewhere.
pub fn homebrew_stable_equivalent(comps: &Vec<String>, opt_target: &Option<Vec<String>>) -> (r:
    Option<Vec<String>>)
    ensures
        opt_texts(r) == stable_path(texts(comps@), opt_texts(*opt_target)),
{
    let i: usize = match find_keg(comps) {
        Some(i) => i,
        None => {
            return None;
        },
    };
    let ghost all = texts(comps@);
    match opt_target {
        Some(target) => {
            let ghost got = texts(target@);
            let ghost keg = all.take(i + 3);
            assert(i + 3 <= comps.len());
            if target.len() != i + 3 {
                assert(got.len() != keg.len());
                return None;
            }
            let mut k: usize = 0;
            while k < target.len()
                invariant
                    k <= target.len(),
                    target@.len() == i + 3,
                    i + 3 <= comps@.len(),
                    all == texts(comps@),
                    got == texts(target@),
                    keg == all.take(i + 3),
                    *opt_target == Some(*target),
                    keg_at(all) == Some(i as int),
                    forall|j: int| 0 <= j < k ==> #[trigger] got[j] == keg[j],
                decreases target.len() - k,
            {
                assert(got[k as int] == target@[k as int]@);
                assert(keg[k as int] == comps@[k as int]@);
                if !same_text(target[k].as_str(), comps[k].as_str()) {
                    return None;
                }
                k = k + 1;
            }
            assert(got =~= keg);
            let mut out: Vec<String> = Vec::new();
            copy_range(&mut out, comps, 0, i);
            copy_text(&mut out, "opt");
            copy_text(&mut out, "tili");
            copy_range(&mut out, comps, i + 3, comps.len());
            assert(texts(out@) =~= opt_link(all, i as int) + all.skip(i + 3));
            Some(out)
        },
        None => None,
    }
}

/// The path through Homebrew's link is the same before and after an upgrade:
/// only the version in the Cellar differs.
pub proof fn law_stable_path_survives_an_upgrade(
    prefix: Seq<Seq<char>>,
    old_version: Seq<char>,
    new_version: Seq<char>,
    rest: Seq<Seq<char>>,
)
    requires
        !prefix.contains("Cellar"@),
    ensures
        ({
            let old_keg = prefix + seq!["Cellar"@, "tili"@, old_version];
            let new_keg = prefix + seq!["Cellar"@, "tili"@, new_version];
            &&& stable_path(old_keg + rest, Some(old_keg)) == Some(
                prefix + seq!["opt"@, "tili"@] + rest,
            )
            &&& stable_path(new_keg + rest, Some(new_keg)) == stable_path(
                old_keg + rest,
                Some(old_keg),
            )
        }),
{
    lemma_stable(prefix, old_version, rest);
    lemma_stable(prefix, new_version, rest);
}

proof fn lemma_stable(prefix: Seq<Seq<char>>, version: Seq<char>, rest: Seq<Seq<char>>)
    requires
        !prefix.contains("Cellar"@),
    ensures
        stable_path(
            prefix + seq!["Cellar"@, "tili"@, version] + rest,
            Some(prefix + seq!["Cellar"@, "tili"@, version]),
        ) == Some(prefix + seq!["opt"@, "tili"@] + rest),
{
    let keg = prefix + seq!["Cellar"@, "tili"@, version];
    let all = keg + rest;
    let i = prefix.len() as int;
    assert forall|j: int| 0 <= j < i implies all[j] != "Cellar"@ by {
        assert(all[j] == prefix[j]);
    }
    assert(all[i] == "Cellar"@);
    assert(all[i + 1] == "tili"@);
    lemma_cellar_range(all, 0);
    assert(all.take(i + 3) =~= keg);
    assert(all.take(i) =~= prefix);
    assert(all.skip(i + 3) =~= rest);
    assert(opt_link(all, i) + all.skip(i + 3) =~= prefix + seq!["opt"@, "tili"@] + rest);
}

/// The first of some directories that is a link.
pub open spec fn first_link(dirs: Seq<Seq<char>>, links: Seq<bool>, i: int) -> Option<Seq<char>>
    decreases dirs.len() - i,
{
    if i < 0 || i >= dirs.len() || i >= links.len() {
        None
    } else if links[i] {
        Some(dirs[i])
    } else {
        first_link(dirs, links, i + 1)
    }
}

/// The nearest directory above a file that is a symbolic link. `ancestors` are
/// the directories above it, nearest first, and `links` says which of them are
/// links.
pub fn symlinked_ancestor(ancestors: &Vec<String>, links: &Vec<bool>) -> (r: Option<String>)
    ensures
        opt_text(r) == first_link(texts(ancestors@), links@, 0),
{
    let ghost dirs = texts(ancestors@);
    let mut i: usize = 0;
    while i < ancestors.len() && i < links.len()
        invariant
            i <= ancestors.len(),
            i <= links.len(),
            dirs == texts(ancestors@),
            first_link(dirs, links@, 0) == first_link(dirs, links@, i as int),
        decreases ancestors.len() - i,
    {
        if links[i] {
            let d: String = ancestors[i].as_str().to_owned();
            assert(dirs[i as int] == d@);
            return Some(d);
        }
        i = i + 1;
    }
    None
}

/// What happened to a file.
#[derive(Debug, Clone, Copy, PartialEq, Eq, Structural)]
pub enum ChangeKind {
    Created,
    Modified,
    Other,
}

/// Says whether what happened to some files means that the file at `path` has
/// to be read again. A file that is removed is not.
pub fn is_reload(kind: ChangeKind, changed: &Vec<String>, path: &str) -> (r: bool)
    ensures
        r == reloads(kind, texts(changed@), path@),
{
    match kind {
        ChangeKind::Other => false,
        _ => {
            let ghost all = texts(changed@);
            let mut i: usize = 0;
            while i < changed.len()
                invariant
                    i <= changed.len(),
                    kind == ChangeKind::Created || kind == ChangeKind::Modified,
                    all == texts(changed@),
                    forall|j: int| 0 <= j < i ==> all[j] != path@,
                decreases changed.len() - i,
            {
                assert(all[i as int] == changed@[i as int]@);
                if same_text(changed[i].as_str(), path) {
                    assert(all.contains(all[i as int]));
                    return true;
                }
                i = i + 1;
            }
            false
        },
    }
}

/// Where the configuration file stands, below the home directory.
pub open spec fn config_path(home: Seq<char>) -> Seq<char> {
    joined(home, ".config/tili/tili.kdl"@)
}

/// Where the logs stand, below the home directory.
pub open spec fn log_path(home: Seq<char>) -> Seq<char> {
    home + "/Library/Logs/tili"@
}

/// The link of Homebrew that a path can run through instead.
pub open spec fn link_of(comps: Seq<Seq<char>>) -> Option<Seq<Seq<char>>> {
    match keg_at(comps) {
        Some(i) => Some(opt_link(comps, i)),
        None => None,
    }
}

/// A change of some files has the configuration loaded again.
pub open spec fn reloads(kind: ChangeKind, changed: Seq<Seq<char>>, path: Seq<char>) -> bool {
    (kind == ChangeKind::Created || kind == ChangeKind::Modified) && changed.contains(path)
}

/// Everything that tili keeps is below the home directory, each in its place.
pub proof fn law_files_are_below_home(home: Seq<char>, label: Seq<char>)
    requires
        home.len() > 0,
        home.last() != '/',
        label.len() > 0 && label[0] != '/',
    ensures
        socket_path(home) == home + "/Library/Application Support/tili/tili.sock"@,
        agent_path(home, label) == home + "/Library/LaunchAgents/"@ + label + ".plist"@,
        config_path(home) == home + "/.config/tili/tili.kdl"@,
        log_path(home) == home + "/Library/Logs/tili"@,
{
    reveal_strlit("/");
    reveal_strlit("Library/Application Support/tili");
    reveal_strlit("tili.sock");
    reveal_strlit("/Library/Application Support/tili/tili.sock");
    reveal_strlit("Library/LaunchAgents");
    reveal_strlit("/Library/LaunchAgents/");
    reveal_strlit(".config/tili/tili.kdl");
    reveal_strlit("/.config/tili/tili.kdl");
    let a = "Library/Application Support/tili"@;
    let b = "Library/LaunchAgents"@;
    assert(a[0] == 'L' && a.len() == 32 && a[31] == 'i');
    assert(b[0] == 'L' && b.len() == 20 && b[19] == 's');
    assert("tili.sock"@[0] == 't' && ".config/tili/tili.kdl"@[0] == '.');
    assert((home + "/"@ + a).last() == 'i');
    assert((home + "/"@ + b).last() == 's');
    assert((label + ".plist"@)[0] == label[0]);
    assert("/Library/Application Support/tili/tili.sock"@ =~= "/"@ + a + "/"@ + "tili.sock"@);
    assert("/Library/LaunchAgents/"@ =~= "/"@ + b + "/"@);
    assert("/.config/tili/tili.kdl"@ =~= "/"@ + ".config/tili/tili.kdl"@);
    assert(socket_path(home) =~= home + "/Library/Application Support/tili/tili.sock"@);
    assert(agent_path(home, label) =~= home + "/Library/LaunchAgents/"@ + label + ".plist"@);
    assert(config_path(home) =~= home + "/.config/tili/tili.kdl"@);
}

/// A path that continues another one is that path, a slash and the rest; there
/// is one slash, and an absolute path stands for itself.
pub proof fn law_paths_are_joined_by_a_slash(base: Seq<char>, rel: Seq<char>)
    ensures
        rel.len() > 0 && rel[0] == '/' ==> joined(base, rel) == rel,
        base.len() > 0 && base.last() != '/' && !(rel.len() > 0 && rel[0] == '/') ==> joined(
            base,
            rel,
        ) == base.push('/') + rel && joined(base.push('/'), rel) == joined(base, rel),
{
    reveal_strlit("/");
    assert(base + "/"@ =~= base.push('/'));
}

proof fn lemma_cellar_from(comps: Seq<Seq<char>>, i: int)
    requires
        0 <= i,
    ensures
        cellar_from(comps, i) is Some ==> i <= cellar_from(comps, i)->0 < comps.len()
            && comps[cellar_from(comps, i)->0] == "Cellar"@,
    decreases comps.len() - i,
{
    if i < comps.len() && comps[i] != "Cellar"@ {
        lemma_cellar_from(comps, i + 1);
    }
}

/// A path is changed to run through Homebrew's link only if it runs through a
/// version of tili in the Cellar and the link leads to that version. What comes
/// before and behind that stays.
pub proof fn law_only_the_current_version_is_linked(
    comps: Seq<Seq<char>>,
    target: Option<Seq<Seq<char>>>,
)
    ensures
        target is None ==> stable_path(comps, target) is None,
        stable_path(comps, target) is Some ==> {
            let t = target->0;
            &&& t.len() >= 3 && t.len() <= comps.len() && comps.take(t.len() as int) == t
            &&& t[t.len() - 3] == "Cellar"@ && t[t.len() - 2] == "tili"@
            &&& stable_path(comps, target)->0 == t.take(t.len() - 3) + seq!["opt"@, "tili"@]
                + comps.skip(t.len() as int)
            &&& link_of(comps) == Some(t.take(t.len() - 3) + seq!["opt"@, "tili"@])
        },
        (forall|i: int| 0 <= i < comps.len() ==> #[trigger] comps[i] != "Cellar"@) ==> link_of(comps)
            is None && stable_path(comps, target) is None,
{
    lemma_cellar_from(comps, 0);
    if let Some(i) = keg_at(comps) {
        assert(comps.take(i + 3).take(i) =~= comps.take(i));
    }
}

/// Of the directories above a file, the first that is a link is found, and none
/// where none is one.
pub proof fn law_first_link_is_found(dirs: Seq<Seq<char>>, links: Seq<bool>, k: int, i: int)
    requires
        dirs.len() == links.len(),
        0 <= i <= k <= dirs.len(),
        k < dirs.len() ==> links[k],
        forall|j: int| i <= j < k ==> !(#[trigger] links[j]),
    ensures
        first_link(dirs, links, i) == (if k < dirs.len() {
            Some(dirs[k])
        } else {
            None
        }),
    decreases k - i,
{
    if i < k {
        assert(!links[i]);
        law_first_link_is_found(dirs, links, k, i + 1);
    }
}

/// The configuration is loaded again exactly if its own file was made or
/// changed.
pub proof fn law_only_the_configuration_is_loaded_again(
    kind: ChangeKind,
    changed: Seq<Seq<char>>,
    path: Seq<char>,
)
    ensures
        reloads(kind, changed, path) ==> exists|i: int|
            0 <= i < changed.len() && #[trigger] changed[i] == path,
        reloads(ChangeKind::Created, changed.push(path), path),
        reloads(ChangeKind::Modified, changed.push(path), path),
        !reloads(ChangeKind::Other, changed, path),
{
    let more = changed.push(path);
    assert(more[more.len() - 1] == path);
}

}
