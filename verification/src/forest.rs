//! The workspaces: which windows are leaves of each one's container tree, and
//! which leaf has the focus. The trees themselves, with their containers and
//! weights, are kept elsewhere: a leaf is known here by the id of its node.

use vstd::prelude::*;
use crate::desk::lookup;
use crate::table::Table;

verus! {

/// A leaf of a container tree: its node, and the window that it holds.
#[derive(Debug, Clone, Copy, PartialEq, Eq, Structural)]
pub struct Leaf {
    pub node: u64,
    pub window: u32,
}

pub struct Forest {
    leaves: Table<String, Vec<Leaf>>,
    focus: Table<String, u64>,
    fullscreen: Table<String, u64>,
    cascade: Table<String, u32>,
}

/// What a `Forest` holds.
pub struct ForestView {
    /// The leaves of each workspace.
    pub leaves: Map<Seq<char>, Seq<Leaf>>,
    /// The node that has, or last had, the focus on each workspace.
    pub focus: Map<Seq<char>, u64>,
    /// The node that is laid out over the whole monitor.
    pub fullscreen: Map<Seq<char>, u64>,
    /// How many floating windows were centred on each workspace, modulo the
    /// range of the counter.
    pub cascade: Map<Seq<char>, u32>,
}

impl View for Forest {
    type V = ForestView;

    closed spec fn view(&self) -> ForestView {
        ForestView {
            leaves: self.leaves@,
            focus: self.focus@,
            fullscreen: self.fullscreen@,
            cascade: self.cascade@,
        }
    }
}

/// The window at a node, at or after place `from`.
pub open spec fn window_from(s: Seq<Leaf>, node: u64, from: int) -> Option<u32>
    decreases s.len() - from,
{
    if from < 0 || from >= s.len() {
        None
    } else if s[from].node == node {
        Some(s[from].window)
    } else {
        window_from(s, node, from + 1)
    }
}

/// The place of a window's leaf at or after place `from`, the length if it has
/// none.
pub open spec fn leaf_from(s: Seq<Leaf>, window: u32, from: int) -> int
    decreases s.len() - from,
{
    if from < 0 || from >= s.len() {
        s.len() as int
    } else if s[from].window == window {
        from
    } else {
        leaf_from(s, window, from + 1)
    }
}

/// The window at a node of a workspace.
pub open spec fn window_at(f: ForestView, name: Seq<char>, node: u64) -> Option<u32> {
    match lookup(f.leaves, name) {
        Some(s) => window_from(s, node, 0),
        None => None,
    }
}

/// The node of a window on a workspace.
pub open spec fn node_of(f: ForestView, name: Seq<char>, window: u32) -> Option<u64> {
    match lookup(f.leaves, name) {
        Some(s) => if leaf_from(s, window, 0) < s.len() {
            Some(s[leaf_from(s, window, 0)].node)
        } else {
            None
        },
        None => None,
    }
}

/// The leaves without the first one of a window.
pub open spec fn without(s: Seq<Leaf>, window: u32) -> Seq<Leaf> {
    if leaf_from(s, window, 0) < s.len() {
        s.remove(leaf_from(s, window, 0))
    } else {
        s
    }
}

/// The leaves of a workspace, none where it does not exist.
pub open spec fn leaves_of(f: ForestView, name: Seq<char>) -> Seq<Leaf> {
    match lookup(f.leaves, name) {
        Some(s) => s,
        None => Seq::empty(),
    }
}

/// The forest once a workspace exists.
pub open spec fn with_workspace(f: ForestView, name: Seq<char>) -> ForestView {
    ForestView { leaves: f.leaves.insert(name, leaves_of(f, name)), ..f }
}

/// The forest once a workspace exists no more, nor its focus.
pub open spec fn abolished(f: ForestView, name: Seq<char>) -> ForestView {
    ForestView {
        leaves: f.leaves.remove(name),
        focus: f.focus.remove(name),
        fullscreen: f.fullscreen.remove(name),
        ..f
    }
}

/// The forest once a window is a leaf of a workspace, which is made where it
/// does not exist.
pub open spec fn with_leaf(f: ForestView, name: Seq<char>, leaf: Leaf) -> ForestView {
    ForestView { leaves: f.leaves.insert(name, leaves_of(f, name).push(leaf)), ..f }
}

/// The forest once a workspace's focus is at a node.
pub open spec fn with_focus(f: ForestView, name: Seq<char>, node: u64) -> ForestView {
    ForestView { focus: f.focus.insert(name, node), ..f }
}

/// The forest once a new leaf has the focus of a workspace that had none.
pub open spec fn with_first_focus(f: ForestView, name: Seq<char>, node: u64) -> ForestView {
    if f.focus.contains_key(name) {
        f
    } else {
        with_focus(f, name, node)
    }
}

/// A window's leaf has the focus of its workspace.
pub open spec fn has_focus(f: ForestView, name: Seq<char>, window: u32) -> bool {
    node_of(f, name, window) is Some && lookup(f.focus, name) == node_of(f, name, window)
}

/// The nodes that fill a monitor once a window left a workspace: not its own.
pub open spec fn unfilled(f: ForestView, name: Seq<char>, window: u32) -> Map<Seq<char>, u64> {
    let node = node_of(f, name, window);
    if node is Some && lookup(f.fullscreen, name) == node {
        f.fullscreen.remove(name)
    } else {
        f.fullscreen
    }
}

/// The forest once a window is taken out of a workspace's tree. If it had the
/// focus, the node that the tree suggests gets it; if it filled the monitor,
/// nothing does any more.
pub open spec fn taken_out(f: ForestView, name: Seq<char>, window: u32, suggested: Option<u64>) -> ForestView {
    if !f.leaves.contains_key(name) {
        f
    } else {
        ForestView {
            leaves: f.leaves.insert(name, without(f.leaves[name], window)),
            focus: if has_focus(f, name, window) {
                match suggested {
                    Some(n) => f.focus.insert(name, n),
                    None => f.focus.remove(name),
                }
            } else {
                f.focus
            },
            fullscreen: unfilled(f, name, window),
            ..f
        }
    }
}

/// The node that gets the focus when a window is taken out.
pub open spec fn refocused(f: ForestView, name: Seq<char>, window: u32, suggested: Option<u64>) -> Option<u64> {
    if f.leaves.contains_key(name) && has_focus(f, name, window) {
        suggested
    } else {
        None
    }
}

/// The forest once a window went from the focus of one workspace to the focus
/// of another. If it filled the monitor, nothing does any more there.
pub open spec fn carried_over(
    f: ForestView,
    from: Seq<char>,
    to: Seq<char>,
    window: u32,
    suggested: Option<u64>,
    node: u64,
) -> ForestView {
    let left = ForestView {
        leaves: f.leaves.insert(from, without(leaves_of(f, from), window)),
        focus: match suggested {
            Some(n) => f.focus.insert(from, n),
            None => f.focus.remove(from),
        },
        fullscreen: unfilled(f, from, window),
        ..f
    };
    with_focus(with_leaf(left, to, Leaf { node, window }), to, node)
}

/// The forest once another node fills the monitor, or the same one does not
/// any more.
pub open spec fn fullscreen_toggled(f: ForestView, name: Seq<char>, node: u64) -> ForestView {
    ForestView {
        fullscreen: if lookup(f.fullscreen, name) == Some(node) {
            f.fullscreen.remove(name)
        } else {
            f.fullscreen.insert(name, node)
        },
        ..f
    }
}

fn find_leaf(s: &Vec<Leaf>, window: u32) -> (r: Option<usize>)
    ensures
        match r {
            Some(i) => i < s@.len() && leaf_from(s@, window, 0) == i,
            None => leaf_from(s@, window, 0) == s@.len(),
        },
{
    let mut i: usize = 0;
    while i < s.len()
        invariant
            i <= s.len(),
            leaf_from(s@, window, 0) == leaf_from(s@, window, i as int),
        decreases s.len() - i,
    {
        if s[i].window == window {
            return Some(i);
        }
        i = i + 1;
    }
    None
}

fn copy_leaves(s: &Vec<Leaf>) -> (r: Vec<Leaf>)
    ensures
        r@ == s@,
{
    let mut out: Vec<Leaf> = Vec::new();
    let mut i: usize = 0;
    while i < s.len()
        invariant
            i <= s.len(),
            out@ == s@.take(i as int),
        decreases s.len() - i,
    {
        out.push(s[i]);
        i = i + 1;
    }
    out
}

impl Forest {
    pub closed spec fn wf(&self) -> bool {
        self.leaves.wf() && self.focus.wf() && self.fullscreen.wf() && self.cascade.wf()
    }

    pub fn new() -> (r: Self)
        ensures
            r.wf(),
            r@ == (ForestView {
                leaves: Map::empty(),
                focus: Map::empty(),
                fullscreen: Map::empty(),
                cascade: Map::empty(),
            }),
    {
        Forest {
            leaves: Table::new(),
            focus: Table::new(),
            fullscreen: Table::new(),
            cascade: Table::new(),
        }
    }

    /// Whether a workspace exists.
    pub fn is_declared(&self, name: &str) -> (r: bool)
        requires
            self.wf(),
        ensures
            r == self@.leaves.contains_key(name@),
    {
        self.leaves.contains(&name.to_owned())
    }

    /// Makes a workspace exist.
    pub fn declare(&mut self, name: &str)
        requires
            old(self).wf(),
        ensures
            final(self).wf(),
            final(self)@ == with_workspace(old(self)@, name@),
    {
        let key: String = name.to_owned();
        if !self.leaves.contains(&key) {
            self.leaves.insert(key, Vec::new());
        } else {
            assert(self@.leaves.insert(name@, self@.leaves[name@]) =~= self@.leaves);
        }
    }

    /// Makes a workspace exist no more, nor its focus.
    pub fn abolish(&mut self, name: &str)
        requires
            old(self).wf(),
        ensures
            final(self).wf(),
            final(self)@ == abolished(old(self)@, name@),
    {
        let key: String = name.to_owned();
        let _ = self.leaves.remove(&key);
        let _ = self.focus.remove(&key);
        let _ = self.fullscreen.remove(&key);
    }

    /// How many workspaces there are. Each has a place below that.
    pub fn count(&self) -> (r: usize)
        requires
            self.wf(),
        ensures
            r == self.names().len(),
            self.names().no_duplicates(),
            forall|i: int| 0 <= i < r ==> self@.leaves.contains_key(#[trigger] self.names()[i]),
            forall|name: Seq<char>| #[trigger]
                self@.leaves.contains_key(name) ==> self.names().contains(name),
    {
        self.leaves.len()
    }

    /// The names of the workspaces, in the order in which they came.
    pub closed spec fn names(&self) -> Seq<Seq<char>> {
        self.leaves.order()
    }

    /// The name of the workspace at a place.
    pub fn name_at(&self, i: usize) -> (r: &str)
        requires
            self.wf(),
            i < self.names().len(),
        ensures
            r@ == self.names()[i as int],
            self@.leaves.contains_key(r@),
    {
        self.leaves.key_at(i).as_str()
    }

    /// The leaves of a workspace.
    pub fn leaves(&self, name: &str) -> (r: Vec<Leaf>)
        requires
            self.wf(),
        ensures
            r@ == leaves_of(self@, name@),
    {
        match self.leaves.get(&name.to_owned()) {
            Some(s) => copy_leaves(s),
            None => Vec::new(),
        }
    }

    /// How many windows a workspace holds.
    pub fn window_count(&self, name: &str) -> (r: usize)
        requires
            self.wf(),
        ensures
            r == leaves_of(self@, name@).len(),
    {
        match self.leaves.get(&name.to_owned()) {
            Some(s) => s.len(),
            None => 0,
        }
    }

    /// The node that has the focus of a workspace.
    pub fn focus(&self, name: &str) -> (r: Option<u64>)
        requires
            self.wf(),
        ensures
            r == lookup(self@.focus, name@),
    {
        match self.focus.get(&name.to_owned()) {
            Some(n) => Some(*n),
            None => None,
        }
    }

    /// The node that fills the monitor of a workspace.
    pub fn fullscreen(&self, name: &str) -> (r: Option<u64>)
        requires
            self.wf(),
        ensures
            r == lookup(self@.fullscreen, name@),
    {
        match self.fullscreen.get(&name.to_owned()) {
            Some(n) => Some(*n),
            None => None,
        }
    }

    /// The window at a node.
    pub fn window_at(&self, name: &str, node: u64) -> (r: Option<u32>)
        requires
            self.wf(),
        ensures
            r == window_at(self@, name@, node),
    {
        match self.leaves.get(&name.to_owned()) {
            Some(s) => {
                let mut i: usize = 0;
                while i < s.len()
                    invariant
                        i <= s.len(),
                        lookup(self@.leaves, name@) == Some(s@),
                        window_from(s@, node, 0) == window_from(s@, node, i as int),
                    decreases s.len() - i,
                {
                    if s[i].node == node {
                        return Some(s[i].window);
                    }
                    i = i + 1;
                }
                None
            },
            None => None,
        }
    }

    /// The node of a window.
    pub fn node_of(&self, name: &str, window: u32) -> (r: Option<u64>)
        requires
            self.wf(),
        ensures
            r == node_of(self@, name@, window),
    {
        match self.leaves.get(&name.to_owned()) {
            Some(s) => match find_leaf(s, window) {
                Some(i) => Some(s[i].node),
                None => None,
            },
            None => None,
        }
    }

    /// Makes a window a leaf of a workspace.
    pub fn add_leaf(&mut self, name: &str, leaf: Leaf)
        requires
            old(self).wf(),
        ensures
            final(self).wf(),
            final(self)@ == with_leaf(old(self)@, name@, leaf),
    {
        let mut s: Vec<Leaf> = self.leaves(name);
        s.push(leaf);
        self.leaves.insert(name.to_owned(), s);
    }

    /// Moves a workspace's focus to a node.
    pub fn set_focus(&mut self, name: &str, node: u64)
        requires
            old(self).wf(),
        ensures
            final(self).wf(),
            final(self)@ == with_focus(old(self)@, name@, node),
    {
        self.focus.insert(name.to_owned(), node);
    }

    /// Gives a node the focus of a workspace that has none.
    pub fn set_first_focus(&mut self, name: &str, node: u64)
        requires
            old(self).wf(),
        ensures
            final(self).wf(),
            final(self)@ == with_first_focus(old(self)@, name@, node),
    {
        if self.focus(name).is_none() {
            self.set_focus(name, node);
        }
    }

    /// Takes a window out of a workspace's tree. Returns the node that got the
    /// focus for it.
    pub fn take_out(&mut self, name: &str, window: u32, suggested: Option<u64>) -> (r: Option<u64>)
        requires
            old(self).wf(),
        ensures
            final(self).wf(),
            final(self)@ == taken_out(old(self)@, name@, window, suggested),
            r == refocused(old(self)@, name@, window, suggested),
    {
        if !self.is_declared(name) {
            return None;
        }
        let mut s: Vec<Leaf> = self.leaves(name);
        let place: usize = match find_leaf(&s, window) {
            Some(i) => i,
            None => {
                assert(self@.leaves.insert(name@, self@.leaves[name@]) =~= self@.leaves);
                return None;
            },
        };
        let node: u64 = s[place].node;
        let had_focus: bool = match self.focus(name) {
            Some(n) => n == node,
            None => false,
        };
        let filled: bool = match self.fullscreen(name) {
            Some(n) => n == node,
            None => false,
        };
        let _ = s.remove(place);
        self.leaves.insert(name.to_owned(), s);
        if filled {
            let _ = self.fullscreen.remove(&name.to_owned());
        }
        if !had_focus {
            return None;
        }
        match suggested {
            Some(n) => {
                self.focus.insert(name.to_owned(), n);
            },
            None => {
                let _ = self.focus.remove(&name.to_owned());
            },
        }
        suggested
    }

    /// Carries a window from the focus of one workspace over to another.
    pub fn carry_over(&mut self, from: &str, to: &str, window: u32, suggested: Option<u64>, node: u64)
        requires
            old(self).wf(),
        ensures
            final(self).wf(),
            final(self)@ == carried_over(old(self)@, from@, to@, window, suggested, node),
    {
        let fills: bool = match (self.node_of(from, window), self.fullscreen(from)) {
            (Some(a), Some(b)) => a == b,
            _ => false,
        };
        if fills {
            let _ = self.fullscreen.remove(&from.to_owned());
        }
        let mut s: Vec<Leaf> = self.leaves(from);
        match find_leaf(&s, window) {
            Some(i) => {
                let _ = s.remove(i);
            },
            None => {},
        }
        self.leaves.insert(from.to_owned(), s);
        match suggested {
            Some(n) => {
                self.focus.insert(from.to_owned(), n);
            },
            None => {
                let _ = self.focus.remove(&from.to_owned());
            },
        }
        self.add_leaf(to, Leaf { node, window });
        self.set_focus(to, node);
    }

    /// Makes a node fill its monitor, or not any more.
    pub fn toggle_fullscreen(&mut self, name: &str, node: u64)
        requires
            old(self).wf(),
        ensures
            final(self).wf(),
            final(self)@ == fullscreen_toggled(old(self)@, name@, node),
    {
        let same: bool = match self.fullscreen(name) {
            Some(n) => n == node,
            None => false,
        };
        if same {
            let _ = self.fullscreen.remove(&name.to_owned());
        } else {
            self.fullscreen.insert(name.to_owned(), node);
        }
    }

    /// The number of the next floating window to be centred on a workspace.
    pub fn next_floating_cascade_index(&mut self, name: &str) -> (r: u32)
        requires
            old(self).wf(),
        ensures
            final(self).wf(),
            r == (match lookup(old(self)@.cascade, name@) {
                Some(n) => n,
                None => 0u32,
            }),
            final(self)@ == (ForestView {
                cascade: old(self)@.cascade.insert(name@, r.wrapping_add(1)),
                ..old(self)@
            }),
    {
        let key: String = name.to_owned();
        let n: u32 = match self.cascade.get(&key) {
            Some(n) => *n,
            None => 0,
        };
        self.cascade.insert(key, n.wrapping_add(1));
        n
    }
}

/// Toggling fullscreen twice at one node leaves no node filling the monitor
/// that did not before, and none that did.
pub proof fn law_fullscreen_toggles_back(f: ForestView, name: Seq<char>, node: u64)
    requires
        !f.fullscreen.contains_key(name),
    ensures
        fullscreen_toggled(fullscreen_toggled(f, name, node), name, node) == f,
{
    let g = fullscreen_toggled(f, name, node);
    assert(fullscreen_toggled(g, name, node).fullscreen =~= f.fullscreen);
}

/// A window that is taken out neither keeps the focus by its node nor fills
/// the monitor, unless the tree suggests that very node.
pub proof fn law_taken_out_leaves_no_trace(
    f: ForestView,
    name: Seq<char>,
    window: u32,
    suggested: Option<u64>,
)
    requires
        f.leaves.contains_key(name),
        node_of(f, name, window) is Some,
        suggested != node_of(f, name, window),
    ensures
        ({
            let g = taken_out(f, name, window, suggested);
            &&& lookup(g.focus, name) != node_of(f, name, window)
            &&& lookup(g.fullscreen, name) != node_of(f, name, window)
            &&& g.leaves[name].len() == f.leaves[name].len() - 1
        }),
{
    lemma_leaf_from(f.leaves[name], window, 0);
}

proof fn lemma_leaf_from(s: Seq<Leaf>, window: u32, from: int)
    requires
        0 <= from <= s.len(),
    ensures
        from <= leaf_from(s, window, from) <= s.len(),
        leaf_from(s, window, from) < s.len() ==> s[leaf_from(s, window, from)].window == window,
    decreases s.len() - from,
{
    if from < s.len() && s[from].window != window {
        lemma_leaf_from(s, window, from + 1);
    }
}

}
