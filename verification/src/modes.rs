//! Keybinding modes: which command a key combination stands for.

use vstd::prelude::*;
use crate::command::{flags_start, parse, parsed_line};
use crate::config::{views, KeybindingMode, KeybindingModeView, KeybindingView};
use crate::hotkey::{combo_of, parse_key_combo, KeyCombo};
use crate::ipc::Command;
use crate::text::{
    join3, law_split_undoes_joining, outcome, pieces, same_text, separated, words,
};

verus! {

/// The mode that is current at first, and that every mode exits to.
pub open spec fn default_mode() -> Seq<char> {
    "main"@
}

/// `c` is what the command line `line` means.
pub open spec fn meant(line: Seq<char>, c: Command) -> bool {
    parsed_line(words(line).take(flags_start(words(line)) as int), c)
}

/// The combination that a key text spells.
pub open spec fn combo_for(key: Seq<char>) -> Option<KeyCombo> {
    combo_of(pieces(key, '-'))
}

struct Bound {
    key: String,
    line: String,
    combo: Option<KeyCombo>,
    command: Command,
}

struct Block {
    name: String,
    auto_exit: bool,
    bindings: Vec<Bound>,
}

/// The declared modes and the current one.
pub struct Modes {
    blocks: Vec<Block>,
    current: String,
}

/// What `Modes` holds.
pub struct ModesView {
    /// The blocks of keybindings, as configured.
    pub blocks: Seq<KeybindingModeView>,
    pub current: Seq<char>,
}

impl View for Bound {
    type V = KeybindingView;

    closed spec fn view(&self) -> KeybindingView {
        KeybindingView { key: self.key@, command: self.line@ }
    }
}

impl View for Block {
    type V = KeybindingModeView;

    closed spec fn view(&self) -> KeybindingModeView {
        KeybindingModeView {
            name: self.name@,
            auto_exit: self.auto_exit,
            bindings: views(self.bindings@),
        }
    }
}

impl View for Modes {
    type V = ModesView;

    closed spec fn view(&self) -> ModesView {
        ModesView { blocks: views(self.blocks@), current: self.current@ }
    }
}

spec fn bound_ok(b: Bound) -> bool {
    b.combo == combo_for(b.key@) && meant(b.line@, b.command)
}

spec fn block_ok(b: Block) -> bool {
    forall|i: int| 0 <= i < b.bindings@.len() ==> bound_ok(#[trigger] b.bindings@[i])
}

/// The last block of a mode before place `end`.
pub open spec fn block_before(blocks: Seq<KeybindingModeView>, name: Seq<char>, end: int) -> Option<
    KeybindingModeView,
>
    decreases end,
{
    if end <= 0 || end > blocks.len() {
        None
    } else if blocks[end - 1].name == name {
        Some(blocks[end - 1])
    } else {
        block_before(blocks, name, end - 1)
    }
}

/// The block that holds for a mode: where it is written twice, the later one.
pub open spec fn mode_block(blocks: Seq<KeybindingModeView>, name: Seq<char>) -> Option<
    KeybindingModeView,
> {
    block_before(blocks, name, blocks.len() as int)
}

/// A mode is declared.
pub open spec fn mode_declared(blocks: Seq<KeybindingModeView>, name: Seq<char>) -> bool {
    mode_block(blocks, name) is Some
}

/// The command line of the last binding before place `end` for a combination.
pub open spec fn line_before(bindings: Seq<KeybindingView>, combo: KeyCombo, end: int) -> Option<
    Seq<char>,
>
    decreases end,
{
    if end <= 0 || end > bindings.len() {
        None
    } else if combo_for(bindings[end - 1].key) == Some(combo) {
        Some(bindings[end - 1].command)
    } else {
        line_before(bindings, combo, end - 1)
    }
}

/// The command line that a combination is bound to in the current mode: where
/// it is bound twice, the later one.
pub open spec fn bound_line(m: ModesView, combo: KeyCombo) -> Option<Seq<char>> {
    match mode_block(m.blocks, m.current) {
        Some(b) => line_before(b.bindings, combo, b.bindings.len() as int),
        None => None,
    }
}

/// Some block of a mode says that it is left after one command.
pub open spec fn one_shot(blocks: Seq<KeybindingModeView>, name: Seq<char>) -> bool {
    exists|i: int|
        0 <= i < blocks.len() && (#[trigger] blocks[i]).name == name && blocks[i].auto_exit
}

/// The modes after the keybindings were configured anew: a current mode that is
/// declared no more gives way to the default one.
pub open spec fn reconfigured(m: ModesView, blocks: Seq<KeybindingModeView>) -> ModesView {
    ModesView {
        blocks,
        current: if m.current == default_mode() || mode_declared(blocks, m.current) {
            m.current
        } else {
            default_mode()
        },
    }
}

/// The modes after entering one, which has to be the default one or declared.
pub open spec fn entered(m: ModesView, name: Seq<char>) -> Result<ModesView, Seq<char>> {
    if name == default_mode() || mode_declared(m.blocks, name) {
        Ok(ModesView { current: name, ..m })
    } else {
        Err("unknown keybinding mode '"@ + name + "'"@)
    }
}

/// The current mode is the default one or declared.
pub open spec fn mode_exists(m: ModesView) -> bool {
    m.current == default_mode() || mode_declared(m.blocks, m.current)
}

fn compile_block(mode: &KeybindingMode) -> (r: Block)
    ensures
        r@ == mode@,
        block_ok(r),
{
    let mut bindings: Vec<Bound> = Vec::new();
    let mut i: usize = 0;
    while i < mode.bindings.len()
        invariant
            i <= mode.bindings.len(),
            bindings@.len() == i,
            forall|j: int| 0 <= j < i ==> bound_ok(#[trigger] bindings@[j]),
            forall|j: int| 0 <= j < i ==> (#[trigger] bindings@[j])@ == mode.bindings@[j]@,
        decreases mode.bindings.len() - i,
    {
        let key: String = mode.bindings[i].key.clone();
        let line: String = mode.bindings[i].command.clone();
        let combo: Option<KeyCombo> = parse_key_combo(key.as_str());
        let command: Command = parse(line.as_str());
        bindings.push(Bound { key, line, combo, command });
        i = i + 1;
    }
    let r: Block = Block { name: mode.name.clone(), auto_exit: mode.auto_exit, bindings };
    assert(views(r.bindings@) =~= views(mode.bindings@));
    r
}

impl Modes {
    pub closed spec fn wf(&self) -> bool {
        forall|i: int| 0 <= i < self.blocks@.len() ==> block_ok(#[trigger] self.blocks@[i])
    }

    /// No mode is declared, the default one is current.
    pub fn new() -> (r: Self)
        ensures
            r.wf(),
            r@.blocks == Seq::<KeybindingModeView>::empty(),
            r@.current == default_mode(),
    {
        let r: Modes = Modes { blocks: Vec::new(), current: "main".to_owned() };
        assert(views(r.blocks@) =~= Seq::empty());
        r
    }

    /// Takes over the configured keybindings.
    pub fn reconfigure(&mut self, keybindings: &Vec<KeybindingMode>)
        requires
            old(self).wf(),
        ensures
            final(self).wf(),
            final(self)@ == reconfigured(old(self)@, views(keybindings@)),
    {
        let mut blocks: Vec<Block> = Vec::new();
        let mut i: usize = 0;
        while i < keybindings.len()
            invariant
                i <= keybindings.len(),
                blocks@.len() == i,
                forall|j: int| 0 <= j < i ==> block_ok(#[trigger] blocks@[j]),
                forall|j: int| 0 <= j < i ==> (#[trigger] blocks@[j])@ == keybindings@[j]@,
            decreases keybindings.len() - i,
        {
            blocks.push(compile_block(&keybindings[i]));
            i = i + 1;
        }
        self.blocks = blocks;
        assert(views(self.blocks@) =~= views(keybindings@));
        if !same_text(self.current.as_str(), "main") && self.find_block(self.current.as_str()).is_none() {
            self.current = "main".to_owned();
        }
    }

    fn find_block(&self, name: &str) -> (r: Option<usize>)
        ensures
            match r {
                Some(i) => {
                    &&& i < self.blocks@.len()
                    &&& mode_block(self@.blocks, name@) == Some(self.blocks@[i as int]@)
                },
                None => mode_block(self@.blocks, name@) is None,
            },
    {
        let ghost s = self@.blocks;
        let mut end: usize = self.blocks.len();
        while end > 0
            invariant
                end <= self.blocks.len(),
                s == self@.blocks,
                mode_block(s, name@) == block_before(s, name@, end as int),
            decreases end,
        {
            assert(s[end - 1] == self.blocks@[end - 1]@);
            if same_text(self.blocks[end - 1].name.as_str(), name) {
                return Some(end - 1);
            }
            end = end - 1;
        }
        None
    }

    /// Makes a mode current.
    pub fn enter_mode(&mut self, name: &str) -> (r: Result<(), String>)
        requires
            old(self).wf(),
        ensures
            final(self).wf(),
            match entered(old(self)@, name@) {
                Ok(m) => r is Ok && final(self)@ == m,
                Err(e) => outcome(r) == Err::<(), Seq<char>>(e) && final(self)@ == old(self)@,
            },
    {
        if same_text(name, "main") || self.find_block(name).is_some() {
            self.current = name.to_owned();
            Ok(())
        } else {
            Err(join3("unknown keybinding mode '", name, "'"))
        }
    }

    /// Makes the default mode current.
    pub fn exit_mode(&mut self)
        requires
            old(self).wf(),
        ensures
            final(self).wf(),
            final(self)@ == (ModesView { current: default_mode(), ..old(self)@ }),
    {
        self.current = "main".to_owned();
    }

    pub fn current_mode(&self) -> (r: &str)
        ensures
            r@ == self@.current,
    {
        self.current.as_str()
    }

    /// Whether the current mode is left after one command.
    pub fn current_mode_auto_exits(&self) -> (r: bool)
        ensures
            r == one_shot(self@.blocks, self@.current),
    {
        let ghost s = self@.blocks;
        let mut i: usize = 0;
        while i < self.blocks.len()
            invariant
                i <= self.blocks.len(),
                s == self@.blocks,
                forall|j: int|
                    0 <= j < i ==> !((#[trigger] s[j]).name == self@.current && s[j].auto_exit),
            decreases self.blocks.len() - i,
        {
            assert(s[i as int] == self.blocks@[i as int]@);
            if self.blocks[i].auto_exit && same_text(
                self.blocks[i].name.as_str(),
                self.current.as_str(),
            ) {
                return true;
            }
            i = i + 1;
        }
        false
    }

    /// Finds the command that a combination stands for in the current mode.
    pub fn resolve_hotkey(&self, combo: KeyCombo) -> (r: Option<&Command>)
        requires
            self.wf(),
        ensures
            match bound_line(self@, combo) {
                Some(line) => r is Some && meant(line, *r->0),
                None => r is None,
            },
    {
        let b: &Block = match self.find_block(self.current.as_str()) {
            Some(i) => &self.blocks[i],
            None => {
                return None;
            },
        };
        let ghost s = b@.bindings;
        let mut end: usize = b.bindings.len();
        assert(block_ok(*b));
        while end > 0
            invariant
                end <= b.bindings.len(),
                s == b@.bindings,
                block_ok(*b),
                bound_line(self@, combo) == line_before(s, combo, end as int),
            decreases end,
        {
            let x: &Bound = &b.bindings[end - 1];
            assert(s[end - 1] == x@);
            assert(bound_ok(b.bindings@[end - 1]));
            match x.combo {
                Some(c) => {
                    if c == combo {
                        return Some(&x.command);
                    }
                },
                None => {},
            }
            end = end - 1;
        }
        None
    }

    /// The combinations that are bound in the current mode, each once.
    pub fn active_key_combos(&self) -> (r: Vec<KeyCombo>)
        requires
            self.wf(),
        ensures
            r@.no_duplicates(),
            forall|c: KeyCombo| r@.contains(c) <==> bound_line(self@, c) is Some,
    {
        let mut out: Vec<KeyCombo> = Vec::new();
        let b: &Block = match self.find_block(self.current.as_str()) {
            Some(i) => &self.blocks[i],
            None => {
                return out;
            },
        };
        let ghost s = b@.bindings;
        assert(block_ok(*b));
        let mut i: usize = 0;
        while i < b.bindings.len()
            invariant
                i <= b.bindings.len(),
                s == b@.bindings,
                s.len() == b.bindings@.len(),
                block_ok(*b),
                out@.no_duplicates(),
                forall|c: KeyCombo| #[trigger] out@.contains(c) <==> line_before(s, c, i as int) is Some,
            decreases b.bindings.len() - i,
        {
            let x: &Bound = &b.bindings[i];
            assert(s[i as int] == x@);
            assert(bound_ok(b.bindings@[i as int]));
            let ghost before = out@;
            match x.combo {
                Some(c) => {
                    if !holds(&out, c) {
                        out.push(c);
                        assert(out@.last() == c);
                    }
                    assert forall|d: KeyCombo| #[trigger] out@.contains(d) <==> line_before(
                        s,
                        d,
                        i + 1,
                    ) is Some by {
                        if before.contains(d) {
                            let k = before.index_of(d);
                            assert(out@[k] == d);
                        }
                        if out@.contains(d) && d != c {
                            let k = out@.index_of(d);
                            assert(before[k] == d);
                        }
                    }
                },
                None => {
                    assert forall|d: KeyCombo| #[trigger] out@.contains(d) <==> line_before(
                        s,
                        d,
                        i + 1,
                    ) is Some by {}
                },
            }
            i = i + 1;
        }
        out
    }
}

fn holds(v: &Vec<KeyCombo>, c: KeyCombo) -> (r: bool)
    ensures
        r == v@.contains(c),
{
    let mut i: usize = 0;
    while i < v.len()
        invariant
            i <= v.len(),
            forall|j: int| 0 <= j < i ==> v@[j] != c,
        decreases v.len() - i,
    {
        if v[i] == c {
            assert(v@[i as int] == c);
            return true;
        }
        i = i + 1;
    }
    false
}

/// Whatever is configured, entered or exited, the current mode is the default
/// one or a declared one.
pub proof fn law_current_mode_exists(m: ModesView, blocks: Seq<KeybindingModeView>, name: Seq<char>)
    ensures
        mode_exists(reconfigured(m, blocks)),
        entered(m, name) is Ok ==> mode_exists(entered(m, name)->Ok_0),
        mode_exists(ModesView { current: default_mode(), ..m }),
{
}

/// Exiting always leads to the mode that entering `main` leads to.
pub proof fn law_exit_enters_the_default_mode(m: ModesView)
    ensures
        entered(m, default_mode()) == Ok::<ModesView, Seq<char>>(
            ModesView { current: default_mode(), ..m },
        ),
{
}

/// Some block of keybindings is for a mode.
pub open spec fn has_block(blocks: Seq<KeybindingModeView>, name: Seq<char>) -> bool {
    exists|i: int| 0 <= i < blocks.len() && (#[trigger] blocks[i]).name == name
}

proof fn lemma_block_before(blocks: Seq<KeybindingModeView>, name: Seq<char>, end: int)
    requires
        0 <= end <= blocks.len(),
    ensures
        block_before(blocks, name, end) is Some <==> exists|i: int|
            0 <= i < end && (#[trigger] blocks[i]).name == name,
    decreases end,
{
    if end > 0 {
        lemma_block_before(blocks, name, end - 1);
        if block_before(blocks, name, end) is None {
            assert(blocks[end - 1].name != name);
        }
        if exists|i: int| 0 <= i < end && (#[trigger] blocks[i]).name == name {
            let i = choose|i: int| 0 <= i < end && (#[trigger] blocks[i]).name == name;
            assert(i < end - 1 || blocks[end - 1].name == name);
        }
    }
}

/// A mode can be entered exactly if it is `main` or some keybindings are for it.
/// Then it is the current one, and the keybindings are as before.
pub proof fn law_declared_modes_can_be_entered(m: ModesView, name: Seq<char>)
    ensures
        entered(m, name) is Ok <==> name == "main"@ || has_block(m.blocks, name),
        entered(m, name) is Ok ==> entered(m, name)->Ok_0.current == name && entered(
            m,
            name,
        )->Ok_0.blocks == m.blocks,
{
    lemma_block_before(m.blocks, name, m.blocks.len() as int);
}

/// New keybindings leave the current mode as it is, as long as they have it or
/// it is `main`; else `main` is the current one.
pub proof fn law_new_keybindings_keep_the_mode(m: ModesView, blocks: Seq<KeybindingModeView>)
    ensures
        reconfigured(m, blocks).blocks == blocks,
        reconfigured(m, blocks).current == (if has_block(blocks, m.current) {
            m.current
        } else {
            "main"@
        }),
{
    lemma_block_before(blocks, m.current, blocks.len() as int);
}

proof fn lemma_line_before(a: Seq<KeybindingView>, b: Seq<KeybindingView>, combo: KeyCombo, end: int)
    requires
        0 <= end <= a.len(),
        end <= b.len(),
        forall|i: int| 0 <= i < end ==> a[i] == #[trigger] b[i],
    ensures
        line_before(a, combo, end) == line_before(b, combo, end),
    decreases end,
{
    if end > 0 {
        assert(a[end - 1] == b[end - 1]);
        lemma_line_before(a, b, combo, end - 1);
    }
}

proof fn lemma_block_before_same(
    a: Seq<KeybindingModeView>,
    b: Seq<KeybindingModeView>,
    name: Seq<char>,
    end: int,
)
    requires
        0 <= end <= a.len(),
        end <= b.len(),
        forall|i: int| 0 <= i < end ==> a[i] == #[trigger] b[i],
    ensures
        block_before(a, name, end) == block_before(b, name, end),
    decreases end,
{
    if end > 0 {
        assert(a[end - 1] == b[end - 1]);
        lemma_block_before_same(a, b, name, end - 1);
    }
}

/// A binding that is added at the end of the current mode's block holds for the
/// combination that its key spells, whatever was bound before, and for no other
/// one. Without bindings nothing is bound.
pub proof fn law_last_binding_holds(
    blocks: Seq<KeybindingModeView>,
    block: KeybindingModeView,
    binding: KeybindingView,
    combo: KeyCombo,
)
    ensures
        ({
            let before = ModesView { blocks: blocks.push(block), current: block.name };
            let more = KeybindingModeView { bindings: block.bindings.push(binding), ..block };
            let after = ModesView { blocks: blocks.push(more), current: block.name };
            let none = KeybindingModeView { bindings: Seq::empty(), ..block };
            let bare = ModesView { blocks: blocks.push(none), current: block.name };
            &&& combo_for(binding.key) == Some(combo) ==> bound_line(after, combo) == Some(
                binding.command,
            )
            &&& combo_for(binding.key) != Some(combo) ==> bound_line(after, combo) == bound_line(
                before,
                combo,
            )
            &&& bound_line(bare, combo) is None
        }),
{
    let n = block.bindings.len() as int;
    let all = block.bindings.push(binding);
    assert(all[n] == binding);
    lemma_line_before(all, block.bindings, combo, n);
}

/// Only the keybindings of the current mode are bound: those of another one may
/// be anything.
pub proof fn law_other_modes_bind_nothing(
    blocks: Seq<KeybindingModeView>,
    other: KeybindingModeView,
    current: Seq<char>,
    combo: KeyCombo,
)
    requires
        other.name != current,
    ensures
        bound_line(ModesView { blocks: blocks.push(other), current }, combo) == bound_line(
            ModesView { blocks, current },
            combo,
        ),
        one_shot(blocks.push(other), current) == one_shot(blocks, current),
        one_shot(blocks.push(other), other.name) == (one_shot(blocks, other.name)
            || other.auto_exit),
{
    let n = blocks.len() as int;
    let all = blocks.push(other);
    assert(all[n] == other);
    lemma_block_before_same(all, blocks, current, n);
    assert forall|name: Seq<char>| #[trigger] one_shot(all, name) == (one_shot(blocks, name) || (
    other.name == name && other.auto_exit)) by {
        if one_shot(blocks, name) {
            let i = choose|i: int|
                0 <= i < blocks.len() && (#[trigger] blocks[i]).name == name && blocks[i].auto_exit;
            assert(all[i] == blocks[i]);
        }
        if one_shot(all, name) {
            let i = choose|i: int|
                0 <= i < all.len() && (#[trigger] all[i]).name == name && all[i].auto_exit;
            if i < n {
                assert(blocks[i] == all[i]);
            }
        }
    }
}

/// A key text that is made of words with hyphens between them spells what its
/// words spell.
pub proof fn law_key_texts_are_split_at_hyphens(words: Seq<Seq<char>>)
    requires
        words.len() > 0,
        forall|i: int| 0 <= i < words.len() ==> !(#[trigger] words[i]).contains('-'),
    ensures
        combo_for(separated(words, '-')) == combo_of(words),
{
    law_split_undoes_joining(words, '-');
}

}
