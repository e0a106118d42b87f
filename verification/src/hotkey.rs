//! Key combinations, as written in a keybinding.

use vstd::prelude::*;
use crate::text::{pieces, same_text, split_at_char, texts};

verus! {

/// Modifier keys and the virtual key code of a base key.
#[derive(Debug, Clone, Copy, PartialEq, Eq, Hash, Structural)]
pub struct KeyCombo {
    pub cmd: bool,
    pub alt: bool,
    pub ctrl: bool,
    pub shift: bool,
    pub keycode: u16,
}

/// The virtual key code of a named base key, on the ANSI layout.
pub open spec fn key_code_of(name: Seq<char>) -> Option<u16> {
    if name == "a"@ {
        Some(0x00)
    } else if name == "b"@ {
        Some(0x0B)
    } else if name == "c"@ {
        Some(0x08)
    } else if name == "d"@ {
        Some(0x02)
    } else if name == "e"@ {
        Some(0x0E)
    } else if name == "f"@ {
        Some(0x03)
    } else if name == "g"@ {
        Some(0x05)
    } else if name == "h"@ {
        Some(0x04)
    } else if name == "i"@ {
        Some(0x22)
    } else if name == "j"@ {
        Some(0x26)
    } else if name == "k"@ {
        Some(0x28)
    } else if name == "l"@ {
        Some(0x25)
    } else if name == "m"@ {
        Some(0x2E)
    } else if name == "n"@ {
        Some(0x2D)
    } else if name == "o"@ {
        Some(0x1F)
    } else if name == "p"@ {
        Some(0x23)
    } else if name == "q"@ {
        Some(0x0C)
    } else if name == "r"@ {
        Some(0x0F)
    } else if name == "s"@ {
        Some(0x01)
    } else if name == "t"@ {
        Some(0x11)
    } else if name == "u"@ {
        Some(0x20)
    } else if name == "v"@ {
        Some(0x09)
    } else if name == "w"@ {
        Some(0x0D)
    } else if name == "x"@ {
        Some(0x07)
    } else if name == "y"@ {
        Some(0x10)
    } else if name == "z"@ {
        Some(0x06)
    } else if name == "0"@ {
        Some(0x1D)
    } else if name == "1"@ {
        Some(0x12)
    } else if name == "2"@ {
        Some(0x13)
    } else if name == "3"@ {
        Some(0x14)
    } else if name == "4"@ {
        Some(0x15)
    } else if name == "5"@ {
        Some(0x17)
    } else if name == "6"@ {
        Some(0x16)
    } else if name == "7"@ {
        Some(0x1A)
    } else if name == "8"@ {
        Some(0x1C)
    } else if name == "9"@ {
        Some(0x19)
    } else if name == "slash"@ {
        Some(0x2C)
    } else if name == "semicolon"@ {
        Some(0x29)
    } else if name == "minus"@ {
        Some(0x1B)
    } else if name == "equal"@ {
        Some(0x18)
    } else if name == "comma"@ {
        Some(0x2B)
    } else if name == "period"@ {
        Some(0x2F)
    } else if name == "quote"@ {
        Some(0x27)
    } else if name == "grave"@ {
        Some(0x32)
    } else if name == "leftbracket"@ {
        Some(0x21)
    } else if name == "rightbracket"@ {
        Some(0x1E)
    } else if name == "backslash"@ {
        Some(0x2A)
    } else if name == "escape"@ {
        Some(0x35)
    } else if name == "enter"@ {
        Some(0x24)
    } else if name == "return"@ {
        Some(0x24)
    } else if name == "space"@ {
        Some(0x31)
    } else if name == "tab"@ {
        Some(0x30)
    } else if name == "delete"@ {
        Some(0x33)
    } else if name == "left"@ {
        Some(0x7B)
    } else if name == "right"@ {
        Some(0x7C)
    } else if name == "up"@ {
        Some(0x7E)
    } else if name == "down"@ {
        Some(0x7D)
    } else {
        None
    }
}

/// Finds the virtual key code of a named base key.
pub fn key_code_for_name(name: &str) -> (r: Option<u16>)
    ensures
        r == key_code_of(name@),
{
    if same_text(name, "a") {
        Some(0x00)
    } else if same_text(name, "b") {
        Some(0x0B)
    } else if same_text(name, "c") {
        Some(0x08)
    } else if same_text(name, "d") {
        Some(0x02)
    } else if same_text(name, "e") {
        Some(0x0E)
    } else if same_text(name, "f") {
        Some(0x03)
    } else if same_text(name, "g") {
        Some(0x05)
    } else if same_text(name, "h") {
        Some(0x04)
    } else if same_text(name, "i") {
        Some(0x22)
    } else if same_text(name, "j") {
        Some(0x26)
    } else if same_text(name, "k") {
        Some(0x28)
    } else if same_text(name, "l") {
        Some(0x25)
    } else if same_text(name, "m") {
        Some(0x2E)
    } else if same_text(name, "n") {
        Some(0x2D)
    } else if same_text(name, "o") {
        Some(0x1F)
    } else if same_text(name, "p") {
        Some(0x23)
    } else if same_text(name, "q") {
        Some(0x0C)
    } else if same_text(name, "r") {
        Some(0x0F)
    } else if same_text(name, "s") {
        Some(0x01)
    } else if same_text(name, "t") {
        Some(0x11)
    } else if same_text(name, "u") {
        Some(0x20)
    } else if same_text(name, "v") {
        Some(0x09)
    } else if same_text(name, "w") {
        Some(0x0D)
    } else if same_text(name, "x") {
        Some(0x07)
    } else if same_text(name, "y") {
        Some(0x10)
    } else if same_text(name, "z") {
        Some(0x06)
    } else if same_text(name, "0") {
        Some(0x1D)
    } else if same_text(name, "1") {
        Some(0x12)
    } else if same_text(name, "2") {
        Some(0x13)
    } else if same_text(name, "3") {
        Some(0x14)
    } else if same_text(name, "4") {
        Some(0x15)
    } else if same_text(name, "5") {
        Some(0x17)
    } else if same_text(name, "6") {
        Some(0x16)
    } else if same_text(name, "7") {
        Some(0x1A)
    } else if same_text(name, "8") {
        Some(0x1C)
    } else if same_text(name, "9") {
        Some(0x19)
    } else if same_text(name, "slash") {
        Some(0x2C)
    } else if same_text(name, "semicolon") {
        Some(0x29)
    } else if same_text(name, "minus") {
        Some(0x1B)
    } else if same_text(name, "equal") {
        Some(0x18)
    } else if same_text(name, "comma") {
        Some(0x2B)
    } else if same_text(name, "period") {
        Some(0x2F)
    } else if same_text(name, "quote") {
        Some(0x27)
    } else if same_text(name, "grave") {
        Some(0x32)
    } else if same_text(name, "leftbracket") {
        Some(0x21)
    } else if same_text(name, "rightbracket") {
        Some(0x1E)
    } else if same_text(name, "backslash") {
        Some(0x2A)
    } else if same_text(name, "escape") {
        Some(0x35)
    } else if same_text(name, "enter") {
        Some(0x24)
    } else if same_text(name, "return") {
        Some(0x24)
    } else if same_text(name, "space") {
        Some(0x31)
    } else if same_text(name, "tab") {
        Some(0x30)
    } else if same_text(name, "delete") {
        Some(0x33)
    } else if same_text(name, "left") {
        Some(0x7B)
    } else if same_text(name, "right") {
        Some(0x7C)
    } else if same_text(name, "up") {
        Some(0x7E)
    } else if same_text(name, "down") {
        Some(0x7D)
    } else {
        None
    }
}

pub open spec fn is_cmd(t: Seq<char>) -> bool {
    t == "cmd"@ || t == "command"@
}

pub open spec fn is_alt(t: Seq<char>) -> bool {
    t == "alt"@ || t == "option"@
}

pub open spec fn is_ctrl(t: Seq<char>) -> bool {
    t == "ctrl"@ || t == "control"@
}

pub open spec fn is_shift(t: Seq<char>) -> bool {
    t == "shift"@
}

pub open spec fn is_modifier(t: Seq<char>) -> bool {
    is_cmd(t) || is_alt(t) || is_ctrl(t) || is_shift(t)
}

/// Some word of `t` satisfies `p`.
pub open spec fn some_word(t: Seq<Seq<char>>, p: spec_fn(Seq<char>) -> bool) -> bool {
    exists|i: int| 0 <= i < t.len() && p(#[trigger] t[i])
}

/// The combination that the words of a key text spell: the last one names the
/// base key, each other one a modifier or a key. A key that is not last is of
/// no account.
pub open spec fn combo_of(t: Seq<Seq<char>>) -> Option<KeyCombo>
    recommends
        t.len() > 0,
{
    let mods = t.drop_last();
    match key_code_of(t.last()) {
        Some(keycode) => if forall|i: int|
            0 <= i < mods.len() ==> is_modifier(#[trigger] mods[i]) || key_code_of(mods[i]) is Some {
            Some(
                KeyCombo {
                    cmd: some_word(mods, |w: Seq<char>| is_cmd(w)),
                    alt: some_word(mods, |w: Seq<char>| is_alt(w)),
                    ctrl: some_word(mods, |w: Seq<char>| is_ctrl(w)),
                    shift: some_word(mods, |w: Seq<char>| is_shift(w)),
                    keycode,
                },
            )
        } else {
            None
        },
        None => None,
    }
}

/// Reads a key text such as `alt-shift-h`. Modifiers may stand in any order;
/// the trailing word has to name a base key.
pub fn parse_key_combo(s: &str) -> (r: Option<KeyCombo>)
    ensures
        r == combo_of(pieces(s@, '-')),
{
    let tokens: Vec<String> = split_at_char(s, '-');
    let n: usize = tokens.len() - 1;
    let ghost t = texts(tokens@);
    let ghost mods = t.drop_last();
    let keycode: u16 = match key_code_for_name(tokens[n].as_str()) {
        Some(code) => code,
        None => {
            return None;
        },
    };
    let mut combo: KeyCombo = KeyCombo { cmd: false, alt: false, ctrl: false, shift: false, keycode };
    let mut i: usize = 0;
    while i < n
        invariant
            i <= n,
            n + 1 == tokens@.len(),
            t == texts(tokens@),
            t == pieces(s@, '-'),
            mods == t.drop_last(),
            key_code_of(t.last()) is Some,
            forall|j: int|
                0 <= j < i ==> is_modifier(#[trigger] mods[j]) || key_code_of(mods[j]) is Some,
            combo.cmd == some_word(mods.take(i as int), |w: Seq<char>| is_cmd(w)),
            combo.alt == some_word(mods.take(i as int), |w: Seq<char>| is_alt(w)),
            combo.ctrl == some_word(mods.take(i as int), |w: Seq<char>| is_ctrl(w)),
            combo.shift == some_word(mods.take(i as int), |w: Seq<char>| is_shift(w)),
            combo.keycode == keycode,
        decreases n - i,
    {
        let w: &str = tokens[i].as_str();
        assert(mods[i as int] == w@);
        proof {
            lemma_some_word_step(mods, i as int, |w: Seq<char>| is_cmd(w));
            lemma_some_word_step(mods, i as int, |w: Seq<char>| is_alt(w));
            lemma_some_word_step(mods, i as int, |w: Seq<char>| is_ctrl(w));
            lemma_some_word_step(mods, i as int, |w: Seq<char>| is_shift(w));
            lemma_modifier_names_differ();
            assert(is_cmd(w@) ==> !is_shift(w@));
            assert(is_alt(w@) ==> !is_shift(w@));
            assert(is_ctrl(w@) ==> !is_shift(w@));
        }
        if same_text(w, "cmd") || same_text(w, "command") {
            combo.cmd = true;
        } else if same_text(w, "alt") || same_text(w, "option") {
            combo.alt = true;
        } else if same_text(w, "ctrl") || same_text(w, "control") {
            combo.ctrl = true;
        } else if same_text(w, "shift") {
            combo.shift = true;
        } else if key_code_for_name(w).is_none() {
            return None;
        }
        i = i + 1;
    }
    assert(mods.take(n as int) =~= mods);
    Some(combo)
}

proof fn lemma_some_word_step(t: Seq<Seq<char>>, i: int, p: spec_fn(Seq<char>) -> bool)
    requires
        0 <= i < t.len(),
    ensures
        some_word(t.take(i + 1), p) == (some_word(t.take(i), p) || p(t[i])),
{
    let a = t.take(i);
    let b = t.take(i + 1);
    if some_word(a, p) {
        let j = choose|j: int| 0 <= j < a.len() && p(#[trigger] a[j]);
        assert(b[j] == a[j]);
    }
    if p(t[i]) {
        assert(b[i] == t[i]);
    }
    if some_word(b, p) {
        let j = choose|j: int| 0 <= j < b.len() && p(#[trigger] b[j]);
        if j < i {
            assert(a[j] == b[j]);
        }
    }
}

/// No word is two modifiers at once.
proof fn lemma_modifier_names_differ()
    ensures
        forall|w: Seq<char>|
            !(#[trigger] is_cmd(w) && is_alt(w)) && !(is_cmd(w) && is_ctrl(w)) && !(is_cmd(w)
                && is_shift(w)),
        forall|w: Seq<char>| !(#[trigger] is_alt(w) && is_ctrl(w)) && !(is_alt(w) && is_shift(w)),
        forall|w: Seq<char>| !(#[trigger] is_ctrl(w) && is_shift(w)),
{
    reveal_strlit("cmd");
    reveal_strlit("command");
    reveal_strlit("alt");
    reveal_strlit("option");
    reveal_strlit("ctrl");
    reveal_strlit("control");
    reveal_strlit("shift");
    assert("cmd"@[1] == 'm' && "command"@[2] == 'm');
    assert("alt"@[0] == 'a' && "option"@[0] == 'o');
    assert("ctrl"@[1] == 't' && "control"@[2] == 'n');
    assert("cmd"@[0] == 'c' && "command"@[0] == 'c' && "ctrl"@[0] == 'c' && "control"@[0] == 'c');
    assert("shift"@[0] == 's');
}

/// Says whether a key press is bound: then it goes to the window manager and
/// not to the application in front, which gets every other one.
pub fn is_bound(active: &Vec<KeyCombo>, combo: KeyCombo) -> (r: bool)
    ensures
        r == active@.contains(combo),
{
    let mut i: usize = 0;
    while i < active.len()
        invariant
            i <= active.len(),
            forall|j: int| 0 <= j < i ==> active@[j] != combo,
        decreases active.len() - i,
    {
        if active[i] == combo {
            return true;
        }
        i = i + 1;
    }
    false
}

/// The order of the modifiers, and how often one is written, does not matter:
/// two key texts with the same words before the same base key spell the same
/// combination.
pub proof fn law_modifier_order_does_not_matter(t: Seq<Seq<char>>, u: Seq<Seq<char>>)
    requires
        t.len() > 0,
        u.len() > 0,
        t.last() == u.last(),
        forall|w: Seq<char>| t.drop_last().contains(w) <==> u.drop_last().contains(w),
    ensures
        combo_of(t) == combo_of(u),
{
    let a = t.drop_last();
    let b = u.drop_last();
    lemma_same_words(a, b, |w: Seq<char>| is_cmd(w));
    lemma_same_words(a, b, |w: Seq<char>| is_alt(w));
    lemma_same_words(a, b, |w: Seq<char>| is_ctrl(w));
    lemma_same_words(a, b, |w: Seq<char>| is_shift(w));
    let bad = |w: Seq<char>| !(is_modifier(w) || key_code_of(w) is Some);
    lemma_same_words(a, b, bad);
    assert(some_word(a, bad) == !(forall|i: int|
        0 <= i < a.len() ==> is_modifier(#[trigger] a[i]) || key_code_of(a[i]) is Some));
    assert(some_word(b, bad) == !(forall|i: int|
        0 <= i < b.len() ==> is_modifier(#[trigger] b[i]) || key_code_of(b[i]) is Some));
}

proof fn lemma_same_words(a: Seq<Seq<char>>, b: Seq<Seq<char>>, p: spec_fn(Seq<char>) -> bool)
    requires
        forall|w: Seq<char>| a.contains(w) <==> b.contains(w),
    ensures
        some_word(a, p) == some_word(b, p),
{
    if some_word(a, p) {
        let i = choose|i: int| 0 <= i < a.len() && p(#[trigger] a[i]);
        assert(a.contains(a[i]));
        let j = b.index_of(a[i]);
        assert(p(b[j]));
    }
    if some_word(b, p) {
        let i = choose|i: int| 0 <= i < b.len() && p(#[trigger] b[i]);
        assert(b.contains(b[i]));
        let j = a.index_of(b[i]);
        assert(p(a[j]));
    }
}

/// The name of a base key, by its virtual key code. The key for a new line has
/// two names, of which this is one.
pub open spec fn key_name(code: u16) -> Option<Seq<char>> {
    match code {
        0x00 => Some("a"@),
        0x01 => Some("s"@),
        0x02 => Some("d"@),
        0x03 => Some("f"@),
        0x04 => Some("h"@),
        0x05 => Some("g"@),
        0x06 => Some("z"@),
        0x07 => Some("x"@),
        0x08 => Some("c"@),
        0x09 => Some("v"@),
        0x0B => Some("b"@),
        0x0C => Some("q"@),
        0x0D => Some("w"@),
        0x0E => Some("e"@),
        0x0F => Some("r"@),
        0x10 => Some("y"@),
        0x11 => Some("t"@),
        0x12 => Some("1"@),
        0x13 => Some("2"@),
        0x14 => Some("3"@),
        0x15 => Some("4"@),
        0x16 => Some("6"@),
        0x17 => Some("5"@),
        0x18 => Some("equal"@),
        0x19 => Some("9"@),
        0x1A => Some("7"@),
        0x1B => Some("minus"@),
        0x1C => Some("8"@),
        0x1D => Some("0"@),
        0x1E => Some("rightbracket"@),
        0x1F => Some("o"@),
        0x20 => Some("u"@),
        0x21 => Some("leftbracket"@),
        0x22 => Some("i"@),
        0x23 => Some("p"@),
        0x24 => Some("enter"@),
        0x25 => Some("l"@),
        0x26 => Some("j"@),
        0x27 => Some("quote"@),
        0x28 => Some("k"@),
        0x29 => Some("semicolon"@),
        0x2A => Some("backslash"@),
        0x2B => Some("comma"@),
        0x2C => Some("slash"@),
        0x2D => Some("n"@),
        0x2E => Some("m"@),
        0x2F => Some("period"@),
        0x30 => Some("tab"@),
        0x31 => Some("space"@),
        0x32 => Some("grave"@),
        0x33 => Some("delete"@),
        0x35 => Some("escape"@),
        0x7B => Some("left"@),
        0x7C => Some("right"@),
        0x7D => Some("down"@),
        0x7E => Some("up"@),
        _ => None,
    }
}

/// A base key is read by its name, and no other word is read as it, but for the
/// second name of the key for a new line.
#[verifier::rlimit(60)]
#[verifier::spinoff_prover]
pub proof fn law_keys_are_read_by_name(code: u16, word: Seq<char>)
    ensures
        key_name(code) is Some ==> key_code_of(key_name(code)->0) == Some(code),
        key_code_of(word) == Some(code) ==> key_name(code) == Some(word) || (word == "return"@
            && key_name(code) == Some("enter"@)),
        key_code_of("return"@) == key_code_of("enter"@),
{
    reveal_strlit("a");
    reveal_strlit("b");
    reveal_strlit("c");
    reveal_strlit("d");
    reveal_strlit("e");
    reveal_strlit("f");
    reveal_strlit("g");
    reveal_strlit("h");
    reveal_strlit("i");
    reveal_strlit("j");
    reveal_strlit("k");
    reveal_strlit("l");
    reveal_strlit("m");
    reveal_strlit("n");
    reveal_strlit("o");
    reveal_strlit("p");
    reveal_strlit("q");
    reveal_strlit("r");
    reveal_strlit("s");
    reveal_strlit("t");
    reveal_strlit("u");
    reveal_strlit("v");
    reveal_strlit("w");
    reveal_strlit("x");
    reveal_strlit("y");
    reveal_strlit("z");
    reveal_strlit("0");
    reveal_strlit("1");
    reveal_strlit("2");
    reveal_strlit("3");
    reveal_strlit("4");
    reveal_strlit("5");
    reveal_strlit("6");
    reveal_strlit("7");
    reveal_strlit("8");
    reveal_strlit("9");
    reveal_strlit("slash");
    reveal_strlit("semicolon");
    reveal_strlit("minus");
    reveal_strlit("equal");
    reveal_strlit("comma");
    reveal_strlit("period");
    reveal_strlit("quote");
    reveal_strlit("grave");
    reveal_strlit("leftbracket");
    reveal_strlit("rightbracket");
    reveal_strlit("backslash");
    reveal_strlit("escape");
    reveal_strlit("enter");
    reveal_strlit("return");
    reveal_strlit("space");
    reveal_strlit("tab");
    reveal_strlit("delete");
    reveal_strlit("left");
    reveal_strlit("right");
    reveal_strlit("up");
    reveal_strlit("down");
    assert("a"@.len() == 1 && "a"@[0] == 'a');
    assert("b"@.len() == 1 && "b"@[0] == 'b');
    assert("c"@.len() == 1 && "c"@[0] == 'c');
    assert("d"@.len() == 1 && "d"@[0] == 'd');
    assert("e"@.len() == 1 && "e"@[0] == 'e');
    assert("f"@.len() == 1 && "f"@[0] == 'f');
    assert("g"@.len() == 1 && "g"@[0] == 'g');
    assert("h"@.len() == 1 && "h"@[0] == 'h');
    assert("i"@.len() == 1 && "i"@[0] == 'i');
    assert("j"@.len() == 1 && "j"@[0] == 'j');
    assert("k"@.len() == 1 && "k"@[0] == 'k');
    assert("l"@.len() == 1 && "l"@[0] == 'l');
    assert("m"@.len() == 1 && "m"@[0] == 'm');
    assert("n"@.len() == 1 && "n"@[0] == 'n');
    assert("o"@.len() == 1 && "o"@[0] == 'o');
    assert("p"@.len() == 1 && "p"@[0] == 'p');
    assert("q"@.len() == 1 && "q"@[0] == 'q');
    assert("r"@.len() == 1 && "r"@[0] == 'r');
    assert("s"@.len() == 1 && "s"@[0] == 's');
    assert("t"@.len() == 1 && "t"@[0] == 't');
    assert("u"@.len() == 1 && "u"@[0] == 'u');
    assert("v"@.len() == 1 && "v"@[0] == 'v');
    assert("w"@.len() == 1 && "w"@[0] == 'w');
    assert("x"@.len() == 1 && "x"@[0] == 'x');
    assert("y"@.len() == 1 && "y"@[0] == 'y');
    assert("z"@.len() == 1 && "z"@[0] == 'z');
    assert("0"@.len() == 1 && "0"@[0] == '0');
    assert("1"@.len() == 1 && "1"@[0] == '1');
    assert("2"@.len() == 1 && "2"@[0] == '2');
    assert("3"@.len() == 1 && "3"@[0] == '3');
    assert("4"@.len() == 1 && "4"@[0] == '4');
    assert("5"@.len() == 1 && "5"@[0] == '5');
    assert("6"@.len() == 1 && "6"@[0] == '6');
    assert("7"@.len() == 1 && "7"@[0] == '7');
    assert("8"@.len() == 1 && "8"@[0] == '8');
    assert("9"@.len() == 1 && "9"@[0] == '9');
    assert("slash"@.len() == 5 && "slash"@[0] == 's');
    assert("semicolon"@.len() == 9 && "semicolon"@[0] == 's');
    assert("minus"@.len() == 5 && "minus"@[0] == 'm');
    assert("equal"@.len() == 5 && "equal"@[0] == 'e');
    assert("comma"@.len() == 5 && "comma"@[0] == 'c');
    assert("period"@.len() == 6 && "period"@[0] == 'p');
    assert("quote"@.len() == 5 && "quote"@[0] == 'q');
    assert("grave"@.len() == 5 && "grave"@[0] == 'g');
    assert("leftbracket"@.len() == 11 && "leftbracket"@[0] == 'l');
    assert("rightbracket"@.len() == 12 && "rightbracket"@[0] == 'r');
    assert("backslash"@.len() == 9 && "backslash"@[0] == 'b');
    assert("escape"@.len() == 6 && "escape"@[0] == 'e');
    assert("enter"@.len() == 5 && "enter"@[0] == 'e');
    assert("return"@.len() == 6 && "return"@[0] == 'r');
    assert("space"@.len() == 5 && "space"@[0] == 's');
    assert("tab"@.len() == 3 && "tab"@[0] == 't');
    assert("delete"@.len() == 6 && "delete"@[0] == 'd');
    assert("left"@.len() == 4 && "left"@[0] == 'l');
    assert("right"@.len() == 5 && "right"@[0] == 'r');
    assert("up"@.len() == 2 && "up"@[0] == 'u');
    assert("down"@.len() == 4 && "down"@[0] == 'd');
    assert("slash"@[1] == 'l');
    assert("space"@[1] == 'p');
    assert("equal"@[1] == 'q');
    assert("enter"@[1] == 'n');
}

/// A word for each modifier, in either spelling, and no other one.
pub open spec fn modifier_words() -> Seq<Seq<char>> {
    seq!["cmd"@, "command"@, "alt"@, "option"@, "ctrl"@, "control"@, "shift"@]
}

/// The words of a key text are modifiers, or keys that are of no account, and
/// the base key at its end: then a modifier is held exactly if one of its words
/// is there. Any other word makes the text no combination.
pub proof fn law_combinations_are_what_is_written(mods: Seq<Seq<char>>, key: Seq<char>)
    ensures
        ({
            let combo = combo_of(mods.push(key));
            &&& combo is Some <==> key_code_of(key) is Some && forall|i: int|
                0 <= i < mods.len() ==> modifier_words().contains(#[trigger] mods[i])
                    || key_code_of(mods[i]) is Some
            &&& combo is Some ==> {
                let c = combo->0;
                &&& Some(c.keycode) == key_code_of(key)
                &&& c.cmd <==> mods.contains("cmd"@) || mods.contains("command"@)
                &&& c.alt <==> mods.contains("alt"@) || mods.contains("option"@)
                &&& c.ctrl <==> mods.contains("ctrl"@) || mods.contains("control"@)
                &&& c.shift <==> mods.contains("shift"@)
            }
        }),
{
    let t = mods.push(key);
    assert(t.drop_last() =~= mods);
    let all = modifier_words();
    assert forall|w: Seq<char>| #[trigger] is_modifier(w) <==> all.contains(w) by {
        assert(all[0] == "cmd"@ && all[1] == "command"@ && all[2] == "alt"@);
        assert(all[3] == "option"@ && all[4] == "ctrl"@ && all[5] == "control"@);
        assert(all[6] == "shift"@);
    }
    assert forall|i: int| 0 <= i < mods.len() implies mods.contains(#[trigger] mods[i]) by {}
    let cmd = |w: Seq<char>| is_cmd(w);
    let alt = |w: Seq<char>| is_alt(w);
    let ctrl = |w: Seq<char>| is_ctrl(w);
    let shift = |w: Seq<char>| is_shift(w);
    lemma_word_there(mods, "cmd"@, cmd);
    lemma_word_there(mods, "command"@, cmd);
    lemma_word_there(mods, "alt"@, alt);
    lemma_word_there(mods, "option"@, alt);
    lemma_word_there(mods, "ctrl"@, ctrl);
    lemma_word_there(mods, "control"@, ctrl);
    lemma_word_there(mods, "shift"@, shift);
}

proof fn lemma_word_there(mods: Seq<Seq<char>>, w: Seq<char>, p: spec_fn(Seq<char>) -> bool)
    requires
        p(w),
    ensures
        mods.contains(w) ==> some_word(mods, p),
{
    if mods.contains(w) {
        let i = mods.index_of(w);
        assert(p(mods[i]));
    }
}

}
