//! Text as sequences of characters: words, decimal numbers, ordering, search.

use vstd::prelude::*;

verus! {

/// The views of a sequence of owned strings.
pub open spec fn texts(v: Seq<String>) -> Seq<Seq<char>> {
    v.map_values(|s: String| s@)
}

/// The view of an optional string.
pub open spec fn opt_text(s: Option<String>) -> Option<Seq<char>> {
    match s {
        Some(t) => Some(t@),
        None => None,
    }
}

/// The view of an optional borrowed string.
pub open spec fn opt_str(s: Option<&str>) -> Option<Seq<char>> {
    match s {
        Some(t) => Some(t@),
        None => None,
    }
}

/// The characters of `s`, in order.
pub fn chars_of(s: &str) -> (r: Vec<char>)
    ensures
        r@ == s@,
{
    let mut out: Vec<char> = Vec::new();
    for c in it: s.chars()
        invariant
            it.seq() == s@,
            out@ == s@.take(it.index() as int),
    {
        out.push(c);
    }
    out
}

/// Whether two texts are the same.
pub fn same_text(a: &str, b: &str) -> (r: bool)
    ensures
        r == (a@ == b@),
{
    let x: String = a.to_owned();
    let y: String = b.to_owned();
    x == y
}

/// Whether `c` has the Unicode `White_Space` property.
pub open spec fn space_char(c: char) -> bool {
    ||| '\u{9}' <= c <= '\u{d}'
    ||| c == ' '
    ||| c == '\u{85}'
    ||| c == '\u{a0}'
    ||| c == '\u{1680}'
    ||| '\u{2000}' <= c <= '\u{200a}'
    ||| c == '\u{2028}'
    ||| c == '\u{2029}'
    ||| c == '\u{202f}'
    ||| c == '\u{205f}'
    ||| c == '\u{3000}'
}

/// Whether `c` is white space.
pub fn is_space(c: char) -> (r: bool)
    ensures
        r == space_char(c),
{
    ('\u{9}' <= c && c <= '\u{d}') || c == ' ' || c == '\u{85}' || c == '\u{a0}' || c == '\u{1680}'
        || ('\u{2000}' <= c && c <= '\u{200a}') || c == '\u{2028}' || c == '\u{2029}' || c
        == '\u{202f}' || c == '\u{205f}' || c == '\u{3000}'
}

/// How many characters `s` starts with that are not white space.
pub open spec fn word_len(s: Seq<char>) -> nat
    decreases s.len(),
{
    if s.len() == 0 || space_char(s[0]) {
        0
    } else {
        1 + word_len(s.skip(1))
    }
}

/// The maximal runs of `s` without white space, in order.
pub open spec fn words(s: Seq<char>) -> Seq<Seq<char>>
    decreases s.len(),
{
    if s.len() == 0 {
        Seq::empty()
    } else if space_char(s[0]) {
        words(s.skip(1))
    } else if word_len(s) <= s.len() {
        seq![s.take(word_len(s) as int)] + words(s.skip(word_len(s) as int))
    } else {
        Seq::empty()
    }
}

/// A word ends where the text ends or white space begins, and not before.
pub proof fn lemma_word_len(s: Seq<char>)
    ensures
        word_len(s) <= s.len(),
        forall|i: int| 0 <= i < word_len(s) ==> !space_char(#[trigger] s[i]),
        word_len(s) < s.len() ==> space_char(s[word_len(s) as int]),
    decreases s.len(),
{
    if s.len() != 0 && !space_char(s[0]) {
        let t = s.skip(1);
        lemma_word_len(t);
        assert forall|i: int| 0 <= i < word_len(s) implies !space_char(#[trigger] s[i]) by {
            if i > 0 {
                assert(s[i] == t[i - 1]);
            }
        }
        if word_len(s) < s.len() {
            assert(s[word_len(s) as int] == t[word_len(t) as int]);
        }
    }
}

proof fn lemma_word_len_is(s: Seq<char>, n: nat)
    requires
        n <= s.len(),
        forall|i: int| 0 <= i < n ==> !space_char(#[trigger] s[i]),
        n < s.len() ==> space_char(s[n as int]),
    ensures
        word_len(s) == n,
    decreases s.len(),
{
    if n > 0 {
        let t = s.skip(1);
        assert forall|i: int| 0 <= i < n - 1 implies !space_char(#[trigger] t[i]) by {
            assert(t[i] == s[i + 1]);
        }
        if n < s.len() {
            assert(t[n - 1] == s[n as int]);
        }
        lemma_word_len_is(t, (n - 1) as nat);
        assert(!space_char(s[0]));
    }
}

/// Splits `s` at white space.
pub fn split_words(s: &str) -> (r: Vec<String>)
    ensures
        texts(r@) == words(s@),
{
    let cs: Vec<char> = chars_of(s);
    let mut out: Vec<String> = Vec::new();
    let mut i: usize = 0;
    assert(cs@.skip(0) =~= cs@);
    while i < cs.len()
        invariant
            cs@ == s@,
            i <= cs.len(),
            texts(out@) + words(s@.skip(i as int)) == words(s@),
        decreases cs.len() - i,
    {
        let ghost rest = s@.skip(i as int);
        if is_space(cs[i]) {
            assert(rest.skip(1) =~= s@.skip(i + 1));
            i = i + 1;
        } else {
            let start: usize = i;
            while i < cs.len() && !is_space(cs[i])
                invariant
                    cs@ == s@,
                    start <= i <= cs.len(),
                    rest == s@.skip(start as int),
                    forall|j: int| start <= j < i ==> !space_char(#[trigger] cs@[j]),
                decreases cs.len() - i,
            {
                i = i + 1;
            }
            proof {
                let n = (i - start) as nat;
                assert forall|j: int| 0 <= j < n implies !space_char(#[trigger] rest[j]) by {
                    assert(rest[j] == cs@[start + j]);
                }
                lemma_word_len_is(rest, n);
                assert(rest.take(n as int) =~= s@.subrange(start as int, i as int));
                assert(rest.skip(n as int) =~= s@.skip(i as int));
            }
            let ghost before = texts(out@);
            let w: String = s.substring_char(start, i).to_owned();
            out.push(w);
            proof {
                assert(texts(out@) =~= before.push(w@));
                assert(before + (seq![w@] + words(s@.skip(i as int))) =~= before.push(w@) + words(
                    s@.skip(i as int),
                ));
            }
        }
    }
    proof {
        assert(s@.skip(i as int).len() == 0);
        assert(texts(out@) + Seq::<Seq<char>>::empty() =~= texts(out@));
    }
    out
}

/// The character of the decimal digit `d`.
pub open spec fn digit_char(d: nat) -> char {
    if d == 0 { '0' } else if d == 1 { '1' } else if d == 2 { '2' } else if d == 3 { '3' }
    else if d == 4 { '4' } else if d == 5 { '5' } else if d == 6 { '6' } else if d == 7 { '7' }
    else if d == 8 { '8' } else { '9' }
}

/// `n` written in decimal, without leading zeros.
pub open spec fn decimal_text(n: nat) -> Seq<char>
    decreases n,
{
    if n < 10 {
        seq![digit_char(n)]
    } else {
        decimal_text(n / 10).push(digit_char(n % 10))
    }
}

fn digit_str(d: u64) -> (r: &'static str)
    requires
        d < 10,
    ensures
        r@ == seq![digit_char(d as nat)],
{
    proof {
        reveal_strlit("0"); reveal_strlit("1"); reveal_strlit("2"); reveal_strlit("3");
        reveal_strlit("4"); reveal_strlit("5"); reveal_strlit("6"); reveal_strlit("7");
        reveal_strlit("8"); reveal_strlit("9");
    }
    let r: &'static str = match d {
        0 => "0", 1 => "1", 2 => "2", 3 => "3", 4 => "4",
        5 => "5", 6 => "6", 7 => "7", 8 => "8", _ => "9",
    };
    assert(r@ =~= seq![digit_char(d as nat)]);
    r
}

/// Writes `n` in decimal.
pub fn decimal(n: u64) -> (r: String)
    ensures
        r@ == decimal_text(n as nat),
    decreases n,
{
    if n < 10 {
        digit_str(n).to_owned()
    } else {
        let mut r: String = decimal(n / 10);
        r.append(digit_str(n % 10));
        assert(r@ =~= decimal_text((n / 10) as nat).push(digit_char((n % 10) as nat)));
        r
    }
}

/// The value of the decimal digit `c`, where it is one.
pub open spec fn digit_value(c: char) -> Option<nat> {
    if '0' <= c <= '9' {
        Some((c as nat - '0' as nat) as nat)
    } else {
        None
    }
}

/// The number that a sequence of decimal digits spells, `None` where a
/// character is no digit. The empty sequence spells zero.
pub open spec fn digits_value(s: Seq<char>) -> Option<nat>
    decreases s.len(),
{
    if s.len() == 0 {
        Some(0)
    } else {
        match (digits_value(s.drop_last()), digit_value(s.last())) {
            (Some(v), Some(d)) => Some(10 * v + d),
            _ => None,
        }
    }
}

/// The unsigned number that `s` spells: an optional `+`, then at least one
/// decimal digit, and a value of at most `max`.
pub open spec fn unsigned_value(s: Seq<char>, max: nat) -> Option<nat> {
    let d = if s.len() > 1 && s[0] == '+' { s.skip(1) } else { s };
    if d.len() == 0 {
        None
    } else {
        match digits_value(d) {
            Some(v) if v <= max => Some(v),
            _ => None,
        }
    }
}

/// Digits before a non-digit, or before an overflow, cannot be made up for by
/// what follows.
proof fn lemma_digits_prefix(s: Seq<char>, n: int, max: nat)
    requires
        0 <= n <= s.len(),
    ensures
        digits_value(s.take(n)) is None ==> digits_value(s) is None,
        (digits_value(s.take(n)) is Some && digits_value(s.take(n))->0 > max && digits_value(s) is Some)
            ==> digits_value(s)->0 > max,
    decreases s.len() - n,
{
    if n == s.len() {
        assert(s.take(n) =~= s);
    } else {
        lemma_digits_prefix(s, n + 1, max);
        assert(s.take(n + 1).drop_last() =~= s.take(n));
    }
}

/// Reads an unsigned decimal number of at most `max`.
pub fn parse_unsigned(s: &str, max: u64) -> (r: Option<u64>)
    ensures
        match r {
            Some(v) => unsigned_value(s@, max as nat) == Some(v as nat),
            None => unsigned_value(s@, max as nat) is None,
        },
{
    let cs: Vec<char> = chars_of(s);
    let start: usize = if cs.len() > 1 && cs[0] == '+' { 1 } else { 0 };
    if start >= cs.len() {
        return None;
    }
    let ghost d = s@.skip(start as int);
    proof {
        assert(start == 0 ==> d =~= s@);
    }
    let mut v: u64 = 0;
    let mut i: usize = start;
    assert(d.take(0) =~= Seq::<char>::empty());
    while i < cs.len()
        invariant
            cs@ == s@,
            start <= i <= cs.len(),
            start < cs.len(),
            d == s@.skip(start as int),
            start == (if s@.len() > 1 && s@[0] == '+' { 1int } else { 0int }),
            start == 0 ==> d == s@,
            digits_value(d.take(i - start)) == Some(v as nat),
            v <= max,
        decreases cs.len() - i,
    {
        let c: char = cs[i];
        proof {
            assert(d.take(i + 1 - start).drop_last() =~= d.take(i - start));
            assert(d.take(i + 1 - start).last() == c);
            lemma_digits_prefix(d, i + 1 - start, max as nat);
        }
        if c < '0' || '9' < c {
            return None;
        }
        let x: u64 = (c as u64) - ('0' as u64);
        if x > max || v > (max - x) / 10 {
            return None;
        }
        v = 10 * v + x;
        i = i + 1;
    }
    assert(d.take(i - start) =~= d);
    Some(v)
}

/// A result with its error message taken by its view.
pub open spec fn outcome<T>(r: Result<T, String>) -> Result<T, Seq<char>> {
    match r {
        Ok(v) => Ok(v),
        Err(e) => Err(e@),
    }
}

/// Three texts, one after the other.
pub fn join3(a: &str, b: &str, c: &str) -> (r: String)
    ensures
        r@ == a@ + b@ + c@,
{
    let mut out: String = a.to_owned();
    out.append(b);
    out.append(c);
    out
}

/// Two texts, one after the other.
pub fn join2(a: &str, b: &str) -> (r: String)
    ensures
        r@ == a@ + b@,
{
    let mut out: String = a.to_owned();
    out.append(b);
    out
}

/// `a` comes before `b` in the order of their code points.
pub open spec fn text_less(a: Seq<char>, b: Seq<char>) -> bool
    decreases a.len(),
{
    if b.len() == 0 {
        false
    } else if a.len() == 0 {
        true
    } else if a[0] != b[0] {
        a[0] < b[0]
    } else {
        text_less(a.skip(1), b.skip(1))
    }
}

/// Compares two texts by their code points.
pub fn is_less(a: &str, b: &str) -> (r: bool)
    ensures
        r == text_less(a@, b@),
{
    let x: Vec<char> = chars_of(a);
    let y: Vec<char> = chars_of(b);
    let mut i: usize = 0;
    assert(x@.skip(0) =~= x@);
    assert(y@.skip(0) =~= y@);
    while i < x.len() && i < y.len()
        invariant
            x@ == a@,
            y@ == b@,
            i <= x.len(),
            i <= y.len(),
            text_less(a@, b@) == text_less(x@.skip(i as int), y@.skip(i as int)),
        decreases x.len() - i,
    {
        if x[i] != y[i] {
            return x[i] < y[i];
        }
        assert(x@.skip(i as int).skip(1) =~= x@.skip(i + 1));
        assert(y@.skip(i as int).skip(1) =~= y@.skip(i + 1));
        i = i + 1;
    }
    i < y.len()
}

/// The order of texts is a strict total order.
pub proof fn law_text_order(a: Seq<char>, b: Seq<char>, c: Seq<char>)
    ensures
        !text_less(a, a),
        text_less(a, b) && text_less(b, c) ==> text_less(a, c),
        a == b || text_less(a, b) || text_less(b, a),
    decreases a.len() + b.len() + c.len(),
{
    if a.len() > 0 && b.len() > 0 && c.len() > 0 {
        law_text_order(a.skip(1), b.skip(1), c.skip(1));
    } else if a.len() > 0 && b.len() > 0 {
        law_text_order(a.skip(1), b.skip(1), c);
    } else if a.len() > 0 {
        law_text_order(a.skip(1), b, c);
    }
    if a.len() > 0 && b.len() > 0 && a[0] == b[0] && a.skip(1) == b.skip(1) {
        assert(a =~= seq![a[0]] + a.skip(1));
        assert(b =~= seq![b[0]] + b.skip(1));
    }
    if a.len() == 0 && b.len() == 0 {
        assert(a =~= b);
    }
}

/// `part` stands in `s` from place `i` on.
pub open spec fn stands_at(s: Seq<char>, part: Seq<char>, i: int) -> bool {
    0 <= i && i + part.len() <= s.len() && s.subrange(i, i + part.len()) == part
}

/// `part` stands somewhere in `s`.
pub open spec fn contains_text(s: Seq<char>, part: Seq<char>) -> bool {
    exists|i: int| #[trigger] stands_at(s, part, i)
}

/// Looks for `part` in `s`.
pub fn contains(s: &str, part: &str) -> (r: bool)
    ensures
        r == contains_text(s@, part@),
{
    let x: Vec<char> = chars_of(s);
    let y: Vec<char> = chars_of(part);
    let mut i: usize = 0;
    while i <= x.len() && y.len() <= x.len() - i
        invariant
            x@ == s@,
            y@ == part@,
            i <= x.len() + 1,
            forall|j: int| 0 <= j < i ==> !#[trigger] stands_at(s@, part@, j),
        decreases x.len() + 1 - i,
    {
        let mut k: usize = 0;
        while k < y.len() && x[i + k] == y[k]
            invariant
                i + y.len() <= x.len(),
                k <= y.len(),
                forall|j: int| 0 <= j < k ==> x@[i + j] == #[trigger] y@[j],
            decreases y.len() - k,
        {
            k = k + 1;
        }
        if k == y.len() {
            assert(x@.subrange(i as int, i + y.len()) =~= y@);
            assert(stands_at(s@, part@, i as int));
            return true;
        }
        assert(!stands_at(s@, part@, i as int)) by {
            if stands_at(s@, part@, i as int) {
                assert(s@.subrange(i as int, i + part@.len())[k as int] == x@[i + k]);
            }
        }
        i = i + 1;
    }
    assert(!contains_text(s@, part@));
    false
}

/// `s` without `prefix`, where it starts with it.
pub open spec fn without_prefix(s: Seq<char>, prefix: Seq<char>) -> Option<Seq<char>> {
    if stands_at(s, prefix, 0) {
        Some(s.skip(prefix.len() as int))
    } else {
        None
    }
}

/// Takes `prefix` off the start of `s`.
pub fn strip_prefix(s: &str, prefix: &str) -> (r: Option<String>)
    ensures
        opt_text(r) == without_prefix(s@, prefix@),
{
    let n: usize = prefix.unicode_len();
    let len: usize = s.unicode_len();
    if n > len {
        return None;
    }
    if same_text(s.substring_char(0, n), prefix) {
        assert(s@.skip(n as int) =~= s@.subrange(n as int, len as int));
        Some(s.substring_char(n, len).to_owned())
    } else {
        None
    }
}

/// The decimal text of a number is made of digits, at least one, and spells
/// that number.
pub proof fn law_decimal_spells_its_number(n: nat)
    ensures
        digits_value(decimal_text(n)) == Some(n),
        decimal_text(n).len() > 0,
        '0' <= decimal_text(n)[0] <= '9',
    decreases n,
{
    if n < 10 {
        assert(seq![digit_char(n)].drop_last() =~= Seq::<char>::empty());
        assert(digits_value(Seq::<char>::empty()) == Some(0nat));
        assert(digit_value(digit_char(n)) == Some(n));
    } else {
        law_decimal_spells_its_number(n / 10);
        let head = decimal_text(n / 10);
        assert(head.push(digit_char(n % 10)).drop_last() =~= head);
        assert(digit_value(digit_char(n % 10)) == Some(n % 10));
        assert(decimal_text(n)[0] == head[0]);
    }
}

/// Reading back what was written in decimal gives the number, where it fits.
pub proof fn law_decimal_round_trip(n: nat, max: nat)
    requires
        n <= max,
    ensures
        unsigned_value(decimal_text(n), max) == Some(n),
{
    law_decimal_spells_its_number(n);
}

/// Different numbers have different decimal texts.
pub proof fn law_decimal_is_injective(a: nat, b: nat)
    requires
        decimal_text(a) == decimal_text(b),
    ensures
        a == b,
{
    law_decimal_spells_its_number(a);
    law_decimal_spells_its_number(b);
}

/// How many characters `s` starts with that are not `c`.
pub open spec fn run_without(s: Seq<char>, c: char) -> nat
    decreases s.len(),
{
    if s.len() == 0 || s[0] == c {
        0
    } else {
        1 + run_without(s.skip(1), c)
    }
}

/// The parts of `s` between the places where `c` stands.
pub open spec fn pieces(s: Seq<char>, c: char) -> Seq<Seq<char>>
    decreases s.len(),
{
    if run_without(s, c) >= s.len() {
        seq![s]
    } else {
        seq![s.take(run_without(s, c) as int)] + pieces(s.skip(run_without(s, c) as int + 1), c)
    }
}

proof fn lemma_run_without(s: Seq<char>, c: char, n: nat)
    requires
        n <= s.len(),
        forall|i: int| 0 <= i < n ==> #[trigger] s[i] != c,
        n < s.len() ==> s[n as int] == c,
    ensures
        run_without(s, c) == n,
    decreases s.len(),
{
    if n > 0 {
        let t = s.skip(1);
        assert forall|i: int| 0 <= i < n - 1 implies #[trigger] t[i] != c by {
            assert(t[i] == s[i + 1]);
        }
        if n < s.len() {
            assert(t[n - 1] == s[n as int]);
        }
        lemma_run_without(t, c, (n - 1) as nat);
        assert(s[0] != c);
    }
}

/// Splits `s` at every `c`.
pub fn split_at_char(s: &str, c: char) -> (r: Vec<String>)
    ensures
        texts(r@) == pieces(s@, c),
        r@.len() > 0,
{
    let cs: Vec<char> = chars_of(s);
    let mut out: Vec<String> = Vec::new();
    let mut start: usize = 0;
    let mut i: usize = 0;
    assert(s@.skip(0) =~= s@);
    assert(texts(out@) + pieces(s@, c) =~= pieces(s@, c));
    while i < cs.len()
        invariant
            cs@ == s@,
            start <= i <= cs.len(),
            forall|j: int| start <= j < i ==> #[trigger] cs@[j] != c,
            texts(out@) + pieces(s@.skip(start as int), c) == pieces(s@, c),
        decreases cs.len() - i,
    {
        if cs[i] == c {
            let ghost rest = s@.skip(start as int);
            let ghost before = texts(out@);
            let w: String = s.substring_char(start, i).to_owned();
            proof {
                let n = (i - start) as nat;
                assert forall|j: int| 0 <= j < n implies #[trigger] rest[j] != c by {
                    assert(rest[j] == cs@[start + j]);
                }
                assert(rest[n as int] == cs@[i as int]);
                lemma_run_without(rest, c, n);
                assert(rest.take(n as int) =~= w@);
                assert(rest.skip(n as int + 1) =~= s@.skip(i + 1));
            }
            out.push(w);
            proof {
                assert(texts(out@) =~= before.push(w@));
                assert(before + (seq![w@] + pieces(s@.skip(i + 1), c)) =~= before.push(w@) + pieces(
                    s@.skip(i + 1),
                    c,
                ));
            }
            start = i + 1;
        }
        i = i + 1;
    }
    let ghost rest = s@.skip(start as int);
    let ghost before = texts(out@);
    let w: String = s.substring_char(start, i).to_owned();
    proof {
        assert forall|j: int| 0 <= j < rest.len() implies #[trigger] rest[j] != c by {
            assert(rest[j] == cs@[start + j]);
        }
        lemma_run_without(rest, c, rest.len());
        assert(w@ =~= rest);
    }
    out.push(w);
    assert(texts(out@) =~= before + seq![w@]);
    out
}

/// Words one after another, with white space between them, before the first
/// and after the last.
pub open spec fn spaced(spaces: Seq<Seq<char>>, parts: Seq<Seq<char>>) -> Seq<char>
    decreases parts.len(),
{
    if parts.len() == 0 || spaces.len() <= parts.len() {
        if spaces.len() == 0 {
            Seq::empty()
        } else {
            spaces[0]
        }
    } else {
        spaces[0] + parts[0] + spaced(spaces.skip(1), parts.skip(1))
    }
}

/// A text without white space that is not empty.
pub open spec fn is_word(s: Seq<char>) -> bool {
    s.len() > 0 && forall|i: int| 0 <= i < s.len() ==> !space_char(#[trigger] s[i])
}

/// A text of white space.
pub open spec fn is_blank(s: Seq<char>) -> bool {
    forall|i: int| 0 <= i < s.len() ==> space_char(#[trigger] s[i])
}

proof fn lemma_words_after_blank(blank: Seq<char>, rest: Seq<char>)
    requires
        is_blank(blank),
    ensures
        words(blank + rest) == words(rest),
    decreases blank.len(),
{
    if blank.len() == 0 {
        assert(blank + rest =~= rest);
    } else {
        let s = blank + rest;
        assert(s[0] == blank[0]);
        assert(s.skip(1) =~= blank.skip(1) + rest);
        lemma_words_after_blank(blank.skip(1), rest);
    }
}

/// However words are spaced, and with whatever white space, they are told apart
/// and come out unchanged and in order.
pub proof fn law_words_are_told_apart(spaces: Seq<Seq<char>>, parts: Seq<Seq<char>>)
    requires
        spaces.len() == parts.len() + 1,
        forall|i: int| 0 <= i < parts.len() ==> is_word(#[trigger] parts[i]),
        forall|i: int| 0 <= i < spaces.len() ==> is_blank(#[trigger] spaces[i]),
        forall|i: int| 0 < i < parts.len() ==> (#[trigger] spaces[i]).len() > 0,
    ensures
        words(spaced(spaces, parts)) == parts,
    decreases parts.len(),
{
    if parts.len() == 0 {
        lemma_words_after_blank(spaces[0], Seq::empty());
        assert(spaces[0] + Seq::<char>::empty() =~= spaces[0]);
        assert(words(Seq::empty()) =~= parts);
    } else {
        let sp = spaces.skip(1);
        let rest = parts.skip(1);
        assert forall|i: int| 0 <= i < rest.len() implies is_word(#[trigger] rest[i]) by {
            assert(rest[i] == parts[i + 1]);
        }
        assert forall|i: int| 0 <= i < sp.len() implies is_blank(#[trigger] sp[i]) by {
            assert(sp[i] == spaces[i + 1]);
        }
        assert forall|i: int| 0 < i < rest.len() implies (#[trigger] sp[i]).len() > 0 by {
            assert(sp[i] == spaces[i + 1]);
        }
        law_words_are_told_apart(sp, rest);
        let tail = spaced(sp, rest);
        let s = parts[0] + tail;
        assert(spaces[0] + parts[0] + tail =~= spaces[0] + s);
        lemma_words_after_blank(spaces[0], s);
        let n = parts[0].len();
        assert(sp[0] == spaces[1]);
        if rest.len() > 0 {
            assert(spaces[1].len() > 0);
        }
        assert(tail.len() > 0 ==> space_char(tail[0])) by {
            if tail.len() > 0 && sp[0].len() > 0 {
                assert(tail[0] == sp[0][0]);
            }
        }
        assert forall|i: int| 0 <= i < n implies !space_char(#[trigger] s[i]) by {
            assert(s[i] == parts[0][i]);
        }
        if n < s.len() {
            assert(s[n as int] == tail[0]);
        }
        lemma_word_len_is(s, n);
        assert(!space_char(parts[0][0]));
        assert(s[0] == parts[0][0]);
        assert(s.take(n as int) =~= parts[0]);
        assert(s.skip(n as int) =~= tail);
        assert(seq![parts[0]] + rest =~= parts);
    }
}

/// Texts are ordered by the first character in which they differ, and one that
/// begins another comes before it.
pub proof fn law_first_difference_orders(
    start: Seq<char>,
    a: char,
    b: char,
    more: Seq<char>,
    rest: Seq<char>,
)
    ensures
        a < b ==> text_less(start.push(a) + more, start.push(b) + rest),
        a > b ==> !text_less(start.push(a) + more, start.push(b) + rest),
        text_less(start, start.push(a) + more),
        !text_less(start.push(a) + more, start),
    decreases start.len(),
{
    let x = start.push(a) + more;
    let y = start.push(b) + rest;
    if start.len() > 0 {
        law_first_difference_orders(start.skip(1), a, b, more, rest);
        assert(x[0] == start[0] && y[0] == start[0]);
        assert(x.skip(1) =~= start.skip(1).push(a) + more);
        assert(y.skip(1) =~= start.skip(1).push(b) + rest);
    } else {
        assert(x[0] == a && y[0] == b);
    }
}

/// Appending a digit to the decimal text of a number gives that of ten times the
/// number and the digit; below ten, the digit is the text.
pub proof fn law_decimal_digit_by_digit(n: nat, d: nat)
    requires
        d < 10,
    ensures
        decimal_text(10 * n + d) == (if n == 0 {
            Seq::empty()
        } else {
            decimal_text(n)
        }).push((('0' as u32) + d) as char),
{
    let c = (('0' as u32) + d) as char;
    assert(digit_char(d) == c);
    if n == 0 {
        assert(decimal_text(d) =~= Seq::<char>::empty().push(c));
    } else {
        assert((10 * n + d) / 10 == n && (10 * n + d) % 10 == d) by (nonlinear_arith)
            requires
                d < 10,
        ;
    }
}

/// A number may have leading zeros and a plus sign. A text with anything but
/// digits after that is no number, nor is one that is too large or has no digit.
pub proof fn law_numbers_are_digits(s: Seq<char>, max: nat, i: int)
    requires
        0 <= i < s.len(),
        !('0' <= s[i] <= '9'),
        i > 0 || s[0] != '+',
    ensures
        unsigned_value(s, max) is None,
{
    let d = if s.len() > 1 && s[0] == '+' {
        s.skip(1)
    } else {
        s
    };
    let k = if s.len() > 1 && s[0] == '+' {
        i - 1
    } else {
        i
    };
    assert(d[k] == s[i]);
    let head = d.take(k + 1);
    assert(head.last() == d[k]);
    assert(digit_value(head.last()) is None);
    lemma_digits_prefix(d, k + 1, max);
}

/// A number that is read is at most the greatest allowed, and one that is
/// greater is refused.
pub proof fn law_numbers_fit(n: nat, max: nat, s: Seq<char>)
    ensures
        n > max ==> unsigned_value(decimal_text(n), max) is None,
        unsigned_value(s, max) is Some ==> unsigned_value(s, max)->0 <= max,
        n <= max ==> unsigned_value(seq!['+'] + decimal_text(n), max) == Some(n),
        unsigned_value(Seq::empty(), max) is None,
{
    law_decimal_spells_its_number(n);
    let t = seq!['+'] + decimal_text(n);
    assert(t[0] == '+');
    assert(t.skip(1) =~= decimal_text(n));
}

/// Parts one after another, with a character between them.
pub open spec fn separated(parts: Seq<Seq<char>>, c: char) -> Seq<char>
    decreases parts.len(),
{
    if parts.len() == 0 {
        Seq::empty()
    } else if parts.len() == 1 {
        parts[0]
    } else {
        parts[0].push(c) + separated(parts.skip(1), c)
    }
}

/// Parts that were put together with a character between them, which none of
/// them has, come out of the split as they were.
pub proof fn law_split_undoes_joining(parts: Seq<Seq<char>>, c: char)
    requires
        parts.len() > 0,
        forall|i: int| 0 <= i < parts.len() ==> !(#[trigger] parts[i]).contains(c),
    ensures
        pieces(separated(parts, c), c) == parts,
    decreases parts.len(),
{
    let s = separated(parts, c);
    let n = parts[0].len();
    assert(!parts[0].contains(c));
    assert forall|i: int| 0 <= i < n implies #[trigger] s[i] != c by {
        assert(s[i] == parts[0][i]);
        assert(parts[0].contains(parts[0][i]));
    }
    if parts.len() == 1 {
        lemma_run_without(s, c, n);
        assert(seq![s] =~= parts);
    } else {
        let rest = parts.skip(1);
        assert forall|i: int| 0 <= i < rest.len() implies !(#[trigger] rest[i]).contains(c) by {
            assert(rest[i] == parts[i + 1]);
        }
        law_split_undoes_joining(rest, c);
        assert(s[n as int] == c);
        lemma_run_without(s, c, n);
        assert(s.take(n as int) =~= parts[0]);
        assert(s.skip(n as int + 1) =~= separated(rest, c));
        assert(seq![parts[0]] + rest =~= parts);
    }
}

/// What is put before a text can be taken off again, and nothing else can.
pub proof fn law_prefix_is_taken_off(prefix: Seq<char>, s: Seq<char>)
    ensures
        without_prefix(prefix + s, prefix) == Some(s),
        without_prefix(s, prefix) is Some ==> prefix + without_prefix(s, prefix)->0 == s,
{
    let t = prefix + s;
    let n = prefix.len() as int;
    assert(t.subrange(0, n) =~= prefix);
    assert(stands_at(t, prefix, 0));
    assert(t.skip(n) =~= s);
    if without_prefix(s, prefix) is Some {
        assert(s.subrange(0, n) == prefix);
        assert(prefix + s.skip(n) =~= s);
    }
}

/// Of the ASCII characters, the space and the five from the tabulator to the
/// carriage return are white space.
pub proof fn law_ascii_white_space(c: char)
    requires
        (c as u32) < 128,
    ensures
        space_char(c) <==> c as u32 == 32 || 9 <= c as u32 <= 13,
{
}

/// A text stands somewhere in another one.
pub open spec fn part_of(part: Seq<char>, whole: Seq<char>) -> bool {
    exists|before: Seq<char>, after: Seq<char>| whole == #[trigger] (before + part + after)
}

/// What a text is put together from stands in it.
pub proof fn lemma_part_of(before: Seq<char>, part: Seq<char>, after: Seq<char>, whole: Seq<char>)
    requires
        whole =~= before + part + after,
    ensures
        part_of(part, whole),
{
    assert(whole == before + part + after);
}

/// A text is found in another one exactly if it stands somewhere in it.
pub proof fn law_texts_are_found_in_others(part: Seq<char>, whole: Seq<char>)
    ensures
        part_of(part, whole) <==> contains_text(whole, part),
{
    if contains_text(whole, part) {
        let i = choose|i: int| #[trigger] stands_at(whole, part, i);
        let before = whole.take(i);
        let after = whole.skip(i + part.len());
        assert(whole =~= before + part + after);
    }
    if part_of(part, whole) {
        let (before, after) = choose|before: Seq<char>, after: Seq<char>|
            whole == #[trigger] (before + part + after);
        let i = before.len() as int;
        assert(whole.subrange(i, i + part.len()) =~= part);
        assert(stands_at(whole, part, i));
    }
}

}
