//! Displays: the order they are listed in, which of them changed, and the
//! corner that hidden windows are parked beyond.

use vstd::prelude::*;
use crate::desk::{Monitor, MonitorDiff};
use crate::ipc::RectInfo;

verus! {

/// The monitors of a list, the main one first.
pub open spec fn with_main_first(ms: Seq<Monitor>) -> Seq<Monitor> {
    mains(ms, true) + mains(ms, false)
}

/// The frame of the first main monitor.
pub open spec fn main_frame(ms: Seq<Monitor>) -> Option<RectInfo> {
    if mains(ms, true).len() > 0 {
        Some(mains(ms, true)[0].frame)
    } else {
        None
    }
}

/// `diff` tells the displays apart: which changed their ids, went and came.
pub open spec fn told_apart(old_ms: Seq<Monitor>, new_ms: Seq<Monitor>, diff: &MonitorDiff) -> bool {
    &&& paired(old_ms, new_ms, diff.renamed@)
    &&& diff.disconnected@.no_duplicates()
    &&& diff.connected@.no_duplicates()
    &&& forall|id: u32| #[trigger]
        diff.disconnected@.contains(id) <==> has_id(old_ms, id) && !has_id(new_ms, id)
            && !renamed_from(diff.renamed@, id)
    &&& forall|id: u32| #[trigger]
        diff.connected@.contains(id) <==> has_id(new_ms, id) && !has_id(old_ms, id) && !renamed_to(
            diff.renamed@,
            id,
        )
    &&& distinct_ids(old_ms) ==> forall|i: int, j: int|
        0 <= i < old_ms.len() && 0 <= j < new_ms.len() && diff.disconnected@.contains(
            (#[trigger] old_ms[i]).id,
        ) && diff.connected@.contains((#[trigger] new_ms[j]).id) ==> !same_origin(
            old_ms[i],
            new_ms[j],
        )
}

/// The corner that other displays reach into least, and of such the one that is
/// preferred.
pub open spec fn best_corner(reach: Reach, r: Corner) -> bool {
    forall|other: Corner|
        other != r ==> reach_into(reach, r) < #[trigger] reach_into(reach, other) || (reach_into(
            reach,
            r,
        ) == reach_into(reach, other) && rank(r) < rank(other))
}

/// Whether a corner is at the right, and whether it is at the bottom.
pub open spec fn sides_of(corner: Corner) -> (bool, bool) {
    (
        corner == Corner::BottomRight || corner == Corner::TopRight,
        corner == Corner::BottomRight || corner == Corner::BottomLeft,
    )
}

/// The monitors of a list that are the main display, or those that are not.
pub open spec fn mains(ms: Seq<Monitor>, main: bool) -> Seq<Monitor> {
    ms.filter(|m: Monitor| m.is_main == main)
}

/// Lists the main display first. The others keep their order.
pub fn main_first(monitors: &Vec<Monitor>) -> (r: Vec<Monitor>)
    ensures
        r@ == with_main_first(monitors@),
{
    let mut out: Vec<Monitor> = Vec::new();
    let mut rest: Vec<Monitor> = Vec::new();
    let mut i: usize = 0;
    proof {
        reveal(Seq::filter);
        assert(monitors@.take(0) =~= Seq::empty());
    }
    while i < monitors.len()
        invariant
            i <= monitors.len(),
            out@ == mains(monitors@.take(i as int), true),
            rest@ == mains(monitors@.take(i as int), false),
        decreases monitors.len() - i,
    {
        proof {
            reveal(Seq::filter);
            assert(monitors@.take(i + 1).drop_last() =~= monitors@.take(i as int));
            assert(monitors@.take(i + 1).last() == monitors@[i as int]);
        }
        let m: Monitor = monitors[i];
        if m.is_main {
            out.push(m);
        } else {
            rest.push(m);
        }
        i = i + 1;
    }
    assert(monitors@.take(i as int) =~= monitors@);
    let mut j: usize = 0;
    let ghost head = out@;
    assert(head + rest@.take(0) =~= head);
    while j < rest.len()
        invariant
            j <= rest.len(),
            out@ == head + rest@.take(j as int),
        decreases rest.len() - j,
    {
        out.push(rest[j]);
        assert(head + rest@.take(j + 1) =~= (head + rest@.take(j as int)).push(rest@[j as int]));
        j = j + 1;
    }
    assert(rest@.take(j as int) =~= rest@);
    out
}

/// The frame of the main display, `None` where there is none.
pub fn main_display_frame(monitors: &Vec<Monitor>) -> (r: Option<RectInfo>)
    ensures
        r == main_frame(monitors@),
{
    let sorted: Vec<Monitor> = main_first(monitors);
    proof {
        let yes = |m: Monitor| m.is_main == true;
        let no = |m: Monitor| m.is_main == false;
        let a = monitors@.filter(yes);
        let b = monitors@.filter(no);
        if a.len() > 0 {
            monitors@.lemma_filter_pred(yes, 0);
            assert(sorted@[0] == a[0]);
            assert(a[0].is_main);
        } else if b.len() > 0 {
            monitors@.lemma_filter_pred(no, 0);
            assert(sorted@[0] == b[0]);
            assert(!b[0].is_main);
        }
    }
    if sorted.len() > 0 && sorted[0].is_main {
        Some(sorted[0].frame)
    } else {
        None
    }
}

/// A monitor of a list has an id.
pub open spec fn has_id(ms: Seq<Monitor>, id: u32) -> bool {
    exists|i: int| 0 <= i < ms.len() && (#[trigger] ms[i]).id == id
}

/// No two monitors of a list have one id.
pub open spec fn distinct_ids(ms: Seq<Monitor>) -> bool {
    forall|i: int, j: int| 0 <= i < j < ms.len() ==> (#[trigger] ms[i]).id != (#[trigger] ms[j]).id
}

/// Two monitors start at one place.
pub open spec fn same_origin(a: Monitor, b: Monitor) -> bool {
    a.frame.x == b.frame.x && a.frame.y == b.frame.y
}

/// Some pair has this first half.
pub open spec fn renamed_from(pairs: Seq<(u32, u32)>, id: u32) -> bool {
    exists|k: int| 0 <= k < pairs.len() && (#[trigger] pairs[k]).0 == id
}

/// Some pair has this second half.
pub open spec fn renamed_to(pairs: Seq<(u32, u32)>, id: u32) -> bool {
    exists|k: int| 0 <= k < pairs.len() && (#[trigger] pairs[k]).1 == id
}

/// A pair of ids is one display: the old id is gone, the new one came, and they
/// stand at one place.
pub open spec fn one_display(old_ms: Seq<Monitor>, new_ms: Seq<Monitor>, pair: (u32, u32)) -> bool {
    &&& !has_id(new_ms, pair.0)
    &&& !has_id(old_ms, pair.1)
    &&& exists|i: int, j: int|
        0 <= i < old_ms.len() && 0 <= j < new_ms.len() && (#[trigger] old_ms[i]).id == pair.0
            && (#[trigger] new_ms[j]).id == pair.1 && same_origin(old_ms[i], new_ms[j])
}

/// The pairs stand for displays of their own.
pub open spec fn paired(old_ms: Seq<Monitor>, new_ms: Seq<Monitor>, pairs: Seq<(u32, u32)>) -> bool {
    &&& forall|k: int| 0 <= k < pairs.len() ==> one_display(old_ms, new_ms, #[trigger] pairs[k])
    &&& forall|k: int, l: int|
        0 <= k < l < pairs.len() ==> (#[trigger] pairs[k]).0 != (#[trigger] pairs[l]).0 && pairs[k].1
            != pairs[l].1
}

fn id_in(ms: &Vec<Monitor>, id: u32) -> (r: bool)
    ensures
        r == has_id(ms@, id),
{
    let mut i: usize = 0;
    while i < ms.len()
        invariant
            i <= ms.len(),
            forall|j: int| 0 <= j < i ==> (#[trigger] ms@[j]).id != id,
        decreases ms.len() - i,
    {
        if ms[i].id == id {
            assert(ms@[i as int].id == id);
            return true;
        }
        i = i + 1;
    }
    false
}

fn first_in(pairs: &Vec<(u32, u32)>, id: u32) -> (r: bool)
    ensures
        r == renamed_from(pairs@, id),
{
    let mut i: usize = 0;
    while i < pairs.len()
        invariant
            i <= pairs.len(),
            forall|j: int| 0 <= j < i ==> (#[trigger] pairs@[j]).0 != id,
        decreases pairs.len() - i,
    {
        if pairs[i].0 == id {
            assert(pairs@[i as int].0 == id);
            return true;
        }
        i = i + 1;
    }
    false
}

fn second_in(pairs: &Vec<(u32, u32)>, id: u32) -> (r: bool)
    ensures
        r == renamed_to(pairs@, id),
{
    let mut i: usize = 0;
    while i < pairs.len()
        invariant
            i <= pairs.len(),
            forall|j: int| 0 <= j < i ==> (#[trigger] pairs@[j]).1 != id,
        decreases pairs.len() - i,
    {
        if pairs[i].1 == id {
            assert(pairs@[i as int].1 == id);
            return true;
        }
        i = i + 1;
    }
    false
}

/// A monitor can be what another one is now called: it came, it stands where
/// the other stood, and it stands for no other.
pub open spec fn fits(
    old_ms: Seq<Monitor>,
    pairs: Seq<(u32, u32)>,
    gone: Monitor,
    come: Monitor,
) -> bool {
    !has_id(old_ms, come.id) && !renamed_to(pairs, come.id) && same_origin(gone, come)
}

fn find_fit(
    old_ms: &Vec<Monitor>,
    new_ms: &Vec<Monitor>,
    pairs: &Vec<(u32, u32)>,
    gone: Monitor,
) -> (r: Option<usize>)
    ensures
        match r {
            Some(j) => j < new_ms@.len() && fits(old_ms@, pairs@, gone, new_ms@[j as int]),
            None => forall|j: int|
                0 <= j < new_ms@.len() ==> !fits(old_ms@, pairs@, gone, #[trigger] new_ms@[j]),
        },
{
    let mut j: usize = 0;
    while j < new_ms.len()
        invariant
            j <= new_ms.len(),
            forall|k: int| 0 <= k < j ==> !fits(old_ms@, pairs@, gone, #[trigger] new_ms@[k]),
        decreases new_ms.len() - j,
    {
        let come: Monitor = new_ms[j];
        if !id_in(old_ms, come.id) && !second_in(pairs, come.id) && gone.frame.x == come.frame.x
            && gone.frame.y == come.frame.y {
            return Some(j);
        }
        j = j + 1;
    }
    None
}

fn listed(ids: &Vec<u32>, id: u32) -> (r: bool)
    ensures
        r == ids@.contains(id),
{
    let mut i: usize = 0;
    while i < ids.len()
        invariant
            i <= ids.len(),
            forall|j: int| 0 <= j < i ==> ids@[j] != id,
        decreases ids.len() - i,
    {
        if ids[i] == id {
            return true;
        }
        i = i + 1;
    }
    false
}

proof fn lemma_push_id(ids: Seq<u32>, id: u32)
    ensures
        forall|x: u32| #[trigger] ids.push(id).contains(x) <==> ids.contains(x) || x == id,
{
    let p = ids.push(id);
    assert(p[ids.len() as int] == id);
    assert forall|x: u32| #[trigger] p.contains(x) <==> ids.contains(x) || x == id by {
        if p.contains(x) && x != id {
            let i = p.index_of(x);
            assert(ids[i] == x);
        }
        if ids.contains(x) {
            let i = ids.index_of(x);
            assert(p[i] == x);
        }
    }
}

proof fn lemma_push_pair(pairs: Seq<(u32, u32)>, pair: (u32, u32))
    ensures
        forall|x: u32| #[trigger]
            renamed_from(pairs.push(pair), x) <==> renamed_from(pairs, x) || x == pair.0,
        forall|x: u32| #[trigger]
            renamed_to(pairs.push(pair), x) <==> renamed_to(pairs, x) || x == pair.1,
{
    let p = pairs.push(pair);
    assert(p[pairs.len() as int] == pair);
    assert forall|x: u32| #[trigger] renamed_from(p, x) <==> renamed_from(pairs, x) || x == pair.0 by {
        if renamed_from(pairs, x) {
            let k = choose|k: int| 0 <= k < pairs.len() && (#[trigger] pairs[k]).0 == x;
            assert(p[k].0 == x);
        }
        if renamed_from(p, x) && x != pair.0 {
            let k = choose|k: int| 0 <= k < p.len() && (#[trigger] p[k]).0 == x;
            assert(pairs[k].0 == x);
        }
    }
    assert forall|x: u32| #[trigger] renamed_to(p, x) <==> renamed_to(pairs, x) || x == pair.1 by {
        if renamed_to(pairs, x) {
            let k = choose|k: int| 0 <= k < pairs.len() && (#[trigger] pairs[k]).1 == x;
            assert(p[k].1 == x);
        }
        if renamed_to(p, x) && x != pair.1 {
            let k = choose|k: int| 0 <= k < p.len() && (#[trigger] p[k]).1 == x;
            assert(pairs[k].1 == x);
        }
    }
}

/// Compares what is connected now with what was. A display that changed its id
/// but stands where it stood (common across sleep and wake) did not go
/// anywhere. As many displays as possible are taken to be such.
pub fn match_monitors(old_ms: &Vec<Monitor>, new_ms: &Vec<Monitor>) -> (r: MonitorDiff)
    ensures
        told_apart(old_ms@, new_ms@, &r),
        distinct_ids(old_ms@) ==> forall|i: int, j: int|
            0 <= i < old_ms@.len() && 0 <= j < new_ms@.len() && r.disconnected@.contains(
                (#[trigger] old_ms@[i]).id,
            ) && r.connected@.contains((#[trigger] new_ms@[j]).id) ==> !same_origin(
                old_ms@[i],
                new_ms@[j],
            ),
{
    let mut renamed: Vec<(u32, u32)> = Vec::new();
    let mut disconnected: Vec<u32> = Vec::new();
    let mut i: usize = 0;
    while i < old_ms.len()
        invariant
            i <= old_ms.len(),
            paired(old_ms@, new_ms@, renamed@),
            disconnected@.no_duplicates(),
            forall|id: u32| #[trigger]
                disconnected@.contains(id) <==> has_id(old_ms@.take(i as int), id) && !has_id(
                    new_ms@,
                    id,
                ) && !renamed_from(renamed@, id),
            forall|id: u32| #[trigger]
                renamed_from(renamed@, id) ==> has_id(old_ms@.take(i as int), id),
            distinct_ids(old_ms@) ==> forall|k: int, j: int|
                0 <= k < i && 0 <= j < new_ms@.len() && disconnected@.contains(
                    (#[trigger] old_ms@[k]).id,
                ) ==> !fits(old_ms@, renamed@, old_ms@[k], #[trigger] new_ms@[j]),
        decreases old_ms.len() - i,
    {
        let gone: Monitor = old_ms[i];
        let ghost seen = old_ms@.take(i as int);
        let ghost more = old_ms@.take(i + 1);
        proof {
            assert(more =~= seen.push(gone));
            assert forall|x: u32| #[trigger] has_id(more, x) <==> has_id(seen, x) || x == gone.id by {
                if has_id(seen, x) {
                    let k = choose|k: int| 0 <= k < seen.len() && (#[trigger] seen[k]).id == x;
                    assert(more[k].id == x);
                }
                if has_id(more, x) && x != gone.id {
                    let k = choose|k: int| 0 <= k < more.len() && (#[trigger] more[k]).id == x;
                    assert(seen[k].id == x);
                }
                assert(more[i as int].id == gone.id);
            }
            if distinct_ids(old_ms@) && has_id(seen, gone.id) {
                let k = choose|k: int| 0 <= k < seen.len() && (#[trigger] seen[k]).id == gone.id;
                assert(old_ms@[k].id == old_ms@[i as int].id);
            }
        }
        if !id_in(new_ms, gone.id) && !first_in(&renamed, gone.id) && !listed(&disconnected, gone.id) {
            match find_fit(old_ms, new_ms, &renamed, gone) {
                Some(j) => {
                    let ghost before = renamed@;
                    let pair: (u32, u32) = (gone.id, new_ms[j].id);
                    proof {
                        lemma_push_pair(renamed@, pair);
                        assert(old_ms@[i as int].id == pair.0 && new_ms@[j as int].id == pair.1);
                        assert(one_display(old_ms@, new_ms@, pair));
                    }
                    renamed.push(pair);
                    proof {
                        assert forall|k: int, l: int| 0 <= k < l < renamed@.len() implies (
                        #[trigger] renamed@[k]).0 != (#[trigger] renamed@[l]).0 && renamed@[k].1
                            != renamed@[l].1 by {
                            assert(renamed@[k] == before[k]);
                            if l < before.len() {
                                assert(renamed@[l] == before[l]);
                            }
                        }
                    }
                },
                None => {
                    proof {
                        lemma_push_id(disconnected@, gone.id);
                    }
                    let ghost before = disconnected@;
                    disconnected.push(gone.id);
                    proof {
                        assert forall|a: int, b: int|
                            0 <= a < disconnected@.len() && 0 <= b < disconnected@.len() && a
                                != b implies disconnected@[a] != disconnected@[b] by {
                            if a < before.len() {
                                assert(before.contains(before[a]));
                            }
                            if b < before.len() {
                                assert(before.contains(before[b]));
                            }
                        }
                    }
                },
            }
        }
        i = i + 1;
    }
    assert(old_ms@.take(i as int) =~= old_ms@);
    let mut connected: Vec<u32> = Vec::new();
    let mut j: usize = 0;
    while j < new_ms.len()
        invariant
            j <= new_ms.len(),
            connected@.no_duplicates(),
            forall|id: u32| #[trigger]
                connected@.contains(id) <==> has_id(new_ms@.take(j as int), id) && !has_id(
                    old_ms@,
                    id,
                ) && !renamed_to(renamed@, id),
        decreases new_ms.len() - j,
    {
        let come: Monitor = new_ms[j];
        let ghost seen = new_ms@.take(j as int);
        let ghost more = new_ms@.take(j + 1);
        proof {
            assert(more =~= seen.push(come));
            assert forall|x: u32| #[trigger] has_id(more, x) <==> has_id(seen, x) || x == come.id by {
                if has_id(seen, x) {
                    let k = choose|k: int| 0 <= k < seen.len() && (#[trigger] seen[k]).id == x;
                    assert(more[k].id == x);
                }
                if has_id(more, x) && x != come.id {
                    let k = choose|k: int| 0 <= k < more.len() && (#[trigger] more[k]).id == x;
                    assert(seen[k].id == x);
                }
                assert(more[j as int].id == come.id);
            }
        }
        if !id_in(old_ms, come.id) && !second_in(&renamed, come.id) && !listed(&connected, come.id) {
            proof {
                lemma_push_id(connected@, come.id);
            }
            let ghost before = connected@;
            connected.push(come.id);
            proof {
                assert forall|a: int, b: int|
                    0 <= a < connected@.len() && 0 <= b < connected@.len() && a
                        != b implies connected@[a] != connected@[b] by {
                    if a < before.len() {
                        assert(before.contains(before[a]));
                    }
                    if b < before.len() {
                        assert(before.contains(before[b]));
                    }
                }
            }
        }
        j = j + 1;
    }
    assert(new_ms@.take(j as int) =~= new_ms@);
    MonitorDiff { renamed, disconnected, connected }
}

/// A corner of the area that all displays span.
#[derive(Debug, Clone, Copy, PartialEq, Eq, Structural)]
pub enum Corner {
    BottomRight,
    BottomLeft,
    TopRight,
    TopLeft,
}

/// How many displays reach into each corner.
#[derive(Debug, Clone, Copy, PartialEq, Eq, Structural)]
pub struct Reach {
    pub bottom_right: u64,
    pub bottom_left: u64,
    pub top_right: u64,
    pub top_left: u64,
}

pub open spec fn reach_into(reach: Reach, corner: Corner) -> u64 {
    match corner {
        Corner::BottomRight => reach.bottom_right,
        Corner::BottomLeft => reach.bottom_left,
        Corner::TopRight => reach.top_right,
        Corner::TopLeft => reach.top_left,
    }
}

/// The order in which corners are preferred.
pub open spec fn rank(corner: Corner) -> int {
    match corner {
        Corner::BottomRight => 0,
        Corner::BottomLeft => 1,
        Corner::TopRight => 2,
        Corner::TopLeft => 3,
    }
}

/// The corner that the fewest displays reach into, the most preferred of
/// several.
pub fn choose_parking_corner(reach: Reach) -> (r: Corner)
    ensures
        best_corner(reach, r),
{
    let mut best: Corner = Corner::BottomRight;
    let mut fewest: u64 = reach.bottom_right;
    if reach.bottom_left < fewest {
        best = Corner::BottomLeft;
        fewest = reach.bottom_left;
    }
    if reach.top_right < fewest {
        best = Corner::TopRight;
        fewest = reach.top_right;
    }
    if reach.top_left < fewest {
        best = Corner::TopLeft;
    }
    best
}

/// Which way a corner points: whether right, and whether down.
pub fn beyond(corner: Corner) -> (r: (bool, bool))
    ensures
        r == sides_of(corner),
{
    match corner {
        Corner::BottomRight => (true, true),
        Corner::BottomLeft => (false, true),
        Corner::TopRight => (true, false),
        Corner::TopLeft => (false, false),
    }
}

proof fn lemma_mains(ms: Seq<Monitor>, main: bool, m: Monitor)
    ensures
        mains(ms, main).contains(m) <==> ms.contains(m) && m.is_main == main,
        forall|i: int| 0 <= i < mains(ms, main).len() ==> (#[trigger] mains(ms, main)[i]).is_main == main,
        ms.len() == mains(ms, true).len() + mains(ms, false).len(),
    decreases ms.len(),
{
    reveal(Seq::filter);
    let f = mains(ms, main);
    if ms.len() > 0 {
        let init = ms.drop_last();
        let last = ms.last();
        let g = mains(init, main);
        lemma_mains(init, main, m);
        assert(f == if last.is_main == main {
            g.push(last)
        } else {
            g
        });
        assert(ms[ms.len() - 1] == last);
        if init.contains(m) {
            let k = init.index_of(m);
            assert(ms[k] == m);
        }
        if ms.contains(m) && m != last {
            let k = ms.index_of(m);
            assert(init[k] == m);
        }
        if g.contains(m) {
            let k = g.index_of(m);
            assert(f[k] == m);
        }
        if f.contains(m) && m != last {
            let k = f.index_of(m);
            assert(g[k] == m);
        }
        if last.is_main == main {
            assert(f[f.len() - 1] == last);
        }
        assert forall|i: int| 0 <= i < f.len() implies (#[trigger] f[i]).is_main == main by {
            if i < g.len() {
                assert(f[i] == g[i]);
            }
        }
    }
}

/// Putting the main display first loses none, adds none, and puts no other one
/// before it.
pub proof fn law_main_display_comes_first(ms: Seq<Monitor>, m: Monitor, i: int, j: int)
    ensures
        with_main_first(ms).len() == ms.len(),
        with_main_first(ms).contains(m) <==> ms.contains(m),
        0 <= i < j < ms.len() && with_main_first(ms)[j].is_main ==> with_main_first(ms)[i].is_main,
        main_frame(ms) is Some <==> exists|k: int| 0 <= k < ms.len() && (#[trigger] ms[k]).is_main,
        main_frame(ms) is Some ==> exists|k: int|
            0 <= k < ms.len() && (#[trigger] ms[k]).is_main && ms[k].frame == main_frame(ms)->0,
{
    lemma_mains(ms, true, m);
    lemma_mains(ms, false, m);
    let a = mains(ms, true);
    let b = mains(ms, false);
    let r = with_main_first(ms);
    if a.contains(m) {
        let k = a.index_of(m);
        assert(r[k] == m);
    }
    if b.contains(m) {
        let k = b.index_of(m);
        assert(r[a.len() + k] == m);
    }
    if r.contains(m) {
        let k = r.index_of(m);
        if k < a.len() {
            assert(a[k] == m);
        } else {
            assert(b[k - a.len()] == m);
        }
    }
    if 0 <= i < j < ms.len() && r[j].is_main && j >= a.len() {
        assert(b[j - a.len()] == r[j]);
    }
    if a.len() > 0 {
        let first = a[0];
        lemma_mains(ms, true, first);
        assert(a.contains(first));
        let k = ms.index_of(first);
        assert(ms[k].is_main);
    }
    if exists|k: int| 0 <= k < ms.len() && (#[trigger] ms[k]).is_main {
        let k = choose|k: int| 0 <= k < ms.len() && (#[trigger] ms[k]).is_main;
        lemma_mains(ms, true, ms[k]);
        assert(ms.contains(ms[k]));
        assert(a.contains(ms[k]));
    }
}

/// A display that is there before and after is neither new nor gone nor called
/// otherwise. One that is gone is off or has another id now, not both; so one
/// that came is new or had another id. What is taken for one display starts at
/// one place.
pub proof fn law_displays_are_told_apart(
    old_ms: Seq<Monitor>,
    new_ms: Seq<Monitor>,
    diff: &MonitorDiff,
    id: u32,
    k: int,
)
    requires
        told_apart(old_ms, new_ms, diff),
    ensures
        ({
            let before = exists|i: int| 0 <= i < old_ms.len() && (#[trigger] old_ms[i]).id == id;
            let now = exists|i: int| 0 <= i < new_ms.len() && (#[trigger] new_ms[i]).id == id;
            let off = diff.disconnected@.contains(id);
            let on = diff.connected@.contains(id);
            let from = exists|i: int|
                0 <= i < diff.renamed@.len() && (#[trigger] diff.renamed@[i]).0 == id;
            let to = exists|i: int|
                0 <= i < diff.renamed@.len() && (#[trigger] diff.renamed@[i]).1 == id;
            &&& before && now ==> !off && !on && !from && !to
            &&& before && !now ==> off != from && !on && !to
            &&& now && !before ==> on != to && !off && !from
            &&& !before && !now ==> !off && !on && !from && !to
        }),
        0 <= k < diff.renamed@.len() ==> exists|i: int, j: int|
            0 <= i < old_ms.len() && 0 <= j < new_ms.len() && (#[trigger] old_ms[i]).id
                == diff.renamed@[k].0 && (#[trigger] new_ms[j]).id == diff.renamed@[k].1
                && old_ms[i].frame.x == new_ms[j].frame.x && old_ms[i].frame.y == new_ms[j].frame.y,
{
    if exists|i: int| 0 <= i < diff.renamed@.len() && (#[trigger] diff.renamed@[i]).0 == id {
        let i = choose|i: int|
            0 <= i < diff.renamed@.len() && (#[trigger] diff.renamed@[i]).0 == id;
        assert(one_display(old_ms, new_ms, diff.renamed@[i]));
    }
    if exists|i: int| 0 <= i < diff.renamed@.len() && (#[trigger] diff.renamed@[i]).1 == id {
        let i = choose|i: int|
            0 <= i < diff.renamed@.len() && (#[trigger] diff.renamed@[i]).1 == id;
        assert(one_display(old_ms, new_ms, diff.renamed@[i]));
    }
    if 0 <= k < diff.renamed@.len() {
        assert(one_display(old_ms, new_ms, diff.renamed@[k]));
        let (i, j) = choose|i: int, j: int|
            0 <= i < old_ms.len() && 0 <= j < new_ms.len() && (#[trigger] old_ms[i]).id
                == diff.renamed@[k].0 && (#[trigger] new_ms[j]).id == diff.renamed@[k].1
                && same_origin(old_ms[i], new_ms[j]);
        assert(old_ms[i].id == diff.renamed@[k].0 && new_ms[j].id == diff.renamed@[k].1);
    }
}

/// Windows are parked in a corner that other displays reach into no more than
/// into any other one: at the bottom right where that is such a corner, at the
/// top left only where no other one is.
pub proof fn law_windows_are_parked_out_of_sight(reach: Reach, r: Corner)
    requires
        best_corner(reach, r),
    ensures
        ({
            let here = match r {
                Corner::BottomRight => reach.bottom_right,
                Corner::BottomLeft => reach.bottom_left,
                Corner::TopRight => reach.top_right,
                Corner::TopLeft => reach.top_left,
            };
            &&& here <= reach.bottom_right && here <= reach.bottom_left && here <= reach.top_right
                && here <= reach.top_left
            &&& here == reach.bottom_right ==> r is BottomRight
            &&& here == reach.bottom_left && here != reach.bottom_right ==> r is BottomLeft
            &&& r is TopLeft ==> here != reach.top_right
        }),
        sides_of(Corner::BottomRight) == (true, true),
        sides_of(Corner::TopLeft) == (false, false),
        sides_of(Corner::TopRight) == (true, false),
        sides_of(Corner::BottomLeft) == (false, true),
{
    assert(reach_into(reach, Corner::BottomRight) == reach.bottom_right);
    assert(reach_into(reach, Corner::BottomLeft) == reach.bottom_left);
    assert(reach_into(reach, Corner::TopRight) == reach.top_right);
    assert(reach_into(reach, Corner::TopLeft) == reach.top_left);
}

/// A display that went and one that came never start at one place: they would
/// have been taken for one display.
pub proof fn law_displays_at_one_place_are_one(
    old_ms: Seq<Monitor>,
    new_ms: Seq<Monitor>,
    diff: &MonitorDiff,
    i: int,
    j: int,
)
    requires
        told_apart(old_ms, new_ms, diff),
        distinct_ids(old_ms),
        0 <= i < old_ms.len(),
        0 <= j < new_ms.len(),
        old_ms[i].frame.x == new_ms[j].frame.x && old_ms[i].frame.y == new_ms[j].frame.y,
    ensures
        !(diff.disconnected@.contains(old_ms[i].id) && diff.connected@.contains(new_ms[j].id)),
{
}

}
