use vstd::prelude::*;

use crate::object::PathPoint;

verus! {

/// `sub` is `s` with some elements left out: `picks` lists, in increasing
/// order, the index in `s` of each element of `sub`.
pub open spec fn picks_from<A>(sub: Seq<A>, s: Seq<A>, picks: Seq<int>) -> bool {
    &&& picks.len() == sub.len()
    &&& forall|k: int| 0 <= k < picks.len() ==> 0 <= #[trigger] picks[k] < s.len()
    &&& forall|k: int| 0 <= k < picks.len() ==> sub[k] == s[#[trigger] picks[k]]
    &&& forall|k: int, l: int| 0 <= k < l < picks.len() ==> #[trigger] picks[k] < #[trigger] picks[l]
}

/// `sub` keeps some of the elements of `s`, in their order.
pub open spec fn is_subsequence<A>(sub: Seq<A>, s: Seq<A>) -> bool {
    exists|picks: Seq<int>| picks_from(sub, s, picks)
}

/// The points among the first `i` of `points` whose flag in `keep` is set,
/// in order.
pub open spec fn select_kept<A>(points: Seq<A>, keep: Seq<bool>, i: int) -> Seq<A>
    decreases i,
{
    if i <= 0 {
        Seq::empty()
    } else if keep[i - 1] {
        select_kept(points, keep, i - 1).push(points[i - 1])
    } else {
        select_kept(points, keep, i - 1)
    }
}

/// With only the end flags set, the first and last points are selected.
proof fn lemma_select_ends<A>(points: Seq<A>, keep: Seq<bool>, i: int)
    requires
        2 <= points.len() == keep.len(),
        1 <= i <= points.len(),
        forall|j: int| 0 <= j < keep.len() ==> keep[j] == (j == 0 || j == keep.len() - 1),
    ensures
        i < points.len() ==> select_kept(points, keep, i) == seq![points[0]],
        i == points.len() ==> select_kept(points, keep, i) == seq![points[0], points[points.len() - 1]],
    decreases i,
{
    if i == 1 {
        assert(select_kept(points, keep, 0) == Seq::<A>::empty());
        assert(Seq::<A>::empty().push(points[0]) =~= seq![points[0]]);
    } else {
        lemma_select_ends(points, keep, i - 1);
        if i == points.len() {
            assert(seq![points[0]].push(points[i - 1]) =~= seq![points[0], points[points.len() - 1]]);
        }
    }
}

/// The oracle never splits a stretch.
pub open spec fn never_splits<F: Fn(usize, usize) -> Option<usize>>(farthest: F) -> bool {
    forall|s: usize, e: usize, r: Option<usize>| call_ensures(farthest, (s, e), r) ==> r is None
}

/// What a farthest-point oracle may answer for the stretch `start`..`end`:
/// nothing, or an index strictly between the two ends.
pub open spec fn splits_inside(start: usize, end: usize, answer: Option<usize>) -> bool {
    answer matches Some(i) ==> start < i < end
}

/// The oracle can be asked about any stretch and answers an inner index.
pub open spec fn is_split_oracle<F: Fn(usize, usize) -> Option<usize>>(farthest: F) -> bool {
    &&& forall|s: usize, e: usize| s < e ==> call_requires(farthest, (s, e))
    &&& forall|s: usize, e: usize, r: Option<usize>| s < e && call_ensures(farthest, (s, e), r) ==> splits_inside(s, e, r)
}

/// `n` marks, with only the first and the last set.
pub open spec fn ends_marked(n: nat) -> Seq<bool> {
    Seq::new(n, |j: int| j == 0 || j == n - 1)
}

/// How the recursive simplification went on a stretch: it stopped there, or
/// it split the stretch at the inner index `at`, with the marks `middle`
/// reached between its two halves and how each half went.
pub enum Splits {
    Stop,
    Split { at: usize, middle: Seq<bool>, left: Box<Splits>, right: Box<Splits> },
}

/// `after` is `before` with the marks that the recursive simplification adds
/// between `start` and `end`, going as `t` says: a stretch of one step or
/// less stops with nothing marked; for a longer one `farthest` is asked
/// about it, and either names nothing (it stops with nothing marked) or
/// names the inner index `at`, which is marked, after which the left half
/// and then the right half are treated the same way.
pub open spec fn splits_mark<F: Fn(usize, usize) -> Option<usize>>(
    farthest: F,
    t: Splits,
    before: Seq<bool>,
    after: Seq<bool>,
    start: usize,
    end: usize,
) -> bool
    decreases t,
{
    match t {
        Splits::Stop => after == before && (end > start + 1 ==> call_ensures(farthest, (start, end), None::<usize>)),
        Splits::Split { at, middle, left, right } => {
            &&& end > start + 1
            &&& start < at < end
            &&& at < before.len()
            &&& call_ensures(farthest, (start, end), Some(at))
            &&& splits_mark(farthest, *left, before.update(at as int, true), middle, start, at)
            &&& splits_mark(farthest, *right, middle, after, at, end)
        },
    }
}

/// `after` is `before` with the marks that the recursive simplification adds
/// between `start` and `end`, however the oracle's answers went (see
/// [`splits_mark`]).
pub open spec fn marked_by<F: Fn(usize, usize) -> Option<usize>>(
    farthest: F,
    before: Seq<bool>,
    after: Seq<bool>,
    start: usize,
    end: usize,
) -> bool {
    exists|t: Splits| #[trigger] splits_mark(farthest, t, before, after, start, end)
}

/// Marks the points strictly between `start` and `end` that a
/// Ramer-Douglas-Peucker simplification keeps: `farthest(start, end)` names
/// the point farthest from the segment between the two ends when it lies
/// beyond the tolerance; that point is kept and both halves are treated the
/// same way. Marks are only ever added, and only strictly between the ends.
fn mark_kept<F: Fn(usize, usize) -> Option<usize>>(keep: &mut Vec<bool>, start: usize, end: usize, farthest: &F)
    requires
        start < end < old(keep)@.len(),
        is_split_oracle(*farthest),
    ensures
        final(keep)@.len() == old(keep)@.len(),
        forall|j: int| 0 <= j < old(keep)@.len() && (j <= start || j >= end) ==> final(keep)@[j] == old(keep)@[j],
        forall|j: int| 0 <= j < old(keep)@.len() && old(keep)@[j] ==> final(keep)@[j],
        never_splits(*farthest) ==> final(keep)@ == old(keep)@,
        marked_by(*farthest, old(keep)@, final(keep)@, start, end),
    decreases end - start,
{
    if end - start <= 1 {
        proof {
            assert(splits_mark(*farthest, Splits::Stop, keep@, keep@, start, end));
        }
        return;
    }
    let ghost before = keep@;
    let answer = farthest(start, end);
    proof {
        assert(call_ensures(*farthest, (start, end), answer));
        assert(splits_inside(start, end, answer));
    }
    match answer {
        Some(i) => {
            keep.set(i, true);
            let ghost marked = keep@;
            mark_kept(keep, start, i, farthest);
            let ghost middle = keep@;
            mark_kept(keep, i, end, farthest);
            proof {
                assert(marked == before.update(i as int, true));
                assert(call_ensures(*farthest, (start, end), answer));
                let left = choose|t: Splits| splits_mark(*farthest, t, marked, middle, start, i);
                let right = choose|t: Splits| splits_mark(*farthest, t, middle, keep@, i, end);
                let t = Splits::Split { at: i, middle, left: Box::new(left), right: Box::new(right) };
                assert(splits_mark(*farthest, t, before, keep@, start, end));
            }
        },
        None => {
            proof {
                assert(splits_mark(*farthest, Splits::Stop, before, keep@, start, end));
            }
        },
    }
}

/// Simplifies a path of more than two points: the first and last points are
/// always kept, and an inner point is kept when `farthest` picks it (see
/// [`mark_kept`]). Paths of two points or fewer are left as they are. The
/// result keeps points of the path, in order; it never adds or moves one.
/// Exactly the points marked by [`marked_by`], starting from the two ends
/// over the whole path, are kept.
pub fn simplify_path<F: Fn(usize, usize) -> Option<usize>>(points: &mut Vec<PathPoint>, farthest: F)
    requires
        is_split_oracle(farthest),
    ensures
        old(points)@.len() <= 2 ==> final(points)@ == old(points)@,
        old(points)@.len() > 2 ==> {
            &&& is_subsequence(final(points)@, old(points)@)
            &&& final(points)@.len() >= 2
            &&& final(points)@[0] == old(points)@[0]
            &&& final(points)@.last() == old(points)@.last()
        },
        old(points)@.len() > 2 && never_splits(farthest) ==> final(points)@ == seq![
            old(points)@[0],
            old(points)@.last(),
        ],
        old(points)@.len() > 2 ==> exists|marks: Seq<bool>|
            #[trigger] marked_by(
                farthest,
                ends_marked(old(points)@.len()),
                marks,
                0,
                (old(points)@.len() - 1) as usize,
            ) && final(points)@ == select_kept(old(points)@, marks, old(points)@.len() as int),
        always_splits(farthest) ==> final(points)@ == old(points)@,
{
    let n = points.len();
    if n <= 2 {
        return;
    }
    let mut keep: Vec<bool> = Vec::new();
    let mut k: usize = 0;
    while k < n
        invariant
            k <= n,
            keep@.len() == k,
            forall|j: int| 0 <= j < k ==> keep@[j] == (j == 0 || j == n - 1),
        decreases n - k,
    {
        keep.push(k == 0 || k == n - 1);
        k = k + 1;
    }
    let ghost ends = keep@;
    mark_kept(&mut keep, 0, n - 1, &farthest);
    let ghost marks = keep@;
    let ghost given = points@;
    let mut simplified: Vec<PathPoint> = Vec::new();
    let ghost mut picks: Seq<int> = Seq::empty();
    let mut i: usize = 0;
    while i < n
        invariant
            n == given.len(),
            n > 2,
            points@ == given,
            keep@.len() == n,
            keep@[0],
            keep@[n - 1],
            i <= n,
            picks_from(simplified@, given, picks),
            forall|k: int| 0 <= k < picks.len() ==> picks[k] < i,
            i == 0 ==> simplified@.len() == 0,
            i > 0 ==> simplified@.len() > 0 && simplified@[0] == given[0],
            i == n ==> simplified@.len() >= 2 && simplified@.last() == given[n - 1],
            simplified@ == select_kept(given, keep@, i as int),
            never_splits(farthest) ==> keep@ == ends,
            forall|j: int| 0 <= j < n ==> ends[j] == (j == 0 || j == n - 1),
            ends.len() == n,
        decreases n - i,
    {
        let ghost before = simplified@;
        if keep[i] {
            simplified.push(points[i]);
            proof {
                picks = picks.push(i as int);
                if before.len() > 0 {
                    assert(simplified@[0] == before[0]);
                }
            }
        }
        i = i + 1;
    }
    proof {
        if never_splits(farthest) {
            lemma_select_ends(given, keep@, n as int);
        }
        assert(ends =~= ends_marked(n as nat));
        assert(marked_by(farthest, ends_marked(n as nat), marks, 0, (n - 1) as usize));
        if always_splits(farthest) {
            lemma_simplify_keeps_all(farthest, given, marks);
        }
    }
    *points = simplified;
}

/// Marking only ever adds marks, along any course of the simplification.
proof fn lemma_splits_grow<F: Fn(usize, usize) -> Option<usize>>(
    farthest: F,
    t: Splits,
    before: Seq<bool>,
    after: Seq<bool>,
    start: usize,
    end: usize,
)
    requires
        splits_mark(farthest, t, before, after, start, end),
    ensures
        after.len() == before.len(),
        forall|j: int| 0 <= j < before.len() && before[j] ==> after[j],
    decreases t,
{
    match t {
        Splits::Stop => {},
        Splits::Split { at, middle, left, right } => {
            lemma_splits_grow(farthest, *left, before.update(at as int, true), middle, start, at);
            lemma_splits_grow(farthest, *right, middle, after, at, end);
        },
    }
}

/// Marking only ever adds marks: the marks keep their number and every mark
/// set before is still set.
pub proof fn lemma_marked_by_grows<F: Fn(usize, usize) -> Option<usize>>(
    farthest: F,
    before: Seq<bool>,
    after: Seq<bool>,
    start: usize,
    end: usize,
)
    requires
        marked_by(farthest, before, after, start, end),
    ensures
        after.len() == before.len(),
        forall|j: int| 0 <= j < before.len() && before[j] ==> after[j],
{
    let t = choose|t: Splits| splits_mark(farthest, t, before, after, start, end);
    lemma_splits_grow(farthest, t, before, after, start, end);
}

/// An oracle that splits every stretch longer than one step.
pub open spec fn always_splits<F: Fn(usize, usize) -> Option<usize>>(farthest: F) -> bool {
    forall|s: usize, e: usize, r: Option<usize>| s + 1 < e && call_ensures(farthest, (s, e), r) ==> r is Some
}

/// With an oracle that splits every stretch, every point strictly between
/// the ends gets marked, along any course of the simplification.
proof fn lemma_splits_mark_all<F: Fn(usize, usize) -> Option<usize>>(
    farthest: F,
    t: Splits,
    before: Seq<bool>,
    after: Seq<bool>,
    start: usize,
    end: usize,
)
    requires
        splits_mark(farthest, t, before, after, start, end),
        always_splits(farthest),
        end < before.len(),
    ensures
        forall|j: int| start < j < end ==> after[j],
    decreases t,
{
    match t {
        Splits::Stop => {
            if end > start + 1 {
                assert(call_ensures(farthest, (start, end), None::<usize>));
            }
        },
        Splits::Split { at, middle, left, right } => {
            let marked = before.update(at as int, true);
            lemma_splits_grow(farthest, *left, marked, middle, start, at);
            lemma_splits_grow(farthest, *right, middle, after, at, end);
            lemma_splits_mark_all(farthest, *left, marked, middle, start, at);
            lemma_splits_mark_all(farthest, *right, middle, after, at, end);
            assert(marked[at as int]);
        },
    }
}

/// Both halves around every split are examined: when the oracle splits
/// every stretch longer than one step, every point strictly between the ends
/// gets marked.
pub proof fn lemma_marked_by_splitting_all<F: Fn(usize, usize) -> Option<usize>>(
    farthest: F,
    before: Seq<bool>,
    after: Seq<bool>,
    start: usize,
    end: usize,
)
    requires
        marked_by(farthest, before, after, start, end),
        always_splits(farthest),
        end < before.len(),
    ensures
        forall|j: int| start < j < end ==> after[j],
{
    let t = choose|t: Splits| splits_mark(farthest, t, before, after, start, end);
    lemma_splits_mark_all(farthest, t, before, after, start, end);
}

/// With every mark set, all the points are selected.
proof fn lemma_select_all<A>(points: Seq<A>, keep: Seq<bool>, i: int)
    requires
        0 <= i <= points.len(),
        i <= keep.len(),
        forall|j: int| 0 <= j < i ==> keep[j],
    ensures
        select_kept(points, keep, i) == points.take(i),
    decreases i,
{
    if i > 0 {
        lemma_select_all(points, keep, i - 1);
        assert(points.take(i - 1).push(points[i - 1]) =~= points.take(i));
    }
}

/// An oracle that splits every stretch longer than one step keeps the whole
/// path: the simplification that `simplify_path` states gives every point
/// back, in order.
pub proof fn lemma_simplify_keeps_all<F: Fn(usize, usize) -> Option<usize>>(
    farthest: F,
    points: Seq<PathPoint>,
    marks: Seq<bool>,
)
    requires
        2 < points.len() <= usize::MAX,
        always_splits(farthest),
        marked_by(farthest, ends_marked(points.len()), marks, 0, (points.len() - 1) as usize),
    ensures
        select_kept(points, marks, points.len() as int) == points,
{
    let n = points.len();
    let ends = ends_marked(n);
    lemma_marked_by_grows(farthest, ends, marks, 0, (n - 1) as usize);
    lemma_marked_by_splitting_all(farthest, ends, marks, 0, (n - 1) as usize);
    assert forall|j: int| 0 <= j < n implies marks[j] by {
        if j == 0 || j == n - 1 {
            assert(ends[j]);
        }
    }
    lemma_select_all(points, marks, n as int);
    assert(points.take(n as int) =~= points);
}

} // verus!
