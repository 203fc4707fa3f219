//! The Graham scan itself, verified against a functional model of the whole
//! pipeline: anchor selection, removal of the anchor's duplicates, angular
//! sort, and the hull-stack scan.
use vstd::prelude::*;
use vstd::relations::{sorted_by, total_ordering};
use vstd::seq_lib::lemma_sorted_unique;
use vstd::seq_lib::lemma_multiset_commutative;
use crate::data::pos2::Pos2;
use crate::algorithms::graham_scan::helpers;
use crate::algorithms::graham_scan::order::{
    lex_le, pt_le, pt_leq, pt_le_cmp, spec_orient, lemma_pt_le_total_ordering,
};

verus! {

broadcast use vstd::seq_lib::group_to_multiset_ensures;

/// `p` is a point of `s` with the least y-coordinate, ties broken by the
/// least x-coordinate.
pub open spec fn is_anchor(s: Seq<Pos2>, p: Pos2) -> bool {
    s.contains(p) && forall|i: int| 0 <= i < s.len() ==> lex_le(p, #[trigger] s[i])
}

/// The anchor of a non-empty point set: its unique lex-least `(y, x)` point.
pub open spec fn spec_anchor(s: Seq<Pos2>) -> Pos2 {
    choose|p: Pos2| is_anchor(s, p)
}

/// The anchor is unique: two lex-least points of the same set are equal.
pub proof fn lemma_anchor_unique(s: Seq<Pos2>, a: Pos2, b: Pos2)
    requires
        is_anchor(s, a),
        is_anchor(s, b),
    ensures
        a == b,
{
    let i = choose|i: int| 0 <= i < s.len() && s[i] == a;
    let j = choose|j: int| 0 <= j < s.len() && s[j] == b;
    assert(lex_le(a, s[j]));
    assert(lex_le(b, s[i]));
}

/// The predicate that keeps every point not value-equal to the anchor.
pub open spec fn ne_pred(p0: Pos2) -> spec_fn(Pos2) -> bool {
    |q: Pos2| q != p0
}

/// One scan step: pop the stack while its top two points and the candidate
/// fail to make a strict left turn, then push the candidate.
pub open spec fn spec_scan_push(stack: Seq<Pos2>, p: Pos2) -> Seq<Pos2>
    decreases stack.len(),
{
    if stack.len() >= 2 && spec_orient(stack[stack.len() - 2], stack[stack.len() - 1], p) <= 0 {
        spec_scan_push(stack.drop_last(), p)
    } else {
        stack.push(p)
    }
}

/// The scan: feed the remaining points, in order, into the hull stack.
pub open spec fn spec_scan(stack: Seq<Pos2>, rest: Seq<Pos2>) -> Seq<Pos2>
    decreases rest.len(),
{
    if rest.len() == 0 {
        stack
    } else {
        spec_scan(spec_scan_push(stack, rest[0]), rest.drop_first())
    }
}

/// The points handed to the scan: the input with every copy of the anchor
/// removed, sorted by angle around the anchor.
pub open spec fn hull_rest(s: Seq<Pos2>, p0: Pos2) -> Seq<Pos2> {
    s.filter(ne_pred(p0)).sort_by(pt_leq(p0))
}

/// The functional model of the convex hull: empty for an empty input,
/// otherwise the scan of the angularly sorted points seeded with the anchor.
pub open spec fn spec_hull(s: Seq<Pos2>) -> Seq<Pos2> {
    if s.len() == 0 {
        Seq::empty()
    } else {
        let p0 = spec_anchor(s);
        spec_scan(seq![p0], hull_rest(s, p0))
    }
}

/// Computes the convex hull of `points` by a Graham scan: the returned
/// boundary starts at the anchor (least y, ties least x) and proceeds
/// counterclockwise; collinear edge points are not retained.
#[verifier::loop_isolation(false)]
pub fn graham_scan(points: &[Pos2]) -> (hull: Vec<Pos2>)
    ensures
        hull@ == spec_hull(points@),
{
    if points.len() == 0 {
        return Vec::new();
    }
    // The anchor: the point with the lowest y-coordinate, ties broken by
    // the lowest x-coordinate.
    let mut p0 = points[0];
    let mut i: usize = 1;
    while i < points.len()
        invariant
            1 <= i <= points@.len(),
            exists|j: int| 0 <= j < i && points@[j] == p0,
            forall|j: int| 0 <= j < i ==> lex_le(p0, #[trigger] points@[j]),
        decreases points@.len() - i,
    {
        let q = points[i];
        if q.y < p0.y || (q.y == p0.y && q.x < p0.x) {
            p0 = q;
        }
        i = i + 1;
    }
    proof {
        assert(is_anchor(points@, p0));
        lemma_anchor_unique(points@, p0, spec_anchor(points@));
    }
    // Remove the anchor from the working set, by value equality.
    let mut rest: Vec<Pos2> = Vec::new();
    let mut j: usize = 0;
    while j < points.len()
        invariant
            j <= points@.len(),
            rest@ == points@.subrange(0, j as int).filter(ne_pred(p0)),
        decreases points@.len() - j,
    {
        let q = points[j];
        proof {
            lemma_filter_push(points@.subrange(0, j as int), ne_pred(p0), q);
            assert(points@.subrange(0, j + 1 as int) == points@.subrange(0, j as int).push(q));
        }
        if !(q.x == p0.x && q.y == p0.y) {
            rest.push(q);
        }
        j = j + 1;
    }
    proof {
        assert(points@.subrange(0, points@.len() as int) == points@);
    }
    // Sort the working set by angle around the anchor.
    graham_sort(p0, &mut rest);
    // The scan: pop while reaching the candidate is not a strict left turn.
    let mut stack: Vec<Pos2> = Vec::new();
    stack.push(p0);
    proof {
        assert(stack@ =~= seq![p0]);
        assert(rest@.skip(0) =~= rest@);
    }
    let mut idx: usize = 0;
    while idx < rest.len()
        invariant
            idx <= rest@.len(),
            stack@.len() >= 1,
            spec_scan(stack@, rest@.skip(idx as int)) == spec_scan(seq![p0], rest@),
        decreases rest@.len() - idx,
    {
        let point = rest[idx];
        proof {
            assert(rest@.skip(idx as int)[0] == point);
            assert(rest@.skip(idx as int).drop_first() == rest@.skip(idx + 1 as int));
        }
        while stack.len() > 1 && helpers::to_the_right(stack.as_slice(), point)
            invariant
                stack@.len() >= 1,
                spec_scan(spec_scan_push(stack@, point), rest@.skip(idx + 1 as int)) == spec_scan(
                    seq![p0],
                    rest@,
                ),
            decreases stack@.len(),
        {
            // Pop the stack: the second-to-top point lies inside the hull.
            stack.pop();
        }
        stack.push(point);
        idx = idx + 1;
    }
    proof {
        assert(rest@.skip(rest@.len() as int) =~= Seq::<Pos2>::empty());
        assert(hull_rest(points@, p0) == rest@);
    }
    stack
}

/// Sorts `points` by polar angle around `p0`, ascending; exact angular ties
/// are broken lexicographically by `(y, x)`, which orders points on a
/// common ray above the anchor by ascending distance. The result is exactly
/// the model's sort of the input.
#[verifier::loop_isolation(false)]
pub fn graham_sort(p0: Pos2, points: &mut Vec<Pos2>)
    ensures
        final(points)@ == old(points)@.sort_by(pt_leq(p0)),
{
    proof {
        lemma_pt_le_total_ordering(p0);
    }
    let ghost leq = pt_leq(p0);
    let mut i: usize = 1;
    while i < points.len()
        invariant
            i >= 1,
            points@.len() == old(points)@.len(),
            points@.to_multiset() == old(points)@.to_multiset(),
            sorted_by(points@.subrange(0, vstd::math::min(i as int, points@.len() as int)), leq),
        decreases points@.len() - i,
    {
        let x = points[i];
        // Find the first position whose element must come after `x`.
        let mut k: usize = 0;
        while k < i && pt_le_cmp(p0, points[k], x)
            invariant
                k <= i,
                forall|t: int| 0 <= t < k ==> leq(#[trigger] points@[t], x),
            decreases i - k,
        {
            k = k + 1;
        }
        let ghost before = points@;
        let y = points.remove(i);
        points.insert(k, y);
        proof {
            lemma_insertion_step(before, i as int, k as int, leq);
        }
        i = i + 1;
    }
    proof {
        if points@.len() >= 1 {
            assert(points@.subrange(0, points@.len() as int) == points@);
        }
        old(points)@.lemma_sort_by_ensures(leq);
        lemma_sorted_unique(points@, old(points)@.sort_by(leq), leq);
    }
}

/// Filtering a sequence extended by one element keeps the filtered prefix
/// and appends the element exactly when it satisfies the predicate.
proof fn lemma_filter_push(s: Seq<Pos2>, pred: spec_fn(Pos2) -> bool, x: Pos2)
    ensures
        s.push(x).filter(pred) == if pred(x) {
            s.filter(pred).push(x)
        } else {
            s.filter(pred)
        },
{
    reveal(Seq::filter);
    assert(s.push(x).drop_last() == s);
}

/// Moving the element at `i` back to position `k` keeps the multiset of the
/// sequence and leaves its first `i + 1` elements sorted, provided the
/// prefix was sorted, everything before `k` is at most the moved element,
/// and `k` was the first position that must come after it.
proof fn lemma_insertion_step(s: Seq<Pos2>, i: int, k: int, leq: spec_fn(Pos2, Pos2) -> bool)
    requires
        total_ordering(leq),
        0 <= k <= i < s.len(),
        sorted_by(s.subrange(0, i), leq),
        forall|t: int| 0 <= t < k ==> leq(#[trigger] s[t], s[i]),
        k < i ==> !leq(s[k], s[i]),
    ensures
        s.remove(i).insert(k, s[i]).len() == s.len(),
        s.remove(i).insert(k, s[i]).to_multiset() == s.to_multiset(),
        sorted_by(s.remove(i).insert(k, s[i]).subrange(0, i + 1), leq),
{
    let x = s[i];
    let r = s.remove(i);
    let out = r.insert(k, x);
    r.insert_ensures(k, x);
    s.remove_ensures(i);
    // Multiset: removing an element and re-inserting it restores the counts.
    assert(out.to_multiset() =~= s.to_multiset()) by {
        lemma_to_multiset_insert(r, k, x);
        assert(r.to_multiset() == s.to_multiset().remove(x));
        assert(s.to_multiset().contains(x)) by {
            assert(s.contains(x));
        }
    }
    // The sorted prefix of `s` compares pairwise.
    assert forall|u: int, v: int| 0 <= u < v < i implies leq(#[trigger] s[u], #[trigger] s[v]) by {
        assert(leq(s.subrange(0, i)[u], s.subrange(0, i)[v]));
    }
    // Sortedness of the new prefix.
    assert forall|t1: int, t2: int| 0 <= t1 < t2 < i + 1 implies leq(out[t1], out[t2]) by {
        if k < i {
            assert(!leq(s[k], x));
            assert(leq(x, s[k]));
        }
        if t1 < k {
            assert(out[t1] == s[t1]);
            if t2 < k {
                assert(out[t2] == s[t2]);
            } else if t2 == k {
                assert(out[t2] == x);
                assert(leq(s[t1], x));
            } else {
                assert(out[t2] == s[t2 - 1]);
                assert(leq(s[t1], s[t2 - 1]));
            }
        } else if t1 == k {
            assert(out[t1] == x);
            assert(out[t2] == s[t2 - 1]);
            if t2 - 1 > k {
                assert(leq(s[k], s[t2 - 1]));
            }
            assert(leq(x, s[t2 - 1]));
        } else {
            assert(out[t1] == s[t1 - 1]);
            assert(out[t2] == s[t2 - 1]);
            assert(leq(s[t1 - 1], s[t2 - 1]));
        }
    }
    assert forall|t1: int, t2: int| 0 <= t1 < t2 < i + 1 implies leq(
        #[trigger] out.subrange(0, i + 1)[t1],
        #[trigger] out.subrange(0, i + 1)[t2],
    ) by {
        assert(leq(out[t1], out[t2]));
    }
}

/// Inserting an element anywhere adds exactly it to the multiset.
proof fn lemma_to_multiset_insert(s: Seq<Pos2>, k: int, x: Pos2)
    requires
        0 <= k <= s.len(),
    ensures
        s.insert(k, x).to_multiset() == s.to_multiset().insert(x),
{
    let a = s.subrange(0, k);
    let b = s.subrange(k, s.len() as int);
    assert(s.insert(k, x) == a.push(x) + b);
    lemma_multiset_commutative(a.push(x), b);
    lemma_multiset_commutative(a, b);
    assert(s =~= a + b);
    assert(a.push(x).to_multiset() =~= a.to_multiset().insert(x));
    assert(s.insert(k, x).to_multiset() =~= s.to_multiset().insert(x));
}

} // verus!
