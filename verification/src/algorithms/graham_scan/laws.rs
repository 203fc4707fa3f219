//! Laws of the convex hull: what the scan's output always satisfies, and
//! that taking the hull of a hull changes nothing.
use vstd::prelude::*;
use vstd::relations::sorted_by;
use vstd::seq_lib::lemma_sorted_unique;
use crate::data::pos2::Pos2;
use crate::algorithms::graham_scan::order::{
    lex_le, pt_le, pt_leq, spec_orient, lemma_pt_le_total_ordering, lemma_pt_le_antisym,
    angle_class,
};
use crate::algorithms::graham_scan::algorithm::{
    is_anchor, spec_anchor, ne_pred, spec_scan_push, spec_scan, hull_rest, spec_hull,
    lemma_anchor_unique,
};

verus! {

broadcast use vstd::seq_lib::group_to_multiset_ensures;

/// No point occurs twice.
pub open spec fn distinct_seq(s: Seq<Pos2>) -> bool {
    forall|i: int, j: int| 0 <= i < j < s.len() ==> s[i] != s[j]
}

/// Every three consecutive points make a strict left turn; in particular no
/// three consecutive points are collinear.
pub open spec fn ccw_triples(s: Seq<Pos2>) -> bool {
    forall|i: int|
        0 <= i && i + 2 < s.len() ==> #[trigger] spec_orient(s[i], s[i + 1], s[i + 2]) > 0
}

/// The orientation of a degenerate triple (two of its points equal) is zero.
proof fn lemma_orient_degenerate(a: Pos2, b: Pos2, c: Pos2)
    ensures
        a == b ==> spec_orient(a, b, c) == 0,
        b == c ==> spec_orient(a, b, c) == 0,
        a == c ==> spec_orient(a, b, c) == 0,
{
    if a == b {
        assert((b.x - a.x) * (c.y - a.y) - (b.y - a.y) * (c.x - a.x) == 0) by (nonlinear_arith)
            requires
                b.x == a.x,
                b.y == a.y,
        ;
    }
    if b == c {
        assert((b.x - a.x) * (c.y - a.y) - (b.y - a.y) * (c.x - a.x) == 0) by (nonlinear_arith)
            requires
                b.x == c.x,
                b.y == c.y,
        ;
    }
    if a == c {
        assert((b.x - a.x) * (c.y - a.y) - (b.y - a.y) * (c.x - a.x) == 0) by (nonlinear_arith)
            requires
                a.x == c.x,
                a.y == c.y,
        ;
    }
}

/// Every non-empty point set has an anchor.
pub proof fn lemma_anchor_exists(s: Seq<Pos2>)
    requires
        s.len() > 0,
    ensures
        is_anchor(s, spec_anchor(s)),
    decreases s.len(),
{
    if s.len() == 1 {
        assert(is_anchor(s, s[0]));
    } else {
        let rest = s.drop_first();
        lemma_anchor_exists(rest);
        let q = spec_anchor(rest);
        let cand = if lex_le(s[0], q) {
            s[0]
        } else {
            q
        };
        let j = choose|j: int| 0 <= j < rest.len() && rest[j] == q;
        assert(s[j + 1] == q);
        assert forall|i: int| 0 <= i < s.len() implies lex_le(cand, #[trigger] s[i]) by {
            if i >= 1 {
                assert(rest[i - 1] == s[i]);
                assert(lex_le(q, rest[i - 1]));
            }
        }
        assert(is_anchor(s, cand));
    }
}

/// Every element of a filtered sequence is an element of the original.
proof fn lemma_filter_subset(s: Seq<Pos2>, pred: spec_fn(Pos2) -> bool)
    ensures
        forall|x: Pos2| #[trigger] s.filter(pred).contains(x) ==> s.contains(x),
    decreases s.len(),
{
    reveal(Seq::filter);
    if s.len() > 0 {
        lemma_filter_subset(s.drop_last(), pred);
        assert forall|x: Pos2| #[trigger] s.filter(pred).contains(x) implies s.contains(x) by {
            if s.drop_last().filter(pred).contains(x) {
                assert(s.drop_last().contains(x));
                let i = choose|i: int| 0 <= i < s.drop_last().len() && s.drop_last()[i] == x;
                assert(s[i] == x);
            } else {
                assert(x == s.last());
            }
        }
    }
}

/// Filtering a sequence whose every element satisfies the predicate leaves
/// it unchanged.
proof fn lemma_filter_all(s: Seq<Pos2>, pred: spec_fn(Pos2) -> bool)
    requires
        forall|i: int| 0 <= i < s.len() ==> pred(#[trigger] s[i]),
    ensures
        s.filter(pred) == s,
    decreases s.len(),
{
    reveal(Seq::filter);
    if s.len() > 0 {
        assert(forall|i: int| 0 <= i < s.drop_last().len() ==> pred(#[trigger] s.drop_last()[i]));
        lemma_filter_all(s.drop_last(), pred);
        assert(s.filter(pred) =~= s);
    }
}

/// What one scan step guarantees: the stack keeps its origin, stays sorted
/// by angle, free of duplicates and strictly counterclockwise, ends in the
/// pushed point, and grows only by that point.
proof fn lemma_scan_push(o: Pos2, stack: Seq<Pos2>, p: Pos2)
    requires
        stack.len() >= 1,
        stack[0] == o,
        sorted_by(stack, pt_leq(o)),
        distinct_seq(stack),
        ccw_triples(stack),
        forall|i: int| 0 <= i < stack.len() ==> pt_le(o, #[trigger] stack[i], p),
        p != o,
    ensures
        spec_scan_push(stack, p).len() >= 2,
        spec_scan_push(stack, p)[0] == o,
        spec_scan_push(stack, p).last() == p,
        sorted_by(spec_scan_push(stack, p), pt_leq(o)),
        distinct_seq(spec_scan_push(stack, p)),
        ccw_triples(spec_scan_push(stack, p)),
        forall|t: int|
            0 <= t < spec_scan_push(stack, p).len() ==> #[trigger] spec_scan_push(stack, p)[t]
                == p || stack.contains(spec_scan_push(stack, p)[t]),
    decreases stack.len(),
{
    lemma_pt_le_total_ordering(o);
    let n = stack.len() as int;
    if n >= 2 && spec_orient(stack[n - 2], stack[n - 1], p) <= 0 {
        let short = stack.drop_last();
        assert(short[0] == o);
        assert(sorted_by(short, pt_leq(o))) by {
            assert forall|i: int, j: int| 0 <= i < j < short.len() implies pt_leq(o)(
                short[i],
                short[j],
            ) by {
                assert(pt_leq(o)(stack[i], stack[j]));
            }
        }
        lemma_scan_push(o, short, p);
        assert forall|t: int|
            0 <= t < spec_scan_push(stack, p).len() implies #[trigger] spec_scan_push(stack, p)[t]
            == p || stack.contains(spec_scan_push(stack, p)[t]) by {
            if spec_scan_push(stack, p)[t] != p {
                assert(short.contains(spec_scan_push(stack, p)[t]));
                let i = choose|i: int|
                    0 <= i < short.len() && short[i] == spec_scan_push(stack, p)[t];
                assert(stack[i] == spec_scan_push(stack, p)[t]);
            }
        }
    } else {
        let r = stack.push(p);
        // The pushed point differs from every stack point.
        assert forall|i: int| 0 <= i < n implies stack[i] != p by {
            if stack[i] == p {
                if i == n - 1 {
                    if n >= 2 {
                        lemma_orient_degenerate(stack[n - 2], stack[n - 1], p);
                    } else {
                        assert(stack[i] == o);
                    }
                } else if i == n - 2 {
                    lemma_orient_degenerate(stack[n - 2], stack[n - 1], p);
                } else {
                    // An earlier stack point equal to `p` would force two
                    // adjacent stack points to coincide.
                    assert(pt_le(o, stack[i + 1], p));
                    assert(pt_leq(o)(stack[i], stack[i + 1]));
                    assert(pt_le(o, p, stack[i + 1]));
                    lemma_pt_le_antisym(o, stack[i + 1], p);
                }
            }
        }
        assert(distinct_seq(r)) by {
            assert forall|i: int, j: int| 0 <= i < j < r.len() implies r[i] != r[j] by {
                if j < n {
                    assert(stack[i] != stack[j]);
                }
            }
        }
        assert(sorted_by(r, pt_leq(o))) by {
            assert forall|i: int, j: int| 0 <= i < j < r.len() implies pt_leq(o)(r[i], r[j]) by {
                if j < n {
                    assert(pt_leq(o)(stack[i], stack[j]));
                } else {
                    assert(pt_le(o, stack[i], p));
                }
            }
        }
        assert(ccw_triples(r)) by {
            assert forall|i: int| 0 <= i && i + 2 < r.len() implies #[trigger] spec_orient(
                r[i],
                r[i + 1],
                r[i + 2],
            ) > 0 by {
                if i + 2 < n {
                    assert(spec_orient(stack[i], stack[i + 1], stack[i + 2]) > 0);
                }
            }
        }
        assert forall|t: int|
            0 <= t < r.len() implies #[trigger] r[t] == p || stack.contains(r[t]) by {
            if t < n {
                assert(stack[t] == r[t]);
            }
        }
    }
}

/// What the whole scan guarantees, by induction over the remaining points.
proof fn lemma_scan_inv(o: Pos2, stack: Seq<Pos2>, rest: Seq<Pos2>)
    requires
        stack.len() >= 1,
        stack[0] == o,
        sorted_by(stack, pt_leq(o)),
        distinct_seq(stack),
        ccw_triples(stack),
        sorted_by(rest, pt_leq(o)),
        forall|i: int, j: int|
            0 <= i < stack.len() && 0 <= j < rest.len() ==> pt_le(
                o,
                #[trigger] stack[i],
                #[trigger] rest[j],
            ),
        forall|j: int| 0 <= j < rest.len() ==> #[trigger] rest[j] != o,
    ensures
        spec_scan(stack, rest).len() >= 1,
        spec_scan(stack, rest)[0] == o,
        sorted_by(spec_scan(stack, rest), pt_leq(o)),
        distinct_seq(spec_scan(stack, rest)),
        ccw_triples(spec_scan(stack, rest)),
        forall|t: int|
            0 <= t < spec_scan(stack, rest).len() ==> stack.contains(
                #[trigger] spec_scan(stack, rest)[t],
            ) || rest.contains(spec_scan(stack, rest)[t]),
    decreases rest.len(),
{
    lemma_pt_le_total_ordering(o);
    if rest.len() == 0 {
    } else {
        let p = rest[0];
        lemma_scan_push(o, stack, p);
        let stack1 = spec_scan_push(stack, p);
        let rest1 = rest.drop_first();
        assert(sorted_by(rest1, pt_leq(o))) by {
            assert forall|i: int, j: int| 0 <= i < j < rest1.len() implies pt_leq(o)(
                rest1[i],
                rest1[j],
            ) by {
                assert(pt_leq(o)(rest[i + 1], rest[j + 1]));
            }
        }
        assert forall|i: int, j: int|
            0 <= i < stack1.len() && 0 <= j < rest1.len() implies pt_le(
            o,
            #[trigger] stack1[i],
            #[trigger] rest1[j],
        ) by {
            assert(rest1[j] == rest[j + 1]);
            if stack1[i] == p {
                assert(pt_leq(o)(rest[0], rest[j + 1]));
            } else {
                assert(stack.contains(stack1[i]));
                let t = choose|t: int| 0 <= t < stack.len() && stack[t] == stack1[i];
                assert(pt_le(o, stack[t], rest[j + 1]));
            }
        }
        assert(forall|j: int| 0 <= j < rest1.len() ==> #[trigger] rest1[j] != o);
        lemma_scan_inv(o, stack1, rest1);
        assert forall|t: int|
            0 <= t < spec_scan(stack, rest).len() implies stack.contains(
            #[trigger] spec_scan(stack, rest)[t],
        ) || rest.contains(spec_scan(stack, rest)[t]) by {
            let v = spec_scan(stack, rest)[t];
            assert(spec_scan(stack1, rest1) == spec_scan(stack, rest));
            if stack1.contains(v) {
                let u = choose|u: int| 0 <= u < stack1.len() && stack1[u] == v;
                if stack1[u] == p {
                    assert(rest[0] == v);
                } else {
                    assert(stack.contains(v));
                }
            } else {
                assert(rest1.contains(v));
                let u = choose|u: int| 0 <= u < rest1.len() && rest1[u] == v;
                assert(rest[u + 1] == v);
            }
        }
    }
}

/// The hull of a non-empty point set contains only points of the input,
/// never repeats a point, begins at the anchor — the point with least y,
/// ties broken by least x — and turns strictly left at every interior
/// vertex, so no three consecutive hull points are collinear. The hull of
/// an empty set is empty.
pub proof fn lemma_hull_invariants(s: Seq<Pos2>)
    ensures
        spec_hull(s).len() == 0 <==> s.len() == 0,
        forall|t: int| 0 <= t < spec_hull(s).len() ==> s.contains(#[trigger] spec_hull(s)[t]),
        distinct_seq(spec_hull(s)),
        ccw_triples(spec_hull(s)),
        s.len() > 0 ==> spec_hull(s)[0] == spec_anchor(s) && is_anchor(s, spec_hull(s)[0]),
        sorted_by(spec_hull(s), pt_leq(spec_anchor(s))),
{
    if s.len() == 0 {
    } else {
        let o = spec_anchor(s);
        lemma_anchor_exists(s);
        lemma_pt_le_total_ordering(o);
        let filtered = s.filter(ne_pred(o));
        let sorted = filtered.sort_by(pt_leq(o));
        filtered.lemma_sort_by_ensures(pt_leq(o));
        lemma_filter_subset(s, ne_pred(o));
        broadcast use vstd::seq_lib::group_filter_ensures;
        // Every sorted point is a non-anchor point of the input.
        assert forall|j: int|
            0 <= j < sorted.len() implies #[trigger] sorted[j] != o && s.contains(sorted[j]) by {
            assert(sorted.contains(sorted[j]));
            assert(sorted.to_multiset().contains(sorted[j]));
            assert(filtered.to_multiset() == sorted.to_multiset());
            assert(filtered.contains(sorted[j]));
            let u = choose|u: int| 0 <= u < filtered.len() && filtered[u] == sorted[j];
            assert(ne_pred(o)(filtered[u]));
        }
        let stack0 = seq![o];
        assert forall|i: int, j: int|
            0 <= i < stack0.len() && 0 <= j < sorted.len() implies pt_le(
            o,
            #[trigger] stack0[i],
            #[trigger] sorted[j],
        ) by {
            assert(angle_class(o, o) == 0);
            assert(angle_class(o, sorted[j]) != 0);
        }
        lemma_scan_inv(o, stack0, sorted);
        assert forall|t: int|
            0 <= t < spec_hull(s).len() implies s.contains(#[trigger] spec_hull(s)[t]) by {
            let v = spec_hull(s)[t];
            if stack0.contains(v) {
                assert(v == o);
                assert(s.contains(o));
            } else {
                assert(sorted.contains(v));
                let u = choose|u: int| 0 <= u < sorted.len() && sorted[u] == v;
                assert(s.contains(sorted[u]));
            }
        }
    }
}

/// Rescanning a strictly counterclockwise chain keeps it whole: feeding the
/// points after position `k` into the stack holding the first `k` points
/// rebuilds the chain exactly.
proof fn lemma_rescan(h: Seq<Pos2>, k: int)
    requires
        1 <= k <= h.len(),
        ccw_triples(h),
    ensures
        spec_scan(h.take(k), h.skip(k)) == h,
    decreases h.len() - k,
{
    if k == h.len() {
        assert(h.take(k) =~= h);
        assert(h.skip(k).len() == 0);
    } else {
        let stack = h.take(k);
        let p = h[k];
        assert(h.skip(k)[0] == p);
        if k >= 2 {
            assert(spec_orient(h[k - 2], h[(k - 2) + 1], h[(k - 2) + 2]) > 0);
            assert(spec_orient(h[k - 2], h[k - 1], h[k]) > 0);
            assert(stack[k - 2] == h[k - 2] && stack[k - 1] == h[k - 1]);
        }
        assert(spec_scan_push(stack, p) =~= h.take(k + 1));
        assert(h.skip(k).drop_first() =~= h.skip(k + 1));
        lemma_rescan(h, k + 1);
    }
}

/// Idempotence: the convex hull of a convex hull is itself.
pub proof fn lemma_hull_idempotent(s: Seq<Pos2>)
    ensures
        spec_hull(spec_hull(s)) == spec_hull(s),
{
    if s.len() == 0 {
    } else {
        let o = spec_anchor(s);
        let h = spec_hull(s);
        lemma_hull_invariants(s);
        lemma_anchor_exists(s);
        lemma_pt_le_total_ordering(o);
        // The anchor of the hull is the anchor of the input.
        assert(is_anchor(h, o)) by {
            assert(h[0] == o);
            assert(h.contains(o));
            assert forall|i: int| 0 <= i < h.len() implies lex_le(o, #[trigger] h[i]) by {
                assert(s.contains(h[i]));
                let u = choose|u: int| 0 <= u < s.len() && s[u] == h[i];
                assert(lex_le(o, s[u]));
            }
        }
        lemma_anchor_exists(h);
        lemma_anchor_unique(h, spec_anchor(h), o);
        // Removing the anchor from the hull removes exactly its head.
        let tail = h.drop_first();
        assert(forall|i: int| 0 <= i < tail.len() ==> #[trigger] tail[i] == h[i + 1]);
        assert forall|i: int| 0 <= i < tail.len() implies ne_pred(o)(#[trigger] tail[i]) by {
            assert(h[i + 1] != h[0]);
        }
        assert(h.filter(ne_pred(o)) == tail) by {
            assert(h =~= seq![h[0]] + tail);
            Seq::<Pos2>::filter_distributes_over_add(seq![h[0]], tail, ne_pred(o));
            assert(seq![h[0]].filter(ne_pred(o)) =~= Seq::<Pos2>::empty()) by {
                reveal(Seq::filter);
                assert(seq![h[0]].drop_last() =~= Seq::<Pos2>::empty());
                assert(Seq::<Pos2>::empty().filter(ne_pred(o)) =~= Seq::<Pos2>::empty());
                assert(seq![h[0]].last() == h[0]);
                assert(!ne_pred(o)(h[0]));
            }
            lemma_filter_all(tail, ne_pred(o));
        }
        // The hull's tail is already sorted, so sorting keeps it.
        assert(sorted_by(tail, pt_leq(o))) by {
            assert forall|i: int, j: int| 0 <= i < j < tail.len() implies pt_leq(o)(
                tail[i],
                tail[j],
            ) by {
                assert(pt_leq(o)(h[i + 1], h[j + 1]));
            }
        }
        assert(tail.sort_by(pt_leq(o)) == tail) by {
            tail.lemma_sort_by_ensures(pt_leq(o));
            lemma_sorted_unique(tail.sort_by(pt_leq(o)), tail, pt_leq(o));
        }
        // Rescanning the hull pushes every point straight back.
        assert(seq![o] =~= h.take(1));
        assert(tail =~= h.skip(1));
        lemma_rescan(h, 1);
        assert(spec_hull(h) == h);
    }
}

} // verus!
