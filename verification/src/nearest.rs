//! What a search returns: the nearest crossing, whatever the order in which
//! the primitives are tried.
use vstd::prelude::*;
use crate::hittable::Hit;
use crate::hittable::reach;
use crate::hittable::scan;
use crate::hittable::scan_from;
use crate::hittable::visit;
use crate::scalar::Scalar;
use crate::sphere::lemma_hit_is_stable;
use crate::sphere::Roots;
use crate::sphere::Sphere;

verus! {

/// Whether the roots of every primitive in `order` come in their order.
pub open spec fn roots_in_order(order: Seq<usize>, roots: spec_fn(usize) -> Roots) -> bool {
    forall|i: int| 0 <= i < order.len() ==> (#[trigger] roots(order[i])).in_order()
}

/// Whether `found` is the nearest crossing among the primitives `seen`,
/// within the span from `t_min` to `t_max`: none where no primitive is
/// crossed; else the crossing of one of them, with no crossing of any of them
/// below it.
pub open spec fn is_nearest(
    found: Option<Hit>,
    seen: Seq<usize>,
    roots: spec_fn(usize) -> Roots,
    t_min: Scalar,
    t_max: Scalar,
) -> bool {
    match found {
        None => forall|i: int|
            0 <= i < seen.len() ==> Sphere::spec_hit(#[trigger] roots(seen[i]), t_min, t_max) is None,
        Some(h) => {
            &&& seen.contains(h.prim)
            &&& Sphere::spec_hit(roots(h.prim), t_min, t_max) == Some(h.t)
            &&& forall|i: int|
                0 <= i < seen.len() ==> (Sphere::spec_hit(#[trigger] roots(seen[i]), t_min, t_max)
                    matches Some(t) ==> !t.spec_lt(h.t))
        },
    }
}

/// Trying a primitive changes what was found only for a crossing strictly
/// nearer: a primitive crossed at the same parameter or farther never takes
/// the place of one found before it.
pub proof fn lemma_visit_only_improves(
    found: Hit,
    p: usize,
    roots: spec_fn(usize) -> Roots,
    t_min: Scalar,
    t_max: Scalar,
)
    ensures
        visit(Some(found), p, roots, t_min, t_max) == Some(found) || (visit(
            Some(found),
            p,
            roots,
            t_min,
            t_max,
        ) matches Some(h) && h.prim == p && h.t.spec_lt(found.t)),
{
}

/// Trying the primitives of `first` and then those of `then` is trying those
/// of `first + then`.
pub proof fn lemma_scan_concat(
    found: Option<Hit>,
    first: Seq<usize>,
    then: Seq<usize>,
    roots: spec_fn(usize) -> Roots,
    t_min: Scalar,
    t_max: Scalar,
)
    ensures
        scan_from(found, first + then, roots, t_min, t_max) == scan_from(
            scan_from(found, first, roots, t_min, t_max),
            then,
            roots,
            t_min,
            t_max,
        ),
    decreases first.len(),
{
    if first.len() == 0 {
        assert(first + then =~= then);
    } else {
        assert((first + then).drop_first() =~= first.drop_first() + then);
        lemma_scan_concat(
            visit(found, first[0], roots, t_min, t_max),
            first.drop_first(),
            then,
            roots,
            t_min,
            t_max,
        );
    }
}

/// Primitives that have no crossing below what was found leave the search as
/// it was.
pub proof fn lemma_scan_without_crossings(
    found: Option<Hit>,
    order: Seq<usize>,
    roots: spec_fn(usize) -> Roots,
    t_min: Scalar,
    t_max: Scalar,
)
    requires
        forall|i: int|
            0 <= i < order.len() ==> Sphere::spec_hit(
                #[trigger] roots(order[i]),
                t_min,
                reach(found, t_max),
            ) is None,
    ensures
        scan_from(found, order, roots, t_min, t_max) == found,
    decreases order.len(),
{
    if order.len() > 0 {
        assert(Sphere::spec_hit(roots(order[0]), t_min, reach(found, t_max)) is None);
        assert forall|i: int| 0 <= i < order.drop_first().len() implies Sphere::spec_hit(
            #[trigger] roots(order.drop_first()[i]),
            t_min,
            reach(found, t_max),
        ) is None by {
            assert(order.drop_first()[i] == order[i + 1]);
        }
        lemma_scan_without_crossings(found, order.drop_first(), roots, t_min, t_max);
    }
}

/// A search that holds the nearest crossing among the primitives seen holds,
/// after trying more primitives, the nearest among all of them.
pub proof fn lemma_scan_keeps_nearest(
    found: Option<Hit>,
    seen: Seq<usize>,
    order: Seq<usize>,
    roots: spec_fn(usize) -> Roots,
    t_min: Scalar,
    t_max: Scalar,
)
    requires
        is_nearest(found, seen, roots, t_min, t_max),
        roots_in_order(order, roots),
    ensures
        is_nearest(scan_from(found, order, roots, t_min, t_max), seen + order, roots, t_min, t_max),
    decreases order.len(),
{
    if order.len() == 0 {
        assert(seen + order =~= seen);
    } else {
        let p = order[0];
        let next = visit(found, p, roots, t_min, t_max);
        let widened = seen.push(p);
        assert(roots(p).in_order());
        let own = Sphere::spec_hit(roots(p), t_min, t_max);
        let tried = Sphere::spec_hit(roots(p), t_min, reach(found, t_max));
        match found {
            None => {},
            Some(h) => {
                match tried {
                    Some(t) => {
                        lemma_hit_is_stable(roots(p), t_min, h.t, t_max);
                    },
                    None => {
                        if own matches Some(t) && t.spec_lt(h.t) {
                            lemma_hit_is_stable(roots(p), t_min, t_max, h.t);
                        }
                    },
                }
            },
        }
        assert(is_nearest(next, widened, roots, t_min, t_max)) by {
            match next {
                None => {
                    assert forall|i: int| 0 <= i < widened.len() implies Sphere::spec_hit(
                        #[trigger] roots(widened[i]),
                        t_min,
                        t_max,
                    ) is None by {
                        if i < seen.len() {
                            assert(widened[i] == seen[i]);
                        }
                    }
                },
                Some(n) => {
                    if tried is Some {
                        assert(widened[seen.len() as int] == p);
                    } else {
                        let k = choose|k: int| 0 <= k < seen.len() && seen[k] == n.prim;
                        assert(widened[k] == n.prim);
                    }
                    assert forall|i: int| 0 <= i < widened.len() implies (Sphere::spec_hit(
                        #[trigger] roots(widened[i]),
                        t_min,
                        t_max,
                    ) matches Some(t) ==> !t.spec_lt(n.t)) by {
                        if i < seen.len() {
                            assert(widened[i] == seen[i]);
                        }
                    }
                },
            }
        }
        assert forall|i: int| 0 <= i < order.drop_first().len() implies (#[trigger] roots(
            order.drop_first()[i],
        )).in_order() by {
            assert(order.drop_first()[i] == order[i + 1]);
        }
        lemma_scan_keeps_nearest(next, widened, order.drop_first(), roots, t_min, t_max);
        assert(widened + order.drop_first() =~= seen + order);
    }
}

/// A search over primitives whose roots come in their order returns the
/// nearest crossing among them.
pub proof fn lemma_scan_is_nearest(
    order: Seq<usize>,
    roots: spec_fn(usize) -> Roots,
    t_min: Scalar,
    t_max: Scalar,
)
    requires
        roots_in_order(order, roots),
    ensures
        is_nearest(scan(order, roots, t_min, t_max), order, roots, t_min, t_max),
{
    lemma_scan_keeps_nearest(None, Seq::empty(), order, roots, t_min, t_max);
    assert(Seq::<usize>::empty() + order =~= order);
}

/// The nearest crossing is the same in whatever order the primitives are
/// tried: two searches over the same primitives both miss, or both return a
/// crossing at the same parameter. Where one primitive is crossed strictly
/// before every other, both return that primitive.
pub proof fn lemma_order_does_not_matter(
    a: Seq<usize>,
    b: Seq<usize>,
    roots: spec_fn(usize) -> Roots,
    t_min: Scalar,
    t_max: Scalar,
)
    requires
        roots_in_order(a, roots),
        forall|p: usize| a.contains(p) <==> b.contains(p),
    ensures
        scan(a, roots, t_min, t_max) is None <==> scan(b, roots, t_min, t_max) is None,
        scan(a, roots, t_min, t_max) matches Some(ha) ==> scan(b, roots, t_min, t_max) matches Some(hb)
            && ha.t.spec_same(hb.t),
        scan(a, roots, t_min, t_max) matches Some(ha) ==> (forall|p: usize|
            a.contains(p) && p != ha.prim ==> (Sphere::spec_hit(#[trigger] roots(p), t_min, t_max)
                matches Some(t) ==> ha.t.spec_lt(t))) ==> scan(b, roots, t_min, t_max) == Some(ha),
{
    assert forall|i: int| 0 <= i < b.len() implies (#[trigger] roots(b[i])).in_order() by {
        assert(b.contains(b[i]));
        let k = choose|k: int| 0 <= k < a.len() && a[k] == b[i];
        assert(roots(a[k]).in_order());
    }
    lemma_scan_is_nearest(a, roots, t_min, t_max);
    lemma_scan_is_nearest(b, roots, t_min, t_max);
    let ra = scan(a, roots, t_min, t_max);
    let rb = scan(b, roots, t_min, t_max);
    match (ra, rb) {
        (Some(ha), Some(hb)) => {
            let ia = choose|k: int| 0 <= k < b.len() && b[k] == ha.prim;
            let ib = choose|k: int| 0 <= k < a.len() && a[k] == hb.prim;
            assert(Sphere::spec_hit(roots(b[ia]), t_min, t_max) == Some(ha.t));
            assert(Sphere::spec_hit(roots(a[ib]), t_min, t_max) == Some(hb.t));
            assert(!ha.t.spec_lt(hb.t));
            assert(!hb.t.spec_lt(ha.t));
        },
        (Some(ha), None) => {
            let ia = choose|k: int| 0 <= k < b.len() && b[k] == ha.prim;
            assert(Sphere::spec_hit(roots(b[ia]), t_min, t_max) == Some(ha.t));
        },
        (None, Some(hb)) => {
            let ib = choose|k: int| 0 <= k < a.len() && a[k] == hb.prim;
            assert(Sphere::spec_hit(roots(a[ib]), t_min, t_max) == Some(hb.t));
        },
        (None, None) => {},
    }
}

} // verus!
