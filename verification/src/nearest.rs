//! Why a tree of boxes finds what a scan of the list finds.
//!
//! Both searches are held against the answers that the surfaces give to one
//! ray: where those answers hang together as the answers of surfaces in
//! their boxes do, each search ends at the least parameter at which any
//! surface is hit. Where no two surfaces are hit at that parameter, both end
//! at the same hit, and an image made with the one is an image made with the
//! other.

use crate::aabb::{lemma_inside_transitive, AABB};
use crate::bvh_node::{BVHChild, BVHNode, Walk};
use crate::camera::{ahead, answers_as, has_answer, lemma_exposed_in_a_like_world, CameraData};
use crate::hittable::{answers, boxes, last_hit, window, Bounded, HitRecord, Hittable, HittableList};
use crate::interval::Interval;
use crate::material::Material;
use crate::quad::Quad;
use crate::ray::Ray;
use crate::scalar::{Arithmetic, Chance, Functions, Scalar};
use crate::sphere::Sphere;
use crate::vector::Color;
use std::sync::Arc;
use vstd::prelude::*;

verus! {

/// Where the surfaces are hit by one ray: `geometry(p, m)` is the parameter
/// at which the surface `p` is hit when it is asked for a hit no farther
/// than `m`, and none where it then answers with none.
pub type Geometry<P> = spec_fn(P, Scalar) -> Option<Scalar>;

/// The parameter of a hit.
pub open spec fn reach(out: Option<HitRecord>) -> Option<Scalar> {
    match out {
        Some(h) => Some(h.t),
        None => None,
    }
}

/// Whenever the surface is asked, it is hit where `geometry` says. Of the
/// rest of a hit nothing is asked.
pub open spec fn conforms<A: Arithmetic, P: Hittable<A>>(
    p: P,
    ray: &Ray,
    t: Interval,
    fpu: &A,
    geometry: Geometry<P>,
) -> bool {
    forall|m: Scalar, out: Option<HitRecord>| #[trigger]
        answers(&p, ray, t.up_to(m), fpu, out) ==> reach(out) == geometry(p, m)
}

/// A hit lies in the interval that was searched.
pub open spec fn in_window<P>(p: P, t: Interval, geometry: Geometry<P>) -> bool {
    forall|m: Scalar|
        (#[trigger] geometry(p, m)) matches Some(s) ==> !s.nan() && t.min.at_most(s) && s.at_most(m)
}

/// A search that ends earlier finds the same hit, or none where the hit
/// lies at its end or beyond; and it finds none where a longer search
/// found none.
pub open spec fn consistent<P>(p: P, geometry: Geometry<P>) -> bool {
    forall|m1: Scalar, m2: Scalar|
        #![trigger geometry(p, m1), geometry(p, m2)]
        m2.at_most(m1) ==> match geometry(p, m1) {
            Some(s) => geometry(p, m2) == Some(s) || (geometry(p, m2) is None && m2.at_most(s)),
            None => geometry(p, m2) is None,
        }
}

/// Where the surface is hit, the ray crosses every box that encloses the
/// box of the surface.
pub open spec fn boxed<A: Arithmetic, P: Hittable<A>>(
    p: P,
    ray: &Ray,
    t: Interval,
    fpu: &A,
    geometry: Geometry<P>,
) -> bool {
    forall|m: Scalar, b: AABB, outer: AABB|
        #![trigger geometry(p, m), boxes::<P>(&p, b), b.inside(outer)]
        geometry(p, m) is Some && boxes::<P>(&p, b) && b.inside(outer) ==> outer.crossed_by(
            *ray,
            t.up_to(m),
            fpu,
        )
}

/// The answers of every surface of the list hang together.
pub open spec fn settled<A: Arithmetic, P: Hittable<A>>(
    objects: Seq<Arc<P>>,
    ray: &Ray,
    t: Interval,
    fpu: &A,
    geometry: Geometry<P>,
) -> bool {
    forall|i: int|
        0 <= i < objects.len() ==> {
            &&& conforms(*#[trigger] objects[i], ray, t, fpu, geometry)
            &&& in_window(*objects[i], t, geometry)
            &&& consistent(*objects[i], geometry)
            &&& boxed(*objects[i], ray, t, fpu, geometry)
        }
}

/// `p` is one of the surfaces.
pub open spec fn listed<P>(objects: Seq<Arc<P>>, p: P) -> bool {
    exists|i: int| 0 <= i < objects.len() && *#[trigger] objects[i] == p
}

/// `out` is the nearest hit no farther than `m` among the first `k`
/// surfaces: none of them is hit nearer, and it is none only where none of
/// them is hit.
pub open spec fn nearest_of_first<P>(
    objects: Seq<Arc<P>>,
    k: int,
    geometry: Geometry<P>,
    m: Scalar,
    out: Option<Scalar>,
) -> bool {
    match out {
        None => forall|i: int| 0 <= i < k ==> (#[trigger] geometry(*objects[i], m)) is None,
        Some(s) => {
            &&& exists|i: int| 0 <= i < k && #[trigger] geometry(*objects[i], m) == Some(s)
            &&& forall|i: int| 0 <= i < k ==> ((#[trigger] geometry(*objects[i], m)) matches Some(g) ==> s.at_most(g))
        },
    }
}

/// `out` is the nearest hit no farther than `m` among the leaves of a tree.
pub open spec fn nearest_below<P>(
    node: &BVHNode<P>,
    geometry: Geometry<P>,
    m: Scalar,
    out: Option<Scalar>,
) -> bool {
    match out {
        None => forall|p: P| #[trigger] node.holds(p) ==> geometry(p, m) is None,
        Some(s) => {
            &&& exists|p: P| #[trigger] node.holds(p) && geometry(p, m) == Some(s)
            &&& forall|p: P| #[trigger] node.holds(p) ==> (geometry(p, m) matches Some(g) ==> s.at_most(g))
        },
    }
}

/// `out` is the nearest hit no farther than `m` of what hangs below a node.
pub open spec fn nearest_under<P>(
    child: &BVHChild<P>,
    geometry: Geometry<P>,
    m: Scalar,
    out: Option<Scalar>,
) -> bool {
    match out {
        None => forall|p: P| #[trigger] child.holds(p) ==> geometry(p, m) is None,
        Some(s) => {
            &&& exists|p: P| #[trigger] child.holds(p) && geometry(p, m) == Some(s)
            &&& forall|p: P| #[trigger] child.holds(p) ==> (geometry(p, m) matches Some(g) ==> s.at_most(g))
        },
    }
}

/// Two answers are hits at the same parameter, or both are none.
pub open spec fn same_parameter(a: Option<HitRecord>, b: Option<HitRecord>) -> bool {
    match (a, b) {
        (Some(g), Some(h)) => g.t.ord() == h.t.ord(),
        (None, None) => true,
        _ => false,
    }
}

/// The laws of a surface that is listed.
pub proof fn lemma_listed_is_settled<A: Arithmetic, P: Hittable<A>>(
    objects: Seq<Arc<P>>,
    ray: &Ray,
    t: Interval,
    fpu: &A,
    geometry: Geometry<P>,
    p: P,
)
    requires
        settled(objects, ray, t, fpu, geometry),
        listed(objects, p),
    ensures
        conforms(p, ray, t, fpu, geometry),
        in_window(p, t, geometry),
        consistent(p, geometry),
        boxed(p, ray, t, fpu, geometry),
{
    let i = choose|i: int| 0 <= i < objects.len() && *#[trigger] objects[i] == p;
}

/// A surface that was asked for a hit no farther than `near` gave the
/// answer `found`. Asked for one no farther than `far`, it gives the same
/// hit, or one at `near` or beyond.
pub proof fn lemma_longer_search<P>(p: P, t: Interval, geometry: Geometry<P>, near: Scalar, far: Scalar)
    requires
        in_window(p, t, geometry),
        consistent(p, geometry),
        near.at_most(far),
    ensures
        geometry(p, near) matches Some(b) ==> geometry(p, far) == Some(b) && b.at_most(near) && !b.nan(),
        geometry(p, near) is None ==> (geometry(p, far) matches Some(g) ==> near.at_most(g)),
{
    assert(near.at_most(far) ==> match geometry(p, far) {
        Some(s) => geometry(p, near) == Some(s) || (geometry(p, near) is None && near.at_most(s)),
        None => geometry(p, near) is None,
    });
}

/// A scan of the list ends at the nearest hit of its surfaces.
pub proof fn lemma_scan_finds_nearest<A: Arithmetic, P: Hittable<A>>(
    list: &HittableList<P>,
    ray: &Ray,
    t: Interval,
    fpu: &A,
    geometry: Geometry<P>,
    trace: Seq<Option<HitRecord>>,
    k: int,
)
    requires
        t.wf(),
        settled(list.objects@, ray, t, fpu, geometry),
        list.scanned(ray, t, fpu, trace),
        0 <= k <= trace.len(),
    ensures
        nearest_of_first(list.objects@, k, geometry, t.max, reach(last_hit(trace, k))),
        last_hit(trace, k) matches Some(h) ==> !h.t.nan() && h.t.at_most(t.max),
    decreases k,
{
    if k > 0 {
        lemma_scan_finds_nearest(list, ray, t, fpu, geometry, trace, k - 1);
        let objects = list.objects@;
        let p = *objects[k - 1];
        let best = last_hit(trace, k - 1);
        let near = window(t, best).max;
        let found = trace[k - 1];
        lemma_listed_is_settled(objects, ray, t, fpu, geometry, p);
        assert(window(t, best) == t.up_to(near));
        lemma_longer_search(p, t, geometry, near, t.max);
        match (found, best) {
            (Some(b), _) => {
                assert forall|i: int| 0 <= i < k implies ((#[trigger] geometry(*objects[i], t.max)) matches Some(
                    g,
                ) ==> b.t.at_most(g)) by {}
            },
            _ => {},
        }
    }
}

/// The box of every node of a sound tree encloses a box of each of its
/// leaves.
pub proof fn lemma_leaf_inside<P: Bounded>(node: &BVHNode<P>, p: P)
    requires
        node.sound(),
        node.holds(p),
    ensures
        exists|b: AABB| #[trigger] boxes::<P>(&p, b) && b.inside(node.bbox),
    decreases node,
{
    let side = if node.left.holds(p) {
        &node.left
    } else {
        &node.right
    };
    match side {
        BVHChild::Object(o) => {
            let b = choose|b: AABB| #[trigger] boxes::<P>(&**o, b) && b.inside(node.bbox);
        },
        BVHChild::Node(n) => {
            lemma_leaf_inside::<P>(n, p);
            let b = choose|b: AABB| #[trigger] boxes::<P>(&p, b) && b.inside(n.bbox);
            lemma_inside_transitive(b, n.bbox, node.bbox);
        },
    }
}

/// What a walk through a child ends with is the nearest hit below it.
pub proof fn lemma_walk_under<A: Arithmetic, P: Hittable<A>>(
    child: &BVHChild<P>,
    objects: Seq<Arc<P>>,
    ray: &Ray,
    t: Interval,
    m: Scalar,
    fpu: &A,
    geometry: Geometry<P>,
    walk: Walk,
    outer: AABB,
)
    requires
        t.wf(),
        !m.nan(),
        settled(objects, ray, t, fpu, geometry),
        forall|p: P| #[trigger] child.holds(p) ==> listed(objects, p),
        child.sound(outer),
        child.follows(ray, t.up_to(m), fpu, walk),
    ensures
        nearest_under(child, geometry, m, reach(walk.result())),
        walk.result() matches Some(h) ==> !h.t.nan() && h.t.at_most(m),
    decreases child, 0nat,
{
    match child {
        BVHChild::Object(o) => {
            let p = **o;
            assert(child.holds(p));
            lemma_listed_is_settled(objects, ray, t, fpu, geometry, p);
        },
        BVHChild::Node(n) => {
            assert forall|p: P| #[trigger] n.holds(p) implies listed(objects, p) by {
                assert(child.holds(p));
            }
            lemma_walk_finds_nearest(n, objects, ray, t, m, fpu, geometry, walk);
            assert forall|p: P| child.holds(p) == n.holds(p) by {}
            if let Some(h) = walk.result() {
                let p = choose|p: P| #[trigger] n.holds(p) && geometry(p, m) == Some(h.t);
            }
        },
    }
}

/// What a walk through a tree ends with is the nearest hit among its
/// leaves.
pub proof fn lemma_walk_finds_nearest<A: Arithmetic, P: Hittable<A>>(
    node: &BVHNode<P>,
    objects: Seq<Arc<P>>,
    ray: &Ray,
    t: Interval,
    m: Scalar,
    fpu: &A,
    geometry: Geometry<P>,
    walk: Walk,
)
    requires
        t.wf(),
        !m.nan(),
        settled(objects, ray, t, fpu, geometry),
        forall|p: P| #[trigger] node.holds(p) ==> listed(objects, p),
        node.sound(),
        node.follows(ray, t.up_to(m), fpu, walk),
    ensures
        nearest_below(node, geometry, m, reach(walk.result())),
        walk.result() matches Some(h) ==> !h.t.nan() && h.t.at_most(m),
    decreases node, 1nat,
{
    if !node.bbox.crossed_by(*ray, t.up_to(m), fpu) {
        assert forall|p: P| #[trigger] node.holds(p) implies geometry(p, m) is None by {
            if geometry(p, m) is Some {
                lemma_leaf_inside::<P>(node, p);
                let b = choose|b: AABB| #[trigger] boxes::<P>(&p, b) && b.inside(node.bbox);
                lemma_listed_is_settled(objects, ray, t, fpu, geometry, p);
            }
        }
    } else {
        let wl = *walk->Both_0;
        let wr = *walk->Both_1;
        let l = wl.result();
        let r = wr.result();
        assert forall|p: P| #[trigger] node.left.holds(p) implies listed(objects, p) by {
            assert(node.holds(p));
        }
        assert forall|p: P| #[trigger] node.right.holds(p) implies listed(objects, p) by {
            assert(node.holds(p));
        }
        lemma_walk_under(&node.left, objects, ray, t, m, fpu, geometry, wl, node.bbox);
        let near = window(t.up_to(m), l).max;
        lemma_walk_under(&node.right, objects, ray, t, near, fpu, geometry, wr, node.bbox);
        assert forall|q: P| #[trigger] node.right.holds(q) implies (geometry(q, near) matches Some(b)
            ==> geometry(q, m) == Some(b) && b.at_most(near) && !b.nan()) && (geometry(q, near) is None
            ==> (geometry(q, m) matches Some(g) ==> near.at_most(g))) by {
            lemma_listed_is_settled(objects, ray, t, fpu, geometry, q);
            lemma_longer_search(q, t, geometry, near, m);
        }
        assert forall|p: P| #[trigger] node.left.holds(p) implies (geometry(p, m) matches Some(g) ==> !g.nan()) by {
            lemma_listed_is_settled(objects, ray, t, fpu, geometry, p);
        }
        let out = walk.result();
        match out {
            None => {
                assert forall|p: P| #[trigger] node.holds(p) implies geometry(p, m) is None by {
                    if !node.left.holds(p) {
                        assert(node.right.holds(p));
                    }
                }
            },
            Some(h) => {
                if out == r && r is Some {
                    let q = choose|q: P| #[trigger] node.right.holds(q) && geometry(q, near) == Some(h.t);
                    assert(node.holds(q) && geometry(q, m) == Some(h.t));
                } else {
                    let p = choose|p: P| #[trigger] node.left.holds(p) && geometry(p, m) == Some(h.t);
                    assert(node.holds(p) && geometry(p, m) == Some(h.t));
                }
                assert forall|p: P| #[trigger] node.holds(p) implies (geometry(p, m) matches Some(g)
                    ==> h.t.at_most(g)) by {
                    if !node.left.holds(p) {
                        assert(node.right.holds(p));
                    }
                }
            },
        }
    }
}

/// A tree over the surfaces of a list and a scan of that list find hits at
/// the same parameter of the ray, or both find none.
///
/// This holds of every ray to which the surfaces answer as surfaces in
/// their boxes do: each hit at a parameter that depends only on how far the
/// surface is asked to look, inside the interval searched, and the same on
/// a shorter search unless it lies at the end of that search or beyond; and
/// with every box around the surface's own box crossed wherever the surface
/// is hit. Two surfaces may be hit at one parameter, and then the two
/// searches may end at different ones of them.
pub proof fn lemma_tree_agrees_with_list<A: Arithmetic, P: Hittable<A>>(
    list: &HittableList<P>,
    tree: &BVHNode<P>,
    ray: &Ray,
    t: Interval,
    fpu: &A,
    geometry: Geometry<P>,
    via_list: Option<HitRecord>,
    via_tree: Option<HitRecord>,
)
    requires
        t.wf(),
        forall|p: P| tree.holds(p) <==> listed(list.objects@, p),
        tree.sound(),
        settled(list.objects@, ray, t, fpu, geometry),
        list.outcome(ray, t, fpu, via_list),
        tree.outcome(ray, t, fpu, via_tree),
    ensures
        same_parameter(via_list, via_tree),
        via_list is None <==> via_tree is None,
{
    let objects = list.objects@;
    let trace = choose|trace: Seq<Option<HitRecord>>|
        #[trigger] list.scanned(ray, t, fpu, trace) && via_list == last_hit(trace, trace.len() as int);
    lemma_scan_finds_nearest(list, ray, t, fpu, geometry, trace, trace.len() as int);
    let walk = choose|walk: Walk| #[trigger] tree.follows(ray, t, fpu, walk) && walk.result() == via_tree;
    lemma_walk_finds_nearest(tree, objects, ray, t, t.max, fpu, geometry, walk);
    let n = objects.len() as int;
    match (via_list, via_tree) {
        (Some(g), Some(h)) => {
            let i = choose|i: int| 0 <= i < n && #[trigger] geometry(*objects[i], t.max) == Some(g.t);
            assert(tree.holds(*objects[i]));
            let p = choose|p: P| #[trigger] tree.holds(p) && geometry(p, t.max) == Some(h.t);
            let j = choose|j: int| 0 <= j < objects.len() && *#[trigger] objects[j] == p;
        },
        (Some(g), None) => {
            let i = choose|i: int| 0 <= i < n && #[trigger] geometry(*objects[i], t.max) == Some(g.t);
            assert(tree.holds(*objects[i]));
        },
        (None, Some(h)) => {
            let p = choose|p: P| #[trigger] tree.holds(p) && geometry(p, t.max) == Some(h.t);
        },
        (None, None) => {},
    }
}

/// The surface has one hit to give to the ray, however far it is asked to
/// look: two answers that are hits are the same hit.
pub open spec fn single<A: Arithmetic, P: Hittable<A>>(p: P, ray: &Ray, t: Interval, fpu: &A) -> bool {
    forall|m1: Scalar, m2: Scalar, a: HitRecord, b: HitRecord|
        #![trigger answers(&p, ray, t.up_to(m1), fpu, Some(a)), answers(&p, ray, t.up_to(m2), fpu, Some(b))]
        answers(&p, ray, t.up_to(m1), fpu, Some(a)) && answers(&p, ray, t.up_to(m2), fpu, Some(b)) ==> a == b
}

/// No two of the surfaces are hit at the same parameter.
pub open spec fn apart<P>(objects: Seq<Arc<P>>, geometry: Geometry<P>) -> bool {
    forall|i: int, j: int, m1: Scalar, m2: Scalar|
        #![trigger geometry(*objects[i], m1), geometry(*objects[j], m2)]
        0 <= i < objects.len() && 0 <= j < objects.len() ==> match (
            geometry(*objects[i], m1),
            geometry(*objects[j], m2),
        ) {
            (Some(a), Some(b)) => a.ord() == b.ord() ==> *objects[i] == *objects[j],
            _ => true,
        }
}

/// The hit that a scan ends with is the answer of one of the surfaces.
pub proof fn lemma_scan_ends_at_an_answer<A: Arithmetic, P: Hittable<A>>(
    list: &HittableList<P>,
    ray: &Ray,
    t: Interval,
    fpu: &A,
    trace: Seq<Option<HitRecord>>,
    k: int,
)
    requires
        list.scanned(ray, t, fpu, trace),
        0 <= k <= trace.len(),
        last_hit(trace, k) is Some,
    ensures
        exists|i: int, m: Scalar|
            0 <= i < k && #[trigger] answers(&*list.objects@[i], ray, t.up_to(m), fpu, last_hit(trace, k)),
    decreases k,
{
    if trace[k - 1] is Some {
        let m = window(t, last_hit(trace, k - 1)).max;
        assert(window(t, last_hit(trace, k - 1)) == t.up_to(m));
    } else {
        lemma_scan_ends_at_an_answer(list, ray, t, fpu, trace, k - 1);
        let (i, m) = choose|i: int, m: Scalar|
            0 <= i < k - 1 && #[trigger] answers(&*list.objects@[i], ray, t.up_to(m), fpu, last_hit(trace, k - 1));
    }
}

/// The hit that a walk through a child ends with is the answer of a
/// surface below it.
pub proof fn lemma_walk_ends_under<A: Arithmetic, P: Hittable<A>>(
    child: &BVHChild<P>,
    ray: &Ray,
    t: Interval,
    m: Scalar,
    fpu: &A,
    walk: Walk,
)
    requires
        child.follows(ray, t.up_to(m), fpu, walk),
        walk.result() is Some,
    ensures
        exists|p: P, n: Scalar| child.holds(p) && #[trigger] answers(&p, ray, t.up_to(n), fpu, walk.result()),
    decreases child, 0nat,
{
    match child {
        BVHChild::Object(o) => {
        },
        BVHChild::Node(node) => {
            lemma_walk_ends_at_an_answer(node, ray, t, m, fpu, walk);
            let (p, n) = choose|p: P, n: Scalar|
                node.holds(p) && #[trigger] answers(&p, ray, t.up_to(n), fpu, walk.result());
        },
    }
}

/// The hit that a walk through a tree ends with is the answer of one of
/// its leaves.
pub proof fn lemma_walk_ends_at_an_answer<A: Arithmetic, P: Hittable<A>>(
    node: &BVHNode<P>,
    ray: &Ray,
    t: Interval,
    m: Scalar,
    fpu: &A,
    walk: Walk,
)
    requires
        node.follows(ray, t.up_to(m), fpu, walk),
        walk.result() is Some,
    ensures
        exists|p: P, n: Scalar| node.holds(p) && #[trigger] answers(&p, ray, t.up_to(n), fpu, walk.result()),
    decreases node, 1nat,
{
    let wl = *walk->Both_0;
    let wr = *walk->Both_1;
    if walk.result() == wr.result() {
        let near = window(t.up_to(m), wl.result()).max;
        lemma_walk_ends_under(&node.right, ray, t, near, fpu, wr);
        let (p, n) = choose|p: P, n: Scalar|
            node.right.holds(p) && #[trigger] answers(&p, ray, t.up_to(n), fpu, wr.result());
    } else {
        lemma_walk_ends_under(&node.left, ray, t, m, fpu, wl);
        let (p, n) = choose|p: P, n: Scalar|
            node.left.holds(p) && #[trigger] answers(&p, ray, t.up_to(n), fpu, wl.result());
    }
}

/// A tree over the surfaces of a list and a scan of that list find the same
/// hit, or both find none.
///
/// This asks more of the surfaces than it takes for the two to agree on
/// where the ray is hit: that each has one hit only to give to the ray, and
/// that no two of them are hit at the same parameter. Of two surfaces hit
/// at one parameter a scan keeps the first in the list, and a tree the
/// first in its own order.
pub proof fn lemma_tree_and_list_find_the_same_hit<A: Arithmetic, P: Hittable<A>>(
    list: &HittableList<P>,
    tree: &BVHNode<P>,
    ray: &Ray,
    t: Interval,
    fpu: &A,
    geometry: Geometry<P>,
    via_list: Option<HitRecord>,
    via_tree: Option<HitRecord>,
)
    requires
        t.wf(),
        forall|p: P| tree.holds(p) <==> listed(list.objects@, p),
        tree.sound(),
        settled(list.objects@, ray, t, fpu, geometry),
        forall|i: int| 0 <= i < list.objects@.len() ==> single(*#[trigger] list.objects@[i], ray, t, fpu),
        apart(list.objects@, geometry),
        list.outcome(ray, t, fpu, via_list),
        tree.outcome(ray, t, fpu, via_tree),
    ensures
        via_list == via_tree,
{
    lemma_tree_agrees_with_list(list, tree, ray, t, fpu, geometry, via_list, via_tree);
    if via_list is Some {
        let objects = list.objects@;
        let trace = choose|trace: Seq<Option<HitRecord>>|
            #[trigger] list.scanned(ray, t, fpu, trace) && via_list == last_hit(trace, trace.len() as int);
        lemma_scan_ends_at_an_answer(list, ray, t, fpu, trace, trace.len() as int);
        let (i, m) = choose|i: int, m: Scalar|
            0 <= i < trace.len() && #[trigger] answers(&*objects[i], ray, t.up_to(m), fpu, via_list);
        let walk = choose|walk: Walk| #[trigger] tree.follows(ray, t, fpu, walk) && walk.result() == via_tree;
        lemma_walk_ends_at_an_answer(tree, ray, t, t.max, fpu, walk);
        let (p, n) = choose|p: P, n: Scalar|
            tree.holds(p) && #[trigger] answers(&p, ray, t.up_to(n), fpu, via_tree);
        let j = choose|j: int| 0 <= j < objects.len() && *#[trigger] objects[j] == p;
        assert(reach(via_list) == geometry(*objects[i], m));
        assert(reach(via_tree) == geometry(*objects[j], n));
        assert(*objects[i] == *objects[j]);
    }
}

/// The surfaces answer every ray that is sent ahead so that a tree over
/// them and a scan of them find the same hit: see
/// [`lemma_tree_and_list_find_the_same_hit`].
pub open spec fn told_apart<A: Arithmetic, P: Hittable<A>>(
    objects: Seq<Arc<P>>,
    fpu: &A,
    geometry: spec_fn(Ray) -> Geometry<P>,
) -> bool {
    forall|ray: Ray|
        {
            &&& settled(objects, &ray, ahead(), fpu, #[trigger] geometry(ray))
            &&& forall|i: int| 0 <= i < objects.len() ==> single(*#[trigger] objects[i], &ray, ahead(), fpu)
            &&& apart(objects, geometry(ray))
        }
}

/// A tree over the surfaces of a list answers a ray as a scan of the list
/// may, where the scan has an answer to every ray and the two find the
/// same hit.
pub proof fn lemma_tree_answers_as_list<A: Arithmetic, P: Hittable<A>>(
    list: &HittableList<P>,
    tree: &BVHNode<P>,
    fpu: &A,
    geometry: spec_fn(Ray) -> Geometry<P>,
)
    requires
        forall|p: P| tree.holds(p) <==> listed(list.objects@, p),
        tree.sound(),
        told_apart(list.objects@, fpu, geometry),
        forall|ray: Ray| #[trigger] has_answer(list, ray, fpu),
    ensures
        answers_as(tree, list, fpu),
{
    assert forall|ray: Ray, out: Option<HitRecord>| #[trigger]
        answers(tree, &ray, ahead(), fpu, out) implies answers(list, &ray, ahead(), fpu, out) by {
        assert(has_answer(list, ray, fpu));
        let via_list = choose|via_list: Option<HitRecord>| #[trigger] answers(list, &ray, ahead(), fpu, via_list);
        lemma_tree_and_list_find_the_same_hit(list, tree, &ray, ahead(), fpu, geometry(ray), via_list, out);
    }
}

/// A scan of a list answers a ray as a tree over the surfaces of the list
/// may, where the tree has an answer to every ray and the two find the
/// same hit.
pub proof fn lemma_list_answers_as_tree<A: Arithmetic, P: Hittable<A>>(
    list: &HittableList<P>,
    tree: &BVHNode<P>,
    fpu: &A,
    geometry: spec_fn(Ray) -> Geometry<P>,
)
    requires
        forall|p: P| tree.holds(p) <==> listed(list.objects@, p),
        tree.sound(),
        told_apart(list.objects@, fpu, geometry),
        forall|ray: Ray| #[trigger] has_answer(tree, ray, fpu),
    ensures
        answers_as(list, tree, fpu),
{
    assert forall|ray: Ray, out: Option<HitRecord>| #[trigger]
        answers(list, &ray, ahead(), fpu, out) implies answers(tree, &ray, ahead(), fpu, out) by {
        assert(has_answer(tree, ray, fpu));
        let via_tree = choose|via_tree: Option<HitRecord>| #[trigger] answers(tree, &ray, ahead(), fpu, via_tree);
        lemma_tree_and_list_find_the_same_hit(list, tree, &ray, ahead(), fpu, geometry(ray), out, via_tree);
    }
}

/// A scene gives the same image as a list of its surfaces and as a tree
/// over them: a colour that a pixel may get from the one it may get from
/// the other.
///
/// This holds where both have an answer to every ray, and where the
/// surfaces answer every ray so that the two find the same hit. The colour
/// of a pixel is not a function of the scene, since the rays through it are
/// drawn by chance: what is the same is which colours it may get.
pub proof fn lemma_tree_and_list_give_the_same_image<A: Arithmetic + Chance, P: Hittable<A>, M: Material<A>>(
    camera: &CameraData,
    list: &HittableList<P>,
    tree: &BVHNode<P>,
    materials: Seq<M>,
    fpu: &A,
    geometry: spec_fn(Ray) -> Geometry<P>,
    i: i32,
    j: i32,
    out: Color,
)
    requires
        forall|p: P| tree.holds(p) <==> listed(list.objects@, p),
        tree.sound(),
        told_apart(list.objects@, fpu, geometry),
        forall|ray: Ray| #[trigger] has_answer(list, ray, fpu),
        forall|ray: Ray| #[trigger] has_answer(tree, ray, fpu),
    ensures
        camera.exposes(list, materials, i, j, fpu, out) <==> camera.exposes(tree, materials, i, j, fpu, out),
{
    lemma_tree_answers_as_list(list, tree, fpu, geometry);
    lemma_list_answers_as_tree(list, tree, fpu, geometry);
    if camera.exposes(list, materials, i, j, fpu, out) {
        lemma_exposed_in_a_like_world(camera, list, tree, materials, i, j, fpu, out);
    }
    if camera.exposes(tree, materials, i, j, fpu, out) {
        lemma_exposed_in_a_like_world(camera, tree, list, materials, i, j, fpu, out);
    }
}

/// Where a ray hits a parallelogram, as a function of how far it is asked
/// to look.
pub open spec fn quad_geometry<A: Arithmetic>(ray: Ray, t: Interval, fpu: &A) -> Geometry<Quad> {
    |q: Quad, m: Scalar| reach(q.struck(ray, t.up_to(m), fpu))
}

/// The answers of a parallelogram hang together: it is hit at a parameter
/// that depends on the search alone, inside the interval searched, and the
/// same on a shorter search unless it lies beyond the end of that search.
pub proof fn lemma_quad_answers_hang_together<A: Arithmetic>(q: Quad, ray: &Ray, t: Interval, fpu: &A)
    ensures
        conforms(q, ray, t, fpu, quad_geometry(*ray, t, fpu)),
        in_window(q, t, quad_geometry(*ray, t, fpu)),
        consistent(q, quad_geometry(*ray, t, fpu)),
{
    let geometry = quad_geometry(*ray, t, fpu);
    assert forall|m: Scalar, out: Option<HitRecord>| #[trigger]
        answers(&q, ray, t.up_to(m), fpu, out) implies reach(out) == geometry(q, m) by {}
    assert forall|m: Scalar|
        ((#[trigger] geometry(q, m)) matches Some(s) ==> !s.nan() && t.min.at_most(s) && s.at_most(m)) by {}
    assert forall|m1: Scalar, m2: Scalar|
        #![trigger geometry(q, m1), geometry(q, m2)]
        m2.at_most(m1) implies match geometry(q, m1) {
            Some(s) => geometry(q, m2) == Some(s) || (geometry(q, m2) is None && m2.at_most(s)),
            None => geometry(q, m2) is None,
        } by {}
}

/// Where a ray hits a sphere, as a function of how far it is asked to look.
pub open spec fn sphere_geometry<A: Arithmetic>(ray: Ray, t: Interval, fpu: &A) -> Geometry<Sphere> {
    |s: Sphere, m: Scalar| s.root(ray, t.up_to(m), fpu)
}

/// The answers of a sphere hang together as those of a parallelogram do,
/// where the arithmetic gives the two solutions of its equation in order:
/// with the farther one below the nearer, a shorter search could end at a
/// hit that a longer one passed over.
pub proof fn lemma_sphere_answers_hang_together<A: Arithmetic + Functions>(
    s: Sphere,
    ray: &Ray,
    t: Interval,
    fpu: &A,
)
    requires
        s.roots_in_order(*ray, fpu),
    ensures
        conforms(s, ray, t, fpu, sphere_geometry(*ray, t, fpu)),
        in_window(s, t, sphere_geometry(*ray, t, fpu)),
        consistent(s, sphere_geometry(*ray, t, fpu)),
{
    let geometry = sphere_geometry(*ray, t, fpu);
    assert forall|m: Scalar, out: Option<HitRecord>| #[trigger]
        answers(&s, ray, t.up_to(m), fpu, out) implies reach(out) == geometry(s, m) by {}
    assert forall|m: Scalar|
        ((#[trigger] geometry(s, m)) matches Some(r) ==> !r.nan() && t.min.at_most(r) && r.at_most(m)) by {}
    assert forall|m1: Scalar, m2: Scalar|
        #![trigger geometry(s, m1), geometry(s, m2)]
        m2.at_most(m1) implies match geometry(s, m1) {
            Some(r) => geometry(s, m2) == Some(r) || (geometry(s, m2) is None && m2.at_most(r)),
            None => geometry(s, m2) is None,
        } by {}
}

} // verus!
