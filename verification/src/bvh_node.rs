//! The bounding volume hierarchy: a binary tree of boxes over the surfaces
//! of a list, which spares a ray the surfaces whose boxes it misses.

use crate::aabb::AABB;
use crate::hittable::{answers, boxes, window, Bounded, HitRecord, Hittable, HittableList};
use crate::interval::Interval;
use crate::ray::Ray;
use crate::scalar::Arithmetic;
use std::sync::Arc;
use vstd::prelude::*;

verus! {

/// What hangs below a node: a surface of the list, or a smaller tree.
pub enum BVHChild<P> {
    Object(Arc<P>),
    Node(Box<BVHNode<P>>),
}

/// A node of the tree. It has two children and the box that was made to
/// enclose whatever lies below it. A tree over a single surface has that
/// surface as both children.
pub struct BVHNode<P> {
    pub left: BVHChild<P>,
    pub right: BVHChild<P>,
    pub bbox: AABB,
}

/// The union of the first `k` boxes, begun with the empty box.
pub open spec fn union_all(seen: Seq<AABB>, k: int) -> AABB
    decreases k,
{
    if k <= 0 {
        AABB::nothing()
    } else {
        AABB::union_of(union_all(seen, k - 1), seen[k - 1])
    }
}

/// `seen` holds one box of each surface from `start` up to `end`, in order.
pub open spec fn observed<P: Bounded>(
    objects: Seq<Arc<P>>,
    start: int,
    end: int,
    seen: Seq<AABB>,
) -> bool {
    &&& seen.len() == end - start
    &&& forall|k: int| 0 <= k < seen.len() ==> boxes::<P>(&*objects[start + k], #[trigger] seen[k])
}

/// Each surface from `start` up to `end` has one box only, and no bound of
/// it is NaN.
pub open spec fn steady<P: Bounded>(objects: Seq<Arc<P>>, start: int, end: int) -> bool {
    forall|i: int, b: AABB, c: AABB|
        start <= i < end && #[trigger] boxes::<P>(&*objects[i], b) && #[trigger] boxes::<P>(
            &*objects[i],
            c,
        ) ==> b.wf() && b == c
}

/// `pairs` are the surfaces from `start` up to `end` in the order in which a
/// node hands them to its two subtrees: each pair holds where a box of a
/// surface begins on the axis, as a key, and the place of the surface after
/// `start`. The pairs are in ascending order, surfaces with equal keys in
/// the order of their places, and every surface has one pair.
pub open spec fn sorted_along<P: Bounded>(
    objects: Seq<Arc<P>>,
    start: int,
    end: int,
    axis: int,
    pairs: Seq<(i64, usize)>,
) -> bool {
    &&& pairs.len() == end - start
    &&& pairs.no_duplicates()
    &&& forall|i: int, j: int| 0 <= i < j < pairs.len() ==> pair_le(pairs[i], pairs[j])
    &&& forall|k: int|
        0 <= k < pairs.len() ==> (#[trigger] pairs[k]).1 < end - start && keyed(
            objects[start + pairs[k].1],
            axis,
            pairs[k].0 as int,
        )
    &&& forall|place: int| 0 <= place < end - start ==> #[trigger] has_place(pairs, place)
}

/// `key` is where a box of the surface begins on the axis.
pub open spec fn keyed<P: Bounded>(object: Arc<P>, axis: int, key: int) -> bool {
    exists|b: AABB| #[trigger] boxes::<P>(&*object, b) && key == b.axis(axis).min.ord()
}

/// One of the pairs holds the place.
pub open spec fn has_place(pairs: Seq<(i64, usize)>, place: int) -> bool {
    exists|k: int| 0 <= k < pairs.len() && (#[trigger] pairs[k]).1 == place
}

/// The child holds the surfaces of the pairs from `from` up to `to`, and no
/// others.
pub open spec fn holds_range<P>(
    child: BVHChild<P>,
    objects: Seq<Arc<P>>,
    start: int,
    pairs: Seq<(i64, usize)>,
    from: int,
    to: int,
) -> bool {
    forall|p: P| child.holds(p) <==> exists|k: int| from <= k < to && *#[trigger] objects[start + pairs[k].1] == p
}

/// The union of the first `k` boxes does not depend on the boxes after them.
pub proof fn lemma_union_all_prefix(a: Seq<AABB>, b: Seq<AABB>, k: int)
    requires
        0 <= k <= a.len(),
        k <= b.len(),
        forall|i: int| 0 <= i < k ==> a[i] == b[i],
    ensures
        union_all(a, k) == union_all(b, k),
    decreases k,
{
    if k > 0 {
        lemma_union_all_prefix(a, b, k - 1);
    }
}

/// The union of boxes without NaN encloses each of them.
pub proof fn lemma_union_all_encloses(seen: Seq<AABB>, n: int)
    requires
        0 <= n <= seen.len(),
        forall|k: int| 0 <= k < n ==> (#[trigger] seen[k]).wf(),
    ensures
        union_all(seen, n).wf(),
        forall|k: int| 0 <= k < n ==> (#[trigger] seen[k]).inside(union_all(seen, n)),
    decreases n,
{
    if n > 0 {
        lemma_union_all_encloses(seen, n - 1);
        let before = union_all(seen, n - 1);
        crate::aabb::lemma_union_encloses(before, seen[n - 1]);
        assert forall|k: int| 0 <= k < n implies (#[trigger] seen[k]).inside(union_all(seen, n)) by {
            if k < n - 1 {
                crate::aabb::lemma_inside_transitive(seen[k], before, union_all(seen, n));
            }
        }
    }
}

/// The union of boxes that all lie inside a box lies inside it too.
pub proof fn lemma_union_all_least(seen: Seq<AABB>, n: int, outer: AABB)
    requires
        0 <= n <= seen.len(),
        outer.wf(),
        forall|k: int| 0 <= k < n ==> (#[trigger] seen[k]).wf() && seen[k].inside(outer),
    ensures
        union_all(seen, n).inside(outer),
    decreases n,
{
    if n > 0 {
        lemma_union_all_least(seen, n - 1, outer);
        lemma_union_all_encloses(seen, n - 1);
        crate::aabb::lemma_union_encloses(union_all(seen, n - 1), seen[n - 1]);
    }
}

/// Where two boxes lie inside the union of some boxes, and each of those
/// lies inside one of the two, the union of the two is the union of them
/// all, as numbers.
pub proof fn lemma_union_of_halves(seen: Seq<AABB>, l: AABB, r: AABB)
    requires
        l.wf(),
        r.wf(),
        forall|k: int| 0 <= k < seen.len() ==> (#[trigger] seen[k]).wf() && (seen[k].inside(l) || seen[k].inside(r)),
        l.inside(union_all(seen, seen.len() as int)),
        r.inside(union_all(seen, seen.len() as int)),
    ensures
        union_all(seen, seen.len() as int).coincides(AABB::union_of(l, r)),
{
    let both = AABB::union_of(l, r);
    crate::aabb::lemma_union_encloses(l, r);
    assert forall|k: int| 0 <= k < seen.len() implies (#[trigger] seen[k]).wf() && seen[k].inside(both) by {
        if seen[k].inside(l) {
            crate::aabb::lemma_inside_transitive(seen[k], l, both);
        } else {
            crate::aabb::lemma_inside_transitive(seen[k], r, both);
        }
    }
    lemma_union_all_least(seen, seen.len() as int, both);
    crate::aabb::lemma_inside_both_ways(union_all(seen, seen.len() as int), both);
}

/// Of two answers the one with the smaller parameter; the second where the
/// first is not strictly nearer.
pub open spec fn nearer(l: Option<HitRecord>, r: Option<HitRecord>) -> Option<HitRecord> {
    match (l, r) {
        (Some(a), Some(b)) => if a.t.below(b.t) {
            l
        } else {
            r
        },
        (Some(_), None) => l,
        (None, _) => r,
    }
}

/// What happened when a ray was sent down a tree: the answer of a surface,
/// a box that the ray missed, or what happened below the two children of a
/// node whose box it crossed.
pub enum Walk {
    Answer(Option<HitRecord>),
    Missed,
    Both(Box<Walk>, Box<Walk>),
}

impl Walk {
    /// The hit that the walk ends with: the nearer one at every node.
    pub open spec fn result(self) -> Option<HitRecord>
        decreases self,
    {
        match self {
            Walk::Answer(out) => out,
            Walk::Missed => None,
            Walk::Both(l, r) => nearer(l.result(), r.result()),
        }
    }
}

/// The order of the pairs by which surfaces are sorted: by key, and by
/// position among equal keys.
pub open spec fn pair_le(a: (i64, usize), b: (i64, usize)) -> bool {
    a.0 < b.0 || (a.0 == b.0 && a.1 <= b.1)
}

/// `<[T]>::sort` of std, on pairs of integers: afterwards the vector holds
/// the same pairs as before, in ascending order, where pairs are compared by
/// their first members and, those being equal, by their second.
#[verifier::external_body]
fn sort_pairs(v: &mut Vec<(i64, usize)>)
    ensures
        final(v)@.to_multiset() == old(v)@.to_multiset(),
        forall|i: int, j: int| 0 <= i < j < final(v)@.len() ==> pair_le(final(v)@[i], final(v)@[j]),
{
    v.sort();
}

/// `Arc::clone` of std: a second pointer to the same surface.
#[verifier::external_body]
fn share<P>(object: &Arc<P>) -> (r: Arc<P>)
    ensures
        r == *object,
{
    Arc::clone(object)
}

impl<P> BVHChild<P> {
    /// `p` is this surface, or a leaf of this tree.
    pub open spec fn holds(&self, p: P) -> bool
        decreases self,
    {
        match self {
            BVHChild::Object(o) => **o == p,
            BVHChild::Node(n) => n.holds(p),
        }
    }

    /// Every box in the child lies inside `outer`.
    pub open spec fn sound(&self, outer: AABB) -> bool where P: Bounded
        decreases self,
    {
        match self {
            BVHChild::Object(o) => exists|b: AABB| #[trigger] boxes::<P>(&**o, b) && b.inside(outer),
            BVHChild::Node(n) => n.sound() && n.bbox.inside(outer),
        }
    }

    /// `b` is the box of the child: a box that the surface gives, or the
    /// box of the node.
    pub open spec fn boxed_by(&self, b: AABB) -> bool where P: Bounded {
        match self {
            BVHChild::Object(o) => boxes::<P>(&**o, b),
            BVHChild::Node(n) => n.bbox == b,
        }
    }

    /// Every node in the child has the union of its children's boxes as its
    /// box.
    pub open spec fn joined(&self) -> bool where P: Bounded
        decreases self,
    {
        match self {
            BVHChild::Object(_) => true,
            BVHChild::Node(n) => n.joined(),
        }
    }

    /// `walk` is a way the ray may have gone through the child, searched
    /// within `t`.
    pub open spec fn follows<A: Arithmetic>(&self, ray: &Ray, t: Interval, fpu: &A, walk: Walk) -> bool where
        P: Hittable<A>,

        decreases self,
    {
        match self {
            BVHChild::Object(o) => walk is Answer && answers(&**o, ray, t, fpu, walk->Answer_0),
            BVHChild::Node(n) => n.follows(ray, t, fpu, walk),
        }
    }
}

impl<P> BVHNode<P> {
    /// `p` is one of the surfaces at the leaves of the tree.
    pub open spec fn holds(&self, p: P) -> bool
        decreases self,
    {
        self.left.holds(p) || self.right.holds(p)
    }

    /// No box of the tree holds a NaN, and every node's box encloses the
    /// boxes of its two children.
    pub open spec fn sound(&self) -> bool where P: Bounded
        decreases self,
    {
        self.bbox.wf() && self.left.sound(self.bbox) && self.right.sound(self.bbox)
    }

    /// The box of the node is the union of the boxes of its two children.
    /// The two are compared as numbers: which of two zeros of opposite sign
    /// a union keeps depends on the order in which boxes were joined.
    pub open spec fn spans(&self) -> bool where P: Bounded {
        exists|l: AABB, r: AABB|
            #![trigger self.left.boxed_by(l), self.right.boxed_by(r)]
            self.left.boxed_by(l) && self.right.boxed_by(r) && self.bbox.coincides(AABB::union_of(l, r))
    }

    /// At every node of the tree, the box is the union of the boxes of the
    /// two children.
    pub open spec fn joined(&self) -> bool where P: Bounded
        decreases self,
    {
        self.spans() && self.left.joined() && self.right.joined()
    }

    /// `walk` is a way the ray may have gone through the tree, searched
    /// within `t`. Where the ray misses the box of a node, it goes no
    /// further. Elsewhere it goes through the left child, and then through
    /// the right child in search of a hit nearer than the left one.
    pub open spec fn follows<A: Arithmetic>(&self, ray: &Ray, t: Interval, fpu: &A, walk: Walk) -> bool where
        P: Hittable<A>,

        decreases self,
    {
        if !self.bbox.crossed_by(*ray, t, fpu) {
            walk is Missed
        } else {
            &&& walk is Both
            &&& self.left.follows(ray, t, fpu, *walk->Both_0)
            &&& self.right.follows(ray, window(t, walk->Both_0.result()), fpu, *walk->Both_1)
        }
    }

    /// `out` is what a traversal of the tree may give: a node whose box the
    /// ray misses answers nothing, and any other the nearer of what its left
    /// child answers and what its right child answers when asked for a hit
    /// nearer than the left one.
    pub open spec fn outcome<A: Arithmetic>(
        &self,
        ray: &Ray,
        t: Interval,
        fpu: &A,
        out: Option<HitRecord>,
    ) -> bool where P: Hittable<A> {
        exists|walk: Walk| #[trigger] self.follows(ray, t, fpu, walk) && walk.result() == out
    }

    /// The tree over all the surfaces of a list: what
    /// [`BVHNode::new_from_objects`] makes of the whole list.
    pub fn new<A: Arithmetic>(list: &HittableList<P>, fpu: &A) -> (r: BVHNode<P>) where P: Hittable<A>
        requires
            list.objects@.len() > 0,
        ensures
            forall|p: P|
                r.holds(p) <==> exists|i: int| 0 <= i < list.objects@.len() && *#[trigger] list.objects@[i] == p,
            exists|seen: Seq<AABB>| #[trigger]
                observed::<P>(list.objects@, 0, list.objects@.len() as int, seen) && r.bbox == union_all(
                    seen,
                    seen.len() as int,
                ),
            steady::<P>(list.objects@, 0, list.objects@.len() as int) ==> r.sound() && r.joined(),
            list.objects@.len() == 1 ==> r.left == BVHChild::Object(list.objects@[0]) && r.right
                == BVHChild::Object(list.objects@[0]),
            list.objects@.len() == 2 ==> r.left == BVHChild::Object(list.objects@[0]) && r.right
                == BVHChild::Object(list.objects@[1]),
            list.objects@.len() > 2 ==> r.left is Node && r.right is Node && exists|pairs: Seq<(i64, usize)>|
                {
                    &&& #[trigger] sorted_along::<P>(
                        list.objects@,
                        0,
                        list.objects@.len() as int,
                        r.bbox.widest(fpu),
                        pairs,
                    )
                    &&& holds_range(r.left, list.objects@, 0, pairs, 0, list.objects@.len() as int / 2)
                    &&& holds_range(
                        r.right,
                        list.objects@,
                        0,
                        pairs,
                        list.objects@.len() as int / 2,
                        list.objects@.len() as int,
                    )
                },
    {
        Self::new_from_objects(&list.objects, 0, list.objects.len(), fpu)
    }

    /// The tree over the surfaces from `start` up to `end`.
    ///
    /// The box of the node is the union of the boxes of those surfaces. One
    /// surface becomes both children, two become one child each. More are
    /// sorted by where their boxes begin on the longest axis of the node's
    /// box, and each half of them becomes a tree of its own.
    ///
    /// Where every surface has one box, without NaN, every box of the tree
    /// encloses what is below it and is, as numbers, the union of the boxes
    /// of its two children.
    pub fn new_from_objects<A: Arithmetic>(objects: &Vec<Arc<P>>, start: usize, end: usize, fpu: &A) -> (r:
        BVHNode<P>) where P: Hittable<A>
        requires
            start < end <= objects@.len(),
        ensures
            forall|p: P| r.holds(p) <==> exists|i: int| start <= i < end && *#[trigger] objects@[i] == p,
            exists|seen: Seq<AABB>| #[trigger]
                observed::<P>(objects@, start as int, end as int, seen) && r.bbox == union_all(
                    seen,
                    seen.len() as int,
                ),
            steady::<P>(objects@, start as int, end as int) ==> r.sound() && r.joined(),
            end - start == 1 ==> r.left == BVHChild::Object(objects@[start as int]) && r.right
                == BVHChild::Object(objects@[start as int]),
            end - start == 2 ==> r.left == BVHChild::Object(objects@[start as int]) && r.right
                == BVHChild::Object(objects@[start + 1]),
            end - start > 2 ==> r.left is Node && r.right is Node && exists|pairs: Seq<(i64, usize)>|
                {
                    &&& #[trigger] sorted_along::<P>(objects@, start as int, end as int, r.bbox.widest(fpu), pairs)
                    &&& holds_range(r.left, objects@, start as int, pairs, 0, (end - start) / 2)
                    &&& holds_range(r.right, objects@, start as int, pairs, (end - start) / 2, end - start)
                },
        decreases end - start,
    {
        let mut bbox = AABB::new_empty();
        let ghost mut seen: Seq<AABB> = Seq::empty();
        let mut i: usize = start;
        while i < end
            invariant
                start <= i <= end <= objects@.len(),
                seen.len() == i - start,
                forall|k: int| 0 <= k < seen.len() ==> boxes::<P>(&*objects@[start + k], #[trigger] seen[k]),
                bbox == union_all(seen, seen.len() as int),
            decreases end - i,
        {
            let b: AABB = *objects[i].bbox();
            proof {
                lemma_union_all_prefix(seen.push(b), seen, seen.len() as int);
                seen = seen.push(b);
            }
            bbox = AABB::new_from_aabbs(&bbox, &b);
            i = i + 1;
        }
        assert(observed::<P>(objects@, start as int, end as int, seen));
        proof {
            if steady::<P>(objects@, start as int, end as int) {
                assert forall|k: int| 0 <= k < seen.len() implies (#[trigger] seen[k]).wf() by {}
                lemma_union_all_encloses(seen, seen.len() as int);
            }
        }

        let axis = bbox.longest_axis(fpu);
        let object_span = end - start;

        if object_span == 1 {
            let left = share(&objects[start]);
            let right = share(&objects[start]);
            let r = BVHNode { left: BVHChild::Object(left), right: BVHChild::Object(right), bbox };
            proof {
                assert forall|p: P| r.holds(p) <==> exists|i: int|
                    start <= i < end && *#[trigger] objects@[i] == p by {}
                if steady::<P>(objects@, start as int, end as int) {
                    lemma_union_of_halves(seen, seen[0], seen[0]);
                    assert(r.left.boxed_by(seen[0]) && r.right.boxed_by(seen[0]));
                }
            }
            r
        } else if object_span == 2 {
            let left = share(&objects[start]);
            let right = share(&objects[start + 1]);
            let r = BVHNode { left: BVHChild::Object(left), right: BVHChild::Object(right), bbox };
            proof {
                assert forall|p: P| r.holds(p) <==> exists|i: int|
                    start <= i < end && *#[trigger] objects@[i] == p by {}
                if steady::<P>(objects@, start as int, end as int) {
                    lemma_union_of_halves(seen, seen[0], seen[1]);
                    assert(r.left.boxed_by(seen[0]) && r.right.boxed_by(seen[1]));
                }
            }
            r
        } else {
            let mut pairs: Vec<(i64, usize)> = Vec::new();
            let mut k: usize = 0;
            while k < object_span
                invariant
                    start < end <= objects@.len(),
                    object_span == end - start,
                    k <= object_span,
                    pairs@.len() == k,
                    forall|j: int| 0 <= j < k ==> (#[trigger] pairs@[j]).1 == j,
                    forall|j: int|
                        0 <= j < k ==> keyed(objects@[start + j], axis as int, (#[trigger] pairs@[j]).0 as int),
                decreases object_span - k,
            {
                let b: AABB = *objects[start + k].bbox();
                let key = b.axis_interval(axis).min.key();
                assert(boxes::<P>(&*objects@[start + k], b) && key == b.axis(axis as int).min.ord());
                pairs.push((key, k));
                k = k + 1;
            }
            let ghost unsorted = pairs@;
            sort_pairs(&mut pairs);
            proof {
                unsorted.to_multiset_ensures();
                pairs@.to_multiset_ensures();
                assert forall|j: int| 0 <= j < object_span implies (#[trigger] pairs@[j]).1 < object_span
                    && pairs@[j] == unsorted[pairs@[j].1 as int] by {
                    assert(unsorted.to_multiset().count(pairs@[j]) > 0);
                }
                unsorted.lemma_multiset_has_no_duplicates();
                pairs@.lemma_multiset_has_no_duplicates_conv();
                assert forall|place: int| 0 <= place < object_span implies #[trigger] has_place(pairs@, place) by {
                    let pair = unsorted[place];
                    assert(pairs@.to_multiset().count(pair) > 0);
                    let k = choose|k: int| 0 <= k < pairs@.len() && pairs@[k] == pair;
                }
                assert forall|k: int| 0 <= k < pairs@.len() implies (#[trigger] pairs@[k]).1 < end - start
                    && keyed(objects@[start + pairs@[k].1], axis as int, pairs@[k].0 as int) by {}
            }

            let mut sorted_objects: Vec<Arc<P>> = Vec::new();
            let mut k: usize = 0;
            while k < object_span
                invariant
                    start < end <= objects@.len(),
                    object_span == end - start,
                    pairs@.len() == object_span,
                    forall|j: int| 0 <= j < object_span ==> (#[trigger] pairs@[j]).1 < object_span,
                    k <= object_span,
                    sorted_along::<P>(objects@, start as int, end as int, axis as int, pairs@),
                    sorted_objects@.len() == k,
                    forall|j: int| 0 <= j < k ==> #[trigger] sorted_objects@[j] == objects@[start + pairs@[j].1],
                decreases object_span - k,
            {
                sorted_objects.push(share(&objects[start + pairs[k].1]));
                k = k + 1;
            }

            let mid = object_span / 2;
            let left_node = Self::new_from_objects(&sorted_objects, 0, mid, fpu);
            let right_node = Self::new_from_objects(&sorted_objects, mid, object_span, fpu);
            let r = BVHNode {
                left: BVHChild::Node(Box::new(left_node)),
                right: BVHChild::Node(Box::new(right_node)),
                bbox,
            };
            proof {
                assert forall|p: P| r.holds(p) <==> exists|i: int|
                    start <= i < end && *#[trigger] objects@[i] == p by {
                    assert(r.left.holds(p) == left_node.holds(p));
                    assert(r.right.holds(p) == right_node.holds(p));
                    if r.holds(p) {
                        let j = if left_node.holds(p) {
                            choose|j: int| 0 <= j < mid && *#[trigger] sorted_objects@[j] == p
                        } else {
                            choose|j: int| mid <= j < object_span && *#[trigger] sorted_objects@[j] == p
                        };
                    }
                    if exists|i: int| start <= i < end && *#[trigger] objects@[i] == p {
                        let i = choose|i: int| start <= i < end && *#[trigger] objects@[i] == p;
                        let pair = unsorted[i - start];
                        assert(pairs@.to_multiset().count(pair) > 0);
                        let j = choose|j: int| 0 <= j < pairs@.len() && pairs@[j] == pair;
                        assert(sorted_objects@[j] == objects@[start + pairs@[j].1]);
                    }
                }
                if steady::<P>(objects@, start as int, end as int) {
                    assert(steady::<P>(sorted_objects@, 0, object_span as int)) by {
                        assert forall|i: int, b: AABB, c: AABB|
                            0 <= i < object_span && #[trigger] boxes::<P>(&*sorted_objects@[i], b)
                                && #[trigger] boxes::<P>(&*sorted_objects@[i], c) implies b.wf() && b == c by {}
                    }
                    Self::lemma_half_inside(
                        objects@,
                        start as int,
                        end as int,
                        seen,
                        sorted_objects@,
                        pairs@,
                        0,
                        mid as int,
                        left_node.bbox,
                        bbox,
                    );
                    Self::lemma_half_inside(
                        objects@,
                        start as int,
                        end as int,
                        seen,
                        sorted_objects@,
                        pairs@,
                        mid as int,
                        object_span as int,
                        right_node.bbox,
                        bbox,
                    );
                    let near = choose|part: Seq<AABB>| #[trigger]
                        observed::<P>(sorted_objects@, 0, mid as int, part) && left_node.bbox == union_all(
                            part,
                            part.len() as int,
                        );
                    let far = choose|part: Seq<AABB>| #[trigger]
                        observed::<P>(sorted_objects@, mid as int, object_span as int, part) && right_node.bbox
                            == union_all(part, part.len() as int);
                    assert forall|k: int| 0 <= k < near.len() implies (#[trigger] near[k]).wf() by {}
                    assert forall|k: int| 0 <= k < far.len() implies (#[trigger] far[k]).wf() by {}
                    lemma_union_all_encloses(near, near.len() as int);
                    lemma_union_all_encloses(far, far.len() as int);
                    assert forall|k: int| 0 <= k < seen.len() implies (#[trigger] seen[k]).inside(left_node.bbox)
                        || seen[k].inside(right_node.bbox) by {
                        assert(has_place(pairs@, k));
                        let j = choose|j: int| 0 <= j < pairs@.len() && (#[trigger] pairs@[j]).1 == k;
                        if j < mid {
                            assert(boxes::<P>(&*sorted_objects@[0 + j], near[j]));
                        } else {
                            assert(boxes::<P>(&*sorted_objects@[mid + (j - mid)], far[j - mid]));
                        }
                    }
                    lemma_union_of_halves(seen, left_node.bbox, right_node.bbox);
                    assert(r.left.boxed_by(left_node.bbox) && r.right.boxed_by(right_node.bbox));
                }
                assert forall|p: P| r.left.holds(p) <==> exists|k: int|
                    0 <= k < mid && *#[trigger] objects@[start + pairs@[k].1] == p by {
                    if left_node.holds(p) {
                        let k = choose|k: int| 0 <= k < mid && *#[trigger] sorted_objects@[k] == p;
                    }
                    if exists|k: int| 0 <= k < mid && *#[trigger] objects@[start + pairs@[k].1] == p {
                        let k = choose|k: int| 0 <= k < mid && *#[trigger] objects@[start + pairs@[k].1] == p;
                        assert(*sorted_objects@[k] == p);
                    }
                }
                assert forall|p: P| r.right.holds(p) <==> exists|k: int|
                    mid <= k < object_span && *#[trigger] objects@[start + pairs@[k].1] == p by {
                    if right_node.holds(p) {
                        let k = choose|k: int| mid <= k < object_span && *#[trigger] sorted_objects@[k] == p;
                    }
                    if exists|k: int| mid <= k < object_span && *#[trigger] objects@[start + pairs@[k].1] == p {
                        let k = choose|k: int|
                            mid <= k < object_span && *#[trigger] objects@[start + pairs@[k].1] == p;
                        assert(*sorted_objects@[k] == p);
                    }
                }
                assert(r.bbox.widest(fpu) == axis);
            }
            r
        }
    }

    /// The box made for some of the sorted surfaces lies inside the box made
    /// for all of them.
    proof fn lemma_half_inside(
        objects: Seq<Arc<P>>,
        start: int,
        end: int,
        seen: Seq<AABB>,
        sorted: Seq<Arc<P>>,
        pairs: Seq<(i64, usize)>,
        from: int,
        to: int,
        half: AABB,
        whole: AABB,
    ) where P: Bounded
        requires
            0 <= start < end <= objects.len(),
            steady::<P>(objects, start, end),
            observed::<P>(objects, start, end, seen),
            whole == union_all(seen, seen.len() as int),
            sorted.len() == end - start,
            pairs.len() == end - start,
            forall|j: int| 0 <= j < end - start ==> (#[trigger] pairs[j]).1 < end - start,
            forall|j: int| 0 <= j < end - start ==> #[trigger] sorted[j] == objects[start + pairs[j].1],
            0 <= from <= to <= end - start,
            exists|part: Seq<AABB>| #[trigger]
                observed::<P>(sorted, from, to, part) && half == union_all(part, part.len() as int),
        ensures
            half.inside(whole),
    {
        let part = choose|part: Seq<AABB>| #[trigger]
            observed::<P>(sorted, from, to, part) && half == union_all(part, part.len() as int);
        assert forall|k: int| 0 <= k < seen.len() implies (#[trigger] seen[k]).wf() by {}
        lemma_union_all_encloses(seen, seen.len() as int);
        assert forall|k: int| 0 <= k < part.len() implies (#[trigger] part[k]).wf() && part[k].inside(whole) by {
            let j = pairs[from + k].1 as int;
            assert(boxes::<P>(&*objects[start + j], seen[j]));
        }
        lemma_union_all_least(part, part.len() as int, whole);
    }

    /// Asks the tree for the nearest hit of the ray within `t`.
    pub fn traverse<A: Arithmetic>(&self, ray: &Ray, t: Interval, fpu: &A) -> (out: Option<HitRecord>) where
        P: Hittable<A>,

        ensures
            self.outcome(ray, t, fpu, out),
    {
        let (out, Ghost(walk)) = self.descend(ray, t, fpu);
        out
    }

    fn descend<A: Arithmetic>(&self, ray: &Ray, t: Interval, fpu: &A) -> (r: (
        Option<HitRecord>,
        Ghost<Walk>,
    )) where P: Hittable<A>
        ensures
            self.follows(ray, t, fpu, r.1@),
            r.1@.result() == r.0,
        decreases self,
    {
        if !self.bbox.hit(ray, t, fpu) {
            return (None, Ghost(Walk::Missed));
        }
        let (hit_left, Ghost(walk_left)) = match &self.left {
            BVHChild::Object(o) => {
                let found = o.hit(ray, t, fpu);
                (found, Ghost(Walk::Answer(found)))
            },
            BVHChild::Node(n) => n.descend(ray, t, fpu),
        };
        let right_t = match hit_left {
            Some(rec) => Interval::new(t.min, rec.t),
            None => t,
        };
        let (hit_right, Ghost(walk_right)) = match &self.right {
            BVHChild::Object(o) => {
                let found = o.hit(ray, right_t, fpu);
                (found, Ghost(Walk::Answer(found)))
            },
            BVHChild::Node(n) => n.descend(ray, right_t, fpu),
        };
        let out = match (hit_left, hit_right) {
            (Some(l), Some(r)) => {
                if l.t.lt(r.t) {
                    hit_left
                } else {
                    hit_right
                }
            },
            (Some(_), None) => hit_left,
            (None, _) => hit_right,
        };
        let ghost walk = Walk::Both(Box::new(walk_left), Box::new(walk_right));
        proof {
            assert(walk_right.result() == hit_right);
        }
        (out, Ghost(walk))
    }
}

impl<A: Arithmetic, P: Hittable<A>> Hittable<A> for BVHNode<P> {
    fn hit(&self, ray: &Ray, t: Interval, fpu: &A) -> (out: Option<HitRecord>)
        ensures
            self.outcome(ray, t, fpu, out),
    {
        self.traverse(ray, t, fpu)
    }
}

impl<P> Bounded for BVHNode<P> {
    fn bbox(&self) -> (r: &AABB)
        ensures
            *r == self.bbox,
    {
        &self.bbox
    }
}

} // verus!
