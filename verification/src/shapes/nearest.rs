use vstd::prelude::*;
use vstd::seq_lib::to_multiset_contains;
use crate::data_structures::intersection_payload::IntersectionPayload;
use crate::data_structures::ray::Ray;
use crate::maths::scalar::Scalar;
use crate::shapes::bounding_volume_hierarchy::{nearer, BVH, SELF_HIT_BITS};
use crate::traits::arithmetic::Arithmetic;
use crate::traits::render_object::RenderObject;

verus! {

/// `object.intersect(ray)` may return `hit`.
pub open spec fn answers<N: Arithmetic, P: RenderObject<N>>(
    object: P,
    ray: Ray,
    num: &N,
    hit: Option<IntersectionPayload>,
) -> bool {
    call_ensures(P::intersect, (&object, &ray, num), hit)
}

/// Each object returns the same for `ray` whenever it is asked.
pub open spec fn single_valued<N: Arithmetic, P: RenderObject<N>>(
    objects: Seq<P>,
    ray: Ray,
    num: &N,
) -> bool {
    forall|i: int, a: Option<IntersectionPayload>, b: Option<IntersectionPayload>|
        0 <= i < objects.len() && #[trigger] answers(objects[i], ray, num, a)
            && #[trigger] answers(objects[i], ray, num, b,
        ) ==> a == b
}

/// Every hit of `ray` on one of the objects lies beyond the self-hit distance.
pub open spec fn beyond_self_hit<N: Arithmetic, P: RenderObject<N>>(
    objects: Seq<P>,
    ray: Ray,
    num: &N,
) -> bool {
    forall|i: int, payload: IntersectionPayload|
        0 <= i < objects.len() && #[trigger] answers(objects[i], ray, num, Some(payload)) ==> (Scalar {
            bits: SELF_HIT_BITS,
        }).below(payload.distance)
}

/// `ray` hits one of the objects.
pub open spec fn hits_some<N: Arithmetic, P: RenderObject<N>>(objects: Seq<P>, ray: Ray, num: &N) -> bool {
    exists|i: int, payload: IntersectionPayload|
        0 <= i < objects.len() && #[trigger] answers(objects[i], ray, num, Some(payload))
}

/// What a scan of all objects finds for `ray`: nothing where no object is
/// hit, and else a hit of one of them that no other hit is nearer than.
pub open spec fn nearest_of<N: Arithmetic, P: RenderObject<N>>(
    objects: Seq<P>,
    ray: Ray,
    num: &N,
    hit: Option<IntersectionPayload>,
) -> bool {
    match hit {
        None => !hits_some(objects, ray, num),
        Some(payload) => {
            &&& exists|i: int| 0 <= i < objects.len() && #[trigger] answers(objects[i], ray, num, Some(payload))
            &&& forall|j: int, other: IntersectionPayload|
                0 <= j < objects.len() && #[trigger] answers(objects[j], ray, num, Some(other))
                    ==> payload.distance.at_most(other.distance)
        },
    }
}

impl<P> BVH<P> {
    /// No volume in the tree hides a hit: where `ray` hits an object below
    /// a node, the test of the node's volume against `ray` succeeds.
    pub open spec fn unculled<N: Arithmetic>(self, ray: Ray, num: &N) -> bool where P: RenderObject<N>
        decreases self,
    {
        &&& hits_some(self.primitives(), ray, num) ==> forall|met: bool| #[trigger]
            self.spec_bounds().admits(ray, num, met) ==> met
        &&& match self {
            BVH::Node(left, right, _) => left.unculled(ray, num) && right.unculled(ray, num),
            BVH::Shape(_, _) => true,
        }
    }
}

proof fn lemma_parts<N: Arithmetic, P: RenderObject<N>>(left: Seq<P>, right: Seq<P>, ray: Ray, num: &N)
    ensures
        single_valued(left + right, ray, num) ==> single_valued(left, ray, num) && single_valued(right, ray, num),
        beyond_self_hit(left + right, ray, num) ==> beyond_self_hit(left, ray, num) && beyond_self_hit(right, ray, num),
        hits_some(left + right, ray, num) <==> hits_some(left, ray, num) || hits_some(right, ray, num),
{
    let both = left + right;
    assert forall|i: int| 0 <= i < left.len() implies #[trigger] both[i] == left[i] by {}
    assert forall|i: int| 0 <= i < right.len() implies #[trigger] both[left.len() + i] == right[i] by {}
    if single_valued(both, ray, num) {
        assert forall|i: int, a: Option<IntersectionPayload>, b: Option<IntersectionPayload>|
            0 <= i < left.len() && #[trigger] answers(left[i], ray, num, a)
                && #[trigger] answers(left[i], ray, num, b) implies a
            == b by {
            assert(answers(both[i], ray, num, a) && answers(both[i], ray, num, b));
        }
        assert forall|i: int, a: Option<IntersectionPayload>, b: Option<IntersectionPayload>|
            0 <= i < right.len() && #[trigger] answers(right[i], ray, num, a)
                && #[trigger] answers(right[i], ray, num, b) implies a
            == b by {
            assert(answers(both[left.len() + i], ray, num, a) && answers(both[left.len() + i], ray, num, b));
        }
    }
    if beyond_self_hit(both, ray, num) {
        assert forall|i: int, payload: IntersectionPayload|
            0 <= i < left.len() && #[trigger] answers(left[i], ray, num, Some(payload)) implies (Scalar {
            bits: SELF_HIT_BITS,
        }).below(payload.distance) by {
            assert(answers(both[i], ray, num, Some(payload)));
        }
        assert forall|i: int, payload: IntersectionPayload|
            0 <= i < right.len() && #[trigger] answers(right[i], ray, num, Some(payload)) implies (Scalar {
            bits: SELF_HIT_BITS,
        }).below(payload.distance) by {
            assert(answers(both[left.len() + i], ray, num, Some(payload)));
        }
    }
    if hits_some(left, ray, num) {
        let (i, payload) = choose|i: int, payload: IntersectionPayload|
            0 <= i < left.len() && #[trigger] answers(left[i], ray, num, Some(payload));
        assert(answers(both[i], ray, num, Some(payload)));
    }
    if hits_some(right, ray, num) {
        let (i, payload) = choose|i: int, payload: IntersectionPayload|
            0 <= i < right.len() && #[trigger] answers(right[i], ray, num, Some(payload));
        assert(answers(both[left.len() + i], ray, num, Some(payload)));
    }
    if hits_some(both, ray, num) {
        let (i, payload) = choose|i: int, payload: IntersectionPayload|
            0 <= i < both.len() && #[trigger] answers(both[i], ray, num, Some(payload));
        if i < left.len() {
            assert(answers(left[i], ray, num, Some(payload)));
        } else {
            assert(answers(right[i - left.len()], ray, num, Some(payload)));
        }
    }
}

/// The nearer of the nearest hits of two groups of objects is the nearest
/// hit of both groups together.
proof fn lemma_nearer_of_parts<N: Arithmetic, P: RenderObject<N>>(
    left: Seq<P>,
    right: Seq<P>,
    ray: Ray,
    num: &N,
    from_left: Option<IntersectionPayload>,
    from_right: Option<IntersectionPayload>,
)
    requires
        beyond_self_hit(left + right, ray, num),
        nearest_of(left, ray, num, from_left),
        nearest_of(right, ray, num, from_right),
    ensures
        nearest_of(left + right, ray, num, nearer(from_left, from_right)),
{
    let both = left + right;
    let hit = nearer(from_left, from_right);
    lemma_parts(left, right, ray, num);
    assert forall|i: int| 0 <= i < left.len() implies #[trigger] both[i] == left[i] by {}
    assert forall|i: int| 0 <= i < right.len() implies #[trigger] both[left.len() + i] == right[i] by {}
    if from_left is Some {
        let a = from_left->0;
        let i = choose|i: int| 0 <= i < left.len() && #[trigger] answers(left[i], ray, num, Some(a));
        assert(answers(both[i], ray, num, Some(a)));
    }
    if from_right is Some {
        let b = from_right->0;
        let i = choose|i: int| 0 <= i < right.len() && #[trigger] answers(right[i], ray, num, Some(b));
        assert(answers(both[left.len() + i], ray, num, Some(b)));
    }
    if hit is Some {
        let payload = hit->0;
        assert forall|j: int, other: IntersectionPayload|
            0 <= j < both.len() && #[trigger] answers(both[j], ray, num, Some(other)) implies payload.distance.at_most(
            other.distance,
        ) by {
            if j < left.len() {
                assert(answers(left[j], ray, num, Some(other)));
            } else {
                assert(answers(right[j - left.len()], ray, num, Some(other)));
            }
        }
    }
}

/// What the tree yields for a ray is what a scan of all its objects finds:
/// nothing where no object is hit, and else a hit that no other hit is
/// nearer than. This holds where each object answers the ray in one way
/// only, every hit lies beyond the self-hit distance, and no volume in the
/// tree hides a hit.
pub proof fn lemma_yields_nearest<N: Arithmetic, P: RenderObject<N>>(
    tree: BVH<P>,
    ray: Ray,
    num: &N,
    hit: Option<IntersectionPayload>,
)
    requires
        tree.yields(ray, num, hit),
        single_valued(tree.primitives(), ray, num),
        beyond_self_hit(tree.primitives(), ray, num),
        tree.unculled(ray, num),
    ensures
        nearest_of(tree.primitives(), ray, num, hit),
    decreases tree,
{
    let objects = tree.primitives();
    match tree {
        BVH::Shape(object, volume) => {
            let met = choose|met: bool| #[trigger]
                volume.admits(ray, num, met) && if met {
                    call_ensures(P::intersect, (&object, &ray, num), hit)
                } else {
                    hit is None
                };
            assert(tree.spec_bounds().admits(ray, num, met));
            assert(objects[0] == object);
            if met {
                assert(answers(objects[0], ray, num, hit));
                if hit is Some {
                    let payload = hit->0;
                    assert forall|j: int, other: IntersectionPayload|
                        0 <= j < objects.len()
                            && #[trigger] answers(objects[j], ray, num, Some(other)) implies
                            payload.distance.at_most(
                        other.distance,
                    ) by {
                        assert(Some(other) == hit);
                    }
                } else {
                    if hits_some(objects, ray, num) {
                        let (i, payload) = choose|i: int, payload: IntersectionPayload|
                            0 <= i < objects.len() && #[trigger] answers(objects[i], ray, num, Some(payload));
                        assert(Some(payload) == hit);
                    }
                }
            }
        },
        BVH::Node(left, right, volume) => {
            let met = choose|met: bool| #[trigger]
                volume.admits(ray, num, met) && if met {
                    exists|from_left: Option<IntersectionPayload>, from_right: Option<IntersectionPayload>|
                        left.yields(ray, num, from_left) && right.yields(ray, num, from_right) && hit
                            == #[trigger] nearer(from_left, from_right)
                } else {
                    hit is None
                };
            assert(tree.spec_bounds().admits(ray, num, met));
            lemma_parts(left.primitives(), right.primitives(), ray, num);
            if met {
                let (from_left, from_right) = choose|
                    from_left: Option<IntersectionPayload>,
                    from_right: Option<IntersectionPayload>,
                |
                    left.yields(ray, num, from_left) && right.yields(ray, num, from_right) && hit
                        == #[trigger] nearer(from_left, from_right);
                lemma_yields_nearest(*left, ray, num, from_left);
                lemma_yields_nearest(*right, ray, num, from_right);
                lemma_nearer_of_parts(left.primitives(), right.primitives(), ray, num, from_left, from_right);
            }
        },
    }
}

/// The tree invents no hit: a hit that it yields is one that one of its
/// objects returned for the ray.
pub proof fn lemma_yield_is_answer<N: Arithmetic, P: RenderObject<N>>(
    tree: BVH<P>,
    ray: Ray,
    num: &N,
    payload: IntersectionPayload,
)
    requires
        tree.yields(ray, num, Some(payload)),
    ensures
        exists|i: int| 0 <= i < tree.primitives().len()
            && #[trigger] answers(tree.primitives()[i], ray, num, Some(payload)),
    decreases tree,
{
    let objects = tree.primitives();
    match tree {
        BVH::Shape(object, volume) => {
            assert(answers(objects[0], ray, num, Some(payload)));
        },
        BVH::Node(left, right, volume) => {
            let met = choose|met: bool| #[trigger]
                volume.admits(ray, num, met) && if met {
                    exists|from_left: Option<IntersectionPayload>, from_right: Option<IntersectionPayload>|
                        left.yields(ray, num, from_left) && right.yields(ray, num, from_right) && Some(payload)
                            == #[trigger] nearer(from_left, from_right)
                } else {
                    false
                };
            let (from_left, from_right) = choose|
                from_left: Option<IntersectionPayload>,
                from_right: Option<IntersectionPayload>,
            |
                left.yields(ray, num, from_left) && right.yields(ray, num, from_right) && Some(payload)
                    == #[trigger] nearer(from_left, from_right);
            if from_left == Some(payload) {
                lemma_yield_is_answer(*left, ray, num, payload);
                let i = choose|i: int| 0 <= i < left.primitives().len()
                    && #[trigger] answers(left.primitives()[i], ray, num, Some(payload));
                assert(objects[i] == left.primitives()[i]);
                assert(answers(objects[i], ray, num, Some(payload)));
            } else {
                lemma_yield_is_answer(*right, ray, num, payload);
                let i = choose|i: int| 0 <= i < right.primitives().len()
                    && #[trigger] answers(right.primitives()[i], ray, num, Some(payload));
                assert(objects[left.primitives().len() + i] == right.primitives()[i]);
                assert(answers(objects[left.primitives().len() + i], ray, num, Some(payload)));
            }
        },
    }
}

/// What a tree over `objects` yields for a ray is what a scan of `objects`
/// finds: nothing where no object is hit, and else a hit that one of the
/// objects returned and that no other hit is nearer than. This holds of
/// every tree whose leaves hold the objects, as the one that `new` builds,
/// where each object answers the ray in one way only, every hit lies
/// beyond the self-hit distance, and no volume in the tree hides a hit.
pub proof fn lemma_tree_finds_nearest<N: Arithmetic, P: RenderObject<N>>(
    objects: Seq<P>,
    tree: BVH<P>,
    ray: Ray,
    num: &N,
    hit: Option<IntersectionPayload>,
)
    requires
        tree.primitives().to_multiset() == objects.to_multiset(),
        tree.yields(ray, num, hit),
        single_valued(objects, ray, num),
        beyond_self_hit(objects, ray, num),
        tree.unculled(ray, num),
    ensures
        nearest_of(objects, ray, num, hit),
{
    let leaves = tree.primitives();
    assert forall|i: int| 0 <= i < leaves.len() implies objects.contains(#[trigger] leaves[i]) by {
        to_multiset_contains(leaves, leaves[i]);
        to_multiset_contains(objects, leaves[i]);
        assert(leaves.contains(leaves[i]));
    }
    assert forall|j: int| 0 <= j < objects.len() implies leaves.contains(#[trigger] objects[j]) by {
        to_multiset_contains(leaves, objects[j]);
        to_multiset_contains(objects, objects[j]);
        assert(objects.contains(objects[j]));
    }
    assert(single_valued(leaves, ray, num)) by {
        assert forall|i: int, a: Option<IntersectionPayload>, b: Option<IntersectionPayload>|
            0 <= i < leaves.len() && #[trigger] answers(leaves[i], ray, num, a) && #[trigger] answers(
                leaves[i],
                ray,
                num,
                b,
            ) implies a == b by {
            assert(objects.contains(leaves[i]));
            let j = choose|j: int| 0 <= j < objects.len() && objects[j] == leaves[i];
            assert(answers(objects[j], ray, num, a) && answers(objects[j], ray, num, b));
        }
    }
    assert(beyond_self_hit(leaves, ray, num)) by {
        assert forall|i: int, payload: IntersectionPayload|
            0 <= i < leaves.len() && #[trigger] answers(leaves[i], ray, num, Some(payload)) implies (Scalar {
            bits: SELF_HIT_BITS,
        }).below(payload.distance) by {
            assert(objects.contains(leaves[i]));
            let j = choose|j: int| 0 <= j < objects.len() && objects[j] == leaves[i];
            assert(answers(objects[j], ray, num, Some(payload)));
        }
    }
    lemma_yields_nearest(tree, ray, num, hit);
    match hit {
        None => {
            if hits_some(objects, ray, num) {
                let (j, payload) = choose|j: int, payload: IntersectionPayload|
                    0 <= j < objects.len() && #[trigger] answers(objects[j], ray, num, Some(payload));
                assert(leaves.contains(objects[j]));
                let i = choose|i: int| 0 <= i < leaves.len() && leaves[i] == objects[j];
                assert(answers(leaves[i], ray, num, Some(payload)));
            }
        },
        Some(found) => {
            let i = choose|i: int| 0 <= i < leaves.len() && #[trigger] answers(leaves[i], ray, num, Some(found));
            assert(objects.contains(leaves[i]));
            let j = choose|j: int| 0 <= j < objects.len() && objects[j] == leaves[i];
            assert(answers(objects[j], ray, num, Some(found)));
            assert forall|k: int, other: IntersectionPayload|
                0 <= k < objects.len() && #[trigger] answers(objects[k], ray, num, Some(other)) implies
                found.distance.at_most(other.distance) by {
                assert(leaves.contains(objects[k]));
                let m = choose|m: int| 0 <= m < leaves.len() && leaves[m] == objects[k];
                assert(answers(leaves[m], ray, num, Some(other)));
            }
        },
    }
}

} // verus!
