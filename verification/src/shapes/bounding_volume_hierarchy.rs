use vstd::prelude::*;
use vstd::seq_lib::*;
use crate::data_structures::intersection_payload::IntersectionPayload;
use crate::data_structures::ray::Ray;
use crate::maths::scalar::Scalar;
use crate::maths::vector3::Vector3;
use crate::shapes::bounds::Bounds;
use crate::traits::arithmetic::Arithmetic;
use crate::traits::render_object::RenderObject;
use rand::Rng;

verus! {

/// A binary tree over objects, each node with a volume that holds
/// everything below it.
pub enum BVH<P> {
    Node(Box<BVH<P>>, Box<BVH<P>>, Bounds),
    Shape(P, Bounds),
}

/// Bit pattern of `1e-3`: a lone hit that is no farther than this from the
/// ray's origin is taken for the surface that the ray has just left.
pub const SELF_HIT_BITS: u64 = 0x3F50_624D_D2F1_A9FC;

/// The hit that a node passes up from the hits of its two subtrees: of two
/// hits the one with the smaller distance, the right one where neither is
/// smaller; a lone hit only where it lies beyond the self-hit distance.
pub open spec fn nearer(left: Option<IntersectionPayload>, right: Option<IntersectionPayload>) -> Option<
    IntersectionPayload,
> {
    match (left, right) {
        (None, None) => None,
        (Some(payload), None) => if (Scalar { bits: SELF_HIT_BITS }).below(payload.distance) {
            Some(payload)
        } else {
            None
        },
        (None, Some(payload)) => if (Scalar { bits: SELF_HIT_BITS }).below(payload.distance) {
            Some(payload)
        } else {
            None
        },
        (Some(payload_a), Some(payload_b)) => if payload_a.distance.below(payload_b.distance) {
            Some(payload_a)
        } else {
            Some(payload_b)
        },
    }
}

/// Executable `nearer`.
pub fn nearer_hit(left: Option<IntersectionPayload>, right: Option<IntersectionPayload>) -> (hit: Option<
    IntersectionPayload,
>)
    ensures
        hit == nearer(left, right),
{
    match (left, right) {
        (None, None) => None,
        (Some(payload), None) => if payload.distance.gt(Scalar::from_bits(SELF_HIT_BITS)) {
            Some(payload)
        } else {
            None
        },
        (None, Some(payload)) => if payload.distance.gt(Scalar::from_bits(SELF_HIT_BITS)) {
            Some(payload)
        } else {
            None
        },
        (Some(payload_a), Some(payload_b)) => if payload_a.distance.lt(payload_b.distance) {
            Some(payload_a)
        } else {
            Some(payload_b)
        },
    }
}

/// Each volume is one that `bounds` returned for the object at the same place.
pub open spec fn measured<N: Arithmetic, P: RenderObject<N>>(
    objects: Seq<P>,
    volumes: Seq<Bounds>,
    num: &N,
) -> bool {
    &&& objects.len() == volumes.len()
    &&& forall|i: int| 0 <= i < objects.len() ==> call_ensures(P::bounds, (&#[trigger] objects[i], num), volumes[i])
}

/// The volumes stand in the order of their sort keys along `axis`.
pub open spec fn sorted_along(volumes: Seq<Bounds>, axis: int) -> bool {
    forall|i: int, j: int|
        0 <= i < j < volumes.len() ==> (#[trigger] volumes[i]).sort_key(axis) <= (#[trigger] volumes[j]).sort_key(axis)
}

/// Calls `rand::thread_rng().gen_range(0..3)`: one of the indices 0, 1 and 2,
/// chosen by the thread's random number generator.
#[verifier::external_body]
fn random_axis() -> (axis: usize)
    ensures
        axis < 3,
{
    rand::thread_rng().gen_range(0..3)
}

/// Sorts the objects and their volumes together by the volumes' sort keys
/// along `axis`, keeping objects with equal keys in their order.
fn sort_along<N: Arithmetic, P: RenderObject<N>>(
    objects: &mut Vec<P>,
    volumes: &mut Vec<Bounds>,
    axis: usize,
    num: &N,
)
    requires
        axis < 3,
        measured(old(objects)@, old(volumes)@, num),
    ensures
        measured(final(objects)@, final(volumes)@, num),
        final(objects)@.to_multiset() == old(objects)@.to_multiset(),
        final(volumes)@.to_multiset() == old(volumes)@.to_multiset(),
        sorted_along(final(volumes)@, axis as int),
{
    let mut i: usize = 1;
    while i < objects.len()
        invariant
            axis < 3,
            measured(objects@, volumes@, num),
            objects@.to_multiset() == old(objects)@.to_multiset(),
            volumes@.to_multiset() == old(volumes)@.to_multiset(),
            volumes.len() == 0 || i <= volumes.len(),
            volumes.len() > 0 ==> sorted_along(volumes@.take(i as int), axis as int),
        decreases objects.len() - i,
    {
        let mut j: usize = i;
        while j > 0 && volumes[i].sorts_before(&volumes[j - 1], axis)
            invariant
                axis < 3,
                j <= i < volumes.len(),
                forall|k: int| j <= k < i ==>
                    volumes[i as int].sort_key(axis as int) < (#[trigger] volumes[k]).sort_key(axis as int),
            decreases j,
        {
            j = j - 1;
        }
        if j < i {
            let ghost before_objects = objects@;
            let ghost before_volumes = volumes@;
            let object = objects.remove(i);
            let volume = volumes.remove(i);
            objects.insert(j, object);
            volumes.insert(j, volume);
            proof {
                broadcast use {to_multiset_remove, to_multiset_insert};
                assert(objects@.to_multiset() == before_objects.to_multiset()) by {
                    assert(before_objects.remove(i as int).to_multiset()
                        == before_objects.to_multiset().remove(before_objects[i as int]));
                    assert(before_objects.to_multiset().count(before_objects[i as int]) > 0) by {
                        before_objects.to_multiset_ensures();
                    }
                    assert(before_objects.to_multiset().remove(before_objects[i as int]).insert(
                        before_objects[i as int],
                    ) =~= before_objects.to_multiset());
                }
                assert(volumes@.to_multiset() == before_volumes.to_multiset()) by {
                    assert(before_volumes.remove(i as int).to_multiset()
                        == before_volumes.to_multiset().remove(before_volumes[i as int]));
                    assert(before_volumes.to_multiset().count(before_volumes[i as int]) > 0) by {
                        before_volumes.to_multiset_ensures();
                    }
                    assert(before_volumes.to_multiset().remove(before_volumes[i as int]).insert(
                        before_volumes[i as int],
                    ) =~= before_volumes.to_multiset());
                }
                assert forall|k: int| 0 <= k < objects@.len() implies
                    call_ensures(P::bounds, (&#[trigger] objects@[k], num), volumes@[k]) by {
                    if k < j {
                        assert(objects@[k] == before_objects[k]);
                    } else if k == j {
                        assert(objects@[k] == before_objects[i as int]);
                    } else if k <= i {
                        assert(objects@[k] == before_objects[k - 1]);
                    } else {
                        assert(objects@[k] == before_objects[k]);
                    }
                }
                assert forall|a: int, b: int| 0 <= a < b < i + 1 implies
                    (#[trigger] volumes@.take(i + 1)[a]).sort_key(axis as int)
                    <= (#[trigger] volumes@.take(i + 1)[b]).sort_key(axis as int) by {
                    let prior = before_volumes.take(i as int);
                    let x = if a < j { a } else { a - 1 };
                    let y = if b < j { b } else { b - 1 };
                    if a != j {
                        assert(volumes@[a] == prior[x]);
                    }
                    if b != j {
                        assert(volumes@[b] == prior[y]);
                    }
                    if j > 0 {
                        assert(prior[j - 1] == before_volumes[j - 1]);
                    }
                    if a < j && b > j {
                        assert(prior[x].sort_key(axis as int) <= prior[y].sort_key(axis as int));
                    }
                    if a < j && b == j {
                        assert(prior[x].sort_key(axis as int) <= prior[j - 1].sort_key(axis as int)) by {
                            if x < j - 1 {
                            }
                        }
                    }
                }
            }
        } else {
            proof {
                assert forall|a: int, b: int| 0 <= a < b < i + 1 implies
                    (#[trigger] volumes@.take(i + 1)[a]).sort_key(axis as int)
                    <= (#[trigger] volumes@.take(i + 1)[b]).sort_key(axis as int) by {
                    let prior = volumes@.take(i as int);
                    if b < i {
                        assert(prior[a] == volumes@[a]);
                        assert(prior[b] == volumes@[b]);
                    } else {
                        assert(prior[a] == volumes@[a]);
                        if i > 0 {
                            assert(prior[i - 1] == volumes@[i - 1]);
                            if a < i - 1 {
                                assert(prior[a].sort_key(axis as int) <= prior[i - 1].sort_key(axis as int));
                            }
                        }
                    }
                }
            }
        }
        i = i + 1;
    }
    proof {
        if volumes.len() > 0 {
            assert(volumes@.take(i as int) =~= volumes@);
        }
    }
}

/// Along `axis`, no volume on the right sorts before one on the left.
pub open spec fn separates(left: Seq<Bounds>, right: Seq<Bounds>, axis: int) -> bool {
    forall|i: int, j: int|
        0 <= i < left.len() && 0 <= j < right.len() ==> (#[trigger] left[i]).sort_key(axis)
            <= (#[trigger] right[j]).sort_key(axis)
}

/// Two sequences that hold what the two halves of `whole` hold, hold
/// together what `whole` holds.
proof fn lemma_halves_join<T>(left: Seq<T>, right: Seq<T>, whole: Seq<T>, mid: int)
    requires
        0 <= mid <= whole.len(),
        left.to_multiset() == whole.subrange(0, mid).to_multiset(),
        right.to_multiset() == whole.subrange(mid, whole.len() as int).to_multiset(),
    ensures
        (left + right).to_multiset() == whole.to_multiset(),
        left.len() == mid,
        right.len() == whole.len() - mid,
{
    let low = whole.subrange(0, mid);
    let high = whole.subrange(mid, whole.len() as int);
    lemma_multiset_commutative(left, right);
    lemma_multiset_commutative(low, high);
    assert(low + high =~= whole);
    left.to_multiset_ensures();
    right.to_multiset_ensures();
    low.to_multiset_ensures();
    high.to_multiset_ensures();
}

/// Where `whole` is sorted along `axis`, what holds its lower half is
/// separated from what holds its upper half.
proof fn lemma_halves_separate(left: Seq<Bounds>, right: Seq<Bounds>, whole: Seq<Bounds>, mid: int, axis: int)
    requires
        0 <= mid <= whole.len(),
        left.to_multiset() == whole.subrange(0, mid).to_multiset(),
        right.to_multiset() == whole.subrange(mid, whole.len() as int).to_multiset(),
        sorted_along(whole, axis),
    ensures
        separates(left, right, axis),
{
    let low = whole.subrange(0, mid);
    let high = whole.subrange(mid, whole.len() as int);
    assert forall|i: int, j: int| 0 <= i < left.len() && 0 <= j < right.len() implies
        (#[trigger] left[i]).sort_key(axis) <= (#[trigger] right[j]).sort_key(axis) by {
        let a = left[i];
        let b = right[j];
        to_multiset_contains(left, a);
        to_multiset_contains(low, a);
        to_multiset_contains(right, b);
        to_multiset_contains(high, b);
        assert(left.contains(a));
        assert(right.contains(b));
        assert(low.contains(a));
        assert(high.contains(b));
        let x = choose|x: int| 0 <= x < low.len() && low[x] == a;
        let y = choose|y: int| 0 <= y < high.len() && high[y] == b;
        assert(whole[x] == a);
        assert(whole[mid + y] == b);
    }
}

/// Measured objects followed by measured objects are measured.
proof fn lemma_measured_join<N: Arithmetic, P: RenderObject<N>>(
    left_objects: Seq<P>,
    left_volumes: Seq<Bounds>,
    right_objects: Seq<P>,
    right_volumes: Seq<Bounds>,
    num: &N,
)
    requires
        measured(left_objects, left_volumes, num),
        measured(right_objects, right_volumes, num),
    ensures
        measured(left_objects + right_objects, left_volumes + right_volumes, num),
{
    let objects = left_objects + right_objects;
    let volumes = left_volumes + right_volumes;
    assert forall|i: int| 0 <= i < objects.len() implies
        call_ensures(P::bounds, (&#[trigger] objects[i], num), volumes[i]) by {
        if i < left_objects.len() {
            assert(objects[i] == left_objects[i]);
        } else {
            assert(objects[i] == right_objects[i - left_objects.len()]);
        }
    }
}

impl<P> BVH<P> {
    /// The objects at the leaves, from left to right.
    pub open spec fn primitives(self) -> Seq<P>
        decreases self,
    {
        match self {
            BVH::Node(left, right, _) => left.primitives() + right.primitives(),
            BVH::Shape(object, _) => seq![object],
        }
    }

    /// The volumes at the leaves, from left to right.
    pub open spec fn volumes(self) -> Seq<Bounds>
        decreases self,
    {
        match self {
            BVH::Node(left, right, _) => left.volumes() + right.volumes(),
            BVH::Shape(_, volume) => seq![volume],
        }
    }

    /// The volume at the root.
    pub open spec fn spec_bounds(self) -> Bounds {
        match self {
            BVH::Node(_, _, volume) => volume,
            BVH::Shape(_, volume) => volume,
        }
    }

    /// The number of nodes on the longest way from the root down to a leaf.
    pub open spec fn height(self) -> nat
        decreases self,
    {
        match self {
            BVH::Node(left, right, _) => 1 + if left.height() >= right.height() {
                left.height()
            } else {
                right.height()
            },
            BVH::Shape(_, _) => 0,
        }
    }

    /// Every inner node's volume is the union of its children's volumes.
    pub open spec fn tight(self) -> bool
        decreases self,
    {
        match self {
            BVH::Node(left, right, volume) => left.tight() && right.tight() && volume
                == left.spec_bounds().union(right.spec_bounds()),
            BVH::Shape(_, _) => true,
        }
    }

    /// Every inner node has the lower half of its leaves on the left: of
    /// `n` leaves, `n / 2` rounded down.
    pub open spec fn balanced(self) -> bool
        decreases self,
    {
        match self {
            BVH::Node(left, right, _) => left.balanced() && right.balanced() && left.primitives().len()
                == (left.primitives().len() + right.primitives().len()) / 2,
            BVH::Shape(_, _) => true,
        }
    }

    /// Every inner node splits its leaves along one of the three axes: no
    /// leaf on the right sorts before one on the left.
    pub open spec fn split(self) -> bool
        decreases self,
    {
        match self {
            BVH::Node(left, right, _) => left.split() && right.split() && exists|axis: int|
                0 <= axis < 3 && #[trigger] separates(left.volumes(), right.volumes(), axis),
            BVH::Shape(_, _) => true,
        }
    }

    /// What `new` establishes and nothing changes afterwards.
    pub open spec fn well_formed<N: Arithmetic>(self, num: &N) -> bool where P: RenderObject<N> {
        &&& self.tight()
        &&& self.balanced()
        &&& self.split()
        &&& measured(self.primitives(), self.volumes(), num)
    }

    /// What `intersect` may return for `ray`. A node whose volume the ray
    /// misses yields nothing. A leaf whose volume the ray meets yields what
    /// its object's `intersect` returned. An inner node whose volume the ray
    /// meets yields the nearer of what its two subtrees yield.
    pub open spec fn yields<N: Arithmetic>(
        self,
        ray: Ray,
        num: &N,
        hit: Option<IntersectionPayload>,
    ) -> bool where
        P: RenderObject<N>,

        decreases self,
    {
        match self {
            BVH::Shape(object, volume) => exists|met: bool| #[trigger]
                volume.admits(ray, num, met) && if met {
                    call_ensures(P::intersect, (&object, &ray, num), hit)
                } else {
                    hit is None
                },
            BVH::Node(left, right, volume) => exists|met: bool| #[trigger]
                volume.admits(ray, num, met) && if met {
                    exists|from_left: Option<IntersectionPayload>, from_right: Option<IntersectionPayload>|
                        left.yields(ray, num, from_left) && right.yields(ray, num, from_right) && hit
                            == #[trigger] nearer(from_left, from_right)
                } else {
                    hit is None
                },
        }
    }

    /// The nearest hit of `ray` among the objects of the tree. Both
    /// subtrees of a node whose volume the ray meets are searched.
    pub fn intersect<N: Arithmetic>(&self, ray: &Ray, num: &N) -> (hit: Option<IntersectionPayload>) where
        P: RenderObject<N>,

        ensures
            self.yields(*ray, num, hit),
        decreases self,
    {
        match self {
            BVH::Shape(render_object, bounds) => {
                if !bounds.intersect(ray, num) {
                    return None;
                }
                render_object.intersect(ray, num)
            },
            BVH::Node(left, right, bounds) => {
                if !bounds.intersect(ray, num) {
                    return None;
                }
                let from_left = left.intersect(ray, num);
                let from_right = right.intersect(ray, num);
                nearer_hit(from_left, from_right)
            },
        }
    }

    /// The volume at the root.
    pub fn bounds(&self) -> (volume: &Bounds)
        ensures
            *volume == self.spec_bounds(),
    {
        match self {
            BVH::Node(_, _, volume) => volume,
            BVH::Shape(_, volume) => volume,
        }
    }

    /// The union of two volumes: the component-wise minimum of the lower
    /// corners and maximum of the upper corners, and all of space as soon
    /// as one of the two is.
    pub fn surrounding_box(box_a: &Bounds, box_b: &Bounds) -> (volume: Bounds)
        ensures
            volume == box_a.union(*box_b),
    {
        match (box_a, box_b) {
            (Bounds::Full, _) => Bounds::Full,
            (_, Bounds::Full) => Bounds::Full,
            (Bounds::BoundingBox(min_a, max_a), Bounds::BoundingBox(min_b, max_b)) => {
                let min = Vector3::min(min_a, min_b);
                let max = Vector3::max(max_a, max_b);
                Bounds::BoundingBox(min, max)
            },
        }
    }

    /// Builds the tree over objects whose volumes are known.
    fn build<N: Arithmetic>(mut objects: Vec<P>, mut volumes: Vec<Bounds>, num: &N) -> (tree: BVH<P>) where
        P: RenderObject<N>,

        requires
            objects.len() > 0,
            measured(objects@, volumes@, num),
        ensures
            tree.well_formed(num),
            tree.primitives().to_multiset() == objects@.to_multiset(),
            tree.volumes().to_multiset() == volumes@.to_multiset(),
            tree.primitives().len() == objects.len(),
            objects.len() == 1 ==> tree == BVH::Shape(objects[0], volumes[0]),
            objects.len() > 1 ==> tree is Node,
        decreases objects.len(),
    {
        let ghost given_objects = objects@;
        let ghost given_volumes = volumes@;
        if objects.len() == 1 {
            let volume = volumes[0];
            let object = objects.remove(0);
            proof {
                assert(seq![object] =~= given_objects);
                assert(seq![volume] =~= given_volumes);
            }
            BVH::Shape(object, volume)
        } else {
            let axis = random_axis();
            sort_along(&mut objects, &mut volumes, axis, num);
            let ghost sorted_objects = objects@;
            let ghost sorted_volumes = volumes@;
            proof {
                sorted_objects.to_multiset_ensures();
                given_objects.to_multiset_ensures();
            }
            let mid: usize = objects.len() / 2;
            let right_objects = objects.split_off(mid);
            let right_volumes = volumes.split_off(mid);
            let left = BVH::build(objects, volumes, num);
            let right = BVH::build(right_objects, right_volumes, num);
            let volume = BVH::<P>::surrounding_box(left.bounds(), right.bounds());
            let tree = BVH::Node(Box::new(left), Box::new(right), volume);
            proof {
                lemma_halves_join(left.primitives(), right.primitives(), sorted_objects, mid as int);
                lemma_halves_join(left.volumes(), right.volumes(), sorted_volumes, mid as int);
                lemma_halves_separate(left.volumes(), right.volumes(), sorted_volumes, mid as int, axis as int);
                lemma_measured_join(left.primitives(), left.volumes(), right.primitives(), right.volumes(), num);
                assert(tree.primitives() == left.primitives() + right.primitives());
                assert(tree.volumes() == left.volumes() + right.volumes());
            }
            tree
        }
    }

    /// Builds the tree over `render_objects`. A single object becomes a leaf
    /// with its own volume. Otherwise the objects are sorted along an axis
    /// chosen at random, by the lower corners of their volumes, those
    /// without a finite volume last; the lower half goes to the left
    /// subtree and the rest to the right one.
    pub fn new<N: Arithmetic>(render_objects: Vec<P>, num: &N) -> (tree: BVH<P>) where P: RenderObject<N>
        requires
            render_objects.len() > 0,
        ensures
            tree.well_formed(num),
            tree.primitives().to_multiset() == render_objects@.to_multiset(),
            tree.primitives().len() == render_objects.len(),
            forall|i: int|
                0 <= i < tree.primitives().len() ==> render_objects@.contains(#[trigger] tree.primitives()[i]),
            render_objects.len() == 1 ==> (tree matches BVH::Shape(object, volume) && object
                == render_objects[0] && call_ensures(P::bounds, (&object, num), volume)),
            render_objects.len() > 1 ==> tree is Node,
    {
        let mut volumes: Vec<Bounds> = Vec::new();
        let mut i: usize = 0;
        while i < render_objects.len()
            invariant
                i <= render_objects.len(),
                volumes.len() == i,
                forall|k: int| 0 <= k < i ==>
                    call_ensures(P::bounds, (&#[trigger] render_objects@[k], num), volumes@[k]),
            decreases render_objects.len() - i,
        {
            let volume = render_objects[i].bounds(num);
            volumes.push(volume);
            i = i + 1;
        }
        let tree = BVH::build(render_objects, volumes, num);
        proof {
            assert forall|i: int| 0 <= i < tree.primitives().len() implies render_objects@.contains(
                #[trigger] tree.primitives()[i],
            ) by {
                to_multiset_contains(tree.primitives(), tree.primitives()[i]);
                to_multiset_contains(render_objects@, tree.primitives()[i]);
            }
        }
        tree
    }
}

/// The least `k` with `n <= 2^k`.
pub open spec fn log2_ceil(n: nat) -> nat
    decreases n,
{
    if n <= 1 {
        0
    } else {
        1 + log2_ceil((n + 1) / 2)
    }
}

proof fn lemma_log2_ceil_monotone(a: nat, b: nat)
    requires
        a <= b,
    ensures
        log2_ceil(a) <= log2_ceil(b),
    decreases b,
{
    if b > 1 && a > 1 {
        lemma_log2_ceil_monotone((a + 1) / 2, (b + 1) / 2);
    }
}

/// A balanced tree over `n` objects is as low as a binary tree over `n`
/// leaves can be: its height is the least `k` with `n <= 2^k`.
pub proof fn lemma_balanced_height<P>(tree: BVH<P>)
    requires
        tree.balanced(),
    ensures
        tree.primitives().len() >= 1,
        tree.height() == log2_ceil(tree.primitives().len()),
    decreases tree,
{
    match tree {
        BVH::Node(left, right, _) => {
            lemma_balanced_height(*left);
            lemma_balanced_height(*right);
            let n = tree.primitives().len();
            assert(n == left.primitives().len() + right.primitives().len());
            assert(right.primitives().len() == (n + 1) / 2);
            lemma_log2_ceil_monotone(left.primitives().len(), right.primitives().len());
        },
        BVH::Shape(_, _) => {},
    }
}

/// In a tight tree over well-formed volumes, the volume at the root is
/// well formed and holds the volume of every leaf.
pub proof fn lemma_root_encloses_leaves<P>(tree: BVH<P>)
    requires
        tree.tight(),
        forall|i: int| 0 <= i < tree.volumes().len() ==> (#[trigger] tree.volumes()[i]).well_formed(),
    ensures
        tree.spec_bounds().well_formed(),
        forall|i: int| 0 <= i < tree.volumes().len() ==> tree.spec_bounds().encloses(#[trigger] tree.volumes()[i]),
    decreases tree,
{
    match tree {
        BVH::Node(left, right, volume) => {
            let l = left.volumes();
            let r = right.volumes();
            assert forall|i: int| 0 <= i < l.len() implies (#[trigger] l[i]).well_formed() by {
                assert(tree.volumes()[i] == l[i]);
            }
            assert forall|i: int| 0 <= i < r.len() implies (#[trigger] r[i]).well_formed() by {
                assert(tree.volumes()[l.len() + i] == r[i]);
            }
            lemma_root_encloses_leaves(*left);
            lemma_root_encloses_leaves(*right);
            crate::shapes::bounds::lemma_union_encloses(left.spec_bounds(), right.spec_bounds());
            assert forall|i: int| 0 <= i < tree.volumes().len() implies
                volume.encloses(#[trigger] tree.volumes()[i]) by {
                if i < l.len() {
                    assert(tree.volumes()[i] == l[i]);
                    crate::shapes::bounds::lemma_encloses_transitive(volume, left.spec_bounds(), l[i]);
                } else {
                    assert(tree.volumes()[i] == r[i - l.len()]);
                    crate::shapes::bounds::lemma_encloses_transitive(volume, right.spec_bounds(), r[i - l.len()]);
                }
            }
        },
        BVH::Shape(_, volume) => {
            assert(tree.volumes()[0] == volume);
        },
    }
}

/// In a tight tree with a leaf whose volume is all of space, the volume at
/// the root is all of space.
pub proof fn lemma_full_reaches_root<P>(tree: BVH<P>, i: int)
    requires
        tree.tight(),
        0 <= i < tree.volumes().len(),
        tree.volumes()[i] is Full,
    ensures
        tree.spec_bounds() is Full,
    decreases tree,
{
    match tree {
        BVH::Node(left, right, volume) => {
            if i < left.volumes().len() {
                assert(tree.volumes()[i] == left.volumes()[i]);
                lemma_full_reaches_root(*left, i);
            } else {
                assert(tree.volumes()[i] == right.volumes()[i - left.volumes().len()]);
                lemma_full_reaches_root(*right, i - left.volumes().len());
            }
        },
        BVH::Shape(_, volume) => {},
    }
}

} // verus!
