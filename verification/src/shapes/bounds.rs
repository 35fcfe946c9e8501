use vstd::prelude::*;
use crate::data_structures::ray::Ray;
use crate::maths::scalar::{Scalar, INFINITY_BITS, ZERO_BITS};
use crate::maths::vector3::Vector3;
use crate::traits::arithmetic::{difference_keeps_order, divides, quotient_keeps_sign, subtracts, Arithmetic};

verus! {

/// An axis-aligned volume: a box, or all of space.
#[derive(Clone, Copy, Debug)]
pub enum Bounds {
    BoundingBox(Vector3, Vector3),
    Full,
}

/// The stretch of a ray, from the first number to the second, that is still
/// inside every slab looked at so far.
pub type Interval = (Scalar, Scalar);

/// The whole ray: from 0 to infinity.
pub open spec fn whole_ray() -> Interval {
    (Scalar { bits: ZERO_BITS }, Scalar { bits: INFINITY_BITS })
}

/// Nothing of the ray is left: the interval ends at or before its start.
pub open spec fn exhausted(interval: Interval) -> bool {
    interval.1.at_most(interval.0)
}

/// The ray runs towards lower coordinates on an axis where its direction is
/// `direction`: the reciprocal of `direction` is below zero, which is so
/// for the finite negative numbers and for the negative zero.
pub open spec fn runs_backwards(direction: Scalar) -> bool {
    direction.sign() && direction.finite()
}

/// Cuts an interval down to one axis's slab. The ray crosses the slab's lower
/// plane at `at_min` and its upper plane at `at_max`; a ray that runs towards
/// lower coordinates enters through the upper plane.
pub open spec fn clip(interval: Interval, direction: Scalar, at_min: Scalar, at_max: Scalar) -> Interval {
    let enter = if runs_backwards(direction) {
        at_max
    } else {
        at_min
    };
    let leave = if runs_backwards(direction) {
        at_min
    } else {
        at_max
    };
    (
        if interval.0.below(enter) {
            enter
        } else {
            interval.0
        },
        if leave.below(interval.1) {
            leave
        } else {
            interval.1
        },
    )
}

/// The slab test on the crossings of all three axes: the ray meets the box
/// when cutting the whole ray down slab by slab never exhausts it.
pub open spec fn slabs_overlap(direction: Vector3, at_min: Vector3, at_max: Vector3) -> bool {
    let first = clip(whole_ray(), direction.0, at_min.0, at_max.0);
    let second = clip(first, direction.1, at_min.1, at_max.1);
    let third = clip(second, direction.2, at_min.2, at_max.2);
    !exhausted(first) && !exhausted(second) && !exhausted(third)
}

/// Executable `clip`.
pub fn clip_interval(interval: Interval, direction: Scalar, at_min: Scalar, at_max: Scalar) -> (r: Interval)
    ensures
        r == clip(interval, direction, at_min, at_max),
{
    let backwards = direction.is_sign_negative() && direction.is_finite();
    let enter = if backwards {
        at_max
    } else {
        at_min
    };
    let leave = if backwards {
        at_min
    } else {
        at_max
    };
    let start = if interval.0.lt(enter) {
        enter
    } else {
        interval.0
    };
    let end = if leave.lt(interval.1) {
        leave
    } else {
        interval.1
    };
    (start, end)
}

impl Bounds {
    /// The lower corner is at most the upper corner on every axis, and no
    /// coordinate is NaN.
    pub open spec fn well_formed(self) -> bool {
        match self {
            Bounds::BoundingBox(min, max) => min.at_most(max),
            Bounds::Full => true,
        }
    }

    /// Every point of `other` lies in `self`.
    pub open spec fn encloses(self, other: Bounds) -> bool {
        match (self, other) {
            (Bounds::Full, _) => true,
            (Bounds::BoundingBox(_, _), Bounds::Full) => false,
            (Bounds::BoundingBox(min, max), Bounds::BoundingBox(inner_min, inner_max)) => min.at_most(
                inner_min,
            ) && inner_max.at_most(max),
        }
    }

    /// The smallest volume that holds both: all of space as soon as one of them is.
    pub open spec fn union(self, other: Bounds) -> Bounds {
        match (self, other) {
            (Bounds::Full, _) => Bounds::Full,
            (_, Bounds::Full) => Bounds::Full,
            (Bounds::BoundingBox(min_a, max_a), Bounds::BoundingBox(min_b, max_b)) => Bounds::BoundingBox(
                min_a.lesser(min_b),
                max_a.greater(max_b),
            ),
        }
    }

    /// Where the volume stands when volumes are sorted along an axis: a box
    /// by the rank of its lower corner's coordinate, all of space after
    /// every box. A coordinate that is no number has a rank as well, beyond
    /// that of the infinity of its sign.
    pub open spec fn sort_key(self, axis: int) -> int {
        match self {
            Bounds::BoundingBox(min, _) => min[axis].rank(),
            Bounds::Full => 0x8000_0000_0000_0000,
        }
    }

    /// What `intersect` may return for `ray`: for a box, the slab test on
    /// crossings that `num` computed, axis by axis, until the ray is exhausted.
    pub open spec fn admits<N: Arithmetic>(self, ray: Ray, num: &N, hit: bool) -> bool {
        match self {
            Bounds::BoundingBox(min, max) => clips_from(min, max, ray, num, 0, whole_ray(), hit),
            Bounds::Full => hit,
        }
    }

    pub fn new(a: Vector3, b: Vector3) -> (bounds: Bounds)
        ensures
            bounds == Bounds::BoundingBox(a, b),
    {
        Bounds::BoundingBox(a, b)
    }

    /// Whether `self` comes strictly before `other` when volumes are sorted
    /// along `axis`.
    pub fn sorts_before(&self, other: &Bounds, axis: usize) -> (before: bool)
        requires
            axis < 3,
        ensures
            before == (self.sort_key(axis as int) < other.sort_key(axis as int)),
    {
        match (self, other) {
            (Bounds::Full, _) => false,
            (Bounds::BoundingBox(_, _), Bounds::Full) => true,
            (Bounds::BoundingBox(min_a, _), Bounds::BoundingBox(min_b, _)) => min_a.index(axis).key()
                < min_b.index(axis).key(),
        }
    }

    /// The slab test on crossings that were computed beforehand.
    pub fn overlaps(direction: &Vector3, at_min: &Vector3, at_max: &Vector3) -> (hit: bool)
        ensures
            hit == slabs_overlap(*direction, *at_min, *at_max),
    {
        let whole = (Scalar::zero(), Scalar::infinity());
        let first = clip_interval(whole, direction.0, at_min.0, at_max.0);
        if first.1.le(first.0) {
            return false;
        }
        let second = clip_interval(first, direction.1, at_min.1, at_max.1);
        if second.1.le(second.0) {
            return false;
        }
        let third = clip_interval(second, direction.2, at_min.2, at_max.2);
        !third.1.le(third.0)
    }

    /// Whether `ray` meets the volume. All of space is always met. For a box
    /// the ray is cut down slab by slab, starting from `[0, infinity]`, and
    /// is rejected as soon as nothing of it is left.
    pub fn intersect<N: Arithmetic>(&self, ray: &Ray, num: &N) -> (hit: bool)
        ensures
            self.admits(*ray, num, hit),
    {
        match self {
            Bounds::BoundingBox(min, max) => {
                let mut interval = (Scalar::zero(), Scalar::infinity());
                let mut axis: usize = 0;
                while axis < 3
                    invariant
                        axis <= 3,
                        *self == Bounds::BoundingBox(*min, *max),
                        forall|r: bool| #[trigger]
                            clips_from(*min, *max, *ray, num, axis as int, interval, r)
                                ==> clips_from(*min, *max, *ray, num, 0, whole_ray(), r),
                    decreases 3 - axis,
                {
                    let at_min = crossing(num, min.index(axis), ray.origin.index(axis), ray.direction.index(axis));
                    let at_max = crossing(num, max.index(axis), ray.origin.index(axis), ray.direction.index(axis));
                    let next = clip_interval(interval, ray.direction.index(axis), at_min, at_max);
                    proof {
                        lemma_clips_step(*min, *max, *ray, num, axis as int, interval, at_min, at_max);
                    }
                    if next.1.le(next.0) {
                        assert(clips_from(*min, *max, *ray, num, axis as int, interval, false));
                        return false;
                    }
                    interval = next;
                    axis = axis + 1;
                }
                assert(clips_from(*min, *max, *ray, num, 3, interval, true));
                true
            },
            Bounds::Full => true,
        }
    }
}

/// `num` may compute `at` as `(plane - origin) / direction`: how far along
/// the ray an axis-aligned plane lies.
pub open spec fn crosses_at<N: Arithmetic>(
    num: &N,
    plane: Scalar,
    origin: Scalar,
    direction: Scalar,
    at: Scalar,
) -> bool {
    exists|offset: Scalar| #[trigger] subtracts(num, plane, origin, offset) && divides(num, offset, direction, at)
}

/// How far along a ray an axis-aligned plane lies: `(plane - origin) / direction`.
pub fn crossing<N: Arithmetic>(num: &N, plane: Scalar, origin: Scalar, direction: Scalar) -> (at: Scalar)
    ensures
        crosses_at(num, plane, origin, direction, at),
{
    let offset = num.difference(plane, origin);
    let at = num.quotient(offset, direction);
    assert(subtracts(num, plane, origin, offset));
    at
}

/// `num` computed `at_min` and `at_max` as the places where `ray` crosses
/// the two planes of the box on `axis`.
pub open spec fn crossed_at<N: Arithmetic>(
    min: Vector3,
    max: Vector3,
    ray: Ray,
    num: &N,
    axis: int,
    at_min: Scalar,
    at_max: Scalar,
) -> bool {
    &&& crosses_at(num, min[axis], ray.origin[axis], ray.direction[axis], at_min)
    &&& crosses_at(num, max[axis], ray.origin[axis], ray.direction[axis], at_max)
}

/// What the slab test may return from axis `axis` on, with `interval` left
/// of the ray: on each axis `num` computes the two crossings, the interval
/// is clipped, and the test fails once it is exhausted.
pub open spec fn clips_from<N: Arithmetic>(
    min: Vector3,
    max: Vector3,
    ray: Ray,
    num: &N,
    axis: int,
    interval: Interval,
    hit: bool,
) -> bool
    decreases 3 - axis,
{
    if axis >= 3 {
        hit
    } else {
        exists|at_min: Scalar, at_max: Scalar| #[trigger]
            crossed_at(min, max, ray, num, axis, at_min, at_max) && if exhausted(
                clip(interval, ray.direction[axis], at_min, at_max),
            ) {
                !hit
            } else {
                clips_from(
                    min,
                    max,
                    ray,
                    num,
                    axis + 1,
                    clip(interval, ray.direction[axis], at_min, at_max),
                    hit,
                )
            }
    }
}

proof fn lemma_clips_step<N: Arithmetic>(
    min: Vector3,
    max: Vector3,
    ray: Ray,
    num: &N,
    axis: int,
    interval: Interval,
    at_min: Scalar,
    at_max: Scalar,
)
    requires
        0 <= axis < 3,
        crossed_at(min, max, ray, num, axis, at_min, at_max),
    ensures
        exhausted(clip(interval, ray.direction[axis], at_min, at_max)) ==> clips_from(
            min,
            max,
            ray,
            num,
            axis,
            interval,
            false,
        ),
        !exhausted(clip(interval, ray.direction[axis], at_min, at_max)) ==> forall|r: bool| #[trigger]
            clips_from(
                min,
                max,
                ray,
                num,
                axis + 1,
                clip(interval, ray.direction[axis], at_min, at_max),
                r,
            ) ==> clips_from(min, max, ray, num, axis, interval, r),
{
}

/// The union of two well-formed volumes is well formed and holds both.
pub proof fn lemma_union_encloses(a: Bounds, b: Bounds)
    requires
        a.well_formed(),
        b.well_formed(),
    ensures
        a.union(b).well_formed(),
        a.union(b).encloses(a),
        a.union(b).encloses(b),
{
}

/// The union is the least volume that holds both: every volume that holds
/// both holds their union.
pub proof fn lemma_union_is_least(a: Bounds, b: Bounds, c: Bounds)
    requires
        c.encloses(a),
        c.encloses(b),
    ensures
        c.encloses(a.union(b)),
{
}

/// A volume that holds a second one holds what the second one holds.
pub proof fn lemma_encloses_transitive(a: Bounds, b: Bounds, c: Bounds)
    requires
        a.encloses(b),
        b.encloses(c),
    ensures
        a.encloses(c),
{
}

/// One axis of the slab test, for crossings that the arithmetic can
/// compute in one way only.
proof fn lemma_clips_once<N: Arithmetic>(
    min: Vector3,
    max: Vector3,
    ray: Ray,
    num: &N,
    axis: int,
    interval: Interval,
    hit: bool,
    at_min: Scalar,
    at_max: Scalar,
)
    requires
        0 <= axis < 3,
        clips_from(min, max, ray, num, axis, interval, hit),
        forall|x: Scalar, y: Scalar| #[trigger]
            crossed_at(min, max, ray, num, axis, x, y) ==> x == at_min && y == at_max,
    ensures
        exhausted(clip(interval, ray.direction[axis], at_min, at_max)) ==> !hit,
        !exhausted(clip(interval, ray.direction[axis], at_min, at_max)) ==> clips_from(
            min,
            max,
            ray,
            num,
            axis + 1,
            clip(interval, ray.direction[axis], at_min, at_max),
            hit,
        ),
{
    let (x, y) = choose|x: Scalar, y: Scalar| #[trigger]
        crossed_at(min, max, ray, num, axis, x, y) && if exhausted(clip(interval, ray.direction[axis], x, y)) {
            !hit
        } else {
            clips_from(min, max, ray, num, axis + 1, clip(interval, ray.direction[axis], x, y), hit)
        };
    assert(x == at_min && y == at_max);
}

/// `intersect` and `overlaps` are one test: where the arithmetic can
/// compute each crossing of the ray and the box in one way only, what
/// `intersect` returns is what `overlaps` returns on those crossings.
pub proof fn lemma_intersect_is_overlap<N: Arithmetic>(
    min: Vector3,
    max: Vector3,
    ray: Ray,
    num: &N,
    at_min: Vector3,
    at_max: Vector3,
    hit: bool,
)
    requires
        Bounds::BoundingBox(min, max).admits(ray, num, hit),
        forall|axis: int, x: Scalar, y: Scalar|
            0 <= axis < 3 && #[trigger] crossed_at(min, max, ray, num, axis, x, y) ==> x == at_min[axis] && y
                == at_max[axis],
    ensures
        hit == slabs_overlap(ray.direction, at_min, at_max),
{
    let first = clip(whole_ray(), ray.direction[0], at_min[0], at_max[0]);
    let second = clip(first, ray.direction[1], at_min[1], at_max[1]);
    let third = clip(second, ray.direction[2], at_min[2], at_max[2]);
    lemma_clips_once(min, max, ray, num, 0, whole_ray(), hit, at_min[0], at_max[0]);
    if !exhausted(first) {
        lemma_clips_once(min, max, ray, num, 1, first, hit, at_min[1], at_max[1]);
        if !exhausted(second) {
            lemma_clips_once(min, max, ray, num, 2, second, hit, at_min[2], at_max[2]);
        }
    }
}

/// The ray is inside the slab at its origin: it enters the slab at or
/// before its origin and leaves it after its origin.
pub open spec fn starts_inside(direction: Scalar, at_min: Scalar, at_max: Scalar) -> bool {
    let zero = Scalar { bits: ZERO_BITS };
    let enter = if runs_backwards(direction) {
        at_max
    } else {
        at_min
    };
    let leave = if runs_backwards(direction) {
        at_min
    } else {
        at_max
    };
    !zero.below(enter) && zero.below(leave)
}

/// The ray has the slab behind it: it leaves the slab at or before its origin.
pub open spec fn starts_beyond(direction: Scalar, at_min: Scalar, at_max: Scalar) -> bool {
    let leave = if runs_backwards(direction) {
        at_min
    } else {
        at_max
    };
    leave.at_most(Scalar { bits: ZERO_BITS })
}

/// A ray that starts inside the box meets it: where on every axis the ray
/// is inside the slab at its origin, the slab test succeeds.
pub proof fn lemma_origin_inside_is_met(direction: Vector3, at_min: Vector3, at_max: Vector3)
    requires
        forall|axis: int| 0 <= axis < 3 ==> starts_inside(#[trigger] direction[axis], at_min[axis], at_max[axis]),
    ensures
        slabs_overlap(direction, at_min, at_max),
{
    assert(starts_inside(direction[0], at_min[0], at_max[0]));
    assert(starts_inside(direction[1], at_min[1], at_max[1]));
    assert(starts_inside(direction[2], at_min[2], at_max[2]));
}

/// A ray that runs away from the box misses it: where on some axis the ray
/// has the slab behind it, the slab test fails.
pub proof fn lemma_leaving_is_missed(direction: Vector3, at_min: Vector3, at_max: Vector3, axis: int)
    requires
        0 <= axis < 3,
        starts_beyond(direction[axis], at_min[axis], at_max[axis]),
    ensures
        !slabs_overlap(direction, at_min, at_max),
{
}

proof fn lemma_inside_from<N: Arithmetic>(
    min: Vector3,
    max: Vector3,
    ray: Ray,
    num: &N,
    axis: int,
    interval: Interval,
    hit: bool,
)
    requires
        0 <= axis <= 3,
        clips_from(min, max, ray, num, axis, interval, hit),
        interval.0 == (Scalar { bits: ZERO_BITS }),
        (Scalar { bits: ZERO_BITS }).below(interval.1),
        forall|a: int, at_min: Scalar, at_max: Scalar|
            0 <= a < 3 && #[trigger] crossed_at(min, max, ray, num, a, at_min, at_max) ==> starts_inside(
                ray.direction[a],
                at_min,
                at_max,
            ),
    ensures
        hit,
    decreases 3 - axis,
{
    if axis < 3 {
        let (at_min, at_max) = choose|at_min: Scalar, at_max: Scalar| #[trigger]
            crossed_at(min, max, ray, num, axis, at_min, at_max) && if exhausted(
                clip(interval, ray.direction[axis], at_min, at_max),
            ) {
                !hit
            } else {
                clips_from(
                    min,
                    max,
                    ray,
                    num,
                    axis + 1,
                    clip(interval, ray.direction[axis], at_min, at_max),
                    hit,
                )
            };
        assert(starts_inside(ray.direction[axis], at_min, at_max));
        lemma_inside_from(
            min,
            max,
            ray,
            num,
            axis + 1,
            clip(interval, ray.direction[axis], at_min, at_max),
            hit,
        );
    }
}

/// A box is met by every ray that starts inside it: where, whatever the
/// arithmetic computes for the crossings, the ray is inside the slab of
/// every axis at its origin, `intersect` returns true.
pub proof fn lemma_intersect_from_inside<N: Arithmetic>(min: Vector3, max: Vector3, ray: Ray, num: &N, hit: bool)
    requires
        Bounds::BoundingBox(min, max).admits(ray, num, hit),
        forall|a: int, at_min: Scalar, at_max: Scalar|
            0 <= a < 3 && #[trigger] crossed_at(min, max, ray, num, a, at_min, at_max) ==> starts_inside(
                ray.direction[a],
                at_min,
                at_max,
            ),
    ensures
        hit,
{
    lemma_inside_from(min, max, ray, num, 0, whole_ray(), hit);
}

proof fn lemma_beyond_from<N: Arithmetic>(
    min: Vector3,
    max: Vector3,
    ray: Ray,
    num: &N,
    axis: int,
    interval: Interval,
    hit: bool,
    behind: int,
)
    requires
        0 <= axis <= behind < 3,
        clips_from(min, max, ray, num, axis, interval, hit),
        !interval.0.nan(),
        interval.0.rank() >= 0,
        !interval.1.nan(),
        forall|at_min: Scalar, at_max: Scalar| #[trigger]
            crossed_at(min, max, ray, num, behind, at_min, at_max) ==> starts_beyond(
                ray.direction[behind],
                at_min,
                at_max,
            ),
    ensures
        !hit,
    decreases 3 - axis,
{
    let (at_min, at_max) = choose|at_min: Scalar, at_max: Scalar| #[trigger]
        crossed_at(min, max, ray, num, axis, at_min, at_max) && if exhausted(
            clip(interval, ray.direction[axis], at_min, at_max),
        ) {
            !hit
        } else {
            clips_from(min, max, ray, num, axis + 1, clip(interval, ray.direction[axis], at_min, at_max), hit)
        };
    let next = clip(interval, ray.direction[axis], at_min, at_max);
    if axis == behind {
        assert(starts_beyond(ray.direction[axis], at_min, at_max));
        assert(exhausted(next));
    } else if !exhausted(next) {
        lemma_beyond_from(min, max, ray, num, axis + 1, next, hit, behind);
    }
}

/// A box is missed by every ray that runs away from it: where, whatever
/// the arithmetic computes for the crossings, the ray has the slab of one
/// axis behind it, `intersect` returns false.
pub proof fn lemma_intersect_leaving<N: Arithmetic>(
    min: Vector3,
    max: Vector3,
    ray: Ray,
    num: &N,
    hit: bool,
    axis: int,
)
    requires
        0 <= axis < 3,
        Bounds::BoundingBox(min, max).admits(ray, num, hit),
        forall|at_min: Scalar, at_max: Scalar| #[trigger]
            crossed_at(min, max, ray, num, axis, at_min, at_max) ==> starts_beyond(
                ray.direction[axis],
                at_min,
                at_max,
            ),
    ensures
        !hit,
{
    lemma_beyond_from(min, max, ray, num, 0, whole_ray(), hit, axis);
}

/// A box is met by every ray that starts strictly inside it, whatever the
/// ray's direction, so long as the direction is finite and the arithmetic
/// subtracts in order and divides by the signs.
pub proof fn lemma_box_is_met_from_inside<N: Arithmetic>(min: Vector3, max: Vector3, ray: Ray, num: &N, hit: bool)
    requires
        Bounds::BoundingBox(min, max).admits(ray, num, hit),
        forall|axis: int|
            0 <= axis < 3 ==> (#[trigger] min[axis]).below(ray.origin[axis]) && ray.origin[axis].below(max[axis])
                && ray.direction[axis].finite(),
        difference_keeps_order(num),
        quotient_keeps_sign(num),
    ensures
        hit,
{
    assert forall|a: int, at_min: Scalar, at_max: Scalar|
        0 <= a < 3 && #[trigger] crossed_at(min, max, ray, num, a, at_min, at_max) implies starts_inside(
        ray.direction[a],
        at_min,
        at_max,
    ) by {
        assert(min[a].below(ray.origin[a]) && ray.origin[a].below(max[a]) && ray.direction[a].finite());
        let low = choose|offset: Scalar| #[trigger]
            subtracts(num, min[a], ray.origin[a], offset) && divides(num, offset, ray.direction[a], at_min);
        let high = choose|offset: Scalar| #[trigger]
            subtracts(num, max[a], ray.origin[a], offset) && divides(num, offset, ray.direction[a], at_max);
        assert(divides(num, low, ray.direction[a], at_min));
        assert(divides(num, high, ray.direction[a], at_max));
    }
    lemma_intersect_from_inside(min, max, ray, num, hit);
}

/// A box is missed by every ray that starts beyond one of its faces and
/// runs away from it: below the box on an axis and running down, or above
/// it and running up, with a finite direction on that axis, so long as the
/// arithmetic subtracts in order and divides by the signs.
pub proof fn lemma_box_is_missed_leaving<N: Arithmetic>(
    min: Vector3,
    max: Vector3,
    ray: Ray,
    num: &N,
    hit: bool,
    axis: int,
)
    requires
        0 <= axis < 3,
        Bounds::BoundingBox(min, max).admits(ray, num, hit),
        ray.direction[axis].finite(),
        (ray.origin[axis].below(min[axis]) && ray.direction[axis].below(Scalar { bits: ZERO_BITS })) || (
        max[axis].below(ray.origin[axis]) && (Scalar { bits: ZERO_BITS }).below(ray.direction[axis])),
        difference_keeps_order(num),
        quotient_keeps_sign(num),
    ensures
        !hit,
{
    assert forall|at_min: Scalar, at_max: Scalar| #[trigger]
        crossed_at(min, max, ray, num, axis, at_min, at_max) implies starts_beyond(
        ray.direction[axis],
        at_min,
        at_max,
    ) by {
        let low = choose|offset: Scalar| #[trigger]
            subtracts(num, min[axis], ray.origin[axis], offset) && divides(
                num,
                offset,
                ray.direction[axis],
                at_min,
            );
        let high = choose|offset: Scalar| #[trigger]
            subtracts(num, max[axis], ray.origin[axis], offset) && divides(
                num,
                offset,
                ray.direction[axis],
                at_max,
            );
        assert(divides(num, low, ray.direction[axis], at_min));
        assert(divides(num, high, ray.direction[axis], at_max));
    }
    lemma_intersect_leaving(min, max, ray, num, hit, axis);
}

} // verus!
