use vstd::prelude::*;
use crate::data_structures::intersection_payload::IntersectionPayload;
use crate::data_structures::ray::Ray;
use crate::maths::scalar::{Scalar, ZERO_BITS};
use crate::maths::vector3::Vector3;
use crate::shapes::bounds::{crosses_at, crossing};
use crate::traits::arithmetic::{adds, divides, draws, multiplies, subtracts, Arithmetic};

verus! {

/// Bit pattern of `1e-5`: half the thickness of the volume round a rectangle.
pub const THICKNESS_BITS: u64 = 0x3EE4_F8B5_88E3_68F1;

/// One axis of a rectangle: where a ray starts and how it runs on that
/// axis, and where the rectangle begins and ends on it.
pub struct Side {
    pub origin: Scalar,
    pub direction: Scalar,
    pub low: Scalar,
    pub high: Scalar,
}

/// `num` may compute `result` as `origin + t * direction`.
pub open spec fn slides<N: Arithmetic>(
    num: &N,
    origin: Scalar,
    t: Scalar,
    direction: Scalar,
    result: Scalar,
) -> bool {
    exists|step: Scalar| multiplies(num, t, direction, step) && #[trigger] adds(num, origin, step, result)
}

/// `origin + t * direction`.
pub fn slide<N: Arithmetic>(num: &N, origin: Scalar, t: Scalar, direction: Scalar) -> (result: Scalar)
    ensures
        slides(num, origin, t, direction, result),
{
    let step = num.product(t, direction);
    let result = num.sum(origin, step);
    assert(adds(num, origin, step, result));
    result
}

/// `num` may compute `result` as `(x - low) / (high - low)`.
pub open spec fn shares<N: Arithmetic>(
    num: &N,
    x: Scalar,
    low: Scalar,
    high: Scalar,
    result: Scalar,
) -> bool {
    exists|part: Scalar, whole: Scalar|
        subtracts(num, x, low, part) && subtracts(num, high, low, whole) && #[trigger] divides(
            num,
            part,
            whole,
            result,
        )
}

/// `(x - low) / (high - low)`.
pub fn share<N: Arithmetic>(num: &N, x: Scalar, low: Scalar, high: Scalar) -> (result: Scalar)
    ensures
        shares(num, x, low, high, result),
{
    let part = num.difference(x, low);
    let whole = num.difference(high, low);
    let result = num.quotient(part, whole);
    assert(divides(num, part, whole, result));
    result
}

/// `num` may compute `result` as `random * (high - low) + low`.
pub open spec fn picks<N: Arithmetic>(num: &N, low: Scalar, high: Scalar, result: Scalar) -> bool {
    exists|chance: Scalar, whole: Scalar, part: Scalar|
        draws(num, chance) && subtracts(num, high, low, whole) && #[trigger] multiplies(
            num,
            chance,
            whole,
            part,
        ) && #[trigger] adds(num, part, low, result)
}

/// A random place between `low` and `high`.
pub fn pick<N: Arithmetic>(num: &N, low: Scalar, high: Scalar) -> (result: Scalar)
    ensures
        picks(num, low, high, result),
{
    let chance = num.random();
    let whole = num.difference(high, low);
    let part = num.product(chance, whole);
    let result = num.sum(part, low);
    assert(multiplies(num, chance, whole, part) && adds(num, part, low, result));
    result
}

/// The place lies on the rectangle: on both axes at or after its
/// beginning and at or before its end. A place that is no number lies
/// nowhere.
pub open spec fn inside(a: Scalar, first: Side, b: Scalar, second: Side) -> bool {
    first.low.at_most(a) && a.at_most(first.high) && second.low.at_most(b) && b.at_most(second.high)
}

/// What a rectangle's `intersect` may return. The ray crosses the plane
/// of the rectangle at `t = (level - origin) / direction` on the axis across
/// it. There is no hit where `t` is no finite number, as it is for a ray
/// that runs along the plane, where `t` is below zero, or where the ray is
/// off the rectangle at `t`. Else the hit lies at `t`, with the rectangle's
/// normal and material, and with its place on the rectangle as shares of
/// the two sides.
pub open spec fn rect_hits<N: Arithmetic>(
    num: &N,
    ray: Ray,
    level: Scalar,
    across: (Scalar, Scalar),
    first: Side,
    second: Side,
    normal: Vector3,
    material_id: usize,
    hit: Option<IntersectionPayload>,
) -> bool {
    exists|t: Scalar| #[trigger]
        crosses_at(num, level, across.0, across.1, t) && if !t.finite() || t.below(Scalar { bits: ZERO_BITS }) {
            hit is None
        } else {
            exists|a: Scalar, b: Scalar| #[trigger]
                slides(num, first.origin, t, first.direction, a) && #[trigger] slides(
                    num,
                    second.origin,
                    t,
                    second.direction,
                    b,
                ) && if !inside(a, first, b, second) {
                    hit is None
                } else {
                    exists|position: Vector3, u: Scalar, v: Scalar| #[trigger]
                        ray.reaches(t, num, position) && #[trigger] shares(num, a, first.low, first.high, u)
                            && #[trigger] shares(num, b, second.low, second.high, v) && hit == Some(
                            IntersectionPayload { position, distance: t, normal, material_id, u, v },
                        )
                }
        }
}

/// Where a ray meets a rectangle.
pub fn rect_hit<N: Arithmetic>(
    num: &N,
    ray: &Ray,
    level: Scalar,
    across: (Scalar, Scalar),
    first: &Side,
    second: &Side,
    normal: Vector3,
    material_id: usize,
) -> (hit: Option<IntersectionPayload>)
    ensures
        rect_hits(num, *ray, level, across, *first, *second, normal, material_id, hit),
        hit matches Some(payload) ==> payload.distance.finite() && !payload.distance.below(
            Scalar { bits: ZERO_BITS },
        ) && payload.normal == normal && payload.material_id == material_id,
{
    let t = crossing(num, level, across.0, across.1);
    if !t.is_finite() || t.lt(Scalar::zero()) {
        return None;
    }
    let a = slide(num, first.origin, t, first.direction);
    let b = slide(num, second.origin, t, second.direction);
    if !(first.low.le(a) && a.le(first.high) && second.low.le(b) && b.le(second.high)) {
        return None;
    }
    let position = ray.at(t, num);
    let u = share(num, a, first.low, first.high);
    let v = share(num, b, second.low, second.high);
    Some(IntersectionPayload { distance: t, position, normal, material_id, u, v })
}

/// What a rectangle's `pdf_value` may return for a ray: zero where the ray
/// misses the rectangle or runs along it, and else the square of the
/// distance over the product of the rectangle's area and the cosine of
/// the angle between the ray and the normal.
pub open spec fn rect_weighs<N: Arithmetic>(
    num: &N,
    ray: Ray,
    level: Scalar,
    across: (Scalar, Scalar),
    first: Side,
    second: Side,
    normal: Vector3,
    material_id: usize,
    density: Scalar,
) -> bool {
    exists|hit: Option<IntersectionPayload>| #[trigger]
        rect_hits(num, ray, level, across, first, second, normal, material_id, hit) && match hit {
            None => density == (Scalar { bits: ZERO_BITS }),
            Some(payload) => exists|width: Scalar, height: Scalar, area: Scalar, square: Scalar, along: Scalar|
                {
                    &&& subtracts(num, first.high, first.low, width)
                    &&& subtracts(num, second.high, second.low, height)
                    &&& #[trigger] multiplies(num, width, height, area)
                    &&& #[trigger] multiplies(num, payload.distance, payload.distance, square)
                    &&& #[trigger] ray.direction.dots(payload.normal, num, along)
                    &&& if along.absolute().same(Scalar { bits: ZERO_BITS }) {
                        density == (Scalar { bits: ZERO_BITS })
                    } else {
                        exists|spread: Scalar| #[trigger]
                            multiplies(num, along.absolute(), area, spread) && divides(
                                num,
                                square,
                                spread,
                                density,
                            )
                    }
                },
        }
}

/// The density with which a rectangle's `random` picks the direction of a ray.
pub fn rect_weigh<N: Arithmetic>(
    num: &N,
    ray: &Ray,
    level: Scalar,
    across: (Scalar, Scalar),
    first: &Side,
    second: &Side,
    normal: Vector3,
    material_id: usize,
) -> (density: Scalar)
    ensures
        rect_weighs(num, *ray, level, across, *first, *second, normal, material_id, density),
{
    match rect_hit(num, ray, level, across, first, second, normal, material_id) {
        None => Scalar::zero(),
        Some(payload) => {
            let width = num.difference(first.high, first.low);
            let height = num.difference(second.high, second.low);
            let area = num.product(width, height);
            let square = num.product(payload.distance, payload.distance);
            let along = ray.direction.dot(&payload.normal, num);
            let cosine = along.abs();
            assert(multiplies(num, width, height, area));
            assert(multiplies(num, payload.distance, payload.distance, square));
            if cosine.equals(Scalar::zero()) {
                return Scalar::zero();
            }
            let spread = num.product(cosine, area);
            let density = num.quotient(square, spread);
            assert(multiplies(num, along.absolute(), area, spread));
            density
        },
    }
}

/// `num` may compute `low` and `high` as `level - 1e-5` and `level + 1e-5`.
pub open spec fn thickens<N: Arithmetic>(num: &N, level: Scalar, low: Scalar, high: Scalar) -> bool {
    subtracts(num, level, Scalar { bits: THICKNESS_BITS }, low) && adds(
        num,
        level,
        Scalar { bits: THICKNESS_BITS },
        high,
    )
}

/// The two faces of the volume round a rectangle at `level`.
pub fn thicken<N: Arithmetic>(num: &N, level: Scalar) -> (faces: (Scalar, Scalar))
    ensures
        thickens(num, level, faces.0, faces.1),
{
    (num.difference(level, Scalar::from_bits(THICKNESS_BITS)), num.sum(level, Scalar::from_bits(THICKNESS_BITS)))
}

/// `num` may compute `direction` as the direction of length 1 from
/// `origin` to `target`.
pub open spec fn aims_at<N: Arithmetic>(
    num: &N,
    target: Vector3,
    origin: Vector3,
    direction: Vector3,
) -> bool {
    exists|away: Vector3| #[trigger] target.differs_to(origin, num, away) && away.normalises_to(num, direction)
}

/// The direction of length 1 from `origin` to `target`.
pub fn aim_at<N: Arithmetic>(num: &N, target: Vector3, origin: Vector3) -> (direction: Vector3)
    ensures
        aims_at(num, target, origin, direction),
{
    let away = target.minus(&origin, num);
    away.normalise(num)
}

} // verus!
