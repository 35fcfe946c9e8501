use vstd::prelude::*;
use crate::maths::matrix_4x4::{combines, Matrix4x4};
use crate::maths::scalar::{Scalar, MINUS_ONE_BITS, ONE_BITS, TWO_BITS, TWO_PI_BITS, ZERO_BITS};
use crate::traits::arithmetic::{adds, divides, draws, multiplies, roots, subtracts, Arithmetic};
use crate::traits::transformable::Transformable;

verus! {

/// Three numbers: a point or a direction.
#[derive(Clone, Copy, Debug)]
pub struct Vector3(pub Scalar, pub Scalar, pub Scalar);

/// `num` may compute `result` as `a * b - c * d`.
pub open spec fn crosses<N: Arithmetic>(
    num: &N,
    a: Scalar,
    b: Scalar,
    c: Scalar,
    d: Scalar,
    result: Scalar,
) -> bool {
    exists|first: Scalar, second: Scalar|
        multiplies(num, a, b, first) && multiplies(num, c, d, second) && #[trigger] subtracts(
            num,
            first,
            second,
            result,
        )
}

fn cross_term<N: Arithmetic>(num: &N, a: Scalar, b: Scalar, c: Scalar, d: Scalar) -> (result: Scalar)
    ensures
        crosses(num, a, b, c, d, result),
{
    let first = num.product(a, b);
    let second = num.product(c, d);
    let result = num.difference(first, second);
    assert(subtracts(num, first, second, result));
    result
}

/// `num` may compute `result` as a random number that is at least -1 and
/// less than 1: `random * 2 - 1`.
pub open spec fn scatters<N: Arithmetic>(num: &N, result: Scalar) -> bool {
    exists|chance: Scalar, twice: Scalar|
        draws(num, chance) && #[trigger] multiplies(num, chance, Scalar { bits: TWO_BITS }, twice) && subtracts(
            num,
            twice,
            Scalar { bits: ONE_BITS },
            result,
        )
}

/// A random number that is at least -1 and less than 1.
pub fn scatter<N: Arithmetic>(num: &N) -> (result: Scalar)
    ensures
        scatters(num, result),
{
    let chance = num.random();
    let twice = num.product(chance, Scalar::from_bits(TWO_BITS));
    let result = num.difference(twice, Scalar::one());
    assert(multiplies(num, chance, Scalar { bits: TWO_BITS }, twice));
    result
}

/// The greatest number of random points that are tried before one is
/// taken whether it fits or not.
pub const TRIES: usize = usize::MAX;

impl Vector3 {
    /// The component on axis 0, 1 or 2.
    pub open spec fn spec_index(self, axis: int) -> Scalar {
        if axis == 0 {
            self.0
        } else if axis == 1 {
            self.1
        } else {
            self.2
        }
    }

    /// Component by component, `self <= other`.
    pub open spec fn at_most(self, other: Vector3) -> bool {
        self.0.at_most(other.0) && self.1.at_most(other.1) && self.2.at_most(other.2)
    }

    /// Component by component, `self == other` as IEEE-754 defines it.
    pub open spec fn same(self, other: Vector3) -> bool {
        self.0.same(other.0) && self.1.same(other.1) && self.2.same(other.2)
    }

    /// The lesser of the two on every axis.
    pub open spec fn lesser(self, other: Vector3) -> Vector3 {
        Vector3(self.0.lesser(other.0), self.1.lesser(other.1), self.2.lesser(other.2))
    }

    /// The greater of the two on every axis.
    pub open spec fn greater(self, other: Vector3) -> Vector3 {
        Vector3(self.0.greater(other.0), self.1.greater(other.1), self.2.greater(other.2))
    }

    /// `num` may compute `result` as `self + other`, component by component.
    pub open spec fn sums_to<N: Arithmetic>(self, other: Vector3, num: &N, result: Vector3) -> bool {
        &&& adds(num, self.0, other.0, result.0)
        &&& adds(num, self.1, other.1, result.1)
        &&& adds(num, self.2, other.2, result.2)
    }

    /// `num` may compute `result` as `self * factor`, component by component.
    pub open spec fn scales_to<N: Arithmetic>(self, factor: Scalar, num: &N, result: Vector3) -> bool {
        &&& multiplies(num, self.0, factor, result.0)
        &&& multiplies(num, self.1, factor, result.1)
        &&& multiplies(num, self.2, factor, result.2)
    }

    /// `num` may compute `result` as `self - other`: `self + other * -1`.
    pub open spec fn differs_to<N: Arithmetic>(self, other: Vector3, num: &N, result: Vector3) -> bool {
        exists|negated: Vector3| #[trigger]
            other.scales_to(Scalar { bits: MINUS_ONE_BITS }, num, negated) && self.sums_to(
                negated,
                num,
                result,
            )
    }

    /// `num` may compute `result` as `self / divisor`: `self * (1 / divisor)`.
    pub open spec fn divides_to<N: Arithmetic>(self, divisor: Scalar, num: &N, result: Vector3) -> bool {
        exists|reciprocal: Scalar| #[trigger]
            divides(num, Scalar { bits: ONE_BITS }, divisor, reciprocal) && self.scales_to(
                reciprocal,
                num,
                result,
            )
    }

    /// `num` may compute `result` as `self / other`, component by component.
    pub open spec fn ratios_to<N: Arithmetic>(self, other: Vector3, num: &N, result: Vector3) -> bool {
        &&& divides(num, self.0, other.0, result.0)
        &&& divides(num, self.1, other.1, result.1)
        &&& divides(num, self.2, other.2, result.2)
    }

    /// `num` may compute `result` as `dividend / self`, component by component.
    pub open spec fn inverts_to<N: Arithmetic>(self, dividend: Scalar, num: &N, result: Vector3) -> bool {
        &&& divides(num, dividend, self.0, result.0)
        &&& divides(num, dividend, self.1, result.1)
        &&& divides(num, dividend, self.2, result.2)
    }

    /// `num` may compute `result` as the dot product of the two vectors:
    /// the products of the components, added from the first to the last.
    pub open spec fn dots<N: Arithmetic>(self, other: Vector3, num: &N, result: Scalar) -> bool {
        exists|x: Scalar, y: Scalar, z: Scalar, partial: Scalar|
            {
                &&& multiplies(num, self.0, other.0, x)
                &&& multiplies(num, self.1, other.1, y)
                &&& multiplies(num, self.2, other.2, z)
                &&& #[trigger] adds(num, x, y, partial)
                &&& #[trigger] adds(num, partial, z, result)
            }
    }

    /// `num` may compute `result` as the cross product `self x other`.
    pub open spec fn crosses_to<N: Arithmetic>(self, other: Vector3, num: &N, result: Vector3) -> bool {
        &&& crosses(num, self.1, other.2, self.2, other.1, result.0)
        &&& crosses(num, self.2, other.0, self.0, other.2, result.1)
        &&& crosses(num, self.0, other.1, self.1, other.0, result.2)
    }

    /// `num` may compute `result` as the length of the vector: the square
    /// root of its dot product with itself.
    pub open spec fn measures<N: Arithmetic>(self, num: &N, result: Scalar) -> bool {
        exists|square: Scalar| #[trigger] self.dots(self, num, square) && roots(num, square, result)
    }

    /// `num` may compute `result` as the vector of length 1 in the
    /// direction of `self`: `self * (1 / length)`.
    pub open spec fn normalises_to<N: Arithmetic>(self, num: &N, result: Vector3) -> bool {
        exists|length: Scalar| #[trigger] self.measures(num, length) && self.divides_to(length, num, result)
    }

    /// `num` may compute `result` as `self` mirrored at the plane with
    /// the given normal: `self - normal * (2 * (normal . self))`.
    pub open spec fn reflects_to<N: Arithmetic>(self, normal: Vector3, num: &N, result: Vector3) -> bool {
        exists|along: Scalar, twice: Scalar, back: Vector3|
            {
                &&& normal.dots(self, num, along)
                &&& #[trigger] multiplies(num, Scalar { bits: TWO_BITS }, along, twice)
                &&& #[trigger] normal.scales_to(twice, num, back)
                &&& self.differs_to(back, num, result)
            }
    }

    /// The vector with a fourth number: 1 for a point, which a frame moves
    /// to its origin, and 0 for a direction.
    pub open spec fn extended(self, translate: bool) -> (Scalar, Scalar, Scalar, Scalar) {
        (
            self.0,
            self.1,
            self.2,
            if translate {
                Scalar { bits: ONE_BITS }
            } else {
                Scalar { bits: ZERO_BITS }
            },
        )
    }

    /// `num` may compute `result` as `self` in the given frame: each
    /// component from the extended vector and a row of the matrix.
    pub open spec fn transforms_to<N: Arithmetic>(
        self,
        frame: Matrix4x4,
        translate: bool,
        num: &N,
        result: Vector3,
    ) -> bool {
        &&& combines(num, self.extended(translate), frame.row(0), result.0)
        &&& combines(num, self.extended(translate), frame.row(1), result.1)
        &&& combines(num, self.extended(translate), frame.row(2), result.2)
    }

    pub fn index(&self, axis: usize) -> (r: Scalar)
        requires
            axis < 3,
        ensures
            r == self[axis as int],
    {
        if axis == 0 {
            self.0
        } else if axis == 1 {
            self.1
        } else {
            self.2
        }
    }

    pub fn equals(&self, other: &Vector3) -> (r: bool)
        ensures
            r == self.same(*other),
    {
        self.0.equals(other.0) && self.1.equals(other.1) && self.2.equals(other.2)
    }

    /// `self + other`.
    pub fn plus<N: Arithmetic>(&self, other: &Vector3, num: &N) -> (result: Vector3)
        ensures
            self.sums_to(*other, num, result),
    {
        Vector3(num.sum(self.0, other.0), num.sum(self.1, other.1), num.sum(self.2, other.2))
    }

    /// `self * factor`.
    pub fn scale<N: Arithmetic>(&self, factor: Scalar, num: &N) -> (result: Vector3)
        ensures
            self.scales_to(factor, num, result),
    {
        Vector3(num.product(self.0, factor), num.product(self.1, factor), num.product(self.2, factor))
    }

    /// `self - other`.
    pub fn minus<N: Arithmetic>(&self, other: &Vector3, num: &N) -> (result: Vector3)
        ensures
            self.differs_to(*other, num, result),
    {
        let negated = other.scale(Scalar::from_bits(MINUS_ONE_BITS), num);
        self.plus(&negated, num)
    }

    /// `self / divisor`.
    pub fn over<N: Arithmetic>(&self, divisor: Scalar, num: &N) -> (result: Vector3)
        ensures
            self.divides_to(divisor, num, result),
    {
        let reciprocal = num.quotient(Scalar::one(), divisor);
        let result = self.scale(reciprocal, num);
        assert(divides(num, Scalar { bits: ONE_BITS }, divisor, reciprocal));
        result
    }

    /// `self / other`, component by component.
    pub fn ratio<N: Arithmetic>(&self, other: &Vector3, num: &N) -> (result: Vector3)
        ensures
            self.ratios_to(*other, num, result),
    {
        Vector3(
            num.quotient(self.0, other.0),
            num.quotient(self.1, other.1),
            num.quotient(self.2, other.2),
        )
    }

    /// `dividend / self`, component by component.
    pub fn invert<N: Arithmetic>(&self, dividend: Scalar, num: &N) -> (result: Vector3)
        ensures
            self.inverts_to(dividend, num, result),
    {
        Vector3(
            num.quotient(dividend, self.0),
            num.quotient(dividend, self.1),
            num.quotient(dividend, self.2),
        )
    }

    /// The dot product.
    pub fn dot<N: Arithmetic>(&self, other: &Vector3, num: &N) -> (result: Scalar)
        ensures
            self.dots(*other, num, result),
    {
        let x = num.product(self.0, other.0);
        let y = num.product(self.1, other.1);
        let z = num.product(self.2, other.2);
        let partial = num.sum(x, y);
        let result = num.sum(partial, z);
        assert(adds(num, x, y, partial) && adds(num, partial, z, result));
        result
    }

    /// The cross product `a x b`.
    pub fn cross<N: Arithmetic>(a: &Vector3, b: &Vector3, num: &N) -> (result: Vector3)
        ensures
            a.crosses_to(*b, num, result),
    {
        Vector3(
            cross_term(num, a.1, b.2, a.2, b.1),
            cross_term(num, a.2, b.0, a.0, b.2),
            cross_term(num, a.0, b.1, a.1, b.0),
        )
    }

    /// The component-wise minimum.
    pub fn min(a: &Vector3, b: &Vector3) -> (r: Vector3)
        ensures
            r == a.lesser(*b),
    {
        Vector3(a.0.min(b.0), a.1.min(b.1), a.2.min(b.2))
    }

    /// The component-wise maximum.
    pub fn max(a: &Vector3, b: &Vector3) -> (r: Vector3)
        ensures
            r == a.greater(*b),
    {
        Vector3(a.0.max(b.0), a.1.max(b.1), a.2.max(b.2))
    }

    /// The square of the length.
    pub fn square_magnitude<N: Arithmetic>(&self, num: &N) -> (result: Scalar)
        ensures
            self.dots(*self, num, result),
    {
        self.dot(self, num)
    }

    /// The length.
    pub fn magnitude<N: Arithmetic>(&self, num: &N) -> (result: Scalar)
        ensures
            self.measures(num, result),
    {
        let square = self.square_magnitude(num);
        num.root(square)
    }

    /// The vector of length 1 in the direction of `self`.
    pub fn normalise<N: Arithmetic>(self, num: &N) -> (result: Vector3)
        ensures
            self.normalises_to(num, result),
    {
        let length = self.magnitude(num);
        self.over(length, num)
    }

    /// `self` mirrored at the plane with the given normal.
    pub fn reflect<N: Arithmetic>(&self, normal: Vector3, num: &N) -> (result: Vector3)
        ensures
            self.reflects_to(normal, num, result),
    {
        let along = normal.dot(self, num);
        let twice = num.product(Scalar::from_bits(TWO_BITS), along);
        let back = normal.scale(twice, num);
        let result = self.minus(&back, num);
        assert(multiplies(num, Scalar { bits: TWO_BITS }, along, twice));
        result
    }

    /// `num` may draw `point` as a random point of the cube from -1 to 1
    /// on every axis, or, where `flat` is set, of the square from -1 to 1
    /// in the plane `z = 0`, with `square` as the square of its distance
    /// from the origin.
    pub open spec fn strews<N: Arithmetic>(num: &N, flat: bool, point: Vector3, square: Scalar) -> bool {
        &&& scatters(num, point.0)
        &&& scatters(num, point.1)
        &&& if flat {
            point.2 == (Scalar { bits: ZERO_BITS })
        } else {
            scatters(num, point.2)
        }
        &&& point.dots(point, num, square)
    }

    /// What the search for a random point within the distance 1 of the
    /// origin may find with `tries` tries left: the first point drawn
    /// that is not farther than 1 from the origin, or, when the tries have
    /// run out, the point drawn last.
    pub open spec fn finds<N: Arithmetic>(num: &N, flat: bool, tries: nat, point: Vector3) -> bool
        decreases tries,
    {
        exists|drawn: Vector3, square: Scalar| #[trigger]
            Vector3::strews(num, flat, drawn, square) && if tries == 0 || !(Scalar { bits: ONE_BITS }).below(
                square,
            ) {
                point == drawn
            } else {
                Vector3::finds(num, flat, (tries - 1) as nat, point)
            }
    }

    fn strew<N: Arithmetic>(num: &N, flat: bool) -> (drawn: (Vector3, Scalar))
        ensures
            Vector3::strews(num, flat, drawn.0, drawn.1),
    {
        let x = scatter(num);
        let y = scatter(num);
        let z = if flat {
            Scalar::zero()
        } else {
            scatter(num)
        };
        let point = Vector3(x, y, z);
        let square = point.square_magnitude(num);
        (point, square)
    }

    fn find<N: Arithmetic>(num: &N, flat: bool) -> (point: Vector3)
        ensures
            Vector3::finds(num, flat, TRIES as nat, point),
    {
        let mut tries: usize = TRIES;
        loop
            invariant
                forall|point: Vector3| #[trigger]
                    Vector3::finds(num, flat, tries as nat, point) ==> Vector3::finds(
                        num,
                        flat,
                        TRIES as nat,
                        point,
                    ),
            decreases tries,
        {
            let (drawn, square) = Vector3::strew(num, flat);
            if tries == 0 || !square.gt(Scalar::one()) {
                assert(Vector3::finds(num, flat, tries as nat, drawn));
                return drawn;
            }
            let left: usize = tries - 1;
            proof {
                assert forall|point: Vector3| #[trigger]
                    Vector3::finds(num, flat, left as nat, point) implies Vector3::finds(
                    num,
                    flat,
                    TRIES as nat,
                    point,
                ) by {
                    assert(left as nat == (tries as nat - 1) as nat);
                    assert(Vector3::finds(num, flat, tries as nat, point));
                }
            }
            tries = left;
        }
    }

    /// What `random_unit` may return: a random point within the distance
    /// 1 of the origin, normalised.
    pub open spec fn unit_drawn<N: Arithmetic>(num: &N, direction: Vector3) -> bool {
        exists|point: Vector3| #[trigger]
            Vector3::finds(num, false, TRIES as nat, point) && point.normalises_to(num, direction)
    }

    /// A random direction of length 1.
    pub fn random_unit<N: Arithmetic>(num: &N) -> (direction: Vector3)
        ensures
            Vector3::unit_drawn(num, direction),
    {
        let point = Vector3::find(num, false);
        point.normalise(num)
    }

    /// A random point of the disk of radius 1 round the origin in the
    /// plane `z = 0`.
    pub fn random_in_unit_disk<N: Arithmetic>(num: &N) -> (point: Vector3)
        ensures
            Vector3::finds(num, true, TRIES as nat, point),
    {
        Vector3::find(num, true)
    }

    /// What `random_cosine_direction` may return: for two random numbers
    /// `r1` and `r2`, the direction
    /// `(sqrt(1 - r2), cos(2 pi r1) * sqrt(r2), sin(2 pi r1) * sqrt(r2))`.
    pub open spec fn cosine_weighted<N: Arithmetic>(num: &N, result: Vector3) -> bool {
        exists|r1: Scalar, r2: Scalar, rest: Scalar, phi: Scalar, radius: Scalar, c: Scalar, s: Scalar|
            {
                &&& draws(num, r1)
                &&& draws(num, r2)
                &&& #[trigger] subtracts(num, Scalar { bits: ONE_BITS }, r2, rest)
                &&& roots(num, rest, result.0)
                &&& #[trigger] multiplies(num, Scalar { bits: TWO_PI_BITS }, r1, phi)
                &&& #[trigger] roots(num, r2, radius)
                &&& call_ensures(N::cosine, (num, phi), c)
                &&& call_ensures(N::sine, (num, phi), s)
                &&& #[trigger] multiplies(num, c, radius, result.1)
                &&& #[trigger] multiplies(num, s, radius, result.2)
            }
    }

    /// A random direction of length 1 on the side of the first axis,
    /// weighted by the cosine of its angle to that axis.
    pub fn random_cosine_direction<N: Arithmetic>(num: &N) -> (result: Vector3)
        ensures
            Vector3::cosine_weighted(num, result),
    {
        let r1 = num.random();
        let r2 = num.random();
        let rest = num.difference(Scalar::one(), r2);
        let x = num.root(rest);
        let phi = num.product(Scalar::from_bits(TWO_PI_BITS), r1);
        let c = num.cosine(phi);
        let radius = num.root(r2);
        let y = num.product(c, radius);
        let s = num.sine(phi);
        let z = num.product(s, radius);
        let result = Vector3(x, y, z);
        assert(subtracts(num, Scalar { bits: ONE_BITS }, r2, rest));
        assert(multiplies(num, Scalar { bits: TWO_PI_BITS }, r1, phi));
        assert(roots(num, r2, radius));
        assert(multiplies(num, c, radius, result.1));
        assert(multiplies(num, s, radius, result.2));
        result
    }
}

impl<N: Arithmetic> Transformable<N> for Vector3 {
    fn transform(&self, frame: &Matrix4x4, translate: bool, num: &N) -> (result: Vector3)
        ensures
            self.transforms_to(*frame, translate, num, result),
    {
        let w = if translate {
            Scalar::one()
        } else {
            Scalar::zero()
        };
        let extended = (self.0, self.1, self.2, w);
        Vector3(
            crate::maths::matrix_4x4::combine(
                num,
                extended,
                (frame.index((0, 0)), frame.index((0, 1)), frame.index((0, 2)), frame.index((0, 3))),
            ),
            crate::maths::matrix_4x4::combine(
                num,
                extended,
                (frame.index((1, 0)), frame.index((1, 1)), frame.index((1, 2)), frame.index((1, 3))),
            ),
            crate::maths::matrix_4x4::combine(
                num,
                extended,
                (frame.index((2, 0)), frame.index((2, 1)), frame.index((2, 2)), frame.index((2, 3))),
            ),
        )
    }
}

impl PartialEq for Vector3 {
    /// Equality of the numbers, component by component.
    fn eq(&self, other: &Vector3) -> (r: bool) {
        self.equals(other)
    }
}

impl vstd::std_specs::cmp::PartialEqSpecImpl for Vector3 {
    open spec fn obeys_eq_spec() -> bool {
        true
    }

    open spec fn eq_spec(&self, other: &Vector3) -> bool {
        self.same(*other)
    }
}

} // verus!
