use vstd::prelude::*;
use crate::maths::scalar::{Scalar, ZERO_BITS};

verus! {

/// The floating-point unit: every computation on numbers that the
/// library's logic needs. The library promises nothing of what these
/// return and proves its own results for whatever they return.
pub trait Arithmetic {
    /// `a + b`.
    fn sum(&self, a: Scalar, b: Scalar) -> Scalar;

    /// `a - b`.
    fn difference(&self, a: Scalar, b: Scalar) -> Scalar;

    /// `a * b`.
    fn product(&self, a: Scalar, b: Scalar) -> Scalar;

    /// `a / b`.
    fn quotient(&self, a: Scalar, b: Scalar) -> Scalar;

    /// The square root of `a`.
    fn root(&self, a: Scalar) -> Scalar;

    /// The whole number nearest to `a`; of two that are as near, the one
    /// farther from zero.
    fn round(&self, a: Scalar) -> Scalar;

    /// The remainder of `a / b`, with the sign of `a`.
    fn remainder(&self, a: Scalar, b: Scalar) -> Scalar;

    /// The cosine of `a`.
    fn cosine(&self, a: Scalar) -> Scalar;

    /// The sine of `a`.
    fn sine(&self, a: Scalar) -> Scalar;

    /// The tangent of `a`.
    fn tangent(&self, a: Scalar) -> Scalar;

    /// The angle whose cosine is `a`.
    fn arc_cosine(&self, a: Scalar) -> Scalar;

    /// The angle of the point `(x, y)`, counted from the x axis.
    fn arc_tangent(&self, y: Scalar, x: Scalar) -> Scalar;

    /// `count` as a number.
    fn number(&self, count: usize) -> Scalar;

    /// A random number, at least 0 and less than 1.
    fn random(&self) -> Scalar;

    /// `a` as a byte: without its fraction, and 0 or 255 where it lies
    /// beyond them; 0 where it is no number.
    fn byte(&self, a: Scalar) -> u8;
}

/// `num` may compute `result` as `a + b`.
pub open spec fn adds<N: Arithmetic>(num: &N, a: Scalar, b: Scalar, result: Scalar) -> bool {
    call_ensures(N::sum, (num, a, b), result)
}

/// `num` may compute `result` as `a - b`.
pub open spec fn subtracts<N: Arithmetic>(num: &N, a: Scalar, b: Scalar, result: Scalar) -> bool {
    call_ensures(N::difference, (num, a, b), result)
}

/// `num` may compute `result` as `a * b`.
pub open spec fn multiplies<N: Arithmetic>(num: &N, a: Scalar, b: Scalar, result: Scalar) -> bool {
    call_ensures(N::product, (num, a, b), result)
}

/// `num` may compute `result` as `a / b`.
pub open spec fn divides<N: Arithmetic>(num: &N, a: Scalar, b: Scalar, result: Scalar) -> bool {
    call_ensures(N::quotient, (num, a, b), result)
}

/// `num` may compute `result` as the square root of `a`.
pub open spec fn roots<N: Arithmetic>(num: &N, a: Scalar, result: Scalar) -> bool {
    call_ensures(N::root, (num, a), result)
}

/// `num` may draw `result` as a random number.
pub open spec fn draws<N: Arithmetic>(num: &N, result: Scalar) -> bool {
    call_ensures(N::random, (num,), result)
}

/// A law that an arithmetic may obey: it subtracts in order. The
/// difference of a number and a greater one is below zero, and that of a
/// number and a lesser one is above zero.
pub open spec fn difference_keeps_order<N: Arithmetic>(num: &N) -> bool {
    forall|a: Scalar, b: Scalar, difference: Scalar| #[trigger]
        subtracts(num, a, b, difference) ==> (a.below(b) ==> difference.below(Scalar { bits: ZERO_BITS })) && (
        b.below(a) ==> (Scalar { bits: ZERO_BITS }).below(difference))
}

/// A law that an arithmetic may obey: it divides by the signs. The
/// quotient of a number that is not zero and a finite divisor is above zero
/// where the two have one sign and below zero where they have not; the
/// sign of a divisor that is zero counts. IEEE-754 division obeys it
/// wherever the quotient is not too small to be told from zero.
pub open spec fn quotient_keeps_sign<N: Arithmetic>(num: &N) -> bool {
    forall|a: Scalar, b: Scalar, quotient: Scalar| #[trigger]
        divides(num, a, b, quotient) && b.finite() ==> {
            let zero = Scalar { bits: ZERO_BITS };
            &&& zero.below(a) ==> if b.sign() {
                quotient.below(zero)
            } else {
                zero.below(quotient)
            }
            &&& a.below(zero) ==> if b.sign() {
                zero.below(quotient)
            } else {
                quotient.below(zero)
            }
        }
}

} // verus!
