use vstd::prelude::*;
use crate::maths::scalar::{Scalar, HALF_BITS};
use crate::maths::vector3::Vector3;
use crate::traits::arithmetic::{adds, draws, multiplies, Arithmetic};
use crate::traits::sampler::Sampler;

verus! {

/// Two distributions mixed in equal parts.
pub struct MixtureSampler<'a, A: ?Sized, B: ?Sized> {
    pub pdf_a: &'a A,
    pub pdf_b: &'a B,
}

/// `num` may compute `result` as `0.5 * a + 0.5 * b`.
pub open spec fn means<N: Arithmetic>(num: &N, a: Scalar, b: Scalar, result: Scalar) -> bool {
    exists|half_a: Scalar, half_b: Scalar|
        multiplies(num, Scalar { bits: HALF_BITS }, a, half_a) && multiplies(
            num,
            Scalar { bits: HALF_BITS },
            b,
            half_b,
        ) && #[trigger] adds(num, half_a, half_b, result)
}

/// The mean of two numbers: `0.5 * a + 0.5 * b`.
pub fn mean<N: Arithmetic>(num: &N, a: Scalar, b: Scalar) -> (result: Scalar)
    ensures
        means(num, a, b, result),
{
    let half_a = num.product(Scalar::from_bits(HALF_BITS), a);
    let half_b = num.product(Scalar::from_bits(HALF_BITS), b);
    let result = num.sum(half_a, half_b);
    assert(adds(num, half_a, half_b, result));
    result
}

impl<'a, A: ?Sized, B: ?Sized> MixtureSampler<'a, A, B> {
    /// What `generate` may return: for a random number, a direction drawn
    /// from the first distribution where the number is below one half,
    /// and from the second where it is not.
    pub open spec fn draws<N: Arithmetic>(&self, num: &N, direction: Vector3) -> bool where
        A: Sampler<N>,
        B: Sampler<N>,
     {
        exists|chance: Scalar| #[trigger]
            draws(num, chance) && if chance.below(Scalar { bits: HALF_BITS }) {
                call_ensures(A::generate, (self.pdf_a, num), direction)
            } else {
                call_ensures(B::generate, (self.pdf_b, num), direction)
            }
    }

    /// What `value` may return for `direction`: `0.5 * a + 0.5 * b`, where
    /// `a` and `b` are the densities that the two distributions give to
    /// `direction`, whichever of them the direction was drawn from.
    pub open spec fn weighs<N: Arithmetic>(&self, direction: Vector3, num: &N, density: Scalar) -> bool where
        A: Sampler<N>,
        B: Sampler<N>,
     {
        exists|a: Scalar, b: Scalar|
            call_ensures(A::value, (self.pdf_a, direction, num), a) && call_ensures(
                B::value,
                (self.pdf_b, direction, num),
                b,
            ) && #[trigger] means(num, a, b, density)
    }

    pub fn new(pdf_a: &'a A, pdf_b: &'a B) -> (mixture: MixtureSampler<'a, A, B>)
        ensures
            mixture.pdf_a == pdf_a,
            mixture.pdf_b == pdf_b,
    {
        MixtureSampler { pdf_a, pdf_b }
    }

    /// Draws from the first distribution on heads and from the second on tails.
    pub fn draw<N: Arithmetic>(&self, heads: bool, num: &N) -> (direction: Vector3) where
        A: Sampler<N>,
        B: Sampler<N>,

        ensures
            heads ==> call_ensures(A::generate, (self.pdf_a, num), direction),
            !heads ==> call_ensures(B::generate, (self.pdf_b, num), direction),
    {
        if heads {
            self.pdf_a.generate(num)
        } else {
            self.pdf_b.generate(num)
        }
    }
}

impl<'a, N: Arithmetic, A: Sampler<N> + ?Sized, B: Sampler<N> + ?Sized> Sampler<N> for MixtureSampler<
    'a,
    A,
    B,
> {
    fn value(&self, direction: Vector3, num: &N) -> (density: Scalar)
        ensures
            self.weighs(direction, num, density),
    {
        let a = self.pdf_a.value(direction, num);
        let b = self.pdf_b.value(direction, num);
        mean(num, a, b)
    }

    /// Throws a coin and draws from the distribution that it picks.
    fn generate(&self, num: &N) -> (direction: Vector3)
        ensures
            self.draws(num, direction),
    {
        let chance = num.random();
        assert(draws(num, chance));
        self.draw(chance.lt(Scalar::from_bits(HALF_BITS)), num)
    }
}

/// A law that an arithmetic may obey of a number: its two halves add up to it.
pub open spec fn halves_add_back<N: Arithmetic>(num: &N, value: Scalar) -> bool {
    forall|first: Scalar, second: Scalar, sum: Scalar|
        multiplies(num, Scalar { bits: HALF_BITS }, value, first) && multiplies(
            num,
            Scalar { bits: HALF_BITS },
            value,
            second,
        ) && #[trigger] adds(num, first, second, sum) ==> sum == value
}

/// The mixture of a distribution with itself gives every direction the
/// density that the distribution gives it, where the distribution gives
/// the direction one density only and the two halves of that density add
/// up to it.
pub proof fn lemma_mixture_of_one<N: Arithmetic, A: Sampler<N> + ?Sized>(
    mixture: MixtureSampler<A, A>,
    direction: Vector3,
    num: &N,
    value: Scalar,
    density: Scalar,
)
    requires
        mixture.pdf_a == mixture.pdf_b,
        mixture.weighs(direction, num, density),
        forall|other: Scalar| #[trigger]
            call_ensures(A::value, (mixture.pdf_a, direction, num), other) ==> other == value,
        halves_add_back(num, value),
    ensures
        density == value,
{
    let (a, b) = choose|a: Scalar, b: Scalar|
        call_ensures(A::value, (mixture.pdf_a, direction, num), a) && call_ensures(
            A::value,
            (mixture.pdf_b, direction, num),
            b,
        ) && #[trigger] means(num, a, b, density);
    assert(a == value && b == value);
}

} // verus!
