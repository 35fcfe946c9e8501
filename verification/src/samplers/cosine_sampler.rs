use vstd::prelude::*;
use crate::maths::matrix_4x4::Matrix4x4;
use crate::maths::scalar::{Scalar, PI_BITS, ZERO_BITS};
use crate::maths::vector3::Vector3;
use crate::traits::arithmetic::{divides, quotient_keeps_sign, Arithmetic};
use crate::traits::sampler::Sampler;

verus! {

/// Bit pattern of `1e-5`: the density of a direction that does not lie on
/// the normal's side. It is not zero, so that nothing is divided by zero.
pub const FAR_SIDE_DENSITY_BITS: u64 = 0x3EE4_F8B5_88E3_68F1;

/// The directions of the hemisphere round a normal, weighted by the cosine
/// of their angle to the normal.
pub struct CosineSampler {
    pub normal: Vector3,
    /// The frame whose first axis is the normal.
    pub normal_basis: Matrix4x4,
}

impl CosineSampler {
    /// What `value` may return for `direction`: where the cosine of the
    /// angle to the normal is at most zero, `1e-5`; else the cosine
    /// divided by pi.
    pub open spec fn weighs<N: Arithmetic>(&self, direction: Vector3, num: &N, density: Scalar) -> bool {
        exists|cosine: Scalar| #[trigger]
            direction.dots(self.normal, num, cosine) && if cosine.at_most(Scalar { bits: ZERO_BITS }) {
                density == (Scalar { bits: FAR_SIDE_DENSITY_BITS })
            } else {
                divides(num, cosine, Scalar { bits: PI_BITS }, density)
            }
    }

    /// What `generate` may return: a direction drawn in the frame of the
    /// normal, taken to the world.
    pub open spec fn draws<N: Arithmetic>(&self, num: &N, direction: Vector3) -> bool {
        exists|local: Vector3| #[trigger]
            Vector3::cosine_weighted(num, local) && local.transforms_to(
                self.normal_basis,
                false,
                num,
                direction,
            )
    }

    /// The distribution round `normal`.
    pub fn new<N: Arithmetic>(normal: Vector3, num: &N) -> (sampler: CosineSampler)
        ensures
            sampler.normal == normal,
            Matrix4x4::frames_round(normal, num, sampler.normal_basis),
    {
        let normal_basis = Matrix4x4::from_i_basis(normal, num);
        CosineSampler { normal, normal_basis }
    }
}

impl<N: Arithmetic> Sampler<N> for CosineSampler {
    fn value(&self, direction: Vector3, num: &N) -> (density: Scalar)
        ensures
            self.weighs(direction, num, density),
    {
        let cosine = direction.dot(&self.normal, num);
        if cosine.le(Scalar::zero()) {
            Scalar::from_bits(FAR_SIDE_DENSITY_BITS)
        } else {
            num.quotient(cosine, Scalar::from_bits(PI_BITS))
        }
    }

    fn generate(&self, num: &N) -> (direction: Vector3)
        ensures
            self.draws(num, direction),
    {
        let local = Vector3::random_cosine_direction(num);
        self.normal_basis.transform(&local, false, num)
    }
}

/// The density is never zero or below: it is above zero for every
/// direction, where the arithmetic computes the cosine as a number and
/// divides by the signs.
pub proof fn lemma_density_is_positive<N: Arithmetic>(
    sampler: CosineSampler,
    direction: Vector3,
    num: &N,
    density: Scalar,
)
    requires
        sampler.weighs(direction, num, density),
        forall|cosine: Scalar| #[trigger] direction.dots(sampler.normal, num, cosine) ==> !cosine.nan(),
        quotient_keeps_sign(num),
    ensures
        (Scalar { bits: ZERO_BITS }).below(density),
{
    let cosine = choose|cosine: Scalar| #[trigger]
        direction.dots(sampler.normal, num, cosine) && if cosine.at_most(Scalar { bits: ZERO_BITS }) {
            density == (Scalar { bits: FAR_SIDE_DENSITY_BITS })
        } else {
            divides(num, cosine, Scalar { bits: PI_BITS }, density)
        };
    if cosine.at_most(Scalar { bits: ZERO_BITS }) {
        assert(density.bits == FAR_SIDE_DENSITY_BITS);
    } else {
        let pi = Scalar { bits: PI_BITS };
        assert(pi.finite() && !pi.sign());
        assert(divides(num, cosine, pi, density));
    }
}

} // verus!
