use vstd::prelude::*;
use crate::data_structures::color::Color;
use crate::data_structures::intersection_payload::IntersectionPayload;
use crate::data_structures::scatter_payload::ScatterPayload;
use crate::maths::scalar::{Scalar, PI_BITS, ZERO_BITS};
use crate::maths::vector3::Vector3;
use crate::samplers::cosine_sampler::CosineSampler;
use crate::traits::arithmetic::{divides, Arithmetic};
use crate::traits::material::Material;
use crate::traits::sampler::Sampler;
use crate::traits::texture::Texture;

verus! {

/// A surface that scatters light evenly to all sides, and may glow.
pub struct LambertianMaterial<T> {
    pub albedo: T,
    pub emmissivity: Scalar,
}

/// The texture may give `color` to the hit.
pub open spec fn tints<N: Arithmetic, T: Texture<N>>(
    texture: &T,
    payload: IntersectionPayload,
    num: &N,
    color: Color,
) -> bool {
    call_ensures(T::value, (texture, payload.u, payload.v, payload.position, num), color)
}

/// `num` may compute `density` as the share of the light that a surface
/// with the given normal scatters towards `outgoing`: nothing where the
/// cosine of the angle to the normal is below zero, else the cosine
/// over pi.
pub open spec fn spreads_to<N: Arithmetic>(
    num: &N,
    normal: Vector3,
    outgoing: Vector3,
    density: Scalar,
) -> bool {
    exists|cosine: Scalar| #[trigger]
        normal.dots(outgoing, num, cosine) && if cosine.below(Scalar { bits: ZERO_BITS }) {
            density == (Scalar { bits: ZERO_BITS })
        } else {
            divides(num, cosine, Scalar { bits: PI_BITS }, density)
        }
}

impl<T> LambertianMaterial<T> {
    /// What `emmission` may return: the texture's colour times the emissivity.
    pub open spec fn glows<N: Arithmetic>(
        self,
        payload: IntersectionPayload,
        num: &N,
        color: Color,
    ) -> bool where
        T: Texture<N>,
     {
        exists|albedo: Color| #[trigger]
            tints(&self.albedo, payload, num, albedo) && albedo.scales_to(self.emmissivity, num, color)
    }

    /// What `transmission` may return: the texture's colour times the
    /// share of the light that is scattered towards `outgoing`.
    pub open spec fn carries<N: Arithmetic>(
        self,
        payload: IntersectionPayload,
        outgoing: Vector3,
        num: &N,
        color: Color,
    ) -> bool where
        T: Texture<N>,
     {
        exists|albedo: Color, share: Scalar| #[trigger]
            tints(&self.albedo, payload, num, albedo) && #[trigger] spreads_to(
                num,
                payload.normal,
                outgoing,
                share,
            ) && albedo.scales_to(share, num, color)
    }

    pub fn new(albedo: T, emmissivity: Scalar) -> (material: Box<LambertianMaterial<T>>)
        ensures
            *material == (LambertianMaterial { albedo, emmissivity }),
    {
        Box::new(LambertianMaterial { albedo, emmissivity })
    }
}

impl<N: Arithmetic, T: Texture<N>> Material<N> for LambertianMaterial<T> {
    fn scattering_pdf(
        &self,
        payload: &IntersectionPayload,
        _incoming_direction: Vector3,
        outgoing_direction: Vector3,
        num: &N,
    ) -> (density: Scalar)
        ensures
            spreads_to(num, payload.normal, outgoing_direction, density),
    {
        let cosine = payload.normal.dot(&outgoing_direction, num);
        if cosine.lt(Scalar::zero()) {
            Scalar::zero()
        } else {
            num.quotient(cosine, Scalar::from_bits(PI_BITS))
        }
    }

    /// Always scatters: with the texture's colour as the attenuation, and
    /// the cosine-weighted distribution round the normal.
    fn scatter(
        &self,
        payload: &IntersectionPayload,
        _incoming_direction: Vector3,
        num: &N,
    ) -> (scatter: Option<
        ScatterPayload<N>,
    >)
        ensures
            scatter matches Some(s) && !s.is_specular && tints(&self.albedo, *payload, num, s.attenuation),
    {
        let attenuation = self.albedo.value(payload.u, payload.v, payload.position, num);
        let pdf: Box<dyn Sampler<N>> = Box::new(CosineSampler::new(payload.normal, num));
        Some(ScatterPayload { is_specular: false, attenuation, pdf })
    }

    fn emmission(&self, payload: &IntersectionPayload, num: &N) -> (color: Color)
        ensures
            self.glows(*payload, num, color),
    {
        let albedo = self.albedo.value(payload.u, payload.v, payload.position, num);
        let color = albedo.scale(self.emmissivity, num);
        assert(tints(&self.albedo, *payload, num, albedo));
        color
    }

    fn transmission(
        &self,
        payload: &IntersectionPayload,
        incoming_direction: Vector3,
        outgoing_direction: Vector3,
        num: &N,
    ) -> (color: Color)
        ensures
            self.carries(*payload, outgoing_direction, num, color),
    {
        let albedo = self.albedo.value(payload.u, payload.v, payload.position, num);
        let share = self.scattering_pdf(payload, incoming_direction, outgoing_direction, num);
        let color = albedo.scale(share, num);
        assert(tints(&self.albedo, *payload, num, albedo));
        color
    }
}

} // verus!
