use vstd::prelude::*;
use crate::data_structures::ray::Ray;
use crate::maths::scalar::Scalar;
use crate::maths::vector3::Vector3;
use crate::traits::arithmetic::Arithmetic;
use crate::traits::light::Light;
use crate::traits::sampler::Sampler;

verus! {

/// The directions from a point towards a light, as the light itself
/// samples and weighs them.
pub struct RenderObjectSampler<'a, L> {
    pub origin: Vector3,
    pub render_object: &'a L,
}

impl<'a, N: Arithmetic, L: Light<N>> Sampler<N> for RenderObjectSampler<'a, L> {
    /// What the light's `pdf_value` returns for the ray from the origin in `direction`.
    fn value(&self, direction: Vector3, num: &N) -> (density: Scalar)
        ensures
            call_ensures(
                L::pdf_value,
                (self.render_object, Ray { origin: self.origin, direction }, num),
                density,
            ),
    {
        self.render_object.pdf_value(Ray::new(self.origin, direction), num)
    }

    /// What the light's `random` returns for the origin.
    fn generate(&self, num: &N) -> (direction: Vector3)
        ensures
            call_ensures(L::random, (self.render_object, self.origin, num), direction),
    {
        self.render_object.random(self.origin, num)
    }
}

impl<'a, L> RenderObjectSampler<'a, L> {
    pub fn new(origin: Vector3, render_object: &'a L) -> (sampler: RenderObjectSampler<'a, L>)
        ensures
            sampler.origin == origin,
            sampler.render_object == render_object,
    {
        RenderObjectSampler { origin, render_object }
    }
}

} // verus!
