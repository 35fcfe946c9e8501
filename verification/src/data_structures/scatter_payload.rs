use vstd::prelude::*;
use crate::data_structures::color::Color;
use crate::traits::arithmetic::Arithmetic;
use crate::traits::sampler::Sampler;

verus! {

/// What a material answers when light is scattered at a surface.
#[verifier::reject_recursive_types(N)]
pub struct ScatterPayload<N: Arithmetic> {
    pub is_specular: bool,
    pub attenuation: Color,
    /// The material's own distribution of outgoing directions.
    pub pdf: Box<dyn Sampler<N>>,
}

} // verus!
