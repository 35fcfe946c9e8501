//! The samplers under the names of what they are: probability density functions.

pub use crate::samplers::CosineSampler as CosinePDF;
pub use crate::samplers::MixtureSampler as MixturePDF;
pub use crate::samplers::RenderObjectSampler as RenderObjectPDF;
pub use crate::traits::Sampler as PDF;
