pub mod cosine_sampler;
pub mod mixture_sampler;
pub mod render_object_sampler;

pub use cosine_sampler::CosineSampler;
pub use mixture_sampler::MixtureSampler;
pub use render_object_sampler::RenderObjectSampler;
