pub mod arithmetic;
pub mod camera;
pub mod light;
pub mod material;
pub mod render_object;
pub mod sampler;
pub mod texture;
pub mod transformable;

pub use arithmetic::Arithmetic;
pub use camera::Camera;
pub use light::Light;
pub use material::Material;
pub use render_object::RenderObject;
pub use sampler::Sampler;
pub use texture::Texture;
pub use transformable::Transformable;
