pub mod diffuse_material;
pub mod lambertian;
pub mod lambertian_material;
pub mod reflective_material;

pub use diffuse_material::DiffuseMaterial;
pub use lambertian::Lambertian;
pub use lambertian_material::LambertianMaterial;
pub use reflective_material::ReflectiveMaterial;
pub use reflective_material::ReflectiveMaterial as Reflective;
