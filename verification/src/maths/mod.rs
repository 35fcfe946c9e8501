pub mod matrix_4x4;
pub mod scalar;
pub mod vector3;

pub use matrix_4x4::Matrix4x4;
pub use scalar::Scalar;
pub use vector3::Vector3;
