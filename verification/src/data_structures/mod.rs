pub mod color;
pub mod image;
pub mod intersection_payload;
pub mod ray;
pub mod scatter_payload;
pub mod scene;

pub use color::Color;
pub use image::Image;
pub use intersection_payload::IntersectionPayload;
pub use ray::Ray;
pub use scatter_payload::ScatterPayload;
pub use scene::Scene;
