pub mod bounding_volume_hierarchy;
pub mod bounds;
pub mod nearest;
pub mod plane;
pub mod rect;
pub mod sphere;
pub mod triangle;
pub mod xy_rect;
pub mod xz_rect;
pub mod yz_rect;

pub use bounding_volume_hierarchy::BVH;
pub use bounds::Bounds;
pub use plane::Plane;
pub use sphere::Sphere;
pub use triangle::Triangle;
pub use xy_rect::XYRect;
pub use xz_rect::XZRect;
pub use yz_rect::YZRect;
