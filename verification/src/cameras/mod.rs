pub mod perspective_camera;

pub use perspective_camera::PerspectiveCamera;
