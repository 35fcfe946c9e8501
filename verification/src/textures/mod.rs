pub mod checked_texture;
pub mod constant_texture;

pub use checked_texture::CheckedTexture;
pub use checked_texture::CheckedTexture as Checked;
pub use constant_texture::ConstantTexture;
pub use constant_texture::ConstantTexture as Constant;
