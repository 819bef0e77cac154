pub mod shaders;
pub mod textures;
