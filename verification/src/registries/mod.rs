use vstd::prelude::*;

use crate::registry::Registry;

pub mod textures;
pub mod util;

verus! {

/// Why the registries could not be loaded.
pub enum LoadError {
    TextureLoad(textures::TextureLoadError),
}

impl LoadError {
    /// The message of the error.
    pub fn message(&self) -> (res: String)
        ensures
            res@ == "failed to load textures"@,
    {
        String::from_str("failed to load textures")
    }
}

/// Every builtin registry of the game.
pub struct Registries {
    pub textures: Registry<wgpu::Texture>,
    pub shaders: Registry<wgpu::ShaderModule>,
}

/// The registries needed before the game is loaded, such as what the loading
/// screen shows.
pub struct EarlyRegistries {
    pub textures: Registry<wgpu::Texture>,
    pub shaders: Registry<wgpu::ShaderModule>,
}

} // verus!
