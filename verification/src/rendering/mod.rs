pub mod buffer;
pub mod data_loader;
pub mod frames;
pub mod gpu_lookup;
pub mod pipeline;
pub mod surface;
pub mod util;
