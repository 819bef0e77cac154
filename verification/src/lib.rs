//! Core logic of the foxiefox game engine: identifiers, registries,
//! logging decisions, fail-safe signal decisions, GPU buffer bookkeeping.

pub mod events;
pub mod fail_safe;
pub mod foreign;
pub mod game_loop;
pub mod logging;
pub mod registries;
pub mod registry;
pub mod rendering;
pub mod resources;
pub mod screen;
pub mod ui;
pub mod util;
