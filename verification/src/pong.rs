//! The paddle game built on the core: its components, logical buttons,
//! per-tick systems and scenes.

pub mod components;
pub mod input;
pub mod scenes;
pub mod systems;
