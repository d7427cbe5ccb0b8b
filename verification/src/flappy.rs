//! The flappy game built on the core: its logical buttons, per-tick systems
//! and scenes. All coordinates are thousandths of a virtual pixel.

pub mod input;
pub mod scenes;
pub mod systems;
