//! Runtime core shared by two small arcade games: an entity-component world
//! with deferred deletion, an edge-triggered input layer behind a key-binding
//! table, a dependency-ordered system scheduler, a scene stack governing
//! game-mode transitions, and a z-ordered render list.

pub mod components;
pub mod flappy;
pub mod input;
pub mod pong;
pub mod render;
mod rng;
pub mod scene;
pub mod scheduler;
pub mod types;
pub mod util;
pub mod world;
