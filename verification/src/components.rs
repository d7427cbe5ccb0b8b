//! Component payloads attachable to entities. Components are sparse: an
//! entity carries any subset of them. Coordinates are integers in the
//! caller's unit; `Position::z` is a draw-order hint, not physical depth.

use vstd::prelude::*;

use crate::types::{Alignment, FontType};

verus! {

/// Where an entity is; `z` orders drawing, ascending.
#[derive(Clone, Copy, Debug, PartialEq, Eq, Structural)]
pub struct Position {
    pub x: i64,
    pub y: i64,
    pub z: u32,
}

/// How fast an entity moves, per the caller's time unit.
#[derive(Clone, Copy, Debug, PartialEq, Eq, Structural)]
pub struct Velocity {
    pub x: i64,
    pub y: i64,
}

/// An entity's axis-aligned extent.
#[derive(Clone, Copy, Debug, PartialEq, Eq, Structural)]
pub struct Size {
    pub w: i64,
    pub h: i64,
}

/// Draw rotation, in the caller's angle unit, around a pivot.
#[derive(Clone, Copy, Debug, PartialEq, Eq, Structural)]
pub struct Rotation {
    pub deg: i64,
    pub x: i64,
    pub y: i64,
}

/// Presence gates drawing; `visible` toggles it without detaching.
#[derive(Clone, Copy, Debug, PartialEq, Eq, Structural)]
pub struct Render {
    pub visible: bool,
}

/// An opaque handle to an image owned by the rendering collaborator; the core
/// only tracks its existence and ordering key.
#[derive(Clone, Copy, Debug, PartialEq, Eq, Structural)]
pub struct Image {
    pub image: u32,
}

/// A text payload; the rendering collaborator owns fonts and colors.
#[derive(Clone, Debug)]
pub struct Text {
    pub text: String,
    pub font_size: i64,
    pub font: FontType,
    pub align: Alignment,
}

/// Scrolls an entity leftwards, wrapping at a looping point.
#[derive(Clone, Copy, Debug, PartialEq, Eq, Structural)]
pub struct Parallax {
    pub speed: i64,
    pub looping_point: i64,
}

/// Tags the player-controlled bird.
#[derive(Clone, Copy, Debug, PartialEq, Eq, Structural)]
pub struct Player;

/// Which half of a pipe pair an obstacle is.
#[derive(Clone, Copy, Debug, PartialEq, Eq, Structural)]
pub enum PipeAlignment {
    Top,
    Bottom,
}

/// An obstacle; `scored` is the one-shot flag that keeps each pipe pair from
/// scoring twice.
#[derive(Clone, Copy, Debug, PartialEq, Eq, Structural)]
pub struct Pipe {
    pub scored: bool,
    pub side: PipeAlignment,
}

/// The running score of the entity carrying it.
#[derive(Clone, Copy, Debug, PartialEq, Eq, Structural)]
pub struct Score(pub u8);

/// The terminal flag: the carrying actor has collided.
#[derive(Clone, Copy, Debug, PartialEq, Eq, Structural)]
pub struct Dead(pub bool);

} // verus!
