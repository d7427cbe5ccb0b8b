//! Component payloads particular to the paddle game.

use vstd::prelude::*;

use crate::types::Side;

verus! {

/// A paddle and its owner's running score.
#[derive(Clone, Debug)]
pub struct Player {
    pub side: Side,
    pub name: String,
    pub score: u8,
}

/// Tags the ball.
#[derive(Clone, Copy, Debug, PartialEq, Eq, Structural)]
pub struct Ball {}

/// The carrying player scored this rally.
#[derive(Clone, Copy, Debug, PartialEq, Eq, Structural)]
pub struct Scored(pub bool);

/// The carrying player reached the winning score.
#[derive(Clone, Copy, Debug, PartialEq, Eq, Structural)]
pub struct Won(pub bool);

/// The carrying player serves next.
#[derive(Clone, Copy, Debug, PartialEq, Eq, Structural)]
pub struct Serving(pub bool);

} // verus!
