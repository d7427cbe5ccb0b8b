//! Shared plain types of the simulation core: the fixed time step, coordinate
//! bounds, font and alignment hints for text payloads, and the paddle sides.
//!
//! The core works in integer coordinates. A caller picks the unit (for
//! example thousandths of a pixel); every formula here is exact over `int`,
//! with results clamped into a symmetric coordinate band so that no tick can
//! overflow machine arithmetic.

use vstd::prelude::*;

verus! {

/// Largest coordinate magnitude the world stores.
pub const POS_LIMIT: i64 = 0x1000_0000_0000_0000;

/// Largest velocity magnitude the world stores.
pub const VEL_LIMIT: i64 = 0x1_0000_0000_0000;

/// Largest fixed time step, in milliseconds, a tick may use.
pub const DT_LIMIT: i64 = 1000;

/// A coordinate the world may hold.
pub open spec fn coord_ok(x: int) -> bool {
    -POS_LIMIT <= x <= POS_LIMIT
}

/// A velocity component the world may hold.
pub open spec fn vel_ok(x: int) -> bool {
    -VEL_LIMIT <= x <= VEL_LIMIT
}

/// `x` clamped into the coordinate band.
pub open spec fn spec_clamp_coord(x: int) -> int {
    if x > POS_LIMIT as int {
        POS_LIMIT as int
    } else if x < -POS_LIMIT {
        -POS_LIMIT as int
    } else {
        x
    }
}

/// `x` clamped into the velocity band.
pub open spec fn spec_clamp_vel(x: int) -> int {
    if x > VEL_LIMIT as int {
        VEL_LIMIT as int
    } else if x < -VEL_LIMIT {
        -VEL_LIMIT as int
    } else {
        x
    }
}

/// Clamps a coordinate into the band the world accepts.
pub fn clamp_coord(x: i64) -> (r: i64)
    ensures
        r == spec_clamp_coord(x as int),
        coord_ok(r as int),
{
    if x > POS_LIMIT {
        POS_LIMIT
    } else if x < -POS_LIMIT {
        -POS_LIMIT
    } else {
        x
    }
}

/// Clamps a velocity component into the band the world accepts.
pub fn clamp_vel(x: i64) -> (r: i64)
    ensures
        r == spec_clamp_vel(x as int),
        vel_ok(r as int),
{
    if x > VEL_LIMIT {
        VEL_LIMIT
    } else if x < -VEL_LIMIT {
        -VEL_LIMIT
    } else {
        x
    }
}

/// The fixed logical time step, in milliseconds, shared by all systems of a
/// tick.
#[derive(Clone, Copy, Debug, PartialEq, Eq, Structural)]
pub struct DeltaTime {
    pub delta: i64,
}

impl DeltaTime {
    /// A delta a tick may use: positive and at most one second.
    pub open spec fn ok(self) -> bool {
        0 < self.delta <= DT_LIMIT
    }
}

/// Which loaded font a text payload asks for.
#[derive(Clone, Copy, Debug, Hash, PartialEq, Eq, Structural)]
pub enum FontType {
    Retro,
    Flappy,
}

/// Horizontal alignment of a text payload.
#[derive(Clone, Copy, Debug, PartialEq, Eq, Structural)]
pub enum Alignment {
    Left,
    Right,
    Centered,
}

/// Which side of the court a paddle defends.
#[derive(Clone, Copy, Debug, PartialEq, Eq, Structural)]
pub enum Side {
    Left,
    Right,
}

} // verus!
