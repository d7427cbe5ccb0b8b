//! Axis-aligned-bounding-box geometry: the only collision primitive the core
//! offers.

use vstd::prelude::*;

use crate::types::{coord_ok, POS_LIMIT, VEL_LIMIT};

verus! {

/// An axis-aligned box: origin plus extent.
#[derive(Clone, Copy, Debug, PartialEq, Eq, Structural)]
pub struct Rect {
    pub x: i64,
    pub y: i64,
    pub w: i64,
    pub h: i64,
}

impl Rect {
    pub fn new(x: i64, y: i64, w: i64, h: i64) -> (r: Rect)
        ensures
            r == (Rect { x, y, w, h }),
    {
        Rect { x, y, w, h }
    }

    /// The rectangle's coordinates and extents respect the world's bounds.
    pub open spec fn rect_ok(self) -> bool {
        coord_ok(self.x as int) && coord_ok(self.y as int) && 0 <= self.w <= POS_LIMIT && 0
            <= self.h <= POS_LIMIT
    }
}

/// Two boxes touch or overlap: neither lies strictly beyond the other on
/// either axis (shared edges count as a collision).
pub open spec fn spec_collides(r1: Rect, r2: Rect) -> bool {
    !(r1.x > r2.x + r2.w || r1.x + r1.w < r2.x) && !(r1.y > r2.y + r2.h || r1.y + r1.h < r2.y)
}

/// Axis-aligned-bounding-box collision test.
pub fn collides(r1: Rect, r2: Rect) -> (b: bool)
    requires
        r1.rect_ok(),
        r2.rect_ok(),
    ensures
        b == spec_collides(r1, r2),
{
    if r1.x > r2.x + r2.w || r1.x + r1.w < r2.x {
        false
    } else if r1.y > r2.y + r2.h || r1.y + r1.h < r2.y {
        false
    } else {
        true
    }
}

/// The decimal digit character for `n`.
pub open spec fn spec_digit(n: nat) -> char
    recommends
        n < 10,
{
    if n == 0 {
        '0'
    } else if n == 1 {
        '1'
    } else if n == 2 {
        '2'
    } else if n == 3 {
        '3'
    } else if n == 4 {
        '4'
    } else if n == 5 {
        '5'
    } else if n == 6 {
        '6'
    } else if n == 7 {
        '7'
    } else if n == 8 {
        '8'
    } else {
        '9'
    }
}

/// The decimal rendering of `n`, most significant digit first, no leading
/// zeroes (zero itself is "0").
pub open spec fn spec_decimal(n: nat) -> Seq<char>
    decreases n,
{
    if n < 10 {
        seq![spec_digit(n)]
    } else {
        spec_decimal(n / 10).push(spec_digit(n % 10))
    }
}

fn digit_str(d: u8) -> (r: &'static str)
    requires
        d < 10,
    ensures
        r@ == seq![spec_digit(d as nat)],
{
    proof {
        reveal_strlit("0");
        reveal_strlit("1");
        reveal_strlit("2");
        reveal_strlit("3");
        reveal_strlit("4");
        reveal_strlit("5");
        reveal_strlit("6");
        reveal_strlit("7");
        reveal_strlit("8");
        reveal_strlit("9");
    }
    let r = match d {
        0 => "0",
        1 => "1",
        2 => "2",
        3 => "3",
        4 => "4",
        5 => "5",
        6 => "6",
        7 => "7",
        8 => "8",
        _ => "9",
    };
    proof {
        assert(r@ =~= seq![spec_digit(d as nat)]);
    }
    r
}

/// Renders a byte in decimal.
pub fn u8_to_string(n: u8) -> (s: String)
    ensures
        s@ == spec_decimal(n as nat),
{
    if n < 10 {
        String::from_str(digit_str(n))
    } else if n < 100 {
        let s = String::from_str(digit_str(n / 10)).concat(digit_str(n % 10));
        proof {
            reveal_with_fuel(spec_decimal, 2);
            assert(s@ =~= spec_decimal(n as nat));
        }
        s
    } else {
        let s = String::from_str(digit_str(n / 100)).concat(digit_str((n / 10) % 10)).concat(
            digit_str(n % 10),
        );
        proof {
            reveal_with_fuel(spec_decimal, 3);
            assert((n as nat / 10) / 10 == n as nat / 100) by (nonlinear_arith);
            assert((n as nat / 10) >= 10);
            assert(s@ =~= spec_decimal(n as nat));
        }
        s
    }
}

/// `v * dt / 1000` with truncation towards zero, as machine arithmetic has it.
pub open spec fn spec_scaled(v: int, dt: int) -> int {
    if v >= 0 {
        v * dt / 1000
    } else {
        -((-v) * dt / 1000)
    }
}

/// Scales a velocity by the frame's delta time (milliseconds to seconds).
pub fn scaled(v: i64, dt: i64) -> (r: i64)
    requires
        -VEL_LIMIT <= v <= VEL_LIMIT,
        0 < dt <= 1000,
    ensures
        r == spec_scaled(v as int, dt as int),
        -VEL_LIMIT <= r <= VEL_LIMIT,
{
    if v >= 0 {
        proof {
            assert(0 <= v * dt <= VEL_LIMIT * 1000) by (nonlinear_arith)
                requires
                    0 <= v <= VEL_LIMIT,
                    0 < dt <= 1000,
            ;
            vstd::arithmetic::div_mod::lemma_div_is_ordered(
                v as int * dt as int,
                VEL_LIMIT as int * 1000,
                1000,
            );
            vstd::arithmetic::div_mod::lemma_div_is_ordered(0, v as int * dt as int, 1000);
        }
        v * dt / 1000
    } else {
        proof {
            assert(0 <= (-v) * dt <= VEL_LIMIT * 1000) by (nonlinear_arith)
                requires
                    -VEL_LIMIT <= v < 0,
                    0 < dt <= 1000,
            ;
            vstd::arithmetic::div_mod::lemma_div_is_ordered(
                (-v) as int * dt as int,
                VEL_LIMIT as int * 1000,
                1000,
            );
            vstd::arithmetic::div_mod::lemma_div_is_ordered(0, (-v) as int * dt as int, 1000);
        }
        -((-v) * dt / 1000)
    }
}

/// One more point, saturating at the score's ceiling.
pub open spec fn bump_score(x: u8) -> u8 {
    if x < 255 {
        (x + 1) as u8
    } else {
        x
    }
}

/// The fixed-step clock: accumulates measured real time and hands out fixed
/// ticks, so the simulation runs exactly as many fixed steps as real time has
/// elapsed, whatever the presentation rate. The backlog saturates at the
/// coordinate bound rather than overflow.
pub struct FixedStep {
    acc: i64,
    step: i64,
}

impl FixedStep {
    /// The accumulated, not yet consumed real time.
    pub closed spec fn acc(self) -> i64 {
        self.acc
    }

    /// The fixed step length, in milliseconds.
    pub closed spec fn step(self) -> i64 {
        self.step
    }

    pub open spec fn wf(self) -> bool {
        0 < self.step() <= crate::types::DT_LIMIT && 0 <= self.acc() <= POS_LIMIT
    }

    pub fn new(step: i64) -> (r: FixedStep)
        requires
            0 < step <= crate::types::DT_LIMIT,
        ensures
            r.wf(),
            r.acc() == 0,
            r.step() == step,
    {
        FixedStep { acc: 0, step }
    }

    /// Banks `elapsed` more milliseconds of measured real time.
    pub fn advance(&mut self, elapsed: i64)
        requires
            old(self).wf(),
            0 <= elapsed,
        ensures
            final(self).wf(),
            final(self).step() == old(self).step(),
            final(self).acc() == (if old(self).acc() + elapsed > POS_LIMIT {
                POS_LIMIT as int
            } else {
                old(self).acc() + elapsed
            }),
    {
        if elapsed > POS_LIMIT - self.acc {
            self.acc = POS_LIMIT;
        } else {
            self.acc = self.acc + elapsed;
        }
    }

    /// Consumes one fixed step if enough real time is banked: call in a loop
    /// and run one simulation tick per `true`, so ticks never outrun time.
    pub fn should_tick(&mut self) -> (r: bool)
        requires
            old(self).wf(),
        ensures
            final(self).wf(),
            final(self).step() == old(self).step(),
            r == (old(self).acc() >= old(self).step()),
            final(self).acc() == (if r {
                old(self).acc() - old(self).step()
            } else {
                old(self).acc() as int
            }),
    {
        if self.acc >= self.step {
            self.acc = self.acc - self.step;
            true
        } else {
            false
        }
    }
}

} // verus!
