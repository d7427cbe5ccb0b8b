//! The paddle game's per-tick systems: ball movement, paddle steering, the
//! bounce with restitution and a randomized deflection, and the goal pass
//! that awards points and decides serving and winning.

use vstd::prelude::*;

use crate::components::{Position, Velocity};
use crate::pong::components::{Player as Paddle, Scored, Serving, Won};
use crate::types::{spec_clamp_coord, spec_clamp_vel, DeltaTime, Side, VEL_LIMIT};
use crate::util::{bump_score, scaled, spec_collides, spec_scaled, Rect};
use crate::world::{Slot, World};

verus! {

/// Width of the virtual court, in thousandths of a pixel.
pub const VIRTUAL_WIDTH: i64 = 432_000;

/// Height of the virtual court, in thousandths of a pixel.
pub const VIRTUAL_HEIGHT: i64 = 243_000;

/// How fast a held paddle moves, per second.
pub const PADDLE_SPEED: i64 = 200_000;

/// Points needed to win a short match.
pub const POINTS_TO_WIN: u8 = 3;

/// Points needed to win a long match.
pub const POINTS_TO_WIN_LONG: u8 = 10;

/// A row taking part in play as the ball.
pub open spec fn ball_row(s: Slot) -> bool {
    s.alive && s.ball is Some && s.position is Some && s.size is Some
}

/// A moving ball row.
pub open spec fn ball_row_v(s: Slot) -> bool {
    ball_row(s) && s.velocity is Some
}

/// A row taking part in play as a paddle.
pub open spec fn pad_row(s: Slot) -> bool {
    s.alive && s.paddle is Some && s.position is Some && s.size is Some
}

/// A row taking part in the goal pass as a player.
pub open spec fn goal_row(s: Slot) -> bool {
    s.alive && s.paddle is Some && s.serving is Some && s.scored is Some && s.won is Some
}

/// The ball system's effect on one row: ball rows integrate their velocity.
pub open spec fn ball_step(s: Slot, dt: int) -> Slot {
    if ball_row_v(s) {
        let p = s.position->Some_0;
        let v = s.velocity->Some_0;
        Slot {
            position: Some(
                Position {
                    x: spec_clamp_coord(p.x + spec_scaled(v.x as int, dt)) as i64,
                    y: spec_clamp_coord(p.y + spec_scaled(v.y as int, dt)) as i64,
                    z: p.z,
                },
            ),
            ..s
        }
    } else {
        s
    }
}

/// The ball system's overall effect.
pub open spec fn ball_rel(a: World, b: World, dt: int) -> bool {
    &&& b.num_slots() == a.num_slots()
    &&& forall|j: int| 0 <= j < a.num_slots() ==> b.slot_of(j) == ball_step(a.slot_of(j), dt)
    &&& b.pending_seq() == a.pending_seq()
    &&& b.freelist() == a.freelist()
    &&& b.render_dirty() == a.render_dirty()
}

/// Integrates the ball's velocity into its position.
pub struct BallSystem;

impl BallSystem {
    pub fn run(&mut self, world: &mut World, dt: DeltaTime)
        requires
            old(world).wf(),
            dt.ok(),
        ensures
            final(world).wf(),
            ball_rel(*old(world), *final(world), dt.delta as int),
    {
        let n = world.len();
        let mut i: usize = 0;
        while i < n
            invariant
                world.wf(),
                dt.ok(),
                n == world.num_slots(),
                i <= n,
                world.pending_seq() == old(world).pending_seq(),
                world.freelist() == old(world).freelist(),
                world.render_dirty() == old(world).render_dirty(),
                forall|j: int|
                    0 <= j < i ==> #[trigger] world.slot_of(j) == ball_step(
                        old(world).slot_of(j),
                        dt.delta as int,
                    ),
                forall|j: int| i <= j < n ==> #[trigger] world.slot_of(j) == old(world).slot_of(j),
            decreases n - i,
        {
            proof {
                assert(world.slots()[i as int].slot_ok());
            }
            let ghost prev = *world;
            if world.alive(i) && world.get_ball(i).is_some() && world.get_size(i).is_some() {
                let pos_opt = world.get_position(i);
                let vel_opt = world.get_velocity(i);
                if pos_opt.is_some() && vel_opt.is_some() {
                    let p = pos_opt.unwrap();
                    let v = vel_opt.unwrap();
                    let nx = crate::types::clamp_coord(p.x + scaled(v.x, dt.delta));
                    let ny = crate::types::clamp_coord(p.y + scaled(v.y, dt.delta));
                    world.set_position(i, Position { x: nx, y: ny, z: p.z });
                    proof {
                        assert(forall|j: int|
                            0 <= j < n && j != i as int ==> #[trigger] world.slot_of(j)
                                == prev.slot_of(j));
                        assert(world.slot_of(i as int) == ball_step(
                            old(world).slot_of(i as int),
                            dt.delta as int,
                        ));
                    }
                }
            }
            proof {
                assert(ball_step(old(world).slot_of(i as int), dt.delta as int) == world.slot_of(
                    i as int,
                ));
            }
            i = i + 1;
        }
    }
}

/// The paddle system's effect on one row, given which steering buttons are
/// held: the paddle moves at its fixed speed, clamped to the court.
pub open spec fn paddle_step(s: Slot, dt: int, lu: bool, ld: bool, ru: bool, rd: bool) -> Slot {
    if pad_row(s) {
        let p = s.position->Some_0;
        let sz = s.size->Some_0;
        let a = spec_scaled(PADDLE_SPEED as int, dt);
        let up = if s.paddle->Some_0.side is Left {
            lu
        } else {
            ru
        };
        let down = if s.paddle->Some_0.side is Left {
            ld
        } else {
            rd
        };
        let y1 = if up {
            if p.y - a < 0 {
                0
            } else {
                p.y - a
            }
        } else {
            p.y as int
        };
        let y2 = if down {
            if y1 + a > VIRTUAL_HEIGHT - sz.h {
                VIRTUAL_HEIGHT - sz.h
            } else {
                y1 + a
            }
        } else {
            y1
        };
        Slot { position: Some(Position { x: p.x, y: y2 as i64, z: p.z }), ..s }
    } else {
        s
    }
}

/// The paddle system's overall effect.
pub open spec fn paddle_rel(
    a: World,
    b: World,
    dt: int,
    lu: bool,
    ld: bool,
    ru: bool,
    rd: bool,
) -> bool {
    &&& b.num_slots() == a.num_slots()
    &&& forall|j: int|
        0 <= j < a.num_slots() ==> b.slot_of(j) == paddle_step(a.slot_of(j), dt, lu, ld, ru, rd)
    &&& b.pending_seq() == a.pending_seq()
    &&& b.freelist() == a.freelist()
    &&& b.render_dirty() == a.render_dirty()
}

/// Moves each paddle by its held steering buttons, clamped to the court.
pub struct PaddleSystem;

impl PaddleSystem {
    /// The four flags are this frame's level queries of the steering buttons.
    pub fn run(&mut self, world: &mut World, dt: DeltaTime, lu: bool, ld: bool, ru: bool, rd: bool)
        requires
            old(world).wf(),
            dt.ok(),
        ensures
            final(world).wf(),
            paddle_rel(*old(world), *final(world), dt.delta as int, lu, ld, ru, rd),
    {
        let n = world.len();
        let mut i: usize = 0;
        while i < n
            invariant
                world.wf(),
                dt.ok(),
                n == world.num_slots(),
                i <= n,
                world.pending_seq() == old(world).pending_seq(),
                world.freelist() == old(world).freelist(),
                world.render_dirty() == old(world).render_dirty(),
                forall|j: int|
                    0 <= j < i ==> #[trigger] world.slot_of(j) == paddle_step(
                        old(world).slot_of(j),
                        dt.delta as int,
                        lu,
                        ld,
                        ru,
                        rd,
                    ),
                forall|j: int| i <= j < n ==> #[trigger] world.slot_of(j) == old(world).slot_of(j),
            decreases n - i,
        {
            proof {
                assert(world.slots()[i as int].slot_ok());
            }
            let ghost prev = *world;
            if world.alive(i) && world.get_position(i).is_some() && world.get_size(i).is_some() {
                let pad = world.get_paddle(i);
                match pad {
                    Some(pd) => {
                        let left = match pd.side {
                            Side::Left => true,
                            Side::Right => false,
                        };
                        let p = world.get_position(i).unwrap();
                        let sz = world.get_size(i).unwrap();
                        let a = scaled(PADDLE_SPEED, dt.delta);
                        let up = if left {
                            lu
                        } else {
                            ru
                        };
                        let down = if left {
                            ld
                        } else {
                            rd
                        };
                        let y1 = if up {
                            if p.y - a < 0 {
                                0
                            } else {
                                p.y - a
                            }
                        } else {
                            p.y
                        };
                        let y2 = if down {
                            if y1 + a > VIRTUAL_HEIGHT - sz.h {
                                VIRTUAL_HEIGHT - sz.h
                            } else {
                                y1 + a
                            }
                        } else {
                            y1
                        };
                        world.set_position(i, Position { x: p.x, y: y2, z: p.z });
                        proof {
                            assert(forall|j: int|
                                0 <= j < n && j != i as int ==> #[trigger] world.slot_of(j)
                                    == prev.slot_of(j));
                            assert(world.slot_of(i as int) == paddle_step(
                                old(world).slot_of(i as int),
                                dt.delta as int,
                                lu,
                                ld,
                                ru,
                                rd,
                            ));
                        }
                    },
                    None => {},
                }
            }
            proof {
                assert(paddle_step(old(world).slot_of(i as int), dt.delta as int, lu, ld, ru, rd)
                    == world.slot_of(i as int));
            }
            i = i + 1;
        }
    }
}

/// Sign-preserving restitution: the speed grows by a tenth.
pub open spec fn amplify(v: int) -> int {
    if v >= 0 {
        v * 11 / 10
    } else {
        -((-v) * 11 / 10)
    }
}

fn amplify_exec(v: i64) -> (r: i64)
    requires
        -VEL_LIMIT <= v <= VEL_LIMIT,
    ensures
        r == amplify(v as int),
{
    if v >= 0 {
        v * 11 / 10
    } else {
        -((-v) * 11 / 10)
    }
}

/// A coordinate folded into the court's vertical band.
pub open spec fn clamp_band(t: int) -> int {
    if t < 0 {
        0
    } else if t > VIRTUAL_HEIGHT as int {
        VIRTUAL_HEIGHT as int
    } else {
        t
    }
}

/// The vertical deflection a paddle hit gives the ball: proportional to the
/// random factor `r` and the impact offset, upwards when the ball strikes the
/// paddle's upper half.
pub open spec fn deflect(r: int, ball_y: int, pad_y: int, pad_h: int) -> int {
    let den = if ball_y <= 0 {
        1
    } else {
        ball_y
    };
    if ball_y < pad_y + pad_h / 2 {
        -(r * clamp_band(pad_y + pad_h / 2) / den)
    } else {
        r * clamp_band(pad_y + pad_h) / den
    }
}

fn clamp_band_exec(t: i64) -> (r: i64)
    ensures
        r == clamp_band(t as int),
{
    if t < 0 {
        0
    } else if t > VIRTUAL_HEIGHT {
        VIRTUAL_HEIGHT
    } else {
        t
    }
}

fn deflect_exec(r: i64, ball_y: i64, pad_y: i64, pad_h: i64) -> (d: i64)
    requires
        50_000 <= r < 100_000,
        -0x2000_0000_0000_0000 <= ball_y <= 0x2000_0000_0000_0000,
        -0x2000_0000_0000_0000 <= pad_y <= 0x2000_0000_0000_0000,
        0 <= pad_h <= 0x2000_0000_0000_0000,
    ensures
        d == deflect(r as int, ball_y as int, pad_y as int, pad_h as int),
{
    let den = if ball_y <= 0 {
        1
    } else {
        ball_y
    };
    if ball_y < pad_y + pad_h / 2 {
        let c = clamp_band_exec(pad_y + pad_h / 2);
        proof {
            assert(0 <= r * c <= 100_000 * 243_000) by (nonlinear_arith)
                requires
                    50_000 <= r < 100_000,
                    0 <= c <= 243_000,
            ;
            vstd::arithmetic::div_mod::lemma_div_is_ordered(0, r as int * c as int, den as int);
            vstd::arithmetic::div_mod::lemma_div_nonincreasing(r as int * c as int, den as int);
        }
        -(r * c / den)
    } else {
        let c = clamp_band_exec(pad_y + pad_h);
        proof {
            assert(0 <= r * c <= 100_000 * 243_000) by (nonlinear_arith)
                requires
                    50_000 <= r < 100_000,
                    0 <= c <= 243_000,
            ;
            vstd::arithmetic::div_mod::lemma_div_is_ordered(0, r as int * c as int, den as int);
            vstd::arithmetic::div_mod::lemma_div_nonincreasing(r as int * c as int, den as int);
        }
        r * c / den
    }
}

/// The wall bounce on one row: a ball touching the top or bottom of the court
/// is pinned to it and its vertical velocity reflected.
pub open spec fn wall_step(s: Slot) -> Slot {
    if ball_row_v(s) {
        let p = s.position->Some_0;
        let sz = s.size->Some_0;
        let v = s.velocity->Some_0;
        if p.y <= 0 {
            Slot {
                position: Some(Position { x: p.x, y: 0, z: p.z }),
                velocity: Some(Velocity { x: v.x, y: (-v.y) as i64 }),
                ..s
            }
        } else if p.y >= VIRTUAL_HEIGHT - sz.h {
            Slot {
                position: Some(Position { x: p.x, y: (VIRTUAL_HEIGHT - sz.h) as i64, z: p.z }),
                velocity: Some(Velocity { x: v.x, y: (-v.y) as i64 }),
                ..s
            }
        } else {
            s
        }
    } else {
        s
    }
}

/// One ball-paddle pairing of the bounce pass: on overlap the ball is pushed
/// to the paddle's face, its horizontal velocity reflected with restitution,
/// and its vertical velocity set to the deflection under random factor `r`.
pub open spec fn bounce_pair(s: Seq<Slot>, i: int, j: int, r: int) -> Seq<Slot>
    recommends
        0 <= i < s.len(),
        0 <= j < s.len(),
{
    let b = s[i];
    let q = s[j];
    if i != j && ball_row_v(b) && pad_row(q) && spec_collides(
        Rect {
            x: b.position->Some_0.x,
            y: b.position->Some_0.y,
            w: b.size->Some_0.w,
            h: b.size->Some_0.h,
        },
        Rect {
            x: q.position->Some_0.x,
            y: q.position->Some_0.y,
            w: q.size->Some_0.w,
            h: q.size->Some_0.h,
        },
    ) {
        let bp = b.position->Some_0;
        let bv = b.velocity->Some_0;
        let qp = q.position->Some_0;
        let qs = q.size->Some_0;
        let nx = if q.paddle->Some_0.side is Left {
            qp.x + qs.w
        } else {
            qp.x - b.size->Some_0.w
        };
        s.update(
            i,
            Slot {
                position: Some(Position { x: spec_clamp_coord(nx) as i64, y: bp.y, z: bp.z }),
                velocity: Some(
                    Velocity {
                        x: spec_clamp_vel(amplify(-bv.x)) as i64,
                        y: spec_clamp_vel(
                            deflect(r, bp.y as int, qp.y as int, qs.h as int),
                        ) as i64,
                    },
                ),
                ..b
            },
        )
    } else {
        s
    }
}

/// Ball `i` paired against the first `j` rows as paddles, in row order.
pub open spec fn bounce_pads(s: Seq<Slot>, i: int, j: int, r: int) -> Seq<Slot>
    decreases j,
{
    if j <= 0 {
        s
    } else {
        bounce_pair(bounce_pads(s, i, j - 1, r), i, j - 1, r)
    }
}

/// The first `i` rows as balls: each takes its wall bounce, then is paired
/// against every paddle.
pub open spec fn bounce_balls(s: Seq<Slot>, i: int, r: int) -> Seq<Slot>
    decreases i,
{
    if i <= 0 {
        s
    } else {
        let prev = bounce_balls(s, i - 1, r);
        let walled = prev.update(i - 1, wall_step(prev[i - 1]));
        bounce_pads(walled, i - 1, walled.len() as int, r)
    }
}

/// One pairing leaves the row count alone.
proof fn lemma_bounce_pair_len(s: Seq<Slot>, i: int, j: int, r: int)
    requires
        0 <= i < s.len(),
        0 <= j < s.len(),
    ensures
        bounce_pair(s, i, j, r).len() == s.len(),
{
}

/// The paddle pass leaves the row count alone.
proof fn lemma_bounce_pads_len(s: Seq<Slot>, i: int, j: int, r: int)
    requires
        0 <= i < s.len(),
        0 <= j <= s.len(),
    ensures
        bounce_pads(s, i, j, r).len() == s.len(),
    decreases j,
{
    if j > 0 {
        lemma_bounce_pads_len(s, i, j - 1, r);
    }
}

/// The ball pass leaves the row count alone.
pub proof fn lemma_bounce_balls_len(s: Seq<Slot>, i: int, r: int)
    requires
        0 <= i <= s.len(),
    ensures
        bounce_balls(s, i, r).len() == s.len(),
    decreases i,
{
    if i > 0 {
        lemma_bounce_balls_len(s, i - 1, r);
        lemma_bounce_pads_len(
            bounce_balls(s, i - 1, r).update(i - 1, wall_step(bounce_balls(s, i - 1, r)[i - 1])),
            i - 1,
            s.len() as int,
            r,
        );
    }
}

/// The bounce system's overall effect, for whatever deflection factor the
/// random draw produced.
pub open spec fn bounce_rel(a: World, b: World) -> bool {
    exists|r: int|
        50_000 <= r < 100_000 && b.num_slots() == a.num_slots() && b.slots()
            == #[trigger] bounce_balls(a.slots(), a.num_slots(), r) && b.pending_seq()
            == a.pending_seq() && b.freelist() == a.freelist() && b.render_dirty()
            == a.render_dirty()
}

/// Bounces the ball off the court's walls and the paddles; the vertical
/// deflection of a paddle hit is randomized within a fixed band.
pub struct BounceSystem;

impl BounceSystem {
    pub fn run(&mut self, world: &mut World)
        requires
            old(world).wf(),
        ensures
            final(world).wf(),
            bounce_rel(*old(world), *final(world)),
    {
        let r = crate::rng::random_in_range(50_000, 100_000);
        let n = world.len();
        let mut i: usize = 0;
        while i < n
            invariant
                world.wf(),
                50_000 <= r < 100_000,
                n == world.num_slots(),
                i <= n,
                world.pending_seq() == old(world).pending_seq(),
                world.freelist() == old(world).freelist(),
                world.render_dirty() == old(world).render_dirty(),
                old(world).num_slots() == n,
                world.slots() == bounce_balls(old(world).slots(), i as int, r as int),
            decreases n - i,
        {
            proof {
                lemma_bounce_balls_len(old(world).slots(), i as int, r as int);
            }
            let ghost before_wall = world.slots();
            let is_ball = world.alive(i) && world.get_ball(i).is_some()
                && world.get_position(i).is_some() && world.get_size(i).is_some()
                && world.get_velocity(i).is_some();
            if is_ball {
                proof {
                    assert(world.slots()[i as int].slot_ok());
                }
                let p = world.get_position(i).unwrap();
                let sz = world.get_size(i).unwrap();
                let v = world.get_velocity(i).unwrap();
                if p.y <= 0 {
                    world.set_position(i, Position { x: p.x, y: 0, z: p.z });
                    world.set_velocity(i, Velocity { x: v.x, y: -v.y });
                } else if p.y >= VIRTUAL_HEIGHT - sz.h {
                    world.set_position(i, Position { x: p.x, y: VIRTUAL_HEIGHT - sz.h, z: p.z });
                    world.set_velocity(i, Velocity { x: v.x, y: -v.y });
                }
            }
            proof {
                assert(world.slots() =~= before_wall.update(
                    i as int,
                    wall_step(before_wall[i as int]),
                ));
            }
            let ghost walled = world.slots();
            let mut j: usize = 0;
            while j < n
                invariant
                    world.wf(),
                    50_000 <= r < 100_000,
                    n == world.num_slots(),
                    i < n,
                    j <= n,
                    walled.len() == n,
                    world.pending_seq() == old(world).pending_seq(),
                    world.freelist() == old(world).freelist(),
                    world.render_dirty() == old(world).render_dirty(),
                    world.slots() == bounce_pads(walled, i as int, j as int, r as int),
                decreases n - j,
            {
                let ghost cur = world.slots();
                proof {
                    lemma_bounce_pads_len(walled, i as int, j as int, r as int);
                }
                let ball_ok = world.alive(i) && world.get_ball(i).is_some()
                    && world.get_position(i).is_some() && world.get_size(i).is_some()
                    && world.get_velocity(i).is_some();
                let pad_ok = world.alive(j) && world.get_position(j).is_some()
                    && world.get_size(j).is_some();
                if i != j && ball_ok && pad_ok && world.get_paddle(j).is_some() {
                    proof {
                        assert(world.slots()[i as int].slot_ok());
                        assert(world.slots()[j as int].slot_ok());
                    }
                    let bp = world.get_position(i).unwrap();
                    let bs = world.get_size(i).unwrap();
                    let bv = world.get_velocity(i).unwrap();
                    let qp = world.get_position(j).unwrap();
                    let qs = world.get_size(j).unwrap();
                    let qside = match world.get_paddle(j) {
                        Some(pd) => match pd.side {
                            Side::Left => true,
                            Side::Right => false,
                        },
                        None => false,
                    };
                    if crate::util::collides(
                        Rect { x: bp.x, y: bp.y, w: bs.w, h: bs.h },
                        Rect { x: qp.x, y: qp.y, w: qs.w, h: qs.h },
                    ) {
                        let nx = if qside {
                            qp.x + qs.w
                        } else {
                            qp.x - bs.w
                        };
                        let nvx = crate::types::clamp_vel(amplify_exec(-bv.x));
                        let nvy = crate::types::clamp_vel(deflect_exec(r, bp.y, qp.y, qs.h));
                        world.set_position(
                            i,
                            Position { x: crate::types::clamp_coord(nx), y: bp.y, z: bp.z },
                        );
                        world.set_velocity(i, Velocity { x: nvx, y: nvy });
                    }
                }
                proof {
                    assert(world.slots() =~= bounce_pair(cur, i as int, j as int, r as int));
                }
                j = j + 1;
            }
            i = i + 1;
        }
        proof {
            assert(world.slots() == bounce_balls(
                old(world).slots(),
                old(world).num_slots(),
                r as int,
            ));
            lemma_bounce_balls_len(old(world).slots(), old(world).num_slots(), r as int);
        }
    }
}

/// How a goal on side `out_left` changes one row: the conceding player will
/// serve; the scoring player takes the point (saturating) and, at the
/// threshold, the win.
pub open spec fn concede_step(s: Slot, out_left: bool, th: u8) -> Slot {
    if goal_row(s) {
        let p = s.paddle->Some_0;
        if (p.side is Left) == out_left {
            Slot { serving: Some(Serving(true)), ..s }
        } else {
            let ns = bump_score(p.score);
            Slot {
                paddle: Some(Paddle { side: p.side, name: p.name, score: ns }),
                scored: Some(Scored(true)),
                won: Some(
                    Won(
                        if ns >= th {
                            true
                        } else {
                            s.won->Some_0.0
                        },
                    ),
                ),
                ..s
            }
        }
    } else {
        s
    }
}

/// Row `i`, if it is a ball out of the court, awards a goal: out on the left
/// the right player scores, out on the right the left player scores.
pub open spec fn goal_step(s: Seq<Slot>, i: int, th: u8) -> Seq<Slot>
    recommends
        0 <= i < s.len(),
{
    let r = s[i];
    if ball_row(r) {
        let s1 = if r.position->Some_0.x < 0 {
            s.map_values(|q: Slot| concede_step(q, true, th))
        } else {
            s
        };
        if r.position->Some_0.x + r.size->Some_0.w > VIRTUAL_WIDTH {
            s1.map_values(|q: Slot| concede_step(q, false, th))
        } else {
            s1
        }
    } else {
        s
    }
}

/// The goal pass over the first `i` rows as balls.
pub open spec fn goals_pass(s: Seq<Slot>, i: int, th: u8) -> Seq<Slot>
    decreases i,
{
    if i <= 0 {
        s
    } else {
        goal_step(goals_pass(s, i - 1, th), i - 1, th)
    }
}

/// The goal pass leaves the row count alone.
pub proof fn lemma_goals_len(s: Seq<Slot>, i: int, th: u8)
    requires
        0 <= i <= s.len(),
    ensures
        goals_pass(s, i, th).len() == s.len(),
    decreases i,
{
    if i > 0 {
        lemma_goals_len(s, i - 1, th);
    }
}

/// Runs the goal pass: every ball out of the court awards a point against the
/// side it left on, flags the rally as scored, picks the next server, and at
/// `th` points flags the winner.
fn run_goals(world: &mut World, th: u8)
    requires
        old(world).wf(),
    ensures
        final(world).wf(),
        final(world).num_slots() == old(world).num_slots(),
        final(world).slots() == goals_pass(old(world).slots(), old(world).num_slots(), th),
        final(world).pending_seq() == old(world).pending_seq(),
        final(world).freelist() == old(world).freelist(),
        final(world).render_dirty() == old(world).render_dirty(),
{
    let n = world.len();
    let mut i: usize = 0;
    while i < n
        invariant
            world.wf(),
            n == world.num_slots(),
            old(world).num_slots() == n,
            i <= n,
            world.pending_seq() == old(world).pending_seq(),
            world.freelist() == old(world).freelist(),
            world.render_dirty() == old(world).render_dirty(),
            world.slots() == goals_pass(old(world).slots(), i as int, th),
        decreases n - i,
    {
        proof {
            lemma_goals_len(old(world).slots(), i as int, th);
        }
        let ghost cur = world.slots();
        let is_ball = world.alive(i) && world.get_ball(i).is_some()
            && world.get_position(i).is_some() && world.get_size(i).is_some();
        if is_ball {
            proof {
                assert(world.slots()[i as int].slot_ok());
            }
            let p = world.get_position(i).unwrap();
            let sz = world.get_size(i).unwrap();
            if p.x < 0 {
                award_goal(world, true, th);
            }
            proof {
                assert(world.slots() == (if cur[i as int].position->Some_0.x < 0 {
                    cur.map_values(|q: Slot| concede_step(q, true, th))
                } else {
                    cur
                }));
            }
            if p.x + sz.w > VIRTUAL_WIDTH {
                award_goal(world, false, th);
            }
        }
        proof {
            assert(world.slots() =~= goal_step(cur, i as int, th));
        }
        i = i + 1;
    }
}

/// Applies `concede_step` to every row.
fn award_goal(world: &mut World, out_left: bool, th: u8)
    requires
        old(world).wf(),
    ensures
        final(world).wf(),
        final(world).num_slots() == old(world).num_slots(),
        final(world).slots() == old(world).slots().map_values(
            (|q: Slot| concede_step(q, out_left, th)),
        ),
        final(world).pending_seq() == old(world).pending_seq(),
        final(world).freelist() == old(world).freelist(),
        final(world).render_dirty() == old(world).render_dirty(),
{
    let n = world.len();
    let mut j: usize = 0;
    while j < n
        invariant
            world.wf(),
            n == world.num_slots(),
            j <= n,
            world.pending_seq() == old(world).pending_seq(),
            world.freelist() == old(world).freelist(),
            world.render_dirty() == old(world).render_dirty(),
            forall|k: int|
                0 <= k < j ==> #[trigger] world.slot_of(k) == concede_step(
                    old(world).slot_of(k),
                    out_left,
                    th,
                ),
            forall|k: int| j <= k < n ==> #[trigger] world.slot_of(k) == old(world).slot_of(k),
        decreases n - j,
    {
        let ghost prev = *world;
        let is_goal_row = world.alive(j) && world.get_serving(j).is_some() && world.get_scored(
            j,
        ).is_some() && world.get_won(j).is_some();
        if is_goal_row {
            match world.get_paddle(j) {
                Some(pd) => {
                    let left = match pd.side {
                        Side::Left => true,
                        Side::Right => false,
                    };
                    if left == out_left {
                        world.set_serving(j, Serving(true));
                    } else {
                        let ns = if pd.score < 255 {
                            pd.score + 1
                        } else {
                            pd.score
                        };
                        let side = pd.side;
                        let name = pd.name.clone();
                        let won_now = if ns >= th {
                            true
                        } else {
                            world.get_won(j).unwrap().0
                        };
                        world.set_paddle(j, Paddle { side, name, score: ns });
                        world.set_scored(j, Scored(true));
                        world.set_won(j, Won(won_now));
                    }
                    proof {
                        assert(forall|k: int|
                            0 <= k < n && k != j as int ==> #[trigger] world.slot_of(k)
                                == prev.slot_of(k));
                        assert(world.slot_of(j as int) == concede_step(
                            old(world).slot_of(j as int),
                            out_left,
                            th,
                        ));
                    }
                },
                None => {},
            }
        }
        proof {
            assert(world.slot_of(j as int) == concede_step(
                old(world).slot_of(j as int),
                out_left,
                th,
            ));
        }
        j = j + 1;
    }
    proof {
        let mapped = old(world).slots().map_values((|q: Slot| concede_step(q, out_left, th)));
        assert forall|k: int| 0 <= k < n implies world.slots()[k] == mapped[k] by {
            assert(world.slot_of(k) == concede_step(old(world).slot_of(k), out_left, th));
        }
        assert(world.slots() =~= mapped);
    }
}

/// The goal pass's overall effect at threshold `th`.
pub open spec fn goals_rel(a: World, b: World, th: u8) -> bool {
    &&& b.num_slots() == a.num_slots()
    &&& b.slots() == goals_pass(a.slots(), a.num_slots(), th)
    &&& b.pending_seq() == a.pending_seq()
    &&& b.freelist() == a.freelist()
    &&& b.render_dirty() == a.render_dirty()
}

/// The goal pass of the short match: scoring, serving and a win at three
/// points.
pub struct ScoreSystem;

impl ScoreSystem {
    pub fn run(&mut self, world: &mut World)
        requires
            old(world).wf(),
        ensures
            final(world).wf(),
            goals_rel(*old(world), *final(world), POINTS_TO_WIN),
    {
        run_goals(world, POINTS_TO_WIN);
    }
}

/// The goal pass of the long match: as the short one, with the win at ten
/// points.
pub struct WinnerSystem;

impl WinnerSystem {
    pub fn run(&mut self, world: &mut World)
        requires
            old(world).wf(),
        ensures
            final(world).wf(),
            goals_rel(*old(world), *final(world), POINTS_TO_WIN_LONG),
    {
        run_goals(world, POINTS_TO_WIN_LONG);
    }
}

/// The paddle pass is reproducible given the same held buttons: there is no
/// hidden nondeterminism.
pub proof fn lemma_paddle_reproducible(
    a: World,
    b1: World,
    b2: World,
    dt: int,
    lu: bool,
    ld: bool,
    ru: bool,
    rd: bool,
)
    requires
        paddle_rel(a, b1, dt, lu, ld, ru, rd),
        paddle_rel(a, b2, dt, lu, ld, ru, rd),
    ensures
        b1.slots() == b2.slots(),
        b1.pending_seq() == b2.pending_seq(),
        b1.freelist() == b2.freelist(),
        b1.render_dirty() == b2.render_dirty(),
{
    assert forall|j: int| 0 <= j < b1.slots().len() implies b1.slots()[j] == b2.slots()[j] by {
        assert(b1.slot_of(j) == paddle_step(a.slot_of(j), dt, lu, ld, ru, rd));
        assert(b2.slot_of(j) == paddle_step(a.slot_of(j), dt, lu, ld, ru, rd));
    }
    assert(b1.slots() =~= b2.slots());
}

/// The ball pass is reproducible, as the paddle pass is.
pub proof fn lemma_ball_reproducible(a: World, b1: World, b2: World, dt: int)
    requires
        ball_rel(a, b1, dt),
        ball_rel(a, b2, dt),
    ensures
        b1.slots() == b2.slots(),
        b1.pending_seq() == b2.pending_seq(),
        b1.freelist() == b2.freelist(),
        b1.render_dirty() == b2.render_dirty(),
{
    assert forall|j: int| 0 <= j < b1.slots().len() implies b1.slots()[j] == b2.slots()[j] by {
        assert(b1.slot_of(j) == ball_step(a.slot_of(j), dt));
        assert(b2.slot_of(j) == ball_step(a.slot_of(j), dt));
    }
    assert(b1.slots() =~= b2.slots());
}

/// The goal pass is reproducible: of the four systems of a play tick only the
/// bounce's deflection draw is random, so re-running a dispatch from
/// identical component state differs at most in that one draw.
pub proof fn lemma_goals_reproducible(a: World, b1: World, b2: World, th: u8)
    requires
        goals_rel(a, b1, th),
        goals_rel(a, b2, th),
    ensures
        b1.slots() == b2.slots(),
        b1.pending_seq() == b2.pending_seq(),
        b1.freelist() == b2.freelist(),
        b1.render_dirty() == b2.render_dirty(),
{
}

} // verus!
