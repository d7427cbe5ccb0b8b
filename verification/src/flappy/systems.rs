//! The flappy game's per-tick systems. Each system's effect on the world is a
//! pure function (or, where randomness enters, a relation) over the component
//! rows, stated pointwise; the scheduler runs them in registration order.

use vstd::prelude::*;

use crate::components::{Pipe, PipeAlignment, Position, Render, Rotation, Score, Size, Velocity};
use crate::types::{spec_clamp_coord, spec_clamp_vel, DeltaTime};
use crate::util::{bump_score, scaled, spec_scaled};
use crate::world::{Entity, EntityBuilder, Slot, World};

verus! {

/// Width of the virtual screen, in thousandths of a pixel.
pub const VIRTUAL_WIDTH: i64 = 512_000;

/// Height of the virtual screen, in thousandths of a pixel.
pub const VIRTUAL_HEIGHT: i64 = 288_000;

/// Leftward speed of the pipes, per second.
pub const PIPE_SPEED: i64 = 60_000;

/// Extent of a pipe.
pub const PIPE_WIDTH: i64 = 70_000;

/// Extent of a pipe.
pub const PIPE_HEIGHT: i64 = 430_000;

/// Extent of the bird.
pub const BIRD_WIDTH: i64 = 38_000;

/// Extent of the bird.
pub const BIRD_HEIGHT: i64 = 24_000;

/// Background scroll speed, per second.
pub const BACKGROUND_SCROLL_SPEED: i64 = 30_000;

/// Ground scroll speed, per second.
pub const GROUND_SCROLL_SPEED: i64 = 60_000;

/// Where the scrolling layers wrap.
pub const BACKGROUND_LOOPING_POINT: i64 = 568_000;

/// Downward acceleration of the bird, per second of delta per tick.
pub const GRAVITY: i64 = 18_000;

/// The bird's upward velocity right after a flap.
pub const JUMP_VELOCITY: i64 = -4_000;

/// Milliseconds between pipe spawns.
pub const SPAWN_INTERVAL: i64 = 2_000;

/// Where a parallax entity wraps to: the scrolled offset, folded into
/// `(-looping_point, 0]`.
pub open spec fn spec_parallax_x(x: int, speed: int, dt: int, lp: int) -> int
    recommends
        lp > 0,
{
    -((speed * dt / 1000 - x) % lp)
}

/// The parallax system's effect on one row: entities carrying a parallax and
/// a position scroll and wrap; everything else is untouched.
pub open spec fn parallax_step(s: Slot, dt: int) -> Slot {
    if s.alive && s.parallax is Some && s.position is Some {
        let par = s.parallax->Some_0;
        let p = s.position->Some_0;
        Slot {
            position: Some(
                Position {
                    x: spec_parallax_x(p.x as int, par.speed as int, dt, par.looping_point as int)
                        as i64,
                    y: p.y,
                    z: p.z,
                },
            ),
            ..s
        }
    } else {
        s
    }
}

/// The parallax system's overall effect: every row passed through its step,
/// bookkeeping untouched.
pub open spec fn parallax_rel(a: World, b: World, dt: int) -> bool {
    &&& b.num_slots() == a.num_slots()
    &&& forall|j: int| 0 <= j < a.num_slots() ==> b.slot_of(j) == parallax_step(a.slot_of(j), dt)
    &&& b.pending_seq() == a.pending_seq()
    &&& b.freelist() == a.freelist()
    &&& b.render_dirty() == a.render_dirty()
}

/// Scrolls every parallax entity leftwards at its own speed, wrapping at its
/// looping point.
pub struct ParallaxSystem;

impl ParallaxSystem {
    pub fn run(&mut self, world: &mut World, dt: DeltaTime)
        requires
            old(world).wf(),
            dt.ok(),
        ensures
            final(world).wf(),
            parallax_rel(*old(world), *final(world), dt.delta as int),
    {
        let n = world.len();
        let mut i: usize = 0;
        while i < n
            invariant
                world.wf(),
                dt.ok(),
                n == world.num_slots(),
                i <= n,
                world.pending_seq() == old(world).pending_seq(),
                world.freelist() == old(world).freelist(),
                world.render_dirty() == old(world).render_dirty(),
                forall|j: int|
                    0 <= j < i ==> #[trigger] world.slot_of(j) == parallax_step(
                        old(world).slot_of(j),
                        dt.delta as int,
                    ),
                forall|j: int| i <= j < n ==> #[trigger] world.slot_of(j) == old(world).slot_of(j),
            decreases n - i,
        {
            proof {
                assert(world.slots()[i as int].slot_ok());
            }
            let ghost prev = *world;
            if world.alive(i) {
                let par_opt = world.get_parallax(i);
                let pos_opt = world.get_position(i);
                if par_opt.is_some() && pos_opt.is_some() {
                    let par = par_opt.unwrap();
                    let p = pos_opt.unwrap();
                    let disp = scaled(par.speed, dt.delta) - p.x;
                    let m = disp.checked_rem_euclid(par.looping_point).unwrap();
                    world.set_position(i, Position { x: -m, y: p.y, z: p.z });
                    proof {
                        assert(forall|j: int|
                            0 <= j < n && j != i as int ==> #[trigger] world.slot_of(j)
                                == prev.slot_of(j));
                        assert(world.slot_of(i as int) == parallax_step(
                            old(world).slot_of(i as int),
                            dt.delta as int,
                        ));
                    }
                }
            }
            proof {
                assert(parallax_step(old(world).slot_of(i as int), dt.delta as int)
                    == world.slot_of(i as int));
            }
            i = i + 1;
        }
    }
}

/// The physics system's effect on one row: entities carrying a position and a
/// velocity integrate it over the frame, clamped into the coordinate band.
pub open spec fn physics_step(s: Slot, dt: int) -> Slot {
    if s.alive && s.position is Some && s.velocity is Some {
        let p = s.position->Some_0;
        let v = s.velocity->Some_0;
        Slot {
            position: Some(
                Position {
                    x: spec_clamp_coord(p.x + spec_scaled(v.x as int, dt)) as i64,
                    y: spec_clamp_coord(p.y + spec_scaled(v.y as int, dt)) as i64,
                    z: p.z,
                },
            ),
            ..s
        }
    } else {
        s
    }
}

/// The physics system's overall effect: every row passed through its step,
/// bookkeeping untouched.
pub open spec fn physics_rel(a: World, b: World, dt: int) -> bool {
    &&& b.num_slots() == a.num_slots()
    &&& forall|j: int| 0 <= j < a.num_slots() ==> b.slot_of(j) == physics_step(a.slot_of(j), dt)
    &&& b.pending_seq() == a.pending_seq()
    &&& b.freelist() == a.freelist()
    &&& b.render_dirty() == a.render_dirty()
}

/// Integrates every moving entity's velocity into its position.
pub struct PhysicsSystem;

impl PhysicsSystem {
    pub fn run(&mut self, world: &mut World, dt: DeltaTime)
        requires
            old(world).wf(),
            dt.ok(),
        ensures
            final(world).wf(),
            physics_rel(*old(world), *final(world), dt.delta as int),
    {
        let n = world.len();
        let mut i: usize = 0;
        while i < n
            invariant
                world.wf(),
                dt.ok(),
                n == world.num_slots(),
                i <= n,
                world.pending_seq() == old(world).pending_seq(),
                world.freelist() == old(world).freelist(),
                world.render_dirty() == old(world).render_dirty(),
                forall|j: int|
                    0 <= j < i ==> #[trigger] world.slot_of(j) == physics_step(
                        old(world).slot_of(j),
                        dt.delta as int,
                    ),
                forall|j: int| i <= j < n ==> #[trigger] world.slot_of(j) == old(world).slot_of(j),
            decreases n - i,
        {
            proof {
                assert(world.slots()[i as int].slot_ok());
            }
            let ghost prev = *world;
            if world.alive(i) {
                let pos_opt = world.get_position(i);
                let vel_opt = world.get_velocity(i);
                if pos_opt.is_some() && vel_opt.is_some() {
                    let p = pos_opt.unwrap();
                    let v = vel_opt.unwrap();
                    let nx = crate::types::clamp_coord(p.x + scaled(v.x, dt.delta));
                    let ny = crate::types::clamp_coord(p.y + scaled(v.y, dt.delta));
                    world.set_position(i, Position { x: nx, y: ny, z: p.z });
                    proof {
                        assert(forall|j: int|
                            0 <= j < n && j != i as int ==> #[trigger] world.slot_of(j)
                                == prev.slot_of(j));
                        assert(world.slot_of(i as int) == physics_step(
                            old(world).slot_of(i as int),
                            dt.delta as int,
                        ));
                    }
                }
            }
            proof {
                assert(physics_step(old(world).slot_of(i as int), dt.delta as int)
                    == world.slot_of(i as int));
            }
            i = i + 1;
        }
    }
}

/// Which loaded image an image component's opaque handle denotes.
#[derive(Clone, Copy, Debug, PartialEq, Eq, Structural)]
pub enum ImageId {
    Background,
    Ground,
    Bird,
    Pipe,
}

impl ImageId {
    /// The opaque handle under which components carry this image.
    pub open spec fn spec_index(self) -> u32 {
        match self {
            ImageId::Background => 0,
            ImageId::Ground => 1,
            ImageId::Bird => 2,
            ImageId::Pipe => 3,
        }
    }

    /// The opaque handle under which components carry this image.
    pub fn index(self) -> (r: u32)
        ensures
            r == self.spec_index(),
    {
        match self {
            ImageId::Background => 0,
            ImageId::Ground => 1,
            ImageId::Bird => 2,
            ImageId::Pipe => 3,
        }
    }
}

/// The player system's effect on one row, where `jump` says whether the flap
/// button went down this frame: gravity pulls the bird, a flap overrides its
/// vertical velocity, and the (undamped) vertical velocity moves it.
pub open spec fn player_step(s: Slot, dt: int, jump: bool) -> Slot {
    if s.alive && s.player is Some && s.position is Some && s.velocity is Some {
        let p = s.position->Some_0;
        let v = s.velocity->Some_0;
        let vy = if jump {
            JUMP_VELOCITY as int
        } else {
            spec_clamp_vel(v.y + spec_scaled(GRAVITY as int, dt))
        };
        Slot {
            velocity: Some(Velocity { x: v.x, y: vy as i64 }),
            position: Some(Position { x: p.x, y: spec_clamp_coord(p.y + vy) as i64, z: p.z }),
            ..s
        }
    } else {
        s
    }
}

/// The player system's overall effect: every row passed through its step,
/// bookkeeping untouched.
pub open spec fn player_rel(a: World, b: World, dt: int, jump: bool) -> bool {
    &&& b.num_slots() == a.num_slots()
    &&& forall|j: int|
        0 <= j < a.num_slots() ==> b.slot_of(j) == player_step(a.slot_of(j), dt, jump)
    &&& b.pending_seq() == a.pending_seq()
    &&& b.freelist() == a.freelist()
    &&& b.render_dirty() == a.render_dirty()
}

/// Applies gravity and the flap impulse to the player-tagged entities.
pub struct PlayerSystem;

impl PlayerSystem {
    /// `jump` is the edge-triggered flap query of this frame's input state.
    pub fn run(&mut self, world: &mut World, dt: DeltaTime, jump: bool)
        requires
            old(world).wf(),
            dt.ok(),
        ensures
            final(world).wf(),
            player_rel(*old(world), *final(world), dt.delta as int, jump),
    {
        let n = world.len();
        let mut i: usize = 0;
        while i < n
            invariant
                world.wf(),
                dt.ok(),
                n == world.num_slots(),
                i <= n,
                world.pending_seq() == old(world).pending_seq(),
                world.freelist() == old(world).freelist(),
                world.render_dirty() == old(world).render_dirty(),
                forall|j: int|
                    0 <= j < i ==> #[trigger] world.slot_of(j) == player_step(
                        old(world).slot_of(j),
                        dt.delta as int,
                        jump,
                    ),
                forall|j: int| i <= j < n ==> #[trigger] world.slot_of(j) == old(world).slot_of(j),
            decreases n - i,
        {
            proof {
                assert(world.slots()[i as int].slot_ok());
            }
            let ghost prev = *world;
            if world.alive(i) && world.get_player(i).is_some() {
                let pos_opt = world.get_position(i);
                let vel_opt = world.get_velocity(i);
                if pos_opt.is_some() && vel_opt.is_some() {
                    let p = pos_opt.unwrap();
                    let v = vel_opt.unwrap();
                    let vy = if jump {
                        JUMP_VELOCITY
                    } else {
                        crate::types::clamp_vel(v.y + scaled(GRAVITY, dt.delta))
                    };
                    world.set_velocity(i, Velocity { x: v.x, y: vy });
                    let ny = crate::types::clamp_coord(p.y + vy);
                    world.set_position(i, Position { x: p.x, y: ny, z: p.z });
                    proof {
                        assert(forall|j: int|
                            0 <= j < n && j != i as int ==> #[trigger] world.slot_of(j)
                                == prev.slot_of(j));
                        assert(world.slot_of(i as int) == player_step(
                            old(world).slot_of(i as int),
                            dt.delta as int,
                            jump,
                        ));
                    }
                }
            }
            proof {
                assert(player_step(old(world).slot_of(i as int), dt.delta as int, jump)
                    == world.slot_of(i as int));
            }
            i = i + 1;
        }
    }
}

/// A row that takes part in collisions and scoring as an obstacle.
pub open spec fn pipe_row(s: Slot) -> bool {
    s.alive && s.pipe is Some && s.position is Some && s.size is Some
}

/// A row that takes part in collisions and scoring as the actor.
pub open spec fn actor_row(s: Slot) -> bool {
    s.alive && s.player is Some && s.position is Some && s.size is Some && s.score is Some
        && s.dead is Some
}

/// The actor has passed the obstacle: the obstacle's right edge lies strictly
/// left of the actor's position.
pub open spec fn passed(q: Slot, r: Slot) -> bool
    recommends
        pipe_row(q),
        actor_row(r),
{
    q.position->Some_0.x + q.size->Some_0.w < r.position->Some_0.x
}

/// How far the actor's hitbox is inset from its box on each side: a forgiving
/// two pixels, in the thousandths-of-a-pixel unit.
pub const HITBOX_INSET: i64 = 2_000;

/// The actor's hitbox (its box, inset on each side) overlaps the obstacle's
/// box.
pub open spec fn hit(q: Slot, r: Slot) -> bool
    recommends
        pipe_row(q),
        actor_row(r),
{
    let qp = q.position->Some_0;
    let qs = q.size->Some_0;
    let rp = r.position->Some_0;
    let rs = r.size->Some_0;
    &&& (rp.x + HITBOX_INSET) + (rs.w - 2 * HITBOX_INSET) >= qp.x
    &&& rp.x + HITBOX_INSET <= qp.x + qs.w
    &&& (rp.y + HITBOX_INSET) + (rs.h - 2 * HITBOX_INSET) >= qp.y
    &&& rp.y + HITBOX_INSET <= qp.y + qs.h
}

/// One obstacle-actor pair of the scoring pass. The score check runs before
/// the collision check on the same pair, so a simultaneous pass-and-collide
/// tick scores before death. Only top pipes score, exactly once each, through
/// the one-shot `scored` flag.
pub open spec fn pair_step(s: Seq<Slot>, p: int, a: int) -> Seq<Slot>
    recommends
        0 <= p < s.len(),
        0 <= a < s.len(),
{
    let q = s[p];
    let r = s[a];
    if p != a && pipe_row(q) && actor_row(r) {
        let score_now = !q.pipe->Some_0.scored && q.pipe->Some_0.side == PipeAlignment::Top
            && passed(q, r);
        let s1 = if score_now {
            s.update(p, Slot { pipe: Some(Pipe { scored: true, side: q.pipe->Some_0.side }), ..q })
                .update(a, Slot { score: Some(Score(bump_score(r.score->Some_0.0))), ..r })
        } else {
            s
        };
        if hit(q, r) {
            let r1 = s1[a];
            s1.update(a, Slot { dead: Some(crate::components::Dead(true)), ..r1 })
        } else {
            s1
        }
    } else {
        s
    }
}

/// Obstacle `p` paired against the first `a` rows as actors, in row order.
pub open spec fn players_pass(s: Seq<Slot>, p: int, a: int) -> Seq<Slot>
    decreases a,
{
    if a <= 0 {
        s
    } else {
        pair_step(players_pass(s, p, a - 1), p, a - 1)
    }
}

/// The first `p` rows as obstacles, each paired against every actor.
pub open spec fn pipes_pass(s: Seq<Slot>, p: int) -> Seq<Slot>
    decreases p,
{
    if p <= 0 {
        s
    } else {
        let prev = pipes_pass(s, p - 1);
        players_pass(prev, p - 1, prev.len() as int)
    }
}

/// The ground check: an actor below the ground line dies.
pub open spec fn ground_step(s: Slot) -> Slot {
    if actor_row(s) && s.position->Some_0.y > VIRTUAL_HEIGHT - 15_000 {
        Slot { dead: Some(crate::components::Dead(true)), ..s }
    } else {
        s
    }
}

/// One pairing leaves the row count alone.
proof fn lemma_pair_len(s: Seq<Slot>, p: int, a: int)
    requires
        0 <= p < s.len(),
        0 <= a < s.len(),
    ensures
        pair_step(s, p, a).len() == s.len(),
{
}

/// The actor pass leaves the row count alone.
proof fn lemma_players_len(s: Seq<Slot>, p: int, a: int)
    requires
        0 <= p < s.len(),
        0 <= a <= s.len(),
    ensures
        players_pass(s, p, a).len() == s.len(),
    decreases a,
{
    if a > 0 {
        lemma_players_len(s, p, a - 1);
    }
}

/// The scoring system's overall effect: the obstacle-actor pass followed by
/// the ground check, with the world's bookkeeping untouched.
pub open spec fn score_rel(a: crate::world::World, b: crate::world::World) -> bool {
    &&& b.num_slots() == a.num_slots()
    &&& b.slots() == pipes_pass(a.slots(), a.num_slots()).map_values(|s: Slot| ground_step(s))
    &&& b.pending_seq() == a.pending_seq()
    &&& b.freelist() == a.freelist()
    &&& b.render_dirty() == a.render_dirty()
}

/// Pairs every obstacle with every actor: passage scores once per obstacle
/// through the one-shot flag, overlap sets the terminal flag, and an actor
/// below the ground line dies.
pub struct ScoreSystem;

impl ScoreSystem {
    pub fn new() -> (r: ScoreSystem)
        ensures
            r == ScoreSystem,
    {
        ScoreSystem
    }

    pub fn run(&mut self, world: &mut World)
        requires
            old(world).wf(),
        ensures
            final(world).wf(),
            score_rel(*old(world), *final(world)),
    {
        let n = world.len();
        let mut p: usize = 0;
        while p < n
            invariant
                world.wf(),
                n == world.num_slots(),
                p <= n,
                world.pending_seq() == old(world).pending_seq(),
                world.freelist() == old(world).freelist(),
                world.render_dirty() == old(world).render_dirty(),
                world.slots() == pipes_pass(old(world).slots(), p as int),
            decreases n - p,
        {
            let ghost outer = world.slots();
            let mut a: usize = 0;
            while a < n
                invariant
                    world.wf(),
                    n == world.num_slots(),
                    p < n,
                    a <= n,
                    world.pending_seq() == old(world).pending_seq(),
                    world.freelist() == old(world).freelist(),
                    world.render_dirty() == old(world).render_dirty(),
                    outer.len() == n,
                    world.slots() == players_pass(outer, p as int, a as int),
                decreases n - a,
            {
                let ghost cur = world.slots();
                proof {
                    lemma_players_len(outer, p as int, a as int);
                }
                if p != a && world.alive(p) && world.alive(a) {
                    let q_pipe = world.get_pipe(p);
                    let q_pos = world.get_position(p);
                    let q_size = world.get_size(p);
                    let r_player = world.get_player(a);
                    let r_pos = world.get_position(a);
                    let r_size = world.get_size(a);
                    let r_score = world.get_score(a);
                    let r_dead = world.get_dead(a);
                    if q_pipe.is_some() && q_pos.is_some() && q_size.is_some()
                        && r_player.is_some() && r_pos.is_some() && r_size.is_some()
                        && r_score.is_some() && r_dead.is_some() {
                        proof {
                            assert(world.slots()[p as int].slot_ok());
                            assert(world.slots()[a as int].slot_ok());
                        }
                        let qq = q_pipe.unwrap();
                        let qp = q_pos.unwrap();
                        let qs = q_size.unwrap();
                        let rp = r_pos.unwrap();
                        let rs = r_size.unwrap();
                        let sc = r_score.unwrap();
                        if !qq.scored && qq.side == PipeAlignment::Top && qp.x + qs.w < rp.x {
                            world.set_pipe(p, Pipe { scored: true, side: qq.side });
                            let ns = if sc.0 < 255 {
                                sc.0 + 1
                            } else {
                                sc.0
                            };
                            world.set_score(a, Score(ns));
                        }
                        if (rp.x + HITBOX_INSET) + (rs.w - 2 * HITBOX_INSET) >= qp.x && rp.x
                            + HITBOX_INSET <= qp.x + qs.w && (rp.y + HITBOX_INSET) + (rs.h - 2
                            * HITBOX_INSET) >= qp.y && rp.y + HITBOX_INSET <= qp.y + qs.h {
                            world.set_dead(a, crate::components::Dead(true));
                        }
                        proof {
                            assert(world.slots() =~= pair_step(cur, p as int, a as int));
                        }
                    }
                }
                proof {
                    assert(world.slots() =~= pair_step(cur, p as int, a as int));
                }
                a = a + 1;
            }
            p = p + 1;
            proof {
                assert(world.slots() == pipes_pass(old(world).slots(), p as int));
            }
        }
        // the ground pass
        let ghost after_pairs = world.slots();
        let mut i: usize = 0;
        while i < n
            invariant
                world.wf(),
                n == world.num_slots(),
                i <= n,
                world.pending_seq() == old(world).pending_seq(),
                world.freelist() == old(world).freelist(),
                world.render_dirty() == old(world).render_dirty(),
                after_pairs.len() == n,
                forall|j: int|
                    0 <= j < i ==> #[trigger] world.slot_of(j) == ground_step(after_pairs[j]),
                forall|j: int| i <= j < n ==> #[trigger] world.slot_of(j) == after_pairs[j],
            decreases n - i,
        {
            let ghost prev = *world;
            if world.alive(i) && world.get_player(i).is_some() {
                let pos_opt = world.get_position(i);
                let size_opt = world.get_size(i);
                let score_opt = world.get_score(i);
                let dead_opt = world.get_dead(i);
                if pos_opt.is_some() && size_opt.is_some() && score_opt.is_some()
                    && dead_opt.is_some() {
                    let pp = pos_opt.unwrap();
                    if pp.y > VIRTUAL_HEIGHT - 15_000 {
                        world.set_dead(i, crate::components::Dead(true));
                        proof {
                            assert(forall|j: int|
                                0 <= j < n && j != i as int ==> #[trigger] world.slot_of(j)
                                    == prev.slot_of(j));
                        }
                    }
                }
            }
            proof {
                assert(world.slot_of(i as int) == ground_step(after_pairs[i as int]));
            }
            i = i + 1;
        }
        proof {
            let mapped = after_pairs.map_values(|s: Slot| ground_step(s));
            assert forall|j: int| 0 <= j < n implies world.slots()[j] == mapped[j] by {
                assert(world.slot_of(j) == ground_step(after_pairs[j]));
            }
            assert(world.slots() =~= mapped);
        }
    }
}

/// The pipe system's movement effect on one row: obstacles scroll left at the
/// pipe speed.
pub open spec fn pipe_move_step(s: Slot, dt: int) -> Slot {
    if s.alive && s.pipe is Some && s.position is Some {
        let p = s.position->Some_0;
        Slot {
            position: Some(
                Position {
                    x: spec_clamp_coord(p.x - spec_scaled(PIPE_SPEED as int, dt)) as i64,
                    y: p.y,
                    z: p.z,
                },
            ),
            ..s
        }
    } else {
        s
    }
}

/// Where a new pipe pair sits: the previous height plus a random offset,
/// clamped into the playable band.
pub open spec fn spec_pipe_y(last_y: int, off: int) -> int {
    let cand = if last_y + off > PIPE_HEIGHT as int / 3 {
        PIPE_HEIGHT as int / 3
    } else {
        last_y + off
    };
    if cand < -PIPE_HEIGHT + 10_000 {
        -PIPE_HEIGHT as int + 10_000
    } else {
        cand
    }
}

/// The upper obstacle of a new pair, drawn upside down.
pub open spec fn top_pipe(py: i64) -> EntityBuilder {
    EntityBuilder {
        pipe: Some(Pipe { scored: false, side: PipeAlignment::Top }),
        render: Some(Render { visible: true }),
        image: Some(crate::components::Image { image: ImageId::Pipe.spec_index() }),
        size: Some(Size { w: PIPE_WIDTH, h: PIPE_HEIGHT }),
        rotation: Some(Rotation { deg: 180_000, x: 1_000, y: 1_000 }),
        position: Some(Position { x: (VIRTUAL_WIDTH + 64_000) as i64, y: py, z: 1 }),
        ..EntityBuilder::spec_new()
    }
}

/// The lower obstacle of a new pair, one gap below the upper one.
pub open spec fn bottom_pipe(py: i64) -> EntityBuilder {
    EntityBuilder {
        pipe: Some(Pipe { scored: false, side: PipeAlignment::Bottom }),
        render: Some(Render { visible: true }),
        image: Some(crate::components::Image { image: ImageId::Pipe.spec_index() }),
        size: Some(Size { w: PIPE_WIDTH, h: PIPE_HEIGHT }),
        position: Some(Position { x: (VIRTUAL_WIDTH + 64_000) as i64, y: (py + PIPE_HEIGHT + 90_000) as i64, z: 1 }),
        ..EntityBuilder::spec_new()
    }
}

/// The pipe system's overall effect: every obstacle scrolls left; when the
/// accumulated time passes the spawn interval, the timer resets and a new
/// pipe pair appears at a randomized, history-correlated, band-clamped
/// height, marking the draw order dirty; otherwise only the timer grows.
pub open spec fn pipe_rel(a: World, b: World, t0: i64, t1: i64, y0: i64, y1: i64, dt: int) -> bool {
    let fired = t0 + dt > SPAWN_INTERVAL;
    &&& t1 == (if fired {
        0
    } else {
        t0 + dt
    })
    &&& b.pending_seq() == a.pending_seq()
    &&& !fired ==> {
        &&& y1 == y0
        &&& b.num_slots() == a.num_slots()
        &&& b.freelist() == a.freelist()
        &&& b.render_dirty() == a.render_dirty()
        &&& forall|j: int|
            0 <= j < a.num_slots() ==> b.slot_of(j) == pipe_move_step(a.slot_of(j), dt)
    }
    &&& fired ==> {
        &&& exists|off: i64| -20_000 <= off < 20_000 && y1 == spec_pipe_y(y0 as int, off as int)
        &&& exists|e1: Entity, e2: Entity|
            {
                &&& b.spec_valid(e1)
                &&& b.spec_valid(e2)
                &&& e1.id != e2.id
                &&& b.slot_of(e1.id as int) == top_pipe(y1).slot_for(e1.gen)
                &&& b.slot_of(e2.id as int) == bottom_pipe(y1).slot_for(e2.gen)
                &&& forall|j: int|
                    0 <= j < a.num_slots() && j != e1.id as int && j != e2.id as int ==> b.slot_of(
                        j,
                    ) == pipe_move_step(a.slot_of(j), dt)
            }
        &&& a.num_slots() <= b.num_slots() <= a.num_slots() + 2
        &&& b.render_dirty()
    }
}

/// Scrolls the obstacles and, on a fixed interval, spawns a new pipe pair at
/// a randomized, history-correlated height bounded to the playable band.
pub struct PipeSystem {
    timer: i64,
    last_y: i64,
}

impl PipeSystem {
    /// The accumulated time since the last spawn, and the height band anchor.
    pub open spec fn wf(self) -> bool {
        0 <= self.timer() <= SPAWN_INTERVAL && -PIPE_HEIGHT <= self.last_y() <= PIPE_HEIGHT
    }

    /// The accumulated time since the last spawn.
    pub closed spec fn timer(self) -> i64 {
        self.timer
    }

    /// The height the last pipe pair was anchored at.
    pub closed spec fn last_y(self) -> i64 {
        self.last_y
    }

    /// A fresh spawner: due immediately, anchored at a random height high in
    /// the band.
    pub fn new() -> (r: PipeSystem)
        ensures
            r.wf(),
            r.timer() == SPAWN_INTERVAL,
            -PIPE_HEIGHT + 20_000 <= r.last_y() < -PIPE_HEIGHT + 100_000,
    {
        let off = crate::rng::random_in_range(0, 80_000);
        PipeSystem { timer: SPAWN_INTERVAL, last_y: -PIPE_HEIGHT + off + 20_000 }
    }

    /// Whether accumulating `dt` more milliseconds makes a spawn due.
    pub open spec fn spawn_due(self, dt: int) -> bool {
        self.timer() + dt > SPAWN_INTERVAL
    }

    pub fn run(&mut self, world: &mut World, dt: DeltaTime)
        requires
            old(self).wf(),
            old(world).wf(),
            dt.ok(),
        ensures
            final(self).wf(),
            final(world).wf(),
            pipe_rel(
                *old(world),
                *final(world),
                old(self).timer(),
                final(self).timer(),
                old(self).last_y(),
                final(self).last_y(),
                dt.delta as int,
            ),
    {
        let n = world.len();
        let mut i: usize = 0;
        while i < n
            invariant
                world.wf(),
                dt.ok(),
                n == world.num_slots(),
                i <= n,
                world.pending_seq() == old(world).pending_seq(),
                world.freelist() == old(world).freelist(),
                world.render_dirty() == old(world).render_dirty(),
                forall|j: int|
                    0 <= j < i ==> #[trigger] world.slot_of(j) == pipe_move_step(
                        old(world).slot_of(j),
                        dt.delta as int,
                    ),
                forall|j: int| i <= j < n ==> #[trigger] world.slot_of(j) == old(world).slot_of(j),
            decreases n - i,
        {
            proof {
                assert(world.slots()[i as int].slot_ok());
            }
            let ghost prev = *world;
            if world.alive(i) && world.get_pipe(i).is_some() {
                let pos_opt = world.get_position(i);
                if pos_opt.is_some() {
                    let p = pos_opt.unwrap();
                    let nx = crate::types::clamp_coord(p.x - scaled(PIPE_SPEED, dt.delta));
                    world.set_position(i, Position { x: nx, y: p.y, z: p.z });
                    proof {
                        assert(forall|j: int|
                            0 <= j < n && j != i as int ==> #[trigger] world.slot_of(j)
                                == prev.slot_of(j));
                        assert(world.slot_of(i as int) == pipe_move_step(
                            old(world).slot_of(i as int),
                            dt.delta as int,
                        ));
                    }
                }
            }
            proof {
                assert(pipe_move_step(old(world).slot_of(i as int), dt.delta as int)
                    == world.slot_of(i as int));
            }
            i = i + 1;
        }
        if self.timer > SPAWN_INTERVAL - dt.delta {
            let off = crate::rng::random_in_range(-20_000, 20_000);
            let cand = if self.last_y + off > PIPE_HEIGHT / 3 {
                PIPE_HEIGHT / 3
            } else {
                self.last_y + off
            };
            let py = if cand < -PIPE_HEIGHT + 10_000 {
                -PIPE_HEIGHT + 10_000
            } else {
                cand
            };
            proof {
                assert(py as int == spec_pipe_y(old(self).last_y() as int, off as int));
            }
            let ghost moved = *world;
            let e1 = world.create_entity(EntityBuilder {
                pipe: Some(Pipe { scored: false, side: PipeAlignment::Top }),
                render: Some(Render { visible: true }),
                image: Some(crate::components::Image { image: ImageId::Pipe.index() }),
                size: Some(Size { w: PIPE_WIDTH, h: PIPE_HEIGHT }),
                rotation: Some(Rotation { deg: 180_000, x: 1_000, y: 1_000 }),
                position: Some(Position { x: VIRTUAL_WIDTH + 64_000, y: py, z: 1 }),
                velocity: None,
                text: None,
                parallax: None,
                player: None,
                score: None,
                dead: None,
                paddle: None,
                ball: None,
                scored: None,
                won: None,
                serving: None,
            });
            let e2 = world.create_entity(EntityBuilder {
                pipe: Some(Pipe { scored: false, side: PipeAlignment::Bottom }),
                render: Some(Render { visible: true }),
                image: Some(crate::components::Image { image: ImageId::Pipe.index() }),
                size: Some(Size { w: PIPE_WIDTH, h: PIPE_HEIGHT }),
                rotation: None,
                position: Some(Position { x: VIRTUAL_WIDTH + 64_000, y: py + PIPE_HEIGHT + 90_000, z: 1 }),
                velocity: None,
                text: None,
                parallax: None,
                player: None,
                score: None,
                dead: None,
                paddle: None,
                ball: None,
                scored: None,
                won: None,
                serving: None,
            });
            self.last_y = py;
            self.timer = 0;
            proof {
                assert(world.slot_of(e1.id as int) == top_pipe(py).slot_for(e1.gen));
                assert(world.slot_of(e2.id as int) == bottom_pipe(py).slot_for(e2.gen));
                assert(moved.spec_valid(e1) ==> false);
                assert(e1.id != e2.id);
                assert(world.spec_valid(e1));
            }
        } else {
            self.timer = self.timer + dt.delta;
        }
    }
}

/// The spawner's timer after `k` ticks of fixed delta `dt`, starting right
/// after a spawn: it accumulates, and resets on the tick that takes it past
/// the interval.
pub open spec fn spawner_timer(k: int, dt: int) -> int
    decreases k,
{
    if k <= 0 {
        0
    } else {
        let t = spawner_timer(k - 1, dt);
        if t + dt > SPAWN_INTERVAL {
            0
        } else {
            t + dt
        }
    }
}

/// The spawner fires on tick `k` (counting from one after a spawn).
pub open spec fn spawner_fires(k: int, dt: int) -> bool {
    spawner_timer(k - 1, dt) + dt > SPAWN_INTERVAL
}

/// While the accumulated time stays within the interval, the spawner is
/// quiet and its timer is exactly the accumulated time.
pub proof fn lemma_spawner_quiet(dt: int, k: int)
    requires
        0 < dt,
        0 <= k,
        k * dt <= SPAWN_INTERVAL,
    ensures
        spawner_timer(k, dt) == k * dt,
        forall|j: int| 1 <= j <= k ==> !spawner_fires(j, dt),
    decreases k,
{
    if k == 0 {
        assert(k * dt == 0) by (nonlinear_arith)
            requires
                k == 0,
        ;
    } else {
        assert((k - 1) * dt == k * dt - dt) by (nonlinear_arith);
        lemma_spawner_quiet(dt, k - 1);
        assert forall|j: int| 1 <= j <= k implies !spawner_fires(j, dt) by {
            if j == k {
                assert(spawner_timer(k - 1, dt) == (k - 1) * dt);
            }
        }
    }
}

/// With a fixed delta `dt`, spawning recurs every `SPAWN_INTERVAL` time units
/// rounded up to the next tick — within one tick of the interval, and never
/// more than once per interval: the first tick `n` whose accumulated time
/// `n * dt` passes the interval fires, no earlier tick does, the elapsed time
/// `n * dt` overshoots the interval by less than one delta, and the timer
/// then starts over.
pub proof fn lemma_spawner_period(dt: int, n: int)
    requires
        0 < dt,
        1 <= n,
        (n - 1) * dt <= SPAWN_INTERVAL,
        n * dt > SPAWN_INTERVAL,
    ensures
        spawner_fires(n, dt),
        forall|j: int| 1 <= j < n ==> !spawner_fires(j, dt),
        n * dt <= SPAWN_INTERVAL + dt,
        spawner_timer(n, dt) == 0,
{
    lemma_spawner_quiet(dt, n - 1);
    assert((n - 1) * dt == n * dt - dt) by (nonlinear_arith);
    assert(spawner_timer(n - 1, dt) + dt == n * dt);
}

/// The parallax pass is reproducible: any two worlds it may produce from one
/// component state agree observably — there is no hidden nondeterminism.
pub proof fn lemma_parallax_reproducible(a: World, b1: World, b2: World, dt: int)
    requires
        parallax_rel(a, b1, dt),
        parallax_rel(a, b2, dt),
    ensures
        b1.slots() == b2.slots(),
        b1.pending_seq() == b2.pending_seq(),
        b1.freelist() == b2.freelist(),
        b1.render_dirty() == b2.render_dirty(),
{
    assert forall|j: int| 0 <= j < b1.slots().len() implies b1.slots()[j] == b2.slots()[j] by {
        assert(b1.slot_of(j) == parallax_step(a.slot_of(j), dt));
        assert(b2.slot_of(j) == parallax_step(a.slot_of(j), dt));
    }
    assert(b1.slots() =~= b2.slots());
}

/// The physics pass is reproducible, as the parallax pass is.
pub proof fn lemma_physics_reproducible(a: World, b1: World, b2: World, dt: int)
    requires
        physics_rel(a, b1, dt),
        physics_rel(a, b2, dt),
    ensures
        b1.slots() == b2.slots(),
        b1.pending_seq() == b2.pending_seq(),
        b1.freelist() == b2.freelist(),
        b1.render_dirty() == b2.render_dirty(),
{
    assert forall|j: int| 0 <= j < b1.slots().len() implies b1.slots()[j] == b2.slots()[j] by {
        assert(b1.slot_of(j) == physics_step(a.slot_of(j), dt));
        assert(b2.slot_of(j) == physics_step(a.slot_of(j), dt));
    }
    assert(b1.slots() =~= b2.slots());
}

/// The player pass is reproducible given the same flap edge.
pub proof fn lemma_player_reproducible(a: World, b1: World, b2: World, dt: int, jump: bool)
    requires
        player_rel(a, b1, dt, jump),
        player_rel(a, b2, dt, jump),
    ensures
        b1.slots() == b2.slots(),
        b1.pending_seq() == b2.pending_seq(),
        b1.freelist() == b2.freelist(),
        b1.render_dirty() == b2.render_dirty(),
{
    assert forall|j: int| 0 <= j < b1.slots().len() implies b1.slots()[j] == b2.slots()[j] by {
        assert(b1.slot_of(j) == player_step(a.slot_of(j), dt, jump));
        assert(b2.slot_of(j) == player_step(a.slot_of(j), dt, jump));
    }
    assert(b1.slots() =~= b2.slots());
}

/// The scoring pass is reproducible: of the four systems of a play tick only
/// the pipe spawner's height draw is random, so re-running a dispatch from
/// identical component and spawner state differs at most in that one draw.
pub proof fn lemma_score_reproducible(a: World, b1: World, b2: World)
    requires
        score_rel(a, b1),
        score_rel(a, b2),
    ensures
        b1.slots() == b2.slots(),
        b1.pending_seq() == b2.pending_seq(),
        b1.freelist() == b2.freelist(),
        b1.render_dirty() == b2.render_dirty(),
{
}

} // verus!
