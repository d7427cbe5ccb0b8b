//! The entity world: sparse component rows keyed by entity id, with
//! generation counters to detect stale handles, and deferred deletion.
//!
//! Deletion is requested during a frame and applied atomically by `commit`,
//! never mid-frame, so all systems of a tick observe one consistent snapshot;
//! reading a component of a just-deleted-but-not-yet-committed entity still
//! returns its value. `commit` clears the deleted rows, recycles their ids and
//! bumps their generation, so stale `Entity` handles never validate again.

use vstd::prelude::*;

use crate::components::{
    Dead, Image, Parallax, Pipe, Player, Position, Render, Rotation, Score, Size, Text, Velocity,
};
use crate::pong::components::{Ball, Player as Paddle, Scored, Serving, Won};
use crate::types::{coord_ok, vel_ok, POS_LIMIT, VEL_LIMIT};

verus! {

/// An opaque entity handle: an id plus the generation it was created under.
#[derive(Clone, Copy, Debug, Hash, PartialEq, Eq, Structural)]
pub struct Entity {
    pub id: usize,
    pub gen: u64,
}

/// One row of the world: every component an entity may carry, each sparse.
#[derive(Clone, Debug)]
pub struct Slot {
    pub gen: u64,
    pub alive: bool,
    pub position: Option<Position>,
    pub velocity: Option<Velocity>,
    pub size: Option<Size>,
    pub rotation: Option<Rotation>,
    pub render: Option<Render>,
    pub image: Option<Image>,
    pub text: Option<Text>,
    pub parallax: Option<Parallax>,
    pub player: Option<Player>,
    pub pipe: Option<Pipe>,
    pub score: Option<Score>,
    pub dead: Option<Dead>,
    pub paddle: Option<Paddle>,
    pub ball: Option<Ball>,
    pub scored: Option<Scored>,
    pub won: Option<Won>,
    pub serving: Option<Serving>,
}

impl Slot {
    /// A dead row of generation `gen` carrying nothing.
    pub open spec fn spec_vacant(gen: u64) -> Slot {
        Slot {
            gen,
            alive: false,
            position: None,
            velocity: None,
            size: None,
            rotation: None,
            render: None,
            image: None,
            text: None,
            parallax: None,
            player: None,
            pipe: None,
            score: None,
            dead: None,
            paddle: None,
            ball: None,
            scored: None,
            won: None,
            serving: None,
        }
    }

    /// The row after its entity's deletion is committed: dead, emptied, one
    /// generation further (the counter saturates rather than wrap).
    pub open spec fn cleared(self) -> Slot {
        Slot::spec_vacant(if self.gen < u64::MAX { (self.gen + 1) as u64 } else { self.gen })
    }

    /// Bounds on the stored numeric payloads, so one tick of integer
    /// arithmetic over them cannot overflow.
    pub open spec fn slot_ok(self) -> bool {
        &&& match self.position {
            Some(p) => coord_ok(p.x as int) && coord_ok(p.y as int),
            None => true,
        }
        &&& match self.velocity {
            Some(v) => vel_ok(v.x as int) && vel_ok(v.y as int),
            None => true,
        }
        &&& match self.size {
            Some(s) => 0 <= s.w <= POS_LIMIT && 0 <= s.h <= POS_LIMIT,
            None => true,
        }
        &&& match self.parallax {
            Some(p) => 0 <= p.speed <= VEL_LIMIT && 0 < p.looping_point <= POS_LIMIT,
            None => true,
        }
    }
}

fn vacant_slot(gen: u64) -> (r: Slot)
    ensures
        r == Slot::spec_vacant(gen),
{
    Slot {
        gen,
        alive: false,
        position: None,
        velocity: None,
        size: None,
        rotation: None,
        render: None,
        image: None,
        text: None,
        parallax: None,
        player: None,
        pipe: None,
        score: None,
        dead: None,
        paddle: None,
        ball: None,
        scored: None,
        won: None,
        serving: None,
    }
}

/// Components to attach to a new entity; finalize with `World::create_entity`.
#[derive(Clone, Debug)]
pub struct EntityBuilder {
    pub position: Option<Position>,
    pub velocity: Option<Velocity>,
    pub size: Option<Size>,
    pub rotation: Option<Rotation>,
    pub render: Option<Render>,
    pub image: Option<Image>,
    pub text: Option<Text>,
    pub parallax: Option<Parallax>,
    pub player: Option<Player>,
    pub pipe: Option<Pipe>,
    pub score: Option<Score>,
    pub dead: Option<Dead>,
    pub paddle: Option<Paddle>,
    pub ball: Option<Ball>,
    pub scored: Option<Scored>,
    pub won: Option<Won>,
    pub serving: Option<Serving>,
}

impl EntityBuilder {
    /// The live row a builder produces under generation `gen`.
    pub open spec fn slot_for(self, gen: u64) -> Slot {
        Slot {
            gen,
            alive: true,
            position: self.position,
            velocity: self.velocity,
            size: self.size,
            rotation: self.rotation,
            render: self.render,
            image: self.image,
            text: self.text,
            parallax: self.parallax,
            player: self.player,
            pipe: self.pipe,
            score: self.score,
            dead: self.dead,
            paddle: self.paddle,
            ball: self.ball,
            scored: self.scored,
            won: self.won,
            serving: self.serving,
        }
    }

    /// The numeric payloads respect the world's bounds.
    pub open spec fn builder_ok(self) -> bool {
        self.slot_for(0).slot_ok()
    }

    pub fn new() -> (r: EntityBuilder)
        ensures
            r == EntityBuilder::spec_new(),
    {
        EntityBuilder {
            position: None,
            velocity: None,
            size: None,
            rotation: None,
            render: None,
            image: None,
            text: None,
            parallax: None,
            player: None,
            pipe: None,
            score: None,
            dead: None,
            paddle: None,
            ball: None,
            scored: None,
            won: None,
            serving: None,
        }
    }

    /// The builder carrying nothing.
    pub open spec fn spec_new() -> EntityBuilder {
        EntityBuilder {
            position: None,
            velocity: None,
            size: None,
            rotation: None,
            render: None,
            image: None,
            text: None,
            parallax: None,
            player: None,
            pipe: None,
            score: None,
            dead: None,
            paddle: None,
            ball: None,
            scored: None,
            won: None,
            serving: None,
        }
    }

    pub fn with_position(self, c: Position) -> (r: EntityBuilder)
        ensures
            r == (EntityBuilder { position: Some(c), ..self }),
    {
        EntityBuilder { position: Some(c), ..self }
    }

    pub fn with_velocity(self, c: Velocity) -> (r: EntityBuilder)
        ensures
            r == (EntityBuilder { velocity: Some(c), ..self }),
    {
        EntityBuilder { velocity: Some(c), ..self }
    }

    pub fn with_size(self, c: Size) -> (r: EntityBuilder)
        ensures
            r == (EntityBuilder { size: Some(c), ..self }),
    {
        EntityBuilder { size: Some(c), ..self }
    }

    pub fn with_rotation(self, c: Rotation) -> (r: EntityBuilder)
        ensures
            r == (EntityBuilder { rotation: Some(c), ..self }),
    {
        EntityBuilder { rotation: Some(c), ..self }
    }

    pub fn with_render(self, c: Render) -> (r: EntityBuilder)
        ensures
            r == (EntityBuilder { render: Some(c), ..self }),
    {
        EntityBuilder { render: Some(c), ..self }
    }

    pub fn with_image(self, c: Image) -> (r: EntityBuilder)
        ensures
            r == (EntityBuilder { image: Some(c), ..self }),
    {
        EntityBuilder { image: Some(c), ..self }
    }

    pub fn with_text(self, c: Text) -> (r: EntityBuilder)
        ensures
            r == (EntityBuilder { text: Some(c), ..self }),
    {
        EntityBuilder { text: Some(c), ..self }
    }

    pub fn with_parallax(self, c: Parallax) -> (r: EntityBuilder)
        ensures
            r == (EntityBuilder { parallax: Some(c), ..self }),
    {
        EntityBuilder { parallax: Some(c), ..self }
    }

    pub fn with_player(self, c: Player) -> (r: EntityBuilder)
        ensures
            r == (EntityBuilder { player: Some(c), ..self }),
    {
        EntityBuilder { player: Some(c), ..self }
    }

    pub fn with_pipe(self, c: Pipe) -> (r: EntityBuilder)
        ensures
            r == (EntityBuilder { pipe: Some(c), ..self }),
    {
        EntityBuilder { pipe: Some(c), ..self }
    }

    pub fn with_score(self, c: Score) -> (r: EntityBuilder)
        ensures
            r == (EntityBuilder { score: Some(c), ..self }),
    {
        EntityBuilder { score: Some(c), ..self }
    }

    pub fn with_dead(self, c: Dead) -> (r: EntityBuilder)
        ensures
            r == (EntityBuilder { dead: Some(c), ..self }),
    {
        EntityBuilder { dead: Some(c), ..self }
    }

    pub fn with_paddle(self, c: Paddle) -> (r: EntityBuilder)
        ensures
            r == (EntityBuilder { paddle: Some(c), ..self }),
    {
        EntityBuilder { paddle: Some(c), ..self }
    }

    pub fn with_ball(self, c: Ball) -> (r: EntityBuilder)
        ensures
            r == (EntityBuilder { ball: Some(c), ..self }),
    {
        EntityBuilder { ball: Some(c), ..self }
    }

    pub fn with_scored(self, c: Scored) -> (r: EntityBuilder)
        ensures
            r == (EntityBuilder { scored: Some(c), ..self }),
    {
        EntityBuilder { scored: Some(c), ..self }
    }

    pub fn with_won(self, c: Won) -> (r: EntityBuilder)
        ensures
            r == (EntityBuilder { won: Some(c), ..self }),
    {
        EntityBuilder { won: Some(c), ..self }
    }

    pub fn with_serving(self, c: Serving) -> (r: EntityBuilder)
        ensures
            r == (EntityBuilder { serving: Some(c), ..self }),
    {
        EntityBuilder { serving: Some(c), ..self }
    }
}

/// `b` is `a` with its deletion requests applied: each requested row is
/// cleared, everything else is untouched, the request buffer is empty, and
/// the draw order is marked dirty if anything was deleted.
pub open spec fn commit_rel(a: World, b: World) -> bool {
    &&& b.num_slots() == a.num_slots()
    &&& forall|j: int|
        0 <= j < a.num_slots() ==> b.slot_of(j) == (if a.is_pending(j) {
            a.slot_of(j).cleared()
        } else {
            a.slot_of(j)
        })
    &&& b.pending_seq().len() == 0
    &&& b.freelist() == a.freelist() + a.pending_seq()
    &&& b.render_dirty() == (a.render_dirty() || a.pending_seq().len() > 0)
}

/// `b` is `a` with every component row passed through `f`, with the same
/// deletion requests, recycled ids and draw-order mark: the shape of a
/// pointwise per-tick system.
pub open spec fn maps_slots(a: World, b: World, f: spec_fn(Slot) -> Slot) -> bool {
    &&& b.num_slots() == a.num_slots()
    &&& forall|j: int| 0 <= j < a.num_slots() ==> b.slot_of(j) == f(a.slot_of(j))
    &&& b.pending_seq() == a.pending_seq()
    &&& b.freelist() == a.freelist()
    &&& b.render_dirty() == a.render_dirty()
}

/// The entity world: component rows, pending deletions, recycled ids, and the
/// dirty flag of the cached draw order.
pub struct World {
    rows: Vec<Slot>,
    pending: Vec<usize>,
    free: Vec<usize>,
    render_dirty: bool,
}

impl World {
    /// The component rows, one per entity id ever allocated.
    pub closed spec fn slots(self) -> Seq<Slot> {
        self.rows@
    }

    /// Deletion requests buffered since the last commit.
    pub closed spec fn pending_seq(self) -> Seq<usize> {
        self.pending@
    }

    /// Dead ids available for recycling.
    pub closed spec fn freelist(self) -> Seq<usize> {
        self.free@
    }

    /// Whether the cached draw order must be rebuilt.
    pub closed spec fn render_dirty(self) -> bool {
        self.render_dirty
    }

    pub open spec fn num_slots(self) -> int {
        self.slots().len() as int
    }

    /// Row `i`, total: out-of-range ids read as a vacant row.
    pub open spec fn slot_of(self, i: int) -> Slot {
        if 0 <= i < self.num_slots() {
            self.slots()[i]
        } else {
            Slot::spec_vacant(0)
        }
    }

    /// Deletion of id `i` has been requested and not yet committed.
    pub open spec fn is_pending(self, i: int) -> bool {
        exists|k: int| 0 <= k < self.pending_seq().len() && self.pending_seq()[k] as int == i
    }

    /// The handle denotes a live entity of the current generation.
    pub open spec fn spec_valid(self, e: Entity) -> bool {
        &&& (e.id as int) < self.num_slots()
        &&& self.slot_of(e.id as int).gen == e.gen
        &&& self.slot_of(e.id as int).alive
    }

    /// The world's invariant: deletion requests name distinct live ids, the
    /// free list names distinct dead ids, and every row respects the numeric
    /// bounds.
    pub open spec fn wf(self) -> bool {
        &&& forall|k: int|
            0 <= k < self.pending_seq().len() ==> (self.pending_seq()[k] as int)
                < self.num_slots() && self.slot_of(self.pending_seq()[k] as int).alive
        &&& forall|k1: int, k2: int|
            0 <= k1 < k2 < self.pending_seq().len() ==> self.pending_seq()[k1]
                != self.pending_seq()[k2]
        &&& forall|k: int|
            0 <= k < self.freelist().len() ==> (self.freelist()[k] as int) < self.num_slots()
                && !self.slot_of(self.freelist()[k] as int).alive
        &&& forall|k1: int, k2: int|
            0 <= k1 < k2 < self.freelist().len() ==> self.freelist()[k1] != self.freelist()[k2]
        &&& forall|i: int| 0 <= i < self.num_slots() ==> (#[trigger] self.slots()[i]).slot_ok()
    }

    pub fn new() -> (w: World)
        ensures
            w.wf(),
            w.num_slots() == 0,
            w.pending_seq().len() == 0,
            w.freelist().len() == 0,
            !w.render_dirty(),
    {
        World { rows: Vec::new(), pending: Vec::new(), free: Vec::new(), render_dirty: false }
    }

    /// How many entity ids have ever been allocated (live or dead).
    pub fn len(&self) -> (n: usize)
        ensures
            n as int == self.num_slots(),
    {
        self.rows.len()
    }

    /// Whether id `i` currently denotes a live entity.
    pub fn alive(&self, i: usize) -> (r: bool)
        ensures
            r == self.slot_of(i as int).alive,
    {
        if i < self.rows.len() {
            self.rows[i].alive
        } else {
            false
        }
    }

    /// The handle for id `i`, if it is live.
    pub fn entity_at(&self, i: usize) -> (r: Option<Entity>)
        ensures
            r == if self.slot_of(i as int).alive {
                Some(Entity { id: i, gen: self.slot_of(i as int).gen })
            } else {
                None::<Entity>
            },
            r is Some ==> self.spec_valid(r->Some_0),
    {
        if i < self.rows.len() && self.rows[i].alive {
            Some(Entity { id: i, gen: self.rows[i].gen })
        } else {
            None
        }
    }

    /// Whether the handle still denotes a live entity.
    pub fn valid(&self, e: Entity) -> (r: bool)
        ensures
            r == self.spec_valid(e),
    {
        e.id < self.rows.len() && self.rows[e.id].gen == e.gen && self.rows[e.id].alive
    }

    /// Finalizes a builder into a new live entity, recycling a dead id if one
    /// exists, else allocating a fresh one.
    pub fn create_entity(&mut self, b: EntityBuilder) -> (e: Entity)
        requires
            old(self).wf(),
            b.builder_ok(),
        ensures
            final(self).wf(),
            final(self).spec_valid(e),
            e.gen == (if (e.id as int) < old(self).num_slots() {
                old(self).slot_of(e.id as int).gen
            } else {
                0
            }),
            final(self).slot_of(e.id as int) == b.slot_for(e.gen),
            (e.id as int) < old(self).num_slots() ==> !old(self).slot_of(e.id as int).alive
                && final(self).num_slots() == old(self).num_slots(),
            (e.id as int) >= old(self).num_slots() ==> e.id as int == old(self).num_slots()
                && final(self).num_slots() == old(self).num_slots() + 1,
            forall|j: int|
                0 <= j < old(self).num_slots() && j != e.id as int ==> final(self).slot_of(j)
                    == old(self).slot_of(j),
            final(self).pending_seq() == old(self).pending_seq(),
            final(self).render_dirty() == (old(self).render_dirty() || b.render is Some),
            forall|x: Entity| old(self).spec_valid(x) ==> final(self).spec_valid(x),
    {
        if b.render.is_some() {
            self.render_dirty = true;
        }
        let maybe_id = self.free.pop();
        match maybe_id {
            Some(id) => {
                let gen = self.rows[id].gen;
                let mut s = Slot {
                    gen,
                    alive: true,
                    position: b.position,
                    velocity: b.velocity,
                    size: b.size,
                    rotation: b.rotation,
                    render: b.render,
                    image: b.image,
                    text: b.text,
                    parallax: b.parallax,
                    player: b.player,
                    pipe: b.pipe,
                    score: b.score,
                    dead: b.dead,
                    paddle: b.paddle,
                    ball: b.ball,
                    scored: b.scored,
                    won: b.won,
                    serving: b.serving,
                };
                self.rows.set_and_swap(id, &mut s);
                Entity { id, gen }
            },
            None => {
                let id = self.rows.len();
                self.rows.push(Slot {
                    gen: 0,
                    alive: true,
                    position: b.position,
                    velocity: b.velocity,
                    size: b.size,
                    rotation: b.rotation,
                    render: b.render,
                    image: b.image,
                    text: b.text,
                    parallax: b.parallax,
                    player: b.player,
                    pipe: b.pipe,
                    score: b.score,
                    dead: b.dead,
                    paddle: b.paddle,
                    ball: b.ball,
                    scored: b.scored,
                    won: b.won,
                    serving: b.serving,
                });
                Entity { id, gen: 0 }
            },
        }
    }

    fn pending_contains(&self, id: usize) -> (r: bool)
        ensures
            r == self.is_pending(id as int),
    {
        let n = self.pending.len();
        let mut k: usize = 0;
        while k < n
            invariant
                n == self.pending_seq().len(),
                k <= n,
                forall|j: int| 0 <= j < k ==> self.pending_seq()[j] != id,
            decreases n - k,
        {
            if self.pending[k] == id {
                return true;
            }
            k = k + 1;
        }
        false
    }

    /// Requests deletion of the entity behind the handle. Invalid (stale or
    /// never-live) handles are ignored, and requesting the same id twice
    /// before a commit changes nothing: deletion is idempotent within a tick.
    pub fn delete(&mut self, e: Entity)
        requires
            old(self).wf(),
        ensures
            final(self).wf(),
            old(self).spec_valid(e) && !old(self).is_pending(e.id as int) ==> final(self).pending_seq() == old(self).pending_seq().push(e.id),
            !(old(self).spec_valid(e) && !old(self).is_pending(e.id as int)) ==> *final(self)
                == *old(self),
            final(self).slots() == old(self).slots(),
            final(self).freelist() == old(self).freelist(),
            final(self).render_dirty() == old(self).render_dirty(),
            forall|j: int|
                final(self).is_pending(j) == (old(self).is_pending(j) || (j == e.id as int && old(self).spec_valid(e))),
    {
        if !self.valid(e) {
            return ;
        }
        if self.pending_contains(e.id) {
            return ;
        }
        self.pending.push(e.id);
        proof {
            assert forall|j: int|
                self.is_pending(j) == (old(self).is_pending(j) || j == e.id as int) by {
                if old(self).is_pending(j) {
                    let k = choose|k: int|
                        0 <= k < old(self).pending_seq().len() && old(self).pending_seq()[k] as int
                            == j;
                    assert(self.pending_seq()[k] as int == j);
                }
                if j == e.id as int {
                    assert(self.pending_seq()[self.pending_seq().len() - 1] as int == j);
                }
                if self.is_pending(j) {
                    let k = choose|k: int|
                        0 <= k < self.pending_seq().len() && self.pending_seq()[k] as int == j;
                    if k < old(self).pending_seq().len() {
                        assert(old(self).pending_seq()[k] as int == j);
                    }
                }
            }
        }
    }

    /// Requests deletion of every entity in the list; invalid handles are
    /// ignored.
    pub fn delete_all(&mut self, es: &Vec<Entity>)
        requires
            old(self).wf(),
        ensures
            final(self).wf(),
            final(self).slots() == old(self).slots(),
            final(self).freelist() == old(self).freelist(),
            final(self).render_dirty() == old(self).render_dirty(),
            forall|j: int|
                final(self).is_pending(j) == (old(self).is_pending(j) || exists|k: int|
                    0 <= k < es@.len() && (#[trigger] es@[k]).id as int == j && old(self).spec_valid(es@[k])),
    {
        let n = es.len();
        let mut k: usize = 0;
        while k < n
            invariant
                self.wf(),
                n == es@.len(),
                k <= n,
                self.slots() == old(self).slots(),
                self.freelist() == old(self).freelist(),
                self.render_dirty() == old(self).render_dirty(),
                forall|j: int|
                    self.is_pending(j) == (old(self).is_pending(j) || exists|m: int|
                        0 <= m < k && (#[trigger] es@[m]).id as int == j && old(self).spec_valid(
                            es@[m],
                        )),
            decreases n - k,
        {
            self.delete(es[k]);
            k = k + 1;
        }
    }

    /// Applies all pending deletions at once: each requested row is emptied,
    /// marked dead, its generation bumped and its id recycled. Call exactly
    /// once per simulation tick, after all systems have run and before
    /// drawing.
    pub fn commit(&mut self)
        requires
            old(self).wf(),
        ensures
            final(self).wf(),
            commit_rel(*old(self), *final(self)),
    {
        if self.pending.len() > 0 {
            self.render_dirty = true;
        }
        let mut work: Vec<usize> = Vec::new();
        core::mem::swap(&mut work, &mut self.pending);
        let n = work.len();
        let mut k: usize = 0;
        while k < n
            invariant
                old(self).wf(),
                n == work@.len(),
                k <= n,
                work@ == old(self).pending_seq(),
                self.pending_seq().len() == 0,
                self.num_slots() == old(self).num_slots(),
                self.render_dirty() == (old(self).render_dirty() || old(
                    self,
                ).pending_seq().len() > 0),
                self.freelist() == old(self).freelist() + work@.take(k as int),
                forall|j: int|
                    0 <= j < old(self).num_slots() ==> #[trigger] self.slot_of(j) == (if (exists|
                        m: int,
                    |
                        0 <= m < k && work@[m] as int == j) {
                        old(self).slot_of(j).cleared()
                    } else {
                        old(self).slot_of(j)
                    }),
            decreases n - k,
        {
            let ghost prev = *self;
            let p = work[k];
            proof {
                assert forall|m: int| 0 <= m < k implies work@[m] != work@[k as int] by {}
                assert(!(exists|m: int| 0 <= m < k && work@[m] as int == p as int));
                assert(self.slot_of(p as int) == old(self).slot_of(p as int));
                assert(old(self).slot_of(p as int).alive);
            }
            let gen = self.rows[p].gen;
            let next_gen = if gen < u64::MAX {
                gen + 1
            } else {
                gen
            };
            let mut s = vacant_slot(next_gen);
            self.rows.set_and_swap(p, &mut s);
            self.free.push(p);
            proof {
                assert(self.slot_of(p as int) == old(self).slot_of(p as int).cleared());
                assert(work@.take(k + 1 as int) =~= work@.take(k as int).push(work@[k as int]));
                assert(self.freelist() =~= old(self).freelist() + work@.take(k + 1 as int));
                assert forall|j: int| 0 <= j < old(self).num_slots() implies #[trigger] self.slot_of(
                    j,
                ) == (if (exists|m: int| 0 <= m < k + 1 && work@[m] as int == j) {
                    old(self).slot_of(j).cleared()
                } else {
                    old(self).slot_of(j)
                }) by {
                    if j == p as int {
                        assert(work@[k as int] as int == j);
                    } else {
                        assert(self.slot_of(j) == prev.slot_of(j));
                        if exists|m: int| 0 <= m < k + 1 && work@[m] as int == j {
                            let m = choose|m: int| 0 <= m < k + 1 && work@[m] as int == j;
                            assert(m != k);
                            assert(0 <= m < k && work@[m] as int == j);
                        }
                    }
                }
            }
            k = k + 1;
        }
        proof {
            assert(work@.take(n as int) =~= work@);
            assert forall|j: int| 0 <= j < old(self).num_slots() implies self.slot_of(j) == (if old(
                self,
            ).is_pending(j) {
                old(self).slot_of(j).cleared()
            } else {
                old(self).slot_of(j)
            }) by {
                assert(self.slot_of(j) == (if (exists|m: int| 0 <= m < n && work@[m] as int == j) {
                    old(self).slot_of(j).cleared()
                } else {
                    old(self).slot_of(j)
                }));
            }
            assert forall|k1: int, k2: int|
                0 <= k1 < k2 < self.freelist().len() implies self.freelist()[k1]
                != self.freelist()[k2] by {
                let a = old(self).freelist().len() as int;
                if k1 < a && k2 >= a {
                    assert(!old(self).slot_of(old(self).freelist()[k1] as int).alive);
                    assert(old(self).slot_of(old(self).pending_seq()[k2 - a] as int).alive);
                }
            }
            assert forall|k1: int|
                0 <= k1 < self.freelist().len() implies (self.freelist()[k1] as int)
                < self.num_slots() && !self.slot_of(self.freelist()[k1] as int).alive by {
                let a = old(self).freelist().len() as int;
                let f = self.freelist()[k1] as int;
                if k1 < a {
                    assert(!old(self).slot_of(f).alive);
                    assert(!old(self).is_pending(f));
                    assert(self.slot_of(f) == old(self).slot_of(f));
                } else {
                    assert(old(self).pending_seq()[k1 - a] as int == f);
                    assert(old(self).is_pending(f));
                }
            }
            assert forall|i: int|
                0 <= i < self.num_slots() implies (#[trigger] self.slots()[i]).slot_ok() by {
                assert(self.slots()[i] == self.slot_of(i));
                assert(old(self).slots()[i].slot_ok());
            }
        }
    }

    /// Whether the cached draw order must be rebuilt.
    pub fn is_render_dirty(&self) -> (r: bool)
        ensures
            r == self.render_dirty(),
    {
        self.render_dirty
    }

    /// Acknowledges a rebuild of the cached draw order.
    pub fn clear_render_dirty(&mut self)
        requires
            old(self).wf(),
        ensures
            final(self).wf(),
            final(self).slots() == old(self).slots(),
            final(self).pending_seq() == old(self).pending_seq(),
            final(self).freelist() == old(self).freelist(),
            !final(self).render_dirty(),
    {
        self.render_dirty = false;
    }

    // ---- component reads, by entity id -------------------------------------

    pub fn get_position(&self, i: usize) -> (r: Option<Position>)
        ensures
            r == self.slot_of(i as int).position,
    {
        if i < self.rows.len() {
            self.rows[i].position
        } else {
            None
        }
    }

    pub fn get_velocity(&self, i: usize) -> (r: Option<Velocity>)
        ensures
            r == self.slot_of(i as int).velocity,
    {
        if i < self.rows.len() {
            self.rows[i].velocity
        } else {
            None
        }
    }

    pub fn get_size(&self, i: usize) -> (r: Option<Size>)
        ensures
            r == self.slot_of(i as int).size,
    {
        if i < self.rows.len() {
            self.rows[i].size
        } else {
            None
        }
    }

    pub fn get_rotation(&self, i: usize) -> (r: Option<Rotation>)
        ensures
            r == self.slot_of(i as int).rotation,
    {
        if i < self.rows.len() {
            self.rows[i].rotation
        } else {
            None
        }
    }

    pub fn get_render(&self, i: usize) -> (r: Option<Render>)
        ensures
            r == self.slot_of(i as int).render,
    {
        if i < self.rows.len() {
            self.rows[i].render
        } else {
            None
        }
    }

    pub fn get_image(&self, i: usize) -> (r: Option<Image>)
        ensures
            r == self.slot_of(i as int).image,
    {
        if i < self.rows.len() {
            self.rows[i].image
        } else {
            None
        }
    }

    pub fn get_text(&self, i: usize) -> (r: Option<&Text>)
        ensures
            match r {
                Some(t) => self.slot_of(i as int).text == Some(*t),
                None => self.slot_of(i as int).text is None,
            },
    {
        if i < self.rows.len() {
            self.rows[i].text.as_ref()
        } else {
            None
        }
    }

    pub fn get_parallax(&self, i: usize) -> (r: Option<Parallax>)
        ensures
            r == self.slot_of(i as int).parallax,
    {
        if i < self.rows.len() {
            self.rows[i].parallax
        } else {
            None
        }
    }

    pub fn get_player(&self, i: usize) -> (r: Option<Player>)
        ensures
            r == self.slot_of(i as int).player,
    {
        if i < self.rows.len() {
            self.rows[i].player
        } else {
            None
        }
    }

    pub fn get_pipe(&self, i: usize) -> (r: Option<Pipe>)
        ensures
            r == self.slot_of(i as int).pipe,
    {
        if i < self.rows.len() {
            self.rows[i].pipe
        } else {
            None
        }
    }

    pub fn get_score(&self, i: usize) -> (r: Option<Score>)
        ensures
            r == self.slot_of(i as int).score,
    {
        if i < self.rows.len() {
            self.rows[i].score
        } else {
            None
        }
    }

    pub fn get_dead(&self, i: usize) -> (r: Option<Dead>)
        ensures
            r == self.slot_of(i as int).dead,
    {
        if i < self.rows.len() {
            self.rows[i].dead
        } else {
            None
        }
    }

    pub fn get_paddle(&self, i: usize) -> (r: Option<&Paddle>)
        ensures
            match r {
                Some(t) => self.slot_of(i as int).paddle == Some(*t),
                None => self.slot_of(i as int).paddle is None,
            },
    {
        if i < self.rows.len() {
            self.rows[i].paddle.as_ref()
        } else {
            None
        }
    }

    pub fn get_ball(&self, i: usize) -> (r: Option<Ball>)
        ensures
            r == self.slot_of(i as int).ball,
    {
        if i < self.rows.len() {
            self.rows[i].ball
        } else {
            None
        }
    }

    pub fn get_scored(&self, i: usize) -> (r: Option<Scored>)
        ensures
            r == self.slot_of(i as int).scored,
    {
        if i < self.rows.len() {
            self.rows[i].scored
        } else {
            None
        }
    }

    pub fn get_won(&self, i: usize) -> (r: Option<Won>)
        ensures
            r == self.slot_of(i as int).won,
    {
        if i < self.rows.len() {
            self.rows[i].won
        } else {
            None
        }
    }

    pub fn get_serving(&self, i: usize) -> (r: Option<Serving>)
        ensures
            r == self.slot_of(i as int).serving,
    {
        if i < self.rows.len() {
            self.rows[i].serving
        } else {
            None
        }
    }

    // ---- component writes, by entity id ------------------------------------

    /// Writes the position of row `i`. Changing the draw-order key `z` (or
    /// giving a row its first position) marks the cached draw order dirty.
    pub fn set_position(&mut self, i: usize, c: Position)
        requires
            old(self).wf(),
            i < old(self).num_slots(),
            coord_ok(c.x as int),
            coord_ok(c.y as int),
        ensures
            final(self).wf(),
            final(self).slots() == old(self).slots().update(
                i as int,
                (Slot { position: Some(c), ..old(self).slot_of(i as int) }),
            ),
            final(self).pending_seq() == old(self).pending_seq(),
            final(self).freelist() == old(self).freelist(),
            final(self).render_dirty() == (old(self).render_dirty() || match old(self).slot_of(
                i as int,
            ).position {
                Some(q) => q.z != c.z,
                None => true,
            }),
    {
        let mut s = vacant_slot(0);
        self.rows.set_and_swap(i, &mut s);
        let z_changed = match &s.position {
            Some(q) => q.z != c.z,
            None => true,
        };
        if z_changed {
            self.render_dirty = true;
        }
        s.position = Some(c);
        self.rows.set_and_swap(i, &mut s);
        proof {
            assert(self.slots() =~= old(self).slots().update(
                i as int,
                (Slot { position: Some(c), ..old(self).slot_of(i as int) }),
            ));
        }
    }

    pub fn set_velocity(&mut self, i: usize, c: Velocity)
        requires
            old(self).wf(),
            i < old(self).num_slots(),
            vel_ok(c.x as int),
            vel_ok(c.y as int),
        ensures
            final(self).wf(),
            final(self).slots() == old(self).slots().update(
                i as int,
                (Slot { velocity: Some(c), ..old(self).slot_of(i as int) }),
            ),
            final(self).pending_seq() == old(self).pending_seq(),
            final(self).freelist() == old(self).freelist(),
            final(self).render_dirty() == old(self).render_dirty(),
    {
        let mut s = vacant_slot(0);
        self.rows.set_and_swap(i, &mut s);
        s.velocity = Some(c);
        self.rows.set_and_swap(i, &mut s);
        proof {
            assert(self.slots() =~= old(self).slots().update(
                i as int,
                (Slot { velocity: Some(c), ..old(self).slot_of(i as int) }),
            ));
        }
    }

    /// Writes the renderable of row `i`; any insertion or mutation of this
    /// component marks the cached draw order dirty.
    pub fn set_render(&mut self, i: usize, c: Render)
        requires
            old(self).wf(),
            i < old(self).num_slots(),
        ensures
            final(self).wf(),
            final(self).slots() == old(self).slots().update(
                i as int,
                (Slot { render: Some(c), ..old(self).slot_of(i as int) }),
            ),
            final(self).pending_seq() == old(self).pending_seq(),
            final(self).freelist() == old(self).freelist(),
            final(self).render_dirty(),
    {
        self.render_dirty = true;
        let mut s = vacant_slot(0);
        self.rows.set_and_swap(i, &mut s);
        s.render = Some(c);
        self.rows.set_and_swap(i, &mut s);
        proof {
            assert(self.slots() =~= old(self).slots().update(
                i as int,
                (Slot { render: Some(c), ..old(self).slot_of(i as int) }),
            ));
        }
    }

    pub fn set_text(&mut self, i: usize, c: Text)
        requires
            old(self).wf(),
            i < old(self).num_slots(),
        ensures
            final(self).wf(),
            final(self).slots() == old(self).slots().update(
                i as int,
                (Slot { text: Some(c), ..old(self).slot_of(i as int) }),
            ),
            final(self).pending_seq() == old(self).pending_seq(),
            final(self).freelist() == old(self).freelist(),
            final(self).render_dirty() == old(self).render_dirty(),
    {
        let mut s = vacant_slot(0);
        self.rows.set_and_swap(i, &mut s);
        s.text = Some(c);
        self.rows.set_and_swap(i, &mut s);
        proof {
            assert(self.slots() =~= old(self).slots().update(
                i as int,
                (Slot { text: Some(c), ..old(self).slot_of(i as int) }),
            ));
        }
    }

    pub fn set_pipe(&mut self, i: usize, c: Pipe)
        requires
            old(self).wf(),
            i < old(self).num_slots(),
        ensures
            final(self).wf(),
            final(self).slots() == old(self).slots().update(
                i as int,
                (Slot { pipe: Some(c), ..old(self).slot_of(i as int) }),
            ),
            final(self).pending_seq() == old(self).pending_seq(),
            final(self).freelist() == old(self).freelist(),
            final(self).render_dirty() == old(self).render_dirty(),
    {
        let mut s = vacant_slot(0);
        self.rows.set_and_swap(i, &mut s);
        s.pipe = Some(c);
        self.rows.set_and_swap(i, &mut s);
        proof {
            assert(self.slots() =~= old(self).slots().update(
                i as int,
                (Slot { pipe: Some(c), ..old(self).slot_of(i as int) }),
            ));
        }
    }

    pub fn set_score(&mut self, i: usize, c: Score)
        requires
            old(self).wf(),
            i < old(self).num_slots(),
        ensures
            final(self).wf(),
            final(self).slots() == old(self).slots().update(
                i as int,
                (Slot { score: Some(c), ..old(self).slot_of(i as int) }),
            ),
            final(self).pending_seq() == old(self).pending_seq(),
            final(self).freelist() == old(self).freelist(),
            final(self).render_dirty() == old(self).render_dirty(),
    {
        let mut s = vacant_slot(0);
        self.rows.set_and_swap(i, &mut s);
        s.score = Some(c);
        self.rows.set_and_swap(i, &mut s);
        proof {
            assert(self.slots() =~= old(self).slots().update(
                i as int,
                (Slot { score: Some(c), ..old(self).slot_of(i as int) }),
            ));
        }
    }

    pub fn set_dead(&mut self, i: usize, c: Dead)
        requires
            old(self).wf(),
            i < old(self).num_slots(),
        ensures
            final(self).wf(),
            final(self).slots() == old(self).slots().update(
                i as int,
                (Slot { dead: Some(c), ..old(self).slot_of(i as int) }),
            ),
            final(self).pending_seq() == old(self).pending_seq(),
            final(self).freelist() == old(self).freelist(),
            final(self).render_dirty() == old(self).render_dirty(),
    {
        let mut s = vacant_slot(0);
        self.rows.set_and_swap(i, &mut s);
        s.dead = Some(c);
        self.rows.set_and_swap(i, &mut s);
        proof {
            assert(self.slots() =~= old(self).slots().update(
                i as int,
                (Slot { dead: Some(c), ..old(self).slot_of(i as int) }),
            ));
        }
    }

    pub fn set_paddle(&mut self, i: usize, c: Paddle)
        requires
            old(self).wf(),
            i < old(self).num_slots(),
        ensures
            final(self).wf(),
            final(self).slots() == old(self).slots().update(
                i as int,
                (Slot { paddle: Some(c), ..old(self).slot_of(i as int) }),
            ),
            final(self).pending_seq() == old(self).pending_seq(),
            final(self).freelist() == old(self).freelist(),
            final(self).render_dirty() == old(self).render_dirty(),
    {
        let mut s = vacant_slot(0);
        self.rows.set_and_swap(i, &mut s);
        s.paddle = Some(c);
        self.rows.set_and_swap(i, &mut s);
        proof {
            assert(self.slots() =~= old(self).slots().update(
                i as int,
                (Slot { paddle: Some(c), ..old(self).slot_of(i as int) }),
            ));
        }
    }

    pub fn set_scored(&mut self, i: usize, c: Scored)
        requires
            old(self).wf(),
            i < old(self).num_slots(),
        ensures
            final(self).wf(),
            final(self).slots() == old(self).slots().update(
                i as int,
                (Slot { scored: Some(c), ..old(self).slot_of(i as int) }),
            ),
            final(self).pending_seq() == old(self).pending_seq(),
            final(self).freelist() == old(self).freelist(),
            final(self).render_dirty() == old(self).render_dirty(),
    {
        let mut s = vacant_slot(0);
        self.rows.set_and_swap(i, &mut s);
        s.scored = Some(c);
        self.rows.set_and_swap(i, &mut s);
        proof {
            assert(self.slots() =~= old(self).slots().update(
                i as int,
                (Slot { scored: Some(c), ..old(self).slot_of(i as int) }),
            ));
        }
    }

    pub fn set_won(&mut self, i: usize, c: Won)
        requires
            old(self).wf(),
            i < old(self).num_slots(),
        ensures
            final(self).wf(),
            final(self).slots() == old(self).slots().update(
                i as int,
                (Slot { won: Some(c), ..old(self).slot_of(i as int) }),
            ),
            final(self).pending_seq() == old(self).pending_seq(),
            final(self).freelist() == old(self).freelist(),
            final(self).render_dirty() == old(self).render_dirty(),
    {
        let mut s = vacant_slot(0);
        self.rows.set_and_swap(i, &mut s);
        s.won = Some(c);
        self.rows.set_and_swap(i, &mut s);
        proof {
            assert(self.slots() =~= old(self).slots().update(
                i as int,
                (Slot { won: Some(c), ..old(self).slot_of(i as int) }),
            ));
        }
    }

    pub fn set_serving(&mut self, i: usize, c: Serving)
        requires
            old(self).wf(),
            i < old(self).num_slots(),
        ensures
            final(self).wf(),
            final(self).slots() == old(self).slots().update(
                i as int,
                (Slot { serving: Some(c), ..old(self).slot_of(i as int) }),
            ),
            final(self).pending_seq() == old(self).pending_seq(),
            final(self).freelist() == old(self).freelist(),
            final(self).render_dirty() == old(self).render_dirty(),
    {
        let mut s = vacant_slot(0);
        self.rows.set_and_swap(i, &mut s);
        s.serving = Some(c);
        self.rows.set_and_swap(i, &mut s);
        proof {
            assert(self.slots() =~= old(self).slots().update(
                i as int,
                (Slot { serving: Some(c), ..old(self).slot_of(i as int) }),
            ));
        }
    }
}

} // verus!
