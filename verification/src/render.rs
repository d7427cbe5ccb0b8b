//! Render ordering: a dirty-tracked cache of the draw order. The world marks
//! itself dirty on any insertion or mutation of a renderable, any change of a
//! draw-order key, and any committed deletion; when the cache is rebuilt it
//! collects every live, visible renderable entity and sorts by `z` ascending,
//! with the entity id as the deterministic tiebreak, so the draw order is
//! reproducible whatever order entities were created or visited in.

use vstd::prelude::*;

use crate::world::{Entity, World};

verus! {

/// One entry of the draw list: a live renderable entity and its draw key.
#[derive(Clone, Copy, Debug, PartialEq, Eq, Structural)]
pub struct DrawItem {
    pub z: u32,
    pub entity: Entity,
}

/// Row `i` takes part in drawing: live and carrying a visible renderable.
pub open spec fn renderable(w: World, i: int) -> bool {
    w.slot_of(i).alive && match w.slot_of(i).render {
        Some(r) => r.visible,
        None => false,
    }
}

/// The draw-order key of row `i`: its position's `z`, or zero without one.
pub open spec fn z_of(w: World, i: int) -> u32 {
    match w.slot_of(i).position {
        Some(p) => p.z,
        None => 0,
    }
}

/// Strict draw order: `z` ascending, entity id breaking ties.
pub open spec fn draw_lt(a: DrawItem, b: DrawItem) -> bool {
    a.z < b.z || (a.z == b.z && a.entity.id < b.entity.id)
}

fn draw_lt_exec(a: DrawItem, b: DrawItem) -> (r: bool)
    ensures
        r == draw_lt(a, b),
{
    a.z < b.z || (a.z == b.z && a.entity.id < b.entity.id)
}

/// `s` is the draw order of `w`: exactly the live, visible renderable rows,
/// each under a valid handle with its current draw key, strictly sorted.
pub open spec fn is_draw_order(w: World, s: Seq<DrawItem>) -> bool {
    &&& forall|k: int|
        0 <= k < s.len() ==> {
            let it = #[trigger] s[k];
            renderable(w, it.entity.id as int) && it.entity.gen == w.slot_of(
                it.entity.id as int,
            ).gen && it.z == z_of(w, it.entity.id as int)
        }
    &&& forall|i: int|
        0 <= i < w.num_slots() && #[trigger] renderable(w, i) ==> exists|k: int|
            0 <= k < s.len() && (#[trigger] s[k]).entity.id as int == i
    &&& forall|k1: int, k2: int| 0 <= k1 < k2 < s.len() ==> draw_lt(s[k1], s[k2])
}

/// The consumer of the component store: keeps the cached draw order and
/// rebuilds it whenever the world marked it dirty.
pub struct RenderSystem {
    sorted_entities: Vec<DrawItem>,
}

impl RenderSystem {
    /// The cached draw order.
    pub closed spec fn cache(self) -> Seq<DrawItem> {
        self.sorted_entities@
    }

    /// A clean world's cache is its draw order.
    pub open spec fn inv(self, w: World) -> bool {
        !w.render_dirty() ==> is_draw_order(w, self.cache())
    }

    pub fn new() -> (r: RenderSystem)
        ensures
            r.cache() == Seq::<DrawItem>::empty(),
    {
        RenderSystem { sorted_entities: Vec::new() }
    }

    /// Rebuilds the cached draw order if the world marked it dirty, and
    /// acknowledges the mark; afterwards the cache is the world's draw order.
    pub fn sort_entities(&mut self, world: &mut World)
        requires
            old(self).inv(*old(world)),
            old(world).wf(),
        ensures
            final(self).inv(*final(world)),
            is_draw_order(*final(world), final(self).cache()),
            final(world).wf(),
            final(world).slots() == old(world).slots(),
            final(world).pending_seq() == old(world).pending_seq(),
            final(world).freelist() == old(world).freelist(),
            !final(world).render_dirty(),
    {
        if !world.is_render_dirty() {
            return ;
        }
        let n = world.len();
        let mut out: Vec<DrawItem> = Vec::new();
        let mut i: usize = 0;
        while i < n
            invariant
                *world == *old(world),
                n == world.num_slots(),
                i <= n,
                forall|k1: int, k2: int| 0 <= k1 < k2 < out@.len() ==> draw_lt(out@[k1], out@[k2]),
                forall|k: int|
                    0 <= k < out@.len() ==> {
                        let it = #[trigger] out@[k];
                        (it.entity.id as int) < i && renderable(*world, it.entity.id as int)
                            && it.entity.gen == world.slot_of(it.entity.id as int).gen && it.z
                            == z_of(*world, it.entity.id as int)
                    },
                forall|j: int|
                    0 <= j < i && #[trigger] renderable(*world, j) ==> exists|k: int|
                        0 <= k < out@.len() && (#[trigger] out@[k]).entity.id as int == j,
            decreases n - i,
        {
            let is_live = world.alive(i);
            let show = match world.get_render(i) {
                Some(r) => is_live && r.visible,
                None => false,
            };
            if show {
                let z = match world.get_position(i) {
                    Some(p) => p.z,
                    None => 0,
                };
                let e = world.entity_at(i).unwrap();
                let item = DrawItem { z, entity: e };
                let ghost prev = out@;
                let mut pos: usize = 0;
                while pos < out.len() && draw_lt_exec(out[pos], item)
                    invariant
                        out@ == prev,
                        pos <= out@.len(),
                        forall|k: int| 0 <= k < pos ==> draw_lt(out@[k], item),
                    decreases out@.len() - pos,
                {
                    pos = pos + 1;
                }
                proof {
                    if pos < out@.len() {
                        assert(!draw_lt(out@[pos as int], item));
                        assert(out@[pos as int].entity.id < i);
                        assert(draw_lt(item, out@[pos as int]));
                    }
                }
                out.insert(pos, item);
                proof {
                    assert(forall|k: int| 0 <= k < pos ==> out@[k] == prev[k]);
                    assert(out@[pos as int] == item);
                    assert(forall|k: int| pos < k < out@.len() ==> out@[k] == prev[k - 1]);
                    assert forall|k1: int, k2: int| 0 <= k1 < k2 < out@.len() implies draw_lt(
                        out@[k1],
                        out@[k2],
                    ) by {
                        if k1 < pos && k2 == pos {
                            assert(draw_lt(prev[k1], item));
                        } else if k1 == pos && k2 > pos {
                            assert(pos < out@.len() - 1 ==> pos < prev.len());
                            if k2 - 1 == pos {
                                assert(draw_lt(item, prev[pos as int]));
                            } else {
                                assert(draw_lt(item, prev[pos as int]));
                                assert(draw_lt(prev[pos as int], prev[k2 - 1]));
                            }
                        }
                    }
                    assert forall|j: int|
                        0 <= j < i + 1 && #[trigger] renderable(*world, j) implies exists|k: int|
                        0 <= k < out@.len() && (#[trigger] out@[k]).entity.id as int == j by {
                        if j == i as int {
                            assert(out@[pos as int].entity.id as int == j);
                        } else {
                            let k = choose|k: int|
                                0 <= k < prev.len() && (#[trigger] prev[k]).entity.id as int == j;
                            if k < pos {
                                assert(out@[k].entity.id as int == j);
                            } else {
                                assert(out@[k + 1].entity.id as int == j);
                            }
                        }
                    }
                }
            }
            i = i + 1;
        }
        self.sorted_entities = out;
        let ghost scanned = *world;
        world.clear_render_dirty();
        proof {
            lemma_draw_order_same_slots(scanned, *world, self.sorted_entities@);
        }
    }

    /// The cached draw order, for the draw pass to iterate once.
    pub fn draw_list(&self) -> (r: &Vec<DrawItem>)
        ensures
            r@ == self.cache(),
    {
        &self.sorted_entities
    }
}

/// A draw order depends only on the component rows: two worlds with equal
/// rows (however their bookkeeping differs) have the same draw orders.
pub proof fn lemma_draw_order_same_slots(w1: World, w2: World, s: Seq<DrawItem>)
    requires
        is_draw_order(w1, s),
        w2.slots() == w1.slots(),
    ensures
        is_draw_order(w2, s),
{
    assert(forall|i: int| w2.slot_of(i) == w1.slot_of(i));
    assert(forall|i: int| #[trigger] renderable(w2, i) == renderable(w1, i));
    assert(forall|i: int| #[trigger] z_of(w2, i) == z_of(w1, i));
    assert forall|i: int| 0 <= i < w2.num_slots() && #[trigger] renderable(w2, i) implies exists|
        k: int,
    | 0 <= k < s.len() && (#[trigger] s[k]).entity.id as int == i by {
        assert(renderable(w1, i));
    }
}

/// Strictly sorted sequences with the same members are the same sequence.
proof fn lemma_sorted_same_members_equal(s1: Seq<DrawItem>, s2: Seq<DrawItem>)
    requires
        forall|k1: int, k2: int| 0 <= k1 < k2 < s1.len() ==> draw_lt(s1[k1], s1[k2]),
        forall|k1: int, k2: int| 0 <= k1 < k2 < s2.len() ==> draw_lt(s2[k1], s2[k2]),
        forall|x: DrawItem| s1.contains(x) <==> s2.contains(x),
    ensures
        s1 =~= s2,
    decreases s1.len(),
{
    if s1.len() == 0 {
        if s2.len() > 0 {
            assert(s2.contains(s2[0]));
            assert(s1.contains(s2[0]));
            assert(false);
        }
    } else if s2.len() == 0 {
        assert(s1.contains(s1[0]));
        assert(s2.contains(s1[0]));
        assert(false);
    } else {
        assert(s1.contains(s1[0]));
        assert(s2.contains(s2[0]));
        assert(s2.contains(s1[0]));
        assert(s1.contains(s2[0]));
        let k = choose|k: int| 0 <= k < s2.len() && s2[k] == s1[0];
        let m = choose|m: int| 0 <= m < s1.len() && s1[m] == s2[0];
        if k > 0 && m > 0 {
            assert(draw_lt(s2[0], s2[k]));
            assert(draw_lt(s1[0], s1[m]));
            assert(false);
        }
        assert(s1[0] == s2[0]);
        let t1 = s1.drop_first();
        let t2 = s2.drop_first();
        assert forall|x: DrawItem| t1.contains(x) <==> t2.contains(x) by {
            lemma_tail_membership(s1, x);
            lemma_tail_membership(s2, x);
            assert(s1[0] == s2[0]);
        }
        lemma_sorted_same_members_equal(t1, t2);
        assert(s1 =~= s2) by {
            assert(forall|j: int| 1 <= j < s1.len() ==> s1[j] == t1[j - 1]);
            assert(forall|j: int| 1 <= j < s2.len() ==> s2[j] == t2[j - 1]);
        }
    }
}

/// For a strictly sorted sequence, the tail's members are the members other
/// than the head.
proof fn lemma_tail_membership(s: Seq<DrawItem>, x: DrawItem)
    requires
        s.len() > 0,
        forall|k1: int, k2: int| 0 <= k1 < k2 < s.len() ==> draw_lt(s[k1], s[k2]),
    ensures
        s.drop_first().contains(x) <==> (s.contains(x) && x != s[0]),
{
    let t = s.drop_first();
    if t.contains(x) {
        let j = choose|j: int| 0 <= j < t.len() && t[j] == x;
        assert(s[j + 1] == x);
        assert(draw_lt(s[0], s[j + 1]));
        assert(s.contains(x));
    }
    if s.contains(x) && x != s[0] {
        let j = choose|j: int| 0 <= j < s.len() && s[j] == x;
        assert(j != 0);
        assert(t[j - 1] == x);
        assert(t.contains(x));
    }
}

/// A world has at most one draw order: collecting and sorting is fully
/// reproducible, whatever the insertion or iteration order of the entities;
/// ties on `z` are settled by the deterministic id key.
pub proof fn lemma_draw_order_unique(w: World, s1: Seq<DrawItem>, s2: Seq<DrawItem>)
    requires
        is_draw_order(w, s1),
        is_draw_order(w, s2),
    ensures
        s1 =~= s2,
{
    assert forall|x: DrawItem| s1.contains(x) implies s2.contains(x) by {
        lemma_member_carries_over(w, s1, s2, x);
    }
    assert forall|x: DrawItem| s2.contains(x) implies s1.contains(x) by {
        lemma_member_carries_over(w, s2, s1, x);
    }
    lemma_sorted_same_members_equal(s1, s2);
}

/// A member of one draw order of `w` is a member of any other: its fields are
/// all determined by its entity id and the world.
proof fn lemma_member_carries_over(w: World, s1: Seq<DrawItem>, s2: Seq<DrawItem>, x: DrawItem)
    requires
        is_draw_order(w, s1),
        is_draw_order(w, s2),
        s1.contains(x),
    ensures
        s2.contains(x),
{
    let j = choose|j: int| 0 <= j < s1.len() && s1[j] == x;
    let i = x.entity.id as int;
    assert(renderable(w, i));
    assert(0 <= i < w.num_slots());
    let k = choose|k: int| 0 <= k < s2.len() && (#[trigger] s2[k]).entity.id as int == i;
    assert(s2[k] == x);
    assert(s2.contains(x));
}

} // verus!
