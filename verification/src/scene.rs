//! The scene stack: a LIFO stack of game-mode handlers, each owning the
//! entities its enter hook created. Only the top scene is updated each tick;
//! popping a scene requests deletion of its owned entities, so they are gone
//! before the next tick observes the world. Scene types are game-specific;
//! the stack is generic over them.

use vstd::prelude::*;

use crate::world::{Entity, World};

verus! {

/// A command to change scenes, returned by a scene's update: keep going, push
/// a new scene on top, replace the top, or pop it.
pub enum SceneSwitch<S> {
    Stay,
    Push(S),
    Replace(S),
    Pop,
}

impl<S> SceneSwitch<S> {
    /// The command replacing the current scene.
    pub fn replace(scene: S) -> (r: SceneSwitch<S>)
        ensures
            r == SceneSwitch::Replace(scene),
    {
        SceneSwitch::Replace(scene)
    }

    /// The command pushing a scene on top of the current one.
    pub fn push(scene: S) -> (r: SceneSwitch<S>)
        ensures
            r == SceneSwitch::Push(scene),
    {
        SceneSwitch::Push(scene)
    }
}

/// A stack of scenes, each beside the entities its enter hook created.
pub struct SceneStack<S> {
    scenes: Vec<S>,
    owned: Vec<Vec<Entity>>,
}

impl<S> SceneStack<S> {
    /// The scenes, bottom first.
    pub closed spec fn scenes_seq(self) -> Seq<S> {
        self.scenes@
    }

    /// The owned entities of each scene, bottom first.
    pub closed spec fn owned_seq(self) -> Seq<Seq<Entity>> {
        self.owned@.map_values(|v: Vec<Entity>| v@)
    }

    pub open spec fn depth(self) -> int {
        self.scenes_seq().len() as int
    }

    /// Each scene stands beside its owned entities.
    pub open spec fn wf(self) -> bool {
        self.owned_seq().len() == self.depth()
    }

    pub fn new() -> (s: SceneStack<S>)
        ensures
            s.wf(),
            s.depth() == 0,
    {
        SceneStack { scenes: Vec::new(), owned: Vec::new() }
    }

    pub fn is_empty(&self) -> (r: bool)
        ensures
            r == (self.depth() == 0),
    {
        self.scenes.len() == 0
    }

    pub fn len(&self) -> (n: usize)
        ensures
            n == self.depth(),
    {
        self.scenes.len()
    }

    /// Adds a scene to the top of the stack, with the entities its enter hook
    /// created.
    pub fn push(&mut self, scene: S, owned: Vec<Entity>)
        requires
            old(self).wf(),
        ensures
            final(self).wf(),
            final(self).scenes_seq() == old(self).scenes_seq().push(scene),
            final(self).owned_seq() == old(self).owned_seq().push(owned@),
    {
        self.scenes.push(scene);
        self.owned.push(owned);
        proof {
            assert(self.owned_seq() =~= old(self).owned_seq().push(self.owned@.last()@));
        }
    }

    /// Removes the top scene and returns it, requesting deletion of its owned
    /// entities; the scene beneath resumes with its state intact. Popping an
    /// empty stack is a protocol violation, ruled out by the precondition.
    pub fn pop(&mut self, world: &mut World) -> (s: S)
        requires
            old(self).wf(),
            old(self).depth() > 0,
            old(world).wf(),
        ensures
            final(self).wf(),
            final(self).scenes_seq() == old(self).scenes_seq().drop_last(),
            final(self).owned_seq() == old(self).owned_seq().drop_last(),
            s == old(self).scenes_seq().last(),
            final(world).wf(),
            final(world).slots() == old(world).slots(),
            final(world).freelist() == old(world).freelist(),
            final(world).render_dirty() == old(world).render_dirty(),
            forall|j: int|
                final(world).is_pending(j) == (old(world).is_pending(j) || exists|k: int|
                    0 <= k < old(self).owned_seq().last().len() && (#[trigger] old(
                        self,
                    ).owned_seq().last()[k]).id as int == j && old(world).spec_valid(
                        old(self).owned_seq().last()[k],
                    )),
    {
        let owned = self.owned.pop().unwrap();
        world.delete_all(&owned);
        let s = self.scenes.pop().unwrap();
        proof {
            assert(self.owned_seq() =~= old(self).owned_seq().drop_last());
            assert(owned@ == old(self).owned_seq().last());
        }
        s
    }

    /// Exchanges the top scene with the given value, leaving owned entities
    /// where they are: how a caller borrows the top scene to update it.
    pub fn swap_top(&mut self, s: &mut S)
        requires
            old(self).wf(),
            old(self).depth() > 0,
        ensures
            final(self).wf(),
            final(self).scenes_seq() == old(self).scenes_seq().update(
                old(self).depth() - 1,
                *old(s),
            ),
            *final(s) == old(self).scenes_seq().last(),
            final(self).owned_seq() == old(self).owned_seq(),
            final(self).depth() == old(self).depth(),
    {
        let n = self.scenes.len();
        self.scenes.set_and_swap(n - 1, s);
    }

    /// The current scene; the stack must not be empty.
    pub fn current(&self) -> (s: &S)
        requires
            self.depth() > 0,
        ensures
            *s == self.scenes_seq().last(),
    {
        &self.scenes[self.scenes.len() - 1]
    }

    /// The scene at depth `k`, bottom first: what a layered draw pass walks.
    pub fn scene_at(&self, k: usize) -> (s: &S)
        requires
            k < self.depth(),
        ensures
            *s == self.scenes_seq()[k as int],
    {
        &self.scenes[k]
    }
}

/// Pushing a scene and popping it restores the prior stack exactly, top scene
/// and all: `push` appends and `pop` removes the appended element, so the
/// scene beneath resumes with its state intact, never reset.
pub proof fn lemma_push_pop_restores<S>(scenes: Seq<S>, s: S)
    ensures
        scenes.push(s).drop_last() =~= scenes,
        scenes.push(s).last() == s,
{
}

} // verus!
