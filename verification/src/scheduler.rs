//! The system scheduler: an ordered set of per-frame update units, each
//! registered under a unique name with an explicit list of predecessor names.
//!
//! A dependency may only name an already-registered system, so the
//! registration order is itself a topological order of the dependency graph,
//! and dispatching means running the systems in exactly that order. The
//! scheduler holds no simulation state beyond this ordering; each game keeps
//! its systems' private state beside it and runs the system a tag denotes.

use vstd::prelude::*;

verus! {

/// A configuration error, fatal at setup time.
#[derive(Clone, Copy, Debug, PartialEq, Eq, Structural)]
pub enum ConfigError {
    /// A system was registered twice under one name.
    DuplicateSystem,
    /// A declared predecessor names no registered system.
    UnknownDependency,
}

/// One registered system: the tag its game dispatches on, its unique name,
/// and the names of the systems that must run before it.
#[derive(Clone, Debug)]
pub struct SystemEntry {
    pub tag: u32,
    pub name: String,
    pub deps: Vec<String>,
}

/// The validated, dependency-respecting execution order.
pub struct Dispatcher {
    entries: Vec<SystemEntry>,
}

impl Dispatcher {
    /// The registered systems, in execution order.
    pub closed spec fn entries_seq(self) -> Seq<SystemEntry> {
        self.entries@
    }

    /// Some registered system bears this name.
    pub open spec fn contains_name(self, n: Seq<char>) -> bool {
        exists|k: int|
            0 <= k < self.entries_seq().len() && (#[trigger] self.entries_seq()[k]).name@ == n
    }

    /// The tags to dispatch, in execution order.
    pub open spec fn order(self) -> Seq<u32> {
        self.entries_seq().map_values(|e: SystemEntry| e.tag)
    }

    /// Dependency `i` of entry `k` names an entry standing strictly earlier.
    pub open spec fn dep_ok(self, k: int, i: int) -> bool {
        exists|j: int|
            0 <= j < k && (#[trigger] self.entries_seq()[j]).name@
                == self.entries_seq()[k].deps@[i]@
    }

    /// Names are unique and every declared dependency names an earlier entry:
    /// the order is topological by construction.
    pub open spec fn wf(self) -> bool {
        &&& forall|k1: int, k2: int|
            0 <= k1 < k2 < self.entries_seq().len() ==> self.entries_seq()[k1].name@
                != self.entries_seq()[k2].name@
        &&& forall|k: int, i: int|
            0 <= k < self.entries_seq().len() && 0 <= i < self.entries_seq()[k].deps@.len() ==> #[trigger] self.dep_ok(
                k,
                i,
            )
    }

    pub fn new() -> (d: Dispatcher)
        ensures
            d.wf(),
            d.entries_seq().len() == 0,
    {
        Dispatcher { entries: Vec::new() }
    }

    /// How many systems run per dispatch.
    pub fn len(&self) -> (n: usize)
        ensures
            n == self.entries_seq().len(),
    {
        self.entries.len()
    }

    /// The dispatch tag of the `k`-th system in execution order.
    pub fn tag_at(&self, k: usize) -> (t: u32)
        requires
            k < self.entries_seq().len(),
        ensures
            t == self.order()[k as int],
    {
        self.entries[k].tag
    }

    fn has_system(&self, name: &String) -> (r: bool)
        ensures
            r == self.contains_name(name@),
    {
        let n = self.entries.len();
        let mut k: usize = 0;
        while k < n
            invariant
                n == self.entries_seq().len(),
                k <= n,
                forall|j: int| 0 <= j < k ==> (#[trigger] self.entries_seq()[j]).name@ != name@,
            decreases n - k,
        {
            if self.entries[k].name == *name {
                return true;
            }
            k = k + 1;
        }
        false
    }

    /// Registers a system under a unique name after all its predecessors.
    /// Registering a name twice, or declaring a dependency that does not
    /// exist, is a configuration error that leaves the scheduler unchanged.
    pub fn register(&mut self, tag: u32, name: String, deps: Vec<String>) -> (r: Result<
        (),
        ConfigError,
    >)
        requires
            old(self).wf(),
        ensures
            final(self).wf(),
            r is Ok <==> (!old(self).contains_name(name@) && (forall|i: int|
                0 <= i < deps@.len() ==> old(self).contains_name((#[trigger] deps@[i])@))),
            r is Ok ==> final(self).entries_seq() == old(self).entries_seq().push(
                (SystemEntry { tag, name, deps }),
            ),
            r is Err ==> *final(self) == *old(self) && r->Err_0 == (if old(self).contains_name(
                name@,
            ) {
                ConfigError::DuplicateSystem
            } else {
                ConfigError::UnknownDependency
            }),
    {
        if self.has_system(&name) {
            return Err(ConfigError::DuplicateSystem);
        }
        let n = deps.len();
        let mut i: usize = 0;
        while i < n
            invariant
                *self == *old(self),
                old(self).wf(),
                !old(self).contains_name(name@),
                n == deps@.len(),
                i <= n,
                forall|j: int| 0 <= j < i ==> self.contains_name((#[trigger] deps@[j])@),
            decreases n - i,
        {
            if !self.has_system(&deps[i]) {
                return Err(ConfigError::UnknownDependency);
            }
            i = i + 1;
        }
        let ghost prev = *self;
        self.entries.push(SystemEntry { tag, name, deps });
        proof {
            let s = self.entries_seq();
            let m = s.len() - 1;
            assert forall|k1: int, k2: int| 0 <= k1 < k2 < s.len() implies s[k1].name@
                != s[k2].name@ by {
                if k2 == m {
                    assert(!prev.contains_name(s[m].name@));
                    assert(prev.entries_seq()[k1].name@ != s[m].name@);
                }
            }
            assert forall|k: int, i2: int|
                0 <= k < s.len() && 0 <= i2 < s[k].deps@.len() implies #[trigger] self.dep_ok(
                k,
                i2,
            ) by {
                if k == m {
                    assert(prev.contains_name(s[m].deps@[i2]@));
                    let j = choose|j: int|
                        0 <= j < prev.entries_seq().len() && (#[trigger] prev.entries_seq()[j]).name@
                            == s[m].deps@[i2]@;
                    assert(0 <= j < k && s[j].name@ == s[k].deps@[i2]@);
                } else {
                    assert(prev.wf());
                    assert(prev.dep_ok(k, i2));
                    let j = choose|j: int|
                        0 <= j < k && (#[trigger] prev.entries_seq()[j]).name@
                            == prev.entries_seq()[k].deps@[i2]@;
                    assert(0 <= j < k && s[j].name@ == s[k].deps@[i2]@);
                }
            }
        }
        Ok(())
    }
}

/// The execution order is a deterministic function of the registration
/// sequence: two schedulers built from equal registrations dispatch equal tag
/// sequences, so re-running a dispatch is fully reproducible.
pub proof fn lemma_order_deterministic(a: Dispatcher, b: Dispatcher)
    requires
        a.entries_seq() == b.entries_seq(),
    ensures
        a.order() == b.order(),
{
}

/// The execution order respects every declared dependency: each predecessor a
/// system names stands strictly earlier in the order.
pub proof fn lemma_order_respects_deps(d: Dispatcher, k: int, i: int)
    requires
        d.wf(),
        0 <= k < d.entries_seq().len(),
        0 <= i < d.entries_seq()[k].deps@.len(),
    ensures
        d.dep_ok(k, i),
{
}

} // verus!
