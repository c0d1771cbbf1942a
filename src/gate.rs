//! The build gate: one binary lock per configured project, taken without
//! waiting, so that at most one build of a project runs at a time.
use vstd::prelude::*;
use crate::text::same_text;

verus! {

/// What an attempt to take a project's lock gives.
#[derive(Clone, Copy, Debug, PartialEq, Eq, Structural)]
pub enum GateResult {
    /// The lock was free and is now held by the caller.
    Acquired,
    /// A build of the project is in flight.
    Busy,
    /// No lock exists for this slug.
    Unknown,
}

/// The abstract state of the locks: the slugs they exist for and, for each, whether
/// its lock is held.
pub struct GateState {
    pub slugs: Seq<Seq<char>>,
    pub held: Seq<bool>,
}

pub open spec fn gate_wf(g: GateState) -> bool {
    &&& g.slugs.len() == g.held.len()
    &&& forall|i: int, j: int|
        0 <= i < g.slugs.len() && 0 <= j < g.slugs.len() && i != j ==> g.slugs[i] != g.slugs[j]
}

pub open spec fn has_slug(g: GateState, slug: Seq<char>) -> bool {
    exists|i: int| 0 <= i < g.slugs.len() && g.slugs[i] == slug
}

pub open spec fn slot_of(g: GateState, slug: Seq<char>) -> int {
    choose|i: int| 0 <= i < g.slugs.len() && g.slugs[i] == slug
}

pub open spec fn is_held(g: GateState, slug: Seq<char>) -> bool {
    has_slug(g, slug) && g.held[slot_of(g, slug)]
}

/// The state and result of one attempt to take the lock of `slug`.
pub open spec fn acquire(g: GateState, slug: Seq<char>) -> (GateState, GateResult) {
    if !has_slug(g, slug) {
        (g, GateResult::Unknown)
    } else if g.held[slot_of(g, slug)] {
        (g, GateResult::Busy)
    } else {
        (GateState { held: g.held.update(slot_of(g, slug), true), ..g }, GateResult::Acquired)
    }
}

/// The state after the lock of `slug` is given back.
pub open spec fn release(g: GateState, slug: Seq<char>) -> GateState {
    if !has_slug(g, slug) {
        g
    } else {
        GateState { held: g.held.update(slot_of(g, slug), false), ..g }
    }
}

pub struct BuildLocks {
    slugs: Vec<String>,
    held: Vec<bool>,
}

impl View for BuildLocks {
    type V = GateState;

    closed spec fn view(&self) -> GateState {
        GateState { slugs: self.slugs@.map_values(|s: String| s@), held: self.held@ }
    }
}

/// In well-formed locks, the slot of a slug is the one index that holds it.
pub proof fn lemma_slot_is(g: GateState, slug: Seq<char>, i: int)
    requires
        gate_wf(g),
        0 <= i < g.slugs.len(),
        g.slugs[i] == slug,
    ensures
        has_slug(g, slug),
        slot_of(g, slug) == i,
{
}

impl BuildLocks {
    /// One free lock for each of `slugs`, which are distinct.
    pub fn new(slugs: &Vec<String>) -> (r: BuildLocks)
        requires
            forall|i: int, j: int|
                0 <= i < slugs@.len() && 0 <= j < slugs@.len() && i != j ==> slugs@[i]@
                    != slugs@[j]@,
        ensures
            gate_wf(r@),
            r@.slugs == slugs@.map_values(|s: String| s@),
            forall|i: int| 0 <= i < r@.held.len() ==> !#[trigger] r@.held[i],
    {
        let mut names: Vec<String> = Vec::new();
        let mut held: Vec<bool> = Vec::new();
        let mut i: usize = 0;
        while i < slugs.len()
            invariant
                i <= slugs@.len(),
                names@.len() == i,
                held@.len() == i,
                forall|j: int| 0 <= j < i ==> #[trigger] names@[j]@ == slugs@[j]@,
                forall|j: int| 0 <= j < i ==> !#[trigger] held@[j],
            decreases slugs@.len() - i,
        {
            names.push(slugs[i].clone());
            held.push(false);
            i += 1;
        }
        let r = BuildLocks { slugs: names, held };
        assert(r@.slugs =~= slugs@.map_values(|s: String| s@));
        r
    }

    fn find(&self, slug: &str) -> (r: Option<usize>)
        requires
            gate_wf(self@),
        ensures
            r is None ==> !has_slug(self@, slug@),
            r matches Some(i) ==> has_slug(self@, slug@) && i == slot_of(self@, slug@) && i
                < self@.held.len(),
    {
        let mut i: usize = 0;
        while i < self.slugs.len()
            invariant
                gate_wf(self@),
                i <= self.slugs@.len(),
                forall|j: int| 0 <= j < i ==> self@.slugs[j] != slug@,
            decreases self.slugs@.len() - i,
        {
            if same_text(self.slugs[i].as_str(), slug) {
                proof {
                    lemma_slot_is(self@, slug@, i as int);
                }
                return Some(i);
            }
            i += 1;
        }
        None
    }

    pub fn contains(&self, slug: &str) -> (r: bool)
        requires
            gate_wf(self@),
        ensures
            r == has_slug(self@, slug@),
    {
        self.find(slug).is_some()
    }

    /// Takes the lock of `slug` if it is free, without waiting.
    pub fn try_acquire(&mut self, slug: &str) -> (r: GateResult)
        requires
            gate_wf(old(self)@),
        ensures
            (final(self)@, r) == acquire(old(self)@, slug@),
            gate_wf(final(self)@),
    {
        match self.find(slug) {
            None => GateResult::Unknown,
            Some(i) => {
                if self.held[i] {
                    GateResult::Busy
                } else {
                    self.held.set(i, true);
                    assert(self@.held =~= old(self)@.held.update(i as int, true));
                    GateResult::Acquired
                }
            },
        }
    }

    /// Gives the lock of `slug` back.
    pub fn release(&mut self, slug: &str)
        requires
            gate_wf(old(self)@),
        ensures
            final(self)@ == release(old(self)@, slug@),
            gate_wf(final(self)@),
    {
        match self.find(slug) {
            None => {},
            Some(i) => {
                self.held.set(i, false);
                assert(self@.held =~= old(self)@.held.update(i as int, false));
            },
        }
    }

    pub fn is_held(&self, slug: &str) -> (r: bool)
        requires
            gate_wf(self@),
        ensures
            r == is_held(self@, slug@),
    {
        match self.find(slug) {
            None => false,
            Some(i) => self.held[i],
        }
    }
}

/// Of two attempts on the lock of a configured project that is not held, the
/// first gets it and the second is refused as busy: exactly one build proceeds.
/// On a held lock both are refused.
pub proof fn lemma_single_flight(g: GateState, slug: Seq<char>)
    requires
        gate_wf(g),
        has_slug(g, slug),
    ensures
        !g.held[slot_of(g, slug)] ==> acquire(g, slug).1 == GateResult::Acquired && acquire(
            acquire(g, slug).0,
            slug,
        ).1 == GateResult::Busy,
        g.held[slot_of(g, slug)] ==> acquire(g, slug).1 == GateResult::Busy && acquire(
            acquire(g, slug).0,
            slug,
        ).1 == GateResult::Busy,
{
    let g1 = acquire(g, slug).0;
    let i = slot_of(g, slug);
    assert(g1.slugs[i] == slug);
    lemma_slot_is(g1, slug, i);
}

/// An attempt for a slug that names no project is refused as unknown and
/// leaves every lock as it was.
pub proof fn lemma_unknown_slug_untouched(g: GateState, slug: Seq<char>)
    requires
        gate_wf(g),
        !has_slug(g, slug),
    ensures
        acquire(g, slug) == (g, GateResult::Unknown),
{
}

/// Taking a free lock and then giving it back leaves all locks as they were.
pub proof fn lemma_release_restores(g: GateState, slug: Seq<char>)
    requires
        gate_wf(g),
        has_slug(g, slug),
        !is_held(g, slug),
    ensures
        release(acquire(g, slug).0, slug) == g,
{
    let g1 = acquire(g, slug).0;
    let i = slot_of(g, slug);
    lemma_slot_is(g1, slug, i);
    assert(g1.held.update(i, false) =~= g.held);
}

} // verus!
