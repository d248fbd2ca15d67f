//! The definitions resolver: an arena of numbered slots for recursive
//! and forward-referenced schema nodes.
//!
//! A referenced-but-not-yet-built definition is allocated a slot at
//! once; the node is compiled later and the slot patched in place, so
//! cyclic type graphs compile without unbounded recursion. At run time
//! a slot reference indirects through the finished slot table.

use vstd::prelude::*;

use vstd::pervasive::VecAdditionalExecFns;

use crate::errors::{SchemaError, SchemaErrorKind};

verus! {

/// The slot arena while a schema is being compiled: a name per slot,
/// and the built node once the slot has been patched.
pub struct DefinitionsBuilder<T> {
    names: Vec<String>,
    slots: Vec<Option<T>>,
}

/// A slot of the second arena that the first did not already hold
/// patched: either it is new, or it existed unpatched.
pub open spec fn spec_new_fill<T>(
    a: DefinitionsBuilder<T>,
    b: DefinitionsBuilder<T>,
    i: int,
) -> bool {
    &&& 0 <= i < b.spec_len()
    &&& b.spec_slot(i) is Some
    &&& (i >= a.spec_len() || a.spec_slot(i) is None)
}

/// One arena state extends another: no allocated slot is lost, no
/// existing slot is renamed, and a patched slot stays patched as it was.
pub open spec fn spec_arena_extends<T>(a: DefinitionsBuilder<T>, b: DefinitionsBuilder<T>) -> bool {
    &&& b.spec_len() >= a.spec_len()
    &&& forall|i: int| 0 <= i < a.spec_len() ==> #[trigger] b.spec_name(i) == a.spec_name(i)
    &&& forall|i: int|
        0 <= i < a.spec_len() && a.spec_slot(i) is Some ==> #[trigger] b.spec_slot(i)
            == a.spec_slot(i)
}

impl<T> DefinitionsBuilder<T> {
    /// One name per slot.
    pub closed spec fn wf(&self) -> bool {
        self.names@.len() == self.slots@.len()
    }

    /// The number of slots allocated so far.
    pub closed spec fn spec_len(&self) -> int {
        self.names@.len() as int
    }

    /// The name of a slot.
    pub closed spec fn spec_name(&self, i: int) -> Seq<char> {
        self.names@[i]@
    }

    /// The contents of a slot.
    pub closed spec fn spec_slot(&self, i: int) -> Option<T> {
        self.slots@[i]
    }

    /// All slot names, in slot order.
    pub closed spec fn spec_names(&self) -> Seq<Seq<char>> {
        Seq::new(self.names@.len(), |i: int| self.names@[i]@)
    }

    /// The name table agrees with the per-slot names.
    pub proof fn lemma_names_agree(&self)
        requires
            self.wf(),
        ensures
            self.spec_names().len() == self.spec_len(),
            forall|i: int|
                0 <= i < self.spec_len() ==> #[trigger] self.spec_names()[i] == self.spec_name(i),
    {
    }

    /// A copy of the name table, one name per slot.
    #[verifier::loop_isolation(false)]
    pub fn names_snapshot(&self) -> (r: Vec<String>)
        requires
            self.wf(),
        ensures
            r@.len() == self.spec_len(),
            forall|i: int| 0 <= i < r@.len() ==> (#[trigger] r@[i])@ == self.spec_name(i),
    {
        let mut out: Vec<String> = Vec::new();
        let mut i: usize = 0;
        while i < self.names.len()
            invariant
                i <= self.names@.len(),
                out@.len() == i,
                forall|j: int| 0 <= j < i ==> (#[trigger] out@[j])@ == self.names@[j]@,
            decreases self.names@.len() - i,
        {
            out.push(self.names[i].clone());
            i = i + 1;
        }
        out
    }

    /// An empty arena.
    pub fn new() -> (r: DefinitionsBuilder<T>)
        ensures
            r.wf(),
            r.spec_len() == 0,
    {
        DefinitionsBuilder { names: Vec::new(), slots: Vec::new() }
    }

    /// The slot of a name, allocating an unpatched slot the first time
    /// the name is seen.
    #[verifier::loop_isolation(false)]
    pub fn get_or_reserve(&mut self, name: &str) -> (r: usize)
        requires
            old(self).wf(),
        ensures
            final(self).wf(),
            r < final(self).spec_len(),
            final(self).spec_name(r as int) == name@,
            final(self).spec_len() >= old(self).spec_len(),
            forall|i: int|
                0 <= i < old(self).spec_len() ==> final(self).spec_name(i) == old(self).spec_name(
                    i,
                ) && final(self).spec_slot(i) == old(self).spec_slot(i),
            (r < old(self).spec_len() && old(self).spec_name(r as int) == name@
                && final(self).spec_len() == old(self).spec_len()) || (r as int
                == old(self).spec_len() && final(self).spec_len() == old(self).spec_len() + 1
                && final(self).spec_slot(r as int) is None),
            forall|i: int| 0 <= i < r ==> old(self).spec_name(i) != name@,
    {
        let mut i: usize = 0;
        while i < self.names.len()
            invariant
                i <= self.names@.len(),
                forall|j: int| 0 <= j < i ==> self.names@[j]@ != name@,
        decreases self.names@.len() - i,
        {
            if crate::input::str_eq(self.names[i].as_str(), name) {
                return i;
            }
            i = i + 1;
        }
        self.names.push(<String as vstd::string::StringExecFns>::from_str(name));
        self.slots.push(None);
        self.names.len() - 1
    }

    /// Patch a slot with its built node; a slot may be patched only
    /// once.
    pub fn fill(&mut self, slot: usize, v: T) -> (r: Result<(), SchemaError>)
        requires
            old(self).wf(),
        ensures
            final(self).wf(),
            match r {
                Ok(()) => slot < old(self).spec_len() && old(self).spec_slot(slot as int) is None
                    && final(self).spec_len() == old(self).spec_len() && final(self).spec_slot(
                    slot as int,
                ) == Some(v) && (forall|i: int|
                    0 <= i < old(self).spec_len() ==> final(self).spec_name(i) == old(
                        self,
                    ).spec_name(i)) && (forall|i: int|
                    0 <= i < old(self).spec_len() && i != slot ==> final(self).spec_slot(i) == old(
                        self,
                    ).spec_slot(i)),
                Err(e) => ((slot >= old(self).spec_len() && e.kind
                    == SchemaErrorKind::UnknownDefinition) || (slot < old(self).spec_len()
                    && old(self).spec_slot(slot as int) is Some && e.kind
                    == SchemaErrorKind::DuplicateDefinition)) && *final(self) == *old(self),
            },
    {
        if slot >= self.slots.len() {
            return Err(SchemaError::new(SchemaErrorKind::UnknownDefinition));
        }
        let already = match &self.slots[slot] {
            Some(_) => true,
            None => false,
        };
        if already {
            return Err(SchemaError::new(SchemaErrorKind::DuplicateDefinition));
        }
        self.slots.set(slot, Some(v));
        Ok(())
    }

    /// Finish the arena: every allocated slot must have been patched.
    #[verifier::loop_isolation(false)]
    pub fn finish(self) -> (r: Result<Vec<T>, SchemaError>)
        requires
            self.wf(),
        ensures
            match r {
                Ok(v) => v@.len() == self.spec_len() && (forall|i: int|
                    0 <= i < v@.len() ==> self.spec_slot(i) == Some(v@[i])) && (forall|i: int|
                    0 <= i < self.spec_len() ==> self.spec_slot(i) is Some),
                Err(e) => e.kind == SchemaErrorKind::UnfilledDefinition && (exists|i: int|
                    0 <= i < self.spec_len() && self.spec_slot(i) is None),
            },
    {
        let mut out: Vec<T> = Vec::new();
        let mut slots = self.slots;
        let ghost orig: Seq<Option<T>> = slots@;
        while slots.len() > 0
            invariant
                out@.len() + slots@.len() == orig.len(),
                forall|j: int| 0 <= j < slots@.len() ==> slots@[j] == orig[out@.len() + j],
                forall|j: int| 0 <= j < out@.len() ==> orig[j] == Some(out@[j]),
            decreases slots@.len(),
        {
            match slots.remove(0) {
                Some(v) => {
                    out.push(v);
                },
                None => {
                    proof {
                        assert(self.spec_slot(out@.len() as int) is None);
                    }
                    return Err(SchemaError::new(SchemaErrorKind::UnfilledDefinition));
                },
            }
        }
        Ok(out)
    }
}

} // verus!
