//! Cycle and depth protection for recursive walks.
//!
//! Two independent guards exist at run time: one scoped to a single
//! top-level validate call and one to a single serialize call; neither is
//! shared across calls. A guard tracks the identities of the values on
//! the current path and the current depth. Entering an identity already
//! on the path fails, as does exceeding a fixed depth ceiling — the
//! backstop for values that are equal but distinct, or carry no identity.
//! Enters and exits must nest like a stack: callers run the exit on every
//! path out, so the depth returns to its pre-call value and can never go
//! negative.

use vstd::prelude::*;

use crate::hash_sets::{
    id_set_contains, id_set_duplicate, id_set_ids, id_set_insert, id_set_new, id_set_remove,
    IdSet,
};

verus! {

/// The depth ceiling of every guard.
pub const MAX_RECURSION_DEPTH: u16 = 200;

/// Why a guard refused an entry. Either way the walk that hit it stops
/// with a circular-reference failure.
#[derive(Clone, Copy, Debug, PartialEq, Eq, Structural)]
pub enum RecursionError {
    /// The identity is already on the current path.
    IdRepeated,
    /// The depth ceiling was reached.
    DepthExceeded,
}

/// The mathematical state of a guard.
pub struct GuardState {
    pub ids: Set<u64>,
    pub depth: int,
}

/// The effect of entering a value's identity: refuse a repeat or an
/// over-deep path, otherwise record the identity and deepen the path.
pub open spec fn guard_enter(s: GuardState, id: u64) -> Result<GuardState, RecursionError> {
    if s.ids.contains(id) {
        Err(RecursionError::IdRepeated)
    } else if s.depth >= MAX_RECURSION_DEPTH as int {
        Err(RecursionError::DepthExceeded)
    } else {
        Ok(GuardState { ids: s.ids.insert(id), depth: s.depth + 1 })
    }
}

/// The effect of leaving a value's identity.
pub open spec fn guard_exit(s: GuardState, id: u64) -> GuardState {
    GuardState { ids: s.ids.remove(id), depth: s.depth - 1 }
}

/// The effect of entering a value: the identity guard for values that
/// carry an identity, the depth ceiling alone for those that do not.
pub open spec fn guard_enter_opt(s: GuardState, id: Option<u64>) -> Result<
    GuardState,
    RecursionError,
> {
    match id {
        Some(i) => guard_enter(s, i),
        None => if s.depth >= MAX_RECURSION_DEPTH as int {
            Err(RecursionError::DepthExceeded)
        } else {
            Ok(GuardState { ids: s.ids, depth: s.depth + 1 })
        },
    }
}

/// The effect of leaving a value.
pub open spec fn guard_exit_opt(s: GuardState, id: Option<u64>) -> GuardState {
    match id {
        Some(i) => guard_exit(s, i),
        None => GuardState { ids: s.ids, depth: s.depth - 1 },
    }
}

/// The visited identities and depth counter of one guard.
pub struct RecursionInfo {
    ids: IdSet,
    depth: u16,
}

impl View for RecursionInfo {
    type V = GuardState;

    closed spec fn view(&self) -> GuardState {
        GuardState { ids: id_set_ids(self.ids), depth: self.depth as int }
    }
}

/// A guard's depth is never negative.
pub broadcast proof fn lemma_guard_depth_nonneg(r: &RecursionInfo)
    ensures
        0 <= (#[trigger] r@).depth,
{
}

impl RecursionInfo {
    /// A fresh guard: nothing visited, depth zero.
    pub fn new() -> (r: RecursionInfo)
        ensures
            r@.ids == Set::<u64>::empty(),
            r@.depth == 0,
    {
        RecursionInfo { ids: id_set_new(), depth: 0 }
    }

    /// A copy of this guard, equal to it in the model.
    pub fn duplicate(&self) -> (r: RecursionInfo)
        ensures
            r@ == self@,
    {
        RecursionInfo { ids: id_set_duplicate(&self.ids), depth: self.depth }
    }

    /// Record an identity and deepen the path, or refuse. On refusal the
    /// guard is unchanged.
    pub fn enter(&mut self, id: u64) -> (r: Result<u64, RecursionError>)
        ensures
            match r {
                Ok(rid) => rid == id && guard_enter(old(self)@, id) == Ok::<
                    GuardState,
                    RecursionError,
                >(final(self)@),
                Err(e) => guard_enter(old(self)@, id) == Err::<GuardState, RecursionError>(e)
                    && final(self)@ == old(self)@,
            },
    {
        if id_set_contains(&self.ids, id) {
            Err(RecursionError::IdRepeated)
        } else if self.depth >= MAX_RECURSION_DEPTH {
            Err(RecursionError::DepthExceeded)
        } else {
            id_set_insert(&mut self.ids, id);
            self.depth = self.depth + 1;
            Ok(id)
        }
    }

    /// Record a value's optional identity and deepen the path, or
    /// refuse. On refusal the guard is unchanged.
    pub fn enter_opt(&mut self, id: Option<u64>) -> (r: Result<(), RecursionError>)
        ensures
            match r {
                Ok(()) => guard_enter_opt(old(self)@, id) == Ok::<GuardState, RecursionError>(
                    final(self)@,
                ),
                Err(e) => guard_enter_opt(old(self)@, id) == Err::<GuardState, RecursionError>(e)
                    && final(self)@ == old(self)@,
            },
    {
        match id {
            Some(i) => match self.enter(i) {
                Ok(_) => Ok(()),
                Err(e) => Err(e),
            },
            None => {
                if self.depth >= MAX_RECURSION_DEPTH {
                    Err(RecursionError::DepthExceeded)
                } else {
                    self.depth = self.depth + 1;
                    Ok(())
                }
            },
        }
    }

    /// Forget a value's optional identity and shorten the path.
    pub fn exit_opt(&mut self, id: Option<u64>)
        requires
            old(self)@.depth >= 1,
        ensures
            final(self)@ == guard_exit_opt(old(self)@, id),
    {
        match id {
            Some(i) => self.exit(i),
            None => {
                self.depth = self.depth - 1;
            },
        }
    }

    /// Forget an identity and shorten the path. Runs only as the balanced
    /// counterpart of a successful enter, so the depth is positive.
    pub fn exit(&mut self, id: u64)
        requires
            old(self)@.depth >= 1,
        ensures
            final(self)@ == guard_exit(old(self)@, id),
    {
        id_set_remove(&mut self.ids, id);
        self.depth = self.depth - 1;
    }
}

/// The guard scoped to a single top-level serialize call.
pub struct SerRecursionGuard {
    pub info: RecursionInfo,
}

impl View for SerRecursionGuard {
    type V = GuardState;

    open spec fn view(&self) -> GuardState {
        self.info@
    }
}

impl SerRecursionGuard {
    /// A fresh guard for one serialize call.
    pub fn new() -> (r: SerRecursionGuard)
        ensures
            r@.ids == Set::<u64>::empty(),
            r@.depth == 0,
    {
        SerRecursionGuard { info: RecursionInfo::new() }
    }

    /// A copy of this guard, equal to it in the model.
    pub fn duplicate(&self) -> (r: SerRecursionGuard)
        ensures
            r@ == self@,
    {
        SerRecursionGuard { info: self.info.duplicate() }
    }

    /// Record a value's identity before serializing its contents; the
    /// returned identity is handed back to [`Self::pop`] afterwards.
    pub fn add(&mut self, id: u64) -> (r: Result<u64, RecursionError>)
        ensures
            match r {
                Ok(rid) => rid == id && guard_enter(old(self)@, id) == Ok::<
                    GuardState,
                    RecursionError,
                >(final(self)@),
                Err(e) => guard_enter(old(self)@, id) == Err::<GuardState, RecursionError>(e)
                    && final(self)@ == old(self)@,
            },
    {
        self.info.enter(id)
    }

    /// Forget a value's identity after serializing its contents.
    pub fn pop(&mut self, id: u64)
        requires
            old(self)@.depth >= 1,
        ensures
            final(self)@ == guard_exit(old(self)@, id),
    {
        self.info.exit(id)
    }
}

/// Entering the same identity twice without an intervening exit fails
/// with a repeat-identity refusal.
pub proof fn lemma_guard_repeat_entry(s: GuardState, id: u64, s1: GuardState)
    requires
        guard_enter(s, id) == Ok::<GuardState, RecursionError>(s1),
    ensures
        guard_enter(s1, id) == Err::<GuardState, RecursionError>(RecursionError::IdRepeated),
{
}

/// One balanced enter/exit pair leaves the guard exactly as it started:
/// the identity is forgotten and the depth returns to its old value.
pub proof fn lemma_guard_balanced_pair(s: GuardState, id: u64, s1: GuardState)
    requires
        guard_enter(s, id) == Ok::<GuardState, RecursionError>(s1),
    ensures
        guard_exit(s1, id) == s,
{
    assert(s.ids.insert(id).remove(id) =~= s.ids);
}

/// After an exit, the same identity may be entered again.
pub proof fn lemma_guard_reentry_after_exit(s: GuardState, id: u64, s1: GuardState)
    requires
        guard_enter(s, id) == Ok::<GuardState, RecursionError>(s1),
    ensures
        guard_enter(guard_exit(s1, id), id) == Ok::<GuardState, RecursionError>(s1),
{
    lemma_guard_balanced_pair(s, id, s1);
}

/// A balanced enter/exit pair on an optional identity leaves the guard
/// exactly as it started.
pub proof fn lemma_guard_balanced_pair_opt(s: GuardState, id: Option<u64>, s1: GuardState)
    requires
        guard_enter_opt(s, id) == Ok::<GuardState, RecursionError>(s1),
    ensures
        guard_exit_opt(s1, id) == s,
{
    match id {
        Some(i) => {
            lemma_guard_balanced_pair(s, i, s1);
        },
        None => {},
    }
}

/// The state after entering every identity of a list in order, if each
/// entry succeeds.
pub open spec fn guard_enter_all(s: GuardState, ids: Seq<u64>) -> Option<GuardState>
    decreases ids.len(),
{
    if ids.len() == 0 {
        Some(s)
    } else {
        match guard_enter(s, ids[0]) {
            Ok(s1) => guard_enter_all(s1, ids.drop_first()),
            Err(_) => None,
        }
    }
}

/// The state after exiting every identity of a list, last first.
pub open spec fn guard_exit_all(s: GuardState, ids: Seq<u64>) -> GuardState
    decreases ids.len(),
{
    if ids.len() == 0 {
        s
    } else {
        guard_exit_all(guard_exit(s, ids[ids.len() - 1]), ids.drop_last())
    }
}

/// If a whole enter sequence succeeds, so does every prefix of it, and
/// exiting the last identity from the full state lands exactly on the
/// state the prefix had reached.
pub proof fn lemma_guard_enter_all_prefix(s: GuardState, ids: Seq<u64>, s1: GuardState)
    requires
        ids.len() >= 1,
        guard_enter_all(s, ids) == Some(s1),
    ensures
        guard_enter_all(s, ids.drop_last()) is Some,
        guard_exit(s1, ids[ids.len() - 1]) == guard_enter_all(s, ids.drop_last()).unwrap(),
    decreases ids.len(),
{
    let first = ids[0];
    let mid = guard_enter(s, first).unwrap();
    let rest = ids.drop_first();
    if ids.len() == 1 {
        assert(rest.len() == 0);
        assert(s1 == mid);
        assert(ids.drop_last() =~= Seq::<u64>::empty());
        lemma_guard_balanced_pair(s, first, s1);
    } else {
        lemma_guard_enter_all_prefix(mid, rest, s1);
        assert(rest.drop_last() =~= ids.drop_last().drop_first());
        assert(rest[rest.len() - 1] == ids[ids.len() - 1]);
        assert(ids.drop_last()[0] == first);
        assert(guard_enter_all(s, ids.drop_last()) == guard_enter_all(mid, rest.drop_last()));
    }
}

/// Any number of balanced, well-nested enter/exit pairs returns the
/// guard to its starting state: the visited set and the depth are
/// exactly what they were before the first enter.
pub proof fn lemma_guard_balanced_nest(s: GuardState, ids: Seq<u64>, s1: GuardState)
    requires
        guard_enter_all(s, ids) == Some(s1),
    ensures
        guard_exit_all(s1, ids) == s,
    decreases ids.len(),
{
    if ids.len() > 0 {
        lemma_guard_enter_all_prefix(s, ids, s1);
        let s_pre = guard_enter_all(s, ids.drop_last()).unwrap();
        assert(guard_exit(s1, ids[ids.len() - 1]) == s_pre);
        lemma_guard_balanced_nest(s, ids.drop_last(), s_pre);
    }
}

} // verus!
