//! Hashed sets of plain values, backed by an outside hasher.
//!
//! The per-call bookkeeping of the engine — identities already visited by
//! a recursion guard, keyword names already consumed by the arguments
//! validator — lives in `ahash`'s hashed sets. The sets are opaque here;
//! their contents are named by uninterpreted functions, and each
//! operation is a trusted wrapper whose contract states what the
//! underlying set operation does to the contents.

use vstd::prelude::*;

use ahash::AHashSet;

verus! {

/// A set of 64-bit identities.
#[verifier::external_body]
pub struct IdSet {
    inner: AHashSet<u64>,
}

/// The contents of an [`IdSet`].
pub uninterp spec fn id_set_ids(s: IdSet) -> Set<u64>;

/// Relies on ahash::AHashSet::new: a freshly created set is empty.
#[verifier::external_body]
pub fn id_set_new() -> (s: IdSet)
    ensures
        id_set_ids(s) == Set::<u64>::empty(),
{
    IdSet { inner: AHashSet::new() }
}

/// Relies on std's HashSet::insert, reached through ahash's AHashSet:
/// the element is added to the set.
#[verifier::external_body]
pub fn id_set_insert(s: &mut IdSet, id: u64)
    ensures
        id_set_ids(*final(s)) == id_set_ids(*old(s)).insert(id),
{
    s.inner.insert(id);
}

/// Relies on std's HashSet::remove, reached through ahash's AHashSet:
/// the element is taken out of the set.
#[verifier::external_body]
pub fn id_set_remove(s: &mut IdSet, id: u64)
    ensures
        id_set_ids(*final(s)) == id_set_ids(*old(s)).remove(id),
{
    s.inner.remove(&id);
}

/// Relies on std's HashSet::contains, reached through ahash's AHashSet:
/// whether the element is in the set.
#[verifier::external_body]
pub fn id_set_contains(s: &IdSet, id: u64) -> (r: bool)
    ensures
        r == id_set_ids(*s).contains(id),
{
    s.inner.contains(&id)
}

/// Relies on the Clone of std's HashSet, reached through ahash's
/// AHashSet: the copy holds the same elements.
#[verifier::external_body]
pub fn id_set_duplicate(s: &IdSet) -> (r: IdSet)
    ensures
        id_set_ids(r) == id_set_ids(*s),
{
    IdSet { inner: s.inner.clone() }
}

/// A set of strings, compared by their text.
#[verifier::external_body]
pub struct StrSet {
    inner: AHashSet<String>,
}

/// The contents of a [`StrSet`], as the set of texts it holds.
pub uninterp spec fn str_set_strs(s: StrSet) -> Set<Seq<char>>;

/// Relies on ahash::AHashSet::new: a freshly created set is empty.
#[verifier::external_body]
pub fn str_set_new() -> (s: StrSet)
    ensures
        str_set_strs(s) == Set::<Seq<char>>::empty(),
{
    StrSet { inner: AHashSet::new() }
}

/// Relies on std's HashSet::insert, reached through ahash's AHashSet,
/// with String keys hashed and compared by their text: the text is added
/// to the set.
#[verifier::external_body]
pub fn str_set_insert(s: &mut StrSet, k: String)
    ensures
        str_set_strs(*final(s)) == str_set_strs(*old(s)).insert(k@),
{
    s.inner.insert(k);
}

/// Relies on std's HashSet::contains, reached through ahash's AHashSet,
/// with `&str` borrowed lookup: whether the text is in the set.
#[verifier::external_body]
pub fn str_set_contains(s: &StrSet, k: &str) -> (r: bool)
    ensures
        r == str_set_strs(*s).contains(k@),
{
    s.inner.contains(k)
}

} // verus!
