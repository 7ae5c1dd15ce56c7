//! The `Fx` hash collections, as the verified code sees them.
//!
//! `FxHashSet` and `FxHashMap` are std's `HashSet` and `HashMap` with the
//! `FxHasher` of `rustc_data_structures::fx`. Verus cannot look inside them, so
//! each gets a name for what it holds, and every operation the crate performs
//! on them goes through one of the small functions below. Their contracts are
//! trusted: they restate what std documents for the method they call, for keys
//! that are strings or pairs of strings.

use rustc_data_structures::fx::{FxHashMap, FxHashSet};
use vstd::prelude::*;

verus! {

/// `rustc_data_structures::fx::FxHasher`, the hasher state. Opaque.
#[verifier::external_type_specification]
#[verifier::external_body]
pub struct ExFxHasher(rustc_data_structures::fx::FxHasher);

/// `core::hash::BuildHasherDefault`, the hasher factory that the `Fx`
/// collections are parameterised by. Opaque.
#[verifier::external_type_specification]
#[verifier::external_body]
#[verifier::reject_recursive_types(H)]
pub struct ExBuildHasherDefault<H>(core::hash::BuildHasherDefault<H>);

/// The index of a registry: from owning type and field name to a slot.
pub type SlotIndex = FxHashMap<(String, String), usize>;

/// What a `SlotIndex` holds: the slot of each pair of character sequences.
pub type Slots = Map<(Seq<char>, Seq<char>), usize>;

/// The strings that a set holds, each as its sequence of characters.
pub uninterp spec fn held_names(s: FxHashSet<String>) -> Set<Seq<char>>;

/// The slot that a map assigns to each pair of strings it has as a key.
pub uninterp spec fn held_slots(m: SlotIndex) -> Slots;

/// `FxHashSet::default()`. Trusted: the new set holds nothing.
#[verifier::external_body]
pub(crate) fn names_empty() -> (s: FxHashSet<String>)
    ensures
        held_names(s) == Set::<Seq<char>>::empty(),
{
    FxHashSet::default()
}

/// `HashSet::insert`. Trusted: afterwards the set holds what it held and
/// `name`; the result tells whether `name` was absent before.
#[verifier::external_body]
pub(crate) fn names_insert(s: &mut FxHashSet<String>, name: String) -> (fresh: bool)
    ensures
        held_names(*final(s)) == held_names(*old(s)).insert(name@),
        fresh == !held_names(*old(s)).contains(name@),
{
    s.insert(name)
}

/// `HashSet::contains`. Trusted: the result tells whether the set holds a
/// string with the characters of `name`.
#[verifier::external_body]
pub(crate) fn names_contains(s: &FxHashSet<String>, name: &str) -> (found: bool)
    ensures
        found == held_names(*s).contains(name@),
{
    s.contains(name)
}

/// `FxHashMap::default()`. Trusted: the new map has no key.
#[verifier::external_body]
pub(crate) fn slots_empty() -> (m: SlotIndex)
    ensures
        held_slots(m) == Slots::empty(),
{
    FxHashMap::default()
}

/// `HashMap::insert`. Trusted: afterwards `key` maps to `slot` and every other
/// key is as before; the result is the slot that `key` had, if it had one.
#[verifier::external_body]
pub(crate) fn slots_insert(m: &mut SlotIndex, key: (String, String), slot: usize) -> (previous:
    Option<usize>)
    ensures
        held_slots(*final(m)) == held_slots(*old(m)).insert((key.0@, key.1@), slot),
        previous == if held_slots(*old(m)).contains_key((key.0@, key.1@)) {
            Some(held_slots(*old(m))[(key.0@, key.1@)])
        } else {
            None
        },
{
    m.insert(key, slot)
}

/// `HashMap::get`. Trusted: the result is the slot of `key`, and `None`
/// exactly when the map has no such key.
#[verifier::external_body]
pub(crate) fn slots_get<'a>(m: &'a SlotIndex, key: &(String, String)) -> (slot: Option<&'a usize>)
    ensures
        slot == if held_slots(*m).contains_key((key.0@, key.1@)) {
            Some(&held_slots(*m)[(key.0@, key.1@)])
        } else {
            None
        },
{
    m.get(key)
}

} // verus!
