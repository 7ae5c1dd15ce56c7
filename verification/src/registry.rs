//! The registry: which fields carry a whitelist, and what each whitelist permits.

use crate::fx::{held_slots, slots_empty, slots_get, slots_insert, SlotIndex};
use crate::whitelist::{with_name, FieldsMutatedByWhitelist};
use vstd::prelude::*;

verus! {

/// What identifies a field in contracts: the owning type's name and the
/// field's name, as character sequences.
pub type FieldId = (Seq<char>, Seq<char>);

/// A field, named by the type that owns it and by its own name. A key is
/// not changed once it is made.
#[derive(Debug)]
pub struct FieldKey {
    owner: String,
    field: String,
}

impl View for FieldKey {
    type V = FieldId;

    closed spec fn view(&self) -> FieldId {
        (self.owner@, self.field@)
    }
}

impl Clone for FieldKey {
    fn clone(&self) -> (k: Self)
        ensures
            k@ == self@,
    {
        FieldKey { owner: self.owner.clone(), field: self.field.clone() }
    }
}

impl PartialEq for FieldKey {
    fn eq(&self, other: &Self) -> (same: bool) {
        self.owner == other.owner && self.field == other.field
    }
}

impl Eq for FieldKey {

}

impl vstd::std_specs::cmp::PartialEqSpecImpl for FieldKey {
    open spec fn obeys_eq_spec() -> bool {
        true
    }

    /// Two keys are equal when both components are, character by character.
    open spec fn eq_spec(&self, other: &Self) -> bool {
        self@ == other@
    }
}

impl FieldKey {
    /// The key of field `field` of type `owner`.
    pub fn new(owner: &str, field: &str) -> (k: Self)
        ensures
            k@ == (owner@, field@),
    {
        FieldKey { owner: owner.to_owned(), field: field.to_owned() }
    }

    /// The name of the owning type.
    pub fn owner(&self) -> (name: &str)
        ensures
            name@ == self@.0,
    {
        self.owner.as_str()
    }

    /// The name of the field.
    pub fn field(&self) -> (name: &str)
        ensures
            name@ == self@.1,
    {
        self.field.as_str()
    }

    /// The two components as a pair of owned strings, the form in which the
    /// index is keyed.
    fn pair(&self) -> (p: (String, String))
        ensures
            (p.0@, p.1@) == self@,
    {
        (self.owner.clone(), self.field.clone())
    }
}

/// One field together with its whitelist.
pub struct WhitelistEntry {
    pub key: FieldKey,
    pub whitelist: FieldsMutatedByWhitelist,
}

/// What a registry is in contracts: the annotated fields, each with the names
/// it permits in the order of their first addition. A field that is no key
/// of the map is unrestricted.
pub type Whitelists = Map<FieldId, Seq<Seq<char>>>;

/// The names that `lists` permits for `field`: none if it has no entry.
pub open spec fn names_for(lists: Whitelists, field: FieldId) -> Seq<Seq<char>> {
    if lists.contains_key(field) {
        lists[field]
    } else {
        Seq::empty()
    }
}

/// The whitelists of a compilation unit, by field.
///
/// The entries are kept in the order in which their fields were first
/// declared; `index` finds the entry of a field without a search.
pub struct WhitelistRegistry {
    index: SlotIndex,
    entries: Vec<WhitelistEntry>,
}

impl View for WhitelistRegistry {
    type V = Whitelists;

    closed spec fn view(&self) -> Whitelists {
        Map::new(
            |k: FieldId| held_slots(self.index).contains_key(k),
            |k: FieldId| self.entries@[held_slots(self.index)[k] as int].whitelist@,
        )
    }
}

impl WhitelistRegistry {
    /// Every entry is well formed, and the index and the entries agree: each
    /// entry is found under its own key, and each indexed key leads to the
    /// entry that bears it.
    pub closed spec fn wf(&self) -> bool {
        &&& forall|i: int|
            0 <= i < self.entries@.len() ==> (#[trigger] self.entries@[i]).whitelist.wf()
        &&& forall|i: int|
            0 <= i < self.entries@.len() ==> {
                &&& held_slots(self.index).contains_key((#[trigger] self.entries@[i]).key@)
                &&& held_slots(self.index)[self.entries@[i].key@] == i
            }
        &&& forall|k: FieldId| #[trigger]
            held_slots(self.index).contains_key(k) ==> {
                &&& held_slots(self.index)[k] < self.entries@.len()
                &&& self.entries@[held_slots(self.index)[k] as int].key@ == k
            }
    }

    /// A registry in which no field is annotated.
    pub fn new() -> (r: Self)
        ensures
            r.wf(),
            r@ == Whitelists::empty(),
    {
        let r = WhitelistRegistry { index: slots_empty(), entries: Vec::new() };
        assert(r@ =~= Whitelists::empty());
        r
    }

    /// The whitelist of `key`, or `None` if the field is unrestricted.
    pub fn lookup(&self, key: &FieldKey) -> (found: Option<&FieldsMutatedByWhitelist>)
        requires
            self.wf(),
        ensures
            found is Some <==> self@.contains_key(key@),
            found matches Some(w) ==> w.wf() && w@ == self@[key@],
    {
        let pair = key.pair();
        match slots_get(&self.index, &pair) {
            Some(slot) => Some(&self.entries[*slot].whitelist),
            None => None,
        }
    }

    /// The slot of `key`'s entry, which is created empty if there is none.
    fn slot_of(&mut self, key: &FieldKey) -> (slot: usize)
        requires
            old(self).wf(),
        ensures
            final(self).wf(),
            final(self)@ == old(self)@.insert(key@, names_for(old(self)@, key@)),
            slot < final(self).entries@.len(),
            final(self).entries@[slot as int].key@ == key@,
    {
        let pair = key.pair();
        match slots_get(&self.index, &pair) {
            Some(slot) => {
                let slot = *slot;
                assert(self@ =~= old(self)@.insert(key@, names_for(old(self)@, key@)));
                slot
            },
            None => {
                let slot = self.entries.len();
                self.entries.push(
                    WhitelistEntry { key: key.clone(), whitelist: FieldsMutatedByWhitelist::new() },
                );
                slots_insert(&mut self.index, pair, slot);
                assert(self@ =~= old(self)@.insert(key@, names_for(old(self)@, key@)));
                slot
            },
        }
    }

    /// The entries, in the order in which their fields were first declared:
    /// one for each annotated field, and none besides.
    pub fn entries(&self) -> (all: &Vec<WhitelistEntry>)
        requires
            self.wf(),
        ensures
            forall|i: int|
                0 <= i < all@.len() ==> {
                    &&& (#[trigger] all@[i]).whitelist.wf()
                    &&& self@.contains_key(all@[i].key@)
                    &&& self@[all@[i].key@] == all@[i].whitelist@
                },
            forall|i: int, j: int|
                0 <= i < j < all@.len() ==> (#[trigger] all@[i]).key@ != (#[trigger] all@[j]).key@,
            forall|k: FieldId| #[trigger]
                self@.contains_key(k) ==> exists|i: int|
                    0 <= i < all@.len() && (#[trigger] all@[i]).key@ == k,
    {
        proof {
            let slots = held_slots(self.index);
            assert forall|k: FieldId| #[trigger] self@.contains_key(k) implies exists|i: int|
                0 <= i < self.entries@.len() && (#[trigger] self.entries@[i]).key@ == k by {
                assert(self.entries@[slots[k] as int].key@ == k);
            }
        }
        &self.entries
    }

    /// Marks `key` as annotated. A field that is declared and never given a
    /// name permits no function at all.
    pub fn declare(&mut self, key: &FieldKey)
        requires
            old(self).wf(),
        ensures
            final(self).wf(),
            final(self)@ == old(self)@.insert(key@, names_for(old(self)@, key@)),
    {
        let _ = self.slot_of(key);
    }

    /// Permits `function_name` for `key`, declaring the field if need be.
    /// Inserting the same name again changes nothing.
    pub fn insert(&mut self, key: &FieldKey, function_name: &str)
        requires
            old(self).wf(),
        ensures
            final(self).wf(),
            final(self)@ == old(self)@.insert(
                key@,
                with_name(names_for(old(self)@, key@), function_name@),
            ),
    {
        let slot = self.slot_of(key);
        let ghost before = *self;
        self.entries[slot].whitelist.add_function(function_name);
        proof {
            let slots = held_slots(self.index);
            let was = old(self)@.insert(key@, names_for(old(self)@, key@));
            let now = old(self)@.insert(
                key@,
                with_name(names_for(old(self)@, key@), function_name@),
            );
            assert(before.entries@[slot as int].key@ == key@);
            assert(slots[key@] == slot);
            assert forall|k: FieldId| #[trigger] self@.contains_key(k) implies self@[k] == now[k] by {
                if k != key@ {
                    assert(before.entries@[slots[k] as int].key@ == k);
                    assert(before@.contains_key(k));
                    assert(self@[k] == before@[k]);
                } else {
                    assert(before@.contains_key(key@));
                    assert(before@[key@] == before.entries@[slot as int].whitelist@);
                    assert(was[key@] == names_for(old(self)@, key@));
                }
            }
            assert forall|k: FieldId| self@.contains_key(k) <==> now.contains_key(k) by {
                assert(self@.contains_key(k) <==> before@.contains_key(k));
                assert(before@.contains_key(k) <==> was.contains_key(k));
            }
            assert(self@ =~= now);
        }
    }
}

} // verus!
