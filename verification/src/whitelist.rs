//! The whitelist of one field: the names of the functions that may mutate it.

use crate::fx::{held_names, names_contains, names_empty, names_insert};
use rustc_data_structures::fx::FxHashSet;
use vstd::prelude::*;

verus! {

/// The character sequences of a list of strings, in order.
pub open spec fn texts(names: Seq<String>) -> Seq<Seq<char>> {
    names.map_values(|s: String| s@)
}

/// `names` with `name` added at the end, unless it is there already.
pub open spec fn with_name(names: Seq<Seq<char>>, name: Seq<char>) -> Seq<Seq<char>> {
    if names.contains(name) {
        names
    } else {
        names.push(name)
    }
}

/// `names` with each of `more` added in turn.
pub open spec fn with_names(names: Seq<Seq<char>>, more: Seq<Seq<char>>) -> Seq<Seq<char>>
    decreases more.len(),
{
    if more.len() == 0 {
        names
    } else {
        with_name(with_names(names, more.drop_last()), more.last())
    }
}

/// A name is on a list to which names were added if it was on it before or is
/// one of the added names.
pub proof fn lemma_with_names_contains(names: Seq<Seq<char>>, more: Seq<Seq<char>>, name: Seq<char>)
    ensures
        with_names(names, more).contains(name) <==> names.contains(name) || more.contains(name),
    decreases more.len(),
{
    if more.len() > 0 {
        let sofar = with_names(names, more.drop_last());
        lemma_with_names_contains(names, more.drop_last(), name);
        assert(more.drop_last().push(more.last()) =~= more);
        if more.contains(name) {
            let i = choose|i: int| 0 <= i < more.len() && more[i] == name;
            if i < more.len() - 1 {
                assert(more.drop_last()[i] == name);
            }
        }
        if more.drop_last().contains(name) {
            let i = choose|i: int| 0 <= i < more.drop_last().len() && more.drop_last()[i] == name;
            assert(more[i] == name);
        }
        if sofar.contains(more.last()) {
        } else {
            let grown = sofar.push(more.last());
            assert(grown[grown.len() - 1] == more.last());
            if sofar.contains(name) {
                let i = choose|i: int| 0 <= i < sofar.len() && sofar[i] == name;
                assert(grown[i] == name);
            }
            if grown.contains(name) {
                let i = choose|i: int| 0 <= i < grown.len() && grown[i] == name;
                if i < sofar.len() {
                    assert(sofar[i] == name);
                }
            }
        }
        assert(more[more.len() - 1] == more.last());
    }
}

/// Adding two lists of names one after the other is adding their
/// concatenation.
pub proof fn lemma_with_names_concat(
    names: Seq<Seq<char>>,
    a: Seq<Seq<char>>,
    b: Seq<Seq<char>>,
)
    ensures
        with_names(with_names(names, a), b) == with_names(names, a + b),
    decreases b.len(),
{
    if b.len() == 0 {
        assert(a + b =~= a);
    } else {
        lemma_with_names_concat(names, a, b.drop_last());
        assert((a + b).drop_last() =~= a + b.drop_last());
        assert((a + b).last() == b.last());
    }
}

/// What a whitelist permits after names were added is what it permitted
/// before together with the added names, and no name is listed twice.
pub proof fn lemma_with_names_is_union(names: Seq<Seq<char>>, more: Seq<Seq<char>>)
    requires
        names.no_duplicates(),
    ensures
        with_names(names, more).no_duplicates(),
        with_names(names, more).to_set() == names.to_set().union(more.to_set()),
    decreases more.len(),
{
    if more.len() == 0 {
        assert(more.to_set() =~= Set::<Seq<char>>::empty());
        assert(names.to_set().union(more.to_set()) =~= names.to_set());
    } else {
        let sofar = with_names(names, more.drop_last());
        lemma_with_names_is_union(names, more.drop_last());
        more.drop_last().lemma_push_to_set_commute(more.last());
        assert(more.drop_last().push(more.last()) =~= more);
        if !sofar.contains(more.last()) {
            sofar.lemma_push_to_set_commute(more.last());
        }
        assert(with_names(names, more).to_set() =~= names.to_set().union(more.to_set()));
    }
}

/// The functions permitted to mutate one field.
///
/// As a set it is `allowed_functions`; `listed` keeps the same names in the
/// order in which they were first added, so that whatever is reported about
/// the whitelist reads the same on every run.
pub struct FieldsMutatedByWhitelist {
    allowed_functions: FxHashSet<String>,
    listed: Vec<String>,
}

impl View for FieldsMutatedByWhitelist {
    type V = Seq<Seq<char>>;

    /// The permitted names, in the order of their first addition.
    closed spec fn view(&self) -> Seq<Seq<char>> {
        texts(self.listed@)
    }
}

impl FieldsMutatedByWhitelist {
    /// The set and the list hold the same names, the list each of them once.
    pub closed spec fn wf(&self) -> bool {
        &&& texts(self.listed@).no_duplicates()
        &&& held_names(self.allowed_functions) == texts(self.listed@).to_set()
    }

    /// Whether `function_name` is permitted.
    pub open spec fn permits(&self, function_name: Seq<char>) -> bool {
        self@.contains(function_name)
    }

    /// A well-formed whitelist lists no name twice.
    pub proof fn lemma_names_are_distinct(&self)
        requires
            self.wf(),
        ensures
            self@.no_duplicates(),
    {
    }

    /// A whitelist that permits no function.
    pub fn new() -> (r: Self)
        ensures
            r.wf(),
            r@ == Seq::<Seq<char>>::empty(),
    {
        let r = FieldsMutatedByWhitelist { allowed_functions: names_empty(), listed: Vec::new() };
        assert(texts(r.listed@) =~= Seq::<Seq<char>>::empty());
        assert(texts(r.listed@).to_set() =~= Set::<Seq<char>>::empty());
        r
    }

    /// Permits `function_name`. Adding a name twice changes nothing.
    pub fn add_function(&mut self, function_name: &str)
        requires
            old(self).wf(),
        ensures
            final(self).wf(),
            final(self)@ == with_name(old(self)@, function_name@),
    {
        let fresh = names_insert(&mut self.allowed_functions, function_name.to_owned());
        if fresh {
            self.listed.push(function_name.to_owned());
            assert(texts(self.listed@) =~= texts(old(self).listed@).push(function_name@));
            proof {
                texts(old(self).listed@).lemma_push_to_set_commute(function_name@);
            }
        } else {
            assert(held_names(self.allowed_functions) =~= held_names(old(self).allowed_functions));
        }
    }

    /// Whether `function_name` is permitted.
    pub fn allows(&self, function_name: &str) -> (r: bool)
        requires
            self.wf(),
        ensures
            r == self.permits(function_name@),
    {
        names_contains(&self.allowed_functions, function_name)
    }

    /// The permitted names as a set.
    pub fn allowed_functions(&self) -> (s: &FxHashSet<String>)
        requires
            self.wf(),
        ensures
            held_names(*s) == self@.to_set(),
    {
        &self.allowed_functions
    }

    /// The permitted names, in the order of their first addition.
    pub fn functions(&self) -> (names: &Vec<String>)
        ensures
            texts(names@) == self@,
    {
        &self.listed
    }

    /// Whether no function is permitted.
    pub fn is_empty(&self) -> (r: bool)
        ensures
            r == (self@.len() == 0),
    {
        self.listed.len() == 0
    }
}

} // verus!
