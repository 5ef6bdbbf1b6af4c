//! Sets of field names.
use crate::json::{fields, object_keys};
use crate::text::{same_text, views};
use serde_json::Value;
use vstd::prelude::*;
use vstd::std_specs::cmp::PartialEqSpecImpl;

verus! {

/// A set of field names. Each is listed once; the order of the list means nothing.
#[derive(Debug)]
pub struct FieldNames {
    names: Vec<String>,
}

impl View for FieldNames {
    type V = Set<Seq<char>>;

    closed spec fn view(&self) -> Set<Seq<char>> {
        views(self.names@).to_set()
    }
}

impl FieldNames {
    #[verifier::type_invariant]
    closed spec fn distinct(self) -> bool {
        views(self.names@).no_duplicates()
    }

    /// The keys of an object.
    pub fn of_object(object: &serde_json::Map<String, Value>) -> (r: Self)
        ensures
            r@ == fields(*object).dom(),
    {
        FieldNames { names: object_keys(object) }
    }

    /// The names, each once.
    pub fn list(&self) -> (r: &Vec<String>)
        ensures
            views(r@).no_duplicates(),
            views(r@).to_set() == self@,
    {
        proof {
            use_type_invariant(self);
        }
        &self.names
    }

    /// Whether a name is in the set.
    pub fn contains(&self, name: &str) -> (r: bool)
        ensures
            r == self@.contains(name@),
    {
        let ghost all = views(self.names@);
        let mut i: usize = 0;
        while i < self.names.len()
            invariant
                i <= self.names.len(),
                all == views(self.names@),
                forall|k: int| 0 <= k < i ==> #[trigger] all[k] != name@,
            decreases self.names.len() - i,
        {
            if same_text(self.names[i].as_str(), name) {
                assert(all[i as int] == name@);
                return true;
            }
            i += 1;
        }
        false
    }

    /// Whether every name of this set is in the other.
    fn among(&self, other: &Self) -> (r: bool)
        ensures
            r == self@.subset_of(other@),
    {
        let ghost all = views(self.names@);
        let mut i: usize = 0;
        while i < self.names.len()
            invariant
                i <= self.names.len(),
                all == views(self.names@),
                forall|k: int| 0 <= k < i ==> other@.contains(#[trigger] all[k]),
            decreases self.names.len() - i,
        {
            if !other.contains(self.names[i].as_str()) {
                assert(self@.contains(all[i as int]));
                return false;
            }
            i += 1;
        }
        true
    }
}

impl Clone for FieldNames {
    fn clone(&self) -> (r: Self)
        ensures
            r@ == self@,
    {
        proof {
            use_type_invariant(self);
        }
        let names = self.names.clone();
        assert forall|i: int| 0 <= i < self.names@.len() implies names@[i]@ == (
        #[trigger] self.names@[i])@ by {
            assert(cloned(self.names@[i], names@[i]));
        }
        assert(views(names@) =~= views(self.names@));
        FieldNames { names }
    }
}

impl PartialEq for FieldNames {
    fn eq(&self, other: &Self) -> (r: bool) {
        let same = self.among(other) && other.among(self);
        assert(same ==> self@ =~= other@);
        same
    }
}

impl PartialEqSpecImpl for FieldNames {
    open spec fn obeys_eq_spec() -> bool {
        true
    }

    open spec fn eq_spec(&self, other: &Self) -> bool {
        self@ == other@
    }
}

/// The names of an object are its keys: a name is among them where the object has the
/// field, and each is listed once.
pub proof fn law_names_are_the_keys(
    object: serde_json::Map<String, Value>,
    names: FieldNames,
    name: &str,
    contained: bool,
    listed: &Vec<String>,
)
    requires
        call_ensures(FieldNames::of_object, (&object,), names),
        call_ensures(FieldNames::contains, (&names, name), contained),
        call_ensures(FieldNames::list, (&names,), listed),
    ensures
        contained <==> fields(object).contains_key(name@),
        contained <==> exists|i: int| 0 <= i < listed@.len() && #[trigger] listed@[i]@ == name@,
        forall|i: int, j: int|
            0 <= i < j < listed@.len() ==> #[trigger] listed@[i]@ != #[trigger] listed@[j]@,
{
    let all = views(listed@);
    assert(all.to_set() == fields(object).dom());
    assert(all.len() == listed@.len());
    if contained {
        assert(all.to_set().contains(name@));
        let at = all.index_of(name@);
        assert(all[at] == name@);
        assert(listed@[at]@ == name@);
    }
    if exists|i: int| 0 <= i < listed@.len() && #[trigger] listed@[i]@ == name@ {
        let i = choose|i: int| 0 <= i < listed@.len() && #[trigger] listed@[i]@ == name@;
        assert(all[i] == name@);
        assert(all.to_set().contains(name@));
    }
    assert forall|i: int, j: int| 0 <= i < j < listed@.len() implies #[trigger] listed@[i]@
        != #[trigger] listed@[j]@ by {
        assert(all[i] != all[j]);
    }
}

/// Two sets of names are equal where every name is in both or in neither, and a copy has the
/// names of what it was made of.
pub proof fn law_names_are_compared_as_sets(
    left: FieldNames,
    right: FieldNames,
    equal: bool,
    copy: FieldNames,
)
    requires
        call_ensures(<FieldNames as PartialEq>::eq, (&left, &right), equal),
        call_ensures(<FieldNames as Clone>::clone, (&left,), copy),
    ensures
        equal <==> forall|name: Seq<char>| #[trigger]
            left@.contains(name) == right@.contains(name),
        copy@ == left@,
{
    if forall|name: Seq<char>| #[trigger] left@.contains(name) == right@.contains(name) {
        assert(left@ =~= right@);
    }
}

} // verus!
