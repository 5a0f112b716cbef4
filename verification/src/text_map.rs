//! Maps from names to text values.

use vstd::prelude::*;
use crate::keyed::{
    distinct, find_key, has_key, index_of, keys_of, lemma_index_of, lemma_index_of_push,
};

verus! {

/// A map from names to text values, as a configuration writes them. No
/// name occurs twice.
#[derive(Debug)]
pub struct TextMap {
    fields: Vec<(String, String)>,
}

/// The map that a list of fields stands for.
spec fn fields_map(fields: Seq<(String, String)>) -> Map<Seq<char>, Seq<char>> {
    Map::new(
        |name: Seq<char>| has_key(keys_of(fields), name),
        |name: Seq<char>| fields[index_of(keys_of(fields), name)].1@,
    )
}

impl View for TextMap {
    type V = Map<Seq<char>, Seq<char>>;

    closed spec fn view(&self) -> Map<Seq<char>, Seq<char>> {
        fields_map(self.fields@)
    }
}

impl TextMap {
    /// No name occurs twice.
    #[verifier::type_invariant]
    spec fn well_formed(self) -> bool {
        distinct(keys_of(self.fields@))
    }

    /// The empty map.
    pub fn new() -> (map: TextMap)
        ensures
            map@ == Map::<Seq<char>, Seq<char>>::empty(),
    {
        let map = TextMap { fields: Vec::new() };
        assert(map@ =~= Map::<Seq<char>, Seq<char>>::empty());
        map
    }

    /// Sets `name` to `value`, replacing what it held.
    pub fn insert(&mut self, name: String, value: String)
        ensures
            final(self)@ == old(self)@.insert(name@, value@),
    {
        proof {
            use_type_invariant(&*self);
        }
        let mut fields: Vec<(String, String)> = Vec::new();
        std::mem::swap(&mut fields, &mut self.fields);
        let ghost before = fields@;
        let ghost keys = keys_of(before);
        match find_key(&fields, name.as_str()) {
            Some(i) => {
                fields.set(i, (name, value));
                proof {
                    lemma_index_of(keys, name@);
                    assert(keys_of(fields@) =~= keys);
                    assert forall|other: Seq<char>| has_key(keys, other) implies fields_map(
                        fields@,
                    )[other] == fields_map(before).insert(name@, value@)[other] by {
                        lemma_index_of(keys, other);
                    }
                }
            },
            None => {
                fields.push((name, value));
                proof {
                    assert(keys_of(fields@) =~= keys.push(name@));
                    assert forall|other: Seq<char>|
                        has_key(keys_of(fields@), other) == (other == name@ || has_key(
                            keys,
                            other,
                        )) by {
                        lemma_index_of_push(keys, name@, other);
                    }
                    assert forall|other: Seq<char>|
                        has_key(keys_of(fields@), other) implies fields_map(fields@)[other]
                        == fields_map(before).insert(name@, value@)[other] by {
                        lemma_index_of_push(keys, name@, other);
                        lemma_index_of(keys, other);
                    }
                    assert forall|i: int, j: int| 0 <= i < j < fields@.len() implies keys_of(
                        fields@,
                    )[i] != keys_of(fields@)[j] by {
                        lemma_index_of(keys, name@);
                    }
                }
            },
        }
        assert(fields_map(fields@) =~= fields_map(before).insert(name@, value@));
        self.fields = fields;
    }

    /// The value under `name`, `None` where the map has no such name.
    pub fn get(&self, name: &str) -> (value: Option<&str>)
        ensures
            value is Some <==> self@.contains_key(name@),
            value matches Some(text) ==> text@ == self@[name@],
    {
        match find_key(&self.fields, name) {
            Some(i) => Some(self.fields[i].1.as_str()),
            None => None,
        }
    }
}

impl Clone for TextMap {
    /// A map with the same entries.
    fn clone(&self) -> (copy: TextMap)
        ensures
            copy@ == self@,
    {
        proof {
            use_type_invariant(self);
        }
        let mut fields: Vec<(String, String)> = Vec::new();
        let mut i: usize = 0;
        while i < self.fields.len()
            invariant
                i <= self.fields@.len(),
                fields@.len() == i,
                forall|j: int| 0 <= j < i ==> fields@[j] == self.fields@[j],
            decreases self.fields@.len() - i,
        {
            fields.push((self.fields[i].0.clone(), self.fields[i].1.clone()));
            i += 1;
        }
        assert(fields@ =~= self.fields@);
        TextMap { fields }
    }
}

} // verus!
