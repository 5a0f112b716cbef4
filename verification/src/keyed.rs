//! Lists of entries that are found again by a text key.
//!
//! The maps of this library are small and are kept as vectors of
//! `(key, value)` pairs in which no key occurs twice. What the maps share
//! stands here: where a key sits in a list of keys, and the search for it.

use vstd::prelude::*;

verus! {

/// The position of the first occurrence of `key` in `keys`, or the length of
/// `keys` where `key` does not occur.
pub open spec fn index_of(keys: Seq<Seq<char>>, key: Seq<char>) -> int
    decreases keys.len(),
{
    if keys.len() == 0 {
        0
    } else if keys[0] == key {
        0
    } else {
        1 + index_of(keys.drop_first(), key)
    }
}

/// Whether `key` occurs in `keys`.
pub open spec fn has_key(keys: Seq<Seq<char>>, key: Seq<char>) -> bool {
    index_of(keys, key) < keys.len()
}

/// Whether no key occurs twice in `keys`.
pub open spec fn distinct(keys: Seq<Seq<char>>) -> bool {
    forall|i: int, j: int| 0 <= i < j < keys.len() ==> keys[i] != keys[j]
}

/// `index_of` is within bounds, points at `key` where `key` occurs, and
/// nothing before it is `key`.
pub proof fn lemma_index_of(keys: Seq<Seq<char>>, key: Seq<char>)
    ensures
        0 <= index_of(keys, key) <= keys.len(),
        has_key(keys, key) ==> keys[index_of(keys, key)] == key,
        forall|j: int| 0 <= j < index_of(keys, key) ==> keys[j] != key,
    decreases keys.len(),
{
    if keys.len() > 0 && keys[0] != key {
        let rest = keys.drop_first();
        lemma_index_of(rest, key);
        assert forall|j: int| 0 <= j < index_of(keys, key) implies keys[j] != key by {
            if j > 0 {
                assert(keys[j] == rest[j - 1]);
            }
        }
    }
}

/// A position that holds `key`, with no `key` before it, is `index_of`.
pub proof fn lemma_index_of_first(keys: Seq<Seq<char>>, key: Seq<char>, i: int)
    requires
        0 <= i < keys.len(),
        keys[i] == key,
        forall|j: int| 0 <= j < i ==> keys[j] != key,
    ensures
        index_of(keys, key) == i,
{
    lemma_index_of(keys, key);
    let k = index_of(keys, key);
    if k < i {
        assert(keys[k] == key);
    } else if k > i {
        assert(keys[i] != key);
    }
}

/// A key that occurs nowhere has `index_of` equal to the length.
pub proof fn lemma_index_of_absent(keys: Seq<Seq<char>>, key: Seq<char>)
    requires
        forall|j: int| 0 <= j < keys.len() ==> keys[j] != key,
    ensures
        index_of(keys, key) == keys.len(),
{
    lemma_index_of(keys, key);
    let k = index_of(keys, key);
    if k < keys.len() {
        assert(keys[k] == key);
    }
}

/// What appending a key does to the position of every key.
pub proof fn lemma_index_of_push(keys: Seq<Seq<char>>, added: Seq<char>, key: Seq<char>)
    ensures
        has_key(keys, key) ==> index_of(keys.push(added), key) == index_of(keys, key),
        !has_key(keys, key) && key == added ==> index_of(keys.push(added), key) == keys.len(),
        !has_key(keys, key) && key != added ==> index_of(keys.push(added), key) == keys.len() + 1,
{
    let longer = keys.push(added);
    lemma_index_of(keys, key);
    if has_key(keys, key) {
        let i = index_of(keys, key);
        assert(longer[i] == keys[i]);
        assert forall|j: int| 0 <= j < i implies longer[j] != key by {
            assert(longer[j] == keys[j]);
        }
        lemma_index_of_first(longer, key, i);
    } else if key == added {
        assert forall|j: int| 0 <= j < keys.len() implies longer[j] != key by {
            assert(longer[j] == keys[j]);
        }
        lemma_index_of_first(longer, key, keys.len() as int);
    } else {
        assert forall|j: int| 0 <= j < longer.len() implies longer[j] != key by {
            if j < keys.len() {
                assert(longer[j] == keys[j]);
            }
        }
        lemma_index_of_absent(longer, key);
    }
}

/// The keys of a list of entries, in order.
pub open spec fn keys_of<V>(entries: Seq<(String, V)>) -> Seq<Seq<char>> {
    Seq::new(entries.len(), |i: int| entries[i].0@)
}

/// Where `key` sits among the keys of `entries`.
pub fn find_key<V>(entries: &Vec<(String, V)>, key: &str) -> (found: Option<usize>)
    ensures
        match found {
            Some(i) => i == index_of(keys_of(entries@), key@) && i < entries@.len(),
            None => !has_key(keys_of(entries@), key@),
        },
{
    let ghost keys = keys_of(entries@);
    let wanted = key.to_owned();
    let mut i: usize = 0;
    while i < entries.len()
        invariant
            i <= entries@.len(),
            keys == keys_of(entries@),
            wanted@ == key@,
            forall|j: int| 0 <= j < i ==> keys[j] != key@,
        decreases entries@.len() - i,
    {
        if entries[i].0 == wanted {
            proof {
                assert(keys[i as int] == key@);
                lemma_index_of_first(keys, key@, i as int);
            }
            return Some(i);
        }
        assert(keys[i as int] != key@);
        i += 1;
    }
    proof {
        lemma_index_of_absent(keys, key@);
    }
    None
}

} // verus!
