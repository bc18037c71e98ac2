//! Lists of keyed entries, read as maps in which the first entry of a key counts.

use vstd::prelude::*;

verus! {

/// The keys of a list of entries, as text.
pub open spec fn keys_of<V>(s: Seq<(String, V)>) -> Seq<Seq<char>> {
    Seq::new(s.len(), |i: int| s[i].0@)
}

/// `i` is the first place at which `keys` holds `key`.
pub open spec fn first_at(keys: Seq<Seq<char>>, key: Seq<char>, i: int) -> bool {
    &&& 0 <= i < keys.len()
    &&& keys[i] == key
    &&& forall|j: int| 0 <= j < i ==> keys[j] != key
}

/// The first place at which `keys` holds `key`, if there is one.
pub open spec fn find_key(keys: Seq<Seq<char>>, key: Seq<char>) -> Option<int> {
    if exists|i: int| first_at(keys, key, i) {
        Some(choose|i: int| first_at(keys, key, i))
    } else {
        None
    }
}

/// Whether `keys` holds `key`.
pub open spec fn has_key(keys: Seq<Seq<char>>, key: Seq<char>) -> bool {
    find_key(keys, key) is Some
}

/// What [`find_key`] finds is the first place of the key; it finds nothing only
/// where the key is absent.
pub proof fn lemma_find_key(keys: Seq<Seq<char>>, key: Seq<char>)
    ensures
        match find_key(keys, key) {
            Some(i) => first_at(keys, key, i),
            None => !keys.contains(key),
        },
        has_key(keys, key) == keys.contains(key),
{
    if exists|i: int| first_at(keys, key, i) {
        let i = choose|i: int| first_at(keys, key, i);
        assert(keys[i] == key);
    } else {
        if keys.contains(key) {
            let j = choose|j: int| 0 <= j < keys.len() && keys[j] == key;
            lemma_first_exists(keys, key, j);
        }
    }
}

proof fn lemma_first_exists(keys: Seq<Seq<char>>, key: Seq<char>, j: int)
    requires
        0 <= j < keys.len(),
        keys[j] == key,
    ensures
        exists|i: int| first_at(keys, key, i),
    decreases j,
{
    if forall|k: int| 0 <= k < j ==> keys[k] != key {
        assert(first_at(keys, key, j));
    } else {
        let k = choose|k: int| 0 <= k < j && keys[k] == key;
        lemma_first_exists(keys, key, k);
    }
}

/// A key has one first place.
pub proof fn lemma_first_unique(keys: Seq<Seq<char>>, key: Seq<char>, i: int)
    requires
        first_at(keys, key, i),
    ensures
        find_key(keys, key) == Some(i),
{
    let j = choose|j: int| first_at(keys, key, j);
    if j < i {
        assert(keys[j] != key);
    } else if i < j {
        assert(keys[i] != key);
    }
}

/// The first place at which `entries` holds `key`.
pub fn position<V>(entries: &Vec<(String, V)>, key: &str) -> (r: Option<usize>)
    ensures
        match r {
            Some(i) => find_key(keys_of(entries@), key@) == Some(i as int),
            None => find_key(keys_of(entries@), key@) is None,
        },
{
    let wanted = key.to_owned();
    let mut i: usize = 0;
    while i < entries.len()
        invariant
            i <= entries.len(),
            wanted@ == key@,
            forall|k: int| 0 <= k < i ==> keys_of(entries@)[k] != key@,
        decreases entries.len() - i,
    {
        if entries[i].0 == wanted {
            proof {
                lemma_first_unique(keys_of(entries@), key@, i as int);
            }
            return Some(i);
        }
        i += 1;
    }
    proof {
        lemma_find_key(keys_of(entries@), key@);
    }
    None
}

} // verus!
