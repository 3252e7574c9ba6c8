//! Association lists keyed by strings: a vector of `(key, value)` pairs read as a map in
//! which a later pair overrides an earlier one with the same key.
use vstd::prelude::*;

use crate::text::str_eq;

verus! {

/// The map that a list of pairs describes: each pair inserted in turn.
pub open spec fn assoc_map<V>(s: Seq<(String, V)>) -> Map<Seq<char>, V>
    decreases s.len(),
{
    if s.len() == 0 {
        Map::empty()
    } else {
        assoc_map(s.drop_last()).insert(s.last().0@, s.last().1)
    }
}

/// No key occurs twice.
pub open spec fn keys_unique<V>(s: Seq<(String, V)>) -> bool {
    forall|i: int, j: int| 0 <= i < j < s.len() ==> s[i].0@ != s[j].0@
}

/// The keys of the list, in order.
pub open spec fn keys_of<V>(s: Seq<(String, V)>) -> Seq<Seq<char>> {
    s.map_values(|p: (String, V)| p.0@)
}

/// A key is in the map exactly when some pair has it; the value is the one of the last
/// such pair.
pub proof fn lemma_assoc_map_index<V>(s: Seq<(String, V)>, i: int)
    requires
        0 <= i < s.len(),
        forall|j: int| i < j < s.len() ==> s[j].0@ != s[i].0@,
    ensures
        assoc_map(s).contains_key(s[i].0@),
        assoc_map(s)[s[i].0@] == s[i].1,
    decreases s.len(),
{
    if i < s.len() - 1 {
        lemma_assoc_map_index(s.drop_last(), i);
    }
}

/// A key that no pair has is not in the map.
pub proof fn lemma_assoc_map_absent<V>(s: Seq<(String, V)>, k: Seq<char>)
    requires
        forall|j: int| 0 <= j < s.len() ==> s[j].0@ != k,
    ensures
        !assoc_map(s).contains_key(k),
    decreases s.len(),
{
    if s.len() > 0 {
        lemma_assoc_map_absent(s.drop_last(), k);
    }
}

/// A key in the map belongs to some pair.
pub proof fn lemma_assoc_map_dom<V>(s: Seq<(String, V)>, k: Seq<char>)
    requires
        assoc_map(s).contains_key(k),
    ensures
        exists|j: int| 0 <= j < s.len() && s[j].0@ == k,
    decreases s.len(),
{
    if s.len() > 0 && s.last().0@ != k {
        lemma_assoc_map_dom(s.drop_last(), k);
        let j = choose|j: int| 0 <= j < s.len() - 1 && s.drop_last()[j].0@ == k;
        assert(s[j].0@ == k);
    }
}

/// In a list with unique keys the value of a key is the one of its pair.
pub proof fn lemma_assoc_unique_index<V>(s: Seq<(String, V)>, i: int)
    requires
        keys_unique(s),
        0 <= i < s.len(),
    ensures
        assoc_map(s).contains_key(s[i].0@),
        assoc_map(s)[s[i].0@] == s[i].1,
{
    lemma_assoc_map_index(s, i);
}

proof fn lemma_assoc_update_last<V>(s: Seq<(String, V)>, i: int, k: String, v: V)
    requires
        0 <= i < s.len(),
        s[i].0@ == k@,
        forall|j: int| i < j < s.len() ==> s[j].0@ != k@,
    ensures
        assoc_map(s.update(i, (k, v))) == assoc_map(s).insert(k@, v),
    decreases s.len(),
{
    let t = s.update(i, (k, v));
    if i == s.len() - 1 {
        assert(t.drop_last() =~= s.drop_last());
        assert(assoc_map(s.drop_last()).insert(k@, s[i].1).insert(k@, v) =~= assoc_map(
            s.drop_last(),
        ).insert(k@, v));
    } else {
        lemma_assoc_update_last(s.drop_last(), i, k, v);
        assert(t.drop_last() =~= s.drop_last().update(i, (k, v)));
        assert(assoc_map(s.drop_last()).insert(k@, v).insert(s.last().0@, s.last().1) =~= assoc_map(
            s.drop_last(),
        ).insert(s.last().0@, s.last().1).insert(k@, v));
    }
}

/// Position of the last pair with key `key`.
pub fn assoc_find<V>(s: &Vec<(String, V)>, key: &str) -> (r: Option<usize>)
    ensures
        r matches Some(i) ==> {
            &&& i < s@.len()
            &&& s@[i as int].0@ == key@
            &&& forall|j: int| i < j < s@.len() ==> s@[j].0@ != key@
            &&& assoc_map(s@).contains_key(key@)
            &&& assoc_map(s@)[key@] == s@[i as int].1
        },
        r is None ==> !assoc_map(s@).contains_key(key@),
{
    let mut n = s.len();
    while n > 0
        invariant
            n <= s@.len(),
            forall|j: int| n <= j < s@.len() ==> s@[j].0@ != key@,
        decreases n,
    {
        if str_eq(s[n - 1].0.as_str(), key) {
            proof {
                lemma_assoc_map_index(s@, n - 1);
            }
            return Some(n - 1);
        }
        n = n - 1;
    }
    proof {
        lemma_assoc_map_absent(s@, key@);
    }
    None
}

/// The value of `key`, if the map has it.
pub fn assoc_get<'a, V>(s: &'a Vec<(String, V)>, key: &str) -> (r: Option<&'a V>)
    ensures
        r matches Some(v) ==> assoc_map(s@).contains_key(key@) && assoc_map(s@)[key@] == *v,
        r is None ==> !assoc_map(s@).contains_key(key@),
{
    match assoc_find(s, key) {
        Some(i) => Some(&s[i].1),
        None => None,
    }
}

/// Sets `key` to `val`: replaces the pair that holds the key, or appends a new pair.
pub fn assoc_upsert<V>(s: &mut Vec<(String, V)>, key: String, val: V)
    ensures
        assoc_map(final(s)@) == assoc_map(old(s)@).insert(key@, val),
        keys_unique(old(s)@) ==> keys_unique(final(s)@),
        keys_of(final(s)@).to_set() == keys_of(old(s)@).to_set().insert(key@),
{
    match assoc_find(s, key.as_str()) {
        Some(i) => {
            let ghost k = key;
            let ghost before = s@;
            s.set(i, (key, val));
            proof {
                lemma_assoc_update_last(before, i as int, k, val);
                assert(s@ == before.update(i as int, (k, val)));
                assert(keys_of(s@) =~= keys_of(before));
                assert(keys_of(before).contains(key@)) by {
                    assert(keys_of(before)[i as int] == key@);
                }
                assert(keys_of(before).to_set().insert(key@) =~= keys_of(before).to_set());
            }
        },
        None => {
            let ghost before = s@;
            let ghost k = key@;
            s.push((key, val));
            proof {
                assert(s@.drop_last() =~= before);
                if keys_unique(before) {
                    assert forall|i: int, j: int| 0 <= i < j < s@.len() implies s@[i].0@
                        != s@[j].0@ by {
                        if j == s@.len() - 1 {
                            if s@[i].0@ == k {
                                lemma_assoc_map_index(before, i);
                            }
                        }
                    }
                }
                assert(keys_of(s@) =~= keys_of(before).push(k));
                keys_of(before).lemma_push_to_set_commute(k);
            }
        },
    }
}

} // verus!
