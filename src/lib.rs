//! Merging two hash maps into a fresh one: a union that keeps every key of
//! either map, and an intersection that keeps the keys common to both. A
//! caller-supplied resolver decides the value of a key found in both maps; it
//! always receives the value from the first map first.
pub mod laws;

use std::collections::HashMap;
use std::hash::Hash;
use vstd::prelude::*;
use vstd::std_specs::hash::{obeys_key_model, spec_hash_map_iter};
use vstd::std_specs::iter::IteratorSpec;

verus! {

broadcast use vstd::std_specs::hash::group_hash_axioms;

/// `K` can key a hash map: hashing is deterministic, `==` is identity, and
/// cloning a key yields that same key.
pub open spec fn valid_key<K: Clone>() -> bool {
    &&& obeys_key_model::<K>()
    &&& forall|a: K, b: K| #[trigger] cloned::<K>(a, b) ==> a == b
}

/// The resolver accepts the pair of values of every key present in both maps.
pub open spec fn accepts_common<K, A, B, C, F: Fn(A, B) -> C>(
    one: Map<K, A>,
    two: Map<K, B>,
    f: F,
) -> bool {
    forall|k: K|
        one.contains_key(k) && two.contains_key(k) ==> #[trigger] f.requires((one[k], two[k]))
}

/// `r` is the union of `one` and `two` under resolver `f`: every key of either
/// map, with the value of the one map that holds it, or `f(one[k], two[k])`
/// where both do.
pub open spec fn is_union<K, V, F: Fn(V, V) -> V>(
    one: Map<K, V>,
    two: Map<K, V>,
    f: F,
    r: Map<K, V>,
) -> bool {
    &&& r.dom() == one.dom().union(two.dom())
    &&& forall|k: K|
        one.contains_key(k) && !two.contains_key(k) ==> #[trigger] r[k] == one[k]
    &&& forall|k: K|
        two.contains_key(k) && !one.contains_key(k) ==> #[trigger] r[k] == two[k]
    &&& forall|k: K|
        one.contains_key(k) && two.contains_key(k) ==> f.ensures((one[k], two[k]), #[trigger] r[k])
}

/// `r` is the intersection of `one` and `two` under resolver `f`: the keys
/// found in both maps, each with value `f(one[k], two[k])`.
pub open spec fn is_intersection<K, A, B, C, F: Fn(A, B) -> C>(
    one: Map<K, A>,
    two: Map<K, B>,
    f: F,
    r: Map<K, C>,
) -> bool {
    &&& r.dom() == one.dom().intersect(two.dom())
    &&& forall|k: K| r.contains_key(k) ==> f.ensures((one[k], two[k]), #[trigger] r[k])
}

/// Merges two hash maps into a new one holding every key of either; where a
/// key is in both, its value is `f(value in one, value in two)`.
pub fn union_of<K, V, F>(one: &HashMap<K, V>, two: &HashMap<K, V>, f: F) -> (r: HashMap<K, V>) where
    K: Hash + Eq + Clone,
    V: Clone,
    F: Fn(V, V) -> V,

    requires
        valid_key::<K>(),
        accepts_common(one@, two@, f),
    ensures
        is_union(one@, two@, f, r@),
{
    // Values are moved out of copies of the inputs, so each one handed to `f`
    // or stored in the result is exactly the input's value.
    let mut acc = one.clone();
    let mut rest = two.clone();
    let ghost mut done: Set<K> = Set::empty();
    for (k, _v) in it: two.iter()
        invariant
            valid_key::<K>(),
            accepts_common(one@, two@, f),
            it.seq() == spec_hash_map_iter(two).remaining(),
            it.seq().no_duplicates(),
            forall|k: K|
                #[trigger] two@.contains_key(k) ==> exists|j: int|
                    0 <= j < it.seq().len() && *it.seq()[j].0 == k,
            done.subset_of(two@.dom()),
            forall|j: int| 0 <= j < it.index() ==> done.contains(*#[trigger] it.seq()[j].0),
            forall|j: int|
                it.index() <= j < it.seq().len() ==> !done.contains(*#[trigger] it.seq()[j].0),
            rest@ == two@.remove_keys(done),
            acc@.dom() == one@.dom().union(done),
            forall|k: K|
                one@.contains_key(k) && !done.contains(k) ==> #[trigger] acc@[k] == one@[k],
            forall|k: K|
                done.contains(k) && !one@.contains_key(k) ==> #[trigger] acc@[k] == two@[k],
            forall|k: K|
                done.contains(k) && one@.contains_key(k) ==> f.ensures(
                    (one@[k], two@[k]),
                    #[trigger] acc@[k],
                ),
    {
        let ghost acc0 = acc@;
        let v2 = rest.remove(k).unwrap();
        let key = k.clone();
        match acc.remove(k) {
            Some(v1) => {
                acc.insert(key, f(v1, v2));
            },
            None => {
                acc.insert(key, v2);
            },
        }
        proof {
            assert(cloned::<K>(*k, key));
            done = done.insert(*k);
            assert(acc@.dom() =~= one@.dom().union(done));
            assert(rest@ =~= two@.remove_keys(done));
        }
    }
    proof {
        assert(done =~= two@.dom());
    }
    acc
}

/// Joins two hash maps on their common keys: the result holds each key found
/// in both, with value `f(value in one, value in two)`.
pub fn intersection_of<K, A, B, C, F>(one: &HashMap<K, A>, two: &HashMap<K, B>, f: F) -> (r:
    HashMap<K, C>) where
    K: Hash + Eq + Clone,
    A: Clone,
    B: Clone,
    F: Fn(A, B) -> C,

    requires
        valid_key::<K>(),
        accepts_common(one@, two@, f),
    ensures
        is_intersection(one@, two@, f, r@),
{
    let mut out: HashMap<K, C> = HashMap::new();
    // As in `union_of`, values are moved out of copies of the inputs.
    let mut ones = one.clone();
    let mut twos = two.clone();
    let ghost mut done: Set<K> = Set::empty();
    for (k, _v) in it: two.iter()
        invariant
            valid_key::<K>(),
            accepts_common(one@, two@, f),
            it.seq() == spec_hash_map_iter(two).remaining(),
            it.seq().no_duplicates(),
            forall|k: K|
                #[trigger] two@.contains_key(k) ==> exists|j: int|
                    0 <= j < it.seq().len() && *it.seq()[j].0 == k,
            done.subset_of(two@.dom()),
            forall|j: int| 0 <= j < it.index() ==> done.contains(*#[trigger] it.seq()[j].0),
            forall|j: int|
                it.index() <= j < it.seq().len() ==> !done.contains(*#[trigger] it.seq()[j].0),
            ones@ == one@.remove_keys(done),
            twos@ == two@.remove_keys(done),
            out@.dom() == one@.dom().intersect(done),
            forall|k: K| out@.contains_key(k) ==> f.ensures((one@[k], two@[k]), #[trigger] out@[k]),
    {
        let v2 = twos.remove(k).unwrap();
        match ones.remove(k) {
            Some(v1) => {
                let key = k.clone();
                proof {
                    assert(cloned::<K>(*k, key));
                }
                out.insert(key, f(v1, v2));
            },
            None => {},
        }
        proof {
            done = done.insert(*k);
            assert(out@.dom() =~= one@.dom().intersect(done));
            assert(ones@ =~= one@.remove_keys(done));
            assert(twos@ =~= two@.remove_keys(done));
        }
    }
    proof {
        assert(done =~= two@.dom());
    }
    out
}

} // verus!
