//! Properties of the union and intersection that follow from their
//! contracts, stated over the results that `union_of` and `intersection_of`
//! are proved to return.
use crate::{is_intersection, is_union};
use vstd::prelude::*;

verus! {

/// The keys of a union are exactly the keys of either input.
pub proof fn union_key_coverage<K, V, F: Fn(V, V) -> V>(
    one: Map<K, V>,
    two: Map<K, V>,
    f: F,
    r: Map<K, V>,
)
    requires
        is_union(one, two, f, r),
    ensures
        forall|k: K| #[trigger] r.contains_key(k) <==> one.contains_key(k) || two.contains_key(k),
{
}

/// In a union, a key of one input alone keeps that input's value, and a key
/// of both inputs gets the resolver's result on (value in one, value in two).
pub proof fn union_value_correctness<K, V, F: Fn(V, V) -> V>(
    one: Map<K, V>,
    two: Map<K, V>,
    f: F,
    r: Map<K, V>,
)
    requires
        is_union(one, two, f, r),
    ensures
        forall|k: K| one.contains_key(k) && !two.contains_key(k) ==> #[trigger] r[k] == one[k],
        forall|k: K| two.contains_key(k) && !one.contains_key(k) ==> #[trigger] r[k] == two[k],
        forall|k: K|
            one.contains_key(k) && two.contains_key(k) ==> f.ensures(
                (one[k], two[k]),
                #[trigger] r[k],
            ),
{
}

/// The keys of an intersection are exactly the keys common to both inputs.
pub proof fn intersection_key_coverage<K, A, B, C, F: Fn(A, B) -> C>(
    one: Map<K, A>,
    two: Map<K, B>,
    f: F,
    r: Map<K, C>,
)
    requires
        is_intersection(one, two, f, r),
    ensures
        forall|k: K| #[trigger] r.contains_key(k) <==> one.contains_key(k) && two.contains_key(k),
{
}

/// Every value of an intersection is the resolver's result on (value in one,
/// value in two).
pub proof fn intersection_value_correctness<K, A, B, C, F: Fn(A, B) -> C>(
    one: Map<K, A>,
    two: Map<K, B>,
    f: F,
    r: Map<K, C>,
)
    requires
        is_intersection(one, two, f, r),
    ensures
        forall|k: K|
            #[trigger] r.contains_key(k) ==> one.contains_key(k) && two.contains_key(k) && f.ensures(
                (one[k], two[k]),
                r[k],
            ),
{
}

/// The union of a map with the empty map is that map.
pub proof fn union_with_empty<K, V, F: Fn(V, V) -> V>(one: Map<K, V>, f: F, r: Map<K, V>)
    requires
        is_union(one, Map::empty(), f, r),
    ensures
        r == one,
{
    assert(r =~= one);
}

/// The intersection of a map with the empty map, on either side, is empty.
pub proof fn intersection_with_empty<K, A, B, C, F: Fn(A, B) -> C>(
    one: Map<K, A>,
    two: Map<K, B>,
    f: F,
    r1: Map<K, C>,
    r2: Map<K, C>,
)
    requires
        is_intersection(one, Map::empty(), f, r1),
        is_intersection(Map::empty(), two, f, r2),
    ensures
        r1 == Map::<K, C>::empty(),
        r2 == Map::<K, C>::empty(),
{
    assert(r1 =~= Map::empty());
    assert(r2 =~= Map::empty());
}

/// The resolver takes the value from the first map as its first argument:
/// with a resolver that always returns its first argument, the union keeps
/// the first map's value on every shared key, and so equals the second map
/// overridden by the first.
pub proof fn union_prefers_first_with_left_resolver<K, V, F: Fn(V, V) -> V>(
    one: Map<K, V>,
    two: Map<K, V>,
    f: F,
    r: Map<K, V>,
)
    requires
        forall|a: V, b: V, c: V| #[trigger] f.ensures((a, b), c) ==> c == a,
        is_union(one, two, f, r),
    ensures
        forall|k: K| one.contains_key(k) && two.contains_key(k) ==> #[trigger] r[k] == one[k],
        r == two.union_prefer_right(one),
{
    assert forall|k: K| one.contains_key(k) && two.contains_key(k) implies #[trigger] r[k]
        == one[k] by {
        assert(f.ensures((one[k], two[k]), r[k]));
    }
    assert(r =~= two.union_prefer_right(one));
}

} // verus!
