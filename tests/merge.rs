use map_merge::{intersection_of, union_of};
use std::collections::HashMap;

fn map_of<V: Clone>(pairs: &[(&str, V)]) -> HashMap<String, V> {
    let mut m = HashMap::new();
    for (k, v) in pairs {
        m.insert(k.to_string(), v.clone());
    }
    m
}

#[test]
fn union_sums_shared_keys() {
    let one = map_of(&[("a", 1), ("b", 2)]);
    let two = map_of(&[("b", 20), ("c", 3)]);
    let r = union_of(&one, &two, |a, b| a + b);
    assert_eq!(r, map_of(&[("a", 1), ("b", 22), ("c", 3)]));
}

#[test]
fn intersection_sums_shared_keys() {
    let one = map_of(&[("a", 1), ("b", 2)]);
    let two = map_of(&[("b", 20), ("c", 3)]);
    let r = intersection_of(&one, &two, |a, b| a + b);
    assert_eq!(r, map_of(&[("b", 22)]));
}

#[test]
fn intersection_changes_value_type() {
    let one = map_of(&[("x", "foo".to_string())]);
    let two = map_of(&[("x", 3usize)]);
    let r = intersection_of(&one, &two, |s: String, n: usize| s.len() + n);
    assert_eq!(r, map_of(&[("x", 6usize)]));
}

#[test]
fn inputs_are_left_unchanged() {
    let one = map_of(&[("a", 1), ("b", 2)]);
    let two = map_of(&[("b", 20), ("c", 3)]);
    let one_before = one.clone();
    let two_before = two.clone();
    let _u = union_of(&one, &two, |a, b| a + b);
    let _i = intersection_of(&one, &two, |a, b| a * b);
    assert_eq!(one, one_before);
    assert_eq!(two, two_before);
}

#[test]
fn union_with_empty_is_identity() {
    let one = map_of(&[("a", 1), ("b", 2)]);
    let empty: HashMap<String, i32> = HashMap::new();
    assert_eq!(union_of(&one, &empty, |a, b| a + b), one);
    assert_eq!(union_of(&empty, &one, |a, b| a + b), one);
    assert!(union_of(&empty, &empty, |a: i32, b: i32| a + b).is_empty());
}

#[test]
fn intersection_with_empty_is_empty() {
    let one = map_of(&[("a", 1), ("b", 2)]);
    let empty: HashMap<String, i32> = HashMap::new();
    assert!(intersection_of(&one, &empty, |a: i32, b: i32| a + b).is_empty());
    assert!(intersection_of(&empty, &one, |a: i32, b: i32| a + b).is_empty());
}

#[test]
fn union_passes_first_map_value_first() {
    let one = map_of(&[("a", 1), ("b", 2), ("c", 3)]);
    let two = map_of(&[("b", 20), ("c", 30), ("d", 40)]);
    let r = union_of(&one, &two, |a, _b| a);
    assert_eq!(r, map_of(&[("a", 1), ("b", 2), ("c", 3), ("d", 40)]));
    let r = union_of(&one, &two, |_a, b| b);
    assert_eq!(r, map_of(&[("a", 1), ("b", 20), ("c", 30), ("d", 40)]));
}

#[test]
fn union_concatenates_in_argument_order() {
    let one = map_of(&[("k", "left".to_string())]);
    let two = map_of(&[("k", "right".to_string())]);
    let r = union_of(&one, &two, |a: String, b: String| a + &b);
    assert_eq!(r, map_of(&[("k", "leftright".to_string())]));
}

#[test]
fn intersection_passes_first_map_value_first() {
    let one = map_of(&[("k", 10), ("m", 7)]);
    let two = map_of(&[("k", 3), ("n", 1)]);
    let r = intersection_of(&one, &two, |a: i32, b: i32| a - b);
    assert_eq!(r, map_of(&[("k", 7)]));
}

#[test]
fn union_of_disjoint_maps_keeps_all_values() {
    let one = map_of(&[("a", 1)]);
    let two = map_of(&[("b", 2)]);
    let r = union_of(&one, &two, |_a: i32, _b: i32| panic!("resolver called on disjoint keys"));
    assert_eq!(r, map_of(&[("a", 1), ("b", 2)]));
}

#[test]
fn intersection_of_disjoint_maps_is_empty() {
    let one = map_of(&[("a", 1)]);
    let two = map_of(&[("b", 2)]);
    let r = intersection_of(&one, &two, |_a: i32, _b: i32| -> i32 {
        panic!("resolver called on disjoint keys")
    });
    assert!(r.is_empty());
}

#[test]
fn identical_key_sets_resolve_every_key() {
    let mut one: HashMap<u64, u64> = HashMap::new();
    let mut two: HashMap<u64, u64> = HashMap::new();
    for i in 0..100u64 {
        one.insert(i, i);
        two.insert(i, 1000 * i);
    }
    let u = union_of(&one, &two, |a, b| a + b);
    let n = intersection_of(&one, &two, |a, b| b - a);
    assert_eq!(u.len(), 100);
    assert_eq!(n.len(), 100);
    for i in 0..100u64 {
        assert_eq!(u[&i], 1001 * i);
        assert_eq!(n[&i], 999 * i);
    }
}
