//! Tests of the structural lifters and the key/value mapping.

use rustdoc_migrate::lift::{lift_box, lift_leaf, lift_option, lift_pair, lift_vec, lift_vec_ref};
use rustdoc_migrate::strmap::StrMap;

fn bump(x: u32) -> u64 {
    x as u64 + 1
}

/// The sequence lifter preserves order and length.
#[test]
fn vec_lifter_preserves_order_and_length() {
    let v: Vec<u32> = vec![3, 1, 2];
    let out = lift_vec(v, &bump);
    assert_eq!(out, vec![4u64, 2, 3]);
}

/// The borrowed sequence lifter preserves order and length.
#[test]
fn vec_ref_lifter_preserves_order_and_length() {
    let v: Vec<u32> = vec![5, 6];
    let out = lift_vec_ref(&v, &|x: &u32| bump(*x));
    assert_eq!(out, vec![6u64, 7]);
    assert_eq!(v.len(), out.len());
}

/// Absent stays absent; present values are converted.
#[test]
fn option_lifter() {
    assert_eq!(lift_option(None::<u32>, &bump), None);
    assert_eq!(lift_option(Some(9u32), &bump), Some(10u64));
}

/// Owned indirection is unwrapped, converted and rewrapped.
#[test]
fn box_lifter() {
    assert_eq!(lift_box(Box::new(7u32), &bump), Box::new(8u64));
}

/// Each pair position is converted independently and recombined in place.
#[test]
fn pair_lifter() {
    let out = lift_pair((1u32, true), &bump, &lift_leaf::<bool>);
    assert_eq!(out, (2u64, true));
}

/// A primitive leaf is returned unchanged.
#[test]
fn leaf_identity() {
    assert_eq!(lift_leaf(41u64), 41);
    assert_eq!(lift_leaf(String::from("abc")), "abc");
}

/// Of two insertions under one key the later one wins; the entry keeps its
/// place and the earlier value is dropped.
#[test]
fn map_last_insert_wins() {
    let mut m: StrMap<u32> = StrMap::new();
    m.insert(String::from("a"), 1);
    m.insert(String::from("b"), 2);
    m.insert(String::from("a"), 3);
    assert_eq!(m.len(), 2);
    assert_eq!(m.get(&String::from("a")), Some(&3));
    assert_eq!(m.get(&String::from("b")), Some(&2));
    assert_eq!(m.get(&String::from("c")), None);
}
