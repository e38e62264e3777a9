//! The array bridge: sequence conversion, ordinal read-back, and the
//! missing-index error.

use rustyphp::array::ZendArray;
use rustyphp::assign::AssignTo;
use rustyphp::zend_mm::ZendMMSingleton;
use rustyphp::zval::Zval;

#[test]
fn sequence_round_trip_and_join() {
    let mut mm = ZendMMSingleton::new();
    let mut cell = Zval::new();
    let values: Vec<i32> = vec![4, 2, 0, 0, 1];
    values.assign_to(&mut cell, &mut mm);
    assert_eq!(cell.type_(), 7);

    let ht = cell.value.as_ptr().data;
    let mut joined = String::new();
    for i in 0..values.len() {
        let v: i32 = ZendArray::get(&mm, ht, i as u64).unwrap();
        assert_eq!(v, values[i]);
        joined += &v.to_string();
    }
    assert_eq!(joined, "42001");
}

#[test]
fn missing_index_is_an_error_not_a_default() {
    let mut mm = ZendMMSingleton::new();
    let mut cell = Zval::new();
    vec![4i32, 2, 0, 0, 1].assign_to(&mut cell, &mut mm);
    let ht = cell.value.as_ptr().data;

    let err = ZendArray::get::<i32>(&mm, ht, 5).unwrap_err();
    assert_eq!(err, "No value for given index of 5");
    let err = ZendArray::get::<i32>(&mm, ht, 99).unwrap_err();
    assert_eq!(err, "No value for given index of 99");
}

#[test]
fn empty_sequence_makes_an_empty_table() {
    let mut mm = ZendMMSingleton::new();
    let mut cell = Zval::new();
    let empty: Vec<i32> = Vec::new();
    empty.assign_to(&mut cell, &mut mm);
    assert_eq!(cell.type_(), 7);
    let ht = cell.value.as_ptr().data;
    let err = ZendArray::get::<i32>(&mm, ht, 0).unwrap_err();
    assert_eq!(err, "No value for given index of 0");
    assert_eq!(mm.live_blocks(), 1);
}

#[test]
fn string_sequence_round_trip() {
    let mut mm = ZendMMSingleton::new();
    let mut cell = Zval::new();
    let mut values: Vec<String> = Vec::new();
    for _ in 0..10 {
        values.push("a".to_string());
    }
    values.assign_to(&mut cell, &mut mm);
    let ht = cell.value.as_ptr().data;

    let mut joined = String::new();
    for i in 0..10u64 {
        let s: String = ZendArray::get(&mm, ht, i).unwrap();
        joined += &s;
    }
    assert_eq!(joined, "aaaaaaaaaa");
    // one array block plus one block per string element
    assert_eq!(mm.live_blocks(), 11);
}

#[test]
fn element_type_mismatch_propagates() {
    let mut mm = ZendMMSingleton::new();
    let mut cell = Zval::new();
    vec![1i32, 2].assign_to(&mut cell, &mut mm);
    let ht = cell.value.as_ptr().data;
    let err = ZendArray::get::<String>(&mm, ht, 0).unwrap_err();
    assert_eq!(err, "Zval Conversion: Got 4 insteadof string");
}

#[test]
fn host_table_find_and_insert() {
    let mut mm = ZendMMSingleton::new();
    let rc = ZendArray::new(&mut mm);
    let ht = rustyphp::zend_mm::Refcounted::into_raw(rc);

    assert!(mm.hash_index_find(ht, 42).is_none());
    let mut v = Zval::new();
    v.set_type(rustyphp::zval::ZvalType::Long);
    v.value.data = 1337;
    mm.hash_index_add_new(ht, 42, v);
    let found = mm.hash_index_find(ht, 42).unwrap();
    assert_eq!(found.value.data, 1337);
    assert!(mm.hash_index_find(ht, 41).is_none());
}
