//! Outbound and strict inbound conversion, their round trips, their
//! error messages, and the coercive conversion path.

use rustyphp::assign::AssignTo;
use rustyphp::conv_from::{convert_to_long, ConvertZvalAs};
use rustyphp::static_from::FromZval;
use rustyphp::zend_mm::{Refcounted, ZendBlockBody, ZendMMSingleton};
use rustyphp::zstr::CZendString;
use rustyphp::zval::{Zval, ZvalType, ZvalValueDouble};

#[test]
fn primitive_round_trip_all_widths() {
    let mut mm = ZendMMSingleton::new();
    let mut cell = Zval::new();

    (-7i8).assign_to(&mut cell, &mut mm);
    assert_eq!(i8::from_zval(&cell, &mm).unwrap(), -7i8);
    (-3000i16).assign_to(&mut cell, &mut mm);
    assert_eq!(i16::from_zval(&cell, &mm).unwrap(), -3000i16);
    (123456i32).assign_to(&mut cell, &mut mm);
    assert_eq!(i32::from_zval(&cell, &mm).unwrap(), 123456i32);
    (i64::MIN).assign_to(&mut cell, &mut mm);
    assert_eq!(i64::from_zval(&cell, &mm).unwrap(), i64::MIN);
    (200u8).assign_to(&mut cell, &mut mm);
    assert_eq!(u8::from_zval(&cell, &mm).unwrap(), 200u8);
    (65535u16).assign_to(&mut cell, &mut mm);
    assert_eq!(u16::from_zval(&cell, &mm).unwrap(), 65535u16);
    (4000000000u32).assign_to(&mut cell, &mut mm);
    assert_eq!(u32::from_zval(&cell, &mm).unwrap(), 4000000000u32);
    (u64::MAX).assign_to(&mut cell, &mut mm);
    assert_eq!(u64::from_zval(&cell, &mm).unwrap(), u64::MAX);
    assert_eq!(mm.live_blocks(), 0);
}

#[test]
fn double_bits_round_trip() {
    let mut mm = ZendMMSingleton::new();
    let mut cell = Zval::new();
    let d = ZvalValueDouble { data: (3.5f64).to_bits() };
    d.assign_to(&mut cell, &mut mm);
    assert_eq!(cell.type_(), 5);
    let back = ZvalValueDouble::from_zval(&cell, &mm).unwrap();
    assert_eq!(f64::from_bits(back.data), 3.5f64);
}

#[test]
fn bool_and_null_assign_set_only_the_tag() {
    let mut mm = ZendMMSingleton::new();
    let mut cell = Zval::new();
    true.assign_to(&mut cell, &mut mm);
    assert_eq!(cell.type_(), 3);
    assert_eq!(cell.type_flags(), 0);
    false.assign_to(&mut cell, &mut mm);
    assert_eq!(cell.type_(), 2);
    let none: Option<i64> = None;
    none.assign_to(&mut cell, &mut mm);
    assert_eq!(cell.type_(), 1);
    Some(42i64).assign_to(&mut cell, &mut mm);
    assert_eq!(cell.type_(), 4);
    assert_eq!(i64::from_zval(&cell, &mm).unwrap(), 42);
}

#[test]
fn strict_mismatch_names_both_tags() {
    let mut mm = ZendMMSingleton::new();
    let mut cell = Zval::new();
    true.assign_to(&mut cell, &mut mm);
    let err = i64::from_zval(&cell, &mm).unwrap_err();
    assert_eq!(err, "Zval Conversion: Got 3 insteadof long");
    7i64.assign_to(&mut cell, &mut mm);
    let err = String::from_zval(&cell, &mm).unwrap_err();
    assert_eq!(err, "Zval Conversion: Got 4 insteadof string");
}

#[test]
fn strict_long_reads_cast_the_stored_width() {
    let mut mm = ZendMMSingleton::new();
    let mut cell = Zval::new();
    300i64.assign_to(&mut cell, &mut mm);
    assert_eq!(u8::from_zval(&cell, &mm).unwrap(), 44u8);
    assert_eq!(u16::from_zval(&cell, &mm).unwrap(), 300u16);
}

#[test]
fn string_round_trip_hello_world() {
    let mut mm = ZendMMSingleton::new();
    let mut cell = Zval::new();
    let text = "hello ".to_string() + "world";
    text.assign_to(&mut cell, &mut mm);
    assert_eq!(cell.type_(), 6);

    let p = cell.value.as_ptr().data;
    let zs = mm.str_block(p);
    assert_eq!(zs.header.len, 11);
    assert_eq!(zs.value.len(), 12);
    assert_eq!(zs.value[11], 0);
    assert_eq!(&zs.value[..11], b"hello world");
    assert_eq!(zs.header.refc.refcount, 1);

    let back = String::from_zval(&cell, &mm).unwrap();
    assert_eq!(back, "hello world");
    assert_eq!(back.len(), 11);
}

#[test]
fn empty_string_round_trip() {
    let mut mm = ZendMMSingleton::new();
    let mut cell = Zval::new();
    String::new().assign_to(&mut cell, &mut mm);
    let p = cell.value.as_ptr().data;
    let zs = mm.str_block(p);
    assert_eq!(zs.header.len, 0);
    assert_eq!(&zs.value[..], &[0u8]);
    let back = String::from_zval(&cell, &mm).unwrap();
    assert_eq!(back, "");
}

#[test]
fn string_decode_error_on_invalid_bytes() {
    let mut mm = ZendMMSingleton::new();
    let mut zstr = CZendString::new(2, false);
    zstr.set_value(&[0xff, 0xfe]);
    let rc = Refcounted::new(&mut mm, ZendBlockBody::StrBlock(zstr));
    let p = Refcounted::into_raw(rc);
    let mut cell = Zval::new();
    cell.value.set_ptr(p);
    cell.set_type(ZvalType::String);
    let err = String::from_zval(&cell, &mm).unwrap_err();
    assert_eq!(err, "Zval Conversion: String block is not valid UTF-8");
}

#[test]
fn coercion_changes_the_tag_in_place() {
    let mut mm = ZendMMSingleton::new();
    let mut cell = Zval::new();
    "42".to_string().assign_to(&mut cell, &mut mm);
    assert_eq!(cell.type_(), 6);
    assert_eq!(mm.live_blocks(), 1);

    // without coercion, the same text is a type mismatch, never a number
    let strict = i64::from_zval(&cell, &mm).unwrap_err();
    assert_eq!(strict, "Zval Conversion: Got 6 insteadof long");

    let v = ConvertZvalAs::<u16>::from_zval(&mut cell, &mut mm).unwrap();
    assert_eq!(*v.value(), 42u16);
    assert_eq!(cell.type_(), 4);
    // the text's block was released by the coercion
    assert_eq!(mm.live_blocks(), 0);
}

#[test]
fn coercion_reads_sign_and_digit_prefix() {
    let mut mm = ZendMMSingleton::new();
    let cases: Vec<(&str, i64)> = vec![
        ("1", 1),
        ("-17", -17),
        ("+7", 7),
        ("12abc", 12),
        ("abc", 0),
        ("", 0),
        ("007", 7),
    ];
    for (text, expected) in cases {
        let mut cell = Zval::new();
        text.to_string().assign_to(&mut cell, &mut mm);
        convert_to_long(&mut cell, &mut mm);
        assert_eq!(cell.type_(), 4);
        assert_eq!(i64::from_zval(&cell, &mm).unwrap(), expected);
    }
}

#[test]
fn coercion_of_primitives() {
    let mut mm = ZendMMSingleton::new();
    let mut cell = Zval::new();
    true.assign_to(&mut cell, &mut mm);
    convert_to_long(&mut cell, &mut mm);
    assert_eq!(i64::from_zval(&cell, &mm).unwrap(), 1);
    false.assign_to(&mut cell, &mut mm);
    convert_to_long(&mut cell, &mut mm);
    assert_eq!(i64::from_zval(&cell, &mm).unwrap(), 0);
    let none: Option<i64> = None;
    none.assign_to(&mut cell, &mut mm);
    convert_to_long(&mut cell, &mut mm);
    assert_eq!(i64::from_zval(&cell, &mm).unwrap(), 0);
    (-5i64).assign_to(&mut cell, &mut mm);
    convert_to_long(&mut cell, &mut mm);
    assert_eq!(i64::from_zval(&cell, &mm).unwrap(), -5);
}
