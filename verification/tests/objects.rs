//! The object property bridge: reads and writes through the handler
//! table, the inert no-handler state, and leak-freedom of the temporary
//! name cell under repetition.

use rustyphp::object::{ZendProperty, ZvalValueObject};
use rustyphp::zend_mm::{ZendMMSingleton, ZendRefcounted};
use rustyphp::assign::AssignTo;
use rustyphp::zval::Zval;

fn fresh_object(has_handlers: bool) -> ZvalValueObject {
    ZvalValueObject {
        refc: ZendRefcounted { refcount: 1, type_info: 0 },
        handle: 7,
        has_handlers,
        properties: Vec::new(),
    }
}

#[test]
fn write_then_read_property_text() {
    let mut mm = ZendMMSingleton::new();
    let mut obj = fresh_object(true);
    let r = obj.write_property(&mut mm, "prop", "yep".to_string());
    assert!(r.is_none());
    let back: String = obj.read_property(&mut mm, "prop").unwrap();
    assert_eq!(back, "yep");
}

#[test]
fn write_overwrites_an_existing_property() {
    let mut mm = ZendMMSingleton::new();
    let mut obj = fresh_object(true);
    assert!(obj.write_property(&mut mm, "prop", "a".to_string()).is_none());
    assert!(obj.write_property(&mut mm, "prop", "yep".to_string()).is_none());
    assert_eq!(obj.properties.len(), 1);
    let back: String = obj.read_property(&mut mm, "prop").unwrap();
    assert_eq!(back, "yep");
}

#[test]
fn missing_property_reads_as_null_and_fails_strictly() {
    let mut mm = ZendMMSingleton::new();
    let obj = fresh_object(true);
    let err = obj.read_property::<u32>(&mut mm, "prop").unwrap_err();
    assert_eq!(err, "Zval Conversion: Got 1 insteadof long");
}

#[test]
fn handlerless_object_is_inert() {
    let mut mm = ZendMMSingleton::new();
    let mut obj = fresh_object(false);
    let err = obj.read_property::<u32>(&mut mm, "prop").unwrap_err();
    assert_eq!(err, "read_property: object handler is null");
    let err = obj.write_property(&mut mm, "prop", 1u32).unwrap();
    assert_eq!(err, "write_property: object handler is null");
}

#[test]
fn repeated_reads_leave_memory_usage_unchanged() {
    let mut mm = ZendMMSingleton::new();
    let mut obj = fresh_object(true);
    assert!(obj.write_property(&mut mm, "prop", 2u32).is_none());
    let before = mm.live_blocks();
    for _ in 0..100 {
        let v: u32 = obj.read_property(&mut mm, "prop").unwrap();
        assert_eq!(v, 2);
    }
    let after = mm.live_blocks();
    assert_eq!(before, after);
}

#[test]
fn object_assign_writes_the_handle() {
    let mut mm = ZendMMSingleton::new();
    let obj = fresh_object(true);
    let mut cell = Zval::new();
    obj.assign_to(&mut cell, &mut mm);
    assert_eq!(cell.type_(), 8);
    // objects are refcounted and take part in cyclic collection
    assert_eq!(cell.type_flags(), 4 | 8);
    assert_eq!(cell.value.data, 7);
}

#[test]
fn object_pointer_conversion_is_strict_only() {
    let mut mm = ZendMMSingleton::new();
    let obj = fresh_object(true);
    let mut cell = Zval::new();
    obj.assign_to(&mut cell, &mut mm);
    assert_eq!(ZvalValueObject::handle_from_zval(&cell).unwrap(), 7);

    let mut long_cell = Zval::new();
    42i64.assign_to(&mut long_cell, &mut mm);
    let err = ZvalValueObject::handle_from_zval(&long_cell).unwrap_err();
    assert_eq!(err, "Zval Conversion: Got 4 insteadof object");
}

#[test]
fn properties_hold_cells_by_name() {
    let mut mm = ZendMMSingleton::new();
    let mut obj = fresh_object(true);
    assert!(obj.write_property(&mut mm, "first", 1u32).is_none());
    assert!(obj.write_property(&mut mm, "second", 2u32).is_none());
    assert_eq!(obj.properties.len(), 2);
    let p0: &ZendProperty = &obj.properties[0];
    assert_eq!(&p0.name[..], b"first");
    assert_eq!(obj.read_property::<u32>(&mut mm, "second").unwrap(), 2);
    assert_eq!(obj.read_property::<u32>(&mut mm, "first").unwrap(), 1);
}
