//! The call frame, the argument-count check of generated wrappers, the
//! cell core's tag/flag table, and the module descriptor record.

use rustyphp::execute_data::{verify_arg_count, ExecuteData, ZEND_CALL_FRAME_SLOT};
use rustyphp::zend_module::{make_module, ZendFunctionEntry, ZEND_MODULE_API_NO};
use rustyphp::zstr::CZendString;
use rustyphp::zval::{Zval, ZvalType};

#[test]
fn missing_argument_raises_the_named_exception() {
    let ex = ExecuteData::new(Zval::new(), Vec::new());
    let msg = verify_arg_count("rustyphp_func_arg_obj", &ex, 1).unwrap();
    assert_eq!(msg, "rustyphp_func_arg_obj: expected 1 arguments got 0");
}

#[test]
fn enough_arguments_pass_the_check() {
    let mut arg = Zval::new();
    arg.set_type(ZvalType::Long);
    arg.value.data = 42;
    let ex = ExecuteData::new(Zval::new(), vec![arg]);
    assert!(verify_arg_count("rustyphp_func_arg_i32", &ex, 1).is_none());
    assert_eq!(ex.arg_count(), 1);
    let got = ex.arg(0);
    assert_eq!(got.value.data, 42);
    assert_eq!(got.type_(), 4);
}

#[test]
fn frame_slot_constant_matches_the_host_layout() {
    assert_eq!(ZEND_CALL_FRAME_SLOT, 5);
}

#[test]
fn set_type_installs_canonical_flags() {
    let mut zv = Zval::new();
    zv.u2 = 9;
    zv.set_type(ZvalType::String);
    assert_eq!(zv.type_(), 6);
    assert_eq!(zv.type_flags(), 4 | 16);
    assert_eq!(zv.u2, 0);
    zv.set_type(ZvalType::Object);
    assert_eq!(zv.type_(), 8);
    assert_eq!(zv.type_flags(), 4 | 8);
    zv.set_type(ZvalType::Long);
    assert_eq!(zv.type_(), 4);
    assert_eq!(zv.type_flags(), 0);
    zv.set_type(ZvalType::Array);
    assert_eq!(zv.type_(), 7);
    assert_eq!(zv.type_flags(), 0);
}

#[test]
fn tag_and_flags_unpack_from_the_word() {
    let zv = Zval {
        value: rustyphp::zval::ZvalValue { data: 0 },
        u1: 0x1406,
        u2: 0,
    };
    assert_eq!(zv.type_(), 6);
    assert_eq!(zv.type_flags(), 0x14);
}

#[test]
fn persistent_string_blocks_carry_the_flag() {
    let s = CZendString::new(3, true);
    assert_eq!(s.header.refc.type_info, 6 | (1 << 8));
    let s = CZendString::new(3, false);
    assert_eq!(s.header.refc.type_info, 6);
    assert_eq!(s.header.len, 3);
    assert_eq!(s.value.len(), 4);
}

#[test]
fn module_record_defaults() {
    let funcs = vec![ZendFunctionEntry {
        name: b"hello_world".to_vec(),
        has_handler: true,
        arg_info: Vec::new(),
        num_args: 0,
        flags: 0,
    }];
    let m = make_module(Some(funcs));
    assert_eq!(m.size, 168);
    assert_eq!(m.zend_api, ZEND_MODULE_API_NO);
    assert_eq!(m.zend_api, 20151012);
    assert!(m.name.is_none());
    assert!(m.version.is_none());
    assert!(!m.has_module_startup_func);
    assert_eq!(m.module_started, 0);
    assert_eq!(m.module_number, 0);
    assert_eq!(&m.build_id[..], b"API20151012,NTS");
    assert_eq!(m.functions.as_ref().unwrap().len(), 1);
    assert_eq!(&m.functions.as_ref().unwrap()[0].name[..], b"hello_world");
}
