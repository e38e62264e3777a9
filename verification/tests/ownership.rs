//! The ownership handles: boxes, refcounted references, and the scoped
//! ownership guard's exactly-once release.

use rustyphp::assign::AssignTo;
use rustyphp::zend_mm::{Refcounted, ZendBlockBody, ZendBox, ZendMMSingleton, ZEND_MM_RELEASED};
use rustyphp::zstr::CZendString;
use rustyphp::zval::{Zval, ZvalGuard, ZvalType};

#[test]
fn test_into_raw() {
    let src_ptr: usize = 0x666;
    {
        let box_ = ZendBox(src_ptr);
        let ptr = ZendBox::into_raw(box_);
        assert_eq!(src_ptr, ptr);
    }
    {
        let box_ = ZendBox(src_ptr);
        let rc = Refcounted(box_);
        let ptr = Refcounted::into_raw(rc);
        assert_eq!(ptr, src_ptr);
    }
}

#[test]
fn guard_release_fires_exactly_once() {
    let mut mm = ZendMMSingleton::new();
    let mut cell = Zval::new();
    let r = String::from("guarded").assign_to(&mut cell, &mut mm);
    assert!(r.is_none());
    assert_eq!(mm.live_blocks(), 1);

    let mut guard = ZvalGuard::new(cell);
    guard.release(&mut mm);
    assert!(guard.released);
    assert_eq!(mm.live_blocks(), 0);

    // a second release must not double-decrement or double-free
    guard.release(&mut mm);
    assert_eq!(mm.live_blocks(), 0);
    assert!(!mm.block_live(0));
}

#[test]
fn guard_skips_primitive_cells() {
    let mut mm = ZendMMSingleton::new();
    let mut cell = Zval::new();
    let r = 7i64.assign_to(&mut cell, &mut mm);
    assert!(r.is_none());
    let mut guard = ZvalGuard::new(cell);
    guard.release(&mut mm);
    assert!(guard.released);
    assert_eq!(mm.live_blocks(), 0);
}

#[test]
fn refcounted_release_decrements_then_destroys() {
    let mut mm = ZendMMSingleton::new();
    let mut zstr = CZendString::new(2, false);
    zstr.set_value(&[104, 105]);
    zstr.header.refc.refcount = 2;
    let rc = Refcounted::new(&mut mm, ZendBlockBody::StrBlock(zstr));
    let p = Refcounted::into_raw(rc);
    assert_eq!(p, 0);
    assert_eq!(mm.block_refcount(p), 2);
    assert!(mm.block_live(p));

    Refcounted::drop_ptr(&mut mm, p);
    assert_eq!(mm.block_refcount(p), 1);
    assert!(mm.block_live(p));

    Refcounted::drop_ptr(&mut mm, p);
    assert!(!mm.block_live(p));
}

#[test]
fn refcounted_release_marks_the_handle() {
    let mut mm = ZendMMSingleton::new();
    let zstr = CZendString::new(0, false);
    let mut rc = Refcounted::new(&mut mm, ZendBlockBody::StrBlock(zstr));
    rc.release(&mut mm);
    assert_eq!(rc.0 .0, ZEND_MM_RELEASED);
    assert_eq!(mm.live_blocks(), 0);
    // released handle: a second release is a no-op
    rc.release(&mut mm);
    assert_eq!(mm.live_blocks(), 0);
}

#[test]
fn box_place_finalize_and_free() {
    let mut mm = ZendMMSingleton::new();
    let place = mm.make_place();
    assert_eq!(place.pointer(), 0);
    let zstr = CZendString::new(1, false);
    let b = place.finalize(&mut mm, ZendBlockBody::StrBlock(zstr));
    assert_eq!(b.0, 0);
    assert_eq!(mm.live_blocks(), 1);
    b.free(&mut mm);
    assert_eq!(mm.live_blocks(), 0);
}
