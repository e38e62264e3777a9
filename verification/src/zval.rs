//! The host value cell ("zval"): a fixed-size record of an 8-byte value
//! union, a 4-byte type-information word and a 4-byte auxiliary word.
//!
//! The low byte of the type-information word is the type tag; bits 8..16 are
//! the type flags. A cell's flags are fully determined by its tag: setting
//! the tag always installs the canonical flag set for that tag.

use vstd::prelude::*;
use crate::zend_mm::{
    heap_after_release, refcount_of, unreferenced, Refcounted, ZendMMSingleton,
};

verus! {

/// Type flag: the value takes part in constant substitution.
pub const IS_TYPE_CONSTANT: u32 = 1;
/// Type flag: the referenced block must not be modified in place.
pub const IS_TYPE_IMMUTABLE: u32 = 2;
/// Type flag: the value union holds a pointer to a reference-counted block.
pub const IS_TYPE_REFCOUNTED: u32 = 4;
/// Type flag: the referenced block takes part in cyclic garbage collection.
pub const IS_TYPE_COLLECTABLE: u32 = 8;
/// Type flag: the referenced block may be duplicated on write.
pub const IS_TYPE_COPYABLE: u32 = 16;
/// Bit position of the type flags inside the type-information word.
pub const Z_TYPE_FLAGS_SHIFT: u32 = 8;

/// Largest pointer value a cell can carry while still round-tripping
/// through the signed 8-byte value union on every supported platform.
pub const ZVAL_PTR_MAX: usize = 0x7fff_ffff;

/// The type tag of a cell.
#[derive(Clone, Copy, Debug, PartialEq, Eq, Structural)]
pub enum ZvalType {
    Null,
    False,
    True,
    Long,
    Double,
    String,
    Array,
    Object,
}

/// The numeric tag the host assigns to each cell type.
pub open spec fn tag_of(t: ZvalType) -> u32 {
    match t {
        ZvalType::Null => 1,
        ZvalType::False => 2,
        ZvalType::True => 3,
        ZvalType::Long => 4,
        ZvalType::Double => 5,
        ZvalType::String => 6,
        ZvalType::Array => 7,
        ZvalType::Object => 8,
    }
}

/// The canonical type flags for each tag: strings are refcounted and
/// copyable, objects are refcounted and collectable, everything else
/// carries no flags.
pub open spec fn canonical_flags_of(t: ZvalType) -> u32 {
    match t {
        ZvalType::String => IS_TYPE_REFCOUNTED | IS_TYPE_COPYABLE,
        ZvalType::Object => IS_TYPE_REFCOUNTED | IS_TYPE_COLLECTABLE,
        _ => 0,
    }
}

/// The full type-information word written by `Zval::set_type`.
pub open spec fn type_info_of(t: ZvalType) -> u32 {
    tag_of(t) | (canonical_flags_of(t) << Z_TYPE_FLAGS_SHIFT)
}

impl ZvalType {
    /// The numeric tag of this type.
    pub fn tag(self) -> (r: u32)
        ensures
            r == tag_of(self),
    {
        match self {
            ZvalType::Null => 1,
            ZvalType::False => 2,
            ZvalType::True => 3,
            ZvalType::Long => 4,
            ZvalType::Double => 5,
            ZvalType::String => 6,
            ZvalType::Array => 7,
            ZvalType::Object => 8,
        }
    }

    /// The canonical flag set for this type.
    pub fn canonical_flags(self) -> (r: u32)
        ensures
            r == canonical_flags_of(self),
    {
        match self {
            ZvalType::String => IS_TYPE_REFCOUNTED | IS_TYPE_COPYABLE,
            ZvalType::Object => IS_TYPE_REFCOUNTED | IS_TYPE_COLLECTABLE,
            _ => 0,
        }
    }
}

/// The two canonical flag combinations as plain values, and the bounds the
/// packing lemma needs.
pub proof fn lemma_flag_values()
    ensures
        IS_TYPE_REFCOUNTED | IS_TYPE_COPYABLE == 20,
        IS_TYPE_REFCOUNTED | IS_TYPE_COLLECTABLE == 12,
        forall|t: ZvalType| tag_of(t) < 0x100 && canonical_flags_of(t) < 0x100,
        forall|t: ZvalType| canonical_flags_of(t) & IS_TYPE_REFCOUNTED == IS_TYPE_REFCOUNTED
            <==> (t == ZvalType::String || t == ZvalType::Object),
{
    assert(4u32 | 16 == 20) by (bit_vector);
    assert(4u32 | 8 == 12) by (bit_vector);
    assert(20u32 & 4 == 4) by (bit_vector);
    assert(12u32 & 4 == 4) by (bit_vector);
    assert(0u32 & 4 == 0) by (bit_vector);
    assert forall|t: ZvalType| tag_of(t) < 0x100 && canonical_flags_of(t) < 0x100 by {
    }
}

/// Extracting the tag and flag fields from a packed type-information word
/// recovers exactly what was packed.
pub proof fn lemma_type_info_fields(tag: u32, flags: u32)
    requires
        tag < 0x100,
        flags < 0x100,
    ensures
        (tag | (flags << Z_TYPE_FLAGS_SHIFT)) & 0xFF == tag,
        ((tag | (flags << Z_TYPE_FLAGS_SHIFT)) >> Z_TYPE_FLAGS_SHIFT) & 0xFF == flags,
{
    assert((tag | (flags << 8)) & 0xFF == tag) by (bit_vector)
        requires
            tag < 0x100,
            flags < 0x100,
    ;
    assert(((tag | (flags << 8)) >> 8) & 0xFF == flags) by (bit_vector)
        requires
            tag < 0x100,
            flags < 0x100,
    ;
}

/// The tag and flag fields of every canonical type-information word
/// unpack to the tag and flags they were packed from.
pub proof fn lemma_type_info_extract()
    ensures
        forall|t: ZvalType|
            (#[trigger] type_info_of(t)) & 0xFF == tag_of(t) && (type_info_of(t)
                >> Z_TYPE_FLAGS_SHIFT) & 0xFF == canonical_flags_of(t),
        forall|t: ZvalType|
            canonical_flags_of(t) & IS_TYPE_REFCOUNTED == IS_TYPE_REFCOUNTED <==> (t
                == ZvalType::String || t == ZvalType::Object),
{
    lemma_flag_values();
    assert forall|t: ZvalType|
        (#[trigger] type_info_of(t)) & 0xFF == tag_of(t) && (type_info_of(t)
            >> Z_TYPE_FLAGS_SHIFT) & 0xFF == canonical_flags_of(t) by {
        lemma_type_info_fields(tag_of(t), canonical_flags_of(t));
    }
}

/// The 8-byte value union of a cell, stored through its signed-integer
/// face. The other faces of the union are reached through the
/// reinterpretation accessors below.
#[derive(Clone, Copy, Debug, PartialEq, Eq, Structural)]
pub struct ZvalValue {
    /// The signed-integer ("long") face of the union.
    pub data: i64,
}

/// The floating-point face of the value union, carried as the raw bit
/// pattern of an 8-byte IEEE value so that the layer itself never performs
/// floating-point arithmetic.
#[derive(Clone, Copy, Debug, PartialEq, Eq, Structural)]
pub struct ZvalValueDouble {
    /// The IEEE bit pattern.
    pub data: u64,
}

/// The pointer face of the value union: the address of a host heap block,
/// modelled as a handle into the host memory manager.
#[derive(Clone, Copy, Debug, PartialEq, Eq, Structural)]
pub struct ZvalValuePtr {
    /// The block address.
    pub data: usize,
}

impl ZvalValue {
    /// The pointer carried by the union, as the pointer face sees it.
    pub open spec fn spec_ptr(self) -> usize {
        self.data as usize
    }

    /// The bit pattern carried by the union, as the floating-point face
    /// sees it.
    pub open spec fn spec_double_bits(self) -> u64 {
        self.data as u64
    }

    /// Reinterpret the union as a pointer.
    pub fn as_ptr(&self) -> (r: ZvalValuePtr)
        ensures
            r.data == self.spec_ptr(),
    {
        ZvalValuePtr { data: self.data as usize }
    }

    /// Reinterpret the union as a floating-point bit pattern.
    pub fn as_double(&self) -> (r: ZvalValueDouble)
        ensures
            r.data == self.spec_double_bits(),
    {
        ZvalValueDouble { data: self.data as u64 }
    }

    /// Write a pointer through the pointer face of the union.
    pub fn set_ptr(&mut self, p: usize)
        requires
            p <= ZVAL_PTR_MAX,
        ensures
            final(self).spec_ptr() == p,
            final(self).data == p as i64,
    {
        self.data = p as i64;
    }

    /// Write a floating-point bit pattern through that face of the union.
    pub fn set_double_bits(&mut self, bits: u64)
        ensures
            final(self).spec_double_bits() == bits,
            final(self).data == bits as i64,
    {
        proof {
            assert((bits as i64) as u64 == bits) by (bit_vector);
        }
        self.data = bits as i64;
    }
}

/// The contents of a freshly zero-initialized cell.
pub open spec fn zeroed_cell() -> Zval {
    Zval { value: ZvalValue { data: 0 }, u1: 0, u2: 0 }
}

/// The host value cell.
#[derive(Clone, Copy, Debug, PartialEq, Eq, Structural)]
pub struct Zval {
    /// The 8-byte value union.
    pub value: ZvalValue,
    /// The type-information word: tag in the low byte, flags in bits 8..16.
    pub u1: u32,
    /// The auxiliary word; its meaning depends on how the cell is used
    /// (for a call-frame marker cell it carries the argument count).
    pub u2: u32,
}

impl Zval {
    /// The type tag of this cell.
    pub open spec fn spec_type(self) -> u32 {
        self.u1 & 0xFF
    }

    /// The type flags of this cell.
    pub open spec fn spec_type_flags(self) -> u32 {
        (self.u1 >> Z_TYPE_FLAGS_SHIFT) & 0xFF
    }

    /// True when the cell's flags mark it as referencing a refcounted block.
    pub open spec fn spec_is_refcounted(self) -> bool {
        self.spec_type_flags() & IS_TYPE_REFCOUNTED == IS_TYPE_REFCOUNTED
    }

    /// A zero-initialized cell: no tag, no flags, empty value union.
    pub fn new() -> (r: Zval)
        ensures
            r == zeroed_cell(),
            r.spec_type() == 0,
            r.spec_type_flags() == 0,
    {
        let r = Zval { value: ZvalValue { data: 0 }, u1: 0, u2: 0 };
        proof {
            assert(0u32 & 0xFF == 0) by (bit_vector);
            assert((0u32 >> 8) & 0xFF == 0) by (bit_vector);
        }
        r
    }

    /// The type tag: the low byte of the type-information word.
    pub fn type_(&self) -> (r: u32)
        ensures
            r == self.spec_type(),
    {
        self.u1 & 0xFF
    }

    /// The type flags: bits 8..16 of the type-information word.
    pub fn type_flags(&self) -> (r: u32)
        ensures
            r == self.spec_type_flags(),
    {
        (self.u1 >> Z_TYPE_FLAGS_SHIFT) & 0xFF
    }

    /// Install a tag together with its canonical flag set, and clear the
    /// auxiliary word. The value union is left untouched; in particular,
    /// this never releases a block the cell may still reference, so a
    /// caller that owns such a block must release it first.
    pub fn set_type(&mut self, type_: ZvalType)
        ensures
            final(self).u1 == type_info_of(type_),
            final(self).u2 == 0,
            final(self).value == old(self).value,
            final(self).spec_type() == tag_of(type_),
            final(self).spec_type_flags() == canonical_flags_of(type_),
    {
        let tag = type_.tag();
        let flags = type_.canonical_flags();
        proof {
            lemma_flag_values();
            lemma_type_info_fields(tag, flags);
        }
        self.u1 = tag | (flags << Z_TYPE_FLAGS_SHIFT);
        self.u2 = 0;
    }
}

/// The scoped ownership guard around a cell this layer must release.
///
/// The release obligation fires exactly once: [`ZvalGuard::release`] marks
/// the guard, and a second call does nothing at all — neither a second
/// decrement nor a second destroy.
#[derive(Debug)]
pub struct ZvalGuard {
    /// The guarded cell.
    pub zv: Zval,
    /// Whether the release obligation has already fired.
    pub released: bool,
}

impl ZvalGuard {
    /// What the guard demands of the heap before it can release: nothing
    /// at all once it is released or when the cell is not refcounted;
    /// otherwise a live referenced block that may be destroyed if this is
    /// the last reference.
    pub open spec fn can_release(self, h: Seq<crate::zend_mm::BlockView>) -> bool {
        !self.released && self.zv.spec_is_refcounted() ==> {
            &&& self.zv.value.spec_ptr() < h.len()
            &&& h[self.zv.value.spec_ptr() as int].live
            &&& (refcount_of(h[self.zv.value.spec_ptr() as int].body) <= 1 ==> unreferenced(
                h,
                self.zv.value.spec_ptr(),
            ))
        }
    }

    /// Take over the release obligation for `zv`.
    pub fn new(zv: Zval) -> (r: ZvalGuard)
        ensures
            r.zv == zv,
            !r.released,
    {
        ZvalGuard { zv, released: false }
    }

    /// Borrow the guarded cell.
    pub fn zval(&self) -> (r: &Zval)
        ensures
            *r == self.zv,
    {
        &self.zv
    }

    /// Fire the release obligation: when the cell's flags mark it as
    /// refcounted, run the host's decrement-or-destroy protocol on the
    /// referenced block; otherwise do nothing. Releasing an already
    /// released guard changes nothing — the obligation fires at most
    /// once, however often this is called.
    pub fn release(&mut self, mm: &mut ZendMMSingleton)
        requires
            old(mm).wf(),
            old(self).can_release(old(mm)@),
        ensures
            final(mm).wf(),
            final(self).zv == old(self).zv,
            final(self).released,
            old(self).released ==> *final(mm) == *old(mm) && *final(self) == *old(self),
            !old(self).released && !old(self).zv.spec_is_refcounted() ==> *final(mm) == *old(mm),
            !old(self).released && old(self).zv.spec_is_refcounted() ==> final(mm)@
                =~= heap_after_release(old(mm)@, old(self).zv.value.spec_ptr()),
    {
        if self.released {
            return ;
        }
        self.released = true;
        if self.zv.type_flags() & IS_TYPE_REFCOUNTED == IS_TYPE_REFCOUNTED {
            let p = self.zv.value.as_ptr().data;
            Refcounted::drop_ptr(mm, p);
        }
    }
}

} // verus!
