//! The host string block: a refcount header, a hash/length extension, and a
//! trailing byte area of `len + 1` bytes whose last byte is the reserved
//! zero terminator. The terminator is never part of the string's length.

use vstd::prelude::*;
use crate::zend_mm::ZendRefcounted;
use crate::zval::ZvalType;

verus! {

/// String-block flag: the block lives in persistent (request-independent)
/// host memory.
pub const IS_STR_PERSISTENT: u32 = 1;

/// Bit position of the string-block flags inside its type-information word.
pub const ZSTR_FLAGS_SHIFT: u32 = 8;

/// The fixed-size prefix of a host string block.
#[derive(Clone, Copy, Debug, PartialEq, Eq, Structural)]
pub struct CZendStringHeader {
    /// The common refcount header of every host heap block.
    pub refc: ZendRefcounted,
    /// The cached hash of the string, zero while not yet computed.
    pub h: u64,
    /// The byte length of the string, excluding the zero terminator.
    pub len: usize,
}

/// A host string block: header followed by the byte area. The byte area of
/// a well-formed block holds `len` content bytes and the zero terminator.
#[derive(Debug)]
pub struct CZendString {
    /// The fixed-size prefix.
    pub header: CZendStringHeader,
    /// The byte area, of length `header.len + 1`.
    pub value: Vec<u8>,
}

/// The mathematical image of a string block.
#[verifier::ext_equal]
pub struct StrView {
    /// The reference count.
    pub refcount: u32,
    /// The type-information word of the block.
    pub type_info: u32,
    /// The cached hash.
    pub hash: u64,
    /// The byte length, excluding the terminator.
    pub len: nat,
    /// The whole byte area, terminator included.
    pub bytes: Seq<u8>,
}

impl StrView {
    /// The content bytes: everything before the terminator.
    pub open spec fn content(self) -> Seq<u8> {
        self.bytes.take(self.len as int)
    }

    /// A well-formed string block: the byte area is exactly one byte longer
    /// than the content and ends in the zero terminator.
    pub open spec fn wf(self) -> bool {
        &&& self.bytes.len() == self.len + 1
        &&& self.bytes[self.len as int] == 0
    }
}

impl View for CZendString {
    type V = StrView;

    open spec fn view(&self) -> StrView {
        StrView {
            refcount: self.header.refc.refcount,
            type_info: self.header.refc.type_info,
            hash: self.header.h,
            len: self.header.len as nat,
            bytes: self.value@,
        }
    }
}

impl CZendString {
    /// A freshly allocated string block of the given content length:
    /// refcount one, string type information, zeroed byte area. The caller
    /// fills the content with [`CZendString::set_value`].
    pub fn new(len: usize, persistent: bool) -> (r: CZendString)
        requires
            len < usize::MAX,
        ensures
            r@.wf(),
            r@.refcount == 1,
            r@.type_info == (if persistent {
                crate::zval::tag_of(ZvalType::String) | (IS_STR_PERSISTENT << ZSTR_FLAGS_SHIFT)
            } else {
                crate::zval::tag_of(ZvalType::String)
            }),
            r@.hash == 0,
            r@.len == len,
            r@.content() =~= Seq::new(len as nat, |i: int| 0u8),
    {
        let mut flags = ZvalType::String.tag();
        if persistent {
            flags = flags | (IS_STR_PERSISTENT << ZSTR_FLAGS_SHIFT);
        }
        let r = CZendString {
            header: CZendStringHeader {
                refc: ZendRefcounted { refcount: 1, type_info: flags },
                h: 0,
                len: len,
            },
            value: vec![0u8; len + 1],
        };
        proof {
            assert(crate::zval::tag_of(ZvalType::String) | 0u32 == crate::zval::tag_of(
                ZvalType::String,
            )) by (bit_vector);
        }
        r
    }

    /// Copy the given bytes into the byte area and re-seat the zero
    /// terminator behind them. The content must fill the block exactly.
    pub fn set_value(&mut self, val: &[u8])
        requires
            old(self)@.wf(),
            val@.len() == old(self)@.len,
        ensures
            final(self)@.wf(),
            final(self).header == old(self).header,
            final(self)@.content() =~= val@,
            final(self)@.bytes =~= val@ + seq![0u8],
    {
        let n = val.len();
        let mut i: usize = 0;
        while i < n
            invariant
                i <= n,
                n == val@.len(),
                self@.wf(),
                self.header == old(self).header,
                n == self@.len,
                forall|j: int| 0 <= j < i ==> self@.bytes[j] == val@[j],
            decreases n - i,
        {
            self.value[i] = val[i];
            i = i + 1;
        }
        self.value[n] = 0;
    }
}

} // verus!
