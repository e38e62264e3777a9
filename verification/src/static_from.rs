//! Inbound strict conversion: reading a native value back out of a host
//! cell. Strict means the cell's tag must already match — a string
//! holding "1" is never silently treated as the integer 1. On a tag
//! mismatch the conversion fails with a message naming the expected and
//! the actual tag; on a text cell whose bytes are not valid UTF-8 it
//! fails with a decode error. The source cell is never mutated.

use vstd::prelude::*;
use vstd::string::StringExecFns;
use vstd::utf8::{decode_utf8, encode_utf8, valid_utf8};
use crate::assign::{
    empty_arr_block, lemma_seq_alloc_skip, lemma_vec_assign_one_step, lemma_vec_steps_props,
    long_cell, seq_alloc_count, str_block_for, str_cell, vec_assign_step, vec_assign_steps,
    AssignTo,
};
use crate::decimal::{dec_rep, push_decimal};
use crate::zend_mm::{
    arr_at, body_wf, heap_wf, lemma_heap_wf_push, live_arr, str_at, zval_wf, BlockView,
    ZendMMSingleton,
};
use crate::zstr::StrView;
use crate::zval::{lemma_type_info_extract, tag_of, Zval, ZvalType, ZvalValueDouble, ZVAL_PTR_MAX};

verus! {

/// The message of a strict conversion that found the wrong tag.
pub open spec fn mismatch_msg(tag: u32, expected: Seq<char>) -> Seq<char> {
    "Zval Conversion: Got "@ + dec_rep(tag as nat) + " insteadof "@ + expected
}

/// The message of a strict conversion that found text which is not valid
/// in the target encoding.
pub open spec fn utf8_err_msg() -> Seq<char> {
    "Zval Conversion: String block is not valid UTF-8"@
}

/// Build the tag-mismatch message.
pub(crate) fn mismatch_error(tag: u32, expected: &str) -> (r: String)
    ensures
        r@ =~= mismatch_msg(tag, expected@),
{
    let mut s = String::from_str("Zval Conversion: Got ");
    push_decimal(&mut s, tag as u64);
    s.append(" insteadof ");
    s.append(expected);
    s
}

/// Relies on alloc::string::String::from_utf8: it succeeds exactly when
/// the bytes are valid UTF-8, and the characters of the result encode
/// back to exactly those bytes.
#[verifier::external_body]
fn string_from_utf8(v: Vec<u8>) -> (r: Option<String>)
    ensures
        r is Some <==> valid_utf8(v@),
        r matches Some(s) ==> encode_utf8(s@) =~= v@,
{
    String::from_utf8(v).ok()
}

/// A native type that can be read back out of a host cell by a strict
/// conversion.
///
/// `Model` is the mathematical value the conversion recovers (the integer
/// itself, the character sequence of a string), and `from_spec` the exact
/// outcome — value or error message — for every cell and heap.
pub trait FromZval: Sized {
    /// The mathematical image of a recovered value.
    type Model;

    /// The image of one recovered value.
    spec fn model_of(v: Self) -> Self::Model;

    /// The exact outcome of the strict conversion.
    spec fn from_spec(zv: Zval, h: Seq<BlockView>) -> Result<Self::Model, Seq<char>>;

    /// The conversion reads nothing of the heap but the block the cell
    /// references.
    proof fn lemma_from_spec_frame(zv: Zval, h1: Seq<BlockView>, h2: Seq<BlockView>)
        requires
            zval_wf(zv, h1),
            (zv.spec_type() == tag_of(ZvalType::String) || zv.spec_type() == tag_of(
                ZvalType::Array,
            )) ==> zv.value.spec_ptr() < h2.len() && h2[zv.value.spec_ptr() as int] == h1[zv.value.spec_ptr() as int],
        ensures
            zval_wf(zv, h2),
            Self::from_spec(zv, h2) == Self::from_spec(zv, h1),
    ;

    /// Read a value of this type out of `zv`, strictly.
    fn from_zval(zv: &Zval, mm: &ZendMMSingleton) -> (r: Result<Self, String>)
        requires
            mm.wf(),
            zval_wf(*zv, mm@),
        ensures
            match r {
                Ok(v) => Self::from_spec(*zv, mm@) == Ok::<Self::Model, Seq<char>>(
                    Self::model_of(v),
                ),
                Err(e) => Self::from_spec(*zv, mm@) == Err::<Self::Model, Seq<char>>(e@),
            },
    ;
}

impl FromZval for i8 {
    type Model = i8;

    open spec fn model_of(v: i8) -> i8 {
        v
    }

    open spec fn from_spec(zv: Zval, h: Seq<BlockView>) -> Result<i8, Seq<char>> {
        if zv.spec_type() != tag_of(ZvalType::Long) {
            Err(mismatch_msg(zv.spec_type(), "long"@))
        } else {
            Ok(zv.value.data as i8)
        }
    }

    proof fn lemma_from_spec_frame(zv: Zval, h1: Seq<BlockView>, h2: Seq<BlockView>) {
    }

    fn from_zval(zv: &Zval, mm: &ZendMMSingleton) -> (r: Result<i8, String>) {
        if zv.type_() != ZvalType::Long.tag() {
            return Err(mismatch_error(zv.type_(), "long"));
        }
        Ok(zv.value.data as i8)
    }
}

impl FromZval for i16 {
    type Model = i16;

    open spec fn model_of(v: i16) -> i16 {
        v
    }

    open spec fn from_spec(zv: Zval, h: Seq<BlockView>) -> Result<i16, Seq<char>> {
        if zv.spec_type() != tag_of(ZvalType::Long) {
            Err(mismatch_msg(zv.spec_type(), "long"@))
        } else {
            Ok(zv.value.data as i16)
        }
    }

    proof fn lemma_from_spec_frame(zv: Zval, h1: Seq<BlockView>, h2: Seq<BlockView>) {
    }

    fn from_zval(zv: &Zval, mm: &ZendMMSingleton) -> (r: Result<i16, String>) {
        if zv.type_() != ZvalType::Long.tag() {
            return Err(mismatch_error(zv.type_(), "long"));
        }
        Ok(zv.value.data as i16)
    }
}

impl FromZval for i32 {
    type Model = i32;

    open spec fn model_of(v: i32) -> i32 {
        v
    }

    open spec fn from_spec(zv: Zval, h: Seq<BlockView>) -> Result<i32, Seq<char>> {
        if zv.spec_type() != tag_of(ZvalType::Long) {
            Err(mismatch_msg(zv.spec_type(), "long"@))
        } else {
            Ok(zv.value.data as i32)
        }
    }

    proof fn lemma_from_spec_frame(zv: Zval, h1: Seq<BlockView>, h2: Seq<BlockView>) {
    }

    fn from_zval(zv: &Zval, mm: &ZendMMSingleton) -> (r: Result<i32, String>) {
        if zv.type_() != ZvalType::Long.tag() {
            return Err(mismatch_error(zv.type_(), "long"));
        }
        Ok(zv.value.data as i32)
    }
}

impl FromZval for i64 {
    type Model = i64;

    open spec fn model_of(v: i64) -> i64 {
        v
    }

    open spec fn from_spec(zv: Zval, h: Seq<BlockView>) -> Result<i64, Seq<char>> {
        if zv.spec_type() != tag_of(ZvalType::Long) {
            Err(mismatch_msg(zv.spec_type(), "long"@))
        } else {
            Ok(zv.value.data)
        }
    }

    proof fn lemma_from_spec_frame(zv: Zval, h1: Seq<BlockView>, h2: Seq<BlockView>) {
    }

    fn from_zval(zv: &Zval, mm: &ZendMMSingleton) -> (r: Result<i64, String>) {
        if zv.type_() != ZvalType::Long.tag() {
            return Err(mismatch_error(zv.type_(), "long"));
        }
        Ok(zv.value.data)
    }
}

impl FromZval for u8 {
    type Model = u8;

    open spec fn model_of(v: u8) -> u8 {
        v
    }

    open spec fn from_spec(zv: Zval, h: Seq<BlockView>) -> Result<u8, Seq<char>> {
        if zv.spec_type() != tag_of(ZvalType::Long) {
            Err(mismatch_msg(zv.spec_type(), "long"@))
        } else {
            Ok(zv.value.data as u8)
        }
    }

    proof fn lemma_from_spec_frame(zv: Zval, h1: Seq<BlockView>, h2: Seq<BlockView>) {
    }

    fn from_zval(zv: &Zval, mm: &ZendMMSingleton) -> (r: Result<u8, String>) {
        if zv.type_() != ZvalType::Long.tag() {
            return Err(mismatch_error(zv.type_(), "long"));
        }
        Ok(zv.value.data as u8)
    }
}

impl FromZval for u16 {
    type Model = u16;

    open spec fn model_of(v: u16) -> u16 {
        v
    }

    open spec fn from_spec(zv: Zval, h: Seq<BlockView>) -> Result<u16, Seq<char>> {
        if zv.spec_type() != tag_of(ZvalType::Long) {
            Err(mismatch_msg(zv.spec_type(), "long"@))
        } else {
            Ok(zv.value.data as u16)
        }
    }

    proof fn lemma_from_spec_frame(zv: Zval, h1: Seq<BlockView>, h2: Seq<BlockView>) {
    }

    fn from_zval(zv: &Zval, mm: &ZendMMSingleton) -> (r: Result<u16, String>) {
        if zv.type_() != ZvalType::Long.tag() {
            return Err(mismatch_error(zv.type_(), "long"));
        }
        Ok(zv.value.data as u16)
    }
}

impl FromZval for u32 {
    type Model = u32;

    open spec fn model_of(v: u32) -> u32 {
        v
    }

    open spec fn from_spec(zv: Zval, h: Seq<BlockView>) -> Result<u32, Seq<char>> {
        if zv.spec_type() != tag_of(ZvalType::Long) {
            Err(mismatch_msg(zv.spec_type(), "long"@))
        } else {
            Ok(zv.value.data as u32)
        }
    }

    proof fn lemma_from_spec_frame(zv: Zval, h1: Seq<BlockView>, h2: Seq<BlockView>) {
    }

    fn from_zval(zv: &Zval, mm: &ZendMMSingleton) -> (r: Result<u32, String>) {
        if zv.type_() != ZvalType::Long.tag() {
            return Err(mismatch_error(zv.type_(), "long"));
        }
        Ok(zv.value.data as u32)
    }
}

impl FromZval for u64 {
    type Model = u64;

    open spec fn model_of(v: u64) -> u64 {
        v
    }

    open spec fn from_spec(zv: Zval, h: Seq<BlockView>) -> Result<u64, Seq<char>> {
        if zv.spec_type() != tag_of(ZvalType::Long) {
            Err(mismatch_msg(zv.spec_type(), "long"@))
        } else {
            Ok(zv.value.data as u64)
        }
    }

    proof fn lemma_from_spec_frame(zv: Zval, h1: Seq<BlockView>, h2: Seq<BlockView>) {
    }

    fn from_zval(zv: &Zval, mm: &ZendMMSingleton) -> (r: Result<u64, String>) {
        if zv.type_() != ZvalType::Long.tag() {
            return Err(mismatch_error(zv.type_(), "long"));
        }
        Ok(zv.value.data as u64)
    }
}

impl FromZval for ZvalValueDouble {
    type Model = ZvalValueDouble;

    open spec fn model_of(v: ZvalValueDouble) -> ZvalValueDouble {
        v
    }

    open spec fn from_spec(zv: Zval, h: Seq<BlockView>) -> Result<ZvalValueDouble, Seq<char>> {
        if zv.spec_type() != tag_of(ZvalType::Double) {
            Err(mismatch_msg(zv.spec_type(), "double"@))
        } else {
            Ok(ZvalValueDouble { data: zv.value.spec_double_bits() })
        }
    }

    proof fn lemma_from_spec_frame(zv: Zval, h1: Seq<BlockView>, h2: Seq<BlockView>) {
    }

    fn from_zval(zv: &Zval, mm: &ZendMMSingleton) -> (r: Result<ZvalValueDouble, String>) {
        if zv.type_() != ZvalType::Double.tag() {
            return Err(mismatch_error(zv.type_(), "double"));
        }
        Ok(zv.value.as_double())
    }
}

impl FromZval for Zval {
    type Model = Zval;

    open spec fn model_of(v: Zval) -> Zval {
        v
    }

    open spec fn from_spec(zv: Zval, h: Seq<BlockView>) -> Result<Zval, Seq<char>> {
        Ok(zv)
    }

    proof fn lemma_from_spec_frame(zv: Zval, h1: Seq<BlockView>, h2: Seq<BlockView>) {
    }

    fn from_zval(zv: &Zval, mm: &ZendMMSingleton) -> (r: Result<Zval, String>) {
        Ok(*zv)
    }
}

impl FromZval for String {
    type Model = Seq<char>;

    open spec fn model_of(v: String) -> Seq<char> {
        v@
    }

    open spec fn from_spec(zv: Zval, h: Seq<BlockView>) -> Result<Seq<char>, Seq<char>> {
        if zv.spec_type() != tag_of(ZvalType::String) {
            Err(mismatch_msg(zv.spec_type(), "string"@))
        } else {
            let s = str_at(h, zv.value.spec_ptr());
            if valid_utf8(s.content()) {
                Ok(decode_utf8(s.content()))
            } else {
                Err(utf8_err_msg())
            }
        }
    }

    proof fn lemma_from_spec_frame(zv: Zval, h1: Seq<BlockView>, h2: Seq<BlockView>) {
    }

    fn from_zval(zv: &Zval, mm: &ZendMMSingleton) -> (r: Result<String, String>) {
        if zv.type_() != ZvalType::String.tag() {
            return Err(mismatch_error(zv.type_(), "string"));
        }
        let p = zv.value.as_ptr().data;
        let zs = mm.str_block(p);
        proof {
            assert(mm@[p as int].body->StrB_0.wf());
        }
        let len = zs.header.len;
        let mut bytes: Vec<u8> = Vec::new();
        let mut i: usize = 0;
        while i < len
            invariant
                i <= len,
                zs@.wf(),
                len == zs@.len,
                bytes@.len() == i,
                forall|j: int| 0 <= j < i ==> bytes@[j] == zs@.bytes[j],
            decreases len - i,
        {
            let b = zs.value[i];
            bytes.push(b);
            i = i + 1;
        }
        proof {
            assert(bytes@ =~= zs@.content());
        }
        match string_from_utf8(bytes) {
            Some(s) => {
                proof {
                    vstd::utf8::encode_utf8_decode_utf8(s@);
                }
                Ok(s)
            },
            None => Err(String::from_str("Zval Conversion: String block is not valid UTF-8")),
        }
    }
}

/// Round trip: the strict inbound conversion recovers exactly the value
/// the outbound conversion wrote — for every heap, every previous cell
/// contents, and every value of the type.
pub trait ZvalRoundTrip: AssignTo + FromZval {
    /// Reading back the cell `assign_to` produced, against the heap it
    /// produced, yields this value's model. Moreover, whatever block the
    /// produced cell references is one the conversion itself allocated.
    proof fn lemma_round_trip(&self, h: Seq<BlockView>, before: Zval)
        requires
            heap_wf(h),
            h.len() + self.alloc_count() <= ZVAL_PTR_MAX,
            self.assignable(),
        ensures
            Self::from_spec(self.cell_after(h, before), self.heap_after(h)) == Ok::<
                Self::Model,
                Seq<char>,
            >(Self::model_of(*self)),
            (self.cell_after(h, before).spec_type() == tag_of(ZvalType::String)
                || self.cell_after(h, before).spec_type() == tag_of(ZvalType::Array))
                ==> self.cell_after(h, before).value.spec_ptr() >= h.len(),
    ;
}

impl ZvalRoundTrip for i8 {
    proof fn lemma_round_trip(&self, h: Seq<BlockView>, before: Zval) {
        lemma_type_info_extract();
    }
}

impl ZvalRoundTrip for i16 {
    proof fn lemma_round_trip(&self, h: Seq<BlockView>, before: Zval) {
        lemma_type_info_extract();
    }
}

impl ZvalRoundTrip for i32 {
    proof fn lemma_round_trip(&self, h: Seq<BlockView>, before: Zval) {
        lemma_type_info_extract();
    }
}

impl ZvalRoundTrip for i64 {
    proof fn lemma_round_trip(&self, h: Seq<BlockView>, before: Zval) {
        lemma_type_info_extract();
    }
}

impl ZvalRoundTrip for u8 {
    proof fn lemma_round_trip(&self, h: Seq<BlockView>, before: Zval) {
        lemma_type_info_extract();
    }
}

impl ZvalRoundTrip for u16 {
    proof fn lemma_round_trip(&self, h: Seq<BlockView>, before: Zval) {
        lemma_type_info_extract();
    }
}

impl ZvalRoundTrip for u32 {
    proof fn lemma_round_trip(&self, h: Seq<BlockView>, before: Zval) {
        lemma_type_info_extract();
    }
}

impl ZvalRoundTrip for u64 {
    proof fn lemma_round_trip(&self, h: Seq<BlockView>, before: Zval) {
        lemma_type_info_extract();
        let v = *self;
        assert((v as i64) as u64 == v) by (bit_vector);
    }
}

impl ZvalRoundTrip for ZvalValueDouble {
    proof fn lemma_round_trip(&self, h: Seq<BlockView>, before: Zval) {
        lemma_type_info_extract();
        let bits = self.data;
        assert((bits as i64) as u64 == bits) by (bit_vector);
    }
}

impl ZvalRoundTrip for String {
    proof fn lemma_round_trip(&self, h: Seq<BlockView>, before: Zval) {
        lemma_type_info_extract();
        let bytes = encode_utf8(self@);
        let cell = str_cell(h.len() as usize);
        let h2 = h.push(str_block_for(bytes));
        assert(cell.value.spec_ptr() == h.len());
        assert(str_at(h2, h.len() as usize) == str_block_for(bytes).body->StrB_0);
        let s = str_block_for(bytes).body->StrB_0;
        assert(s.content() =~= bytes);
        vstd::utf8::encode_utf8_valid_utf8(self@);
        vstd::utf8::encode_utf8_decode_utf8(self@);
    }
}

/// The element loop of a sequence conversion writes, under each new
/// ordinal key, a cell whose strict read-back against the final heap
/// recovers exactly the element's model.
pub proof fn lemma_vec_steps_round_trip<T: ZvalRoundTrip>(
    elems: Seq<T>,
    h: Seq<BlockView>,
    ht: usize,
    base: u64,
    tmp: Zval,
)
    requires
        heap_wf(h),
        live_arr(h, ht),
        h.len() + seq_alloc_count(elems) <= ZVAL_PTR_MAX,
        forall|i: int| 0 <= i < elems.len() ==> (#[trigger] elems[i]).assignable(),
        forall|j: int|
            0 <= j < arr_at(h, ht).entries.len() ==> (#[trigger] arr_at(h, ht).entries[j]).0
                < base,
        base + elems.len() <= 0xffff_ffff_ffff_ffff,
    ensures
        ({
            let h2 = vec_assign_steps(elems, h, ht, base, tmp).0;
            let pre = arr_at(h, ht).entries.len();
            forall|i: int|
                0 <= i < elems.len() ==> {
                    let ent = #[trigger] arr_at(h2, ht).entries[pre + i];
                    &&& ent.0 == base + i
                    &&& T::from_spec(ent.1, h2) == Ok::<T::Model, Seq<char>>(
                        T::model_of(elems[i]),
                    )
                }
        }),
    decreases elems.len(),
{
    if elems.len() > 0 {
        let e = elems[0];
        lemma_seq_alloc_skip(elems, 0);
        assert(elems.skip(0) =~= elems);
        e.lemma_assign_props(h, tmp);
        e.lemma_round_trip(h, tmp);
        lemma_vec_assign_one_step(e, h, ht, base, tmp);
        let h1 = e.heap_after(h);
        let c = e.cell_after(h, tmp);
        let hmid = vec_assign_step(e, h, ht, base, tmp).0;
        let pre = arr_at(h, ht).entries.len() as int;
        // the fresh cell still reads back the same against the mid heap
        assert(zval_wf(c, h1));
        if c.spec_type() == tag_of(ZvalType::String) || c.spec_type() == tag_of(
            ZvalType::Array,
        ) {
            assert(c.value.spec_ptr() >= h.len());
            assert(c.value.spec_ptr() != ht);
            assert(hmid[c.value.spec_ptr() as int] == h1[c.value.spec_ptr() as int]);
        }
        T::lemma_from_spec_frame(c, h1, hmid);
        // the tail of the loop
        lemma_vec_steps_props(elems.skip(1), hmid, ht, (base + 1) as u64, c);
        lemma_vec_steps_round_trip(elems.skip(1), hmid, ht, (base + 1) as u64, c);
        let h2 = vec_assign_steps(elems.skip(1), hmid, ht, (base + 1) as u64, c).0;
        assert(vec_assign_steps(elems, h, ht, base, tmp).0 == h2);
        // the fresh cell's block survives the tail untouched
        if c.spec_type() == tag_of(ZvalType::String) || c.spec_type() == tag_of(
            ZvalType::Array,
        ) {
            assert(h2[c.value.spec_ptr() as int] == hmid[c.value.spec_ptr() as int]);
        }
        T::lemma_from_spec_frame(c, hmid, h2);
        assert forall|i: int| 0 <= i < elems.len() implies {
            let ent = #[trigger] arr_at(h2, ht).entries[pre + i];
            &&& ent.0 == base + i
            &&& T::from_spec(ent.1, h2) == Ok::<T::Model, Seq<char>>(T::model_of(elems[i]))
        } by {
            if i == 0 {
                assert(arr_at(hmid, ht).entries[pre] == (base, c));
                assert(arr_at(h2, ht).entries[pre] == arr_at(hmid, ht).entries[pre]);
            } else {
                assert(arr_at(hmid, ht).entries.len() == pre + 1);
                assert(arr_at(h2, ht).entries[(pre + 1) + (i - 1)].0 == (base + 1) as u64 + (i
                    - 1));
                assert(elems.skip(1)[i - 1] == elems[i]);
            }
        }
    }
}

/// Sequence round trip: converting a native sequence to a host array
/// and reading back each ordinal index in order recovers the original
/// elements, and a lookup past the end finds no cell at all.
pub proof fn lemma_vec_assign_round_trip<T: ZvalRoundTrip>(
    v: &Vec<T>,
    h: Seq<BlockView>,
    before: Zval,
)
    requires
        heap_wf(h),
        h.len() + v.alloc_count() <= ZVAL_PTR_MAX,
        v.assignable(),
    ensures
        ({
            let h2 = v.heap_after(h);
            let ht = v.cell_after(h, before).value.spec_ptr();
            &&& live_arr(h2, ht)
            &&& arr_at(h2, ht).entries.len() == v@.len()
            &&& forall|i: int|
                0 <= i < v@.len() ==> #[trigger] arr_at(h2, ht).find(i as u64) == Some(
                    arr_at(h2, ht).entries[i].1,
                )
            &&& forall|i: int|
                0 <= i < v@.len() ==> T::from_spec((#[trigger] arr_at(h2, ht).entries[i]).1, h2)
                    == Ok::<T::Model, Seq<char>>(T::model_of(v@[i]))
            &&& forall|k: u64| k >= v@.len() ==> #[trigger] arr_at(h2, ht).find(k) is None
        }),
{
    crate::zval::lemma_type_info_extract();
    let h0 = h.push(empty_arr_block());
    let ht = h.len() as usize;
    assert(v.cell_after(h, before).value.spec_ptr() == ht);
    assert(body_wf(empty_arr_block().body, h));
    lemma_heap_wf_push(h, empty_arr_block());
    assert(h0[ht as int] == empty_arr_block());
    lemma_vec_steps_props(v@, h0, ht, 0, crate::zval::zeroed_cell());
    lemma_vec_steps_round_trip(v@, h0, ht, 0, crate::zval::zeroed_cell());
    let h2 = v.heap_after(h);
    let av = arr_at(h2, ht);
    assert(av.entries.len() == v@.len());
    assert(av.keys_distinct());
    assert(arr_at(h0, ht).entries.len() == 0);
    assert forall|i: int|
        0 <= i < v@.len() implies (#[trigger] av.entries[i]).0 == i as u64 && T::from_spec(
        av.entries[i].1,
        h2,
    ) == Ok::<T::Model, Seq<char>>(T::model_of(v@[i])) by {
        assert(av.entries[arr_at(h0, ht).entries.len() + i] == av.entries[i]);
    }
    assert forall|i: int| 0 <= i < v@.len() implies #[trigger] arr_at(h2, ht).find(i as u64)
        == Some(arr_at(h2, ht).entries[i].1) by {
        assert(av.entries[i].0 == i as u64);
        assert(av.has_key(i as u64));
        let j = choose|j: int| 0 <= j < av.entries.len() && av.entries[j].0 == i as u64;
        if j < i {
            assert(av.entries[j].0 != av.entries[i].0);
            assert(false);
        } else if j > i {
            assert(av.entries[i].0 != av.entries[j].0);
            assert(false);
        }
    }
    assert forall|k: u64| k >= v@.len() implies #[trigger] arr_at(h2, ht).find(k) is None by {
        if av.has_key(k) {
            let j = choose|j: int| 0 <= j < av.entries.len() && av.entries[j].0 == k;
            assert(av.entries[j].0 == j as u64);
            assert(false);
        }
    }
}

} // verus!
