//! Outbound conversion: populating a host cell from a native value.
//!
//! Every native type that can cross the boundary implements [`AssignTo`].
//! The trait's specification functions give each conversion an exact
//! functional model: what the heap looks like afterwards, and what cell is
//! produced. Primitive conversions never touch the heap; text allocates
//! one string block; a sequence allocates one array block plus whatever
//! its elements allocate.

use vstd::prelude::*;
use vstd::string::StringSliceAdditionalSpecFns;
use vstd::utf8::encode_utf8;
use crate::array::{ArrView, ZendArray};
use crate::zend_mm::{
    arr_at, body_wf, heap_wf, live_arr, live_count, lemma_heap_wf_push, lemma_heap_wf_replace,
    lemma_live_count_push, lemma_live_count_update, zval_wf, BlockView, BodyView, Refcounted,
    ZendBlockBody, ZendMMSingleton,
};
use crate::zstr::{CZendString, StrView};
use crate::zval::{
    lemma_type_info_extract, tag_of, type_info_of, zeroed_cell, Zval, ZvalType, ZvalValue,
    ZvalValueDouble, ZVAL_PTR_MAX,
};

verus! {

/// A native value that can populate a host cell.
///
/// The conversion is specified exactly: `heap_after` is the heap once the
/// conversion has run, `cell_after` the populated cell (which may keep
/// parts of the cell's previous contents, as the host's tag-only writes
/// do), and `alloc_count` how many host blocks the conversion allocates.
pub trait AssignTo {
    /// The machine-limit precondition of the conversion: every size
    /// computed while building host blocks fits its machine word.
    spec fn assignable(&self) -> bool;

    /// How many host heap blocks the conversion allocates.
    spec fn alloc_count(&self) -> nat;

    /// The heap after converting this value into a cell.
    spec fn heap_after(&self, h: Seq<BlockView>) -> Seq<BlockView>;

    /// The cell produced by the conversion, given the heap and the cell
    /// contents it overwrites.
    spec fn cell_after(&self, h: Seq<BlockView>, before: Zval) -> Zval;

    /// The conversion's model is sound: it extends the heap by exactly
    /// `alloc_count` live blocks, touches no pre-existing block, keeps
    /// the heap well-formed, and produces a well-formed cell.
    proof fn lemma_assign_props(&self, h: Seq<BlockView>, before: Zval)
        requires
            heap_wf(h),
            h.len() + self.alloc_count() <= ZVAL_PTR_MAX,
            self.assignable(),
        ensures
            heap_wf(self.heap_after(h)),
            self.heap_after(h).len() == h.len() + self.alloc_count(),
            forall|q: int| 0 <= q < h.len() ==> self.heap_after(h)[q] == h[q],
            live_count(self.heap_after(h)) == live_count(h) + self.alloc_count(),
            zval_wf(self.cell_after(h, before), self.heap_after(h)),
    ;

    /// Populate `target` with this value. Never fails: the only failure
    /// mode of an outbound conversion is host allocator exhaustion, which
    /// is fatal and excluded by the precondition.
    fn assign_to(&self, target: &mut Zval, mm: &mut ZendMMSingleton) -> (r: Option<String>)
        requires
            old(mm).wf(),
            old(mm)@.len() + self.alloc_count() <= ZVAL_PTR_MAX,
            self.assignable(),
        ensures
            r is None,
            final(mm).wf(),
            final(mm)@ =~~= self.heap_after(old(mm)@),
            *final(target) == self.cell_after(old(mm)@, *old(target)),
    ;
}

/// The cell holding a host integer.
pub open spec fn long_cell(v: i64) -> Zval {
    Zval { value: ZvalValue { data: v }, u1: type_info_of(ZvalType::Long), u2: 0 }
}

/// Populate `target` with a host integer.
fn assign_long(v: i64, target: &mut Zval)
    ensures
        *final(target) == long_cell(v),
{
    target.set_type(ZvalType::Long);
    target.value.data = v;
}

impl AssignTo for i8 {
    open spec fn assignable(&self) -> bool {
        true
    }

    open spec fn alloc_count(&self) -> nat {
        0
    }

    open spec fn heap_after(&self, h: Seq<BlockView>) -> Seq<BlockView> {
        h
    }

    open spec fn cell_after(&self, h: Seq<BlockView>, before: Zval) -> Zval {
        long_cell(*self as i64)
    }

    proof fn lemma_assign_props(&self, h: Seq<BlockView>, before: Zval) {
        lemma_type_info_extract();
    }

    fn assign_to(&self, target: &mut Zval, mm: &mut ZendMMSingleton) -> (r: Option<String>) {
        assign_long(*self as i64, target);
        None
    }
}

impl AssignTo for i16 {
    open spec fn assignable(&self) -> bool {
        true
    }

    open spec fn alloc_count(&self) -> nat {
        0
    }

    open spec fn heap_after(&self, h: Seq<BlockView>) -> Seq<BlockView> {
        h
    }

    open spec fn cell_after(&self, h: Seq<BlockView>, before: Zval) -> Zval {
        long_cell(*self as i64)
    }

    proof fn lemma_assign_props(&self, h: Seq<BlockView>, before: Zval) {
        lemma_type_info_extract();
    }

    fn assign_to(&self, target: &mut Zval, mm: &mut ZendMMSingleton) -> (r: Option<String>) {
        assign_long(*self as i64, target);
        None
    }
}

impl AssignTo for i32 {
    open spec fn assignable(&self) -> bool {
        true
    }

    open spec fn alloc_count(&self) -> nat {
        0
    }

    open spec fn heap_after(&self, h: Seq<BlockView>) -> Seq<BlockView> {
        h
    }

    open spec fn cell_after(&self, h: Seq<BlockView>, before: Zval) -> Zval {
        long_cell(*self as i64)
    }

    proof fn lemma_assign_props(&self, h: Seq<BlockView>, before: Zval) {
        lemma_type_info_extract();
    }

    fn assign_to(&self, target: &mut Zval, mm: &mut ZendMMSingleton) -> (r: Option<String>) {
        assign_long(*self as i64, target);
        None
    }
}

impl AssignTo for i64 {
    open spec fn assignable(&self) -> bool {
        true
    }

    open spec fn alloc_count(&self) -> nat {
        0
    }

    open spec fn heap_after(&self, h: Seq<BlockView>) -> Seq<BlockView> {
        h
    }

    open spec fn cell_after(&self, h: Seq<BlockView>, before: Zval) -> Zval {
        long_cell(*self)
    }

    proof fn lemma_assign_props(&self, h: Seq<BlockView>, before: Zval) {
        lemma_type_info_extract();
    }

    fn assign_to(&self, target: &mut Zval, mm: &mut ZendMMSingleton) -> (r: Option<String>) {
        assign_long(*self, target);
        None
    }
}

impl AssignTo for u8 {
    open spec fn assignable(&self) -> bool {
        true
    }

    open spec fn alloc_count(&self) -> nat {
        0
    }

    open spec fn heap_after(&self, h: Seq<BlockView>) -> Seq<BlockView> {
        h
    }

    open spec fn cell_after(&self, h: Seq<BlockView>, before: Zval) -> Zval {
        long_cell(*self as i64)
    }

    proof fn lemma_assign_props(&self, h: Seq<BlockView>, before: Zval) {
        lemma_type_info_extract();
    }

    fn assign_to(&self, target: &mut Zval, mm: &mut ZendMMSingleton) -> (r: Option<String>) {
        assign_long(*self as i64, target);
        None
    }
}

impl AssignTo for u16 {
    open spec fn assignable(&self) -> bool {
        true
    }

    open spec fn alloc_count(&self) -> nat {
        0
    }

    open spec fn heap_after(&self, h: Seq<BlockView>) -> Seq<BlockView> {
        h
    }

    open spec fn cell_after(&self, h: Seq<BlockView>, before: Zval) -> Zval {
        long_cell(*self as i64)
    }

    proof fn lemma_assign_props(&self, h: Seq<BlockView>, before: Zval) {
        lemma_type_info_extract();
    }

    fn assign_to(&self, target: &mut Zval, mm: &mut ZendMMSingleton) -> (r: Option<String>) {
        assign_long(*self as i64, target);
        None
    }
}

impl AssignTo for u32 {
    open spec fn assignable(&self) -> bool {
        true
    }

    open spec fn alloc_count(&self) -> nat {
        0
    }

    open spec fn heap_after(&self, h: Seq<BlockView>) -> Seq<BlockView> {
        h
    }

    open spec fn cell_after(&self, h: Seq<BlockView>, before: Zval) -> Zval {
        long_cell(*self as i64)
    }

    proof fn lemma_assign_props(&self, h: Seq<BlockView>, before: Zval) {
        lemma_type_info_extract();
    }

    fn assign_to(&self, target: &mut Zval, mm: &mut ZendMMSingleton) -> (r: Option<String>) {
        assign_long(*self as i64, target);
        None
    }
}

impl AssignTo for u64 {
    open spec fn assignable(&self) -> bool {
        true
    }

    open spec fn alloc_count(&self) -> nat {
        0
    }

    open spec fn heap_after(&self, h: Seq<BlockView>) -> Seq<BlockView> {
        h
    }

    open spec fn cell_after(&self, h: Seq<BlockView>, before: Zval) -> Zval {
        long_cell(*self as i64)
    }

    proof fn lemma_assign_props(&self, h: Seq<BlockView>, before: Zval) {
        lemma_type_info_extract();
    }

    fn assign_to(&self, target: &mut Zval, mm: &mut ZendMMSingleton) -> (r: Option<String>) {
        assign_long(*self as i64, target);
        None
    }
}

impl AssignTo for bool {
    open spec fn assignable(&self) -> bool {
        true
    }

    open spec fn alloc_count(&self) -> nat {
        0
    }

    open spec fn heap_after(&self, h: Seq<BlockView>) -> Seq<BlockView> {
        h
    }

    open spec fn cell_after(&self, h: Seq<BlockView>, before: Zval) -> Zval {
        Zval {
            value: before.value,
            u1: type_info_of(
                if *self {
                    ZvalType::True
                } else {
                    ZvalType::False
                },
            ),
            u2: 0,
        }
    }

    proof fn lemma_assign_props(&self, h: Seq<BlockView>, before: Zval) {
        lemma_type_info_extract();
    }

    fn assign_to(&self, target: &mut Zval, mm: &mut ZendMMSingleton) -> (r: Option<String>) {
        target.set_type(
            match *self {
                true => ZvalType::True,
                false => ZvalType::False,
            },
        );
        None
    }
}

impl AssignTo for ZvalValueDouble {
    open spec fn assignable(&self) -> bool {
        true
    }

    open spec fn alloc_count(&self) -> nat {
        0
    }

    open spec fn heap_after(&self, h: Seq<BlockView>) -> Seq<BlockView> {
        h
    }

    open spec fn cell_after(&self, h: Seq<BlockView>, before: Zval) -> Zval {
        Zval {
            value: ZvalValue { data: self.data as i64 },
            u1: type_info_of(ZvalType::Double),
            u2: 0,
        }
    }

    proof fn lemma_assign_props(&self, h: Seq<BlockView>, before: Zval) {
        lemma_type_info_extract();
    }

    fn assign_to(&self, target: &mut Zval, mm: &mut ZendMMSingleton) -> (r: Option<String>) {
        target.set_type(ZvalType::Double);
        target.value.set_double_bits(self.data);
        None
    }
}

impl<T: AssignTo> AssignTo for Option<T> {
    open spec fn assignable(&self) -> bool {
        match self {
            Option::None => true,
            Option::Some(v) => v.assignable(),
        }
    }

    open spec fn alloc_count(&self) -> nat {
        match self {
            Option::None => 0,
            Option::Some(v) => v.alloc_count(),
        }
    }

    open spec fn heap_after(&self, h: Seq<BlockView>) -> Seq<BlockView> {
        match self {
            Option::None => h,
            Option::Some(v) => v.heap_after(h),
        }
    }

    open spec fn cell_after(&self, h: Seq<BlockView>, before: Zval) -> Zval {
        match self {
            Option::None => Zval {
                value: before.value,
                u1: type_info_of(ZvalType::Null),
                u2: 0,
            },
            Option::Some(v) => v.cell_after(h, before),
        }
    }

    proof fn lemma_assign_props(&self, h: Seq<BlockView>, before: Zval) {
        match self {
            Option::None => {
                lemma_type_info_extract();
            },
            Option::Some(v) => {
                v.lemma_assign_props(h, before);
            },
        }
    }

    fn assign_to(&self, target: &mut Zval, mm: &mut ZendMMSingleton) -> (r: Option<String>) {
        match self {
            Option::None => {
                target.set_type(ZvalType::Null);
            },
            Option::Some(v) => {
                v.assign_to(target, mm);
            },
        }
        None
    }
}

/// The string block written for text whose encoded bytes are `bytes`:
/// refcount one, string type information, the bytes, the terminator.
pub open spec fn str_block_for(bytes: Seq<u8>) -> BlockView {
    BlockView {
        live: true,
        body: BodyView::StrB(
            StrView {
                refcount: 1,
                type_info: tag_of(ZvalType::String),
                hash: 0,
                len: bytes.len(),
                bytes: bytes + seq![0u8],
            },
        ),
    }
}

/// The cell referencing a freshly written string block at address `p`.
pub open spec fn str_cell(p: usize) -> Zval {
    Zval {
        value: ZvalValue { data: p as i64 },
        u1: type_info_of(ZvalType::String),
        u2: 0,
    }
}

/// The heap and cell properties of appending one string block.
pub proof fn lemma_str_assign_props(bytes: Seq<u8>, h: Seq<BlockView>)
    requires
        heap_wf(h),
        h.len() + 1 <= ZVAL_PTR_MAX,
    ensures
        heap_wf(h.push(str_block_for(bytes))),
        live_count(h.push(str_block_for(bytes))) == live_count(h) + 1,
        zval_wf(str_cell(h.len() as usize), h.push(str_block_for(bytes))),
{
    lemma_type_info_extract();
    assert(str_block_for(bytes).body->StrB_0.wf()) by {
        let b = bytes + seq![0u8];
        assert(b.len() == bytes.len() + 1);
        assert(b[bytes.len() as int] == 0);
    }
    lemma_heap_wf_push(h, str_block_for(bytes));
    lemma_live_count_push(h, str_block_for(bytes));
    assert(h.push(str_block_for(bytes))[h.len() as int] == str_block_for(bytes));
}

/// Text layout: the block written for text records exactly the encoded
/// byte length, and the reserved terminator byte is zero, sits behind
/// the content, and is never part of it.
pub proof fn lemma_str_block_layout(s: Seq<char>)
    ensures
        str_block_for(encode_utf8(s)).body->StrB_0.len == encode_utf8(s).len(),
        str_block_for(encode_utf8(s)).body->StrB_0.bytes.len() == encode_utf8(s).len() + 1,
        str_block_for(encode_utf8(s)).body->StrB_0.bytes.last() == 0,
        str_block_for(encode_utf8(s)).body->StrB_0.content() =~= encode_utf8(s),
{
}

/// Populate `target` with text: allocate a string block sized for the
/// encoded bytes plus the terminator, copy the bytes, seat the
/// terminator, and hand the block's only reference to the cell.
pub(crate) fn assign_str(s: &str, target: &mut Zval, mm: &mut ZendMMSingleton) -> (r: Option<String>)
    requires
        old(mm).wf(),
        old(mm)@.len() + 1 <= ZVAL_PTR_MAX,
        s.spec_bytes().len() < usize::MAX,
    ensures
        r is None,
        final(mm).wf(),
        final(mm)@ =~~= old(mm)@.push(str_block_for(encode_utf8(s@))),
        *final(target) == str_cell(old(mm)@.len() as usize),
{
    let bytes = s.as_bytes();
    let n = bytes.len();
    let mut zstr = CZendString::new(n, false);
    zstr.set_value(bytes);
    proof {
        lemma_str_assign_props(encode_utf8(s@), old(mm)@);
        assert(zstr@ =~~= str_block_for(encode_utf8(s@)).body->StrB_0);
        assert(body_wf(BodyView::StrB(zstr@), old(mm)@));
    }
    let rc = Refcounted::new(mm, ZendBlockBody::StrBlock(zstr));
    let p = Refcounted::into_raw(rc);
    target.value.set_ptr(p);
    target.set_type(ZvalType::String);
    None
}

impl AssignTo for &str {
    open spec fn assignable(&self) -> bool {
        encode_utf8(self@).len() < usize::MAX
    }

    open spec fn alloc_count(&self) -> nat {
        1
    }

    open spec fn heap_after(&self, h: Seq<BlockView>) -> Seq<BlockView> {
        h.push(str_block_for(encode_utf8(self@)))
    }

    open spec fn cell_after(&self, h: Seq<BlockView>, before: Zval) -> Zval {
        str_cell(h.len() as usize)
    }

    proof fn lemma_assign_props(&self, h: Seq<BlockView>, before: Zval) {
        lemma_str_assign_props(encode_utf8(self@), h);
    }

    fn assign_to(&self, target: &mut Zval, mm: &mut ZendMMSingleton) -> (r: Option<String>) {
        assign_str(self, target, mm)
    }
}

impl AssignTo for String {
    open spec fn assignable(&self) -> bool {
        encode_utf8(self@).len() < usize::MAX
    }

    open spec fn alloc_count(&self) -> nat {
        1
    }

    open spec fn heap_after(&self, h: Seq<BlockView>) -> Seq<BlockView> {
        h.push(str_block_for(encode_utf8(self@)))
    }

    open spec fn cell_after(&self, h: Seq<BlockView>, before: Zval) -> Zval {
        str_cell(h.len() as usize)
    }

    proof fn lemma_assign_props(&self, h: Seq<BlockView>, before: Zval) {
        lemma_str_assign_props(encode_utf8(self@), h);
    }

    fn assign_to(&self, target: &mut Zval, mm: &mut ZendMMSingleton) -> (r: Option<String>) {
        assign_str(self.as_str(), target, mm)
    }
}

/// Total block allocation of a sequence of values.
pub open spec fn seq_alloc_count<T: AssignTo>(s: Seq<T>) -> nat
    decreases s.len(),
{
    if s.len() == 0 {
        0
    } else {
        s[0].alloc_count() + seq_alloc_count(s.skip(1))
    }
}

/// Unfolding the total allocation at position `k`.
pub proof fn lemma_seq_alloc_skip<T: AssignTo>(s: Seq<T>, k: int)
    requires
        0 <= k < s.len(),
    ensures
        seq_alloc_count(s.skip(k)) == s[k].alloc_count() + seq_alloc_count(s.skip(k + 1)),
{
    assert(s.skip(k)[0] == s[k]);
    assert(s.skip(k).skip(1) =~= s.skip(k + 1));
}

/// A freshly allocated, still empty array block.
pub open spec fn empty_arr_block() -> BlockView {
    BlockView {
        live: true,
        body: BodyView::ArrB(
            ArrView { refcount: 1, type_info: tag_of(ZvalType::Array), entries: Seq::empty() },
        ),
    }
}

/// One element's share of a sequence conversion: convert the element into
/// the scratch cell, then insert that cell into the array block at `ht`
/// under `key`. Yields the heap and the scratch cell afterwards.
pub open spec fn vec_assign_step<T: AssignTo>(
    e: T,
    h: Seq<BlockView>,
    ht: usize,
    key: u64,
    tmp: Zval,
) -> (Seq<BlockView>, Zval) {
    let h1 = e.heap_after(h);
    let c = e.cell_after(h, tmp);
    let av = arr_at(h1, ht);
    (
        h1.update(
            ht as int,
            BlockView {
                live: true,
                body: BodyView::ArrB(
                    ArrView {
                        refcount: av.refcount,
                        type_info: av.type_info,
                        entries: av.entries.push((key, c)),
                    },
                ),
            },
        ),
        c,
    )
}

/// The whole element loop of a sequence conversion, element by element in
/// order, keys counting up from `base`.
pub open spec fn vec_assign_steps<T: AssignTo>(
    elems: Seq<T>,
    h: Seq<BlockView>,
    ht: usize,
    base: u64,
    tmp: Zval,
) -> (Seq<BlockView>, Zval)
    decreases elems.len(),
{
    if elems.len() == 0 {
        (h, tmp)
    } else {
        let s = vec_assign_step(elems[0], h, ht, base, tmp);
        vec_assign_steps(elems.skip(1), s.0, ht, (base + 1) as u64, s.1)
    }
}

/// The element loop over `elems.push(e)` is the loop over `elems`
/// followed by one step for `e`.
pub proof fn lemma_vec_steps_snoc<T: AssignTo>(
    elems: Seq<T>,
    e: T,
    h: Seq<BlockView>,
    ht: usize,
    base: u64,
    tmp: Zval,
)
    requires
        base + elems.len() + 1 <= 0xffff_ffff_ffff_ffff,
    ensures
        ({
            let mid = vec_assign_steps(elems, h, ht, base, tmp);
            vec_assign_steps(elems.push(e), h, ht, base, tmp) == vec_assign_step(
                e,
                mid.0,
                ht,
                (base + elems.len()) as u64,
                mid.1,
            )
        }),
    decreases elems.len(),
{
    if elems.len() == 0 {
        assert(elems.push(e)[0] == e);
        assert(elems.push(e).skip(1) =~= Seq::<T>::empty());
        let s = vec_assign_step(e, h, ht, base, tmp);
        assert(vec_assign_steps(elems.push(e), h, ht, base, tmp) == vec_assign_steps(
            Seq::<T>::empty(),
            s.0,
            ht,
            (base + 1) as u64,
            s.1,
        ));
        assert(vec_assign_steps(elems, h, ht, base, tmp) == (h, tmp));
        assert((base + elems.len()) as u64 == base);
    } else {
        assert(elems.push(e)[0] == elems[0]);
        let s = vec_assign_step(elems[0], h, ht, base, tmp);
        assert(elems.push(e).skip(1) =~= elems.skip(1).push(e));
        assert(vec_assign_steps(elems.push(e), h, ht, base, tmp) == vec_assign_steps(
            elems.skip(1).push(e),
            s.0,
            ht,
            (base + 1) as u64,
            s.1,
        ));
        lemma_vec_steps_snoc(elems.skip(1), e, s.0, ht, (base + 1) as u64, s.1);
        let mid2 = vec_assign_steps(elems.skip(1), s.0, ht, (base + 1) as u64, s.1);
        assert(vec_assign_steps(elems, h, ht, base, tmp) == mid2);
        assert(((base + 1) as u64 + elems.skip(1).len()) as u64 == (base + elems.len()) as u64);
    }
}

/// The structural soundness of one element's step on a well-formed heap
/// with a live array block whose keys all lie below the new key.
pub proof fn lemma_vec_assign_one_step<T: AssignTo>(
    e: T,
    h: Seq<BlockView>,
    ht: usize,
    base: u64,
    tmp: Zval,
)
    requires
        heap_wf(h),
        live_arr(h, ht),
        h.len() + e.alloc_count() <= ZVAL_PTR_MAX,
        e.assignable(),
        forall|j: int|
            0 <= j < arr_at(h, ht).entries.len() ==> (#[trigger] arr_at(h, ht).entries[j]).0
                < base,
    ensures
        ({
            let hmid = vec_assign_step(e, h, ht, base, tmp).0;
            let c = e.cell_after(h, tmp);
            &&& heap_wf(hmid)
            &&& live_arr(hmid, ht)
            &&& hmid.len() == h.len() + e.alloc_count()
            &&& forall|q: int| 0 <= q < h.len() && q != ht ==> hmid[q] == h[q]
            &&& forall|q: int|
                h.len() <= q < hmid.len() ==> hmid[q] == e.heap_after(h)[q]
            &&& live_count(hmid) == live_count(h) + e.alloc_count()
            &&& arr_at(hmid, ht).refcount == arr_at(h, ht).refcount
            &&& arr_at(hmid, ht).type_info == arr_at(h, ht).type_info
            &&& arr_at(hmid, ht).entries == arr_at(h, ht).entries.push((base, c))
            &&& zval_wf(c, hmid)
            &&& forall|j: int|
                0 <= j < arr_at(hmid, ht).entries.len() ==> (#[trigger] arr_at(
                    hmid,
                    ht,
                ).entries[j]).0 < base + 1
        }),
{
    e.lemma_assign_props(h, tmp);
    let h1 = e.heap_after(h);
    let c = e.cell_after(h, tmp);
    assert(h1[ht as int] == h[ht as int]);
    let av = arr_at(h1, ht);
    assert(av == arr_at(h, ht));
    let b2 = BlockView {
        live: true,
        body: BodyView::ArrB(
            ArrView {
                refcount: av.refcount,
                type_info: av.type_info,
                entries: av.entries.push((base, c)),
            },
        ),
    };
    assert(body_wf(b2.body, h1)) by {
        let e2 = av.entries.push((base, c));
        assert(av.keys_distinct());
        assert forall|i: int, j: int| 0 <= i < j < e2.len() implies e2[i].0 != e2[j].0 by {
            if j == e2.len() - 1 {
                assert(e2[i] == av.entries[i]);
                assert(av.entries[i] == arr_at(h, ht).entries[i]);
                assert(arr_at(h, ht).entries[i].0 < base);
            } else {
                assert(e2[i] == av.entries[i]);
                assert(e2[j] == av.entries[j]);
            }
        }
        assert forall|k: int| 0 <= k < e2.len() implies zval_wf(#[trigger] e2[k].1, h1) by {
            if k < av.entries.len() {
                assert(e2[k] == av.entries[k]);
                assert(heap_wf(h1));
            } else {
                assert(e2[k].1 == c);
            }
        }
    }
    lemma_heap_wf_replace(h1, ht as int, b2);
    lemma_live_count_update(h1, ht as int, b2);
    let hmid = h1.update(ht as int, b2);
    assert(zval_wf(c, hmid)) by {
        crate::zend_mm::lemma_zval_wf_update_same_kind(c, h1, ht as int, b2);
    }
    assert forall|j: int| 0 <= j < arr_at(hmid, ht).entries.len() implies (#[trigger] arr_at(
        hmid,
        ht,
    ).entries[j]).0 < base + 1 by {
        if j < av.entries.len() {
            assert(arr_at(hmid, ht).entries[j] == av.entries[j]);
            assert(av.entries[j] == arr_at(h, ht).entries[j]);
            assert(arr_at(h, ht).entries[j].0 < base);
        } else {
            assert(arr_at(hmid, ht).entries[j].0 == base);
        }
    }
}

/// The structural soundness of the element loop: the heap stays
/// well-formed, only grows (never touching a pre-existing block other
/// than the array itself), the array block keeps its header, and its
/// entries grow by one ordinal-keyed slot per element.
pub proof fn lemma_vec_steps_props<T: AssignTo>(
    elems: Seq<T>,
    h: Seq<BlockView>,
    ht: usize,
    base: u64,
    tmp: Zval,
)
    requires
        heap_wf(h),
        live_arr(h, ht),
        h.len() + seq_alloc_count(elems) <= ZVAL_PTR_MAX,
        forall|i: int| 0 <= i < elems.len() ==> (#[trigger] elems[i]).assignable(),
        forall|j: int|
            0 <= j < arr_at(h, ht).entries.len() ==> (#[trigger] arr_at(h, ht).entries[j]).0
                < base,
        base + elems.len() <= 0xffff_ffff_ffff_ffff,
    ensures
        ({
            let h2 = vec_assign_steps(elems, h, ht, base, tmp).0;
            &&& heap_wf(h2)
            &&& live_arr(h2, ht)
            &&& h2.len() == h.len() + seq_alloc_count(elems)
            &&& forall|q: int| 0 <= q < h.len() && q != ht ==> h2[q] == h[q]
            &&& live_count(h2) == live_count(h) + seq_alloc_count(elems)
            &&& arr_at(h2, ht).refcount == arr_at(h, ht).refcount
            &&& arr_at(h2, ht).type_info == arr_at(h, ht).type_info
            &&& arr_at(h2, ht).entries.len() == arr_at(h, ht).entries.len() + elems.len()
            &&& forall|j: int|
                0 <= j < arr_at(h, ht).entries.len() ==> arr_at(h2, ht).entries[j] == arr_at(
                    h,
                    ht,
                ).entries[j]
            &&& forall|j: int|
                0 <= j < arr_at(h2, ht).entries.len() ==> (#[trigger] arr_at(
                    h2,
                    ht,
                ).entries[j]).0 < base + elems.len()
        }),
    decreases elems.len(),
{
    if elems.len() == 0 {
    } else {
        let e = elems[0];
        lemma_seq_alloc_skip(elems, 0);
        assert(elems.skip(0) =~= elems);
        lemma_vec_assign_one_step(e, h, ht, base, tmp);
        let c = e.cell_after(h, tmp);
        let h2 = vec_assign_step(e, h, ht, base, tmp).0;
        lemma_vec_steps_props(elems.skip(1), h2, ht, (base + 1) as u64, c);
        let hend = vec_assign_steps(elems.skip(1), h2, ht, (base + 1) as u64, c).0;
        assert(vec_assign_steps(elems, h, ht, base, tmp).0 == hend);
        assert forall|q: int| 0 <= q < h.len() && q != ht implies hend[q] == h[q] by {
            assert(h2[q] == h[q]);
            assert(hend[q] == h2[q]);
        }
        assert forall|j: int| 0 <= j < arr_at(h, ht).entries.len() implies arr_at(
            hend,
            ht,
        ).entries[j] == arr_at(h, ht).entries[j] by {
            assert(arr_at(h2, ht).entries[j] == arr_at(h, ht).entries[j]);
        }
    }
}

impl<T: AssignTo> AssignTo for Vec<T> {
    open spec fn assignable(&self) -> bool {
        &&& forall|i: int| 0 <= i < self@.len() ==> (#[trigger] self@[i]).assignable()
        &&& self@.len() <= 0xffff_ffff_ffff_ffff
    }

    open spec fn alloc_count(&self) -> nat {
        1 + seq_alloc_count(self@)
    }

    open spec fn heap_after(&self, h: Seq<BlockView>) -> Seq<BlockView> {
        vec_assign_steps(
            self@,
            h.push(empty_arr_block()),
            h.len() as usize,
            0,
            zeroed_cell(),
        ).0
    }

    open spec fn cell_after(&self, h: Seq<BlockView>, before: Zval) -> Zval {
        Zval {
            value: ZvalValue { data: h.len() as i64 },
            u1: type_info_of(ZvalType::Array),
            u2: 0,
        }
    }

    proof fn lemma_assign_props(&self, h: Seq<BlockView>, before: Zval) {
        lemma_type_info_extract();
        let h0 = h.push(empty_arr_block());
        let ht = h.len() as usize;
        assert(body_wf(empty_arr_block().body, h));
        lemma_heap_wf_push(h, empty_arr_block());
        lemma_live_count_push(h, empty_arr_block());
        assert(h0[ht as int] == empty_arr_block());
        lemma_vec_steps_props(self@, h0, ht, 0, zeroed_cell());
    }

    fn assign_to(&self, target: &mut Zval, mm: &mut ZendMMSingleton) -> (r: Option<String>) {
        let ghost hpre = mm@;
        proof {
            assert(body_wf(empty_arr_block().body, hpre));
        }
        let rc = ZendArray::new(mm);
        let ht = Refcounted::into_raw(rc);
        target.value.set_ptr(ht);
        target.set_type(ZvalType::Array);
        let ghost h0 = mm@;
        proof {
            assert(h0 =~~= hpre.push(empty_arr_block()));
            assert(h0 == hpre.push(empty_arr_block()));
            assert(self@.skip(0) =~= self@);
            assert(self@.take(0) =~= Seq::<T>::empty());
        }
        let n = self.len();
        let mut tmp = Zval::new();
        let mut k: usize = 0;
        while k < n
            invariant
                mm.wf(),
                n == self@.len(),
                k <= n,
                ht == hpre.len(),
                h0 == hpre.push(empty_arr_block()),
                crate::zend_mm::live_arr(mm@, ht),
                mm@.len() + seq_alloc_count(self@.skip(k as int)) <= ZVAL_PTR_MAX,
                forall|i: int| 0 <= i < n ==> (#[trigger] self@[i]).assignable(),
                mm@ == vec_assign_steps(self@.take(k as int), h0, ht, 0, zeroed_cell()).0,
                tmp == vec_assign_steps(self@.take(k as int), h0, ht, 0, zeroed_cell()).1,
                arr_at(mm@, ht).entries.len() == k,
                forall|j: int| 0 <= j < k ==> (#[trigger] arr_at(mm@, ht).entries[j]).0 == j,
            decreases n - k,
        {
            let ghost hcur = mm@;
            let ghost tcur = tmp;
            proof {
                lemma_seq_alloc_skip(self@, k as int);
            }
            let e = &self[k];
            e.assign_to(&mut tmp, mm);
            proof {
                e.lemma_assign_props(hcur, tcur);
                assert(mm@ =~~= e.heap_after(hcur));
                assert(mm@ == e.heap_after(hcur));
                assert(mm@[ht as int] == hcur[ht as int]);
                assert(crate::zend_mm::live_arr(mm@, ht));
                assert(arr_at(mm@, ht) == arr_at(hcur, ht));
                assert forall|i: int|
                    0 <= i < arr_at(mm@, ht).entries.len() implies (#[trigger] arr_at(
                    mm@,
                    ht,
                ).entries[i]).0 != k as u64 by {
                    assert(arr_at(hcur, ht).entries[i].0 == i);
                }
                assert(!arr_at(mm@, ht).has_key(k as u64));
            }
            mm.hash_index_add_new(ht, k as u64, tmp);
            proof {
                lemma_vec_steps_snoc(self@.take(k as int), self@[k as int], h0, ht, 0, zeroed_cell());
                assert(self@.take(k as int).push(self@[k as int]) =~= self@.take(k as int + 1));
                let s = vec_assign_step(self@[k as int], hcur, ht, k as u64, tcur);
                assert(mm@ =~~= s.0);
                assert(mm@ == s.0);
                assert(tmp == s.1);
                assert(mm@ == vec_assign_steps(self@.take(k as int + 1), h0, ht, 0, zeroed_cell()).0);
                assert forall|j: int|
                    0 <= j < k + 1 implies (#[trigger] arr_at(mm@, ht).entries[j]).0 == j by {
                    if j < k {
                        assert(arr_at(mm@, ht).entries[j] == arr_at(hcur, ht).entries[j]);
                    }
                }
            }
            k = k + 1;
        }
        proof {
            assert(self@.take(n as int) =~= self@);
        }
        None
    }
}

} // verus!
