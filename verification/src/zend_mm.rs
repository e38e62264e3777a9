//! The host memory manager, modelled as explicit data: a sequence of heap
//! blocks, each either a string block or an array block, with the common
//! refcount header at its front. Pointers are block addresses into this
//! model.
//!
//! Every block this layer creates is released through the host's own
//! entry points, never freed locally: [`ZendMMSingleton::dtor`] models the
//! host's value destructor, [`Refcounted::drop_ptr`] the decrement-or-
//! destroy protocol, and [`ZendBox::free`] the raw allocator free.

use vstd::prelude::*;
use crate::array::{ArrView, ZendArray};
use crate::zstr::{CZendString, StrView};
use crate::zval::{tag_of, Zval, ZvalType, ZVAL_PTR_MAX};

verus! {

/// The pointer value of a released ownership handle; never a valid block
/// address.
pub const ZEND_MM_RELEASED: usize = usize::MAX;

/// The common refcount header: the first two words of every
/// variable-length host heap block.
#[derive(Clone, Copy, Debug, PartialEq, Eq, Structural)]
pub struct ZendRefcounted {
    /// How many references the host knows of.
    pub refcount: u32,
    /// The block's type-information word.
    pub type_info: u32,
}

/// The contents of one host heap block.
#[derive(Debug)]
pub enum ZendBlockBody {
    /// A string block.
    StrBlock(CZendString),
    /// An array (hash table) block.
    ArrBlock(ZendArray),
}

/// One slot of the modelled host heap.
#[derive(Debug)]
pub struct ZendHeapBlock {
    /// Whether the block is still allocated. A destroyed block keeps its
    /// last contents but must never be read again.
    pub live: bool,
    /// The block contents.
    pub body: ZendBlockBody,
}

/// The mathematical image of a block's contents.
#[verifier::ext_equal]
pub enum BodyView {
    /// A string block.
    StrB(StrView),
    /// An array block.
    ArrB(ArrView),
}

/// The mathematical image of one heap slot.
#[verifier::ext_equal]
pub struct BlockView {
    /// Whether the block is still allocated.
    pub live: bool,
    /// The block contents.
    pub body: BodyView,
}

/// The reference count stored in a block's common header.
pub open spec fn refcount_of(b: BodyView) -> u32 {
    match b {
        BodyView::StrB(s) => s.refcount,
        BodyView::ArrB(a) => a.refcount,
    }
}

/// The image of a block body.
pub open spec fn body_view(b: ZendBlockBody) -> BodyView {
    match b {
        ZendBlockBody::StrBlock(s) => BodyView::StrB(s@),
        ZendBlockBody::ArrBlock(a) => BodyView::ArrB(a@),
    }
}

impl View for ZendHeapBlock {
    type V = BlockView;

    open spec fn view(&self) -> BlockView {
        BlockView { live: self.live, body: body_view(self.body) }
    }
}

/// `p` addresses a live string block of `h`.
pub open spec fn live_str(h: Seq<BlockView>, p: usize) -> bool {
    p < h.len() && h[p as int].live && h[p as int].body is StrB
}

/// `p` addresses a live array block of `h`.
pub open spec fn live_arr(h: Seq<BlockView>, p: usize) -> bool {
    p < h.len() && h[p as int].live && h[p as int].body is ArrB
}

/// The string block at address `p`.
pub open spec fn str_at(h: Seq<BlockView>, p: usize) -> StrView {
    h[p as int].body->StrB_0
}

/// The array block at address `p`.
pub open spec fn arr_at(h: Seq<BlockView>, p: usize) -> ArrView {
    h[p as int].body->ArrB_0
}

/// A cell is well-formed with respect to a heap when whatever block its
/// tag says it references is still a live block of that kind.
pub open spec fn zval_wf(zv: Zval, h: Seq<BlockView>) -> bool {
    &&& zv.spec_type() == tag_of(ZvalType::String) ==> live_str(h, zv.value.spec_ptr())
    &&& zv.spec_type() == tag_of(ZvalType::Array) ==> live_arr(h, zv.value.spec_ptr())
}

/// The cell references exactly the block at address `p`.
pub open spec fn zval_points_to(zv: Zval, p: usize) -> bool {
    &&& zv.spec_type() == tag_of(ZvalType::String) || zv.spec_type() == tag_of(ZvalType::Array)
    &&& zv.value.spec_ptr() == p
}

/// No cell stored in any live array of `h` references the block at `p`.
/// Destroying a block is only sound under this condition.
pub open spec fn unreferenced(h: Seq<BlockView>, p: usize) -> bool {
    forall|q: int, k: int|
        0 <= q < h.len() && h[q].live && h[q].body is ArrB && 0 <= k
            < h[q].body->ArrB_0.entries.len() ==> !zval_points_to(
            (#[trigger] h[q].body->ArrB_0.entries[k]).1,
            p,
        )
}

/// A well-formed heap: small enough that every address fits the pointer
/// face of a cell, string blocks correctly terminated, array keys
/// distinct, and every cell stored in a live array well-formed.
pub open spec fn heap_wf(h: Seq<BlockView>) -> bool {
    &&& h.len() <= ZVAL_PTR_MAX + 1
    &&& forall|p: int|
        0 <= p < h.len() && h[p].body is StrB ==> (#[trigger] h[p].body->StrB_0).wf()
    &&& forall|p: int|
        0 <= p < h.len() && h[p].body is ArrB ==> (#[trigger] h[p].body->ArrB_0).keys_distinct()
    &&& forall|p: int, k: int|
        0 <= p < h.len() && h[p].live && h[p].body is ArrB && 0 <= k
            < h[p].body->ArrB_0.entries.len() ==> zval_wf(
            (#[trigger] h[p].body->ArrB_0.entries[k]).1,
            h,
        )
}

/// How many blocks of `h` are still allocated. This is the model's
/// measure of host memory usage.
pub open spec fn live_count(h: Seq<BlockView>) -> nat
    decreases h.len(),
{
    if h.len() == 0 {
        0
    } else {
        live_count(h.drop_last()) + if h.last().live {
            1nat
        } else {
            0nat
        }
    }
}

/// Appending a block adds its own liveness to the live count.
pub proof fn lemma_live_count_push(h: Seq<BlockView>, b: BlockView)
    ensures
        live_count(h.push(b)) == live_count(h) + if b.live {
            1nat
        } else {
            0nat
        },
{
    assert(h.push(b).drop_last() =~= h);
}

/// Replacing one block changes the live count by the difference of the
/// two blocks' liveness.
pub proof fn lemma_live_count_update(h: Seq<BlockView>, p: int, b: BlockView)
    requires
        0 <= p < h.len(),
    ensures
        live_count(h.update(p, b)) + if h[p].live {
            1nat
        } else {
            0nat
        } == live_count(h) + if b.live {
            1nat
        } else {
            0nat
        },
    decreases h.len(),
{
    let h2 = h.update(p, b);
    if p == h.len() - 1 {
        assert(h2.drop_last() =~= h.drop_last());
    } else {
        assert(h2.drop_last() =~= h.drop_last().update(p, b));
        lemma_live_count_update(h.drop_last(), p, b);
    }
}

/// A cell well-formed in `h` stays well-formed when the block at `p` is
/// replaced by a live block of the same kind.
pub proof fn lemma_zval_wf_update_same_kind(zv: Zval, h: Seq<BlockView>, p: int, b: BlockView)
    requires
        zval_wf(zv, h),
        0 <= p < h.len(),
        b.live,
        b.body is StrB <==> h[p].body is StrB,
        h[p].live,
    ensures
        zval_wf(zv, h.update(p, b)),
{
}

/// A freshly appended string block is referenced by no live array: every
/// cell stored in an array of a well-formed heap references a block that
/// already existed.
pub proof fn lemma_fresh_block_unreferenced(h: Seq<BlockView>, b: BlockView)
    requires
        heap_wf(h),
        b.body is StrB,
    ensures
        unreferenced(h.push(b), h.len() as usize),
{
    let h2 = h.push(b);
    let p = h.len() as usize;
    assert forall|q: int, k: int|
        0 <= q < h2.len() && h2[q].live && h2[q].body is ArrB && 0 <= k
            < h2[q].body->ArrB_0.entries.len() implies !zval_points_to(
        (#[trigger] h2[q].body->ArrB_0.entries[k]).1,
        p,
    ) by {
        if q < h.len() {
            assert(h2[q] == h[q]);
            let zv = h[q].body->ArrB_0.entries[k].1;
            assert(zval_wf(zv, h));
            if zv.spec_type() == tag_of(ZvalType::String) {
                assert(live_str(h, zv.value.spec_ptr()));
            }
            if zv.spec_type() == tag_of(ZvalType::Array) {
                assert(live_arr(h, zv.value.spec_ptr()));
            }
        } else {
            assert(h2[q] == b);
        }
    }
}

/// The host memory manager. The real manager is a process-wide singleton;
/// the model carries the heap it manages as explicit state.
#[derive(Debug)]
pub struct ZendMMSingleton {
    /// The heap blocks, indexed by block address.
    pub blocks: Vec<ZendHeapBlock>,
}

impl View for ZendMMSingleton {
    type V = Seq<BlockView>;

    open spec fn view(&self) -> Seq<BlockView> {
        self.blocks@.map(|i: int, b: ZendHeapBlock| b@)
    }
}

/// A block body is fit for allocation into heap `h`: correctly shaped,
/// and every cell it stores well-formed in `h`.
pub open spec fn body_wf(b: BodyView, h: Seq<BlockView>) -> bool {
    match b {
        BodyView::StrB(s) => s.wf(),
        BodyView::ArrB(a) => a.keys_distinct() && forall|k: int|
            0 <= k < a.entries.len() ==> zval_wf(#[trigger] a.entries[k].1, h),
    }
}

/// Appending a fit block preserves heap well-formedness.
pub proof fn lemma_heap_wf_push(h: Seq<BlockView>, b: BlockView)
    requires
        heap_wf(h),
        h.len() + 1 <= ZVAL_PTR_MAX + 1,
        body_wf(b.body, h),
    ensures
        heap_wf(h.push(b)),
{
    let h2 = h.push(b);
    assert forall|p: int, k: int|
        0 <= p < h2.len() && h2[p].live && h2[p].body is ArrB && 0 <= k
            < h2[p].body->ArrB_0.entries.len() implies zval_wf(
        (#[trigger] h2[p].body->ArrB_0.entries[k]).1,
        h2,
    ) by {
        if p < h.len() {
            assert(h2[p] == h[p]);
            assert(zval_wf(h[p].body->ArrB_0.entries[k].1, h));
        } else {
            assert(h2[p] == b);
            assert(zval_wf(b.body->ArrB_0.entries[k].1, h));
        }
    }
}

/// Destroying an unreferenced block preserves heap well-formedness.
pub proof fn lemma_heap_wf_kill(h: Seq<BlockView>, p: int)
    requires
        heap_wf(h),
        0 <= p < h.len(),
        unreferenced(h, p as usize),
    ensures
        heap_wf(h.update(p, BlockView { live: false, body: h[p].body })),
{
    let h2 = h.update(p, BlockView { live: false, body: h[p].body });
    assert forall|q: int, k: int|
        0 <= q < h2.len() && h2[q].live && h2[q].body is ArrB && 0 <= k
            < h2[q].body->ArrB_0.entries.len() implies zval_wf(
        (#[trigger] h2[q].body->ArrB_0.entries[k]).1,
        h2,
    ) by {
        assert(q != p);
        assert(h2[q] == h[q]);
        let zv = h[q].body->ArrB_0.entries[k].1;
        assert(zval_wf(zv, h));
        assert(!zval_points_to(zv, p as usize));
    }
}

/// Replacing a live block by a live block of the same kind whose stored
/// cells are well-formed preserves heap well-formedness.
pub proof fn lemma_heap_wf_replace(h: Seq<BlockView>, p: int, b: BlockView)
    requires
        heap_wf(h),
        0 <= p < h.len(),
        h[p].live,
        b.live,
        b.body is StrB <==> h[p].body is StrB,
        body_wf(b.body, h),
    ensures
        heap_wf(h.update(p, b)),
{
    let h2 = h.update(p, b);
    assert forall|q: int, k: int|
        0 <= q < h2.len() && h2[q].live && h2[q].body is ArrB && 0 <= k
            < h2[q].body->ArrB_0.entries.len() implies zval_wf(
        (#[trigger] h2[q].body->ArrB_0.entries[k]).1,
        h2,
    ) by {
        if q == p {
            let zv = b.body->ArrB_0.entries[k].1;
            assert(zval_wf(zv, h));
            lemma_zval_wf_update_same_kind(zv, h, p, b);
        } else {
            let zv = h[q].body->ArrB_0.entries[k].1;
            assert(zval_wf(zv, h));
            lemma_zval_wf_update_same_kind(zv, h, p, b);
        }
    }
}

impl ZendMMSingleton {
    /// Heap well-formedness, as an invariant of the manager.
    pub open spec fn wf(self) -> bool {
        heap_wf(self@)
    }

    /// Room for `n` more blocks without exhausting the address range a
    /// cell can carry. The real allocator aborts the process when memory
    /// runs out; the model excludes that case up front.
    pub open spec fn can_alloc(self, n: nat) -> bool {
        self@.len() + n <= ZVAL_PTR_MAX
    }

    /// A fresh host with an empty heap.
    pub fn new() -> (r: ZendMMSingleton)
        ensures
            r@ =~= Seq::<BlockView>::empty(),
            r.wf(),
    {
        ZendMMSingleton { blocks: Vec::new() }
    }

    /// Reserve the next block address. The reservation must be committed
    /// with [`ZendBoxIntermediate::finalize`] before anything else
    /// allocates.
    pub fn make_place(&self) -> (r: ZendBoxIntermediate)
        requires
            self.can_alloc(1),
        ensures
            r.ptr == self@.len(),
    {
        ZendBoxIntermediate { ptr: self.blocks.len() }
    }

    /// The reference count in the common header of the block at `p`.
    pub fn block_refcount(&self, p: usize) -> (r: u32)
        requires
            p < self@.len(),
        ensures
            r == refcount_of(self@[p as int].body),
    {
        match &self.blocks[p].body {
            ZendBlockBody::StrBlock(s) => s.header.refc.refcount,
            ZendBlockBody::ArrBlock(a) => a.refc.refcount,
        }
    }

    /// Whether the block at `p` is still allocated.
    pub fn block_live(&self, p: usize) -> (r: bool)
        requires
            p < self@.len(),
        ensures
            r == self@[p as int].live,
    {
        self.blocks[p].live
    }

    /// Borrow the string block at `p`.
    pub fn str_block(&self, p: usize) -> (r: &CZendString)
        requires
            p < self@.len(),
            self@[p as int].body is StrB,
        ensures
            r@ == str_at(self@, p),
    {
        match &self.blocks[p].body {
            ZendBlockBody::StrBlock(s) => s,
            ZendBlockBody::ArrBlock(_) => vstd::pervasive::unreached(),
        }
    }

    /// Borrow the array block at `p`.
    pub fn arr_block(&self, p: usize) -> (r: &ZendArray)
        requires
            p < self@.len(),
            self@[p as int].body is ArrB,
        ensures
            r@ == arr_at(self@, p),
    {
        match &self.blocks[p].body {
            ZendBlockBody::ArrBlock(a) => a,
            ZendBlockBody::StrBlock(_) => vstd::pervasive::unreached(),
        }
    }

    /// How many heap blocks are currently allocated: the model's measure
    /// of host memory usage.
    pub fn live_blocks(&self) -> (r: usize)
        ensures
            r == live_count(self@),
    {
        let n = self.blocks.len();
        let mut count: usize = 0;
        let mut i: usize = 0;
        while i < n
            invariant
                i <= n,
                n == self@.len(),
                count <= i,
                count == live_count(self@.take(i as int)),
            decreases n - i,
        {
            proof {
                assert(self@.take(i as int + 1).drop_last() =~= self@.take(i as int));
                assert(self@.take(i as int + 1).last() == self@[i as int]);
            }
            if self.blocks[i].live {
                count = count + 1;
            }
            i = i + 1;
        }
        proof {
            assert(self@.take(n as int) =~= self@);
        }
        count
    }

    /// The host's value destructor entry point: destroy the block at `p`.
    /// The host recurses into nested members itself; the model marks the
    /// block as gone. The block must not be referenced from any live
    /// array.
    pub fn dtor(&mut self, p: usize)
        requires
            old(self).wf(),
            p < old(self)@.len(),
            old(self)@[p as int].live,
            unreferenced(old(self)@, p),
        ensures
            final(self).wf(),
            final(self)@ =~= old(self)@.update(
                p as int,
                BlockView { live: false, body: old(self)@[p as int].body },
            ),
            live_count(final(self)@) + 1 == live_count(old(self)@),
    {
        proof {
            lemma_heap_wf_kill(old(self)@, p as int);
            lemma_live_count_update(
                old(self)@,
                p as int,
                BlockView { live: false, body: old(self)@[p as int].body },
            );
        }
        let b = &mut self.blocks[p];
        b.live = false;
        proof {
            assert(self@ =~= old(self)@.update(
                p as int,
                BlockView { live: false, body: old(self)@[p as int].body },
            ));
        }
    }
}

/// A committed-but-unfilled allocation: the reserved block address.
#[derive(Debug)]
pub struct ZendBoxIntermediate {
    /// The reserved address.
    pub ptr: usize,
}

impl ZendBoxIntermediate {
    /// The reserved address.
    pub fn pointer(&self) -> (r: usize)
        ensures
            r == self.ptr,
    {
        self.ptr
    }

    /// Commit the reservation: write the block and return the owning
    /// handle.
    pub fn finalize(self, mm: &mut ZendMMSingleton, val: ZendBlockBody) -> (r: ZendBox)
        requires
            old(mm).wf(),
            old(mm).can_alloc(1),
            old(mm)@.len() == self.ptr,
            body_wf(body_view(val), old(mm)@),
        ensures
            final(mm).wf(),
            r.0 == self.ptr,
            final(mm)@ =~= old(mm)@.push(BlockView { live: true, body: body_view(val) }),
            live_count(final(mm)@) == live_count(old(mm)@) + 1,
    {
        proof {
            lemma_heap_wf_push(old(mm)@, BlockView { live: true, body: body_view(val) });
            lemma_live_count_push(old(mm)@, BlockView { live: true, body: body_view(val) });
        }
        let p = self.ptr;
        mm.blocks.push(ZendHeapBlock { live: true, body: val });
        proof {
            assert(mm@ =~= old(mm)@.push(BlockView { live: true, body: body_view(val) }));
        }
        ZendBox(p)
    }
}

/// An owning handle to one host heap block, freed through the host
/// allocator and never locally.
#[derive(Debug, PartialEq, Eq, Structural)]
pub struct ZendBox(pub usize);

impl ZendBox {
    /// Allocate a block through the host allocator and take ownership.
    pub fn new(mm: &mut ZendMMSingleton, val: ZendBlockBody) -> (r: ZendBox)
        requires
            old(mm).wf(),
            old(mm).can_alloc(1),
            body_wf(body_view(val), old(mm)@),
        ensures
            final(mm).wf(),
            r.0 == old(mm)@.len(),
            final(mm)@ =~= old(mm)@.push(BlockView { live: true, body: body_view(val) }),
            live_count(final(mm)@) == live_count(old(mm)@) + 1,
    {
        let place = mm.make_place();
        place.finalize(mm, val)
    }

    /// Relinquish ownership without releasing anything: the caller — in
    /// practice the host — takes over the block.
    pub fn into_raw(b: ZendBox) -> (r: usize)
        ensures
            r == b.0,
    {
        b.0
    }

    /// Return the block to the host allocator, regardless of its
    /// reference count.
    pub fn free(self, mm: &mut ZendMMSingleton)
        requires
            old(mm).wf(),
            self.0 < old(mm)@.len(),
            old(mm)@[self.0 as int].live,
            unreferenced(old(mm)@, self.0),
        ensures
            final(mm).wf(),
            final(mm)@ =~= old(mm)@.update(
                self.0 as int,
                BlockView { live: false, body: old(mm)@[self.0 as int].body },
            ),
            live_count(final(mm)@) + 1 == live_count(old(mm)@),
    {
        mm.dtor(self.0);
    }
}

/// A released body: the same contents with the reference count lowered by
/// one.
pub open spec fn body_dec_refcount(b: BodyView) -> BodyView {
    match b {
        BodyView::StrB(s) => BodyView::StrB(
            StrView {
                refcount: (s.refcount - 1) as u32,
                type_info: s.type_info,
                hash: s.hash,
                len: s.len,
                bytes: s.bytes,
            },
        ),
        BodyView::ArrB(a) => BodyView::ArrB(
            ArrView {
                refcount: (a.refcount - 1) as u32,
                type_info: a.type_info,
                entries: a.entries,
            },
        ),
    }
}

/// The heap after one reference to the block at `p` has been given up:
/// destroyed when it was the last one, merely counted down otherwise.
pub open spec fn heap_after_release(h: Seq<BlockView>, p: usize) -> Seq<BlockView> {
    if refcount_of(h[p as int].body) <= 1 {
        h.update(p as int, BlockView { live: false, body: h[p as int].body })
    } else {
        h.update(p as int, BlockView { live: true, body: body_dec_refcount(h[p as int].body) })
    }
}

/// An owning reference to a refcounted host heap block. Dropping the
/// reference runs the decrement-or-destroy protocol against the host's
/// destructor entry point.
#[derive(Debug, PartialEq, Eq, Structural)]
pub struct Refcounted(pub ZendBox);

impl Refcounted {
    /// The address of the owned block.
    pub open spec fn ptr(self) -> usize {
        self.0.0
    }

    /// Give up one reference to the block at `p`: destroy it when this
    /// was the last reference, count it down otherwise.
    pub fn drop_ptr(mm: &mut ZendMMSingleton, p: usize)
        requires
            old(mm).wf(),
            p < old(mm)@.len(),
            old(mm)@[p as int].live,
            refcount_of(old(mm)@[p as int].body) <= 1 ==> unreferenced(old(mm)@, p),
        ensures
            final(mm).wf(),
            final(mm)@ =~= heap_after_release(old(mm)@, p),
            refcount_of(old(mm)@[p as int].body) <= 1 ==> live_count(final(mm)@) + 1 == live_count(
                old(mm)@,
            ),
            refcount_of(old(mm)@[p as int].body) > 1 ==> live_count(final(mm)@) == live_count(old(mm)@),
    {
        let rc = mm.block_refcount(p);
        if rc <= 1 {
            mm.dtor(p);
        } else {
            let ghost h = old(mm)@;
            let ghost b2 = BlockView { live: true, body: body_dec_refcount(h[p as int].body) };
            proof {
                assert(body_wf(b2.body, h)) by {
                    match h[p as int].body {
                        BodyView::StrB(s) => {
                            assert(h[p as int].body->StrB_0.wf());
                        },
                        BodyView::ArrB(a) => {
                            assert(h[p as int].body->ArrB_0.keys_distinct());
                            assert(forall|k: int|
                                0 <= k < a.entries.len() ==> zval_wf(
                                    #[trigger] a.entries[k].1,
                                    h,
                                ));
                        },
                    }
                }
                lemma_heap_wf_replace(h, p as int, b2);
                lemma_live_count_update(h, p as int, b2);
            }
            let b = &mut self_blocks_index_mut(mm, p).body;
            match b {
                ZendBlockBody::StrBlock(s) => {
                    s.header.refc.refcount = s.header.refc.refcount - 1;
                },
                ZendBlockBody::ArrBlock(a) => {
                    a.refc.refcount = a.refc.refcount - 1;
                },
            }
            proof {
                assert(mm@ =~= heap_after_release(old(mm)@, p));
            }
        }
    }

    /// Allocate a block through the host allocator and take an owning,
    /// refcounted reference to it.
    pub fn new(mm: &mut ZendMMSingleton, val: ZendBlockBody) -> (r: Refcounted)
        requires
            old(mm).wf(),
            old(mm).can_alloc(1),
            body_wf(body_view(val), old(mm)@),
        ensures
            final(mm).wf(),
            r.ptr() == old(mm)@.len(),
            final(mm)@ =~= old(mm)@.push(BlockView { live: true, body: body_view(val) }),
            live_count(final(mm)@) == live_count(old(mm)@) + 1,
    {
        Refcounted(ZendBox::new(mm, val))
    }

    /// Relinquish ownership without releasing: the host takes over the
    /// block and its reference.
    pub fn into_raw(b: Refcounted) -> (r: usize)
        ensures
            r == b.ptr(),
    {
        b.0.0
    }

    /// Release the owned reference, exactly once: a released handle is
    /// marked and a second call does nothing.
    pub fn release(&mut self, mm: &mut ZendMMSingleton)
        requires
            old(mm).wf(),
            old(self).ptr() != ZEND_MM_RELEASED ==> {
                &&& old(self).ptr() < old(mm)@.len()
                &&& old(mm)@[old(self).ptr() as int].live
                &&& (refcount_of(old(mm)@[old(self).ptr() as int].body) <= 1 ==> unreferenced(
                    old(mm)@,
                    old(self).ptr(),
                ))
            },
        ensures
            final(mm).wf(),
            final(self).ptr() == ZEND_MM_RELEASED,
            old(self).ptr() == ZEND_MM_RELEASED ==> *final(mm) == *old(mm),
            old(self).ptr() != ZEND_MM_RELEASED ==> final(mm)@ =~= heap_after_release(
                old(mm)@,
                old(self).ptr(),
            ),
    {
        if self.0.0 != ZEND_MM_RELEASED {
            Refcounted::drop_ptr(mm, self.0.0);
            self.0.0 = ZEND_MM_RELEASED;
        }
    }
}

/// Borrow one heap slot mutably.
pub(crate) fn self_blocks_index_mut(mm: &mut ZendMMSingleton, p: usize) -> (r: &mut ZendHeapBlock)
    requires
        p < old(mm)@.len(),
    ensures
        *r == old(mm).blocks@[p as int],
        final(mm).blocks@ =~= old(mm).blocks@.update(p as int, *final(r)),
{
    &mut mm.blocks[p]
}

} // verus!
