//! The host array (hash table) block. Hashing, bucket layout and iteration
//! order are owned entirely by the host; this layer models the table by its
//! logical contents — the sequence of key/cell pairs in insertion order —
//! and delegates lookup and insertion to the host entry-point models on
//! [`crate::zend_mm::ZendMMSingleton`].

use vstd::prelude::*;
use vstd::string::StringExecFns;
use crate::zend_mm::{Refcounted, ZendBlockBody, ZendMMSingleton, ZendRefcounted};
use crate::zval::{tag_of, Zval, ZvalType};

verus! {

/// One key/value slot of a host array.
#[derive(Clone, Copy, Debug, PartialEq, Eq, Structural)]
pub struct ZendArrayEntry {
    /// The integer key.
    pub key: u64,
    /// The stored cell.
    pub val: Zval,
}

/// A host array block: the common refcount header and the table contents.
#[derive(Debug)]
pub struct ZendArray {
    /// The common refcount header of every host heap block.
    pub refc: ZendRefcounted,
    /// The key/cell slots, in insertion order.
    pub entries: Vec<ZendArrayEntry>,
}

/// The mathematical image of an array block.
#[verifier::ext_equal]
pub struct ArrView {
    /// The reference count.
    pub refcount: u32,
    /// The type-information word of the block.
    pub type_info: u32,
    /// The key/cell pairs in insertion order.
    pub entries: Seq<(u64, Zval)>,
}

impl ArrView {
    /// The cell stored under `key`, if any. Keys of a well-formed table
    /// are distinct, so the slot holding `key` is unique.
    pub open spec fn find(self, key: u64) -> Option<Zval> {
        if self.has_key(key) {
            Some(
                self.entries[choose|i: int|
                    0 <= i < self.entries.len() && self.entries[i].0 == key].1,
            )
        } else {
            None
        }
    }

    /// Whether some slot holds `key`.
    pub open spec fn has_key(self, key: u64) -> bool {
        exists|i: int| 0 <= i < self.entries.len() && self.entries[i].0 == key
    }

    /// All keys are distinct.
    pub open spec fn keys_distinct(self) -> bool {
        forall|i: int, j: int|
            0 <= i < j < self.entries.len() ==> self.entries[i].0 != self.entries[j].0
    }
}

impl View for ZendArray {
    type V = ArrView;

    open spec fn view(&self) -> ArrView {
        ArrView {
            refcount: self.refc.refcount,
            type_info: self.refc.type_info,
            entries: self.entries@.map(|i: int, e: ZendArrayEntry| (e.key, e.val)),
        }
    }
}

impl ZendArray {
    /// Allocate an empty host array block with reference count one. The
    /// table becomes usable for indexed insertion and lookup right away.
    pub fn new(mm: &mut ZendMMSingleton) -> (r: Refcounted)
        requires
            old(mm).wf(),
            old(mm).can_alloc(1),
        ensures
            final(mm).wf(),
            r.ptr() == old(mm)@.len(),
            final(mm)@ =~= old(mm)@.push(crate::zend_mm::BlockView {
                live: true,
                body: crate::zend_mm::BodyView::ArrB(ArrView {
                    refcount: 1,
                    type_info: tag_of(ZvalType::Array),
                    entries: Seq::empty(),
                }),
            }),
    {
        let arr = ZendArray {
            refc: ZendRefcounted { refcount: 1, type_info: ZvalType::Array.tag() },
            entries: Vec::new(),
        };
        proof {
            assert(arr@.entries =~= Seq::<(u64, Zval)>::empty());
            assert(arr@ =~= ArrView {
                refcount: 1,
                type_info: tag_of(ZvalType::Array),
                entries: Seq::empty(),
            });
        }
        Refcounted::new(mm, ZendBlockBody::ArrBlock(arr))
    }
}

/// The message of an indexed lookup that found nothing.
pub open spec fn no_index_msg(idx: u64) -> Seq<char> {
    "No value for given index of "@ + crate::decimal::dec_rep(idx as nat)
}

impl ZendArray {
    /// Indexed lookup with inbound conversion: look `idx` up in the array
    /// block at `ht` through the host's lookup entry point, then read the
    /// found cell back strictly. A missing index is an error of its own,
    /// never a default value. Nothing is cached: every call re-queries the
    /// host table.
    pub fn get<T: crate::static_from::FromZval>(
        mm: &ZendMMSingleton,
        ht: usize,
        idx: u64,
    ) -> (r: Result<T, String>)
        requires
            mm.wf(),
            crate::zend_mm::live_arr(mm@, ht),
        ensures
            match crate::zend_mm::arr_at(mm@, ht).find(idx) {
                Option::None => r matches Err(e) && e@ == no_index_msg(idx),
                Option::Some(zv) => match r {
                    Result::Ok(v) => T::from_spec(zv, mm@) == Ok::<T::Model, Seq<char>>(
                        T::model_of(v),
                    ),
                    Result::Err(e) => T::from_spec(zv, mm@) == Err::<T::Model, Seq<char>>(e@),
                },
            },
    {
        match mm.hash_index_find(ht, idx) {
            Option::Some(zv) => T::from_zval(&zv, mm),
            Option::None => {
                let mut msg = String::from_str("No value for given index of ");
                crate::decimal::push_decimal(&mut msg, idx);
                Err(msg)
            },
        }
    }
}

impl ZendMMSingleton {
    /// The host's indexed hash-table lookup entry point: the cell stored
    /// under `key` in the array block at `ht`, or nothing. Every call
    /// re-queries the table; nothing is cached on this side.
    pub fn hash_index_find(&self, ht: usize, key: u64) -> (r: Option<Zval>)
        requires
            self.wf(),
            crate::zend_mm::live_arr(self@, ht),
        ensures
            r == crate::zend_mm::arr_at(self@, ht).find(key),
            r is Some ==> crate::zend_mm::zval_wf(r->0, self@),
    {
        let a = self.arr_block(ht);
        let ghost av = crate::zend_mm::arr_at(self@, ht);
        let n = a.entries.len();
        let mut i: usize = 0;
        while i < n
            invariant
                self.wf(),
                crate::zend_mm::live_arr(self@, ht),
                av == crate::zend_mm::arr_at(self@, ht),
                i <= n,
                n == a.entries@.len(),
                av == a@,
                av.entries.len() == n,
                forall|j: int| 0 <= j < i ==> av.entries[j].0 != key,
                forall|j: int| 0 <= j < n ==> av.entries[j] == (a.entries@[j].key, a.entries@[j].val),
            decreases n - i,
        {
            let e = &a.entries[i];
            if e.key == key {
                proof {
                    assert(av.entries[i as int].0 == key);
                    assert(av.has_key(key));
                    let j = choose|j: int| 0 <= j < av.entries.len() && av.entries[j].0 == key;
                    assert(crate::zend_mm::heap_wf(self@));
                    assert(av.keys_distinct());
                    assert(j == i);
                    assert(crate::zend_mm::zval_wf(av.entries[i as int].1, self@));
                }
                return Some(e.val);
            }
            i = i + 1;
        }
        proof {
            assert(!av.has_key(key));
        }
        None
    }

    /// The host's hash-table insertion entry point for a key known to be
    /// absent: append the cell under `key` to the array block at `ht`.
    pub fn hash_index_add_new(&mut self, ht: usize, key: u64, val: Zval)
        requires
            old(self).wf(),
            crate::zend_mm::live_arr(old(self)@, ht),
            !crate::zend_mm::arr_at(old(self)@, ht).has_key(key),
            crate::zend_mm::zval_wf(val, old(self)@),
        ensures
            final(self).wf(),
            final(self)@ =~= old(self)@.update(
                ht as int,
                crate::zend_mm::BlockView {
                    live: true,
                    body: crate::zend_mm::BodyView::ArrB(
                        ArrView {
                            refcount: crate::zend_mm::arr_at(old(self)@, ht).refcount,
                            type_info: crate::zend_mm::arr_at(old(self)@, ht).type_info,
                            entries: crate::zend_mm::arr_at(old(self)@, ht).entries.push(
                                (key, val),
                            ),
                        },
                    ),
                },
            ),
            crate::zend_mm::live_count(final(self)@) == crate::zend_mm::live_count(old(self)@),
    {
        let ghost h = old(self)@;
        let ghost av = crate::zend_mm::arr_at(h, ht);
        let ghost b2 = crate::zend_mm::BlockView {
            live: true,
            body: crate::zend_mm::BodyView::ArrB(
                ArrView {
                    refcount: av.refcount,
                    type_info: av.type_info,
                    entries: av.entries.push((key, val)),
                },
            ),
        };
        proof {
            assert(crate::zend_mm::body_wf(b2.body, h)) by {
                let e2 = av.entries.push((key, val));
                assert forall|i: int, j: int| 0 <= i < j < e2.len() implies e2[i].0 != e2[j].0 by {
                    if j == e2.len() - 1 {
                        assert(e2[i] == av.entries[i]);
                        assert(!av.has_key(key) ==> av.entries[i].0 != key);
                    } else {
                        assert(e2[i] == av.entries[i]);
                        assert(e2[j] == av.entries[j]);
                        assert(av.keys_distinct());
                    }
                }
                assert forall|k: int| 0 <= k < e2.len() implies crate::zend_mm::zval_wf(
                    #[trigger] e2[k].1,
                    h,
                ) by {
                    if k < av.entries.len() {
                        assert(e2[k] == av.entries[k]);
                        assert(crate::zend_mm::heap_wf(h));
                    } else {
                        assert(e2[k].1 == val);
                    }
                }
            }
            crate::zend_mm::lemma_heap_wf_replace(h, ht as int, b2);
            crate::zend_mm::lemma_live_count_update(h, ht as int, b2);
        }
        let blk = crate::zend_mm::self_blocks_index_mut(self, ht);
        match &mut blk.body {
            ZendBlockBody::ArrBlock(a) => {
                a.entries.push(ZendArrayEntry { key, val });
            },
            ZendBlockBody::StrBlock(_) => {
                proof {
                    assert(false);
                }
            },
        }
        proof {
            assert(self@[ht as int].body->ArrB_0.entries =~= av.entries.push((key, val)));
            assert(self@[ht as int] =~~= b2);
            assert(self@ =~= h.update(ht as int, b2));
        }
    }
}

} // verus!
