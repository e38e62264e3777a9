//! The host object and its property bridge.
//!
//! An object lives in the host's object store and is only ever borrowed
//! by this layer. Property reads and writes go through the object's
//! handler table — host-supplied behavior that this layer never
//! implements, modelled here by the host's standard handlers over the
//! object's property table. An object without a handler table is a
//! legitimate but inert state: both bridges fail on it with a
//! distinguished message.
//!
//! Both bridges build a temporary string cell for the property name and
//! must release it through the scoped ownership guard on every path out,
//! host failure included: the heap they leave behind holds exactly one
//! more block — the released name cell — and not one more live block
//! than what the written value itself owns.

use vstd::prelude::*;
use vstd::string::{StrSliceExecFns, StringExecFns, StringSliceAdditionalSpecFns};
use vstd::utf8::encode_utf8;
use crate::assign::{assign_str, str_block_for, AssignTo};
use crate::static_from::FromZval;
use crate::zend_mm::{
    heap_after_release, live_str, lemma_fresh_block_unreferenced, lemma_live_count_push,
    lemma_live_count_update, live_count, str_at, zval_wf, BlockView, ZendMMSingleton,
    ZendRefcounted,
};
use crate::zstr::StrView;
use crate::zval::{
    lemma_type_info_extract, tag_of, type_info_of, zeroed_cell, Zval, ZvalGuard, ZvalType,
    ZvalValue, ZVAL_PTR_MAX,
};

verus! {

/// One slot of an object's property table: a property name and the cell
/// stored under it.
#[derive(Debug)]
pub struct ZendProperty {
    /// The property name, as bytes.
    pub name: Vec<u8>,
    /// The stored cell.
    pub val: Zval,
}

/// A host object: the common refcount header, the process-wide object
/// handle, whether the host supplied a handler table, and the property
/// table the standard handlers operate on.
#[derive(Debug)]
pub struct ZvalValueObject {
    /// The common refcount header of the object's heap record.
    pub refc: ZendRefcounted,
    /// The host's process-wide object handle.
    pub handle: u32,
    /// Whether the host supplied a handler table for this object.
    pub has_handlers: bool,
    /// The property table reached through the standard handlers.
    pub properties: Vec<ZendProperty>,
}

/// The mathematical image of a host object.
#[verifier::ext_equal]
pub struct ObjView {
    /// The reference count.
    pub refcount: u32,
    /// The type-information word of the object record.
    pub type_info: u32,
    /// The process-wide object handle.
    pub handle: u32,
    /// Whether a handler table is present.
    pub has_handlers: bool,
    /// The property table: name/cell pairs in insertion order.
    pub props: Seq<(Seq<u8>, Zval)>,
}

impl View for ZvalValueObject {
    type V = ObjView;

    open spec fn view(&self) -> ObjView {
        ObjView {
            refcount: self.refc.refcount,
            type_info: self.refc.type_info,
            handle: self.handle,
            has_handlers: self.has_handlers,
            props: self.properties@.map(|i: int, p: ZendProperty| (p.name@, p.val)),
        }
    }
}

/// Whether some property slot holds `key`.
pub open spec fn has_prop(props: Seq<(Seq<u8>, Zval)>, key: Seq<u8>) -> bool {
    exists|i: int| 0 <= i < props.len() && props[i].0 == key
}

/// The cell stored under `key`, if any. Names of a well-formed table are
/// distinct, so the slot holding `key` is unique.
pub open spec fn prop_find(props: Seq<(Seq<u8>, Zval)>, key: Seq<u8>) -> Option<Zval> {
    if has_prop(props, key) {
        Some(props[choose|i: int| 0 <= i < props.len() && props[i].0 == key].1)
    } else {
        None
    }
}

/// The property table after storing `zv` under `key`: the existing slot
/// is overwritten (its stored name kept), or a new slot is appended.
pub open spec fn prop_store(props: Seq<(Seq<u8>, Zval)>, key: Seq<u8>, zv: Zval) -> Seq<
    (Seq<u8>, Zval),
> {
    if has_prop(props, key) {
        let i = choose|i: int| 0 <= i < props.len() && props[i].0 == key;
        props.update(i, (props[i].0, zv))
    } else {
        props.push((key, zv))
    }
}

impl ObjView {
    /// All property names are distinct.
    pub open spec fn names_distinct(self) -> bool {
        forall|i: int, j: int| 0 <= i < j < self.props.len() ==> self.props[i].0 != self.props[j].0
    }

    /// A well-formed object against a heap: distinct property names, and
    /// every stored cell well-formed.
    pub open spec fn wf(self, h: Seq<BlockView>) -> bool {
        &&& self.names_distinct()
        &&& forall|i: int| 0 <= i < self.props.len() ==> zval_wf((#[trigger] self.props[i]).1, h)
    }
}

/// The message of a property read on an object without a handler table.
pub open spec fn read_null_handler_msg() -> Seq<char> {
    "read_property: object handler is null"@
}

/// The message of a property write on an object without a handler table.
pub open spec fn write_null_handler_msg() -> Seq<char> {
    "write_property: object handler is null"@
}

/// The null cell the host's read handler yields for a missing property.
pub open spec fn null_cell() -> Zval {
    Zval { value: ZvalValue { data: 0 }, u1: type_info_of(ZvalType::Null), u2: 0 }
}

/// The cell a property read converts: the stored cell, or the null cell
/// when the object has no such property.
pub open spec fn read_result_cell(obj: ObjView, name: Seq<char>) -> Zval {
    match prop_find(obj.props, encode_utf8(name)) {
        Option::Some(zv) => zv,
        Option::None => null_cell(),
    }
}

impl AssignTo for ZvalValueObject {
    open spec fn assignable(&self) -> bool {
        true
    }

    open spec fn alloc_count(&self) -> nat {
        0
    }

    open spec fn heap_after(&self, h: Seq<BlockView>) -> Seq<BlockView> {
        h
    }

    open spec fn cell_after(&self, h: Seq<BlockView>, before: Zval) -> Zval {
        Zval {
            value: ZvalValue { data: self.handle as i64 },
            u1: type_info_of(ZvalType::Object),
            u2: 0,
        }
    }

    proof fn lemma_assign_props(&self, h: Seq<BlockView>, before: Zval) {
        lemma_type_info_extract();
    }

    fn assign_to(&self, target: &mut Zval, mm: &mut ZendMMSingleton) -> (r: Option<String>) {
        target.set_type(ZvalType::Object);
        target.value.data = self.handle as i64;
        None
    }
}

/// The outcome of the strict object-pointer conversion: the object
/// handle the cell carries, or the tag mismatch.
pub open spec fn object_handle_spec(zv: Zval) -> Result<u32, Seq<char>> {
    if zv.spec_type() != tag_of(ZvalType::Object) {
        Err(crate::static_from::mismatch_msg(zv.spec_type(), "object"@))
    } else {
        Ok(zv.value.data as u32)
    }
}

/// Whether `a` equals the first `len` bytes of `b`.
fn bytes_eq_take(a: &Vec<u8>, b: &Vec<u8>, len: usize) -> (r: bool)
    requires
        len <= b@.len(),
    ensures
        r == (a@ == b@.take(len as int)),
{
    if a.len() != len {
        proof {
            assert(a@.len() != b@.take(len as int).len());
        }
        return false;
    }
    let mut i: usize = 0;
    while i < len
        invariant
            i <= len,
            len <= b@.len(),
            a@.len() == len,
            forall|j: int| 0 <= j < i ==> a@[j] == b@.take(len as int)[j],
        decreases len - i,
    {
        if a[i] != b[i] {
            proof {
                assert(b@.take(len as int)[i as int] == b@[i as int]);
            }
            return false;
        }
        i = i + 1;
    }
    proof {
        assert(a@ =~= b@.take(len as int));
    }
    true
}

impl ZvalValueObject {
    /// Strict object-pointer conversion: the object handle carried by an
    /// object-tagged cell. A mismatch is always a hard error — no
    /// coercion path exists for object tags.
    pub fn handle_from_zval(zv: &Zval) -> (r: Result<u32, String>)
        ensures
            match r {
                Result::Ok(v) => object_handle_spec(*zv) == Ok::<u32, Seq<char>>(v),
                Result::Err(e) => object_handle_spec(*zv) == Err::<u32, Seq<char>>(e@),
            },
    {
        if zv.type_() != ZvalType::Object.tag() {
            return Err(crate::static_from::mismatch_error(zv.type_(), "object"));
        }
        Ok(zv.value.data as u32)
    }

    /// The host's standard property lookup: the slot whose name equals
    /// the content of the string block the member cell references.
    fn find_prop(&self, mm: &ZendMMSingleton, member: &Zval) -> (r: Option<usize>)
        requires
            mm.wf(),
            self@.names_distinct(),
            member.spec_type() == tag_of(ZvalType::String),
            live_str(mm@, member.value.spec_ptr()),
        ensures
            ({
                let key = str_at(mm@, member.value.spec_ptr()).content();
                match r {
                    Option::Some(i) => i < self@.props.len() && self@.props[i as int].0 == key
                        && prop_find(self@.props, key) == Some(self@.props[i as int].1),
                    Option::None => prop_find(self@.props, key) is None,
                }
            }),
    {
        let p = member.value.as_ptr().data;
        let zs = mm.str_block(p);
        proof {
            assert(mm@[p as int].body->StrB_0.wf());
        }
        let len = zs.header.len;
        let ghost key = str_at(mm@, p).content();
        let n = self.properties.len();
        let mut i: usize = 0;
        while i < n
            invariant
                i <= n,
                n == self.properties@.len(),
                self@.props.len() == n,
                self@.names_distinct(),
                len <= zs@.bytes.len(),
                key == zs@.bytes.take(len as int),
                key == str_at(mm@, member.value.spec_ptr()).content(),
                forall|j: int|
                    0 <= j < n ==> self@.props[j] == (
                        self.properties@[j].name@,
                        self.properties@[j].val,
                    ),
                forall|j: int| 0 <= j < i ==> self@.props[j].0 != key,
            decreases n - i,
        {
            let prop = &self.properties[i];
            if bytes_eq_take(&prop.name, &zs.value, len) {
                proof {
                    assert(self@.props[i as int].0 == key);
                    assert(has_prop(self@.props, key));
                    let j = choose|j: int|
                        0 <= j < self@.props.len() && self@.props[j].0 == key;
                    if j < i as int {
                        assert(self@.props[j].0 != self@.props[i as int].0);
                        assert(false);
                    } else if j > i as int {
                        assert(self@.props[i as int].0 != self@.props[j].0);
                        assert(false);
                    }
                }
                return Some(i);
            }
            i = i + 1;
        }
        proof {
            assert(!has_prop(self@.props, key));
        }
        None
    }

    /// Read a property through the object's handler table: build the
    /// temporary name cell, hand the host's read handler the object cell
    /// and a scratch cell, convert whatever cell comes back, and release
    /// the name cell — on the failure path too. A missing property reads
    /// as the null cell, which the strict conversion then rejects.
    ///
    /// The heap afterwards holds exactly one more (released) block and
    /// not one more live block, however often this is called.
    pub fn read_property<T: FromZval>(&self, mm: &mut ZendMMSingleton, name: &str) -> (r: Result<
        T,
        String,
    >)
        requires
            old(mm).wf(),
            self@.wf(old(mm)@),
            old(mm)@.len() + 1 <= ZVAL_PTR_MAX,
            name.spec_bytes().len() < usize::MAX,
        ensures
            final(mm).wf(),
            self@.wf(final(mm)@),
            final(mm)@.len() == old(mm)@.len() + 1,
            forall|q: int| 0 <= q < old(mm)@.len() ==> final(mm)@[q] == old(mm)@[q],
            live_count(final(mm)@) == live_count(old(mm)@),
            !self.has_handlers ==> (r matches Err(e) && e@ == read_null_handler_msg()),
            self.has_handlers ==> (match r {
                Result::Ok(v) => T::from_spec(read_result_cell(self@, name@), final(mm)@)
                    == Ok::<T::Model, Seq<char>>(T::model_of(v)),
                Result::Err(e) => T::from_spec(read_result_cell(self@, name@), final(mm)@)
                    == Err::<T::Model, Seq<char>>(e@),
            }),
    {
        let ghost h0 = mm@;
        let mut member = ZvalGuard::new(Zval::new());
        assign_str(name, &mut member.zv, mm);
        let ghost h1 = mm@;
        let ghost nb = h0.len() as usize;
        proof {
            assert(h1 == h0.push(str_block_for(encode_utf8(name@))));
            lemma_fresh_block_unreferenced(h0, str_block_for(encode_utf8(name@)));
            lemma_live_count_push(h0, str_block_for(encode_utf8(name@)));
            lemma_type_info_extract();
        }
        // The cell handed to the handler as the object operand.
        let mut obj = Zval::new();
        self.assign_to(&mut obj, mm);
        // The scratch cell the host's read handler may fill.
        let mut zv_scratch = Zval::new();
        if !self.has_handlers {
            member.release(mm);
            proof {
                lemma_live_count_update(
                    h1,
                    nb as int,
                    BlockView { live: false, body: h1[nb as int].body },
                );
                assert(self@.wf(mm@));
            }
            return Err(String::from_str("read_property: object handler is null"));
        }
        let found = self.find_prop(mm, member.zval());
        let value: Zval = match found {
            Option::Some(i) => self.properties[i].val,
            Option::None => {
                zv_scratch.set_type(ZvalType::Null);
                zv_scratch
            },
        };
        proof {
            assert(str_at(h1, nb).content() =~= encode_utf8(name@));
            assert(value == read_result_cell(self@, name@));
            assert(zval_wf(value, h1));
        }
        let conv = T::from_zval(&value, mm);
        member.release(mm);
        proof {
            lemma_live_count_update(
                h1,
                nb as int,
                BlockView { live: false, body: h1[nb as int].body },
            );
            T::lemma_from_spec_frame(value, h1, mm@);
            assert(self@.wf(mm@));
        }
        conv
    }

    /// Write a property through the object's handler table: build the
    /// value cell and the temporary name cell, hand both to the host's
    /// write handler — which stores the value cell, taking over its
    /// ownership — and release the name cell, on the failure path too.
    /// What the host's handler does with the reference it held to a
    /// previous value of the property is host-internal behavior, like
    /// the destructor's recursion into nested members, and outside the
    /// model.
    pub fn write_property<T: AssignTo>(
        &mut self,
        mm: &mut ZendMMSingleton,
        name: &str,
        value: T,
    ) -> (r: Option<String>)
        requires
            old(mm).wf(),
            old(self)@.wf(old(mm)@),
            old(mm)@.len() + value.alloc_count() + 1 <= ZVAL_PTR_MAX,
            name.spec_bytes().len() < usize::MAX,
            value.assignable(),
        ensures
            final(mm).wf(),
            final(mm)@ == final_heap_after_name_release(value.heap_after(old(mm)@), name@),
            live_count(final(mm)@) == live_count(old(mm)@) + value.alloc_count(),
            (r is None) <==> old(self).has_handlers,
            !old(self).has_handlers ==> *final(self) == *old(self) && (r matches Some(e) && e@
                == write_null_handler_msg()),
            old(self).has_handlers ==> ({
                let c = value.cell_after(old(mm)@, zeroed_cell());
                &&& final(self)@.props == prop_store(old(self)@.props, encode_utf8(name@), c)
                &&& final(self).refc == old(self).refc
                &&& final(self).handle == old(self).handle
                &&& final(self).has_handlers
                &&& final(self)@.wf(final(mm)@)
            }),
    {
        let ghost h0 = mm@;
        // The value cell the host's write handler will take over.
        let mut tmp = Zval::new();
        value.assign_to(&mut tmp, mm);
        let ghost h2 = mm@;
        proof {
            value.lemma_assign_props(h0, zeroed_cell());
        }
        let mut member = ZvalGuard::new(Zval::new());
        assign_str(name, &mut member.zv, mm);
        let ghost h3 = mm@;
        let ghost nb = h2.len() as usize;
        proof {
            assert(h3 == h2.push(str_block_for(encode_utf8(name@))));
            lemma_fresh_block_unreferenced(h2, str_block_for(encode_utf8(name@)));
            lemma_live_count_push(h2, str_block_for(encode_utf8(name@)));
            lemma_type_info_extract();
        }
        // The cell handed to the handler as the object operand.
        let mut obj = Zval::new();
        self.assign_to(&mut obj, mm);
        if !self.has_handlers {
            member.release(mm);
            proof {
                lemma_live_count_update(
                    h3,
                    nb as int,
                    BlockView { live: false, body: h3[nb as int].body },
                );
            }
            return Some(String::from_str("write_property: object handler is null"));
        }
        let found = self.find_prop(mm, member.zval());
        proof {
            assert(str_at(h3, nb).content() =~= encode_utf8(name@));
        }
        match found {
            Option::Some(i) => {
                let pr = &mut self.properties[i];
                pr.val = tmp;
                proof {
                    let key = encode_utf8(name@);
                    let j = choose|j: int|
                        0 <= j < old(self)@.props.len() && old(self)@.props[j].0 == key;
                    assert(j == i);
                    assert(self@.props =~= prop_store(old(self)@.props, key, tmp));
                }
            },
            Option::None => {
                let key_bytes = name.as_bytes_vec();
                self.properties.push(ZendProperty { name: key_bytes, val: tmp });
                proof {
                    assert(self@.props =~= prop_store(
                        old(self)@.props,
                        encode_utf8(name@),
                        tmp,
                    ));
                }
            },
        }
        member.release(mm);
        proof {
            lemma_live_count_update(
                h3,
                nb as int,
                BlockView { live: false, body: h3[nb as int].body },
            );
            assert(self@.wf(mm@));
        }
        None
    }
}

/// The heap after a property bridge has run on heap `h`: the temporary
/// name cell's block appended and already released again.
pub open spec fn final_heap_after_name_release(h: Seq<BlockView>, name: Seq<char>) -> Seq<
    BlockView,
> {
    heap_after_release(h.push(str_block_for(encode_utf8(name))), h.len() as usize)
}

} // verus!
