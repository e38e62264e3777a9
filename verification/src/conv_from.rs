//! Inbound coercive conversion: ask the host to mutate the cell toward
//! the target tag, then read it strictly.
//!
//! The host's numeric-coercion entry point rewrites the cell in place by
//! the host's own rules — false and null become zero, true becomes one,
//! a numeric text is parsed and the text's block released. Only code
//! that explicitly opts into host coercion goes through here; the
//! default paths use the strict conversions, so a string holding "1" is
//! never silently treated as the integer 1.

use vstd::prelude::*;
use crate::static_from::FromZval;
use crate::zend_mm::{
    heap_after_release, live_str, live_count, refcount_of, str_at, unreferenced, zval_wf,
    BlockView, Refcounted, ZendMMSingleton,
};
use crate::zstr::StrView;
use crate::zval::{lemma_type_info_extract, tag_of, type_info_of, Zval, ZvalType};

verus! {

/// An ASCII decimal digit.
pub open spec fn is_dec_digit(b: u8) -> bool {
    48 <= b && b <= 57
}

/// How many decimal digits stand at position `from` of `bytes`.
pub open spec fn digit_run(bytes: Seq<u8>, from: int) -> nat
    decreases bytes.len() - from,
        when from >= 0
{
    if 0 <= from < bytes.len() && is_dec_digit(bytes[from]) {
        1 + digit_run(bytes, from + 1)
    } else {
        0
    }
}

/// The value of the `n` decimal digits at position `from` of `bytes`.
pub open spec fn digits_value(bytes: Seq<u8>, from: int, n: nat) -> nat
    decreases n,
{
    if n == 0 {
        0
    } else {
        (digits_value(bytes, from, (n - 1) as nat) * 10 + (bytes[from + n - 1] - 48)) as nat
    }
}

/// Powers of ten.
pub open spec fn pow10(n: nat) -> nat
    decreases n,
{
    if n == 0 {
        1
    } else {
        10 * pow10((n - 1) as nat)
    }
}

/// Every byte inside a digit run is a digit.
pub proof fn lemma_digit_run_digits(bytes: Seq<u8>, from: int, k: int)
    requires
        from >= 0,
        0 <= k < digit_run(bytes, from),
    ensures
        from + k < bytes.len(),
        is_dec_digit(bytes[from + k]),
    decreases k,
{
    if k > 0 {
        lemma_digit_run_digits(bytes, from + 1, k - 1);
    }
}

/// The numeric values of the two relevant powers of ten.
pub proof fn lemma_pow10_values()
    ensures
        pow10(17) == 0x16345785d8a0000,
        pow10(18) == 0xde0b6b3a7640000,
        forall|n: nat| n <= 17 ==> #[trigger] pow10(n) <= pow10(17),
{
    reveal_with_fuel(pow10, 20);
    assert forall|n: nat| n <= 17 implies #[trigger] pow10(n) <= pow10(17) by {
        lemma_pow10_monotone(n, 17);
    }
}

/// Powers of ten grow with the exponent.
pub proof fn lemma_pow10_monotone(m: nat, n: nat)
    requires
        m <= n,
    ensures
        pow10(m) <= pow10(n),
        pow10(n) > 0,
    decreases n,
{
    if n > 0 {
        if m == n {
            lemma_pow10_monotone(0, (n - 1) as nat);
        } else {
            lemma_pow10_monotone(m, (n - 1) as nat);
        }
    }
}

/// The sign prefix of a numeral: whether it is negative, and where the
/// digits start.
pub open spec fn sign_of(bytes: Seq<u8>) -> (bool, int) {
    if bytes.len() > 0 && bytes[0] == 45 {
        (true, 1)
    } else if bytes.len() > 0 && bytes[0] == 43 {
        (false, 1)
    } else {
        (false, 0)
    }
}

/// The host's integer reading of a text: an optional sign, then the
/// leading run of decimal digits; anything after the run is ignored, and
/// a text that starts with no digit reads as zero.
pub open spec fn str_to_long(bytes: Seq<u8>) -> i64 {
    let s = sign_of(bytes);
    let mag = digits_value(bytes, s.1, digit_run(bytes, s.1));
    if s.0 {
        (0 - mag) as i64
    } else {
        mag as i64
    }
}

/// The numeral's digit run is short enough that its value fits the
/// host's integer without saturating.
pub open spec fn parse_fits(bytes: Seq<u8>) -> bool {
    digit_run(bytes, sign_of(bytes).1) <= 18
}

/// Parse the content of the string block at `p` as the host's numeric
/// coercion reads it.
fn parse_long_block(mm: &ZendMMSingleton, p: usize) -> (r: i64)
    requires
        mm.wf(),
        live_str(mm@, p),
        parse_fits(str_at(mm@, p).content()),
    ensures
        r == str_to_long(str_at(mm@, p).content()),
{
    let zs = mm.str_block(p);
    proof {
        assert(mm@[p as int].body->StrB_0.wf());
    }
    let len = zs.header.len;
    let ghost content = zs@.content();
    let mut start: usize = 0;
    let mut neg = false;
    if len > 0 {
        let b0 = zs.value[0];
        if b0 == 45 {
            neg = true;
            start = 1;
        } else if b0 == 43 {
            start = 1;
        }
    }
    proof {
        assert(content.len() == len);
        if len > 0 {
            assert(content[0] == zs@.bytes[0]);
        }
        assert(sign_of(content) == (neg, start as int));
        lemma_pow10_values();
    }
    let ghost run = digit_run(content, start as int);
    let mut acc: i64 = 0;
    let mut i: usize = start;
    while i < len
        invariant_except_break
            start <= i <= len,
            len == zs@.len,
            zs@.wf(),
            content == zs@.content(),
            run == digit_run(content, start as int),
            run <= 18,
            run == (i - start) + digit_run(content, i as int),
            i - start <= run,
            acc == digits_value(content, start as int, (i - start) as nat),
            0 <= acc,
            acc < pow10((i - start) as nat),
            pow10(17) == 0x16345785d8a0000,
            pow10(18) == 0xde0b6b3a7640000,
            forall|n: nat| n <= 17 ==> #[trigger] pow10(n) <= pow10(17),
        ensures
            run == i - start,
            acc == digits_value(content, start as int, run),
            0 <= acc,
            acc < pow10(18),
            pow10(18) == 0xde0b6b3a7640000,
        decreases len - i,
    {
        let d = zs.value[i];
        if !(48 <= d && d <= 57) {
            proof {
                assert(content[i as int] == zs@.bytes[i as int]);
                assert(digit_run(content, i as int) == 0);
                assert(acc < pow10((i - start) as nat));
                lemma_pow10_monotone((i - start) as nat, 18);
            }
            break ;
        }
        proof {
            assert(content[i as int] == zs@.bytes[i as int]);
            assert(is_dec_digit(content[i as int]));
            assert(digit_run(content, i as int) == 1 + digit_run(content, i as int + 1));
            assert(i - start < run);
            assert((i - start) as nat <= 17);
            assert(pow10((i - start) as nat) <= pow10(17));
        }
        acc = acc * 10 + ((d - 48) as i64);
        i = i + 1;
        proof {
            assert(acc == digits_value(content, start as int, (i - start) as nat));
            lemma_pow10_monotone(0, (i - start - 1) as nat);
        }
    }
    proof {
        if i == len && run > i - start {
            lemma_digit_run_digits(content, start as int, i - start);
            assert(false);
        }
        lemma_pow10_monotone((i - start) as nat, 18);
    }
    if neg {
        -acc
    } else {
        acc
    }
}

/// Whether the host's numeric coercion is modelled for this cell's tag:
/// the null, boolean, integer and text tags.
pub open spec fn coercible(zv: Zval) -> bool {
    ||| zv.spec_type() == tag_of(ZvalType::Null)
    ||| zv.spec_type() == tag_of(ZvalType::False)
    ||| zv.spec_type() == tag_of(ZvalType::True)
    ||| zv.spec_type() == tag_of(ZvalType::Long)
    ||| zv.spec_type() == tag_of(ZvalType::String)
}

/// The integer the host's coercion turns this cell into.
pub open spec fn coerced_long(zv: Zval, h: Seq<BlockView>) -> i64 {
    if zv.spec_type() == tag_of(ZvalType::True) {
        1
    } else if zv.spec_type() == tag_of(ZvalType::Long) {
        zv.value.data
    } else if zv.spec_type() == tag_of(ZvalType::String) {
        str_to_long(str_at(h, zv.value.spec_ptr()).content())
    } else {
        0
    }
}

/// The host's numeric-coercion entry point: rewrite the cell in place
/// into an integer cell, by the host's own rules. A text cell's block is
/// read, released, and replaced by the parsed integer — the tag changes
/// in place.
pub fn convert_to_long(zv: &mut Zval, mm: &mut ZendMMSingleton)
    requires
        old(mm).wf(),
        zval_wf(*old(zv), old(mm)@),
        coercible(*old(zv)),
        old(zv).spec_type() == tag_of(ZvalType::String) ==> {
            &&& parse_fits(str_at(old(mm)@, old(zv).value.spec_ptr()).content())
            &&& (refcount_of(old(mm)@[old(zv).value.spec_ptr() as int].body) <= 1 ==> unreferenced(
                old(mm)@,
                old(zv).value.spec_ptr(),
            ))
        },
    ensures
        final(mm).wf(),
        *final(zv) == crate::assign::long_cell(coerced_long(*old(zv), old(mm)@)),
        old(zv).spec_type() != tag_of(ZvalType::String) ==> *final(mm) == *old(mm),
        old(zv).spec_type() == tag_of(ZvalType::String) ==> final(mm)@ =~= heap_after_release(
            old(mm)@,
            old(zv).value.spec_ptr(),
        ),
{
    let t = zv.type_();
    if t == ZvalType::Long.tag() {
        let v = zv.value.data;
        zv.set_type(ZvalType::Long);
        zv.value.data = v;
    } else if t == ZvalType::True.tag() {
        zv.set_type(ZvalType::Long);
        zv.value.data = 1;
    } else if t == ZvalType::String.tag() {
        let p = zv.value.as_ptr().data;
        let parsed = parse_long_block(mm, p);
        Refcounted::drop_ptr(mm, p);
        zv.set_type(ZvalType::Long);
        zv.value.data = parsed;
    } else {
        zv.set_type(ZvalType::Long);
        zv.value.data = 0;
    }
}

/// A value read back through host coercion rather than strictly.
#[derive(Clone, Copy, Debug)]
pub struct ConvertZvalAs<T>(pub T);

impl<T: FromZval> ConvertZvalAs<T> {
    /// The wrapped value.
    pub fn value(&self) -> (r: &T)
        ensures
            *r == self.0,
    {
        &self.0
    }

    /// Coercive conversion: have the host rewrite the cell toward the
    /// integer tag in place, then read it strictly.
    pub fn from_zval(zv: &mut Zval, mm: &mut ZendMMSingleton) -> (r: Result<
        ConvertZvalAs<T>,
        String,
    >)
        requires
            old(mm).wf(),
            zval_wf(*old(zv), old(mm)@),
            coercible(*old(zv)),
            old(zv).spec_type() == tag_of(ZvalType::String) ==> {
                &&& parse_fits(str_at(old(mm)@, old(zv).value.spec_ptr()).content())
                &&& (refcount_of(old(mm)@[old(zv).value.spec_ptr() as int].body) <= 1
                    ==> unreferenced(old(mm)@, old(zv).value.spec_ptr()))
            },
        ensures
            final(mm).wf(),
            *final(zv) == crate::assign::long_cell(coerced_long(*old(zv), old(mm)@)),
            match r {
                Result::Ok(v) => T::from_spec(*final(zv), final(mm)@) == Ok::<
                    T::Model,
                    Seq<char>,
                >(T::model_of(v.0)),
                Result::Err(e) => T::from_spec(*final(zv), final(mm)@) == Err::<
                    T::Model,
                    Seq<char>,
                >(e@),
            },
    {
        convert_to_long(zv, mm);
        proof {
            lemma_type_info_extract();
        }
        match T::from_zval(zv, mm) {
            Result::Ok(v) => Ok(ConvertZvalAs(v)),
            Result::Err(e) => Err(e),
        }
    }
}

/// Strictness, stated against coercion: a strict integer read of a
/// text-tagged cell always fails with the tag mismatch — text is never
/// silently parsed; parsing happens only through the explicit coercion
/// above, which changes the cell's tag in place.
pub proof fn lemma_strict_rejects_text(zv: Zval, h: Seq<BlockView>)
    requires
        zv.spec_type() == tag_of(ZvalType::String),
    ensures
        <u16 as FromZval>::from_spec(zv, h) == Err::<u16, Seq<char>>(
            crate::static_from::mismatch_msg(zv.spec_type(), "long"@),
        ),
{
}

} // verus!
