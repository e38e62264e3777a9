//! The host's per-call execution frame, and the argument-count check
//! every generated wrapper performs before running its body.
//!
//! In the host's layout, argument `i` (0-based) sits a fixed number of
//! cell slots — [`ZEND_CALL_FRAME_SLOT`] — past the start of the frame
//! record, and the auxiliary word of the frame's "this" cell doubles as
//! the received argument count. The model carries the argument cells as
//! a sequence and keeps the count in that same auxiliary word.

use vstd::prelude::*;
use vstd::string::StringExecFns;
use crate::decimal::{dec_rep, push_decimal_usize};
use crate::zval::Zval;

verus! {

/// How many cell slots the frame record itself occupies; the first
/// argument cell follows immediately after.
pub const ZEND_CALL_FRAME_SLOT: usize = 5;

/// The host's per-call execution frame.
#[derive(Debug)]
pub struct ExecuteData {
    /// The frame's "this" cell; its auxiliary word carries the received
    /// argument count.
    pub this: Zval,
    /// The argument cells, in call order.
    pub args: Vec<Zval>,
}

impl ExecuteData {
    /// The count in the auxiliary word matches the argument cells.
    pub open spec fn wf(self) -> bool {
        self.this.u2 == self.args@.len()
    }

    /// A frame as the host builds it for a call: the received arguments,
    /// their count seated in the "this" cell's auxiliary word.
    pub fn new(this: Zval, args: Vec<Zval>) -> (r: ExecuteData)
        requires
            args@.len() <= u32::MAX,
        ensures
            r.wf(),
            r.args == args,
            r.this.value == this.value,
            r.this.u1 == this.u1,
            r.this.u2 == args@.len(),
    {
        let mut t = this;
        t.u2 = args.len() as u32;
        ExecuteData { this: t, args }
    }

    /// The received argument count, as stored in the "this" cell's
    /// auxiliary word. Nothing checks that the cell is in fact used as a
    /// call-frame marker; that is the caller's knowledge.
    pub fn arg_count(&self) -> (r: usize)
        ensures
            r == self.this.u2 as usize,
    {
        self.this.u2 as usize
    }

    /// Argument `idx`, 0-based: the cell [`ZEND_CALL_FRAME_SLOT`]` + idx`
    /// slots past the frame's start.
    pub fn arg(&self, idx: usize) -> (r: Zval)
        requires
            idx < self.args@.len(),
        ensures
            r == self.args@[idx as int],
    {
        self.args[idx]
    }
}

/// The message raised when a call brings fewer arguments than the
/// wrapped function requires.
pub open spec fn arg_count_error_msg(fn_name: Seq<char>, required: nat, got: nat) -> Seq<char> {
    fn_name + ": expected "@ + dec_rep(required) + " arguments got "@ + dec_rep(got)
}

/// The argument-count check a generated wrapper performs before its
/// body: too few received arguments yield the exception message — naming
/// the function, the required count and the received count — and the
/// wrapped function must then not run.
pub fn verify_arg_count(fn_name: &str, ex: &ExecuteData, req_args: usize) -> (r: Option<String>)
    ensures
        r is Some <==> (ex.this.u2 as usize) < req_args,
        r matches Some(m) ==> m@ == arg_count_error_msg(
            fn_name@,
            req_args as nat,
            ex.this.u2 as nat,
        ),
{
    let got = ex.arg_count();
    if got < req_args {
        let mut m = String::from_str(fn_name);
        m.append(": expected ");
        push_decimal_usize(&mut m, req_args);
        m.append(" arguments got ");
        push_decimal_usize(&mut m, got);
        proof {
            assert(m@ =~= arg_count_error_msg(fn_name@, req_args as nat, ex.this.u2 as nat));
        }
        Some(m)
    } else {
        None
    }
}

} // verus!
