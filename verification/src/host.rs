//! What the runtime takes from its host.

use vstd::prelude::*;
use crate::mem::{MemView, Memory};
use crate::panic::Panic;
use crate::ops::Number;
use crate::program::BinaryOp;
use crate::value::{Float, Value};

verus! {

impl MemView {
    /// What the runtime relies on when it hands its memory out and takes it
    /// back as `self`: the stack is as deep as in `before`, nothing that
    /// `before` held has gone, and the functions of the program can still be
    /// called.
    pub open spec fn continues(self, before: MemView) -> bool {
        &&& self.wf()
        &&& self.grown_from(before)
        &&& self.depth() == before.depth()
        &&& forall|names: usize| #[trigger] before.scoped(names) ==> self.scoped(names)
    }
}

/// The host of a runtime, which an embedder implements: it provides the
/// standard library and the functions that the library holds, and it computes
/// with floats, which the runtime holds as bit patterns only.
///
/// The runtime hands its memory to the host and relies on what it gets back
/// (see `MemView::continues`). Of the host's answers it relies on nothing but
/// that their handles are good.
pub trait Host {
    /// Builds the value of the standard library in `mem`. The runtime puts
    /// it in the first global slot.
    fn library(&mut self, mem: &mut Memory) -> (library: Value)
        requires
            old(mem).wf(),
        ensures
            final(mem)@.continues(old(mem)@),
            final(mem).sound(),
            final(mem)@.valid(library@),
    ;

    /// Calls the host function `id`. Its `args` arguments are the slots
    /// `0..args` of the current frame of `mem`, which the runtime removes
    /// after the call.
    fn call(&mut self, id: u32, mem: &mut Memory, args: u32) -> (r: Result<Value, Panic>)
        requires
            old(mem).wf(),
            args <= old(mem)@.depth(),
        ensures
            final(mem)@.continues(old(mem)@),
            final(mem).sound(),
            r matches Ok(v) ==> final(mem)@.valid(v@),
    ;

    /// Applies the arithmetic operator `op` to `left` and `right`, in this
    /// order, as floats: an integer is promoted to the nearest float.
    fn float_arith(&mut self, op: BinaryOp, left: Number, right: Number) -> (r: Float)
        requires
            op.is_arithmetic(),
    ;
}

} // verus!
