//! How evaluation continues after a statement or an expression.

use vstd::prelude::*;
use crate::value::{Value, ValueView};

verus! {

/// The outcome of evaluating a node: a value, or a jump that is on its way
/// to the enclosing function or loop.
#[derive(Clone, Debug)]
pub enum Flow {
    /// Evaluation goes on with the next node.
    Regular(Value),
    /// A `return` was reached: the enclosing function returns the value.
    Return(Value),
    /// A `break` was reached: the enclosing loop ends.
    Break,
}

/// What a flow is, in contracts.
pub enum FlowView {
    Regular(ValueView),
    Return(ValueView),
    Break,
}

impl View for Flow {
    type V = FlowView;

    open spec fn view(&self) -> FlowView {
        match *self {
            Flow::Regular(v) => FlowView::Regular(v@),
            Flow::Return(v) => FlowView::Return(v@),
            Flow::Break => FlowView::Break,
        }
    }
}

} // verus!
