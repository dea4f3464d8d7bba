//! Runtime faults.

use vstd::prelude::*;
use crate::source::SourcePos;
use crate::value::{Value, ValueView};

verus! {

/// A fault of the running program, with the position of the node that
/// caused it.
#[derive(Clone, Debug)]
pub enum Panic {
    /// A frame did not fit on the stack.
    StackOverflow { pos: SourcePos },
    /// An operator or an access got a value that it has no meaning for.
    InvalidOperand { value: Value, pos: SourcePos },
    /// A condition was not a boolean.
    InvalidCondition { value: Value, pos: SourcePos },
    /// Something that is no function was called.
    InvalidCall { value: Value, pos: SourcePos },
    /// An array has no such index, or a dictionary no such key.
    IndexOutOfBounds { value: Value, pos: SourcePos },
    /// An integer operation left the range of integers.
    IntegerOverflow { pos: SourcePos },
    /// An integer was divided by zero.
    DivisionByZero { pos: SourcePos },
    /// A function was called with another number of arguments than it has
    /// parameters.
    MissingParameters { pos: SourcePos },
}

/// What a fault is, in contracts.
pub enum PanicView {
    StackOverflow { pos: SourcePos },
    InvalidOperand { value: ValueView, pos: SourcePos },
    InvalidCondition { value: ValueView, pos: SourcePos },
    InvalidCall { value: ValueView, pos: SourcePos },
    IndexOutOfBounds { value: ValueView, pos: SourcePos },
    IntegerOverflow { pos: SourcePos },
    DivisionByZero { pos: SourcePos },
    MissingParameters { pos: SourcePos },
}

impl View for Panic {
    type V = PanicView;

    open spec fn view(&self) -> PanicView {
        match *self {
            Panic::StackOverflow { pos } => PanicView::StackOverflow { pos },
            Panic::InvalidOperand { value, pos } => PanicView::InvalidOperand {
                value: value@,
                pos,
            },
            Panic::InvalidCondition { value, pos } => PanicView::InvalidCondition {
                value: value@,
                pos,
            },
            Panic::InvalidCall { value, pos } => PanicView::InvalidCall { value: value@, pos },
            Panic::IndexOutOfBounds { value, pos } => PanicView::IndexOutOfBounds {
                value: value@,
                pos,
            },
            Panic::IntegerOverflow { pos } => PanicView::IntegerOverflow { pos },
            Panic::DivisionByZero { pos } => PanicView::DivisionByZero { pos },
            Panic::MissingParameters { pos } => PanicView::MissingParameters { pos },
        }
    }
}

impl Panic {
    /// A frame did not fit on the stack, at `pos`.
    pub fn stack_overflow(pos: SourcePos) -> (r: Panic)
        ensures
            r@ == (PanicView::StackOverflow { pos }),
    {
        Panic::StackOverflow { pos }
    }

    /// `value`, at `pos`, is no operand for the operator or access it stands in.
    pub fn invalid_operand(value: Value, pos: SourcePos) -> (r: Panic)
        ensures
            r@ == (PanicView::InvalidOperand { value: value@, pos }),
    {
        Panic::InvalidOperand { value, pos }
    }

    /// `value`, at `pos`, is a condition and no boolean.
    pub fn invalid_condition(value: Value, pos: SourcePos) -> (r: Panic)
        ensures
            r@ == (PanicView::InvalidCondition { value: value@, pos }),
    {
        Panic::InvalidCondition { value, pos }
    }

    /// `value`, at `pos`, is called and is no function.
    pub fn invalid_call(value: Value, pos: SourcePos) -> (r: Panic)
        ensures
            r@ == (PanicView::InvalidCall { value: value@, pos }),
    {
        Panic::InvalidCall { value, pos }
    }

    /// `value`, at `pos`, is no index of the array, or no key of the dictionary, that it is
    /// used on.
    pub fn index_out_of_bounds(value: Value, pos: SourcePos) -> (r: Panic)
        ensures
            r@ == (PanicView::IndexOutOfBounds { value: value@, pos }),
    {
        Panic::IndexOutOfBounds { value, pos }
    }

    /// The integer operation at `pos` left the range of integers.
    pub fn integer_overflow(pos: SourcePos) -> (r: Panic)
        ensures
            r@ == (PanicView::IntegerOverflow { pos }),
    {
        Panic::IntegerOverflow { pos }
    }

    /// The division at `pos` has no result.
    pub fn division_by_zero(pos: SourcePos) -> (r: Panic)
        ensures
            r@ == (PanicView::DivisionByZero { pos }),
    {
        Panic::DivisionByZero { pos }
    }

    /// The call at `pos` has another number of arguments than the function has
    /// parameters.
    pub fn missing_parameters(pos: SourcePos) -> (r: Panic)
        ensures
            r@ == (PanicView::MissingParameters { pos }),
    {
        Panic::MissingParameters { pos }
    }

    /// The position of the node that caused the fault.
    pub fn pos(&self) -> (r: SourcePos)
        ensures
            r == self@.pos(),
    {
        match self {
            Panic::StackOverflow { pos } => *pos,
            Panic::InvalidOperand { pos, .. } => *pos,
            Panic::InvalidCondition { pos, .. } => *pos,
            Panic::InvalidCall { pos, .. } => *pos,
            Panic::IndexOutOfBounds { pos, .. } => *pos,
            Panic::IntegerOverflow { pos } => *pos,
            Panic::DivisionByZero { pos } => *pos,
            Panic::MissingParameters { pos } => *pos,
        }
    }
}

impl PanicView {
    /// The position of the node that caused the fault.
    pub open spec fn pos(self) -> SourcePos {
        match self {
            PanicView::StackOverflow { pos } => pos,
            PanicView::InvalidOperand { pos, .. } => pos,
            PanicView::InvalidCondition { pos, .. } => pos,
            PanicView::InvalidCall { pos, .. } => pos,
            PanicView::IndexOutOfBounds { pos, .. } => pos,
            PanicView::IntegerOverflow { pos } => pos,
            PanicView::DivisionByZero { pos } => pos,
            PanicView::MissingParameters { pos } => pos,
        }
    }
}

} // verus!
