//! The operators of the language, on values.

use vstd::prelude::*;
use crate::panic::{Panic, PanicView};
use crate::program::{BinaryOp, UnaryOp};
use crate::source::SourcePos;
use crate::symbol::bytes_copy;
use crate::value::{Float, FunRef, Value, ValueView};

verus! {

impl BinaryOp {
    /// `+ - * / %`.
    pub open spec fn is_arithmetic(self) -> bool {
        self is Plus || self is Minus || self is Times || self is Div || self is Mod
    }

    /// `and` and `or`, which evaluate their right operand only where the
    /// left one does not decide.
    pub open spec fn is_logical(self) -> bool {
        self is And || self is Or
    }

    /// Tests `is_logical`.
    pub fn logical(self) -> (r: bool)
        ensures
            r == self.is_logical(),
    {
        match self {
            BinaryOp::And => true,
            BinaryOp::Or => true,
            _ => false,
        }
    }
}

/// Whether `n` is a 64-bit signed integer.
pub open spec fn fits(n: int) -> bool {
    i64::MIN <= n <= i64::MAX
}

/// The absolute value.
pub open spec fn magnitude(n: int) -> int {
    if n < 0 {
        -n
    } else {
        n
    }
}

/// The quotient rounded toward zero.
pub open spec fn quotient(a: int, b: int) -> int
    recommends
        b != 0,
{
    if (a < 0) == (b < 0) {
        magnitude(a) / magnitude(b)
    } else {
        -(magnitude(a) / magnitude(b))
    }
}

/// The remainder that goes with `quotient`: it has the sign of `a`.
pub open spec fn remainder(a: int, b: int) -> int
    recommends
        b != 0,
{
    if a < 0 {
        -(magnitude(a) % magnitude(b))
    } else {
        magnitude(a) % magnitude(b)
    }
}

/// What a unary operator gives. Negating the least integer is an overflow.
/// An operand of the wrong kind is charged to the operand's position
/// `operand_pos`, an overflow to the position `pos` of the expression.
pub open spec fn unary_spec(
    op: UnaryOp,
    operand: ValueView,
    pos: SourcePos,
    operand_pos: SourcePos,
) -> Result<ValueView, PanicView> {
    match (op, operand) {
        (UnaryOp::Minus, ValueView::Float(f)) => Ok(ValueView::Float(f.negated())),
        (UnaryOp::Minus, ValueView::Int(i)) => if i == i64::MIN {
            Err(PanicView::IntegerOverflow { pos })
        } else {
            Ok(ValueView::Int((-i) as i64))
        },
        (UnaryOp::Not, ValueView::Bool(b)) => Ok(ValueView::Bool(!b)),
        (_, v) => Err(PanicView::InvalidOperand { value: v, pos: operand_pos }),
    }
}

/// Applies a unary operator.
pub fn unary(op: UnaryOp, operand: Value, pos: SourcePos, operand_pos: SourcePos) -> (r: Result<
    Value,
    Panic,
>)
    ensures
        result_view(r) == unary_spec(op, operand@, pos, operand_pos),
{
    match op {
        UnaryOp::Minus => match operand {
            Value::Float(f) => Ok(Value::Float(f.negate())),
            Value::Int(i) => if i == i64::MIN {
                Err(Panic::integer_overflow(pos))
            } else {
                Ok(Value::Int(-i))
            },
            other => Err(Panic::invalid_operand(other, operand_pos)),
        },
        UnaryOp::Not => match operand {
            Value::Bool(b) => Ok(Value::Bool(!b)),
            other => Err(Panic::invalid_operand(other, operand_pos)),
        },
    }
}

/// The view of the outcome of an operator.
pub open spec fn result_view(r: Result<Value, Panic>) -> Result<ValueView, PanicView> {
    match r {
        Ok(v) => Ok(v@),
        Err(p) => Err(p@),
    }
}

/// What an arithmetic operator gives on two integers: the exact result where
/// it is a 64-bit integer. A sum, difference or product that is none is an
/// overflow. A quotient or remainder by zero is a division by zero. The least
/// integer divided by minus one is an overflow, for the quotient and for the
/// remainder alike: the quotient is no 64-bit integer.
pub open spec fn int_arith_spec(op: BinaryOp, a: i64, b: i64, pos: SourcePos) -> Result<
    ValueView,
    PanicView,
>
    recommends
        op.is_arithmetic(),
{
    match op {
        BinaryOp::Plus => if fits(a + b) {
            Ok(ValueView::Int((a + b) as i64))
        } else {
            Err(PanicView::IntegerOverflow { pos })
        },
        BinaryOp::Minus => if fits(a - b) {
            Ok(ValueView::Int((a - b) as i64))
        } else {
            Err(PanicView::IntegerOverflow { pos })
        },
        BinaryOp::Times => if fits(a * b) {
            Ok(ValueView::Int((a * b) as i64))
        } else {
            Err(PanicView::IntegerOverflow { pos })
        },
        BinaryOp::Div => if b == 0 {
            Err(PanicView::DivisionByZero { pos })
        } else if a == i64::MIN && b == -1 {
            Err(PanicView::IntegerOverflow { pos })
        } else {
            Ok(ValueView::Int(quotient(a as int, b as int) as i64))
        },
        _ => if b == 0 {
            Err(PanicView::DivisionByZero { pos })
        } else if a == i64::MIN && b == -1 {
            Err(PanicView::IntegerOverflow { pos })
        } else {
            Ok(ValueView::Int(remainder(a as int, b as int) as i64))
        },
    }
}

/// Applies an arithmetic operator to two integers.
pub fn int_arith(op: BinaryOp, a: i64, b: i64, pos: SourcePos) -> (r: Result<Value, Panic>)
    requires
        op.is_arithmetic(),
    ensures
        result_view(r) == int_arith_spec(op, a, b, pos),
{
    match op {
        BinaryOp::Plus => match a.checked_add(b) {
            Some(n) => Ok(Value::Int(n)),
            None => Err(Panic::integer_overflow(pos)),
        },
        BinaryOp::Minus => match a.checked_sub(b) {
            Some(n) => Ok(Value::Int(n)),
            None => Err(Panic::integer_overflow(pos)),
        },
        BinaryOp::Times => match a.checked_mul(b) {
            Some(n) => Ok(Value::Int(n)),
            None => Err(Panic::integer_overflow(pos)),
        },
        BinaryOp::Div => {
            if b == 0 {
                return Err(Panic::division_by_zero(pos));
            }
            proof {
                lemma_quotient_fits(a, b);
            }
            match a.checked_div(b) {
                Some(n) => Ok(Value::Int(n)),
                None => Err(Panic::integer_overflow(pos)),
            }
        },
        _ => {
            if b == 0 {
                return Err(Panic::division_by_zero(pos));
            }
            proof {
                lemma_remainder_fits(a, b);
            }
            match a.checked_rem(b) {
                Some(n) => Ok(Value::Int(n)),
                None => Err(Panic::integer_overflow(pos)),
            }
        },
    }
}

proof fn lemma_quotient_fits(a: i64, b: i64)
    ensures
        b != 0 ==> (fits(quotient(a as int, b as int)) <==> !(a == i64::MIN && b == -1)),
        b != 0 ==> magnitude(quotient(a as int, b as int)) <= magnitude(a as int),
{
    if b != 0 {
        let x = magnitude(a as int);
        let d = magnitude(b as int);
        vstd::arithmetic::div_mod::lemma_div_is_ordered_by_denominator(x, 1, d);
        vstd::arithmetic::div_mod::lemma_div_pos_is_pos(x, d);
        assert(x / 1 == x);
        if a == i64::MIN && b == -1 {
            assert(quotient(a as int, b as int) == x);
        }
        if b != -1 && a == i64::MIN {
            if d >= 2 {
                vstd::arithmetic::div_mod::lemma_div_is_ordered_by_denominator(x, 2, d);
            }
        }
    }
}

proof fn lemma_remainder_fits(a: i64, b: i64)
    ensures
        b != 0 ==> fits(remainder(a as int, b as int)),
{
    if b != 0 {
        let x = magnitude(a as int);
        let d = magnitude(b as int);
        vstd::arithmetic::div_mod::lemma_mod_bound(x, d);
    }
}

/// A number: an operand of an arithmetic operator.
#[derive(Clone, Copy, Debug, PartialEq, Eq, Structural)]
pub enum Number {
    Int(i64),
    Float(Float),
}

/// What a binary operator has to work on, once both operands are there.
pub enum Binary {
    /// The operator's result.
    Done(Value),
    /// An arithmetic operator on an integer and a float, in either order:
    /// the host promotes the integer and computes the result.
    Mixed { op: BinaryOp, left: Number, right: Number },
}

/// What a `Binary` is, in contracts.
pub enum BinaryView {
    Done(ValueView),
    Mixed { op: BinaryOp, left: Number, right: Number },
}

impl View for Binary {
    type V = BinaryView;

    open spec fn view(&self) -> BinaryView {
        match *self {
            Binary::Done(v) => BinaryView::Done(v@),
            Binary::Mixed { op, left, right } => BinaryView::Mixed { op, left, right },
        }
    }
}

/// The view of the outcome of a binary operator.
pub open spec fn binary_view(r: Result<Binary, Panic>) -> Result<BinaryView, PanicView> {
    match r {
        Ok(b) => Ok(b@),
        Err(p) => Err(p@),
    }
}

/// Whether a value is a number.
pub open spec fn numeric(v: ValueView) -> bool {
    v is Int || v is Float
}

/// What a binary operator other than `and` and `or` gives on two values.
///
/// An arithmetic operator works on two integers (see `int_arith_spec`) and
/// on an integer with a float, in either order, where the host computes (see
/// `Binary::Mixed`). On anything else it is a
/// fault, charged to the left operand unless that is a number, and to the
/// right operand then. `==` and `!=` compare any two values. `++` joins two
/// strings. A `++` on anything else, and every relational operator, is a
/// fault charged to the left operand.
pub open spec fn binary_spec(
    op: BinaryOp,
    left: ValueView,
    right: ValueView,
    pos: SourcePos,
    left_pos: SourcePos,
    right_pos: SourcePos,
) -> Result<BinaryView, PanicView>
    recommends
        !op.is_logical(),
{
    if op.is_arithmetic() {
        match (left, right) {
            (ValueView::Int(a), ValueView::Int(b)) => match int_arith_spec(op, a, b, pos) {
                Ok(v) => Ok(BinaryView::Done(v)),
                Err(p) => Err(p),
            },
            (ValueView::Int(i), ValueView::Float(f)) => Ok(
                BinaryView::Mixed { op, left: Number::Int(i), right: Number::Float(f) },
            ),
            (ValueView::Float(f), ValueView::Int(i)) => Ok(
                BinaryView::Mixed { op, left: Number::Float(f), right: Number::Int(i) },
            ),
            _ => if numeric(left) {
                Err(PanicView::InvalidOperand { value: right, pos: right_pos })
            } else {
                Err(PanicView::InvalidOperand { value: left, pos: left_pos })
            },
        }
    } else if op is Equals {
        Ok(BinaryView::Done(ValueView::Bool(left == right)))
    } else if op is NotEquals {
        Ok(BinaryView::Done(ValueView::Bool(left != right)))
    } else {
        match (op, left, right) {
            (BinaryOp::Concat, ValueView::String(a), ValueView::String(b)) => Ok(
                BinaryView::Done(ValueView::String(a + b)),
            ),
            _ => Err(PanicView::InvalidOperand { value: left, pos: left_pos }),
        }
    }
}

/// The bytes of `a` followed by the bytes of `b`.
pub fn concat(a: &[u8], b: &[u8]) -> (r: Vec<u8>)
    ensures
        r@ == a@ + b@,
{
    let mut r = bytes_copy(a);
    let mut i: usize = 0;
    while i < b.len()
        invariant
            i <= b@.len(),
            r@ == a@ + b@.subrange(0, i as int),
        decreases b@.len() - i,
    {
        r.push(b[i]);
        assert(r@ =~= a@ + b@.subrange(0, i + 1));
        i += 1;
    }
    assert(r@ =~= a@ + b@);
    r
}

fn arithmetic(
    op: BinaryOp,
    left: Value,
    right: Value,
    pos: SourcePos,
    left_pos: SourcePos,
    right_pos: SourcePos,
) -> (r: Result<Binary, Panic>)
    requires
        op.is_arithmetic(),
    ensures
        binary_view(r) == binary_spec(op, left@, right@, pos, left_pos, right_pos),
{
    match left {
        Value::Int(a) => match right {
            Value::Int(b) => match int_arith(op, a, b, pos) {
                Ok(v) => Ok(Binary::Done(v)),
                Err(p) => Err(p),
            },
            Value::Float(f) => Ok(
                Binary::Mixed { op, left: Number::Int(a), right: Number::Float(f) },
            ),
            other => Err(Panic::invalid_operand(other, right_pos)),
        },
        Value::Float(f) => match right {
            Value::Int(b) => Ok(
                Binary::Mixed { op, left: Number::Float(f), right: Number::Int(b) },
            ),
            other => Err(Panic::invalid_operand(other, right_pos)),
        },
        other => Err(Panic::invalid_operand(other, left_pos)),
    }
}

/// Applies a binary operator other than `and` and `or` to two values.
pub fn binary(
    op: BinaryOp,
    left: Value,
    right: Value,
    pos: SourcePos,
    left_pos: SourcePos,
    right_pos: SourcePos,
) -> (r: Result<Binary, Panic>)
    requires
        !op.is_logical(),
    ensures
        binary_view(r) == binary_spec(op, left@, right@, pos, left_pos, right_pos),
{
    match op {
        BinaryOp::Plus | BinaryOp::Minus | BinaryOp::Times | BinaryOp::Div | BinaryOp::Mod => {
            arithmetic(op, left, right, pos, left_pos, right_pos)
        },
        BinaryOp::Equals => Ok(Binary::Done(Value::Bool(left.equals(&right)))),
        BinaryOp::NotEquals => Ok(Binary::Done(Value::Bool(!left.equals(&right)))),
        BinaryOp::Concat => match left {
            Value::String(a) => match right {
                Value::String(b) => Ok(
                    Binary::Done(Value::String(concat(a.as_slice(), b.as_slice()))),
                ),
                _ => Err(Panic::invalid_operand(Value::String(a), left_pos)),
            },
            other => Err(Panic::invalid_operand(other, left_pos)),
        },
        _ => Err(Panic::invalid_operand(left, left_pos)),
    }
}

/// What the left operand of `and` or `or` decides: the result, where it
/// decides (`false and ..`, `true or ..`); nothing, where the right operand
/// has to be evaluated; a fault, where it is no boolean.
pub open spec fn logical_left_spec(op: BinaryOp, left: ValueView, left_pos: SourcePos) -> Result<
    Option<ValueView>,
    PanicView,
>
    recommends
        op.is_logical(),
{
    match left {
        ValueView::Bool(b) => if (op is And && !b) || (op is Or && b) {
            Ok(Some(ValueView::Bool(b)))
        } else {
            Ok(None)
        },
        _ => Err(PanicView::InvalidOperand { value: left, pos: left_pos }),
    }
}

/// Looks at the left operand of `and` or `or`.
pub fn logical_left(op: BinaryOp, left: Value, left_pos: SourcePos) -> (r: Result<
    Option<Value>,
    Panic,
>)
    requires
        op.is_logical(),
    ensures
        match r {
            Ok(Some(v)) => logical_left_spec(op, left@, left_pos) == Ok::<
                Option<ValueView>,
                PanicView,
            >(Some(v@)),
            Ok(None) => logical_left_spec(op, left@, left_pos) == Ok::<
                Option<ValueView>,
                PanicView,
            >(None),
            Err(p) => logical_left_spec(op, left@, left_pos) == Err::<
                Option<ValueView>,
                PanicView,
            >(p@),
        },
{
    match left {
        Value::Bool(b) => match op {
            BinaryOp::And => if b {
                Ok(None)
            } else {
                Ok(Some(Value::Bool(false)))
            },
            _ => if b {
                Ok(Some(Value::Bool(true)))
            } else {
                Ok(None)
            },
        },
        other => Err(Panic::invalid_operand(other, left_pos)),
    }
}

/// What `and` and `or` give where the left operand did not decide: the
/// right operand, which has to be a boolean.
pub open spec fn logical_right_spec(right: ValueView, right_pos: SourcePos) -> Result<
    ValueView,
    PanicView,
> {
    match right {
        ValueView::Bool(_) => Ok(right),
        _ => Err(PanicView::InvalidOperand { value: right, pos: right_pos }),
    }
}

/// Looks at the right operand of `and` or `or`.
pub fn logical_right(right: Value, right_pos: SourcePos) -> (r: Result<Value, Panic>)
    ensures
        result_view(r) == logical_right_spec(right@, right_pos),
{
    match right {
        Value::Bool(b) => Ok(Value::Bool(b)),
        other => Err(Panic::invalid_operand(other, right_pos)),
    }
}

/// The truth value of a condition, which has to be a boolean.
pub open spec fn condition_spec(value: ValueView, pos: SourcePos) -> Result<bool, PanicView> {
    match value {
        ValueView::Bool(b) => Ok(b),
        _ => Err(PanicView::InvalidCondition { value, pos }),
    }
}

/// Reads a condition.
pub fn condition(value: Value, pos: SourcePos) -> (r: Result<bool, Panic>)
    ensures
        match r {
            Ok(b) => condition_spec(value@, pos) == Ok::<bool, PanicView>(b),
            Err(p) => condition_spec(value@, pos) == Err::<bool, PanicView>(p@),
        },
{
    match value {
        Value::Bool(b) => Ok(b),
        other => Err(Panic::invalid_condition(other, pos)),
    }
}

/// The function that a call is made to: the callee has to be a function.
pub open spec fn callee_spec(value: ValueView, pos: SourcePos) -> Result<FunRef, PanicView> {
    match value {
        ValueView::Function(f) => Ok(f),
        _ => Err(PanicView::InvalidCall { value, pos }),
    }
}

/// Reads the callee of a call.
pub fn callee(value: Value, pos: SourcePos) -> (r: Result<FunRef, Panic>)
    ensures
        match r {
            Ok(f) => callee_spec(value@, pos) == Ok::<FunRef, PanicView>(f),
            Err(p) => callee_spec(value@, pos) == Err::<FunRef, PanicView>(p@),
        },
{
    match value {
        Value::Function(f) => Ok(f),
        other => Err(Panic::invalid_call(other, pos)),
    }
}

} // verus!
