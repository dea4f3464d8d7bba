//! The values of the language.

use vstd::prelude::*;
use crate::symbol::{bytes_copy, bytes_equal};

verus! {

/// A 64-bit IEEE-754 number, held as its bit pattern. Two floats are equal
/// when their bits are.
#[derive(Clone, Copy, Debug, PartialEq, Eq, Structural)]
pub struct Float {
    pub bits: u64,
}

/// The sign bit of a float.
pub const SIGN_BIT: u64 = 0x8000_0000_0000_0000u64;

impl Float {
    /// The float with the bit pattern `bits`.
    pub fn from_bits(bits: u64) -> (r: Float)
        ensures
            r.bits == bits,
    {
        Float { bits }
    }

    /// The bit pattern.
    pub fn to_bits(self) -> (r: u64)
        ensures
            r == self.bits,
    {
        self.bits
    }

    /// What negation gives: the same bits with the sign flipped.
    pub open spec fn negated(self) -> Float {
        Float { bits: self.bits ^ SIGN_BIT }
    }

    /// The negated float: IEEE-754 negation flips the sign bit and nothing else.
    pub fn negate(self) -> (r: Float)
        ensures
            r == self.negated(),
    {
        Float { bits: self.bits ^ SIGN_BIT }
    }
}

/// Handle of a shared array.
#[derive(Clone, Copy, Debug, PartialEq, Eq, Structural)]
pub struct ArrayRef {
    pub index: usize,
}

/// Handle of a shared dictionary.
#[derive(Clone, Copy, Debug, PartialEq, Eq, Structural)]
pub struct DictRef {
    pub index: usize,
}

/// Handle of a function object.
#[derive(Clone, Copy, Debug, PartialEq, Eq, Structural)]
pub struct FunRef {
    pub index: usize,
}

/// Handle of a captured slot cell.
#[derive(Clone, Copy, Debug, PartialEq, Eq, Structural)]
pub struct CellRef {
    pub index: usize,
}

/// A value. Scalars and strings are held directly; arrays, dictionaries and
/// functions are handles into the memory that owns them, so copying a value
/// copies the handle and both copies name the same container.
#[derive(Clone, Debug)]
pub enum Value {
    Nil,
    Bool(bool),
    Int(i64),
    Float(Float),
    Byte(u8),
    String(Vec<u8>),
    Array(ArrayRef),
    Dict(DictRef),
    Function(FunRef),
}

/// What a value is, in contracts.
pub enum ValueView {
    Nil,
    Bool(bool),
    Int(i64),
    Float(Float),
    Byte(u8),
    String(Seq<u8>),
    Array(ArrayRef),
    Dict(DictRef),
    Function(FunRef),
}

impl View for Value {
    type V = ValueView;

    open spec fn view(&self) -> ValueView {
        match *self {
            Value::Nil => ValueView::Nil,
            Value::Bool(b) => ValueView::Bool(b),
            Value::Int(i) => ValueView::Int(i),
            Value::Float(f) => ValueView::Float(f),
            Value::Byte(b) => ValueView::Byte(b),
            Value::String(s) => ValueView::String(s@),
            Value::Array(r) => ValueView::Array(r),
            Value::Dict(r) => ValueView::Dict(r),
            Value::Function(r) => ValueView::Function(r),
        }
    }
}

/// The views of a sequence of values.
pub open spec fn views(s: Seq<Value>) -> Seq<ValueView> {
    Seq::new(s.len(), |i: int| s[i]@)
}

impl Value {
    /// A copy of the value: the same scalar or string, or the same handle.
    pub fn copy(&self) -> (r: Value)
        ensures
            r@ == self@,
    {
        match self {
            Value::Nil => Value::Nil,
            Value::Bool(b) => Value::Bool(*b),
            Value::Int(i) => Value::Int(*i),
            Value::Float(f) => Value::Float(*f),
            Value::Byte(b) => Value::Byte(*b),
            Value::String(s) => Value::String(bytes_copy(s.as_slice())),
            Value::Array(r) => Value::Array(*r),
            Value::Dict(r) => Value::Dict(*r),
            Value::Function(r) => Value::Function(*r),
        }
    }

    /// The equality of the language, which is also the equality of dictionary
    /// keys. Scalars of one kind are equal when they hold the same number,
    /// byte or truth value, floats when they hold the same bits; strings when
    /// they hold the same bytes; arrays, dictionaries and functions when they
    /// are the same container. Values of different kinds are never equal: an
    /// integer is not equal to any float.
    pub fn equals(&self, other: &Value) -> (r: bool)
        ensures
            r == (self@ == other@),
    {
        match (self, other) {
            (Value::Nil, Value::Nil) => true,
            (Value::Bool(a), Value::Bool(b)) => *a == *b,
            (Value::Int(a), Value::Int(b)) => *a == *b,
            (Value::Float(a), Value::Float(b)) => a.bits == b.bits,
            (Value::Byte(a), Value::Byte(b)) => *a == *b,
            (Value::String(a), Value::String(b)) => bytes_equal(a.as_slice(), b.as_slice()),
            (Value::Array(a), Value::Array(b)) => a.index == b.index,
            (Value::Dict(a), Value::Dict(b)) => a.index == b.index,
            (Value::Function(a), Value::Function(b)) => a.index == b.index,
            _ => false,
        }
    }

    /// The string value with the bytes of `bytes`.
    pub fn string(bytes: &[u8]) -> (r: Value)
        ensures
            r@ == ValueView::String(bytes@),
    {
        Value::String(bytes_copy(bytes))
    }
}

impl Default for Value {
    fn default() -> (r: Value)
        ensures
            r@ == ValueView::Nil,
    {
        Value::Nil
    }
}

} // verus!
