//! Reading and writing the elements of containers, and the protocol of
//! iterators.

use vstd::prelude::*;
use crate::mem::{MemView, Memory};
use crate::ops::result_view;
use crate::panic::{Panic, PanicView};
use crate::source::SourcePos;
use crate::value::{Value, ValueView};

verus! {

/// What `object[field]` gives in the memory `mem`. A dictionary is looked up
/// by key and an array by an integer index; a key or an index that is not
/// there, and a field of the wrong kind, are charged to the field, anything
/// that is neither dictionary nor array to the object.
pub open spec fn access_spec(
    mem: MemView,
    object: ValueView,
    field: ValueView,
    object_pos: SourcePos,
    field_pos: SourcePos,
) -> Result<ValueView, PanicView> {
    match object {
        ValueView::Dict(d) => if mem.dicts[d.index as int].contains_key(field) {
            Ok(mem.dicts[d.index as int][field])
        } else {
            Err(PanicView::IndexOutOfBounds { value: field, pos: field_pos })
        },
        ValueView::Array(a) => match field {
            ValueView::Int(ix) => if mem.array_has(a, ix) {
                Ok(mem.arrays[a.index as int][ix as int])
            } else {
                Err(PanicView::IndexOutOfBounds { value: field, pos: field_pos })
            },
            _ => Err(PanicView::InvalidOperand { value: field, pos: field_pos }),
        },
        _ => Err(PanicView::InvalidOperand { value: object, pos: object_pos }),
    }
}

/// Reads `object[field]`.
pub fn access(
    mem: &Memory,
    object: &Value,
    field: Value,
    object_pos: SourcePos,
    field_pos: SourcePos,
) -> (r: Result<Value, Panic>)
    requires
        mem.wf(),
        mem@.valid(object@),
    ensures
        result_view(r) == access_spec(mem@, object@, field@, object_pos, field_pos),
        r matches Ok(v) ==> mem@.valid(v@),
{
    match object {
        Value::Dict(d) => match mem.dict_get(*d, &field) {
            Some(v) => Ok(v),
            None => Err(Panic::index_out_of_bounds(field, field_pos)),
        },
        Value::Array(a) => match field {
            Value::Int(ix) => match mem.array_index(*a, ix) {
                Some(v) => Ok(v),
                None => Err(Panic::index_out_of_bounds(Value::Int(ix), field_pos)),
            },
            other => Err(Panic::invalid_operand(other, field_pos)),
        },
        other => Err(Panic::invalid_operand(other.copy(), object_pos)),
    }
}

/// The fault of `object[field] = value` in the memory `mem`, if it is one. A
/// dictionary takes any key. An array takes the index of an element that it
/// has: any other index, past the end or negative, is charged to the field.
/// So is a field of the wrong kind. Anything that is neither dictionary nor
/// array is charged to the object.
pub open spec fn assign_fault(
    mem: MemView,
    object: ValueView,
    field: ValueView,
    object_pos: SourcePos,
    field_pos: SourcePos,
) -> Option<PanicView> {
    match object {
        ValueView::Dict(_) => None,
        ValueView::Array(a) => match field {
            ValueView::Int(ix) => if mem.array_has(a, ix) {
                None
            } else {
                Some(PanicView::IndexOutOfBounds { value: field, pos: field_pos })
            },
            _ => Some(PanicView::InvalidOperand { value: field, pos: field_pos }),
        },
        _ => Some(PanicView::InvalidOperand { value: object, pos: object_pos }),
    }
}

/// The memory after `object[field] = value`, where that is no fault.
pub open spec fn assign_spec(
    mem: MemView,
    object: ValueView,
    field: ValueView,
    value: ValueView,
) -> MemView {
    match (object, field) {
        (ValueView::Dict(d), _) => mem.dict_insert(d, field, value),
        (ValueView::Array(a), ValueView::Int(ix)) => mem.array_set(a, ix, value),
        _ => mem,
    }
}

/// Executes `object[field] = value`. On a fault the memory is left as it
/// was.
pub fn assign(
    mem: &mut Memory,
    object: Value,
    field: Value,
    value: Value,
    object_pos: SourcePos,
    field_pos: SourcePos,
) -> (r: Result<(), Panic>)
    requires
        old(mem).wf(),
        old(mem)@.valid(object@),
        old(mem)@.valid(field@),
        old(mem)@.valid(value@),
    ensures
        final(mem).wf(),
        match r {
            Ok(_) => assign_fault(old(mem)@, object@, field@, object_pos, field_pos) is None
                && final(mem)@ == assign_spec(old(mem)@, object@, field@, value@),
            Err(p) => assign_fault(old(mem)@, object@, field@, object_pos, field_pos) == Some(p@)
                && final(mem)@ == old(mem)@,
        },
{
    match object {
        Value::Dict(d) => {
            mem.dict_insert(d, field, value);
            Ok(())
        },
        Value::Array(a) => match field {
            Value::Int(ix) => {
                if mem.array_set(a, ix, value) {
                    Ok(())
                } else {
                    Err(Panic::index_out_of_bounds(Value::Int(ix), field_pos))
                }
            },
            other => Err(Panic::invalid_operand(other, field_pos)),
        },
        other => Err(Panic::invalid_operand(other, object_pos)),
    }
}

/// The bytes of the key `finished`.
pub open spec fn finished_key() -> Seq<u8> {
    seq![102u8, 105u8, 110u8, 105u8, 115u8, 104u8, 101u8, 100u8]
}

/// The bytes of the key `value`.
pub open spec fn value_key() -> Seq<u8> {
    seq![118u8, 97u8, 108u8, 117u8, 101u8]
}

/// The string `finished`.
pub fn finished() -> (r: Value)
    ensures
        r@ == ValueView::String(finished_key()),
{
    let bytes: Vec<u8> = vec![102u8, 105u8, 110u8, 105u8, 115u8, 104u8, 101u8, 100u8];
    assert(bytes@ =~= finished_key());
    Value::String(bytes)
}

/// The string `value`.
pub fn value() -> (r: Value)
    ensures
        r@ == ValueView::String(value_key()),
{
    let bytes: Vec<u8> = vec![118u8, 97u8, 108u8, 117u8, 101u8];
    assert(bytes@ =~= value_key());
    Value::String(bytes)
}

/// What an iterator's answer `step` means in the memory `mem`: the next
/// item, or nothing when the iteration is over. The answer has to be a
/// dictionary that holds a boolean under the string `finished`, and, where
/// that is `false`, the item under the string `value`. An answer that is no
/// dictionary and a `finished` that is no boolean are operand faults; a
/// missing key is an index fault that names the key. All are charged to
/// `pos`.
pub open spec fn iteration_spec(mem: MemView, step: ValueView, pos: SourcePos) -> Result<
    Option<ValueView>,
    PanicView,
> {
    match step {
        ValueView::Dict(d) => {
            let dict = mem.dicts[d.index as int];
            let finished = ValueView::String(finished_key());
            let value = ValueView::String(value_key());
            if !dict.contains_key(finished) {
                Err(PanicView::IndexOutOfBounds { value: finished, pos })
            } else {
                match dict[finished] {
                    ValueView::Bool(true) => Ok(None),
                    ValueView::Bool(false) => if dict.contains_key(value) {
                        Ok(Some(dict[value]))
                    } else {
                        Err(PanicView::IndexOutOfBounds { value, pos })
                    },
                    other => Err(PanicView::InvalidOperand { value: other, pos }),
                }
            }
        },
        _ => Err(PanicView::InvalidOperand { value: step, pos }),
    }
}

/// Reads an iterator's answer.
pub fn iteration(mem: &Memory, step: Value, pos: SourcePos) -> (r: Result<Option<Value>, Panic>)
    requires
        mem.wf(),
        mem@.valid(step@),
    ensures
        match r {
            Ok(Some(v)) => iteration_spec(mem@, step@, pos) == Ok::<Option<ValueView>, PanicView>(
                Some(v@),
            ) && mem@.valid(v@),
            Ok(None) => iteration_spec(mem@, step@, pos) == Ok::<Option<ValueView>, PanicView>(
                None,
            ),
            Err(p) => iteration_spec(mem@, step@, pos) == Err::<Option<ValueView>, PanicView>(p@),
        },
{
    match step {
        Value::Dict(d) => {
            let key = finished();
            match mem.dict_get(d, &key) {
                None => Err(Panic::index_out_of_bounds(key, pos)),
                Some(Value::Bool(true)) => Ok(None),
                Some(Value::Bool(false)) => {
                    let key = value();
                    match mem.dict_get(d, &key) {
                        None => Err(Panic::index_out_of_bounds(key, pos)),
                        Some(v) => Ok(Some(v)),
                    }
                },
                Some(other) => Err(Panic::invalid_operand(other, pos)),
            }
        },
        other => Err(Panic::invalid_operand(other, pos)),
    }
}

} // verus!
