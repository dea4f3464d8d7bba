//! Laws of the operators, of containers and of evaluation.

use vstd::prelude::*;
use crate::access::{access_spec, assign_fault, assign_spec};
use crate::mem::{FunctionView, MemView, SlotView, UserFnView};
use crate::program::SlotIx;
use crate::ops::{
    binary_spec,
    callee_spec,
    condition_spec,
    fits,
    int_arith_spec,
    unary_spec,
    BinaryView,
};
use crate::panic::PanicView;
use crate::flow::FlowView;
use crate::program::{BinaryOp, Block, Expr, UnaryOp};
use crate::value::CellRef;
use crate::semantics::{
    call_fault,
    enter,
    fault,
    regular,
    sem_binary,
    sem_block,
    sem_call,
    sem_access,
    sem_call_expr,
    sem_expr,
    sem_if,
    sem_while,
    Env,
    EvaluatedView,
    lawful_history,
    lemma_model_of,
    Event,
    HaltView,
    HostModel,
    State,
};
use crate::source::SourcePos;
use crate::value::{ArrayRef, DictRef, Float, FunRef, ValueView};

verus! {

/// The result of an operator that worked.
pub open spec fn done(v: ValueView) -> Result<BinaryView, PanicView> {
    Ok(BinaryView::Done(v))
}

/// `not not b` is `b`.
pub proof fn law_not_twice(b: bool, pos: SourcePos, at: SourcePos)
    ensures
        unary_spec(UnaryOp::Not, ValueView::Bool(b), pos, at) == Ok::<ValueView, PanicView>(
            ValueView::Bool(!b),
        ),
        unary_spec(UnaryOp::Not, ValueView::Bool(!b), pos, at) == Ok::<ValueView, PanicView>(
            ValueView::Bool(b),
        ),
{
}

/// `-(-i)` is `i` for every integer but the least, whose negation is an
/// overflow.
pub proof fn law_minus_twice(i: i64, pos: SourcePos, at: SourcePos)
    ensures
        i != i64::MIN ==> unary_spec(UnaryOp::Minus, ValueView::Int(i), pos, at) == Ok::<
            ValueView,
            PanicView,
        >(ValueView::Int((-i) as i64)) && unary_spec(
            UnaryOp::Minus,
            ValueView::Int((-i) as i64),
            pos,
            at,
        ) == Ok::<ValueView, PanicView>(ValueView::Int(i)),
        i == i64::MIN ==> unary_spec(UnaryOp::Minus, ValueView::Int(i), pos, at) == Err::<
            ValueView,
            PanicView,
        >(PanicView::IntegerOverflow { pos }),
{
}

/// `-(-f)` is `f` for every float.
pub proof fn law_minus_twice_float(f: Float, pos: SourcePos, at: SourcePos)
    ensures
        unary_spec(UnaryOp::Minus, ValueView::Float(f), pos, at) == Ok::<ValueView, PanicView>(
            ValueView::Float(f.negated()),
        ),
        f.negated().negated() == f,
{
    let bits = f.bits;
    assert((bits ^ 0x8000_0000_0000_0000u64) ^ 0x8000_0000_0000_0000u64 == bits) by (bit_vector);
}

/// `a + 0` and `0 + a` are `a`, for integers.
pub proof fn law_plus_zero(a: i64, pos: SourcePos, left: SourcePos, right: SourcePos)
    ensures
        binary_spec(BinaryOp::Plus, ValueView::Int(a), ValueView::Int(0), pos, left, right) == done(
            ValueView::Int(a),
        ),
        binary_spec(BinaryOp::Plus, ValueView::Int(0), ValueView::Int(a), pos, left, right) == done(
            ValueView::Int(a),
        ),
{
}

/// `a * 1` and `1 * a` are `a`, for integers.
pub proof fn law_times_one(a: i64, pos: SourcePos, left: SourcePos, right: SourcePos)
    ensures
        binary_spec(BinaryOp::Times, ValueView::Int(a), ValueView::Int(1), pos, left, right)
            == done(ValueView::Int(a)),
        binary_spec(BinaryOp::Times, ValueView::Int(1), ValueView::Int(a), pos, left, right)
            == done(ValueView::Int(a)),
{
}

/// Joining strings is associative.
pub proof fn law_concat_associative(
    a: Seq<u8>,
    b: Seq<u8>,
    c: Seq<u8>,
    pos: SourcePos,
    left: SourcePos,
    right: SourcePos,
)
    ensures
        binary_spec(
            BinaryOp::Concat,
            ValueView::String(a),
            ValueView::String(b),
            pos,
            left,
            right,
        ) == done(ValueView::String(a + b)),
        binary_spec(
            BinaryOp::Concat,
            ValueView::String(a + b),
            ValueView::String(c),
            pos,
            left,
            right,
        ) == binary_spec(
            BinaryOp::Concat,
            ValueView::String(a),
            ValueView::String(b + c),
            pos,
            left,
            right,
        ),
{
    assert((a + b) + c =~= a + (b + c));
}

/// `==` is total, reflexive and symmetric, and `!=` is its negation.
pub proof fn law_equality(
    a: ValueView,
    b: ValueView,
    pos: SourcePos,
    left: SourcePos,
    right: SourcePos,
)
    ensures
        binary_spec(BinaryOp::Equals, a, b, pos, left, right) == done(ValueView::Bool(a == b)),
        binary_spec(BinaryOp::Equals, a, a, pos, left, right) == done(ValueView::Bool(true)),
        binary_spec(BinaryOp::Equals, a, b, pos, left, right) == binary_spec(
            BinaryOp::Equals,
            b,
            a,
            pos,
            left,
            right,
        ),
        binary_spec(BinaryOp::NotEquals, a, b, pos, left, right) == done(
            ValueView::Bool(!(a == b)),
        ),
{
}

/// Values of different kinds are never equal: an integer is equal to no
/// float, and a string to no number.
pub proof fn law_kinds_are_distinct(i: i64, f: Float, s: Seq<u8>)
    ensures
        ValueView::Int(i) != ValueView::Float(f),
        ValueView::String(s) != ValueView::Int(i),
        ValueView::String(s) != ValueView::Float(f),
{
}

/// What is stored in a dictionary under a key is found there, through
/// every value that equals the dictionary and under every key that equals
/// the key.
pub proof fn law_dict_insert_then_lookup(
    mem: MemView,
    d: DictRef,
    holder: ValueView,
    key: ValueView,
    again: ValueView,
    value: ValueView,
    pos: SourcePos,
    object_pos: SourcePos,
    field_pos: SourcePos,
)
    requires
        d.index < mem.dicts.len(),
        binary_spec(BinaryOp::Equals, holder, ValueView::Dict(d), pos, object_pos, field_pos)
            == done(ValueView::Bool(true)),
        binary_spec(BinaryOp::Equals, again, key, pos, object_pos, field_pos) == done(
            ValueView::Bool(true),
        ),
    ensures
        assign_fault(mem, ValueView::Dict(d), key, object_pos, field_pos) is None,
        access_spec(
            assign_spec(mem, ValueView::Dict(d), key, value),
            holder,
            again,
            object_pos,
            field_pos,
        ) == Ok::<ValueView, PanicView>(value),
{
}

/// Storing under one key leaves what a dictionary holds under every other
/// key as it was.
pub proof fn law_dict_insert_keeps_others(
    mem: MemView,
    d: DictRef,
    key: ValueView,
    other: ValueView,
    value: ValueView,
    object_pos: SourcePos,
    field_pos: SourcePos,
)
    requires
        d.index < mem.dicts.len(),
        other != key,
    ensures
        access_spec(
            assign_spec(mem, ValueView::Dict(d), key, value),
            ValueView::Dict(d),
            other,
            object_pos,
            field_pos,
        ) == access_spec(mem, ValueView::Dict(d), other, object_pos, field_pos),
{
}

/// What an element of an array is set to is what the element is then,
/// through every value that equals the array.
pub proof fn law_array_set_then_get(
    mem: MemView,
    a: ArrayRef,
    holder: ValueView,
    ix: i64,
    value: ValueView,
    pos: SourcePos,
    object_pos: SourcePos,
    field_pos: SourcePos,
)
    requires
        a.index < mem.arrays.len(),
        mem.array_has(a, ix),
        binary_spec(BinaryOp::Equals, holder, ValueView::Array(a), pos, object_pos, field_pos)
            == done(ValueView::Bool(true)),
    ensures
        assign_fault(mem, ValueView::Array(a), ValueView::Int(ix), object_pos, field_pos) is None,
        access_spec(
            assign_spec(mem, ValueView::Array(a), ValueView::Int(ix), value),
            holder,
            ValueView::Int(ix),
            object_pos,
            field_pos,
        ) == Ok::<ValueView, PanicView>(value),
{
}

/// Setting one element of an array leaves the others as they were.
pub proof fn law_array_set_keeps_others(
    mem: MemView,
    a: ArrayRef,
    ix: i64,
    other: i64,
    value: ValueView,
    object_pos: SourcePos,
    field_pos: SourcePos,
)
    requires
        a.index < mem.arrays.len(),
        mem.array_has(a, ix),
        other != ix,
    ensures
        access_spec(
            assign_spec(mem, ValueView::Array(a), ValueView::Int(ix), value),
            ValueView::Array(a),
            ValueView::Int(other),
            object_pos,
            field_pos,
        ) == access_spec(mem, ValueView::Array(a), ValueView::Int(other), object_pos, field_pos),
{
}

/// A sum, difference or product that is no 64-bit integer is an overflow,
/// and so is the least integer divided by minus one.
pub proof fn law_integer_overflow(a: i64, b: i64, pos: SourcePos)
    ensures
        int_arith_spec(BinaryOp::Div, i64::MIN, -1i64, pos) == Err::<ValueView, PanicView>(
            PanicView::IntegerOverflow { pos },
        ),
        int_arith_spec(BinaryOp::Mod, i64::MIN, -1i64, pos) == Err::<ValueView, PanicView>(
            PanicView::IntegerOverflow { pos },
        ),
        !fits(a + b) ==> int_arith_spec(BinaryOp::Plus, a, b, pos) == Err::<ValueView, PanicView>(
            PanicView::IntegerOverflow { pos },
        ),
        !fits(a - b) ==> int_arith_spec(BinaryOp::Minus, a, b, pos) == Err::<ValueView, PanicView>(
            PanicView::IntegerOverflow { pos },
        ),
        !fits(a * b) ==> int_arith_spec(BinaryOp::Times, a, b, pos) == Err::<ValueView, PanicView>(
            PanicView::IntegerOverflow { pos },
        ),
{
}

/// Dividing an integer by zero, and taking its remainder by zero, is a
/// division by zero, and nothing else is.
pub proof fn law_division_by_zero(a: i64, b: i64, pos: SourcePos)
    ensures
        int_arith_spec(BinaryOp::Div, a, b, pos) == Err::<ValueView, PanicView>(
            PanicView::DivisionByZero { pos },
        ) <==> b == 0,
        int_arith_spec(BinaryOp::Mod, a, b, pos) == Err::<ValueView, PanicView>(
            PanicView::DivisionByZero { pos },
        ) <==> b == 0,
        int_arith_spec(BinaryOp::Div, a, 0, pos) == Err::<ValueView, PanicView>(
            PanicView::DivisionByZero { pos },
        ),
        int_arith_spec(BinaryOp::Mod, a, 0, pos) == Err::<ValueView, PanicView>(
            PanicView::DivisionByZero { pos },
        ),
{
}

/// An array has no element at its length or beyond, nor at a negative
/// index: reading one and assigning to one are index faults that name the
/// index, at the position of the index.
pub proof fn law_array_bounds(
    mem: MemView,
    a: ArrayRef,
    ix: i64,
    object_pos: SourcePos,
    field_pos: SourcePos,
)
    requires
        ix < 0 || ix >= mem.arrays[a.index as int].len(),
    ensures
        assign_fault(mem, ValueView::Array(a), ValueView::Int(ix), object_pos, field_pos) == Some(
            PanicView::IndexOutOfBounds { value: ValueView::Int(ix), pos: field_pos },
        ),
        access_spec(mem, ValueView::Array(a), ValueView::Int(ix), object_pos, field_pos) == Err::<
            ValueView,
            PanicView,
        >(PanicView::IndexOutOfBounds { value: ValueView::Int(ix), pos: field_pos }),
{
}

/// Looking up a key that a dictionary does not hold is an index fault that
/// names the key.
pub proof fn law_absent_key(
    mem: MemView,
    d: DictRef,
    key: ValueView,
    object_pos: SourcePos,
    field_pos: SourcePos,
)
    requires
        !mem.dicts[d.index as int].contains_key(key),
    ensures
        access_spec(mem, ValueView::Dict(d), key, object_pos, field_pos) == Err::<
            ValueView,
            PanicView,
        >(PanicView::IndexOutOfBounds { value: key, pos: field_pos }),
{
}

/// Calling what is no function is an invalid call.
pub proof fn law_invalid_call(value: ValueView, pos: SourcePos)
    requires
        !(value is Function),
    ensures
        callee_spec(value, pos) == Err::<FunRef, PanicView>(PanicView::InvalidCall { value, pos }),
{
}

/// Calling a function of the program with another number of arguments than
/// it has parameters is a fault.
pub proof fn law_missing_parameters(mem: MemView, f: FunRef, count: nat, pos: SourcePos)
    requires
        mem.functions[f.index as int] matches FunctionView::User(u) && u.params != count,
    ensures
        call_fault(mem, f, count, pos) == Some(PanicView::MissingParameters { pos }),
{
}

/// A condition that is no boolean is an invalid condition.
pub proof fn law_invalid_condition(value: ValueView, pos: SourcePos)
    requires
        !(value is Bool),
    ensures
        condition_spec(value, pos) == Err::<bool, PanicView>(
            PanicView::InvalidCondition { value, pos },
        ),
{
}

/// What is stored in a slot is what the slot holds then.
pub proof fn law_store_then_fetch(mem: MemView, ix: SlotIx, value: ValueView)
    requires
        mem.wf(),
        mem.has(ix),
    ensures
        mem.store(ix, value).fetch(ix) == value,
{
    assert(mem.valid_slot(mem.slots[mem.at(ix)]));
}

/// A frame that is pushed and popped leaves the stack as it was, and while
/// it is there its slots hold nil.
pub proof fn law_extend_then_shrink(mem: MemView, n: nat, ix: SlotIx)
    ensures
        mem.extend(n).shrink(n).slots =~= mem.slots,
        mem.extend(n).depth() == mem.depth() + n,
        ix.index < n ==> mem.extend(n).fetch(ix) == ValueView::Nil,
{
}

/// Capturing a slot leaves what it holds, and the cell that this gives is
/// the slot from then on: a slot that the cell is placed in holds what the
/// captured slot holds, and what is stored in either is held by both.
pub proof fn law_captured_cell_is_shared(
    mem: MemView,
    ix: SlotIx,
    other: SlotIx,
    value: ValueView,
)
    requires
        mem.wf(),
        mem.cells.len() <= usize::MAX,
        mem.has(ix),
        mem.has(other),
    ensures
        mem.capture(ix).fetch(ix) == mem.fetch(ix),
        mem.capture(ix).captured(ix) == mem.captured(ix),
        ({
            let shared = mem.capture(ix).place(other, mem.captured(ix));
            &&& shared.fetch(other) == mem.fetch(ix)
            &&& shared.fetch(ix) == mem.fetch(ix)
            &&& shared.store(other, value).fetch(ix) == value
            &&& shared.store(ix, value).fetch(other) == value
        }),
{
    assert(mem.valid_slot(mem.slots[mem.at(ix)]));
}

/// A captured cell outlives its frame: when the frame is popped and another
/// one pushed, a slot that the cell is placed in holds what the captured
/// slot held.
pub proof fn law_captured_cell_outlives_frame(
    mem: MemView,
    ix: SlotIx,
    frame: nat,
    next: nat,
    other: SlotIx,
)
    requires
        mem.wf(),
        mem.cells.len() <= usize::MAX,
        mem.has(ix),
        frame <= mem.depth(),
        other.index < next,
    ensures
        mem.capture(ix).shrink(frame).extend(next).place(other, mem.captured(ix)).fetch(other)
            == mem.fetch(ix),
{
    assert(mem.valid_slot(mem.slots[mem.at(ix)]));
}

/// The arguments of a call land in the first slots of the callee's frame,
/// in order.
pub proof fn law_arguments_land(
    mem: MemView,
    slots: nat,
    args: Seq<ValueView>,
    n: nat,
    ix: SlotIx,
)
    requires
        n <= args.len(),
        n <= slots,
        n <= u32::MAX,
    ensures
        mem.extend(slots).store_all(args, n).slots.len() == mem.slots.len() + slots,
        mem.extend(slots).store_all(args, n).cells == mem.cells,
        forall|i: int|
            mem.slots.len() <= i < mem.slots.len() + slots ==> mem.extend(slots).store_all(
                args,
                n,
            ).slots[i] is Direct,
        ix.index < n ==> mem.extend(slots).store_all(args, n).fetch(ix) == args[ix.index as int],
        n <= ix.index < slots ==> mem.extend(slots).store_all(args, n).fetch(ix)
            == ValueView::Nil,
    decreases n,
{
    if n > 0 {
        let last = SlotIx { index: (n - 1) as u32 };
        law_arguments_land(mem, slots, args, (n - 1) as nat, ix);
        law_arguments_land(mem, slots, args, (n - 1) as nat, last);
        let before = mem.extend(slots).store_all(args, (n - 1) as nat);
        assert(before.slots[before.at(last)] is Direct);
    }
}

/// Storing a value of the memory in a slot, pushing a frame that fits,
/// popping slots, capturing a slot and placing a cell of the memory in a
/// slot keep the memory well formed.
pub proof fn law_stack_stays_well_formed(
    mem: MemView,
    ix: SlotIx,
    value: ValueView,
    n: nat,
    cell: CellRef,
)
    requires
        mem.wf(),
    ensures
        mem.has(ix) && mem.valid(value) ==> mem.store(ix, value).wf(),
        mem.depth() + n <= mem.limit ==> mem.extend(n).wf(),
        n <= mem.depth() ==> mem.shrink(n).wf(),
        mem.has(ix) && mem.cells.len() < usize::MAX ==> mem.capture(ix).wf(),
        mem.has(ix) && cell.index < mem.cells.len() ==> mem.place(ix, cell).wf(),
{
    if mem.has(ix) {
        assert(mem.valid_slot(mem.slots[mem.at(ix)]));
        if mem.valid(value) {
            let after = mem.store(ix, value);
            assert forall|i: int| 0 <= i < after.slots.len() implies after.valid_slot(
                #[trigger] after.slots[i],
            ) by {
                assert(mem.valid_slot(mem.slots[i]));
            }
            assert forall|i: int| 0 <= i < after.cells.len() implies after.valid(
                #[trigger] after.cells[i],
            ) by {
                if i < mem.cells.len() {
                    assert(mem.valid(mem.cells[i]));
                }
            }
            lemma_kept(mem, after);
        }
        if mem.cells.len() < usize::MAX {
            let after = mem.capture(ix);
            assert forall|i: int| 0 <= i < after.slots.len() implies after.valid_slot(
                #[trigger] after.slots[i],
            ) by {
                assert(mem.valid_slot(mem.slots[i]));
            }
            assert forall|i: int| 0 <= i < after.cells.len() implies after.valid(
                #[trigger] after.cells[i],
            ) by {
                if i < mem.cells.len() {
                    assert(mem.valid(mem.cells[i]));
                }
            }
            lemma_kept(mem, after);
        }
        if cell.index < mem.cells.len() {
            let after = mem.place(ix, cell);
            assert forall|i: int| 0 <= i < after.slots.len() implies after.valid_slot(
                #[trigger] after.slots[i],
            ) by {
                assert(mem.valid_slot(mem.slots[i]));
            }
            lemma_kept(mem, after);
        }
    }
    if mem.depth() + n <= mem.limit {
        let after = mem.extend(n);
        assert forall|i: int| 0 <= i < after.slots.len() implies after.valid_slot(
            #[trigger] after.slots[i],
        ) by {
            if i < mem.slots.len() {
                assert(mem.valid_slot(mem.slots[i]));
            }
        }
        lemma_kept(mem, after);
    }
    if n <= mem.depth() {
        let after = mem.shrink(n);
        assert forall|i: int| 0 <= i < after.slots.len() implies after.valid_slot(
            #[trigger] after.slots[i],
        ) by {
            assert(mem.valid_slot(mem.slots[i]));
        }
        lemma_kept(mem, after);
    }
}

/// A memory whose slots and cells are in order, and which holds the
/// containers and function objects of a well formed one with as many cells
/// or more, is well formed.
proof fn lemma_kept(mem: MemView, after: MemView)
    requires
        mem.wf(),
        after.slots.len() <= after.limit,
        after.arrays == mem.arrays,
        after.dicts == mem.dicts,
        after.functions == mem.functions,
        mem.cells.len() <= after.cells.len(),
        forall|i: int| 0 <= i < after.slots.len() ==> after.valid_slot(#[trigger] after.slots[i]),
        forall|i: int| 0 <= i < after.cells.len() ==> after.valid(#[trigger] after.cells[i]),
    ensures
        after.wf(),
{
    assert forall|a: int, i: int|
        0 <= a < after.arrays.len() && 0 <= i < after.arrays[a].len() implies after.valid(
        #[trigger] after.arrays[a][i],
    ) by {
        assert(mem.valid(mem.arrays[a][i]));
    }
    assert forall|d: int, k: ValueView|
        0 <= d < after.dicts.len() && #[trigger] after.dicts[d].contains_key(k) implies after.valid(
        k,
    ) && after.valid(after.dicts[d][k]) by {
        assert(mem.dicts[d].contains_key(k));
    }
    assert forall|f: int| 0 <= f < after.functions.len() implies after.valid_function(
        #[trigger] after.functions[f],
    ) by {
        assert(mem.valid_function(mem.functions[f]));
    }
}

/// An access that finds its element gives it with the accessed object as
/// the receiver, in the state that the field left.
pub proof fn law_access_gives_receiver(
    env: Env,
    st: State,
    object: &Expr,
    field: &Expr,
    pos: SourcePos,
)
    requires
        regular(sem_expr(env, st, object).1) is Some,
        regular(sem_expr(env, sem_expr(env, st, object).0.within(st), field).1) is Some,
        access_spec(
            sem_expr(env, sem_expr(env, st, object).0.within(st), field).0.mem,
            regular(sem_expr(env, st, object).1)->Some_0.0,
            regular(sem_expr(env, sem_expr(env, st, object).0.within(st), field).1)->Some_0.0,
            regular(sem_expr(env, st, object).1)->Some_0.1,
            regular(sem_expr(env, sem_expr(env, st, object).0.within(st), field).1)->Some_0.1,
        ) is Ok,
    ensures
        ({
            let (st1, r1) = sem_expr(env, st, object);
            let (st2, r2) = sem_expr(env, st1.within(st), field);
            let (obj, obj_pos, _) = regular(r1)->Some_0;
            let (key, key_pos, _) = regular(r2)->Some_0;
            sem_access(env, st, object, field, pos) == (
                st2,
                Ok::<EvaluatedView, HaltView>(
                    (
                        FlowView::Regular(access_spec(st2.mem, obj, key, obj_pos, key_pos)->Ok_0),
                        pos,
                        Some(obj),
                    ),
                ),
            )
        }),
{
}

/// Only an access gives a receiver, and only where it finds its element:
/// an expression of any other kind gives none, and so does an access that
/// jumps.
pub proof fn law_only_access_gives_receiver(env: Env, st: State, expr: &Expr)
    ensures
        sem_expr(env, st, expr).1 matches Ok((flow, _, receiver)) ==> (receiver is Some ==> expr
            is Access && flow is Regular),
        sem_expr(env, st, expr).1 matches Ok((flow, _, receiver)) ==> (expr is Access && flow
            is Regular ==> receiver is Some),
        sem_expr(env, st, expr).1 matches Ok((_, pos, _)) ==> pos == env.at(expr.pos()),
{
}

/// Placing cells changes no cell and no slot but those that get one of
/// the cells.
proof fn lemma_placed(mem: MemView, context: Seq<(CellRef, SlotIx)>, n: nat)
    requires
        n <= context.len(),
        forall|i: int| 0 <= i < context.len() ==> mem.has((#[trigger] context[i]).1),
    ensures
        mem.place_all(context, n).slots.len() == mem.slots.len(),
        mem.place_all(context, n).cells == mem.cells,
        forall|j: int|
            0 <= j < mem.slots.len() ==> (#[trigger] mem.place_all(context, n).slots[j])
                == mem.slots[j] || exists|i: int|
                0 <= i < n && mem.place_all(context, n).slots[j] == SlotView::Shared(
                    (#[trigger] context[i]).0,
                ),
    decreases n,
{
    if n > 0 {
        lemma_placed(mem, context, (n - 1) as nat);
        let before = mem.place_all(context, (n - 1) as nat);
        let after = mem.place_all(context, n);
        assert(mem.has(context[n - 1].1));
        assert forall|j: int| 0 <= j < mem.slots.len() implies (#[trigger] after.slots[j])
            == mem.slots[j] || exists|i: int|
            0 <= i < n && after.slots[j] == SlotView::Shared((#[trigger] context[i]).0) by {
            if j == before.at(context[n - 1].1) {
                assert(after.slots[j] == SlotView::Shared(context[n - 1].0));
            } else {
                assert(after.slots[j] == before.slots[j]);
                if before.slots[j] != mem.slots[j] {
                    let i = choose|i: int|
                        0 <= i < n - 1 && before.slots[j] == SlotView::Shared(
                            (#[trigger] context[i]).0,
                        );
                    assert(after.slots[j] == SlotView::Shared(context[i].0));
                }
            }
        }
    }
}

/// The receiver of a call is what the callee finds in the slot that it
/// names for it, whatever else its frame holds.
pub proof fn law_receiver_is_bound(
    mem: MemView,
    u: UserFnView,
    receiver: ValueView,
    args: Seq<ValueView>,
    slot: SlotIx,
)
    requires
        mem.valid_context(u.context),
        u.frame_info.self_slot == Some(slot),
        slot.index < u.frame_info.slots,
        args.len() <= u.frame_info.slots,
        forall|i: int|
            0 <= i < u.context.len() ==> (#[trigger] u.context[i]).1.index < u.frame_info.slots,
    ensures
        enter(mem, u, Some(receiver), args).fetch(slot) == receiver,
{
    let slots = u.frame_info.slots as nat;
    let filled = mem.extend(slots).store_all(args, args.len());
    law_arguments_land(mem, slots, args, args.len(), slot);
    lemma_placed(filled, u.context, u.context.len());
    let framed = filled.place_all(u.context, u.context.len());
    let j = framed.at(slot);
    assert(filled.slots[j] is Direct);
    if framed.slots[j] != filled.slots[j] {
        let i = choose|i: int|
            0 <= i < u.context.len() && framed.slots[j] == SlotView::Shared(
                (#[trigger] u.context[i]).0,
            );
        assert(u.context[i].0.index < mem.cells.len());
    }
}

/// Whatever hosts answered within what they owe, there is a model that
/// agrees with it and owes the same.
pub proof fn law_some_lawful_model_agrees(history: Seq<Event>)
    requires
        lawful_history(history),
    ensures
        exists|m: HostModel| m.lawful() && #[trigger] m.agrees(history),
{
    lemma_model_of(history);
    assert(HostModel::of(history).agrees(history));
}

/// Whatever a host answered, there is a model that agrees with it.
pub proof fn law_some_model_agrees(history: Seq<Event>)
    ensures
        exists|m: HostModel| m.agrees(history),
{
    lemma_model_of(history);
    assert(HostModel::of(history).agrees(history));
}

/// `false and e` is false and `true or e` is true, whatever `e` is: `e` is
/// not evaluated, so that the state is the one that the left operand left.
pub proof fn law_short_circuit(
    env: Env,
    st: State,
    left: &Expr,
    op: BinaryOp,
    right: &Expr,
    other: &Expr,
    pos: SourcePos,
)
    requires
        regular(sem_expr(env, st, left).1) matches Some((v, _, _)) && ((op is And && v
            == ValueView::Bool(false)) || (op is Or && v == ValueView::Bool(true))),
    ensures
        sem_binary(env, st, left, op, right, pos) == (
            sem_expr(env, st, left).0,
            Ok::<EvaluatedView, HaltView>(
                (FlowView::Regular(ValueView::Bool(op is Or)), pos, None),
            ),
        ),
        sem_binary(env, st, left, op, right, pos) == sem_binary(env, st, left, op, other, pos),
{
}

/// An `if` and a `while` whose condition is no boolean fault with the
/// condition's value, at the condition's position, before any block is
/// executed.
pub proof fn law_condition_has_to_be_boolean(
    env: Env,
    st: State,
    test: &Expr,
    then: &Block,
    otherwise: &Block,
    pos: SourcePos,
)
    requires
        regular(sem_expr(env, st, test).1) matches Some((v, _, _)) && !(v is Bool),
    ensures
        regular(sem_expr(env, st, test).1) matches Some((value, at, _)) && sem_if(
            env,
            st,
            test,
            then,
            otherwise,
            pos,
        ) == (
            sem_expr(env, st, test).0,
            fault::<EvaluatedView>(PanicView::InvalidCondition { value, pos: at }),
        ) && sem_while(env, st, test, then) == (
            sem_expr(env, st, test).0,
            fault::<FlowView>(PanicView::InvalidCondition { value, pos: at }),
        ),
{
}

/// A call whose callee is no function faults with the callee's value, at
/// the callee's position, before any argument is evaluated.
pub proof fn law_callee_has_to_be_function(
    env: Env,
    st: State,
    function: &Expr,
    args: Seq<Expr>,
    pos: SourcePos,
)
    requires
        regular(sem_expr(env, st, function).1) matches Some((v, _, _)) && !(v is Function),
    ensures
        regular(sem_expr(env, st, function).1) matches Some((value, at, _)) && sem_call_expr(
            env,
            st,
            function,
            args,
            pos,
        ) == (
            sem_expr(env, st, function).0,
            fault::<EvaluatedView>(PanicView::InvalidCall { value, pos: at }),
        ),
{
}

/// A call that faults before the callee runs (see `call_fault`) takes its
/// step and leaves the memory as it was.
pub proof fn law_call_fault(
    env: Env,
    st: State,
    receiver: Option<ValueView>,
    function: FunRef,
    args: Seq<ValueView>,
    pos: SourcePos,
)
    requires
        st.budget > 0,
        call_fault(st.mem, function, args.len(), pos) is Some,
    ensures
        sem_call(env, st, receiver, function, args, pos) == (
            st.spend(),
            fault::<ValueView>(call_fault(st.mem, function, args.len(), pos)->Some_0),
        ),
{
}

/// Without steps nothing is evaluated: the state stays as it is.
pub proof fn law_out_of_steps(
    env: Env,
    st: State,
    expr: &Expr,
    block: &Block,
    function: FunRef,
    args: Seq<ValueView>,
    pos: SourcePos,
)
    requires
        st.budget == 0,
    ensures
        sem_expr(env, st, expr) == (st, Err::<EvaluatedView, HaltView>(HaltView::OutOfSteps)),
        sem_block(env, st, block) == (st, Err::<FlowView, HaltView>(HaltView::OutOfSteps)),
        sem_call(env, st, None, function, args, pos) == (
            st,
            Err::<ValueView, HaltView>(HaltView::OutOfSteps),
        ),
{
}

} // verus!
