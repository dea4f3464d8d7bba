//! What it means to run a program: the evaluator's steps as functions on
//! views. The runtime's contracts say that it computes these.
//!
//! A state is the memory, the steps that are left and the number of times
//! that the host has been asked so far. What the host answers is not for the
//! runtime to say: the functions take a model of the host, which gives an
//! answer for each question, and the runtime keeps a history of the questions
//! it asked and the answers it got. Its contracts hold for every model that
//! agrees with that history, and they say that there is one whose answers
//! are all such as a host may give: each leaves a well formed memory with a
//! stack as deep as before, and gives a value of that memory.
//!
//! Each function gives the state after the step and the step's outcome. They
//! are defined by recursion on the steps that are left. Where a step follows
//! an earlier one, the definition bounds the steps that the earlier one left
//! by those it had (`State::within`, and `budget <` in the loops): every
//! step of the runtime takes from the budget and none adds to it, so the
//! bounds are there for the recursion to be well founded and change nothing
//! of what the runtime computes.

use vstd::prelude::*;
use crate::access::{access_spec, assign_fault, assign_spec, iteration_spec};
use crate::flow::FlowView;
use crate::mem::{FunctionView, MemView, UserFnView};
use crate::ops::{
    binary_spec,
    callee_spec,
    condition_spec,
    logical_left_spec,
    logical_right_spec,
    unary_spec,
    BinaryView,
    Number,
};
use crate::panic::PanicView;
use crate::program::{
    BinaryOp,
    Block,
    Capture,
    Expr,
    FrameInfo,
    Literal,
    Lvalue,
    Program,
    SlotIx,
    Statement,
    UnaryOp,
};
use crate::source::{Pos, SourcePos};
use crate::symbol::Symbol;
use crate::value::{ArrayRef, CellRef, DictRef, Float, FunRef, ValueView};

verus! {

/// Why an evaluation ended without a value.
pub enum HaltView {
    /// The program faulted.
    Panic(PanicView),
    /// The budget of steps was used up.
    OutOfSteps,
}

/// One question to the host, with its answer.
pub enum Event {
    /// The standard library was built in the memory `before`.
    Library { before: MemView, after: MemView, value: ValueView },
    /// The host function `id` was called on the `args` newest slots of the
    /// memory `before`.
    Call {
        id: u32,
        args: u32,
        before: MemView,
        after: MemView,
        result: Result<ValueView, PanicView>,
    },
    /// An arithmetic operator was applied to an integer and a float.
    Arith { op: BinaryOp, left: Number, right: Number, result: Float },
}

impl Event {
    /// Whether the answer is one that a host may give to the question: it
    /// meets what `Host::library` and `Host::call` promise of every answer.
    pub open spec fn lawful(self) -> bool {
        match self {
            Event::Library { before, after, value } => after.continues(before) && after.valid(
                value,
            ),
            Event::Call { before, after, result, .. } => after.continues(before) && (
            result matches Ok(v) ==> after.valid(v)),
            Event::Arith { .. } => true,
        }
    }
}

/// Whether every answer of `history` is one that a host may give.
pub open spec fn lawful_history(history: Seq<Event>) -> bool {
    forall|i: int| 0 <= i < history.len() ==> (#[trigger] history[i]).lawful()
}

/// A model of the host: its answer to each question, given how many
/// questions came before.
pub struct HostModel {
    /// The memory after the standard library is built in a memory, and the
    /// library's value.
    pub library: spec_fn(nat, MemView) -> (MemView, ValueView),
    /// The memory after a host function, given by its number and the number
    /// of its arguments, is called in a memory, and what the call gives.
    pub call: spec_fn(nat, u32, u32, MemView) -> (MemView, Result<ValueView, PanicView>),
    /// What an arithmetic operator gives on an integer and a float.
    pub arith: spec_fn(nat, BinaryOp, Number, Number) -> Float,
}

impl HostModel {
    /// Whether the model answers the `i`-th question as the host did.
    pub open spec fn explains(self, i: nat, event: Event) -> bool {
        match event {
            Event::Library { before, after, value } => (self.library)(i, before) == (after, value),
            Event::Call { id, args, before, after, result } => (self.call)(i, id, args, before) == (
                after,
                result,
            ),
            Event::Arith { op, left, right, result } => (self.arith)(i, op, left, right) == result,
        }
    }

    /// Whether the model answers every question of `history` as the host
    /// did.
    pub open spec fn agrees(self, history: Seq<Event>) -> bool {
        forall|i: int| 0 <= i < history.len() ==> self.explains(i as nat, #[trigger] history[i])
    }

    /// Whether every answer of the model is one that a host may give: asked
    /// in a well formed memory, it meets what `Host::library` and
    /// `Host::call` promise of every answer. The memory that it leaves is
    /// well formed, with a stack as deep as before, with nothing gone and
    /// every function of the program still to be called, and the value that
    /// it gives is a value of that memory.
    pub open spec fn lawful(self) -> bool {
        &&& forall|i: nat, before: MemView|
            before.wf() ==> (#[trigger] (self.library)(i, before)).0.continues(before) && (
            self.library)(i, before).0.valid((self.library)(i, before).1)
        &&& forall|i: nat, id: u32, args: u32, before: MemView|
            before.wf() && args <= before.depth() ==> (#[trigger] (self.call)(
                i,
                id,
                args,
                before,
            )).0.continues(before) && ((self.call)(i, id, args, before).1 matches Ok(v) ==> (
            self.call)(i, id, args, before).0.valid(v))
    }

    /// The model that answers each question of `history` as the host did,
    /// and every other question with nil and the memory as it is.
    pub open spec fn of(history: Seq<Event>) -> HostModel {
        HostModel {
            library: |i: nat, before: MemView|
                match history[i as int] {
                    Event::Library { before: asked, after, value } => if i < history.len() && asked
                        == before {
                        (after, value)
                    } else {
                        (before, ValueView::Nil)
                    },
                    _ => (before, ValueView::Nil),
                },
            call: |i: nat, id: u32, args: u32, before: MemView|
                match history[i as int] {
                    Event::Call { id: function, args: count, before: asked, after, result } => if i
                        < history.len() && function == id && count == args && asked == before {
                        (after, result)
                    } else {
                        (before, Ok(ValueView::Nil))
                    },
                    _ => (before, Ok(ValueView::Nil)),
                },
            arith: |i: nat, op: BinaryOp, left: Number, right: Number|
                match history[i as int] {
                    Event::Arith { result, .. } => result,
                    _ => Float { bits: 0 },
                },
        }
    }
}

/// Whatever the host answered, there is a model that agrees with it; and
/// where every answer was one that a host may give, so is every answer of
/// that model.
pub broadcast proof fn lemma_model_of(history: Seq<Event>)
    ensures
        HostModel::of(history).agrees(history),
        #[trigger] lawful_history(history) ==> HostModel::of(history).lawful(),
{
    let m = HostModel::of(history);
    assert forall|i: int| 0 <= i < history.len() implies m.explains(
        i as nat,
        #[trigger] history[i],
    ) by {}
    if lawful_history(history) {
        assert forall|i: nat, before: MemView| before.wf() implies (#[trigger] (m.library)(
            i,
            before,
        )).0.continues(before) && (m.library)(i, before).0.valid((m.library)(i, before).1) by {
            if i < history.len() {
                assert(history[i as int].lawful());
            }
        }
        assert forall|i: nat, id: u32, args: u32, before: MemView|
            before.wf() && args <= before.depth() implies (#[trigger] (m.call)(
            i,
            id,
            args,
            before,
        )).0.continues(before) && ((m.call)(i, id, args, before).1 matches Ok(v) ==> (m.call)(
            i,
            id,
            args,
            before,
        ).0.valid(v)) by {
            if i < history.len() {
                assert(history[i as int].lawful());
            }
        }
    }
}

/// A model that agrees with a history agrees with each of its beginnings.
pub broadcast proof fn lemma_agrees_prefix(model: HostModel, early: Seq<Event>, late: Seq<Event>)
    requires
        #[trigger] model.agrees(late),
        #[trigger] early.is_prefix_of(late),
    ensures
        model.agrees(early),
{
    assert forall|i: int| 0 <= i < early.len() implies model.explains(
        i as nat,
        #[trigger] early[i],
    ) by {
        assert(early[i] == late[i]);
    }
}

/// What stays the same while a program runs.
pub struct Env {
    /// The host.
    pub host: HostModel,
    /// The interned strings, by symbol.
    pub names: Seq<Seq<u8>>,
    /// The file of the program.
    pub path: &'static str,
}

impl Env {
    /// The position `pos` in the program's file.
    pub open spec fn at(self, pos: Pos) -> SourcePos {
        SourcePos { line: pos.line, column: pos.column, path: self.path }
    }
}

/// The state of a running program.
pub struct State {
    /// The memory.
    pub mem: MemView,
    /// The steps that are left.
    pub budget: nat,
    /// The number of questions that the host has been asked.
    pub events: nat,
}

impl State {
    /// The state with one step less.
    pub open spec fn spend(self) -> State {
        State { budget: (self.budget - 1) as nat, ..self }
    }

    /// The state with the memory `mem`.
    pub open spec fn with(self, mem: MemView) -> State {
        State { mem, ..self }
    }

    /// The state with no more steps left than `bound` has.
    pub open spec fn within(self, bound: State) -> State {
        State {
            budget: if self.budget <= bound.budget {
                self.budget
            } else {
                bound.budget
            },
            ..self
        }
    }
}

/// A state and the outcome of the step that led to it.
pub type Sem<T> = (State, Result<T, HaltView>);

/// What evaluating an expression gives: the flow, the position of the
/// expression and the receiver.
pub type EvaluatedView = (FlowView, SourcePos, Option<ValueView>);

/// The value, position and receiver of an evaluation that went on
/// regularly.
pub open spec fn regular(r: Result<EvaluatedView, HaltView>) -> Option<
    (ValueView, SourcePos, Option<ValueView>),
> {
    match r {
        Ok((FlowView::Regular(v), pos, receiver)) => Some((v, pos, receiver)),
        _ => None,
    }
}

/// What an expression at `pos` gives when the evaluation `r` of one of its
/// parts did not go on regularly: the halt, or the jump.
pub open spec fn pass(r: Result<EvaluatedView, HaltView>, pos: SourcePos) -> Result<
    EvaluatedView,
    HaltView,
> {
    match r {
        Ok((flow, _, _)) => Ok((flow, pos, None)),
        Err(h) => Err(h),
    }
}

/// What a statement gives when the evaluation `r` of one of its parts did
/// not go on regularly: the halt, or the jump.
pub open spec fn pass_flow(r: Result<EvaluatedView, HaltView>) -> Result<FlowView, HaltView> {
    match r {
        Ok((flow, _, _)) => Ok(flow),
        Err(h) => Err(h),
    }
}

/// A fault as the outcome of a step.
pub open spec fn fault<T>(p: PanicView) -> Result<T, HaltView> {
    Err(HaltView::Panic(p))
}

impl MemView {
    /// The memory after the first `n` of `args` are stored in the slots
    /// `0..n` of the current frame.
    pub open spec fn store_all(self, args: Seq<ValueView>, n: nat) -> MemView
        decreases n,
    {
        if n == 0 {
            self
        } else {
            self.store_all(args, (n - 1) as nat).store(
                SlotIx { index: (n - 1) as u32 },
                args[n - 1],
            )
        }
    }

    /// The memory after the first `n` of `captures` are captured in the
    /// current frame, and the cells that this gives, each with the slot that
    /// it is for.
    pub open spec fn capture_all(self, captures: Seq<Capture>, n: nat) -> (MemView, Seq<
        (CellRef, SlotIx),
    >)
        decreases n,
    {
        if n == 0 {
            (self, Seq::empty())
        } else {
            let (mem, context) = self.capture_all(captures, (n - 1) as nat);
            let capture = captures[n - 1];
            (mem.capture(capture.from), context.push((mem.captured(capture.from), capture.to)))
        }
    }
}

/// The fault that a call of `function` with `count` arguments ends with
/// before any code of the callee runs, if there is one: a function of the
/// program that has another number of parameters has parameters missing,
/// and a frame that the stack has no room for overflows it.
pub open spec fn call_fault(mem: MemView, function: FunRef, count: nat, pos: SourcePos) -> Option<
    PanicView,
> {
    match mem.functions[function.index as int] {
        FunctionView::User(u) => if count != u.params {
            Some(PanicView::MissingParameters { pos })
        } else if mem.depth() + u.frame_info.slots > mem.limit {
            Some(PanicView::StackOverflow { pos })
        } else {
            None
        },
        FunctionView::Host(_) => if mem.depth() + count > mem.limit {
            Some(PanicView::StackOverflow { pos })
        } else {
            None
        },
    }
}

/// The frame of a call of the function `u` with the arguments `args` and
/// the receiver `receiver`, on top of `mem`: the arguments in the first
/// slots, then the captured cells in theirs, then the receiver, if there is
/// one and the function has a slot for it.
pub open spec fn enter(
    mem: MemView,
    u: UserFnView,
    receiver: Option<ValueView>,
    args: Seq<ValueView>,
) -> MemView {
    let framed = mem.extend(u.frame_info.slots as nat).store_all(args, args.len()).place_all(
        u.context,
        u.context.len(),
    );
    match (receiver, u.frame_info.self_slot) {
        (Some(v), Some(slot)) => framed.store(slot, v),
        _ => framed,
    }
}

/// Calling `function` with the arguments `args` and the receiver
/// `receiver`, at `pos`. A function of the program gets a frame (see
/// `enter`) in which its body is executed; what the body gives or returns is
/// the value of the call. A host function gets a frame of its arguments, and
/// the host answers. Either frame is removed afterwards.
pub open spec fn sem_call(
    env: Env,
    st: State,
    receiver: Option<ValueView>,
    function: FunRef,
    args: Seq<ValueView>,
    pos: SourcePos,
) -> Sem<ValueView>
    decreases st.budget, 0nat, 0nat,
{
    if st.budget == 0 {
        (st, Err(HaltView::OutOfSteps))
    } else {
        let st = st.spend();
        match call_fault(st.mem, function, args.len(), pos) {
            Some(p) => (st, fault(p)),
            None => match st.mem.functions[function.index as int] {
                FunctionView::User(u) => {
                    let (after, r) = sem_block(
                        env,
                        st.with(enter(st.mem, u, receiver, args)),
                        u.body,
                    );
                    let left = after.with(after.mem.shrink(u.frame_info.slots as nat));
                    match r {
                        Ok(FlowView::Regular(v)) => (left, Ok(v)),
                        Ok(FlowView::Return(v)) => (left, Ok(v)),
                        Ok(FlowView::Break) => (left, Ok(ValueView::Nil)),
                        Err(h) => (left, Err(h)),
                    }
                },
                FunctionView::Host(h) => {
                    let framed = st.mem.extend(args.len()).store_all(args, args.len());
                    let (after, r) = (env.host.call)(st.events, h.id, args.len() as u32, framed);
                    let left = State {
                        mem: after.shrink(args.len()),
                        events: st.events + 1,
                        ..st
                    };
                    match r {
                        Ok(v) => (left, Ok(v)),
                        Err(p) => (left, fault(p)),
                    }
                },
            },
        }
    }
}

/// Executing a block: its statements in order, up to the first that does
/// not go on regularly. The value is that of the last statement, or nil for
/// a block without statements.
pub open spec fn sem_block(env: Env, st: State, block: &Block) -> Sem<FlowView>
    decreases st.budget, 0nat, 0nat,
{
    if st.budget == 0 {
        (st, Err(HaltView::OutOfSteps))
    } else {
        sem_statements(env, st.spend(), block.0@, 0, ValueView::Nil)
    }
}

/// Executing the statements of a block from the `i`-th on, where the one
/// before gave `last`.
pub open spec fn sem_statements(
    env: Env,
    st: State,
    statements: Seq<Statement>,
    i: nat,
    last: ValueView,
) -> Sem<FlowView>
    decreases st.budget, 1nat, statements.len() - i,
{
    if i >= statements.len() {
        (st, Ok(FlowView::Regular(last)))
    } else {
        let (after, r) = sem_statement(env, st, &statements[i as int]);
        match r {
            Ok(FlowView::Regular(v)) => sem_statements(
                env,
                after.within(st),
                statements,
                i + 1,
                v,
            ),
            _ => (after, r),
        }
    }
}

/// Executing a statement.
pub open spec fn sem_statement(env: Env, st: State, statement: &Statement) -> Sem<FlowView>
    decreases st.budget, 0nat, 0nat,
{
    if st.budget == 0 {
        (st, Err(HaltView::OutOfSteps))
    } else {
        let st = st.spend();
        match statement {
            Statement::Assign { left, right } => sem_assign(env, st, left, right),
            Statement::Return { expr } => {
                let (after, r) = sem_expr(env, st, expr);
                match regular(r) {
                    Some((v, _, _)) => (after, Ok(FlowView::Return(v))),
                    None => (after, pass_flow(r)),
                }
            },
            Statement::Break => (st, Ok(FlowView::Break)),
            Statement::While { condition, block } => sem_while(env, st, condition, block),
            Statement::For { slot_ix, expr, block } => sem_for(env, st, *slot_ix, expr, block),
            Statement::Expr(expr) => {
                let (after, r) = sem_expr(env, st, expr);
                (after, pass_flow(r))
            },
        }
    }
}

/// Executing an assignment: the right side first, then the object and the
/// field of the target.
pub open spec fn sem_assign(env: Env, st: State, left: &Lvalue, right: &Expr) -> Sem<FlowView>
    decreases st.budget, 2nat, 0nat,
{
    let (st1, r1) = sem_expr(env, st, right);
    match regular(r1) {
        None => (st1, pass_flow(r1)),
        Some((value, _, _)) => match left {
            Lvalue::Identifier { slot_ix, .. } => (
                st1.with(st1.mem.store(*slot_ix, value)),
                Ok(FlowView::Regular(ValueView::Nil)),
            ),
            Lvalue::Access { object, field, .. } => {
                let (st2, r2) = sem_expr(env, st1.within(st), object);
                match regular(r2) {
                    None => (st2, pass_flow(r2)),
                    Some((obj, obj_pos, _)) => {
                        let (st3, r3) = sem_expr(env, st2.within(st), field);
                        match regular(r3) {
                            None => (st3, pass_flow(r3)),
                            Some((key, key_pos, _)) => match assign_fault(
                                st3.mem,
                                obj,
                                key,
                                obj_pos,
                                key_pos,
                            ) {
                                Some(p) => (st3, fault(p)),
                                None => (
                                    st3.with(assign_spec(st3.mem, obj, key, value)),
                                    Ok(FlowView::Regular(ValueView::Nil)),
                                ),
                            },
                        }
                    },
                }
            },
        },
    }
}

/// Executing a `while` loop. The loop gives nil.
pub open spec fn sem_while(env: Env, st: State, test: &Expr, block: &Block) -> Sem<FlowView>
    decreases st.budget, 1nat, 0nat,
{
    let (st1, r1) = sem_expr(env, st, test);
    match regular(r1) {
        None => (st1, pass_flow(r1)),
        Some((value, pos, _)) => match condition_spec(value, pos) {
            Err(p) => (st1, fault(p)),
            Ok(false) => (st1, Ok(FlowView::Regular(ValueView::Nil))),
            Ok(true) => {
                let (st2, r2) = sem_block(env, st1.within(st), block);
                match r2 {
                    Ok(FlowView::Regular(_)) => if st2.budget < st.budget {
                        sem_while(env, st2, test, block)
                    } else {
                        (st2, Err(HaltView::OutOfSteps))
                    },
                    Ok(FlowView::Return(v)) => (st2, Ok(FlowView::Return(v))),
                    Ok(FlowView::Break) => (st2, Ok(FlowView::Regular(ValueView::Nil))),
                    Err(h) => (st2, Err(h)),
                }
            },
        },
    }
}

/// Executing a `for` loop: the iterator is evaluated once and has to be a
/// function.
pub open spec fn sem_for(env: Env, st: State, slot: SlotIx, expr: &Expr, block: &Block) -> Sem<
    FlowView,
>
    decreases st.budget, 2nat, 0nat,
{
    let (st1, r1) = sem_expr(env, st, expr);
    match regular(r1) {
        None => (st1, pass_flow(r1)),
        Some((ValueView::Function(iter), pos, _)) => sem_iterate(
            env,
            st1.within(st),
            slot,
            iter,
            pos,
            block,
        ),
        Some((value, pos, _)) => (st1, fault(PanicView::InvalidOperand { value, pos })),
    }
}

/// Executing a `for` loop with the iterator `iter`: it is called without
/// arguments before each round, and its answer says whether there is a
/// round and what the loop's slot holds in it (see `iteration_spec`). The
/// loop gives nil.
pub open spec fn sem_iterate(
    env: Env,
    st: State,
    slot: SlotIx,
    iter: FunRef,
    pos: SourcePos,
    block: &Block,
) -> Sem<FlowView>
    decreases st.budget, 1nat, 0nat,
{
    let (st1, r1) = sem_call(env, st, None, iter, Seq::empty(), pos);
    match r1 {
        Err(h) => (st1, Err(h)),
        Ok(step) => match iteration_spec(st1.mem, step, pos) {
            Err(p) => (st1, fault(p)),
            Ok(None) => (st1, Ok(FlowView::Regular(ValueView::Nil))),
            Ok(Some(item)) => {
                let (st2, r2) = sem_block(
                    env,
                    st1.with(st1.mem.store(slot, item)).within(st),
                    block);
                match r2 {
                    Ok(FlowView::Regular(_)) => if st2.budget < st.budget {
                        sem_iterate(env, st2, slot, iter, pos, block)
                    } else {
                        (st2, Err(HaltView::OutOfSteps))
                    },
                    Ok(FlowView::Return(v)) => (st2, Ok(FlowView::Return(v))),
                    Ok(FlowView::Break) => (st2, Ok(FlowView::Regular(ValueView::Nil))),
                    Err(h) => (st2, Err(h)),
                }
            },
        },
    }
}

/// Evaluating a literal at `pos`.
pub open spec fn sem_literal(env: Env, st: State, literal: &Literal, pos: Pos) -> Sem<FlowView>
    decreases st.budget, 0nat, 0nat,
{
    if st.budget == 0 {
        (st, Err(HaltView::OutOfSteps))
    } else {
        let st = st.spend();
        match literal {
            Literal::Nil => (st, Ok(FlowView::Regular(ValueView::Nil))),
            Literal::Bool(b) => (st, Ok(FlowView::Regular(ValueView::Bool(*b)))),
            Literal::Int(i) => (st, Ok(FlowView::Regular(ValueView::Int(*i)))),
            Literal::Float(f) => (st, Ok(FlowView::Regular(ValueView::Float(*f)))),
            Literal::Byte(b) => (st, Ok(FlowView::Regular(ValueView::Byte(*b)))),
            Literal::String(s) => (st, Ok(FlowView::Regular(ValueView::String(s@)))),
            Literal::Array(exprs) => sem_array(env, st, exprs@, 0, Seq::empty()),
            Literal::Dict(exprs) => sem_dict(env, st, exprs@, 0, Map::empty()),
            Literal::Function { params, frame_info, body } => {
                let (mem, function) = close(st.mem, *params, frame_info, body, env.at(pos));
                (st.with(mem), Ok(FlowView::Regular(ValueView::Function(function))))
            },
            Literal::Identifier(symbol) => (
                st,
                Ok(FlowView::Regular(ValueView::String(env.names[symbol.index as int]))),
            ),
        }
    }
}

/// Evaluating an array literal from its `i`-th element on, where the
/// elements before gave `items`: the elements in order, up to the first
/// that does not go on regularly; then a new array holds their values.
pub open spec fn sem_array(
    env: Env,
    st: State,
    exprs: Seq<Expr>,
    i: nat,
    items: Seq<ValueView>,
) -> Sem<FlowView>
    decreases st.budget, 1nat, exprs.len() - i,
{
    if i >= exprs.len() {
        (
            st.with(st.mem.with_array(items)),
            Ok(
                FlowView::Regular(
                    ValueView::Array(ArrayRef { index: st.mem.arrays.len() as usize }),
                ),
            ),
        )
    } else {
        let (after, r) = sem_expr(env, st, &exprs[i as int]);
        match regular(r) {
            Some((v, _, _)) => sem_array(env, after.within(st), exprs, i + 1, items.push(v)),
            None => (after, pass_flow(r)),
        }
    }
}

/// Evaluating a dictionary literal from its `i`-th entry on, where the
/// entries before gave `entries`: the values in order, up to the first that
/// does not go on regularly, each stored under the name of its symbol, a
/// later one in place of an earlier one of the same name; then a new
/// dictionary holds them.
pub open spec fn sem_dict(
    env: Env,
    st: State,
    exprs: Seq<(Symbol, Expr)>,
    i: nat,
    entries: Map<ValueView, ValueView>,
) -> Sem<FlowView>
    decreases st.budget, 1nat, exprs.len() - i,
{
    if i >= exprs.len() {
        (
            st.with(st.mem.with_dict(entries)),
            Ok(FlowView::Regular(ValueView::Dict(DictRef { index: st.mem.dicts.len() as usize }))),
        )
    } else {
        let key = ValueView::String(env.names[exprs[i as int].0.index as int]);
        let (after, r) = sem_expr(env, st, &exprs[i as int].1);
        match regular(r) {
            Some((v, _, _)) => sem_dict(
                env,
                after.within(st),
                exprs,
                i + 1,
                entries.insert(key, v),
            ),
            None => (after, pass_flow(r)),
        }
    }
}

/// Making the function object of a function literal at `pos`: the slots
/// that it closes over are captured in order, and a new function object
/// holds their cells.
pub open spec fn close(
    mem: MemView,
    params: u32,
    frame_info: &'static FrameInfo,
    body: &'static Block,
    pos: SourcePos,
) -> (MemView, FunRef) {
    let (captured, context) = mem.capture_all(frame_info.captures@, frame_info.captures@.len());
    (
        captured.with_function(
            FunctionView::User(UserFnView { params, frame_info, body, context, pos }),
        ),
        FunRef { index: mem.functions.len() as usize },
    )
}

/// Evaluating an expression. A command block, which no well scoped program
/// holds, stands for nil.
pub open spec fn sem_expr(env: Env, st: State, expr: &Expr) -> Sem<EvaluatedView>
    decreases st.budget, 0nat, 0nat,
{
    if st.budget == 0 {
        (st, Err(HaltView::OutOfSteps))
    } else {
        let st = st.spend();
        match expr {
            Expr::Identifier { slot_ix, pos } => (
                st,
                Ok((FlowView::Regular(st.mem.fetch(*slot_ix)), env.at(*pos), None)),
            ),
            Expr::Literal { literal, pos } => {
                let (after, r) = sem_literal(env, st, literal, *pos);
                match r {
                    Ok(flow) => (after, Ok((flow, env.at(*pos), None))),
                    Err(h) => (after, Err(h)),
                }
            },
            Expr::UnaryOp { op, operand, pos } => sem_unary(env, st, *op, operand, env.at(*pos)),
            Expr::BinaryOp { left, op, right, pos } => sem_binary(
                env,
                st,
                left,
                *op,
                right,
                env.at(*pos),
            ),
            Expr::If { condition, then, otherwise, pos } => sem_if(
                env,
                st,
                condition,
                then,
                otherwise,
                env.at(*pos),
            ),
            Expr::Access { object, field, pos } => sem_access(
                env,
                st,
                object,
                field,
                env.at(*pos),
            ),
            Expr::Call { function, args, pos } => sem_call_expr(
                env,
                st,
                function,
                args@,
                env.at(*pos),
            ),
            Expr::CommandBlock { pos } => (
                st,
                Ok((FlowView::Regular(ValueView::Nil), env.at(*pos), None)),
            ),
        }
    }
}

/// Evaluating a unary operator at `pos`.
pub open spec fn sem_unary(env: Env, st: State, op: UnaryOp, operand: &Expr, pos: SourcePos) -> Sem<
    EvaluatedView,
>
    decreases st.budget, 2nat, 0nat,
{
    let (st1, r1) = sem_expr(env, st, operand);
    match regular(r1) {
        None => (st1, pass(r1, pos)),
        Some((value, operand_pos, _)) => match unary_spec(op, value, pos, operand_pos) {
            Ok(v) => (st1, Ok((FlowView::Regular(v), pos, None))),
            Err(p) => (st1, fault(p)),
        },
    }
}

/// Evaluating a binary operator at `pos`: the left operand first; the right
/// one unless the operator is `and` or `or` and the left operand decides.
pub open spec fn sem_binary(
    env: Env,
    st: State,
    left: &Expr,
    op: BinaryOp,
    right: &Expr,
    pos: SourcePos,
) -> Sem<EvaluatedView>
    decreases st.budget, 2nat, 0nat,
{
    let (st1, r1) = sem_expr(env, st, left);
    match regular(r1) {
        None => (st1, pass(r1, pos)),
        Some((a, left_pos, _)) => if op.is_logical() {
            match logical_left_spec(op, a, left_pos) {
                Err(p) => (st1, fault(p)),
                Ok(Some(v)) => (st1, Ok((FlowView::Regular(v), pos, None))),
                Ok(None) => {
                    let (st2, r2) = sem_expr(env, st1.within(st), right);
                    match regular(r2) {
                        None => (st2, pass(r2, pos)),
                        Some((b, right_pos, _)) => match logical_right_spec(b, right_pos) {
                            Ok(v) => (st2, Ok((FlowView::Regular(v), pos, None))),
                            Err(p) => (st2, fault(p)),
                        },
                    }
                },
            }
        } else {
            let (st2, r2) = sem_expr(env, st1.within(st), right);
            match regular(r2) {
                None => (st2, pass(r2, pos)),
                Some((b, right_pos, _)) => match binary_spec(op, a, b, pos, left_pos, right_pos) {
                    Err(p) => (st2, fault(p)),
                    Ok(BinaryView::Done(v)) => (st2, Ok((FlowView::Regular(v), pos, None))),
                    Ok(BinaryView::Mixed { op, left, right }) => (
                        State { events: st2.events + 1, ..st2 },
                        Ok(
                            (
                                FlowView::Regular(
                                    ValueView::Float((env.host.arith)(st2.events, op, left, right)),
                                ),
                                pos,
                                None,
                            ),
                        ),
                    ),
                },
            }
        },
    }
}

/// Evaluating an `if` at `pos`: the condition, then one of the blocks.
pub open spec fn sem_if(
    env: Env,
    st: State,
    test: &Expr,
    then: &Block,
    otherwise: &Block,
    pos: SourcePos,
) -> Sem<EvaluatedView>
    decreases st.budget, 2nat, 0nat,
{
    let (st1, r1) = sem_expr(env, st, test);
    match regular(r1) {
        None => (st1, pass(r1, pos)),
        Some((value, test_pos, _)) => match condition_spec(value, test_pos) {
            Err(p) => (st1, fault(p)),
            Ok(go) => {
                let (st2, r2) = sem_block(
                    env,
                    st1.within(st),
                    if go {
                        then
                    } else {
                        otherwise
                    });
                match r2 {
                    Ok(flow) => (st2, Ok((flow, pos, None))),
                    Err(h) => (st2, Err(h)),
                }
            },
        },
    }
}

/// Evaluating an access at `pos`: the object, then the field. The object is
/// the receiver of what the access gives.
pub open spec fn sem_access(
    env: Env,
    st: State,
    object: &Expr,
    field: &Expr,
    pos: SourcePos,
) -> Sem<EvaluatedView>
    decreases st.budget, 2nat, 0nat,
{
    let (st1, r1) = sem_expr(env, st, object);
    match regular(r1) {
        None => (st1, pass(r1, pos)),
        Some((obj, obj_pos, _)) => {
            let (st2, r2) = sem_expr(env, st1.within(st), field);
            match regular(r2) {
                None => (st2, pass(r2, pos)),
                Some((key, key_pos, _)) => match access_spec(st2.mem, obj, key, obj_pos, key_pos) {
                    Ok(v) => (st2, Ok((FlowView::Regular(v), pos, Some(obj)))),
                    Err(p) => (st2, fault(p)),
                },
            }
        },
    }
}

/// Evaluating a call at `pos`: the callee, which has to be a function; the
/// arguments; then the call, with the callee's receiver.
pub open spec fn sem_call_expr(
    env: Env,
    st: State,
    function: &Expr,
    args: Seq<Expr>,
    pos: SourcePos,
) -> Sem<EvaluatedView>
    decreases st.budget, 2nat, 0nat,
{
    let (st1, r1) = sem_expr(env, st, function);
    match regular(r1) {
        None => (st1, pass(r1, pos)),
        Some((value, callee_pos, receiver)) => match callee_spec(value, callee_pos) {
            Err(p) => (st1, fault(p)),
            Ok(f) => {
                let (st2, r2) = sem_args(env, st1.within(st), args, 0, Seq::empty(), pos);
                match r2 {
                    Err(h) => (st2, Err(h)),
                    Ok(Err(flow)) => (st2, Ok((flow, pos, None))),
                    Ok(Ok(values)) => {
                        let (st3, r3) = sem_call(env, st2.within(st), receiver, f, values, pos);
                        match r3 {
                            Ok(v) => (st3, Ok((FlowView::Regular(v), pos, None))),
                            Err(h) => (st3, Err(h)),
                        }
                    },
                }
            },
        }
    }
}

/// Evaluating the arguments of a call from the `i`-th on, where the ones
/// before gave `values`: in order, up to the first that does not go on
/// regularly. The outcome is the values of all, or the jump of that one.
pub open spec fn sem_args(
    env: Env,
    st: State,
    args: Seq<Expr>,
    i: nat,
    values: Seq<ValueView>,
    pos: SourcePos,
) -> Sem<Result<Seq<ValueView>, FlowView>>
    decreases st.budget, 1nat, args.len() - i,
{
    if i >= args.len() {
        (st, Ok(Ok(values)))
    } else {
        let (after, r) = sem_expr(env, st, &args[i as int]);
        match r {
            Err(h) => (after, Err(h)),
            Ok((FlowView::Regular(v), _, _)) => sem_args(
                env,
                after.within(st),
                args,
                i + 1,
                values.push(v),
                pos,
            ),
            Ok((flow, _, _)) => (after, Ok(Err(flow))),
        }
    }
}

/// Running a program: its top level is executed in a frame of the global
/// slots, the first of which holds the standard library of the host. The
/// frame is removed afterwards.
pub open spec fn sem_program(env: Env, st: State, program: &Program) -> Sem<ValueView> {
    if st.mem.depth() + program.root_slots > st.mem.limit {
        (
            st,
            fault(
                PanicView::StackOverflow { pos: SourcePos { line: 0, column: 0, path: env.path } },
            ),
        )
    } else {
        let (built, library) = (env.host.library)(
            st.events,
            st.mem.extend(program.root_slots as nat),
        );
        let (after, r) = sem_block(
            env,
            State {
                mem: built.store(SlotIx { index: 0 }, library),
                events: st.events + 1,
                ..st
            },
            &program.statements);
        let left = after.with(after.mem.shrink(program.root_slots as nat));
        match r {
            Ok(FlowView::Regular(v)) => (left, Ok(v)),
            Ok(_) => (left, Ok(ValueView::Nil)),
            Err(h) => (left, Err(h)),
        }
    }
}

} // verus!
