//! The evaluator.

use vstd::prelude::*;
use vstd::pervasive::unreached;
use crate::access::{access, assign, iteration};
use crate::dict::Dict;
use crate::flow::{Flow, FlowView};
use crate::host::Host;
use crate::mem::{Function, MemView, Memory, UserFn, DEFAULT_STACK_LIMIT};
use crate::ops::{
    binary,
    callee,
    callee_spec,
    condition,
    logical_left,
    logical_right,
    unary,
    Binary,
};
use crate::panic::{Panic, PanicView};
use crate::semantics::{
    call_fault,
    close,
    sem_access,
    sem_args,
    sem_array,
    sem_assign,
    sem_binary,
    sem_block,
    sem_call,
    sem_call_expr,
    sem_dict,
    sem_expr,
    sem_for,
    sem_if,
    sem_iterate,
    sem_literal,
    sem_program,
    sem_statement,
    sem_statements,
    sem_unary,
    sem_while,
    lawful_history,
    lemma_model_of,
    Env,
    EvaluatedView,
    Event,
    HaltView,
    HostModel,
    State,
};
use crate::program::{
    BinaryOp,
    Block,
    Expr,
    FrameInfo,
    Literal,
    Lvalue,
    Program,
    Scope,
    SlotIx,
    Statement,
    UnaryOp,
};
use crate::source::{Pos, SourcePos};
use crate::symbol::{Interner, Symbol};
use crate::value::{views, CellRef, FunRef, Value, ValueView};

verus! {

broadcast use {crate::semantics::lemma_agrees_prefix, crate::semantics::lemma_model_of};

/// Why an evaluation ended without a value.
#[derive(Clone, Debug)]
pub enum Halt {
    /// The program faulted.
    Panic(Panic),
    /// The runtime's budget of steps was used up.
    OutOfSteps,
}

impl View for Halt {
    type V = HaltView;

    open spec fn view(&self) -> HaltView {
        match *self {
            Halt::Panic(p) => HaltView::Panic(p@),
            Halt::OutOfSteps => HaltView::OutOfSteps,
        }
    }
}

/// What evaluating an expression gives: the flow, the position of the
/// expression, and the object that the value was looked up on where the
/// expression is an access.
pub type Evaluated = (Flow, SourcePos, Option<Value>);

/// The view of the outcome of a block, a statement or a literal.
pub open spec fn flow_result(r: Result<Flow, Halt>) -> Result<FlowView, HaltView> {
    match r {
        Ok(flow) => Ok(flow@),
        Err(h) => Err(h@),
    }
}

/// The view of the outcome of an expression.
pub open spec fn evaluated_result(r: Result<Evaluated, Halt>) -> Result<EvaluatedView, HaltView> {
    match r {
        Ok((flow, pos, receiver)) => Ok(
            (
                flow@,
                pos,
                match receiver {
                    Some(v) => Some(v@),
                    None => None,
                },
            ),
        ),
        Err(h) => Err(h@),
    }
}

/// The view of the outcome of a call or of a program.
pub open spec fn value_result(r: Result<Value, Halt>) -> Result<ValueView, HaltView> {
    match r {
        Ok(v) => Ok(v@),
        Err(h) => Err(h@),
    }
}

/// The view of a receiver.
pub open spec fn receiver_view(receiver: Option<Value>) -> Option<ValueView> {
    match receiver {
        Some(v) => Some(v@),
        None => None,
    }
}

/// The values of pending arguments.
pub open spec fn pending_values(pending: Seq<(SlotIx, Value)>) -> Seq<ValueView> {
    Seq::new(pending.len(), |i: int| pending[i].1@)
}

/// A flow that may leave a node in `scope`, with a value of `mem`: a
/// `return` leaves only the body of a function, a `break` only the body of
/// a loop.
pub open spec fn flow_ok(mem: MemView, flow: Flow, scope: Scope) -> bool {
    match flow {
        Flow::Regular(v) => mem.valid(v@),
        Flow::Return(v) => mem.valid(v@) && scope.in_function,
        Flow::Break => scope.in_loop,
    }
}

/// A runtime instance to execute programs.
///
/// The runtime owns the memory of the programs it runs, so that the values
/// they return can be looked at afterwards. Every node that it evaluates and
/// every call that it makes takes one step from its budget; an evaluation
/// that finds the budget empty ends with `Halt::OutOfSteps`.
pub struct Runtime {
    mem: Memory,
    arguments: Vec<(SlotIx, Value)>,
    path: &'static str,
    steps: u64,
    log: Ghost<Seq<Event>>,
}

impl Runtime {
    /// The memory.
    pub closed spec fn mem(&self) -> Memory {
        self.mem
    }

    /// The pending arguments: the arguments of a call on their way to the
    /// callee's frame, each with the slot that it goes to.
    pub closed spec fn pending(&self) -> Seq<(SlotIx, Value)> {
        self.arguments@
    }

    /// The steps that are left.
    pub closed spec fn budget(&self) -> nat {
        self.steps as nat
    }

    /// The file of the program that is run.
    pub closed spec fn path(&self) -> &'static str {
        self.path
    }

    /// What the runtime has asked its hosts so far, with their answers.
    pub closed spec fn history(&self) -> Seq<Event> {
        self.log@
    }

    /// The state, as the semantics sees it.
    pub open spec fn state(&self) -> State {
        State { mem: self.mem()@, budget: self.budget(), events: self.history().len() }
    }

    /// What stays the same while the runtime runs a program with the host
    /// `host`.
    pub open spec fn env(&self, host: HostModel, interner: &Interner) -> Env {
        Env { host, names: interner.names(), path: self.path() }
    }

    /// The memory is well formed, every function in it can be called with
    /// an interner of `names` symbols, and every answer that the hosts gave
    /// was one that a host may give.
    pub open spec fn sane(&self, names: usize) -> bool {
        self.mem().wf() && self.mem()@.scoped(names) && lawful_history(self.history())
    }

    /// The state between two statements: the runtime is sane and no
    /// argument is pending.
    pub open spec fn inv(&self, names: usize) -> bool {
        self.sane(names) && self.pending().len() == 0
    }

    /// The state between two programs: no argument is pending and the stack
    /// is empty.
    pub open spec fn idle(&self, names: usize) -> bool {
        self.inv(names) && self.mem()@.depth() == 0
    }

    /// The pending arguments are those of one call, in order, with values of
    /// the memory.
    pub open spec fn staged(&self) -> bool {
        &&& self.pending().len() <= u32::MAX
        &&& forall|i: int|
            0 <= i < self.pending().len() ==> (#[trigger] self.pending()[i]).0.index == i
                && self.mem()@.valid(self.pending()[i].1@)
    }

    /// How the runtime stands to an earlier state `before` of itself once a
    /// node has been evaluated or a call has returned: no argument is
    /// pending, the stack is as deep as it was, nothing that the memory held
    /// has gone, and no step has come back.
    pub open spec fn follows(&self, before: Runtime, names: usize) -> bool {
        &&& self.inv(names)
        &&& self.mem()@.grown_from(before.mem()@)
        &&& self.mem()@.depth() == before.mem()@.depth()
        &&& self.budget() <= before.budget()
        &&& self.path() == before.path()
        &&& before.history().is_prefix_of(self.history())
    }

    /// A runtime with an empty memory, whose stack holds at most `slots`
    /// slots, and with a budget of `steps` steps.
    pub fn with_limits(steps: u64, slots: usize) -> (r: Runtime)
        ensures
            forall|names: usize| r.idle(names),
            r.mem()@ == MemView::empty(slots as nat),
            r.budget() == steps,
            r.history() == Seq::<Event>::empty(),
    {
        Runtime {
            mem: Memory::new(slots),
            arguments: Vec::new(),
            path: "",
            steps,
            log: Ghost(Seq::empty()),
        }
    }

    /// A runtime with an empty memory and a budget of `steps` steps.
    pub fn new(steps: u64) -> (r: Runtime)
        ensures
            forall|names: usize| r.idle(names),
            r.mem()@ == MemView::empty(DEFAULT_STACK_LIMIT as nat),
            r.budget() == steps,
            r.history() == Seq::<Event>::empty(),
    {
        Runtime::with_limits(steps, DEFAULT_STACK_LIMIT)
    }

    /// The memory, to look at the values that a program returned.
    pub fn memory(&self) -> (m: &Memory)
        ensures
            *m == self.mem(),
    {
        &self.mem
    }

    /// The steps that are left.
    pub fn steps(&self) -> (n: u64)
        ensures
            n == self.budget(),
    {
        self.steps
    }

    /// Gives the runtime a budget of `steps` steps.
    pub fn refill(&mut self, steps: u64)
        ensures
            final(self).mem() == old(self).mem(),
            final(self).pending() == old(self).pending(),
            final(self).path() == old(self).path(),
            final(self).history() == old(self).history(),
            final(self).budget() == steps,
    {
        self.steps = steps;
    }

    /// Takes one step from the budget, if there is one.
    fn tick(&mut self) -> (r: Result<(), Halt>)
        ensures
            final(self).mem() == old(self).mem(),
            final(self).pending() == old(self).pending(),
            final(self).path() == old(self).path(),
            final(self).history() == old(self).history(),
            r is Ok <==> old(self).budget() > 0,
            r is Ok ==> final(self).budget() == old(self).budget() - 1,
            r matches Err(h) ==> h@ == HaltView::OutOfSteps && final(self).budget() == 0,
    {
        if self.steps == 0 {
            Err(Halt::OutOfSteps)
        } else {
            self.steps = self.steps - 1;
            Ok(())
        }
    }

    fn pos(&self, pos: Pos) -> (r: SourcePos)
        ensures
            r == (SourcePos { line: pos.line, column: pos.column, path: self.path() }),
    {
        SourcePos::new(pos, self.path)
    }

    /// Runs `program` and gives the value of its last statement.
    ///
    /// The program runs in a frame of its global slots, whose first slot
    /// holds the standard library of `host`. The frame is removed when the
    /// program ends, however it ends, so that the stack is empty again. A
    /// program whose globals do not fit on the stack overflows it at once, at
    /// the position of its file.
    pub fn eval<H: Host>(
        &mut self,
        program: &'static Program,
        interner: &Interner,
        host: &mut H,
    ) -> (r: Result<Value, Halt>)
        requires
            old(self).idle(interner.count()),
            program.wf(interner.count()),
        ensures
            final(self).idle(interner.count()),
            final(self).mem()@.grown_from(old(self).mem()@),
            final(self).budget() <= old(self).budget(),
            final(self).path() == program.source,
            old(self).history().is_prefix_of(final(self).history()),
            exists|m: HostModel| m.lawful() && #[trigger] m.agrees(final(self).history()),
            forall|m: HostModel| #[trigger]
                m.agrees(final(self).history()) ==> sem_program(
                    final(self).env(m, interner),
                    old(self).state(),
                    program,
                ) == (final(self).state(), value_result(r)),
            r matches Ok(v) ==> final(self).mem()@.valid(v@),
            program.root_slots > old(self).mem()@.limit ==> (r matches Err(h) && h@
                == HaltView::Panic(
                PanicView::StackOverflow {
                    pos: SourcePos { line: 0, column: 0, path: program.source },
                },
            ) && final(self).state() == old(self).state()),
    {
        let ghost names = interner.count();
        self.path = program.source;
        match self.mem.extend(program.root_slots) {
            Ok(()) => {},
            Err(_) => {
                return Err(Halt::Panic(Panic::stack_overflow(SourcePos::file(self.path))));
            },
        }
        assert(self.mem@.scoped(names));
        let ghost before = self.mem@;
        let library = host.library(&mut self.mem);
        proof {
            let event = Event::Library { before, after: self.mem@, value: library@ };
            assert(event.lawful());
            self.log@ = self.log@.push(event);
            assert(self.log@[self.log@.len() - 1] == event);
        }
        self.mem.store(SlotIx { index: 0 }, library);
        let ghost scope = Scope::root(names, program.root_slots);
        let flow = self.eval_block(host, interner, &program.statements, Ghost(scope));
        self.mem.shrink(program.root_slots);
        match flow {
            Ok(Flow::Regular(value)) => Ok(value),
            Ok(_) => unreached(),
            Err(halt) => Err(halt),
        }
    }

    /// Runs the statements of `block` up to the first that jumps. The value
    /// is that of the last statement.
    fn eval_block<H: Host>(
        &mut self,
        host: &mut H,
        interner: &Interner,
        block: &'static Block,
        Ghost(scope): Ghost<Scope>,
    ) -> (r: Result<Flow, Halt>)
        requires
            old(self).inv(scope.names),
            scope.names == interner.count(),
            scope.slots <= old(self).mem()@.depth(),
            block.wf(scope),
        ensures
            final(self).follows(*old(self), scope.names),
            forall|m: HostModel| #[trigger]
                m.agrees(final(self).history()) ==> sem_block(
                    old(self).env(m, interner),
                    old(self).state(),
                    block,
                ) == (final(self).state(), flow_result(r)),
            r matches Ok(flow) ==> flow_ok(final(self).mem()@, flow, scope) && final(self).budget()
                < old(self).budget(),
        decreases old(self).budget(), 0nat,
    {
        self.tick()?;
        let mut value = Value::Nil;
        let mut i: usize = 0;
        while i < block.0.len()
            invariant
                i <= block.0.len(),
                block.wf(scope),
                scope.names == interner.count(),
                scope.slots <= self.mem()@.depth(),
                self.follows(*old(self), scope.names),
                self.budget() < old(self).budget(),
                self.mem()@.valid(value@),
                old(self).budget() > 0,
                forall|m: HostModel| #[trigger]
                    m.agrees(self.history()) ==> sem_statements(
                        old(self).env(m, interner),
                        old(self).state().spend(),
                        block.0@,
                        0,
                        ValueView::Nil,
                    ) == sem_statements(
                        old(self).env(m, interner),
                        self.state(),
                        block.0@,
                        i as nat,
                        value@,
                    ),
            decreases block.0.len() - i,
        {
            match self.eval_statement(host, interner, &block.0[i], Ghost(scope))? {
                Flow::Regular(v) => {
                    value = v;
                },
                flow => {
                    return Ok(flow);
                },
            }
            i += 1;
        }
        Ok(Flow::Regular(value))
    }

    /// Runs one statement.
    fn eval_statement<H: Host>(
        &mut self,
        host: &mut H,
        interner: &Interner,
        statement: &'static Statement,
        Ghost(scope): Ghost<Scope>,
    ) -> (r: Result<Flow, Halt>)
        requires
            old(self).inv(scope.names),
            scope.names == interner.count(),
            scope.slots <= old(self).mem()@.depth(),
            statement.wf(scope),
        ensures
            final(self).follows(*old(self), scope.names),
            forall|m: HostModel| #[trigger]
                m.agrees(final(self).history()) ==> sem_statement(
                    old(self).env(m, interner),
                    old(self).state(),
                    statement,
                ) == (final(self).state(), flow_result(r)),
            r matches Ok(flow) ==> flow_ok(final(self).mem()@, flow, scope) && final(self).budget()
                < old(self).budget(),
        decreases old(self).budget(), 0nat,
    {
        self.tick()?;
        match statement {
            Statement::Assign { left, right } => self.eval_assign(
                host,
                interner,
                left,
                right,
                Ghost(scope),
            ),
            Statement::Return { expr } => {
                match self.eval_expr(host, interner, expr, Ghost(scope))?.0 {
                    Flow::Regular(value) => Ok(Flow::Return(value)),
                    flow => Ok(flow),
                }
            },
            Statement::Break => Ok(Flow::Break),
            Statement::While { condition, block } => self.eval_while(
                host,
                interner,
                condition,
                block,
                Ghost(scope),
            ),
            Statement::For { slot_ix, expr, block } => self.eval_for(
                host,
                interner,
                *slot_ix,
                expr,
                block,
                Ghost(scope),
            ),
            Statement::Expr(expr) => {
                let (flow, _, _) = self.eval_expr(host, interner, expr, Ghost(scope))?;
                Ok(flow)
            },
        }
    }

    /// Runs an assignment: the right side is evaluated before the target.
    fn eval_assign<H: Host>(
        &mut self,
        host: &mut H,
        interner: &Interner,
        left: &'static Lvalue,
        right: &'static Expr,
        Ghost(scope): Ghost<Scope>,
    ) -> (r: Result<Flow, Halt>)
        requires
            old(self).inv(scope.names),
            scope.names == interner.count(),
            scope.slots <= old(self).mem()@.depth(),
            left.wf(scope),
            right.wf(scope),
        ensures
            final(self).follows(*old(self), scope.names),
            forall|m: HostModel| #[trigger]
                m.agrees(final(self).history()) ==> sem_assign(
                    old(self).env(m, interner),
                    old(self).state(),
                    left,
                    right,
                ) == (final(self).state(), flow_result(r)),
            r matches Ok(flow) ==> flow_ok(final(self).mem()@, flow, scope),
        decreases old(self).budget(), 1nat,
    {
        let value = match self.eval_expr(host, interner, right, Ghost(scope))?.0 {
            Flow::Regular(value) => value,
            flow => {
                return Ok(flow);
            },
        };
        match left {
            Lvalue::Identifier { slot_ix, .. } => {
                self.mem.store(*slot_ix, value);
            },
            Lvalue::Access { object, field, .. } => {
                let (obj, obj_pos) = match self.eval_expr(host, interner, object, Ghost(scope))? {
                    (Flow::Regular(obj), pos, _) => (obj, pos),
                    (flow, _, _) => {
                        return Ok(flow);
                    },
                };
                let (field, field_pos) = match self.eval_expr(
                    host,
                    interner,
                    field,
                    Ghost(scope),
                )? {
                    (Flow::Regular(field), pos, _) => (field, pos),
                    (flow, _, _) => {
                        return Ok(flow);
                    },
                };
                match assign(&mut self.mem, obj, field, value, obj_pos, field_pos) {
                    Ok(()) => {},
                    Err(p) => {
                        return Err(Halt::Panic(p));
                    },
                }
            },
        }
        Ok(Flow::Regular(Value::Nil))
    }

    /// Runs a `while` loop.
    fn eval_while<H: Host>(
        &mut self,
        host: &mut H,
        interner: &Interner,
        test: &'static Expr,
        block: &'static Block,
        Ghost(scope): Ghost<Scope>,
    ) -> (r: Result<Flow, Halt>)
        requires
            old(self).inv(scope.names),
            scope.names == interner.count(),
            scope.slots <= old(self).mem()@.depth(),
            test.wf(scope),
            block.wf(scope.looping()),
        ensures
            final(self).follows(*old(self), scope.names),
            forall|m: HostModel| #[trigger]
                m.agrees(final(self).history()) ==> sem_while(
                    old(self).env(m, interner),
                    old(self).state(),
                    test,
                    block,
                ) == (final(self).state(), flow_result(r)),
            r matches Ok(flow) ==> flow_ok(final(self).mem()@, flow, scope),
        decreases old(self).budget(), 1nat,
    {
        loop
            invariant
                scope.names == interner.count(),
                scope.slots <= self.mem()@.depth(),
                test.wf(scope),
                block.wf(scope.looping()),
                self.follows(*old(self), scope.names),
                forall|m: HostModel| #[trigger]
                    m.agrees(self.history()) ==> sem_while(
                        old(self).env(m, interner),
                        old(self).state(),
                        test,
                        block,
                    ) == sem_while(old(self).env(m, interner), self.state(), test, block),
            decreases self.budget(),
        {
            let (flow, pos, _) = self.eval_expr(host, interner, test, Ghost(scope))?;
            let value = match flow {
                Flow::Regular(value) => value,
                flow => {
                    return Ok(flow);
                },
            };
            let go = match condition(value, pos) {
                Ok(go) => go,
                Err(p) => {
                    return Err(Halt::Panic(p));
                },
            };
            if !go {
                return Ok(Flow::Regular(Value::Nil));
            }
            match self.eval_block(host, interner, block, Ghost(scope.looping()))? {
                Flow::Regular(_) => {},
                Flow::Return(value) => {
                    return Ok(Flow::Return(value));
                },
                Flow::Break => {
                    return Ok(Flow::Regular(Value::Nil));
                },
            }
        }
    }

    /// Runs a `for` loop: the iterator is evaluated once and called before
    /// each round.
    fn eval_for<H: Host>(
        &mut self,
        host: &mut H,
        interner: &Interner,
        slot_ix: SlotIx,
        expr: &'static Expr,
        block: &'static Block,
        Ghost(scope): Ghost<Scope>,
    ) -> (r: Result<Flow, Halt>)
        requires
            old(self).inv(scope.names),
            scope.names == interner.count(),
            scope.slots <= old(self).mem()@.depth(),
            slot_ix.index < scope.slots,
            expr.wf(scope),
            block.wf(scope.looping()),
        ensures
            final(self).follows(*old(self), scope.names),
            forall|m: HostModel| #[trigger]
                m.agrees(final(self).history()) ==> sem_for(
                    old(self).env(m, interner),
                    old(self).state(),
                    slot_ix,
                    expr,
                    block,
                ) == (final(self).state(), flow_result(r)),
            r matches Ok(flow) ==> flow_ok(final(self).mem()@, flow, scope),
        decreases old(self).budget(), 1nat,
    {
        let (flow, pos, _) = self.eval_expr(host, interner, expr, Ghost(scope))?;
        let iter = match flow {
            Flow::Regular(Value::Function(iter)) => iter,
            Flow::Regular(value) => {
                return Err(Halt::Panic(Panic::invalid_operand(value, pos)));
            },
            flow => {
                return Ok(flow);
            },
        };
        loop
            invariant
                scope.names == interner.count(),
                scope.slots <= self.mem()@.depth(),
                slot_ix.index < scope.slots,
                block.wf(scope.looping()),
                self.follows(*old(self), scope.names),
                iter.index < self.mem()@.functions.len(),
                forall|m: HostModel| #[trigger]
                    m.agrees(self.history()) ==> sem_for(
                        old(self).env(m, interner),
                        old(self).state(),
                        slot_ix,
                        expr,
                        block,
                    ) == sem_iterate(
                        old(self).env(m, interner),
                        self.state(),
                        slot_ix,
                        iter,
                        pos,
                        block,
                    ),
            decreases self.budget(),
        {
            assert(pending_values(self.pending()) =~= Seq::<ValueView>::empty());
            let step = self.call(host, interner, None, iter, pos)?;
            match iteration(&self.mem, step, pos) {
                Ok(Some(value)) => {
                    self.mem.store(slot_ix, value);
                },
                Ok(None) => {
                    return Ok(Flow::Regular(Value::Nil));
                },
                Err(p) => {
                    return Err(Halt::Panic(p));
                },
            }
            match self.eval_block(host, interner, block, Ghost(scope.looping()))? {
                Flow::Regular(_) => {},
                Flow::Return(value) => {
                    return Ok(Flow::Return(value));
                },
                Flow::Break => {
                    return Ok(Flow::Regular(Value::Nil));
                },
            }
        }
    }

    /// Evaluates a literal. A scalar or a string gives its value; an array or
    /// a dictionary evaluates its parts and is put into the memory; a
    /// function captures the slots that it closes over; an identifier gives
    /// its name.
    fn eval_literal<H: Host>(
        &mut self,
        host: &mut H,
        interner: &Interner,
        literal: &'static Literal,
        pos: Pos,
        Ghost(scope): Ghost<Scope>,
    ) -> (r: Result<Flow, Halt>)
        requires
            old(self).inv(scope.names),
            scope.names == interner.count(),
            scope.slots <= old(self).mem()@.depth(),
            literal.wf(scope),
        ensures
            final(self).follows(*old(self), scope.names),
            forall|m: HostModel| #[trigger]
                m.agrees(final(self).history()) ==> sem_literal(
                    old(self).env(m, interner),
                    old(self).state(),
                    literal,
                    pos,
                ) == (final(self).state(), flow_result(r)),
            r matches Ok(flow) ==> flow_ok(final(self).mem()@, flow, scope) && final(self).budget()
                < old(self).budget(),
        decreases old(self).budget(), 0nat,
    {
        self.tick()?;
        match literal {
            Literal::Nil => Ok(Flow::Regular(Value::Nil)),
            Literal::Bool(b) => Ok(Flow::Regular(Value::Bool(*b))),
            Literal::Int(i) => Ok(Flow::Regular(Value::Int(*i))),
            Literal::Float(float) => Ok(Flow::Regular(Value::Float(*float))),
            Literal::Byte(byte) => Ok(Flow::Regular(Value::Byte(*byte))),
            Literal::String(string) => Ok(Flow::Regular(Value::string(string.as_slice()))),
            Literal::Array(exprs) => self.eval_array(host, interner, exprs, Ghost(scope)),
            Literal::Dict(exprs) => self.eval_dict(host, interner, exprs, Ghost(scope)),
            Literal::Function { params, frame_info, body } => {
                let function = self.close(*params, frame_info, body, pos, Ghost(scope));
                Ok(Flow::Regular(Value::Function(function)))
            },
            Literal::Identifier(symbol) => Ok(
                Flow::Regular(Value::string(interner.name(*symbol))),
            ),
        }
    }

    /// Evaluates the elements of an array literal, in order, and makes the
    /// array.
    fn eval_array<H: Host>(
        &mut self,
        host: &mut H,
        interner: &Interner,
        exprs: &'static Vec<Expr>,
        Ghost(scope): Ghost<Scope>,
    ) -> (r: Result<Flow, Halt>)
        requires
            old(self).inv(scope.names),
            scope.names == interner.count(),
            scope.slots <= old(self).mem()@.depth(),
            forall|i: int| 0 <= i < exprs.len() ==> (#[trigger] exprs[i]).wf(scope),
        ensures
            final(self).follows(*old(self), scope.names),
            forall|m: HostModel| #[trigger]
                m.agrees(final(self).history()) ==> sem_array(
                    old(self).env(m, interner),
                    old(self).state(),
                    exprs@,
                    0,
                    Seq::empty(),
                ) == (final(self).state(), flow_result(r)),
            r matches Ok(flow) ==> flow_ok(final(self).mem()@, flow, scope),
        decreases old(self).budget(), 1nat,
    {
        let mut array: Vec<Value> = Vec::new();
        assert(views(array@) =~= Seq::<ValueView>::empty());
        let mut i: usize = 0;
        while i < exprs.len()
            invariant
                i <= exprs.len(),
                scope.names == interner.count(),
                scope.slots <= self.mem()@.depth(),
                forall|j: int| 0 <= j < exprs.len() ==> (#[trigger] exprs[j]).wf(scope),
                self.follows(*old(self), scope.names),
                forall|j: int| 0 <= j < array@.len() ==> self.mem()@.valid(#[trigger] array@[j]@),
                forall|m: HostModel| #[trigger]
                    m.agrees(self.history()) ==> sem_array(
                        old(self).env(m, interner),
                        old(self).state(),
                        exprs@,
                        0,
                        Seq::empty(),
                    ) == sem_array(
                        old(self).env(m, interner),
                        self.state(),
                        exprs@,
                        i as nat,
                        views(array@),
                    ),
            decreases exprs.len() - i,
        {
            match self.eval_expr(host, interner, &exprs[i], Ghost(scope))?.0 {
                Flow::Regular(value) => {
                    let ghost items = views(array@);
                    array.push(value);
                    assert(views(array@) =~= items.push(value@));
                },
                flow => {
                    return Ok(flow);
                },
            }
            i += 1;
        }
        let r = self.mem.alloc_array(array);
        Ok(Flow::Regular(Value::Array(r)))
    }

    /// Evaluates the values of a dictionary literal, in order, and makes the
    /// dictionary. The keys are the names of the symbols.
    fn eval_dict<H: Host>(
        &mut self,
        host: &mut H,
        interner: &Interner,
        exprs: &'static Vec<(Symbol, Expr)>,
        Ghost(scope): Ghost<Scope>,
    ) -> (r: Result<Flow, Halt>)
        requires
            old(self).inv(scope.names),
            scope.names == interner.count(),
            scope.slots <= old(self).mem()@.depth(),
            forall|i: int|
                0 <= i < exprs.len() ==> (#[trigger] exprs[i]).0.index < scope.names
                    && exprs[i].1.wf(scope),
        ensures
            final(self).follows(*old(self), scope.names),
            forall|m: HostModel| #[trigger]
                m.agrees(final(self).history()) ==> sem_dict(
                    old(self).env(m, interner),
                    old(self).state(),
                    exprs@,
                    0,
                    Map::empty(),
                ) == (final(self).state(), flow_result(r)),
            r matches Ok(flow) ==> flow_ok(final(self).mem()@, flow, scope),
        decreases old(self).budget(), 1nat,
    {
        let mut dict = Dict::new();
        let mut i: usize = 0;
        while i < exprs.len()
            invariant
                i <= exprs.len(),
                scope.names == interner.count(),
                scope.slots <= self.mem()@.depth(),
                forall|j: int|
                    0 <= j < exprs.len() ==> (#[trigger] exprs[j]).0.index < scope.names
                        && exprs[j].1.wf(scope),
                self.follows(*old(self), scope.names),
                dict.wf(),
                forall|k: ValueView| #[trigger]
                    dict@.contains_key(k) ==> self.mem()@.valid(k) && self.mem()@.valid(dict@[k]),
                forall|m: HostModel| #[trigger]
                    m.agrees(self.history()) ==> sem_dict(
                        old(self).env(m, interner),
                        old(self).state(),
                        exprs@,
                        0,
                        Map::empty(),
                    ) == sem_dict(
                        old(self).env(m, interner),
                        self.state(),
                        exprs@,
                        i as nat,
                        dict@,
                    ),
            decreases exprs.len() - i,
        {
            let key = Value::string(interner.name(exprs[i].0));
            match self.eval_expr(host, interner, &exprs[i].1, Ghost(scope))?.0 {
                Flow::Regular(value) => {
                    dict.insert(key, value);
                },
                flow => {
                    return Ok(flow);
                },
            }
            i += 1;
        }
        let r = self.mem.alloc_dict(dict);
        Ok(Flow::Regular(Value::Dict(r)))
    }

    /// Makes the function object of a function literal: captures the slots
    /// that the function closes over.
    fn close(
        &mut self,
        params: u32,
        frame_info: &'static FrameInfo,
        body: &'static Block,
        pos: Pos,
        Ghost(scope): Ghost<Scope>,
    ) -> (r: FunRef)
        requires
            old(self).inv(scope.names),
            scope.slots <= old(self).mem()@.depth(),
            frame_info.wf(params, scope),
            body.wf(scope.function(frame_info.slots)),
        ensures
            final(self).follows(*old(self), scope.names),
            (final(self).mem()@, r) == close(
                old(self).mem()@,
                params,
                frame_info,
                body,
                (SourcePos { line: pos.line, column: pos.column, path: old(self).path() }),
            ),
            final(self).history() == old(self).history(),
            final(self).budget() == old(self).budget(),
            r.index < final(self).mem()@.functions.len(),
    {
        let mut context: Vec<(CellRef, SlotIx)> = Vec::new();
        let mut i: usize = 0;
        while i < frame_info.captures.len()
            invariant
                i <= frame_info.captures.len(),
                scope.slots <= self.mem()@.depth(),
                frame_info.wf(params, scope),
                self.follows(*old(self), scope.names),
                self.budget() == old(self).budget(),
                self.history() == old(self).history(),
                self.mem()@.functions == old(self).mem()@.functions,
                old(self).mem()@.capture_all(frame_info.captures@, i as nat) == (
                    self.mem()@,
                    context@,
                ),
                context@.len() == i,
                forall|j: int|
                    0 <= j < context@.len() ==> (#[trigger] context@[j]).0.index
                        < self.mem()@.cells.len() && context@[j].1.index < frame_info.slots,
            decreases frame_info.captures.len() - i,
        {
            let capture = frame_info.captures[i];
            let cell = self.mem.capture(capture.from);
            context.push((cell, capture.to));
            i += 1;
        }
        let function = Function::User(
            UserFn { params, frame_info, body, context, pos: self.pos(pos) },
        );
        self.mem.alloc_function(function)
    }

    /// Evaluates an expression. With the flow come the position of the
    /// expression and, for an access, the object that was accessed: a call
    /// hands it to the callee as its receiver.
    fn eval_expr<H: Host>(
        &mut self,
        host: &mut H,
        interner: &Interner,
        expr: &'static Expr,
        Ghost(scope): Ghost<Scope>,
    ) -> (r: Result<Evaluated, Halt>)
        requires
            old(self).inv(scope.names),
            scope.names == interner.count(),
            scope.slots <= old(self).mem()@.depth(),
            expr.wf(scope),
        ensures
            final(self).follows(*old(self), scope.names),
            forall|m: HostModel| #[trigger]
                m.agrees(final(self).history()) ==> sem_expr(
                    old(self).env(m, interner),
                    old(self).state(),
                    expr,
                ) == (final(self).state(), evaluated_result(r)),
            r matches Ok(e) ==> final(self).evaluated(e, expr.pos(), scope) && final(self).budget()
                < old(self).budget(),
        decreases old(self).budget(), 0nat,
    {
        self.tick()?;
        match expr {
            Expr::Identifier { slot_ix, pos } => {
                let value = self.mem.fetch(*slot_ix);
                Ok((Flow::Regular(value), self.pos(*pos), None))
            },
            Expr::Literal { literal, pos } => {
                let flow = self.eval_literal(host, interner, literal, *pos, Ghost(scope))?;
                Ok((flow, self.pos(*pos), None))
            },
            Expr::UnaryOp { op, operand, pos } => self.eval_unary(
                host,
                interner,
                *op,
                operand,
                *pos,
                Ghost(scope),
            ),
            Expr::BinaryOp { left, op, right, pos } => self.eval_binary(
                host,
                interner,
                left,
                *op,
                right,
                *pos,
                Ghost(scope),
            ),
            Expr::If { condition, then, otherwise, pos } => self.eval_if(
                host,
                interner,
                condition,
                then,
                otherwise,
                *pos,
                Ghost(scope),
            ),
            Expr::Access { object, field, pos } => self.eval_access(
                host,
                interner,
                object,
                field,
                *pos,
                Ghost(scope),
            ),
            Expr::Call { function, args, pos } => self.eval_call(
                host,
                interner,
                function,
                args,
                *pos,
                Ghost(scope),
            ),
            Expr::CommandBlock { .. } => unreached(),
        }
    }

    /// What holds of the triple that evaluating an expression at `pos` in
    /// `scope` gave: the position is that of the expression, and the flow
    /// and the receiver hold values of the memory.
    pub open spec fn evaluated(&self, e: Evaluated, pos: Pos, scope: Scope) -> bool {
        &&& flow_ok(self.mem()@, e.0, scope)
        &&& e.1 == (SourcePos { line: pos.line, column: pos.column, path: self.path() })
        &&& e.2 matches Some(v) ==> self.mem()@.valid(v@)
    }

    /// Evaluates a unary operator.
    fn eval_unary<H: Host>(
        &mut self,
        host: &mut H,
        interner: &Interner,
        op: UnaryOp,
        operand: &'static Expr,
        pos: Pos,
        Ghost(scope): Ghost<Scope>,
    ) -> (r: Result<Evaluated, Halt>)
        requires
            old(self).inv(scope.names),
            scope.names == interner.count(),
            scope.slots <= old(self).mem()@.depth(),
            operand.wf(scope),
        ensures
            final(self).follows(*old(self), scope.names),
            forall|m: HostModel| #[trigger]
                m.agrees(final(self).history()) ==> sem_unary(
                    old(self).env(m, interner),
                    old(self).state(),
                    op,
                    operand,
                    (SourcePos { line: pos.line, column: pos.column, path: old(self).path() }),
                ) == (final(self).state(), evaluated_result(r)),
            r matches Ok(e) ==> final(self).evaluated(e, pos, scope),
        decreases old(self).budget(), 1nat,
    {
        let pos = self.pos(pos);
        let (value, operand_pos) = match self.eval_expr(host, interner, operand, Ghost(scope))? {
            (Flow::Regular(value), operand_pos, _) => (value, operand_pos),
            (flow, _, _) => {
                return Ok((flow, pos, None));
            },
        };
        match unary(op, value, pos, operand_pos) {
            Ok(value) => Ok((Flow::Regular(value), pos, None)),
            Err(p) => Err(Halt::Panic(p)),
        }
    }

    /// Evaluates a binary operator: `and` and `or` evaluate their right
    /// operand only where the left one does not decide.
    fn eval_binary<H: Host>(
        &mut self,
        host: &mut H,
        interner: &Interner,
        left: &'static Expr,
        op: BinaryOp,
        right: &'static Expr,
        pos: Pos,
        Ghost(scope): Ghost<Scope>,
    ) -> (r: Result<Evaluated, Halt>)
        requires
            old(self).inv(scope.names),
            scope.names == interner.count(),
            scope.slots <= old(self).mem()@.depth(),
            left.wf(scope),
            right.wf(scope),
        ensures
            final(self).follows(*old(self), scope.names),
            forall|m: HostModel| #[trigger]
                m.agrees(final(self).history()) ==> sem_binary(
                    old(self).env(m, interner),
                    old(self).state(),
                    left,
                    op,
                    right,
                    (SourcePos { line: pos.line, column: pos.column, path: old(self).path() }),
                ) == (final(self).state(), evaluated_result(r)),
            r matches Ok(e) ==> final(self).evaluated(e, pos, scope),
        decreases old(self).budget(), 1nat,
    {
        let pos = self.pos(pos);
        let (left, left_pos) = match self.eval_expr(host, interner, left, Ghost(scope))? {
            (Flow::Regular(value), left_pos, _) => (value, left_pos),
            (flow, _, _) => {
                return Ok((flow, pos, None));
            },
        };
        if op.logical() {
            match logical_left(op, left, left_pos) {
                Ok(Some(value)) => {
                    return Ok((Flow::Regular(value), pos, None));
                },
                Ok(None) => {},
                Err(p) => {
                    return Err(Halt::Panic(p));
                },
            }
            let (right, right_pos) = match self.eval_expr(host, interner, right, Ghost(scope))? {
                (Flow::Regular(value), right_pos, _) => (value, right_pos),
                (flow, _, _) => {
                    return Ok((flow, pos, None));
                },
            };
            match logical_right(right, right_pos) {
                Ok(value) => Ok((Flow::Regular(value), pos, None)),
                Err(p) => Err(Halt::Panic(p)),
            }
        } else {
            let (right, right_pos) = match self.eval_expr(host, interner, right, Ghost(scope))? {
                (Flow::Regular(value), right_pos, _) => (value, right_pos),
                (flow, _, _) => {
                    return Ok((flow, pos, None));
                },
            };
            match binary(op, left, right, pos, left_pos, right_pos) {
                Ok(Binary::Done(value)) => Ok((Flow::Regular(value), pos, None)),
                Ok(Binary::Mixed { op, left, right }) => {
                    let result = host.float_arith(op, left, right);
                    proof {
                        let event = Event::Arith { op, left, right, result };
                        let ghost asked = self.log@;
                        self.log@ = asked.push(event);
                        assert(self.log@[self.log@.len() - 1] == event);
                        assert(asked.is_prefix_of(self.log@));
                    }
                    let value = Value::Float(result);
                    Ok((Flow::Regular(value), pos, None))
                },
                Err(p) => Err(Halt::Panic(p)),
            }
        }
    }

    /// Evaluates an `if`.
    fn eval_if<H: Host>(
        &mut self,
        host: &mut H,
        interner: &Interner,
        test: &'static Expr,
        then: &'static Block,
        otherwise: &'static Block,
        pos: Pos,
        Ghost(scope): Ghost<Scope>,
    ) -> (r: Result<Evaluated, Halt>)
        requires
            old(self).inv(scope.names),
            scope.names == interner.count(),
            scope.slots <= old(self).mem()@.depth(),
            test.wf(scope),
            then.wf(scope),
            otherwise.wf(scope),
        ensures
            final(self).follows(*old(self), scope.names),
            forall|m: HostModel| #[trigger]
                m.agrees(final(self).history()) ==> sem_if(
                    old(self).env(m, interner),
                    old(self).state(),
                    test,
                    then,
                    otherwise,
                    (SourcePos { line: pos.line, column: pos.column, path: old(self).path() }),
                ) == (final(self).state(), evaluated_result(r)),
            r matches Ok(e) ==> final(self).evaluated(e, pos, scope),
        decreases old(self).budget(), 1nat,
    {
        let pos = self.pos(pos);
        let (value, test_pos) = match self.eval_expr(host, interner, test, Ghost(scope))? {
            (Flow::Regular(value), test_pos, _) => (value, test_pos),
            (flow, _, _) => {
                return Ok((flow, pos, None));
            },
        };
        let go = match condition(value, test_pos) {
            Ok(go) => go,
            Err(p) => {
                return Err(Halt::Panic(p));
            },
        };
        let flow = if go {
            self.eval_block(host, interner, then, Ghost(scope))?
        } else {
            self.eval_block(host, interner, otherwise, Ghost(scope))?
        };
        Ok((flow, pos, None))
    }

    /// Evaluates an access.
    fn eval_access<H: Host>(
        &mut self,
        host: &mut H,
        interner: &Interner,
        object: &'static Expr,
        field: &'static Expr,
        pos: Pos,
        Ghost(scope): Ghost<Scope>,
    ) -> (r: Result<Evaluated, Halt>)
        requires
            old(self).inv(scope.names),
            scope.names == interner.count(),
            scope.slots <= old(self).mem()@.depth(),
            object.wf(scope),
            field.wf(scope),
        ensures
            final(self).follows(*old(self), scope.names),
            forall|m: HostModel| #[trigger]
                m.agrees(final(self).history()) ==> sem_access(
                    old(self).env(m, interner),
                    old(self).state(),
                    object,
                    field,
                    (SourcePos { line: pos.line, column: pos.column, path: old(self).path() }),
                ) == (final(self).state(), evaluated_result(r)),
            r matches Ok(e) ==> final(self).evaluated(e, pos, scope),
        decreases old(self).budget(), 1nat,
    {
        let pos = self.pos(pos);
        let (obj, obj_pos) = match self.eval_expr(host, interner, object, Ghost(scope))? {
            (Flow::Regular(value), obj_pos, _) => (value, obj_pos),
            (flow, _, _) => {
                return Ok((flow, pos, None));
            },
        };
        let (field, field_pos) = match self.eval_expr(host, interner, field, Ghost(scope))? {
            (Flow::Regular(value), field_pos, _) => (value, field_pos),
            (flow, _, _) => {
                return Ok((flow, pos, None));
            },
        };
        match access(&self.mem, &obj, field, obj_pos, field_pos) {
            Ok(value) => Ok((Flow::Regular(value), pos, Some(obj))),
            Err(p) => Err(Halt::Panic(p)),
        }
    }

    /// Evaluates a call: the callee, then the arguments, then the call
    /// itself. The arguments become pending only when all of them are there,
    /// so that a call among them finds no arguments but its own.
    fn eval_call<H: Host>(
        &mut self,
        host: &mut H,
        interner: &Interner,
        function: &'static Expr,
        args: &'static Vec<Expr>,
        pos: Pos,
        Ghost(scope): Ghost<Scope>,
    ) -> (r: Result<Evaluated, Halt>)
        requires
            old(self).inv(scope.names),
            scope.names == interner.count(),
            scope.slots <= old(self).mem()@.depth(),
            function.wf(scope),
            args.len() <= u32::MAX,
            forall|i: int| 0 <= i < args.len() ==> (#[trigger] args[i]).wf(scope),
        ensures
            final(self).follows(*old(self), scope.names),
            forall|m: HostModel| #[trigger]
                m.agrees(final(self).history()) ==> sem_call_expr(
                    old(self).env(m, interner),
                    old(self).state(),
                    function,
                    args@,
                    (SourcePos { line: pos.line, column: pos.column, path: old(self).path() }),
                ) == (final(self).state(), evaluated_result(r)),
            r matches Ok(e) ==> final(self).evaluated(e, pos, scope),
        decreases old(self).budget(), 1nat,
    {
        let at = self.pos(pos);
        let (value, callee_pos, receiver) = match self.eval_expr(
            host,
            interner,
            function,
            Ghost(scope),
        )? {
            (Flow::Regular(value), callee_pos, receiver) => (value, callee_pos, receiver),
            (flow, _, _) => {
                return Ok((flow, at, None));
            },
        };
        let ghost callee_value = value;
        let target = match callee(value, callee_pos) {
            Ok(target) => target,
            Err(p) => {
                return Err(Halt::Panic(p));
            },
        };
        let ghost called = self.state();
        let mut values: Vec<Value> = Vec::new();
        assert(views(values@) =~= Seq::<ValueView>::empty());
        let mut i: usize = 0;
        while i < args.len()
            invariant
                i <= args.len(),
                values@.len() == i,
                scope.names == interner.count(),
                scope.slots <= self.mem()@.depth(),
                forall|j: int| 0 <= j < args.len() ==> (#[trigger] args[j]).wf(scope),
                self.follows(*old(self), scope.names),
                forall|j: int| 0 <= j < values@.len() ==> self.mem()@.valid(#[trigger] values@[j]@),
                target.index < self.mem()@.functions.len(),
                receiver matches Some(v) ==> self.mem()@.valid(v@),
                at == (SourcePos { line: pos.line, column: pos.column, path: self.path() }),
                called.budget <= old(self).budget(),
                forall|m: HostModel| #[trigger]
                    m.agrees(self.history()) ==> sem_args(
                        old(self).env(m, interner),
                        called,
                        args@,
                        0,
                        Seq::empty(),
                        at,
                    ) == sem_args(
                        old(self).env(m, interner),
                        self.state(),
                        args@,
                        i as nat,
                        views(values@),
                        at,
                    ),
                old(self).history().is_prefix_of(self.history()),
                forall|m: HostModel| #[trigger]
                    m.agrees(self.history()) ==> sem_expr(
                        old(self).env(m, interner),
                        old(self).state(),
                        function,
                    ) == (
                        called,
                        evaluated_result(Ok((Flow::Regular(callee_value), callee_pos, receiver))),
                    ),
                callee_spec(callee_value@, callee_pos) == Ok::<FunRef, PanicView>(target),
            decreases args.len() - i,
        {
            match self.eval_expr(host, interner, &args[i], Ghost(scope))? {
                (Flow::Regular(value), _, _) => {
                    let ghost items = views(values@);
                    values.push(value);
                    assert(views(values@) =~= items.push(value@));
                },
                (flow, _, _) => {
                    return Ok((flow, at, None));
                },
            }
            i += 1;
        }
        self.stage(values);
        let value = self.call(host, interner, receiver, target, at)?;
        Ok((Flow::Regular(value), at, None))
    }

    /// Makes `values` the pending arguments of the next call.
    pub fn stage(&mut self, values: Vec<Value>)
        requires
            old(self).pending().len() == 0,
            values@.len() <= u32::MAX,
            forall|j: int|
                0 <= j < values@.len() ==> old(self).mem()@.valid(#[trigger] values@[j]@),
        ensures
            final(self).mem() == old(self).mem(),
            final(self).budget() == old(self).budget(),
            final(self).path() == old(self).path(),
            final(self).history() == old(self).history(),
            final(self).staged(),
            pending_values(final(self).pending()) == views(values@),
            final(self).pending().len() == values@.len(),
            forall|j: int|
                0 <= j < values@.len() ==> (#[trigger] final(self).pending()[j]).1@ == values@[j]@,
    {
        let mut values = values;
        let ghost all = values@;
        let mut i: usize = 0;
        let n = values.len();
        while i < n
            invariant
                i <= n,
                n == values@.len(),
                n == all.len(),
                n <= u32::MAX,
                self.mem() == old(self).mem(),
                self.budget() == old(self).budget(),
                self.path() == old(self).path(),
                self.history() == old(self).history(),
                self.pending().len() == i,
                forall|j: int| i <= j < n ==> (#[trigger] values@[j])@ == all[j]@,
                forall|j: int|
                    0 <= j < i ==> (#[trigger] self.pending()[j]).0.index == j
                        && self.pending()[j].1@ == all[j]@,
            decreases n - i,
        {
            let mut value = Value::Nil;
            core::mem::swap(&mut value, &mut values[i]);
            self.arguments.push((SlotIx { index: i as u32 }, value));
            i += 1;
        }
        assert(pending_values(self.pending()) =~= views(all));
    }

    /// Calls `function` with the pending arguments, which are taken from
    /// the buffer before anything else happens.
    ///
    /// A function of the program gets a frame of its own, with the
    /// arguments, the captured cells and, in the slot that the function
    /// names for it, the receiver `obj`, and its body is executed. A host
    /// function gets a frame that holds the arguments. Either frame is
    /// removed when the call ends, however it ends.
    pub fn call<H: Host>(
        &mut self,
        host: &mut H,
        interner: &Interner,
        obj: Option<Value>,
        function: FunRef,
        pos: SourcePos,
    ) -> (r: Result<Value, Halt>)
        requires
            old(self).sane(interner.count()),
            old(self).staged(),
            function.index < old(self).mem()@.functions.len(),
            obj matches Some(v) ==> old(self).mem()@.valid(v@),
        ensures
            final(self).follows(*old(self), interner.count()),
            exists|m: HostModel| m.lawful() && #[trigger] m.agrees(final(self).history()),
            forall|m: HostModel| #[trigger]
                m.agrees(final(self).history()) ==> sem_call(
                    old(self).env(m, interner),
                    old(self).state(),
                    receiver_view(obj),
                    function,
                    pending_values(old(self).pending()),
                    pos,
                ) == (final(self).state(), value_result(r)),
            r matches Ok(v) ==> final(self).mem()@.valid(v@) && final(self).budget() < old(
                self,
            ).budget(),
            old(self).budget() > 0 && call_fault(
                old(self).mem()@,
                function,
                old(self).pending().len(),
                pos,
            ) is Some ==> (r matches Err(h) && h@ == HaltView::Panic(
                call_fault(old(self).mem()@, function, old(self).pending().len(), pos)->Some_0,
            ) && final(self).mem()@ == old(self).mem()@),
        decreases old(self).budget(), 0nat,
    {
        let ghost names = interner.count();
        let mut arguments: Vec<(SlotIx, Value)> = Vec::new();
        core::mem::swap(&mut arguments, &mut self.arguments);
        self.tick()?;
        let (user, slots, body, self_slot, id) = match self.mem.function(function) {
            Function::User(u) => {
                if arguments.len() != u.params as usize {
                    return Err(Halt::Panic(Panic::missing_parameters(pos)));
                }
                (true, u.frame_info.slots, Some(u.body), u.frame_info.self_slot, 0)
            },
            Function::Host(h) => {
                (false, arguments.len() as u32, None, None, h.id)
            },
        };
        match self.mem.extend(slots) {
            Ok(()) => {},
            Err(_) => {
                return Err(Halt::Panic(Panic::stack_overflow(pos)));
            },
        }
        self.place_arguments(arguments, Ghost(slots));
        let result = match body {
            Some(body) => {
                self.mem.place_context(function);
                match (obj, self_slot) {
                    (Some(obj), Some(slot_ix)) => {
                        self.mem.store(slot_ix, obj);
                    },
                    _ => {},
                }
                let ghost scope = Scope { names, slots, in_loop: false, in_function: true };
                match self.eval_block(host, interner, body, Ghost(scope)) {
                    Ok(Flow::Regular(value)) => Ok(value),
                    Ok(Flow::Return(value)) => Ok(value),
                    Ok(Flow::Break) => unreached(),
                    Err(halt) => Err(halt),
                }
            },
            None => {
                assert(self.mem@.scoped(names));
                let ghost before = self.mem@;
                let answer = host.call(id, &mut self.mem, slots);
                proof {
                    let event = Event::Call {
                        id,
                        args: slots,
                        before,
                        after: self.mem@,
                        result: crate::ops::result_view(answer),
                    };
                    assert(event.lawful());
                    self.log@ = self.log@.push(event);
                    assert(self.log@[self.log@.len() - 1] == event);
                }
                match answer {
                    Ok(value) => Ok(value),
                    Err(p) => Err(Halt::Panic(p)),
                }
            },
        };
        self.mem.shrink(slots);
        proof {
            lemma_model_of(self.history());
        }
        result
    }

    /// Stores the arguments of a call in the slots of the new frame.
    fn place_arguments(&mut self, arguments: Vec<(SlotIx, Value)>, Ghost(slots): Ghost<u32>)
        requires
            old(self).mem().wf(),
            arguments@.len() <= slots <= old(self).mem()@.depth(),
            forall|i: int|
                0 <= i < arguments@.len() ==> (#[trigger] arguments@[i]).0.index == i
                    && old(self).mem()@.valid(arguments@[i].1@),
        ensures
            final(self).mem().wf(),
            final(self).mem()@.grown_from(old(self).mem()@),
            final(self).mem()@.functions == old(self).mem()@.functions,
            final(self).mem()@.cells.len() == old(self).mem()@.cells.len(),
            final(self).mem()@.depth() == old(self).mem()@.depth(),
            final(self).budget() == old(self).budget(),
            final(self).path() == old(self).path(),
            final(self).pending() == old(self).pending(),
            final(self).history() == old(self).history(),
            final(self).mem()@ == old(self).mem()@.store_all(
                pending_values(arguments@),
                arguments@.len(),
            ),
    {
        let ghost all = pending_values(arguments@);
        let mut arguments = arguments;
        let n = arguments.len();
        let mut i: usize = 0;
        while i < n
            invariant
                i <= n,
                n == arguments@.len(),
                n <= slots <= self.mem()@.depth(),
                self.mem().wf(),
                self.mem()@.grown_from(old(self).mem()@),
                self.mem()@.functions == old(self).mem()@.functions,
                self.mem()@.cells.len() == old(self).mem()@.cells.len(),
                self.mem()@.depth() == old(self).mem()@.depth(),
                self.budget() == old(self).budget(),
                self.path() == old(self).path(),
                self.pending() == old(self).pending(),
                self.history() == old(self).history(),
                all.len() == n,
                self.mem()@ == old(self).mem()@.store_all(all, i as nat),
                forall|j: int| i <= j < n ==> (#[trigger] arguments@[j]).1@ == all[j],
                forall|j: int|
                    i <= j < n ==> (#[trigger] arguments@[j]).0.index == j && self.mem()@.valid(
                        arguments@[j].1@,
                    ),
            decreases n - i,
        {
            let mut entry = (SlotIx { index: 0 }, Value::Nil);
            core::mem::swap(&mut entry, &mut arguments[i]);
            self.mem.store(entry.0, entry.1);
            i += 1;
        }
    }
}

} // verus!
