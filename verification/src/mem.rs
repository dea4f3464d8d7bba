//! The memory of a running program: the slot stack, the captured cells and
//! the shared containers.

use vstd::prelude::*;
use crate::dict::Dict;
use crate::program::{Block, FrameInfo, Scope, SlotIx};
use crate::source::SourcePos;
use crate::value::{views, ArrayRef, CellRef, DictRef, FunRef, Value, ValueView};

verus! {

/// The number of slots that a stack holds unless it is made with another
/// limit.
pub const DEFAULT_STACK_LIMIT: usize = 1_000_000;

/// A function defined by the program.
#[derive(Clone, Debug)]
pub struct UserFn {
    /// The number of parameters.
    pub params: u32,
    /// The layout of the frame.
    pub frame_info: &'static FrameInfo,
    /// The statements of the body.
    pub body: &'static Block,
    /// The captured cells, each with the slot of the frame that it becomes.
    pub context: Vec<(CellRef, SlotIx)>,
    /// Where the function was defined.
    pub pos: SourcePos,
}

/// A function implemented by the host.
#[derive(Clone, Copy, Debug)]
pub struct HostFn {
    /// The number of arguments that the function expects. The runtime does
    /// not hold calls to it.
    pub arity: u32,
    /// The number under which the host knows the function.
    pub id: u32,
}

/// A function object.
#[derive(Clone, Debug)]
pub enum Function {
    User(UserFn),
    Host(HostFn),
}

/// What a function of the program is, in contracts.
pub struct UserFnView {
    pub params: u32,
    pub frame_info: &'static FrameInfo,
    pub body: &'static Block,
    pub context: Seq<(CellRef, SlotIx)>,
    pub pos: SourcePos,
}

/// What a function object is, in contracts.
pub enum FunctionView {
    User(UserFnView),
    Host(HostFn),
}

impl View for UserFn {
    type V = UserFnView;

    open spec fn view(&self) -> UserFnView {
        UserFnView {
            params: self.params,
            frame_info: self.frame_info,
            body: self.body,
            context: self.context@,
            pos: self.pos,
        }
    }
}

impl View for Function {
    type V = FunctionView;

    open spec fn view(&self) -> FunctionView {
        match *self {
            Function::User(u) => FunctionView::User(u@),
            Function::Host(h) => FunctionView::Host(h),
        }
    }
}

impl UserFnView {
    /// The scope of the body.
    pub open spec fn scope(self, names: usize) -> Scope {
        Scope { names, slots: self.frame_info.slots, in_loop: false, in_function: true }
    }

    /// The frame holds the parameters, the captured cells and the receiver,
    /// and the body is well scoped in it.
    pub open spec fn wf(self, names: usize) -> bool {
        &&& self.params <= self.frame_info.slots
        &&& self.frame_info.self_slot matches Some(s) ==> s.index < self.frame_info.slots
        &&& forall|i: int|
            0 <= i < self.context.len() ==> (#[trigger] self.context[i]).1.index
                < self.frame_info.slots
        &&& self.body.wf(self.scope(names))
    }
}

/// A slot of the stack: it holds its value itself until a closure captures
/// it, and shares a cell with the closures from then on.
#[derive(Clone, Debug)]
pub enum Slot {
    Direct(Value),
    Shared(CellRef),
}

/// What a slot is, in contracts.
pub enum SlotView {
    Direct(ValueView),
    Shared(CellRef),
}

impl View for Slot {
    type V = SlotView;

    open spec fn view(&self) -> SlotView {
        match *self {
            Slot::Direct(v) => SlotView::Direct(v@),
            Slot::Shared(c) => SlotView::Shared(c),
        }
    }
}

/// What a memory holds, in contracts.
pub struct MemView {
    /// The slots of the stack, the newest last.
    pub slots: Seq<SlotView>,
    /// The most slots that the stack may hold.
    pub limit: nat,
    /// The captured cells, by handle.
    pub cells: Seq<ValueView>,
    /// The arrays, by handle.
    pub arrays: Seq<Seq<ValueView>>,
    /// The dictionaries, by handle.
    pub dicts: Seq<Map<ValueView, ValueView>>,
    /// The function objects, by handle.
    pub functions: Seq<FunctionView>,
}

impl MemView {
    /// A memory that holds nothing.
    pub open spec fn empty(limit: nat) -> MemView {
        MemView {
            slots: Seq::empty(),
            limit,
            cells: Seq::empty(),
            arrays: Seq::empty(),
            dicts: Seq::empty(),
            functions: Seq::empty(),
        }
    }

    /// Whether the handle in `v`, if it holds one, names a container of this
    /// memory.
    pub open spec fn valid(self, v: ValueView) -> bool {
        match v {
            ValueView::Array(r) => r.index < self.arrays.len(),
            ValueView::Dict(r) => r.index < self.dicts.len(),
            ValueView::Function(r) => r.index < self.functions.len(),
            _ => true,
        }
    }

    /// Whether what the slot `s` holds names something in this memory.
    pub open spec fn valid_slot(self, s: SlotView) -> bool {
        match s {
            SlotView::Direct(v) => self.valid(v),
            SlotView::Shared(c) => c.index < self.cells.len(),
        }
    }

    /// Whether every cell of `context` is a cell of this memory.
    pub open spec fn valid_context(self, context: Seq<(CellRef, SlotIx)>) -> bool {
        forall|i: int| 0 <= i < context.len() ==> (#[trigger] context[i]).0.index < self.cells.len()
    }

    /// Whether the cells that `f` captured are cells of this memory.
    pub open spec fn valid_function(self, f: FunctionView) -> bool {
        match f {
            FunctionView::User(u) => self.valid_context(u.context),
            FunctionView::Host(_) => true,
        }
    }

    /// The stack is within its limit, and every handle that the memory holds
    /// names something in it.
    pub open spec fn wf(self) -> bool {
        &&& self.slots.len() <= self.limit
        &&& forall|i: int| 0 <= i < self.slots.len() ==> self.valid_slot(#[trigger] self.slots[i])
        &&& forall|i: int| 0 <= i < self.cells.len() ==> self.valid(#[trigger] self.cells[i])
        &&& forall|a: int, i: int|
            0 <= a < self.arrays.len() && 0 <= i < self.arrays[a].len() ==> self.valid(
                #[trigger] self.arrays[a][i],
            )
        &&& forall|d: int, k: ValueView|
            0 <= d < self.dicts.len() && #[trigger] self.dicts[d].contains_key(k) ==> self.valid(k)
                && self.valid(self.dicts[d][k])
        &&& forall|f: int|
            0 <= f < self.functions.len() ==> self.valid_function(#[trigger] self.functions[f])
    }

    /// Every function of the program that the memory holds can be called:
    /// see `UserFn::wf`.
    pub open spec fn scoped(self, names: usize) -> bool {
        forall|f: int|
            0 <= f < self.functions.len() ==> (#[trigger] self.functions[f]
                matches FunctionView::User(u) ==> u.wf(names))
    }

    /// Nothing that `before` held has gone: the containers and cells are
    /// still there, and the function objects are the same.
    pub open spec fn grown_from(self, before: MemView) -> bool {
        &&& self.limit == before.limit
        &&& before.cells.len() <= self.cells.len()
        &&& before.arrays.len() <= self.arrays.len()
        &&& before.dicts.len() <= self.dicts.len()
        &&& before.functions.len() <= self.functions.len()
        &&& forall|f: int|
            0 <= f < before.functions.len() ==> #[trigger] self.functions[f] == before.functions[f]
    }

    /// The number of slots on the stack.
    pub open spec fn depth(self) -> nat {
        self.slots.len()
    }

    /// Whether the current frame can have a slot `ix`.
    pub open spec fn has(self, ix: SlotIx) -> bool {
        ix.index < self.slots.len()
    }

    /// Where on the stack the slot `ix` of the current frame is: slots are
    /// counted from the top of the stack.
    pub open spec fn at(self, ix: SlotIx) -> int {
        self.slots.len() - 1 - ix.index
    }

    /// The value of the slot `ix`.
    pub open spec fn fetch(self, ix: SlotIx) -> ValueView {
        match self.slots[self.at(ix)] {
            SlotView::Direct(v) => v,
            SlotView::Shared(c) => self.cells[c.index as int],
        }
    }

    /// The memory after `v` is stored in the slot `ix`: where the slot shares
    /// a cell, the cell gets the value.
    pub open spec fn store(self, ix: SlotIx, v: ValueView) -> MemView {
        match self.slots[self.at(ix)] {
            SlotView::Direct(_) => MemView {
                slots: self.slots.update(self.at(ix), SlotView::Direct(v)),
                ..self
            },
            SlotView::Shared(c) => MemView { cells: self.cells.update(c.index as int, v), ..self },
        }
    }

    /// The memory after `n` slots that hold nil are pushed.
    pub open spec fn extend(self, n: nat) -> MemView {
        MemView {
            slots: self.slots + Seq::new(n, |i: int| SlotView::Direct(ValueView::Nil)),
            ..self
        }
    }

    /// The memory after the `n` newest slots are popped.
    pub open spec fn shrink(self, n: nat) -> MemView {
        MemView { slots: self.slots.take(self.slots.len() - n), ..self }
    }

    /// The cell that capturing the slot `ix` gives: the cell that the slot
    /// shares, or a new one.
    pub open spec fn captured(self, ix: SlotIx) -> CellRef {
        match self.slots[self.at(ix)] {
            SlotView::Direct(_) => CellRef { index: self.cells.len() as usize },
            SlotView::Shared(c) => c,
        }
    }

    /// The memory after the slot `ix` is captured: a slot that held its value
    /// itself now shares a new cell, which holds that value.
    pub open spec fn capture(self, ix: SlotIx) -> MemView {
        match self.slots[self.at(ix)] {
            SlotView::Direct(v) => MemView {
                slots: self.slots.update(self.at(ix), SlotView::Shared(self.captured(ix))),
                cells: self.cells.push(v),
                ..self
            },
            SlotView::Shared(_) => self,
        }
    }

    /// The memory after the slot `ix` is made to share the cell `c`.
    pub open spec fn place(self, ix: SlotIx, c: CellRef) -> MemView {
        MemView { slots: self.slots.update(self.at(ix), SlotView::Shared(c)), ..self }
    }

    /// The memory after the first `n` cells of `context` are placed in their
    /// slots, in order.
    pub open spec fn place_all(self, context: Seq<(CellRef, SlotIx)>, n: nat) -> MemView
        decreases n,
    {
        if n == 0 {
            self
        } else {
            self.place_all(context, (n - 1) as nat).place(context[n - 1].1, context[n - 1].0)
        }
    }

    /// Whether `self` differs from `other` in what its slots hold at most.
    pub open spec fn same_heap(self, other: MemView) -> bool {
        &&& self.slots.len() == other.slots.len()
        &&& self.limit == other.limit
        &&& self.cells == other.cells
        &&& self.arrays == other.arrays
        &&& self.dicts == other.dicts
        &&& self.functions == other.functions
    }

    /// Placing cells changes slots only.
    proof fn lemma_place_all(self, context: Seq<(CellRef, SlotIx)>, n: nat)
        requires
            n <= context.len(),
            forall|i: int| 0 <= i < context.len() ==> self.has((#[trigger] context[i]).1),
        ensures
            self.place_all(context, n).same_heap(self),
        decreases n,
    {
        if n > 0 {
            self.lemma_place_all(context, (n - 1) as nat);
        }
    }

    /// The memory with one more array.
    pub open spec fn with_array(self, items: Seq<ValueView>) -> MemView {
        MemView { arrays: self.arrays.push(items), ..self }
    }

    /// The memory with one more dictionary.
    pub open spec fn with_dict(self, entries: Map<ValueView, ValueView>) -> MemView {
        MemView { dicts: self.dicts.push(entries), ..self }
    }

    /// The memory with one more function object.
    pub open spec fn with_function(self, f: FunctionView) -> MemView {
        MemView { functions: self.functions.push(f), ..self }
    }

    /// Whether the array `r` has an element at `ix`.
    pub open spec fn array_has(self, r: ArrayRef, ix: i64) -> bool {
        0 <= ix < self.arrays[r.index as int].len()
    }

    /// The memory after the element `ix` of the array `r` is set to `v`.
    pub open spec fn array_set(self, r: ArrayRef, ix: i64, v: ValueView) -> MemView {
        MemView {
            arrays: self.arrays.update(
                r.index as int,
                self.arrays[r.index as int].update(ix as int, v),
            ),
            ..self
        }
    }

    /// The memory after `v` is appended to the array `r`.
    pub open spec fn array_push(self, r: ArrayRef, v: ValueView) -> MemView {
        MemView {
            arrays: self.arrays.update(r.index as int, self.arrays[r.index as int].push(v)),
            ..self
        }
    }

    /// The memory after `v` is stored under `k` in the dictionary `r`.
    pub open spec fn dict_insert(self, r: DictRef, k: ValueView, v: ValueView) -> MemView {
        MemView {
            dicts: self.dicts.update(r.index as int, self.dicts[r.index as int].insert(k, v)),
            ..self
        }
    }
}

/// Two views with the same parts are the same view.
proof fn lemma_same(a: MemView, b: MemView)
    requires
        a.slots =~= b.slots,
        a.limit == b.limit,
        a.cells =~= b.cells,
        a.arrays =~~= b.arrays,
        a.dicts =~~= b.dicts,
        a.functions =~= b.functions,
    ensures
        a == b,
{
}

/// The stack did not have room for a frame.
#[derive(Clone, Copy, Debug, PartialEq, Eq, Structural)]
pub struct Overflow;

/// The memory of a running program.
///
/// The stack is one sequence of slots; a frame is the run of slots on top of
/// it, and the slot `i` of the current frame is the `i`-th from the top.
/// Arrays, dictionaries, function objects and captured cells live beside the
/// stack and are named by handles. Nothing is freed while the memory lives,
/// so a handle stays good, and every holder of a handle sees the same
/// container.
pub struct Memory {
    slots: Vec<Slot>,
    limit: usize,
    cells: Vec<Value>,
    arrays: Vec<Vec<Value>>,
    dicts: Vec<Dict>,
    functions: Vec<Function>,
}

impl View for Memory {
    type V = MemView;

    closed spec fn view(&self) -> MemView {
        MemView {
            slots: Seq::new(self.slots@.len(), |i: int| self.slots@[i]@),
            limit: self.limit as nat,
            cells: views(self.cells@),
            arrays: Seq::new(self.arrays@.len(), |i: int| views(self.arrays@[i]@)),
            dicts: Seq::new(self.dicts@.len(), |i: int| self.dicts@[i]@),
            functions: Seq::new(self.functions@.len(), |i: int| self.functions@[i]@),
        }
    }
}

impl Memory {
    /// The parts that the view does not show are in order.
    pub closed spec fn sound(&self) -> bool {
        forall|i: int| 0 <= i < self.dicts@.len() ==> (#[trigger] self.dicts@[i]).wf()
    }

    /// The memory is well formed: see `MemView::wf`.
    pub open spec fn wf(&self) -> bool {
        self.sound() && self@.wf()
    }

    /// An empty memory whose stack holds at most `limit` slots.
    pub fn new(limit: usize) -> (r: Memory)
        ensures
            r.wf(),
            r@ == MemView::empty(limit as nat),
    {
        let r = Memory {
            slots: Vec::new(),
            limit,
            cells: Vec::new(),
            arrays: Vec::new(),
            dicts: Vec::new(),
            functions: Vec::new(),
        };
        proof {
            lemma_same(r@, MemView::empty(limit as nat));
        }
        r
    }

    /// The number of slots on the stack.
    pub fn depth(&self) -> (n: usize)
        ensures
            n == self@.depth(),
    {
        self.slots.len()
    }

    /// The most slots that the stack may hold.
    pub fn limit(&self) -> (n: usize)
        ensures
            n == self@.limit,
    {
        self.limit
    }

    /// Whether the stack holds no slot.
    pub fn is_empty(&self) -> (r: bool)
        ensures
            r == (self@.depth() == 0),
    {
        self.slots.len() == 0
    }

    /// Pushes a frame of `n` slots that hold nil, if the stack has room for
    /// it, and leaves the memory as it is otherwise.
    pub fn extend(&mut self, n: u32) -> (r: Result<(), Overflow>)
        requires
            old(self).wf(),
        ensures
            final(self).wf(),
            r is Ok <==> old(self)@.depth() + n <= old(self)@.limit,
            r is Ok ==> final(self)@ == old(self)@.extend(n as nat),
            r is Err ==> final(self)@ == old(self)@,
    {
        let depth = self.slots.len();
        if self.limit - depth < n as usize {
            return Err(Overflow);
        }
        let mut i: u32 = 0;
        while i < n
            invariant
                i <= n,
                depth + n <= self.limit,
                self.sound(),
                self@ == old(self)@.extend(i as nat),
            decreases n - i,
        {
            let ghost before = self@;
            self.slots.push(Slot::Direct(Value::Nil));
            i += 1;
            proof {
                assert(self@.slots =~= before.slots.push(SlotView::Direct(ValueView::Nil)));
                assert(before.slots.push(SlotView::Direct(ValueView::Nil)) =~= old(
                    self,
                )@.extend(i as nat).slots);
                lemma_same(self@, old(self)@.extend(i as nat));
            }
        }
        Ok(())
    }

    /// Pops the `n` newest slots.
    pub fn shrink(&mut self, n: u32)
        requires
            old(self).wf(),
            n <= old(self)@.depth(),
        ensures
            final(self).wf(),
            final(self)@ == old(self)@.shrink(n as nat),
    {
        let target = self.slots.len() - n as usize;
        self.slots.truncate(target);
        proof {
            lemma_same(self@, old(self)@.shrink(n as nat));
        }
    }

    /// A copy of the value of the slot `ix` of the current frame.
    pub fn fetch(&self, ix: SlotIx) -> (r: Value)
        requires
            self.wf(),
            self@.has(ix),
        ensures
            r@ == self@.fetch(ix),
            self@.valid(r@),
    {
        let at = self.slots.len() - 1 - ix.index as usize;
        assert(self@.valid_slot(self@.slots[at as int]));
        match &self.slots[at] {
            Slot::Direct(v) => v.copy(),
            Slot::Shared(c) => {
                assert(self@.valid(self@.cells[c.index as int]));
                self.cells[c.index].copy()
            },
        }
    }

    /// Stores `value` in the slot `ix` of the current frame.
    pub fn store(&mut self, ix: SlotIx, value: Value)
        requires
            old(self).wf(),
            old(self)@.has(ix),
            old(self)@.valid(value@),
        ensures
            final(self).wf(),
            final(self)@ == old(self)@.store(ix, value@),
    {
        let at = self.slots.len() - 1 - ix.index as usize;
        assert(self@.valid_slot(self@.slots[at as int]));
        let shared = match &self.slots[at] {
            Slot::Direct(_) => None,
            Slot::Shared(c) => Some(*c),
        };
        match shared {
            None => {
                self.slots[at] = Slot::Direct(value);
            },
            Some(c) => {
                self.cells[c.index] = value;
            },
        }
        proof {
            lemma_same(self@, old(self)@.store(ix, value@));
        }
    }

    /// Captures the slot `ix` of the current frame: gives the cell that
    /// stands for the slot from now on, also after its frame has gone.
    pub fn capture(&mut self, ix: SlotIx) -> (r: CellRef)
        requires
            old(self).wf(),
            old(self)@.has(ix),
        ensures
            final(self).wf(),
            final(self)@ == old(self)@.capture(ix),
            r == old(self)@.captured(ix),
            r.index < final(self)@.cells.len(),
    {
        let at = self.slots.len() - 1 - ix.index as usize;
        assert(self@.valid_slot(self@.slots[at as int]));
        let shared = match &self.slots[at] {
            Slot::Direct(v) => Err(v.copy()),
            Slot::Shared(c) => Ok(*c),
        };
        match shared {
            Ok(c) => c,
            Err(v) => {
                let c = CellRef { index: self.cells.len() };
                self.cells.push(v);
                self.slots[at] = Slot::Shared(c);
                proof {
            lemma_same(self@, old(self)@.capture(ix));
        }
                c
            },
        }
    }

    /// Makes the slot `ix` of the current frame share the cell `cell`.
    pub fn place(&mut self, ix: SlotIx, cell: CellRef)
        requires
            old(self).wf(),
            old(self)@.has(ix),
            cell.index < old(self)@.cells.len(),
        ensures
            final(self).wf(),
            final(self)@ == old(self)@.place(ix, cell),
    {
        let at = self.slots.len() - 1 - ix.index as usize;
        self.slots[at] = Slot::Shared(cell);
        proof {
            lemma_same(self@, old(self)@.place(ix, cell));
        }
    }

    /// Puts a new array with the elements `items` into the memory and gives
    /// its handle.
    pub fn alloc_array(&mut self, items: Vec<Value>) -> (r: ArrayRef)
        requires
            old(self).wf(),
            forall|i: int| 0 <= i < items@.len() ==> old(self)@.valid(#[trigger] items@[i]@),
        ensures
            final(self).wf(),
            final(self)@ == old(self)@.with_array(views(items@)),
            r.index == old(self)@.arrays.len(),
    {
        let r = ArrayRef { index: self.arrays.len() };
        let ghost elements = views(items@);
        self.arrays.push(items);
        proof {
            assert(self@.arrays =~~= old(self)@.arrays.push(elements));
            lemma_same(self@, old(self)@.with_array(elements));
            assert forall|i: int| 0 <= i < elements.len() implies old(self)@.valid(
                #[trigger] elements[i],
            ) by {
                assert(elements[i] == items@[i]@);
            }
            old(self)@.lemma_with_array(elements);
        }
        r
    }

    /// The length of the array `r`.
    pub fn array_len(&self, r: ArrayRef) -> (n: usize)
        requires
            r.index < self@.arrays.len(),
        ensures
            n == self@.arrays[r.index as int].len(),
    {
        self.arrays[r.index].len()
    }

    /// A copy of the element `ix` of the array `r`, if the array has one.
    pub fn array_index(&self, r: ArrayRef, ix: i64) -> (v: Option<Value>)
        requires
            self.wf(),
            r.index < self@.arrays.len(),
        ensures
            v is Some <==> self@.array_has(r, ix),
            v matches Some(e) ==> e@ == self@.arrays[r.index as int][ix as int] && self@.valid(e@),
    {
        let array = &self.arrays[r.index];
        if ix < 0 {
            return None;
        }
        if ix as u64 >= array.len() as u64 {
            return None;
        }
        assert(self@.valid(self@.arrays[r.index as int][ix as int]));
        Some(array[ix as usize].copy())
    }

    /// Sets the element `ix` of the array `r` to `value`, if the array has
    /// such an element, and says whether it had.
    pub fn array_set(&mut self, r: ArrayRef, ix: i64, value: Value) -> (done: bool)
        requires
            old(self).wf(),
            r.index < old(self)@.arrays.len(),
            old(self)@.valid(value@),
        ensures
            final(self).wf(),
            done == old(self)@.array_has(r, ix),
            done ==> final(self)@ == old(self)@.array_set(r, ix, value@),
            !done ==> final(self)@ == old(self)@,
    {
        if ix < 0 {
            return false;
        }
        if ix as u64 >= self.arrays[r.index].len() as u64 {
            return false;
        }
        let mut array: Vec<Value> = Vec::new();
        core::mem::swap(&mut array, &mut self.arrays[r.index]);
        array[ix as usize] = value;
        self.arrays[r.index] = array;
        proof {
            assert(self@.arrays =~~= old(self)@.array_set(r, ix, value@).arrays);
            lemma_same(self@, old(self)@.array_set(r, ix, value@));
            old(self)@.lemma_array_change(
                r,
                old(self)@.arrays[r.index as int].update(ix as int, value@),
            );
        }
        true
    }

    /// Appends `value` to the array `r`.
    pub fn array_push(&mut self, r: ArrayRef, value: Value)
        requires
            old(self).wf(),
            r.index < old(self)@.arrays.len(),
            old(self)@.valid(value@),
        ensures
            final(self).wf(),
            final(self)@ == old(self)@.array_push(r, value@),
    {
        let mut array: Vec<Value> = Vec::new();
        core::mem::swap(&mut array, &mut self.arrays[r.index]);
        array.push(value);
        self.arrays[r.index] = array;
        proof {
            assert(self@.arrays =~~= old(self)@.array_push(r, value@).arrays);
            lemma_same(self@, old(self)@.array_push(r, value@));
            old(self)@.lemma_array_change(r, old(self)@.arrays[r.index as int].push(value@));
        }
    }

    /// Puts the dictionary `dict` into the memory and gives its handle.
    pub fn alloc_dict(&mut self, dict: Dict) -> (r: DictRef)
        requires
            old(self).wf(),
            dict.wf(),
            forall|k: ValueView| #[trigger]
                dict@.contains_key(k) ==> old(self)@.valid(k) && old(self)@.valid(dict@[k]),
        ensures
            final(self).wf(),
            final(self)@ == old(self)@.with_dict(dict@),
            r.index == old(self)@.dicts.len(),
    {
        let r = DictRef { index: self.dicts.len() };
        let ghost entries = dict@;
        self.dicts.push(dict);
        proof {
            assert(self@.dicts =~~= old(self)@.dicts.push(entries));
            lemma_same(self@, old(self)@.with_dict(entries));
            old(self)@.lemma_with_dict(entries);
        }
        r
    }

    /// A copy of what the dictionary `r` holds under `key`, if it holds
    /// anything there.
    pub fn dict_get(&self, r: DictRef, key: &Value) -> (v: Option<Value>)
        requires
            self.wf(),
            r.index < self@.dicts.len(),
        ensures
            v is Some <==> self@.dicts[r.index as int].contains_key(key@),
            v matches Some(e) ==> e@ == self@.dicts[r.index as int][key@] && self@.valid(e@),
    {
        assert(self.dicts@[r.index as int].wf());
        self.dicts[r.index].get(key)
    }

    /// The number of entries of the dictionary `r`.
    pub fn dict_len(&self, r: DictRef) -> (n: usize)
        requires
            self.wf(),
            r.index < self@.dicts.len(),
        ensures
            n == self@.dicts[r.index as int].dom().len(),
    {
        assert(self.dicts@[r.index as int].wf());
        self.dicts[r.index].len()
    }

    /// Stores `value` under `key` in the dictionary `r`, in place of what it
    /// held under an equal key.
    pub fn dict_insert(&mut self, r: DictRef, key: Value, value: Value)
        requires
            old(self).wf(),
            r.index < old(self)@.dicts.len(),
            old(self)@.valid(key@),
            old(self)@.valid(value@),
        ensures
            final(self).wf(),
            final(self)@ == old(self)@.dict_insert(r, key@, value@),
    {
        assert(self.dicts@[r.index as int].wf());
        let mut dict = Dict::new();
        core::mem::swap(&mut dict, &mut self.dicts[r.index]);
        dict.insert(key, value);
        self.dicts[r.index] = dict;
        proof {
            assert(self@.dicts =~~= old(self)@.dict_insert(r, key@, value@).dicts);
            lemma_same(self@, old(self)@.dict_insert(r, key@, value@));
            old(self)@.lemma_dict_insert(r, key@, value@);
            assert forall|i: int| 0 <= i < self.dicts@.len() implies (
            #[trigger] self.dicts@[i]).wf() by {
                if i != r.index {
                    assert(old(self).dicts@[i].wf());
                }
            }
        }
    }

    /// Puts the function object `f` into the memory and gives its handle.
    pub fn alloc_function(&mut self, f: Function) -> (r: FunRef)
        requires
            old(self).wf(),
            old(self)@.valid_function(f@),
        ensures
            final(self).wf(),
            final(self)@ == old(self)@.with_function(f@),
            r.index == old(self)@.functions.len(),
    {
        let r = FunRef { index: self.functions.len() };
        let ghost object = f@;
        self.functions.push(f);
        proof {
            assert(self@.functions =~= old(self)@.functions.push(object));
            lemma_same(self@, old(self)@.with_function(object));
            old(self)@.lemma_with_function(object);
        }
        r
    }

    /// The function object `r`.
    pub fn function(&self, r: FunRef) -> (f: &Function)
        requires
            r.index < self@.functions.len(),
        ensures
            f@ == self@.functions[r.index as int],
    {
        &self.functions[r.index]
    }

    /// Places the captured cells of the function `r` in the slots of the
    /// current frame that its context names.
    pub fn place_context(&mut self, r: FunRef)
        requires
            old(self).wf(),
            r.index < old(self)@.functions.len(),
            old(self)@.functions[r.index as int] matches FunctionView::User(u) && forall|i: int|
                0 <= i < u.context.len() ==> old(self)@.has((#[trigger] u.context[i]).1),
        ensures
            final(self).wf(),
            old(self)@.functions[r.index as int] matches FunctionView::User(u) && final(self)@
                == old(self)@.place_all(u.context, u.context.len()),
            final(self)@.same_heap(old(self)@),
    {
        proof {
            let u = self@.functions[r.index as int]->User_0;
            self@.lemma_place_all(u.context, u.context.len());
        }
        let ghost context = self@.functions[r.index as int]->User_0.context;
        assert(self@.valid_function(self@.functions[r.index as int]));
        assert(self@.functions[r.index as int] == self.functions@[r.index as int]@);
        let n = match &self.functions[r.index] {
            Function::User(u) => u.context.len(),
            Function::Host(_) => 0,
        };
        let mut i: usize = 0;
        while i < n
            invariant
                i <= n,
                n == context.len(),
                self.wf(),
                r.index < self@.functions.len(),
                self@.functions[r.index as int] matches FunctionView::User(u) && u.context
                    == context,
                self@.depth() == old(self)@.depth(),
                self@.cells.len() == old(self)@.cells.len(),
                old(self)@.valid_context(context),
                forall|j: int| 0 <= j < context.len() ==> old(self)@.has((#[trigger] context[j]).1),
                self@ == old(self)@.place_all(context, i as nat),
            decreases n - i,
        {
            assert(self@.functions[r.index as int] == self.functions@[r.index as int]@);
            let entry = match &self.functions[r.index] {
                Function::User(u) => Some(u.context[i]),
                Function::Host(_) => None,
            };
            match entry {
                Some((cell, ix)) => {
                    assert(context[i as int] == (cell, ix));
                    self.place(ix, cell);
                },
                None => {},
            }
            i += 1;
        }
    }
}

impl MemView {
    /// A memory that holds what a well formed one holds, and besides that
    /// containers of values of its own and function objects with cells of
    /// its own, is well formed.
    pub proof fn lemma_grown(self, after: MemView)
        requires
            self.wf(),
            after.slots == self.slots,
            after.limit == self.limit,
            after.cells == self.cells,
            self.arrays.is_prefix_of(after.arrays),
            self.dicts.is_prefix_of(after.dicts),
            self.functions.is_prefix_of(after.functions),
            forall|a: int, i: int|
                self.arrays.len() <= a < after.arrays.len() && 0 <= i < after.arrays[a].len()
                    ==> after.valid(#[trigger] after.arrays[a][i]),
            forall|d: int, k: ValueView|
                self.dicts.len() <= d < after.dicts.len() && #[trigger] after.dicts[d].contains_key(
                    k,
                ) ==> after.valid(k) && after.valid(after.dicts[d][k]),
            forall|f: int|
                self.functions.len() <= f < after.functions.len() ==> after.valid_function(
                    #[trigger] after.functions[f],
                ),
        ensures
            after.wf(),
            after.grown_from(self),
    {
        assert forall|i: int| 0 <= i < after.slots.len() implies after.valid_slot(
            #[trigger] after.slots[i],
        ) by {
            assert(self.valid_slot(self.slots[i]));
        }
        assert forall|i: int| 0 <= i < after.cells.len() implies after.valid(
            #[trigger] after.cells[i],
        ) by {
            assert(self.valid(self.cells[i]));
        }
        assert forall|a: int, i: int|
            0 <= a < after.arrays.len() && 0 <= i < after.arrays[a].len() implies after.valid(
            #[trigger] after.arrays[a][i],
        ) by {
            if a < self.arrays.len() {
                assert(after.arrays[a] == self.arrays[a]);
                assert(self.valid(self.arrays[a][i]));
            }
        }
        assert forall|d: int, k: ValueView|
            0 <= d < after.dicts.len() && #[trigger] after.dicts[d].contains_key(
                k,
            ) implies after.valid(k) && after.valid(after.dicts[d][k]) by {
            if d < self.dicts.len() {
                assert(after.dicts[d] == self.dicts[d]);
                assert(self.dicts[d].contains_key(k));
            }
        }
        assert forall|f: int| 0 <= f < after.functions.len() implies after.valid_function(
            #[trigger] after.functions[f],
        ) by {
            if f < self.functions.len() {
                assert(after.functions[f] == self.functions[f]);
                assert(self.valid_function(self.functions[f]));
            }
        }
        assert forall|f: int| 0 <= f < self.functions.len() implies #[trigger] after.functions[f]
            == self.functions[f] by {}
    }

    /// A new array of values of the memory keeps it well formed.
    pub proof fn lemma_with_array(self, items: Seq<ValueView>)
        requires
            self.wf(),
            forall|i: int| 0 <= i < items.len() ==> self.valid(#[trigger] items[i]),
        ensures
            self.with_array(items).wf(),
    {
        self.lemma_grown(self.with_array(items));
    }

    /// A new dictionary of values of the memory keeps it well formed.
    pub proof fn lemma_with_dict(self, entries: Map<ValueView, ValueView>)
        requires
            self.wf(),
            forall|k: ValueView| #[trigger]
                entries.contains_key(k) ==> self.valid(k) && self.valid(entries[k]),
        ensures
            self.with_dict(entries).wf(),
    {
        self.lemma_grown(self.with_dict(entries));
    }

    /// A new function object with cells of the memory keeps it well formed.
    pub proof fn lemma_with_function(self, f: FunctionView)
        requires
            self.wf(),
            self.valid_function(f),
        ensures
            self.with_function(f).wf(),
    {
        self.lemma_grown(self.with_function(f));
    }

    /// Replacing an array by one of values of the memory keeps it well
    /// formed.
    pub proof fn lemma_array_change(self, r: ArrayRef, items: Seq<ValueView>)
        requires
            self.wf(),
            r.index < self.arrays.len(),
            forall|i: int| 0 <= i < items.len() ==> self.valid(#[trigger] items[i]),
        ensures
            (MemView { arrays: self.arrays.update(r.index as int, items), ..self }).wf(),
    {
        let after = MemView { arrays: self.arrays.update(r.index as int, items), ..self };
        assert forall|a: int, i: int|
            0 <= a < after.arrays.len() && 0 <= i < after.arrays[a].len() implies after.valid(
            #[trigger] after.arrays[a][i],
        ) by {
            if a != r.index {
                assert(self.valid(self.arrays[a][i]));
            }
        }
        self.lemma_heap_change(after);
    }

    /// Storing a value of the memory in a dictionary, under a key of the
    /// memory, keeps it well formed.
    pub proof fn lemma_dict_insert(self, r: DictRef, key: ValueView, value: ValueView)
        requires
            self.wf(),
            r.index < self.dicts.len(),
            self.valid(key),
            self.valid(value),
        ensures
            self.dict_insert(r, key, value).wf(),
    {
        let after = self.dict_insert(r, key, value);
        assert forall|d: int, k: ValueView|
            0 <= d < after.dicts.len() && #[trigger] after.dicts[d].contains_key(
                k,
            ) implies after.valid(k) && after.valid(after.dicts[d][k]) by {
            if d != r.index || k != key {
                assert(self.dicts[d].contains_key(k));
            }
        }
        self.lemma_heap_change(after);
    }

    /// A memory that differs from a well formed one in what its arrays and
    /// dictionaries hold, and holds values of its own there, is well formed.
    proof fn lemma_heap_change(self, after: MemView)
        requires
            self.wf(),
            after.slots == self.slots,
            after.limit == self.limit,
            after.cells == self.cells,
            after.functions == self.functions,
            after.arrays.len() == self.arrays.len(),
            after.dicts.len() == self.dicts.len(),
            forall|a: int, i: int|
                0 <= a < after.arrays.len() && 0 <= i < after.arrays[a].len() ==> after.valid(
                    #[trigger] after.arrays[a][i],
                ),
            forall|d: int, k: ValueView|
                0 <= d < after.dicts.len() && #[trigger] after.dicts[d].contains_key(k)
                    ==> after.valid(k) && after.valid(after.dicts[d][k]),
        ensures
            after.wf(),
    {
        assert forall|i: int| 0 <= i < after.slots.len() implies after.valid_slot(
            #[trigger] after.slots[i],
        ) by {
            assert(self.valid_slot(self.slots[i]));
        }
        assert forall|i: int| 0 <= i < after.cells.len() implies after.valid(
            #[trigger] after.cells[i],
        ) by {
            assert(self.valid(self.cells[i]));
        }
        assert forall|f: int| 0 <= f < after.functions.len() implies after.valid_function(
            #[trigger] after.functions[f],
        ) by {
            assert(self.valid_function(self.functions[f]));
        }
    }
}

} // verus!
