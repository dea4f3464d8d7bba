//! The resolved program tree that the runtime executes, and what it takes for
//! such a tree to be well scoped.

use vstd::prelude::*;
use crate::source::Pos;
use crate::symbol::{Interner, Symbol};
use crate::value::Float;

verus! {

broadcast use vstd::std_specs::vec::axiom_vec_index_decreases;

/// The index of a slot in the current frame.
#[derive(Clone, Copy, Debug, PartialEq, Eq, Structural)]
pub struct SlotIx {
    pub index: u32,
}

/// A variable that a function closes over: the slot `from` of the frame in
/// which the function literal is evaluated becomes the slot `to` of the
/// function's own frame.
#[derive(Clone, Copy, Debug, PartialEq, Eq, Structural)]
pub struct Capture {
    pub from: SlotIx,
    pub to: SlotIx,
}

/// The layout of a function's frame.
#[derive(Debug)]
pub struct FrameInfo {
    /// How many slots the frame has.
    pub slots: u32,
    /// The captured variables.
    pub captures: Vec<Capture>,
    /// The slot that receives the object a method was looked up on.
    pub self_slot: Option<SlotIx>,
}

/// A sequence of statements.
#[derive(Debug)]
pub struct Block(pub Vec<Statement>);

/// A literal.
#[derive(Debug)]
pub enum Literal {
    Nil,
    Bool(bool),
    Int(i64),
    Float(Float),
    Byte(u8),
    String(Vec<u8>),
    Array(Vec<Expr>),
    Dict(Vec<(Symbol, Expr)>),
    Function { params: u32, frame_info: FrameInfo, body: Block },
    /// The name of an identifier, as a string.
    Identifier(Symbol),
}

/// The unary operators.
#[derive(Clone, Copy, Debug, PartialEq, Eq, Structural)]
pub enum UnaryOp {
    Minus,
    Not,
}

/// The binary operators.
#[derive(Clone, Copy, Debug, PartialEq, Eq, Structural)]
pub enum BinaryOp {
    Plus,
    Minus,
    Times,
    Div,
    Mod,
    Equals,
    NotEquals,
    Greater,
    GreaterEquals,
    Lower,
    LowerEquals,
    And,
    Or,
    Concat,
}

/// An expression. Every variant records where it stands in the source.
#[derive(Debug)]
pub enum Expr {
    Identifier { slot_ix: SlotIx, pos: Pos },
    Literal { literal: Literal, pos: Pos },
    UnaryOp { op: UnaryOp, operand: Box<Expr>, pos: Pos },
    BinaryOp { left: Box<Expr>, op: BinaryOp, right: Box<Expr>, pos: Pos },
    If { condition: Box<Expr>, then: Block, otherwise: Block, pos: Pos },
    Access { object: Box<Expr>, field: Box<Expr>, pos: Pos },
    Call { function: Box<Expr>, args: Vec<Expr>, pos: Pos },
    /// A block of shell commands. The runtime does not execute these: a
    /// program that holds one is not well scoped.
    CommandBlock { pos: Pos },
}

/// The target of an assignment: a variable, or an element of a container.
#[derive(Debug)]
pub enum Lvalue {
    Identifier { slot_ix: SlotIx, pos: Pos },
    Access { object: Box<Expr>, field: Box<Expr>, pos: Pos },
}

/// A statement.
#[derive(Debug)]
pub enum Statement {
    Assign { left: Lvalue, right: Expr },
    Return { expr: Expr },
    Break,
    While { condition: Expr, block: Block },
    For { slot_ix: SlotIx, expr: Expr, block: Block },
    Expr(Expr),
}

/// A program: the statements of its top level and the number of slots that
/// its global variables take.
#[derive(Debug)]
pub struct Program {
    pub source: &'static str,
    pub statements: Block,
    pub root_slots: u32,
}

/// Where in a program a node stands, as far as its scoping goes.
#[derive(Clone, Copy, Debug, PartialEq, Eq, Structural)]
pub struct Scope {
    /// How many symbols the interner resolves.
    pub names: usize,
    /// How many slots the enclosing frame has.
    pub slots: u32,
    /// Whether the node stands in the body of a loop.
    pub in_loop: bool,
    /// Whether the node stands in the body of a function.
    pub in_function: bool,
}

impl Scope {
    /// The scope of the body of a loop that stands in this scope.
    pub open spec fn looping(self) -> Scope {
        Scope { in_loop: true, ..self }
    }

    /// The scope of the body of a function with `slots` slots, defined in
    /// this scope.
    pub open spec fn function(self, slots: u32) -> Scope {
        Scope { names: self.names, slots, in_loop: false, in_function: true }
    }

    /// The scope of the top level of a program with `slots` global slots.
    pub open spec fn root(names: usize, slots: u32) -> Scope {
        Scope { names, slots, in_loop: false, in_function: false }
    }

    /// Computes `looping`.
    pub fn enter_loop(self) -> (r: Scope)
        ensures
            r == self.looping(),
    {
        Scope { names: self.names, slots: self.slots, in_loop: true, in_function: self.in_function }
    }

    /// Computes `function`.
    pub fn enter_function(self, slots: u32) -> (r: Scope)
        ensures
            r == self.function(slots),
    {
        Scope { names: self.names, slots, in_loop: false, in_function: true }
    }
}

impl FrameInfo {
    /// The frame holds the `params` parameters, the captured variables and
    /// the receiver, and every captured variable exists in the scope `outer`
    /// in which the function is defined.
    pub open spec fn wf(&self, params: u32, outer: Scope) -> bool {
        &&& params <= self.slots
        &&& self.self_slot matches Some(s) ==> s.index < self.slots
        &&& forall|i: int|
            0 <= i < self.captures@.len() ==> (#[trigger] self.captures@[i]).from.index
                < outer.slots && self.captures@[i].to.index < self.slots
    }

    /// Tests `wf`.
    pub fn check(&self, params: u32, outer: Scope) -> (r: bool)
        ensures
            r == self.wf(params, outer),
    {
        if params > self.slots {
            return false;
        }
        match self.self_slot {
            Some(s) => {
                if s.index >= self.slots {
                    return false;
                }
            },
            None => {},
        }
        let mut i: usize = 0;
        while i < self.captures.len()
            invariant
                i <= self.captures@.len(),
                forall|j: int|
                    0 <= j < i ==> (#[trigger] self.captures@[j]).from.index < outer.slots
                        && self.captures@[j].to.index < self.slots,
            decreases self.captures@.len() - i,
        {
            let c = self.captures[i];
            if c.from.index >= outer.slots || c.to.index >= self.slots {
                return false;
            }
            i += 1;
        }
        true
    }
}

impl Literal {
    /// Every symbol resolves, every slot exists, and every function literal
    /// has a frame that fits it and a well scoped body.
    pub open spec fn wf(&self, scope: Scope) -> bool
        decreases self,
    {
        match self {
            Literal::Array(items) => forall|i: int|
                0 <= i < items.len() ==> (#[trigger] items[i]).wf(scope),
            Literal::Dict(items) => forall|i: int|
                0 <= i < items.len() ==> (#[trigger] items[i]).0.index < scope.names
                    && items[i].1.wf(scope),
            Literal::Function { params, frame_info, body } => frame_info.wf(*params, scope)
                && body.wf(scope.function(frame_info.slots)),
            Literal::Identifier(symbol) => symbol.index < scope.names,
            _ => true,
        }
    }

    /// Tests `wf`.
    pub fn check(&self, scope: Scope) -> (r: bool)
        ensures
            r == self.wf(scope),
        decreases self,
    {
        match self {
            Literal::Array(items) => {
                let mut i: usize = 0;
                while i < items.len()
                    invariant
                        self matches Literal::Array(v) && v == items,
                        i <= items.len(),
                        forall|j: int| 0 <= j < i ==> (#[trigger] items[j]).wf(scope),
                    decreases items.len() - i,
                {
                    if !items[i].check(scope) {
                        return false;
                    }
                    i += 1;
                }
                true
            },
            Literal::Dict(items) => {
                let mut i: usize = 0;
                while i < items.len()
                    invariant
                        self matches Literal::Dict(v) && v == items,
                        i <= items.len(),
                        forall|j: int|
                            0 <= j < i ==> (#[trigger] items[j]).0.index < scope.names
                                && items[j].1.wf(scope),
                    decreases items.len() - i,
                {
                    if items[i].0.index as usize >= scope.names || !items[i].1.check(scope) {
                        return false;
                    }
                    i += 1;
                }
                true
            },
            Literal::Function { params, frame_info, body } => frame_info.check(*params, scope)
                && body.check(scope.enter_function(frame_info.slots)),
            Literal::Identifier(symbol) => (symbol.index as usize) < scope.names,
            _ => true,
        }
    }
}

impl Expr {
    /// The position of the expression.
    pub open spec fn pos(&self) -> Pos {
        match self {
            Expr::Identifier { pos, .. } => *pos,
            Expr::Literal { pos, .. } => *pos,
            Expr::UnaryOp { pos, .. } => *pos,
            Expr::BinaryOp { pos, .. } => *pos,
            Expr::If { pos, .. } => *pos,
            Expr::Access { pos, .. } => *pos,
            Expr::Call { pos, .. } => *pos,
            Expr::CommandBlock { pos } => *pos,
        }
    }

    /// The expression is well scoped: its slots exist in the frame, its
    /// symbols resolve, a call has no more arguments than slots can be
    /// numbered, and there is no command block.
    pub open spec fn wf(&self, scope: Scope) -> bool
        decreases self,
    {
        match self {
            Expr::Identifier { slot_ix, .. } => slot_ix.index < scope.slots,
            Expr::Literal { literal, .. } => literal.wf(scope),
            Expr::UnaryOp { operand, .. } => operand.wf(scope),
            Expr::BinaryOp { left, right, .. } => left.wf(scope) && right.wf(scope),
            Expr::If { condition, then, otherwise, .. } => condition.wf(scope) && then.wf(scope)
                && otherwise.wf(scope),
            Expr::Access { object, field, .. } => object.wf(scope) && field.wf(scope),
            Expr::Call { function, args, .. } => function.wf(scope) && args.len() <= u32::MAX
                && forall|i: int| 0 <= i < args.len() ==> (#[trigger] args[i]).wf(scope),
            Expr::CommandBlock { .. } => false,
        }
    }

    /// Tests `wf`.
    pub fn check(&self, scope: Scope) -> (r: bool)
        ensures
            r == self.wf(scope),
        decreases self,
    {
        match self {
            Expr::Identifier { slot_ix, .. } => slot_ix.index < scope.slots,
            Expr::Literal { literal, .. } => literal.check(scope),
            Expr::UnaryOp { operand, .. } => operand.check(scope),
            Expr::BinaryOp { left, right, .. } => left.check(scope) && right.check(scope),
            Expr::If { condition, then, otherwise, .. } => condition.check(scope) && then.check(
                scope,
            ) && otherwise.check(scope),
            Expr::Access { object, field, .. } => object.check(scope) && field.check(scope),
            Expr::Call { function, args, .. } => {
                if !function.check(scope) || args.len() > u32::MAX as usize {
                    return false;
                }
                let mut i: usize = 0;
                while i < args.len()
                    invariant
                        self matches Expr::Call { args: v, function: f, .. } && v == args && f.wf(
                            scope,
                        ),
                        i <= args.len(),
                        forall|j: int| 0 <= j < i ==> (#[trigger] args[j]).wf(scope),
                    decreases args.len() - i,
                {
                    if !args[i].check(scope) {
                        return false;
                    }
                    i += 1;
                }
                true
            },
            Expr::CommandBlock { .. } => false,
        }
    }
}

impl Lvalue {
    /// The target of an assignment is well scoped.
    pub open spec fn wf(&self, scope: Scope) -> bool
        decreases self,
    {
        match self {
            Lvalue::Identifier { slot_ix, .. } => slot_ix.index < scope.slots,
            Lvalue::Access { object, field, .. } => object.wf(scope) && field.wf(scope),
        }
    }

    /// Tests `wf`.
    pub fn check(&self, scope: Scope) -> (r: bool)
        ensures
            r == self.wf(scope),
        decreases self,
    {
        match self {
            Lvalue::Identifier { slot_ix, .. } => slot_ix.index < scope.slots,
            Lvalue::Access { object, field, .. } => object.check(scope) && field.check(scope),
        }
    }
}

impl Statement {
    /// The statement is well scoped: so are its parts, a `break` stands in a
    /// loop and a `return` in a function.
    pub open spec fn wf(&self, scope: Scope) -> bool
        decreases self,
    {
        match self {
            Statement::Assign { left, right } => left.wf(scope) && right.wf(scope),
            Statement::Return { expr } => scope.in_function && expr.wf(scope),
            Statement::Break => scope.in_loop,
            Statement::While { condition, block } => condition.wf(scope) && block.wf(
                scope.looping(),
            ),
            Statement::For { slot_ix, expr, block } => slot_ix.index < scope.slots && expr.wf(
                scope,
            ) && block.wf(scope.looping()),
            Statement::Expr(expr) => expr.wf(scope),
        }
    }

    /// Tests `wf`.
    pub fn check(&self, scope: Scope) -> (r: bool)
        ensures
            r == self.wf(scope),
        decreases self,
    {
        match self {
            Statement::Assign { left, right } => left.check(scope) && right.check(scope),
            Statement::Return { expr } => scope.in_function && expr.check(scope),
            Statement::Break => scope.in_loop,
            Statement::While { condition, block } => condition.check(scope) && block.check(
                scope.enter_loop(),
            ),
            Statement::For { slot_ix, expr, block } => slot_ix.index < scope.slots && expr.check(
                scope,
            ) && block.check(scope.enter_loop()),
            Statement::Expr(expr) => expr.check(scope),
        }
    }
}

impl Block {
    /// Every statement of the block is well scoped.
    pub open spec fn wf(&self, scope: Scope) -> bool
        decreases self,
    {
        forall|i: int| 0 <= i < self.0.len() ==> (#[trigger] self.0[i]).wf(scope)
    }

    /// Tests `wf`.
    pub fn check(&self, scope: Scope) -> (r: bool)
        ensures
            r == self.wf(scope),
        decreases self,
    {
        let mut i: usize = 0;
        while i < self.0.len()
            invariant
                i <= self.0.len(),
                forall|j: int| 0 <= j < i ==> (#[trigger] self.0[j]).wf(scope),
            decreases self.0.len() - i,
        {
            if !self.0[i].check(scope) {
                return false;
            }
            i += 1;
        }
        true
    }
}

impl Program {
    /// The program can be run with an interner that resolves `names`
    /// symbols: its top level is well scoped, outside any loop or function,
    /// and it has a global slot for the standard library.
    pub open spec fn wf(&self, names: usize) -> bool {
        self.root_slots >= 1 && self.statements.wf(Scope::root(names, self.root_slots))
    }

    /// Tests `wf` for the symbols of `interner`.
    pub fn check(&self, interner: &Interner) -> (r: bool)
        ensures
            r == self.wf(interner.count()),
    {
        let scope = Scope {
            names: interner.len(),
            slots: self.root_slots,
            in_loop: false,
            in_function: false,
        };
        self.root_slots >= 1 && self.statements.check(scope)
    }
}

} // verus!
