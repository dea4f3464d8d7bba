//! Laws of the budget: no step of an evaluation adds to the steps that are
//! left, and every step that is taken takes at least one. So the bounds in
//! the definitions of the semantics never bind.

use vstd::prelude::*;
use crate::access::iteration_spec;
use crate::flow::FlowView;
use crate::mem::FunctionView;
use crate::ops::{callee_spec, condition_spec};
use crate::panic::PanicView;
use crate::program::{BinaryOp, Block, Expr, Literal, Lvalue, SlotIx, Statement, UnaryOp};
use crate::semantics::{
    call_fault,
    enter,
    regular,
    sem_access,
    sem_args,
    sem_array,
    sem_assign,
    sem_binary,
    sem_block,
    sem_call,
    sem_call_expr,
    sem_dict,
    sem_expr,
    sem_for,
    sem_if,
    sem_iterate,
    sem_literal,
    sem_statement,
    sem_statements,
    sem_unary,
    sem_while,
    Env,
    State,
};
use crate::source::{Pos, SourcePos};
use crate::symbol::Symbol;
use crate::value::{FunRef, ValueView};

verus! {

/// A call leaves no more steps than it found, and fewer where it gives a
/// value.
pub proof fn law_call_spends(
    env: Env,
    st: State,
    receiver: Option<ValueView>,
    function: FunRef,
    args: Seq<ValueView>,
    pos: SourcePos,
)
    ensures
        sem_call(env, st, receiver, function, args, pos).0.budget <= st.budget,
        sem_call(env, st, receiver, function, args, pos).1 is Ok ==> sem_call(
            env,
            st,
            receiver,
            function,
            args,
            pos,
        ).0.budget < st.budget,
    decreases st.budget, 0nat, 0nat,
{
    if st.budget > 0 {
        let s = st.spend();
        if call_fault(s.mem, function, args.len(), pos) is None {
            match s.mem.functions[function.index as int] {
                FunctionView::User(u) => {
                    law_block_spends(env, s.with(enter(s.mem, u, receiver, args)), u.body);
                },
                FunctionView::Host(_) => {},
            }
        }
    }
}

/// A block leaves no more steps than it found, and fewer where it does not
/// halt.
pub proof fn law_block_spends(env: Env, st: State, block: &Block)
    ensures
        sem_block(env, st, block).0.budget <= st.budget,
        sem_block(env, st, block).1 is Ok ==> sem_block(env, st, block).0.budget < st.budget,
    decreases st.budget, 0nat, 0nat,
{
    if st.budget > 0 {
        law_statements_spend(env, st.spend(), block.0@, 0, ValueView::Nil);
    }
}

/// The statements of a block leave no more steps than they found.
pub proof fn law_statements_spend(
    env: Env,
    st: State,
    statements: Seq<Statement>,
    i: nat,
    last: ValueView,
)
    ensures
        sem_statements(env, st, statements, i, last).0.budget <= st.budget,
    decreases st.budget, 1nat, statements.len() - i,
{
    if i < statements.len() {
        law_statement_spends(env, st, &statements[i as int]);
        let (after, r) = sem_statement(env, st, &statements[i as int]);
        if let Ok(FlowView::Regular(v)) = r {
            law_statements_spend(env, after.within(st), statements, i + 1, v);
        }
    }
}

/// A statement leaves no more steps than it found, and fewer where it does
/// not halt.
pub proof fn law_statement_spends(env: Env, st: State, statement: &Statement)
    ensures
        sem_statement(env, st, statement).0.budget <= st.budget,
        sem_statement(env, st, statement).1 is Ok ==> sem_statement(env, st, statement).0.budget
            < st.budget,
    decreases st.budget, 0nat, 0nat,
{
    if st.budget > 0 {
        let s = st.spend();
        match statement {
            Statement::Assign { left, right } => law_assign_spends(env, s, left, right),
            Statement::Return { expr } => law_expr_spends(env, s, expr),
            Statement::Break => {},
            Statement::While { condition, block } => law_while_spends(env, s, condition, block),
            Statement::For { slot_ix, expr, block } => law_for_spends(
                env,
                s,
                *slot_ix,
                expr,
                block,
            ),
            Statement::Expr(expr) => law_expr_spends(env, s, expr),
        }
    }
}

/// An assignment leaves no more steps than it found.
pub proof fn law_assign_spends(env: Env, st: State, left: &Lvalue, right: &Expr)
    ensures
        sem_assign(env, st, left, right).0.budget <= st.budget,
    decreases st.budget, 2nat, 0nat,
{
    law_expr_spends(env, st, right);
    let (st1, r1) = sem_expr(env, st, right);
    if regular(r1) is Some {
        match left {
            Lvalue::Identifier { .. } => {},
            Lvalue::Access { object, field, .. } => {
                law_expr_spends(env, st1.within(st), object);
                let (st2, r2) = sem_expr(env, st1.within(st), object);
                if regular(r2) is Some {
                    law_expr_spends(env, st2.within(st), field);
                }
            },
        }
    }
}

/// A `while` loop leaves no more steps than it found.
pub proof fn law_while_spends(env: Env, st: State, test: &Expr, block: &Block)
    ensures
        sem_while(env, st, test, block).0.budget <= st.budget,
    decreases st.budget, 1nat, 0nat,
{
    law_expr_spends(env, st, test);
    let (st1, r1) = sem_expr(env, st, test);
    if let Some((value, pos, _)) = regular(r1) {
        if condition_spec(value, pos) == Ok::<bool, PanicView>(true) {
            law_block_spends(env, st1.within(st), block);
            let (st2, r2) = sem_block(env, st1.within(st), block);
            if let Ok(FlowView::Regular(_)) = r2 {
                if st2.budget < st.budget {
                    law_while_spends(env, st2, test, block);
                }
            }
        }
    }
}

/// A `for` loop leaves no more steps than it found.
pub proof fn law_for_spends(env: Env, st: State, slot: SlotIx, expr: &Expr, block: &Block)
    ensures
        sem_for(env, st, slot, expr, block).0.budget <= st.budget,
    decreases st.budget, 2nat, 0nat,
{
    law_expr_spends(env, st, expr);
    let (st1, r1) = sem_expr(env, st, expr);
    if let Some((ValueView::Function(iter), pos, _)) = regular(r1) {
        law_iterate_spends(env, st1.within(st), slot, iter, pos, block);
    }
}

/// The rounds of a `for` loop leave no more steps than they found.
pub proof fn law_iterate_spends(
    env: Env,
    st: State,
    slot: SlotIx,
    iter: FunRef,
    pos: SourcePos,
    block: &Block,
)
    ensures
        sem_iterate(env, st, slot, iter, pos, block).0.budget <= st.budget,
    decreases st.budget, 1nat, 0nat,
{
    law_call_spends(env, st, None, iter, Seq::empty(), pos);
    let (st1, r1) = sem_call(env, st, None, iter, Seq::empty(), pos);
    if let Ok(step) = r1 {
        if let Ok(Some(item)) = iteration_spec(st1.mem, step, pos) {
            let entered = st1.with(st1.mem.store(slot, item)).within(st);
            law_block_spends(env, entered, block);
            let (st2, r2) = sem_block(env, entered, block);
            if let Ok(FlowView::Regular(_)) = r2 {
                if st2.budget < st.budget {
                    law_iterate_spends(env, st2, slot, iter, pos, block);
                }
            }
        }
    }
}

/// A literal leaves no more steps than it found, and fewer where it does
/// not halt.
pub proof fn law_literal_spends(env: Env, st: State, literal: &Literal, pos: Pos)
    ensures
        sem_literal(env, st, literal, pos).0.budget <= st.budget,
        sem_literal(env, st, literal, pos).1 is Ok ==> sem_literal(env, st, literal, pos).0.budget
            < st.budget,
    decreases st.budget, 0nat, 0nat,
{
    if st.budget > 0 {
        let s = st.spend();
        match literal {
            Literal::Array(exprs) => law_array_spends(env, s, exprs@, 0, Seq::empty()),
            Literal::Dict(exprs) => law_dict_spends(env, s, exprs@, 0, Map::empty()),
            _ => {},
        }
    }
}

/// The elements of an array literal leave no more steps than they found.
pub proof fn law_array_spends(
    env: Env,
    st: State,
    exprs: Seq<Expr>,
    i: nat,
    items: Seq<ValueView>,
)
    ensures
        sem_array(env, st, exprs, i, items).0.budget <= st.budget,
    decreases st.budget, 1nat, exprs.len() - i,
{
    if i < exprs.len() {
        law_expr_spends(env, st, &exprs[i as int]);
        let (after, r) = sem_expr(env, st, &exprs[i as int]);
        if let Some((v, _, _)) = regular(r) {
            law_array_spends(env, after.within(st), exprs, i + 1, items.push(v));
        }
    }
}

/// The entries of a dictionary literal leave no more steps than they
/// found.
pub proof fn law_dict_spends(
    env: Env,
    st: State,
    exprs: Seq<(Symbol, Expr)>,
    i: nat,
    entries: Map<ValueView, ValueView>,
)
    ensures
        sem_dict(env, st, exprs, i, entries).0.budget <= st.budget,
    decreases st.budget, 1nat, exprs.len() - i,
{
    if i < exprs.len() {
        law_expr_spends(env, st, &exprs[i as int].1);
        let (after, r) = sem_expr(env, st, &exprs[i as int].1);
        if let Some((v, _, _)) = regular(r) {
            let key = ValueView::String(env.names[exprs[i as int].0.index as int]);
            law_dict_spends(env, after.within(st), exprs, i + 1, entries.insert(key, v));
        }
    }
}

/// An expression leaves no more steps than it found, and fewer where it
/// does not halt.
pub proof fn law_expr_spends(env: Env, st: State, expr: &Expr)
    ensures
        sem_expr(env, st, expr).0.budget <= st.budget,
        sem_expr(env, st, expr).1 is Ok ==> sem_expr(env, st, expr).0.budget < st.budget,
        sem_expr(env, st, expr).0.within(st) == sem_expr(env, st, expr).0,
    decreases st.budget, 0nat, 0nat,
{
    if st.budget > 0 {
        let s = st.spend();
        match expr {
            Expr::Identifier { .. } => {},
            Expr::Literal { literal, pos } => law_literal_spends(env, s, literal, *pos),
            Expr::UnaryOp { op, operand, pos } => law_unary_spends(
                env,
                s,
                *op,
                operand,
                env.at(*pos),
            ),
            Expr::BinaryOp { left, op, right, pos } => law_binary_spends(
                env,
                s,
                left,
                *op,
                right,
                env.at(*pos),
            ),
            Expr::If { condition, then, otherwise, pos } => law_if_spends(
                env,
                s,
                condition,
                then,
                otherwise,
                env.at(*pos),
            ),
            Expr::Access { object, field, pos } => law_access_spends(
                env,
                s,
                object,
                field,
                env.at(*pos),
            ),
            Expr::Call { function, args, pos } => law_call_expr_spends(
                env,
                s,
                function,
                args@,
                env.at(*pos),
            ),
            Expr::CommandBlock { .. } => {},
        }
    }
}

/// A unary operator leaves no more steps than it found.
pub proof fn law_unary_spends(env: Env, st: State, op: UnaryOp, operand: &Expr, pos: SourcePos)
    ensures
        sem_unary(env, st, op, operand, pos).0.budget <= st.budget,
    decreases st.budget, 2nat, 0nat,
{
    law_expr_spends(env, st, operand);
}

/// A binary operator leaves no more steps than it found.
pub proof fn law_binary_spends(
    env: Env,
    st: State,
    left: &Expr,
    op: BinaryOp,
    right: &Expr,
    pos: SourcePos,
)
    ensures
        sem_binary(env, st, left, op, right, pos).0.budget <= st.budget,
    decreases st.budget, 2nat, 0nat,
{
    law_expr_spends(env, st, left);
    let (st1, r1) = sem_expr(env, st, left);
    if regular(r1) is Some {
        law_expr_spends(env, st1.within(st), right);
    }
}

/// An `if` leaves no more steps than it found.
pub proof fn law_if_spends(
    env: Env,
    st: State,
    test: &Expr,
    then: &Block,
    otherwise: &Block,
    pos: SourcePos,
)
    ensures
        sem_if(env, st, test, then, otherwise, pos).0.budget <= st.budget,
    decreases st.budget, 2nat, 0nat,
{
    law_expr_spends(env, st, test);
    let (st1, r1) = sem_expr(env, st, test);
    if regular(r1) is Some {
        law_block_spends(env, st1.within(st), then);
        law_block_spends(env, st1.within(st), otherwise);
    }
}

/// An access leaves no more steps than it found.
pub proof fn law_access_spends(env: Env, st: State, object: &Expr, field: &Expr, pos: SourcePos)
    ensures
        sem_access(env, st, object, field, pos).0.budget <= st.budget,
    decreases st.budget, 2nat, 0nat,
{
    law_expr_spends(env, st, object);
    let (st1, r1) = sem_expr(env, st, object);
    if regular(r1) is Some {
        law_expr_spends(env, st1.within(st), field);
    }
}

/// A call expression leaves no more steps than it found.
pub proof fn law_call_expr_spends(
    env: Env,
    st: State,
    function: &Expr,
    args: Seq<Expr>,
    pos: SourcePos,
)
    ensures
        sem_call_expr(env, st, function, args, pos).0.budget <= st.budget,
    decreases st.budget, 2nat, 0nat,
{
    law_expr_spends(env, st, function);
    let (st1, r1) = sem_expr(env, st, function);
    if let Some((value, callee_pos, receiver)) = regular(r1) {
        if let Ok(f) = callee_spec(value, callee_pos) {
            law_args_spend(env, st1.within(st), args, 0, Seq::empty(), pos);
            let (st2, r2) = sem_args(env, st1.within(st), args, 0, Seq::empty(), pos);
            if let Ok(Ok(values)) = r2 {
                law_call_spends(env, st2.within(st), receiver, f, values, pos);
            }
        }
    }
}

/// The arguments of a call leave no more steps than they found.
pub proof fn law_args_spend(
    env: Env,
    st: State,
    args: Seq<Expr>,
    i: nat,
    values: Seq<ValueView>,
    pos: SourcePos,
)
    ensures
        sem_args(env, st, args, i, values, pos).0.budget <= st.budget,
    decreases st.budget, 1nat, args.len() - i,
{
    if i < args.len() {
        law_expr_spends(env, st, &args[i as int]);
        let (after, r) = sem_expr(env, st, &args[i as int]);
        if let Some((v, _, _)) = regular(r) {
            law_args_spend(env, after.within(st), args, i + 1, values.push(v), pos);
        }
    }
}

} // verus!
