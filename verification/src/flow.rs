//! How control leaves blocks: what diverges, and what contains a `return`.
use crate::ast::{Block, ElseBranch, Expr, IfExpr, Statement};
use vstd::prelude::*;

verus! {

/// Whether a block ends in a jump, so that it yields no value: its last
/// statement is `break`, `continue` or `return`, or an `if` all of whose
/// branches diverge.
pub open spec fn diverges(b: Block) -> bool
    decreases b,
{
    if b.statements@.len() == 0 {
        false
    } else {
        match b.statements@.last() {
            Statement::Break(_) | Statement::Continue(_) | Statement::Return(_) => true,
            Statement::Expression(s) => match s.expr {
                Expr::If(i) => if_diverges(*i),
                _ => false,
            },
            _ => false,
        }
    }
}

/// Whether every branch of an `if` diverges. Without `else` it does not.
pub open spec fn if_diverges(i: IfExpr) -> bool
    decreases i,
{
    diverges(i.then_block) && match i.else_branch {
        Some(ElseBranch::Block(b)) => diverges(b),
        Some(ElseBranch::ElseIf(n)) => if_diverges(*n),
        None => false,
    }
}

pub fn block_diverges(b: &Block) -> (r: bool)
    ensures
        r == diverges(*b),
    decreases b,
{
    let n: usize = b.statements.len();
    if n == 0 {
        return false;
    }
    match &b.statements[n - 1] {
        Statement::Break(_) | Statement::Continue(_) | Statement::Return(_) => true,
        Statement::Expression(s) => match &s.expr {
            Expr::If(i) => if_expr_diverges(i),
            _ => false,
        },
        _ => false,
    }
}

pub fn if_expr_diverges(i: &IfExpr) -> (r: bool)
    ensures
        r == if_diverges(*i),
    decreases i,
{
    block_diverges(&i.then_block) && match &i.else_branch {
        Some(ElseBranch::Block(b)) => block_diverges(b),
        Some(ElseBranch::ElseIf(n)) => if_expr_diverges(n),
        None => false,
    }
}

/// Whether a statement is or contains a `return`, looking through loops and
/// `if`.
pub open spec fn has_return(s: Statement) -> bool
    decreases s, 1int,
{
    match s {
        Statement::Return(_) => true,
        Statement::Expression(x) => expr_returns(x.expr),
        Statement::VarDecl(x) => expr_returns(x.initializer),
        Statement::While(x) => expr_returns(x.condition) || returns_from(x.body.statements@, 0)
            || match x.else_block {
            Some(b) => returns_from(b.statements@, 0),
            None => false,
        },
        Statement::For(x) => returns_from(x.body.statements@, 0) || match x.else_block {
            Some(b) => returns_from(b.statements@, 0),
            None => false,
        },
        Statement::Break(_) | Statement::Continue(_) | Statement::Defer(_) => false,
    }
}

/// Whether one of the statements from `i` on contains a `return`.
pub open spec fn returns_from(ss: Seq<Statement>, i: int) -> bool
    decreases ss, ss.len() - i,
{
    0 <= i < ss.len() && (has_return(ss[i]) || returns_from(ss, i + 1))
}

/// Whether an expression contains a `return`: only an `if` can.
pub open spec fn expr_returns(e: Expr) -> bool
    decreases e, 1int,
{
    match e {
        Expr::If(i) => if_returns(*i),
        _ => false,
    }
}

pub open spec fn if_returns(i: IfExpr) -> bool
    decreases i, 1int,
{
    returns_from(i.then_block.statements@, 0) || match i.else_branch {
        Some(ElseBranch::Block(b)) => returns_from(b.statements@, 0),
        Some(ElseBranch::ElseIf(n)) => if_returns(*n),
        None => false,
    }
}

fn contains_return(s: &Statement) -> (r: bool)
    ensures
        r == has_return(*s),
    decreases s, 1int,
{
    match s {
        Statement::Return(_) => true,
        Statement::Expression(x) => expr_contains_return(&x.expr),
        Statement::VarDecl(x) => expr_contains_return(&x.initializer),
        Statement::While(x) => expr_contains_return(&x.condition) || any_contains_return(
            &x.body.statements,
        ) || match &x.else_block {
            Some(b) => any_contains_return(&b.statements),
            None => false,
        },
        Statement::For(x) => any_contains_return(&x.body.statements) || match &x.else_block {
            Some(b) => any_contains_return(&b.statements),
            None => false,
        },
        Statement::Break(_) | Statement::Continue(_) | Statement::Defer(_) => false,
    }
}

/// Whether one of the statements contains a `return`.
pub fn any_contains_return(ss: &Vec<Statement>) -> (r: bool)
    ensures
        r == returns_from(ss@, 0),
    decreases ss@, ss@.len() + 1,
{
    let mut i: usize = 0;
    while i < ss.len()
        invariant
            i <= ss.len(),
            returns_from(ss@, 0) == returns_from(ss@, i as int),
        decreases ss.len() - i,
    {
        if contains_return(&ss[i]) {
            return true;
        }
        i += 1;
    }
    false
}

fn expr_contains_return(e: &Expr) -> (r: bool)
    ensures
        r == expr_returns(*e),
    decreases e, 1int,
{
    match e {
        Expr::If(i) => if_expr_contains_return(i),
        _ => false,
    }
}

fn if_expr_contains_return(i: &IfExpr) -> (r: bool)
    ensures
        r == if_returns(*i),
    decreases i, 1int,
{
    any_contains_return(&i.then_block.statements) || match &i.else_branch {
        Some(ElseBranch::Block(b)) => any_contains_return(&b.statements),
        Some(ElseBranch::ElseIf(n)) => if_expr_contains_return(n),
        None => false,
    }
}

/// The expression whose value a block yields: its last statement, if that is
/// an expression.
pub open spec fn tail(b: Block) -> Option<Expr> {
    if b.statements@.len() == 0 {
        None
    } else {
        match b.statements@.last() {
            Statement::Expression(s) => Some(s.expr),
            _ => None,
        }
    }
}

/// The expression whose value the block yields.
pub fn block_tail_expr(b: &Block) -> (r: Option<&Expr>)
    ensures
        r.deep_view() == tail(*b),
{
    let n: usize = b.statements.len();
    if n == 0 {
        return None;
    }
    match &b.statements[n - 1] {
        Statement::Expression(s) => Some(&s.expr),
        _ => None,
    }
}

} // verus!
