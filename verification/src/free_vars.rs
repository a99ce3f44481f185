//! The free variables of a lambda body.
use crate::ast::{
    Block, ElseBranch, Expr, ForSource, IfExpr, LambdaExpr, MatchArm, MatchBody, Param, Pattern,
    Statement, StringSegment, VarDeclTarget,
};
use crate::text::{extend_view, names_contain, push_view, Chars, Dup};
use vstd::prelude::*;

verus! {

/// The names found so far, with `name` added unless it is bound or known.
pub open spec fn noted(name: Chars, bound: Seq<Chars>, acc: Seq<Chars>) -> Seq<Chars> {
    if bound.contains(name) || acc.contains(name) {
        acc
    } else {
        acc.push(name)
    }
}

/// The names of the first `n` parameters.
pub open spec fn param_names_n(ps: Seq<Param>, n: int) -> Seq<Chars>
    decreases n,
{
    if n <= 0 {
        Seq::empty()
    } else {
        param_names_n(ps, n - 1).push(ps[n - 1].name@)
    }
}

pub open spec fn names_of_params(ps: Seq<Param>) -> Seq<Chars> {
    param_names_n(ps, ps.len() as int)
}

/// What is bound after a statement.
pub open spec fn declared(s: Statement, bound: Seq<Chars>) -> Seq<Chars> {
    match s {
        Statement::VarDecl(v) => match v.target {
            VarDeclTarget::Simple(n) => bound.push(n@),
            VarDeclTarget::StructDestructure { struct_name, field_names } => bound
                + field_names.deep_view(),
        },
        _ => bound,
    }
}

/// What is bound in an arm.
pub open spec fn pattern_bound(p: Pattern, bound: Seq<Chars>) -> Seq<Chars> {
    match p {
        Pattern::Wildcard(_) | Pattern::Literal(_) => bound,
        Pattern::Binding(n, _) => bound.push(n@),
        Pattern::Variant(v) => bound + v.bindings.deep_view(),
    }
}

/// The names found after an expression, each once, in order of appearance.
pub open spec fn free(e: Expr, bound: Seq<Chars>, acc: Seq<Chars>) -> Seq<Chars>
    decreases e, 0int,
{
    match e {
        Expr::Literal(_) => acc,
        Expr::Ident(x) => noted(x.name@, bound, acc),
        Expr::Binary(x) => free(x.right, bound, free(x.left, bound, acc)),
        Expr::Unary(x) => free(x.operand, bound, acc),
        Expr::Call(x) => {
            let a1 = free(x.callee, bound, acc);
            let a2 = free_n(x.args.positional@, bound, a1, x.args.positional@.len() as int);
            free_named_n(x.args.named@, bound, a2, x.args.named@.len() as int)
        },
        Expr::Assignment(x) => free(x.value, bound, noted(x.name@, bound, acc)),
        Expr::FieldAssignment(x) => free(x.value, bound, free(x.object, bound, acc)),
        Expr::FieldAccess(x) => free(x.object, bound, acc),
        Expr::MethodCall(x) => {
            let a1 = free(x.object, bound, acc);
            let a2 = free_n(x.args.positional@, bound, a1, x.args.positional@.len() as int);
            free_named_n(x.args.named@, bound, a2, x.args.named@.len() as int)
        },
        Expr::StructLiteral(x) => free_n(x.args@, bound, acc, x.args@.len() as int),
        Expr::Match(x) => free_arms_n(
            x.arms@,
            bound,
            free(x.subject, bound, acc),
            x.arms@.len() as int,
        ),
        Expr::If(x) => free_if(*x, bound, acc),
        Expr::ListLiteral(x) => free_n(x.elements@, bound, acc, x.elements@.len() as int),
        Expr::MapLiteral(x) => free_entries_n(x.entries@, bound, acc, x.entries@.len() as int),
        Expr::StringInterpolation(x) => free_segments_n(
            x.segments@,
            bound,
            acc,
            x.segments@.len() as int,
        ),
        Expr::Try(x) => free(x.operand, bound, acc),
        Expr::Lambda(x) => free_from(
            x.body.statements@,
            0,
            bound + names_of_params(x.params@),
            acc,
        ),
    }
}

pub open spec fn free_n(es: Seq<Expr>, bound: Seq<Chars>, acc: Seq<Chars>, n: int) -> Seq<Chars>
    decreases es, n,
{
    if n <= 0 || n > es.len() {
        acc
    } else {
        free(es[n - 1], bound, free_n(es, bound, acc, n - 1))
    }
}

pub open spec fn free_named_n(
    es: Seq<(String, Expr)>,
    bound: Seq<Chars>,
    acc: Seq<Chars>,
    n: int,
) -> Seq<Chars>
    decreases es, n,
{
    if n <= 0 || n > es.len() {
        acc
    } else {
        free(es[n - 1].1, bound, free_named_n(es, bound, acc, n - 1))
    }
}

pub open spec fn free_entries_n(
    es: Seq<(Expr, Expr)>,
    bound: Seq<Chars>,
    acc: Seq<Chars>,
    n: int,
) -> Seq<Chars>
    decreases es, n,
{
    if n <= 0 || n > es.len() {
        acc
    } else {
        free(es[n - 1].1, bound, free(es[n - 1].0, bound, free_entries_n(es, bound, acc, n - 1)))
    }
}

pub open spec fn free_segments_n(
    es: Seq<StringSegment>,
    bound: Seq<Chars>,
    acc: Seq<Chars>,
    n: int,
) -> Seq<Chars>
    decreases es, n,
{
    if n <= 0 || n > es.len() {
        acc
    } else {
        let a = free_segments_n(es, bound, acc, n - 1);
        match es[n - 1] {
            StringSegment::Expr(e) => free(e, bound, a),
            StringSegment::Literal(_) => a,
        }
    }
}

pub open spec fn free_arms_n(
    arms: Seq<MatchArm>,
    bound: Seq<Chars>,
    acc: Seq<Chars>,
    n: int,
) -> Seq<Chars>
    decreases arms, n,
{
    if n <= 0 || n > arms.len() {
        acc
    } else {
        let a = free_arms_n(arms, bound, acc, n - 1);
        let inner = pattern_bound(arms[n - 1].pattern, bound);
        match arms[n - 1].body {
            MatchBody::Expr(e) => free(e, inner, a),
            MatchBody::Block(b) => free_from(b.statements@, 0, inner, a),
        }
    }
}

pub open spec fn free_if(x: IfExpr, bound: Seq<Chars>, acc: Seq<Chars>) -> Seq<Chars>
    decreases x, 0int,
{
    let a1 = free(x.condition, bound, acc);
    let a2 = free_from(x.then_block.statements@, 0, bound, a1);
    match x.else_branch {
        Some(ElseBranch::Block(b)) => free_from(b.statements@, 0, bound, a2),
        Some(ElseBranch::ElseIf(y)) => free_if(*y, bound, a2),
        None => a2,
    }
}

/// The names found after the statements from `i` on; what a statement
/// declares is bound in those that follow.
pub open spec fn free_from(ss: Seq<Statement>, i: int, bound: Seq<Chars>, acc: Seq<Chars>) -> Seq<
    Chars,
>
    decreases ss, ss.len() - i,
{
    if i < 0 || i >= ss.len() {
        acc
    } else {
        free_from(ss, i + 1, declared(ss[i], bound), free_stmt(ss[i], bound, acc))
    }
}

pub open spec fn free_stmt(s: Statement, bound: Seq<Chars>, acc: Seq<Chars>) -> Seq<Chars>
    decreases s, 0int,
{
    match s {
        Statement::Expression(x) => free(x.expr, bound, acc),
        Statement::VarDecl(x) => free(x.initializer, bound, acc),
        Statement::Return(x) => match x.value {
            Some(e) => free(e, bound, acc),
            None => acc,
        },
        Statement::While(x) => {
            let a1 = free(x.condition, bound, acc);
            let a2 = free_from(x.body.statements@, 0, bound, a1);
            match x.else_block {
                Some(b) => free_from(b.statements@, 0, bound, a2),
                None => a2,
            }
        },
        Statement::For(x) => {
            let a1 = match x.source {
                ForSource::Range { start, end } => free(end, bound, free(start, bound, acc)),
                ForSource::Iterable(e) => free(e, bound, acc),
            };
            let a2 = free_from(x.body.statements@, 0, bound.push(x.var_name@), a1);
            match x.else_block {
                Some(b) => free_from(b.statements@, 0, bound, a2),
                None => a2,
            }
        },
        Statement::Defer(x) => free(x.expr, bound, acc),
        Statement::Break(_) | Statement::Continue(_) => acc,
    }
}

/// The free variables of the body of a lambda.
pub open spec fn free_variables(x: LambdaExpr) -> Seq<Chars> {
    free_from(x.body.statements@, 0, names_of_params(x.params@), Seq::empty())
}

fn note(name: &String, bound: &Vec<String>, acc: &mut Vec<String>)
    ensures
        final(acc).deep_view() == noted(name@, bound.deep_view(), old(acc).deep_view()),
{
    if !names_contain(bound, name) && !names_contain(acc, name) {
        push_view(acc, name.clone());
    }
}

pub fn param_names(ps: &Vec<Param>) -> (r: Vec<String>)
    ensures
        r.deep_view() == names_of_params(ps@),
{
    let mut out: Vec<String> = Vec::new();
    assert(out.deep_view() =~= Seq::<Chars>::empty());
    let mut i: usize = 0;
    while i < ps.len()
        invariant
            i <= ps.len(),
            out.deep_view() == param_names_n(ps@, i as int),
        decreases ps.len() - i,
    {
        push_view(&mut out, ps[i].name.clone());
        i += 1;
    }
    out
}

fn walk(e: &Expr, bound: &Vec<String>, acc: &mut Vec<String>)
    ensures
        final(acc).deep_view() == free(*e, bound.deep_view(), old(acc).deep_view()),
    decreases e, 1int,
{
    match e {
        Expr::Literal(_) => {},
        Expr::Ident(x) => note(&x.name, bound, acc),
        Expr::Binary(x) => {
            walk(&x.left, bound, acc);
            walk(&x.right, bound, acc);
        },
        Expr::Unary(x) => walk(&x.operand, bound, acc),
        Expr::Call(x) => {
            walk(&x.callee, bound, acc);
            walk_all(&x.args.positional, bound, acc);
            walk_named(&x.args.named, bound, acc);
        },
        Expr::Assignment(x) => {
            note(&x.name, bound, acc);
            walk(&x.value, bound, acc);
        },
        Expr::FieldAssignment(x) => {
            walk(&x.object, bound, acc);
            walk(&x.value, bound, acc);
        },
        Expr::FieldAccess(x) => walk(&x.object, bound, acc),
        Expr::MethodCall(x) => {
            walk(&x.object, bound, acc);
            walk_all(&x.args.positional, bound, acc);
            walk_named(&x.args.named, bound, acc);
        },
        Expr::StructLiteral(x) => walk_all(&x.args, bound, acc),
        Expr::Match(x) => {
            walk(&x.subject, bound, acc);
            walk_arms(&x.arms, bound, acc);
        },
        Expr::If(x) => walk_if(x, bound, acc),
        Expr::ListLiteral(x) => walk_all(&x.elements, bound, acc),
        Expr::MapLiteral(x) => walk_entries(&x.entries, bound, acc),
        Expr::StringInterpolation(x) => walk_segments(&x.segments, bound, acc),
        Expr::Try(x) => walk(&x.operand, bound, acc),
        Expr::Lambda(x) => {
            let mut inner = bound.dup();
            extend_view(&mut inner, &param_names(&x.params));
            walk_block(&x.body, inner, acc);
        },
    }
}

fn walk_all(es: &Vec<Expr>, bound: &Vec<String>, acc: &mut Vec<String>)
    ensures
        final(acc).deep_view() == free_n(
            es@,
            bound.deep_view(),
            old(acc).deep_view(),
            es@.len() as int,
        ),
    decreases es, 0int,
{
    let mut i: usize = 0;
    while i < es.len()
        invariant
            i <= es.len(),
            acc.deep_view() == free_n(es@, bound.deep_view(), old(acc).deep_view(), i as int),
        decreases es.len() - i,
    {
        walk(&es[i], bound, acc);
        i += 1;
    }
}

fn walk_named(es: &Vec<(String, Expr)>, bound: &Vec<String>, acc: &mut Vec<String>)
    ensures
        final(acc).deep_view() == free_named_n(
            es@,
            bound.deep_view(),
            old(acc).deep_view(),
            es@.len() as int,
        ),
    decreases es, 0int,
{
    let mut i: usize = 0;
    while i < es.len()
        invariant
            i <= es.len(),
            acc.deep_view() == free_named_n(es@, bound.deep_view(), old(acc).deep_view(), i as int),
        decreases es.len() - i,
    {
        walk(&es[i].1, bound, acc);
        i += 1;
    }
}

fn walk_entries(es: &Vec<(Expr, Expr)>, bound: &Vec<String>, acc: &mut Vec<String>)
    ensures
        final(acc).deep_view() == free_entries_n(
            es@,
            bound.deep_view(),
            old(acc).deep_view(),
            es@.len() as int,
        ),
    decreases es, 0int,
{
    let mut i: usize = 0;
    while i < es.len()
        invariant
            i <= es.len(),
            acc.deep_view() == free_entries_n(
                es@,
                bound.deep_view(),
                old(acc).deep_view(),
                i as int,
            ),
        decreases es.len() - i,
    {
        walk(&es[i].0, bound, acc);
        walk(&es[i].1, bound, acc);
        i += 1;
    }
}

fn walk_segments(es: &Vec<StringSegment>, bound: &Vec<String>, acc: &mut Vec<String>)
    ensures
        final(acc).deep_view() == free_segments_n(
            es@,
            bound.deep_view(),
            old(acc).deep_view(),
            es@.len() as int,
        ),
    decreases es, 0int,
{
    let mut i: usize = 0;
    while i < es.len()
        invariant
            i <= es.len(),
            acc.deep_view() == free_segments_n(
                es@,
                bound.deep_view(),
                old(acc).deep_view(),
                i as int,
            ),
        decreases es.len() - i,
    {
        if let StringSegment::Expr(e) = &es[i] {
            walk(e, bound, acc);
        }
        i += 1;
    }
}

fn walk_arms(arms: &Vec<MatchArm>, bound: &Vec<String>, acc: &mut Vec<String>)
    ensures
        final(acc).deep_view() == free_arms_n(
            arms@,
            bound.deep_view(),
            old(acc).deep_view(),
            arms@.len() as int,
        ),
    decreases arms, 0int,
{
    let mut i: usize = 0;
    while i < arms.len()
        invariant
            i <= arms.len(),
            acc.deep_view() == free_arms_n(arms@, bound.deep_view(), old(acc).deep_view(), i as int),
        decreases arms.len() - i,
    {
        let mut inner = bound.dup();
        match &arms[i].pattern {
            Pattern::Wildcard(_) | Pattern::Literal(_) => {},
            Pattern::Binding(n, _) => push_view(&mut inner, n.clone()),
            Pattern::Variant(v) => extend_view(&mut inner, &v.bindings),
        }
        match &arms[i].body {
            MatchBody::Expr(e) => walk(e, &inner, acc),
            MatchBody::Block(b) => walk_block(b, inner, acc),
        }
        i += 1;
    }
}

fn walk_if(x: &IfExpr, bound: &Vec<String>, acc: &mut Vec<String>)
    ensures
        final(acc).deep_view() == free_if(*x, bound.deep_view(), old(acc).deep_view()),
    decreases x, 1int,
{
    walk(&x.condition, bound, acc);
    walk_block(&x.then_block, bound.dup(), acc);
    match &x.else_branch {
        Some(ElseBranch::Block(b)) => walk_block(b, bound.dup(), acc),
        Some(ElseBranch::ElseIf(y)) => walk_if(y, bound, acc),
        None => {},
    }
}

fn walk_block(b: &Block, bound: Vec<String>, acc: &mut Vec<String>)
    ensures
        final(acc).deep_view() == free_from(
            b.statements@,
            0,
            bound.deep_view(),
            old(acc).deep_view(),
        ),
    decreases b, 0int,
{
    let mut inner = bound;
    let mut i: usize = 0;
    while i < b.statements.len()
        invariant
            i <= b.statements.len(),
            free_from(b.statements@, 0, bound.deep_view(), old(acc).deep_view()) == free_from(
                b.statements@,
                i as int,
                inner.deep_view(),
                acc.deep_view(),
            ),
        decreases b.statements.len() - i,
    {
        walk_stmt(&b.statements[i], &inner, acc);
        if let Statement::VarDecl(v) = &b.statements[i] {
            match &v.target {
                VarDeclTarget::Simple(n) => push_view(&mut inner, n.clone()),
                VarDeclTarget::StructDestructure { struct_name: _, field_names } => extend_view(
                    &mut inner,
                    field_names,
                ),
            }
        }
        i += 1;
    }
}

fn walk_stmt(s: &Statement, bound: &Vec<String>, acc: &mut Vec<String>)
    ensures
        final(acc).deep_view() == free_stmt(*s, bound.deep_view(), old(acc).deep_view()),
    decreases s, 1int,
{
    match s {
        Statement::Expression(x) => walk(&x.expr, bound, acc),
        Statement::VarDecl(x) => walk(&x.initializer, bound, acc),
        Statement::Return(x) => {
            if let Some(e) = &x.value {
                walk(e, bound, acc);
            }
        },
        Statement::While(x) => {
            walk(&x.condition, bound, acc);
            walk_block(&x.body, bound.dup(), acc);
            if let Some(b) = &x.else_block {
                walk_block(b, bound.dup(), acc);
            }
        },
        Statement::For(x) => {
            match &x.source {
                ForSource::Range { start, end } => {
                    walk(start, bound, acc);
                    walk(end, bound, acc);
                },
                ForSource::Iterable(e) => walk(e, bound, acc),
            }
            let mut inner = bound.dup();
            push_view(&mut inner, x.var_name.clone());
            walk_block(&x.body, inner, acc);
            if let Some(b) = &x.else_block {
                walk_block(b, bound.dup(), acc);
            }
        },
        Statement::Defer(x) => walk(&x.expr, bound, acc),
        Statement::Break(_) | Statement::Continue(_) => {},
    }
}

pub fn collect_free_variables(x: &LambdaExpr) -> (r: Vec<String>)
    ensures
        r.deep_view() == free_variables(*x),
{
    let mut acc: Vec<String> = Vec::new();
    assert(acc.deep_view() =~= Seq::<Chars>::empty());
    walk_block(&x.body, param_names(&x.params), &mut acc);
    acc
}

} // verus!
