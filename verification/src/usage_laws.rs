//! What a lambda captures and what a body holds: every part of an expression is
//! looked at, wherever it stands.
use crate::ast::{
    Block, ElseBranch, Expr, ForSource, IfExpr, LambdaExpr, MatchArm, MatchBody, Param, Pattern,
    Statement, StringSegment, VarDeclTarget,
};
use crate::free_vars::{
    declared, free, free_arms_n, free_entries_n, free_from, free_if, free_n, free_named_n,
    free_segments_n, free_stmt, free_variables, names_of_params, noted, param_names_n,
    pattern_bound,
};
use crate::span::Span;
use crate::text::Chars;
use crate::walk::{
    seen, seen_arms_n, seen_entries_n, seen_if, seen_n, seen_named_n, seen_segments_n, seen_stmt,
    seen_stmts_n, DeferWalkerV,
};
use vstd::prelude::*;

verus! {

// ── Free names ───────────────────────────────────────────────────────

/// Whether a statement declares a variable of that name.
pub open spec fn declares_name(s: Statement, name: Chars) -> bool {
    s matches Statement::VarDecl(v) && match v.target {
        VarDeclTarget::Simple(n) => n@ == name,
        VarDeclTarget::StructDestructure { struct_name, field_names } => exists|i: int|
            0 <= i < field_names.deep_view().len() && #[trigger] field_names.deep_view()[i] == name,
    }
}

/// Whether a pattern has a variable of that name.
pub open spec fn pattern_names(p: Pattern, name: Chars) -> bool {
    match p {
        Pattern::Wildcard(_) | Pattern::Literal(_) => false,
        Pattern::Binding(n, _) => n@ == name,
        Pattern::Variant(v) => exists|i: int|
            0 <= i < v.bindings.deep_view().len() && #[trigger] v.bindings.deep_view()[i] == name,
    }
}

/// Whether a parameter has that name.
pub open spec fn params_name(ps: Seq<Param>, name: Chars) -> bool {
    exists|i: int| 0 <= i < ps.len() && (#[trigger] ps[i]).name@ == name
}

/// Whether the name occurs free in an expression.
pub open spec fn uses(e: Expr, name: Chars) -> bool
    decreases e, 0int,
{
    match e {
        Expr::Literal(_) => false,
        Expr::Ident(x) => x.name@ == name,
        Expr::Binary(x) => uses(x.left, name) || uses(x.right, name),
        Expr::Unary(x) => uses(x.operand, name),
        Expr::Call(x) => uses(x.callee, name) || any_uses(x.args.positional@, name) || named_use(
            x.args.named@,
            name,
        ),
        Expr::Assignment(x) => x.name@ == name || uses(x.value, name),
        Expr::FieldAssignment(x) => uses(x.object, name) || uses(x.value, name),
        Expr::FieldAccess(x) => uses(x.object, name),
        Expr::MethodCall(x) => uses(x.object, name) || any_uses(x.args.positional@, name)
            || named_use(x.args.named@, name),
        Expr::StructLiteral(x) => any_uses(x.args@, name),
        Expr::Match(x) => uses(x.subject, name) || arms_use(x.arms@, name),
        Expr::If(x) => if_uses(*x, name),
        Expr::ListLiteral(x) => any_uses(x.elements@, name),
        Expr::MapLiteral(x) => entries_use(x.entries@, name),
        Expr::StringInterpolation(x) => segments_use(x.segments@, name),
        Expr::Try(x) => uses(x.operand, name),
        Expr::Lambda(x) => !params_name(x.params@, name) && block_uses(x.body.statements@, name),
    }
}

/// The same for one of several expressions.
pub open spec fn any_uses(es: Seq<Expr>, name: Chars) -> bool
    decreases es,
{
    exists|i: int| 0 <= i < es.len() && uses(#[trigger] es[i], name)
}

pub open spec fn named_use(es: Seq<(String, Expr)>, name: Chars) -> bool
    decreases es,
{
    exists|i: int| 0 <= i < es.len() && uses((#[trigger] es[i]).1, name)
}

pub open spec fn entries_use(es: Seq<(Expr, Expr)>, name: Chars) -> bool
    decreases es,
{
    exists|i: int|
        0 <= i < es.len() && (uses((#[trigger] es[i]).0, name) || uses(es[i].1, name))
}

pub open spec fn segments_use(es: Seq<StringSegment>, name: Chars) -> bool
    decreases es,
{
    exists|i: int|
        0 <= i < es.len() && match #[trigger] es[i] {
            StringSegment::Expr(e) => uses(e, name),
            StringSegment::Literal(_) => false,
        }
}

/// The same for one of several arms.
pub open spec fn arms_use(arms: Seq<MatchArm>, name: Chars) -> bool
    decreases arms,
{
    exists|i: int|
        0 <= i < arms.len() && !pattern_names((#[trigger] arms[i]).pattern, name) && match arms[i].body {
            MatchBody::Expr(e) => uses(e, name),
            MatchBody::Block(b) => block_uses(b.statements@, name),
        }
}

pub open spec fn if_uses(x: IfExpr, name: Chars) -> bool
    decreases x, 0int,
{
    uses(x.condition, name) || block_uses(x.then_block.statements@, name) || match x.else_branch {
        Some(ElseBranch::Block(b)) => block_uses(b.statements@, name),
        Some(ElseBranch::ElseIf(y)) => if_uses(*y, name),
        None => false,
    }
}

/// The same for one of several statements.
pub open spec fn block_uses(ss: Seq<Statement>, name: Chars) -> bool
    decreases ss,
{
    exists|i: int|
        0 <= i < ss.len() && statement_uses(#[trigger] ss[i], name) && forall|j: int| 0 <= j < i ==> !declares_name(#[trigger] ss[j], name)
}

pub open spec fn statement_uses(s: Statement, name: Chars) -> bool
    decreases s, 0int,
{
    match s {
        Statement::Expression(x) => uses(x.expr, name),
        Statement::VarDecl(x) => uses(x.initializer, name),
        Statement::Return(x) => match x.value {
            Some(e) => uses(e, name),
            None => false,
        },
        Statement::While(x) => uses(x.condition, name) || block_uses(x.body.statements@, name)
            || match x.else_block {
            Some(b) => block_uses(b.statements@, name),
            None => false,
        },
        Statement::For(x) => (match x.source {
            ForSource::Range { start, end } => uses(start, name) || uses(end, name),
            ForSource::Iterable(e) => uses(e, name),
        }) || x.var_name@ != name && block_uses(x.body.statements@, name) || match x.else_block {
            Some(b) => block_uses(b.statements@, name),
            None => false,
        },
        Statement::Defer(x) => uses(x.expr, name),
        Statement::Break(_) | Statement::Continue(_) => false,
    }
}

proof fn lemma_noted(x: Chars, bound: Seq<Chars>, acc: Seq<Chars>, name: Chars)
    ensures
        noted(x, bound, acc).contains(name) <==> acc.contains(name) || (!bound.contains(name) && x
            == name),
{
    let r = acc.push(x);
    if acc.contains(name) {
        let k = choose|k: int| 0 <= k < acc.len() && acc[k] == name;
        assert(r[k] == name);
    }
    if x == name {
        assert(r.last() == name);
    }
    if r.contains(name) && x != name {
        let k = choose|k: int| 0 <= k < r.len() && r[k] == name;
        assert(acc[k] == name);
    }
}

proof fn lemma_more_bound(bound: Seq<Chars>, more: Seq<Chars>, name: Chars)
    ensures
        (bound + more).contains(name) <==> bound.contains(name) || more.contains(name),
{
    let all = bound + more;
    if bound.contains(name) {
        let k = choose|k: int| 0 <= k < bound.len() && bound[k] == name;
        assert(all[k] == name);
    }
    if more.contains(name) {
        let k = choose|k: int| 0 <= k < more.len() && more[k] == name;
        assert(all[bound.len() + k] == name);
    }
    if all.contains(name) {
        let k = choose|k: int| 0 <= k < all.len() && all[k] == name;
        if k < bound.len() {
            assert(bound[k] == name);
        } else {
            assert(more[k - bound.len()] == name);
        }
    }
}

proof fn lemma_one_bound(bound: Seq<Chars>, x: Chars, name: Chars)
    ensures
        bound.push(x).contains(name) <==> bound.contains(name) || x == name,
{
    assert(bound.push(x) =~= bound + seq![x]);
    lemma_more_bound(bound, seq![x], name);
    if x == name {
        assert(seq![x][0] == name);
    }
}

proof fn lemma_params(ps: Seq<Param>, name: Chars, n: int)
    requires
        0 <= n <= ps.len(),
    ensures
        param_names_n(ps, n).contains(name) <==> exists|i: int|
            0 <= i < n && (#[trigger] ps[i]).name@ == name,
    decreases n,
{
    if n > 0 {
        lemma_params(ps, name, n - 1);
        lemma_one_bound(param_names_n(ps, n - 1), ps[n - 1].name@, name);
        if exists|i: int| 0 <= i < n && (#[trigger] ps[i]).name@ == name {
            let i = choose|i: int| 0 <= i < n && (#[trigger] ps[i]).name@ == name;
            if i < n - 1 {
                assert(ps[i].name@ == name);
            }
        }
        if ps[n - 1].name@ == name {
            assert(exists|i: int| 0 <= i < n && (#[trigger] ps[i]).name@ == name);
        }
    } else {
        assert(param_names_n(ps, 0) =~= Seq::empty());
    }
}

proof fn lemma_declared(s: Statement, bound: Seq<Chars>, name: Chars)
    ensures
        declared(s, bound).contains(name) <==> bound.contains(name) || declares_name(s, name),
{
    if let Statement::VarDecl(v) = s {
        match v.target {
            VarDeclTarget::Simple(n) => {
                lemma_one_bound(bound, n@, name);
            },
            VarDeclTarget::StructDestructure { struct_name, field_names } => {
                lemma_more_bound(bound, field_names.deep_view(), name);
            },
        }
    }
}

proof fn lemma_pattern(p: Pattern, bound: Seq<Chars>, name: Chars)
    ensures
        pattern_bound(p, bound).contains(name) <==> bound.contains(name) || pattern_names(p, name),
{
    match p {
        Pattern::Binding(n, _) => {
            lemma_one_bound(bound, n@, name);
        },
        Pattern::Variant(v) => {
            lemma_more_bound(bound, v.bindings.deep_view(), name);
        },
        _ => {},
    }
}

/// Looking for free names finds exactly the names that occur free and are not
/// bound outside, besides those found before.
pub proof fn law_free_names(e: Expr, bound: Seq<Chars>, acc: Seq<Chars>, name: Chars)
    ensures
        free(e, bound, acc).contains(name) <==> acc.contains(name) || (!bound.contains(name)
            && uses(e, name)),
    decreases e, 0int,
{
    match e {
        Expr::Literal(_) => {},
        Expr::Ident(x) => {
            lemma_noted(x.name@, bound, acc, name);
        },
        Expr::Binary(x) => {
            law_free_names(x.left, bound, acc, name);
            law_free_names(x.right, bound, free(x.left, bound, acc), name);
        },
        Expr::Unary(x) => {
            law_free_names(x.operand, bound, acc, name);
        },
        Expr::Call(x) => {
            let n = x.args.positional@.len() as int;
            let m = x.args.named@.len() as int;
            law_free_names(x.callee, bound, acc, name);
            let a1 = free(x.callee, bound, acc);
            lemma_free_list(x.args.positional@, bound, a1, name, n);
            let a2 = free_n(x.args.positional@, bound, a1, n);
            lemma_free_named(x.args.named@, bound, a2, name, m);
        },
        Expr::Assignment(x) => {
            lemma_noted(x.name@, bound, acc, name);
            law_free_names(x.value, bound, noted(x.name@, bound, acc), name);
        },
        Expr::FieldAssignment(x) => {
            law_free_names(x.object, bound, acc, name);
            law_free_names(x.value, bound, free(x.object, bound, acc), name);
        },
        Expr::FieldAccess(x) => {
            law_free_names(x.object, bound, acc, name);
        },
        Expr::MethodCall(x) => {
            let n = x.args.positional@.len() as int;
            let m = x.args.named@.len() as int;
            law_free_names(x.object, bound, acc, name);
            let a1 = free(x.object, bound, acc);
            lemma_free_list(x.args.positional@, bound, a1, name, n);
            let a2 = free_n(x.args.positional@, bound, a1, n);
            lemma_free_named(x.args.named@, bound, a2, name, m);
        },
        Expr::StructLiteral(x) => {
            lemma_free_list(x.args@, bound, acc, name, x.args@.len() as int);
        },
        Expr::Match(x) => {
            law_free_names(x.subject, bound, acc, name);
            let a1 = free(x.subject, bound, acc);
            lemma_free_arms(x.arms@, bound, a1, name, x.arms@.len() as int);
        },
        Expr::If(x) => {
            lemma_free_if(*x, bound, acc, name);
        },
        Expr::ListLiteral(x) => {
            lemma_free_list(x.elements@, bound, acc, name, x.elements@.len() as int);
        },
        Expr::MapLiteral(x) => {
            lemma_free_entries(x.entries@, bound, acc, name, x.entries@.len() as int);
        },
        Expr::StringInterpolation(x) => {
            lemma_free_segments(x.segments@, bound, acc, name, x.segments@.len() as int);
        },
        Expr::Try(x) => {
            law_free_names(x.operand, bound, acc, name);
        },
        Expr::Lambda(x) => {
            let ps = names_of_params(x.params@);
            lemma_params(x.params@, name, x.params@.len() as int);
            lemma_more_bound(bound, ps, name);
            lemma_free_block(x.body.statements@, 0, bound + ps, acc, name);
        },
    }
}

proof fn lemma_free_list(es: Seq<Expr>, bound: Seq<Chars>, acc: Seq<Chars>, name: Chars, n: int)
    requires
        0 <= n <= es.len(),
    ensures
        free_n(es, bound, acc, n).contains(name) <==> acc.contains(name) || (!bound.contains(name)
            && exists|i: int| 0 <= i < n && uses(#[trigger] es[i], name)),
        n == es.len() ==> (any_uses(es, name) <==> exists|i: int| 0 <= i < n && uses(#[trigger] es[i], name)),
    decreases es, n,
{
    if n > 0 {
        lemma_free_list(es, bound, acc, name, n - 1);
        let rest = free_n(es, bound, acc, n - 1);
        law_free_names(es[n - 1], bound, rest, name);
        if exists|i: int| 0 <= i < n && uses(#[trigger] es[i], name) {
            let i = choose|i: int| 0 <= i < n && uses(#[trigger] es[i], name);
            if i < n - 1 {
                let e = es[i];
            }
        }
        let last = es[n - 1];
    }
}

proof fn lemma_free_named(es: Seq<(String, Expr)>, bound: Seq<Chars>, acc: Seq<Chars>, name: Chars, n: int)
    requires
        0 <= n <= es.len(),
    ensures
        free_named_n(es, bound, acc, n).contains(name) <==> acc.contains(name) || (!bound.contains(name)
            && exists|i: int| 0 <= i < n && uses((#[trigger] es[i]).1, name)),
        n == es.len() ==> (named_use(es, name) <==> exists|i: int| 0 <= i < n && uses((#[trigger] es[i]).1, name)),
    decreases es, n,
{
    if n > 0 {
        lemma_free_named(es, bound, acc, name, n - 1);
        let rest = free_named_n(es, bound, acc, n - 1);
        law_free_names(es[n - 1].1, bound, rest, name);
        if exists|i: int| 0 <= i < n && uses((#[trigger] es[i]).1, name) {
            let i = choose|i: int| 0 <= i < n && uses((#[trigger] es[i]).1, name);
            if i < n - 1 {
                let e = es[i];
            }
        }
        let last = es[n - 1];
    }
}

proof fn lemma_free_entries(es: Seq<(Expr, Expr)>, bound: Seq<Chars>, acc: Seq<Chars>, name: Chars, n: int)
    requires
        0 <= n <= es.len(),
    ensures
        free_entries_n(es, bound, acc, n).contains(name) <==> acc.contains(name) || (!bound.contains(name)
            && exists|i: int| 0 <= i < n && (uses((#[trigger] es[i]).0, name) || uses(es[i].1, name))),
        n == es.len() ==> (entries_use(es, name) <==> exists|i: int| 0 <= i < n && (uses((#[trigger] es[i]).0, name) || uses(es[i].1, name))),
    decreases es, n,
{
    if n > 0 {
        lemma_free_entries(es, bound, acc, name, n - 1);
        let rest = free_entries_n(es, bound, acc, n - 1);
        law_free_names(es[n - 1].0, bound, rest, name);
        law_free_names(es[n - 1].1, bound, free(es[n - 1].0, bound, rest), name);
        if exists|i: int| 0 <= i < n && (uses((#[trigger] es[i]).0, name) || uses(es[i].1, name)) {
            let i = choose|i: int| 0 <= i < n && (uses((#[trigger] es[i]).0, name) || uses(es[i].1, name));
            if i < n - 1 {
                let e = es[i];
            }
        }
        let last = es[n - 1];
    }
}

proof fn lemma_free_segments(es: Seq<StringSegment>, bound: Seq<Chars>, acc: Seq<Chars>, name: Chars, n: int)
    requires
        0 <= n <= es.len(),
    ensures
        free_segments_n(es, bound, acc, n).contains(name) <==> acc.contains(name) || (!bound.contains(name)
            && exists|i: int| 0 <= i < n && match #[trigger] es[i] {
            StringSegment::Expr(e) => uses(e, name),
            StringSegment::Literal(_) => false,
        }),
        n == es.len() ==> (segments_use(es, name) <==> exists|i: int| 0 <= i < n && match #[trigger] es[i] {
            StringSegment::Expr(e) => uses(e, name),
            StringSegment::Literal(_) => false,
        }),
    decreases es, n,
{
    if n > 0 {
        lemma_free_segments(es, bound, acc, name, n - 1);
        let rest = free_segments_n(es, bound, acc, n - 1);
        if let StringSegment::Expr(e) = es[n - 1] {
            law_free_names(e, bound, rest, name);
        }
        if exists|i: int| 0 <= i < n && match #[trigger] es[i] {
            StringSegment::Expr(e) => uses(e, name),
            StringSegment::Literal(_) => false,
        } {
            let i = choose|i: int| 0 <= i < n && match #[trigger] es[i] {
            StringSegment::Expr(e) => uses(e, name),
            StringSegment::Literal(_) => false,
        };
            if i < n - 1 {
                let e = es[i];
            }
        }
        let last = es[n - 1];
    }
}

proof fn lemma_free_arms(es: Seq<MatchArm>, bound: Seq<Chars>, acc: Seq<Chars>, name: Chars, n: int)
    requires
        0 <= n <= es.len(),
    ensures
        free_arms_n(es, bound, acc, n).contains(name) <==> acc.contains(name) || (!bound.contains(name)
            && exists|i: int| 0 <= i < n && !pattern_names((#[trigger] es[i]).pattern, name) && match es[i].body {
            MatchBody::Expr(e) => uses(e, name),
            MatchBody::Block(b) => block_uses(b.statements@, name),
        }),
        n == es.len() ==> (arms_use(es, name) <==> exists|i: int| 0 <= i < n && !pattern_names((#[trigger] es[i]).pattern, name) && match es[i].body {
            MatchBody::Expr(e) => uses(e, name),
            MatchBody::Block(b) => block_uses(b.statements@, name),
        }),
    decreases es, n,
{
    if n > 0 {
        lemma_free_arms(es, bound, acc, name, n - 1);
        let rest = free_arms_n(es, bound, acc, n - 1);
        let inner = pattern_bound(es[n - 1].pattern, bound);
        lemma_pattern(es[n - 1].pattern, bound, name);
        match es[n - 1].body {
            MatchBody::Expr(e) => {
                law_free_names(e, inner, rest, name);
            },
            MatchBody::Block(b) => {
                lemma_free_block(b.statements@, 0, inner, rest, name);
            },
        }
        if exists|i: int| 0 <= i < n && !pattern_names((#[trigger] es[i]).pattern, name) && match es[i].body {
            MatchBody::Expr(e) => uses(e, name),
            MatchBody::Block(b) => block_uses(b.statements@, name),
        } {
            let i = choose|i: int| 0 <= i < n && !pattern_names((#[trigger] es[i]).pattern, name) && match es[i].body {
            MatchBody::Expr(e) => uses(e, name),
            MatchBody::Block(b) => block_uses(b.statements@, name),
        };
            if i < n - 1 {
                let e = es[i];
            }
        }
        let last = es[n - 1];
    }
}

proof fn lemma_free_if(x: IfExpr, bound: Seq<Chars>, acc: Seq<Chars>, name: Chars)
    ensures
        free_if(x, bound, acc).contains(name) <==> acc.contains(name) || (!bound.contains(name)
            && if_uses(x, name)),
    decreases x, 0int,
{
    law_free_names(x.condition, bound, acc, name);
    let a1 = free(x.condition, bound, acc);
    lemma_free_block(x.then_block.statements@, 0, bound, a1, name);
    let a2 = free_from(x.then_block.statements@, 0, bound, a1);
    match x.else_branch {
        Some(ElseBranch::Block(b)) => {
            lemma_free_block(b.statements@, 0, bound, a2, name);
        },
        Some(ElseBranch::ElseIf(y)) => {
            lemma_free_if(*y, bound, a2, name);
        },
        None => {},
    }
}

/// Whether the name is used by a statement from `i` on and not declared between.
spec fn block_uses_from(ss: Seq<Statement>, i: int, name: Chars) -> bool {
    exists|k: int|
        i <= k < ss.len() && statement_uses(#[trigger] ss[k], name) && forall|j: int|
            i <= j < k ==> !declares_name(#[trigger] ss[j], name)
}

proof fn lemma_free_block(
    ss: Seq<Statement>,
    i: int,
    bound: Seq<Chars>,
    acc: Seq<Chars>,
    name: Chars,
)
    requires
        0 <= i <= ss.len(),
    ensures
        free_from(ss, i, bound, acc).contains(name) <==> acc.contains(name) || (!bound.contains(
            name,
        ) && block_uses_from(ss, i, name)),
        i == 0 ==> (block_uses_from(ss, 0, name) <==> block_uses(ss, name)),
    decreases ss, ss.len() - i,
{
    if i < ss.len() {
        lemma_free_stmt(ss[i], bound, acc, name);
        lemma_declared(ss[i], bound, name);
        let inner = declared(ss[i], bound);
        let a1 = free_stmt(ss[i], bound, acc);
        lemma_free_block(ss, i + 1, inner, a1, name);
        if block_uses_from(ss, i, name) {
            let k = choose|k: int|
                i <= k < ss.len() && statement_uses(#[trigger] ss[k], name) && forall|j: int|
                    i <= j < k ==> !declares_name(#[trigger] ss[j], name);
            if k > i {
                assert(!declares_name(ss[i], name));
                assert(block_uses_from(ss, i + 1, name));
            }
        }
        if statement_uses(ss[i], name) {
            assert(block_uses_from(ss, i, name));
        }
        if block_uses_from(ss, i + 1, name) && !declares_name(ss[i], name) {
            let k = choose|k: int|
                i + 1 <= k < ss.len() && statement_uses(#[trigger] ss[k], name) && forall|j: int|
                    i + 1 <= j < k ==> !declares_name(#[trigger] ss[j], name);
            assert(statement_uses(ss[k], name));
            assert forall|j: int| i <= j < k implies !declares_name(#[trigger] ss[j], name) by {}
            assert(block_uses_from(ss, i, name));
        }
    }
}

proof fn lemma_free_stmt(s: Statement, bound: Seq<Chars>, acc: Seq<Chars>, name: Chars)
    ensures
        free_stmt(s, bound, acc).contains(name) <==> acc.contains(name) || (!bound.contains(name)
            && statement_uses(s, name)),
    decreases s, 0int,
{
    match s {
        Statement::Expression(x) => {
            law_free_names(x.expr, bound, acc, name);
        },
        Statement::VarDecl(x) => {
            law_free_names(x.initializer, bound, acc, name);
        },
        Statement::Return(x) => {
            if let Some(e) = x.value {
                law_free_names(e, bound, acc, name);
            }
        },
        Statement::While(x) => {
            law_free_names(x.condition, bound, acc, name);
            let a1 = free(x.condition, bound, acc);
            lemma_free_block(x.body.statements@, 0, bound, a1, name);
            let a2 = free_from(x.body.statements@, 0, bound, a1);
            if let Some(b) = x.else_block {
                lemma_free_block(b.statements@, 0, bound, a2, name);
            }
        },
        Statement::For(x) => {
            let a1 = match x.source {
                ForSource::Range { start, end } => free(end, bound, free(start, bound, acc)),
                ForSource::Iterable(e) => free(e, bound, acc),
            };
            match x.source {
                ForSource::Range { start, end } => {
                    law_free_names(start, bound, acc, name);
                    law_free_names(end, bound, free(start, bound, acc), name);
                },
                ForSource::Iterable(e) => {
                    law_free_names(e, bound, acc, name);
                },
            }
            lemma_one_bound(bound, x.var_name@, name);
            lemma_free_block(x.body.statements@, 0, bound.push(x.var_name@), a1, name);
            let a2 = free_from(x.body.statements@, 0, bound.push(x.var_name@), a1);
            if let Some(b) = x.else_block {
                lemma_free_block(b.statements@, 0, bound, a2, name);
            }
        },
        Statement::Defer(x) => {
            law_free_names(x.expr, bound, acc, name);
        },
        Statement::Break(_) | Statement::Continue(_) => {},
    }
}

/// The free variables of a lambda are exactly the names that occur free in its
/// body and are not those of its parameters.
pub proof fn law_free_variables(x: LambdaExpr, name: Chars)
    ensures
        free_variables(x).contains(name) <==> uses(Expr::Lambda(Box::new(x)), name),
{
    lemma_params(x.params@, name, x.params@.len() as int);
    lemma_free_block(
        x.body.statements@,
        0,
        names_of_params(x.params@),
        Seq::empty(),
        name,
    );
}

// ── Deferred statements ──────────────────────────────────────────────

/// What is looked for in a body.
pub enum Sought {
    Defer(Span),
    Return,
    Try,
}

/// Whether what is looked for stands in an expression.
pub open spec fn stands_in(e: Expr, what: Sought) -> bool
    decreases e, 0int,
{
    match e {
        Expr::Literal(_) => false,
        Expr::Ident(x) => false,
        Expr::Binary(x) => stands_in(x.left, what) || stands_in(x.right, what),
        Expr::Unary(x) => stands_in(x.operand, what),
        Expr::Call(x) => stands_in(x.callee, what) || stands_in_any(x.args.positional@, what) || stands_in_named(
            x.args.named@,
            what,
        ),
        Expr::Assignment(x) => stands_in(x.value, what),
        Expr::FieldAssignment(x) => stands_in(x.object, what) || stands_in(x.value, what),
        Expr::FieldAccess(x) => stands_in(x.object, what),
        Expr::MethodCall(x) => stands_in(x.object, what) || stands_in_any(x.args.positional@, what)
            || stands_in_named(x.args.named@, what),
        Expr::StructLiteral(x) => stands_in_any(x.args@, what),
        Expr::Match(x) => stands_in(x.subject, what) || stands_in_arms(x.arms@, what),
        Expr::If(x) => stands_in_if(*x, what),
        Expr::ListLiteral(x) => stands_in_any(x.elements@, what),
        Expr::MapLiteral(x) => stands_in_entries(x.entries@, what),
        Expr::StringInterpolation(x) => stands_in_segments(x.segments@, what),
        Expr::Try(x) => what is Try || stands_in(x.operand, what),
        Expr::Lambda(x) => false,
    }
}

/// The same for one of several expressions.
pub open spec fn stands_in_any(es: Seq<Expr>, what: Sought) -> bool
    decreases es,
{
    exists|i: int| 0 <= i < es.len() && stands_in(#[trigger] es[i], what)
}

pub open spec fn stands_in_named(es: Seq<(String, Expr)>, what: Sought) -> bool
    decreases es,
{
    exists|i: int| 0 <= i < es.len() && stands_in((#[trigger] es[i]).1, what)
}

pub open spec fn stands_in_entries(es: Seq<(Expr, Expr)>, what: Sought) -> bool
    decreases es,
{
    exists|i: int|
        0 <= i < es.len() && (stands_in((#[trigger] es[i]).0, what) || stands_in(es[i].1, what))
}

pub open spec fn stands_in_segments(es: Seq<StringSegment>, what: Sought) -> bool
    decreases es,
{
    exists|i: int|
        0 <= i < es.len() && match #[trigger] es[i] {
            StringSegment::Expr(e) => stands_in(e, what),
            StringSegment::Literal(_) => false,
        }
}

/// The same for one of several arms.
pub open spec fn stands_in_arms(arms: Seq<MatchArm>, what: Sought) -> bool
    decreases arms,
{
    exists|i: int|
        0 <= i < arms.len() && match (#[trigger] arms[i]).body {
            MatchBody::Expr(e) => stands_in(e, what),
            MatchBody::Block(b) => stands_in_block(b.statements@, what),
        }
}

pub open spec fn stands_in_if(x: IfExpr, what: Sought) -> bool
    decreases x, 0int,
{
    stands_in(x.condition, what) || stands_in_block(x.then_block.statements@, what) || match x.else_branch {
        Some(ElseBranch::Block(b)) => stands_in_block(b.statements@, what),
        Some(ElseBranch::ElseIf(y)) => stands_in_if(*y, what),
        None => false,
    }
}

/// The same for one of several statements.
pub open spec fn stands_in_block(ss: Seq<Statement>, what: Sought) -> bool
    decreases ss,
{
    exists|i: int|
        0 <= i < ss.len() && stands_in_statement(#[trigger] ss[i], what)
}

pub open spec fn stands_in_statement(s: Statement, what: Sought) -> bool
    decreases s, 0int,
{
    match s {
        Statement::Expression(x) => stands_in(x.expr, what),
        Statement::VarDecl(x) => stands_in(x.initializer, what),
        Statement::Return(x) => what is Return || match x.value {
            Some(e) => stands_in(e, what),
            None => false,
        },
        Statement::While(x) => stands_in(x.condition, what) || stands_in_block(x.body.statements@, what)
            || match x.else_block {
            Some(b) => stands_in_block(b.statements@, what),
            None => false,
        },
        Statement::For(x) => (match x.source {
            ForSource::Range { start, end } => stands_in(start, what) || stands_in(end, what),
            ForSource::Iterable(e) => stands_in(e, what),
        }) || stands_in_block(x.body.statements@, what) || match x.else_block {
            Some(b) => stands_in_block(b.statements@, what),
            None => false,
        },
        Statement::Defer(x) => what matches Sought::Defer(span) && (x.span == span || stands_in(x.expr, what)),
        Statement::Break(_) | Statement::Continue(_) => false,
    }
}

/// Whether the walk has found what is looked for.
pub open spec fn found(w: DeferWalkerV, what: Sought) -> bool {
    match what {
        Sought::Defer(span) => w.nested_spans.contains(span),
        Sought::Return => w.saw_return_at_top,
        Sought::Try => w.saw_try_at_top,
    }
}

/// Whether it counts inside of another `defer`, or not inside of one.
pub open spec fn counts(what: Sought, nested: bool) -> bool {
    what is Defer || !nested
}

/// A walk finds exactly what stands in the expression, besides what it had
/// found: every `defer`, and every `return` and `?` that is not inside of one.
pub proof fn law_walk_finds(w: DeferWalkerV, e: Expr, nested: bool, what: Sought)
    ensures
        found(seen(w, e, nested), what) <==> found(w, what) || (counts(what, nested) && stands_in(
            e,
            what,
        )),
    decreases e, 0int,
{
    match e {
        Expr::Literal(_) | Expr::Ident(_) | Expr::Lambda(_) => {},
        Expr::Binary(x) => {
            law_walk_finds(w, x.left, nested, what);
            law_walk_finds(seen(w, x.left, nested), x.right, nested, what);
        },
        Expr::Unary(x) => {
            law_walk_finds(w, x.operand, nested, what);
        },
        Expr::Call(x) => {
            let n = x.args.positional@.len() as int;
            let m = x.args.named@.len() as int;
            law_walk_finds(w, x.callee, nested, what);
            let w1 = seen(w, x.callee, nested);
            lemma_walk_list(w1, x.args.positional@, nested, what, n);
            let w2 = seen_n(w1, x.args.positional@, nested, n);
            lemma_walk_named(w2, x.args.named@, nested, what, m);
        },
        Expr::Assignment(x) => {
            law_walk_finds(w, x.value, nested, what);
        },
        Expr::FieldAssignment(x) => {
            law_walk_finds(w, x.object, nested, what);
            law_walk_finds(seen(w, x.object, nested), x.value, nested, what);
        },
        Expr::FieldAccess(x) => {
            law_walk_finds(w, x.object, nested, what);
        },
        Expr::MethodCall(x) => {
            let n = x.args.positional@.len() as int;
            let m = x.args.named@.len() as int;
            law_walk_finds(w, x.object, nested, what);
            let w1 = seen(w, x.object, nested);
            lemma_walk_list(w1, x.args.positional@, nested, what, n);
            let w2 = seen_n(w1, x.args.positional@, nested, n);
            lemma_walk_named(w2, x.args.named@, nested, what, m);
        },
        Expr::StructLiteral(x) => {
            lemma_walk_list(w, x.args@, nested, what, x.args@.len() as int);
        },
        Expr::Match(x) => {
            law_walk_finds(w, x.subject, nested, what);
            let w1 = seen(w, x.subject, nested);
            lemma_walk_arms(w1, x.arms@, nested, what, x.arms@.len() as int);
        },
        Expr::If(x) => {
            lemma_walk_if(w, *x, nested, what);
        },
        Expr::ListLiteral(x) => {
            lemma_walk_list(w, x.elements@, nested, what, x.elements@.len() as int);
        },
        Expr::MapLiteral(x) => {
            lemma_walk_entries(w, x.entries@, nested, what, x.entries@.len() as int);
        },
        Expr::StringInterpolation(x) => {
            lemma_walk_segments(w, x.segments@, nested, what, x.segments@.len() as int);
        },
        Expr::Try(x) => {
            let w1 = DeferWalkerV { saw_try_at_top: w.saw_try_at_top || !nested, ..w };
            law_walk_finds(w1, x.operand, nested, what);
        },
    }
}

proof fn lemma_walk_list(w: DeferWalkerV, es: Seq<Expr>, nested: bool, what: Sought, n: int)
    requires
        0 <= n <= es.len(),
    ensures
        found(seen_n(w, es, nested, n), what) <==> found(w, what) || (counts(what, nested) && exists|
            i: int,
        |
            0 <= i < n && stands_in(#[trigger] es[i], what)),
        n == es.len() ==> (stands_in_any(es, what) <==> exists|i: int| 0 <= i < n && stands_in(#[trigger] es[i], what)),
    decreases es, n,
{
    if n > 0 {
        lemma_walk_list(w, es, nested, what, n - 1);
        let rest = seen_n(w, es, nested, n - 1);
        law_walk_finds(rest, es[n - 1], nested, what);
        if exists|i: int| 0 <= i < n && stands_in(#[trigger] es[i], what) {
            let i = choose|i: int| 0 <= i < n && stands_in(#[trigger] es[i], what);
            if i < n - 1 {
                let e = es[i];
            }
        }
        let last = es[n - 1];
    }
}

proof fn lemma_walk_named(w: DeferWalkerV, es: Seq<(String, Expr)>, nested: bool, what: Sought, n: int)
    requires
        0 <= n <= es.len(),
    ensures
        found(seen_named_n(w, es, nested, n), what) <==> found(w, what) || (counts(what, nested) && exists|
            i: int,
        |
            0 <= i < n && stands_in((#[trigger] es[i]).1, what)),
        n == es.len() ==> (stands_in_named(es, what) <==> exists|i: int| 0 <= i < n && stands_in((#[trigger] es[i]).1, what)),
    decreases es, n,
{
    if n > 0 {
        lemma_walk_named(w, es, nested, what, n - 1);
        let rest = seen_named_n(w, es, nested, n - 1);
        law_walk_finds(rest, es[n - 1].1, nested, what);
        if exists|i: int| 0 <= i < n && stands_in((#[trigger] es[i]).1, what) {
            let i = choose|i: int| 0 <= i < n && stands_in((#[trigger] es[i]).1, what);
            if i < n - 1 {
                let e = es[i];
            }
        }
        let last = es[n - 1];
    }
}

proof fn lemma_walk_entries(w: DeferWalkerV, es: Seq<(Expr, Expr)>, nested: bool, what: Sought, n: int)
    requires
        0 <= n <= es.len(),
    ensures
        found(seen_entries_n(w, es, nested, n), what) <==> found(w, what) || (counts(what, nested) && exists|
            i: int,
        |
            0 <= i < n && (stands_in((#[trigger] es[i]).0, what) || stands_in(es[i].1, what))),
        n == es.len() ==> (stands_in_entries(es, what) <==> exists|i: int| 0 <= i < n && (stands_in((#[trigger] es[i]).0, what) || stands_in(es[i].1, what))),
    decreases es, n,
{
    if n > 0 {
        lemma_walk_entries(w, es, nested, what, n - 1);
        let rest = seen_entries_n(w, es, nested, n - 1);
        law_walk_finds(rest, es[n - 1].0, nested, what);
        law_walk_finds(seen(rest, es[n - 1].0, nested), es[n - 1].1, nested, what);
        if exists|i: int| 0 <= i < n && (stands_in((#[trigger] es[i]).0, what) || stands_in(es[i].1, what)) {
            let i = choose|i: int| 0 <= i < n && (stands_in((#[trigger] es[i]).0, what) || stands_in(es[i].1, what));
            if i < n - 1 {
                let e = es[i];
            }
        }
        let last = es[n - 1];
    }
}

proof fn lemma_walk_segments(w: DeferWalkerV, es: Seq<StringSegment>, nested: bool, what: Sought, n: int)
    requires
        0 <= n <= es.len(),
    ensures
        found(seen_segments_n(w, es, nested, n), what) <==> found(w, what) || (counts(what, nested) && exists|
            i: int,
        |
            0 <= i < n && match #[trigger] es[i] {
                StringSegment::Expr(e) => stands_in(e, what),
                StringSegment::Literal(_) => false,
            }),
        n == es.len() ==> (stands_in_segments(es, what) <==> exists|i: int| 0 <= i < n && match #[trigger] es[i] {
                StringSegment::Expr(e) => stands_in(e, what),
                StringSegment::Literal(_) => false,
            }),
    decreases es, n,
{
    if n > 0 {
        lemma_walk_segments(w, es, nested, what, n - 1);
        let rest = seen_segments_n(w, es, nested, n - 1);
        if let StringSegment::Expr(e) = es[n - 1] {
            law_walk_finds(rest, e, nested, what);
        }
        if exists|i: int| 0 <= i < n && match #[trigger] es[i] {
                StringSegment::Expr(e) => stands_in(e, what),
                StringSegment::Literal(_) => false,
            } {
            let i = choose|i: int| 0 <= i < n && match #[trigger] es[i] {
                StringSegment::Expr(e) => stands_in(e, what),
                StringSegment::Literal(_) => false,
            };
            if i < n - 1 {
                let e = es[i];
            }
        }
        let last = es[n - 1];
    }
}

proof fn lemma_walk_arms(w: DeferWalkerV, es: Seq<MatchArm>, nested: bool, what: Sought, n: int)
    requires
        0 <= n <= es.len(),
    ensures
        found(seen_arms_n(w, es, nested, n), what) <==> found(w, what) || (counts(what, nested) && exists|
            i: int,
        |
            0 <= i < n && match (#[trigger] es[i]).body {
                MatchBody::Expr(e) => stands_in(e, what),
                MatchBody::Block(b) => stands_in_block(b.statements@, what),
            }),
        n == es.len() ==> (stands_in_arms(es, what) <==> exists|i: int| 0 <= i < n && match (#[trigger] es[i]).body {
                MatchBody::Expr(e) => stands_in(e, what),
                MatchBody::Block(b) => stands_in_block(b.statements@, what),
            }),
    decreases es, n,
{
    if n > 0 {
        lemma_walk_arms(w, es, nested, what, n - 1);
        let rest = seen_arms_n(w, es, nested, n - 1);
        match es[n - 1].body {
            MatchBody::Expr(e) => {
                law_walk_finds(rest, e, nested, what);
            },
            MatchBody::Block(b) => {
                lemma_walk_stmts(rest, b.statements@, nested, what, b.statements@.len() as int);
            },
        }
        if exists|i: int| 0 <= i < n && match (#[trigger] es[i]).body {
                MatchBody::Expr(e) => stands_in(e, what),
                MatchBody::Block(b) => stands_in_block(b.statements@, what),
            } {
            let i = choose|i: int| 0 <= i < n && match (#[trigger] es[i]).body {
                MatchBody::Expr(e) => stands_in(e, what),
                MatchBody::Block(b) => stands_in_block(b.statements@, what),
            };
            if i < n - 1 {
                let e = es[i];
            }
        }
        let last = es[n - 1];
    }
}

proof fn lemma_walk_stmts(w: DeferWalkerV, es: Seq<Statement>, nested: bool, what: Sought, n: int)
    requires
        0 <= n <= es.len(),
    ensures
        found(seen_stmts_n(w, es, nested, n), what) <==> found(w, what) || (counts(what, nested) && exists|
            i: int,
        |
            0 <= i < n && stands_in_statement(#[trigger] es[i], what)),
        n == es.len() ==> (stands_in_block(es, what) <==> exists|i: int| 0 <= i < n && stands_in_statement(#[trigger] es[i], what)),
    decreases es, n,
{
    if n > 0 {
        lemma_walk_stmts(w, es, nested, what, n - 1);
        let rest = seen_stmts_n(w, es, nested, n - 1);
        law_walk_of_a_statement_finds(rest, es[n - 1], nested, what);
        if exists|i: int| 0 <= i < n && stands_in_statement(#[trigger] es[i], what) {
            let i = choose|i: int| 0 <= i < n && stands_in_statement(#[trigger] es[i], what);
            if i < n - 1 {
                let e = es[i];
            }
        }
        let last = es[n - 1];
    }
}

proof fn lemma_walk_if(w: DeferWalkerV, x: IfExpr, nested: bool, what: Sought)
    ensures
        found(seen_if(w, x, nested), what) <==> found(w, what) || (counts(what, nested)
            && stands_in_if(x, what)),
    decreases x, 0int,
{
    let n = x.then_block.statements@.len() as int;
    law_walk_finds(w, x.condition, nested, what);
    let w1 = seen(w, x.condition, nested);
    lemma_walk_stmts(w1, x.then_block.statements@, nested, what, n);
    let w2 = seen_stmts_n(w1, x.then_block.statements@, nested, n);
    match x.else_branch {
        Some(ElseBranch::Block(b)) => {
            lemma_walk_stmts(w2, b.statements@, nested, what, b.statements@.len() as int);
        },
        Some(ElseBranch::ElseIf(y)) => {
            lemma_walk_if(w2, *y, nested, what);
        },
        None => {},
    }
}

/// The same of a statement.
pub proof fn law_walk_of_a_statement_finds(
    w: DeferWalkerV,
    s: Statement,
    nested: bool,
    what: Sought,
)
    ensures
        found(seen_stmt(w, s, nested), what) <==> found(w, what) || (counts(what, nested)
            && stands_in_statement(s, what)),
    decreases s, 0int,
{
    match s {
        Statement::Expression(x) => {
            law_walk_finds(w, x.expr, nested, what);
        },
        Statement::VarDecl(x) => {
            law_walk_finds(w, x.initializer, nested, what);
        },
        Statement::Return(x) => {
            let w1 = DeferWalkerV { saw_return_at_top: w.saw_return_at_top || !nested, ..w };
            if let Some(e) = x.value {
                law_walk_finds(w1, e, nested, what);
            }
        },
        Statement::While(x) => {
            let n = x.body.statements@.len() as int;
            law_walk_finds(w, x.condition, nested, what);
            let w1 = seen(w, x.condition, nested);
            lemma_walk_stmts(w1, x.body.statements@, nested, what, n);
            let w2 = seen_stmts_n(w1, x.body.statements@, nested, n);
            if let Some(b) = x.else_block {
                lemma_walk_stmts(w2, b.statements@, nested, what, b.statements@.len() as int);
            }
        },
        Statement::For(x) => {
            let n = x.body.statements@.len() as int;
            let w1 = match x.source {
                ForSource::Range { start, end } => seen(seen(w, start, nested), end, nested),
                ForSource::Iterable(e) => seen(w, e, nested),
            };
            match x.source {
                ForSource::Range { start, end } => {
                    law_walk_finds(w, start, nested, what);
                    law_walk_finds(seen(w, start, nested), end, nested, what);
                },
                ForSource::Iterable(e) => {
                    law_walk_finds(w, e, nested, what);
                },
            }
            lemma_walk_stmts(w1, x.body.statements@, nested, what, n);
            let w2 = seen_stmts_n(w1, x.body.statements@, nested, n);
            if let Some(b) = x.else_block {
                lemma_walk_stmts(w2, b.statements@, nested, what, b.statements@.len() as int);
            }
        },
        Statement::Defer(x) => {
            let w1 = DeferWalkerV { nested_spans: w.nested_spans.push(x.span), ..w };
            law_walk_finds(w1, x.expr, true, what);
            if let Sought::Defer(span) = what {
                if w.nested_spans.contains(span) {
                    let k = choose|k: int|
                        0 <= k < w.nested_spans.len() && w.nested_spans[k] == span;
                    assert(w1.nested_spans[k] == span);
                }
                if x.span == span {
                    assert(w1.nested_spans.last() == span);
                }
                if w1.nested_spans.contains(span) && x.span != span {
                    let k = choose|k: int|
                        0 <= k < w1.nested_spans.len() && w1.nested_spans[k] == span;
                    assert(w.nested_spans[k] == span);
                }
            }
        },
        Statement::Break(_) | Statement::Continue(_) => {},
    }
}

} // verus!
