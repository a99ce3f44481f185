//! What holds of the variables that a lambda captures.
use crate::ast::{
    ElseBranch, Expr, ForSource, IfExpr, LambdaExpr, MatchArm, MatchBody, Pattern, Statement,
    StringSegment, VarDeclTarget,
};
use crate::check_expr::captured_n;
use crate::free_vars::{
    declared, free, free_arms_n, free_entries_n, free_from, free_if, free_n, free_named_n,
    free_segments_n, free_stmt, free_variables, names_of_params, noted, pattern_bound,
};
use crate::state::StateV;
use crate::text::Chars;
use vstd::prelude::*;

verus! {

/// Each name once, and none of those to avoid.
#[verifier::opaque]
pub open spec fn apart(acc: Seq<Chars>, avoid: Seq<Chars>) -> bool {
    acc.no_duplicates() && forall|i: int|
        0 <= i < acc.len() ==> !avoid.contains(#[trigger] acc[i])
}

/// Whether every name to avoid is bound.
#[verifier::opaque]
pub open spec fn within(avoid: Seq<Chars>, bound: Seq<Chars>) -> bool {
    forall|x: Chars| #[trigger] avoid.contains(x) ==> bound.contains(x)
}

proof fn lemma_within_more(avoid: Seq<Chars>, bound: Seq<Chars>, more: Seq<Chars>)
    requires
        within(avoid, bound),
    ensures
        within(avoid, bound + more),
{
    reveal(within);
    assert forall|x: Chars| #[trigger] avoid.contains(x) implies (bound + more).contains(x) by {
        let i = choose|i: int| 0 <= i < bound.len() && bound[i] == x;
        assert((bound + more)[i] == x);
    }
}

proof fn lemma_within_push(avoid: Seq<Chars>, bound: Seq<Chars>, name: Chars)
    requires
        within(avoid, bound),
    ensures
        within(avoid, bound.push(name)),
{
    lemma_within_more(avoid, bound, seq![name]);
    assert(bound + seq![name] =~= bound.push(name));
}

proof fn lemma_within_declared(avoid: Seq<Chars>, bound: Seq<Chars>, s: Statement)
    requires
        within(avoid, bound),
    ensures
        within(avoid, declared(s, bound)),
{
    if let Statement::VarDecl(v) = s {
        match v.target {
            VarDeclTarget::Simple(n) => {
                lemma_within_push(avoid, bound, n@);
            },
            VarDeclTarget::StructDestructure { struct_name, field_names } => {
                lemma_within_more(avoid, bound, field_names.deep_view());
            },
        }
    }
}

proof fn lemma_within_pattern(avoid: Seq<Chars>, bound: Seq<Chars>, p: Pattern)
    requires
        within(avoid, bound),
    ensures
        within(avoid, pattern_bound(p, bound)),
{
    match p {
        Pattern::Binding(n, _) => {
            lemma_within_push(avoid, bound, n@);
        },
        Pattern::Variant(v) => {
            lemma_within_more(avoid, bound, v.bindings.deep_view());
        },
        _ => {},
    }
}

proof fn apart_noted(name: Chars, bound: Seq<Chars>, acc: Seq<Chars>, avoid: Seq<Chars>)
    requires
        apart(acc, avoid),
        within(avoid, bound),
    ensures
        apart(noted(name, bound, acc), avoid),
{
    reveal(apart);
    reveal(within);
}

proof fn apart_free(e: Expr, bound: Seq<Chars>, acc: Seq<Chars>, avoid: Seq<Chars>)
    requires
        apart(acc, avoid),
        within(avoid, bound),
    ensures
        apart(free(e, bound, acc), avoid),
    decreases e, 0int,
{
    match e {
        Expr::Literal(_) => {},
        Expr::Ident(x) => {
            apart_noted(x.name@, bound, acc, avoid);
        },
        Expr::Binary(x) => {
            apart_free(x.left, bound, acc, avoid);
            apart_free(x.right, bound, free(x.left, bound, acc), avoid);
        },
        Expr::Unary(x) => {
            apart_free(x.operand, bound, acc, avoid);
        },
        Expr::Call(x) => {
            let n = x.args.positional@.len() as int;
            apart_free(x.callee, bound, acc, avoid);
            let a1 = free(x.callee, bound, acc);
            apart_free_n(x.args.positional@, bound, a1, avoid, n);
            let a2 = free_n(x.args.positional@, bound, a1, n);
            apart_free_named_n(x.args.named@, bound, a2, avoid, x.args.named@.len() as int);
        },
        Expr::Assignment(x) => {
            apart_noted(x.name@, bound, acc, avoid);
            apart_free(x.value, bound, noted(x.name@, bound, acc), avoid);
        },
        Expr::FieldAssignment(x) => {
            apart_free(x.object, bound, acc, avoid);
            apart_free(x.value, bound, free(x.object, bound, acc), avoid);
        },
        Expr::FieldAccess(x) => {
            apart_free(x.object, bound, acc, avoid);
        },
        Expr::MethodCall(x) => {
            let n = x.args.positional@.len() as int;
            apart_free(x.object, bound, acc, avoid);
            let a1 = free(x.object, bound, acc);
            apart_free_n(x.args.positional@, bound, a1, avoid, n);
            let a2 = free_n(x.args.positional@, bound, a1, n);
            apart_free_named_n(x.args.named@, bound, a2, avoid, x.args.named@.len() as int);
        },
        Expr::StructLiteral(x) => {
            apart_free_n(x.args@, bound, acc, avoid, x.args@.len() as int);
        },
        Expr::Match(x) => {
            apart_free(x.subject, bound, acc, avoid);
            apart_free_arms_n(
                x.arms@,
                bound,
                free(x.subject, bound, acc),
                avoid,
                x.arms@.len() as int,
            );
        },
        Expr::If(x) => {
            apart_free_if(*x, bound, acc, avoid);
        },
        Expr::ListLiteral(x) => {
            apart_free_n(x.elements@, bound, acc, avoid, x.elements@.len() as int);
        },
        Expr::MapLiteral(x) => {
            apart_free_entries_n(x.entries@, bound, acc, avoid, x.entries@.len() as int);
        },
        Expr::StringInterpolation(x) => {
            apart_free_segments_n(x.segments@, bound, acc, avoid, x.segments@.len() as int);
        },
        Expr::Try(x) => {
            apart_free(x.operand, bound, acc, avoid);
        },
        Expr::Lambda(x) => {
            lemma_within_more(avoid, bound, names_of_params(x.params@));
            apart_free_from(
                x.body.statements@,
                0,
                bound + names_of_params(x.params@),
                acc,
                avoid,
            );
        },
    }
}

proof fn apart_free_n(
    es: Seq<Expr>,
    bound: Seq<Chars>,
    acc: Seq<Chars>,
    avoid: Seq<Chars>,
    n: int,
)
    requires
        apart(acc, avoid),
        within(avoid, bound),
    ensures
        apart(free_n(es, bound, acc, n), avoid),
    decreases es, n,
{
    if 0 < n <= es.len() {
        apart_free_n(es, bound, acc, avoid, n - 1);
        apart_free(es[n - 1], bound, free_n(es, bound, acc, n - 1), avoid);
    }
}

proof fn apart_free_named_n(
    es: Seq<(String, Expr)>,
    bound: Seq<Chars>,
    acc: Seq<Chars>,
    avoid: Seq<Chars>,
    n: int,
)
    requires
        apart(acc, avoid),
        within(avoid, bound),
    ensures
        apart(free_named_n(es, bound, acc, n), avoid),
    decreases es, n,
{
    if 0 < n <= es.len() {
        apart_free_named_n(es, bound, acc, avoid, n - 1);
        apart_free(es[n - 1].1, bound, free_named_n(es, bound, acc, n - 1), avoid);
    }
}

proof fn apart_free_entries_n(
    es: Seq<(Expr, Expr)>,
    bound: Seq<Chars>,
    acc: Seq<Chars>,
    avoid: Seq<Chars>,
    n: int,
)
    requires
        apart(acc, avoid),
        within(avoid, bound),
    ensures
        apart(free_entries_n(es, bound, acc, n), avoid),
    decreases es, n,
{
    if 0 < n <= es.len() {
        apart_free_entries_n(es, bound, acc, avoid, n - 1);
        let a = free_entries_n(es, bound, acc, n - 1);
        apart_free(es[n - 1].0, bound, a, avoid);
        apart_free(es[n - 1].1, bound, free(es[n - 1].0, bound, a), avoid);
    }
}

proof fn apart_free_segments_n(
    es: Seq<StringSegment>,
    bound: Seq<Chars>,
    acc: Seq<Chars>,
    avoid: Seq<Chars>,
    n: int,
)
    requires
        apart(acc, avoid),
        within(avoid, bound),
    ensures
        apart(free_segments_n(es, bound, acc, n), avoid),
    decreases es, n,
{
    if 0 < n <= es.len() {
        apart_free_segments_n(es, bound, acc, avoid, n - 1);
        if let StringSegment::Expr(e) = es[n - 1] {
            apart_free(e, bound, free_segments_n(es, bound, acc, n - 1), avoid);
        }
    }
}

proof fn apart_free_arms_n(
    arms: Seq<MatchArm>,
    bound: Seq<Chars>,
    acc: Seq<Chars>,
    avoid: Seq<Chars>,
    n: int,
)
    requires
        apart(acc, avoid),
        within(avoid, bound),
    ensures
        apart(free_arms_n(arms, bound, acc, n), avoid),
    decreases arms, n,
{
    if 0 < n <= arms.len() {
        apart_free_arms_n(arms, bound, acc, avoid, n - 1);
        let a = free_arms_n(arms, bound, acc, n - 1);
        let inner = pattern_bound(arms[n - 1].pattern, bound);
        lemma_within_pattern(avoid, bound, arms[n - 1].pattern);
        match arms[n - 1].body {
            MatchBody::Expr(e) => {
                apart_free(e, inner, a, avoid);
            },
            MatchBody::Block(b) => {
                apart_free_from(b.statements@, 0, inner, a, avoid);
            },
        }
    }
}

proof fn apart_free_if(x: IfExpr, bound: Seq<Chars>, acc: Seq<Chars>, avoid: Seq<Chars>)
    requires
        apart(acc, avoid),
        within(avoid, bound),
    ensures
        apart(free_if(x, bound, acc), avoid),
    decreases x, 0int,
{
    apart_free(x.condition, bound, acc, avoid);
    let a1 = free(x.condition, bound, acc);
    apart_free_from(x.then_block.statements@, 0, bound, a1, avoid);
    let a2 = free_from(x.then_block.statements@, 0, bound, a1);
    match x.else_branch {
        Some(ElseBranch::Block(b)) => {
            apart_free_from(b.statements@, 0, bound, a2, avoid);
        },
        Some(ElseBranch::ElseIf(y)) => {
            apart_free_if(*y, bound, a2, avoid);
        },
        None => {},
    }
}

proof fn apart_free_from(
    ss: Seq<Statement>,
    i: int,
    bound: Seq<Chars>,
    acc: Seq<Chars>,
    avoid: Seq<Chars>,
)
    requires
        apart(acc, avoid),
        within(avoid, bound),
    ensures
        apart(free_from(ss, i, bound, acc), avoid),
    decreases ss, ss.len() - i,
{
    if 0 <= i < ss.len() {
        apart_free_stmt(ss[i], bound, acc, avoid);
        lemma_within_declared(avoid, bound, ss[i]);
        apart_free_from(
            ss,
            i + 1,
            declared(ss[i], bound),
            free_stmt(ss[i], bound, acc),
            avoid,
        );
    }
}

proof fn apart_free_stmt(s: Statement, bound: Seq<Chars>, acc: Seq<Chars>, avoid: Seq<Chars>)
    requires
        apart(acc, avoid),
        within(avoid, bound),
    ensures
        apart(free_stmt(s, bound, acc), avoid),
    decreases s, 0int,
{
    match s {
        Statement::Expression(x) => {
            apart_free(x.expr, bound, acc, avoid);
        },
        Statement::VarDecl(x) => {
            apart_free(x.initializer, bound, acc, avoid);
        },
        Statement::Return(x) => {
            if let Some(e) = x.value {
                apart_free(e, bound, acc, avoid);
            }
        },
        Statement::While(x) => {
            apart_free(x.condition, bound, acc, avoid);
            let a1 = free(x.condition, bound, acc);
            apart_free_from(x.body.statements@, 0, bound, a1, avoid);
            let a2 = free_from(x.body.statements@, 0, bound, a1);
            if let Some(b) = x.else_block {
                apart_free_from(b.statements@, 0, bound, a2, avoid);
            }
        },
        Statement::For(x) => {
            let a1 = match x.source {
                ForSource::Range { start, end } => free(end, bound, free(start, bound, acc)),
                ForSource::Iterable(e) => free(e, bound, acc),
            };
            match x.source {
                ForSource::Range { start, end } => {
                    apart_free(start, bound, acc, avoid);
                    apart_free(end, bound, free(start, bound, acc), avoid);
                },
                ForSource::Iterable(e) => {
                    apart_free(e, bound, acc, avoid);
                },
            }
            lemma_within_push(avoid, bound, x.var_name@);
            apart_free_from(x.body.statements@, 0, bound.push(x.var_name@), a1, avoid);
            let a2 = free_from(x.body.statements@, 0, bound.push(x.var_name@), a1);
            if let Some(b) = x.else_block {
                apart_free_from(b.statements@, 0, bound, a2, avoid);
            }
        },
        Statement::Defer(x) => {
            apart_free(x.expr, bound, acc, avoid);
        },
        Statement::Break(_) => {},
        Statement::Continue(_) => {},
    }
}

/// A lambda captures each variable once, and none of its own parameters.
pub proof fn law_captures_are_distinct(x: LambdaExpr)
    ensures
        free_variables(x).no_duplicates(),
        forall|i: int|
            0 <= i < free_variables(x).len() ==> !names_of_params(x.params@).contains(
                #[trigger] free_variables(x)[i],
            ),
{
    reveal(apart);
    reveal(within);
    let params = names_of_params(x.params@);
    assert(apart(Seq::empty(), params));
    assert(within(params, params));
    apart_free_from(x.body.statements@, 0, params, Seq::empty(), params);
}

/// What is recorded as captured are variables that exist around the lambda,
/// with what they are.
pub proof fn law_captures_exist(st: StateV, names: Seq<Chars>, n: int)
    requires
        0 <= n <= names.len(),
    ensures
        forall|i: int|
            0 <= i < captured_n(st, names, n).len() ==> names.take(n).contains(
                (#[trigger] captured_n(st, names, n)[i]).name,
            ) && match st.variable(captured_n(st, names, n)[i].name) {
                Some(v) => v.is_mut == captured_n(st, names, n)[i].is_mut,
                None => false,
            },
    decreases n,
{
    if n > 0 {
        law_captures_exist(st, names, n - 1);
        let rest = captured_n(st, names, n - 1);
        let r = captured_n(st, names, n);
        assert forall|i: int| 0 <= i < r.len() implies names.take(n).contains(
            (#[trigger] r[i]).name,
        ) && match st.variable(r[i].name) {
            Some(v) => v.is_mut == r[i].is_mut,
            None => false,
        } by {
            if i < rest.len() {
                assert(r[i] == rest[i]);
                let before = names.take(n - 1);
                let k = choose|k: int| 0 <= k < before.len() && #[trigger] before[k] == r[i].name;
                assert(names.take(n)[k] == r[i].name);
            } else {
                assert(names.take(n)[n - 1] == r[i].name);
            }
        }
    }
}

} // verus!
