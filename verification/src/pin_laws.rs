//! What pinning does to the recorded types.
use crate::ast::{expr_span, Block, ElseBranch, Expr, IfExpr, MatchArm, MatchBody, Statement};
use crate::env::EnvV;
use crate::pin::{
    constructed, filled, only_refined, pinned, pinned_arms_n, pinned_branches, pinned_constructor,
    pinned_each_n, pinned_entries_n, pinned_n, pinned_tail, refines,
};
use crate::span::Span;
use crate::state::StateV;
use crate::table::{find, law_find_after_put};
use crate::types::Ty;
use vstd::prelude::*;

verus! {

broadcast use crate::pin::refinements;

/// Pinning fills gaps and does nothing else: a type that is recorded without
/// type parameters stays as it is, and one with type parameters is either kept
/// or becomes the same generic type without any.
pub proof fn law_pinning_only_refines(env: EnvV, st: StateV, e: Expr, declared: Ty)
    ensures
        only_refined(st, pinned(env, st, e, declared)),
    decreases e, 1int,
{
    match e {
        Expr::ListLiteral(x) => {
            if declared is Generic && x.elements@.len() > 0 && declared->Generic_1.len() > 0 {
                refined_by_n(
                    env,
                    st,
                    x.elements@,
                    declared->Generic_1[0],
                    x.elements@.len() as int,
                );
            } else {
                refined_by_constructor(env, st, e, declared);
            }
        },
        Expr::MapLiteral(x) => {
            if declared is Generic && x.entries@.len() > 0 && declared->Generic_1.len() == 2 {
                refined_by_entries_n(
                    env,
                    st,
                    x.entries@,
                    declared->Generic_1[0],
                    declared->Generic_1[1],
                    x.entries@.len() as int,
                );
            } else {
                refined_by_constructor(env, st, e, declared);
            }
        },
        Expr::If(x) => {
            refined_by_branches(env, st, *x, declared);
        },
        Expr::Match(x) => {
            refined_by_arms_n(env, st, x.arms@, declared, x.arms@.len() as int);
        },
        _ => {
            refined_by_constructor(env, st, e, declared);
        },
    }
}

proof fn refined_by_constructor(env: EnvV, st: StateV, e: Expr, declared: Ty)
    ensures
        only_refined(st, pinned_constructor(env, st, e, declared)),
    decreases e, 0int,
{
    match (e, declared) {
        (Expr::StructLiteral(x), Ty::Generic(owner, ds)) => {
            match constructed(env, owner, x.name@, x.args@.len(), ds) {
                Some(ts) => {
                    refined_by_each_n(env, st, x.args@, ts, x.args@.len() as int);
                },
                None => {},
            }
        },
        (Expr::Call(x), Ty::Generic(owner, ds)) => {
            match x.callee {
                Expr::Ident(id) => {
                    let args = x.args.positional@;
                    match constructed(env, owner, id.name@, args.len(), ds) {
                        Some(ts) => {
                            refined_by_each_n(env, st, args, ts, args.len() as int);
                        },
                        None => {},
                    }
                },
                _ => {},
            }
        },
        _ => {},
    }
}

proof fn refined_by_n(env: EnvV, st: StateV, es: Seq<Expr>, declared: Ty, n: int)
    ensures
        only_refined(st, pinned_n(env, st, es, declared, n)),
    decreases es, n,
{
    if 0 < n <= es.len() {
        refined_by_n(env, st, es, declared, n - 1);
        law_pinning_only_refines(env, pinned_n(env, st, es, declared, n - 1), es[n - 1], declared);
    }
}

proof fn refined_by_each_n(env: EnvV, st: StateV, es: Seq<Expr>, ts: Seq<Ty>, n: int)
    ensures
        only_refined(st, pinned_each_n(env, st, es, ts, n)),
    decreases es, n,
{
    if 0 < n <= es.len() {
        refined_by_each_n(env, st, es, ts, n - 1);
        if n <= ts.len() {
            law_pinning_only_refines(env, pinned_each_n(env, st, es, ts, n - 1), es[n - 1], ts[n - 1]);
        }
    }
}

proof fn refined_by_entries_n(
    env: EnvV,
    st: StateV,
    es: Seq<(Expr, Expr)>,
    k: Ty,
    v: Ty,
    n: int,
)
    ensures
        only_refined(st, pinned_entries_n(env, st, es, k, v, n)),
    decreases es, n,
{
    if 0 < n <= es.len() {
        refined_by_entries_n(env, st, es, k, v, n - 1);
        let s1 = pinned_entries_n(env, st, es, k, v, n - 1);
        law_pinning_only_refines(env, s1, es[n - 1].0, k);
        law_pinning_only_refines(env, pinned(env, s1, es[n - 1].0, k), es[n - 1].1, v);
    }
}

proof fn refined_by_tail(env: EnvV, st: StateV, b: Block, declared: Ty)
    ensures
        only_refined(st, pinned_tail(env, st, b, declared)),
    decreases b, 1int,
{
    if b.statements@.len() > 0 {
        match b.statements@.last() {
            Statement::Expression(s) => {
                law_pinning_only_refines(env, st, s.expr, declared);
            },
            _ => {},
        }
    }
}

proof fn refined_by_arms_n(env: EnvV, st: StateV, arms: Seq<MatchArm>, declared: Ty, n: int)
    ensures
        only_refined(st, pinned_arms_n(env, st, arms, declared, n)),
    decreases arms, n,
{
    if 0 < n <= arms.len() {
        refined_by_arms_n(env, st, arms, declared, n - 1);
        let s1 = pinned_arms_n(env, st, arms, declared, n - 1);
        match arms[n - 1].body {
            MatchBody::Expr(e) => {
                law_pinning_only_refines(env, s1, e, declared);
            },
            MatchBody::Block(b) => {
                refined_by_tail(env, s1, b, declared);
            },
        }
    }
}

proof fn refined_by_branches(env: EnvV, st: StateV, x: IfExpr, declared: Ty)
    ensures
        only_refined(st, pinned_branches(env, st, x, declared)),
    decreases x, 1int,
{
    let s1 = pinned_tail(env, st, x.then_block, declared);
    refined_by_tail(env, st, x.then_block, declared);
    match x.else_branch {
        Some(ElseBranch::Block(b)) => {
            refined_by_tail(env, s1, b, declared);
        },
        Some(ElseBranch::ElseIf(y)) => {
            refined_by_branches(env, s1, *y, declared);
        },
        None => {},
    }
}

// ── Nothing is left out ──────────────────────────────────────────────

/// Whether the type recorded at `span` has no gap that `declared` would fill.
pub open spec fn no_gap(st: StateV, span: Span, declared: Ty) -> bool {
    !refines(find(st.expr_types, span), declared)
}

proof fn lemma_gap_stays_filled(a: StateV, b: StateV, span: Span, declared: Ty)
    requires
        only_refined(a, b),
        no_gap(a, span, declared),
    ensures
        no_gap(b, span, declared),
{
    reveal(only_refined);
    assert(filled(find(a.expr_types, span), find(b.expr_types, span)));
}

/// After pinning, the type recorded for the expression has no gap that the
/// declared type would fill.
pub proof fn law_pinning_leaves_no_gap(env: EnvV, st: StateV, e: Expr, declared: Ty)
    ensures
        no_gap(pinned(env, st, e, declared), expr_span(e), declared),
{
    let r = pinned(env, st, e, declared);
    assert forall|s: StateV| #[trigger] crate::pin::refined(s, expr_span(e), declared) == r implies
        no_gap(r, expr_span(e), declared) by {
        law_find_after_put(s.expr_types, expr_span(e), declared);
    }
}

/// Every one of several expressions is left without such a gap.
pub proof fn law_pinning_reaches_every_element(
    env: EnvV,
    st: StateV,
    es: Seq<Expr>,
    declared: Ty,
    n: int,
)
    requires
        0 <= n <= es.len(),
    ensures
        forall|i: int|
            0 <= i < n ==> no_gap(
                pinned_n(env, st, es, declared, n),
                expr_span(#[trigger] es[i]),
                declared,
            ),
    decreases n,
{
    if n > 0 {
        law_pinning_reaches_every_element(env, st, es, declared, n - 1);
        let s = pinned_n(env, st, es, declared, n - 1);
        let r = pinned_n(env, st, es, declared, n);
        law_pinning_only_refines(env, s, es[n - 1], declared);
        law_pinning_leaves_no_gap(env, s, es[n - 1], declared);
        assert forall|i: int| 0 <= i < n implies no_gap(
            r,
            expr_span(#[trigger] es[i]),
            declared,
        ) by {
            if i < n - 1 {
                lemma_gap_stays_filled(s, r, expr_span(es[i]), declared);
            }
        }
    }
}

/// Every argument of a constructor is left without a gap that its type would
/// fill.
pub proof fn law_pinning_reaches_every_argument(
    env: EnvV,
    st: StateV,
    es: Seq<Expr>,
    ts: Seq<Ty>,
    n: int,
)
    requires
        0 <= n <= es.len() <= ts.len(),
    ensures
        forall|i: int|
            0 <= i < n ==> no_gap(
                pinned_each_n(env, st, es, ts, n),
                expr_span(#[trigger] es[i]),
                ts[i],
            ),
    decreases n,
{
    if n > 0 {
        law_pinning_reaches_every_argument(env, st, es, ts, n - 1);
        let s = pinned_each_n(env, st, es, ts, n - 1);
        let r = pinned_each_n(env, st, es, ts, n);
        law_pinning_only_refines(env, s, es[n - 1], ts[n - 1]);
        law_pinning_leaves_no_gap(env, s, es[n - 1], ts[n - 1]);
        assert forall|i: int| 0 <= i < n implies no_gap(r, expr_span(#[trigger] es[i]), ts[i]) by {
            if i < n - 1 {
                lemma_gap_stays_filled(s, r, expr_span(es[i]), ts[i]);
            }
        }
    }
}

/// The key and the value of every entry of a map are left without a gap that
/// the types of the map would fill.
pub proof fn law_pinning_reaches_every_entry(
    env: EnvV,
    st: StateV,
    es: Seq<(Expr, Expr)>,
    k: Ty,
    v: Ty,
    n: int,
)
    requires
        0 <= n <= es.len(),
    ensures
        forall|i: int|
            0 <= i < n ==> no_gap(
                pinned_entries_n(env, st, es, k, v, n),
                expr_span((#[trigger] es[i]).0),
                k,
            ) && no_gap(pinned_entries_n(env, st, es, k, v, n), expr_span(es[i].1), v),
    decreases n,
{
    if n > 0 {
        law_pinning_reaches_every_entry(env, st, es, k, v, n - 1);
        let s = pinned_entries_n(env, st, es, k, v, n - 1);
        let m = pinned(env, s, es[n - 1].0, k);
        let r = pinned_entries_n(env, st, es, k, v, n);
        law_pinning_only_refines(env, s, es[n - 1].0, k);
        law_pinning_leaves_no_gap(env, s, es[n - 1].0, k);
        law_pinning_only_refines(env, m, es[n - 1].1, v);
        law_pinning_leaves_no_gap(env, m, es[n - 1].1, v);
        lemma_gap_stays_filled(m, r, expr_span(es[n - 1].0), k);
        assert forall|i: int| 0 <= i < n implies no_gap(r, expr_span((#[trigger] es[i]).0), k)
            && no_gap(r, expr_span(es[i].1), v) by {
            if i < n - 1 {
                lemma_gap_stays_filled(s, r, expr_span(es[i].0), k);
                lemma_gap_stays_filled(s, r, expr_span(es[i].1), v);
            }
        }
    }
}

/// The value at the end of a block is left without a gap that the declared type
/// would fill.
pub proof fn law_pinning_reaches_the_tail(env: EnvV, st: StateV, b: Block, declared: Ty)
    requires
        b.statements@.len() > 0,
        b.statements@.last() is Expression,
    ensures
        no_gap(
            pinned_tail(env, st, b, declared),
            expr_span(b.statements@.last()->Expression_0.expr),
            declared,
        ),
{
    law_pinning_leaves_no_gap(env, st, b.statements@.last()->Expression_0.expr, declared);
}

/// Every arm that is an expression is left without a gap that the declared type
/// would fill.
pub proof fn law_pinning_reaches_every_arm(
    env: EnvV,
    st: StateV,
    arms: Seq<MatchArm>,
    declared: Ty,
    n: int,
)
    requires
        0 <= n <= arms.len(),
    ensures
        forall|i: int|
            0 <= i < n && (#[trigger] arms[i]).body is Expr ==> no_gap(
                pinned_arms_n(env, st, arms, declared, n),
                expr_span(arms[i].body->Expr_0),
                declared,
            ),
    decreases n,
{
    if n > 0 {
        law_pinning_reaches_every_arm(env, st, arms, declared, n - 1);
        let s = pinned_arms_n(env, st, arms, declared, n - 1);
        let r = pinned_arms_n(env, st, arms, declared, n);
        match arms[n - 1].body {
            MatchBody::Expr(e) => {
                law_pinning_only_refines(env, s, e, declared);
                law_pinning_leaves_no_gap(env, s, e, declared);
            },
            MatchBody::Block(b) => {
                refined_by_tail(env, s, b, declared);
            },
        }
        assert forall|i: int| 0 <= i < n && (#[trigger] arms[i]).body is Expr implies no_gap(
            r,
            expr_span(arms[i].body->Expr_0),
            declared,
        ) by {
            if i < n - 1 {
                lemma_gap_stays_filled(s, r, expr_span(arms[i].body->Expr_0), declared);
            }
        }
    }
}

} // verus!
