//! What a call or a constructor without findings says of its arguments: each
//! of them fits the parameter that it stands for.
use crate::ast::Expr;
use crate::check_call::sem_positional_n;
use crate::check_expr::sem_expr;
use crate::check_types::{compatible, compatible_from};
use crate::env::EnvV;
use crate::pin::{only_refined, pinned};
use crate::pin_laws::law_pinning_only_refines;
use crate::state::StateV;
use crate::steady::kept;
use crate::steady_bodies::{kept_sem_positional_n, law_expression_keeps};
use crate::text::Chars;
use crate::types::Ty;
use vstd::prelude::*;

verus! {

broadcast use crate::steady::steps;

// ── Types ────────────────────────────────────────────────────────────

/// Whether a type has no type variable, no `dyn` and no error type in it.
pub open spec fn closed(t: Ty) -> bool
    decreases t,
{
    match t {
        Ty::TypeVar(_) | Ty::Dyn(_) | Ty::Error => false,
        Ty::Generic(_, args) => forall|i: int| 0 <= i < args.len() ==> closed(#[trigger] args[i]),
        Ty::Function(ps, r) => closed(*r) && forall|i: int|
            0 <= i < ps.len() ==> closed(#[trigger] ps[i]),
        _ => true,
    }
}

/// Two different instances of a generic type fit exactly if they have the same
/// name, the same number of type arguments, and at every position the type
/// arguments fit.
pub proof fn law_instances_fit_by_position(
    env: EnvV,
    bounds: Seq<(Chars, Seq<Chars>)>,
    n: Chars,
    ds: Seq<Ty>,
    m: Chars,
    xs: Seq<Ty>,
)
    ensures
        compatible(env, bounds, Ty::Generic(n, ds), Ty::Generic(m, xs)) <==> n == m && ds.len()
            == xs.len() && forall|i: int|
            0 <= i < ds.len() ==> compatible(env, bounds, #[trigger] ds[i], xs[i]),
{
    lemma_fit_from(env, bounds, ds, xs, 0);
    assert(compatible_from(env, bounds, ds, xs, 0) <==> forall|i: int|
        0 <= i < ds.len() ==> compatible(env, bounds, #[trigger] ds[i], xs[i]));
}

proof fn lemma_fit_from(
    env: EnvV,
    bounds: Seq<(Chars, Seq<Chars>)>,
    ds: Seq<Ty>,
    xs: Seq<Ty>,
    i: int,
)
    requires
        0 <= i,
    ensures
        compatible_from(env, bounds, ds, xs, i) <==> forall|k: int|
            i <= k < ds.len() ==> compatible(env, bounds, #[trigger] ds[k], xs[k]),
    decreases ds.len() - i,
{
    if i < ds.len() {
        lemma_fit_from(env, bounds, ds, xs, i + 1);
        assert(compatible_from(env, bounds, ds, xs, i) <==> compatible(env, bounds, ds[i], xs[i])
            && compatible_from(env, bounds, ds, xs, i + 1));
    }
}

/// Types without type variables, `dyn` and error types fit only if they are
/// the same.
pub proof fn law_closed_types_fit_only_themselves(
    env: EnvV,
    bounds: Seq<(Chars, Seq<Chars>)>,
    d: Ty,
    a: Ty,
)
    requires
        closed(d),
        closed(a),
    ensures
        compatible(env, bounds, d, a) <==> d == a,
    decreases d,
{
    match (d, a) {
        (Ty::Generic(n, ds), Ty::Generic(m, xs)) => {
            law_instances_fit_by_position(env, bounds, n, ds, m, xs);
            if compatible(env, bounds, d, a) {
                assert forall|i: int| 0 <= i < ds.len() implies ds[i] == xs[i] by {
                    law_closed_types_fit_only_themselves(env, bounds, ds[i], xs[i]);
                }
                assert(ds =~= xs);
            }
        },
        _ => {},
    }
}

/// A type variable fits every type but `dyn`, in both directions, and nothing
/// but an implementer fits `dyn`.
pub proof fn law_variables_fit(
    env: EnvV,
    bounds: Seq<(Chars, Seq<Chars>)>,
    v: Chars,
    t: Ty,
)
    ensures
        compatible(env, bounds, Ty::TypeVar(v), t),
        t !is Dyn ==> compatible(env, bounds, t, Ty::TypeVar(v)),
        t is Function || t is Int || t is Float || t is Str || t is Bool || t is Void ==> forall|
            tr: Chars,
        |
            !#[trigger] compatible(env, bounds, Ty::Dyn(tr), t),
{
}

// ── Arguments ────────────────────────────────────────────────────────

/// Whether nothing was found between two states.
pub open spec fn silent(a: StateV, b: StateV) -> bool {
    b.diagnostics.len() == a.diagnostics.len()
}

/// Whether `e` is checked in `st` without a finding, to a type that fits
/// `expected`.
#[verifier::opaque]
pub open spec fn accepted(env: EnvV, st: StateV, e: Expr, expected: Ty) -> bool {
    silent(st, sem_expr(env, st, e).0) && compatible(
        env,
        st.bounds,
        expected,
        sem_expr(env, st, e).1,
    )
}

/// How many findings the type `t` of an argument for `expected` is.
pub open spec fn clashes(env: EnvV, st: StateV, expected: Ty, t: Ty) -> nat {
    if compatible(env, st.bounds, expected, t) {
        0
    } else {
        1
    }
}

/// Findings are never taken back, and the bounds in scope stay.
pub proof fn lemma_counts(a: StateV, b: StateV)
    requires
        kept(a, b),
    ensures
        a.diagnostics.len() <= b.diagnostics.len(),
        a.bounds == b.bounds,
        a.type_params == b.type_params,
        a.scopes == b.scopes,
{
    reveal(kept);
}

/// Filling the gaps of recorded types is no finding.
pub proof fn lemma_pinned_silent(env: EnvV, e: Expr)
    ensures
        forall|st: StateV, declared: Ty|
            (#[trigger] pinned(env, st, e, declared)).diagnostics == st.diagnostics,
{
    assert forall|st: StateV, declared: Ty|
        (#[trigger] pinned(env, st, e, declared)).diagnostics == st.diagnostics by {
        law_pinning_only_refines(env, st, e, declared);
        reveal(only_refined);
    }
}

/// Whether a count does not fall at step `i`, and stays the same exactly if
/// the step is a good one.
pub open spec fn steady_at(counts: Seq<nat>, oks: Seq<bool>, i: int) -> bool {
    counts[i] <= counts[i + 1] && (oks[i] <==> counts[i] == counts[i + 1])
}

/// A growing count stays the same to the end exactly if it does at every step.
pub proof fn lemma_steps(counts: Seq<nat>, oks: Seq<bool>)
    requires
        counts.len() == oks.len() + 1,
        forall|i: int| 0 <= i < oks.len() ==> #[trigger] steady_at(counts, oks, i),
    ensures
        counts[0] <= counts.last(),
        counts.last() == counts[0] <==> forall|i: int| 0 <= i < oks.len() ==> #[trigger] oks[i],
    decreases oks.len(),
{
    if oks.len() > 0 {
        let n = oks.len() - 1;
        let fewer = counts.drop_last();
        let first = oks.drop_last();
        assert forall|i: int| 0 <= i < first.len() implies #[trigger] steady_at(
            fewer,
            first,
            i,
        ) by {
            assert(steady_at(counts, oks, i));
        }
        lemma_steps(fewer, first);
        assert(steady_at(counts, oks, n));
        assert(counts[n] == fewer.last());
        if counts[0] == counts[n] {
            assert forall|i: int| 0 <= i < n implies #[trigger] oks[i] by {
                assert(first[i]);
            }
        }
        if forall|i: int| 0 <= i < oks.len() ==> #[trigger] oks[i] {
            assert forall|i: int| 0 <= i < first.len() implies #[trigger] first[i] by {
                assert(oks[i]);
            }
        }
    }
}

/// The positional arguments of a function without type parameters add no
/// finding exactly if every one of them has none itself and fits the parameter
/// at its position.
pub proof fn law_positional_arguments_fit(
    env: EnvV,
    st: StateV,
    args: Seq<Expr>,
    fname: Chars,
    params: Seq<Ty>,
    n: int,
)
    requires
        0 <= n <= args.len() <= params.len(),
    ensures
        silent(st, sem_positional_n(env, st, args, fname, params, n)) <==> forall|i: int|
            0 <= i < n ==> accepted(
                env,
                sem_positional_n(env, st, args, fname, params, i),
                #[trigger] args[i],
                params[i],
            ),
{
    let counts = Seq::new(
        (n + 1) as nat,
        |i: int| sem_positional_n(env, st, args, fname, params, i).diagnostics.len(),
    );
    let oks = Seq::new(
        n as nat,
        |i: int|
            accepted(env, sem_positional_n(env, st, args, fname, params, i), args[i], params[i]),
    );
    assert forall|i: int| 0 <= i < n implies #[trigger] steady_at(counts, oks, i) by {
        lemma_positional_step(env, st, args, fname, params, i);
    }
    lemma_steps(counts, oks);
    assert forall|i: int| 0 <= i < n implies oks[i] == accepted(
        env,
        sem_positional_n(env, st, args, fname, params, i),
        #[trigger] args[i],
        params[i],
    ) by {}
}

proof fn lemma_positional_step(
    env: EnvV,
    st: StateV,
    args: Seq<Expr>,
    fname: Chars,
    params: Seq<Ty>,
    i: int,
)
    requires
        0 <= i < args.len() <= params.len(),
    ensures
        ({
            let s = sem_positional_n(env, st, args, fname, params, i);
            let next = sem_positional_n(env, st, args, fname, params, i + 1);
            &&& s.diagnostics.len() <= next.diagnostics.len()
            &&& silent(s, next) <==> accepted(env, s, args[i], params[i])
        }),
{
    reveal(accepted);
    let s = sem_positional_n(env, st, args, fname, params, i);
    law_positional_argument_counts(env, st, args, fname, params, i);
    kept_sem_positional_n(env, st, args, fname, params, i);
    law_expression_keeps(env, s, args[i]);
    lemma_counts(st, s);
    lemma_counts(s, sem_expr(env, s, args[i]).0);
}

/// A positional argument that does not fit is one finding, at every position,
/// besides those in the argument itself; one that fits is none.
pub proof fn law_positional_argument_counts(
    env: EnvV,
    st: StateV,
    args: Seq<Expr>,
    fname: Chars,
    params: Seq<Ty>,
    i: int,
)
    requires
        0 <= i < args.len() <= params.len(),
    ensures
        ({
            let s = sem_positional_n(env, st, args, fname, params, i);
            let (checked, t) = sem_expr(env, s, args[i]);
            sem_positional_n(env, st, args, fname, params, i + 1).diagnostics.len()
                == checked.diagnostics.len() + clashes(env, st, params[i], t)
        }),
{
    let s = sem_positional_n(env, st, args, fname, params, i);
    kept_sem_positional_n(env, st, args, fname, params, i);
    law_expression_keeps(env, s, args[i]);
    lemma_counts(st, s);
    lemma_counts(s, sem_expr(env, s, args[i]).0);
    lemma_pinned_silent(env, args[i]);
}

} // verus!
