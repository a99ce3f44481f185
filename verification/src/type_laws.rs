//! What holds of types whatever the program: substitution, matching a pattern
//! with a type, and which type fits where.
use crate::calls::{bound_types_n, type_args_recorded, unify_reported_n, unresolved_n};
use crate::check_types::{
    clash, compatible, unified, unified_from, UnifyErrorV,
};
use crate::env::{implements, methods_of, reached_key, satisfies, EnvV};
use crate::span::Span;
use crate::state::StateV;
use crate::table::{find, holds, law_find_after_put, law_put_keeps_others, put};
use crate::text::Chars;
use crate::types::{
    all_settled, has_vars, has_vars_from, settled, settled_from, subst, subst_n, Bindings, Ty,
};
use vstd::prelude::*;

verus! {

// ── Substitution ─────────────────────────────────────────────────────

/// Whether a declared type in `t` has the name of a bound type parameter.
pub open spec fn shadowed(t: Ty, b: Bindings) -> bool
    decreases t, 0int,
{
    match t {
        Ty::Named(n) => holds(b, n),
        Ty::Generic(_, args) => shadowed_from(args, b, 0),
        Ty::Function(ps, r) => shadowed_from(ps, b, 0) || shadowed(*r, b),
        _ => false,
    }
}

/// The same for the types from `i` on.
pub open spec fn shadowed_from(ts: Seq<Ty>, b: Bindings, i: int) -> bool
    decreases ts, ts.len() - i,
{
    0 <= i < ts.len() && (shadowed(ts[i], b) || shadowed_from(ts, b, i + 1))
}

/// A substitution that binds nothing changes nothing.
pub proof fn law_empty_substitution(t: Ty)
    ensures
        subst(t, Seq::empty()) == t,
    decreases t, 0int,
{
    match t {
        Ty::Generic(_, args) => {
            lemma_empty_substitution_n(args, args.len() as int);
            assert(args.take(args.len() as int) =~= args);
        },
        Ty::Function(ps, r) => {
            lemma_empty_substitution_n(ps, ps.len() as int);
            assert(ps.take(ps.len() as int) =~= ps);
            law_empty_substitution(*r);
        },
        _ => {},
    }
}

proof fn lemma_empty_substitution_n(ts: Seq<Ty>, n: int)
    requires
        0 <= n <= ts.len(),
    ensures
        subst_n(ts, Seq::empty(), n) == ts.take(n),
    decreases ts, n,
{
    if n > 0 {
        lemma_empty_substitution_n(ts, n - 1);
        law_empty_substitution(ts[n - 1]);
    }
    assert(subst_n(ts, Seq::empty(), n) =~= ts.take(n));
}

/// A type without type parameters stays as it is, unless a declared type in it
/// has the name of a bound one.
pub proof fn law_closed_type_stays(t: Ty, b: Bindings)
    requires
        !has_vars(t),
        !shadowed(t, b),
    ensures
        subst(t, b) == t,
    decreases t, 0int,
{
    match t {
        Ty::Generic(_, args) => {
            lemma_closed_types_stay(args, b, 0);
        },
        Ty::Function(ps, r) => {
            lemma_closed_types_stay(ps, b, 0);
            law_closed_type_stays(*r, b);
        },
        _ => {},
    }
}

proof fn lemma_subst_at(ts: Seq<Ty>, b: Bindings, n: int)
    requires
        0 <= n <= ts.len(),
    ensures
        subst_n(ts, b, n).len() == n,
        forall|i: int| 0 <= i < n ==> #[trigger] subst_n(ts, b, n)[i] == subst(ts[i], b),
    decreases n,
{
    if n > 0 {
        lemma_subst_at(ts, b, n - 1);
    }
}

proof fn lemma_closed_types_stay(ts: Seq<Ty>, b: Bindings, i: int)
    requires
        0 <= i <= ts.len(),
        !has_vars_from(ts, i),
        !shadowed_from(ts, b, i),
    ensures
        forall|k: int| i <= k < ts.len() ==> subst(#[trigger] ts[k], b) == ts[k],
        i == 0 ==> subst_n(ts, b, ts.len() as int) == ts,
    decreases ts, ts.len() - i,
{
    if i < ts.len() {
        law_closed_type_stays(ts[i], b);
        lemma_closed_types_stay(ts, b, i + 1);
    }
    if i == 0 {
        lemma_subst_at(ts, b, ts.len() as int);
        assert(subst_n(ts, b, ts.len() as int) =~= ts);
    }
}

// ── Matching a pattern with a type ───────────────────────────────────

/// Every binding of `b` is one of `c`.
pub open spec fn extends(b: Bindings, c: Bindings) -> bool {
    forall|n: Chars| #[trigger] holds(b, n) ==> find(c, n) == find(b, n)
}

proof fn lemma_extends_trans(a: Bindings, b: Bindings, c: Bindings)
    requires
        extends(a, b),
        extends(b, c),
    ensures
        extends(a, c),
{
    assert forall|n: Chars| #[trigger] holds(a, n) implies find(c, n) == find(a, n) by {
        assert(holds(b, n));
    }
}

/// Matching never changes what a type parameter is bound to.
pub proof fn law_matching_keeps_bindings(p: Ty, c: Ty, b: Bindings)
    ensures
        extends(b, unified(p, c, b).0),
    decreases p, 0int,
{
    match (p, c) {
        (Ty::TypeVar(n), _) => {
            if !holds(b, n) {
                assert forall|m: Chars| #[trigger] holds(b, m) implies find(put(b, n, c), m)
                    == find(b, m) by {
                    law_put_keeps_others(b, n, c, m);
                }
            }
        },
        (Ty::Generic(_, ps), Ty::Generic(_, cs)) => {
            if ps.len() == cs.len() {
                lemma_lists_keep_bindings(ps, cs, b, 0);
            }
        },
        (Ty::Function(ps, pr), Ty::Function(cs, cr)) => {
            if ps.len() == cs.len() {
                lemma_lists_keep_bindings(ps, cs, b, 0);
                let b1 = unified_from(ps, cs, b, 0).0;
                law_matching_keeps_bindings(*pr, *cr, b1);
                lemma_extends_trans(b, b1, unified(*pr, *cr, b1).0);
            }
        },
        _ => {},
    }
}

proof fn lemma_lists_keep_bindings(ps: Seq<Ty>, cs: Seq<Ty>, b: Bindings, i: int)
    requires
        ps.len() == cs.len(),
        0 <= i <= ps.len(),
    ensures
        extends(b, unified_from(ps, cs, b, i).0),
    decreases ps, ps.len() - i,
{
    if i < ps.len() {
        law_matching_keeps_bindings(ps[i], cs[i], b);
        let b1 = unified(ps[i], cs[i], b).0;
        lemma_lists_keep_bindings(ps, cs, b1, i + 1);
        lemma_extends_trans(b, b1, unified_from(ps, cs, b1, i + 1).0);
    }
}

/// After a pattern has been matched with a type, the pattern stands for the
/// type: under the bindings found, and under all that extend them. The pattern
/// must not name a declared type like a bound type parameter.
pub proof fn law_matching_succeeds(p: Ty, c: Ty, b: Bindings, end: Bindings)
    requires
        unified(p, c, b).1 is None,
        extends(unified(p, c, b).0, end),
        !shadowed(p, end),
    ensures
        subst(p, end) == c,
    decreases p, 0int,
{
    match (p, c) {
        (Ty::TypeVar(n), _) => {
            if !holds(b, n) {
                law_find_after_put(b, n, c);
                assert(holds(put(b, n, c), n));
            } else {
                assert(holds(b, n));
            }
        },
        (Ty::Generic(_, ps), Ty::Generic(_, cs)) => {
            lemma_lists_match(ps, cs, b, end, 0);
            lemma_subst_at(ps, end, ps.len() as int);
            assert(subst_n(ps, end, ps.len() as int) =~= cs);
        },
        (Ty::Function(ps, pr), Ty::Function(cs, cr)) => {
            let b1 = unified_from(ps, cs, b, 0).0;
            law_matching_keeps_bindings(*pr, *cr, b1);
            lemma_extends_trans(b1, unified(p, c, b).0, end);
            lemma_lists_match(ps, cs, b, end, 0);
            lemma_subst_at(ps, end, ps.len() as int);
            assert(subst_n(ps, end, ps.len() as int) =~= cs);
            law_matching_succeeds(*pr, *cr, b1, end);
        },
        _ => {},
    }
}

proof fn lemma_lists_match(ps: Seq<Ty>, cs: Seq<Ty>, b: Bindings, end: Bindings, i: int)
    requires
        ps.len() == cs.len(),
        0 <= i <= ps.len(),
        unified_from(ps, cs, b, i).1 is None,
        extends(unified_from(ps, cs, b, i).0, end),
        !shadowed_from(ps, end, i),
    ensures
        forall|k: int| i <= k < ps.len() ==> subst(#[trigger] ps[k], end) == cs[k],
    decreases ps, ps.len() - i,
{
    if i < ps.len() {
        let b1 = unified(ps[i], cs[i], b).0;
        lemma_lists_keep_bindings(ps, cs, b1, i + 1);
        lemma_extends_trans(b1, unified_from(ps, cs, b1, i + 1).0, end);
        law_matching_succeeds(ps[i], cs[i], b, end);
        lemma_lists_match(ps, cs, b1, end, i + 1);
    }
}

// ── Which type fits where ────────────────────────────────────────────

/// A type fits where it is declared.
pub proof fn law_type_fits_itself(env: EnvV, bounds: Seq<(Chars, Seq<Chars>)>, t: Ty)
    ensures
        compatible(env, bounds, t, t),
{
}

/// The error type fits everywhere and takes everything, so that no mistake is
/// reported twice.
pub proof fn law_error_fits_everywhere(env: EnvV, st: StateV, t: Ty)
    ensures
        compatible(env, st.bounds, Ty::Error, t),
        compatible(env, st.bounds, t, Ty::Error),
        !clash(env, st, Ty::Error, t),
        !clash(env, st, t, Ty::Error),
{
}

/// A trait object takes the declared types that implement the trait, and no
/// others.
pub proof fn law_trait_object_takes_implementers(
    env: EnvV,
    bounds: Seq<(Chars, Seq<Chars>)>,
    tr: Chars,
    name: Chars,
)
    ensures
        compatible(env, bounds, Ty::Dyn(tr), Ty::Named(name)) <==> implements(env, name, tr),
{
}

/// A type that the current module cannot name has no methods there, implements
/// no trait and satisfies no bound; nothing implements a trait that the module
/// cannot name.
pub proof fn law_unnamed_has_nothing(env: EnvV, unnamed: Chars, other: Chars)
    requires
        reached_key(env, unnamed) is None,
    ensures
        methods_of(env, unnamed) is None,
        !implements(env, unnamed, other),
        !implements(env, other, unnamed),
        !satisfies(env, unnamed, other),
        !satisfies(env, other, unnamed),
{
}

/// A trait object fits no declared type, and no trait object of another trait.
pub proof fn law_trait_object_stays_one(
    env: EnvV,
    bounds: Seq<(Chars, Seq<Chars>)>,
    tr: Chars,
    other: Chars,
    name: Chars,
)
    requires
        tr != other,
    ensures
        !compatible(env, bounds, Ty::Named(name), Ty::Dyn(tr)),
        !compatible(env, bounds, Ty::Dyn(other), Ty::Dyn(tr)),
{
}

// ── Inference ────────────────────────────────────────────────────────

proof fn lemma_all_bound(params: Seq<Chars>, b: Bindings, n: int)
    requires
        0 <= n <= params.len(),
        unresolved_n(params, b, n).len() == 0,
    ensures
        bound_types_n(params, b, n) == Seq::new(n as nat, |i: int| find(b, params[i])->0),
        forall|i: int| 0 <= i < n ==> holds(b, #[trigger] params[i]),
    decreases n,
{
    if n > 0 {
        assert(holds(b, params[n - 1]));
        lemma_all_bound(params, b, n - 1);
    }
    assert(bound_types_n(params, b, n) =~= Seq::new(
        n as nat,
        |i: int| find(b, params[i])->0,
    ));
}

proof fn lemma_reports_keep_type_args(
    st: StateV,
    callee: Chars,
    errors: Seq<(usize, UnifyErrorV)>,
    span: Span,
    n: int,
)
    ensures
        unify_reported_n(st, callee, errors, span, n).call_type_args == st.call_type_args,
        unify_reported_n(st, callee, errors, span, n).type_params == st.type_params,
    decreases n,
{
    if 0 < n <= errors.len() {
        lemma_reports_keep_type_args(st, callee, errors, span, n - 1);
    }
}

proof fn lemma_settled_at(ts: Seq<Ty>, params: Seq<Chars>, i: int)
    requires
        0 <= i <= ts.len(),
    ensures
        settled_from(ts, params, i) == (forall|k: int|
            i <= k < ts.len() ==> settled(#[trigger] ts[k], params)),
    decreases ts.len() - i,
{
    if i < ts.len() {
        lemma_settled_at(ts, params, i + 1);
        assert(settled_from(ts, params, i) ==> settled(ts[i], params));
    }
}

/// The type arguments recorded for a call are one for each type parameter, in
/// their order, and each is complete: the error type does not occur in it, and
/// no type parameter but those in scope at the call. Where there is a
/// contradiction or an open type parameter, nothing is recorded.
pub proof fn law_recorded_type_args_complete(
    st: StateV,
    callee: Chars,
    params: Seq<Chars>,
    b: Bindings,
    errors: Seq<(usize, UnifyErrorV)>,
    ts: Seq<Ty>,
    span: Span,
)
    ensures
        ({
            let r = type_args_recorded(st, callee, params, b, errors, ts, span);
            let complete = errors.len() == 0 && (forall|i: int|
                0 <= i < params.len() ==> holds(b, #[trigger] params[i]) && settled(
                    find(b, params[i])->0,
                    st.type_params,
                ));
            if complete {
                &&& r.diagnostics == st.diagnostics
                &&& find(r.call_type_args, span) == Some(
                    Seq::new(params.len(), |i: int| find(b, params[i])->0),
                )
            } else {
                r.call_type_args == st.call_type_args
            }
        }),
{
    let n = params.len() as int;
    let s = unify_reported_n(st, callee, errors, span, errors.len() as int);
    let ordered = bound_types_n(params, b, n);
    lemma_reports_keep_type_args(st, callee, errors, span, errors.len() as int);
    if unresolved_n(params, b, n).len() == 0 {
        lemma_all_bound(params, b, n);
        lemma_settled_at(ordered, st.type_params, 0);
        if all_settled(ordered, st.type_params) {
            assert forall|i: int| 0 <= i < params.len() implies holds(b, #[trigger] params[i])
                && settled(find(b, params[i])->0, st.type_params) by {
                assert(ordered[i] == find(b, params[i])->0);
            }
            assert(ordered =~= Seq::new(params.len(), |i: int| find(b, params[i])->0));
            law_find_after_put(s.call_type_args, span, ordered);
        } else {
            let i = choose|i: int|
                0 <= i < ordered.len() && !settled(#[trigger] ordered[i], st.type_params);
            assert(ordered[i] == find(b, params[i])->0);
            assert(holds(b, params[i]));
        }
    } else {
        lemma_some_open(params, b, n);
    }
}

proof fn lemma_some_open(params: Seq<Chars>, b: Bindings, n: int)
    requires
        0 <= n <= params.len(),
        unresolved_n(params, b, n).len() > 0,
    ensures
        exists|i: int| 0 <= i < n && !holds(b, #[trigger] params[i]),
    decreases n,
{
    if n > 0 {
        if holds(b, params[n - 1]) {
            lemma_some_open(params, b, n - 1);
        } else {
            assert(!holds(b, params[n - 1]));
        }
    }
}

} // verus!
