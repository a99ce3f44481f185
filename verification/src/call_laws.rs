//! What a call or a constructor without findings says of its arguments: each
//! of them fits the parameter that it stands for.
use crate::ast::{Arguments, CallExpr, Expr, IdentExpr, StructLiteralExpr};
use crate::calls::{
    appears, bound_types_n, bounds_held_n, covered, defaults_filled_n, fitted_n, instantiated_n,
    missing_n, name_position, named_fitted_n, names_free_n, names_known_n, names_validated, padded,
    traits_held_n, type_args_recorded, unify_reported_n, unresolved_n,
};
use crate::check_call::{
    counted, fields_fitted_n, payload_fitted_n, sem_argument_types, sem_call, sem_call_info,
    sem_fields_n, sem_indirect_n, sem_named_n, sem_named_types_n, sem_payload_n,
    sem_positional_n, sem_struct_literal, sem_variant,
};
use crate::check_expr::{sem_expr, sem_ident, sem_types_n, unit_variant_from};
use crate::check_types::{bound_name, compatible, inferred, UnifyErrorV};
use crate::env::{canonical, in_scope, satisfies, EnvV};
use crate::fit_laws::{
    accepted, law_positional_arguments_fit, lemma_counts, lemma_pinned_silent, lemma_steps, silent,
    steady_at,
};
use crate::info::{FieldInfoV, FunctionInfoV, StructInfoV};
use crate::pin::field_types;
use crate::privacy::construction_checked;
use crate::span::Span;
use crate::state::StateV;
use crate::steady_bodies::{
    kept_sem_argument_types, kept_sem_fields_n, kept_sem_indirect_n, kept_sem_named_n, kept_sem_payload_n,
    kept_sem_positional_n, law_expression_keeps,
};
use crate::steady_parts::{
    kept_bounds_held_n, kept_counted, kept_fields_fitted_n, kept_fitted_n, kept_named_fitted_n,
    kept_names_free_n, kept_names_known_n, kept_payload_fitted_n, kept_traits_held_n,
    kept_type_args_recorded, kept_unify_reported_n,
};
use crate::table::{find, holds};
use crate::text::Chars;
use crate::types::{any_error, has_vars, subst, Bindings, Ty};
use crate::variants::{owners, variant_owner, EnumVariantMatchV};
use vstd::prelude::*;

verus! {

broadcast use crate::steady::steps;

/// Whether `p` is the first position of `name`.
pub open spec fn first_at(names: Seq<Chars>, name: Chars, p: int) -> bool {
    &&& 0 <= p < names.len()
    &&& names[p] == name
    &&& forall|q: int| 0 <= q < p ==> #[trigger] names[q] != name
}

/// Looking for a name gives its first position, or the length if it has none.
pub proof fn lemma_name_position(names: Seq<Chars>, name: Chars, i: int)
    requires
        0 <= i <= names.len(),
        forall|q: int| 0 <= q < i ==> #[trigger] names[q] != name,
    ensures
        name_position(names, name, i) < names.len() ==> first_at(
            names,
            name,
            name_position(names, name, i),
        ),
        forall|p: int| #[trigger] first_at(names, name, p) ==> p == name_position(names, name, i),
        0 <= name_position(names, name, i) <= names.len(),
    decreases names.len() - i,
{
    if i < names.len() && names[i] != name {
        lemma_name_position(names, name, i + 1);
    } else if i < names.len() {
        assert forall|p: int| #[trigger] first_at(names, name, p) implies p == i by {
            assert(names[p] == name);
        }
    } else {
        assert forall|p: int| #[trigger] first_at(names, name, p) implies false by {
            assert(names[p] == name);
        }
    }
}

/// Whether a named argument has no finding and fits the parameter of its name.
#[verifier::opaque]
pub open spec fn named_accepted(
    env: EnvV,
    st: StateV,
    arg: (String, Expr),
    names: Seq<Chars>,
    params: Seq<Ty>,
) -> bool {
    forall|p: int| #[trigger] first_at(names, arg.0@, p) ==> accepted(env, st, arg.1, params[p])
}

/// Whether a type fits another one, or that one still has type variables.
pub open spec fn fits_open(
    env: EnvV,
    bounds: Seq<(Chars, Seq<Chars>)>,
    expected: Ty,
    actual: Ty,
) -> bool {
    has_vars(expected) || compatible(env, bounds, expected, actual)
}

/// Whether the type at the parameter called `name` fits it, or that one still
/// has type variables.
pub open spec fn named_fits_open(
    env: EnvV,
    bounds: Seq<(Chars, Seq<Chars>)>,
    name: Chars,
    names: Seq<Chars>,
    params: Seq<Ty>,
    b: Bindings,
    ts: Seq<Ty>,
) -> bool {
    forall|p: int| #[trigger]
        first_at(names, name, p) ==> fits_open(env, bounds, subst(params[p], b), ts[p])
}

/// Whether the type that a type parameter is bound to satisfies all of its
/// traits.
pub open spec fn bound_held(env: EnvV, bound: (Chars, Seq<Chars>), b: Bindings) -> bool {
    match find(b, bound.0) {
        Some(t) => forall|j: int|
            0 <= j < bound.1.len() ==> satisfies(env, bound_name(t), #[trigger] bound.1[j]),
        None => true,
    }
}

/// The named arguments of a function without type parameters add no finding
/// exactly if every one of them has none itself and fits the parameter of its
/// name.
pub proof fn law_named_arguments_fit(
    env: EnvV,
    st: StateV,
    named_args: Seq<(String, Expr)>,
    fname: Chars,
    names: Seq<Chars>,
    params: Seq<Ty>,
    n: int,
)
    requires
        0 <= n <= named_args.len(),
        names.len() <= params.len(),
    ensures
        silent(st, sem_named_n(env, st, named_args, fname, names, params, n)) <==> forall|i: int| 0 <= i < n ==> named_accepted(env, sem_named_n(env, st, named_args, fname, names, params, i), #[trigger] named_args[i], names, params),
{
    let counts = Seq::new((n + 1) as nat, |i: int| sem_named_n(env, st, named_args, fname, names, params, i).diagnostics.len());
    let oks = Seq::new(n as nat, |i: int| named_accepted(env, sem_named_n(env, st, named_args, fname, names, params, i), named_args[i], names, params));
    assert forall|i: int| 0 <= i < n implies #[trigger] steady_at(counts, oks, i) by {
        lemma_named_arguments_fit_step(env, st, named_args, fname, names, params, i);
    }
    lemma_steps(counts, oks);
    assert forall|i: int| 0 <= i < n implies oks[i] == (named_accepted(env, sem_named_n(env, st, named_args, fname, names, params, i), #[trigger] named_args[i], names, params)) by {}
}

proof fn lemma_named_arguments_fit_step(
    env: EnvV,
    st: StateV,
    named_args: Seq<(String, Expr)>,
    fname: Chars,
    names: Seq<Chars>,
    params: Seq<Ty>,
    i: int,
)
    requires
        0 <= i < named_args.len(),
        names.len() <= params.len(),
    ensures
        ({
            let s = sem_named_n(env, st, named_args, fname, names, params, i);
            let next = sem_named_n(env, st, named_args, fname, names, params, i + 1);
            &&& s.diagnostics.len() <= next.diagnostics.len()
            &&& silent(s, next) <==> (named_accepted(env, s, named_args[i], names, params))
        }),
{
    let s = sem_named_n(env, st, named_args, fname, names, params, i);
    reveal(named_accepted);
    lemma_name_position(names, named_args[i].0@, 0);
    reveal(accepted);
    kept_sem_named_n(env, st, named_args, fname, names, params, i);
    law_expression_keeps(env, s, named_args[i].1);
    lemma_counts(st, s);
    lemma_counts(s, sem_expr(env, s, named_args[i].1).0);
    lemma_pinned_silent(env, named_args[i].1);
}

/// The arguments of a call of a function value add no finding exactly if every
/// one of them has none itself and fits the parameter at its position.
pub proof fn law_indirect_arguments_fit(
    env: EnvV,
    st: StateV,
    args: Seq<Expr>,
    params: Seq<Ty>,
    n: int,
)
    requires
        0 <= n <= args.len(),
        args.len() <= params.len(),
    ensures
        silent(st, sem_indirect_n(env, st, args, params, n)) <==> forall|i: int| 0 <= i < n ==> accepted(env, sem_indirect_n(env, st, args, params, i), #[trigger] args[i], params[i]),
{
    let counts = Seq::new((n + 1) as nat, |i: int| sem_indirect_n(env, st, args, params, i).diagnostics.len());
    let oks = Seq::new(n as nat, |i: int| accepted(env, sem_indirect_n(env, st, args, params, i), args[i], params[i]));
    assert forall|i: int| 0 <= i < n implies #[trigger] steady_at(counts, oks, i) by {
        lemma_indirect_arguments_fit_step(env, st, args, params, i);
    }
    lemma_steps(counts, oks);
    assert forall|i: int| 0 <= i < n implies oks[i] == (accepted(env, sem_indirect_n(env, st, args, params, i), #[trigger] args[i], params[i])) by {}
}

proof fn lemma_indirect_arguments_fit_step(
    env: EnvV,
    st: StateV,
    args: Seq<Expr>,
    params: Seq<Ty>,
    i: int,
)
    requires
        0 <= i < args.len(),
        args.len() <= params.len(),
    ensures
        ({
            let s = sem_indirect_n(env, st, args, params, i);
            let next = sem_indirect_n(env, st, args, params, i + 1);
            &&& s.diagnostics.len() <= next.diagnostics.len()
            &&& silent(s, next) <==> (accepted(env, s, args[i], params[i]))
        }),
{
    let s = sem_indirect_n(env, st, args, params, i);
    reveal(accepted);
    kept_sem_indirect_n(env, st, args, params, i);
    law_expression_keeps(env, s, args[i]);
    lemma_counts(st, s);
    lemma_counts(s, sem_expr(env, s, args[i]).0);
    lemma_pinned_silent(env, args[i]);
}

/// The values of a struct without type parameters add no finding exactly if every
/// one of them has none itself and fits the field at its position.
pub proof fn law_field_values_fit(
    env: EnvV,
    st: StateV,
    args: Seq<Expr>,
    fs: Seq<FieldInfoV>,
    n: int,
)
    requires
        0 <= n <= args.len(),
        args.len() <= fs.len(),
    ensures
        silent(st, sem_fields_n(env, st, args, fs, n)) <==> forall|i: int| 0 <= i < n ==> accepted(env, sem_fields_n(env, st, args, fs, i), #[trigger] args[i], fs[i].ty),
{
    let counts = Seq::new((n + 1) as nat, |i: int| sem_fields_n(env, st, args, fs, i).diagnostics.len());
    let oks = Seq::new(n as nat, |i: int| accepted(env, sem_fields_n(env, st, args, fs, i), args[i], fs[i].ty));
    assert forall|i: int| 0 <= i < n implies #[trigger] steady_at(counts, oks, i) by {
        lemma_field_values_fit_step(env, st, args, fs, i);
    }
    lemma_steps(counts, oks);
    assert forall|i: int| 0 <= i < n implies oks[i] == (accepted(env, sem_fields_n(env, st, args, fs, i), #[trigger] args[i], fs[i].ty)) by {}
}

proof fn lemma_field_values_fit_step(
    env: EnvV,
    st: StateV,
    args: Seq<Expr>,
    fs: Seq<FieldInfoV>,
    i: int,
)
    requires
        0 <= i < args.len(),
        args.len() <= fs.len(),
    ensures
        ({
            let s = sem_fields_n(env, st, args, fs, i);
            let next = sem_fields_n(env, st, args, fs, i + 1);
            &&& s.diagnostics.len() <= next.diagnostics.len()
            &&& silent(s, next) <==> (accepted(env, s, args[i], fs[i].ty))
        }),
{
    let s = sem_fields_n(env, st, args, fs, i);
    reveal(accepted);
    kept_sem_fields_n(env, st, args, fs, i);
    law_expression_keeps(env, s, args[i]);
    lemma_counts(st, s);
    lemma_counts(s, sem_expr(env, s, args[i]).0);
    lemma_pinned_silent(env, args[i]);
}

/// The values of a variant without type parameters add no finding exactly if
/// every one of them has none itself and fits the type at its position.
pub proof fn law_variant_values_fit(
    env: EnvV,
    st: StateV,
    args: Seq<Expr>,
    name: Chars,
    fields: Seq<Ty>,
    n: int,
)
    requires
        0 <= n <= args.len(),
        args.len() <= fields.len(),
    ensures
        silent(st, sem_payload_n(env, st, args, name, fields, n)) <==> forall|i: int| 0 <= i < n ==> accepted(env, sem_payload_n(env, st, args, name, fields, i), #[trigger] args[i], fields[i]),
{
    let counts = Seq::new((n + 1) as nat, |i: int| sem_payload_n(env, st, args, name, fields, i).diagnostics.len());
    let oks = Seq::new(n as nat, |i: int| accepted(env, sem_payload_n(env, st, args, name, fields, i), args[i], fields[i]));
    assert forall|i: int| 0 <= i < n implies #[trigger] steady_at(counts, oks, i) by {
        lemma_variant_values_fit_step(env, st, args, name, fields, i);
    }
    lemma_steps(counts, oks);
    assert forall|i: int| 0 <= i < n implies oks[i] == (accepted(env, sem_payload_n(env, st, args, name, fields, i), #[trigger] args[i], fields[i])) by {}
}

proof fn lemma_variant_values_fit_step(
    env: EnvV,
    st: StateV,
    args: Seq<Expr>,
    name: Chars,
    fields: Seq<Ty>,
    i: int,
)
    requires
        0 <= i < args.len(),
        args.len() <= fields.len(),
    ensures
        ({
            let s = sem_payload_n(env, st, args, name, fields, i);
            let next = sem_payload_n(env, st, args, name, fields, i + 1);
            &&& s.diagnostics.len() <= next.diagnostics.len()
            &&& silent(s, next) <==> (accepted(env, s, args[i], fields[i]))
        }),
{
    let s = sem_payload_n(env, st, args, name, fields, i);
    reveal(accepted);
    kept_sem_payload_n(env, st, args, name, fields, i);
    law_expression_keeps(env, s, args[i]);
    lemma_counts(st, s);
    lemma_counts(s, sem_expr(env, s, args[i]).0);
    lemma_pinned_silent(env, args[i]);
}

/// The positional arguments of a generic function add no finding exactly if the
/// type of each fits the parameter at its position, with the type arguments put
/// in, wherever those leave no type variable.
pub proof fn law_generic_arguments_fit(
    env: EnvV,
    st: StateV,
    args: Seq<Expr>,
    fname: Chars,
    params: Seq<Ty>,
    b: Bindings,
    ts: Seq<Ty>,
    n: int,
)
    requires
        0 <= n <= args.len(),
        args.len() <= params.len(),
        args.len() <= ts.len(),
    ensures
        silent(st, fitted_n(env, st, args, fname, params, b, ts, n)) <==> forall|i: int| 0 <= i < n ==> fits_open(env, st.bounds, subst(#[trigger] params[i], b), ts[i]),
{
    let counts = Seq::new((n + 1) as nat, |i: int| fitted_n(env, st, args, fname, params, b, ts, i).diagnostics.len());
    let oks = Seq::new(n as nat, |i: int| fits_open(env, st.bounds, subst( params[i], b), ts[i]));
    assert forall|i: int| 0 <= i < n implies #[trigger] steady_at(counts, oks, i) by {
        lemma_generic_arguments_fit_step(env, st, args, fname, params, b, ts, i);
    }
    lemma_steps(counts, oks);
    assert forall|i: int| 0 <= i < n implies oks[i] == (fits_open(env, st.bounds, subst(#[trigger] params[i], b), ts[i])) by {}
}

proof fn lemma_generic_arguments_fit_step(
    env: EnvV,
    st: StateV,
    args: Seq<Expr>,
    fname: Chars,
    params: Seq<Ty>,
    b: Bindings,
    ts: Seq<Ty>,
    i: int,
)
    requires
        0 <= i < args.len(),
        args.len() <= params.len(),
        args.len() <= ts.len(),
    ensures
        ({
            let s = fitted_n(env, st, args, fname, params, b, ts, i);
            let next = fitted_n(env, st, args, fname, params, b, ts, i + 1);
            &&& s.diagnostics.len() <= next.diagnostics.len()
            &&& silent(s, next) <==> (fits_open(env, st.bounds, subst(params[i], b), ts[i]))
        }),
{
    let s = fitted_n(env, st, args, fname, params, b, ts, i);
    kept_fitted_n(env, st, args, fname, params, b, ts, i);
    lemma_counts(st, s);
    lemma_pinned_silent(env, args[i]);
}

/// The values of a generic struct add no finding exactly if the type of each fits
/// the field at its position, with the type arguments put in, wherever those
/// leave no type variable.
pub proof fn law_generic_field_values_fit(
    env: EnvV,
    st: StateV,
    args: Seq<Expr>,
    fs: Seq<FieldInfoV>,
    b: Bindings,
    ts: Seq<Ty>,
    n: int,
)
    requires
        0 <= n <= args.len(),
        args.len() <= fs.len(),
        args.len() <= ts.len(),
    ensures
        silent(st, fields_fitted_n(env, st, args, fs, b, ts, n)) <==> forall|i: int| 0 <= i < n ==> fits_open(env, st.bounds, subst((#[trigger] fs[i]).ty, b), ts[i]),
{
    let counts = Seq::new((n + 1) as nat, |i: int| fields_fitted_n(env, st, args, fs, b, ts, i).diagnostics.len());
    let oks = Seq::new(n as nat, |i: int| fits_open(env, st.bounds, subst(( fs[i]).ty, b), ts[i]));
    assert forall|i: int| 0 <= i < n implies #[trigger] steady_at(counts, oks, i) by {
        lemma_generic_field_values_fit_step(env, st, args, fs, b, ts, i);
    }
    lemma_steps(counts, oks);
    assert forall|i: int| 0 <= i < n implies oks[i] == (fits_open(env, st.bounds, subst((#[trigger] fs[i]).ty, b), ts[i])) by {}
}

proof fn lemma_generic_field_values_fit_step(
    env: EnvV,
    st: StateV,
    args: Seq<Expr>,
    fs: Seq<FieldInfoV>,
    b: Bindings,
    ts: Seq<Ty>,
    i: int,
)
    requires
        0 <= i < args.len(),
        args.len() <= fs.len(),
        args.len() <= ts.len(),
    ensures
        ({
            let s = fields_fitted_n(env, st, args, fs, b, ts, i);
            let next = fields_fitted_n(env, st, args, fs, b, ts, i + 1);
            &&& s.diagnostics.len() <= next.diagnostics.len()
            &&& silent(s, next) <==> (fits_open(env, st.bounds, subst((fs[i]).ty, b), ts[i]))
        }),
{
    let s = fields_fitted_n(env, st, args, fs, b, ts, i);
    kept_fields_fitted_n(env, st, args, fs, b, ts, i);
    lemma_counts(st, s);
    lemma_pinned_silent(env, args[i]);
}

/// The values of a variant of a generic enum add no finding exactly if the type of
/// each fits the type at its position, with the type arguments put in, wherever
/// those leave no type variable.
pub proof fn law_generic_variant_values_fit(
    env: EnvV,
    st: StateV,
    args: Seq<Expr>,
    name: Chars,
    fields: Seq<Ty>,
    b: Bindings,
    ts: Seq<Ty>,
    n: int,
)
    requires
        0 <= n <= args.len(),
        args.len() <= fields.len(),
        args.len() <= ts.len(),
    ensures
        silent(st, payload_fitted_n(env, st, args, name, fields, b, ts, n)) <==> forall|i: int| 0 <= i < n ==> fits_open(env, st.bounds, subst(#[trigger] fields[i], b), ts[i]),
{
    let counts = Seq::new((n + 1) as nat, |i: int| payload_fitted_n(env, st, args, name, fields, b, ts, i).diagnostics.len());
    let oks = Seq::new(n as nat, |i: int| fits_open(env, st.bounds, subst( fields[i], b), ts[i]));
    assert forall|i: int| 0 <= i < n implies #[trigger] steady_at(counts, oks, i) by {
        lemma_generic_variant_values_fit_step(env, st, args, name, fields, b, ts, i);
    }
    lemma_steps(counts, oks);
    assert forall|i: int| 0 <= i < n implies oks[i] == (fits_open(env, st.bounds, subst(#[trigger] fields[i], b), ts[i])) by {}
}

proof fn lemma_generic_variant_values_fit_step(
    env: EnvV,
    st: StateV,
    args: Seq<Expr>,
    name: Chars,
    fields: Seq<Ty>,
    b: Bindings,
    ts: Seq<Ty>,
    i: int,
)
    requires
        0 <= i < args.len(),
        args.len() <= fields.len(),
        args.len() <= ts.len(),
    ensures
        ({
            let s = payload_fitted_n(env, st, args, name, fields, b, ts, i);
            let next = payload_fitted_n(env, st, args, name, fields, b, ts, i + 1);
            &&& s.diagnostics.len() <= next.diagnostics.len()
            &&& silent(s, next) <==> (fits_open(env, st.bounds, subst(fields[i], b), ts[i]))
        }),
{
    let s = payload_fitted_n(env, st, args, name, fields, b, ts, i);
    kept_payload_fitted_n(env, st, args, name, fields, b, ts, i);
    lemma_counts(st, s);
    lemma_pinned_silent(env, args[i]);
}

/// The named arguments of a generic function add no finding exactly if the type of
/// each fits the parameter of its name, with the type arguments put in, wherever
/// those leave no type variable.
pub proof fn law_generic_named_arguments_fit(
    env: EnvV,
    st: StateV,
    named_args: Seq<(String, Expr)>,
    fname: Chars,
    names: Seq<Chars>,
    params: Seq<Ty>,
    b: Bindings,
    ts: Seq<Ty>,
    n: int,
)
    requires
        0 <= n <= named_args.len(),
        names.len() <= params.len(),
        names.len() <= ts.len(),
    ensures
        silent(st, named_fitted_n(env, st, named_args, fname, names, params, b, ts, n)) <==> forall|i: int| 0 <= i < n ==> named_fits_open(env, st.bounds, (#[trigger] named_args[i]).0@, names, params, b, ts),
{
    let counts = Seq::new((n + 1) as nat, |i: int| named_fitted_n(env, st, named_args, fname, names, params, b, ts, i).diagnostics.len());
    let oks = Seq::new(n as nat, |i: int| named_fits_open(env, st.bounds, ( named_args[i]).0@, names, params, b, ts));
    assert forall|i: int| 0 <= i < n implies #[trigger] steady_at(counts, oks, i) by {
        lemma_generic_named_arguments_fit_step(env, st, named_args, fname, names, params, b, ts, i);
    }
    lemma_steps(counts, oks);
    assert forall|i: int| 0 <= i < n implies oks[i] == (named_fits_open(env, st.bounds, (#[trigger] named_args[i]).0@, names, params, b, ts)) by {}
}

proof fn lemma_generic_named_arguments_fit_step(
    env: EnvV,
    st: StateV,
    named_args: Seq<(String, Expr)>,
    fname: Chars,
    names: Seq<Chars>,
    params: Seq<Ty>,
    b: Bindings,
    ts: Seq<Ty>,
    i: int,
)
    requires
        0 <= i < named_args.len(),
        names.len() <= params.len(),
        names.len() <= ts.len(),
    ensures
        ({
            let s = named_fitted_n(env, st, named_args, fname, names, params, b, ts, i);
            let next = named_fitted_n(env, st, named_args, fname, names, params, b, ts, i + 1);
            &&& s.diagnostics.len() <= next.diagnostics.len()
            &&& silent(s, next) <==> (named_fits_open(env, st.bounds, (named_args[i]).0@, names, params, b, ts))
        }),
{
    let s = named_fitted_n(env, st, named_args, fname, names, params, b, ts, i);
    lemma_name_position(names, named_args[i].0@, 0);
    kept_named_fitted_n(env, st, named_args, fname, names, params, b, ts, i);
    lemma_counts(st, s);
    lemma_pinned_silent(env, named_args[i].1);
}

/// The bounds of one type parameter add no finding exactly if the type satisfies
/// every trait among them.
pub proof fn law_traits_are_held(
    env: EnvV,
    st: StateV,
    concrete: Chars,
    traits: Seq<Chars>,
    span: Span,
    n: int,
)
    requires
        0 <= n <= traits.len(),
    ensures
        silent(st, traits_held_n(env, st, concrete, traits, span, n)) <==> forall|i: int| 0 <= i < n ==> satisfies(env, concrete, #[trigger] traits[i]),
{
    let counts = Seq::new((n + 1) as nat, |i: int| traits_held_n(env, st, concrete, traits, span, i).diagnostics.len());
    let oks = Seq::new(n as nat, |i: int| satisfies(env, concrete, traits[i]));
    assert forall|i: int| 0 <= i < n implies #[trigger] steady_at(counts, oks, i) by {
        lemma_traits_are_held_step(env, st, concrete, traits, span, i);
    }
    lemma_steps(counts, oks);
    assert forall|i: int| 0 <= i < n implies oks[i] == (satisfies(env, concrete, #[trigger] traits[i])) by {}
}

proof fn lemma_traits_are_held_step(
    env: EnvV,
    st: StateV,
    concrete: Chars,
    traits: Seq<Chars>,
    span: Span,
    i: int,
)
    requires
        0 <= i < traits.len(),
    ensures
        ({
            let s = traits_held_n(env, st, concrete, traits, span, i);
            let next = traits_held_n(env, st, concrete, traits, span, i + 1);
            &&& s.diagnostics.len() <= next.diagnostics.len()
            &&& silent(s, next) <==> (satisfies(env, concrete, traits[i]))
        }),
{
    let s = traits_held_n(env, st, concrete, traits, span, i);
    kept_traits_held_n(env, st, concrete, traits, span, i);
}

/// The bounds of a generic function add no finding exactly if every type argument
/// satisfies every trait that bounds its type parameter.
pub proof fn law_bounds_are_held(
    env: EnvV,
    st: StateV,
    bounds: Seq<(Chars, Seq<Chars>)>,
    b: Bindings,
    span: Span,
    n: int,
)
    requires
        0 <= n <= bounds.len(),
    ensures
        silent(st, bounds_held_n(env, st, bounds, b, span, n)) <==> forall|i: int| 0 <= i < n ==> bound_held(env, #[trigger] bounds[i], b),
{
    let counts = Seq::new((n + 1) as nat, |i: int| bounds_held_n(env, st, bounds, b, span, i).diagnostics.len());
    let oks = Seq::new(n as nat, |i: int| bound_held(env, bounds[i], b));
    assert forall|i: int| 0 <= i < n implies #[trigger] steady_at(counts, oks, i) by {
        lemma_bounds_are_held_step(env, st, bounds, b, span, i);
    }
    lemma_steps(counts, oks);
    assert forall|i: int| 0 <= i < n implies oks[i] == (bound_held(env, #[trigger] bounds[i], b)) by {}
}

proof fn lemma_bounds_are_held_step(
    env: EnvV,
    st: StateV,
    bounds: Seq<(Chars, Seq<Chars>)>,
    b: Bindings,
    span: Span,
    i: int,
)
    requires
        0 <= i < bounds.len(),
    ensures
        ({
            let s = bounds_held_n(env, st, bounds, b, span, i);
            let next = bounds_held_n(env, st, bounds, b, span, i + 1);
            &&& s.diagnostics.len() <= next.diagnostics.len()
            &&& silent(s, next) <==> (bound_held(env, bounds[i], b))
        }),
{
    let s = bounds_held_n(env, st, bounds, b, span, i);
    kept_bounds_held_n(env, st, bounds, b, span, i);
    match find(b, bounds[i].0) {
        Some(t) => {
            let traits = bounds[i].1;
            law_traits_are_held(env, s, bound_name(t), traits, span, traits.len() as int);
            kept_traits_held_n(env, s, bound_name(t), traits, span, traits.len() as int);
            lemma_counts(s, traits_held_n(env, s, bound_name(t), traits, span, traits.len() as int));
        },
        None => {},
    }
}

/// The names of arguments add no finding exactly if each is the name of a
/// parameter and none is written twice.
pub proof fn law_argument_names_are_known(
    st: StateV,
    fname: Chars,
    names: Seq<Chars>,
    named_args: Seq<(String, Expr)>,
    n: int,
)
    requires
        0 <= n <= named_args.len(),
    ensures
        silent(st, names_known_n(st, fname, names, named_args, n)) <==> forall|i: int| 0 <= i < n ==> (names.contains((#[trigger] named_args[i]).0@) && forall|j: int| 0 <= j < i ==> (#[trigger] named_args[j]).0@ != named_args[i].0@),
{
    let counts = Seq::new((n + 1) as nat, |i: int| names_known_n(st, fname, names, named_args, i).diagnostics.len());
    let oks = Seq::new(n as nat, |i: int| (names.contains(( named_args[i]).0@) && forall|j: int| 0 <= j < i ==> (#[trigger] named_args[j]).0@ != named_args[i].0@));
    assert forall|i: int| 0 <= i < n implies #[trigger] steady_at(counts, oks, i) by {
        lemma_argument_names_are_known_step(st, fname, names, named_args, i);
    }
    lemma_steps(counts, oks);
    assert forall|i: int| 0 <= i < n implies oks[i] == ((names.contains((#[trigger] named_args[i]).0@) && forall|j: int| 0 <= j < i ==> (#[trigger] named_args[j]).0@ != named_args[i].0@)) by {}
}

proof fn lemma_argument_names_are_known_step(
    st: StateV,
    fname: Chars,
    names: Seq<Chars>,
    named_args: Seq<(String, Expr)>,
    i: int,
)
    requires
        0 <= i < named_args.len(),
    ensures
        ({
            let s = names_known_n(st, fname, names, named_args, i);
            let next = names_known_n(st, fname, names, named_args, i + 1);
            &&& s.diagnostics.len() <= next.diagnostics.len()
            &&& silent(s, next) <==> ((names.contains((named_args[i]).0@) && forall|j: int| 0 <= j < i ==> (#[trigger] named_args[j]).0@ != named_args[i].0@))
        }),
{
    let s = names_known_n(st, fname, names, named_args, i);
    if forall|j: int| 0 <= j < i ==> (#[trigger] named_args[j]).0@ != named_args[i].0@ {
        assert(!appears(named_args, named_args[i].0@, i));
    }
}

/// No finding says that a named argument was given by position exactly if the
/// parameter of each comes behind the positional arguments.
pub proof fn law_argument_names_are_free(
    st: StateV,
    names: Seq<Chars>,
    named_args: Seq<(String, Expr)>,
    positional: nat,
    n: int,
)
    requires
        0 <= n <= named_args.len(),
    ensures
        silent(st, names_free_n(st, names, named_args, positional, n)) <==> forall|i: int| 0 <= i < n ==> (forall|p: int| #[trigger] first_at(names, (#[trigger] named_args[i]).0@, p) ==> positional <= p),
{
    let counts = Seq::new((n + 1) as nat, |i: int| names_free_n(st, names, named_args, positional, i).diagnostics.len());
    let oks = Seq::new(n as nat, |i: int| (forall|p: int| #[trigger] first_at(names, ( named_args[i]).0@, p) ==> positional <= p));
    assert forall|i: int| 0 <= i < n implies #[trigger] steady_at(counts, oks, i) by {
        lemma_argument_names_are_free_step(st, names, named_args, positional, i);
    }
    lemma_steps(counts, oks);
    assert forall|i: int| 0 <= i < n implies oks[i] == ((forall|p: int| #[trigger] first_at(names, (#[trigger] named_args[i]).0@, p) ==> positional <= p)) by {}
}

proof fn lemma_argument_names_are_free_step(
    st: StateV,
    names: Seq<Chars>,
    named_args: Seq<(String, Expr)>,
    positional: nat,
    i: int,
)
    requires
        0 <= i < named_args.len(),
    ensures
        ({
            let s = names_free_n(st, names, named_args, positional, i);
            let next = names_free_n(st, names, named_args, positional, i + 1);
            &&& s.diagnostics.len() <= next.diagnostics.len()
            &&& silent(s, next) <==> ((forall|p: int| #[trigger] first_at(names, (named_args[i]).0@, p) ==> positional <= p))
        }),
{
    let s = names_free_n(st, names, named_args, positional, i);
    lemma_name_position(names, named_args[i].0@, 0);
}

/// Inference adds no finding exactly if every one of its errors is a mismatch,
/// which is reported with the argument itself.
pub proof fn law_conflicts_are_reported(
    st: StateV,
    callee: Chars,
    errors: Seq<(usize, UnifyErrorV)>,
    span: Span,
    n: int,
)
    requires
        0 <= n <= errors.len(),
    ensures
        silent(st, unify_reported_n(st, callee, errors, span, n)) <==> forall|i: int| 0 <= i < n ==> (#[trigger] errors[i]).1 is Mismatch,
{
    let counts = Seq::new((n + 1) as nat, |i: int| unify_reported_n(st, callee, errors, span, i).diagnostics.len());
    let oks = Seq::new(n as nat, |i: int| ( errors[i]).1 is Mismatch);
    assert forall|i: int| 0 <= i < n implies #[trigger] steady_at(counts, oks, i) by {
        lemma_conflicts_are_reported_step(st, callee, errors, span, i);
    }
    lemma_steps(counts, oks);
    assert forall|i: int| 0 <= i < n implies oks[i] == ((#[trigger] errors[i]).1 is Mismatch) by {}
}

proof fn lemma_conflicts_are_reported_step(
    st: StateV,
    callee: Chars,
    errors: Seq<(usize, UnifyErrorV)>,
    span: Span,
    i: int,
)
    requires
        0 <= i < errors.len(),
    ensures
        ({
            let s = unify_reported_n(st, callee, errors, span, i);
            let next = unify_reported_n(st, callee, errors, span, i + 1);
            &&& s.diagnostics.len() <= next.diagnostics.len()
            &&& silent(s, next) <==> ((errors[i]).1 is Mismatch)
        }),
{
    let s = unify_reported_n(st, callee, errors, span, i);

}

/// Whether the parameter at `i` gets a value: by position, by name, or from
/// its default.
pub open spec fn supplied(
    names: Seq<Chars>,
    defaults: Seq<(usize, Expr)>,
    positional: nat,
    named_args: Seq<(String, Expr)>,
    i: int,
) -> bool {
    ||| i < positional
    ||| exists|j: int|
        0 <= j < named_args.len() && first_at(names, (#[trigger] named_args[j]).0@, i)
    ||| holds(defaults, i as usize)
}

/// No parameter is missing exactly if each gets a value: by position, by name,
/// or from its default.
pub proof fn law_missing_parameters(
    names: Seq<Chars>,
    defaults: Seq<(usize, Expr)>,
    positional: nat,
    named_args: Seq<(String, Expr)>,
    n: int,
)
    requires
        0 <= n <= names.len(),
    ensures
        missing_n(names, defaults, positional, named_args, n).len() == 0 <==> forall|i: int|
            0 <= i < n ==> #[trigger] supplied(names, defaults, positional, named_args, i),
    decreases n,
{
    if n > 0 {
        law_missing_parameters(names, defaults, positional, named_args, n - 1);
        let i = n - 1;
        assert forall|j: int| 0 <= j < named_args.len() implies (first_at(
            names,
            (#[trigger] named_args[j]).0@,
            i,
        ) <==> name_position(names, named_args[j].0@, 0) == i) by {
            lemma_name_position(names, named_args[j].0@, 0);
        }
        assert(covered(names, defaults, positional, named_args, i) <==> supplied(
            names,
            defaults,
            positional,
            named_args,
            i,
        ));
    }
}

/// A call of a function without type parameters has the function's result
/// type; and if it adds no finding, every positional argument fits the
/// parameter at its position, every named one the parameter of its name, every
/// parameter gets a value, and no argument is given twice.
pub proof fn law_call_is_accepted(
    env: EnvV,
    st: StateV,
    fname: Chars,
    f: FunctionInfoV,
    args: Arguments,
    span: Span,
)
    requires
        f.type_params.len() == 0,
        f.param_names.len() == f.params.len(),
    ensures
        sem_call_info(env, st, fname, f, args, span).1 == f.return_type,
        silent(st, sem_call_info(env, st, fname, f, args, span).0) ==> {
            let s1 = counted(st, fname, f, args, span).0;
            let s2 = sem_positional_n(
                env,
                s1,
                args.positional@,
                fname,
                f.params,
                args.positional@.len() as int,
            );
            &&& silent(st, s1)
            &&& args.positional@.len() <= f.params.len()
            &&& forall|i: int|
                0 <= i < args.positional@.len() ==> accepted(
                    env,
                    sem_positional_n(env, s1, args.positional@, fname, f.params, i),
                    #[trigger] args.positional@[i],
                    f.params[i],
                )
            &&& forall|i: int|
                0 <= i < args.named@.len() ==> named_accepted(
                    env,
                    sem_named_n(env, s2, args.named@, fname, f.param_names, f.params, i),
                    #[trigger] args.named@[i],
                    f.param_names,
                    f.params,
                )
            &&& forall|i: int|
                0 <= i < f.params.len() ==> #[trigger] supplied(
                    f.param_names,
                    f.default_param_exprs,
                    args.positional@.len(),
                    args.named@,
                    i,
                )
            &&& forall|i: int|
                0 <= i < args.named@.len() ==> f.param_names.contains(
                    (#[trigger] args.named@[i]).0@,
                )
            &&& forall|i: int, p: int|
                0 <= i < args.named@.len() && #[trigger] first_at(
                    f.param_names,
                    args.named@[i].0@,
                    p,
                ) ==> args.positional@.len() <= p
        },
{
    let ps = args.positional@;
    let ns = args.named@;
    let n = ps.len() as int;
    let m = ns.len() as int;
    let (s1, well) = counted(st, fname, f, args, span);
    kept_counted(st, fname, f, args, span);
    lemma_counts(st, s1);
    let known = names_known_n(st, fname, f.param_names, ns, m);
    let free = names_free_n(known, f.param_names, ns, ps.len(), m);
    kept_names_known_n(st, fname, f.param_names, ns, m);
    kept_names_free_n(known, f.param_names, ns, ps.len(), m);
    lemma_counts(st, known);
    lemma_counts(known, free);
    law_argument_names_are_known(st, fname, f.param_names, ns, m);
    law_argument_names_are_free(known, f.param_names, ns, ps.len(), m);
    law_missing_parameters(
        f.param_names,
        f.default_param_exprs,
        ps.len(),
        ns,
        f.params.len() as int,
    );
    if well {
        let s2 = sem_positional_n(env, s1, ps, fname, f.params, n);
        let s3 = sem_named_n(env, s2, ns, fname, f.param_names, f.params, m);
        kept_sem_positional_n(env, s1, ps, fname, f.params, n);
        kept_sem_named_n(env, s2, ns, fname, f.param_names, f.params, m);
        lemma_counts(s1, s2);
        lemma_counts(s2, s3);
        law_positional_arguments_fit(env, s1, ps, fname, f.params, n);
        law_named_arguments_fit(env, s2, ns, fname, f.param_names, f.params, m);
        if silent(st, s3) {
            assert(s1 == free);
            assert forall|i: int, p: int|
                0 <= i < m && #[trigger] first_at(f.param_names, ns[i].0@, p) implies ps.len()
                <= p by {
                let arg = ns[i];
            }
        }
    } else {
        assert(free == names_validated(st, fname, f.param_names, ns, ps.len()));
        assert(s1.diagnostics.len() == free.diagnostics.len() + 1);
    }
}

/// The types of a list of expressions stand in their order: each is the type
/// that the expression at its position is checked to.
pub proof fn law_types_by_position(env: EnvV, st: StateV, es: Seq<Expr>, n: int)
    requires
        0 <= n <= es.len(),
    ensures
        sem_types_n(env, st, es, n).1.len() == n,
        forall|i: int|
            0 <= i < n ==> #[trigger] sem_types_n(env, st, es, n).1[i] == sem_expr(
                env,
                sem_types_n(env, st, es, i).0,
                es[i],
            ).1,
    decreases n,
{
    if n > 0 {
        law_types_by_position(env, st, es, n - 1);
        lemma_types_step(env, st, es, n);
    }
}

proof fn lemma_types_step(env: EnvV, st: StateV, es: Seq<Expr>, n: int)
    requires
        0 < n <= es.len(),
    ensures
        sem_types_n(env, st, es, n).1 == sem_types_n(env, st, es, n - 1).1.push(
            sem_expr(env, sem_types_n(env, st, es, n - 1).0, es[n - 1]).1,
        ),
{
}

/// The types of positional arguments keep their places, and the other places
/// wait for a named argument or a default.
pub proof fn law_places_are_padded(ts: Seq<Ty>, n: nat)
    ensures
        padded(ts, n).len() == if ts.len() < n {
            n
        } else {
            ts.len()
        },
        forall|i: int| 0 <= i < ts.len() ==> #[trigger] padded(ts, n)[i] == ts[i],
        forall|i: int|
            ts.len() <= i < padded(ts, n).len() ==> #[trigger] padded(ts, n)[i] == Ty::Error,
    decreases n - ts.len(),
{
    if ts.len() < n {
        let more = ts.push(Ty::Error);
        law_places_are_padded(more, n);
        assert forall|i: int| 0 <= i < ts.len() implies #[trigger] padded(ts, n)[i] == ts[i] by {
            assert(padded(more, n)[i] == more[i]);
        }
        assert forall|i: int|
            ts.len() <= i < padded(ts, n).len() implies #[trigger] padded(ts, n)[i] == Ty::Error by {
            if i == ts.len() {
                assert(padded(more, n)[i] == more[i]);
            }
        }
    }
}

/// A named argument puts its type at the place of its parameter, and no other
/// place changes.
pub proof fn law_named_types_take_their_places(
    env: EnvV,
    st: StateV,
    named_args: Seq<(String, Expr)>,
    names: Seq<Chars>,
    ts: Seq<Ty>,
    n: int,
)
    requires
        0 <= n <= named_args.len(),
        names.len() <= ts.len(),
    ensures
        sem_named_types_n(env, st, named_args, names, ts, n).1.len() == ts.len(),
        forall|k: int, p: int|
            0 <= k < n && #[trigger] first_at(names, (#[trigger] named_args[k]).0@, p) && (forall|
                later: int,
            |
                k < later < n ==> (#[trigger] named_args[later]).0@ != named_args[k].0@)
                ==> sem_named_types_n(env, st, named_args, names, ts, n).1[p] == sem_expr(
                env,
                sem_named_types_n(env, st, named_args, names, ts, k).0,
                named_args[k].1,
            ).1,
        forall|p: int|
            0 <= p < ts.len() && (forall|k: int|
                0 <= k < n ==> !first_at(names, (#[trigger] named_args[k]).0@, p))
                ==> #[trigger] sem_named_types_n(env, st, named_args, names, ts, n).1[p] == ts[p],
    decreases n,
{
    if n > 0 {
        law_named_types_take_their_places(env, st, named_args, names, ts, n - 1);
        lemma_name_position(names, named_args[n - 1].0@, 0);
        lemma_named_types_step(env, st, named_args, names, ts, n);
        let before = sem_named_types_n(env, st, named_args, names, ts, n - 1).1;
        let after = sem_named_types_n(env, st, named_args, names, ts, n).1;
        assert forall|k: int, p: int|
            0 <= k < n && #[trigger] first_at(names, (#[trigger] named_args[k]).0@, p) && (forall|
                later: int,
            |
                k < later < n ==> (#[trigger] named_args[later]).0@ != named_args[k].0@) implies
            after[p] == sem_expr(
            env,
            sem_named_types_n(env, st, named_args, names, ts, k).0,
            named_args[k].1,
        ).1 by {
            if k < n - 1 {
                assert(named_args[n - 1].0@ != named_args[k].0@);
                assert(!first_at(names, named_args[n - 1].0@, p));
                assert(forall|later: int|
                    k < later < n - 1 ==> (#[trigger] named_args[later]).0@ != named_args[k].0@);
                assert(after[p] == before[p]);
            }
        }
        assert forall|p: int|
            0 <= p < ts.len() && (forall|k: int|
                0 <= k < n ==> !first_at(names, (#[trigger] named_args[k]).0@, p))
            implies #[trigger] after[p] == ts[p] by {
            assert(!first_at(names, named_args[n - 1].0@, p));
            assert(before[p] == ts[p]);
        }
    }
}

proof fn lemma_named_types_step(
    env: EnvV,
    st: StateV,
    named_args: Seq<(String, Expr)>,
    names: Seq<Chars>,
    ts: Seq<Ty>,
    n: int,
)
    requires
        0 < n <= named_args.len(),
    ensures
        ({
            let (s1, rest) = sem_named_types_n(env, st, named_args, names, ts, n - 1);
            let i = name_position(names, named_args[n - 1].0@, 0);
            sem_named_types_n(env, st, named_args, names, ts, n).1 == if i < names.len() && i
                < rest.len() {
                rest.update(i, sem_expr(env, s1, named_args[n - 1].1).1)
            } else {
                rest
            }
        }),
{
}

/// A parameter with a default takes its declared type where no argument is
/// given for it, and no other place changes.
pub proof fn law_defaults_fill_gaps(
    f: FunctionInfoV,
    positional: nat,
    named_args: Seq<(String, Expr)>,
    ts: Seq<Ty>,
    n: int,
)
    requires
        0 <= n <= ts.len() == f.params.len() == f.param_names.len(),
    ensures
        defaults_filled_n(f, positional, named_args, ts, n).len() == ts.len(),
        forall|i: int|
            0 <= i < ts.len() ==> #[trigger] defaults_filled_n(f, positional, named_args, ts, n)[i]
                == if i < n && ts[i] == Ty::Error && holds(f.default_param_exprs, i as usize)
                && positional <= i && (forall|j: int|
                0 <= j < named_args.len() ==> (#[trigger] named_args[j]).0@ != f.param_names[i]) {
                f.params[i]
            } else {
                ts[i]
            },
    decreases n,
{
    if n > 0 {
        law_defaults_fill_gaps(f, positional, named_args, ts, n - 1);
        let i = n - 1;
        assert(appears(named_args, f.param_names[i], named_args.len() as int) <==> !(forall|j: int|
            0 <= j < named_args.len() ==> (#[trigger] named_args[j]).0@ != f.param_names[i]));
    }
}

/// The type arguments of a call stand in the order of the type parameters: at
/// every position the type that the parameter is bound to, or the parameter
/// itself where nothing is.
pub proof fn law_type_arguments_by_position(params: Seq<Chars>, b: Bindings, n: int)
    requires
        0 <= n <= params.len(),
    ensures
        instantiated_n(params, b, n).len() == n,
        forall|i: int|
            0 <= i < n ==> (#[trigger] instantiated_n(params, b, n)[i] == match find(b, params[i]) {
                Some(t) => t,
                None => Ty::TypeVar(params[i]),
            }),
        (forall|i: int| 0 <= i < n ==> holds(b, #[trigger] params[i])) ==> bound_types_n(params, b, n)
            == instantiated_n(params, b, n),
    decreases n,
{
    if n > 0 {
        law_type_arguments_by_position(params, b, n - 1);
        if forall|i: int| 0 <= i < n ==> holds(b, #[trigger] params[i]) {
            assert(holds(b, params[n - 1]));
        }
    }
}

/// Every type parameter that the call leaves open is named, and no other one.
pub proof fn law_open_parameters_are_named(params: Seq<Chars>, b: Bindings, n: int)
    requires
        0 <= n <= params.len(),
    ensures
        unresolved_n(params, b, n).len() == 0 <==> forall|i: int|
            0 <= i < n ==> holds(b, #[trigger] params[i]),
        forall|i: int|
            0 <= i < n && !holds(b, #[trigger] params[i]) ==> unresolved_n(params, b, n).contains(
                "`"@ + params[i] + "`"@,
            ),
    decreases n,
{
    if n > 0 {
        law_open_parameters_are_named(params, b, n - 1);
        let rest = unresolved_n(params, b, n - 1);
        let all = unresolved_n(params, b, n);
        assert forall|i: int| 0 <= i < n && !holds(b, #[trigger] params[i]) implies all.contains(
            "`"@ + params[i] + "`"@,
        ) by {
            if i == n - 1 {
                assert(all.last() == "`"@ + params[i] + "`"@);
            } else {
                let k = choose|k: int| 0 <= k < rest.len() && rest[k] == "`"@ + params[i] + "`"@;
                assert(all[k] == rest[k]);
            }
        }
    }
}

/// A call of a generic function has the function's result type, with what the
/// call infers put in; and if it adds no finding, every argument fits its
/// parameter with that put in, every type argument satisfies its bounds, no two
/// arguments disagree, and no type parameter is left open, unless an argument is
/// in error.
#[verifier::rlimit(30)]
pub proof fn law_generic_call_is_accepted(
    env: EnvV,
    st: StateV,
    fname: Chars,
    f: FunctionInfoV,
    args: Arguments,
    span: Span,
)
    requires
        f.type_params.len() > 0,
        f.param_names.len() == f.params.len(),
        counted(st, fname, f, args, span).1,
    ensures
        ({
            let s1 = counted(st, fname, f, args, span).0;
            let (s2, ts) = sem_argument_types(env, s1, f, args);
            let (b, errors) = inferred(f.params, ts);
            let r = sem_call_info(env, st, fname, f, args, span);
            &&& ts.len() == f.params.len()
            &&& r.1 == subst(f.return_type, b)
            &&& silent(st, r.0) ==> {
                &&& silent(st, s1)
                &&& silent(s1, s2)
                &&& forall|i: int|
                    0 <= i < args.positional@.len() ==> fits_open(
                        env,
                        st.bounds,
                        subst(#[trigger] f.params[i], b),
                        ts[i],
                    )
                &&& forall|i: int|
                    0 <= i < args.named@.len() ==> named_fits_open(
                        env,
                        st.bounds,
                        (#[trigger] args.named@[i]).0@,
                        f.param_names,
                        f.params,
                        b,
                        ts,
                    )
                &&& forall|i: int|
                    0 <= i < f.type_param_bounds.len() ==> bound_held(
                        env,
                        #[trigger] f.type_param_bounds[i],
                        b,
                    )
                &&& forall|i: int| 0 <= i < errors.len() ==> (#[trigger] errors[i]).1 is Mismatch
                &&& any_error(ts) || forall|i: int|
                    0 <= i < f.type_params.len() ==> holds(b, #[trigger] f.type_params[i])
            }
        }),
{
    let ps = args.positional@;
    let ns = args.named@;
    let n = ps.len() as int;
    let m = ns.len() as int;
    let s1 = counted(st, fname, f, args, span).0;
    kept_counted(st, fname, f, args, span);
    lemma_counts(st, s1);
    let (s2, ts) = sem_argument_types(env, s1, f, args);
    kept_sem_argument_types(env, s1, f, args);
    lemma_counts(s1, s2);
    lemma_argument_types(env, s1, f, args);
    let (b, errors) = inferred(f.params, ts);
    let s3 = fitted_n(env, s2, ps, fname, f.params, b, ts, n);
    kept_fitted_n(env, s2, ps, fname, f.params, b, ts, n);
    lemma_counts(s2, s3);
    law_generic_arguments_fit(env, s2, ps, fname, f.params, b, ts, n);
    let s4 = named_fitted_n(env, s3, ns, fname, f.param_names, f.params, b, ts, m);
    kept_named_fitted_n(env, s3, ns, fname, f.param_names, f.params, b, ts, m);
    lemma_counts(s3, s4);
    law_generic_named_arguments_fit(env, s3, ns, fname, f.param_names, f.params, b, ts, m);
    let k = f.type_param_bounds.len() as int;
    let s5 = bounds_held_n(env, s4, f.type_param_bounds, b, span, k);
    kept_bounds_held_n(env, s4, f.type_param_bounds, b, span, k);
    lemma_counts(s4, s5);
    law_bounds_are_held(env, s4, f.type_param_bounds, b, span, k);
    let s6 = unify_reported_n(s5, fname, errors, span, errors.len() as int);
    kept_unify_reported_n(s5, fname, errors, span, errors.len() as int);
    lemma_counts(s5, s6);
    law_conflicts_are_reported(s5, fname, errors, span, errors.len() as int);
    law_open_parameters_are_named(f.type_params, b, f.type_params.len() as int);
    kept_type_args_recorded(s5, fname, f.type_params, b, errors, ts, span);
    lemma_counts(s5, type_args_recorded(s5, fname, f.type_params, b, errors, ts, span));
}

proof fn lemma_argument_types(env: EnvV, st: StateV, f: FunctionInfoV, args: Arguments)
    requires
        args.positional@.len() <= f.params.len(),
        f.param_names.len() == f.params.len(),
    ensures
        sem_argument_types(env, st, f, args).1.len() == f.params.len(),
{
    let n = args.positional@.len() as int;
    let (s1, ts) = sem_types_n(env, st, args.positional@, n);
    law_types_by_position(env, st, args.positional@, n);
    law_places_are_padded(ts, f.params.len());
    let all = sem_named_types_n(
        env,
        s1,
        args.named@,
        f.param_names,
        padded(ts, f.params.len()),
        args.named@.len() as int,
    ).1;
    law_named_types_take_their_places(
        env,
        s1,
        args.named@,
        f.param_names,
        padded(ts, f.params.len()),
        args.named@.len() as int,
    );
    law_defaults_fill_gaps(f, args.positional@.len(), args.named@, all, all.len() as int);
}

/// A generic struct has the type arguments that its values infer, in the order
/// of its type parameters; its values are without findings exactly if they are
/// as many as its fields, none has one, and the type of each fits its field with
/// the type arguments put in.
pub proof fn law_generic_struct_is_constructed(
    env: EnvV,
    st: StateV,
    x: StructLiteralExpr,
    info: StructInfoV,
)
    requires
        in_scope(env, env.structs, x.name@) == Some(info),
        info.type_params.len() > 0,
        x.args@.len() == info.fields.len(),
    ensures
        ({
            let s = construction_checked(env, st, info, x.name@, x.span);
            let n = x.args@.len() as int;
            let (s1, ts) = sem_types_n(env, s, x.args@, n);
            let b = inferred(field_types(info.fields), ts).0;
            let r = sem_struct_literal(env, st, x);
            &&& r.1 matches Ty::Generic(key, us) && key == canonical(env, x.name@) && us.len()
                == info.type_params.len() && forall|i: int|
                0 <= i < us.len() ==> (#[trigger] us[i] == match find(b, info.type_params[i]) {
                    Some(t) => t,
                    None => Ty::TypeVar(info.type_params[i]),
                })
            &&& silent(s1, r.0) <==> forall|i: int|
                0 <= i < n ==> fits_open(
                    env,
                    s1.bounds,
                    subst((#[trigger] info.fields[i]).ty, b),
                    ts[i],
                )
        }),
{
    let s = construction_checked(env, st, info, x.name@, x.span);
    let n = x.args@.len() as int;
    let (s1, ts) = sem_types_n(env, s, x.args@, n);
    law_types_by_position(env, s, x.args@, n);
    let b = inferred(field_types(info.fields), ts).0;
    law_type_arguments_by_position(info.type_params, b, info.type_params.len() as int);
    law_generic_field_values_fit(env, s1, x.args@, info.fields, b, ts, n);
}

/// A variant of an enum without type parameters, written like a call, adds no
/// finding exactly if its owner is clear, it has a value for each of its fields,
/// and the value at every position has none itself and fits.
pub proof fn law_variant_is_constructed(
    env: EnvV,
    st: StateV,
    x: StructLiteralExpr,
    m: EnumVariantMatchV,
)
    requires
        variant_owner(env, st, x.name@, x.span).1 == Some(m),
        m.type_params.len() == 0,
    ensures
        ({
            let s = variant_owner(env, st, x.name@, x.span).0;
            let r = sem_variant(env, st, x);
            &&& r.1 == Ty::Named(canonical(env, m.local_name))
            &&& silent(s, r.0) <==> x.args@.len() == m.variant_types.len() && forall|i: int|
                0 <= i < x.args@.len() ==> accepted(
                    env,
                    sem_payload_n(env, s, x.args@, x.name@, m.variant_types, i),
                    #[trigger] x.args@[i],
                    m.variant_types[i],
                )
            &&& silent(st, s) <==> owners(env, x.name@).len() == 1
        }),
{
    let s = variant_owner(env, st, x.name@, x.span).0;
    if x.args@.len() == m.variant_types.len() {
        law_variant_values_fit(
            env,
            s,
            x.args@,
            x.name@,
            m.variant_types,
            x.args@.len() as int,
        );
    }
}

/// A variant of a generic enum has the type arguments that its values infer, in
/// the order of the enum's type parameters; the type of each value fits its
/// field with these put in, if there is no finding.
pub proof fn law_generic_variant_is_constructed(
    env: EnvV,
    st: StateV,
    x: StructLiteralExpr,
    m: EnumVariantMatchV,
)
    requires
        variant_owner(env, st, x.name@, x.span).1 == Some(m),
        m.type_params.len() > 0,
        x.args@.len() == m.variant_types.len(),
    ensures
        ({
            let s = variant_owner(env, st, x.name@, x.span).0;
            let n = x.args@.len() as int;
            let (s1, ts) = sem_types_n(env, s, x.args@, n);
            let b = inferred(m.variant_types, ts).0;
            let r = sem_variant(env, st, x);
            &&& r.1 matches Ty::Generic(key, us) && key == canonical(env, m.local_name) && us.len()
                == m.type_params.len() && forall|i: int|
                0 <= i < us.len() ==> (#[trigger] us[i] == match find(b, m.type_params[i]) {
                    Some(t) => t,
                    None => Ty::TypeVar(m.type_params[i]),
                })
            &&& silent(s1, r.0) <==> forall|i: int|
                0 <= i < n ==> fits_open(
                    env,
                    s1.bounds,
                    subst(#[trigger] m.variant_types[i], b),
                    ts[i],
                )
        }),
{
    let s = variant_owner(env, st, x.name@, x.span).0;
    let n = x.args@.len() as int;
    let (s1, ts) = sem_types_n(env, s, x.args@, n);
    law_types_by_position(env, s, x.args@, n);
    let b = inferred(m.variant_types, ts).0;
    law_type_arguments_by_position(m.type_params, b, m.type_params.len() as int);
    law_generic_variant_values_fit(env, s1, x.args@, x.name@, m.variant_types, b, ts, n);
}

/// A name that is called stands for the function of that name, before any
/// variable: the call is a call of that function.
pub proof fn law_function_is_called(
    env: EnvV,
    st: StateV,
    x: CallExpr,
    id: IdentExpr,
    f: FunctionInfoV,
)
    requires
        x.callee == Expr::Ident(id),
        id.name@ != "print"@,
        id.name@ != "toString"@,
        in_scope(env, env.functions, id.name@) == Some(f),
    ensures
        sem_call(env, st, x).1 == sem_call_info(
            env,
            st.refer(id.span, crate::info::SymbolKindV::Function, id.name@),
            id.name@,
            f,
            x.args,
            x.span,
        ).1,
        f.type_params.len() == 0 ==> sem_call(env, st, x).1 == f.return_type,
{
}

/// A name has the type of its variable; a name that is neither a variable nor a
/// variant without fields is a finding.
pub proof fn law_name_has_its_type(env: EnvV, st: StateV, x: IdentExpr)
    ensures
        st.variable(x.name@) matches Some(v) ==> sem_ident(env, st, x).1 == v.ty && silent(
            st,
            sem_ident(env, st, x).0,
        ),
        st.variable(x.name@) is None && unit_variant_from(env.enums, x.name@, 0) is None ==> !silent(
            st,
            sem_ident(env, st, x).0,
        ),
{
}

} // verus!
