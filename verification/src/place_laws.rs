//! Where a finding about an argument is reported, and with what words.
use crate::ast::{expr_span, Expr};
use crate::builtins::sem_plain_n;
use crate::calls::{argument_message, fitted_n};
use crate::check_call::{
    field_message, fields_fitted_n, payload_fitted_n, payload_message, sem_fields_n,
    sem_indirect_n, sem_payload_n, sem_positional_n,
};
use crate::check_expr::{sem_elements_n, sem_expr};
use crate::check_method::sem_method_args_n;
use crate::check_types::compatible;
use crate::env::EnvV;
use crate::fit_laws::{lemma_counts, lemma_pinned_silent};
use crate::info::FieldInfoV;
use crate::span::plain_error;
use crate::state::StateV;
use crate::steady_bodies::{
    kept_sem_elements_n, kept_sem_fields_n, kept_sem_indirect_n, kept_sem_method_args_n,
    kept_sem_payload_n, kept_sem_plain_n, kept_sem_positional_n, law_expression_keeps,
};
use crate::steady_parts::{kept_fields_fitted_n, kept_fitted_n, kept_payload_fitted_n};
use crate::text::{decimal, Chars};
use crate::types::{has_vars, show, subst, Bindings, Ty};
use vstd::prelude::*;

verus! {

broadcast use crate::steady::steps;

/// An argument that does not fit is reported at its own place, with its position,
/// the type of its parameter and its own; one that fits adds nothing.
pub proof fn law_misfit_is_reported_at_the_argument(
    env: EnvV,
    st: StateV,
    args: Seq<Expr>,
    fname: Chars,
    params: Seq<Ty>,
    i: int,
)
    requires
        0 <= i < args.len(),
        args.len() <= params.len(),
    ensures
        ({
            let s = sem_positional_n(env, st, args, fname, params, i);
            let (checked, t) = sem_expr(env, s, args[i]);
            sem_positional_n(env, st, args, fname, params, i + 1).diagnostics == if compatible(env, st.bounds, params[i], t) {
                checked.diagnostics
            } else {
                checked.diagnostics.push(plain_error(argument_message(i as nat, fname, params[i], t), expr_span(args[i])))
            }
        }),
{
    let s = sem_positional_n(env, st, args, fname, params, i);
    kept_sem_positional_n(env, st, args, fname, params, i);
    law_expression_keeps(env, s, args[i]);
    lemma_counts(st, s);
    lemma_counts(s, sem_expr(env, s, args[i]).0);
    lemma_pinned_silent(env, args[i]);
}

/// An argument that does not fit is reported at its own place, with its position,
/// the type of its parameter and its own; one that fits adds nothing.
pub proof fn law_misfit_is_reported_at_the_method_argument(
    env: EnvV,
    st: StateV,
    args: Seq<Expr>,
    method: Chars,
    params: Seq<Ty>,
    b: Bindings,
    i: int,
)
    requires
        0 <= i < args.len(),
        args.len() <= params.len(),
    ensures
        ({
            let s = sem_method_args_n(env, st, args, method, params, b, i);
            let (checked, t) = sem_expr(env, s, args[i]);
            sem_method_args_n(env, st, args, method, params, b, i + 1).diagnostics == if compatible(env, st.bounds, subst(params[i], b), t) {
                checked.diagnostics
            } else {
                checked.diagnostics.push(plain_error(argument_message(i as nat, method, subst(params[i], b), t), expr_span(args[i])))
            }
        }),
{
    let s = sem_method_args_n(env, st, args, method, params, b, i);
    kept_sem_method_args_n(env, st, args, method, params, b, i);
    law_expression_keeps(env, s, args[i]);
    lemma_counts(st, s);
    lemma_counts(s, sem_expr(env, s, args[i]).0);
    lemma_pinned_silent(env, args[i]);
}

/// An argument that does not fit is reported at its own place, with its position,
/// the type of its parameter and its own; one that fits adds nothing.
pub proof fn law_misfit_is_reported_at_the_generic_argument(
    env: EnvV,
    st: StateV,
    args: Seq<Expr>,
    fname: Chars,
    params: Seq<Ty>,
    b: Bindings,
    ts: Seq<Ty>,
    i: int,
)
    requires
        0 <= i < args.len(),
        args.len() <= params.len(),
        args.len() <= ts.len(),
    ensures
        ({
            let s = fitted_n(env, st, args, fname, params, b, ts, i);
            let checked = s;
            fitted_n(env, st, args, fname, params, b, ts, i + 1).diagnostics == if has_vars(subst(params[i], b)) || compatible(env, st.bounds, subst(params[i], b), ts[i]) {
                checked.diagnostics
            } else {
                checked.diagnostics.push(plain_error(argument_message(i as nat, fname, subst(params[i], b), ts[i]), expr_span(args[i])))
            }
        }),
{
    let s = fitted_n(env, st, args, fname, params, b, ts, i);
    kept_fitted_n(env, st, args, fname, params, b, ts, i);
    lemma_counts(st, s);
    lemma_pinned_silent(env, args[i]);
}

/// A value that does not fit its field is reported at its own place, with the name
/// and the type of the field at its position; one that fits adds nothing.
pub proof fn law_misfit_is_reported_at_the_value(
    env: EnvV,
    st: StateV,
    args: Seq<Expr>,
    fs: Seq<FieldInfoV>,
    i: int,
)
    requires
        0 <= i < args.len(),
        args.len() <= fs.len(),
    ensures
        ({
            let s = sem_fields_n(env, st, args, fs, i);
            let (checked, t) = sem_expr(env, s, args[i]);
            sem_fields_n(env, st, args, fs, i + 1).diagnostics == if compatible(env, st.bounds, fs[i].ty, t) {
                checked.diagnostics
            } else {
                checked.diagnostics.push(plain_error(field_message(fs[i].name, fs[i].ty, t), expr_span(args[i])))
            }
        }),
{
    let s = sem_fields_n(env, st, args, fs, i);
    kept_sem_fields_n(env, st, args, fs, i);
    law_expression_keeps(env, s, args[i]);
    lemma_counts(st, s);
    lemma_counts(s, sem_expr(env, s, args[i]).0);
    lemma_pinned_silent(env, args[i]);
}

/// A value that does not fit its field is reported at its own place, with the name
/// and the type of the field at its position; one that fits adds nothing.
pub proof fn law_misfit_is_reported_at_the_generic_value(
    env: EnvV,
    st: StateV,
    args: Seq<Expr>,
    fs: Seq<FieldInfoV>,
    b: Bindings,
    ts: Seq<Ty>,
    i: int,
)
    requires
        0 <= i < args.len(),
        args.len() <= fs.len(),
        args.len() <= ts.len(),
    ensures
        ({
            let s = fields_fitted_n(env, st, args, fs, b, ts, i);
            let checked = s;
            fields_fitted_n(env, st, args, fs, b, ts, i + 1).diagnostics == if has_vars(subst(fs[i].ty, b)) || compatible(env, st.bounds, subst(fs[i].ty, b), ts[i]) {
                checked.diagnostics
            } else {
                checked.diagnostics.push(plain_error(field_message(fs[i].name, subst(fs[i].ty, b), ts[i]), expr_span(args[i])))
            }
        }),
{
    let s = fields_fitted_n(env, st, args, fs, b, ts, i);
    kept_fields_fitted_n(env, st, args, fs, b, ts, i);
    lemma_counts(st, s);
    lemma_pinned_silent(env, args[i]);
}

/// A value that does not fit the variant is reported at its own place, with its
/// position and the type at that position; one that fits adds nothing.
pub proof fn law_misfit_is_reported_at_the_variant_value(
    env: EnvV,
    st: StateV,
    args: Seq<Expr>,
    name: Chars,
    fields: Seq<Ty>,
    i: int,
)
    requires
        0 <= i < args.len(),
        args.len() <= fields.len(),
    ensures
        ({
            let s = sem_payload_n(env, st, args, name, fields, i);
            let (checked, t) = sem_expr(env, s, args[i]);
            sem_payload_n(env, st, args, name, fields, i + 1).diagnostics == if compatible(env, st.bounds, fields[i], t) {
                checked.diagnostics
            } else {
                checked.diagnostics.push(plain_error(payload_message(name, i as nat, fields[i], t), expr_span(args[i])))
            }
        }),
{
    let s = sem_payload_n(env, st, args, name, fields, i);
    kept_sem_payload_n(env, st, args, name, fields, i);
    law_expression_keeps(env, s, args[i]);
    lemma_counts(st, s);
    lemma_counts(s, sem_expr(env, s, args[i]).0);
    lemma_pinned_silent(env, args[i]);
}

/// A value that does not fit the variant is reported at its own place, with its
/// position and the type at that position; one that fits adds nothing.
pub proof fn law_misfit_is_reported_at_the_generic_variant_value(
    env: EnvV,
    st: StateV,
    args: Seq<Expr>,
    name: Chars,
    fields: Seq<Ty>,
    b: Bindings,
    ts: Seq<Ty>,
    i: int,
)
    requires
        0 <= i < args.len(),
        args.len() <= fields.len(),
        args.len() <= ts.len(),
    ensures
        ({
            let s = payload_fitted_n(env, st, args, name, fields, b, ts, i);
            let checked = s;
            payload_fitted_n(env, st, args, name, fields, b, ts, i + 1).diagnostics == if has_vars(subst(fields[i], b)) || compatible(env, st.bounds, subst(fields[i], b), ts[i]) {
                checked.diagnostics
            } else {
                checked.diagnostics.push(plain_error(payload_message(name, i as nat, subst(fields[i], b), ts[i]), expr_span(args[i])))
            }
        }),
{
    let s = payload_fitted_n(env, st, args, name, fields, b, ts, i);
    kept_payload_fitted_n(env, st, args, name, fields, b, ts, i);
    lemma_counts(st, s);
    lemma_pinned_silent(env, args[i]);
}

/// An argument that does not fit is reported at its own place, with its position,
/// the type of its parameter and its own; one that fits adds nothing.
pub proof fn law_misfit_is_reported_at_the_indirect_argument(
    env: EnvV,
    st: StateV,
    args: Seq<Expr>,
    params: Seq<Ty>,
    i: int,
)
    requires
        0 <= i < args.len(),
        args.len() <= params.len(),
    ensures
        ({
            let s = sem_indirect_n(env, st, args, params, i);
            let (checked, t) = sem_expr(env, s, args[i]);
            sem_indirect_n(env, st, args, params, i + 1).diagnostics == if compatible(env, st.bounds, params[i], t) {
                checked.diagnostics
            } else {
                checked.diagnostics.push(plain_error("argument "@ + decimal((i + 1) as nat) + ": expected "@ + show(params[i]) + " but got "@ + show(t), expr_span(args[i])))
            }
        }),
{
    let s = sem_indirect_n(env, st, args, params, i);
    kept_sem_indirect_n(env, st, args, params, i);
    law_expression_keeps(env, s, args[i]);
    lemma_counts(st, s);
    lemma_counts(s, sem_expr(env, s, args[i]).0);
    lemma_pinned_silent(env, args[i]);
}

/// An argument that does not fit is reported at its own place, with its position,
/// the type of its parameter and its own; one that fits adds nothing.
pub proof fn law_misfit_is_reported_at_the_builtin_argument(
    env: EnvV,
    st: StateV,
    args: Seq<Expr>,
    method: Chars,
    params: Seq<Ty>,
    i: int,
)
    requires
        0 <= i < args.len(),
        args.len() <= params.len(),
    ensures
        ({
            let s = sem_plain_n(env, st, args, method, params, i);
            let (checked, t) = sem_expr(env, s, args[i]);
            sem_plain_n(env, st, args, method, params, i + 1).diagnostics == if compatible(env, st.bounds, params[i], t) {
                checked.diagnostics
            } else {
                checked.diagnostics.push(plain_error("argument "@ + decimal((i + 1) as nat) + " of `"@ + method + "`: expected "@ + show(params[i]) + " but got "@ + show(t), expr_span(args[i])))
            }
        }),
{
    let s = sem_plain_n(env, st, args, method, params, i);
    kept_sem_plain_n(env, st, args, method, params, i);
    law_expression_keeps(env, s, args[i]);
    lemma_counts(st, s);
    lemma_counts(s, sem_expr(env, s, args[i]).0);
    lemma_pinned_silent(env, args[i]);
}

/// An element that does not fit the first one is reported at its own place; one that
/// fits adds nothing.
pub proof fn law_misfit_is_reported_at_the_element(
    env: EnvV,
    st: StateV,
    args: Seq<Expr>,
    first: Ty,
    i: int,
)
    requires
        0 <= i < args.len(),
        0 < i,
    ensures
        ({
            let s = sem_elements_n(env, st, args, first, i);
            let (checked, t) = sem_expr(env, s, args[i]);
            sem_elements_n(env, st, args, first, i + 1).diagnostics == if compatible(env, st.bounds, first, t) {
                checked.diagnostics
            } else {
                checked.diagnostics.push(plain_error("list element type mismatch: expected "@ + show(first) + " but got "@ + show(t), expr_span(args[i])))
            }
        }),
{
    let s = sem_elements_n(env, st, args, first, i);
    kept_sem_elements_n(env, st, args, first, i);
    law_expression_keeps(env, s, args[i]);
    lemma_counts(st, s);
    lemma_counts(s, sem_expr(env, s, args[i]).0);
    lemma_pinned_silent(env, args[i]);
}

/// The words about an argument tell its position, counted from one, and name
/// both types.
pub proof fn law_argument_is_counted_from_one(i: nat, fname: Chars, expected: Ty, actual: Ty)
    ensures
        argument_message(i, fname, expected, actual) == "argument "@ + decimal(i + 1) + " of `"@
            + fname + "`: expected `"@ + show(expected) + "` but got `"@ + show(actual) + "`"@,
{
}

} // verus!
