//! What the parts of checking keep that look at no expression anew.
use crate::ast::{
    Arguments, Block, Expr, MatchArm, Param, Statement, TypeExpr, VarDecl, VarDeclTarget,
};
use crate::builtins::{callback_fits, callback_params_n};
use crate::calls::{
    bounds_held_n, bound_types_n, fitted_n, named_fitted_n, names_free_n, names_known_n,
    traits_held_n, type_args_recorded, unify_reported_n,
};
use crate::check_call::{counted, fields_fitted_n, payload_fitted_n};
use crate::check_expr::{bound_fields_n, jumps_rejected_n, params_defined_n, pattern_defined, resolved_params_n};
use crate::check_method::{decoded, encoded, type_args_given};
use crate::check_stmt::{annotated, declared, destructured_n};
use crate::check_types::{clash, compatible, resolved, resolved_n, UnifyErrorV};
use crate::defer::{defer_errors_n, defers_placed, nested_defers_n, placement_errors_n};
use crate::env::{in_scope, EnvV};
use crate::info::{FieldInfoV, FunctionInfoV};
use crate::pin::{filled, only_refined, pinned};
use crate::pin_laws::law_pinning_only_refines;
use crate::privacy::{json_private, json_private_from, nameable};
use crate::span::Span;
use crate::state::StateV;
use crate::steady::{
    grown, grown_define, grown_refl, grown_trans, kept, kept_is_grown, lemma_kept_annotation,
    lemma_kept_decode, lemma_kept_encode, lemma_kept_files, lemma_kept_type_args, steps,
};
use crate::table::{find, holds};
use crate::text::Chars;
use crate::types::{all_settled, show, Bindings, Ty};
use vstd::prelude::*;

verus! {

broadcast use crate::steady::steps;

// ── Type expressions ─────────────────────────────────────────────────

pub proof fn kept_resolved(env: EnvV, st: StateV, te: TypeExpr)
    ensures
        kept(st, resolved(env, st, te).0),
        resolved(env, st, te).0.call_type_args == st.call_type_args,
    decreases te, 1int,
{
    match te {
        TypeExpr::Named(_) => {},
        TypeExpr::Function(x) => {
            let s0 = st.files(false, false);
            let n = x.param_types@.len() as int;
            let s1 = resolved_n(env, s0, x.param_types@, n).0;
            kept_resolved_n(env, s0, x.param_types@, n);
            kept_resolved(env, s1, x.return_type);
            lemma_kept_files(st, resolved(env, s1, x.return_type).0, false, false);
        },
        TypeExpr::Generic(x) => {
            let field = st.file_field_allowed && x.name@ == "Option"@;
            let s0 = st.files(field, false);
            let n = x.type_args@.len() as int;
            kept_resolved_n(env, s0, x.type_args@, n);
            lemma_kept_files(st, resolved_n(env, s0, x.type_args@, n).0, field, false);
        },
        TypeExpr::Dyn(_) => {},
    }
}

pub proof fn kept_resolved_n(env: EnvV, st: StateV, tes: Seq<TypeExpr>, n: int)
    ensures
        kept(st, resolved_n(env, st, tes, n).0),
        resolved_n(env, st, tes, n).0.call_type_args == st.call_type_args,
    decreases tes, n,
{
    if 0 < n <= tes.len() {
        kept_resolved_n(env, st, tes, n - 1);
        kept_resolved(env, resolved_n(env, st, tes, n - 1).0, tes[n - 1]);
    }
}

pub proof fn kept_resolved_params_n(env: EnvV, st: StateV, ps: Seq<Param>, n: int)
    ensures
        kept(st, resolved_params_n(env, st, ps, n).0),
        resolved_params_n(env, st, ps, n).0.call_type_args == st.call_type_args,
    decreases n,
{
    if 0 < n <= ps.len() {
        kept_resolved_params_n(env, st, ps, n - 1);
        kept_resolved(env, resolved_params_n(env, st, ps, n - 1).0, ps[n - 1].type_annotation);
    }
}

// ── Pinning ──────────────────────────────────────────────────────────

pub proof fn kept_pinned(env: EnvV, st: StateV, e: Expr, declared: Ty)
    ensures
        kept(st, pinned(env, st, e, declared)),
{
    let r = pinned(env, st, e, declared);
    law_pinning_only_refines(env, st, e, declared);
    reveal(only_refined);
    reveal(kept);
    assert forall|k: Span| #[trigger] holds(st.expr_types, k) implies holds(r.expr_types, k) by {
        assert(filled(find(st.expr_types, k), find(r.expr_types, k)));
    }
}

// ── Calls ────────────────────────────────────────────────────────────

pub(crate) proof fn kept_names_known_n(
    st: StateV,
    fname: Chars,
    names: Seq<Chars>,
    named_args: Seq<(String, Expr)>,
    n: int,
)
    ensures
        kept(st, names_known_n(st, fname, names, named_args, n)),
    decreases n,
{
    if 0 < n <= named_args.len() {
        kept_names_known_n(st, fname, names, named_args, n - 1);
    }
}

pub(crate) proof fn kept_names_free_n(
    st: StateV,
    names: Seq<Chars>,
    named_args: Seq<(String, Expr)>,
    positional: nat,
    n: int,
)
    ensures
        kept(st, names_free_n(st, names, named_args, positional, n)),
    decreases n,
{
    if 0 < n <= named_args.len() {
        kept_names_free_n(st, names, named_args, positional, n - 1);
    }
}

pub proof fn kept_counted(st: StateV, fname: Chars, f: FunctionInfoV, args: Arguments, span: Span)
    ensures
        kept(st, counted(st, fname, f, args, span).0),
{
    let named_args = args.named@;
    let n = named_args.len() as int;
    kept_names_known_n(st, fname, f.param_names, named_args, n);
    kept_names_free_n(
        names_known_n(st, fname, f.param_names, named_args, n),
        f.param_names,
        named_args,
        args.positional@.len(),
        n,
    );
}

pub proof fn kept_fitted_n(
    env: EnvV,
    st: StateV,
    args: Seq<Expr>,
    fname: Chars,
    params: Seq<Ty>,
    b: Bindings,
    ts: Seq<Ty>,
    n: int,
)
    ensures
        kept(st, fitted_n(env, st, args, fname, params, b, ts, n)),
    decreases n,
{
    if 0 < n <= args.len() {
        kept_fitted_n(env, st, args, fname, params, b, ts, n - 1);
        let s = fitted_n(env, st, args, fname, params, b, ts, n - 1);
        kept_pinned_any(env, args[n - 1]);
    }
}

/// Pinning keeps what an expression keeps, whatever the state and the type.
pub proof fn kept_pinned_any(env: EnvV, e: Expr)
    ensures
        forall|s: StateV, t: Ty| kept(s, #[trigger] pinned(env, s, e, t)),
{
    assert forall|s: StateV, t: Ty| kept(s, #[trigger] pinned(env, s, e, t)) by {
        kept_pinned(env, s, e, t);
    }
}

pub proof fn kept_named_fitted_n(
    env: EnvV,
    st: StateV,
    named_args: Seq<(String, Expr)>,
    fname: Chars,
    names: Seq<Chars>,
    params: Seq<Ty>,
    b: Bindings,
    ts: Seq<Ty>,
    n: int,
)
    ensures
        kept(st, named_fitted_n(env, st, named_args, fname, names, params, b, ts, n)),
    decreases n,
{
    if 0 < n <= named_args.len() {
        kept_named_fitted_n(env, st, named_args, fname, names, params, b, ts, n - 1);
        kept_pinned_any(env, named_args[n - 1].1);
    }
}

pub(crate) proof fn kept_traits_held_n(
    env: EnvV,
    st: StateV,
    concrete: Chars,
    traits: Seq<Chars>,
    span: Span,
    n: int,
)
    ensures
        kept(st, traits_held_n(env, st, concrete, traits, span, n)),
    decreases n,
{
    if 0 < n <= traits.len() {
        kept_traits_held_n(env, st, concrete, traits, span, n - 1);
    }
}

pub proof fn kept_bounds_held_n(
    env: EnvV,
    st: StateV,
    bounds: Seq<(Chars, Seq<Chars>)>,
    b: Bindings,
    span: Span,
    n: int,
)
    ensures
        kept(st, bounds_held_n(env, st, bounds, b, span, n)),
    decreases n,
{
    if 0 < n <= bounds.len() {
        kept_bounds_held_n(env, st, bounds, b, span, n - 1);
        let s = bounds_held_n(env, st, bounds, b, span, n - 1);
        if let Some(t) = crate::table::find(b, bounds[n - 1].0) {
            kept_traits_held_n(
                env,
                s,
                crate::check_types::bound_name(t),
                bounds[n - 1].1,
                span,
                bounds[n - 1].1.len() as int,
            );
        }
    }
}

pub(crate) proof fn kept_unify_reported_n(
    st: StateV,
    callee: Chars,
    errors: Seq<(usize, UnifyErrorV)>,
    span: Span,
    n: int,
)
    ensures
        kept(st, unify_reported_n(st, callee, errors, span, n)),
    decreases n,
{
    if 0 < n <= errors.len() {
        kept_unify_reported_n(st, callee, errors, span, n - 1);
    }
}

pub proof fn kept_type_args_recorded(
    st: StateV,
    callee: Chars,
    params: Seq<Chars>,
    b: Bindings,
    errors: Seq<(usize, UnifyErrorV)>,
    ts: Seq<Ty>,
    span: Span,
)
    ensures
        kept(st, type_args_recorded(st, callee, params, b, errors, ts, span)),
{
    kept_unify_reported_n(st, callee, errors, span, errors.len() as int);
    let s = unify_reported_n(st, callee, errors, span, errors.len() as int);
    let ordered = bound_types_n(params, b, params.len() as int);
    if all_settled(ordered, s.type_params) {
        lemma_kept_type_args(s, span, ordered);
    }
}

pub proof fn kept_fields_fitted_n(
    env: EnvV,
    st: StateV,
    args: Seq<Expr>,
    fs: Seq<FieldInfoV>,
    b: Bindings,
    ts: Seq<Ty>,
    n: int,
)
    ensures
        kept(st, fields_fitted_n(env, st, args, fs, b, ts, n)),
    decreases n,
{
    if 0 < n <= args.len() && n <= fs.len() {
        kept_fields_fitted_n(env, st, args, fs, b, ts, n - 1);
        kept_pinned_any(env, args[n - 1]);
    }
}

pub proof fn kept_payload_fitted_n(
    env: EnvV,
    st: StateV,
    args: Seq<Expr>,
    name: Chars,
    fields: Seq<Ty>,
    b: Bindings,
    ts: Seq<Ty>,
    n: int,
)
    ensures
        kept(st, payload_fitted_n(env, st, args, name, fields, b, ts, n)),
    decreases n,
{
    if 0 < n <= args.len() && n <= fields.len() {
        kept_payload_fitted_n(env, st, args, name, fields, b, ts, n - 1);
        kept_pinned_any(env, args[n - 1]);
    }
}

// ── Methods ──────────────────────────────────────────────────────────

pub(crate) proof fn kept_callback_params_n(
    env: EnvV,
    st: StateV,
    method: Chars,
    expected: Seq<Ty>,
    actual: Seq<Ty>,
    span: Span,
    n: int,
)
    ensures
        kept(st, callback_params_n(env, st, method, expected, actual, span, n)),
    decreases n,
{
    if 0 < n <= expected.len() && n <= actual.len() {
        kept_callback_params_n(env, st, method, expected, actual, span, n - 1);
    }
}

pub proof fn kept_callback_fits(
    env: EnvV,
    st: StateV,
    method: Chars,
    expected: Seq<Ty>,
    expected_ret: Option<Ty>,
    params: Seq<Ty>,
    ret: Ty,
    span: Span,
)
    ensures
        kept(st, callback_fits(env, st, method, expected, expected_ret, params, ret, span)),
{
    kept_callback_params_n(env, st, method, expected, params, span, expected.len() as int);
}

pub proof fn kept_type_args_given(
    env: EnvV,
    st: StateV,
    x: crate::ast::MethodCallExpr,
    params: Seq<Chars>,
    owner: Chars,
    b: Bindings,
)
    ensures
        kept(st, type_args_given(env, st, x, params, owner, b).0),
{
    if x.type_args@.len() == params.len() {
        let n = x.type_args@.len() as int;
        let (s, ts) = resolved_n(env, st, x.type_args@, n);
        kept_resolved_n(env, st, x.type_args@, n);
        if all_settled(ts, s.type_params) {
            lemma_kept_type_args(s, x.span, ts);
        }
    }
}

pub(crate) proof fn kept_json_private(
    env: EnvV,
    st: StateV,
    op: Chars,
    t: Ty,
    span: Span,
    visiting: Seq<Chars>,
)
    ensures
        kept(st, json_private(env, st, op, t, span, visiting).0),
    decreases nameable(env) - visiting.len(), t, 1int,
{
    match t {
        Ty::Generic(_, args) => {
            kept_json_private_from(env, st, op, args, span, visiting, 0);
        },
        Ty::Named(n) => {
            if !visiting.contains(n) && visiting.len() < nameable(env) {
                match crate::env::named(env, env.structs, n) {
                    Some(info) => {
                        kept_json_private_from(
                            env,
                            st,
                            op,
                            crate::pin::field_types(info.fields),
                            span,
                            visiting.push(n),
                            0,
                        );
                    },
                    None => {
                        match crate::env::named(env, env.enums, n) {
                            Some(info) => {
                                kept_json_private_from(
                                    env,
                                    st,
                                    op,
                                    crate::privacy::payloads(info.variants),
                                    span,
                                    visiting.push(n),
                                    0,
                                );
                            },
                            None => {},
                        }
                    },
                }
            }
        },
        _ => {},
    }
}

pub(crate) proof fn kept_json_private_from(
    env: EnvV,
    st: StateV,
    op: Chars,
    ts: Seq<Ty>,
    span: Span,
    visiting: Seq<Chars>,
    i: int,
)
    ensures
        kept(st, json_private_from(env, st, op, ts, span, visiting, i).0),
    decreases nameable(env) - visiting.len(), ts, ts.len() - i,
{
    if 0 <= i < ts.len() {
        kept_json_private(env, st, op, ts[i], span, visiting);
        let s1 = json_private(env, st, op, ts[i], span, visiting).0;
        kept_json_private_from(env, s1, op, ts, span, visiting, i + 1);
    }
}

pub proof fn kept_encoded(env: EnvV, st: StateV, x: crate::ast::MethodCallExpr, t: Ty)
    ensures
        kept(st, encoded(env, st, x, t)),
{
    let span = crate::ast::expr_span(x.args.positional@[0]);
    kept_json_private(env, st, "json.encode"@, t, span, Seq::empty());
    let s = json_private(env, st, "json.encode"@, t, span, Seq::empty()).0;
    if t != Ty::Error {
        lemma_kept_encode(s, x.span, t);
    }
}

pub proof fn kept_decoded(env: EnvV, st: StateV, x: crate::ast::MethodCallExpr, well: bool)
    ensures
        kept(st, decoded(env, st, x, well).0),
{
    if x.type_args@.len() > 0 {
        let s0 = st.error_if(
            x.type_args@.len() > 1,
            "json.decode takes a single type argument"@,
            x.span,
        );
        let (s, t) = resolved(env, s0, x.type_args@[0]);
        kept_resolved(env, s0, x.type_args@[0]);
        if t != Ty::Error {
            kept_json_private(env, s, "json.decode"@, t, x.span, Seq::empty());
            let s1 = json_private(env, s, "json.decode"@, t, x.span, Seq::empty()).0;
            lemma_kept_decode(s1, x.span, t);
        }
    }
}

// ── Bodies ───────────────────────────────────────────────────────────

pub proof fn kept_jumps_rejected_n(st: StateV, ss: Seq<Statement>, n: int)
    ensures
        kept(st, jumps_rejected_n(st, ss, n)),
    decreases n,
{
    if 0 < n <= ss.len() {
        kept_jumps_rejected_n(st, ss, n - 1);
    }
}

pub(crate) proof fn kept_defer_errors_n(st: StateV, ss: Seq<Statement>, n: int)
    ensures
        kept(st, defer_errors_n(st, ss, n)),
    decreases n,
{
    if n > 0 {
        kept_defer_errors_n(st, ss, n - 1);
    }
}

pub(crate) proof fn kept_placement_errors_n(st: StateV, spans: Seq<Span>, n: int)
    ensures
        kept(st, placement_errors_n(st, spans, n)),
    decreases n,
{
    if n > 0 {
        kept_placement_errors_n(st, spans, n - 1);
    }
}

pub proof fn kept_defers_placed(st: StateV, b: Block)
    ensures
        kept(st, defers_placed(st, b)),
{
    let n = b.statements@.len() as int;
    let nested = nested_defers_n(b.statements@, n);
    kept_defer_errors_n(st, b.statements@, n);
    kept_placement_errors_n(
        defer_errors_n(st, b.statements@, n),
        nested,
        nested.len() as int,
    );
}

// ── New variables ────────────────────────────────────────────────────

pub(crate) proof fn grown_bound_fields_n(
    st: StateV,
    names: Seq<Chars>,
    ts: Seq<Ty>,
    b: Bindings,
    span: Span,
    n: int,
)
    ensures
        grown(st, bound_fields_n(st, names, ts, b, span, n)),
    decreases n,
{
    broadcast use {grown_refl, grown_trans, grown_define};

    if 0 < n <= names.len() {
        grown_bound_fields_n(st, names, ts, b, span, n - 1);
    }
}

pub proof fn grown_pattern_defined(
    env: EnvV,
    st: StateV,
    arm: MatchArm,
    subject: Ty,
    base: Option<Chars>,
    b: Bindings,
)
    ensures
        grown(st, pattern_defined(env, st, arm, subject, base, b)),
{
    broadcast use {grown_refl, grown_trans, grown_define, kept_is_grown};

    if let crate::ast::Pattern::Variant(v) = arm.pattern {
        let names = v.bindings.deep_view();
        assert forall|s: StateV, ts: Seq<Ty>, n: int| grown(
            s,
            #[trigger] bound_fields_n(s, names, ts, b, arm.span, n),
        ) by {
            grown_bound_fields_n(s, names, ts, b, arm.span, n);
        }
    }
}

pub proof fn grown_params_defined_n(st: StateV, ps: Seq<Param>, ts: Seq<Ty>, n: int)
    ensures
        grown(st, params_defined_n(st, ps, ts, n)),
    decreases n,
{
    broadcast use {grown_refl, grown_trans, grown_define};

    if 0 < n <= ps.len() && n <= ts.len() {
        grown_params_defined_n(st, ps, ts, n - 1);
    }
}

pub(crate) proof fn grown_destructured_n(
    st: StateV,
    fields: Seq<FieldInfoV>,
    names: Seq<Chars>,
    owner: Chars,
    is_mut: bool,
    span: Span,
    n: int,
)
    ensures
        grown(st, destructured_n(st, fields, names, owner, is_mut, span, n)),
    decreases n,
{
    broadcast use {grown_refl, grown_trans, grown_define, kept_is_grown};

    if 0 < n <= names.len() {
        grown_destructured_n(st, fields, names, owner, is_mut, span, n - 1);
    }
}

pub(crate) proof fn kept_annotated(env: EnvV, st: StateV, x: VarDecl, name: Chars, t: Ty, init: Ty)
    ensures
        kept(st, annotated(env, st, x, name, t, init)),
{
    kept_pinned_any(env, x.initializer);
    let s1 = st.error_if(
        clash(env, st, t, init),
        "type mismatch: variable `"@ + name + "` declared as `"@ + show(t)
            + "` but initialized with `"@ + show(init) + "`"@,
        x.span,
    );
    if t != Ty::Error {
        lemma_kept_annotation(s1, x.span, t);
    }
}

pub proof fn grown_declared(env: EnvV, st: StateV, x: VarDecl, init: Ty)
    ensures
        grown(st, declared(env, st, x, init)),
{
    broadcast use {grown_refl, grown_trans, grown_define, kept_is_grown};

    match x.target {
        VarDeclTarget::Simple(name) => {
            if let Some(te) = x.type_annotation {
                let (s1, t) = resolved(env, st, te);
                kept_resolved(env, st, te);
                kept_annotated(env, s1, x, name@, t, init);
            }
        },
        VarDeclTarget::StructDestructure { struct_name, field_names } => {
            if let Some(info) = in_scope(env, env.structs, struct_name@) {
                let s = st.error_if(
                    init != Ty::Error && !compatible(
                        env,
                        st.bounds,
                        Ty::Named(crate::env::canonical(env, struct_name@)),
                        init,
                    ),
                    "type mismatch: destructuring expects `"@ + struct_name@ + "` but got `"@
                        + show(init) + "`"@,
                    x.span,
                );
                grown_destructured_n(
                    s,
                    info.fields,
                    field_names.deep_view(),
                    struct_name@,
                    x.is_mut,
                    x.span,
                    field_names@.len() as int,
                );
            }
        },
    }
}

} // verus!
