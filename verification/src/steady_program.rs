//! What checking declarations and whole programs keeps.
use crate::annotations::{annotations_checked, annotations_checked_n, AnnotationTarget};
use crate::ast::{
    Annotation, Declaration, DerivedType, EndpointDecl, EndpointErrorVariant, EnumVariant,
    FieldDecl, FunctionDecl, HeaderParam, ImportItem, ImportItems, InlineTraitImpl, Param,
    QueryParam, ResponseStatus, TraitMethodDecl, TypeExpr, TypeModifier,
};
use crate::bodies::{
    body_checked, defaults_checked_n, inline_impls_checked_n, inline_methods_checked,
    methods_checked, methods_checked_n, result_checked, type_params_of,
};
use crate::check_expr::{own_type, params_defined_n, resolved_params_n, sem_expr};
use crate::check_stmt::sem_block_n;
use crate::check_types::resolved;
use crate::checker::{
    decl_checked, decls_checked_n, file_checked, file_named, file_registered, imports_rejected_n,
    in_module, initial_checker, mains_rejected_n, module_decls_checked_n,
    module_decls_registered_n, module_mains_rejected_n, modules_checked, modules_named,
    modules_registered, modules_scoped, prepared, CheckerV,
};
use crate::defer::defers_placed;
use crate::endpoint::{
    bare_response, base_name, body_fields_n, derived, endpoint_checked, errors_checked_n,
    fields_exist_n, form_checked_n, full_path, headers_n, identity_checked, inputs_distinct_n,
    modified_n, outputs_distinct_n, queries_n, relaxed_n, resolved_response, response_checked,
    status_code_checked, status_type, statuses_n, wires_distinct_n, wrapped_once,
};
use crate::env::{canonical, in_scope, EnvV};
use crate::impls::{
    impl_obstacle, impl_registered, inline_impls_registered_n, inline_orphans_filed_n,
    inline_registered, method_named_from, methods_added, methods_added_n, methods_built_n,
    opened, orphan_filed, orphans_filed, orphans_filed_n, params_compared_n, trait_added,
    trait_method_checked, trait_methods_checked_n, type_orphans_filed,
};
use crate::info::{
    DerivedFieldV, EndpointInfoV, EnumInfoV, HeaderParamInfoV, MethodInfoV, StructInfoV,
    SymbolKindV, TraitInfoV, TraitMethodInfoV,
};
use crate::paths::qualified;
use crate::register::{
    alias_registered, constraint_checked, decl_registered, decls_registered_n, declares_file,
    enum_registered, field_registered, fields_registered_n, function_registered, redefinition,
    reserved_message, struct_registered, trait_methods_resolved_n, variants_registered_n,
};
use crate::routes::path_params;
use crate::scoped_params::{
    bodies_params_n, body_params, field_params, file_params, impls_params_n, lemma_body_params_n,
    lemma_fields_within, lemma_impl_params_n, lemma_inline_params, lemma_method_params_n,
    lemma_module_fields_within, lemma_module_params_n, lemma_within_both, lemma_within_parts,
    methods_params_n, modules_params, modules_params_n,
};
use crate::scopes::{
    imports_n, items_imported_n, module_from, module_imports_n, scopes_built_n,
    ResolvedSourceModule,
};
use crate::signature::{
    method_resolved, non_self, resolved_return, signature_resolved,
};
use crate::span::{FuncId, Span};
use crate::state::{fixed, initial_state, StateV};
use crate::steady::{
    args_settled, clean, grown, grown_define, grown_refl, grown_trans, kept, kept_forget,
    kept_is_grown, kept_scope, lasting, lemma_function_lasts, lemma_kept_files,
    lemma_kept_in_constraint, lemma_kept_lasts, lemma_kept_type_params, lemma_type_params_last,
    steps, within,
};
use crate::steady_bodies::{
    law_expression_keeps, law_second_look_adds_nothing, law_statements_keep,
};
use crate::steady_parts::{
    grown_params_defined_n, kept_defers_placed, kept_resolved, kept_resolved_n,
    kept_resolved_params_n,
};
use crate::table::{find, put};
use crate::text::{decimal, Chars};
use crate::types::Ty;
use vstd::prelude::*;

verus! {

broadcast use {crate::steady::steps, crate::steady::lasting_refl, crate::steady::lasting_trans};

// ── Bodies of functions ──────────────────────────────────────────────

pub(crate) proof fn kept_defaults_checked_n(env: EnvV, st: StateV, ps: Seq<Param>, ts: Seq<Ty>, n: int)
    ensures
        kept(st, defaults_checked_n(env, st, ps, ts, n)),
    decreases n,
{
    if 0 < n <= ps.len() && n <= ts.len() {
        kept_defaults_checked_n(env, st, ps, ts, n - 1);
        let s = defaults_checked_n(env, st, ps, ts, n - 1);
        if let Some(e) = ps[n - 1].default_value {
            law_expression_keeps(env, s, e);
        }
    }
}

pub(crate) proof fn kept_result_checked(env: EnvV, st: StateV, f: FunctionDecl, ret: Ty)
    ensures
        kept(st, result_checked(env, st, f, ret)),
{
    let ss = f.body.statements@;
    if ss.len() > 0 && ss.last() is Expression {
        law_second_look_adds_nothing(env, st, ss.last()->Expression_0.expr);
    }
}

pub(crate) proof fn kept_resolved_return(env: EnvV, st: StateV, te: Option<TypeExpr>)
    ensures
        kept(st, resolved_return(env, st, te).0),
        resolved_return(env, st, te).0.call_type_args == st.call_type_args,
{
    if let Some(te) = te {
        kept_resolved(env, st, te);
    }
}

/// The statements of a body, in a scope of their own.
pub(crate) proof fn kept_body_block(
    env: EnvV,
    st: StateV,
    f: FunctionDecl,
    ts: Seq<Ty>,
    ret: Ty,
    receiver: Option<Ty>,
)
    ensures
        ({
            let ps = non_self(f.params@);
            let s5 = match receiver {
                Some(t) => st.enter().define("self"@, fixed(t, f.span)),
                None => st.enter(),
            };
            let s6 = sem_block_n(
                env,
                params_defined_n(s5, ps, ts, ps.len() as int),
                f.body.statements@,
                f.body.statements@.len() as int,
            );
            kept(st, result_checked(env, s6, f, ret).leave())
        }),
{
    broadcast use {grown_refl, grown_define, kept_scope};

    let ps = non_self(f.params@);
    let n = ps.len() as int;
    let m = f.body.statements@.len() as int;
    let s4 = st.enter();
    let s5 = match receiver {
        Some(t) => s4.define("self"@, fixed(t, f.span)),
        None => s4,
    };
    let s51 = params_defined_n(s5, ps, ts, n);
    grown_params_defined_n(s5, ps, ts, n);
    let s6 = sem_block_n(env, s51, f.body.statements@, m);
    law_statements_keep(env, s51, f.body.statements@, m);
    kept_result_checked(env, s6, f, ret);
    let s61 = result_checked(env, s6, f, ret);
    kept_is_grown(s6, s61);
    assert(grown(s4, s5));
    grown_trans(s4, s5, s51);
    grown_trans(s4, s51, s6);
    grown_trans(s4, s6, s61);
}

/// Checking the body of a function leaves everything around it as it was.
pub proof fn law_body_keeps(
    all: Seq<Chars>,
    env: EnvV,
    st: StateV,
    f: FunctionDecl,
    type_params: Seq<Chars>,
    receiver: Option<Ty>,
)
    requires
        st.return_type is None,
        within(type_params, all),
    ensures
        lasting(all, st, body_checked(env, st, f, type_params, receiver)),
{
    let bounds = f.type_param_bounds.deep_view();
    let s0 = StateV { type_params, bounds, ..st };
    let (s1, ret) = resolved_return(env, s0, f.return_type);
    kept_resolved_return(env, s0, f.return_type);
    let ps = non_self(f.params@);
    let n = ps.len() as int;
    let s1r = StateV { return_type: Some(ret), ..s1 };
    let (s2, ts) = resolved_params_n(env, s1r, ps, n);
    kept_resolved_params_n(env, s1r, ps, n);
    kept_defaults_checked_n(env, s2.enter(), ps, ts, n);
    let s21 = defaults_checked_n(env, s2.enter(), ps, ts, n);
    kept_is_grown(s2.enter(), s21);
    kept_scope(s2, s21);
    let s3 = s21.leave();
    kept_defers_placed(s3, f.body);
    let s31 = defers_placed(s3, f.body);
    kept_body_block(env, s31, f, ts, ret, receiver);
    let s5 = match receiver {
        Some(t) => s31.enter().define("self"@, fixed(t, f.span)),
        None => s31.enter(),
    };
    let s6 = sem_block_n(
        env,
        params_defined_n(s5, ps, ts, n),
        f.body.statements@,
        f.body.statements@.len() as int,
    );
    let s7 = result_checked(env, s6, f, ret).leave();
    assert(kept(s1r, s7));
    lemma_function_around(all, st, s1, s7, type_params, bounds, Some(ret));
}

/// The result type is known only after a first step.
proof fn lemma_function_around(
    all: Seq<Chars>,
    st: StateV,
    s1: StateV,
    s7: StateV,
    type_params: Seq<Chars>,
    bounds: Seq<(Chars, Seq<Chars>)>,
    ret: Option<Ty>,
)
    requires
        st.return_type is None,
        within(type_params, all),
        kept(StateV { type_params, bounds, ..st }, s1),
        kept(StateV { return_type: ret, ..s1 }, s7),
    ensures
        lasting(
            all,
            st,
            StateV { return_type: None, type_params: st.type_params, bounds: st.bounds, ..s7 },
        ),
{
    let s0 = StateV { type_params, bounds, ..st };
    crate::steady::lemma_kept_return_type(s1, s7, ret);
    let back = StateV { return_type: s1.return_type, ..s7 };
    assert(kept(s0, back));
    assert(s0 == (StateV { type_params, bounds, return_type: None, ..st }));
    lemma_function_lasts(all, st, back, type_params, bounds, None);
}

/// Checking the methods of a type keeps the same, and so on below.
pub(crate) proof fn lasts_methods_checked_n(
    all: Seq<Chars>,
    env: EnvV,
    st: StateV,
    for_type: Chars,
    ms: Seq<FunctionDecl>,
    n: int,
)
    requires
        st.return_type is None,
        within(type_params_of(env, for_type), all),
        within(methods_params_n(ms, ms.len() as int), all),
    ensures
        lasting(all, st, methods_checked_n(env, st, for_type, ms, n)),
    decreases n,
{
    if 0 < n <= ms.len() {
        lasts_methods_checked_n(all, env, st, for_type, ms, n - 1);
        let s = methods_checked_n(env, st, for_type, ms, n - 1);
        lemma_top_lasts(all, st, s);
        let parent = type_params_of(env, for_type);
        let own = ms[n - 1].type_params.deep_view();
        lemma_method_params_n(all, ms, ms.len() as int, n - 1);
        lemma_within_both(parent, own, all);
        law_body_keeps(
            all,
            env,
            s,
            ms[n - 1],
            parent + own,
            Some(own_type(canonical(env, for_type), parent)),
        );
    }
}

/// What lasts beside the type arguments.
pub proof fn lemma_top_lasts(all: Seq<Chars>, a: StateV, b: StateV)
    requires
        lasting(all, a, b),
    ensures
        a.return_type == b.return_type,
        a.scopes == b.scopes,
        a.type_params == b.type_params,
        a.diagnostics.is_prefix_of(b.diagnostics),
{
    reveal(lasting);
}

pub proof fn lemma_surroundings(a: StateV, b: StateV)
    requires
        kept(a, b),
    ensures
        a.return_type == b.return_type,
        a.scopes == b.scopes,
        a.file_field_allowed == b.file_field_allowed,
        a.file_bearing_struct_allowed == b.file_bearing_struct_allowed,
        a.type_params == b.type_params,
        a.in_constraint == b.in_constraint,
{
    reveal(kept);
}

pub(crate) proof fn lasts_inline_impls_checked_n(
    all: Seq<Chars>,
    env: EnvV,
    st: StateV,
    for_type: Chars,
    impls: Seq<InlineTraitImpl>,
    n: int,
)
    requires
        st.return_type is None,
        within(type_params_of(env, for_type), all),
        within(impls_params_n(impls, impls.len() as int), all),
    ensures
        lasting(all, st, inline_impls_checked_n(env, st, for_type, impls, n)),
    decreases n,
{
    if 0 < n <= impls.len() {
        lasts_inline_impls_checked_n(all, env, st, for_type, impls, n - 1);
        let s = inline_impls_checked_n(env, st, for_type, impls, n - 1);
        lemma_top_lasts(all, st, s);
        let ms = impls[n - 1].methods@;
        lemma_impl_params_n(all, impls, impls.len() as int, n - 1);
        lasts_methods_checked_n(all, env, s, for_type, ms, ms.len() as int);
    }
}

pub(crate) proof fn lasts_inline_methods_checked(
    all: Seq<Chars>,
    env: EnvV,
    st: StateV,
    for_type: Chars,
    ms: Seq<FunctionDecl>,
    impls: Seq<InlineTraitImpl>,
)
    requires
        st.return_type is None,
        within(type_params_of(env, for_type), all),
        within(methods_params_n(ms, ms.len() as int), all),
        within(impls_params_n(impls, impls.len() as int), all),
    ensures
        lasting(all, st, inline_methods_checked(env, st, for_type, ms, impls)),
{
    lasts_methods_checked_n(all, env, st, for_type, ms, ms.len() as int);
    let s = methods_checked(env, st, for_type, ms);
    lemma_top_lasts(all, st, s);
    lasts_inline_impls_checked_n(all, env, s, for_type, impls, impls.len() as int);
}

// ── Signatures ───────────────────────────────────────────────────────

pub(crate) proof fn kept_signature_resolved(
    env: EnvV,
    st: StateV,
    type_params: Seq<Chars>,
    params: Seq<Param>,
    ret: Option<TypeExpr>,
)
    ensures
        kept(st, signature_resolved(env, st, type_params, params, ret).0),
{
    let ps = non_self(params);
    let n = ps.len() as int;
    let s0 = StateV { type_params, ..st };
    kept_resolved_params_n(env, s0, ps, n);
    let s1 = resolved_params_n(env, s0, ps, n).0;
    kept_resolved_return(env, s1, ret);
    lemma_kept_type_params(st, resolved_return(env, s1, ret).0, type_params);
}

pub(crate) proof fn kept_method_resolved(
    env: EnvV,
    st: StateV,
    parent: Seq<Chars>,
    f: FunctionDecl,
    id: FuncId,
)
    ensures
        kept(st, method_resolved(env, st, parent, f, id).0),
{
    kept_signature_resolved(
        env,
        st,
        parent + f.type_params.deep_view(),
        f.params@,
        f.return_type,
    );
}

pub(crate) proof fn kept_annotations_checked_n(
    st: StateV,
    anns: Seq<Annotation>,
    target: AnnotationTarget,
    n: int,
)
    ensures
        kept(st, annotations_checked_n(st, anns, target, n)),
    decreases n,
{
    if 0 < n <= anns.len() {
        kept_annotations_checked_n(st, anns, target, n - 1);
    }
}

pub(crate) proof fn kept_annotations_checked(st: StateV, anns: Seq<Annotation>, target: AnnotationTarget)
    ensures
        kept(st, annotations_checked(st, anns, target)),
{
    kept_annotations_checked_n(st, anns, target, anns.len() as int);
}

// ── Methods and traits ───────────────────────────────────────────────

pub(crate) proof fn kept_orphan_filed(
    c: CheckerV,
    key: Chars,
    parent: Seq<Chars>,
    f: FunctionDecl,
    span: Span,
)
    ensures
        kept(c.st, orphan_filed(c, key, parent, f, span).st),
        orphan_filed(c, key, parent, f, span).st.diagnostics == c.st.diagnostics,
{
    broadcast use kept_forget;

    if let Some(id) = find(c.env.pending_user_method_ids, (key, f.name@)) {
        kept_method_resolved(c.env, c.st, parent, f, id);
    }
}

pub(crate) proof fn kept_orphans_filed_n(
    c: CheckerV,
    key: Chars,
    parent: Seq<Chars>,
    ms: Seq<FunctionDecl>,
    span: Span,
    n: int,
)
    ensures
        kept(c.st, orphans_filed_n(c, key, parent, ms, span, n).st),
        orphans_filed_n(c, key, parent, ms, span, n).st.diagnostics == c.st.diagnostics,
    decreases n,
{
    if 0 < n <= ms.len() {
        kept_orphans_filed_n(c, key, parent, ms, span, n - 1);
        kept_orphan_filed(
            orphans_filed_n(c, key, parent, ms, span, n - 1),
            key,
            parent,
            ms[n - 1],
            span,
        );
    }
}

/// Filing the methods of a rejected declaration reports nothing on top.
pub proof fn law_orphans_are_silent(
    c: CheckerV,
    for_type: Chars,
    ms: Seq<FunctionDecl>,
    span: Span,
)
    ensures
        kept(c.st, orphans_filed(c, for_type, ms, span).st),
        orphans_filed(c, for_type, ms, span).st.diagnostics == c.st.diagnostics,
{
    kept_orphans_filed_n(
        c,
        qualified(c.env.current_module, for_type),
        type_params_of(c.env, for_type),
        ms,
        span,
        ms.len() as int,
    );
}

pub(crate) proof fn kept_inline_orphans_filed_n(
    c: CheckerV,
    for_type: Chars,
    impls: Seq<InlineTraitImpl>,
    n: int,
)
    ensures
        kept(c.st, inline_orphans_filed_n(c, for_type, impls, n).st),
    decreases n,
{
    if 0 < n <= impls.len() {
        kept_inline_orphans_filed_n(c, for_type, impls, n - 1);
        law_orphans_are_silent(
            inline_orphans_filed_n(c, for_type, impls, n - 1),
            for_type,
            impls[n - 1].methods@,
            impls[n - 1].span,
        );
    }
}

pub proof fn kept_type_orphans_filed(
    c: CheckerV,
    for_type: Chars,
    ms: Seq<FunctionDecl>,
    impls: Seq<InlineTraitImpl>,
    span: Span,
)
    ensures
        kept(c.st, type_orphans_filed(c, for_type, ms, impls, span).st),
{
    law_orphans_are_silent(c, for_type, ms, span);
    kept_inline_orphans_filed_n(
        orphans_filed(c, for_type, ms, span),
        for_type,
        impls,
        impls.len() as int,
    );
}

pub(crate) proof fn kept_methods_built_n(
    env: EnvV,
    st: StateV,
    key: Chars,
    parent: Seq<Chars>,
    ms: Seq<FunctionDecl>,
    n: int,
)
    ensures
        kept(st, methods_built_n(env, st, key, parent, ms, n).0),
    decreases n,
{
    if 0 < n <= ms.len() {
        kept_methods_built_n(env, st, key, parent, ms, n - 1);
        let s = methods_built_n(env, st, key, parent, ms, n - 1).0;
        if let Some(id) = find(env.pending_user_method_ids, (key, ms[n - 1].name@)) {
            kept_method_resolved(env, s, parent, ms[n - 1], id);
        }
    }
}

pub(crate) proof fn kept_methods_added_n(
    c: CheckerV,
    key: Chars,
    for_type: Chars,
    infos: Seq<(Chars, MethodInfoV)>,
    n: int,
)
    ensures
        kept(c.st, methods_added_n(c, key, for_type, infos, n).st),
    decreases n,
{
    if 0 < n <= infos.len() {
        kept_methods_added_n(c, key, for_type, infos, n - 1);
    }
}

pub(crate) proof fn kept_methods_added(c: CheckerV, for_type: Chars, ms: Seq<FunctionDecl>)
    ensures
        kept(c.st, methods_added(c, for_type, ms).st),
{
    let key = qualified(c.env.current_module, for_type);
    let parent = type_params_of(c.env, for_type);
    let n = ms.len() as int;
    kept_methods_built_n(c.env, c.st, key, parent, ms, n);
    let (s, infos) = methods_built_n(c.env, c.st, key, parent, ms, n);
    kept_methods_added_n(
        CheckerV { st: s, env: EnvV { methods: opened(c.env.methods, key), ..c.env }, ..c },
        key,
        for_type,
        infos,
        infos.len() as int,
    );
}

pub(crate) proof fn kept_params_compared_n(
    env: EnvV,
    st: StateV,
    m: TraitMethodInfoV,
    tr: Chars,
    ps: Seq<Param>,
    span: Span,
    n: int,
)
    ensures
        kept(st, params_compared_n(env, st, m, tr, ps, span, n)),
    decreases n,
{
    if 0 < n <= ps.len() && n <= m.params.len() {
        kept_params_compared_n(env, st, m, tr, ps, span, n - 1);
        kept_resolved(
            env,
            params_compared_n(env, st, m, tr, ps, span, n - 1),
            ps[n - 1].type_annotation,
        );
    }
}

pub(crate) proof fn kept_trait_method_checked(
    env: EnvV,
    st: StateV,
    for_type: Chars,
    tr: Chars,
    m: TraitMethodInfoV,
    ms: Seq<FunctionDecl>,
    span: Span,
)
    ensures
        kept(st, trait_method_checked(env, st, for_type, tr, m, ms, span)),
{
    if let Some(f) = method_named_from(ms, m.name, 0) {
        let ps = non_self(f.params@);
        kept_params_compared_n(env, st, m, tr, ps, span, ps.len() as int);
        let s1 = if ps.len() != m.params.len() {
            st.error(
                "method `"@ + m.name + "` has "@ + decimal(ps.len()) + " parameter(s) but trait `"@
                    + tr + "` expects "@ + decimal(m.params.len()),
                span,
            )
        } else {
            params_compared_n(env, st, m, tr, ps, span, ps.len() as int)
        };
        assert(kept(st, s1));
        kept_resolved_return(env, s1, f.return_type);
    }
}

pub(crate) proof fn kept_trait_methods_checked_n(
    env: EnvV,
    st: StateV,
    for_type: Chars,
    tr: Chars,
    tms: Seq<TraitMethodInfoV>,
    ms: Seq<FunctionDecl>,
    span: Span,
    n: int,
)
    ensures
        kept(st, trait_methods_checked_n(env, st, for_type, tr, tms, ms, span, n)),
    decreases n,
{
    if 0 < n <= tms.len() {
        kept_trait_methods_checked_n(env, st, for_type, tr, tms, ms, span, n - 1);
        kept_trait_method_checked(
            env,
            trait_methods_checked_n(env, st, for_type, tr, tms, ms, span, n - 1),
            for_type,
            tr,
            tms[n - 1],
            ms,
            span,
        );
    }
}

pub(crate) proof fn kept_trait_added(
    c: CheckerV,
    for_type: Chars,
    tr: Chars,
    info: TraitInfoV,
    ms: Seq<FunctionDecl>,
    span: Span,
)
    ensures
        kept(c.st, trait_added(c, for_type, tr, info, ms, span).st),
{
    let pair = (qualified(c.env.current_module, for_type), qualified(c.env.current_module, tr));
    let s1 = c.st.error_if(
        c.env.trait_impls.contains(pair),
        "duplicate implementation of trait `"@ + tr + "` for type `"@ + for_type + "`"@,
        span,
    );
    kept_trait_methods_checked_n(
        c.env,
        s1,
        for_type,
        tr,
        info.methods,
        ms,
        span,
        info.methods.len() as int,
    );
}

pub(crate) proof fn kept_impl_registered(
    c: CheckerV,
    for_type: Chars,
    tr: Option<Chars>,
    ms: Seq<FunctionDecl>,
    span: Span,
)
    ensures
        kept(c.st, impl_registered(c, for_type, tr, ms, span).st),
{
    match impl_obstacle(c.env, for_type) {
        Some(reason) => {
            law_orphans_are_silent(c.error(reason, span), for_type, ms, span);
        },
        None => {
            kept_methods_added(c, for_type, ms);
            if let Some(tr) = tr {
                match find(c.env.traits, qualified(c.env.current_module, tr)) {
                    Some(info) => {
                        kept_trait_added(
                            methods_added(c, for_type, ms),
                            for_type,
                            tr,
                            info,
                            ms,
                            span,
                        );
                    },
                    None => {
                        law_orphans_are_silent(
                            c.error("unknown trait `"@ + tr + "`"@, span),
                            for_type,
                            ms,
                            span,
                        );
                    },
                }
            }
        },
    }
}

pub(crate) proof fn kept_inline_impls_registered_n(
    c: CheckerV,
    for_type: Chars,
    impls: Seq<InlineTraitImpl>,
    n: int,
)
    ensures
        kept(c.st, inline_impls_registered_n(c, for_type, impls, n).st),
    decreases n,
{
    if 0 < n <= impls.len() {
        kept_inline_impls_registered_n(c, for_type, impls, n - 1);
        kept_impl_registered(
            inline_impls_registered_n(c, for_type, impls, n - 1),
            for_type,
            Some(impls[n - 1].trait_name@),
            impls[n - 1].methods@,
            impls[n - 1].span,
        );
    }
}

pub(crate) proof fn kept_inline_registered(
    c: CheckerV,
    for_type: Chars,
    ms: Seq<FunctionDecl>,
    impls: Seq<InlineTraitImpl>,
    span: Span,
)
    ensures
        kept(c.st, inline_registered(c, for_type, ms, impls, span).st),
{
    kept_impl_registered(c, for_type, None, ms, span);
    let own = if ms.len() > 0 {
        impl_registered(c, for_type, None, ms, span)
    } else {
        c
    };
    kept_inline_impls_registered_n(own, for_type, impls, impls.len() as int);
}

// ── Declarations ─────────────────────────────────────────────────────

pub(crate) proof fn kept_constraint_checked(env: EnvV, st: StateV, f: FieldDecl, t: Ty)
    ensures
        kept(st, constraint_checked(env, st, f, t)),
{
    broadcast use {grown_trans, grown_define, kept_is_grown, kept_scope};

    if let Some(e) = f.constraint {
        let s1 = st.enter().define("self"@, fixed(t, f.span));
        let inside = StateV { in_constraint: true, ..s1 };
        law_expression_keeps(env, inside, e);
        let s2 = sem_expr(env, inside, e).0;
        lemma_kept_in_constraint(s1, s2, true);
        let s3 = StateV { in_constraint: s1.in_constraint, ..s2 };
        assert(grown(st.enter(), s3));
        assert(kept(st, s3.leave()));
        assert(s1.in_constraint == st.in_constraint);
    }
}

pub(crate) proof fn kept_field_registered(env: EnvV, st: StateV, f: FieldDecl)
    ensures
        kept(st, field_registered(env, st, f).0),
{
    kept_annotations_checked(st, f.annotations@, AnnotationTarget::Field);
    let s1 = annotations_checked(st, f.annotations@, AnnotationTarget::Field);
    let open = s1.files(true, s1.file_bearing_struct_allowed);
    kept_resolved(env, open, f.type_annotation);
    let (s2, t) = resolved(env, open, f.type_annotation);
    lemma_kept_files(s1, s2, true, s1.file_bearing_struct_allowed);
    lemma_surroundings(open, s2);
    let s3 = s2.files(s1.file_field_allowed, s2.file_bearing_struct_allowed);
    assert(kept(s1, s3));
    kept_constraint_checked(env, s3, f, t);
}

pub(crate) proof fn kept_fields_registered_n(env: EnvV, st: StateV, fs: Seq<FieldDecl>, n: int)
    ensures
        kept(st, fields_registered_n(env, st, fs, n).0),
    decreases n,
{
    if 0 < n <= fs.len() {
        kept_fields_registered_n(env, st, fs, n - 1);
        kept_field_registered(env, fields_registered_n(env, st, fs, n - 1).0, fs[n - 1]);
    }
}

pub(crate) proof fn kept_variants_registered_n(env: EnvV, st: StateV, vs: Seq<EnumVariant>, n: int)
    ensures
        kept(st, variants_registered_n(env, st, vs, n).0),
        variants_registered_n(env, st, vs, n).0.call_type_args == st.call_type_args,
    decreases n,
{
    if 0 < n <= vs.len() {
        kept_variants_registered_n(env, st, vs, n - 1);
        let fields = vs[n - 1].fields@;
        kept_resolved_n(
            env,
            variants_registered_n(env, st, vs, n - 1).0,
            fields,
            fields.len() as int,
        );
    }
}

pub(crate) proof fn kept_trait_methods_resolved_n(
    env: EnvV,
    st: StateV,
    own: Seq<Chars>,
    ms: Seq<TraitMethodDecl>,
    n: int,
)
    ensures
        kept(st, trait_methods_resolved_n(env, st, own, ms, n).0),
    decreases n,
{
    if 0 < n <= ms.len() {
        kept_trait_methods_resolved_n(env, st, own, ms, n - 1);
        kept_signature_resolved(
            env,
            trait_methods_resolved_n(env, st, own, ms, n - 1).0,
            own,
            ms[n - 1].params@,
            ms[n - 1].return_type,
        );
    }
}

pub(crate) proof fn kept_function_registered(c: CheckerV, f: FunctionDecl)
    ensures
        kept(c.st, function_registered(c, f).st),
{
    kept_annotations_checked(c.st, f.annotations@, AnnotationTarget::Function);
    kept_signature_resolved(
        c.env,
        annotations_checked(c.st, f.annotations@, AnnotationTarget::Function),
        f.type_params.deep_view(),
        f.params@,
        f.return_type,
    );
}

pub(crate) proof fn lasts_struct_registered(all: Seq<Chars>, c: CheckerV, s: crate::ast::StructDecl)
    requires
        within(c.st.type_params, all),
        within(s.type_params.deep_view(), all),
    ensures
        lasting(all, c.st, struct_registered(c, s).st),
{
    let key = qualified(c.env.current_module, s.name@);
    kept_type_orphans_filed(
        c.error(redefinition("struct"@, s.name@), s.span),
        s.name@,
        s.methods@,
        s.trait_impls@,
        s.span,
    );
    let rejected = type_orphans_filed(
        c.error(redefinition("struct"@, s.name@), s.span),
        s.name@,
        s.methods@,
        s.trait_impls@,
        s.span,
    );
    lemma_kept_lasts(all, c.st, rejected.st);
    lemma_kept_lasts(
        all,
        c.st,
        c.error(reserved_message(s.name@, "a struct name"@), s.span).st,
    );
    let own = s.type_params.deep_view();
    let s1 = annotations_checked(c.st, s.annotations@, AnnotationTarget::Struct);
    kept_annotations_checked(c.st, s.annotations@, AnnotationTarget::Struct);
    let inside = StateV { type_params: own, ..s1 };
    let n = s.fields@.len() as int;
    let (s2, fields) = fields_registered_n(c.env, inside, s.fields@, n);
    kept_fields_registered_n(c.env, inside, s.fields@, n);
    lemma_kept_lasts(all, c.st, s1);
    lemma_type_params_last(all, s1, s2, own);
    let s3 = StateV { type_params: s1.type_params, ..s2 };
    let c1 = CheckerV {
        st: s3.refer(s.name_span, SymbolKindV::Struct, s.name@),
        env: EnvV {
            structs: put(
                c.env.structs,
                key,
                StructInfoV {
                    definition_span: s.name_span,
                    type_params: own,
                    fields,
                    is_file_bearing: declares_file(s.fields@),
                    visibility: s.visibility,
                    def_module: c.env.current_module,
                },
            ),
            ..c.env
        },
        ..c
    };
    lemma_top_lasts(all, s1, s3);
    lemma_top_lasts(all, c.st, s1);
    lemma_kept_lasts(all, s3, c1.st);
    kept_inline_registered(c1, s.name@, s.methods@, s.trait_impls@, s.span);
    lemma_surroundings(s3, c1.st);
    lemma_kept_lasts(
        all,
        c1.st,
        inline_registered(c1, s.name@, s.methods@, s.trait_impls@, s.span).st,
    );
}

pub(crate) proof fn kept_enum_registered(c: CheckerV, e: crate::ast::EnumDecl)
    ensures
        kept(c.st, enum_registered(c, e).st),
{
    let key = qualified(c.env.current_module, e.name@);
    kept_type_orphans_filed(
        c.error(redefinition("enum"@, e.name@), e.span),
        e.name@,
        e.methods@,
        e.trait_impls@,
        e.span,
    );
    let own = e.type_params.deep_view();
    let s1 = annotations_checked(c.st, e.annotations@, AnnotationTarget::Enum);
    kept_annotations_checked(c.st, e.annotations@, AnnotationTarget::Enum);
    let inside = StateV { type_params: own, ..s1 };
    let n = e.variants@.len() as int;
    let (s2, variants) = variants_registered_n(c.env, inside, e.variants@, n);
    kept_variants_registered_n(c.env, inside, e.variants@, n);
    lemma_kept_type_params(s1, s2, own);
    let s3 = StateV { type_params: s1.type_params, ..s2 };
    let c1 = CheckerV {
        st: s3.refer(e.name_span, SymbolKindV::Enum, e.name@),
        env: EnvV {
            enums: put(
                c.env.enums,
                key,
                EnumInfoV {
                    definition_span: e.name_span,
                    type_params: own,
                    variants,
                    visibility: e.visibility,
                    def_module: c.env.current_module,
                },
            ),
            ..c.env
        },
        ..c
    };
    assert(kept(c.st, c1.st));
    kept_inline_registered(c1, e.name@, e.methods@, e.trait_impls@, e.span);
}

pub(crate) proof fn kept_alias_registered(c: CheckerV, ta: crate::ast::TypeAliasDecl)
    ensures
        kept(c.st, alias_registered(c, ta).st),
{
    let own = ta.type_params.deep_view();
    let inside = StateV { type_params: own, ..c.st };
    kept_resolved(c.env, inside, ta.target);
    lemma_kept_type_params(c.st, resolved(c.env, inside, ta.target).0, own);
}

/// Registering a declaration leaves the scopes and the surroundings as they
/// were, and loses nothing that was found or recorded.
pub proof fn law_registration_keeps(all: Seq<Chars>, c: CheckerV, d: Declaration)
    requires
        within(c.st.type_params, all),
        within(field_params(d), all),
    ensures
        lasting(all, c.st, decl_registered(c, d).st),
{
    match d {
        Declaration::Function(f) => {
            kept_function_registered(c, f);
        },
        Declaration::Struct(s) => {
            lasts_struct_registered(all, c, s);
        },
        Declaration::Enum(e) => {
            kept_enum_registered(c, e);
        },
        Declaration::Impl(i) => {
            kept_impl_registered(
                c,
                i.for_type@,
                i.trait_name.deep_view(),
                i.methods@,
                i.span,
            );
        },
        Declaration::Trait(t) => {
            kept_trait_methods_resolved_n(
                c.env,
                c.st,
                t.type_params.deep_view(),
                t.methods@,
                t.methods@.len() as int,
            );
        },
        Declaration::TypeAlias(ta) => {
            kept_alias_registered(c, ta);
        },
        _ => {},
    }
    if !(d is Struct) {
        lemma_kept_lasts(all, c.st, decl_registered(c, d).st);
    }
}

pub proof fn lasts_decls_registered_n(
    all: Seq<Chars>,
    c: CheckerV,
    ds: Seq<Declaration>,
    n: int,
)
    requires
        within(c.st.type_params, all),
        forall|i: int| 0 <= i < ds.len() ==> within(field_params(#[trigger] ds[i]), all),
    ensures
        lasting(all, c.st, decls_registered_n(c, ds, n).st),
    decreases n,
{
    if 0 < n <= ds.len() {
        lasts_decls_registered_n(all, c, ds, n - 1);
        let rest = decls_registered_n(c, ds, n - 1);
        lemma_top_lasts(all, c.st, rest.st);
        law_registration_keeps(all, rest, ds[n - 1]);
    }
}

// ── Endpoints ────────────────────────────────────────────────────────

pub(crate) proof fn kept_resolved_response(env: EnvV, st: StateV, te: TypeExpr)
    ensures
        kept(st, resolved_response(env, st, te).0),
{
    let open = st.files(st.file_field_allowed, true);
    kept_resolved(env, open, te);
    let s = resolved(env, open, te).0;
    lemma_surroundings(open, s);
    lemma_kept_files(st, s, st.file_field_allowed, true);
}

pub(crate) proof fn kept_statuses_n(
    env: EnvV,
    st: StateV,
    owner: Chars,
    rss: Seq<ResponseStatus>,
    n: int,
)
    ensures
        kept(st, statuses_n(env, st, owner, rss, n).0),
    decreases n,
{
    if 0 < n <= rss.len() {
        kept_statuses_n(env, st, owner, rss, n - 1);
        let s1 = statuses_n(env, st, owner, rss, n - 1).0;
        let s2 = status_code_checked(s1, owner, rss, n - 1);
        assert(kept(s1, s2));
        if let Some(te) = rss[n - 1].ty {
            kept_resolved_response(env, s2, te);
            assert(kept(s2, status_type(env, s2, owner, rss[n - 1], te).0));
        }
    }
}

pub(crate) proof fn kept_response_checked(env: EnvV, st: StateV, ep: EndpointDecl)
    ensures
        kept(st, response_checked(env, st, ep).0),
{
    if let Some(te) = ep.response {
        kept_resolved_response(env, st, te);
    }
    let s1 = bare_response(env, st, ep).0;
    assert(kept(st, s1));
    kept_statuses_n(
        env,
        s1,
        ep.name@,
        ep.response_statuses@,
        ep.response_statuses@.len() as int,
    );
}

pub(crate) proof fn kept_fields_exist_n(
    st: StateV,
    owner: Chars,
    base: Chars,
    names: Seq<Chars>,
    fs: Seq<DerivedFieldV>,
    span: Span,
    n: int,
)
    ensures
        kept(st, fields_exist_n(st, owner, base, names, fs, span, n)),
    decreases n,
{
    if 0 < n <= names.len() {
        kept_fields_exist_n(st, owner, base, names, fs, span, n - 1);
    }
}

pub(crate) proof fn kept_relaxed_n(
    st: StateV,
    owner: Chars,
    base: Chars,
    names: Seq<Chars>,
    fs: Seq<DerivedFieldV>,
    span: Span,
    n: int,
)
    ensures
        kept(st, relaxed_n(st, owner, base, names, fs, span, n).0),
    decreases n,
{
    if 0 < n <= names.len() {
        kept_relaxed_n(st, owner, base, names, fs, span, n - 1);
    }
}

pub(crate) proof fn kept_modified_n(
    st: StateV,
    owner: Chars,
    base: Chars,
    ms: Seq<TypeModifier>,
    fs: Seq<DerivedFieldV>,
    n: int,
)
    ensures
        kept(st, modified_n(st, owner, base, ms, fs, n).0),
    decreases n,
{
    if 0 < n <= ms.len() {
        kept_modified_n(st, owner, base, ms, fs, n - 1);
        let (s, rest) = modified_n(st, owner, base, ms, fs, n - 1);
        match ms[n - 1] {
            TypeModifier::Omit { fields, span } => {
                let names = fields.deep_view();
                kept_fields_exist_n(s, owner, base, names, rest, span, names.len() as int);
            },
            TypeModifier::Pick { fields, span } => {
                let names = fields.deep_view();
                kept_fields_exist_n(s, owner, base, names, rest, span, names.len() as int);
            },
            TypeModifier::Partial { fields, span } => {
                if let Some(fields) = fields {
                    let names = fields.deep_view();
                    kept_relaxed_n(s, owner, base, names, rest, span, names.len() as int);
                }
            },
        }
    }
}

pub(crate) proof fn kept_derived(env: EnvV, st: StateV, owner: Chars, dt: DerivedType)
    ensures
        kept(st, derived(env, st, owner, dt).0),
{
    if let Some(base) = base_name(dt.base_type) {
        if let Some(info) = in_scope(env, env.structs, base) {
            kept_modified_n(
                st,
                owner,
                base,
                dt.modifiers@,
                body_fields_n(info.fields, info.fields.len() as int),
                dt.modifiers@.len() as int,
            );
        }
    }
}

pub(crate) proof fn kept_form_checked_n(st: StateV, owner: Chars, fs: Seq<DerivedFieldV>, n: int)
    ensures
        kept(st, form_checked_n(st, owner, fs, n)),
    decreases n,
{
    if 0 < n <= fs.len() {
        kept_form_checked_n(st, owner, fs, n - 1);
    }
}

pub(crate) proof fn kept_endpoint_body(env: EnvV, st: StateV, ep: EndpointDecl)
    ensures
        kept(st, crate::endpoint::body_checked(env, st, ep).0),
{
    if let Some(dt) = ep.body {
        kept_derived(env, st, ep.name@, dt);
        let (s, body) = derived(env, st, ep.name@, dt);
        if let Some(b) = body {
            kept_form_checked_n(s, ep.name@, b.fields, b.fields.len() as int);
        }
    }
}

pub(crate) proof fn kept_errors_checked_n(
    st: StateV,
    owner: Chars,
    evs: Seq<EndpointErrorVariant>,
    n: int,
)
    ensures
        kept(st, errors_checked_n(st, owner, evs, n).0),
    decreases n,
{
    if 0 < n <= evs.len() {
        kept_errors_checked_n(st, owner, evs, n - 1);
    }
}

pub(crate) proof fn kept_queries_n(env: EnvV, st: StateV, owner: Chars, qs: Seq<QueryParam>, n: int)
    ensures
        kept(st, queries_n(env, st, owner, qs, n).0),
    decreases n,
{
    if 0 < n <= qs.len() {
        kept_queries_n(env, st, owner, qs, n - 1);
        kept_resolved(env, queries_n(env, st, owner, qs, n - 1).0, qs[n - 1].type_annotation);
    }
}

pub(crate) proof fn kept_headers_n(
    env: EnvV,
    st: StateV,
    owner: Chars,
    hs: Seq<HeaderParam>,
    is_response: bool,
    n: int,
)
    ensures
        kept(st, headers_n(env, st, owner, hs, is_response, n).0),
    decreases n,
{
    if 0 < n <= hs.len() {
        kept_headers_n(env, st, owner, hs, is_response, n - 1);
        kept_resolved(
            env,
            headers_n(env, st, owner, hs, is_response, n - 1).0,
            hs[n - 1].type_annotation,
        );
    }
}

pub(crate) proof fn kept_inputs_distinct_n(
    st: StateV,
    owner: Chars,
    hs: Seq<HeaderParam>,
    params: Seq<Chars>,
    qs: Seq<QueryParam>,
    n: int,
)
    ensures
        kept(st, inputs_distinct_n(st, owner, hs, params, qs, n)),
    decreases n,
{
    if 0 < n <= hs.len() {
        kept_inputs_distinct_n(st, owner, hs, params, qs, n - 1);
    }
}

pub(crate) proof fn kept_outputs_distinct_n(st: StateV, owner: Chars, hs: Seq<HeaderParam>, n: int)
    ensures
        kept(st, outputs_distinct_n(st, owner, hs, n)),
    decreases n,
{
    if 0 < n <= hs.len() {
        kept_outputs_distinct_n(st, owner, hs, n - 1);
    }
}

pub(crate) proof fn kept_wires_distinct_n(
    st: StateV,
    owner: Chars,
    infos: Seq<HeaderParamInfoV>,
    hs: Seq<HeaderParam>,
    direction: Chars,
    n: int,
)
    ensures
        kept(st, wires_distinct_n(st, owner, infos, hs, direction, n)),
    decreases n,
{
    if 0 < n <= infos.len() && n <= hs.len() {
        kept_wires_distinct_n(st, owner, infos, hs, direction, n - 1);
    }
}

/// Whether the response comes in one shape: by status, with headers, in pages or
/// as a download.
pub open spec fn wrapped_at_most_once(e: EndpointInfoV) -> bool {
    let by_status = e.response_statuses.len() > 0;
    let with_headers = e.response_headers.len() > 0;
    let in_pages = e.pagination is Some;
    &&& by_status ==> !with_headers && !in_pages && !e.response_is_binary
    &&& with_headers ==> !in_pages && !e.response_is_binary
    &&& in_pages ==> !e.response_is_binary
}

/// What is found about the name and the route of an endpoint stays, and so
/// does what is found about the shape of its response.
pub proof fn lemma_identity_kept(
    env: EnvV,
    st: StateV,
    names: Seq<Chars>,
    routes: Seq<(Chars, Chars)>,
    ep: EndpointDecl,
)
    ensures
        kept(st, identity_checked(st, names, routes, ep, full_path(ep))),
        kept(
            identity_checked(st, names, routes, ep, full_path(ep)),
            endpoint_checked(env, st, names, routes, ep).0,
        ),
        endpoint_checked(env, st, names, routes, ep).0.diagnostics.len() == st.diagnostics.len()
            ==> wrapped_at_most_once(
            endpoint_checked(env, st, names, routes, ep).1,
        ),
{
    let owner = ep.name@;
    let path = full_path(ep);
    let params = path_params(path);
    let n = ep.headers@.len() as int;
    let m = ep.response_headers@.len() as int;
    let s1 = identity_checked(st, names, routes, ep, path);
    assert(kept(st, s1));
    kept_response_checked(env, s1, ep);
    let (s2, r) = response_checked(env, s1, ep);
    kept_endpoint_body(env, s2, ep);
    let s3 = crate::endpoint::body_checked(env, s2, ep).0;
    kept_errors_checked_n(s3, owner, ep.errors@, ep.errors@.len() as int);
    let s4 = errors_checked_n(s3, owner, ep.errors@, ep.errors@.len() as int).0;
    let q = ep.query_params@.len() as int;
    kept_queries_n(env, s4, owner, ep.query_params@, q);
    let s5 = queries_n(env, s4, owner, ep.query_params@, q).0;
    kept_headers_n(env, s5, owner, ep.headers@, false, n);
    let (s6, headers) = headers_n(env, s5, owner, ep.headers@, false, n);
    kept_headers_n(env, s6, owner, ep.response_headers@, true, m);
    let (s7, response_headers) = headers_n(env, s6, owner, ep.response_headers@, true, m);
    let s8 = wrapped_once(s7, ep, r);
    assert(kept(s7, s8));
    kept_inputs_distinct_n(s8, owner, ep.headers@, params, ep.query_params@, n);
    let s9 = inputs_distinct_n(s8, owner, ep.headers@, params, ep.query_params@, n);
    kept_outputs_distinct_n(s9, owner, ep.response_headers@, m);
    let s10 = outputs_distinct_n(s9, owner, ep.response_headers@, m);
    kept_wires_distinct_n(s10, owner, headers, ep.headers@, "request"@, n);
    let s11 = wires_distinct_n(s10, owner, headers, ep.headers@, "request"@, n);
    kept_wires_distinct_n(s11, owner, response_headers, ep.response_headers@, "response"@, m);
    let s12 = endpoint_checked(env, st, names, routes, ep).0;
    assert(kept(s8, s12));
    assert(kept(st, s7));
    if s12.diagnostics.len() == st.diagnostics.len() {
        assert(s7.diagnostics.len() == s8.diagnostics.len()) by {
            reveal(kept);
        }
    }
}

/// Checking an endpoint leaves the scopes and the surroundings as they were,
/// and loses nothing that was found or recorded.
pub proof fn law_endpoint_keeps(
    env: EnvV,
    st: StateV,
    names: Seq<Chars>,
    routes: Seq<(Chars, Chars)>,
    ep: EndpointDecl,
)
    ensures
        kept(st, endpoint_checked(env, st, names, routes, ep).0),
{
    lemma_identity_kept(env, st, names, routes, ep);
}

// ── Whole programs ───────────────────────────────────────────────────

/// Checking the bodies in a declaration keeps the same.
pub proof fn law_declaration_keeps(all: Seq<Chars>, c: CheckerV, d: Declaration)
    requires
        c.st.return_type is None,
        within(c.st.type_params, all),
        within(body_params(c.env, d), all),
    ensures
        lasting(all, c.st, decl_checked(c, d).st),
{
    reveal(decl_checked);
    match d {
        Declaration::Function(f) => {
            law_body_keeps(all, c.env, c.st, f, f.type_params.deep_view(), None);
        },
        Declaration::Impl(i) => {
            let ms = i.methods@;
            let n = ms.len() as int;
            lemma_within_parts(type_params_of(c.env, i.for_type@), methods_params_n(ms, n), all);
            lasts_methods_checked_n(all, c.env, c.st, i.for_type@, ms, n);
        },
        Declaration::Struct(s) => {
            lemma_inline_params(all, c.env, s.name@, s.methods@, s.trait_impls@);
            lasts_inline_methods_checked(
                all,
                c.env,
                c.st,
                s.name@,
                s.methods@,
                s.trait_impls@,
            );
        },
        Declaration::Enum(e) => {
            lemma_inline_params(all, c.env, e.name@, e.methods@, e.trait_impls@);
            lasts_inline_methods_checked(
                all,
                c.env,
                c.st,
                e.name@,
                e.methods@,
                e.trait_impls@,
            );
        },
        Declaration::Endpoint(ep) => {
            law_endpoint_keeps(c.env, c.st, c.endpoint_names, c.route_signatures, ep);
            lemma_kept_lasts(all, c.st, decl_checked(c, d).st);
        },
        _ => {},
    }
}

pub proof fn lasts_decls_checked_n(all: Seq<Chars>, c: CheckerV, ds: Seq<Declaration>, n: int)
    requires
        c.st.return_type is None,
        within(c.st.type_params, all),
        within(bodies_params_n(c.env, ds, ds.len() as int), all),
    ensures
        lasting(all, c.st, decls_checked_n(c, ds, n).st),
        decls_checked_n(c, ds, n).env == c.env,
    decreases n,
{
    if 0 < n <= ds.len() {
        lasts_decls_checked_n(all, c, ds, n - 1);
        let rest = decls_checked_n(c, ds, n - 1);
        lemma_top_lasts(all, c.st, rest.st);
        lemma_body_params_n(all, c.env, ds, ds.len() as int, n - 1);
        law_declaration_keeps(all, rest, ds[n - 1]);
        reveal(decl_checked);
    }
}

pub(crate) proof fn kept_imports_rejected_n(st: StateV, ds: Seq<Declaration>, n: int)
    ensures
        kept(st, imports_rejected_n(st, ds, n)),
    decreases n,
{
    if 0 < n <= ds.len() {
        kept_imports_rejected_n(st, ds, n - 1);
    }
}

pub(crate) proof fn kept_mains_rejected_n(st: StateV, ds: Seq<Declaration>, n: int)
    ensures
        kept(st, mains_rejected_n(st, ds, n)),
    decreases n,
{
    if 0 < n <= ds.len() {
        kept_mains_rejected_n(st, ds, n - 1);
    }
}

pub(crate) proof fn kept_module_mains_rejected_n(st: StateV, ms: Seq<ResolvedSourceModule>, n: int)
    ensures
        kept(st, module_mains_rejected_n(st, ms, n)),
    decreases n,
{
    if 0 < n <= ms.len() {
        kept_module_mains_rejected_n(st, ms, n - 1);
        let ds = ms[n - 1].program.declarations@;
        kept_mains_rejected_n(module_mains_rejected_n(st, ms, n - 1), ds, ds.len() as int);
    }
}

pub(crate) proof fn kept_items_imported_n(
    c: CheckerV,
    importer: Seq<Chars>,
    target: Seq<Chars>,
    ds: Seq<Declaration>,
    items: Seq<ImportItem>,
    n: int,
)
    ensures
        kept(c.st, items_imported_n(c, importer, target, ds, items, n).st),
    decreases n,
{
    if 0 < n <= items.len() {
        kept_items_imported_n(c, importer, target, ds, items, n - 1);
    }
}

pub(crate) proof fn kept_imports_n(
    c: CheckerV,
    ms: Seq<ResolvedSourceModule>,
    importer: Seq<Chars>,
    ds: Seq<Declaration>,
    n: int,
)
    ensures
        kept(c.st, imports_n(c, ms, importer, ds, n).st),
    decreases n,
{
    if 0 < n <= ds.len() {
        kept_imports_n(c, ms, importer, ds, n - 1);
        let rest = imports_n(c, ms, importer, ds, n - 1);
        if let Declaration::Import(imp) = ds[n - 1] {
            let target = imp.path.deep_view();
            if let Some(own) = module_from(ms, target, 0) {
                if let ImportItems::Named(items) = imp.items {
                    kept_items_imported_n(
                        rest,
                        importer,
                        target,
                        own,
                        items@,
                        items@.len() as int,
                    );
                }
            }
        }
    }
}

pub(crate) proof fn kept_module_imports_n(c: CheckerV, ms: Seq<ResolvedSourceModule>, n: int)
    ensures
        kept(c.st, module_imports_n(c, ms, n).st),
    decreases n,
{
    if 0 < n <= ms.len() {
        kept_module_imports_n(c, ms, n - 1);
        let ds = ms[n - 1].program.declarations@;
        kept_imports_n(
            module_imports_n(c, ms, n - 1),
            ms,
            ms[n - 1].path@,
            ds,
            ds.len() as int,
        );
    }
}

pub(crate) proof fn lasts_module_decls_registered_n(
    all: Seq<Chars>,
    c: CheckerV,
    ms: Seq<ResolvedSourceModule>,
    n: int,
)
    requires
        within(c.st.type_params, all),
        forall|m: int, i: int|
            0 <= m < ms.len() && 0 <= i < ms[m].program.declarations@.len() ==> within(
                field_params(#[trigger] ms[m].program.declarations@[i]),
                all,
            ),
    ensures
        lasting(all, c.st, module_decls_registered_n(c, ms, n).st),
    decreases n,
{
    if 0 < n <= ms.len() {
        lasts_module_decls_registered_n(all, c, ms, n - 1);
        let rest = module_decls_registered_n(c, ms, n - 1);
        lemma_top_lasts(all, c.st, rest.st);
        let ds = ms[n - 1].program.declarations@;
        lasts_decls_registered_n(
            all,
            CheckerV { env: in_module(rest.env, ms[n - 1].path@), ..rest },
            ds,
            ds.len() as int,
        );
    }
}

pub proof fn lasts_module_decls_checked_n(
    all: Seq<Chars>,
    c: CheckerV,
    ms: Seq<ResolvedSourceModule>,
    n: int,
)
    requires
        c.st.return_type is None,
        within(c.st.type_params, all),
        within(modules_params_n(c.env, ms, ms.len() as int), all),
    ensures
        lasting(all, c.st, module_decls_checked_n(c, ms, n).st),
        module_decls_checked_n(c, ms, n).env == in_module(
            c.env,
            module_decls_checked_n(c, ms, n).env.current_module,
        ),
    decreases n,
{
    if 0 < n <= ms.len() {
        lasts_module_decls_checked_n(all, c, ms, n - 1);
        let rest = module_decls_checked_n(c, ms, n - 1);
        lemma_top_lasts(all, c.st, rest.st);
        let ds = ms[n - 1].program.declarations@;
        lemma_module_params_n(all, c.env, ms, ms.len() as int, n - 1);
        lasts_decls_checked_n(
            all,
            CheckerV { env: in_module(rest.env, ms[n - 1].path@), ..rest },
            ds,
            ds.len() as int,
        );
    }
}

/// Before anything is recorded, nothing is recorded that should not be.
proof fn lemma_initially_clean(all: Seq<Chars>)
    ensures
        clean(initial_state()),
        args_settled(initial_state().call_type_args, all),
        within(initial_state().type_params, all),
{
}

proof fn lemma_clean(all: Seq<Chars>, a: StateV, b: StateV)
    requires
        lasting(all, a, b),
        clean(a),
        args_settled(a.call_type_args, all),
    ensures
        clean(b),
        args_settled(b.call_type_args, all),
{
    reveal(lasting);
}

/// Registering a single file keeps what checking keeps.
pub proof fn lemma_file_registered_lasts(all: Seq<Chars>, ds: Seq<Declaration>)
    requires
        forall|i: int| 0 <= i < ds.len() ==> within(field_params(#[trigger] ds[i]), all),
    ensures
        lasting(all, initial_state(), file_registered(initial_checker(), ds).st),
        file_registered(initial_checker(), ds).st.return_type is None,
        within(file_registered(initial_checker(), ds).st.type_params, all),
{
    let c = initial_checker();
    let n = ds.len() as int;
    let s1 = imports_rejected_n(c.st, ds, n);
    lemma_initially_clean(all);
    kept_imports_rejected_n(c.st, ds, n);
    lemma_kept_lasts(all, c.st, s1);
    lemma_top_lasts(all, c.st, s1);
    lasts_decls_registered_n(
        all,
        CheckerV { env: file_named(c.env, ds), st: s1, ..c },
        ds,
        n,
    );
    lemma_top_lasts(all, initial_state(), file_registered(c, ds).st);
}

/// The same for several modules.
pub proof fn lemma_modules_registered_last(all: Seq<Chars>, ms: Seq<ResolvedSourceModule>)
    requires
        forall|m: int, i: int|
            0 <= m < ms.len() && 0 <= i < ms[m].program.declarations@.len() ==> within(
                field_params(#[trigger] ms[m].program.declarations@[i]),
                all,
            ),
    ensures
        lasting(all, initial_state(), modules_registered(initial_checker(), ms).st),
        modules_registered(initial_checker(), ms).st.return_type is None,
        within(modules_registered(initial_checker(), ms).st.type_params, all),
{
    let c = initial_checker();
    let n = ms.len() as int;
    lemma_initially_clean(all);
    kept_module_mains_rejected_n(c.st, ms, n);
    kept_module_imports_n(
        CheckerV {
            env: scopes_built_n(prepared(c.env), ms, n),
            st: module_mains_rejected_n(c.st, ms, n),
            ..c
        },
        ms,
        n,
    );
    let scoped = modules_scoped(c, ms);
    assert(kept(c.st, scoped.st));
    lemma_kept_lasts(all, c.st, scoped.st);
    lemma_top_lasts(all, c.st, scoped.st);
    lasts_module_decls_registered_n(
        all,
        CheckerV { env: modules_named(scoped.env, ms), ..scoped },
        ms,
        n,
    );
    lemma_top_lasts(all, initial_state(), modules_registered(c, ms).st);
}

/// After a single file is checked, every scope has been left, and what is
/// recorded for later phases is complete: nothing is the error type, and the
/// type arguments of a call have no type parameters but those of the functions
/// and types that the file declares.
pub proof fn law_file_ends_clean(ds: Seq<Declaration>)
    ensures
        file_checked(initial_checker(), ds).st.scopes == initial_state().scopes,
        clean(file_checked(initial_checker(), ds).st),
        args_settled(file_checked(initial_checker(), ds).st.call_type_args, file_params(ds)),
{
    let c = initial_checker();
    let r = file_registered(c, ds);
    let n = ds.len() as int;
    let all = file_params(ds);
    lemma_fields_within(all, r.env, ds);
    lemma_file_registered_lasts(all, ds);
    lasts_decls_checked_n(all, r, ds, n);
    lemma_initially_clean(all);
    lemma_clean(all, initial_state(), file_checked(c, ds).st);
    lemma_top_lasts(all, initial_state(), file_checked(c, ds).st);
}

/// After several modules are checked, every scope has been left, and what is
/// recorded for later phases is complete: nothing is the error type, and the
/// type arguments of a call have no type parameters but those of the functions
/// and types that the modules declare.
pub proof fn law_modules_end_clean(ms: Seq<ResolvedSourceModule>)
    ensures
        modules_checked(initial_checker(), ms).st.scopes == initial_state().scopes,
        clean(modules_checked(initial_checker(), ms).st),
        args_settled(
            modules_checked(initial_checker(), ms).st.call_type_args,
            modules_params(ms),
        ),
{
    let c = initial_checker();
    let r = modules_registered(c, ms);
    let n = ms.len() as int;
    let all = modules_params(ms);
    lemma_module_fields_within(all, r.env, ms);
    lemma_modules_registered_last(all, ms);
    lasts_module_decls_checked_n(all, r, ms, n);
    lemma_initially_clean(all);
    lemma_clean(all, initial_state(), modules_checked(c, ms).st);
    lemma_top_lasts(all, initial_state(), modules_checked(c, ms).st);
}

} // verus!
