//! The parameters of what is registered: each has a type and a name, and only
//! parameters have default values.
use crate::annotations::{annotations_checked, AnnotationTarget};
use crate::ast::{
    Declaration, EnumDecl, Expr, FunctionDecl, InlineTraitImpl, Param, StructDecl, TypeExpr,
};
use crate::bodies::type_params_of;
use crate::calls::arg_names_n;
use crate::check_expr::resolved_params_n;
use crate::checker::{
    callables, file_checked, file_named, file_registered, imports_rejected_n, in_module,
    initial_checker, module_callables, module_decls_registered_n, modules_checked,
    modules_named, modules_registered, modules_scoped, prepared, CheckerV,
};
use crate::coherence::{
    lemma_decls_checked_n, lemma_file_named, lemma_module_bodies, lemma_modules_named,
};
use crate::env::EnvV;
use crate::impls::{
    impl_obstacle, impl_registered, inline_impls_registered_n, inline_orphans_filed_n,
    inline_registered, methods_added_n, methods_built_n, opened, orphans_filed, orphans_filed_n,
    type_orphans_filed,
};
use crate::info::{FunctionInfoV, MethodInfoV};
use crate::paths::qualified;
use crate::register::{
    builtin_methods, decls_registered_n, enum_registered, function_registered, redefinition, struct_registered,
};
use crate::scopes::ResolvedSourceModule;
use crate::signature::{
    defaults_n, method_resolved, non_self, non_self_n, param_names_n, signature_resolved, wrapped,
    wrapped_n,
};
use crate::span::{FuncId, Span};
use crate::state::StateV;
use crate::table::{find, inner, lemma_position, put, put_inner};
use crate::text::Chars;
use crate::types::Ty;
use vstd::prelude::*;

verus! {

/// Whether each parameter has a type and a name, and defaults belong to
/// parameters.
pub open spec fn aligned(params: Seq<Ty>, names: Seq<Chars>, defaults: Seq<(usize, Expr)>) -> bool {
    &&& params.len() == names.len()
    &&& forall|i: int| 0 <= i < defaults.len() ==> (#[trigger] defaults[i]).0 < params.len()
}

/// Whether the parameter at `p` has a default.
pub open spec fn has_default(defaults: Seq<(usize, Expr)>, p: usize) -> bool {
    exists|j: int| 0 <= j < defaults.len() && (#[trigger] defaults[j]).0 == p
}

/// Whether only defaults are evaluated where the function is declared.
pub open spec fn wraps_defaults(wrapped: Seq<usize>, defaults: Seq<(usize, Expr)>) -> bool {
    forall|i: int| 0 <= i < wrapped.len() ==> has_default(defaults, #[trigger] wrapped[i])
}

pub open spec fn function_aligned(f: FunctionInfoV) -> bool {
    &&& aligned(f.params, f.param_names, f.default_param_exprs)
    &&& wraps_defaults(f.default_needs_wrapper, f.default_param_exprs)
}

pub open spec fn method_aligned(m: MethodInfoV) -> bool {
    &&& aligned(m.params, m.param_names, m.default_param_exprs)
    &&& wraps_defaults(m.default_needs_wrapper, m.default_param_exprs)
}

/// The defaults that are evaluated where a function is declared are among its
/// defaults.
pub proof fn law_wrapped_are_defaults(ds: Seq<(usize, Expr)>, is_generic: bool)
    ensures
        wraps_defaults(wrapped(ds, is_generic), ds),
{
    lemma_wrapped_n(ds, ds.len() as int);
}

proof fn lemma_wrapped_n(ds: Seq<(usize, Expr)>, n: int)
    requires
        0 <= n <= ds.len(),
    ensures
        wraps_defaults(wrapped_n(ds, n), ds),
    decreases n,
{
    if n > 0 {
        lemma_wrapped_n(ds, n - 1);
        assert(has_default(ds, ds[n - 1].0));
    }
}

proof fn lemma_params_counted(env: EnvV, st: StateV, ps: Seq<Param>, n: int)
    requires
        0 <= n <= ps.len(),
        ps.len() <= usize::MAX,
    ensures
        resolved_params_n(env, st, ps, n).1.len() == n,
        param_names_n(ps, n).len() == n,
        forall|i: int| 0 <= i < defaults_n(ps, n).len() ==> (#[trigger] defaults_n(ps, n)[i]).0 < n,
    decreases n,
{
    if n > 0 {
        lemma_params_counted(env, st, ps, n - 1);
        let rest = defaults_n(ps, n - 1);
        let all = defaults_n(ps, n);
        assert forall|i: int| 0 <= i < all.len() implies (#[trigger] all[i]).0 < n by {
            if i < rest.len() {
                assert(all[i] == rest[i]);
            }
        }
    }
}

proof fn lemma_fewer_than_all(ps: Seq<Param>, n: int)
    requires
        0 <= n <= ps.len(),
    ensures
        non_self_n(ps, n).len() <= n,
    decreases n,
{
    if n > 0 {
        lemma_fewer_than_all(ps, n - 1);
    }
}

/// In a resolved signature each parameter has a type and a name, and defaults
/// belong to parameters.
pub proof fn law_signature_is_aligned(
    env: EnvV,
    st: StateV,
    type_params: Seq<Chars>,
    params: Seq<Param>,
    ret: Option<TypeExpr>,
)
    requires
        params.len() <= usize::MAX,
    ensures
        ({
            let sig = signature_resolved(env, st, type_params, params, ret).1;
            aligned(sig.params, sig.names, sig.defaults)
        }),
{
    let ps = non_self(params);
    lemma_fewer_than_all(params, params.len() as int);
    lemma_params_counted(env, StateV { type_params, ..st }, ps, ps.len() as int);
}

// ── The tables ───────────────────────────────────────────────────────

pub open spec fn all_aligned(ms: Seq<(Chars, MethodInfoV)>) -> bool {
    forall|i: int| 0 <= i < ms.len() ==> method_aligned((#[trigger] ms[i]).1)
}

pub open spec fn methods_aligned<K>(ts: Seq<(K, Seq<(Chars, MethodInfoV)>)>) -> bool {
    forall|i: int| 0 <= i < ts.len() ==> all_aligned((#[trigger] ts[i]).1)
}

/// Whether all that can be called is aligned: functions and methods, those of
/// rejected declarations among them.
pub open spec fn tables_aligned(env: EnvV) -> bool {
    &&& forall|i: int| 0 <= i < env.functions.len() ==> function_aligned(
        (#[trigger] env.functions[i]).1,
    )
    &&& methods_aligned(env.methods)
    &&& methods_aligned(env.orphan_methods)
}

proof fn lemma_put_aligned(ms: Seq<(Chars, MethodInfoV)>, name: Chars, m: MethodInfoV)
    requires
        all_aligned(ms),
        method_aligned(m),
    ensures
        all_aligned(put(ms, name, m)),
{
    lemma_position(ms, name, 0);
}

proof fn lemma_put_inner_aligned<K>(
    ts: Seq<(K, Seq<(Chars, MethodInfoV)>)>,
    k: K,
    name: Chars,
    m: MethodInfoV,
)
    requires
        methods_aligned(ts),
        method_aligned(m),
    ensures
        methods_aligned(put_inner(ts, k, name, m)),
{
    lemma_position(ts, k, 0);
    lemma_put_aligned(inner(ts, k), name, m);
}

proof fn lemma_method_aligned(
    env: EnvV,
    st: StateV,
    parent: Seq<Chars>,
    f: FunctionDecl,
    id: FuncId,
)
    ensures
        method_aligned(method_resolved(env, st, parent, f, id).1),
{
    assert(f.params.len() == f.params@.len());
    law_signature_is_aligned(
        env,
        st,
        parent + f.type_params.deep_view(),
        f.params@,
        f.return_type,
    );
    let sig = signature_resolved(
        env,
        st,
        parent + f.type_params.deep_view(),
        f.params@,
        f.return_type,
    ).1;
    law_wrapped_are_defaults(sig.defaults, parent.len() > 0 || f.type_params.deep_view().len() > 0);
}

proof fn lemma_orphans_aligned(
    c: CheckerV,
    key: Chars,
    parent: Seq<Chars>,
    ms: Seq<FunctionDecl>,
    span: Span,
    n: int,
)
    requires
        tables_aligned(c.env),
    ensures
        tables_aligned(orphans_filed_n(c, key, parent, ms, span, n).env),
    decreases n,
{
    if 0 < n <= ms.len() {
        lemma_orphans_aligned(c, key, parent, ms, span, n - 1);
        let rest = orphans_filed_n(c, key, parent, ms, span, n - 1);
        let f = ms[n - 1];
        if let Some(id) = find(rest.env.pending_user_method_ids, (key, f.name@)) {
            let info = method_resolved(rest.env, rest.st, parent, f, id).1;
            lemma_method_aligned(rest.env, rest.st, parent, f, id);
            lemma_put_inner_aligned(rest.env.orphan_methods, (key, span), f.name@, info);
        }
    }
}

proof fn lemma_built_aligned(
    env: EnvV,
    st: StateV,
    key: Chars,
    parent: Seq<Chars>,
    ms: Seq<FunctionDecl>,
    n: int,
)
    ensures
        all_aligned(methods_built_n(env, st, key, parent, ms, n).1),
    decreases n,
{
    if 0 < n <= ms.len() {
        lemma_built_aligned(env, st, key, parent, ms, n - 1);
        let s = methods_built_n(env, st, key, parent, ms, n - 1).0;
        if let Some(id) = find(env.pending_user_method_ids, (key, ms[n - 1].name@)) {
            lemma_method_aligned(env, s, parent, ms[n - 1], id);
        }
    }
}

proof fn lemma_added_aligned(
    c: CheckerV,
    key: Chars,
    for_type: Chars,
    infos: Seq<(Chars, MethodInfoV)>,
    n: int,
)
    requires
        tables_aligned(c.env),
        all_aligned(infos),
    ensures
        tables_aligned(methods_added_n(c, key, for_type, infos, n).env),
    decreases n,
{
    if 0 < n <= infos.len() {
        lemma_added_aligned(c, key, for_type, infos, n - 1);
        let rest = methods_added_n(c, key, for_type, infos, n - 1);
        assert(method_aligned(infos[n - 1].1));
        lemma_put_inner_aligned(rest.env.methods, key, infos[n - 1].0, infos[n - 1].1);
    }
}

proof fn lemma_impl_aligned(
    c: CheckerV,
    for_type: Chars,
    tr: Option<Chars>,
    ms: Seq<FunctionDecl>,
    span: Span,
)
    requires
        tables_aligned(c.env),
    ensures
        tables_aligned(impl_registered(c, for_type, tr, ms, span).env),
{
    let key = qualified(c.env.current_module, for_type);
    let parent = type_params_of(c.env, for_type);
    let n = ms.len() as int;
    match impl_obstacle(c.env, for_type) {
        Some(reason) => {
            lemma_orphans_aligned(c.error(reason, span), key, parent, ms, span, n);
        },
        None => {
            let (s, infos) = methods_built_n(c.env, c.st, key, parent, ms, n);
            lemma_built_aligned(c.env, c.st, key, parent, ms, n);
            let c1 = CheckerV {
                st: s,
                env: EnvV { methods: opened(c.env.methods, key), ..c.env },
                ..c
            };
            assert(tables_aligned(c1.env));
            lemma_added_aligned(c1, key, for_type, infos, infos.len() as int);
            if let Some(t) = tr {
                let c2 = c.error("unknown trait `"@ + t + "`"@, span);
                lemma_orphans_aligned(c2, key, parent, ms, span, n);
            }
        },
    }
}

proof fn lemma_inline_impls_aligned(
    c: CheckerV,
    for_type: Chars,
    impls: Seq<InlineTraitImpl>,
    n: int,
)
    requires
        tables_aligned(c.env),
    ensures
        tables_aligned(inline_impls_registered_n(c, for_type, impls, n).env),
    decreases n,
{
    if 0 < n <= impls.len() {
        lemma_inline_impls_aligned(c, for_type, impls, n - 1);
        lemma_impl_aligned(
            inline_impls_registered_n(c, for_type, impls, n - 1),
            for_type,
            Some(impls[n - 1].trait_name@),
            impls[n - 1].methods@,
            impls[n - 1].span,
        );
    }
}

proof fn lemma_inline_aligned(
    c: CheckerV,
    for_type: Chars,
    ms: Seq<FunctionDecl>,
    impls: Seq<InlineTraitImpl>,
    span: Span,
)
    requires
        tables_aligned(c.env),
    ensures
        tables_aligned(inline_registered(c, for_type, ms, impls, span).env),
{
    lemma_impl_aligned(c, for_type, None, ms, span);
    let own = if ms.len() > 0 {
        impl_registered(c, for_type, None, ms, span)
    } else {
        c
    };
    lemma_inline_impls_aligned(own, for_type, impls, impls.len() as int);
}

proof fn lemma_inline_orphans_aligned(
    c: CheckerV,
    for_type: Chars,
    impls: Seq<InlineTraitImpl>,
    n: int,
)
    requires
        tables_aligned(c.env),
    ensures
        tables_aligned(inline_orphans_filed_n(c, for_type, impls, n).env),
    decreases n,
{
    if 0 < n <= impls.len() {
        lemma_inline_orphans_aligned(c, for_type, impls, n - 1);
        let rest = inline_orphans_filed_n(c, for_type, impls, n - 1);
        let ms = impls[n - 1].methods@;
        lemma_orphans_aligned(
            rest,
            qualified(rest.env.current_module, for_type),
            type_params_of(rest.env, for_type),
            ms,
            impls[n - 1].span,
            ms.len() as int,
        );
    }
}

proof fn lemma_type_orphans_aligned(
    c: CheckerV,
    for_type: Chars,
    ms: Seq<FunctionDecl>,
    impls: Seq<InlineTraitImpl>,
    span: Span,
)
    requires
        tables_aligned(c.env),
    ensures
        tables_aligned(type_orphans_filed(c, for_type, ms, impls, span).env),
{
    lemma_orphans_aligned(
        c,
        qualified(c.env.current_module, for_type),
        type_params_of(c.env, for_type),
        ms,
        span,
        ms.len() as int,
    );
    lemma_inline_orphans_aligned(
        orphans_filed(c, for_type, ms, span),
        for_type,
        impls,
        impls.len() as int,
    );
}

proof fn lemma_function_aligned(c: CheckerV, f: FunctionDecl)
    requires
        tables_aligned(c.env),
    ensures
        tables_aligned(function_registered(c, f).env),
{
    let s1 = annotations_checked(c.st, f.annotations@, AnnotationTarget::Function);
    assert(f.params.len() == f.params@.len());
    law_signature_is_aligned(
        c.env,
        s1,
        f.type_params.deep_view(),
        f.params@,
        f.return_type,
    );
    let sig = signature_resolved(
        c.env,
        s1,
        f.type_params.deep_view(),
        f.params@,
        f.return_type,
    ).1;
    law_wrapped_are_defaults(sig.defaults, f.type_params.deep_view().len() > 0);
}

proof fn lemma_struct_aligned(c: CheckerV, s: StructDecl)
    requires
        tables_aligned(c.env),
    ensures
        tables_aligned(struct_registered(c, s).env),
{
    let r = struct_registered(c, s);
    let c1 = c.error(redefinition("struct"@, s.name@), s.span);
    lemma_type_orphans_aligned(c1, s.name@, s.methods@, s.trait_impls@, s.span);
    assert forall|d: CheckerV| tables_aligned(d.env) implies tables_aligned(
        (#[trigger] inline_registered(d, s.name@, s.methods@, s.trait_impls@, s.span)).env,
    ) by {
        lemma_inline_aligned(d, s.name@, s.methods@, s.trait_impls@, s.span);
    }
}

proof fn lemma_enum_aligned(c: CheckerV, e: EnumDecl)
    requires
        tables_aligned(c.env),
    ensures
        tables_aligned(enum_registered(c, e).env),
{
    let c1 = c.error(redefinition("enum"@, e.name@), e.span);
    lemma_type_orphans_aligned(c1, e.name@, e.methods@, e.trait_impls@, e.span);
    assert forall|d: CheckerV| tables_aligned(d.env) implies tables_aligned(
        (#[trigger] inline_registered(d, e.name@, e.methods@, e.trait_impls@, e.span)).env,
    ) by {
        lemma_inline_aligned(d, e.name@, e.methods@, e.trait_impls@, e.span);
    }
}

/// Registering keeps all parameters aligned.
pub proof fn law_registering_keeps_aligned(c: CheckerV, ds: Seq<Declaration>, n: int)
    requires
        tables_aligned(c.env),
    ensures
        tables_aligned(decls_registered_n(c, ds, n).env),
    decreases n,
{
    if 0 < n <= ds.len() {
        law_registering_keeps_aligned(c, ds, n - 1);
        let rest = decls_registered_n(c, ds, n - 1);
        match ds[n - 1] {
            Declaration::Function(f) => {
                lemma_function_aligned(rest, f);
            },
            Declaration::Struct(s) => {
                lemma_struct_aligned(rest, s);
            },
            Declaration::Enum(e) => {
                lemma_enum_aligned(rest, e);
            },
            Declaration::Impl(i) => {
                lemma_impl_aligned(
                    rest,
                    i.for_type@,
                    i.trait_name.deep_view(),
                    i.methods@,
                    i.span,
                );
            },
            _ => {},
        }
    }
}

// ── Whole programs ───────────────────────────────────────────────────

proof fn lemma_builtins_aligned()
    ensures
        methods_aligned(prepared(initial_checker().env).methods),
{
    let bs = builtin_methods("isSome"@, "isNone"@);
    let cs = builtin_methods("isOk"@, "isErr"@);
    reveal_with_fuel(arg_names_n, 2);
    assert(all_aligned(bs));
    assert(all_aligned(cs));
    let one = put(Seq::<(Chars, Seq<(Chars, MethodInfoV)>)>::empty(), "Option"@, bs);
    lemma_position(one, "Result"@, 0);
    assert(methods_aligned(one));
}

/// After a single file is checked, all that can be called is aligned.
pub proof fn law_file_is_aligned(ds: Seq<Declaration>)
    requires
        callables(ds) <= u32::MAX,
    ensures
        tables_aligned(file_checked(initial_checker(), ds).env),
{
    let c = initial_checker();
    let n = ds.len() as int;
    let c1 = CheckerV { env: file_named(c.env, ds), st: imports_rejected_n(c.st, ds, n), ..c };
    lemma_builtins_aligned();
    lemma_file_named(ds);
    law_registering_keeps_aligned(c1, ds, n);
    lemma_decls_checked_n(file_registered(c, ds), ds, n);
}

proof fn lemma_modules_aligned(c: CheckerV, ms: Seq<ResolvedSourceModule>, n: int)
    requires
        tables_aligned(c.env),
    ensures
        tables_aligned(module_decls_registered_n(c, ms, n).env),
    decreases n,
{
    if 0 < n <= ms.len() {
        lemma_modules_aligned(c, ms, n - 1);
        let rest = module_decls_registered_n(c, ms, n - 1);
        let entered = CheckerV { env: in_module(rest.env, ms[n - 1].path@), ..rest };
        let ds = ms[n - 1].program.declarations@;
        law_registering_keeps_aligned(entered, ds, ds.len() as int);
    }
}

/// After several modules are checked, all that can be called is aligned.
pub proof fn law_modules_are_aligned(ms: Seq<ResolvedSourceModule>)
    requires
        module_callables(ms) <= u32::MAX,
    ensures
        tables_aligned(modules_checked(initial_checker(), ms).env),
{
    let c = initial_checker();
    let n = ms.len() as int;
    let scoped = modules_scoped(c, ms);
    lemma_builtins_aligned();
    lemma_modules_named(ms);
    lemma_modules_aligned(CheckerV { env: modules_named(scoped.env, ms), ..scoped }, ms, n);
    lemma_module_bodies(modules_registered(c, ms), ms, n);
}

} // verus!
