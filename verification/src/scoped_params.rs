//! The type parameters that the declarations of a program bring into scope.
use crate::ast::{Declaration, FunctionDecl, InlineTraitImpl};
use crate::bodies::type_params_of;
use crate::checker::{file_registered, in_module, initial_checker, modules_registered};
use crate::env::EnvV;
use crate::scopes::ResolvedSourceModule;
use crate::steady::within;
use crate::text::Chars;
use vstd::prelude::*;

verus! {

/// The type parameters of the first `n` methods, without those of their type.
pub open spec fn methods_params_n(ms: Seq<FunctionDecl>, n: int) -> Seq<Chars>
    decreases n,
{
    if n <= 0 || n > ms.len() {
        Seq::empty()
    } else {
        methods_params_n(ms, n - 1) + ms[n - 1].type_params.deep_view()
    }
}

/// The type parameters of the methods in the first `n` trait implementations.
pub open spec fn impls_params_n(impls: Seq<InlineTraitImpl>, n: int) -> Seq<Chars>
    decreases n,
{
    if n <= 0 || n > impls.len() {
        Seq::empty()
    } else {
        let ms = impls[n - 1].methods@;
        impls_params_n(impls, n - 1) + methods_params_n(ms, ms.len() as int)
    }
}

/// The type parameters in scope in the methods inside a type.
pub open spec fn inline_params(
    env: EnvV,
    for_type: Chars,
    ms: Seq<FunctionDecl>,
    impls: Seq<InlineTraitImpl>,
) -> Seq<Chars> {
    type_params_of(env, for_type) + (methods_params_n(ms, ms.len() as int) + impls_params_n(
        impls,
        impls.len() as int,
    ))
}

/// The type parameters in scope in the constraints on the fields of a struct.
pub open spec fn field_params(d: Declaration) -> Seq<Chars> {
    match d {
        Declaration::Struct(s) => s.type_params.deep_view(),
        _ => Seq::empty(),
    }
}

/// The type parameters in scope in the bodies in a declaration.
pub open spec fn body_params(env: EnvV, d: Declaration) -> Seq<Chars> {
    match d {
        Declaration::Function(f) => f.type_params.deep_view(),
        Declaration::Struct(s) => inline_params(env, s.name@, s.methods@, s.trait_impls@),
        Declaration::Enum(e) => inline_params(env, e.name@, e.methods@, e.trait_impls@),
        Declaration::Impl(i) => type_params_of(env, i.for_type@) + methods_params_n(
            i.methods@,
            i.methods@.len() as int,
        ),
        _ => Seq::empty(),
    }
}

/// The type parameters in scope in the first `n` declarations.
pub open spec fn bodies_params_n(env: EnvV, ds: Seq<Declaration>, n: int) -> Seq<Chars>
    decreases n,
{
    if n <= 0 || n > ds.len() {
        Seq::empty()
    } else {
        bodies_params_n(env, ds, n - 1) + (field_params(ds[n - 1]) + body_params(
            env,
            ds[n - 1],
        ))
    }
}

/// The type parameters in scope in the first `n` modules.
pub open spec fn modules_params_n(env: EnvV, ms: Seq<ResolvedSourceModule>, n: int) -> Seq<Chars>
    decreases n,
{
    if n <= 0 || n > ms.len() {
        Seq::empty()
    } else {
        let ds = ms[n - 1].program.declarations@;
        modules_params_n(env, ms, n - 1) + bodies_params_n(
            in_module(env, ms[n - 1].path@),
            ds,
            ds.len() as int,
        )
    }
}

/// The type parameters that are in scope somewhere in a single file.
pub open spec fn file_params(ds: Seq<Declaration>) -> Seq<Chars> {
    bodies_params_n(file_registered(initial_checker(), ds).env, ds, ds.len() as int)
}

/// The type parameters that are in scope somewhere in several modules.
pub open spec fn modules_params(ms: Seq<ResolvedSourceModule>) -> Seq<Chars> {
    modules_params_n(modules_registered(initial_checker(), ms).env, ms, ms.len() as int)
}

/// What is in one of two lists is in both together.
pub proof fn lemma_within_both(a: Seq<Chars>, b: Seq<Chars>, all: Seq<Chars>)
    requires
        within(a, all),
        within(b, all),
    ensures
        within(a + b, all),
{
    assert forall|p: Chars| #[trigger] (a + b).contains(p) implies all.contains(p) by {
        let i = choose|i: int| 0 <= i < (a + b).len() && (a + b)[i] == p;
        if i < a.len() {
            assert(a[i] == p);
            assert(a.contains(p));
        } else {
            assert(b[i - a.len()] == p);
            assert(b.contains(p));
        }
    }
}

pub proof fn lemma_within_parts(a: Seq<Chars>, b: Seq<Chars>, all: Seq<Chars>)
    requires
        within(a + b, all),
    ensures
        within(a, all),
        within(b, all),
{
    assert forall|p: Chars| #[trigger] a.contains(p) implies all.contains(p) by {
        let i = choose|i: int| 0 <= i < a.len() && a[i] == p;
        assert((a + b)[i] == p);
        assert((a + b).contains(p));
    }
    assert forall|p: Chars| #[trigger] b.contains(p) implies all.contains(p) by {
        let i = choose|i: int| 0 <= i < b.len() && b[i] == p;
        assert((a + b)[a.len() + i] == p);
        assert((a + b).contains(p));
    }
}

pub proof fn lemma_method_params_n(all: Seq<Chars>, ms: Seq<FunctionDecl>, n: int, i: int)
    requires
        0 <= i < n <= ms.len(),
        within(methods_params_n(ms, n), all),
    ensures
        within(ms[i].type_params.deep_view(), all),
    decreases n,
{
    lemma_within_parts(methods_params_n(ms, n - 1), ms[n - 1].type_params.deep_view(), all);
    if i < n - 1 {
        lemma_method_params_n(all, ms, n - 1, i);
    }
}

pub proof fn lemma_impl_params_n(all: Seq<Chars>, impls: Seq<InlineTraitImpl>, n: int, i: int)
    requires
        0 <= i < n <= impls.len(),
        within(impls_params_n(impls, n), all),
    ensures
        within(methods_params_n(impls[i].methods@, impls[i].methods@.len() as int), all),
    decreases n,
{
    let ms = impls[n - 1].methods@;
    lemma_within_parts(impls_params_n(impls, n - 1), methods_params_n(ms, ms.len() as int), all);
    if i < n - 1 {
        lemma_impl_params_n(all, impls, n - 1, i);
    }
}

pub proof fn lemma_inline_params(
    all: Seq<Chars>,
    env: EnvV,
    for_type: Chars,
    ms: Seq<FunctionDecl>,
    impls: Seq<InlineTraitImpl>,
)
    requires
        within(inline_params(env, for_type, ms, impls), all),
    ensures
        within(type_params_of(env, for_type), all),
        within(methods_params_n(ms, ms.len() as int), all),
        within(impls_params_n(impls, impls.len() as int), all),
{
    let own = methods_params_n(ms, ms.len() as int);
    let inner = impls_params_n(impls, impls.len() as int);
    lemma_within_parts(type_params_of(env, for_type), own + inner, all);
    lemma_within_parts(own, inner, all);
}

pub proof fn lemma_body_params_n(
    all: Seq<Chars>,
    env: EnvV,
    ds: Seq<Declaration>,
    n: int,
    i: int,
)
    requires
        0 <= i < n <= ds.len(),
        within(bodies_params_n(env, ds, n), all),
    ensures
        within(field_params(ds[i]), all),
        within(body_params(env, ds[i]), all),
    decreases n,
{
    let last = ds[n - 1];
    lemma_within_parts(
        bodies_params_n(env, ds, n - 1),
        field_params(last) + body_params(env, last),
        all,
    );
    lemma_within_parts(field_params(last), body_params(env, last), all);
    if i < n - 1 {
        lemma_body_params_n(all, env, ds, n - 1, i);
    }
}

pub proof fn lemma_module_params_n(
    all: Seq<Chars>,
    env: EnvV,
    ms: Seq<ResolvedSourceModule>,
    n: int,
    i: int,
)
    requires
        0 <= i < n <= ms.len(),
        within(modules_params_n(env, ms, n), all),
    ensures
        within(
            bodies_params_n(
                in_module(env, ms[i].path@),
                ms[i].program.declarations@,
                ms[i].program.declarations@.len() as int,
            ),
            all,
        ),
    decreases n,
{
    let ds = ms[n - 1].program.declarations@;
    lemma_within_parts(
        modules_params_n(env, ms, n - 1),
        bodies_params_n(in_module(env, ms[n - 1].path@), ds, ds.len() as int),
        all,
    );
    if i < n - 1 {
        lemma_module_params_n(all, env, ms, n - 1, i);
    }
}

/// The constraints on fields have no other type parameters in scope.
pub proof fn lemma_fields_within(all: Seq<Chars>, env: EnvV, ds: Seq<Declaration>)
    requires
        within(bodies_params_n(env, ds, ds.len() as int), all),
    ensures
        forall|i: int| 0 <= i < ds.len() ==> within(field_params(#[trigger] ds[i]), all),
{
    assert forall|i: int| 0 <= i < ds.len() implies within(
        field_params(#[trigger] ds[i]),
        all,
    ) by {
        lemma_body_params_n(all, env, ds, ds.len() as int, i);
    }
}

pub proof fn lemma_module_fields_within(
    all: Seq<Chars>,
    env: EnvV,
    ms: Seq<ResolvedSourceModule>,
)
    requires
        within(modules_params_n(env, ms, ms.len() as int), all),
    ensures
        forall|m: int, i: int|
            0 <= m < ms.len() && 0 <= i < ms[m].program.declarations@.len() ==> within(
                field_params(#[trigger] ms[m].program.declarations@[i]),
                all,
            ),
{
    assert forall|m: int, i: int|
        0 <= m < ms.len() && 0 <= i < ms[m].program.declarations@.len() implies within(
        field_params(#[trigger] ms[m].program.declarations@[i]),
        all,
    ) by {
        lemma_module_params_n(all, env, ms, ms.len() as int, m);
        lemma_body_params_n(
            all,
            in_module(env, ms[m].path@),
            ms[m].program.declarations@,
            ms[m].program.declarations@.len() as int,
            i,
        );
    }
}

} // verus!
