//! What a program has when nothing was found wrong with it.
use crate::ast::{
    Declaration, EnumDecl, FunctionDecl, MatchArm, MatchExpr, StructDecl, TraitDecl, TypeAliasDecl,
};
use crate::check_expr::{covers, exhaustiveness_checked, has_catch_all, uncovered_n};
use crate::checker::{
    callables, decls_checked_n, file_checked, file_named, file_registered, imports_rejected_n,
    in_module, initial_checker, module_callables, module_decls_checked_n,
    module_decls_registered_n, modules_checked, modules_named, modules_registered, modules_scoped,
    CheckerV,
};
use crate::coherence::{
    fresh, lemma_decls_checked_n, lemma_file_named, lemma_module_bodies, lemma_modules_named,
    lemma_modules_registered, module_known,
};
use crate::dense::function_known;
use crate::endpoint_laws::{
    declared_endpoints_n, law_file_endpoints, law_module_endpoints, names_of_endpoints,
    valid_endpoints_n, valid_module_endpoints_n,
};
use crate::env::EnvV;
use crate::info::{
    EnumInfo, FunctionInfoV, StructInfo, TraitInfo, TraitInfoV, TypeAliasInfo, TypeAliasInfoV,
};
use crate::paths::qualified;
use crate::register::{
    alias_registered, decl_registered, decls_registered_n, enum_registered, function_registered,
    redefinition, struct_registered, trait_registered,
};
use crate::scoped_params::{
    bodies_params_n, field_params, file_params, lemma_body_params_n, lemma_fields_within,
    lemma_module_fields_within, lemma_module_params_n, lemma_within_parts, modules_params,
    modules_params_n,
};
use crate::scopes::ResolvedSourceModule;
use crate::slots::{
    declared_name, first_kept, lemma_decl_registered, lemma_decls_registered_n,
    lemma_enum_registered, lemma_struct_registered, occupied, place_kept, placed, plain_builtins,
};
use crate::state::StateV;
use crate::steady::{lasting, lemma_kept_lasts, within};
use crate::steady_program::{
    kept_type_orphans_filed, lasts_decls_checked_n, lasts_decls_registered_n,
    lasts_module_decls_checked_n, law_declaration_keeps, law_registration_keeps,
    lemma_file_registered_lasts, lemma_modules_registered_last, lemma_top_lasts,
};
use crate::table::{find, holds, law_find_after_put, put};
use crate::text::Chars;
use crate::types::Ty;
use vstd::prelude::*;

verus! {

/// Nothing was found.
pub open spec fn valid(st: StateV) -> bool {
    st.diagnostics.len() == 0
}

/// Where nothing is found in the end, nothing was found before.
proof fn lemma_valid_before(all: Seq<Chars>, a: StateV, b: StateV)
    requires
        lasting(all, a, b),
        valid(b),
    ensures
        valid(a),
{
    reveal(lasting);
}

// ── Endpoints ────────────────────────────────────────────────────────

proof fn lemma_all_accepted(c: CheckerV, ds: Seq<Declaration>, n: int)
    requires
        0 <= n <= ds.len(),
        c.st.return_type is None,
        valid(decls_checked_n(c, ds, n).st),
    ensures
        valid_endpoints_n(c, ds, n) == declared_endpoints_n(ds, n),
    decreases n,
{
    if n > 0 {
        let rest = decls_checked_n(c, ds, n - 1);
        let all = bodies_params_n(c.env, ds, ds.len() as int) + c.st.type_params;
        lemma_within_parts(
            bodies_params_n(c.env, ds, ds.len() as int),
            c.st.type_params,
            all,
        );
        lasts_decls_checked_n(all, c, ds, n - 1);
        lasts_decls_checked_n(all, c, ds, n);
        lemma_top_lasts(all, c.st, rest.st);
        lemma_body_params_n(all, c.env, ds, ds.len() as int, n - 1);
        law_declaration_keeps(all, rest, ds[n - 1]);
        lemma_valid_before(all, rest.st, decls_checked_n(c, ds, n).st);
        lemma_all_accepted(c, ds, n - 1);
    }
}

/// In a file without findings every endpoint is kept, in the order of the
/// declarations.
pub proof fn law_valid_file_keeps_endpoints(ds: Seq<Declaration>)
    requires
        callables(ds) <= u32::MAX,
        valid(file_checked(initial_checker(), ds).st),
    ensures
        names_of_endpoints(file_checked(initial_checker(), ds).endpoints) == declared_endpoints_n(
            ds,
            ds.len() as int,
        ),
{
    let all = file_params(ds);
    lemma_fields_within(all, file_registered(initial_checker(), ds).env, ds);
    lemma_file_registered_lasts(all, ds);
    law_file_endpoints(ds);
    lemma_all_accepted(file_registered(initial_checker(), ds), ds, ds.len() as int);
}

/// The names of the endpoints in the first `n` modules.
pub open spec fn declared_module_endpoints_n(ms: Seq<ResolvedSourceModule>, n: int) -> Seq<Chars>
    decreases n,
{
    if n <= 0 || n > ms.len() {
        Seq::empty()
    } else {
        let ds = ms[n - 1].program.declarations@;
        declared_module_endpoints_n(ms, n - 1) + declared_endpoints_n(ds, ds.len() as int)
    }
}

proof fn lemma_all_accepted_in_modules(
    all: Seq<Chars>,
    c: CheckerV,
    ms: Seq<ResolvedSourceModule>,
    n: int,
)
    requires
        0 <= n <= ms.len(),
        c.st.return_type is None,
        within(c.st.type_params, all),
        within(modules_params_n(c.env, ms, ms.len() as int), all),
        valid(module_decls_checked_n(c, ms, n).st),
    ensures
        valid_module_endpoints_n(c, ms, n) == declared_module_endpoints_n(ms, n),
    decreases n,
{
    if n > 0 {
        let rest = module_decls_checked_n(c, ms, n - 1);
        let ds = ms[n - 1].program.declarations@;
        let entered = CheckerV { env: in_module(rest.env, ms[n - 1].path@), ..rest };
        lasts_module_decls_checked_n(all, c, ms, n - 1);
        lemma_top_lasts(all, c.st, rest.st);
        lemma_module_params_n(all, c.env, ms, ms.len() as int, n - 1);
        lasts_decls_checked_n(all, entered, ds, ds.len() as int);
        lemma_valid_before(all, rest.st, module_decls_checked_n(c, ms, n).st);
        lemma_all_accepted(entered, ds, ds.len() as int);
        lemma_all_accepted_in_modules(all, c, ms, n - 1);
    }
}

/// In modules without findings every endpoint is kept, module by module.
pub proof fn law_valid_modules_keep_endpoints(ms: Seq<ResolvedSourceModule>)
    requires
        module_callables(ms) <= u32::MAX,
        valid(modules_checked(initial_checker(), ms).st),
    ensures
        names_of_endpoints(modules_checked(initial_checker(), ms).endpoints)
            == declared_module_endpoints_n(ms, ms.len() as int),
{
    let r = modules_registered(initial_checker(), ms);
    let all = modules_params(ms);
    lemma_module_fields_within(all, r.env, ms);
    lemma_modules_registered_last(all, ms);
    law_module_endpoints(ms);
    lemma_all_accepted_in_modules(all, r, ms, ms.len() as int);
}

// ── Declarations ─────────────────────────────────────────────────────

/// Whether two declarations claim one name for the same kind of thing.
pub open spec fn clash(d: Declaration, e: Declaration) -> bool {
    match (d, e) {
        (Declaration::Function(f), Declaration::Function(g)) => f.name@ == g.name@,
        (Declaration::Struct(s), Declaration::Struct(t)) => s.name@ == t.name@ && s.name_span
            != t.name_span,
        (Declaration::Enum(s), Declaration::Enum(t)) => s.name@ == t.name@ && s.name_span
            != t.name_span,
        (Declaration::Trait(s), Declaration::Trait(t)) => s.name@ == t.name@ && s.name_span
            != t.name_span,
        (Declaration::TypeAlias(s), Declaration::TypeAlias(t)) => s.name@ == t.name@
            && s.name_span != t.name_span,
        _ => false,
    }
}

/// Whether `d` is an enum named like a built-in one. Such an enum may be
/// restated.
pub open spec fn restatable(env: EnvV, d: Declaration) -> bool {
    d is Enum && env.builtin_local_names.contains(declared_name(d))
}

proof fn lemma_function_anew(c: CheckerV, f: FunctionDecl)
    requires
        function_known(c.env, c.env.current_module, Declaration::Function(f)),
        valid(function_registered(c, f).st),
    ensures
        !occupied(c.env, Declaration::Function(f)),
        placed(function_registered(c, f).env, c.env.current_module, Declaration::Function(f)),
{
    let key = qualified(c.env.current_module, f.name@);
    assert forall|v: FunctionInfoV| #[trigger]
        find(put(c.env.functions, key, v), key) == Some(v) by {
        law_find_after_put(c.env.functions, key, v);
    }
}

proof fn lemma_struct_anew(c: CheckerV, s: StructDecl)
    requires
        plain_builtins(c.env),
        valid(struct_registered(c, s).st),
    ensures
        !occupied(c.env, Declaration::Struct(s)),
        placed(struct_registered(c, s).env, c.env.current_module, Declaration::Struct(s)),
{
    lemma_struct_registered(c, s);
    if occupied(c.env, Declaration::Struct(s)) {
        let c1 = c.error(redefinition("struct"@, s.name@), s.span);
        kept_type_orphans_filed(c1, s.name@, s.methods@, s.trait_impls@, s.span);
        lemma_kept_lasts(c1.st.type_params, c1.st, struct_registered(c, s).st);
        lemma_valid_before(c1.st.type_params, c1.st, struct_registered(c, s).st);
    }
}

proof fn lemma_enum_anew(c: CheckerV, e: EnumDecl)
    requires
        plain_builtins(c.env),
        valid(enum_registered(c, e).st),
        !c.env.builtin_local_names.contains(e.name@),
    ensures
        !occupied(c.env, Declaration::Enum(e)),
        placed(enum_registered(c, e).env, c.env.current_module, Declaration::Enum(e)),
{
    lemma_enum_registered(c, e);
    if occupied(c.env, Declaration::Enum(e)) {
        let c1 = c.error(redefinition("enum"@, e.name@), e.span);
        kept_type_orphans_filed(c1, e.name@, e.methods@, e.trait_impls@, e.span);
        lemma_kept_lasts(c1.st.type_params, c1.st, enum_registered(c, e).st);
        lemma_valid_before(c1.st.type_params, c1.st, enum_registered(c, e).st);
    }
}

proof fn lemma_trait_anew(c: CheckerV, t: TraitDecl)
    requires
        valid(trait_registered(c, t).st),
    ensures
        !occupied(c.env, Declaration::Trait(t)),
        placed(trait_registered(c, t).env, c.env.current_module, Declaration::Trait(t)),
{
    let key = qualified(c.env.current_module, t.name@);
    assert forall|v: TraitInfoV| #[trigger] find(put(c.env.traits, key, v), key) == Some(v) by {
        law_find_after_put(c.env.traits, key, v);
    }
}

proof fn lemma_alias_anew(c: CheckerV, t: TypeAliasDecl)
    requires
        valid(alias_registered(c, t).st),
    ensures
        !occupied(c.env, Declaration::TypeAlias(t)),
        placed(alias_registered(c, t).env, c.env.current_module, Declaration::TypeAlias(t)),
{
    let key = qualified(c.env.current_module, t.name@);
    assert forall|v: TypeAliasInfoV| #[trigger]
        find(put(c.env.type_aliases, key, v), key) == Some(v) by {
        law_find_after_put(c.env.type_aliases, key, v);
    }
}

/// What is declared without a finding is declared there for the first time.
proof fn lemma_declared_anew(c: CheckerV, d: Declaration)
    requires
        plain_builtins(c.env),
        function_known(c.env, c.env.current_module, d),
        valid(decl_registered(c, d).st),
        !restatable(c.env, d),
    ensures
        !occupied(c.env, d),
        placed(decl_registered(c, d).env, c.env.current_module, d),
{
    match d {
        Declaration::Function(f) => {
            lemma_function_anew(c, f);
        },
        Declaration::Struct(s) => {
            lemma_struct_anew(c, s);
        },
        Declaration::Enum(e) => {
            lemma_enum_anew(c, e);
        },
        Declaration::Trait(t) => {
            lemma_trait_anew(c, t);
        },
        Declaration::TypeAlias(t) => {
            lemma_alias_anew(c, t);
        },
        _ => {},
    }
}

proof fn lemma_placed_stays(a: EnvV, b: EnvV, path: Seq<Chars>, d: Declaration)
    requires
        first_kept(a, b),
        placed(a, path, d),
    ensures
        placed(b, path, d),
{
    match d {
        Declaration::Function(f) => {
            assert(holds(a.functions, qualified(path, f.name@)));
        },
        Declaration::Struct(s) => {
            assert(place_kept::<StructInfo<'static>>(
                a.structs,
                b.structs,
                qualified(path, s.name@),
            ));
        },
        Declaration::Enum(e) => {
            assert(place_kept::<EnumInfo>(a.enums, b.enums, qualified(path, e.name@)));
        },
        Declaration::Trait(t) => {
            assert(place_kept::<TraitInfo>(a.traits, b.traits, qualified(path, t.name@)));
        },
        Declaration::TypeAlias(t) => {
            assert(place_kept::<TypeAliasInfo>(
                a.type_aliases,
                b.type_aliases,
                qualified(path, t.name@),
            ));
        },
        _ => {},
    }
}

proof fn lemma_declared_once(c: CheckerV, ds: Seq<Declaration>, n: int)
    requires
        0 <= n <= ds.len(),
        plain_builtins(c.env),
        forall|k: int|
            0 <= k < ds.len() ==> function_known(
                c.env,
                c.env.current_module,
                #[trigger] ds[k],
            ),
        valid(decls_registered_n(c, ds, n).st),
    ensures
        forall|k: int|
            0 <= k < n && !restatable(c.env, #[trigger] ds[k]) ==> placed(
                decls_registered_n(c, ds, n).env,
                c.env.current_module,
                ds[k],
            ),
        forall|i: int, j: int|
            0 <= i < j < n && !restatable(c.env, #[trigger] ds[i]) ==> !clash(
                ds[i],
                #[trigger] ds[j],
            ),
    decreases n,
{
    if n > 0 {
        let rest = decls_registered_n(c, ds, n - 1);
        let r = decls_registered_n(c, ds, n);
        let d = ds[n - 1];
        let path = c.env.current_module;
        let all = field_params(d) + rest.st.type_params;
        lemma_within_parts(field_params(d), rest.st.type_params, all);
        law_registration_keeps(all, rest, d);
        lemma_valid_before(all, rest.st, r.st);
        lemma_declared_once(c, ds, n - 1);
        lemma_decls_registered_n(c, ds, n - 1);
        lemma_decl_registered(rest, d);
        assert(function_known(rest.env, path, d));
        if !restatable(c.env, d) {
            lemma_declared_anew(rest, d);
        }
        assert forall|k: int| 0 <= k < n && !restatable(c.env, #[trigger] ds[k]) implies placed(
            r.env,
            path,
            ds[k],
        ) by {
            if k < n - 1 {
                lemma_placed_stays(rest.env, r.env, path, ds[k]);
            }
        }
        assert forall|i: int, j: int|
            0 <= i < j < n && !restatable(c.env, #[trigger] ds[i]) implies !clash(
            ds[i],
            #[trigger] ds[j],
        ) by {
            if j == n - 1 && clash(ds[i], d) {
                assert(placed(rest.env, path, ds[i]));
                assert(!occupied(rest.env, d));
            }
        }
    }
}

/// A file without findings declares each name once for each kind of thing,
/// apart from the built-in enums, which may be restated.
pub proof fn law_valid_file_declares_once(ds: Seq<Declaration>, i: int, j: int)
    requires
        callables(ds) <= u32::MAX,
        valid(file_checked(initial_checker(), ds).st),
        0 <= i < j < ds.len(),
        !restatable(file_checked(initial_checker(), ds).env, ds[i]),
    ensures
        !clash(ds[i], ds[j]),
{
    let c = initial_checker();
    let n = ds.len() as int;
    let c1 = CheckerV { env: file_named(c.env, ds), st: imports_rejected_n(c.st, ds, n), ..c };
    let r = file_registered(c, ds);
    lemma_file_named(ds);
    let all = file_params(ds);
    lemma_fields_within(all, r.env, ds);
    lemma_file_registered_lasts(all, ds);
    lasts_decls_checked_n(all, r, ds, n);
    lemma_valid_before(all, r.st, file_checked(c, ds).st);
    lemma_decls_checked_n(r, ds, n);
    lemma_decls_registered_n(c1, ds, n);
    lemma_declared_once(c1, ds, n);
}

proof fn lemma_modules_declare_once(
    c: CheckerV,
    ms: Seq<ResolvedSourceModule>,
    n: int,
    m: int,
    i: int,
    j: int,
)
    requires
        0 <= m < n <= ms.len(),
        fresh(c.env),
        forall|k: int| 0 <= k < ms.len() ==> module_known(c.env, #[trigger] ms[k]),
        valid(module_decls_registered_n(c, ms, n).st),
        0 <= i < j < ms[m].program.declarations@.len(),
        !restatable(c.env, ms[m].program.declarations@[i]),
    ensures
        !clash(ms[m].program.declarations@[i], ms[m].program.declarations@[j]),
    decreases n,
{
    let rest = module_decls_registered_n(c, ms, n - 1);
    let path = ms[n - 1].path@;
    let entered = CheckerV { env: in_module(rest.env, path), ..rest };
    let ds = ms[n - 1].program.declarations@;
    lemma_modules_registered(c, ms, n - 1);
    if m == n - 1 {
        assert(module_known(c.env, ms[n - 1]));
        assert forall|k: int| 0 <= k < ds.len() implies function_known(
            entered.env,
            path,
            #[trigger] ds[k],
        ) by {
            assert(function_known(c.env, path, ds[k]));
        }
        lemma_declared_once(entered, ds, ds.len() as int);
    } else {
        let params = bodies_params_n(c.env, ds, ds.len() as int);
        let all = params + rest.st.type_params;
        lemma_within_parts(params, rest.st.type_params, all);
        lemma_fields_within(all, c.env, ds);
        lasts_decls_registered_n(all, entered, ds, ds.len() as int);
        lemma_valid_before(all, rest.st, module_decls_registered_n(c, ms, n).st);
        lemma_modules_declare_once(c, ms, n - 1, m, i, j);
    }
}

/// Each module of a program without findings declares each name once for each
/// kind of thing, apart from the built-in enums, which may be restated.
pub proof fn law_valid_modules_declare_once(
    ms: Seq<ResolvedSourceModule>,
    m: int,
    i: int,
    j: int,
)
    requires
        module_callables(ms) <= u32::MAX,
        valid(modules_checked(initial_checker(), ms).st),
        0 <= m < ms.len(),
        0 <= i < j < ms[m].program.declarations@.len(),
        !restatable(
            modules_checked(initial_checker(), ms).env,
            ms[m].program.declarations@[i],
        ),
    ensures
        !clash(ms[m].program.declarations@[i], ms[m].program.declarations@[j]),
{
    let c = initial_checker();
    let n = ms.len() as int;
    let scoped = modules_scoped(c, ms);
    let c1 = CheckerV { env: modules_named(scoped.env, ms), ..scoped };
    let r = modules_registered(c, ms);
    lemma_modules_named(ms);
    let all = modules_params(ms);
    lemma_module_fields_within(all, r.env, ms);
    lemma_modules_registered_last(all, ms);
    lasts_module_decls_checked_n(all, r, ms, n);
    lemma_valid_before(all, r.st, modules_checked(c, ms).st);
    lemma_module_bodies(r, ms, n);
    lemma_modules_registered(c1, ms, n);
    lemma_modules_declare_once(c1, ms, n, m, i, j);
}

// ── Matches ──────────────────────────────────────────────────────────

/// Whether every variant has an arm, or there is one for the rest.
pub open spec fn exhaustive(variants: Seq<(Chars, Seq<Ty>)>, arms: Seq<MatchArm>) -> bool {
    has_catch_all(arms) || forall|k: int|
        0 <= k < variants.len() ==> covers(arms, (#[trigger] variants[k]).0)
}

proof fn lemma_uncovered(variants: Seq<(Chars, Seq<Ty>)>, arms: Seq<MatchArm>, n: int)
    requires
        0 <= n <= variants.len(),
    ensures
        uncovered_n(variants, arms, n).len() == 0 <==> forall|k: int|
            0 <= k < n ==> covers(arms, (#[trigger] variants[k]).0),
    decreases n,
{
    if n > 0 {
        lemma_uncovered(variants, arms, n - 1);
        if !covers(arms, variants[n - 1].0) {
            assert(!(forall|k: int| 0 <= k < n ==> covers(arms, (#[trigger] variants[k]).0)));
        }
    }
}

/// A match on an enum passes without a finding exactly when every variant has
/// an arm, or there is one for the rest.
pub proof fn law_silent_match_is_exhaustive(env: EnvV, st: StateV, m: MatchExpr, key: Chars)
    requires
        holds(env.enums, key),
    ensures
        ({
            let variants = find(env.enums, key)->0.variants;
            let r = exhaustiveness_checked(env, st, m, Some(key));
            &&& exhaustive(variants, m.arms@) ==> r == st
            &&& !exhaustive(variants, m.arms@) ==> r.diagnostics.len() == st.diagnostics.len() + 1
        }),
{
    let variants = find(env.enums, key)->0.variants;
    lemma_uncovered(variants, m.arms@, variants.len() as int);
}

} // verus!
