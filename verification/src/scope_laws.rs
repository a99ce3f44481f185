//! What a module can name.
use crate::ast::{Declaration, ImportDecl, ImportItem, ImportItems, Visibility};
use crate::checker::{
    initial_checker, module_callables, module_mains_rejected_n, modules_checked, modules_named,
    modules_registered, modules_scoped, prepared, CheckerV,
};
use crate::coherence::{lemma_module_bodies, lemma_modules_named, lemma_modules_registered};
use crate::env::{EnvV, ModuleScopeV};
use crate::paths::qualified;
use crate::scopes::{
    builtins_visible_n, head_of, imported, imports_n, items_imported_n, matches_n, module_from,
    module_imports_n, namespace_imported, own_symbols_n, publics_imported_n, scopes_built_n,
    symbol_imported, ResolvedSourceModule,
};
use crate::table::{find, lemma_found, lemma_position, put};
use crate::text::Chars;
use vstd::prelude::*;

verus! {

/// Whether the module declares what stands under the key.
pub open spec fn declares(m: ResolvedSourceModule, key: Chars) -> bool {
    exists|k: int|
        0 <= k < m.program.declarations@.len() && named_by(
            #[trigger] m.program.declarations@[k],
            m.path@,
            key,
        )
}

/// Whether the declaration in the module `path` stands under the key.
pub open spec fn named_by(d: Declaration, path: Seq<Chars>, key: Chars) -> bool {
    match head_of(d) {
        Some(h) => key == qualified(path, h.name),
        None => false,
    }
}

/// Whether the declaration is public.
pub open spec fn is_public(d: Declaration) -> bool {
    match head_of(d) {
        Some(h) => h.visibility == Visibility::Public,
        None => false,
    }
}

/// Whether the module declares what stands under the key as public.
pub open spec fn exports(m: ResolvedSourceModule, key: Chars) -> bool {
    exists|k: int|
        0 <= k < m.program.declarations@.len() && named_by(
            #[trigger] m.program.declarations@[k],
            m.path@,
            key,
        ) && is_public(m.program.declarations@[k])
}

/// Whether the module `m` gives the key to the module `path`: as its own, or as
/// public.
pub open spec fn gives(m: ResolvedSourceModule, path: Seq<Chars>, key: Chars) -> bool {
    m.path@ == path && declares(m, key) || exports(m, key)
}

/// Whether the module `path` may name what stands under the key.
pub open spec fn reachable(
    ms: Seq<ResolvedSourceModule>,
    builtins: Seq<Chars>,
    path: Seq<Chars>,
    key: Chars,
) -> bool {
    builtins.contains(key) || exists|i: int| 0 <= i < ms.len() && #[trigger] gives(ms[i], path, key)
}

/// Whether every name in the scope stands for something that the module may
/// name.
pub open spec fn scope_sound(
    ms: Seq<ResolvedSourceModule>,
    builtins: Seq<Chars>,
    path: Seq<Chars>,
    scope: ModuleScopeV,
) -> bool {
    forall|i: int|
        0 <= i < scope.visible_symbols.len() ==> reachable(
            ms,
            builtins,
            path,
            (#[trigger] scope.visible_symbols[i]).1,
        )
}

/// The same for all scopes.
pub open spec fn scopes_sound(ms: Seq<ResolvedSourceModule>, env: EnvV) -> bool {
    forall|i: int|
        0 <= i < env.module_scopes.len() ==> scope_sound(
            ms,
            env.builtin_local_names,
            (#[trigger] env.module_scopes[i]).0,
            env.module_scopes[i].1,
        )
}

// ── Own declarations and builtins ────────────────────────────────────

proof fn lemma_own_sound(
    ms: Seq<ResolvedSourceModule>,
    builtins: Seq<Chars>,
    m: int,
    n: int,
)
    requires
        0 <= m < ms.len(),
        0 <= n <= ms[m].program.declarations@.len(),
    ensures
        ({
            let own = own_symbols_n(builtins, ms[m].path@, ms[m].program.declarations@, n);
            forall|i: int|
                0 <= i < own.len() ==> reachable(ms, builtins, ms[m].path@, (#[trigger] own[i]).1)
        }),
    decreases n,
{
    if n > 0 {
        lemma_own_sound(ms, builtins, m, n - 1);
        let ds = ms[m].program.declarations@;
        let path = ms[m].path@;
        let rest = own_symbols_n(builtins, path, ds, n - 1);
        let own = own_symbols_n(builtins, path, ds, n);
        if let Some(h) = head_of(ds[n - 1]) {
            let key = qualified(path, h.name);
            assert(named_by(ds[n - 1], path, key));
            assert(gives(ms[m], path, key));
            lemma_position(rest, h.name, 0);
            assert forall|i: int| 0 <= i < own.len() implies reachable(
                ms,
                builtins,
                path,
                (#[trigger] own[i]).1,
            ) by {
                if i < rest.len() && own[i] == rest[i] {
                    assert(reachable(ms, builtins, path, rest[i].1));
                }
            }
        }
    }
}

proof fn lemma_builtins_sound(
    ms: Seq<ResolvedSourceModule>,
    builtins: Seq<Chars>,
    path: Seq<Chars>,
    own: Seq<(Chars, Chars)>,
    n: int,
)
    requires
        forall|i: int| 0 <= i < own.len() ==> reachable(ms, builtins, path, (#[trigger] own[i]).1),
    ensures
        ({
            let all = builtins_visible_n(own, builtins, n);
            forall|i: int|
                0 <= i < all.len() ==> reachable(ms, builtins, path, (#[trigger] all[i]).1)
        }),
    decreases n,
{
    if 0 < n <= builtins.len() {
        lemma_builtins_sound(ms, builtins, path, own, n - 1);
        let rest = builtins_visible_n(own, builtins, n - 1);
        let all = builtins_visible_n(own, builtins, n);
        assert(builtins.contains(builtins[n - 1]));
        assert forall|i: int| 0 <= i < all.len() implies reachable(
            ms,
            builtins,
            path,
            (#[trigger] all[i]).1,
        ) by {
            if i < rest.len() {
                assert(all[i] == rest[i]);
            }
        }
    }
}

proof fn lemma_scope_replaced(
    ms: Seq<ResolvedSourceModule>,
    env: EnvV,
    path: Seq<Chars>,
    scope: ModuleScopeV,
)
    requires
        scopes_sound(ms, env),
        scope_sound(ms, env.builtin_local_names, path, scope),
    ensures
        scopes_sound(ms, EnvV { module_scopes: put(env.module_scopes, path, scope), ..env }),
{
    lemma_position(env.module_scopes, path, 0);
}

proof fn lemma_scopes_built_sound(env: EnvV, ms: Seq<ResolvedSourceModule>, n: int)
    requires
        scopes_sound(ms, env),
        0 <= n <= ms.len(),
    ensures
        scopes_sound(ms, scopes_built_n(env, ms, n)),
        scopes_built_n(env, ms, n).builtin_local_names == env.builtin_local_names,
    decreases n,
{
    if n > 0 {
        lemma_scopes_built_sound(env, ms, n - 1);
        let rest = scopes_built_n(env, ms, n - 1);
        let builtins = env.builtin_local_names;
        let path = ms[n - 1].path@;
        let ds = ms[n - 1].program.declarations@;
        let own = own_symbols_n(builtins, path, ds, ds.len() as int);
        lemma_own_sound(ms, builtins, n - 1, ds.len() as int);
        lemma_builtins_sound(ms, builtins, path, own, builtins.len() as int);
        let scope = ModuleScopeV {
            visible_symbols: builtins_visible_n(own, builtins, builtins.len() as int),
            namespaces: Seq::empty(),
        };
        lemma_scope_replaced(ms, rest, path, scope);
    }
}

// ── Imports ──────────────────────────────────────────────────────────

proof fn lemma_symbol_sound(
    ms: Seq<ResolvedSourceModule>,
    env: EnvV,
    importer: Seq<Chars>,
    local: Chars,
    key: Chars,
)
    requires
        scopes_sound(ms, env),
        reachable(ms, env.builtin_local_names, importer, key),
    ensures
        scopes_sound(ms, symbol_imported(env, importer, local, key)),
        symbol_imported(env, importer, local, key).builtin_local_names == env.builtin_local_names,
{
    if let Some(scope) = find(env.module_scopes, importer) {
        let i = lemma_found(env.module_scopes, importer);
        assert(scope_sound(ms, env.builtin_local_names, importer, scope));
        lemma_position(scope.visible_symbols, local, 0);
        lemma_scope_replaced(
            ms,
            env,
            importer,
            ModuleScopeV { visible_symbols: put(scope.visible_symbols, local, key), ..scope },
        );
    }
}

proof fn lemma_namespace_sound(
    ms: Seq<ResolvedSourceModule>,
    env: EnvV,
    importer: Seq<Chars>,
    local: Chars,
    target: crate::env::NamespaceTargetV,
)
    requires
        scopes_sound(ms, env),
    ensures
        scopes_sound(ms, namespace_imported(env, importer, local, target)),
        namespace_imported(env, importer, local, target).builtin_local_names
            == env.builtin_local_names,
{
    if let Some(scope) = find(env.module_scopes, importer) {
        let i = lemma_found(env.module_scopes, importer);
        assert(scope_sound(ms, env.builtin_local_names, importer, scope));
        lemma_scope_replaced(
            ms,
            env,
            importer,
            ModuleScopeV {
                namespaces: put(scope.namespaces, local, target),
                ..scope
            },
        );
    }
}

/// The first declaration of a name is one of the declarations.
proof fn lemma_first_match(ds: Seq<Declaration>, name: Chars, n: int) -> (k: int)
    requires
        0 <= n <= ds.len(),
        matches_n(ds, name, n).len() > 0,
    ensures
        0 <= k < n,
        head_of(ds[k]) == Some(matches_n(ds, name, n)[0]),
        matches_n(ds, name, n)[0].name == name,
    decreases n,
{
    if matches_n(ds, name, n - 1).len() > 0 {
        lemma_first_match(ds, name, n - 1)
    } else {
        n - 1
    }
}

proof fn lemma_public_reachable(
    ms: Seq<ResolvedSourceModule>,
    builtins: Seq<Chars>,
    importer: Seq<Chars>,
    m: int,
    k: int,
)
    requires
        0 <= m < ms.len(),
        0 <= k < ms[m].program.declarations@.len(),
        is_public(ms[m].program.declarations@[k]),
    ensures
        reachable(
            ms,
            builtins,
            importer,
            qualified(ms[m].path@, head_of(ms[m].program.declarations@[k])->0.name),
        ),
{
    let d = ms[m].program.declarations@[k];
    let key = qualified(ms[m].path@, head_of(d)->0.name);
    assert(named_by(d, ms[m].path@, key));
    assert(exports(ms[m], key));
    assert(gives(ms[m], importer, key));
}

proof fn lemma_items_sound(
    c: CheckerV,
    ms: Seq<ResolvedSourceModule>,
    importer: Seq<Chars>,
    m: int,
    items: Seq<ImportItem>,
    n: int,
)
    requires
        scopes_sound(ms, c.env),
        0 <= m < ms.len(),
    ensures
        ({
            let r = items_imported_n(
                c,
                importer,
                ms[m].path@,
                ms[m].program.declarations@,
                items,
                n,
            );
            &&& scopes_sound(ms, r.env)
            &&& r.env.builtin_local_names == c.env.builtin_local_names
        }),
    decreases n,
{
    if 0 < n <= items.len() {
        lemma_items_sound(c, ms, importer, m, items, n - 1);
        let target = ms[m].path@;
        let ds = ms[m].program.declarations@;
        let rest = items_imported_n(c, importer, target, ds, items, n - 1);
        let item = items[n - 1];
        let hs = matches_n(ds, item.name@, ds.len() as int);
        if hs.len() > 0 && hs[0].visibility == Visibility::Public {
            let k = lemma_first_match(ds, item.name@, ds.len() as int);
            lemma_public_reachable(ms, c.env.builtin_local_names, importer, m, k);
            let local = match item.alias {
                Some(a) => a@,
                None => item.name@,
            };
            lemma_symbol_sound(ms, rest.env, importer, local, qualified(target, item.name@));
        }
    }
}

proof fn lemma_publics_sound(
    env: EnvV,
    ms: Seq<ResolvedSourceModule>,
    importer: Seq<Chars>,
    m: int,
    n: int,
)
    requires
        scopes_sound(ms, env),
        0 <= m < ms.len(),
    ensures
        ({
            let r = publics_imported_n(
                env,
                importer,
                ms[m].path@,
                ms[m].program.declarations@,
                n,
            );
            &&& scopes_sound(ms, r)
            &&& r.builtin_local_names == env.builtin_local_names
        }),
    decreases n,
{
    let target = ms[m].path@;
    let ds = ms[m].program.declarations@;
    if 0 < n <= ds.len() {
        lemma_publics_sound(env, ms, importer, m, n - 1);
        let rest = publics_imported_n(env, importer, target, ds, n - 1);
        if let Some(h) = head_of(ds[n - 1]) {
            if h.visibility == Visibility::Public {
                lemma_public_reachable(ms, env.builtin_local_names, importer, m, n - 1);
                lemma_symbol_sound(ms, rest, importer, h.name, qualified(target, h.name));
            }
        }
    }
}

/// A module that is found is one of the modules.
proof fn lemma_module_found(ms: Seq<ResolvedSourceModule>, path: Seq<Chars>, i: int) -> (m: int)
    requires
        0 <= i,
        module_from(ms, path, i) is Some,
    ensures
        0 <= m < ms.len(),
        ms[m].path@ == path,
        module_from(ms, path, i) == Some(ms[m].program.declarations@),
    decreases ms.len() - i,
{
    if ms[i].path@ == path {
        i
    } else {
        lemma_module_found(ms, path, i + 1)
    }
}

proof fn lemma_import_sound(
    c: CheckerV,
    ms: Seq<ResolvedSourceModule>,
    importer: Seq<Chars>,
    imp: ImportDecl,
)
    requires
        scopes_sound(ms, c.env),
    ensures
        scopes_sound(ms, imported(c, ms, importer, imp).env),
        imported(c, ms, importer, imp).env.builtin_local_names == c.env.builtin_local_names,
{
    let target = imp.path.deep_view();
    assert forall|local: Chars, t: crate::env::NamespaceTargetV|
        scopes_sound(ms, #[trigger] namespace_imported(c.env, importer, local, t))
            && namespace_imported(c.env, importer, local, t).builtin_local_names
            == c.env.builtin_local_names by {
        lemma_namespace_sound(ms, c.env, importer, local, t);
    }
    if module_from(ms, target, 0) is Some {
        let m = lemma_module_found(ms, target, 0);
        let ds = ms[m].program.declarations@;
        if let ImportItems::Named(items) = imp.items {
            lemma_items_sound(c, ms, importer, m, items@, items@.len() as int);
        }
        lemma_publics_sound(c.env, ms, importer, m, ds.len() as int);
    }
}

proof fn lemma_imports_sound(
    c: CheckerV,
    ms: Seq<ResolvedSourceModule>,
    importer: Seq<Chars>,
    ds: Seq<Declaration>,
    n: int,
)
    requires
        scopes_sound(ms, c.env),
    ensures
        scopes_sound(ms, imports_n(c, ms, importer, ds, n).env),
    decreases n,
{
    if 0 < n <= ds.len() {
        lemma_imports_sound(c, ms, importer, ds, n - 1);
        if let Declaration::Import(imp) = ds[n - 1] {
            lemma_import_sound(imports_n(c, ms, importer, ds, n - 1), ms, importer, imp);
        }
    }
}

proof fn lemma_module_imports_sound(c: CheckerV, ms: Seq<ResolvedSourceModule>, n: int)
    requires
        scopes_sound(ms, c.env),
    ensures
        scopes_sound(ms, module_imports_n(c, ms, n).env),
    decreases n,
{
    if 0 < n <= ms.len() {
        lemma_module_imports_sound(c, ms, n - 1);
        let ds = ms[n - 1].program.declarations@;
        lemma_imports_sound(
            module_imports_n(c, ms, n - 1),
            ms,
            ms[n - 1].path@,
            ds,
            ds.len() as int,
        );
    }
}

/// A module can name what it declares, what other modules declare as public,
/// and the builtins; nothing else.
pub proof fn law_scopes_hold_what_is_public(ms: Seq<ResolvedSourceModule>)
    requires
        module_callables(ms) <= u32::MAX,
    ensures
        scopes_sound(ms, modules_checked(initial_checker(), ms).env),
{
    let c = initial_checker();
    let n = ms.len() as int;
    let p = prepared(c.env);
    lemma_scopes_built_sound(p, ms, n);
    let c1 = CheckerV {
        env: scopes_built_n(p, ms, n),
        st: module_mains_rejected_n(c.st, ms, n),
        ..c
    };
    lemma_module_imports_sound(c1, ms, n);
    let scoped = modules_scoped(c, ms);
    let named = CheckerV { env: modules_named(scoped.env, ms), ..scoped };
    lemma_modules_named(ms);
    lemma_modules_registered(named, ms, n);
    lemma_module_bodies(modules_registered(c, ms), ms, n);
}

} // verus!
