//! What a module can name is complete: its own declarations, the builtins, and
//! everything that its imports bring.
use crate::ast::{Declaration, ImportDecl, ImportItem, ImportItems, Visibility};
use crate::checker::CheckerV;
use crate::env::{EnvV, ModuleScopeV, NamespaceTargetV};
use crate::fit_laws::silent;
use crate::paths::qualified;
use crate::scopes::{
    builtins_visible_n, head_of, imported, imports_n, is_json_path, item_imported,
    items_imported_n, matches_n, module_from, module_imports_n, namespace_imported,
    namespace_local, own_symbols_n, publics_imported_n, scope_built, scopes_built_n,
    symbol_imported, ResolvedSourceModule,
};
use crate::table::{find, holds, law_find_after_put, law_put_keeps_others, lemma_put_new, put};
use crate::text::Chars;
use vstd::prelude::*;

verus! {

broadcast use crate::steady::steps;

/// Whether the declaration is a function, struct, enum, trait or type alias of
/// that name.
pub open spec fn declared_as(d: Declaration, name: Chars) -> bool {
    match d {
        Declaration::Function(f) => f.name@ == name,
        Declaration::Struct(s) => s.name@ == name,
        Declaration::Enum(e) => e.name@ == name,
        Declaration::Trait(t) => t.name@ == name,
        Declaration::TypeAlias(t) => t.name@ == name,
        _ => false,
    }
}

/// Whether the declaration is a public function, struct, enum, trait or type
/// alias of that name.
pub open spec fn offers(d: Declaration, name: Chars) -> bool {
    declared_as(d, name) && match d {
        Declaration::Function(f) => f.visibility == Visibility::Public,
        Declaration::Struct(s) => s.visibility == Visibility::Public,
        Declaration::Enum(e) => e.visibility == Visibility::Public,
        Declaration::Trait(t) => t.visibility == Visibility::Public,
        Declaration::TypeAlias(t) => t.visibility == Visibility::Public,
        _ => false,
    }
}

/// What a name stands for in a module.
pub open spec fn visible(env: EnvV, path: Seq<Chars>, name: Chars) -> Option<Chars> {
    match find(env.module_scopes, path) {
        Some(scope) => find(scope.visible_symbols, name),
        None => None,
    }
}

/// What a namespace stands for in a module.
pub open spec fn space(env: EnvV, path: Seq<Chars>, name: Chars) -> Option<NamespaceTargetV> {
    match find(env.module_scopes, path) {
        Some(scope) => find(scope.namespaces, name),
        None => None,
    }
}

/// A function, struct, enum, trait or type alias has its name, visibility and
/// position as head, and nothing else has one.
proof fn lemma_head(d: Declaration, name: Chars)
    ensures
        declared_as(d, name) <==> (head_of(d) matches Some(h) && h.name == name),
        offers(d, name) <==> (head_of(d) matches Some(h) && h.name == name && h.visibility
            == Visibility::Public),
{
}

// ── One symbol ───────────────────────────────────────────────────────

/// An imported symbol is visible under its local name, and no other name in no
/// module changes.
pub proof fn law_symbol_is_visible(
    env: EnvV,
    importer: Seq<Chars>,
    local: Chars,
    key: Chars,
    path: Seq<Chars>,
    name: Chars,
)
    requires
        holds(env.module_scopes, importer),
    ensures
        ({
            let r = symbol_imported(env, importer, local, key);
            &&& visible(r, importer, local) == Some(key)
            &&& path != importer || name != local ==> visible(r, path, name) == visible(
                env,
                path,
                name,
            )
            &&& path != importer ==> find(r.module_scopes, path) == find(env.module_scopes, path)
            &&& space(r, path, name) == space(env, path, name)
            &&& holds(r.module_scopes, importer)
        }),
{
    let scope = find(env.module_scopes, importer)->0;
    let after = ModuleScopeV { visible_symbols: put(scope.visible_symbols, local, key), ..scope };
    law_find_after_put(env.module_scopes, importer, after);
    law_find_after_put(scope.visible_symbols, local, key);
    if path != importer {
        law_put_keeps_others(env.module_scopes, importer, after, path);
    } else if name != local {
        law_put_keeps_others(scope.visible_symbols, local, key, name);
    }
}

/// An imported namespace is known under its local name, and no other one and
/// no symbol changes.
pub proof fn law_namespace_is_known(
    env: EnvV,
    importer: Seq<Chars>,
    local: Chars,
    target: NamespaceTargetV,
    path: Seq<Chars>,
    name: Chars,
)
    requires
        holds(env.module_scopes, importer),
    ensures
        ({
            let r = namespace_imported(env, importer, local, target);
            &&& space(r, importer, local) == Some(target)
            &&& path != importer || name != local ==> space(r, path, name) == space(env, path, name)
            &&& path != importer ==> find(r.module_scopes, path) == find(env.module_scopes, path)
            &&& visible(r, path, name) == visible(env, path, name)
            &&& holds(r.module_scopes, importer)
        }),
{
    let scope = find(env.module_scopes, importer)->0;
    let after = ModuleScopeV { namespaces: put(scope.namespaces, local, target), ..scope };
    law_find_after_put(env.module_scopes, importer, after);
    law_find_after_put(scope.namespaces, local, target);
    if path != importer {
        law_put_keeps_others(env.module_scopes, importer, after, path);
    } else if name != local {
        law_put_keeps_others(scope.namespaces, local, target, name);
    }
}

// ── Own declarations and builtins ────────────────────────────────────

proof fn lemma_own(builtins: Seq<Chars>, path: Seq<Chars>, ds: Seq<Declaration>, name: Chars, n: int)
    requires
        0 <= n <= ds.len(),
    ensures
        find(own_symbols_n(builtins, path, ds, n), name) == if !builtins.contains(name) && exists|
            i: int,
        |
            0 <= i < n && declared_as(#[trigger] ds[i], name) {
            Some(qualified(path, name))
        } else {
            None
        },
    decreases n,
{
    if n > 0 {
        lemma_own(builtins, path, ds, name, n - 1);
        let rest = own_symbols_n(builtins, path, ds, n - 1);
        lemma_head(ds[n - 1], name);
        if let Some(h) = head_of(ds[n - 1]) {
            if h.name == name {
                law_find_after_put(rest, name, qualified(path, name));
                assert(declared_as(ds[n - 1], name));
            } else {
                law_put_keeps_others(rest, h.name, qualified(path, h.name), name);
            }
        }
        if exists|i: int| 0 <= i < n && declared_as(#[trigger] ds[i], name) {
            let i = choose|i: int| 0 <= i < n && declared_as(#[trigger] ds[i], name);
            if i < n - 1 {
                assert(declared_as(ds[i], name));
            }
        }
    }
}

proof fn lemma_builtins_added(
    symbols: Seq<(Chars, Chars)>,
    builtins: Seq<Chars>,
    name: Chars,
    n: int,
)
    requires
        0 <= n <= builtins.len(),
    ensures
        find(builtins_visible_n(symbols, builtins, n), name) == if holds(symbols, name) {
            find(symbols, name)
        } else if exists|i: int| 0 <= i < n && #[trigger] builtins[i] == name {
            Some(name)
        } else {
            None
        },
    decreases n,
{
    if n > 0 {
        lemma_builtins_added(symbols, builtins, name, n - 1);
        let rest = builtins_visible_n(symbols, builtins, n - 1);
        let b = builtins[n - 1];
        if !holds(rest, b) {
            lemma_put_new(rest, b, b);
            law_find_after_put(rest, b, b);
            if b != name {
                law_put_keeps_others(rest, b, b, name);
            }
        }
        if exists|i: int| 0 <= i < n && #[trigger] builtins[i] == name {
            let i = choose|i: int| 0 <= i < n && #[trigger] builtins[i] == name;
            if i < n - 1 {
                assert(builtins[i] == name);
            }
        }
    }
}

/// In the scope of a module every function, struct, enum, trait and type alias
/// that the module declares stands under its own name, every builtin under
/// its name, and nothing else stands there.
pub proof fn law_own_names_are_visible(
    env: EnvV,
    path: Seq<Chars>,
    ds: Seq<Declaration>,
    name: Chars,
)
    ensures
        holds(scope_built(env, path, ds).module_scopes, path),
        visible(scope_built(env, path, ds), path, name) == if env.builtin_local_names.contains(
            name,
        ) {
            Some(name)
        } else if exists|i: int| 0 <= i < ds.len() && declared_as(#[trigger] ds[i], name) {
            Some(qualified(path, name))
        } else {
            None
        },
        space(scope_built(env, path, ds), path, name) is None,
        forall|other: Seq<Chars>|
            other != path ==> #[trigger] find(scope_built(env, path, ds).module_scopes, other)
                == find(env.module_scopes, other),
{
    let builtins = env.builtin_local_names;
    let own = own_symbols_n(builtins, path, ds, ds.len() as int);
    let scope = ModuleScopeV {
        visible_symbols: builtins_visible_n(own, builtins, builtins.len() as int),
        namespaces: Seq::empty(),
    };
    lemma_own(builtins, path, ds, name, ds.len() as int);
    lemma_builtins_added(own, builtins, name, builtins.len() as int);
    law_find_after_put(env.module_scopes, path, scope);
    if builtins.contains(name) {
        let k = choose|k: int| 0 <= k < builtins.len() && builtins[k] == name;
        assert(builtins[k] == name);
    }
    assert forall|other: Seq<Chars>| other != path implies #[trigger] find(
        scope_built(env, path, ds).module_scopes,
        other,
    ) == find(env.module_scopes, other) by {
        law_put_keeps_others(env.module_scopes, path, scope, other);
    }
}

// ── Imports ──────────────────────────────────────────────────────────

/// `import m { * }` makes every public function, struct, enum, trait and type
/// alias of `m` visible under its name, and changes no other name in no
/// module.
pub proof fn law_wildcard_imports_every_public_name(
    env: EnvV,
    importer: Seq<Chars>,
    target: Seq<Chars>,
    ds: Seq<Declaration>,
    n: int,
    name: Chars,
)
    requires
        holds(env.module_scopes, importer),
        0 <= n <= ds.len(),
    ensures
        ({
            let r = publics_imported_n(env, importer, target, ds, n);
            &&& holds(r.module_scopes, importer)
            &&& visible(r, importer, name) == if exists|i: int|
                0 <= i < n && offers(#[trigger] ds[i], name) {
                Some(qualified(target, name))
            } else {
                visible(env, importer, name)
            }
            &&& forall|path: Seq<Chars>|
                path != importer ==> #[trigger] find(r.module_scopes, path) == find(
                    env.module_scopes,
                    path,
                )
        }),
    decreases n,
{
    if n > 0 {
        law_wildcard_imports_every_public_name(env, importer, target, ds, n - 1, name);
        let rest = publics_imported_n(env, importer, target, ds, n - 1);
        let r = publics_imported_n(env, importer, target, ds, n);
        lemma_head(ds[n - 1], name);
        if let Some(h) = head_of(ds[n - 1]) {
            let key = qualified(target, h.name);
            law_symbol_is_visible(rest, importer, h.name, key, importer, name);
            assert forall|path: Seq<Chars>| path != importer implies #[trigger] find(
                r.module_scopes,
                path,
            ) == find(env.module_scopes, path) by {
                law_symbol_is_visible(rest, importer, h.name, key, path, name);
                assert(find(rest.module_scopes, path) == find(env.module_scopes, path));
            }
        }
        if exists|i: int| 0 <= i < n && offers(#[trigger] ds[i], name) {
            let i = choose|i: int| 0 <= i < n && offers(#[trigger] ds[i], name);
            if i < n - 1 {
                assert(offers(ds[i], name));
            } else {
                assert(head_of(ds[n - 1]) is Some);
            }
        }
    }
}

/// The name that an imported item gets.
pub open spec fn local_of(item: ImportItem) -> Chars {
    match item.alias {
        Some(a) => a@,
        None => item.name@,
    }
}

/// How many of the first `n` declarations have the name.
pub open spec fn times_declared(ds: Seq<Declaration>, name: Chars, n: int) -> nat
    decreases n,
{
    if n <= 0 || n > ds.len() {
        0
    } else {
        times_declared(ds, name, n - 1) + if declared_as(ds[n - 1], name) {
            1nat
        } else {
            0nat
        }
    }
}

/// Whether the first of the first `n` declarations of the name is public.
pub open spec fn first_offers(ds: Seq<Declaration>, name: Chars, n: int) -> bool {
    exists|i: int|
        0 <= i < n && offers(#[trigger] ds[i], name) && forall|j: int|
            0 <= j < i ==> !declared_as(#[trigger] ds[j], name)
}

proof fn lemma_matches(ds: Seq<Declaration>, name: Chars, n: int)
    requires
        0 <= n <= ds.len(),
    ensures
        matches_n(ds, name, n).len() == times_declared(ds, name, n),
        times_declared(ds, name, n) == 0 <==> forall|j: int|
            0 <= j < n ==> !declared_as(#[trigger] ds[j], name),
        times_declared(ds, name, n) > 0 ==> (matches_n(ds, name, n)[0].visibility
            == Visibility::Public <==> first_offers(ds, name, n)),
    decreases n,
{
    if n > 0 {
        lemma_matches(ds, name, n - 1);
        lemma_head(ds[n - 1], name);
        let before = times_declared(ds, name, n - 1);
        if before == 0 {
            if offers(ds[n - 1], name) {
                assert(first_offers(ds, name, n));
            }
            if first_offers(ds, name, n) {
                let i = choose|i: int|
                    0 <= i < n && offers(#[trigger] ds[i], name) && forall|j: int|
                        0 <= j < i ==> !declared_as(#[trigger] ds[j], name);
                assert(declared_as(ds[i], name));
                assert(i == n - 1);
            }
        } else {
            assert(matches_n(ds, name, n)[0] == matches_n(ds, name, n - 1)[0]);
            if first_offers(ds, name, n - 1) {
                let i = choose|i: int|
                    0 <= i < n - 1 && offers(#[trigger] ds[i], name) && forall|j: int|
                        0 <= j < i ==> !declared_as(#[trigger] ds[j], name);
                assert(offers(ds[i], name));
                assert(first_offers(ds, name, n));
            }
            if first_offers(ds, name, n) {
                let i = choose|i: int|
                    0 <= i < n && offers(#[trigger] ds[i], name) && forall|j: int|
                        0 <= j < i ==> !declared_as(#[trigger] ds[j], name);
                let k = choose|k: int| 0 <= k < n - 1 && declared_as(#[trigger] ds[k], name);
                assert(declared_as(ds[k], name));
                assert(i <= k);
                assert(offers(ds[i], name));
                assert(first_offers(ds, name, n - 1));
            }
        }
    }
}

/// An item of an import is visible under its alias, or else its name, exactly
/// if its first declaration in the module is public; it is without a finding
/// exactly if that is its only declaration; and no other name in no module
/// changes.
pub proof fn law_item_is_imported(
    c: CheckerV,
    importer: Seq<Chars>,
    target: Seq<Chars>,
    ds: Seq<Declaration>,
    item: ImportItem,
    name: Chars,
)
    requires
        holds(c.env.module_scopes, importer),
    ensures
        ({
            let r = item_imported(c, importer, target, ds, item);
            let n = ds.len() as int;
            &&& holds(r.env.module_scopes, importer)
            &&& c.st.diagnostics.len() <= r.st.diagnostics.len()
            &&& silent(c.st, r.st) <==> times_declared(ds, item.name@, n) == 1 && first_offers(
                ds,
                item.name@,
                n,
            )
            &&& visible(r.env, importer, name) == if name == local_of(item) && first_offers(
                ds,
                item.name@,
                n,
            ) {
                Some(qualified(target, item.name@))
            } else {
                visible(c.env, importer, name)
            }
            &&& forall|path: Seq<Chars>|
                path != importer ==> #[trigger] find(r.env.module_scopes, path) == find(
                    c.env.module_scopes,
                    path,
                )
        }),
{
    lemma_matches(ds, item.name@, ds.len() as int);
    let key = qualified(target, item.name@);
    let r = item_imported(c, importer, target, ds, item);
    law_symbol_is_visible(c.env, importer, local_of(item), key, importer, name);
    if first_offers(ds, item.name@, ds.len() as int) {
        let i = choose|i: int|
            0 <= i < ds.len() && offers(#[trigger] ds[i], item.name@) && forall|j: int|
                0 <= j < i ==> !declared_as(#[trigger] ds[j], item.name@);
        assert(declared_as(ds[i], item.name@));
    }
    assert forall|path: Seq<Chars>| path != importer implies #[trigger] find(
        r.env.module_scopes,
        path,
    ) == find(c.env.module_scopes, path) by {
        law_symbol_is_visible(c.env, importer, local_of(item), key, path, name);
    }
}

/// The items of an import without findings are all visible: each under its
/// alias, or else its name, where the last of several with one name counts.
pub proof fn law_items_are_imported(
    c: CheckerV,
    importer: Seq<Chars>,
    target: Seq<Chars>,
    ds: Seq<Declaration>,
    items: Seq<ImportItem>,
    n: int,
    name: Chars,
)
    requires
        holds(c.env.module_scopes, importer),
        0 <= n <= items.len(),
    ensures
        ({
            let r = items_imported_n(c, importer, target, ds, items, n);
            &&& holds(r.env.module_scopes, importer)
            &&& c.st.diagnostics.len() <= r.st.diagnostics.len()
            &&& silent(c.st, r.st) <==> forall|i: int|
                0 <= i < n ==> times_declared(ds, (#[trigger] items[i]).name@, ds.len() as int) == 1
                    && first_offers(ds, items[i].name@, ds.len() as int)
            &&& forall|i: int|
                0 <= i < n && local_of(#[trigger] items[i]) == name && first_offers(
                    ds,
                    items[i].name@,
                    ds.len() as int,
                ) && (forall|j: int| i < j < n ==> local_of(#[trigger] items[j]) != name)
                    ==> visible(r.env, importer, name) == Some(qualified(target, items[i].name@))
            &&& (forall|j: int| 0 <= j < n ==> local_of(#[trigger] items[j]) != name) ==> visible(
                r.env,
                importer,
                name,
            ) == visible(c.env, importer, name)
            &&& forall|path: Seq<Chars>|
                path != importer ==> #[trigger] find(r.env.module_scopes, path) == find(
                    c.env.module_scopes,
                    path,
                )
        }),
    decreases n,
{
    if n > 0 {
        law_items_are_imported(c, importer, target, ds, items, n - 1, name);
        let rest = items_imported_n(c, importer, target, ds, items, n - 1);
        let r = items_imported_n(c, importer, target, ds, items, n);
        law_item_is_imported(rest, importer, target, ds, items[n - 1], name);
        assert forall|i: int|
            0 <= i < n && local_of(#[trigger] items[i]) == name && first_offers(
                ds,
                items[i].name@,
                ds.len() as int,
            ) && (forall|j: int| i < j < n ==> local_of(#[trigger] items[j]) != name) implies
            visible(r.env, importer, name) == Some(qualified(target, items[i].name@)) by {
            if i < n - 1 {
                assert(local_of(items[n - 1]) != name);
            }
        }
        if forall|j: int| 0 <= j < n ==> local_of(#[trigger] items[j]) != name {
            assert(local_of(items[n - 1]) != name);
        }
    }
}

/// A module is found under its path.
pub proof fn law_module_is_found(ms: Seq<ResolvedSourceModule>, path: Seq<Chars>, i: int)
    requires
        0 <= i <= ms.len(),
        forall|j: int| 0 <= j < i ==> (#[trigger] ms[j]).path@ != path,
    ensures
        i < ms.len() && ms[i].path@ == path ==> module_from(ms, path, 0) == Some(
            ms[i].program.declarations@,
        ),
        i == ms.len() ==> module_from(ms, path, 0) is None,
        module_from(ms, path, 0) == module_from(ms, path, i),
    decreases i,
{
    if i > 0 {
        law_module_is_found(ms, path, i - 1);
        assert(ms[i - 1].path@ != path);
    }
}

/// Whether an import may give `name` a meaning.
pub open spec fn brings(ms: Seq<ResolvedSourceModule>, imp: ImportDecl, name: Chars) -> bool {
    match imp.items {
        ImportItems::Named(items) => exists|i: int|
            0 <= i < items@.len() && local_of(#[trigger] items@[i]) == name,
        ImportItems::Wildcard => match module_from(ms, imp.path.deep_view(), 0) {
            Some(ds) => exists|i: int| 0 <= i < ds.len() && offers(#[trigger] ds[i], name),
            None => false,
        },
        ImportItems::Namespace(_) => false,
    }
}

/// An import changes no name that it does not bring, and no other module.
pub proof fn law_import_changes_only_its_names(
    c: CheckerV,
    ms: Seq<ResolvedSourceModule>,
    importer: Seq<Chars>,
    imp: ImportDecl,
    name: Chars,
)
    requires
        holds(c.env.module_scopes, importer),
    ensures
        ({
            let r = imported(c, ms, importer, imp);
            &&& holds(r.env.module_scopes, importer)
            &&& !brings(ms, imp, name) ==> visible(r.env, importer, name) == visible(
                c.env,
                importer,
                name,
            )
            &&& forall|path: Seq<Chars>|
                path != importer ==> #[trigger] find(r.env.module_scopes, path) == find(
                    c.env.module_scopes,
                    path,
                )
        }),
{
    let target = imp.path.deep_view();
    let r = imported(c, ms, importer, imp);
    match imp.items {
        ImportItems::Named(items) => {
            if let Some(ds) = module_from(ms, target, 0) {
                law_items_are_imported(
                    c,
                    importer,
                    target,
                    ds,
                    items@,
                    items@.len() as int,
                    name,
                );
            }
        },
        ImportItems::Wildcard => {
            if let Some(ds) = module_from(ms, target, 0) {
                law_wildcard_imports_every_public_name(
                    c.env,
                    importer,
                    target,
                    ds,
                    ds.len() as int,
                    name,
                );
            }
        },
        ImportItems::Namespace(alias) => {
            let local = namespace_local(target, alias.deep_view());
            let t = if is_json_path(target) {
                NamespaceTargetV::Json
            } else {
                NamespaceTargetV::UserModule(target)
            };
            law_namespace_is_known(c.env, importer, local, t, importer, name);
            assert forall|path: Seq<Chars>| path != importer implies #[trigger] find(
                r.env.module_scopes,
                path,
            ) == find(c.env.module_scopes, path) by {
                law_namespace_is_known(c.env, importer, local, t, path, name);
            }
        },
    }
}

/// What an import brings is visible after it: with `*` every public name of the
/// module, else the items, under their aliases; a namespace under its alias or
/// the last part of its path.
pub proof fn law_import_brings_its_names(
    c: CheckerV,
    ms: Seq<ResolvedSourceModule>,
    importer: Seq<Chars>,
    imp: ImportDecl,
    name: Chars,
)
    requires
        holds(c.env.module_scopes, importer),
    ensures
        ({
            let r = imported(c, ms, importer, imp);
            let target = imp.path.deep_view();
            match imp.items {
                ImportItems::Wildcard => brings(ms, imp, name) ==> visible(r.env, importer, name)
                    == Some(qualified(target, name)),
                ImportItems::Named(items) => module_from(ms, target, 0) matches Some(ds) ==> forall|
                    i: int,
                |
                    0 <= i < items@.len() && local_of(#[trigger] items@[i]) == name
                        && first_offers(ds, items@[i].name@, ds.len() as int) && (forall|j: int|
                        i < j < items@.len() ==> local_of(#[trigger] items@[j]) != name)
                        ==> visible(r.env, importer, name) == Some(
                        qualified(target, items@[i].name@),
                    ),
                ImportItems::Namespace(alias) => {
                    let local = match alias {
                        Some(a) => a@,
                        None => target.last(),
                    };
                    target.len() > 0 && (is_json_path(target) || module_from(ms, target, 0) is Some)
                        ==> space(r.env, importer, local) == Some(
                        if is_json_path(target) {
                            NamespaceTargetV::Json
                        } else {
                            NamespaceTargetV::UserModule(target)
                        },
                    )
                },
            }
        }),
        module_from(ms, imp.path.deep_view(), 0) is None && !(imp.items is Namespace
            && is_json_path(imp.path.deep_view())) ==> !silent(
            c.st,
            imported(c, ms, importer, imp).st,
        ),
{
    let target = imp.path.deep_view();
    match imp.items {
        ImportItems::Named(items) => {
            if let Some(ds) = module_from(ms, target, 0) {
                law_items_are_imported(
                    c,
                    importer,
                    target,
                    ds,
                    items@,
                    items@.len() as int,
                    name,
                );
            }
        },
        ImportItems::Wildcard => {
            if let Some(ds) = module_from(ms, target, 0) {
                law_wildcard_imports_every_public_name(
                    c.env,
                    importer,
                    target,
                    ds,
                    ds.len() as int,
                    name,
                );
            }
        },
        ImportItems::Namespace(alias) => {
            let local = namespace_local(target, alias.deep_view());
            let t = if is_json_path(target) {
                NamespaceTargetV::Json
            } else {
                NamespaceTargetV::UserModule(target)
            };
            law_namespace_is_known(c.env, importer, local, t, importer, name);
        },
    }
}

proof fn lemma_imports_frame(
    c: CheckerV,
    ms: Seq<ResolvedSourceModule>,
    importer: Seq<Chars>,
    ds: Seq<Declaration>,
    n: int,
)
    requires
        holds(c.env.module_scopes, importer),
        0 <= n <= ds.len(),
    ensures
        ({
            let r = imports_n(c, ms, importer, ds, n);
            &&& holds(r.env.module_scopes, importer)
            &&& forall|path: Seq<Chars>|
                path != importer ==> #[trigger] find(r.env.module_scopes, path) == find(
                    c.env.module_scopes,
                    path,
                )
        }),
    decreases n,
{
    if n > 0 {
        lemma_imports_frame(c, ms, importer, ds, n - 1);
        let rest = imports_n(c, ms, importer, ds, n - 1);
        if let Declaration::Import(imp) = ds[n - 1] {
            law_import_changes_only_its_names(rest, ms, importer, imp, Seq::empty());
        }
    }
}

/// After all imports of a module, a name that an import `j` with `*` brings
/// stands for the key of that module's declaration, if no later import brings
/// the name again.
pub proof fn law_wildcard_names_stay(
    c: CheckerV,
    ms: Seq<ResolvedSourceModule>,
    importer: Seq<Chars>,
    ds: Seq<Declaration>,
    j: int,
    name: Chars,
    n: int,
)
    requires
        holds(c.env.module_scopes, importer),
        0 <= j < n <= ds.len(),
        ds[j] matches Declaration::Import(imp) && imp.items is Wildcard && brings(ms, imp, name),
        forall|k: int|
            j < k < ds.len() ==> ((#[trigger] ds[k]) matches Declaration::Import(later) ==> !brings(
                ms,
                later,
                name,
            )),
    ensures
        visible(imports_n(c, ms, importer, ds, n).env, importer, name) == Some(
            qualified(ds[j]->Import_0.path.deep_view(), name),
        ),
    decreases n,
{
    lemma_imports_frame(c, ms, importer, ds, n - 1);
    let rest = imports_n(c, ms, importer, ds, n - 1);
    if n - 1 == j {
        law_import_brings_its_names(rest, ms, importer, ds[j]->Import_0, name);
    } else {
        law_wildcard_names_stay(c, ms, importer, ds, j, name, n - 1);
        if let Declaration::Import(imp) = ds[n - 1] {
            assert(!brings(ms, imp, name));
            law_import_changes_only_its_names(rest, ms, importer, imp, name);
        }
    }
}

/// A name that no import brings keeps its meaning.
pub proof fn law_other_names_stay(
    c: CheckerV,
    ms: Seq<ResolvedSourceModule>,
    importer: Seq<Chars>,
    ds: Seq<Declaration>,
    name: Chars,
    n: int,
)
    requires
        holds(c.env.module_scopes, importer),
        0 <= n <= ds.len(),
        forall|k: int|
            0 <= k < ds.len() ==> ((#[trigger] ds[k]) matches Declaration::Import(imp) ==> !brings(
                ms,
                imp,
                name,
            )),
    ensures
        visible(imports_n(c, ms, importer, ds, n).env, importer, name) == visible(
            c.env,
            importer,
            name,
        ),
    decreases n,
{
    if n > 0 {
        lemma_imports_frame(c, ms, importer, ds, n - 1);
        let rest = imports_n(c, ms, importer, ds, n - 1);
        law_other_names_stay(c, ms, importer, ds, name, n - 1);
        if let Declaration::Import(imp) = ds[n - 1] {
            assert(!brings(ms, imp, name));
            law_import_changes_only_its_names(rest, ms, importer, imp, name);
        }
    }
}

// ── All modules ──────────────────────────────────────────────────────

/// Whether no two modules have the same path.
pub open spec fn paths_differ(ms: Seq<ResolvedSourceModule>) -> bool {
    forall|i: int, j: int|
        0 <= i < j < ms.len() ==> (#[trigger] ms[i]).path@ != (#[trigger] ms[j]).path@
}

proof fn lemma_scopes_built(env: EnvV, ms: Seq<ResolvedSourceModule>, k: int, name: Chars, n: int)
    requires
        paths_differ(ms),
        0 <= k < n <= ms.len(),
    ensures
        ({
            let r = scopes_built_n(env, ms, n);
            let built = scope_built(scopes_built_n(env, ms, k), ms[k].path@, ms[k].program.declarations@);
            &&& find(r.module_scopes, ms[k].path@) == find(built.module_scopes, ms[k].path@)
            &&& r.builtin_local_names == env.builtin_local_names
            &&& holds(r.module_scopes, ms[k].path@)
        }),
    decreases n,
{
    if n - 1 == k {
        lemma_names_kept(env, ms, k);
        law_own_names_are_visible(
            scopes_built_n(env, ms, k),
            ms[k].path@,
            ms[k].program.declarations@,
            name,
        );
    } else {
        lemma_scopes_built(env, ms, k, name, n - 1);
        assert(ms[k].path@ != ms[n - 1].path@);
        law_own_names_are_visible(
            scopes_built_n(env, ms, n - 1),
            ms[n - 1].path@,
            ms[n - 1].program.declarations@,
            name,
        );
    }
}

proof fn lemma_names_kept(env: EnvV, ms: Seq<ResolvedSourceModule>, n: int)
    ensures
        scopes_built_n(env, ms, n).builtin_local_names == env.builtin_local_names,
    decreases n,
{
    if 0 < n <= ms.len() {
        lemma_names_kept(env, ms, n - 1);
    }
}

/// Before imports, every module can name all that it declares and all
/// builtins, whatever the other modules are.
pub proof fn law_every_module_has_its_names(
    env: EnvV,
    ms: Seq<ResolvedSourceModule>,
    k: int,
    name: Chars,
)
    requires
        paths_differ(ms),
        0 <= k < ms.len(),
    ensures
        ({
            let r = scopes_built_n(env, ms, ms.len() as int);
            let ds = ms[k].program.declarations@;
            &&& holds(r.module_scopes, ms[k].path@)
            &&& visible(r, ms[k].path@, name) == if env.builtin_local_names.contains(name) {
                Some(name)
            } else if exists|i: int| 0 <= i < ds.len() && declared_as(#[trigger] ds[i], name) {
                Some(qualified(ms[k].path@, name))
            } else {
                None
            }
        }),
{
    lemma_scopes_built(env, ms, k, name, ms.len() as int);
    lemma_names_kept(env, ms, k);
    law_own_names_are_visible(
        scopes_built_n(env, ms, k),
        ms[k].path@,
        ms[k].program.declarations@,
        name,
    );
}

proof fn lemma_modules_frame(c: CheckerV, ms: Seq<ResolvedSourceModule>, k: int, n: int)
    requires
        paths_differ(ms),
        0 <= n <= ms.len(),
        0 <= k < ms.len(),
        forall|i: int| 0 <= i < ms.len() ==> holds(c.env.module_scopes, (#[trigger] ms[i]).path@),
    ensures
        ({
            let r = module_imports_n(c, ms, n);
            let ds = ms[k].program.declarations@;
            let own = imports_n(
                module_imports_n(c, ms, k),
                ms,
                ms[k].path@,
                ds,
                ds.len() as int,
            );
            &&& forall|i: int|
                0 <= i < ms.len() ==> holds(r.env.module_scopes, (#[trigger] ms[i]).path@)
            &&& find(r.env.module_scopes, ms[k].path@) == if n <= k {
                find(c.env.module_scopes, ms[k].path@)
            } else {
                find(own.env.module_scopes, ms[k].path@)
            }
        }),
    decreases n,
{
    if n > 0 {
        lemma_modules_frame(c, ms, k, n - 1);
        let rest = module_imports_n(c, ms, n - 1);
        let ds = ms[n - 1].program.declarations@;
        assert(holds(rest.env.module_scopes, ms[n - 1].path@));
        lemma_imports_frame(rest, ms, ms[n - 1].path@, ds, ds.len() as int);
        let r = module_imports_n(c, ms, n);
        assert forall|i: int| 0 <= i < ms.len() implies holds(
            r.env.module_scopes,
            (#[trigger] ms[i]).path@,
        ) by {
            if i != n - 1 {
                assert(ms[i].path@ != ms[n - 1].path@);
                assert(holds(rest.env.module_scopes, ms[i].path@));
                assert(find(r.env.module_scopes, ms[i].path@) == find(
                    rest.env.module_scopes,
                    ms[i].path@,
                ));
            }
        }
        if k != n - 1 {
            assert(ms[k].path@ != ms[n - 1].path@);
            assert(find(r.env.module_scopes, ms[k].path@) == find(
                rest.env.module_scopes,
                ms[k].path@,
            ));
        }
    }
}

/// Whatever the other modules import, `import m { * }` at `j` in a module makes
/// every public name of `m` visible there, if no later import of that module
/// brings the name again.
pub proof fn law_modules_see_what_they_import(
    c: CheckerV,
    ms: Seq<ResolvedSourceModule>,
    k: int,
    j: int,
    name: Chars,
)
    requires
        paths_differ(ms),
        0 <= k < ms.len(),
        forall|i: int| 0 <= i < ms.len() ==> holds(c.env.module_scopes, (#[trigger] ms[i]).path@),
        0 <= j < ms[k].program.declarations@.len(),
        ms[k].program.declarations@[j] matches Declaration::Import(imp) && imp.items is Wildcard
            && brings(ms, imp, name),
        forall|i: int|
            j < i < ms[k].program.declarations@.len() ==> ((
            #[trigger] ms[k].program.declarations@[i]) matches Declaration::Import(later)
                ==> !brings(ms, later, name)),
    ensures
        visible(module_imports_n(c, ms, ms.len() as int).env, ms[k].path@, name) == Some(
            qualified(ms[k].program.declarations@[j]->Import_0.path.deep_view(), name),
        ),
{
    let ds = ms[k].program.declarations@;
    lemma_modules_frame(c, ms, k, ms.len() as int);
    lemma_modules_frame(c, ms, k, k);
    let before = module_imports_n(c, ms, k);
    assert(holds(before.env.module_scopes, ms[k].path@));
    law_wildcard_names_stay(before, ms, ms[k].path@, ds, j, name, ds.len() as int);
}

} // verus!
