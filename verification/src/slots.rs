//! Every id that is given out ends up with a callable behind it.
//!
//! Ids are given out before anything is registered, so a declaration that is
//! rejected later still owns some. What follows shows that registration fills
//! all of them, whatever it rejects.
use crate::annotations::{annotations_checked, AnnotationTarget};
use crate::ast::{Declaration, EnumDecl, FunctionDecl, InlineTraitImpl, StructDecl};
use crate::bodies::type_params_of;
use crate::checker::{same_endpoints, CheckerV};
use crate::env::EnvV;
use crate::impls::{
    filled_with, impl_obstacle, impl_registered, inline_impls_registered_n,
    inline_orphans_filed_n, inline_registered, methods_added, methods_added_n, methods_built_n,
    opened, orphan_filed, orphans_filed, orphans_filed_n, trait_added, type_orphans_filed,
};
use crate::info::{
    EnumInfo, EnumInfoV, FunctionInfoV, MethodInfoV, StructInfo, StructInfoV, SymbolKindV,
    TraitInfo, TraitInfoV, TypeAliasInfo, TypeAliasInfoV,
};
use crate::paths::{is_builtin_path, qualified, separator_at};
use crate::register::{
    decl_registered, declares_file, decls_registered_n, enum_registered, fields_registered_n,
    redefinition, struct_registered, taken, variants_registered_n,
};
use crate::scopes::Declared;
use crate::signature::method_resolved;
use crate::span::{FuncId, Span};
use crate::state::StateV;
use crate::table::{
    find, holds, inner, law_find_after_put, law_put_keeps_others, 
    law_put_inner_keeps_distinct, lemma_found, lemma_holds, lemma_put_inner_new, put, put_inner,
    tables_distinct,
};
use crate::text::{join, Chars};
use vstd::prelude::*;

verus! {

/// Whether a method with the id stands in the tables.
pub open spec fn in_tables<K>(ts: Seq<(K, Seq<(Chars, MethodInfoV)>)>, id: FuncId) -> bool {
    exists|i: int, j: int|
        0 <= i < ts.len() && 0 <= j < ts[i].1.len() && (#[trigger] ts[i].1[j]).1.func_id == Some(id)
}

/// Whether the id of a method is known to be filled.
pub open spec fn claims(env: EnvV, key: Chars, name: Chars, id: FuncId) -> bool {
    find(env.pending_user_method_ids, (key, name)) == Some(id)
        && env.filled_method_func_ids.contains(id)
}

/// A method that a lookup finds has the id that was given to its name, or is
/// built in.
pub open spec fn methods_claimed(env: EnvV) -> bool {
    forall|i: int, j: int|
        0 <= i < env.methods.len() && 0 <= j < env.methods[i].1.len() ==> match (
        #[trigger] env.methods[i].1[j]).1.func_id {
            Some(id) => claims(env, env.methods[i].0, env.methods[i].1[j].0, id),
            None => env.builtin_local_names.contains(env.methods[i].0),
        }
}

/// A method of a rejected declaration has the id that was given to its name.
pub open spec fn orphans_claimed(env: EnvV) -> bool {
    forall|i: int, j: int|
        0 <= i < env.orphan_methods.len() && 0 <= j < env.orphan_methods[i].1.len() ==> match (
        #[trigger] env.orphan_methods[i].1[j]).1.func_id {
            Some(id) => claims(
                env,
                env.orphan_methods[i].0.0,
                env.orphan_methods[i].1[j].0,
                id,
            ),
            None => false,
        }
}

/// Every filled id has a method behind it.
pub open spec fn filled_held(env: EnvV) -> bool {
    forall|id: FuncId| #[trigger]
        env.filled_method_func_ids.contains(id) ==> in_tables(env.methods, id) || in_tables(
            env.orphan_methods,
            id,
        )
}

/// What registration keeps true of the method tables.
pub open spec fn slots_ok(env: EnvV) -> bool {
    &&& methods_claimed(env)
    &&& orphans_claimed(env)
    &&& filled_held(env)
    &&& tables_distinct(env.methods)
}

/// Registering methods touches only the methods, and gives up no id that is
/// filled.
pub open spec fn slot_step(a: EnvV, b: EnvV) -> bool {
    &&& b == EnvV {
        methods: b.methods,
        orphan_methods: b.orphan_methods,
        filled_method_func_ids: b.filled_method_func_ids,
        trait_impls: b.trait_impls,
        ..a
    }
    &&& forall|id: FuncId| #[trigger]
        a.filled_method_func_ids.contains(id) ==> b.filled_method_func_ids.contains(id)
    &&& slots_ok(a) ==> slots_ok(b)
}

/// Whether the id given to a method, if any, is filled.
pub open spec fn slot_filled(env: EnvV, key: Chars, name: Chars) -> bool {
    match find(env.pending_user_method_ids, (key, name)) {
        Some(id) => env.filled_method_func_ids.contains(id),
        None => true,
    }
}

/// Whether the ids given to a list of methods are filled.
pub open spec fn list_filled(env: EnvV, key: Chars, ms: Seq<FunctionDecl>) -> bool {
    forall|i: int| 0 <= i < ms.len() ==> slot_filled(env, key, (#[trigger] ms[i]).name@)
}

proof fn lemma_step_trans(a: EnvV, b: EnvV, c: EnvV)
    requires
        slot_step(a, b),
        slot_step(b, c),
    ensures
        slot_step(a, c),
{
    assert forall|id: FuncId| #[trigger]
        a.filled_method_func_ids.contains(id) implies c.filled_method_func_ids.contains(id) by {
        assert(b.filled_method_func_ids.contains(id));
    }
}

proof fn lemma_list_stays(a: EnvV, b: EnvV, key: Chars, ms: Seq<FunctionDecl>)
    requires
        slot_step(a, b),
        list_filled(a, key, ms),
    ensures
        list_filled(b, key, ms),
{
    assert forall|i: int| 0 <= i < ms.len() implies slot_filled(b, key, (#[trigger] ms[i]).name@) by {
        assert(slot_filled(a, key, ms[i].name@));
    }
}

/// A new method joins those that are in the tables.
proof fn lemma_in_tables_grows<K>(
    s: Seq<(K, Seq<(Chars, MethodInfoV)>)>,
    k: K,
    name: Chars,
    info: MethodInfoV,
)
    requires
        !holds(inner(s, k), name),
    ensures
        forall|id: FuncId| in_tables(s, id) ==> #[trigger] in_tables(put_inner(s, k, name, info), id),
        info.func_id matches Some(id) ==> in_tables(put_inner(s, k, name, info), id),
{
    let r = put_inner(s, k, name, info);
    let p = lemma_put_inner_new(s, k, name, info);
    assert forall|id: FuncId| in_tables(s, id) implies #[trigger] in_tables(r, id) by {
        let (i, j) = choose|i: int, j: int|
            0 <= i < s.len() && 0 <= j < s[i].1.len() && (#[trigger] s[i].1[j]).1.func_id == Some(
                id,
            );
        assert(r[i].1[j] == s[i].1[j]);
    }
    if let Some(id) = info.func_id {
        if p < s.len() {
            let j = s[p].1.len() as int;
            assert(r[p].1[j] == (name, info));
        } else {
            assert(r[p].1[0] == (name, info));
        }
    }
}

/// Filing a method of a rejected declaration.
proof fn lemma_orphan_filed(
    c: CheckerV,
    key: Chars,
    parent: Seq<Chars>,
    f: FunctionDecl,
    span: Span,
)
    ensures
        ({
            let r = orphan_filed(c, key, parent, f, span);
            &&& slot_step(c.env, r.env)
            &&& slots_ok(c.env) ==> slot_filled(r.env, key, f.name@)
            &&& same_endpoints(r, c)
        }),
{
    let r = orphan_filed(c, key, parent, f, span);
    let a = c.env;
    let b = r.env;
    if let Some(id) = find(a.pending_user_method_ids, (key, f.name@)) {
        if !a.filled_method_func_ids.contains(id) {
            let place = (key, span);
            let info = method_resolved(c.env, c.st, parent, f, id).1;
            assert(b.filled_method_func_ids == a.filled_method_func_ids.push(id));
            assert(b.filled_method_func_ids[a.filled_method_func_ids.len() as int] == id);
            assert forall|x: FuncId| #[trigger]
                a.filled_method_func_ids.contains(x) implies b.filled_method_func_ids.contains(
                x,
            ) by {
                let i = choose|i: int|
                    0 <= i < a.filled_method_func_ids.len() && a.filled_method_func_ids[i] == x;
                assert(b.filled_method_func_ids[i] == x);
            }
            if slots_ok(a) {
                if holds(inner(a.orphan_methods, place), f.name@) {
                    // The entry would have filled the id already.
                    let t = inner(a.orphan_methods, place);
                    let i = lemma_found(a.orphan_methods, place);
                    let j = lemma_found(t, f.name@);
                    assert(a.orphan_methods[i].1[j] == t[j]);
                    assert(false);
                }
                lemma_in_tables_grows(a.orphan_methods, place, f.name@, info);
                let p = lemma_put_inner_new(a.orphan_methods, place, f.name@, info);
                assert(b.orphan_methods == put_inner(a.orphan_methods, place, f.name@, info));
                assert(claims(b, key, f.name@, id));
                assert(methods_claimed(b)) by {
                    assert forall|i: int, j: int|
                        0 <= i < b.methods.len() && 0 <= j < b.methods[i].1.len() implies match (
                    #[trigger] b.methods[i].1[j]).1.func_id {
                        Some(id) => claims(b, b.methods[i].0, b.methods[i].1[j].0, id),
                        None => b.builtin_local_names.contains(b.methods[i].0),
                    } by {
                        assert(a.methods[i].1[j] == b.methods[i].1[j]);
                    }
                }
                assert forall|i: int, j: int|
                    0 <= i < b.orphan_methods.len() && 0 <= j < b.orphan_methods[i].1.len() implies match (
                #[trigger] b.orphan_methods[i].1[j]).1.func_id {
                    Some(id) => claims(
                        b,
                        b.orphan_methods[i].0.0,
                        b.orphan_methods[i].1[j].0,
                        id,
                    ),
                    None => false,
                } by {
                    if i < a.orphan_methods.len() && j < a.orphan_methods[i].1.len() {
                        assert(a.orphan_methods[i].1[j] == b.orphan_methods[i].1[j]);
                    } else {
                        assert(b.orphan_methods[i].1[j] == (f.name@, info));
                    }
                }
                assert forall|x: FuncId| #[trigger]
                    b.filled_method_func_ids.contains(x) implies in_tables(b.methods, x)
                    || in_tables(b.orphan_methods, x) by {
                    if x != id {
                        let i = choose|i: int|
                            0 <= i < b.filled_method_func_ids.len()
                                && b.filled_method_func_ids[i] == x;
                        assert(a.filled_method_func_ids[i] == x);
                        assert(a.filled_method_func_ids.contains(x));
                    }
                }
            }
        }
    }
}

proof fn lemma_orphans_filed_n(
    c: CheckerV,
    key: Chars,
    parent: Seq<Chars>,
    ms: Seq<FunctionDecl>,
    span: Span,
    n: int,
)
    requires
        0 <= n <= ms.len(),
    ensures
        ({
            let r = orphans_filed_n(c, key, parent, ms, span, n);
            &&& slot_step(c.env, r.env)
            &&& slots_ok(c.env) ==> list_filled(r.env, key, ms.take(n))
            &&& same_endpoints(r, c)
        }),
    decreases n,
{
    if n > 0 {
        let rest = orphans_filed_n(c, key, parent, ms, span, n - 1);
        let r = orphans_filed_n(c, key, parent, ms, span, n);
        lemma_orphans_filed_n(c, key, parent, ms, span, n - 1);
        lemma_orphan_filed(rest, key, parent, ms[n - 1], span);
        lemma_step_trans(c.env, rest.env, r.env);
        if slots_ok(c.env) {
            lemma_list_stays(rest.env, r.env, key, ms.take(n - 1));
            assert forall|i: int| 0 <= i < n implies slot_filled(
                r.env,
                key,
                (#[trigger] ms.take(n)[i]).name@,
            ) by {
                if i < n - 1 {
                    assert(ms.take(n - 1)[i] == ms.take(n)[i]);
                }
            }
        }
    }
}

/// Filing the methods of a rejected declaration.
proof fn lemma_orphans_filed(c: CheckerV, for_type: Chars, ms: Seq<FunctionDecl>, span: Span)
    ensures
        ({
            let r = orphans_filed(c, for_type, ms, span);
            &&& slot_step(c.env, r.env)
            &&& slots_ok(c.env) ==> list_filled(
                r.env,
                qualified(c.env.current_module, for_type),
                ms,
            )
            &&& same_endpoints(r, c)
        }),
{
    lemma_orphans_filed_n(
        c,
        qualified(c.env.current_module, for_type),
        type_params_of(c.env, for_type),
        ms,
        span,
        ms.len() as int,
    );
    assert(ms.take(ms.len() as int) =~= ms);
}

/// Each method built has the id that was given to its name.
proof fn lemma_methods_built_n(
    env: EnvV,
    st: StateV,
    key: Chars,
    parent: Seq<Chars>,
    ms: Seq<FunctionDecl>,
    n: int,
)
    requires
        0 <= n <= ms.len(),
    ensures
        ({
            let infos = methods_built_n(env, st, key, parent, ms, n).1;
            &&& forall|i: int|
                0 <= i < infos.len() ==> (#[trigger] infos[i]).1.func_id is Some && find(
                    env.pending_user_method_ids,
                    (key, infos[i].0),
                ) == infos[i].1.func_id
            &&& forall|i: int|
                0 <= i < n && holds(
                    env.pending_user_method_ids,
                    (key, (#[trigger] ms[i]).name@),
                ) ==> exists|q: int| 0 <= q < infos.len() && (#[trigger] infos[q]).0 == ms[i].name@
        }),
    decreases n,
{
    if n > 0 {
        lemma_methods_built_n(env, st, key, parent, ms, n - 1);
        let rest = methods_built_n(env, st, key, parent, ms, n - 1).1;
        let infos = methods_built_n(env, st, key, parent, ms, n).1;
        assert forall|i: int|
            0 <= i < n && holds(
                env.pending_user_method_ids,
                (key, (#[trigger] ms[i]).name@),
            ) implies exists|q: int|
            0 <= q < infos.len() && (#[trigger] infos[q]).0 == ms[i].name@ by {
            if i < n - 1 {
                let q = choose|q: int| 0 <= q < rest.len() && (#[trigger] rest[q]).0 == ms[i].name@;
                assert(infos[q] == rest[q]);
            } else {
                assert(infos[rest.len() as int].0 == ms[i].name@);
            }
        }
    }
}

/// One method added to a type.
proof fn lemma_method_added(
    a: EnvV,
    b: EnvV,
    key: Chars,
    name: Chars,
    info: MethodInfoV,
    id: FuncId,
)
    requires
        info.func_id == Some(id),
        find(a.pending_user_method_ids, (key, name)) == Some(id),
        !holds(inner(a.methods, key), name),
        b == (EnvV {
            methods: put_inner(a.methods, key, name, info),
            filled_method_func_ids: filled_with(a.filled_method_func_ids, info.func_id),
            ..a
        }),
    ensures
        slot_step(a, b),
        b.filled_method_func_ids.contains(id),
{
    let fa = a.filled_method_func_ids;
    let fb = b.filled_method_func_ids;
    assert forall|x: FuncId| #[trigger] fa.contains(x) implies fb.contains(x) by {
        let i = choose|i: int| 0 <= i < fa.len() && fa[i] == x;
        assert(fb[i] == x);
    }
    if !fa.contains(id) {
        assert(fb[fa.len() as int] == id);
    }
    if slots_ok(a) {
        lemma_in_tables_grows(a.methods, key, name, info);
        law_put_inner_keeps_distinct(a.methods, key, name, info);
        let p = lemma_put_inner_new(a.methods, key, name, info);
        assert forall|i: int, j: int|
            0 <= i < b.methods.len() && 0 <= j < b.methods[i].1.len() implies match (
        #[trigger] b.methods[i].1[j]).1.func_id {
            Some(id) => claims(b, b.methods[i].0, b.methods[i].1[j].0, id),
            None => b.builtin_local_names.contains(b.methods[i].0),
        } by {
            if i < a.methods.len() && j < a.methods[i].1.len() {
                assert(a.methods[i].1[j] == b.methods[i].1[j]);
            } else {
                assert(b.methods[i].1[j] == (name, info));
            }
        }
        assert forall|i: int, j: int|
            0 <= i < b.orphan_methods.len() && 0 <= j < b.orphan_methods[i].1.len() implies match (
        #[trigger] b.orphan_methods[i].1[j]).1.func_id {
            Some(id) => claims(b, b.orphan_methods[i].0.0, b.orphan_methods[i].1[j].0, id),
            None => false,
        } by {
            assert(a.orphan_methods[i].1[j] == b.orphan_methods[i].1[j]);
        }
        assert forall|x: FuncId| #[trigger] fb.contains(x) implies in_tables(b.methods, x)
            || in_tables(b.orphan_methods, x) by {
            if x != id {
                let i = choose|i: int| 0 <= i < fb.len() && fb[i] == x;
                assert(fa[i] == x);
                assert(fa.contains(x));
            }
        }
    }
}

proof fn lemma_methods_added_n(
    c: CheckerV,
    key: Chars,
    for_type: Chars,
    infos: Seq<(Chars, MethodInfoV)>,
    n: int,
)
    requires
        0 <= n <= infos.len(),
        !c.env.builtin_local_names.contains(key),
        forall|i: int|
            0 <= i < infos.len() ==> (#[trigger] infos[i]).1.func_id is Some && find(
                c.env.pending_user_method_ids,
                (key, infos[i].0),
            ) == infos[i].1.func_id,
    ensures
        ({
            let r = methods_added_n(c, key, for_type, infos, n);
            &&& slot_step(c.env, r.env)
            &&& slots_ok(c.env) ==> forall|i: int|
                0 <= i < n ==> slot_filled(r.env, key, (#[trigger] infos[i]).0)
            &&& same_endpoints(r, c)
        }),
    decreases n,
{
    if n > 0 {
        let rest = methods_added_n(c, key, for_type, infos, n - 1);
        let r = methods_added_n(c, key, for_type, infos, n);
        lemma_methods_added_n(c, key, for_type, infos, n - 1);
        let (name, info) = infos[n - 1];
        let id = info.func_id->0;
        let t = inner(rest.env.methods, key);
        if holds(t, name) {
            assert(r.env == rest.env);
            if slots_ok(c.env) {
                let i = lemma_found(rest.env.methods, key);
                let j = lemma_found(t, name);
                assert(rest.env.methods[i].1[j] == t[j]);
            }
        } else {
            lemma_method_added(rest.env, r.env, key, name, info, id);
            lemma_step_trans(c.env, rest.env, r.env);
        }
        if slots_ok(c.env) {
            assert forall|i: int| 0 <= i < n implies slot_filled(
                r.env,
                key,
                (#[trigger] infos[i]).0,
            ) by {
                if i < n - 1 {
                    assert(slot_filled(rest.env, key, infos[i].0));
                }
            }
        }
    }
}

/// The methods of an `impl` added to its type.
proof fn lemma_methods_added(c: CheckerV, for_type: Chars, ms: Seq<FunctionDecl>)
    requires
        !c.env.builtin_local_names.contains(qualified(c.env.current_module, for_type)),
    ensures
        ({
            let r = methods_added(c, for_type, ms);
            &&& slot_step(c.env, r.env)
            &&& slots_ok(c.env) ==> list_filled(
                r.env,
                qualified(c.env.current_module, for_type),
                ms,
            )
            &&& same_endpoints(r, c)
        }),
{
    let r = methods_added(c, for_type, ms);
    let key = qualified(c.env.current_module, for_type);
    let parent = type_params_of(c.env, for_type);
    let n = ms.len() as int;
    let (s, infos) = methods_built_n(c.env, c.st, key, parent, ms, n);
    let c1 = CheckerV {
        st: s,
        env: EnvV { methods: opened(c.env.methods, key), ..c.env },
        ..c
    };
    lemma_methods_built_n(c.env, c.st, key, parent, ms, n);
    assert(slot_step(c.env, c1.env)) by {
        let a = c.env;
        let b = c1.env;
        if slots_ok(a) {
            if !holds(a.methods, key) {
                assert forall|i: int, j: int| 0 <= i < j < b.methods.len() implies (
                #[trigger] b.methods[i]).0 != (#[trigger] b.methods[j]).0 by {
                    lemma_holds(a.methods, i);
                    assert(b.methods[i] == a.methods[i]);
                }
            }
            assert forall|i: int, j: int|
                0 <= i < b.methods.len() && 0 <= j < b.methods[i].1.len() implies match (
            #[trigger] b.methods[i].1[j]).1.func_id {
                Some(id) => claims(b, b.methods[i].0, b.methods[i].1[j].0, id),
                None => b.builtin_local_names.contains(b.methods[i].0),
            } by {
                assert(i < a.methods.len());
                assert(a.methods[i].1[j] == b.methods[i].1[j]);
            }
            assert forall|i: int, j: int|
                0 <= i < b.orphan_methods.len() && 0 <= j < b.orphan_methods[i].1.len() implies match (
            #[trigger] b.orphan_methods[i].1[j]).1.func_id {
                Some(id) => claims(b, b.orphan_methods[i].0.0, b.orphan_methods[i].1[j].0, id),
                None => false,
            } by {
                assert(a.orphan_methods[i].1[j] == b.orphan_methods[i].1[j]);
            }
            assert forall|x: FuncId| #[trigger]
                b.filled_method_func_ids.contains(x) implies in_tables(b.methods, x) || in_tables(
                b.orphan_methods,
                x,
            ) by {
                assert(a.filled_method_func_ids.contains(x));
                if in_tables(a.methods, x) {
                    let (i, j) = choose|i: int, j: int|
                        0 <= i < a.methods.len() && 0 <= j < a.methods[i].1.len() && (
                        #[trigger] a.methods[i].1[j]).1.func_id == Some(x);
                    assert(b.methods[i].1[j] == a.methods[i].1[j]);
                }
            }
        }
    }
    lemma_methods_added_n(c1, key, for_type, infos, infos.len() as int);
    lemma_step_trans(c.env, c1.env, r.env);
    if slots_ok(c.env) {
        assert forall|i: int| 0 <= i < ms.len() implies slot_filled(
            r.env,
            key,
            (#[trigger] ms[i]).name@,
        ) by {
            if holds(c.env.pending_user_method_ids, (key, ms[i].name@)) {
                let q = choose|q: int|
                    0 <= q < infos.len() && (#[trigger] infos[q]).0 == ms[i].name@;
                assert(slot_filled(r.env, key, infos[q].0));
            }
        }
    }
}

// ── `impl` blocks ────────────────────────────────────────────────────

/// No builtin has a module in front of its name.
pub open spec fn plain_builtins(env: EnvV) -> bool {
    forall|name: Chars, i: int|
        env.builtin_local_names.contains(name) ==> !(#[trigger] separator_at(name, i))
}

/// The key of a type is reserved only if its name is.
proof fn lemma_key_not_reserved(env: EnvV, name: Chars)
    requires
        plain_builtins(env),
        !env.builtin_local_names.contains(name),
    ensures
        !env.builtin_local_names.contains(qualified(env.current_module, name)),
{
    let p = env.current_module;
    if p.len() > 0 && !is_builtin_path(p) {
        reveal_strlit("::");
        let head = join(p, "."@);
        let key = qualified(p, name);
        assert(key[head.len() as int] == ':' && key[head.len() as int + 1] == ':');
        assert(separator_at(key, head.len() as int));
    }
}

/// An `impl` block fills the ids of its methods, accepted or not.
proof fn lemma_impl_registered(
    c: CheckerV,
    for_type: Chars,
    tr: Option<Chars>,
    ms: Seq<FunctionDecl>,
    span: Span,
)
    requires
        plain_builtins(c.env),
    ensures
        ({
            let r = impl_registered(c, for_type, tr, ms, span);
            &&& slot_step(c.env, r.env)
            &&& slots_ok(c.env) ==> list_filled(
                r.env,
                qualified(c.env.current_module, for_type),
                ms,
            )
            &&& same_endpoints(r, c)
        }),
{
    let r = impl_registered(c, for_type, tr, ms, span);
    match impl_obstacle(c.env, for_type) {
        Some(reason) => {
            lemma_orphans_filed(c.error(reason, span), for_type, ms, span);
        },
        None => {
            lemma_key_not_reserved(c.env, for_type);
            lemma_methods_added(c, for_type, ms);
            let added = methods_added(c, for_type, ms);
            if let Some(tr) = tr {
                match find(c.env.traits, qualified(c.env.current_module, tr)) {
                    Some(info) => {
                        lemma_trait_added(added, for_type, tr, info, ms, span);
                        lemma_step_trans(c.env, added.env, r.env);
                        if slots_ok(c.env) {
                            lemma_list_stays(
                                added.env,
                                r.env,
                                qualified(c.env.current_module, for_type),
                                ms,
                            );
                        }
                    },
                    None => {
                        lemma_orphans_filed(
                            c.error("unknown trait `"@ + tr + "`"@, span),
                            for_type,
                            ms,
                            span,
                        );
                    },
                }
            }
        },
    }
}

proof fn lemma_trait_added(
    c: CheckerV,
    for_type: Chars,
    tr: Chars,
    info: TraitInfoV,
    ms: Seq<FunctionDecl>,
    span: Span,
)
    ensures
        slot_step(c.env, trait_added(c, for_type, tr, info, ms, span).env),
        same_endpoints(trait_added(c, for_type, tr, info, ms, span), c),
{
    let a = c.env;
    let b = trait_added(c, for_type, tr, info, ms, span).env;
    lemma_slots_ok_ext(a, b);
}

/// Whether the method tables are in order depends on nothing but them.
pub proof fn lemma_slots_ok_ext(a: EnvV, b: EnvV)
    requires
        a.methods == b.methods,
        a.orphan_methods == b.orphan_methods,
        a.filled_method_func_ids == b.filled_method_func_ids,
        a.pending_user_method_ids == b.pending_user_method_ids,
        a.builtin_local_names == b.builtin_local_names,
    ensures
        slots_ok(a) ==> slots_ok(b),
{
    if slots_ok(a) {
        assert forall|i: int, j: int|
            0 <= i < b.methods.len() && 0 <= j < b.methods[i].1.len() implies match (
        #[trigger] b.methods[i].1[j]).1.func_id {
            Some(id) => claims(b, b.methods[i].0, b.methods[i].1[j].0, id),
            None => b.builtin_local_names.contains(b.methods[i].0),
        } by {
            assert(a.methods[i].1[j] == b.methods[i].1[j]);
        }
        assert forall|i: int, j: int|
            0 <= i < b.orphan_methods.len() && 0 <= j < b.orphan_methods[i].1.len() implies match (
        #[trigger] b.orphan_methods[i].1[j]).1.func_id {
            Some(id) => claims(b, b.orphan_methods[i].0.0, b.orphan_methods[i].1[j].0, id),
            None => false,
        } by {
            assert(a.orphan_methods[i].1[j] == b.orphan_methods[i].1[j]);
        }
        assert forall|x: FuncId| #[trigger]
            b.filled_method_func_ids.contains(x) implies in_tables(b.methods, x) || in_tables(
            b.orphan_methods,
            x,
        ) by {
            assert(a.filled_method_func_ids.contains(x));
        }
    }
}

// ── Types ────────────────────────────────────────────────────────────

/// Whether the ids given to the methods of trait implementations are filled.
pub open spec fn impls_filled(env: EnvV, key: Chars, impls: Seq<InlineTraitImpl>) -> bool {
    forall|i: int| 0 <= i < impls.len() ==> list_filled(env, key, (#[trigger] impls[i]).methods@)
}

proof fn lemma_impls_stay(a: EnvV, b: EnvV, key: Chars, impls: Seq<InlineTraitImpl>)
    requires
        slot_step(a, b),
        impls_filled(a, key, impls),
    ensures
        impls_filled(b, key, impls),
{
    assert forall|i: int| 0 <= i < impls.len() implies list_filled(
        b,
        key,
        (#[trigger] impls[i]).methods@,
    ) by {
        lemma_list_stays(a, b, key, impls[i].methods@);
    }
}

proof fn lemma_inline_orphans_n(
    c: CheckerV,
    for_type: Chars,
    impls: Seq<InlineTraitImpl>,
    n: int,
)
    requires
        0 <= n <= impls.len(),
    ensures
        ({
            let r = inline_orphans_filed_n(c, for_type, impls, n);
            &&& slot_step(c.env, r.env)
            &&& slots_ok(c.env) ==> impls_filled(
                r.env,
                qualified(c.env.current_module, for_type),
                impls.take(n),
            )
            &&& same_endpoints(r, c)
        }),
    decreases n,
{
    if n > 0 {
        let key = qualified(c.env.current_module, for_type);
        let rest = inline_orphans_filed_n(c, for_type, impls, n - 1);
        let r = inline_orphans_filed_n(c, for_type, impls, n);
        lemma_inline_orphans_n(c, for_type, impls, n - 1);
        lemma_orphans_filed(rest, for_type, impls[n - 1].methods@, impls[n - 1].span);
        lemma_step_trans(c.env, rest.env, r.env);
        if slots_ok(c.env) {
            lemma_impls_stay(rest.env, r.env, key, impls.take(n - 1));
            assert forall|i: int| 0 <= i < n implies list_filled(
                r.env,
                key,
                (#[trigger] impls.take(n)[i]).methods@,
            ) by {
                if i < n - 1 {
                    assert(impls.take(n - 1)[i] == impls.take(n)[i]);
                }
            }
        }
    }
}

/// A rejected type fills the ids of the methods inside it.
proof fn lemma_type_orphans(
    c: CheckerV,
    for_type: Chars,
    ms: Seq<FunctionDecl>,
    impls: Seq<InlineTraitImpl>,
    span: Span,
)
    ensures
        ({
            let r = type_orphans_filed(c, for_type, ms, impls, span);
            let key = qualified(c.env.current_module, for_type);
            &&& slot_step(c.env, r.env)
            &&& slots_ok(c.env) ==> list_filled(r.env, key, ms) && impls_filled(r.env, key, impls)
            &&& same_endpoints(r, c)
        }),
{
    let key = qualified(c.env.current_module, for_type);
    let own = orphans_filed(c, for_type, ms, span);
    let r = type_orphans_filed(c, for_type, ms, impls, span);
    lemma_orphans_filed(c, for_type, ms, span);
    lemma_inline_orphans_n(own, for_type, impls, impls.len() as int);
    assert(impls.take(impls.len() as int) =~= impls);
    lemma_step_trans(c.env, own.env, r.env);
    if slots_ok(c.env) {
        lemma_list_stays(own.env, r.env, key, ms);
    }
}

proof fn lemma_inline_impls_n(c: CheckerV, for_type: Chars, impls: Seq<InlineTraitImpl>, n: int)
    requires
        0 <= n <= impls.len(),
        plain_builtins(c.env),
    ensures
        ({
            let r = inline_impls_registered_n(c, for_type, impls, n);
            &&& slot_step(c.env, r.env)
            &&& slots_ok(c.env) ==> impls_filled(
                r.env,
                qualified(c.env.current_module, for_type),
                impls.take(n),
            )
            &&& same_endpoints(r, c)
        }),
    decreases n,
{
    if n > 0 {
        let key = qualified(c.env.current_module, for_type);
        let rest = inline_impls_registered_n(c, for_type, impls, n - 1);
        let r = inline_impls_registered_n(c, for_type, impls, n);
        lemma_inline_impls_n(c, for_type, impls, n - 1);
        lemma_impl_registered(
            rest,
            for_type,
            Some(impls[n - 1].trait_name@),
            impls[n - 1].methods@,
            impls[n - 1].span,
        );
        lemma_step_trans(c.env, rest.env, r.env);
        if slots_ok(c.env) {
            lemma_impls_stay(rest.env, r.env, key, impls.take(n - 1));
            assert forall|i: int| 0 <= i < n implies list_filled(
                r.env,
                key,
                (#[trigger] impls.take(n)[i]).methods@,
            ) by {
                if i < n - 1 {
                    assert(impls.take(n - 1)[i] == impls.take(n)[i]);
                }
            }
        }
    }
}

/// An accepted type fills the ids of the methods inside it.
proof fn lemma_inline_registered(
    c: CheckerV,
    for_type: Chars,
    ms: Seq<FunctionDecl>,
    impls: Seq<InlineTraitImpl>,
    span: Span,
)
    requires
        plain_builtins(c.env),
    ensures
        ({
            let r = inline_registered(c, for_type, ms, impls, span);
            let key = qualified(c.env.current_module, for_type);
            &&& slot_step(c.env, r.env)
            &&& slots_ok(c.env) ==> list_filled(r.env, key, ms) && impls_filled(r.env, key, impls)
            &&& same_endpoints(r, c)
        }),
{
    let key = qualified(c.env.current_module, for_type);
    let own = if ms.len() > 0 {
        impl_registered(c, for_type, None, ms, span)
    } else {
        c
    };
    let r = inline_registered(c, for_type, ms, impls, span);
    if ms.len() > 0 {
        lemma_impl_registered(c, for_type, None, ms, span);
    }
    lemma_inline_impls_n(own, for_type, impls, impls.len() as int);
    assert(impls.take(impls.len() as int) =~= impls);
    lemma_step_trans(c.env, own.env, r.env);
    if slots_ok(c.env) {
        lemma_list_stays(own.env, r.env, key, ms);
    }
}

// ── Declarations ─────────────────────────────────────────────────────

/// If `k` is in `a`, it still stands for the declaration at the same place.
pub open spec fn place_kept<T: Declared>(
    a: Seq<(Chars, T::V)>,
    b: Seq<(Chars, T::V)>,
    k: Chars,
) -> bool {
    match (find(a, k), find(b, k)) {
        (Some(i), Some(j)) => T::span_of(i) == T::span_of(j),
        (Some(_), None) => false,
        (None, _) => true,
    }
}

pub open spec fn places_kept<T: Declared>(a: Seq<(Chars, T::V)>, b: Seq<(Chars, T::V)>) -> bool {
    forall|k: Chars| #[trigger] place_kept::<T>(a, b, k)
}

/// Every name in `a` still stands for the same.
pub open spec fn entries_kept<V>(a: Seq<(Chars, V)>, b: Seq<(Chars, V)>) -> bool {
    forall|k: Chars| #[trigger] holds(a, k) ==> find(b, k) == find(a, k)
}

/// The first declaration of each name stays.
pub open spec fn first_kept(a: EnvV, b: EnvV) -> bool {
    &&& entries_kept(a.functions, b.functions)
    &&& places_kept::<StructInfo<'static>>(a.structs, b.structs)
    &&& places_kept::<EnumInfo>(a.enums, b.enums)
    &&& places_kept::<TraitInfo>(a.traits, b.traits)
    &&& places_kept::<TypeAliasInfo>(a.type_aliases, b.type_aliases)
}

proof fn lemma_places_trans<T: Declared>(
    a: Seq<(Chars, T::V)>,
    b: Seq<(Chars, T::V)>,
    c: Seq<(Chars, T::V)>,
)
    requires
        places_kept::<T>(a, b),
        places_kept::<T>(b, c),
    ensures
        places_kept::<T>(a, c),
{
    assert forall|k: Chars| #[trigger] place_kept::<T>(a, c, k) by {
        assert(place_kept::<T>(a, b, k));
        assert(place_kept::<T>(b, c, k));
    }
}

proof fn lemma_first_trans(a: EnvV, b: EnvV, c: EnvV)
    requires
        first_kept(a, b),
        first_kept(b, c),
    ensures
        first_kept(a, c),
{
    lemma_places_trans::<StructInfo<'static>>(a.structs, b.structs, c.structs);
    lemma_places_trans::<EnumInfo>(a.enums, b.enums, c.enums);
    lemma_places_trans::<TraitInfo>(a.traits, b.traits, c.traits);
    lemma_places_trans::<TypeAliasInfo>(a.type_aliases, b.type_aliases, c.type_aliases);
    assert forall|k: Chars| #[trigger] holds(a.functions, k) implies find(c.functions, k) == find(
        a.functions,
        k,
    ) by {
        assert(holds(b.functions, k));
    }
}

/// An entry that is new, or for a declaration at the same place.
pub proof fn lemma_place_put<T: Declared>(s: Seq<(Chars, T::V)>, key: Chars, v: T::V)
    requires
        find(s, key) matches Some(i) ==> T::span_of(i) == T::span_of(v),
    ensures
        places_kept::<T>(s, put(s, key, v)),
{
    let r = put(s, key, v);
    assert forall|k: Chars| #[trigger] place_kept::<T>(s, r, k) by {
        if k == key {
            law_find_after_put(s, key, v);
        } else {
            law_put_keeps_others(s, key, v, k);
        }
    }
}

/// An entry that is new.
pub proof fn lemma_entry_put<V>(s: Seq<(Chars, V)>, key: Chars, v: V)
    requires
        !holds(s, key),
    ensures
        entries_kept(s, put(s, key, v)),
{
    let r = put(s, key, v);
    assert forall|k: Chars| #[trigger] holds(s, k) implies find(r, k) == find(s, k) by {
        if k != key {
            law_put_keeps_others(s, key, v, k);
        }
    }
}

/// Whether the tables hold what `d` declares in the module `path`, at its
/// place.
pub open spec fn placed(env: EnvV, path: Seq<Chars>, d: Declaration) -> bool {
    match d {
        Declaration::Function(f) => find(env.functions, qualified(path, f.name@)) matches Some(i)
            && i.definition_span == f.name_span,
        Declaration::Struct(s) => find(env.structs, qualified(path, s.name@)) matches Some(i)
            && i.definition_span == s.name_span,
        Declaration::Enum(e) => find(env.enums, qualified(path, e.name@)) matches Some(i)
            && i.definition_span == e.name_span,
        Declaration::Trait(t) => find(env.traits, qualified(path, t.name@)) matches Some(i)
            && i.definition_span == t.name_span,
        Declaration::TypeAlias(t) => find(env.type_aliases, qualified(path, t.name@)) matches Some(
            i,
        ) && i.definition_span == t.name_span,
        _ => true,
    }
}

/// Whether what `d` would declare in the current module is declared at another
/// place.
pub open spec fn occupied(env: EnvV, d: Declaration) -> bool {
    let path = env.current_module;
    match d {
        Declaration::Function(f) => holds(env.functions, qualified(path, f.name@)),
        Declaration::Struct(s) => find(env.structs, qualified(path, s.name@)) matches Some(i)
            && i.definition_span != s.name_span,
        Declaration::Enum(e) => find(env.enums, qualified(path, e.name@)) matches Some(i)
            && i.definition_span != e.name_span,
        Declaration::Trait(t) => find(env.traits, qualified(path, t.name@)) matches Some(i)
            && i.definition_span != t.name_span,
        Declaration::TypeAlias(t) => find(env.type_aliases, qualified(path, t.name@)) matches Some(
            i,
        ) && i.definition_span != t.name_span,
        _ => false,
    }
}

/// The name of what `d` declares.
pub open spec fn declared_name(d: Declaration) -> Chars {
    match d {
        Declaration::Function(f) => f.name@,
        Declaration::Struct(s) => s.name@,
        Declaration::Enum(e) => e.name@,
        Declaration::Trait(t) => t.name@,
        Declaration::TypeAlias(t) => t.name@,
        _ => Seq::empty(),
    }
}

/// What is neither reserved nor declared elsewhere finds its place.
pub open spec fn placed_anew(a: EnvV, b: EnvV, d: Declaration) -> bool {
    !a.builtin_local_names.contains(declared_name(d)) && !occupied(a, d) ==> placed(
        b,
        a.current_module,
        d,
    )
}

/// Registering a declaration changes no id that was given out, gives up no id
/// that is filled, and leaves earlier declarations in place.
pub open spec fn decl_step(a: EnvV, b: EnvV) -> bool {
    &&& b == EnvV {
        functions: b.functions,
        structs: b.structs,
        enums: b.enums,
        traits: b.traits,
        type_aliases: b.type_aliases,
        methods: b.methods,
        orphan_methods: b.orphan_methods,
        filled_method_func_ids: b.filled_method_func_ids,
        trait_impls: b.trait_impls,
        ..a
    }
    &&& forall|id: FuncId| #[trigger]
        a.filled_method_func_ids.contains(id) ==> b.filled_method_func_ids.contains(id)
    &&& slots_ok(a) ==> slots_ok(b)
    &&& first_kept(a, b)
}

pub proof fn lemma_decl_step_trans(a: EnvV, b: EnvV, c: EnvV)
    requires
        decl_step(a, b),
        decl_step(b, c),
    ensures
        decl_step(a, c),
{
    lemma_first_trans(a, b, c);
    assert forall|id: FuncId| #[trigger]
        a.filled_method_func_ids.contains(id) implies c.filled_method_func_ids.contains(id) by {
        assert(b.filled_method_func_ids.contains(id));
    }
}

/// Whether the ids given to the methods in a declaration of the module `path`
/// are filled. A type with the name of a builtin is given none.
pub open spec fn decl_filled(env: EnvV, path: Seq<Chars>, d: Declaration) -> bool {
    match d {
        Declaration::Struct(s) => env.builtin_local_names.contains(s.name@) || (list_filled(
            env,
            qualified(path, s.name@),
            s.methods@,
        ) && impls_filled(env, qualified(path, s.name@), s.trait_impls@)),
        Declaration::Enum(e) => env.builtin_local_names.contains(e.name@) || (list_filled(
            env,
            qualified(path, e.name@),
            e.methods@,
        ) && impls_filled(env, qualified(path, e.name@), e.trait_impls@)),
        Declaration::Impl(i) => list_filled(env, qualified(path, i.for_type@), i.methods@),
        _ => true,
    }
}

pub proof fn lemma_decl_stays(a: EnvV, b: EnvV, path: Seq<Chars>, d: Declaration)
    requires
        a.pending_user_method_ids == b.pending_user_method_ids,
        a.builtin_local_names == b.builtin_local_names,
        forall|id: FuncId| #[trigger]
            a.filled_method_func_ids.contains(id) ==> b.filled_method_func_ids.contains(id),
        decl_filled(a, path, d),
    ensures
        decl_filled(b, path, d),
{
    assert forall|key: Chars, name: Chars| slot_filled(a, key, name) implies #[trigger] slot_filled(
        b,
        key,
        name,
    ) by {}
    assert forall|key: Chars, ms: Seq<FunctionDecl>| list_filled(a, key, ms) implies #[trigger] list_filled(
        b,
        key,
        ms,
    ) by {
        assert forall|i: int| 0 <= i < ms.len() implies slot_filled(
            b,
            key,
            (#[trigger] ms[i]).name@,
        ) by {
            assert(slot_filled(a, key, ms[i].name@));
        }
    }
    assert forall|key: Chars, impls: Seq<InlineTraitImpl>| impls_filled(
        a,
        key,
        impls,
    ) implies #[trigger] impls_filled(b, key, impls) by {
        assert forall|i: int| 0 <= i < impls.len() implies list_filled(
            b,
            key,
            (#[trigger] impls[i]).methods@,
        ) by {
            assert(list_filled(a, key, impls[i].methods@));
        }
    }
}

proof fn lemma_step_is_decl_step(a: EnvV, b: EnvV)
    requires
        slot_step(a, b),
    ensures
        decl_step(a, b),
{
}

pub proof fn lemma_struct_registered(c: CheckerV, s: StructDecl)
    requires
        plain_builtins(c.env),
    ensures
        ({
            let r = struct_registered(c, s);
            &&& decl_step(c.env, r.env)
            &&& slots_ok(c.env) ==> decl_filled(
                r.env,
                c.env.current_module,
                Declaration::Struct(s),
            )
            &&& r.env.functions == c.env.functions
            &&& same_endpoints(r, c)
            &&& placed_anew(c.env, r.env, Declaration::Struct(s))
        }),
{
    let r = struct_registered(c, s);
    let key = qualified(c.env.current_module, s.name@);
    let existing = match find(c.env.structs, key) {
        Some(i) => Some(i.definition_span),
        None => None,
    };
    if c.env.builtin_local_names.contains(s.name@) {
    } else if taken(existing, s.name_span) {
        let c1 = c.error(redefinition("struct"@, s.name@), s.span);
        lemma_type_orphans(c1, s.name@, s.methods@, s.trait_impls@, s.span);
        lemma_step_is_decl_step(c1.env, r.env);
    } else {
        let own = s.type_params.deep_view();
        let s1 = annotations_checked(c.st, s.annotations@, AnnotationTarget::Struct);
        let (s2, fields) = fields_registered_n(
            c.env,
            StateV { type_params: own, ..s1 },
            s.fields@,
            s.fields@.len() as int,
        );
        let s3 = StateV { type_params: s1.type_params, ..s2 };
        let added = StructInfoV {
            definition_span: s.name_span,
            type_params: own,
            fields,
            is_file_bearing: declares_file(s.fields@),
            visibility: s.visibility,
            def_module: c.env.current_module,
        };
        let c1 = CheckerV {
            st: s3.refer(s.name_span, SymbolKindV::Struct, s.name@),
            env: EnvV {
                structs: put(c.env.structs, key, added),
                ..c.env
            },
            ..c
        };
        assert(r == inline_registered(c1, s.name@, s.methods@, s.trait_impls@, s.span));
        lemma_slots_ok_ext(c.env, c1.env);
        lemma_place_put::<StructInfo<'static>>(c.env.structs, key, added);
        assert(decl_step(c.env, c1.env));
        lemma_inline_registered(c1, s.name@, s.methods@, s.trait_impls@, s.span);
        lemma_step_is_decl_step(c1.env, r.env);
        lemma_decl_step_trans(c.env, c1.env, r.env);
        law_find_after_put(c.env.structs, key, added);
        assert(place_kept::<StructInfo<'static>>(c1.env.structs, r.env.structs, key));
    }
}

pub proof fn lemma_enum_registered(c: CheckerV, e: EnumDecl)
    requires
        plain_builtins(c.env),
    ensures
        ({
            let r = enum_registered(c, e);
            &&& decl_step(c.env, r.env)
            &&& slots_ok(c.env) ==> decl_filled(r.env, c.env.current_module, Declaration::Enum(e))
            &&& r.env.functions == c.env.functions
            &&& same_endpoints(r, c)
            &&& placed_anew(c.env, r.env, Declaration::Enum(e))
        }),
{
    let r = enum_registered(c, e);
    let key = qualified(c.env.current_module, e.name@);
    let existing = match find(c.env.enums, key) {
        Some(i) => Some(i.definition_span),
        None => None,
    };
    if c.env.builtin_local_names.contains(e.name@) {
    } else if taken(existing, e.name_span) {
        let c1 = c.error(redefinition("enum"@, e.name@), e.span);
        lemma_type_orphans(c1, e.name@, e.methods@, e.trait_impls@, e.span);
        lemma_step_is_decl_step(c1.env, r.env);
    } else {
        let own = e.type_params.deep_view();
        let s1 = annotations_checked(c.st, e.annotations@, AnnotationTarget::Enum);
        let (s2, variants) = variants_registered_n(
            c.env,
            StateV { type_params: own, ..s1 },
            e.variants@,
            e.variants@.len() as int,
        );
        let s3 = StateV { type_params: s1.type_params, ..s2 };
        let added = EnumInfoV {
            definition_span: e.name_span,
            type_params: own,
            variants,
            visibility: e.visibility,
            def_module: c.env.current_module,
        };
        let c1 = CheckerV {
            st: s3.refer(e.name_span, SymbolKindV::Enum, e.name@),
            env: EnvV {
                enums: put(c.env.enums, key, added),
                ..c.env
            },
            ..c
        };
        assert(r == inline_registered(c1, e.name@, e.methods@, e.trait_impls@, e.span));
        lemma_slots_ok_ext(c.env, c1.env);
        lemma_place_put::<EnumInfo>(c.env.enums, key, added);
        assert(decl_step(c.env, c1.env));
        lemma_inline_registered(c1, e.name@, e.methods@, e.trait_impls@, e.span);
        lemma_step_is_decl_step(c1.env, r.env);
        lemma_decl_step_trans(c.env, c1.env, r.env);
        law_find_after_put(c.env.enums, key, added);
        assert(place_kept::<EnumInfo>(c1.env.enums, r.env.enums, key));
    }
}

/// Registering a declaration fills the ids of the methods in it.
pub proof fn lemma_decl_registered(c: CheckerV, d: Declaration)
    requires
        plain_builtins(c.env),
    ensures
        ({
            let r = decl_registered(c, d);
            &&& decl_step(c.env, r.env)
            &&& slots_ok(c.env) ==> decl_filled(r.env, c.env.current_module, d)
            &&& !(d is Function) ==> r.env.functions == c.env.functions
            &&& same_endpoints(r, c)
        }),
{
    let r = decl_registered(c, d);
    match d {
        Declaration::Function(f) => {
            lemma_slots_ok_ext(c.env, r.env);
            let key = qualified(c.env.current_module, f.name@);
            if !holds(c.env.functions, key) {
                assert forall|info: FunctionInfoV| #[trigger] put(c.env.functions, key, info)
                    == r.env.functions implies entries_kept(
                    c.env.functions,
                    r.env.functions,
                ) by {
                    lemma_entry_put(c.env.functions, key, info);
                }
            }
        },
        Declaration::Struct(s) => {
            lemma_struct_registered(c, s);
        },
        Declaration::Enum(e) => {
            lemma_enum_registered(c, e);
        },
        Declaration::Impl(i) => {
            lemma_impl_registered(
                c,
                i.for_type@,
                i.trait_name.deep_view(),
                i.methods@,
                i.span,
            );
            lemma_step_is_decl_step(c.env, r.env);
        },
        Declaration::Trait(t) => {
            lemma_slots_ok_ext(c.env, r.env);
            let key = qualified(c.env.current_module, t.name@);
            assert forall|info: TraitInfoV| #[trigger] put(c.env.traits, key, info)
                == r.env.traits && (find(c.env.traits, key) matches Some(i)
                ==> i.definition_span == info.definition_span) implies places_kept::<TraitInfo>(
                c.env.traits,
                r.env.traits,
            ) by {
                lemma_place_put::<TraitInfo>(c.env.traits, key, info);
            }
        },
        Declaration::TypeAlias(ta) => {
            lemma_slots_ok_ext(c.env, r.env);
            let key = qualified(c.env.current_module, ta.name@);
            assert forall|info: TypeAliasInfoV| #[trigger] put(c.env.type_aliases, key, info)
                == r.env.type_aliases && (find(c.env.type_aliases, key) matches Some(i)
                ==> i.definition_span == info.definition_span) implies places_kept::<
                TypeAliasInfo,
            >(c.env.type_aliases, r.env.type_aliases) by {
                lemma_place_put::<TypeAliasInfo>(c.env.type_aliases, key, info);
            }
        },
        _ => {},
    }
}

/// Registering the declarations of a module fills the ids of the methods in
/// them.
pub proof fn lemma_decls_registered_n(c: CheckerV, ds: Seq<Declaration>, n: int)
    requires
        0 <= n <= ds.len(),
        plain_builtins(c.env),
    ensures
        ({
            let r = decls_registered_n(c, ds, n);
            &&& decl_step(c.env, r.env)
            &&& slots_ok(c.env) ==> forall|k: int|
                0 <= k < n ==> decl_filled(r.env, c.env.current_module, #[trigger] ds[k])
            &&& same_endpoints(r, c)
        }),
    decreases n,
{
    if n > 0 {
        let rest = decls_registered_n(c, ds, n - 1);
        let r = decls_registered_n(c, ds, n);
        lemma_decls_registered_n(c, ds, n - 1);
        lemma_decl_registered(rest, ds[n - 1]);
        lemma_decl_step_trans(c.env, rest.env, r.env);
        if slots_ok(c.env) {
            assert forall|k: int| 0 <= k < n implies decl_filled(
                r.env,
                c.env.current_module,
                #[trigger] ds[k],
            ) by {
                if k < n - 1 {
                    lemma_decl_stays(rest.env, r.env, c.env.current_module, ds[k]);
                }
            }
        }
    }
}

/// The first declaration of a name wins: what is registered later leaves it in
/// place, whether it is in the same module or in another.
pub proof fn law_first_declaration_wins(c: CheckerV, ds: Seq<Declaration>, n: int)
    requires
        0 <= n <= ds.len(),
        plain_builtins(c.env),
    ensures
        first_kept(c.env, decls_registered_n(c, ds, n).env),
{
    lemma_decls_registered_n(c, ds, n);
}

} // verus!
