//! Ids are given out without gaps, and registration follows their order.
use crate::ast::{Declaration, FunctionDecl, InlineTraitImpl};
use crate::checker::CheckerV;
use crate::env::EnvV;
use crate::ids::{
    decl_method_ids, function_count_n, function_id_given, function_ids_n, inline_count_n,
    inline_ids_n, method_count_n, method_decl_ids_n, method_id_given, method_ids_n, methods_in,
    type_ids,
};
use crate::paths::qualified;
use crate::register::{decls_registered_n, function_registered};
use crate::slots::{
    decl_filled, impls_filled, lemma_decls_registered_n, list_filled, plain_builtins, slot_filled,
};
use crate::span::FuncId;
use crate::table::{
    distinct, find, holds, keys, law_find_after_put, law_put_keeps_distinct, law_put_keeps_others,
    lemma_keys_hold, lemma_put_new,
};
use crate::text::Chars;
use vstd::prelude::*;

verus! {

// ── Free functions ───────────────────────────────────────────────────

/// The function ids given out so far are the positions of their functions.
pub open spec fn functions_dense(env: EnvV) -> bool {
    &&& distinct(env.pending_function_ids)
    &&& env.next_func_id == env.pending_function_ids.len()
    &&& forall|i: int|
        0 <= i < env.pending_function_ids.len() ==> (#[trigger] env.pending_function_ids[i]).1.0
            == i
}

/// The keys of the functions among the first `n` declarations of a module,
/// behind those in `before`.
pub open spec fn function_keys_n(
    builtins: Seq<Chars>,
    path: Seq<Chars>,
    before: Seq<Chars>,
    ds: Seq<Declaration>,
    n: int,
) -> Seq<Chars>
    decreases n,
{
    if n <= 0 || n > ds.len() {
        before
    } else {
        let rest = function_keys_n(builtins, path, before, ds, n - 1);
        match ds[n - 1] {
            Declaration::Function(f) => if builtins.contains(f.name@) || rest.contains(
                qualified(path, f.name@),
            ) {
                rest
            } else {
                rest.push(qualified(path, f.name@))
            },
            _ => rest,
        }
    }
}

/// Whether the function declared by `d` in the module `path`, if any, has an
/// id.
pub open spec fn function_known(env: EnvV, path: Seq<Chars>, d: Declaration) -> bool {
    match d {
        Declaration::Function(f) => env.builtin_local_names.contains(f.name@) || holds(
            env.pending_function_ids,
            qualified(path, f.name@),
        ),
        _ => true,
    }
}

proof fn lemma_function_id_given(env: EnvV, name: Chars)
    requires
        functions_dense(env),
        env.next_func_id < u32::MAX,
    ensures
        ({
            let r = function_id_given(env, name);
            let key = qualified(env.current_module, name);
            &&& r == EnvV {
                pending_function_ids: r.pending_function_ids,
                next_func_id: r.next_func_id,
                ..env
            }
            &&& functions_dense(r)
            &&& r.next_func_id <= env.next_func_id + 1
            &&& holds(r.pending_function_ids, key)
            &&& forall|k: Chars|
                holds(env.pending_function_ids, k) ==> #[trigger] holds(r.pending_function_ids, k)
            &&& keys(r.pending_function_ids) == if keys(env.pending_function_ids).contains(key) {
                keys(env.pending_function_ids)
            } else {
                keys(env.pending_function_ids).push(key)
            }
        }),
{
    let r = function_id_given(env, name);
    let key = qualified(env.current_module, name);
    let p = env.pending_function_ids;
    lemma_keys_hold(p, key);
    if !holds(p, key) {
        let id = FuncId(env.next_func_id);
        lemma_put_new(p, key, id);
        law_put_keeps_distinct(p, key, id);
        law_find_after_put(p, key, id);
        assert forall|k: Chars| holds(p, k) implies #[trigger] holds(r.pending_function_ids, k) by {
            if k != key {
                law_put_keeps_others(p, key, id, k);
            }
        }
        assert(keys(r.pending_function_ids) =~= keys(p).push(key));
    }
}

/// Giving ids to the functions of a module.
pub proof fn lemma_function_ids_n(env: EnvV, ds: Seq<Declaration>, n: int)
    requires
        0 <= n <= ds.len(),
        functions_dense(env),
        env.next_func_id + function_count_n(ds, n) <= u32::MAX,
    ensures
        ({
            let r = function_ids_n(env, ds, n);
            &&& r == EnvV {
                pending_function_ids: r.pending_function_ids,
                next_func_id: r.next_func_id,
                ..env
            }
            &&& functions_dense(r)
            &&& r.next_func_id <= env.next_func_id + function_count_n(ds, n)
            &&& forall|k: int|
                0 <= k < n ==> function_known(r, env.current_module, #[trigger] ds[k])
            &&& forall|k: Chars|
                holds(env.pending_function_ids, k) ==> #[trigger] holds(r.pending_function_ids, k)
            &&& keys(r.pending_function_ids) == function_keys_n(
                env.builtin_local_names,
                env.current_module,
                keys(env.pending_function_ids),
                ds,
                n,
            )
        }),
    decreases n,
{
    if n > 0 {
        let rest = function_ids_n(env, ds, n - 1);
        let r = function_ids_n(env, ds, n);
        lemma_function_ids_n(env, ds, n - 1);
        if let Declaration::Function(f) = ds[n - 1] {
            if !rest.builtin_local_names.contains(f.name@) {
                lemma_function_id_given(rest, f.name@);
            }
        }
        assert forall|k: int| 0 <= k < n implies function_known(
            r,
            env.current_module,
            #[trigger] ds[k],
        ) by {
            if k < n - 1 {
                assert(function_known(rest, env.current_module, ds[k]));
            }
        }
    }
}

/// Every function in the table has the id that was given to its key.
pub open spec fn functions_claimed(env: EnvV) -> bool {
    forall|i: int|
        0 <= i < env.functions.len() ==> find(
            env.pending_function_ids,
            (#[trigger] env.functions[i]).0,
        ) == Some(env.functions[i].1.func_id)
}

/// Registering the functions of a module follows the order of the ids.
pub proof fn lemma_functions_registered_n(c: CheckerV, ds: Seq<Declaration>, n: int)
    requires
        0 <= n <= ds.len(),
        plain_builtins(c.env),
        functions_claimed(c.env),
        forall|k: int|
            0 <= k < n ==> function_known(c.env, c.env.current_module, #[trigger] ds[k]),
    ensures
        ({
            let r = decls_registered_n(c, ds, n);
            &&& functions_claimed(r.env)
            &&& keys(r.env.functions) == function_keys_n(
                c.env.builtin_local_names,
                c.env.current_module,
                keys(c.env.functions),
                ds,
                n,
            )
        }),
    decreases n,
{
    if n > 0 {
        let rest = decls_registered_n(c, ds, n - 1);
        let r = decls_registered_n(c, ds, n);
        let d = ds[n - 1];
        lemma_functions_registered_n(c, ds, n - 1);
        lemma_decls_registered_n(c, ds, n - 1);
        lemma_decls_registered_n(c, ds, n);
        crate::slots::lemma_decl_registered(rest, d);
        if let Declaration::Function(f) = d {
            let key = qualified(c.env.current_module, f.name@);
            assert(function_known(c.env, c.env.current_module, d));
            lemma_keys_hold(rest.env.functions, key);
            if !c.env.builtin_local_names.contains(f.name@) && !holds(rest.env.functions, key) {
                let id = find(c.env.pending_function_ids, key)->0;
                let info = find(r.env.functions, key)->0;
                let added = function_registered(rest, f).env.functions;
                lemma_put_new(rest.env.functions, key, added.last().1);
                assert(added.last().1.func_id == id);
                assert(keys(added) =~= keys(rest.env.functions).push(key));
                assert forall|i: int| 0 <= i < added.len() implies find(
                    r.env.pending_function_ids,
                    (#[trigger] added[i]).0,
                ) == Some(added[i].1.func_id) by {
                    if i < rest.env.functions.len() {
                        assert(added[i] == rest.env.functions[i]);
                    }
                }
            }
        } else {
            assert(r.env.functions == rest.env.functions);
        }
    }
}

/// Once all functions are registered, the one at each position has the
/// position as its id.
pub proof fn lemma_functions_in_order(env: EnvV)
    requires
        distinct(env.pending_function_ids),
        forall|i: int|
            0 <= i < env.pending_function_ids.len() ==> (#[trigger] env.pending_function_ids[i]).1.0
                == i,
        functions_claimed(env),
        keys(env.functions) == keys(env.pending_function_ids),
    ensures
        env.functions.len() == env.pending_function_ids.len(),
        distinct(env.functions),
        forall|i: int|
            0 <= i < env.functions.len() ==> (#[trigger] env.functions[i]).1.func_id.0 == i,
{
    let p = env.pending_function_ids;
    let f = env.functions;
    assert(keys(f).len() == f.len());
    assert(keys(p).len() == p.len());
    assert forall|i: int| 0 <= i < f.len() implies (#[trigger] f[i]).0 == p[i].0 by {
        assert(keys(f)[i] == keys(p)[i]);
    }
    assert forall|i: int| 0 <= i < f.len() implies (#[trigger] f[i]).1.func_id.0 == i by {
        crate::table::lemma_distinct_found(p, i);
    }
    assert forall|i: int, j: int| 0 <= i < j < f.len() implies (#[trigger] f[i]).0 != (
    #[trigger] f[j]).0 by {
        assert(p[i].0 != p[j].0);
    }
}

// ── Methods ──────────────────────────────────────────────────────────

/// The method ids given out so far follow the function ids without a gap.
pub open spec fn methods_dense(env: EnvV) -> bool {
    let p = env.pending_user_method_ids;
    &&& distinct(p)
    &&& env.next_func_id == env.user_method_offset + p.len()
    &&& forall|i: int| 0 <= i < p.len() ==> (#[trigger] p[i]).1.0 == env.user_method_offset + i
}

/// Giving ids to methods touches nothing else, and takes none back.
pub open spec fn method_ids_step(a: EnvV, b: EnvV, count: nat) -> bool {
    &&& b == EnvV {
        pending_user_method_ids: b.pending_user_method_ids,
        next_func_id: b.next_func_id,
        ..a
    }
    &&& methods_dense(b)
    &&& a.next_func_id <= b.next_func_id <= a.next_func_id + count
}

proof fn lemma_method_id_given(env: EnvV, for_type: Chars, name: Chars)
    requires
        methods_dense(env),
        env.next_func_id < u32::MAX,
    ensures
        method_ids_step(env, method_id_given(env, for_type, name), 1),
{
    let key = (qualified(env.current_module, for_type), name);
    let p = env.pending_user_method_ids;
    if !holds(p, key) {
        let id = FuncId(env.next_func_id);
        lemma_put_new(p, key, id);
        law_put_keeps_distinct(p, key, id);
    }
}

proof fn lemma_method_ids_n(env: EnvV, for_type: Chars, ms: Seq<FunctionDecl>, n: int)
    requires
        0 <= n <= ms.len(),
        methods_dense(env),
        env.next_func_id + n <= u32::MAX,
    ensures
        method_ids_step(env, method_ids_n(env, for_type, ms, n), n as nat),
    decreases n,
{
    if n > 0 {
        lemma_method_ids_n(env, for_type, ms, n - 1);
        lemma_method_id_given(method_ids_n(env, for_type, ms, n - 1), for_type, ms[n - 1].name@);
    }
}

proof fn lemma_inline_ids_n(env: EnvV, for_type: Chars, impls: Seq<InlineTraitImpl>, n: int)
    requires
        0 <= n <= impls.len(),
        methods_dense(env),
        env.next_func_id + inline_count_n(impls, n) <= u32::MAX,
    ensures
        method_ids_step(env, inline_ids_n(env, for_type, impls, n), inline_count_n(impls, n)),
    decreases n,
{
    if n > 0 {
        lemma_inline_ids_n(env, for_type, impls, n - 1);
        let ms = impls[n - 1].methods@;
        lemma_method_ids_n(
            inline_ids_n(env, for_type, impls, n - 1),
            for_type,
            ms,
            ms.len() as int,
        );
    }
}

proof fn lemma_decl_method_ids(env: EnvV, d: Declaration)
    requires
        methods_dense(env),
        env.next_func_id + methods_in(d) <= u32::MAX,
    ensures
        method_ids_step(env, decl_method_ids(env, d), methods_in(d)),
{
    match d {
        Declaration::Struct(s) => {
            lemma_method_ids_n(env, s.name@, s.methods@, s.methods@.len() as int);
            lemma_inline_ids_n(
                method_ids_n(env, s.name@, s.methods@, s.methods@.len() as int),
                s.name@,
                s.trait_impls@,
                s.trait_impls@.len() as int,
            );
        },
        Declaration::Enum(e) => {
            lemma_method_ids_n(env, e.name@, e.methods@, e.methods@.len() as int);
            lemma_inline_ids_n(
                method_ids_n(env, e.name@, e.methods@, e.methods@.len() as int),
                e.name@,
                e.trait_impls@,
                e.trait_impls@.len() as int,
            );
        },
        Declaration::Impl(i) => {
            lemma_method_ids_n(env, i.for_type@, i.methods@, i.methods@.len() as int);
        },
        _ => {},
    }
}

/// Giving ids to the methods of a module.
pub proof fn lemma_method_decl_ids_n(env: EnvV, ds: Seq<Declaration>, n: int)
    requires
        0 <= n <= ds.len(),
        methods_dense(env),
        env.next_func_id + method_count_n(ds, n) <= u32::MAX,
    ensures
        method_ids_step(env, method_decl_ids_n(env, ds, n), method_count_n(ds, n)),
    decreases n,
{
    if n > 0 {
        lemma_method_decl_ids_n(env, ds, n - 1);
        lemma_decl_method_ids(method_decl_ids_n(env, ds, n - 1), ds[n - 1]);
    }
}

// ── Every id of a method is filled ───────────────────────────────────

/// Whether every id that `given` holds is filled in `end`.
pub open spec fn all_filled(given: EnvV, end: EnvV) -> bool {
    forall|key: (Chars, Chars)| #[trigger]
        holds(given.pending_user_method_ids, key) ==> slot_filled(end, key.0, key.1)
}

proof fn lemma_given_filled(env: EnvV, end: EnvV, for_type: Chars, name: Chars)
    requires
        all_filled(env, end),
        slot_filled(end, qualified(env.current_module, for_type), name),
    ensures
        all_filled(method_id_given(env, for_type, name), end),
{
    let p = env.pending_user_method_ids;
    let r = method_id_given(env, for_type, name);
    let key = (qualified(env.current_module, for_type), name);
    assert forall|k: (Chars, Chars)| #[trigger]
        holds(r.pending_user_method_ids, k) implies slot_filled(end, k.0, k.1) by {
        if k != key && !holds(p, key) {
            law_put_keeps_others(p, key, FuncId(env.next_func_id), k);
        }
        if k != key {
            assert(holds(p, k));
        }
    }
}

proof fn lemma_list_given_filled(
    env: EnvV,
    end: EnvV,
    for_type: Chars,
    ms: Seq<FunctionDecl>,
    n: int,
)
    requires
        0 <= n <= ms.len(),
        all_filled(env, end),
        list_filled(end, qualified(env.current_module, for_type), ms),
    ensures
        all_filled(method_ids_n(env, for_type, ms, n), end),
        method_ids_n(env, for_type, ms, n).current_module == env.current_module,
        method_ids_n(env, for_type, ms, n).builtin_local_names == env.builtin_local_names,
    decreases n,
{
    if n > 0 {
        lemma_list_given_filled(env, end, for_type, ms, n - 1);
        assert(slot_filled(end, qualified(env.current_module, for_type), ms[n - 1].name@));
        lemma_given_filled(
            method_ids_n(env, for_type, ms, n - 1),
            end,
            for_type,
            ms[n - 1].name@,
        );
    }
}

proof fn lemma_inline_given_filled(
    env: EnvV,
    end: EnvV,
    for_type: Chars,
    impls: Seq<InlineTraitImpl>,
    n: int,
)
    requires
        0 <= n <= impls.len(),
        all_filled(env, end),
        impls_filled(end, qualified(env.current_module, for_type), impls),
    ensures
        all_filled(inline_ids_n(env, for_type, impls, n), end),
        inline_ids_n(env, for_type, impls, n).current_module == env.current_module,
        inline_ids_n(env, for_type, impls, n).builtin_local_names == env.builtin_local_names,
    decreases n,
{
    if n > 0 {
        lemma_inline_given_filled(env, end, for_type, impls, n - 1);
        let ms = impls[n - 1].methods@;
        assert(list_filled(end, qualified(env.current_module, for_type), ms));
        lemma_list_given_filled(
            inline_ids_n(env, for_type, impls, n - 1),
            end,
            for_type,
            ms,
            ms.len() as int,
        );
    }
}

proof fn lemma_type_given_filled(
    env: EnvV,
    end: EnvV,
    for_type: Chars,
    ms: Seq<FunctionDecl>,
    impls: Seq<InlineTraitImpl>,
)
    requires
        all_filled(env, end),
        env.builtin_local_names.contains(for_type) || (list_filled(
            end,
            qualified(env.current_module, for_type),
            ms,
        ) && impls_filled(end, qualified(env.current_module, for_type), impls)),
    ensures
        all_filled(type_ids(env, for_type, ms, impls), end),
        type_ids(env, for_type, ms, impls).current_module == env.current_module,
        type_ids(env, for_type, ms, impls).builtin_local_names == env.builtin_local_names,
{
    if !env.builtin_local_names.contains(for_type) {
        lemma_list_given_filled(env, end, for_type, ms, ms.len() as int);
        lemma_inline_given_filled(
            method_ids_n(env, for_type, ms, ms.len() as int),
            end,
            for_type,
            impls,
            impls.len() as int,
        );
    }
}

/// If the methods of all declarations are filled, so is every id that was
/// given out for them.
pub proof fn lemma_decls_given_filled(env: EnvV, end: EnvV, ds: Seq<Declaration>, n: int)
    requires
        0 <= n <= ds.len(),
        all_filled(env, end),
        end.builtin_local_names == env.builtin_local_names,
        forall|k: int|
            0 <= k < n ==> decl_filled(end, env.current_module, #[trigger] ds[k]),
    ensures
        all_filled(method_decl_ids_n(env, ds, n), end),
        method_decl_ids_n(env, ds, n).current_module == env.current_module,
        method_decl_ids_n(env, ds, n).builtin_local_names == env.builtin_local_names,
    decreases n,
{
    if n > 0 {
        lemma_decls_given_filled(env, end, ds, n - 1);
        let rest = method_decl_ids_n(env, ds, n - 1);
        let d = ds[n - 1];
        assert(decl_filled(end, env.current_module, d));
        match d {
            Declaration::Struct(s) => {
                lemma_type_given_filled(rest, end, s.name@, s.methods@, s.trait_impls@);
            },
            Declaration::Enum(e) => {
                lemma_type_given_filled(rest, end, e.name@, e.methods@, e.trait_impls@);
            },
            Declaration::Impl(i) => {
                lemma_list_given_filled(
                    rest,
                    end,
                    i.for_type@,
                    i.methods@,
                    i.methods@.len() as int,
                );
            },
            _ => {},
        }
    }
}

} // verus!
