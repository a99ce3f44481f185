//! What holds of the tables once everything is registered: every id has
//! exactly one owner.
use crate::ast::Declaration;
use crate::checker::{
    callables, decl_checked, decls_checked_n, file_checked, file_named, file_registered,
    function_total_n, imports_rejected_n, in_module, initial_checker, method_total_n,
    module_callables, module_decls_checked_n, module_decls_registered_n, module_function_ids_n,
    module_method_ids_n, module_types_known_n, modules_checked, modules_named,
    modules_registered, modules_scoped, prepared, same_endpoints, CheckerV,
};
use crate::dense::{
    all_filled, function_keys_n, function_known, functions_claimed, functions_dense,
    lemma_decls_given_filled, lemma_function_ids_n, lemma_functions_in_order,
    lemma_functions_registered_n, lemma_method_decl_ids_n, method_ids_step, methods_dense,
};
use crate::env::{empty_env, EnvV};
use crate::ids::{function_ids_n, method_decl_ids_n};
use crate::info::{EnumInfo, FunctionInfo, StructInfo, TraitInfo, TypeAliasInfo};
use crate::paths::{entry_path, separator_at};
use crate::register::{
    builtin_methods, builtins_registered, decls_registered_n, option_info, result_info,
    type_names_known_n,
};
use crate::scopes::{
    builtin_keys, builtin_keys_n, builtin_names, lemma_module_imports_frame, lemma_scopes_frame,
    scope_built, scopes_built_n, ResolvedSourceModule,
};
use crate::slots::{
    decl_filled, decl_step, lemma_decl_stays, lemma_decl_step_trans, lemma_decls_registered_n,
    place_kept, plain_builtins, slot_filled, slots_ok,
};
use crate::span::FuncId;
use crate::table::{
    distinct, holds, keys, lemma_distinct_found, lemma_put_new, put, tables_distinct,
};
use crate::text::Chars;
use vstd::prelude::*;

verus! {

/// The tables agree with the ids that were given out.
pub open spec fn env_coherent(env: EnvV) -> bool {
    &&& env.user_method_offset == env.functions.len()
    &&& env.pending_function_ids.len() == env.functions.len()
    &&& distinct(env.functions)
    &&& forall|i: int|
        0 <= i < env.functions.len() ==> (#[trigger] env.functions[i]).1.func_id.0 == i
    &&& methods_dense(env)
    &&& slots_ok(env)
    &&& forall|i: int|
        0 <= i < env.pending_user_method_ids.len() ==> env.filled_method_func_ids.contains(
            (#[trigger] env.pending_user_method_ids[i]).1,
        )
    &&& plain_builtins(env)
    &&& holds(env.enums, "Option"@)
    &&& holds(env.enums, "Result"@)
}

/// Nothing but the builtins is registered.
pub open spec fn fresh(env: EnvV) -> bool {
    &&& env.functions.len() == 0
    &&& env.orphan_methods.len() == 0
    &&& env.filled_method_func_ids.len() == 0
    &&& forall|i: int, j: int|
        0 <= i < env.methods.len() && 0 <= j < env.methods[i].1.len() ==> (
        #[trigger] env.methods[i].1[j]).1.func_id is None && env.builtin_local_names.contains(
            env.methods[i].0,
        )
    &&& tables_distinct(env.methods)
    &&& plain_builtins(env)
    &&& holds(env.enums, "Option"@)
    &&& holds(env.enums, "Result"@)
}

proof fn lemma_fresh_ok(env: EnvV)
    requires
        fresh(env),
    ensures
        slots_ok(env),
        functions_claimed(env),
        keys(env.functions) == Seq::<Chars>::empty(),
{
    assert(keys(env.functions) =~= Seq::<Chars>::empty());
    assert(forall|id: FuncId| !(#[trigger] env.filled_method_func_ids.contains(id)));
}

proof fn lemma_no_separator(name: Chars)
    requires
        name == "Option"@ || name == "Result"@,
    ensures
        forall|i: int| !(#[trigger] separator_at(name, i)),
{
    reveal_strlit("Option");
    reveal_strlit("Result");
}

/// The methods of a built-in enum have different names.
proof fn lemma_distinct_builtins(first: Chars, second: Chars)
    requires
        first == "isSome"@ && second == "isNone"@ || first == "isOk"@ && second == "isErr"@,
    ensures
        distinct(builtin_methods(first, second)),
{
    reveal_strlit("isSome");
    reveal_strlit("isNone");
    reveal_strlit("isOk");
    reveal_strlit("isErr");
    reveal_strlit("unwrap");
    reveal_strlit("unwrapOr");
    assert(first[0] == 'i' && second[0] == 'i');
    assert(first[2] != second[2]);
    assert("unwrap"@[0] == 'u' && "unwrapOr"@[0] == 'u');
    assert("unwrap"@.len() != "unwrapOr"@.len());
}

/// The tables before the first declaration.
pub proof fn lemma_prepared()
    ensures
        ({
            let env = prepared(empty_env());
            &&& env == EnvV {
                enums: env.enums,
                methods: env.methods,
                builtin_local_names: seq!["Option"@, "Result"@],
                ..empty_env()
            }
            &&& fresh(env)
        }),
{
    let env = prepared(empty_env());
    let b = builtins_registered(empty_env());
    let o = "Option"@;
    let r = "Result"@;
    assert(o != r) by {
        reveal_strlit("Option");
        reveal_strlit("Result");
        assert(o[0] == 'O');
        assert(r[0] == 'R');
    }
    let e1 = put(empty_env().enums, o, option_info());
    lemma_put_new(empty_env().enums, o, option_info());
    assert(e1 =~= seq![(o, option_info())]);
    crate::table::lemma_position_is(e1, o, 0);
    assert(!holds(e1, r)) by {
        if holds(e1, r) {
            let i = crate::table::lemma_found(e1, r);
            assert(e1[i].0 == o);
        }
    }
    lemma_put_new(e1, r, result_info());
    assert(b.enums =~= seq![(o, option_info()), (r, result_info())]);
    crate::table::lemma_holds(b.enums, 0);
    crate::table::lemma_holds(b.enums, 1);
    let some = builtin_methods("isSome"@, "isNone"@);
    let ok = builtin_methods("isOk"@, "isErr"@);
    let m1 = put(empty_env().methods, o, some);
    lemma_put_new(empty_env().methods, o, some);
    assert(m1 =~= seq![(o, some)]);
    assert(!holds(m1, r)) by {
        if holds(m1, r) {
            let i = crate::table::lemma_found(m1, r);
            assert(m1[i].0 == o);
        }
    }
    lemma_put_new(m1, r, ok);
    assert(b.methods =~= seq![(o, some), (r, ok)]);
    assert(builtin_names(b) =~= seq![o, r]) by {
        reveal_with_fuel(builtin_keys_n, 3);
        assert(builtin_keys::<FunctionInfo<'static>>(Seq::empty(), b.functions)
            =~= Seq::<Chars>::empty());
        assert(builtin_keys::<StructInfo<'static>>(Seq::empty(), b.structs)
            =~= Seq::<Chars>::empty());
        assert(builtin_keys::<EnumInfo>(Seq::empty(), b.enums) =~= seq![o, r]);
        assert(builtin_keys::<TraitInfo>(seq![o, r], b.traits) =~= seq![o, r]);
        assert(builtin_keys::<TypeAliasInfo>(seq![o, r], b.type_aliases) =~= seq![o, r]);
    }
    assert(plain_builtins(env)) by {
        assert forall|name: Chars, i: int|
            env.builtin_local_names.contains(name) implies !(#[trigger] separator_at(
            name,
            i,
        )) by {
            lemma_no_separator(name);
        }
    }
    assert(env.builtin_local_names[0] == o);
    assert(env.builtin_local_names[1] == r);
    assert(tables_distinct(env.methods)) by {
        lemma_distinct_builtins("isSome"@, "isNone"@);
        lemma_distinct_builtins("isOk"@, "isErr"@);
    }
    assert(env.methods[0].1.len() == 4);
    assert(env.methods[1].1.len() == 4);
}

// ── Names and ids ────────────────────────────────────────────────────

pub proof fn lemma_type_names(env: EnvV, ds: Seq<Declaration>, n: int)
    requires
        fresh(env),
    ensures
        ({
            let r = type_names_known_n(env, ds, n);
            &&& r == EnvV { structs: r.structs, enums: r.enums, ..env }
            &&& fresh(r)
        }),
    decreases n,
{
    if 0 < n <= ds.len() {
        lemma_type_names(env, ds, n - 1);
        let rest = type_names_known_n(env, ds, n - 1);
        let r = type_names_known_n(env, ds, n);
        assert forall|k: Chars| #[trigger] holds(rest.enums, k) implies holds(r.enums, k) by {
            let i = crate::table::lemma_found(rest.enums, k);
            assert(r.enums[i] == rest.enums[i]);
            crate::table::lemma_holds(r.enums, i);
        }
    }
}

/// What holds of the ids once all of them are given out.
pub open spec fn ids_given(env: EnvV) -> bool {
    &&& distinct(env.pending_function_ids)
    &&& env.user_method_offset == env.pending_function_ids.len()
    &&& forall|i: int|
        0 <= i < env.pending_function_ids.len() ==> (#[trigger] env.pending_function_ids[i]).1.0
            == i
    &&& methods_dense(env)
}

/// The tables with the ids of the functions, and none of a method yet.
pub proof fn lemma_offset_set(env: EnvV)
    requires
        functions_dense(env),
        env.pending_user_method_ids.len() == 0,
    ensures
        ids_given(EnvV { user_method_offset: env.next_func_id, ..env }),
{
}

/// Two tables with the same ids.
pub open spec fn same_ids(a: EnvV, b: EnvV) -> bool {
    &&& a.pending_function_ids == b.pending_function_ids
    &&& a.pending_user_method_ids == b.pending_user_method_ids
    &&& a.next_func_id == b.next_func_id
    &&& a.user_method_offset == b.user_method_offset
    &&& a.builtin_local_names == b.builtin_local_names
}

/// Registration ends with coherent tables.
proof fn lemma_coherent(named: EnvV, end: EnvV)
    requires
        fresh(named),
        ids_given(named),
        same_ids(named, end),
        slots_ok(end),
        functions_claimed(end),
        keys(end.functions) == keys(end.pending_function_ids),
        all_filled(end, end),
        place_kept::<EnumInfo>(named.enums, end.enums, "Option"@),
        place_kept::<EnumInfo>(named.enums, end.enums, "Result"@),
    ensures
        env_coherent(end),
{
    lemma_functions_in_order(end);
    let p = end.pending_user_method_ids;
    assert forall|i: int| 0 <= i < p.len() implies end.filled_method_func_ids.contains(
        (#[trigger] p[i]).1,
    ) by {
        lemma_distinct_found(p, i);
        assert(holds(p, p[i].0));
        assert(slot_filled(end, p[i].0.0, p[i].0.1));
    }
}

// ── Bodies ───────────────────────────────────────────────────────────

/// Checking bodies leaves the tables alone.
pub proof fn lemma_decls_checked_n(c: CheckerV, ds: Seq<Declaration>, n: int)
    ensures
        decls_checked_n(c, ds, n).env == c.env,
    decreases n,
{
    if 0 < n <= ds.len() {
        lemma_decls_checked_n(c, ds, n - 1);
        reveal(decl_checked);
    }
}

// ── A single file ────────────────────────────────────────────────────

/// Before a single file is registered, its names and ids are known.
pub proof fn lemma_file_named(ds: Seq<Declaration>)
    requires
        callables(ds) <= u32::MAX,
    ensures
        ({
            let named = file_named(initial_checker().env, ds);
            &&& fresh(named)
            &&& named.methods == prepared(initial_checker().env).methods
            &&& forall|k: int|
                0 <= k < ds.len() ==> function_known(
                    named,
                    named.current_module,
                    #[trigger] ds[k],
                )
        }),
{
    let n = ds.len() as int;
    let env = initial_checker().env;
    lemma_prepared();
    let e1 = EnvV { current_module: entry_path(), ..prepared(env) };
    let e2 = scope_built(e1, entry_path(), ds);
    assert(fresh(e2));
    let e3 = type_names_known_n(e2, ds, n);
    lemma_type_names(e2, ds, n);
    let e4 = function_ids_n(e3, ds, n);
    lemma_function_ids_n(e3, ds, n);
    let e5 = EnvV { user_method_offset: e4.next_func_id, ..e4 };
    lemma_offset_set(e4);
    let named = method_decl_ids_n(e5, ds, n);
    lemma_method_decl_ids_n(e5, ds, n);
    assert(named == file_named(env, ds));
    assert forall|k: int| 0 <= k < n implies function_known(
        named,
        named.current_module,
        #[trigger] ds[k],
    ) by {
        assert(function_known(e4, e3.current_module, ds[k]));
    }
}

/// After a single file is registered, the tables are coherent.
proof fn lemma_file_registered(c: CheckerV, ds: Seq<Declaration>)
    requires
        c.env == empty_env(),
        callables(ds) <= u32::MAX,
    ensures
        env_coherent(file_registered(c, ds).env),
        same_endpoints(file_registered(c, ds), c),
{
    let n = ds.len() as int;
    lemma_prepared();
    let e1 = EnvV { current_module: entry_path(), ..prepared(c.env) };
    let e2 = scope_built(e1, entry_path(), ds);
    assert(fresh(e2));
    let e3 = type_names_known_n(e2, ds, n);
    lemma_type_names(e2, ds, n);
    let e4 = function_ids_n(e3, ds, n);
    lemma_function_ids_n(e3, ds, n);
    let e5 = EnvV { user_method_offset: e4.next_func_id, ..e4 };
    lemma_offset_set(e4);
    let named = method_decl_ids_n(e5, ds, n);
    lemma_method_decl_ids_n(e5, ds, n);
    assert(named == file_named(c.env, ds));
    assert(fresh(named));
    lemma_fresh_ok(named);
    let c1 = CheckerV { env: named, st: imports_rejected_n(c.st, ds, n), ..c };
    let r = decls_registered_n(c1, ds, n);
    lemma_decls_registered_n(c1, ds, n);
    assert forall|k: int| 0 <= k < n implies function_known(
        named,
        named.current_module,
        #[trigger] ds[k],
    ) by {
        assert(function_known(e4, e3.current_module, ds[k]));
    }
    lemma_functions_registered_n(c1, ds, n);
    assert(keys(e3.pending_function_ids) =~= Seq::<Chars>::empty());
    assert(all_filled(e5, r.env)) by {
        assert forall|key: (Chars, Chars)| !(#[trigger] holds(e5.pending_user_method_ids, key)) by {
            if holds(e5.pending_user_method_ids, key) {
                let i = crate::table::lemma_found(e5.pending_user_method_ids, key);
            }
        }
    }
    lemma_decls_given_filled(e5, r.env, ds, n);
    lemma_coherent(named, r.env);
}

/// After a single file is checked, the tables are coherent.
pub proof fn lemma_file_coherent(ds: Seq<Declaration>)
    requires
        callables(ds) <= u32::MAX,
    ensures
        env_coherent(file_checked(initial_checker(), ds).env),
        same_endpoints(file_registered(initial_checker(), ds), initial_checker()),
{
    lemma_file_registered(initial_checker(), ds);
    lemma_decls_checked_n(file_registered(initial_checker(), ds), ds, ds.len() as int);
}

// ── Several modules ──────────────────────────────────────────────────

proof fn lemma_module_types(env: EnvV, ms: Seq<ResolvedSourceModule>, n: int)
    requires
        fresh(env),
    ensures
        ({
            let r = module_types_known_n(env, ms, n);
            &&& r == EnvV {
                structs: r.structs,
                enums: r.enums,
                current_module: r.current_module,
                ..env
            }
            &&& fresh(r)
        }),
    decreases n,
{
    if 0 < n <= ms.len() {
        lemma_module_types(env, ms, n - 1);
        let ds = ms[n - 1].program.declarations@;
        lemma_type_names(
            in_module(module_types_known_n(env, ms, n - 1), ms[n - 1].path@),
            ds,
            ds.len() as int,
        );
    }
}

/// The keys of the functions in the first `n` modules.
pub open spec fn module_function_keys_n(
    builtins: Seq<Chars>,
    ms: Seq<ResolvedSourceModule>,
    n: int,
) -> Seq<Chars>
    decreases n,
{
    if n <= 0 || n > ms.len() {
        Seq::empty()
    } else {
        let ds = ms[n - 1].program.declarations@;
        function_keys_n(
            builtins,
            ms[n - 1].path@,
            module_function_keys_n(builtins, ms, n - 1),
            ds,
            ds.len() as int,
        )
    }
}

/// Whether every function in the module has an id.
pub open spec fn module_known(env: EnvV, m: ResolvedSourceModule) -> bool {
    forall|k: int|
        0 <= k < m.program.declarations@.len() ==> function_known(
            env,
            m.path@,
            #[trigger] m.program.declarations@[k],
        )
}

proof fn lemma_module_function_ids(env: EnvV, ms: Seq<ResolvedSourceModule>, n: int)
    requires
        0 <= n <= ms.len(),
        functions_dense(env),
        env.pending_function_ids.len() == 0,
        function_total_n(ms, n) <= u32::MAX,
    ensures
        ({
            let r = module_function_ids_n(env, ms, n);
            &&& r == EnvV {
                pending_function_ids: r.pending_function_ids,
                next_func_id: r.next_func_id,
                current_module: r.current_module,
                ..env
            }
            &&& functions_dense(r)
            &&& r.next_func_id <= function_total_n(ms, n)
            &&& forall|i: int| 0 <= i < n ==> module_known(r, #[trigger] ms[i])
            &&& keys(r.pending_function_ids) == module_function_keys_n(
                env.builtin_local_names,
                ms,
                n,
            )
        }),
    decreases n,
{
    if n > 0 {
        lemma_module_function_ids(env, ms, n - 1);
        let rest = module_function_ids_n(env, ms, n - 1);
        let r = module_function_ids_n(env, ms, n);
        let entered = in_module(rest, ms[n - 1].path@);
        let ds = ms[n - 1].program.declarations@;
        lemma_function_ids_n(entered, ds, ds.len() as int);
        assert forall|i: int| 0 <= i < n implies module_known(r, #[trigger] ms[i]) by {
            if i < n - 1 {
                assert(module_known(rest, ms[i]));
                assert forall|k: int|
                    0 <= k < ms[i].program.declarations@.len() implies function_known(
                    r,
                    ms[i].path@,
                    #[trigger] ms[i].program.declarations@[k],
                ) by {
                    assert(function_known(
                        rest,
                        ms[i].path@,
                        ms[i].program.declarations@[k],
                    ));
                }
            }
        }
    } else {
        assert(keys(env.pending_function_ids) =~= Seq::<Chars>::empty());
    }
}

proof fn lemma_module_method_ids(env: EnvV, ms: Seq<ResolvedSourceModule>, n: int)
    requires
        0 <= n <= ms.len(),
        methods_dense(env),
        env.next_func_id + method_total_n(ms, n) <= u32::MAX,
    ensures
        ({
            let r = module_method_ids_n(env, ms, n);
            method_ids_step(
                in_module(env, r.current_module),
                r,
                method_total_n(ms, n),
            )
        }),
    decreases n,
{
    if n > 0 {
        lemma_module_method_ids(env, ms, n - 1);
        let rest = module_method_ids_n(env, ms, n - 1);
        let ds = ms[n - 1].program.declarations@;
        lemma_method_decl_ids_n(in_module(rest, ms[n - 1].path@), ds, ds.len() as int);
    }
}

/// Whether the ids of the methods in the module are filled.
pub open spec fn module_filled(env: EnvV, m: ResolvedSourceModule) -> bool {
    forall|k: int|
        0 <= k < m.program.declarations@.len() ==> decl_filled(
            env,
            m.path@,
            #[trigger] m.program.declarations@[k],
        )
}

proof fn lemma_module_methods_filled(
    env: EnvV,
    end: EnvV,
    ms: Seq<ResolvedSourceModule>,
    n: int,
)
    requires
        0 <= n <= ms.len(),
        env.pending_user_method_ids.len() == 0,
        end.builtin_local_names == env.builtin_local_names,
        forall|i: int| 0 <= i < n ==> module_filled(end, #[trigger] ms[i]),
    ensures
        all_filled(module_method_ids_n(env, ms, n), end),
        module_method_ids_n(env, ms, n).builtin_local_names == env.builtin_local_names,
    decreases n,
{
    if n > 0 {
        lemma_module_methods_filled(env, end, ms, n - 1);
        let rest = module_method_ids_n(env, ms, n - 1);
        let ds = ms[n - 1].program.declarations@;
        assert(module_filled(end, ms[n - 1]));
        lemma_decls_given_filled(in_module(rest, ms[n - 1].path@), end, ds, ds.len() as int);
    } else {
        assert forall|key: (Chars, Chars)| !(#[trigger] holds(env.pending_user_method_ids, key)) by {
            if holds(env.pending_user_method_ids, key) {
                let i = crate::table::lemma_found(env.pending_user_method_ids, key);
            }
        }
    }
}

proof fn lemma_module_stays(a: EnvV, b: EnvV, m: ResolvedSourceModule)
    requires
        a.pending_user_method_ids == b.pending_user_method_ids,
        a.builtin_local_names == b.builtin_local_names,
        forall|id: FuncId| #[trigger]
            a.filled_method_func_ids.contains(id) ==> b.filled_method_func_ids.contains(id),
        module_filled(a, m),
    ensures
        module_filled(b, m),
{
    assert forall|k: int| 0 <= k < m.program.declarations@.len() implies decl_filled(
        b,
        m.path@,
        #[trigger] m.program.declarations@[k],
    ) by {
        lemma_decl_stays(a, b, m.path@, m.program.declarations@[k]);
    }
}

#[verifier::rlimit(40)]
pub proof fn lemma_modules_registered(c: CheckerV, ms: Seq<ResolvedSourceModule>, n: int)
    requires
        0 <= n <= ms.len(),
        fresh(c.env),
        forall|i: int| 0 <= i < n ==> module_known(c.env, #[trigger] ms[i]),
    ensures
        ({
            let r = module_decls_registered_n(c, ms, n);
            &&& decl_step(in_module(c.env, r.env.current_module), r.env)
            &&& same_endpoints(r, c)
            &&& slots_ok(r.env)
            &&& functions_claimed(r.env)
            &&& forall|i: int| 0 <= i < n ==> module_filled(r.env, #[trigger] ms[i])
            &&& keys(r.env.functions) == module_function_keys_n(c.env.builtin_local_names, ms, n)
        }),
    decreases n,
{
    if n > 0 {
        lemma_modules_registered(c, ms, n - 1);
        let rest = module_decls_registered_n(c, ms, n - 1);
        let r = module_decls_registered_n(c, ms, n);
        let path = ms[n - 1].path@;
        let entered = CheckerV { env: in_module(rest.env, path), ..rest };
        let ds = ms[n - 1].program.declarations@;
        assert(module_known(c.env, ms[n - 1]));
        assert forall|k: int| 0 <= k < ds.len() implies function_known(
            entered.env,
            path,
            #[trigger] ds[k],
        ) by {
            assert(function_known(c.env, path, ds[k]));
        }
        lemma_decls_registered_n(entered, ds, ds.len() as int);
        lemma_functions_registered_n(entered, ds, ds.len() as int);
        crate::slots::lemma_slots_ok_ext(rest.env, entered.env);
        lemma_decl_step_trans(in_module(c.env, path), entered.env, r.env);
        assert forall|i: int| 0 <= i < n implies module_filled(r.env, #[trigger] ms[i]) by {
            if i < n - 1 {
                lemma_module_stays(rest.env, r.env, ms[i]);
            }
        }
    } else {
        lemma_fresh_ok(c.env);
    }
}

pub proof fn lemma_module_bodies(c: CheckerV, ms: Seq<ResolvedSourceModule>, n: int)
    ensures
        ({
            let r = module_decls_checked_n(c, ms, n);
            r.env == in_module(c.env, r.env.current_module)
        }),
    decreases n,
{
    if 0 < n <= ms.len() {
        lemma_module_bodies(c, ms, n - 1);
        let rest = module_decls_checked_n(c, ms, n - 1);
        let ds = ms[n - 1].program.declarations@;
        lemma_decls_checked_n(
            CheckerV { env: in_module(rest.env, ms[n - 1].path@), ..rest },
            ds,
            ds.len() as int,
        );
    }
}

/// Before several modules are registered, their names and ids are known.
pub proof fn lemma_modules_named(ms: Seq<ResolvedSourceModule>)
    requires
        module_callables(ms) <= u32::MAX,
    ensures
        ({
            let scoped = modules_scoped(initial_checker(), ms).env;
            let named = modules_named(scoped, ms);
            &&& fresh(named)
            &&& named.module_scopes == scoped.module_scopes
            &&& named.builtin_local_names == scoped.builtin_local_names
            &&& named.methods == prepared(initial_checker().env).methods
            &&& forall|i: int| 0 <= i < ms.len() ==> module_known(named, #[trigger] ms[i])
        }),
{
    let c = initial_checker();
    let n = ms.len() as int;
    lemma_prepared();
    let scoped = modules_scoped(c, ms);
    lemma_scopes_frame(prepared(c.env), ms, n);
    lemma_module_imports_frame(
        CheckerV {
            env: scopes_built_n(prepared(c.env), ms, n),
            st: crate::checker::module_mains_rejected_n(c.st, ms, n),
            ..c
        },
        ms,
        n,
    );
    let e1 = scoped.env;
    assert(fresh(e1));
    let e2 = module_types_known_n(e1, ms, n);
    lemma_module_types(e1, ms, n);
    let e3 = module_function_ids_n(e2, ms, n);
    lemma_module_function_ids(e2, ms, n);
    let e4 = EnvV { user_method_offset: e3.next_func_id, ..e3 };
    lemma_offset_set(e3);
    let named = module_method_ids_n(e4, ms, n);
    lemma_module_method_ids(e4, ms, n);
    assert(named == modules_named(e1, ms));
    assert forall|i: int| 0 <= i < n implies module_known(named, #[trigger] ms[i]) by {
        assert(module_known(e3, ms[i]));
        assert forall|k: int| 0 <= k < ms[i].program.declarations@.len() implies function_known(
            named,
            ms[i].path@,
            #[trigger] ms[i].program.declarations@[k],
        ) by {
            assert(function_known(e3, ms[i].path@, ms[i].program.declarations@[k]));
        }
    }
}

/// After several modules are checked, the tables are coherent.
pub proof fn lemma_modules_coherent(ms: Seq<ResolvedSourceModule>)
    requires
        module_callables(ms) <= u32::MAX,
    ensures
        env_coherent(modules_checked(initial_checker(), ms).env),
        same_endpoints(modules_registered(initial_checker(), ms), initial_checker()),
{
    let c = initial_checker();
    let n = ms.len() as int;
    lemma_prepared();
    let scoped = modules_scoped(c, ms);
    lemma_scopes_frame(prepared(c.env), ms, n);
    lemma_module_imports_frame(
        CheckerV {
            env: scopes_built_n(prepared(c.env), ms, n),
            st: crate::checker::module_mains_rejected_n(c.st, ms, n),
            ..c
        },
        ms,
        n,
    );
    let e1 = scoped.env;
    assert(fresh(e1));
    let e2 = module_types_known_n(e1, ms, n);
    lemma_module_types(e1, ms, n);
    let e3 = module_function_ids_n(e2, ms, n);
    lemma_module_function_ids(e2, ms, n);
    let e4 = EnvV { user_method_offset: e3.next_func_id, ..e3 };
    lemma_offset_set(e3);
    let named = module_method_ids_n(e4, ms, n);
    lemma_module_method_ids(e4, ms, n);
    assert(named == modules_named(e1, ms));
    lemma_modules_named(ms);
    let c1 = CheckerV { env: named, ..scoped };
    let r = modules_registered(c, ms);
    lemma_modules_registered(c1, ms, n);
    lemma_module_methods_filled(e4, r.env, ms, n);
    lemma_coherent(named, r.env);
    lemma_module_bodies(r, ms, n);
    let done = modules_checked(c, ms);
    crate::slots::lemma_slots_ok_ext(r.env, done.env);
}

} // verus!
