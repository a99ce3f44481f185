//! What holds of every product of the analysis.
use crate::ast::Declaration;
use crate::checker::CheckerV;
use crate::coherence::env_coherent;
use crate::env::EnvV;
use crate::info::{FunctionInfoV, MethodInfoV};
use crate::resolved::{
    builtins_n, enum_count_n, enums_listed_n, function_from, function_ids_by_name_n, functions_n,
    indexed_n, inverted, inverted_n, listed, method_among_from, method_id_at, method_with_id,
    method_with_id_from, module_built, named_enums_n, named_functions_n, named_structs_n,
    named_traits_n, numbered, struct_count_n, structs_listed_n, trait_count_n, traits_listed_n,
    type_builtins_n, type_ids_fit, type_indexed_n, user_methods_n, ResolvedModuleV,
};
use crate::slots::in_tables;
use crate::span::{EnumId, FuncId, Indexed, StructId};
use crate::table::{
    distinct, find, find_inner, holds, inner, law_find_after_put_inner,
    law_put_inner_keeps_distinct, law_put_inner_keeps_others,    lemma_distinct_found, lemma_find_take, lemma_found, lemma_holds, put_inner, tables_distinct,
};
use crate::text::Chars;
use vstd::prelude::*;

verus! {

// ── Functions ────────────────────────────────────────────────────────

proof fn lemma_function_from(fs: Seq<(Chars, FunctionInfoV)>, id: FuncId, i: int)
    requires
        0 <= i <= id.0 < fs.len(),
        forall|k: int| 0 <= k < fs.len() ==> (#[trigger] fs[k]).1.func_id.0 == k,
    ensures
        function_from(fs, id, i) == Some(fs[id.0 as int].1),
    decreases id.0 - i,
{
    assert(fs[i].1.func_id.0 == i);
    if i < id.0 {
        lemma_function_from(fs, id, i + 1);
    } else {
        assert(fs[i].1.func_id == id);
    }
}

proof fn lemma_functions_n(env: EnvV, n: int)
    requires
        0 <= n <= env.functions.len() <= u32::MAX,
        forall|k: int|
            0 <= k < env.functions.len() ==> (#[trigger] env.functions[k]).1.func_id.0 == k,
    ensures
        functions_n(env, n) == Seq::new(n as nat, |i: int| env.functions[i].1),
        function_ids_by_name_n(env.functions, n) == Seq::new(
            n as nat,
            |i: int| (env.functions[i].0, env.functions[i].1.func_id),
        ),
    decreases n,
{
    if n > 0 {
        lemma_functions_n(env, n - 1);
        lemma_function_from(env.functions, FuncId((n - 1) as u32), 0);
    }
    assert(functions_n(env, n) =~= Seq::new(n as nat, |i: int| env.functions[i].1));
    assert(function_ids_by_name_n(env.functions, n) =~= Seq::new(
        n as nat,
        |i: int| (env.functions[i].0, env.functions[i].1.func_id),
    ));
}

// ── Methods ──────────────────────────────────────────────────────────

proof fn lemma_method_with_id_from(t: Seq<(Chars, MethodInfoV)>, id: FuncId, i: int)
    requires
        0 <= i <= t.len(),
    ensures
        match method_with_id_from(t, id, i) {
            Some(m) => exists|j: int|
                i <= j < t.len() && (#[trigger] t[j]).1 == m && m.func_id == Some(id),
            None => forall|j: int| i <= j < t.len() ==> (#[trigger] t[j]).1.func_id != Some(id),
        },
    decreases t.len() - i,
{
    if i < t.len() && t[i].1.func_id != Some(id) {
        lemma_method_with_id_from(t, id, i + 1);
    }
}

proof fn lemma_method_among_from<K>(
    ts: Seq<(K, Seq<(Chars, MethodInfoV)>)>,
    id: FuncId,
    i: int,
)
    requires
        0 <= i <= ts.len(),
    ensures
        match method_among_from(ts, id, i) {
            Some(m) => exists|a: int, j: int|
                i <= a < ts.len() && 0 <= j < ts[a].1.len() && (#[trigger] ts[a].1[j]).1 == m
                    && m.func_id == Some(id),
            None => forall|a: int, j: int|
                i <= a < ts.len() && 0 <= j < ts[a].1.len() ==> (
                #[trigger] ts[a].1[j]).1.func_id != Some(id),
        },
    decreases ts.len() - i,
{
    if i < ts.len() {
        lemma_method_with_id_from(ts[i].1, id, 0);
        if let Some(m) = method_with_id_from(ts[i].1, id, 0) {
            let j = choose|j: int|
                0 <= j < ts[i].1.len() && (#[trigger] ts[i].1[j]).1 == m && m.func_id == Some(id);
            assert(ts[i].1[j].1 == m);
        } else {
            lemma_method_among_from(ts, id, i + 1);
        }
    }
}

/// A filled id has a method, and the method has the id.
proof fn lemma_method_with_id(env: EnvV, id: FuncId)
    ensures
        in_tables(env.methods, id) || in_tables(env.orphan_methods, id) ==> method_with_id(
            env,
            id,
        ) is Some,
        method_with_id(env, id) matches Some(m) ==> m.func_id == Some(id),
{
    lemma_method_among_from(env.methods, id, 0);
    lemma_method_among_from(env.orphan_methods, id, 0);
}

proof fn lemma_user_methods_n(env: EnvV, n: int)
    requires
        env_coherent(env),
        0 <= n <= env.pending_user_method_ids.len(),
    ensures
        user_methods_n(env, n) == Seq::new(
            n as nat,
            |i: int| method_with_id(env, method_id_at(env, i))->0,
        ),
        forall|i: int|
            0 <= i < n ==> #[trigger] method_id_at(env, i) == env.pending_user_method_ids[i].1
                && method_with_id(env, method_id_at(env, i)) is Some,
    decreases n,
{
    if n > 0 {
        lemma_user_methods_n(env, n - 1);
        let p = env.pending_user_method_ids;
        let id = method_id_at(env, n - 1);
        assert(p[n - 1].1.0 == env.user_method_offset + (n - 1));
        assert(id == p[n - 1].1);
        assert(env.filled_method_func_ids.contains(id));
        lemma_method_with_id(env, id);
    }
    assert(user_methods_n(env, n) =~= Seq::new(
        n as nat,
        |i: int| method_with_id(env, method_id_at(env, i))->0,
    ));
}

// ── The index of the methods ─────────────────────────────────────────

/// The id of a method in the tables, if the method is there and has one.
pub open spec fn id_in(ms: Seq<(Chars, Seq<(Chars, MethodInfoV)>)>, key: Chars, name: Chars) -> Option<
    FuncId,
> {
    match find_inner(ms, key, name) {
        Some(m) => m.func_id,
        None => None,
    }
}

/// A method in the tables, if it is there and has no id.
pub open spec fn builtin_in(
    ms: Seq<(Chars, Seq<(Chars, MethodInfoV)>)>,
    key: Chars,
    name: Chars,
) -> Option<MethodInfoV> {
    match find_inner(ms, key, name) {
        Some(m) => if m.func_id is None {
            Some(m)
        } else {
            None
        },
        None => None,
    }
}

proof fn lemma_type_indexed_n(
    index: Seq<(Chars, Seq<(Chars, FuncId)>)>,
    builtins: Seq<(Chars, Seq<(Chars, MethodInfoV)>)>,
    key: Chars,
    t: Seq<(Chars, MethodInfoV)>,
    n: int,
)
    requires
        distinct(t),
        0 <= n <= t.len(),
    ensures
        tables_distinct(index) ==> tables_distinct(type_indexed_n(index, key, t, n)),
        tables_distinct(builtins) ==> tables_distinct(type_builtins_n(builtins, key, t, n)),
        forall|k: Chars, name: Chars|
            #[trigger] find_inner(type_indexed_n(index, key, t, n), k, name) == if k == key {
                match find(t.take(n), name) {
                    Some(m) => match m.func_id {
                        Some(id) => Some(id),
                        None => find_inner(index, k, name),
                    },
                    None => find_inner(index, k, name),
                }
            } else {
                find_inner(index, k, name)
            },
        forall|k: Chars, name: Chars|
            #[trigger] find_inner(type_builtins_n(builtins, key, t, n), k, name) == if k == key {
                match find(t.take(n), name) {
                    Some(m) => match m.func_id {
                        Some(_) => find_inner(builtins, k, name),
                        None => Some(m),
                    },
                    None => find_inner(builtins, k, name),
                }
            } else {
                find_inner(builtins, k, name)
            },
    decreases n,
{
    if n > 0 {
        lemma_type_indexed_n(index, builtins, key, t, n - 1);
        let (last, m) = t[n - 1];
        let a = type_indexed_n(index, key, t, n - 1);
        let b = type_builtins_n(builtins, key, t, n - 1);
        assert forall|name: Chars| #[trigger] find(t.take(n), name) == if last == name {
            Some(m)
        } else {
            find(t.take(n - 1), name)
        } by {
            lemma_find_take(t, n, name);
        }
        assert(find(t.take(n - 1), last) is None) by {
            if holds(t.take(n - 1), last) {
                let i = lemma_found(t.take(n - 1), last);
                assert(t[i].0 == t[n - 1].0);
            }
        }
        if let Some(id) = m.func_id {
            if tables_distinct(index) {
                law_put_inner_keeps_distinct(a, key, last, id);
            }
            law_find_after_put_inner(a, key, last, id);
            assert forall|k: Chars, name: Chars| (k, name) != (key, last) implies #[trigger] find_inner(
                put_inner(a, key, last, id),
                k,
                name,
            ) == find_inner(a, k, name) by {
                law_put_inner_keeps_others(a, key, last, id, (k, name));
            }
        } else {
            if tables_distinct(builtins) {
                law_put_inner_keeps_distinct(b, key, last, m);
            }
            law_find_after_put_inner(b, key, last, m);
            assert forall|k: Chars, name: Chars| (k, name) != (key, last) implies #[trigger] find_inner(
                put_inner(b, key, last, m),
                k,
                name,
            ) == find_inner(b, k, name) by {
                law_put_inner_keeps_others(b, key, last, m, (k, name));
            }
        }
    } else {
        assert(t.take(0) =~= Seq::<(Chars, MethodInfoV)>::empty());
    }
}

/// The index gives the id of each method that has one, and the built-in
/// methods are those that have none.
proof fn lemma_indexed_n(ms: Seq<(Chars, Seq<(Chars, MethodInfoV)>)>, n: int)
    requires
        tables_distinct(ms),
        0 <= n <= ms.len(),
    ensures
        tables_distinct(indexed_n(ms, n)),
        tables_distinct(builtins_n(ms, n)),
        forall|k: Chars, name: Chars| #[trigger]
            find_inner(indexed_n(ms, n), k, name) == id_in(ms.take(n), k, name),
        forall|k: Chars, name: Chars| #[trigger]
            find_inner(builtins_n(ms, n), k, name) == builtin_in(ms.take(n), k, name),
    decreases n,
{
    if n > 0 {
        lemma_indexed_n(ms, n - 1);
        let (key, t) = ms[n - 1];
        let a = indexed_n(ms, n - 1);
        let b = builtins_n(ms, n - 1);
        lemma_type_indexed_n(a, b, key, t, t.len() as int);
        assert(t.take(t.len() as int) =~= t);
        assert forall|k: Chars| #[trigger] inner(ms.take(n), k) == if k == key {
            t
        } else {
            inner(ms.take(n - 1), k)
        } by {
            lemma_find_take(ms, n, k);
        }
        assert(find(ms.take(n - 1), key) is None) by {
            if holds(ms.take(n - 1), key) {
                let i = lemma_found(ms.take(n - 1), key);
                assert(ms[i].0 == ms[n - 1].0);
            }
        }
        assert(inner(ms.take(n - 1), key) =~= Seq::<(Chars, MethodInfoV)>::empty());
    } else {
        assert(ms.take(0) =~= Seq::<(Chars, Seq<(Chars, MethodInfoV)>)>::empty());
    }
}

// ── Types ────────────────────────────────────────────────────────────

/// What holds of the list of a kind of type: it says what the table says, and
/// no name comes twice.
pub open spec fn list_ok<V>(list: Seq<(Chars, V)>, table: Seq<(Chars, V)>) -> bool {
    distinct(list) && forall|i: int|
        0 <= i < list.len() ==> find(table, (#[trigger] list[i]).0) == Some(list[i].1)
}

proof fn lemma_listed<V>(list: Seq<(Chars, V)>, table: Seq<(Chars, V)>, name: Chars)
    requires
        list_ok(list, table),
    ensures
        ({
            let r = listed(list, table, name);
            &&& list_ok(r, table)
            &&& list.len() <= r.len() <= list.len() + 1
            &&& forall|i: int| 0 <= i < list.len() ==> r[i] == #[trigger] list[i]
            &&& holds(table, name) ==> holds(r, name)
            &&& forall|k: Chars| #[trigger] holds(list, k) ==> holds(r, k)
            &&& forall|k: Chars| k != name && #[trigger] holds(r, k) ==> holds(list, k)
        }),
{
    let r = listed(list, table, name);
    if holds(table, name) && !holds(list, name) {
        assert(r[list.len() as int].0 == name);
        lemma_holds(r, list.len() as int);
        assert forall|i: int, j: int| 0 <= i < j < r.len() implies (#[trigger] r[i]).0 != (
        #[trigger] r[j]).0 by {
            assert(r[i] == list[i]);
            lemma_holds(list, i);
            if j < list.len() {
                assert(r[j] == list[j]);
            }
        }
        assert forall|i: int| 0 <= i < r.len() implies find(table, (#[trigger] r[i]).0) == Some(
            r[i].1,
        ) by {
            if i < list.len() {
                assert(r[i] == list[i]);
            }
        }
        assert forall|k: Chars| #[trigger] holds(list, k) implies holds(r, k) by {
            let i = lemma_found(list, k);
            assert(r[i] == list[i]);
            lemma_holds(r, i);
        }
        assert forall|k: Chars| k != name && #[trigger] holds(r, k) implies holds(list, k) by {
            let i = lemma_found(r, k);
            assert(r[i] == list[i]);
            lemma_holds(list, i);
        }
    }
}

/// Whether a declaration is a struct called `name`.
pub open spec fn is_struct(d: Declaration, name: Chars) -> bool {
    match d {
        Declaration::Struct(s) => s.name@ == name,
        _ => false,
    }
}

/// Whether one of the first `n` declarations is a struct called `name`.
pub open spec fn declares_struct(ds: Seq<Declaration>, n: int, name: Chars) -> bool {
    exists|k: int| 0 <= k < n && #[trigger] is_struct(ds[k], name)
}

/// Whether a declaration is an enum called `name`.
pub open spec fn is_enum(d: Declaration, name: Chars) -> bool {
    match d {
        Declaration::Enum(e) => e.name@ == name,
        _ => false,
    }
}

/// Whether one of the first `n` declarations is an enum called `name`.
pub open spec fn declares_enum(ds: Seq<Declaration>, n: int, name: Chars) -> bool {
    exists|k: int| 0 <= k < n && #[trigger] is_enum(ds[k], name)
}

/// Whether a declaration is a trait called `name`.
pub open spec fn is_trait(d: Declaration, name: Chars) -> bool {
    match d {
        Declaration::Trait(t) => t.name@ == name,
        _ => false,
    }
}

/// Whether one of the first `n` declarations is a trait called `name`.
pub open spec fn declares_trait(ds: Seq<Declaration>, n: int, name: Chars) -> bool {
    exists|k: int| 0 <= k < n && #[trigger] is_trait(ds[k], name)
}

proof fn lemma_structs_listed(env: EnvV, ds: Seq<Declaration>, n: int)
    requires
        0 <= n <= ds.len(),
    ensures
        list_ok(structs_listed_n(env, ds, n), env.structs),
        structs_listed_n(env, ds, n).len() <= struct_count_n(ds, n),
        forall|name: Chars| #[trigger]
            holds(structs_listed_n(env, ds, n), name) <==> holds(env.structs, name)
                && declares_struct(ds, n, name),
    decreases n,
{
    let r = structs_listed_n(env, ds, n);
    if n > 0 {
        lemma_structs_listed(env, ds, n - 1);
        let rest = structs_listed_n(env, ds, n - 1);
        if let Declaration::Struct(s) = ds[n - 1] {
            lemma_listed(rest, env.structs, s.name@);
        }
        assert forall|name: Chars| #[trigger] holds(r, name) <==> holds(env.structs, name)
            && declares_struct(ds, n, name) by {
            if holds(r, name) {
                let i = lemma_found(r, name);
            }
            let last = is_struct(ds[n - 1], name);
            assert(holds(rest, name) <==> holds(env.structs, name)
                && declares_struct(ds, n - 1, name));
            if declares_struct(ds, n - 1, name) {
                let k = choose|k: int| 0 <= k < n - 1 && #[trigger] is_struct(ds[k], name);
                assert(is_struct(ds[k], name));
            }
            if declares_struct(ds, n, name) && !last {
                let k = choose|k: int| 0 <= k < n && #[trigger] is_struct(ds[k], name);
                assert(k < n - 1);
            }
        }
    }
}

proof fn lemma_traits_listed(env: EnvV, ds: Seq<Declaration>, n: int)
    requires
        0 <= n <= ds.len(),
    ensures
        list_ok(traits_listed_n(env, ds, n), env.traits),
        traits_listed_n(env, ds, n).len() <= trait_count_n(ds, n),
        forall|name: Chars| #[trigger]
            holds(traits_listed_n(env, ds, n), name) <==> holds(env.traits, name)
                && declares_trait(ds, n, name),
    decreases n,
{
    let r = traits_listed_n(env, ds, n);
    if n > 0 {
        lemma_traits_listed(env, ds, n - 1);
        let rest = traits_listed_n(env, ds, n - 1);
        if let Declaration::Trait(t) = ds[n - 1] {
            lemma_listed(rest, env.traits, t.name@);
        }
        assert forall|name: Chars| #[trigger] holds(r, name) <==> holds(env.traits, name)
            && declares_trait(ds, n, name) by {
            if holds(r, name) {
                let i = lemma_found(r, name);
            }
            let last = is_trait(ds[n - 1], name);
            assert(holds(rest, name) <==> holds(env.traits, name)
                && declares_trait(ds, n - 1, name));
            if declares_trait(ds, n - 1, name) {
                let k = choose|k: int| 0 <= k < n - 1 && #[trigger] is_trait(ds[k], name);
                assert(is_trait(ds[k], name));
            }
            if declares_trait(ds, n, name) && !last {
                let k = choose|k: int| 0 <= k < n && #[trigger] is_trait(ds[k], name);
                assert(k < n - 1);
            }
        }
    }
}

proof fn lemma_enums_listed(env: EnvV, ds: Seq<Declaration>, n: int)
    requires
        0 <= n <= ds.len(),
        holds(env.enums, "Option"@),
        holds(env.enums, "Result"@),
    ensures
        list_ok(enums_listed_n(env, ds, n), env.enums),
        2 <= enums_listed_n(env, ds, n).len() <= enum_count_n(ds, n) + 2,
        enums_listed_n(env, ds, n)[0].0 == "Option"@,
        enums_listed_n(env, ds, n)[1].0 == "Result"@,
        forall|name: Chars| #[trigger]
            holds(enums_listed_n(env, ds, n), name) <==> holds(env.enums, name) && (name
                == "Option"@ || name == "Result"@ || declares_enum(ds, n, name)),
    decreases n,
{
    let r = enums_listed_n(env, ds, n);
    if n > 0 {
        lemma_enums_listed(env, ds, n - 1);
        let rest = enums_listed_n(env, ds, n - 1);
        assert(rest[0] == rest[0] && rest[1] == rest[1]);
        if let Declaration::Enum(e) = ds[n - 1] {
            lemma_listed(rest, env.enums, e.name@);
        }
        assert forall|name: Chars| #[trigger] holds(r, name) <==> holds(env.enums, name) && (name
            == "Option"@ || name == "Result"@ || declares_enum(ds, n, name)) by {
            if holds(r, name) {
                let i = lemma_found(r, name);
            }
            let last = is_enum(ds[n - 1], name);
            assert(holds(rest, name) <==> holds(env.enums, name) && (name == "Option"@ || name == "Result"@ || declares_enum(
                ds,
                n - 1,
                name,
            )));
            if declares_enum(ds, n - 1, name) {
                let k = choose|k: int| 0 <= k < n - 1 && #[trigger] is_enum(ds[k], name);
                assert(is_enum(ds[k], name));
            }
            if declares_enum(ds, n, name) && !last {
                let k = choose|k: int| 0 <= k < n && #[trigger] is_enum(ds[k], name);
                assert(k < n - 1);
            }
        }
    } else {
        let none = Seq::empty();
        let one = listed(none, env.enums, "Option"@);
        assert(list_ok(none, env.enums));
        lemma_listed(none, env.enums, "Option"@);
        lemma_listed(one, env.enums, "Result"@);
        assert("Option"@ != "Result"@) by {
            reveal_strlit("Option");
            reveal_strlit("Result");
            assert("Option"@[0] == 'O');
            assert("Result"@[0] == 'R');
        }
        let first = lemma_found(one, "Option"@);
        assert(one.len() == 1);
        let second = lemma_found(r, "Result"@);
        assert(r[0] == one[0]);
        assert forall|name: Chars| #[trigger] holds(r, name) <==> holds(env.enums, name) && (name
            == "Option"@ || name == "Result"@) by {
            if holds(r, name) {
                let i = lemma_found(r, name);
                assert(find(env.enums, r[i].0) is Some);
            }
            assert(holds(one, "Option"@));
        }
    }
}

// ── The whole product ────────────────────────────────────────────────

/// Ids, positions and names agree in the product of coherent tables.
pub proof fn law_product_is_coherent(c: CheckerV, ds: Seq<Declaration>)
    requires
        env_coherent(c.env),
        type_ids_fit(ds),
    ensures
        module_built(c, ds).coherent(),
{
    let env = c.env;
    let m = module_built(c, ds);
    let n = ds.len() as int;
    lemma_functions_n(env, env.functions.len() as int);
    lemma_structs_listed(env, ds, n);
    lemma_enums_listed(env, ds, n);
    lemma_traits_listed(env, ds, n);
    let p = env.pending_user_method_ids;
    lemma_user_methods_n(env, p.len() as int);
    lemma_indexed_n(env.methods, env.methods.len() as int);
    assert(env.methods.take(env.methods.len() as int) =~= env.methods);
    assert(numbered(m.function_by_name, m.functions.len())) by {
        let f = m.function_by_name;
        assert forall|i: int, j: int| 0 <= i < j < f.len() implies (#[trigger] f[i]).0 != (
        #[trigger] f[j]).0 by {
            assert(env.functions[i].0 != env.functions[j].0);
        }
        assert forall|i: int| 0 <= i < f.len() implies (#[trigger] f[i]).1.position() == i by {
            assert(env.functions[i].1.func_id.0 == i);
        }
    }
    assert forall|i: int| 0 <= i < m.functions.len() implies (
    #[trigger] m.functions[i]).func_id.0 == i by {
        assert(env.functions[i].1.func_id.0 == i);
    }
    assert(numbered(m.struct_by_name, m.structs.len())) by {
        let l = structs_listed_n(env, ds, n);
        let f = m.struct_by_name;
        assert forall|i: int, j: int| 0 <= i < j < f.len() implies (#[trigger] f[i]).0 != (
        #[trigger] f[j]).0 by {
            assert(l[i].0 != l[j].0);
        }
    }
    assert(numbered(m.enum_by_name, m.enums.len())) by {
        let l = enums_listed_n(env, ds, n);
        let f = m.enum_by_name;
        assert forall|i: int, j: int| 0 <= i < j < f.len() implies (#[trigger] f[i]).0 != (
        #[trigger] f[j]).0 by {
            assert(l[i].0 != l[j].0);
        }
    }
    assert(numbered(m.trait_by_name, m.traits.len())) by {
        let l = traits_listed_n(env, ds, n);
        let f = m.trait_by_name;
        assert forall|i: int, j: int| 0 <= i < j < f.len() implies (#[trigger] f[i]).0 != (
        #[trigger] f[j]).0 by {
            assert(l[i].0 != l[j].0);
        }
    }
    assert forall|i: int| 0 <= i < m.user_methods.len() implies match (
    #[trigger] m.user_methods[i]).func_id {
        Some(id) => id.0 == m.user_method_offset + i,
        None => false,
    } by {
        let id = method_id_at(env, i);
        lemma_method_with_id(env, id);
        assert(p[i].1.0 == env.user_method_offset + i);
    }
    assert forall|k: Chars, name: Chars| match #[trigger] m.method_id(k, name) {
        Some(id) => m.user_method_offset <= id.0 < m.user_method_offset + m.user_methods.len(),
        None => true,
    } by {
        assert(find_inner(m.method_index, k, name) == id_in(env.methods, k, name));
        if let Some(id) = m.method_id(k, name) {
            let i = lemma_claimed(env, k, name);
        }
    }
    assert forall|k: Chars, name: Chars| match #[trigger] find_inner(
        m.builtin_methods,
        k,
        name,
    ) {
        Some(info) => info.func_id is None && m.method_id(k, name) is None,
        None => true,
    } by {
        assert(find_inner(m.method_index, k, name) == id_in(env.methods, k, name));
    }
}

/// The position of the id that was given to a method.
proof fn lemma_claimed(env: EnvV, key: Chars, name: Chars) -> (i: int)
    requires
        env_coherent(env),
        id_in(env.methods, key, name) is Some,
    ensures
        0 <= i < env.pending_user_method_ids.len(),
        env.pending_user_method_ids[i] == ((key, name), id_in(env.methods, key, name)->0),
        env.pending_user_method_ids[i].1.0 == env.user_method_offset + i,
{
    let t = inner(env.methods, key);
    let a = lemma_found(env.methods, key);
    let b = lemma_found(t, name);
    assert(env.methods[a].1[b] == t[b]);
    let p = env.pending_user_method_ids;
    let i = lemma_found(p, (key, name));
    assert(p[i].1.0 == env.user_method_offset + i);
    i
}

/// A method is found in the product under the names that it has in the tables.
pub proof fn law_methods_found(c: CheckerV, ds: Seq<Declaration>, key: Chars, name: Chars)
    requires
        env_coherent(c.env),
    ensures
        module_built(c, ds).method_named(key, name) == find_inner(c.env.methods, key, name),
{
    let env = c.env;
    let m = module_built(c, ds);
    lemma_indexed_n(env.methods, env.methods.len() as int);
    assert(env.methods.take(env.methods.len() as int) =~= env.methods);
    assert(find_inner(m.method_index, key, name) == id_in(env.methods, key, name));
    assert(find_inner(m.builtin_methods, key, name) == builtin_in(env.methods, key, name));
    if let Some(id) = id_in(env.methods, key, name) {
        let p = env.pending_user_method_ids;
        let i = lemma_claimed(env, key, name);
        lemma_user_methods_n(env, p.len() as int);
        assert(method_id_at(env, i) == id);
        let t = inner(env.methods, key);
        let a = lemma_found(env.methods, key);
        let b = lemma_found(t, name);
        assert(env.methods[a].1[b] == t[b]);
        lemma_method_among_from(env.methods, id, 0);
        let got = method_among_from(env.methods, id, 0)->0;
        let (x, y) = choose|x: int, y: int|
            0 <= x < env.methods.len() && 0 <= y < env.methods[x].1.len() && (
            #[trigger] env.methods[x].1[y]).1 == got && got.func_id == Some(id);
        assert(env.methods[x].1[y].1 == got);
        let other = lemma_found(p, (env.methods[x].0, env.methods[x].1[y].0));
        assert(p[other].1.0 == env.user_method_offset + other);
        assert(other == i);
        lemma_distinct_found(env.methods, x);
        lemma_distinct_found(env.methods[x].1, y);
    }
}

/// In a coherent product every name stands for something.
pub proof fn law_coherent_is_wf(m: ResolvedModuleV)
    requires
        m.coherent(),
    ensures
        m.wf(),
{
    assert forall|i: int, j: int|
        0 <= i < m.method_index.len() && 0 <= j < m.method_index[i].1.len() implies m.user_method_offset
        <= (#[trigger] m.method_index[i].1[j]).1.0 < m.user_method_offset
        + m.user_methods.len() by {
        lemma_distinct_found(m.method_index, i);
        lemma_distinct_found(m.method_index[i].1, j);
        assert(m.method_id(m.method_index[i].0, m.method_index[i].1[j].0) is Some);
    }
}

/// A function is found in the product under its key in the tables.
pub proof fn law_functions_found(c: CheckerV, ds: Seq<Declaration>, name: Chars)
    requires
        env_coherent(c.env),
    ensures
        module_built(c, ds).function_named(name) == find(c.env.functions, name),
{
    let fs = c.env.functions;
    let m = module_built(c, ds);
    let f = m.function_by_name;
    lemma_functions_n(c.env, fs.len() as int);
    assert(distinct(f)) by {
        assert forall|i: int, j: int| 0 <= i < j < f.len() implies (#[trigger] f[i]).0 != (
        #[trigger] f[j]).0 by {
            assert(fs[i].0 != fs[j].0);
        }
    }
    if holds(fs, name) {
        let i = lemma_found(fs, name);
        assert(f[i].0 == name);
        lemma_distinct_found(f, i);
        lemma_distinct_found(fs, i);
    } else if holds(f, name) {
        let i = lemma_found(f, name);
        assert(fs[i].0 == name);
        lemma_holds(fs, i);
    }
}

/// The names of a list stand for its entries.
proof fn lemma_list_named<V, Id: Indexed>(
    list: Seq<(Chars, V)>,
    table: Seq<(Chars, V)>,
    names: Seq<(Chars, Id)>,
    name: Chars,
)
    requires
        list_ok(list, table),
        names.len() == list.len(),
        forall|i: int|
            0 <= i < list.len() ==> (#[trigger] names[i]).0 == list[i].0 && names[i].1.position()
                == i,
    ensures
        match find(names, name) {
            Some(id) => holds(list, name) && 0 <= id.position() < list.len()
                && list[id.position()].0 == name && find(table, name) == Some(
                list[id.position()].1,
            ),
            None => !holds(list, name),
        },
{
    if holds(names, name) {
        let i = lemma_found(names, name);
        assert(list[i].0 == name);
        lemma_holds(list, i);
        assert(find(table, list[i].0) == Some(list[i].1));
    } else if holds(list, name) {
        let i = lemma_found(list, name);
        assert(names[i].0 == name);
        lemma_holds(names, i);
    }
}

/// A struct of the entry module is found in the product as in the tables.
pub proof fn law_structs_found(c: CheckerV, ds: Seq<Declaration>, name: Chars)
    requires
        type_ids_fit(ds),
    ensures
        module_built(c, ds).struct_named(name) == if declares_struct(ds, ds.len() as int, name) {
            find(c.env.structs, name)
        } else {
            None
        },
{
    let list = structs_listed_n(c.env, ds, ds.len() as int);
    lemma_structs_listed(c.env, ds, ds.len() as int);
    assert(holds(list, name) <==> holds(c.env.structs, name) && declares_struct(
        ds,
        ds.len() as int,
        name,
    ));
    lemma_list_named(list, c.env.structs, module_built(c, ds).struct_by_name, name);
}

/// An enum of the entry module, and `Option` and `Result`, are found in the
/// product as in the tables.
pub proof fn law_enums_found(c: CheckerV, ds: Seq<Declaration>, name: Chars)
    requires
        env_coherent(c.env),
        type_ids_fit(ds),
    ensures
        module_built(c, ds).enum_named(name) == if name == "Option"@ || name == "Result"@
            || declares_enum(ds, ds.len() as int, name) {
            find(c.env.enums, name)
        } else {
            None
        },
{
    let list = enums_listed_n(c.env, ds, ds.len() as int);
    lemma_enums_listed(c.env, ds, ds.len() as int);
    assert(holds(list, name) <==> holds(c.env.enums, name) && (name == "Option"@ || name
        == "Result"@ || declares_enum(ds, ds.len() as int, name)));
    lemma_list_named(list, c.env.enums, module_built(c, ds).enum_by_name, name);
}

/// A trait of the entry module is found in the product as in the tables.
pub proof fn law_traits_found(c: CheckerV, ds: Seq<Declaration>, name: Chars)
    requires
        type_ids_fit(ds),
    ensures
        module_built(c, ds).trait_named(name) == if declares_trait(ds, ds.len() as int, name) {
            find(c.env.traits, name)
        } else {
            None
        },
{
    let list = traits_listed_n(c.env, ds, ds.len() as int);
    lemma_traits_listed(c.env, ds, ds.len() as int);
    assert(holds(list, name) <==> holds(c.env.traits, name) && declares_trait(
        ds,
        ds.len() as int,
        name,
    ));
    lemma_list_named(list, c.env.traits, module_built(c, ds).trait_by_name, name);
}

// ── Names by id ──────────────────────────────────────────────────────

proof fn lemma_inverted_n<Id: Indexed>(names: Seq<(Chars, Id)>, len: nat, n: int)
    requires
        numbered(names, len),
        0 <= n <= len,
    ensures
        inverted_n(names, len, n) == Seq::new(
            len,
            |i: int| if i < n {
                Some(names[i].0)
            } else {
                None
            },
        ),
    decreases n,
{
    if n > 0 {
        lemma_inverted_n(names, len, n - 1);
        assert(names[n - 1].1.position() == n - 1);
    }
    assert(inverted_n(names, len, n) =~= Seq::new(
        len,
        |i: int| if i < n {
            Some(names[i].0)
        } else {
            None
        },
    ));
}

/// Turning a table of names around gives each name at the position of its id.
pub proof fn law_names_inverted<Id: Indexed>(names: Seq<(Chars, Id)>, len: nat)
    requires
        numbered(names, len),
    ensures
        inverted(names, len) == Seq::new(len, |i: int| Some(names[i].0)),
{
    lemma_inverted_n(names, len, len as int);
    assert(inverted(names, len) =~= Seq::new(len, |i: int| Some(names[i].0)));
}

/// Listing the functions with their names leaves none out, and goes by id.
pub proof fn law_functions_listed(m: ResolvedModuleV, n: int)
    requires
        m.coherent(),
        0 <= n <= m.functions.len(),
    ensures
        named_functions_n(m, n) == Seq::new(
            n as nat,
            |i: int| (m.function_by_name[i].0, FuncId(i as u32), m.functions[i]),
        ),
    decreases n,
{
    law_names_inverted(m.function_by_name, m.functions.len());
    if n > 0 {
        law_functions_listed(m, n - 1);
    }
    assert(named_functions_n(m, n) =~= Seq::new(
        n as nat,
        |i: int| (m.function_by_name[i].0, FuncId(i as u32), m.functions[i]),
    ));
}

/// Listing the structs with their names leaves none out, and goes by id.
pub proof fn law_structs_listed(m: ResolvedModuleV, n: int)
    requires
        m.coherent(),
        0 <= n <= m.structs.len(),
    ensures
        named_structs_n(m, n) == Seq::new(
            n as nat,
            |i: int| (m.struct_by_name[i].0, StructId(i as u32), m.structs[i]),
        ),
    decreases n,
{
    law_names_inverted(m.struct_by_name, m.structs.len());
    if n > 0 {
        law_structs_listed(m, n - 1);
    }
    assert(named_structs_n(m, n) =~= Seq::new(
        n as nat,
        |i: int| (m.struct_by_name[i].0, StructId(i as u32), m.structs[i]),
    ));
}

/// Listing the enums with their names leaves none out, and goes by id.
pub proof fn law_enums_listed(m: ResolvedModuleV, n: int)
    requires
        m.coherent(),
        0 <= n <= m.enums.len(),
    ensures
        named_enums_n(m, n) == Seq::new(
            n as nat,
            |i: int| (m.enum_by_name[i].0, EnumId(i as u32), m.enums[i]),
        ),
    decreases n,
{
    law_names_inverted(m.enum_by_name, m.enums.len());
    if n > 0 {
        law_enums_listed(m, n - 1);
    }
    assert(named_enums_n(m, n) =~= Seq::new(
        n as nat,
        |i: int| (m.enum_by_name[i].0, EnumId(i as u32), m.enums[i]),
    ));
}

/// Listing the traits with their names leaves none out, and goes by id.
pub proof fn law_traits_listed(m: ResolvedModuleV, n: int)
    requires
        m.coherent(),
        0 <= n <= m.traits.len(),
    ensures
        named_traits_n(m, n) == Seq::new(
            n as nat,
            |i: int| (m.trait_by_name[i].0, m.traits[i]),
        ),
    decreases n,
{
    law_names_inverted(m.trait_by_name, m.traits.len());
    if n > 0 {
        law_traits_listed(m, n - 1);
    }
    assert(named_traits_n(m, n) =~= Seq::new(
        n as nat,
        |i: int| (m.trait_by_name[i].0, m.traits[i]),
    ));
}

} // verus!
