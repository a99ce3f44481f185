//! Methods listed under their names, and aliases followed to their ends.
use crate::env::{named, EnvV};
use crate::info::MethodInfoV;
use crate::register::{alias_names, law_alias_search_ends, reaches_alias};
use crate::resolved::{
    methods_inverted_n, methods_inverted_type_n, named_methods_n, ResolvedModuleV,
};
use crate::span::FuncId;
use crate::table::{inner, lemma_distinct_found, lemma_found};
use crate::text::Chars;
use crate::types::{mentions, Ty};
use vstd::prelude::*;

verus! {

// ── Methods by id ────────────────────────────────────────────────────

/// Whether the method index gives the method the id at a position.
pub open spec fn indexed_at(m: ResolvedModuleV, names: (Chars, Chars), p: int) -> bool {
    m.method_id(names.0, names.1) matches Some(id) && id.0 == m.user_method_offset + p
}

/// Whether every name that was filed is the name of the method there.
pub open spec fn truly_named(m: ResolvedModuleV, out: Seq<Option<(Chars, Chars)>>) -> bool {
    &&& out.len() == m.user_methods.len()
    &&& forall|p: int|
        0 <= p < out.len() ==> (#[trigger] out[p] matches Some(names) ==> indexed_at(m, names, p))
}

proof fn lemma_entry(m: ResolvedModuleV, a: int, b: int)
    requires
        m.coherent(),
        0 <= a < m.method_index.len(),
        0 <= b < m.method_index[a].1.len(),
    ensures
        m.method_id(m.method_index[a].0, m.method_index[a].1[b].0) == Some(m.method_index[a].1[b].1),
        m.user_method_offset <= m.method_index[a].1[b].1.0 < m.user_method_offset
            + m.user_methods.len(),
{
    lemma_distinct_found(m.method_index, a);
    lemma_distinct_found(m.method_index[a].1, b);
    assert(m.method_id(m.method_index[a].0, m.method_index[a].1[b].0) is Some);
}

proof fn lemma_type_filed(m: ResolvedModuleV, out: Seq<Option<(Chars, Chars)>>, a: int, n: int)
    requires
        m.coherent(),
        truly_named(m, out),
        0 <= a < m.method_index.len(),
        0 <= n <= m.method_index[a].1.len(),
    ensures
        ({
            let (key, t) = m.method_index[a];
            let got = methods_inverted_type_n(out, m.user_method_offset, key, t, n);
            &&& truly_named(m, got)
            &&& forall|p: int| 0 <= p < out.len() && out[p] is Some ==> (#[trigger] got[p]) is Some
            &&& forall|b: int|
                0 <= b < n ==> got[(#[trigger] t[b]).1.0 - m.user_method_offset] is Some
        }),
    decreases n,
{
    if n > 0 {
        lemma_type_filed(m, out, a, n - 1);
        lemma_entry(m, a, n - 1);
        let (key, t) = m.method_index[a];
        let rest = methods_inverted_type_n(out, m.user_method_offset, key, t, n - 1);
        let got = methods_inverted_type_n(out, m.user_method_offset, key, t, n);
        let q = t[n - 1].1.0 - m.user_method_offset;
        assert(got == rest.update(q, Some((key, t[n - 1].0))));
        assert forall|p: int| 0 <= p < got.len() implies (#[trigger] got[p] matches Some(
            names,
        ) ==> indexed_at(m, names, p)) by {
            assert(p != q ==> got[p] == rest[p]);
        }
        assert forall|p: int| 0 <= p < out.len() && out[p] is Some implies (
        #[trigger] got[p]) is Some by {
            assert(rest[p] is Some);
        }
        assert forall|b: int| 0 <= b < n implies got[(#[trigger] t[b]).1.0
            - m.user_method_offset] is Some by {
            lemma_entry(m, a, b);
        }
    }
}

proof fn lemma_filed(m: ResolvedModuleV, n: int)
    requires
        m.coherent(),
        0 <= n <= m.method_index.len(),
    ensures
        truly_named(m, methods_inverted_n(m, n)),
        forall|a: int, b: int|
            0 <= a < n && 0 <= b < m.method_index[a].1.len() ==> methods_inverted_n(m, n)[(
            #[trigger] m.method_index[a].1[b]).1.0 - m.user_method_offset] is Some,
    decreases n,
{
    if n > 0 {
        lemma_filed(m, n - 1);
        let rest = methods_inverted_n(m, n - 1);
        let (key, t) = m.method_index[n - 1];
        lemma_type_filed(m, rest, n - 1, t.len() as int);
        let got = methods_inverted_n(m, n);
        assert forall|a: int, b: int|
            0 <= a < n && 0 <= b < m.method_index[a].1.len() implies got[(
        #[trigger] m.method_index[a].1[b]).1.0 - m.user_method_offset] is Some by {
            lemma_entry(m, a, b);
            let p = m.method_index[a].1[b].1.0 - m.user_method_offset;
            if a < n - 1 {
                assert(rest[p] is Some);
                assert(got[p] is Some);
            } else {
                assert(t[b] == m.method_index[a].1[b]);
            }
        }
    }
}

/// Whether a listed method is the method of its id, under a name that has the id.
pub open spec fn truly_listed(
    m: ResolvedModuleV,
    e: ((Chars, Chars), FuncId, MethodInfoV),
) -> bool {
    &&& m.method_id(e.0.0, e.0.1) == Some(e.1)
    &&& m.method_named(e.0.0, e.0.1) == Some(e.2)
    &&& e.2.func_id == Some(e.1)
}

/// Whether a list holds the method with an id.
pub open spec fn lists(es: Seq<((Chars, Chars), FuncId, MethodInfoV)>, id: FuncId) -> bool {
    exists|i: int| 0 <= i < es.len() && (#[trigger] es[i]).1 == id
}

proof fn lemma_listed(m: ResolvedModuleV, n: int)
    requires
        m.coherent(),
        0 <= n <= m.user_methods.len(),
    ensures
        forall|i: int|
            0 <= i < named_methods_n(m, n).len() ==> truly_listed(
                m,
                #[trigger] named_methods_n(m, n)[i],
            ) && named_methods_n(m, n)[i].1.0 < m.user_method_offset + n,
        forall|i: int, j: int|
            0 <= i < j < named_methods_n(m, n).len() ==> (#[trigger] named_methods_n(m, n)[i]).1.0
                < (#[trigger] named_methods_n(m, n)[j]).1.0,
        forall|p: int|
            0 <= p < n && (#[trigger] methods_inverted_n(m, m.method_index.len() as int)[p]) is Some
                ==> lists(named_methods_n(m, n), FuncId((m.user_method_offset + p) as u32)),
    decreases n,
{
    let names = methods_inverted_n(m, m.method_index.len() as int);
    lemma_filed(m, m.method_index.len() as int);
    if n > 0 {
        lemma_listed(m, n - 1);
        let rest = named_methods_n(m, n - 1);
        let got = named_methods_n(m, n);
        assert(m.user_methods[n - 1].func_id is Some);
        let id = FuncId((m.user_method_offset + (n - 1)) as u32);
        assert(id == m.user_methods[n - 1].func_id->0);
        if let Some(x) = names[n - 1] {
            assert(indexed_at(m, x, n - 1));
            assert(got == rest.push((x, id, m.user_methods[n - 1])));
            assert(got[rest.len() as int].1 == id);
            assert(truly_listed(m, got[rest.len() as int]));
        }
        assert forall|p: int| 0 <= p < n && (#[trigger] names[p]) is Some implies lists(
            got,
            FuncId((m.user_method_offset + p) as u32),
        ) by {
            if p < n - 1 {
                let want = FuncId((m.user_method_offset + p) as u32);
                assert(lists(rest, want));
                let i = choose|i: int| 0 <= i < rest.len() && (#[trigger] rest[i]).1 == want;
                assert(got[i] == rest[i]);
            }
        }
        assert forall|i: int| 0 <= i < got.len() implies truly_listed(m, #[trigger] got[i])
            && got[i].1.0 < m.user_method_offset + n by {
            if i < rest.len() {
                assert(got[i] == rest[i]);
            }
        }
        assert forall|i: int, j: int| 0 <= i < j < got.len() implies (#[trigger] got[i]).1.0 < (
        #[trigger] got[j]).1.0 by {
            assert(got[i] == rest[i]);
            if j < rest.len() {
                assert(got[j] == rest[j]);
            }
        }
    }
}

/// The list of the methods with their names goes by id, each entry is what its
/// name is looked up as, and every method that a name finds is in it.
pub proof fn law_methods_listed(m: ResolvedModuleV)
    requires
        m.coherent(),
    ensures
        ({
            let es = named_methods_n(m, m.user_methods.len() as int);
            &&& forall|i: int| 0 <= i < es.len() ==> truly_listed(m, #[trigger] es[i])
            &&& forall|i: int, j: int|
                0 <= i < j < es.len() ==> (#[trigger] es[i]).1.0 < (#[trigger] es[j]).1.0
            &&& forall|key: Chars, name: Chars|
                #[trigger] m.method_id(key, name) matches Some(id) ==> lists(es, id)
        }),
{
    let es = named_methods_n(m, m.user_methods.len() as int);
    lemma_listed(m, m.user_methods.len() as int);
    lemma_filed(m, m.method_index.len() as int);
    assert forall|key: Chars, name: Chars| #[trigger] m.method_id(key, name) matches Some(
        id,
    ) ==> lists(es, id) by {
        if let Some(id) = m.method_id(key, name) {
            let a = lemma_found(m.method_index, key);
            let b = lemma_found(inner(m.method_index, key), name);
            assert(m.method_index[a].1[b].1 == id);
            lemma_entry(m, a, b);
            let p = id.0 - m.user_method_offset;
            assert(methods_inverted_n(m, m.method_index.len() as int)[p] is Some);
            assert(FuncId((m.user_method_offset + p) as u32) == id);
        }
    }
}

// ── Aliases ──────────────────────────────────────────────────────────

/// Whether every name of a chain is an alias of the next, and the last one is an
/// alias of the type at the end.
pub open spec fn chained(env: EnvV, chain: Seq<Chars>, end: Ty) -> bool {
    forall|i: int|
        0 <= i < chain.len() ==> (named(env, env.type_aliases, #[trigger] chain[i]) matches Some(
            alias,
        ) && alias.target == (if i + 1 < chain.len() {
            Ty::Named(chain[i + 1])
        } else {
            end
        }))
}

proof fn lemma_chain(env: EnvV, name: Chars, chain: Seq<Chars>, end: Ty, i: int)
    requires
        chain.no_duplicates(),
        chained(env, chain, end),
        mentions(end, name),
        0 <= i <= chain.len(),
    ensures
        reaches_alias(
            env,
            name,
            if i < chain.len() {
                Ty::Named(chain[i])
            } else {
                end
            },
            chain.take(i),
        ),
    decreases chain.len() - i,
{
    if i < chain.len() {
        law_alias_search_ends(env, chain);
        lemma_chain(env, name, chain, end, i + 1);
        let seen = chain.take(i);
        assert(chain.take(i + 1) =~= seen.push(chain[i]));
        assert(!seen.contains(chain[i]));
        assert(named(env, env.type_aliases, chain[i]) is Some);
    }
}

/// A cycle of aliases is found however long it is: a chain of aliases that ends in
/// a mention of the name reaches the name.
pub proof fn law_alias_cycle_is_found(env: EnvV, name: Chars, chain: Seq<Chars>, end: Ty)
    requires
        chain.no_duplicates(),
        chained(env, chain, end),
        mentions(end, name),
        chain.len() > 0,
    ensures
        reaches_alias(env, name, Ty::Named(chain[0]), Seq::empty()),
{
    lemma_chain(env, name, chain, end, 0);
    assert(chain.take(0) =~= Seq::empty());
}

/// A name is reached only through a chain of aliases that ends in a mention of it.
pub proof fn law_reached_name_is_in_a_cycle(
    env: EnvV,
    name: Chars,
    t: Ty,
    visited: Seq<Chars>,
) -> (r: (Seq<Chars>, Ty))
    requires
        reaches_alias(env, name, t, visited),
    ensures
        chained(env, r.0, r.1),
        mentions(r.1, name),
        r.0.len() == 0 ==> t == r.1,
        r.0.len() > 0 ==> t == Ty::Named(r.0[0]),
    decreases alias_names(env) - visited.len(),
{
    if mentions(t, name) {
        (Seq::empty(), t)
    } else {
        let n = t->Named_0;
        let alias = named(env, env.type_aliases, n)->0;
        let (rest, end) = law_reached_name_is_in_a_cycle(env, name, alias.target, visited.push(n));
        let chain = seq![n] + rest;
        assert forall|i: int| 0 <= i < chain.len() implies (named(
            env,
            env.type_aliases,
            #[trigger] chain[i],
        ) matches Some(a) && a.target == (if i + 1 < chain.len() {
            Ty::Named(chain[i + 1])
        } else {
            end
        })) by {
            if i > 0 {
                assert(chain[i] == rest[i - 1]);
                if i + 1 < chain.len() {
                    assert(chain[i + 1] == rest[i]);
                }
            } else if rest.len() > 0 {
                assert(chain[1] == rest[0]);
            }
        }
        (chain, end)
    }
}

} // verus!
