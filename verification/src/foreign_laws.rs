//! What is another module's: the type that an `impl` names, and private fields.
use crate::ast::Visibility;
use crate::env::EnvV;
use crate::impls::{
    foreign_enums_n, foreign_structs_n, impl_target, listed, path_before_from, slot_from,
    ImplTargetV,
};
use crate::info::{FieldInfoV, StructInfoV};
use crate::paths::{bare, is_builtin_path, qualified};
use crate::privacy::{read_checked, write_checked};
use crate::span::Span;
use crate::state::StateV;
use crate::table::holds;
use crate::text::{before, before_from, Chars};
use crate::text_laws::{lemma_first_difference, law_texts_are_ordered};
use vstd::prelude::*;

verus! {

// ── The order of paths ───────────────────────────────────────────────

proof fn lemma_difference(a: Chars, b: Chars, i: int) -> (k: int)
    requires
        0 <= i,
        before_from(a, b, i),
        forall|j: int| 0 <= j < i ==> a[j] == b[j],
        i <= a.len(),
    ensures
        0 <= k < b.len(),
        k <= a.len(),
        forall|j: int| 0 <= j < k ==> a[j] == b[j],
        k < a.len() ==> (a[k] as u32) < (b[k] as u32),
    decreases b.len() - i,
{
    if i >= a.len() || a[i] != b[i] {
        i
    } else {
        lemma_difference(a, b, i + 1)
    }
}

/// The order of texts is transitive.
pub proof fn law_text_order_is_transitive(a: Chars, b: Chars, c: Chars)
    requires
        before(a, b),
        before(b, c),
    ensures
        before(a, c),
{
    let k = lemma_difference(a, b, 0);
    let l = lemma_difference(b, c, 0);
    if k <= l {
        lemma_first_difference(a, c, k, 0);
    } else {
        lemma_first_difference(a, c, l, 0);
    }
}

/// Whether one path comes before another.
pub open spec fn earlier(a: Seq<Chars>, b: Seq<Chars>) -> bool {
    path_before_from(a, b, 0)
}

proof fn lemma_path_difference(a: Seq<Chars>, b: Seq<Chars>, i: int) -> (k: int)
    requires
        0 <= i,
        path_before_from(a, b, i),
        forall|j: int| 0 <= j < i ==> a[j] == b[j],
        i <= a.len(),
    ensures
        0 <= k < b.len(),
        k <= a.len(),
        forall|j: int| 0 <= j < k ==> a[j] == b[j],
        k < a.len() ==> before(a[k], b[k]),
    decreases b.len() - i,
{
    if i >= a.len() || before(a[i], b[i]) {
        i
    } else {
        lemma_path_difference(a, b, i + 1)
    }
}

proof fn lemma_path_before(a: Seq<Chars>, b: Seq<Chars>, k: int, i: int)
    requires
        0 <= i <= k < b.len(),
        k <= a.len(),
        forall|j: int| 0 <= j < k ==> a[j] == b[j],
        k < a.len() ==> before(a[k], b[k]),
    ensures
        path_before_from(a, b, i),
    decreases k - i,
{
    if i < k {
        law_texts_are_ordered(a[i], a[i]);
        lemma_path_before(a, b, k, i + 1);
    }
}

/// The order of paths is transitive.
pub proof fn law_path_order_is_transitive(a: Seq<Chars>, b: Seq<Chars>, c: Seq<Chars>)
    requires
        earlier(a, b),
        earlier(b, c),
    ensures
        earlier(a, c),
{
    let k = lemma_path_difference(a, b, 0);
    let l = lemma_path_difference(b, c, 0);
    if k < l {
        lemma_path_before(a, c, k, 0);
    } else if l < k {
        lemma_path_before(a, c, l, 0);
    } else {
        if k < a.len() {
            law_text_order_is_transitive(a[k], b[k], c[k]);
        }
        lemma_path_before(a, c, k, 0);
    }
}

proof fn lemma_paths_ordered(a: Seq<Chars>, b: Seq<Chars>, i: int)
    requires
        0 <= i <= a.len(),
        i <= b.len(),
        forall|j: int| 0 <= j < i ==> a[j] == b[j],
    ensures
        a != b ==> path_before_from(a, b, i) || path_before_from(b, a, i),
        !(path_before_from(a, b, i) && path_before_from(b, a, i)),
    decreases b.len() - i,
{
    if i < a.len() && i < b.len() {
        law_texts_are_ordered(a[i], b[i]);
        if a[i] == b[i] {
            lemma_paths_ordered(a, b, i + 1);
        }
    } else if i >= a.len() && i >= b.len() {
        assert(a =~= b);
    }
}

/// Of two different paths exactly one comes before the other, and no path comes
/// before itself.
pub proof fn law_paths_are_ordered(a: Seq<Chars>, b: Seq<Chars>)
    ensures
        a != b ==> (earlier(a, b) <==> !earlier(b, a)),
        !earlier(a, a),
{
    lemma_paths_ordered(a, b, 0);
    lemma_paths_ordered(a, a, 0);
}

// ── Lists of modules ─────────────────────────────────────────────────

/// Whether the paths stand in their order, each once.
pub open spec fn in_order(ms: Seq<Seq<Chars>>) -> bool {
    forall|i: int, j: int| 0 <= i < j < ms.len() ==> earlier(#[trigger] ms[i], #[trigger] ms[j])
}

proof fn lemma_slot(ms: Seq<Seq<Chars>>, m: Seq<Chars>, i: int)
    requires
        0 <= i <= ms.len(),
        forall|j: int| 0 <= j < i ==> earlier(#[trigger] ms[j], m),
    ensures
        i <= slot_from(ms, m, i) <= ms.len(),
        forall|j: int| 0 <= j < slot_from(ms, m, i) ==> earlier(#[trigger] ms[j], m),
        slot_from(ms, m, i) < ms.len() ==> !earlier(ms[slot_from(ms, m, i)], m),
    decreases ms.len() - i,
{
    if i < ms.len() && path_before_from(ms[i], m, 0) {
        lemma_slot(ms, m, i + 1);
    }
}

/// A module that is listed is in the list, everything else stays, and the list
/// stays in order without repetition.
pub proof fn law_module_is_listed(ms: Seq<Seq<Chars>>, m: Seq<Chars>)
    requires
        in_order(ms),
    ensures
        in_order(listed(ms, m)),
        forall|x: Seq<Chars>| #[trigger] listed(ms, m).contains(x) <==> ms.contains(x) || x == m,
{
    lemma_slot(ms, m, 0);
    let s = slot_from(ms, m, 0);
    let out = listed(ms, m);
    if s < ms.len() && ms[s] == m {
        assert(ms.contains(m));
    } else {
        assert(out == ms.insert(s, m));
        assert forall|j: int| s <= j < ms.len() implies earlier(m, #[trigger] ms[j]) by {
            law_paths_are_ordered(ms[s], m);
            if s < j {
                assert(earlier(ms[s], ms[j]));
                law_path_order_is_transitive(m, ms[s], ms[j]);
            }
        }
        assert forall|i: int, j: int| 0 <= i < j < out.len() implies earlier(
            #[trigger] out[i],
            #[trigger] out[j],
        ) by {
            let a = if i < s { i } else { i - 1 };
            let b = if j < s { j } else { j - 1 };
            if i == s {
                assert(out[j] == ms[b]);
            } else if j == s {
                assert(out[i] == ms[a]);
            } else {
                assert(out[i] == ms[a] && out[j] == ms[b]);
            }
        }
        assert(out[s] == m);
        assert forall|x: Seq<Chars>| #[trigger] out.contains(x) <==> ms.contains(x) || x == m by {
            if ms.contains(x) {
                let i = ms.index_of(x);
                assert(out[if i < s { i } else { i + 1 }] == x);
            }
            if out.contains(x) {
                let i = out.index_of(x);
                if i != s {
                    assert(ms[if i < s { i } else { i - 1 }] == x);
                }
            }
        }
    }
}

// ── Owners ───────────────────────────────────────────────────────────

/// Whether one of the first `n` structs is the other module's type.
pub open spec fn struct_of(env: EnvV, name: Chars, m: Seq<Chars>, n: int) -> bool {
    exists|i: int|
        0 <= i < n && bare((#[trigger] env.structs[i]).0) == name && env.structs[i].1.def_module == m
}

/// Whether one of the first `n` enums is the other module's type.
pub open spec fn enum_of(env: EnvV, name: Chars, m: Seq<Chars>, n: int) -> bool {
    exists|i: int|
        0 <= i < n && bare((#[trigger] env.enums[i]).0) == name && env.enums[i].1.def_module == m
}

/// Whether a module other than the current one, which is no builtin, declares a
/// type with the name.
pub open spec fn owned_elsewhere(env: EnvV, name: Chars, m: Seq<Chars>) -> bool {
    &&& m != env.current_module
    &&& !is_builtin_path(m)
    &&& struct_of(env, name, m, env.structs.len() as int) || enum_of(
        env,
        name,
        m,
        env.enums.len() as int,
    )
}

proof fn lemma_foreign_structs(env: EnvV, name: Chars, n: int)
    requires
        0 <= n <= env.structs.len(),
    ensures
        in_order(foreign_structs_n(env, name, n)),
        forall|m: Seq<Chars>| #[trigger]
            foreign_structs_n(env, name, n).contains(m) <==> m != env.current_module
                && !is_builtin_path(m) && struct_of(env, name, m, n),
    decreases n,
{
    if n > 0 {
        lemma_foreign_structs(env, name, n - 1);
        let rest = foreign_structs_n(env, name, n - 1);
        let d = env.structs[n - 1];
        law_module_is_listed(rest, d.1.def_module);
        assert forall|m: Seq<Chars>| struct_of(env, name, m, n) <==> struct_of(env, name, m, n - 1)
            || (bare(d.0) == name && d.1.def_module == m) by {}
        assert forall|m: Seq<Chars>| #[trigger]
            foreign_structs_n(env, name, n).contains(m) <==> m != env.current_module
                && !is_builtin_path(m) && struct_of(env, name, m, n) by {
            assert(rest.contains(m) <==> m != env.current_module && !is_builtin_path(m)
                && struct_of(env, name, m, n - 1));
            assert(listed(rest, d.1.def_module).contains(m) <==> rest.contains(m) || m
                == d.1.def_module);
        }
    }
}

proof fn lemma_foreign_enums(env: EnvV, name: Chars, n: int)
    requires
        0 <= n <= env.enums.len(),
    ensures
        in_order(foreign_enums_n(env, name, n)),
        forall|m: Seq<Chars>| #[trigger]
            foreign_enums_n(env, name, n).contains(m) <==> m != env.current_module
                && !is_builtin_path(m) && (struct_of(env, name, m, env.structs.len() as int)
                || enum_of(env, name, m, n)),
    decreases n,
{
    lemma_foreign_structs(env, name, env.structs.len() as int);
    if n > 0 {
        lemma_foreign_enums(env, name, n - 1);
        let rest = foreign_enums_n(env, name, n - 1);
        let d = env.enums[n - 1];
        law_module_is_listed(rest, d.1.def_module);
        assert forall|m: Seq<Chars>| enum_of(env, name, m, n) <==> enum_of(env, name, m, n - 1) || (
        bare(d.0) == name && d.1.def_module == m) by {}
        assert forall|m: Seq<Chars>| #[trigger]
            foreign_enums_n(env, name, n).contains(m) <==> m != env.current_module
                && !is_builtin_path(m) && (struct_of(env, name, m, env.structs.len() as int)
                || enum_of(env, name, m, n)) by {
            assert(rest.contains(m) <==> m != env.current_module && !is_builtin_path(m) && (
            struct_of(env, name, m, env.structs.len() as int) || enum_of(env, name, m, n - 1)));
            assert(listed(rest, d.1.def_module).contains(m) <==> rest.contains(m) || m
                == d.1.def_module);
        }
    }
}

/// An `impl` is for the module's own type where there is one. Otherwise it is for
/// nothing, for the one other module that has the type, or for none of the
/// several that have it, which are all named in their order.
pub proof fn law_impl_target(env: EnvV, name: Chars)
    ensures
        impl_target(env, name) is Local <==> holds(env.structs, qualified(env.current_module, name))
            || holds(env.enums, qualified(env.current_module, name)),
        impl_target(env, name) is Unknown ==> forall|m: Seq<Chars>|
            !(#[trigger] owned_elsewhere(env, name, m)),
        impl_target(env, name) matches ImplTargetV::ForeignModule(o) ==> forall|m: Seq<Chars>|
            #[trigger] owned_elsewhere(env, name, m) <==> m == o,
        impl_target(env, name) matches ImplTargetV::ForeignAmbiguous(os) ==> os.len() > 1
            && in_order(os) && forall|m: Seq<Chars>|
            #[trigger] owned_elsewhere(env, name, m) <==> os.contains(m),
{
    let n = env.enums.len() as int;
    let others = foreign_enums_n(env, name, n);
    lemma_foreign_enums(env, name, n);
    assert forall|m: Seq<Chars>| #[trigger]
        owned_elsewhere(env, name, m) <==> others.contains(m) by {
        assert(foreign_enums_n(env, name, n).contains(m) == others.contains(m));
    }
    if others.len() == 1 {
        assert(others.contains(others[0]));
        assert forall|m: Seq<Chars>| #[trigger]
            owned_elsewhere(env, name, m) <==> m == others[0] by {}
    }
}

/// Where a single other module has the type, the `impl` is for that module's.
pub proof fn law_single_owner_is_told(env: EnvV, name: Chars, m: Seq<Chars>)
    requires
        !(impl_target(env, name) is Local),
        owned_elsewhere(env, name, m),
        forall|o: Seq<Chars>| #[trigger] owned_elsewhere(env, name, o) ==> o == m,
    ensures
        impl_target(env, name) == ImplTargetV::ForeignModule(m),
{
    law_impl_target(env, name);
    assert(owned_elsewhere(env, name, m));
    if let ImplTargetV::ForeignAmbiguous(os) = impl_target(env, name) {
        assert(os.contains(os[0]) && os.contains(os[1]));
        assert(owned_elsewhere(env, name, os[0]) && owned_elsewhere(env, name, os[1]));
        assert(earlier(os[0], os[1]));
        law_paths_are_ordered(m, m);
    }
}

// ── Private fields ───────────────────────────────────────────────────

/// Whether a field may be used: it is public, or its struct is declared here or
/// built in.
pub open spec fn usable(env: EnvV, info: StructInfoV, f: FieldInfoV) -> bool {
    ||| f.visibility == Visibility::Public
    ||| info.def_module == env.current_module
    ||| is_builtin_path(info.def_module)
}

/// A field that may be used is read and set without a finding. Any other gives one
/// finding, at the place where it is used, with a note at its declaration; and
/// nothing else changes.
pub proof fn law_private_fields_are_guarded(
    env: EnvV,
    st: StateV,
    info: StructInfoV,
    owner: Chars,
    f: FieldInfoV,
    span: Span,
)
    ensures
        usable(env, info, f) ==> read_checked(env, st, info, owner, f, span) == st && write_checked(
            env,
            st,
            info,
            owner,
            f,
            span,
        ) == st,
        !usable(env, info, f) ==> guarded(st, read_checked(env, st, info, owner, f, span), f, span)
            && guarded(st, write_checked(env, st, info, owner, f, span), f, span),
{
    let r = read_checked(env, st, info, owner, f, span);
    let w = write_checked(env, st, info, owner, f, span);
    if !usable(env, info, f) {
        assert(r.diagnostics.drop_last() =~= st.diagnostics);
        assert(w.diagnostics.drop_last() =~= st.diagnostics);
    }
}

/// Whether the one thing that was added is a finding about a field.
pub open spec fn guarded(a: StateV, b: StateV, f: FieldInfoV, span: Span) -> bool {
    &&& b == StateV { diagnostics: b.diagnostics, ..a }
    &&& b.diagnostics.len() == a.diagnostics.len() + 1
    &&& b.diagnostics.drop_last() == a.diagnostics
    &&& b.diagnostics.last().span == span
    &&& b.diagnostics.last().notes.len() == 1
    &&& b.diagnostics.last().notes[0].0 == f.definition_span
}

} // verus!
