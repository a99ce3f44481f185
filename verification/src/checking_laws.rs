//! That every declaration of a program is named, registered and checked.
use crate::ast::{Declaration, FunctionDecl, InlineTraitImpl};
use crate::bodies::{body_checked, inline_methods_checked, methods_checked};
use crate::checker::{
    decl_checked, decls_checked_n, endpoint_added, imports_rejected_n, mains_rejected_n,
    module_mains_rejected_n, CheckerV,
};
use crate::env::EnvV;
use crate::fit_laws::{lemma_steps, silent, steady_at};
use crate::ids::{
    function_ids_n, inline_ids_n, method_decl_ids_n, method_id_given, method_ids_n, type_ids,
};
use crate::paths::qualified;
use crate::register::{
    decl_registered, decls_registered_n, type_name_known, type_names_known_n,
};
use crate::scopes::ResolvedSourceModule;
use crate::state::StateV;
use crate::steady::within;
use crate::steady_program::{
    law_declaration_keeps, law_registration_keeps, lemma_top_lasts,
};
use crate::scoped_params::{body_params, field_params};
use crate::table::{find, holds, law_find_after_put, law_put_keeps_others, put};
use crate::text::Chars;
use vstd::prelude::*;

verus! {

/// Whether one of the declarations is a function called `main`.
pub open spec fn has_main(ds: Seq<Declaration>) -> bool {
    exists|i: int|
        0 <= i < ds.len() && ((#[trigger] ds[i]) matches Declaration::Function(f) && f.name@
            == "main"@)
}

proof fn lemma_mains_count(st: StateV, ds: Seq<Declaration>, n: int)
    ensures
        st.diagnostics.len() <= mains_rejected_n(st, ds, n).diagnostics.len(),
    decreases n,
{
    if 0 < n <= ds.len() {
        lemma_mains_count(st, ds, n - 1);
    }
}

proof fn lemma_within_both(a: Seq<Chars>, b: Seq<Chars>)
    ensures
        within(a, a + b),
        within(b, a + b),
{
    let all = a + b;
    assert forall|p: Chars| #[trigger] a.contains(p) implies all.contains(p) by {
        let k = choose|k: int| 0 <= k < a.len() && a[k] == p;
        assert(all[k] == p);
    }
    assert forall|p: Chars| #[trigger] b.contains(p) implies all.contains(p) by {
        let k = choose|k: int| 0 <= k < b.len() && b[k] == p;
        assert(all[a.len() + k] == p);
    }
}

proof fn lemma_registration_counts(c: CheckerV, d: Declaration)
    ensures
        c.st.diagnostics.len() <= decl_registered(c, d).st.diagnostics.len(),
{
    let all = c.st.type_params + field_params(d);
    lemma_within_both(c.st.type_params, field_params(d));
    law_registration_keeps(all, c, d);
    lemma_top_lasts(all, c.st, decl_registered(c, d).st);
}

proof fn lemma_check_counts(c: CheckerV, d: Declaration)
    requires
        c.st.return_type is None,
    ensures
        c.st.diagnostics.len() <= decl_checked(c, d).st.diagnostics.len(),
        decl_checked(c, d).st.return_type is None,
{
    let all = c.st.type_params + body_params(c.env, d);
    lemma_within_both(c.st.type_params, body_params(c.env, d));
    law_declaration_keeps(all, c, d);
    lemma_top_lasts(all, c.st, decl_checked(c, d).st);
}

proof fn lemma_checking_counts(c: CheckerV, ds: Seq<Declaration>, n: int)
    requires
        c.st.return_type is None,
    ensures
        decls_checked_n(c, ds, n).st.return_type is None,
    decreases n,
{
    if 0 < n <= ds.len() {
        lemma_checking_counts(c, ds, n - 1);
        lemma_check_counts(decls_checked_n(c, ds, n - 1), ds[n - 1]);
    }
}

/// A single file adds no finding about imports exactly if it has none.
pub proof fn law_single_file_has_no_imports(
    st: StateV,
    ds: Seq<Declaration>,
    n: int,
)
    requires
        0 <= n <= ds.len(),
    ensures
        silent(st, imports_rejected_n(st, ds, n)) <==> forall|i: int| 0 <= i < n ==> !((#[trigger] ds[i]) is Import),
{
    let counts = Seq::new((n + 1) as nat, |i: int| imports_rejected_n(st, ds, i).diagnostics.len());
    let oks = Seq::new(n as nat, |i: int| !(( ds[i]) is Import));
    assert forall|i: int| 0 <= i < n implies #[trigger] steady_at(counts, oks, i) by {
        lemma_single_file_has_no_imports_step(st, ds, i);
    }
    lemma_steps(counts, oks);
    assert forall|i: int| 0 <= i < n implies oks[i] == (!((#[trigger] ds[i]) is Import)) by {}
}

proof fn lemma_single_file_has_no_imports_step(
    st: StateV,
    ds: Seq<Declaration>,
    i: int,
)
    requires
        0 <= i < ds.len(),
    ensures
        ({
            let s = imports_rejected_n(st, ds, i);
            let next = imports_rejected_n(st, ds, i + 1);
            &&& s.diagnostics.len() <= next.diagnostics.len()
            &&& silent(s, next) <==> (!((ds[i]) is Import))
        }),
{
    let s = imports_rejected_n(st, ds, i);

}

/// A module that is not the entry adds no finding about `main` exactly if it has no
/// function of that name.
pub proof fn law_no_module_has_main(
    st: StateV,
    ds: Seq<Declaration>,
    n: int,
)
    requires
        0 <= n <= ds.len(),
    ensures
        silent(st, mains_rejected_n(st, ds, n)) <==> forall|i: int| 0 <= i < n ==> ((#[trigger] ds[i]) matches Declaration::Function(f) ==> f.name@ != "main"@),
{
    let counts = Seq::new((n + 1) as nat, |i: int| mains_rejected_n(st, ds, i).diagnostics.len());
    let oks = Seq::new(n as nat, |i: int| (( ds[i]) matches Declaration::Function(f) ==> f.name@ != "main"@));
    assert forall|i: int| 0 <= i < n implies #[trigger] steady_at(counts, oks, i) by {
        lemma_no_module_has_main_step(st, ds, i);
    }
    lemma_steps(counts, oks);
    assert forall|i: int| 0 <= i < n implies oks[i] == (((#[trigger] ds[i]) matches Declaration::Function(f) ==> f.name@ != "main"@)) by {}
}

proof fn lemma_no_module_has_main_step(
    st: StateV,
    ds: Seq<Declaration>,
    i: int,
)
    requires
        0 <= i < ds.len(),
    ensures
        ({
            let s = mains_rejected_n(st, ds, i);
            let next = mains_rejected_n(st, ds, i + 1);
            &&& s.diagnostics.len() <= next.diagnostics.len()
            &&& silent(s, next) <==> (((ds[i]) matches Declaration::Function(f) ==> f.name@ != "main"@))
        }),
{
    let s = mains_rejected_n(st, ds, i);

}

/// The modules of a program add no finding about `main` exactly if none but the
/// entry has a function of that name.
pub proof fn law_only_the_entry_has_main(
    st: StateV,
    ms: Seq<ResolvedSourceModule>,
    n: int,
)
    requires
        0 <= n <= ms.len(),
    ensures
        silent(st, module_mains_rejected_n(st, ms, n)) <==> forall|i: int| 0 <= i < n ==> ((#[trigger] ms[i]).is_entry || !has_main(ms[i].program.declarations@)),
{
    let counts = Seq::new((n + 1) as nat, |i: int| module_mains_rejected_n(st, ms, i).diagnostics.len());
    let oks = Seq::new(n as nat, |i: int| (( ms[i]).is_entry || !has_main(ms[i].program.declarations@)));
    assert forall|i: int| 0 <= i < n implies #[trigger] steady_at(counts, oks, i) by {
        lemma_only_the_entry_has_main_step(st, ms, i);
    }
    lemma_steps(counts, oks);
    assert forall|i: int| 0 <= i < n implies oks[i] == (((#[trigger] ms[i]).is_entry || !has_main(ms[i].program.declarations@))) by {}
}

proof fn lemma_only_the_entry_has_main_step(
    st: StateV,
    ms: Seq<ResolvedSourceModule>,
    i: int,
)
    requires
        0 <= i < ms.len(),
    ensures
        ({
            let s = module_mains_rejected_n(st, ms, i);
            let next = module_mains_rejected_n(st, ms, i + 1);
            &&& s.diagnostics.len() <= next.diagnostics.len()
            &&& silent(s, next) <==> (((ms[i]).is_entry || !has_main(ms[i].program.declarations@)))
        }),
{
    let s = module_mains_rejected_n(st, ms, i);
    let ds = ms[i].program.declarations@;
    law_no_module_has_main(s, ds, ds.len() as int);
    lemma_mains_count(s, ds, ds.len() as int);
}

/// The declarations of a module add no finding when they are registered exactly if
/// none of them does.
pub proof fn law_every_declaration_is_registered(
    c: CheckerV,
    ds: Seq<Declaration>,
    n: int,
)
    requires
        0 <= n <= ds.len(),
    ensures
        silent(c.st, decls_registered_n(c, ds, n).st) <==> forall|i: int| 0 <= i < n ==> silent(decls_registered_n(c, ds, i).st, decl_registered(decls_registered_n(c, ds, i), #[trigger] ds[i]).st),
{
    let counts = Seq::new((n + 1) as nat, |i: int| decls_registered_n(c, ds, i).st.diagnostics.len());
    let oks = Seq::new(n as nat, |i: int| silent(decls_registered_n(c, ds, i).st, decl_registered(decls_registered_n(c, ds, i), ds[i]).st));
    assert forall|i: int| 0 <= i < n implies #[trigger] steady_at(counts, oks, i) by {
        lemma_every_declaration_is_registered_step(c, ds, i);
    }
    lemma_steps(counts, oks);
    assert forall|i: int| 0 <= i < n implies oks[i] == (silent(decls_registered_n(c, ds, i).st, decl_registered(decls_registered_n(c, ds, i), #[trigger] ds[i]).st)) by {}
}

proof fn lemma_every_declaration_is_registered_step(
    c: CheckerV,
    ds: Seq<Declaration>,
    i: int,
)
    requires
        0 <= i < ds.len(),
    ensures
        ({
            let s = decls_registered_n(c, ds, i).st;
            let next = decls_registered_n(c, ds, i + 1).st;
            &&& s.diagnostics.len() <= next.diagnostics.len()
            &&& silent(s, next) <==> (silent(s, decl_registered(decls_registered_n(c, ds, i), ds[i]).st))
        }),
{
    let s = decls_registered_n(c, ds, i).st;
    lemma_registration_counts(decls_registered_n(c, ds, i), ds[i]);
}

/// The declarations of a module add no finding when they are checked exactly if none
/// of them does.
pub proof fn law_every_declaration_is_checked(
    c: CheckerV,
    ds: Seq<Declaration>,
    n: int,
)
    requires
        0 <= n <= ds.len(),
        c.st.return_type is None,
    ensures
        silent(c.st, decls_checked_n(c, ds, n).st) <==> forall|i: int| 0 <= i < n ==> silent(decls_checked_n(c, ds, i).st, decl_checked(decls_checked_n(c, ds, i), #[trigger] ds[i]).st),
{
    let counts = Seq::new((n + 1) as nat, |i: int| decls_checked_n(c, ds, i).st.diagnostics.len());
    let oks = Seq::new(n as nat, |i: int| silent(decls_checked_n(c, ds, i).st, decl_checked(decls_checked_n(c, ds, i), ds[i]).st));
    assert forall|i: int| 0 <= i < n implies #[trigger] steady_at(counts, oks, i) by {
        lemma_every_declaration_is_checked_step(c, ds, i);
    }
    lemma_steps(counts, oks);
    assert forall|i: int| 0 <= i < n implies oks[i] == (silent(decls_checked_n(c, ds, i).st, decl_checked(decls_checked_n(c, ds, i), #[trigger] ds[i]).st)) by {}
}

proof fn lemma_every_declaration_is_checked_step(
    c: CheckerV,
    ds: Seq<Declaration>,
    i: int,
)
    requires
        0 <= i < ds.len(),
        c.st.return_type is None,
    ensures
        ({
            let s = decls_checked_n(c, ds, i).st;
            let next = decls_checked_n(c, ds, i + 1).st;
            &&& s.diagnostics.len() <= next.diagnostics.len()
            &&& silent(s, next) <==> (silent(s, decl_checked(decls_checked_n(c, ds, i), ds[i]).st))
        }),
{
    let s = decls_checked_n(c, ds, i).st;
    lemma_checking_counts(c, ds, i);
    lemma_checking_counts(c, ds, i + 1);
    lemma_check_counts(decls_checked_n(c, ds, i), ds[i]);
}

/// What is checked of a declaration: the body of a function that its name stands
/// for, the methods of a struct, an enum or an `impl` block, and an endpoint.
pub proof fn law_declaration_is_checked(c: CheckerV, d: Declaration)
    ensures
        ({
            let r = decl_checked(c, d);
            match d {
                Declaration::Function(f) => (find(
                    c.env.functions,
                    qualified(c.env.current_module, f.name@),
                ) matches Some(info) && info.definition_span == f.name_span) ==> r.st
                    == body_checked(c.env, c.st, f, f.type_params.deep_view(), None),
                Declaration::Struct(s) => (find(
                    c.env.structs,
                    qualified(c.env.current_module, s.name@),
                ) matches Some(info) && info.definition_span == s.name_span) ==> r.st
                    == inline_methods_checked(
                    c.env,
                    c.st,
                    s.name@,
                    s.methods@,
                    s.trait_impls@,
                ),
                Declaration::Enum(e) => (find(
                    c.env.enums,
                    qualified(c.env.current_module, e.name@),
                ) matches Some(info) && info.definition_span == e.name_span) ==> r.st
                    == inline_methods_checked(
                    c.env,
                    c.st,
                    e.name@,
                    e.methods@,
                    e.trait_impls@,
                ),
                Declaration::Impl(i) => (find(
                    c.env.structs,
                    qualified(c.env.current_module, i.for_type@),
                ) matches Some(info) && info.def_module == c.env.current_module) ==> r.st
                    == methods_checked(c.env, c.st, i.for_type@, i.methods@),
                Declaration::Endpoint(ep) => r == endpoint_added(c, ep),
                _ => r == c,
            }
        }),
{
    reveal(decl_checked);
}

// ── Ids ──────────────────────────────────────────────────────────────

/// Ids that are given stay, and every function but one with the name of a
/// builtin gets one.
pub proof fn law_every_function_has_an_id(env: EnvV, ds: Seq<Declaration>, n: int, key: Chars)
    requires
        0 <= n <= ds.len(),
    ensures
        ({
            let r = function_ids_n(env, ds, n);
            &&& r.current_module == env.current_module
            &&& r.builtin_local_names == env.builtin_local_names
            &&& holds(env.pending_function_ids, key) ==> find(r.pending_function_ids, key) == find(
                env.pending_function_ids,
                key,
            )
            &&& forall|i: int|
                0 <= i < n ==> ((#[trigger] ds[i]) matches Declaration::Function(f)
                    ==> env.builtin_local_names.contains(f.name@) || holds(
                    r.pending_function_ids,
                    qualified(env.current_module, f.name@),
                ))
        }),
    decreases n,
{
    if n > 0 {
        law_every_function_has_an_id(env, ds, n - 1, key);
        let rest = function_ids_n(env, ds, n - 1);
        let r = function_ids_n(env, ds, n);
        if let Declaration::Function(f) = ds[n - 1] {
            let own = qualified(env.current_module, f.name@);
            let id = crate::span::FuncId(rest.next_func_id);
            law_find_after_put(rest.pending_function_ids, own, id);
            if key != own {
                law_put_keeps_others(rest.pending_function_ids, own, id, key);
            }
            assert forall|i: int| 0 <= i < n implies ((#[trigger] ds[i]) matches Declaration::Function(g)
                ==> env.builtin_local_names.contains(g.name@) || holds(
                r.pending_function_ids,
                qualified(env.current_module, g.name@),
            )) by {
                if i < n - 1 {
                    if let Declaration::Function(g) = ds[i] {
                        let other = qualified(env.current_module, g.name@);
                        if other != own {
                            law_put_keeps_others(rest.pending_function_ids, own, id, other);
                        }
                    }
                }
            }
        }
    }
}

/// Whether a later table of method ids has all that an earlier one has.
pub open spec fn ids_kept(a: EnvV, b: EnvV) -> bool {
    &&& a.current_module == b.current_module
    &&& a.builtin_local_names == b.builtin_local_names
    &&& forall|k: (Chars, Chars)| #[trigger]
        holds(a.pending_user_method_ids, k) ==> find(b.pending_user_method_ids, k) == find(
            a.pending_user_method_ids,
            k,
        )
}

/// Whether every one of the methods has an id.
pub open spec fn methods_numbered(env: EnvV, for_type: Chars, ms: Seq<FunctionDecl>) -> bool {
    forall|i: int|
        0 <= i < ms.len() ==> holds(
            env.pending_user_method_ids,
            (qualified(env.current_module, for_type), (#[trigger] ms[i]).name@),
        )
}

proof fn lemma_numbered_stays(a: EnvV, b: EnvV, for_type: Chars, ms: Seq<FunctionDecl>)
    requires
        ids_kept(a, b),
        methods_numbered(a, for_type, ms),
    ensures
        methods_numbered(b, for_type, ms),
{
    assert forall|i: int| 0 <= i < ms.len() implies holds(
        b.pending_user_method_ids,
        (qualified(b.current_module, for_type), (#[trigger] ms[i]).name@),
    ) by {
        let k = (qualified(a.current_module, for_type), ms[i].name@);
        assert(holds(a.pending_user_method_ids, k));
    }
}

proof fn lemma_kept_through(a: EnvV, b: EnvV, c: EnvV)
    requires
        ids_kept(a, b),
        ids_kept(b, c),
    ensures
        ids_kept(a, c),
{
    assert forall|k: (Chars, Chars)| #[trigger] holds(a.pending_user_method_ids, k) implies find(
        c.pending_user_method_ids,
        k,
    ) == find(a.pending_user_method_ids, k) by {
        assert(holds(b.pending_user_method_ids, k));
    }
}

proof fn lemma_id_given(env: EnvV, for_type: Chars, name: Chars)
    ensures
        ids_kept(env, method_id_given(env, for_type, name)),
        holds(
            method_id_given(env, for_type, name).pending_user_method_ids,
            (qualified(env.current_module, for_type), name),
        ),
{
    let key = (qualified(env.current_module, for_type), name);
    let id = crate::span::FuncId(env.next_func_id);
    law_find_after_put(env.pending_user_method_ids, key, id);
    assert forall|k: (Chars, Chars)| #[trigger]
        holds(env.pending_user_method_ids, k) && k != key implies find(
        put(env.pending_user_method_ids, key, id),
        k,
    ) == find(env.pending_user_method_ids, k) by {
        law_put_keeps_others(env.pending_user_method_ids, key, id, k);
    }
}

proof fn lemma_method_ids(env: EnvV, for_type: Chars, ms: Seq<FunctionDecl>, n: int)
    requires
        0 <= n <= ms.len(),
    ensures
        ids_kept(env, method_ids_n(env, for_type, ms, n)),
        methods_numbered(method_ids_n(env, for_type, ms, n), for_type, ms.take(n)),
    decreases n,
{
    if n > 0 {
        lemma_method_ids(env, for_type, ms, n - 1);
        let rest = method_ids_n(env, for_type, ms, n - 1);
        let r = method_ids_n(env, for_type, ms, n);
        lemma_id_given(rest, for_type, ms[n - 1].name@);
        lemma_kept_through(env, rest, r);
        lemma_numbered_stays(rest, r, for_type, ms.take(n - 1));
        assert forall|i: int| 0 <= i < n implies holds(
            r.pending_user_method_ids,
            (qualified(r.current_module, for_type), (#[trigger] ms.take(n)[i]).name@),
        ) by {
            if i < n - 1 {
                assert(ms.take(n - 1)[i] == ms.take(n)[i]);
            }
        }
    }
}

proof fn lemma_inline_ids(env: EnvV, for_type: Chars, impls: Seq<InlineTraitImpl>, n: int)
    requires
        0 <= n <= impls.len(),
    ensures
        ids_kept(env, inline_ids_n(env, for_type, impls, n)),
        forall|i: int|
            0 <= i < n ==> methods_numbered(
                inline_ids_n(env, for_type, impls, n),
                for_type,
                (#[trigger] impls[i]).methods@,
            ),
    decreases n,
{
    if n > 0 {
        lemma_inline_ids(env, for_type, impls, n - 1);
        let rest = inline_ids_n(env, for_type, impls, n - 1);
        let r = inline_ids_n(env, for_type, impls, n);
        let ms = impls[n - 1].methods@;
        lemma_method_ids(rest, for_type, ms, ms.len() as int);
        assert(ms.take(ms.len() as int) =~= ms);
        lemma_kept_through(env, rest, r);
        assert forall|i: int| 0 <= i < n implies methods_numbered(
            r,
            for_type,
            (#[trigger] impls[i]).methods@,
        ) by {
            if i < n - 1 {
                lemma_numbered_stays(rest, r, for_type, impls[i].methods@);
            }
        }
    }
}

/// Whether every method of a declaration has an id: those of a struct or an enum
/// and of the trait implementations in it, and those of an `impl` block. A type
/// with the name of a builtin is left out.
pub open spec fn declaration_numbered(env: EnvV, d: Declaration) -> bool {
    match d {
        Declaration::Struct(s) => env.builtin_local_names.contains(s.name@) || (methods_numbered(
            env,
            s.name@,
            s.methods@,
        ) && forall|i: int|
            0 <= i < s.trait_impls@.len() ==> methods_numbered(
                env,
                s.name@,
                (#[trigger] s.trait_impls@[i]).methods@,
            )),
        Declaration::Enum(e) => env.builtin_local_names.contains(e.name@) || (methods_numbered(
            env,
            e.name@,
            e.methods@,
        ) && forall|i: int|
            0 <= i < e.trait_impls@.len() ==> methods_numbered(
                env,
                e.name@,
                (#[trigger] e.trait_impls@[i]).methods@,
            )),
        Declaration::Impl(i) => methods_numbered(env, i.for_type@, i.methods@),
        _ => true,
    }
}

proof fn lemma_type_ids(
    env: EnvV,
    for_type: Chars,
    ms: Seq<FunctionDecl>,
    impls: Seq<InlineTraitImpl>,
)
    ensures
        ids_kept(env, type_ids(env, for_type, ms, impls)),
        !env.builtin_local_names.contains(for_type) ==> methods_numbered(
            type_ids(env, for_type, ms, impls),
            for_type,
            ms,
        ) && forall|i: int|
            0 <= i < impls.len() ==> methods_numbered(
                type_ids(env, for_type, ms, impls),
                for_type,
                (#[trigger] impls[i]).methods@,
            ),
{
    if !env.builtin_local_names.contains(for_type) {
        let own = method_ids_n(env, for_type, ms, ms.len() as int);
        lemma_method_ids(env, for_type, ms, ms.len() as int);
        assert(ms.take(ms.len() as int) =~= ms);
        lemma_inline_ids(own, for_type, impls, impls.len() as int);
        let r = inline_ids_n(own, for_type, impls, impls.len() as int);
        lemma_kept_through(env, own, r);
        lemma_numbered_stays(own, r, for_type, ms);
    }
}

proof fn lemma_declaration_stays(a: EnvV, b: EnvV, d: Declaration)
    requires
        ids_kept(a, b),
        declaration_numbered(a, d),
    ensures
        declaration_numbered(b, d),
{
    match d {
        Declaration::Struct(s) => {
            if !a.builtin_local_names.contains(s.name@) {
                lemma_numbered_stays(a, b, s.name@, s.methods@);
                assert forall|i: int| 0 <= i < s.trait_impls@.len() implies methods_numbered(
                    b,
                    s.name@,
                    (#[trigger] s.trait_impls@[i]).methods@,
                ) by {
                    lemma_numbered_stays(a, b, s.name@, s.trait_impls@[i].methods@);
                }
            }
        },
        Declaration::Enum(e) => {
            if !a.builtin_local_names.contains(e.name@) {
                lemma_numbered_stays(a, b, e.name@, e.methods@);
                assert forall|i: int| 0 <= i < e.trait_impls@.len() implies methods_numbered(
                    b,
                    e.name@,
                    (#[trigger] e.trait_impls@[i]).methods@,
                ) by {
                    lemma_numbered_stays(a, b, e.name@, e.trait_impls@[i].methods@);
                }
            }
        },
        Declaration::Impl(i) => {
            lemma_numbered_stays(a, b, i.for_type@, i.methods@);
        },
        _ => {},
    }
}

/// Every method gets an id, wherever it is declared, and keeps it.
pub proof fn law_every_method_has_an_id(env: EnvV, ds: Seq<Declaration>, n: int)
    requires
        0 <= n <= ds.len(),
    ensures
        ids_kept(env, method_decl_ids_n(env, ds, n)),
        forall|i: int|
            0 <= i < n ==> declaration_numbered(
                method_decl_ids_n(env, ds, n),
                #[trigger] ds[i],
            ),
    decreases n,
{
    if n > 0 {
        law_every_method_has_an_id(env, ds, n - 1);
        let rest = method_decl_ids_n(env, ds, n - 1);
        let r = method_decl_ids_n(env, ds, n);
        match ds[n - 1] {
            Declaration::Struct(s) => {
                lemma_type_ids(rest, s.name@, s.methods@, s.trait_impls@);
            },
            Declaration::Enum(e) => {
                lemma_type_ids(rest, e.name@, e.methods@, e.trait_impls@);
            },
            Declaration::Impl(i) => {
                lemma_method_ids(rest, i.for_type@, i.methods@, i.methods@.len() as int);
                assert(i.methods@.take(i.methods@.len() as int) =~= i.methods@);
            },
            _ => {},
        }
        lemma_kept_through(env, rest, r);
        assert forall|i: int| 0 <= i < n implies declaration_numbered(r, #[trigger] ds[i]) by {
            if i < n - 1 {
                lemma_declaration_stays(rest, r, ds[i]);
            }
        }
    }
}

// ── Names of types ───────────────────────────────────────────────────

/// Whether the name of a struct or an enum is known.
pub open spec fn type_known(env: EnvV, d: Declaration) -> bool {
    match d {
        Declaration::Struct(s) => env.builtin_local_names.contains(s.name@) || holds(
            env.structs,
            qualified(env.current_module, s.name@),
        ),
        Declaration::Enum(e) => env.builtin_local_names.contains(e.name@) || holds(
            env.enums,
            qualified(env.current_module, e.name@),
        ),
        _ => true,
    }
}

/// Whether a later environment knows the types of an earlier one.
pub open spec fn types_kept(a: EnvV, b: EnvV) -> bool {
    &&& a.current_module == b.current_module
    &&& a.builtin_local_names == b.builtin_local_names
    &&& forall|k: Chars| #[trigger] holds(a.structs, k) ==> find(b.structs, k) == find(a.structs, k)
    &&& forall|k: Chars| #[trigger] holds(a.enums, k) ==> find(b.enums, k) == find(a.enums, k)
}

proof fn lemma_type_name_known(env: EnvV, d: Declaration)
    ensures
        types_kept(env, type_name_known(env, d)),
        type_known(type_name_known(env, d), d),
{
    match d {
        Declaration::Struct(s) => {
            let key = qualified(env.current_module, s.name@);
            let info = crate::register::struct_placeholder(env, s);
            if !holds(env.structs, key) {
                crate::table::lemma_put_new(env.structs, key, info);
                law_find_after_put(env.structs, key, info);
                assert forall|k: Chars| #[trigger] holds(env.structs, k) implies find(
                    env.structs.push((key, info)),
                    k,
                ) == find(env.structs, k) by {
                    law_put_keeps_others(env.structs, key, info, k);
                }
            }
        },
        Declaration::Enum(e) => {
            let key = qualified(env.current_module, e.name@);
            let info = crate::register::enum_placeholder(env, e);
            if !holds(env.enums, key) {
                crate::table::lemma_put_new(env.enums, key, info);
                law_find_after_put(env.enums, key, info);
                assert forall|k: Chars| #[trigger] holds(env.enums, k) implies find(
                    env.enums.push((key, info)),
                    k,
                ) == find(env.enums, k) by {
                    law_put_keeps_others(env.enums, key, info, k);
                }
            }
        },
        _ => {},
    }
}

/// The names of all structs and enums of a module are known before any of them
/// is looked into, in whatever order they are declared.
pub proof fn law_every_type_is_known(env: EnvV, ds: Seq<Declaration>, n: int)
    requires
        0 <= n <= ds.len(),
    ensures
        types_kept(env, type_names_known_n(env, ds, n)),
        forall|i: int| 0 <= i < n ==> type_known(type_names_known_n(env, ds, n), #[trigger] ds[i]),
    decreases n,
{
    if n > 0 {
        law_every_type_is_known(env, ds, n - 1);
        let rest = type_names_known_n(env, ds, n - 1);
        let r = type_names_known_n(env, ds, n);
        lemma_type_name_known(rest, ds[n - 1]);
        assert forall|k: Chars| #[trigger] holds(env.structs, k) implies find(r.structs, k) == find(
            env.structs,
            k,
        ) by {
            assert(holds(rest.structs, k));
        }
        assert forall|k: Chars| #[trigger] holds(env.enums, k) implies find(r.enums, k) == find(
            env.enums,
            k,
        ) by {
            assert(holds(rest.enums, k));
        }
        assert forall|i: int| 0 <= i < n implies type_known(r, #[trigger] ds[i]) by {
            if i < n - 1 {
                assert(type_known(rest, ds[i]));
            }
        }
    }
}

} // verus!
