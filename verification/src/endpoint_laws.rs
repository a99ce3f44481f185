//! What holds of all endpoints, and of the fields of their bodies.
use crate::ast::{Declaration, EndpointDecl, TypeModifier};
use crate::checker::{
    callables, decl_checked, decls_checked_n, endpoint_added, file_checked, file_registered,
    in_module, initial_checker, module_callables, module_decls_checked_n, modules_checked,
    modules_registered, CheckerV,
};
use crate::coherence::{lemma_file_coherent, lemma_modules_coherent};
use crate::endpoint::{
    all_relaxed_n, body_field_at, endpoint_checked, full_path, identity_checked, modified,
    modified_n, relaxed_n, retained_n,
};
use crate::info::{DerivedFieldV, EndpointInfoV};
use crate::routes::signature;
use crate::scopes::ResolvedSourceModule;
use crate::span::Span;
use crate::state::StateV;
use crate::steady::kept;
use crate::steady_program::{lemma_identity_kept, wrapped_at_most_once};
use crate::table::{holds, law_find_after_put, law_put_keeps_others};
use crate::text::Chars;
use vstd::prelude::*;

verus! {

// ── Which endpoints are kept ─────────────────────────────────────────

/// The names of the endpoints among the first `n` declarations.
pub open spec fn declared_endpoints_n(ds: Seq<Declaration>, n: int) -> Seq<Chars>
    decreases n,
{
    if n <= 0 || n > ds.len() {
        Seq::empty()
    } else {
        let rest = declared_endpoints_n(ds, n - 1);
        match ds[n - 1] {
            Declaration::Endpoint(ep) => rest.push(ep.name@),
            _ => rest,
        }
    }
}

/// Whether checking the declaration at `k` adds no finding.
pub open spec fn accepted(c: CheckerV, ds: Seq<Declaration>, k: int) -> bool {
    decls_checked_n(c, ds, k + 1).st.diagnostics.len() == decls_checked_n(
        c,
        ds,
        k,
    ).st.diagnostics.len()
}

/// The names of those of the endpoints among the first `n` declarations that
/// are valid.
pub open spec fn valid_endpoints_n(c: CheckerV, ds: Seq<Declaration>, n: int) -> Seq<Chars>
    decreases n,
{
    if n <= 0 || n > ds.len() {
        Seq::empty()
    } else {
        let rest = valid_endpoints_n(c, ds, n - 1);
        match ds[n - 1] {
            Declaration::Endpoint(ep) => if accepted(c, ds, n - 1) {
                rest.push(ep.name@)
            } else {
                rest
            },
            _ => rest,
        }
    }
}

/// The names of the valid endpoints in the first `n` modules.
pub open spec fn valid_module_endpoints_n(
    c: CheckerV,
    ms: Seq<ResolvedSourceModule>,
    n: int,
) -> Seq<Chars>
    decreases n,
{
    if n <= 0 || n > ms.len() {
        Seq::empty()
    } else {
        let before = module_decls_checked_n(c, ms, n - 1);
        let ds = ms[n - 1].program.declarations@;
        valid_module_endpoints_n(c, ms, n - 1) + valid_endpoints_n(
            CheckerV { env: in_module(before.env, ms[n - 1].path@), ..before },
            ds,
            ds.len() as int,
        )
    }
}

/// The names of endpoints.
pub open spec fn names_of_endpoints(eps: Seq<EndpointInfoV>) -> Seq<Chars> {
    Seq::new(eps.len(), |i: int| eps[i].name)
}

/// An endpoint with which something is wrong leaves the endpoints as they were.
/// Its name and its route are taken all the same.
pub proof fn law_invalid_endpoint_is_left_out(c: CheckerV, ep: EndpointDecl)
    requires
        endpoint_added(c, ep).st.diagnostics.len() != c.st.diagnostics.len(),
    ensures
        endpoint_added(c, ep).endpoints == c.endpoints,
        endpoint_added(c, ep).endpoint_names.contains(ep.name@),
        holds(endpoint_added(c, ep).route_signatures, signature(ep.method, full_path(ep))),
{
    lemma_claimed(c, ep);
}

proof fn lemma_claimed(c: CheckerV, ep: EndpointDecl)
    ensures
        ({
            let r = endpoint_added(c, ep);
            &&& r.endpoint_names.contains(ep.name@)
            &&& holds(r.route_signatures, signature(ep.method, full_path(ep)))
            &&& forall|name: Chars| #[trigger]
                c.endpoint_names.contains(name) ==> r.endpoint_names.contains(name)
            &&& forall|route: Chars| #[trigger]
                holds(c.route_signatures, route) ==> holds(r.route_signatures, route)
        }),
{
    let r = endpoint_added(c, ep);
    let own = signature(ep.method, full_path(ep));
    law_find_after_put(c.route_signatures, own, ep.name@);
    if !c.endpoint_names.contains(ep.name@) {
        assert(r.endpoint_names.last() == ep.name@);
    }
    assert forall|name: Chars| #[trigger] c.endpoint_names.contains(name) implies
        r.endpoint_names.contains(name) by {
        let i = choose|i: int| 0 <= i < c.endpoint_names.len() && c.endpoint_names[i] == name;
        assert(r.endpoint_names[i] == name);
    }
    assert forall|route: Chars| #[trigger] holds(c.route_signatures, route) implies holds(
        r.route_signatures,
        route,
    ) by {
        if route != own {
            law_put_keeps_others(c.route_signatures, own, ep.name@, route);
        }
    }
}

proof fn lemma_endpoints_checked(c: CheckerV, ds: Seq<Declaration>, n: int)
    requires
        0 <= n <= ds.len(),
    ensures
        names_of_endpoints(decls_checked_n(c, ds, n).endpoints) == names_of_endpoints(c.endpoints)
            + valid_endpoints_n(c, ds, n),
    decreases n,
{
    let r = decls_checked_n(c, ds, n);
    let own = valid_endpoints_n(c, ds, n);
    if n > 0 {
        lemma_endpoints_checked(c, ds, n - 1);
        let rest = decls_checked_n(c, ds, n - 1);
        reveal(decl_checked);
        if let Declaration::Endpoint(ep) = ds[n - 1] {
            if accepted(c, ds, n - 1) {
                assert(names_of_endpoints(r.endpoints) =~= names_of_endpoints(
                    rest.endpoints,
                ).push(ep.name@));
            }
        }
    }
    assert(names_of_endpoints(r.endpoints) =~= names_of_endpoints(c.endpoints) + own);
}

/// Every valid endpoint of a file is in the product once, in the order of the
/// declarations, and no other.
pub proof fn law_file_endpoints(ds: Seq<Declaration>)
    requires
        callables(ds) <= u32::MAX,
    ensures
        names_of_endpoints(file_checked(initial_checker(), ds).endpoints) == valid_endpoints_n(
            file_registered(initial_checker(), ds),
            ds,
            ds.len() as int,
        ),
{
    let r = file_registered(initial_checker(), ds);
    lemma_file_coherent(ds);
    lemma_endpoints_checked(r, ds, ds.len() as int);
    assert(names_of_endpoints(initial_checker().endpoints) =~= Seq::<Chars>::empty());
    assert(Seq::<Chars>::empty() + valid_endpoints_n(r, ds, ds.len() as int)
        =~= valid_endpoints_n(r, ds, ds.len() as int));
}

proof fn lemma_module_endpoints(c: CheckerV, ms: Seq<ResolvedSourceModule>, n: int)
    requires
        0 <= n <= ms.len(),
    ensures
        names_of_endpoints(module_decls_checked_n(c, ms, n).endpoints) == names_of_endpoints(
            c.endpoints,
        ) + valid_module_endpoints_n(c, ms, n),
    decreases n,
{
    let r = module_decls_checked_n(c, ms, n);
    if n > 0 {
        lemma_module_endpoints(c, ms, n - 1);
        let rest = module_decls_checked_n(c, ms, n - 1);
        let ds = ms[n - 1].program.declarations@;
        lemma_endpoints_checked(
            CheckerV { env: in_module(rest.env, ms[n - 1].path@), ..rest },
            ds,
            ds.len() as int,
        );
    }
    assert(names_of_endpoints(r.endpoints) =~= names_of_endpoints(c.endpoints)
        + valid_module_endpoints_n(c, ms, n));
}

/// The same for several modules, in their order.
pub proof fn law_module_endpoints(ms: Seq<ResolvedSourceModule>)
    requires
        module_callables(ms) <= u32::MAX,
    ensures
        names_of_endpoints(modules_checked(initial_checker(), ms).endpoints)
            == valid_module_endpoints_n(
            modules_registered(initial_checker(), ms),
            ms,
            ms.len() as int,
        ),
{
    let r = modules_registered(initial_checker(), ms);
    let n = ms.len() as int;
    lemma_modules_coherent(ms);
    lemma_module_endpoints(r, ms, n);
    assert(names_of_endpoints(initial_checker().endpoints) =~= Seq::<Chars>::empty());
    assert(Seq::<Chars>::empty() + valid_module_endpoints_n(r, ms, n)
        =~= valid_module_endpoints_n(r, ms, n));
}

// ── What they have to themselves ─────────────────────────────────────

/// Whether no two endpoints share a name or a route.
pub open spec fn endpoints_differ(eps: Seq<EndpointInfoV>) -> bool {
    forall|i: int, j: int|
        0 <= i < j < eps.len() ==> (#[trigger] eps[i]).name != (#[trigger] eps[j]).name
            && signature(eps[i].method, eps[i].path) != signature(eps[j].method, eps[j].path)
}

/// Whether, besides, each response comes in one shape.
pub open spec fn endpoints_sound(eps: Seq<EndpointInfoV>) -> bool {
    endpoints_differ(eps) && forall|i: int|
        0 <= i < eps.len() ==> wrapped_at_most_once(#[trigger] eps[i])
}

/// Whether the names and routes of the endpoints are taken.
pub open spec fn claims_held(c: CheckerV) -> bool {
    forall|i: int|
        0 <= i < c.endpoints.len() ==> c.endpoint_names.contains((#[trigger] c.endpoints[i]).name)
            && holds(
            c.route_signatures,
            signature(c.endpoints[i].method, c.endpoints[i].path),
        )
}

proof fn lemma_endpoint_sound(c: CheckerV, ep: EndpointDecl)
    requires
        endpoints_sound(c.endpoints),
        claims_held(c),
    ensures
        endpoints_sound(endpoint_added(c, ep).endpoints),
        claims_held(endpoint_added(c, ep)),
{
    let eps = c.endpoints;
    let r = endpoint_added(c, ep);
    let path = full_path(ep);
    let sig = signature(ep.method, path);
    let s1 = identity_checked(c.st, c.endpoint_names, c.route_signatures, ep, path);
    let (s2, info) = endpoint_checked(c.env, c.st, c.endpoint_names, c.route_signatures, ep);
    lemma_claimed(c, ep);
    lemma_identity_kept(c.env, c.st, c.endpoint_names, c.route_signatures, ep);
    if s2.diagnostics.len() == c.st.diagnostics.len() {
        assert(s1.diagnostics.len() == c.st.diagnostics.len()) by {
            reveal(kept);
        }
        assert(!c.endpoint_names.contains(ep.name@));
        assert(!holds(c.route_signatures, sig));
        assert(info.name == ep.name@ && info.method == ep.method && info.path == path);
        let all = eps.push(info);
        assert forall|i: int, j: int| 0 <= i < j < all.len() implies (#[trigger] all[i]).name != (
        #[trigger] all[j]).name && signature(all[i].method, all[i].path) != signature(
            all[j].method,
            all[j].path,
        ) by {
            assert(all[i] == eps[i]);
            if j < eps.len() {
                assert(all[j] == eps[j]);
            }
        }
    }
    assert forall|i: int| 0 <= i < r.endpoints.len() implies r.endpoint_names.contains(
        (#[trigger] r.endpoints[i]).name,
    ) && holds(r.route_signatures, signature(r.endpoints[i].method, r.endpoints[i].path)) by {
        if i < eps.len() {
            assert(r.endpoints[i] == eps[i]);
        }
    }
}

proof fn lemma_decls_sound(c: CheckerV, ds: Seq<Declaration>, n: int)
    requires
        endpoints_sound(c.endpoints),
        claims_held(c),
    ensures
        endpoints_sound(decls_checked_n(c, ds, n).endpoints),
        claims_held(decls_checked_n(c, ds, n)),
    decreases n,
{
    if 0 < n <= ds.len() {
        lemma_decls_sound(c, ds, n - 1);
        reveal(decl_checked);
        if let Declaration::Endpoint(ep) = ds[n - 1] {
            lemma_endpoint_sound(decls_checked_n(c, ds, n - 1), ep);
        }
    }
}

/// No two endpoints of a file share a name or a route, and each response comes
/// in one shape.
pub proof fn law_file_endpoints_differ(ds: Seq<Declaration>)
    requires
        callables(ds) <= u32::MAX,
    ensures
        endpoints_sound(file_checked(initial_checker(), ds).endpoints),
{
    lemma_file_coherent(ds);
    lemma_decls_sound(file_registered(initial_checker(), ds), ds, ds.len() as int);
}

proof fn lemma_module_decls_sound(c: CheckerV, ms: Seq<ResolvedSourceModule>, n: int)
    requires
        endpoints_sound(c.endpoints),
        claims_held(c),
    ensures
        endpoints_sound(module_decls_checked_n(c, ms, n).endpoints),
        claims_held(module_decls_checked_n(c, ms, n)),
    decreases n,
{
    if 0 < n <= ms.len() {
        lemma_module_decls_sound(c, ms, n - 1);
        let rest = module_decls_checked_n(c, ms, n - 1);
        let ds = ms[n - 1].program.declarations@;
        let there = CheckerV { env: in_module(rest.env, ms[n - 1].path@), ..rest };
        lemma_decls_sound(there, ds, ds.len() as int);
    }
}

/// No two endpoints of a program share a name or a route, whichever modules they
/// are in, and each response comes in one shape.
pub proof fn law_module_endpoints_differ(ms: Seq<ResolvedSourceModule>)
    requires
        module_callables(ms) <= u32::MAX,
    ensures
        endpoints_sound(modules_checked(initial_checker(), ms).endpoints),
{
    lemma_modules_coherent(ms);
    lemma_module_decls_sound(modules_registered(initial_checker(), ms), ms, ms.len() as int);
}

// ── The fields of a body ─────────────────────────────────────────────

/// `pick` keeps exactly the fields that it names, and `omit` exactly the
/// others; those kept stay as they are and in their order.
pub proof fn law_pick_and_omit(fs: Seq<DerivedFieldV>, names: Seq<Chars>, listed: bool, n: int)
    requires
        0 <= n <= fs.len(),
    ensures
        retained_n(fs, names, listed, n) == fs.take(n).filter(
            |f: DerivedFieldV| names.contains(f.name) == listed,
        ),
    decreases n,
{
    let keep = |f: DerivedFieldV| names.contains(f.name) == listed;
    reveal(Seq::filter);
    if n > 0 {
        law_pick_and_omit(fs, names, listed, n - 1);
        assert(fs.take(n).drop_last() =~= fs.take(n - 1));
        assert(fs.take(n).last() == fs[n - 1]);
    }
}

/// `partial` without names makes every field optional and changes nothing
/// else.
pub proof fn law_partial_of_all(fs: Seq<DerivedFieldV>, n: int)
    requires
        0 <= n <= fs.len(),
    ensures
        all_relaxed_n(fs, n) == Seq::new(
            n as nat,
            |i: int| DerivedFieldV { optional: true, ..fs[i] },
        ),
    decreases n,
{
    if n > 0 {
        law_partial_of_all(fs, n - 1);
    }
    assert(all_relaxed_n(fs, n) =~= Seq::new(
        n as nat,
        |i: int| DerivedFieldV { optional: true, ..fs[i] },
    ));
}

/// The same field, or the field made optional.
pub open spec fn same_or_optional(a: DerivedFieldV, b: DerivedFieldV) -> bool {
    b == a || b == DerivedFieldV { optional: true, ..a }
}

/// Whether `f` is one of the fields, possibly made optional.
pub open spec fn is_from(a: Seq<DerivedFieldV>, f: DerivedFieldV) -> bool {
    exists|i: int| 0 <= i < a.len() && same_or_optional(#[trigger] a[i], f)
}

/// Whether every field of `b` is a field of `a`, possibly made optional.
pub open spec fn drawn_from(a: Seq<DerivedFieldV>, b: Seq<DerivedFieldV>) -> bool {
    forall|j: int| 0 <= j < b.len() ==> is_from(a, #[trigger] b[j])
}

/// `partial` with names makes the first field of each name optional and
/// changes nothing else.
pub proof fn law_partial_of_some(
    st: StateV,
    owner: Chars,
    base: Chars,
    names: Seq<Chars>,
    fs: Seq<DerivedFieldV>,
    span: Span,
    n: int,
)
    requires
        0 <= n <= names.len(),
    ensures
        ({
            let r = relaxed_n(st, owner, base, names, fs, span, n).1;
            &&& r.len() == fs.len()
            &&& forall|i: int|
                0 <= i < fs.len() ==> #[trigger] r[i] == if names.take(n).contains(fs[i].name)
                    && body_field_at(fs, fs[i].name, 0) == i {
                    DerivedFieldV { optional: true, ..fs[i] }
                } else {
                    fs[i]
                }
        }),
    decreases n,
{
    if n > 0 {
        law_partial_of_some(st, owner, base, names, fs, span, n - 1);
        let rest = relaxed_n(st, owner, base, names, fs, span, n - 1).1;
        let r = relaxed_n(st, owner, base, names, fs, span, n).1;
        let before = names.take(n - 1);
        let name = names[n - 1];
        let k = body_field_at(rest, name, 0);
        assert forall|i: int| 0 <= i < fs.len() implies (#[trigger] rest[i]).name == fs[i].name by {}
        lemma_field_at(rest, name, 0);
        lemma_same_field_at(fs, rest, name, 0);
        assert forall|x: Chars| #[trigger]
            names.take(n).contains(x) <==> before.contains(x) || x == name by {
            assert(names.take(n) =~= before.push(name));
            if before.contains(x) {
                let a = choose|a: int| 0 <= a < before.len() && #[trigger] before[a] == x;
                assert(names.take(n)[a] == x);
            }
            if names.take(n).contains(x) && x != name {
                let all = names.take(n);
                let a = choose|a: int| 0 <= a < all.len() && #[trigger] all[a] == x;
                assert(before[a] == x);
            }
            assert(names.take(n)[n - 1] == name);
        }
    } else {
        assert(names.take(0) =~= Seq::<Chars>::empty());
    }
}

/// Where a field stands depends on the names alone.
proof fn lemma_same_field_at(a: Seq<DerivedFieldV>, b: Seq<DerivedFieldV>, name: Chars, i: int)
    requires
        0 <= i <= a.len(),
        a.len() == b.len(),
        forall|k: int| 0 <= k < a.len() ==> (#[trigger] b[k]).name == a[k].name,
    ensures
        body_field_at(a, name, i) == body_field_at(b, name, i),
    decreases a.len() - i,
{
    if i < a.len() {
        assert(b[i].name == a[i].name);
        lemma_same_field_at(a, b, name, i + 1);
    }
}

proof fn lemma_field_at(fs: Seq<DerivedFieldV>, name: Chars, i: int)
    requires
        0 <= i <= fs.len(),
    ensures
        i <= body_field_at(fs, name, i) <= fs.len(),
        body_field_at(fs, name, i) < fs.len() ==> fs[body_field_at(fs, name, i)].name == name,
    decreases fs.len() - i,
{
    if i < fs.len() && fs[i].name != name {
        lemma_field_at(fs, name, i + 1);
    }
}

proof fn lemma_drawn_trans(
    a: Seq<DerivedFieldV>,
    b: Seq<DerivedFieldV>,
    c: Seq<DerivedFieldV>,
)
    requires
        drawn_from(a, b),
        drawn_from(b, c),
    ensures
        drawn_from(a, c),
{
    assert forall|j: int| 0 <= j < c.len() implies is_from(a, #[trigger] c[j]) by {
        assert(is_from(b, c[j]));
        let k = choose|k: int| 0 <= k < b.len() && same_or_optional(#[trigger] b[k], c[j]);
        assert(is_from(a, b[k]));
        let i = choose|i: int| 0 <= i < a.len() && same_or_optional(#[trigger] a[i], b[k]);
        assert(same_or_optional(a[i], c[j]));
    }
}

proof fn lemma_retained_drawn(fs: Seq<DerivedFieldV>, names: Seq<Chars>, listed: bool, n: int)
    requires
        0 <= n <= fs.len(),
    ensures
        drawn_from(fs, retained_n(fs, names, listed, n)),
    decreases n,
{
    if n > 0 {
        lemma_retained_drawn(fs, names, listed, n - 1);
        let rest = retained_n(fs, names, listed, n - 1);
        let r = retained_n(fs, names, listed, n);
        assert forall|j: int| 0 <= j < r.len() implies is_from(fs, #[trigger] r[j]) by {
            if j < rest.len() {
                assert(r[j] == rest[j]);
            } else {
                assert(same_or_optional(fs[n - 1], r[j]));
            }
        }
    }
}

proof fn lemma_modified_drawn(
    st: StateV,
    owner: Chars,
    base: Chars,
    m: TypeModifier,
    fs: Seq<DerivedFieldV>,
)
    ensures
        drawn_from(fs, modified(st, owner, base, m, fs).1),
{
    let r = modified(st, owner, base, m, fs).1;
    match m {
        TypeModifier::Omit { fields, span } => {
            lemma_retained_drawn(fs, fields.deep_view(), false, fs.len() as int);
        },
        TypeModifier::Pick { fields, span } => {
            lemma_retained_drawn(fs, fields.deep_view(), true, fs.len() as int);
        },
        TypeModifier::Partial { fields, span } => {
            match fields {
                Some(names) => {
                    law_partial_of_some(
                        st,
                        owner,
                        base,
                        names.deep_view(),
                        fs,
                        span,
                        names.deep_view().len() as int,
                    );
                },
                None => {
                    law_partial_of_all(fs, fs.len() as int);
                },
            }
            assert forall|j: int| 0 <= j < r.len() implies is_from(fs, #[trigger] r[j]) by {
                assert(same_or_optional(fs[j], r[j]));
            }
        },
    }
}

/// Modifiers add no field to a body: each is a field of the struct that the
/// body starts from, possibly made optional.
pub proof fn law_modifiers_add_nothing(
    st: StateV,
    owner: Chars,
    base: Chars,
    ms: Seq<TypeModifier>,
    fs: Seq<DerivedFieldV>,
    n: int,
)
    requires
        0 <= n <= ms.len(),
    ensures
        drawn_from(fs, modified_n(st, owner, base, ms, fs, n).1),
    decreases n,
{
    if n > 0 {
        law_modifiers_add_nothing(st, owner, base, ms, fs, n - 1);
        let (s, rest) = modified_n(st, owner, base, ms, fs, n - 1);
        lemma_modified_drawn(s, owner, base, ms[n - 1], rest);
        lemma_drawn_trans(fs, rest, modified_n(st, owner, base, ms, fs, n).1);
    } else {
        assert forall|j: int| 0 <= j < fs.len() implies is_from(fs, #[trigger] fs[j]) by {
            assert(same_or_optional(fs[j], fs[j]));
        }
    }
}

} // verus!
