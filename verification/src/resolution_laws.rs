//! What types stand for: parts of types by position, what a call infers, what a
//! written type resolves to, and which declarations a name finds.
use crate::ast::{FunctionType, GenericType, NamedType, Statement, TypeExpr};
use crate::binding_laws::law_type_arguments_bind_by_position;
use crate::calls::{
    bound_method_from, merged_n, method_from, rebound_n, trait_method_from,
};
use crate::check_expr::{has_unit_variant, own_type, unit_variant_from};
use crate::check_types::{
    applied, bind, inferred, inferred_n, is_builtin_generic, resolved, resolved_n, unified,
    unified_from, UnifyErrorV,
};
use crate::env::{canonical, in_scope, EnvV};
use crate::fit_laws::{lemma_counts, silent};
use crate::flow::{has_return, returns_from};
use crate::info::{EnumInfoV, FieldInfoV, TraitMethodInfoV};
use crate::pin::field_types_n;
use crate::privacy::{
    json_private, json_private_from, not_json, not_json_from, payloads_n, private_n,
};
use crate::register_laws::{law_resolved_by_position, law_type_lists_are_sound};
use crate::span::Span;
use crate::state::StateV;
use crate::steady_parts::{kept_resolved, kept_resolved_n};
use crate::table::{find, holds, law_find_after_put, law_put_keeps_others, put};
use crate::text::Chars;
use crate::type_laws::{
    extends, law_matching_keeps_bindings, law_matching_succeeds, shadowed, shadowed_from,
};
use crate::types::{
    has_vars, has_vars_from, mentions, mentions_from, mentions_self, mentions_self_from, settled,
    settled_from, subst, subst_n, Bindings, Ty,
};
use crate::variants::{
    match_position, matches_n, owner_of, owners, sorted_n, sorted_place, EnumVariantMatchV,
};
use vstd::prelude::*;

verus! {

broadcast use crate::steady::steps;

// ── Parts of types ───────────────────────────────────────────────────

proof fn lemma_subst_list(ts: Seq<Ty>, b: Bindings, n: int)
    requires
        0 <= n <= ts.len(),
    ensures
        subst_n(ts, b, n).len() == n,
        forall|i: int| 0 <= i < n ==> #[trigger] subst_n(ts, b, n)[i] == subst(ts[i], b),
    decreases n,
{
    if n > 0 {
        lemma_subst_list(ts, b, n - 1);
    }
}

/// Type arguments are put in at every position: of a generic type and of a
/// function type.
pub proof fn law_substitution_by_position(n: Chars, ts: Seq<Ty>, r: Ty, b: Bindings)
    ensures
        subst(Ty::Generic(n, ts), b) matches Ty::Generic(m, us) && m == n && us.len() == ts.len()
            && forall|i: int| 0 <= i < ts.len() ==> #[trigger] us[i] == subst(ts[i], b),
        subst(Ty::Function(ts, Box::new(r)), b) matches Ty::Function(us, u) && us.len() == ts.len()
            && *u == subst(r, b) && forall|i: int|
            0 <= i < ts.len() ==> #[trigger] us[i] == subst(ts[i], b),
{
    lemma_subst_list(ts, b, ts.len() as int);
}

proof fn lemma_vars_list(ts: Seq<Ty>, i: int)
    requires
        0 <= i,
    ensures
        has_vars_from(ts, i) <==> exists|k: int| i <= k < ts.len() && has_vars(#[trigger] ts[k]),
    decreases ts.len() - i,
{
    if i < ts.len() {
        lemma_vars_list(ts, i + 1);
        if exists|k: int| i <= k < ts.len() && has_vars(#[trigger] ts[k]) {
            let k = choose|k: int| i <= k < ts.len() && has_vars(#[trigger] ts[k]);
            if k > i {
                assert(i + 1 <= k && has_vars(ts[k]));
            }
        }
        if has_vars(ts[i]) {
            assert(has_vars_from(ts, i));
        }
    }
}

proof fn lemma_mentions_list(ts: Seq<Ty>, name: Chars, i: int)
    requires
        0 <= i,
    ensures
        mentions_from(ts, name, i) <==> exists|k: int|
            i <= k < ts.len() && mentions(#[trigger] ts[k], name),
    decreases ts.len() - i,
{
    if i < ts.len() {
        lemma_mentions_list(ts, name, i + 1);
        if exists|k: int| i <= k < ts.len() && mentions(#[trigger] ts[k], name) {
            let k = choose|k: int| i <= k < ts.len() && mentions(#[trigger] ts[k], name);
            if k > i {
                assert(i + 1 <= k && mentions(ts[k], name));
            }
        }
        if mentions(ts[i], name) {
            assert(mentions_from(ts, name, i));
        }
    }
}

proof fn lemma_self_list(ts: Seq<Ty>, i: int)
    requires
        0 <= i,
    ensures
        mentions_self_from(ts, i) <==> exists|k: int|
            i <= k < ts.len() && mentions_self(#[trigger] ts[k]),
    decreases ts.len() - i,
{
    if i < ts.len() {
        lemma_self_list(ts, i + 1);
        if exists|k: int| i <= k < ts.len() && mentions_self(#[trigger] ts[k]) {
            let k = choose|k: int| i <= k < ts.len() && mentions_self(#[trigger] ts[k]);
            if k > i {
                assert(i + 1 <= k && mentions_self(ts[k]));
            }
        }
        if mentions_self(ts[i]) {
            assert(mentions_self_from(ts, i));
        }
    }
}

proof fn lemma_settled_list(ts: Seq<Ty>, params: Seq<Chars>, i: int)
    requires
        0 <= i,
    ensures
        settled_from(ts, params, i) <==> forall|k: int|
            i <= k < ts.len() ==> settled(#[trigger] ts[k], params),
    decreases ts.len() - i,
{
    if i < ts.len() {
        lemma_settled_list(ts, params, i + 1);
        assert(settled_from(ts, params, i) <==> settled(ts[i], params) && settled_from(
            ts,
            params,
            i + 1,
        ));
    }
}

/// A generic or function type has a type variable, names something, mentions
/// `Self` or is complete exactly as its parts do, at any position.
pub proof fn law_types_are_their_parts(
    n: Chars,
    ts: Seq<Ty>,
    r: Ty,
    name: Chars,
    params: Seq<Chars>,
)
    ensures
        has_vars(Ty::Generic(n, ts)) <==> exists|k: int|
            0 <= k < ts.len() && has_vars(#[trigger] ts[k]),
        has_vars(Ty::Function(ts, Box::new(r))) <==> has_vars(r) || exists|k: int|
            0 <= k < ts.len() && has_vars(#[trigger] ts[k]),
        mentions(Ty::Generic(n, ts), name) <==> n == name || exists|k: int|
            0 <= k < ts.len() && mentions(#[trigger] ts[k], name),
        mentions(Ty::Function(ts, Box::new(r)), name) <==> mentions(r, name) || exists|k: int|
            0 <= k < ts.len() && mentions(#[trigger] ts[k], name),
        mentions_self(Ty::Generic(n, ts)) <==> exists|k: int|
            0 <= k < ts.len() && mentions_self(#[trigger] ts[k]),
        mentions_self(Ty::Function(ts, Box::new(r))) <==> mentions_self(r) || exists|k: int|
            0 <= k < ts.len() && mentions_self(#[trigger] ts[k]),
        settled(Ty::Generic(n, ts), params) <==> forall|k: int|
            0 <= k < ts.len() ==> settled(#[trigger] ts[k], params),
        settled(Ty::Function(ts, Box::new(r)), params) <==> settled(r, params) && forall|k: int|
            0 <= k < ts.len() ==> settled(#[trigger] ts[k], params),
{
    lemma_vars_list(ts, 0);
    lemma_mentions_list(ts, name, 0);
    lemma_self_list(ts, 0);
    lemma_settled_list(ts, params, 0);
    let g = Ty::Generic(n, ts);
    let f = Ty::Function(ts, Box::new(r));
    assert(has_vars(g) == has_vars_from(ts, 0));
    assert(has_vars(f) == (has_vars_from(ts, 0) || has_vars(r)));
    assert(mentions(f, name) == (mentions_from(ts, name, 0) || mentions(r, name)));
    assert(mentions_self(f) == (mentions_self_from(ts, 0) || mentions_self(r)));
    assert(settled(f, params) == (settled_from(ts, params, 0) && settled(r, params)));
}

// ── Inference ────────────────────────────────────────────────────────

/// Whether all type variables of a type are bound.
pub open spec fn vars_bound(t: Ty, b: Bindings) -> bool
    decreases t,
{
    match t {
        Ty::TypeVar(n) => holds(b, n),
        Ty::Generic(_, args) => forall|i: int|
            0 <= i < args.len() ==> vars_bound(#[trigger] args[i], b),
        Ty::Function(ps, r) => vars_bound(*r, b) && forall|i: int|
            0 <= i < ps.len() ==> vars_bound(#[trigger] ps[i], b),
        _ => true,
    }
}

/// A pattern is matched with every type that it stands for under some bindings,
/// without an error, and with no other binding than these.
pub proof fn law_matching_finds(p: Ty, c: Ty, b: Bindings, end: Bindings)
    requires
        extends(b, end),
        vars_bound(p, end),
        !shadowed(p, end),
        subst(p, end) == c,
    ensures
        unified(p, c, b).1 is None,
        extends(unified(p, c, b).0, end),
    decreases p, 0int,
{
    match p {
        Ty::TypeVar(n) => {
            if holds(b, n) {
                assert(find(end, n) == find(b, n));
            } else {
                let r = put(b, n, c);
                assert forall|m: Chars| #[trigger] holds(r, m) implies find(end, m) == find(
                    r,
                    m,
                ) by {
                    law_find_after_put(b, n, c);
                    if m != n {
                        law_put_keeps_others(b, n, c, m);
                        assert(holds(b, m));
                    }
                }
            }
        },
        Ty::Generic(n, ps) => {
            lemma_subst_list(ps, end, ps.len() as int);
            lemma_lists_found(ps, c->Generic_1, b, end, 0);
        },
        Ty::Function(ps, pr) => {
            lemma_subst_list(ps, end, ps.len() as int);
            lemma_lists_found(ps, c->Function_0, b, end, 0);
            let b1 = unified_from(ps, c->Function_0, b, 0).0;
            law_matching_finds(*pr, *c->Function_1, b1, end);
        },
        _ => {},
    }
}

proof fn lemma_lists_found(ps: Seq<Ty>, cs: Seq<Ty>, b: Bindings, end: Bindings, i: int)
    requires
        0 <= i <= ps.len() == cs.len(),
        extends(b, end),
        !shadowed_from(ps, end, i),
        forall|k: int| 0 <= k < ps.len() ==> vars_bound(#[trigger] ps[k], end),
        forall|k: int| 0 <= k < ps.len() ==> subst(#[trigger] ps[k], end) == cs[k],
    ensures
        unified_from(ps, cs, b, i).1 is None,
        extends(unified_from(ps, cs, b, i).0, end),
    decreases ps, ps.len() - i,
{
    if i < ps.len() {
        law_matching_finds(ps[i], cs[i], b, end);
        lemma_lists_found(ps, cs, unified(ps[i], cs[i], b).0, end, i + 1);
    }
}

proof fn lemma_inferred_extends(params: Seq<Ty>, args: Seq<Ty>, i: int, n: int)
    requires
        0 <= i <= n,
    ensures
        extends(inferred_n(params, args, i).0, inferred_n(params, args, n).0),
    decreases n - i,
{
    if i < n {
        lemma_inferred_extends(params, args, i, n - 1);
        let a = inferred_n(params, args, i).0;
        let b = inferred_n(params, args, n - 1).0;
        let c = inferred_n(params, args, n).0;
        law_matching_keeps_bindings(params[n - 1], args[n - 1], b);
        assert forall|m: Chars| #[trigger] holds(a, m) implies find(c, m) == find(a, m) by {
            assert(holds(b, m));
        }
    }
}

/// Inference makes every parameter stand for the type of its argument, at every
/// position where the two match under what the positions before have bound.
pub proof fn law_inference_by_position(params: Seq<Ty>, args: Seq<Ty>, i: int)
    requires
        0 <= i < params.len() == args.len(),
        args[i] != Ty::Error,
        unified(params[i], args[i], inferred_n(params, args, i).0).1 is None,
        !shadowed(params[i], inferred(params, args).0),
    ensures
        subst(params[i], inferred(params, args).0) == args[i],
{
    lemma_inferred_extends(params, args, i + 1, params.len() as int);
    law_matching_succeeds(
        params[i],
        args[i],
        inferred_n(params, args, i).0,
        inferred(params, args).0,
    );
}

/// Inference succeeds whenever some bindings make every parameter stand for the
/// type of its argument, and then binds nothing else.
pub proof fn law_inference_finds(params: Seq<Ty>, args: Seq<Ty>, end: Bindings, n: int)
    requires
        0 <= n <= params.len() == args.len(),
        forall|i: int|
            0 <= i < params.len() ==> vars_bound(#[trigger] params[i], end) && !shadowed(
                params[i],
                end,
            ) && subst(params[i], end) == args[i] && args[i] != Ty::Error,
    ensures
        inferred_n(params, args, n).1.len() == 0,
        extends(inferred_n(params, args, n).0, end),
    decreases n,
{
    if n > 0 {
        law_inference_finds(params, args, end, n - 1);
        assert(vars_bound(params[n - 1], end));
        law_matching_finds(
            params[n - 1],
            args[n - 1],
            inferred_n(params, args, n - 1).0,
            end,
        );
    }
}

/// The errors of inference are exactly those of its positions, mismatches left
/// out, each with its position.
pub proof fn law_inference_errors_by_position(params: Seq<Ty>, args: Seq<Ty>, n: int)
    requires
        0 <= n <= params.len() == args.len() <= usize::MAX,
    ensures
        forall|i: usize, e: UnifyErrorV| #[trigger]
            inferred_n(params, args, n).1.contains((i, e)) <==> i < n && args[i as int] != Ty::Error
                && e != UnifyErrorV::Mismatch && unified(
                params[i as int],
                args[i as int],
                inferred_n(params, args, i as int).0,
            ).1 == Some(e),
    decreases n,
{
    let all = inferred_n(params, args, n).1;
    if n > 0 {
        law_inference_errors_by_position(params, args, n - 1);
        let (b, rest) = inferred_n(params, args, n - 1);
        let last = unified(params[n - 1], args[n - 1], b).1;
        assert forall|i: usize, e: UnifyErrorV| #[trigger] all.contains((i, e)) <==> i < n
            && args[i as int] != Ty::Error && e != UnifyErrorV::Mismatch && unified(
            params[i as int],
            args[i as int],
            inferred_n(params, args, i as int).0,
        ).1 == Some(e) by {
            if all.contains((i, e)) && !rest.contains((i, e)) {
                let k = choose|k: int| 0 <= k < all.len() && all[k] == (i, e);
                if k < rest.len() {
                    assert(rest[k] == (i, e));
                }
            }
            if rest.contains((i, e)) {
                let k = choose|k: int| 0 <= k < rest.len() && rest[k] == (i, e);
                assert(all[k] == (i, e));
            }
            if i == n - 1 && args[n - 1] != Ty::Error && last == Some(e) && e
                != UnifyErrorV::Mismatch {
                assert(all.last() == (i, e));
            }
        }
    } else {
        assert(all =~= Seq::empty());
    }
}

/// Bindings that are there stay; of the others, the first one of a name counts.
pub proof fn law_bindings_are_merged(b: Bindings, more: Bindings, name: Chars, n: int)
    requires
        0 <= n <= more.len(),
    ensures
        holds(b, name) ==> find(merged_n(b, more, n), name) == find(b, name),
        !holds(b, name) ==> (forall|i: int|
            0 <= i < n && (#[trigger] more[i]).0 == name && (forall|j: int|
                0 <= j < i ==> (#[trigger] more[j]).0 != name) ==> find(
                merged_n(b, more, n),
                name,
            ) == Some(more[i].1)),
        (forall|i: int| 0 <= i < n ==> (#[trigger] more[i]).0 != name) ==> find(
            merged_n(b, more, n),
            name,
        ) == find(b, name),
    decreases n,
{
    if n > 0 {
        law_bindings_are_merged(b, more, name, n - 1);
        let rest = merged_n(b, more, n - 1);
        let (key, t) = more[n - 1];
        law_find_after_put(rest, key, t);
        if key != name {
            law_put_keeps_others(rest, key, t, name);
        }
        if !holds(b, name) {
            assert forall|i: int|
                0 <= i < n && (#[trigger] more[i]).0 == name && (forall|j: int|
                    0 <= j < i ==> (#[trigger] more[j]).0 != name) implies find(
                merged_n(b, more, n),
                name,
            ) == Some(more[i].1) by {
                if i == n - 1 {
                    assert(forall|j: int| 0 <= j < n - 1 ==> (#[trigger] more[j]).0 != name);
                    assert(find(rest, name) == find(b, name));
                }
            }
        }
    }
}

/// Written type arguments bind the type parameters by position, and replace
/// what was bound before.
pub proof fn law_type_arguments_rebind(
    b: Bindings,
    params: Seq<Chars>,
    ts: Seq<Ty>,
    i: int,
    n: int,
)
    requires
        0 <= i < n <= params.len() == ts.len(),
        forall|j: int| i < j < params.len() ==> #[trigger] params[j] != params[i],
    ensures
        find(rebound_n(b, params, ts, n), params[i]) == Some(ts[i]),
    decreases n,
{
    if n - 1 == i {
        law_find_after_put(rebound_n(b, params, ts, n - 1), params[i], ts[i]);
    } else {
        law_type_arguments_rebind(b, params, ts, i, n - 1);
        law_put_keeps_others(
            rebound_n(b, params, ts, n - 1),
            params[n - 1],
            ts[n - 1],
            params[i],
        );
    }
}

// ── Written types ────────────────────────────────────────────────────

/// A written function type resolves to one with the types of its parameters, in
/// their order, and of its result; it adds no finding exactly if none of them
/// does.
pub proof fn law_function_type_resolves(env: EnvV, st: StateV, x: FunctionType)
    ensures
        ({
            let (s, t) = resolved(env, st, TypeExpr::Function(Box::new(x)));
            let n = x.param_types@.len() as int;
            let s0 = StateV {
                file_field_allowed: false,
                file_bearing_struct_allowed: false,
                ..st
            };
            let s1 = resolved_n(env, s0, x.param_types@, n).0;
            &&& t matches Ty::Function(ps, r) && ps.len() == n && *r == resolved(
                env,
                s1,
                x.return_type,
            ).1 && forall|i: int|
                0 <= i < n ==> #[trigger] ps[i] == resolved(
                    env,
                    resolved_n(env, s0, x.param_types@, i).0,
                    x.param_types@[i],
                ).1
            &&& silent(st, s) <==> silent(s1, resolved(env, s1, x.return_type).0) && forall|i: int|
                0 <= i < n ==> silent(
                    resolved_n(env, s0, x.param_types@, i).0,
                    resolved(
                        env,
                        resolved_n(env, s0, x.param_types@, i).0,
                        #[trigger] x.param_types@[i],
                    ).0,
                )
        }),
{
    let n = x.param_types@.len() as int;
    let s0 = st.files(false, false);
    law_resolved_by_position(env, s0, x.param_types@, n);
    law_type_lists_are_sound(env, s0, x.param_types@, n);
    kept_resolved_n(env, s0, x.param_types@, n);
    let s1 = resolved_n(env, s0, x.param_types@, n).0;
    lemma_counts(s0, s1);
    kept_resolved(env, s1, x.return_type);
    lemma_counts(s1, resolved(env, s1, x.return_type).0);
}

/// A written generic type of a declared struct or enum keeps its type arguments
/// at their positions, and it is a finding to write another number of them
/// than the type has parameters.
pub proof fn law_generic_type_is_applied(env: EnvV, st: StateV, x: GenericType, args: Seq<Ty>)
    requires
        !is_builtin_generic(x.name@),
        in_scope(env, env.type_aliases, x.name@) is None,
    ensures
        ({
            let (s, t) = applied(env, st, x, args);
            &&& in_scope(env, env.structs, x.name@) matches Some(info) ==> (!info.is_file_bearing
                || st.file_bearing_struct_allowed) ==> t == Ty::Generic(
                canonical(env, x.name@),
                args,
            ) && (silent(st, s) <==> args.len() == info.type_params.len())
            &&& in_scope(env, env.structs, x.name@) is None ==> (in_scope(
                env,
                env.enums,
                x.name@,
            ) matches Some(info) ==> t == Ty::Generic(canonical(env, x.name@), args) && (silent(
                st,
                s,
            ) <==> args.len() == info.type_params.len()))
            &&& in_scope(env, env.structs, x.name@) is None && in_scope(
                env,
                env.enums,
                x.name@,
            ) is None ==> !silent(st, s) && t == Ty::Error
        }),
{
}

/// A generic alias stands for its target, with the type arguments put in for
/// its parameters by position.
pub proof fn law_alias_is_applied(
    env: EnvV,
    st: StateV,
    x: GenericType,
    args: Seq<Ty>,
    i: int,
)
    requires
        in_scope(env, env.type_aliases, x.name@) matches Some(alias) && 0 <= i
            < alias.type_params.len() == args.len() && (forall|j: int|
            i < j < alias.type_params.len() ==> #[trigger] alias.type_params[j]
                != alias.type_params[i]),
    ensures
        ({
            let alias = in_scope(env, env.type_aliases, x.name@)->0;
            let b = bind(alias.type_params, args);
            &&& silent(st, applied(env, st, x, args).0)
            &&& applied(env, st, x, args).1 == subst(alias.target, b)
            &&& find(b, alias.type_params[i]) == Some(args[i])
        }),
{
    let alias = in_scope(env, env.type_aliases, x.name@)->0;
    law_type_arguments_bind_by_position(alias.type_params, args, i);
}

/// A written name stands for a type parameter that is in scope, else for an
/// alias, else for a built-in type, else for a declared struct or enum; a name
/// that is none of these is a finding.
pub proof fn law_type_name_resolves(env: EnvV, st: StateV, x: NamedType)
    ensures
        ({
            let (s, t) = resolved(env, st, TypeExpr::Named(x));
            let name = x.name@;
            let plain = !st.type_params.contains(name) && in_scope(env, env.type_aliases, name)
                is None;
            let builtin = name == "Int"@ || name == "Float"@ || name == "String"@ || name
                == "Bool"@ || name == "Void"@ || name == "File"@;
            &&& st.type_params.contains(name) ==> t == Ty::TypeVar(name) && silent(st, s)
            &&& !st.type_params.contains(name) ==> (in_scope(
                env,
                env.type_aliases,
                name,
            ) matches Some(alias) ==> (alias.type_params.len() == 0 ==> t == alias.target && silent(
                st,
                s,
            )) && (alias.type_params.len() > 0 ==> !silent(st, s)))
            &&& plain && name == "Int"@ ==> t == Ty::Int && silent(st, s)
            &&& plain && name == "Float"@ && name != "Int"@ ==> t == Ty::Float && silent(st, s)
            &&& plain && !builtin && in_scope(env, env.structs, name) is None && in_scope(
                env,
                env.enums,
                name,
            ) is Some ==> t == Ty::Named(canonical(env, name)) && silent(st, s)
            &&& plain && !builtin ==> (in_scope(env, env.structs, name) matches Some(info) ==> (
            !info.is_file_bearing || st.file_bearing_struct_allowed) ==> t == Ty::Named(
                canonical(env, name),
            ) && silent(st, s))
            &&& plain && !builtin && name != "Self"@ && in_scope(env, env.structs, name) is None
                && in_scope(env, env.enums, name) is None ==> t == Ty::Error && !silent(st, s)
        }),
{
}

// ── Methods of traits ────────────────────────────────────────────────

/// A method of a trait is found under its name, at whatever position.
pub proof fn law_trait_method_is_found(ms: Seq<TraitMethodInfoV>, name: Chars, i: int)
    requires
        0 <= i <= ms.len(),
        forall|j: int| 0 <= j < i ==> (#[trigger] ms[j]).name != name,
    ensures
        i < ms.len() && ms[i].name == name ==> method_from(ms, name, 0) == Some(ms[i]),
        i == ms.len() ==> method_from(ms, name, 0) is None,
        method_from(ms, name, 0) == method_from(ms, name, i),
    decreases i,
{
    if i > 0 {
        law_trait_method_is_found(ms, name, i - 1);
        assert(ms[i - 1].name != name);
    }
}

/// Whether the trait has the method.
pub open spec fn trait_has(env: EnvV, tr: Chars, name: Chars) -> bool {
    in_scope(env, env.traits, tr) matches Some(info) && method_from(info.methods, name, 0) is Some
}

/// A method of one of several traits is found in the first one that has it,
/// whichever that is.
pub proof fn law_method_of_some_trait_is_found(
    env: EnvV,
    traits: Seq<Chars>,
    name: Chars,
    i: int,
)
    requires
        0 <= i <= traits.len(),
        forall|j: int| 0 <= j < i ==> !trait_has(env, #[trigger] traits[j], name),
    ensures
        trait_method_from(env, traits, name, 0) == trait_method_from(env, traits, name, i),
        i < traits.len() && trait_has(env, traits[i], name) ==> trait_method_from(
            env,
            traits,
            name,
            0,
        ) == method_from(in_scope(env, env.traits, traits[i])->0.methods, name, 0),
        i == traits.len() ==> trait_method_from(env, traits, name, 0) is None,
    decreases i,
{
    if i > 0 {
        law_method_of_some_trait_is_found(env, traits, name, i - 1);
        assert(!trait_has(env, traits[i - 1], name));
    }
}

/// A method on a type parameter is found through the bounds of that parameter,
/// whichever of them has it, and not through those of another.
pub proof fn law_method_of_a_bound_is_found(
    env: EnvV,
    bounds: Seq<(Chars, Seq<Chars>)>,
    var: Chars,
    name: Chars,
    i: int,
)
    requires
        0 <= i <= bounds.len(),
        forall|j: int|
            0 <= j < i ==> (#[trigger] bounds[j]).0 != var || trait_method_from(
                env,
                bounds[j].1,
                name,
                0,
            ) is None,
    ensures
        bound_method_from(env, bounds, var, name, 0) == bound_method_from(
            env,
            bounds,
            var,
            name,
            i,
        ),
        i < bounds.len() && bounds[i].0 == var && trait_method_from(env, bounds[i].1, name, 0)
            is Some ==> bound_method_from(env, bounds, var, name, 0) == trait_method_from(
            env,
            bounds[i].1,
            name,
            0,
        ),
        i == bounds.len() ==> bound_method_from(env, bounds, var, name, 0) is None,
    decreases i,
{
    if i > 0 {
        law_method_of_a_bound_is_found(env, bounds, var, name, i - 1);
        assert(bounds[i - 1].0 != var || trait_method_from(env, bounds[i - 1].1, name, 0) is None);
    }
}

/// A variant without fields is found in the first enum that has it.
pub proof fn law_unit_variant_is_found(enums: Seq<(Chars, EnumInfoV)>, name: Chars, i: int)
    requires
        0 <= i <= enums.len(),
        forall|j: int| 0 <= j < i ==> !has_unit_variant((#[trigger] enums[j]).1, name),
    ensures
        unit_variant_from(enums, name, 0) == unit_variant_from(enums, name, i),
        i < enums.len() && has_unit_variant(enums[i].1, name) ==> unit_variant_from(enums, name, 0)
            == Some(own_type(enums[i].0, enums[i].1.type_params)),
        i == enums.len() ==> unit_variant_from(enums, name, 0) is None,
    decreases i,
{
    if i > 0 {
        law_unit_variant_is_found(enums, name, i - 1);
        assert(!has_unit_variant(enums[i - 1].1, name));
    }
}

// ── Owners of a variant ──────────────────────────────────────────────

/// Whether a visible name stands for the enum `key`, and that has the variant.
pub open spec fn owns(
    env: EnvV,
    symbols: Seq<(Chars, Chars)>,
    variant: Chars,
    key: Chars,
    n: int,
) -> bool {
    &&& exists|i: int| 0 <= i < n && (#[trigger] symbols[i]).1 == key
    &&& find(env.enums, key) matches Some(info) && find(info.variants, variant) is Some
}

/// Whether one of the candidates is the enum `key`.
pub open spec fn among(ms: Seq<EnumVariantMatchV>, key: Chars) -> bool {
    exists|i: int| 0 <= i < ms.len() && (#[trigger] ms[i]).key == key
}

/// Whether a candidate says of its enum what is declared.
pub open spec fn candidate_sound(env: EnvV, m: EnumVariantMatchV, variant: Chars) -> bool {
    find(env.enums, m.key) matches Some(info) && find(info.variants, variant) == Some(
        m.variant_types,
    ) && m.type_params == info.type_params
}

proof fn lemma_match_position(ms: Seq<EnumVariantMatchV>, key: Chars, i: int)
    requires
        0 <= i <= ms.len(),
    ensures
        i <= match_position(ms, key, i) <= ms.len(),
        match_position(ms, key, i) < ms.len() ==> ms[match_position(ms, key, i)].key == key,
        forall|j: int| i <= j < match_position(ms, key, i) ==> (#[trigger] ms[j]).key != key,
    decreases ms.len() - i,
{
    if i < ms.len() && ms[i].key != key {
        lemma_match_position(ms, key, i + 1);
    }
}

proof fn lemma_matches(
    env: EnvV,
    symbols: Seq<(Chars, Chars)>,
    variant: Chars,
    key: Chars,
    n: int,
)
    requires
        0 <= n <= symbols.len(),
    ensures
        among(matches_n(env, symbols, variant, n), key) <==> owns(env, symbols, variant, key, n),
        forall|i: int|
            0 <= i < matches_n(env, symbols, variant, n).len() ==> candidate_sound(
                env,
                #[trigger] matches_n(env, symbols, variant, n)[i],
                variant,
            ),
    decreases n,
{
    if n > 0 {
        lemma_matches(env, symbols, variant, key, n - 1);
        let ms = matches_n(env, symbols, variant, n - 1);
        let all = matches_n(env, symbols, variant, n);
        if exists|i: int| 0 <= i < n && (#[trigger] symbols[i]).1 == key {
            let i = choose|i: int| 0 <= i < n && (#[trigger] symbols[i]).1 == key;
            if i < n - 1 {
                assert(symbols[i].1 == key);
            }
        }
        match owner_of(env, symbols[n - 1], variant) {
            Some(m) => {
                lemma_match_position(ms, m.key, 0);
                let p = match_position(ms, m.key, 0);
                assert(candidate_sound(env, m, variant));
                assert(symbols[n - 1].1 == m.key);
                if among(ms, key) {
                    let k = choose|k: int| 0 <= k < ms.len() && (#[trigger] ms[k]).key == key;
                    assert(all[k].key == key);
                }
                if among(all, key) {
                    let k = choose|k: int| 0 <= k < all.len() && (#[trigger] all[k]).key == key;
                    if k < ms.len() {
                        assert(ms[k].key == key);
                    } else {
                        assert(m.key == key);
                    }
                }
                if m.key == key {
                    if p < ms.len() {
                        assert(all[p].key == key);
                    } else {
                        assert(all.last().key == key);
                    }
                }
            },
            None => {
                if owns(env, symbols, variant, key, n) && !owns(
                    env,
                    symbols,
                    variant,
                    key,
                    n - 1,
                ) {
                    assert(symbols[n - 1].1 == key);
                }
            },
        }
    }
}

proof fn lemma_sorted_place(ms: Seq<EnumVariantMatchV>, m: EnumVariantMatchV, i: int)
    requires
        0 <= i <= ms.len(),
    ensures
        0 <= sorted_place(ms, m, i) <= i,
    decreases i,
{
    if i > 0 {
        lemma_sorted_place(ms, m, i - 1);
    }
}

proof fn lemma_sorted(ms: Seq<EnumVariantMatchV>, m: EnumVariantMatchV, n: int)
    requires
        0 <= n <= ms.len(),
    ensures
        sorted_n(ms, n).len() == n,
        sorted_n(ms, n).contains(m) <==> ms.take(n).contains(m),
    decreases n,
{
    if n > 0 {
        lemma_sorted(ms, m, n - 1);
        let s = sorted_n(ms, n - 1);
        let x = ms[n - 1];
        lemma_sorted_place(s, x, s.len() as int);
        let p = sorted_place(s, x, s.len() as int);
        let r = s.insert(p, x);
        assert(r[p] == x);
        if s.contains(m) {
            let k = choose|k: int| 0 <= k < s.len() && s[k] == m;
            assert(r[if k < p { k } else { k + 1 }] == m);
        }
        if r.contains(m) && m != x {
            let k = choose|k: int| 0 <= k < r.len() && r[k] == m;
            assert(s[if k < p { k } else { k - 1 }] == m);
        }
        if ms.take(n - 1).contains(m) {
            let k = choose|k: int| 0 <= k < n - 1 && #[trigger] ms.take(n - 1)[k] == m;
            assert(ms.take(n)[k] == m);
        }
        if ms.take(n).contains(m) && m != x {
            let k = choose|k: int| 0 <= k < n && #[trigger] ms.take(n)[k] == m;
            assert(ms.take(n - 1)[k] == m);
        }
        if m == x {
            assert(ms.take(n)[n - 1] == m);
        }
    } else {
        assert(ms.take(0) =~= Seq::empty());
    }
}

/// The candidates for a variant are exactly the enums that the module can name
/// and that have the variant, each with the types that the variant has there.
pub proof fn law_owners_of_a_variant(env: EnvV, variant: Chars, key: Chars)
    ensures
        ({
            let symbols = match find(env.module_scopes, env.current_module) {
                Some(scope) => scope.visible_symbols,
                None => Seq::empty(),
            };
            &&& among(owners(env, variant), key) <==> owns(
                env,
                symbols,
                variant,
                key,
                symbols.len() as int,
            )
            &&& forall|i: int|
                0 <= i < owners(env, variant).len() ==> candidate_sound(
                    env,
                    #[trigger] owners(env, variant)[i],
                    variant,
                )
        }),
{
    if let Some(scope) = find(env.module_scopes, env.current_module) {
        let symbols = scope.visible_symbols;
        let ms = matches_n(env, symbols, variant, symbols.len() as int);
        let all = owners(env, variant);
        let n = ms.len() as int;
        lemma_matches(env, symbols, variant, key, symbols.len() as int);
        assert(ms.take(n) =~= ms);
        if among(ms, key) {
            let k = choose|k: int| 0 <= k < ms.len() && (#[trigger] ms[k]).key == key;
            lemma_sorted(ms, ms[k], n);
            let j = choose|j: int| 0 <= j < all.len() && all[j] == ms[k];
            assert(all[j].key == key);
        }
        if among(all, key) {
            let k = choose|k: int| 0 <= k < all.len() && (#[trigger] all[k]).key == key;
            lemma_sorted(ms, all[k], n);
            let j = choose|j: int| 0 <= j < ms.len() && ms[j] == all[k];
            assert(ms[j].key == key);
        }
        assert forall|i: int| 0 <= i < all.len() implies candidate_sound(
            env,
            #[trigger] all[i],
            variant,
        ) by {
            lemma_sorted(ms, all[i], n);
            let j = choose|j: int| 0 <= j < ms.len() && ms[j] == all[i];
            assert(candidate_sound(env, ms[j], variant));
        }
    } else {
        assert(owners(env, variant) =~= Seq::empty());
    }
}

// ── Control flow ─────────────────────────────────────────────────────

/// A block has a `return` exactly if one of its statements does.
pub proof fn law_block_returns(ss: Seq<Statement>, i: int)
    requires
        0 <= i,
    ensures
        returns_from(ss, i) <==> exists|k: int| i <= k < ss.len() && has_return(#[trigger] ss[k]),
    decreases ss.len() - i,
{
    if i < ss.len() {
        law_block_returns(ss, i + 1);
        if exists|k: int| i <= k < ss.len() && has_return(#[trigger] ss[k]) {
            let k = choose|k: int| i <= k < ss.len() && has_return(#[trigger] ss[k]);
            if k > i {
                assert(i + 1 <= k && has_return(ss[k]));
            }
        }
        if has_return(ss[i]) {
            assert(returns_from(ss, i));
        }
    }
}

// ── Privacy ──────────────────────────────────────────────────────────

/// The private fields of a struct are exactly those of its fields that are not
/// public.
pub proof fn law_private_fields(fs: Seq<FieldInfoV>, n: int)
    requires
        0 <= n <= fs.len(),
    ensures
        forall|p: (Chars, Span)| #[trigger]
            private_n(fs, n).contains(p) <==> exists|i: int|
                0 <= i < n && (#[trigger] fs[i]).visibility == crate::ast::Visibility::Private && p
                    == (fs[i].name, fs[i].definition_span),
        private_n(fs, n).len() == 0 <==> forall|i: int|
            0 <= i < n ==> (#[trigger] fs[i]).visibility != crate::ast::Visibility::Private,
    decreases n,
{
    let all = private_n(fs, n);
    if n > 0 {
        law_private_fields(fs, n - 1);
        let rest = private_n(fs, n - 1);
        assert forall|p: (Chars, Span)| #[trigger] all.contains(p) <==> exists|i: int|
            0 <= i < n && (#[trigger] fs[i]).visibility == crate::ast::Visibility::Private && p == (
                fs[i].name,
                fs[i].definition_span,
            ) by {
            if all.contains(p) && !rest.contains(p) {
                let k = choose|k: int| 0 <= k < all.len() && all[k] == p;
                if k < rest.len() {
                    assert(rest[k] == p);
                }
                assert(p == (fs[n - 1].name, fs[n - 1].definition_span));
            }
            if rest.contains(p) {
                let k = choose|k: int| 0 <= k < rest.len() && rest[k] == p;
                assert(all[k] == p);
                let i = choose|i: int|
                    0 <= i < n - 1 && (#[trigger] fs[i]).visibility
                        == crate::ast::Visibility::Private && p == (
                        fs[i].name,
                        fs[i].definition_span,
                    );
                assert(fs[i].visibility == crate::ast::Visibility::Private);
            }
            if fs[n - 1].visibility == crate::ast::Visibility::Private && p == (
                fs[n - 1].name,
                fs[n - 1].definition_span,
            ) {
                assert(all.last() == p);
            }
        }
    } else {
        assert(all =~= Seq::empty());
    }
}

/// JSON can carry a list of types exactly if it can carry each of them.
pub proof fn law_json_carries_all(env: EnvV, ts: Seq<Ty>, visiting: Seq<Chars>, i: int)
    requires
        0 <= i,
    ensures
        not_json_from(env, ts, visiting, i) is None <==> forall|k: int|
            i <= k < ts.len() ==> not_json(env, #[trigger] ts[k], visiting) is None,
    decreases ts.len() - i,
{
    if i < ts.len() {
        law_json_carries_all(env, ts, visiting, i + 1);
        if not_json(env, ts[i], visiting) is None {
            assert(not_json_from(env, ts, visiting, i) == not_json_from(
                env,
                ts,
                visiting,
                i + 1,
            ));
        } else {
            assert(not_json_from(env, ts, visiting, i) is Some);
        }
    }
}

/// The types in an enum are those of all its variants, at every position.
pub proof fn law_payloads_are_complete(
    variants: Seq<(Chars, Seq<Ty>)>,
    i: int,
    j: int,
    n: int,
)
    requires
        0 <= i < n <= variants.len(),
        0 <= j < variants[i].1.len(),
    ensures
        payloads_n(variants, n).contains(variants[i].1[j]),
    decreases n,
{
    let t = variants[i].1[j];
    let rest = payloads_n(variants, n - 1);
    let all = payloads_n(variants, n);
    if i < n - 1 {
        law_payloads_are_complete(variants, i, j, n - 1);
        let k = choose|k: int| 0 <= k < rest.len() && rest[k] == t;
        assert(all[k] == t);
    } else {
        assert(all[rest.len() + j] == t);
    }
}

/// The types in a struct are those of its fields, by position.
pub proof fn law_field_types_by_position(fs: Seq<FieldInfoV>, n: int)
    requires
        0 <= n <= fs.len(),
    ensures
        field_types_n(fs, n).len() == n,
        forall|i: int| 0 <= i < n ==> #[trigger] field_types_n(fs, n)[i] == fs[i].ty,
    decreases n,
{
    if n > 0 {
        law_field_types_by_position(fs, n - 1);
    }
}

/// A list of types has a struct with private fields of another module exactly
/// if one of its types does, and then something is found.
pub proof fn law_json_finds_private_fields(
    env: EnvV,
    st: StateV,
    op: Chars,
    ts: Seq<Ty>,
    span: Span,
    visiting: Seq<Chars>,
    i: int,
)
    requires
        0 <= i,
        !json_private_from(env, st, op, ts, span, visiting, i).1,
    ensures
        forall|k: int|
            i <= k < ts.len() ==> !json_private(
                env,
                st,
                op,
                #[trigger] ts[k],
                span,
                visiting,
            ).1,
        json_private_from(env, st, op, ts, span, visiting, i).0 == st,
    decreases ts.len() - i,
{
    if i < ts.len() {
        lemma_not_private_silent(env, st, op, ts[i], span, visiting);
        law_json_finds_private_fields(env, st, op, ts, span, visiting, i + 1);
    }
}

proof fn lemma_not_private_silent(
    env: EnvV,
    st: StateV,
    op: Chars,
    t: Ty,
    span: Span,
    visiting: Seq<Chars>,
)
    requires
        !json_private(env, st, op, t, span, visiting).1,
    ensures
        json_private(env, st, op, t, span, visiting).0 == st,
    decreases crate::privacy::nameable(env) - visiting.len(), t, 1int,
{
    match t {
        Ty::Generic(_, args) => {
            lemma_not_private_list(env, st, op, args, span, visiting, 0);
        },
        Ty::Named(n) => {
            if !(visiting.contains(n) || visiting.len() >= crate::privacy::nameable(env)) {
                match crate::env::named(env, env.structs, n) {
                    Some(info) => {
                        lemma_not_private_list(
                            env,
                            st,
                            op,
                            crate::pin::field_types(info.fields),
                            span,
                            visiting.push(n),
                            0,
                        );
                    },
                    None => {
                        if let Some(info) = crate::env::named(env, env.enums, n) {
                            lemma_not_private_list(
                                env,
                                st,
                                op,
                                crate::privacy::payloads(info.variants),
                                span,
                                visiting.push(n),
                                0,
                            );
                        }
                    },
                }
            }
        },
        _ => {},
    }
}

proof fn lemma_not_private_list(
    env: EnvV,
    st: StateV,
    op: Chars,
    ts: Seq<Ty>,
    span: Span,
    visiting: Seq<Chars>,
    i: int,
)
    requires
        0 <= i,
    ensures
        !json_private_from(env, st, op, ts, span, visiting, i).1 ==> json_private_from(
            env,
            st,
            op,
            ts,
            span,
            visiting,
            i,
        ).0 == st,
    decreases crate::privacy::nameable(env) - visiting.len(), ts, ts.len() - i,
{
    if i < ts.len() && !json_private(env, st, op, ts[i], span, visiting).1 {
        lemma_not_private_silent(env, st, op, ts[i], span, visiting);
        lemma_not_private_list(env, st, op, ts, span, visiting, i + 1);
    }
}

} // verus!
