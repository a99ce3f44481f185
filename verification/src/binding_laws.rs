//! What the names in a scope stand for: the variables that patterns and
//! parameters define, and the type arguments that a type binds.
use crate::ast::{MatchArm, Param, Pattern};
use crate::check_expr::{
    bound_fields_n, captured_n, field_from, params_defined_n, pattern_defined, resolved_params_n,
};
use crate::check_types::{base_and_bindings, bind, bind_n, resolved};
use crate::env::EnvV;
use crate::fit_laws::silent;
use crate::info::{CaptureInfoV, FieldInfoV, VarInfoV};
use crate::span::Span;
use crate::state::{fixed, variable_below, StateV};
use crate::table::{find, holds, law_find_after_put, law_put_keeps_others};
use crate::text::Chars;
use crate::types::{subst, Bindings, Ty};
use vstd::prelude::*;

verus! {

// ── Variables ────────────────────────────────────────────────────────

proof fn lemma_below_same(
    a: Seq<Seq<(Chars, VarInfoV)>>,
    b: Seq<Seq<(Chars, VarInfoV)>>,
    name: Chars,
    n: int,
)
    requires
        0 <= n <= a.len(),
        n <= b.len(),
        forall|i: int| 0 <= i < n ==> find(#[trigger] a[i], name) == find(b[i], name),
    ensures
        variable_below(a, name, n) == variable_below(b, name, n),
    decreases n,
{
    if n > 0 {
        assert(find(a[n - 1], name) == find(b[n - 1], name));
        lemma_below_same(a, b, name, n - 1);
    }
}

/// A new variable is found under its name, shadows those outside, and leaves
/// every other name as it was; a name that the scope has keeps its variable.
pub proof fn law_definition_is_found(st: StateV, name: Chars, v: VarInfoV, other: Chars)
    requires
        st.scopes.len() > 0,
    ensures
        !holds(st.scopes.last(), name) ==> st.define(name, v).variable(name) == Some(v),
        holds(st.scopes.last(), name) ==> st.define(name, v).variable(name) == st.variable(name),
        other != name ==> st.define(name, v).variable(other) == st.variable(other),
        st.define(name, v).scopes.len() == st.scopes.len(),
        other != name ==> find(st.define(name, v).scopes.last(), other) == find(
            st.scopes.last(),
            other,
        ),
        holds(st.define(name, v).scopes.last(), name),
        find(st.define(name, v).scopes.last(), name) == if holds(st.scopes.last(), name) {
            find(st.scopes.last(), name)
        } else {
            Some(v)
        },
{
    let r = st.define(name, v);
    let n = st.scopes.len() as int;
    law_find_after_put(st.scopes.last(), name, v);
    if other != name {
        law_put_keeps_others(st.scopes.last(), name, v, other);
        assert(find(r.scopes[n - 1], other) == find(st.scopes[n - 1], other));
        lemma_below_same(st.scopes, r.scopes, other, n);
    }
}

/// A variable that the innermost scope has is what its name stands for.
proof fn lemma_innermost(st: StateV, name: Chars, v: VarInfoV)
    requires
        st.scopes.len() > 0,
        find(st.scopes.last(), name) == Some(v),
    ensures
        st.variable(name) == Some(v),
{
}

/// A variable of an entered scope is gone when the scope is left.
pub proof fn law_scope_hides_nothing(st: StateV, name: Chars)
    ensures
        st.enter().variable(name) == st.variable(name),
        st.enter().leave() == st,
{
    let n = st.scopes.len() as int;
    assert(st.enter().scopes[n] =~= Seq::empty());
    lemma_below_same(st.scopes, st.enter().scopes, name, n);
    assert(st.enter().leave().scopes =~= st.scopes);
}

// ── Patterns ─────────────────────────────────────────────────────────

/// Whether a pattern has a name at `i` that it has not had before.
pub open spec fn names_at(names: Seq<Chars>, i: int) -> bool {
    &&& 0 <= i < names.len()
    &&& names[i] != "_"@
    &&& forall|j: int| 0 <= j < i ==> #[trigger] names[j] != names[i]
}

proof fn lemma_field_bound(
    st: StateV,
    names: Seq<Chars>,
    ts: Seq<Ty>,
    b: Bindings,
    span: Span,
    i: int,
    n: int,
)
    requires
        st.scopes.len() > 0,
        names_at(names, i),
        i < ts.len(),
        0 <= n <= names.len(),
        !holds(st.scopes.last(), names[i]),
    ensures
        ({
            let r = bound_fields_n(st, names, ts, b, span, n);
            &&& r.scopes.len() == st.scopes.len()
            &&& find(r.scopes.last(), names[i]) == if n <= i {
                None
            } else {
                Some(fixed(subst(ts[i], b), span))
            }
        }),
    decreases n,
{
    if n > 0 {
        lemma_field_bound(st, names, ts, b, span, i, n - 1);
        let s = bound_fields_n(st, names, ts, b, span, n - 1);
        if names[n - 1] != "_"@ && n - 1 < ts.len() {
            law_definition_is_found(
                s,
                names[n - 1],
                fixed(subst(ts[n - 1], b), span),
                names[i],
            );
            if n - 1 < i {
                assert(names[n - 1] != names[i]);
            }
        }
    }
}

/// After a pattern `V(x0, .., xk)`, each `xi` that is not `_` is a variable
/// that cannot be assigned, and its type is the type of the field at the same
/// position, with the type arguments of the subject put in.
pub proof fn law_pattern_binds_by_position(
    st: StateV,
    names: Seq<Chars>,
    ts: Seq<Ty>,
    b: Bindings,
    span: Span,
    i: int,
)
    requires
        st.scopes.len() > 0,
        names_at(names, i),
        i < ts.len(),
        !holds(st.scopes.last(), names[i]),
    ensures
        bound_fields_n(st, names, ts, b, span, names.len() as int).variable(names[i]) matches Some(
            v,
        ) && v.ty == subst(ts[i], b) && !v.is_mut,
{
    lemma_field_bound(st, names, ts, b, span, i, names.len() as int);
    lemma_innermost(
        bound_fields_n(st, names, ts, b, span, names.len() as int),
        names[i],
        fixed(subst(ts[i], b), span),
    );
}

proof fn lemma_fields_silent(
    st: StateV,
    names: Seq<Chars>,
    ts: Seq<Ty>,
    b: Bindings,
    span: Span,
    n: int,
)
    ensures
        bound_fields_n(st, names, ts, b, span, n).diagnostics == st.diagnostics,
    decreases n,
{
    if 0 < n <= names.len() {
        lemma_fields_silent(st, names, ts, b, span, n - 1);
    }
}

/// An arm for a variant gives each name in its pattern the type of the field
/// at the same position, with the type arguments of the subject put in; it is
/// a finding if the pattern has another number of names than the variant has
/// fields.
pub proof fn law_arm_binds_fields(
    env: EnvV,
    st: StateV,
    arm: MatchArm,
    subject: Ty,
    key: Chars,
    ts: Seq<Ty>,
    i: int,
)
    requires
        arm.pattern is Variant,
        base_and_bindings(env, subject).0 == Some(key),
        find(env.enums, key) matches Some(info) && find(
            info.variants,
            arm.pattern->Variant_0.variant@,
        ) == Some(ts),
    ensures
        ({
            let names = arm.pattern->Variant_0.bindings.deep_view();
            let b = base_and_bindings(env, subject).1;
            let r = pattern_defined(env, st.enter(), arm, subject, Some(key), b);
            &&& silent(st, r) <==> names.len() == ts.len()
            &&& names_at(names, i) && i < ts.len() ==> (r.variable(names[i]) matches Some(v)
                && v.ty == subst(ts[i], b) && !v.is_mut)
        }),
{
    let v = arm.pattern->Variant_0;
    let names = v.bindings.deep_view();
    let b = base_and_bindings(env, subject).1;
    let r = pattern_defined(env, st.enter(), arm, subject, Some(key), b);
    let s = st.enter().error_if(
        v.bindings.len() != ts.len(),
        "variant `"@ + v.variant@ + "` has "@ + crate::text::decimal(ts.len())
            + " field(s) but pattern has "@ + crate::text::decimal(v.bindings@.len())
            + " binding(s)"@,
        v.span,
    );
    lemma_fields_silent(s, names, ts, b, arm.span, names.len() as int);
    assert(r == bound_fields_n(s, names, ts, b, arm.span, names.len() as int));
    if names_at(names, i) && i < ts.len() {
        assert(s.scopes.last() =~= Seq::empty());
        law_pattern_binds_by_position(s, names, ts, b, arm.span, i);
    }
}

/// A name alone as a pattern is a variable of the subject's type; `_` and a
/// literal define nothing.
pub proof fn law_arm_binds_subject(
    env: EnvV,
    st: StateV,
    arm: MatchArm,
    subject: Ty,
    base: Option<Chars>,
    b: Bindings,
)
    ensures
        ({
            let r = pattern_defined(env, st.enter(), arm, subject, base, b);
            match arm.pattern {
                Pattern::Binding(name, span) => silent(st, r) && (r.variable(name@) matches Some(v)
                    && v.ty == subject && !v.is_mut),
                Pattern::Wildcard(_) | Pattern::Literal(_) => r == st.enter(),
                Pattern::Variant(_) => true,
            }
        }),
{
    match arm.pattern {
        Pattern::Binding(name, span) => {
            law_definition_is_found(st.enter(), name@, fixed(subject, span), name@);
        },
        _ => {},
    }
}

// ── Parameters ───────────────────────────────────────────────────────

proof fn lemma_param_defined(st: StateV, ps: Seq<Param>, ts: Seq<Ty>, i: int, n: int)
    requires
        st.scopes.len() > 0,
        0 <= i < ps.len() == ts.len(),
        0 <= n <= ps.len(),
        forall|j: int| 0 <= j < i ==> (#[trigger] ps[j]).name@ != ps[i].name@,
        !holds(st.scopes.last(), ps[i].name@),
    ensures
        ({
            let r = params_defined_n(st, ps, ts, n);
            &&& r.scopes.len() == st.scopes.len()
            &&& find(r.scopes.last(), ps[i].name@) == if n <= i {
                None
            } else {
                Some(fixed(ts[i], ps[i].span))
            }
        }),
    decreases n,
{
    if n > 0 {
        lemma_param_defined(st, ps, ts, i, n - 1);
        let s = params_defined_n(st, ps, ts, n - 1);
        law_definition_is_found(s, ps[n - 1].name@, fixed(ts[n - 1], ps[n - 1].span), ps[i].name@);
        if n - 1 < i {
            assert(ps[n - 1].name@ != ps[i].name@);
        }
    }
}

/// Inside of a body every parameter is a variable that cannot be assigned, and
/// its type is the one at the parameter's position.
pub proof fn law_parameters_are_defined(st: StateV, ps: Seq<Param>, ts: Seq<Ty>, i: int)
    requires
        st.scopes.len() > 0,
        0 <= i < ps.len() == ts.len(),
        forall|j: int| 0 <= j < i ==> (#[trigger] ps[j]).name@ != ps[i].name@,
        !holds(st.scopes.last(), ps[i].name@),
    ensures
        params_defined_n(st, ps, ts, ps.len() as int).variable(ps[i].name@) matches Some(v) && v.ty
            == ts[i] && !v.is_mut,
{
    lemma_param_defined(st, ps, ts, i, ps.len() as int);
    lemma_innermost(
        params_defined_n(st, ps, ts, ps.len() as int),
        ps[i].name@,
        fixed(ts[i], ps[i].span),
    );
}

/// The types of parameters stand in their order: each is the type that the
/// annotation at its position resolves to.
pub proof fn law_parameter_types_by_position(env: EnvV, st: StateV, ps: Seq<Param>, n: int)
    requires
        0 <= n <= ps.len(),
    ensures
        resolved_params_n(env, st, ps, n).1.len() == n,
        forall|i: int|
            0 <= i < n ==> #[trigger] resolved_params_n(env, st, ps, n).1[i] == resolved(
                env,
                resolved_params_n(env, st, ps, i).0,
                ps[i].type_annotation,
            ).1,
    decreases n,
{
    if n > 0 {
        law_parameter_types_by_position(env, st, ps, n - 1);
    }
}

/// A lambda captures every free variable that is in scope, with whether it can
/// be assigned, and nothing else.
pub proof fn law_captures_are_complete(st: StateV, names: Seq<Chars>, n: int)
    requires
        0 <= n <= names.len(),
    ensures
        forall|c: CaptureInfoV| #[trigger]
            captured_n(st, names, n).contains(c) <==> exists|i: int|
                0 <= i < n && #[trigger] names[i] == c.name && (st.variable(c.name) matches Some(v)
                    && v.is_mut == c.is_mut),
    decreases n,
{
    let all = captured_n(st, names, n);
    if n > 0 {
        law_captures_are_complete(st, names, n - 1);
        let rest = captured_n(st, names, n - 1);
        assert forall|c: CaptureInfoV| #[trigger] all.contains(c) <==> exists|i: int|
            0 <= i < n && #[trigger] names[i] == c.name && (st.variable(c.name) matches Some(v)
                && v.is_mut == c.is_mut) by {
            if all.contains(c) && !rest.contains(c) {
                let k = choose|k: int| 0 <= k < all.len() && all[k] == c;
                if k < rest.len() {
                    assert(rest[k] == c);
                }
                assert(names[n - 1] == c.name);
            }
            if rest.contains(c) {
                let k = choose|k: int| 0 <= k < rest.len() && rest[k] == c;
                assert(all[k] == c);
                let i = choose|i: int|
                    0 <= i < n - 1 && #[trigger] names[i] == c.name && (st.variable(
                        c.name,
                    ) matches Some(v) && v.is_mut == c.is_mut);
                assert(names[i] == c.name);
            }
            if names[n - 1] == c.name && (st.variable(c.name) matches Some(v) && v.is_mut
                == c.is_mut) {
                assert(all.last() == c);
            }
        }
    } else {
        assert(all =~= Seq::empty());
    }
}

// ── Type arguments ───────────────────────────────────────────────────

proof fn lemma_bound_at(params: Seq<Chars>, args: Seq<Ty>, i: int, n: int)
    requires
        0 <= i < n <= params.len(),
        n <= args.len(),
        forall|j: int| i < j < params.len() ==> #[trigger] params[j] != params[i],
    ensures
        find(bind_n(params, args, n), params[i]) == Some(args[i]),
    decreases n,
{
    if n - 1 == i {
        law_find_after_put(bind_n(params, args, n - 1), params[i], args[i]);
    } else {
        lemma_bound_at(params, args, i, n - 1);
        law_put_keeps_others(bind_n(params, args, n - 1), params[n - 1], args[n - 1], params[i]);
    }
}

/// A type parameter stands for the type argument at its position.
pub proof fn law_type_arguments_bind_by_position(params: Seq<Chars>, args: Seq<Ty>, i: int)
    requires
        0 <= i < params.len() == args.len(),
        forall|j: int| i < j < params.len() ==> #[trigger] params[j] != params[i],
    ensures
        find(bind(params, args), params[i]) == Some(args[i]),
        subst(Ty::TypeVar(params[i]), bind(params, args)) == args[i],
{
    lemma_bound_at(params, args, i, params.len() as int);
}

/// The type parameters of a declared type stand for the type arguments of its
/// instances.
pub proof fn law_instances_bind_their_parameters(env: EnvV, key: Chars, args: Seq<Ty>)
    requires
        key != "List"@,
        key != "Map"@,
    ensures
        base_and_bindings(env, Ty::Named(key)).0 == Some(key),
        base_and_bindings(env, Ty::Generic(key, args)).0 == Some(key),
        crate::env::named(env, env.structs, key) matches Some(info) ==> base_and_bindings(
            env,
            Ty::Generic(key, args),
        ).1 == bind(info.type_params, args),
        crate::env::named(env, env.structs, key) is None ==> (crate::env::named(
            env,
            env.enums,
            key,
        ) matches Some(info) ==> base_and_bindings(env, Ty::Generic(key, args)).1 == bind(
            info.type_params,
            args,
        )),
{
}

// ── Fields ───────────────────────────────────────────────────────────

/// A field is found under its name, whatever its position; the first one of a
/// name counts.
pub proof fn law_field_is_found(fs: Seq<FieldInfoV>, name: Chars, i: int)
    requires
        0 <= i <= fs.len(),
        forall|j: int| 0 <= j < i ==> (#[trigger] fs[j]).name != name,
    ensures
        field_from(fs, name, 0) == field_from(fs, name, i),
        i < fs.len() && fs[i].name == name ==> field_from(fs, name, 0) == Some(fs[i]),
        i == fs.len() ==> field_from(fs, name, 0) is None,
    decreases i,
{
    if i > 0 {
        law_field_is_found(fs, name, i - 1);
        assert(fs[i - 1].name != name);
    }
}

} // verus!
