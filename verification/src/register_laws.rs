//! What declarations are recorded with, and what declarations without findings
//! say of their parts.
use crate::annotations::{
    annotated_before, annotations_checked, annotations_checked_n, AnnotationTarget,
};
use crate::ast::{
    Annotation, Block, EnumDecl, EnumVariant, Expr, FieldDecl, FunctionDecl, InlineTraitImpl, Param,
    Statement, StructDecl, TraitDecl, TraitMethodDecl, TypeAliasDecl, TypeExpr,
};
use crate::binding_laws::law_parameter_types_by_position;
use crate::check_expr::{resolved_params_n, sem_expr};
use crate::check_types::{resolved, resolved_n};
use crate::checker::CheckerV;
use crate::defer::{
    defer_errors_n, defers_placed, inside, nested_defers_n, placement_errors_n,
};
use crate::env::EnvV;
use crate::fit_laws::{lemma_counts, lemma_steps, silent, steady_at};
use crate::impls::{
    impl_registered, inline_impls_registered_n, inline_registered, method_named_from,
    methods_added_n, methods_built_n, orphans_filed_n, params_compared_n, trait_added,
    trait_methods_checked_n,
};
use crate::info::{MethodInfoV, TraitMethodInfoV};
use crate::paths::qualified;
use crate::register::{
    alias_registered, constraint_checked, declares_file, enum_registered, field_registered,
    fields_registered_n, function_registered, struct_registered, trait_methods_resolved_n,
    trait_registered, variants_registered_n,
};
use crate::signature::{
    defaults_n, method_resolved, non_self, non_self_n, param_names_n, pure_literal, resolved_return,
    signature_resolved, wrapped, wrapped_n,
};
use crate::span::Span;
use crate::state::{fixed, StateV};
use crate::steady_parts::{kept_resolved, kept_resolved_n};
use crate::steady_program::{kept_field_registered, kept_params_compared_n, kept_resolved_return};
use crate::steady_bodies::law_expression_keeps;
use crate::table::{find, holds, inner, law_find_after_put, law_put_keeps_others, put};
use crate::text::Chars;
use crate::types::Ty;
use vstd::prelude::*;

verus! {

broadcast use crate::steady::steps;

/// Whether the language knows the annotation, for what it stands on and with
/// its arguments.
pub open spec fn annotation_sound(ann: Annotation, target: AnnotationTarget) -> bool {
    ||| ann.name@ == "jsonName"@ && target == AnnotationTarget::Field && ann.args@.len() == 1
        && ann.args@[0] is String
    ||| ann.name@ == "skip"@ && target == AnnotationTarget::Field && ann.args@.len() == 0
    ||| ann.name@ == "jsonSerializable"@ && target == AnnotationTarget::Struct && ann.args@.len()
        == 0
}

proof fn lemma_annotation_names()
    ensures
        "jsonName"@ != "skip"@,
        "jsonName"@ != "jsonSerializable"@,
        "skip"@ != "jsonSerializable"@,
{
    reveal_strlit("jsonName");
    reveal_strlit("skip");
    reveal_strlit("jsonSerializable");
    assert("jsonName"@.len() != "skip"@.len());
    assert("jsonName"@.len() != "jsonSerializable"@.len());
    assert("skip"@.len() != "jsonSerializable"@.len());
}

/// Whether a parameter has the type that the trait asks for.
pub open spec fn param_agrees(env: EnvV, st: StateV, p: Param, asked: Ty) -> bool {
    let (s, given) = resolved(env, st, p.type_annotation);
    &&& silent(st, s)
    &&& given == asked || given is Error || asked is Error || given is TypeVar || asked is TypeVar
}

/// Whether the first of the methods that has the name is `k`.
pub open spec fn first_named(ms: Seq<FunctionDecl>, name: Chars, k: int) -> bool {
    &&& 0 <= k < ms.len()
    &&& ms[k].name@ == name
    &&& forall|j: int| 0 <= j < k ==> (#[trigger] ms[j]).name@ != name
}

proof fn lemma_method_named(ms: Seq<FunctionDecl>, name: Chars, i: int)
    requires
        0 <= i <= ms.len(),
        forall|j: int| 0 <= j < i ==> (#[trigger] ms[j]).name@ != name,
    ensures
        forall|k: int| #[trigger]
            first_named(ms, name, k) ==> method_named_from(ms, name, i) == Some(ms[k]),
        method_named_from(ms, name, i) is Some <==> exists|k: int| #[trigger]
            first_named(ms, name, k),
    decreases ms.len() - i,
{
    if i < ms.len() && ms[i].name@ != name {
        lemma_method_named(ms, name, i + 1);
    } else if i < ms.len() {
        assert(first_named(ms, name, i));
        assert forall|k: int| #[trigger] first_named(ms, name, k) implies k == i by {
            assert(ms[k].name@ == name);
        }
    } else {
        assert forall|k: int| #[trigger] first_named(ms, name, k) implies false by {
            assert(ms[k].name@ == name);
        }
    }
}

/// Whether a method of the trait is implemented: with as many parameters, each
/// of the type that the trait asks for, and with the same result.
pub open spec fn method_implemented(
    env: EnvV,
    st: StateV,
    tr: Chars,
    m: TraitMethodInfoV,
    ms: Seq<FunctionDecl>,
    span: Span,
) -> bool {
    exists|k: int| #[trigger]
        first_named(ms, m.name, k) && {
            let ps = non_self(ms[k].params@);
            let s1 = params_compared_n(env, st, m, tr, ps, span, ps.len() as int);
            let (s2, ret) = resolved_return(env, s1, ms[k].return_type);
            &&& ps.len() == m.params.len()
            &&& silent(st, s1)
            &&& silent(s1, s2)
            &&& ret == m.return_type || ret is Error || m.return_type is Error
        }
}

/// The annotations of a declaration add no finding exactly if each is one that the
/// language knows, stands on what it is for with the arguments that it takes, and
/// has not been written before.
pub proof fn law_annotations_are_sound(
    st: StateV,
    anns: Seq<Annotation>,
    target: AnnotationTarget,
    n: int,
)
    requires
        0 <= n <= anns.len(),
    ensures
        silent(st, annotations_checked_n(st, anns, target, n)) <==> forall|i: int| 0 <= i < n ==> (annotation_sound(#[trigger] anns[i], target) && forall|j: int| 0 <= j < i ==> (#[trigger] anns[j]).name@ != anns[i].name@),
{
    let counts = Seq::new((n + 1) as nat, |i: int| annotations_checked_n(st, anns, target, i).diagnostics.len());
    let oks = Seq::new(n as nat, |i: int| (annotation_sound( anns[i], target) && forall|j: int| 0 <= j < i ==> (#[trigger] anns[j]).name@ != anns[i].name@));
    assert forall|i: int| 0 <= i < n implies #[trigger] steady_at(counts, oks, i) by {
        lemma_annotations_are_sound_step(st, anns, target, i);
    }
    lemma_steps(counts, oks);
    assert forall|i: int| 0 <= i < n implies oks[i] == ((annotation_sound(#[trigger] anns[i], target) && forall|j: int| 0 <= j < i ==> (#[trigger] anns[j]).name@ != anns[i].name@)) by {}
}

proof fn lemma_annotations_are_sound_step(
    st: StateV,
    anns: Seq<Annotation>,
    target: AnnotationTarget,
    i: int,
)
    requires
        0 <= i < anns.len(),
    ensures
        ({
            let s = annotations_checked_n(st, anns, target, i);
            let next = annotations_checked_n(st, anns, target, i + 1);
            &&& s.diagnostics.len() <= next.diagnostics.len()
            &&& silent(s, next) <==> ((annotation_sound(anns[i], target) && forall|j: int| 0 <= j < i ==> (#[trigger] anns[j]).name@ != anns[i].name@))
        }),
{
    let s = annotations_checked_n(st, anns, target, i);
    lemma_annotation_names();
    if forall|j: int| 0 <= j < i ==> (#[trigger] anns[j]).name@ != anns[i].name@ {
        assert(!annotated_before(anns, anns[i].name@, i));
    }
}

/// The fields of a struct add no finding exactly if none of them does.
pub proof fn law_fields_are_sound(
    env: EnvV,
    st: StateV,
    fs: Seq<FieldDecl>,
    n: int,
)
    requires
        0 <= n <= fs.len(),
    ensures
        silent(st, fields_registered_n(env, st, fs, n).0) <==> forall|i: int| 0 <= i < n ==> silent(fields_registered_n(env, st, fs, i).0, field_registered(env, fields_registered_n(env, st, fs, i).0, #[trigger] fs[i]).0),
{
    let counts = Seq::new((n + 1) as nat, |i: int| fields_registered_n(env, st, fs, i).0.diagnostics.len());
    let oks = Seq::new(n as nat, |i: int| silent(fields_registered_n(env, st, fs, i).0, field_registered(env, fields_registered_n(env, st, fs, i).0, fs[i]).0));
    assert forall|i: int| 0 <= i < n implies #[trigger] steady_at(counts, oks, i) by {
        lemma_fields_are_sound_step(env, st, fs, i);
    }
    lemma_steps(counts, oks);
    assert forall|i: int| 0 <= i < n implies oks[i] == (silent(fields_registered_n(env, st, fs, i).0, field_registered(env, fields_registered_n(env, st, fs, i).0, #[trigger] fs[i]).0)) by {}
}

proof fn lemma_fields_are_sound_step(
    env: EnvV,
    st: StateV,
    fs: Seq<FieldDecl>,
    i: int,
)
    requires
        0 <= i < fs.len(),
    ensures
        ({
            let s = fields_registered_n(env, st, fs, i).0;
            let next = fields_registered_n(env, st, fs, i + 1).0;
            &&& s.diagnostics.len() <= next.diagnostics.len()
            &&& silent(s, next) <==> (silent(s, field_registered(env, s, fs[i]).0))
        }),
{
    let s = fields_registered_n(env, st, fs, i).0;
    kept_field_registered(env, s, fs[i]);
    lemma_counts(s, field_registered(env, s, fs[i]).0);
}

/// The variants of an enum add no finding exactly if the types of none of them do.
pub proof fn law_variants_are_sound(
    env: EnvV,
    st: StateV,
    vs: Seq<EnumVariant>,
    n: int,
)
    requires
        0 <= n <= vs.len(),
    ensures
        silent(st, variants_registered_n(env, st, vs, n).0) <==> forall|i: int| 0 <= i < n ==> silent(variants_registered_n(env, st, vs, i).0, resolved_n(env, variants_registered_n(env, st, vs, i).0, (#[trigger] vs[i]).fields@, vs[i].fields@.len() as int).0),
{
    let counts = Seq::new((n + 1) as nat, |i: int| variants_registered_n(env, st, vs, i).0.diagnostics.len());
    let oks = Seq::new(n as nat, |i: int| silent(variants_registered_n(env, st, vs, i).0, resolved_n(env, variants_registered_n(env, st, vs, i).0, ( vs[i]).fields@, vs[i].fields@.len() as int).0));
    assert forall|i: int| 0 <= i < n implies #[trigger] steady_at(counts, oks, i) by {
        lemma_variants_are_sound_step(env, st, vs, i);
    }
    lemma_steps(counts, oks);
    assert forall|i: int| 0 <= i < n implies oks[i] == (silent(variants_registered_n(env, st, vs, i).0, resolved_n(env, variants_registered_n(env, st, vs, i).0, (#[trigger] vs[i]).fields@, vs[i].fields@.len() as int).0)) by {}
}

proof fn lemma_variants_are_sound_step(
    env: EnvV,
    st: StateV,
    vs: Seq<EnumVariant>,
    i: int,
)
    requires
        0 <= i < vs.len(),
    ensures
        ({
            let s = variants_registered_n(env, st, vs, i).0;
            let next = variants_registered_n(env, st, vs, i + 1).0;
            &&& s.diagnostics.len() <= next.diagnostics.len()
            &&& silent(s, next) <==> (silent(s, resolved_n(env, s, (vs[i]).fields@, vs[i].fields@.len() as int).0))
        }),
{
    let s = variants_registered_n(env, st, vs, i).0;
    kept_resolved_n(env, s, vs[i].fields@, vs[i].fields@.len() as int);
    lemma_counts(s, resolved_n(env, s, vs[i].fields@, vs[i].fields@.len() as int).0);
}

/// A list of types adds no finding exactly if none of them does.
pub proof fn law_type_lists_are_sound(
    env: EnvV,
    st: StateV,
    tes: Seq<TypeExpr>,
    n: int,
)
    requires
        0 <= n <= tes.len(),
    ensures
        silent(st, resolved_n(env, st, tes, n).0) <==> forall|i: int| 0 <= i < n ==> silent(resolved_n(env, st, tes, i).0, resolved(env, resolved_n(env, st, tes, i).0, #[trigger] tes[i]).0),
{
    let counts = Seq::new((n + 1) as nat, |i: int| resolved_n(env, st, tes, i).0.diagnostics.len());
    let oks = Seq::new(n as nat, |i: int| silent(resolved_n(env, st, tes, i).0, resolved(env, resolved_n(env, st, tes, i).0, tes[i]).0));
    assert forall|i: int| 0 <= i < n implies #[trigger] steady_at(counts, oks, i) by {
        lemma_type_lists_are_sound_step(env, st, tes, i);
    }
    lemma_steps(counts, oks);
    assert forall|i: int| 0 <= i < n implies oks[i] == (silent(resolved_n(env, st, tes, i).0, resolved(env, resolved_n(env, st, tes, i).0, #[trigger] tes[i]).0)) by {}
}

proof fn lemma_type_lists_are_sound_step(
    env: EnvV,
    st: StateV,
    tes: Seq<TypeExpr>,
    i: int,
)
    requires
        0 <= i < tes.len(),
    ensures
        ({
            let s = resolved_n(env, st, tes, i).0;
            let next = resolved_n(env, st, tes, i + 1).0;
            &&& s.diagnostics.len() <= next.diagnostics.len()
            &&& silent(s, next) <==> (silent(s, resolved(env, s, tes[i]).0))
        }),
{
    let s = resolved_n(env, st, tes, i).0;
    kept_resolved(env, s, tes[i]);
    lemma_counts(s, resolved(env, s, tes[i]).0);
}

/// The types of parameters add no finding exactly if none of them does.
pub proof fn law_parameters_are_sound(
    env: EnvV,
    st: StateV,
    ps: Seq<Param>,
    n: int,
)
    requires
        0 <= n <= ps.len(),
    ensures
        silent(st, resolved_params_n(env, st, ps, n).0) <==> forall|i: int| 0 <= i < n ==> silent(resolved_params_n(env, st, ps, i).0, resolved(env, resolved_params_n(env, st, ps, i).0, (#[trigger] ps[i]).type_annotation).0),
{
    let counts = Seq::new((n + 1) as nat, |i: int| resolved_params_n(env, st, ps, i).0.diagnostics.len());
    let oks = Seq::new(n as nat, |i: int| silent(resolved_params_n(env, st, ps, i).0, resolved(env, resolved_params_n(env, st, ps, i).0, ( ps[i]).type_annotation).0));
    assert forall|i: int| 0 <= i < n implies #[trigger] steady_at(counts, oks, i) by {
        lemma_parameters_are_sound_step(env, st, ps, i);
    }
    lemma_steps(counts, oks);
    assert forall|i: int| 0 <= i < n implies oks[i] == (silent(resolved_params_n(env, st, ps, i).0, resolved(env, resolved_params_n(env, st, ps, i).0, (#[trigger] ps[i]).type_annotation).0)) by {}
}

proof fn lemma_parameters_are_sound_step(
    env: EnvV,
    st: StateV,
    ps: Seq<Param>,
    i: int,
)
    requires
        0 <= i < ps.len(),
    ensures
        ({
            let s = resolved_params_n(env, st, ps, i).0;
            let next = resolved_params_n(env, st, ps, i + 1).0;
            &&& s.diagnostics.len() <= next.diagnostics.len()
            &&& silent(s, next) <==> (silent(s, resolved(env, s, (ps[i]).type_annotation).0))
        }),
{
    let s = resolved_params_n(env, st, ps, i).0;
    kept_resolved(env, s, ps[i].type_annotation);
    lemma_counts(s, resolved(env, s, ps[i].type_annotation).0);
}

/// The parameters of a method of a trait implementation add no finding exactly if
/// the type of each resolves without one and is that of the trait's parameter at
/// its position, where neither is an error or a type variable.
pub proof fn law_implemented_parameters_agree(
    env: EnvV,
    st: StateV,
    m: TraitMethodInfoV,
    tr: Chars,
    ps: Seq<Param>,
    span: Span,
    n: int,
)
    requires
        0 <= n <= ps.len(),
        ps.len() <= m.params.len(),
    ensures
        silent(st, params_compared_n(env, st, m, tr, ps, span, n)) <==> forall|i: int| 0 <= i < n ==> param_agrees(env, params_compared_n(env, st, m, tr, ps, span, i), #[trigger] ps[i], m.params[i]),
{
    let counts = Seq::new((n + 1) as nat, |i: int| params_compared_n(env, st, m, tr, ps, span, i).diagnostics.len());
    let oks = Seq::new(n as nat, |i: int| param_agrees(env, params_compared_n(env, st, m, tr, ps, span, i), ps[i], m.params[i]));
    assert forall|i: int| 0 <= i < n implies #[trigger] steady_at(counts, oks, i) by {
        lemma_implemented_parameters_agree_step(env, st, m, tr, ps, span, i);
    }
    lemma_steps(counts, oks);
    assert forall|i: int| 0 <= i < n implies oks[i] == (param_agrees(env, params_compared_n(env, st, m, tr, ps, span, i), #[trigger] ps[i], m.params[i])) by {}
}

proof fn lemma_implemented_parameters_agree_step(
    env: EnvV,
    st: StateV,
    m: TraitMethodInfoV,
    tr: Chars,
    ps: Seq<Param>,
    span: Span,
    i: int,
)
    requires
        0 <= i < ps.len(),
        ps.len() <= m.params.len(),
    ensures
        ({
            let s = params_compared_n(env, st, m, tr, ps, span, i);
            let next = params_compared_n(env, st, m, tr, ps, span, i + 1);
            &&& s.diagnostics.len() <= next.diagnostics.len()
            &&& silent(s, next) <==> (param_agrees(env, s, ps[i], m.params[i]))
        }),
{
    let s = params_compared_n(env, st, m, tr, ps, span, i);
    kept_resolved(env, s, ps[i].type_annotation);
    lemma_counts(s, resolved(env, s, ps[i].type_annotation).0);
}

/// A trait implementation adds no finding about its methods exactly if it has every
/// method of the trait, with parameters and a result of the types that the trait
/// says.
pub proof fn law_implementation_is_complete(
    env: EnvV,
    st: StateV,
    for_type: Chars,
    tr: Chars,
    tms: Seq<TraitMethodInfoV>,
    ms: Seq<FunctionDecl>,
    span: Span,
    n: int,
)
    requires
        0 <= n <= tms.len(),
    ensures
        silent(st, trait_methods_checked_n(env, st, for_type, tr, tms, ms, span, n)) <==> forall|i: int| 0 <= i < n ==> method_implemented(env, trait_methods_checked_n(env, st, for_type, tr, tms, ms, span, i), tr, #[trigger] tms[i], ms, span),
{
    let counts = Seq::new((n + 1) as nat, |i: int| trait_methods_checked_n(env, st, for_type, tr, tms, ms, span, i).diagnostics.len());
    let oks = Seq::new(n as nat, |i: int| method_implemented(env, trait_methods_checked_n(env, st, for_type, tr, tms, ms, span, i), tr, tms[i], ms, span));
    assert forall|i: int| 0 <= i < n implies #[trigger] steady_at(counts, oks, i) by {
        lemma_implementation_is_complete_step(env, st, for_type, tr, tms, ms, span, i);
    }
    lemma_steps(counts, oks);
    assert forall|i: int| 0 <= i < n implies oks[i] == (method_implemented(env, trait_methods_checked_n(env, st, for_type, tr, tms, ms, span, i), tr, #[trigger] tms[i], ms, span)) by {}
}

proof fn lemma_implementation_is_complete_step(
    env: EnvV,
    st: StateV,
    for_type: Chars,
    tr: Chars,
    tms: Seq<TraitMethodInfoV>,
    ms: Seq<FunctionDecl>,
    span: Span,
    i: int,
)
    requires
        0 <= i < tms.len(),
    ensures
        ({
            let s = trait_methods_checked_n(env, st, for_type, tr, tms, ms, span, i);
            let next = trait_methods_checked_n(env, st, for_type, tr, tms, ms, span, i + 1);
            &&& s.diagnostics.len() <= next.diagnostics.len()
            &&& silent(s, next) <==> (method_implemented(env, s, tr, tms[i], ms, span))
        }),
{
    let s = trait_methods_checked_n(env, st, for_type, tr, tms, ms, span, i);
    lemma_method_named(ms, tms[i].name, 0);
    if let Some(f) = method_named_from(ms, tms[i].name, 0) {
        let ps = non_self(f.params@);
        if ps.len() == tms[i].params.len() {
            kept_params_compared_n(env, s, tms[i], tr, ps, span, ps.len() as int);
            let s1 = params_compared_n(env, s, tms[i], tr, ps, span, ps.len() as int);
            lemma_counts(s, s1);
            kept_resolved_return(env, s1, f.return_type);
            lemma_counts(s1, resolved_return(env, s1, f.return_type).0);
        } else {
            let s1 = s.error("method `"@ + tms[i].name + "` has "@ + crate::text::decimal(ps.len()) + " parameter(s) but trait `"@ + tr + "` expects "@ + crate::text::decimal(tms[i].params.len()), span);
            kept_resolved_return(env, s1, f.return_type);
            lemma_counts(s1, resolved_return(env, s1, f.return_type).0);
        }
    }
}

/// No finding is about a jump inside of a `defer` exactly if no `defer` at the top of
/// a body holds a `return` or `?`.
pub proof fn law_defers_hold_no_jumps(
    st: StateV,
    ss: Seq<Statement>,
    n: int,
)
    requires
        0 <= n <= ss.len(),
    ensures
        silent(st, defer_errors_n(st, ss, n)) <==> forall|i: int| 0 <= i < n ==> ((#[trigger] ss[i]) is Defer ==> !inside(ss[i]).saw_return_at_top && !inside(ss[i]).saw_try_at_top),
{
    let counts = Seq::new((n + 1) as nat, |i: int| defer_errors_n(st, ss, i).diagnostics.len());
    let oks = Seq::new(n as nat, |i: int| (( ss[i]) is Defer ==> !inside(ss[i]).saw_return_at_top && !inside(ss[i]).saw_try_at_top));
    assert forall|i: int| 0 <= i < n implies #[trigger] steady_at(counts, oks, i) by {
        lemma_defers_hold_no_jumps_step(st, ss, i);
    }
    lemma_steps(counts, oks);
    assert forall|i: int| 0 <= i < n implies oks[i] == (((#[trigger] ss[i]) is Defer ==> !inside(ss[i]).saw_return_at_top && !inside(ss[i]).saw_try_at_top)) by {}
}

proof fn lemma_defers_hold_no_jumps_step(
    st: StateV,
    ss: Seq<Statement>,
    i: int,
)
    requires
        0 <= i < ss.len(),
    ensures
        ({
            let s = defer_errors_n(st, ss, i);
            let next = defer_errors_n(st, ss, i + 1);
            &&& s.diagnostics.len() <= next.diagnostics.len()
            &&& silent(s, next) <==> (((ss[i]) is Defer ==> !inside(ss[i]).saw_return_at_top && !inside(ss[i]).saw_try_at_top))
        }),
{
    let s = defer_errors_n(st, ss, i);

}

// ── Signatures ───────────────────────────────────────────────────────

/// The parameters of a signature are those that are not called `self`, in their
/// order.
pub proof fn law_receiver_is_left_out(ps: Seq<Param>, n: int)
    requires
        0 <= n <= ps.len(),
    ensures
        non_self_n(ps, n) == ps.take(n).filter(|p: Param| p.name@ != "self"@),
    decreases n,
{
    reveal(Seq::filter);
    if n > 0 {
        law_receiver_is_left_out(ps, n - 1);
        assert(ps.take(n).drop_last() =~= ps.take(n - 1));
        assert(ps.take(n).last() == ps[n - 1]);
    }
}

proof fn lemma_names(ps: Seq<Param>, n: int)
    requires
        0 <= n <= ps.len(),
    ensures
        param_names_n(ps, n).len() == n,
        forall|i: int| 0 <= i < n ==> #[trigger] param_names_n(ps, n)[i] == ps[i].name@,
    decreases n,
{
    if n > 0 {
        lemma_names(ps, n - 1);
    }
}

/// The defaults of a signature are exactly those of its parameters, each at the
/// position of its parameter.
pub proof fn law_defaults_by_position(ps: Seq<Param>, n: int)
    requires
        0 <= n <= ps.len() <= usize::MAX,
    ensures
        forall|i: usize, e: Expr| #[trigger]
            defaults_n(ps, n).contains((i, e)) <==> i < n && ps[i as int].default_value == Some(e),
    decreases n,
{
    let all = defaults_n(ps, n);
    if n > 0 {
        law_defaults_by_position(ps, n - 1);
        let rest = defaults_n(ps, n - 1);
        assert forall|i: usize, e: Expr| #[trigger] all.contains((i, e)) <==> i < n
            && ps[i as int].default_value == Some(e) by {
            if all.contains((i, e)) && !rest.contains((i, e)) {
                let k = choose|k: int| 0 <= k < all.len() && all[k] == (i, e);
                if k < rest.len() {
                    assert(rest[k] == (i, e));
                }
            }
            if rest.contains((i, e)) {
                let k = choose|k: int| 0 <= k < rest.len() && rest[k] == (i, e);
                assert(all[k] == (i, e));
            }
            if i == n - 1 && ps[n - 1].default_value == Some(e) {
                assert(all.last() == (i, e));
            }
        }
    } else {
        assert(all =~= Seq::empty());
    }
}

/// The defaults that are evaluated where a function is declared are exactly
/// those that are no plain literal.
pub proof fn law_wrapped_defaults(ds: Seq<(usize, Expr)>, n: int)
    requires
        0 <= n <= ds.len(),
    ensures
        forall|i: usize| #[trigger]
            wrapped_n(ds, n).contains(i) <==> exists|k: int|
                0 <= k < n && (#[trigger] ds[k]).0 == i && !pure_literal(ds[k].1),
    decreases n,
{
    let all = wrapped_n(ds, n);
    if n > 0 {
        law_wrapped_defaults(ds, n - 1);
        let rest = wrapped_n(ds, n - 1);
        assert forall|i: usize| #[trigger] all.contains(i) <==> exists|k: int|
            0 <= k < n && (#[trigger] ds[k]).0 == i && !pure_literal(ds[k].1) by {
            if all.contains(i) && !rest.contains(i) {
                let k = choose|k: int| 0 <= k < all.len() && all[k] == i;
                if k < rest.len() {
                    assert(rest[k] == i);
                }
                assert(ds[n - 1].0 == i);
            }
            if rest.contains(i) {
                let k = choose|k: int| 0 <= k < rest.len() && rest[k] == i;
                assert(all[k] == i);
                let j = choose|j: int|
                    0 <= j < n - 1 && (#[trigger] ds[j]).0 == i && !pure_literal(ds[j].1);
                assert(ds[j].0 == i);
            }
            if ds[n - 1].0 == i && !pure_literal(ds[n - 1].1) {
                assert(all.last() == i);
            }
        }
    } else {
        assert(all =~= Seq::empty());
    }
}

/// A signature has, for each parameter but the receiver, its name, its type and
/// its default at one position; and the result type, or none.
pub proof fn law_signature_has_its_parts(
    env: EnvV,
    st: StateV,
    type_params: Seq<Chars>,
    params: Seq<Param>,
    ret: Option<TypeExpr>,
)
    requires
        params.len() <= usize::MAX,
    ensures
        ({
            let ps = non_self(params);
            let sig = signature_resolved(env, st, type_params, params, ret).1;
            let s0 = StateV { type_params, ..st };
            &&& ps == params.filter(|p: Param| p.name@ != "self"@)
            &&& sig.names.len() == ps.len()
            &&& sig.params.len() == ps.len()
            &&& forall|i: int| 0 <= i < ps.len() ==> #[trigger] sig.names[i] == ps[i].name@
            &&& forall|i: int|
                0 <= i < ps.len() ==> #[trigger] sig.params[i] == resolved(
                    env,
                    resolved_params_n(env, s0, ps, i).0,
                    ps[i].type_annotation,
                ).1
            &&& forall|i: usize, e: Expr| #[trigger]
                sig.defaults.contains((i, e)) <==> i < ps.len() && ps[i as int].default_value
                    == Some(e)
            &&& match ret {
                Some(te) => sig.ret == resolved(
                    env,
                    resolved_params_n(env, s0, ps, ps.len() as int).0,
                    te,
                ).1,
                None => sig.ret == Ty::Void,
            }
        }),
{
    let ps = non_self(params);
    let n = ps.len() as int;
    law_receiver_is_left_out(params, params.len() as int);
    assert(params.take(params.len() as int) =~= params);
    lemma_names(ps, n);
    lemma_non_self_len(params, params.len() as int);
    law_defaults_by_position(ps, n);
    law_parameter_types_by_position(env, StateV { type_params, ..st }, ps, n);
}

proof fn lemma_non_self_len(ps: Seq<Param>, n: int)
    requires
        0 <= n <= ps.len(),
    ensures
        non_self_n(ps, n).len() <= n,
    decreases n,
{
    if n > 0 {
        lemma_non_self_len(ps, n - 1);
    }
}

/// A method has its own type parameters, the names, types and defaults of its
/// signature, its result type, and whether it takes `self`.
pub proof fn law_method_has_its_parts(
    env: EnvV,
    st: StateV,
    parent: Seq<Chars>,
    f: FunctionDecl,
    id: crate::span::FuncId,
)
    ensures
        ({
            let m = method_resolved(env, st, parent, f, id).1;
            let sig = signature_resolved(
                env,
                st,
                parent + f.type_params.deep_view(),
                f.params@,
                f.return_type,
            ).1;
            &&& m.func_id == Some(id)
            &&& m.definition_span == f.name_span
            &&& m.type_params == f.type_params.deep_view()
            &&& m.params == sig.params
            &&& m.param_names == sig.names
            &&& m.default_param_exprs == sig.defaults
            &&& m.return_type == sig.ret
            &&& m.has_self <==> f.params@.len() > 0 && f.params@[0].name@ == "self"@
            &&& parent.len() > 0 || f.type_params.deep_view().len() > 0
                ==> m.default_needs_wrapper.len() == 0
            &&& parent.len() == 0 && f.type_params.deep_view().len() == 0
                ==> m.default_needs_wrapper == wrapped_n(sig.defaults, sig.defaults.len() as int)
        }),
{
}

// ── Types by position ────────────────────────────────────────────────

/// A list of types stands in its order: each is what the type at its position
/// resolves to.
pub proof fn law_resolved_by_position(env: EnvV, st: StateV, tes: Seq<TypeExpr>, n: int)
    requires
        0 <= n <= tes.len(),
    ensures
        resolved_n(env, st, tes, n).1.len() == n,
        forall|i: int|
            0 <= i < n ==> #[trigger] resolved_n(env, st, tes, n).1[i] == resolved(
                env,
                resolved_n(env, st, tes, i).0,
                tes[i],
            ).1,
    decreases n,
{
    if n > 0 {
        law_resolved_by_position(env, st, tes, n - 1);
    }
}

/// A struct has a field for every declared one, in their order, each with the
/// name, visibility, constraint and type of its declaration.
pub proof fn law_fields_by_position(env: EnvV, st: StateV, fs: Seq<FieldDecl>, n: int)
    requires
        0 <= n <= fs.len(),
    ensures
        fields_registered_n(env, st, fs, n).1.len() == n,
        forall|i: int|
            0 <= i < n ==> {
                let f = #[trigger] fields_registered_n(env, st, fs, n).1[i];
                let s = annotations_checked(
                    fields_registered_n(env, st, fs, i).0,
                    fs[i].annotations@,
                    AnnotationTarget::Field,
                );
                &&& f.name == fs[i].name@
                &&& f.visibility == fs[i].visibility
                &&& f.constraint == fs[i].constraint
                &&& f.definition_span == fs[i].span
                &&& f.ty == resolved(
                    env,
                    StateV { file_field_allowed: true, ..s },
                    fs[i].type_annotation,
                ).1
            },
    decreases n,
{
    if n > 0 {
        law_fields_by_position(env, st, fs, n - 1);
    }
}

/// A constraint adds no finding exactly if it has none itself and is a truth
/// value, where `self` is the value of the field.
pub proof fn law_constraint_is_a_truth_value(env: EnvV, st: StateV, f: FieldDecl, t: Ty)
    requires
        f.constraint is Some,
    ensures
        ({
            let s = StateV {
                in_constraint: true,
                ..st.enter().define("self"@, fixed(t, f.span))
            };
            let (r, got) = sem_expr(env, s, f.constraint->0);
            &&& silent(st, constraint_checked(env, st, f, t)) <==> silent(s, r) && (got == Ty::Bool
                || got == Ty::Error)
            &&& s.variable("self"@) matches Some(v) && v.ty == t
        }),
{
    let inside = st.enter().define("self"@, fixed(t, f.span));
    let s = StateV { in_constraint: true, ..inside };
    law_expression_keeps(env, s, f.constraint->0);
    lemma_counts(s, sem_expr(env, s, f.constraint->0).0);
    assert(st.enter().scopes.last() =~= Seq::empty());
    crate::binding_laws::law_definition_is_found(
        st.enter(),
        "self"@,
        fixed(t, f.span),
        "self"@,
    );
    assert(s.variable("self"@) == inside.variable("self"@));
}

/// An enum has a variant for every declared one, in their order, each with its
/// name and the types that its fields resolve to, in their order.
pub proof fn law_variants_by_position(env: EnvV, st: StateV, vs: Seq<EnumVariant>, n: int)
    requires
        0 <= n <= vs.len(),
    ensures
        variants_registered_n(env, st, vs, n).1.len() == n,
        forall|i: int|
            0 <= i < n ==> {
                let v = #[trigger] variants_registered_n(env, st, vs, n).1[i];
                let s = variants_registered_n(env, st, vs, i).0;
                &&& v.0 == vs[i].name@
                &&& v.1.len() == vs[i].fields@.len()
                &&& forall|j: int|
                    0 <= j < vs[i].fields@.len() ==> #[trigger] v.1[j] == resolved(
                        env,
                        resolved_n(env, s, vs[i].fields@, j).0,
                        vs[i].fields@[j],
                    ).1
            },
    decreases n,
{
    if n > 0 {
        law_variants_by_position(env, st, vs, n - 1);
        law_resolved_by_position(
            env,
            variants_registered_n(env, st, vs, n - 1).0,
            vs[n - 1].fields@,
            vs[n - 1].fields@.len() as int,
        );
    }
}

/// A trait has a method for every declared one, in their order, each with its
/// name and the types of its signature.
pub proof fn law_trait_methods_by_position(
    env: EnvV,
    st: StateV,
    own: Seq<Chars>,
    ms: Seq<TraitMethodDecl>,
    n: int,
)
    requires
        0 <= n <= ms.len(),
    ensures
        trait_methods_resolved_n(env, st, own, ms, n).1.len() == n,
        forall|i: int|
            0 <= i < n ==> {
                let m = #[trigger] trait_methods_resolved_n(env, st, own, ms, n).1[i];
                let sig = signature_resolved(
                    env,
                    trait_methods_resolved_n(env, st, own, ms, i).0,
                    own,
                    ms[i].params@,
                    ms[i].return_type,
                ).1;
                &&& m.name == ms[i].name@
                &&& m.params == sig.params
                &&& m.return_type == sig.ret
            },
    decreases n,
{
    if n > 0 {
        law_trait_methods_by_position(env, st, own, ms, n - 1);
    }
}

// ── What a declaration changes ───────────────────────────────────────

/// Whether two tables of declarations differ in methods and implementations at
/// most.
pub open spec fn same_declarations(a: EnvV, b: EnvV) -> bool {
    &&& a.structs == b.structs
    &&& a.enums == b.enums
    &&& a.functions == b.functions
    &&& a.traits == b.traits
    &&& a.type_aliases == b.type_aliases
    &&& a.current_module == b.current_module
    &&& a.builtin_local_names == b.builtin_local_names
    &&& a.pending_user_method_ids == b.pending_user_method_ids
}

proof fn lemma_orphans_same(
    c: CheckerV,
    key: Chars,
    parent: Seq<Chars>,
    ms: Seq<FunctionDecl>,
    span: Span,
    n: int,
)
    ensures
        same_declarations(c.env, orphans_filed_n(c, key, parent, ms, span, n).env),
    decreases n,
{
    if 0 < n <= ms.len() {
        lemma_orphans_same(c, key, parent, ms, span, n - 1);
    }
}

proof fn lemma_methods_added_same(
    c: CheckerV,
    key: Chars,
    for_type: Chars,
    infos: Seq<(Chars, MethodInfoV)>,
    n: int,
)
    ensures
        same_declarations(c.env, methods_added_n(c, key, for_type, infos, n).env),
    decreases n,
{
    if 0 < n <= infos.len() {
        lemma_methods_added_same(c, key, for_type, infos, n - 1);
    }
}

proof fn lemma_impl_same(
    c: CheckerV,
    for_type: Chars,
    tr: Option<Chars>,
    ms: Seq<FunctionDecl>,
    span: Span,
)
    ensures
        same_declarations(c.env, impl_registered(c, for_type, tr, ms, span).env),
{
    let key = qualified(c.env.current_module, for_type);
    let parent = crate::bodies::type_params_of(c.env, for_type);
    let n = ms.len() as int;
    if let Some(reason) = crate::impls::impl_obstacle(c.env, for_type) {
        lemma_orphans_same(c.error(reason, span), key, parent, ms, span, n);
    }
    if let Some(tr) = tr {
        lemma_orphans_same(
            c.error("unknown trait `"@ + tr + "`"@, span),
            key,
            parent,
            ms,
            span,
            n,
        );
    }
    let (s, infos) = methods_built_n(c.env, c.st, key, parent, ms, n);
    lemma_methods_added_same(
        CheckerV {
            st: s,
            env: EnvV { methods: crate::impls::opened(c.env.methods, key), ..c.env },
            ..c
        },
        key,
        for_type,
        infos,
        infos.len() as int,
    );
}

proof fn lemma_inline_impls_same(
    c: CheckerV,
    for_type: Chars,
    impls: Seq<InlineTraitImpl>,
    n: int,
)
    ensures
        same_declarations(c.env, inline_impls_registered_n(c, for_type, impls, n).env),
    decreases n,
{
    if 0 < n <= impls.len() {
        lemma_inline_impls_same(c, for_type, impls, n - 1);
        lemma_impl_same(
            inline_impls_registered_n(c, for_type, impls, n - 1),
            for_type,
            Some(impls[n - 1].trait_name@),
            impls[n - 1].methods@,
            impls[n - 1].span,
        );
    }
}

proof fn lemma_inline_same(
    c: CheckerV,
    for_type: Chars,
    ms: Seq<FunctionDecl>,
    impls: Seq<InlineTraitImpl>,
    span: Span,
)
    ensures
        same_declarations(c.env, inline_registered(c, for_type, ms, impls, span).env),
{
    if ms.len() > 0 {
        lemma_impl_same(c, for_type, None, ms, span);
        lemma_inline_impls_same(
            impl_registered(c, for_type, None, ms, span),
            for_type,
            impls,
            impls.len() as int,
        );
    } else {
        lemma_inline_impls_same(c, for_type, impls, impls.len() as int);
    }
}

/// A new struct is found under its key, with the visibility, the type
/// parameters and the module of its declaration, and a field for every
/// declared one, in their order; every other struct, and every enum, function,
/// trait and alias, stays.
pub proof fn law_struct_is_registered(c: CheckerV, s: StructDecl, other: Chars)
    requires
        !c.env.builtin_local_names.contains(s.name@),
        find(c.env.structs, qualified(c.env.current_module, s.name@)) matches Some(i)
            ==> i.definition_span == s.name_span,
    ensures
        ({
            let key = qualified(c.env.current_module, s.name@);
            let r = struct_registered(c, s);
            &&& find(r.env.structs, key) matches Some(info) && info.visibility == s.visibility
                && info.type_params == s.type_params.deep_view() && info.def_module
                == c.env.current_module && info.definition_span == s.name_span
                && info.is_file_bearing == declares_file(s.fields@) && info.fields.len()
                == s.fields@.len() && forall|i: int|
                0 <= i < s.fields@.len() ==> (#[trigger] info.fields[i]).name == s.fields@[i].name@
                    && info.fields[i].visibility == s.fields@[i].visibility
                    && info.fields[i].constraint == s.fields@[i].constraint
            &&& other != key ==> find(r.env.structs, other) == find(c.env.structs, other)
            &&& r.env.enums == c.env.enums
            &&& r.env.functions == c.env.functions
            &&& r.env.traits == c.env.traits
            &&& r.env.type_aliases == c.env.type_aliases
        }),
{
    let key = qualified(c.env.current_module, s.name@);
    let own = s.type_params.deep_view();
    let s1 = annotations_checked(c.st, s.annotations@, AnnotationTarget::Struct);
    let n = s.fields@.len() as int;
    let (s2, fields) = fields_registered_n(
        c.env,
        StateV { type_params: own, ..s1 },
        s.fields@,
        n,
    );
    law_fields_by_position(c.env, StateV { type_params: own, ..s1 }, s.fields@, n);
    let info = crate::info::StructInfoV {
        definition_span: s.name_span,
        type_params: own,
        fields,
        is_file_bearing: declares_file(s.fields@),
        visibility: s.visibility,
        def_module: c.env.current_module,
    };
    law_find_after_put(c.env.structs, key, info);
    if other != key {
        law_put_keeps_others(c.env.structs, key, info, other);
    }
    let c1 = CheckerV {
        st: (StateV { type_params: s1.type_params, ..s2 }).refer(
            s.name_span,
            crate::info::SymbolKindV::Struct,
            s.name@,
        ),
        env: EnvV { structs: put(c.env.structs, key, info), ..c.env },
        ..c
    };
    lemma_inline_same(c1, s.name@, s.methods@, s.trait_impls@, s.span);
    assert(struct_registered(c, s) == inline_registered(
        c1,
        s.name@,
        s.methods@,
        s.trait_impls@,
        s.span,
    ));
}

/// A new enum is found under its key, with the visibility, the type parameters
/// and the module of its declaration, and a variant for every declared one, in
/// their order; every other enum, and every struct, function, trait and alias,
/// stays.
pub proof fn law_enum_is_registered(c: CheckerV, e: EnumDecl, other: Chars)
    requires
        !c.env.builtin_local_names.contains(e.name@),
        find(c.env.enums, qualified(c.env.current_module, e.name@)) matches Some(i)
            ==> i.definition_span == e.name_span,
    ensures
        ({
            let key = qualified(c.env.current_module, e.name@);
            let r = enum_registered(c, e);
            &&& find(r.env.enums, key) matches Some(info) && info.visibility == e.visibility
                && info.type_params == e.type_params.deep_view() && info.def_module
                == c.env.current_module && info.definition_span == e.name_span
                && info.variants.len() == e.variants@.len() && forall|i: int|
                0 <= i < e.variants@.len() ==> (#[trigger] info.variants[i]).0
                    == e.variants@[i].name@ && info.variants[i].1.len()
                    == e.variants@[i].fields@.len()
            &&& other != key ==> find(r.env.enums, other) == find(c.env.enums, other)
            &&& r.env.structs == c.env.structs
            &&& r.env.functions == c.env.functions
            &&& r.env.traits == c.env.traits
            &&& r.env.type_aliases == c.env.type_aliases
        }),
{
    let key = qualified(c.env.current_module, e.name@);
    let own = e.type_params.deep_view();
    let s1 = annotations_checked(c.st, e.annotations@, AnnotationTarget::Enum);
    let n = e.variants@.len() as int;
    let (s2, variants) = variants_registered_n(
        c.env,
        StateV { type_params: own, ..s1 },
        e.variants@,
        n,
    );
    law_variants_by_position(c.env, StateV { type_params: own, ..s1 }, e.variants@, n);
    let info = crate::info::EnumInfoV {
        definition_span: e.name_span,
        type_params: own,
        variants,
        visibility: e.visibility,
        def_module: c.env.current_module,
    };
    law_find_after_put(c.env.enums, key, info);
    if other != key {
        law_put_keeps_others(c.env.enums, key, info, other);
    }
    let c1 = CheckerV {
        st: (StateV { type_params: s1.type_params, ..s2 }).refer(
            e.name_span,
            crate::info::SymbolKindV::Enum,
            e.name@,
        ),
        env: EnvV { enums: put(c.env.enums, key, info), ..c.env },
        ..c
    };
    lemma_inline_same(c1, e.name@, e.methods@, e.trait_impls@, e.span);
    assert(enum_registered(c, e) == inline_registered(
        c1,
        e.name@,
        e.methods@,
        e.trait_impls@,
        e.span,
    ));
}

/// A new function is found under its key, with its id and the visibility, the
/// type parameters, their bounds and the signature of its declaration; a name
/// that is taken is a finding and changes nothing.
pub proof fn law_function_is_registered(c: CheckerV, f: FunctionDecl, other: Chars)
    ensures
        ({
            let key = qualified(c.env.current_module, f.name@);
            let r = function_registered(c, f);
            let s1 = annotations_checked(c.st, f.annotations@, AnnotationTarget::Function);
            let sig = signature_resolved(
                c.env,
                s1,
                f.type_params.deep_view(),
                f.params@,
                f.return_type,
            ).1;
            &&& other != key ==> find(r.env.functions, other) == find(c.env.functions, other)
            &&& c.env.builtin_local_names.contains(f.name@) || holds(c.env.functions, key)
                ==> !silent(c.st, r.st) && r.env == c.env
            &&& !c.env.builtin_local_names.contains(f.name@) && !holds(c.env.functions, key) ==> (
            find(c.env.pending_function_ids, key) matches Some(id) ==> (find(
                r.env.functions,
                key,
            ) matches Some(info) && info.func_id == id && info.visibility == f.visibility
                && info.type_params == f.type_params.deep_view() && info.type_param_bounds
                == f.type_param_bounds.deep_view() && info.params == sig.params
                && info.param_names == sig.names && info.default_param_exprs == sig.defaults
                && info.return_type == sig.ret && info.def_module == c.env.current_module
                && info.definition_span == f.name_span))
        }),
{
    let key = qualified(c.env.current_module, f.name@);
    let r = function_registered(c, f);
    if !c.env.builtin_local_names.contains(f.name@) && !holds(c.env.functions, key) {
        if let Some(id) = find(c.env.pending_function_ids, key) {
            let s1 = annotations_checked(c.st, f.annotations@, AnnotationTarget::Function);
            let own = f.type_params.deep_view();
            let sig = signature_resolved(c.env, s1, own, f.params@, f.return_type).1;
            let info = crate::info::FunctionInfoV {
                func_id: id,
                definition_span: f.name_span,
                type_params: own,
                type_param_bounds: f.type_param_bounds.deep_view(),
                params: sig.params,
                param_names: sig.names,
                default_param_exprs: sig.defaults,
                default_needs_wrapper: wrapped(sig.defaults, own.len() > 0),
                return_type: sig.ret,
                visibility: f.visibility,
                def_module: c.env.current_module,
            };
            law_find_after_put(c.env.functions, key, info);
            if other != key {
                law_put_keeps_others(c.env.functions, key, info, other);
            }
            assert(r.env.functions == put(c.env.functions, key, info));
        }
    }
}

/// A new trait is found under its key, with the visibility and the type
/// parameters of its declaration, and a method for every declared one, in their
/// order; every other trait stays.
pub proof fn law_trait_is_registered(c: CheckerV, t: TraitDecl, other: Chars)
    requires
        !c.env.builtin_local_names.contains(t.name@),
        find(c.env.traits, qualified(c.env.current_module, t.name@)) matches Some(i)
            ==> i.definition_span == t.name_span,
    ensures
        ({
            let key = qualified(c.env.current_module, t.name@);
            let r = trait_registered(c, t);
            &&& find(r.env.traits, key) matches Some(info) && info.visibility == t.visibility
                && info.type_params == t.type_params.deep_view() && info.def_module
                == c.env.current_module && info.definition_span == t.name_span
                && info.methods.len() == t.methods@.len() && forall|i: int|
                0 <= i < t.methods@.len() ==> (#[trigger] info.methods[i]).name
                    == t.methods@[i].name@
            &&& other != key ==> find(r.env.traits, other) == find(c.env.traits, other)
            &&& r.env.structs == c.env.structs
            &&& r.env.enums == c.env.enums
            &&& r.env.functions == c.env.functions
        }),
{
    let key = qualified(c.env.current_module, t.name@);
    let own = t.type_params.deep_view();
    let n = t.methods@.len() as int;
    law_trait_methods_by_position(c.env, c.st, own, t.methods@, n);
    let methods = trait_methods_resolved_n(c.env, c.st, own, t.methods@, n).1;
    let info = crate::info::TraitInfoV {
        definition_span: t.name_span,
        type_params: own,
        methods,
        object_safety_error: crate::object_safety::obstacle_from(methods, 0),
        visibility: t.visibility,
        def_module: c.env.current_module,
    };
    law_find_after_put(c.env.traits, key, info);
    if other != key {
        law_put_keeps_others(c.env.traits, key, info, other);
    }
}

/// A type alias without findings is found under its key, with its type
/// parameters and the type that it stands for; every other alias stays.
pub proof fn law_alias_is_registered(c: CheckerV, ta: TypeAliasDecl, other: Chars)
    requires
        silent(c.st, alias_registered(c, ta).st),
    ensures
        ({
            let key = qualified(c.env.current_module, ta.name@);
            let r = alias_registered(c, ta);
            let own = ta.type_params.deep_view();
            &&& find(r.env.type_aliases, key) matches Some(info) && info.type_params == own
                && info.visibility == ta.visibility && info.def_module == c.env.current_module
                && info.target == resolved(
                c.env,
                StateV { type_params: own, ..c.st },
                ta.target,
            ).1
            &&& other != key ==> find(r.env.type_aliases, other) == find(c.env.type_aliases, other)
            &&& r.env.structs == c.env.structs
            &&& r.env.enums == c.env.enums
        }),
{
    let key = qualified(c.env.current_module, ta.name@);
    let own = ta.type_params.deep_view();
    let s0 = StateV { type_params: own, ..c.st };
    kept_resolved(c.env, s0, ta.target);
    lemma_counts(s0, resolved(c.env, s0, ta.target).0);
    let info = crate::info::TypeAliasInfoV {
        definition_span: ta.name_span,
        type_params: own,
        target: resolved(c.env, s0, ta.target).1,
        visibility: ta.visibility,
        def_module: c.env.current_module,
    };
    law_find_after_put(c.env.type_aliases, key, info);
    if other != key {
        law_put_keeps_others(c.env.type_aliases, key, info, other);
    }
}

// ── Methods ──────────────────────────────────────────────────────────

/// The methods of an `impl` block are built in their order, one for each
/// declared method that has an id.
pub proof fn law_methods_by_position(
    env: EnvV,
    st: StateV,
    key: Chars,
    parent: Seq<Chars>,
    ms: Seq<FunctionDecl>,
    n: int,
)
    requires
        0 <= n <= ms.len(),
        forall|i: int|
            0 <= i < ms.len() ==> holds(
                env.pending_user_method_ids,
                (key, (#[trigger] ms[i]).name@),
            ),
    ensures
        methods_built_n(env, st, key, parent, ms, n).1.len() == n,
        forall|i: int|
            0 <= i < n ==> {
                let m = #[trigger] methods_built_n(env, st, key, parent, ms, n).1[i];
                &&& m.0 == ms[i].name@
                &&& m.1 == method_resolved(
                    env,
                    methods_built_n(env, st, key, parent, ms, i).0,
                    parent,
                    ms[i],
                    find(env.pending_user_method_ids, (key, ms[i].name@))->0,
                ).1
            },
    decreases n,
{
    if n > 0 {
        law_methods_by_position(env, st, key, parent, ms, n - 1);
        assert(holds(env.pending_user_method_ids, (key, ms[n - 1].name@)));
    }
}

/// Every new method is found under its name; a method that the type has stays,
/// and a second one of its name is a finding.
pub proof fn law_methods_are_added(
    c: CheckerV,
    key: Chars,
    for_type: Chars,
    infos: Seq<(Chars, MethodInfoV)>,
    n: int,
    name: Chars,
)
    requires
        0 <= n <= infos.len(),
    ensures
        ({
            let r = methods_added_n(c, key, for_type, infos, n);
            &&& c.st.diagnostics.len() <= r.st.diagnostics.len()
            &&& holds(inner(c.env.methods, key), name) ==> find(inner(r.env.methods, key), name)
                == find(inner(c.env.methods, key), name)
            &&& !holds(inner(c.env.methods, key), name) ==> (forall|i: int|
                0 <= i < n && (#[trigger] infos[i]).0 == name && (forall|j: int|
                    0 <= j < i ==> (#[trigger] infos[j]).0 != name) ==> find(
                    inner(r.env.methods, key),
                    name,
                ) == Some(infos[i].1))
            &&& (forall|i: int| 0 <= i < n ==> (#[trigger] infos[i]).0 != name) ==> find(
                inner(r.env.methods, key),
                name,
            ) == find(inner(c.env.methods, key), name)
            &&& silent(c.st, r.st) && holds(inner(c.env.methods, key), name) ==> forall|i: int|
                0 <= i < n ==> (#[trigger] infos[i]).0 != name
        }),
    decreases n,
{
    if n > 0 {
        law_methods_are_added(c, key, for_type, infos, n - 1, name);
        let rest = methods_added_n(c, key, for_type, infos, n - 1);
        let r = methods_added_n(c, key, for_type, infos, n);
        let (last, info) = infos[n - 1];
        let table = inner(rest.env.methods, key);
        if !holds(table, last) {
            law_find_after_put(rest.env.methods, key, put(table, last, info));
            law_find_after_put(table, last, info);
            if last != name {
                law_put_keeps_others(table, last, info, name);
            }
        }
        if !holds(inner(c.env.methods, key), name) {
            assert forall|i: int|
                0 <= i < n && (#[trigger] infos[i]).0 == name && (forall|j: int|
                    0 <= j < i ==> (#[trigger] infos[j]).0 != name) implies find(
                inner(r.env.methods, key),
                name,
            ) == Some(infos[i].1) by {
                if i == n - 1 {
                    assert(forall|j: int| 0 <= j < n - 1 ==> (#[trigger] infos[j]).0 != name);
                    assert(find(table, name) == find(inner(c.env.methods, key), name));
                } else {
                    assert(find(table, name) == Some(infos[i].1));
                }
            }
        }
    }
}

/// A trait implementation is recorded under the keys of the type and the trait,
/// and none that is recorded is lost; a second one is a finding.
pub proof fn law_implementation_is_recorded(
    c: CheckerV,
    for_type: Chars,
    tr: Chars,
    info: crate::info::TraitInfoV,
    ms: Seq<FunctionDecl>,
    span: Span,
)
    ensures
        ({
            let pair = (
                qualified(c.env.current_module, for_type),
                qualified(c.env.current_module, tr),
            );
            let r = trait_added(c, for_type, tr, info, ms, span);
            &&& r.env.trait_impls.contains(pair)
            &&& forall|p: (Chars, Chars)| #[trigger]
                r.env.trait_impls.contains(p) <==> p == pair || c.env.trait_impls.contains(p)
        }),
{
    let pair = (qualified(c.env.current_module, for_type), qualified(c.env.current_module, tr));
    let all = c.env.trait_impls.push(pair);
    assert(all.last() == pair);
    assert forall|p: (Chars, Chars)| #[trigger] all.contains(p) <==> p == pair
        || c.env.trait_impls.contains(p) by {
        if c.env.trait_impls.contains(p) {
            let k = choose|k: int| 0 <= k < c.env.trait_impls.len() && c.env.trait_impls[k] == p;
            assert(all[k] == p);
        }
        if all.contains(p) && p != pair {
            let k = choose|k: int| 0 <= k < all.len() && all[k] == p;
            assert(c.env.trait_impls[k] == p);
        }
    }
}

// ── Defer ────────────────────────────────────────────────────────────

proof fn lemma_nested(ss: Seq<Statement>, n: int)
    requires
        0 <= n <= ss.len(),
    ensures
        nested_defers_n(ss, n).len() == 0 <==> forall|i: int|
            0 <= i < n ==> inside(#[trigger] ss[i]).nested_spans.len() == 0,
    decreases n,
{
    if n > 0 {
        lemma_nested(ss, n - 1);
    }
}

proof fn lemma_placements(st: StateV, spans: Seq<Span>, n: int)
    requires
        0 <= n <= spans.len(),
    ensures
        placement_errors_n(st, spans, n).diagnostics.len() == st.diagnostics.len() + n,
        forall|i: int|
            0 <= i < n ==> (#[trigger] placement_errors_n(st, spans, n).diagnostics[i
                + st.diagnostics.len()]).span == spans[i],
    decreases n,
{
    if n > 0 {
        lemma_placements(st, spans, n - 1);
    }
}

/// A body adds no finding about `defer` exactly if no statement holds one that
/// is not at the top of the body, and none of those at the top holds a `return`
/// or `?`; each that is misplaced is one finding, at its place.
pub proof fn law_defers_are_placed(st: StateV, b: Block)
    ensures
        ({
            let ss = b.statements@;
            let n = ss.len() as int;
            let s = defer_errors_n(st, ss, n);
            let nested = nested_defers_n(ss, n);
            &&& silent(st, defers_placed(st, b)) <==> (forall|i: int|
                0 <= i < n ==> inside(#[trigger] ss[i]).nested_spans.len() == 0) && (forall|i: int|
                0 <= i < n && (#[trigger] ss[i]) is Defer ==> !inside(ss[i]).saw_return_at_top
                    && !inside(ss[i]).saw_try_at_top)
            &&& defers_placed(st, b).diagnostics.len() == s.diagnostics.len() + nested.len()
        }),
{
    let ss = b.statements@;
    let n = ss.len() as int;
    let s = defer_errors_n(st, ss, n);
    let nested = nested_defers_n(ss, n);
    law_defers_hold_no_jumps(st, ss, n);
    lemma_nested(ss, n);
    lemma_placements(s, nested, nested.len() as int);
    lemma_defer_counts(st, ss, n);
}

proof fn lemma_defer_counts(st: StateV, ss: Seq<Statement>, n: int)
    ensures
        st.diagnostics.len() <= defer_errors_n(st, ss, n).diagnostics.len(),
    decreases n,
{
    if n > 0 {
        lemma_defer_counts(st, ss, n - 1);
    }
}

} // verus!
