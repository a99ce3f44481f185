//! What expressions without findings say of their parts, and what types they
//! have.
use crate::ast::{
    AssignmentExpr, BinaryOp, ElseBranch, Expr, FieldAccessExpr, FieldAssignmentExpr, IfExpr,
    LambdaExpr, ListLiteralExpr, MapLiteralExpr, MatchArm, MethodCallExpr, Statement, StringSegment,
    StructLiteralExpr, UnaryExpr, UnaryOp,
};
use crate::binding_laws::law_field_is_found;
use crate::builtins::{callback_fits, callback_params_n, sem_plain, sem_plain_n};
use crate::call_laws::{law_field_values_fit, law_missing_parameters, supplied};
use crate::check_call::{sem_fields_n, sem_indirect, sem_indirect_n, sem_struct_literal};
use crate::check_expr::{
    branches_joined, field_assigned, field_read, jumps_rejected_n, operated, params_defined_n,
    pattern_defined, resolved_params_n, sem_arm_body, sem_arms_n, sem_assignment, sem_elements_n,
    sem_else, sem_entries_n, sem_expr, sem_if, sem_lambda, sem_list_literal, sem_map_literal,
    sem_segments_n, tried,
};
use crate::check_method::{sem_method_args, sem_method_args_n};
use crate::check_stmt::{sem_block_type_n, sem_stmt};
use crate::check_types::{base_and_bindings, compatible};
use crate::defer::defers_placed;
use crate::env::{in_scope, EnvV};
use crate::fit_laws::{
    accepted, lemma_counts, lemma_pinned_silent, lemma_steps, silent, steady_at,
};
use crate::flow::{diverges, if_diverges};
use crate::info::StructInfoV;
use crate::privacy::{construction_checked, foreign, private_fields};
use crate::span::Span;
use crate::state::StateV;
use crate::statement_laws::lemma_grown_counts;
use crate::steady::{kept_is_grown, kept_scope};
use crate::steady_bodies::{
    grown_sem_arm_body, grown_sem_block_type_n, kept_sem_arms_n, kept_sem_elements_n, kept_sem_else,
    kept_sem_entries_n, kept_sem_fields_n, kept_sem_indirect_n, kept_sem_method_args_n,
    kept_sem_plain_n, law_expression_keeps, law_second_look_adds_nothing, law_statement_keeps,
};
use crate::steady_parts::{
    grown_params_defined_n, grown_pattern_defined, kept_callback_params_n, kept_defers_placed,
    kept_resolved, kept_resolved_params_n,
};
use crate::table::find;
use crate::text::Chars;
use crate::types::{subst, Bindings, Ty};
use vstd::prelude::*;

verus! {

broadcast use crate::steady::steps;

/// Whether an entry of a map has no finding and fits the types of the map.
#[verifier::opaque]
pub open spec fn entry_accepted(env: EnvV, st: StateV, e: (Expr, Expr), k: Ty, v: Ty) -> bool {
    let (s1, kt) = sem_expr(env, st, e.0);
    let (s2, vt) = sem_expr(env, s1, e.1);
    &&& silent(st, s1)
    &&& silent(s1, s2)
    &&& compatible(env, st.bounds, k, kt)
    &&& compatible(env, st.bounds, v, vt)
}

/// Whether a part of an interpolated string has no finding.
pub open spec fn segment_silent(env: EnvV, st: StateV, s: StringSegment) -> bool {
    match s {
        StringSegment::Expr(e) => silent(st, sem_expr(env, st, e).0),
        StringSegment::Literal(_) => true,
    }
}

/// Whether an arm is left by a jump, so that it has no value.
pub open spec fn jumps(arm: MatchArm) -> bool {
    arm.body is Block && diverges(arm.body->Block_0)
}

/// The type of the body of an arm.
pub open spec fn arm_type(
    env: EnvV,
    st: StateV,
    arm: MatchArm,
    subject: Ty,
    base: Option<Chars>,
    b: Bindings,
) -> Ty {
    sem_arm_body(env, pattern_defined(env, st.enter(), arm, subject, base, b), arm.body).1
}

/// Whether an arm has no finding and fits the type of those before it.
#[verifier::opaque]
pub open spec fn arm_accepted(
    env: EnvV,
    st: StateV,
    arm: MatchArm,
    subject: Ty,
    base: Option<Chars>,
    b: Bindings,
    result: Option<Ty>,
) -> bool {
    let s = pattern_defined(env, st.enter(), arm, subject, base, b);
    &&& silent(st, s)
    &&& silent(s, sem_arm_body(env, s, arm.body).0)
    &&& jumps(arm) || (result matches Some(t) ==> compatible(
        env,
        st.bounds,
        t,
        arm_type(env, st, arm, subject, base, b),
    ))
}

/// The elements of a list behind the first one add no finding exactly if each has
/// none itself and fits the type of the first.
pub proof fn law_elements_fit(
    env: EnvV,
    st: StateV,
    es: Seq<Expr>,
    first: Ty,
    n: int,
)
    requires
        0 <= n <= es.len(),
    ensures
        silent(st, sem_elements_n(env, st, es, first, n)) <==> forall|i: int| 0 <= i < n ==> (i == 0 || accepted(env, sem_elements_n(env, st, es, first, i), #[trigger] es[i], first)),
{
    let counts = Seq::new((n + 1) as nat, |i: int| sem_elements_n(env, st, es, first, i).diagnostics.len());
    let oks = Seq::new(n as nat, |i: int| (i == 0 || accepted(env, sem_elements_n(env, st, es, first, i), es[i], first)));
    assert forall|i: int| 0 <= i < n implies #[trigger] steady_at(counts, oks, i) by {
        lemma_elements_fit_step(env, st, es, first, i);
    }
    lemma_steps(counts, oks);
    assert forall|i: int| 0 <= i < n implies oks[i] == ((i == 0 || accepted(env, sem_elements_n(env, st, es, first, i), #[trigger] es[i], first))) by {}
}

proof fn lemma_elements_fit_step(
    env: EnvV,
    st: StateV,
    es: Seq<Expr>,
    first: Ty,
    i: int,
)
    requires
        0 <= i < es.len(),
    ensures
        ({
            let s = sem_elements_n(env, st, es, first, i);
            let next = sem_elements_n(env, st, es, first, i + 1);
            &&& s.diagnostics.len() <= next.diagnostics.len()
            &&& silent(s, next) <==> ((i == 0 || accepted(env, s, es[i], first)))
        }),
{
    let s = sem_elements_n(env, st, es, first, i);
    reveal(accepted);
    kept_sem_elements_n(env, st, es, first, i);
    law_expression_keeps(env, s, es[i]);
    lemma_counts(st, s);
    lemma_counts(s, sem_expr(env, s, es[i]).0);
}

/// The entries of a map behind the first one add no finding exactly if the key and
/// the value of each have none themselves and fit the types of the first.
pub proof fn law_entries_fit(
    env: EnvV,
    st: StateV,
    es: Seq<(Expr, Expr)>,
    k: Ty,
    v: Ty,
    n: int,
)
    requires
        0 <= n <= es.len(),
    ensures
        silent(st, sem_entries_n(env, st, es, k, v, n)) <==> forall|i: int| 0 <= i < n ==> (i == 0 || entry_accepted(env, sem_entries_n(env, st, es, k, v, i), #[trigger] es[i], k, v)),
{
    let counts = Seq::new((n + 1) as nat, |i: int| sem_entries_n(env, st, es, k, v, i).diagnostics.len());
    let oks = Seq::new(n as nat, |i: int| (i == 0 || entry_accepted(env, sem_entries_n(env, st, es, k, v, i), es[i], k, v)));
    assert forall|i: int| 0 <= i < n implies #[trigger] steady_at(counts, oks, i) by {
        lemma_entries_fit_step(env, st, es, k, v, i);
    }
    lemma_steps(counts, oks);
    assert forall|i: int| 0 <= i < n implies oks[i] == ((i == 0 || entry_accepted(env, sem_entries_n(env, st, es, k, v, i), #[trigger] es[i], k, v))) by {}
}

proof fn lemma_entries_fit_step(
    env: EnvV,
    st: StateV,
    es: Seq<(Expr, Expr)>,
    k: Ty,
    v: Ty,
    i: int,
)
    requires
        0 <= i < es.len(),
    ensures
        ({
            let s = sem_entries_n(env, st, es, k, v, i);
            let next = sem_entries_n(env, st, es, k, v, i + 1);
            &&& s.diagnostics.len() <= next.diagnostics.len()
            &&& silent(s, next) <==> ((i == 0 || entry_accepted(env, s, es[i], k, v)))
        }),
{
    let s = sem_entries_n(env, st, es, k, v, i);
    reveal(entry_accepted);
    kept_sem_entries_n(env, st, es, k, v, i);
    lemma_counts(st, s);
    law_expression_keeps(env, s, es[i].0);
    let s1 = sem_expr(env, s, es[i].0).0;
    lemma_counts(s, s1);
    law_expression_keeps(env, s1, es[i].1);
    lemma_counts(s1, sem_expr(env, s1, es[i].1).0);
}

/// An interpolated string adds no finding exactly if none of the expressions in it
/// does.
pub proof fn law_segments_are_checked(
    env: EnvV,
    st: StateV,
    ss: Seq<StringSegment>,
    n: int,
)
    requires
        0 <= n <= ss.len(),
    ensures
        silent(st, sem_segments_n(env, st, ss, n)) <==> forall|i: int| 0 <= i < n ==> segment_silent(env, sem_segments_n(env, st, ss, i), #[trigger] ss[i]),
{
    let counts = Seq::new((n + 1) as nat, |i: int| sem_segments_n(env, st, ss, i).diagnostics.len());
    let oks = Seq::new(n as nat, |i: int| segment_silent(env, sem_segments_n(env, st, ss, i), ss[i]));
    assert forall|i: int| 0 <= i < n implies #[trigger] steady_at(counts, oks, i) by {
        lemma_segments_are_checked_step(env, st, ss, i);
    }
    lemma_steps(counts, oks);
    assert forall|i: int| 0 <= i < n implies oks[i] == (segment_silent(env, sem_segments_n(env, st, ss, i), #[trigger] ss[i])) by {}
}

proof fn lemma_segments_are_checked_step(
    env: EnvV,
    st: StateV,
    ss: Seq<StringSegment>,
    i: int,
)
    requires
        0 <= i < ss.len(),
    ensures
        ({
            let s = sem_segments_n(env, st, ss, i);
            let next = sem_segments_n(env, st, ss, i + 1);
            &&& s.diagnostics.len() <= next.diagnostics.len()
            &&& silent(s, next) <==> (segment_silent(env, s, ss[i]))
        }),
{
    let s = sem_segments_n(env, st, ss, i);
    if let StringSegment::Expr(e) = ss[i] {
        law_expression_keeps(env, s, e);
        lemma_counts(s, sem_expr(env, s, e).0);
    }
}

/// A block with a value adds no finding exactly if none of its statements does: its
/// value is only looked at again.
pub proof fn law_block_value_is_checked(
    env: EnvV,
    st: StateV,
    ss: Seq<Statement>,
    n: int,
)
    requires
        0 <= n <= ss.len(),
    ensures
        silent(st, sem_block_type_n(env, st, ss, n).0) <==> forall|i: int| 0 <= i < n ==> silent(sem_block_type_n(env, st, ss, i).0, sem_stmt(env, sem_block_type_n(env, st, ss, i).0, #[trigger] ss[i])),
{
    let counts = Seq::new((n + 1) as nat, |i: int| sem_block_type_n(env, st, ss, i).0.diagnostics.len());
    let oks = Seq::new(n as nat, |i: int| silent(sem_block_type_n(env, st, ss, i).0, sem_stmt(env, sem_block_type_n(env, st, ss, i).0, ss[i])));
    assert forall|i: int| 0 <= i < n implies #[trigger] steady_at(counts, oks, i) by {
        lemma_block_value_is_checked_step(env, st, ss, i);
    }
    lemma_steps(counts, oks);
    assert forall|i: int| 0 <= i < n implies oks[i] == (silent(sem_block_type_n(env, st, ss, i).0, sem_stmt(env, sem_block_type_n(env, st, ss, i).0, #[trigger] ss[i]))) by {}
}

proof fn lemma_block_value_is_checked_step(
    env: EnvV,
    st: StateV,
    ss: Seq<Statement>,
    i: int,
)
    requires
        0 <= i < ss.len(),
    ensures
        ({
            let s = sem_block_type_n(env, st, ss, i).0;
            let next = sem_block_type_n(env, st, ss, i + 1).0;
            &&& s.diagnostics.len() <= next.diagnostics.len()
            &&& silent(s, next) <==> (silent(s, sem_stmt(env, s, ss[i])))
        }),
{
    let s = sem_block_type_n(env, st, ss, i).0;
    law_statement_keeps(env, s, ss[i]);
    let done = sem_stmt(env, s, ss[i]);
    lemma_grown_counts(s, done);
    match ss[i] {
        Statement::Return(x) => {
            if let Some(e) = x.value {
                law_second_look_adds_nothing(env, done, e);
            }
        },
        Statement::Expression(x) => {
            law_second_look_adds_nothing(env, done, x.expr);
        },
        _ => {},
    }
}

/// No finding is about a jump out of a match arm exactly if no statement of the arm
/// is `break` or `continue`.
pub proof fn law_jumps_are_rejected_in_arms(
    st: StateV,
    ss: Seq<Statement>,
    n: int,
)
    requires
        0 <= n <= ss.len(),
    ensures
        silent(st, jumps_rejected_n(st, ss, n)) <==> forall|i: int| 0 <= i < n ==> !((#[trigger] ss[i]) is Break || ss[i] is Continue),
{
    let counts = Seq::new((n + 1) as nat, |i: int| jumps_rejected_n(st, ss, i).diagnostics.len());
    let oks = Seq::new(n as nat, |i: int| !(( ss[i]) is Break || ss[i] is Continue));
    assert forall|i: int| 0 <= i < n implies #[trigger] steady_at(counts, oks, i) by {
        lemma_jumps_are_rejected_in_arms_step(st, ss, i);
    }
    lemma_steps(counts, oks);
    assert forall|i: int| 0 <= i < n implies oks[i] == (!((#[trigger] ss[i]) is Break || ss[i] is Continue)) by {}
}

proof fn lemma_jumps_are_rejected_in_arms_step(
    st: StateV,
    ss: Seq<Statement>,
    i: int,
)
    requires
        0 <= i < ss.len(),
    ensures
        ({
            let s = jumps_rejected_n(st, ss, i);
            let next = jumps_rejected_n(st, ss, i + 1);
            &&& s.diagnostics.len() <= next.diagnostics.len()
            &&& silent(s, next) <==> (!((ss[i]) is Break || ss[i] is Continue))
        }),
{
    let s = jumps_rejected_n(st, ss, i);

}

/// The arguments of a method add no finding exactly if each has none itself and
/// fits the parameter at its position, with the type arguments put in.
pub proof fn law_method_arguments_fit(
    env: EnvV,
    st: StateV,
    args: Seq<Expr>,
    method: Chars,
    params: Seq<Ty>,
    b: Bindings,
    n: int,
)
    requires
        0 <= n <= args.len(),
        args.len() <= params.len(),
    ensures
        silent(st, sem_method_args_n(env, st, args, method, params, b, n)) <==> forall|i: int| 0 <= i < n ==> accepted(env, sem_method_args_n(env, st, args, method, params, b, i), #[trigger] args[i], subst(params[i], b)),
{
    let counts = Seq::new((n + 1) as nat, |i: int| sem_method_args_n(env, st, args, method, params, b, i).diagnostics.len());
    let oks = Seq::new(n as nat, |i: int| accepted(env, sem_method_args_n(env, st, args, method, params, b, i), args[i], subst(params[i], b)));
    assert forall|i: int| 0 <= i < n implies #[trigger] steady_at(counts, oks, i) by {
        lemma_method_arguments_fit_step(env, st, args, method, params, b, i);
    }
    lemma_steps(counts, oks);
    assert forall|i: int| 0 <= i < n implies oks[i] == (accepted(env, sem_method_args_n(env, st, args, method, params, b, i), #[trigger] args[i], subst(params[i], b))) by {}
}

proof fn lemma_method_arguments_fit_step(
    env: EnvV,
    st: StateV,
    args: Seq<Expr>,
    method: Chars,
    params: Seq<Ty>,
    b: Bindings,
    i: int,
)
    requires
        0 <= i < args.len(),
        args.len() <= params.len(),
    ensures
        ({
            let s = sem_method_args_n(env, st, args, method, params, b, i);
            let next = sem_method_args_n(env, st, args, method, params, b, i + 1);
            &&& s.diagnostics.len() <= next.diagnostics.len()
            &&& silent(s, next) <==> (accepted(env, s, args[i], subst(params[i], b)))
        }),
{
    let s = sem_method_args_n(env, st, args, method, params, b, i);
    reveal(accepted);
    kept_sem_method_args_n(env, st, args, method, params, b, i);
    law_expression_keeps(env, s, args[i]);
    lemma_counts(st, s);
    lemma_counts(s, sem_expr(env, s, args[i]).0);
    lemma_pinned_silent(env, args[i]);
}

/// The arguments of a built-in method add no finding exactly if each has none
/// itself and fits the type at its position.
pub proof fn law_builtin_arguments_fit(
    env: EnvV,
    st: StateV,
    args: Seq<Expr>,
    method: Chars,
    params: Seq<Ty>,
    n: int,
)
    requires
        0 <= n <= args.len(),
        args.len() <= params.len(),
    ensures
        silent(st, sem_plain_n(env, st, args, method, params, n)) <==> forall|i: int| 0 <= i < n ==> accepted(env, sem_plain_n(env, st, args, method, params, i), #[trigger] args[i], params[i]),
{
    let counts = Seq::new((n + 1) as nat, |i: int| sem_plain_n(env, st, args, method, params, i).diagnostics.len());
    let oks = Seq::new(n as nat, |i: int| accepted(env, sem_plain_n(env, st, args, method, params, i), args[i], params[i]));
    assert forall|i: int| 0 <= i < n implies #[trigger] steady_at(counts, oks, i) by {
        lemma_builtin_arguments_fit_step(env, st, args, method, params, i);
    }
    lemma_steps(counts, oks);
    assert forall|i: int| 0 <= i < n implies oks[i] == (accepted(env, sem_plain_n(env, st, args, method, params, i), #[trigger] args[i], params[i])) by {}
}

proof fn lemma_builtin_arguments_fit_step(
    env: EnvV,
    st: StateV,
    args: Seq<Expr>,
    method: Chars,
    params: Seq<Ty>,
    i: int,
)
    requires
        0 <= i < args.len(),
        args.len() <= params.len(),
    ensures
        ({
            let s = sem_plain_n(env, st, args, method, params, i);
            let next = sem_plain_n(env, st, args, method, params, i + 1);
            &&& s.diagnostics.len() <= next.diagnostics.len()
            &&& silent(s, next) <==> (accepted(env, s, args[i], params[i]))
        }),
{
    let s = sem_plain_n(env, st, args, method, params, i);
    reveal(accepted);
    kept_sem_plain_n(env, st, args, method, params, i);
    law_expression_keeps(env, s, args[i]);
    lemma_counts(st, s);
    lemma_counts(s, sem_expr(env, s, args[i]).0);
}

/// The parameters of a callback add no finding exactly if each fits the type at its
/// position that it is called with.
pub proof fn law_callback_parameters_fit(
    env: EnvV,
    st: StateV,
    method: Chars,
    expected: Seq<Ty>,
    actual: Seq<Ty>,
    span: Span,
    n: int,
)
    requires
        0 <= n <= expected.len(),
        expected.len() <= actual.len(),
    ensures
        silent(st, callback_params_n(env, st, method, expected, actual, span, n)) <==> forall|i: int| 0 <= i < n ==> compatible(env, st.bounds, #[trigger] expected[i], actual[i]),
{
    let counts = Seq::new((n + 1) as nat, |i: int| callback_params_n(env, st, method, expected, actual, span, i).diagnostics.len());
    let oks = Seq::new(n as nat, |i: int| compatible(env, st.bounds, expected[i], actual[i]));
    assert forall|i: int| 0 <= i < n implies #[trigger] steady_at(counts, oks, i) by {
        lemma_callback_parameters_fit_step(env, st, method, expected, actual, span, i);
    }
    lemma_steps(counts, oks);
    assert forall|i: int| 0 <= i < n implies oks[i] == (compatible(env, st.bounds, #[trigger] expected[i], actual[i])) by {}
}

proof fn lemma_callback_parameters_fit_step(
    env: EnvV,
    st: StateV,
    method: Chars,
    expected: Seq<Ty>,
    actual: Seq<Ty>,
    span: Span,
    i: int,
)
    requires
        0 <= i < expected.len(),
        expected.len() <= actual.len(),
    ensures
        ({
            let s = callback_params_n(env, st, method, expected, actual, span, i);
            let next = callback_params_n(env, st, method, expected, actual, span, i + 1);
            &&& s.diagnostics.len() <= next.diagnostics.len()
            &&& silent(s, next) <==> (compatible(env, st.bounds, expected[i], actual[i]))
        }),
{
    let s = callback_params_n(env, st, method, expected, actual, span, i);
    kept_callback_params_n(env, st, method, expected, actual, span, i);
    lemma_counts(st, s);
}

/// The arms of a match add no finding exactly if the pattern and the body of each
/// have none, and the body fits the type of the arms before it, unless it is left
/// by a jump.
pub proof fn law_arms_agree(
    env: EnvV,
    st: StateV,
    arms: Seq<MatchArm>,
    subject: Ty,
    base: Option<Chars>,
    b: Bindings,
    n: int,
)
    requires
        0 <= n <= arms.len(),
    ensures
        silent(st, sem_arms_n(env, st, arms, subject, base, b, n).0) <==> forall|i: int| 0 <= i < n ==> arm_accepted(env, sem_arms_n(env, st, arms, subject, base, b, i).0, #[trigger] arms[i], subject, base, b, sem_arms_n(env, st, arms, subject, base, b, i).1),
{
    let counts = Seq::new((n + 1) as nat, |i: int| sem_arms_n(env, st, arms, subject, base, b, i).0.diagnostics.len());
    let oks = Seq::new(n as nat, |i: int| arm_accepted(env, sem_arms_n(env, st, arms, subject, base, b, i).0, arms[i], subject, base, b, sem_arms_n(env, st, arms, subject, base, b, i).1));
    assert forall|i: int| 0 <= i < n implies #[trigger] steady_at(counts, oks, i) by {
        lemma_arms_agree_step(env, st, arms, subject, base, b, i);
    }
    lemma_steps(counts, oks);
    assert forall|i: int| 0 <= i < n implies oks[i] == (arm_accepted(env, sem_arms_n(env, st, arms, subject, base, b, i).0, #[trigger] arms[i], subject, base, b, sem_arms_n(env, st, arms, subject, base, b, i).1)) by {}
}

proof fn lemma_arms_agree_step(
    env: EnvV,
    st: StateV,
    arms: Seq<MatchArm>,
    subject: Ty,
    base: Option<Chars>,
    b: Bindings,
    i: int,
)
    requires
        0 <= i < arms.len(),
    ensures
        ({
            let s = sem_arms_n(env, st, arms, subject, base, b, i).0;
            let next = sem_arms_n(env, st, arms, subject, base, b, i + 1).0;
            &&& s.diagnostics.len() <= next.diagnostics.len()
            &&& silent(s, next) <==> (arm_accepted(env, s, arms[i], subject, base, b, sem_arms_n(env, st, arms, subject, base, b, i).1))
        }),
{
    let s = sem_arms_n(env, st, arms, subject, base, b, i).0;
    reveal(arm_accepted);
    kept_sem_arms_n(env, st, arms, subject, base, b, i);
    lemma_counts(st, s);
    let s2 = pattern_defined(env, s.enter(), arms[i], subject, base, b);
    grown_pattern_defined(env, s.enter(), arms[i], subject, base, b);
    lemma_grown_counts(s.enter(), s2);
    grown_sem_arm_body(env, s2, arms[i].body);
    lemma_grown_counts(s2, sem_arm_body(env, s2, arms[i].body).0);
}

// ── Match ────────────────────────────────────────────────────────────

/// The type of a match is the type of its first arm that is not left by a jump;
/// without such an arm it has none.
pub proof fn law_match_has_the_type_of_an_arm(
    env: EnvV,
    st: StateV,
    arms: Seq<MatchArm>,
    subject: Ty,
    base: Option<Chars>,
    b: Bindings,
    i: int,
    n: int,
)
    requires
        0 <= i <= n <= arms.len(),
        forall|j: int| 0 <= j < i ==> jumps(#[trigger] arms[j]),
        i < n ==> !jumps(arms[i]),
    ensures
        sem_arms_n(env, st, arms, subject, base, b, n).1 == if i < n {
            Some(
                arm_type(
                    env,
                    sem_arms_n(env, st, arms, subject, base, b, i).0,
                    arms[i],
                    subject,
                    base,
                    b,
                ),
            )
        } else {
            None
        },
    decreases n,
{
    if n > 0 {
        if i < n - 1 {
            law_match_has_the_type_of_an_arm(env, st, arms, subject, base, b, i, n - 1);
        } else {
            law_match_has_the_type_of_an_arm(env, st, arms, subject, base, b, n - 1, n - 1);
            if i == n {
                assert(jumps(arms[n - 1]));
            }
        }
    }
}

// ── Choices ──────────────────────────────────────────────────────────

/// Two branches without a finding agree: the whole has the type of a branch
/// that the other one fits; a branch that is left by a jump does not count.
pub proof fn law_branches_agree(
    env: EnvV,
    st: StateV,
    t: Ty,
    t_jumps: bool,
    e: Ty,
    e_jumps: bool,
    span: Span,
)
    ensures
        ({
            let (s, r) = branches_joined(env, st, t, t_jumps, e, e_jumps, span);
            &&& t_jumps && !e_jumps ==> silent(st, s) && r == e
            &&& e_jumps && !t_jumps ==> silent(st, s) && r == t
            &&& t_jumps && e_jumps ==> silent(st, s) && r == Ty::Void
            &&& !t_jumps && !e_jumps ==> {
                &&& silent(st, s) <==> compatible(env, st.bounds, t, e) || compatible(
                    env,
                    st.bounds,
                    e,
                    t,
                )
                &&& silent(st, s) && t != Ty::Error && e != Ty::Error ==> (r == t && compatible(
                    env,
                    st.bounds,
                    t,
                    e,
                )) || (r == e && compatible(env, st.bounds, e, t))
                &&& t == Ty::Error || e == Ty::Error ==> r == Ty::Error
            }
        }),
{
}

/// An `if` adds no finding exactly if its condition has none and is a truth
/// value, neither branch has one, and the branches agree. Without `else` it has
/// no value.
pub proof fn law_if_is_checked(env: EnvV, st: StateV, x: IfExpr)
    ensures
        ({
            let (s1, c) = sem_expr(env, st, x.condition);
            let n = x.then_block.statements@.len() as int;
            let (s3, t) = sem_block_type_n(env, s1.enter(), x.then_block.statements@, n);
            &&& silent(st, sem_if(env, st, x).0) <==> {
                &&& silent(st, s1)
                &&& c == Ty::Bool || c == Ty::Error
                &&& silent(s1, s3)
                &&& match x.else_branch {
                    None => true,
                    Some(branch) => {
                        let (s5, e) = sem_else(env, s3.leave(), branch);
                        let e_jumps = match branch {
                            ElseBranch::Block(b) => diverges(b),
                            ElseBranch::ElseIf(i) => if_diverges(*i),
                        };
                        silent(s3, s5) && silent(
                            s5,
                            branches_joined(
                                env,
                                s5,
                                t,
                                diverges(x.then_block),
                                e,
                                e_jumps,
                                x.span,
                            ).0,
                        )
                    },
                }
            }
            &&& x.else_branch is None ==> sem_if(env, st, x).1 == Ty::Void
        }),
{
    broadcast use {kept_is_grown, kept_scope};

    law_expression_keeps(env, st, x.condition);
    let (s1, c) = sem_expr(env, st, x.condition);
    lemma_counts(st, s1);
    let s2 = s1.error_if(
        c != Ty::Error && c != Ty::Bool,
        "if condition must be Bool, got "@ + crate::types::show(c),
        crate::ast::expr_span(x.condition),
    );
    let n = x.then_block.statements@.len() as int;
    let s3 = sem_block_type_n(env, s2.enter(), x.then_block.statements@, n).0;
    grown_sem_block_type_n(env, s2.enter(), x.then_block.statements@, n);
    lemma_grown_counts(s2.enter(), s3);
    let s4 = s3.leave();
    if let Some(branch) = x.else_branch {
        kept_sem_else(env, s4, branch);
        lemma_counts(s4, sem_else(env, s4, branch).0);
    }
    if c == Ty::Bool || c == Ty::Error {
        assert(s2 == s1);
    }
}

// ── Operators ────────────────────────────────────────────────────────

/// Arithmetic is between two numbers of one type, and has that type; only `+`
/// also joins two strings.
pub proof fn law_arithmetic(env: EnvV, st: StateV, op: BinaryOp, l: Ty, r: Ty, span: Span)
    requires
        op == BinaryOp::Add || op == BinaryOp::Sub || op == BinaryOp::Mul || op == BinaryOp::Div
            || op == BinaryOp::Mod,
    ensures
        silent(st, operated(env, st, op, l, r, span).0) <==> l == Ty::Error || r == Ty::Error || (l
            == Ty::Int && r == Ty::Int) || (l == Ty::Float && r == Ty::Float) || (op
            == BinaryOp::Add && l == Ty::Str && r == Ty::Str),
        silent(st, operated(env, st, op, l, r, span).0) && l != Ty::Error && r != Ty::Error
            ==> operated(env, st, op, l, r, span).1 == l && l == r,
{
}

/// A comparison is between types that fit, the order only of numbers and
/// strings, and gives a truth value; so do `&&` and `||`, of truth values.
pub proof fn law_comparison(env: EnvV, st: StateV, op: BinaryOp, l: Ty, r: Ty, span: Span)
    requires
        l != Ty::Error,
        r != Ty::Error,
    ensures
        ({
            let (s, t) = operated(env, st, op, l, r, span);
            &&& op == BinaryOp::Eq || op == BinaryOp::NotEq ==> (silent(st, s) <==> compatible(
                env,
                st.bounds,
                l,
                r,
            ))
            &&& op == BinaryOp::Lt || op == BinaryOp::Gt || op == BinaryOp::LtEq || op
                == BinaryOp::GtEq ==> (silent(st, s) <==> compatible(env, st.bounds, l, r) && (l
                == Ty::Int || l == Ty::Float || l == Ty::Str))
            &&& op == BinaryOp::And || op == BinaryOp::Or ==> (silent(st, s) <==> l == Ty::Bool
                && r == Ty::Bool)
            &&& silent(st, s) && op != BinaryOp::Add && op != BinaryOp::Sub && op != BinaryOp::Mul
                && op != BinaryOp::Div && op != BinaryOp::Mod ==> t == Ty::Bool
        }),
{
}

/// `-` is for numbers and `!` for truth values, and both keep the type.
pub proof fn law_unary(env: EnvV, st: StateV, x: UnaryExpr)
    ensures
        ({
            let (s, t) = sem_expr(env, st, x.operand);
            let (r, u) = crate::check_expr::sem_unary(env, st, x);
            &&& silent(s, r) <==> t == Ty::Error || (x.op == UnaryOp::Neg && (t == Ty::Int || t
                == Ty::Float)) || (x.op == UnaryOp::Not && t == Ty::Bool)
            &&& silent(s, r) ==> u == t
        }),
{
}

/// `?` is for `Result` and `Option`, in a function that gives back the same of
/// the two, and takes the first type argument.
pub proof fn law_try(st: StateV, t: Ty, span: Span)
    requires
        t != Ty::Error,
    ensures
        ({
            let (s, u) = tried(st, t, span);
            silent(st, s) ==> {
                &&& t matches Ty::Generic(name, args) && ((name == "Result"@ && args.len() == 2)
                    || (name == "Option"@ && args.len() == 1)) && u == args[0]
                &&& match st.return_type {
                    None => true,
                    Some(ret) => ret is TypeVar || (ret matches Ty::Generic(n, _) && n
                        == t->Generic_0),
                }
            }
        }),
        (t matches Ty::Generic(name, args) && ((name == "Result"@ && args.len() == 2) || (name
            == "Option"@ && args.len() == 1)) && (st.return_type matches Some(ret) && ret is Generic
            && ret->Generic_0 == name)) ==> silent(st, tried(st, t, span).0),
{
}

// ── Variables and fields ─────────────────────────────────────────────

/// An assignment adds no finding exactly if its value has none, and its name is
/// a variable that can be assigned and whose type the value fits.
pub proof fn law_assignment_fits(env: EnvV, st: StateV, x: AssignmentExpr)
    ensures
        ({
            let (s, t) = sem_expr(env, st, x.value);
            silent(st, sem_assignment(env, st, x).0) <==> silent(st, s) && (st.variable(
                x.name@,
            ) matches Some(v) && v.is_mut && compatible(env, st.bounds, v.ty, t))
        }),
{
    law_expression_keeps(env, st, x.value);
    lemma_counts(st, sem_expr(env, st, x.value).0);
}

/// The field at `k` of a struct has, read through a value, the type that is
/// declared for it, with the type arguments of the value put in. Reading it
/// adds no finding, unless it is private to another module.
pub proof fn law_field_is_read(
    env: EnvV,
    st: StateV,
    x: FieldAccessExpr,
    object: Ty,
    info: StructInfoV,
    k: int,
)
    requires
        base_and_bindings(env, object).0 matches Some(key) && find(env.structs, key) == Some(info),
        0 <= k < info.fields.len(),
        info.fields[k].name == x.field@,
        forall|j: int| 0 <= j < k ==> (#[trigger] info.fields[j]).name != x.field@,
    ensures
        field_read(env, st, x, object).1 == subst(
            info.fields[k].ty,
            base_and_bindings(env, object).1,
        ),
        silent(st, field_read(env, st, x, object).0) <==> !(foreign(env, info)
            && info.fields[k].visibility == crate::ast::Visibility::Private),
{
    law_field_is_found(info.fields, x.field@, k);
}

/// Reading a field that the struct does not have is a finding.
pub proof fn law_unknown_field_is_found(
    env: EnvV,
    st: StateV,
    x: FieldAccessExpr,
    object: Ty,
    info: StructInfoV,
)
    requires
        base_and_bindings(env, object).0 matches Some(key) && find(env.structs, key) == Some(info),
        forall|j: int| 0 <= j < info.fields.len() ==> (#[trigger] info.fields[j]).name != x.field@,
    ensures
        !silent(st, field_read(env, st, x, object).0),
        field_read(env, st, x, object).1 == Ty::Error,
{
    law_field_is_found(info.fields, x.field@, info.fields.len() as int);
}

/// Assigning to the field at `k` adds no finding exactly if the value fits the
/// type that the field has in the object, and the field is not private to
/// another module.
pub proof fn law_field_is_assigned(
    env: EnvV,
    st: StateV,
    x: FieldAssignmentExpr,
    object: Ty,
    t: Ty,
    info: StructInfoV,
    k: int,
)
    requires
        base_and_bindings(env, object).0 matches Some(key) && find(env.structs, key) == Some(info),
        0 <= k < info.fields.len(),
        info.fields[k].name == x.field@,
        forall|j: int| 0 <= j < k ==> (#[trigger] info.fields[j]).name != x.field@,
    ensures
        silent(st, field_assigned(env, st, x, object, t).0) <==> compatible(
            env,
            st.bounds,
            subst(info.fields[k].ty, base_and_bindings(env, object).1),
            t,
        ) && !(foreign(env, info) && info.fields[k].visibility == crate::ast::Visibility::Private),
{
    law_field_is_found(info.fields, x.field@, k);
}

// ── Lambdas ──────────────────────────────────────────────────────────

/// A lambda has the types of its parameters, in their order, and its result
/// type; it adds no finding exactly if these resolve without one, no `defer` is
/// misplaced, its body has none, and the value of the body fits the result
/// type, if there is one.
pub proof fn law_lambda_is_checked(env: EnvV, st: StateV, x: LambdaExpr)
    ensures
        ({
            let n = x.params@.len() as int;
            let m = x.body.statements@.len() as int;
            let (s1, ts) = resolved_params_n(env, st, x.params@, n);
            let (s2, ret) = match x.return_type {
                Some(te) => crate::check_types::resolved(env, s1, te),
                None => (s1, Ty::Void),
            };
            let s3 = StateV {
                lambda_captures: crate::table::put(
                    s2.lambda_captures,
                    x.span,
                    crate::check_expr::captured_n(
                        s2,
                        crate::free_vars::free_variables(x),
                        crate::free_vars::free_variables(x).len() as int,
                    ),
                ),
                ..s2
            };
            let s4 = defers_placed(s3, x.body);
            let s5 = params_defined_n(
                StateV { return_type: Some(ret), ..s4 }.enter(),
                x.params@,
                ts,
                n,
            );
            let (s6, t) = sem_block_type_n(env, s5, x.body.statements@, m);
            &&& sem_lambda(env, st, x).1 == Ty::Function(ts, Box::new(ret))
            &&& silent(st, sem_lambda(env, st, x).0) <==> silent(st, s1) && silent(s1, s2)
                && silent(s3, s4) && silent(s5, s6) && (ret == Ty::Void || compatible(
                env,
                st.bounds,
                ret,
                t,
            ))
        }),
{
    let n = x.params@.len() as int;
    let m = x.body.statements@.len() as int;
    kept_resolved_params_n(env, st, x.params@, n);
    let (s1, ts) = resolved_params_n(env, st, x.params@, n);
    lemma_counts(st, s1);
    let (s2, ret) = match x.return_type {
        Some(te) => crate::check_types::resolved(env, s1, te),
        None => (s1, Ty::Void),
    };
    if let Some(te) = x.return_type {
        kept_resolved(env, s1, te);
    }
    lemma_counts(s1, s2);
    let s3 = StateV {
        lambda_captures: crate::table::put(
            s2.lambda_captures,
            x.span,
            crate::check_expr::captured_n(
                s2,
                crate::free_vars::free_variables(x),
                crate::free_vars::free_variables(x).len() as int,
            ),
        ),
        ..s2
    };
    kept_defers_placed(s3, x.body);
    let s4 = defers_placed(s3, x.body);
    lemma_counts(s3, s4);
    let inside = StateV { return_type: Some(ret), ..s4 }.enter();
    let s5 = params_defined_n(inside, x.params@, ts, n);
    grown_params_defined_n(inside, x.params@, ts, n);
    lemma_grown_counts(inside, s5);
    crate::statement_laws::lemma_params_silent(inside, x.params@, ts, n);
    grown_sem_block_type_n(env, s5, x.body.statements@, m);
    lemma_grown_counts(s5, sem_block_type_n(env, s5, x.body.statements@, m).0);
}

// ── Constructors ─────────────────────────────────────────────────────

/// A struct without type parameters, written like a call, adds no finding
/// exactly if it may be constructed here, has a value for each field, and the
/// value at every position has none itself and fits the field at its position.
pub proof fn law_struct_is_constructed(
    env: EnvV,
    st: StateV,
    x: StructLiteralExpr,
    info: StructInfoV,
)
    requires
        in_scope(env, env.structs, x.name@) == Some(info),
        info.type_params.len() == 0,
    ensures
        ({
            let s = construction_checked(env, st, info, x.name@, x.span);
            &&& silent(st, sem_struct_literal(env, st, x).0) <==> !(foreign(env, info)
                && private_fields(info).len() > 0) && x.args@.len() == info.fields.len() && forall|
                i: int,
            |
                0 <= i < x.args@.len() ==> accepted(
                    env,
                    sem_fields_n(env, s, x.args@, info.fields, i),
                    #[trigger] x.args@[i],
                    info.fields[i].ty,
                )
            &&& sem_struct_literal(env, st, x).1 == Ty::Named(crate::env::canonical(env, x.name@))
        }),
{
    let s = construction_checked(env, st, info, x.name@, x.span);
    if x.args@.len() == info.fields.len() {
        let n = x.args@.len() as int;
        law_field_values_fit(env, s, x.args@, info.fields, n);
        kept_sem_fields_n(env, s, x.args@, info.fields, n);
        lemma_counts(s, sem_fields_n(env, s, x.args@, info.fields, n));
    }
}

/// A method call adds no finding about its arguments exactly if no parameter is
/// left without a value and every argument has none itself and fits the
/// parameter at its position, with the type arguments put in.
pub proof fn law_method_call_fits(
    env: EnvV,
    st: StateV,
    x: MethodCallExpr,
    params: Seq<Ty>,
    names: Seq<Chars>,
    b: Bindings,
    defaults: Seq<(usize, Expr)>,
)
    requires
        names.len() == params.len(),
    ensures
        ({
            let args = x.args.positional@;
            silent(st, sem_method_args(env, st, x, params, names, b, defaults)) <==> args.len()
                <= params.len() && (forall|i: int|
                0 <= i < params.len() ==> #[trigger] supplied(
                    names,
                    defaults,
                    args.len(),
                    Seq::empty(),
                    i,
                )) && forall|i: int|
                0 <= i < args.len() ==> accepted(
                    env,
                    sem_method_args_n(env, st, args, x.method@, params, b, i),
                    #[trigger] args[i],
                    subst(params[i], b),
                )
        }),
{
    let args = x.args.positional@;
    law_missing_parameters(names, defaults, args.len(), Seq::empty(), params.len() as int);
    if args.len() <= params.len() {
        law_method_arguments_fit(env, st, args, x.method@, params, b, args.len() as int);
    }
}

/// A built-in method adds no finding about its arguments exactly if it has as
/// many as it takes and every one has none itself and fits the type at its
/// position.
pub proof fn law_builtin_call_fits(env: EnvV, st: StateV, x: MethodCallExpr, params: Seq<Ty>)
    ensures
        ({
            let args = x.args.positional@;
            silent(st, sem_plain(env, st, x, params)) <==> args.len() == params.len() && forall|
                i: int,
            |
                0 <= i < args.len() ==> accepted(
                    env,
                    sem_plain_n(env, st, args, x.method@, params, i),
                    #[trigger] args[i],
                    params[i],
                )
        }),
{
    let args = x.args.positional@;
    if args.len() == params.len() {
        law_builtin_arguments_fit(env, st, args, x.method@, params, args.len() as int);
    }
}

/// A callback adds no finding exactly if it takes as many parameters as it is
/// called with, each fits the type at its position, and its result fits what
/// the method needs of it.
pub proof fn law_callback_fits(
    env: EnvV,
    st: StateV,
    method: Chars,
    expected: Seq<Ty>,
    expected_ret: Option<Ty>,
    params: Seq<Ty>,
    ret: Ty,
    span: Span,
)
    ensures
        silent(st, callback_fits(env, st, method, expected, expected_ret, params, ret, span))
            <==> params.len() == expected.len() && (forall|i: int|
            0 <= i < expected.len() ==> compatible(
                env,
                st.bounds,
                #[trigger] expected[i],
                params[i],
            )) && (expected_ret matches Some(er) ==> compatible(env, st.bounds, er, ret)),
{
    if params.len() == expected.len() {
        let n = expected.len() as int;
        law_callback_parameters_fit(env, st, method, expected, params, span, n);
        kept_callback_params_n(env, st, method, expected, params, span, n);
        lemma_counts(st, callback_params_n(env, st, method, expected, params, span, n));
    }
}

/// A call of a value adds no finding exactly if it is a function value, is
/// called without names and with as many arguments as it takes, and every
/// argument has none itself and fits the parameter at its position; the call
/// has the function's result type.
pub proof fn law_indirect_call_fits(env: EnvV, st: StateV, t: Ty, x: crate::ast::CallExpr)
    requires
        t is Function,
    ensures
        ({
            let args = x.args.positional@;
            let params = t->Function_0;
            &&& sem_indirect(env, st, t, x).1 == *t->Function_1
            &&& silent(st, sem_indirect(env, st, t, x).0) <==> x.args.named@.len() == 0
                && args.len() == params.len() && forall|i: int|
                0 <= i < args.len() ==> accepted(
                    env,
                    sem_indirect_n(env, st, args, params, i),
                    #[trigger] args[i],
                    params[i],
                )
        }),
{
    let args = x.args.positional@;
    let params = t->Function_0;
    if args.len() == params.len() {
        let s = st.error_if(
            x.args.named@.len() > 0,
            "named arguments are not supported for indirect function calls"@,
            x.span,
        );
        crate::call_laws::law_indirect_arguments_fit(env, s, args, params, args.len() as int);
        kept_sem_indirect_n(env, s, args, params, args.len() as int);
        lemma_counts(s, sem_indirect_n(env, s, args, params, args.len() as int));
    }
}

/// A list has the type of its first element, and adds no finding exactly if no
/// element has one and every other element fits that type.
pub proof fn law_list_is_checked(env: EnvV, st: StateV, x: ListLiteralExpr)
    requires
        x.elements@.len() > 0,
    ensures
        ({
            let es = x.elements@;
            let (s, first) = sem_expr(env, st, es[0]);
            &&& sem_list_literal(env, st, x).1 == Ty::Generic("List"@, seq![first])
            &&& silent(st, sem_list_literal(env, st, x).0) <==> silent(st, s) && forall|i: int|
                0 < i < es.len() ==> accepted(
                    env,
                    sem_elements_n(env, s, es, first, i),
                    #[trigger] es[i],
                    first,
                )
        }),
{
    let es = x.elements@;
    let (s, first) = sem_expr(env, st, es[0]);
    law_expression_keeps(env, st, es[0]);
    lemma_counts(st, s);
    kept_sem_elements_n(env, s, es, first, es.len() as int);
    lemma_counts(s, sem_elements_n(env, s, es, first, es.len() as int));
    law_elements_fit(env, s, es, first, es.len() as int);
}

/// A map has the types of its first entry, and adds no finding exactly if no
/// entry has one and every other entry fits these types.
pub proof fn law_map_is_checked(env: EnvV, st: StateV, x: MapLiteralExpr)
    requires
        x.entries@.len() > 0,
    ensures
        ({
            let es = x.entries@;
            let (s1, k) = sem_expr(env, st, es[0].0);
            let (s2, v) = sem_expr(env, s1, es[0].1);
            &&& sem_map_literal(env, st, x).1 == Ty::Generic("Map"@, seq![k, v])
            &&& silent(st, sem_map_literal(env, st, x).0) <==> silent(st, s1) && silent(s1, s2)
                && forall|i: int|
                0 < i < es.len() ==> entry_accepted(
                    env,
                    sem_entries_n(env, s2, es, k, v, i),
                    #[trigger] es[i],
                    k,
                    v,
                )
        }),
{
    let es = x.entries@;
    let (s1, k) = sem_expr(env, st, es[0].0);
    law_expression_keeps(env, st, es[0].0);
    lemma_counts(st, s1);
    let (s2, v) = sem_expr(env, s1, es[0].1);
    law_expression_keeps(env, s1, es[0].1);
    lemma_counts(s1, s2);
    kept_sem_entries_n(env, s2, es, k, v, es.len() as int);
    lemma_counts(s2, sem_entries_n(env, s2, es, k, v, es.len() as int));
    law_entries_fit(env, s2, es, k, v, es.len() as int);
}

/// The value of a block is its last expression, where no `return` stands before
/// it.
pub proof fn law_block_has_the_last_value(env: EnvV, st: StateV, ss: Seq<Statement>)
    requires
        ss.len() > 0,
        ss.last() is Expression,
        forall|i: int| 0 <= i < ss.len() - 1 ==> !((#[trigger] ss[i]) is Return),
    ensures
        ({
            let n = ss.len() as int;
            let before = sem_block_type_n(env, st, ss, n - 1).0;
            sem_block_type_n(env, st, ss, n).1 == crate::check_expr::sem_again(
                env,
                sem_stmt(env, before, ss.last()),
                ss.last()->Expression_0.expr,
            ).1
        }),
{
    assert(!crate::check_stmt::has_return(ss, ss.len() - 1));
}

} // verus!
