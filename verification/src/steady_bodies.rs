//! What checking expressions, statements and bodies keeps.
use crate::ast::{
    expr_span, Arguments, AssignmentExpr, BinaryExpr, Block, CallExpr, ElseBranch, Expr,
    FieldAccessExpr, FieldAssignmentExpr, ForSource, ForStmt, IfExpr, LambdaExpr, ListLiteralExpr,
    MapLiteralExpr, MatchArm, MatchBody, MatchExpr, MethodCallExpr, ReturnStmt, Statement,
    StringSegment, StructLiteralExpr, TryExpr, UnaryExpr, WhileStmt,
};
use crate::builtins::{
    bound_or_var, element_of, sem_builtin_method, sem_callback, sem_list_builder_method,
    sem_list_method, sem_map_builder_method, sem_map_method, sem_only_callback, sem_option_method,
    sem_plain, sem_plain_n, sem_reduce, sem_result_method, sem_string_method,
};
use crate::calls::{arg_names_n, merged_n, padded};
use crate::check_call::{
    counted, generic_called, sem_argument_types, sem_call, sem_call_info, sem_fields_n,
    sem_indirect, sem_indirect_n, sem_named_n, sem_named_types_n, sem_payload_n,
    sem_positional_n, sem_struct_literal, sem_unary_builtin, sem_variant,
};
use crate::check_expr::{
    arm_joined, captured_n, params_defined_n, pattern_defined, resolved_params_n, root_name,
    sem_again, sem_arm_body, sem_arms_n, sem_assignment, sem_binary, sem_elements_n, sem_else,
    sem_entries_n, sem_expr, sem_field_access, sem_field_assignment, sem_ident, sem_if, sem_lambda,
    sem_list_literal, sem_map_literal, sem_match, sem_segments_n, sem_try, sem_types_n, sem_unary,
};
use crate::check_method::{
    no_type_args, sem_declared_method, sem_json_call, sem_json_decode, sem_json_encode,
    sem_json_text, sem_method_args, sem_method_args_n, sem_method_bindings, sem_method_call,
    sem_method_on, sem_module_call, sem_namespace_call, sem_no_method, sem_trait_method,
    sem_user_method, type_label,
};
use crate::check_stmt::{
    sem_block_n, sem_block_type_n, sem_for, sem_return, sem_scoped, sem_source, sem_stmt, sem_while,
};
use crate::check_types::{base_and_bindings, clash, inferred, resolved};
use crate::defer::defers_placed;
use crate::env::{in_scope, named, namespace, EnvV, NamespaceTargetV};
use crate::free_vars::free_variables;
use crate::info::{FieldInfoV, FunctionInfoV, MethodInfoV, SymbolKindV, TraitMethodInfoV};
use crate::paths::{path_text, qualified};
use crate::pin::field_types;
use crate::privacy::{construction_checked, private_access};
use crate::span::Span;
use crate::state::{fixed, StateV};
use crate::steady::{
    grown, grown_define, grown_refl, grown_trans, kept, kept_forget, kept_is_grown, kept_scope,
    lemma_kept_in_loop, lemma_kept_others, lemma_kept_return_type, steps,
};
use crate::steady_parts::{
    grown_declared, grown_params_defined_n, grown_pattern_defined, kept_bounds_held_n,
    kept_callback_fits, kept_counted, kept_decoded, kept_defers_placed, kept_encoded,
    kept_fields_fitted_n, kept_fitted_n, kept_jumps_rejected_n, kept_named_fitted_n,
    kept_payload_fitted_n, kept_pinned_any, kept_resolved, kept_resolved_params_n,
    kept_type_args_given, kept_type_args_recorded,
};
use crate::table::{find, put};
use crate::text::{decimal, Chars};
use crate::types::{show, ty_option, Bindings, Ty};
use crate::variants::variant_owner;
use vstd::prelude::*;

verus! {

broadcast use crate::steady::steps;

// ── Expressions ──────────────────────────────────────────────────────

/// Checking an expression leaves the scopes and the surroundings as they were,
/// and loses nothing that was found or recorded.
pub proof fn law_expression_keeps(env: EnvV, st: StateV, e: Expr)
    ensures
        kept(st, sem_expr(env, st, e).0),
        find(sem_expr(env, st, e).0.expr_types, expr_span(e)) == Some(sem_expr(env, st, e).1),
    decreases e, 1int,
{
    match e {
        Expr::Literal(_) => {},
        Expr::Ident(_) => {},
        Expr::Binary(x) => {
            kept_sem_binary(env, st, *x);
        },
        Expr::Unary(x) => {
            kept_sem_unary(env, st, *x);
        },
        Expr::Call(x) => {
            kept_sem_call(env, st, *x);
        },
        Expr::Assignment(x) => {
            kept_sem_assignment(env, st, *x);
        },
        Expr::FieldAssignment(x) => {
            kept_sem_field_assignment(env, st, *x);
        },
        Expr::FieldAccess(x) => {
            kept_sem_field_access(env, st, *x);
        },
        Expr::MethodCall(x) => {
            kept_sem_method_call(env, st, *x);
        },
        Expr::StructLiteral(x) => {
            kept_sem_struct_literal(env, st, *x);
        },
        Expr::Match(x) => {
            kept_sem_match(env, st, *x);
        },
        Expr::If(x) => {
            kept_sem_if(env, st, *x);
        },
        Expr::ListLiteral(x) => {
            kept_sem_list_literal(env, st, *x);
        },
        Expr::MapLiteral(x) => {
            kept_sem_map_literal(env, st, *x);
        },
        Expr::Try(x) => {
            kept_sem_try(env, st, *x);
        },
        Expr::StringInterpolation(x) => {
            kept_sem_segments_n(env, st, x.segments@, x.segments@.len() as int);
        },
        Expr::Lambda(x) => {
            kept_sem_lambda(env, st, *x);
        },
    }
    let (s, t) = match e {
        Expr::Literal(x) => (st, crate::check_expr::literal_ty(x.kind)),
        Expr::Ident(x) => sem_ident(env, st, x),
        Expr::Binary(x) => sem_binary(env, st, *x),
        Expr::Unary(x) => sem_unary(env, st, *x),
        Expr::Call(x) => sem_call(env, st, *x),
        Expr::Assignment(x) => sem_assignment(env, st, *x),
        Expr::FieldAssignment(x) => sem_field_assignment(env, st, *x),
        Expr::FieldAccess(x) => sem_field_access(env, st, *x),
        Expr::MethodCall(x) => sem_method_call(env, st, *x),
        Expr::StructLiteral(x) => sem_struct_literal(env, st, *x),
        Expr::Match(x) => sem_match(env, st, *x),
        Expr::If(x) => sem_if(env, st, *x),
        Expr::ListLiteral(x) => sem_list_literal(env, st, *x),
        Expr::MapLiteral(x) => sem_map_literal(env, st, *x),
        Expr::Try(x) => sem_try(env, st, *x),
        Expr::StringInterpolation(x) => (
            sem_segments_n(env, st, x.segments@, x.segments@.len() as int),
            Ty::Str,
        ),
        Expr::Lambda(x) => sem_lambda(env, st, *x),
    };
    assert(sem_expr(env, st, e) == (s.record_type(expr_span(e), t), t));
    assert(kept(st, s));
    crate::table::law_find_after_put(s.expr_types, expr_span(e), t);
}

/// A second look at an expression adds no finding.
pub proof fn law_second_look_adds_nothing(env: EnvV, st: StateV, e: Expr)
    ensures
        kept(st, sem_again(env, st, e).0),
        sem_again(env, st, e).0.diagnostics == st.diagnostics,
    decreases e, 2int,
{
    broadcast use kept_forget;

    law_expression_keeps(env, st, e);
}

pub(crate) proof fn kept_sem_binary(env: EnvV, st: StateV, x: BinaryExpr)
    ensures
        kept(st, sem_binary(env, st, x).0),
    decreases x, 1int,
{
    law_expression_keeps(env, st, x.left);
    law_expression_keeps(env, sem_expr(env, st, x.left).0, x.right);
}

pub(crate) proof fn kept_sem_unary(env: EnvV, st: StateV, x: UnaryExpr)
    ensures
        kept(st, sem_unary(env, st, x).0),
    decreases x, 1int,
{
    law_expression_keeps(env, st, x.operand);
}

pub(crate) proof fn kept_sem_assignment(env: EnvV, st: StateV, x: AssignmentExpr)
    ensures
        kept(st, sem_assignment(env, st, x).0),
    decreases x, 1int,
{
    law_expression_keeps(env, st, x.value);
}

pub(crate) proof fn kept_sem_field_assignment(env: EnvV, st: StateV, x: FieldAssignmentExpr)
    ensures
        kept(st, sem_field_assignment(env, st, x).0),
    decreases x, 1int,
{
    law_expression_keeps(env, st, x.value);
    let s1 = sem_expr(env, st, x.value).0;
    let s2 = match root_name(x.object) {
        Some(name) => match s1.variable(name) {
            Some(v) => s1.error_if(
                !v.is_mut,
                "cannot assign to field of immutable variable `"@ + name + "`"@,
                x.span,
            ),
            None => s1,
        },
        None => s1,
    };
    assert(kept(s1, s2));
    law_expression_keeps(env, s2, x.object);
}

pub(crate) proof fn kept_sem_field_access(env: EnvV, st: StateV, x: FieldAccessExpr)
    ensures
        kept(st, sem_field_access(env, st, x).0),
    decreases x, 1int,
{
    law_expression_keeps(env, st, x.object);
}

pub(crate) proof fn kept_sem_types_n(env: EnvV, st: StateV, es: Seq<Expr>, n: int)
    ensures
        kept(st, sem_types_n(env, st, es, n).0),
    decreases es, n,
{
    if 0 < n <= es.len() {
        kept_sem_types_n(env, st, es, n - 1);
        law_expression_keeps(env, sem_types_n(env, st, es, n - 1).0, es[n - 1]);
    }
}

pub(crate) proof fn kept_sem_elements_n(env: EnvV, st: StateV, es: Seq<Expr>, first: Ty, n: int)
    ensures
        kept(st, sem_elements_n(env, st, es, first, n)),
    decreases es, n,
{
    if 1 < n <= es.len() {
        kept_sem_elements_n(env, st, es, first, n - 1);
        law_expression_keeps(env, sem_elements_n(env, st, es, first, n - 1), es[n - 1]);
    }
}

pub(crate) proof fn kept_sem_list_literal(env: EnvV, st: StateV, x: ListLiteralExpr)
    ensures
        kept(st, sem_list_literal(env, st, x).0),
    decreases x, 1int,
{
    if x.elements@.len() > 0 {
        law_expression_keeps(env, st, x.elements@[0]);
        let (s, first) = sem_expr(env, st, x.elements@[0]);
        kept_sem_elements_n(env, s, x.elements@, first, x.elements@.len() as int);
    }
}

pub(crate) proof fn kept_sem_entries_n(
    env: EnvV,
    st: StateV,
    es: Seq<(Expr, Expr)>,
    k: Ty,
    v: Ty,
    n: int,
)
    ensures
        kept(st, sem_entries_n(env, st, es, k, v, n)),
    decreases es, n,
{
    if 1 < n <= es.len() {
        kept_sem_entries_n(env, st, es, k, v, n - 1);
        let s0 = sem_entries_n(env, st, es, k, v, n - 1);
        law_expression_keeps(env, s0, es[n - 1].0);
        law_expression_keeps(env, sem_expr(env, s0, es[n - 1].0).0, es[n - 1].1);
    }
}

pub(crate) proof fn kept_sem_map_literal(env: EnvV, st: StateV, x: MapLiteralExpr)
    ensures
        kept(st, sem_map_literal(env, st, x).0),
    decreases x, 1int,
{
    if x.entries@.len() > 0 {
        law_expression_keeps(env, st, x.entries@[0].0);
        let (s1, k) = sem_expr(env, st, x.entries@[0].0);
        law_expression_keeps(env, s1, x.entries@[0].1);
        let (s2, v) = sem_expr(env, s1, x.entries@[0].1);
        kept_sem_entries_n(env, s2, x.entries@, k, v, x.entries@.len() as int);
    }
}

pub(crate) proof fn kept_sem_try(env: EnvV, st: StateV, x: TryExpr)
    ensures
        kept(st, sem_try(env, st, x).0),
    decreases x, 1int,
{
    law_expression_keeps(env, st, x.operand);
}

pub(crate) proof fn kept_sem_segments_n(env: EnvV, st: StateV, ss: Seq<StringSegment>, n: int)
    ensures
        kept(st, sem_segments_n(env, st, ss, n)),
    decreases ss, n,
{
    if 0 < n <= ss.len() {
        kept_sem_segments_n(env, st, ss, n - 1);
        if let StringSegment::Expr(e) = ss[n - 1] {
            law_expression_keeps(env, sem_segments_n(env, st, ss, n - 1), e);
        }
    }
}

pub(crate) proof fn kept_sem_lambda(env: EnvV, st: StateV, x: LambdaExpr)
    ensures
        kept(st, sem_lambda(env, st, x).0),
    decreases x, 1int,
{
    broadcast use {grown_trans, kept_is_grown, kept_scope};

    let n = x.params@.len() as int;
    let m = x.body.statements@.len() as int;
    let (s1, ts) = resolved_params_n(env, st, x.params@, n);
    kept_resolved_params_n(env, st, x.params@, n);
    let (s2, ret) = match x.return_type {
        Some(te) => resolved(env, s1, te),
        None => (s1, Ty::Void),
    };
    if let Some(te) = x.return_type {
        kept_resolved(env, s1, te);
    }
    assert(kept(s1, s2));
    let names = free_variables(x);
    let s3 = StateV {
        lambda_captures: put(
            s2.lambda_captures,
            x.span,
            captured_n(s2, names, names.len() as int),
        ),
        ..s2
    };
    lemma_kept_others(s2, s3);
    let s4 = defers_placed(s3, x.body);
    kept_defers_placed(s3, x.body);
    let inside = StateV { return_type: Some(ret), ..s4 };
    let s5 = params_defined_n(inside.enter(), x.params@, ts, n);
    grown_params_defined_n(inside.enter(), x.params@, ts, n);
    let (s6, t) = sem_block_type_n(env, s5, x.body.statements@, m);
    grown_sem_block_type_n(env, s5, x.body.statements@, m);
    let s61 = s6.error_if(
        ret != Ty::Void && clash(env, s6, ret, t),
        "lambda return type mismatch: expected `"@ + show(ret) + "` but body evaluates to `"@
            + show(t) + "`"@,
        x.span,
    );
    assert(kept(s6, s61));
    assert(grown(inside.enter(), s61));
    assert(kept(inside, s61.leave()));
    lemma_kept_return_type(s4, s61.leave(), Some(ret));
}

pub(crate) proof fn grown_sem_arm_body(env: EnvV, st: StateV, body: MatchBody)
    ensures
        grown(st, sem_arm_body(env, st, body).0),
    decreases body, 1int,
{
    broadcast use {grown_trans, kept_is_grown};

    match body {
        MatchBody::Expr(e) => {
            law_expression_keeps(env, st, e);
        },
        MatchBody::Block(b) => {
            let n = b.statements@.len() as int;
            kept_jumps_rejected_n(st, b.statements@, n);
            grown_sem_block_type_n(
                env,
                crate::check_expr::jumps_rejected_n(st, b.statements@, n),
                b.statements@,
                n,
            );
        },
    }
}

pub(crate) proof fn kept_sem_arms_n(
    env: EnvV,
    st: StateV,
    arms: Seq<MatchArm>,
    subject: Ty,
    base: Option<Chars>,
    b: Bindings,
    n: int,
)
    ensures
        kept(st, sem_arms_n(env, st, arms, subject, base, b, n).0),
    decreases arms, n,
{
    broadcast use {grown_trans, kept_is_grown, kept_scope};

    if 0 < n <= arms.len() {
        kept_sem_arms_n(env, st, arms, subject, base, b, n - 1);
        let (s1, result) = sem_arms_n(env, st, arms, subject, base, b, n - 1);
        let arm = arms[n - 1];
        let s2 = pattern_defined(env, s1.enter(), arm, subject, base, b);
        grown_pattern_defined(env, s1.enter(), arm, subject, base, b);
        let (s3, t) = sem_arm_body(env, s2, arm.body);
        grown_sem_arm_body(env, s2, arm.body);
        let s4 = arm_joined(env, s3, arm, t, result).0;
        assert(kept(s3, s4));
        assert(grown(s1.enter(), s4));
    }
}

pub(crate) proof fn kept_sem_match(env: EnvV, st: StateV, x: MatchExpr)
    ensures
        kept(st, sem_match(env, st, x).0),
    decreases x, 1int,
{
    law_expression_keeps(env, st, x.subject);
    let (s1, subject) = sem_expr(env, st, x.subject);
    let (base, b) = base_and_bindings(env, subject);
    kept_sem_arms_n(env, s1, x.arms@, subject, base, b, x.arms@.len() as int);
}

pub(crate) proof fn kept_sem_if(env: EnvV, st: StateV, x: IfExpr)
    ensures
        kept(st, sem_if(env, st, x).0),
    decreases x, 1int,
{
    broadcast use {kept_is_grown, kept_scope};

    law_expression_keeps(env, st, x.condition);
    let (s1, c) = sem_expr(env, st, x.condition);
    let s2 = s1.error_if(
        c != Ty::Error && c != Ty::Bool,
        "if condition must be Bool, got "@ + show(c),
        expr_span(x.condition),
    );
    let n = x.then_block.statements@.len() as int;
    let s3 = sem_block_type_n(env, s2.enter(), x.then_block.statements@, n).0;
    grown_sem_block_type_n(env, s2.enter(), x.then_block.statements@, n);
    let s4 = s3.leave();
    assert(kept(s2, s4));
    if let Some(branch) = x.else_branch {
        kept_sem_else(env, s4, branch);
    }
}

pub(crate) proof fn kept_sem_else(env: EnvV, st: StateV, branch: ElseBranch)
    ensures
        kept(st, sem_else(env, st, branch).0),
    decreases branch, 1int,
{
    broadcast use {kept_is_grown, kept_scope};

    match branch {
        ElseBranch::Block(b) => {
            let n = b.statements@.len() as int;
            grown_sem_block_type_n(env, st.enter(), b.statements@, n);
        },
        ElseBranch::ElseIf(i) => {
            kept_sem_if(env, st, *i);
        },
    }
}

// ── Statements ───────────────────────────────────────────────────────

/// Checking a statement leaves the outer scopes and the surroundings as they
/// were, keeps the variables of the innermost scope, and loses nothing that
/// was found or recorded.
pub proof fn law_statement_keeps(env: EnvV, st: StateV, s: Statement)
    ensures
        grown(st, sem_stmt(env, st, s)),
    decreases s, 1int,
{
    broadcast use {grown_trans, kept_is_grown};

    match s {
        Statement::VarDecl(x) => {
            law_expression_keeps(env, st, x.initializer);
            let (s1, init) = sem_expr(env, st, x.initializer);
            grown_declared(env, s1, x, init);
        },
        Statement::Expression(x) => {
            law_expression_keeps(env, st, x.expr);
        },
        Statement::Return(x) => {
            kept_sem_return(env, st, x);
        },
        Statement::While(x) => {
            kept_sem_while(env, st, x);
        },
        Statement::For(x) => {
            kept_sem_for(env, st, x);
        },
        Statement::Break(span) => {
            assert(kept(st, sem_stmt(env, st, s)));
        },
        Statement::Continue(span) => {
            assert(kept(st, sem_stmt(env, st, s)));
        },
        Statement::Defer(x) => {
            law_expression_keeps(env, st, x.expr);
        },
    }
}

pub(crate) proof fn kept_sem_return(env: EnvV, st: StateV, x: ReturnStmt)
    ensures
        kept(st, sem_return(env, st, x)),
    decreases x, 1int,
{
    if let Some(e) = x.value {
        law_expression_keeps(env, st, e);
        kept_pinned_any(env, e);
    }
}

pub(crate) proof fn kept_sem_scoped(env: EnvV, st: StateV, b: Option<Block>)
    ensures
        kept(st, sem_scoped(env, st, b)),
    decreases b, 1int,
{
    broadcast use kept_scope;

    if let Some(b) = b {
        law_statements_keep(env, st.enter(), b.statements@, b.statements@.len() as int);
    }
}

pub(crate) proof fn kept_sem_while(env: EnvV, st: StateV, x: WhileStmt)
    ensures
        kept(st, sem_while(env, st, x)),
    decreases x, 1int,
{
    broadcast use kept_scope;

    law_expression_keeps(env, st, x.condition);
    let (s1, t) = sem_expr(env, st, x.condition);
    let s2 = s1.error_if(
        t != Ty::Error && t != Ty::Bool,
        "while condition must be Bool, got "@ + show(t),
        expr_span(x.condition),
    );
    let inside = StateV { in_loop: true, ..s2 };
    let n = x.body.statements@.len() as int;
    let s3 = sem_block_n(env, inside.enter(), x.body.statements@, n).leave();
    law_statements_keep(env, inside.enter(), x.body.statements@, n);
    lemma_kept_in_loop(s2, s3, true);
    kept_sem_scoped(env, StateV { in_loop: s2.in_loop, ..s3 }, x.else_block);
}

pub(crate) proof fn kept_sem_source(env: EnvV, st: StateV, x: ForStmt)
    ensures
        kept(st, sem_source(env, st, x).0),
    decreases x, 0int,
{
    match x.source {
        ForSource::Range { start, end } => {
            law_expression_keeps(env, st, start);
            let (s1, a) = sem_expr(env, st, start);
            law_expression_keeps(env, s1, end);
            let (s2, b) = sem_expr(env, s1, end);
            let s3 = s2.error_if(
                a != Ty::Error && a != Ty::Int,
                "for range start must be Int, got "@ + show(a),
                expr_span(start),
            ).error_if(
                b != Ty::Error && b != Ty::Int,
                "for range end must be Int, got "@ + show(b),
                expr_span(end),
            );
            if let Some(te) = x.var_type {
                kept_resolved(env, s3, te);
            }
        },
        ForSource::Iterable(e) => {
            law_expression_keeps(env, st, e);
        },
    }
}

pub(crate) proof fn kept_sem_for(env: EnvV, st: StateV, x: ForStmt)
    ensures
        kept(st, sem_for(env, st, x)),
    decreases x, 1int,
{
    broadcast use {grown_trans, grown_define, kept_scope};

    kept_sem_source(env, st, x);
    let (s1, t) = sem_source(env, st, x);
    let inside = StateV { in_loop: true, ..s1 };
    let s2 = inside.enter().define(x.var_name@, fixed(t, x.span));
    let n = x.body.statements@.len() as int;
    law_statements_keep(env, s2, x.body.statements@, n);
    let s3 = sem_block_n(env, s2, x.body.statements@, n).leave();
    assert(kept(inside, s3));
    lemma_kept_in_loop(s1, s3, true);
    kept_sem_scoped(env, StateV { in_loop: s1.in_loop, ..s3 }, x.else_block);
}

/// The same for the first `n` statements of a block.
pub proof fn law_statements_keep(env: EnvV, st: StateV, ss: Seq<Statement>, n: int)
    ensures
        grown(st, sem_block_n(env, st, ss, n)),
    decreases ss, n,
{
    broadcast use {grown_refl, grown_trans};

    if 0 < n <= ss.len() {
        law_statements_keep(env, st, ss, n - 1);
        law_statement_keeps(env, sem_block_n(env, st, ss, n - 1), ss[n - 1]);
    }
}

pub(crate) proof fn grown_sem_block_type_n(env: EnvV, st: StateV, ss: Seq<Statement>, n: int)
    ensures
        grown(st, sem_block_type_n(env, st, ss, n).0),
    decreases ss, n,
{
    broadcast use {grown_refl, grown_trans, kept_is_grown};

    if 0 < n <= ss.len() {
        grown_sem_block_type_n(env, st, ss, n - 1);
        let s1 = sem_block_type_n(env, st, ss, n - 1).0;
        law_statement_keeps(env, s1, ss[n - 1]);
        let s2 = sem_stmt(env, s1, ss[n - 1]);
        match ss[n - 1] {
            Statement::Return(x) => {
                if let Some(e) = x.value {
                    law_second_look_adds_nothing(env, s2, e);
                }
            },
            Statement::Expression(x) => {
                law_second_look_adds_nothing(env, s2, x.expr);
            },
            _ => {},
        }
    }
}

// ── Calls ────────────────────────────────────────────────────────────

pub(crate) proof fn kept_sem_positional_n(
    env: EnvV,
    st: StateV,
    args: Seq<Expr>,
    fname: Chars,
    params: Seq<Ty>,
    n: int,
)
    ensures
        kept(st, sem_positional_n(env, st, args, fname, params, n)),
    decreases args, n,
{
    if 0 < n <= args.len() {
        kept_sem_positional_n(env, st, args, fname, params, n - 1);
        law_expression_keeps(
            env,
            sem_positional_n(env, st, args, fname, params, n - 1),
            args[n - 1],
        );
        kept_pinned_any(env, args[n - 1]);
    }
}

pub(crate) proof fn kept_sem_named_n(
    env: EnvV,
    st: StateV,
    named_args: Seq<(String, Expr)>,
    fname: Chars,
    names: Seq<Chars>,
    params: Seq<Ty>,
    n: int,
)
    ensures
        kept(st, sem_named_n(env, st, named_args, fname, names, params, n)),
    decreases named_args, n,
{
    if 0 < n <= named_args.len() {
        kept_sem_named_n(env, st, named_args, fname, names, params, n - 1);
        let s1 = sem_named_n(env, st, named_args, fname, names, params, n - 1);
        law_expression_keeps(env, s1, named_args[n - 1].1);
        kept_pinned_any(env, named_args[n - 1].1);
    }
}

pub(crate) proof fn kept_sem_named_types_n(
    env: EnvV,
    st: StateV,
    named_args: Seq<(String, Expr)>,
    names: Seq<Chars>,
    ts: Seq<Ty>,
    n: int,
)
    ensures
        kept(st, sem_named_types_n(env, st, named_args, names, ts, n).0),
    decreases named_args, n,
{
    if 0 < n <= named_args.len() {
        kept_sem_named_types_n(env, st, named_args, names, ts, n - 1);
        let s1 = sem_named_types_n(env, st, named_args, names, ts, n - 1).0;
        law_expression_keeps(env, s1, named_args[n - 1].1);
    }
}

pub(crate) proof fn kept_sem_argument_types(env: EnvV, st: StateV, f: FunctionInfoV, args: Arguments)
    ensures
        kept(st, sem_argument_types(env, st, f, args).0),
    decreases args, 1int,
{
    let n = args.positional@.len() as int;
    kept_sem_types_n(env, st, args.positional@, n);
    let (s1, ts) = sem_types_n(env, st, args.positional@, n);
    kept_sem_named_types_n(
        env,
        s1,
        args.named@,
        f.param_names,
        padded(ts, f.params.len()),
        args.named@.len() as int,
    );
}

pub(crate) proof fn kept_generic_called(
    env: EnvV,
    st: StateV,
    fname: Chars,
    f: FunctionInfoV,
    args: Arguments,
    span: Span,
    ts: Seq<Ty>,
)
    ensures
        kept(st, generic_called(env, st, fname, f, args, span, ts).0),
{
    let (b, errors) = inferred(f.params, ts);
    let n = args.positional@.len() as int;
    let m = args.named@.len() as int;
    kept_fitted_n(env, st, args.positional@, fname, f.params, b, ts, n);
    let s1 = crate::calls::fitted_n(env, st, args.positional@, fname, f.params, b, ts, n);
    kept_named_fitted_n(env, s1, args.named@, fname, f.param_names, f.params, b, ts, m);
    let s2 = crate::calls::named_fitted_n(
        env,
        s1,
        args.named@,
        fname,
        f.param_names,
        f.params,
        b,
        ts,
        m,
    );
    let k = f.type_param_bounds.len() as int;
    kept_bounds_held_n(env, s2, f.type_param_bounds, b, span, k);
    let s3 = crate::calls::bounds_held_n(env, s2, f.type_param_bounds, b, span, k);
    kept_type_args_recorded(s3, fname, f.type_params, b, errors, ts, span);
}

pub(crate) proof fn kept_sem_call_info(
    env: EnvV,
    st: StateV,
    fname: Chars,
    f: FunctionInfoV,
    args: Arguments,
    span: Span,
)
    ensures
        kept(st, sem_call_info(env, st, fname, f, args, span).0),
    decreases args, 2int,
{
    kept_counted(st, fname, f, args, span);
    let (s1, well) = counted(st, fname, f, args, span);
    if !well {
    } else if f.type_params.len() > 0 {
        kept_sem_argument_types(env, s1, f, args);
        let (s2, ts) = sem_argument_types(env, s1, f, args);
        kept_generic_called(env, s2, fname, f, args, span, ts);
    } else {
        let n = args.positional@.len() as int;
        kept_sem_positional_n(env, s1, args.positional@, fname, f.params, n);
        kept_sem_named_n(
            env,
            sem_positional_n(env, s1, args.positional@, fname, f.params, n),
            args.named@,
            fname,
            f.param_names,
            f.params,
            args.named@.len() as int,
        );
    }
}

pub(crate) proof fn kept_sem_indirect_n(env: EnvV, st: StateV, args: Seq<Expr>, params: Seq<Ty>, n: int)
    ensures
        kept(st, sem_indirect_n(env, st, args, params, n)),
    decreases args, n,
{
    if 0 < n <= args.len() {
        kept_sem_indirect_n(env, st, args, params, n - 1);
        law_expression_keeps(env, sem_indirect_n(env, st, args, params, n - 1), args[n - 1]);
    }
}

pub(crate) proof fn kept_sem_indirect(env: EnvV, st: StateV, t: Ty, x: CallExpr)
    ensures
        kept(st, sem_indirect(env, st, t, x).0),
    decreases x, 1int,
{
    let s = st.error_if(
        x.args.named@.len() > 0,
        "named arguments are not supported for indirect function calls"@,
        x.span,
    );
    if let Ty::Function(params, ret) = t {
        let argc = x.args.positional@.len();
        kept_sem_indirect_n(env, s, x.args.positional@, params, argc as int);
    }
}

pub(crate) proof fn kept_sem_unary_builtin(env: EnvV, st: StateV, x: CallExpr, name: Chars)
    ensures
        kept(st, sem_unary_builtin(env, st, x, name)),
    decreases x, 1int,
{
    let s = st.error_if(
        x.args.named@.len() > 0,
        "built-in function `"@ + name + "` does not accept named arguments"@,
        x.span,
    );
    if x.args.positional@.len() == 1 {
        law_expression_keeps(env, s, x.args.positional@[0]);
    }
}

pub(crate) proof fn kept_sem_call(env: EnvV, st: StateV, x: CallExpr)
    ensures
        kept(st, sem_call(env, st, x).0),
    decreases x, 2int,
{
    match x.callee {
        Expr::Ident(id) => {
            let name = id.name@;
            let referred = st.refer(id.span, SymbolKindV::Function, name);
            if name == "print"@ {
                kept_sem_unary_builtin(env, st, x, "print"@);
            } else if name == "toString"@ {
                kept_sem_unary_builtin(env, st, x, "toString"@);
            } else if let Some(f) = in_scope(env, env.functions, name) {
                kept_sem_call_info(env, referred, name, f, x.args, x.span);
            } else if let Some(f) = in_scope(env, env.host_functions, name) {
                kept_sem_call_info(env, referred, name, f, x.args, x.span);
            } else if let Some(v) = st.variable(name) {
                kept_sem_indirect(env, st, v.ty, x);
            }
        },
        _ => {
            law_expression_keeps(env, st, x.callee);
            let (s, t) = sem_expr(env, st, x.callee);
            kept_sem_indirect(env, s, t, x);
        },
    }
}

pub(crate) proof fn kept_sem_fields_n(env: EnvV, st: StateV, args: Seq<Expr>, fs: Seq<FieldInfoV>, n: int)
    ensures
        kept(st, sem_fields_n(env, st, args, fs, n)),
    decreases args, n,
{
    if 0 < n <= args.len() && n <= fs.len() {
        kept_sem_fields_n(env, st, args, fs, n - 1);
        law_expression_keeps(env, sem_fields_n(env, st, args, fs, n - 1), args[n - 1]);
        kept_pinned_any(env, args[n - 1]);
    }
}

pub(crate) proof fn kept_sem_struct_literal(env: EnvV, st: StateV, x: StructLiteralExpr)
    ensures
        kept(st, sem_struct_literal(env, st, x).0),
    decreases x, 2int,
{
    match in_scope(env, env.structs, x.name@) {
        Some(info) => {
            let s = construction_checked(env, st, info, x.name@, x.span);
            assert(kept(st, s));
            let argc = x.args@.len() as int;
            if info.type_params.len() > 0 {
                kept_sem_types_n(env, s, x.args@, argc);
                let (s1, ts) = sem_types_n(env, s, x.args@, argc);
                let (b, _) = inferred(field_types(info.fields), ts);
                kept_fields_fitted_n(env, s1, x.args@, info.fields, b, ts, argc);
            } else {
                kept_sem_fields_n(env, s, x.args@, info.fields, argc);
            }
        },
        None => {
            kept_sem_variant(env, st, x);
        },
    }
}

pub(crate) proof fn kept_sem_payload_n(
    env: EnvV,
    st: StateV,
    args: Seq<Expr>,
    name: Chars,
    fields: Seq<Ty>,
    n: int,
)
    ensures
        kept(st, sem_payload_n(env, st, args, name, fields, n)),
    decreases args, n,
{
    if 0 < n <= args.len() && n <= fields.len() {
        kept_sem_payload_n(env, st, args, name, fields, n - 1);
        law_expression_keeps(
            env,
            sem_payload_n(env, st, args, name, fields, n - 1),
            args[n - 1],
        );
    }
}

pub(crate) proof fn kept_sem_variant(env: EnvV, st: StateV, x: StructLiteralExpr)
    ensures
        kept(st, sem_variant(env, st, x).0),
    decreases x, 1int,
{
    let (s, owner) = variant_owner(env, st, x.name@, x.span);
    assert(kept(st, s));
    if let Some(m) = owner {
        let argc = x.args@.len() as int;
        if m.type_params.len() > 0 {
            kept_sem_types_n(env, s, x.args@, argc);
            let (s1, ts) = sem_types_n(env, s, x.args@, argc);
            let (b, _) = inferred(m.variant_types, ts);
            kept_payload_fitted_n(env, s1, x.args@, x.name@, m.variant_types, b, ts, argc);
        } else {
            kept_sem_payload_n(env, s, x.args@, x.name@, m.variant_types, argc);
        }
    }
}

// ── Method calls ─────────────────────────────────────────────────────

pub(crate) proof fn kept_sem_namespace_call(env: EnvV, st: StateV, x: MethodCallExpr)
    ensures
        sem_namespace_call(env, st, x) matches Some(r) ==> kept(st, r.0),
    decreases x, 8int,
{
    if let Expr::Ident(id) = x.object {
        match namespace(env, id.name@) {
            Some(NamespaceTargetV::UserModule(path)) => {
                kept_sem_module_call(env, st, x, id.name@, path);
            },
            Some(NamespaceTargetV::Json) => {
                kept_sem_json_call(env, st, x);
            },
            None => {},
        }
    }
}

pub(crate) proof fn kept_sem_module_call(
    env: EnvV,
    st: StateV,
    x: MethodCallExpr,
    ns: Chars,
    path: Seq<Chars>,
)
    ensures
        kept(st, sem_module_call(env, st, x, ns, path).0),
    decreases x, 7int,
{
    let method = x.method@;
    let s = st.error_if(
        x.type_args@.len() > 0,
        "function `"@ + ns + "."@ + method + "` does not take type arguments"@,
        x.span,
    );
    let key = qualified(path, method);
    let n = x.args.positional@.len() as int;
    let unknown = s.error(
        "module `"@ + path_text(path) + "` has no function `"@ + method + "`"@,
        x.span,
    );
    kept_sem_types_n(env, unknown, x.args.positional@, n);
    if let Some(f) = find(env.functions, key) {
        let private = s.diagnose(
            private_access(
                "function `"@ + method + "` is private to module `"@ + path_text(path) + "`"@,
                x.span,
                f.definition_span,
                "mark `"@ + method + "` as `public` in `"@ + path_text(path)
                    + "` to call it as `"@ + ns + "."@ + method + "`"@,
            ),
        );
        kept_sem_types_n(env, private, x.args.positional@, n);
        let reached = StateV {
            namespace_call_targets: put(s.namespace_call_targets, x.span, key),
            ..s
        };
        lemma_kept_others(s, reached);
        kept_sem_call_info(env, reached, ns + "."@ + method, f, x.args, x.span);
    }
}

pub(crate) proof fn kept_sem_json_call(env: EnvV, st: StateV, x: MethodCallExpr)
    ensures
        kept(st, sem_json_call(env, st, x).0),
    decreases x, 7int,
{
    if x.method@ == "encode"@ {
        kept_sem_json_encode(env, st, x);
    } else if x.method@ == "decode"@ {
        kept_sem_json_decode(env, st, x);
    } else {
        let s = st.error(
            "`json."@ + x.method@
                + "` is not available yet — JSON serialization lands in Phase 4.6"@,
            x.span,
        );
        kept_sem_types_n(env, s, x.args.positional@, x.args.positional@.len() as int);
    }
}

pub(crate) proof fn kept_sem_json_encode(env: EnvV, st: StateV, x: MethodCallExpr)
    ensures
        kept(st, sem_json_encode(env, st, x)),
    decreases x, 6int,
{
    let s = st.error_if(
        x.type_args@.len() > 0,
        "`json.encode` does not take type arguments"@,
        x.span,
    );
    let argc = x.args.positional@.len();
    let wrong = s.error("json.encode() takes 1 argument, got "@ + decimal(argc), x.span);
    kept_sem_types_n(env, wrong, x.args.positional@, argc as int);
    if x.args.positional@.len() == 1 {
        law_expression_keeps(env, s, x.args.positional@[0]);
        let (s1, t) = sem_expr(env, s, x.args.positional@[0]);
        kept_encoded(env, s1, x, t);
    }
}

pub(crate) proof fn kept_sem_json_text(env: EnvV, st: StateV, x: MethodCallExpr)
    ensures
        kept(st, sem_json_text(env, st, x).0),
    decreases x, 5int,
{
    let argc = x.args.positional@.len();
    let wrong = st.error("json.decode() takes 1 argument, got "@ + decimal(argc), x.span);
    kept_sem_types_n(env, wrong, x.args.positional@, argc as int);
    if x.args.positional@.len() == 1 {
        law_expression_keeps(env, st, x.args.positional@[0]);
    }
}

pub(crate) proof fn kept_sem_json_decode(env: EnvV, st: StateV, x: MethodCallExpr)
    ensures
        kept(st, sem_json_decode(env, st, x).0),
    decreases x, 6int,
{
    kept_sem_json_text(env, st, x);
    let (s, well) = sem_json_text(env, st, x);
    kept_decoded(env, s, x, well);
}

pub(crate) proof fn kept_sem_method_args_n(
    env: EnvV,
    st: StateV,
    args: Seq<Expr>,
    method: Chars,
    params: Seq<Ty>,
    b: Bindings,
    n: int,
)
    ensures
        kept(st, sem_method_args_n(env, st, args, method, params, b, n)),
    decreases args, n,
{
    if 0 < n <= args.len() {
        kept_sem_method_args_n(env, st, args, method, params, b, n - 1);
        law_expression_keeps(
            env,
            sem_method_args_n(env, st, args, method, params, b, n - 1),
            args[n - 1],
        );
        kept_pinned_any(env, args[n - 1]);
    }
}

pub(crate) proof fn kept_sem_method_args(
    env: EnvV,
    st: StateV,
    x: MethodCallExpr,
    params: Seq<Ty>,
    names: Seq<Chars>,
    b: Bindings,
    defaults: Seq<(usize, Expr)>,
)
    ensures
        kept(st, sem_method_args(env, st, x, params, names, b, defaults)),
    decreases x, 5int,
{
    kept_sem_method_args_n(
        env,
        st,
        x.args.positional@,
        x.method@,
        params,
        b,
        x.args.positional@.len() as int,
    );
}

pub(crate) proof fn kept_sem_trait_method(env: EnvV, st: StateV, x: MethodCallExpr, m: TraitMethodInfoV)
    ensures
        kept(st, sem_trait_method(env, st, x, m).0),
    decreases x, 6int,
{
    kept_sem_method_args(
        env,
        no_type_args(st, x),
        x,
        m.params,
        arg_names_n(m.params.len() as int),
        Seq::empty(),
        Seq::empty(),
    );
    assert(kept(st, no_type_args(st, x)));
}

pub(crate) proof fn kept_sem_method_bindings(
    env: EnvV,
    st: StateV,
    x: MethodCallExpr,
    owner: Chars,
    m: MethodInfoV,
    b: Bindings,
)
    ensures
        kept(st, sem_method_bindings(env, st, x, owner, m, b).0),
    decreases x, 6int,
{
    if m.type_params.len() == 0 {
    } else if x.type_args@.len() > 0 {
        kept_type_args_given(env, st, x, m.type_params, owner, b);
    } else {
        let n = x.args.positional@.len() as int;
        kept_sem_types_n(env, st, x.args.positional@, n);
        let (s, ts) = sem_types_n(env, st, x.args.positional@, n);
        let (mb, errors) = inferred(m.params, ts);
        let all = merged_n(b, mb, mb.len() as int);
        kept_type_args_recorded(
            s,
            owner + "."@ + x.method@,
            m.type_params,
            all,
            errors,
            ts,
            x.span,
        );
    }
}

pub(crate) proof fn kept_sem_declared_method(
    env: EnvV,
    st: StateV,
    x: MethodCallExpr,
    owner: Chars,
    m: MethodInfoV,
    b: Bindings,
)
    ensures
        kept(st, sem_declared_method(env, st, x, owner, m, b).0),
    decreases x, 7int,
{
    kept_sem_method_bindings(env, st, x, owner, m, b);
    let (s, all) = sem_method_bindings(env, st, x, owner, m, b);
    kept_sem_method_args(env, s, x, m.params, m.param_names, all, m.default_param_exprs);
}

pub(crate) proof fn kept_sem_no_method(env: EnvV, st: StateV, x: MethodCallExpr, t: Ty)
    ensures
        kept(st, sem_no_method(env, st, x, t).0),
    decreases x, 7int,
{
    if let Ty::Generic(n, args) = t {
        if args.len() == 1 {
            kept_sem_builtin_method(env, st, x, args[0]);
        }
    }
}

pub(crate) proof fn kept_sem_user_method(env: EnvV, st: StateV, x: MethodCallExpr, t: Ty)
    ensures
        kept(st, sem_user_method(env, st, x, t).0),
    decreases x, 8int,
{
    match t {
        Ty::Dyn(tr) => {
            if let Some(info) = named(env, env.traits, tr) {
                if let Some(m) = crate::calls::method_from(info.methods, x.method@, 0) {
                    kept_sem_trait_method(env, st, x, m);
                }
            }
            assert(kept(st, no_type_args(st, x)));
        },
        _ => {
            let owner = type_label(env, t);
            if let Some(m) = crate::check_method::declared_method(env, owner, x.method@) {
                kept_sem_declared_method(env, st, x, owner, m, base_and_bindings(env, t).1);
            } else if let Some(m) = crate::check_method::bound_method_of(
                env,
                st,
                t,
                x.method@,
            ) {
                kept_sem_trait_method(env, st, x, m);
            } else {
                kept_sem_no_method(env, st, x, t);
            }
        },
    }
}

pub(crate) proof fn kept_sem_method_on(env: EnvV, st: StateV, x: MethodCallExpr, t: Ty)
    ensures
        kept(st, sem_method_on(env, st, x, t).0),
    decreases x, 9int,
{
    kept_sem_builtin_method(env, st, x, t);
    kept_sem_user_method(env, st, x, t);
}

pub(crate) proof fn kept_sem_method_call(env: EnvV, st: StateV, x: MethodCallExpr)
    ensures
        kept(st, sem_method_call(env, st, x).0),
    decreases x, 10int,
{
    kept_sem_namespace_call(env, st, x);
    law_expression_keeps(env, st, x.object);
    let (s, t) = sem_expr(env, st, x.object);
    kept_sem_method_on(env, s, x, t);
}

// ── Methods of the language ──────────────────────────────────────────

pub(crate) proof fn kept_sem_plain_n(
    env: EnvV,
    st: StateV,
    args: Seq<Expr>,
    method: Chars,
    params: Seq<Ty>,
    n: int,
)
    ensures
        kept(st, sem_plain_n(env, st, args, method, params, n)),
    decreases args, n,
{
    if 0 < n <= args.len() {
        kept_sem_plain_n(env, st, args, method, params, n - 1);
        law_expression_keeps(
            env,
            sem_plain_n(env, st, args, method, params, n - 1),
            args[n - 1],
        );
    }
}

pub(crate) proof fn kept_sem_plain(env: EnvV, st: StateV, x: MethodCallExpr, params: Seq<Ty>)
    ensures
        kept(st, sem_plain(env, st, x, params)),
    decreases x, 3int,
{
    kept_sem_plain_n(
        env,
        st,
        x.args.positional@,
        x.method@,
        params,
        x.args.positional@.len() as int,
    );
}

pub(crate) proof fn kept_sem_callback(
    env: EnvV,
    st: StateV,
    x: MethodCallExpr,
    i: int,
    expected: Seq<Ty>,
    expected_ret: Option<Ty>,
)
    ensures
        kept(st, sem_callback(env, st, x, i, expected, expected_ret).0),
    decreases x, 3int,
{
    if 0 <= i < x.args.positional@.len() {
        let e = x.args.positional@[i];
        law_expression_keeps(env, st, e);
        let (s, t) = sem_expr(env, st, e);
        if let Ty::Function(params, ret) = t {
            kept_callback_fits(
                env,
                s,
                x.method@,
                expected,
                expected_ret,
                params,
                *ret,
                expr_span(e),
            );
        }
    }
}

pub(crate) proof fn kept_sem_only_callback(
    env: EnvV,
    st: StateV,
    x: MethodCallExpr,
    expected: Seq<Ty>,
    expected_ret: Option<Ty>,
)
    ensures
        kept(st, sem_only_callback(env, st, x, expected, expected_ret).0),
    decreases x, 4int,
{
    kept_sem_callback(env, st, x, 0, expected, expected_ret);
}

pub(crate) proof fn kept_sem_reduce(env: EnvV, st: StateV, x: MethodCallExpr, elem: Ty)
    ensures
        kept(st, sem_reduce(env, st, x, elem).0),
    decreases x, 4int,
{
    if x.args.positional@.len() == 2 {
        law_expression_keeps(env, st, x.args.positional@[0]);
        let (s1, init) = sem_expr(env, st, x.args.positional@[0]);
        kept_sem_callback(env, s1, x, 1, seq![init, elem], None);
    }
}

pub(crate) proof fn kept_sem_list_method(env: EnvV, st: StateV, x: MethodCallExpr, elem: Ty)
    ensures
        kept(st, sem_list_method(env, st, x, elem).0),
    decreases x, 5int,
{
    kept_sem_plain(env, st, x, Seq::empty());
    kept_sem_plain(env, st, x, seq![Ty::Int]);
    kept_sem_plain(env, st, x, seq![elem]);
    kept_sem_only_callback(env, st, x, seq![elem], None);
    kept_sem_only_callback(env, st, x, seq![elem], Some(Ty::Bool));
    kept_sem_only_callback(env, st, x, seq![elem, elem], Some(Ty::Int));
    kept_sem_reduce(env, st, x, elem);
}

pub(crate) proof fn kept_sem_list_builder_method(env: EnvV, st: StateV, x: MethodCallExpr, elem: Ty)
    ensures
        kept(st, sem_list_builder_method(env, st, x, elem).0),
    decreases x, 5int,
{
    kept_sem_plain(env, st, x, seq![elem]);
    kept_sem_plain(env, st, x, Seq::empty());
}

pub(crate) proof fn kept_sem_map_builder_method(env: EnvV, st: StateV, x: MethodCallExpr, k: Ty, v: Ty)
    ensures
        kept(st, sem_map_builder_method(env, st, x, k, v).0),
    decreases x, 5int,
{
    kept_sem_plain(env, st, x, seq![k, v]);
    kept_sem_plain(env, st, x, Seq::empty());
}

pub(crate) proof fn kept_sem_map_method(env: EnvV, st: StateV, x: MethodCallExpr, k: Ty, v: Ty)
    ensures
        kept(st, sem_map_method(env, st, x, k, v).0),
    decreases x, 5int,
{
    kept_sem_plain(env, st, x, Seq::empty());
    kept_sem_plain(env, st, x, seq![k]);
    kept_sem_plain(env, st, x, seq![k, v]);
}

pub(crate) proof fn kept_sem_string_method(env: EnvV, st: StateV, x: MethodCallExpr)
    ensures
        kept(st, sem_string_method(env, st, x).0),
    decreases x, 5int,
{
    let m = x.method@;
    if m == "length"@ || m == "trim"@ || m == "toLowerCase"@ || m == "toUpperCase"@ {
        kept_sem_plain(env, st, x, Seq::empty());
    } else if m == "contains"@ || m == "startsWith"@ || m == "endsWith"@ || m == "indexOf"@ || m
        == "split"@ {
        kept_sem_plain(env, st, x, seq![Ty::Str]);
    } else if m == "replace"@ {
        kept_sem_plain(env, st, x, seq![Ty::Str, Ty::Str]);
    } else {
        kept_sem_plain(env, st, x, seq![Ty::Int, Ty::Int]);
    }
}

pub(crate) proof fn kept_sem_option_method(env: EnvV, st: StateV, x: MethodCallExpr, t: Ty)
    ensures
        sem_option_method(env, st, x, t) matches Some(r) ==> kept(st, r.0),
    decreases x, 5int,
{
    kept_sem_only_callback(env, st, x, seq![t], None);
    kept_sem_only_callback(env, st, x, Seq::empty(), Some(ty_option(t)));
    kept_sem_only_callback(env, st, x, seq![t], Some(Ty::Bool));
    kept_sem_only_callback(env, st, x, Seq::empty(), Some(t));
    if x.args.positional@.len() == 1 {
        law_expression_keeps(env, st, x.args.positional@[0]);
    }
}

pub(crate) proof fn kept_sem_result_method(env: EnvV, st: StateV, x: MethodCallExpr, t: Ty, e: Ty)
    ensures
        sem_result_method(env, st, x, t, e) matches Some(r) ==> kept(st, r.0),
    decreases x, 5int,
{
    kept_sem_only_callback(env, st, x, seq![t], None);
    kept_sem_only_callback(env, st, x, seq![e], None);
    kept_sem_only_callback(env, st, x, seq![e], Some(t));
    kept_sem_plain(env, st, x, Seq::empty());
}

pub(crate) proof fn kept_sem_builtin_method(env: EnvV, st: StateV, x: MethodCallExpr, t: Ty)
    ensures
        sem_builtin_method(env, st, x, t) matches Some(r) ==> kept(st, r.0),
    decreases x, 6int,
{
    let (base, b) = base_and_bindings(env, t);
    kept_sem_list_method(env, st, x, element_of(t, b));
    kept_sem_list_builder_method(env, st, x, element_of(t, b));
    kept_sem_string_method(env, st, x);
    kept_sem_map_method(env, st, x, bound_or_var(b, "K"@), bound_or_var(b, "V"@));
    kept_sem_map_builder_method(env, st, x, bound_or_var(b, "K"@), bound_or_var(b, "V"@));
    kept_sem_option_method(env, st, x, bound_or_var(b, "T"@));
    kept_sem_result_method(env, st, x, bound_or_var(b, "T"@), bound_or_var(b, "E"@));
}

} // verus!
