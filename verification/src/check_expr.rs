//! The types of expressions.
use crate::ast::{
    expr_span, AssignmentExpr, BinaryExpr, BinaryOp, ElseBranch, Expr, FieldAccessExpr,
    FieldAssignmentExpr, IdentExpr, IfExpr, LambdaExpr, ListLiteralExpr, LiteralKind,
    MapLiteralExpr, MatchArm, MatchBody, MatchExpr, Param, Pattern, Statement, StringSegment,
    TryExpr, UnaryExpr, UnaryOp,
};
use crate::calls::{instantiate, instantiated_n};
use crate::check_call::{sem_call, sem_struct_literal};
use crate::check_method::sem_method_call;
use crate::check_stmt::sem_block_type_n;
use crate::check_types::{base_and_bindings, clash, compatible, resolved};
use crate::defer::defers_placed;
use crate::env::{Env, EnvV};
use crate::flow::{block_diverges, diverges, if_diverges, if_expr_diverges};
use crate::free_vars::{collect_free_variables, free_variables};
use crate::info::{
    CaptureInfo, CaptureInfoV, EnumInfo, EnumInfoV, FieldInfo, FieldInfoV, SymbolKind, SymbolKindV,
};
use crate::pin::variant_fields;
use crate::privacy::{read_checked, write_checked};
use crate::span::Span;
use crate::state::{fixed, State, StateV};
use crate::table::{find, put, Table};
use crate::text::{
    cat2, cat3, cat4, cat5, cat6, cat7, count_text, decimal, join, join_text, push_view,
    same_text, Chars, Dup,
};
use crate::types::{
    function_of, is_numeric_ty, list_of, map_of, same_type, show, subst, substitute, ty_list,
    ty_map, type_var, Bindings, Ty, Type,
};
use vstd::prelude::*;

verus! {

broadcast use crate::ty::view_of_type;

// ── Names, fields, patterns ──────────────────────────────────────────

pub open spec fn literal_ty(k: LiteralKind) -> Ty {
    match k {
        LiteralKind::Int(_) => Ty::Int,
        LiteralKind::Float(_) => Ty::Float,
        LiteralKind::String(_) => Ty::Str,
        LiteralKind::Bool(_) => Ty::Bool,
    }
}

/// The type with the given key inside its own declaration: its type
/// parameters stand for themselves.
pub open spec fn own_type(key: Chars, params: Seq<Chars>) -> Ty {
    if params.len() == 0 {
        Ty::Named(key)
    } else {
        Ty::Generic(key, instantiated_n(params, Seq::empty(), params.len() as int))
    }
}

pub fn own_type_of(key: &String, params: &Vec<String>) -> (r: Type)
    ensures
        r@ == own_type(key@, params.deep_view()),
{
    if params.len() == 0 {
        Type::Named(key.clone())
    } else {
        Type::Generic(key.clone(), instantiate(params, &Table::new()))
    }
}

/// Whether the enum has the variant `name`, without fields.
pub open spec fn has_unit_variant(info: EnumInfoV, name: Chars) -> bool {
    exists|i: int|
        0 <= i < info.variants.len() && (#[trigger] info.variants[i]).0 == name
            && info.variants[i].1.len() == 0
}

fn enum_has_unit_variant(info: &EnumInfo, name: &String) -> (r: bool)
    ensures
        r == has_unit_variant(info.deep_view(), name@),
{
    let mut i: usize = 0;
    while i < info.variants.len()
        invariant
            i <= info.variants.len(),
            forall|j: int|
                0 <= j < i ==> (#[trigger] info.deep_view().variants[j]).0 != name@
                    || info.deep_view().variants[j].1.len() != 0,
        decreases info.variants.len() - i,
    {
        assert(info.deep_view().variants[i as int] == info.variants[i as int].deep_view());
        if info.variants[i].0 == *name && info.variants[i].1.len() == 0 {
            return true;
        }
        i += 1;
    }
    false
}

/// The type of the variant `name` without fields, of the first enum at or
/// after `i` that has one.
pub open spec fn unit_variant_from(enums: Seq<(Chars, EnumInfoV)>, name: Chars, i: int) -> Option<Ty>
    decreases enums.len() - i,
{
    if i < 0 || i >= enums.len() {
        None
    } else if has_unit_variant(enums[i].1, name) {
        Some(own_type(enums[i].0, enums[i].1.type_params))
    } else {
        unit_variant_from(enums, name, i + 1)
    }
}

impl<'a> Env<'a> {
    fn unit_variant_type(&self, name: &String) -> (r: Option<Type>)
        ensures
            r.deep_view() == unit_variant_from(self@.enums, name@, 0),
    {
        let entries = &self.enums.entries;
        let mut i: usize = 0;
        while i < entries.len()
            invariant
                i <= entries.len(),
                entries.deep_view() == self@.enums,
                unit_variant_from(self@.enums, name@, 0) == unit_variant_from(
                    self@.enums,
                    name@,
                    i as int,
                ),
            decreases entries.len() - i,
        {
            assert(self@.enums[i as int] == entries[i as int].deep_view());
            if enum_has_unit_variant(&entries[i].1, name) {
                return Some(own_type_of(&entries[i].0, &entries[i].1.type_params));
            }
            i += 1;
        }
        None
    }
}

/// The first field called `name` at or after `i`.
pub open spec fn field_from(fs: Seq<FieldInfoV>, name: Chars, i: int) -> Option<FieldInfoV>
    decreases fs.len() - i,
{
    if i < 0 || i >= fs.len() {
        None
    } else if fs[i].name == name {
        Some(fs[i])
    } else {
        field_from(fs, name, i + 1)
    }
}

pub fn find_field<'f, 'a>(fs: &'f Vec<FieldInfo<'a>>, name: &String) -> (r: Option<
    &'f FieldInfo<'a>,
>)
    ensures
        r.deep_view() == field_from(fs.deep_view(), name@, 0),
{
    let mut i: usize = 0;
    while i < fs.len()
        invariant
            i <= fs.len(),
            field_from(fs.deep_view(), name@, 0) == field_from(fs.deep_view(), name@, i as int),
        decreases fs.len() - i,
    {
        if fs[i].name == *name {
            return Some(&fs[i]);
        }
        i += 1;
    }
    None
}

/// The variable at the root of a chain of field accesses.
pub open spec fn root_name(e: Expr) -> Option<Chars>
    decreases e,
{
    match e {
        Expr::Ident(x) => Some(x.name@),
        Expr::FieldAccess(x) => root_name(x.object),
        _ => None,
    }
}

pub fn extract_root_ident(e: &Expr) -> (r: Option<String>)
    ensures
        r.deep_view() == root_name(*e),
    decreases e,
{
    match e {
        Expr::Ident(x) => Some(x.name.clone()),
        Expr::FieldAccess(x) => extract_root_ident(&x.object),
        _ => None,
    }
}

pub open spec fn op_chars(op: BinaryOp) -> Chars {
    match op {
        BinaryOp::Add => "+"@,
        BinaryOp::Sub => "-"@,
        BinaryOp::Mul => "*"@,
        BinaryOp::Div => "/"@,
        BinaryOp::Mod => "%"@,
        BinaryOp::Eq => "=="@,
        BinaryOp::NotEq => "!="@,
        BinaryOp::Lt => "<"@,
        BinaryOp::Gt => ">"@,
        BinaryOp::LtEq => "<="@,
        BinaryOp::GtEq => ">="@,
        BinaryOp::And => "&&"@,
        BinaryOp::Or => "||"@,
    }
}

fn op_text(op: BinaryOp) -> (r: &'static str)
    ensures
        r@ == op_chars(op),
{
    match op {
        BinaryOp::Add => "+",
        BinaryOp::Sub => "-",
        BinaryOp::Mul => "*",
        BinaryOp::Div => "/",
        BinaryOp::Mod => "%",
        BinaryOp::Eq => "==",
        BinaryOp::NotEq => "!=",
        BinaryOp::Lt => "<",
        BinaryOp::Gt => ">",
        BinaryOp::LtEq => "<=",
        BinaryOp::GtEq => ">=",
        BinaryOp::And => "&&",
        BinaryOp::Or => "||",
    }
}

pub open spec fn pattern_span(p: Pattern) -> Span {
    match p {
        Pattern::Wildcard(s) => s,
        Pattern::Literal(l) => l.span,
        Pattern::Binding(_, s) => s,
        Pattern::Variant(v) => v.span,
    }
}

fn span_of_pattern(p: &Pattern) -> (r: Span)
    ensures
        r == pattern_span(*p),
{
    match p {
        Pattern::Wildcard(s) => *s,
        Pattern::Literal(l) => l.span,
        Pattern::Binding(_, s) => *s,
        Pattern::Variant(v) => v.span,
    }
}

/// The first `n` names of a variant pattern, bound to the types of the fields.
pub open spec fn bound_fields_n(
    st: StateV,
    names: Seq<Chars>,
    ts: Seq<Ty>,
    b: Bindings,
    span: Span,
    n: int,
) -> StateV
    decreases n,
{
    if n <= 0 || n > names.len() {
        st
    } else {
        let s = bound_fields_n(st, names, ts, b, span, n - 1);
        if names[n - 1] != "_"@ && n - 1 < ts.len() {
            s.define(names[n - 1], fixed(subst(ts[n - 1], b), span))
        } else {
            s
        }
    }
}

/// The variables that the pattern of an arm binds, for a subject of type
/// `subject` whose type name is `base`.
pub open spec fn pattern_defined(
    env: EnvV,
    st: StateV,
    arm: MatchArm,
    subject: Ty,
    base: Option<Chars>,
    b: Bindings,
) -> StateV {
    match arm.pattern {
        Pattern::Wildcard(_) => st,
        Pattern::Literal(_) => st,
        Pattern::Binding(name, span) => st.define(name@, fixed(subject, span)),
        Pattern::Variant(v) => match base {
            Some(key) => match find(env.enums, key) {
                Some(info) => match find(info.variants, v.variant@) {
                    Some(ts) => bound_fields_n(
                        st.error_if(
                            v.bindings.len() != ts.len(),
                            "variant `"@ + v.variant@ + "` has "@ + decimal(ts.len())
                                + " field(s) but pattern has "@ + decimal(v.bindings@.len())
                                + " binding(s)"@,
                            v.span,
                        ),
                        v.bindings.deep_view(),
                        ts,
                        b,
                        arm.span,
                        v.bindings@.len() as int,
                    ),
                    None => st,
                },
                None => st,
            },
            None => st,
        },
    }
}

/// The jumps among the first `n` statements of a match arm: they cannot leave
/// an arm.
pub open spec fn jumps_rejected_n(st: StateV, ss: Seq<Statement>, n: int) -> StateV
    decreases n,
{
    if n <= 0 || n > ss.len() {
        st
    } else {
        let s = jumps_rejected_n(st, ss, n - 1);
        match ss[n - 1] {
            Statement::Break(span) => s.error("`break` is not allowed inside match arms"@, span),
            Statement::Continue(span) => s.error(
                "`continue` is not allowed inside match arms"@,
                span,
            ),
            _ => s,
        }
    }
}

/// Whether an arm matches everything.
pub open spec fn has_catch_all(arms: Seq<MatchArm>) -> bool {
    exists|i: int|
        0 <= i < arms.len() && ((#[trigger] arms[i]).pattern is Wildcard
            || arms[i].pattern is Binding)
}

/// Whether the pattern names the variant.
pub open spec fn names_variant(p: Pattern, name: Chars) -> bool {
    match p {
        Pattern::Variant(v) => v.variant@ == name,
        _ => false,
    }
}

/// Whether an arm covers the variant.
pub open spec fn covers(arms: Seq<MatchArm>, name: Chars) -> bool {
    exists|i: int| 0 <= i < arms.len() && names_variant((#[trigger] arms[i]).pattern, name)
}

/// Those of the first `n` variants that no arm covers.
pub open spec fn uncovered_n(variants: Seq<(Chars, Seq<Ty>)>, arms: Seq<MatchArm>, n: int) -> Seq<Chars>
    decreases n,
{
    if n <= 0 || n > variants.len() {
        Seq::empty()
    } else {
        let rest = uncovered_n(variants, arms, n - 1);
        if covers(arms, variants[n - 1].0) {
            rest
        } else {
            rest.push(variants[n - 1].0)
        }
    }
}

/// A match on an enum has to cover each variant, or to have an arm for the
/// rest.
pub open spec fn exhaustiveness_checked(env: EnvV, st: StateV, m: MatchExpr, base: Option<Chars>) -> StateV {
    match base {
        Some(key) => match find(env.enums, key) {
            Some(info) => {
                let missing = uncovered_n(info.variants, m.arms@, info.variants.len() as int);
                st.error_if(
                    !has_catch_all(m.arms@) && missing.len() > 0,
                    "non-exhaustive match: missing variant(s) "@ + join(missing, ", "@),
                    m.span,
                )
            },
            None => st,
        },
        None => st,
    }
}

fn arms_catch_all(arms: &Vec<MatchArm>) -> (r: bool)
    ensures
        r == has_catch_all(arms@),
{
    let mut i: usize = 0;
    while i < arms.len()
        invariant
            i <= arms.len(),
            forall|j: int|
                0 <= j < i ==> !((#[trigger] arms@[j]).pattern is Wildcard)
                    && !(arms@[j].pattern is Binding),
        decreases arms.len() - i,
    {
        match &arms[i].pattern {
            Pattern::Wildcard(_) => {
                return true;
            },
            Pattern::Binding(_, _) => {
                return true;
            },
            _ => {},
        }
        i += 1;
    }
    false
}

fn arms_cover(arms: &Vec<MatchArm>, name: &String) -> (r: bool)
    ensures
        r == covers(arms@, name@),
{
    let mut i: usize = 0;
    while i < arms.len()
        invariant
            i <= arms.len(),
            forall|j: int| 0 <= j < i ==> !names_variant((#[trigger] arms@[j]).pattern, name@),
        decreases arms.len() - i,
    {
        if let Pattern::Variant(v) = &arms[i].pattern {
            if v.variant == *name {
                return true;
            }
        }
        i += 1;
    }
    false
}

fn uncovered_variants(variants: &Vec<(String, Vec<Type>)>, arms: &Vec<MatchArm>) -> (r: Vec<String>)
    ensures
        r.deep_view() == uncovered_n(
            variants.deep_view(),
            arms@,
            variants.deep_view().len() as int,
        ),
{
    let mut out: Vec<String> = Vec::new();
    assert(out.deep_view() =~= Seq::<Chars>::empty());
    let mut i: usize = 0;
    while i < variants.len()
        invariant
            i <= variants.len(),
            out.deep_view() == uncovered_n(variants.deep_view(), arms@, i as int),
        decreases variants.len() - i,
    {
        if !arms_cover(arms, &variants[i].0) {
            push_view(&mut out, variants[i].0.clone());
        }
        i += 1;
    }
    out
}

impl State {
    fn bind_fields(
        &mut self,
        names: &Vec<String>,
        ts: &Vec<Type>,
        b: &Table<String, Type>,
        span: Span,
    )
        ensures
            final(self)@ == bound_fields_n(
                old(self)@,
                names.deep_view(),
                ts.deep_view(),
                b@,
                span,
                names.deep_view().len() as int,
            ),
    {
        let mut i: usize = 0;
        while i < names.len()
            invariant
                i <= names.len(),
                self@ == bound_fields_n(
                    old(self)@,
                    names.deep_view(),
                    ts.deep_view(),
                    b@,
                    span,
                    i as int,
                ),
            decreases names.len() - i,
        {
            if !same_text(&names[i], "_") && i < ts.len() {
                self.define_fixed(names[i].clone(), substitute(&ts[i], b), span);
            }
            i += 1;
        }
    }

    fn define_pattern(
        &mut self,
        env: &Env<'_>,
        arm: &MatchArm,
        subject: &Type,
        base: &Option<String>,
        b: &Table<String, Type>,
    )
        ensures
            final(self)@ == pattern_defined(
                env@,
                old(self)@,
                *arm,
                subject@,
                base.deep_view(),
                b@,
            ),
    {
        match &arm.pattern {
            Pattern::Wildcard(_) => {},
            Pattern::Literal(_) => {},
            Pattern::Binding(name, span) => {
                self.define_fixed(name.clone(), subject.dup(), *span);
            },
            Pattern::Variant(v) => {
                if let Some(key) = base {
                    if let Some(info) = env.enums.get(key) {
                        if let Some(ts) = variant_fields(&info.variants, &v.variant) {
                            if v.bindings.len() != ts.len() {
                                self.error(
                                    cat7(
                                        "variant `",
                                        &v.variant,
                                        "` has ",
                                        &count_text(ts.len()),
                                        " field(s) but pattern has ",
                                        &count_text(v.bindings.len()),
                                        " binding(s)",
                                    ),
                                    v.span,
                                );
                            }
                            self.bind_fields(&v.bindings, ts, b, arm.span);
                        }
                    }
                }
            },
        }
    }

    fn reject_jumps(&mut self, ss: &Vec<Statement>)
        ensures
            final(self)@ == jumps_rejected_n(old(self)@, ss@, ss@.len() as int),
    {
        let mut i: usize = 0;
        while i < ss.len()
            invariant
                i <= ss.len(),
                self@ == jumps_rejected_n(old(self)@, ss@, i as int),
            decreases ss.len() - i,
        {
            match &ss[i] {
                Statement::Break(span) => {
                    self.error("`break` is not allowed inside match arms".to_owned(), *span);
                },
                Statement::Continue(span) => {
                    self.error("`continue` is not allowed inside match arms".to_owned(), *span);
                },
                _ => {},
            }
            i += 1;
        }
    }

    fn check_match_exhaustiveness(&mut self, env: &Env<'_>, m: &MatchExpr, base: &Option<String>)
        ensures
            final(self)@ == exhaustiveness_checked(env@, old(self)@, *m, base.deep_view()),
    {
        if let Some(key) = base {
            if let Some(info) = env.enums.get(key) {
                if arms_catch_all(&m.arms) {
                    return;
                }
                let missing = uncovered_variants(&info.variants, &m.arms);
                if missing.len() > 0 {
                    self.error(
                        cat2(
                            "non-exhaustive match: missing variant(s) ",
                            &join_text(&missing, ", "),
                        ),
                        m.span,
                    );
                }
            }
        }
    }
}

// ── Expressions ──────────────────────────────────────────────────────

/// The state after checking `e`, and the type of `e`.
pub open spec fn sem_expr(env: EnvV, st: StateV, e: Expr) -> (StateV, Ty)
    decreases e, 1int,
{
    let (s, t) = match e {
        Expr::Literal(x) => (st, literal_ty(x.kind)),
        Expr::Ident(x) => sem_ident(env, st, x),
        Expr::Binary(x) => sem_binary(env, st, *x),
        Expr::Unary(x) => sem_unary(env, st, *x),
        Expr::Call(x) => sem_call(env, st, *x),
        Expr::Assignment(x) => sem_assignment(env, st, *x),
        Expr::FieldAssignment(x) => sem_field_assignment(env, st, *x),
        Expr::FieldAccess(x) => sem_field_access(env, st, *x),
        Expr::MethodCall(x) => sem_method_call(env, st, *x),
        Expr::StructLiteral(x) => sem_struct_literal(env, st, *x),
        Expr::Match(x) => sem_match(env, st, *x),
        Expr::If(x) => sem_if(env, st, *x),
        Expr::ListLiteral(x) => sem_list_literal(env, st, *x),
        Expr::MapLiteral(x) => sem_map_literal(env, st, *x),
        Expr::Try(x) => sem_try(env, st, *x),
        Expr::StringInterpolation(x) => (
            sem_segments_n(env, st, x.segments@, x.segments@.len() as int),
            Ty::Str,
        ),
        Expr::Lambda(x) => sem_lambda(env, st, *x),
    };
    (s.record_type(expr_span(e), t), t)
}

/// A second look at an expression that has been checked: its findings are
/// dropped.
pub open spec fn sem_again(env: EnvV, st: StateV, e: Expr) -> (StateV, Ty)
    decreases e, 2int,
{
    let (s, t) = sem_expr(env, st, e);
    (s.forget_since(st), t)
}

/// A variable, or else a variant without fields.
pub open spec fn sem_ident(env: EnvV, st: StateV, x: IdentExpr) -> (StateV, Ty) {
    match st.variable(x.name@) {
        Some(v) => (st.refer(x.span, SymbolKindV::Variable, x.name@), v.ty),
        None => match unit_variant_from(env.enums, x.name@, 0) {
            Some(t) => (st, t),
            None => (st.error("undefined variable `"@ + x.name@ + "`"@, x.span), Ty::Error),
        },
    }
}

/// The result of a binary operator on operands of types `l` and `r`.
pub open spec fn operated(env: EnvV, st: StateV, op: BinaryOp, l: Ty, r: Ty, span: Span) -> (
    StateV,
    Ty,
) {
    if l == Ty::Error || r == Ty::Error {
        (st, Ty::Error)
    } else {
        match op {
            BinaryOp::Add | BinaryOp::Sub | BinaryOp::Mul | BinaryOp::Div | BinaryOp::Mod => {
                if l == r && is_numeric_ty(l) {
                    (st, l)
                } else if l == Ty::Str && r == Ty::Str && op == BinaryOp::Add {
                    (st, Ty::Str)
                } else {
                    (
                        st.error(
                            "cannot apply `"@ + op_chars(op) + "` to "@ + show(l) + " and "@ + show(
                                r,
                            ),
                            span,
                        ),
                        Ty::Error,
                    )
                }
            },
            BinaryOp::Eq | BinaryOp::NotEq => {
                if compatible(env, st.bounds, l, r) {
                    (st, Ty::Bool)
                } else {
                    (
                        st.error("cannot compare "@ + show(l) + " and "@ + show(r), span),
                        Ty::Error,
                    )
                }
            },
            BinaryOp::Lt | BinaryOp::Gt | BinaryOp::LtEq | BinaryOp::GtEq => {
                if compatible(env, st.bounds, l, r) && (is_numeric_ty(l) || l == Ty::Str) {
                    (st, Ty::Bool)
                } else {
                    (
                        st.error(
                            "cannot compare "@ + show(l) + " and "@ + show(r) + " with `"@
                                + op_chars(op) + "`"@,
                            span,
                        ),
                        Ty::Error,
                    )
                }
            },
            BinaryOp::And | BinaryOp::Or => (
                st.error_if(
                    l != Ty::Bool,
                    "left operand of `"@ + op_chars(op) + "` must be Bool, got "@ + show(l),
                    span,
                ).error_if(
                    r != Ty::Bool,
                    "right operand of `"@ + op_chars(op) + "` must be Bool, got "@ + show(r),
                    span,
                ),
                Ty::Bool,
            ),
        }
    }
}

pub open spec fn sem_binary(env: EnvV, st: StateV, x: BinaryExpr) -> (StateV, Ty)
    decreases x, 1int,
{
    let (s1, l) = sem_expr(env, st, x.left);
    let (s2, r) = sem_expr(env, s1, x.right);
    operated(env, s2, x.op, l, r, x.span)
}

pub open spec fn sem_unary(env: EnvV, st: StateV, x: UnaryExpr) -> (StateV, Ty)
    decreases x, 1int,
{
    let (s, t) = sem_expr(env, st, x.operand);
    if t == Ty::Error {
        (s, Ty::Error)
    } else {
        match x.op {
            UnaryOp::Neg => if is_numeric_ty(t) {
                (s, t)
            } else {
                (s.error("cannot negate "@ + show(t), x.span), Ty::Error)
            },
            UnaryOp::Not => if t == Ty::Bool {
                (s, Ty::Bool)
            } else {
                (s.error("cannot apply `!` to "@ + show(t), x.span), Ty::Error)
            },
        }
    }
}

/// An assignment needs a variable that can change and a value that fits.
pub open spec fn sem_assignment(env: EnvV, st: StateV, x: AssignmentExpr) -> (StateV, Ty)
    decreases x, 1int,
{
    let (s, t) = sem_expr(env, st, x.value);
    match s.variable(x.name@) {
        Some(v) => (
            s.error_if(
                !v.is_mut,
                "cannot assign to immutable variable `"@ + x.name@ + "`"@,
                x.span,
            ).error_if(
                clash(env, s, v.ty, t),
                "type mismatch: cannot assign `"@ + show(t) + "` to variable `"@ + x.name@
                    + "` of type `"@ + show(v.ty) + "`"@,
                x.span,
            ),
            v.ty,
        ),
        None => (s.error("undefined variable `"@ + x.name@ + "`"@, x.span), Ty::Error),
    }
}

/// The assignment of a value of type `t` to a field of an object of type
/// `object`.
pub open spec fn field_assigned(
    env: EnvV,
    st: StateV,
    x: FieldAssignmentExpr,
    object: Ty,
    t: Ty,
) -> (StateV, Ty) {
    let (base, b) = base_and_bindings(env, object);
    let info = match base {
        Some(key) => find(env.structs, key),
        None => None,
    };
    match info {
        Some(info) => match field_from(info.fields, x.field@, 0) {
            Some(f) => {
                let s = write_checked(env, st, info, base->0, f, x.span);
                let ft = subst(f.ty, b);
                (
                    s.error_if(
                        clash(env, s, ft, t),
                        "type mismatch: field `"@ + x.field@ + "` is `"@ + show(ft)
                            + "` but assigned `"@ + show(t) + "`"@,
                        x.span,
                    ),
                    ft,
                )
            },
            None => (
                st.error(
                    "struct `"@ + base->0 + "` has no field `"@ + x.field@ + "`"@,
                    x.span,
                ),
                Ty::Error,
            ),
        },
        None => (
            st.error_if(
                object != Ty::Error,
                "cannot assign to field on non-struct type `"@ + show(object) + "`"@,
                x.span,
            ),
            Ty::Error,
        ),
    }
}

pub open spec fn sem_field_assignment(env: EnvV, st: StateV, x: FieldAssignmentExpr) -> (StateV, Ty)
    decreases x, 1int,
{
    let (s1, t) = sem_expr(env, st, x.value);
    let s2 = match root_name(x.object) {
        Some(name) => match s1.variable(name) {
            Some(v) => s1.error_if(
                !v.is_mut,
                "cannot assign to field of immutable variable `"@ + name + "`"@,
                x.span,
            ),
            None => s1,
        },
        None => s1,
    };
    let (s3, object) = sem_expr(env, s2, x.object);
    field_assigned(env, s3, x, object, t)
}

/// The field of an object of type `object`.
pub open spec fn field_read(env: EnvV, st: StateV, x: FieldAccessExpr, object: Ty) -> (StateV, Ty) {
    let (base, b) = base_and_bindings(env, object);
    let info = match base {
        Some(key) => find(env.structs, key),
        None => None,
    };
    match info {
        Some(info) => match field_from(info.fields, x.field@, 0) {
            Some(f) => (
                read_checked(env, st, info, base->0, f, x.span).refer(
                    x.span,
                    SymbolKindV::Field { struct_name: base->0 },
                    x.field@,
                ),
                subst(f.ty, b),
            ),
            None => (
                st.error(
                    "struct `"@ + base->0 + "` has no field `"@ + x.field@ + "`"@,
                    x.span,
                ),
                Ty::Error,
            ),
        },
        None => (st, Ty::Error),
    }
}

pub open spec fn sem_field_access(env: EnvV, st: StateV, x: FieldAccessExpr) -> (StateV, Ty)
    decreases x, 1int,
{
    let (s, object) = sem_expr(env, st, x.object);
    field_read(env, s, x, object)
}

/// The types of the first `n` expressions.
pub open spec fn sem_types_n(env: EnvV, st: StateV, es: Seq<Expr>, n: int) -> (StateV, Seq<Ty>)
    decreases es, n,
{
    if n <= 0 || n > es.len() {
        (st, Seq::empty())
    } else {
        let (s1, ts) = sem_types_n(env, st, es, n - 1);
        let (s2, t) = sem_expr(env, s1, es[n - 1]);
        (s2, ts.push(t))
    }
}

/// The second to the `n`-th element of a list: each has to fit the first.
pub open spec fn sem_elements_n(env: EnvV, st: StateV, es: Seq<Expr>, first: Ty, n: int) -> StateV
    decreases es, n,
{
    if n <= 1 || n > es.len() {
        st
    } else {
        let (s, t) = sem_expr(env, sem_elements_n(env, st, es, first, n - 1), es[n - 1]);
        s.error_if(
            clash(env, s, first, t),
            "list element type mismatch: expected "@ + show(first) + " but got "@ + show(t),
            expr_span(es[n - 1]),
        )
    }
}

pub open spec fn sem_list_literal(env: EnvV, st: StateV, x: ListLiteralExpr) -> (StateV, Ty)
    decreases x, 1int,
{
    if x.elements@.len() == 0 {
        (st, ty_list(Ty::TypeVar("T"@)))
    } else {
        let (s, first) = sem_expr(env, st, x.elements@[0]);
        (
            sem_elements_n(env, s, x.elements@, first, x.elements@.len() as int),
            ty_list(first),
        )
    }
}

/// The second to the `n`-th entry of a map: each has to fit the first.
pub open spec fn sem_entries_n(
    env: EnvV,
    st: StateV,
    es: Seq<(Expr, Expr)>,
    k: Ty,
    v: Ty,
    n: int,
) -> StateV
    decreases es, n,
{
    if n <= 1 || n > es.len() {
        st
    } else {
        let (s1, kt) = sem_expr(env, sem_entries_n(env, st, es, k, v, n - 1), es[n - 1].0);
        let (s2, vt) = sem_expr(env, s1, es[n - 1].1);
        s2.error_if(
            clash(env, s2, k, kt),
            "map key type mismatch: expected "@ + show(k) + " but got "@ + show(kt),
            expr_span(es[n - 1].0),
        ).error_if(
            clash(env, s2, v, vt),
            "map value type mismatch: expected "@ + show(v) + " but got "@ + show(vt),
            expr_span(es[n - 1].1),
        )
    }
}

pub open spec fn sem_map_literal(env: EnvV, st: StateV, x: MapLiteralExpr) -> (StateV, Ty)
    decreases x, 1int,
{
    if x.entries@.len() == 0 {
        (st, ty_map(Ty::TypeVar("K"@), Ty::TypeVar("V"@)))
    } else {
        let (s1, k) = sem_expr(env, st, x.entries@[0].0);
        let (s2, v) = sem_expr(env, s1, x.entries@[0].1);
        (
            sem_entries_n(env, s2, x.entries@, k, v, x.entries@.len() as int),
            ty_map(k, v),
        )
    }
}

/// The `?` operator on an operand of type `t`.
pub open spec fn tried(st: StateV, t: Ty, span: Span) -> (StateV, Ty) {
    if t == Ty::Error {
        (st, Ty::Error)
    } else {
        match t {
            Ty::Generic(name, args) => if (name == "Result"@ && args.len() == 2) || (name
                == "Option"@ && args.len() == 1) {
                match st.return_type {
                    None => (st, args[0]),
                    Some(ret) => (
                        st.error_if(
                            !(ret is TypeVar || (ret is Generic && ret->Generic_0 == name)),
                            "the `?` operator requires the enclosing function to return "@ + name
                                + ", but it returns "@ + show(ret),
                            span,
                        ),
                        args[0],
                    ),
                }
            } else {
                (not_tried(st, t, span), Ty::Error)
            },
            _ => (not_tried(st, t, span), Ty::Error),
        }
    }
}

pub open spec fn not_tried(st: StateV, t: Ty, span: Span) -> StateV {
    st.error(
        "the `?` operator can only be applied to Result<T, E> or Option<T>, got "@ + show(t),
        span,
    )
}

pub open spec fn sem_try(env: EnvV, st: StateV, x: TryExpr) -> (StateV, Ty)
    decreases x, 1int,
{
    let (s, t) = sem_expr(env, st, x.operand);
    tried(s, t, x.span)
}

/// The first `n` segments of an interpolated string.
pub open spec fn sem_segments_n(env: EnvV, st: StateV, ss: Seq<StringSegment>, n: int) -> StateV
    decreases ss, n,
{
    if n <= 0 || n > ss.len() {
        st
    } else {
        let s = sem_segments_n(env, st, ss, n - 1);
        match ss[n - 1] {
            StringSegment::Expr(e) => sem_expr(env, s, e).0,
            StringSegment::Literal(_) => s,
        }
    }
}

/// The types of the first `n` parameters.
pub open spec fn resolved_params_n(env: EnvV, st: StateV, ps: Seq<Param>, n: int) -> (
    StateV,
    Seq<Ty>,
)
    decreases n,
{
    if n <= 0 || n > ps.len() {
        (st, Seq::empty())
    } else {
        let (s1, ts) = resolved_params_n(env, st, ps, n - 1);
        let (s2, t) = resolved(env, s1, ps[n - 1].type_annotation);
        (s2, ts.push(t))
    }
}

/// Those of the first `n` names that are variables.
pub open spec fn captured_n(st: StateV, names: Seq<Chars>, n: int) -> Seq<CaptureInfoV>
    decreases n,
{
    if n <= 0 || n > names.len() {
        Seq::empty()
    } else {
        let rest = captured_n(st, names, n - 1);
        match st.variable(names[n - 1]) {
            Some(v) => rest.push(CaptureInfoV { name: names[n - 1], is_mut: v.is_mut }),
            None => rest,
        }
    }
}

/// The first `n` parameters as variables.
pub open spec fn params_defined_n(st: StateV, ps: Seq<Param>, ts: Seq<Ty>, n: int) -> StateV
    decreases n,
{
    if n <= 0 || n > ps.len() || n > ts.len() {
        st
    } else {
        params_defined_n(st, ps, ts, n - 1).define(ps[n - 1].name@, fixed(ts[n - 1], ps[n - 1].span))
    }
}

pub open spec fn sem_lambda(env: EnvV, st: StateV, x: LambdaExpr) -> (StateV, Ty)
    decreases x, 1int,
{
    let (s1, ts) = resolved_params_n(env, st, x.params@, x.params@.len() as int);
    let (s2, ret) = match x.return_type {
        Some(te) => resolved(env, s1, te),
        None => (s1, Ty::Void),
    };
    let names = free_variables(x);
    let s3 = StateV {
        lambda_captures: put(
            s2.lambda_captures,
            x.span,
            captured_n(s2, names, names.len() as int),
        ),
        ..s2
    };
    let s4 = defers_placed(s3, x.body);
    let s5 = params_defined_n(
        StateV { return_type: Some(ret), ..s4 }.enter(),
        x.params@,
        ts,
        x.params@.len() as int,
    );
    let (s6, t) = sem_block_type_n(
        env,
        s5,
        x.body.statements@,
        x.body.statements@.len() as int,
    );
    let s7 = s6.error_if(
        ret != Ty::Void && clash(env, s6, ret, t),
        "lambda return type mismatch: expected `"@ + show(ret) + "` but body evaluates to `"@
            + show(t) + "`"@,
        x.span,
    ).leave();
    (StateV { return_type: s4.return_type, ..s7 }, Ty::Function(ts, Box::new(ret)))
}

/// The first arm fixes the type of a match; each other has to fit it. An arm
/// that never yields a value does not count.
pub open spec fn arm_joined(env: EnvV, st: StateV, arm: MatchArm, t: Ty, result: Option<Ty>) -> (
    StateV,
    Option<Ty>,
) {
    if arm.body is Block && diverges(arm.body->Block_0) {
        (st, result)
    } else {
        match result {
            Some(expected) => (
                st.error_if(
                    clash(env, st, expected, t),
                    "match arm type mismatch: expected `"@ + show(expected) + "` but got `"@
                        + show(t) + "`"@,
                    pattern_span(arm.pattern),
                ),
                result,
            ),
            None => (st, Some(t)),
        }
    }
}

pub open spec fn sem_arm_body(env: EnvV, st: StateV, body: MatchBody) -> (StateV, Ty)
    decreases body, 1int,
{
    match body {
        MatchBody::Expr(e) => sem_expr(env, st, e),
        MatchBody::Block(b) => sem_block_type_n(
            env,
            jumps_rejected_n(st, b.statements@, b.statements@.len() as int),
            b.statements@,
            b.statements@.len() as int,
        ),
    }
}

/// The first `n` arms of a match.
pub open spec fn sem_arms_n(
    env: EnvV,
    st: StateV,
    arms: Seq<MatchArm>,
    subject: Ty,
    base: Option<Chars>,
    b: Bindings,
    n: int,
) -> (StateV, Option<Ty>)
    decreases arms, n,
{
    if n <= 0 || n > arms.len() {
        (st, None)
    } else {
        let (s1, result) = sem_arms_n(env, st, arms, subject, base, b, n - 1);
        let arm = arms[n - 1];
        let s2 = pattern_defined(env, s1.enter(), arm, subject, base, b);
        let (s3, t) = sem_arm_body(env, s2, arm.body);
        let (s4, joined) = arm_joined(env, s3, arm, t, result);
        (s4.leave(), joined)
    }
}

pub open spec fn sem_match(env: EnvV, st: StateV, x: MatchExpr) -> (StateV, Ty)
    decreases x, 1int,
{
    let (s1, subject) = sem_expr(env, st, x.subject);
    let (base, b) = base_and_bindings(env, subject);
    let (s2, result) = sem_arms_n(
        env,
        s1,
        x.arms@,
        subject,
        base,
        b,
        x.arms@.len() as int,
    );
    (
        exhaustiveness_checked(env, s2, x, base),
        match result {
            Some(t) => t,
            None => Ty::Void,
        },
    )
}

/// The common type of two branches.
pub open spec fn branches_joined(
    env: EnvV,
    st: StateV,
    t: Ty,
    t_diverges: bool,
    e: Ty,
    e_diverges: bool,
    span: Span,
) -> (StateV, Ty) {
    if t_diverges && e_diverges {
        (st, Ty::Void)
    } else if t_diverges {
        (st, e)
    } else if e_diverges {
        (st, t)
    } else if t == Ty::Error || e == Ty::Error {
        (st, Ty::Error)
    } else if compatible(env, st.bounds, t, e) {
        (st, t)
    } else if compatible(env, st.bounds, e, t) {
        (st, e)
    } else {
        (
            st.error(
                "if/else branches have incompatible types: "@ + show(t) + " and "@ + show(e),
                span,
            ),
            Ty::Error,
        )
    }
}

pub open spec fn sem_if(env: EnvV, st: StateV, x: IfExpr) -> (StateV, Ty)
    decreases x, 1int,
{
    let (s1, c) = sem_expr(env, st, x.condition);
    let s2 = s1.error_if(
        c != Ty::Error && c != Ty::Bool,
        "if condition must be Bool, got "@ + show(c),
        expr_span(x.condition),
    );
    let (s3, t) = sem_block_type_n(
        env,
        s2.enter(),
        x.then_block.statements@,
        x.then_block.statements@.len() as int,
    );
    let s4 = s3.leave();
    match x.else_branch {
        None => (s4, Ty::Void),
        Some(branch) => {
            let (s5, e) = sem_else(env, s4, branch);
            let e_diverges = match branch {
                ElseBranch::Block(b) => diverges(b),
                ElseBranch::ElseIf(i) => if_diverges(*i),
            };
            let (s6, r) = branches_joined(
                env,
                s5,
                t,
                diverges(x.then_block),
                e,
                e_diverges,
                x.span,
            );
            (s6.record_type(x.span, r), r)
        },
    }
}

pub open spec fn sem_else(env: EnvV, st: StateV, branch: ElseBranch) -> (StateV, Ty)
    decreases branch, 1int,
{
    match branch {
        ElseBranch::Block(b) => {
            let (s, t) = sem_block_type_n(
                env,
                st.enter(),
                b.statements@,
                b.statements@.len() as int,
            );
            (s.leave(), t)
        },
        ElseBranch::ElseIf(i) => sem_if(env, st, *i),
    }
}

impl State {
    /// Checks an expression and records its type.
    pub fn check_expr(&mut self, env: &Env<'_>, e: &Expr) -> (r: Type)
        ensures
            (final(self)@, r@) == sem_expr(env@, old(self)@, *e),
        decreases e, 1int,
    {
        let t = match e {
            Expr::Literal(x) => match &x.kind {
                LiteralKind::Int(_) => Type::Int,
                LiteralKind::Float(_) => Type::Float,
                LiteralKind::String(_) => Type::String,
                LiteralKind::Bool(_) => Type::Bool,
            },
            Expr::Ident(x) => self.check_ident(env, x),
            Expr::Binary(x) => self.check_binary(env, x),
            Expr::Unary(x) => self.check_unary(env, x),
            Expr::Call(x) => self.check_call(env, x),
            Expr::Assignment(x) => self.check_assignment(env, x),
            Expr::FieldAssignment(x) => self.check_field_assignment(env, x),
            Expr::FieldAccess(x) => self.check_field_access(env, x),
            Expr::MethodCall(x) => self.check_method_call(env, x),
            Expr::StructLiteral(x) => self.check_struct_literal(env, x),
            Expr::Match(x) => self.check_match(env, x),
            Expr::If(x) => self.check_if_expr(env, x),
            Expr::ListLiteral(x) => self.check_list_literal(env, x),
            Expr::MapLiteral(x) => self.check_map_literal(env, x),
            Expr::Try(x) => self.check_try(env, x),
            Expr::StringInterpolation(x) => {
                self.check_segments(env, &x.segments);
                Type::String
            },
            Expr::Lambda(x) => self.check_lambda(env, x),
        };
        self.record_type(e.span(), &t);
        t
    }

    /// Checks an expression again for its type alone.
    pub fn infer_expr_type(&mut self, env: &Env<'_>, e: &Expr) -> (r: Type)
        ensures
            (final(self)@, r@) == sem_again(env@, old(self)@, *e),
        decreases e, 2int,
    {
        let n: usize = self.diagnostic_count();
        let t = self.check_expr(env, e);
        self.forget_after(n);
        t
    }

    fn check_ident(&mut self, env: &Env<'_>, x: &IdentExpr) -> (r: Type)
        ensures
            (final(self)@, r@) == sem_ident(env@, old(self)@, *x),
    {
        match self.variable(&x.name) {
            Some(v) => {
                self.refer(x.span, SymbolKind::Variable, x.name.clone());
                v.ty
            },
            None => match env.unit_variant_type(&x.name) {
                Some(t) => t,
                None => {
                    self.error(cat3("undefined variable `", &x.name, "`"), x.span);
                    Type::Error
                },
            },
        }
    }

    fn operate(&mut self, env: &Env<'_>, op: BinaryOp, l: Type, r: Type, span: Span) -> (t: Type)
        ensures
            (final(self)@, t@) == operated(env@, old(self)@, op, l@, r@, span),
    {
        if l.is_error() || r.is_error() {
            return Type::Error;
        }
        match op {
            BinaryOp::Add | BinaryOp::Sub | BinaryOp::Mul | BinaryOp::Div | BinaryOp::Mod => {
                if same_type(&l, &r) && l.is_numeric() {
                    l
                } else if l.is_string() && r.is_string() && op == BinaryOp::Add {
                    Type::String
                } else {
                    self.error(
                        cat6("cannot apply `", op_text(op), "` to ", &l.text(), " and ", &r.text()),
                        span,
                    );
                    Type::Error
                }
            },
            BinaryOp::Eq | BinaryOp::NotEq => {
                if self.types_compatible(env, &l, &r) {
                    Type::Bool
                } else {
                    self.error(cat4("cannot compare ", &l.text(), " and ", &r.text()), span);
                    Type::Error
                }
            },
            BinaryOp::Lt | BinaryOp::Gt | BinaryOp::LtEq | BinaryOp::GtEq => {
                if self.types_compatible(env, &l, &r) && (l.is_numeric() || l.is_string()) {
                    Type::Bool
                } else {
                    self.error(
                        cat7(
                            "cannot compare ",
                            &l.text(),
                            " and ",
                            &r.text(),
                            " with `",
                            op_text(op),
                            "`",
                        ),
                        span,
                    );
                    Type::Error
                }
            },
            BinaryOp::And | BinaryOp::Or => {
                if !l.is_bool() {
                    self.error(
                        cat4("left operand of `", op_text(op), "` must be Bool, got ", &l.text()),
                        span,
                    );
                }
                if !r.is_bool() {
                    self.error(
                        cat4("right operand of `", op_text(op), "` must be Bool, got ", &r.text()),
                        span,
                    );
                }
                Type::Bool
            },
        }
    }

    fn check_binary(&mut self, env: &Env<'_>, x: &BinaryExpr) -> (r: Type)
        ensures
            (final(self)@, r@) == sem_binary(env@, old(self)@, *x),
        decreases x, 1int,
    {
        let left = self.check_expr(env, &x.left);
        let right = self.check_expr(env, &x.right);
        self.operate(env, x.op, left, right, x.span)
    }

    fn check_unary(&mut self, env: &Env<'_>, x: &UnaryExpr) -> (r: Type)
        ensures
            (final(self)@, r@) == sem_unary(env@, old(self)@, *x),
        decreases x, 1int,
    {
        let t = self.check_expr(env, &x.operand);
        if t.is_error() {
            return Type::Error;
        }
        match x.op {
            UnaryOp::Neg => {
                if t.is_numeric() {
                    t
                } else {
                    self.error(cat2("cannot negate ", &t.text()), x.span);
                    Type::Error
                }
            },
            UnaryOp::Not => {
                if t.is_bool() {
                    Type::Bool
                } else {
                    self.error(cat2("cannot apply `!` to ", &t.text()), x.span);
                    Type::Error
                }
            },
        }
    }

    fn check_assignment(&mut self, env: &Env<'_>, x: &AssignmentExpr) -> (r: Type)
        ensures
            (final(self)@, r@) == sem_assignment(env@, old(self)@, *x),
        decreases x, 1int,
    {
        let t = self.check_expr(env, &x.value);
        match self.variable(&x.name) {
            Some(v) => {
                if !v.is_mut {
                    self.error(
                        cat3("cannot assign to immutable variable `", &x.name, "`"),
                        x.span,
                    );
                }
                if self.types_clash(env, &v.ty, &t) {
                    self.error(
                        cat7(
                            "type mismatch: cannot assign `",
                            &t.text(),
                            "` to variable `",
                            &x.name,
                            "` of type `",
                            &v.ty.text(),
                            "`",
                        ),
                        x.span,
                    );
                }
                v.ty
            },
            None => {
                self.error(cat3("undefined variable `", &x.name, "`"), x.span);
                Type::Error
            },
        }
    }

    fn assign_field(
        &mut self,
        env: &Env<'_>,
        x: &FieldAssignmentExpr,
        object: &Type,
        t: &Type,
    ) -> (r: Type)
        ensures
            (final(self)@, r@) == field_assigned(env@, old(self)@, *x, object@, t@),
    {
        let (base, b) = env.extract_base_and_bindings(object);
        if let Some(key) = &base {
            if let Some(info) = env.structs.get(key) {
                match find_field(&info.fields, &x.field) {
                    Some(f) => {
                        self.enforce_cross_module_field_write_privacy(env, info, key, f, x.span);
                        let ft = substitute(&f.ty, &b);
                        if self.types_clash(env, &ft, t) {
                            self.error(
                                cat7(
                                    "type mismatch: field `",
                                    &x.field,
                                    "` is `",
                                    &ft.text(),
                                    "` but assigned `",
                                    &t.text(),
                                    "`",
                                ),
                                x.span,
                            );
                        }
                        return ft;
                    },
                    None => {
                        self.error(
                            cat5("struct `", key, "` has no field `", &x.field, "`"),
                            x.span,
                        );
                        return Type::Error;
                    },
                }
            }
        }
        if !object.is_error() {
            self.error(
                cat3("cannot assign to field on non-struct type `", &object.text(), "`"),
                x.span,
            );
        }
        Type::Error
    }

    fn check_field_assignment(&mut self, env: &Env<'_>, x: &FieldAssignmentExpr) -> (r: Type)
        ensures
            (final(self)@, r@) == sem_field_assignment(env@, old(self)@, *x),
        decreases x, 1int,
    {
        let t = self.check_expr(env, &x.value);
        if let Some(name) = extract_root_ident(&x.object) {
            if let Some(v) = self.variable(&name) {
                if !v.is_mut {
                    self.error(
                        cat3("cannot assign to field of immutable variable `", &name, "`"),
                        x.span,
                    );
                }
            }
        }
        let object = self.check_expr(env, &x.object);
        self.assign_field(env, x, &object, &t)
    }

    fn read_field(&mut self, env: &Env<'_>, x: &FieldAccessExpr, object: &Type) -> (r: Type)
        ensures
            (final(self)@, r@) == field_read(env@, old(self)@, *x, object@),
    {
        let (base, b) = env.extract_base_and_bindings(object);
        if let Some(key) = &base {
            if let Some(info) = env.structs.get(key) {
                match find_field(&info.fields, &x.field) {
                    Some(f) => {
                        self.enforce_cross_module_field_read_privacy(env, info, key, f, x.span);
                        self.refer(
                            x.span,
                            SymbolKind::Field { struct_name: key.clone() },
                            x.field.clone(),
                        );
                        return substitute(&f.ty, &b);
                    },
                    None => {
                        self.error(
                            cat5("struct `", key, "` has no field `", &x.field, "`"),
                            x.span,
                        );
                        return Type::Error;
                    },
                }
            }
        }
        Type::Error
    }

    fn check_field_access(&mut self, env: &Env<'_>, x: &FieldAccessExpr) -> (r: Type)
        ensures
            (final(self)@, r@) == sem_field_access(env@, old(self)@, *x),
        decreases x, 1int,
    {
        let object = self.check_expr(env, &x.object);
        self.read_field(env, x, &object)
    }

    /// Checks each expression and returns their types.
    pub fn check_exprs(&mut self, env: &Env<'_>, es: &Vec<Expr>) -> (r: Vec<Type>)
        ensures
            (final(self)@, r.deep_view()) == sem_types_n(
                env@,
                old(self)@,
                es@,
                es@.len() as int,
            ),
        decreases es, 0int,
    {
        let mut ts: Vec<Type> = Vec::new();
        assert(ts.deep_view() =~= Seq::<Ty>::empty());
        let mut i: usize = 0;
        while i < es.len()
            invariant
                i <= es.len(),
                (self@, ts.deep_view()) == sem_types_n(env@, old(self)@, es@, i as int),
            decreases es.len() - i,
        {
            let t = self.check_expr(env, &es[i]);
            push_view(&mut ts, t);
            i += 1;
        }
        ts
    }

    fn check_elements(&mut self, env: &Env<'_>, es: &Vec<Expr>, first: &Type)
        requires
            es@.len() > 0,
        ensures
            final(self)@ == sem_elements_n(
                env@,
                old(self)@,
                es@,
                first@,
                es@.len() as int,
            ),
        decreases es, 0int,
    {
        let mut i: usize = 1;
        while i < es.len()
            invariant
                1 <= i <= es.len(),
                self@ == sem_elements_n(env@, old(self)@, es@, first@, i as int),
            decreases es.len() - i,
        {
            let t = self.check_expr(env, &es[i]);
            if self.types_clash(env, first, &t) {
                self.error(
                    cat4(
                        "list element type mismatch: expected ",
                        &first.text(),
                        " but got ",
                        &t.text(),
                    ),
                    es[i].span(),
                );
            }
            i += 1;
        }
    }

    fn check_list_literal(&mut self, env: &Env<'_>, x: &ListLiteralExpr) -> (r: Type)
        ensures
            (final(self)@, r@) == sem_list_literal(env@, old(self)@, *x),
        decreases x, 1int,
    {
        if x.elements.len() == 0 {
            return list_of(type_var("T"));
        }
        let first = self.check_expr(env, &x.elements[0]);
        self.check_elements(env, &x.elements, &first);
        list_of(first)
    }

    fn check_entries(&mut self, env: &Env<'_>, es: &Vec<(Expr, Expr)>, k: &Type, v: &Type)
        requires
            es@.len() > 0,
        ensures
            final(self)@ == sem_entries_n(
                env@,
                old(self)@,
                es@,
                k@,
                v@,
                es@.len() as int,
            ),
        decreases es, 0int,
    {
        let mut i: usize = 1;
        while i < es.len()
            invariant
                1 <= i <= es.len(),
                self@ == sem_entries_n(env@, old(self)@, es@, k@, v@, i as int),
            decreases es.len() - i,
        {
            let kt = self.check_expr(env, &es[i].0);
            let vt = self.check_expr(env, &es[i].1);
            let key_clash = self.types_clash(env, k, &kt);
            let value_clash = self.types_clash(env, v, &vt);
            if key_clash {
                self.error(
                    cat4(
                        "map key type mismatch: expected ",
                        &k.text(),
                        " but got ",
                        &kt.text(),
                    ),
                    es[i].0.span(),
                );
            }
            if value_clash {
                self.error(
                    cat4(
                        "map value type mismatch: expected ",
                        &v.text(),
                        " but got ",
                        &vt.text(),
                    ),
                    es[i].1.span(),
                );
            }
            i += 1;
        }
    }

    fn check_map_literal(&mut self, env: &Env<'_>, x: &MapLiteralExpr) -> (r: Type)
        ensures
            (final(self)@, r@) == sem_map_literal(env@, old(self)@, *x),
        decreases x, 1int,
    {
        if x.entries.len() == 0 {
            return map_of(type_var("K"), type_var("V"));
        }
        let k = self.check_expr(env, &x.entries[0].0);
        let v = self.check_expr(env, &x.entries[0].1);
        self.check_entries(env, &x.entries, &k, &v);
        map_of(k, v)
    }

    fn try_on(&mut self, t: &Type, span: Span) -> (r: Type)
        ensures
            (final(self)@, r@) == tried(old(self)@, t@, span),
    {
        if t.is_error() {
            return Type::Error;
        }
        if let Type::Generic(name, args) = t {
            if (same_text(name, "Result") && args.len() == 2) || (same_text(name, "Option")
                && args.len() == 1) {
                if let Some(ret) = self.current_return_type() {
                    let fits = match &ret {
                        Type::TypeVar(_) => true,
                        Type::Generic(n, _) => *n == *name,
                        _ => false,
                    };
                    if !fits {
                        self.error(
                            cat4(
                                "the `?` operator requires the enclosing function to return ",
                                name,
                                ", but it returns ",
                                &ret.text(),
                            ),
                            span,
                        );
                    }
                }
                return args[0].dup();
            }
        }
        self.error(
            cat2(
                "the `?` operator can only be applied to Result<T, E> or Option<T>, got ",
                &t.text(),
            ),
            span,
        );
        Type::Error
    }

    fn check_try(&mut self, env: &Env<'_>, x: &TryExpr) -> (r: Type)
        ensures
            (final(self)@, r@) == sem_try(env@, old(self)@, *x),
        decreases x, 1int,
    {
        let t = self.check_expr(env, &x.operand);
        self.try_on(&t, x.span)
    }

    fn check_segments(&mut self, env: &Env<'_>, ss: &Vec<StringSegment>)
        ensures
            final(self)@ == sem_segments_n(env@, old(self)@, ss@, ss@.len() as int),
        decreases ss, 0int,
    {
        let mut i: usize = 0;
        while i < ss.len()
            invariant
                i <= ss.len(),
                self@ == sem_segments_n(env@, old(self)@, ss@, i as int),
            decreases ss.len() - i,
        {
            match &ss[i] {
                StringSegment::Expr(e) => {
                    let _ = self.check_expr(env, e);
                },
                StringSegment::Literal(_) => {},
            }
            i += 1;
        }
    }

    pub fn resolve_params(&mut self, env: &Env<'_>, ps: &Vec<Param>) -> (r: Vec<Type>)
        ensures
            (final(self)@, r.deep_view()) == resolved_params_n(
                env@,
                old(self)@,
                ps@,
                ps@.len() as int,
            ),
    {
        let mut ts: Vec<Type> = Vec::new();
        assert(ts.deep_view() =~= Seq::<Ty>::empty());
        let mut i: usize = 0;
        while i < ps.len()
            invariant
                i <= ps.len(),
                (self@, ts.deep_view()) == resolved_params_n(env@, old(self)@, ps@, i as int),
            decreases ps.len() - i,
        {
            let t = self.resolve_type_expr(env, &ps[i].type_annotation);
            push_view(&mut ts, t);
            i += 1;
        }
        ts
    }

    fn captures(&self, names: &Vec<String>) -> (r: Vec<CaptureInfo>)
        ensures
            r.deep_view() == captured_n(
                self@,
                names.deep_view(),
                names.deep_view().len() as int,
            ),
    {
        let mut out: Vec<CaptureInfo> = Vec::new();
        assert(out.deep_view() =~= Seq::<CaptureInfoV>::empty());
        let mut i: usize = 0;
        while i < names.len()
            invariant
                i <= names.len(),
                out.deep_view() == captured_n(self@, names.deep_view(), i as int),
            decreases names.len() - i,
        {
            if let Some(v) = self.variable(&names[i]) {
                push_view(&mut out, CaptureInfo { name: names[i].clone(), is_mut: v.is_mut });
            }
            i += 1;
        }
        out
    }

    fn define_params(&mut self, ps: &Vec<Param>, ts: &Vec<Type>)
        requires
            ps@.len() == ts@.len(),
        ensures
            final(self)@ == params_defined_n(
                old(self)@,
                ps@,
                ts.deep_view(),
                ps@.len() as int,
            ),
    {
        let mut i: usize = 0;
        while i < ps.len()
            invariant
                i <= ps.len(),
                ps@.len() == ts@.len(),
                self@ == params_defined_n(old(self)@, ps@, ts.deep_view(), i as int),
            decreases ps.len() - i,
        {
            self.define_fixed(ps[i].name.clone(), ts[i].dup(), ps[i].span);
            i += 1;
        }
    }

    fn check_lambda(&mut self, env: &Env<'_>, x: &LambdaExpr) -> (r: Type)
        ensures
            (final(self)@, r@) == sem_lambda(env@, old(self)@, *x),
        decreases x, 1int,
    {
        let ts = self.resolve_params(env, &x.params);
        let ret = match &x.return_type {
            Some(te) => self.resolve_type_expr(env, te),
            None => Type::Void,
        };
        let captures = self.captures(&collect_free_variables(x));
        self.record_captures(x.span, captures);
        self.check_defer_placement(&x.body);
        let outer = self.set_return_type(Some(ret.dup()));
        self.enter();
        proof {
            lemma_resolved_params_len(env@, old(self)@, x.params@, x.params@.len() as int);
        }
        self.define_params(&x.params, &ts);
        let t = self.check_block_type(env, &x.body);
        if !ret.is_void() && self.types_clash(env, &ret, &t) {
            self.error(
                cat5(
                    "lambda return type mismatch: expected `",
                    &ret.text(),
                    "` but body evaluates to `",
                    &t.text(),
                    "`",
                ),
                x.span,
            );
        }
        self.leave();
        let _ = self.set_return_type(outer);
        function_of(ts, ret)
    }

    fn join_arm(&mut self, env: &Env<'_>, arm: &MatchArm, t: Type, result: Option<Type>) -> (r: Option<
        Type,
    >)
        ensures
            (final(self)@, r.deep_view()) == arm_joined(
                env@,
                old(self)@,
                *arm,
                t@,
                result.deep_view(),
            ),
    {
        if let MatchBody::Block(b) = &arm.body {
            if block_diverges(b) {
                return result;
            }
        }
        match result {
            Some(expected) => {
                if self.types_clash(env, &expected, &t) {
                    self.error(
                        cat5(
                            "match arm type mismatch: expected `",
                            &expected.text(),
                            "` but got `",
                            &t.text(),
                            "`",
                        ),
                        span_of_pattern(&arm.pattern),
                    );
                }
                Some(expected)
            },
            None => Some(t),
        }
    }

    fn check_arm_body(&mut self, env: &Env<'_>, body: &MatchBody) -> (r: Type)
        ensures
            (final(self)@, r@) == sem_arm_body(env@, old(self)@, *body),
        decreases body, 1int,
    {
        match body {
            MatchBody::Expr(e) => self.check_expr(env, e),
            MatchBody::Block(b) => {
                self.reject_jumps(&b.statements);
                self.check_block_type(env, b)
            },
        }
    }

    fn check_arms(
        &mut self,
        env: &Env<'_>,
        arms: &Vec<MatchArm>,
        subject: &Type,
        base: &Option<String>,
        b: &Table<String, Type>,
    ) -> (r: Option<Type>)
        ensures
            (final(self)@, r.deep_view()) == sem_arms_n(
                env@,
                old(self)@,
                arms@,
                subject@,
                base.deep_view(),
                b@,
                arms@.len() as int,
            ),
        decreases arms, 0int,
    {
        let mut result: Option<Type> = None;
        let mut i: usize = 0;
        while i < arms.len()
            invariant
                i <= arms.len(),
                (self@, result.deep_view()) == sem_arms_n(
                    env@,
                    old(self)@,
                    arms@,
                    subject@,
                    base.deep_view(),
                    b@,
                    i as int,
                ),
            decreases arms.len() - i,
        {
            let arm = &arms[i];
            self.enter();
            self.define_pattern(env, arm, subject, base, b);
            let t = self.check_arm_body(env, &arm.body);
            result = self.join_arm(env, arm, t, result);
            self.leave();
            i += 1;
        }
        result
    }

    fn check_match(&mut self, env: &Env<'_>, x: &MatchExpr) -> (r: Type)
        ensures
            (final(self)@, r@) == sem_match(env@, old(self)@, *x),
        decreases x, 1int,
    {
        let subject = self.check_expr(env, &x.subject);
        let (base, b) = env.extract_base_and_bindings(&subject);
        let result = self.check_arms(env, &x.arms, &subject, &base, &b);
        self.check_match_exhaustiveness(env, x, &base);
        match result {
            Some(t) => t,
            None => Type::Void,
        }
    }

    fn join_branches(
        &mut self,
        env: &Env<'_>,
        t: Type,
        t_diverges: bool,
        e: Type,
        e_diverges: bool,
        span: Span,
    ) -> (r: Type)
        ensures
            (final(self)@, r@) == branches_joined(
                env@,
                old(self)@,
                t@,
                t_diverges,
                e@,
                e_diverges,
                span,
            ),
    {
        if t_diverges && e_diverges {
            Type::Void
        } else if t_diverges {
            e
        } else if e_diverges {
            t
        } else if t.is_error() || e.is_error() {
            Type::Error
        } else if self.types_compatible(env, &t, &e) {
            t
        } else if self.types_compatible(env, &e, &t) {
            e
        } else {
            self.error(
                cat4(
                    "if/else branches have incompatible types: ",
                    &t.text(),
                    " and ",
                    &e.text(),
                ),
                span,
            );
            Type::Error
        }
    }

    fn check_if_expr(&mut self, env: &Env<'_>, x: &IfExpr) -> (r: Type)
        ensures
            (final(self)@, r@) == sem_if(env@, old(self)@, *x),
        decreases x, 1int,
    {
        let c = self.check_expr(env, &x.condition);
        if !c.is_error() && !c.is_bool() {
            self.error(cat2("if condition must be Bool, got ", &c.text()), x.condition.span());
        }
        self.enter();
        let t = self.check_block_type(env, &x.then_block);
        self.leave();
        match &x.else_branch {
            None => Type::Void,
            Some(branch) => {
                let e = self.check_else(env, branch);
                let e_diverges = match branch {
                    ElseBranch::Block(b) => block_diverges(b),
                    ElseBranch::ElseIf(i) => if_expr_diverges(i),
                };
                let r = self.join_branches(
                    env,
                    t,
                    block_diverges(&x.then_block),
                    e,
                    e_diverges,
                    x.span,
                );
                self.record_type(x.span, &r);
                r
            },
        }
    }

    fn check_else(&mut self, env: &Env<'_>, branch: &ElseBranch) -> (r: Type)
        ensures
            (final(self)@, r@) == sem_else(env@, old(self)@, *branch),
        decreases branch, 1int,
    {
        match branch {
            ElseBranch::Block(b) => {
                self.enter();
                let t = self.check_block_type(env, b);
                self.leave();
                t
            },
            ElseBranch::ElseIf(i) => self.check_if_expr(env, i),
        }
    }
}

/// Each parameter gets a type.
pub proof fn lemma_resolved_params_len(env: EnvV, st: StateV, ps: Seq<Param>, n: int)
    requires
        0 <= n <= ps.len(),
    ensures
        resolved_params_n(env, st, ps, n).1.len() == n,
    decreases n,
{
    if n > 0 {
        lemma_resolved_params_len(env, st, ps, n - 1);
    }
}

} // verus!
