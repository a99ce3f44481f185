//! The methods of `List`, `Map`, `String`, `Option`, `Result` and the
//! builders.
use crate::ast::{expr_span, Expr, MethodCallExpr};
use crate::calls::{type_at, type_at_index};
use crate::check_expr::sem_expr;
use crate::check_types::{base_and_bindings, clash};
use crate::env::{Env, EnvV};
use crate::span::Span;
use crate::state::{State, StateV};
use crate::table::{find, Table};
use crate::text::{cat2, cat5, cat6, cat7, count_text, decimal, same_text, Chars, Dup};
use crate::types::{
    has_vars, list_of, map_of, one, option_of, result_of, show, two, ty_list, ty_map, ty_option,
    ty_result, type_var, Bindings, Ty, Type,
};
use vstd::prelude::*;

verus! {

broadcast use crate::ty::view_of_type;

// ── Arguments ────────────────────────────────────────────────────────

/// The error about the number of arguments.
pub open spec fn arity_error(st: StateV, x: MethodCallExpr, expected: nat) -> StateV {
    st.error(
        "method `"@ + x.method@ + "` takes "@ + decimal(expected) + " argument(s), got "@
            + decimal(x.args.positional@.len()),
        x.span,
    )
}

/// The first `n` arguments, each of a given type.
pub open spec fn sem_plain_n(
    env: EnvV,
    st: StateV,
    args: Seq<Expr>,
    method: Chars,
    params: Seq<Ty>,
    n: int,
) -> StateV
    decreases args, n,
{
    if n <= 0 || n > args.len() {
        st
    } else {
        let expected = type_at(params, n - 1);
        let (s, t) = sem_expr(
            env,
            sem_plain_n(env, st, args, method, params, n - 1),
            args[n - 1],
        );
        s.error_if(
            clash(env, s, expected, t),
            "argument "@ + decimal(n as nat) + " of `"@ + method + "`: expected "@ + show(expected)
                + " but got "@ + show(t),
            expr_span(args[n - 1]),
        )
    }
}

/// Arguments of the given types.
pub open spec fn sem_plain(env: EnvV, st: StateV, x: MethodCallExpr, params: Seq<Ty>) -> StateV
    decreases x, 3int,
{
    if x.args.positional@.len() != params.len() {
        arity_error(st, x, params.len())
    } else {
        sem_plain_n(
            env,
            st,
            x.args.positional@,
            x.method@,
            params,
            x.args.positional@.len() as int,
        )
    }
}

/// The first `n` parameters of a callback.
pub open spec fn callback_params_n(
    env: EnvV,
    st: StateV,
    method: Chars,
    expected: Seq<Ty>,
    actual: Seq<Ty>,
    span: Span,
    n: int,
) -> StateV
    decreases n,
{
    if n <= 0 || n > expected.len() || n > actual.len() {
        st
    } else {
        let s = callback_params_n(env, st, method, expected, actual, span, n - 1);
        s.error_if(
            clash(env, s, expected[n - 1], actual[n - 1]),
            method + " callback parameter "@ + decimal(n as nat) + ": expected "@ + show(
                expected[n - 1],
            ) + " but got "@ + show(actual[n - 1]),
            span,
        )
    }
}

/// A callback with parameters `params` and result `ret`, held against what the
/// method hands it and what it wants back.
pub open spec fn callback_fits(
    env: EnvV,
    st: StateV,
    method: Chars,
    expected: Seq<Ty>,
    expected_ret: Option<Ty>,
    params: Seq<Ty>,
    ret: Ty,
    span: Span,
) -> StateV {
    let s = if params.len() != expected.len() {
        st.error(
            method + " callback must take "@ + decimal(expected.len()) + " parameter(s), got "@
                + decimal(params.len()),
            span,
        )
    } else {
        callback_params_n(env, st, method, expected, params, span, expected.len() as int)
    };
    match expected_ret {
        Some(er) => s.error_if(
            clash(env, s, er, ret),
            method + " callback must return "@ + show(er) + ", got "@ + show(ret),
            span,
        ),
        None => s,
    }
}

/// Argument `i` as a callback: the state, and what the callback gives back.
pub open spec fn sem_callback(
    env: EnvV,
    st: StateV,
    x: MethodCallExpr,
    i: int,
    expected: Seq<Ty>,
    expected_ret: Option<Ty>,
) -> (StateV, Option<Ty>)
    decreases x, 3int,
{
    if i < 0 || i >= x.args.positional@.len() {
        (st, None)
    } else {
        let e = x.args.positional@[i];
        let (s, t) = sem_expr(env, st, e);
        match t {
            Ty::Function(params, ret) => (
                callback_fits(
                    env,
                    s,
                    x.method@,
                    expected,
                    expected_ret,
                    params,
                    *ret,
                    expr_span(e),
                ),
                Some(*ret),
            ),
            _ => (s, None),
        }
    }
}

/// A callback as the only argument.
pub open spec fn sem_only_callback(
    env: EnvV,
    st: StateV,
    x: MethodCallExpr,
    expected: Seq<Ty>,
    expected_ret: Option<Ty>,
) -> (StateV, Option<Ty>)
    decreases x, 4int,
{
    if x.args.positional@.len() != 1 {
        (arity_error(st, x, 1), None)
    } else {
        sem_callback(env, st, x, 0, expected, expected_ret)
    }
}

/// The span of the first argument.
pub open spec fn first_arg_span(x: MethodCallExpr) -> Span {
    if x.args.positional@.len() > 0 {
        expr_span(x.args.positional@[0])
    } else {
        x.span
    }
}

/// Whether the type is an instance of the generic type `name`.
pub open spec fn is_instance(t: Ty, name: Chars) -> bool {
    match t {
        Ty::Generic(n, _) => n == name,
        _ => false,
    }
}

/// A callback that has to return an instance of `name`; `otherwise` is the
/// type if the argument is no callback at all.
pub open spec fn chained(
    st: StateV,
    x: MethodCallExpr,
    ret: Option<Ty>,
    name: Chars,
    otherwise: Ty,
) -> (StateV, Ty) {
    match ret {
        Some(r) => (
            st.error_if(
                !is_instance(r, name) && r != Ty::Error && !has_vars(r),
                x.method@ + " callback must return "@ + name + ", got "@ + show(r),
                first_arg_span(x),
            ),
            r,
        ),
        None => (st, otherwise),
    }
}

// ── Methods ──────────────────────────────────────────────────────────

/// The result of `flatMap` for a callback that returns `ret`.
pub open spec fn flattened(st: StateV, x: MethodCallExpr, ret: Option<Ty>) -> (StateV, Ty) {
    match ret {
        Some(r) => if is_instance(r, "List"@) && r->Generic_1.len() == 1 {
            (st, ty_list(r->Generic_1[0]))
        } else if r != Ty::Error && !has_vars(r) {
            (
                st.error("flatMap callback must return a List, got "@ + show(r), first_arg_span(x)),
                Ty::Error,
            )
        } else {
            (st, ty_list(Ty::TypeVar("U"@)))
        },
        None => (st, ty_list(Ty::TypeVar("U"@))),
    }
}

pub open spec fn sem_reduce(env: EnvV, st: StateV, x: MethodCallExpr, elem: Ty) -> (StateV, Ty)
    decreases x, 4int,
{
    if x.args.positional@.len() != 2 {
        (arity_error(st, x, 2), Ty::Error)
    } else {
        let (s1, init) = sem_expr(env, st, x.args.positional@[0]);
        let (s2, ret) = sem_callback(env, s1, x, 1, seq![init, elem], None);
        (
            match ret {
                Some(r) => s2.error_if(
                    clash(env, s2, init, r),
                    "reduce callback return type: expected "@ + show(init) + " but got "@ + show(
                        r,
                    ),
                    expr_span(x.args.positional@[1]),
                ),
                None => s2,
            },
            init,
        )
    }
}

/// A method of a list with elements of type `elem`.
pub open spec fn sem_list_method(env: EnvV, st: StateV, x: MethodCallExpr, elem: Ty) -> (StateV, Ty)
    decreases x, 5int,
{
    let m = x.method@;
    if m == "length"@ {
        (sem_plain(env, st, x, Seq::empty()), Ty::Int)
    } else if m == "get"@ {
        (sem_plain(env, st, x, seq![Ty::Int]), elem)
    } else if m == "push"@ {
        (sem_plain(env, st, x, seq![elem]), ty_list(elem))
    } else if m == "first"@ || m == "last"@ {
        (sem_plain(env, st, x, Seq::empty()), ty_option(elem))
    } else if m == "contains"@ {
        (sem_plain(env, st, x, seq![elem]), Ty::Bool)
    } else if m == "take"@ || m == "drop"@ {
        (sem_plain(env, st, x, seq![Ty::Int]), ty_list(elem))
    } else if m == "map"@ {
        let (s, ret) = sem_only_callback(env, st, x, seq![elem], None);
        (
            s,
            match ret {
                Some(r) => ty_list(r),
                None => ty_list(Ty::TypeVar("U"@)),
            },
        )
    } else if m == "flatMap"@ {
        let (s, ret) = sem_only_callback(env, st, x, seq![elem], None);
        flattened(s, x, ret)
    } else if m == "filter"@ {
        (sem_only_callback(env, st, x, seq![elem], Some(Ty::Bool)).0, ty_list(elem))
    } else if m == "find"@ {
        (sem_only_callback(env, st, x, seq![elem], Some(Ty::Bool)).0, ty_option(elem))
    } else if m == "any"@ || m == "all"@ {
        (sem_only_callback(env, st, x, seq![elem], Some(Ty::Bool)).0, Ty::Bool)
    } else if m == "reduce"@ {
        sem_reduce(env, st, x, elem)
    } else if m == "sortBy"@ {
        (sem_only_callback(env, st, x, seq![elem, elem], Some(Ty::Int)).0, ty_list(elem))
    } else {
        unknown_method(st, x, "List"@)
    }
}

/// The error about a method that a type of the language does not have.
pub open spec fn unknown_method(st: StateV, x: MethodCallExpr, owner: Chars) -> (StateV, Ty) {
    (
        st.error("no method `"@ + x.method@ + "` on type `"@ + owner + "`"@, x.span),
        Ty::Error,
    )
}

pub open spec fn sem_list_builder_method(env: EnvV, st: StateV, x: MethodCallExpr, elem: Ty) -> (
    StateV,
    Ty,
)
    decreases x, 5int,
{
    if x.method@ == "push"@ {
        (sem_plain(env, st, x, seq![elem]), Ty::Void)
    } else if x.method@ == "freeze"@ {
        (sem_plain(env, st, x, Seq::empty()), ty_list(elem))
    } else {
        unknown_method(st, x, "ListBuilder"@)
    }
}

pub open spec fn sem_map_builder_method(env: EnvV, st: StateV, x: MethodCallExpr, k: Ty, v: Ty) -> (
    StateV,
    Ty,
)
    decreases x, 5int,
{
    if x.method@ == "set"@ {
        (sem_plain(env, st, x, seq![k, v]), Ty::Void)
    } else if x.method@ == "freeze"@ {
        (sem_plain(env, st, x, Seq::empty()), ty_map(k, v))
    } else {
        unknown_method(st, x, "MapBuilder"@)
    }
}

/// A method of a map with keys of type `k` and values of type `v`.
pub open spec fn sem_map_method(env: EnvV, st: StateV, x: MethodCallExpr, k: Ty, v: Ty) -> (
    StateV,
    Ty,
)
    decreases x, 5int,
{
    let m = x.method@;
    if m == "length"@ {
        (sem_plain(env, st, x, Seq::empty()), Ty::Int)
    } else if m == "get"@ {
        (sem_plain(env, st, x, seq![k]), ty_option(v))
    } else if m == "contains"@ {
        (sem_plain(env, st, x, seq![k]), Ty::Bool)
    } else if m == "set"@ {
        (sem_plain(env, st, x, seq![k, v]), ty_map(k, v))
    } else if m == "remove"@ {
        (sem_plain(env, st, x, seq![k]), ty_map(k, v))
    } else if m == "keys"@ {
        (sem_plain(env, st, x, Seq::empty()), ty_list(k))
    } else if m == "values"@ {
        (sem_plain(env, st, x, Seq::empty()), ty_list(v))
    } else {
        unknown_method(st, x, "Map"@)
    }
}

pub open spec fn sem_string_method(env: EnvV, st: StateV, x: MethodCallExpr) -> (StateV, Ty)
    decreases x, 5int,
{
    let m = x.method@;
    if m == "length"@ {
        (sem_plain(env, st, x, Seq::empty()), Ty::Int)
    } else if m == "trim"@ || m == "toLowerCase"@ || m == "toUpperCase"@ {
        (sem_plain(env, st, x, Seq::empty()), Ty::Str)
    } else if m == "contains"@ || m == "startsWith"@ || m == "endsWith"@ {
        (sem_plain(env, st, x, seq![Ty::Str]), Ty::Bool)
    } else if m == "indexOf"@ {
        (sem_plain(env, st, x, seq![Ty::Str]), Ty::Int)
    } else if m == "split"@ {
        (sem_plain(env, st, x, seq![Ty::Str]), ty_list(Ty::Str))
    } else if m == "replace"@ {
        (sem_plain(env, st, x, seq![Ty::Str, Ty::Str]), Ty::Str)
    } else if m == "substring"@ {
        (sem_plain(env, st, x, seq![Ty::Int, Ty::Int]), Ty::Str)
    } else {
        unknown_method(st, x, "String"@)
    }
}

/// A method of an optional value that holds a `t`; none if there is no such
/// method.
pub open spec fn sem_option_method(env: EnvV, st: StateV, x: MethodCallExpr, t: Ty) -> Option<
    (StateV, Ty),
>
    decreases x, 5int,
{
    let m = x.method@;
    if m == "map"@ {
        let (s, ret) = sem_only_callback(env, st, x, seq![t], None);
        Some(
            (
                s,
                match ret {
                    Some(r) => ty_option(r),
                    None => ty_option(Ty::TypeVar("U"@)),
                },
            ),
        )
    } else if m == "andThen"@ {
        let (s, ret) = sem_only_callback(env, st, x, seq![t], None);
        Some(chained(s, x, ret, "Option"@, ty_option(Ty::TypeVar("U"@))))
    } else if m == "orElse"@ {
        let (s, ret) = sem_only_callback(env, st, x, Seq::empty(), Some(ty_option(t)));
        Some(
            (
                s,
                match ret {
                    Some(r) => r,
                    None => ty_option(t),
                },
            ),
        )
    } else if m == "filter"@ {
        Some(
            (sem_only_callback(env, st, x, seq![t], Some(Ty::Bool)).0, ty_option(t)),
        )
    } else if m == "unwrapOrElse"@ {
        let (s, ret) = sem_only_callback(env, st, x, Seq::empty(), Some(t));
        Some(
            (
                s,
                match ret {
                    Some(r) => r,
                    None => t,
                },
            ),
        )
    } else if m == "okOr"@ {
        Some(
            if x.args.positional@.len() != 1 {
                (arity_error(st, x, 1), ty_result(t, Ty::TypeVar("E"@)))
            } else {
                let (s, e) = sem_expr(env, st, x.args.positional@[0]);
                (s, ty_result(t, e))
            },
        )
    } else {
        None
    }
}

/// A method of a result that holds a `t` or an `e`; none if there is no such
/// method.
pub open spec fn sem_result_method(env: EnvV, st: StateV, x: MethodCallExpr, t: Ty, e: Ty) -> Option<
    (StateV, Ty),
>
    decreases x, 5int,
{
    let m = x.method@;
    if m == "map"@ {
        let (s, ret) = sem_only_callback(env, st, x, seq![t], None);
        Some(
            (
                s,
                match ret {
                    Some(r) => ty_result(r, e),
                    None => ty_result(Ty::TypeVar("U"@), e),
                },
            ),
        )
    } else if m == "mapErr"@ {
        let (s, ret) = sem_only_callback(env, st, x, seq![e], None);
        Some(
            (
                s,
                match ret {
                    Some(r) => ty_result(t, r),
                    None => ty_result(t, Ty::TypeVar("F"@)),
                },
            ),
        )
    } else if m == "andThen"@ {
        let (s, ret) = sem_only_callback(env, st, x, seq![t], None);
        Some(chained(s, x, ret, "Result"@, ty_result(Ty::TypeVar("U"@), e)))
    } else if m == "orElse"@ {
        let (s, ret) = sem_only_callback(env, st, x, seq![e], None);
        Some(chained(s, x, ret, "Result"@, ty_result(t, Ty::TypeVar("F"@))))
    } else if m == "unwrapOrElse"@ {
        let (s, ret) = sem_only_callback(env, st, x, seq![e], Some(t));
        Some(
            (
                s,
                match ret {
                    Some(r) => r,
                    None => t,
                },
            ),
        )
    } else if m == "ok"@ {
        Some((sem_plain(env, st, x, Seq::empty()), ty_option(t)))
    } else if m == "err"@ {
        Some((sem_plain(env, st, x, Seq::empty()), ty_option(e)))
    } else {
        None
    }
}

/// What the type parameter `name` is bound to; itself if to nothing.
pub open spec fn bound_or_var(b: Bindings, name: Chars) -> Ty {
    match find(b, name) {
        Some(t) => t,
        None => Ty::TypeVar(name),
    }
}

/// The element type of a list or a list builder.
pub open spec fn element_of(t: Ty, b: Bindings) -> Ty {
    match find(b, "T"@) {
        Some(e) => e,
        None => match t {
            Ty::Generic(_, args) => if args.len() > 0 {
                args[0]
            } else {
                Ty::TypeVar("T"@)
            },
            _ => Ty::TypeVar("T"@),
        },
    }
}

/// A method of one of the language's own types; none if `t` is not one of
/// them, or is an `Option` or a `Result` without such a method.
pub open spec fn sem_builtin_method(env: EnvV, st: StateV, x: MethodCallExpr, t: Ty) -> Option<
    (StateV, Ty),
>
    decreases x, 6int,
{
    let (base, b) = base_and_bindings(env, t);
    let name = match base {
        Some(n) => n,
        None => show(t),
    };
    if name == "List"@ {
        Some(sem_list_method(env, st, x, element_of(t, b)))
    } else if name == "String"@ {
        Some(sem_string_method(env, st, x))
    } else if name == "Map"@ {
        Some(sem_map_method(env, st, x, bound_or_var(b, "K"@), bound_or_var(b, "V"@)))
    } else if name == "Option"@ {
        sem_option_method(env, st, x, bound_or_var(b, "T"@))
    } else if name == "Result"@ {
        sem_result_method(env, st, x, bound_or_var(b, "T"@), bound_or_var(b, "E"@))
    } else if name == "ListBuilder"@ {
        Some(sem_list_builder_method(env, st, x, element_of(t, b)))
    } else if name == "MapBuilder"@ {
        Some(sem_map_builder_method(env, st, x, bound_or_var(b, "K"@), bound_or_var(b, "V"@)))
    } else {
        None
    }
}

fn no_types() -> (r: Vec<Type>)
    ensures
        r.deep_view() == Seq::<Ty>::empty(),
{
    let r: Vec<Type> = Vec::new();
    assert(r.deep_view() =~= Seq::<Ty>::empty());
    r
}

fn bound_or_type_var(b: &Table<String, Type>, name: &str) -> (r: Type)
    ensures
        r@ == bound_or_var(b@, name@),
{
    match b.get(&name.to_owned()) {
        Some(t) => t.dup(),
        None => type_var(name),
    }
}

fn element_type(t: &Type, b: &Table<String, Type>) -> (r: Type)
    ensures
        r@ == element_of(t@, b@),
{
    match b.get(&"T".to_owned()) {
        Some(e) => e.dup(),
        None => match t {
            Type::Generic(_, args) => {
                if args.len() > 0 {
                    args[0].dup()
                } else {
                    type_var("T")
                }
            },
            _ => type_var("T"),
        },
    }
}

fn span_of_first_arg(x: &MethodCallExpr) -> (r: Span)
    ensures
        r == first_arg_span(*x),
{
    if x.args.positional.len() > 0 {
        x.args.positional[0].span()
    } else {
        x.span
    }
}

fn type_is_instance(t: &Type, name: &str) -> (r: bool)
    ensures
        r == is_instance(t@, name@),
{
    match t {
        Type::Generic(n, _) => same_text(n, name),
        _ => false,
    }
}

impl State {
    fn report_arity(&mut self, x: &MethodCallExpr, expected: usize)
        ensures
            final(self)@ == arity_error(old(self)@, *x, expected as nat),
    {
        self.error(
            cat6(
                "method `",
                &x.method,
                "` takes ",
                &count_text(expected),
                " argument(s), got ",
                &count_text(x.args.positional.len()),
            ),
            x.span,
        );
    }

    fn check_plain_args(
        &mut self,
        env: &Env<'_>,
        args: &Vec<Expr>,
        method: &str,
        params: &Vec<Type>,
    )
        ensures
            final(self)@ == sem_plain_n(
                env@,
                old(self)@,
                args@,
                method@,
                params.deep_view(),
                args@.len() as int,
            ),
        decreases args, 0int,
    {
        let mut i: usize = 0;
        while i < args.len()
            invariant
                i <= args.len(),
                self@ == sem_plain_n(
                    env@,
                    old(self)@,
                    args@,
                    method@,
                    params.deep_view(),
                    i as int,
                ),
            decreases args.len() - i,
        {
            let expected = type_at_index(params, i);
            let t = self.check_expr(env, &args[i]);
            if self.types_clash(env, &expected, &t) {
                self.error(
                    crate::text::cat2(
                        &cat7(
                            "argument ",
                            &count_text(i + 1),
                            " of `",
                            method,
                            "`: expected ",
                            &expected.text(),
                            " but got ",
                        ),
                        &t.text(),
                    ),
                    args[i].span(),
                );
            }
            i += 1;
        }
    }

    fn expect_args(&mut self, env: &Env<'_>, x: &MethodCallExpr, params: &Vec<Type>)
        ensures
            final(self)@ == sem_plain(env@, old(self)@, *x, params.deep_view()),
        decreases x, 3int,
    {
        if x.args.positional.len() != params.len() {
            self.report_arity(x, params.len());
        } else {
            self.check_plain_args(env, &x.args.positional, &x.method, params);
        }
    }

    fn check_callback_params(
        &mut self,
        env: &Env<'_>,
        method: &str,
        expected: &Vec<Type>,
        actual: &Vec<Type>,
        span: Span,
    )
        requires
            expected@.len() == actual@.len(),
        ensures
            final(self)@ == callback_params_n(
                env@,
                old(self)@,
                method@,
                expected.deep_view(),
                actual.deep_view(),
                span,
                expected.deep_view().len() as int,
            ),
    {
        let mut i: usize = 0;
        while i < expected.len()
            invariant
                i <= expected.len(),
                expected@.len() == actual@.len(),
                self@ == callback_params_n(
                    env@,
                    old(self)@,
                    method@,
                    expected.deep_view(),
                    actual.deep_view(),
                    span,
                    i as int,
                ),
            decreases expected.len() - i,
        {
            if self.types_clash(env, &expected[i], &actual[i]) {
                self.error(
                    crate::text::cat7(
                        method,
                        " callback parameter ",
                        &count_text(i + 1),
                        ": expected ",
                        &expected[i].text(),
                        " but got ",
                        &actual[i].text(),
                    ),
                    span,
                );
            }
            i += 1;
        }
    }

    fn fit_callback(
        &mut self,
        env: &Env<'_>,
        method: &str,
        expected: &Vec<Type>,
        expected_ret: &Option<Type>,
        params: &Vec<Type>,
        ret: &Type,
        span: Span,
    )
        ensures
            final(self)@ == callback_fits(
                env@,
                old(self)@,
                method@,
                expected.deep_view(),
                expected_ret.deep_view(),
                params.deep_view(),
                ret@,
                span,
            ),
    {
        if params.len() != expected.len() {
            self.error(
                cat5(
                    method,
                    " callback must take ",
                    &count_text(expected.len()),
                    " parameter(s), got ",
                    &count_text(params.len()),
                ),
                span,
            );
        } else {
            self.check_callback_params(env, method, expected, params, span);
        }
        if let Some(er) = expected_ret {
            if self.types_clash(env, er, ret) {
                self.error(
                    cat5(method, " callback must return ", &er.text(), ", got ", &ret.text()),
                    span,
                );
            }
        }
    }

    fn check_closure_arg(
        &mut self,
        env: &Env<'_>,
        x: &MethodCallExpr,
        i: usize,
        expected: &Vec<Type>,
        expected_ret: &Option<Type>,
    ) -> (r: Option<Type>)
        ensures
            (final(self)@, r.deep_view()) == sem_callback(
                env@,
                old(self)@,
                *x,
                i as int,
                expected.deep_view(),
                expected_ret.deep_view(),
            ),
        decreases x, 3int,
    {
        if i >= x.args.positional.len() {
            return None;
        }
        let t = self.check_expr(env, &x.args.positional[i]);
        if let Type::Function(params, ret) = &t {
            proof {
                crate::ty::lemma_function_view(t);
            }
            self.fit_callback(
                env,
                &x.method,
                expected,
                expected_ret,
                params,
                ret,
                x.args.positional[i].span(),
            );
            Some(ret.dup())
        } else {
            None
        }
    }

    fn check_only_closure(
        &mut self,
        env: &Env<'_>,
        x: &MethodCallExpr,
        expected: &Vec<Type>,
        expected_ret: &Option<Type>,
    ) -> (r: Option<Type>)
        ensures
            (final(self)@, r.deep_view()) == sem_only_callback(
                env@,
                old(self)@,
                *x,
                expected.deep_view(),
                expected_ret.deep_view(),
            ),
        decreases x, 4int,
    {
        if x.args.positional.len() != 1 {
            self.report_arity(x, 1);
            return None;
        }
        self.check_closure_arg(env, x, 0, expected, expected_ret)
    }

    fn chain(&mut self, x: &MethodCallExpr, ret: Option<Type>, name: &str, otherwise: Type) -> (r: Type)
        ensures
            (final(self)@, r@) == chained(
                old(self)@,
                *x,
                ret.deep_view(),
                name@,
                otherwise@,
            ),
    {
        match ret {
            Some(r) => {
                if !type_is_instance(&r, name) && !r.is_error() && !r.has_type_vars() {
                    self.error(
                        cat5(&x.method, " callback must return ", name, ", got ", &r.text()),
                        span_of_first_arg(x),
                    );
                }
                r
            },
            None => otherwise,
        }
    }

    fn flatten(&mut self, x: &MethodCallExpr, ret: Option<Type>) -> (r: Type)
        ensures
            (final(self)@, r@) == flattened(old(self)@, *x, ret.deep_view()),
    {
        match ret {
            Some(r) => {
                if let Type::Generic(n, args) = &r {
                    if same_text(n, "List") && args.len() == 1 {
                        return list_of(args[0].dup());
                    }
                }
                if !r.is_error() && !r.has_type_vars() {
                    self.error(
                        cat2("flatMap callback must return a List, got ", &r.text()),
                        span_of_first_arg(x),
                    );
                    return Type::Error;
                }
                list_of(type_var("U"))
            },
            None => list_of(type_var("U")),
        }
    }

    fn check_reduce(&mut self, env: &Env<'_>, x: &MethodCallExpr, elem: Type) -> (r: Type)
        ensures
            (final(self)@, r@) == sem_reduce(env@, old(self)@, *x, elem@),
        decreases x, 4int,
    {
        if x.args.positional.len() != 2 {
            self.report_arity(x, 2);
            return Type::Error;
        }
        let init = self.check_expr(env, &x.args.positional[0]);
        let ret = self.check_closure_arg(env, x, 1, &two(init.dup(), elem), &None);
        if let Some(r) = ret {
            if self.types_clash(env, &init, &r) {
                self.error(
                    crate::text::cat4(
                        "reduce callback return type: expected ",
                        &init.text(),
                        " but got ",
                        &r.text(),
                    ),
                    x.args.positional[1].span(),
                );
            }
        }
        init
    }

    fn reject_method(&mut self, x: &MethodCallExpr, owner: &str) -> (r: Type)
        ensures
            (final(self)@, r@) == unknown_method(old(self)@, *x, owner@),
    {
        self.error(cat5("no method `", &x.method, "` on type `", owner, "`"), x.span);
        Type::Error
    }

    fn check_list_method(&mut self, env: &Env<'_>, x: &MethodCallExpr, elem: Type) -> (r: Type)
        ensures
            (final(self)@, r@) == sem_list_method(env@, old(self)@, *x, elem@),
        decreases x, 5int,
    {
        let m: &str = &x.method;
        if same_text(m, "length") {
            self.expect_args(env, x, &no_types());
            Type::Int
        } else if same_text(m, "get") {
            self.expect_args(env, x, &one(Type::Int));
            elem
        } else if same_text(m, "push") {
            self.expect_args(env, x, &one(elem.dup()));
            list_of(elem)
        } else if same_text(m, "first") || same_text(m, "last") {
            self.expect_args(env, x, &no_types());
            option_of(elem)
        } else if same_text(m, "contains") {
            self.expect_args(env, x, &one(elem));
            Type::Bool
        } else if same_text(m, "take") || same_text(m, "drop") {
            self.expect_args(env, x, &one(Type::Int));
            list_of(elem)
        } else if same_text(m, "map") {
            match self.check_only_closure(env, x, &one(elem), &None) {
                Some(r) => list_of(r),
                None => list_of(type_var("U")),
            }
        } else if same_text(m, "flatMap") {
            let ret = self.check_only_closure(env, x, &one(elem), &None);
            self.flatten(x, ret)
        } else if same_text(m, "filter") {
            let _ = self.check_only_closure(env, x, &one(elem.dup()), &Some(Type::Bool));
            list_of(elem)
        } else if same_text(m, "find") {
            let _ = self.check_only_closure(env, x, &one(elem.dup()), &Some(Type::Bool));
            option_of(elem)
        } else if same_text(m, "any") || same_text(m, "all") {
            let _ = self.check_only_closure(env, x, &one(elem), &Some(Type::Bool));
            Type::Bool
        } else if same_text(m, "reduce") {
            self.check_reduce(env, x, elem)
        } else if same_text(m, "sortBy") {
            let _ = self.check_only_closure(
                env,
                x,
                &two(elem.dup(), elem.dup()),
                &Some(Type::Int),
            );
            list_of(elem)
        } else {
            self.reject_method(x, "List")
        }
    }

    fn check_list_builder_method(&mut self, env: &Env<'_>, x: &MethodCallExpr, elem: Type) -> (r: Type)
        ensures
            (final(self)@, r@) == sem_list_builder_method(env@, old(self)@, *x, elem@),
        decreases x, 5int,
    {
        if same_text(&x.method, "push") {
            self.expect_args(env, x, &one(elem));
            Type::Void
        } else if same_text(&x.method, "freeze") {
            self.expect_args(env, x, &no_types());
            list_of(elem)
        } else {
            self.reject_method(x, "ListBuilder")
        }
    }

    fn check_map_builder_method(
        &mut self,
        env: &Env<'_>,
        x: &MethodCallExpr,
        k: Type,
        v: Type,
    ) -> (r: Type)
        ensures
            (final(self)@, r@) == sem_map_builder_method(env@, old(self)@, *x, k@, v@),
        decreases x, 5int,
    {
        if same_text(&x.method, "set") {
            self.expect_args(env, x, &two(k, v));
            Type::Void
        } else if same_text(&x.method, "freeze") {
            self.expect_args(env, x, &no_types());
            map_of(k, v)
        } else {
            self.reject_method(x, "MapBuilder")
        }
    }

    fn check_map_method(&mut self, env: &Env<'_>, x: &MethodCallExpr, k: Type, v: Type) -> (r: Type)
        ensures
            (final(self)@, r@) == sem_map_method(env@, old(self)@, *x, k@, v@),
        decreases x, 5int,
    {
        let m: &str = &x.method;
        if same_text(m, "length") {
            self.expect_args(env, x, &no_types());
            Type::Int
        } else if same_text(m, "get") {
            self.expect_args(env, x, &one(k));
            option_of(v)
        } else if same_text(m, "contains") {
            self.expect_args(env, x, &one(k));
            Type::Bool
        } else if same_text(m, "set") {
            self.expect_args(env, x, &two(k.dup(), v.dup()));
            map_of(k, v)
        } else if same_text(m, "remove") {
            self.expect_args(env, x, &one(k.dup()));
            map_of(k, v)
        } else if same_text(m, "keys") {
            self.expect_args(env, x, &no_types());
            list_of(k)
        } else if same_text(m, "values") {
            self.expect_args(env, x, &no_types());
            list_of(v)
        } else {
            self.reject_method(x, "Map")
        }
    }

    fn check_string_method(&mut self, env: &Env<'_>, x: &MethodCallExpr) -> (r: Type)
        ensures
            (final(self)@, r@) == sem_string_method(env@, old(self)@, *x),
        decreases x, 5int,
    {
        let m: &str = &x.method;
        if same_text(m, "length") {
            self.expect_args(env, x, &no_types());
            Type::Int
        } else if same_text(m, "trim") || same_text(m, "toLowerCase") || same_text(
            m,
            "toUpperCase",
        ) {
            self.expect_args(env, x, &no_types());
            Type::String
        } else if same_text(m, "contains") || same_text(m, "startsWith") || same_text(
            m,
            "endsWith",
        ) {
            self.expect_args(env, x, &one(Type::String));
            Type::Bool
        } else if same_text(m, "indexOf") {
            self.expect_args(env, x, &one(Type::String));
            Type::Int
        } else if same_text(m, "split") {
            self.expect_args(env, x, &one(Type::String));
            list_of(Type::String)
        } else if same_text(m, "replace") {
            self.expect_args(env, x, &two(Type::String, Type::String));
            Type::String
        } else if same_text(m, "substring") {
            self.expect_args(env, x, &two(Type::Int, Type::Int));
            Type::String
        } else {
            self.reject_method(x, "String")
        }
    }

    fn check_option_method(&mut self, env: &Env<'_>, x: &MethodCallExpr, t: Type) -> (r: Option<Type>)
        ensures
            r is None ==> sem_option_method(env@, old(self)@, *x, t@) is None && final(self)@
                == old(self)@,
            r is Some ==> sem_option_method(env@, old(self)@, *x, t@) == Some(
                (final(self)@, r->0@),
            ),
        decreases x, 5int,
    {
        let m: &str = &x.method;
        if same_text(m, "map") {
            match self.check_only_closure(env, x, &one(t), &None) {
                Some(r) => Some(option_of(r)),
                None => Some(option_of(type_var("U"))),
            }
        } else if same_text(m, "andThen") {
            let ret = self.check_only_closure(env, x, &one(t), &None);
            Some(self.chain(x, ret, "Option", option_of(type_var("U"))))
        } else if same_text(m, "orElse") {
            let wanted = option_of(t.dup());
            match self.check_only_closure(env, x, &no_types(), &Some(wanted)) {
                Some(r) => Some(r),
                None => Some(option_of(t)),
            }
        } else if same_text(m, "filter") {
            let _ = self.check_only_closure(env, x, &one(t.dup()), &Some(Type::Bool));
            Some(option_of(t))
        } else if same_text(m, "unwrapOrElse") {
            match self.check_only_closure(env, x, &no_types(), &Some(t.dup())) {
                Some(r) => Some(r),
                None => Some(t),
            }
        } else if same_text(m, "okOr") {
            if x.args.positional.len() != 1 {
                self.report_arity(x, 1);
                Some(result_of(t, type_var("E")))
            } else {
                let e = self.check_expr(env, &x.args.positional[0]);
                Some(result_of(t, e))
            }
        } else {
            None
        }
    }

    fn check_result_method(&mut self, env: &Env<'_>, x: &MethodCallExpr, t: Type, e: Type) -> (r: Option<
        Type,
    >)
        ensures
            r is None ==> sem_result_method(env@, old(self)@, *x, t@, e@) is None && final(self)@
                == old(self)@,
            r is Some ==> sem_result_method(env@, old(self)@, *x, t@, e@) == Some(
                (final(self)@, r->0@),
            ),
        decreases x, 5int,
    {
        let m: &str = &x.method;
        if same_text(m, "map") {
            match self.check_only_closure(env, x, &one(t), &None) {
                Some(r) => Some(result_of(r, e)),
                None => Some(result_of(type_var("U"), e)),
            }
        } else if same_text(m, "mapErr") {
            match self.check_only_closure(env, x, &one(e), &None) {
                Some(r) => Some(result_of(t, r)),
                None => Some(result_of(t, type_var("F"))),
            }
        } else if same_text(m, "andThen") {
            let ret = self.check_only_closure(env, x, &one(t), &None);
            Some(self.chain(x, ret, "Result", result_of(type_var("U"), e)))
        } else if same_text(m, "orElse") {
            let ret = self.check_only_closure(env, x, &one(e), &None);
            Some(self.chain(x, ret, "Result", result_of(t, type_var("F"))))
        } else if same_text(m, "unwrapOrElse") {
            match self.check_only_closure(env, x, &one(e), &Some(t.dup())) {
                Some(r) => Some(r),
                None => Some(t),
            }
        } else if same_text(m, "ok") {
            self.expect_args(env, x, &no_types());
            Some(option_of(t))
        } else if same_text(m, "err") {
            self.expect_args(env, x, &no_types());
            Some(option_of(e))
        } else {
            None
        }
    }

    pub fn dispatch_builtin_method(&mut self, env: &Env<'_>, x: &MethodCallExpr, t: &Type) -> (r: Option<
        Type,
    >)
        ensures
            r is None ==> sem_builtin_method(env@, old(self)@, *x, t@) is None && final(self)@
                == old(self)@,
            r is Some ==> sem_builtin_method(env@, old(self)@, *x, t@) == Some(
                (final(self)@, r->0@),
            ),
        decreases x, 6int,
    {
        let (base, b) = env.extract_base_and_bindings(t);
        let name = match base {
            Some(n) => n,
            None => t.text(),
        };
        if same_text(&name, "List") {
            Some(self.check_list_method(env, x, element_type(t, &b)))
        } else if same_text(&name, "String") {
            Some(self.check_string_method(env, x))
        } else if same_text(&name, "Map") {
            Some(
                self.check_map_method(
                    env,
                    x,
                    bound_or_type_var(&b, "K"),
                    bound_or_type_var(&b, "V"),
                ),
            )
        } else if same_text(&name, "Option") {
            self.check_option_method(env, x, bound_or_type_var(&b, "T"))
        } else if same_text(&name, "Result") {
            self.check_result_method(
                env,
                x,
                bound_or_type_var(&b, "T"),
                bound_or_type_var(&b, "E"),
            )
        } else if same_text(&name, "ListBuilder") {
            Some(self.check_list_builder_method(env, x, element_type(t, &b)))
        } else if same_text(&name, "MapBuilder") {
            Some(
                self.check_map_builder_method(
                    env,
                    x,
                    bound_or_type_var(&b, "K"),
                    bound_or_type_var(&b, "V"),
                ),
            )
        } else {
            None
        }
    }
}

} // verus!
