//! What the methods of built-in types take and give.
use crate::ast::MethodCallExpr;
use crate::builtins::{
    callback_fits, sem_list_builder_method, sem_list_method, sem_map_builder_method, sem_map_method,
    sem_only_callback, sem_option_method, sem_plain, sem_plain_n, sem_result_method,
    sem_string_method,
};
use crate::check_expr::sem_expr;
use crate::check_types::compatible;
use crate::env::EnvV;
use crate::expr_laws::{law_builtin_call_fits, law_callback_fits};
use crate::fit_laws::{accepted, lemma_counts, silent};
use crate::state::StateV;
use crate::steady_bodies::law_expression_keeps;
use crate::steady_parts::kept_callback_fits;
use crate::types::Ty;
use vstd::prelude::*;

verus! {

broadcast use crate::steady::steps;

/// Whether a method is called with exactly these types: as many arguments, each
/// without a finding and fitting the type at its position.
#[verifier::opaque]
pub open spec fn takes(env: EnvV, st: StateV, x: MethodCallExpr, params: Seq<Ty>) -> bool {
    let args = x.args.positional@;
    args.len() == params.len() && forall|i: int|
        0 <= i < args.len() ==> accepted(
            env,
            sem_plain_n(env, st, args, x.method@, params, i),
            #[trigger] args[i],
            params[i],
        )
}

/// A built-in method adds no finding about its arguments exactly if it is called
/// with the types that it takes.
pub proof fn law_builtin_takes(env: EnvV, st: StateV, x: MethodCallExpr, params: Seq<Ty>)
    ensures
        silent(st, sem_plain(env, st, x, params)) <==> takes(env, st, x, params),
{
    reveal(takes);
    law_builtin_call_fits(env, st, x, params);
}

/// Whether the only argument is a callback without findings that can be called
/// with these types and gives what is needed of it. What is no function is not
/// held against this.
#[verifier::opaque]
pub open spec fn calls_back(
    env: EnvV,
    st: StateV,
    x: MethodCallExpr,
    params: Seq<Ty>,
    needed: Option<Ty>,
) -> bool {
    let args = x.args.positional@;
    let (s, t) = sem_expr(env, st, args[0]);
    &&& args.len() == 1
    &&& silent(st, s)
    &&& t matches Ty::Function(ps, r) ==> ps.len() == params.len() && (forall|i: int|
        0 <= i < params.len() ==> compatible(env, st.bounds, #[trigger] params[i], ps[i])) && (
    needed matches Some(n) ==> compatible(env, st.bounds, n, *r))
}

/// What a callback gives back.
pub open spec fn given_back(env: EnvV, st: StateV, x: MethodCallExpr) -> Option<Ty> {
    if x.args.positional@.len() != 1 {
        None
    } else {
        match sem_expr(env, st, x.args.positional@[0]).1 {
            Ty::Function(_, r) => Some(*r),
            _ => None,
        }
    }
}

/// A method with a callback alone adds no finding exactly if it is given one
/// that fits.
pub proof fn law_callback_method(
    env: EnvV,
    st: StateV,
    x: MethodCallExpr,
    params: Seq<Ty>,
    needed: Option<Ty>,
)
    ensures
        silent(st, sem_only_callback(env, st, x, params, needed).0) <==> calls_back(
            env,
            st,
            x,
            params,
            needed,
        ),
        sem_only_callback(env, st, x, params, needed).1 == given_back(env, st, x),
{
    reveal(calls_back);
    let args = x.args.positional@;
    if args.len() == 1 {
        let (s, t) = sem_expr(env, st, args[0]);
        law_expression_keeps(env, st, args[0]);
        lemma_counts(st, s);
        if let Ty::Function(ps, r) = t {
            let span = crate::ast::expr_span(args[0]);
            law_callback_fits(env, s, x.method@, params, needed, ps, *r, span);
            kept_callback_fits(env, s, x.method@, params, needed, ps, *r, span);
            lemma_counts(s, callback_fits(env, s, x.method@, params, needed, ps, *r, span));
        }
    }
}

/// What the methods of a list take and give; an unknown one is a finding.
pub proof fn law_list_methods(env: EnvV, st: StateV, x: MethodCallExpr, elem: Ty)
    ensures
        x.method@ == "length"@ ==> sem_list_method(env, st, x, elem).1 == Ty::Int && (silent(st, sem_list_method(env, st, x, elem).0) <==> takes(env, st, x, Seq::empty())),
        x.method@ == "get"@ ==> sem_list_method(env, st, x, elem).1 == elem && (silent(st, sem_list_method(env, st, x, elem).0) <==> takes(env, st, x, seq![Ty::Int])),
        x.method@ == "push"@ ==> sem_list_method(env, st, x, elem).1 == Ty::Generic("List"@, seq![elem]) && (silent(st, sem_list_method(env, st, x, elem).0) <==> takes(env, st, x, seq![elem])),
        x.method@ == "first"@ ==> sem_list_method(env, st, x, elem).1 == Ty::Generic("Option"@, seq![elem]) && (silent(st, sem_list_method(env, st, x, elem).0) <==> takes(env, st, x, Seq::empty())),
        x.method@ == "last"@ ==> sem_list_method(env, st, x, elem).1 == Ty::Generic("Option"@, seq![elem]) && (silent(st, sem_list_method(env, st, x, elem).0) <==> takes(env, st, x, Seq::empty())),
        x.method@ == "contains"@ ==> sem_list_method(env, st, x, elem).1 == Ty::Bool && (silent(st, sem_list_method(env, st, x, elem).0) <==> takes(env, st, x, seq![elem])),
        x.method@ == "take"@ ==> sem_list_method(env, st, x, elem).1 == Ty::Generic("List"@, seq![elem]) && (silent(st, sem_list_method(env, st, x, elem).0) <==> takes(env, st, x, seq![Ty::Int])),
        x.method@ == "drop"@ ==> sem_list_method(env, st, x, elem).1 == Ty::Generic("List"@, seq![elem]) && (silent(st, sem_list_method(env, st, x, elem).0) <==> takes(env, st, x, seq![Ty::Int])),
        (x.method@ != "length"@ && x.method@ != "get"@ && x.method@ != "push"@ && x.method@ != "first"@ && x.method@ != "last"@ && x.method@ != "contains"@ && x.method@ != "take"@ && x.method@ != "drop"@ && x.method@ != "map"@ && x.method@ != "flatMap"@ && x.method@ != "filter"@ && x.method@ != "find"@ && x.method@ != "any"@ && x.method@ != "all"@ && x.method@ != "reduce"@ && x.method@ != "sortBy"@) ==> !silent(st, sem_list_method(env, st, x, elem).0) && sem_list_method(env, st, x, elem).1 == Ty::Error,
{
    reveal_strlit("length");
    reveal_strlit("get");
    reveal_strlit("push");
    reveal_strlit("first");
    reveal_strlit("last");
    reveal_strlit("contains");
    reveal_strlit("take");
    reveal_strlit("drop");
    reveal_strlit("map");
    reveal_strlit("flatMap");
    reveal_strlit("filter");
    reveal_strlit("find");
    reveal_strlit("any");
    reveal_strlit("all");
    reveal_strlit("reduce");
    reveal_strlit("sortBy");
    assert("length"@[0] != "filter"@[0]);
    assert("length"@[0] != "reduce"@[0]);
    assert("length"@[0] != "sortBy"@[0]);
    assert("get"@[0] != "map"@[0]);
    assert("get"@[0] != "any"@[0]);
    assert("get"@[0] != "all"@[0]);
    assert("push"@[0] != "last"@[0]);
    assert("push"@[0] != "take"@[0]);
    assert("push"@[0] != "drop"@[0]);
    assert("push"@[0] != "find"@[0]);
    assert("last"@[0] != "take"@[0]);
    assert("last"@[0] != "drop"@[0]);
    assert("last"@[0] != "find"@[0]);
    assert("take"@[0] != "drop"@[0]);
    assert("take"@[0] != "find"@[0]);
    assert("drop"@[0] != "find"@[0]);
    assert("map"@[0] != "any"@[0]);
    assert("map"@[0] != "all"@[0]);
    assert("filter"@[0] != "reduce"@[0]);
    assert("filter"@[0] != "sortBy"@[0]);
    assert("any"@[1] != "all"@[1]);
    assert("reduce"@[0] != "sortBy"@[0]);
    law_builtin_takes(env, st, x, Seq::empty());
    law_builtin_takes(env, st, x, seq![Ty::Int]);
    law_builtin_takes(env, st, x, seq![elem]);
}

/// What the methods of a list with a callback take and give.
pub proof fn law_list_callbacks(env: EnvV, st: StateV, x: MethodCallExpr, elem: Ty)
    ensures
        x.method@ == "filter"@ ==> sem_list_method(env, st, x, elem).1 == Ty::Generic("List"@, seq![elem]) && (silent(st, sem_list_method(env, st, x, elem).0) <==> calls_back(env, st, x, seq![elem], Some(Ty::Bool))),
        x.method@ == "find"@ ==> sem_list_method(env, st, x, elem).1 == Ty::Generic("Option"@, seq![elem]) && (silent(st, sem_list_method(env, st, x, elem).0) <==> calls_back(env, st, x, seq![elem], Some(Ty::Bool))),
        x.method@ == "any"@ ==> sem_list_method(env, st, x, elem).1 == Ty::Bool && (silent(st, sem_list_method(env, st, x, elem).0) <==> calls_back(env, st, x, seq![elem], Some(Ty::Bool))),
        x.method@ == "all"@ ==> sem_list_method(env, st, x, elem).1 == Ty::Bool && (silent(st, sem_list_method(env, st, x, elem).0) <==> calls_back(env, st, x, seq![elem], Some(Ty::Bool))),
        x.method@ == "sortBy"@ ==> sem_list_method(env, st, x, elem).1 == Ty::Generic("List"@, seq![elem]) && (silent(st, sem_list_method(env, st, x, elem).0) <==> calls_back(env, st, x, seq![elem, elem], Some(Ty::Int))),
        x.method@ == "map"@ ==> (silent(st, sem_list_method(env, st, x, elem).0) <==> calls_back(env, st, x, seq![elem], None)) && (given_back(env, st, x) matches Some(r) ==> sem_list_method(env, st, x, elem).1 == Ty::Generic("List"@, seq![r])),
        x.method@ == "flatMap"@ ==> (given_back(env, st, x) matches Some(Ty::Generic(n, ts)) ==> n == "List"@ && ts.len() == 1 ==> sem_list_method(env, st, x, elem).1 == Ty::Generic("List"@, seq![ts[0]]) && (silent(st, sem_list_method(env, st, x, elem).0) <==> calls_back(env, st, x, seq![elem], None))),
{
    reveal_strlit("length");
    reveal_strlit("get");
    reveal_strlit("push");
    reveal_strlit("first");
    reveal_strlit("last");
    reveal_strlit("contains");
    reveal_strlit("take");
    reveal_strlit("drop");
    reveal_strlit("map");
    reveal_strlit("flatMap");
    reveal_strlit("filter");
    reveal_strlit("find");
    reveal_strlit("any");
    reveal_strlit("all");
    reveal_strlit("reduce");
    reveal_strlit("sortBy");
    assert("length"@[0] != "filter"@[0]);
    assert("length"@[0] != "reduce"@[0]);
    assert("length"@[0] != "sortBy"@[0]);
    assert("get"@[0] != "map"@[0]);
    assert("get"@[0] != "any"@[0]);
    assert("get"@[0] != "all"@[0]);
    assert("push"@[0] != "last"@[0]);
    assert("push"@[0] != "take"@[0]);
    assert("push"@[0] != "drop"@[0]);
    assert("push"@[0] != "find"@[0]);
    assert("last"@[0] != "take"@[0]);
    assert("last"@[0] != "drop"@[0]);
    assert("last"@[0] != "find"@[0]);
    assert("take"@[0] != "drop"@[0]);
    assert("take"@[0] != "find"@[0]);
    assert("drop"@[0] != "find"@[0]);
    assert("map"@[0] != "any"@[0]);
    assert("map"@[0] != "all"@[0]);
    assert("filter"@[0] != "reduce"@[0]);
    assert("filter"@[0] != "sortBy"@[0]);
    assert("any"@[1] != "all"@[1]);
    assert("reduce"@[0] != "sortBy"@[0]);
    law_callback_method(env, st, x, seq![elem], Some(Ty::Bool));
    law_callback_method(env, st, x, seq![elem], None);
    law_callback_method(env, st, x, seq![elem, elem], Some(Ty::Int));
}

/// What the methods of a map take and give; an unknown one is a finding.
pub proof fn law_map_methods(env: EnvV, st: StateV, x: MethodCallExpr, k: Ty, v: Ty)
    ensures
        x.method@ == "length"@ ==> sem_map_method(env, st, x, k, v).1 == Ty::Int && (silent(st, sem_map_method(env, st, x, k, v).0) <==> takes(env, st, x, Seq::empty())),
        x.method@ == "get"@ ==> sem_map_method(env, st, x, k, v).1 == Ty::Generic("Option"@, seq![v]) && (silent(st, sem_map_method(env, st, x, k, v).0) <==> takes(env, st, x, seq![k])),
        x.method@ == "contains"@ ==> sem_map_method(env, st, x, k, v).1 == Ty::Bool && (silent(st, sem_map_method(env, st, x, k, v).0) <==> takes(env, st, x, seq![k])),
        x.method@ == "set"@ ==> sem_map_method(env, st, x, k, v).1 == Ty::Generic("Map"@, seq![k, v]) && (silent(st, sem_map_method(env, st, x, k, v).0) <==> takes(env, st, x, seq![k, v])),
        x.method@ == "remove"@ ==> sem_map_method(env, st, x, k, v).1 == Ty::Generic("Map"@, seq![k, v]) && (silent(st, sem_map_method(env, st, x, k, v).0) <==> takes(env, st, x, seq![k])),
        x.method@ == "keys"@ ==> sem_map_method(env, st, x, k, v).1 == Ty::Generic("List"@, seq![k]) && (silent(st, sem_map_method(env, st, x, k, v).0) <==> takes(env, st, x, Seq::empty())),
        x.method@ == "values"@ ==> sem_map_method(env, st, x, k, v).1 == Ty::Generic("List"@, seq![v]) && (silent(st, sem_map_method(env, st, x, k, v).0) <==> takes(env, st, x, Seq::empty())),
        (x.method@ != "length"@ && x.method@ != "get"@ && x.method@ != "contains"@ && x.method@ != "set"@ && x.method@ != "remove"@ && x.method@ != "keys"@ && x.method@ != "values"@) ==> !silent(st, sem_map_method(env, st, x, k, v).0) && sem_map_method(env, st, x, k, v).1 == Ty::Error,
{
    reveal_strlit("length");
    reveal_strlit("get");
    reveal_strlit("contains");
    reveal_strlit("set");
    reveal_strlit("remove");
    reveal_strlit("keys");
    reveal_strlit("values");
    assert("length"@[0] != "remove"@[0]);
    assert("length"@[0] != "values"@[0]);
    assert("get"@[0] != "set"@[0]);
    assert("remove"@[0] != "values"@[0]);
    law_builtin_takes(env, st, x, Seq::empty());
    law_builtin_takes(env, st, x, seq![k]);
    law_builtin_takes(env, st, x, seq![k, v]);
}

/// What the methods of a string take and give; an unknown one is a finding.
pub proof fn law_string_methods(env: EnvV, st: StateV, x: MethodCallExpr)
    ensures
        x.method@ == "length"@ ==> sem_string_method(env, st, x).1 == Ty::Int && (silent(st, sem_string_method(env, st, x).0) <==> takes(env, st, x, Seq::empty())),
        x.method@ == "trim"@ ==> sem_string_method(env, st, x).1 == Ty::Str && (silent(st, sem_string_method(env, st, x).0) <==> takes(env, st, x, Seq::empty())),
        x.method@ == "toLowerCase"@ ==> sem_string_method(env, st, x).1 == Ty::Str && (silent(st, sem_string_method(env, st, x).0) <==> takes(env, st, x, Seq::empty())),
        x.method@ == "toUpperCase"@ ==> sem_string_method(env, st, x).1 == Ty::Str && (silent(st, sem_string_method(env, st, x).0) <==> takes(env, st, x, Seq::empty())),
        x.method@ == "contains"@ ==> sem_string_method(env, st, x).1 == Ty::Bool && (silent(st, sem_string_method(env, st, x).0) <==> takes(env, st, x, seq![Ty::Str])),
        x.method@ == "startsWith"@ ==> sem_string_method(env, st, x).1 == Ty::Bool && (silent(st, sem_string_method(env, st, x).0) <==> takes(env, st, x, seq![Ty::Str])),
        x.method@ == "endsWith"@ ==> sem_string_method(env, st, x).1 == Ty::Bool && (silent(st, sem_string_method(env, st, x).0) <==> takes(env, st, x, seq![Ty::Str])),
        x.method@ == "indexOf"@ ==> sem_string_method(env, st, x).1 == Ty::Int && (silent(st, sem_string_method(env, st, x).0) <==> takes(env, st, x, seq![Ty::Str])),
        x.method@ == "split"@ ==> sem_string_method(env, st, x).1 == Ty::Generic("List"@, seq![Ty::Str]) && (silent(st, sem_string_method(env, st, x).0) <==> takes(env, st, x, seq![Ty::Str])),
        x.method@ == "replace"@ ==> sem_string_method(env, st, x).1 == Ty::Str && (silent(st, sem_string_method(env, st, x).0) <==> takes(env, st, x, seq![Ty::Str, Ty::Str])),
        x.method@ == "substring"@ ==> sem_string_method(env, st, x).1 == Ty::Str && (silent(st, sem_string_method(env, st, x).0) <==> takes(env, st, x, seq![Ty::Int, Ty::Int])),
        (x.method@ != "length"@ && x.method@ != "trim"@ && x.method@ != "toLowerCase"@ && x.method@ != "toUpperCase"@ && x.method@ != "contains"@ && x.method@ != "startsWith"@ && x.method@ != "endsWith"@ && x.method@ != "indexOf"@ && x.method@ != "split"@ && x.method@ != "replace"@ && x.method@ != "substring"@) ==> !silent(st, sem_string_method(env, st, x).0) && sem_string_method(env, st, x).1 == Ty::Error,
{
    reveal_strlit("length");
    reveal_strlit("trim");
    reveal_strlit("toLowerCase");
    reveal_strlit("toUpperCase");
    reveal_strlit("contains");
    reveal_strlit("startsWith");
    reveal_strlit("endsWith");
    reveal_strlit("indexOf");
    reveal_strlit("split");
    reveal_strlit("replace");
    reveal_strlit("substring");
    assert("toLowerCase"@[2] != "toUpperCase"@[2]);
    assert("contains"@[0] != "endsWith"@[0]);
    assert("indexOf"@[0] != "replace"@[0]);
    law_builtin_takes(env, st, x, Seq::empty());
    law_builtin_takes(env, st, x, seq![Ty::Str]);
    law_builtin_takes(env, st, x, seq![Ty::Str, Ty::Str]);
    law_builtin_takes(env, st, x, seq![Ty::Int, Ty::Int]);
}

/// What the methods of a list builder take and give; an unknown one is a finding.
pub proof fn law_list_builder_methods(env: EnvV, st: StateV, x: MethodCallExpr, elem: Ty)
    ensures
        x.method@ == "push"@ ==> sem_list_builder_method(env, st, x, elem).1 == Ty::Void && (silent(st, sem_list_builder_method(env, st, x, elem).0) <==> takes(env, st, x, seq![elem])),
        x.method@ == "freeze"@ ==> sem_list_builder_method(env, st, x, elem).1 == Ty::Generic("List"@, seq![elem]) && (silent(st, sem_list_builder_method(env, st, x, elem).0) <==> takes(env, st, x, Seq::empty())),
        (x.method@ != "push"@ && x.method@ != "freeze"@) ==> !silent(st, sem_list_builder_method(env, st, x, elem).0) && sem_list_builder_method(env, st, x, elem).1 == Ty::Error,
{
    reveal_strlit("push");
    reveal_strlit("freeze");
    law_builtin_takes(env, st, x, seq![elem]);
    law_builtin_takes(env, st, x, Seq::empty());
}

/// What the methods of a map builder take and give; an unknown one is a finding.
pub proof fn law_map_builder_methods(env: EnvV, st: StateV, x: MethodCallExpr, k: Ty, v: Ty)
    ensures
        x.method@ == "set"@ ==> sem_map_builder_method(env, st, x, k, v).1 == Ty::Void && (silent(st, sem_map_builder_method(env, st, x, k, v).0) <==> takes(env, st, x, seq![k, v])),
        x.method@ == "freeze"@ ==> sem_map_builder_method(env, st, x, k, v).1 == Ty::Generic("Map"@, seq![k, v]) && (silent(st, sem_map_builder_method(env, st, x, k, v).0) <==> takes(env, st, x, Seq::empty())),
        (x.method@ != "set"@ && x.method@ != "freeze"@) ==> !silent(st, sem_map_builder_method(env, st, x, k, v).0) && sem_map_builder_method(env, st, x, k, v).1 == Ty::Error,
{
    reveal_strlit("set");
    reveal_strlit("freeze");
    law_builtin_takes(env, st, x, seq![k, v]);
    law_builtin_takes(env, st, x, Seq::empty());
}

/// What the methods of an option take and give.
pub proof fn law_option_methods(env: EnvV, st: StateV, x: MethodCallExpr, t: Ty)
    ensures
        x.method@ == "map"@ ==> (sem_option_method(env, st, x, t) matches Some(r) && (silent(st, r.0) <==> calls_back(env, st, x, seq![t], None)) && (given_back(env, st, x) matches Some(u) ==> r.1 == Ty::Generic("Option"@, seq![u]))),
        x.method@ == "filter"@ ==> (sem_option_method(env, st, x, t) matches Some(r) && (silent(st, r.0) <==> calls_back(env, st, x, seq![t], Some(Ty::Bool))) && r.1 == Ty::Generic("Option"@, seq![t])),
        x.method@ == "orElse"@ ==> (sem_option_method(env, st, x, t) matches Some(r) && (silent(st, r.0) <==> calls_back(env, st, x, Seq::empty(), Some(Ty::Generic("Option"@, seq![t])))) && (given_back(env, st, x) matches Some(u) ==> r.1 == u)),
        x.method@ == "unwrapOrElse"@ ==> (sem_option_method(env, st, x, t) matches Some(r) && (silent(st, r.0) <==> calls_back(env, st, x, Seq::empty(), Some(t))) && (given_back(env, st, x) matches Some(u) ==> r.1 == u)),
        x.method@ == "andThen"@ ==> (sem_option_method(env, st, x, t) matches Some(r) && (given_back(env, st, x) matches Some(Ty::Generic(n, ts)) ==> n == "Option"@ ==> r.1 == Ty::Generic(n, ts) && (silent(st, r.0) <==> calls_back(env, st, x, seq![t], None)))),
        x.method@ == "okOr"@ && x.args.positional@.len() == 1 ==> (sem_option_method(env, st, x, t) matches Some(r) && r.1 == Ty::Generic("Result"@, seq![t, sem_expr(env, st, x.args.positional@[0]).1])),
{
    reveal_strlit("map");
    reveal_strlit("andThen");
    reveal_strlit("orElse");
    reveal_strlit("filter");
    reveal_strlit("unwrapOrElse");
    reveal_strlit("okOr");
    assert("orElse"@[0] != "filter"@[0]);
    law_callback_method(env, st, x, seq![t], Some(Ty::Bool));
    law_callback_method(env, st, x, seq![t], None);
    law_callback_method(env, st, x, Seq::empty(), Some(Ty::Generic("Option"@, seq![t])));
    law_callback_method(env, st, x, Seq::empty(), Some(t));
}

/// What the methods of a result take and give.
pub proof fn law_result_methods(env: EnvV, st: StateV, x: MethodCallExpr, t: Ty, e: Ty)
    ensures
        x.method@ == "map"@ ==> (sem_result_method(env, st, x, t, e) matches Some(r) && (silent(st, r.0) <==> calls_back(env, st, x, seq![t], None)) && (given_back(env, st, x) matches Some(u) ==> r.1 == Ty::Generic("Result"@, seq![u, e]))),
        x.method@ == "mapErr"@ ==> (sem_result_method(env, st, x, t, e) matches Some(r) && (silent(st, r.0) <==> calls_back(env, st, x, seq![e], None)) && (given_back(env, st, x) matches Some(u) ==> r.1 == Ty::Generic("Result"@, seq![t, u]))),
        x.method@ == "andThen"@ ==> (sem_result_method(env, st, x, t, e) matches Some(r) && (given_back(env, st, x) matches Some(Ty::Generic(n, ts)) ==> n == "Result"@ ==> r.1 == Ty::Generic(n, ts) && (silent(st, r.0) <==> calls_back(env, st, x, seq![t], None)))),
        x.method@ == "orElse"@ ==> (sem_result_method(env, st, x, t, e) matches Some(r) && (given_back(env, st, x) matches Some(Ty::Generic(n, ts)) ==> n == "Result"@ ==> r.1 == Ty::Generic(n, ts) && (silent(st, r.0) <==> calls_back(env, st, x, seq![e], None)))),
        x.method@ == "unwrapOrElse"@ ==> (sem_result_method(env, st, x, t, e) matches Some(r) && (silent(st, r.0) <==> calls_back(env, st, x, seq![e], Some(t))) && (given_back(env, st, x) matches Some(u) ==> r.1 == u)),
        x.method@ == "ok"@ ==> (sem_result_method(env, st, x, t, e) matches Some(r) && r.1 == Ty::Generic("Option"@, seq![t]) && (silent(st, r.0) <==> takes(env, st, x, Seq::empty()))),
        x.method@ == "err"@ ==> (sem_result_method(env, st, x, t, e) matches Some(r) && r.1 == Ty::Generic("Option"@, seq![e]) && (silent(st, r.0) <==> takes(env, st, x, Seq::empty()))),
{
    reveal_strlit("map");
    reveal_strlit("mapErr");
    reveal_strlit("andThen");
    reveal_strlit("orElse");
    reveal_strlit("unwrapOrElse");
    reveal_strlit("ok");
    reveal_strlit("err");
    assert("map"@[0] != "err"@[0]);
    assert("mapErr"@[0] != "orElse"@[0]);
    law_callback_method(env, st, x, seq![t], None);
    law_callback_method(env, st, x, seq![e], None);
    law_callback_method(env, st, x, seq![e], Some(t));
    law_builtin_takes(env, st, x, Seq::empty());
}

} // verus!
