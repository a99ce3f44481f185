//! What is checked about the arguments of a call besides their own types:
//! names, counts, inferred type arguments and trait bounds.
use crate::ast::{expr_span, Expr};
use crate::check_types::{bound_name, compatible, name_for_bounds, UnifyError, UnifyErrorV};
use crate::env::{in_scope, named, satisfies, Env, EnvV};
use crate::info::{FunctionInfo, FunctionInfoV, TraitMethodInfo, TraitMethodInfoV};
use crate::pin::pinned;
use crate::span::Span;
use crate::state::{State, StateV};
use crate::table::{find, holds, put, Table};
use crate::text::{
    cat11, cat2, cat3, cat5, cat9, count_text, decimal, join, join_text, names_contain, push_view,
    set_view, Chars, Dup,
};
use crate::types::{
    all_settled, any_error, any_is_error, has_vars, show, subst, substitute, Bindings, Ty, Type,
};
use vstd::prelude::*;

verus! {

broadcast use crate::ty::view_of_type;

// ── Positions ────────────────────────────────────────────────────────

/// The type at position `i`.
pub open spec fn type_at(ts: Seq<Ty>, i: int) -> Ty {
    if 0 <= i < ts.len() {
        ts[i]
    } else {
        Ty::Error
    }
}

pub fn type_at_index(ts: &Vec<Type>, i: usize) -> (r: Type)
    ensures
        r@ == type_at(ts.deep_view(), i as int),
{
    if i < ts.len() {
        ts[i].dup()
    } else {
        Type::Error
    }
}

/// The name at position `i`.
pub open spec fn name_at(names: Seq<Chars>, i: int) -> Chars {
    if 0 <= i < names.len() {
        names[i]
    } else {
        Seq::empty()
    }
}

pub fn name_at_index(names: &Vec<String>, i: usize) -> (r: String)
    ensures
        r@ == name_at(names.deep_view(), i as int),
{
    if i < names.len() {
        names[i].clone()
    } else {
        let r = String::new();
        assert(r@ =~= Seq::<char>::empty());
        r
    }
}

/// The first position of `name` at or after `i`; the number of names if
/// there is none.
pub open spec fn name_position(names: Seq<Chars>, name: Chars, i: int) -> int
    decreases names.len() - i,
{
    if i < 0 || i >= names.len() {
        names.len() as int
    } else if names[i] == name {
        i
    } else {
        name_position(names, name, i + 1)
    }
}

pub fn index_of_name(names: &Vec<String>, name: &String) -> (r: usize)
    ensures
        r == name_position(names.deep_view(), name@, 0),
        r <= names.len(),
{
    let mut i: usize = 0;
    while i < names.len()
        invariant
            i <= names.len(),
            name_position(names.deep_view(), name@, 0) == name_position(
                names.deep_view(),
                name@,
                i as int,
            ),
        decreases names.len() - i,
    {
        if names[i] == *name {
            return i;
        }
        i += 1;
    }
    i
}

// ── Named arguments ──────────────────────────────────────────────────

/// Whether one of the first `k` named arguments is called `name`.
pub open spec fn appears(named_args: Seq<(String, Expr)>, name: Chars, k: int) -> bool {
    exists|j: int| 0 <= j < k && j < named_args.len() && (#[trigger] named_args[j]).0@ == name
}

fn name_appears(named_args: &Vec<(String, Expr)>, name: &String, k: usize) -> (r: bool)
    requires
        k <= named_args.len(),
    ensures
        r == appears(named_args@, name@, k as int),
{
    let mut j: usize = 0;
    while j < k
        invariant
            j <= k <= named_args.len(),
            forall|q: int| 0 <= q < j ==> (#[trigger] named_args@[q]).0@ != name@,
        decreases k - j,
    {
        if named_args[j].0 == *name {
            return true;
        }
        j += 1;
    }
    false
}

/// Duplicate and unknown names among the first `n` named arguments.
pub open spec fn names_known_n(
    st: StateV,
    fname: Chars,
    names: Seq<Chars>,
    named_args: Seq<(String, Expr)>,
    n: int,
) -> StateV
    decreases n,
{
    if n <= 0 || n > named_args.len() {
        st
    } else {
        let name = named_args[n - 1].0@;
        let span = expr_span(named_args[n - 1].1);
        names_known_n(st, fname, names, named_args, n - 1).error_if(
            appears(named_args, name, n - 1),
            "duplicate named argument `"@ + name + "`"@,
            span,
        ).error_if(
            !names.contains(name),
            "function `"@ + fname + "` has no parameter named `"@ + name + "`"@,
            span,
        )
    }
}

/// The first `n` named arguments that repeat a positional one.
pub open spec fn names_free_n(
    st: StateV,
    names: Seq<Chars>,
    named_args: Seq<(String, Expr)>,
    positional: nat,
    n: int,
) -> StateV
    decreases n,
{
    if n <= 0 || n > named_args.len() {
        st
    } else {
        let name = named_args[n - 1].0@;
        let i = name_position(names, name, 0);
        names_free_n(st, names, named_args, positional, n - 1).error_if(
            i < names.len() && i < positional,
            "parameter `"@ + name + "` already provided as positional argument "@ + decimal(
                (i + 1) as nat,
            ),
            expr_span(named_args[n - 1].1),
        )
    }
}

/// The named arguments checked for duplicates, unknown names and overlap with
/// positional arguments.
pub open spec fn names_validated(
    st: StateV,
    fname: Chars,
    names: Seq<Chars>,
    named_args: Seq<(String, Expr)>,
    positional: nat,
) -> StateV {
    names_free_n(
        names_known_n(st, fname, names, named_args, named_args.len() as int),
        names,
        named_args,
        positional,
        named_args.len() as int,
    )
}

/// Whether parameter `i` gets a value: from a positional or a named argument,
/// or from its default.
pub open spec fn covered(
    names: Seq<Chars>,
    defaults: Seq<(usize, Expr)>,
    positional: nat,
    named_args: Seq<(String, Expr)>,
    i: int,
) -> bool {
    ||| i < positional
    ||| exists|j: int|
        0 <= j < named_args.len() && name_position(names, (#[trigger] named_args[j]).0@, 0) == i
    ||| holds(defaults, i as usize)
}

/// Those of the first `n` parameters that get no value.
pub open spec fn missing_n(
    names: Seq<Chars>,
    defaults: Seq<(usize, Expr)>,
    positional: nat,
    named_args: Seq<(String, Expr)>,
    n: int,
) -> Seq<Chars>
    decreases n,
{
    if n <= 0 {
        Seq::empty()
    } else {
        let rest = missing_n(names, defaults, positional, named_args, n - 1);
        if covered(names, defaults, positional, named_args, n - 1) {
            rest
        } else {
            rest.push(name_at(names, n - 1))
        }
    }
}

fn is_covered(
    names: &Vec<String>,
    defaults: &Table<usize, &Expr>,
    positional: usize,
    named_args: &Vec<(String, Expr)>,
    i: usize,
) -> (r: bool)
    ensures
        r == covered(names.deep_view(), defaults@, positional as nat, named_args@, i as int),
{
    if i < positional || defaults.has(&i) {
        return true;
    }
    let mut j: usize = 0;
    while j < named_args.len()
        invariant
            j <= named_args.len(),
            forall|q: int|
                0 <= q < j ==> name_position(
                    names.deep_view(),
                    (#[trigger] named_args@[q]).0@,
                    0,
                ) != i,
        decreases named_args.len() - j,
    {
        if index_of_name(names, &named_args[j].0) == i {
            return true;
        }
        j += 1;
    }
    false
}

pub fn missing_arguments(
    names: &Vec<String>,
    defaults: &Table<usize, &Expr>,
    positional: usize,
    named_args: &Vec<(String, Expr)>,
    total: usize,
) -> (r: Vec<String>)
    ensures
        r.deep_view() == missing_n(
            names.deep_view(),
            defaults@,
            positional as nat,
            named_args@,
            total as int,
        ),
{
    let mut out: Vec<String> = Vec::new();
    assert(out.deep_view() =~= Seq::<Chars>::empty());
    let mut i: usize = 0;
    while i < total
        invariant
            i <= total,
            out.deep_view() == missing_n(
                names.deep_view(),
                defaults@,
                positional as nat,
                named_args@,
                i as int,
            ),
        decreases total - i,
    {
        if !is_covered(names, defaults, positional, named_args, i) {
            push_view(&mut out, name_at_index(names, i));
        }
        i += 1;
    }
    out
}

impl State {
    pub fn validate_named_args(
        &mut self,
        fname: &str,
        names: &Vec<String>,
        named_args: &Vec<(String, Expr)>,
        positional: usize,
    )
        ensures
            final(self)@ == names_validated(
                old(self)@,
                fname@,
                names.deep_view(),
                named_args@,
                positional as nat,
            ),
    {
        let mut i: usize = 0;
        while i < named_args.len()
            invariant
                i <= named_args.len(),
                self@ == names_known_n(
                    old(self)@,
                    fname@,
                    names.deep_view(),
                    named_args@,
                    i as int,
                ),
            decreases named_args.len() - i,
        {
            let name = &named_args[i].0;
            let span = named_args[i].1.span();
            if name_appears(named_args, name, i) {
                self.error(cat3("duplicate named argument `", name, "`"), span);
            }
            if !names_contain(names, name) {
                self.error(
                    cat5("function `", fname, "` has no parameter named `", name, "`"),
                    span,
                );
            }
            i += 1;
        }
        let ghost between = self@;
        let mut k: usize = 0;
        while k < named_args.len()
            invariant
                k <= named_args.len(),
                self@ == names_free_n(
                    between,
                    names.deep_view(),
                    named_args@,
                    positional as nat,
                    k as int,
                ),
            decreases named_args.len() - k,
        {
            let name = &named_args[k].0;
            let at: usize = index_of_name(names, name);
            if at < names.len() && at < positional {
                self.error(
                    crate::text::cat4(
                        "parameter `",
                        name,
                        "` already provided as positional argument ",
                        &count_text(at + 1),
                    ),
                    named_args[k].1.span(),
                );
            }
            k += 1;
        }
    }
}

// ── Generic calls ────────────────────────────────────────────────────

/// The types, filled up with `Error` to `n` of them.
pub open spec fn padded(ts: Seq<Ty>, n: nat) -> Seq<Ty>
    decreases n - ts.len(),
{
    if ts.len() >= n {
        ts
    } else {
        padded(ts.push(Ty::Error), n)
    }
}

pub fn pad_types(ts: &mut Vec<Type>, n: usize)
    ensures
        final(ts).deep_view() == padded(old(ts).deep_view(), n as nat),
{
    while ts.len() < n
        invariant
            padded(old(ts).deep_view(), n as nat) == padded(ts.deep_view(), n as nat),
        decreases n - ts.len(),
    {
        push_view(ts, Type::Error);
    }
}

/// The argument types, with the declared type for each of the first `n`
/// parameters that only its default covers.
pub open spec fn defaults_filled_n(
    f: FunctionInfoV,
    positional: nat,
    named_args: Seq<(String, Expr)>,
    ts: Seq<Ty>,
    n: int,
) -> Seq<Ty>
    decreases n,
{
    if n <= 0 || n > ts.len() {
        ts
    } else {
        let rest = defaults_filled_n(f, positional, named_args, ts, n - 1);
        let i = n - 1;
        if rest[i] == Ty::Error && holds(f.default_param_exprs, i as usize) && i >= positional
            && !appears(named_args, name_at(f.param_names, i), named_args.len() as int) {
            rest.update(i, type_at(f.params, i))
        } else {
            rest
        }
    }
}

pub fn fill_defaults(
    f: &FunctionInfo<'_>,
    positional: usize,
    named_args: &Vec<(String, Expr)>,
    ts: &mut Vec<Type>,
)
    ensures
        final(ts).deep_view() == defaults_filled_n(
            f.deep_view(),
            positional as nat,
            named_args@,
            old(ts).deep_view(),
            old(ts).deep_view().len() as int,
        ),
{
    let n: usize = ts.len();
    let mut i: usize = 0;
    while i < n
        invariant
            i <= n,
            n == ts.len(),
            n == old(ts).deep_view().len(),
            ts.deep_view() == defaults_filled_n(
                f.deep_view(),
                positional as nat,
                named_args@,
                old(ts).deep_view(),
                i as int,
            ),
        decreases n - i,
    {
        if ts[i].is_error() && f.default_param_exprs.has(&i) && i >= positional && !name_appears(
            named_args,
            &name_at_index(&f.param_names, i),
            named_args.len(),
        ) {
            set_view(ts, i, type_at_index(&f.params, i));
        }
        i += 1;
    }
}

/// The error about argument `i` of a call.
pub open spec fn argument_message(i: nat, fname: Chars, expected: Ty, actual: Ty) -> Chars {
    "argument "@ + decimal(i + 1) + " of `"@ + fname + "`: expected `"@ + show(expected)
        + "` but got `"@ + show(actual) + "`"@
}

pub fn argument_text(i: usize, fname: &str, expected: &Type, actual: &Type) -> (r: String)
    requires
        i < usize::MAX,
    ensures
        r@ == argument_message(i as nat, fname@, expected@, actual@),
{
    cat9(
        "argument ",
        &count_text(i + 1),
        " of `",
        fname,
        "`: expected `",
        &expected.text(),
        "` but got `",
        &actual.text(),
        "`",
    )
}

/// The error about the argument for the parameter `name`.
pub open spec fn named_argument_message(
    name: Chars,
    fname: Chars,
    expected: Ty,
    actual: Ty,
) -> Chars {
    "named argument `"@ + name + "` of `"@ + fname + "`: expected `"@ + show(expected)
        + "` but got `"@ + show(actual) + "`"@
}

pub fn named_argument_text(name: &str, fname: &str, expected: &Type, actual: &Type) -> (r: String)
    ensures
        r@ == named_argument_message(name@, fname@, expected@, actual@),
{
    cat9(
        "named argument `",
        name,
        "` of `",
        fname,
        "`: expected `",
        &expected.text(),
        "` but got `",
        &actual.text(),
        "`",
    )
}

/// Whether an argument of type `actual` cannot go where `expected` is wanted,
/// once inference has left no type variable in `expected`.
pub open spec fn misfit(env: EnvV, st: StateV, expected: Ty, actual: Ty) -> bool {
    !has_vars(expected) && !compatible(env, st.bounds, expected, actual)
}

/// The first `n` positional arguments held against the inferred parameter
/// types.
pub open spec fn fitted_n(
    env: EnvV,
    st: StateV,
    args: Seq<Expr>,
    fname: Chars,
    params: Seq<Ty>,
    b: Bindings,
    ts: Seq<Ty>,
    n: int,
) -> StateV
    decreases n,
{
    if n <= 0 || n > args.len() {
        st
    } else {
        let s = fitted_n(env, st, args, fname, params, b, ts, n - 1);
        let expected = subst(type_at(params, n - 1), b);
        let actual = type_at(ts, n - 1);
        pinned(
            env,
            s.error_if(
                misfit(env, s, expected, actual),
                argument_message((n - 1) as nat, fname, expected, actual),
                expr_span(args[n - 1]),
            ),
            args[n - 1],
            expected,
        )
    }
}

/// The first `n` named arguments held against the inferred parameter types.
pub open spec fn named_fitted_n(
    env: EnvV,
    st: StateV,
    named_args: Seq<(String, Expr)>,
    fname: Chars,
    names: Seq<Chars>,
    params: Seq<Ty>,
    b: Bindings,
    ts: Seq<Ty>,
    n: int,
) -> StateV
    decreases n,
{
    if n <= 0 || n > named_args.len() {
        st
    } else {
        let s = named_fitted_n(env, st, named_args, fname, names, params, b, ts, n - 1);
        let i = name_position(names, named_args[n - 1].0@, 0);
        if i < names.len() {
            let expected = subst(type_at(params, i), b);
            let actual = type_at(ts, i);
            pinned(
                env,
                s.error_if(
                    misfit(env, s, expected, actual),
                    named_argument_message(named_args[n - 1].0@, fname, expected, actual),
                    expr_span(named_args[n - 1].1),
                ),
                named_args[n - 1].1,
                expected,
            )
        } else {
            s
        }
    }
}

/// The first `n` traits that a type argument has to implement.
pub open spec fn traits_held_n(
    env: EnvV,
    st: StateV,
    concrete: Chars,
    traits: Seq<Chars>,
    span: Span,
    n: int,
) -> StateV
    decreases n,
{
    if n <= 0 || n > traits.len() {
        st
    } else {
        traits_held_n(env, st, concrete, traits, span, n - 1).error_if(
            !satisfies(env, concrete, traits[n - 1]),
            "type `"@ + concrete + "` does not implement trait `"@ + traits[n - 1] + "`"@,
            span,
        )
    }
}

/// The first `n` bounds of the type parameters.
pub open spec fn bounds_held_n(
    env: EnvV,
    st: StateV,
    bounds: Seq<(Chars, Seq<Chars>)>,
    b: Bindings,
    span: Span,
    n: int,
) -> StateV
    decreases n,
{
    if n <= 0 || n > bounds.len() {
        st
    } else {
        let s = bounds_held_n(env, st, bounds, b, span, n - 1);
        match find(b, bounds[n - 1].0) {
            Some(t) => traits_held_n(
                env,
                s,
                bound_name(t),
                bounds[n - 1].1,
                span,
                bounds[n - 1].1.len() as int,
            ),
            None => s,
        }
    }
}

impl State {
    fn is_misfit(&self, env: &Env<'_>, expected: &Type, actual: &Type) -> (r: bool)
        ensures
            r == misfit(env@, self@, expected@, actual@),
    {
        !expected.has_type_vars() && !self.types_compatible(env, expected, actual)
    }

    pub fn fit_arguments(
        &mut self,
        env: &Env<'_>,
        args: &Vec<Expr>,
        fname: &str,
        params: &Vec<Type>,
        b: &Table<String, Type>,
        ts: &Vec<Type>,
    )
        ensures
            final(self)@ == fitted_n(
                env@,
                old(self)@,
                args@,
                fname@,
                params.deep_view(),
                b@,
                ts.deep_view(),
                args@.len() as int,
            ),
    {
        let mut i: usize = 0;
        while i < args.len()
            invariant
                i <= args.len(),
                self@ == fitted_n(
                    env@,
                    old(self)@,
                    args@,
                    fname@,
                    params.deep_view(),
                    b@,
                    ts.deep_view(),
                    i as int,
                ),
            decreases args.len() - i,
        {
            let expected = substitute(&type_at_index(params, i), b);
            let actual = type_at_index(ts, i);
            if self.is_misfit(env, &expected, &actual) {
                self.error(argument_text(i, fname, &expected, &actual), args[i].span());
            }
            self.pin_inferred_type_to_annotation(env, &args[i], &expected);
            i += 1;
        }
    }

    pub fn fit_named_arguments(
        &mut self,
        env: &Env<'_>,
        named_args: &Vec<(String, Expr)>,
        fname: &str,
        names: &Vec<String>,
        params: &Vec<Type>,
        b: &Table<String, Type>,
        ts: &Vec<Type>,
    )
        ensures
            final(self)@ == named_fitted_n(
                env@,
                old(self)@,
                named_args@,
                fname@,
                names.deep_view(),
                params.deep_view(),
                b@,
                ts.deep_view(),
                named_args@.len() as int,
            ),
    {
        let mut k: usize = 0;
        while k < named_args.len()
            invariant
                k <= named_args.len(),
                self@ == named_fitted_n(
                    env@,
                    old(self)@,
                    named_args@,
                    fname@,
                    names.deep_view(),
                    params.deep_view(),
                    b@,
                    ts.deep_view(),
                    k as int,
                ),
            decreases named_args.len() - k,
        {
            let i: usize = index_of_name(names, &named_args[k].0);
            if i < names.len() {
                let expected = substitute(&type_at_index(params, i), b);
                let actual = type_at_index(ts, i);
                if self.is_misfit(env, &expected, &actual) {
                    self.error(
                        named_argument_text(&named_args[k].0, fname, &expected, &actual),
                        named_args[k].1.span(),
                    );
                }
                self.pin_inferred_type_to_annotation(env, &named_args[k].1, &expected);
            }
            k += 1;
        }
    }

    fn hold_traits(
        &mut self,
        env: &Env<'_>,
        concrete: &String,
        traits: &Vec<String>,
        span: Span,
    )
        ensures
            final(self)@ == traits_held_n(
                env@,
                old(self)@,
                concrete@,
                traits.deep_view(),
                span,
                traits.deep_view().len() as int,
            ),
    {
        let mut i: usize = 0;
        while i < traits.len()
            invariant
                i <= traits.len(),
                self@ == traits_held_n(
                    env@,
                    old(self)@,
                    concrete@,
                    traits.deep_view(),
                    span,
                    i as int,
                ),
            decreases traits.len() - i,
        {
            if !env.has_bound_impl(concrete, &traits[i]) {
                self.error(
                    cat5("type `", concrete, "` does not implement trait `", &traits[i], "`"),
                    span,
                );
            }
            i += 1;
        }
    }

    pub fn hold_bounds(
        &mut self,
        env: &Env<'_>,
        bounds: &Vec<(String, Vec<String>)>,
        b: &Table<String, Type>,
        span: Span,
    )
        ensures
            final(self)@ == bounds_held_n(
                env@,
                old(self)@,
                bounds.deep_view(),
                b@,
                span,
                bounds.deep_view().len() as int,
            ),
    {
        let mut i: usize = 0;
        while i < bounds.len()
            invariant
                i <= bounds.len(),
                self@ == bounds_held_n(
                    env@,
                    old(self)@,
                    bounds.deep_view(),
                    b@,
                    span,
                    i as int,
                ),
            decreases bounds.len() - i,
        {
            if let Some(t) = b.get(&bounds[i].0) {
                self.hold_traits(env, &name_for_bounds(t), &bounds[i].1, span);
            }
            i += 1;
        }
    }
}

// ── Recording type arguments ─────────────────────────────────────────

/// What the first `n` failures of inference report.
pub open spec fn unify_reported_n(
    st: StateV,
    callee: Chars,
    errors: Seq<(usize, UnifyErrorV)>,
    span: Span,
    n: int,
) -> StateV
    decreases n,
{
    if n <= 0 || n > errors.len() {
        st
    } else {
        let s = unify_reported_n(st, callee, errors, span, n - 1);
        let i = errors[n - 1].0 as nat;
        match errors[n - 1].1 {
            UnifyErrorV::Conflict { param, existing, incoming } => s.error(
                "argument "@ + decimal(i + 1) + " of `"@ + callee
                    + "`: conflicting bindings for type parameter `"@ + param + "` (was `"@ + show(
                    existing,
                ) + "`, now `"@ + show(incoming) + "`)"@,
                span,
            ),
            UnifyErrorV::OccursCheck { param, incoming } => s.error(
                "argument "@ + decimal(i + 1) + " of `"@ + callee
                    + "`: cannot bind type parameter `"@ + param + "` to `"@ + show(incoming)
                    + "` (recursive type)"@,
                span,
            ),
            UnifyErrorV::Mismatch => s,
        }
    }
}

/// Those of the first `n` type parameters that inference left open, in
/// backquotes.
pub open spec fn unresolved_n(params: Seq<Chars>, b: Bindings, n: int) -> Seq<Chars>
    decreases n,
{
    if n <= 0 || n > params.len() {
        Seq::empty()
    } else {
        let rest = unresolved_n(params, b, n - 1);
        if holds(b, params[n - 1]) {
            rest
        } else {
            rest.push("`"@ + params[n - 1] + "`"@)
        }
    }
}

/// What the first `n` type parameters are bound to, as far as they are.
pub open spec fn bound_types_n(params: Seq<Chars>, b: Bindings, n: int) -> Seq<Ty>
    decreases n,
{
    if n <= 0 || n > params.len() {
        Seq::empty()
    } else {
        let rest = bound_types_n(params, b, n - 1);
        match find(b, params[n - 1]) {
            Some(t) => rest.push(t),
            None => rest,
        }
    }
}

/// What the first `n` type parameters stand for; one that is not bound stands
/// for itself.
pub open spec fn instantiated_n(params: Seq<Chars>, b: Bindings, n: int) -> Seq<Ty>
    decreases n,
{
    if n <= 0 || n > params.len() {
        Seq::empty()
    } else {
        let rest = instantiated_n(params, b, n - 1);
        match find(b, params[n - 1]) {
            Some(t) => rest.push(t),
            None => rest.push(Ty::TypeVar(params[n - 1])),
        }
    }
}

/// The error about type parameters that no argument determines.
pub open spec fn uninferred_message(unresolved: Seq<Chars>, callee: Chars) -> Chars {
    if unresolved.len() == 1 {
        "cannot infer type parameter "@ + join(unresolved, ", "@) + " for call to `"@ + callee
            + "`; no argument constrains it"@
    } else {
        "cannot infer type parameters "@ + join(unresolved, ", "@) + " for call to `"@ + callee
            + "`; no argument constrains them"@
    }
}

/// The outcome of inference for a generic call: failures and open type
/// parameters are reported, the latter only if no argument is in error; the
/// type arguments are recorded if they are complete.
pub open spec fn type_args_recorded(
    st: StateV,
    callee: Chars,
    params: Seq<Chars>,
    b: Bindings,
    errors: Seq<(usize, UnifyErrorV)>,
    ts: Seq<Ty>,
    span: Span,
) -> StateV {
    let s = unify_reported_n(st, callee, errors, span, errors.len() as int);
    let unresolved = unresolved_n(params, b, params.len() as int);
    let ordered = bound_types_n(params, b, params.len() as int);
    if unresolved.len() > 0 && !any_error(ts) {
        s.error(uninferred_message(unresolved, callee), span)
    } else if unresolved.len() > 0 || errors.len() > 0 || !all_settled(ordered, s.type_params) {
        s
    } else {
        StateV { call_type_args: put(s.call_type_args, span, ordered), ..s }
    }
}

fn unresolved_params(params: &Vec<String>, b: &Table<String, Type>) -> (r: Vec<String>)
    ensures
        r.deep_view() == unresolved_n(params.deep_view(), b@, params.deep_view().len() as int),
{
    let mut out: Vec<String> = Vec::new();
    assert(out.deep_view() =~= Seq::<Chars>::empty());
    let mut i: usize = 0;
    while i < params.len()
        invariant
            i <= params.len(),
            out.deep_view() == unresolved_n(params.deep_view(), b@, i as int),
        decreases params.len() - i,
    {
        if !b.has(&params[i]) {
            push_view(&mut out, cat3("`", &params[i], "`"));
        }
        i += 1;
    }
    out
}

fn bound_types(params: &Vec<String>, b: &Table<String, Type>) -> (r: Vec<Type>)
    ensures
        r.deep_view() == bound_types_n(params.deep_view(), b@, params.deep_view().len() as int),
{
    let mut out: Vec<Type> = Vec::new();
    assert(out.deep_view() =~= Seq::<Ty>::empty());
    let mut i: usize = 0;
    while i < params.len()
        invariant
            i <= params.len(),
            out.deep_view() == bound_types_n(params.deep_view(), b@, i as int),
        decreases params.len() - i,
    {
        if let Some(t) = b.get(&params[i]) {
            push_view(&mut out, t.dup());
        }
        i += 1;
    }
    out
}

pub fn instantiate(params: &Vec<String>, b: &Table<String, Type>) -> (r: Vec<Type>)
    ensures
        r.deep_view() == instantiated_n(params.deep_view(), b@, params.deep_view().len() as int),
{
    let mut out: Vec<Type> = Vec::new();
    assert(out.deep_view() =~= Seq::<Ty>::empty());
    let mut i: usize = 0;
    while i < params.len()
        invariant
            i <= params.len(),
            out.deep_view() == instantiated_n(params.deep_view(), b@, i as int),
        decreases params.len() - i,
    {
        match b.get(&params[i]) {
            Some(t) => push_view(&mut out, t.dup()),
            None => push_view(&mut out, Type::TypeVar(params[i].clone())),
        }
        i += 1;
    }
    out
}

impl State {
    fn report_unify_errors(
        &mut self,
        callee: &str,
        errors: &Vec<(usize, UnifyError)>,
        span: Span,
    )
        requires
            forall|j: int| 0 <= j < errors@.len() ==> (#[trigger] errors@[j]).0 < usize::MAX,
        ensures
            final(self)@ == unify_reported_n(
                old(self)@,
                callee@,
                errors.deep_view(),
                span,
                errors.deep_view().len() as int,
            ),
    {
        let mut k: usize = 0;
        while k < errors.len()
            invariant
                k <= errors.len(),
                forall|j: int| 0 <= j < errors@.len() ==> (#[trigger] errors@[j]).0 < usize::MAX,
                self@ == unify_reported_n(
                    old(self)@,
                    callee@,
                    errors.deep_view(),
                    span,
                    k as int,
                ),
            decreases errors.len() - k,
        {
            let at: usize = errors[k].0;
            match &errors[k].1 {
                UnifyError::Conflict { param, existing, incoming } => {
                    self.error(
                        cat11(
                            "argument ",
                            &count_text(at + 1),
                            " of `",
                            callee,
                            "`: conflicting bindings for type parameter `",
                            param,
                            "` (was `",
                            &existing.text(),
                            "`, now `",
                            &incoming.text(),
                            "`)",
                        ),
                        span,
                    );
                },
                UnifyError::OccursCheck { param, incoming } => {
                    self.error(
                        cat9(
                            "argument ",
                            &count_text(at + 1),
                            " of `",
                            callee,
                            "`: cannot bind type parameter `",
                            param,
                            "` to `",
                            &incoming.text(),
                            "` (recursive type)",
                        ),
                        span,
                    );
                },
                UnifyError::Mismatch => {},
            }
            k += 1;
        }
    }

    pub fn record_inferred_type_args(
        &mut self,
        callee: &str,
        params: &Vec<String>,
        b: &Table<String, Type>,
        errors: &Vec<(usize, UnifyError)>,
        ts: &Vec<Type>,
        span: Span,
    )
        requires
            forall|j: int| 0 <= j < errors@.len() ==> (#[trigger] errors@[j]).0 < usize::MAX,
        ensures
            final(self)@ == type_args_recorded(
                old(self)@,
                callee@,
                params.deep_view(),
                b@,
                errors.deep_view(),
                ts.deep_view(),
                span,
            ),
    {
        self.report_unify_errors(callee, errors, span);
        let unresolved = unresolved_params(params, b);
        if unresolved.len() > 0 && !any_is_error(ts) {
            let names = join_text(&unresolved, ", ");
            if unresolved.len() == 1 {
                self.error(
                    cat5(
                        "cannot infer type parameter ",
                        &names,
                        " for call to `",
                        callee,
                        "`; no argument constrains it",
                    ),
                    span,
                );
            } else {
                self.error(
                    cat5(
                        "cannot infer type parameters ",
                        &names,
                        " for call to `",
                        callee,
                        "`; no argument constrains them",
                    ),
                    span,
                );
            }
            return;
        }
        if unresolved.len() > 0 || errors.len() > 0 {
            return;
        }
        let ordered = bound_types(params, b);
        if self.settles(&ordered) {
            self.record_type_args(span, ordered);
        }
    }
}

/// The bindings of `b`, then the first `n` of `more` for what `b` leaves open.
pub open spec fn merged_n(b: Bindings, more: Bindings, n: int) -> Bindings
    decreases n,
{
    if n <= 0 || n > more.len() {
        b
    } else {
        let rest = merged_n(b, more, n - 1);
        if holds(rest, more[n - 1].0) {
            rest
        } else {
            put(rest, more[n - 1].0, more[n - 1].1)
        }
    }
}

pub fn merge_bindings(b: &mut Table<String, Type>, more: &Table<String, Type>)
    ensures
        final(b)@ == merged_n(old(b)@, more@, more@.len() as int),
{
    let mut i: usize = 0;
    while i < more.entries.len()
        invariant
            i <= more.entries.len(),
            b@ == merged_n(old(b)@, more@, i as int),
        decreases more.entries.len() - i,
    {
        if !b.has(&more.entries[i].0) {
            b.put(more.entries[i].0.clone(), more.entries[i].1.dup());
        }
        i += 1;
    }
}

/// The first `n` type parameters bound to the given types, whatever they were
/// bound to before.
pub open spec fn rebound_n(b: Bindings, params: Seq<Chars>, ts: Seq<Ty>, n: int) -> Bindings
    decreases n,
{
    if n <= 0 || n > params.len() || n > ts.len() {
        b
    } else {
        put(rebound_n(b, params, ts, n - 1), params[n - 1], ts[n - 1])
    }
}

pub fn rebind(b: &mut Table<String, Type>, params: &Vec<String>, ts: &Vec<Type>)
    requires
        params.len() == ts.len(),
    ensures
        final(b)@ == rebound_n(
            old(b)@,
            params.deep_view(),
            ts.deep_view(),
            params.deep_view().len() as int,
        ),
{
    let mut i: usize = 0;
    while i < params.len()
        invariant
            i <= params.len(),
            params.len() == ts.len(),
            b@ == rebound_n(old(b)@, params.deep_view(), ts.deep_view(), i as int),
        decreases params.len() - i,
    {
        b.put(params[i].clone(), ts[i].dup());
        i += 1;
    }
}

// ── Trait methods ────────────────────────────────────────────────────

/// Names for `n` parameters that have none of their own.
pub open spec fn arg_names_n(n: int) -> Seq<Chars>
    decreases n,
{
    if n <= 0 {
        Seq::empty()
    } else {
        arg_names_n(n - 1).push("arg"@ + decimal(n as nat))
    }
}

pub fn arg_names(n: usize) -> (r: Vec<String>)
    ensures
        r.deep_view() == arg_names_n(n as int),
{
    let mut out: Vec<String> = Vec::new();
    assert(out.deep_view() =~= Seq::<Chars>::empty());
    let mut i: usize = 0;
    while i < n
        invariant
            i <= n,
            out.deep_view() == arg_names_n(i as int),
        decreases n - i,
    {
        push_view(&mut out, cat2("arg", &count_text(i + 1)));
        i += 1;
    }
    out
}

/// The first method called `name` at or after `i`.
pub open spec fn method_from(ms: Seq<TraitMethodInfoV>, name: Chars, i: int) -> Option<
    TraitMethodInfoV,
>
    decreases ms.len() - i,
{
    if i < 0 || i >= ms.len() {
        None
    } else if ms[i].name == name {
        Some(ms[i])
    } else {
        method_from(ms, name, i + 1)
    }
}

pub fn find_trait_method<'m>(ms: &'m Vec<TraitMethodInfo>, name: &String) -> (r: Option<
    &'m TraitMethodInfo,
>)
    ensures
        r.deep_view() == method_from(ms.deep_view(), name@, 0),
{
    let mut i: usize = 0;
    while i < ms.len()
        invariant
            i <= ms.len(),
            method_from(ms.deep_view(), name@, 0) == method_from(
                ms.deep_view(),
                name@,
                i as int,
            ),
        decreases ms.len() - i,
    {
        if ms[i].name == *name {
            return Some(&ms[i]);
        }
        i += 1;
    }
    None
}

/// The method that the first trait at or after `i` to have it gives.
pub open spec fn trait_method_from(env: EnvV, traits: Seq<Chars>, name: Chars, i: int) -> Option<
    TraitMethodInfoV,
>
    decreases traits.len() - i,
{
    if i < 0 || i >= traits.len() {
        None
    } else {
        match in_scope(env, env.traits, traits[i]) {
            Some(info) => match method_from(info.methods, name, 0) {
                Some(m) => Some(m),
                None => trait_method_from(env, traits, name, i + 1),
            },
            None => trait_method_from(env, traits, name, i + 1),
        }
    }
}

/// The method that the bounds of the type variable `var` give, from bound
/// `i` on.
pub open spec fn bound_method_from(
    env: EnvV,
    bounds: Seq<(Chars, Seq<Chars>)>,
    var: Chars,
    name: Chars,
    i: int,
) -> Option<TraitMethodInfoV>
    decreases bounds.len() - i,
{
    if i < 0 || i >= bounds.len() {
        None
    } else if bounds[i].0 != var {
        bound_method_from(env, bounds, var, name, i + 1)
    } else {
        match trait_method_from(env, bounds[i].1, name, 0) {
            Some(m) => Some(m),
            None => bound_method_from(env, bounds, var, name, i + 1),
        }
    }
}

impl<'a> Env<'a> {
    fn trait_method(&self, traits: &Vec<String>, name: &String) -> (r: Option<&TraitMethodInfo>)
        ensures
            r.deep_view() == trait_method_from(self@, traits.deep_view(), name@, 0),
    {
        let mut i: usize = 0;
        while i < traits.len()
            invariant
                i <= traits.len(),
                trait_method_from(self@, traits.deep_view(), name@, 0) == trait_method_from(
                    self@,
                    traits.deep_view(),
                    name@,
                    i as int,
                ),
            decreases traits.len() - i,
        {
            if let Some(info) = self.lookup_trait(&traits[i]) {
                if let Some(m) = find_trait_method(&info.methods, name) {
                    return Some(m);
                }
            }
            i += 1;
        }
        None
    }

    pub fn bound_method(
        &self,
        bounds: &Vec<(String, Vec<String>)>,
        var: &String,
        name: &String,
    ) -> (r: Option<&TraitMethodInfo>)
        ensures
            r.deep_view() == bound_method_from(self@, bounds.deep_view(), var@, name@, 0),
    {
        let mut i: usize = 0;
        while i < bounds.len()
            invariant
                i <= bounds.len(),
                bound_method_from(self@, bounds.deep_view(), var@, name@, 0) == bound_method_from(
                    self@,
                    bounds.deep_view(),
                    var@,
                    name@,
                    i as int,
                ),
            decreases bounds.len() - i,
        {
            if bounds[i].0 == *var {
                if let Some(m) = self.trait_method(&bounds[i].1, name) {
                    return Some(m);
                }
            }
            i += 1;
        }
        None
    }
}

} // verus!
