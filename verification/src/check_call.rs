//! Calls of functions, and constructors of structs and variants.
use crate::ast::{expr_span, Arguments, CallExpr, Expr, StructLiteralExpr};
use crate::calls::{
    argument_message, argument_text, bounds_held_n, defaults_filled_n, fill_defaults, fitted_n,
    index_of_name, instantiate, instantiated_n, misfit, missing_arguments, missing_n, name_position,
    named_argument_message, named_argument_text, named_fitted_n, names_validated, pad_types,
    padded, type_args_recorded, type_at, type_at_index,
};
use crate::check_expr::{sem_expr, sem_types_n};
use crate::check_types::{clash, infer_type_args, inferred};
use crate::env::{canonical, in_scope, named, Env, EnvV};
use crate::info::{FieldInfo, FieldInfoV, FunctionInfo, FunctionInfoV, SymbolKind, SymbolKindV};
use crate::pin::{field_types, pinned, types_of_fields};
use crate::privacy::construction_checked;
use crate::span::Span;
use crate::state::{State, StateV};
use crate::table::Table;
use crate::text::{
    cat2, cat3, cat6, cat7, cat9, count_text, decimal, join, join_text, same_text, set_view, Chars,
    Dup,
};
use crate::types::{show, subst, substitute, Bindings, Ty, Type};
use crate::variants::variant_owner;
use vstd::prelude::*;

verus! {

broadcast use crate::ty::view_of_type;

/// Whether a call names too many or too few arguments, and what is said of it.
pub open spec fn counted(
    st: StateV,
    fname: Chars,
    f: FunctionInfoV,
    args: Arguments,
    span: Span,
) -> (StateV, bool) {
    let total = f.params.len();
    let positional = args.positional@.len();
    let named_args = args.named@;
    let s = names_validated(st, fname, f.param_names, named_args, positional);
    let missing = missing_n(
        f.param_names,
        f.default_param_exprs,
        positional,
        named_args,
        total as int,
    );
    if positional > total {
        (
            s.error(
                "function `"@ + fname + "` takes "@ + decimal(total) + " argument(s), got "@
                    + decimal(positional),
                span,
            ),
            false,
        )
    } else if missing.len() > 0 {
        (
            s.error(
                "function `"@ + fname + "` missing argument(s): "@ + join(missing, ", "@),
                span,
            ),
            false,
        )
    } else if positional + named_args.len() > total {
        (
            s.error(
                "function `"@ + fname + "` takes "@ + decimal(total) + " argument(s), got "@
                    + decimal(positional) + " (positional) + "@ + decimal(named_args.len())
                    + " (named)"@,
                span,
            ),
            false,
        )
    } else {
        (s, true)
    }
}

/// The first `n` positional arguments of a call without type parameters.
pub open spec fn sem_positional_n(
    env: EnvV,
    st: StateV,
    args: Seq<Expr>,
    fname: Chars,
    params: Seq<Ty>,
    n: int,
) -> StateV
    decreases args, n,
{
    if n <= 0 || n > args.len() {
        st
    } else {
        let expected = type_at(params, n - 1);
        let (s, t) = sem_expr(
            env,
            sem_positional_n(env, st, args, fname, params, n - 1),
            args[n - 1],
        );
        pinned(
            env,
            s.error_if(
                clash(env, s, expected, t),
                argument_message((n - 1) as nat, fname, expected, t),
                expr_span(args[n - 1]),
            ),
            args[n - 1],
            expected,
        )
    }
}

/// The first `n` named arguments of a call without type parameters.
pub open spec fn sem_named_n(
    env: EnvV,
    st: StateV,
    named_args: Seq<(String, Expr)>,
    fname: Chars,
    names: Seq<Chars>,
    params: Seq<Ty>,
    n: int,
) -> StateV
    decreases named_args, n,
{
    if n <= 0 || n > named_args.len() {
        st
    } else {
        let s1 = sem_named_n(env, st, named_args, fname, names, params, n - 1);
        let i = name_position(names, named_args[n - 1].0@, 0);
        if i < names.len() {
            let expected = type_at(params, i);
            let (s2, t) = sem_expr(env, s1, named_args[n - 1].1);
            pinned(
                env,
                s2.error_if(
                    clash(env, s2, expected, t),
                    named_argument_message(named_args[n - 1].0@, fname, expected, t),
                    expr_span(named_args[n - 1].1),
                ),
                named_args[n - 1].1,
                expected,
            )
        } else {
            s1
        }
    }
}

/// The argument types, with those of the first `n` named arguments put in
/// their places.
pub open spec fn sem_named_types_n(
    env: EnvV,
    st: StateV,
    named_args: Seq<(String, Expr)>,
    names: Seq<Chars>,
    ts: Seq<Ty>,
    n: int,
) -> (StateV, Seq<Ty>)
    decreases named_args, n,
{
    if n <= 0 || n > named_args.len() {
        (st, ts)
    } else {
        let (s1, rest) = sem_named_types_n(env, st, named_args, names, ts, n - 1);
        let i = name_position(names, named_args[n - 1].0@, 0);
        if i < names.len() && i < rest.len() {
            let (s2, t) = sem_expr(env, s1, named_args[n - 1].1);
            (s2, rest.update(i, t))
        } else {
            (s1, rest)
        }
    }
}

/// A generic call: the types of the arguments in the order of the parameters.
pub open spec fn sem_argument_types(env: EnvV, st: StateV, f: FunctionInfoV, args: Arguments) -> (
    StateV,
    Seq<Ty>,
)
    decreases args, 1int,
{
    let positional = args.positional@.len();
    let (s1, ts) = sem_types_n(env, st, args.positional@, positional as int);
    let (s2, all) = sem_named_types_n(
        env,
        s1,
        args.named@,
        f.param_names,
        padded(ts, f.params.len()),
        args.named@.len() as int,
    );
    (s2, defaults_filled_n(f, positional, args.named@, all, all.len() as int))
}

/// A generic call whose arguments have the types `ts`.
pub open spec fn generic_called(
    env: EnvV,
    st: StateV,
    fname: Chars,
    f: FunctionInfoV,
    args: Arguments,
    span: Span,
    ts: Seq<Ty>,
) -> (StateV, Ty) {
    let (b, errors) = inferred(f.params, ts);
    let s1 = fitted_n(
        env,
        st,
        args.positional@,
        fname,
        f.params,
        b,
        ts,
        args.positional@.len() as int,
    );
    let s2 = named_fitted_n(
        env,
        s1,
        args.named@,
        fname,
        f.param_names,
        f.params,
        b,
        ts,
        args.named@.len() as int,
    );
    let s3 = bounds_held_n(
        env,
        s2,
        f.type_param_bounds,
        b,
        span,
        f.type_param_bounds.len() as int,
    );
    (
        type_args_recorded(s3, fname, f.type_params, b, errors, ts, span),
        subst(f.return_type, b),
    )
}

/// A call of the function `f` under the name `fname`.
pub open spec fn sem_call_info(
    env: EnvV,
    st: StateV,
    fname: Chars,
    f: FunctionInfoV,
    args: Arguments,
    span: Span,
) -> (StateV, Ty)
    decreases args, 2int,
{
    let (s1, well) = counted(st, fname, f, args, span);
    if !well {
        (s1, f.return_type)
    } else if f.type_params.len() > 0 {
        let (s2, ts) = sem_argument_types(env, s1, f, args);
        generic_called(env, s2, fname, f, args, span, ts)
    } else {
        let s2 = sem_positional_n(
            env,
            s1,
            args.positional@,
            fname,
            f.params,
            args.positional@.len() as int,
        );
        (
            sem_named_n(
                env,
                s2,
                args.named@,
                fname,
                f.param_names,
                f.params,
                args.named@.len() as int,
            ),
            f.return_type,
        )
    }
}

/// The first `n` arguments of a call of a function value.
pub open spec fn sem_indirect_n(env: EnvV, st: StateV, args: Seq<Expr>, params: Seq<Ty>, n: int) -> StateV
    decreases args, n,
{
    if n <= 0 || n > args.len() {
        st
    } else {
        let expected = type_at(params, n - 1);
        let (s, t) = sem_expr(env, sem_indirect_n(env, st, args, params, n - 1), args[n - 1]);
        s.error_if(
            clash(env, s, expected, t),
            "argument "@ + decimal(n as nat) + ": expected "@ + show(expected) + " but got "@
                + show(t),
            expr_span(args[n - 1]),
        )
    }
}

/// A call of a value of type `t`.
pub open spec fn sem_indirect(env: EnvV, st: StateV, t: Ty, x: CallExpr) -> (StateV, Ty)
    decreases x, 1int,
{
    let s = st.error_if(
        x.args.named@.len() > 0,
        "named arguments are not supported for indirect function calls"@,
        x.span,
    );
    let argc = x.args.positional@.len();
    match t {
        Ty::Function(params, ret) => (
            if argc != params.len() {
                s.error(
                    "function takes "@ + decimal(params.len()) + " argument(s), got "@ + decimal(
                        argc,
                    ),
                    x.span,
                )
            } else {
                sem_indirect_n(env, s, x.args.positional@, params, argc as int)
            },
            *ret,
        ),
        _ => (
            s.error_if(t != Ty::Error, "cannot call value of type "@ + show(t), x.span),
            Ty::Error,
        ),
    }
}

/// A call of one of the functions of the language that take one argument.
pub open spec fn sem_unary_builtin(env: EnvV, st: StateV, x: CallExpr, name: Chars) -> StateV
    decreases x, 1int,
{
    let s = st.error_if(
        x.args.named@.len() > 0,
        "built-in function `"@ + name + "` does not accept named arguments"@,
        x.span,
    );
    if x.args.positional@.len() != 1 {
        s.error(name + "() takes 1 argument, got "@ + decimal(x.args.positional@.len()), x.span)
    } else {
        sem_expr(env, s, x.args.positional@[0]).0
    }
}

pub open spec fn sem_call(env: EnvV, st: StateV, x: CallExpr) -> (StateV, Ty)
    decreases x, 2int,
{
    match x.callee {
        Expr::Ident(id) => {
            let name = id.name@;
            if name == "print"@ {
                (sem_unary_builtin(env, st, x, "print"@), Ty::Void)
            } else if name == "toString"@ {
                (sem_unary_builtin(env, st, x, "toString"@), Ty::Str)
            } else {
                match in_scope(env, env.functions, name) {
                    Some(f) => sem_call_info(
                        env,
                        st.refer(id.span, SymbolKindV::Function, name),
                        name,
                        f,
                        x.args,
                        x.span,
                    ),
                    None => match in_scope(env, env.host_functions, name) {
                        Some(f) => sem_call_info(
                            env,
                            st.refer(id.span, SymbolKindV::Function, name),
                            name,
                            f,
                            x.args,
                            x.span,
                        ),
                        None => match st.variable(name) {
                            Some(v) => sem_indirect(env, st, v.ty, x),
                            None => (
                                st.error("undefined function `"@ + name + "`"@, id.span),
                                Ty::Error,
                            ),
                        },
                    },
                }
            }
        },
        _ => {
            let (s, t) = sem_expr(env, st, x.callee);
            sem_indirect(env, s, t, x)
        },
    }
}

/// The first `n` fields of a generic struct, given arguments of types `ts`.
pub open spec fn fields_fitted_n(
    env: EnvV,
    st: StateV,
    args: Seq<Expr>,
    fs: Seq<FieldInfoV>,
    b: Bindings,
    ts: Seq<Ty>,
    n: int,
) -> StateV
    decreases n,
{
    if n <= 0 || n > args.len() || n > fs.len() {
        st
    } else {
        let s = fields_fitted_n(env, st, args, fs, b, ts, n - 1);
        let expected = subst(fs[n - 1].ty, b);
        let actual = type_at(ts, n - 1);
        pinned(
            env,
            s.error_if(
                misfit(env, s, expected, actual),
                field_message(fs[n - 1].name, expected, actual),
                expr_span(args[n - 1]),
            ),
            args[n - 1],
            expected,
        )
    }
}

/// The error about the value of a field.
pub open spec fn field_message(name: Chars, expected: Ty, actual: Ty) -> Chars {
    "field `"@ + name + "`: expected `"@ + show(expected) + "` but got `"@ + show(actual) + "`"@
}

/// The first `n` fields of a struct without type parameters.
pub open spec fn sem_fields_n(env: EnvV, st: StateV, args: Seq<Expr>, fs: Seq<FieldInfoV>, n: int) -> StateV
    decreases args, n,
{
    if n <= 0 || n > args.len() || n > fs.len() {
        st
    } else {
        let expected = fs[n - 1].ty;
        let (s, t) = sem_expr(env, sem_fields_n(env, st, args, fs, n - 1), args[n - 1]);
        pinned(
            env,
            s.error_if(
                clash(env, s, expected, t),
                field_message(fs[n - 1].name, expected, t),
                expr_span(args[n - 1]),
            ),
            args[n - 1],
            expected,
        )
    }
}

/// A struct or a variant, written like a call.
pub open spec fn sem_struct_literal(env: EnvV, st: StateV, x: StructLiteralExpr) -> (StateV, Ty)
    decreases x, 2int,
{
    match in_scope(env, env.structs, x.name@) {
        Some(info) => {
            let s = construction_checked(env, st, info, x.name@, x.span);
            let argc = x.args@.len();
            let key = canonical(env, x.name@);
            if argc != info.fields.len() {
                (
                    s.error(
                        "struct `"@ + x.name@ + "` has "@ + decimal(info.fields.len())
                            + " field(s), got "@ + decimal(argc),
                        x.span,
                    ),
                    Ty::Named(key),
                )
            } else if info.type_params.len() > 0 {
                let (s1, ts) = sem_types_n(env, s, x.args@, argc as int);
                let (b, _) = inferred(field_types(info.fields), ts);
                (
                    fields_fitted_n(env, s1, x.args@, info.fields, b, ts, argc as int),
                    Ty::Generic(
                        key,
                        instantiated_n(info.type_params, b, info.type_params.len() as int),
                    ),
                )
            } else {
                (
                    sem_fields_n(env, s, x.args@, info.fields, argc as int),
                    Ty::Named(key),
                )
            }
        },
        None => sem_variant(env, st, x),
    }
}

/// The error about the value of field `i` of a variant.
pub open spec fn payload_message(name: Chars, i: nat, expected: Ty, actual: Ty) -> Chars {
    "variant `"@ + name + "` field "@ + decimal(i + 1) + ": expected `"@ + show(expected)
        + "` but got `"@ + show(actual) + "`"@
}

/// The first `n` fields of a variant of a generic enum, given arguments of
/// types `ts`.
pub open spec fn payload_fitted_n(
    env: EnvV,
    st: StateV,
    args: Seq<Expr>,
    name: Chars,
    fields: Seq<Ty>,
    b: Bindings,
    ts: Seq<Ty>,
    n: int,
) -> StateV
    decreases n,
{
    if n <= 0 || n > args.len() || n > fields.len() {
        st
    } else {
        let s = payload_fitted_n(env, st, args, name, fields, b, ts, n - 1);
        let expected = subst(fields[n - 1], b);
        let actual = type_at(ts, n - 1);
        pinned(
            env,
            s.error_if(
                misfit(env, s, expected, actual),
                payload_message(name, (n - 1) as nat, expected, actual),
                expr_span(args[n - 1]),
            ),
            args[n - 1],
            expected,
        )
    }
}

/// The first `n` fields of a variant of an enum without type parameters.
pub open spec fn sem_payload_n(
    env: EnvV,
    st: StateV,
    args: Seq<Expr>,
    name: Chars,
    fields: Seq<Ty>,
    n: int,
) -> StateV
    decreases args, n,
{
    if n <= 0 || n > args.len() || n > fields.len() {
        st
    } else {
        let expected = fields[n - 1];
        let (s, t) = sem_expr(
            env,
            sem_payload_n(env, st, args, name, fields, n - 1),
            args[n - 1],
        );
        s.error_if(
            clash(env, s, expected, t),
            payload_message(name, (n - 1) as nat, expected, t),
            expr_span(args[n - 1]),
        )
    }
}

/// A variant of the enum that owns it.
pub open spec fn sem_variant(env: EnvV, st: StateV, x: StructLiteralExpr) -> (StateV, Ty)
    decreases x, 1int,
{
    let (s, owner) = variant_owner(env, st, x.name@, x.span);
    let argc = x.args@.len();
    match owner {
        Some(m) => {
            let key = canonical(env, m.local_name);
            if argc != m.variant_types.len() {
                (
                    s.error(
                        "variant `"@ + x.name@ + "` takes "@ + decimal(m.variant_types.len())
                            + " field(s), got "@ + decimal(argc),
                        x.span,
                    ),
                    Ty::Named(key),
                )
            } else if m.type_params.len() > 0 {
                let (s1, ts) = sem_types_n(env, s, x.args@, argc as int);
                let (b, _) = inferred(m.variant_types, ts);
                (
                    payload_fitted_n(
                        env,
                        s1,
                        x.args@,
                        x.name@,
                        m.variant_types,
                        b,
                        ts,
                        argc as int,
                    ),
                    Ty::Generic(
                        key,
                        instantiated_n(m.type_params, b, m.type_params.len() as int),
                    ),
                )
            } else {
                (
                    sem_payload_n(env, s, x.args@, x.name@, m.variant_types, argc as int),
                    Ty::Named(key),
                )
            }
        },
        None => (
            s.error("undefined type or variant `"@ + x.name@ + "`"@, x.span),
            Ty::Error,
        ),
    }
}

impl State {
    fn count_arguments(
        &mut self,
        fname: &str,
        f: &FunctionInfo<'_>,
        args: &Arguments,
        span: Span,
    ) -> (r: bool)
        ensures
            (final(self)@, r) == counted(old(self)@, fname@, f.deep_view(), *args, span),
    {
        let total: usize = f.params.len();
        let positional: usize = args.positional.len();
        self.validate_named_args(fname, &f.param_names, &args.named, positional);
        if positional > total {
            self.error(
                cat6(
                    "function `",
                    fname,
                    "` takes ",
                    &count_text(total),
                    " argument(s), got ",
                    &count_text(positional),
                ),
                span,
            );
            return false;
        }
        let missing = missing_arguments(
            &f.param_names,
            &f.default_param_exprs,
            positional,
            &args.named,
            total,
        );
        if missing.len() > 0 {
            self.error(
                crate::text::cat4(
                    "function `",
                    fname,
                    "` missing argument(s): ",
                    &join_text(&missing, ", "),
                ),
                span,
            );
            return false;
        }
        if args.named.len() > total - positional {
            self.error(
                cat9(
                    "function `",
                    fname,
                    "` takes ",
                    &count_text(total),
                    " argument(s), got ",
                    &count_text(positional),
                    " (positional) + ",
                    &count_text(args.named.len()),
                    " (named)",
                ),
                span,
            );
            return false;
        }
        true
    }

    fn check_positional(
        &mut self,
        env: &Env<'_>,
        args: &Vec<Expr>,
        fname: &str,
        params: &Vec<Type>,
    )
        ensures
            final(self)@ == sem_positional_n(
                env@,
                old(self)@,
                args@,
                fname@,
                params.deep_view(),
                args@.len() as int,
            ),
        decreases args, 0int,
    {
        let mut i: usize = 0;
        while i < args.len()
            invariant
                i <= args.len(),
                self@ == sem_positional_n(
                    env@,
                    old(self)@,
                    args@,
                    fname@,
                    params.deep_view(),
                    i as int,
                ),
            decreases args.len() - i,
        {
            let expected = type_at_index(params, i);
            let t = self.check_expr(env, &args[i]);
            if self.types_clash(env, &expected, &t) {
                self.error(argument_text(i, fname, &expected, &t), args[i].span());
            }
            self.pin_inferred_type_to_annotation(env, &args[i], &expected);
            i += 1;
        }
    }

    fn check_named(
        &mut self,
        env: &Env<'_>,
        named_args: &Vec<(String, Expr)>,
        fname: &str,
        names: &Vec<String>,
        params: &Vec<Type>,
    )
        ensures
            final(self)@ == sem_named_n(
                env@,
                old(self)@,
                named_args@,
                fname@,
                names.deep_view(),
                params.deep_view(),
                named_args@.len() as int,
            ),
        decreases named_args, 0int,
    {
        let mut k: usize = 0;
        while k < named_args.len()
            invariant
                k <= named_args.len(),
                self@ == sem_named_n(
                    env@,
                    old(self)@,
                    named_args@,
                    fname@,
                    names.deep_view(),
                    params.deep_view(),
                    k as int,
                ),
            decreases named_args.len() - k,
        {
            let i: usize = index_of_name(names, &named_args[k].0);
            if i < names.len() {
                let expected = type_at_index(params, i);
                let t = self.check_expr(env, &named_args[k].1);
                if self.types_clash(env, &expected, &t) {
                    self.error(
                        named_argument_text(&named_args[k].0, fname, &expected, &t),
                        named_args[k].1.span(),
                    );
                }
                self.pin_inferred_type_to_annotation(env, &named_args[k].1, &expected);
            }
            k += 1;
        }
    }

    fn check_named_types(
        &mut self,
        env: &Env<'_>,
        named_args: &Vec<(String, Expr)>,
        names: &Vec<String>,
        ts: Vec<Type>,
    ) -> (r: Vec<Type>)
        ensures
            (final(self)@, r.deep_view()) == sem_named_types_n(
                env@,
                old(self)@,
                named_args@,
                names.deep_view(),
                ts.deep_view(),
                named_args@.len() as int,
            ),
        decreases named_args, 0int,
    {
        let ghost before = ts.deep_view();
        let mut all = ts;
        let mut k: usize = 0;
        while k < named_args.len()
            invariant
                k <= named_args.len(),
                (self@, all.deep_view()) == sem_named_types_n(
                    env@,
                    old(self)@,
                    named_args@,
                    names.deep_view(),
                    before,
                    k as int,
                ),
            decreases named_args.len() - k,
        {
            let i: usize = index_of_name(names, &named_args[k].0);
            if i < names.len() && i < all.len() {
                let t = self.check_expr(env, &named_args[k].1);
                set_view(&mut all, i, t);
            }
            k += 1;
        }
        all
    }

    fn check_argument_types(&mut self, env: &Env<'_>, f: &FunctionInfo<'_>, args: &Arguments) -> (r: Vec<
        Type,
    >)
        ensures
            (final(self)@, r.deep_view()) == sem_argument_types(
                env@,
                old(self)@,
                f.deep_view(),
                *args,
            ),
        decreases args, 1int,
    {
        let mut ts = self.check_exprs(env, &args.positional);
        pad_types(&mut ts, f.params.len());
        let mut all = self.check_named_types(env, &args.named, &f.param_names, ts);
        fill_defaults(f, args.positional.len(), &args.named, &mut all);
        all
    }

    fn infer_and_check_call_generics(
        &mut self,
        env: &Env<'_>,
        fname: &str,
        f: &FunctionInfo<'_>,
        args: &Arguments,
        span: Span,
        ts: &Vec<Type>,
    ) -> (r: Type)
        ensures
            (final(self)@, r@) == generic_called(
                env@,
                old(self)@,
                fname@,
                f.deep_view(),
                *args,
                span,
                ts.deep_view(),
            ),
    {
        let (b, errors) = infer_type_args(&f.params, ts);
        self.fit_arguments(env, &args.positional, fname, &f.params, &b, ts);
        self.fit_named_arguments(env, &args.named, fname, &f.param_names, &f.params, &b, ts);
        self.hold_bounds(env, &f.type_param_bounds, &b, span);
        self.record_inferred_type_args(fname, &f.type_params, &b, &errors, ts, span);
        substitute(&f.return_type, &b)
    }

    /// Checks a call of a known function.
    pub fn check_call_with_info(
        &mut self,
        env: &Env<'_>,
        fname: &str,
        f: &FunctionInfo<'_>,
        args: &Arguments,
        span: Span,
    ) -> (r: Type)
        ensures
            (final(self)@, r@) == sem_call_info(
                env@,
                old(self)@,
                fname@,
                f.deep_view(),
                *args,
                span,
            ),
        decreases args, 2int,
    {
        if !self.count_arguments(fname, f, args, span) {
            return f.return_type.dup();
        }
        if f.type_params.len() > 0 {
            let ts = self.check_argument_types(env, f, args);
            return self.infer_and_check_call_generics(env, fname, f, args, span, &ts);
        }
        self.check_positional(env, &args.positional, fname, &f.params);
        self.check_named(env, &args.named, fname, &f.param_names, &f.params);
        f.return_type.dup()
    }

    fn check_indirect(&mut self, env: &Env<'_>, args: &Vec<Expr>, params: &Vec<Type>)
        ensures
            final(self)@ == sem_indirect_n(
                env@,
                old(self)@,
                args@,
                params.deep_view(),
                args@.len() as int,
            ),
        decreases args, 0int,
    {
        let mut i: usize = 0;
        while i < args.len()
            invariant
                i <= args.len(),
                self@ == sem_indirect_n(
                    env@,
                    old(self)@,
                    args@,
                    params.deep_view(),
                    i as int,
                ),
            decreases args.len() - i,
        {
            let expected = type_at_index(params, i);
            let t = self.check_expr(env, &args[i]);
            if self.types_clash(env, &expected, &t) {
                self.error(
                    cat6(
                        "argument ",
                        &count_text(i + 1),
                        ": expected ",
                        &expected.text(),
                        " but got ",
                        &t.text(),
                    ),
                    args[i].span(),
                );
            }
            i += 1;
        }
    }

    fn check_call_on_type(&mut self, env: &Env<'_>, t: &Type, x: &CallExpr) -> (r: Type)
        ensures
            (final(self)@, r@) == sem_indirect(env@, old(self)@, t@, *x),
        decreases x, 1int,
    {
        if x.args.named.len() > 0 {
            self.error(
                "named arguments are not supported for indirect function calls".to_owned(),
                x.span,
            );
        }
        let argc: usize = x.args.positional.len();
        if let Type::Function(params, ret) = t {
            proof {
                crate::ty::lemma_function_view(*t);
            }
            if argc != params.len() {
                self.error(
                    crate::text::cat4(
                        "function takes ",
                        &count_text(params.len()),
                        " argument(s), got ",
                        &count_text(argc),
                    ),
                    x.span,
                );
            } else {
                self.check_indirect(env, &x.args.positional, params);
            }
            return ret.dup();
        }
        if !t.is_error() {
            self.error(cat2("cannot call value of type ", &t.text()), x.span);
        }
        Type::Error
    }

    fn check_unary_builtin(&mut self, env: &Env<'_>, x: &CallExpr, name: &str)
        ensures
            final(self)@ == sem_unary_builtin(env@, old(self)@, *x, name@),
        decreases x, 1int,
    {
        if x.args.named.len() > 0 {
            self.error(
                cat3("built-in function `", name, "` does not accept named arguments"),
                x.span,
            );
        }
        if x.args.positional.len() != 1 {
            self.error(
                cat3(name, "() takes 1 argument, got ", &count_text(x.args.positional.len())),
                x.span,
            );
        } else {
            let _ = self.check_expr(env, &x.args.positional[0]);
        }
    }

    pub fn check_call(&mut self, env: &Env<'_>, x: &CallExpr) -> (r: Type)
        ensures
            (final(self)@, r@) == sem_call(env@, old(self)@, *x),
        decreases x, 2int,
    {
        if let Expr::Ident(id) = &x.callee {
            if same_text(&id.name, "print") {
                self.check_unary_builtin(env, x, "print");
                return Type::Void;
            }
            if same_text(&id.name, "toString") {
                self.check_unary_builtin(env, x, "toString");
                return Type::String;
            }
            if let Some(f) = env.lookup_function(&id.name) {
                self.refer(id.span, SymbolKind::Function, id.name.clone());
                return self.check_call_with_info(env, &id.name, f, &x.args, x.span);
            }
            if let Some(f) = env.lookup_host_function(&id.name) {
                self.refer(id.span, SymbolKind::Function, id.name.clone());
                return self.check_call_with_info(env, &id.name, f, &x.args, x.span);
            }
            if let Some(v) = self.variable(&id.name) {
                return self.check_call_on_type(env, &v.ty, x);
            }
            self.error(cat3("undefined function `", &id.name, "`"), id.span);
            return Type::Error;
        }
        let t = self.check_expr(env, &x.callee);
        self.check_call_on_type(env, &t, x)
    }

    fn fit_fields(
        &mut self,
        env: &Env<'_>,
        args: &Vec<Expr>,
        fs: &Vec<FieldInfo<'_>>,
        b: &Table<String, Type>,
        ts: &Vec<Type>,
    )
        requires
            args@.len() == fs@.len(),
        ensures
            final(self)@ == fields_fitted_n(
                env@,
                old(self)@,
                args@,
                fs.deep_view(),
                b@,
                ts.deep_view(),
                args@.len() as int,
            ),
    {
        let mut i: usize = 0;
        while i < args.len()
            invariant
                i <= args.len(),
                args@.len() == fs@.len(),
                self@ == fields_fitted_n(
                    env@,
                    old(self)@,
                    args@,
                    fs.deep_view(),
                    b@,
                    ts.deep_view(),
                    i as int,
                ),
            decreases args.len() - i,
        {
            let expected = substitute(&fs[i].ty, b);
            let actual = type_at_index(ts, i);
            if !expected.has_type_vars() && !self.types_compatible(env, &expected, &actual) {
                self.error(field_text(&fs[i].name, &expected, &actual), args[i].span());
            }
            self.pin_inferred_type_to_annotation(env, &args[i], &expected);
            i += 1;
        }
    }

    fn check_fields(&mut self, env: &Env<'_>, args: &Vec<Expr>, fs: &Vec<FieldInfo<'_>>)
        requires
            args@.len() == fs@.len(),
        ensures
            final(self)@ == sem_fields_n(
                env@,
                old(self)@,
                args@,
                fs.deep_view(),
                args@.len() as int,
            ),
        decreases args, 0int,
    {
        let mut i: usize = 0;
        while i < args.len()
            invariant
                i <= args.len(),
                args@.len() == fs@.len(),
                self@ == sem_fields_n(env@, old(self)@, args@, fs.deep_view(), i as int),
            decreases args.len() - i,
        {
            let t = self.check_expr(env, &args[i]);
            if self.types_clash(env, &fs[i].ty, &t) {
                self.error(field_text(&fs[i].name, &fs[i].ty, &t), args[i].span());
            }
            self.pin_inferred_type_to_annotation(env, &args[i], &fs[i].ty);
            i += 1;
        }
    }

    pub fn check_struct_literal(&mut self, env: &Env<'_>, x: &StructLiteralExpr) -> (r: Type)
        ensures
            (final(self)@, r@) == sem_struct_literal(env@, old(self)@, *x),
        decreases x, 2int,
    {
        match env.lookup_struct(&x.name) {
            Some(info) => {
                self.enforce_cross_module_construction_privacy(env, info, &x.name, x.span);
                let key = env.qualify_in_current(&x.name);
                if x.args.len() != info.fields.len() {
                    self.error(
                        cat6(
                            "struct `",
                            &x.name,
                            "` has ",
                            &count_text(info.fields.len()),
                            " field(s), got ",
                            &count_text(x.args.len()),
                        ),
                        x.span,
                    );
                    return Type::Named(key);
                }
                if info.type_params.len() > 0 {
                    let ts = self.check_exprs(env, &x.args);
                    let (b, _) = infer_type_args(&types_of_fields(&info.fields), &ts);
                    self.fit_fields(env, &x.args, &info.fields, &b, &ts);
                    return Type::Generic(key, instantiate(&info.type_params, &b));
                }
                self.check_fields(env, &x.args, &info.fields);
                Type::Named(key)
            },
            None => self.check_enum_variant_constructor(env, x),
        }
    }

    fn fit_payload(
        &mut self,
        env: &Env<'_>,
        args: &Vec<Expr>,
        name: &str,
        fields: &Vec<Type>,
        b: &Table<String, Type>,
        ts: &Vec<Type>,
    )
        requires
            args@.len() == fields@.len(),
        ensures
            final(self)@ == payload_fitted_n(
                env@,
                old(self)@,
                args@,
                name@,
                fields.deep_view(),
                b@,
                ts.deep_view(),
                args@.len() as int,
            ),
    {
        let mut i: usize = 0;
        while i < args.len()
            invariant
                i <= args.len(),
                args@.len() == fields@.len(),
                self@ == payload_fitted_n(
                    env@,
                    old(self)@,
                    args@,
                    name@,
                    fields.deep_view(),
                    b@,
                    ts.deep_view(),
                    i as int,
                ),
            decreases args.len() - i,
        {
            let expected = substitute(&fields[i], b);
            let actual = type_at_index(ts, i);
            if !expected.has_type_vars() && !self.types_compatible(env, &expected, &actual) {
                self.error(payload_text(name, i, &expected, &actual), args[i].span());
            }
            self.pin_inferred_type_to_annotation(env, &args[i], &expected);
            i += 1;
        }
    }

    fn check_payload(&mut self, env: &Env<'_>, args: &Vec<Expr>, name: &str, fields: &Vec<Type>)
        requires
            args@.len() == fields@.len(),
        ensures
            final(self)@ == sem_payload_n(
                env@,
                old(self)@,
                args@,
                name@,
                fields.deep_view(),
                args@.len() as int,
            ),
        decreases args, 0int,
    {
        let mut i: usize = 0;
        while i < args.len()
            invariant
                i <= args.len(),
                args@.len() == fields@.len(),
                self@ == sem_payload_n(
                    env@,
                    old(self)@,
                    args@,
                    name@,
                    fields.deep_view(),
                    i as int,
                ),
            decreases args.len() - i,
        {
            let t = self.check_expr(env, &args[i]);
            if self.types_clash(env, &fields[i], &t) {
                self.error(payload_text(name, i, &fields[i], &t), args[i].span());
            }
            i += 1;
        }
    }

    fn check_enum_variant_constructor(&mut self, env: &Env<'_>, x: &StructLiteralExpr) -> (r: Type)
        ensures
            (final(self)@, r@) == sem_variant(env@, old(self)@, *x),
        decreases x, 1int,
    {
        match self.lookup_visible_enum_variant(env, &x.name, x.span) {
            Some(m) => {
                let key = env.qualify_in_current(&m.local_name);
                if x.args.len() != m.variant_types.len() {
                    self.error(
                        cat6(
                            "variant `",
                            &x.name,
                            "` takes ",
                            &count_text(m.variant_types.len()),
                            " field(s), got ",
                            &count_text(x.args.len()),
                        ),
                        x.span,
                    );
                    return Type::Named(key);
                }
                if m.type_params.len() > 0 {
                    let ts = self.check_exprs(env, &x.args);
                    let (b, _) = infer_type_args(&m.variant_types, &ts);
                    self.fit_payload(env, &x.args, &x.name, &m.variant_types, &b, &ts);
                    return Type::Generic(key, instantiate(&m.type_params, &b));
                }
                self.check_payload(env, &x.args, &x.name, &m.variant_types);
                Type::Named(key)
            },
            None => {
                self.error(cat3("undefined type or variant `", &x.name, "`"), x.span);
                Type::Error
            },
        }
    }
}

fn field_text(name: &str, expected: &Type, actual: &Type) -> (r: String)
    ensures
        r@ == field_message(name@, expected@, actual@),
{
    cat7(
        "field `",
        name,
        "`: expected `",
        &expected.text(),
        "` but got `",
        &actual.text(),
        "`",
    )
}

fn payload_text(name: &str, i: usize, expected: &Type, actual: &Type) -> (r: String)
    requires
        i < usize::MAX,
    ensures
        r@ == payload_message(name@, i as nat, expected@, actual@),
{
    cat9(
        "variant `",
        name,
        "` field ",
        &count_text(i + 1),
        ": expected `",
        &expected.text(),
        "` but got `",
        &actual.text(),
        "`",
    )
}

} // verus!
