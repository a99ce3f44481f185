//! Method calls: namespaces, the methods of the language's own types, `dyn`
//! receivers, declared methods and trait bounds.
use crate::ast::{expr_span, Expr, MethodCallExpr, Visibility};
use crate::builtins::sem_builtin_method;
use crate::calls::{
    arg_names, arg_names_n, argument_message, argument_text, bound_method_from, find_trait_method,
    merge_bindings, merged_n, method_from, missing_arguments, missing_n, rebind, rebound_n,
    type_args_recorded, type_at, type_at_index,
};
use crate::check_call::sem_call_info;
use crate::check_expr::{sem_expr, sem_types_n};
use crate::check_types::{base_and_bindings, clash, infer_type_args, inferred, resolved, resolved_n};
use crate::env::{methods_of, named, namespace, Env, EnvV, NamespaceTarget, NamespaceTargetV};
use crate::info::{MethodInfo, MethodInfoV, TraitMethodInfo, TraitMethodInfoV};
use crate::paths::{bare, bare_name, module_qualify, path_text, qualified, ModulePath};
use crate::pin::pinned;
use crate::privacy::{json_private, not_json, private_access};
use crate::state::{State, StateV};
use crate::table::{find, put, Table};
use crate::text::{
    cat2, cat3, cat4, cat5, cat6, cat7, cat9, count_text, decimal, join, join_text, same_text,
    Chars, Dup,
};
use crate::types::{
    all_settled, list_builder_of, map_builder_of, result_of, show, subst, substitute,
    ty_list_builder, ty_map_builder, ty_result, type_var, Bindings, Ty, Type,
};
use vstd::prelude::*;

verus! {

broadcast use crate::ty::view_of_type;

// ── Namespaces ───────────────────────────────────────────────────────

/// A call through a name that stands for a module; a variable of that name
/// comes first.
pub open spec fn sem_namespace_call(env: EnvV, st: StateV, x: MethodCallExpr) -> Option<(StateV, Ty)>
    decreases x, 8int,
{
    match x.object {
        Expr::Ident(id) => if st.variable(id.name@) is Some {
            None
        } else {
            match namespace(env, id.name@) {
                Some(NamespaceTargetV::UserModule(path)) => Some(
                    sem_module_call(env, st, x, id.name@, path),
                ),
                Some(NamespaceTargetV::Json) => Some(sem_json_call(env, st, x)),
                None => None,
            }
        },
        _ => None,
    }
}

/// A call of a function of another module through its name: the function has
/// to be public.
pub open spec fn sem_module_call(
    env: EnvV,
    st: StateV,
    x: MethodCallExpr,
    ns: Chars,
    path: Seq<Chars>,
) -> (StateV, Ty)
    decreases x, 7int,
{
    let method = x.method@;
    let s = st.error_if(
        x.type_args@.len() > 0,
        "function `"@ + ns + "."@ + method + "` does not take type arguments"@,
        x.span,
    );
    let key = qualified(path, method);
    let argc = x.args.positional@.len() as int;
    match find(env.functions, key) {
        None => (
            sem_types_n(
                env,
                s.error(
                    "module `"@ + path_text(path) + "` has no function `"@ + method + "`"@,
                    x.span,
                ),
                x.args.positional@,
                argc,
            ).0,
            Ty::Error,
        ),
        Some(f) => if f.visibility != Visibility::Public {
            (
                sem_types_n(
                    env,
                    s.diagnose(
                        private_access(
                            "function `"@ + method + "` is private to module `"@ + path_text(path)
                                + "`"@,
                            x.span,
                            f.definition_span,
                            "mark `"@ + method + "` as `public` in `"@ + path_text(path)
                                + "` to call it as `"@ + ns + "."@ + method + "`"@,
                        ),
                    ),
                    x.args.positional@,
                    argc,
                ).0,
                Ty::Error,
            )
        } else {
            sem_call_info(
                env,
                StateV {
                    namespace_call_targets: put(s.namespace_call_targets, x.span, key),
                    ..s
                },
                ns + "."@ + method,
                f,
                x.args,
                x.span,
            )
        },
    }
}

pub open spec fn sem_json_call(env: EnvV, st: StateV, x: MethodCallExpr) -> (StateV, Ty)
    decreases x, 7int,
{
    if x.method@ == "encode"@ {
        (sem_json_encode(env, st, x), Ty::Str)
    } else if x.method@ == "decode"@ {
        sem_json_decode(env, st, x)
    } else {
        (
            sem_types_n(
                env,
                st.error(
                    "`json."@ + x.method@
                        + "` is not available yet — JSON serialization lands in Phase 4.6"@,
                    x.span,
                ),
                x.args.positional@,
                x.args.positional@.len() as int,
            ).0,
            Ty::Error,
        )
    }
}

/// `json.encode` of a value of type `t`.
pub open spec fn encoded(env: EnvV, st: StateV, x: MethodCallExpr, t: Ty) -> StateV {
    let span = expr_span(x.args.positional@[0]);
    if t == Ty::Error {
        st
    } else {
        match not_json(env, t, Seq::empty()) {
            Some(what) => st.error(
                "`json.encode` does not support `"@ + what
                    + "` yet — supported today: Int, Float, Bool, String, and structs of those (more types land in later Phase 4.6 slices)"@,
                span,
            ),
            None => {
                let (s, private) = json_private(
                    env,
                    st,
                    "json.encode"@,
                    t,
                    span,
                    Seq::empty(),
                );
                if private {
                    s
                } else {
                    StateV { json_encode_types: put(s.json_encode_types, x.span, t), ..s }
                }
            },
        }
    }
}

pub open spec fn sem_json_encode(env: EnvV, st: StateV, x: MethodCallExpr) -> StateV
    decreases x, 6int,
{
    let s = st.error_if(
        x.type_args@.len() > 0,
        "`json.encode` does not take type arguments"@,
        x.span,
    );
    let argc = x.args.positional@.len();
    if argc != 1 {
        sem_types_n(
            env,
            s.error("json.encode() takes 1 argument, got "@ + decimal(argc), x.span),
            x.args.positional@,
            argc as int,
        ).0
    } else {
        let (s1, t) = sem_expr(env, s, x.args.positional@[0]);
        encoded(env, s1, x, t)
    }
}

/// The one argument of `json.decode`, and whether it is a `String`.
pub open spec fn sem_json_text(env: EnvV, st: StateV, x: MethodCallExpr) -> (StateV, bool)
    decreases x, 5int,
{
    let argc = x.args.positional@.len();
    if argc != 1 {
        (
            sem_types_n(
                env,
                st.error("json.decode() takes 1 argument, got "@ + decimal(argc), x.span),
                x.args.positional@,
                argc as int,
            ).0,
            false,
        )
    } else {
        let e = x.args.positional@[0];
        let (s, t) = sem_expr(env, st, e);
        let wrong = t != Ty::Error && t != Ty::Str;
        (
            s.error_if(
                wrong,
                "json.decode() expects a `String` argument, got `"@ + show(t) + "`"@,
                expr_span(e),
            ),
            !wrong,
        )
    }
}

/// `json.decode` into the type that the type argument gives.
pub open spec fn decoded(env: EnvV, st: StateV, x: MethodCallExpr, well: bool) -> (StateV, Ty) {
    if x.type_args@.len() == 0 {
        (
            st.error(
                "json.decode requires an explicit type argument, e.g. `json.decode<Int>(s)`"@,
                x.span,
            ),
            Ty::Error,
        )
    } else {
        let (s, t) = resolved(
            env,
            st.error_if(
                x.type_args@.len() > 1,
                "json.decode takes a single type argument"@,
                x.span,
            ),
            x.type_args@[0],
        );
        if t == Ty::Error {
            (s, Ty::Error)
        } else {
            (
                match not_json(env, t, Seq::empty()) {
                    Some(what) => s.error(
                        "`json.decode` does not support `"@ + what
                            + "` yet — supported today: Int, Float, Bool, String, `Option<T>`, `List<T>`, `Map<String, V>`, and non-generic structs and enums of supported types (non-`String`-key maps are a deferred follow-up)"@,
                        x.span,
                    ),
                    None => {
                        let (s1, private) = json_private(
                            env,
                            s,
                            "json.decode"@,
                            t,
                            x.span,
                            Seq::empty(),
                        );
                        if private || !well {
                            s1
                        } else {
                            StateV {
                                json_decode_types: put(s1.json_decode_types, x.span, t),
                                ..s1
                            }
                        }
                    },
                },
                ty_result(t, Ty::Named("JsonError"@)),
            )
        }
    }
}

pub open spec fn sem_json_decode(env: EnvV, st: StateV, x: MethodCallExpr) -> (StateV, Ty)
    decreases x, 6int,
{
    let (s, well) = sem_json_text(env, st, x);
    decoded(env, s, x, well)
}

// ── Static methods ───────────────────────────────────────────────────

/// `List.builder()` and `Map.builder()`; a variable of that name comes first.
pub open spec fn static_called(st: StateV, x: MethodCallExpr) -> Option<(StateV, Ty)> {
    match x.object {
        Expr::Ident(id) => if (id.name@ == "List"@ || id.name@ == "Map"@) && st.variable(
            id.name@,
        ) is None && x.method@ == "builder"@ {
            Some(
                (
                    st.error_if(
                        x.args.positional@.len() > 0,
                        id.name@ + ".builder() takes no arguments"@,
                        x.span,
                    ).error_if(
                        x.type_args@.len() > 0,
                        "built-in `"@ + id.name@ + "."@ + x.method@
                            + "` does not take type arguments"@,
                        x.span,
                    ),
                    if id.name@ == "List"@ {
                        ty_list_builder(Ty::TypeVar("T"@))
                    } else {
                        ty_map_builder(Ty::TypeVar("K"@), Ty::TypeVar("V"@))
                    },
                ),
            )
        } else {
            None
        },
        _ => None,
    }
}

// ── Declared methods ─────────────────────────────────────────────────

/// The first `n` arguments of a method.
pub open spec fn sem_method_args_n(
    env: EnvV,
    st: StateV,
    args: Seq<Expr>,
    method: Chars,
    params: Seq<Ty>,
    b: Bindings,
    n: int,
) -> StateV
    decreases args, n,
{
    if n <= 0 || n > args.len() {
        st
    } else {
        let expected = subst(type_at(params, n - 1), b);
        let (s, t) = sem_expr(
            env,
            sem_method_args_n(env, st, args, method, params, b, n - 1),
            args[n - 1],
        );
        pinned(
            env,
            s.error_if(
                clash(env, s, expected, t),
                argument_message((n - 1) as nat, method, expected, t),
                expr_span(args[n - 1]),
            ),
            args[n - 1],
            expected,
        )
    }
}

/// The arguments of a method with the given parameters.
pub open spec fn sem_method_args(
    env: EnvV,
    st: StateV,
    x: MethodCallExpr,
    params: Seq<Ty>,
    names: Seq<Chars>,
    b: Bindings,
    defaults: Seq<(usize, Expr)>,
) -> StateV
    decreases x, 5int,
{
    let argc = x.args.positional@.len();
    let missing = missing_n(names, defaults, argc, Seq::empty(), params.len() as int);
    if argc > params.len() {
        st.error(
            "method `"@ + x.method@ + "` takes "@ + decimal(params.len()) + " argument(s), got "@
                + decimal(argc),
            x.span,
        )
    } else if missing.len() > 0 {
        st.error(
            "method `"@ + x.method@ + "` missing argument(s): "@ + join(missing, ", "@),
            x.span,
        )
    } else {
        sem_method_args_n(env, st, x.args.positional@, x.method@, params, b, argc as int)
    }
}

/// A call of a method of a trait.
pub open spec fn sem_trait_method(env: EnvV, st: StateV, x: MethodCallExpr, m: TraitMethodInfoV) -> (
    StateV,
    Ty,
)
    decreases x, 6int,
{
    (
        sem_method_args(
            env,
            no_type_args(st, x),
            x,
            m.params,
            arg_names_n(m.params.len() as int),
            Seq::empty(),
            Seq::empty(),
        ),
        m.return_type,
    )
}

/// Methods of traits take no type arguments.
pub open spec fn no_type_args(st: StateV, x: MethodCallExpr) -> StateV {
    st.error_if(
        x.type_args@.len() > 0,
        "trait method `"@ + x.method@ + "` does not take type arguments"@,
        x.span,
    )
}

/// The explicit type arguments of a method call.
pub open spec fn type_args_given(
    env: EnvV,
    st: StateV,
    x: MethodCallExpr,
    params: Seq<Chars>,
    owner: Chars,
    b: Bindings,
) -> (StateV, Bindings) {
    if x.type_args@.len() != params.len() {
        (
            st.error(
                "method `"@ + owner + "."@ + x.method@ + "` expects "@ + decimal(params.len())
                    + " type argument(s), got "@ + decimal(x.type_args@.len()),
                x.span,
            ),
            b,
        )
    } else {
        let (s, ts) = resolved_n(env, st, x.type_args@, x.type_args@.len() as int);
        (
            if all_settled(ts, s.type_params) {
                StateV { call_type_args: put(s.call_type_args, x.span, ts), ..s }
            } else {
                s
            },
            rebound_n(b, params, ts, params.len() as int),
        )
    }
}

/// What the type parameters of a method stand for at a call, given those of
/// its type.
pub open spec fn sem_method_bindings(
    env: EnvV,
    st: StateV,
    x: MethodCallExpr,
    owner: Chars,
    m: MethodInfoV,
    b: Bindings,
) -> (StateV, Bindings)
    decreases x, 6int,
{
    if m.type_params.len() == 0 {
        (
            st.error_if(
                x.type_args@.len() > 0,
                "method `"@ + x.method@ + "` does not take type arguments"@,
                x.span,
            ),
            b,
        )
    } else if x.type_args@.len() > 0 {
        type_args_given(env, st, x, m.type_params, owner, b)
    } else {
        let (s, ts) = sem_types_n(
            env,
            st,
            x.args.positional@,
            x.args.positional@.len() as int,
        );
        let (mb, errors) = inferred(m.params, ts);
        let all = merged_n(b, mb, mb.len() as int);
        (
            type_args_recorded(
                s,
                owner + "."@ + x.method@,
                m.type_params,
                all,
                errors,
                ts,
                x.span,
            ),
            all,
        )
    }
}

/// A call of a method that the type `owner` declares.
pub open spec fn sem_declared_method(
    env: EnvV,
    st: StateV,
    x: MethodCallExpr,
    owner: Chars,
    m: MethodInfoV,
    b: Bindings,
) -> (StateV, Ty)
    decreases x, 7int,
{
    let (s, all) = sem_method_bindings(env, st, x, owner, m, b);
    (
        sem_method_args(env, s, x, m.params, m.param_names, all, m.default_param_exprs),
        subst(m.return_type, all),
    )
}

/// The declared method that a call on type `t` names.
pub open spec fn declared_method(env: EnvV, owner: Chars, method: Chars) -> Option<MethodInfoV> {
    match methods_of(env, owner) {
        Some(ms) => find(ms, method),
        None => None,
    }
}

/// How a type is called in messages and in the table of methods.
pub open spec fn type_label(env: EnvV, t: Ty) -> Chars {
    match base_and_bindings(env, t).0 {
        Some(n) => n,
        None => show(t),
    }
}

/// The method that the bounds of a type variable give.
pub open spec fn bound_method_of(env: EnvV, st: StateV, t: Ty, method: Chars) -> Option<
    TraitMethodInfoV,
> {
    match t {
        Ty::TypeVar(var) => bound_method_from(env, st.bounds, var, method, 0),
        _ => None,
    }
}

/// A call on a value that has no such method. Inside a `where` clause, an
/// optional value stands for what it holds.
pub open spec fn sem_no_method(env: EnvV, st: StateV, x: MethodCallExpr, t: Ty) -> (StateV, Ty)
    decreases x, 7int,
{
    let inner = match t {
        Ty::Generic(n, args) => if st.in_constraint && n == "Option"@ && args.len() == 1 {
            sem_builtin_method(env, st, x, args[0])
        } else {
            None
        },
        _ => None,
    };
    match inner {
        Some(r) => r,
        None => (
            st.error(
                "no method `"@ + x.method@ + "` on type `"@ + bare(type_label(env, t)) + "`"@,
                x.span,
            ),
            Ty::Error,
        ),
    }
}

/// A call on a value of type `t` that is no method of the language.
pub open spec fn sem_user_method(env: EnvV, st: StateV, x: MethodCallExpr, t: Ty) -> (StateV, Ty)
    decreases x, 8int,
{
    match t {
        Ty::Dyn(tr) => {
            let m = match named(env, env.traits, tr) {
                Some(info) => method_from(info.methods, x.method@, 0),
                None => None,
            };
            match m {
                Some(m) => sem_trait_method(env, st, x, m),
                None => (
                    no_type_args(st, x).error(
                        "trait `"@ + tr + "` has no method `"@ + x.method@ + "`"@,
                        x.span,
                    ),
                    Ty::Error,
                ),
            }
        },
        _ => {
            let owner = type_label(env, t);
            match declared_method(env, owner, x.method@) {
                Some(m) => sem_declared_method(env, st, x, owner, m, base_and_bindings(env, t).1),
                None => match bound_method_of(env, st, t, x.method@) {
                    Some(m) => sem_trait_method(env, st, x, m),
                    None => sem_no_method(env, st, x, t),
                },
            }
        },
    }
}

/// A method call on a value of type `t`.
pub open spec fn sem_method_on(env: EnvV, st: StateV, x: MethodCallExpr, t: Ty) -> (StateV, Ty)
    decreases x, 9int,
{
    if t == Ty::Error {
        (st, Ty::Error)
    } else if t == Ty::Void {
        (st.error("cannot call method on "@ + show(t), x.span), Ty::Error)
    } else {
        match sem_builtin_method(env, st, x, t) {
            Some((s, r)) => (
                s.error_if(
                    x.type_args@.len() > 0,
                    "built-in method `"@ + x.method@ + "` does not take type arguments"@,
                    x.span,
                ),
                r,
            ),
            None => sem_user_method(env, st, x, t),
        }
    }
}

pub open spec fn sem_method_call(env: EnvV, st: StateV, x: MethodCallExpr) -> (StateV, Ty)
    decreases x, 10int,
{
    match sem_namespace_call(env, st, x) {
        Some(r) => r,
        None => match static_called(st, x) {
            Some(r) => r,
            None => {
                let (s, t) = sem_expr(env, st, x.object);
                sem_method_on(env, s, x, t)
            },
        },
    }
}

impl State {
    fn check_namespace_call(&mut self, env: &Env<'_>, x: &MethodCallExpr) -> (r: Option<Type>)
        ensures
            r is None ==> sem_namespace_call(env@, old(self)@, *x) is None && final(self)@ == old(
                self,
            )@,
            r is Some ==> sem_namespace_call(env@, old(self)@, *x) == Some(
                (final(self)@, r->0@),
            ),
        decreases x, 8int,
    {
        if let Expr::Ident(id) = &x.object {
            if self.has_variable(&id.name) {
                return None;
            }
            match env.namespace_target(&id.name) {
                Some(NamespaceTarget::UserModule(path)) => {
                    Some(self.check_user_namespace_call(env, x, &id.name, path))
                },
                Some(NamespaceTarget::Json) => Some(self.check_json_namespace_call(env, x)),
                None => None,
            }
        } else {
            None
        }
    }

    fn check_user_namespace_call(
        &mut self,
        env: &Env<'_>,
        x: &MethodCallExpr,
        ns: &String,
        path: &ModulePath,
    ) -> (r: Type)
        ensures
            (final(self)@, r@) == sem_module_call(env@, old(self)@, *x, ns@, path@),
        decreases x, 7int,
    {
        if x.type_args.len() > 0 {
            self.error(
                cat5("function `", ns, ".", &x.method, "` does not take type arguments"),
                x.span,
            );
        }
        let key = module_qualify(path, &x.method);
        match env.functions.get(&key) {
            None => {
                self.error(
                    cat5("module `", &path.text(), "` has no function `", &x.method, "`"),
                    x.span,
                );
                let _ = self.check_exprs(env, &x.args.positional);
                Type::Error
            },
            Some(f) => {
                if f.visibility != Visibility::Public {
                    self.emit_private_access_diagnostic(
                        cat5(
                            "function `",
                            &x.method,
                            "` is private to module `",
                            &path.text(),
                            "`",
                        ),
                        x.span,
                        f.definition_span,
                        cat9(
                            "mark `",
                            &x.method,
                            "` as `public` in `",
                            &path.text(),
                            "` to call it as `",
                            ns,
                            ".",
                            &x.method,
                            "`",
                        ),
                    );
                    let _ = self.check_exprs(env, &x.args.positional);
                    return Type::Error;
                }
                self.record_namespace_call(x.span, key);
                self.check_call_with_info(env, &cat3(ns, ".", &x.method), f, &x.args, x.span)
            },
        }
    }

    fn check_json_namespace_call(&mut self, env: &Env<'_>, x: &MethodCallExpr) -> (r: Type)
        ensures
            (final(self)@, r@) == sem_json_call(env@, old(self)@, *x),
        decreases x, 7int,
    {
        if same_text(&x.method, "encode") {
            self.check_json_encode(env, x);
            Type::String
        } else if same_text(&x.method, "decode") {
            self.check_json_decode(env, x)
        } else {
            self.error(
                cat3(
                    "`json.",
                    &x.method,
                    "` is not available yet — JSON serialization lands in Phase 4.6",
                ),
                x.span,
            );
            let _ = self.check_exprs(env, &x.args.positional);
            Type::Error
        }
    }

    fn encode(&mut self, env: &Env<'_>, x: &MethodCallExpr, t: Type)
        requires
            x.args.positional@.len() == 1,
        ensures
            final(self)@ == encoded(env@, old(self)@, *x, t@),
    {
        if t.is_error() {
            return;
        }
        let span = x.args.positional[0].span();
        let none: Vec<String> = Vec::new();
        assert(none.deep_view() =~= Seq::<Chars>::empty());
        match env.unsupported_json_type(&t, &none) {
            Some(what) => {
                self.error(
                    cat3(
                        "`json.encode` does not support `",
                        &what,
                        "` yet — supported today: Int, Float, Bool, String, and structs of those (more types land in later Phase 4.6 slices)",
                    ),
                    span,
                );
            },
            None => {
                if !self.json_field_privacy_violation(env, "json.encode", &t, span) {
                    self.record_json_encode(x.span, t);
                }
            },
        }
    }

    fn check_json_encode(&mut self, env: &Env<'_>, x: &MethodCallExpr)
        ensures
            final(self)@ == sem_json_encode(env@, old(self)@, *x),
        decreases x, 6int,
    {
        if x.type_args.len() > 0 {
            self.error("`json.encode` does not take type arguments".to_owned(), x.span);
        }
        if x.args.positional.len() != 1 {
            self.error(
                cat2("json.encode() takes 1 argument, got ", &count_text(x.args.positional.len())),
                x.span,
            );
            let _ = self.check_exprs(env, &x.args.positional);
            return;
        }
        let t = self.check_expr(env, &x.args.positional[0]);
        self.encode(env, x, t);
    }

    fn check_json_text(&mut self, env: &Env<'_>, x: &MethodCallExpr) -> (r: bool)
        ensures
            (final(self)@, r) == sem_json_text(env@, old(self)@, *x),
        decreases x, 5int,
    {
        if x.args.positional.len() != 1 {
            self.error(
                cat2("json.decode() takes 1 argument, got ", &count_text(x.args.positional.len())),
                x.span,
            );
            let _ = self.check_exprs(env, &x.args.positional);
            return false;
        }
        let t = self.check_expr(env, &x.args.positional[0]);
        if !t.is_error() && !t.is_string() {
            self.error(
                cat3("json.decode() expects a `String` argument, got `", &t.text(), "`"),
                x.args.positional[0].span(),
            );
            return false;
        }
        true
    }

    fn decode(&mut self, env: &Env<'_>, x: &MethodCallExpr, well: bool) -> (r: Type)
        ensures
            (final(self)@, r@) == decoded(env@, old(self)@, *x, well),
    {
        if x.type_args.len() == 0 {
            self.error(
                "json.decode requires an explicit type argument, e.g. `json.decode<Int>(s)`".to_owned(),
                x.span,
            );
            return Type::Error;
        }
        if x.type_args.len() > 1 {
            self.error("json.decode takes a single type argument".to_owned(), x.span);
        }
        let t = self.resolve_type_expr(env, &x.type_args[0]);
        if t.is_error() {
            return Type::Error;
        }
        let none: Vec<String> = Vec::new();
        assert(none.deep_view() =~= Seq::<Chars>::empty());
        match env.unsupported_json_type(&t, &none) {
            Some(what) => {
                self.error(
                    cat3(
                        "`json.decode` does not support `",
                        &what,
                        "` yet — supported today: Int, Float, Bool, String, `Option<T>`, `List<T>`, `Map<String, V>`, and non-generic structs and enums of supported types (non-`String`-key maps are a deferred follow-up)",
                    ),
                    x.span,
                );
            },
            None => {
                if !self.json_field_privacy_violation(env, "json.decode", &t, x.span) && well {
                    self.record_json_decode(x.span, t.dup());
                }
            },
        }
        result_of(t, Type::Named("JsonError".to_owned()))
    }

    fn check_json_decode(&mut self, env: &Env<'_>, x: &MethodCallExpr) -> (r: Type)
        ensures
            (final(self)@, r@) == sem_json_decode(env@, old(self)@, *x),
        decreases x, 6int,
    {
        let well = self.check_json_text(env, x);
        self.decode(env, x, well)
    }

    fn check_builtin_static_method(&mut self, x: &MethodCallExpr) -> (r: Option<Type>)
        ensures
            r is None ==> static_called(old(self)@, *x) is None && final(self)@ == old(self)@,
            r is Some ==> static_called(old(self)@, *x) == Some((final(self)@, r->0@)),
    {
        if let Expr::Ident(id) = &x.object {
            let is_list = same_text(&id.name, "List");
            if (is_list || same_text(&id.name, "Map")) && !self.has_variable(&id.name)
                && same_text(&x.method, "builder") {
                if x.args.positional.len() > 0 {
                    self.error(cat2(&id.name, ".builder() takes no arguments"), x.span);
                }
                if x.type_args.len() > 0 {
                    self.error(
                        cat5(
                            "built-in `",
                            &id.name,
                            ".",
                            &x.method,
                            "` does not take type arguments",
                        ),
                        x.span,
                    );
                }
                return if is_list {
                    Some(list_builder_of(type_var("T")))
                } else {
                    Some(map_builder_of(type_var("K"), type_var("V")))
                };
            }
        }
        None
    }

    fn check_each_method_arg(
        &mut self,
        env: &Env<'_>,
        args: &Vec<Expr>,
        method: &str,
        params: &Vec<Type>,
        b: &Table<String, Type>,
    )
        ensures
            final(self)@ == sem_method_args_n(
                env@,
                old(self)@,
                args@,
                method@,
                params.deep_view(),
                b@,
                args@.len() as int,
            ),
        decreases args, 0int,
    {
        let mut i: usize = 0;
        while i < args.len()
            invariant
                i <= args.len(),
                self@ == sem_method_args_n(
                    env@,
                    old(self)@,
                    args@,
                    method@,
                    params.deep_view(),
                    b@,
                    i as int,
                ),
            decreases args.len() - i,
        {
            let t = self.check_expr(env, &args[i]);
            let expected = substitute(&type_at_index(params, i), b);
            if self.types_clash(env, &expected, &t) {
                self.error(argument_text(i, method, &expected, &t), args[i].span());
            }
            self.pin_inferred_type_to_annotation(env, &args[i], &expected);
            i += 1;
        }
    }

    /// Checks the arguments of a method call against its parameters.
    pub fn check_method_args(
        &mut self,
        env: &Env<'_>,
        x: &MethodCallExpr,
        params: &Vec<Type>,
        names: &Vec<String>,
        b: &Table<String, Type>,
        defaults: &Table<usize, &Expr>,
    )
        ensures
            final(self)@ == sem_method_args(
                env@,
                old(self)@,
                *x,
                params.deep_view(),
                names.deep_view(),
                b@,
                defaults@,
            ),
        decreases x, 5int,
    {
        let argc: usize = x.args.positional.len();
        if argc > params.len() {
            self.error(
                cat6(
                    "method `",
                    &x.method,
                    "` takes ",
                    &count_text(params.len()),
                    " argument(s), got ",
                    &count_text(argc),
                ),
                x.span,
            );
            return;
        }
        let no_names: Vec<(String, Expr)> = Vec::new();
        let missing = missing_arguments(names, defaults, argc, &no_names, params.len());
        if missing.len() > 0 {
            self.error(
                cat4(
                    "method `",
                    &x.method,
                    "` missing argument(s): ",
                    &join_text(&missing, ", "),
                ),
                x.span,
            );
            return;
        }
        self.check_each_method_arg(env, &x.args.positional, &x.method, params, b);
    }

    fn reject_type_args(&mut self, x: &MethodCallExpr)
        ensures
            final(self)@ == no_type_args(old(self)@, *x),
    {
        if x.type_args.len() > 0 {
            self.error(
                cat3("trait method `", &x.method, "` does not take type arguments"),
                x.span,
            );
        }
    }

    fn check_trait_method(&mut self, env: &Env<'_>, x: &MethodCallExpr, m: &TraitMethodInfo) -> (r: Type)
        ensures
            (final(self)@, r@) == sem_trait_method(env@, old(self)@, *x, m.deep_view()),
        decreases x, 6int,
    {
        self.reject_type_args(x);
        self.check_method_args(
            env,
            x,
            &m.params,
            &arg_names(m.params.len()),
            &Table::new(),
            &Table::new(),
        );
        m.return_type.dup()
    }

    fn apply_explicit_method_type_args(
        &mut self,
        env: &Env<'_>,
        x: &MethodCallExpr,
        params: &Vec<String>,
        owner: &String,
        b: Table<String, Type>,
    ) -> (r: Table<String, Type>)
        ensures
            (final(self)@, r@) == type_args_given(
                env@,
                old(self)@,
                *x,
                params.deep_view(),
                owner@,
                b@,
            ),
    {
        if x.type_args.len() != params.len() {
            self.error(
                cat2(
                    &cat7(
                        "method `",
                        owner,
                        ".",
                        &x.method,
                        "` expects ",
                        &count_text(params.len()),
                        " type argument(s), got ",
                    ),
                    &count_text(x.type_args.len()),
                ),
                x.span,
            );
            return b;
        }
        let ts = self.resolve_type_exprs(env, &x.type_args);
        let mut all = b;
        proof {
            lemma_resolved_len(env@, old(self)@, x.type_args@, x.type_args@.len() as int);
        }
        rebind(&mut all, params, &ts);
        if self.settles(&ts) {
            self.record_type_args(x.span, ts);
        }
        all
    }

    fn check_method_bindings(
        &mut self,
        env: &Env<'_>,
        x: &MethodCallExpr,
        owner: &String,
        m: &MethodInfo<'_>,
        b: Table<String, Type>,
    ) -> (r: Table<String, Type>)
        ensures
            (final(self)@, r@) == sem_method_bindings(
                env@,
                old(self)@,
                *x,
                owner@,
                m.deep_view(),
                b@,
            ),
        decreases x, 6int,
    {
        if m.type_params.len() == 0 {
            if x.type_args.len() > 0 {
                self.error(
                    cat3("method `", &x.method, "` does not take type arguments"),
                    x.span,
                );
            }
            return b;
        }
        if x.type_args.len() > 0 {
            return self.apply_explicit_method_type_args(env, x, &m.type_params, owner, b);
        }
        let ts = self.check_exprs(env, &x.args.positional);
        let (mb, errors) = infer_type_args(&m.params, &ts);
        let mut all = b;
        merge_bindings(&mut all, &mb);
        self.record_inferred_type_args(
            &cat3(owner, ".", &x.method),
            &m.type_params,
            &all,
            &errors,
            &ts,
            x.span,
        );
        all
    }

    fn check_declared_method(
        &mut self,
        env: &Env<'_>,
        x: &MethodCallExpr,
        owner: &String,
        m: &MethodInfo<'_>,
        b: Table<String, Type>,
    ) -> (r: Type)
        ensures
            (final(self)@, r@) == sem_declared_method(
                env@,
                old(self)@,
                *x,
                owner@,
                m.deep_view(),
                b@,
            ),
        decreases x, 7int,
    {
        let all = self.check_method_bindings(env, x, owner, m, b);
        self.check_method_args(
            env,
            x,
            &m.params,
            &m.param_names,
            &all,
            &m.default_param_exprs,
        );
        substitute(&m.return_type, &all)
    }

    fn resolve_trait_bound_method<'e>(&self, env: &'e Env<'_>, t: &Type, method: &String) -> (r: Option<
        &'e TraitMethodInfo,
    >)
        ensures
            r.deep_view() == bound_method_of(env@, self@, t@, method@),
    {
        if let Type::TypeVar(var) = t {
            env.bound_method(&self.current_bounds(), var, method)
        } else {
            None
        }
    }

    fn check_no_method(&mut self, env: &Env<'_>, x: &MethodCallExpr, t: &Type) -> (r: Type)
        ensures
            (final(self)@, r@) == sem_no_method(env@, old(self)@, *x, t@),
        decreases x, 7int,
    {
        if let Type::Generic(n, args) = t {
            if self.is_in_constraint() && same_text(n, "Option") && args.len() == 1 {
                if let Some(r) = self.dispatch_builtin_method(env, x, &args[0]) {
                    return r;
                }
            }
        }
        self.error(
            cat5(
                "no method `",
                &x.method,
                "` on type `",
                &bare_name(&label_of(env, t)),
                "`",
            ),
            x.span,
        );
        Type::Error
    }

    fn check_user_method(&mut self, env: &Env<'_>, x: &MethodCallExpr, t: &Type) -> (r: Type)
        ensures
            (final(self)@, r@) == sem_user_method(env@, old(self)@, *x, t@),
        decreases x, 8int,
    {
        if let Type::Dyn(tr) = t {
            if let Some(info) = env.trait_of(tr) {
                if let Some(m) = find_trait_method(&info.methods, &x.method) {
                    return self.check_trait_method(env, x, m);
                }
            }
            self.reject_type_args(x);
            self.error(cat5("trait `", tr, "` has no method `", &x.method, "`"), x.span);
            return Type::Error;
        }
        let owner = label_of(env, t);
        if let Some(ms) = env.lookup_methods(&owner) {
            if let Some(m) = ms.get(&x.method) {
                let (_, b) = env.extract_base_and_bindings(t);
                return self.check_declared_method(env, x, &owner, m, b);
            }
        }
        match self.resolve_trait_bound_method(env, t, &x.method) {
            Some(m) => self.check_trait_method(env, x, m),
            None => self.check_no_method(env, x, t),
        }
    }

    fn check_method_on(&mut self, env: &Env<'_>, x: &MethodCallExpr, t: &Type) -> (r: Type)
        ensures
            (final(self)@, r@) == sem_method_on(env@, old(self)@, *x, t@),
        decreases x, 9int,
    {
        if t.is_error() {
            return Type::Error;
        }
        if t.is_void() {
            self.error(cat2("cannot call method on ", &t.text()), x.span);
            return Type::Error;
        }
        if let Some(r) = self.dispatch_builtin_method(env, x, t) {
            if x.type_args.len() > 0 {
                self.error(
                    cat3("built-in method `", &x.method, "` does not take type arguments"),
                    x.span,
                );
            }
            return r;
        }
        self.check_user_method(env, x, t)
    }

    pub fn check_method_call(&mut self, env: &Env<'_>, x: &MethodCallExpr) -> (r: Type)
        ensures
            (final(self)@, r@) == sem_method_call(env@, old(self)@, *x),
        decreases x, 10int,
    {
        if let Some(r) = self.check_namespace_call(env, x) {
            return r;
        }
        if let Some(r) = self.check_builtin_static_method(x) {
            return r;
        }
        let t = self.check_expr(env, &x.object);
        self.check_method_on(env, x, &t)
    }
}

fn label_of(env: &Env<'_>, t: &Type) -> (r: String)
    ensures
        r@ == type_label(env@, t@),
{
    let (base, _) = env.extract_base_and_bindings(t);
    match base {
        Some(n) => n,
        None => t.text(),
    }
}

/// Each type expression gets a type.
proof fn lemma_resolved_len(env: EnvV, st: StateV, tes: Seq<crate::ast::TypeExpr>, n: int)
    requires
        0 <= n <= tes.len(),
    ensures
        resolved_n(env, st, tes, n).1.len() == n,
    decreases n,
{
    if n > 0 {
        lemma_resolved_len(env, st, tes, n - 1);
    }
}

} // verus!
