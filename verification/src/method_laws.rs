//! What calls of methods and of functions of other modules give, and what is
//! recorded for later phases.
use crate::ast::{expr_span, Expr, MethodCallExpr, VarDecl, Visibility};
use crate::calls::arg_names_n;
use crate::check_call::sem_call_info;
use crate::check_expr::sem_types_n;
use crate::check_method::{
    decoded, encoded, sem_declared_method, sem_method_args, sem_method_args_n, sem_module_call,
    sem_trait_method, sem_user_method,
};
use crate::check_stmt::{annotated, declared};
use crate::check_types::{base_and_bindings, compatible, resolved};
use crate::call_laws::supplied;
use crate::env::{methods_of, named, EnvV};
use crate::expr_laws::law_method_call_fits;
use crate::fit_laws::{accepted, lemma_counts, lemma_pinned_silent, silent};
use crate::info::{MethodInfoV, TraitMethodInfoV};
use crate::paths::qualified;
use crate::pin::only_refined;
use crate::pin_laws::law_pinning_only_refines;
use crate::privacy::{json_private, not_json};
use crate::state::StateV;
use crate::steady_bodies::{kept_sem_call_info, kept_sem_method_args, kept_sem_types_n};
use crate::table::{find, law_find_after_put, put};
use crate::text::Chars;
use crate::types::{subst, Bindings, Ty};
use vstd::prelude::*;

verus! {

broadcast use crate::steady::steps;

/// Whether the arguments of a method are all there and fit.
pub open spec fn arguments_fit(
    env: EnvV,
    st: StateV,
    x: MethodCallExpr,
    params: Seq<Ty>,
    names: Seq<Chars>,
    b: Bindings,
    defaults: Seq<(usize, Expr)>,
) -> bool {
    let args = x.args.positional@;
    &&& args.len() <= params.len()
    &&& forall|i: int|
        0 <= i < params.len() ==> #[trigger] supplied(
            names,
            defaults,
            args.len(),
            Seq::empty(),
            i,
        )
    &&& forall|i: int|
        0 <= i < args.len() ==> accepted(
            env,
            sem_method_args_n(env, st, args, x.method@, params, b, i),
            #[trigger] args[i],
            subst(params[i], b),
        )
}

/// A method without type parameters gives its result type, with the type
/// arguments of the object put in; the call adds no finding exactly if it has
/// no type arguments and its arguments are all there and fit.
pub proof fn law_declared_method_is_called(
    env: EnvV,
    st: StateV,
    x: MethodCallExpr,
    owner: Chars,
    m: MethodInfoV,
    b: Bindings,
)
    requires
        m.type_params.len() == 0,
        m.param_names.len() == m.params.len(),
    ensures
        sem_declared_method(env, st, x, owner, m, b).1 == subst(m.return_type, b),
        x.type_args@.len() == 0 ==> (silent(st, sem_declared_method(env, st, x, owner, m, b).0)
            <==> arguments_fit(
            env,
            st,
            x,
            m.params,
            m.param_names,
            b,
            m.default_param_exprs,
        )),
        x.type_args@.len() > 0 ==> !silent(
            st,
            sem_declared_method(env, st, x, owner, m, b).0,
        ),
{
    law_method_call_fits(env, st, x, m.params, m.param_names, b, m.default_param_exprs);
    let s = st.error_if(
        x.type_args@.len() > 0,
        "method `"@ + x.method@ + "` does not take type arguments"@,
        x.span,
    );
    kept_sem_method_args(env, s, x, m.params, m.param_names, b, m.default_param_exprs);
    lemma_counts(
        s,
        sem_method_args(env, s, x, m.params, m.param_names, b, m.default_param_exprs),
    );
}

proof fn lemma_arg_names(n: int)
    requires
        0 <= n,
    ensures
        arg_names_n(n).len() == n,
    decreases n,
{
    if n > 0 {
        lemma_arg_names(n - 1);
    }
}

/// A method of a trait gives its result type; the call adds no finding exactly
/// if it has no type arguments and its arguments are all there and fit.
pub proof fn law_trait_method_is_called(
    env: EnvV,
    st: StateV,
    x: MethodCallExpr,
    m: TraitMethodInfoV,
)
    ensures
        sem_trait_method(env, st, x, m).1 == m.return_type,
        x.type_args@.len() == 0 ==> (silent(st, sem_trait_method(env, st, x, m).0)
            <==> arguments_fit(
            env,
            st,
            x,
            m.params,
            arg_names_n(m.params.len() as int),
            Seq::empty(),
            Seq::empty(),
        )),
        x.type_args@.len() > 0 ==> !silent(st, sem_trait_method(env, st, x, m).0),
{
    let names = arg_names_n(m.params.len() as int);
    lemma_arg_names(m.params.len() as int);
    law_method_call_fits(env, st, x, m.params, names, Seq::empty(), Seq::empty());
    let s = crate::check_method::no_type_args(st, x);
    kept_sem_method_args(env, s, x, m.params, names, Seq::empty(), Seq::empty());
    lemma_counts(s, sem_method_args(env, s, x, m.params, names, Seq::empty(), Seq::empty()));
}

/// A method on a value is looked for among the methods that its type declares,
/// whatever the type arguments of the value, and is called with these put in.
pub proof fn law_method_of_the_type_is_called(
    env: EnvV,
    st: StateV,
    x: MethodCallExpr,
    t: Ty,
    key: Chars,
    m: MethodInfoV,
)
    requires
        t is Named || t is Generic,
        base_and_bindings(env, t).0 == Some(key),
        methods_of(env, key) matches Some(ms) && find(ms, x.method@) == Some(m),
    ensures
        sem_user_method(env, st, x, t) == sem_declared_method(
            env,
            st,
            x,
            key,
            m,
            base_and_bindings(env, t).1,
        ),
{
}

/// On a trait object the methods of the trait can be called, and nothing else.
pub proof fn law_method_of_a_trait_object_is_called(
    env: EnvV,
    st: StateV,
    x: MethodCallExpr,
    tr: Chars,
    i: int,
)
    requires
        named(env, env.traits, tr) matches Some(info) && 0 <= i <= info.methods.len() && forall|
            j: int,
        |
            0 <= j < i ==> (#[trigger] info.methods[j]).name != x.method@,
    ensures
        ({
            let ms = named(env, env.traits, tr)->0.methods;
            &&& i < ms.len() && ms[i].name == x.method@ ==> sem_user_method(
                env,
                st,
                x,
                Ty::Dyn(tr),
            ) == sem_trait_method(env, st, x, ms[i])
            &&& i == ms.len() ==> !silent(st, sem_user_method(env, st, x, Ty::Dyn(tr)).0)
                && sem_user_method(env, st, x, Ty::Dyn(tr)).1 == Ty::Error
        }),
{
    crate::resolution_laws::law_trait_method_is_found(
        named(env, env.traits, tr)->0.methods,
        x.method@,
        i,
    );
}

/// A call through a namespace of a public function of that module is checked
/// like a call of the function and has its type; the key of the function is
/// recorded for the call. A private or unknown function is a finding.
pub proof fn law_module_function_is_called(
    env: EnvV,
    st: StateV,
    x: MethodCallExpr,
    ns: Chars,
    path: Seq<Chars>,
)
    ensures
        ({
            let key = qualified(path, x.method@);
            let r = sem_module_call(env, st, x, ns, path);
            match find(env.functions, key) {
                Some(f) => if f.visibility == Visibility::Public {
                    let s = StateV {
                        namespace_call_targets: put(st.namespace_call_targets, x.span, key),
                        ..st
                    };
                    &&& find(s.namespace_call_targets, x.span) == Some(key)
                    &&& x.type_args@.len() == 0 ==> r == sem_call_info(
                        env,
                        s,
                        ns + "."@ + x.method@,
                        f,
                        x.args,
                        x.span,
                    )
                    &&& x.type_args@.len() > 0 ==> !silent(st, r.0)
                } else {
                    !silent(st, r.0) && r.1 == Ty::Error
                },
                None => !silent(st, r.0) && r.1 == Ty::Error,
            }
        }),
{
    let key = qualified(path, x.method@);
    let n = x.args.positional@.len() as int;
    law_find_after_put(st.namespace_call_targets, x.span, key);
    let s = st.error_if(
        x.type_args@.len() > 0,
        "function `"@ + ns + "."@ + x.method@ + "` does not take type arguments"@,
        x.span,
    );
    match find(env.functions, key) {
        Some(f) => {
            let named_state = StateV {
                namespace_call_targets: put(s.namespace_call_targets, x.span, key),
                ..s
            };
            kept_sem_call_info(env, named_state, ns + "."@ + x.method@, f, x.args, x.span);
            lemma_counts(
                named_state,
                sem_call_info(env, named_state, ns + "."@ + x.method@, f, x.args, x.span).0,
            );
            let refused = s.diagnose(
                crate::privacy::private_access(
                    "function `"@ + x.method@ + "` is private to module `"@
                        + crate::paths::path_text(path) + "`"@,
                    x.span,
                    f.definition_span,
                    "mark `"@ + x.method@ + "` as `public` in `"@ + crate::paths::path_text(path)
                        + "` to call it as `"@ + ns + "."@ + x.method@ + "`"@,
                ),
            );
            kept_sem_types_n(env, refused, x.args.positional@, n);
            lemma_counts(refused, sem_types_n(env, refused, x.args.positional@, n).0);
        },
        None => {
            let unknown = s.error(
                "module `"@ + crate::paths::path_text(path) + "` has no function `"@ + x.method@
                    + "`"@,
                x.span,
            );
            kept_sem_types_n(env, unknown, x.args.positional@, n);
            lemma_counts(unknown, sem_types_n(env, unknown, x.args.positional@, n).0);
        },
    }
}

/// An encoded value without findings is of a type that JSON can carry and that
/// has no private fields of another module in it, and that type is recorded for
/// the call.
pub proof fn law_encoding_is_recorded(env: EnvV, st: StateV, x: MethodCallExpr, t: Ty)
    requires
        t != Ty::Error,
        silent(st, encoded(env, st, x, t)),
        !json_private(
            env,
            st,
            "json.encode"@,
            t,
            expr_span(x.args.positional@[0]),
            Seq::empty(),
        ).1,
    ensures
        not_json(env, t, Seq::empty()) is None,
        find(encoded(env, st, x, t).json_encode_types, x.span) == Some(t),
{
    let s = json_private(
        env,
        st,
        "json.encode"@,
        t,
        expr_span(x.args.positional@[0]),
        Seq::empty(),
    ).0;
    law_find_after_put(s.json_encode_types, x.span, t);
}

/// A decoded value is a result of the written type, and that type is recorded
/// for the call where nothing stands against it.
pub proof fn law_decoding_is_recorded(env: EnvV, st: StateV, x: MethodCallExpr, well: bool)
    requires
        x.type_args@.len() == 1,
        resolved(env, st, x.type_args@[0]).1 != Ty::Error,
    ensures
        ({
            let (s, t) = resolved(env, st, x.type_args@[0]);
            let r = decoded(env, st, x, well);
            &&& r.1 == Ty::Generic("Result"@, seq![t, Ty::Named("JsonError"@)])
            &&& not_json(env, t, Seq::empty()) is Some ==> r.0.diagnostics.len()
                == s.diagnostics.len() + 1
            &&& not_json(env, t, Seq::empty()) is None && well && !json_private(
                env,
                s,
                "json.decode"@,
                t,
                x.span,
                Seq::empty(),
            ).1 ==> find(r.0.json_decode_types, x.span) == Some(t)
        }),
{
    let (s, t) = resolved(env, st, x.type_args@[0]);
    let s1 = json_private(env, s, "json.decode"@, t, x.span, Seq::empty()).0;
    law_find_after_put(s1.json_decode_types, x.span, t);
}

/// The type of an annotated variable is recorded for its declaration.
pub proof fn law_annotation_is_recorded(
    env: EnvV,
    st: StateV,
    x: VarDecl,
    name: Chars,
    t: Ty,
    init: Ty,
)
    requires
        t != Ty::Error,
    ensures
        find(annotated(env, st, x, name, t, init).var_annotation_types, x.span) == Some(t),
        silent(st, annotated(env, st, x, name, t, init)) <==> compatible(
            env,
            st.bounds,
            t,
            init,
        ),
{
    let s1 = st.error_if(
        crate::check_types::clash(env, st, t, init),
        "type mismatch: variable `"@ + name + "` declared as `"@ + crate::types::show(t)
            + "` but initialized with `"@ + crate::types::show(init) + "`"@,
        x.span,
    );
    let s2 = StateV { var_annotation_types: put(s1.var_annotation_types, x.span, t), ..s1 };
    law_find_after_put(s1.var_annotation_types, x.span, t);
    law_pinning_only_refines(env, s2, x.initializer, t);
    reveal(only_refined);
    lemma_pinned_silent(env, x.initializer);
}

} // verus!
