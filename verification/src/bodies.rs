//! Bodies of functions and methods.
use crate::ast::{expr_span, Expr, FunctionDecl, InlineTraitImpl, Param, Statement};
use crate::check_expr::{own_type, own_type_of, params_defined_n, resolved_params_n, sem_again, sem_expr};
use crate::check_stmt::sem_block_n;
use crate::check_types::clash;
use crate::defer::defers_placed;
use crate::env::{canonical, Env, EnvV};
use crate::flow::{any_contains_return, if_diverges, if_expr_diverges, returns_from};
use crate::paths::{module_qualify, qualified};
use crate::signature::{
    merge_type_params, non_self, non_self_params, resolved_return,
};
use crate::state::{fixed, State, StateV};
use crate::table::find;
use crate::text::{cat4, cat5, cat7, Chars, Dup};
use crate::types::{has_vars, show, Ty, Type};
use vstd::prelude::*;

verus! {

broadcast use crate::ty::view_of_type;

/// A default value has the type of its parameter, and a type that means
/// something to a caller.
pub open spec fn default_checked(env: EnvV, st: StateV, p: Param, t: Ty) -> StateV {
    match p.default_value {
        Some(e) => {
            let (s, d) = sem_expr(env, st, e);
            s.error_if(
                clash(env, s, t, d),
                "default value for parameter `"@ + p.name@ + "`: expected `"@ + show(t)
                    + "` but got `"@ + show(d) + "`"@,
                expr_span(e),
            ).error_if(
                d != Ty::Error && has_vars(d),
                "default value for parameter `"@ + p.name@ + "`: type `"@ + show(d)
                    + "` references the function's own generic parameters — default expressions are evaluated at the caller's call site where those parameters are not bound"@,
                expr_span(e),
            )
        },
        None => st,
    }
}

/// The default values of the first `n` parameters.
pub open spec fn defaults_checked_n(env: EnvV, st: StateV, ps: Seq<Param>, ts: Seq<Ty>, n: int) -> StateV
    decreases n,
{
    if n <= 0 || n > ps.len() || n > ts.len() {
        st
    } else {
        default_checked(env, defaults_checked_n(env, st, ps, ts, n - 1), ps[n - 1], ts[n - 1])
    }
}

/// The error about a body that gives no value.
pub open spec fn value_missing(st: StateV, f: FunctionDecl, ret: Ty) -> StateV {
    st.error_if(
        !returns_from(f.body.statements@, 0),
        "function `"@ + f.name@ + "` has return type `"@ + show(ret)
            + "` but body does not return a value"@,
        f.span,
    )
}

/// A body that should give a value ends in one, or returns one.
pub open spec fn result_checked(env: EnvV, st: StateV, f: FunctionDecl, ret: Ty) -> StateV {
    let ss = f.body.statements@;
    if ret == Ty::Void || ret == Ty::Error {
        st
    } else if ss.len() > 0 && ss.last() is Expression {
        let last = ss.last()->Expression_0;
        if last.expr is If && if_diverges(*last.expr->If_0) {
            st
        } else {
            let (s, t) = sem_again(env, st, last.expr);
            if last.expr is If && t == Ty::Void {
                value_missing(s, f, ret)
            } else {
                s.error_if(
                    clash(env, s, ret, t),
                    "implicit return type mismatch: expected "@ + show(ret) + " but got "@ + show(
                        t,
                    ),
                    last.span,
                )
            }
        }
    } else {
        value_missing(st, f, ret)
    }
}

/// The body of a function, or of a method with the receiver type `receiver`.
pub open spec fn body_checked(
    env: EnvV,
    st: StateV,
    f: FunctionDecl,
    type_params: Seq<Chars>,
    receiver: Option<Ty>,
) -> StateV {
    let s0 = StateV { type_params, bounds: f.type_param_bounds.deep_view(), ..st };
    let (s1, ret) = resolved_return(env, s0, f.return_type);
    let ps = non_self(f.params@);
    let n = ps.len() as int;
    let (s2, ts) = resolved_params_n(env, StateV { return_type: Some(ret), ..s1 }, ps, n);
    let s3 = defaults_checked_n(env, s2.enter(), ps, ts, n).leave();
    let s4 = defers_placed(s3, f.body).enter();
    let s5 = match receiver {
        Some(t) => s4.define("self"@, fixed(t, f.span)),
        None => s4,
    };
    let s6 = sem_block_n(
        env,
        params_defined_n(s5, ps, ts, n),
        f.body.statements@,
        f.body.statements@.len() as int,
    );
    let s7 = result_checked(env, s6, f, ret).leave();
    StateV { return_type: None, type_params: st.type_params, bounds: st.bounds, ..s7 }
}

pub open spec fn function_checked(env: EnvV, st: StateV, f: FunctionDecl) -> StateV {
    body_checked(env, st, f, f.type_params.deep_view(), None)
}

/// The type parameters of a type of the current module.
pub open spec fn type_params_of(env: EnvV, name: Chars) -> Seq<Chars> {
    let key = qualified(env.current_module, name);
    match find(env.structs, key) {
        Some(info) => info.type_params,
        None => match find(env.enums, key) {
            Some(info) => info.type_params,
            None => Seq::empty(),
        },
    }
}

/// The first `n` methods of a type of the current module.
pub open spec fn methods_checked_n(
    env: EnvV,
    st: StateV,
    for_type: Chars,
    ms: Seq<FunctionDecl>,
    n: int,
) -> StateV
    decreases n,
{
    if n <= 0 || n > ms.len() {
        st
    } else {
        let parent = type_params_of(env, for_type);
        body_checked(
            env,
            methods_checked_n(env, st, for_type, ms, n - 1),
            ms[n - 1],
            parent + ms[n - 1].type_params.deep_view(),
            Some(own_type(canonical(env, for_type), parent)),
        )
    }
}

/// All methods of an `impl` block.
pub open spec fn methods_checked(env: EnvV, st: StateV, for_type: Chars, ms: Seq<FunctionDecl>) -> StateV {
    methods_checked_n(env, st, for_type, ms, ms.len() as int)
}

/// The first `n` trait implementations inside a type.
pub open spec fn inline_impls_checked_n(
    env: EnvV,
    st: StateV,
    for_type: Chars,
    impls: Seq<InlineTraitImpl>,
    n: int,
) -> StateV
    decreases n,
{
    if n <= 0 || n > impls.len() {
        st
    } else {
        methods_checked(
            env,
            inline_impls_checked_n(env, st, for_type, impls, n - 1),
            for_type,
            impls[n - 1].methods@,
        )
    }
}

/// The methods inside a type: its own, and those of trait implementations.
pub open spec fn inline_methods_checked(
    env: EnvV,
    st: StateV,
    for_type: Chars,
    methods: Seq<FunctionDecl>,
    impls: Seq<InlineTraitImpl>,
) -> StateV {
    inline_impls_checked_n(
        env,
        methods_checked(env, st, for_type, methods),
        for_type,
        impls,
        impls.len() as int,
    )
}

impl<'a> Env<'a> {
    /// The type parameters of a type of the current module.
    pub fn parent_type_params(&self, name: &String) -> (r: Vec<String>)
        ensures
            r.deep_view() == type_params_of(self@, name@),
    {
        let key = module_qualify(&self.current_module, name);
        match self.structs.get(&key) {
            Some(info) => info.type_params.dup(),
            None => match self.enums.get(&key) {
                Some(info) => info.type_params.dup(),
                None => {
                    let none: Vec<String> = Vec::new();
                    assert(none.deep_view() =~= Seq::<Chars>::empty());
                    none
                },
            },
        }
    }
}

impl State {
    fn check_default(&mut self, env: &Env<'_>, p: &Param, t: &Type)
        ensures
            final(self)@ == default_checked(env@, old(self)@, *p, t@),
    {
        if let Some(e) = &p.default_value {
            let d = self.check_expr(env, e);
            if self.types_clash(env, t, &d) {
                self.error(
                    cat7(
                        "default value for parameter `",
                        &p.name,
                        "`: expected `",
                        &t.text(),
                        "` but got `",
                        &d.text(),
                        "`",
                    ),
                    e.span(),
                );
            }
            if !d.is_error() && d.has_type_vars() {
                self.error(
                    cat5(
                        "default value for parameter `",
                        &p.name,
                        "`: type `",
                        &d.text(),
                        "` references the function's own generic parameters — default expressions are evaluated at the caller's call site where those parameters are not bound",
                    ),
                    e.span(),
                );
            }
        }
    }

    /// Checks the default values of parameters. Neither the receiver nor the
    /// other parameters are in scope.
    fn check_param_defaults(&mut self, env: &Env<'_>, ps: &Vec<&Param>, ts: &Vec<Type>)
        requires
            ps@.len() == ts@.len(),
        ensures
            final(self)@ == defaults_checked_n(
                env@,
                old(self)@.enter(),
                ps.deep_view(),
                ts.deep_view(),
                ps.deep_view().len() as int,
            ).leave(),
    {
        self.enter();
        let mut i: usize = 0;
        while i < ps.len()
            invariant
                i <= ps.len(),
                ps@.len() == ts@.len(),
                self@ == defaults_checked_n(
                    env@,
                    old(self)@.enter(),
                    ps.deep_view(),
                    ts.deep_view(),
                    i as int,
                ),
            decreases ps.len() - i,
        {
            assert(ps.deep_view()[i as int] == *ps[i as int]);
            self.check_default(env, ps[i], &ts[i]);
            i += 1;
        }
        self.leave();
    }

    fn define_param_refs(&mut self, ps: &Vec<&Param>, ts: &Vec<Type>)
        requires
            ps@.len() == ts@.len(),
        ensures
            final(self)@ == params_defined_n(
                old(self)@,
                ps.deep_view(),
                ts.deep_view(),
                ps.deep_view().len() as int,
            ),
    {
        let mut i: usize = 0;
        while i < ps.len()
            invariant
                i <= ps.len(),
                ps@.len() == ts@.len(),
                self@ == params_defined_n(
                    old(self)@,
                    ps.deep_view(),
                    ts.deep_view(),
                    i as int,
                ),
            decreases ps.len() - i,
        {
            assert(ps.deep_view()[i as int] == *ps[i as int]);
            self.define_fixed(ps[i].name.clone(), ts[i].dup(), ps[i].span);
            i += 1;
        }
    }

    fn report_missing_value(&mut self, f: &FunctionDecl, ret: &Type)
        ensures
            final(self)@ == value_missing(old(self)@, *f, ret@),
    {
        if !any_contains_return(&f.body.statements) {
            self.error(
                cat5(
                    "function `",
                    &f.name,
                    "` has return type `",
                    &ret.text(),
                    "` but body does not return a value",
                ),
                f.span,
            );
        }
    }

    /// Checks that a body that should give a value does.
    fn validate_implicit_return(&mut self, env: &Env<'_>, f: &FunctionDecl, ret: &Type)
        ensures
            final(self)@ == result_checked(env@, old(self)@, *f, ret@),
    {
        if ret.is_void() || ret.is_error() {
            return;
        }
        let n: usize = f.body.statements.len();
        if n > 0 {
            if let Statement::Expression(last) = &f.body.statements[n - 1] {
                let is_if = match &last.expr {
                    Expr::If(x) => {
                        if if_expr_diverges(x) {
                            return;
                        }
                        true
                    },
                    _ => false,
                };
                let t = self.infer_expr_type(env, &last.expr);
                if is_if && t.is_void() {
                    self.report_missing_value(f, ret);
                    return;
                }
                if self.types_clash(env, ret, &t) {
                    self.error(
                        cat4(
                            "implicit return type mismatch: expected ",
                            &ret.text(),
                            " but got ",
                            &t.text(),
                        ),
                        last.span,
                    );
                }
                return;
            }
        }
        self.report_missing_value(f, ret);
    }

    fn check_body_of(
        &mut self,
        env: &Env<'_>,
        f: &FunctionDecl,
        type_params: Vec<String>,
        receiver: Option<Type>,
    )
        ensures
            final(self)@ == body_checked(
                env@,
                old(self)@,
                *f,
                type_params.deep_view(),
                receiver.deep_view(),
            ),
    {
        let outer_params = self.set_type_params(type_params);
        let outer_bounds = self.set_bounds(f.type_param_bounds.dup());
        let ret = self.resolve_return(env, &f.return_type);
        let _ = self.set_return_type(Some(ret.dup()));
        let ps = non_self_params(&f.params);
        let ts = self.resolve_param_refs(env, &ps);
        self.check_param_defaults(env, &ps, &ts);
        self.check_defer_placement(&f.body);
        self.enter();
        if let Some(t) = receiver {
            self.define_fixed("self".to_owned(), t, f.span);
        }
        self.define_param_refs(&ps, &ts);
        self.check_block(env, &f.body);
        self.validate_implicit_return(env, f, &ret);
        self.leave();
        let _ = self.set_return_type(None);
        let _ = self.set_type_params(outer_params);
        let _ = self.set_bounds(outer_bounds);
    }

    /// Checks the body of a function.
    pub fn check_function(&mut self, env: &Env<'_>, f: &FunctionDecl)
        ensures
            final(self)@ == function_checked(env@, old(self)@, *f),
    {
        self.check_body_of(env, f, f.type_params.dup(), None);
    }

    /// Checks the bodies of the methods of an `impl` block.
    pub fn check_impl(&mut self, env: &Env<'_>, for_type: &String, ms: &Vec<FunctionDecl>)
        ensures
            final(self)@ == methods_checked(env@, old(self)@, for_type@, ms@),
    {
        let parent = env.parent_type_params(for_type);
        let mut i: usize = 0;
        while i < ms.len()
            invariant
                i <= ms.len(),
                parent.deep_view() == type_params_of(env@, for_type@),
                self@ == methods_checked_n(env@, old(self)@, for_type@, ms@, i as int),
            decreases ms.len() - i,
        {
            let merged = merge_type_params(&parent, &ms[i].type_params);
            let receiver = own_type_of(&env.qualify_in_current(for_type), &parent);
            self.check_body_of(env, &ms[i], merged, Some(receiver));
            i += 1;
        }
    }

    /// Checks the bodies of the methods inside a type.
    pub fn check_inline_methods(
        &mut self,
        env: &Env<'_>,
        for_type: &String,
        methods: &Vec<FunctionDecl>,
        impls: &Vec<InlineTraitImpl>,
    )
        ensures
            final(self)@ == inline_methods_checked(
                env@,
                old(self)@,
                for_type@,
                methods@,
                impls@,
            ),
    {
        self.check_impl(env, for_type, methods);
        let ghost before = self@;
        let mut i: usize = 0;
        while i < impls.len()
            invariant
                i <= impls.len(),
                self@ == inline_impls_checked_n(env@, before, for_type@, impls@, i as int),
            decreases impls.len() - i,
        {
            self.check_impl(env, for_type, &impls[i].methods);
            i += 1;
        }
    }
}

} // verus!
