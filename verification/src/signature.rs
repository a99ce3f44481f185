//! The signatures of functions and methods.
use crate::ast::{Expr, FunctionDecl, LiteralKind, Param, TypeExpr, UnaryOp};
use crate::check_expr::resolved_params_n;
use crate::check_types::resolved;
use crate::env::{Env, EnvV};
use crate::info::{MethodInfo, MethodInfoV};
use crate::span::FuncId;
use crate::state::{State, StateV};
use crate::table::Table;
use crate::text::{extend_view, push_view, same_text, Chars, Dup};
use crate::types::{Ty, Type};
use vstd::prelude::*;

verus! {

broadcast use crate::ty::view_of_type;

// ── Parameters ───────────────────────────────────────────────────────

/// Those of the first `n` parameters that are not the receiver.
pub open spec fn non_self_n(ps: Seq<Param>, n: int) -> Seq<Param>
    decreases n,
{
    if n <= 0 || n > ps.len() {
        Seq::empty()
    } else {
        let rest = non_self_n(ps, n - 1);
        if ps[n - 1].name@ == "self"@ {
            rest
        } else {
            rest.push(ps[n - 1])
        }
    }
}

/// The parameters without the receiver.
pub open spec fn non_self(ps: Seq<Param>) -> Seq<Param> {
    non_self_n(ps, ps.len() as int)
}

/// The names of the first `n` parameters.
pub open spec fn param_names_n(ps: Seq<Param>, n: int) -> Seq<Chars>
    decreases n,
{
    if n <= 0 || n > ps.len() {
        Seq::empty()
    } else {
        param_names_n(ps, n - 1).push(ps[n - 1].name@)
    }
}

/// The default values of the first `n` parameters, by position.
pub open spec fn defaults_n(ps: Seq<Param>, n: int) -> Seq<(usize, Expr)>
    decreases n,
{
    if n <= 0 || n > ps.len() {
        Seq::empty()
    } else {
        let rest = defaults_n(ps, n - 1);
        match ps[n - 1].default_value {
            Some(e) => rest.push(((n - 1) as usize, e)),
            None => rest,
        }
    }
}

/// Whether a value means the same wherever it stands: a literal, or a number
/// with a minus sign.
pub open spec fn pure_literal(e: Expr) -> bool {
    match e {
        Expr::Literal(_) => true,
        Expr::Unary(u) => u.op == UnaryOp::Neg && match u.operand {
            Expr::Literal(l) => l.kind is Int || l.kind is Float,
            _ => false,
        },
        _ => false,
    }
}

/// The positions among the first `n` defaults whose value has to be evaluated
/// where the function is declared.
pub open spec fn wrapped_n(ds: Seq<(usize, Expr)>, n: int) -> Seq<usize>
    decreases n,
{
    if n <= 0 || n > ds.len() {
        Seq::empty()
    } else {
        let rest = wrapped_n(ds, n - 1);
        if pure_literal(ds[n - 1].1) {
            rest
        } else {
            rest.push(ds[n - 1].0)
        }
    }
}

/// The defaults of a function that have to be evaluated where it is declared.
/// Generic functions have none.
pub open spec fn wrapped(ds: Seq<(usize, Expr)>, is_generic: bool) -> Seq<usize> {
    if is_generic {
        Seq::empty()
    } else {
        wrapped_n(ds, ds.len() as int)
    }
}

// ── Signatures ───────────────────────────────────────────────────────

/// What a [`Signature`] holds.
#[verifier::ext_equal]
pub struct SignatureV {
    pub params: Seq<Ty>,
    pub names: Seq<Chars>,
    pub defaults: Seq<(usize, Expr)>,
    pub ret: Ty,
}

/// A result type; a function without one returns nothing.
pub open spec fn resolved_return(env: EnvV, st: StateV, te: Option<TypeExpr>) -> (StateV, Ty) {
    match te {
        Some(te) => resolved(env, st, te),
        None => (st, Ty::Void),
    }
}

/// The signature of a function whose type parameters are `type_params`.
pub open spec fn signature_resolved(
    env: EnvV,
    st: StateV,
    type_params: Seq<Chars>,
    params: Seq<Param>,
    ret: Option<TypeExpr>,
) -> (StateV, SignatureV) {
    let ps = non_self(params);
    let n = ps.len() as int;
    let (s1, ts) = resolved_params_n(env, StateV { type_params, ..st }, ps, n);
    let (s2, t) = resolved_return(env, s1, ret);
    (
        StateV { type_params: st.type_params, ..s2 },
        SignatureV {
            params: ts,
            names: param_names_n(ps, n),
            defaults: defaults_n(ps, n),
            ret: t,
        },
    )
}

/// Whether the first parameter is the receiver.
pub open spec fn takes_self(ps: Seq<Param>) -> bool {
    ps.len() > 0 && ps[0].name@ == "self"@
}

/// The signature of a method of a type whose type parameters are `parent`.
pub open spec fn method_resolved(
    env: EnvV,
    st: StateV,
    parent: Seq<Chars>,
    f: FunctionDecl,
    id: FuncId,
) -> (StateV, MethodInfoV) {
    let own = f.type_params.deep_view();
    let (s, sig) = signature_resolved(env, st, parent + own, f.params@, f.return_type);
    (
        s,
        MethodInfoV {
            func_id: Some(id),
            definition_span: f.name_span,
            params: sig.params,
            param_names: sig.names,
            default_param_exprs: sig.defaults,
            default_needs_wrapper: wrapped(sig.defaults, parent.len() > 0 || own.len() > 0),
            return_type: sig.ret,
            type_params: own,
            has_self: takes_self(f.params@),
        },
    )
}

/// A resolved signature, without the receiver.
#[derive(Debug)]
pub struct Signature<'a> {
    pub params: Vec<Type>,
    pub names: Vec<String>,
    /// Default values, by index into `params`.
    pub defaults: Table<usize, &'a Expr>,
    pub ret: Type,
}

impl<'a> DeepView for Signature<'a> {
    type V = SignatureV;

    open spec fn deep_view(&self) -> SignatureV {
        SignatureV {
            params: self.params.deep_view(),
            names: self.names.deep_view(),
            defaults: self.defaults@,
            ret: self.ret@,
        }
    }
}

/// The parameters without the receiver.
pub fn non_self_params<'p>(ps: &'p Vec<Param>) -> (r: Vec<&'p Param>)
    ensures
        r.deep_view() == non_self(ps@),
{
    let mut out: Vec<&'p Param> = Vec::new();
    assert(out.deep_view() =~= Seq::<Param>::empty());
    let mut i: usize = 0;
    while i < ps.len()
        invariant
            i <= ps.len(),
            out.deep_view() == non_self_n(ps@, i as int),
        decreases ps.len() - i,
    {
        if !same_text(&ps[i].name, "self") {
            push_view(&mut out, &ps[i]);
        }
        i += 1;
    }
    out
}

fn names_of<'p>(ps: &Vec<&'p Param>) -> (r: Vec<String>)
    ensures
        r.deep_view() == param_names_n(ps.deep_view(), ps.deep_view().len() as int),
{
    let mut out: Vec<String> = Vec::new();
    assert(out.deep_view() =~= Seq::<Chars>::empty());
    let mut i: usize = 0;
    while i < ps.len()
        invariant
            i <= ps.len(),
            out.deep_view() == param_names_n(ps.deep_view(), i as int),
        decreases ps.len() - i,
    {
        assert(ps.deep_view()[i as int] == *ps[i as int]);
        push_view(&mut out, ps[i].name.clone());
        i += 1;
    }
    out
}

fn defaults_of<'p>(ps: &Vec<&'p Param>) -> (r: Table<usize, &'p Expr>)
    ensures
        r@ == defaults_n(ps.deep_view(), ps.deep_view().len() as int),
{
    let mut out: Vec<(usize, &'p Expr)> = Vec::new();
    assert(out.deep_view() =~= Seq::<(usize, Expr)>::empty());
    let mut i: usize = 0;
    while i < ps.len()
        invariant
            i <= ps.len(),
            out.deep_view() == defaults_n(ps.deep_view(), i as int),
        decreases ps.len() - i,
    {
        assert(ps.deep_view()[i as int] == *ps[i as int]);
        if let Some(e) = &ps[i].default_value {
            push_view(&mut out, (i, e));
        }
        i += 1;
    }
    Table { entries: out }
}

/// Whether a value means the same wherever it stands.
pub fn is_pure_literal(e: &Expr) -> (r: bool)
    ensures
        r == pure_literal(*e),
{
    match e {
        Expr::Literal(_) => true,
        Expr::Unary(u) => {
            if u.op != UnaryOp::Neg {
                return false;
            }
            match &u.operand {
                Expr::Literal(l) => match &l.kind {
                    LiteralKind::Int(_) => true,
                    LiteralKind::Float(_) => true,
                    _ => false,
                },
                _ => false,
            }
        },
        _ => false,
    }
}

/// The defaults of a function that have to be evaluated where it is declared.
pub fn compute_default_needs_wrapper(ds: &Table<usize, &Expr>, is_generic: bool) -> (r: Vec<usize>)
    ensures
        r@ == wrapped(ds@, is_generic),
{
    let mut out: Vec<usize> = Vec::new();
    if is_generic {
        return out;
    }
    let mut i: usize = 0;
    while i < ds.entries.len()
        invariant
            i <= ds.entries.len(),
            out@ == wrapped_n(ds@, i as int),
        decreases ds.entries.len() - i,
    {
        assert(ds@[i as int] == (ds.entries[i as int].0, *ds.entries[i as int].1));
        if !is_pure_literal(ds.entries[i].1) {
            out.push(ds.entries[i].0);
        }
        i += 1;
    }
    out
}

/// The type parameters of a method behind those of its type.
pub fn merge_type_params(parent: &Vec<String>, own: &Vec<String>) -> (r: Vec<String>)
    ensures
        r.deep_view() == parent.deep_view() + own.deep_view(),
{
    let mut out = parent.dup();
    extend_view(&mut out, own);
    out
}

impl State {
    pub fn resolve_param_refs(&mut self, env: &Env<'_>, ps: &Vec<&Param>) -> (r: Vec<Type>)
        ensures
            (final(self)@, r.deep_view()) == resolved_params_n(
                env@,
                old(self)@,
                ps.deep_view(),
                ps.deep_view().len() as int,
            ),
            r@.len() == ps@.len(),
    {
        let mut ts: Vec<Type> = Vec::new();
        assert(ts.deep_view() =~= Seq::<Ty>::empty());
        let mut i: usize = 0;
        while i < ps.len()
            invariant
                i <= ps.len(),
                ts@.len() == i,
                (self@, ts.deep_view()) == resolved_params_n(
                    env@,
                    old(self)@,
                    ps.deep_view(),
                    i as int,
                ),
            decreases ps.len() - i,
        {
            assert(ps.deep_view()[i as int] == *ps[i as int]);
            let t = self.resolve_type_expr(env, &ps[i].type_annotation);
            push_view(&mut ts, t);
            i += 1;
        }
        ts
    }

    /// The result type of a function.
    pub fn resolve_return(&mut self, env: &Env<'_>, te: &Option<TypeExpr>) -> (r: Type)
        ensures
            (final(self)@, r@) == resolved_return(env@, old(self)@, *te),
    {
        match te {
            Some(te) => self.resolve_type_expr(env, te),
            None => Type::Void,
        }
    }

    /// The signature of a function whose type parameters are `type_params`.
    pub fn resolve_signature<'p>(
        &mut self,
        env: &Env<'_>,
        type_params: Vec<String>,
        params: &'p Vec<Param>,
        ret: &Option<TypeExpr>,
    ) -> (r: Signature<'p>)
        ensures
            (final(self)@, r.deep_view()) == signature_resolved(
                env@,
                old(self)@,
                type_params.deep_view(),
                params@,
                *ret,
            ),
    {
        let outer = self.set_type_params(type_params);
        let ps = non_self_params(params);
        let ts = self.resolve_param_refs(env, &ps);
        let t = self.resolve_return(env, ret);
        let _ = self.set_type_params(outer);
        Signature { params: ts, names: names_of(&ps), defaults: defaults_of(&ps), ret: t }
    }

    /// The signature of a method of a type whose type parameters are `parent`.
    pub fn resolve_method<'p>(
        &mut self,
        env: &Env<'_>,
        parent: &Vec<String>,
        f: &'p FunctionDecl,
        id: FuncId,
    ) -> (r: MethodInfo<'p>)
        ensures
            (final(self)@, r.deep_view()) == method_resolved(
                env@,
                old(self)@,
                parent.deep_view(),
                *f,
                id,
            ),
    {
        let merged = merge_type_params(parent, &f.type_params);
        let sig = self.resolve_signature(env, merged, &f.params, &f.return_type);
        let is_generic = parent.len() > 0 || f.type_params.len() > 0;
        let has_self = f.params.len() > 0 && same_text(&f.params[0].name, "self");
        let wrapper = compute_default_needs_wrapper(&sig.defaults, is_generic);
        MethodInfo {
            func_id: Some(id),
            definition_span: f.name_span,
            params: sig.params,
            param_names: sig.names,
            default_param_exprs: sig.defaults,
            default_needs_wrapper: wrapper,
            return_type: sig.ret,
            type_params: f.type_params.dup(),
            has_self,
        }
    }
}

} // verus!
