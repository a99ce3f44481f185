//! Pinning recorded types to what the surroundings expect.
//!
//! A literal without a payload (`[]`, `None`) is typed with a type parameter
//! that nothing has fixed. Where an annotation, a parameter or a result type
//! says more, the type recorded for the expression is refined to it.
use crate::ast::{ElseBranch, Expr, IfExpr, MatchArm, MatchBody};
use crate::check_types::{bind, param_bindings};
use crate::env::{canonical, named, Env, EnvV};
use crate::flow::block_tail_expr;
use crate::info::FieldInfoV;
use crate::span::Span;
use crate::state::{State, StateV};
use crate::table::{find, law_find_after_put, law_put_keeps_others};
use crate::text::{push_view, Chars, Dup};
use crate::types::{any_has_vars, has_vars, subst_all, substitute_all, Ty, Type};
use vstd::prelude::*;

verus! {

broadcast use crate::ty::view_of_type;

/// Whether the recorded type is a generic type with open parameters, and the
/// declared one the same generic type without any.
pub open spec fn refines(recorded: Option<Ty>, declared: Ty) -> bool {
    match (recorded, declared) {
        (Some(Ty::Generic(n, rs)), Ty::Generic(m, ds)) => n == m && rs.len() == ds.len()
            && any_has_vars(rs) && !any_has_vars(ds),
        _ => false,
    }
}

/// The type recorded for `span`, refined to `declared` where that fills a
/// gap and changes nothing else.
pub open spec fn refined(st: StateV, span: Span, declared: Ty) -> StateV {
    if refines(find(st.expr_types, span), declared) {
        st.record_type(span, declared)
    } else {
        st
    }
}

/// Whether a recorded type stayed or had its gaps filled.
pub open spec fn filled(before: Option<Ty>, after: Option<Ty>) -> bool {
    after == before || after is Some && refines(before, after->0)
}

/// Nothing but recorded types has changed, and those only by filling gaps.
#[verifier::opaque]
pub open spec fn only_refined(a: StateV, b: StateV) -> bool {
    &&& b == StateV { expr_types: b.expr_types, ..a }
    &&& forall|k: Span| #[trigger] filled(find(a.expr_types, k), find(b.expr_types, k))
}

pub broadcast proof fn only_refined_refl(a: StateV)
    ensures
        #[trigger] only_refined(a, a),
{
    reveal(only_refined);
}

pub broadcast proof fn only_refined_trans(a: StateV, b: StateV, c: StateV)
    requires
        #[trigger] only_refined(a, b),
        #[trigger] only_refined(b, c),
    ensures
        only_refined(a, c),
{
    reveal(only_refined);
    assert forall|k: Span| #[trigger] filled(find(a.expr_types, k), find(c.expr_types, k)) by {
        assert(filled(find(a.expr_types, k), find(b.expr_types, k)));
        assert(filled(find(b.expr_types, k), find(c.expr_types, k)));
    }
}

pub broadcast proof fn only_refined_step(st: StateV, span: Span, declared: Ty)
    ensures
        only_refined(st, #[trigger] refined(st, span, declared)),
{
    reveal(only_refined);
    let r = refined(st, span, declared);
    assert forall|k: Span| #[trigger] filled(find(st.expr_types, k), find(r.expr_types, k)) by {
        if refines(find(st.expr_types, span), declared) {
            if k == span {
                law_find_after_put(st.expr_types, span, declared);
            } else {
                law_put_keeps_others(st.expr_types, span, declared, k);
            }
        }
    }
}

pub broadcast group refinements {
    only_refined_refl,
    only_refined_trans,
    only_refined_step,
}

/// The types of the first `n` fields.
pub open spec fn field_types_n(fs: Seq<FieldInfoV>, n: int) -> Seq<Ty>
    decreases n,
{
    if n <= 0 {
        Seq::empty()
    } else {
        field_types_n(fs, n - 1).push(fs[n - 1].ty)
    }
}

pub open spec fn field_types(fs: Seq<FieldInfoV>) -> Seq<Ty> {
    field_types_n(fs, fs.len() as int)
}

/// The types that the arguments of the constructor `cname` have in the type
/// `owner` applied to `dec_args`, if `cname` is a variant of that enum or the
/// name of that struct and the counts agree.
pub open spec fn constructed(
    env: EnvV,
    owner: Chars,
    cname: Chars,
    argc: nat,
    dec_args: Seq<Ty>,
) -> Option<Seq<Ty>> {
    match named(env, env.enums, owner) {
        Some(info) => if info.type_params.len() != dec_args.len() {
            None
        } else {
            match find(info.variants, cname) {
                Some(ts) => if ts.len() != argc {
                    None
                } else {
                    Some(subst_all(ts, bind(info.type_params, dec_args)))
                },
                None => None,
            }
        },
        None => if canonical(env, cname) != canonical(env, owner) {
            None
        } else {
            match named(env, env.structs, owner) {
                Some(info) => if info.type_params.len() != dec_args.len() || info.fields.len()
                    != argc {
                    None
                } else {
                    Some(subst_all(field_types(info.fields), bind(info.type_params, dec_args)))
                },
                None => None,
            }
        },
    }
}

/// The state after pinning `e`, and what it is made of, to `declared`.
pub open spec fn pinned(env: EnvV, st: StateV, e: Expr, declared: Ty) -> StateV
    decreases e, 1int,
{
    let inner = match e {
        Expr::ListLiteral(x) => match declared {
            Ty::Generic(_, ds) => if x.elements@.len() > 0 && ds.len() > 0 {
                pinned_n(env, st, x.elements@, ds[0], x.elements@.len() as int)
            } else {
                pinned_constructor(env, st, e, declared)
            },
            _ => pinned_constructor(env, st, e, declared),
        },
        Expr::MapLiteral(x) => match declared {
            Ty::Generic(_, ds) => if x.entries@.len() > 0 && ds.len() == 2 {
                pinned_entries_n(env, st, x.entries@, ds[0], ds[1], x.entries@.len() as int)
            } else {
                pinned_constructor(env, st, e, declared)
            },
            _ => pinned_constructor(env, st, e, declared),
        },
        Expr::If(x) => pinned_branches(env, st, *x, declared),
        Expr::Match(x) => pinned_arms_n(env, st, x.arms@, declared, x.arms@.len() as int),
        _ => pinned_constructor(env, st, e, declared),
    };
    refined(inner, crate::ast::expr_span(e), declared)
}

/// The arguments of a constructor, pinned to the types that the declared type
/// gives its fields. Nothing is done when the recorded type is complete.
pub open spec fn pinned_constructor(env: EnvV, st: StateV, e: Expr, declared: Ty) -> StateV
    decreases e, 0int,
{
    let recorded = find(st.expr_types, crate::ast::expr_span(e));
    if recorded is Some && has_vars(recorded->Some_0) {
        match (e, declared) {
            (Expr::StructLiteral(x), Ty::Generic(owner, ds)) => match constructed(
                env,
                owner,
                x.name@,
                x.args@.len(),
                ds,
            ) {
                Some(ts) => pinned_each_n(env, st, x.args@, ts, x.args@.len() as int),
                None => st,
            },
            (Expr::Call(x), Ty::Generic(owner, ds)) => match x.callee {
                Expr::Ident(id) => match constructed(
                    env,
                    owner,
                    id.name@,
                    x.args.positional@.len(),
                    ds,
                ) {
                    Some(ts) => pinned_each_n(
                        env,
                        st,
                        x.args.positional@,
                        ts,
                        x.args.positional@.len() as int,
                    ),
                    None => st,
                },
                _ => st,
            },
            _ => st,
        }
    } else {
        st
    }
}

pub open spec fn pinned_n(env: EnvV, st: StateV, es: Seq<Expr>, declared: Ty, n: int) -> StateV
    decreases es, n,
{
    if n <= 0 || n > es.len() {
        st
    } else {
        pinned(env, pinned_n(env, st, es, declared, n - 1), es[n - 1], declared)
    }
}

/// Each of the first `n` expressions, pinned to the type at its place.
pub open spec fn pinned_each_n(env: EnvV, st: StateV, es: Seq<Expr>, ts: Seq<Ty>, n: int) -> StateV
    decreases es, n,
{
    if n <= 0 || n > es.len() {
        st
    } else {
        let s1 = pinned_each_n(env, st, es, ts, n - 1);
        if n <= ts.len() {
            pinned(env, s1, es[n - 1], ts[n - 1])
        } else {
            s1
        }
    }
}

pub open spec fn pinned_entries_n(
    env: EnvV,
    st: StateV,
    es: Seq<(Expr, Expr)>,
    k: Ty,
    v: Ty,
    n: int,
) -> StateV
    decreases es, n,
{
    if n <= 0 || n > es.len() {
        st
    } else {
        let s1 = pinned_entries_n(env, st, es, k, v, n - 1);
        pinned(env, pinned(env, s1, es[n - 1].0, k), es[n - 1].1, v)
    }
}

pub open spec fn pinned_tail(env: EnvV, st: StateV, b: crate::ast::Block, declared: Ty) -> StateV
    decreases b, 1int,
{
    if b.statements@.len() == 0 {
        st
    } else {
        match b.statements@.last() {
            crate::ast::Statement::Expression(s) => pinned(env, st, s.expr, declared),
            _ => st,
        }
    }
}

pub open spec fn pinned_arms_n(
    env: EnvV,
    st: StateV,
    arms: Seq<MatchArm>,
    declared: Ty,
    n: int,
) -> StateV
    decreases arms, n,
{
    if n <= 0 || n > arms.len() {
        st
    } else {
        let s1 = pinned_arms_n(env, st, arms, declared, n - 1);
        match arms[n - 1].body {
            MatchBody::Expr(e) => pinned(env, s1, e, declared),
            MatchBody::Block(b) => pinned_tail(env, s1, b, declared),
        }
    }
}

/// The value of each branch, pinned to `declared`; so is a nested `else if`.
pub open spec fn pinned_branches(env: EnvV, st: StateV, x: IfExpr, declared: Ty) -> StateV
    decreases x, 1int,
{
    let s1 = pinned_tail(env, st, x.then_block, declared);
    match x.else_branch {
        Some(ElseBranch::Block(b)) => pinned_tail(env, s1, b, declared),
        Some(ElseBranch::ElseIf(y)) => refined(
            pinned_branches(env, s1, *y, declared),
            y.span,
            declared,
        ),
        None => s1,
    }
}

pub fn types_of_fields(fs: &Vec<crate::info::FieldInfo<'_>>) -> (r: Vec<Type>)
    ensures
        r.deep_view() == field_types(fs.deep_view()),
{
    let mut out: Vec<Type> = Vec::new();
    assert(out.deep_view() =~= Seq::<Ty>::empty());
    let mut i: usize = 0;
    while i < fs.len()
        invariant
            i <= fs.len(),
            out.deep_view() == field_types_n(fs.deep_view(), i as int),
        decreases fs.len() - i,
    {
        push_view(&mut out, fs[i].ty.dup());
        i += 1;
    }
    out
}

/// The field types of the variant `name`.
pub fn variant_fields<'e>(variants: &'e Vec<(String, Vec<Type>)>, name: &String) -> (r: Option<
    &'e Vec<Type>,
>)
    ensures
        r.deep_view() == find(variants.deep_view(), name@),
{
    let mut i: usize = 0;
    while i < variants.len()
        invariant
            i <= variants.len(),
            crate::table::position(variants.deep_view(), name@, 0) == crate::table::position(
                variants.deep_view(),
                name@,
                i as int,
            ),
        decreases variants.len() - i,
    {
        if variants[i].0 == *name {
            return Some(&variants[i].1);
        }
        i += 1;
    }
    None
}

impl<'a> Env<'a> {
    /// The types that the arguments of the constructor `cname` have in the
    /// type `owner` applied to `dec_args`.
    pub fn constructor_field_types(
        &self,
        owner: &String,
        cname: &String,
        argc: usize,
        dec_args: &Vec<Type>,
    ) -> (r: Option<Vec<Type>>)
        ensures
            r.deep_view() == constructed(
                self@,
                owner@,
                cname@,
                argc as nat,
                dec_args.deep_view(),
            ),
    {
        if let Some(info) = self.enum_of(owner) {
            if info.type_params.len() != dec_args.len() {
                return None;
            }
            return match variant_fields(&info.variants, cname) {
                Some(ts) => if ts.len() != argc {
                    None
                } else {
                    Some(substitute_all(ts, &param_bindings(&info.type_params, dec_args)))
                },
                None => None,
            };
        }
        if self.qualify_in_current(cname) != self.qualify_in_current(owner) {
            return None;
        }
        match self.struct_of(owner) {
            Some(info) => if info.type_params.len() != dec_args.len() || info.fields.len() != argc {
                None
            } else {
                Some(
                    substitute_all(
                        &types_of_fields(&info.fields),
                        &param_bindings(&info.type_params, dec_args),
                    ),
                )
            },
            None => None,
        }
    }
}

impl State {
    fn refine_recorded_type(&mut self, span: Span, declared: &Type)
        ensures
            final(self)@ == refined(old(self)@, span, declared@),
    {
        let fits = match (self.recorded_type(span), declared) {
            (Some(Type::Generic(n, rs)), Type::Generic(m, ds)) => *n == *m && rs.len() == ds.len()
                && crate::types::any_type_vars(rs) && !crate::types::any_type_vars(ds),
            _ => false,
        };
        if fits {
            self.record_type(span, declared);
        }
    }

    pub fn pin_inferred_type_to_annotation(&mut self, env: &Env<'_>, e: &Expr, declared: &Type)
        ensures
            final(self)@ == pinned(env@, old(self)@, *e, declared@),
        decreases e, 2int,
    {
        match e {
            Expr::ListLiteral(x) => match declared {
                Type::Generic(_, ds) => if x.elements.len() > 0 && ds.len() > 0 {
                    self.pin_all(env, &x.elements, &ds[0]);
                } else {
                    self.pin_constructor(env, e, declared);
                },
                _ => self.pin_constructor(env, e, declared),
            },
            Expr::MapLiteral(x) => match declared {
                Type::Generic(_, ds) => if x.entries.len() > 0 && ds.len() == 2 {
                    self.pin_entries(env, &x.entries, &ds[0], &ds[1]);
                } else {
                    self.pin_constructor(env, e, declared);
                },
                _ => self.pin_constructor(env, e, declared),
            },
            Expr::If(x) => self.pin_if_branches(env, x, declared),
            Expr::Match(x) => self.pin_arms(env, &x.arms, declared),
            _ => self.pin_constructor(env, e, declared),
        }
        self.refine_recorded_type(e.span(), declared);
    }

    fn pin_constructor(&mut self, env: &Env<'_>, e: &Expr, declared: &Type)
        ensures
            final(self)@ == pinned_constructor(env@, old(self)@, *e, declared@),
        decreases e, 1int,
    {
        let open = match self.recorded_type(e.span()) {
            Some(t) => t.has_type_vars(),
            None => false,
        };
        if !open {
            return;
        }
        match (e, declared) {
            (Expr::StructLiteral(x), Type::Generic(owner, ds)) => {
                if let Some(ts) = env.constructor_field_types(owner, &x.name, x.args.len(), ds) {
                    self.pin_each(env, &x.args, &ts);
                }
            },
            (Expr::Call(x), Type::Generic(owner, ds)) => {
                if let Expr::Ident(id) = &x.callee {
                    if let Some(ts) = env.constructor_field_types(
                        owner,
                        &id.name,
                        x.args.positional.len(),
                        ds,
                    ) {
                        self.pin_each(env, &x.args.positional, &ts);
                    }
                }
            },
            _ => {},
        }
    }

    fn pin_all(&mut self, env: &Env<'_>, es: &Vec<Expr>, declared: &Type)
        ensures
            final(self)@ == pinned_n(env@, old(self)@, es@, declared@, es@.len() as int),
        decreases es, 0int,
    {
        let mut i: usize = 0;
        while i < es.len()
            invariant
                i <= es.len(),
                self@ == pinned_n(env@, old(self)@, es@, declared@, i as int),
            decreases es.len() - i,
        {
            self.pin_inferred_type_to_annotation(env, &es[i], declared);
            i += 1;
        }
    }

    pub fn pin_each(&mut self, env: &Env<'_>, es: &Vec<Expr>, ts: &Vec<Type>)
        ensures
            final(self)@ == pinned_each_n(
                env@,
                old(self)@,
                es@,
                ts.deep_view(),
                es@.len() as int,
            ),
        decreases es, 0int,
    {
        let mut i: usize = 0;
        while i < es.len()
            invariant
                i <= es.len(),
                self@ == pinned_each_n(env@, old(self)@, es@, ts.deep_view(), i as int),
            decreases es.len() - i,
        {
            if i < ts.len() {
                self.pin_inferred_type_to_annotation(env, &es[i], &ts[i]);
            }
            i += 1;
        }
    }

    fn pin_entries(&mut self, env: &Env<'_>, es: &Vec<(Expr, Expr)>, k: &Type, v: &Type)
        ensures
            final(self)@ == pinned_entries_n(
                env@,
                old(self)@,
                es@,
                k@,
                v@,
                es@.len() as int,
            ),
        decreases es, 0int,
    {
        let mut i: usize = 0;
        while i < es.len()
            invariant
                i <= es.len(),
                self@ == pinned_entries_n(env@, old(self)@, es@, k@, v@, i as int),
            decreases es.len() - i,
        {
            self.pin_inferred_type_to_annotation(env, &es[i].0, k);
            self.pin_inferred_type_to_annotation(env, &es[i].1, v);
            i += 1;
        }
    }

    fn pin_tail(&mut self, env: &Env<'_>, b: &crate::ast::Block, declared: &Type)
        ensures
            final(self)@ == pinned_tail(env@, old(self)@, *b, declared@),
        decreases b, 1int,
    {
        if let Some(e) = block_tail_expr(b) {
            assert(decreases_to!(b => b.statements@.last()));
            self.pin_inferred_type_to_annotation(env, e, declared);
        }
    }

    fn pin_arms(&mut self, env: &Env<'_>, arms: &Vec<MatchArm>, declared: &Type)
        ensures
            final(self)@ == pinned_arms_n(
                env@,
                old(self)@,
                arms@,
                declared@,
                arms@.len() as int,
            ),
        decreases arms, 0int,
    {
        let mut i: usize = 0;
        while i < arms.len()
            invariant
                i <= arms.len(),
                self@ == pinned_arms_n(env@, old(self)@, arms@, declared@, i as int),
            decreases arms.len() - i,
        {
            match &arms[i].body {
                MatchBody::Expr(e) => self.pin_inferred_type_to_annotation(env, e, declared),
                MatchBody::Block(b) => self.pin_tail(env, b, declared),
            }
            i += 1;
        }
    }

    fn pin_if_branches(&mut self, env: &Env<'_>, x: &IfExpr, declared: &Type)
        ensures
            final(self)@ == pinned_branches(env@, old(self)@, *x, declared@),
        decreases x, 1int,
    {
        self.pin_tail(env, &x.then_block, declared);
        match &x.else_branch {
            Some(ElseBranch::Block(b)) => self.pin_tail(env, b, declared),
            Some(ElseBranch::ElseIf(y)) => {
                self.pin_if_branches(env, y, declared);
                self.refine_recorded_type(y.span, declared);
            },
            None => {},
        }
    }
}

} // verus!
