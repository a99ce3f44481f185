//! Compatibility, resolution and inference of types.
use crate::ast::{GenericType, NamedType, TypeExpr};
use crate::env::{canonical, implements, in_scope, named, Env, EnvV};
use crate::state::{State, StateV};
use crate::table::{find, put, Table};
use crate::text::{cat3, cat5, cat7, count_text, decimal, push_view, same_text, Chars, Dup};
use crate::type_laws::{
    extends, law_matching_keeps_bindings, law_matching_succeeds, shadowed,
};
use crate::types::{
    function_of, same_type, show, subst, substitute, ty_from_name, Bindings, Ty, Type,
};
use vstd::prelude::*;
use vstd::string::*;

verus! {

broadcast use crate::ty::view_of_type;

// ── Compatibility ────────────────────────────────────────────────────

/// Whether the bounds in scope give `param` the trait `tr`.
pub open spec fn bounded_by(bounds: Seq<(Chars, Seq<Chars>)>, param: Chars, tr: Chars) -> bool {
    exists|i: int|
        0 <= i < bounds.len() && (#[trigger] bounds[i]).0 == param && bounds[i].1.contains(tr)
}

/// Whether a value of type `t` can become a `dyn tr`.
pub open spec fn coerces_to_dyn(
    env: EnvV,
    bounds: Seq<(Chars, Seq<Chars>)>,
    t: Ty,
    tr: Chars,
) -> bool {
    match t {
        Ty::Named(n) => implements(env, n, tr),
        Ty::Generic(n, _) => implements(env, n, tr),
        Ty::TypeVar(n) => bounded_by(bounds, n, tr),
        _ => false,
    }
}

/// Whether a value of type `a` may stand where `d` is declared.
///
/// The error type fits everywhere, so that one mistake is reported once. A
/// declared trait object takes exactly the types that implement the trait;
/// otherwise a type parameter that nothing has fixed fits everything, and
/// generic types fit argument by argument.
pub open spec fn compatible(env: EnvV, bounds: Seq<(Chars, Seq<Chars>)>, d: Ty, a: Ty) -> bool
    decreases d, 0int,
{
    if d == Ty::Error || a == Ty::Error || d == a {
        true
    } else if d is Dyn {
        coerces_to_dyn(env, bounds, a, d->Dyn_0)
    } else if d is TypeVar || a is TypeVar {
        true
    } else {
        match (d, a) {
            (Ty::Generic(n, ds), Ty::Generic(m, xs)) => n == m && ds.len() == xs.len()
                && compatible_from(env, bounds, ds, xs, 0),
            _ => false,
        }
    }
}

/// Whether the types fit pair by pair, from `i` on.
pub open spec fn compatible_from(
    env: EnvV,
    bounds: Seq<(Chars, Seq<Chars>)>,
    ds: Seq<Ty>,
    xs: Seq<Ty>,
    i: int,
) -> bool
    decreases ds, ds.len() - i,
{
    0 <= i < ds.len() ==> compatible(env, bounds, ds[i], xs[i]) && compatible_from(
        env,
        bounds,
        ds,
        xs,
        i + 1,
    )
}

/// Whether the two types are known and do not fit.
pub open spec fn clash(env: EnvV, st: StateV, d: Ty, a: Ty) -> bool {
    d != Ty::Error && a != Ty::Error && !compatible(env, st.bounds, d, a)
}

impl State {
    fn bounds_give(&self, param: &String, tr: &String) -> (r: bool)
        ensures
            r == bounded_by(self@.bounds, param@, tr@),
    {
        let bounds = self.current_bounds();
        let mut i: usize = 0;
        while i < bounds.len()
            invariant
                i <= bounds.len(),
                bounds.deep_view() == self@.bounds,
                forall|j: int|
                    0 <= j < i ==> !((#[trigger] bounds.deep_view()[j]).0 == param@
                        && bounds.deep_view()[j].1.contains(tr@)),
            decreases bounds.len() - i,
        {
            if bounds[i].0 == *param && crate::text::names_contain(&bounds[i].1, tr) {
                assert(bounds.deep_view()[i as int].0 == param@);
                return true;
            }
            i += 1;
        }
        false
    }

    fn concrete_type_impls_trait(&self, env: &Env<'_>, t: &Type, tr: &String) -> (r: bool)
        ensures
            r == coerces_to_dyn(env@, self@.bounds, t@, tr@),
    {
        match t {
            Type::Named(n) => env.has_trait_impl(n, tr),
            Type::Generic(n, _) => env.has_trait_impl(n, tr),
            Type::TypeVar(n) => self.bounds_give(n, tr),
            _ => false,
        }
    }

    pub fn types_compatible(&self, env: &Env<'_>, declared: &Type, actual: &Type) -> (r: bool)
        ensures
            r == compatible(env@, self@.bounds, declared@, actual@),
        decreases declared, 1int,
    {
        if declared.is_error() || actual.is_error() || same_type(declared, actual) {
            return true;
        }
        if let Type::Dyn(tr) = declared {
            return self.concrete_type_impls_trait(env, actual, tr);
        }
        if declared.is_type_var() || actual.is_type_var() {
            return true;
        }
        match (declared, actual) {
            (Type::Generic(n, ds), Type::Generic(m, xs)) => *n == *m && ds.len() == xs.len()
                && self.all_compatible(env, ds, xs),
            _ => false,
        }
    }

    fn all_compatible(&self, env: &Env<'_>, ds: &Vec<Type>, xs: &Vec<Type>) -> (r: bool)
        requires
            ds.len() == xs.len(),
        ensures
            r == compatible_from(env@, self@.bounds, ds.deep_view(), xs.deep_view(), 0),
        decreases ds, 0int,
    {
        let mut i: usize = 0;
        while i < ds.len()
            invariant
                i <= ds.len(),
                ds.len() == xs.len(),
                compatible_from(env@, self@.bounds, ds.deep_view(), xs.deep_view(), 0)
                    == compatible_from(
                    env@,
                    self@.bounds,
                    ds.deep_view(),
                    xs.deep_view(),
                    i as int,
                ),
            decreases ds.len() - i,
        {
            if !self.types_compatible(env, &ds[i], &xs[i]) {
                return false;
            }
            i += 1;
        }
        true
    }

    /// Whether the two types are known and do not fit.
    pub fn types_clash(&self, env: &Env<'_>, declared: &Type, actual: &Type) -> (r: bool)
        ensures
            r == clash(env@, self@, declared@, actual@),
    {
        !declared.is_error() && !actual.is_error() && !self.types_compatible(env, declared, actual)
    }
}

// ── Bindings ─────────────────────────────────────────────────────────

/// The first `n` parameters bound to the first `n` arguments.
pub open spec fn bind_n(params: Seq<Chars>, args: Seq<Ty>, n: int) -> Bindings
    decreases n,
{
    if n <= 0 || n > params.len() || n > args.len() {
        Seq::empty()
    } else {
        put(bind_n(params, args, n - 1), params[n - 1], args[n - 1])
    }
}

/// Each parameter bound to the argument at its place, as far as there are
/// arguments.
pub open spec fn bind(params: Seq<Chars>, args: Seq<Ty>) -> Bindings {
    bind_n(
        params,
        args,
        if params.len() <= args.len() {
            params.len() as int
        } else {
            args.len() as int
        },
    )
}

pub fn param_bindings(params: &Vec<String>, args: &Vec<Type>) -> (r: Table<String, Type>)
    ensures
        r@ == bind(params.deep_view(), args.deep_view()),
{
    let mut b: Table<String, Type> = Table::new();
    let mut i: usize = 0;
    while i < params.len() && i < args.len()
        invariant
            i <= params.len(),
            i <= args.len(),
            b@ == bind_n(params.deep_view(), args.deep_view(), i as int),
        decreases params.len() - i,
    {
        b.put(params[i].clone(), args[i].dup());
        i += 1;
    }
    b
}

/// The name of the type behind `t`, and what the type parameters of its
/// declaration stand for in it.
pub open spec fn base_and_bindings(env: EnvV, t: Ty) -> (Option<Chars>, Bindings) {
    match t {
        Ty::Named(n) => (Some(n), Seq::empty()),
        Ty::Generic(n, args) => (
            Some(n),
            if n == "List"@ {
                bind(seq!["T"@], args)
            } else if n == "Map"@ {
                bind(seq!["K"@, "V"@], args)
            } else {
                match named(env, env.structs, n) {
                    Some(info) => bind(info.type_params, args),
                    None => match named(env, env.enums, n) {
                        Some(info) => bind(info.type_params, args),
                        None => Seq::empty(),
                    },
                }
            },
        ),
        _ => (None, Seq::empty()),
    }
}

fn one_name(a: &str) -> (r: Vec<String>)
    ensures
        r.deep_view() == seq![a@],
{
    let mut v: Vec<String> = Vec::new();
    v.push(a.to_owned());
    assert(v.deep_view() =~= seq![a@]);
    v
}

fn two_names(a: &str, b: &str) -> (r: Vec<String>)
    ensures
        r.deep_view() == seq![a@, b@],
{
    let mut v: Vec<String> = Vec::new();
    v.push(a.to_owned());
    v.push(b.to_owned());
    assert(v.deep_view() =~= seq![a@, b@]);
    v
}

impl<'a> Env<'a> {
    pub fn extract_base_and_bindings(&self, t: &Type) -> (r: (Option<String>, Table<String, Type>))
        ensures
            (r.0.deep_view(), r.1@) == base_and_bindings(self@, t@),
    {
        match t {
            Type::Named(n) => (Some(n.clone()), Table::new()),
            Type::Generic(n, args) => {
                let b = if same_text(n, "List") {
                    param_bindings(&one_name("T"), args)
                } else if same_text(n, "Map") {
                    param_bindings(&two_names("K", "V"), args)
                } else {
                    match self.struct_of(n) {
                        Some(info) => param_bindings(&info.type_params, args),
                        None => match self.enum_of(n) {
                            Some(info) => param_bindings(&info.type_params, args),
                            None => Table::new(),
                        },
                    }
                };
                (Some(n.clone()), b)
            },
            _ => (None, Table::new()),
        }
    }
}

/// The name under which trait bounds look for `t`.
pub open spec fn bound_name(t: Ty) -> Chars {
    match t {
        Ty::Named(n) => n,
        Ty::Generic(n, _) => n,
        _ => show(t),
    }
}

pub fn name_for_bounds(t: &Type) -> (r: String)
    ensures
        r@ == bound_name(t@),
{
    match t {
        Type::Named(n) => n.clone(),
        Type::Generic(n, _) => n.clone(),
        _ => t.text(),
    }
}

// ── Unification ──────────────────────────────────────────────────────

/// Why a parameter type and an argument type do not unify.
#[derive(Debug)]
pub enum UnifyError {
    /// A type parameter was bound to something else before.
    Conflict { param: String, existing: Type, incoming: Type },
    /// A type parameter would be bound to a type that mentions it. Nothing
    /// reports this yet.
    OccursCheck { param: String, incoming: Type },
    /// The types differ; the check of the argument itself reports this.
    Mismatch,
}

/// What a [`UnifyError`] says.
#[allow(inconsistent_fields)]
pub enum UnifyErrorV {
    Conflict { param: Chars, existing: Ty, incoming: Ty },
    OccursCheck { param: Chars, incoming: Ty },
    Mismatch,
}

impl DeepView for UnifyError {
    type V = UnifyErrorV;

    open spec fn deep_view(&self) -> UnifyErrorV {
        match self {
            UnifyError::Conflict { param, existing, incoming } => UnifyErrorV::Conflict {
                param: param@,
                existing: existing@,
                incoming: incoming@,
            },
            UnifyError::OccursCheck { param, incoming } => UnifyErrorV::OccursCheck {
                param: param@,
                incoming: incoming@,
            },
            UnifyError::Mismatch => UnifyErrorV::Mismatch,
        }
    }
}

/// The bindings after matching the pattern `p` with `c`, and what went wrong.
pub open spec fn unified(p: Ty, c: Ty, b: Bindings) -> (Bindings, Option<UnifyErrorV>)
    decreases p, 0int,
{
    match (p, c) {
        (Ty::TypeVar(n), _) => match find(b, n) {
            Some(t) => if t == c {
                (b, None)
            } else {
                (b, Some(UnifyErrorV::Conflict { param: n, existing: t, incoming: c }))
            },
            None => (put(b, n, c), None),
        },
        (Ty::Generic(n, ps), Ty::Generic(m, cs)) => if n == m && ps.len() == cs.len() {
            unified_from(ps, cs, b, 0)
        } else {
            (b, Some(UnifyErrorV::Mismatch))
        },
        (Ty::Function(ps, pr), Ty::Function(cs, cr)) => if ps.len() == cs.len() {
            let (b1, e) = unified_from(ps, cs, b, 0);
            if e is Some {
                (b1, e)
            } else {
                unified(*pr, *cr, b1)
            }
        } else {
            (b, Some(UnifyErrorV::Mismatch))
        },
        _ => if p == c {
            (b, None)
        } else {
            (b, Some(UnifyErrorV::Mismatch))
        },
    }
}

/// The same for two lists, pair by pair from `i` on, up to the first failure.
pub open spec fn unified_from(ps: Seq<Ty>, cs: Seq<Ty>, b: Bindings, i: int) -> (
    Bindings,
    Option<UnifyErrorV>,
)
    decreases ps, ps.len() - i,
{
    if i < 0 || i >= ps.len() {
        (b, None)
    } else {
        let (b1, e) = unified(ps[i], cs[i], b);
        if e is Some {
            (b1, e)
        } else {
            unified_from(ps, cs, b1, i + 1)
        }
    }
}

/// Matches the pattern `p` with the type `c`. What a type parameter is bound to
/// never changes, and where the match succeeds, the pattern stands for the type
/// under the bindings found, unless it names a declared type like a bound type
/// parameter.
pub fn unify(p: &Type, c: &Type, b: &mut Table<String, Type>) -> (r: Option<UnifyError>)
    ensures
        (final(b)@, r.deep_view()) == unified(p@, c@, old(b)@),
        extends(old(b)@, final(b)@),
        r is None && !shadowed(p@, final(b)@) ==> subst(p@, final(b)@) == c@,
    decreases p, 1int,
{
    proof {
        let (end, failure) = unified(p@, c@, b@);
        law_matching_keeps_bindings(p@, c@, b@);
        if failure is None && !shadowed(p@, end) {
            law_matching_succeeds(p@, c@, b@, end);
        }
    }
    match (p, c) {
        (Type::TypeVar(n), _) => {
            match b.get(n) {
                Some(t) => {
                    return if same_type(t, c) {
                        None
                    } else {
                        Some(
                            UnifyError::Conflict {
                                param: n.clone(),
                                existing: t.dup(),
                                incoming: c.dup(),
                            },
                        )
                    };
                },
                None => {},
            }
            b.put(n.clone(), c.dup());
            None
        },
        (Type::Generic(n, ps), Type::Generic(m, cs)) => if *n == *m && ps.len() == cs.len() {
            unify_all(ps, cs, b)
        } else {
            Some(UnifyError::Mismatch)
        },
        (Type::Function(ps, pr), Type::Function(cs, cr)) => {
            proof {
                crate::ty::lemma_function_view(*p);
                crate::ty::lemma_function_view(*c);
            }
            if ps.len() == cs.len() {
                let e = unify_all(ps, cs, b);
                if e.is_some() {
                    e
                } else {
                    unify(pr, cr, b)
                }
            } else {
                Some(UnifyError::Mismatch)
            }
        },
        _ => if same_type(p, c) {
            None
        } else {
            Some(UnifyError::Mismatch)
        },
    }
}

fn unify_all(ps: &Vec<Type>, cs: &Vec<Type>, b: &mut Table<String, Type>) -> (r: Option<UnifyError>)
    requires
        ps.len() == cs.len(),
    ensures
        (final(b)@, r.deep_view()) == unified_from(ps.deep_view(), cs.deep_view(), old(b)@, 0),
    decreases ps, 0int,
{
    let mut i: usize = 0;
    while i < ps.len()
        invariant
            i <= ps.len(),
            ps.len() == cs.len(),
            unified_from(ps.deep_view(), cs.deep_view(), old(b)@, 0) == unified_from(
                ps.deep_view(),
                cs.deep_view(),
                b@,
                i as int,
            ),
        decreases ps.len() - i,
    {
        let e = unify(&ps[i], &cs[i], b);
        if e.is_some() {
            return e;
        }
        i += 1;
    }
    None
}

/// What the first `n` arguments say about the type parameters, with the
/// places where they contradict each other.
pub open spec fn inferred_n(params: Seq<Ty>, args: Seq<Ty>, n: int) -> (
    Bindings,
    Seq<(usize, UnifyErrorV)>,
)
    decreases n,
{
    if n <= 0 {
        (Seq::empty(), Seq::empty())
    } else {
        let (b, es) = inferred_n(params, args, n - 1);
        if args[n - 1] == Ty::Error {
            (b, es)
        } else {
            let (b1, e) = unified(params[n - 1], args[n - 1], b);
            match e {
                Some(UnifyErrorV::Mismatch) => (b1, es),
                Some(x) => (b1, es.push(((n - 1) as usize, x))),
                None => (b1, es),
            }
        }
    }
}

pub open spec fn inferred(params: Seq<Ty>, args: Seq<Ty>) -> (Bindings, Seq<(usize, UnifyErrorV)>) {
    inferred_n(
        params,
        args,
        if params.len() <= args.len() {
            params.len() as int
        } else {
            args.len() as int
        },
    )
}

pub fn infer_type_args(params: &Vec<Type>, args: &Vec<Type>) -> (r: (
    Table<String, Type>,
    Vec<(usize, UnifyError)>,
))
    ensures
        (r.0@, r.1.deep_view()) == inferred(params.deep_view(), args.deep_view()),
        forall|j: int| 0 <= j < r.1@.len() ==> (#[trigger] r.1@[j]).0 < params.len(),
{
    let mut b: Table<String, Type> = Table::new();
    let mut es: Vec<(usize, UnifyError)> = Vec::new();
    assert(es.deep_view() =~= Seq::<(usize, UnifyErrorV)>::empty());
    let mut i: usize = 0;
    while i < params.len() && i < args.len()
        invariant
            i <= params.len(),
            i <= args.len(),
            (b@, es.deep_view()) == inferred_n(params.deep_view(), args.deep_view(), i as int),
            forall|j: int| 0 <= j < es@.len() ==> (#[trigger] es@[j]).0 < params.len(),
        decreases params.len() - i,
    {
        if !args[i].is_error() {
            match unify(&params[i], &args[i], &mut b) {
                Some(UnifyError::Mismatch) => {},
                Some(e) => {
                    push_view(&mut es, (i, e));
                },
                None => {},
            }
        }
        i += 1;
    }
    (b, es)
}

// ── Type expressions ─────────────────────────────────────────────────

/// Whether `name` is a generic type of the language itself that can be written
/// down. The builders cannot.
pub open spec fn is_builtin_generic(name: Chars) -> bool {
    name == "List"@ || name == "Map"@
}

fn names_builtin_generic(name: &str) -> (r: bool)
    ensures
        r == is_builtin_generic(name@),
{
    same_text(name, "List") || same_text(name, "Map")
}

pub open spec fn body_only_message(name: Chars) -> Chars {
    "struct `"@ + name
        + "` carries a `File` and is a body-only type: it may only be the body or the response of an endpoint"@
}

fn body_only_text(name: &str) -> (r: String)
    ensures
        r@ == body_only_message(name@),
{
    cat3(
        "struct `",
        name,
        "` carries a `File` and is a body-only type: it may only be the body or the response of an endpoint",
    )
}

pub open spec fn arity_message(name: Chars, expected: nat, got: nat) -> Chars {
    "type `"@ + name + "` expects "@ + decimal(expected) + " type argument(s), got "@ + decimal(got)
}

fn arity_text(name: &str, expected: usize, got: usize) -> (r: String)
    ensures
        r@ == arity_message(name@, expected as nat, got as nat),
{
    crate::text::cat6(
        "type `",
        name,
        "` expects ",
        &count_text(expected),
        " type argument(s), got ",
        &count_text(got),
    )
}

/// What a type expression stands for, aliases expanded and names checked.
pub open spec fn resolved(env: EnvV, st: StateV, te: TypeExpr) -> (StateV, Ty)
    decreases te, 1int,
{
    match te {
        TypeExpr::Named(x) => resolved_name(env, st, x),
        TypeExpr::Function(x) => {
            let (s1, ps) = resolved_n(
                env,
                st.files(false, false),
                x.param_types@,
                x.param_types@.len() as int,
            );
            let (s2, r) = resolved(env, s1, x.return_type);
            (
                s2.files(st.file_field_allowed, st.file_bearing_struct_allowed),
                Ty::Function(ps, Box::new(r)),
            )
        },
        TypeExpr::Generic(x) => {
            let (s1, args) = resolved_n(
                env,
                st.files(st.file_field_allowed && x.name@ == "Option"@, false),
                x.type_args@,
                x.type_args@.len() as int,
            );
            applied(
                env,
                s1.files(st.file_field_allowed, st.file_bearing_struct_allowed),
                *x,
                args,
            )
        },
        TypeExpr::Dyn(x) => match in_scope(env, env.traits, x.trait_name@) {
            None => (
                st.error("unknown trait `"@ + x.trait_name@ + "` in `dyn`"@, x.span),
                Ty::Error,
            ),
            Some(info) => match info.object_safety_error {
                Some(reason) => (
                    st.error(
                        "trait `"@ + x.trait_name@ + "` is not object-safe: "@ + reason
                            + ". Use `<T: "@ + x.trait_name@ + ">` for static dispatch instead."@,
                        x.span,
                    ),
                    Ty::Error,
                ),
                None => if info.type_params.len() > 0 {
                    (
                        st.error(
                            "generic trait `"@ + x.trait_name@
                                + "` cannot be used as `dyn`; use `<T: "@ + x.trait_name@
                                + "<…>>` for static dispatch instead"@,
                            x.span,
                        ),
                        Ty::Error,
                    )
                } else {
                    (st, Ty::Dyn(canonical(env, x.trait_name@)))
                },
            },
        },
    }
}

/// What the first `n` type expressions stand for, resolved in order.
pub open spec fn resolved_n(env: EnvV, st: StateV, tes: Seq<TypeExpr>, n: int) -> (StateV, Seq<Ty>)
    decreases tes, n,
{
    if n <= 0 || n > tes.len() {
        (st, Seq::empty())
    } else {
        let (s1, ts) = resolved_n(env, st, tes, n - 1);
        let (s2, t) = resolved(env, s1, tes[n - 1]);
        (s2, ts.push(t))
    }
}

/// What a bare name stands for: a type parameter, an alias, a type of the
/// language or a declared type.
pub open spec fn resolved_name(env: EnvV, st: StateV, x: NamedType) -> (StateV, Ty) {
    let name = x.name@;
    if st.type_params.contains(name) {
        (st, Ty::TypeVar(name))
    } else {
        match in_scope(env, env.type_aliases, name) {
            Some(alias) => if alias.type_params.len() == 0 {
                (st, alias.target)
            } else {
                (
                    st.error(
                        "generic type alias `"@ + name + "` requires type arguments"@,
                        x.span,
                    ),
                    Ty::Error,
                )
            },
            None => match ty_from_name(name) {
                Ty::Named(_) => resolved_declared(env, st, x),
                Ty::File => if st.file_field_allowed {
                    (st, Ty::File)
                } else {
                    (
                        st.error(
                            "`File` is only allowed as a field of a struct that an endpoint uses as its body or response"@,
                            x.span,
                        ),
                        Ty::Error,
                    )
                },
                t => (st, t),
            },
        }
    }
}

/// The struct or enum that a name stands for.
pub open spec fn resolved_declared(env: EnvV, st: StateV, x: NamedType) -> (StateV, Ty) {
    let name = x.name@;
    match in_scope(env, env.structs, name) {
        Some(info) => if info.is_file_bearing && !st.file_bearing_struct_allowed {
            (st.error(body_only_message(name), x.span), Ty::Error)
        } else {
            (st, Ty::Named(canonical(env, name)))
        },
        None => if in_scope(env, env.enums, name) is Some {
            (st, Ty::Named(canonical(env, name)))
        } else if name == "Self"@ {
            (st, Ty::Named(name))
        } else {
            (st.error("unknown type `"@ + name + "`"@, x.span), Ty::Error)
        },
    }
}

/// What a generic name stands for when applied to `args`.
pub open spec fn applied(env: EnvV, st: StateV, x: GenericType, args: Seq<Ty>) -> (StateV, Ty) {
    let name = x.name@;
    let alias = in_scope(env, env.type_aliases, name);
    if alias is Some && alias->Some_0.type_params.len() > 0 {
        (st, subst(alias->Some_0.target, bind(alias->Some_0.type_params, args)))
    } else if is_builtin_generic(name) {
        (st, Ty::Generic(name, args))
    } else {
        match in_scope(env, env.structs, name) {
            Some(info) => if info.is_file_bearing && !st.file_bearing_struct_allowed {
                (st.error(body_only_message(name), x.span), Ty::Error)
            } else {
                (
                    st.error_if(
                        args.len() != info.type_params.len(),
                        arity_message(name, info.type_params.len(), args.len()),
                        x.span,
                    ),
                    Ty::Generic(canonical(env, name), args),
                )
            },
            None => match in_scope(env, env.enums, name) {
                Some(info) => (
                    st.error_if(
                        args.len() != info.type_params.len(),
                        arity_message(name, info.type_params.len(), args.len()),
                        x.span,
                    ),
                    Ty::Generic(canonical(env, name), args),
                ),
                None => (st.error("unknown type `"@ + name + "`"@, x.span), Ty::Error),
            },
        }
    }
}

impl State {
    /// Resolves a type expression into a type, expanding aliases and reporting
    /// names that do not exist.
    pub fn resolve_type_expr(&mut self, env: &Env<'_>, te: &TypeExpr) -> (r: Type)
        ensures
            (final(self)@, r@) == resolved(env@, old(self)@, *te),
        decreases te, 1int,
    {
        let field: bool = self.is_file_field_allowed();
        let body: bool = self.is_file_bearing_struct_allowed();
        match te {
            TypeExpr::Named(x) => self.resolve_name(env, x),
            TypeExpr::Function(x) => {
                self.set_files(false, false);
                let ps = self.resolve_type_exprs(env, &x.param_types);
                let r = self.resolve_type_expr(env, &x.return_type);
                self.set_files(field, body);
                function_of(ps, r)
            },
            TypeExpr::Generic(x) => {
                self.set_files(field && same_text(&x.name, "Option"), false);
                let args = self.resolve_type_exprs(env, &x.type_args);
                self.set_files(field, body);
                self.apply_generic(env, x, args)
            },
            TypeExpr::Dyn(x) => match env.lookup_trait(&x.trait_name) {
                None => {
                    self.error(cat3("unknown trait `", &x.trait_name, "` in `dyn`"), x.span);
                    Type::Error
                },
                Some(info) => match &info.object_safety_error {
                    Some(reason) => {
                        self.error(
                            cat7(
                                "trait `",
                                &x.trait_name,
                                "` is not object-safe: ",
                                reason,
                                ". Use `<T: ",
                                &x.trait_name,
                                ">` for static dispatch instead.",
                            ),
                            x.span,
                        );
                        Type::Error
                    },
                    None => if info.type_params.len() > 0 {
                        self.error(
                            cat5(
                                "generic trait `",
                                &x.trait_name,
                                "` cannot be used as `dyn`; use `<T: ",
                                &x.trait_name,
                                "<…>>` for static dispatch instead",
                            ),
                            x.span,
                        );
                        Type::Error
                    } else {
                        Type::Dyn(env.qualify_in_current(&x.trait_name))
                    },
                },
            },
        }
    }

    pub fn resolve_type_exprs(&mut self, env: &Env<'_>, tes: &Vec<TypeExpr>) -> (r: Vec<Type>)
        ensures
            (final(self)@, r.deep_view()) == resolved_n(
                env@,
                old(self)@,
                tes@,
                tes@.len() as int,
            ),
        decreases tes, 0int,
    {
        let mut out: Vec<Type> = Vec::new();
        assert(out.deep_view() =~= Seq::<Ty>::empty());
        let mut i: usize = 0;
        while i < tes.len()
            invariant
                i <= tes.len(),
                (self@, out.deep_view()) == resolved_n(env@, old(self)@, tes@, i as int),
            decreases tes.len() - i,
        {
            let t = self.resolve_type_expr(env, &tes[i]);
            push_view(&mut out, t);
            i += 1;
        }
        out
    }

    fn resolve_name(&mut self, env: &Env<'_>, x: &NamedType) -> (r: Type)
        ensures
            (final(self)@, r@) == resolved_name(env@, old(self)@, *x),
    {
        if self.is_type_param(&x.name) {
            return Type::TypeVar(x.name.clone());
        }
        match env.lookup_type_alias(&x.name) {
            Some(alias) => if alias.type_params.len() == 0 {
                alias.target.dup()
            } else {
                self.error(
                    cat3("generic type alias `", &x.name, "` requires type arguments"),
                    x.span,
                );
                Type::Error
            },
            None => match Type::from_name(&x.name) {
                Type::Named(_) => self.resolve_declared(env, x),
                Type::File => if self.is_file_field_allowed() {
                    Type::File
                } else {
                    self.error(
                        "`File` is only allowed as a field of a struct that an endpoint uses as its body or response".to_owned(),
                        x.span,
                    );
                    Type::Error
                },
                t => t,
            },
        }
    }

    fn resolve_declared(&mut self, env: &Env<'_>, x: &NamedType) -> (r: Type)
        ensures
            (final(self)@, r@) == resolved_declared(env@, old(self)@, *x),
    {
        match env.lookup_struct(&x.name) {
            Some(info) => if info.is_file_bearing && !self.is_file_bearing_struct_allowed() {
                self.error(body_only_text(&x.name), x.span);
                Type::Error
            } else {
                Type::Named(env.qualify_in_current(&x.name))
            },
            None => if env.lookup_enum(&x.name).is_some() {
                Type::Named(env.qualify_in_current(&x.name))
            } else if same_text(&x.name, "Self") {
                Type::Named(x.name.clone())
            } else {
                self.error(cat3("unknown type `", &x.name, "`"), x.span);
                Type::Error
            },
        }
    }

    fn apply_generic(&mut self, env: &Env<'_>, x: &GenericType, args: Vec<Type>) -> (r: Type)
        ensures
            (final(self)@, r@) == applied(env@, old(self)@, *x, args.deep_view()),
    {
        match env.lookup_type_alias(&x.name) {
            Some(alias) => {
                if alias.type_params.len() > 0 {
                    return substitute(&alias.target, &param_bindings(&alias.type_params, &args));
                }
            },
            None => {},
        }
        if names_builtin_generic(&x.name) {
            return Type::Generic(x.name.clone(), args);
        }
        match env.lookup_struct(&x.name) {
            Some(info) => {
                if info.is_file_bearing && !self.is_file_bearing_struct_allowed() {
                    self.error(body_only_text(&x.name), x.span);
                    return Type::Error;
                }
                if args.len() != info.type_params.len() {
                    self.error(
                        arity_text(&x.name, info.type_params.len(), args.len()),
                        x.span,
                    );
                }
            },
            None => match env.lookup_enum(&x.name) {
                Some(info) => {
                    if args.len() != info.type_params.len() {
                        self.error(
                            arity_text(&x.name, info.type_params.len(), args.len()),
                            x.span,
                        );
                    }
                },
                None => {
                    self.error(cat3("unknown type `", &x.name, "`"), x.span);
                    return Type::Error;
                },
            },
        }
        Type::Generic(env.qualify_in_current(&x.name), args)
    }
}

} // verus!
