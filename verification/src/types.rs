//! Operations on types: equality, rendering and substitution.
use crate::paths::{bare, bare_name};
use crate::table::{find, Key, Table};
pub use crate::ty::{Bindings, Ty, Type};
use crate::text::{
    cat2, cat4, join, join_text, names_contain, push_view, same_text, Chars, Dup,
};
use vstd::prelude::*;
use vstd::string::*;

verus! {

/// The name of the built-in optional type.
pub const OPTION_ENUM: &'static str = "Option";

broadcast use crate::ty::view_of_type;

// ── Constructors ─────────────────────────────────────────────────────

pub open spec fn ty_list(t: Ty) -> Ty {
    Ty::Generic("List"@, seq![t])
}

pub open spec fn ty_map(k: Ty, v: Ty) -> Ty {
    Ty::Generic("Map"@, seq![k, v])
}

pub open spec fn ty_option(t: Ty) -> Ty {
    Ty::Generic("Option"@, seq![t])
}

pub open spec fn ty_result(t: Ty, e: Ty) -> Ty {
    Ty::Generic("Result"@, seq![t, e])
}

pub open spec fn ty_list_builder(t: Ty) -> Ty {
    Ty::Generic("ListBuilder"@, seq![t])
}

pub open spec fn ty_map_builder(k: Ty, v: Ty) -> Ty {
    Ty::Generic("MapBuilder"@, seq![k, v])
}

pub fn one(t: Type) -> (r: Vec<Type>)
    ensures
        r.deep_view() == seq![t@],
{
    let mut v: Vec<Type> = Vec::new();
    v.push(t);
    assert(v.deep_view() =~= seq![t@]);
    v
}

pub fn two(a: Type, b: Type) -> (r: Vec<Type>)
    ensures
        r.deep_view() == seq![a@, b@],
{
    let mut v: Vec<Type> = Vec::new();
    v.push(a);
    v.push(b);
    assert(v.deep_view() =~= seq![a@, b@]);
    v
}

pub fn list_of(t: Type) -> (r: Type)
    ensures
        r@ == ty_list(t@),
{
    Type::Generic("List".to_owned(), one(t))
}

pub fn map_of(k: Type, v: Type) -> (r: Type)
    ensures
        r@ == ty_map(k@, v@),
{
    Type::Generic("Map".to_owned(), two(k, v))
}

pub fn option_of(t: Type) -> (r: Type)
    ensures
        r@ == ty_option(t@),
{
    Type::Generic("Option".to_owned(), one(t))
}

pub fn result_of(t: Type, e: Type) -> (r: Type)
    ensures
        r@ == ty_result(t@, e@),
{
    Type::Generic("Result".to_owned(), two(t, e))
}

pub fn list_builder_of(t: Type) -> (r: Type)
    ensures
        r@ == ty_list_builder(t@),
{
    Type::Generic("ListBuilder".to_owned(), one(t))
}

pub fn map_builder_of(k: Type, v: Type) -> (r: Type)
    ensures
        r@ == ty_map_builder(k@, v@),
{
    Type::Generic("MapBuilder".to_owned(), two(k, v))
}

pub fn type_var(name: &str) -> (r: Type)
    ensures
        r@ == Ty::TypeVar(name@),
{
    Type::TypeVar(name.to_owned())
}

pub fn function_of(params: Vec<Type>, ret: Type) -> (r: Type)
    ensures
        r@ == Ty::Function(params.deep_view(), Box::new(ret@)),
{
    let r = Type::Function(params, Box::new(ret));
    proof {
        crate::ty::lemma_function_view(r);
    }
    r
}

/// The type that a bare name stands for when nothing else claims it.
pub open spec fn ty_from_name(n: Chars) -> Ty {
    if n == "Int"@ {
        Ty::Int
    } else if n == "Float"@ {
        Ty::Float
    } else if n == "String"@ {
        Ty::Str
    } else if n == "Bool"@ {
        Ty::Bool
    } else if n == "Void"@ {
        Ty::Void
    } else if n == "File"@ {
        Ty::File
    } else {
        Ty::Named(n)
    }
}

// ── Equality and copying ─────────────────────────────────────────────

impl Dup for Type {
    fn dup(&self) -> (r: Self)
        decreases self, 1int,
    {
        match self {
            Type::Int => Type::Int,
            Type::Float => Type::Float,
            Type::String => Type::String,
            Type::Bool => Type::Bool,
            Type::Void => Type::Void,
            Type::File => Type::File,
            Type::Error => Type::Error,
            Type::Named(n) => Type::Named(n.clone()),
            Type::TypeVar(n) => Type::TypeVar(n.clone()),
            Type::Dyn(n) => Type::Dyn(n.clone()),
            Type::Function(ps, r) => {
                proof {
                    crate::ty::lemma_function_view(*self);
                }
                function_of(dup_types(ps), r.dup())
            },
            Type::Generic(n, ps) => Type::Generic(n.clone(), dup_types(ps)),
        }
    }
}

fn dup_types(ts: &Vec<Type>) -> (r: Vec<Type>)
    ensures
        r.deep_view() == ts.deep_view(),
    decreases ts, 0int,
{
    let mut out: Vec<Type> = Vec::new();
    let mut i: usize = 0;
    while i < ts.len()
        invariant
            i <= ts.len(),
            out.deep_view() == ts.deep_view().take(i as int),
        decreases ts.len() - i,
    {
        let d = ts[i].dup();
        push_view(&mut out, d);
        assert(ts.deep_view().take(i + 1) =~= ts.deep_view().take(i as int).push(d@));
        i += 1;
    }
    assert(ts.deep_view().take(ts.len() as int) =~= ts.deep_view());
    out
}

/// Whether two types are the same.
pub fn same_type(a: &Type, b: &Type) -> (r: bool)
    ensures
        r == (a@ == b@),
    decreases a, 1int,
{
    match (a, b) {
        (Type::Int, Type::Int) => true,
        (Type::Float, Type::Float) => true,
        (Type::String, Type::String) => true,
        (Type::Bool, Type::Bool) => true,
        (Type::Void, Type::Void) => true,
        (Type::File, Type::File) => true,
        (Type::Error, Type::Error) => true,
        (Type::Named(x), Type::Named(y)) => *x == *y,
        (Type::TypeVar(x), Type::TypeVar(y)) => *x == *y,
        (Type::Dyn(x), Type::Dyn(y)) => *x == *y,
        (Type::Generic(x, xs), Type::Generic(y, ys)) => *x == *y && same_types(xs, ys),
        (Type::Function(xs, x), Type::Function(ys, y)) => {
            proof {
                crate::ty::lemma_function_view(*a);
                crate::ty::lemma_function_view(*b);
            }
            same_types(xs, ys) && same_type(x, y)
        },
        _ => false,
    }
}

/// Whether two lists of types are the same.
pub fn same_types(a: &Vec<Type>, b: &Vec<Type>) -> (r: bool)
    ensures
        r == (a.deep_view() == b.deep_view()),
    decreases a, 0int,
{
    if a.len() != b.len() {
        assert(a.deep_view().len() != b.deep_view().len());
        return false;
    }
    let mut i: usize = 0;
    while i < a.len()
        invariant
            i <= a.len(),
            a.len() == b.len(),
            forall|j: int| 0 <= j < i ==> a.deep_view()[j] == b.deep_view()[j],
        decreases a.len() - i,
    {
        if !same_type(&a[i], &b[i]) {
            assert(a.deep_view()[i as int] != b.deep_view()[i as int]);
            return false;
        }
        i += 1;
    }
    assert(a.deep_view() =~= b.deep_view());
    true
}

impl Key for Type {
    fn same(&self, other: &Self) -> (r: bool) {
        same_type(self, other)
    }
}

// ── Queries ──────────────────────────────────────────────────────────

/// Whether a type parameter occurs in the type.
pub open spec fn has_vars(t: Ty) -> bool
    decreases t, 0int,
{
    match t {
        Ty::TypeVar(_) => true,
        Ty::Generic(_, args) => has_vars_from(args, 0),
        Ty::Function(ps, r) => has_vars_from(ps, 0) || has_vars(*r),
        _ => false,
    }
}

/// Whether a type parameter occurs in one of the types from `i` on.
pub open spec fn has_vars_from(ts: Seq<Ty>, i: int) -> bool
    decreases ts, ts.len() - i,
{
    0 <= i < ts.len() && (has_vars(ts[i]) || has_vars_from(ts, i + 1))
}

/// Whether a type parameter occurs in one of the types.
pub open spec fn any_has_vars(ts: Seq<Ty>) -> bool {
    has_vars_from(ts, 0)
}

/// Whether one of the types is the error type.
pub open spec fn any_error(ts: Seq<Ty>) -> bool {
    exists|i: int| 0 <= i < ts.len() && #[trigger] ts[i] == Ty::Error
}

/// Whether the type is complete: the error type does not occur in it, and no
/// type parameter but those in `params`.
pub open spec fn settled(t: Ty, params: Seq<Chars>) -> bool
    decreases t, 0int,
{
    match t {
        Ty::Error => false,
        Ty::TypeVar(n) => params.contains(n),
        Ty::Generic(_, args) => settled_from(args, params, 0),
        Ty::Function(ps, r) => settled_from(ps, params, 0) && settled(*r, params),
        _ => true,
    }
}

/// Whether the types from `i` on are complete.
pub open spec fn settled_from(ts: Seq<Ty>, params: Seq<Chars>, i: int) -> bool
    decreases ts, ts.len() - i,
{
    i < 0 || i >= ts.len() || settled(ts[i], params) && settled_from(ts, params, i + 1)
}

/// Whether all types are complete.
pub open spec fn all_settled(ts: Seq<Ty>, params: Seq<Chars>) -> bool {
    settled_from(ts, params, 0)
}

/// Whether `Self` occurs in the type.
pub open spec fn mentions_self(t: Ty) -> bool
    decreases t, 0int,
{
    match t {
        Ty::Named(n) => n == "Self"@,
        Ty::Generic(_, args) => mentions_self_from(args, 0),
        Ty::Function(ps, r) => mentions_self_from(ps, 0) || mentions_self(*r),
        _ => false,
    }
}

/// Whether `Self` occurs in one of the types from `i` on.
pub open spec fn mentions_self_from(ts: Seq<Ty>, i: int) -> bool
    decreases ts, ts.len() - i,
{
    0 <= i < ts.len() && (mentions_self(ts[i]) || mentions_self_from(ts, i + 1))
}

/// Whether `name` occurs in the type, as a type or as a type parameter.
pub open spec fn mentions(t: Ty, name: Chars) -> bool
    decreases t, 0int,
{
    match t {
        Ty::Named(n) => n == name,
        Ty::TypeVar(n) => n == name,
        Ty::Generic(n, args) => n == name || mentions_from(args, name, 0),
        Ty::Function(ps, r) => mentions_from(ps, name, 0) || mentions(*r, name),
        _ => false,
    }
}

/// Whether `name` occurs in one of the types from `i` on.
pub open spec fn mentions_from(ts: Seq<Ty>, name: Chars, i: int) -> bool
    decreases ts, ts.len() - i,
{
    0 <= i < ts.len() && (mentions(ts[i], name) || mentions_from(ts, name, i + 1))
}

pub open spec fn is_numeric_ty(t: Ty) -> bool {
    t == Ty::Int || t == Ty::Float
}

impl Type {
    pub fn is_error(&self) -> (r: bool)
        ensures
            r == (self@ == Ty::Error),
    {
        matches!(self, Type::Error)
    }

    pub fn is_void(&self) -> (r: bool)
        ensures
            r == (self@ == Ty::Void),
    {
        matches!(self, Type::Void)
    }

    pub fn is_bool(&self) -> (r: bool)
        ensures
            r == (self@ == Ty::Bool),
    {
        matches!(self, Type::Bool)
    }

    pub fn is_int(&self) -> (r: bool)
        ensures
            r == (self@ == Ty::Int),
    {
        matches!(self, Type::Int)
    }

    pub fn is_string(&self) -> (r: bool)
        ensures
            r == (self@ == Ty::Str),
    {
        matches!(self, Type::String)
    }

    pub fn is_file(&self) -> (r: bool)
        ensures
            r == (self@ == Ty::File),
    {
        matches!(self, Type::File)
    }

    pub fn is_type_var(&self) -> (r: bool)
        ensures
            r == (self@ is TypeVar),
    {
        matches!(self, Type::TypeVar(_))
    }

    pub fn is_numeric(&self) -> (r: bool)
        ensures
            r == is_numeric_ty(self@),
    {
        matches!(self, Type::Int) || matches!(self, Type::Float)
    }

    pub fn from_name(name: &String) -> (r: Self)
        ensures
            r@ == ty_from_name(name@),
    {
        if same_text(name, "Int") {
            Type::Int
        } else if same_text(name, "Float") {
            Type::Float
        } else if same_text(name, "String") {
            Type::String
        } else if same_text(name, "Bool") {
            Type::Bool
        } else if same_text(name, "Void") {
            Type::Void
        } else if same_text(name, "File") {
            Type::File
        } else {
            Type::Named(name.clone())
        }
    }

    pub fn has_type_vars(&self) -> (r: bool)
        ensures
            r == has_vars(self@),
        decreases self, 1int,
    {
        match self {
            Type::TypeVar(_) => true,
            Type::Generic(_, args) => any_type_vars(args),
            Type::Function(ps, r) => {
                proof {
                    crate::ty::lemma_function_view(*self);
                }
                any_type_vars(ps) || r.has_type_vars()
            },
            _ => false,
        }
    }

    /// The type as it reads in a message.
    pub fn text(&self) -> (r: String)
        ensures
            r@ == show(self@),
        decreases self, 1int,
    {
        match self {
            Type::Int => "Int".to_owned(),
            Type::Float => "Float".to_owned(),
            Type::String => "String".to_owned(),
            Type::Bool => "Bool".to_owned(),
            Type::Void => "Void".to_owned(),
            Type::File => "File".to_owned(),
            Type::Error => "<error>".to_owned(),
            Type::Named(n) => bare_name(n),
            Type::TypeVar(n) => n.clone(),
            Type::Dyn(n) => cat2("dyn ", &bare_name(n)),
            Type::Generic(n, args) => cat4(
                &bare_name(n),
                "<",
                &join_text(&type_texts(args), ", "),
                ">",
            ),
            Type::Function(ps, r) => {
                proof {
                    crate::ty::lemma_function_view(*self);
                }
                cat4("(", &join_text(&type_texts(ps), ", "), ") -> ", &r.text())
            },
        }
    }
}

pub fn any_type_vars(ts: &Vec<Type>) -> (r: bool)
    ensures
        r == has_vars_from(ts.deep_view(), 0),
    decreases ts, 0int,
{
    let mut i: usize = 0;
    while i < ts.len()
        invariant
            i <= ts.len(),
            has_vars_from(ts.deep_view(), 0) == has_vars_from(ts.deep_view(), i as int),
        decreases ts.len() - i,
    {
        if ts[i].has_type_vars() {
            return true;
        }
        i += 1;
    }
    false
}

pub fn is_settled(t: &Type, params: &Vec<String>) -> (r: bool)
    ensures
        r == settled(t@, params.deep_view()),
    decreases t, 1int,
{
    match t {
        Type::Error => false,
        Type::TypeVar(n) => names_contain(params, n),
        Type::Generic(_, args) => are_settled(args, params),
        Type::Function(ps, r) => {
            proof {
                crate::ty::lemma_function_view(*t);
            }
            are_settled(ps, params) && is_settled(r, params)
        },
        _ => true,
    }
}

pub fn are_settled(ts: &Vec<Type>, params: &Vec<String>) -> (r: bool)
    ensures
        r == all_settled(ts.deep_view(), params.deep_view()),
    decreases ts, 0int,
{
    let mut i: usize = 0;
    while i < ts.len()
        invariant
            i <= ts.len(),
            all_settled(ts.deep_view(), params.deep_view()) == settled_from(
                ts.deep_view(),
                params.deep_view(),
                i as int,
            ),
        decreases ts.len() - i,
    {
        if !is_settled(&ts[i], params) {
            return false;
        }
        i += 1;
    }
    true
}

pub fn any_is_error(ts: &Vec<Type>) -> (r: bool)
    ensures
        r == any_error(ts.deep_view()),
{
    let mut i: usize = 0;
    while i < ts.len()
        invariant
            i <= ts.len(),
            forall|j: int| 0 <= j < i ==> #[trigger] ts.deep_view()[j] != Ty::Error,
        decreases ts.len() - i,
    {
        if ts[i].is_error() {
            assert(ts.deep_view()[i as int] == Ty::Error);
            return true;
        }
        i += 1;
    }
    false
}

/// Recursively tests whether `ty` mentions the `Self` type.
pub fn contains_self(ty: &Type) -> (r: bool)
    ensures
        r == mentions_self(ty@),
    decreases ty, 1int,
{
    match ty {
        Type::Named(name) => same_text(name, "Self"),
        Type::Generic(_, args) => any_contains_self(args),
        Type::Function(ps, r) => {
            proof {
                crate::ty::lemma_function_view(*ty);
            }
            any_contains_self(ps) || contains_self(r)
        },
        _ => false,
    }
}

pub fn any_contains_self(ts: &Vec<Type>) -> (r: bool)
    ensures
        r == mentions_self_from(ts.deep_view(), 0),
    decreases ts, 0int,
{
    let mut i: usize = 0;
    while i < ts.len()
        invariant
            i <= ts.len(),
            mentions_self_from(ts.deep_view(), 0) == mentions_self_from(ts.deep_view(), i as int),
        decreases ts.len() - i,
    {
        if contains_self(&ts[i]) {
            return true;
        }
        i += 1;
    }
    false
}

pub fn type_mentions(ty: &Type, name: &String) -> (r: bool)
    ensures
        r == mentions(ty@, name@),
    decreases ty, 1int,
{
    match ty {
        Type::Named(n) => *n == *name,
        Type::TypeVar(n) => *n == *name,
        Type::Generic(n, args) => *n == *name || any_type_mentions(args, name),
        Type::Function(ps, r) => {
            proof {
                crate::ty::lemma_function_view(*ty);
            }
            any_type_mentions(ps, name) || type_mentions(r, name)
        },
        _ => false,
    }
}

fn any_type_mentions(ts: &Vec<Type>, name: &String) -> (r: bool)
    ensures
        r == mentions_from(ts.deep_view(), name@, 0),
    decreases ts, 0int,
{
    let mut i: usize = 0;
    while i < ts.len()
        invariant
            i <= ts.len(),
            mentions_from(ts.deep_view(), name@, 0) == mentions_from(ts.deep_view(), name@, i as int),
        decreases ts.len() - i,
    {
        if type_mentions(&ts[i], name) {
            return true;
        }
        i += 1;
    }
    false
}

// ── Rendering ────────────────────────────────────────────────────────

/// The type as it reads in a message: module paths in front of names are
/// left out.
pub open spec fn show(t: Ty) -> Chars
    decreases t, 0int,
{
    match t {
        Ty::Int => "Int"@,
        Ty::Float => "Float"@,
        Ty::Str => "String"@,
        Ty::Bool => "Bool"@,
        Ty::Void => "Void"@,
        Ty::File => "File"@,
        Ty::Error => "<error>"@,
        Ty::Named(n) => bare(n),
        Ty::TypeVar(n) => n,
        Ty::Dyn(n) => "dyn "@ + bare(n),
        Ty::Generic(n, args) => bare(n) + "<"@ + join(
            shows(args, args.len() as int),
            ", "@,
        ) + ">"@,
        Ty::Function(ps, r) => "("@ + join(
            shows(ps, ps.len() as int),
            ", "@,
        ) + ") -> "@ + show(*r),
    }
}

/// The first `n` types as they read in a message.
pub open spec fn shows(ts: Seq<Ty>, n: int) -> Seq<Chars>
    decreases ts, n,
{
    if n <= 0 || n > ts.len() {
        Seq::empty()
    } else {
        shows(ts, n - 1).push(show(ts[n - 1]))
    }
}

fn type_texts(ts: &Vec<Type>) -> (r: Vec<String>)
    ensures
        r.deep_view() == shows(ts.deep_view(), ts.deep_view().len() as int),
    decreases ts, 0int,
{
    let mut out: Vec<String> = Vec::new();
    assert(out.deep_view() =~= Seq::<Chars>::empty());
    let mut i: usize = 0;
    while i < ts.len()
        invariant
            i <= ts.len(),
            out.deep_view() == shows(ts.deep_view(), i as int),
        decreases ts.len() - i,
    {
        push_view(&mut out, ts[i].text());
        i += 1;
    }
    out
}

/// The type with every name spelled out as its table key.
pub open spec fn spelling(t: Ty) -> Chars
    decreases t, 0int,
{
    match t {
        Ty::Named(n) => n,
        Ty::Generic(n, args) => n + "<"@ + join(
            spellings(args, args.len() as int),
            ", "@,
        ) + ">"@,
        _ => show(t),
    }
}

/// Spells a type with canonical names throughout: unlike [`Type::text`], the
/// module path of a name is kept, so that types of the same name in two
/// modules stay distinguishable.
pub fn canonical_type_spelling(ty: &Type) -> (r: String)
    ensures
        r@ == spelling(ty@),
    decreases ty, 1int,
{
    match ty {
        Type::Named(n) => n.clone(),
        Type::Generic(n, args) => cat4(n, "<", &join_text(&type_spellings(args), ", "), ">"),
        _ => ty.text(),
    }
}

/// The first `n` types, spelled out.
pub open spec fn spellings(ts: Seq<Ty>, n: int) -> Seq<Chars>
    decreases ts, n,
{
    if n <= 0 || n > ts.len() {
        Seq::empty()
    } else {
        spellings(ts, n - 1).push(spelling(ts[n - 1]))
    }
}

fn type_spellings(ts: &Vec<Type>) -> (r: Vec<String>)
    ensures
        r.deep_view() == spellings(ts.deep_view(), ts.deep_view().len() as int),
    decreases ts, 0int,
{
    let mut out: Vec<String> = Vec::new();
    assert(out.deep_view() =~= Seq::<Chars>::empty());
    let mut i: usize = 0;
    while i < ts.len()
        invariant
            i <= ts.len(),
            out.deep_view() == spellings(ts.deep_view(), i as int),
        decreases ts.len() - i,
    {
        push_view(&mut out, canonical_type_spelling(&ts[i]));
        i += 1;
    }
    out
}

// ── Substitution ─────────────────────────────────────────────────────

/// The type with every bound name replaced by what it stands for.
pub open spec fn subst(t: Ty, b: Bindings) -> Ty
    decreases t, 0int,
{
    match t {
        Ty::TypeVar(n) => match find(b, n) {
            Some(u) => u,
            None => t,
        },
        Ty::Named(n) => match find(b, n) {
            Some(u) => u,
            None => t,
        },
        Ty::Generic(n, args) => Ty::Generic(
            n,
            subst_n(args, b, args.len() as int),
        ),
        Ty::Function(ps, r) => Ty::Function(
            subst_n(ps, b, ps.len() as int),
            Box::new(subst(*r, b)),
        ),
        _ => t,
    }
}

/// The first `n` types after the substitution.
pub open spec fn subst_n(ts: Seq<Ty>, b: Bindings, n: int) -> Seq<Ty>
    decreases ts, n,
{
    if n <= 0 || n > ts.len() {
        Seq::empty()
    } else {
        subst_n(ts, b, n - 1).push(subst(ts[n - 1], b))
    }
}

/// The substitution applied to each type.
pub open spec fn subst_all(ts: Seq<Ty>, b: Bindings) -> Seq<Ty> {
    subst_n(ts, b, ts.len() as int)
}

pub fn substitute(ty: &Type, b: &Table<String, Type>) -> (r: Type)
    ensures
        r@ == subst(ty@, b@),
    decreases ty, 1int,
{
    match ty {
        Type::TypeVar(n) => match b.get(n) {
            Some(u) => u.dup(),
            None => ty.dup(),
        },
        Type::Named(n) => match b.get(n) {
            Some(u) => u.dup(),
            None => ty.dup(),
        },
        Type::Generic(n, args) => Type::Generic(n.clone(), substitute_all(args, b)),
        Type::Function(ps, r) => {
            proof {
                crate::ty::lemma_function_view(*ty);
            }
            function_of(substitute_all(ps, b), substitute(r, b))
        },
        _ => ty.dup(),
    }
}

pub fn substitute_all(ts: &Vec<Type>, b: &Table<String, Type>) -> (r: Vec<Type>)
    ensures
        r.deep_view() == subst_n(ts.deep_view(), b@, ts.deep_view().len() as int),
    decreases ts, 0int,
{
    let mut out: Vec<Type> = Vec::new();
    assert(out.deep_view() =~= Seq::<Ty>::empty());
    let mut i: usize = 0;
    while i < ts.len()
        invariant
            i <= ts.len(),
            out.deep_view() == subst_n(ts.deep_view(), b@, i as int),
        decreases ts.len() - i,
    {
        push_view(&mut out, substitute(&ts[i], b));
        i += 1;
    }
    out
}

} // verus!
