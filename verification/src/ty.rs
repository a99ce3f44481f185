//! The types of Phoenix and their model.
use crate::text::Chars;
use vstd::prelude::*;

verus! {

/// A resolved type. Names of declared types are table keys.
#[derive(Debug, PartialEq, Eq)]
pub enum Type {
    Int,
    Float,
    String,
    Bool,
    Void,
    /// A file that an endpoint sends or receives.
    File,
    /// A struct or enum without type arguments.
    Named(String),
    Function(Vec<Type>, Box<Type>),
    /// A generic type applied to type arguments.
    Generic(String, Vec<Type>),
    /// A type parameter that nothing has fixed yet.
    TypeVar(String),
    /// A trait object.
    Dyn(String),
    /// The type of everything that has already been reported.
    Error,
}

/// What a [`Type`] is.
pub enum Ty {
    Int,
    Float,
    Str,
    Bool,
    Void,
    File,
    Named(Chars),
    Function(Seq<Ty>, Box<Ty>),
    Generic(Chars, Seq<Ty>),
    TypeVar(Chars),
    Dyn(Chars),
    Error,
}

/// A substitution: what each type parameter stands for.
pub type Bindings = Seq<(Chars, Ty)>;

pub closed spec fn type_view(t: Type) -> Ty
    decreases t,
{
    match t {
        Type::Int => Ty::Int,
        Type::Float => Ty::Float,
        Type::String => Ty::Str,
        Type::Bool => Ty::Bool,
        Type::Void => Ty::Void,
        Type::File => Ty::File,
        Type::Error => Ty::Error,
        Type::Named(n) => Ty::Named(n@),
        Type::TypeVar(n) => Ty::TypeVar(n@),
        Type::Dyn(n) => Ty::Dyn(n@),
        Type::Function(ps, r) => Ty::Function(
            Seq::new(
                ps@.len(),
                |i: int|
                    if 0 <= i < ps@.len() {
                        type_view(ps@[i])
                    } else {
                        Ty::Error
                    },
            ),
            Box::new(type_view(*r)),
        ),
        Type::Generic(n, ps) => Ty::Generic(
            n@,
            Seq::new(
                ps@.len(),
                |i: int|
                    if 0 <= i < ps@.len() {
                        type_view(ps@[i])
                    } else {
                        Ty::Error
                    },
            ),
        ),
    }
}

impl View for Type {
    type V = Ty;

    open spec fn view(&self) -> Ty {
        type_view(*self)
    }
}

impl DeepView for Type {
    type V = Ty;

    open spec fn deep_view(&self) -> Ty {
        type_view(*self)
    }
}

/// What each form of type is; the result of a function type is left to
/// [`lemma_function_view`].
pub broadcast proof fn view_of_type(t: Type)
    ensures
        t is Int ==> #[trigger] type_view(t) == Ty::Int,
        t is Float ==> type_view(t) == Ty::Float,
        t is String ==> type_view(t) == Ty::Str,
        t is Bool ==> type_view(t) == Ty::Bool,
        t is Void ==> type_view(t) == Ty::Void,
        t is File ==> type_view(t) == Ty::File,
        t is Error ==> type_view(t) == Ty::Error,
        t is Named ==> type_view(t) == Ty::Named(t->Named_0@),
        t is TypeVar ==> type_view(t) == Ty::TypeVar(t->TypeVar_0@),
        t is Dyn ==> type_view(t) == Ty::Dyn(t->Dyn_0@),
        t is Generic ==> type_view(t) == Ty::Generic(t->Generic_0@, t->Generic_1.deep_view()),
        t is Function ==> type_view(t) is Function && type_view(t)->Function_0
            == t->Function_0.deep_view(),
{
    if t is Generic {
        assert(type_view(t)->Generic_1 =~= t->Generic_1.deep_view());
    }
    if t is Function {
        assert(type_view(t)->Function_0 =~= t->Function_0.deep_view());
    }
}

pub proof fn lemma_function_view(t: Type)
    requires
        t is Function,
    ensures
        type_view(t) == Ty::Function(
            t->Function_0.deep_view(),
            Box::new(type_view(*t->Function_1)),
        ),
{
    assert(type_view(t)->Function_0 =~= t->Function_0.deep_view());
}

} // verus!
