//! Semantic analysis for the Phoenix programming language.
use vstd::prelude::*;

pub mod annotations;
pub mod ast;
pub mod binding_laws;
pub mod bodies;
pub mod builtin_laws;
pub mod builtins;
pub mod call_laws;
pub mod calls;
pub mod capture_laws;
pub mod check_call;
pub mod check_expr;
pub mod check_method;
pub mod check_stmt;
pub mod check_types;
pub mod checker;
pub mod checking_laws;
pub mod coherence;
pub mod defer;
pub mod dense;
pub mod endpoint;
pub mod endpoint_laws;
pub mod env;
pub mod expr_laws;
pub mod fit_laws;
pub mod flow;
pub mod foreign_laws;
pub mod free_vars;
pub mod ids;
pub mod impls;
pub mod import_laws;
pub mod info;
pub mod listing_laws;
pub mod method_laws;
pub mod object_safety;
pub mod paths;
pub mod pin;
pub mod pin_laws;
pub mod place_laws;
pub mod privacy;
pub mod product;
pub mod program_laws;
pub mod register;
pub mod register_laws;
pub mod request_laws;
pub mod resolution_laws;
pub mod resolved;
pub mod route_laws;
pub mod routes;
pub mod scope_laws;
pub mod scoped_params;
pub mod scopes;
pub mod signature;
pub mod signature_laws;
pub mod slots;
pub mod span;
pub mod spelling_laws;
pub mod state;
pub mod statement_laws;
pub mod steady;
pub mod steady_bodies;
pub mod steady_parts;
pub mod steady_program;
pub mod table;
pub mod text;
pub mod text_laws;
pub mod ty;
pub mod type_laws;
pub mod types;
pub mod usage_laws;
pub mod valid_laws;
pub mod variants;
pub mod walk;

pub use checker::Checker;
pub use info::{
    DefaultValue, DerivedField, EndpointInfo, EnumInfo, FieldInfo, FunctionInfo, MethodInfo,
    QueryParamInfo, ResolvedDerivedType, StructInfo, SymbolKind, SymbolRef, TraitInfo,
    TraitMethodInfo, TypeAliasInfo,
};
pub use resolved::{check, check_modules, Analysis, ResolvedModule};

verus! {

} // verus!
