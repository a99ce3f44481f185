//! What the analysis records about declarations.
use crate::ast::{Expr, HttpMethod, PaginationMode, Visibility};
use crate::paths::ModulePath;
use crate::span::{FuncId, Span};
use crate::table::Table;
use crate::text::{Chars, Dup};
use crate::types::{Ty, Type};
use vstd::prelude::*;

verus! {

/// Information about a registered function signature, captured during the
/// first pass so that call sites can be checked in the second.
#[derive(Debug)]
pub struct FunctionInfo<'a> {
    /// Stable id of this function.
    pub func_id: FuncId,
    /// Where the name stands in the declaration.
    pub definition_span: Span,
    /// Generic type parameters.
    pub type_params: Vec<String>,
    /// Trait bounds of the type parameters.
    pub type_param_bounds: Vec<(String, Vec<String>)>,
    /// Types of the parameters, without `self`.
    pub params: Vec<Type>,
    /// Names of the parameters, parallel to `params`.
    pub param_names: Vec<String>,
    /// Default values, by index into `params`.
    pub default_param_exprs: Table<usize, &'a Expr>,
    /// The parameters whose default is not a pure literal: it has to be
    /// evaluated in the scope of the declaring module.
    pub default_needs_wrapper: Vec<usize>,
    pub return_type: Type,
    pub visibility: Visibility,
    /// The module that declares the function.
    pub def_module: ModulePath,
}

/// What a [`FunctionInfo`] holds.
#[verifier::ext_equal]
pub struct FunctionInfoV {
    pub func_id: FuncId,
    pub definition_span: Span,
    pub type_params: Seq<Chars>,
    pub type_param_bounds: Seq<(Chars, Seq<Chars>)>,
    pub params: Seq<Ty>,
    pub param_names: Seq<Chars>,
    pub default_param_exprs: Seq<(usize, Expr)>,
    pub default_needs_wrapper: Seq<usize>,
    pub return_type: Ty,
    pub visibility: Visibility,
    pub def_module: Seq<Chars>,
}

impl<'a> DeepView for FunctionInfo<'a> {
    type V = FunctionInfoV;

    open spec fn deep_view(&self) -> FunctionInfoV {
        FunctionInfoV {
            func_id: self.func_id,
            definition_span: self.definition_span,
            type_params: self.type_params.deep_view(),
            type_param_bounds: self.type_param_bounds.deep_view(),
            params: self.params.deep_view(),
            param_names: self.param_names.deep_view(),
            default_param_exprs: self.default_param_exprs@,
            default_needs_wrapper: self.default_needs_wrapper@,
            return_type: self.return_type@,
            visibility: self.visibility,
            def_module: self.def_module@,
        }
    }
}

/// Information about a method signature in a trait.
#[derive(Debug)]
pub struct TraitMethodInfo {
    pub name: String,
    /// Types of the parameters, without `self`.
    pub params: Vec<Type>,
    pub return_type: Type,
}

/// What a [`TraitMethodInfo`] holds.
#[verifier::ext_equal]
pub struct TraitMethodInfoV {
    pub name: Chars,
    pub params: Seq<Ty>,
    pub return_type: Ty,
}

impl DeepView for TraitMethodInfo {
    type V = TraitMethodInfoV;

    open spec fn deep_view(&self) -> TraitMethodInfoV {
        TraitMethodInfoV {
            name: self.name@,
            params: self.params.deep_view(),
            return_type: self.return_type@,
        }
    }
}

/// Information about a registered trait.
#[derive(Debug)]
pub struct TraitInfo {
    pub definition_span: Span,
    pub type_params: Vec<String>,
    /// The required methods in declaration order, which is also the order of
    /// the slots of a `dyn` table.
    pub methods: Vec<TraitMethodInfo>,
    /// Why the trait cannot be used as `dyn`, if it cannot.
    pub object_safety_error: Option<String>,
    pub visibility: Visibility,
    pub def_module: ModulePath,
}

/// What a [`TraitInfo`] holds.
#[verifier::ext_equal]
pub struct TraitInfoV {
    pub definition_span: Span,
    pub type_params: Seq<Chars>,
    pub methods: Seq<TraitMethodInfoV>,
    pub object_safety_error: Option<Chars>,
    pub visibility: Visibility,
    pub def_module: Seq<Chars>,
}

impl DeepView for TraitInfo {
    type V = TraitInfoV;

    open spec fn deep_view(&self) -> TraitInfoV {
        TraitInfoV {
            definition_span: self.definition_span,
            type_params: self.type_params.deep_view(),
            methods: self.methods.deep_view(),
            object_safety_error: self.object_safety_error.deep_view(),
            visibility: self.visibility,
            def_module: self.def_module@,
        }
    }
}

/// A resolved field of a struct.
#[derive(Debug)]
pub struct FieldInfo<'a> {
    pub name: String,
    pub ty: Type,
    /// The `where` clause of the field.
    pub constraint: Option<&'a Expr>,
    pub definition_span: Span,
    /// Independent of the visibility of the struct.
    pub visibility: Visibility,
}

/// What a [`FieldInfo`] holds.
#[verifier::ext_equal]
pub struct FieldInfoV {
    pub name: Chars,
    pub ty: Ty,
    pub constraint: Option<Expr>,
    pub definition_span: Span,
    pub visibility: Visibility,
}

impl<'a> DeepView for FieldInfo<'a> {
    type V = FieldInfoV;

    open spec fn deep_view(&self) -> FieldInfoV {
        FieldInfoV {
            name: self.name@,
            ty: self.ty@,
            constraint: self.constraint.deep_view(),
            definition_span: self.definition_span,
            visibility: self.visibility,
        }
    }
}

/// Information about a registered struct.
#[derive(Debug)]
pub struct StructInfo<'a> {
    pub definition_span: Span,
    pub type_params: Vec<String>,
    pub fields: Vec<FieldInfo<'a>>,
    /// Whether a field is a `File` or an optional one; such a struct is only a
    /// body or a response of an endpoint.
    pub is_file_bearing: bool,
    pub visibility: Visibility,
    pub def_module: ModulePath,
}

/// What a [`StructInfo`] holds.
#[verifier::ext_equal]
pub struct StructInfoV {
    pub definition_span: Span,
    pub type_params: Seq<Chars>,
    pub fields: Seq<FieldInfoV>,
    pub is_file_bearing: bool,
    pub visibility: Visibility,
    pub def_module: Seq<Chars>,
}

impl<'a> DeepView for StructInfo<'a> {
    type V = StructInfoV;

    open spec fn deep_view(&self) -> StructInfoV {
        StructInfoV {
            definition_span: self.definition_span,
            type_params: self.type_params.deep_view(),
            fields: self.fields.deep_view(),
            is_file_bearing: self.is_file_bearing,
            visibility: self.visibility,
            def_module: self.def_module@,
        }
    }
}

/// Information about a registered enum. A public enum exports its variants.
#[derive(Debug)]
pub struct EnumInfo {
    pub definition_span: Span,
    pub type_params: Vec<String>,
    /// Each variant with the types of its fields.
    pub variants: Vec<(String, Vec<Type>)>,
    pub visibility: Visibility,
    pub def_module: ModulePath,
}

/// What a [`EnumInfo`] holds.
#[verifier::ext_equal]
pub struct EnumInfoV {
    pub definition_span: Span,
    pub type_params: Seq<Chars>,
    pub variants: Seq<(Chars, Seq<Ty>)>,
    pub visibility: Visibility,
    pub def_module: Seq<Chars>,
}

impl DeepView for EnumInfo {
    type V = EnumInfoV;

    open spec fn deep_view(&self) -> EnumInfoV {
        EnumInfoV {
            definition_span: self.definition_span,
            type_params: self.type_params.deep_view(),
            variants: self.variants.deep_view(),
            visibility: self.visibility,
            def_module: self.def_module@,
        }
    }
}

/// Information about a method of a type. Parameters do not count `self`.
#[derive(Debug)]
pub struct MethodInfo<'a> {
    /// Stable id of a user-declared method; built-in methods have none.
    pub func_id: Option<FuncId>,
    pub definition_span: Span,
    pub params: Vec<Type>,
    /// Names of the parameters, parallel to `params`.
    pub param_names: Vec<String>,
    pub default_param_exprs: Table<usize, &'a Expr>,
    pub default_needs_wrapper: Vec<usize>,
    pub return_type: Type,
    /// The type parameters of the method itself, not those of its type.
    pub type_params: Vec<String>,
    /// Whether the first parameter is the receiver.
    pub has_self: bool,
}

/// What a [`MethodInfo`] holds.
#[verifier::ext_equal]
pub struct MethodInfoV {
    pub func_id: Option<FuncId>,
    pub definition_span: Span,
    pub params: Seq<Ty>,
    pub param_names: Seq<Chars>,
    pub default_param_exprs: Seq<(usize, Expr)>,
    pub default_needs_wrapper: Seq<usize>,
    pub return_type: Ty,
    pub type_params: Seq<Chars>,
    pub has_self: bool,
}

impl<'a> DeepView for MethodInfo<'a> {
    type V = MethodInfoV;

    open spec fn deep_view(&self) -> MethodInfoV {
        MethodInfoV {
            func_id: self.func_id,
            definition_span: self.definition_span,
            params: self.params.deep_view(),
            param_names: self.param_names.deep_view(),
            default_param_exprs: self.default_param_exprs@,
            default_needs_wrapper: self.default_needs_wrapper@,
            return_type: self.return_type@,
            type_params: self.type_params.deep_view(),
            has_self: self.has_self,
        }
    }
}

/// Information about a registered type alias.
#[derive(Debug)]
pub struct TypeAliasInfo {
    pub definition_span: Span,
    pub type_params: Vec<String>,
    /// What the alias expands to.
    pub target: Type,
    pub visibility: Visibility,
    pub def_module: ModulePath,
}

/// What a [`TypeAliasInfo`] holds.
#[verifier::ext_equal]
pub struct TypeAliasInfoV {
    pub definition_span: Span,
    pub type_params: Seq<Chars>,
    pub target: Ty,
    pub visibility: Visibility,
    pub def_module: Seq<Chars>,
}

impl DeepView for TypeAliasInfo {
    type V = TypeAliasInfoV;

    open spec fn deep_view(&self) -> TypeAliasInfoV {
        TypeAliasInfoV {
            definition_span: self.definition_span,
            type_params: self.type_params.deep_view(),
            target: self.target@,
            visibility: self.visibility,
            def_module: self.def_module@,
        }
    }
}

/// A resolved field of an endpoint body.
#[derive(Debug)]
pub struct DerivedField<'a> {
    pub name: String,
    pub ty: Type,
    /// Whether a `partial` modifier made the field optional.
    pub optional: bool,
    /// The `where` clause of the field in the base struct.
    pub constraint: Option<&'a Expr>,
    pub span: Span,
}

/// What a [`DerivedField`] holds.
#[verifier::ext_equal]
pub struct DerivedFieldV {
    pub name: Chars,
    pub ty: Ty,
    pub optional: bool,
    pub constraint: Option<Expr>,
    pub span: Span,
}

impl<'a> DeepView for DerivedField<'a> {
    type V = DerivedFieldV;

    open spec fn deep_view(&self) -> DerivedFieldV {
        DerivedFieldV {
            name: self.name@,
            ty: self.ty@,
            optional: self.optional,
            constraint: self.constraint.deep_view(),
            span: self.span,
        }
    }
}

/// The body type of an endpoint with its modifiers applied.
#[derive(Debug)]
pub struct ResolvedDerivedType<'a> {
    pub base_type: String,
    pub fields: Vec<DerivedField<'a>>,
}

/// What a [`ResolvedDerivedType`] holds.
#[verifier::ext_equal]
pub struct ResolvedDerivedTypeV {
    pub base_type: Chars,
    pub fields: Seq<DerivedFieldV>,
}

impl<'a> DeepView for ResolvedDerivedType<'a> {
    type V = ResolvedDerivedTypeV;

    open spec fn deep_view(&self) -> ResolvedDerivedTypeV {
        ResolvedDerivedTypeV {
            base_type: self.base_type@,
            fields: self.fields.deep_view(),
        }
    }
}

/// A literal default value. The text of a floating-point literal is kept as
/// written.
#[derive(Debug, PartialEq, Eq)]
pub enum DefaultValue {
    Int(i64),
    Float(String),
    String(String),
    Bool(bool),
}

/// What a [`DefaultValue`] is.
pub enum DefaultValueV {
    Int(i64),
    Float(Chars),
    Str(Chars),
    Bool(bool),
}

impl DeepView for DefaultValue {
    type V = DefaultValueV;

    open spec fn deep_view(&self) -> DefaultValueV {
        match self {
            DefaultValue::Int(v) => DefaultValueV::Int(*v),
            DefaultValue::Float(s) => DefaultValueV::Float(s@),
            DefaultValue::String(s) => DefaultValueV::Str(s@),
            DefaultValue::Bool(b) => DefaultValueV::Bool(*b),
        }
    }
}

/// A resolved query parameter of an endpoint.
#[derive(Debug)]
pub struct QueryParamInfo {
    pub name: String,
    pub ty: Type,
    pub has_default: bool,
    pub default_value: Option<DefaultValue>,
}

/// What a [`QueryParamInfo`] holds.
#[verifier::ext_equal]
pub struct QueryParamInfoV {
    pub name: Chars,
    pub ty: Ty,
    pub has_default: bool,
    pub default_value: Option<DefaultValueV>,
}

impl DeepView for QueryParamInfo {
    type V = QueryParamInfoV;

    open spec fn deep_view(&self) -> QueryParamInfoV {
        QueryParamInfoV {
            name: self.name@,
            ty: self.ty@,
            has_default: self.has_default,
            default_value: self.default_value.deep_view(),
        }
    }
}

/// A resolved request or response header of an endpoint.
#[derive(Debug)]
pub struct HeaderParamInfo {
    pub name: String,
    /// The name of the header in HTTP.
    pub wire_name: String,
    pub ty: Type,
    pub has_default: bool,
    pub default_value: Option<DefaultValue>,
}

/// What a [`HeaderParamInfo`] holds.
#[verifier::ext_equal]
pub struct HeaderParamInfoV {
    pub name: Chars,
    pub wire_name: Chars,
    pub ty: Ty,
    pub has_default: bool,
    pub default_value: Option<DefaultValueV>,
}

impl DeepView for HeaderParamInfo {
    type V = HeaderParamInfoV;

    open spec fn deep_view(&self) -> HeaderParamInfoV {
        HeaderParamInfoV {
            name: self.name@,
            wire_name: self.wire_name@,
            ty: self.ty@,
            has_default: self.has_default,
            default_value: self.default_value.deep_view(),
        }
    }
}

/// How the list response of an endpoint is split into pages.
#[derive(Debug)]
pub struct PaginationInfo {
    pub mode: PaginationMode,
    pub item_type: Type,
}

/// What a [`PaginationInfo`] holds.
#[verifier::ext_equal]
pub struct PaginationInfoV {
    pub mode: PaginationMode,
    pub item_type: Ty,
}

impl DeepView for PaginationInfo {
    type V = PaginationInfoV;

    open spec fn deep_view(&self) -> PaginationInfoV {
        PaginationInfoV {
            mode: self.mode,
            item_type: self.item_type@,
        }
    }
}

/// One status of a multi-status response.
#[derive(Debug)]
pub struct ResponseStatusInfo {
    pub status: u16,
    pub ty: Option<Type>,
}

/// What a [`ResponseStatusInfo`] holds.
#[verifier::ext_equal]
pub struct ResponseStatusInfoV {
    pub status: u16,
    pub ty: Option<Ty>,
}

impl DeepView for ResponseStatusInfo {
    type V = ResponseStatusInfoV;

    open spec fn deep_view(&self) -> ResponseStatusInfoV {
        ResponseStatusInfoV {
            status: self.status,
            ty: self.ty.deep_view(),
        }
    }
}

/// A resolved endpoint.
#[derive(Debug)]
pub struct EndpointInfo<'a> {
    pub name: String,
    pub method: HttpMethod,
    /// The URL pattern, version prefix applied.
    pub path: String,
    pub path_params: Vec<String>,
    pub query_params: Vec<QueryParamInfo>,
    pub headers: Vec<HeaderParamInfo>,
    pub body: Option<ResolvedDerivedType<'a>>,
    pub response: Option<Type>,
    /// Empty for the bare response form.
    pub response_statuses: Vec<ResponseStatusInfo>,
    pub response_headers: Vec<HeaderParamInfo>,
    pub errors: Vec<(String, i64)>,
    pub doc_comment: Option<String>,
    pub body_is_multipart: bool,
    pub response_is_binary: bool,
    pub pagination: Option<PaginationInfo>,
}

/// What a [`EndpointInfo`] holds.
#[verifier::ext_equal]
pub struct EndpointInfoV {
    pub name: Chars,
    pub method: HttpMethod,
    pub path: Chars,
    pub path_params: Seq<Chars>,
    pub query_params: Seq<QueryParamInfoV>,
    pub headers: Seq<HeaderParamInfoV>,
    pub body: Option<ResolvedDerivedTypeV>,
    pub response: Option<Ty>,
    pub response_statuses: Seq<ResponseStatusInfoV>,
    pub response_headers: Seq<HeaderParamInfoV>,
    pub errors: Seq<(Chars, i64)>,
    pub doc_comment: Option<Chars>,
    pub body_is_multipart: bool,
    pub response_is_binary: bool,
    pub pagination: Option<PaginationInfoV>,
}

impl<'a> DeepView for EndpointInfo<'a> {
    type V = EndpointInfoV;

    open spec fn deep_view(&self) -> EndpointInfoV {
        EndpointInfoV {
            name: self.name@,
            method: self.method,
            path: self.path@,
            path_params: self.path_params.deep_view(),
            query_params: self.query_params.deep_view(),
            headers: self.headers.deep_view(),
            body: self.body.deep_view(),
            response: self.response.deep_view(),
            response_statuses: self.response_statuses.deep_view(),
            response_headers: self.response_headers.deep_view(),
            errors: self.errors.deep_view(),
            doc_comment: self.doc_comment.deep_view(),
            body_is_multipart: self.body_is_multipart,
            response_is_binary: self.response_is_binary,
            pagination: self.pagination.deep_view(),
        }
    }
}

/// A variable that a lambda uses from around it.
#[derive(Debug)]
pub struct CaptureInfo {
    pub name: String,
    pub is_mut: bool,
}

/// What a [`CaptureInfo`] holds.
#[verifier::ext_equal]
pub struct CaptureInfoV {
    pub name: Chars,
    pub is_mut: bool,
}

impl DeepView for CaptureInfo {
    type V = CaptureInfoV;

    open spec fn deep_view(&self) -> CaptureInfoV {
        CaptureInfoV {
            name: self.name@,
            is_mut: self.is_mut,
        }
    }
}

/// The kind of symbol a reference points to.
#[derive(Debug, PartialEq, Eq)]
pub enum SymbolKind {
    /// A function declared with `function`.
    Function,
    /// A struct declared with `struct`.
    Struct,
    /// An enum declared with `enum`.
    Enum,
    /// A local variable or parameter.
    Variable,
    /// A field on a struct.
    Field { struct_name: String },
    /// A method on a type.
    Method { owner: String },
    /// An enum variant.
    EnumVariant { enum_name: String },
}

/// What a [`SymbolKind`] is.
pub enum SymbolKindV {
    Function,
    Struct,
    Enum,
    Variable,
    Field { struct_name: Chars },
    Method { owner: Chars },
    EnumVariant { enum_name: Chars },
}

impl DeepView for SymbolKind {
    type V = SymbolKindV;

    open spec fn deep_view(&self) -> SymbolKindV {
        match self {
            SymbolKind::Function => SymbolKindV::Function,
            SymbolKind::Struct => SymbolKindV::Struct,
            SymbolKind::Enum => SymbolKindV::Enum,
            SymbolKind::Variable => SymbolKindV::Variable,
            SymbolKind::Field { struct_name } => SymbolKindV::Field { struct_name: struct_name@ },
            SymbolKind::Method { owner } => SymbolKindV::Method { owner: owner@ },
            SymbolKind::EnumVariant { enum_name } => SymbolKindV::EnumVariant {
                enum_name: enum_name@,
            },
        }
    }
}

/// A reference from a use to a symbol definition.
#[derive(Debug)]
pub struct SymbolRef {
    pub kind: SymbolKind,
    pub name: String,
}

/// What a [`SymbolRef`] holds.
#[verifier::ext_equal]
pub struct SymbolRefV {
    pub kind: SymbolKindV,
    pub name: Chars,
}

impl DeepView for SymbolRef {
    type V = SymbolRefV;

    open spec fn deep_view(&self) -> SymbolRefV {
        SymbolRefV {
            kind: self.kind.deep_view(),
            name: self.name@,
        }
    }
}

/// A variable in scope.
#[derive(Debug)]
pub struct VarInfo {
    pub ty: Type,
    pub is_mut: bool,
    pub definition_span: Span,
}

/// What a [`VarInfo`] holds.
#[verifier::ext_equal]
pub struct VarInfoV {
    pub ty: Ty,
    pub is_mut: bool,
    pub definition_span: Span,
}

impl DeepView for VarInfo {
    type V = VarInfoV;

    open spec fn deep_view(&self) -> VarInfoV {
        VarInfoV {
            ty: self.ty@,
            is_mut: self.is_mut,
            definition_span: self.definition_span,
        }
    }
}

impl<'a> Dup for &'a Expr {
    fn dup(&self) -> (r: Self) {
        *self
    }
}

impl<'a> Dup for FunctionInfo<'a> {
    fn dup(&self) -> (r: Self) {
        let default_needs_wrapper = self.default_needs_wrapper.dup();
        assert(default_needs_wrapper@ =~= default_needs_wrapper.deep_view());
        assert(self.default_needs_wrapper@ =~= self.default_needs_wrapper.deep_view());
        FunctionInfo {
            func_id: self.func_id,
            definition_span: self.definition_span,
            type_params: self.type_params.dup(),
            type_param_bounds: self.type_param_bounds.dup(),
            params: self.params.dup(),
            param_names: self.param_names.dup(),
            default_param_exprs: self.default_param_exprs.dup(),
            default_needs_wrapper,
            return_type: self.return_type.dup(),
            visibility: self.visibility,
            def_module: self.def_module.dup(),
        }
    }
}

impl<'a> Dup for MethodInfo<'a> {
    fn dup(&self) -> (r: Self) {
        let default_needs_wrapper = self.default_needs_wrapper.dup();
        assert(default_needs_wrapper@ =~= default_needs_wrapper.deep_view());
        assert(self.default_needs_wrapper@ =~= self.default_needs_wrapper.deep_view());
        MethodInfo {
            func_id: self.func_id,
            definition_span: self.definition_span,
            params: self.params.dup(),
            param_names: self.param_names.dup(),
            default_param_exprs: self.default_param_exprs.dup(),
            default_needs_wrapper,
            return_type: self.return_type.dup(),
            type_params: self.type_params.dup(),
            has_self: self.has_self,
        }
    }
}

impl<'a> Dup for FieldInfo<'a> {
    fn dup(&self) -> (r: Self) {
        FieldInfo {
            name: self.name.clone(),
            ty: self.ty.dup(),
            constraint: self.constraint,
            definition_span: self.definition_span,
            visibility: self.visibility,
        }
    }
}

impl<'a> Dup for StructInfo<'a> {
    fn dup(&self) -> (r: Self) {
        StructInfo {
            definition_span: self.definition_span,
            type_params: self.type_params.dup(),
            fields: self.fields.dup(),
            is_file_bearing: self.is_file_bearing,
            visibility: self.visibility,
            def_module: self.def_module.dup(),
        }
    }
}

impl Dup for EnumInfo {
    fn dup(&self) -> (r: Self) {
        EnumInfo {
            definition_span: self.definition_span,
            type_params: self.type_params.dup(),
            variants: self.variants.dup(),
            visibility: self.visibility,
            def_module: self.def_module.dup(),
        }
    }
}

impl Dup for TraitMethodInfo {
    fn dup(&self) -> (r: Self) {
        TraitMethodInfo {
            name: self.name.clone(),
            params: self.params.dup(),
            return_type: self.return_type.dup(),
        }
    }
}

impl Dup for TraitInfo {
    fn dup(&self) -> (r: Self) {
        TraitInfo {
            definition_span: self.definition_span,
            type_params: self.type_params.dup(),
            methods: self.methods.dup(),
            object_safety_error: self.object_safety_error.dup(),
            visibility: self.visibility,
            def_module: self.def_module.dup(),
        }
    }
}

impl Dup for VarInfo {
    fn dup(&self) -> (r: Self) {
        VarInfo { ty: self.ty.dup(), is_mut: self.is_mut, definition_span: self.definition_span }
    }
}

} // verus!
