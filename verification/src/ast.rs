//! The syntax tree of a Phoenix program, as the parser hands it over.
use crate::span::Span;
use vstd::prelude::*;

verus! {

/// Whether other modules may name a declaration.
#[derive(Debug, Clone, Copy, PartialEq, Eq, Structural)]
pub enum Visibility {
    Public,
    Private,
}

#[derive(Debug, Clone, Copy, PartialEq, Eq, Structural)]
pub enum BinaryOp {
    Add,
    Sub,
    Mul,
    Div,
    Mod,
    Eq,
    NotEq,
    Lt,
    Gt,
    LtEq,
    GtEq,
    And,
    Or,
}

#[derive(Debug, Clone, Copy, PartialEq, Eq, Structural)]
pub enum UnaryOp {
    Neg,
    Not,
}

/// A literal value. The text of a floating-point literal is kept as written.
#[derive(Debug)]
pub enum LiteralKind {
    Int(i64),
    Float(String),
    String(String),
    Bool(bool),
}

#[derive(Debug)]
pub struct Literal {
    pub kind: LiteralKind,
    pub span: Span,
}

#[derive(Debug)]
pub struct IdentExpr {
    pub name: String,
    pub span: Span,
}

#[derive(Debug)]
pub struct BinaryExpr {
    pub left: Expr,
    pub op: BinaryOp,
    pub right: Expr,
    pub span: Span,
}

#[derive(Debug)]
pub struct UnaryExpr {
    pub op: UnaryOp,
    pub operand: Expr,
    pub span: Span,
}

/// The arguments of a call, those with a name after the others.
#[derive(Debug)]
pub struct Arguments {
    pub positional: Vec<Expr>,
    pub named: Vec<(String, Expr)>,
}

#[derive(Debug)]
pub struct CallExpr {
    pub callee: Expr,
    pub args: Arguments,
    pub span: Span,
}

#[derive(Debug)]
pub struct AssignmentExpr {
    pub name: String,
    pub value: Expr,
    pub span: Span,
}

#[derive(Debug)]
pub struct FieldAssignmentExpr {
    pub object: Expr,
    pub field: String,
    pub value: Expr,
    pub span: Span,
}

#[derive(Debug)]
pub struct FieldAccessExpr {
    pub object: Expr,
    pub field: String,
    pub span: Span,
}

/// A method takes its arguments by position. `args.named` is read only where
/// the receiver is a module: the call is then one of a function, whose
/// parameters can be named.
#[derive(Debug)]
pub struct MethodCallExpr {
    pub object: Expr,
    pub method: String,
    pub type_args: Vec<TypeExpr>,
    pub args: Arguments,
    pub span: Span,
}

#[derive(Debug)]
pub struct StructLiteralExpr {
    pub name: String,
    pub args: Vec<Expr>,
    pub span: Span,
}

#[derive(Debug)]
pub struct VariantPattern {
    pub variant: String,
    pub bindings: Vec<String>,
    pub span: Span,
}

#[derive(Debug)]
pub enum Pattern {
    Wildcard(Span),
    Literal(Literal),
    Binding(String, Span),
    Variant(VariantPattern),
}

#[derive(Debug)]
pub enum MatchBody {
    Expr(Expr),
    Block(Block),
}

#[derive(Debug)]
pub struct MatchArm {
    pub pattern: Pattern,
    pub body: MatchBody,
    pub span: Span,
}

#[derive(Debug)]
pub struct MatchExpr {
    pub subject: Expr,
    pub arms: Vec<MatchArm>,
    pub span: Span,
}

#[derive(Debug)]
pub enum ElseBranch {
    Block(Block),
    ElseIf(Box<IfExpr>),
}

#[derive(Debug)]
pub struct IfExpr {
    pub condition: Expr,
    pub then_block: Block,
    pub else_branch: Option<ElseBranch>,
    pub span: Span,
}

#[derive(Debug)]
pub struct ListLiteralExpr {
    pub elements: Vec<Expr>,
    pub span: Span,
}

#[derive(Debug)]
pub struct MapLiteralExpr {
    pub entries: Vec<(Expr, Expr)>,
    pub span: Span,
}

#[derive(Debug)]
pub struct TryExpr {
    pub operand: Expr,
    pub span: Span,
}

#[derive(Debug)]
pub enum StringSegment {
    Literal(String),
    Expr(Expr),
}

#[derive(Debug)]
pub struct StringInterpolationExpr {
    pub segments: Vec<StringSegment>,
    pub span: Span,
}

#[derive(Debug)]
pub struct LambdaExpr {
    pub params: Vec<Param>,
    pub return_type: Option<TypeExpr>,
    pub body: Block,
    pub span: Span,
}

#[derive(Debug)]
pub enum Expr {
    Literal(Literal),
    Ident(IdentExpr),
    Binary(Box<BinaryExpr>),
    Unary(Box<UnaryExpr>),
    Call(Box<CallExpr>),
    Assignment(Box<AssignmentExpr>),
    FieldAssignment(Box<FieldAssignmentExpr>),
    FieldAccess(Box<FieldAccessExpr>),
    MethodCall(Box<MethodCallExpr>),
    StructLiteral(Box<StructLiteralExpr>),
    Match(Box<MatchExpr>),
    If(Box<IfExpr>),
    ListLiteral(Box<ListLiteralExpr>),
    MapLiteral(Box<MapLiteralExpr>),
    Try(Box<TryExpr>),
    StringInterpolation(Box<StringInterpolationExpr>),
    Lambda(Box<LambdaExpr>),
}

impl DeepView for Expr {
    type V = Expr;

    open spec fn deep_view(&self) -> Expr {
        *self
    }
}

/// Where an expression stands in the source.
pub open spec fn expr_span(e: Expr) -> Span {
    match e {
        Expr::Literal(x) => x.span,
        Expr::Ident(x) => x.span,
        Expr::Binary(x) => x.span,
        Expr::Unary(x) => x.span,
        Expr::Call(x) => x.span,
        Expr::Assignment(x) => x.span,
        Expr::FieldAssignment(x) => x.span,
        Expr::FieldAccess(x) => x.span,
        Expr::MethodCall(x) => x.span,
        Expr::StructLiteral(x) => x.span,
        Expr::Match(x) => x.span,
        Expr::If(x) => x.span,
        Expr::ListLiteral(x) => x.span,
        Expr::MapLiteral(x) => x.span,
        Expr::Try(x) => x.span,
        Expr::StringInterpolation(x) => x.span,
        Expr::Lambda(x) => x.span,
    }
}

impl Expr {
    pub fn span(&self) -> (r: Span)
        ensures
            r == expr_span(*self),
    {
        match self {
            Expr::Literal(x) => x.span,
            Expr::Ident(x) => x.span,
            Expr::Binary(x) => x.span,
            Expr::Unary(x) => x.span,
            Expr::Call(x) => x.span,
            Expr::Assignment(x) => x.span,
            Expr::FieldAssignment(x) => x.span,
            Expr::FieldAccess(x) => x.span,
            Expr::MethodCall(x) => x.span,
            Expr::StructLiteral(x) => x.span,
            Expr::Match(x) => x.span,
            Expr::If(x) => x.span,
            Expr::ListLiteral(x) => x.span,
            Expr::MapLiteral(x) => x.span,
            Expr::Try(x) => x.span,
            Expr::StringInterpolation(x) => x.span,
            Expr::Lambda(x) => x.span,
        }
    }
}

#[derive(Debug)]
pub struct Block {
    pub statements: Vec<Statement>,
    pub span: Span,
}

#[derive(Debug)]
pub enum VarDeclTarget {
    Simple(String),
    StructDestructure { struct_name: String, field_names: Vec<String> },
}

#[derive(Debug)]
pub struct VarDecl {
    pub target: VarDeclTarget,
    pub type_annotation: Option<TypeExpr>,
    pub is_mut: bool,
    pub initializer: Expr,
    pub span: Span,
}

#[derive(Debug)]
pub struct ExprStmt {
    pub expr: Expr,
    pub span: Span,
}

#[derive(Debug)]
pub struct ReturnStmt {
    pub value: Option<Expr>,
    pub span: Span,
}

#[derive(Debug)]
pub struct WhileStmt {
    pub condition: Expr,
    pub body: Block,
    pub else_block: Option<Block>,
    pub span: Span,
}

#[derive(Debug)]
pub enum ForSource {
    Range { start: Expr, end: Expr },
    Iterable(Expr),
}

#[derive(Debug)]
pub struct ForStmt {
    pub var_type: Option<TypeExpr>,
    pub var_name: String,
    pub source: ForSource,
    pub body: Block,
    pub else_block: Option<Block>,
    pub span: Span,
}

#[derive(Debug)]
pub struct DeferStmt {
    pub expr: Expr,
    pub span: Span,
}

#[derive(Debug)]
pub enum Statement {
    VarDecl(VarDecl),
    Expression(ExprStmt),
    Return(ReturnStmt),
    While(WhileStmt),
    For(ForStmt),
    Break(Span),
    Continue(Span),
    Defer(DeferStmt),
}

#[derive(Debug)]
pub struct NamedType {
    pub name: String,
    pub span: Span,
}

#[derive(Debug)]
pub struct FunctionType {
    pub param_types: Vec<TypeExpr>,
    pub return_type: TypeExpr,
    pub span: Span,
}

#[derive(Debug)]
pub struct GenericType {
    pub name: String,
    pub type_args: Vec<TypeExpr>,
    pub span: Span,
}

#[derive(Debug)]
pub struct DynType {
    pub trait_name: String,
    pub span: Span,
}

/// A type as it is written in the source.
#[derive(Debug)]
pub enum TypeExpr {
    Named(NamedType),
    Function(Box<FunctionType>),
    Generic(Box<GenericType>),
    Dyn(DynType),
}

#[derive(Debug)]
pub struct Param {
    pub name: String,
    pub type_annotation: TypeExpr,
    pub default_value: Option<Expr>,
    pub span: Span,
}

impl DeepView for Param {
    type V = Param;

    open spec fn deep_view(&self) -> Param {
        *self
    }
}

#[derive(Debug)]
pub enum AnnotationArg {
    String(String),
    Int(i64),
    Bool(bool),
    Ident(String),
}

/// `@name` or `@name(args)` in front of a declaration or a field.
#[derive(Debug)]
pub struct Annotation {
    pub name: String,
    pub args: Vec<AnnotationArg>,
    pub span: Span,
}

#[derive(Debug)]
pub struct FunctionDecl {
    pub name: String,
    pub name_span: Span,
    pub annotations: Vec<Annotation>,
    pub type_params: Vec<String>,
    pub type_param_bounds: Vec<(String, Vec<String>)>,
    pub params: Vec<Param>,
    pub return_type: Option<TypeExpr>,
    pub body: Block,
    pub visibility: Visibility,
    pub span: Span,
}

#[derive(Debug)]
pub struct FieldDecl {
    pub name: String,
    pub annotations: Vec<Annotation>,
    pub type_annotation: TypeExpr,
    pub constraint: Option<Expr>,
    pub visibility: Visibility,
    pub span: Span,
}

/// `impl Trait { … }` inside a type declaration.
#[derive(Debug)]
pub struct InlineTraitImpl {
    pub trait_name: String,
    pub methods: Vec<FunctionDecl>,
    pub span: Span,
}

#[derive(Debug)]
pub struct StructDecl {
    pub name: String,
    pub name_span: Span,
    pub annotations: Vec<Annotation>,
    pub type_params: Vec<String>,
    pub fields: Vec<FieldDecl>,
    pub methods: Vec<FunctionDecl>,
    pub trait_impls: Vec<InlineTraitImpl>,
    pub visibility: Visibility,
    pub span: Span,
}

#[derive(Debug)]
pub struct EnumVariant {
    pub name: String,
    pub fields: Vec<TypeExpr>,
    pub span: Span,
}

#[derive(Debug)]
pub struct EnumDecl {
    pub name: String,
    pub name_span: Span,
    pub annotations: Vec<Annotation>,
    pub type_params: Vec<String>,
    pub variants: Vec<EnumVariant>,
    pub methods: Vec<FunctionDecl>,
    pub trait_impls: Vec<InlineTraitImpl>,
    pub visibility: Visibility,
    pub span: Span,
}

#[derive(Debug)]
pub struct ImplBlock {
    pub for_type: String,
    pub trait_name: Option<String>,
    pub methods: Vec<FunctionDecl>,
    pub span: Span,
}

#[derive(Debug)]
pub struct TraitMethodDecl {
    pub name: String,
    pub params: Vec<Param>,
    pub return_type: Option<TypeExpr>,
    pub span: Span,
}

#[derive(Debug)]
pub struct TraitDecl {
    pub name: String,
    pub name_span: Span,
    pub type_params: Vec<String>,
    pub methods: Vec<TraitMethodDecl>,
    pub visibility: Visibility,
    pub span: Span,
}

#[derive(Debug)]
pub struct TypeAliasDecl {
    pub name: String,
    pub name_span: Span,
    pub type_params: Vec<String>,
    pub target: TypeExpr,
    pub visibility: Visibility,
    pub span: Span,
}

#[derive(Debug, Clone, Copy, PartialEq, Eq, Structural)]
pub enum HttpMethod {
    Get,
    Post,
    Put,
    Patch,
    Delete,
}

#[derive(Debug, Clone, Copy, PartialEq, Eq, Structural)]
pub enum PaginationMode {
    Offset,
    Cursor,
}

#[derive(Debug)]
pub struct QueryParam {
    pub name: String,
    pub type_annotation: TypeExpr,
    pub default_value: Option<Expr>,
    pub span: Span,
}

#[derive(Debug)]
pub struct HeaderParam {
    pub name: String,
    pub wire_name: Option<String>,
    pub type_annotation: TypeExpr,
    pub default_value: Option<Expr>,
    pub span: Span,
}

/// One change to the field set of a body type.
#[allow(inconsistent_fields)]
#[derive(Debug)]
pub enum TypeModifier {
    Omit { fields: Vec<String>, span: Span },
    Pick { fields: Vec<String>, span: Span },
    Partial { fields: Option<Vec<String>>, span: Span },
}

#[derive(Debug)]
pub struct DerivedType {
    pub base_type: TypeExpr,
    pub modifiers: Vec<TypeModifier>,
    pub span: Span,
}

#[derive(Debug)]
pub struct ResponseStatus {
    pub status: u16,
    pub ty: Option<TypeExpr>,
    pub span: Span,
}

#[derive(Debug)]
pub struct EndpointErrorVariant {
    pub name: String,
    pub status_code: i64,
    pub span: Span,
}

#[derive(Debug)]
pub struct EndpointDecl {
    pub name: String,
    pub method: HttpMethod,
    pub path: String,
    pub api_version: Option<String>,
    pub query_params: Vec<QueryParam>,
    pub headers: Vec<HeaderParam>,
    pub body: Option<DerivedType>,
    pub response: Option<TypeExpr>,
    pub response_statuses: Vec<ResponseStatus>,
    pub response_headers: Vec<HeaderParam>,
    pub errors: Vec<EndpointErrorVariant>,
    pub pagination: Option<PaginationMode>,
    pub doc_comment: Option<String>,
    pub span: Span,
}

/// A database schema. Nothing in it is analysed.
#[derive(Debug)]
pub struct SchemaDecl {
    pub name: String,
    pub span: Span,
}

#[derive(Debug)]
pub struct ImportItem {
    pub name: String,
    pub alias: Option<String>,
    pub span: Span,
}

#[derive(Debug)]
pub enum ImportItems {
    Named(Vec<ImportItem>),
    Wildcard,
    /// `import a.b` binds the module itself, under its last segment or the
    /// alias.
    Namespace(Option<String>),
}

#[derive(Debug)]
pub struct ImportDecl {
    pub path: Vec<String>,
    pub items: ImportItems,
    pub span: Span,
}

#[derive(Debug)]
pub enum Declaration {
    Function(FunctionDecl),
    Struct(StructDecl),
    Enum(EnumDecl),
    Impl(ImplBlock),
    Trait(TraitDecl),
    TypeAlias(TypeAliasDecl),
    Endpoint(EndpointDecl),
    Schema(SchemaDecl),
    Import(ImportDecl),
}

#[derive(Debug)]
pub struct Program {
    pub declarations: Vec<Declaration>,
}

} // verus!
