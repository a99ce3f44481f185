//! Programs as source text, and what the analysis says about them.
use phoenix_sema::ast::{
    Annotation, AnnotationArg, Arguments, AssignmentExpr, BinaryExpr, BinaryOp, Block, CallExpr,
    Declaration, DeferStmt, DerivedType, DynType, ElseBranch, EndpointDecl, EndpointErrorVariant,
    EnumDecl, EnumVariant, Expr, ExprStmt, FieldAccessExpr, FieldAssignmentExpr, FieldDecl,
    ForSource, ForStmt, FunctionDecl, FunctionType, GenericType, HeaderParam, HttpMethod,
    IdentExpr, IfExpr, ImplBlock, ImportDecl, ImportItem, ImportItems, InlineTraitImpl,
    LambdaExpr, ListLiteralExpr, Literal, LiteralKind, MapLiteralExpr, MatchArm, MatchBody,
    MatchExpr, MethodCallExpr, NamedType, PaginationMode, Param, Pattern, Program, QueryParam,
    ResponseStatus, ReturnStmt, SchemaDecl, Statement, StringInterpolationExpr, StringSegment,
    StructDecl, StructLiteralExpr, TraitDecl, TraitMethodDecl, TryExpr, TypeAliasDecl, TypeExpr,
    TypeModifier, UnaryExpr, UnaryOp, VarDecl, VarDeclTarget, VariantPattern, Visibility,
    WhileStmt,
};
use phoenix_sema::check_types::{unify, UnifyError};
use phoenix_sema::checker::Checker;
use phoenix_sema::info::{DefaultValue, EndpointInfo, SymbolKind};
use phoenix_sema::paths::{bare_name, module_qualify, ModulePath};
use phoenix_sema::resolved::{check, check_modules, Analysis};
use phoenix_sema::routes::{
    apply_version_prefix, extract_path_params, header_wire_name, is_same_header, route_signature,
};
use phoenix_sema::scopes::ResolvedSourceModule;
use phoenix_sema::span::{Diagnostic, Severity, SourceId, Span};
use phoenix_sema::table::Table;
use phoenix_sema::types::{
    canonical_type_spelling, function_of, list_of, map_of, option_of, result_of, same_type,
    substitute, type_var, Type,
};

// ── A small parser for Phoenix source text ───────────────────────────

#[derive(Clone, Copy, PartialEq, Debug)]
enum Kind {
    Ident,
    Int,
    Float,
    Str,
    Sym,
    Doc,
    End,
}

#[derive(Clone, Debug)]
struct Token {
    kind: Kind,
    text: String,
    start: usize,
    end: usize,
    first_on_line: bool,
}

struct Parser {
    tokens: Vec<Token>,
    pos: usize,
    source: SourceId,
    base: usize,
}

const SYMBOLS: [&str; 36] = [
    "->", "==", "!=", "<=", ">=", "&&", "||", "..", "+", "-", "*", "/", "%", "<", ">", "=", "!",
    "(", ")", "{", "}", "[", "]", ",", ":", ".", "?", "@", "|", ";", "&", "#", "$", "^", "~", "\\",
];

fn tokenize(source: &str) -> Vec<Token> {
    let chars: Vec<(usize, char)> = source.char_indices().collect();
    let at = |i: usize| if i < chars.len() { chars[i].1 } else { '\0' };
    let offset = |i: usize| if i < chars.len() { chars[i].0 } else { source.len() };
    let mut out: Vec<Token> = Vec::new();
    let mut i: usize = 0;
    let mut fresh = true;
    while i < chars.len() {
        let c = at(i);
        if c == '\n' {
            fresh = true;
            i += 1;
            continue;
        }
        if c.is_whitespace() {
            i += 1;
            continue;
        }
        let start = i;
        let mut kind = Kind::Sym;
        let mut text = String::new();
        if c == '/' && at(i + 1) == '/' {
            while i < chars.len() && at(i) != '\n' {
                i += 1;
            }
            continue;
        } else if c == '/' && at(i + 1) == '*' {
            i += 2;
            while i < chars.len() && !(at(i) == '*' && at(i + 1) == '/') {
                text.push(at(i));
                i += 1;
            }
            i += 2;
            kind = Kind::Doc;
        } else if c.is_alphabetic() || c == '_' {
            while at(i).is_alphanumeric() || at(i) == '_' {
                text.push(at(i));
                i += 1;
            }
            kind = Kind::Ident;
        } else if c.is_ascii_digit() {
            kind = Kind::Int;
            while at(i).is_ascii_digit() {
                text.push(at(i));
                i += 1;
            }
            if at(i) == '.' && at(i + 1).is_ascii_digit() {
                kind = Kind::Float;
                text.push('.');
                i += 1;
                while at(i).is_ascii_digit() {
                    text.push(at(i));
                    i += 1;
                }
            }
        } else if c == '"' {
            kind = Kind::Str;
            i += 1;
            let mut depth: usize = 0;
            while i < chars.len() && (at(i) != '"' || depth > 0) {
                if at(i) == '\\' {
                    text.push(at(i));
                    i += 1;
                } else if at(i) == '{' {
                    depth += 1;
                } else if at(i) == '}' && depth > 0 {
                    depth -= 1;
                }
                text.push(at(i));
                i += 1;
            }
            i += 1;
        } else {
            let rest = &source[chars[i].0..];
            let sym = SYMBOLS
                .iter()
                .find(|s| rest.starts_with(**s))
                .unwrap_or_else(|| panic!("unexpected character {c:?}"));
            text = sym.to_string();
            i += sym.len();
        }
        out.push(Token {
            kind,
            text,
            start: offset(start),
            end: offset(i),
            first_on_line: fresh,
        });
        fresh = false;
    }
    out.push(Token {
        kind: Kind::End,
        text: String::new(),
        start: source.len(),
        end: source.len(),
        first_on_line: true,
    });
    out
}

fn starts_upper(s: &str) -> bool {
    s.chars().next().is_some_and(|c| c.is_uppercase())
}

impl Parser {
    fn peek(&self) -> &Token {
        &self.tokens[self.pos]
    }

    fn peek_at(&self, k: usize) -> &Token {
        &self.tokens[(self.pos + k).min(self.tokens.len() - 1)]
    }

    fn next(&mut self) -> Token {
        let t = self.peek().clone();
        if t.kind != Kind::End {
            self.pos += 1;
        }
        t
    }

    fn is(&self, text: &str) -> bool {
        self.is_at(0, text)
    }

    fn is_at(&self, k: usize, text: &str) -> bool {
        let t = self.peek_at(k);
        (t.kind == Kind::Sym || t.kind == Kind::Ident) && t.text == text
    }

    fn accept(&mut self, text: &str) -> bool {
        let found = self.is(text);
        if found {
            self.pos += 1;
        }
        found
    }

    fn expect(&mut self, text: &str) -> Token {
        assert!(self.is(text), "expected `{}`, found {:?}", text, self.peek());
        self.next()
    }

    fn ident(&mut self) -> Token {
        assert!(
            self.peek().kind == Kind::Ident,
            "expected a name, found {:?}",
            self.peek()
        );
        self.next()
    }

    fn name(&mut self) -> String {
        self.ident().text
    }

    fn string(&mut self) -> String {
        assert!(
            self.peek().kind == Kind::Str,
            "expected a string, found {:?}",
            self.peek()
        );
        self.next().text
    }

    fn number(&mut self) -> i64 {
        assert!(
            self.peek().kind == Kind::Int,
            "expected a number, found {:?}",
            self.peek()
        );
        self.next().text.parse::<i64>().unwrap()
    }

    fn span(&self, start: usize, end: usize) -> Span {
        Span::new(self.source, self.base + start, self.base + end)
    }

    fn here(&self) -> usize {
        self.peek().start
    }

    fn since(&self, start: usize) -> Span {
        let end = if self.pos > 0 {
            self.tokens[self.pos - 1].end
        } else {
            start
        };
        self.span(start, end)
    }

    fn token_span(&self, t: &Token) -> Span {
        self.span(t.start, t.end)
    }

    // ── Types ──

    fn type_expr(&mut self) -> TypeExpr {
        let start = self.here();
        if self.accept("(") {
            let mut param_types: Vec<TypeExpr> = Vec::new();
            while !self.is(")") {
                param_types.push(self.type_expr());
                if !self.accept(",") {
                    break;
                }
            }
            self.expect(")");
            self.expect("->");
            let return_type = self.type_expr();
            return TypeExpr::Function(Box::new(FunctionType {
                param_types,
                return_type,
                span: self.since(start),
            }));
        }
        let name = self.name();
        if name == "dyn" {
            let trait_name = self.name();
            return TypeExpr::Dyn(DynType {
                trait_name,
                span: self.since(start),
            });
        }
        if self.accept("<") {
            let type_args = self.type_list();
            return TypeExpr::Generic(Box::new(GenericType {
                name,
                type_args,
                span: self.since(start),
            }));
        }
        TypeExpr::Named(NamedType {
            name,
            span: self.since(start),
        })
    }

    fn type_list(&mut self) -> Vec<TypeExpr> {
        let mut out: Vec<TypeExpr> = Vec::new();
        while !self.is(">") {
            out.push(self.type_expr());
            if !self.accept(",") {
                break;
            }
        }
        self.expect(">");
        out
    }

    fn type_params(&mut self) -> (Vec<String>, Vec<(String, Vec<String>)>) {
        let mut names: Vec<String> = Vec::new();
        let mut bounds: Vec<(String, Vec<String>)> = Vec::new();
        if self.accept("<") {
            while !self.is(">") {
                let name = self.name();
                if self.accept(":") {
                    let mut traits = vec![self.name()];
                    while self.accept("+") {
                        traits.push(self.name());
                    }
                    bounds.push((name.clone(), traits));
                }
                names.push(name);
                if !self.accept(",") {
                    break;
                }
            }
            self.expect(">");
        }
        (names, bounds)
    }

    fn params(&mut self) -> Vec<Param> {
        self.expect("(");
        let mut out: Vec<Param> = Vec::new();
        while !self.is(")") {
            let start = self.here();
            let name = self.name();
            let type_annotation = if self.accept(":") {
                self.type_expr()
            } else {
                TypeExpr::Named(NamedType {
                    name: "Self".to_string(),
                    span: self.since(start),
                })
            };
            let default_value = if self.accept("=") {
                Some(self.expr())
            } else {
                None
            };
            out.push(Param {
                name,
                type_annotation,
                default_value,
                span: self.since(start),
            });
            if !self.accept(",") {
                break;
            }
        }
        self.expect(")");
        out
    }

    // ── Expressions ──

    fn expr(&mut self) -> Expr {
        let start = self.here();
        let left = self.binary(0);
        if self.is("=") && !self.peek().first_on_line {
            self.next();
            let value = self.expr();
            let span = self.since(start);
            return match left {
                Expr::Ident(id) => Expr::Assignment(Box::new(AssignmentExpr {
                    name: id.name,
                    value,
                    span,
                })),
                Expr::FieldAccess(f) => Expr::FieldAssignment(Box::new(FieldAssignmentExpr {
                    object: f.object,
                    field: f.field,
                    value,
                    span,
                })),
                other => panic!("cannot assign to {other:?}"),
            };
        }
        left
    }

    fn operator(&self) -> Option<(BinaryOp, usize)> {
        let t = self.peek();
        if t.first_on_line || (t.kind != Kind::Sym && t.kind != Kind::Ident) {
            return None;
        }
        match t.text.as_str() {
            "||" | "or" => Some((BinaryOp::Or, 1)),
            "&&" | "and" => Some((BinaryOp::And, 2)),
            "==" => Some((BinaryOp::Eq, 3)),
            "!=" => Some((BinaryOp::NotEq, 3)),
            "<" => Some((BinaryOp::Lt, 4)),
            ">" => Some((BinaryOp::Gt, 4)),
            "<=" => Some((BinaryOp::LtEq, 4)),
            ">=" => Some((BinaryOp::GtEq, 4)),
            "+" => Some((BinaryOp::Add, 5)),
            "-" => Some((BinaryOp::Sub, 5)),
            "*" => Some((BinaryOp::Mul, 6)),
            "/" => Some((BinaryOp::Div, 6)),
            "%" => Some((BinaryOp::Mod, 6)),
            _ => None,
        }
    }

    fn binary(&mut self, least: usize) -> Expr {
        let start = self.here();
        let mut left = self.unary();
        while let Some((op, rank)) = self.operator() {
            if rank <= least {
                break;
            }
            self.next();
            let right = self.binary(rank);
            left = Expr::Binary(Box::new(BinaryExpr {
                left,
                op,
                right,
                span: self.since(start),
            }));
        }
        left
    }

    fn unary(&mut self) -> Expr {
        let start = self.here();
        let op = if self.is("-") {
            Some(UnaryOp::Neg)
        } else if self.is("!") || self.is("not") {
            Some(UnaryOp::Not)
        } else {
            None
        };
        if let Some(op) = op {
            self.next();
            let operand = self.unary();
            return Expr::Unary(Box::new(UnaryExpr {
                op,
                operand,
                span: self.since(start),
            }));
        }
        self.postfix()
    }

    fn arguments(&mut self) -> Arguments {
        self.expect("(");
        let mut positional: Vec<Expr> = Vec::new();
        let mut named: Vec<(String, Expr)> = Vec::new();
        while !self.is(")") {
            if self.peek().kind == Kind::Ident && self.is_at(1, ":") {
                let name = self.name();
                self.expect(":");
                named.push((name, self.expr()));
            } else {
                positional.push(self.expr());
            }
            if !self.accept(",") {
                break;
            }
        }
        self.expect(")");
        Arguments { positional, named }
    }

    fn call_type_args(&mut self) -> Vec<TypeExpr> {
        // `name<Types>(` is a call with type arguments; anything else is a
        // comparison.
        if !self.is("<") {
            return Vec::new();
        }
        let mut depth: usize = 0;
        let mut k: usize = 0;
        loop {
            if self.is_at(k, "<") {
                depth += 1;
            } else if self.is_at(k, ">") {
                depth -= 1;
                if depth == 0 {
                    break;
                }
            } else if !(self.peek_at(k).kind == Kind::Ident || self.is_at(k, ",")) {
                return Vec::new();
            }
            k += 1;
        }
        if !self.is_at(k + 1, "(") {
            return Vec::new();
        }
        self.expect("<");
        self.type_list()
    }

    fn postfix(&mut self) -> Expr {
        let start = self.here();
        let mut e = self.primary();
        loop {
            if self.is("(") && !self.peek().first_on_line {
                let args = self.arguments();
                let span = self.since(start);
                e = match e {
                    Expr::Ident(id) if starts_upper(&id.name) && args.named.is_empty() => {
                        Expr::StructLiteral(Box::new(StructLiteralExpr {
                            name: id.name,
                            args: args.positional,
                            span,
                        }))
                    }
                    callee => Expr::Call(Box::new(CallExpr { callee, args, span })),
                };
            } else if self.is(".") {
                self.next();
                let name = self.name();
                let type_args = self.call_type_args();
                if self.is("(") && !self.peek().first_on_line {
                    let args = self.arguments();
                    e = Expr::MethodCall(Box::new(MethodCallExpr {
                        object: e,
                        method: name,
                        type_args,
                        args,
                        span: self.since(start),
                    }));
                } else {
                    e = Expr::FieldAccess(Box::new(FieldAccessExpr {
                        object: e,
                        field: name,
                        span: self.since(start),
                    }));
                }
            } else if self.is("?") && !self.peek().first_on_line {
                self.next();
                e = Expr::Try(Box::new(TryExpr {
                    operand: e,
                    span: self.since(start),
                }));
            } else {
                return e;
            }
        }
    }

    fn literal(&mut self) -> Option<Literal> {
        let t = self.peek().clone();
        let kind = match t.kind {
            Kind::Int => LiteralKind::Int(t.text.parse::<i64>().unwrap()),
            Kind::Float => LiteralKind::Float(t.text.clone()),
            Kind::Str => LiteralKind::String(t.text.clone()),
            Kind::Ident if t.text == "true" => LiteralKind::Bool(true),
            Kind::Ident if t.text == "false" => LiteralKind::Bool(false),
            _ => return None,
        };
        self.next();
        Some(Literal {
            kind,
            span: self.token_span(&t),
        })
    }

    /// The segments of a string with expressions in it.
    fn interpolation(&self, t: &Token) -> Expr {
        let mut segments: Vec<StringSegment> = Vec::new();
        let mut text = String::new();
        let bytes: Vec<(usize, char)> = t.text.char_indices().collect();
        let mut i: usize = 0;
        while i < bytes.len() {
            if bytes[i].1 == '{' {
                let open = i;
                while bytes[i].1 != '}' {
                    i += 1;
                }
                if !text.is_empty() {
                    segments.push(StringSegment::Literal(text.clone()));
                    text.clear();
                }
                let inner = &t.text[bytes[open].0 + 1..bytes[i].0];
                let mut p = Parser {
                    tokens: tokenize(inner),
                    pos: 0,
                    source: self.source,
                    base: self.base + t.start + 1 + bytes[open].0 + 1,
                };
                segments.push(StringSegment::Expr(p.expr()));
            } else {
                text.push(bytes[i].1);
            }
            i += 1;
        }
        if !text.is_empty() {
            segments.push(StringSegment::Literal(text));
        }
        Expr::StringInterpolation(Box::new(StringInterpolationExpr {
            segments,
            span: self.token_span(t),
        }))
    }

    fn primary(&mut self) -> Expr {
        let start = self.here();
        let t = self.peek().clone();
        if t.kind == Kind::Str && t.text.contains('{') {
            self.next();
            return self.interpolation(&t);
        }
        if let Some(l) = self.literal() {
            return Expr::Literal(l);
        }
        if self.accept("(") {
            let e = self.expr();
            self.expect(")");
            return e;
        }
        if self.accept("[") {
            let mut elements: Vec<Expr> = Vec::new();
            while !self.is("]") {
                elements.push(self.expr());
                if !self.accept(",") {
                    break;
                }
            }
            self.expect("]");
            return Expr::ListLiteral(Box::new(ListLiteralExpr {
                elements,
                span: self.since(start),
            }));
        }
        if self.accept("{") {
            let mut entries: Vec<(Expr, Expr)> = Vec::new();
            while !self.is("}") {
                let key = self.expr();
                self.expect(":");
                entries.push((key, self.expr()));
                if !self.accept(",") {
                    break;
                }
            }
            self.expect("}");
            return Expr::MapLiteral(Box::new(MapLiteralExpr {
                entries,
                span: self.since(start),
            }));
        }
        if self.is("if") {
            return Expr::If(Box::new(self.if_expr()));
        }
        if self.accept("match") {
            let subject = self.expr();
            self.expect("{");
            let mut arms: Vec<MatchArm> = Vec::new();
            while !self.is("}") {
                arms.push(self.match_arm());
                self.accept(",");
            }
            self.expect("}");
            return Expr::Match(Box::new(MatchExpr {
                subject,
                arms,
                span: self.since(start),
            }));
        }
        if self.accept("function") {
            let params = self.params();
            let return_type = self.return_type();
            let body = self.block();
            return Expr::Lambda(Box::new(LambdaExpr {
                params,
                return_type,
                body,
                span: self.since(start),
            }));
        }
        let name = self.ident();
        Expr::Ident(IdentExpr {
            span: self.token_span(&name),
            name: name.text,
        })
    }

    fn if_expr(&mut self) -> IfExpr {
        let start = self.here();
        self.expect("if");
        let condition = self.expr();
        let then_block = self.block();
        let else_branch = if self.accept("else") {
            if self.is("if") {
                Some(ElseBranch::ElseIf(Box::new(self.if_expr())))
            } else {
                Some(ElseBranch::Block(self.block()))
            }
        } else {
            None
        };
        IfExpr {
            condition,
            then_block,
            else_branch,
            span: self.since(start),
        }
    }

    fn match_arm(&mut self) -> MatchArm {
        let start = self.here();
        let pattern = self.pattern();
        self.expect("->");
        let body = if self.is("{") {
            MatchBody::Block(self.block())
        } else {
            MatchBody::Expr(self.expr())
        };
        MatchArm {
            pattern,
            body,
            span: self.since(start),
        }
    }

    fn pattern(&mut self) -> Pattern {
        if let Some(l) = self.literal() {
            return Pattern::Literal(l);
        }
        let t = self.ident();
        if t.text == "_" {
            return Pattern::Wildcard(self.token_span(&t));
        }
        if !starts_upper(&t.text) {
            return Pattern::Binding(t.text.clone(), self.token_span(&t));
        }
        let mut bindings: Vec<String> = Vec::new();
        if self.accept("(") {
            while !self.is(")") {
                bindings.push(self.name());
                if !self.accept(",") {
                    break;
                }
            }
            self.expect(")");
        }
        Pattern::Variant(VariantPattern {
            span: self.since(t.start),
            variant: t.text,
            bindings,
        })
    }

    // ── Statements ──

    fn block(&mut self) -> Block {
        let start = self.here();
        self.expect("{");
        let mut statements: Vec<Statement> = Vec::new();
        while !self.is("}") {
            statements.push(self.statement());
        }
        self.expect("}");
        Block {
            statements,
            span: self.since(start),
        }
    }

    fn statement(&mut self) -> Statement {
        let start = self.here();
        if self.accept("let") {
            let is_mut = self.accept("mut");
            let name = self.name();
            let target = if self.accept("{") {
                let field_names = self.names_until("}");
                VarDeclTarget::StructDestructure {
                    struct_name: name,
                    field_names,
                }
            } else {
                VarDeclTarget::Simple(name)
            };
            let type_annotation = if self.accept(":") {
                Some(self.type_expr())
            } else {
                None
            };
            self.expect("=");
            let initializer = self.expr();
            return Statement::VarDecl(VarDecl {
                target,
                type_annotation,
                is_mut,
                initializer,
                span: self.since(start),
            });
        }
        if self.accept("return") {
            let value = if self.is("}") || self.peek().first_on_line {
                None
            } else {
                Some(self.expr())
            };
            return Statement::Return(ReturnStmt {
                value,
                span: self.since(start),
            });
        }
        if self.accept("while") {
            let condition = self.expr();
            let body = self.block();
            let else_block = if self.accept("else") {
                Some(self.block())
            } else {
                None
            };
            return Statement::While(WhileStmt {
                condition,
                body,
                else_block,
                span: self.since(start),
            });
        }
        if self.accept("for") {
            let var_name = self.name();
            let var_type = if self.accept(":") {
                Some(self.type_expr())
            } else {
                None
            };
            self.expect("in");
            let first = self.expr();
            let source = if self.accept("..") {
                ForSource::Range {
                    start: first,
                    end: self.expr(),
                }
            } else {
                ForSource::Iterable(first)
            };
            let body = self.block();
            let else_block = if self.accept("else") {
                Some(self.block())
            } else {
                None
            };
            return Statement::For(ForStmt {
                var_type,
                var_name,
                source,
                body,
                else_block,
                span: self.since(start),
            });
        }
        if self.accept("break") {
            return Statement::Break(self.since(start));
        }
        if self.accept("continue") {
            return Statement::Continue(self.since(start));
        }
        if self.accept("defer") {
            let expr = self.expr();
            return Statement::Defer(DeferStmt {
                expr,
                span: self.since(start),
            });
        }
        let expr = self.expr();
        Statement::Expression(ExprStmt {
            expr,
            span: self.since(start),
        })
    }

    fn names_until(&mut self, close: &str) -> Vec<String> {
        let mut out: Vec<String> = Vec::new();
        while !self.is(close) {
            out.push(self.name());
            self.accept(",");
        }
        self.expect(close);
        out
    }

    // ── Declarations ──

    fn visibility(&mut self) -> Visibility {
        if self.accept("public") {
            Visibility::Public
        } else {
            Visibility::Private
        }
    }

    fn annotations(&mut self) -> Vec<Annotation> {
        let mut out: Vec<Annotation> = Vec::new();
        while self.is("@") {
            let start = self.here();
            self.next();
            let name = self.name();
            let mut args: Vec<AnnotationArg> = Vec::new();
            if self.is("(") && !self.peek().first_on_line {
                self.next();
                while !self.is(")") {
                    let t = self.next();
                    args.push(match t.kind {
                        Kind::Str => AnnotationArg::String(t.text),
                        Kind::Int => AnnotationArg::Int(t.text.parse::<i64>().unwrap()),
                        _ if t.text == "true" => AnnotationArg::Bool(true),
                        _ if t.text == "false" => AnnotationArg::Bool(false),
                        _ => AnnotationArg::Ident(t.text),
                    });
                    self.accept(",");
                }
                self.expect(")");
            }
            out.push(Annotation {
                name,
                args,
                span: self.since(start),
            });
        }
        out
    }

    fn return_type(&mut self) -> Option<TypeExpr> {
        if self.accept("->") {
            Some(self.type_expr())
        } else {
            None
        }
    }

    fn function(&mut self, annotations: Vec<Annotation>, visibility: Visibility) -> FunctionDecl {
        let start = self.here();
        self.expect("function");
        let name = self.ident();
        let (type_params, type_param_bounds) = self.type_params();
        let params = self.params();
        let return_type = self.return_type();
        let body = self.block();
        FunctionDecl {
            name_span: self.token_span(&name),
            name: name.text,
            annotations,
            type_params,
            type_param_bounds,
            params,
            return_type,
            body,
            visibility,
            span: self.since(start),
        }
    }

    fn methods(&mut self) -> Vec<FunctionDecl> {
        self.expect("{");
        let mut out: Vec<FunctionDecl> = Vec::new();
        while !self.is("}") {
            let annotations = self.annotations();
            let visibility = self.visibility();
            out.push(self.function(annotations, visibility));
        }
        self.expect("}");
        out
    }

    fn inline_impl(&mut self) -> InlineTraitImpl {
        let start = self.here();
        self.expect("impl");
        let trait_name = self.name();
        let methods = self.methods();
        InlineTraitImpl {
            trait_name,
            methods,
            span: self.since(start),
        }
    }

    /// `name: Type` or `Type name`.
    fn typed_name(&mut self) -> (String, TypeExpr) {
        if self.is_at(1, ":") {
            let name = self.name();
            self.expect(":");
            let ty = self.type_expr();
            (name, ty)
        } else {
            let ty = self.type_expr();
            (self.name(), ty)
        }
    }

    fn structure(&mut self, annotations: Vec<Annotation>, visibility: Visibility) -> StructDecl {
        let start = self.here();
        self.expect("struct");
        let name = self.ident();
        let (type_params, _) = self.type_params();
        self.expect("{");
        let mut fields: Vec<FieldDecl> = Vec::new();
        let mut methods: Vec<FunctionDecl> = Vec::new();
        let mut trait_impls: Vec<InlineTraitImpl> = Vec::new();
        while !self.is("}") {
            if self.is("impl") {
                trait_impls.push(self.inline_impl());
                continue;
            }
            let at = self.here();
            let annotations = self.annotations();
            let visibility = self.visibility();
            if self.is("function") {
                methods.push(self.function(annotations, visibility));
                continue;
            }
            let (field, type_annotation) = self.typed_name();
            let constraint = if self.accept("where") {
                Some(self.expr())
            } else {
                None
            };
            fields.push(FieldDecl {
                name: field,
                annotations,
                type_annotation,
                constraint,
                visibility,
                span: self.since(at),
            });
            self.accept(",");
        }
        self.expect("}");
        StructDecl {
            name_span: self.token_span(&name),
            name: name.text,
            annotations,
            type_params,
            fields,
            methods,
            trait_impls,
            visibility,
            span: self.since(start),
        }
    }

    fn enumeration(&mut self, annotations: Vec<Annotation>, visibility: Visibility) -> EnumDecl {
        let start = self.here();
        self.expect("enum");
        let name = self.ident();
        let (type_params, _) = self.type_params();
        self.expect("{");
        let mut variants: Vec<EnumVariant> = Vec::new();
        let mut methods: Vec<FunctionDecl> = Vec::new();
        let mut trait_impls: Vec<InlineTraitImpl> = Vec::new();
        while !self.is("}") {
            if self.is("impl") {
                trait_impls.push(self.inline_impl());
                continue;
            }
            if self.is("function") {
                methods.push(self.function(Vec::new(), Visibility::Private));
                continue;
            }
            let at = self.here();
            let variant = self.name();
            let mut fields: Vec<TypeExpr> = Vec::new();
            if self.accept("(") {
                while !self.is(")") {
                    fields.push(self.type_expr());
                    if !self.accept(",") {
                        break;
                    }
                }
                self.expect(")");
            }
            variants.push(EnumVariant {
                name: variant,
                fields,
                span: self.since(at),
            });
            self.accept(",");
        }
        self.expect("}");
        EnumDecl {
            name_span: self.token_span(&name),
            name: name.text,
            annotations,
            type_params,
            variants,
            methods,
            trait_impls,
            visibility,
            span: self.since(start),
        }
    }

    fn trait_decl(&mut self, visibility: Visibility) -> TraitDecl {
        let start = self.here();
        self.expect("trait");
        let name = self.ident();
        let (type_params, _) = self.type_params();
        self.expect("{");
        let mut methods: Vec<TraitMethodDecl> = Vec::new();
        while !self.is("}") {
            let at = self.here();
            self.expect("function");
            let method = self.name();
            let params = self.params();
            let return_type = self.return_type();
            methods.push(TraitMethodDecl {
                name: method,
                params,
                return_type,
                span: self.since(at),
            });
        }
        self.expect("}");
        TraitDecl {
            name_span: self.token_span(&name),
            name: name.text,
            type_params,
            methods,
            visibility,
            span: self.since(start),
        }
    }

    fn implementation(&mut self) -> ImplBlock {
        let start = self.here();
        self.expect("impl");
        let first = self.name();
        let (trait_name, for_type) = if self.accept("for") {
            (Some(first), self.name())
        } else {
            (None, first)
        };
        let methods = self.methods();
        ImplBlock {
            for_type,
            trait_name,
            methods,
            span: self.since(start),
        }
    }

    fn alias(&mut self, visibility: Visibility) -> TypeAliasDecl {
        let start = self.here();
        self.expect("type");
        let name = self.ident();
        let (type_params, _) = self.type_params();
        self.expect("=");
        let target = self.type_expr();
        TypeAliasDecl {
            name_span: self.token_span(&name),
            name: name.text,
            type_params,
            target,
            visibility,
            span: self.since(start),
        }
    }

    fn headers(&mut self) -> Vec<HeaderParam> {
        self.expect("{");
        let mut out: Vec<HeaderParam> = Vec::new();
        while !self.is("}") {
            let start = self.here();
            let (name, type_annotation) = self.typed_name();
            let wire_name = if self.accept("as") {
                Some(self.string())
            } else {
                None
            };
            let default_value = if self.accept("=") {
                Some(self.expr())
            } else {
                None
            };
            out.push(HeaderParam {
                name,
                wire_name,
                type_annotation,
                default_value,
                span: self.since(start),
            });
        }
        self.expect("}");
        out
    }

    fn body(&mut self) -> DerivedType {
        let start = self.here();
        let base_type = self.type_expr();
        let mut modifiers: Vec<TypeModifier> = Vec::new();
        loop {
            let at = self.here();
            if self.accept("omit") {
                self.expect("{");
                let fields = self.names_until("}");
                modifiers.push(TypeModifier::Omit {
                    fields,
                    span: self.since(at),
                });
            } else if self.accept("pick") {
                self.expect("{");
                let fields = self.names_until("}");
                modifiers.push(TypeModifier::Pick {
                    fields,
                    span: self.since(at),
                });
            } else if self.accept("partial") {
                let fields = if self.accept("{") {
                    Some(self.names_until("}"))
                } else {
                    None
                };
                modifiers.push(TypeModifier::Partial {
                    fields,
                    span: self.since(at),
                });
            } else {
                break;
            }
        }
        DerivedType {
            base_type,
            modifiers,
            span: self.since(start),
        }
    }

    fn endpoint(&mut self, api_version: Option<String>, doc_comment: Option<String>) -> EndpointDecl {
        let start = self.here();
        self.expect("endpoint");
        let name = self.name();
        self.expect(":");
        let method = match self.name().as_str() {
            "GET" => HttpMethod::Get,
            "POST" => HttpMethod::Post,
            "PUT" => HttpMethod::Put,
            "PATCH" => HttpMethod::Patch,
            "DELETE" => HttpMethod::Delete,
            other => panic!("unknown method {other}"),
        };
        let path = self.string();
        let head = self.since(start);
        let mut ep = EndpointDecl {
            name,
            method,
            path,
            api_version,
            query_params: Vec::new(),
            headers: Vec::new(),
            body: None,
            response: None,
            response_statuses: Vec::new(),
            response_headers: Vec::new(),
            errors: Vec::new(),
            pagination: None,
            doc_comment,
            span: head,
        };
        self.expect("{");
        while !self.is("}") {
            if self.accept("body") {
                ep.body = Some(self.body());
            } else if self.accept("response") {
                if self.accept("{") {
                    while !self.is("}") {
                        let at = self.here();
                        let status = self.number() as u16;
                        let ty = if self.accept(":") {
                            Some(self.type_expr())
                        } else {
                            None
                        };
                        ep.response_statuses.push(ResponseStatus {
                            status,
                            ty,
                            span: self.since(at),
                        });
                    }
                    self.expect("}");
                } else {
                    ep.response = Some(self.type_expr());
                }
                if self.is("headers") && !self.peek().first_on_line {
                    self.next();
                    ep.response_headers = self.headers();
                }
            } else if self.accept("headers") {
                ep.headers = self.headers();
            } else if self.accept("query") {
                self.expect("{");
                while !self.is("}") {
                    let at = self.here();
                    let (name, type_annotation) = self.typed_name();
                    let default_value = if self.accept("=") {
                        Some(self.expr())
                    } else {
                        None
                    };
                    ep.query_params.push(QueryParam {
                        name,
                        type_annotation,
                        default_value,
                        span: self.since(at),
                    });
                }
                self.expect("}");
            } else if self.accept("error") {
                self.expect("{");
                while !self.is("}") {
                    let at = self.here();
                    let name = self.name();
                    self.expect("(");
                    let status_code = self.number();
                    self.expect(")");
                    ep.errors.push(EndpointErrorVariant {
                        name,
                        status_code,
                        span: self.since(at),
                    });
                }
                self.expect("}");
            } else if self.accept("pagination") {
                self.expect("{");
                ep.pagination = Some(if self.accept("offset") {
                    PaginationMode::Offset
                } else {
                    self.expect("cursor");
                    PaginationMode::Cursor
                });
                self.expect("}");
            } else {
                panic!("unexpected {:?} in an endpoint", self.peek());
            }
        }
        self.expect("}");
        ep
    }

    fn schema(&mut self) -> SchemaDecl {
        let start = self.here();
        self.expect("schema");
        let name = self.name();
        self.expect("{");
        let mut depth: usize = 1;
        while depth > 0 {
            if self.is("{") {
                depth += 1;
            } else if self.is("}") {
                depth -= 1;
            }
            self.next();
        }
        SchemaDecl {
            name,
            span: self.since(start),
        }
    }

    fn import(&mut self) -> ImportDecl {
        let start = self.here();
        self.expect("import");
        let mut path = vec![self.name()];
        while self.accept(".") {
            path.push(self.name());
        }
        let items = if self.accept("{") {
            if self.accept("*") {
                self.expect("}");
                ImportItems::Wildcard
            } else {
                let mut items: Vec<ImportItem> = Vec::new();
                while !self.is("}") {
                    let at = self.here();
                    let name = self.name();
                    let alias = if self.accept("as") {
                        Some(self.name())
                    } else {
                        None
                    };
                    items.push(ImportItem {
                        name,
                        alias,
                        span: self.since(at),
                    });
                    self.accept(",");
                }
                self.expect("}");
                ImportItems::Named(items)
            }
        } else if self.accept("as") {
            ImportItems::Namespace(Some(self.name()))
        } else {
            ImportItems::Namespace(None)
        };
        ImportDecl {
            path,
            items,
            span: self.since(start),
        }
    }

    fn doc(&mut self) -> Option<String> {
        let mut found = None;
        while self.peek().kind == Kind::Doc {
            let t = self.next();
            found = Some(t.text.trim_matches('*').trim().to_string());
        }
        found
    }

    fn program(&mut self) -> Program {
        let mut declarations: Vec<Declaration> = Vec::new();
        loop {
            let doc = self.doc();
            if self.peek().kind == Kind::End {
                return Program { declarations };
            }
            if self.accept("api") {
                self.expect("version");
                let version = self.string();
                self.expect("{");
                while !self.is("}") {
                    let doc = self.doc();
                    let ep = self.endpoint(Some(version.clone()), doc);
                    declarations.push(Declaration::Endpoint(ep));
                }
                self.expect("}");
                continue;
            }
            let annotations = self.annotations();
            let visibility = self.visibility();
            declarations.push(if self.is("function") {
                Declaration::Function(self.function(annotations, visibility))
            } else if self.is("struct") {
                Declaration::Struct(self.structure(annotations, visibility))
            } else if self.is("enum") {
                Declaration::Enum(self.enumeration(annotations, visibility))
            } else if self.is("trait") {
                Declaration::Trait(self.trait_decl(visibility))
            } else if self.is("impl") {
                Declaration::Impl(self.implementation())
            } else if self.is("type") {
                Declaration::TypeAlias(self.alias(visibility))
            } else if self.is("endpoint") {
                Declaration::Endpoint(self.endpoint(None, doc))
            } else if self.is("schema") {
                Declaration::Schema(self.schema())
            } else if self.is("import") {
                Declaration::Import(self.import())
            } else {
                panic!("unexpected {:?}", self.peek())
            });
        }
    }
}

fn parse_from(source: &str, id: u32) -> Program {
    let mut p = Parser {
        tokens: tokenize(source),
        pos: 0,
        source: SourceId(id),
        base: 0,
    };
    p.program()
}

fn parse(source: &str) -> &'static Program {
    Box::leak(Box::new(parse_from(source, 0)))
}

fn analyze(source: &str) -> Analysis<'static> {
    check(parse(source))
}

fn check_source(source: &str) -> Vec<Diagnostic> {
    analyze(source).diagnostics
}

fn error_messages(source: &str) -> Vec<String> {
    analyze(source)
        .diagnostics
        .iter()
        .filter(|d| d.severity == Severity::Error)
        .map(|d| d.message.clone())
        .collect()
}

fn assert_no_errors(source: &str) {
    let errors = check_source(source);
    assert!(errors.is_empty(), "unexpected errors: {:?}", errors);
}

fn assert_has_error(source: &str, expected_msg: &str) {
    let errors = check_source(source);
    assert!(
        errors.iter().any(|e| e.message.contains(expected_msg)),
        "expected error containing '{}', got: {:?}",
        expected_msg,
        errors
    );
}

fn check_full(source: &str) -> Analysis<'static> {
    let result = analyze(source);
    assert!(
        result.diagnostics.is_empty(),
        "type errors: {:?}",
        result.diagnostics
    );
    result
}

fn first_endpoint(source: &str) -> EndpointInfo<'static> {
    analyze(source)
        .endpoints
        .into_iter()
        .next()
        .expect("expected at least one endpoint")
}

fn endpoint_path(source: &str, name: &str) -> String {
    analyze(source)
        .endpoints
        .iter()
        .find(|e| e.name == name)
        .unwrap_or_else(|| panic!("no endpoint named {name}"))
        .path
        .clone()
}

// ── Programs ─────────────────────────────────────────────────────────

#[test]
fn valid_simple_program() {
    assert_no_errors("function main() { let x: Int = 42\n print(x) }");
}

#[test]
fn valid_function_call() {
    assert_no_errors(
        "function add(a: Int, b: Int) -> Int { return a + b }\nfunction main() { let result: Int = add(1, 2)\n print(result) }",
    );
}

#[test]
fn type_mismatch_var_decl() {
    assert_has_error(
        "function main() { let x: Int = \"hello\" }",
        "type mismatch",
    );
}

#[test]
fn undefined_variable() {
    assert_has_error("function main() { print(x) }", "undefined variable `x`");
}

#[test]
fn duplicate_variable() {
    assert_has_error(
        "function main() { let x: Int = 1\n let x: Int = 2 }",
        "already defined",
    );
}

#[test]
fn assignment_to_immutable() {
    assert_has_error(
        "function main() { let x: Int = 1\n x = 2 }",
        "cannot assign to immutable",
    );
}

#[test]
fn assignment_to_mutable() {
    assert_no_errors("function main() { let mut x: Int = 1\n x = 2 }");
}

#[test]
fn return_type_mismatch() {
    assert_has_error(
        "function foo() -> Int { return \"hello\" }",
        "return type mismatch",
    );
}

#[test]
fn if_condition_not_bool() {
    assert_has_error(
        "function main() { if 42 { print(1) } }",
        "if condition must be Bool",
    );
}

#[test]
fn wrong_argument_count() {
    assert_has_error(
        "function foo(a: Int) -> Int { return a }\nfunction main() { foo(1, 2) }",
        "takes 1 argument",
    );
}

#[test]
fn wrong_argument_type() {
    assert_has_error(
        "function foo(a: Int) -> Int { return a }\nfunction main() { foo(\"hello\") }",
        "expected `Int` but got `String`",
    );
}

#[test]
fn while_loop_valid() {
    assert_no_errors("function main() { let mut x: Int = 0\n while x < 10 { x = x + 1 } }");
}

#[test]
fn while_condition_not_bool() {
    assert_has_error(
        "function main() { while 42 { print(1) } }",
        "while condition must be Bool",
    );
}

#[test]
fn for_loop_valid() {
    assert_no_errors("function main() { for i in 0..10 { print(i) } }");
}

#[test]
fn struct_valid() {
    assert_no_errors(
        "struct Point {\n  Int x\n  Int y\n}\nfunction main() { let p: Point = Point(1, 2)\n print(p.x) }",
    );
}

#[test]
fn struct_wrong_field_count() {
    assert_has_error(
        "struct Point {\n  Int x\n  Int y\n}\nfunction main() { let p: Point = Point(1) }",
        "has 2 field(s), got 1",
    );
}

#[test]
fn enum_and_match() {
    assert_no_errors(
        "enum Color {\n  Red\n  Green\n  Blue\n}\nfunction main() {\n  let c: Color = Red\n  match c {\n    Red -> print(\"red\")\n    Green -> print(\"green\")\n    Blue -> print(\"blue\")\n  }\n}",
    );
}

#[test]
fn for_loop_non_int_range() {
    assert_has_error(
        "function main() { for i: Float in 0..10 { print(i) } }",
        "for loop variable must be Int",
    );
}

#[test]
fn while_loop_with_return() {
    assert_no_errors(
        "function foo() -> Int { let mut x: Int = 0\n while x < 10 { x = x + 1\n return x } return 0 }",
    );
}

#[test]
fn struct_field_access_valid() {
    assert_no_errors(
        "struct Point {\n  Int x\n  Int y\n}\nfunction main() { let p: Point = Point(1, 2)\n print(p.x) }",
    );
}

#[test]
fn struct_field_access_invalid() {
    assert_has_error(
        "struct Point {\n  Int x\n  Int y\n}\nfunction main() { let p: Point = Point(1, 2)\n print(p.z) }",
        "has no field `z`",
    );
}

#[test]
fn struct_field_type_check() {
    assert_no_errors(
        "struct Point {\n  Int x\n  Int y\n}\nfunction main() { let p: Point = Point(1, 2)\n let val: Int = p.x }",
    );
}

#[test]
fn method_call_valid() {
    assert_no_errors(
        "struct Counter {\n  Int value\n}\nimpl Counter {\n  function get(self) -> Int { return self.value }\n}\nfunction main() { let c: Counter = Counter(0)\n let v: Int = c.get() }",
    );
}

#[test]
fn method_call_undefined() {
    assert_has_error(
        "struct Counter {\n  Int value\n}\nfunction main() { let c: Counter = Counter(0)\n c.reset() }",
        "no method `reset`",
    );
}

#[test]
fn method_wrong_args() {
    assert_has_error(
        "struct Counter {\n  Int value\n}\nimpl Counter {\n  function add(self, n: Int) -> Int { return self.value + n }\n}\nfunction main() { let c: Counter = Counter(0)\n c.add(1, 2) }",
        "takes 1 argument",
    );
}

#[test]
fn enum_variant_with_wrong_field_count() {
    assert_has_error(
        "enum Shape {\n  Circle(Float)\n  Square(Float)\n}\nfunction main() { let s: Shape = Circle(1.0, 2.0) }",
        "takes 1 field(s), got 2",
    );
}

#[test]
fn enum_variant_with_wrong_field_type() {
    assert_has_error(
        "enum Shape {\n  Circle(Float)\n  Square(Float)\n}\nfunction main() { let s: Shape = Circle(\"hello\") }",
        "expected `Float` but got `String`",
    );
}

#[test]
fn match_on_enum_with_bindings() {
    assert_no_errors(
        "enum Shape {\n  Circle(Float)\n  Square(Float)\n}\nfunction main() {\n  let s: Shape = Circle(3.14)\n  match s {\n    Circle(r) -> print(r)\n    Square(side) -> print(side)\n  }\n}",
    );
}

#[test]
fn impl_on_enum_valid() {
    assert_no_errors(
        "enum Color {\n  Red\n  Green\n  Blue\n}\nimpl Color {\n  function describe(self) -> String { return \"a color\" }\n}\nfunction main() {\n  let c: Color = Red\n  let desc: String = c.describe()\n}",
    );
}

#[test]
fn else_if_chain_type_check() {
    assert_has_error(
        "function main() { let x: Int = 1\n if x == 1 { print(1) } else if 42 { print(2) } }",
        "if condition must be Bool",
    );
}

#[test]
fn break_inside_while_valid() {
    assert_no_errors("function main() { while true { break } }");
}

#[test]
fn continue_inside_for_valid() {
    assert_no_errors("function main() { for i in 0..10 { continue } }");
}

#[test]
fn break_outside_loop_error() {
    assert_has_error("function main() { break }", "`break` outside of loop");
}

#[test]
fn continue_outside_loop_error() {
    assert_has_error("function main() { continue }", "`continue` outside of loop");
}

#[test]
fn break_in_nested_if_inside_loop() {
    assert_no_errors(
        "function main() { let mut x: Int = 0\n while true { x = x + 1\n if x == 5 { break } } }",
    );
}

#[test]
fn struct_type_as_param() {
    assert_no_errors(
        "struct Point {\n  Int x\n  Int y\n}\nfunction show(p: Point) { print(p.x) }\nfunction main() { let p: Point = Point(1, 2)\n show(p) }",
    );
}

#[test]
fn lambda_type_check_valid() {
    assert_no_errors(
        "function main() {\n  let double: (Int) -> Int = function(x: Int) -> Int { return x * 2 }\n  print(double(5))\n}",
    );
}

#[test]
fn lambda_type_mismatch() {
    assert_has_error(
        "function main() {\n  let f: (Int) -> Int = function(x: String) -> Int { return 0 }\n}",
        "type mismatch",
    );
}

#[test]
fn call_function_variable() {
    assert_no_errors(
        "function main() {\n  let add: (Int, Int) -> Int = function(a: Int, b: Int) -> Int { return a + b }\n  let result: Int = add(1, 2)\n}",
    );
}

#[test]
fn higher_order_function() {
    assert_no_errors(
        "function apply(f: (Int) -> Int, x: Int) -> Int {\n  return f(x)\n}\nfunction main() {\n  let double: (Int) -> Int = function(x: Int) -> Int { return x * 2 }\n  let result: Int = apply(double, 5)\n}",
    );
}

#[test]
fn closure_captures_outer_variable() {
    assert_no_errors(
        "function main() {\n  let offset: Int = 10\n  let addOffset: (Int) -> Int = function(x: Int) -> Int { return x + offset }\n  let result: Int = addOffset(5)\n}",
    );
}

#[test]
fn generic_function_identity() {
    assert_no_errors(
        "function identity<T>(x: T) -> T { return x }\nfunction main() { let result: Int = identity(42) }",
    );
}

#[test]
fn generic_struct_valid() {
    assert_no_errors(
        "struct Pair<A, B> {\n  A first\n  B second\n}\nfunction main() { let p: Pair<Int, String> = Pair(1, \"hi\") }",
    );
}

#[test]
fn generic_enum_option() {
    assert_no_errors(
        "enum Option<T> {\n  Some(T)\n  None\n}\nfunction main() { let x: Option<Int> = Some(42) }",
    );
}

#[test]
fn generic_enum_none_compatible() {
    assert_no_errors(
        "enum Option<T> {\n  Some(T)\n  None\n}\nfunction main() { let x: Option<Int> = None }",
    );
}

#[test]
fn generic_function_type_mismatch() {
    assert_has_error(
        "function identity<T>(x: T) -> T { return x }\nfunction main() { let s: String = identity(42) }",
        "type mismatch",
    );
}

#[test]
fn list_literal_valid() {
    assert_no_errors("function main() { let nums: List<Int> = [1, 2, 3] }");
}

#[test]
fn list_literal_empty() {
    assert_no_errors("function main() { let nums: List<Int> = [] }");
}

#[test]
fn list_element_type_mismatch() {
    assert_has_error(
        "function main() { let nums: List<Int> = [1, \"hello\", 3] }",
        "list element type mismatch",
    );
}

#[test]
fn list_length_method() {
    assert_no_errors(
        "function main() { let nums: List<Int> = [1, 2, 3]\n let len: Int = nums.length() }",
    );
}

#[test]
fn list_get_method() {
    assert_no_errors(
        "function main() { let nums: List<Int> = [1, 2, 3]\n let first: Int = nums.get(0) }",
    );
}

#[test]
fn list_get_wrong_arg_type() {
    assert_has_error(
        "function main() { let nums: List<Int> = [1, 2, 3]\n let first: Int = nums.get(\"zero\") }",
        "expected Int but got String",
    );
}

#[test]
fn list_push_method() {
    assert_no_errors(
        "function main() { let nums: List<Int> = [1, 2]\n let nums2: List<Int> = nums.push(3) }",
    );
}

#[test]
fn list_push_wrong_type() {
    assert_has_error(
        "function main() { let nums: List<Int> = [1, 2]\n let nums2: List<Int> = nums.push(\"hello\") }",
        "expected Int but got String",
    );
}

#[test]
fn list_unknown_method() {
    assert_has_error(
        "function main() { let nums: List<Int> = [1]\n nums.foo() }",
        "no method `foo` on type `List`",
    );
}

#[test]
fn list_type_annotation() {
    assert_no_errors("function main() { let names: List<String> = [\"alice\", \"bob\"] }");
}

#[test]
fn list_var_decl_type_mismatch() {
    assert_has_error(
        "function main() { let nums: List<Int> = [\"hello\"] }",
        "type mismatch",
    );
}

#[test]
fn option_some_valid() {
    assert_no_errors("function main() { let x: Option<Int> = Some(42) }");
}

#[test]
fn option_none_valid() {
    assert_no_errors("function main() { let x: Option<Int> = None }");
}

#[test]
fn option_type_mismatch() {
    assert_has_error(
        "function main() { let x: Option<String> = Some(42) }",
        "type mismatch",
    );
}

#[test]
fn option_unwrap_type() {
    assert_no_errors("function main() { let x: Option<Int> = Some(42)\n let v: Int = x.unwrap() }");
}

#[test]
fn result_ok_valid() {
    assert_no_errors(r#"function main() { let x: Result<Int, String> = Ok(42) }"#);
}

#[test]
fn result_err_valid() {
    assert_no_errors(r#"function main() { let x: Result<Int, String> = Err("oops") }"#);
}

#[test]
fn result_is_ok_returns_bool() {
    assert_no_errors(
        r#"function main() { let r: Result<Int, String> = Ok(1)
let b: Bool = r.isOk() }"#,
    );
}

#[test]
fn generic_wrong_type_arg_count() {
    assert_has_error(
        "struct Pair<A, B> {\n  A first\n  B second\n}\nfunction main() { let p: Pair<Int> = Pair(1, \"hi\") }",
        "type mismatch",
    );
}

#[test]
fn generic_unwrap_or() {
    assert_no_errors(
        "enum Option<T> {\n  Some(T)\n  None\n}\nfunction unwrapOr<T>(opt: Option<T>, defaultVal: T) -> T {\n  return match opt {\n    Some(v) -> v\n    None -> defaultVal\n  }\n}\nfunction main() {\n  let x: Option<Int> = Some(42)\n  let result: Int = unwrapOr(x, 0)\n}",
    );
}

#[test]
fn closure_wrong_arg_count() {
    assert_has_error(
        "function main() {\n  let f: (Int) -> Int = function(x: Int) -> Int { return x * 2 }\n  f(1, 2)\n}",
        "takes 1 argument(s), got 2",
    );
}

#[test]
fn closure_return_type_mismatch() {
    assert_has_error(
        "function main() {\n  let f: (Int) -> Int = function(x: Int) -> Int { return \"hello\" }\n}",
        "return type mismatch",
    );
}

#[test]
fn generic_nested_type() {
    assert_no_errors("function main() { let x: Option<List<Int>> = Some([1, 2, 3]) }");
}

#[test]
fn function_type_param_mismatch() {
    assert_has_error(
        "function apply(f: (Int) -> Int, x: Int) -> Int {\n  return f(x)\n}\nfunction main() {\n  let g: (String) -> String = function(s: String) -> String { return s }\n  apply(g, 5)\n}",
        "expected `(Int) -> Int` but got `(String) -> String`",
    );
}

#[test]
fn nested_closures_valid() {
    assert_no_errors(
        "function main() {\n  let makeAdder: (Int) -> (Int) -> Int = function(n: Int) -> (Int) -> Int {\n    return function(x: Int) -> Int { return x + n }\n  }\n  let add5: (Int) -> Int = makeAdder(5)\n  let result: Int = add5(10)\n}",
    );
}

#[test]
fn trait_impl_valid() {
    assert_no_errors(
        r#"
trait Display {
  function toString(self) -> String
}
struct Point {
  Int x
  Int y

  impl Display {
function toString(self) -> String { return "Point" }
  }
}
function main() {
  let p: Point = Point(1, 2)
  let s: String = p.toString()
}
"#,
    );
}

#[test]
fn trait_impl_missing_method() {
    assert_has_error(
        r#"
trait Display {
  function toString(self) -> String
}
struct Point {
  Int x
  Int y

  impl Display {
  }
}
function main() { }
"#,
        "missing method `toString`",
    );
}

#[test]
fn trait_bound_satisfied() {
    assert_no_errors(
        r#"
trait Display {
  function toString(self) -> String
}
struct Point {
  Int x
  Int y

  impl Display {
function toString(self) -> String { return "Point" }
  }
}
function show<T: Display>(item: T) -> String {
  return item.toString()
}
function main() {
  let p: Point = Point(1, 2)
  let s: String = show(p)
}
"#,
    );
}

#[test]
fn trait_bound_not_satisfied() {
    assert_has_error(
        r#"
trait Display {
  function toString(self) -> String
}
struct Point {
  Int x
  Int y
}
function show<T: Display>(item: T) -> String {
  return item.toString()
}
function main() {
  let p: Point = Point(1, 2)
  let s: String = show(p)
}
"#,
        "does not implement trait `Display`",
    );
}

#[test]
fn unknown_trait_in_impl() {
    assert_has_error(
        r#"
struct Point {
  Int x
  Int y

  impl FakeTrait {
function foo(self) -> Int { return 0 }
  }
}
function main() { }
"#,
        "unknown trait `FakeTrait`",
    );
}

#[test]
fn trait_multiple_methods_valid() {
    assert_no_errors(
        r#"
trait Shape {
  function area(self) -> Float
  function name(self) -> String
}
struct Circle {
  Float radius

  impl Shape {
function area(self) -> Float { return 3.14 }
function name(self) -> String { return "Circle" }
  }
}
function main() {
  let c: Circle = Circle(1.0)
  let a: Float = c.area()
  let n: String = c.name()
}
"#,
    );
}

#[test]
fn trait_partial_impl() {
    assert_has_error(
        r#"
trait Shape {
  function area(self) -> Float
  function name(self) -> String
}
struct Circle {
  Float radius

  impl Shape {
function area(self) -> Float { return 3.14 }
  }
}
function main() { }
"#,
        "missing method `name`",
    );
}

#[test]
fn type_inference_literal() {
    assert_no_errors("function main() { let x = 42\n print(x) }");
}

#[test]
fn type_inference_struct() {
    assert_no_errors(
        r#"
struct Point { Int x  Int y }
function main() {
  let p = Point(1, 2)
  print(p.x)
}
"#,
    );
}

#[test]
fn type_inference_rejects_void() {
    assert_has_error(
        "function foo() { }\nfunction main() { let x = foo() }",
        "cannot infer type for `x`: initializer has type Void",
    );
}

#[test]
fn type_inference_rejects_ambiguous_generic() {
    assert_has_error(
        "function main() { let x = None }",
        "cannot infer type for `x`: initializer has ambiguous type",
    );
}

#[test]
fn type_annotation_resolves_none() {
    assert_no_errors("function main() { let x: Option<Int> = None }");
}

#[test]
fn type_inference_mut() {
    assert_no_errors(
        r#"
function main() {
  let mut x = 42
  x = x + 1
  print(x)
}
"#,
    );
}

#[test]
fn type_inference_mut_string() {
    assert_no_errors(
        r#"
function main() {
  let mut s = "hello"
  s = "world"
  print(s)
}
"#,
    );
}

#[test]
fn type_inference_mut_mismatch() {
    assert_has_error(
        r#"
function main() {
  let mut x = 42
  x = "hello"
}
"#,
        "type mismatch",
    );
}

#[test]
fn for_loop_inferred_type() {
    assert_no_errors("function main() { for i in 0..10 { print(i) } }");
}

#[test]
fn for_loop_explicit_int_type() {
    assert_no_errors("function main() { for i: Int in 0..10 { print(i) } }");
}

#[test]
fn struct_reusable_after_assignment() {
    assert_no_errors(
        r#"
struct Point {
  Int x
  Int y
}
function main() {
  let p: Point = Point(1, 2)
  let q: Point = p
  print(p.x)
  print(q.x)
}
"#,
    );
}

#[test]
fn list_reusable_after_assignment() {
    assert_no_errors(
        r#"
function main() {
  let a: List<Int> = [1, 2, 3]
  let b: List<Int> = a
  print(a.length())
  print(b.length())
}
"#,
    );
}

#[test]
fn enum_reusable_after_assignment() {
    assert_no_errors(
        r#"
function main() {
  let a: Option<Int> = Some(42)
  let b: Option<Int> = a
  print(a.isSome())
}
"#,
    );
}

#[test]
fn function_arg_does_not_consume() {
    assert_no_errors(
        r#"
struct Point {
  Int x
  Int y
}
function take(p: Point) { print(p.x) }
function main() {
  let p: Point = Point(1, 2)
  take(p)
  print(p.x)
}
"#,
    );
}

#[test]
fn closure_capture_does_not_consume() {
    assert_no_errors(
        r#"
struct Point {
  Int x
  Int y
}
function main() {
  let p: Point = Point(1, 2)
  let q: Point = p
  let f: (Int) -> Int = function(x: Int) -> Int { return p.x }
  print(p.x)
}
"#,
    );
}

#[test]
fn same_var_passed_twice() {
    assert_no_errors(
        r#"
struct Point {
  Int x
  Int y
}
function both(a: Point, b: Point) { print(a.x) }
function main() {
  let p: Point = Point(1, 2)
  both(p, p)
}
"#,
    );
}

#[test]
fn use_after_assign_in_if_branch() {
    assert_no_errors(
        r#"
struct Data { Int value }
function take(d: Data) { print(d.value) }
function main() {
  let d: Data = Data(42)
  if true {
take(d)
  }
  print(d.value)
}
"#,
    );
}

#[test]
fn match_non_exhaustive_error() {
    assert_has_error(
        r#"
enum Color {
  Red
  Green
  Blue
}
function main() {
  let c: Color = Red
  match c {
Red -> print("red")
Green -> print("green")
  }
}
"#,
        "non-exhaustive match",
    );
}

#[test]
fn match_exhaustive_with_wildcard() {
    assert_no_errors(
        r#"
enum Color {
  Red
  Green
  Blue
}
function main() {
  let c: Color = Red
  match c {
Red -> print("red")
_ -> print("other")
  }
}
"#,
    );
}

#[test]
fn match_exhaustive_with_binding() {
    assert_no_errors(
        r#"
enum Color {
  Red
  Green
  Blue
}
function main() {
  let c: Color = Red
  match c {
Red -> print("red")
other -> print("other")
  }
}
"#,
    );
}

#[test]
fn match_exhaustive_all_variants() {
    assert_no_errors(
        r#"
enum Color {
  Red
  Green
  Blue
}
function main() {
  let c: Color = Red
  match c {
Red -> print("red")
Green -> print("green")
Blue -> print("blue")
  }
}
"#,
    );
}

#[test]
fn comparison_incompatible_types_error() {
    assert_has_error(
        "function main() { let b: Bool = 42 < \"hello\" }",
        "cannot compare",
    );
}

#[test]
fn equality_incompatible_types_error() {
    assert_has_error(
        "function main() { let b: Bool = 42 == \"hello\" }",
        "cannot compare",
    );
}

#[test]
fn duplicate_function_error() {
    assert_has_error(
        "function foo() { }\nfunction foo() { }\nfunction main() { }",
        "already defined",
    );
}

#[test]
fn match_block_body_with_return() {
    assert_no_errors(
        r#"
enum Shape {
  Circle(Float)
  Rect(Float, Float)
}
impl Shape {
  function describe(self) -> String {
return match self {
  Circle(_) -> "circle"
  Rect(w, h) -> {
    if w == h { return "square" }
    return "rectangle"
  }
}
  }
}
function main() {
  let s: Shape = Rect(3.0, 3.0)
  let desc: String = s.describe()
}
"#,
    );
}

#[test]
fn match_empty_arms_error() {
    assert_has_error(
        r#"
enum Color {
  Red
  Green
}
function main() {
  let c: Color = Red
  match c {
  }
}
"#,
        "non-exhaustive match",
    );
}

#[test]
fn generic_function_with_closure() {
    assert_no_errors(
        r#"
function map<T, U>(value: T, f: (T) -> U) -> U {
  return f(value)
}
function main() {
  let result: String = map(42, function(n: Int) -> String { return toString(n) })
}
"#,
    );
}

#[test]
fn multiple_errors_accumulated() {
    let errors = check_source(
        r#"
function main() {
  let x: Int = "hello"
  let y: Bool = 42
  let z: Float = true
}
"#,
    );
    assert!(
        errors.len() >= 3,
        "expected at least 3 errors, got: {:?}",
        errors
    );
}

#[test]
fn match_option_non_exhaustive() {
    assert_has_error(
        r#"
function main() {
  let x: Option<Int> = Some(42)
  match x {
Some(v) -> print(v)
  }
}
"#,
        "non-exhaustive match",
    );
}

#[test]
fn deeply_nested_generic_type() {
    assert_no_errors(
        r#"
function main() {
  let items: List<Option<Int>> = [Some(1), None, Some(3)]
  let opt: Option<List<Int>> = Some([1, 2, 3])
}
"#,
    );
}

#[test]
fn triple_nested_closures() {
    assert_no_errors(
        r#"
function main() {
  let a: Int = 1
  let f: (Int) -> (Int) -> (Int) -> Int = function(b: Int) -> (Int) -> (Int) -> Int {
return function(c: Int) -> (Int) -> Int {
  return function(d: Int) -> Int {
    return a + b + c + d
  }
}
  }
  let g: (Int) -> (Int) -> Int = f(2)
  let h: (Int) -> Int = g(3)
  let result: Int = h(4)
}
"#,
    );
}

#[test]
fn for_loop_variable_scoped() {
    assert_has_error(
        "function main() { for i in 0..10 { print(i) }\n print(i) }",
        "undefined variable `i`",
    );
}

#[test]
fn method_on_void_error() {
    assert_has_error(
        "function foo() { }\nfunction main() { foo().bar() }",
        "cannot call method on Void",
    );
}

#[test]
fn field_assignment_immutable_error() {
    assert_has_error(
        r#"
struct Point { Int x  Int y }
function main() {
  let p: Point = Point(1, 2)
  p.x = 10
}
"#,
        "immutable",
    );
}

#[test]
fn field_assignment_wrong_type_error() {
    assert_has_error(
        r#"
struct Point { Int x  Int y }
function main() {
  let mut p: Point = Point(1, 2)
  p.x = "hello"
}
"#,
        "type mismatch",
    );
}

#[test]
fn try_operator_on_non_result_error() {
    assert_has_error(
        r#"
function foo() -> Result<Int, String> {
  let x: Int = 42
  let y: Int = x?
  return Ok(y)
}
function main() { }
"#,
        "?",
    );
}

#[test]
fn try_operator_wrong_return_type_error() {
    assert_has_error(
        r#"
function helper() -> Result<Int, String> { return Ok(1) }
function main() {
  let x: Int = helper()?
}
"#,
        "?",
    );
}

#[test]
fn type_alias_resolves() {
    assert_no_errors(
        r#"
type Id = Int
function main() {
  let x: Id = 42
}
"#,
    );
}

#[test]
fn string_interpolation_type_checks() {
    assert_no_errors(
        r#"
function main() {
  let name: String = "world"
  let greeting: String = "hello {name}"
}
"#,
    );
}

#[test]
fn lambda_implicit_return_type_mismatch() {
    assert_has_error(
        "function main() {\n  let f: (Int) -> String = function(x: Int) -> String { x }\n}",
        "lambda return type mismatch",
    );
}

#[test]
fn generic_type_alias_missing_args() {
    assert_has_error(
        "type StringResult<T> = Result<T, String>\nfunction main() {\n  let x: StringResult = Ok(42)\n}",
        "generic type alias `StringResult` requires type arguments",
    );
}

#[test]
fn field_assignment_type_mismatch() {
    assert_has_error(
        "struct Point {\n  Int x\n  Int y\n}\nfunction main() {\n  let mut p: Point = Point(1, 2)\n  p.x = \"hello\"\n}",
        "type mismatch",
    );
}

#[test]
fn circular_type_alias_produces_error() {
    assert_has_error(
        "type A = B\ntype B = A\nfunction main() { let x: A = 42 }",
        "unknown type `B`",
    );
}

#[test]
fn trait_bound_only_valid_on_type_params() {
    assert_no_errors(
        r#"
trait Display {
  function toString(self) -> String
}
struct Point {
  Int x
  Int y

  impl Display {
function toString(self) -> String { return "point" }
  }
}
function show<T: Display>(item: T) -> String {
  return item.toString()
}
function main() {
  let p: Point = Point(1, 2)
  print(show(p))
}
"#,
    );
}

#[test]
fn method_arg_type_compat_with_generics_regression() {
    assert_no_errors(
        r#"
function main() {
  let x: Option<Int> = Some(42)
  let val: Int = x.unwrapOr(0)
  print(val)
}
"#,
    );
}

#[test]
fn empty_match_exhaustiveness_error() {
    assert_has_error(
        "enum Color {\n  Red\n  Green\n}\nfunction main() {\n  let c: Color = Red\n  match c { }\n}",
        "non-exhaustive match",
    );
}

#[test]
fn unknown_escape_sequence_passthrough() {
    assert_no_errors(
        r#"function main() { let s: String = "hello\x41"
  print(s) }"#,
    );
}

#[test]
fn and_or_with_error_operand_no_cascade() {
    let errors = check_source("function main() { let b: Bool = undefinedVar && true }");
    assert!(
        errors
            .iter()
            .any(|e| e.message.contains("undefined variable"))
    );
    assert!(!errors.iter().any(|e| e.message.contains("must be Bool")));
}

#[test]
fn trait_impl_wrong_param_count() {
    assert_has_error(
        r#"
trait Greet {
  function hello(self) -> String
}
struct Person {
  String name

  impl Greet {
function hello(self, extra: Int) -> String { return "hi" }
  }
}
"#,
        "parameter(s) but trait",
    );
}

#[test]
fn trait_impl_wrong_return_type() {
    assert_has_error(
        r#"
trait Greet {
  function hello(self) -> String
}
struct Person {
  String name

  impl Greet {
function hello(self) -> Int { return 42 }
  }
}
"#,
        "returns `Int` but trait",
    );
}

#[test]
fn trait_impl_wrong_parameter_type() {
    assert_has_error(
        r#"
trait Adder {
  function add(self, x: Int) -> Int
}
struct Foo {
  Int val

  impl Adder {
function add(self, x: String) -> Int { return 42 }
  }
}
"#,
        "parameter `x` has type `String` but trait `Adder` expects `Int`",
    );
}

#[test]
fn named_arguments_duplicate() {
    assert_has_error(
        r#"
function foo(a: Int, b: Int) -> Int { return a + b }
function main() { print(foo(a: 1, a: 2)) }
"#,
        "duplicate",
    );
}

#[test]
fn named_arguments_unknown_parameter() {
    let diags = check_source(
        r#"
function foo(a: Int) -> Int { return a }
function main() { print(foo(z: 1)) }
"#,
    );
    let has_relevant_error = diags.iter().any(|d| {
        let msg = d.message.to_lowercase();
        msg.contains("unknown") || msg.contains("no parameter")
    });
    assert!(
        has_relevant_error,
        "expected error about unknown/no parameter, got: {:?}",
        diags
    );
}

#[test]
fn default_parameters_valid() {
    assert_no_errors(
        r#"
function greet(name: String, prefix: String = "Hello") -> String {
  return prefix + " " + name
}
function main() { print(greet("Alice")) }
"#,
    );
}

#[test]
fn struct_destructuring_valid() {
    assert_no_errors(
        r#"
struct Point {
  Int x
  Int y
}
function main() {
  let p: Point = Point(3, 4)
  let Point { x, y } = p
  print(x)
}
"#,
    );
}

#[test]
fn struct_destructuring_unknown_field() {
    let diags = check_source(
        r#"
struct Point {
  Int x
  Int y
}
function main() {
  let p: Point = Point(3, 4)
  let Point { x, z } = p
}
"#,
    );
    let has_relevant_error = diags.iter().any(|d| {
        let msg = d.message.to_lowercase();
        msg.contains("z")
            && (msg.contains("not found") || msg.contains("no field") || msg.contains("unknown"))
    });
    assert!(
        has_relevant_error,
        "expected error about unknown field `z`, got: {:?}",
        diags
    );
}

#[test]
fn closure_captures_outer_mutable_variable() {
    assert_no_errors(
        r#"
function main() {
  let mut count: Int = 0
  let inc: () -> Void = function() { count = count + 1 }
  inc()
  print(count)
}
"#,
    );
}

#[test]
fn generic_function_conflicting_types() {
    assert_has_error(
        r#"
function same<T>(a: T, b: T) -> T { return a }
function main() { same(1, "hello") }
"#,
        "expected `Int` but got `String`",
    );
}

#[test]
fn match_on_int_literal_patterns() {
    assert_no_errors(
        r#"
function main() {
  let x: Int = 42
  match x {
1 -> print("one")
_ -> print("other")
  }
}
"#,
    );
}

#[test]
fn trait_impl_correct_parameter_types() {
    assert_no_errors(
        r#"
trait Converter {
  function convert(self, x: Int) -> String
}
struct MyConv {
  impl Converter {
function convert(self, x: Int) -> String { return toString(x) }
  }
}
function main() { }
"#,
    );
}

#[test]
fn match_arm_break_error() {
    assert_has_error(
        r#"
enum Action { Go  Stop }
function main() {
  let actions: List<Action> = [Go, Stop]
  let mut count: Int = 0
  for a in actions {
match a {
  Go -> { count = count + 1 }
  Stop -> { break }
}
  }
}
"#,
        "`break` is not allowed inside match arms",
    );
}

#[test]
fn match_arm_continue_error() {
    assert_has_error(
        r#"
function main() {
  let mut sum: Int = 0
  for i in 0..10 {
match i % 2 {
  0 -> { sum = sum + i }
  _ -> { continue }
}
  }
}
"#,
        "`continue` is not allowed inside match arms",
    );
}

#[test]
fn match_arm_break_outside_loop_error() {
    assert_has_error(
        r#"
function main() {
  let x: Int = 1
  match x {
1 -> { break }
_ -> {}
  }
}
"#,
        "`break` is not allowed inside match arms",
    );
}

#[test]
fn match_arm_continue_outside_loop_error() {
    assert_has_error(
        r#"
function main() {
  let x: Int = 1
  match x {
1 -> { continue }
_ -> {}
  }
}
"#,
        "`continue` is not allowed inside match arms",
    );
}

#[test]
fn match_arm_return_still_allowed() {
    assert_no_errors(
        r#"
function foo(x: Int) -> Int {
  match x {
1 -> { return 42 }
_ -> { return 0 }
  }
  return -1
}
function main() { print(foo(1)) }
"#,
    );
}

#[test]
fn match_arm_return_no_type_mismatch() {
    assert_no_errors(
        r#"
function find(nums: List<Int>) -> Int {
  for n in nums {
match n % 2 {
  0 -> { return n }
  _ -> { let x: Int = 0 }
}
  }
  return -1
}
function main() { print(find([1, 3, 4])) }
"#,
    );
}

#[test]
fn check_result_contains_functions() {
    let result = check_full(
        r#"
function add(a: Int, b: Int) -> Int { return a + b }
function greet(name: String) -> String { return name }
function main() { }
"#,
    );
    assert!(result.module.function_id("add").is_some());
    assert!(result.module.function_id("greet").is_some());
    assert!(result.module.function_id("main").is_some());
    let add_info = result.module.function_info_by_name("add").unwrap();
    assert_eq!(add_info.params.len(), 2);
    assert_eq!(add_info.params[0], Type::Int);
    assert_eq!(add_info.params[1], Type::Int);
    assert_eq!(add_info.return_type, Type::Int);
    let greet_info = result.module.function_info_by_name("greet").unwrap();
    assert_eq!(greet_info.params, vec![Type::String]);
    assert_eq!(greet_info.return_type, Type::String);
}

#[test]
fn check_result_contains_structs() {
    let result = check_full(
        r#"
struct Point { Int x  Int y }
struct Named { String name }
function main() { }
"#,
    );
    assert!(result.module.struct_id("Point").is_some());
    let point = result.module.struct_info_by_name("Point").unwrap();
    assert_eq!(point.fields.len(), 2);
    assert_eq!(point.fields[0].name, "x");
    assert_eq!(point.fields[0].ty, Type::Int);
    assert_eq!(point.fields[1].name, "y");
    assert_eq!(point.fields[1].ty, Type::Int);
    assert!(point.type_params.is_empty());

    assert!(result.module.struct_id("Named").is_some());
    assert_eq!(result.module.struct_info_by_name("Named").unwrap().fields[0].ty, Type::String);
}

#[test]
fn check_result_contains_generic_struct() {
    let result = check_full(
        r#"
struct Wrapper<T> { T value }
function main() { }
"#,
    );
    let wrapper = result.module.struct_info_by_name("Wrapper").unwrap();
    assert_eq!(wrapper.type_params, vec!["T".to_string()]);
    assert_eq!(wrapper.fields.len(), 1);
}

#[test]
fn check_result_contains_enums() {
    let result = check_full(
        r#"
enum Color { Red  Green  Blue }
enum Shape { Circle(Float)  Rect(Float, Float) }
function main() { }
"#,
    );
    assert!(result.module.enum_id("Color").is_some());
    let color = result.module.enum_info_by_name("Color").unwrap();
    assert_eq!(color.variants.len(), 3);
    assert_eq!(color.variants[0].0, "Red");
    assert!(color.variants[0].1.is_empty());

    assert!(result.module.enum_id("Shape").is_some());
    let shape = result.module.enum_info_by_name("Shape").unwrap();
    assert_eq!(shape.variants.len(), 2);
    assert_eq!(shape.variants[0].0, "Circle");
    assert_eq!(shape.variants[0].1.len(), 1);
    assert_eq!(shape.variants[1].0, "Rect");
    assert_eq!(shape.variants[1].1.len(), 2);
}

#[test]
fn check_result_contains_builtin_enums() {
    let result = check_full("function main() { }");
    assert!(result.module.enum_id("Option").is_some());
    assert!(result.module.enum_id("Result").is_some());
    let option = result.module.enum_info_by_name("Option").unwrap();
    assert_eq!(option.type_params, vec!["T".to_string()]);
    assert_eq!(option.variants.len(), 2);
}

#[test]
fn check_result_contains_methods() {
    let result = check_full(
        r#"
struct Counter { Int val }
impl Counter {
function get(self) -> Int { return self.val }
function inc(self) -> Counter { return Counter(self.val + 1) }
}
function main() { }
"#,
    );
    assert!(result.module.method_index.has(&"Counter".to_string()));
        assert!(result.module.method_func_id("Counter", "get").is_some());
    assert!(result.module.method_func_id("Counter", "inc").is_some());
    assert_eq!(result.module.method_info_by_name("Counter", "get").unwrap().return_type, Type::Int);
    assert!(result.module.method_info_by_name("Counter", "get").unwrap().params.is_empty());
}

#[test]
fn check_result_contains_traits_and_impls() {
    let result = check_full(
        r#"
trait Display {
function toString(self) -> String
}
struct Point {
Int x
Int y

impl Display {
    function toString(self) -> String { return "point" }
}
}
function main() { }
"#,
    );
    assert!(result.module.trait_id("Display").is_some());
    let display = result.module.trait_info_by_name("Display").unwrap();
    assert_eq!(display.methods.len(), 1);
    assert_eq!(display.methods[0].name, "toString");
    assert_eq!(display.methods[0].return_type, Type::String);

    assert!(
        result
            .trait_impls
            .contains(&("Point".to_string(), "Display".to_string()))
    );
}

#[test]
fn check_result_contains_type_aliases() {
    let result = check_full(
        r#"
type UserId = Int
type StringResult<T> = Result<T, String>
function main() { }
"#,
    );
    assert!(result.type_aliases.has(&"UserId".to_string()));
    assert_eq!(result.type_aliases.get(&"UserId".to_string()).unwrap().target, Type::Int);
    assert!(result.type_aliases.get(&"UserId".to_string()).unwrap().type_params.is_empty());

    assert!(result.type_aliases.has(&"StringResult".to_string()));
    assert_eq!(
        result.type_aliases.get(&"StringResult".to_string()).unwrap().type_params,
        vec!["T".to_string()]
    );
}

#[test]
fn check_result_function_with_defaults() {
    let result = check_full(
        r#"
function greet(name: String, greeting: String = "Hello") -> String {
return greeting + " " + name
}
function main() { }
"#,
    );
    let info = result.module.function_info_by_name("greet").unwrap();
    assert_eq!(info.params.len(), 2);
    assert_eq!(info.param_names, vec!["name", "greeting"]);
    let indices: Vec<usize> = info.default_param_exprs.entries.iter().map(|e| e.0).collect();
    assert_eq!(indices, vec![1]);
}

#[test]
fn expr_types_populated_for_literals() {
    let result = check_full(
        r#"
function main() {
let x: Int = 42
let y: Float = 3.14
let s: String = "hello"
let b: Bool = true
}
"#,
    );
    assert!(
        !result.module.expr_types.entries.is_empty(),
        "expr_types should be populated"
    );
    let types: Vec<&Type> = result.module.expr_types.entries.iter().map(|e| &e.1).collect();
    assert!(types.contains(&&Type::Int));
    assert!(types.contains(&&Type::Float));
    assert!(types.contains(&&Type::String));
    assert!(types.contains(&&Type::Bool));
}

#[test]
fn expr_types_populated_for_binary_ops() {
    let result = check_full(
        r#"
function main() {
let x: Int = 1 + 2
let y: Bool = 1 < 2
let z: Float = 1.0 + 2.0
}
"#,
    );
    let types: Vec<&Type> = result.module.expr_types.entries.iter().map(|e| &e.1).collect();
    assert!(types.contains(&&Type::Int));
    assert!(types.contains(&&Type::Bool));
    assert!(types.contains(&&Type::Float));
}

#[test]
fn expr_types_populated_for_function_calls() {
    let result = check_full(
        r#"
function add(a: Int, b: Int) -> Int { return a + b }
function main() {
let x: Int = add(1, 2)
}
"#,
    );
    let has_int_call = result.module.expr_types.entries.iter().map(|e| &e.1).any(|t| *t == Type::Int);
    assert!(has_int_call, "call to add() should produce Type::Int");
}

#[test]
fn expr_types_populated_for_method_calls() {
    let result = check_full(
        r#"
struct Counter { Int val }
impl Counter {
function get(self) -> Int { return self.val }
}
function main() {
let c: Counter = Counter(5)
let v: Int = c.get()
}
"#,
    );
    let has_int = result.module.expr_types.entries.iter().map(|e| &e.1).any(|t| *t == Type::Int);
    assert!(has_int, "method call should produce Type::Int");
}

#[test]
fn expr_types_populated_for_string_interpolation() {
    let result = check_full(
        r#"
function main() {
let name: String = "world"
let msg: String = "hello {name}"
}
"#,
    );
    let string_count = result.module.expr_types.entries.iter().map(|e| &e.1)
        .filter(|t| **t == Type::String)
        .count();
    assert!(
        string_count >= 3,
        "should have at least 3 String-typed expressions, got {}",
        string_count
    );
}

#[test]
fn snapshot_error_type_mismatch() {
    let diags = check_source(r#"function main() { let x: Int = "hello" }"#);
    let messages: Vec<&str> = diags.iter().map(|d| d.message.as_str()).collect();
    assert_eq!(messages, vec!["type mismatch: variable `x` declared as `Int` but initialized with `String`"]);
}

#[test]
fn snapshot_error_undefined_variable() {
    let diags = check_source("function main() { print(x) }");
    let messages: Vec<&str> = diags.iter().map(|d| d.message.as_str()).collect();
    assert_eq!(messages, vec!["undefined variable `x`"]);
}

#[test]
fn snapshot_error_immutable_assignment() {
    let diags = check_source("function main() { let x: Int = 1\n x = 2 }");
    let messages: Vec<&str> = diags.iter().map(|d| d.message.as_str()).collect();
    assert_eq!(messages, vec!["cannot assign to immutable variable `x`"]);
}

#[test]
fn snapshot_error_wrong_arg_count() {
    let diags = check_source(
        "function add(a: Int, b: Int) -> Int { return a + b }\nfunction main() { add(1) }",
    );
    let messages: Vec<&str> = diags.iter().map(|d| d.message.as_str()).collect();
    assert_eq!(messages, vec!["function `add` takes 2 argument(s), got 1"]);
}

#[test]
fn snapshot_error_trait_not_implemented() {
    let diags = check_source(
        "trait Display {\n  function toString(self) -> String\n}\nstruct Point { Int x  Int y }\nfunction show<T: Display>(item: T) -> String { return item.toString() }\nfunction main() { show(Point(1, 2)) }",
    );
    let messages: Vec<&str> = diags.iter().map(|d| d.message.as_str()).collect();
    assert_eq!(messages, vec!["type `Point` does not implement trait `Display`"]);
}

#[test]
fn endpoint_valid_no_errors() {
    assert_no_errors(
        r#"
struct User { Int id  String name  String email }
endpoint createUser: POST "/api/users" {
body User
response User
error {
    Conflict(409)
    BadRequest(400)
}
}
"#,
    );
}

#[test]
fn endpoint_body_on_get() {
    assert_has_error(
        r#"
struct User { Int id  String name }
endpoint getUser: GET "/api/users/{id}" {
body User
response User
}
"#,
        "`body` is not allowed on Get endpoints",
    );
}

#[test]
fn endpoint_body_on_delete() {
    assert_has_error(
        r#"
struct User { Int id  String name }
endpoint deleteUser: DELETE "/api/users/{id}" {
body User
}
"#,
        "`body` is not allowed on Delete endpoints",
    );
}

#[test]
fn endpoint_unknown_response_type() {
    assert_has_error(
        r#"
endpoint getWidget: GET "/api/widgets/{id}" {
response Widget
}
"#,
        "unknown response type",
    );
}

#[test]
fn endpoint_unknown_body_type() {
    assert_has_error(
        r#"
endpoint createWidget: POST "/api/widgets" {
body Widget
}
"#,
        "unknown struct `Widget` in body type",
    );
}

#[test]
fn endpoint_omit_nonexistent_field() {
    assert_has_error(
        r#"
struct User { Int id  String name }
endpoint createUser: POST "/api/users" {
body User omit { nonexistent }
}
"#,
        "field `nonexistent` does not exist on struct `User`",
    );
}

#[test]
fn endpoint_pick_nonexistent_field() {
    assert_has_error(
        r#"
struct User { Int id  String name }
endpoint createUser: POST "/api/users" {
body User pick { nonexistent }
}
"#,
        "field `nonexistent` does not exist on struct `User`",
    );
}

#[test]
fn endpoint_partial_nonexistent_field() {
    assert_has_error(
        r#"
struct User { Int id  String name }
endpoint updateUser: PATCH "/api/users/{id}" {
body User partial { nonexistent }
}
"#,
        "field `nonexistent` does not exist on struct `User`",
    );
}

#[test]
fn endpoint_duplicate_error_variant() {
    assert_has_error(
        r#"
struct User { Int id  String name }
endpoint createUser: POST "/api/users" {
body User
error {
    Conflict(409)
    Conflict(409)
}
}
"#,
        "duplicate error variant `Conflict`",
    );
}

#[test]
fn endpoint_status_code_out_of_range() {
    assert_has_error(
        r#"
struct User { Int id  String name }
endpoint createUser: POST "/api/users" {
body User
error {
    Success(200)
}
}
"#,
        "status code 200 is not a client/server error",
    );
}

#[test]
fn endpoint_valid_with_query_params() {
    assert_no_errors(
        r#"
struct User { Int id  String name }
endpoint listUsers: GET "/api/users" {
query {
    Int page = 1
    Int limit = 20
    String search
}
response User
}
"#,
    );
}

#[test]
fn endpoint_valid_omit_pick_partial() {
    assert_no_errors(
        r#"
struct User { Int id  String name  String email  String bio }
endpoint updateUser: PATCH "/api/users/{id}" {
body User omit { id } partial
response User
}
"#,
    );
}

#[test]
fn endpoint_no_response() {
    assert_no_errors(
        r#"
endpoint deleteUser: DELETE "/api/users/{id}" {
}
"#,
    );
}

#[test]
fn endpoint_enum_response() {
    assert_no_errors(
        r#"
enum Status { Active  Inactive  Banned }
endpoint getStatus: GET "/api/status" {
response Status
}
"#,
    );
}

#[test]
fn endpoint_list_response() {
    assert_no_errors(
        r#"
struct User { Int id  String name }
endpoint listUsers: GET "/api/users" {
response List<User>
}
"#,
    );
}

#[test]
fn endpoint_option_response() {
    assert_no_errors(
        r#"
struct User { Int id  String name }
endpoint findUser: GET "/api/users/{id}" {
response Option<User>
}
"#,
    );
}

#[test]
fn endpoint_error_status_code_400() {
    assert_no_errors(
        r#"
struct User { Int id  String name }
endpoint createUser: POST "/api/users" {
body User
error { BadRequest(400) }
}
"#,
    );
}

#[test]
fn endpoint_error_status_code_599() {
    assert_no_errors(
        r#"
struct User { Int id  String name }
endpoint createUser: POST "/api/users" {
body User
error { InternalError(599) }
}
"#,
    );
}

#[test]
fn endpoint_error_status_code_399() {
    assert_has_error(
        r#"
struct User { Int id  String name }
endpoint createUser: POST "/api/users" {
body User
error { Redirect(399) }
}
"#,
        "status code 399 is not a client/server error",
    );
}

#[test]
fn endpoint_error_status_code_600() {
    assert_has_error(
        r#"
struct User { Int id  String name }
endpoint createUser: POST "/api/users" {
body User
error { TooHigh(600) }
}
"#,
        "status code 600 is not a client/server error",
    );
}

#[test]
fn endpoint_body_on_post_put_patch() {
    for method in ["POST", "PUT", "PATCH"] {
        assert_no_errors(&format!(
            r#"
struct User {{ Int id  String name }}
endpoint testEndpoint: {method} "/api/users" {{
body User
response User
}}
"#
        ));
    }
}

#[test]
fn endpoint_pick_then_selective_partial() {
    assert_no_errors(
        r#"
struct User { Int id  String name  String email  Int age }
endpoint patchUser: PATCH "/api/users/{id}" {
body User pick { name, email, age } partial { age }
response User
}
"#,
    );
}

#[test]
fn endpoint_selective_partial_nonexistent_after_omit() {
    assert_has_error(
        r#"
struct User { Int id  String name  String email }
endpoint updateUser: PATCH "/api/users/{id}" {
body User omit { id } partial { name, nonexistent }
}
"#,
        "field `nonexistent` does not exist",
    );
}

#[test]
fn endpoint_query_only() {
    assert_no_errors(
        r#"
endpoint search: GET "/api/search" {
query {
    String term
    Int page = 1
}
}
"#,
    );
}

#[test]
fn endpoint_multiple_path_params() {
    assert_no_errors(
        r#"
struct Comment { Int id  String text }
endpoint getComment: GET "/api/users/{userId}/posts/{postId}" {
response Comment
}
"#,
    );
}

#[test]
fn endpoint_default_value_int() {
    let result = check_full(
        r#"
endpoint list: GET "/api/items" {
query { Int page = 1 }
}
"#,
    );
    let ep = &result.endpoints[0];
    assert!(matches!(
        ep.query_params[0].default_value,
        Some(DefaultValue::Int(1))
    ));
}

#[test]
fn endpoint_default_value_string() {
    let result = check_full(
        r#"
endpoint list: GET "/api/items" {
query { String sort = "name" }
}
"#,
    );
    let ep = &result.endpoints[0];
    assert!(matches!(
        &ep.query_params[0].default_value,
        Some(DefaultValue::String(s)) if s == "name"
    ));
}

#[test]
fn endpoint_default_value_bool() {
    let result = check_full(
        r#"
endpoint list: GET "/api/items" {
query { Bool verbose = false }
}
"#,
    );
    let ep = &result.endpoints[0];
    assert!(matches!(
        ep.query_params[0].default_value,
        Some(DefaultValue::Bool(false))
    ));
}

#[test]
fn endpoint_no_default_value() {
    let result = check_full(
        r#"
endpoint search: GET "/api/search" {
query { String term }
}
"#,
    );
    let ep = &result.endpoints[0];
    assert!(ep.query_params[0].default_value.is_none());
    assert!(!ep.query_params[0].has_default);
}

#[test]
fn endpoint_mixed_defaults() {
    let result = check_full(
        r#"
endpoint list: GET "/api/items" {
query {
    Int page = 1
    String term
    Bool verbose = true
}
}
"#,
    );
    let ep = &result.endpoints[0];
    assert!(matches!(
        ep.query_params[0].default_value,
        Some(DefaultValue::Int(1))
    ));
    assert!(ep.query_params[1].default_value.is_none());
    assert!(matches!(
        ep.query_params[2].default_value,
        Some(DefaultValue::Bool(true))
    ));
}

#[test]
fn constraint_valid_numeric_and_string() {
    assert_no_errors(
        r#"
struct User {
Int age where self >= 0 and self <= 150
String name where self.length > 0 and self.length <= 100
}
"#,
    );
}

#[test]
fn constraint_valid_string_contains() {
    assert_no_errors(
        r#"
struct User {
String email where self.contains("@") and self.length > 3
}
"#,
    );
}

#[test]
fn constraint_must_be_bool() {
    assert_has_error(
        r#"
struct User {
Int age where self + 1
}
"#,
        "constraint on field `age` must evaluate to Bool",
    );
}

#[test]
fn constraint_inherited_by_derived_type() {
    let result = check_full(
        r#"
struct User {
Int id
String name where self.length > 0
Int age where self >= 0
}
endpoint createUser: POST "/api/users" {
body User omit { id }
response User
}
"#,
    );
    let ep = &result.endpoints[0];
    let body = ep.body.as_ref().unwrap();
    let name_field = body.fields.iter().find(|f| f.name == "name").unwrap();
    assert!(name_field.constraint.is_some());
    let age_field = body.fields.iter().find(|f| f.name == "age").unwrap();
    assert!(age_field.constraint.is_some());
}

#[test]
fn constraint_omitted_fields_removed() {
    let result = check_full(
        r#"
struct User {
Int id
String name where self.length > 0
Int age where self >= 0
}
endpoint createUser: POST "/api/users" {
body User omit { id, age }
response User
}
"#,
    );
    let ep = &result.endpoints[0];
    let body = ep.body.as_ref().unwrap();
    assert_eq!(body.fields.len(), 1);
    assert_eq!(body.fields[0].name, "name");
    assert!(body.fields[0].constraint.is_some());
}

#[test]
fn constraint_stored_in_struct_info() {
    let result = check_full(
        r#"
struct Item {
Int price where self > 0
String name
}
function main() { }
"#,
    );
    let item = result.module.struct_info_by_name("Item").unwrap();
    assert!(item.fields[0].constraint.is_some());
    assert!(item.fields[1].constraint.is_none());
}

#[test]
fn constraint_valid_or() {
    assert_no_errors(
        r#"
struct Range { Int x where self < 0 or self > 100 }
"#,
    );
}

#[test]
fn constraint_valid_float() {
    assert_no_errors(
        r#"
struct Item { Float price where self > 0.0 and self < 1000.0 }
"#,
    );
}

#[test]
fn constraint_inherited_through_pick() {
    let result = check_full(
        r#"
struct User {
Int id
String name where self.length > 0
String email where self.contains("@")
Int age where self >= 0
}
endpoint updateEmail: PATCH "/api/users/{id}" {
body User pick { email }
response User
}
"#,
    );
    let ep = &result.endpoints[0];
    let body = ep.body.as_ref().unwrap();
    assert_eq!(body.fields.len(), 1);
    assert_eq!(body.fields[0].name, "email");
    assert!(body.fields[0].constraint.is_some());
}

#[test]
fn constraint_preserved_through_partial() {
    let result = check_full(
        r#"
struct User {
Int id
String name where self.length > 0
Int age where self >= 0
}
endpoint updateUser: PATCH "/api/users/{id}" {
body User omit { id } partial
response User
}
"#,
    );
    let ep = &result.endpoints[0];
    let body = ep.body.as_ref().unwrap();
    let name_field = body.fields.iter().find(|f| f.name == "name").unwrap();
    assert!(name_field.optional, "field should be optional from partial");
    assert!(
        name_field.constraint.is_some(),
        "constraint should be preserved"
    );
}

#[test]
fn schema_no_errors() {
    assert_no_errors(
        r#"
struct User { Int id  String name }
schema db {
table users from User {
    primary key id
    unique name
}
}
"#,
    );
}

#[test]
fn schema_coexists_with_other_decls() {
    assert_no_errors(
        r#"
struct User { Int id  String name }
endpoint getUser: GET "/api/users/{id}" {
response User
}
schema db {
table users from User {
    primary key id
}
}
function main() { let x: Int = 1 }
"#,
    );
}

#[test]
fn schema_nonexistent_type_no_error() {
    assert_no_errors(
        r#"
schema db {
table widgets from Widget {
    primary key id
}
}
"#,
    );
}

#[test]
fn schema_multiple_declarations() {
    assert_no_errors(
        r#"
schema main_db {
table users from User { primary key id }
}
schema analytics_db {
table events { String eventType  Int timestamp }
}
"#,
    );
}

#[test]
fn definition_span_on_struct() {
    let result = check_full(
        r#"
struct User { Int id  String name }
function main() { }
"#,
    );
    let user = result.module.struct_info_by_name("User").unwrap();
    assert!(
        user.definition_span.start < user.definition_span.end,
        "struct should have a non-empty definition span"
    );
}

#[test]
fn definition_span_on_function() {
    let result = check_full(
        r#"
function add(a: Int, b: Int) -> Int { a + b }
function main() { }
"#,
    );
    let add = result.module.function_info_by_name("add").unwrap();
    assert!(
        add.definition_span.start < add.definition_span.end,
        "function should have a non-empty definition span"
    );
}

#[test]
fn definition_span_on_enum() {
    let result = check_full(
        r#"
enum Color { Red  Green  Blue }
function main() { }
"#,
    );
    let color = result.module.enum_info_by_name("Color").unwrap();
    assert!(
        color.definition_span.start < color.definition_span.end,
        "enum should have a non-empty definition span"
    );
}

#[test]
fn symbol_references_tracks_variables() {
    let result = check_full(
        r#"
function main() {
let x: Int = 42
print(x)
}
"#,
    );
    let var_refs: Vec<_> = result.symbol_references.entries.iter().map(|e| &e.1)
        .filter(|r| r.name == "x" && r.kind == SymbolKind::Variable)
        .collect();
    assert!(
        !var_refs.is_empty(),
        "should have at least one reference to variable x"
    );
}

#[test]
fn symbol_references_tracks_function_calls() {
    let result = check_full(
        r#"
function add(a: Int, b: Int) -> Int { a + b }
function main() { let r: Int = add(1, 2) }
"#,
    );
    let fn_refs: Vec<_> = result.symbol_references.entries.iter().map(|e| &e.1)
        .filter(|r| r.name == "add" && r.kind == SymbolKind::Function)
        .collect();
    assert!(
        !fn_refs.is_empty(),
        "should have a reference to function add"
    );
}

#[test]
fn symbol_references_tracks_field_access() {
    let result = check_full(
        r#"
struct Point { Int x  Int y }
function main() {
let p: Point = Point(1, 2)
print(p.x)
}
"#,
    );
    let field_refs: Vec<_> = result.symbol_references.entries.iter().map(|e| &e.1)
        .filter(|r| {
            r.name == "x"
                && matches!(&r.kind, SymbolKind::Field { struct_name } if struct_name == "Point")
        })
        .collect();
    assert!(
        !field_refs.is_empty(),
        "should have a reference to field Point.x"
    );
}

#[test]
fn endpoint_duplicate_name() {
    assert_has_error(
        r#"
struct User { Int id  String name }
endpoint getUser: GET "/api/users/{id}" {
response User
}
endpoint getUser: GET "/api/users/{id}/v2" {
response User
}
"#,
        "duplicate endpoint name `getUser`",
    );
}

#[test]
fn endpoint_empty_omit() {
    let result = check_full(
        r#"
struct User { Int id  String name }
endpoint createUser: POST "/api/users" {
body User omit { }
response User
}
"#,
    );
    let ep = &result.endpoints[0];
    let body = ep.body.as_ref().unwrap();
    assert_eq!(body.fields.len(), 2);
}

#[test]
fn endpoint_empty_pick() {
    let result = check_full(
        r#"
struct User { Int id  String name }
endpoint createUser: POST "/api/users" {
body User pick { }
response User
}
"#,
    );
    let ep = &result.endpoints[0];
    let body = ep.body.as_ref().unwrap();
    assert_eq!(body.fields.len(), 0);
}

#[test]
fn endpoint_omit_all_fields() {
    let result = check_full(
        r#"
struct User { Int id  String name }
endpoint createUser: POST "/api/users" {
body User omit { id, name }
response User
}
"#,
    );
    let ep = &result.endpoints[0];
    let body = ep.body.as_ref().unwrap();
    assert_eq!(body.fields.len(), 0);
}

#[test]
fn constraint_on_list_type() {
    assert_no_errors(
        r#"
struct Config {
List<Int> tags where self.length > 0
}
"#,
    );
}

#[test]
fn constraint_on_option_type() {
    assert_no_errors(
        r#"
struct Config {
Option<Int> maxRetries where self.isSome()
}
"#,
    );
}

#[test]
fn endpoint_query_default_type_mismatch() {
    assert_has_error(
        r#"
endpoint search: GET "/api/search" {
query { Int page = "hello" }
}
"#,
        "default value for query param `page` does not match type `Int`",
    );
}

#[test]
fn endpoint_query_default_bool_int_mismatch() {
    assert_has_error(
        r#"
endpoint search: GET "/api/search" {
query { Bool verbose = 42 }
}
"#,
        "default value for query param `verbose` does not match type `Bool`",
    );
}

#[test]
fn endpoint_query_default_string_match() {
    assert_no_errors(
        r#"
endpoint search: GET "/api/search" {
query { String sort = "name" }
}
"#,
    );
}

#[test]
fn definition_span_is_name_only() {
    let result = check_full(
        r#"
function add(a: Int, b: Int) -> Int { a + b }
function main() { }
"#,
    );
    let add = result.module.function_info_by_name("add").unwrap();
    let span_len = add.definition_span.end - add.definition_span.start;
    assert_eq!(
        span_len, 3,
        "definition_span should cover just the name 'add'"
    );
}

// ── Endpoints ────────────────────────────────────────────────────────

#[test]
fn api_version_prefixes_path() {
    let src = r#"
            struct Post { id: Int }
            api version "v1" {
                endpoint listPosts: GET "/posts" { response Post }
                endpoint getPost: GET "/posts/{id}" { response Post }
            }
        "#;
    assert_eq!(endpoint_path(src, "listPosts"), "/v1/posts");
    assert_eq!(endpoint_path(src, "getPost"), "/v1/posts/{id}");
}

#[test]
fn api_version_slash_forms_normalize() {
    let src = r#"
            struct Post { id: Int }
            api version "/v1" {
                endpoint p: GET "posts" { response Post }
            }
        "#;
    assert_eq!(endpoint_path(src, "p"), "/v1/posts");
}

#[test]
fn api_version_path_params_extracted_after_prefix() {
    let src = r#"
            struct Post { id: Int }
            api version "v1" {
                endpoint getPost: GET "/posts/{id}" { response Post }
            }
        "#;
    let ep = first_endpoint(src);
    assert_eq!(ep.path, "/v1/posts/{id}");
    assert_eq!(ep.path_params, vec!["id".to_string()]);
}

#[test]
fn multiple_api_version_blocks_and_unversioned() {
    let src = r#"
            struct Post { id: Int }
            api version "v1" {
                endpoint a: GET "/posts" { response Post }
            }
            api version "v2" {
                endpoint b: GET "/posts" { response Post }
            }
            endpoint health: GET "/health" { response Post }
        "#;
    assert_eq!(endpoint_path(src, "a"), "/v1/posts");
    assert_eq!(endpoint_path(src, "b"), "/v2/posts");
    assert_eq!(endpoint_path(src, "health"), "/health");
}

#[test]
fn api_version_duplicate_endpoint_name_still_rejected() {
    assert_has_error(
        r#"
            struct Post { id: Int }
            api version "v1" { endpoint dup: GET "/a" { response Post } }
            api version "v2" { endpoint dup: GET "/b" { response Post } }
            "#,
        "duplicate endpoint name",
    );
}

#[test]
fn apply_version_prefix_normalizes_seams() {
    assert_eq!(apply_version_prefix(Some("v1"), "/posts"), "/v1/posts");
    assert_eq!(apply_version_prefix(Some("/v1"), "/posts"), "/v1/posts");
    assert_eq!(apply_version_prefix(Some("v1"), "posts"), "/v1/posts");
    assert_eq!(apply_version_prefix(Some("/v1/"), "posts"), "/v1/posts");
    assert_eq!(apply_version_prefix(Some(" v1 "), "/posts"), "/v1/posts");
    assert_eq!(
        apply_version_prefix(Some("v1/beta"), "/posts"),
        "/v1/beta/posts"
    );
    assert_eq!(
        apply_version_prefix(Some("/v1/beta/"), "posts"),
        "/v1/beta/posts"
    );
    assert_eq!(apply_version_prefix(None, "/posts"), "/posts");
    assert_eq!(apply_version_prefix(Some("v1"), ""), "/v1");
    assert_eq!(apply_version_prefix(Some("v1"), "/"), "/v1");
}

#[test]
fn api_version_multi_segment_prefix() {
    let src = r#"
            struct Post { id: Int }
            api version "v1/beta" {
                endpoint getPost: GET "/posts/{id}" { response Post }
            }
        "#;
    let ep = first_endpoint(src);
    assert_eq!(ep.path, "/v1/beta/posts/{id}");
    assert_eq!(ep.path_params, vec!["id".to_string()]);
}

#[test]
fn route_signature_normalizes_path_param_names() {
    assert_eq!(
        route_signature(HttpMethod::Get, "/posts/{id}"),
        route_signature(HttpMethod::Get, "/posts/{slug}"),
    );
    assert_ne!(
        route_signature(HttpMethod::Get, "/posts/{id}"),
        route_signature(HttpMethod::Post, "/posts/{id}"),
    );
    assert_ne!(
        route_signature(HttpMethod::Get, "/posts/{id}"),
        route_signature(HttpMethod::Get, "/users/{id}"),
    );
}

#[test]
fn duplicate_route_rejected() {
    assert_has_error(
        r#"
            struct Post { id: Int }
            endpoint listPosts: GET "/posts" { response Post }
            endpoint allPosts: GET "/posts" { response Post }
            "#,
        "conflicts with endpoint `listPosts`",
    );
}

#[test]
fn route_collision_ignores_path_param_names() {
    assert_has_error(
        r#"
            struct Post { id: Int }
            endpoint getById: GET "/posts/{id}" { response Post }
            endpoint getBySlug: GET "/posts/{slug}" { response Post }
            "#,
        "conflicts with endpoint `getById`",
    );
}

#[test]
fn same_path_different_method_ok() {
    assert_no_errors(
        r#"
            struct Post { id: Int }
            endpoint listPosts: GET "/posts" { response Post }
            endpoint createPost: POST "/posts" { response Post }
            "#,
    );
}

#[test]
fn versioned_route_collides_with_handwritten_prefix() {
    assert_has_error(
        r#"
            struct Post { id: Int }
            api version "v2" {
                endpoint listV2: GET "/posts" { response Post }
            }
            endpoint handwritten: GET "/v2/posts" { response Post }
            "#,
        "conflicts with endpoint `listV2`",
    );
}

#[test]
fn same_path_under_different_versions_ok() {
    assert_no_errors(
        r#"
            struct Post { id: Int }
            api version "v1" {
                endpoint listV1: GET "/posts" { response Post }
            }
            api version "v2" {
                endpoint listV2: GET "/posts" { response Post }
            }
            "#,
    );
}

#[test]
fn duplicate_name_suppresses_route_conflict() {
    let errors = error_messages(
        r#"
            struct Post { id: Int }
            endpoint listPosts: GET "/posts" { response Post }
            endpoint listPosts: GET "/posts" { response Post }
            "#,
    );
    assert!(
        errors.iter().any(|e| e.contains("duplicate endpoint name")),
        "expected a duplicate-name error, got: {:?}",
        errors
    );
    assert!(
        !errors.iter().any(|e| e.contains("conflicts with endpoint")),
        "route conflict should be suppressed when the name is a duplicate, got: {:?}",
        errors
    );
}

#[test]
fn valid_get_endpoint_with_response() {
    assert_no_errors(
        r#"
            struct User { id: Int  name: String }
            endpoint getUser: GET "/api/users/{id}" {
                response User
            }
            "#,
    );
}

#[test]
fn valid_post_endpoint_with_body_and_response() {
    assert_no_errors(
        r#"
            struct User { id: Int  name: String }
            endpoint createUser: POST "/api/users" {
                body User
                response User
            }
            "#,
    );
}

#[test]
fn valid_put_endpoint() {
    assert_no_errors(
        r#"
            struct User { id: Int  name: String }
            endpoint updateUser: PUT "/api/users/{id}" {
                body User
                response User
            }
            "#,
    );
}

#[test]
fn valid_patch_endpoint() {
    assert_no_errors(
        r#"
            struct User { id: Int  name: String }
            endpoint patchUser: PATCH "/api/users/{id}" {
                body User
                response User
            }
            "#,
    );
}

#[test]
fn valid_delete_endpoint_no_body() {
    assert_no_errors(
        r#"
            struct User { id: Int  name: String }
            endpoint deleteUser: DELETE "/api/users/{id}" {
                response User
            }
            "#,
    );
}

#[test]
fn valid_endpoint_with_all_sections() {
    assert_no_errors(
        r#"
            struct User { id: Int  name: String  email: String }
            endpoint createUser: POST "/api/users" {
                body User omit { id }
                response User
                query {
                    notify: Bool = true
                }
                error {
                    Conflict(409)
                    ValidationError(400)
                }
            }
            "#,
    );
}

#[test]
fn valid_endpoint_empty_block() {
    assert_no_errors(
        r#"
            endpoint healthCheck: GET "/health" {
            }
            "#,
    );
}

#[test]
fn duplicate_endpoint_name() {
    assert_has_error(
        r#"
            struct User { id: Int }
            endpoint getUser: GET "/api/users/{id}" {
                response User
            }
            endpoint getUser: GET "/api/users/{id}" {
                response User
            }
            "#,
        "duplicate endpoint name `getUser`",
    );
}

#[test]
fn body_on_get_endpoint() {
    assert_has_error(
        r#"
            struct User { id: Int  name: String }
            endpoint getUser: GET "/api/users/{id}" {
                body User
                response User
            }
            "#,
        "`body` is not allowed on Get endpoints",
    );
}

#[test]
fn body_on_delete_endpoint() {
    assert_has_error(
        r#"
            struct User { id: Int  name: String }
            endpoint deleteUser: DELETE "/api/users/{id}" {
                body User
            }
            "#,
        "`body` is not allowed on Delete endpoints",
    );
}

#[test]
fn unknown_response_type() {
    assert_has_error(
        r#"
            endpoint getUser: GET "/api/users/{id}" {
                response NonexistentType
            }
            "#,
        "unknown response type",
    );
}

#[test]
fn unknown_body_struct() {
    assert_has_error(
        r#"
            endpoint createUser: POST "/api/users" {
                body UnknownStruct
            }
            "#,
        "unknown struct `UnknownStruct` in body type",
    );
}

#[test]
fn omit_nonexistent_field() {
    assert_has_error(
        r#"
            struct User { id: Int  name: String }
            endpoint createUser: POST "/api/users" {
                body User omit { nonexistent }
                response User
            }
            "#,
        "field `nonexistent` does not exist on struct `User`",
    );
}

#[test]
fn pick_nonexistent_field() {
    assert_has_error(
        r#"
            struct User { id: Int  name: String }
            endpoint createUser: POST "/api/users" {
                body User pick { nonexistent }
                response User
            }
            "#,
        "field `nonexistent` does not exist on struct `User`",
    );
}

#[test]
fn partial_nonexistent_field() {
    assert_has_error(
        r#"
            struct User { id: Int  name: String }
            endpoint patchUser: PATCH "/api/users/{id}" {
                body User partial { nonexistent }
                response User
            }
            "#,
        "field `nonexistent` does not exist on struct `User`",
    );
}

#[test]
fn valid_partial_all_fields() {
    assert_no_errors(
        r#"
            struct User { id: Int  name: String }
            endpoint patchUser: PATCH "/api/users/{id}" {
                body User partial
                response User
            }
            "#,
    );
}

#[test]
fn valid_omit_then_partial() {
    assert_no_errors(
        r#"
            struct User { id: Int  name: String  email: String }
            endpoint patchUser: PATCH "/api/users/{id}" {
                body User omit { id } partial
                response User
            }
            "#,
    );
}

#[test]
fn omit_then_partial_nonexistent_field() {
    assert_has_error(
        r#"
            struct User { id: Int  name: String  email: String }
            endpoint patchUser: PATCH "/api/users/{id}" {
                body User omit { id } partial { id }
                response User
            }
            "#,
        "field `id` does not exist on struct `User`",
    );
}

#[test]
fn duplicate_error_variant() {
    assert_has_error(
        r#"
            struct User { id: Int }
            endpoint createUser: POST "/api/users" {
                body User
                error {
                    NotFound(404)
                    NotFound(404)
                }
            }
            "#,
        "duplicate error variant `NotFound`",
    );
}

#[test]
fn error_status_code_below_400() {
    assert_has_error(
        r#"
            struct User { id: Int }
            endpoint createUser: POST "/api/users" {
                body User
                error {
                    Ok(200)
                }
            }
            "#,
        "status code 200 is not a client/server error",
    );
}

#[test]
fn error_status_code_above_599() {
    assert_has_error(
        r#"
            struct User { id: Int }
            endpoint createUser: POST "/api/users" {
                body User
                error {
                    CustomError(600)
                }
            }
            "#,
        "status code 600 is not a client/server error",
    );
}

#[test]
fn valid_error_status_codes_at_boundaries() {
    assert_no_errors(
        r#"
            struct User { id: Int }
            endpoint createUser: POST "/api/users" {
                body User
                error {
                    BadRequest(400)
                    InternalError(599)
                }
            }
            "#,
    );
}

#[test]
fn valid_query_params_with_defaults() {
    assert_no_errors(
        r#"
            struct User { id: Int  name: String }
            endpoint listUsers: GET "/api/users" {
                query {
                    page: Int = 1
                    limit: Int = 20
                    search: String = "default"
                    active: Bool = true
                }
                response User
            }
            "#,
    );
}

#[test]
fn header_wire_name_auto_transform() {
    let ep = first_endpoint(
        r#"
            struct User { id: Int }
            endpoint getUser: GET "/api/users/{id}" {
                headers {
                    authorization: String
                    idempotencyKey: String
                    xRequestId: Option<String>
                }
                response User
            }
            "#,
    );
    let wire: Vec<(&str, &str)> = ep
        .headers
        .iter()
        .map(|h| (h.name.as_str(), h.wire_name.as_str()))
        .collect();
    assert_eq!(
        wire,
        vec![
            ("authorization", "Authorization"),
            ("idempotencyKey", "Idempotency-Key"),
            ("xRequestId", "X-Request-Id"),
        ]
    );
}

#[test]
fn header_wire_name_explicit_override() {
    let ep = first_endpoint(
        r#"
            struct User { id: Int }
            endpoint getUser: GET "/api/users/{id}" {
                headers {
                    rateLimit: String as "X-RateLimit-Limit"
                    etag: String as "ETag"
                }
                response User
            }
            "#,
    );
    let wire: Vec<(&str, &str)> = ep
        .headers
        .iter()
        .map(|h| (h.name.as_str(), h.wire_name.as_str()))
        .collect();
    assert_eq!(
        wire,
        vec![("rateLimit", "X-RateLimit-Limit"), ("etag", "ETag")]
    );
}

#[test]
fn response_headers_resolved() {
    let ep = first_endpoint(
        r#"
            struct Post { id: Int }
            endpoint getPost: GET "/api/posts/{id}" {
                response Post headers {
                    ratelimitRemaining: Int as "X-RateLimit-Remaining"
                }
            }
            "#,
    );
    assert_eq!(ep.headers.len(), 0);
    assert_eq!(ep.response_headers.len(), 1);
    assert_eq!(ep.response_headers[0].name, "ratelimitRemaining");
    assert_eq!(ep.response_headers[0].wire_name, "X-RateLimit-Remaining");
}

#[test]
fn header_default_type_mismatch() {
    assert_has_error(
        r#"
            struct User { id: Int }
            endpoint getUser: GET "/api/users/{id}" {
                headers {
                    retries: Int = "nope"
                }
                response User
            }
            "#,
        "default value for header `retries` does not match type",
    );
}

#[test]
fn response_header_default_rejected() {
    assert_has_error(
        r#"
            struct User { id: Int }
            endpoint getUser: GET "/api/users/{id}" {
                response User headers {
                    ratelimitRemaining: Int = 100
                }
            }
            "#,
        "response header `ratelimitRemaining` cannot have a default value",
    );
}

#[test]
fn request_header_wire_name_collision() {
    assert_has_error(
        r#"
            struct User { id: Int }
            endpoint getUser: GET "/api/users/{id}" {
                headers {
                    xRequestId: String
                    tracing: String as "X-Request-Id"
                }
                response User
            }
            "#,
        "request header wire name `X-Request-Id` is declared by more than one header",
    );
}

#[test]
fn request_header_wire_name_collision_case_insensitive() {
    assert_has_error(
        r#"
            struct User { id: Int }
            endpoint getUser: GET "/api/users/{id}" {
                headers {
                    a: String as "X-Trace"
                    b: String as "x-trace"
                }
                response User
            }
            "#,
        "is declared by more than one header",
    );
}

#[test]
fn response_header_wire_name_collision() {
    assert_has_error(
        r#"
            struct Post { id: Int }
            endpoint getPost: GET "/api/posts/{id}" {
                response Post headers {
                    rateLimit: Int as "X-Limit"
                    ceiling: Int as "x-limit"
                }
            }
            "#,
        "response header wire name `x-limit` is declared by more than one header",
    );
}

#[test]
fn request_header_collides_with_path_param() {
    assert_has_error(
        r#"
            struct User { id: Int }
            endpoint getUser: GET "/api/users/{id}" {
                headers {
                    id: String as "X-Id"
                }
                response User
            }
            "#,
        "request header `id` collides with another endpoint input",
    );
}

#[test]
fn request_header_collides_with_query_param() {
    assert_has_error(
        r#"
            struct User { id: Int }
            endpoint listUsers: GET "/api/users" {
                query {
                    trace: Option<String>
                }
                headers {
                    trace: String as "X-Trace"
                }
                response User
            }
            "#,
        "request header `trace` collides with another endpoint input",
    );
}

#[test]
fn request_header_duplicate_local_name() {
    assert_has_error(
        r#"
            struct User { id: Int }
            endpoint getUser: GET "/api/users/{id}" {
                headers {
                    token: String as "X-A"
                    token: String as "X-B"
                }
                response User
            }
            "#,
        "request header `token` collides with another endpoint input",
    );
}

#[test]
fn response_header_duplicate_local_name() {
    assert_has_error(
        r#"
            struct User { id: Int }
            endpoint getUser: GET "/api/users/{id}" {
                response User headers {
                    rate: Int as "X-A"
                    rate: Int as "X-B"
                }
            }
            "#,
        "response header `rate` is declared more than once",
    );
}

#[test]
fn query_param_default_type_mismatch() {
    assert_has_error(
        r#"
            struct User { id: Int }
            endpoint listUsers: GET "/api/users" {
                query {
                    page: Int = "not_a_number"
                }
                response User
            }
            "#,
        "default value for query param `page` does not match type",
    );
}

#[test]
fn query_param_bool_default_on_int_type() {
    assert_has_error(
        r#"
            struct User { id: Int }
            endpoint listUsers: GET "/api/users" {
                query {
                    active: Int = true
                }
                response User
            }
            "#,
        "default value for query param `active` does not match type",
    );
}

#[test]
fn path_params_are_extracted() {
    let source = r#"
            struct User { id: Int }
            endpoint getUser: GET "/api/users/{id}/posts/{postId}" {
                response User
            }
        "#;
    let result = analyze(source);
    assert!(
        result
            .diagnostics
            .iter()
            .all(|d| d.severity != Severity::Error),
        "unexpected errors: {:?}",
        result.diagnostics
    );
    let ep = result
        .endpoints
        .iter()
        .find(|e| e.name == "getUser")
        .expect("endpoint not found");
    assert_eq!(ep.path_params, vec!["id".to_string(), "postId".to_string()]);
}

#[test]
fn body_allowed_on_post_put_patch() {
    assert_no_errors(
        r#"
            struct Payload { data: String }

            endpoint postIt: POST "/a" {
                body Payload
            }

            endpoint putIt: PUT "/b" {
                body Payload
            }

            endpoint patchIt: PATCH "/c" {
                body Payload
            }
            "#,
    );
}

#[test]
fn valid_pick_subset() {
    assert_no_errors(
        r#"
            struct User { id: Int  name: String  email: String  age: Int }
            endpoint createUser: POST "/api/users" {
                body User pick { name, email }
                response User
            }
            "#,
    );
}

#[test]
fn endpoint_with_doc_comment() {
    assert_no_errors(
        r#"
            struct User { id: Int  name: String }
            /** Retrieves a single user by ID. */
            endpoint getUser: GET "/api/users/{id}" {
                response User
            }
            "#,
    );
}

#[test]
fn multiple_distinct_endpoints() {
    assert_no_errors(
        r#"
            struct User { id: Int  name: String }
            endpoint listUsers: GET "/api/users" {
                response User
            }
            endpoint getUser: GET "/api/users/{id}" {
                response User
            }
            endpoint createUser: POST "/api/users" {
                body User
                response User
            }
            "#,
    );
}

#[test]
fn realistic_full_endpoint() {
    assert_no_errors(
        r#"
            struct User {
                id: Int
                name: String where self.length > 0 && self.length <= 100
                email: String
                age: Int where self >= 0 && self <= 150
                bio: Option<String>
            }

            endpoint createUser: POST "/api/users" {
                body User omit { id, bio }
                response User
                query {
                    notify: Bool = true
                }
                error {
                    ValidationError(400)
                    Conflict(409)
                }
            }
            "#,
    );
}

#[test]
fn file_accept_request_body_mixed() {
    assert_no_errors(
        r#"
            struct AvatarUpload { avatar: File  caption: String }
            struct UploadResult { url: String }
            endpoint uploadAvatar: POST "/api/avatar" {
                body AvatarUpload
                response UploadResult
            }
            "#,
    );
}

#[test]
fn file_accept_response_single_file() {
    assert_no_errors(
        r#"
            struct Doc { data: File }
            endpoint download: GET "/api/doc/{id}" {
                response Doc
            }
            "#,
    );
}

#[test]
fn file_accept_optional_file_field() {
    assert_no_errors(
        r#"
            struct MaybeUpload { avatar: Option<File>  caption: String }
            endpoint upload: POST "/api/maybe" {
                body MaybeUpload
            }
            "#,
    );
}

#[test]
fn file_flag_body_is_multipart() {
    let ep = first_endpoint(
        r#"
            struct AvatarUpload { avatar: File  caption: String }
            endpoint uploadAvatar: POST "/api/avatar" {
                body AvatarUpload
            }
            "#,
    );
    assert!(ep.body_is_multipart, "body should be multipart");
    assert!(!ep.response_is_binary);
}

#[test]
fn file_flag_body_multipart_cleared_by_omit() {
    let ep = first_endpoint(
        r#"
            struct AvatarUpload { avatar: File  caption: String }
            endpoint uploadAvatar: POST "/api/avatar" {
                body AvatarUpload omit { avatar }
            }
            "#,
    );
    assert!(
        !ep.body_is_multipart,
        "omitting the only File field clears multipart"
    );
}

#[test]
fn file_flag_response_is_binary() {
    let ep = first_endpoint(
        r#"
            struct Doc { data: File }
            endpoint download: GET "/api/doc/{id}" {
                response Doc
            }
            "#,
    );
    assert!(ep.response_is_binary, "response should be binary");
    assert!(!ep.body_is_multipart);
}

#[test]
fn file_flag_optional_file_body_is_multipart() {
    let ep = first_endpoint(
        r#"
            struct MaybeUpload { avatar: Option<File>  caption: String }
            endpoint upload: POST "/api/maybe" {
                body MaybeUpload
            }
            "#,
    );
    assert!(ep.body_is_multipart);
}

#[test]
fn file_reject_function_param() {
    assert_has_error(
        r#"
            function f(x: File) -> Int { return 0 }
            "#,
        "`File` is only allowed",
    );
}

#[test]
fn file_reject_function_return() {
    assert_has_error(
        r#"
            function g() -> File { return 0 }
            "#,
        "`File` is only allowed",
    );
}

#[test]
fn file_reject_let_binding() {
    assert_has_error(
        r#"
            function h() -> Int {
                let x: File = 0
                return 0
            }
            "#,
        "`File` is only allowed",
    );
}

#[test]
fn file_reject_query_param() {
    assert_has_error(
        r#"
            struct User { id: Int }
            endpoint getUser: GET "/api/users/{id}" {
                query {
                    f: File
                }
                response User
            }
            "#,
        "`File` is only allowed",
    );
}

#[test]
fn file_reject_header() {
    assert_has_error(
        r#"
            struct User { id: Int }
            endpoint getUser: GET "/api/users/{id}" {
                headers {
                    token: File
                }
                response User
            }
            "#,
        "`File` is only allowed",
    );
}

#[test]
fn file_reject_enum_variant_payload() {
    assert_has_error(
        r#"
            enum Wrapper { Holds(File)  Empty }
            "#,
        "`File` is only allowed",
    );
}

#[test]
fn file_reject_list_of_file_field() {
    assert_has_error(
        r#"
            struct Gallery { photos: List<File> }
            "#,
        "`File` is only allowed",
    );
}

#[test]
fn file_reject_map_of_file_field() {
    assert_has_error(
        r#"
            struct Bucket { blobs: Map<String, File> }
            "#,
        "`File` is only allowed",
    );
}

#[test]
fn file_reject_type_alias_target() {
    assert_has_error(
        r#"
            type Blob = File
            "#,
        "`File` is only allowed",
    );
}

#[test]
fn file_reject_bearing_struct_as_param() {
    assert_has_error(
        r#"
            struct AvatarUpload { avatar: File  caption: String }
            function f(a: AvatarUpload) -> Int { return 0 }
            "#,
        "body-only type",
    );
}

#[test]
fn file_reject_bearing_struct_nested() {
    assert_has_error(
        r#"
            struct AvatarUpload { avatar: File }
            struct Profile { upload: AvatarUpload  name: String }
            "#,
        "body-only type",
    );
}

#[test]
fn file_reject_bearing_struct_nested_forward_ref() {
    assert_has_error(
        r#"
            struct Profile { upload: AvatarUpload  name: String }
            struct AvatarUpload { avatar: File }
            "#,
        "body-only type",
    );
}

#[test]
fn file_reject_bearing_struct_as_param_forward_ref() {
    assert_has_error(
        r#"
            function f(a: AvatarUpload) -> Int { return 0 }
            struct AvatarUpload { avatar: File  caption: String }
            "#,
        "body-only type",
    );
}

#[test]
fn file_reject_response_mixed_body() {
    assert_has_error(
        r#"
            struct Bad { data: File  name: String }
            endpoint download: GET "/api/bad/{id}" {
                response Bad
            }
            "#,
        "exactly one field of type `File`",
    );
}

#[test]
fn file_reject_response_multiple_files() {
    assert_has_error(
        r#"
            struct TwoFiles { a: File  b: File }
            endpoint download: GET "/api/two/{id}" {
                response TwoFiles
            }
            "#,
        "exactly one field of type `File`",
    );
}

#[test]
fn file_reject_binary_response_with_response_headers() {
    assert_has_error(
        r#"
            struct Doc { data: File }
            endpoint download: GET "/api/doc/{id}" {
                response Doc headers {
                    etag: String as "ETag"
                }
            }
            "#,
        "cannot also declare response headers",
    );
}

#[test]
fn file_reject_bearing_struct_in_list_response() {
    assert_has_error(
        r#"
            struct Doc { data: File }
            endpoint download: GET "/api/docs" {
                response List<Doc>
            }
            "#,
        "body-only type",
    );
}

#[test]
fn file_reject_bearing_struct_in_option_response() {
    assert_has_error(
        r#"
            struct Doc { data: File }
            endpoint download: GET "/api/docs/{id}" {
                response Option<Doc>
            }
            "#,
        "body-only type",
    );
}

#[test]
fn file_accept_multipart_scalar_fields() {
    assert_no_errors(
        r#"
            struct Upload { avatar: File  rotation: Int  crop: Bool  caption: Option<String> }
            endpoint upload: POST "/api/upload" {
                body Upload
            }
            "#,
    );
}

#[test]
fn file_reject_multipart_list_field() {
    assert_has_error(
        r#"
            struct Upload { avatar: File  tags: List<String> }
            endpoint upload: POST "/api/upload" {
                body Upload
            }
            "#,
        "cannot be sent as a form field",
    );
}

#[test]
fn file_reject_multipart_nested_struct_field() {
    assert_has_error(
        r#"
            struct Meta { key: String }
            struct Upload { avatar: File  meta: Meta }
            endpoint upload: POST "/api/upload" {
                body Upload
            }
            "#,
        "cannot be sent as a form field",
    );
}

#[test]
fn pagination_offset_on_list_resolves() {
        let ep = first_endpoint(
        r#"
            struct Post { id: Int }
            endpoint listPosts: GET "/posts" {
                response List<Post>
                pagination { offset }
            }
            "#,
    );
    let pg = ep.pagination.expect("pagination should resolve");
    assert!(matches!(pg.mode, PaginationMode::Offset));
    assert!(matches!(pg.item_type, Type::Named(ref n) if n.ends_with("Post")));
}

#[test]
fn pagination_cursor_on_list_resolves() {
        let ep = first_endpoint(
        r#"
            struct Post { id: Int }
            endpoint listPosts: GET "/posts" {
                response List<Post>
                pagination { cursor }
            }
            "#,
    );
    let pg = ep.pagination.expect("pagination should resolve");
    assert!(matches!(pg.mode, PaginationMode::Cursor));
}

#[test]
fn pagination_absent_is_none() {
    let ep = first_endpoint(
        r#"
            struct Post { id: Int }
            endpoint listPosts: GET "/posts" { response List<Post> }
            "#,
    );
    assert!(ep.pagination.is_none());
}

#[test]
fn pagination_rejects_non_list_response() {
    assert_has_error(
        r#"
            struct Post { id: Int }
            endpoint getPost: GET "/posts/{id}" {
                response Post
                pagination { offset }
            }
            "#,
        "requires the response to be a `List<T>`",
    );
}

#[test]
fn pagination_rejects_option_list_response() {
    assert_has_error(
        r#"
            struct Post { id: Int }
            endpoint listPosts: GET "/posts" {
                response Option<List<Post>>
                pagination { offset }
            }
            "#,
        "requires the response to be a `List<T>`",
    );
}

#[test]
fn pagination_rejects_combination_with_response_headers() {
    assert_has_error(
        r#"
            struct Post { id: Int }
            endpoint listPosts: GET "/posts" {
                response List<Post> headers { totalCount: Int as "X-Total" }
                pagination { offset }
            }
            "#,
        "cannot be combined",
    );
}

#[test]
fn multi_status_two_typed_same_type_accepts() {
    let src = r#"
            struct User { id: Int }
            endpoint createUser: POST "/users" {
                response { 200: User  201: User }
            }
        "#;
    assert_no_errors(src);
    let ep = first_endpoint(src);
    assert_eq!(ep.response_statuses.len(), 2);
    assert_eq!(ep.response_statuses[0].status, 200);
    assert_eq!(
        ep.response_statuses[0].ty,
        Some(Type::Named("User".to_string()))
    );
    assert_eq!(ep.response_statuses[1].status, 201);
    assert_eq!(
        ep.response_statuses[1].ty,
        Some(Type::Named("User".to_string()))
    );
    assert_eq!(ep.response, Some(Type::Named("User".to_string())));
}

#[test]
fn multi_status_typed_and_typeless_accepts() {
    let src = r#"
            struct User { id: Int }
            endpoint createUser: POST "/users" {
                response { 200: User  204 }
            }
        "#;
    assert_no_errors(src);
    let ep = first_endpoint(src);
    assert_eq!(ep.response_statuses.len(), 2);
    assert_eq!(ep.response_statuses[0].status, 200);
    assert_eq!(
        ep.response_statuses[0].ty,
        Some(Type::Named("User".to_string()))
    );
    assert_eq!(ep.response_statuses[1].status, 204);
    assert_eq!(ep.response_statuses[1].ty, None);
    assert_eq!(ep.response, Some(Type::Named("User".to_string())));
}

#[test]
fn multi_status_typeless_first_mirrors_shared_type() {
    let src = r#"
            struct User { id: Int }
            endpoint createUser: POST "/users" {
                response { 204  200: User }
            }
        "#;
    assert_no_errors(src);
    let ep = first_endpoint(src);
    assert_eq!(ep.response_statuses.len(), 2);
    assert_eq!(ep.response_statuses[0].status, 204);
    assert_eq!(ep.response_statuses[0].ty, None);
    assert_eq!(ep.response_statuses[1].status, 200);
    assert_eq!(
        ep.response_statuses[1].ty,
        Some(Type::Named("User".to_string()))
    );
    assert_eq!(ep.response, Some(Type::Named("User".to_string())));
}

#[test]
fn multi_status_all_typeless_accepts() {
    let src = r#"
            endpoint accept: POST "/jobs" {
                response { 202  204 }
            }
        "#;
    assert_no_errors(src);
    let ep = first_endpoint(src);
    assert_eq!(ep.response_statuses.len(), 2);
    assert_eq!(ep.response_statuses[0].status, 202);
    assert_eq!(ep.response_statuses[0].ty, None);
    assert_eq!(ep.response_statuses[1].status, 204);
    assert_eq!(ep.response_statuses[1].ty, None);
    assert_eq!(ep.response, None);
}

#[test]
fn bare_response_leaves_statuses_empty() {
    let src = r#"
            struct User { id: Int }
            endpoint getUser: GET "/users/{id}" {
                response User
            }
        "#;
    assert_no_errors(src);
    let ep = first_endpoint(src);
    assert!(ep.response_statuses.is_empty());
    assert_eq!(ep.response, Some(Type::Named("User".to_string())));
}

#[test]
fn multi_status_differing_body_types_rejected() {
    assert_has_error(
        r#"
            struct User { id: Int }
            struct Receipt { id: Int }
            endpoint createUser: POST "/users" {
                response { 200: User  201: Receipt }
            }
            "#,
        "must share one body type",
    );
}

#[test]
fn multi_status_non_2xx_rejected() {
    assert_has_error(
        r#"
            struct User { id: Int }
            struct NotFound { id: Int }
            endpoint getUser: GET "/users/{id}" {
                response { 200: User  404: NotFound }
            }
            "#,
        "not a success code",
    );
}

#[test]
fn multi_status_duplicate_status_rejected() {
    assert_has_error(
        r#"
            struct User { id: Int }
            endpoint getUser: GET "/users/{id}" {
                response { 200: User  200: User }
            }
            "#,
        "duplicate response status",
    );
}

#[test]
fn multi_status_with_request_headers_allowed() {
    let src = r#"
            struct User { id: Int }
            endpoint createUser: POST "/users" {
                headers { x: String }
                response { 200: User  201: User }
            }
        "#;
    assert_no_errors(src);
    let ep = first_endpoint(src);
    assert_eq!(ep.headers.len(), 1);
    assert_eq!(ep.response_statuses.len(), 2);
    assert!(ep.response_headers.is_empty());
}

#[test]
fn multi_status_typed_204_rejected() {
    assert_has_error(
        r#"
            struct User { id: Int }
            endpoint deleteUser: DELETE "/users/{id}" {
                response { 204: User }
            }
            "#,
        "cannot declare a body type",
    );
}

#[test]
fn multi_status_typed_205_rejected_typeless_accepted() {
    assert_has_error(
        r#"
            struct User { id: Int }
            endpoint resetUser: PUT "/users/{id}" {
                response { 205: User }
            }
            "#,
        "cannot declare a body type",
    );
    let src = r#"
            struct User { id: Int }
            endpoint resetUser: PUT "/users/{id}" {
                response { 200: User  205 }
            }
        "#;
    assert_no_errors(src);
    let ep = first_endpoint(src);
    assert_eq!(ep.response_statuses.len(), 2);
    assert_eq!(ep.response_statuses[1].status, 205);
    assert_eq!(ep.response_statuses[1].ty, None);
}

#[test]
fn multi_status_unknown_type_single_diagnostic() {
    let errors = error_messages(
        r#"
            endpoint getThing: GET "/things/{id}" {
                response { 200: Bogus  204 }
            }
            "#,
    );
    assert_eq!(
        errors.len(),
        1,
        "an unknown type must produce exactly one diagnostic, got: {errors:?}"
    );
    assert!(
        errors[0].contains("unknown type `Bogus`"),
        "the one diagnostic should be resolve_type_expr's, got: {errors:?}"
    );
}

#[test]
fn multi_status_unknown_first_type_does_not_mask_mismatch() {
    let errors = error_messages(
        r#"
            struct User { id: Int }
            struct Receipt { id: Int }
            endpoint createUser: POST "/users" {
                response { 200: Bogus  201: User  202: Receipt }
            }
            "#,
    );
    assert!(
        errors.iter().any(|e| e.contains("unknown type `Bogus`")),
        "the unknown first entry keeps its own diagnostic: {errors:?}"
    );
    assert!(
        errors.iter().any(|e| e.contains("must share one body type")
            && e.contains("`User`")
            && e.contains("`Receipt`")),
        "the User/Receipt mismatch must not be masked by the unknown first entry: {errors:?}"
    );
}

#[test]
fn multi_status_file_bearing_struct_rejected() {
    let errors = error_messages(
        r#"
            struct Doc { data: File }
            endpoint getDoc: GET "/docs/{id}" {
                response { 200: Doc  204 }
            }
            "#,
    );
    assert!(
        errors.iter().any(|e| e.contains("JSON-only")),
        "expected the targeted file-bearing rejection, got: {errors:?}"
    );
    assert!(
        !errors.iter().any(|e| e.contains("body-only type")),
        "the generic body-only-position error is misleading here: {errors:?}"
    );
    assert!(
        !errors.iter().any(|e| e.contains("unknown")),
        "no unknown-type cascade expected: {errors:?}"
    );
}

#[test]
fn multi_status_list_body_rejected() {
    let errors = error_messages(
        r#"
            struct Post { id: Int }
            endpoint syncPosts: POST "/posts/sync" {
                response { 200: List<Post>  201: List<Post> }
            }
            "#,
    );
    assert!(
        errors.iter().any(|e| e.contains("must be a named struct")),
        "expected the non-struct body rejection, got: {errors:?}"
    );
    assert!(
        !errors
            .iter()
            .any(|e| e.contains("must share one body type")),
        "rejected entries must not also cascade the shared-type error: {errors:?}"
    );
}

#[test]
fn multi_status_scalar_body_rejected() {
    assert_has_error(
        r#"
            endpoint getStatus: GET "/status" {
                response { 200: String  204 }
            }
            "#,
        "must be a named struct",
    );
}

#[test]
fn multi_status_with_pagination_rejected() {
    let errors = error_messages(
        r#"
            struct User { id: Int }
            endpoint listUsers: GET "/users" {
                response { 200: User  201: User }
                pagination { offset }
            }
            "#,
    );
    assert!(
        errors
            .iter()
            .any(|e| e.contains("cannot also be paginated")),
        "expected the multi-status+pagination combo error, got: {errors:?}"
    );
    assert!(
        !errors
            .iter()
            .any(|e| e.contains("requires the response to be a `List<T>`")),
        "should not surface the confusing pagination-requires-List error: {errors:?}"
    );
}

// ── Constructors ─────────────────────────────────────────────────────

#[test]
fn struct_field_types_rejects_mismatched_constructor_name() {
    let mut checker = Checker::new();
    checker.check_program(parse(
        "struct Box<T> { v: Option<T> }\nstruct Other<T> { v: Option<T> }\n",
    ));
    let args = vec![Expr::Ident(IdentExpr {
        name: "x".to_string(),
        span: Span::new(SourceId(0), 0, 1),
    })];
    let int = vec![Type::Named("Int".to_string())];
    assert!(
        checker
            .env
            .constructor_field_types(&"Box".to_string(), &"Other".to_string(), args.len(), &int)
            .is_none(),
        "a constructor name that isn't the declared struct must not resolve to its field types"
    );
    let fields = checker
        .env
        .constructor_field_types(&"Box".to_string(), &"Box".to_string(), args.len(), &int)
        .expect("the struct's own name must resolve to its field types");
    assert_eq!(fields.len(), 1, "Box has exactly one field");
    assert!(
        !fields[0].has_type_vars(),
        "substituting T = Int must leave no residual type var, got {:?}",
        fields[0]
    );
}

// ── What each finding says ───────────────────────────────────────────

fn findings(source: &str) -> Vec<String> {
    analyze(source)
        .diagnostics
        .iter()
        .map(|d| d.message.clone())
        .collect()
}

fn assert_findings(source: &str, expected: &[&str]) {
    assert_eq!(findings(source), expected, "in {}", source);
}

fn assert_in_main(statements: &str, expected: &[&str]) {
    assert_findings(&format!("function main() {{ {} }}", statements), expected);
}

#[test]
fn says_operators() {
    assert_in_main("print(1 + \"a\")", &["cannot apply `+` to Int and String"]);
    assert_in_main("print(true * false)", &["cannot apply `*` to Bool and Bool"]);
    assert_in_main("print(1 == \"a\")", &["cannot compare Int and String"]);
    assert_in_main("print(true < false)", &["cannot compare Bool and Bool with `<`"]);
    assert_in_main("print(1 && true)", &["left operand of `&&` must be Bool, got Int"]);
    assert_in_main("print(true || 1)", &["right operand of `||` must be Bool, got Int"]);
    assert_in_main(
        "print(1 && 2)",
        &[
            "left operand of `&&` must be Bool, got Int",
            "right operand of `&&` must be Bool, got Int",
        ],
    );
    assert_in_main("print(-true)", &["cannot negate Bool"]);
    assert_in_main("print(!1)", &["cannot apply `!` to Int"]);
}

#[test]
fn says_assignments() {
    assert_in_main("x = 1", &["undefined variable `x`"]);
    assert_in_main("let x: Int = 1\n x = 2", &["cannot assign to immutable variable `x`"]);
    assert_in_main(
        "let mut x: Int = 1\n x = true",
        &["type mismatch: cannot assign `Bool` to variable `x` of type `Int`"],
    );
    let point = "struct Point { Int x }\n";
    assert_findings(
        &format!("{point}function main() {{ let p: Point = Point(1)\n p.x = 2 }}"),
        &["cannot assign to field of immutable variable `p`"],
    );
    assert_findings(
        &format!("{point}function main() {{ let mut p: Point = Point(1)\n p.x = true }}"),
        &["type mismatch: field `x` is `Int` but assigned `Bool`"],
    );
    assert_findings(
        &format!("{point}function main() {{ let mut p: Point = Point(1)\n p.y = 2 }}"),
        &["struct `Point` has no field `y`"],
    );
    assert_in_main(
        "let mut n: Int = 1\n n.x = 2",
        &["cannot assign to field on non-struct type `Int`"],
    );
}

#[test]
fn says_collections() {
    assert_in_main(
        "let xs: List<Int> = [1, true]",
        &["list element type mismatch: expected Int but got Bool"],
    );
    assert_in_main(
        "let m: Map<String, Int> = {\"a\": 1, 2: 2}",
        &["map key type mismatch: expected String but got Int"],
    );
    assert_in_main(
        "let m: Map<String, Int> = {\"a\": 1, \"b\": true}",
        &["map value type mismatch: expected Int but got Bool"],
    );
}

#[test]
fn says_conditions_and_loops() {
    assert_in_main("if 1 { print(1) }", &["if condition must be Bool, got Int"]);
    assert_in_main("while 1 { print(1) }", &["while condition must be Bool, got Int"]);
    assert_in_main(
        "for i in true..false { print(i) }",
        &[
            "for range start must be Int, got Bool",
            "for range end must be Int, got Bool",
        ],
    );
    assert_in_main(
        "for i: Bool in 0..1 { print(i) }",
        &["for loop variable must be Int, got Bool"],
    );
    assert_in_main("for i in 5 { print(i) }", &["for...in requires a List, got Int"]);
    assert_in_main("break", &["`break` outside of loop"]);
    assert_in_main("continue", &["`continue` outside of loop"]);
    assert_in_main(
        "let x: Int = if true { 1 } else { \"a\" }",
        &["if/else branches have incompatible types: Int and String"],
    );
}

#[test]
fn says_variables() {
    assert_in_main(
        "let x: Int = true",
        &["type mismatch: variable `x` declared as `Int` but initialized with `Bool`"],
    );
    assert_in_main(
        "let x = print(1)",
        &["cannot infer type for `x`: initializer has type Void (add a type annotation)"],
    );
    assert_in_main(
        "let x = []",
        &["cannot infer type for `x`: initializer has ambiguous type `List<T>` (add a type annotation)"],
    );
    assert_in_main(
        "let x: Int = 1\n let x: Int = 2",
        &["variable `x` is already defined in this scope"],
    );
    assert_in_main("print(y)", &["undefined variable `y`"]);
}

#[test]
fn says_destructuring() {
    let types = "struct Point { Int x }\nstruct Other { Int z }\n";
    assert_findings(
        &format!("{types}function main() {{ let Point {{ x }} = Other(1)\n print(x) }}"),
        &["type mismatch: destructuring expects `Point` but got `Other`"],
    );
    assert_findings(
        &format!("{types}function main() {{ let Point {{ y }} = Point(1) }}"),
        &["struct `Point` has no field `y`"],
    );
    assert_findings(
        &format!("{types}function main() {{ let x: Int = 1\n let Point {{ x }} = Point(1) }}"),
        &["variable `x` is already defined in this scope"],
    );
    assert!(findings("function main() { let Nope { x } = 1 }")
        .contains(&"unknown struct type `Nope`".to_string()));
}

#[test]
fn says_returns() {
    assert_findings(
        "function f() -> Int { return true }\nfunction main() { }",
        &["return type mismatch: expected Int but got Bool"],
    );
    assert_findings(
        "function f() -> Int { return }\nfunction main() { }",
        &["expected return value of type Int"],
    );
    assert_findings(
        "function f() -> Int { true }\nfunction main() { }",
        &["implicit return type mismatch: expected Int but got Bool"],
    );
    assert_findings(
        "function f() -> Int { let x: Int = 1 }\nfunction main() { }",
        &["function `f` has return type `Int` but body does not return a value"],
    );
    assert_findings(
        "function f() -> Int { }\nfunction main() { }",
        &["function `f` has return type `Int` but body does not return a value"],
    );
}

#[test]
fn says_function_calls() {
    assert_in_main("nope(1)", &["undefined function `nope`"]);
    let f = "function f(a: Int, b: Int = 2) { print(a + b) }\n";
    let call = |args: &str| format!("{f}function main() {{ f({args}) }}");
    assert_findings(&call("1"), &[]);
    assert_findings(&call("b: 3, a: 1"), &[]);
    assert_findings(&call("1, 2, 3"), &["function `f` takes 2 argument(s), got 3"]);
    assert_findings(&call("true"), &["argument 1 of `f`: expected `Int` but got `Bool`"]);
    assert_findings(
        &call("1, b: true"),
        &["named argument `b` of `f`: expected `Int` but got `Bool`"],
    );
    assert_findings(
        &call("1, b: 2, b: 3"),
        &[
            "duplicate named argument `b`",
            "function `f` takes 2 argument(s), got 1 (positional) + 2 (named)",
        ],
    );
    assert_findings(&call("1, c: 3"), &["function `f` has no parameter named `c`"]);
    assert_findings(
        &call("1, a: 3"),
        &["parameter `a` already provided as positional argument 1"],
    );
    assert_findings(&call("b: 3"), &["function `f` missing argument(s): a"]);
    assert_in_main("print()", &["print() takes 1 argument, got 0"]);
    assert_in_main(
        "print(value: 1)",
        &[
            "built-in function `print` does not accept named arguments",
            "print() takes 1 argument, got 0",
        ],
    );
    assert_in_main(
        "let s: String = toString(1, 2)",
        &["toString() takes 1 argument, got 2"],
    );
    assert_in_main(
        "let s: String = toString(value: 1)",
        &[
            "built-in function `toString` does not accept named arguments",
            "toString() takes 1 argument, got 0",
        ],
    );
}

#[test]
fn says_indirect_calls() {
    let with = |call: &str| {
        format!("function run(f: (Int) -> Int) {{ let n: Int = {call}\n print(n) }}\nfunction main() {{ }}")
    };
    assert_findings(&with("f(1)"), &[]);
    assert_findings(&with("f(1, 2)"), &["function takes 1 argument(s), got 2"]);
    assert_findings(&with("f(true)"), &["argument 1: expected Int but got Bool"]);
    assert_findings(
        &with("f(x: 1)"),
        &[
            "named arguments are not supported for indirect function calls",
            "function takes 1 argument(s), got 0",
        ],
    );
    assert_in_main("let n: Int = 1\n n(2)", &["cannot call value of type Int"]);
}

#[test]
fn says_inference() {
    let pair = "function same<T>(a: T, b: T) -> T { return a }\n";
    assert_findings(
        &format!("{pair}function main() {{ print(same(1, true)) }}"),
        &[
            "argument 2 of `same`: expected `Int` but got `Bool`",
            "argument 2 of `same`: conflicting bindings for type parameter `T` (was `Int`, now `Bool`)",
        ],
    );
    assert_findings(
        "function make<T>() -> List<T> { return [] }\nfunction main() { let x = make() }",
        &[
            "cannot infer type parameter `T` for call to `make`; no argument constrains it",
            "cannot infer type for `x`: initializer has ambiguous type `List<T>` (add a type annotation)",
        ],
    );
    assert_findings(
        "function two<A, B>() { }\nfunction main() { two() }",
        &["cannot infer type parameters `A`, `B` for call to `two`; no argument constrains them"],
    );
    assert_findings(
        "trait Show { function show(self) -> String }\nfunction f<T: Show>(x: T) -> String { return x.show() }\nfunction main() { print(f(1)) }",
        &["type `Int` does not implement trait `Show`"],
    );
}

#[test]
fn says_constructors() {
    let types = "struct Point { Int x\n Int y }\nenum Shape { Dot\n Circle(Int) }\n";
    let with = |e: &str| format!("{types}function main() {{ print({e}) }}");
    assert_findings(&with("Point(1)"), &["struct `Point` has 2 field(s), got 1"]);
    assert_findings(
        &with("Point(1, true)"),
        &["field `y`: expected `Int` but got `Bool`"],
    );
    assert_findings(&with("Circle()"), &["variant `Circle` takes 1 field(s), got 0"]);
    assert_findings(
        &with("Circle(true)"),
        &["variant `Circle` field 1: expected `Int` but got `Bool`"],
    );
    assert_findings(&with("Nope(1)"), &["undefined type or variant `Nope`"]);
}

#[test]
fn says_matches() {
    let shape = "enum Shape { Dot\n Circle(Int) }\n";
    let with = |arms: &str| {
        format!("{shape}function f(s: Shape) -> Int {{ return match s {{ {arms} }} }}\nfunction main() {{ }}")
    };
    assert_findings(&with("Dot -> 0\n Circle(r) -> r"), &[]);
    assert_findings(
        &with("Dot -> 0\n Circle(r, q) -> 1"),
        &["variant `Circle` has 1 field(s) but pattern has 2 binding(s)"],
    );
    assert_findings(
        &with("Dot -> 0\n Circle(r) -> true"),
        &["match arm type mismatch: expected `Int` but got `Bool`"],
    );
    assert_findings(
        &with("Dot -> 0"),
        &["non-exhaustive match: missing variant(s) Circle"],
    );
    assert_findings(
        &format!("{shape}function f(s: Shape) {{ while true {{ match s {{ Dot -> {{ break }}\n Circle(r) -> {{ continue }} }} }} }}\nfunction main() {{ }}"),
        &[
            "`break` is not allowed inside match arms",
            "`continue` is not allowed inside match arms",
        ],
    );
}

#[test]
fn says_try() {
    assert_findings(
        "function f() -> Option<Int> { return Some(1?) }\nfunction main() { }",
        &["the `?` operator can only be applied to Result<T, E> or Option<T>, got Int"],
    );
    assert_findings(
        "function f(o: Option<Int>) -> Int { return o? }\nfunction main() { }",
        &["the `?` operator requires the enclosing function to return Option, but it returns Int"],
    );
    assert_findings(
        "function f(r: Result<Int, String>) -> Int { return r? }\nfunction main() { }",
        &["the `?` operator requires the enclosing function to return Result, but it returns Int"],
    );
}

#[test]
fn says_lambdas() {
    assert_in_main(
        "let f: (Int) -> Int = function(x: Int) -> Int { true }",
        &["lambda return type mismatch: expected `Int` but body evaluates to `Bool`"],
    );
}

#[test]
fn says_types() {
    assert_findings("function f(x: Nope) { }\nfunction main() { }", &["unknown type `Nope`"; 2]);
    assert_findings(
        "struct Box<T> { T x }\nfunction f(x: Box<Int, Int>) { }\nfunction main() { }",
        &["type `Box` expects 1 type argument(s), got 2"; 2],
    );
    assert_findings(
        "type Pair<T> = List<T>\nfunction f(x: Pair) { }\nfunction main() { }",
        &["generic type alias `Pair` requires type arguments"; 2],
    );
    assert_findings(
        "function f(x: dyn Nope) { }\nfunction main() { }",
        &["unknown trait `Nope` in `dyn`"; 2],
    );
    assert_findings(
        "trait Dup { function twin(self) -> Self }\nfunction f(x: dyn Dup) { }\nfunction main() { }",
        &["trait `Dup` is not object-safe: method `twin` returns `Self`. Use `<T: Dup>` for static dispatch instead."; 2],
    );
    assert_findings(
        "trait Eqs { function same(self, other: Self) -> Bool }\nfunction f(x: dyn Eqs) { }\nfunction main() { }",
        &["trait `Eqs` is not object-safe: method `same` takes a parameter of type `Self`. Use `<T: Eqs>` for static dispatch instead."; 2],
    );
    assert_findings(
        "trait Into<T> { function into(self) -> Int }\nfunction f(x: dyn Into) { }\nfunction main() { }",
        &["generic trait `Into` cannot be used as `dyn`; use `<T: Into<…>>` for static dispatch instead"; 2],
    );
}

#[test]
fn says_registration() {
    assert_findings(
        "function f() { }\nfunction f() { }\nfunction main() { }",
        &["function `f` is already defined"],
    );
    assert_findings(
        "struct A { Int x }\nstruct A { Int x }\nfunction main() { }",
        &["struct `A` is already defined"],
    );
    assert_findings(
        "enum A { X }\nenum A { Y }\nfunction main() { }",
        &["enum `A` is already defined"],
    );
    assert_findings(
        "trait A { function f(self) }\ntrait A { function f(self) }\nfunction main() { }",
        &["trait `A` is already defined"],
    );
    assert_findings(
        "type A = Int\ntype A = Bool\nfunction main() { }",
        &["type alias `A` is already defined"],
    );
    assert_findings("type A = A\nfunction main() { }", &["type alias `A` refers to itself"]);
    assert_findings(
        "struct A { Int x }\ntype A = List<A>\nfunction main() { }",
        &["type alias cycle detected involving `A`"],
    );
}

#[test]
fn says_reserved_names() {
    for (source, expected) in [
        (
            "function Option() { }",
            "`Option` is a reserved builtin name and cannot be used as a function name",
        ),
        (
            "struct Result { Int x }",
            "`Result` is a reserved builtin name and cannot be used as a struct name",
        ),
        (
            "enum Option { X }",
            "`Option` is a reserved builtin name and cannot be used as an enum name",
        ),
        (
            "trait Option { function f(self) }",
            "`Option` is a reserved builtin name and cannot be used as a trait name",
        ),
        (
            "type Result = Bool",
            "`Result` is a reserved builtin name and cannot be used as a type-alias name",
        ),
    ] {
        assert_eq!(
            findings(&format!("{source}\nfunction main() {{ }}"))[0],
            expected,
            "in {}",
            source
        );
    }
}

#[test]
fn says_implementations() {
    let show = "trait Show { function show(self, n: Int) -> String }\nstruct A { Int x }\n";
    let with = |imp: &str| format!("{show}{imp}\nfunction main() {{ }}");
    assert_findings(
        &with("impl Show for A { function show(self, n: Int) -> String { return \"a\" } }"),
        &[],
    );
    assert_findings(
        &with("impl Show for A { }"),
        &["impl of trait `Show` for `A` is missing method `show`"],
    );
    assert_findings(
        &with("impl Show for A { function show(self) -> String { return \"a\" } }"),
        &["method `show` has 0 parameter(s) but trait `Show` expects 1"],
    );
    assert_findings(
        &with("impl Show for A { function show(self, n: Bool) -> String { return \"a\" } }"),
        &["method `show` parameter `n` has type `Bool` but trait `Show` expects `Int`"],
    );
    assert_findings(
        &with("impl Show for A { function show(self, n: Int) -> Int { return 1 } }"),
        &["method `show` returns `Int` but trait `Show` expects `String`"],
    );
    assert_findings(
        &with("impl Nope for A { function f(self) { } }"),
        &["unknown trait `Nope`"],
    );
    assert_findings(
        &with("impl A { function f(self) { }\n function f(self) { } }"),
        &["method `f` is already defined for type `A`"],
    );
    assert_findings(&with("impl Nope { function f(self) { } }"), &["unknown type `Nope`"]);
    assert_findings(
        &with(
            "impl Show for A { function show(self, n: Int) -> String { return \"a\" } }\nimpl Show for A { function show(self, n: Int) -> String { return \"b\" } }",
        ),
        &[
            "method `show` is already defined for type `A`",
            "duplicate implementation of trait `Show` for type `A`",
        ],
    );
    assert_findings(
        &with("impl Option { function f(self) { } }"),
        &["cannot implement methods on builtin type `Option`: builtin types are reserved"],
    );
}

#[test]
fn says_method_calls() {
    let a = "struct A { Int x\n function add(self, n: Int, m: Int = 1) -> Int { return self.x + n + m } }\n";
    let with = |call: &str| format!("{a}function main() {{ let a: A = A(1)\n print({call}) }}");
    assert_findings(&with("a.add(1)"), &[]);
    assert_findings(&with("a.nope()"), &["no method `nope` on type `A`"]);
    assert_findings(
        &with("a.add(1, 2, 3)"),
        &["method `add` takes 2 argument(s), got 3"],
    );
    assert_findings(
        &with("a.add()"),
        &["method `add` missing argument(s): n"],
    );
    assert_findings(
        &with("a.add(true)"),
        &["argument 1 of `add`: expected `Int` but got `Bool`"],
    );
    assert_findings(&with("a.add<Int>(1)"), &["method `add` does not take type arguments"]);
    assert_findings(&with("a.y"), &["struct `A` has no field `y`"]);
    assert_in_main("let n: Int = 1\n n.f()", &["no method `f` on type `Int`"]);
    assert_in_main("print(1).f()", &["cannot call method on Void"]);
    assert_in_main(
        "let n: Int = \"a\".length<Int>()",
        &["built-in method `length` does not take type arguments"],
    );
}

#[test]
fn says_trait_calls() {
    let show = "trait Show { function show(self) -> String }\n";
    assert_findings(
        &format!("{show}function f<T: Show>(x: T) {{ print(x.nope()) }}\nfunction main() {{ }}"),
        &["no method `nope` on type `T`"],
    );
    assert_findings(
        &format!("{show}function f(x: dyn Show) {{ print(x.nope()) }}\nfunction main() {{ }}"),
        &["trait `Show` has no method `nope`"],
    );
    assert_findings(
        &format!("{show}function f(x: dyn Show) {{ print(x.show<Int>()) }}\nfunction main() {{ }}"),
        &["trait method `show` does not take type arguments"],
    );
}

#[test]
fn says_builtin_methods() {
    let with = |ty: &str, call: &str| {
        format!("function f(v: {ty}) {{ print(v.{call}) }}\nfunction main() {{ }}")
    };
    for (ty, name) in [
        ("List<Int>", "List"),
        ("Map<String, Int>", "Map"),
        ("String", "String"),
        ("Option<Int>", "Option"),
        ("Result<Int, String>", "Result"),
    ] {
        assert_findings(
            &with(ty, "nope()"),
            &[&format!("no method `nope` on type `{}`", name)],
        );
    }
    assert_findings(
        &with("List<Int>", "get()"),
        &["method `get` takes 1 argument(s), got 0"],
    );
    assert_findings(
        &with("List<Int>", "get(true)"),
        &["argument 1 of `get`: expected Int but got Bool"],
    );
    assert_findings(
        &with("List<Int>", "map(function(a: Int, b: Int) -> Int { a })"),
        &["map callback must take 1 parameter(s), got 2"],
    );
    assert_findings(
        &with("List<Int>", "filter(function(a: Bool) -> Bool { a })"),
        &["filter callback parameter 1: expected Int but got Bool"],
    );
    assert_findings(
        &with("List<Int>", "filter(function(a: Int) -> Int { a })"),
        &["filter callback must return Bool, got Int"],
    );
    assert_findings(
        &with("List<Int>", "flatMap(function(a: Int) -> Int { a })"),
        &["flatMap callback must return a List, got Int"],
    );
    assert_findings(
        &with("List<Int>", "reduce(0, function(a: Int, b: Int) -> Bool { true })"),
        &["reduce callback return type: expected Int but got Bool"],
    );
    assert_findings(
        &with("Option<Int>", "andThen(function(a: Int) -> Int { a })"),
        &["andThen callback must return Option, got Int"],
    );
    assert_findings(
        &with("Result<Int, String>", "andThen(function(a: Int) -> Int { a })"),
        &["andThen callback must return Result, got Int"],
    );
    assert_findings(
        &with("Result<Int, String>", "orElse(function(a: String) -> Int { 1 })"),
        &["orElse callback must return Result, got Int"],
    );
}

#[test]
fn says_builders() {
    assert_in_main("List.builder().push(1)", &[]);
    assert_in_main("Map.builder().set(\"a\", 1)", &[]);
    assert_in_main(
        "let xs: List<Int> = List.builder().freeze()\n let m: Map<String, Int> = Map.builder().freeze()\n print(xs)\n print(m)",
        &[],
    );
    assert_in_main("List.builder(1)", &["List.builder() takes no arguments"]);
    assert_in_main("Map.builder(1)", &["Map.builder() takes no arguments"]);
    assert_in_main(
        "List.builder<Int>()",
        &["built-in `List.builder` does not take type arguments"],
    );
    assert_in_main(
        "List.builder().nope()",
        &["no method `nope` on type `ListBuilder`"],
    );
    assert_in_main(
        "Map.builder().nope()",
        &["no method `nope` on type `MapBuilder`"],
    );
}

#[test]
fn builders_cannot_be_written_down() {
    assert_in_main(
        "let b: ListBuilder<Int> = List.builder()",
        &["unknown type `ListBuilder`"],
    );
    assert_in_main(
        "let b: MapBuilder<String, Int> = Map.builder()",
        &["unknown type `MapBuilder`"],
    );
    assert_in_main(
        "let b = List.builder()",
        &["cannot infer type for `b`: initializer has ambiguous type `ListBuilder<T>` (add a type annotation)"],
    );
}

#[test]
fn says_defaults() {
    assert_findings(
        "function f(a: Int = true) { }\nfunction main() { }",
        &["default value for parameter `a`: expected `Int` but got `Bool`"],
    );
    assert_findings(
        "function f<T>(xs: List<T> = []) { }\nfunction main() { }",
        &["default value for parameter `xs`: type `List<T>` references the function's own generic parameters — default expressions are evaluated at the caller's call site where those parameters are not bound"],
    );
}

#[test]
fn says_defers() {
    assert_in_main("defer print(1)", &[]);
    assert_in_main(
        "if true { defer print(1) }",
        &["`defer` must appear at the function's outermost statement level, not inside a loop body, conditional, match arm, or other nested block"],
    );
    assert_findings(
        "function f(o: Option<Int>) -> Option<Int> { defer print(o?)\n return o }\nfunction main() { }",
        &["`?` (try) is not allowed inside a `defer` expression"],
    );
    assert_findings(
        "function f(b: Bool) { defer if b { return }\n print(1) }\nfunction main() { }",
        &["`return` is not allowed inside a `defer` expression"],
    );
    assert_in_main("defer print(function(o: Option<Int>) -> Option<Int> { return Some(o?) })", &[]);
}

#[test]
fn says_annotations() {
    assert_findings(
        "@nope struct A { Int x }\nfunction main() { }",
        &["unknown annotation `@nope`; it will be ignored"],
    );
    assert_findings(
        "@jsonSerializable @jsonSerializable struct A { Int x }\nfunction main() { }",
        &["duplicate annotation `@jsonSerializable`; an annotation may appear at most once per declaration"],
    );
    assert_findings(
        "@jsonSerializable(1) struct A { Int x }\nfunction main() { }",
        &["`@jsonSerializable` does not take any arguments"],
    );
    assert_findings(
        "struct A { @jsonName(1) Int x }\nfunction main() { }",
        &["`@jsonName` expects a single string argument, e.g. `@jsonName(\"value\")`"],
    );
    assert_findings(
        "@jsonName(\"a\") struct A { Int x }\nfunction main() { }",
        &["`@jsonName` can only be applied to a struct field, not a struct"],
    );
    let unknown = analyze("@nope struct A { Int x }\nfunction main() { }").diagnostics;
    assert_eq!(unknown[0].severity, Severity::Warning);
}

#[test]
fn says_constraints() {
    assert_findings(
        "struct A { Int age where self > 0 }\nfunction main() { }",
        &[],
    );
    assert_findings(
        "struct A { Int age where self + 1 }\nfunction main() { }",
        &["constraint on field `age` must evaluate to Bool, got `Int`"],
    );
}

#[test]
fn says_import_in_one_file() {
    assert_findings(
        "import models { User }\nfunction main() { }",
        &["`import` is only valid in multi-module compilation; this input is being checked as a single file"],
    );
}

#[test]
fn says_endpoints() {
    let user = "struct User { Int id\n String name }\nstruct Other { Int id }\nstruct Doc { File data }\nstruct Mixed { File data\n String name }\n";
    let ep = |decl: &str| format!("{user}endpoint e: {decl}");
    assert_findings(
        &ep("GET \"/u\" { response Nope }"),
        &["unknown type `Nope`", "endpoint `e`: unknown response type"],
    );
    assert_findings(
        &ep("GET \"/u\" { body User }"),
        &["endpoint `e`: `body` is not allowed on Get endpoints"],
    );
    assert_findings(
        &ep("POST \"/u\" { body List<User> }"),
        &["endpoint `e`: unknown struct `List` in body type"],
    );
    assert_findings(
        &ep("POST \"/u\" { body (User) -> User }"),
        &["endpoint `e`: body base type must be a struct name"],
    );
    assert_findings(
        &ep("POST \"/u\" { body Nope }"),
        &["endpoint `e`: unknown struct `Nope` in body type"],
    );
    assert_findings(
        &ep("POST \"/u\" { body User pick { age } }"),
        &["endpoint `e`: field `age` does not exist on struct `User`"],
    );
    assert_findings(
        &ep("GET \"/u\" { response Mixed }"),
        &["endpoint `e`: a `File`-bearing response struct (`Mixed`) must contain exactly one field of type `File` and nothing else (binary download)"],
    );
    assert_findings(
        &ep("GET \"/u\" { response User\n pagination { offset } }"),
        &["endpoint `e`: `pagination` requires the response to be a `List<T>` (got User); a paginated response wraps a list — `Option<List<T>>` and non-list responses are not allowed"],
    );
    assert_findings(
        &ep("GET \"/u\" { pagination { offset } }"),
        &["endpoint `e`: `pagination` requires the response to be a `List<T>` (got no response); a paginated response wraps a list — `Option<List<T>>` and non-list responses are not allowed"],
    );
    assert_findings(
        &ep("GET \"/u\" { response User\n error { A(404)\n A(405)\n B(200) } }"),
        &[
            "endpoint `e`: duplicate error variant `A`",
            "endpoint `e`: status code 200 is not a client/server error (expected 400–599)",
        ],
    );
    assert_findings(
        &ep("GET \"/u\" { query { Int page = true } response User }"),
        &["endpoint `e`: default value for query param `page` does not match type `Int`"],
    );
    assert_findings(
        &ep("GET \"/u\" { headers { Int tries = true } response User }"),
        &["endpoint `e`: default value for header `tries` does not match type `Int`"],
    );
    assert_findings(
        &format!("{user}endpoint e: GET \"/u\" {{ response User }}\nendpoint e: GET \"/v\" {{ response User }}"),
        &["duplicate endpoint name `e`"],
    );
    assert_findings(
        &format!("{user}endpoint e: GET \"/u/{{id}}\" {{ response User }}\nendpoint f: GET \"/u/{{key}}\" {{ response User }}"),
        &["endpoint `f`: route `GET /u/{key}` conflicts with endpoint `e`"],
    );
}

#[test]
fn says_response_headers() {
    let user = "struct User { Int id }\nstruct Doc { File data }\n";
    let ep = |decl: &str| format!("{user}endpoint e: GET \"/u/{{id}}\" {{ {decl} }}");
    assert_findings(
        &ep("response Doc headers { String tag }"),
        &["endpoint `e`: a binary-download response (a single-`File` response struct) cannot also declare response headers — the response body is the raw file stream, with no envelope to carry header fields"],
    );
    assert_findings(
        &ep("response List<User> headers { String tag }\n pagination { cursor }"),
        &["endpoint `e`: `pagination` and response headers cannot be combined — both wrap the response in a generated envelope and a handler has one return value. Carry pagination metadata as response headers instead, or drop one. See docs/known-issues.md."],
    );
    assert_findings(
        &ep("response User headers { String tag = \"a\" }"),
        &["endpoint `e`: response header `tag` cannot have a default value (response headers are set by the handler, never received)"],
    );
    assert_findings(
        &ep("response User headers { String tag as \"A\"\n String tag as \"B\" }"),
        &["endpoint `e`: response header `tag` is declared more than once"],
    );
    assert_findings(
        &ep("response User headers { String a as \"X-Tag\"\n String b as \"x-tag\" }"),
        &["endpoint `e`: response header wire name `x-tag` is declared by more than one header"],
    );
    assert_findings(
        &ep("headers { Int id }\n response User"),
        &["endpoint `e`: request header `id` collides with another endpoint input (path param, query param, or header) of the same name"],
    );
}

#[test]
fn says_response_statuses() {
    let user = "struct User { Int id }\nstruct Other { Int id }\nstruct Doc { File data }\n";
    let ep = |decl: &str| format!("{user}endpoint e: POST \"/u\" {{ {decl} }}");
    assert_findings(&ep("response { 200: User\n 201: User\n 204 }"), &[]);
    assert_findings(
        &ep("response { 200: User\n 404: User }"),
        &["endpoint `e`: response status 404 is not a success code (2xx); failures belong in the `error { }` block"],
    );
    assert_findings(
        &ep("response { 200: User\n 204: User }"),
        &["endpoint `e`: status 204 cannot declare a body type — HTTP forbids a body on 204 responses; list it typeless (`204`)"],
    );
    assert_findings(
        &ep("response { 200: User\n 200: User }"),
        &["endpoint `e`: duplicate response status 200"],
    );
    assert_findings(
        &ep("response { 200: User\n 201: Other }"),
        &["endpoint `e`: all typed response statuses must share one body type (Option A); found `User` and `Other` — use separate endpoints or `error { }` for different shapes"],
    );
    assert_findings(
        &ep("response { 200: Int\n 204 }"),
        &["endpoint `e`: response status 200 body type must be a named struct (got `Int`) — a multi-status `response { }` block carries one struct shape; use the bare `response <Type>` form for list or scalar responses"],
    );
    assert_findings(
        &ep("response { 200: Doc\n 204 }"),
        &["endpoint `e`: response status 200 cannot carry file-bearing struct `Doc` — a multi-status `response { }` block is JSON-only; use the bare `response <Type>` form for a binary download"],
    );
    assert_findings(
        &ep("response { 200: User\n 204 } headers { String tag }"),
        &["endpoint `e`: a multi-status `response { }` block cannot also declare response headers — both wrap the return value in a generated envelope and a handler has one return value. See docs/known-issues.md"],
    );
    assert_findings(
        &ep("response { 200: User\n 204 }\n pagination { offset }"),
        &["endpoint `e`: a multi-status `response { }` block cannot also be paginated — both wrap the return value in a generated envelope. See docs/known-issues.md"],
    );
}

#[test]
fn says_files() {
    assert_findings(
        "function f(x: File) { }\nfunction main() { }",
        &["`File` is only allowed as a field of a struct that an endpoint uses as its body or response"; 2],
    );
    assert_findings(
        "struct Doc { File data }\nfunction f(d: Doc) { }\nfunction main() { }",
        &["struct `Doc` carries a `File` and is a body-only type: it may only be the body or the response of an endpoint"; 2],
    );
    assert_findings(
        "struct Up { File data\n List<Int> tags }\nendpoint e: POST \"/u\" { body Up }",
        &["endpoint `e`: field `tags` of a multipart (file-upload) body must be a `File`, a scalar (`Int`/`Float`/`Bool`/`String`), or an `Option` of one of those — `List<Int>` cannot be sent as a form field"],
    );
}

// ── Programs of several modules ──────────────────────────────────────

/// The entry module, then the others by their dotted paths.
fn analyze_modules(entry: &str, others: &[(&str, &str)]) -> Analysis<'static> {
    let mut modules = vec![ResolvedSourceModule {
        path: ModulePath::entry(),
        program: parse_from(entry, 0),
        is_entry: true,
    }];
    for (i, (path, source)) in others.iter().enumerate() {
        modules.push(ResolvedSourceModule {
            path: ModulePath(path.split('.').map(|s| s.to_string()).collect()),
            program: parse_from(source, i as u32 + 1),
            is_entry: false,
        });
    }
    check_modules(Box::leak(Box::new(modules)))
}

fn module_findings(entry: &str, others: &[(&str, &str)]) -> Vec<String> {
    analyze_modules(entry, others)
        .diagnostics
        .iter()
        .map(|d| d.message.clone())
        .collect()
}

fn assert_module_findings(entry: &str, others: &[(&str, &str)], expected: &[&str]) {
    assert_eq!(module_findings(entry, others), expected, "in {}", entry);
}

const LIB: (&str, &str) = (
    "lib.util",
    "public function twice(n: Int) -> Int { return n + n }\n\
     function hidden() -> Int { return 1 }\n\
     public struct Open { public Int x }\n\
     public struct Closed { public Int x\n Int y }\n\
     public enum Color { Red\n Green }\n\
     public trait Show { function show(self) -> String }\n\
     public type Number = Int",
);

#[test]
fn named_imports_bring_public_names() {
    assert_module_findings(
        "import lib.util { twice, Open, Color, Number }\n\
         function main() { let n: Number = twice(2)\n let o: Open = Open(n)\n print(o.x)\n print(Red) }",
        &[LIB],
        &[],
    );
    assert_module_findings(
        "import lib.util { twice as double }\nfunction main() { print(double(2)) }",
        &[LIB],
        &[],
    );
    assert_module_findings(
        "import lib.util { twice as double }\nfunction main() { print(twice(2)) }",
        &[LIB],
        &["undefined function `twice`"],
    );
}

#[test]
fn wildcard_imports_bring_all_public_names() {
    assert_module_findings(
        "import lib.util { * }\nfunction main() { print(twice(2)) }",
        &[LIB],
        &[],
    );
    assert_module_findings(
        "import lib.util { * }\nfunction main() { print(hidden()) }",
        &[LIB],
        &["undefined function `hidden`"],
    );
}

#[test]
fn refused_imports() {
    assert_module_findings(
        "import nope { x }\nfunction main() { }",
        &[],
        &["cannot find module `nope`"],
    );
    assert_module_findings(
        "import lib.util { nope }\nfunction main() { }",
        &[LIB],
        &["`nope` is not declared in module `lib.util`"],
    );
    let private = analyze_modules("import lib.util { hidden }\nfunction main() { }", &[LIB]);
    assert_eq!(private.diagnostics.len(), 1);
    let d = &private.diagnostics[0];
    assert_eq!(d.message, "`hidden` is private to module `lib.util`");
    assert_eq!(d.notes.len(), 1);
    assert_eq!(d.notes[0].1, "declared here");
    assert_eq!(
        d.suggestion.as_deref(),
        Some("mark `hidden` as `public` in `lib.util` to export it")
    );
    let both = analyze_modules(
        "import twin { Foo }\nfunction main() { }",
        &[("twin", "public function Foo() { }\npublic struct Foo { Int x }")],
    );
    assert_eq!(both.diagnostics.len(), 1);
    assert_eq!(
        both.diagnostics[0].message,
        "`Foo` is declared in multiple namespaces in module `twin` (function, struct); the function declaration will be imported — rename one of the declarations to disambiguate"
    );
    assert_eq!(both.diagnostics[0].notes[0].1, "`Foo` declared as a function here");
    assert_eq!(both.diagnostics[0].notes[1].1, "`Foo` declared as a struct here");
}

#[test]
fn namespace_calls() {
    let ok = analyze_modules(
        "import lib.util\nfunction main() { print(util.twice(2)) }",
        &[LIB],
    );
    assert!(ok.diagnostics.is_empty(), "{:?}", ok.diagnostics);
    assert_eq!(ok.module.namespace_call_targets.len(), 1);
    assert_eq!(ok.module.namespace_call_targets.entries[0].1, "lib.util::twice");
    assert_module_findings(
        "import lib.util as u\nfunction main() { print(u.twice(true)) }",
        &[LIB],
        &["argument 1 of `u.twice`: expected `Int` but got `Bool`"],
    );
    assert_module_findings(
        "import lib.util\nfunction main() { print(util.nope()) }",
        &[LIB],
        &["module `lib.util` has no function `nope`"],
    );
    assert_module_findings(
        "import lib.util\nfunction main() { print(util.hidden()) }",
        &[LIB],
        &["function `hidden` is private to module `lib.util`"],
    );
    assert_module_findings(
        "import lib.util\nfunction main() { print(util.twice<Int>(1)) }",
        &[LIB],
        &["function `util.twice` does not take type arguments"],
    );
    assert_module_findings(
        "import lib.util\nfunction main() { let util: String = \"a\"\n print(util.length()) }",
        &[LIB],
        &[],
    );
}

#[test]
fn private_fields_of_other_modules() {
    let import = "import lib.util { Closed }\n";
    let built = analyze_modules(
        &format!("{import}function main() {{ let c: Closed = Closed(1, 2)\n print(c.x) }}"),
        &[LIB],
    );
    assert_eq!(built.diagnostics.len(), 1);
    assert_eq!(
        built.diagnostics[0].message,
        "field `y` of struct `Closed` is private to module `lib.util` and cannot be set from outside that module"
    );
    assert_eq!(
        built.diagnostics[0].suggestion.as_deref(),
        Some("mark `y` as `public` in the struct definition to allow construction")
    );
    let read = analyze_modules(
        &format!("{import}function f(c: Closed) {{ print(c.y) }}\nfunction main() {{ }}"),
        &[LIB],
    );
    assert_eq!(
        read.diagnostics[0].message,
        "field `y` of struct `lib.util::Closed` is private to module `lib.util`"
    );
    assert_eq!(
        read.diagnostics[0].suggestion.as_deref(),
        Some("mark `y` as `public` in the struct definition to export it")
    );
    let written = analyze_modules(
        &format!("{import}function f(c: Closed) {{ let mut d: Closed = c\n d.y = 1 }}\nfunction main() {{ }}"),
        &[LIB],
    );
    assert_eq!(
        written.diagnostics[0].message,
        "field `y` of struct `lib.util::Closed` is private to module `lib.util` and cannot be set from outside that module"
    );
    assert_eq!(
        written.diagnostics[0].suggestion.as_deref(),
        Some("mark `y` as `public` in the struct definition to allow assignment")
    );
}

#[test]
fn json_calls() {
    let import = "import json\nimport lib.util { Open, Closed, Color }\n";
    let with = |body: &str| {
        module_findings(&format!("{import}function main() {{ {body} }}"), &[LIB])
    };
    assert!(with("let s: String = json.encode(1)\n print(json.decode<Int>(s))").is_empty());
    assert!(with("print(json.encode(Open(1)))\n print(json.encode(Red))").is_empty());
    assert_eq!(with("print(json.encode())"), ["json.encode() takes 1 argument, got 0"]);
    assert_eq!(
        with("print(json.encode<Int>(1))"),
        ["`json.encode` does not take type arguments"]
    );
    assert_eq!(
        with("print(json.pretty(1))"),
        ["`json.pretty` is not available yet — JSON serialization lands in Phase 4.6"]
    );
    assert_eq!(
        with("print(json.decode<Int>())"),
        ["json.decode() takes 1 argument, got 0"]
    );
    assert_eq!(
        with("print(json.decode<Int>(1))"),
        ["json.decode() expects a `String` argument, got `Int`"]
    );
    assert_eq!(
        with("print(json.decode(\"1\"))"),
        ["json.decode requires an explicit type argument, e.g. `json.decode<Int>(s)`"]
    );
    assert_eq!(
        with("print(json.decode<Int, Bool>(\"1\"))"),
        ["json.decode takes a single type argument"]
    );
    assert_eq!(
        with("print(json.decode<Map<Int, Int>>(\"1\"))"),
        ["`json.decode` does not support `Map<Int, Int>` yet — supported today: Int, Float, Bool, String, `Option<T>`, `List<T>`, `Map<String, V>`, and non-generic structs and enums of supported types (non-`String`-key maps are a deferred follow-up)"]
    );
    assert_eq!(
        with("print(json.encode(function(x: Int) -> Int { x }))"),
        ["`json.encode` does not support `(Int) -> Int` yet — supported today: Int, Float, Bool, String, and structs of those (more types land in later Phase 4.6 slices)"]
    );
    assert_eq!(
        with("print(json.decode<Closed>(\"1\"))"),
        ["`json.decode` cannot construct struct `lib.util::Closed` here: field `y` is private to module `lib.util`"]
    );
    let a = analyze_modules(
        &format!("{import}function main() {{ print(json.encode(1))\n print(json.decode<Bool>(\"1\")) }}"),
        &[LIB],
    );
    assert_eq!(a.module.json_encode_types.len(), 1);
    assert!(a.module.json_encode_types.entries[0].1.is_int());
    assert_eq!(a.module.json_decode_types.len(), 1);
    assert!(a.module.json_decode_types.entries[0].1.is_bool());
}

#[test]
fn implementations_across_modules() {
    assert_module_findings(
        "import lib.util { Open }\nimpl Open { function f(self) { } }\nfunction main() { }",
        &[LIB],
        &["cannot implement methods on type `Open` from module `lib.util`: `impl` blocks must live in the same module as the type they target"],
    );
    assert_module_findings(
        "function main() { }",
        &[
            ("a", "public struct Twin { Int x }"),
            ("b", "public struct Twin { Int x }"),
            ("c", "impl Twin { function f(self) { } }"),
        ],
        &["cannot implement methods on type `Twin`: it is declared in modules `a`, `b` — `impl` blocks must live in the same module as the type they target"],
    );
    assert_module_findings(
        "import lib.util { Show }\nstruct Mine { Int x }\nimpl Show for Mine { function show(self) -> String { return \"m\" } }\nfunction main() { print(Mine(1).show()) }",
        &[LIB],
        &["unknown trait `Show`", "no method `show` on type `Mine`"],
    );
}

#[test]
fn main_only_in_the_entry_module() {
    assert_module_findings(
        "function main() { }",
        &[("other", "function main() { }")],
        &["`main` may only be declared in the entry module"],
    );
}

#[test]
fn same_variant_of_two_enums() {
    let found = analyze("enum A { X(Int) }\nenum B { X(Int) }\nfunction main() { print(X(1)) }").diagnostics;
    assert_eq!(found.len(), 1);
    assert_eq!(
        found[0].message,
        "variant `X` is ambiguous: could resolve to `A::X`, `B::X`"
    );
    assert_eq!(found[0].notes[0].1, "`X` declared as a variant of `A` here");
    assert_eq!(found[0].notes[1].1, "`X` declared as a variant of `B` here");
}

// ── The result as a whole ────────────────────────────────────────────

#[test]
fn ids_follow_declaration_order() {
    let a = check_full(
        "function f() { }\nstruct A { Int x\n function m(self) -> Int { return self.x } }\nfunction g() { }\nenum E { X }\ntrait T { function t(self) }\nstruct B { Int y\n function m(self) -> Int { return self.y }\n function n(self) -> Int { return 1 } }\nfunction main() { }",
    );
    let m = &a.module;
    for (i, name) in ["f", "g", "main"].iter().enumerate() {
        assert_eq!(m.function_id(name).unwrap().0, i as u32);
        assert_eq!(m.function(m.function_id(name).unwrap()).func_id.0, i as u32);
    }
    assert_eq!(m.user_method_offset, 3);
    for (i, (ty, name)) in [("A", "m"), ("B", "m"), ("B", "n")].iter().enumerate() {
        let id = m.method_func_id(ty, name).unwrap();
        assert_eq!(id.0, 3 + i as u32);
        assert_eq!(m.user_method_index(id), Some(i));
        assert_eq!(m.user_method(id).func_id.unwrap().0, id.0);
        assert!(m.method_info_by_name(ty, name).is_some());
    }
    assert_eq!(m.user_method_index(m.function_id("main").unwrap()), None);
    assert_eq!(m.struct_id("A").unwrap().0, 0);
    assert_eq!(m.struct_id("B").unwrap().0, 1);
    assert_eq!(m.enum_id("Option").unwrap().0, 0);
    assert_eq!(m.enum_id("Result").unwrap().0, 1);
    assert_eq!(m.enum_id("E").unwrap().0, 2);
    assert_eq!(m.trait_id("T").unwrap().0, 0);
    assert!(m.function_id("nope").is_none());
    assert!(m.method_func_id("A", "n").is_none());
}

#[test]
fn names_and_ids_agree() {
    let a = check_full(
        "function f() { }\nstruct A { Int x\n function m(self) -> Int { return self.x } }\nenum E { X }\ntrait T { function t(self) }\nfunction main() { }",
    );
    let m = &a.module;
    let functions: Vec<&str> = m.functions_with_names().iter().map(|e| e.0).collect();
    assert_eq!(functions, ["f", "main"]);
    let structs: Vec<&str> = m.structs_with_names().iter().map(|e| e.0).collect();
    assert_eq!(structs, ["A"]);
    let enums: Vec<&str> = m.enums_with_names().iter().map(|e| e.0).collect();
    assert_eq!(enums, ["Option", "Result", "E"]);
    let traits: Vec<&str> = m.traits_with_names().iter().map(|e| e.0).collect();
    assert_eq!(traits, ["T"]);
    for (name, id, info) in m.functions_with_names() {
        assert_eq!(m.function_id(name).unwrap().0, id.0);
        assert_eq!(info.func_id.0, id.0);
    }
    assert_eq!(m.user_methods_with_names().len(), 1);
}

#[test]
fn the_first_declaration_stays() {
    let a = analyze(
        "function f(a: Int) { }\nfunction f(a: Bool, b: Bool) { }\nstruct A { Int x }\nstruct A { Bool y\n Bool z }\nfunction main() { }",
    );
    assert_eq!(a.diagnostics.len(), 2);
    let f = a.module.function_info_by_name("f").unwrap();
    assert_eq!(f.params.len(), 1);
    assert!(f.params[0].is_int());
    assert_eq!(a.module.struct_info_by_name("A").unwrap().fields.len(), 1);
    assert_eq!(a.module.functions.len(), 2);
}

#[test]
fn endpoints_stand_in_declaration_order() {
    let a = check_full(
        "struct U { Int id }\nendpoint b: GET \"/b\" { response U }\nendpoint a: GET \"/a\" { response U }\nendpoint c: GET \"/c\" { response U }",
    );
    let names: Vec<&str> = a.endpoints.iter().map(|e| e.name.as_str()).collect();
    assert_eq!(names, ["b", "a", "c"]);
}

#[test]
fn pick_keeps_what_omit_drops() {
    let user = "struct U { Int id\n String name\n Bool old }\n";
    let fields = |modifiers: &str| -> Vec<(String, bool)> {
        first_endpoint(&format!("{user}endpoint e: POST \"/u\" {{ body U {modifiers} }}"))
            .body
            .unwrap()
            .fields
            .iter()
            .map(|f| (f.name.clone(), f.optional))
            .collect()
    };
    let all: Vec<String> = fields("").into_iter().map(|f| f.0).collect();
    assert_eq!(all, ["id", "name", "old"]);
    let picked: Vec<String> = fields("pick { id, old }").into_iter().map(|f| f.0).collect();
    let left: Vec<String> = fields("omit { id, old }").into_iter().map(|f| f.0).collect();
    assert_eq!(picked, ["id", "old"]);
    assert_eq!(left, ["name"]);
    assert!(fields("partial").iter().all(|f| f.1));
    assert_eq!(
        fields("partial { name }"),
        [
            ("id".to_string(), false),
            ("name".to_string(), true),
            ("old".to_string(), false),
        ]
    );
}

#[test]
fn lambdas_capture_each_name_once() {
    let a = check_full(
        "function main() { let a: Int = 1\n let mut b: Int = 2\n let f: (Int) -> Int = function(x: Int) -> Int { a + b + a + x }\n b = f(1) }",
    );
    assert_eq!(a.module.lambda_captures.len(), 1);
    let captured: Vec<(&str, bool)> = a.module.lambda_captures.entries[0]
        .1
        .iter()
        .map(|c| (c.name.as_str(), c.is_mut))
        .collect();
    assert_eq!(captured, [("a", false), ("b", true)]);
}

#[test]
fn a_wrong_expression_is_reported_once() {
    assert_in_main("print(nope + 1 * nope2)", &["undefined variable `nope`", "undefined variable `nope2`"]);
    assert_in_main("let x: Int = nope\n print(x + 1)", &["undefined variable `nope`"]);
    assert_findings(
        "function f(a: Nope) -> Nope { return a }\nfunction main() { }",
        &["unknown type `Nope`"; 4],
    );
}

#[test]
fn recorded_type_arguments_are_complete() {
    let a = analyze(
        "function id<T>(x: T) -> T { return x }\nfunction main() { print(id(1))\n print(nope)\n print(id(nope)) }",
    );
    assert_eq!(a.diagnostics.len(), 2);
    assert_eq!(a.module.call_type_args.len(), 1);
    assert!(a.module.call_type_args.entries[0].1[0].is_int());
}

#[test]
fn trait_objects_take_implementers() {
    let show = "trait Show { function show(self) -> String }\nstruct A { Int x }\nstruct B { Int x }\nimpl Show for A { function show(self) -> String { return \"a\" } }\nfunction f(s: dyn Show) { print(s.show()) }\n";
    assert_findings(&format!("{show}function main() {{ f(A(1)) }}"), &[]);
    assert_findings(
        &format!("{show}function main() {{ f(B(1)) }}"),
        &["argument 1 of `f`: expected `dyn Show` but got `B`"],
    );
    assert_findings(
        &format!("{show}function g(s: dyn Show) -> A {{ return s }}\nfunction main() {{ }}"),
        &["return type mismatch: expected A but got dyn Show"],
    );
}

#[test]
fn types_have_one_spelling() {
    assert_eq!(list_of(Type::Int).text(), "List<Int>");
    assert_eq!(map_of(Type::String, option_of(Type::Bool)).text(), "Map<String, Option<Bool>>");
    assert_eq!(function_of(vec![Type::Int, Type::Bool], Type::Void).text(), "(Int, Bool) -> Void");
    assert_eq!(result_of(type_var("T"), Type::Error).text(), "Result<T, <error>>");
    assert_eq!(Type::Dyn("Show".to_string()).text(), "dyn Show");
    assert!(same_type(&list_of(Type::Int), &list_of(Type::Int)));
    assert!(!same_type(&list_of(Type::Int), &list_of(Type::Bool)));
}

#[test]
fn substitution_fills_type_variables() {
    let mut bound: Table<String, Type> = Table::new();
    bound.put("T".to_string(), Type::Int);
    let filled = substitute(&function_of(vec![type_var("T")], list_of(type_var("U"))), &bound);
    assert_eq!(filled.text(), "(Int) -> List<U>");
    let empty: Table<String, Type> = Table::new();
    assert_eq!(substitute(&list_of(type_var("T")), &empty).text(), "List<T>");
    assert_eq!(substitute(&list_of(Type::Int), &bound).text(), "List<Int>");
}

#[test]
fn tables_find_what_was_put() {
    let mut t: Table<String, u32> = Table::new();
    t.put("a".to_string(), 1);
    t.put("b".to_string(), 2);
    t.put("a".to_string(), 3);
    assert_eq!(t.len(), 2);
    assert_eq!(t.get(&"a".to_string()), Some(&3));
    assert_eq!(t.get(&"b".to_string()), Some(&2));
    assert_eq!(t.get(&"c".to_string()), None);
    assert!(t.has(&"b".to_string()) && !t.has(&"c".to_string()));
    let mut inner: Table<String, Table<String, u32>> = Table::new();
    inner.put_inner("A".to_string(), "m".to_string(), 1);
    inner.put_inner("A".to_string(), "n".to_string(), 2);
    inner.put_inner("B".to_string(), "m".to_string(), 3);
    assert_eq!(inner.len(), 2);
    assert_eq!(inner.get(&"A".to_string()).unwrap().get(&"n".to_string()), Some(&2));
    assert_eq!(inner.get(&"B".to_string()).unwrap().get(&"m".to_string()), Some(&3));
}

#[test]
fn keys_of_modules() {
    let path = ModulePath(vec!["lib".to_string(), "util".to_string()]);
    assert_eq!(path.text(), "lib.util");
    assert_eq!(module_qualify(&path, "twice"), "lib.util::twice");
    assert_eq!(module_qualify(&ModulePath::entry(), "twice"), "twice");
    assert_eq!(bare_name("lib.util::twice"), "twice");
    assert_eq!(bare_name("twice"), "twice");
    assert!(ModulePath::builtin().is_builtin() && !path.is_builtin());
}

#[test]
fn routes_compare_by_shape() {
    assert_eq!(
        route_signature(HttpMethod::Get, "/u/{id}"),
        route_signature(HttpMethod::Get, "/u/{key}")
    );
    assert_ne!(
        route_signature(HttpMethod::Get, "/u"),
        route_signature(HttpMethod::Post, "/u")
    );
    assert_eq!(extract_path_params("/a/{x}/b/{y}"), ["x", "y"]);
    assert_eq!(apply_version_prefix(Some("v1"), "/u"), "/v1/u");
    assert_eq!(apply_version_prefix(Some("v1"), "u"), "/v1/u");
    assert_eq!(apply_version_prefix(None, "/u"), "/u");
    assert_eq!(header_wire_name("requestId"), "Request-Id");
    assert!(is_same_header("X-Tag", "x-tag") && !is_same_header("X-Tag", "Y-Tag"));
}

#[test]
fn one_module_is_checked_as_a_file() {
    let source = "struct A { Int x\n function m(self, n: Int = 1) -> Int { return self.x + n } }\nfunction f(a: A) -> Int { return a.m() + nope }\nfunction main() { print(f(A(1))) }";
    let file = analyze(source);
    let module = analyze_modules(source, &[]);
    assert_eq!(file.diagnostics.len(), 1);
    assert_eq!(format!("{:?}", file.diagnostics), format!("{:?}", module.diagnostics));
    assert_eq!(
        format!("{:?}", file.module.functions),
        format!("{:?}", module.module.functions)
    );
    assert_eq!(
        format!("{:?}", file.module.user_methods),
        format!("{:?}", module.module.user_methods)
    );
    assert_eq!(
        format!("{:?}", file.module.expr_types),
        format!("{:?}", module.module.expr_types)
    );
}

#[test]
fn a_name_is_declared_once_for_each_kind() {
    assert_findings("function A() { }\nstruct A { Int x }\nfunction main() { }", &[]);
    assert_module_findings(
        "function f() { }\nfunction main() { }",
        &[("other", "function f() { }")],
        &[],
    );
    assert_module_findings(
        "function main() { }",
        &[("other", "function f() { }\nfunction f() { }")],
        &["function `f` is already defined"],
    );
    assert_findings(
        "enum Option<T> { Some(T)\n None }\nenum Option<T> { Some(T)\n None }\nfunction main() { }",
        &[],
    );
}

#[test]
fn endpoints_of_all_modules_differ() {
    assert_module_findings(
        "struct U { Int id }\nendpoint a: GET \"/u\" { response U }",
        &[("other", "struct U { Int id }\nendpoint a: GET \"/v\" { response U }")],
        &["duplicate endpoint name `a`"],
    );
    assert_module_findings(
        "struct U { Int id }\nendpoint a: GET \"/u\" { response U }",
        &[("other", "struct U { Int id }\nendpoint b: GET \"/u\" { response U }")],
        &["endpoint `b`: route `GET /u` conflicts with endpoint `a`"],
    );
}

#[test]
fn pinning_fills_gaps_only() {
    let a = check_full(
        "function main() { let xs: List<Int> = []\n let ys: List<Int> = [1]\n let o: Option<Bool> = None\n print(xs)\n print(ys)\n print(o) }",
    );
    let texts: Vec<String> = a.module.expr_types.entries.iter().map(|e| e.1.text()).collect();
    assert_eq!(texts[0], "List<Int>");
    assert!(texts.contains(&"Option<Bool>".to_string()));
    assert!(!texts.iter().any(|t| t.contains("<T>")), "{:?}", texts);
    let open = check_full("function f<T>(x: T) -> List<T> { let xs: List<T> = []\n return xs }\nfunction main() { }");
    assert!(open.module.expr_types.entries.iter().all(|e| e.1.text() == "List<T>"));
}

#[test]
fn parameters_have_types_and_names() {
    let a = check_full(
        "struct A { Int x\n function m(self, n: Int, k: Int = 1) -> Int { return n + k } }\nfunction f(a: Int, b: Bool = true) { }\nfunction main() { }",
    );
    for f in &a.module.functions {
        assert_eq!(f.params.len(), f.param_names.len());
    }
    for m in &a.module.user_methods {
        assert_eq!(m.params.len(), m.param_names.len());
    }
    let m = a.module.method_info_by_name("A", "m").unwrap();
    assert_eq!(m.param_names, ["n", "k"]);
    assert_eq!(m.default_param_exprs.entries[0].0, 1);
    let or = &a.module.builtin_methods.get(&"Option".to_string()).unwrap();
    assert_eq!(or.get(&"unwrapOr".to_string()).unwrap().param_names, ["arg1"]);
}

#[test]
fn endpoints_with_findings_are_left_out() {
    let a = analyze(
        "struct U { Int id }\nendpoint bad: GET \"/u\" { body U\n response U }\nendpoint good: GET \"/v\" { response U }",
    );
    let said: Vec<&str> = a.diagnostics.iter().map(|d| d.message.as_str()).collect();
    assert_eq!(said, ["endpoint `bad`: `body` is not allowed on Get endpoints"]);
    let names: Vec<&str> = a.endpoints.iter().map(|e| e.name.as_str()).collect();
    assert_eq!(names, ["good"]);
}

#[test]
fn endpoints_with_findings_keep_their_claims() {
    let a = analyze(
        "struct U { Int id }\nendpoint e: GET \"/u\" { body U\n response U }\nendpoint e: GET \"/v\" { response U }\nendpoint f: GET \"/u\" { response U }",
    );
    let said: Vec<&str> = a.diagnostics.iter().map(|d| d.message.as_str()).collect();
    assert_eq!(
        said,
        [
            "endpoint `e`: `body` is not allowed on Get endpoints",
            "duplicate endpoint name `e`",
            "endpoint `f`: route `GET /u` conflicts with endpoint `e`",
        ]
    );
    assert!(a.endpoints.is_empty());
}

#[test]
fn a_return_decides_the_type_of_a_block() {
    assert_findings(
        "function f() -> Int { let x: Int = if true { return 1\n \"a\" } else { 2 }\n return x }\nfunction main() { print(f()) }",
        &[],
    );
    assert_findings(
        "function f() -> Int { let x: Int = if true { \"a\" } else { 2 }\n return x }\nfunction main() { print(f()) }",
        &["if/else branches have incompatible types: String and Int"],
    );
    assert_in_main(
        "let f: (Int) -> Int = function(x: Int) -> Int { return x\n \"a\" }\n print(f(1))",
        &[],
    );
}

#[test]
fn a_qualified_name_needs_an_import() {
    let with_param = |entry: &str, name: &str| -> Vec<String> {
        let mut program = parse_from(entry, 0);
        for d in &mut program.declarations {
            if let Declaration::Function(f) = d {
                if f.name == "f" {
                    let span = f.span;
                    f.params[0].type_annotation = TypeExpr::Named(NamedType {
                        name: name.to_string(),
                        span,
                    });
                }
            }
        }
        let modules = vec![
            ResolvedSourceModule {
                path: ModulePath::entry(),
                program,
                is_entry: true,
            },
            ResolvedSourceModule {
                path: ModulePath(vec!["lib".to_string(), "util".to_string()]),
                program: parse_from(LIB.1, 1),
                is_entry: false,
            },
        ];
        check_modules(Box::leak(Box::new(modules)))
            .diagnostics
            .iter()
            .map(|d| d.message.clone())
            .collect()
    };
    let plain = "function f(x: Int) { }\nfunction main() { }";
    assert_eq!(
        with_param(plain, "lib.util::Open"),
        ["unknown type `lib.util::Open`"; 2]
    );
    let imported = "import lib.util { Open }\nfunction f(x: Int) { }\nfunction main() { }";
    assert_eq!(with_param(imported, "Open"), Vec::<String>::new());
    assert_eq!(
        with_param(imported, "lib.util::Open"),
        ["unknown type `lib.util::Open`"; 2]
    );
}

#[test]
fn open_type_arguments_are_not_recorded() {
    let id = "function id<T>(x: T) -> T { return x }\n";
    let open = analyze(&format!("{id}function main() {{ id([]) }}"));
    assert_eq!(open.module.call_type_args.len(), 0);
    let closed = check_full(&format!("{id}function main() {{ id([1]) }}"));
    assert_eq!(closed.module.call_type_args.len(), 1);
    assert_eq!(closed.module.call_type_args.entries[0].1[0].text(), "List<Int>");
    let inner = check_full(&format!("{id}function twice<U>(x: U) -> U {{ return id(id(x)) }}\nfunction main() {{ }}"));
    assert_eq!(inner.module.call_type_args.len(), 2);
    for e in &inner.module.call_type_args.entries {
        assert!(same_type(&e.1[0], &type_var("U")));
    }
}

#[test]
fn spellings_tell_types_apart() {
    let boxed = |name: &str, arg: Type| Type::Generic(name.to_string(), vec![arg]);
    let a = boxed("lib.a::W", Type::Int);
    let b = boxed("lib.b::W", Type::Int);
    assert_eq!(canonical_type_spelling(&a), "lib.a::W<Int>");
    assert_eq!(canonical_type_spelling(&b), "lib.b::W<Int>");
    assert_eq!(a.text(), b.text());
    let nested = boxed("lib.a::W", boxed("lib.a::W", Type::Named("lib.b::P".to_string())));
    assert_eq!(canonical_type_spelling(&nested), "lib.a::W<lib.a::W<lib.b::P>>");
}

#[test]
fn a_matched_pattern_stands_for_its_type() {
    let mut b: Table<String, Type> = Table::new();
    let pattern = map_of(type_var("K"), list_of(type_var("V")));
    let target = map_of(Type::String, list_of(Type::Int));
    assert!(unify(&pattern, &target, &mut b).is_none());
    assert!(same_type(&substitute(&pattern, &b), &target));
    assert!(matches!(
        unify(&type_var("K"), &Type::Bool, &mut b),
        Some(UnifyError::Conflict { .. })
    ));
    assert!(same_type(&substitute(&pattern, &b), &target));
    assert!(matches!(
        unify(&list_of(type_var("A")), &Type::Int, &mut b),
        Some(UnifyError::Mismatch)
    ));
}

#[test]
fn endpoints_of_modules_stand_in_order() {
    let a = analyze_modules(
        "struct U { Int id }\nendpoint b: GET \"/b\" { response U }\nendpoint a: GET \"/a\" { response U }",
        &[("other", "struct U { Int id }\nendpoint c: GET \"/c\" { response U }")],
    );
    assert!(a.diagnostics.is_empty(), "{:?}", a.diagnostics);
    let names: Vec<&str> = a.endpoints.iter().map(|e| e.name.as_str()).collect();
    assert_eq!(names, ["b", "a", "c"]);
}

#[test]
fn only_defaults_need_a_wrapper() {
    let a = check_full(
        "function one() -> Int { return 1 }\nfunction f(a: Int, b: Int = 2, c: Int = one(), d: Int = -3) { }\nfunction g<T>(x: T, n: Int = one()) { }\nfunction main() { }",
    );
    let f = a.module.function_info_by_name("f").unwrap();
    assert_eq!(f.default_needs_wrapper, [2]);
    let defaults: Vec<usize> = f.default_param_exprs.entries.iter().map(|e| e.0).collect();
    assert_eq!(defaults, [1, 2, 3]);
    let g = a.module.function_info_by_name("g").unwrap();
    assert!(g.default_needs_wrapper.is_empty());
}

const MAKER: (&str, &str) = (
    "lib.maker",
    "public struct Made { public Int x\n function get(self) -> Int { return self.x } }\n\
     public trait Show { function show(self) -> String }\n\
     impl Show for Made { function show(self) -> String { return \"made\" } }\n\
     public function make() -> Made { let m: Made = Made(1)\n print(m.get())\n return m }\n\
     public function take(s: dyn Show) { print(s.show()) }\n\
     public function only<T: Show>(x: T) { }",
);

#[test]
fn methods_need_a_name_for_the_type() {
    assert_module_findings(
        "import lib.maker { make, Made }\nfunction main() { print(make().get()) }",
        &[MAKER],
        &[],
    );
    assert_module_findings(
        "import lib.maker { make, Made as M }\nfunction main() { print(make().get()) }",
        &[MAKER],
        &[],
    );
    assert_module_findings(
        "import lib.maker { make }\nfunction main() { print(make().get()) }",
        &[MAKER],
        &["no method `get` on type `Made`"],
    );
    assert_module_findings(
        "import lib.maker { make }\nfunction main() { print(make().x) }",
        &[MAKER],
        &[],
    );
}

#[test]
fn implementing_needs_a_name_for_type_and_trait() {
    let takes = |names: &str| {
        module_findings(
            &format!("import lib.maker {{ {names} }}\nfunction main() {{ take(make()) }}"),
            &[MAKER],
        )
    };
    let unfit = ["argument 1 of `take`: expected `dyn Show` but got `Made`"];
    assert_eq!(takes("make, take, Made, Show"), Vec::<String>::new());
    assert_eq!(takes("make, take, Made as M, Show as S"), Vec::<String>::new());
    assert_eq!(takes("make, take, Show"), unfit);
    assert_eq!(takes("make, take, Made"), unfit);
    let bound = |names: &str| {
        module_findings(
            &format!("import lib.maker {{ {names} }}\nfunction main() {{ only(make()) }}"),
            &[MAKER],
        )
    };
    assert_eq!(bound("make, only, Made, Show"), Vec::<String>::new());
    assert_eq!(
        bound("make, only, Show"),
        ["type `lib.maker::Made` does not implement trait `Show`"]
    );
}
