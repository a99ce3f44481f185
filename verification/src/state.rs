//! What changes while bodies are checked: the scopes, the surroundings of the
//! current statement, and everything that is recorded by position.
use crate::info::{CaptureInfo, CaptureInfoV, SymbolKind, SymbolKindV, SymbolRef, SymbolRefV, VarInfo, VarInfoV};
use crate::span::{plain_error, Diagnostic, DiagnosticV, Severity, Span};
use crate::table::{find, holds, put, Table};
use crate::text::{push_view, Chars, Dup};
use crate::types::{all_settled, are_settled, Ty, Type};
use vstd::prelude::*;

verus! {

/// The state of the checker.
#[derive(Debug)]
pub struct State {
    /// The variables in scope, innermost last.
    pub scopes: Vec<Table<String, VarInfo>>,
    /// The findings so far.
    pub diagnostics: Vec<Diagnostic>,
    /// What each lambda captures.
    pub lambda_captures: Table<Span, Vec<CaptureInfo>>,
    /// The declared result of the enclosing function.
    pub return_type: Option<Type>,
    /// Whether a loop encloses the current statement.
    pub in_loop: bool,
    /// The type parameters in scope.
    pub type_params: Vec<String>,
    /// The trait bounds of the type parameters in scope.
    pub bounds: Vec<(String, Vec<String>)>,
    /// The type of each expression.
    pub expr_types: Table<Span, Type>,
    /// What each use refers to.
    pub symbol_references: Table<Span, SymbolRef>,
    /// The type arguments of each generic call.
    pub call_type_args: Table<Span, Vec<Type>>,
    /// The resolved annotation of each annotated variable.
    pub var_annotation_types: Table<Span, Type>,
    /// Whether a `where` clause of a field is being checked.
    pub in_constraint: bool,
    /// Whether `File` may stand here: as a field of a struct.
    pub file_field_allowed: bool,
    /// Whether a struct with a `File` field may stand here: as a body or a
    /// response of an endpoint.
    pub file_bearing_struct_allowed: bool,
    /// The argument type of each `json.encode`.
    pub json_encode_types: Table<Span, Type>,
    /// The target type of each `json.decode`.
    pub json_decode_types: Table<Span, Type>,
    /// The function that each call through a namespace reaches.
    pub namespace_call_targets: Table<Span, String>,
}

/// What a [`State`] holds.
#[verifier::ext_equal]
pub struct StateV {
    pub scopes: Seq<Seq<(Chars, VarInfoV)>>,
    pub diagnostics: Seq<DiagnosticV>,
    pub lambda_captures: Seq<(Span, Seq<CaptureInfoV>)>,
    pub return_type: Option<Ty>,
    pub in_loop: bool,
    pub type_params: Seq<Chars>,
    pub bounds: Seq<(Chars, Seq<Chars>)>,
    pub expr_types: Seq<(Span, Ty)>,
    pub symbol_references: Seq<(Span, SymbolRefV)>,
    pub call_type_args: Seq<(Span, Seq<Ty>)>,
    pub var_annotation_types: Seq<(Span, Ty)>,
    pub in_constraint: bool,
    pub file_field_allowed: bool,
    pub file_bearing_struct_allowed: bool,
    pub json_encode_types: Seq<(Span, Ty)>,
    pub json_decode_types: Seq<(Span, Ty)>,
    pub namespace_call_targets: Seq<(Span, Chars)>,
}

impl View for State {
    type V = StateV;

    closed spec fn view(&self) -> StateV {
        StateV {
            scopes: self.scopes.deep_view(),
            diagnostics: self.diagnostics.deep_view(),
            lambda_captures: self.lambda_captures@,
            return_type: self.return_type.deep_view(),
            in_loop: self.in_loop,
            type_params: self.type_params.deep_view(),
            bounds: self.bounds.deep_view(),
            expr_types: self.expr_types@,
            symbol_references: self.symbol_references@,
            call_type_args: self.call_type_args@,
            var_annotation_types: self.var_annotation_types@,
            in_constraint: self.in_constraint,
            file_field_allowed: self.file_field_allowed,
            file_bearing_struct_allowed: self.file_bearing_struct_allowed,
            json_encode_types: self.json_encode_types@,
            json_decode_types: self.json_decode_types@,
            namespace_call_targets: self.namespace_call_targets@,
        }
    }
}

/// What remains of a state when everything has been checked.
#[derive(Debug)]
pub struct Recorded {
    pub diagnostics: Vec<Diagnostic>,
    pub lambda_captures: Table<Span, Vec<CaptureInfo>>,
    pub expr_types: Table<Span, Type>,
    pub symbol_references: Table<Span, SymbolRef>,
    pub call_type_args: Table<Span, Vec<Type>>,
    pub var_annotation_types: Table<Span, Type>,
    pub json_encode_types: Table<Span, Type>,
    pub json_decode_types: Table<Span, Type>,
    pub namespace_call_targets: Table<Span, String>,
}

/// The state before anything has been checked.
pub open spec fn initial_state() -> StateV {
    StateV {
        scopes: seq![Seq::empty()],
        diagnostics: Seq::empty(),
        lambda_captures: Seq::empty(),
        return_type: None,
        in_loop: false,
        type_params: Seq::empty(),
        bounds: Seq::empty(),
        expr_types: Seq::empty(),
        symbol_references: Seq::empty(),
        call_type_args: Seq::empty(),
        var_annotation_types: Seq::empty(),
        in_constraint: false,
        file_field_allowed: false,
        file_bearing_struct_allowed: false,
        json_encode_types: Seq::empty(),
        json_decode_types: Seq::empty(),
        namespace_call_targets: Seq::empty(),
    }
}

/// The variable that `name` stands for among the `n` outermost scopes.
pub open spec fn variable_below(scopes: Seq<Seq<(Chars, VarInfoV)>>, name: Chars, n: int) -> Option<
    VarInfoV,
>
    decreases n,
{
    if n <= 0 || n > scopes.len() {
        None
    } else {
        match find(scopes[n - 1], name) {
            Some(v) => Some(v),
            None => variable_below(scopes, name, n - 1),
        }
    }
}

impl StateV {
    pub open spec fn diagnose(self, d: DiagnosticV) -> StateV {
        StateV { diagnostics: self.diagnostics.push(d), ..self }
    }

    pub open spec fn error(self, message: Chars, span: Span) -> StateV {
        self.diagnose(plain_error(message, span))
    }

    pub open spec fn warn(self, message: Chars, span: Span) -> StateV {
        self.diagnose(
            DiagnosticV { severity: Severity::Warning, ..plain_error(message, span) },
        )
    }

    /// The error, if `cond` holds.
    pub open spec fn error_if(self, cond: bool, message: Chars, span: Span) -> StateV {
        if cond {
            self.error(message, span)
        } else {
            self
        }
    }

    pub open spec fn record_type(self, span: Span, t: Ty) -> StateV {
        StateV { expr_types: put(self.expr_types, span, t), ..self }
    }

    pub open spec fn refer(self, span: Span, kind: SymbolKindV, name: Chars) -> StateV {
        StateV {
            symbol_references: put(self.symbol_references, span, SymbolRefV { kind, name }),
            ..self
        }
    }

    pub open spec fn enter(self) -> StateV {
        StateV { scopes: self.scopes.push(Seq::empty()), ..self }
    }

    pub open spec fn leave(self) -> StateV {
        if self.scopes.len() == 0 {
            self
        } else {
            StateV { scopes: self.scopes.drop_last(), ..self }
        }
    }

    /// The variable that `name` stands for.
    pub open spec fn variable(self, name: Chars) -> Option<VarInfoV> {
        variable_below(self.scopes, name, self.scopes.len() as int)
    }

    /// Whether the innermost scope has no `name` yet.
    pub open spec fn can_define(self, name: Chars) -> bool {
        self.scopes.len() > 0 && !holds(self.scopes.last(), name)
    }

    /// The new variable in the innermost scope, unless the scope has the name
    /// already.
    pub open spec fn define(self, name: Chars, v: VarInfoV) -> StateV {
        if self.can_define(name) {
            StateV {
                scopes: self.scopes.update(
                    self.scopes.len() - 1,
                    put(self.scopes.last(), name, v),
                ),
                ..self
            }
        } else {
            self
        }
    }

    /// The state with the findings cut back to those of `earlier`.
    pub open spec fn forget_since(self, earlier: StateV) -> StateV {
        if earlier.diagnostics.len() <= self.diagnostics.len() {
            StateV { diagnostics: self.diagnostics.take(earlier.diagnostics.len() as int), ..self }
        } else {
            self
        }
    }

    /// The state with what is said about `File` replaced.
    pub open spec fn files(self, field: bool, body: bool) -> StateV {
        StateV { file_field_allowed: field, file_bearing_struct_allowed: body, ..self }
    }
}

/// A variable that cannot be assigned to.
pub open spec fn fixed(ty: Ty, definition_span: Span) -> VarInfoV {
    VarInfoV { ty, is_mut: false, definition_span }
}

impl State {
    pub fn new() -> (r: Self)
        ensures
            r@ == initial_state(),
    {
        let mut scopes: Vec<Table<String, VarInfo>> = Vec::new();
        scopes.push(Table::new());
        let r = State {
            scopes,
            diagnostics: Vec::new(),
            lambda_captures: Table::new(),
            return_type: None,
            in_loop: false,
            type_params: Vec::new(),
            bounds: Vec::new(),
            expr_types: Table::new(),
            symbol_references: Table::new(),
            call_type_args: Table::new(),
            var_annotation_types: Table::new(),
            in_constraint: false,
            file_field_allowed: false,
            file_bearing_struct_allowed: false,
            json_encode_types: Table::new(),
            json_decode_types: Table::new(),
            namespace_call_targets: Table::new(),
        };
        assert(r@ =~~= initial_state());
        r
    }

    pub fn diagnose(&mut self, d: Diagnostic)
        ensures
            final(self)@ == old(self)@.diagnose(d.deep_view()),
    {
        push_view(&mut self.diagnostics, d);
    }

    pub fn error(&mut self, message: String, span: Span)
        ensures
            final(self)@ == old(self)@.error(message@, span),
    {
        self.diagnose(Diagnostic::error(message, span));
    }

    pub fn warn(&mut self, message: String, span: Span)
        ensures
            final(self)@ == old(self)@.warn(message@, span),
    {
        let mut d = Diagnostic::error(message, span);
        d.severity = Severity::Warning;
        self.diagnose(d);
    }

    pub fn record_type(&mut self, span: Span, t: &Type)
        ensures
            final(self)@ == old(self)@.record_type(span, t@),
    {
        self.expr_types.put(span, t.dup());
    }

    pub fn recorded_type(&self, span: Span) -> (r: Option<&Type>)
        ensures
            r.deep_view() == find(self@.expr_types, span),
    {
        self.expr_types.get(&span)
    }

    pub fn refer(&mut self, span: Span, kind: SymbolKind, name: String)
        ensures
            final(self)@ == old(self)@.refer(span, kind.deep_view(), name@),
    {
        self.symbol_references.put(span, SymbolRef { kind, name });
    }

    pub fn enter(&mut self)
        ensures
            final(self)@ == old(self)@.enter(),
    {
        push_view(&mut self.scopes, Table::new());
    }

    pub fn leave(&mut self)
        ensures
            final(self)@ == old(self)@.leave(),
    {
        let _ = self.scopes.pop();
        assert(self@ =~= old(self)@.leave());
    }

    /// A copy of the variable that `name` stands for.
    pub fn variable(&self, name: &String) -> (r: Option<VarInfo>)
        ensures
            r.deep_view() == self@.variable(name@),
    {
        let mut n: usize = self.scopes.len();
        while n > 0
            invariant
                n <= self.scopes.len(),
                self@.variable(name@) == variable_below(self@.scopes, name@, n as int),
            decreases n,
        {
            match self.scopes[n - 1].get(name) {
                Some(v) => {
                    return Some(v.dup());
                },
                None => {},
            }
            n -= 1;
        }
        None
    }

    pub fn has_variable(&self, name: &String) -> (r: bool)
        ensures
            r == (self@.variable(name@) is Some),
    {
        self.variable(name).is_some()
    }

    /// Defines a variable in the innermost scope; false if the scope has the
    /// name already.
    pub fn define(&mut self, name: String, v: VarInfo) -> (r: bool)
        ensures
            final(self)@ == old(self)@.define(name@, v.deep_view()),
            r == old(self)@.can_define(name@),
    {
        let n: usize = self.scopes.len();
        if n == 0 || self.scopes[n - 1].has(&name) {
            return false;
        }
        let mut top = self.scopes.pop().unwrap();
        top.put(name, v);
        self.scopes.push(top);
        assert(self@ =~= old(self)@.define(name@, v.deep_view()));
        true
    }

    pub fn define_fixed(&mut self, name: String, ty: Type, definition_span: Span)
        ensures
            final(self)@ == old(self)@.define(name@, fixed(ty@, definition_span)),
    {
        let _ = self.define(name, VarInfo { ty, is_mut: false, definition_span });
    }

    pub fn diagnostic_count(&self) -> (r: usize)
        ensures
            r == self@.diagnostics.len(),
    {
        self.diagnostics.len()
    }

    /// Forgets all but the first `n` findings.
    pub fn forget_after(&mut self, n: usize)
        ensures
            n <= old(self)@.diagnostics.len() ==> final(self)@ == (StateV {
                diagnostics: old(self)@.diagnostics.take(n as int),
                ..old(self)@
            }),
            n > old(self)@.diagnostics.len() ==> final(self)@ == old(self)@,
    {
        if n <= self.diagnostics.len() {
            self.diagnostics.truncate(n);
            assert(self.diagnostics.deep_view() =~= old(self).diagnostics.deep_view().take(
                n as int,
            ));
        }
    }

    pub fn set_files(&mut self, field: bool, body: bool)
        ensures
            final(self)@ == old(self)@.files(field, body),
    {
        self.file_field_allowed = field;
        self.file_bearing_struct_allowed = body;
    }

    /// Replaces `return_type` and returns what it was.
    pub fn set_return_type(&mut self, return_type: Option<Type>) -> (r: Option<Type>)
        ensures
            final(self)@ == (StateV { return_type: return_type.deep_view(), ..old(self)@ }),
            r.deep_view() == old(self)@.return_type,
    {
        let mut other = return_type;
        core::mem::swap(&mut self.return_type, &mut other);
        other
    }

    /// Replaces `type_params` and returns what it was.
    pub fn set_type_params(&mut self, type_params: Vec<String>) -> (r: Vec<String>)
        ensures
            final(self)@ == (StateV { type_params: type_params.deep_view(), ..old(self)@ }),
            r.deep_view() == old(self)@.type_params,
    {
        let mut other = type_params;
        core::mem::swap(&mut self.type_params, &mut other);
        other
    }

    /// Replaces `bounds` and returns what it was.
    pub fn set_bounds(&mut self, bounds: Vec<(String, Vec<String>)>) -> (r: Vec<(String, Vec<String>)>)
        ensures
            final(self)@ == (StateV { bounds: bounds.deep_view(), ..old(self)@ }),
            r.deep_view() == old(self)@.bounds,
    {
        let mut other = bounds;
        core::mem::swap(&mut self.bounds, &mut other);
        other
    }

    /// Replaces `in_loop` and returns what it was.
    pub fn set_in_loop(&mut self, in_loop: bool) -> (r: bool)
        ensures
            final(self)@ == (StateV { in_loop: in_loop, ..old(self)@ }),
            r == old(self)@.in_loop,
    {
        let mut other = in_loop;
        core::mem::swap(&mut self.in_loop, &mut other);
        other
    }

    /// Replaces `in_constraint` and returns what it was.
    pub fn set_in_constraint(&mut self, in_constraint: bool) -> (r: bool)
        ensures
            final(self)@ == (StateV { in_constraint: in_constraint, ..old(self)@ }),
            r == old(self)@.in_constraint,
    {
        let mut other = in_constraint;
        core::mem::swap(&mut self.in_constraint, &mut other);
        other
    }

    pub fn current_return_type(&self) -> (r: Option<Type>)
        ensures
            r.deep_view() == self@.return_type,
    {
        self.return_type.dup()
    }

    pub fn current_bounds(&self) -> (r: Vec<(String, Vec<String>)>)
        ensures
            r.deep_view() == self@.bounds,
    {
        self.bounds.dup()
    }

    pub fn is_in_loop(&self) -> (r: bool)
        ensures
            r == self@.in_loop,
    {
        self.in_loop
    }

    pub fn is_in_constraint(&self) -> (r: bool)
        ensures
            r == self@.in_constraint,
    {
        self.in_constraint
    }

    pub fn is_file_field_allowed(&self) -> (r: bool)
        ensures
            r == self@.file_field_allowed,
    {
        self.file_field_allowed
    }

    pub fn is_file_bearing_struct_allowed(&self) -> (r: bool)
        ensures
            r == self@.file_bearing_struct_allowed,
    {
        self.file_bearing_struct_allowed
    }

    pub fn is_type_param(&self, name: &String) -> (r: bool)
        ensures
            r == self@.type_params.contains(name@),
    {
        crate::text::names_contain(&self.type_params, name)
    }

    pub fn record_captures(&mut self, span: Span, captures: Vec<CaptureInfo>)
        ensures
            final(self)@ == (StateV {
                lambda_captures: put(old(self)@.lambda_captures, span, captures.deep_view()),
                ..old(self)@
            }),
    {
        self.lambda_captures.put(span, captures);
    }

    /// Whether all types are complete, up to the type parameters in scope.
    pub fn settles(&self, ts: &Vec<Type>) -> (r: bool)
        ensures
            r == all_settled(ts.deep_view(), self@.type_params),
    {
        are_settled(ts, &self.type_params)
    }

    pub fn record_type_args(&mut self, span: Span, args: Vec<Type>)
        ensures
            final(self)@ == (StateV {
                call_type_args: put(old(self)@.call_type_args, span, args.deep_view()),
                ..old(self)@
            }),
    {
        self.call_type_args.put(span, args);
    }

    pub fn record_annotation(&mut self, span: Span, t: Type)
        ensures
            final(self)@ == (StateV {
                var_annotation_types: put(old(self)@.var_annotation_types, span, t@),
                ..old(self)@
            }),
    {
        self.var_annotation_types.put(span, t);
    }

    pub fn record_json_encode(&mut self, span: Span, t: Type)
        ensures
            final(self)@ == (StateV {
                json_encode_types: put(old(self)@.json_encode_types, span, t@),
                ..old(self)@
            }),
    {
        self.json_encode_types.put(span, t);
    }

    pub fn record_json_decode(&mut self, span: Span, t: Type)
        ensures
            final(self)@ == (StateV {
                json_decode_types: put(old(self)@.json_decode_types, span, t@),
                ..old(self)@
            }),
    {
        self.json_decode_types.put(span, t);
    }

    pub fn record_namespace_call(&mut self, span: Span, key: String)
        ensures
            final(self)@ == (StateV {
                namespace_call_targets: put(old(self)@.namespace_call_targets, span, key@),
                ..old(self)@
            }),
    {
        self.namespace_call_targets.put(span, key);
    }

    /// Keeps what has been recorded and drops the rest.
    pub fn finish(self) -> (r: Recorded)
        ensures
            r.diagnostics.deep_view() == self@.diagnostics,
            r.lambda_captures@ == self@.lambda_captures,
            r.expr_types@ == self@.expr_types,
            r.symbol_references@ == self@.symbol_references,
            r.call_type_args@ == self@.call_type_args,
            r.var_annotation_types@ == self@.var_annotation_types,
            r.json_encode_types@ == self@.json_encode_types,
            r.json_decode_types@ == self@.json_decode_types,
            r.namespace_call_targets@ == self@.namespace_call_targets,
    {
        Recorded {
            diagnostics: self.diagnostics,
            lambda_captures: self.lambda_captures,
            expr_types: self.expr_types,
            symbol_references: self.symbol_references,
            call_type_args: self.call_type_args,
            var_annotation_types: self.var_annotation_types,
            json_encode_types: self.json_encode_types,
            json_decode_types: self.json_decode_types,
            namespace_call_targets: self.namespace_call_targets,
        }
    }
}

} // verus!
