//! Source positions, declaration ids and diagnostics.
use crate::table::Key;
use crate::text::{Chars, Dup};
use vstd::prelude::*;

verus! {

/// A source file.
#[derive(Debug, Clone, Copy, PartialEq, Eq, Structural, Hash)]
pub struct SourceId(pub u32);

/// A range of bytes in a source file.
#[derive(Debug, Clone, Copy, PartialEq, Eq, Structural, Hash)]
pub struct Span {
    pub source: SourceId,
    pub start: usize,
    pub end: usize,
}

impl Span {
    pub open spec fn spec_builtin() -> Span {
        Span { source: SourceId(u32::MAX), start: 0, end: 0 }
    }

    pub fn new(source: SourceId, start: usize, end: usize) -> (r: Span)
        ensures
            r == (Span { source, start, end }),
    {
        Span { source, start, end }
    }

    /// The position of everything that no source file declares.
    pub fn builtin() -> (r: Span)
        ensures
            r == Span::spec_builtin(),
    {
        Span { source: SourceId(u32::MAX), start: 0, end: 0 }
    }
}

impl DeepView for Span {
    type V = Span;

    open spec fn deep_view(&self) -> Span {
        *self
    }
}

impl Key for Span {
    fn same(&self, other: &Self) -> (r: bool) {
        *self == *other
    }
}

impl Dup for Span {
    fn dup(&self) -> (r: Self) {
        *self
    }
}

/// A callable: a free function or a user-declared method.
#[derive(Debug, Clone, Copy, PartialEq, Eq, Structural, Hash)]
pub struct FuncId(pub u32);

#[derive(Debug, Clone, Copy, PartialEq, Eq, Structural, Hash)]
pub struct StructId(pub u32);

#[derive(Debug, Clone, Copy, PartialEq, Eq, Structural, Hash)]
pub struct EnumId(pub u32);

#[derive(Debug, Clone, Copy, PartialEq, Eq, Structural, Hash)]
pub struct TraitId(pub u32);

/// The id of the built-in enum `Option`.
pub const OPTION_ENUM_ID: u32 = 0;

/// The id of the built-in enum `Result`.
pub const RESULT_ENUM_ID: u32 = 1;

/// The id of the first enum that a program declares.
pub const FIRST_USER_ENUM_ID: u32 = 2;

/// An id that is a position in a list.
pub trait Indexed: Copy {
    spec fn position(self) -> int;

    fn index(self) -> (r: usize)
        ensures
            r == self.position(),
    ;
}

impl Indexed for FuncId {
    open spec fn position(self) -> int {
        self.0 as int
    }

    fn index(self) -> (r: usize) {
        self.0 as usize
    }
}

impl Indexed for StructId {
    open spec fn position(self) -> int {
        self.0 as int
    }

    fn index(self) -> (r: usize) {
        self.0 as usize
    }
}

impl Indexed for EnumId {
    open spec fn position(self) -> int {
        self.0 as int
    }

    fn index(self) -> (r: usize) {
        self.0 as usize
    }
}

impl Indexed for TraitId {
    open spec fn position(self) -> int {
        self.0 as int
    }

    fn index(self) -> (r: usize) {
        self.0 as usize
    }
}

impl DeepView for FuncId {
    type V = FuncId;

    open spec fn deep_view(&self) -> FuncId {
        *self
    }
}

impl Key for FuncId {
    fn same(&self, other: &Self) -> (r: bool) {
        *self == *other
    }
}

impl Dup for FuncId {
    fn dup(&self) -> (r: Self) {
        *self
    }
}

impl DeepView for StructId {
    type V = StructId;

    open spec fn deep_view(&self) -> StructId {
        *self
    }
}

impl DeepView for EnumId {
    type V = EnumId;

    open spec fn deep_view(&self) -> EnumId {
        *self
    }
}

impl DeepView for TraitId {
    type V = TraitId;

    open spec fn deep_view(&self) -> TraitId {
        *self
    }
}

/// How serious a diagnostic is.
#[derive(Debug, Clone, Copy, PartialEq, Eq, Structural)]
pub enum Severity {
    Error,
    Warning,
}

/// A finding of the analysis, with the place it is about.
#[derive(Debug)]
pub struct Diagnostic {
    pub severity: Severity,
    pub message: String,
    pub span: Span,
    /// Further places that explain the finding.
    pub notes: Vec<(Span, String)>,
    /// What the author could do about it.
    pub suggestion: Option<String>,
}

/// What a [`Diagnostic`] says.
#[verifier::ext_equal]
pub struct DiagnosticV {
    pub severity: Severity,
    pub message: Chars,
    pub span: Span,
    pub notes: Seq<(Span, Chars)>,
    pub suggestion: Option<Chars>,
}

impl DeepView for Diagnostic {
    type V = DiagnosticV;

    open spec fn deep_view(&self) -> DiagnosticV {
        DiagnosticV {
            severity: self.severity,
            message: self.message@,
            span: self.span,
            notes: self.notes.deep_view(),
            suggestion: self.suggestion.deep_view(),
        }
    }
}

/// A plain error with nothing attached.
pub open spec fn plain_error(message: Chars, span: Span) -> DiagnosticV {
    DiagnosticV {
        severity: Severity::Error,
        message,
        span,
        notes: Seq::empty(),
        suggestion: None,
    }
}

impl Diagnostic {
    pub fn error(message: String, span: Span) -> (r: Self)
        ensures
            r.deep_view() == plain_error(message@, span),
    {
        let r = Diagnostic {
            severity: Severity::Error,
            message,
            span,
            notes: Vec::new(),
            suggestion: None,
        };
        assert(r.notes.deep_view() =~= Seq::<(Span, Chars)>::empty());
        r
    }
}

} // verus!
