//! Statements and blocks.
use crate::ast::{
    expr_span, Block, ForSource, ForStmt, ReturnStmt, Statement, VarDecl, VarDeclTarget, WhileStmt,
};
use crate::check_expr::{field_from, find_field, sem_again, sem_expr};
use crate::check_types::{clash, compatible, resolved};
use crate::env::{canonical, in_scope, Env, EnvV};
use crate::info::{FieldInfo, FieldInfoV, VarInfo, VarInfoV};
use crate::pin::pinned;
use crate::span::Span;
use crate::state::{fixed, State, StateV};
use crate::table::put;
use crate::text::{cat2, cat3, cat4, cat5, cat7, same_text, Chars, Dup};
use crate::types::{has_vars, show, type_var, Ty, Type};
use vstd::prelude::*;

verus! {

broadcast use crate::ty::view_of_type;

/// The variable that a declaration introduces; a name can be declared once in
/// a scope.
pub open spec fn introduced(st: StateV, name: Chars, v: VarInfoV, span: Span) -> StateV {
    st.define(name, v).error_if(
        !st.can_define(name),
        "variable `"@ + name + "` is already defined in this scope"@,
        span,
    )
}

/// The declared type of a variable, held against the type `init` of its
/// initializer.
pub open spec fn annotated(env: EnvV, st: StateV, x: VarDecl, name: Chars, t: Ty, init: Ty) -> StateV {
    let s1 = st.error_if(
        clash(env, st, t, init),
        "type mismatch: variable `"@ + name + "` declared as `"@ + show(t)
            + "` but initialized with `"@ + show(init) + "`"@,
        x.span,
    );
    if t == Ty::Error {
        s1
    } else {
        let s2 = StateV { var_annotation_types: put(s1.var_annotation_types, x.span, t), ..s1 };
        if init == Ty::Error {
            s2
        } else {
            pinned(env, s2, x.initializer, t)
        }
    }
}

/// A variable without annotation takes the type of its initializer, which has
/// to be known.
pub open spec fn inferable(st: StateV, name: Chars, init: Ty, span: Span) -> StateV {
    st.error_if(
        init == Ty::Void,
        "cannot infer type for `"@ + name
            + "`: initializer has type Void (add a type annotation)"@,
        span,
    ).error_if(
        init != Ty::Error && has_vars(init),
        "cannot infer type for `"@ + name + "`: initializer has ambiguous type `"@ + show(init)
            + "` (add a type annotation)"@,
        span,
    )
}

/// The first `n` names of a destructuring, bound to the fields.
pub open spec fn destructured_n(
    st: StateV,
    fields: Seq<FieldInfoV>,
    names: Seq<Chars>,
    owner: Chars,
    is_mut: bool,
    span: Span,
    n: int,
) -> StateV
    decreases n,
{
    if n <= 0 || n > names.len() {
        st
    } else {
        let s = destructured_n(st, fields, names, owner, is_mut, span, n - 1);
        match field_from(fields, names[n - 1], 0) {
            Some(f) => introduced(
                s,
                names[n - 1],
                VarInfoV { ty: f.ty, is_mut, definition_span: span },
                span,
            ),
            None => s.error(
                "struct `"@ + owner + "` has no field `"@ + names[n - 1] + "`"@,
                span,
            ),
        }
    }
}

/// A declaration whose initializer has type `init`.
pub open spec fn declared(env: EnvV, st: StateV, x: VarDecl, init: Ty) -> StateV {
    match x.target {
        VarDeclTarget::Simple(name) => {
            let (s, t) = match x.type_annotation {
                Some(te) => {
                    let (s1, t) = resolved(env, st, te);
                    (annotated(env, s1, x, name@, t, init), t)
                },
                None => (inferable(st, name@, init, x.span), init),
            };
            introduced(
                s,
                name@,
                VarInfoV { ty: t, is_mut: x.is_mut, definition_span: x.span },
                x.span,
            )
        },
        VarDeclTarget::StructDestructure { struct_name, field_names } => {
            match in_scope(env, env.structs, struct_name@) {
                Some(info) => destructured_n(
                    st.error_if(
                        init != Ty::Error && !compatible(
                            env,
                            st.bounds,
                            Ty::Named(canonical(env, struct_name@)),
                            init,
                        ),
                        "type mismatch: destructuring expects `"@ + struct_name@ + "` but got `"@
                            + show(init) + "`"@,
                        x.span,
                    ),
                    info.fields,
                    field_names.deep_view(),
                    struct_name@,
                    x.is_mut,
                    x.span,
                    field_names@.len() as int,
                ),
                None => st.error("unknown struct type `"@ + struct_name@ + "`"@, x.span),
            }
        },
    }
}

/// The state after checking a statement.
pub open spec fn sem_stmt(env: EnvV, st: StateV, s: Statement) -> StateV
    decreases s, 1int,
{
    match s {
        Statement::VarDecl(x) => {
            let (s1, init) = sem_expr(env, st, x.initializer);
            declared(env, s1, x, init)
        },
        Statement::Expression(x) => sem_expr(env, st, x.expr).0,
        Statement::Return(x) => sem_return(env, st, x),
        Statement::While(x) => sem_while(env, st, x),
        Statement::For(x) => sem_for(env, st, x),
        Statement::Break(span) => st.error_if(!st.in_loop, "`break` outside of loop"@, span),
        Statement::Continue(span) => st.error_if(
            !st.in_loop,
            "`continue` outside of loop"@,
            span,
        ),
        Statement::Defer(x) => sem_expr(env, st, x.expr).0,
    }
}

/// The result that the enclosing function declares.
pub open spec fn expected_return(st: StateV) -> Ty {
    match st.return_type {
        Some(t) => t,
        None => Ty::Void,
    }
}

pub open spec fn sem_return(env: EnvV, st: StateV, x: ReturnStmt) -> StateV
    decreases x, 1int,
{
    let expected = expected_return(st);
    match x.value {
        Some(e) => {
            let (s, t) = sem_expr(env, st, e);
            pinned(
                env,
                s.error_if(
                    clash(env, s, expected, t),
                    "return type mismatch: expected "@ + show(expected) + " but got "@ + show(t),
                    x.span,
                ),
                e,
                expected,
            )
        },
        None => st.error_if(
            expected != Ty::Void && expected != Ty::Error,
            "expected return value of type "@ + show(expected),
            x.span,
        ),
    }
}

/// A block in a scope of its own, if there is one.
pub open spec fn sem_scoped(env: EnvV, st: StateV, b: Option<Block>) -> StateV
    decreases b, 1int,
{
    match b {
        Some(b) => sem_block_n(
            env,
            st.enter(),
            b.statements@,
            b.statements@.len() as int,
        ).leave(),
        None => st,
    }
}

pub open spec fn sem_while(env: EnvV, st: StateV, x: WhileStmt) -> StateV
    decreases x, 1int,
{
    let (s1, t) = sem_expr(env, st, x.condition);
    let s2 = s1.error_if(
        t != Ty::Error && t != Ty::Bool,
        "while condition must be Bool, got "@ + show(t),
        expr_span(x.condition),
    );
    let s3 = sem_block_n(
        env,
        StateV { in_loop: true, ..s2 }.enter(),
        x.body.statements@,
        x.body.statements@.len() as int,
    ).leave();
    sem_scoped(env, StateV { in_loop: s2.in_loop, ..s3 }, x.else_block)
}

/// The loop variable of a range, whose bounds have types `start` and `end`.
pub open spec fn ranged(
    env: EnvV,
    st: StateV,
    x: ForStmt,
    start: Ty,
    start_span: Span,
    end: Ty,
    end_span: Span,
) -> (StateV, Ty) {
    let s1 = st.error_if(
        start != Ty::Error && start != Ty::Int,
        "for range start must be Int, got "@ + show(start),
        start_span,
    ).error_if(
        end != Ty::Error && end != Ty::Int,
        "for range end must be Int, got "@ + show(end),
        end_span,
    );
    match x.var_type {
        Some(te) => {
            let (s2, t) = resolved(env, s1, te);
            (
                s2.error_if(
                    t != Ty::Error && t != Ty::Int,
                    "for loop variable must be Int, got "@ + show(t),
                    x.span,
                ),
                t,
            )
        },
        None => (s1, Ty::Int),
    }
}

/// The elements of a value of type `t`.
pub open spec fn iterated(st: StateV, t: Ty, span: Span) -> (StateV, Ty) {
    match t {
        Ty::Generic(name, args) => if name == "List"@ {
            (
                st,
                if args.len() > 0 {
                    args[0]
                } else {
                    Ty::TypeVar("T"@)
                },
            )
        } else {
            (st.error("for...in requires a List, got "@ + show(t), span), Ty::Error)
        },
        Ty::Error => (st, Ty::Error),
        _ => (st.error("for...in requires a List, got "@ + show(t), span), Ty::Error),
    }
}

pub open spec fn sem_source(env: EnvV, st: StateV, x: ForStmt) -> (StateV, Ty)
    decreases x, 0int,
{
    match x.source {
        ForSource::Range { start, end } => {
            let (s1, a) = sem_expr(env, st, start);
            let (s2, b) = sem_expr(env, s1, end);
            ranged(env, s2, x, a, expr_span(start), b, expr_span(end))
        },
        ForSource::Iterable(e) => {
            let (s1, t) = sem_expr(env, st, e);
            iterated(s1, t, expr_span(e))
        },
    }
}

pub open spec fn sem_for(env: EnvV, st: StateV, x: ForStmt) -> StateV
    decreases x, 1int,
{
    let (s1, t) = sem_source(env, st, x);
    let s2 = StateV { in_loop: true, ..s1 }.enter().define(x.var_name@, fixed(t, x.span));
    let s3 = sem_block_n(env, s2, x.body.statements@, x.body.statements@.len() as int).leave();
    sem_scoped(env, StateV { in_loop: s1.in_loop, ..s3 }, x.else_block)
}

/// The first `n` statements.
pub open spec fn sem_block_n(env: EnvV, st: StateV, ss: Seq<Statement>, n: int) -> StateV
    decreases ss, n,
{
    if n <= 0 || n > ss.len() {
        st
    } else {
        sem_stmt(env, sem_block_n(env, st, ss, n - 1), ss[n - 1])
    }
}

/// Whether one of the first `n` statements is a `return`.
pub open spec fn has_return(ss: Seq<Statement>, n: int) -> bool {
    exists|i: int| 0 <= i < n && i < ss.len() && (#[trigger] ss[i]) is Return
}

/// The first `n` statements, and the value of the block so far: that of its
/// last `return`, or, if it has none, of its last statement if that is an
/// expression.
pub open spec fn sem_block_type_n(env: EnvV, st: StateV, ss: Seq<Statement>, n: int) -> (StateV, Ty)
    decreases ss, n,
{
    if n <= 0 || n > ss.len() {
        (st, Ty::Void)
    } else {
        let (s1, t) = sem_block_type_n(env, st, ss, n - 1);
        let s2 = sem_stmt(env, s1, ss[n - 1]);
        match ss[n - 1] {
            Statement::Return(x) => match x.value {
                Some(e) => sem_again(env, s2, e),
                None => (s2, Ty::Void),
            },
            Statement::Expression(x) => if n == ss.len() && !has_return(ss, n - 1) {
                sem_again(env, s2, x.expr)
            } else {
                (s2, t)
            },
            _ => (s2, t),
        }
    }
}

impl State {
    fn introduce(&mut self, name: &String, v: VarInfo, span: Span)
        ensures
            final(self)@ == introduced(old(self)@, name@, v.deep_view(), span),
    {
        if !self.define(name.clone(), v) {
            self.error(
                cat3("variable `", name, "` is already defined in this scope"),
                span,
            );
        }
    }

    fn check_annotated(&mut self, env: &Env<'_>, x: &VarDecl, name: &String, t: &Type, init: &Type)
        ensures
            final(self)@ == annotated(env@, old(self)@, *x, name@, t@, init@),
    {
        if self.types_clash(env, t, init) {
            self.error(
                cat7(
                    "type mismatch: variable `",
                    name,
                    "` declared as `",
                    &t.text(),
                    "` but initialized with `",
                    &init.text(),
                    "`",
                ),
                x.span,
            );
        }
        if !t.is_error() {
            self.record_annotation(x.span, t.dup());
            if !init.is_error() {
                self.pin_inferred_type_to_annotation(env, &x.initializer, t);
            }
        }
    }

    fn check_inferable(&mut self, name: &String, init: &Type, span: Span)
        ensures
            final(self)@ == inferable(old(self)@, name@, init@, span),
    {
        if init.is_void() {
            self.error(
                cat3(
                    "cannot infer type for `",
                    name,
                    "`: initializer has type Void (add a type annotation)",
                ),
                span,
            );
        }
        if !init.is_error() && init.has_type_vars() {
            self.error(
                cat5(
                    "cannot infer type for `",
                    name,
                    "`: initializer has ambiguous type `",
                    &init.text(),
                    "` (add a type annotation)",
                ),
                span,
            );
        }
    }

    fn destructure(
        &mut self,
        fields: &Vec<FieldInfo<'_>>,
        names: &Vec<String>,
        owner: &String,
        is_mut: bool,
        span: Span,
    )
        ensures
            final(self)@ == destructured_n(
                old(self)@,
                fields.deep_view(),
                names.deep_view(),
                owner@,
                is_mut,
                span,
                names.deep_view().len() as int,
            ),
    {
        let mut i: usize = 0;
        while i < names.len()
            invariant
                i <= names.len(),
                self@ == destructured_n(
                    old(self)@,
                    fields.deep_view(),
                    names.deep_view(),
                    owner@,
                    is_mut,
                    span,
                    i as int,
                ),
            decreases names.len() - i,
        {
            match find_field(fields, &names[i]) {
                Some(f) => {
                    self.introduce(
                        &names[i],
                        VarInfo { ty: f.ty.dup(), is_mut, definition_span: span },
                        span,
                    );
                },
                None => {
                    self.error(
                        cat5("struct `", owner, "` has no field `", &names[i], "`"),
                        span,
                    );
                },
            }
            i += 1;
        }
    }

    fn check_var_decl(&mut self, env: &Env<'_>, x: &VarDecl, init: Type)
        ensures
            final(self)@ == declared(env@, old(self)@, *x, init@),
    {
        match &x.target {
            VarDeclTarget::Simple(name) => {
                let t = match &x.type_annotation {
                    Some(te) => {
                        let t = self.resolve_type_expr(env, te);
                        self.check_annotated(env, x, name, &t, &init);
                        t
                    },
                    None => {
                        self.check_inferable(name, &init, x.span);
                        init
                    },
                };
                self.introduce(
                    name,
                    VarInfo { ty: t, is_mut: x.is_mut, definition_span: x.span },
                    x.span,
                );
            },
            VarDeclTarget::StructDestructure { struct_name, field_names } => {
                match env.lookup_struct(struct_name) {
                    Some(info) => {
                        let expected = Type::Named(env.qualify_in_current(struct_name));
                        if !init.is_error() && !self.types_compatible(env, &expected, &init) {
                            self.error(
                                cat5(
                                    "type mismatch: destructuring expects `",
                                    struct_name,
                                    "` but got `",
                                    &init.text(),
                                    "`",
                                ),
                                x.span,
                            );
                        }
                        self.destructure(
                            &info.fields,
                            field_names,
                            struct_name,
                            x.is_mut,
                            x.span,
                        );
                    },
                    None => {
                        self.error(cat3("unknown struct type `", struct_name, "`"), x.span);
                    },
                }
            },
        }
    }

    /// Checks a statement.
    pub fn check_statement(&mut self, env: &Env<'_>, s: &Statement)
        ensures
            final(self)@ == sem_stmt(env@, old(self)@, *s),
        decreases s, 1int,
    {
        match s {
            Statement::VarDecl(x) => {
                let init = self.check_expr(env, &x.initializer);
                self.check_var_decl(env, x, init);
            },
            Statement::Expression(x) => {
                let _ = self.check_expr(env, &x.expr);
            },
            Statement::Return(x) => {
                self.check_return(env, x);
            },
            Statement::While(x) => {
                self.check_while(env, x);
            },
            Statement::For(x) => {
                self.check_for(env, x);
            },
            Statement::Break(span) => {
                if !self.is_in_loop() {
                    self.error("`break` outside of loop".to_owned(), *span);
                }
            },
            Statement::Continue(span) => {
                if !self.is_in_loop() {
                    self.error("`continue` outside of loop".to_owned(), *span);
                }
            },
            Statement::Defer(x) => {
                let _ = self.check_expr(env, &x.expr);
            },
        }
    }

    fn check_return(&mut self, env: &Env<'_>, x: &ReturnStmt)
        ensures
            final(self)@ == sem_return(env@, old(self)@, *x),
        decreases x, 1int,
    {
        let expected = match self.current_return_type() {
            Some(t) => t,
            None => Type::Void,
        };
        match &x.value {
            Some(e) => {
                let t = self.check_expr(env, e);
                if self.types_clash(env, &expected, &t) {
                    self.error(
                        cat4(
                            "return type mismatch: expected ",
                            &expected.text(),
                            " but got ",
                            &t.text(),
                        ),
                        x.span,
                    );
                }
                self.pin_inferred_type_to_annotation(env, e, &expected);
            },
            None => {
                if !expected.is_void() && !expected.is_error() {
                    self.error(
                        cat2("expected return value of type ", &expected.text()),
                        x.span,
                    );
                }
            },
        }
    }

    fn check_scoped(&mut self, env: &Env<'_>, b: &Option<Block>)
        ensures
            final(self)@ == sem_scoped(env@, old(self)@, *b),
        decreases b, 1int,
    {
        match b {
            Some(b) => {
                self.enter();
                self.check_block(env, b);
                self.leave();
            },
            None => {},
        }
    }

    fn check_while(&mut self, env: &Env<'_>, x: &WhileStmt)
        ensures
            final(self)@ == sem_while(env@, old(self)@, *x),
        decreases x, 1int,
    {
        let t = self.check_expr(env, &x.condition);
        if !t.is_error() && !t.is_bool() {
            self.error(
                cat2("while condition must be Bool, got ", &t.text()),
                x.condition.span(),
            );
        }
        let outer = self.set_in_loop(true);
        self.enter();
        self.check_block(env, &x.body);
        self.leave();
        let _ = self.set_in_loop(outer);
        self.check_scoped(env, &x.else_block);
    }

    fn check_range(
        &mut self,
        env: &Env<'_>,
        x: &ForStmt,
        start: &Type,
        start_span: Span,
        end: &Type,
        end_span: Span,
    ) -> (r: Type)
        ensures
            (final(self)@, r@) == ranged(
                env@,
                old(self)@,
                *x,
                start@,
                start_span,
                end@,
                end_span,
            ),
    {
        if !start.is_error() && !start.is_int() {
            self.error(cat2("for range start must be Int, got ", &start.text()), start_span);
        }
        if !end.is_error() && !end.is_int() {
            self.error(cat2("for range end must be Int, got ", &end.text()), end_span);
        }
        match &x.var_type {
            Some(te) => {
                let t = self.resolve_type_expr(env, te);
                if !t.is_error() && !t.is_int() {
                    self.error(cat2("for loop variable must be Int, got ", &t.text()), x.span);
                }
                t
            },
            None => Type::Int,
        }
    }

    fn iterate(&mut self, t: &Type, span: Span) -> (r: Type)
        ensures
            (final(self)@, r@) == iterated(old(self)@, t@, span),
    {
        match t {
            Type::Generic(name, args) => {
                if same_text(name, "List") {
                    if args.len() > 0 {
                        args[0].dup()
                    } else {
                        type_var("T")
                    }
                } else {
                    self.error(cat2("for...in requires a List, got ", &t.text()), span);
                    Type::Error
                }
            },
            Type::Error => Type::Error,
            _ => {
                self.error(cat2("for...in requires a List, got ", &t.text()), span);
                Type::Error
            },
        }
    }

    fn check_source(&mut self, env: &Env<'_>, x: &ForStmt) -> (r: Type)
        ensures
            (final(self)@, r@) == sem_source(env@, old(self)@, *x),
        decreases x, 0int,
    {
        match &x.source {
            ForSource::Range { start, end } => {
                let a = self.check_expr(env, start);
                let b = self.check_expr(env, end);
                self.check_range(env, x, &a, start.span(), &b, end.span())
            },
            ForSource::Iterable(e) => {
                let t = self.check_expr(env, e);
                self.iterate(&t, e.span())
            },
        }
    }

    fn check_for(&mut self, env: &Env<'_>, x: &ForStmt)
        ensures
            final(self)@ == sem_for(env@, old(self)@, *x),
        decreases x, 1int,
    {
        let t = self.check_source(env, x);
        let outer = self.set_in_loop(true);
        self.enter();
        self.define_fixed(x.var_name.clone(), t, x.span);
        self.check_block(env, &x.body);
        self.leave();
        let _ = self.set_in_loop(outer);
        self.check_scoped(env, &x.else_block);
    }

    /// Checks the statements of a block.
    pub fn check_block(&mut self, env: &Env<'_>, b: &Block)
        ensures
            final(self)@ == sem_block_n(
                env@,
                old(self)@,
                b.statements@,
                b.statements@.len() as int,
            ),
        decreases b, 0int,
    {
        let ss = &b.statements;
        let mut i: usize = 0;
        while i < ss.len()
            invariant
                i <= ss.len(),
                ss@ == b.statements@,
                self@ == sem_block_n(env@, old(self)@, ss@, i as int),
            decreases ss.len() - i,
        {
            self.check_statement(env, &b.statements[i]);
            i += 1;
        }
    }

    /// Checks the statements of a block and returns the type of its value.
    pub fn check_block_type(&mut self, env: &Env<'_>, b: &Block) -> (r: Type)
        ensures
            (final(self)@, r@) == sem_block_type_n(
                env@,
                old(self)@,
                b.statements@,
                b.statements@.len() as int,
            ),
        decreases b, 0int,
    {
        let ss = &b.statements;
        let mut t = Type::Void;
        let mut returned = false;
        let mut i: usize = 0;
        while i < ss.len()
            invariant
                i <= ss.len(),
                ss@ == b.statements@,
                returned == has_return(ss@, i as int),
                (self@, t@) == sem_block_type_n(env@, old(self)@, ss@, i as int),
            decreases ss.len() - i,
        {
            self.check_statement(env, &b.statements[i]);
            match &b.statements[i] {
                Statement::Return(x) => {
                    assert(ss@[i as int] is Return);
                    returned = true;
                    t =
                    match &x.value {
                        Some(e) => self.infer_expr_type(env, e),
                        None => Type::Void,
                    };
                },
                Statement::Expression(x) => {
                    if i == ss.len() - 1 && !returned {
                        t = self.infer_expr_type(env, &x.expr);
                    }
                },
                _ => {},
            }
            i += 1;
        }
        t
    }
}

} // verus!
