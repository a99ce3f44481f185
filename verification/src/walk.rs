//! A walk over expressions and statements that looks for `defer`, `return`
//! and `?`. Lambdas are not entered: what they contain is their own.
use crate::ast::{
    Block, ElseBranch, Expr, ForSource, IfExpr, LambdaExpr, MatchArm, MatchBody, MatchExpr,
    Statement, StringSegment,
};
use crate::span::Span;
use vstd::prelude::*;

verus! {

/// What a walk has seen: the position of every `defer`, and whether there was
/// a `return` or a `?` outside of them.
pub struct DeferWalker {
    pub nested_spans: Vec<Span>,
    pub saw_return_at_top: bool,
    pub saw_try_at_top: bool,
}

/// What a [`DeferWalker`] holds.
#[verifier::ext_equal]
pub struct DeferWalkerV {
    pub nested_spans: Seq<Span>,
    pub saw_return_at_top: bool,
    pub saw_try_at_top: bool,
}

impl View for DeferWalker {
    type V = DeferWalkerV;

    open spec fn view(&self) -> DeferWalkerV {
        DeferWalkerV {
            nested_spans: self.nested_spans@,
            saw_return_at_top: self.saw_return_at_top,
            saw_try_at_top: self.saw_try_at_top,
        }
    }
}

/// A walk that has seen nothing.
pub open spec fn nothing_seen() -> DeferWalkerV {
    DeferWalkerV { nested_spans: Seq::empty(), saw_return_at_top: false, saw_try_at_top: false }
}

/// What is seen after walking an expression; `nested` inside of a `defer`.
pub open spec fn seen(w: DeferWalkerV, e: Expr, nested: bool) -> DeferWalkerV
    decreases e, 0int,
{
    match e {
        Expr::Literal(_) | Expr::Ident(_) | Expr::Lambda(_) => w,
        Expr::Binary(x) => seen(seen(w, x.left, nested), x.right, nested),
        Expr::Unary(x) => seen(w, x.operand, nested),
        Expr::Call(x) => {
            let w1 = seen(w, x.callee, nested);
            let w2 = seen_n(w1, x.args.positional@, nested, x.args.positional@.len() as int);
            seen_named_n(w2, x.args.named@, nested, x.args.named@.len() as int)
        },
        Expr::Assignment(x) => seen(w, x.value, nested),
        Expr::FieldAssignment(x) => seen(seen(w, x.object, nested), x.value, nested),
        Expr::FieldAccess(x) => seen(w, x.object, nested),
        Expr::MethodCall(x) => {
            let w1 = seen(w, x.object, nested);
            let w2 = seen_n(w1, x.args.positional@, nested, x.args.positional@.len() as int);
            seen_named_n(w2, x.args.named@, nested, x.args.named@.len() as int)
        },
        Expr::StructLiteral(x) => seen_n(w, x.args@, nested, x.args@.len() as int),
        Expr::Match(x) => seen_arms_n(
            seen(w, x.subject, nested),
            x.arms@,
            nested,
            x.arms@.len() as int,
        ),
        Expr::If(x) => seen_if(w, *x, nested),
        Expr::ListLiteral(x) => seen_n(w, x.elements@, nested, x.elements@.len() as int),
        Expr::MapLiteral(x) => seen_entries_n(w, x.entries@, nested, x.entries@.len() as int),
        Expr::StringInterpolation(x) => seen_segments_n(
            w,
            x.segments@,
            nested,
            x.segments@.len() as int,
        ),
        Expr::Try(x) => seen(
            DeferWalkerV { saw_try_at_top: w.saw_try_at_top || !nested, ..w },
            x.operand,
            nested,
        ),
    }
}

pub open spec fn seen_n(w: DeferWalkerV, es: Seq<Expr>, nested: bool, n: int) -> DeferWalkerV
    decreases es, n,
{
    if n <= 0 || n > es.len() {
        w
    } else {
        seen(seen_n(w, es, nested, n - 1), es[n - 1], nested)
    }
}

pub open spec fn seen_named_n(
    w: DeferWalkerV,
    es: Seq<(String, Expr)>,
    nested: bool,
    n: int,
) -> DeferWalkerV
    decreases es, n,
{
    if n <= 0 || n > es.len() {
        w
    } else {
        seen(seen_named_n(w, es, nested, n - 1), es[n - 1].1, nested)
    }
}

pub open spec fn seen_entries_n(
    w: DeferWalkerV,
    es: Seq<(Expr, Expr)>,
    nested: bool,
    n: int,
) -> DeferWalkerV
    decreases es, n,
{
    if n <= 0 || n > es.len() {
        w
    } else {
        seen(
            seen(seen_entries_n(w, es, nested, n - 1), es[n - 1].0, nested),
            es[n - 1].1,
            nested,
        )
    }
}

pub open spec fn seen_segments_n(
    w: DeferWalkerV,
    es: Seq<StringSegment>,
    nested: bool,
    n: int,
) -> DeferWalkerV
    decreases es, n,
{
    if n <= 0 || n > es.len() {
        w
    } else {
        let w1 = seen_segments_n(w, es, nested, n - 1);
        match es[n - 1] {
            StringSegment::Expr(e) => seen(w1, e, nested),
            StringSegment::Literal(_) => w1,
        }
    }
}

pub open spec fn seen_arms_n(w: DeferWalkerV, arms: Seq<MatchArm>, nested: bool, n: int) -> DeferWalkerV
    decreases arms, n,
{
    if n <= 0 || n > arms.len() {
        w
    } else {
        let w1 = seen_arms_n(w, arms, nested, n - 1);
        match arms[n - 1].body {
            MatchBody::Expr(e) => seen(w1, e, nested),
            MatchBody::Block(b) => seen_stmts_n(
                w1,
                b.statements@,
                nested,
                b.statements@.len() as int,
            ),
        }
    }
}

pub open spec fn seen_if(w: DeferWalkerV, x: IfExpr, nested: bool) -> DeferWalkerV
    decreases x, 0int,
{
    let w1 = seen(w, x.condition, nested);
    let w2 = seen_stmts_n(
        w1,
        x.then_block.statements@,
        nested,
        x.then_block.statements@.len() as int,
    );
    match x.else_branch {
        Some(ElseBranch::Block(b)) => seen_stmts_n(
            w2,
            b.statements@,
            nested,
            b.statements@.len() as int,
        ),
        Some(ElseBranch::ElseIf(y)) => seen_if(w2, *y, nested),
        None => w2,
    }
}

/// What is seen after walking a statement.
pub open spec fn seen_stmt(w: DeferWalkerV, s: Statement, nested: bool) -> DeferWalkerV
    decreases s, 0int,
{
    match s {
        Statement::Expression(x) => seen(w, x.expr, nested),
        Statement::VarDecl(x) => seen(w, x.initializer, nested),
        Statement::Return(x) => {
            let w1 = DeferWalkerV { saw_return_at_top: w.saw_return_at_top || !nested, ..w };
            match x.value {
                Some(e) => seen(w1, e, nested),
                None => w1,
            }
        },
        Statement::While(x) => {
            let w1 = seen(w, x.condition, nested);
            let w2 = seen_stmts_n(
                w1,
                x.body.statements@,
                nested,
                x.body.statements@.len() as int,
            );
            match x.else_block {
                Some(b) => seen_stmts_n(w2, b.statements@, nested, b.statements@.len() as int),
                None => w2,
            }
        },
        Statement::For(x) => {
            let w1 = match x.source {
                ForSource::Range { start, end } => seen(seen(w, start, nested), end, nested),
                ForSource::Iterable(e) => seen(w, e, nested),
            };
            let w2 = seen_stmts_n(
                w1,
                x.body.statements@,
                nested,
                x.body.statements@.len() as int,
            );
            match x.else_block {
                Some(b) => seen_stmts_n(w2, b.statements@, nested, b.statements@.len() as int),
                None => w2,
            }
        },
        Statement::Defer(x) => seen(
            DeferWalkerV { nested_spans: w.nested_spans.push(x.span), ..w },
            x.expr,
            true,
        ),
        Statement::Break(_) | Statement::Continue(_) => w,
    }
}

pub open spec fn seen_stmts_n(w: DeferWalkerV, ss: Seq<Statement>, nested: bool, n: int) -> DeferWalkerV
    decreases ss, n,
{
    if n <= 0 || n > ss.len() {
        w
    } else {
        seen_stmt(seen_stmts_n(w, ss, nested, n - 1), ss[n - 1], nested)
    }
}

impl DeferWalker {
    pub fn new() -> (r: Self)
        ensures
            r@ == nothing_seen(),
    {
        DeferWalker { nested_spans: Vec::new(), saw_return_at_top: false, saw_try_at_top: false }
    }

    pub fn walk_expr(&mut self, e: &Expr, nested: bool)
        ensures
            final(self)@ == seen(old(self)@, *e, nested),
        decreases e, 1int,
    {
        match e {
            Expr::Literal(_) | Expr::Ident(_) | Expr::Lambda(_) => {},
            Expr::Binary(x) => {
                self.walk_expr(&x.left, nested);
                self.walk_expr(&x.right, nested);
            },
            Expr::Unary(x) => self.walk_expr(&x.operand, nested),
            Expr::Call(x) => {
                self.walk_expr(&x.callee, nested);
                self.walk_exprs(&x.args.positional, nested);
                self.walk_named(&x.args.named, nested);
            },
            Expr::Assignment(x) => self.walk_expr(&x.value, nested),
            Expr::FieldAssignment(x) => {
                self.walk_expr(&x.object, nested);
                self.walk_expr(&x.value, nested);
            },
            Expr::FieldAccess(x) => self.walk_expr(&x.object, nested),
            Expr::MethodCall(x) => {
                self.walk_expr(&x.object, nested);
                self.walk_exprs(&x.args.positional, nested);
                self.walk_named(&x.args.named, nested);
            },
            Expr::StructLiteral(x) => self.walk_exprs(&x.args, nested),
            Expr::Match(x) => self.walk_match(x, nested),
            Expr::If(x) => self.walk_if(x, nested),
            Expr::ListLiteral(x) => self.walk_exprs(&x.elements, nested),
            Expr::MapLiteral(x) => self.walk_entries(&x.entries, nested),
            Expr::StringInterpolation(x) => self.walk_segments(&x.segments, nested),
            Expr::Try(x) => {
                if !nested {
                    self.saw_try_at_top = true;
                }
                self.walk_expr(&x.operand, nested);
            },
        }
    }

    fn walk_exprs(&mut self, es: &Vec<Expr>, nested: bool)
        ensures
            final(self)@ == seen_n(old(self)@, es@, nested, es@.len() as int),
        decreases es, 0int,
    {
        let mut i: usize = 0;
        while i < es.len()
            invariant
                i <= es.len(),
                self@ == seen_n(old(self)@, es@, nested, i as int),
            decreases es.len() - i,
        {
            self.walk_expr(&es[i], nested);
            i += 1;
        }
    }

    fn walk_named(&mut self, es: &Vec<(String, Expr)>, nested: bool)
        ensures
            final(self)@ == seen_named_n(old(self)@, es@, nested, es@.len() as int),
        decreases es, 0int,
    {
        let mut i: usize = 0;
        while i < es.len()
            invariant
                i <= es.len(),
                self@ == seen_named_n(old(self)@, es@, nested, i as int),
            decreases es.len() - i,
        {
            self.walk_expr(&es[i].1, nested);
            i += 1;
        }
    }

    fn walk_entries(&mut self, es: &Vec<(Expr, Expr)>, nested: bool)
        ensures
            final(self)@ == seen_entries_n(old(self)@, es@, nested, es@.len() as int),
        decreases es, 0int,
    {
        let mut i: usize = 0;
        while i < es.len()
            invariant
                i <= es.len(),
                self@ == seen_entries_n(old(self)@, es@, nested, i as int),
            decreases es.len() - i,
        {
            self.walk_expr(&es[i].0, nested);
            self.walk_expr(&es[i].1, nested);
            i += 1;
        }
    }

    fn walk_segments(&mut self, es: &Vec<StringSegment>, nested: bool)
        ensures
            final(self)@ == seen_segments_n(old(self)@, es@, nested, es@.len() as int),
        decreases es, 0int,
    {
        let mut i: usize = 0;
        while i < es.len()
            invariant
                i <= es.len(),
                self@ == seen_segments_n(old(self)@, es@, nested, i as int),
            decreases es.len() - i,
        {
            if let StringSegment::Expr(e) = &es[i] {
                self.walk_expr(e, nested);
            }
            i += 1;
        }
    }

    fn walk_match(&mut self, m: &MatchExpr, nested: bool)
        ensures
            final(self)@ == seen_arms_n(
                seen(old(self)@, m.subject, nested),
                m.arms@,
                nested,
                m.arms@.len() as int,
            ),
        decreases m, 1int,
    {
        self.walk_expr(&m.subject, nested);
        let ghost start = self@;
        let mut i: usize = 0;
        while i < m.arms.len()
            invariant
                i <= m.arms.len(),
                self@ == seen_arms_n(start, m.arms@, nested, i as int),
            decreases m.arms.len() - i,
        {
            match &m.arms[i].body {
                MatchBody::Expr(e) => self.walk_expr(e, nested),
                MatchBody::Block(b) => self.walk_block(b, nested),
            }
            i += 1;
        }
    }

    fn walk_if(&mut self, x: &IfExpr, nested: bool)
        ensures
            final(self)@ == seen_if(old(self)@, *x, nested),
        decreases x, 1int,
    {
        self.walk_expr(&x.condition, nested);
        self.walk_block(&x.then_block, nested);
        match &x.else_branch {
            Some(ElseBranch::Block(b)) => self.walk_block(b, nested),
            Some(ElseBranch::ElseIf(y)) => self.walk_if(y, nested),
            None => {},
        }
    }

    fn walk_block(&mut self, b: &Block, nested: bool)
        ensures
            final(self)@ == seen_stmts_n(
                old(self)@,
                b.statements@,
                nested,
                b.statements@.len() as int,
            ),
        decreases b, 0int,
    {
        let mut i: usize = 0;
        while i < b.statements.len()
            invariant
                i <= b.statements.len(),
                self@ == seen_stmts_n(old(self)@, b.statements@, nested, i as int),
            decreases b.statements.len() - i,
        {
            self.walk_stmt(&b.statements[i], nested);
            i += 1;
        }
    }

    pub fn walk_stmt(&mut self, s: &Statement, nested: bool)
        ensures
            final(self)@ == seen_stmt(old(self)@, *s, nested),
        decreases s, 1int,
    {
        match s {
            Statement::Expression(x) => self.walk_expr(&x.expr, nested),
            Statement::VarDecl(x) => self.walk_expr(&x.initializer, nested),
            Statement::Return(x) => {
                if !nested {
                    self.saw_return_at_top = true;
                }
                if let Some(e) = &x.value {
                    self.walk_expr(e, nested);
                }
            },
            Statement::While(x) => {
                self.walk_expr(&x.condition, nested);
                self.walk_block(&x.body, nested);
                if let Some(b) = &x.else_block {
                    self.walk_block(b, nested);
                }
            },
            Statement::For(x) => {
                match &x.source {
                    ForSource::Range { start, end } => {
                        self.walk_expr(start, nested);
                        self.walk_expr(end, nested);
                    },
                    ForSource::Iterable(e) => self.walk_expr(e, nested),
                }
                self.walk_block(&x.body, nested);
                if let Some(b) = &x.else_block {
                    self.walk_block(b, nested);
                }
            },
            Statement::Defer(x) => {
                self.nested_spans.push(x.span);
                self.walk_expr(&x.expr, true);
            },
            Statement::Break(_) | Statement::Continue(_) => {},
        }
    }
}

/// The walk stops at a lambda: a `return` or `?` in its body leaves the lambda,
/// not what is around it.
pub proof fn law_walk_stops_at_lambda(w: DeferWalkerV, x: Box<LambdaExpr>, nested: bool)
    ensures
        seen(w, Expr::Lambda(x), nested) == w,
{
}

} // verus!
