//! Where `defer` may stand, and what may stand in it.
use crate::ast::{Block, Statement};
use crate::span::Span;
use crate::state::{State, StateV};
use crate::walk::{nothing_seen, seen, seen_stmt, DeferWalker, DeferWalkerV};
use vstd::prelude::*;

verus! {

/// What a top-level statement holds: the inside of a `defer`, or the whole of
/// any other statement.
pub open spec fn inside(s: Statement) -> DeferWalkerV {
    match s {
        Statement::Defer(d) => seen(nothing_seen(), d.expr, false),
        _ => seen_stmt(nothing_seen(), s, false),
    }
}

/// The errors of the first `n` top-level statements: a `return` or `?` inside
/// of a `defer`.
pub open spec fn defer_errors_n(st: StateV, ss: Seq<Statement>, n: int) -> StateV
    decreases n,
{
    if n <= 0 {
        st
    } else {
        let s1 = defer_errors_n(st, ss, n - 1);
        match ss[n - 1] {
            Statement::Defer(d) => {
                let w = inside(ss[n - 1]);
                s1.error_if(
                    w.saw_return_at_top,
                    "`return` is not allowed inside a `defer` expression"@,
                    d.span,
                ).error_if(
                    w.saw_try_at_top,
                    "`?` (try) is not allowed inside a `defer` expression"@,
                    d.span,
                )
            },
            _ => s1,
        }
    }
}

/// The position of every `defer` that is not a top-level statement, in the
/// first `n` top-level statements.
pub open spec fn nested_defers_n(ss: Seq<Statement>, n: int) -> Seq<Span>
    decreases n,
{
    if n <= 0 {
        Seq::empty()
    } else {
        nested_defers_n(ss, n - 1) + inside(ss[n - 1]).nested_spans
    }
}

/// One error for each of the first `n` positions.
pub open spec fn placement_errors_n(st: StateV, spans: Seq<Span>, n: int) -> StateV
    decreases n,
{
    if n <= 0 {
        st
    } else {
        placement_errors_n(st, spans, n - 1).error(
            "`defer` must appear at the function's outermost statement level, not inside a loop body, conditional, match arm, or other nested block"@,
            spans[n - 1],
        )
    }
}

/// The errors of a function or lambda body about `defer`.
pub open spec fn defers_placed(st: StateV, b: Block) -> StateV {
    let n = b.statements@.len() as int;
    let nested = nested_defers_n(b.statements@, n);
    placement_errors_n(defer_errors_n(st, b.statements@, n), nested, nested.len() as int)
}

impl State {
    /// Reports every `defer` of a body that is not an outermost statement, and
    /// every `return` and `?` in one that is. Lambdas inside are checked on
    /// their own.
    pub fn check_defer_placement(&mut self, b: &Block)
        ensures
            final(self)@ == defers_placed(old(self)@, *b),
    {
        let mut nested: Vec<Span> = Vec::new();
        let mut i: usize = 0;
        while i < b.statements.len()
            invariant
                i <= b.statements.len(),
                self@ == defer_errors_n(old(self)@, b.statements@, i as int),
                nested@ == nested_defers_n(b.statements@, i as int),
            decreases b.statements.len() - i,
        {
            let mut w = DeferWalker::new();
            match &b.statements[i] {
                Statement::Defer(d) => {
                    w.walk_expr(&d.expr, false);
                    if w.saw_return_at_top {
                        self.error(
                            "`return` is not allowed inside a `defer` expression".to_owned(),
                            d.span,
                        );
                    }
                    if w.saw_try_at_top {
                        self.error(
                            "`?` (try) is not allowed inside a `defer` expression".to_owned(),
                            d.span,
                        );
                    }
                },
                other => w.walk_stmt(other, false),
            }
            let mut found = w.nested_spans;
            nested.append(&mut found);
            i += 1;
        }
        let ghost s1 = self@;
        let mut j: usize = 0;
        while j < nested.len()
            invariant
                j <= nested.len(),
                self@ == placement_errors_n(s1, nested@, j as int),
            decreases nested.len() - j,
        {
            self.error(
                "`defer` must appear at the function's outermost statement level, not inside a loop body, conditional, match arm, or other nested block".to_owned(),
                nested[j],
            );
            j += 1;
        }
    }
}

} // verus!
