//! What checking keeps: findings only grow in number, every scope that is
//! entered is left again, and the surroundings of a statement come back.
use crate::info::{SymbolKindV, VarInfoV};
use crate::slots::entries_kept;
use crate::span::{DiagnosticV, Span};
use crate::state::StateV;
use crate::table::{find, holds, law_find_after_put, law_put_keeps_others, put};
use crate::text::Chars;
use crate::types::{all_settled, any_error, settled, settled_from, Ty};
use vstd::prelude::*;

verus! {

/// What is recorded for later phases holds no error type.
pub open spec fn clean(st: StateV) -> bool {
    &&& forall|k: Span|
        match #[trigger] find(st.call_type_args, k) {
            Some(ts) => !any_error(ts),
            None => true,
        }
    &&& forall|k: Span| #[trigger] find(st.var_annotation_types, k) != Some(Ty::Error)
    &&& forall|k: Span| #[trigger] find(st.json_encode_types, k) != Some(Ty::Error)
    &&& forall|k: Span| #[trigger] find(st.json_decode_types, k) != Some(Ty::Error)
}

/// The surroundings of the current statement are the same.
pub open spec fn same_surroundings(a: StateV, b: StateV) -> bool {
    &&& a.return_type == b.return_type
    &&& a.in_loop == b.in_loop
    &&& a.type_params == b.type_params
    &&& a.bounds == b.bounds
    &&& a.in_constraint == b.in_constraint
    &&& a.file_field_allowed == b.file_field_allowed
    &&& a.file_bearing_struct_allowed == b.file_bearing_struct_allowed
}

/// Whether every name in `params` is in `all`.
pub open spec fn within(params: Seq<Chars>, all: Seq<Chars>) -> bool {
    forall|p: Chars| #[trigger] params.contains(p) ==> all.contains(p)
}

/// Whether the type arguments of all calls are complete, up to the type
/// parameters in `params`.
pub open spec fn args_settled(args: Seq<(Span, Seq<Ty>)>, params: Seq<Chars>) -> bool {
    forall|k: Span|
        match #[trigger] find(args, k) {
            Some(ts) => all_settled(ts, params),
            None => true,
        }
}

/// Nothing that was found or recorded is lost, and what is recorded stays free
/// of the error type.
pub open spec fn nothing_lost(a: StateV, b: StateV) -> bool {
    &&& a.diagnostics.is_prefix_of(b.diagnostics)
    &&& forall|k: Span| #[trigger] holds(a.expr_types, k) ==> holds(b.expr_types, k)
    &&& clean(a) ==> clean(b)
}

/// Besides, no type argument has a type parameter that is not in scope.
pub open spec fn more_recorded(a: StateV, b: StateV) -> bool {
    &&& nothing_lost(a, b)
    &&& forall|all: Seq<Chars>|
        within(a.type_params, all) && args_settled(a.call_type_args, all)
            ==> #[trigger] args_settled(b.call_type_args, all)
}

/// What checking an expression keeps: the scopes and the surroundings are the
/// same, and nothing that was found or recorded is lost.
#[verifier::opaque]
pub open spec fn kept(a: StateV, b: StateV) -> bool {
    a.scopes == b.scopes && same_surroundings(a, b) && more_recorded(a, b)
}

/// What checking a declaration keeps: the same, except that type arguments may
/// have any of the type parameters in `all`.
#[verifier::opaque]
pub open spec fn lasting(all: Seq<Chars>, a: StateV, b: StateV) -> bool {
    &&& a.scopes == b.scopes
    &&& same_surroundings(a, b)
    &&& nothing_lost(a, b)
    &&& args_settled(a.call_type_args, all) ==> args_settled(b.call_type_args, all)
}

/// The outer scopes are the same, and the innermost one has all that it had.
pub open spec fn scopes_grown(
    a: Seq<Seq<(Chars, VarInfoV)>>,
    b: Seq<Seq<(Chars, VarInfoV)>>,
) -> bool {
    &&& a.len() == b.len()
    &&& a.len() > 0 ==> a.drop_last() == b.drop_last() && entries_kept(a.last(), b.last())
}

/// What checking a statement keeps: the same, except that the innermost scope
/// may have more variables.
#[verifier::opaque]
pub open spec fn grown(a: StateV, b: StateV) -> bool {
    scopes_grown(a.scopes, b.scopes) && same_surroundings(a, b) && more_recorded(a, b)
}

pub broadcast proof fn kept_refl(a: StateV)
    ensures
        #[trigger] kept(a, a),
{
    reveal(kept);
}

pub broadcast proof fn kept_trans(a: StateV, b: StateV, c: StateV)
    requires
        #[trigger] kept(a, b),
        #[trigger] kept(b, c),
    ensures
        kept(a, c),
{
    reveal(kept);
    lemma_nothing_lost_trans(a, b, c);
    assert forall|all: Seq<Chars>|
        within(a.type_params, all) && args_settled(a.call_type_args, all)
            implies #[trigger] args_settled(c.call_type_args, all) by {
        assert(args_settled(b.call_type_args, all));
    }
}

pub broadcast proof fn lasting_refl(all: Seq<Chars>, a: StateV)
    ensures
        #[trigger] lasting(all, a, a),
{
    reveal(lasting);
}

pub broadcast proof fn lasting_trans(all: Seq<Chars>, a: StateV, b: StateV, c: StateV)
    requires
        #[trigger] lasting(all, a, b),
        #[trigger] lasting(all, b, c),
    ensures
        lasting(all, a, c),
{
    reveal(lasting);
    lemma_nothing_lost_trans(a, b, c);
}

/// What is kept lasts, where the type parameters in scope are in `all`.
pub proof fn lemma_kept_lasts(all: Seq<Chars>, a: StateV, b: StateV)
    requires
        kept(a, b),
        within(a.type_params, all),
    ensures
        lasting(all, a, b),
{
    reveal(kept);
    reveal(lasting);
}

proof fn lemma_nothing_lost_trans(a: StateV, b: StateV, c: StateV)
    requires
        nothing_lost(a, b),
        nothing_lost(b, c),
    ensures
        nothing_lost(a, c),
{
    assert(a.diagnostics.is_prefix_of(c.diagnostics)) by {
        assert(c.diagnostics.subrange(0, a.diagnostics.len() as int) =~= a.diagnostics);
    }
    assert forall|k: Span| #[trigger] holds(a.expr_types, k) implies holds(c.expr_types, k) by {
        assert(holds(b.expr_types, k));
    }
}

pub broadcast proof fn grown_refl(a: StateV)
    ensures
        #[trigger] grown(a, a),
{
    reveal(grown);
}

pub broadcast proof fn grown_trans(a: StateV, b: StateV, c: StateV)
    requires
        #[trigger] grown(a, b),
        #[trigger] grown(b, c),
    ensures
        grown(a, c),
{
    reveal(grown);
    lemma_nothing_lost_trans(a, b, c);
    assert forall|all: Seq<Chars>|
        within(a.type_params, all) && args_settled(a.call_type_args, all)
            implies #[trigger] args_settled(c.call_type_args, all) by {
        assert(args_settled(b.call_type_args, all));
    }
    if a.scopes.len() > 0 {
        assert forall|k: Chars| #[trigger] holds(a.scopes.last(), k) implies find(
            c.scopes.last(),
            k,
        ) == find(a.scopes.last(), k) by {
            assert(holds(b.scopes.last(), k));
        }
    }
}

/// An expression keeps more than a statement.
pub broadcast proof fn kept_is_grown(a: StateV, b: StateV)
    requires
        #[trigger] kept(a, b),
    ensures
        grown(a, b),
{
    reveal(kept);
    reveal(grown);
}

// ── Single steps ─────────────────────────────────────────────────────

pub broadcast proof fn kept_diagnose(st: StateV, d: DiagnosticV)
    ensures
        kept(st, #[trigger] st.diagnose(d)),
{
    reveal(kept);
    let r = st.diagnose(d);
    assert(r.diagnostics.subrange(0, st.diagnostics.len() as int) =~= st.diagnostics);
    assert(clean(st) ==> clean(r));
}

pub broadcast proof fn kept_record_type(st: StateV, span: Span, t: Ty)
    ensures
        kept(st, #[trigger] st.record_type(span, t)),
{
    reveal(kept);
    let r = st.record_type(span, t);
    assert forall|k: Span| #[trigger] holds(st.expr_types, k) implies holds(r.expr_types, k) by {
        law_find_after_put(st.expr_types, span, t);
        if k != span {
            law_put_keeps_others(st.expr_types, span, t, k);
        }
    }
    assert(clean(st) ==> clean(r));
}

pub broadcast proof fn kept_refer(st: StateV, span: Span, kind: SymbolKindV, name: Chars)
    ensures
        kept(st, #[trigger] st.refer(span, kind, name)),
{
    reveal(kept);
    assert(clean(st) ==> clean(st.refer(span, kind, name)));
}

/// Recording what a lambda captures, or which function a call reaches.
pub proof fn lemma_kept_others(st: StateV, r: StateV)
    requires
        r == (StateV {
            lambda_captures: r.lambda_captures,
            namespace_call_targets: r.namespace_call_targets,
            ..st
        }),
    ensures
        kept(st, r),
{
    reveal(kept);
    assert(clean(st) ==> clean(r));
}

/// Recording the type of an annotated variable.
pub proof fn lemma_kept_annotation(st: StateV, span: Span, t: Ty)
    requires
        t != Ty::Error,
    ensures
        kept(
            st,
            (StateV { var_annotation_types: put(st.var_annotation_types, span, t), ..st }),
        ),
{
    reveal(kept);
    let r = StateV { var_annotation_types: put(st.var_annotation_types, span, t), ..st };
    if clean(st) {
        assert forall|k: Span| #[trigger] find(r.var_annotation_types, k) != Some(Ty::Error) by {
            law_find_after_put(st.var_annotation_types, span, t);
            if k != span {
                law_put_keeps_others(st.var_annotation_types, span, t, k);
            }
        }
        assert(clean(r));
    }
}

/// Recording the type that a `json.encode` takes.
pub proof fn lemma_kept_encode(st: StateV, span: Span, t: Ty)
    requires
        t != Ty::Error,
    ensures
        kept(st, (StateV { json_encode_types: put(st.json_encode_types, span, t), ..st })),
{
    reveal(kept);
    let r = StateV { json_encode_types: put(st.json_encode_types, span, t), ..st };
    if clean(st) {
        assert forall|k: Span| #[trigger] find(r.json_encode_types, k) != Some(Ty::Error) by {
            law_find_after_put(st.json_encode_types, span, t);
            if k != span {
                law_put_keeps_others(st.json_encode_types, span, t, k);
            }
        }
        assert(clean(r));
    }
}

/// Recording the type that a `json.decode` gives.
pub proof fn lemma_kept_decode(st: StateV, span: Span, t: Ty)
    requires
        t != Ty::Error,
    ensures
        kept(st, (StateV { json_decode_types: put(st.json_decode_types, span, t), ..st })),
{
    reveal(kept);
    let r = StateV { json_decode_types: put(st.json_decode_types, span, t), ..st };
    if clean(st) {
        assert forall|k: Span| #[trigger] find(r.json_decode_types, k) != Some(Ty::Error) by {
            law_find_after_put(st.json_decode_types, span, t);
            if k != span {
                law_put_keeps_others(st.json_decode_types, span, t, k);
            }
        }
        assert(clean(r));
    }
}

/// What is complete stays so with more type parameters.
proof fn lemma_settled_within(t: Ty, params: Seq<Chars>, all: Seq<Chars>)
    requires
        within(params, all),
        settled(t, params),
    ensures
        settled(t, all),
    decreases t, 0int,
{
    match t {
        Ty::Generic(_, args) => {
            lemma_all_settled_within(args, params, all, 0);
        },
        Ty::Function(ps, r) => {
            lemma_all_settled_within(ps, params, all, 0);
            lemma_settled_within(*r, params, all);
        },
        _ => {},
    }
}

proof fn lemma_all_settled_within(ts: Seq<Ty>, params: Seq<Chars>, all: Seq<Chars>, i: int)
    requires
        within(params, all),
        settled_from(ts, params, i),
        0 <= i,
    ensures
        settled_from(ts, all, i),
    decreases ts, ts.len() - i,
{
    if i < ts.len() {
        lemma_settled_within(ts[i], params, all);
        lemma_all_settled_within(ts, params, all, i + 1);
    }
}

/// What is complete is not the error type.
proof fn lemma_settled_not_error(ts: Seq<Ty>, params: Seq<Chars>, i: int, k: int)
    requires
        settled_from(ts, params, i),
        0 <= i <= k < ts.len(),
    ensures
        ts[k] != Ty::Error,
    decreases k - i,
{
    if i < k {
        lemma_settled_not_error(ts, params, i + 1, k);
    } else {
        assert(settled(ts[i], params));
    }
}

/// Recording the type arguments of a call.
pub proof fn lemma_kept_type_args(st: StateV, span: Span, ts: Seq<Ty>)
    requires
        all_settled(ts, st.type_params),
    ensures
        kept(st, (StateV { call_type_args: put(st.call_type_args, span, ts), ..st })),
{
    reveal(kept);
    let r = StateV { call_type_args: put(st.call_type_args, span, ts), ..st };
    assert forall|k: int| 0 <= k < ts.len() implies #[trigger] ts[k] != Ty::Error by {
        lemma_settled_not_error(ts, st.type_params, 0, k);
    }
    assert forall|all: Seq<Chars>|
        within(st.type_params, all) && args_settled(st.call_type_args, all)
            implies #[trigger] args_settled(r.call_type_args, all) by {
        lemma_all_settled_within(ts, st.type_params, all, 0);
        assert forall|k: Span|
            match #[trigger] find(r.call_type_args, k) {
                Some(ts) => all_settled(ts, all),
                None => true,
            } by {
            law_find_after_put(st.call_type_args, span, ts);
            if k != span {
                law_put_keeps_others(st.call_type_args, span, ts, k);
            }
        }
    }
    if clean(st) {
        assert forall|k: Span|
            match #[trigger] find(r.call_type_args, k) {
                Some(ts) => !any_error(ts),
                None => true,
            } by {
            law_find_after_put(st.call_type_args, span, ts);
            if k != span {
                law_put_keeps_others(st.call_type_args, span, ts, k);
            }
        }
        assert(clean(r));
    }
}

// ── Scopes ───────────────────────────────────────────────────────────

/// A new variable.
pub broadcast proof fn grown_define(st: StateV, name: Chars, v: VarInfoV)
    ensures
        grown(st, #[trigger] st.define(name, v)),
{
    reveal(grown);
    let r = st.define(name, v);
    assert(clean(st) ==> clean(r));
    if st.can_define(name) {
        let s = st.scopes.last();
        assert(r.scopes.last() == put(s, name, v));
        assert(r.scopes.drop_last() =~= st.scopes.drop_last());
        assert forall|k: Chars| #[trigger] holds(s, k) implies find(r.scopes.last(), k) == find(
            s,
            k,
        ) by {
            law_put_keeps_others(s, name, v, k);
        }
    }
}

/// What happens in a scope of its own leaves the scopes as they were.
pub broadcast proof fn kept_scope(st: StateV, s: StateV)
    requires
        #[trigger] grown(st.enter(), s),
    ensures
        kept(st, s.leave()),
{
    reveal(grown);
    reveal(kept);
    let a = st.enter();
    let r = s.leave();
    assert(a.scopes.drop_last() =~= st.scopes);
    assert(r.scopes =~= st.scopes);
    assert(a.expr_types == st.expr_types);
    assert(r.expr_types == s.expr_types);
    assert(clean(st) ==> clean(a));
    assert(clean(s) ==> clean(r));
    assert(more_recorded(st, r)) by {
        assert forall|k: Span| #[trigger] holds(st.expr_types, k) implies holds(
            r.expr_types,
            k,
        ) by {
            assert(holds(a.expr_types, k));
        }
    }
}

/// Dropping the findings since an earlier state.
pub broadcast proof fn kept_forget(st: StateV, s: StateV)
    requires
        kept(st, s),
    ensures
        kept(st, #[trigger] s.forget_since(st)),
        s.forget_since(st).diagnostics == st.diagnostics,
{
    reveal(kept);
    let r = s.forget_since(st);
    assert(r.diagnostics =~= st.diagnostics);
    assert(clean(s) ==> clean(r));
}

// ── Surroundings that change for a while ─────────────────────────────

/// Inside a loop.
pub proof fn lemma_kept_in_loop(a: StateV, b: StateV, flag: bool)
    requires
        kept(StateV { in_loop: flag, ..a }, b),
    ensures
        kept(a, StateV { in_loop: a.in_loop, ..b }),
{
    reveal(kept);
    let x = StateV { in_loop: flag, ..a };
    let y = StateV { in_loop: a.in_loop, ..b };
    assert(clean(a) ==> clean(x));
    assert(clean(b) ==> clean(y));
    assert forall|k: Span| #[trigger] holds(a.expr_types, k) implies holds(y.expr_types, k) by {
        assert(holds(x.expr_types, k));
    }
}

/// Inside a lambda.
pub proof fn lemma_kept_return_type(a: StateV, b: StateV, t: Option<Ty>)
    requires
        kept(StateV { return_type: t, ..a }, b),
    ensures
        kept(a, StateV { return_type: a.return_type, ..b }),
{
    reveal(kept);
    let x = StateV { return_type: t, ..a };
    let y = StateV { return_type: a.return_type, ..b };
    assert(clean(a) ==> clean(x));
    assert(clean(b) ==> clean(y));
    assert forall|k: Span| #[trigger] holds(a.expr_types, k) implies holds(y.expr_types, k) by {
        assert(holds(x.expr_types, k));
    }
}

/// Where other things are said about `File`.
pub proof fn lemma_kept_files(a: StateV, b: StateV, field: bool, body: bool)
    requires
        kept(a.files(field, body), b),
    ensures
        kept(a, b.files(a.file_field_allowed, a.file_bearing_struct_allowed)),
{
    reveal(kept);
    let x = a.files(field, body);
    let y = b.files(a.file_field_allowed, a.file_bearing_struct_allowed);
    assert(clean(a) ==> clean(x));
    assert(clean(b) ==> clean(y));
    assert forall|k: Span| #[trigger] holds(a.expr_types, k) implies holds(y.expr_types, k) by {
        assert(holds(x.expr_types, k));
    }
}

/// Inside a `where` clause.
pub proof fn lemma_kept_in_constraint(a: StateV, b: StateV, flag: bool)
    requires
        kept(StateV { in_constraint: flag, ..a }, b),
    ensures
        kept(a, StateV { in_constraint: a.in_constraint, ..b }),
{
    reveal(kept);
    let x = StateV { in_constraint: flag, ..a };
    let y = StateV { in_constraint: a.in_constraint, ..b };
    assert(clean(a) ==> clean(x));
    assert(clean(b) ==> clean(y));
    assert forall|k: Span| #[trigger] holds(a.expr_types, k) implies holds(y.expr_types, k) by {
        assert(holds(x.expr_types, k));
    }
}

/// With other type parameters in scope, where no call is checked.
pub proof fn lemma_kept_type_params(a: StateV, b: StateV, type_params: Seq<Chars>)
    requires
        a.call_type_args == b.call_type_args,
        kept(StateV { type_params, ..a }, b),
    ensures
        kept(a, StateV { type_params: a.type_params, ..b }),
{
    reveal(kept);
    let x = StateV { type_params, ..a };
    let y = StateV { type_params: a.type_params, ..b };
    assert(clean(a) ==> clean(x));
    assert(clean(b) ==> clean(y));
    assert forall|k: Span| #[trigger] holds(a.expr_types, k) implies holds(y.expr_types, k) by {
        assert(holds(x.expr_types, k));
    }
}

/// With other type parameters in scope, where calls may be checked.
pub proof fn lemma_type_params_last(
    all: Seq<Chars>,
    a: StateV,
    b: StateV,
    type_params: Seq<Chars>,
)
    requires
        within(type_params, all),
        kept(StateV { type_params, ..a }, b),
    ensures
        lasting(all, a, StateV { type_params: a.type_params, ..b }),
{
    reveal(kept);
    reveal(lasting);
    let x = StateV { type_params, ..a };
    let y = StateV { type_params: a.type_params, ..b };
    assert(clean(a) ==> clean(x));
    assert(clean(b) ==> clean(y));
    assert forall|k: Span| #[trigger] holds(a.expr_types, k) implies holds(y.expr_types, k) by {
        assert(holds(x.expr_types, k));
    }
}

/// With other type parameters and bounds in scope, and inside a function.
pub proof fn lemma_function_lasts(
    all: Seq<Chars>,
    a: StateV,
    b: StateV,
    type_params: Seq<Chars>,
    bounds: Seq<(Chars, Seq<Chars>)>,
    t: Option<Ty>,
)
    requires
        within(type_params, all),
        kept(StateV { type_params, bounds, return_type: t, ..a }, b),
    ensures
        lasting(
            all,
            a,
            StateV {
                type_params: a.type_params,
                bounds: a.bounds,
                return_type: a.return_type,
                ..b
            },
        ),
{
    reveal(kept);
    reveal(lasting);
    let x = StateV { type_params, bounds, return_type: t, ..a };
    let y = StateV {
        type_params: a.type_params,
        bounds: a.bounds,
        return_type: a.return_type,
        ..b
    };
    assert(clean(a) ==> clean(x));
    assert(clean(b) ==> clean(y));
    assert forall|k: Span| #[trigger] holds(a.expr_types, k) implies holds(y.expr_types, k) by {
        assert(holds(x.expr_types, k));
    }
}

pub broadcast group steps {
    kept_refl,
    kept_trans,
    kept_diagnose,
    kept_record_type,
    kept_refer,
}

} // verus!
