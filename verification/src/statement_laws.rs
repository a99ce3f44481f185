//! What statements and bodies without findings say: values fit what they are
//! for, names stand for what was declared, and every part is checked.
use crate::ast::{
    Block, ForSource, ForStmt, FunctionDecl, InlineTraitImpl, Param, ReturnStmt, Statement, VarDecl,
    WhileStmt,
};
use crate::binding_laws::{law_definition_is_found, law_field_is_found};
use crate::bodies::{
    body_checked, defaults_checked_n, inline_impls_checked_n, methods_checked, methods_checked_n,
    result_checked, type_params_of,
};
use crate::check_expr::{field_from, params_defined_n, resolved_params_n, sem_again, sem_expr};
use crate::check_stmt::{declared, destructured_n, sem_block_n, sem_scoped, sem_source, sem_stmt};
use crate::check_types::{compatible, resolved};
use crate::check_expr::own_type;
use crate::defer::defers_placed;
use crate::env::{canonical, EnvV};
use crate::fit_laws::{
    accepted, lemma_counts, lemma_pinned_silent, lemma_steps, silent, steady_at,
};
use crate::flow::{if_diverges, returns_from};
use crate::info::{FieldInfoV, VarInfoV};
use crate::signature::{non_self, resolved_return};
use crate::span::Span;
use crate::state::{fixed, StateV};
use crate::steady::{grown, kept, kept_scope, lasting, within};
use crate::steady_bodies::{
    kept_sem_scoped, kept_sem_source, law_expression_keeps, law_second_look_adds_nothing,
    law_statement_keeps, law_statements_keep,
};
use crate::steady_parts::{
    grown_params_defined_n, kept_defers_placed, kept_pinned_any, kept_resolved,
    kept_resolved_params_n,
};
use crate::steady_program::{
    kept_defaults_checked_n, kept_resolved_return, kept_result_checked, law_body_keeps,
};
use crate::table::{find, holds};
use crate::text::Chars;
use crate::types::{has_vars, Ty};
use vstd::prelude::*;

verus! {

broadcast use crate::steady::steps;

/// Findings are never taken back, and the surroundings stay.
pub proof fn lemma_grown_counts(a: StateV, b: StateV)
    requires
        grown(a, b),
    ensures
        a.diagnostics.len() <= b.diagnostics.len(),
        a.bounds == b.bounds,
        a.return_type == b.return_type,
        a.in_loop == b.in_loop,
        a.scopes.len() == b.scopes.len(),
{
    reveal(grown);
}

/// Whether a parameter has no default, or one without findings that fits and
/// has no type variable in its type.
#[verifier::opaque]
pub open spec fn default_accepted(env: EnvV, st: StateV, p: Param, t: Ty) -> bool {
    match p.default_value {
        Some(e) => accepted(env, st, e, t) && (sem_expr(env, st, e).1 == Ty::Error || !has_vars(
            sem_expr(env, st, e).1,
        )),
        None => true,
    }
}

proof fn lemma_field_known(fs: Seq<FieldInfoV>, name: Chars, i: int)
    requires
        0 <= i <= fs.len(),
    ensures
        field_from(fs, name, i) is Some <==> exists|k: int|
            i <= k < fs.len() && (#[trigger] fs[k]).name == name,
    decreases fs.len() - i,
{
    if i < fs.len() {
        lemma_field_known(fs, name, i + 1);
        if fs[i].name != name {
            if exists|k: int| i <= k < fs.len() && (#[trigger] fs[k]).name == name {
                let k = choose|k: int| i <= k < fs.len() && (#[trigger] fs[k]).name == name;
                assert(fs[k].name == name && i + 1 <= k);
            }
        } else {
            assert(fs[i].name == name);
        }
    }
}

proof fn lemma_body_counts(
    env: EnvV,
    st: StateV,
    f: FunctionDecl,
    type_params: Seq<Chars>,
    receiver: Option<Ty>,
)
    requires
        st.return_type is None,
    ensures
        st.diagnostics.len() <= body_checked(env, st, f, type_params, receiver).diagnostics.len(),
        body_checked(env, st, f, type_params, receiver).return_type is None,
{
    assert(within(type_params, type_params));
    law_body_keeps(type_params, env, st, f, type_params, receiver);
    reveal(lasting);
}

proof fn lemma_methods_outside(
    env: EnvV,
    st: StateV,
    for_type: Chars,
    ms: Seq<FunctionDecl>,
    n: int,
)
    requires
        st.return_type is None,
    ensures
        methods_checked_n(env, st, for_type, ms, n).return_type is None,
        st.diagnostics.len() <= methods_checked_n(env, st, for_type, ms, n).diagnostics.len(),
    decreases n,
{
    if 0 < n <= ms.len() {
        lemma_methods_outside(env, st, for_type, ms, n - 1);
        let parent = type_params_of(env, for_type);
        lemma_body_counts(
            env,
            methods_checked_n(env, st, for_type, ms, n - 1),
            ms[n - 1],
            parent + ms[n - 1].type_params.deep_view(),
            Some(own_type(canonical(env, for_type), parent)),
        );
    }
}

proof fn lemma_inline_outside(
    env: EnvV,
    st: StateV,
    for_type: Chars,
    impls: Seq<InlineTraitImpl>,
    n: int,
)
    requires
        st.return_type is None,
    ensures
        inline_impls_checked_n(env, st, for_type, impls, n).return_type is None,
    decreases n,
{
    if 0 < n <= impls.len() {
        lemma_inline_outside(env, st, for_type, impls, n - 1);
        lemma_methods_outside(
            env,
            inline_impls_checked_n(env, st, for_type, impls, n - 1),
            for_type,
            impls[n - 1].methods@,
            impls[n - 1].methods@.len() as int,
        );
    }
}

/// A block adds no finding exactly if none of its statements does.
pub proof fn law_block_is_checked(
    env: EnvV,
    st: StateV,
    ss: Seq<Statement>,
    n: int,
)
    requires
        0 <= n <= ss.len(),
    ensures
        silent(st, sem_block_n(env, st, ss, n)) <==> forall|i: int| 0 <= i < n ==> silent(sem_block_n(env, st, ss, i), sem_stmt(env, sem_block_n(env, st, ss, i), #[trigger] ss[i])),
{
    let counts = Seq::new((n + 1) as nat, |i: int| sem_block_n(env, st, ss, i).diagnostics.len());
    let oks = Seq::new(n as nat, |i: int| silent(sem_block_n(env, st, ss, i), sem_stmt(env, sem_block_n(env, st, ss, i), ss[i])));
    assert forall|i: int| 0 <= i < n implies #[trigger] steady_at(counts, oks, i) by {
        lemma_block_is_checked_step(env, st, ss, i);
    }
    lemma_steps(counts, oks);
    assert forall|i: int| 0 <= i < n implies oks[i] == (silent(sem_block_n(env, st, ss, i), sem_stmt(env, sem_block_n(env, st, ss, i), #[trigger] ss[i]))) by {}
}

proof fn lemma_block_is_checked_step(
    env: EnvV,
    st: StateV,
    ss: Seq<Statement>,
    i: int,
)
    requires
        0 <= i < ss.len(),
    ensures
        ({
            let s = sem_block_n(env, st, ss, i);
            let next = sem_block_n(env, st, ss, i + 1);
            &&& s.diagnostics.len() <= next.diagnostics.len()
            &&& silent(s, next) <==> (silent(s, sem_stmt(env, s, ss[i])))
        }),
{
    let s = sem_block_n(env, st, ss, i);
    law_statement_keeps(env, s, ss[i]);
    lemma_grown_counts(s, sem_stmt(env, s, ss[i]));
}

/// The default values of a function add no finding exactly if each has none itself,
/// fits the type of its parameter, and has no type variable in its own.
pub proof fn law_defaults_fit(
    env: EnvV,
    st: StateV,
    ps: Seq<Param>,
    ts: Seq<Ty>,
    n: int,
)
    requires
        0 <= n <= ps.len(),
        ps.len() <= ts.len(),
    ensures
        silent(st, defaults_checked_n(env, st, ps, ts, n)) <==> forall|i: int| 0 <= i < n ==> default_accepted(env, defaults_checked_n(env, st, ps, ts, i), #[trigger] ps[i], ts[i]),
{
    let counts = Seq::new((n + 1) as nat, |i: int| defaults_checked_n(env, st, ps, ts, i).diagnostics.len());
    let oks = Seq::new(n as nat, |i: int| default_accepted(env, defaults_checked_n(env, st, ps, ts, i), ps[i], ts[i]));
    assert forall|i: int| 0 <= i < n implies #[trigger] steady_at(counts, oks, i) by {
        lemma_defaults_fit_step(env, st, ps, ts, i);
    }
    lemma_steps(counts, oks);
    assert forall|i: int| 0 <= i < n implies oks[i] == (default_accepted(env, defaults_checked_n(env, st, ps, ts, i), #[trigger] ps[i], ts[i])) by {}
}

proof fn lemma_defaults_fit_step(
    env: EnvV,
    st: StateV,
    ps: Seq<Param>,
    ts: Seq<Ty>,
    i: int,
)
    requires
        0 <= i < ps.len(),
        ps.len() <= ts.len(),
    ensures
        ({
            let s = defaults_checked_n(env, st, ps, ts, i);
            let next = defaults_checked_n(env, st, ps, ts, i + 1);
            &&& s.diagnostics.len() <= next.diagnostics.len()
            &&& silent(s, next) <==> (default_accepted(env, s, ps[i], ts[i]))
        }),
{
    let s = defaults_checked_n(env, st, ps, ts, i);
    reveal(accepted);
    reveal(default_accepted);
    kept_defaults_checked_n(env, st, ps, ts, i);
    lemma_counts(st, s);
    if let Some(e) = ps[i].default_value {
        law_expression_keeps(env, s, e);
        lemma_counts(s, sem_expr(env, s, e).0);
    }
}

/// Destructuring adds no finding exactly if every name is that of a field and new
/// in its scope.
pub proof fn law_destructuring_names_fields(
    st: StateV,
    fields: Seq<FieldInfoV>,
    names: Seq<Chars>,
    owner: Chars,
    is_mut: bool,
    span: Span,
    n: int,
)
    requires
        0 <= n <= names.len(),
    ensures
        silent(st, destructured_n(st, fields, names, owner, is_mut, span, n)) <==> forall|i: int| 0 <= i < n ==> ((exists|k: int| 0 <= k < fields.len() && (#[trigger] fields[k]).name == #[trigger] names[i]) && destructured_n(st, fields, names, owner, is_mut, span, i).can_define(names[i])),
{
    let counts = Seq::new((n + 1) as nat, |i: int| destructured_n(st, fields, names, owner, is_mut, span, i).diagnostics.len());
    let oks = Seq::new(n as nat, |i: int| ((exists|k: int| 0 <= k < fields.len() && (#[trigger] fields[k]).name == names[i]) && destructured_n(st, fields, names, owner, is_mut, span, i).can_define(names[i])));
    assert forall|i: int| 0 <= i < n implies #[trigger] steady_at(counts, oks, i) by {
        lemma_destructuring_names_fields_step(st, fields, names, owner, is_mut, span, i);
    }
    lemma_steps(counts, oks);
    assert forall|i: int| 0 <= i < n implies oks[i] == (((exists|k: int| 0 <= k < fields.len() && (#[trigger] fields[k]).name == #[trigger] names[i]) && destructured_n(st, fields, names, owner, is_mut, span, i).can_define(names[i]))) by {}
}

proof fn lemma_destructuring_names_fields_step(
    st: StateV,
    fields: Seq<FieldInfoV>,
    names: Seq<Chars>,
    owner: Chars,
    is_mut: bool,
    span: Span,
    i: int,
)
    requires
        0 <= i < names.len(),
    ensures
        ({
            let s = destructured_n(st, fields, names, owner, is_mut, span, i);
            let next = destructured_n(st, fields, names, owner, is_mut, span, i + 1);
            &&& s.diagnostics.len() <= next.diagnostics.len()
            &&& silent(s, next) <==> (((exists|k: int| 0 <= k < fields.len() && (#[trigger] fields[k]).name == names[i]) && s.can_define(names[i])))
        }),
{
    let s = destructured_n(st, fields, names, owner, is_mut, span, i);
    lemma_field_known(fields, names[i], 0);
}

/// The methods of a type add no finding exactly if the body of none of them does:
/// with the type parameters of the type and its own, and `self` of the type.
pub proof fn law_methods_are_checked(
    env: EnvV,
    st: StateV,
    for_type: Chars,
    ms: Seq<FunctionDecl>,
    n: int,
)
    requires
        0 <= n <= ms.len(),
        st.return_type is None,
    ensures
        silent(st, methods_checked_n(env, st, for_type, ms, n)) <==> forall|i: int| 0 <= i < n ==> silent(methods_checked_n(env, st, for_type, ms, i), body_checked(env, methods_checked_n(env, st, for_type, ms, i), #[trigger] ms[i], type_params_of(env, for_type) + ms[i].type_params.deep_view(), Some(own_type(canonical(env, for_type), type_params_of(env, for_type))))),
{
    let counts = Seq::new((n + 1) as nat, |i: int| methods_checked_n(env, st, for_type, ms, i).diagnostics.len());
    let oks = Seq::new(n as nat, |i: int| silent(methods_checked_n(env, st, for_type, ms, i), body_checked(env, methods_checked_n(env, st, for_type, ms, i), ms[i], type_params_of(env, for_type) + ms[i].type_params.deep_view(), Some(own_type(canonical(env, for_type), type_params_of(env, for_type))))));
    assert forall|i: int| 0 <= i < n implies #[trigger] steady_at(counts, oks, i) by {
        lemma_methods_are_checked_step(env, st, for_type, ms, i);
    }
    lemma_steps(counts, oks);
    assert forall|i: int| 0 <= i < n implies oks[i] == (silent(methods_checked_n(env, st, for_type, ms, i), body_checked(env, methods_checked_n(env, st, for_type, ms, i), #[trigger] ms[i], type_params_of(env, for_type) + ms[i].type_params.deep_view(), Some(own_type(canonical(env, for_type), type_params_of(env, for_type)))))) by {}
}

proof fn lemma_methods_are_checked_step(
    env: EnvV,
    st: StateV,
    for_type: Chars,
    ms: Seq<FunctionDecl>,
    i: int,
)
    requires
        0 <= i < ms.len(),
        st.return_type is None,
    ensures
        ({
            let s = methods_checked_n(env, st, for_type, ms, i);
            let next = methods_checked_n(env, st, for_type, ms, i + 1);
            &&& s.diagnostics.len() <= next.diagnostics.len()
            &&& silent(s, next) <==> (silent(s, body_checked(env, s, ms[i], type_params_of(env, for_type) + ms[i].type_params.deep_view(), Some(own_type(canonical(env, for_type), type_params_of(env, for_type))))))
        }),
{
    let s = methods_checked_n(env, st, for_type, ms, i);
    lemma_methods_outside(env, st, for_type, ms, i);
    let parent = type_params_of(env, for_type);
    lemma_body_counts(env, s, ms[i], parent + ms[i].type_params.deep_view(), Some(own_type(canonical(env, for_type), parent)));
}

/// The trait implementations inside a type add no finding exactly if the methods
/// of none of them do.
pub proof fn law_inline_impls_are_checked(
    env: EnvV,
    st: StateV,
    for_type: Chars,
    impls: Seq<InlineTraitImpl>,
    n: int,
)
    requires
        0 <= n <= impls.len(),
        st.return_type is None,
    ensures
        silent(st, inline_impls_checked_n(env, st, for_type, impls, n)) <==> forall|i: int| 0 <= i < n ==> silent(inline_impls_checked_n(env, st, for_type, impls, i), methods_checked(env, inline_impls_checked_n(env, st, for_type, impls, i), for_type, (#[trigger] impls[i]).methods@)),
{
    let counts = Seq::new((n + 1) as nat, |i: int| inline_impls_checked_n(env, st, for_type, impls, i).diagnostics.len());
    let oks = Seq::new(n as nat, |i: int| silent(inline_impls_checked_n(env, st, for_type, impls, i), methods_checked(env, inline_impls_checked_n(env, st, for_type, impls, i), for_type, ( impls[i]).methods@)));
    assert forall|i: int| 0 <= i < n implies #[trigger] steady_at(counts, oks, i) by {
        lemma_inline_impls_are_checked_step(env, st, for_type, impls, i);
    }
    lemma_steps(counts, oks);
    assert forall|i: int| 0 <= i < n implies oks[i] == (silent(inline_impls_checked_n(env, st, for_type, impls, i), methods_checked(env, inline_impls_checked_n(env, st, for_type, impls, i), for_type, (#[trigger] impls[i]).methods@))) by {}
}

proof fn lemma_inline_impls_are_checked_step(
    env: EnvV,
    st: StateV,
    for_type: Chars,
    impls: Seq<InlineTraitImpl>,
    i: int,
)
    requires
        0 <= i < impls.len(),
        st.return_type is None,
    ensures
        ({
            let s = inline_impls_checked_n(env, st, for_type, impls, i);
            let next = inline_impls_checked_n(env, st, for_type, impls, i + 1);
            &&& s.diagnostics.len() <= next.diagnostics.len()
            &&& silent(s, next) <==> (silent(s, methods_checked(env, s, for_type, (impls[i]).methods@)))
        }),
{
    let s = inline_impls_checked_n(env, st, for_type, impls, i);
    lemma_inline_outside(env, st, for_type, impls, i);
    lemma_methods_outside(env, s, for_type, impls[i].methods@, impls[i].methods@.len() as int);
}

// ── Single statements ────────────────────────────────────────────────

/// A `return` adds no finding exactly if its value has none and fits the result
/// type of the function; without a value, if there is no result.
pub proof fn law_return_fits(env: EnvV, st: StateV, x: ReturnStmt)
    ensures
        silent(st, sem_stmt(env, st, Statement::Return(x))) <==> match x.value {
            Some(e) => accepted(
                env,
                st,
                e,
                match st.return_type {
                    Some(t) => t,
                    None => Ty::Void,
                },
            ),
            None => st.return_type is None || st.return_type == Some(Ty::Void) || st.return_type
                == Some(Ty::Error),
        },
{
    reveal(accepted);
    if let Some(e) = x.value {
        law_expression_keeps(env, st, e);
        lemma_counts(st, sem_expr(env, st, e).0);
        lemma_pinned_silent(env, e);
    }
}

/// `break` and `continue` add no finding exactly inside of a loop.
pub proof fn law_jumps_need_a_loop(env: EnvV, st: StateV, span: Span)
    ensures
        silent(st, sem_stmt(env, st, Statement::Break(span))) <==> st.in_loop,
        silent(st, sem_stmt(env, st, Statement::Continue(span))) <==> st.in_loop,
{
}

/// After a declaration with a name, the name is a variable: of the annotated
/// type, or else of the type of the value, and assignable exactly if it is
/// declared so. The declaration adds no finding exactly if the annotation
/// resolves without one and the value fits it, or else the value has a type
/// that can be told; and if the name is new in its scope.
pub proof fn law_declaration_defines(env: EnvV, st: StateV, x: VarDecl, init: Ty)
    requires
        x.target is Simple,
        st.scopes.len() > 0,
    ensures
        ({
            let name = x.target->Simple_0@;
            let r = declared(env, st, x, init);
            let t = match x.type_annotation {
                Some(te) => resolved(env, st, te).1,
                None => init,
            };
            &&& !holds(st.scopes.last(), name) ==> (r.variable(name) matches Some(v) && v.ty == t
                && v.is_mut == x.is_mut)
            &&& silent(st, r) <==> !holds(st.scopes.last(), name) && match x.type_annotation {
                Some(te) => silent(st, resolved(env, st, te).0) && compatible(
                    env,
                    st.bounds,
                    t,
                    init,
                ),
                None => init != Ty::Void && (init == Ty::Error || !has_vars(init)),
            }
        }),
{
    let name = x.target->Simple_0@;
    let v = VarInfoV {
        ty: match x.type_annotation {
            Some(te) => resolved(env, st, te).1,
            None => init,
        },
        is_mut: x.is_mut,
        definition_span: x.span,
    };
    if let Some(te) = x.type_annotation {
        kept_resolved(env, st, te);
        let (s1, t) = resolved(env, st, te);
        lemma_counts(st, s1);
        lemma_pinned_silent(env, x.initializer);
        kept_pinned_any(env, x.initializer);
        let s = crate::check_stmt::annotated(env, s1, x, name, t, init);
        assert(s.scopes == st.scopes) by {
            let s2 = s1.error_if(
                crate::check_types::clash(env, s1, t, init),
                "type mismatch: variable `"@ + name + "` declared as `"@ + crate::types::show(t)
                    + "` but initialized with `"@ + crate::types::show(init) + "`"@,
                x.span,
            );
            let s3 = StateV {
                var_annotation_types: crate::table::put(s2.var_annotation_types, x.span, t),
                ..s2
            };
            lemma_counts(s3, crate::pin::pinned(env, s3, x.initializer, t));
        }
        law_definition_is_found(s, name, v, name);
    } else {
        let s = crate::check_stmt::inferable(st, name, init, x.span);
        law_definition_is_found(s, name, v, name);
    }
}

/// After destructuring a struct, each name that is new in its scope is a
/// variable of the type of the field with that name.
pub proof fn law_destructuring_defines(
    st: StateV,
    fields: Seq<FieldInfoV>,
    names: Seq<Chars>,
    owner: Chars,
    is_mut: bool,
    span: Span,
    i: int,
    k: int,
    n: int,
)
    requires
        st.scopes.len() > 0,
        0 <= i < names.len(),
        0 <= n <= names.len(),
        forall|j: int| 0 <= j < i ==> #[trigger] names[j] != names[i],
        0 <= k < fields.len(),
        fields[k].name == names[i],
        forall|j: int| 0 <= j < k ==> (#[trigger] fields[j]).name != names[i],
        !holds(st.scopes.last(), names[i]),
    ensures
        ({
            let r = destructured_n(st, fields, names, owner, is_mut, span, n);
            &&& r.scopes.len() == st.scopes.len()
            &&& n <= i ==> !holds(r.scopes.last(), names[i])
            &&& i < n ==> (r.variable(names[i]) matches Some(v) && v.ty == fields[k].ty && v.is_mut
                == is_mut)
            &&& i < n ==> find(r.scopes.last(), names[i]) == Some(
                VarInfoV { ty: fields[k].ty, is_mut, definition_span: span },
            )
        }),
    decreases n,
{
    if n > 0 {
        law_destructuring_defines(st, fields, names, owner, is_mut, span, i, k, n - 1);
        let s = destructured_n(st, fields, names, owner, is_mut, span, n - 1);
        law_field_is_found(fields, names[i], k);
        match field_from(fields, names[n - 1], 0) {
            Some(f) => {
                let v = VarInfoV { ty: f.ty, is_mut, definition_span: span };
                law_definition_is_found(s, names[n - 1], v, names[i]);
            },
            None => {},
        }
        if n - 1 < i {
            assert(names[n - 1] != names[i]);
        }
    }
}

// ── Loops ────────────────────────────────────────────────────────────

/// A block in a scope of its own adds no finding exactly if its statements do
/// not.
proof fn lemma_scoped(env: EnvV, st: StateV, b: Option<Block>)
    ensures
        silent(st, sem_scoped(env, st, b)) <==> block_silent(env, st, b),
        st.diagnostics.len() <= sem_scoped(env, st, b).diagnostics.len(),
{
    kept_sem_scoped(env, st, b);
    lemma_counts(st, sem_scoped(env, st, b));
}

/// Whether a block, if there is one, is checked in a scope of its own without a
/// finding.
pub open spec fn block_silent(env: EnvV, st: StateV, b: Option<Block>) -> bool {
    match b {
        Some(b) => silent(
            st,
            sem_block_n(env, st.enter(), b.statements@, b.statements@.len() as int),
        ),
        None => true,
    }
}

/// A `while` adds no finding exactly if its condition has none and is a truth
/// value, and its body, inside of a loop, and its `else` block have none.
pub proof fn law_while_is_checked(env: EnvV, st: StateV, x: WhileStmt)
    ensures
        silent(st, sem_stmt(env, st, Statement::While(x))) <==> {
            let (s1, t) = sem_expr(env, st, x.condition);
            let inside = StateV { in_loop: true, ..s1 };
            let s3 = sem_block_n(
                env,
                inside.enter(),
                x.body.statements@,
                x.body.statements@.len() as int,
            ).leave();
            &&& silent(st, s1)
            &&& t == Ty::Bool || t == Ty::Error
            &&& block_silent(env, inside, Some(x.body))
            &&& block_silent(env, StateV { in_loop: st.in_loop, ..s3 }, x.else_block)
        },
{
    broadcast use kept_scope;

    law_expression_keeps(env, st, x.condition);
    let (s1, t) = sem_expr(env, st, x.condition);
    lemma_counts(st, s1);
    assert(s1.in_loop == st.in_loop) by {
        reveal(kept);
    }
    let s2 = s1.error_if(
        t != Ty::Error && t != Ty::Bool,
        "while condition must be Bool, got "@ + crate::types::show(t),
        crate::ast::expr_span(x.condition),
    );
    let inside = StateV { in_loop: true, ..s2 };
    let n = x.body.statements@.len() as int;
    law_statements_keep(env, inside.enter(), x.body.statements@, n);
    lemma_grown_counts(inside.enter(), sem_block_n(env, inside.enter(), x.body.statements@, n));
    let s3 = sem_block_n(env, inside.enter(), x.body.statements@, n).leave();
    lemma_scoped(env, StateV { in_loop: s2.in_loop, ..s3 }, x.else_block);
    if t == Ty::Bool || t == Ty::Error {
        assert(s2 == s1);
    }
}

/// The type that the variable of a `for` has: the annotated one or `Int` over a
/// range, and the type of the elements over a list.
pub open spec fn loop_type(env: EnvV, st: StateV, x: ForStmt) -> Ty {
    sem_source(env, st, x).1
}

/// Over a range, the ends are integers and the variable is one; over a list,
/// the variable is one of its elements; anything else is a finding.
pub proof fn law_loop_source_fits(env: EnvV, st: StateV, x: ForStmt)
    requires
        silent(st, sem_source(env, st, x).0),
    ensures
        match x.source {
            ForSource::Range { start, end } => {
                let (s1, a) = sem_expr(env, st, start);
                let (s2, b) = sem_expr(env, s1, end);
                &&& silent(st, s1)
                &&& silent(s1, s2)
                &&& a == Ty::Int || a == Ty::Error
                &&& b == Ty::Int || b == Ty::Error
                &&& loop_type(env, st, x) == Ty::Int || (loop_type(env, st, x) == Ty::Error
                    && x.var_type is Some)
            },
            ForSource::Iterable(e) => {
                let (s1, t) = sem_expr(env, st, e);
                &&& silent(st, s1)
                &&& t == Ty::Error && loop_type(env, st, x) == Ty::Error || (t matches Ty::Generic(
                    name,
                    args,
                ) && name == "List"@ && (args.len() > 0 ==> loop_type(env, st, x) == args[0]))
            },
        },
{
    kept_sem_source(env, st, x);
    match x.source {
        ForSource::Range { start, end } => {
            law_expression_keeps(env, st, start);
            let (s1, a) = sem_expr(env, st, start);
            lemma_counts(st, s1);
            law_expression_keeps(env, s1, end);
            let (s2, b) = sem_expr(env, s1, end);
            lemma_counts(s1, s2);
            let s3 = s2.error_if(
                a != Ty::Error && a != Ty::Int,
                "for range start must be Int, got "@ + crate::types::show(a),
                crate::ast::expr_span(start),
            ).error_if(
                b != Ty::Error && b != Ty::Int,
                "for range end must be Int, got "@ + crate::types::show(b),
                crate::ast::expr_span(end),
            );
            if let Some(te) = x.var_type {
                kept_resolved(env, s3, te);
                lemma_counts(s3, resolved(env, s3, te).0);
            }
        },
        ForSource::Iterable(e) => {
            law_expression_keeps(env, st, e);
            lemma_counts(st, sem_expr(env, st, e).0);
        },
    }
}

/// A `for` adds no finding exactly if what it goes over has none, and its body,
/// inside of a loop and with its variable, and its `else` block have none.
pub proof fn law_for_is_checked(env: EnvV, st: StateV, x: ForStmt)
    ensures
        silent(st, sem_stmt(env, st, Statement::For(x))) <==> {
            let s1 = sem_source(env, st, x).0;
            let s2 = StateV { in_loop: true, ..s1 }.enter().define(
                x.var_name@,
                fixed(loop_type(env, st, x), x.span),
            );
            let s3 = sem_block_n(env, s2, x.body.statements@, x.body.statements@.len() as int);
            &&& silent(st, s1)
            &&& silent(s1, s3)
            &&& block_silent(env, StateV { in_loop: st.in_loop, ..s3.leave() }, x.else_block)
        },
        ({
            let s1 = sem_source(env, st, x).0;
            let s2 = StateV { in_loop: true, ..s1 }.enter().define(
                x.var_name@,
                fixed(loop_type(env, st, x), x.span),
            );
            s2.variable(x.var_name@) matches Some(v) && v.ty == loop_type(env, st, x) && !v.is_mut
        }),
{
    kept_sem_source(env, st, x);
    let (s1, t) = sem_source(env, st, x);
    lemma_counts(st, s1);
    assert(s1.in_loop == st.in_loop) by {
        reveal(kept);
    }
    let inside = StateV { in_loop: true, ..s1 }.enter();
    law_definition_is_found(inside, x.var_name@, fixed(t, x.span), x.var_name@);
    assert(inside.scopes.last() =~= Seq::empty());
    let s2 = inside.define(x.var_name@, fixed(t, x.span));
    let n = x.body.statements@.len() as int;
    law_statements_keep(env, s2, x.body.statements@, n);
    let s3 = sem_block_n(env, s2, x.body.statements@, n);
    lemma_grown_counts(s2, s3);
    lemma_scoped(env, StateV { in_loop: s1.in_loop, ..s3.leave() }, x.else_block);
}

// ── Bodies ───────────────────────────────────────────────────────────

/// The end of a body without findings: a function with a result ends in a value
/// that fits it, or has a `return`.
pub proof fn law_result_fits(env: EnvV, st: StateV, f: FunctionDecl, ret: Ty)
    requires
        silent(st, result_checked(env, st, f, ret)),
        ret != Ty::Void,
        ret != Ty::Error,
    ensures
        ({
            let ss = f.body.statements@;
            if ss.len() > 0 && ss.last() is Expression {
                let e = ss.last()->Expression_0.expr;
                let t = sem_again(env, st, e).1;
                ||| e is If && if_diverges(*e->If_0)
                ||| e is If && t == Ty::Void && returns_from(ss, 0)
                ||| compatible(env, st.bounds, ret, t)
            } else {
                returns_from(ss, 0)
            }
        }),
{
    let ss = f.body.statements@;
    if ss.len() > 0 && ss.last() is Expression {
        let e = ss.last()->Expression_0.expr;
        law_second_look_adds_nothing(env, st, e);
        lemma_counts(st, sem_again(env, st, e).0);
    }
}

/// What a body is checked in: every parameter stands for its type, and `self`
/// for the type whose method it is.
pub open spec fn body_start(
    st: StateV,
    f: FunctionDecl,
    ts: Seq<Ty>,
    receiver: Option<Ty>,
) -> StateV {
    let s = match receiver {
        Some(t) => st.enter().define("self"@, fixed(t, f.span)),
        None => st.enter(),
    };
    params_defined_n(s, non_self(f.params@), ts, non_self(f.params@).len() as int)
}

/// A body adds no finding exactly if no part of it does: the result type, the
/// types of the parameters, their defaults, the places of `defer`, the
/// statements, and the value at the end.
pub proof fn law_body_is_checked(
    env: EnvV,
    st: StateV,
    f: FunctionDecl,
    type_params: Seq<Chars>,
    receiver: Option<Ty>,
)
    ensures
        ({
            let ps = non_self(f.params@);
            let n = ps.len() as int;
            let m = f.body.statements@.len() as int;
            let s0 = StateV { type_params, bounds: f.type_param_bounds.deep_view(), ..st };
            let (s1, ret) = resolved_return(env, s0, f.return_type);
            let (s2, ts) = resolved_params_n(
                env,
                StateV { return_type: Some(ret), ..s1 },
                ps,
                n,
            );
            let s3 = defaults_checked_n(env, s2.enter(), ps, ts, n).leave();
            let s4 = defers_placed(s3, f.body);
            let s5 = body_start(s4, f, ts, receiver);
            let s6 = sem_block_n(env, s5, f.body.statements@, m);
            silent(st, body_checked(env, st, f, type_params, receiver)) <==> silent(s0, s1)
                && silent(s1, s2) && silent(s2, s3) && silent(s3, s4) && silent(s4, s6) && silent(
                s6,
                result_checked(env, s6, f, ret),
            )
        }),
{
    broadcast use kept_scope;

    let ps = non_self(f.params@);
    let n = ps.len() as int;
    let m = f.body.statements@.len() as int;
    let s0 = StateV { type_params, bounds: f.type_param_bounds.deep_view(), ..st };
    kept_resolved_return(env, s0, f.return_type);
    let (s1, ret) = resolved_return(env, s0, f.return_type);
    lemma_counts(s0, s1);
    let s1r = StateV { return_type: Some(ret), ..s1 };
    kept_resolved_params_n(env, s1r, ps, n);
    let (s2, ts) = resolved_params_n(env, s1r, ps, n);
    lemma_counts(s1r, s2);
    kept_defaults_checked_n(env, s2.enter(), ps, ts, n);
    lemma_counts(s2.enter(), defaults_checked_n(env, s2.enter(), ps, ts, n));
    let s3 = defaults_checked_n(env, s2.enter(), ps, ts, n).leave();
    kept_defers_placed(s3, f.body);
    let s4 = defers_placed(s3, f.body);
    lemma_counts(s3, s4);
    let own = match receiver {
        Some(t) => s4.enter().define("self"@, fixed(t, f.span)),
        None => s4.enter(),
    };
    let s5 = body_start(s4, f, ts, receiver);
    grown_params_defined_n(own, ps, ts, n);
    lemma_grown_counts(own, s5);
    lemma_params_silent(own, ps, ts, n);
    law_statements_keep(env, s5, f.body.statements@, m);
    let s6 = sem_block_n(env, s5, f.body.statements@, m);
    lemma_grown_counts(s5, s6);
    kept_result_checked(env, s6, f, ret);
    lemma_counts(s6, result_checked(env, s6, f, ret));
}

pub proof fn lemma_params_silent(st: StateV, ps: Seq<Param>, ts: Seq<Ty>, n: int)
    ensures
        params_defined_n(st, ps, ts, n).diagnostics == st.diagnostics,
    decreases n,
{
    if 0 < n <= ps.len() && n <= ts.len() {
        lemma_params_silent(st, ps, ts, n - 1);
    }
}

proof fn lemma_self_stays(st: StateV, ps: Seq<Param>, ts: Seq<Ty>, name: Chars, n: int)
    requires
        st.scopes.len() > 0,
        holds(st.scopes.last(), name),
    ensures
        params_defined_n(st, ps, ts, n).scopes.len() == st.scopes.len(),
        find(params_defined_n(st, ps, ts, n).scopes.last(), name) == find(st.scopes.last(), name),
    decreases n,
{
    if 0 < n <= ps.len() && n <= ts.len() {
        lemma_self_stays(st, ps, ts, name, n - 1);
        law_definition_is_found(
            params_defined_n(st, ps, ts, n - 1),
            ps[n - 1].name@,
            fixed(ts[n - 1], ps[n - 1].span),
            name,
        );
    }
}

/// Inside of a method `self` is a variable of the type whose method it is.
pub proof fn law_self_has_its_type(st: StateV, f: FunctionDecl, ts: Seq<Ty>, receiver: Ty)
    ensures
        body_start(st, f, ts, Some(receiver)).variable("self"@) matches Some(v) && v.ty == receiver
            && !v.is_mut,
{
    let s = st.enter();
    assert(s.scopes.last() =~= Seq::empty());
    law_definition_is_found(s, "self"@, fixed(receiver, f.span), "self"@);
    let ps = non_self(f.params@);
    lemma_self_stays(
        s.define("self"@, fixed(receiver, f.span)),
        ps,
        ts,
        "self"@,
        ps.len() as int,
    );
}

} // verus!
