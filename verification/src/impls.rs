//! `impl` blocks: which type they are for, and what they add to it.
use crate::ast::{FunctionDecl, InlineTraitImpl, Param};
use crate::bodies::type_params_of;
use crate::check_types::resolved;
use crate::checker::{Checker, CheckerV};
use crate::env::{Env, EnvV};
use crate::info::{MethodInfo, MethodInfoV, TraitInfo, TraitInfoV, TraitMethodInfo, TraitMethodInfoV};
use crate::paths::{bare, bare_name, is_builtin_path, module_qualify, path_text, qualified, ModulePath};
use crate::signature::{method_resolved, non_self, non_self_params, resolved_return};
use crate::span::{FuncId, Span};
use crate::state::{State, StateV};
use crate::table::{find, holds, inner, put_inner, Key, Table};
use crate::text::{
    before, cat11, cat2, cat3, cat5, cat7, cat9, count_text, decimal, join, join_text, push_view,
    text_before, Chars, Dup,
};
use crate::types::{same_type, show, Ty};
use vstd::prelude::*;

verus! {

broadcast use crate::ty::view_of_type;

// ── Which type an `impl` is for ──────────────────────────────────────

/// What an `impl` block is for.
#[derive(Debug)]
pub enum ImplTarget {
    /// A type of the current module.
    Local,
    /// A type of one other module.
    ForeignModule(ModulePath),
    /// A name that several other modules declare, in order.
    ForeignAmbiguous(Vec<ModulePath>),
    /// Nothing that is declared.
    Unknown,
}

/// What an [`ImplTarget`] is.
pub enum ImplTargetV {
    Local,
    ForeignModule(Seq<Chars>),
    ForeignAmbiguous(Seq<Seq<Chars>>),
    Unknown,
}

impl DeepView for ImplTarget {
    type V = ImplTargetV;

    open spec fn deep_view(&self) -> ImplTargetV {
        match self {
            ImplTarget::Local => ImplTargetV::Local,
            ImplTarget::ForeignModule(m) => ImplTargetV::ForeignModule(m@),
            ImplTarget::ForeignAmbiguous(ms) => ImplTargetV::ForeignAmbiguous(ms.deep_view()),
            ImplTarget::Unknown => ImplTargetV::Unknown,
        }
    }
}

/// The order of paths: segment by segment, the shorter one first.
pub open spec fn path_before_from(a: Seq<Chars>, b: Seq<Chars>, i: int) -> bool
    decreases b.len() - i,
{
    if i < 0 || i >= b.len() {
        false
    } else if i >= a.len() {
        true
    } else if before(a[i], b[i]) {
        true
    } else if a[i] != b[i] {
        false
    } else {
        path_before_from(a, b, i + 1)
    }
}

/// The first position at or after `i` whose path does not come before `m`.
pub open spec fn slot_from(ms: Seq<Seq<Chars>>, m: Seq<Chars>, i: int) -> int
    decreases ms.len() - i,
{
    if i < 0 || i >= ms.len() {
        ms.len() as int
    } else if path_before_from(ms[i], m, 0) {
        slot_from(ms, m, i + 1)
    } else {
        i
    }
}

/// The ordered list with `m` in it once.
pub open spec fn listed(ms: Seq<Seq<Chars>>, m: Seq<Chars>) -> Seq<Seq<Chars>> {
    let i = slot_from(ms, m, 0);
    if i < ms.len() && ms[i] == m {
        ms
    } else {
        ms.insert(i, m)
    }
}

/// Whether a declaration of another module has the name.
pub open spec fn declared_elsewhere(env: EnvV, key: Chars, module: Seq<Chars>, name: Chars) -> bool {
    bare(key) == name && !is_builtin_path(module) && module != env.current_module
}

/// The other modules that declare the name among the first `n` structs.
pub open spec fn foreign_structs_n(env: EnvV, name: Chars, n: int) -> Seq<Seq<Chars>>
    decreases n,
{
    if n <= 0 || n > env.structs.len() {
        Seq::empty()
    } else {
        let rest = foreign_structs_n(env, name, n - 1);
        let (key, info) = env.structs[n - 1];
        if declared_elsewhere(env, key, info.def_module, name) {
            listed(rest, info.def_module)
        } else {
            rest
        }
    }
}

/// The other modules that declare the name among all structs and the first `n`
/// enums.
pub open spec fn foreign_enums_n(env: EnvV, name: Chars, n: int) -> Seq<Seq<Chars>>
    decreases n,
{
    if n <= 0 || n > env.enums.len() {
        foreign_structs_n(env, name, env.structs.len() as int)
    } else {
        let rest = foreign_enums_n(env, name, n - 1);
        let (key, info) = env.enums[n - 1];
        if declared_elsewhere(env, key, info.def_module, name) {
            listed(rest, info.def_module)
        } else {
            rest
        }
    }
}

/// What an `impl` for `name` in the current module is for.
pub open spec fn impl_target(env: EnvV, name: Chars) -> ImplTargetV {
    let key = qualified(env.current_module, name);
    let others = foreign_enums_n(env, name, env.enums.len() as int);
    if holds(env.structs, key) || holds(env.enums, key) {
        ImplTargetV::Local
    } else if others.len() == 0 {
        ImplTargetV::Unknown
    } else if others.len() == 1 {
        ImplTargetV::ForeignModule(others[0])
    } else {
        ImplTargetV::ForeignAmbiguous(others)
    }
}

/// The first `n` paths in backquotes.
pub open spec fn quoted_paths_n(ms: Seq<Seq<Chars>>, n: int) -> Seq<Chars>
    decreases n,
{
    if n <= 0 || n > ms.len() {
        Seq::empty()
    } else {
        quoted_paths_n(ms, n - 1).push("`"@ + path_text(ms[n - 1]) + "`"@)
    }
}

/// Why a type cannot have an `impl` in the current module, if it cannot.
pub open spec fn impl_obstacle(env: EnvV, name: Chars) -> Option<Chars> {
    if env.builtin_local_names.contains(name) {
        Some(
            "cannot implement methods on builtin type `"@ + name
                + "`: builtin types are reserved"@,
        )
    } else {
        match impl_target(env, name) {
            ImplTargetV::Local => None,
            ImplTargetV::ForeignModule(m) => Some(
                "cannot implement methods on type `"@ + name + "` from module `"@ + path_text(m)
                    + "`: `impl` blocks must live in the same module as the type they target"@,
            ),
            ImplTargetV::ForeignAmbiguous(ms) => Some(
                "cannot implement methods on type `"@ + name + "`: it is declared in modules "@
                    + join(quoted_paths_n(ms, ms.len() as int), ", "@)
                    + " — `impl` blocks must live in the same module as the type they target"@,
            ),
            ImplTargetV::Unknown => Some("unknown type `"@ + name + "`"@),
        }
    }
}

// ── Methods of rejected declarations ─────────────────────────────────

/// A method of a rejected declaration: its id is filled, but no lookup finds
/// it. Whatever is wrong with its signature is not reported on top.
pub open spec fn orphan_filed(
    c: CheckerV,
    key: Chars,
    parent: Seq<Chars>,
    f: FunctionDecl,
    span: Span,
) -> CheckerV {
    match find(c.env.pending_user_method_ids, (key, f.name@)) {
        None => c,
        Some(id) => if c.env.filled_method_func_ids.contains(id) {
            c
        } else {
            let (s, info) = method_resolved(c.env, c.st, parent, f, id);
            CheckerV {
                st: s.forget_since(c.st),
                env: EnvV {
                    filled_method_func_ids: c.env.filled_method_func_ids.push(id),
                    orphan_methods: if holds(inner(c.env.orphan_methods, (key, span)), f.name@) {
                        c.env.orphan_methods
                    } else {
                        put_inner(c.env.orphan_methods, (key, span), f.name@, info)
                    },
                    ..c.env
                },
                ..c
            }
        },
    }
}

/// The first `n` methods of a rejected declaration.
pub open spec fn orphans_filed_n(
    c: CheckerV,
    key: Chars,
    parent: Seq<Chars>,
    ms: Seq<FunctionDecl>,
    span: Span,
    n: int,
) -> CheckerV
    decreases n,
{
    if n <= 0 || n > ms.len() {
        c
    } else {
        orphan_filed(orphans_filed_n(c, key, parent, ms, span, n - 1), key, parent, ms[n - 1], span)
    }
}

/// The methods of a rejected declaration.
pub open spec fn orphans_filed(c: CheckerV, for_type: Chars, ms: Seq<FunctionDecl>, span: Span) -> CheckerV {
    orphans_filed_n(
        c,
        qualified(c.env.current_module, for_type),
        type_params_of(c.env, for_type),
        ms,
        span,
        ms.len() as int,
    )
}

/// The methods of the first `n` trait implementations of a rejected type.
pub open spec fn inline_orphans_filed_n(
    c: CheckerV,
    for_type: Chars,
    impls: Seq<InlineTraitImpl>,
    n: int,
) -> CheckerV
    decreases n,
{
    if n <= 0 || n > impls.len() {
        c
    } else {
        orphans_filed(
            inline_orphans_filed_n(c, for_type, impls, n - 1),
            for_type,
            impls[n - 1].methods@,
            impls[n - 1].span,
        )
    }
}

/// All methods inside a rejected type.
pub open spec fn type_orphans_filed(
    c: CheckerV,
    for_type: Chars,
    ms: Seq<FunctionDecl>,
    impls: Seq<InlineTraitImpl>,
    span: Span,
) -> CheckerV {
    inline_orphans_filed_n(
        orphans_filed(c, for_type, ms, span),
        for_type,
        impls,
        impls.len() as int,
    )
}

// ── Methods of accepted declarations ─────────────────────────────────

/// The signatures of the first `n` methods, with their ids.
pub open spec fn methods_built_n(
    env: EnvV,
    st: StateV,
    key: Chars,
    parent: Seq<Chars>,
    ms: Seq<FunctionDecl>,
    n: int,
) -> (StateV, Seq<(Chars, MethodInfoV)>)
    decreases n,
{
    if n <= 0 || n > ms.len() {
        (st, Seq::empty())
    } else {
        let (s, rest) = methods_built_n(env, st, key, parent, ms, n - 1);
        let f = ms[n - 1];
        match find(env.pending_user_method_ids, (key, f.name@)) {
            Some(id) => {
                let (s1, info) = method_resolved(env, s, parent, f, id);
                (s1, rest.push((f.name@, info)))
            },
            None => (s, rest),
        }
    }
}

/// The ids with `id` among them.
pub open spec fn filled_with(ids: Seq<FuncId>, id: Option<FuncId>) -> Seq<FuncId> {
    match id {
        Some(id) => if ids.contains(id) {
            ids
        } else {
            ids.push(id)
        },
        None => ids,
    }
}

/// The first `n` methods added to a type; a name that the type has already is
/// an error.
pub open spec fn methods_added_n(
    c: CheckerV,
    key: Chars,
    for_type: Chars,
    infos: Seq<(Chars, MethodInfoV)>,
    n: int,
) -> CheckerV
    decreases n,
{
    if n <= 0 || n > infos.len() {
        c
    } else {
        let rest = methods_added_n(c, key, for_type, infos, n - 1);
        let (name, info) = infos[n - 1];
        if holds(inner(rest.env.methods, key), name) {
            rest.error(
                "method `"@ + name + "` is already defined for type `"@ + for_type + "`"@,
                info.definition_span,
            )
        } else {
            CheckerV {
                env: EnvV {
                    methods: put_inner(rest.env.methods, key, name, info),
                    filled_method_func_ids: filled_with(
                        rest.env.filled_method_func_ids,
                        info.func_id,
                    ),
                    ..rest.env
                },
                ..rest
            }
        }
    }
}

/// The method tables with one for `key` among them.
pub open spec fn opened(methods: Seq<(Chars, Seq<(Chars, MethodInfoV)>)>, key: Chars) -> Seq<
    (Chars, Seq<(Chars, MethodInfoV)>),
> {
    if holds(methods, key) {
        methods
    } else {
        methods.push((key, Seq::empty()))
    }
}

/// The methods of an `impl` added to its type.
pub open spec fn methods_added(c: CheckerV, for_type: Chars, ms: Seq<FunctionDecl>) -> CheckerV {
    let key = qualified(c.env.current_module, for_type);
    let (s, infos) = methods_built_n(
        c.env,
        c.st,
        key,
        type_params_of(c.env, for_type),
        ms,
        ms.len() as int,
    );
    methods_added_n(
        CheckerV { st: s, env: EnvV { methods: opened(c.env.methods, key), ..c.env }, ..c },
        key,
        for_type,
        infos,
        infos.len() as int,
    )
}

// ── Trait implementations ────────────────────────────────────────────

/// The first method with the name at or after `i`.
pub open spec fn method_named_from(ms: Seq<FunctionDecl>, name: Chars, i: int) -> Option<FunctionDecl>
    decreases ms.len() - i,
{
    if i < 0 || i >= ms.len() {
        None
    } else if ms[i].name@ == name {
        Some(ms[i])
    } else {
        method_named_from(ms, name, i + 1)
    }
}

/// Whether the type of a parameter is not the one that the trait asks for.
pub open spec fn param_differs(given: Ty, asked: Ty) -> bool {
    given != Ty::Error && asked != Ty::Error && !(given is TypeVar) && !(asked is TypeVar) && given
        != asked
}

/// The first `n` parameters of a method against those of the trait.
pub open spec fn params_compared_n(
    env: EnvV,
    st: StateV,
    m: TraitMethodInfoV,
    tr: Chars,
    ps: Seq<Param>,
    span: Span,
    n: int,
) -> StateV
    decreases n,
{
    if n <= 0 || n > ps.len() || n > m.params.len() {
        st
    } else {
        let (s, given) = resolved(
            env,
            params_compared_n(env, st, m, tr, ps, span, n - 1),
            ps[n - 1].type_annotation,
        );
        s.error_if(
            param_differs(given, m.params[n - 1]),
            "method `"@ + m.name + "` parameter `"@ + ps[n - 1].name@ + "` has type `"@ + show(
                given,
            ) + "` but trait `"@ + tr + "` expects `"@ + show(m.params[n - 1]) + "`"@,
            span,
        )
    }
}

/// A method of a trait, and what an `impl` gives for it.
pub open spec fn trait_method_checked(
    env: EnvV,
    st: StateV,
    for_type: Chars,
    tr: Chars,
    m: TraitMethodInfoV,
    ms: Seq<FunctionDecl>,
    span: Span,
) -> StateV {
    match method_named_from(ms, m.name, 0) {
        None => st.error(
            "impl of trait `"@ + tr + "` for `"@ + for_type + "` is missing method `"@ + m.name
                + "`"@,
            span,
        ),
        Some(f) => {
            let ps = non_self(f.params@);
            let s1 = if ps.len() != m.params.len() {
                st.error(
                    "method `"@ + m.name + "` has "@ + decimal(ps.len())
                        + " parameter(s) but trait `"@ + tr + "` expects "@ + decimal(
                        m.params.len(),
                    ),
                    span,
                )
            } else {
                params_compared_n(env, st, m, tr, ps, span, ps.len() as int)
            };
            let (s2, ret) = resolved_return(env, s1, f.return_type);
            s2.error_if(
                ret != Ty::Error && m.return_type != Ty::Error && ret != m.return_type,
                "method `"@ + m.name + "` returns `"@ + show(ret) + "` but trait `"@ + tr
                    + "` expects `"@ + show(m.return_type) + "`"@,
                span,
            )
        },
    }
}

/// The first `n` methods of a trait, and what an `impl` gives for them.
pub open spec fn trait_methods_checked_n(
    env: EnvV,
    st: StateV,
    for_type: Chars,
    tr: Chars,
    tms: Seq<TraitMethodInfoV>,
    ms: Seq<FunctionDecl>,
    span: Span,
    n: int,
) -> StateV
    decreases n,
{
    if n <= 0 || n > tms.len() {
        st
    } else {
        trait_method_checked(
            env,
            trait_methods_checked_n(env, st, for_type, tr, tms, ms, span, n - 1),
            for_type,
            tr,
            tms[n - 1],
            ms,
            span,
        )
    }
}

/// A trait recorded for a type, once its methods have been compared.
pub open spec fn trait_added(
    c: CheckerV,
    for_type: Chars,
    tr: Chars,
    info: TraitInfoV,
    ms: Seq<FunctionDecl>,
    span: Span,
) -> CheckerV {
    let pair = (qualified(c.env.current_module, for_type), qualified(c.env.current_module, tr));
    let known = c.env.trait_impls.contains(pair);
    let s1 = c.st.error_if(
        known,
        "duplicate implementation of trait `"@ + tr + "` for type `"@ + for_type + "`"@,
        span,
    );
    let s2 = trait_methods_checked_n(
        c.env,
        s1,
        for_type,
        tr,
        info.methods,
        ms,
        span,
        info.methods.len() as int,
    );
    CheckerV {
        st: s2,
        env: EnvV {
            trait_impls: if known {
                c.env.trait_impls
            } else {
                c.env.trait_impls.push(pair)
            },
            ..c.env
        },
        ..c
    }
}

/// An `impl` block for a type of the current module.
pub open spec fn impl_accepted(
    c: CheckerV,
    for_type: Chars,
    tr: Option<Chars>,
    ms: Seq<FunctionDecl>,
    span: Span,
) -> CheckerV {
    match tr {
        None => methods_added(c, for_type, ms),
        Some(tr) => match find(c.env.traits, qualified(c.env.current_module, tr)) {
            Some(info) => trait_added(methods_added(c, for_type, ms), for_type, tr, info, ms, span),
            None => orphans_filed(c.error("unknown trait `"@ + tr + "`"@, span), for_type, ms, span),
        },
    }
}

/// An `impl` block.
pub open spec fn impl_registered(
    c: CheckerV,
    for_type: Chars,
    tr: Option<Chars>,
    ms: Seq<FunctionDecl>,
    span: Span,
) -> CheckerV {
    match impl_obstacle(c.env, for_type) {
        Some(reason) => orphans_filed(c.error(reason, span), for_type, ms, span),
        None => impl_accepted(c, for_type, tr, ms, span),
    }
}

/// The first `n` trait implementations inside a type.
pub open spec fn inline_impls_registered_n(
    c: CheckerV,
    for_type: Chars,
    impls: Seq<InlineTraitImpl>,
    n: int,
) -> CheckerV
    decreases n,
{
    if n <= 0 || n > impls.len() {
        c
    } else {
        impl_registered(
            inline_impls_registered_n(c, for_type, impls, n - 1),
            for_type,
            Some(impls[n - 1].trait_name@),
            impls[n - 1].methods@,
            impls[n - 1].span,
        )
    }
}

/// The methods and trait implementations inside a type.
pub open spec fn inline_registered(
    c: CheckerV,
    for_type: Chars,
    ms: Seq<FunctionDecl>,
    impls: Seq<InlineTraitImpl>,
    span: Span,
) -> CheckerV {
    let own = if ms.len() > 0 {
        impl_registered(c, for_type, None, ms, span)
    } else {
        c
    };
    inline_impls_registered_n(own, for_type, impls, impls.len() as int)
}

// ── Registering ──────────────────────────────────────────────────────

fn path_before(a: &ModulePath, b: &ModulePath) -> (r: bool)
    ensures
        r == path_before_from(a@, b@, 0),
{
    let mut i: usize = 0;
    while i < b.0.len()
        invariant
            i <= b.0.len(),
            i <= a.0.len(),
            path_before_from(a@, b@, 0) == path_before_from(a@, b@, i as int),
        decreases b.0.len() - i,
    {
        if i >= a.0.len() {
            return true;
        }
        if text_before(&a.0[i], &b.0[i]) {
            return true;
        }
        if a.0[i] != b.0[i] {
            return false;
        }
        i += 1;
    }
    false
}

fn list_path(ms: &mut Vec<ModulePath>, m: &ModulePath)
    ensures
        final(ms).deep_view() == listed(old(ms).deep_view(), m@),
{
    let ghost before = ms.deep_view();
    let mut i: usize = 0;
    while i < ms.len() && path_before(&ms[i], m)
        invariant
            i <= ms.len(),
            ms.deep_view() == before,
            slot_from(before, m@, 0) == slot_from(before, m@, i as int),
        decreases ms.len() - i,
    {
        assert(before[i as int] == ms[i as int]@);
        i += 1;
    }
    assert(i < ms.len() ==> before[i as int] == ms[i as int]@);
    assert(slot_from(before, m@, 0) == i);
    if i < ms.len() && ms[i].same(m) {
        return;
    }
    ms.insert(i, m.dup());
    assert(ms.deep_view() =~= before.insert(i as int, m@));
}

impl<'a> Env<'a> {
    fn is_declared_elsewhere(&self, key: &String, module: &ModulePath, name: &String) -> (r: bool)
        ensures
            r == declared_elsewhere(self@, key@, module@, name@),
    {
        bare_name(key) == *name && !module.is_builtin() && !module.same(&self.current_module)
    }

    fn find_foreign_definition_modules(&self, name: &String) -> (r: Vec<ModulePath>)
        ensures
            r.deep_view() == foreign_enums_n(self@, name@, self@.enums.len() as int),
    {
        let mut out: Vec<ModulePath> = Vec::new();
        assert(out.deep_view() =~= Seq::<Seq<Chars>>::empty());
        let mut i: usize = 0;
        while i < self.structs.entries.len()
            invariant
                i <= self.structs.entries.len(),
                out.deep_view() == foreign_structs_n(self@, name@, i as int),
            decreases self.structs.entries.len() - i,
        {
            assert(self@.structs[i as int] == self.structs.entries[i as int].deep_view());
            if self.is_declared_elsewhere(
                &self.structs.entries[i].0,
                &self.structs.entries[i].1.def_module,
                name,
            ) {
                list_path(&mut out, &self.structs.entries[i].1.def_module);
            }
            i += 1;
        }
        let mut j: usize = 0;
        while j < self.enums.entries.len()
            invariant
                j <= self.enums.entries.len(),
                out.deep_view() == foreign_enums_n(self@, name@, j as int),
            decreases self.enums.entries.len() - j,
        {
            assert(self@.enums[j as int] == self.enums.entries[j as int].deep_view());
            if self.is_declared_elsewhere(
                &self.enums.entries[j].0,
                &self.enums.entries[j].1.def_module,
                name,
            ) {
                list_path(&mut out, &self.enums.entries[j].1.def_module);
            }
            j += 1;
        }
        out
    }

    /// What an `impl` for `name` in the current module is for.
    pub fn classify_impl_target(&self, name: &String) -> (r: ImplTarget)
        ensures
            r.deep_view() == impl_target(self@, name@),
    {
        let key = module_qualify(&self.current_module, name);
        if self.structs.has(&key) || self.enums.has(&key) {
            return ImplTarget::Local;
        }
        let others = self.find_foreign_definition_modules(name);
        if others.len() == 0 {
            ImplTarget::Unknown
        } else if others.len() == 1 {
            assert(others.deep_view()[0] == others[0]@);
            ImplTarget::ForeignModule(others[0].dup())
        } else {
            ImplTarget::ForeignAmbiguous(others)
        }
    }

    fn find_impl_obstacle(&self, name: &String) -> (r: Option<String>)
        ensures
            r.deep_view() == impl_obstacle(self@, name@),
    {
        if self.is_builtin_name(name) {
            return Some(
                cat3(
                    "cannot implement methods on builtin type `",
                    name,
                    "`: builtin types are reserved",
                ),
            );
        }
        match self.classify_impl_target(name) {
            ImplTarget::Local => None,
            ImplTarget::ForeignModule(m) => Some(
                cat5(
                    "cannot implement methods on type `",
                    name,
                    "` from module `",
                    &m.text(),
                    "`: `impl` blocks must live in the same module as the type they target",
                ),
            ),
            ImplTarget::ForeignAmbiguous(ms) => Some(
                cat5(
                    "cannot implement methods on type `",
                    name,
                    "`: it is declared in modules ",
                    &join_text(&quote_paths(&ms), ", "),
                    " — `impl` blocks must live in the same module as the type they target",
                ),
            ),
            ImplTarget::Unknown => Some(cat3("unknown type `", name, "`")),
        }
    }

    fn is_filled(&self, id: FuncId) -> (r: bool)
        ensures
            r == self@.filled_method_func_ids.contains(id),
    {
        let mut i: usize = 0;
        while i < self.filled_method_func_ids.len()
            invariant
                i <= self.filled_method_func_ids.len(),
                forall|j: int|
                    0 <= j < i ==> (#[trigger] self.filled_method_func_ids.deep_view()[j]) != id,
            decreases self.filled_method_func_ids.len() - i,
        {
            if self.filled_method_func_ids[i] == id {
                assert(self.filled_method_func_ids.deep_view()[i as int] == id);
                return true;
            }
            i += 1;
        }
        false
    }

    fn method_id(&self, key: &String, name: &String) -> (r: Option<FuncId>)
        ensures
            r == find(self@.pending_user_method_ids, (key@, name@)),
    {
        match self.pending_user_method_ids.get(&(key.clone(), name.clone())) {
            Some(id) => Some(*id),
            None => None,
        }
    }
}

fn quote_paths(ms: &Vec<ModulePath>) -> (r: Vec<String>)
    ensures
        r.deep_view() == quoted_paths_n(ms.deep_view(), ms.deep_view().len() as int),
{
    let mut out: Vec<String> = Vec::new();
    assert(out.deep_view() =~= Seq::<Chars>::empty());
    let mut i: usize = 0;
    while i < ms.len()
        invariant
            i <= ms.len(),
            out.deep_view() == quoted_paths_n(ms.deep_view(), i as int),
        decreases ms.len() - i,
    {
        assert(ms.deep_view()[i as int] == ms[i as int]@);
        push_view(&mut out, cat3("`", &ms[i].text(), "`"));
        i += 1;
    }
    out
}

fn find_method_named<'f>(ms: &'f Vec<FunctionDecl>, name: &String) -> (r: Option<&'f FunctionDecl>)
    ensures
        match r {
            Some(f) => method_named_from(ms@, name@, 0) == Some(*f),
            None => method_named_from(ms@, name@, 0) is None,
        },
{
    let mut i: usize = 0;
    while i < ms.len()
        invariant
            i <= ms.len(),
            method_named_from(ms@, name@, 0) == method_named_from(ms@, name@, i as int),
        decreases ms.len() - i,
    {
        if ms[i].name == *name {
            return Some(&ms[i]);
        }
        i += 1;
    }
    None
}

impl State {
    fn compare_params(
        &mut self,
        env: &Env<'_>,
        m: &TraitMethodInfo,
        tr: &String,
        ps: &Vec<&Param>,
        span: Span,
    )
        requires
            ps@.len() == m.params@.len(),
        ensures
            final(self)@ == params_compared_n(
                env@,
                old(self)@,
                m.deep_view(),
                tr@,
                ps.deep_view(),
                span,
                ps.deep_view().len() as int,
            ),
    {
        let mut i: usize = 0;
        while i < ps.len()
            invariant
                i <= ps.len(),
                ps@.len() == m.params@.len(),
                self@ == params_compared_n(
                    env@,
                    old(self)@,
                    m.deep_view(),
                    tr@,
                    ps.deep_view(),
                    span,
                    i as int,
                ),
            decreases ps.len() - i,
        {
            assert(ps.deep_view()[i as int] == *ps[i as int]);
            let given = self.resolve_type_expr(env, &ps[i].type_annotation);
            let asked = &m.params[i];
            if !given.is_error() && !asked.is_error() && !given.is_type_var()
                && !asked.is_type_var() && !same_type(&given, asked) {
                self.error(
                    cat11(
                        "method `",
                        &m.name,
                        "` parameter `",
                        &ps[i].name,
                        "` has type `",
                        &given.text(),
                        "` but trait `",
                        tr,
                        "` expects `",
                        &asked.text(),
                        "`",
                    ),
                    span,
                );
            }
            i += 1;
        }
    }

    fn compare_trait_method(
        &mut self,
        env: &Env<'_>,
        for_type: &String,
        tr: &String,
        m: &TraitMethodInfo,
        ms: &Vec<FunctionDecl>,
        span: Span,
    )
        ensures
            final(self)@ == trait_method_checked(
                env@,
                old(self)@,
                for_type@,
                tr@,
                m.deep_view(),
                ms@,
                span,
            ),
    {
        match find_method_named(ms, &m.name) {
            None => {
                self.error(
                    cat7(
                        "impl of trait `",
                        tr,
                        "` for `",
                        for_type,
                        "` is missing method `",
                        &m.name,
                        "`",
                    ),
                    span,
                );
            },
            Some(f) => {
                let ps = non_self_params(&f.params);
                if ps.len() != m.params.len() {
                    self.error(
                        cat2(
                            &cat7(
                                "method `",
                                &m.name,
                                "` has ",
                                &count_text(ps.len()),
                                " parameter(s) but trait `",
                                tr,
                                "` expects ",
                            ),
                            &count_text(m.params.len()),
                        ),
                        span,
                    );
                } else {
                    self.compare_params(env, m, tr, &ps, span);
                }
                let ret = self.resolve_return(env, &f.return_type);
                if !ret.is_error() && !m.return_type.is_error() && !same_type(
                    &ret,
                    &m.return_type,
                ) {
                    self.error(
                        cat9(
                            "method `",
                            &m.name,
                            "` returns `",
                            &ret.text(),
                            "` but trait `",
                            tr,
                            "` expects `",
                            &m.return_type.text(),
                            "`",
                        ),
                        span,
                    );
                }
            },
        }
    }

    /// Checks that an `impl` gives what a trait asks for.
    pub fn validate_trait_impl(
        &mut self,
        env: &Env<'_>,
        for_type: &String,
        tr: &String,
        info: &TraitInfo,
        ms: &Vec<FunctionDecl>,
        span: Span,
    )
        ensures
            final(self)@ == trait_methods_checked_n(
                env@,
                old(self)@,
                for_type@,
                tr@,
                info.deep_view().methods,
                ms@,
                span,
                info.deep_view().methods.len() as int,
            ),
    {
        let mut i: usize = 0;
        while i < info.methods.len()
            invariant
                i <= info.methods.len(),
                self@ == trait_methods_checked_n(
                    env@,
                    old(self)@,
                    for_type@,
                    tr@,
                    info.deep_view().methods,
                    ms@,
                    span,
                    i as int,
                ),
            decreases info.methods.len() - i,
        {
            assert(info.deep_view().methods[i as int] == info.methods[i as int].deep_view());
            self.compare_trait_method(env, for_type, tr, &info.methods[i], ms, span);
            i += 1;
        }
    }

    fn build_impl_method_infos<'a>(
        &mut self,
        env: &Env<'_>,
        key: &String,
        parent: &Vec<String>,
        ms: &'a Vec<FunctionDecl>,
    ) -> (r: Vec<(String, MethodInfo<'a>)>)
        ensures
            (final(self)@, r.deep_view()) == methods_built_n(
                env@,
                old(self)@,
                key@,
                parent.deep_view(),
                ms@,
                ms@.len() as int,
            ),
    {
        let mut out: Vec<(String, MethodInfo<'a>)> = Vec::new();
        assert(out.deep_view() =~= Seq::<(Chars, MethodInfoV)>::empty());
        let mut i: usize = 0;
        while i < ms.len()
            invariant
                i <= ms.len(),
                (self@, out.deep_view()) == methods_built_n(
                    env@,
                    old(self)@,
                    key@,
                    parent.deep_view(),
                    ms@,
                    i as int,
                ),
            decreases ms.len() - i,
        {
            if let Some(id) = env.method_id(key, &ms[i].name) {
                let info = self.resolve_method(env, parent, &ms[i], id);
                push_view(&mut out, (ms[i].name.clone(), info));
            }
            i += 1;
        }
        out
    }
}

impl<'a> Checker<'a> {
    fn file_orphan(&mut self, key: &String, parent: &Vec<String>, f: &'a FunctionDecl, span: Span)
        ensures
            final(self)@ == orphan_filed(old(self)@, key@, parent.deep_view(), *f, span),
    {
        if let Some(id) = self.env.method_id(key, &f.name) {
            if !self.env.is_filled(id) {
                let n: usize = self.state.diagnostic_count();
                let info = self.state.resolve_method(&self.env, parent, f, id);
                self.state.forget_after(n);
                push_view(&mut self.env.filled_method_func_ids, id);
                let place = (key.clone(), span);
                let known = match self.env.orphan_methods.get(&place) {
                    Some(t) => t.has(&f.name),
                    None => false,
                };
                if !known {
                    self.env.orphan_methods.put_inner(place, f.name.clone(), info);
                }
            }
        }
    }

    /// Files the methods of a rejected declaration.
    pub fn consume_orphan_methods(&mut self, for_type: &String, ms: &'a Vec<FunctionDecl>, span: Span)
        ensures
            final(self)@ == orphans_filed(old(self)@, for_type@, ms@, span),
    {
        let key = module_qualify(&self.env.current_module, for_type);
        let parent = self.env.parent_type_params(for_type);
        let mut i: usize = 0;
        while i < ms.len()
            invariant
                i <= ms.len(),
                self@ == orphans_filed_n(
                    old(self)@,
                    key@,
                    parent.deep_view(),
                    ms@,
                    span,
                    i as int,
                ),
            decreases ms.len() - i,
        {
            self.file_orphan(&key, &parent, &ms[i], span);
            i += 1;
        }
    }

    /// Files the methods inside a rejected type.
    pub fn consume_orphan_inline_methods(
        &mut self,
        for_type: &String,
        ms: &'a Vec<FunctionDecl>,
        impls: &'a Vec<InlineTraitImpl>,
        span: Span,
    )
        ensures
            final(self)@ == type_orphans_filed(old(self)@, for_type@, ms@, impls@, span),
    {
        self.consume_orphan_methods(for_type, ms, span);
        let ghost own = self@;
        let mut i: usize = 0;
        while i < impls.len()
            invariant
                i <= impls.len(),
                self@ == inline_orphans_filed_n(own, for_type@, impls@, i as int),
            decreases impls.len() - i,
        {
            self.consume_orphan_methods(for_type, &impls[i].methods, impls[i].span);
            i += 1;
        }
    }

    fn insert_inherent_methods(
        &mut self,
        key: &String,
        for_type: &String,
        infos: &Vec<(String, MethodInfo<'a>)>,
    )
        ensures
            final(self)@ == methods_added_n(
                old(self)@,
                key@,
                for_type@,
                infos.deep_view(),
                infos.deep_view().len() as int,
            ),
    {
        let mut i: usize = 0;
        while i < infos.len()
            invariant
                i <= infos.len(),
                self@ == methods_added_n(
                    old(self)@,
                    key@,
                    for_type@,
                    infos.deep_view(),
                    i as int,
                ),
            decreases infos.len() - i,
        {
            assert(infos.deep_view()[i as int] == infos[i as int].deep_view());
            let name = &infos[i].0;
            let info = &infos[i].1;
            let known = match self.env.methods.get(key) {
                Some(t) => t.has(name),
                None => false,
            };
            if known {
                self.state.error(
                    cat5(
                        "method `",
                        name,
                        "` is already defined for type `",
                        for_type,
                        "`",
                    ),
                    info.definition_span,
                );
            } else {
                if let Some(id) = info.func_id {
                    if !self.env.is_filled(id) {
                        push_view(&mut self.env.filled_method_func_ids, id);
                    }
                }
                self.env.methods.put_inner(key.clone(), name.clone(), info.dup());
            }
            i += 1;
        }
    }

    fn add_methods(&mut self, for_type: &String, ms: &'a Vec<FunctionDecl>)
        ensures
            final(self)@ == methods_added(old(self)@, for_type@, ms@),
    {
        let key = module_qualify(&self.env.current_module, for_type);
        let parent = self.env.parent_type_params(for_type);
        let infos = self.state.build_impl_method_infos(&self.env, &key, &parent, ms);
        if !self.env.methods.has(&key) {
            let none: Table<String, MethodInfo<'a>> = Table::new();
            push_view(&mut self.env.methods.entries, (key.clone(), none));
        }
        self.insert_inherent_methods(&key, for_type, &infos);
    }

    fn add_trait(
        &mut self,
        for_type: &String,
        tr: &String,
        info: &TraitInfo,
        ms: &'a Vec<FunctionDecl>,
        span: Span,
    )
        ensures
            final(self)@ == trait_added(
                old(self)@,
                for_type@,
                tr@,
                info.deep_view(),
                ms@,
                span,
            ),
    {
        let type_key = module_qualify(&self.env.current_module, for_type);
        let trait_key = module_qualify(&self.env.current_module, tr);
        let known = self.env.impl_recorded(&type_key, &trait_key);
        if known {
            self.state.error(
                cat5(
                    "duplicate implementation of trait `",
                    tr,
                    "` for type `",
                    for_type,
                    "`",
                ),
                span,
            );
        }
        self.state.validate_trait_impl(&self.env, for_type, tr, info, ms, span);
        if !known {
            push_view(&mut self.env.trait_impls, (type_key, trait_key));
        }
    }

    /// Registers an `impl` block.
    pub fn register_impl(
        &mut self,
        for_type: &String,
        tr: &Option<String>,
        ms: &'a Vec<FunctionDecl>,
        span: Span,
    )
        ensures
            final(self)@ == impl_registered(old(self)@, for_type@, tr.deep_view(), ms@, span),
    {
        if let Some(reason) = self.env.find_impl_obstacle(for_type) {
            self.state.error(reason, span);
            self.consume_orphan_methods(for_type, ms, span);
            return;
        }
        match tr {
            None => {
                self.add_methods(for_type, ms);
            },
            Some(tr) => {
                let key = module_qualify(&self.env.current_module, tr);
                let found = match self.env.traits.get(&key) {
                    Some(info) => Some(info.dup()),
                    None => None,
                };
                match found {
                    Some(info) => {
                        self.add_methods(for_type, ms);
                        self.add_trait(for_type, tr, &info, ms, span);
                    },
                    None => {
                        self.state.error(cat3("unknown trait `", tr, "`"), span);
                        self.consume_orphan_methods(for_type, ms, span);
                    },
                }
            },
        }
    }

    /// Registers the methods and trait implementations inside a type.
    pub fn register_inline_methods(
        &mut self,
        for_type: &String,
        ms: &'a Vec<FunctionDecl>,
        impls: &'a Vec<InlineTraitImpl>,
        span: Span,
    )
        ensures
            final(self)@ == inline_registered(old(self)@, for_type@, ms@, impls@, span),
    {
        if ms.len() > 0 {
            self.register_impl(for_type, &None, ms, span);
        }
        let ghost own = self@;
        let mut i: usize = 0;
        while i < impls.len()
            invariant
                i <= impls.len(),
                self@ == inline_impls_registered_n(own, for_type@, impls@, i as int),
            decreases impls.len() - i,
        {
            let tr = Some(impls[i].trait_name.clone());
            self.register_impl(for_type, &tr, &impls[i].methods, impls[i].span);
            i += 1;
        }
    }
}

} // verus!
