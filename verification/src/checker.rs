//! The checker: from declarations to tables, findings and endpoints.
use crate::ast::{Declaration, EndpointDecl, Program};
use crate::bodies::{function_checked, inline_methods_checked, methods_checked};
use crate::endpoint::{endpoint_checked, full_path};
use crate::env::{empty_env, Env, EnvV};
use crate::ids::{function_count_n, function_ids_n, method_count_n, method_decl_ids_n};
use crate::info::{EndpointInfo, EndpointInfoV};
use crate::paths::{entry_path, module_qualify, qualified, ModulePath};
use crate::register::{
    builtins_registered, decls_registered_n, lemma_type_names_frame, type_names_known_n,
};
use crate::routes::{route_signature, signature};
use crate::scopes::{
    builtin_names, lemma_module_imports_frame, lemma_scopes_frame, module_imports_n, scope_built,
    scopes_built_n, Declared, ResolvedSourceModule,
};
use crate::span::Span;
use crate::state::{initial_state, State, StateV};
use crate::table::{find, holds, put, Key, Table};
use crate::text::{names_contain, push_view, same_text, Chars, Dup};
use vstd::prelude::*;

verus! {

/// The checker.
#[derive(Debug)]
pub struct Checker<'a> {
    /// The symbol tables.
    pub env: Env<'a>,
    /// What changes while bodies are checked.
    pub state: State,
    /// The valid endpoints so far.
    pub endpoints: Vec<EndpointInfo<'a>>,
    /// The names that endpoints have, the invalid ones among them.
    pub endpoint_names: Vec<String>,
    /// The routes that endpoints have, the invalid ones among them, and for each
    /// the name of the first endpoint that has it.
    pub route_signatures: Table<String, String>,
}

/// What a [`Checker`] holds.
#[verifier::ext_equal]
pub struct CheckerV {
    pub env: EnvV,
    pub st: StateV,
    pub endpoints: Seq<EndpointInfoV>,
    pub endpoint_names: Seq<Chars>,
    pub route_signatures: Seq<(Chars, Chars)>,
}

impl<'a> View for Checker<'a> {
    type V = CheckerV;

    open spec fn view(&self) -> CheckerV {
        CheckerV {
            env: self.env@,
            st: self.state@,
            endpoints: self.endpoints.deep_view(),
            endpoint_names: self.endpoint_names.deep_view(),
            route_signatures: self.route_signatures@,
        }
    }
}

/// The checker before anything has been registered.
pub open spec fn initial_checker() -> CheckerV {
    CheckerV {
        env: empty_env(),
        st: initial_state(),
        endpoints: Seq::empty(),
        endpoint_names: Seq::empty(),
        route_signatures: Seq::empty(),
    }
}

/// Whether two checkers know the same endpoints.
pub open spec fn same_endpoints(a: CheckerV, b: CheckerV) -> bool {
    &&& a.endpoints == b.endpoints
    &&& a.endpoint_names == b.endpoint_names
    &&& a.route_signatures == b.route_signatures
}

impl CheckerV {
    pub open spec fn error(self, message: Chars, span: Span) -> CheckerV {
        CheckerV { st: self.st.error(message, span), ..self }
    }
}

// ── Bodies ───────────────────────────────────────────────────────────

/// Whether the declaration of `name` at `span` is the one in the table.
pub open spec fn survives<T: Declared>(
    env: EnvV,
    table: Seq<(Chars, T::V)>,
    name: Chars,
    span: Span,
) -> bool {
    match find(table, qualified(env.current_module, name)) {
        Some(info) => T::span_of(info) == span,
        None => false,
    }
}

/// Whether an `impl` for `name` was accepted: the type belongs to the current
/// module.
pub open spec fn impl_survives(env: EnvV, name: Chars) -> bool {
    let key = qualified(env.current_module, name);
    match find(env.structs, key) {
        Some(info) => info.def_module == env.current_module,
        None => match find(env.enums, key) {
            Some(info) => info.def_module == env.current_module,
            None => false,
        },
    }
}

/// An endpoint. What it comes to is kept if nothing is wrong with it; its name
/// and its route are taken in any case.
pub open spec fn endpoint_added(c: CheckerV, ep: EndpointDecl) -> CheckerV {
    let (s, info) = endpoint_checked(c.env, c.st, c.endpoint_names, c.route_signatures, ep);
    let route = signature(ep.method, full_path(ep));
    CheckerV {
        st: s,
        endpoints: if s.diagnostics.len() == c.st.diagnostics.len() {
            c.endpoints.push(info)
        } else {
            c.endpoints
        },
        endpoint_names: if c.endpoint_names.contains(ep.name@) {
            c.endpoint_names
        } else {
            c.endpoint_names.push(ep.name@)
        },
        route_signatures: if holds(c.route_signatures, route) {
            c.route_signatures
        } else {
            put(c.route_signatures, route, ep.name@)
        },
        ..c
    }
}

/// The bodies in a declaration. Those of rejected declarations are left alone.
#[verifier::opaque]
pub open spec fn decl_checked(c: CheckerV, d: Declaration) -> CheckerV {
    let env = c.env;
    match d {
        Declaration::Function(f) => if survives::<crate::info::FunctionInfo<'static>>(
            env,
            env.functions,
            f.name@,
            f.name_span,
        ) {
            CheckerV { st: function_checked(env, c.st, f), ..c }
        } else {
            c
        },
        Declaration::Impl(i) => if impl_survives(env, i.for_type@) {
            CheckerV { st: methods_checked(env, c.st, i.for_type@, i.methods@), ..c }
        } else {
            c
        },
        Declaration::Struct(s) => if survives::<crate::info::StructInfo<'static>>(
            env,
            env.structs,
            s.name@,
            s.name_span,
        ) {
            CheckerV {
                st: inline_methods_checked(env, c.st, s.name@, s.methods@, s.trait_impls@),
                ..c
            }
        } else {
            c
        },
        Declaration::Enum(e) => if survives::<crate::info::EnumInfo>(
            env,
            env.enums,
            e.name@,
            e.name_span,
        ) {
            CheckerV {
                st: inline_methods_checked(env, c.st, e.name@, e.methods@, e.trait_impls@),
                ..c
            }
        } else {
            c
        },
        Declaration::Endpoint(ep) => endpoint_added(c, ep),
        _ => c,
    }
}

/// The bodies in the first `n` declarations of the current module.
pub open spec fn decls_checked_n(c: CheckerV, ds: Seq<Declaration>, n: int) -> CheckerV
    decreases n,
{
    if n <= 0 || n > ds.len() {
        c
    } else {
        decl_checked(decls_checked_n(c, ds, n - 1), ds[n - 1])
    }
}

// ── A single file ────────────────────────────────────────────────────

/// The tables with the builtins, and with nothing else yet.
pub open spec fn prepared(env: EnvV) -> EnvV {
    let b = builtins_registered(env);
    EnvV { builtin_local_names: builtin_names(b), ..b }
}

/// The imports among the first `n` declarations of a single file, which has
/// nothing to import from.
pub open spec fn imports_rejected_n(st: StateV, ds: Seq<Declaration>, n: int) -> StateV
    decreases n,
{
    if n <= 0 || n > ds.len() {
        st
    } else {
        let rest = imports_rejected_n(st, ds, n - 1);
        match ds[n - 1] {
            Declaration::Import(imp) => rest.error(
                "`import` is only valid in multi-module compilation; this input is being checked as a single file"@,
                imp.span,
            ),
            _ => rest,
        }
    }
}

/// The tables with the names and ids of a single file.
pub open spec fn file_named(env: EnvV, ds: Seq<Declaration>) -> EnvV {
    let n = ds.len() as int;
    let e1 = EnvV { current_module: entry_path(), ..prepared(env) };
    let e2 = type_names_known_n(scope_built(e1, entry_path(), ds), ds, n);
    let e3 = function_ids_n(e2, ds, n);
    method_decl_ids_n(EnvV { user_method_offset: e3.next_func_id, ..e3 }, ds, n)
}

/// A single file with its declarations registered.
pub open spec fn file_registered(c: CheckerV, ds: Seq<Declaration>) -> CheckerV {
    let n = ds.len() as int;
    decls_registered_n(
        CheckerV { env: file_named(c.env, ds), st: imports_rejected_n(c.st, ds, n), ..c },
        ds,
        n,
    )
}

/// A single file, checked.
pub open spec fn file_checked(c: CheckerV, ds: Seq<Declaration>) -> CheckerV {
    decls_checked_n(file_registered(c, ds), ds, ds.len() as int)
}

// ── Several modules ──────────────────────────────────────────────────

/// The functions called `main` among the first `n` declarations of a module
/// that is not the entry.
pub open spec fn mains_rejected_n(st: StateV, ds: Seq<Declaration>, n: int) -> StateV
    decreases n,
{
    if n <= 0 || n > ds.len() {
        st
    } else {
        let rest = mains_rejected_n(st, ds, n - 1);
        match ds[n - 1] {
            Declaration::Function(f) => rest.error_if(
                f.name@ == "main"@,
                "`main` may only be declared in the entry module"@,
                f.name_span,
            ),
            _ => rest,
        }
    }
}

/// The same for the first `n` modules.
pub open spec fn module_mains_rejected_n(st: StateV, ms: Seq<ResolvedSourceModule>, n: int) -> StateV
    decreases n,
{
    if n <= 0 || n > ms.len() {
        st
    } else {
        let rest = module_mains_rejected_n(st, ms, n - 1);
        let ds = ms[n - 1].program.declarations@;
        if ms[n - 1].is_entry {
            rest
        } else {
            mains_rejected_n(rest, ds, ds.len() as int)
        }
    }
}

/// The tables with a module at work.
pub open spec fn in_module(env: EnvV, path: Seq<Chars>) -> EnvV {
    EnvV { current_module: path, ..env }
}

pub open spec fn module_types_known_n(env: EnvV, ms: Seq<ResolvedSourceModule>, n: int) -> EnvV
    decreases n,
{
    if n <= 0 || n > ms.len() {
        env
    } else {
        let ds = ms[n - 1].program.declarations@;
        type_names_known_n(
            in_module(module_types_known_n(env, ms, n - 1), ms[n - 1].path@),
            ds,
            ds.len() as int,
        )
    }
}

pub open spec fn module_function_ids_n(env: EnvV, ms: Seq<ResolvedSourceModule>, n: int) -> EnvV
    decreases n,
{
    if n <= 0 || n > ms.len() {
        env
    } else {
        let ds = ms[n - 1].program.declarations@;
        function_ids_n(
            in_module(module_function_ids_n(env, ms, n - 1), ms[n - 1].path@),
            ds,
            ds.len() as int,
        )
    }
}

pub open spec fn module_method_ids_n(env: EnvV, ms: Seq<ResolvedSourceModule>, n: int) -> EnvV
    decreases n,
{
    if n <= 0 || n > ms.len() {
        env
    } else {
        let ds = ms[n - 1].program.declarations@;
        method_decl_ids_n(
            in_module(module_method_ids_n(env, ms, n - 1), ms[n - 1].path@),
            ds,
            ds.len() as int,
        )
    }
}

pub open spec fn module_decls_registered_n(c: CheckerV, ms: Seq<ResolvedSourceModule>, n: int) -> CheckerV
    decreases n,
{
    if n <= 0 || n > ms.len() {
        c
    } else {
        let rest = module_decls_registered_n(c, ms, n - 1);
        let ds = ms[n - 1].program.declarations@;
        decls_registered_n(
            CheckerV { env: in_module(rest.env, ms[n - 1].path@), ..rest },
            ds,
            ds.len() as int,
        )
    }
}

pub open spec fn module_decls_checked_n(c: CheckerV, ms: Seq<ResolvedSourceModule>, n: int) -> CheckerV
    decreases n,
{
    if n <= 0 || n > ms.len() {
        c
    } else {
        let rest = module_decls_checked_n(c, ms, n - 1);
        let ds = ms[n - 1].program.declarations@;
        decls_checked_n(
            CheckerV { env: in_module(rest.env, ms[n - 1].path@), ..rest },
            ds,
            ds.len() as int,
        )
    }
}

/// All modules with what they can name.
pub open spec fn modules_scoped(c: CheckerV, ms: Seq<ResolvedSourceModule>) -> CheckerV {
    let n = ms.len() as int;
    module_imports_n(
        CheckerV {
            env: scopes_built_n(prepared(c.env), ms, n),
            st: module_mains_rejected_n(c.st, ms, n),
            ..c
        },
        ms,
        n,
    )
}

/// The tables with the names and ids of all modules.
pub open spec fn modules_named(env: EnvV, ms: Seq<ResolvedSourceModule>) -> EnvV {
    let n = ms.len() as int;
    let e1 = module_function_ids_n(module_types_known_n(env, ms, n), ms, n);
    module_method_ids_n(EnvV { user_method_offset: e1.next_func_id, ..e1 }, ms, n)
}

/// All modules with their declarations registered.
pub open spec fn modules_registered(c: CheckerV, ms: Seq<ResolvedSourceModule>) -> CheckerV {
    let scoped = modules_scoped(c, ms);
    module_decls_registered_n(
        CheckerV { env: modules_named(scoped.env, ms), ..scoped },
        ms,
        ms.len() as int,
    )
}

/// All modules, checked.
pub open spec fn modules_checked(c: CheckerV, ms: Seq<ResolvedSourceModule>) -> CheckerV {
    let done = module_decls_checked_n(modules_registered(c, ms), ms, ms.len() as int);
    CheckerV { env: in_module(done.env, entry_path()), ..done }
}

/// The number of functions in the first `n` modules.
pub open spec fn function_total_n(ms: Seq<ResolvedSourceModule>, n: int) -> nat
    decreases n,
{
    if n <= 0 || n > ms.len() {
        0
    } else {
        let ds = ms[n - 1].program.declarations@;
        function_total_n(ms, n - 1) + function_count_n(ds, ds.len() as int)
    }
}

/// The number of methods in the first `n` modules.
pub open spec fn method_total_n(ms: Seq<ResolvedSourceModule>, n: int) -> nat
    decreases n,
{
    if n <= 0 || n > ms.len() {
        0
    } else {
        let ds = ms[n - 1].program.declarations@;
        method_total_n(ms, n - 1) + method_count_n(ds, ds.len() as int)
    }
}

/// The number of callables in a file.
pub open spec fn callables(ds: Seq<Declaration>) -> nat {
    function_count_n(ds, ds.len() as int) + method_count_n(ds, ds.len() as int)
}

/// The number of callables in all modules.
pub open spec fn module_callables(ms: Seq<ResolvedSourceModule>) -> nat {
    function_total_n(ms, ms.len() as int) + method_total_n(ms, ms.len() as int)
}

/// No two modules have the same path.
pub open spec fn distinct_paths(ms: Seq<ResolvedSourceModule>) -> bool {
    forall|i: int, j: int|
        0 <= i < j < ms.len() ==> (#[trigger] ms[i]).path@ != (#[trigger] ms[j]).path@
}

proof fn lemma_function_total(ms: Seq<ResolvedSourceModule>, i: int, n: int)
    requires
        0 <= i <= n <= ms.len(),
    ensures
        function_total_n(ms, i) <= function_total_n(ms, n),
    decreases n - i,
{
    if i < n {
        lemma_function_total(ms, i, n - 1);
    }
}

proof fn lemma_method_total(ms: Seq<ResolvedSourceModule>, i: int, n: int)
    requires
        0 <= i <= n <= ms.len(),
    ensures
        method_total_n(ms, i) <= method_total_n(ms, n),
    decreases n - i,
{
    if i < n {
        lemma_method_total(ms, i, n - 1);
    }
}

impl State {
    fn reject_imports(&mut self, ds: &Vec<Declaration>)
        ensures
            final(self)@ == imports_rejected_n(old(self)@, ds@, ds@.len() as int),
    {
        let mut i: usize = 0;
        while i < ds.len()
            invariant
                i <= ds.len(),
                self@ == imports_rejected_n(old(self)@, ds@, i as int),
            decreases ds.len() - i,
        {
            if let Declaration::Import(imp) = &ds[i] {
                self.error(
                    "`import` is only valid in multi-module compilation; this input is being checked as a single file".to_owned(),
                    imp.span,
                );
            }
            i += 1;
        }
    }

    fn reject_mains(&mut self, ds: &Vec<Declaration>)
        ensures
            final(self)@ == mains_rejected_n(old(self)@, ds@, ds@.len() as int),
    {
        let mut i: usize = 0;
        while i < ds.len()
            invariant
                i <= ds.len(),
                self@ == mains_rejected_n(old(self)@, ds@, i as int),
            decreases ds.len() - i,
        {
            if let Declaration::Function(f) = &ds[i] {
                if same_text(&f.name, "main") {
                    self.error(
                        "`main` may only be declared in the entry module".to_owned(),
                        f.name_span,
                    );
                }
            }
            i += 1;
        }
    }

    fn reject_module_mains(&mut self, ms: &Vec<ResolvedSourceModule>)
        ensures
            final(self)@ == module_mains_rejected_n(old(self)@, ms@, ms@.len() as int),
    {
        let mut i: usize = 0;
        while i < ms.len()
            invariant
                i <= ms.len(),
                self@ == module_mains_rejected_n(old(self)@, ms@, i as int),
            decreases ms.len() - i,
        {
            if !ms[i].is_entry {
                self.reject_mains(&ms[i].program.declarations);
            }
            i += 1;
        }
    }
}

impl<'a> Env<'a> {
    fn is_surviving_decl<T: Declared>(&self, table: &Table<String, T>, name: &String, span: Span) -> (r: bool)
        ensures
            r == survives::<T>(self@, table@, name@, span),
    {
        let key = module_qualify(&self.current_module, name);
        match table.get(&key) {
            Some(info) => info.place() == span,
            None => false,
        }
    }

    fn is_surviving_impl(&self, name: &String) -> (r: bool)
        ensures
            r == impl_survives(self@, name@),
    {
        let key = module_qualify(&self.current_module, name);
        match self.structs.get(&key) {
            Some(info) => info.def_module.same(&self.current_module),
            None => match self.enums.get(&key) {
                Some(info) => info.def_module.same(&self.current_module),
                None => false,
            },
        }
    }

    fn prepare(&mut self)
        ensures
            final(self)@ == prepared(old(self)@),
    {
        self.register_builtins();
        self.snapshot_builtin_names();
    }

    fn enter_module(&mut self, path: &ModulePath)
        ensures
            final(self)@ == in_module(old(self)@, path@),
            final(self).next_func_id == old(self).next_func_id,
    {
        self.current_module = path.dup();
    }

    fn name_file(&mut self, ds: &Vec<Declaration>)
        requires
            old(self).next_func_id + callables(ds@) <= u32::MAX,
        ensures
            final(self)@ == file_named(old(self)@, ds@),
    {
        self.prepare();
        let entry = ModulePath::entry();
        self.enter_module(&entry);
        self.build_one_module_scope_phase_a(&entry, ds);
        self.pre_register_type_names(ds);
        proof {
            let e1 = EnvV { current_module: entry_path(), ..prepared(old(self)@) };
            lemma_type_names_frame(scope_built(e1, entry_path(), ds@), ds@, ds@.len() as int);
        }
        self.pre_allocate_function_ids(ds);
        self.user_method_offset = self.next_func_id;
        self.pre_allocate_user_method_ids(ds);
    }

    fn know_module_types(&mut self, ms: &Vec<ResolvedSourceModule>)
        ensures
            final(self)@ == module_types_known_n(old(self)@, ms@, ms@.len() as int),
            final(self).next_func_id == old(self).next_func_id,
    {
        let mut i: usize = 0;
        while i < ms.len()
            invariant
                i <= ms.len(),
                self@ == module_types_known_n(old(self)@, ms@, i as int),
                self.next_func_id == old(self).next_func_id,
            decreases ms.len() - i,
        {
            let ds = &ms[i].program.declarations;
            self.enter_module(&ms[i].path);
            proof {
                lemma_type_names_frame(self@, ds@, ds@.len() as int);
            }
            self.pre_register_type_names(ds);
            i += 1;
        }
    }

    fn allocate_module_functions(&mut self, ms: &Vec<ResolvedSourceModule>)
        requires
            old(self).next_func_id + function_total_n(ms@, ms@.len() as int) <= u32::MAX,
        ensures
            final(self)@ == module_function_ids_n(old(self)@, ms@, ms@.len() as int),
            final(self).next_func_id <= old(self).next_func_id + function_total_n(
                ms@,
                ms@.len() as int,
            ),
    {
        let mut i: usize = 0;
        while i < ms.len()
            invariant
                i <= ms.len(),
                old(self).next_func_id + function_total_n(ms@, ms@.len() as int) <= u32::MAX,
                self@ == module_function_ids_n(old(self)@, ms@, i as int),
                self.next_func_id <= old(self).next_func_id + function_total_n(ms@, i as int),
            decreases ms.len() - i,
        {
            proof {
                lemma_function_total(ms@, i + 1, ms@.len() as int);
            }
            self.enter_module(&ms[i].path);
            self.pre_allocate_function_ids(&ms[i].program.declarations);
            i += 1;
        }
    }

    fn allocate_module_methods(&mut self, ms: &Vec<ResolvedSourceModule>)
        requires
            old(self).next_func_id + method_total_n(ms@, ms@.len() as int) <= u32::MAX,
        ensures
            final(self)@ == module_method_ids_n(old(self)@, ms@, ms@.len() as int),
    {
        let mut i: usize = 0;
        while i < ms.len()
            invariant
                i <= ms.len(),
                old(self).next_func_id + method_total_n(ms@, ms@.len() as int) <= u32::MAX,
                self@ == module_method_ids_n(old(self)@, ms@, i as int),
                self.next_func_id <= old(self).next_func_id + method_total_n(ms@, i as int),
            decreases ms.len() - i,
        {
            proof {
                lemma_method_total(ms@, i + 1, ms@.len() as int);
            }
            self.enter_module(&ms[i].path);
            self.pre_allocate_user_method_ids(&ms[i].program.declarations);
            i += 1;
        }
    }

    fn name_modules(&mut self, ms: &Vec<ResolvedSourceModule>)
        requires
            old(self).next_func_id + module_callables(ms@) <= u32::MAX,
        ensures
            final(self)@ == modules_named(old(self)@, ms@),
    {
        self.know_module_types(ms);
        self.allocate_module_functions(ms);
        self.user_method_offset = self.next_func_id;
        self.allocate_module_methods(ms);
    }
}

impl<'a> Checker<'a> {
    /// A checker with empty tables.
    pub fn new() -> (r: Self)
        ensures
            r@ == initial_checker(),
    {
        let r = Checker {
            env: Env::new(),
            state: State::new(),
            endpoints: Vec::new(),
            endpoint_names: Vec::new(),
            route_signatures: Table::new(),
        };
        assert(r@ =~= initial_checker());
        r
    }

    /// Checks an endpoint and, if it is valid, adds what it comes to.
    pub fn check_endpoint(&mut self, ep: &'a EndpointDecl)
        ensures
            final(self)@ == endpoint_added(old(self)@, *ep),
    {
        let found: usize = self.state.diagnostic_count();
        let info = self.state.resolve_endpoint(
            &self.env,
            &self.endpoint_names,
            &self.route_signatures,
            ep,
        );
        let route = route_signature(info.method, &info.path);
        if !names_contain(&self.endpoint_names, &ep.name) {
            push_view(&mut self.endpoint_names, ep.name.clone());
        }
        if !self.route_signatures.has(&route) {
            self.route_signatures.put(route, ep.name.clone());
        }
        if self.state.diagnostic_count() == found {
            push_view(&mut self.endpoints, info);
        }
    }

    fn check_decl(&mut self, d: &'a Declaration)
        ensures
            final(self)@ == decl_checked(old(self)@, *d),
    {
        reveal(decl_checked);
        match d {
            Declaration::Function(f) => {
                if self.env.is_surviving_decl(&self.env.functions, &f.name, f.name_span) {
                    self.state.check_function(&self.env, f);
                }
            },
            Declaration::Impl(x) => {
                if self.env.is_surviving_impl(&x.for_type) {
                    self.state.check_impl(&self.env, &x.for_type, &x.methods);
                }
            },
            Declaration::Struct(s) => {
                if self.env.is_surviving_decl(&self.env.structs, &s.name, s.name_span) {
                    self.state.check_inline_methods(
                        &self.env,
                        &s.name,
                        &s.methods,
                        &s.trait_impls,
                    );
                }
            },
            Declaration::Enum(e) => {
                if self.env.is_surviving_decl(&self.env.enums, &e.name, e.name_span) {
                    self.state.check_inline_methods(
                        &self.env,
                        &e.name,
                        &e.methods,
                        &e.trait_impls,
                    );
                }
            },
            Declaration::Endpoint(ep) => {
                self.check_endpoint(ep);
            },
            _ => {},
        }
    }

    /// Checks the bodies of the current module.
    pub fn check_decl_bodies(&mut self, ds: &'a Vec<Declaration>)
        ensures
            final(self)@ == decls_checked_n(old(self)@, ds@, ds@.len() as int),
    {
        let mut i: usize = 0;
        while i < ds.len()
            invariant
                i <= ds.len(),
                self@ == decls_checked_n(old(self)@, ds@, i as int),
            decreases ds.len() - i,
        {
            self.check_decl(&ds[i]);
            i += 1;
        }
    }

    /// Checks a program that is a single file.
    pub fn check_program(&mut self, program: &'a Program)
        requires
            old(self).env.next_func_id + callables(program.declarations@) <= u32::MAX,
            !holds(old(self)@.env.module_scopes, entry_path()),
        ensures
            final(self)@ == file_checked(old(self)@, program.declarations@),
    {
        let ds = &program.declarations;
        self.env.name_file(ds);
        self.state.reject_imports(ds);
        self.register_decls(ds);
        self.check_decl_bodies(ds);
    }

    fn register_module_decls(&mut self, ms: &'a Vec<ResolvedSourceModule>)
        ensures
            final(self)@ == module_decls_registered_n(old(self)@, ms@, ms@.len() as int),
    {
        let mut i: usize = 0;
        while i < ms.len()
            invariant
                i <= ms.len(),
                self@ == module_decls_registered_n(old(self)@, ms@, i as int),
            decreases ms.len() - i,
        {
            self.env.enter_module(&ms[i].path);
            self.register_decls(&ms[i].program.declarations);
            i += 1;
        }
    }

    fn check_module_bodies(&mut self, ms: &'a Vec<ResolvedSourceModule>)
        ensures
            final(self)@ == module_decls_checked_n(old(self)@, ms@, ms@.len() as int),
    {
        let mut i: usize = 0;
        while i < ms.len()
            invariant
                i <= ms.len(),
                self@ == module_decls_checked_n(old(self)@, ms@, i as int),
            decreases ms.len() - i,
        {
            self.env.enter_module(&ms[i].path);
            self.check_decl_bodies(&ms[i].program.declarations);
            i += 1;
        }
    }

    /// Checks a program of several modules.
    pub fn check_modules_inner(&mut self, ms: &'a Vec<ResolvedSourceModule>)
        requires
            old(self).env.next_func_id + module_callables(ms@) <= u32::MAX,
            distinct_paths(ms@),
            forall|i: int|
                0 <= i < ms@.len() ==> !holds(
                    old(self)@.env.module_scopes,
                    (#[trigger] ms@[i]).path@,
                ),
        ensures
            final(self)@ == modules_checked(old(self)@, ms@),
    {
        self.state.reject_module_mains(ms);
        self.env.prepare();
        self.env.build_module_scopes_phase_a(ms);
        proof {
            lemma_scopes_frame(prepared(old(self)@.env), ms@, ms@.len() as int);
            lemma_module_imports_frame(self@, ms@, ms@.len() as int);
        }
        self.build_module_scopes_phase_b(ms);
        self.env.name_modules(ms);
        self.register_module_decls(ms);
        self.check_module_bodies(ms);
        let entry = ModulePath::entry();
        self.env.enter_module(&entry);
    }
}

} // verus!
