//! Ids of functions and methods.
//!
//! Every callable gets its id before anything is registered: first the free
//! functions, then the methods, each in the order of the declarations.
use crate::ast::{Declaration, FunctionDecl, InlineTraitImpl};
use crate::env::{Env, EnvV};
use crate::paths::{module_qualify, qualified};
use crate::span::FuncId;
use crate::table::{find, put};
use crate::text::Chars;
use vstd::prelude::*;

verus! {

// ── How many there are ───────────────────────────────────────────────

/// The number of functions among the first `n` declarations.
pub open spec fn function_count_n(ds: Seq<Declaration>, n: int) -> nat
    decreases n,
{
    if n <= 0 || n > ds.len() {
        0
    } else {
        function_count_n(ds, n - 1) + if ds[n - 1] is Function {
            1nat
        } else {
            0nat
        }
    }
}

/// The number of methods in the first `n` trait implementations.
pub open spec fn inline_count_n(impls: Seq<InlineTraitImpl>, n: int) -> nat
    decreases n,
{
    if n <= 0 || n > impls.len() {
        0
    } else {
        inline_count_n(impls, n - 1) + impls[n - 1].methods@.len()
    }
}

/// The number of methods in a declaration.
pub open spec fn methods_in(d: Declaration) -> nat {
    match d {
        Declaration::Struct(s) => s.methods@.len() + inline_count_n(
            s.trait_impls@,
            s.trait_impls@.len() as int,
        ),
        Declaration::Enum(e) => e.methods@.len() + inline_count_n(
            e.trait_impls@,
            e.trait_impls@.len() as int,
        ),
        Declaration::Impl(i) => i.methods@.len(),
        _ => 0,
    }
}

/// The number of methods in the first `n` declarations.
pub open spec fn method_count_n(ds: Seq<Declaration>, n: int) -> nat
    decreases n,
{
    if n <= 0 || n > ds.len() {
        0
    } else {
        method_count_n(ds, n - 1) + methods_in(ds[n - 1])
    }
}

// ── Functions ────────────────────────────────────────────────────────

/// The tables after giving the function `name` an id, unless it has one.
pub open spec fn function_id_given(env: EnvV, name: Chars) -> EnvV {
    let key = qualified(env.current_module, name);
    match find(env.pending_function_ids, key) {
        Some(_) => env,
        None => EnvV {
            pending_function_ids: put(env.pending_function_ids, key, FuncId(env.next_func_id)),
            next_func_id: (env.next_func_id + 1) as u32,
            ..env
        },
    }
}

/// The tables after giving ids to the functions among the first `n`
/// declarations. A function with the name of a builtin gets none.
pub open spec fn function_ids_n(env: EnvV, ds: Seq<Declaration>, n: int) -> EnvV
    decreases n,
{
    if n <= 0 || n > ds.len() {
        env
    } else {
        let rest = function_ids_n(env, ds, n - 1);
        match ds[n - 1] {
            Declaration::Function(f) => if rest.builtin_local_names.contains(f.name@) {
                rest
            } else {
                function_id_given(rest, f.name@)
            },
            _ => rest,
        }
    }
}

// ── Methods ──────────────────────────────────────────────────────────

/// The tables after giving the method `name` of `for_type` an id, unless it
/// has one.
pub open spec fn method_id_given(env: EnvV, for_type: Chars, name: Chars) -> EnvV {
    let key = (qualified(env.current_module, for_type), name);
    match find(env.pending_user_method_ids, key) {
        Some(_) => env,
        None => EnvV {
            pending_user_method_ids: put(
                env.pending_user_method_ids,
                key,
                FuncId(env.next_func_id),
            ),
            next_func_id: (env.next_func_id + 1) as u32,
            ..env
        },
    }
}

/// The same for the first `n` of a list of methods.
pub open spec fn method_ids_n(env: EnvV, for_type: Chars, ms: Seq<FunctionDecl>, n: int) -> EnvV
    decreases n,
{
    if n <= 0 || n > ms.len() {
        env
    } else {
        method_id_given(method_ids_n(env, for_type, ms, n - 1), for_type, ms[n - 1].name@)
    }
}

/// The same for the methods of the first `n` trait implementations.
pub open spec fn inline_ids_n(env: EnvV, for_type: Chars, impls: Seq<InlineTraitImpl>, n: int) -> EnvV
    decreases n,
{
    if n <= 0 || n > impls.len() {
        env
    } else {
        let ms = impls[n - 1].methods@;
        method_ids_n(inline_ids_n(env, for_type, impls, n - 1), for_type, ms, ms.len() as int)
    }
}

/// The same for the methods inside a type, unless it has the name of a
/// builtin.
pub open spec fn type_ids(
    env: EnvV,
    for_type: Chars,
    ms: Seq<FunctionDecl>,
    impls: Seq<InlineTraitImpl>,
) -> EnvV {
    if env.builtin_local_names.contains(for_type) {
        env
    } else {
        inline_ids_n(
            method_ids_n(env, for_type, ms, ms.len() as int),
            for_type,
            impls,
            impls.len() as int,
        )
    }
}

/// The tables after giving ids to the methods in a declaration.
pub open spec fn decl_method_ids(env: EnvV, d: Declaration) -> EnvV {
    match d {
        Declaration::Struct(s) => type_ids(env, s.name@, s.methods@, s.trait_impls@),
        Declaration::Enum(e) => type_ids(env, e.name@, e.methods@, e.trait_impls@),
        Declaration::Impl(i) => method_ids_n(env, i.for_type@, i.methods@, i.methods@.len() as int),
        _ => env,
    }
}

/// The tables after giving ids to the methods in the first `n` declarations.
pub open spec fn method_decl_ids_n(env: EnvV, ds: Seq<Declaration>, n: int) -> EnvV
    decreases n,
{
    if n <= 0 || n > ds.len() {
        env
    } else {
        decl_method_ids(method_decl_ids_n(env, ds, n - 1), ds[n - 1])
    }
}

impl<'a> Env<'a> {
    /// The id of a function of the current module, given out now if it has
    /// none.
    pub fn function_id_for(&mut self, name: &String) -> (r: FuncId)
        requires
            old(self).next_func_id < u32::MAX,
        ensures
            final(self)@ == function_id_given(old(self)@, name@),
            Some(r) == find(
                final(self)@.pending_function_ids,
                qualified(old(self)@.current_module, name@),
            ),
            final(self).next_func_id <= old(self).next_func_id + 1,
    {
        let key = module_qualify(&self.current_module, name);
        if let Some(id) = self.pending_function_ids.get(&key) {
            return *id;
        }
        let id = FuncId(self.next_func_id);
        proof {
            crate::table::law_find_after_put(self@.pending_function_ids, key@, id);
        }
        self.next_func_id = self.next_func_id + 1;
        self.pending_function_ids.put(key, id);
        id
    }

    /// Gives ids to the functions of the current module.
    pub fn pre_allocate_function_ids(&mut self, ds: &Vec<Declaration>)
        requires
            old(self).next_func_id + function_count_n(ds@, ds@.len() as int) <= u32::MAX,
        ensures
            final(self)@ == function_ids_n(old(self)@, ds@, ds@.len() as int),
            final(self).next_func_id <= old(self).next_func_id + function_count_n(
                ds@,
                ds@.len() as int,
            ),
    {
        let mut i: usize = 0;
        while i < ds.len()
            invariant
                i <= ds.len(),
                old(self).next_func_id + function_count_n(ds@, ds@.len() as int) <= u32::MAX,
                self@ == function_ids_n(old(self)@, ds@, i as int),
                self.next_func_id <= old(self).next_func_id + function_count_n(ds@, i as int),
            decreases ds.len() - i,
        {
            proof {
                lemma_function_count(ds@, i + 1, ds@.len() as int);
            }
            if let Declaration::Function(f) = &ds[i] {
                if !self.is_builtin_name(&f.name) {
                    let _ = self.function_id_for(&f.name);
                }
            }
            i += 1;
        }
    }

    /// The id of a method of a type of the current module, given out now if it
    /// has none.
    pub fn user_method_id_for(&mut self, for_type: &String, name: &String) -> (r: FuncId)
        requires
            old(self).next_func_id < u32::MAX,
        ensures
            final(self)@ == method_id_given(old(self)@, for_type@, name@),
            Some(r) == find(
                final(self)@.pending_user_method_ids,
                (qualified(old(self)@.current_module, for_type@), name@),
            ),
            final(self).next_func_id <= old(self).next_func_id + 1,
    {
        let key = (module_qualify(&self.current_module, for_type), name.clone());
        if let Some(id) = self.pending_user_method_ids.get(&key) {
            return *id;
        }
        let id = FuncId(self.next_func_id);
        proof {
            crate::table::law_find_after_put(
                self@.pending_user_method_ids,
                key.deep_view(),
                id,
            );
        }
        self.next_func_id = self.next_func_id + 1;
        self.pending_user_method_ids.put(key, id);
        id
    }

    fn allocate_methods(&mut self, for_type: &String, ms: &Vec<FunctionDecl>)
        requires
            old(self).next_func_id + ms@.len() <= u32::MAX,
        ensures
            final(self)@ == method_ids_n(old(self)@, for_type@, ms@, ms@.len() as int),
            final(self).next_func_id <= old(self).next_func_id + ms@.len(),
    {
        let mut i: usize = 0;
        while i < ms.len()
            invariant
                i <= ms.len(),
                old(self).next_func_id + ms@.len() <= u32::MAX,
                self@ == method_ids_n(old(self)@, for_type@, ms@, i as int),
                self.next_func_id <= old(self).next_func_id + i,
            decreases ms.len() - i,
        {
            let _ = self.user_method_id_for(for_type, &ms[i].name);
            i += 1;
        }
    }

    fn allocate_type_methods(
        &mut self,
        for_type: &String,
        ms: &Vec<FunctionDecl>,
        impls: &Vec<InlineTraitImpl>,
    )
        requires
            old(self).next_func_id + ms@.len() + inline_count_n(impls@, impls@.len() as int)
                <= u32::MAX,
        ensures
            final(self)@ == type_ids(old(self)@, for_type@, ms@, impls@),
            final(self).next_func_id <= old(self).next_func_id + ms@.len() + inline_count_n(
                impls@,
                impls@.len() as int,
            ),
    {
        if self.is_builtin_name(for_type) {
            return;
        }
        self.allocate_methods(for_type, ms);
        let ghost before = *self;
        let mut i: usize = 0;
        while i < impls.len()
            invariant
                i <= impls.len(),
                before.next_func_id + inline_count_n(impls@, impls@.len() as int) <= u32::MAX,
                self@ == inline_ids_n(before@, for_type@, impls@, i as int),
                self.next_func_id <= before.next_func_id + inline_count_n(impls@, i as int),
            decreases impls.len() - i,
        {
            proof {
                lemma_inline_count(impls@, i + 1, impls@.len() as int);
            }
            self.allocate_methods(for_type, &impls[i].methods);
            i += 1;
        }
    }

    /// Gives ids to the methods of the current module.
    pub fn pre_allocate_user_method_ids(&mut self, ds: &Vec<Declaration>)
        requires
            old(self).next_func_id + method_count_n(ds@, ds@.len() as int) <= u32::MAX,
        ensures
            final(self)@ == method_decl_ids_n(old(self)@, ds@, ds@.len() as int),
            final(self).next_func_id <= old(self).next_func_id + method_count_n(
                ds@,
                ds@.len() as int,
            ),
    {
        let mut i: usize = 0;
        while i < ds.len()
            invariant
                i <= ds.len(),
                old(self).next_func_id + method_count_n(ds@, ds@.len() as int) <= u32::MAX,
                self@ == method_decl_ids_n(old(self)@, ds@, i as int),
                self.next_func_id <= old(self).next_func_id + method_count_n(ds@, i as int),
            decreases ds.len() - i,
        {
            proof {
                lemma_method_count(ds@, i + 1, ds@.len() as int);
            }
            match &ds[i] {
                Declaration::Struct(s) => {
                    self.allocate_type_methods(&s.name, &s.methods, &s.trait_impls);
                },
                Declaration::Enum(e) => {
                    self.allocate_type_methods(&e.name, &e.methods, &e.trait_impls);
                },
                Declaration::Impl(x) => {
                    self.allocate_methods(&x.for_type, &x.methods);
                },
                _ => {},
            }
            i += 1;
        }
    }
}

pub proof fn lemma_function_count(ds: Seq<Declaration>, i: int, n: int)
    requires
        0 <= i <= n <= ds.len(),
    ensures
        function_count_n(ds, i) <= function_count_n(ds, n),
    decreases n - i,
{
    if i < n {
        lemma_function_count(ds, i, n - 1);
    }
}

pub proof fn lemma_inline_count(impls: Seq<InlineTraitImpl>, i: int, n: int)
    requires
        0 <= i <= n <= impls.len(),
    ensures
        inline_count_n(impls, i) <= inline_count_n(impls, n),
    decreases n - i,
{
    if i < n {
        lemma_inline_count(impls, i, n - 1);
    }
}

pub proof fn lemma_method_count(ds: Seq<Declaration>, i: int, n: int)
    requires
        0 <= i <= n <= ds.len(),
    ensures
        method_count_n(ds, i) <= method_count_n(ds, n),
    decreases n - i,
{
    if i < n {
        lemma_method_count(ds, i, n - 1);
    }
}

} // verus!
