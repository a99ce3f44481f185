//! A file on its own and the same file as the only module of a program.
use crate::ast::Declaration;
use crate::checker::{
    callables, file_checked, file_named, file_registered, imports_rejected_n, in_module,
    initial_checker, module_decls_checked_n, module_decls_registered_n, module_function_ids_n,
    module_mains_rejected_n, module_method_ids_n, module_types_known_n, modules_checked,
    modules_named, modules_registered, modules_scoped, prepared, CheckerV,
};
use crate::coherence::{
    lemma_decls_checked_n, lemma_file_named, lemma_offset_set, lemma_prepared, lemma_type_names,
};
use crate::dense::{lemma_function_ids_n, lemma_method_decl_ids_n};
use crate::env::EnvV;
use crate::ids::{function_ids_n, method_decl_ids_n};
use crate::paths::entry_path;
use crate::register::type_names_known_n;
use crate::scopes::{imports_n, module_imports_n, scope_built, scopes_built_n, ResolvedSourceModule};
use crate::slots::lemma_decls_registered_n;
use crate::state::StateV;
use crate::text::Chars;
use vstd::prelude::*;

verus! {

/// Whether nothing is imported.
pub open spec fn stands_alone(ds: Seq<Declaration>) -> bool {
    forall|k: int| 0 <= k < ds.len() ==> !((#[trigger] ds[k]) is Import)
}

proof fn lemma_nothing_rejected(st: StateV, ds: Seq<Declaration>, n: int)
    requires
        stands_alone(ds),
    ensures
        imports_rejected_n(st, ds, n) == st,
    decreases n,
{
    if 0 < n <= ds.len() {
        lemma_nothing_rejected(st, ds, n - 1);
    }
}

proof fn lemma_nothing_imported(
    c: CheckerV,
    ms: Seq<ResolvedSourceModule>,
    importer: Seq<Chars>,
    ds: Seq<Declaration>,
    n: int,
)
    requires
        stands_alone(ds),
    ensures
        imports_n(c, ms, importer, ds, n) == c,
    decreases n,
{
    if 0 < n <= ds.len() {
        lemma_nothing_imported(c, ms, importer, ds, n - 1);
    }
}

/// The names and ids of the only module are those of the file.
proof fn lemma_named_alike(m: ResolvedSourceModule, env: EnvV)
    requires
        m.path@ == entry_path(),
        callables(m.program.declarations@) <= u32::MAX,
        env == scope_built(
            prepared(initial_checker().env),
            entry_path(),
            m.program.declarations@,
        ),
    ensures
        modules_named(env, seq![m]) == file_named(initial_checker().env, m.program.declarations@),
        modules_named(env, seq![m]).current_module == entry_path(),
{
    let ms = seq![m];
    let ds = m.program.declarations@;
    let n = ds.len() as int;
    lemma_prepared();
    reveal_with_fuel(module_types_known_n, 2);
    reveal_with_fuel(module_function_ids_n, 2);
    reveal_with_fuel(module_method_ids_n, 2);
    assert(in_module(env, entry_path()) == env);
    let e3 = type_names_known_n(env, ds, n);
    lemma_type_names(env, ds, n);
    assert(module_types_known_n(env, ms, 1) == e3);
    assert(in_module(e3, entry_path()) == e3);
    let e4 = function_ids_n(e3, ds, n);
    lemma_function_ids_n(e3, ds, n);
    assert(module_function_ids_n(e3, ms, 1) == e4);
    let e5 = EnvV { user_method_offset: e4.next_func_id, ..e4 };
    lemma_offset_set(e4);
    assert(in_module(e5, entry_path()) == e5);
    lemma_method_decl_ids_n(e5, ds, n);
    assert(module_method_ids_n(e5, ms, 1) == method_decl_ids_n(e5, ds, n));
}

/// A file that imports nothing is checked as the only module of a program
/// would be.
pub proof fn law_one_module_is_a_file(m: ResolvedSourceModule)
    requires
        m.path@ == entry_path(),
        m.is_entry,
        stands_alone(m.program.declarations@),
        callables(m.program.declarations@) <= u32::MAX,
    ensures
        modules_checked(initial_checker(), seq![m]) == file_checked(
            initial_checker(),
            m.program.declarations@,
        ),
{
    let c = initial_checker();
    let ms = seq![m];
    let ds = m.program.declarations@;
    let n = ds.len() as int;
    reveal_with_fuel(module_mains_rejected_n, 2);
    reveal_with_fuel(scopes_built_n, 2);
    reveal_with_fuel(module_imports_n, 2);
    reveal_with_fuel(module_decls_registered_n, 2);
    reveal_with_fuel(module_decls_checked_n, 2);
    lemma_nothing_rejected(c.st, ds, n);
    let scoped = CheckerV { env: scope_built(prepared(c.env), entry_path(), ds), ..c };
    lemma_nothing_imported(scoped, ms, entry_path(), ds, n);
    assert(modules_scoped(c, ms) == scoped);
    lemma_named_alike(m, scoped.env);
    let named = file_named(c.env, ds);
    let c1 = CheckerV { env: named, ..c };
    assert(in_module(named, entry_path()) == named);
    assert(modules_registered(c, ms) == file_registered(c, ds));
    let r = file_registered(c, ds);
    lemma_file_named(ds);
    lemma_decls_registered_n(c1, ds, n);
    assert(in_module(r.env, entry_path()) == r.env);
    lemma_decls_checked_n(r, ds, n);
}

} // verus!
