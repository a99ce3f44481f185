//! The product of the analysis: declarations by id, and what was recorded by
//! position.
use crate::ast::{Declaration, Program};
use crate::checker::{
    callables, distinct_paths, file_checked, initial_checker, module_callables, modules_checked,
    Checker, CheckerV,
};
use crate::coherence::{env_coherent, lemma_file_coherent, lemma_modules_coherent};
use crate::env::{Env, EnvV};
use crate::info::{
    CaptureInfo, CaptureInfoV, EndpointInfo, EndpointInfoV, EnumInfo, EnumInfoV, FunctionInfo,
    FunctionInfoV, MethodInfo, MethodInfoV, StructInfo, StructInfoV, SymbolRef, SymbolRefV,
    TraitInfo, TraitInfoV, TypeAliasInfo, TypeAliasInfoV,
};
use crate::product::{law_coherent_is_wf, law_product_is_coherent};
use crate::scoped_params::{file_params, modules_params};
use crate::scopes::ResolvedSourceModule;
use crate::span::{
    Diagnostic, DiagnosticV, EnumId, FuncId, Indexed, Span, StructId, TraitId, OPTION_ENUM_ID,
    RESULT_ENUM_ID,
};
use crate::steady::args_settled;
use crate::steady_program::{law_file_ends_clean, law_modules_end_clean};
use crate::table::{distinct, find, find_inner, holds, inner, put_inner, tables_distinct, Key, Table};
use crate::text::{push_view, set_view, Chars, Dup};
use crate::types::{Ty, Type};
use vstd::prelude::*;

verus! {

broadcast use crate::ty::view_of_type;

/// The declarations of a program by id.
#[derive(Debug)]
pub struct ResolvedModule<'a> {
    /// The free functions, by id.
    pub functions: Vec<FunctionInfo<'a>>,
    pub function_by_name: Table<String, FuncId>,
    /// The methods, by id from `user_method_offset` on.
    pub user_methods: Vec<MethodInfo<'a>>,
    /// The first id of a method: the number of free functions.
    pub user_method_offset: u32,
    /// The ids of the methods by type and name.
    pub method_index: Table<String, Table<String, FuncId>>,
    /// The built-in methods by type and name. They have no ids.
    pub builtin_methods: Table<String, Table<String, MethodInfo<'a>>>,
    /// The structs, by id.
    pub structs: Vec<StructInfo<'a>>,
    pub struct_by_name: Table<String, StructId>,
    /// The enums, by id: `Option`, `Result`, then those of the program.
    pub enums: Vec<EnumInfo>,
    pub enum_by_name: Table<String, EnumId>,
    /// The traits, by id.
    pub traits: Vec<TraitInfo>,
    pub trait_by_name: Table<String, TraitId>,
    /// The type of each expression.
    pub expr_types: Table<Span, Type>,
    /// The type arguments of each generic call, in the order of the type
    /// parameters.
    pub call_type_args: Table<Span, Vec<Type>>,
    /// The resolved annotation of each annotated variable.
    pub var_annotation_types: Table<Span, Type>,
    /// What each lambda captures.
    pub lambda_captures: Table<Span, Vec<CaptureInfo>>,
    /// The argument type of each `json.encode`.
    pub json_encode_types: Table<Span, Type>,
    /// The target type of each `json.decode`.
    pub json_decode_types: Table<Span, Type>,
    /// The table key of the function behind each call through a namespace.
    pub namespace_call_targets: Table<Span, String>,
}

/// What a [`ResolvedModule`] holds.
#[verifier::ext_equal]
pub struct ResolvedModuleV {
    pub functions: Seq<FunctionInfoV>,
    pub function_by_name: Seq<(Chars, FuncId)>,
    pub user_methods: Seq<MethodInfoV>,
    pub user_method_offset: u32,
    pub method_index: Seq<(Chars, Seq<(Chars, FuncId)>)>,
    pub builtin_methods: Seq<(Chars, Seq<(Chars, MethodInfoV)>)>,
    pub structs: Seq<StructInfoV>,
    pub struct_by_name: Seq<(Chars, StructId)>,
    pub enums: Seq<EnumInfoV>,
    pub enum_by_name: Seq<(Chars, EnumId)>,
    pub traits: Seq<TraitInfoV>,
    pub trait_by_name: Seq<(Chars, TraitId)>,
    pub expr_types: Seq<(Span, Ty)>,
    pub call_type_args: Seq<(Span, Seq<Ty>)>,
    pub var_annotation_types: Seq<(Span, Ty)>,
    pub lambda_captures: Seq<(Span, Seq<CaptureInfoV>)>,
    pub json_encode_types: Seq<(Span, Ty)>,
    pub json_decode_types: Seq<(Span, Ty)>,
    pub namespace_call_targets: Seq<(Span, Chars)>,
}

impl<'a> View for ResolvedModule<'a> {
    type V = ResolvedModuleV;

    open spec fn view(&self) -> ResolvedModuleV {
        ResolvedModuleV {
            functions: self.functions.deep_view(),
            function_by_name: self.function_by_name@,
            user_methods: self.user_methods.deep_view(),
            user_method_offset: self.user_method_offset,
            method_index: self.method_index@,
            builtin_methods: self.builtin_methods@,
            structs: self.structs.deep_view(),
            struct_by_name: self.struct_by_name@,
            enums: self.enums.deep_view(),
            enum_by_name: self.enum_by_name@,
            traits: self.traits.deep_view(),
            trait_by_name: self.trait_by_name@,
            expr_types: self.expr_types@,
            call_type_args: self.call_type_args@,
            var_annotation_types: self.var_annotation_types@,
            lambda_captures: self.lambda_captures@,
            json_encode_types: self.json_encode_types@,
            json_decode_types: self.json_decode_types@,
            namespace_call_targets: self.namespace_call_targets@,
        }
    }
}

/// Everything that the analysis of a program gives.
#[derive(Debug)]
pub struct Analysis<'a> {
    pub module: ResolvedModule<'a>,
    /// The findings; none if the program is valid.
    pub diagnostics: Vec<Diagnostic>,
    pub endpoints: Vec<EndpointInfo<'a>>,
    /// What each use refers to.
    pub symbol_references: Table<Span, SymbolRef>,
    /// Which type implements which trait.
    pub trait_impls: Vec<(String, String)>,
    pub type_aliases: Table<String, TypeAliasInfo>,
}

/// What an [`Analysis`] holds.
#[verifier::ext_equal]
pub struct AnalysisV {
    pub module: ResolvedModuleV,
    pub diagnostics: Seq<DiagnosticV>,
    pub endpoints: Seq<EndpointInfoV>,
    pub symbol_references: Seq<(Span, SymbolRefV)>,
    pub trait_impls: Seq<(Chars, Chars)>,
    pub type_aliases: Seq<(Chars, TypeAliasInfoV)>,
}

impl<'a> View for Analysis<'a> {
    type V = AnalysisV;

    open spec fn view(&self) -> AnalysisV {
        AnalysisV {
            module: self.module@,
            diagnostics: self.diagnostics.deep_view(),
            endpoints: self.endpoints.deep_view(),
            symbol_references: self.symbol_references@,
            trait_impls: self.trait_impls.deep_view(),
            type_aliases: self.type_aliases@,
        }
    }
}

// ── Callables by id ──────────────────────────────────────────────────

/// The first function at or after `i` with the id.
pub open spec fn function_from(fs: Seq<(Chars, FunctionInfoV)>, id: FuncId, i: int) -> Option<
    FunctionInfoV,
>
    decreases fs.len() - i,
{
    if i < 0 || i >= fs.len() {
        None
    } else if fs[i].1.func_id == id {
        Some(fs[i].1)
    } else {
        function_from(fs, id, i + 1)
    }
}

/// The functions with the first `n` ids.
pub open spec fn functions_n(env: EnvV, n: int) -> Seq<FunctionInfoV>
    decreases n,
{
    if n <= 0 {
        Seq::empty()
    } else {
        let rest = functions_n(env, n - 1);
        match function_from(env.functions, FuncId((n - 1) as u32), 0) {
            Some(info) => rest.push(info),
            None => rest,
        }
    }
}

/// The ids of the first `n` functions in the table.
pub open spec fn function_ids_by_name_n(fs: Seq<(Chars, FunctionInfoV)>, n: int) -> Seq<(Chars, FuncId)>
    decreases n,
{
    if n <= 0 || n > fs.len() {
        Seq::empty()
    } else {
        function_ids_by_name_n(fs, n - 1).push((fs[n - 1].0, fs[n - 1].1.func_id))
    }
}

/// The first method at or after `i` with the id.
pub open spec fn method_with_id_from(t: Seq<(Chars, MethodInfoV)>, id: FuncId, i: int) -> Option<
    MethodInfoV,
>
    decreases t.len() - i,
{
    if i < 0 || i >= t.len() {
        None
    } else if t[i].1.func_id == Some(id) {
        Some(t[i].1)
    } else {
        method_with_id_from(t, id, i + 1)
    }
}

/// The first method with the id in the tables at or after `i`.
pub open spec fn method_among_from<K>(
    ts: Seq<(K, Seq<(Chars, MethodInfoV)>)>,
    id: FuncId,
    i: int,
) -> Option<MethodInfoV>
    decreases ts.len() - i,
{
    if i < 0 || i >= ts.len() {
        None
    } else {
        match method_with_id_from(ts[i].1, id, 0) {
            Some(m) => Some(m),
            None => method_among_from(ts, id, i + 1),
        }
    }
}

/// The method with the id: one that a lookup finds, or else one of a rejected
/// declaration.
pub open spec fn method_with_id(env: EnvV, id: FuncId) -> Option<MethodInfoV> {
    match method_among_from(env.methods, id, 0) {
        Some(m) => Some(m),
        None => method_among_from(env.orphan_methods, id, 0),
    }
}

/// The id at position `i` among the methods.
pub open spec fn method_id_at(env: EnvV, i: int) -> FuncId {
    FuncId((env.user_method_offset + i) as u32)
}

/// The methods with the first `n` ids of methods.
pub open spec fn user_methods_n(env: EnvV, n: int) -> Seq<MethodInfoV>
    decreases n,
{
    if n <= 0 {
        Seq::empty()
    } else {
        let rest = user_methods_n(env, n - 1);
        match method_with_id(env, method_id_at(env, n - 1)) {
            Some(m) => rest.push(m),
            None => rest,
        }
    }
}

/// The index with the ids of the first `n` methods of a type.
pub open spec fn type_indexed_n(
    index: Seq<(Chars, Seq<(Chars, FuncId)>)>,
    key: Chars,
    t: Seq<(Chars, MethodInfoV)>,
    n: int,
) -> Seq<(Chars, Seq<(Chars, FuncId)>)>
    decreases n,
{
    if n <= 0 || n > t.len() {
        index
    } else {
        let rest = type_indexed_n(index, key, t, n - 1);
        match t[n - 1].1.func_id {
            Some(id) => put_inner(rest, key, t[n - 1].0, id),
            None => rest,
        }
    }
}

/// The ids of the methods of the first `n` types.
pub open spec fn indexed_n(ms: Seq<(Chars, Seq<(Chars, MethodInfoV)>)>, n: int) -> Seq<
    (Chars, Seq<(Chars, FuncId)>),
>
    decreases n,
{
    if n <= 0 || n > ms.len() {
        Seq::empty()
    } else {
        type_indexed_n(indexed_n(ms, n - 1), ms[n - 1].0, ms[n - 1].1, ms[n - 1].1.len() as int)
    }
}

/// The tables with those of the first `n` methods of a type that have no id.
pub open spec fn type_builtins_n(
    ts: Seq<(Chars, Seq<(Chars, MethodInfoV)>)>,
    key: Chars,
    t: Seq<(Chars, MethodInfoV)>,
    n: int,
) -> Seq<(Chars, Seq<(Chars, MethodInfoV)>)>
    decreases n,
{
    if n <= 0 || n > t.len() {
        ts
    } else {
        let rest = type_builtins_n(ts, key, t, n - 1);
        match t[n - 1].1.func_id {
            Some(_) => rest,
            None => put_inner(rest, key, t[n - 1].0, t[n - 1].1),
        }
    }
}

/// The built-in methods of the first `n` types.
pub open spec fn builtins_n(ms: Seq<(Chars, Seq<(Chars, MethodInfoV)>)>, n: int) -> Seq<
    (Chars, Seq<(Chars, MethodInfoV)>),
>
    decreases n,
{
    if n <= 0 || n > ms.len() {
        Seq::empty()
    } else {
        type_builtins_n(builtins_n(ms, n - 1), ms[n - 1].0, ms[n - 1].1, ms[n - 1].1.len() as int)
    }
}

// ── Types by id ──────────────────────────────────────────────────────

/// The list with the table entry for `name`, unless the list has the name or
/// the table does not.
pub open spec fn listed<V>(list: Seq<(Chars, V)>, table: Seq<(Chars, V)>, name: Chars) -> Seq<(Chars, V)> {
    match find(table, name) {
        Some(info) => if holds(list, name) {
            list
        } else {
            list.push((name, info))
        },
        None => list,
    }
}

/// The structs among the first `n` declarations.
pub open spec fn structs_listed_n(env: EnvV, ds: Seq<Declaration>, n: int) -> Seq<(Chars, StructInfoV)>
    decreases n,
{
    if n <= 0 || n > ds.len() {
        Seq::empty()
    } else {
        let rest = structs_listed_n(env, ds, n - 1);
        match ds[n - 1] {
            Declaration::Struct(s) => listed(rest, env.structs, s.name@),
            _ => rest,
        }
    }
}

/// The built-in enums, and the enums among the first `n` declarations.
pub open spec fn enums_listed_n(env: EnvV, ds: Seq<Declaration>, n: int) -> Seq<(Chars, EnumInfoV)>
    decreases n,
{
    if n <= 0 || n > ds.len() {
        listed(listed(Seq::empty(), env.enums, "Option"@), env.enums, "Result"@)
    } else {
        let rest = enums_listed_n(env, ds, n - 1);
        match ds[n - 1] {
            Declaration::Enum(e) => listed(rest, env.enums, e.name@),
            _ => rest,
        }
    }
}

/// The traits among the first `n` declarations.
pub open spec fn traits_listed_n(env: EnvV, ds: Seq<Declaration>, n: int) -> Seq<(Chars, TraitInfoV)>
    decreases n,
{
    if n <= 0 || n > ds.len() {
        Seq::empty()
    } else {
        let rest = traits_listed_n(env, ds, n - 1);
        match ds[n - 1] {
            Declaration::Trait(t) => listed(rest, env.traits, t.name@),
            _ => rest,
        }
    }
}

/// The values of a list.
pub open spec fn values_of<V>(list: Seq<(Chars, V)>) -> Seq<V> {
    Seq::new(list.len(), |i: int| list[i].1)
}

/// The number of structs among the first `n` declarations.
pub open spec fn struct_count_n(ds: Seq<Declaration>, n: int) -> nat
    decreases n,
{
    if n <= 0 || n > ds.len() {
        0
    } else if ds[n - 1] is Struct {
        struct_count_n(ds, n - 1) + 1
    } else {
        struct_count_n(ds, n - 1)
    }
}

/// The number of enums among the first `n` declarations.
pub open spec fn enum_count_n(ds: Seq<Declaration>, n: int) -> nat
    decreases n,
{
    if n <= 0 || n > ds.len() {
        0
    } else if ds[n - 1] is Enum {
        enum_count_n(ds, n - 1) + 1
    } else {
        enum_count_n(ds, n - 1)
    }
}

/// The number of traits among the first `n` declarations.
pub open spec fn trait_count_n(ds: Seq<Declaration>, n: int) -> nat
    decreases n,
{
    if n <= 0 || n > ds.len() {
        0
    } else if ds[n - 1] is Trait {
        trait_count_n(ds, n - 1) + 1
    } else {
        trait_count_n(ds, n - 1)
    }
}

/// Whether there are enough ids for the types and traits that are declared;
/// `Option` and `Result` take two.
pub open spec fn type_ids_fit(ds: Seq<Declaration>) -> bool {
    let n = ds.len() as int;
    &&& struct_count_n(ds, n) <= u32::MAX
    &&& enum_count_n(ds, n) + 2 <= u32::MAX
    &&& trait_count_n(ds, n) <= u32::MAX
}

/// The declarations by id, and what was recorded by position; `ds` are those
/// of the entry module.
pub open spec fn module_built(c: CheckerV, ds: Seq<Declaration>) -> ResolvedModuleV {
    let env = c.env;
    let n = ds.len() as int;
    let structs = structs_listed_n(env, ds, n);
    let enums = enums_listed_n(env, ds, n);
    let traits = traits_listed_n(env, ds, n);
    ResolvedModuleV {
        functions: functions_n(env, env.pending_function_ids.len() as int),
        function_by_name: function_ids_by_name_n(env.functions, env.functions.len() as int),
        user_methods: user_methods_n(env, env.pending_user_method_ids.len() as int),
        user_method_offset: env.user_method_offset,
        method_index: indexed_n(env.methods, env.methods.len() as int),
        builtin_methods: builtins_n(env.methods, env.methods.len() as int),
        structs: values_of(structs),
        struct_by_name: Seq::new(
            structs.len(),
            |i: int| (structs[i].0, StructId(i as u32)),
        ),
        enums: values_of(enums),
        enum_by_name: Seq::new(enums.len(), |i: int| (enums[i].0, EnumId(i as u32))),
        traits: values_of(traits),
        trait_by_name: Seq::new(traits.len(), |i: int| (traits[i].0, TraitId(i as u32))),
        expr_types: c.st.expr_types,
        call_type_args: c.st.call_type_args,
        var_annotation_types: c.st.var_annotation_types,
        lambda_captures: c.st.lambda_captures,
        json_encode_types: c.st.json_encode_types,
        json_decode_types: c.st.json_decode_types,
        namespace_call_targets: c.st.namespace_call_targets,
    }
}

/// Everything that a checked program gives.
pub open spec fn analysis_built(c: CheckerV, ds: Seq<Declaration>) -> AnalysisV {
    AnalysisV {
        module: module_built(c, ds),
        diagnostics: c.st.diagnostics,
        endpoints: c.endpoints,
        symbol_references: c.st.symbol_references,
        trait_impls: c.env.trait_impls,
        type_aliases: c.env.type_aliases,
    }
}

// ── Looking things up ────────────────────────────────────────────────

/// Whether every id that a name stands for is a position below `len`.
pub open spec fn in_range<Id: Indexed>(names: Seq<(Chars, Id)>, len: nat) -> bool {
    forall|i: int| 0 <= i < names.len() ==> 0 <= (#[trigger] names[i]).1.position() < len
}

/// Whether the names stand for the positions below `len`, each for its own.
pub open spec fn numbered<Id: Indexed>(names: Seq<(Chars, Id)>, len: nat) -> bool {
    &&& names.len() == len
    &&& distinct(names)
    &&& forall|i: int| 0 <= i < names.len() ==> (#[trigger] names[i]).1.position() == i
}

impl ResolvedModuleV {
    /// Every id has exactly one owner, which stands at the position of the id:
    /// functions first, then methods, and each kind of type from zero on with
    /// `Option` and `Result` as the first two enums.
    pub open spec fn coherent(self) -> bool {
        &&& numbered(self.function_by_name, self.functions.len())
        &&& numbered(self.struct_by_name, self.structs.len())
        &&& numbered(self.enum_by_name, self.enums.len())
        &&& numbered(self.trait_by_name, self.traits.len())
        &&& self.enums.len() >= 2
        &&& self.enum_by_name[OPTION_ENUM_ID as int].0 == "Option"@
        &&& self.enum_by_name[RESULT_ENUM_ID as int].0 == "Result"@
        &&& forall|i: int|
            0 <= i < self.functions.len() ==> (#[trigger] self.functions[i]).func_id.0 == i
        &&& self.user_method_offset == self.functions.len()
        &&& forall|i: int|
            0 <= i < self.user_methods.len() ==> match (#[trigger] self.user_methods[i]).func_id {
                Some(id) => id.0 == self.user_method_offset + i,
                None => false,
            }
        &&& tables_distinct(self.method_index)
        &&& tables_distinct(self.builtin_methods)
        &&& forall|type_key: Chars, method: Chars|
            match #[trigger] self.method_id(type_key, method) {
                Some(id) => self.user_method_offset <= id.0 < self.user_method_offset
                    + self.user_methods.len(),
                None => true,
            }
        &&& forall|type_key: Chars, method: Chars|
            match #[trigger] find_inner(self.builtin_methods, type_key, method) {
                Some(info) => info.func_id is None && self.method_id(type_key, method) is None,
                None => true,
            }
    }

    /// What later phases rely on is complete: the annotations of variables and
    /// the types that JSON goes through are never the error type; in the type
    /// arguments of calls the error type does not even occur, and no type
    /// parameter but those in `params`.
    pub open spec fn free_of_errors(self, params: Seq<Chars>) -> bool {
        &&& args_settled(self.call_type_args, params)
        &&& forall|k: Span| #[trigger] find(self.var_annotation_types, k) != Some(Ty::Error)
        &&& forall|k: Span| #[trigger] find(self.json_encode_types, k) != Some(Ty::Error)
        &&& forall|k: Span| #[trigger] find(self.json_decode_types, k) != Some(Ty::Error)
    }

    /// Every name stands for something: the ids in the name tables are in
    /// range.
    pub open spec fn wf(self) -> bool {
        &&& in_range(self.function_by_name, self.functions.len())
        &&& in_range(self.struct_by_name, self.structs.len())
        &&& in_range(self.enum_by_name, self.enums.len())
        &&& in_range(self.trait_by_name, self.traits.len())
        &&& forall|i: int, j: int|
            0 <= i < self.method_index.len() && 0 <= j < self.method_index[i].1.len()
                ==> self.user_method_offset <= (#[trigger] self.method_index[i].1[j]).1.0
                < self.user_method_offset + self.user_methods.len()
    }

    pub open spec fn function_named(self, name: Chars) -> Option<FunctionInfoV> {
        match find(self.function_by_name, name) {
            Some(id) => Some(self.functions[id.0 as int]),
            None => None,
        }
    }

    pub open spec fn struct_named(self, name: Chars) -> Option<StructInfoV> {
        match find(self.struct_by_name, name) {
            Some(id) => Some(self.structs[id.0 as int]),
            None => None,
        }
    }

    pub open spec fn enum_named(self, name: Chars) -> Option<EnumInfoV> {
        match find(self.enum_by_name, name) {
            Some(id) => Some(self.enums[id.0 as int]),
            None => None,
        }
    }

    pub open spec fn trait_named(self, name: Chars) -> Option<TraitInfoV> {
        match find(self.trait_by_name, name) {
            Some(id) => Some(self.traits[id.0 as int]),
            None => None,
        }
    }

    /// The id of a method of a type.
    pub open spec fn method_id(self, type_key: Chars, method: Chars) -> Option<FuncId> {
        find_inner(self.method_index, type_key, method)
    }

    /// A method of a type: one of the program, or else a built-in one.
    pub open spec fn method_named(self, type_key: Chars, method: Chars) -> Option<MethodInfoV> {
        match self.method_id(type_key, method) {
            Some(id) => Some(self.user_methods[id.0 - self.user_method_offset]),
            None => find_inner(self.builtin_methods, type_key, method),
        }
    }
}

/// The names behind the first `n` entries, by id.
pub open spec fn inverted_n<Id: Indexed>(names: Seq<(Chars, Id)>, len: nat, n: int) -> Seq<
    Option<Chars>,
>
    decreases n,
{
    if n <= 0 || n > names.len() {
        Seq::new(len, |i: int| None)
    } else {
        inverted_n(names, len, n - 1).update(names[n - 1].1.position(), Some(names[n - 1].0))
    }
}

/// The names by id.
pub open spec fn inverted<Id: Indexed>(names: Seq<(Chars, Id)>, len: nat) -> Seq<Option<Chars>> {
    inverted_n(names, len, names.len() as int)
}

/// The names by id: each position holds the name with that id.
pub fn invert_name_map<'m, Id: Indexed + DeepView<V = Id>>(names: &'m Table<String, Id>, len: usize) -> (r:
    Vec<Option<&'m str>>)
    requires
        in_range(names@, len as nat),
        forall|id: Id| (#[trigger] id.deep_view()) == id,
    ensures
        r.deep_view() == inverted(names@, len as nat),
        r@.len() == len,
{
    let mut out: Vec<Option<&'m str>> = Vec::new();
    let mut k: usize = 0;
    while k < len
        invariant
            k <= len,
            out@.len() == k,
            forall|i: int| 0 <= i < k ==> (#[trigger] out@[i]) is None,
        decreases len - k,
    {
        out.push(None);
        k += 1;
    }
    assert(out.deep_view() =~= inverted_n(names@, len as nat, 0));
    let mut i: usize = 0;
    while i < names.entries.len()
        invariant
            i <= names.entries.len(),
            in_range(names@, len as nat),
            forall|id: Id| (#[trigger] id.deep_view()) == id,
            out@.len() == len,
            out.deep_view() == inverted_n(names@, len as nat, i as int),
        decreases names.entries.len() - i,
    {
        assert(names@[i as int] == names.entries[i as int].deep_view());
        let at: usize = names.entries[i].1.index();
        set_view(&mut out, at, Some(names.entries[i].0.as_str()));
        i += 1;
    }
    out
}

/// The named functions among the first `n`, with their ids.
pub open spec fn named_functions_n(m: ResolvedModuleV, n: int) -> Seq<(Chars, FuncId, FunctionInfoV)>
    decreases n,
{
    if n <= 0 || n > m.functions.len() {
        Seq::empty()
    } else {
        let rest = named_functions_n(m, n - 1);
        match inverted(m.function_by_name, m.functions.len())[n - 1] {
            Some(name) => rest.push((name, FuncId((n - 1) as u32), m.functions[n - 1])),
            None => rest,
        }
    }
}

/// The named structs among the first `n`, with their ids.
pub open spec fn named_structs_n(m: ResolvedModuleV, n: int) -> Seq<(Chars, StructId, StructInfoV)>
    decreases n,
{
    if n <= 0 || n > m.structs.len() {
        Seq::empty()
    } else {
        let rest = named_structs_n(m, n - 1);
        match inverted(m.struct_by_name, m.structs.len())[n - 1] {
            Some(name) => rest.push((name, StructId((n - 1) as u32), m.structs[n - 1])),
            None => rest,
        }
    }
}

/// The named enums among the first `n`, with their ids.
pub open spec fn named_enums_n(m: ResolvedModuleV, n: int) -> Seq<(Chars, EnumId, EnumInfoV)>
    decreases n,
{
    if n <= 0 || n > m.enums.len() {
        Seq::empty()
    } else {
        let rest = named_enums_n(m, n - 1);
        match inverted(m.enum_by_name, m.enums.len())[n - 1] {
            Some(name) => rest.push((name, EnumId((n - 1) as u32), m.enums[n - 1])),
            None => rest,
        }
    }
}

/// The named traits among the first `n`.
pub open spec fn named_traits_n(m: ResolvedModuleV, n: int) -> Seq<(Chars, TraitInfoV)>
    decreases n,
{
    if n <= 0 || n > m.traits.len() {
        Seq::empty()
    } else {
        let rest = named_traits_n(m, n - 1);
        match inverted(m.trait_by_name, m.traits.len())[n - 1] {
            Some(name) => rest.push((name, m.traits[n - 1])),
            None => rest,
        }
    }
}

/// The names of methods by position, with the first `n` of a type.
pub open spec fn methods_inverted_type_n(
    out: Seq<Option<(Chars, Chars)>>,
    offset: u32,
    key: Chars,
    t: Seq<(Chars, FuncId)>,
    n: int,
) -> Seq<Option<(Chars, Chars)>>
    decreases n,
{
    if n <= 0 || n > t.len() {
        out
    } else {
        methods_inverted_type_n(out, offset, key, t, n - 1).update(
            t[n - 1].1.0 - offset,
            Some((key, t[n - 1].0)),
        )
    }
}

/// The names of methods by position, those of the first `n` types.
pub open spec fn methods_inverted_n(m: ResolvedModuleV, n: int) -> Seq<Option<(Chars, Chars)>>
    decreases n,
{
    if n <= 0 || n > m.method_index.len() {
        Seq::new(m.user_methods.len(), |i: int| None)
    } else {
        let (key, t) = m.method_index[n - 1];
        methods_inverted_type_n(
            methods_inverted_n(m, n - 1),
            m.user_method_offset,
            key,
            t,
            t.len() as int,
        )
    }
}

/// The named methods among the first `n`, with their ids.
pub open spec fn named_methods_n(m: ResolvedModuleV, n: int) -> Seq<
    ((Chars, Chars), FuncId, MethodInfoV),
>
    decreases n,
{
    if n <= 0 || n > m.user_methods.len() {
        Seq::empty()
    } else {
        let rest = named_methods_n(m, n - 1);
        match methods_inverted_n(m, m.method_index.len() as int)[n - 1] {
            Some(names) => rest.push(
                (names, FuncId((m.user_method_offset + (n - 1)) as u32), m.user_methods[n - 1]),
            ),
            None => rest,
        }
    }
}

proof fn lemma_found_in_range<Id: Indexed>(names: Seq<(Chars, Id)>, len: nat, name: Chars)
    requires
        in_range(names, len),
    ensures
        find(names, name) matches Some(id) ==> 0 <= id.position() < len,
{
    crate::table::lemma_position(names, name, 0);
    let i = crate::table::position(names, name, 0);
    if i < names.len() {
        assert(names[i].1.position() < len);
    }
}

proof fn lemma_method_in_range(m: ResolvedModuleV, type_key: Chars, method: Chars)
    requires
        m.wf(),
    ensures
        m.method_id(type_key, method) matches Some(id) ==> m.user_method_offset <= id.0
            < m.user_method_offset + m.user_methods.len(),
{
    crate::table::lemma_position(m.method_index, type_key, 0);
    let i = crate::table::position(m.method_index, type_key, 0);
    let t = inner(m.method_index, type_key);
    crate::table::lemma_position(t, method, 0);
    let j = crate::table::position(t, method, 0);
    if i < m.method_index.len() && j < t.len() {
        assert(m.method_index[i].1[j] == t[j]);
    }
}

impl<'a> ResolvedModule<'a> {
    /// The id of a free function.
    pub fn function_id(&self, name: &str) -> (r: Option<FuncId>)
        ensures
            r == find(self@.function_by_name, name@),
    {
        match self.function_by_name.get(&name.to_owned()) {
            Some(id) => Some(*id),
            None => None,
        }
    }

    /// The id of a struct.
    pub fn struct_id(&self, name: &str) -> (r: Option<StructId>)
        ensures
            r == find(self@.struct_by_name, name@),
    {
        match self.struct_by_name.get(&name.to_owned()) {
            Some(id) => Some(*id),
            None => None,
        }
    }

    /// The id of an enum.
    pub fn enum_id(&self, name: &str) -> (r: Option<EnumId>)
        ensures
            r == find(self@.enum_by_name, name@),
    {
        match self.enum_by_name.get(&name.to_owned()) {
            Some(id) => Some(*id),
            None => None,
        }
    }

    /// The id of a trait.
    pub fn trait_id(&self, name: &str) -> (r: Option<TraitId>)
        ensures
            r == find(self@.trait_by_name, name@),
    {
        match self.trait_by_name.get(&name.to_owned()) {
            Some(id) => Some(*id),
            None => None,
        }
    }

    /// The id of a method of the program. Built-in methods have none.
    pub fn method_func_id(&self, type_key: &str, method: &str) -> (r: Option<FuncId>)
        ensures
            r == self@.method_id(type_key@, method@),
    {
        match self.method_index.get(&type_key.to_owned()) {
            Some(t) => match t.get(&method.to_owned()) {
                Some(id) => Some(*id),
                None => None,
            },
            None => None,
        }
    }

    /// The position of a method in `user_methods`; none if the id is that of a
    /// free function.
    pub fn user_method_index(&self, id: FuncId) -> (r: Option<usize>)
        ensures
            r == if id.0 >= self@.user_method_offset {
                Some((id.0 - self@.user_method_offset) as usize)
            } else {
                None
            },
    {
        if id.0 >= self.user_method_offset {
            Some((id.0 - self.user_method_offset) as usize)
        } else {
            None
        }
    }

    /// The free function with the id.
    pub fn function(&self, id: FuncId) -> (r: &FunctionInfo<'a>)
        requires
            id.0 < self@.functions.len(),
        ensures
            r.deep_view() == self@.functions[id.0 as int],
    {
        &self.functions[id.0 as usize]
    }

    /// The method with the id.
    pub fn user_method(&self, id: FuncId) -> (r: &MethodInfo<'a>)
        requires
            self@.user_method_offset <= id.0 < self@.user_method_offset
                + self@.user_methods.len(),
        ensures
            r.deep_view() == self@.user_methods[id.0 - self@.user_method_offset],
    {
        &self.user_methods[(id.0 - self.user_method_offset) as usize]
    }

    /// The struct with the id.
    pub fn struct_info(&self, id: StructId) -> (r: &StructInfo<'a>)
        requires
            id.0 < self@.structs.len(),
        ensures
            r.deep_view() == self@.structs[id.0 as int],
    {
        &self.structs[id.0 as usize]
    }

    /// The enum with the id.
    pub fn enum_info(&self, id: EnumId) -> (r: &EnumInfo)
        requires
            id.0 < self@.enums.len(),
        ensures
            r.deep_view() == self@.enums[id.0 as int],
    {
        &self.enums[id.0 as usize]
    }

    /// The trait with the id.
    pub fn trait_info(&self, id: TraitId) -> (r: &TraitInfo)
        requires
            id.0 < self@.traits.len(),
        ensures
            r.deep_view() == self@.traits[id.0 as int],
    {
        &self.traits[id.0 as usize]
    }

    /// The free function with the name.
    pub fn function_info_by_name(&self, name: &str) -> (r: Option<&FunctionInfo<'a>>)
        requires
            self@.wf(),
        ensures
            r.deep_view() == self@.function_named(name@),
    {
        proof {
            lemma_found_in_range(self@.function_by_name, self@.functions.len(), name@);
        }
        match self.function_id(name) {
            Some(id) => Some(self.function(id)),
            None => None,
        }
    }

    /// The struct with the name.
    pub fn struct_info_by_name(&self, name: &str) -> (r: Option<&StructInfo<'a>>)
        requires
            self@.wf(),
        ensures
            r.deep_view() == self@.struct_named(name@),
    {
        proof {
            lemma_found_in_range(self@.struct_by_name, self@.structs.len(), name@);
        }
        match self.struct_id(name) {
            Some(id) => Some(self.struct_info(id)),
            None => None,
        }
    }

    /// The enum with the name.
    pub fn enum_info_by_name(&self, name: &str) -> (r: Option<&EnumInfo>)
        requires
            self@.wf(),
        ensures
            r.deep_view() == self@.enum_named(name@),
    {
        proof {
            lemma_found_in_range(self@.enum_by_name, self@.enums.len(), name@);
        }
        match self.enum_id(name) {
            Some(id) => Some(self.enum_info(id)),
            None => None,
        }
    }

    /// The trait with the name.
    pub fn trait_info_by_name(&self, name: &str) -> (r: Option<&TraitInfo>)
        requires
            self@.wf(),
        ensures
            r.deep_view() == self@.trait_named(name@),
    {
        proof {
            lemma_found_in_range(self@.trait_by_name, self@.traits.len(), name@);
        }
        match self.trait_id(name) {
            Some(id) => Some(self.trait_info(id)),
            None => None,
        }
    }

    /// A method of a type: one of the program, or else a built-in one.
    pub fn method_info_by_name(&self, type_key: &str, method: &str) -> (r: Option<&MethodInfo<'a>>)
        requires
            self@.wf(),
        ensures
            r.deep_view() == self@.method_named(type_key@, method@),
    {
        proof {
            lemma_method_in_range(self@, type_key@, method@);
        }
        if let Some(id) = self.method_func_id(type_key, method) {
            return Some(self.user_method(id));
        }
        match self.builtin_methods.get(&type_key.to_owned()) {
            Some(t) => t.get(&method.to_owned()),
            None => None,
        }
    }

    /// The traits with their names, by id.
    pub fn traits_with_names(&self) -> (r: Vec<(&str, &TraitInfo)>)
        requires
            self@.wf(),
        ensures
            r.deep_view() == named_traits_n(self@, self@.traits.len() as int),
    {
        let names = invert_name_map(&self.trait_by_name, self.traits.len());
        let mut out: Vec<(&str, &TraitInfo)> = Vec::new();
        assert(out.deep_view() =~= Seq::<(Chars, TraitInfoV)>::empty());
        let mut i: usize = 0;
        while i < self.traits.len()
            invariant
                i <= self.traits.len(),
                names@.len() == self.traits@.len(),
                names.deep_view() == inverted(self@.trait_by_name, self@.traits.len()),
                out.deep_view() == named_traits_n(self@, i as int),
            decreases self.traits.len() - i,
        {
            assert(names.deep_view()[i as int] == names[i as int].deep_view());
            assert(self@.traits[i as int] == self.traits[i as int].deep_view());
            if let Some(name) = names[i] {
                push_view(&mut out, (name, &self.traits[i]));
            }
            i += 1;
        }
        out
    }

    /// The functions with their names and ids, by id.
    pub fn functions_with_names(&self) -> (r: Vec<(&str, FuncId, &FunctionInfo<'a>)>)
        requires
            self@.wf(),
        ensures
            r.deep_view() == named_functions_n(self@, self@.functions.len() as int),
    {
        let names = invert_name_map(&self.function_by_name, self.functions.len());
        let mut out: Vec<(&str, FuncId, &FunctionInfo<'a>)> = Vec::new();
        assert(out.deep_view() =~= Seq::<(Chars, FuncId, FunctionInfoV)>::empty());
        let mut i: usize = 0;
        while i < self.functions.len()
            invariant
                i <= self.functions.len(),
                names@.len() == self.functions@.len(),
                names.deep_view() == inverted(self@.function_by_name, self@.functions.len()),
                out.deep_view() == named_functions_n(self@, i as int),
            decreases self.functions.len() - i,
        {
            assert(names.deep_view()[i as int] == names[i as int].deep_view());
            assert(self@.functions[i as int] == self.functions[i as int].deep_view());
            if let Some(name) = names[i] {
                push_view(&mut out, (name, FuncId(i as u32), &self.functions[i]));
            }
            i += 1;
        }
        out
    }

    /// The structs with their names and ids, by id.
    pub fn structs_with_names(&self) -> (r: Vec<(&str, StructId, &StructInfo<'a>)>)
        requires
            self@.wf(),
        ensures
            r.deep_view() == named_structs_n(self@, self@.structs.len() as int),
    {
        let names = invert_name_map(&self.struct_by_name, self.structs.len());
        let mut out: Vec<(&str, StructId, &StructInfo<'a>)> = Vec::new();
        assert(out.deep_view() =~= Seq::<(Chars, StructId, StructInfoV)>::empty());
        let mut i: usize = 0;
        while i < self.structs.len()
            invariant
                i <= self.structs.len(),
                names@.len() == self.structs@.len(),
                names.deep_view() == inverted(self@.struct_by_name, self@.structs.len()),
                out.deep_view() == named_structs_n(self@, i as int),
            decreases self.structs.len() - i,
        {
            assert(names.deep_view()[i as int] == names[i as int].deep_view());
            assert(self@.structs[i as int] == self.structs[i as int].deep_view());
            if let Some(name) = names[i] {
                push_view(&mut out, (name, StructId(i as u32), &self.structs[i]));
            }
            i += 1;
        }
        out
    }

    /// The enums with their names and ids, by id: the built-in ones come first.
    pub fn enums_with_names(&self) -> (r: Vec<(&str, EnumId, &EnumInfo)>)
        requires
            self@.wf(),
        ensures
            r.deep_view() == named_enums_n(self@, self@.enums.len() as int),
    {
        let names = invert_name_map(&self.enum_by_name, self.enums.len());
        let mut out: Vec<(&str, EnumId, &EnumInfo)> = Vec::new();
        assert(out.deep_view() =~= Seq::<(Chars, EnumId, EnumInfoV)>::empty());
        let mut i: usize = 0;
        while i < self.enums.len()
            invariant
                i <= self.enums.len(),
                names@.len() == self.enums@.len(),
                names.deep_view() == inverted(self@.enum_by_name, self@.enums.len()),
                out.deep_view() == named_enums_n(self@, i as int),
            decreases self.enums.len() - i,
        {
            assert(names.deep_view()[i as int] == names[i as int].deep_view());
            assert(self@.enums[i as int] == self.enums[i as int].deep_view());
            if let Some(name) = names[i] {
                push_view(&mut out, (name, EnumId(i as u32), &self.enums[i]));
            }
            i += 1;
        }
        out
    }

    fn invert_user_method_names(&self) -> (r: Vec<Option<(&str, &str)>>)
        requires
            self@.wf(),
        ensures
            r.deep_view() == methods_inverted_n(self@, self@.method_index.len() as int),
            r@.len() == self.user_methods@.len(),
    {
        let len: usize = self.user_methods.len();
        let mut out: Vec<Option<(&str, &str)>> = Vec::new();
        let mut k: usize = 0;
        while k < len
            invariant
                k <= len,
                out@.len() == k,
                forall|i: int| 0 <= i < k ==> (#[trigger] out@[i]) is None,
            decreases len - k,
        {
            out.push(None);
            k += 1;
        }
        assert(out.deep_view() =~= methods_inverted_n(self@, 0));
        let mut i: usize = 0;
        while i < self.method_index.entries.len()
            invariant
                i <= self.method_index.entries.len(),
                self@.wf(),
                out@.len() == self.user_methods@.len(),
                out.deep_view() == methods_inverted_n(self@, i as int),
            decreases self.method_index.entries.len() - i,
        {
            let entry = &self.method_index.entries[i];
            assert(self@.method_index[i as int] == entry.deep_view());
            let ghost before = out.deep_view();
            let mut j: usize = 0;
            while j < entry.1.entries.len()
                invariant
                    j <= entry.1.entries.len(),
                    i < self.method_index.entries.len(),
                    self@.wf(),
                    self@.method_index[i as int] == entry.deep_view(),
                    out@.len() == self.user_methods@.len(),
                    out.deep_view() == methods_inverted_type_n(
                        before,
                        self@.user_method_offset,
                        entry.0@,
                        entry.1@,
                        j as int,
                    ),
                decreases entry.1.entries.len() - j,
            {
                assert(self@.method_index[i as int].1[j as int]
                    == entry.1.entries[j as int].deep_view());
                let at: usize = (entry.1.entries[j].1.0 - self.user_method_offset) as usize;
                set_view(&mut out, at, Some((entry.0.as_str(), entry.1.entries[j].0.as_str())));
                j += 1;
            }
            i += 1;
        }
        out
    }

    /// The methods of the program with their types, names and ids, by id.
    pub fn user_methods_with_names(&self) -> (r: Vec<
        ((&str, &str), FuncId, &MethodInfo<'a>),
    >)
        requires
            self@.wf(),
        ensures
            r.deep_view() == named_methods_n(self@, self@.user_methods.len() as int),
    {
        let names = self.invert_user_method_names();
        let mut out: Vec<((&str, &str), FuncId, &MethodInfo<'a>)> = Vec::new();
        assert(out.deep_view() =~= Seq::<((Chars, Chars), FuncId, MethodInfoV)>::empty());
        let mut i: usize = 0;
        while i < self.user_methods.len()
            invariant
                i <= self.user_methods.len(),
                names@.len() == self.user_methods@.len(),
                names.deep_view() == methods_inverted_n(
                    self@,
                    self@.method_index.len() as int,
                ),
                out.deep_view() == named_methods_n(self@, i as int),
            decreases self.user_methods.len() - i,
        {
            assert(names.deep_view()[i as int] == names[i as int].deep_view());
            assert(self@.user_methods[i as int] == self.user_methods[i as int].deep_view());
            if let Some(pair) = names[i] {
                let id = FuncId((self.user_method_offset as u128 + i as u128) as u32);
                push_view(&mut out, (pair, id, &self.user_methods[i]));
            }
            i += 1;
        }
        out
    }
}

// ── Building ─────────────────────────────────────────────────────────

fn find_function_with_id<'t, 'a>(fs: &'t Table<String, FunctionInfo<'a>>, id: FuncId) -> (r: Option<
    &'t FunctionInfo<'a>,
>)
    ensures
        r.deep_view() == function_from(fs@, id, 0),
{
    let mut i: usize = 0;
    while i < fs.entries.len()
        invariant
            i <= fs.entries.len(),
            function_from(fs@, id, 0) == function_from(fs@, id, i as int),
        decreases fs.entries.len() - i,
    {
        assert(fs@[i as int] == fs.entries[i as int].deep_view());
        if fs.entries[i].1.func_id == id {
            return Some(&fs.entries[i].1);
        }
        i += 1;
    }
    None
}

fn build_functions<'a>(env: &Env<'a>) -> (r: Vec<FunctionInfo<'a>>)
    ensures
        r.deep_view() == functions_n(env@, env@.pending_function_ids.len() as int),
{
    let mut out: Vec<FunctionInfo<'a>> = Vec::new();
    assert(out.deep_view() =~= Seq::<FunctionInfoV>::empty());
    let n: usize = env.pending_function_ids.len();
    let mut i: usize = 0;
    while i < n
        invariant
            i <= n,
            out.deep_view() == functions_n(env@, i as int),
        decreases n - i,
    {
        if let Some(info) = find_function_with_id(&env.functions, FuncId(i as u32)) {
            push_view(&mut out, info.dup());
        }
        i += 1;
    }
    out
}

fn build_function_names(env: &Env<'_>) -> (r: Table<String, FuncId>)
    ensures
        r@ == function_ids_by_name_n(env@.functions, env@.functions.len() as int),
{
    let mut out: Vec<(String, FuncId)> = Vec::new();
    assert(out.deep_view() =~= Seq::<(Chars, FuncId)>::empty());
    let mut i: usize = 0;
    while i < env.functions.entries.len()
        invariant
            i <= env.functions.entries.len(),
            out.deep_view() == function_ids_by_name_n(env@.functions, i as int),
        decreases env.functions.entries.len() - i,
    {
        assert(env@.functions[i as int] == env.functions.entries[i as int].deep_view());
        push_view(
            &mut out,
            (env.functions.entries[i].0.clone(), env.functions.entries[i].1.func_id),
        );
        i += 1;
    }
    Table { entries: out }
}

fn find_method_with_id<'t, 'a>(t: &'t Table<String, MethodInfo<'a>>, id: FuncId) -> (r: Option<
    &'t MethodInfo<'a>,
>)
    ensures
        r.deep_view() == method_with_id_from(t@, id, 0),
{
    let mut i: usize = 0;
    while i < t.entries.len()
        invariant
            i <= t.entries.len(),
            method_with_id_from(t@, id, 0) == method_with_id_from(t@, id, i as int),
        decreases t.entries.len() - i,
    {
        assert(t@[i as int] == t.entries[i as int].deep_view());
        if let Some(other) = t.entries[i].1.func_id {
            if other == id {
                return Some(&t.entries[i].1);
            }
        }
        i += 1;
    }
    None
}

fn find_method_among<'t, 'a, K: Key>(ts: &'t Table<K, Table<String, MethodInfo<'a>>>, id: FuncId) -> (r:
    Option<&'t MethodInfo<'a>>)
    ensures
        r.deep_view() == method_among_from(ts@, id, 0),
{
    let mut i: usize = 0;
    while i < ts.entries.len()
        invariant
            i <= ts.entries.len(),
            method_among_from(ts@, id, 0) == method_among_from(ts@, id, i as int),
        decreases ts.entries.len() - i,
    {
        assert(ts@[i as int] == ts.entries[i as int].deep_view());
        let found = find_method_with_id(&ts.entries[i].1, id);
        if found.is_some() {
            return found;
        }
        i += 1;
    }
    None
}

fn build_user_methods<'a>(env: &Env<'a>) -> (r: Vec<MethodInfo<'a>>)
    ensures
        r.deep_view() == user_methods_n(env@, env@.pending_user_method_ids.len() as int),
{
    let mut out: Vec<MethodInfo<'a>> = Vec::new();
    assert(out.deep_view() =~= Seq::<MethodInfoV>::empty());
    let n: usize = env.pending_user_method_ids.len();
    let mut i: usize = 0;
    while i < n
        invariant
            i <= n,
            out.deep_view() == user_methods_n(env@, i as int),
        decreases n - i,
    {
        let id = FuncId((env.user_method_offset as u128 + i as u128) as u32);
        assert(id == method_id_at(env@, i as int));
        let found = match find_method_among(&env.methods, id) {
            Some(m) => Some(m),
            None => find_method_among(&env.orphan_methods, id),
        };
        if let Some(m) = found {
            push_view(&mut out, m.dup());
        }
        i += 1;
    }
    out
}

fn index_type(
    index: &mut Table<String, Table<String, FuncId>>,
    key: &String,
    t: &Table<String, MethodInfo<'_>>,
)
    ensures
        final(index)@ == type_indexed_n(old(index)@, key@, t@, t@.len() as int),
{
    let mut i: usize = 0;
    while i < t.entries.len()
        invariant
            i <= t.entries.len(),
            index@ == type_indexed_n(old(index)@, key@, t@, i as int),
        decreases t.entries.len() - i,
    {
        assert(t@[i as int] == t.entries[i as int].deep_view());
        if let Some(id) = t.entries[i].1.func_id {
            index.put_inner(key.clone(), t.entries[i].0.clone(), id);
        }
        i += 1;
    }
}

fn build_method_index(env: &Env<'_>) -> (r: Table<String, Table<String, FuncId>>)
    ensures
        r@ == indexed_n(env@.methods, env@.methods.len() as int),
{
    let mut index: Table<String, Table<String, FuncId>> = Table::new();
    let mut i: usize = 0;
    while i < env.methods.entries.len()
        invariant
            i <= env.methods.entries.len(),
            index@ == indexed_n(env@.methods, i as int),
        decreases env.methods.entries.len() - i,
    {
        assert(env@.methods[i as int] == env.methods.entries[i as int].deep_view());
        index_type(&mut index, &env.methods.entries[i].0, &env.methods.entries[i].1);
        i += 1;
    }
    index
}

fn collect_type_builtins<'a>(
    ts: &mut Table<String, Table<String, MethodInfo<'a>>>,
    key: &String,
    t: &Table<String, MethodInfo<'a>>,
)
    ensures
        final(ts)@ == type_builtins_n(old(ts)@, key@, t@, t@.len() as int),
{
    let mut i: usize = 0;
    while i < t.entries.len()
        invariant
            i <= t.entries.len(),
            ts@ == type_builtins_n(old(ts)@, key@, t@, i as int),
        decreases t.entries.len() - i,
    {
        assert(t@[i as int] == t.entries[i as int].deep_view());
        if t.entries[i].1.func_id.is_none() {
            ts.put_inner(key.clone(), t.entries[i].0.clone(), t.entries[i].1.dup());
        }
        i += 1;
    }
}

fn build_builtin_methods<'a>(env: &Env<'a>) -> (r: Table<String, Table<String, MethodInfo<'a>>>)
    ensures
        r@ == builtins_n(env@.methods, env@.methods.len() as int),
{
    let mut ts: Table<String, Table<String, MethodInfo<'a>>> = Table::new();
    let mut i: usize = 0;
    while i < env.methods.entries.len()
        invariant
            i <= env.methods.entries.len(),
            ts@ == builtins_n(env@.methods, i as int),
        decreases env.methods.entries.len() - i,
    {
        assert(env@.methods[i as int] == env.methods.entries[i as int].deep_view());
        collect_type_builtins(&mut ts, &env.methods.entries[i].0, &env.methods.entries[i].1);
        i += 1;
    }
    ts
}

fn list<V: Dup>(out: &mut Table<String, V>, table: &Table<String, V>, name: &String)
    ensures
        final(out)@ == listed(old(out)@, table@, name@),
{
    if let Some(info) = table.get(name) {
        if !out.has(name) {
            push_view(&mut out.entries, (name.clone(), info.dup()));
        }
    }
}

fn list_structs<'a>(env: &Env<'a>, ds: &Vec<Declaration>) -> (r: Table<String, StructInfo<'a>>)
    ensures
        r@ == structs_listed_n(env@, ds@, ds@.len() as int),
{
    let mut out: Table<String, StructInfo<'a>> = Table::new();
    let mut i: usize = 0;
    while i < ds.len()
        invariant
            i <= ds.len(),
            out@ == structs_listed_n(env@, ds@, i as int),
        decreases ds.len() - i,
    {
        if let Declaration::Struct(s) = &ds[i] {
            list(&mut out, &env.structs, &s.name);
        }
        i += 1;
    }
    out
}

fn list_enums(env: &Env<'_>, ds: &Vec<Declaration>) -> (r: Table<String, EnumInfo>)
    ensures
        r@ == enums_listed_n(env@, ds@, ds@.len() as int),
{
    let mut out: Table<String, EnumInfo> = Table::new();
    list(&mut out, &env.enums, &"Option".to_owned());
    list(&mut out, &env.enums, &"Result".to_owned());
    let mut i: usize = 0;
    while i < ds.len()
        invariant
            i <= ds.len(),
            out@ == enums_listed_n(env@, ds@, i as int),
        decreases ds.len() - i,
    {
        if let Declaration::Enum(e) = &ds[i] {
            list(&mut out, &env.enums, &e.name);
        }
        i += 1;
    }
    out
}

fn list_traits(env: &Env<'_>, ds: &Vec<Declaration>) -> (r: Table<String, TraitInfo>)
    ensures
        r@ == traits_listed_n(env@, ds@, ds@.len() as int),
{
    let mut out: Table<String, TraitInfo> = Table::new();
    let mut i: usize = 0;
    while i < ds.len()
        invariant
            i <= ds.len(),
            out@ == traits_listed_n(env@, ds@, i as int),
        decreases ds.len() - i,
    {
        if let Declaration::Trait(t) = &ds[i] {
            list(&mut out, &env.traits, &t.name);
        }
        i += 1;
    }
    out
}

fn values<V: Dup>(t: &Table<String, V>) -> (r: Vec<V>)
    ensures
        r.deep_view() == values_of(t@),
{
    let mut out: Vec<V> = Vec::new();
    let mut i: usize = 0;
    while i < t.entries.len()
        invariant
            i <= t.entries.len(),
            out.deep_view() =~= values_of(t@).take(i as int),
        decreases t.entries.len() - i,
    {
        assert(t@[i as int] == t.entries[i as int].deep_view());
        push_view(&mut out, t.entries[i].1.dup());
        i += 1;
    }
    assert(out.deep_view() =~= values_of(t@));
    out
}

fn struct_ids(t: &Table<String, StructInfo<'_>>) -> (r: Table<String, StructId>)
    ensures
        r@ == Seq::new(t@.len(), |i: int| (t@[i].0, StructId(i as u32))),
{
    let ghost all = Seq::new(t@.len(), |i: int| (t@[i].0, StructId(i as u32)));
    let mut out: Vec<(String, StructId)> = Vec::new();
    let mut i: usize = 0;
    while i < t.entries.len()
        invariant
            i <= t.entries.len(),
            all == Seq::new(t@.len(), |i: int| (t@[i].0, StructId(i as u32))),
            out.deep_view() =~= all.take(i as int),
        decreases t.entries.len() - i,
    {
        assert(t@[i as int] == t.entries[i as int].deep_view());
        push_view(&mut out, (t.entries[i].0.clone(), StructId(i as u32)));
        i += 1;
    }
    assert(out.deep_view() =~= all);
    Table { entries: out }
}

fn enum_ids(t: &Table<String, EnumInfo>) -> (r: Table<String, EnumId>)
    ensures
        r@ == Seq::new(t@.len(), |i: int| (t@[i].0, EnumId(i as u32))),
{
    let ghost all = Seq::new(t@.len(), |i: int| (t@[i].0, EnumId(i as u32)));
    let mut out: Vec<(String, EnumId)> = Vec::new();
    let mut i: usize = 0;
    while i < t.entries.len()
        invariant
            i <= t.entries.len(),
            all == Seq::new(t@.len(), |i: int| (t@[i].0, EnumId(i as u32))),
            out.deep_view() =~= all.take(i as int),
        decreases t.entries.len() - i,
    {
        assert(t@[i as int] == t.entries[i as int].deep_view());
        push_view(&mut out, (t.entries[i].0.clone(), EnumId(i as u32)));
        i += 1;
    }
    assert(out.deep_view() =~= all);
    Table { entries: out }
}

fn trait_ids(t: &Table<String, TraitInfo>) -> (r: Table<String, TraitId>)
    ensures
        r@ == Seq::new(t@.len(), |i: int| (t@[i].0, TraitId(i as u32))),
{
    let ghost all = Seq::new(t@.len(), |i: int| (t@[i].0, TraitId(i as u32)));
    let mut out: Vec<(String, TraitId)> = Vec::new();
    let mut i: usize = 0;
    while i < t.entries.len()
        invariant
            i <= t.entries.len(),
            all == Seq::new(t@.len(), |i: int| (t@[i].0, TraitId(i as u32))),
            out.deep_view() =~= all.take(i as int),
        decreases t.entries.len() - i,
    {
        assert(t@[i as int] == t.entries[i as int].deep_view());
        push_view(&mut out, (t.entries[i].0.clone(), TraitId(i as u32)));
        i += 1;
    }
    assert(out.deep_view() =~= all);
    Table { entries: out }
}

/// Turns a checker that is done into its product; `program` is the entry
/// module.
pub fn build_from_checker<'a>(program: &'a Program, checker: Checker<'a>) -> (r: Analysis<'a>)
    requires
        type_ids_fit(program.declarations@),
    ensures
        r@ == analysis_built(checker@, program.declarations@),
        env_coherent(checker@.env) ==> r@.module.coherent() && r@.module.wf(),
{
    proof {
        let ds = program.declarations@;
        if env_coherent(checker@.env) {
            law_product_is_coherent(checker@, ds);
            law_coherent_is_wf(module_built(checker@, ds));
        }
    }
    let env = &checker.env;
    let ds = &program.declarations;
    let structs = list_structs(env, ds);
    let enums = list_enums(env, ds);
    let traits = list_traits(env, ds);
    let functions = build_functions(env);
    let function_by_name = build_function_names(env);
    let user_methods = build_user_methods(env);
    let user_method_offset: u32 = env.user_method_offset;
    let method_index = build_method_index(env);
    let builtin_methods = build_builtin_methods(env);
    let recorded = checker.state.finish();
    let module = ResolvedModule {
        functions,
        function_by_name,
        user_methods,
        user_method_offset,
        method_index,
        builtin_methods,
        structs: values(&structs),
        struct_by_name: struct_ids(&structs),
        enums: values(&enums),
        enum_by_name: enum_ids(&enums),
        traits: values(&traits),
        trait_by_name: trait_ids(&traits),
        expr_types: recorded.expr_types,
        call_type_args: recorded.call_type_args,
        var_annotation_types: recorded.var_annotation_types,
        lambda_captures: recorded.lambda_captures,
        json_encode_types: recorded.json_encode_types,
        json_decode_types: recorded.json_decode_types,
        namespace_call_targets: recorded.namespace_call_targets,
    };
    assert(module@ =~= module_built(checker@, ds@));
    Analysis {
        module,
        diagnostics: recorded.diagnostics,
        endpoints: checker.endpoints,
        symbol_references: recorded.symbol_references,
        trait_impls: checker.env.trait_impls,
        type_aliases: checker.env.type_aliases,
    }
}

/// Checks a program that is a single file.
pub fn check<'a>(program: &'a Program) -> (r: Analysis<'a>)
    requires
        callables(program.declarations@) <= u32::MAX,
        type_ids_fit(program.declarations@),
    ensures
        r@ == analysis_built(
            file_checked(initial_checker(), program.declarations@),
            program.declarations@,
        ),
        r@.module.free_of_errors(file_params(program.declarations@)),
        r@.module.coherent(),
        r@.module.wf(),
{
    let mut checker = Checker::new();
    checker.check_program(program);
    proof {
        law_file_ends_clean(program.declarations@);
        lemma_file_coherent(program.declarations@);
    }
    build_from_checker(program, checker)
}

/// Checks a program of several modules, the first of which is the entry.
pub fn check_modules<'a>(modules: &'a Vec<ResolvedSourceModule>) -> (r: Analysis<'a>)
    requires
        modules@.len() > 0,
        module_callables(modules@) <= u32::MAX,
        distinct_paths(modules@),
        type_ids_fit(modules@[0].program.declarations@),
    ensures
        r@ == analysis_built(
            modules_checked(initial_checker(), modules@),
            modules@[0].program.declarations@,
        ),
        r@.module.free_of_errors(modules_params(modules@)),
        r@.module.coherent(),
        r@.module.wf(),
{
    let mut checker = Checker::new();
    checker.check_modules_inner(modules);
    proof {
        law_modules_end_clean(modules@);
        lemma_modules_coherent(modules@);
    }
    build_from_checker(&modules[0].program, checker)
}

} // verus!
