//! The symbol tables, and how names are looked up in them.
use crate::info::{
    EnumInfo, EnumInfoV, FunctionInfo, FunctionInfoV, MethodInfo, MethodInfoV, StructInfo,
    StructInfoV, TraitInfo, TraitInfoV, TypeAliasInfo, TypeAliasInfoV,
};
use crate::paths::{bare, bare_name, ModulePath};
use crate::span::{FuncId, Span};
use crate::table::{find, put, Table};
use crate::text::Chars;
use vstd::prelude::*;

verus! {

/// What a namespace name stands for.
#[derive(Debug)]
pub enum NamespaceTarget {
    /// A module of the program.
    UserModule(ModulePath),
    /// The JSON functions of the language.
    Json,
}

/// What a [`NamespaceTarget`] is.
pub enum NamespaceTargetV {
    UserModule(Seq<Chars>),
    Json,
}

impl DeepView for NamespaceTarget {
    type V = NamespaceTargetV;

    open spec fn deep_view(&self) -> NamespaceTargetV {
        match self {
            NamespaceTarget::UserModule(p) => NamespaceTargetV::UserModule(p@),
            NamespaceTarget::Json => NamespaceTargetV::Json,
        }
    }
}

/// The names visible inside a module, mapped to table keys.
#[derive(Debug)]
pub struct ModuleScope {
    /// Local name to table key.
    pub visible_symbols: Table<String, String>,
    /// Names that stand for whole modules.
    pub namespaces: Table<String, NamespaceTarget>,
}

/// What a [`ModuleScope`] holds.
#[verifier::ext_equal]
pub struct ModuleScopeV {
    pub visible_symbols: Seq<(Chars, Chars)>,
    pub namespaces: Seq<(Chars, NamespaceTargetV)>,
}

impl View for ModuleScope {
    type V = ModuleScopeV;

    open spec fn view(&self) -> ModuleScopeV {
        ModuleScopeV { visible_symbols: self.visible_symbols@, namespaces: self.namespaces@ }
    }
}

impl DeepView for ModuleScope {
    type V = ModuleScopeV;

    open spec fn deep_view(&self) -> ModuleScopeV {
        ModuleScopeV { visible_symbols: self.visible_symbols@, namespaces: self.namespaces@ }
    }
}

impl ModuleScope {
    /// Whether a name of the module stands for `key`.
    pub fn has_name_for(&self, key: &String) -> (r: bool)
        ensures
            r == named_in(self@.visible_symbols, key@),
    {
        let symbols = &self.visible_symbols;
        let mut i: usize = 0;
        while i < symbols.entries.len()
            invariant
                i <= symbols.entries.len(),
                symbols@ == self@.visible_symbols,
                forall|j: int| 0 <= j < i ==> (#[trigger] symbols@[j]).1 != key@,
            decreases symbols.entries.len() - i,
        {
            assert(symbols@[i as int] == symbols.entries[i as int].deep_view());
            if symbols.entries[i].1 == *key {
                return true;
            }
            i += 1;
        }
        false
    }

    pub fn new() -> (r: Self)
        ensures
            r@ == (ModuleScopeV { visible_symbols: Seq::empty(), namespaces: Seq::empty() }),
    {
        ModuleScope { visible_symbols: Table::new(), namespaces: Table::new() }
    }

    /// Makes `local_name` stand for `qualified_key`, whatever it stood for
    /// before.
    pub fn insert(&mut self, local_name: String, qualified_key: String)
        ensures
            final(self)@ == (ModuleScopeV {
                visible_symbols: put(old(self)@.visible_symbols, local_name@, qualified_key@),
                ..old(self)@
            }),
    {
        self.visible_symbols.put(local_name, qualified_key);
    }
}

/// The symbol tables.
#[derive(Debug)]
pub struct Env<'a> {
    /// Functions by table key.
    pub functions: Table<String, FunctionInfo<'a>>,
    /// Functions that the host provides.
    pub host_functions: Table<String, FunctionInfo<'a>>,
    /// Structs by table key.
    pub structs: Table<String, StructInfo<'a>>,
    /// Enums by table key.
    pub enums: Table<String, EnumInfo>,
    /// Methods by the table key of their type, then by name.
    pub methods: Table<String, Table<String, MethodInfo<'a>>>,
    /// Methods of rejected declarations, by the table key of the type they
    /// were written for and the position of the rejected declaration. No
    /// lookup reaches them; they only hold on to their ids.
    pub orphan_methods: Table<(String, Span), Table<String, MethodInfo<'a>>>,
    /// The ids of all methods in `methods` and `orphan_methods`.
    pub filled_method_func_ids: Vec<FuncId>,
    /// Traits by table key.
    pub traits: Table<String, TraitInfo>,
    /// Which type implements which trait, by table keys.
    pub trait_impls: Vec<(String, String)>,
    /// Type aliases by table key.
    pub type_aliases: Table<String, TypeAliasInfo>,
    /// The ids of free functions, by table key.
    pub pending_function_ids: Table<String, FuncId>,
    /// The ids of user methods, by the table key of the type and the name.
    pub pending_user_method_ids: Table<(String, String), FuncId>,
    /// The next id to give out.
    pub next_func_id: u32,
    /// The first id of a user method.
    pub user_method_offset: u32,
    /// What each module can name.
    pub module_scopes: Table<ModulePath, ModuleScope>,
    /// The names of all builtins.
    pub builtin_local_names: Vec<String>,
    /// The module at work.
    pub current_module: ModulePath,
}

/// What an [`Env`] holds.
#[verifier::ext_equal]
pub struct EnvV {
    pub functions: Seq<(Chars, FunctionInfoV)>,
    pub host_functions: Seq<(Chars, FunctionInfoV)>,
    pub structs: Seq<(Chars, StructInfoV)>,
    pub enums: Seq<(Chars, EnumInfoV)>,
    pub methods: Seq<(Chars, Seq<(Chars, MethodInfoV)>)>,
    pub orphan_methods: Seq<((Chars, Span), Seq<(Chars, MethodInfoV)>)>,
    pub filled_method_func_ids: Seq<FuncId>,
    pub traits: Seq<(Chars, TraitInfoV)>,
    pub trait_impls: Seq<(Chars, Chars)>,
    pub type_aliases: Seq<(Chars, TypeAliasInfoV)>,
    pub pending_function_ids: Seq<(Chars, FuncId)>,
    pub pending_user_method_ids: Seq<((Chars, Chars), FuncId)>,
    pub next_func_id: u32,
    pub user_method_offset: u32,
    pub module_scopes: Seq<(Seq<Chars>, ModuleScopeV)>,
    pub builtin_local_names: Seq<Chars>,
    pub current_module: Seq<Chars>,
}

impl<'a> View for Env<'a> {
    type V = EnvV;

    open spec fn view(&self) -> EnvV {
        EnvV {
            functions: self.functions@,
            host_functions: self.host_functions@,
            structs: self.structs@,
            enums: self.enums@,
            methods: self.methods@,
            orphan_methods: self.orphan_methods@,
            filled_method_func_ids: self.filled_method_func_ids.deep_view(),
            traits: self.traits@,
            trait_impls: self.trait_impls.deep_view(),
            type_aliases: self.type_aliases@,
            pending_function_ids: self.pending_function_ids@,
            pending_user_method_ids: self.pending_user_method_ids@,
            next_func_id: self.next_func_id,
            user_method_offset: self.user_method_offset,
            module_scopes: self.module_scopes@,
            builtin_local_names: self.builtin_local_names.deep_view(),
            current_module: self.current_module@,
        }
    }
}

/// Empty tables.
pub open spec fn empty_env() -> EnvV {
    EnvV {
        functions: Seq::empty(),
        host_functions: Seq::empty(),
        structs: Seq::empty(),
        enums: Seq::empty(),
        methods: Seq::empty(),
        orphan_methods: Seq::empty(),
        filled_method_func_ids: Seq::empty(),
        traits: Seq::empty(),
        trait_impls: Seq::empty(),
        type_aliases: Seq::empty(),
        pending_function_ids: Seq::empty(),
        pending_user_method_ids: Seq::empty(),
        next_func_id: 0,
        user_method_offset: 0,
        module_scopes: Seq::empty(),
        builtin_local_names: Seq::empty(),
        current_module: Seq::empty(),
    }
}

// ── Names ────────────────────────────────────────────────────────────

/// The table key that `name` stands for in the current module.
pub open spec fn visible(env: EnvV, name: Chars) -> Option<Chars> {
    match find(env.module_scopes, env.current_module) {
        Some(scope) => find(scope.visible_symbols, name),
        None => None,
    }
}

/// The entry of `table` that `name`, as written in the source, stands for.
pub open spec fn in_scope<V>(env: EnvV, table: Seq<(Chars, V)>, name: Chars) -> Option<V> {
    match visible(env, name) {
        Some(key) => find(table, key),
        None => None,
    }
}

/// The table key of a name that a type holds: a name of the current module, or
/// a key with a module path.
pub open spec fn table_key(env: EnvV, name: Chars) -> Option<Chars> {
    match visible(env, name) {
        Some(key) => Some(key),
        None => if bare(name) != name {
            Some(name)
        } else {
            None
        },
    }
}

/// Whether one of the names in `symbols` stands for `key`.
pub open spec fn named_in(symbols: Seq<(Chars, Chars)>, key: Chars) -> bool {
    exists|i: int| 0 <= i < symbols.len() && (#[trigger] symbols[i]).1 == key
}

/// Whether the current module has a name for `key`.
pub open spec fn reached(env: EnvV, key: Chars) -> bool {
    match find(env.module_scopes, env.current_module) {
        Some(scope) => named_in(scope.visible_symbols, key),
        None => false,
    }
}

/// The table key of a name that a type holds, where the current module can name
/// what stands there: a name of the module, or a key that it has a name for.
pub open spec fn reached_key(env: EnvV, name: Chars) -> Option<Chars> {
    match visible(env, name) {
        Some(key) => Some(key),
        None => if reached(env, name) {
            Some(name)
        } else {
            None
        },
    }
}

/// The methods of the type that `name`, as a type holds it, stands for. A type
/// that the current module cannot name has none there.
pub open spec fn methods_of(env: EnvV, name: Chars) -> Option<Seq<(Chars, MethodInfoV)>> {
    match reached_key(env, name) {
        Some(key) => find(env.methods, key),
        None => None,
    }
}

/// The table key that `name` stands for, or the name itself.
pub open spec fn canonical(env: EnvV, name: Chars) -> Chars {
    match visible(env, name) {
        Some(key) => key,
        None => name,
    }
}

/// The entry of `table` that `name`, as a type holds it, stands for.
pub open spec fn named<V>(env: EnvV, table: Seq<(Chars, V)>, name: Chars) -> Option<V> {
    match table_key(env, name) {
        Some(key) => find(table, key),
        None => None,
    }
}

/// What the namespace `name` stands for in the current module.
pub open spec fn namespace(env: EnvV, name: Chars) -> Option<NamespaceTargetV> {
    match find(env.module_scopes, env.current_module) {
        Some(scope) => find(scope.namespaces, name),
        None => None,
    }
}

/// Whether `ty` implements `tr`, both being names that types hold. Nothing is
/// implemented by a type, or of a trait, that the current module cannot name.
pub open spec fn implements(env: EnvV, ty: Chars, tr: Chars) -> bool {
    match (reached_key(env, ty), reached_key(env, tr)) {
        (Some(t), Some(q)) => env.trait_impls.contains((t, q)),
        _ => false,
    }
}

/// Whether `ty`, a name that a type holds, implements the trait written as `tr`
/// in a bound.
pub open spec fn satisfies(env: EnvV, ty: Chars, tr: Chars) -> bool {
    match (reached_key(env, ty), visible(env, tr)) {
        (Some(t), Some(q)) => env.trait_impls.contains((t, q)),
        _ => false,
    }
}

impl<'a> Env<'a> {
    pub fn new() -> (r: Self)
        ensures
            r@ == empty_env(),
    {
        let r = Env {
            functions: Table::new(),
            host_functions: Table::new(),
            structs: Table::new(),
            enums: Table::new(),
            methods: Table::new(),
            orphan_methods: Table::new(),
            filled_method_func_ids: Vec::new(),
            traits: Table::new(),
            trait_impls: Vec::new(),
            type_aliases: Table::new(),
            pending_function_ids: Table::new(),
            pending_user_method_ids: Table::new(),
            next_func_id: 0,
            user_method_offset: 0,
            module_scopes: Table::new(),
            builtin_local_names: Vec::new(),
            current_module: ModulePath::entry(),
        };
        assert(r@ =~= empty_env());
        r
    }

    /// The table key that `name` stands for in the current module.
    pub fn resolve_visible(&self, name: &String) -> (r: Option<&String>)
        ensures
            r.deep_view() == visible(self@, name@),
    {
        match self.module_scopes.get(&self.current_module) {
            Some(scope) => scope.visible_symbols.get(name),
            None => None,
        }
    }

    /// The entry of `table` that `name`, as written in the source, stands for.
    pub fn lookup<'t, V: DeepView>(&self, table: &'t Table<String, V>, name: &String) -> (r: Option<
        &'t V,
    >)
        ensures
            r.deep_view() == in_scope(self@, table@, name@),
    {
        match self.resolve_visible(name) {
            Some(key) => table.get(key),
            None => None,
        }
    }

    /// The entry of `table` that `name`, as a type holds it, stands for.
    pub fn entry_of<'t, V: DeepView>(&self, table: &'t Table<String, V>, name: &String) -> (r:
        Option<&'t V>)
        ensures
            r.deep_view() == named(self@, table@, name@),
    {
        match self.resolve_visible(name) {
            Some(key) => table.get(key),
            None => if bare_name(name) != *name {
                table.get(name)
            } else {
                None
            },
        }
    }

    pub fn lookup_function(&self, name: &String) -> (r: Option<&FunctionInfo<'a>>)
        ensures
            r.deep_view() == in_scope(self@, self@.functions, name@),
    {
        self.lookup(&self.functions, name)
    }

    pub fn lookup_host_function(&self, name: &String) -> (r: Option<&FunctionInfo<'a>>)
        ensures
            r.deep_view() == in_scope(self@, self@.host_functions, name@),
    {
        self.lookup(&self.host_functions, name)
    }

    pub fn lookup_struct(&self, name: &String) -> (r: Option<&StructInfo<'a>>)
        ensures
            r.deep_view() == in_scope(self@, self@.structs, name@),
    {
        self.lookup(&self.structs, name)
    }

    pub fn lookup_enum(&self, name: &String) -> (r: Option<&EnumInfo>)
        ensures
            r.deep_view() == in_scope(self@, self@.enums, name@),
    {
        self.lookup(&self.enums, name)
    }

    pub fn lookup_trait(&self, name: &String) -> (r: Option<&TraitInfo>)
        ensures
            r.deep_view() == in_scope(self@, self@.traits, name@),
    {
        self.lookup(&self.traits, name)
    }

    pub fn lookup_type_alias(&self, name: &String) -> (r: Option<&TypeAliasInfo>)
        ensures
            r.deep_view() == in_scope(self@, self@.type_aliases, name@),
    {
        self.lookup(&self.type_aliases, name)
    }

    /// The struct that a type names.
    pub fn struct_of(&self, name: &String) -> (r: Option<&StructInfo<'a>>)
        ensures
            r.deep_view() == named(self@, self@.structs, name@),
    {
        self.entry_of(&self.structs, name)
    }

    /// The enum that a type names.
    pub fn enum_of(&self, name: &String) -> (r: Option<&EnumInfo>)
        ensures
            r.deep_view() == named(self@, self@.enums, name@),
    {
        self.entry_of(&self.enums, name)
    }

    /// The trait that a type names.
    pub fn trait_of(&self, name: &String) -> (r: Option<&TraitInfo>)
        ensures
            r.deep_view() == named(self@, self@.traits, name@),
    {
        self.entry_of(&self.traits, name)
    }

    /// The alias that a type names.
    pub fn alias_of(&self, name: &String) -> (r: Option<&TypeAliasInfo>)
        ensures
            r.deep_view() == named(self@, self@.type_aliases, name@),
    {
        self.entry_of(&self.type_aliases, name)
    }

    /// The methods of the type that a type names, if the current module can
    /// name it too.
    pub fn lookup_methods(&self, name: &String) -> (r: Option<&Table<String, MethodInfo<'a>>>)
        ensures
            r.deep_view() == methods_of(self@, name@),
    {
        match self.reached_key_of(name) {
            Some(key) => self.methods.get(&key),
            None => None,
        }
    }

    /// What the namespace `name` stands for in the current module.
    pub fn namespace_target(&self, name: &String) -> (r: Option<&NamespaceTarget>)
        ensures
            r.deep_view() == namespace(self@, name@),
    {
        match self.module_scopes.get(&self.current_module) {
            Some(scope) => scope.namespaces.get(name),
            None => None,
        }
    }

    /// The table key of the type that `name` stands for, or the name itself.
    pub fn qualify_in_current(&self, name: &String) -> (r: String)
        ensures
            r@ == canonical(self@, name@),
    {
        match self.resolve_visible(name) {
            Some(key) => key.clone(),
            None => name.clone(),
        }
    }

    /// Whether the current module has a name for `key`.
    fn reaches(&self, key: &String) -> (r: bool)
        ensures
            r == reached(self@, key@),
    {
        match self.module_scopes.get(&self.current_module) {
            Some(scope) => scope.has_name_for(key),
            None => false,
        }
    }

    /// The table key of a name that a type holds, if the current module can name
    /// what stands there.
    fn reached_key_of(&self, name: &String) -> (r: Option<String>)
        ensures
            r.deep_view() == reached_key(self@, name@),
    {
        match self.resolve_visible(name) {
            Some(key) => Some(key.clone()),
            None => if self.reaches(name) {
                Some(name.clone())
            } else {
                None
            },
        }
    }

    /// Whether the type named `ty` implements the trait named `tr`.
    pub fn has_trait_impl(&self, ty: &String, tr: &String) -> (r: bool)
        ensures
            r == implements(self@, ty@, tr@),
    {
        match (self.reached_key_of(ty), self.reached_key_of(tr)) {
            (Some(t), Some(q)) => self.impl_recorded(&t, &q),
            _ => false,
        }
    }

    /// Whether the type named `ty` implements the trait written as `tr`.
    pub fn has_bound_impl(&self, ty: &String, tr: &String) -> (r: bool)
        ensures
            r == satisfies(self@, ty@, tr@),
    {
        match (self.reached_key_of(ty), self.resolve_visible(tr)) {
            (Some(t), Some(q)) => self.impl_recorded(&t, q),
            _ => false,
        }
    }

    /// Whether an implementation is recorded for the two table keys.
    pub fn impl_recorded(&self, t: &String, q: &String) -> (r: bool)
        ensures
            r == self@.trait_impls.contains((t@, q@)),
    {
        let mut i: usize = 0;
        while i < self.trait_impls.len()
            invariant
                i <= self.trait_impls.len(),
                forall|j: int|
                    0 <= j < i ==> (#[trigger] self.trait_impls.deep_view()[j]) != (t@, q@),
            decreases self.trait_impls.len() - i,
        {
            if self.trait_impls[i].0 == *t && self.trait_impls[i].1 == *q {
                assert(self.trait_impls.deep_view()[i as int] == (t@, q@));
                return true;
            }
            i += 1;
        }
        false
    }

    /// Whether `name` is the name of a builtin; such names are reserved.
    pub fn is_builtin_name(&self, name: &String) -> (r: bool)
        ensures
            r == self@.builtin_local_names.contains(name@),
    {
        crate::text::names_contain(&self.builtin_local_names, name)
    }
}

} // verus!
