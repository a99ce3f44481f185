//! What each module can name: its own declarations, the builtins, and what it
//! imports.
use crate::ast::{Declaration, ImportDecl, ImportItem, ImportItems, Program, Visibility};
use crate::checker::{same_endpoints, Checker, CheckerV};
use crate::env::{Env, EnvV, ModuleScope, ModuleScopeV, NamespaceTarget, NamespaceTargetV};
use crate::info::{EnumInfo, EnumInfoV, FunctionInfo, FunctionInfoV, StructInfo, StructInfoV, TraitInfo, TraitInfoV, TypeAliasInfo, TypeAliasInfoV};
use crate::paths::{is_builtin_path, module_qualify, path_text, qualified, ModulePath};
use crate::privacy::private_access;
use crate::span::{plain_error, Diagnostic, DiagnosticV, Span};
use crate::state::State;
use crate::table::{find, holds, put, Key, Table};
use crate::text::{cat3, cat5, cat9, join, join_text, push_view, same_text, Chars, Dup};
use vstd::prelude::*;

verus! {

/// A module of a program.
#[derive(Debug)]
pub struct ResolvedSourceModule {
    pub path: ModulePath,
    pub program: Program,
    /// Whether the program starts here.
    pub is_entry: bool,
}

/// What the tables hold has a module and a place.
pub trait Declared: DeepView {
    spec fn module_of(v: Self::V) -> Seq<Chars>;

    spec fn span_of(v: Self::V) -> Span;

    /// The module that holds the declaration.
    fn owner(&self) -> (r: &ModulePath)
        ensures
            r@ == Self::module_of(self.deep_view()),
    ;

    /// Where the name stands in the declaration.
    fn place(&self) -> (r: Span)
        ensures
            r == Self::span_of(self.deep_view()),
    ;
}

impl<'a> Declared for FunctionInfo<'a> {
    open spec fn module_of(v: FunctionInfoV) -> Seq<Chars> {
        v.def_module
    }

    open spec fn span_of(v: FunctionInfoV) -> Span {
        v.definition_span
    }

    fn owner(&self) -> (r: &ModulePath) {
        &self.def_module
    }

    fn place(&self) -> (r: Span) {
        self.definition_span
    }
}

impl<'a> Declared for StructInfo<'a> {
    open spec fn module_of(v: StructInfoV) -> Seq<Chars> {
        v.def_module
    }

    open spec fn span_of(v: StructInfoV) -> Span {
        v.definition_span
    }

    fn owner(&self) -> (r: &ModulePath) {
        &self.def_module
    }

    fn place(&self) -> (r: Span) {
        self.definition_span
    }
}

impl Declared for EnumInfo {
    open spec fn module_of(v: EnumInfoV) -> Seq<Chars> {
        v.def_module
    }

    open spec fn span_of(v: EnumInfoV) -> Span {
        v.definition_span
    }

    fn owner(&self) -> (r: &ModulePath) {
        &self.def_module
    }

    fn place(&self) -> (r: Span) {
        self.definition_span
    }
}

impl Declared for TraitInfo {
    open spec fn module_of(v: TraitInfoV) -> Seq<Chars> {
        v.def_module
    }

    open spec fn span_of(v: TraitInfoV) -> Span {
        v.definition_span
    }

    fn owner(&self) -> (r: &ModulePath) {
        &self.def_module
    }

    fn place(&self) -> (r: Span) {
        self.definition_span
    }
}

impl Declared for TypeAliasInfo {
    open spec fn module_of(v: TypeAliasInfoV) -> Seq<Chars> {
        v.def_module
    }

    open spec fn span_of(v: TypeAliasInfoV) -> Span {
        v.definition_span
    }

    fn owner(&self) -> (r: &ModulePath) {
        &self.def_module
    }

    fn place(&self) -> (r: Span) {
        self.definition_span
    }
}

// ── The names of the builtins ────────────────────────────────────────

/// The names with those of the builtins among the first `n` entries.
pub open spec fn builtin_keys_n<T: Declared>(
    names: Seq<Chars>,
    table: Seq<(Chars, T::V)>,
    n: int,
) -> Seq<Chars>
    decreases n,
{
    if n <= 0 || n > table.len() {
        names
    } else {
        let rest = builtin_keys_n::<T>(names, table, n - 1);
        if is_builtin_path(T::module_of(table[n - 1].1)) {
            rest.push(table[n - 1].0)
        } else {
            rest
        }
    }
}

/// The same for all entries of a table.
pub open spec fn builtin_keys<T: Declared>(names: Seq<Chars>, table: Seq<(Chars, T::V)>) -> Seq<Chars> {
    builtin_keys_n::<T>(names, table, table.len() as int)
}

/// The names of all builtins in the tables.
pub open spec fn builtin_names(env: EnvV) -> Seq<Chars> {
    let names = builtin_keys::<FunctionInfo<'static>>(Seq::empty(), env.functions);
    let names = builtin_keys::<StructInfo<'static>>(names, env.structs);
    let names = builtin_keys::<EnumInfo>(names, env.enums);
    let names = builtin_keys::<TraitInfo>(names, env.traits);
    builtin_keys::<TypeAliasInfo>(names, env.type_aliases)
}

// ── Own declarations and builtins ────────────────────────────────────

/// What imports need to know of a declaration.
pub struct HeadV {
    pub kind: Chars,
    pub name: Chars,
    pub visibility: Visibility,
    pub span: Span,
}

/// The head of a declaration that has a name to import.
pub open spec fn head_of(d: Declaration) -> Option<HeadV> {
    match d {
        Declaration::Function(f) => Some(
            HeadV {
                kind: "function"@,
                name: f.name@,
                visibility: f.visibility,
                span: f.name_span,
            },
        ),
        Declaration::Struct(s) => Some(
            HeadV { kind: "struct"@, name: s.name@, visibility: s.visibility, span: s.name_span },
        ),
        Declaration::Enum(e) => Some(
            HeadV { kind: "enum"@, name: e.name@, visibility: e.visibility, span: e.name_span },
        ),
        Declaration::Trait(t) => Some(
            HeadV { kind: "trait"@, name: t.name@, visibility: t.visibility, span: t.name_span },
        ),
        Declaration::TypeAlias(t) => Some(
            HeadV {
                kind: "type alias"@,
                name: t.name@,
                visibility: t.visibility,
                span: t.name_span,
            },
        ),
        _ => None,
    }
}

/// What the first `n` declarations of a module make visible in it. A
/// declaration with the name of a builtin makes nothing visible.
pub open spec fn own_symbols_n(
    builtins: Seq<Chars>,
    path: Seq<Chars>,
    ds: Seq<Declaration>,
    n: int,
) -> Seq<(Chars, Chars)>
    decreases n,
{
    if n <= 0 || n > ds.len() {
        Seq::empty()
    } else {
        let rest = own_symbols_n(builtins, path, ds, n - 1);
        match head_of(ds[n - 1]) {
            Some(h) => if builtins.contains(h.name) {
                rest
            } else {
                put(rest, h.name, qualified(path, h.name))
            },
            None => rest,
        }
    }
}

/// The symbols with the first `n` builtins, each under its own name.
pub open spec fn builtins_visible_n(symbols: Seq<(Chars, Chars)>, builtins: Seq<Chars>, n: int) -> Seq<
    (Chars, Chars),
>
    decreases n,
{
    if n <= 0 || n > builtins.len() {
        symbols
    } else {
        let rest = builtins_visible_n(symbols, builtins, n - 1);
        if holds(rest, builtins[n - 1]) {
            rest
        } else {
            rest.push((builtins[n - 1], builtins[n - 1]))
        }
    }
}

/// The tables with the scope of a module, before its imports.
pub open spec fn scope_built(env: EnvV, path: Seq<Chars>, ds: Seq<Declaration>) -> EnvV {
    let builtins = env.builtin_local_names;
    let own = own_symbols_n(builtins, path, ds, ds.len() as int);
    EnvV {
        module_scopes: put(
            env.module_scopes,
            path,
            ModuleScopeV {
                visible_symbols: builtins_visible_n(own, builtins, builtins.len() as int),
                namespaces: Seq::empty(),
            },
        ),
        ..env
    }
}

/// The tables with the scopes of the first `n` modules, before their imports.
pub open spec fn scopes_built_n(env: EnvV, ms: Seq<ResolvedSourceModule>, n: int) -> EnvV
    decreases n,
{
    if n <= 0 || n > ms.len() {
        env
    } else {
        scope_built(
            scopes_built_n(env, ms, n - 1),
            ms[n - 1].path@,
            ms[n - 1].program.declarations@,
        )
    }
}

// ── Imports ──────────────────────────────────────────────────────────

/// The tables after making `local` stand for `key` in a module.
pub open spec fn symbol_imported(env: EnvV, importer: Seq<Chars>, local: Chars, key: Chars) -> EnvV {
    match find(env.module_scopes, importer) {
        Some(scope) => EnvV {
            module_scopes: put(
                env.module_scopes,
                importer,
                ModuleScopeV {
                    visible_symbols: put(scope.visible_symbols, local, key),
                    ..scope
                },
            ),
            ..env
        },
        None => env,
    }
}

/// The tables after making `local` stand for a whole module.
pub open spec fn namespace_imported(
    env: EnvV,
    importer: Seq<Chars>,
    local: Chars,
    target: NamespaceTargetV,
) -> EnvV {
    match find(env.module_scopes, importer) {
        Some(scope) => EnvV {
            module_scopes: put(
                env.module_scopes,
                importer,
                ModuleScopeV { namespaces: put(scope.namespaces, local, target), ..scope },
            ),
            ..env
        },
        None => env,
    }
}

/// The heads among the first `n` declarations with the name.
pub open spec fn matches_n(ds: Seq<Declaration>, name: Chars, n: int) -> Seq<HeadV>
    decreases n,
{
    if n <= 0 || n > ds.len() {
        Seq::empty()
    } else {
        let rest = matches_n(ds, name, n - 1);
        match head_of(ds[n - 1]) {
            Some(h) => if h.name == name {
                rest.push(h)
            } else {
                rest
            },
            None => rest,
        }
    }
}

/// The kinds of the first `n` declarations.
pub open spec fn kinds_n(hs: Seq<HeadV>, n: int) -> Seq<Chars>
    decreases n,
{
    if n <= 0 || n > hs.len() {
        Seq::empty()
    } else {
        kinds_n(hs, n - 1).push(hs[n - 1].kind)
    }
}

/// A note for each of the first `n` declarations.
pub open spec fn kind_notes_n(hs: Seq<HeadV>, name: Chars, n: int) -> Seq<(Span, Chars)>
    decreases n,
{
    if n <= 0 || n > hs.len() {
        Seq::empty()
    } else {
        kind_notes_n(hs, name, n - 1).push(
            (hs[n - 1].span, "`"@ + name + "` declared as a "@ + hs[n - 1].kind + " here"@),
        )
    }
}

/// The error about a name that stands for more than one thing.
pub open spec fn ambiguous_import(hs: Seq<HeadV>, name: Chars, target: Seq<Chars>, span: Span) -> DiagnosticV {
    DiagnosticV {
        notes: kind_notes_n(hs, name, hs.len() as int),
        ..plain_error(
            "`"@ + name + "` is declared in multiple namespaces in module `"@ + path_text(target)
                + "` ("@ + join(kinds_n(hs, hs.len() as int), ", "@) + "); the "@ + hs[0].kind
                + " declaration will be imported — rename one of the declarations to disambiguate"@,
            span,
        )
    }
}

/// One name imported from the module with the declarations `ds`. The first
/// declaration of the name counts.
pub open spec fn item_imported(
    c: CheckerV,
    importer: Seq<Chars>,
    target: Seq<Chars>,
    ds: Seq<Declaration>,
    item: ImportItem,
) -> CheckerV {
    let name = item.name@;
    let hs = matches_n(ds, name, ds.len() as int);
    let c1 = if hs.len() > 1 {
        CheckerV {
            st: c.st.diagnose(ambiguous_import(hs, name, target, item.span)),
            ..c
        }
    } else {
        c
    };
    if hs.len() == 0 {
        c1.error(
            "`"@ + name + "` is not declared in module `"@ + path_text(target) + "`"@,
            item.span,
        )
    } else if hs[0].visibility == Visibility::Public {
        let local = match item.alias {
            Some(a) => a@,
            None => name,
        };
        CheckerV {
            env: symbol_imported(c1.env, importer, local, qualified(target, name)),
            ..c1
        }
    } else {
        CheckerV {
            st: c1.st.diagnose(
                private_access(
                    "`"@ + name + "` is private to module `"@ + path_text(target) + "`"@,
                    item.span,
                    hs[0].span,
                    "mark `"@ + name + "` as `public` in `"@ + path_text(target)
                        + "` to export it"@,
                ),
            ),
            ..c1
        }
    }
}

/// The first `n` names of an import.
pub open spec fn items_imported_n(
    c: CheckerV,
    importer: Seq<Chars>,
    target: Seq<Chars>,
    ds: Seq<Declaration>,
    items: Seq<ImportItem>,
    n: int,
) -> CheckerV
    decreases n,
{
    if n <= 0 || n > items.len() {
        c
    } else {
        item_imported(
            items_imported_n(c, importer, target, ds, items, n - 1),
            importer,
            target,
            ds,
            items[n - 1],
        )
    }
}

/// The public names among the first `n` declarations of a module.
pub open spec fn publics_imported_n(
    env: EnvV,
    importer: Seq<Chars>,
    target: Seq<Chars>,
    ds: Seq<Declaration>,
    n: int,
) -> EnvV
    decreases n,
{
    if n <= 0 || n > ds.len() {
        env
    } else {
        let rest = publics_imported_n(env, importer, target, ds, n - 1);
        match head_of(ds[n - 1]) {
            Some(h) => if h.visibility == Visibility::Public {
                symbol_imported(rest, importer, h.name, qualified(target, h.name))
            } else {
                rest
            },
            None => rest,
        }
    }
}

/// The name under which a whole module is imported: its alias, or the last
/// segment of its path.
pub open spec fn namespace_local(path: Seq<Chars>, alias: Option<Chars>) -> Chars {
    match alias {
        Some(a) => a,
        None => if path.len() == 0 {
            Seq::empty()
        } else {
            path.last()
        },
    }
}

/// Whether a path is that of the JSON functions.
pub open spec fn is_json_path(path: Seq<Chars>) -> bool {
    path.len() == 1 && path[0] == "json"@
}

/// An import from a module with the declarations `ds`.
pub open spec fn import_resolved(
    c: CheckerV,
    importer: Seq<Chars>,
    ds: Seq<Declaration>,
    imp: ImportDecl,
) -> CheckerV {
    let target = imp.path.deep_view();
    match imp.items {
        ImportItems::Named(items) => items_imported_n(
            c,
            importer,
            target,
            ds,
            items@,
            items@.len() as int,
        ),
        ImportItems::Wildcard => CheckerV {
            env: publics_imported_n(c.env, importer, target, ds, ds.len() as int),
            ..c
        },
        ImportItems::Namespace(alias) => CheckerV {
            env: namespace_imported(
                c.env,
                importer,
                namespace_local(target, alias.deep_view()),
                NamespaceTargetV::UserModule(target),
            ),
            ..c
        },
    }
}

/// The declarations of the first module at or after `i` with the path.
pub open spec fn module_from(ms: Seq<ResolvedSourceModule>, path: Seq<Chars>, i: int) -> Option<
    Seq<Declaration>,
>
    decreases ms.len() - i,
{
    if i < 0 || i >= ms.len() {
        None
    } else if ms[i].path@ == path {
        Some(ms[i].program.declarations@)
    } else {
        module_from(ms, path, i + 1)
    }
}

/// An import. `import json` is not about a module of the program.
pub open spec fn imported(
    c: CheckerV,
    ms: Seq<ResolvedSourceModule>,
    importer: Seq<Chars>,
    imp: ImportDecl,
) -> CheckerV {
    let target = imp.path.deep_view();
    if imp.items is Namespace && is_json_path(target) {
        CheckerV {
            env: namespace_imported(
                c.env,
                importer,
                namespace_local(target, imp.items->Namespace_0.deep_view()),
                NamespaceTargetV::Json,
            ),
            ..c
        }
    } else {
        match module_from(ms, target, 0) {
            Some(ds) => import_resolved(c, importer, ds, imp),
            None => c.error("cannot find module `"@ + path_text(target) + "`"@, imp.span),
        }
    }
}

/// The imports among the first `n` declarations of a module.
pub open spec fn imports_n(
    c: CheckerV,
    ms: Seq<ResolvedSourceModule>,
    importer: Seq<Chars>,
    ds: Seq<Declaration>,
    n: int,
) -> CheckerV
    decreases n,
{
    if n <= 0 || n > ds.len() {
        c
    } else {
        let rest = imports_n(c, ms, importer, ds, n - 1);
        match ds[n - 1] {
            Declaration::Import(imp) => imported(rest, ms, importer, imp),
            _ => rest,
        }
    }
}

/// The imports of the first `n` modules.
pub open spec fn module_imports_n(c: CheckerV, ms: Seq<ResolvedSourceModule>, n: int) -> CheckerV
    decreases n,
{
    if n <= 0 || n > ms.len() {
        c
    } else {
        let ds = ms[n - 1].program.declarations@;
        imports_n(module_imports_n(c, ms, n - 1), ms, ms[n - 1].path@, ds, ds.len() as int)
    }
}

// ── What stays ───────────────────────────────────────────────────────

/// Building scopes touches nothing but the scopes.
pub proof fn lemma_scopes_frame(env: EnvV, ms: Seq<ResolvedSourceModule>, n: int)
    ensures
        ({
            let r = scopes_built_n(env, ms, n);
            r == EnvV { module_scopes: r.module_scopes, ..env }
        }),
    decreases n,
{
    if 0 < n <= ms.len() {
        lemma_scopes_frame(env, ms, n - 1);
    }
}

proof fn lemma_items_frame(
    c: CheckerV,
    importer: Seq<Chars>,
    target: Seq<Chars>,
    ds: Seq<Declaration>,
    items: Seq<ImportItem>,
    n: int,
)
    ensures
        ({
            let r = items_imported_n(c, importer, target, ds, items, n);
            &&& r.env == EnvV { module_scopes: r.env.module_scopes, ..c.env }
            &&& same_endpoints(r, c)
        }),
    decreases n,
{
    if 0 < n <= items.len() {
        lemma_items_frame(c, importer, target, ds, items, n - 1);
    }
}

proof fn lemma_publics_frame(
    env: EnvV,
    importer: Seq<Chars>,
    target: Seq<Chars>,
    ds: Seq<Declaration>,
    n: int,
)
    ensures
        ({
            let r = publics_imported_n(env, importer, target, ds, n);
            r == EnvV { module_scopes: r.module_scopes, ..env }
        }),
    decreases n,
{
    if 0 < n <= ds.len() {
        lemma_publics_frame(env, importer, target, ds, n - 1);
    }
}

proof fn lemma_imports_frame(
    c: CheckerV,
    ms: Seq<ResolvedSourceModule>,
    importer: Seq<Chars>,
    ds: Seq<Declaration>,
    n: int,
)
    ensures
        ({
            let r = imports_n(c, ms, importer, ds, n);
            &&& r.env == EnvV { module_scopes: r.env.module_scopes, ..c.env }
            &&& same_endpoints(r, c)
        }),
    decreases n,
{
    if 0 < n <= ds.len() {
        lemma_imports_frame(c, ms, importer, ds, n - 1);
        let rest = imports_n(c, ms, importer, ds, n - 1);
        if let Declaration::Import(imp) = ds[n - 1] {
            let target = imp.path.deep_view();
            if let Some(tds) = module_from(ms, target, 0) {
                if let ImportItems::Named(items) = imp.items {
                    lemma_items_frame(rest, importer, target, tds, items@, items@.len() as int);
                }
                lemma_publics_frame(rest.env, importer, target, tds, tds.len() as int);
            }
        }
    }
}

/// Imports touch nothing of the tables but the scopes.
pub proof fn lemma_module_imports_frame(c: CheckerV, ms: Seq<ResolvedSourceModule>, n: int)
    ensures
        ({
            let r = module_imports_n(c, ms, n);
            &&& r.env == EnvV { module_scopes: r.env.module_scopes, ..c.env }
            &&& same_endpoints(r, c)
        }),
    decreases n,
{
    if 0 < n <= ms.len() {
        lemma_module_imports_frame(c, ms, n - 1);
        let ds = ms[n - 1].program.declarations@;
        lemma_imports_frame(
            module_imports_n(c, ms, n - 1),
            ms,
            ms[n - 1].path@,
            ds,
            ds.len() as int,
        );
    }
}

// ── Building ─────────────────────────────────────────────────────────

/// What imports need to know of a declaration.
struct Head<'d> {
    kind: &'static str,
    name: &'d String,
    visibility: Visibility,
    span: Span,
}

impl<'d> DeepView for Head<'d> {
    type V = HeadV;

    closed spec fn deep_view(&self) -> HeadV {
        HeadV {
            kind: self.kind@,
            name: self.name@,
            visibility: self.visibility,
            span: self.span,
        }
    }
}

fn find_head<'d>(d: &'d Declaration) -> (r: Option<Head<'d>>)
    ensures
        r.deep_view() == head_of(*d),
{
    match d {
        Declaration::Function(f) => Some(
            Head {
                kind: "function",
                name: &f.name,
                visibility: f.visibility,
                span: f.name_span,
            },
        ),
        Declaration::Struct(s) => Some(
            Head { kind: "struct", name: &s.name, visibility: s.visibility, span: s.name_span },
        ),
        Declaration::Enum(e) => Some(
            Head { kind: "enum", name: &e.name, visibility: e.visibility, span: e.name_span },
        ),
        Declaration::Trait(t) => Some(
            Head { kind: "trait", name: &t.name, visibility: t.visibility, span: t.name_span },
        ),
        Declaration::TypeAlias(t) => Some(
            Head {
                kind: "type alias",
                name: &t.name,
                visibility: t.visibility,
                span: t.name_span,
            },
        ),
        _ => None,
    }
}

fn extend_builtin_names<T: Declared>(table: &Table<String, T>, names: &mut Vec<String>)
    ensures
        final(names).deep_view() == builtin_keys::<T>(old(names).deep_view(), table@),
{
    let ghost before = names.deep_view();
    let mut i: usize = 0;
    while i < table.entries.len()
        invariant
            i <= table.entries.len(),
            names.deep_view() == builtin_keys_n::<T>(before, table@, i as int),
        decreases table.entries.len() - i,
    {
        assert(table@[i as int] == table.entries[i as int].deep_view());
        if table.entries[i].1.owner().is_builtin() {
            push_view(names, table.entries[i].0.clone());
        }
        i += 1;
    }
}

fn collect_named_import_matches<'d>(ds: &'d Vec<Declaration>, name: &String) -> (r: Vec<Head<'d>>)
    ensures
        r.deep_view() == matches_n(ds@, name@, ds@.len() as int),
{
    let mut out: Vec<Head<'d>> = Vec::new();
    assert(out.deep_view() =~= Seq::<HeadV>::empty());
    let mut i: usize = 0;
    while i < ds.len()
        invariant
            i <= ds.len(),
            out.deep_view() == matches_n(ds@, name@, i as int),
        decreases ds.len() - i,
    {
        if let Some(h) = find_head(&ds[i]) {
            if *h.name == *name {
                push_view(&mut out, h);
            }
        }
        i += 1;
    }
    out
}

fn list_kinds(hs: &Vec<Head<'_>>) -> (r: Vec<String>)
    ensures
        r.deep_view() == kinds_n(hs.deep_view(), hs.deep_view().len() as int),
{
    let mut out: Vec<String> = Vec::new();
    assert(out.deep_view() =~= Seq::<Chars>::empty());
    let mut i: usize = 0;
    while i < hs.len()
        invariant
            i <= hs.len(),
            out.deep_view() == kinds_n(hs.deep_view(), i as int),
        decreases hs.len() - i,
    {
        assert(hs.deep_view()[i as int] == hs[i as int].deep_view());
        push_view(&mut out, hs[i].kind.to_owned());
        i += 1;
    }
    out
}

fn list_kind_notes(hs: &Vec<Head<'_>>, name: &String) -> (r: Vec<(Span, String)>)
    ensures
        r.deep_view() == kind_notes_n(hs.deep_view(), name@, hs.deep_view().len() as int),
{
    let mut out: Vec<(Span, String)> = Vec::new();
    assert(out.deep_view() =~= Seq::<(Span, Chars)>::empty());
    let mut i: usize = 0;
    while i < hs.len()
        invariant
            i <= hs.len(),
            out.deep_view() == kind_notes_n(hs.deep_view(), name@, i as int),
        decreases hs.len() - i,
    {
        assert(hs.deep_view()[i as int] == hs[i as int].deep_view());
        push_view(
            &mut out,
            (hs[i].span, cat5("`", name, "` declared as a ", hs[i].kind, " here")),
        );
        i += 1;
    }
    out
}

fn find_module<'m>(ms: &'m Vec<ResolvedSourceModule>, path: &ModulePath) -> (r: Option<
    &'m Vec<Declaration>,
>)
    ensures
        match r {
            Some(ds) => module_from(ms@, path@, 0) == Some(ds@),
            None => module_from(ms@, path@, 0) is None,
        },
{
    let mut i: usize = 0;
    while i < ms.len()
        invariant
            i <= ms.len(),
            module_from(ms@, path@, 0) == module_from(ms@, path@, i as int),
        decreases ms.len() - i,
    {
        if ms[i].path.same(path) {
            return Some(&ms[i].program.declarations);
        }
        i += 1;
    }
    None
}

fn local_namespace(path: &ModulePath, alias: &Option<String>) -> (r: String)
    ensures
        r@ == namespace_local(path@, alias.deep_view()),
{
    match alias {
        Some(a) => a.clone(),
        None => {
            let n: usize = path.0.len();
            if n == 0 {
                let none = String::new();
                assert(none@ =~= Seq::<char>::empty());
                none
            } else {
                path.0[n - 1].clone()
            }
        },
    }
}

impl<'a> Env<'a> {
    /// Remembers the names of all builtins in the tables.
    pub fn snapshot_builtin_names(&mut self)
        ensures
            final(self)@ == (EnvV {
                builtin_local_names: builtin_names(old(self)@),
                ..old(self)@
            }),
    {
        let mut names: Vec<String> = Vec::new();
        assert(names.deep_view() =~= Seq::<Chars>::empty());
        extend_builtin_names(&self.functions, &mut names);
        extend_builtin_names(&self.structs, &mut names);
        extend_builtin_names(&self.enums, &mut names);
        extend_builtin_names(&self.traits, &mut names);
        extend_builtin_names(&self.type_aliases, &mut names);
        self.builtin_local_names = names;
    }

    /// Builds the scope of a module, before its imports.
    pub fn build_one_module_scope_phase_a(&mut self, path: &ModulePath, ds: &Vec<Declaration>)
        ensures
            final(self)@ == scope_built(old(self)@, path@, ds@),
    {
        let ghost builtins = self@.builtin_local_names;
        let mut scope = ModuleScope::new();
        let mut i: usize = 0;
        while i < ds.len()
            invariant
                i <= ds.len(),
                self@ == old(self)@,
                builtins == self@.builtin_local_names,
                scope@.namespaces == Seq::<(Chars, NamespaceTargetV)>::empty(),
                scope@.visible_symbols == own_symbols_n(builtins, path@, ds@, i as int),
            decreases ds.len() - i,
        {
            if let Some(h) = find_head(&ds[i]) {
                if !self.is_builtin_name(h.name) {
                    scope.insert(h.name.clone(), module_qualify(path, h.name));
                }
            }
            i += 1;
        }
        let ghost own = scope@.visible_symbols;
        let mut j: usize = 0;
        while j < self.builtin_local_names.len()
            invariant
                j <= self.builtin_local_names.len(),
                self@ == old(self)@,
                builtins == self@.builtin_local_names,
                scope@.namespaces == Seq::<(Chars, NamespaceTargetV)>::empty(),
                scope@.visible_symbols == builtins_visible_n(own, builtins, j as int),
            decreases self.builtin_local_names.len() - j,
        {
            let name = &self.builtin_local_names[j];
            if !scope.visible_symbols.has(name) {
                push_view(&mut scope.visible_symbols.entries, (name.clone(), name.clone()));
            }
            j += 1;
        }
        self.module_scopes.put(path.dup(), scope);
    }

    /// Builds the scopes of all modules, before their imports.
    pub fn build_module_scopes_phase_a(&mut self, ms: &Vec<ResolvedSourceModule>)
        ensures
            final(self)@ == scopes_built_n(old(self)@, ms@, ms@.len() as int),
    {
        let mut i: usize = 0;
        while i < ms.len()
            invariant
                i <= ms.len(),
                self@ == scopes_built_n(old(self)@, ms@, i as int),
            decreases ms.len() - i,
        {
            self.build_one_module_scope_phase_a(&ms[i].path, &ms[i].program.declarations);
            i += 1;
        }
    }

    fn insert_into_scope(&mut self, importer: &ModulePath, local: String, key: String)
        ensures
            final(self)@ == symbol_imported(old(self)@, importer@, local@, key@),
    {
        let ghost before = self@.module_scopes;
        let i: usize = self.module_scopes.position(importer);
        if i < self.module_scopes.entries.len() {
            proof {
                crate::table::lemma_position(before, importer@, 0);
            }
            assert(before[i as int] == self.module_scopes.entries[i as int].deep_view());
            self.module_scopes.entries[i].1.insert(local, key);
            assert(self@.module_scopes =~= symbol_imported(
                old(self)@,
                importer@,
                local@,
                key@,
            ).module_scopes);
        }
    }

    fn insert_namespace(&mut self, importer: &ModulePath, local: String, target: NamespaceTarget)
        ensures
            final(self)@ == namespace_imported(
                old(self)@,
                importer@,
                local@,
                target.deep_view(),
            ),
    {
        let ghost before = self@.module_scopes;
        let i: usize = self.module_scopes.position(importer);
        if i < self.module_scopes.entries.len() {
            proof {
                crate::table::lemma_position(before, importer@, 0);
            }
            assert(before[i as int] == self.module_scopes.entries[i as int].deep_view());
            self.module_scopes.entries[i].1.namespaces.put(local, target);
            assert(self@.module_scopes =~= namespace_imported(
                old(self)@,
                importer@,
                local@,
                target.deep_view(),
            ).module_scopes);
        }
    }

    fn import_publics(&mut self, importer: &ModulePath, target: &ModulePath, ds: &Vec<Declaration>)
        ensures
            final(self)@ == publics_imported_n(
                old(self)@,
                importer@,
                target@,
                ds@,
                ds@.len() as int,
            ),
    {
        let mut i: usize = 0;
        while i < ds.len()
            invariant
                i <= ds.len(),
                self@ == publics_imported_n(old(self)@, importer@, target@, ds@, i as int),
            decreases ds.len() - i,
        {
            if let Some(h) = find_head(&ds[i]) {
                if h.visibility == Visibility::Public {
                    self.insert_into_scope(
                        importer,
                        h.name.clone(),
                        module_qualify(target, h.name),
                    );
                }
            }
            i += 1;
        }
    }
}

impl State {
    fn emit_cross_namespace_ambiguity_diagnostic(
        &mut self,
        hs: &Vec<Head<'_>>,
        name: &String,
        target: &ModulePath,
        span: Span,
    )
        requires
            hs@.len() > 0,
        ensures
            final(self)@ == old(self)@.diagnose(
                ambiguous_import(hs.deep_view(), name@, target@, span),
            ),
    {
        assert(hs.deep_view()[0] == hs[0].deep_view());
        let mut d = Diagnostic::error(
            cat9(
                "`",
                name,
                "` is declared in multiple namespaces in module `",
                &target.text(),
                "` (",
                &join_text(&list_kinds(hs), ", "),
                "); the ",
                hs[0].kind,
                " declaration will be imported — rename one of the declarations to disambiguate",
            ),
            span,
        );
        d.notes = list_kind_notes(hs, name);
        self.diagnose(d);
    }
}

impl<'a> Checker<'a> {
    fn import_item(
        &mut self,
        importer: &ModulePath,
        target: &ModulePath,
        ds: &Vec<Declaration>,
        item: &ImportItem,
    )
        ensures
            final(self)@ == item_imported(old(self)@, importer@, target@, ds@, *item),
    {
        let hs = collect_named_import_matches(ds, &item.name);
        if hs.len() > 1 {
            self.state.emit_cross_namespace_ambiguity_diagnostic(&hs, &item.name, target, item.span);
        }
        if hs.len() == 0 {
            self.state.error(
                cat5(
                    "`",
                    &item.name,
                    "` is not declared in module `",
                    &target.text(),
                    "`",
                ),
                item.span,
            );
            return;
        }
        assert(hs.deep_view()[0] == hs[0].deep_view());
        if hs[0].visibility == Visibility::Public {
            let local = match &item.alias {
                Some(a) => a.clone(),
                None => item.name.clone(),
            };
            self.env.insert_into_scope(importer, local, module_qualify(target, &item.name));
        } else {
            self.state.emit_private_access_diagnostic(
                cat5("`", &item.name, "` is private to module `", &target.text(), "`"),
                item.span,
                hs[0].span,
                cat5(
                    "mark `",
                    &item.name,
                    "` as `public` in `",
                    &target.text(),
                    "` to export it",
                ),
            );
        }
    }

    fn resolve_import(&mut self, importer: &ModulePath, ds: &Vec<Declaration>, imp: &ImportDecl)
        ensures
            final(self)@ == import_resolved(old(self)@, importer@, ds@, *imp),
    {
        let target = ModulePath(imp.path.dup());
        match &imp.items {
            ImportItems::Named(items) => {
                let mut i: usize = 0;
                while i < items.len()
                    invariant
                        i <= items.len(),
                        self@ == items_imported_n(
                            old(self)@,
                            importer@,
                            target@,
                            ds@,
                            items@,
                            i as int,
                        ),
                    decreases items.len() - i,
                {
                    self.import_item(importer, &target, ds, &items[i]);
                    i += 1;
                }
            },
            ImportItems::Wildcard => {
                self.env.import_publics(importer, &target, ds);
            },
            ImportItems::Namespace(alias) => {
                let local = local_namespace(&target, alias);
                self.env.insert_namespace(importer, local, NamespaceTarget::UserModule(target));
            },
        }
    }

    fn import(&mut self, ms: &Vec<ResolvedSourceModule>, importer: &ModulePath, imp: &ImportDecl)
        ensures
            final(self)@ == imported(old(self)@, ms@, importer@, *imp),
    {
        let target = ModulePath(imp.path.dup());
        if let ImportItems::Namespace(alias) = &imp.items {
            if target.0.len() == 1 && same_text(&target.0[0], "json") {
                let local = local_namespace(&target, alias);
                self.env.insert_namespace(importer, local, NamespaceTarget::Json);
                return;
            }
        }
        match find_module(ms, &target) {
            Some(ds) => {
                self.resolve_import(importer, ds, imp);
            },
            None => {
                self.state.error(cat3("cannot find module `", &target.text(), "`"), imp.span);
            },
        }
    }

    fn import_all(
        &mut self,
        ms: &Vec<ResolvedSourceModule>,
        importer: &ModulePath,
        ds: &Vec<Declaration>,
    )
        ensures
            final(self)@ == imports_n(old(self)@, ms@, importer@, ds@, ds@.len() as int),
    {
        let mut i: usize = 0;
        while i < ds.len()
            invariant
                i <= ds.len(),
                self@ == imports_n(old(self)@, ms@, importer@, ds@, i as int),
            decreases ds.len() - i,
        {
            if let Declaration::Import(imp) = &ds[i] {
                self.import(ms, importer, imp);
            }
            i += 1;
        }
    }

    /// Resolves the imports of all modules.
    pub fn build_module_scopes_phase_b(&mut self, ms: &Vec<ResolvedSourceModule>)
        ensures
            final(self)@ == module_imports_n(old(self)@, ms@, ms@.len() as int),
    {
        let mut i: usize = 0;
        while i < ms.len()
            invariant
                i <= ms.len(),
                self@ == module_imports_n(old(self)@, ms@, i as int),
            decreases ms.len() - i,
        {
            self.import_all(ms, &ms[i].path, &ms[i].program.declarations);
            i += 1;
        }
    }
}

} // verus!
