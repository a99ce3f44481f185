//! Registering declarations in the symbol tables.
use crate::annotations::{annotations_checked, AnnotationTarget};
use crate::ast::{
    Declaration, EnumDecl, EnumVariant, FieldDecl, FunctionDecl, StructDecl, TraitDecl,
    TraitMethodDecl, TypeAliasDecl, TypeExpr, Visibility,
};
use crate::calls::{arg_names, arg_names_n};
use crate::check_expr::sem_expr;
use crate::check_types::{resolved, resolved_n};
use crate::checker::{Checker, CheckerV};
use crate::env::{named, visible, Env, EnvV};
use crate::impls::{impl_registered, inline_registered, type_orphans_filed};
use crate::info::{
    EnumInfo, EnumInfoV, FieldInfo, FieldInfoV, FunctionInfo, FunctionInfoV, MethodInfo,
    MethodInfoV, StructInfo, StructInfoV, SymbolKind, SymbolKindV, TraitInfo, TraitInfoV,
    TraitMethodInfo, TraitMethodInfoV, TypeAliasInfo, TypeAliasInfoV,
};
use crate::object_safety::{obstacle_from, validate};
use crate::paths::{builtin_path, module_qualify, qualified, ModulePath};
use crate::signature::{
    compute_default_needs_wrapper, signature_resolved, wrapped,
};
use crate::span::Span;
use crate::state::{fixed, State, StateV};
use crate::table::{find, holds, keys, lemma_found, lemma_pigeonhole, put, Table};
use crate::text::{cat3, cat4, cat5, names_contain, push_view, same_text, Chars, Dup};
use crate::types::{mentions, one, show, type_mentions, type_var, Ty, Type};
use vstd::prelude::*;

verus! {

broadcast use crate::ty::view_of_type;

// ── Builtins ─────────────────────────────────────────────────────────

/// The built-in enum `Option<T>`.
pub open spec fn option_info() -> EnumInfoV {
    EnumInfoV {
        definition_span: Span::spec_builtin(),
        type_params: seq!["T"@],
        variants: seq![("Some"@, seq![Ty::TypeVar("T"@)]), ("None"@, Seq::empty())],
        visibility: Visibility::Public,
        def_module: builtin_path(),
    }
}

/// The built-in enum `Result<T, E>`.
pub open spec fn result_info() -> EnumInfoV {
    EnumInfoV {
        definition_span: Span::spec_builtin(),
        type_params: seq!["T"@, "E"@],
        variants: seq![("Ok"@, seq![Ty::TypeVar("T"@)]), ("Err"@, seq![Ty::TypeVar("E"@)])],
        visibility: Visibility::Public,
        def_module: builtin_path(),
    }
}

/// A built-in method. It has no id.
pub open spec fn builtin_method(params: Seq<Ty>, return_type: Ty) -> MethodInfoV {
    MethodInfoV {
        func_id: None,
        definition_span: Span::spec_builtin(),
        params,
        param_names: arg_names_n(params.len() as int),
        default_param_exprs: Seq::empty(),
        default_needs_wrapper: Seq::empty(),
        return_type,
        type_params: Seq::empty(),
        has_self: true,
    }
}

/// The methods that both built-in enums have, behind two tests.
pub open spec fn builtin_methods(first: Chars, second: Chars) -> Seq<(Chars, MethodInfoV)> {
    let t = Ty::TypeVar("T"@);
    seq![
        (first, builtin_method(Seq::empty(), Ty::Bool)),
        (second, builtin_method(Seq::empty(), Ty::Bool)),
        ("unwrap"@, builtin_method(Seq::empty(), t)),
        ("unwrapOr"@, builtin_method(seq![t], t)),
    ]
}

/// The tables with the built-in enums and their methods.
pub open spec fn builtins_registered(env: EnvV) -> EnvV {
    EnvV {
        enums: put(put(env.enums, "Option"@, option_info()), "Result"@, result_info()),
        methods: put(
            put(env.methods, "Option"@, builtin_methods("isSome"@, "isNone"@)),
            "Result"@,
            builtin_methods("isOk"@, "isErr"@),
        ),
        ..env
    }
}

fn no_types() -> (r: Vec<Type>)
    ensures
        r.deep_view() == Seq::<Ty>::empty(),
{
    let r: Vec<Type> = Vec::new();
    assert(r.deep_view() =~= Seq::<Ty>::empty());
    r
}

fn no_names() -> (r: Vec<String>)
    ensures
        r.deep_view() == Seq::<Chars>::empty(),
{
    let r: Vec<String> = Vec::new();
    assert(r.deep_view() =~= Seq::<Chars>::empty());
    r
}

impl<'a> MethodInfo<'a> {
    /// A built-in method.
    pub fn builtin(params: Vec<Type>, return_type: Type) -> (r: Self)
        ensures
            r.deep_view() == builtin_method(params.deep_view(), return_type@),
    {
        let param_names = arg_names(params.len());
        MethodInfo {
            func_id: None,
            definition_span: Span::builtin(),
            params,
            param_names,
            default_param_exprs: Table::new(),
            default_needs_wrapper: Vec::new(),
            return_type,
            type_params: no_names(),
            has_self: true,
        }
    }
}

fn methods_of_builtin<'a>(first: &str, second: &str) -> (r: Table<String, MethodInfo<'a>>)
    ensures
        r@ == builtin_methods(first@, second@),
{
    let mut v: Vec<(String, MethodInfo<'a>)> = Vec::new();
    v.push((first.to_owned(), MethodInfo::builtin(no_types(), Type::Bool)));
    v.push((second.to_owned(), MethodInfo::builtin(no_types(), Type::Bool)));
    v.push(("unwrap".to_owned(), MethodInfo::builtin(no_types(), type_var("T"))));
    v.push(("unwrapOr".to_owned(), MethodInfo::builtin(one(type_var("T")), type_var("T"))));
    assert(v.deep_view() =~= builtin_methods(first@, second@));
    Table { entries: v }
}

fn option_enum() -> (r: EnumInfo)
    ensures
        r.deep_view() == option_info(),
{
    let mut type_params: Vec<String> = Vec::new();
    type_params.push("T".to_owned());
    let mut variants: Vec<(String, Vec<Type>)> = Vec::new();
    variants.push(("Some".to_owned(), one(type_var("T"))));
    variants.push(("None".to_owned(), no_types()));
    assert(type_params.deep_view() =~= option_info().type_params);
    assert(variants.deep_view() =~= option_info().variants);
    EnumInfo {
        definition_span: Span::builtin(),
        type_params,
        variants,
        visibility: Visibility::Public,
        def_module: ModulePath::builtin(),
    }
}

fn result_enum() -> (r: EnumInfo)
    ensures
        r.deep_view() == result_info(),
{
    let mut type_params: Vec<String> = Vec::new();
    type_params.push("T".to_owned());
    type_params.push("E".to_owned());
    let mut variants: Vec<(String, Vec<Type>)> = Vec::new();
    variants.push(("Ok".to_owned(), one(type_var("T"))));
    variants.push(("Err".to_owned(), one(type_var("E"))));
    assert(type_params.deep_view() =~= result_info().type_params);
    assert(variants.deep_view() =~= result_info().variants);
    EnumInfo {
        definition_span: Span::builtin(),
        type_params,
        variants,
        visibility: Visibility::Public,
        def_module: ModulePath::builtin(),
    }
}

impl<'a> Env<'a> {
    /// Registers the built-in enums and their methods.
    pub fn register_builtins(&mut self)
        ensures
            final(self)@ == builtins_registered(old(self)@),
    {
        self.enums.put("Option".to_owned(), option_enum());
        self.enums.put("Result".to_owned(), result_enum());
        self.methods.put("Option".to_owned(), methods_of_builtin("isSome", "isNone"));
        self.methods.put("Result".to_owned(), methods_of_builtin("isOk", "isErr"));
    }
}

// ── Names of types before the types ──────────────────────────────────

/// Whether a type as written is a file or an optional one.
pub open spec fn names_file(te: TypeExpr) -> bool {
    match te {
        TypeExpr::Named(x) => x.name@ == "File"@,
        TypeExpr::Generic(x) => x.name@ == "Option"@ && x.type_args@.len() == 1 && (
        match x.type_args@[0] {
            TypeExpr::Named(y) => y.name@ == "File"@,
            _ => false,
        }),
        _ => false,
    }
}

/// Whether a struct with these fields carries a file.
pub open spec fn declares_file(fs: Seq<FieldDecl>) -> bool {
    exists|i: int| 0 <= i < fs.len() && names_file((#[trigger] fs[i]).type_annotation)
}

/// A struct of which only the name is known.
pub open spec fn struct_placeholder(env: EnvV, s: StructDecl) -> StructInfoV {
    StructInfoV {
        definition_span: s.name_span,
        type_params: s.type_params.deep_view(),
        fields: Seq::empty(),
        is_file_bearing: declares_file(s.fields@),
        visibility: s.visibility,
        def_module: env.current_module,
    }
}

/// An enum of which only the name is known.
pub open spec fn enum_placeholder(env: EnvV, e: EnumDecl) -> EnumInfoV {
    EnumInfoV {
        definition_span: e.name_span,
        type_params: e.type_params.deep_view(),
        variants: Seq::empty(),
        visibility: e.visibility,
        def_module: env.current_module,
    }
}

/// The tables after making a type known by name. The first of a name stays.
pub open spec fn type_name_known(env: EnvV, d: Declaration) -> EnvV {
    match d {
        Declaration::Struct(s) => {
            let key = qualified(env.current_module, s.name@);
            if env.builtin_local_names.contains(s.name@) || holds(env.structs, key) {
                env
            } else {
                EnvV { structs: env.structs.push((key, struct_placeholder(env, s))), ..env }
            }
        },
        Declaration::Enum(e) => {
            let key = qualified(env.current_module, e.name@);
            if env.builtin_local_names.contains(e.name@) || holds(env.enums, key) {
                env
            } else {
                EnvV { enums: env.enums.push((key, enum_placeholder(env, e))), ..env }
            }
        },
        _ => env,
    }
}

/// The tables after making the types among the first `n` declarations known by
/// name.
pub open spec fn type_names_known_n(env: EnvV, ds: Seq<Declaration>, n: int) -> EnvV
    decreases n,
{
    if n <= 0 || n > ds.len() {
        env
    } else {
        type_name_known(type_names_known_n(env, ds, n - 1), ds[n - 1])
    }
}

/// Making types known by name touches nothing but the types.
pub proof fn lemma_type_names_frame(env: EnvV, ds: Seq<Declaration>, n: int)
    ensures
        ({
            let r = type_names_known_n(env, ds, n);
            r == EnvV { structs: r.structs, enums: r.enums, ..env }
        }),
    decreases n,
{
    if 0 < n <= ds.len() {
        lemma_type_names_frame(env, ds, n - 1);
    }
}

fn annotation_names_file(te: &TypeExpr) -> (r: bool)
    ensures
        r == names_file(*te),
{
    match te {
        TypeExpr::Named(x) => same_text(&x.name, "File"),
        TypeExpr::Generic(x) => {
            if same_text(&x.name, "Option") && x.type_args.len() == 1 {
                match &x.type_args[0] {
                    TypeExpr::Named(y) => same_text(&y.name, "File"),
                    _ => false,
                }
            } else {
                false
            }
        },
        _ => false,
    }
}

fn any_declares_file(fs: &Vec<FieldDecl>) -> (r: bool)
    ensures
        r == declares_file(fs@),
{
    let mut i: usize = 0;
    while i < fs.len()
        invariant
            i <= fs.len(),
            forall|j: int| 0 <= j < i ==> !names_file((#[trigger] fs@[j]).type_annotation),
        decreases fs.len() - i,
    {
        if annotation_names_file(&fs[i].type_annotation) {
            return true;
        }
        i += 1;
    }
    false
}

impl<'a> Env<'a> {
    fn pre_register_type_name(&mut self, d: &Declaration)
        ensures
            final(self)@ == type_name_known(old(self)@, *d),
    {
        match d {
            Declaration::Struct(s) => {
                let key = module_qualify(&self.current_module, &s.name);
                if !self.is_builtin_name(&s.name) && !self.structs.has(&key) {
                    let fields: Vec<FieldInfo<'a>> = Vec::new();
                    assert(fields.deep_view() =~= Seq::<FieldInfoV>::empty());
                    let info = StructInfo {
                        definition_span: s.name_span,
                        type_params: s.type_params.dup(),
                        fields,
                        is_file_bearing: any_declares_file(&s.fields),
                        visibility: s.visibility,
                        def_module: self.current_module.dup(),
                    };
                    push_view(&mut self.structs.entries, (key, info));
                }
            },
            Declaration::Enum(e) => {
                let key = module_qualify(&self.current_module, &e.name);
                if !self.is_builtin_name(&e.name) && !self.enums.has(&key) {
                    let variants: Vec<(String, Vec<Type>)> = Vec::new();
                    assert(variants.deep_view() =~= Seq::<(Chars, Seq<Ty>)>::empty());
                    let info = EnumInfo {
                        definition_span: e.name_span,
                        type_params: e.type_params.dup(),
                        variants,
                        visibility: e.visibility,
                        def_module: self.current_module.dup(),
                    };
                    push_view(&mut self.enums.entries, (key, info));
                }
            },
            _ => {},
        }
    }

    /// Makes the types of the current module known by name, so that
    /// declarations can refer to each other in any order.
    pub fn pre_register_type_names(&mut self, ds: &Vec<Declaration>)
        ensures
            final(self)@ == type_names_known_n(old(self)@, ds@, ds@.len() as int),
    {
        let mut i: usize = 0;
        while i < ds.len()
            invariant
                i <= ds.len(),
                self@ == type_names_known_n(old(self)@, ds@, i as int),
            decreases ds.len() - i,
        {
            self.pre_register_type_name(&ds[i]);
            i += 1;
        }
    }
}

// ── Functions ────────────────────────────────────────────────────────

/// The error about a declaration with the name of a builtin.
pub open spec fn reserved_message(name: Chars, kind: Chars) -> Chars {
    "`"@ + name + "` is a reserved builtin name and cannot be used as "@ + kind
}

/// The error about a second declaration of a name.
pub open spec fn redefinition(kind: Chars, name: Chars) -> Chars {
    kind + " `"@ + name + "` is already defined"@
}

pub open spec fn function_registered(c: CheckerV, f: FunctionDecl) -> CheckerV {
    let key = qualified(c.env.current_module, f.name@);
    if c.env.builtin_local_names.contains(f.name@) {
        c.error(reserved_message(f.name@, "a function name"@), f.span)
    } else if holds(c.env.functions, key) {
        c.error(redefinition("function"@, f.name@), f.span)
    } else {
        match find(c.env.pending_function_ids, key) {
            Some(id) => {
                let own = f.type_params.deep_view();
                let s1 = annotations_checked(c.st, f.annotations@, AnnotationTarget::Function);
                let (s2, sig) = signature_resolved(c.env, s1, own, f.params@, f.return_type);
                CheckerV {
                    st: s2.refer(f.name_span, SymbolKindV::Function, f.name@),
                    env: EnvV {
                        functions: put(
                            c.env.functions,
                            key,
                            FunctionInfoV {
                                func_id: id,
                                definition_span: f.name_span,
                                type_params: own,
                                type_param_bounds: f.type_param_bounds.deep_view(),
                                params: sig.params,
                                param_names: sig.names,
                                default_param_exprs: sig.defaults,
                                default_needs_wrapper: wrapped(sig.defaults, own.len() > 0),
                                return_type: sig.ret,
                                visibility: f.visibility,
                                def_module: c.env.current_module,
                            },
                        ),
                        ..c.env
                    },
                    ..c
                }
            },
            None => c,
        }
    }
}

// ── Structs ──────────────────────────────────────────────────────────

/// Whether an entry comes from another declaration than the one at `span`.
pub open spec fn taken(existing: Option<Span>, span: Span) -> bool {
    match existing {
        Some(other) => other != span,
        None => false,
    }
}

/// The `where` clause of a field, in which `self` is the value of the field.
pub open spec fn constraint_checked(env: EnvV, st: StateV, f: FieldDecl, t: Ty) -> StateV {
    match f.constraint {
        Some(e) => {
            let s1 = st.enter().define("self"@, fixed(t, f.span));
            let (s2, got) = sem_expr(env, StateV { in_constraint: true, ..s1 }, e);
            StateV { in_constraint: st.in_constraint, ..s2 }.leave().error_if(
                got != Ty::Bool && got != Ty::Error,
                "constraint on field `"@ + f.name@ + "` must evaluate to Bool, got `"@ + show(got)
                    + "`"@,
                f.span,
            )
        },
        None => st,
    }
}

/// A field of a struct. Only here may a `File` stand.
pub open spec fn field_registered(env: EnvV, st: StateV, f: FieldDecl) -> (StateV, FieldInfoV) {
    let s1 = annotations_checked(st, f.annotations@, AnnotationTarget::Field);
    let (s2, t) = resolved(
        env,
        s1.files(true, s1.file_bearing_struct_allowed),
        f.type_annotation,
    );
    let s3 = s2.files(s1.file_field_allowed, s2.file_bearing_struct_allowed);
    (
        constraint_checked(env, s3, f, t),
        FieldInfoV {
            name: f.name@,
            ty: t,
            constraint: f.constraint,
            definition_span: f.span,
            visibility: f.visibility,
        },
    )
}

/// The first `n` fields of a struct.
pub open spec fn fields_registered_n(env: EnvV, st: StateV, fs: Seq<FieldDecl>, n: int) -> (
    StateV,
    Seq<FieldInfoV>,
)
    decreases n,
{
    if n <= 0 || n > fs.len() {
        (st, Seq::empty())
    } else {
        let (s1, rest) = fields_registered_n(env, st, fs, n - 1);
        let (s2, f) = field_registered(env, s1, fs[n - 1]);
        (s2, rest.push(f))
    }
}

pub open spec fn struct_registered(c: CheckerV, s: StructDecl) -> CheckerV {
    let key = qualified(c.env.current_module, s.name@);
    let existing = match find(c.env.structs, key) {
        Some(i) => Some(i.definition_span),
        None => None,
    };
    if c.env.builtin_local_names.contains(s.name@) {
        c.error(reserved_message(s.name@, "a struct name"@), s.span)
    } else if taken(existing, s.name_span) {
        type_orphans_filed(
            c.error(redefinition("struct"@, s.name@), s.span),
            s.name@,
            s.methods@,
            s.trait_impls@,
            s.span,
        )
    } else {
        let own = s.type_params.deep_view();
        let s1 = annotations_checked(c.st, s.annotations@, AnnotationTarget::Struct);
        let (s2, fields) = fields_registered_n(
            c.env,
            StateV { type_params: own, ..s1 },
            s.fields@,
            s.fields@.len() as int,
        );
        let s3 = StateV { type_params: s1.type_params, ..s2 };
        inline_registered(
            CheckerV {
                st: s3.refer(s.name_span, SymbolKindV::Struct, s.name@),
                env: EnvV {
                    structs: put(
                        c.env.structs,
                        key,
                        StructInfoV {
                            definition_span: s.name_span,
                            type_params: own,
                            fields,
                            is_file_bearing: declares_file(s.fields@),
                            visibility: s.visibility,
                            def_module: c.env.current_module,
                        },
                    ),
                    ..c.env
                },
                ..c
            },
            s.name@,
            s.methods@,
            s.trait_impls@,
            s.span,
        )
    }
}

// ── Enums ────────────────────────────────────────────────────────────

/// The first `n` variants of an enum.
pub open spec fn variants_registered_n(env: EnvV, st: StateV, vs: Seq<EnumVariant>, n: int) -> (
    StateV,
    Seq<(Chars, Seq<Ty>)>,
)
    decreases n,
{
    if n <= 0 || n > vs.len() {
        (st, Seq::empty())
    } else {
        let (s1, rest) = variants_registered_n(env, st, vs, n - 1);
        let v = vs[n - 1];
        let (s2, ts) = resolved_n(env, s1, v.fields@, v.fields@.len() as int);
        (s2, rest.push((v.name@, ts)))
    }
}

/// Whether a type as written is the type parameter `t`.
pub open spec fn names_param(te: TypeExpr, t: Ty) -> bool {
    match (te, t) {
        (TypeExpr::Named(x), Ty::TypeVar(p)) => x.name@ == p,
        _ => false,
    }
}

/// Whether the variant at `i` is the one of the builtin.
pub open spec fn restates_variant(v: EnumVariant, b: (Chars, Seq<Ty>)) -> bool {
    v.name@ == b.0 && v.fields@.len() == b.1.len() && forall|j: int|
        0 <= j < b.1.len() ==> names_param(#[trigger] v.fields@[j], b.1[j])
}

/// Whether an enum says what the built-in one of its name says. Such a
/// declaration changes nothing.
pub open spec fn restates(env: EnvV, e: EnumDecl) -> bool {
    match find(env.enums, e.name@) {
        Some(b) => e.methods@.len() == 0 && e.trait_impls@.len() == 0 && e.type_params.deep_view()
            == b.type_params && e.variants@.len() == b.variants.len() && forall|i: int|
            0 <= i < b.variants.len() ==> restates_variant(#[trigger] e.variants@[i], b.variants[i]),
        None => false,
    }
}

pub open spec fn enum_registered(c: CheckerV, e: EnumDecl) -> CheckerV {
    let key = qualified(c.env.current_module, e.name@);
    let existing = match find(c.env.enums, key) {
        Some(i) => Some(i.definition_span),
        None => None,
    };
    if c.env.builtin_local_names.contains(e.name@) {
        if restates(c.env, e) {
            c
        } else {
            c.error(reserved_message(e.name@, "an enum name"@), e.span)
        }
    } else if taken(existing, e.name_span) {
        type_orphans_filed(
            c.error(redefinition("enum"@, e.name@), e.span),
            e.name@,
            e.methods@,
            e.trait_impls@,
            e.span,
        )
    } else {
        let own = e.type_params.deep_view();
        let s1 = annotations_checked(c.st, e.annotations@, AnnotationTarget::Enum);
        let (s2, variants) = variants_registered_n(
            c.env,
            StateV { type_params: own, ..s1 },
            e.variants@,
            e.variants@.len() as int,
        );
        let s3 = StateV { type_params: s1.type_params, ..s2 };
        inline_registered(
            CheckerV {
                st: s3.refer(e.name_span, SymbolKindV::Enum, e.name@),
                env: EnvV {
                    enums: put(
                        c.env.enums,
                        key,
                        EnumInfoV {
                            definition_span: e.name_span,
                            type_params: own,
                            variants,
                            visibility: e.visibility,
                            def_module: c.env.current_module,
                        },
                    ),
                    ..c.env
                },
                ..c
            },
            e.name@,
            e.methods@,
            e.trait_impls@,
            e.span,
        )
    }
}

// ── Traits ───────────────────────────────────────────────────────────

/// The first `n` methods of a trait; `own` are its type parameters.
pub open spec fn trait_methods_resolved_n(
    env: EnvV,
    st: StateV,
    own: Seq<Chars>,
    ms: Seq<TraitMethodDecl>,
    n: int,
) -> (StateV, Seq<TraitMethodInfoV>)
    decreases n,
{
    if n <= 0 || n > ms.len() {
        (st, Seq::empty())
    } else {
        let (s1, rest) = trait_methods_resolved_n(env, st, own, ms, n - 1);
        let m = ms[n - 1];
        let (s2, sig) = signature_resolved(env, s1, own, m.params@, m.return_type);
        (
            s2,
            rest.push(
                TraitMethodInfoV { name: m.name@, params: sig.params, return_type: sig.ret },
            ),
        )
    }
}

pub open spec fn trait_registered(c: CheckerV, t: TraitDecl) -> CheckerV {
    let key = qualified(c.env.current_module, t.name@);
    let existing = match find(c.env.traits, key) {
        Some(i) => Some(i.definition_span),
        None => None,
    };
    if c.env.builtin_local_names.contains(t.name@) {
        c.error(reserved_message(t.name@, "a trait name"@), t.span)
    } else if taken(existing, t.name_span) {
        c.error(redefinition("trait"@, t.name@), t.span)
    } else {
        let own = t.type_params.deep_view();
        let (s1, methods) = trait_methods_resolved_n(
            c.env,
            c.st,
            own,
            t.methods@,
            t.methods@.len() as int,
        );
        CheckerV {
            st: s1,
            env: EnvV {
                traits: put(
                    c.env.traits,
                    key,
                    TraitInfoV {
                        definition_span: t.name_span,
                        type_params: own,
                        methods,
                        object_safety_error: obstacle_from(methods, 0),
                        visibility: t.visibility,
                        def_module: c.env.current_module,
                    },
                ),
                ..c.env
            },
            ..c
        }
    }
}

// ── Type aliases ─────────────────────────────────────────────────────

/// A bound on how many names can stand for a type alias.
pub open spec fn alias_names(env: EnvV) -> nat {
    let visible = match find(env.module_scopes, env.current_module) {
        Some(scope) => scope.visible_symbols.len(),
        None => 0,
    };
    visible + env.type_aliases.len()
}

/// The bound is never passed: names that stand for a type alias, each of them
/// once, are no more. A search through aliases that remembers what it has seen
/// ends before.
pub proof fn law_alias_search_ends(env: EnvV, names: Seq<Chars>)
    requires
        names.no_duplicates(),
        forall|i: int|
            0 <= i < names.len() ==> named(env, env.type_aliases, #[trigger] names[i]) is Some,
    ensures
        names.len() <= alias_names(env),
{
    let own = match find(env.module_scopes, env.current_module) {
        Some(scope) => keys(scope.visible_symbols),
        None => Seq::empty(),
    };
    let pool = own + keys(env.type_aliases);
    assert forall|i: int| 0 <= i < names.len() implies pool.contains(#[trigger] names[i]) by {
        let name = names[i];
        if visible(env, name) is Some {
            let scope = find(env.module_scopes, env.current_module)->0;
            let k = lemma_found(scope.visible_symbols, name);
            assert(own[k] == name);
            assert(pool[k] == name);
        } else {
            let k = lemma_found(env.type_aliases, name);
            assert(pool[own.len() + k] == name);
        }
    }
    lemma_pigeonhole(names, pool);
}

/// Whether the alias `name` would be reached again from `t`, through the
/// aliases that are known. Names in `visited` have been followed already.
pub open spec fn reaches_alias(env: EnvV, name: Chars, t: Ty, visited: Seq<Chars>) -> bool
    decreases alias_names(env) - visited.len(),
{
    if mentions(t, name) {
        true
    } else {
        match t {
            Ty::Named(n) => if visited.contains(n) || visited.len() >= alias_names(env) {
                false
            } else {
                match named(env, env.type_aliases, n) {
                    Some(alias) => reaches_alias(env, name, alias.target, visited.push(n)),
                    None => false,
                }
            },
            _ => false,
        }
    }
}

pub open spec fn alias_registered(c: CheckerV, ta: TypeAliasDecl) -> CheckerV {
    let key = qualified(c.env.current_module, ta.name@);
    let existing = match find(c.env.type_aliases, key) {
        Some(i) => Some(i.definition_span),
        None => None,
    };
    let itself = match ta.target {
        TypeExpr::Named(x) => x.name@ == ta.name@,
        _ => false,
    };
    if c.env.builtin_local_names.contains(ta.name@) {
        c.error(reserved_message(ta.name@, "a type-alias name"@), ta.span)
    } else if taken(existing, ta.name_span) {
        c.error(redefinition("type alias"@, ta.name@), ta.span)
    } else if itself {
        c.error("type alias `"@ + ta.name@ + "` refers to itself"@, ta.span)
    } else {
        let own = ta.type_params.deep_view();
        let (s1, target) = resolved(c.env, StateV { type_params: own, ..c.st }, ta.target);
        let c1 = CheckerV { st: StateV { type_params: c.st.type_params, ..s1 }, ..c };
        if reaches_alias(c.env, ta.name@, target, Seq::empty()) {
            c1.error("type alias cycle detected involving `"@ + ta.name@ + "`"@, ta.span)
        } else {
            CheckerV {
                env: EnvV {
                    type_aliases: put(
                        c.env.type_aliases,
                        key,
                        TypeAliasInfoV {
                            definition_span: ta.name_span,
                            type_params: own,
                            target,
                            visibility: ta.visibility,
                            def_module: c.env.current_module,
                        },
                    ),
                    ..c.env
                },
                ..c1
            }
        }
    }
}

// ── All declarations ─────────────────────────────────────────────────

/// One declaration. Endpoints wait until everything is known.
pub open spec fn decl_registered(c: CheckerV, d: Declaration) -> CheckerV {
    match d {
        Declaration::Function(f) => function_registered(c, f),
        Declaration::Struct(s) => struct_registered(c, s),
        Declaration::Enum(e) => enum_registered(c, e),
        Declaration::Impl(i) => impl_registered(
            c,
            i.for_type@,
            i.trait_name.deep_view(),
            i.methods@,
            i.span,
        ),
        Declaration::Trait(t) => trait_registered(c, t),
        Declaration::TypeAlias(ta) => alias_registered(c, ta),
        Declaration::Endpoint(_) | Declaration::Schema(_) | Declaration::Import(_) => c,
    }
}

/// The first `n` declarations of the current module.
pub open spec fn decls_registered_n(c: CheckerV, ds: Seq<Declaration>, n: int) -> CheckerV
    decreases n,
{
    if n <= 0 || n > ds.len() {
        c
    } else {
        decl_registered(decls_registered_n(c, ds, n - 1), ds[n - 1])
    }
}

impl State {
    fn check_constraint(&mut self, env: &Env<'_>, f: &FieldDecl, t: &Type)
        ensures
            final(self)@ == constraint_checked(env@, old(self)@, *f, t@),
    {
        if let Some(e) = &f.constraint {
            self.enter();
            self.define_fixed("self".to_owned(), t.dup(), f.span);
            let outer = self.set_in_constraint(true);
            let got = self.check_expr(env, e);
            let _ = self.set_in_constraint(outer);
            self.leave();
            if !got.is_bool() && !got.is_error() {
                self.error(
                    cat5(
                        "constraint on field `",
                        &f.name,
                        "` must evaluate to Bool, got `",
                        &got.text(),
                        "`",
                    ),
                    f.span,
                );
            }
        }
    }

    fn register_field<'a>(&mut self, env: &Env<'_>, f: &'a FieldDecl) -> (r: FieldInfo<'a>)
        ensures
            (final(self)@, r.deep_view()) == field_registered(env@, old(self)@, *f),
    {
        self.validate_annotations(&f.annotations, AnnotationTarget::Field);
        let outer = self.is_file_field_allowed();
        let bearing = self.is_file_bearing_struct_allowed();
        self.set_files(true, bearing);
        let ty = self.resolve_type_expr(env, &f.type_annotation);
        let bearing_after = self.is_file_bearing_struct_allowed();
        self.set_files(outer, bearing_after);
        self.check_constraint(env, f, &ty);
        FieldInfo {
            name: f.name.clone(),
            ty,
            constraint: f.constraint.as_ref(),
            definition_span: f.span,
            visibility: f.visibility,
        }
    }

    fn register_fields<'a>(&mut self, env: &Env<'_>, fs: &'a Vec<FieldDecl>) -> (r: Vec<
        FieldInfo<'a>,
    >)
        ensures
            (final(self)@, r.deep_view()) == fields_registered_n(
                env@,
                old(self)@,
                fs@,
                fs@.len() as int,
            ),
    {
        let mut out: Vec<FieldInfo<'a>> = Vec::new();
        assert(out.deep_view() =~= Seq::<FieldInfoV>::empty());
        let mut i: usize = 0;
        while i < fs.len()
            invariant
                i <= fs.len(),
                (self@, out.deep_view()) == fields_registered_n(env@, old(self)@, fs@, i as int),
            decreases fs.len() - i,
        {
            let f = self.register_field(env, &fs[i]);
            push_view(&mut out, f);
            i += 1;
        }
        out
    }

    fn register_variants(&mut self, env: &Env<'_>, vs: &Vec<EnumVariant>) -> (r: Vec<
        (String, Vec<Type>),
    >)
        ensures
            (final(self)@, r.deep_view()) == variants_registered_n(
                env@,
                old(self)@,
                vs@,
                vs@.len() as int,
            ),
    {
        let mut out: Vec<(String, Vec<Type>)> = Vec::new();
        assert(out.deep_view() =~= Seq::<(Chars, Seq<Ty>)>::empty());
        let mut i: usize = 0;
        while i < vs.len()
            invariant
                i <= vs.len(),
                (self@, out.deep_view()) == variants_registered_n(
                    env@,
                    old(self)@,
                    vs@,
                    i as int,
                ),
            decreases vs.len() - i,
        {
            let ts = self.resolve_type_exprs(env, &vs[i].fields);
            push_view(&mut out, (vs[i].name.clone(), ts));
            i += 1;
        }
        out
    }

    fn resolve_trait_methods(
        &mut self,
        env: &Env<'_>,
        own: &Vec<String>,
        ms: &Vec<TraitMethodDecl>,
    ) -> (r: Vec<TraitMethodInfo>)
        ensures
            (final(self)@, r.deep_view()) == trait_methods_resolved_n(
                env@,
                old(self)@,
                own.deep_view(),
                ms@,
                ms@.len() as int,
            ),
    {
        let mut out: Vec<TraitMethodInfo> = Vec::new();
        assert(out.deep_view() =~= Seq::<TraitMethodInfoV>::empty());
        let mut i: usize = 0;
        while i < ms.len()
            invariant
                i <= ms.len(),
                (self@, out.deep_view()) == trait_methods_resolved_n(
                    env@,
                    old(self)@,
                    own.deep_view(),
                    ms@,
                    i as int,
                ),
            decreases ms.len() - i,
        {
            let m = &ms[i];
            let sig = self.resolve_signature(env, own.dup(), &m.params, &m.return_type);
            push_view(
                &mut out,
                TraitMethodInfo {
                    name: m.name.clone(),
                    params: sig.params,
                    return_type: sig.ret,
                },
            );
            i += 1;
        }
        out
    }
}

fn is_restated_variant(v: &EnumVariant, b: &(String, Vec<Type>)) -> (r: bool)
    ensures
        r == restates_variant(*v, b.deep_view()),
{
    if v.name != b.0 || v.fields.len() != b.1.len() {
        return false;
    }
    let mut j: usize = 0;
    while j < b.1.len()
        invariant
            j <= b.1.len(),
            v.fields@.len() == b.1.len(),
            forall|q: int|
                0 <= q < j ==> names_param(#[trigger] v.fields@[q], b.deep_view().1[q]),
        decreases b.1.len() - j,
    {
        let same = match (&v.fields[j], &b.1[j]) {
            (TypeExpr::Named(x), Type::TypeVar(p)) => x.name == *p,
            _ => false,
        };
        assert(same == names_param(v.fields@[j as int], b.deep_view().1[j as int]));
        if !same {
            return false;
        }
        j += 1;
    }
    true
}

fn same_names(a: &Vec<String>, b: &Vec<String>) -> (r: bool)
    ensures
        r == (a.deep_view() == b.deep_view()),
{
    if a.len() != b.len() {
        assert(a.deep_view().len() != b.deep_view().len());
        return false;
    }
    let mut i: usize = 0;
    while i < a.len()
        invariant
            i <= a.len(),
            a.len() == b.len(),
            forall|j: int| 0 <= j < i ==> a.deep_view()[j] == b.deep_view()[j],
        decreases a.len() - i,
    {
        if a[i] != b[i] {
            assert(a.deep_view()[i as int] != b.deep_view()[i as int]);
            return false;
        }
        i += 1;
    }
    assert(a.deep_view() =~= b.deep_view());
    true
}

impl<'a> Env<'a> {
    fn is_restated(&self, e: &EnumDecl) -> (r: bool)
        ensures
            r == restates(self@, *e),
    {
        match self.enums.get(&e.name) {
            Some(b) => {
                if e.methods.len() != 0 || e.trait_impls.len() != 0 || e.variants.len()
                    != b.variants.len() || !same_names(&e.type_params, &b.type_params) {
                    return false;
                }
                let mut i: usize = 0;
                while i < b.variants.len()
                    invariant
                        i <= b.variants.len(),
                        find(self@.enums, e.name@) == Some(b.deep_view()),
                        e.variants@.len() == b.variants.len(),
                        forall|q: int|
                            0 <= q < i ==> restates_variant(
                                #[trigger] e.variants@[q],
                                b.deep_view().variants[q],
                            ),
                    decreases b.variants.len() - i,
                {
                    assert(b.deep_view().variants[i as int] == b.variants[i as int].deep_view());
                    if !is_restated_variant(&e.variants[i], &b.variants[i]) {
                        assert(!restates_variant(
                            e.variants@[i as int],
                            b.deep_view().variants[i as int],
                        ));
                        return false;
                    }
                    i += 1;
                }
                true
            },
            None => false,
        }
    }

    fn aliases_exhausted(&self, n: usize) -> (r: bool)
        ensures
            r == (n >= alias_names(self@)),
    {
        let visible: usize = match self.module_scopes.get(&self.current_module) {
            Some(scope) => scope.visible_symbols.len(),
            None => 0,
        };
        n as u128 >= visible as u128 + self.type_aliases.len() as u128
    }

    fn type_alias_creates_cycle(&self, name: &String, t: &Type, visited: &mut Vec<String>) -> (r: bool)
        ensures
            r == reaches_alias(self@, name@, t@, old(visited).deep_view()),
        decreases alias_names(self@) - old(visited).deep_view().len(),
    {
        if type_mentions(t, name) {
            return true;
        }
        if let Type::Named(n) = t {
            if names_contain(visited, n) || self.aliases_exhausted(visited.len()) {
                return false;
            }
            if let Some(alias) = self.alias_of(n) {
                push_view(visited, n.clone());
                return self.type_alias_creates_cycle(name, &alias.target, visited);
            }
        }
        false
    }
}

impl<'a> Checker<'a> {
    /// Reports a declaration with the name of a builtin.
    fn reject_builtin_name_shadow(&mut self, name: &String, kind: &str, span: Span) -> (r: bool)
        ensures
            r == old(self)@.env.builtin_local_names.contains(name@),
            final(self)@ == if r {
                old(self)@.error(reserved_message(name@, kind@), span)
            } else {
                old(self)@
            },
    {
        if !self.env.is_builtin_name(name) {
            return false;
        }
        self.state.error(
            cat4(
                "`",
                name,
                "` is a reserved builtin name and cannot be used as ",
                kind,
            ),
            span,
        );
        true
    }

    fn report_redefinition(&mut self, kind: &str, name: &String, span: Span)
        ensures
            final(self)@ == old(self)@.error(redefinition(kind@, name@), span),
    {
        self.state.error(cat4(kind, " `", name, "` is already defined"), span);
    }

    /// Registers a function.
    pub fn register_function(&mut self, f: &'a FunctionDecl)
        ensures
            final(self)@ == function_registered(old(self)@, *f),
    {
        if self.reject_builtin_name_shadow(&f.name, "a function name", f.span) {
            return;
        }
        let key = module_qualify(&self.env.current_module, &f.name);
        if self.env.functions.has(&key) {
            self.report_redefinition("function", &f.name, f.span);
            return;
        }
        let id = match self.env.pending_function_ids.get(&key) {
            Some(id) => *id,
            None => {
                return;
            },
        };
        self.state.validate_annotations(&f.annotations, AnnotationTarget::Function);
        let sig = self.state.resolve_signature(
            &self.env,
            f.type_params.dup(),
            &f.params,
            &f.return_type,
        );
        self.state.refer(f.name_span, SymbolKind::Function, f.name.clone());
        let wrapper = compute_default_needs_wrapper(&sig.defaults, f.type_params.len() > 0);
        let info = FunctionInfo {
            func_id: id,
            definition_span: f.name_span,
            type_params: f.type_params.dup(),
            type_param_bounds: f.type_param_bounds.dup(),
            params: sig.params,
            param_names: sig.names,
            default_param_exprs: sig.defaults,
            default_needs_wrapper: wrapper,
            return_type: sig.ret,
            visibility: f.visibility,
            def_module: self.env.current_module.dup(),
        };
        self.env.functions.put(key, info);
    }

    /// Registers a struct with the methods inside it.
    pub fn register_struct(&mut self, s: &'a StructDecl)
        ensures
            final(self)@ == struct_registered(old(self)@, *s),
    {
        if self.reject_builtin_name_shadow(&s.name, "a struct name", s.span) {
            return;
        }
        let key = module_qualify(&self.env.current_module, &s.name);
        let duplicate = match self.env.structs.get(&key) {
            Some(info) => info.definition_span != s.name_span,
            None => false,
        };
        if duplicate {
            self.report_redefinition("struct", &s.name, s.span);
            self.consume_orphan_inline_methods(&s.name, &s.methods, &s.trait_impls, s.span);
            return;
        }
        self.state.validate_annotations(&s.annotations, AnnotationTarget::Struct);
        let outer = self.state.set_type_params(s.type_params.dup());
        let fields = self.state.register_fields(&self.env, &s.fields);
        let _ = self.state.set_type_params(outer);
        self.state.refer(s.name_span, SymbolKind::Struct, s.name.clone());
        let info = StructInfo {
            definition_span: s.name_span,
            type_params: s.type_params.dup(),
            fields,
            is_file_bearing: any_declares_file(&s.fields),
            visibility: s.visibility,
            def_module: self.env.current_module.dup(),
        };
        self.env.structs.put(key, info);
        self.register_inline_methods(&s.name, &s.methods, &s.trait_impls, s.span);
    }

    /// Registers an enum with the methods inside it.
    pub fn register_enum(&mut self, e: &'a EnumDecl)
        ensures
            final(self)@ == enum_registered(old(self)@, *e),
    {
        if self.env.is_builtin_name(&e.name) && self.env.is_restated(e) {
            return;
        }
        if self.reject_builtin_name_shadow(&e.name, "an enum name", e.span) {
            return;
        }
        let key = module_qualify(&self.env.current_module, &e.name);
        let duplicate = match self.env.enums.get(&key) {
            Some(info) => info.definition_span != e.name_span,
            None => false,
        };
        if duplicate {
            self.report_redefinition("enum", &e.name, e.span);
            self.consume_orphan_inline_methods(&e.name, &e.methods, &e.trait_impls, e.span);
            return;
        }
        self.state.validate_annotations(&e.annotations, AnnotationTarget::Enum);
        let outer = self.state.set_type_params(e.type_params.dup());
        let variants = self.state.register_variants(&self.env, &e.variants);
        let _ = self.state.set_type_params(outer);
        self.state.refer(e.name_span, SymbolKind::Enum, e.name.clone());
        let info = EnumInfo {
            definition_span: e.name_span,
            type_params: e.type_params.dup(),
            variants,
            visibility: e.visibility,
            def_module: self.env.current_module.dup(),
        };
        self.env.enums.put(key, info);
        self.register_inline_methods(&e.name, &e.methods, &e.trait_impls, e.span);
    }

    /// Registers a trait.
    pub fn register_trait(&mut self, t: &'a TraitDecl)
        ensures
            final(self)@ == trait_registered(old(self)@, *t),
    {
        if self.reject_builtin_name_shadow(&t.name, "a trait name", t.span) {
            return;
        }
        let key = module_qualify(&self.env.current_module, &t.name);
        let duplicate = match self.env.traits.get(&key) {
            Some(info) => info.definition_span != t.name_span,
            None => false,
        };
        if duplicate {
            self.report_redefinition("trait", &t.name, t.span);
            return;
        }
        let methods = self.state.resolve_trait_methods(&self.env, &t.type_params, &t.methods);
        let object_safety_error = validate(&methods);
        let info = TraitInfo {
            definition_span: t.name_span,
            type_params: t.type_params.dup(),
            methods,
            object_safety_error,
            visibility: t.visibility,
            def_module: self.env.current_module.dup(),
        };
        self.env.traits.put(key, info);
    }

    /// Registers a type alias.
    pub fn register_type_alias(&mut self, ta: &'a TypeAliasDecl)
        ensures
            final(self)@ == alias_registered(old(self)@, *ta),
    {
        if self.reject_builtin_name_shadow(&ta.name, "a type-alias name", ta.span) {
            return;
        }
        let key = module_qualify(&self.env.current_module, &ta.name);
        let duplicate = match self.env.type_aliases.get(&key) {
            Some(info) => info.definition_span != ta.name_span,
            None => false,
        };
        if duplicate {
            self.report_redefinition("type alias", &ta.name, ta.span);
            return;
        }
        if let TypeExpr::Named(x) = &ta.target {
            if x.name == ta.name {
                self.state.error(
                    cat3("type alias `", &ta.name, "` refers to itself"),
                    ta.span,
                );
                return;
            }
        }
        let outer = self.state.set_type_params(ta.type_params.dup());
        let target = self.state.resolve_type_expr(&self.env, &ta.target);
        let _ = self.state.set_type_params(outer);
        let mut visited = no_names();
        if self.env.type_alias_creates_cycle(&ta.name, &target, &mut visited) {
            self.state.error(
                cat3("type alias cycle detected involving `", &ta.name, "`"),
                ta.span,
            );
            return;
        }
        let info = TypeAliasInfo {
            definition_span: ta.name_span,
            type_params: ta.type_params.dup(),
            target,
            visibility: ta.visibility,
            def_module: self.env.current_module.dup(),
        };
        self.env.type_aliases.put(key, info);
    }

    /// Registers the declarations of the current module.
    pub fn register_decls(&mut self, ds: &'a Vec<Declaration>)
        ensures
            final(self)@ == decls_registered_n(old(self)@, ds@, ds@.len() as int),
    {
        let mut i: usize = 0;
        while i < ds.len()
            invariant
                i <= ds.len(),
                self@ == decls_registered_n(old(self)@, ds@, i as int),
            decreases ds.len() - i,
        {
            match &ds[i] {
                Declaration::Function(f) => {
                    self.register_function(f);
                },
                Declaration::Struct(s) => {
                    self.register_struct(s);
                },
                Declaration::Enum(e) => {
                    self.register_enum(e);
                },
                Declaration::Impl(x) => {
                    self.register_impl(&x.for_type, &x.trait_name, &x.methods, x.span);
                },
                Declaration::Trait(t) => {
                    self.register_trait(t);
                },
                Declaration::TypeAlias(ta) => {
                    self.register_type_alias(ta);
                },
                _ => {},
            }
            i += 1;
        }
    }
}

} // verus!
