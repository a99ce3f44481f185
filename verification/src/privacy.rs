//! Privacy of fields across modules, and which types JSON can carry.
use crate::ast::Visibility;
use crate::env::{named, visible, Env, EnvV};
use crate::info::{FieldInfo, FieldInfoV, StructInfo, StructInfoV};
use crate::paths::{is_builtin_path, path_text};
use crate::pin::{field_types, types_of_fields};
use crate::span::{Diagnostic, DiagnosticV, Severity, Span};
use crate::state::{State, StateV};
use crate::table::{find, keys, lemma_found, lemma_pigeonhole, Key};
use crate::text::{
    cat2, cat3, cat7, extend_view, join, join_text, names_contain, push_view, same_text, Chars, Dup,
};
use crate::types::{canonical_type_spelling, spelling, Ty, Type};
use vstd::prelude::*;
use vstd::string::*;

verus! {

broadcast use crate::ty::view_of_type;

/// An error about something private, with the place of its declaration and
/// advice.
pub open spec fn private_access(message: Chars, span: Span, declared: Span, advice: Chars) -> DiagnosticV {
    DiagnosticV {
        severity: Severity::Error,
        message,
        span,
        notes: seq![(declared, "declared here"@)],
        suggestion: Some(advice),
    }
}

/// Whether a struct belongs to another module.
pub open spec fn foreign(env: EnvV, info: StructInfoV) -> bool {
    info.def_module != env.current_module && !is_builtin_path(info.def_module)
}

/// A field of another module's struct that is read here.
pub open spec fn read_checked(
    env: EnvV,
    st: StateV,
    info: StructInfoV,
    owner: Chars,
    f: FieldInfoV,
    span: Span,
) -> StateV {
    if foreign(env, info) && f.visibility == Visibility::Private {
        st.diagnose(
            private_access(
                "field `"@ + f.name + "` of struct `"@ + owner + "` is private to module `"@
                    + path_text(info.def_module) + "`"@,
                span,
                f.definition_span,
                "mark `"@ + f.name + "` as `public` in the struct definition to export it"@,
            ),
        )
    } else {
        st
    }
}

/// A field of another module's struct that is assigned here.
pub open spec fn write_checked(
    env: EnvV,
    st: StateV,
    info: StructInfoV,
    owner: Chars,
    f: FieldInfoV,
    span: Span,
) -> StateV {
    if foreign(env, info) && f.visibility == Visibility::Private {
        st.diagnose(
            private_access(
                "field `"@ + f.name + "` of struct `"@ + owner + "` is private to module `"@
                    + path_text(info.def_module)
                    + "` and cannot be set from outside that module"@,
                span,
                f.definition_span,
                "mark `"@ + f.name + "` as `public` in the struct definition to allow assignment"@,
            ),
        )
    } else {
        st
    }
}

/// The private ones of the first `n` fields.
pub open spec fn private_n(fs: Seq<FieldInfoV>, n: int) -> Seq<(Chars, Span)>
    decreases n,
{
    if n <= 0 {
        Seq::empty()
    } else if fs[n - 1].visibility == Visibility::Private {
        private_n(fs, n - 1).push((fs[n - 1].name, fs[n - 1].definition_span))
    } else {
        private_n(fs, n - 1)
    }
}

pub open spec fn private_fields(info: StructInfoV) -> Seq<(Chars, Span)> {
    private_n(info.fields, info.fields.len() as int)
}

/// The first `n` names, each in backquotes.
pub open spec fn quoted_n(fs: Seq<(Chars, Span)>, n: int) -> Seq<Chars>
    decreases n,
{
    if n <= 0 {
        Seq::empty()
    } else {
        quoted_n(fs, n - 1).push("`"@ + fs[n - 1].0 + "`"@)
    }
}

pub open spec fn quoted_list(fs: Seq<(Chars, Span)>) -> Chars {
    join(quoted_n(fs, fs.len() as int), ", "@)
}

/// A note for each of the first `n` fields.
pub open spec fn declared_notes_n(fs: Seq<(Chars, Span)>, n: int) -> Seq<(Span, Chars)>
    decreases n,
{
    if n <= 0 {
        Seq::empty()
    } else {
        declared_notes_n(fs, n - 1).push((fs[n - 1].1, "declared here"@))
    }
}

pub open spec fn noun(n: nat) -> Chars {
    if n == 1 {
        "field"@
    } else {
        "fields"@
    }
}

pub open spec fn verb(n: nat) -> Chars {
    if n == 1 {
        "is"@
    } else {
        "are"@
    }
}

/// A struct of another module that is constructed here: one error names all
/// of its private fields.
pub open spec fn construction_checked(
    env: EnvV,
    st: StateV,
    info: StructInfoV,
    owner: Chars,
    span: Span,
) -> StateV {
    let fs = private_fields(info);
    if foreign(env, info) && fs.len() > 0 {
        st.diagnose(
            DiagnosticV {
                severity: Severity::Error,
                message: noun(fs.len()) + " "@ + quoted_list(fs) + " of struct `"@ + owner + "` "@
                    + verb(fs.len()) + " private to module `"@ + path_text(info.def_module)
                    + "` and cannot be set from outside that module"@,
                span,
                notes: declared_notes_n(fs, fs.len() as int),
                suggestion: Some(
                    "mark "@ + quoted_list(fs)
                        + " as `public` in the struct definition to allow construction"@,
                ),
            },
        )
    } else {
        st
    }
}

fn quoted_texts(fs: &Vec<(String, Span)>) -> (r: String)
    ensures
        r@ == quoted_list(fs.deep_view()),
{
    let mut out: Vec<String> = Vec::new();
    assert(out.deep_view() =~= Seq::<Chars>::empty());
    let mut i: usize = 0;
    while i < fs.len()
        invariant
            i <= fs.len(),
            out.deep_view() == quoted_n(fs.deep_view(), i as int),
        decreases fs.len() - i,
    {
        push_view(&mut out, cat3("`", &fs[i].0, "`"));
        i += 1;
    }
    join_text(&out, ", ")
}

fn declared_notes(fs: &Vec<(String, Span)>) -> (r: Vec<(Span, String)>)
    ensures
        r.deep_view() == declared_notes_n(fs.deep_view(), fs.deep_view().len() as int),
{
    let mut out: Vec<(Span, String)> = Vec::new();
    assert(out.deep_view() =~= Seq::<(Span, Chars)>::empty());
    let mut i: usize = 0;
    while i < fs.len()
        invariant
            i <= fs.len(),
            out.deep_view() == declared_notes_n(fs.deep_view(), i as int),
        decreases fs.len() - i,
    {
        push_view(&mut out, (fs[i].1, "declared here".to_owned()));
        i += 1;
    }
    out
}

fn collect_private(info: &StructInfo<'_>) -> (r: Vec<(String, Span)>)
    ensures
        r.deep_view() == private_fields(info.deep_view()),
{
    let mut out: Vec<(String, Span)> = Vec::new();
    assert(out.deep_view() =~= Seq::<(Chars, Span)>::empty());
    let mut i: usize = 0;
    while i < info.fields.len()
        invariant
            i <= info.fields.len(),
            out.deep_view() == private_n(info.deep_view().fields, i as int),
        decreases info.fields.len() - i,
    {
        if info.fields[i].visibility == Visibility::Private {
            push_view(&mut out, (info.fields[i].name.clone(), info.fields[i].definition_span));
        }
        i += 1;
    }
    out
}

impl<'a> Env<'a> {
    pub fn is_foreign(&self, info: &StructInfo<'_>) -> (r: bool)
        ensures
            r == foreign(self@, info.deep_view()),
    {
        !info.def_module.same(&self.current_module) && !info.def_module.is_builtin()
    }
}

impl State {
    pub fn emit_private_access_diagnostic(
        &mut self,
        message: String,
        span: Span,
        declared: Span,
        advice: String,
    )
        ensures
            final(self)@ == old(self)@.diagnose(
                private_access(message@, span, declared, advice@),
            ),
    {
        let mut notes: Vec<(Span, String)> = Vec::new();
        notes.push((declared, "declared here".to_owned()));
        assert(notes.deep_view() =~= seq![(declared, "declared here"@)]);
        self.diagnose(
            Diagnostic {
                severity: Severity::Error,
                message,
                span,
                notes,
                suggestion: Some(advice),
            },
        );
    }

    pub fn enforce_cross_module_field_read_privacy(
        &mut self,
        env: &Env<'_>,
        info: &StructInfo<'_>,
        owner: &String,
        f: &FieldInfo<'_>,
        span: Span,
    )
        ensures
            final(self)@ == read_checked(
                env@,
                old(self)@,
                info.deep_view(),
                owner@,
                f.deep_view(),
                span,
            ),
    {
        if env.is_foreign(info) && f.visibility == Visibility::Private {
            self.emit_private_access_diagnostic(
                cat7(
                    "field `",
                    &f.name,
                    "` of struct `",
                    owner,
                    "` is private to module `",
                    &info.def_module.text(),
                    "`",
                ),
                span,
                f.definition_span,
                cat3(
                    "mark `",
                    &f.name,
                    "` as `public` in the struct definition to export it",
                ),
            );
        }
    }

    pub fn enforce_cross_module_field_write_privacy(
        &mut self,
        env: &Env<'_>,
        info: &StructInfo<'_>,
        owner: &String,
        f: &FieldInfo<'_>,
        span: Span,
    )
        ensures
            final(self)@ == write_checked(
                env@,
                old(self)@,
                info.deep_view(),
                owner@,
                f.deep_view(),
                span,
            ),
    {
        if env.is_foreign(info) && f.visibility == Visibility::Private {
            self.emit_private_access_diagnostic(
                cat7(
                    "field `",
                    &f.name,
                    "` of struct `",
                    owner,
                    "` is private to module `",
                    &info.def_module.text(),
                    "` and cannot be set from outside that module",
                ),
                span,
                f.definition_span,
                cat3(
                    "mark `",
                    &f.name,
                    "` as `public` in the struct definition to allow assignment",
                ),
            );
        }
    }

    pub fn enforce_cross_module_construction_privacy(
        &mut self,
        env: &Env<'_>,
        info: &StructInfo<'_>,
        owner: &String,
        span: Span,
    )
        ensures
            final(self)@ == construction_checked(
                env@,
                old(self)@,
                info.deep_view(),
                owner@,
                span,
            ),
    {
        if !env.is_foreign(info) {
            return;
        }
        let fs = collect_private(info);
        if fs.len() == 0 {
            return;
        }
        let (noun, verb) = if fs.len() == 1 {
            ("field", "is")
        } else {
            ("fields", "are")
        };
        let list = quoted_texts(&fs);
        self.diagnose(
            Diagnostic {
                severity: Severity::Error,
                message: crate::text::cat9(
                    noun,
                    " ",
                    &list,
                    " of struct `",
                    owner,
                    "` ",
                    verb,
                    " private to module `",
                    &cat2(
                        &info.def_module.text(),
                        "` and cannot be set from outside that module",
                    ),
                ),
                span,
                notes: declared_notes(&fs),
                suggestion: Some(
                    cat3(
                        "mark ",
                        &list,
                        " as `public` in the struct definition to allow construction",
                    ),
                ),
            },
        );
        proof {
            let d = path_text(info.def_module@);
            let t = "` and cannot be set from outside that module"@;
            let h = noun@ + " "@ + list@ + " of struct `"@ + owner@ + "` "@ + verb@
                + " private to module `"@;
            assert(h + (d + t) =~= h + d + t);
        }
    }
}

// ── JSON ─────────────────────────────────────────────────────────────

/// The field types of all of the first `n` variants.
pub open spec fn payloads_n(variants: Seq<(Chars, Seq<Ty>)>, n: int) -> Seq<Ty>
    decreases n,
{
    if n <= 0 {
        Seq::empty()
    } else {
        payloads_n(variants, n - 1) + variants[n - 1].1
    }
}

pub open spec fn payloads(variants: Seq<(Chars, Seq<Ty>)>) -> Seq<Ty> {
    payloads_n(variants, variants.len() as int)
}

pub fn payload_types(variants: &Vec<(String, Vec<Type>)>) -> (r: Vec<Type>)
    ensures
        r.deep_view() == payloads(variants.deep_view()),
{
    let mut out: Vec<Type> = Vec::new();
    assert(out.deep_view() =~= Seq::<Ty>::empty());
    let mut i: usize = 0;
    while i < variants.len()
        invariant
            i <= variants.len(),
            out.deep_view() == payloads_n(variants.deep_view(), i as int),
        decreases variants.len() - i,
    {
        extend_view(&mut out, &variants[i].1);
        i += 1;
    }
    out
}

/// More than the names that can stand for a struct or an enum.
pub open spec fn nameable(env: EnvV) -> nat {
    let visible = match find(env.module_scopes, env.current_module) {
        Some(scope) => scope.visible_symbols.len(),
        None => 0,
    };
    visible + env.structs.len() + env.enums.len() + 1
}

/// The bound is never met: names that stand for a type, each of them once, are
/// fewer. A search through types that remembers what it has seen ends before.
pub proof fn law_type_search_ends(env: EnvV, names: Seq<Chars>)
    requires
        names.no_duplicates(),
        forall|i: int|
            0 <= i < names.len() ==> named(env, env.structs, #[trigger] names[i]) is Some || named(
                env,
                env.enums,
                names[i],
            ) is Some,
    ensures
        names.len() < nameable(env),
{
    let own = match find(env.module_scopes, env.current_module) {
        Some(scope) => keys(scope.visible_symbols),
        None => Seq::empty(),
    };
    let pool = own + (keys(env.structs) + keys(env.enums));
    assert forall|i: int| 0 <= i < names.len() implies pool.contains(#[trigger] names[i]) by {
        let name = names[i];
        if visible(env, name) is Some {
            let scope = find(env.module_scopes, env.current_module)->0;
            let k = lemma_found(scope.visible_symbols, name);
            assert(own[k] == name);
            assert(pool[k] == name);
        } else if named(env, env.structs, name) is Some {
            let k = lemma_found(env.structs, name);
            assert(pool[own.len() + k] == name);
        } else {
            let k = lemma_found(env.enums, name);
            assert(pool[own.len() + env.structs.len() + k] == name);
        }
    }
    lemma_pigeonhole(names, pool);
}

/// The spelling of the first type reachable from `t` that JSON cannot carry.
/// Types in `visiting` are being looked at already.
pub open spec fn not_json(env: EnvV, t: Ty, visiting: Seq<Chars>) -> Option<Chars>
    decreases nameable(env) - visiting.len(), t, 1int,
{
    match t {
        Ty::Int | Ty::Float | Ty::Bool | Ty::Str => None,
        Ty::Generic(n, args) => if (n == "Option"@ || n == "List"@) && args.len() == 1 {
            not_json(env, args[0], visiting)
        } else if n == "Map"@ && args.len() == 2 && args[0] == Ty::Str {
            not_json(env, args[1], visiting)
        } else {
            Some(spelling(t))
        },
        Ty::Named(n) => if visiting.contains(n) || visiting.len() >= nameable(env) {
            None
        } else {
            match named(env, env.structs, n) {
                Some(info) => if info.type_params.len() > 0 {
                    Some(n)
                } else {
                    not_json_from(env, field_types(info.fields), visiting.push(n), 0)
                },
                None => match named(env, env.enums, n) {
                    Some(info) => if info.type_params.len() > 0 {
                        Some(n)
                    } else {
                        not_json_from(env, payloads(info.variants), visiting.push(n), 0)
                    },
                    None => Some(n),
                },
            }
        },
        _ => Some(spelling(t)),
    }
}

/// The same for the types from `i` on.
pub open spec fn not_json_from(env: EnvV, ts: Seq<Ty>, visiting: Seq<Chars>, i: int) -> Option<
    Chars,
>
    decreases nameable(env) - visiting.len(), ts, ts.len() - i,
{
    if i < 0 || i >= ts.len() {
        None
    } else {
        match not_json(env, ts[i], visiting) {
            Some(s) => Some(s),
            None => not_json_from(env, ts, visiting, i + 1),
        }
    }
}

/// The error about a struct whose private fields JSON would reach.
pub open spec fn json_privacy_error(
    op: Chars,
    module: Seq<Chars>,
    fs: Seq<(Chars, Span)>,
    owner: Chars,
    span: Span,
) -> DiagnosticV {
    let action = if op == "json.decode"@ {
        "construct"@
    } else {
        "serialize"@
    };
    DiagnosticV {
        severity: Severity::Error,
        message: "`"@ + op + "` cannot "@ + action + " struct `"@ + owner + "` here: "@ + (noun(
            fs.len(),
        ) + " "@ + quoted_list(fs) + " "@ + verb(fs.len()) + " private to module `"@ + path_text(
            module,
        )) + "`"@,
        span,
        notes: declared_notes_n(fs, fs.len() as int),
        suggestion: Some(
            "mark "@ + quoted_list(fs)
                + " as `public` in the struct definition, or move this `"@ + op
                + "` call into module `"@ + path_text(module) + "`"@,
        ),
    }
}

/// Looks for a struct of another module with private fields that is reachable
/// from `t`; the first one is reported.
pub open spec fn json_private(
    env: EnvV,
    st: StateV,
    op: Chars,
    t: Ty,
    span: Span,
    visiting: Seq<Chars>,
) -> (StateV, bool)
    decreases nameable(env) - visiting.len(), t, 1int,
{
    match t {
        Ty::Generic(_, args) => json_private_from(env, st, op, args, span, visiting, 0),
        Ty::Named(n) => if visiting.contains(n) || visiting.len() >= nameable(env) {
            (st, false)
        } else {
            match named(env, env.structs, n) {
                Some(info) => if foreign(env, info) && private_fields(info).len() > 0 {
                    (
                        st.diagnose(
                            json_privacy_error(op, info.def_module, private_fields(info), n, span),
                        ),
                        true,
                    )
                } else {
                    json_private_from(
                        env,
                        st,
                        op,
                        field_types(info.fields),
                        span,
                        visiting.push(n),
                        0,
                    )
                },
                None => match named(env, env.enums, n) {
                    Some(info) => json_private_from(
                        env,
                        st,
                        op,
                        payloads(info.variants),
                        span,
                        visiting.push(n),
                        0,
                    ),
                    None => (st, false),
                },
            }
        },
        _ => (st, false),
    }
}

pub open spec fn json_private_from(
    env: EnvV,
    st: StateV,
    op: Chars,
    ts: Seq<Ty>,
    span: Span,
    visiting: Seq<Chars>,
    i: int,
) -> (StateV, bool)
    decreases nameable(env) - visiting.len(), ts, ts.len() - i,
{
    if i < 0 || i >= ts.len() {
        (st, false)
    } else {
        let (s1, found) = json_private(env, st, op, ts[i], span, visiting);
        if found {
            (s1, true)
        } else {
            json_private_from(env, s1, op, ts, span, visiting, i + 1)
        }
    }
}

fn with_name(visiting: &Vec<String>, n: &String) -> (r: Vec<String>)
    ensures
        r.deep_view() == visiting.deep_view().push(n@),
{
    let mut v = visiting.dup();
    push_view(&mut v, n.clone());
    v
}

impl<'a> Env<'a> {
    fn exhausted(&self, n: usize) -> (r: bool)
        ensures
            r == (n >= nameable(self@)),
    {
        let visible: usize = match self.module_scopes.get(&self.current_module) {
            Some(scope) => scope.visible_symbols.len(),
            None => 0,
        };
        n as u128 > visible as u128 + self.structs.len() as u128 + self.enums.len() as u128
    }

    /// The spelling of the first type reachable from `t` that JSON cannot
    /// carry.
    pub fn unsupported_json_type(&self, t: &Type, visiting: &Vec<String>) -> (r: Option<String>)
        ensures
            r.deep_view() == not_json(self@, t@, visiting.deep_view()),
        decreases nameable(self@) - visiting.deep_view().len(), t, 1int,
    {
        match t {
            Type::Int | Type::Float | Type::Bool | Type::String => None,
            Type::Generic(n, args) => if (same_text(n, "Option") || same_text(n, "List"))
                && args.len() == 1 {
                self.unsupported_json_type(&args[0], visiting)
            } else if same_text(n, "Map") && args.len() == 2 && args[0].is_string() {
                self.unsupported_json_type(&args[1], visiting)
            } else {
                Some(canonical_type_spelling(t))
            },
            Type::Named(n) => {
                if names_contain(visiting, n) || self.exhausted(visiting.len()) {
                    return None;
                }
                match self.struct_of(n) {
                    Some(info) => if info.type_params.len() > 0 {
                        Some(n.clone())
                    } else {
                        self.first_unsupported_component(
                            &types_of_fields(&info.fields),
                            &with_name(visiting, n),
                        )
                    },
                    None => match self.enum_of(n) {
                        Some(info) => if info.type_params.len() > 0 {
                            Some(n.clone())
                        } else {
                            self.first_unsupported_component(
                                &payload_types(&info.variants),
                                &with_name(visiting, n),
                            )
                        },
                        None => Some(n.clone()),
                    },
                }
            },
            _ => Some(canonical_type_spelling(t)),
        }
    }

    fn first_unsupported_component(&self, ts: &Vec<Type>, visiting: &Vec<String>) -> (r: Option<
        String,
    >)
        ensures
            r.deep_view() == not_json_from(self@, ts.deep_view(), visiting.deep_view(), 0),
        decreases nameable(self@) - visiting.deep_view().len(), ts, 0int,
    {
        let mut i: usize = 0;
        while i < ts.len()
            invariant
                i <= ts.len(),
                not_json_from(self@, ts.deep_view(), visiting.deep_view(), 0) == not_json_from(
                    self@,
                    ts.deep_view(),
                    visiting.deep_view(),
                    i as int,
                ),
            decreases ts.len() - i,
        {
            let r = self.unsupported_json_type(&ts[i], visiting);
            if r.is_some() {
                return r;
            }
            i += 1;
        }
        None
    }
}

impl State {
    fn emit_json_privacy_violation(
        &mut self,
        op: &str,
        info: &StructInfo<'_>,
        fs: &Vec<(String, Span)>,
        owner: &String,
        span: Span,
    )
        ensures
            final(self)@ == old(self)@.diagnose(
                json_privacy_error(op@, info.def_module@, fs.deep_view(), owner@, span),
            ),
    {
        let (noun, verb) = if fs.len() == 1 {
            ("field", "is")
        } else {
            ("fields", "are")
        };
        let action = if same_text(op, "json.decode") {
            "construct"
        } else {
            "serialize"
        };
        let list = quoted_texts(fs);
        let module = info.def_module.text();
        let which = cat7(noun, " ", &list, " ", verb, " private to module `", &module);
        self.diagnose(
            Diagnostic {
                severity: Severity::Error,
                message: crate::text::cat9(
                    "`",
                    op,
                    "` cannot ",
                    action,
                    " struct `",
                    owner,
                    "` here: ",
                    &which,
                    "`",
                ),
                span,
                notes: declared_notes(fs),
                suggestion: Some(
                    cat7(
                        "mark ",
                        &list,
                        " as `public` in the struct definition, or move this `",
                        op,
                        "` call into module `",
                        &module,
                        "`",
                    ),
                ),
            },
        );
    }

    /// Reports the first struct reachable from `t` whose private fields `op`
    /// would read or set from here.
    pub fn json_field_privacy_violation(
        &mut self,
        env: &Env<'_>,
        op: &str,
        t: &Type,
        span: Span,
    ) -> (r: bool)
        ensures
            (final(self)@, r) == json_private(
                env@,
                old(self)@,
                op@,
                t@,
                span,
                Seq::<Chars>::empty(),
            ),
    {
        let none: Vec<String> = Vec::new();
        assert(none.deep_view() =~= Seq::<Chars>::empty());
        self.json_privacy_walk(env, op, t, span, &none)
    }

    fn json_privacy_walk(
        &mut self,
        env: &Env<'_>,
        op: &str,
        t: &Type,
        span: Span,
        visiting: &Vec<String>,
    ) -> (r: bool)
        ensures
            (final(self)@, r) == json_private(
                env@,
                old(self)@,
                op@,
                t@,
                span,
                visiting.deep_view(),
            ),
        decreases nameable(env@) - visiting.deep_view().len(), t, 1int,
    {
        match t {
            Type::Generic(_, args) => self.json_privacy_any(env, op, args, span, visiting),
            Type::Named(n) => {
                if names_contain(visiting, n) || env.exhausted(visiting.len()) {
                    return false;
                }
                match env.struct_of(n) {
                    Some(info) => {
                        let fs = collect_private(info);
                        if env.is_foreign(info) && fs.len() > 0 {
                            self.emit_json_privacy_violation(op, info, &fs, n, span);
                            true
                        } else {
                            self.json_privacy_any(
                                env,
                                op,
                                &types_of_fields(&info.fields),
                                span,
                                &with_name(visiting, n),
                            )
                        }
                    },
                    None => match env.enum_of(n) {
                        Some(info) => self.json_privacy_any(
                            env,
                            op,
                            &payload_types(&info.variants),
                            span,
                            &with_name(visiting, n),
                        ),
                        None => false,
                    },
                }
            },
            _ => false,
        }
    }

    fn json_privacy_any(
        &mut self,
        env: &Env<'_>,
        op: &str,
        ts: &Vec<Type>,
        span: Span,
        visiting: &Vec<String>,
    ) -> (r: bool)
        ensures
            (final(self)@, r) == json_private_from(
                env@,
                old(self)@,
                op@,
                ts.deep_view(),
                span,
                visiting.deep_view(),
                0,
            ),
        decreases nameable(env@) - visiting.deep_view().len(), ts, 0int,
    {
        let mut i: usize = 0;
        while i < ts.len()
            invariant
                i <= ts.len(),
                json_private_from(
                    env@,
                    old(self)@,
                    op@,
                    ts.deep_view(),
                    span,
                    visiting.deep_view(),
                    0,
                ) == json_private_from(
                    env@,
                    self@,
                    op@,
                    ts.deep_view(),
                    span,
                    visiting.deep_view(),
                    i as int,
                ),
            decreases ts.len() - i,
        {
            if self.json_privacy_walk(env, op, &ts[i], span, visiting) {
                return true;
            }
            i += 1;
        }
        false
    }
}

} // verus!
