//! What an endpoint is recorded with, and what an endpoint without findings
//! says of its parts.
use crate::ast::{
    EndpointDecl, EndpointErrorVariant, Expr, HeaderParam, HttpMethod, QueryParam, ResponseStatus,
    TypeExpr,
};
use crate::check_types::resolved;
use crate::checker::{endpoint_added, CheckerV};
use crate::endpoint::{
    base_name, body_checked, body_field_at, body_fields_n, download_checked, endpoint_checked,
    error_before, errors_checked_n,
    fields_exist_n, form_checked_n, full_path, header_before, headers_n, identity_checked,
    inputs_distinct_n, is_file_field, outputs_distinct_n, pages_checked, queries_n, query_named, resolved_response,
    response_checked, status_before, status_code_checked, statuses_n, struct_named, wire_before,
    wires_distinct_n, wrapped_once,
};
use crate::env::EnvV;
use crate::fit_laws::{lemma_counts, lemma_steps, silent, steady_at};
use crate::info::{
    DefaultValueV, DerivedFieldV, FieldInfoV, HeaderParamInfoV,
};
use crate::routes::{default_of, path_params, same_header, signature, wire};
use crate::span::Span;
use crate::state::StateV;
use crate::steady::kept;
use crate::steady_parts::kept_resolved;
use crate::steady_program::{
    kept_endpoint_body, kept_errors_checked_n, kept_headers_n, kept_inputs_distinct_n,
    kept_outputs_distinct_n, kept_queries_n, kept_resolved_response, kept_response_checked,
    kept_statuses_n, kept_wires_distinct_n,
};
use crate::table::find;
use crate::text::Chars;
use crate::types::Ty;
use vstd::prelude::*;

verus! {

broadcast use crate::steady::steps;

/// Whether a literal is of the type. An expression that is no literal is not
/// held against a type.
pub open spec fn literal_of(e: Option<Expr>, t: Ty) -> bool {
    match e {
        Some(e) => match default_of(e) {
            Some(DefaultValueV::Int(_)) => t is Int || t is Error,
            Some(DefaultValueV::Float(_)) => t is Float || t is Error,
            Some(DefaultValueV::Str(_)) => t is Str || t is Error,
            Some(DefaultValueV::Bool(_)) => t is Bool || t is Error,
            None => true,
        },
        None => true,
    }
}

/// Whether a parameter has a type without findings and a default of that type.
pub open spec fn param_accepted(env: EnvV, st: StateV, te: TypeExpr, default: Option<Expr>) -> bool {
    silent(st, resolved(env, st, te).0) && literal_of(default, resolved(env, st, te).1)
}

/// The same for a header; one of a response has no default.
pub open spec fn header_accepted(env: EnvV, st: StateV, h: HeaderParam, is_response: bool) -> bool {
    if is_response {
        silent(st, resolved(env, st, h.type_annotation).0) && h.default_value is None
    } else {
        param_accepted(env, st, h.type_annotation, h.default_value)
    }
}

/// Whether a type is a file, a number, a truth value or a text.
pub open spec fn scalar_type(t: Ty) -> bool {
    t == Ty::File || t is Int || t is Float || t is Bool || t is Str
}

/// Whether a type can be sent in a form.
pub open spec fn form_type(t: Ty) -> bool {
    scalar_type(t) || (t matches Ty::Generic(n, args) && n == "Option"@ && args.len() == 1
        && scalar_type(args[0]))
}

/// Whether the status at `i` is a success code of its own, with a body that the
/// other statuses have too, or none.
pub open spec fn status_accepted(
    env: EnvV,
    st: StateV,
    owner: Chars,
    rss: Seq<ResponseStatus>,
    i: int,
    shared: Option<Ty>,
) -> bool {
    let rs = rss[i];
    &&& 200 <= rs.status <= 299
    &&& rs.status == 204 || rs.status == 205 ==> rs.ty is None
    &&& forall|j: int| 0 <= j < i ==> (#[trigger] rss[j]).status != rs.status
    &&& match rs.ty {
        Some(te) => {
            let (s, t) = resolved_response(env, st, te);
            &&& silent(st, s)
            &&& t == Ty::Error || (struct_named(env, t) matches Some(info)
                && !info.is_file_bearing && (shared is None || shared == Some(t)))
        },
        None => true,
    }
}

proof fn lemma_body_field(fs: Seq<DerivedFieldV>, name: Chars, i: int)
    requires
        0 <= i <= fs.len(),
    ensures
        body_field_at(fs, name, i) < fs.len() <==> exists|k: int|
            i <= k < fs.len() && (#[trigger] fs[k]).name == name,
    decreases fs.len() - i,
{
    if i < fs.len() {
        lemma_body_field(fs, name, i + 1);
        if fs[i].name != name {
            if exists|k: int| i <= k < fs.len() && (#[trigger] fs[k]).name == name {
                let k = choose|k: int| i <= k < fs.len() && (#[trigger] fs[k]).name == name;
                assert(fs[k].name == name && i + 1 <= k);
            }
        } else {
            assert(fs[i].name == name);
        }
    }
}

/// The error variants of an endpoint add no finding exactly if every one of them
/// has a status code from 400 to 599 and a name that no variant before it has.
pub proof fn law_error_variants_are_sound(
    st: StateV,
    owner: Chars,
    evs: Seq<EndpointErrorVariant>,
    n: int,
)
    requires
        0 <= n <= evs.len(),
    ensures
        silent(st, errors_checked_n(st, owner, evs, n).0) <==> forall|i: int| 0 <= i < n ==> (400 <= (#[trigger] evs[i]).status_code <= 599 && forall|j: int| 0 <= j < i ==> (#[trigger] evs[j]).name@ != evs[i].name@),
{
    let counts = Seq::new((n + 1) as nat, |i: int| errors_checked_n(st, owner, evs, i).0.diagnostics.len());
    let oks = Seq::new(n as nat, |i: int| (400 <= ( evs[i]).status_code <= 599 && forall|j: int| 0 <= j < i ==> (#[trigger] evs[j]).name@ != evs[i].name@));
    assert forall|i: int| 0 <= i < n implies #[trigger] steady_at(counts, oks, i) by {
        lemma_error_variants_are_sound_step(st, owner, evs, i);
    }
    lemma_steps(counts, oks);
    assert forall|i: int| 0 <= i < n implies oks[i] == ((400 <= (#[trigger] evs[i]).status_code <= 599 && forall|j: int| 0 <= j < i ==> (#[trigger] evs[j]).name@ != evs[i].name@)) by {}
}

proof fn lemma_error_variants_are_sound_step(
    st: StateV,
    owner: Chars,
    evs: Seq<EndpointErrorVariant>,
    i: int,
)
    requires
        0 <= i < evs.len(),
    ensures
        ({
            let s = errors_checked_n(st, owner, evs, i).0;
            let next = errors_checked_n(st, owner, evs, i + 1).0;
            &&& s.diagnostics.len() <= next.diagnostics.len()
            &&& silent(s, next) <==> ((400 <= (evs[i]).status_code <= 599 && forall|j: int| 0 <= j < i ==> (#[trigger] evs[j]).name@ != evs[i].name@))
        }),
{
    let s = errors_checked_n(st, owner, evs, i).0;
    if forall|j: int| 0 <= j < i ==> (#[trigger] evs[j]).name@ != evs[i].name@ {
        assert(!error_before(evs, evs[i].name@, i));
    }
}

/// The query parameters of an endpoint add no finding exactly if the type of each
/// resolves without one and its default is a literal of that type, if it is one.
pub proof fn law_query_parameters_are_sound(
    env: EnvV,
    st: StateV,
    owner: Chars,
    qs: Seq<QueryParam>,
    n: int,
)
    requires
        0 <= n <= qs.len(),
    ensures
        silent(st, queries_n(env, st, owner, qs, n).0) <==> forall|i: int| 0 <= i < n ==> param_accepted(env, queries_n(env, st, owner, qs, i).0, (#[trigger] qs[i]).type_annotation, qs[i].default_value),
{
    let counts = Seq::new((n + 1) as nat, |i: int| queries_n(env, st, owner, qs, i).0.diagnostics.len());
    let oks = Seq::new(n as nat, |i: int| param_accepted(env, queries_n(env, st, owner, qs, i).0, ( qs[i]).type_annotation, qs[i].default_value));
    assert forall|i: int| 0 <= i < n implies #[trigger] steady_at(counts, oks, i) by {
        lemma_query_parameters_are_sound_step(env, st, owner, qs, i);
    }
    lemma_steps(counts, oks);
    assert forall|i: int| 0 <= i < n implies oks[i] == (param_accepted(env, queries_n(env, st, owner, qs, i).0, (#[trigger] qs[i]).type_annotation, qs[i].default_value)) by {}
}

proof fn lemma_query_parameters_are_sound_step(
    env: EnvV,
    st: StateV,
    owner: Chars,
    qs: Seq<QueryParam>,
    i: int,
)
    requires
        0 <= i < qs.len(),
    ensures
        ({
            let s = queries_n(env, st, owner, qs, i).0;
            let next = queries_n(env, st, owner, qs, i + 1).0;
            &&& s.diagnostics.len() <= next.diagnostics.len()
            &&& silent(s, next) <==> (param_accepted(env, s, (qs[i]).type_annotation, qs[i].default_value))
        }),
{
    let s = queries_n(env, st, owner, qs, i).0;
    kept_queries_n(env, st, owner, qs, i);
    kept_resolved(env, s, qs[i].type_annotation);
    lemma_counts(st, s);
    lemma_counts(s, resolved(env, s, qs[i].type_annotation).0);
}

/// The headers of a request or a response add no finding exactly if the type of
/// each resolves without one, and its default is a literal of that type, if it is
/// one; a header of a response has none.
pub proof fn law_headers_are_sound(
    env: EnvV,
    st: StateV,
    owner: Chars,
    hs: Seq<HeaderParam>,
    is_response: bool,
    n: int,
)
    requires
        0 <= n <= hs.len(),
    ensures
        silent(st, headers_n(env, st, owner, hs, is_response, n).0) <==> forall|i: int| 0 <= i < n ==> header_accepted(env, headers_n(env, st, owner, hs, is_response, i).0, #[trigger] hs[i], is_response),
{
    let counts = Seq::new((n + 1) as nat, |i: int| headers_n(env, st, owner, hs, is_response, i).0.diagnostics.len());
    let oks = Seq::new(n as nat, |i: int| header_accepted(env, headers_n(env, st, owner, hs, is_response, i).0, hs[i], is_response));
    assert forall|i: int| 0 <= i < n implies #[trigger] steady_at(counts, oks, i) by {
        lemma_headers_are_sound_step(env, st, owner, hs, is_response, i);
    }
    lemma_steps(counts, oks);
    assert forall|i: int| 0 <= i < n implies oks[i] == (header_accepted(env, headers_n(env, st, owner, hs, is_response, i).0, #[trigger] hs[i], is_response)) by {}
}

proof fn lemma_headers_are_sound_step(
    env: EnvV,
    st: StateV,
    owner: Chars,
    hs: Seq<HeaderParam>,
    is_response: bool,
    i: int,
)
    requires
        0 <= i < hs.len(),
    ensures
        ({
            let s = headers_n(env, st, owner, hs, is_response, i).0;
            let next = headers_n(env, st, owner, hs, is_response, i + 1).0;
            &&& s.diagnostics.len() <= next.diagnostics.len()
            &&& silent(s, next) <==> (header_accepted(env, s, hs[i], is_response))
        }),
{
    let s = headers_n(env, st, owner, hs, is_response, i).0;
    kept_headers_n(env, st, owner, hs, is_response, i);
    kept_resolved(env, s, hs[i].type_annotation);
    lemma_counts(st, s);
    lemma_counts(s, resolved(env, s, hs[i].type_annotation).0);
}

/// No finding says that a header collides exactly if the name of each is not that
/// of a path parameter, of a query parameter, or of a header before it.
pub proof fn law_inputs_are_distinct(
    st: StateV,
    owner: Chars,
    hs: Seq<HeaderParam>,
    params: Seq<Chars>,
    qs: Seq<QueryParam>,
    n: int,
)
    requires
        0 <= n <= hs.len(),
    ensures
        silent(st, inputs_distinct_n(st, owner, hs, params, qs, n)) <==> forall|i: int| 0 <= i < n ==> (!params.contains((#[trigger] hs[i]).name@) && (forall|j: int| 0 <= j < qs.len() ==> (#[trigger] qs[j]).name@ != hs[i].name@) && (forall|j: int| 0 <= j < i ==> (#[trigger] hs[j]).name@ != hs[i].name@)),
{
    let counts = Seq::new((n + 1) as nat, |i: int| inputs_distinct_n(st, owner, hs, params, qs, i).diagnostics.len());
    let oks = Seq::new(n as nat, |i: int| (!params.contains(( hs[i]).name@) && (forall|j: int| 0 <= j < qs.len() ==> (#[trigger] qs[j]).name@ != hs[i].name@) && (forall|j: int| 0 <= j < i ==> (#[trigger] hs[j]).name@ != hs[i].name@)));
    assert forall|i: int| 0 <= i < n implies #[trigger] steady_at(counts, oks, i) by {
        lemma_inputs_are_distinct_step(st, owner, hs, params, qs, i);
    }
    lemma_steps(counts, oks);
    assert forall|i: int| 0 <= i < n implies oks[i] == ((!params.contains((#[trigger] hs[i]).name@) && (forall|j: int| 0 <= j < qs.len() ==> (#[trigger] qs[j]).name@ != hs[i].name@) && (forall|j: int| 0 <= j < i ==> (#[trigger] hs[j]).name@ != hs[i].name@))) by {}
}

proof fn lemma_inputs_are_distinct_step(
    st: StateV,
    owner: Chars,
    hs: Seq<HeaderParam>,
    params: Seq<Chars>,
    qs: Seq<QueryParam>,
    i: int,
)
    requires
        0 <= i < hs.len(),
    ensures
        ({
            let s = inputs_distinct_n(st, owner, hs, params, qs, i);
            let next = inputs_distinct_n(st, owner, hs, params, qs, i + 1);
            &&& s.diagnostics.len() <= next.diagnostics.len()
            &&& silent(s, next) <==> ((!params.contains((hs[i]).name@) && (forall|j: int| 0 <= j < qs.len() ==> (#[trigger] qs[j]).name@ != hs[i].name@) && (forall|j: int| 0 <= j < i ==> (#[trigger] hs[j]).name@ != hs[i].name@)))
        }),
{
    let s = inputs_distinct_n(st, owner, hs, params, qs, i);
    if forall|j: int| 0 <= j < qs.len() ==> (#[trigger] qs[j]).name@ != hs[i].name@ {
        assert(!query_named(qs, hs[i].name@));
    }
    if forall|j: int| 0 <= j < i ==> (#[trigger] hs[j]).name@ != hs[i].name@ {
        assert(!header_before(hs, hs[i].name@, i));
    }
}

/// No finding says that a header of the response is declared twice exactly if each
/// has a name that no header before it has.
pub proof fn law_outputs_are_distinct(
    st: StateV,
    owner: Chars,
    hs: Seq<HeaderParam>,
    n: int,
)
    requires
        0 <= n <= hs.len(),
    ensures
        silent(st, outputs_distinct_n(st, owner, hs, n)) <==> forall|i: int| 0 <= i < n ==> (forall|j: int| 0 <= j < i ==> (#[trigger] hs[j]).name@ != (#[trigger] hs[i]).name@),
{
    let counts = Seq::new((n + 1) as nat, |i: int| outputs_distinct_n(st, owner, hs, i).diagnostics.len());
    let oks = Seq::new(n as nat, |i: int| (forall|j: int| 0 <= j < i ==> (#[trigger] hs[j]).name@ != ( hs[i]).name@));
    assert forall|i: int| 0 <= i < n implies #[trigger] steady_at(counts, oks, i) by {
        lemma_outputs_are_distinct_step(st, owner, hs, i);
    }
    lemma_steps(counts, oks);
    assert forall|i: int| 0 <= i < n implies oks[i] == ((forall|j: int| 0 <= j < i ==> (#[trigger] hs[j]).name@ != (#[trigger] hs[i]).name@)) by {}
}

proof fn lemma_outputs_are_distinct_step(
    st: StateV,
    owner: Chars,
    hs: Seq<HeaderParam>,
    i: int,
)
    requires
        0 <= i < hs.len(),
    ensures
        ({
            let s = outputs_distinct_n(st, owner, hs, i);
            let next = outputs_distinct_n(st, owner, hs, i + 1);
            &&& s.diagnostics.len() <= next.diagnostics.len()
            &&& silent(s, next) <==> ((forall|j: int| 0 <= j < i ==> (#[trigger] hs[j]).name@ != (hs[i]).name@))
        }),
{
    let s = outputs_distinct_n(st, owner, hs, i);
    if forall|j: int| 0 <= j < i ==> (#[trigger] hs[j]).name@ != hs[i].name@ {
        assert(!header_before(hs, hs[i].name@, i));
    }
}

/// No finding says that two headers share a wire name exactly if each has one that
/// no header before it has, in upper or lower case.
pub proof fn law_wire_names_are_distinct(
    st: StateV,
    owner: Chars,
    infos: Seq<HeaderParamInfoV>,
    hs: Seq<HeaderParam>,
    direction: Chars,
    n: int,
)
    requires
        0 <= n <= infos.len(),
        infos.len() == hs.len(),
    ensures
        silent(st, wires_distinct_n(st, owner, infos, hs, direction, n)) <==> forall|i: int| 0 <= i < n ==> (forall|j: int| 0 <= j < i ==> !same_header((#[trigger] infos[j]).wire_name, (#[trigger] infos[i]).wire_name)),
{
    let counts = Seq::new((n + 1) as nat, |i: int| wires_distinct_n(st, owner, infos, hs, direction, i).diagnostics.len());
    let oks = Seq::new(n as nat, |i: int| (forall|j: int| 0 <= j < i ==> !same_header((#[trigger] infos[j]).wire_name, ( infos[i]).wire_name)));
    assert forall|i: int| 0 <= i < n implies #[trigger] steady_at(counts, oks, i) by {
        lemma_wire_names_are_distinct_step(st, owner, infos, hs, direction, i);
    }
    lemma_steps(counts, oks);
    assert forall|i: int| 0 <= i < n implies oks[i] == ((forall|j: int| 0 <= j < i ==> !same_header((#[trigger] infos[j]).wire_name, (#[trigger] infos[i]).wire_name))) by {}
}

proof fn lemma_wire_names_are_distinct_step(
    st: StateV,
    owner: Chars,
    infos: Seq<HeaderParamInfoV>,
    hs: Seq<HeaderParam>,
    direction: Chars,
    i: int,
)
    requires
        0 <= i < infos.len(),
        infos.len() == hs.len(),
    ensures
        ({
            let s = wires_distinct_n(st, owner, infos, hs, direction, i);
            let next = wires_distinct_n(st, owner, infos, hs, direction, i + 1);
            &&& s.diagnostics.len() <= next.diagnostics.len()
            &&& silent(s, next) <==> ((forall|j: int| 0 <= j < i ==> !same_header((#[trigger] infos[j]).wire_name, (infos[i]).wire_name)))
        }),
{
    let s = wires_distinct_n(st, owner, infos, hs, direction, i);
    if forall|j: int| 0 <= j < i ==> !same_header((#[trigger] infos[j]).wire_name, infos[i].wire_name) {
        assert(!wire_before(infos, infos[i].wire_name, i));
    }
}

/// The fields of a form add no finding exactly if each is a file, a number, a truth
/// value or a text, or an option of one of these.
pub proof fn law_form_fields_are_sound(
    st: StateV,
    owner: Chars,
    fs: Seq<DerivedFieldV>,
    n: int,
)
    requires
        0 <= n <= fs.len(),
    ensures
        silent(st, form_checked_n(st, owner, fs, n)) <==> forall|i: int| 0 <= i < n ==> form_type((#[trigger] fs[i]).ty),
{
    let counts = Seq::new((n + 1) as nat, |i: int| form_checked_n(st, owner, fs, i).diagnostics.len());
    let oks = Seq::new(n as nat, |i: int| form_type(( fs[i]).ty));
    assert forall|i: int| 0 <= i < n implies #[trigger] steady_at(counts, oks, i) by {
        lemma_form_fields_are_sound_step(st, owner, fs, i);
    }
    lemma_steps(counts, oks);
    assert forall|i: int| 0 <= i < n implies oks[i] == (form_type((#[trigger] fs[i]).ty)) by {}
}

proof fn lemma_form_fields_are_sound_step(
    st: StateV,
    owner: Chars,
    fs: Seq<DerivedFieldV>,
    i: int,
)
    requires
        0 <= i < fs.len(),
    ensures
        ({
            let s = form_checked_n(st, owner, fs, i);
            let next = form_checked_n(st, owner, fs, i + 1);
            &&& s.diagnostics.len() <= next.diagnostics.len()
            &&& silent(s, next) <==> (form_type((fs[i]).ty))
        }),
{
    let s = form_checked_n(st, owner, fs, i);

}

/// The names in a modifier add no finding exactly if each is the name of a field.
pub proof fn law_modifier_fields_exist(
    st: StateV,
    owner: Chars,
    base: Chars,
    names: Seq<Chars>,
    fs: Seq<DerivedFieldV>,
    span: Span,
    n: int,
)
    requires
        0 <= n <= names.len(),
    ensures
        silent(st, fields_exist_n(st, owner, base, names, fs, span, n)) <==> forall|i: int| 0 <= i < n ==> (exists|k: int| 0 <= k < fs.len() && (#[trigger] fs[k]).name == #[trigger] names[i]),
{
    let counts = Seq::new((n + 1) as nat, |i: int| fields_exist_n(st, owner, base, names, fs, span, i).diagnostics.len());
    let oks = Seq::new(n as nat, |i: int| (exists|k: int| 0 <= k < fs.len() && (#[trigger] fs[k]).name == names[i]));
    assert forall|i: int| 0 <= i < n implies #[trigger] steady_at(counts, oks, i) by {
        lemma_modifier_fields_exist_step(st, owner, base, names, fs, span, i);
    }
    lemma_steps(counts, oks);
    assert forall|i: int| 0 <= i < n implies oks[i] == ((exists|k: int| 0 <= k < fs.len() && (#[trigger] fs[k]).name == #[trigger] names[i])) by {}
}

proof fn lemma_modifier_fields_exist_step(
    st: StateV,
    owner: Chars,
    base: Chars,
    names: Seq<Chars>,
    fs: Seq<DerivedFieldV>,
    span: Span,
    i: int,
)
    requires
        0 <= i < names.len(),
    ensures
        ({
            let s = fields_exist_n(st, owner, base, names, fs, span, i);
            let next = fields_exist_n(st, owner, base, names, fs, span, i + 1);
            &&& s.diagnostics.len() <= next.diagnostics.len()
            &&& silent(s, next) <==> ((exists|k: int| 0 <= k < fs.len() && (#[trigger] fs[k]).name == names[i]))
        }),
{
    let s = fields_exist_n(st, owner, base, names, fs, span, i);
    lemma_body_field(fs, names[i], 0);
}

/// The statuses of a response add no finding exactly if each is a success code that
/// no status before it is, carries a struct without files or nothing, nothing at
/// all for a reply without a body, and the same struct as those before it.
pub proof fn law_statuses_are_sound(
    env: EnvV,
    st: StateV,
    owner: Chars,
    rss: Seq<ResponseStatus>,
    n: int,
)
    requires
        0 <= n <= rss.len(),
    ensures
        silent(st, statuses_n(env, st, owner, rss, n).0) <==> forall|i: int| 0 <= i < n ==> #[trigger] status_accepted(env, statuses_n(env, st, owner, rss, i).0, owner, rss, i, statuses_n(env, st, owner, rss, i).2),
{
    let counts = Seq::new((n + 1) as nat, |i: int| statuses_n(env, st, owner, rss, i).0.diagnostics.len());
    let oks = Seq::new(n as nat, |i: int| status_accepted(env, statuses_n(env, st, owner, rss, i).0, owner, rss, i, statuses_n(env, st, owner, rss, i).2));
    assert forall|i: int| 0 <= i < n implies #[trigger] steady_at(counts, oks, i) by {
        lemma_statuses_are_sound_step(env, st, owner, rss, i);
    }
    lemma_steps(counts, oks);
    assert forall|i: int| 0 <= i < n implies oks[i] == (#[trigger] status_accepted(env, statuses_n(env, st, owner, rss, i).0, owner, rss, i, statuses_n(env, st, owner, rss, i).2)) by {}
}

proof fn lemma_statuses_are_sound_step(
    env: EnvV,
    st: StateV,
    owner: Chars,
    rss: Seq<ResponseStatus>,
    i: int,
)
    requires
        0 <= i < rss.len(),
    ensures
        ({
            let s = statuses_n(env, st, owner, rss, i).0;
            let next = statuses_n(env, st, owner, rss, i + 1).0;
            &&& s.diagnostics.len() <= next.diagnostics.len()
            &&& silent(s, next) <==> (status_accepted(env, s, owner, rss, i, statuses_n(env, st, owner, rss, i).2))
        }),
{
    let s = statuses_n(env, st, owner, rss, i).0;
    kept_statuses_n(env, st, owner, rss, i);
    let checked = status_code_checked(s, owner, rss, i);
    if forall|j: int| 0 <= j < i ==> (#[trigger] rss[j]).status != rss[i].status {
        assert(!status_before(rss, rss[i].status, i));
    }
    lemma_counts(st, s);
    if let Some(te) = rss[i].ty {
        kept_resolved_response(env, checked, te);
        lemma_counts(checked, resolved_response(env, checked, te).0);
        if checked.diagnostics.len() == s.diagnostics.len() {
            assert(checked == s);
        }
    }
}

// ── What is recorded ─────────────────────────────────────────────────

/// An endpoint has an error for every declared error variant, in their order,
/// each with the name and the status code of its variant.
pub proof fn law_errors_by_position(
    st: StateV,
    owner: Chars,
    evs: Seq<EndpointErrorVariant>,
    n: int,
)
    requires
        0 <= n <= evs.len(),
    ensures
        errors_checked_n(st, owner, evs, n).1.len() == n,
        forall|i: int|
            0 <= i < n ==> (#[trigger] errors_checked_n(st, owner, evs, n).1[i]).0 == evs[i].name@
                && errors_checked_n(st, owner, evs, n).1[i].1 == evs[i].status_code,
    decreases n,
{
    if n > 0 {
        law_errors_by_position(st, owner, evs, n - 1);
    }
}

/// An endpoint has a query parameter for every declared one, in their order,
/// each with the name, the type and the default of its declaration.
pub proof fn law_queries_by_position(
    env: EnvV,
    st: StateV,
    owner: Chars,
    qs: Seq<QueryParam>,
    n: int,
)
    requires
        0 <= n <= qs.len(),
    ensures
        queries_n(env, st, owner, qs, n).1.len() == n,
        forall|i: int|
            0 <= i < n ==> {
                let q = #[trigger] queries_n(env, st, owner, qs, n).1[i];
                &&& q.name == qs[i].name@
                &&& q.ty == resolved(
                    env,
                    queries_n(env, st, owner, qs, i).0,
                    qs[i].type_annotation,
                ).1
                &&& q.has_default <==> qs[i].default_value is Some
                &&& q.default_value == match qs[i].default_value {
                    Some(e) => default_of(e),
                    None => None,
                }
            },
    decreases n,
{
    if n > 0 {
        law_queries_by_position(env, st, owner, qs, n - 1);
    }
}

/// An endpoint has a header for every declared one, in their order, each with
/// the name and the type of its declaration, the wire name that is declared or
/// else made of the name, and the default, which headers of a response do not
/// have.
pub proof fn law_headers_by_position(
    env: EnvV,
    st: StateV,
    owner: Chars,
    hs: Seq<HeaderParam>,
    is_response: bool,
    n: int,
)
    requires
        0 <= n <= hs.len(),
    ensures
        headers_n(env, st, owner, hs, is_response, n).1.len() == n,
        forall|i: int|
            0 <= i < n ==> {
                let h = #[trigger] headers_n(env, st, owner, hs, is_response, n).1[i];
                &&& h.name == hs[i].name@
                &&& h.ty == resolved(
                    env,
                    headers_n(env, st, owner, hs, is_response, i).0,
                    hs[i].type_annotation,
                ).1
                &&& h.wire_name == match hs[i].wire_name {
                    Some(w) => w@,
                    None => wire(hs[i].name@),
                }
                &&& h.has_default <==> !is_response && hs[i].default_value is Some
                &&& h.default_value == match hs[i].default_value {
                    Some(e) => if is_response {
                        None
                    } else {
                        default_of(e)
                    },
                    None => None,
                }
            },
    decreases n,
{
    if n > 0 {
        law_headers_by_position(env, st, owner, hs, is_response, n - 1);
    }
}

/// An endpoint has a status for every declared one, in their order, with a type
/// exactly where one is declared.
pub proof fn law_statuses_by_position(
    env: EnvV,
    st: StateV,
    owner: Chars,
    rss: Seq<ResponseStatus>,
    n: int,
)
    requires
        0 <= n <= rss.len(),
    ensures
        statuses_n(env, st, owner, rss, n).1.len() == n,
        forall|i: int|
            0 <= i < n ==> (#[trigger] statuses_n(env, st, owner, rss, n).1[i]).status
                == rss[i].status && (statuses_n(env, st, owner, rss, n).1[i].ty is Some
                <==> rss[i].ty is Some),
    decreases n,
{
    if n > 0 {
        law_statuses_by_position(env, st, owner, rss, n - 1);
    }
}

/// All statuses of a response without findings that carry a struct carry the
/// same one, and that is the type of the response.
pub proof fn law_statuses_share_one_type(
    env: EnvV,
    st: StateV,
    owner: Chars,
    rss: Seq<ResponseStatus>,
    n: int,
)
    requires
        0 <= n <= rss.len(),
        silent(st, statuses_n(env, st, owner, rss, n).0),
    ensures
        forall|i: int|
            0 <= i < n ==> ((#[trigger] statuses_n(env, st, owner, rss, n).1[i]).ty matches Some(t)
                ==> t == Ty::Error || statuses_n(env, st, owner, rss, n).2 == Some(t)),
        statuses_n(env, st, owner, rss, n).2 matches Some(t) ==> exists|i: int|
            0 <= i < n && (#[trigger] statuses_n(env, st, owner, rss, n).1[i]).ty == Some(t),
    decreases n,
{
    if n > 0 {
        let before = statuses_n(env, st, owner, rss, n - 1);
        let after = statuses_n(env, st, owner, rss, n);
        law_statuses_are_sound(env, st, owner, rss, n);
        law_statuses_are_sound(env, st, owner, rss, n - 1);
        assert forall|i: int| 0 <= i < n - 1 implies #[trigger] status_accepted(
            env,
            statuses_n(env, st, owner, rss, i).0,
            owner,
            rss,
            i,
            statuses_n(env, st, owner, rss, i).2,
        ) by {}
        law_statuses_share_one_type(env, st, owner, rss, n - 1);
        law_statuses_by_position(env, st, owner, rss, n);
        law_statuses_by_position(env, st, owner, rss, n - 1);
        lemma_statuses_are_sound_step(env, st, owner, rss, n - 1);
        assert(status_accepted(env, before.0, owner, rss, n - 1, before.2));
        assert forall|i: int| 0 <= i < n implies ((#[trigger] after.1[i]).ty matches Some(t) ==> t
            == Ty::Error || after.2 == Some(t)) by {
            if i < n - 1 {
                assert(after.1[i] == before.1[i]);
            }
        }
        if let Some(t) = after.2 {
            if before.2 is Some {
                let i = choose|i: int| 0 <= i < n - 1 && (#[trigger] before.1[i]).ty == Some(t);
                assert(after.1[i] == before.1[i]);
            } else {
                assert(after.1[n - 1].ty == Some(t));
            }
        }
    }
}

/// The fields of a body start as the fields of the struct, in their order, each
/// with its name, type and constraint, and none of them optional.
pub proof fn law_body_fields_by_position(fs: Seq<FieldInfoV>, n: int)
    requires
        0 <= n <= fs.len(),
    ensures
        body_fields_n(fs, n).len() == n,
        forall|i: int|
            0 <= i < n ==> {
                let f = #[trigger] body_fields_n(fs, n)[i];
                &&& f.name == fs[i].name
                &&& f.ty == fs[i].ty
                &&& f.constraint == fs[i].constraint
                &&& f.span == fs[i].definition_span
                &&& !f.optional
            },
    decreases n,
{
    if n > 0 {
        law_body_fields_by_position(fs, n - 1);
    }
}

/// An endpoint is recorded with its name, method, path and documentation, the
/// parameters in its path, and one entry for each declared query parameter,
/// header, response header, status and error, in their order.
pub proof fn law_endpoint_has_its_parts(
    env: EnvV,
    st: StateV,
    names: Seq<Chars>,
    routes: Seq<(Chars, Chars)>,
    ep: EndpointDecl,
)
    ensures
        ({
            let e = endpoint_checked(env, st, names, routes, ep).1;
            &&& e.name == ep.name@
            &&& e.method == ep.method
            &&& e.path == full_path(ep)
            &&& e.path_params == path_params(full_path(ep))
            &&& e.doc_comment == match ep.doc_comment {
                Some(d) => Some(d@),
                None => None,
            }
            &&& e.errors.len() == ep.errors@.len()
            &&& forall|i: int|
                0 <= i < ep.errors@.len() ==> (#[trigger] e.errors[i]).0 == ep.errors@[i].name@
                    && e.errors[i].1 == ep.errors@[i].status_code
            &&& e.query_params.len() == ep.query_params@.len()
            &&& forall|i: int|
                0 <= i < ep.query_params@.len() ==> (#[trigger] e.query_params[i]).name
                    == ep.query_params@[i].name@ && (e.query_params[i].has_default
                    <==> ep.query_params@[i].default_value is Some)
            &&& e.headers.len() == ep.headers@.len()
            &&& forall|i: int|
                0 <= i < ep.headers@.len() ==> (#[trigger] e.headers[i]).name
                    == ep.headers@[i].name@
            &&& e.response_headers.len() == ep.response_headers@.len()
            &&& forall|i: int|
                0 <= i < ep.response_headers@.len() ==> (#[trigger] e.response_headers[i]).name
                    == ep.response_headers@[i].name@
            &&& e.response_statuses.len() == ep.response_statuses@.len()
            &&& forall|i: int|
                0 <= i < ep.response_statuses@.len() ==> (#[trigger] e.response_statuses[i]).status
                    == ep.response_statuses@[i].status
            &&& ep.body is None ==> e.body is None && !e.body_is_multipart
            &&& ep.pagination is None ==> e.pagination is None
            &&& ep.response is None && ep.response_statuses@.len() == 0 ==> e.response is None
        }),
{
    let owner = ep.name@;
    let s1 = identity_checked(st, names, routes, ep, full_path(ep));
    let s2 = response_checked(env, s1, ep).0;
    let s3 = body_checked(env, s2, ep).0;
    let s4 = errors_checked_n(s3, owner, ep.errors@, ep.errors@.len() as int).0;
    let s5 = queries_n(env, s4, owner, ep.query_params@, ep.query_params@.len() as int).0;
    let s6 = headers_n(env, s5, owner, ep.headers@, false, ep.headers@.len() as int).0;
    law_errors_by_position(s3, owner, ep.errors@, ep.errors@.len() as int);
    law_queries_by_position(env, s4, owner, ep.query_params@, ep.query_params@.len() as int);
    law_headers_by_position(env, s5, owner, ep.headers@, false, ep.headers@.len() as int);
    law_headers_by_position(
        env,
        s6,
        owner,
        ep.response_headers@,
        true,
        ep.response_headers@.len() as int,
    );
    law_statuses_by_position(
        env,
        crate::endpoint::bare_response(env, s1, ep).0,
        owner,
        ep.response_statuses@,
        ep.response_statuses@.len() as int,
    );
}

proof fn lemma_stages(
    env: EnvV,
    st: StateV,
    names: Seq<Chars>,
    routes: Seq<(Chars, Chars)>,
    ep: EndpointDecl,
)
    requires
        silent(st, endpoint_checked(env, st, names, routes, ep).0),
    ensures
        ({
            let owner = ep.name@;
            let path = full_path(ep);
            let params = path_params(path);
            let n = ep.headers@.len() as int;
            let m = ep.response_headers@.len() as int;
            let k = ep.errors@.len() as int;
            let q = ep.query_params@.len() as int;
            let s1 = identity_checked(st, names, routes, ep, path);
            let (s2, response) = response_checked(env, s1, ep);
            let s3 = body_checked(env, s2, ep).0;
            let s4 = errors_checked_n(s3, owner, ep.errors@, k).0;
            let s5 = queries_n(env, s4, owner, ep.query_params@, q).0;
            let (s6, headers) = headers_n(env, s5, owner, ep.headers@, false, n);
            let (s7, response_headers) = headers_n(env, s6, owner, ep.response_headers@, true, m);
            let s8 = wrapped_once(s7, ep, response);
            let s9 = inputs_distinct_n(s8, owner, ep.headers@, params, ep.query_params@, n);
            let s10 = outputs_distinct_n(s9, owner, ep.response_headers@, m);
            let s11 = wires_distinct_n(s10, owner, headers, ep.headers@, "request"@, n);
            let s12 = wires_distinct_n(
                s11,
                owner,
                response_headers,
                ep.response_headers@,
                "response"@,
                m,
            );
            &&& endpoint_checked(env, st, names, routes, ep).0 == s12
            &&& silent(st, s1)
            &&& silent(s1, s2)
            &&& silent(s2, s3)
            &&& silent(s3, s4)
            &&& silent(s4, s5)
            &&& silent(s5, s6)
            &&& silent(s6, s7)
            &&& silent(s7, s8)
            &&& silent(s8, s9)
            &&& silent(s9, s10)
            &&& silent(s10, s11)
            &&& silent(s11, s12)
        }),
{
    let owner = ep.name@;
    let path = full_path(ep);
    let params = path_params(path);
    let n = ep.headers@.len() as int;
    let m = ep.response_headers@.len() as int;
    let k = ep.errors@.len() as int;
    let q = ep.query_params@.len() as int;
    let s1 = identity_checked(st, names, routes, ep, path);
    let (s2, response) = response_checked(env, s1, ep);
    let s3 = body_checked(env, s2, ep).0;
    let s4 = errors_checked_n(s3, owner, ep.errors@, k).0;
    let s5 = queries_n(env, s4, owner, ep.query_params@, q).0;
    let (s6, headers) = headers_n(env, s5, owner, ep.headers@, false, n);
    let (s7, response_headers) = headers_n(env, s6, owner, ep.response_headers@, true, m);
    let s8 = wrapped_once(s7, ep, response);
    let s9 = inputs_distinct_n(s8, owner, ep.headers@, params, ep.query_params@, n);
    let s10 = outputs_distinct_n(s9, owner, ep.response_headers@, m);
    let s11 = wires_distinct_n(s10, owner, headers, ep.headers@, "request"@, n);
    let s12 = wires_distinct_n(
        s11,
        owner,
        response_headers,
        ep.response_headers@,
        "response"@,
        m,
    );
    assert(kept(st, s1));
    lemma_counts(st, s1);
    kept_response_checked(env, s1, ep);
    lemma_counts(s1, s2);
    kept_endpoint_body(env, s2, ep);
    lemma_counts(s2, s3);
    kept_errors_checked_n(s3, owner, ep.errors@, k);
    lemma_counts(s3, s4);
    kept_queries_n(env, s4, owner, ep.query_params@, q);
    lemma_counts(s4, s5);
    kept_headers_n(env, s5, owner, ep.headers@, false, n);
    lemma_counts(s5, s6);
    kept_headers_n(env, s6, owner, ep.response_headers@, true, m);
    lemma_counts(s6, s7);
    assert(kept(s7, s8));
    lemma_counts(s7, s8);
    kept_inputs_distinct_n(s8, owner, ep.headers@, params, ep.query_params@, n);
    lemma_counts(s8, s9);
    kept_outputs_distinct_n(s9, owner, ep.response_headers@, m);
    lemma_counts(s9, s10);
    kept_wires_distinct_n(s10, owner, headers, ep.headers@, "request"@, n);
    lemma_counts(s10, s11);
    kept_wires_distinct_n(s11, owner, response_headers, ep.response_headers@, "response"@, m);
    lemma_counts(s11, s12);
}

/// An endpoint without findings has a name and a route of its own, and no body
/// on `GET` and `DELETE`.
pub proof fn law_accepted_endpoint_stands_alone(
    env: EnvV,
    st: StateV,
    names: Seq<Chars>,
    routes: Seq<(Chars, Chars)>,
    ep: EndpointDecl,
)
    requires
        silent(st, endpoint_checked(env, st, names, routes, ep).0),
    ensures
        !names.contains(ep.name@),
        find(routes, signature(ep.method, full_path(ep))) is None,
        ep.body is Some ==> ep.method != HttpMethod::Get && ep.method != HttpMethod::Delete,
{
    lemma_stages(env, st, names, routes, ep);
    let owner = ep.name@;
    let path = full_path(ep);
    let params = path_params(path);
    let n = ep.headers@.len() as int;
    let m = ep.response_headers@.len() as int;
    let k = ep.errors@.len() as int;
    let q = ep.query_params@.len() as int;
    let s1 = identity_checked(st, names, routes, ep, path);
    let (s2, response) = response_checked(env, s1, ep);
    let s3 = body_checked(env, s2, ep).0;
    let s4 = errors_checked_n(s3, owner, ep.errors@, k).0;
    let s5 = queries_n(env, s4, owner, ep.query_params@, q).0;
    let (s6, headers) = headers_n(env, s5, owner, ep.headers@, false, n);
    let (s7, response_headers) = headers_n(env, s6, owner, ep.response_headers@, true, m);
    let s8 = wrapped_once(s7, ep, response);
    let s9 = inputs_distinct_n(s8, owner, ep.headers@, params, ep.query_params@, n);
    let s10 = outputs_distinct_n(s9, owner, ep.response_headers@, m);
    let s11 = wires_distinct_n(s10, owner, headers, ep.headers@, "request"@, n);
    let s12 = wires_distinct_n(
        s11,
        owner,
        response_headers,
        ep.response_headers@,
        "response"@,
        m,
    );
}

/// The error variants of an endpoint without findings have status codes from 400
/// to 599 and names of their own.
pub proof fn law_accepted_endpoint_has_error_codes(
    env: EnvV,
    st: StateV,
    names: Seq<Chars>,
    routes: Seq<(Chars, Chars)>,
    ep: EndpointDecl,
)
    requires
        silent(st, endpoint_checked(env, st, names, routes, ep).0),
    ensures
        forall|i: int|
            0 <= i < ep.errors@.len() ==> 400 <= (#[trigger] ep.errors@[i]).status_code <= 599,
        forall|i: int, j: int|
            0 <= j < i < ep.errors@.len() ==> (#[trigger] ep.errors@[j]).name@ != (
            #[trigger] ep.errors@[i]).name@,
{
    lemma_stages(env, st, names, routes, ep);
    let owner = ep.name@;
    let path = full_path(ep);
    let params = path_params(path);
    let n = ep.headers@.len() as int;
    let m = ep.response_headers@.len() as int;
    let k = ep.errors@.len() as int;
    let q = ep.query_params@.len() as int;
    let s1 = identity_checked(st, names, routes, ep, path);
    let (s2, response) = response_checked(env, s1, ep);
    let s3 = body_checked(env, s2, ep).0;
    let s4 = errors_checked_n(s3, owner, ep.errors@, k).0;
    let s5 = queries_n(env, s4, owner, ep.query_params@, q).0;
    let (s6, headers) = headers_n(env, s5, owner, ep.headers@, false, n);
    let (s7, response_headers) = headers_n(env, s6, owner, ep.response_headers@, true, m);
    let s8 = wrapped_once(s7, ep, response);
    let s9 = inputs_distinct_n(s8, owner, ep.headers@, params, ep.query_params@, n);
    let s10 = outputs_distinct_n(s9, owner, ep.response_headers@, m);
    let s11 = wires_distinct_n(s10, owner, headers, ep.headers@, "request"@, n);
    let s12 = wires_distinct_n(
        s11,
        owner,
        response_headers,
        ep.response_headers@,
        "response"@,
        m,
    );
    law_error_variants_are_sound(s3, owner, ep.errors@, k);
}

/// The statuses of an endpoint without findings are from 200 to 299, and none
/// comes twice.
pub proof fn law_accepted_endpoint_has_success_codes(
    env: EnvV,
    st: StateV,
    names: Seq<Chars>,
    routes: Seq<(Chars, Chars)>,
    ep: EndpointDecl,
)
    requires
        silent(st, endpoint_checked(env, st, names, routes, ep).0),
    ensures
        forall|i: int|
            0 <= i < ep.response_statuses@.len() ==> 200 <= (
            #[trigger] ep.response_statuses@[i]).status <= 299,
        forall|i: int, j: int|
            0 <= j < i < ep.response_statuses@.len() ==> (
            #[trigger] ep.response_statuses@[j]).status != (
            #[trigger] ep.response_statuses@[i]).status,
{
    lemma_stages(env, st, names, routes, ep);
    let owner = ep.name@;
    let path = full_path(ep);
    let params = path_params(path);
    let n = ep.headers@.len() as int;
    let m = ep.response_headers@.len() as int;
    let k = ep.errors@.len() as int;
    let q = ep.query_params@.len() as int;
    let s1 = identity_checked(st, names, routes, ep, path);
    let (s2, response) = response_checked(env, s1, ep);
    let s3 = body_checked(env, s2, ep).0;
    let s4 = errors_checked_n(s3, owner, ep.errors@, k).0;
    let s5 = queries_n(env, s4, owner, ep.query_params@, q).0;
    let (s6, headers) = headers_n(env, s5, owner, ep.headers@, false, n);
    let (s7, response_headers) = headers_n(env, s6, owner, ep.response_headers@, true, m);
    let s8 = wrapped_once(s7, ep, response);
    let s9 = inputs_distinct_n(s8, owner, ep.headers@, params, ep.query_params@, n);
    let s10 = outputs_distinct_n(s9, owner, ep.response_headers@, m);
    let s11 = wires_distinct_n(s10, owner, headers, ep.headers@, "request"@, n);
    let s12 = wires_distinct_n(
        s11,
        owner,
        response_headers,
        ep.response_headers@,
        "response"@,
        m,
    );
    let r = ep.response_statuses@.len() as int;
    let bare = crate::endpoint::bare_response(env, s1, ep).0;
    if let Some(te) = ep.response {
        kept_resolved_response(env, s1, te);
    }
    assert(kept(s1, bare));
    lemma_counts(s1, bare);
    kept_statuses_n(env, bare, owner, ep.response_statuses@, r);
    lemma_counts(bare, statuses_n(env, bare, owner, ep.response_statuses@, r).0);
    law_statuses_are_sound(env, bare, owner, ep.response_statuses@, r);
    if r > 0 {
        assert(s2 == statuses_n(env, bare, owner, ep.response_statuses@, r).0);
        assert forall|i: int| 0 <= i < r implies 200 <= (
        #[trigger] ep.response_statuses@[i]).status <= 299 && forall|j: int|
            0 <= j < i ==> (#[trigger] ep.response_statuses@[j]).status
                != ep.response_statuses@[i].status by {
            assert(status_accepted(
                env,
                statuses_n(env, bare, owner, ep.response_statuses@, i).0,
                owner,
                ep.response_statuses@,
                i,
                statuses_n(env, bare, owner, ep.response_statuses@, i).2,
            ));
        }
    }
}

/// The request headers of an endpoint without findings are called as no other
/// input is, and its response headers have names of their own.
pub proof fn law_accepted_endpoint_names_inputs_apart(
    env: EnvV,
    st: StateV,
    names: Seq<Chars>,
    routes: Seq<(Chars, Chars)>,
    ep: EndpointDecl,
)
    requires
        silent(st, endpoint_checked(env, st, names, routes, ep).0),
    ensures
        forall|i: int|
            0 <= i < ep.headers@.len() ==> !path_params(full_path(ep)).contains(
                (#[trigger] ep.headers@[i]).name@,
            ),
        forall|i: int, j: int|
            0 <= i < ep.headers@.len() && 0 <= j < ep.query_params@.len() ==> (
            #[trigger] ep.headers@[i]).name@ != (#[trigger] ep.query_params@[j]).name@,
        forall|i: int, j: int|
            0 <= j < i < ep.headers@.len() ==> (#[trigger] ep.headers@[j]).name@ != (
            #[trigger] ep.headers@[i]).name@,
        forall|i: int, j: int|
            0 <= j < i < ep.response_headers@.len() ==> (#[trigger] ep.response_headers@[j]).name@
                != (#[trigger] ep.response_headers@[i]).name@,
{
    lemma_stages(env, st, names, routes, ep);
    let owner = ep.name@;
    let path = full_path(ep);
    let params = path_params(path);
    let n = ep.headers@.len() as int;
    let m = ep.response_headers@.len() as int;
    let k = ep.errors@.len() as int;
    let q = ep.query_params@.len() as int;
    let s1 = identity_checked(st, names, routes, ep, path);
    let (s2, response) = response_checked(env, s1, ep);
    let s3 = body_checked(env, s2, ep).0;
    let s4 = errors_checked_n(s3, owner, ep.errors@, k).0;
    let s5 = queries_n(env, s4, owner, ep.query_params@, q).0;
    let (s6, headers) = headers_n(env, s5, owner, ep.headers@, false, n);
    let (s7, response_headers) = headers_n(env, s6, owner, ep.response_headers@, true, m);
    let s8 = wrapped_once(s7, ep, response);
    let s9 = inputs_distinct_n(s8, owner, ep.headers@, params, ep.query_params@, n);
    let s10 = outputs_distinct_n(s9, owner, ep.response_headers@, m);
    let s11 = wires_distinct_n(s10, owner, headers, ep.headers@, "request"@, n);
    let s12 = wires_distinct_n(
        s11,
        owner,
        response_headers,
        ep.response_headers@,
        "response"@,
        m,
    );
    law_inputs_are_distinct(s8, owner, ep.headers@, params, ep.query_params@, n);
    law_outputs_are_distinct(s9, owner, ep.response_headers@, m);
}

/// No two headers of a request, and no two of a response, of an endpoint without
/// findings go by the same name on the wire.
pub proof fn law_accepted_endpoint_names_wires_apart(
    env: EnvV,
    st: StateV,
    names: Seq<Chars>,
    routes: Seq<(Chars, Chars)>,
    ep: EndpointDecl,
)
    requires
        silent(st, endpoint_checked(env, st, names, routes, ep).0),
    ensures
        ({
            let e = endpoint_checked(env, st, names, routes, ep).1;
            &&& forall|i: int, j: int|
                0 <= j < i < e.headers.len() ==> !same_header(
                    (#[trigger] e.headers[j]).wire_name,
                    (#[trigger] e.headers[i]).wire_name,
                )
            &&& forall|i: int, j: int|
                0 <= j < i < e.response_headers.len() ==> !same_header(
                    (#[trigger] e.response_headers[j]).wire_name,
                    (#[trigger] e.response_headers[i]).wire_name,
                )
        }),
{
    lemma_stages(env, st, names, routes, ep);
    let owner = ep.name@;
    let path = full_path(ep);
    let params = path_params(path);
    let n = ep.headers@.len() as int;
    let m = ep.response_headers@.len() as int;
    let k = ep.errors@.len() as int;
    let q = ep.query_params@.len() as int;
    let s1 = identity_checked(st, names, routes, ep, path);
    let (s2, response) = response_checked(env, s1, ep);
    let s3 = body_checked(env, s2, ep).0;
    let s4 = errors_checked_n(s3, owner, ep.errors@, k).0;
    let s5 = queries_n(env, s4, owner, ep.query_params@, q).0;
    let (s6, headers) = headers_n(env, s5, owner, ep.headers@, false, n);
    let (s7, response_headers) = headers_n(env, s6, owner, ep.response_headers@, true, m);
    let s8 = wrapped_once(s7, ep, response);
    let s9 = inputs_distinct_n(s8, owner, ep.headers@, params, ep.query_params@, n);
    let s10 = outputs_distinct_n(s9, owner, ep.response_headers@, m);
    let s11 = wires_distinct_n(s10, owner, headers, ep.headers@, "request"@, n);
    let s12 = wires_distinct_n(
        s11,
        owner,
        response_headers,
        ep.response_headers@,
        "response"@,
        m,
    );
    law_headers_by_position(env, s5, owner, ep.headers@, false, n);
    law_headers_by_position(env, s6, owner, ep.response_headers@, true, m);
    law_wire_names_are_distinct(s10, owner, headers, ep.headers@, "request"@, n);
    law_wire_names_are_distinct(s11, owner, response_headers, ep.response_headers@, "response"@, m);
}

/// The defaults of an endpoint without findings are literals of the types they
/// are for, as far as they are literals, and response headers have none.
pub proof fn law_accepted_endpoint_has_fitting_defaults(
    env: EnvV,
    st: StateV,
    names: Seq<Chars>,
    routes: Seq<(Chars, Chars)>,
    ep: EndpointDecl,
)
    requires
        silent(st, endpoint_checked(env, st, names, routes, ep).0),
    ensures
        ({
            let e = endpoint_checked(env, st, names, routes, ep).1;
            &&& forall|i: int|
                0 <= i < ep.query_params@.len() ==> literal_of(
                    (#[trigger] ep.query_params@[i]).default_value,
                    e.query_params[i].ty,
                )
            &&& forall|i: int|
                0 <= i < ep.headers@.len() ==> literal_of(
                    (#[trigger] ep.headers@[i]).default_value,
                    e.headers[i].ty,
                )
            &&& forall|i: int|
                0 <= i < ep.response_headers@.len() ==> (
                #[trigger] ep.response_headers@[i]).default_value is None
        }),
{
    lemma_stages(env, st, names, routes, ep);
    let owner = ep.name@;
    let path = full_path(ep);
    let params = path_params(path);
    let n = ep.headers@.len() as int;
    let m = ep.response_headers@.len() as int;
    let k = ep.errors@.len() as int;
    let q = ep.query_params@.len() as int;
    let s1 = identity_checked(st, names, routes, ep, path);
    let (s2, response) = response_checked(env, s1, ep);
    let s3 = body_checked(env, s2, ep).0;
    let s4 = errors_checked_n(s3, owner, ep.errors@, k).0;
    let s5 = queries_n(env, s4, owner, ep.query_params@, q).0;
    let (s6, headers) = headers_n(env, s5, owner, ep.headers@, false, n);
    let (s7, response_headers) = headers_n(env, s6, owner, ep.response_headers@, true, m);
    let s8 = wrapped_once(s7, ep, response);
    let s9 = inputs_distinct_n(s8, owner, ep.headers@, params, ep.query_params@, n);
    let s10 = outputs_distinct_n(s9, owner, ep.response_headers@, m);
    let s11 = wires_distinct_n(s10, owner, headers, ep.headers@, "request"@, n);
    let s12 = wires_distinct_n(
        s11,
        owner,
        response_headers,
        ep.response_headers@,
        "response"@,
        m,
    );
    law_query_parameters_are_sound(env, s4, owner, ep.query_params@, q);
    law_queries_by_position(env, s4, owner, ep.query_params@, q);
    law_headers_are_sound(env, s5, owner, ep.headers@, false, n);
    law_headers_by_position(env, s5, owner, ep.headers@, false, n);
    law_headers_are_sound(env, s6, owner, ep.response_headers@, true, m);
}

/// A valid endpoint comes behind those before it, which stay as they are, with
/// everything that its declaration says.
pub proof fn law_valid_endpoint_is_added(c: CheckerV, ep: EndpointDecl)
    requires
        silent(c.st, endpoint_added(c, ep).st),
    ensures
        ({
            let es = endpoint_added(c, ep).endpoints;
            &&& es.len() == c.endpoints.len() + 1
            &&& forall|i: int| 0 <= i < c.endpoints.len() ==> #[trigger] es[i] == c.endpoints[i]
            &&& es.last().name == ep.name@
            &&& es.last().method == ep.method
            &&& es.last().path == full_path(ep)
            &&& es.last().errors.len() == ep.errors@.len()
            &&& forall|i: int|
                0 <= i < ep.errors@.len() ==> (#[trigger] es.last().errors[i]).0
                    == ep.errors@[i].name@ && es.last().errors[i].1 == ep.errors@[i].status_code
        }),
{
    law_endpoint_has_its_parts(c.env, c.st, c.endpoint_names, c.route_signatures, ep);
}

/// An endpoint with pages answers with a list, and a page holds what the list
/// does; any other answer is a finding.
pub proof fn law_pages_hold_a_list(
    st: StateV,
    ep: EndpointDecl,
    mode: crate::ast::PaginationMode,
    response: Option<Ty>,
)
    ensures
        ({
            let (s, p) = pages_checked(st, ep, mode, response);
            &&& silent(st, s) <==> (response matches Some(Ty::Generic(n, args)) && n == "List"@
                && args.len() == 1)
            &&& silent(st, s) ==> (p matches Some(info) && info.mode == mode && response == Some(
                Ty::Generic("List"@, seq![info.item_type]),
            ))
            &&& !silent(st, s) ==> p is None
        }),
{
    if let Some(Ty::Generic(n, args)) = response {
        if args.len() == 1 {
            assert(args =~= seq![args[0]]);
        }
    }
}

/// A response is a download exactly if it is a struct of one field that is a
/// file; a struct with a file and more is a finding.
pub proof fn law_download_is_one_file(
    env: EnvV,
    st: StateV,
    ep: EndpointDecl,
    response: Option<Ty>,
)
    ensures
        ({
            let (s, is_binary) = download_checked(env, st, ep, response);
            let info = match response {
                Some(t) => struct_named(env, t),
                None => None,
            };
            &&& is_binary <==> (info matches Some(i) && i.is_file_bearing && i.fields.len() == 1
                && i.fields[0].ty == Ty::File)
            &&& silent(st, s) <==> (info matches Some(i) ==> !i.is_file_bearing || (i.fields.len()
                == 1 && i.fields[0].ty == Ty::File))
        }),
{
}

/// The body of an endpoint is made of a struct: it has that struct's name and,
/// without modifiers, a field for each of the struct's, in their order. It is
/// sent as a form exactly if one of its fields is a file.
pub proof fn law_body_is_a_struct(
    env: EnvV,
    st: StateV,
    ep: EndpointDecl,
    dt: crate::ast::DerivedType,
    base: Chars,
    info: crate::info::StructInfoV,
)
    requires
        ep.body == Some(dt),
        base_name(dt.base_type) == Some(base),
        crate::env::in_scope(env, env.structs, base) == Some(info),
    ensures
        ({
            let (s, body, is_form) = body_checked(env, st, ep);
            body matches Some(b) && b.base_type == base && (is_form <==> exists|i: int|
                0 <= i < b.fields.len() && ((#[trigger] b.fields[i]).ty == Ty::File
                    || b.fields[i].ty == Ty::Generic("Option"@, seq![Ty::File]))) && (
            dt.modifiers@.len() == 0 ==> b.fields.len() == info.fields.len() && forall|i: int|
                0 <= i < b.fields.len() ==> (#[trigger] b.fields[i]).name == info.fields[i].name
                    && b.fields[i].ty == info.fields[i].ty && b.fields[i].constraint
                    == info.fields[i].constraint && !b.fields[i].optional)
        }),
{
    law_body_fields_by_position(info.fields, info.fields.len() as int);
    let body = body_checked(env, st, ep).1;
    assert forall|t: Ty| #[trigger] is_file_field(t) <==> t == Ty::File || t == Ty::Generic(
        "Option"@,
        seq![Ty::File],
    ) by {
        if let Ty::Generic(n, args) = t {
            if args.len() == 1 && args[0] == Ty::File {
                assert(args =~= seq![Ty::File]);
            }
        }
    }
}

} // verus!
