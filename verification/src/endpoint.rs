//! Endpoints: their types, their fields and what HTTP asks of them.
use crate::ast::{
    DerivedType, EndpointDecl, EndpointErrorVariant, HeaderParam, HttpMethod, PaginationMode,
    QueryParam, ResponseStatus, TypeExpr, TypeModifier,
};
use crate::check_types::resolved;
use crate::env::{in_scope, named, Env, EnvV};
use crate::info::{
    DefaultValue, DefaultValueV, DerivedField, DerivedFieldV, EndpointInfo, EndpointInfoV,
    FieldInfo, FieldInfoV, HeaderParamInfo, HeaderParamInfoV, PaginationInfo, PaginationInfoV,
    QueryParamInfo, QueryParamInfoV, ResolvedDerivedType, ResolvedDerivedTypeV, ResponseStatusInfo,
    ResponseStatusInfoV,
};
use crate::routes::{
    apply_version_prefix, default_of, extract_default_value, extract_path_params,
    header_wire_name, is_same_header, method_chars, method_text, path_params, route_signature,
    same_header, signature, versioned, wire,
};
use crate::span::Span;
use crate::state::{State, StateV};
use crate::table::{find, Table};
use crate::text::{
    cat3, cat4, cat5, cat7, cat9, decimal, decimal_text, names_contain, push_view, same_text, set_view,
    signed_decimal, signed_decimal_text, Chars, Dup,
};
use crate::types::{same_type, show, Ty, Type};
use vstd::prelude::*;

verus! {

broadcast use crate::ty::view_of_type;

// ── Names and routes ─────────────────────────────────────────────────

/// The name of a method in messages.
pub open spec fn method_word(m: HttpMethod) -> Chars {
    match m {
        HttpMethod::Get => "Get"@,
        HttpMethod::Post => "Post"@,
        HttpMethod::Put => "Put"@,
        HttpMethod::Patch => "Patch"@,
        HttpMethod::Delete => "Delete"@,
    }
}

/// Endpoints have names of their own and routes of their own; `names` are those
/// taken so far, and `routes` the routes with their owners. A second endpoint of
/// a name is not also blamed for its route.
pub open spec fn identity_checked(
    st: StateV,
    names: Seq<Chars>,
    routes: Seq<(Chars, Chars)>,
    ep: EndpointDecl,
    path: Chars,
) -> StateV {
    let taken = names.contains(ep.name@);
    let s1 = st.error_if(taken, "duplicate endpoint name `"@ + ep.name@ + "`"@, ep.span);
    let s2 = match find(routes, signature(ep.method, path)) {
        Some(owner) => s1.error_if(
            !taken,
            "endpoint `"@ + ep.name@ + "`: route `"@ + method_chars(ep.method) + " "@ + path
                + "` conflicts with endpoint `"@ + owner + "`"@,
            ep.span,
        ),
        None => s1,
    };
    s2.error_if(
        ep.body is Some && (ep.method == HttpMethod::Get || ep.method == HttpMethod::Delete),
        "endpoint `"@ + ep.name@ + "`: `body` is not allowed on "@ + method_word(ep.method)
            + " endpoints"@,
        ep.span,
    )
}

// ── Responses ────────────────────────────────────────────────────────

/// A type in response position, where a struct with a `File` may stand.
pub open spec fn resolved_response(env: EnvV, st: StateV, te: TypeExpr) -> (StateV, Ty) {
    let (s, t) = resolved(env, st.files(st.file_field_allowed, true), te);
    (s.files(s.file_field_allowed, st.file_bearing_struct_allowed), t)
}

/// The response of the bare form.
pub open spec fn bare_response(env: EnvV, st: StateV, ep: EndpointDecl) -> (StateV, Option<Ty>) {
    match ep.response {
        Some(te) => {
            let (s, t) = resolved_response(env, st, te);
            (
                s.error_if(
                    t == Ty::Error,
                    "endpoint `"@ + ep.name@ + "`: unknown response type"@,
                    ep.span,
                ),
                Some(t),
            )
        },
        None => (st, None),
    }
}

/// The struct that a type names.
pub open spec fn struct_named(env: EnvV, t: Ty) -> Option<crate::info::StructInfoV> {
    match t {
        Ty::Named(n) => named(env, env.structs, n),
        _ => None,
    }
}

/// The body type of one status of a block: a struct without a `File`.
pub open spec fn status_type(env: EnvV, st: StateV, owner: Chars, rs: ResponseStatus, te: TypeExpr) -> (
    StateV,
    Ty,
) {
    let (s, t) = resolved_response(env, st, te);
    if t == Ty::Error {
        (s, Ty::Error)
    } else {
        match struct_named(env, t) {
            Some(info) => if info.is_file_bearing {
                (
                    s.error(
                        "endpoint `"@ + owner + "`: response status "@ + decimal(rs.status as nat)
                            + " cannot carry file-bearing struct `"@ + t->Named_0
                            + "` — a multi-status `response { }` block is JSON-only; use the bare `response <Type>` form for a binary download"@,
                        rs.span,
                    ),
                    Ty::Error,
                )
            } else {
                (s, t)
            },
            None => (
                s.error(
                    "endpoint `"@ + owner + "`: response status "@ + decimal(rs.status as nat)
                        + " body type must be a named struct (got `"@ + show(t)
                        + "`) — a multi-status `response { }` block carries one struct shape; use the bare `response <Type>` form for list or scalar responses"@,
                    rs.span,
                ),
                Ty::Error,
            ),
        }
    }
}

/// Whether one of the first `k` statuses of a block is `status`.
pub open spec fn status_before(rss: Seq<ResponseStatus>, status: u16, k: int) -> bool {
    exists|j: int| 0 <= j < k && j < rss.len() && (#[trigger] rss[j]).status == status
}

/// What is wrong with a status apart from its type.
pub open spec fn status_code_checked(st: StateV, owner: Chars, rss: Seq<ResponseStatus>, i: int) -> StateV {
    let rs = rss[i];
    let code = decimal(rs.status as nat);
    st.error_if(
        !(200 <= rs.status && rs.status <= 299),
        "endpoint `"@ + owner + "`: response status "@ + code
            + " is not a success code (2xx); failures belong in the `error { }` block"@,
        rs.span,
    ).error_if(
        (rs.status == 204 || rs.status == 205) && rs.ty is Some,
        "endpoint `"@ + owner + "`: status "@ + code
            + " cannot declare a body type — HTTP forbids a body on "@ + code
            + " responses; list it typeless (`"@ + code + "`)"@,
        rs.span,
    ).error_if(
        status_before(rss, rs.status, i),
        "endpoint `"@ + owner + "`: duplicate response status "@ + code,
        rs.span,
    )
}

/// All valid body types of a block have to be the same; `shared` is the one so
/// far.
pub open spec fn type_shared(st: StateV, owner: Chars, t: Option<Ty>, shared: Option<Ty>, span: Span) -> (
    StateV,
    Option<Ty>,
) {
    match t {
        Some(t) => if t == Ty::Error {
            (st, shared)
        } else {
            match shared {
                None => (st, Some(t)),
                Some(first) => (
                    st.error_if(
                        first != t,
                        "endpoint `"@ + owner
                            + "`: all typed response statuses must share one body type (Option A); found `"@
                            + show(first) + "` and `"@ + show(t)
                            + "` — use separate endpoints or `error { }` for different shapes"@,
                        span,
                    ),
                    shared,
                ),
            }
        },
        None => (st, shared),
    }
}

/// The first `n` statuses of a block, and the body type that they share.
pub open spec fn statuses_n(env: EnvV, st: StateV, owner: Chars, rss: Seq<ResponseStatus>, n: int) -> (
    StateV,
    Seq<ResponseStatusInfoV>,
    Option<Ty>,
)
    decreases n,
{
    if n <= 0 || n > rss.len() {
        (st, Seq::empty(), None)
    } else {
        let (s1, infos, shared) = statuses_n(env, st, owner, rss, n - 1);
        let rs = rss[n - 1];
        let s2 = status_code_checked(s1, owner, rss, n - 1);
        let (s3, t) = match rs.ty {
            Some(te) => {
                let (s, t) = status_type(env, s2, owner, rs, te);
                (s, Some(t))
            },
            None => (s2, None),
        };
        let (s4, now) = type_shared(s3, owner, t, shared, rs.span);
        (s4, infos.push(ResponseStatusInfoV { status: rs.status, ty: t }), now)
    }
}

/// Whether the response is a download, and the error if it is half of one.
pub open spec fn download_checked(env: EnvV, st: StateV, ep: EndpointDecl, response: Option<Ty>) -> (
    StateV,
    bool,
) {
    match response {
        Some(t) => match struct_named(env, t) {
            Some(info) => if !info.is_file_bearing {
                (st, false)
            } else if info.fields.len() == 1 && info.fields[0].ty == Ty::File {
                (st, true)
            } else {
                (
                    st.error(
                        "endpoint `"@ + ep.name@ + "`: a `File`-bearing response struct (`"@
                            + t->Named_0
                            + "`) must contain exactly one field of type `File` and nothing else (binary download)"@,
                        ep.span,
                    ),
                    false,
                )
            },
            None => (st, false),
        },
        None => (st, false),
    }
}

/// Only a list can be split into pages.
pub open spec fn pages_checked(st: StateV, ep: EndpointDecl, mode: PaginationMode, response: Option<Ty>) -> (
    StateV,
    Option<PaginationInfoV>,
) {
    let item = match response {
        Some(Ty::Generic(name, args)) => if name == "List"@ && args.len() == 1 {
            Some(args[0])
        } else {
            None
        },
        _ => None,
    };
    match item {
        Some(t) => (st, Some(PaginationInfoV { mode, item_type: t })),
        None => (
            st.error(
                "endpoint `"@ + ep.name@
                    + "`: `pagination` requires the response to be a `List<T>` (got "@ + (
                match response {
                    Some(t) => show(t),
                    None => "no response"@,
                })
                    + "); a paginated response wraps a list — `Option<List<T>>` and non-list responses are not allowed"@,
                ep.span,
            ),
            None,
        ),
    }
}

/// What the response of an endpoint comes to.
#[verifier::ext_equal]
pub struct ResponseV {
    pub response: Option<Ty>,
    pub statuses: Seq<ResponseStatusInfoV>,
    pub is_binary: bool,
    pub pagination: Option<PaginationInfoV>,
}

/// The response: the bare form, or a block of statuses, which is neither a
/// download nor split into pages.
pub open spec fn response_checked(env: EnvV, st: StateV, ep: EndpointDecl) -> (StateV, ResponseV) {
    let (s1, bare) = bare_response(env, st, ep);
    let rss = ep.response_statuses@;
    if rss.len() > 0 {
        let (s2, statuses, shared) = statuses_n(env, s1, ep.name@, rss, rss.len() as int);
        (s2, ResponseV { response: shared, statuses, is_binary: false, pagination: None })
    } else {
        let (s2, is_binary) = download_checked(env, s1, ep, bare);
        let (s3, pagination) = match ep.pagination {
            Some(mode) => pages_checked(s2, ep, mode, bare),
            None => (s2, None),
        };
        (s3, ResponseV { response: bare, statuses: Seq::empty(), is_binary, pagination })
    }
}

// ── Bodies ───────────────────────────────────────────────────────────

/// Whether a field carries a file.
pub open spec fn is_file_field(t: Ty) -> bool {
    match t {
        Ty::File => true,
        Ty::Generic(n, args) => n == "Option"@ && args.len() == 1 && args[0] == Ty::File,
        _ => false,
    }
}

/// Whether a type is a file or a single value.
pub open spec fn is_form_value(t: Ty) -> bool {
    t == Ty::File || t == Ty::Int || t == Ty::Float || t == Ty::Bool || t == Ty::Str
}

/// Whether a field can be a part of a form.
pub open spec fn is_form_field(t: Ty) -> bool {
    match t {
        Ty::Generic(n, args) => n == "Option"@ && args.len() == 1 && is_form_value(args[0]),
        _ => is_form_value(t),
    }
}

/// The first `n` fields of a struct as fields of a body.
pub open spec fn body_fields_n(fs: Seq<FieldInfoV>, n: int) -> Seq<DerivedFieldV>
    decreases n,
{
    if n <= 0 || n > fs.len() {
        Seq::empty()
    } else {
        let f = fs[n - 1];
        body_fields_n(fs, n - 1).push(
            DerivedFieldV {
                name: f.name,
                ty: f.ty,
                optional: false,
                constraint: f.constraint,
                span: f.definition_span,
            },
        )
    }
}

/// The position of the field `name` at or after `i`.
pub open spec fn body_field_at(fs: Seq<DerivedFieldV>, name: Chars, i: int) -> int
    decreases fs.len() - i,
{
    if i < 0 || i >= fs.len() {
        fs.len() as int
    } else if fs[i].name == name {
        i
    } else {
        body_field_at(fs, name, i + 1)
    }
}

/// The error about a field that the body does not have.
pub open spec fn no_field(owner: Chars, base: Chars, field: Chars) -> Chars {
    "endpoint `"@ + owner + "`: field `"@ + field + "` does not exist on struct `"@ + base + "`"@
}

/// The first `n` names, each of which has to be a field.
pub open spec fn fields_exist_n(
    st: StateV,
    owner: Chars,
    base: Chars,
    names: Seq<Chars>,
    fs: Seq<DerivedFieldV>,
    span: Span,
    n: int,
) -> StateV
    decreases n,
{
    if n <= 0 || n > names.len() {
        st
    } else {
        fields_exist_n(st, owner, base, names, fs, span, n - 1).error_if(
            body_field_at(fs, names[n - 1], 0) >= fs.len(),
            no_field(owner, base, names[n - 1]),
            span,
        )
    }
}

/// Those of the first `n` fields whose name is in the list, or is not.
pub open spec fn retained_n(fs: Seq<DerivedFieldV>, names: Seq<Chars>, listed: bool, n: int) -> Seq<
    DerivedFieldV,
>
    decreases n,
{
    if n <= 0 || n > fs.len() {
        Seq::empty()
    } else {
        let rest = retained_n(fs, names, listed, n - 1);
        if names.contains(fs[n - 1].name) == listed {
            rest.push(fs[n - 1])
        } else {
            rest
        }
    }
}

/// The fields with the first `n` names made optional.
pub open spec fn relaxed_n(
    st: StateV,
    owner: Chars,
    base: Chars,
    names: Seq<Chars>,
    fs: Seq<DerivedFieldV>,
    span: Span,
    n: int,
) -> (StateV, Seq<DerivedFieldV>)
    decreases n,
{
    if n <= 0 || n > names.len() {
        (st, fs)
    } else {
        let (s, rest) = relaxed_n(st, owner, base, names, fs, span, n - 1);
        let i = body_field_at(rest, names[n - 1], 0);
        if i < rest.len() {
            (s, rest.update(i, DerivedFieldV { optional: true, ..rest[i] }))
        } else {
            (s.error(no_field(owner, base, names[n - 1]), span), rest)
        }
    }
}

/// The first `n` fields, all made optional.
pub open spec fn all_relaxed_n(fs: Seq<DerivedFieldV>, n: int) -> Seq<DerivedFieldV>
    decreases n,
{
    if n <= 0 || n > fs.len() {
        Seq::empty()
    } else {
        all_relaxed_n(fs, n - 1).push(DerivedFieldV { optional: true, ..fs[n - 1] })
    }
}

/// One modifier of a body.
pub open spec fn modified(
    st: StateV,
    owner: Chars,
    base: Chars,
    m: TypeModifier,
    fs: Seq<DerivedFieldV>,
) -> (StateV, Seq<DerivedFieldV>) {
    match m {
        TypeModifier::Omit { fields, span } => (
            fields_exist_n(
                st,
                owner,
                base,
                fields.deep_view(),
                fs,
                span,
                fields.deep_view().len() as int,
            ),
            retained_n(fs, fields.deep_view(), false, fs.len() as int),
        ),
        TypeModifier::Pick { fields, span } => (
            fields_exist_n(
                st,
                owner,
                base,
                fields.deep_view(),
                fs,
                span,
                fields.deep_view().len() as int,
            ),
            retained_n(fs, fields.deep_view(), true, fs.len() as int),
        ),
        TypeModifier::Partial { fields, span } => match fields {
            Some(names) => relaxed_n(
                st,
                owner,
                base,
                names.deep_view(),
                fs,
                span,
                names.deep_view().len() as int,
            ),
            None => (st, all_relaxed_n(fs, fs.len() as int)),
        },
    }
}

/// The first `n` modifiers of a body, from left to right.
pub open spec fn modified_n(
    st: StateV,
    owner: Chars,
    base: Chars,
    ms: Seq<TypeModifier>,
    fs: Seq<DerivedFieldV>,
    n: int,
) -> (StateV, Seq<DerivedFieldV>)
    decreases n,
{
    if n <= 0 || n > ms.len() {
        (st, fs)
    } else {
        let (s, rest) = modified_n(st, owner, base, ms, fs, n - 1);
        modified(s, owner, base, ms[n - 1], rest)
    }
}

/// The name of the struct that a body starts from.
pub open spec fn base_name(te: TypeExpr) -> Option<Chars> {
    match te {
        TypeExpr::Named(x) => Some(x.name@),
        TypeExpr::Generic(x) => Some(x.name@),
        _ => None,
    }
}

/// The fields of a body: those of a struct, modified.
pub open spec fn derived(env: EnvV, st: StateV, owner: Chars, dt: DerivedType) -> (
    StateV,
    Option<ResolvedDerivedTypeV>,
) {
    match base_name(dt.base_type) {
        None => (
            st.error(
                "endpoint `"@ + owner + "`: body base type must be a struct name"@,
                dt.span,
            ),
            None,
        ),
        Some(base) => match in_scope(env, env.structs, base) {
            None => (
                st.error(
                    "endpoint `"@ + owner + "`: unknown struct `"@ + base + "` in body type"@,
                    dt.span,
                ),
                None,
            ),
            Some(info) => {
                let (s, fields) = modified_n(
                    st,
                    owner,
                    base,
                    dt.modifiers@,
                    body_fields_n(info.fields, info.fields.len() as int),
                    dt.modifiers@.len() as int,
                );
                (s, Some(ResolvedDerivedTypeV { base_type: base, fields }))
            },
        },
    }
}

/// Whether a field carries a file, so that the body is a form.
pub open spec fn has_file(fs: Seq<DerivedFieldV>) -> bool {
    exists|i: int| 0 <= i < fs.len() && is_file_field((#[trigger] fs[i]).ty)
}

/// The first `n` fields of a form.
pub open spec fn form_checked_n(st: StateV, owner: Chars, fs: Seq<DerivedFieldV>, n: int) -> StateV
    decreases n,
{
    if n <= 0 || n > fs.len() {
        st
    } else {
        form_checked_n(st, owner, fs, n - 1).error_if(
            !is_form_field(fs[n - 1].ty),
            "endpoint `"@ + owner + "`: field `"@ + fs[n - 1].name
                + "` of a multipart (file-upload) body must be a `File`, a scalar (`Int`/`Float`/`Bool`/`String`), or an `Option` of one of those — `"@
                + show(fs[n - 1].ty) + "` cannot be sent as a form field"@,
            fs[n - 1].span,
        )
    }
}

/// The body of an endpoint, and whether it is a form.
pub open spec fn body_checked(env: EnvV, st: StateV, ep: EndpointDecl) -> (
    StateV,
    Option<ResolvedDerivedTypeV>,
    bool,
) {
    match ep.body {
        None => (st, None, false),
        Some(dt) => {
            let (s, body) = derived(env, st, ep.name@, dt);
            match body {
                Some(b) => if has_file(b.fields) {
                    (
                        form_checked_n(s, ep.name@, b.fields, b.fields.len() as int),
                        body,
                        true,
                    )
                } else {
                    (s, body, false)
                },
                None => (s, None, false),
            }
        },
    }
}

// ── Errors, parameters, headers ──────────────────────────────────────

/// Whether one of the first `k` error variants has the name.
pub open spec fn error_before(evs: Seq<EndpointErrorVariant>, name: Chars, k: int) -> bool {
    exists|j: int| 0 <= j < k && j < evs.len() && (#[trigger] evs[j]).name@ == name
}

/// The first `n` error variants.
pub open spec fn errors_checked_n(st: StateV, owner: Chars, evs: Seq<EndpointErrorVariant>, n: int) -> (
    StateV,
    Seq<(Chars, i64)>,
)
    decreases n,
{
    if n <= 0 || n > evs.len() {
        (st, Seq::empty())
    } else {
        let (s, rest) = errors_checked_n(st, owner, evs, n - 1);
        let ev = evs[n - 1];
        (
            s.error_if(
                error_before(evs, ev.name@, n - 1),
                "endpoint `"@ + owner + "`: duplicate error variant `"@ + ev.name@ + "`"@,
                ev.span,
            ).error_if(
                !(400 <= ev.status_code && ev.status_code <= 599),
                "endpoint `"@ + owner + "`: status code "@ + signed_decimal(ev.status_code as int)
                    + " is not a client/server error (expected 400–599)"@,
                ev.span,
            ),
            rest.push((ev.name@, ev.status_code)),
        )
    }
}

/// Whether a default value has the type.
pub open spec fn default_fits(d: DefaultValueV, t: Ty) -> bool {
    match d {
        DefaultValueV::Int(_) => t == Ty::Int,
        DefaultValueV::Float(_) => t == Ty::Float,
        DefaultValueV::Str(_) => t == Ty::Str,
        DefaultValueV::Bool(_) => t == Ty::Bool,
    }
}

/// The default value that an expression gives.
pub open spec fn default_given(e: Option<crate::ast::Expr>) -> Option<DefaultValueV> {
    match e {
        Some(e) => default_of(e),
        None => None,
    }
}

/// Whether there is a default value of another type.
pub open spec fn default_misfits(d: Option<DefaultValueV>, t: Ty) -> bool {
    match d {
        Some(d) => !default_fits(d, t) && t != Ty::Error,
        None => false,
    }
}

/// The first `n` query parameters.
pub open spec fn queries_n(env: EnvV, st: StateV, owner: Chars, qs: Seq<QueryParam>, n: int) -> (
    StateV,
    Seq<QueryParamInfoV>,
)
    decreases n,
{
    if n <= 0 || n > qs.len() {
        (st, Seq::empty())
    } else {
        let (s1, rest) = queries_n(env, st, owner, qs, n - 1);
        let q = qs[n - 1];
        let (s2, t) = resolved(env, s1, q.type_annotation);
        let d = default_given(q.default_value);
        (
            s2.error_if(
                default_misfits(d, t),
                "endpoint `"@ + owner + "`: default value for query param `"@ + q.name@
                    + "` does not match type `"@ + show(t) + "`"@,
                q.span,
            ),
            rest.push(
                QueryParamInfoV {
                    name: q.name@,
                    ty: t,
                    has_default: q.default_value is Some,
                    default_value: d,
                },
            ),
        )
    }
}

/// A header. One of a response has no default: nobody receives it.
pub open spec fn header_checked(env: EnvV, st: StateV, owner: Chars, h: HeaderParam, is_response: bool) -> (
    StateV,
    HeaderParamInfoV,
) {
    let (s, t) = resolved(env, st, h.type_annotation);
    let wire_name = match h.wire_name {
        Some(n) => n@,
        None => wire(h.name@),
    };
    if is_response {
        (
            s.error_if(
                h.default_value is Some,
                "endpoint `"@ + owner + "`: response header `"@ + h.name@
                    + "` cannot have a default value (response headers are set by the handler, never received)"@,
                h.span,
            ),
            HeaderParamInfoV {
                name: h.name@,
                wire_name,
                ty: t,
                has_default: false,
                default_value: None,
            },
        )
    } else {
        let d = default_given(h.default_value);
        (
            s.error_if(
                default_misfits(d, t),
                "endpoint `"@ + owner + "`: default value for header `"@ + h.name@
                    + "` does not match type `"@ + show(t) + "`"@,
                h.span,
            ),
            HeaderParamInfoV {
                name: h.name@,
                wire_name,
                ty: t,
                has_default: h.default_value is Some,
                default_value: d,
            },
        )
    }
}

/// The first `n` headers.
pub open spec fn headers_n(
    env: EnvV,
    st: StateV,
    owner: Chars,
    hs: Seq<HeaderParam>,
    is_response: bool,
    n: int,
) -> (StateV, Seq<HeaderParamInfoV>)
    decreases n,
{
    if n <= 0 || n > hs.len() {
        (st, Seq::empty())
    } else {
        let (s1, rest) = headers_n(env, st, owner, hs, is_response, n - 1);
        let (s2, h) = header_checked(env, s1, owner, hs[n - 1], is_response);
        (s2, rest.push(h))
    }
}

/// Whether one of the first `k` headers has the name.
pub open spec fn header_before(hs: Seq<HeaderParam>, name: Chars, k: int) -> bool {
    exists|j: int| 0 <= j < k && j < hs.len() && (#[trigger] hs[j]).name@ == name
}

/// Whether a query parameter has the name.
pub open spec fn query_named(qs: Seq<QueryParam>, name: Chars) -> bool {
    exists|j: int| 0 <= j < qs.len() && (#[trigger] qs[j]).name@ == name
}

/// The first `n` request headers: they share their names with the parameters
/// of the path and the query.
pub open spec fn inputs_distinct_n(
    st: StateV,
    owner: Chars,
    hs: Seq<HeaderParam>,
    params: Seq<Chars>,
    qs: Seq<QueryParam>,
    n: int,
) -> StateV
    decreases n,
{
    if n <= 0 || n > hs.len() {
        st
    } else {
        let h = hs[n - 1];
        inputs_distinct_n(st, owner, hs, params, qs, n - 1).error_if(
            params.contains(h.name@) || query_named(qs, h.name@) || header_before(
                hs,
                h.name@,
                n - 1,
            ),
            "endpoint `"@ + owner + "`: request header `"@ + h.name@
                + "` collides with another endpoint input (path param, query param, or header) of the same name"@,
            h.span,
        )
    }
}

/// The first `n` response headers.
pub open spec fn outputs_distinct_n(st: StateV, owner: Chars, hs: Seq<HeaderParam>, n: int) -> StateV
    decreases n,
{
    if n <= 0 || n > hs.len() {
        st
    } else {
        let h = hs[n - 1];
        outputs_distinct_n(st, owner, hs, n - 1).error_if(
            header_before(hs, h.name@, n - 1),
            "endpoint `"@ + owner + "`: response header `"@ + h.name@
                + "` is declared more than once"@,
            h.span,
        )
    }
}

/// Whether one of the first `k` headers has the name on the wire.
pub open spec fn wire_before(infos: Seq<HeaderParamInfoV>, name: Chars, k: int) -> bool {
    exists|j: int|
        0 <= j < k && j < infos.len() && same_header((#[trigger] infos[j]).wire_name, name)
}

/// The first `n` headers of one direction: no two have the same name on the
/// wire.
pub open spec fn wires_distinct_n(
    st: StateV,
    owner: Chars,
    infos: Seq<HeaderParamInfoV>,
    hs: Seq<HeaderParam>,
    direction: Chars,
    n: int,
) -> StateV
    decreases n,
{
    if n <= 0 || n > infos.len() || n > hs.len() {
        st
    } else {
        wires_distinct_n(st, owner, infos, hs, direction, n - 1).error_if(
            wire_before(infos, infos[n - 1].wire_name, n - 1),
            "endpoint `"@ + owner + "`: "@ + direction + " header wire name `"@
                + infos[n - 1].wire_name + "` is declared by more than one header"@,
            hs[n - 1].span,
        )
    }
}

// ── Endpoints ────────────────────────────────────────────────────────

/// A response has one shape: it cannot be wrapped twice.
pub open spec fn wrapped_once(st: StateV, ep: EndpointDecl, r: ResponseV) -> StateV {
    let owner = ep.name@;
    let hs = ep.response_headers@;
    let multi = ep.response_statuses@.len() > 0;
    st.error_if(
        r.is_binary && hs.len() > 0,
        "endpoint `"@ + owner
            + "`: a binary-download response (a single-`File` response struct) cannot also declare response headers — the response body is the raw file stream, with no envelope to carry header fields"@,
        hs[0].span,
    ).error_if(
        r.pagination is Some && hs.len() > 0,
        "endpoint `"@ + owner
            + "`: `pagination` and response headers cannot be combined — both wrap the response in a generated envelope and a handler has one return value. Carry pagination metadata as response headers instead, or drop one. See docs/known-issues.md."@,
        hs[0].span,
    ).error_if(
        multi && hs.len() > 0,
        "endpoint `"@ + owner
            + "`: a multi-status `response { }` block cannot also declare response headers — both wrap the return value in a generated envelope and a handler has one return value. See docs/known-issues.md"@,
        hs[0].span,
    ).error_if(
        multi && ep.pagination is Some,
        "endpoint `"@ + owner
            + "`: a multi-status `response { }` block cannot also be paginated — both wrap the return value in a generated envelope. See docs/known-issues.md"@,
        ep.response_statuses@[0].span,
    )
}

/// The path of an endpoint with its version.
pub open spec fn full_path(ep: EndpointDecl) -> Chars {
    versioned(
        match ep.api_version {
            Some(v) => Some(v@),
            None => None,
        },
        ep.path@,
    )
}

/// The state after checking an endpoint, and what it comes to; `names` and
/// `routes` are those of the endpoints before it.
pub open spec fn endpoint_checked(
    env: EnvV,
    st: StateV,
    names: Seq<Chars>,
    routes: Seq<(Chars, Chars)>,
    ep: EndpointDecl,
) -> (StateV, EndpointInfoV) {
    let owner = ep.name@;
    let path = full_path(ep);
    let params = path_params(path);
    let s1 = identity_checked(st, names, routes, ep, path);
    let (s2, r) = response_checked(env, s1, ep);
    let (s3, body, is_form) = body_checked(env, s2, ep);
    let (s4, errors) = errors_checked_n(s3, owner, ep.errors@, ep.errors@.len() as int);
    let (s5, queries) = queries_n(
        env,
        s4,
        owner,
        ep.query_params@,
        ep.query_params@.len() as int,
    );
    let (s6, headers) = headers_n(env, s5, owner, ep.headers@, false, ep.headers@.len() as int);
    let (s7, response_headers) = headers_n(
        env,
        s6,
        owner,
        ep.response_headers@,
        true,
        ep.response_headers@.len() as int,
    );
    let s8 = wrapped_once(s7, ep, r);
    let s9 = inputs_distinct_n(
        s8,
        owner,
        ep.headers@,
        params,
        ep.query_params@,
        ep.headers@.len() as int,
    );
    let s10 = outputs_distinct_n(
        s9,
        owner,
        ep.response_headers@,
        ep.response_headers@.len() as int,
    );
    let s11 = wires_distinct_n(
        s10,
        owner,
        headers,
        ep.headers@,
        "request"@,
        ep.headers@.len() as int,
    );
    let s12 = wires_distinct_n(
        s11,
        owner,
        response_headers,
        ep.response_headers@,
        "response"@,
        ep.response_headers@.len() as int,
    );
    (
        s12,
        EndpointInfoV {
            name: owner,
            method: ep.method,
            path,
            path_params: params,
            query_params: queries,
            headers,
            body,
            response: r.response,
            response_statuses: r.statuses,
            response_headers,
            errors,
            doc_comment: match ep.doc_comment {
                Some(d) => Some(d@),
                None => None,
            },
            body_is_multipart: is_form,
            response_is_binary: r.is_binary,
            pagination: r.pagination,
        },
    )
}

// ── Checking ─────────────────────────────────────────────────────────

fn method_name(m: HttpMethod) -> (r: &'static str)
    ensures
        r@ == method_word(m),
{
    match m {
        HttpMethod::Get => "Get",
        HttpMethod::Post => "Post",
        HttpMethod::Put => "Put",
        HttpMethod::Patch => "Patch",
        HttpMethod::Delete => "Delete",
    }
}

fn has_status_before(rss: &Vec<ResponseStatus>, status: u16, k: usize) -> (r: bool)
    requires
        k <= rss.len(),
    ensures
        r == status_before(rss@, status, k as int),
{
    let mut j: usize = 0;
    while j < k
        invariant
            j <= k <= rss.len(),
            forall|q: int| 0 <= q < j ==> (#[trigger] rss@[q]).status != status,
        decreases k - j,
    {
        if rss[j].status == status {
            return true;
        }
        j += 1;
    }
    false
}

fn has_error_before(evs: &Vec<EndpointErrorVariant>, name: &String, k: usize) -> (r: bool)
    requires
        k <= evs.len(),
    ensures
        r == error_before(evs@, name@, k as int),
{
    let mut j: usize = 0;
    while j < k
        invariant
            j <= k <= evs.len(),
            forall|q: int| 0 <= q < j ==> (#[trigger] evs@[q]).name@ != name@,
        decreases k - j,
    {
        if evs[j].name == *name {
            return true;
        }
        j += 1;
    }
    false
}

fn has_header_before(hs: &Vec<HeaderParam>, name: &String, k: usize) -> (r: bool)
    requires
        k <= hs.len(),
    ensures
        r == header_before(hs@, name@, k as int),
{
    let mut j: usize = 0;
    while j < k
        invariant
            j <= k <= hs.len(),
            forall|q: int| 0 <= q < j ==> (#[trigger] hs@[q]).name@ != name@,
        decreases k - j,
    {
        if hs[j].name == *name {
            return true;
        }
        j += 1;
    }
    false
}

fn has_query_named(qs: &Vec<QueryParam>, name: &String) -> (r: bool)
    ensures
        r == query_named(qs@, name@),
{
    let mut j: usize = 0;
    while j < qs.len()
        invariant
            j <= qs.len(),
            forall|q: int| 0 <= q < j ==> (#[trigger] qs@[q]).name@ != name@,
        decreases qs.len() - j,
    {
        if qs[j].name == *name {
            return true;
        }
        j += 1;
    }
    false
}

fn has_wire_before(infos: &Vec<HeaderParamInfo>, name: &String, k: usize) -> (r: bool)
    requires
        k <= infos.len(),
    ensures
        r == wire_before(infos.deep_view(), name@, k as int),
{
    let mut j: usize = 0;
    while j < k
        invariant
            j <= k <= infos.len(),
            forall|q: int|
                0 <= q < j ==> !same_header((#[trigger] infos.deep_view()[q]).wire_name, name@),
        decreases k - j,
    {
        assert(infos.deep_view()[j as int] == infos[j as int].deep_view());
        if is_same_header(&infos[j].wire_name, name) {
            return true;
        }
        j += 1;
    }
    false
}

/// Whether a field carries a file.
pub fn field_type_is_file(t: &Type) -> (r: bool)
    ensures
        r == is_file_field(t@),
{
    match t {
        Type::File => true,
        Type::Generic(n, args) => same_text(n, "Option") && args.len() == 1 && args[0].is_file(),
        _ => false,
    }
}

fn form_value(t: &Type) -> (r: bool)
    ensures
        r == is_form_value(t@),
{
    match t {
        Type::File => true,
        Type::Int => true,
        Type::Float => true,
        Type::Bool => true,
        Type::String => true,
        _ => false,
    }
}

/// Whether a field can be a part of a form.
pub fn is_multipart_field_type(t: &Type) -> (r: bool)
    ensures
        r == is_form_field(t@),
{
    match t {
        Type::Generic(n, args) => same_text(n, "Option") && args.len() == 1 && form_value(
            &args[0],
        ),
        _ => form_value(t),
    }
}

impl<'a> Dup for DerivedField<'a> {
    fn dup(&self) -> (r: Self) {
        DerivedField {
            name: self.name.clone(),
            ty: self.ty.dup(),
            optional: self.optional,
            constraint: self.constraint,
            span: self.span,
        }
    }
}

fn body_fields<'a>(fs: &Vec<FieldInfo<'a>>) -> (r: Vec<DerivedField<'a>>)
    ensures
        r.deep_view() == body_fields_n(fs.deep_view(), fs.deep_view().len() as int),
{
    let mut out: Vec<DerivedField<'a>> = Vec::new();
    assert(out.deep_view() =~= Seq::<DerivedFieldV>::empty());
    let mut i: usize = 0;
    while i < fs.len()
        invariant
            i <= fs.len(),
            out.deep_view() == body_fields_n(fs.deep_view(), i as int),
        decreases fs.len() - i,
    {
        assert(fs.deep_view()[i as int] == fs[i as int].deep_view());
        push_view(
            &mut out,
            DerivedField {
                name: fs[i].name.clone(),
                ty: fs[i].ty.dup(),
                optional: false,
                constraint: fs[i].constraint,
                span: fs[i].definition_span,
            },
        );
        i += 1;
    }
    out
}

fn body_field_index(fs: &Vec<DerivedField<'_>>, name: &String) -> (r: usize)
    ensures
        r == body_field_at(fs.deep_view(), name@, 0),
        r <= fs.len(),
{
    let mut i: usize = 0;
    while i < fs.len()
        invariant
            i <= fs.len(),
            body_field_at(fs.deep_view(), name@, 0) == body_field_at(
                fs.deep_view(),
                name@,
                i as int,
            ),
        decreases fs.len() - i,
    {
        assert(fs.deep_view()[i as int] == fs[i as int].deep_view());
        if fs[i].name == *name {
            return i;
        }
        i += 1;
    }
    i
}

fn retain<'a>(fs: &Vec<DerivedField<'a>>, names: &Vec<String>, listed: bool) -> (r: Vec<
    DerivedField<'a>,
>)
    ensures
        r.deep_view() == retained_n(
            fs.deep_view(),
            names.deep_view(),
            listed,
            fs.deep_view().len() as int,
        ),
{
    let mut out: Vec<DerivedField<'a>> = Vec::new();
    assert(out.deep_view() =~= Seq::<DerivedFieldV>::empty());
    let mut i: usize = 0;
    while i < fs.len()
        invariant
            i <= fs.len(),
            out.deep_view() == retained_n(fs.deep_view(), names.deep_view(), listed, i as int),
        decreases fs.len() - i,
    {
        assert(fs.deep_view()[i as int] == fs[i as int].deep_view());
        if names_contain(names, &fs[i].name) == listed {
            push_view(&mut out, fs[i].dup());
        }
        i += 1;
    }
    out
}

fn relax_all<'a>(fs: &Vec<DerivedField<'a>>) -> (r: Vec<DerivedField<'a>>)
    ensures
        r.deep_view() == all_relaxed_n(fs.deep_view(), fs.deep_view().len() as int),
{
    let mut out: Vec<DerivedField<'a>> = Vec::new();
    assert(out.deep_view() =~= Seq::<DerivedFieldV>::empty());
    let mut i: usize = 0;
    while i < fs.len()
        invariant
            i <= fs.len(),
            out.deep_view() == all_relaxed_n(fs.deep_view(), i as int),
        decreases fs.len() - i,
    {
        assert(fs.deep_view()[i as int] == fs[i as int].deep_view());
        let mut f = fs[i].dup();
        f.optional = true;
        push_view(&mut out, f);
        i += 1;
    }
    out
}

fn any_file(fs: &Vec<DerivedField<'_>>) -> (r: bool)
    ensures
        r == has_file(fs.deep_view()),
{
    let mut i: usize = 0;
    while i < fs.len()
        invariant
            i <= fs.len(),
            forall|j: int| 0 <= j < i ==> !is_file_field((#[trigger] fs.deep_view()[j]).ty),
        decreases fs.len() - i,
    {
        assert(fs.deep_view()[i as int] == fs[i as int].deep_view());
        if field_type_is_file(&fs[i].ty) {
            return true;
        }
        i += 1;
    }
    false
}

fn default_value_fits(d: &DefaultValue, t: &Type) -> (r: bool)
    ensures
        r == default_fits(d.deep_view(), t@),
{
    match d {
        DefaultValue::Int(_) => t.is_int(),
        DefaultValue::Float(_) => {
            match t {
                Type::Float => true,
                _ => false,
            }
        },
        DefaultValue::String(_) => t.is_string(),
        DefaultValue::Bool(_) => t.is_bool(),
    }
}

fn given_default(e: &Option<crate::ast::Expr>) -> (r: Option<DefaultValue>)
    ensures
        r.deep_view() == default_given(*e),
{
    match e {
        Some(e) => extract_default_value(e),
        None => None,
    }
}

fn default_is_misfit(d: &Option<DefaultValue>, t: &Type) -> (r: bool)
    ensures
        r == default_misfits(d.deep_view(), t@),
{
    match d {
        Some(d) => !default_value_fits(d, t) && !t.is_error(),
        None => false,
    }
}

/// What the response of an endpoint comes to.
struct Response {
    response: Option<Type>,
    statuses: Vec<ResponseStatusInfo>,
    is_binary: bool,
    pagination: Option<PaginationInfo>,
}

impl DeepView for Response {
    type V = ResponseV;

    closed spec fn deep_view(&self) -> ResponseV {
        ResponseV {
            response: self.response.deep_view(),
            statuses: self.statuses.deep_view(),
            is_binary: self.is_binary,
            pagination: self.pagination.deep_view(),
        }
    }
}

impl State {
    fn check_identity(
        &mut self,
        names: &Vec<String>,
        routes: &Table<String, String>,
        ep: &EndpointDecl,
        path: &String,
    )
        ensures
            final(self)@ == identity_checked(
                old(self)@,
                names.deep_view(),
                routes@,
                *ep,
                path@,
            ),
    {
        let taken = names_contain(names, &ep.name);
        if taken {
            self.error(cat3("duplicate endpoint name `", &ep.name, "`"), ep.span);
        }
        if let Some(owner) = routes.get(&route_signature(ep.method, path)) {
            if !taken {
                self.error(
                    cat9(
                        "endpoint `",
                        &ep.name,
                        "`: route `",
                        method_text(ep.method),
                        " ",
                        path,
                        "` conflicts with endpoint `",
                        owner,
                        "`",
                    ),
                    ep.span,
                );
            }
        }
        if ep.body.is_some() && (ep.method == HttpMethod::Get || ep.method == HttpMethod::Delete) {
            self.error(
                cat5(
                    "endpoint `",
                    &ep.name,
                    "`: `body` is not allowed on ",
                    method_name(ep.method),
                    " endpoints",
                ),
                ep.span,
            );
        }
    }

    fn resolve_response(&mut self, env: &Env<'_>, te: &TypeExpr) -> (r: Type)
        ensures
            (final(self)@, r@) == resolved_response(env@, old(self)@, *te),
    {
        let outer = self.is_file_bearing_struct_allowed();
        let field = self.is_file_field_allowed();
        self.set_files(field, true);
        let t = self.resolve_type_expr(env, te);
        let field_after = self.is_file_field_allowed();
        self.set_files(field_after, outer);
        t
    }

    fn check_bare_response(&mut self, env: &Env<'_>, ep: &EndpointDecl) -> (r: Option<Type>)
        ensures
            (final(self)@, r.deep_view()) == bare_response(env@, old(self)@, *ep),
    {
        match &ep.response {
            Some(te) => {
                let t = self.resolve_response(env, te);
                if t.is_error() {
                    self.error(
                        cat3("endpoint `", &ep.name, "`: unknown response type"),
                        ep.span,
                    );
                }
                Some(t)
            },
            None => None,
        }
    }

    fn check_status_type(
        &mut self,
        env: &Env<'_>,
        owner: &String,
        rs: &ResponseStatus,
        te: &TypeExpr,
    ) -> (r: Type)
        ensures
            (final(self)@, r@) == status_type(env@, old(self)@, owner@, *rs, *te),
    {
        let t = self.resolve_response(env, te);
        if t.is_error() {
            return Type::Error;
        }
        let code = decimal_text(rs.status as u64);
        if let Type::Named(name) = &t {
            if let Some(info) = env.struct_of(name) {
                if !info.is_file_bearing {
                    return t;
                }
                self.error(
                    cat7(
                        "endpoint `",
                        owner,
                        "`: response status ",
                        &code,
                        " cannot carry file-bearing struct `",
                        name,
                        "` — a multi-status `response { }` block is JSON-only; use the bare `response <Type>` form for a binary download",
                    ),
                    rs.span,
                );
                return Type::Error;
            }
        }
        self.error(
            cat7(
                "endpoint `",
                owner,
                "`: response status ",
                &code,
                " body type must be a named struct (got `",
                &t.text(),
                "`) — a multi-status `response { }` block carries one struct shape; use the bare `response <Type>` form for list or scalar responses",
            ),
            rs.span,
        );
        Type::Error
    }

    fn check_status_code(&mut self, owner: &String, rss: &Vec<ResponseStatus>, i: usize)
        requires
            i < rss.len(),
        ensures
            final(self)@ == status_code_checked(old(self)@, owner@, rss@, i as int),
    {
        let rs = &rss[i];
        let code = decimal_text(rs.status as u64);
        if !(200 <= rs.status && rs.status <= 299) {
            self.error(
                cat5(
                    "endpoint `",
                    owner,
                    "`: response status ",
                    &code,
                    " is not a success code (2xx); failures belong in the `error { }` block",
                ),
                rs.span,
            );
        }
        if (rs.status == 204 || rs.status == 205) && rs.ty.is_some() {
            self.error(
                cat9(
                    "endpoint `",
                    owner,
                    "`: status ",
                    &code,
                    " cannot declare a body type — HTTP forbids a body on ",
                    &code,
                    " responses; list it typeless (`",
                    &code,
                    "`)",
                ),
                rs.span,
            );
        }
        if has_status_before(rss, rs.status, i) {
            self.error(
                cat4("endpoint `", owner, "`: duplicate response status ", &code),
                rs.span,
            );
        }
    }

    fn share_type(&mut self, owner: &String, t: &Option<Type>, shared: Option<Type>, span: Span) -> (r: Option<
        Type,
    >)
        ensures
            (final(self)@, r.deep_view()) == type_shared(
                old(self)@,
                owner@,
                t.deep_view(),
                shared.deep_view(),
                span,
            ),
    {
        match t {
            Some(t) => {
                if t.is_error() {
                    return shared;
                }
                match shared {
                    None => Some(t.dup()),
                    Some(first) => {
                        if !same_type(&first, t) {
                            self.error(
                                cat7(
                                    "endpoint `",
                                    owner,
                                    "`: all typed response statuses must share one body type (Option A); found `",
                                    &first.text(),
                                    "` and `",
                                    &t.text(),
                                    "` — use separate endpoints or `error { }` for different shapes",
                                ),
                                span,
                            );
                        }
                        Some(first)
                    },
                }
            },
            None => shared,
        }
    }

    fn check_response_statuses(&mut self, env: &Env<'_>, owner: &String, rss: &Vec<ResponseStatus>) -> (r: (
        Vec<ResponseStatusInfo>,
        Option<Type>,
    ))
        ensures
            (final(self)@, r.0.deep_view(), r.1.deep_view()) == statuses_n(
                env@,
                old(self)@,
                owner@,
                rss@,
                rss@.len() as int,
            ),
    {
        let mut infos: Vec<ResponseStatusInfo> = Vec::new();
        let mut shared: Option<Type> = None;
        assert(infos.deep_view() =~= Seq::<ResponseStatusInfoV>::empty());
        let mut i: usize = 0;
        while i < rss.len()
            invariant
                i <= rss.len(),
                (self@, infos.deep_view(), shared.deep_view()) == statuses_n(
                    env@,
                    old(self)@,
                    owner@,
                    rss@,
                    i as int,
                ),
            decreases rss.len() - i,
        {
            self.check_status_code(owner, rss, i);
            let t = match &rss[i].ty {
                Some(te) => Some(self.check_status_type(env, owner, &rss[i], te)),
                None => None,
            };
            shared = self.share_type(owner, &t, shared, rss[i].span);
            push_view(&mut infos, ResponseStatusInfo { status: rss[i].status, ty: t });
            i += 1;
        }
        (infos, shared)
    }

    fn check_download(&mut self, env: &Env<'_>, ep: &EndpointDecl, response: &Option<Type>) -> (r: bool)
        ensures
            (final(self)@, r) == download_checked(
                env@,
                old(self)@,
                *ep,
                response.deep_view(),
            ),
    {
        if let Some(t) = response {
            if let Type::Named(name) = t {
                if let Some(info) = env.struct_of(name) {
                    if !info.is_file_bearing {
                        return false;
                    }
                    if info.fields.len() == 1 {
                        assert(info.deep_view().fields[0] == info.fields[0].deep_view());
                        if info.fields[0].ty.is_file() {
                            return true;
                        }
                    }
                    self.error(
                        cat5(
                            "endpoint `",
                            &ep.name,
                            "`: a `File`-bearing response struct (`",
                            name,
                            "`) must contain exactly one field of type `File` and nothing else (binary download)",
                        ),
                        ep.span,
                    );
                }
            }
        }
        false
    }

    fn check_pages(&mut self, ep: &EndpointDecl, mode: PaginationMode, response: &Option<Type>) -> (r: Option<
        PaginationInfo,
    >)
        ensures
            (final(self)@, r.deep_view()) == pages_checked(
                old(self)@,
                *ep,
                mode,
                response.deep_view(),
            ),
    {
        if let Some(Type::Generic(name, args)) = response {
            if same_text(name, "List") && args.len() == 1 {
                return Some(PaginationInfo { mode, item_type: args[0].dup() });
            }
        }
        let got = match response {
            Some(t) => t.text(),
            None => "no response".to_owned(),
        };
        self.error(
            cat5(
                "endpoint `",
                &ep.name,
                "`: `pagination` requires the response to be a `List<T>` (got ",
                &got,
                "); a paginated response wraps a list — `Option<List<T>>` and non-list responses are not allowed",
            ),
            ep.span,
        );
        None
    }

    fn check_response(&mut self, env: &Env<'_>, ep: &EndpointDecl) -> (r: Response)
        ensures
            (final(self)@, r.deep_view()) == response_checked(env@, old(self)@, *ep),
    {
        let bare = self.check_bare_response(env, ep);
        if ep.response_statuses.len() > 0 {
            let (statuses, shared) = self.check_response_statuses(
                env,
                &ep.name,
                &ep.response_statuses,
            );
            return Response { response: shared, statuses, is_binary: false, pagination: None };
        }
        let is_binary = self.check_download(env, ep, &bare);
        let pagination = match ep.pagination {
            Some(mode) => self.check_pages(ep, mode, &bare),
            None => None,
        };
        let statuses: Vec<ResponseStatusInfo> = Vec::new();
        assert(statuses.deep_view() =~= Seq::<ResponseStatusInfoV>::empty());
        Response { response: bare, statuses, is_binary, pagination }
    }

    fn report_no_field(&mut self, owner: &String, base: &String, field: &String, span: Span)
        ensures
            final(self)@ == old(self)@.error(no_field(owner@, base@, field@), span),
    {
        self.error(
            cat7(
                "endpoint `",
                owner,
                "`: field `",
                field,
                "` does not exist on struct `",
                base,
                "`",
            ),
            span,
        );
    }

    fn validate_field_names(
        &mut self,
        owner: &String,
        base: &String,
        names: &Vec<String>,
        fs: &Vec<DerivedField<'_>>,
        span: Span,
    )
        ensures
            final(self)@ == fields_exist_n(
                old(self)@,
                owner@,
                base@,
                names.deep_view(),
                fs.deep_view(),
                span,
                names.deep_view().len() as int,
            ),
    {
        let mut i: usize = 0;
        while i < names.len()
            invariant
                i <= names.len(),
                self@ == fields_exist_n(
                    old(self)@,
                    owner@,
                    base@,
                    names.deep_view(),
                    fs.deep_view(),
                    span,
                    i as int,
                ),
            decreases names.len() - i,
        {
            if body_field_index(fs, &names[i]) >= fs.len() {
                self.report_no_field(owner, base, &names[i], span);
            }
            i += 1;
        }
    }

    fn relax<'a>(
        &mut self,
        owner: &String,
        base: &String,
        names: &Vec<String>,
        fs: Vec<DerivedField<'a>>,
        span: Span,
    ) -> (r: Vec<DerivedField<'a>>)
        ensures
            (final(self)@, r.deep_view()) == relaxed_n(
                old(self)@,
                owner@,
                base@,
                names.deep_view(),
                fs.deep_view(),
                span,
                names.deep_view().len() as int,
            ),
    {
        let ghost before = fs.deep_view();
        let mut out = fs;
        let mut i: usize = 0;
        while i < names.len()
            invariant
                i <= names.len(),
                (self@, out.deep_view()) == relaxed_n(
                    old(self)@,
                    owner@,
                    base@,
                    names.deep_view(),
                    before,
                    span,
                    i as int,
                ),
            decreases names.len() - i,
        {
            let at: usize = body_field_index(&out, &names[i]);
            if at < out.len() {
                assert(out.deep_view()[at as int] == out[at as int].deep_view());
                let mut f = out[at].dup();
                f.optional = true;
                set_view(&mut out, at, f);
            } else {
                self.report_no_field(owner, base, &names[i], span);
            }
            i += 1;
        }
        out
    }

    fn modify<'a>(
        &mut self,
        owner: &String,
        base: &String,
        m: &TypeModifier,
        fs: Vec<DerivedField<'a>>,
    ) -> (r: Vec<DerivedField<'a>>)
        ensures
            (final(self)@, r.deep_view()) == modified(
                old(self)@,
                owner@,
                base@,
                *m,
                fs.deep_view(),
            ),
    {
        match m {
            TypeModifier::Omit { fields, span } => {
                self.validate_field_names(owner, base, fields, &fs, *span);
                retain(&fs, fields, false)
            },
            TypeModifier::Pick { fields, span } => {
                self.validate_field_names(owner, base, fields, &fs, *span);
                retain(&fs, fields, true)
            },
            TypeModifier::Partial { fields, span } => match fields {
                Some(names) => self.relax(owner, base, names, fs, *span),
                None => relax_all(&fs),
            },
        }
    }

    fn resolve_derived_type<'a>(&mut self, env: &Env<'a>, owner: &String, dt: &DerivedType) -> (r: Option<
        ResolvedDerivedType<'a>,
    >)
        ensures
            (final(self)@, r.deep_view()) == derived(env@, old(self)@, owner@, *dt),
    {
        let base = match &dt.base_type {
            TypeExpr::Named(x) => x.name.clone(),
            TypeExpr::Generic(x) => x.name.clone(),
            _ => {
                self.error(
                    cat3("endpoint `", owner, "`: body base type must be a struct name"),
                    dt.span,
                );
                return None;
            },
        };
        match env.lookup_struct(&base) {
            None => {
                self.error(
                    cat5("endpoint `", owner, "`: unknown struct `", &base, "` in body type"),
                    dt.span,
                );
                None
            },
            Some(info) => {
                let mut fields = body_fields(&info.fields);
                let ghost before = fields.deep_view();
                let mut i: usize = 0;
                while i < dt.modifiers.len()
                    invariant
                        i <= dt.modifiers.len(),
                        (self@, fields.deep_view()) == modified_n(
                            old(self)@,
                            owner@,
                            base@,
                            dt.modifiers@,
                            before,
                            i as int,
                        ),
                    decreases dt.modifiers.len() - i,
                {
                    fields = self.modify(owner, &base, &dt.modifiers[i], fields);
                    i += 1;
                }
                Some(ResolvedDerivedType { base_type: base, fields })
            },
        }
    }

    fn check_form(&mut self, owner: &String, fs: &Vec<DerivedField<'_>>)
        ensures
            final(self)@ == form_checked_n(
                old(self)@,
                owner@,
                fs.deep_view(),
                fs.deep_view().len() as int,
            ),
    {
        let mut i: usize = 0;
        while i < fs.len()
            invariant
                i <= fs.len(),
                self@ == form_checked_n(old(self)@, owner@, fs.deep_view(), i as int),
            decreases fs.len() - i,
        {
            assert(fs.deep_view()[i as int] == fs[i as int].deep_view());
            if !is_multipart_field_type(&fs[i].ty) {
                self.error(
                    cat7(
                        "endpoint `",
                        owner,
                        "`: field `",
                        &fs[i].name,
                        "` of a multipart (file-upload) body must be a `File`, a scalar (`Int`/`Float`/`Bool`/`String`), or an `Option` of one of those — `",
                        &fs[i].ty.text(),
                        "` cannot be sent as a form field",
                    ),
                    fs[i].span,
                );
            }
            i += 1;
        }
    }

    fn check_body<'a>(&mut self, env: &Env<'a>, ep: &EndpointDecl) -> (r: (
        Option<ResolvedDerivedType<'a>>,
        bool,
    ))
        ensures
            (final(self)@, r.0.deep_view(), r.1) == body_checked(env@, old(self)@, *ep),
    {
        match &ep.body {
            None => (None, false),
            Some(dt) => {
                let body = self.resolve_derived_type(env, &ep.name, dt);
                let is_form = match &body {
                    Some(b) => any_file(&b.fields),
                    None => false,
                };
                if is_form {
                    if let Some(b) = &body {
                        self.check_form(&ep.name, &b.fields);
                    }
                }
                (body, is_form)
            },
        }
    }

    fn check_errors(&mut self, owner: &String, evs: &Vec<EndpointErrorVariant>) -> (r: Vec<
        (String, i64),
    >)
        ensures
            (final(self)@, r.deep_view()) == errors_checked_n(
                old(self)@,
                owner@,
                evs@,
                evs@.len() as int,
            ),
    {
        let mut out: Vec<(String, i64)> = Vec::new();
        assert(out.deep_view() =~= Seq::<(Chars, i64)>::empty());
        let mut i: usize = 0;
        while i < evs.len()
            invariant
                i <= evs.len(),
                (self@, out.deep_view()) == errors_checked_n(
                    old(self)@,
                    owner@,
                    evs@,
                    i as int,
                ),
            decreases evs.len() - i,
        {
            let ev = &evs[i];
            if has_error_before(evs, &ev.name, i) {
                self.error(
                    cat5("endpoint `", owner, "`: duplicate error variant `", &ev.name, "`"),
                    ev.span,
                );
            }
            if !(400 <= ev.status_code && ev.status_code <= 599) {
                self.error(
                    cat5(
                        "endpoint `",
                        owner,
                        "`: status code ",
                        &signed_decimal_text(ev.status_code),
                        " is not a client/server error (expected 400–599)",
                    ),
                    ev.span,
                );
            }
            push_view(&mut out, (ev.name.clone(), ev.status_code));
            i += 1;
        }
        out
    }

    fn check_queries(&mut self, env: &Env<'_>, owner: &String, qs: &Vec<QueryParam>) -> (r: Vec<
        QueryParamInfo,
    >)
        ensures
            (final(self)@, r.deep_view()) == queries_n(
                env@,
                old(self)@,
                owner@,
                qs@,
                qs@.len() as int,
            ),
    {
        let mut out: Vec<QueryParamInfo> = Vec::new();
        assert(out.deep_view() =~= Seq::<QueryParamInfoV>::empty());
        let mut i: usize = 0;
        while i < qs.len()
            invariant
                i <= qs.len(),
                (self@, out.deep_view()) == queries_n(env@, old(self)@, owner@, qs@, i as int),
            decreases qs.len() - i,
        {
            let q = &qs[i];
            let t = self.resolve_type_expr(env, &q.type_annotation);
            let d = given_default(&q.default_value);
            if default_is_misfit(&d, &t) {
                self.error(
                    cat7(
                        "endpoint `",
                        owner,
                        "`: default value for query param `",
                        &q.name,
                        "` does not match type `",
                        &t.text(),
                        "`",
                    ),
                    q.span,
                );
            }
            push_view(
                &mut out,
                QueryParamInfo {
                    name: q.name.clone(),
                    ty: t,
                    has_default: q.default_value.is_some(),
                    default_value: d,
                },
            );
            i += 1;
        }
        out
    }

    fn resolve_header(&mut self, env: &Env<'_>, owner: &String, h: &HeaderParam, is_response: bool) -> (r: HeaderParamInfo)
        ensures
            (final(self)@, r.deep_view()) == header_checked(
                env@,
                old(self)@,
                owner@,
                *h,
                is_response,
            ),
    {
        let t = self.resolve_type_expr(env, &h.type_annotation);
        let wire_name = match &h.wire_name {
            Some(n) => n.clone(),
            None => header_wire_name(&h.name),
        };
        if is_response {
            if h.default_value.is_some() {
                self.error(
                    cat5(
                        "endpoint `",
                        owner,
                        "`: response header `",
                        &h.name,
                        "` cannot have a default value (response headers are set by the handler, never received)",
                    ),
                    h.span,
                );
            }
            return HeaderParamInfo {
                name: h.name.clone(),
                wire_name,
                ty: t,
                has_default: false,
                default_value: None,
            };
        }
        let d = given_default(&h.default_value);
        if default_is_misfit(&d, &t) {
            self.error(
                cat7(
                    "endpoint `",
                    owner,
                    "`: default value for header `",
                    &h.name,
                    "` does not match type `",
                    &t.text(),
                    "`",
                ),
                h.span,
            );
        }
        HeaderParamInfo {
            name: h.name.clone(),
            wire_name,
            ty: t,
            has_default: h.default_value.is_some(),
            default_value: d,
        }
    }

    fn check_headers(
        &mut self,
        env: &Env<'_>,
        owner: &String,
        hs: &Vec<HeaderParam>,
        is_response: bool,
    ) -> (r: Vec<HeaderParamInfo>)
        ensures
            (final(self)@, r.deep_view()) == headers_n(
                env@,
                old(self)@,
                owner@,
                hs@,
                is_response,
                hs@.len() as int,
            ),
            r@.len() == hs@.len(),
    {
        let mut out: Vec<HeaderParamInfo> = Vec::new();
        assert(out.deep_view() =~= Seq::<HeaderParamInfoV>::empty());
        let mut i: usize = 0;
        while i < hs.len()
            invariant
                i <= hs.len(),
                out@.len() == i,
                (self@, out.deep_view()) == headers_n(
                    env@,
                    old(self)@,
                    owner@,
                    hs@,
                    is_response,
                    i as int,
                ),
            decreases hs.len() - i,
        {
            let h = self.resolve_header(env, owner, &hs[i], is_response);
            push_view(&mut out, h);
            i += 1;
        }
        out
    }

    fn check_inputs_distinct(
        &mut self,
        owner: &String,
        hs: &Vec<HeaderParam>,
        params: &Vec<String>,
        qs: &Vec<QueryParam>,
    )
        ensures
            final(self)@ == inputs_distinct_n(
                old(self)@,
                owner@,
                hs@,
                params.deep_view(),
                qs@,
                hs@.len() as int,
            ),
    {
        let mut i: usize = 0;
        while i < hs.len()
            invariant
                i <= hs.len(),
                self@ == inputs_distinct_n(
                    old(self)@,
                    owner@,
                    hs@,
                    params.deep_view(),
                    qs@,
                    i as int,
                ),
            decreases hs.len() - i,
        {
            let h = &hs[i];
            if names_contain(params, &h.name) || has_query_named(qs, &h.name) || has_header_before(
                hs,
                &h.name,
                i,
            ) {
                self.error(
                    cat5(
                        "endpoint `",
                        owner,
                        "`: request header `",
                        &h.name,
                        "` collides with another endpoint input (path param, query param, or header) of the same name",
                    ),
                    h.span,
                );
            }
            i += 1;
        }
    }

    fn check_outputs_distinct(&mut self, owner: &String, hs: &Vec<HeaderParam>)
        ensures
            final(self)@ == outputs_distinct_n(old(self)@, owner@, hs@, hs@.len() as int),
    {
        let mut i: usize = 0;
        while i < hs.len()
            invariant
                i <= hs.len(),
                self@ == outputs_distinct_n(old(self)@, owner@, hs@, i as int),
            decreases hs.len() - i,
        {
            let h = &hs[i];
            if has_header_before(hs, &h.name, i) {
                self.error(
                    cat5(
                        "endpoint `",
                        owner,
                        "`: response header `",
                        &h.name,
                        "` is declared more than once",
                    ),
                    h.span,
                );
            }
            i += 1;
        }
    }

    fn check_header_wire_name_uniqueness(
        &mut self,
        owner: &String,
        infos: &Vec<HeaderParamInfo>,
        hs: &Vec<HeaderParam>,
        direction: &str,
    )
        requires
            infos@.len() == hs@.len(),
        ensures
            final(self)@ == wires_distinct_n(
                old(self)@,
                owner@,
                infos.deep_view(),
                hs@,
                direction@,
                hs@.len() as int,
            ),
    {
        let mut i: usize = 0;
        while i < hs.len()
            invariant
                i <= hs.len(),
                infos@.len() == hs@.len(),
                self@ == wires_distinct_n(
                    old(self)@,
                    owner@,
                    infos.deep_view(),
                    hs@,
                    direction@,
                    i as int,
                ),
            decreases hs.len() - i,
        {
            assert(infos.deep_view()[i as int] == infos[i as int].deep_view());
            if has_wire_before(infos, &infos[i].wire_name, i) {
                self.error(
                    cat7(
                        "endpoint `",
                        owner,
                        "`: ",
                        direction,
                        " header wire name `",
                        &infos[i].wire_name,
                        "` is declared by more than one header",
                    ),
                    hs[i].span,
                );
            }
            i += 1;
        }
    }

    fn check_wrapped_once(&mut self, ep: &EndpointDecl, r: &Response)
        ensures
            final(self)@ == wrapped_once(old(self)@, *ep, r.deep_view()),
    {
        let multi = ep.response_statuses.len() > 0;
        if ep.response_headers.len() > 0 {
            let span = ep.response_headers[0].span;
            if r.is_binary {
                self.error(
                    cat3(
                        "endpoint `",
                        &ep.name,
                        "`: a binary-download response (a single-`File` response struct) cannot also declare response headers — the response body is the raw file stream, with no envelope to carry header fields",
                    ),
                    span,
                );
            }
            if r.pagination.is_some() {
                self.error(
                    cat3(
                        "endpoint `",
                        &ep.name,
                        "`: `pagination` and response headers cannot be combined — both wrap the response in a generated envelope and a handler has one return value. Carry pagination metadata as response headers instead, or drop one. See docs/known-issues.md.",
                    ),
                    span,
                );
            }
            if multi {
                self.error(
                    cat3(
                        "endpoint `",
                        &ep.name,
                        "`: a multi-status `response { }` block cannot also declare response headers — both wrap the return value in a generated envelope and a handler has one return value. See docs/known-issues.md",
                    ),
                    span,
                );
            }
        }
        if multi && ep.pagination.is_some() {
            self.error(
                cat3(
                    "endpoint `",
                    &ep.name,
                    "`: a multi-status `response { }` block cannot also be paginated — both wrap the return value in a generated envelope. See docs/known-issues.md",
                ),
                ep.response_statuses[0].span,
            );
        }
    }

    /// Checks an endpoint and returns what it comes to; `names` and `routes` are
    /// those of the endpoints before it.
    pub fn resolve_endpoint<'a>(
        &mut self,
        env: &Env<'a>,
        names: &Vec<String>,
        routes: &Table<String, String>,
        ep: &EndpointDecl,
    ) -> (r: EndpointInfo<'a>)
        ensures
            (final(self)@, r.deep_view()) == endpoint_checked(
                env@,
                old(self)@,
                names.deep_view(),
                routes@,
                *ep,
            ),
    {
        let version = match &ep.api_version {
            Some(v) => Some(v.as_str()),
            None => None,
        };
        let path = apply_version_prefix(version, &ep.path);
        let params = extract_path_params(&path);
        self.check_identity(names, routes, ep, &path);
        let r = self.check_response(env, ep);
        let (body, is_form) = self.check_body(env, ep);
        let errors = self.check_errors(&ep.name, &ep.errors);
        let queries = self.check_queries(env, &ep.name, &ep.query_params);
        let headers = self.check_headers(env, &ep.name, &ep.headers, false);
        let response_headers = self.check_headers(env, &ep.name, &ep.response_headers, true);
        self.check_wrapped_once(ep, &r);
        self.check_inputs_distinct(&ep.name, &ep.headers, &params, &ep.query_params);
        self.check_outputs_distinct(&ep.name, &ep.response_headers);
        self.check_header_wire_name_uniqueness(&ep.name, &headers, &ep.headers, "request");
        self.check_header_wire_name_uniqueness(
            &ep.name,
            &response_headers,
            &ep.response_headers,
            "response",
        );
        EndpointInfo {
            name: ep.name.clone(),
            method: ep.method,
            path,
            path_params: params,
            query_params: queries,
            headers,
            body,
            response: r.response,
            response_statuses: r.statuses,
            response_headers,
            errors,
            doc_comment: ep.doc_comment.dup(),
            body_is_multipart: is_form,
            response_is_binary: r.is_binary,
            pagination: r.pagination,
        }
    }
}

} // verus!
