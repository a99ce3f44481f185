//! The texts of an endpoint: its route, its version prefix, the names of its
//! headers and the default values of its parameters.
use crate::ast::{Expr, HttpMethod, LiteralKind};
use crate::info::{DefaultValue, DefaultValueV};
use crate::text::{cat2, cat3, cat4, push_view, Chars};
use vstd::prelude::*;

verus! {

// ── Placeholders ─────────────────────────────────────────────────────

/// The position of the first `}` at or after `i`; the length if there is none.
pub open spec fn closing(s: Chars, i: int) -> int
    decreases s.len() - i,
{
    if i < 0 || i >= s.len() {
        s.len() as int
    } else if s[i] == '}' {
        i
    } else {
        closing(s, i + 1)
    }
}

/// Where the search for a closing brace can end.
pub proof fn lemma_closing(s: Chars, i: int)
    requires
        0 <= i <= s.len(),
    ensures
        i <= closing(s, i) <= s.len(),
    decreases s.len() - i,
{
    if i < s.len() && s[i] != '}' {
        lemma_closing(s, i + 1);
    }
}

/// The names of the placeholders from `i` on. Empty ones do not count.
pub open spec fn params_from(s: Chars, i: int) -> Seq<Chars>
    decreases s.len() + 1 - i,
{
    if i < 0 || i >= s.len() {
        Seq::empty()
    } else if s[i] == '{' {
        proof {
            lemma_closing(s, i + 1);
        }
        let j = closing(s, i + 1);
        if j > i + 1 {
            seq![s.subrange(i + 1, j)] + params_from(s, j + 1)
        } else {
            params_from(s, j + 1)
        }
    } else {
        params_from(s, i + 1)
    }
}

/// The names of the placeholders of a path, in order.
pub open spec fn path_params(path: Chars) -> Seq<Chars> {
    params_from(path, 0)
}

/// The path from `i` on, its placeholders without their names.
pub open spec fn collapsed_from(s: Chars, i: int) -> Chars
    decreases s.len() + 1 - i,
{
    if i < 0 || i >= s.len() {
        Seq::empty()
    } else if s[i] == '{' {
        proof {
            lemma_closing(s, i + 1);
        }
        "{}"@ + collapsed_from(s, closing(s, i + 1) + 1)
    } else {
        seq![s[i]] + collapsed_from(s, i + 1)
    }
}

/// How a method is written in a request.
pub open spec fn method_chars(m: HttpMethod) -> Chars {
    match m {
        HttpMethod::Get => "GET"@,
        HttpMethod::Post => "POST"@,
        HttpMethod::Put => "PUT"@,
        HttpMethod::Patch => "PATCH"@,
        HttpMethod::Delete => "DELETE"@,
    }
}

/// What two endpoints must not share: the method and the path, whatever its
/// placeholders are called.
pub open spec fn signature(m: HttpMethod, path: Chars) -> Chars {
    method_chars(m) + " "@ + collapsed_from(path, 0)
}

fn find_closing(s: &str, i: usize, n: usize) -> (r: usize)
    requires
        n == s@.len(),
        i <= n,
    ensures
        r == closing(s@, i as int),
        i <= r <= n,
{
    let mut j: usize = i;
    while j < n
        invariant
            i <= j <= n,
            n == s@.len(),
            closing(s@, i as int) == closing(s@, j as int),
        decreases n - j,
    {
        if s.get_char(j) == '}' {
            return j;
        }
        j += 1;
    }
    j
}

/// The names of the placeholders of a path, in order; `{}` has none.
pub fn extract_path_params(path: &str) -> (r: Vec<String>)
    ensures
        r.deep_view() == path_params(path@),
{
    let n: usize = path.unicode_len();
    let mut out: Vec<String> = Vec::new();
    assert(out.deep_view() =~= Seq::<Chars>::empty());
    assert(path_params(path@) =~= out.deep_view() + params_from(path@, 0));
    let mut i: usize = 0;
    while i < n
        invariant
            i <= n,
            n == path@.len(),
            path_params(path@) == out.deep_view() + params_from(path@, i as int),
        decreases n - i,
    {
        if path.get_char(i) == '{' {
            let j: usize = find_closing(path, i + 1, n);
            if j > i + 1 {
                let ghost before = out.deep_view();
                let name = path.substring_char(i + 1, j).to_owned();
                push_view(&mut out, name);
                assert(before + (seq![name@] + params_from(path@, j + 1)) =~= out.deep_view()
                    + params_from(path@, j + 1));
            }
            if j >= n {
                assert(params_from(path@, j + 1) =~= Seq::<Chars>::empty());
                assert(path_params(path@) =~= out.deep_view());
                return out;
            }
            i = j + 1;
        } else {
            i += 1;
        }
    }
    assert(path_params(path@) =~= out.deep_view());
    out
}

pub fn method_text(m: HttpMethod) -> (r: &'static str)
    ensures
        r@ == method_chars(m),
{
    match m {
        HttpMethod::Get => "GET",
        HttpMethod::Post => "POST",
        HttpMethod::Put => "PUT",
        HttpMethod::Patch => "PATCH",
        HttpMethod::Delete => "DELETE",
    }
}

/// The method and the path with its placeholders unnamed: equal for routes
/// that match the same requests by the same pattern.
pub fn route_signature(method: HttpMethod, path: &str) -> (r: String)
    ensures
        r@ == signature(method, path@),
{
    let n: usize = path.unicode_len();
    let mut out = String::new();
    assert(collapsed_from(path@, 0) =~= out@ + collapsed_from(path@, 0));
    let mut i: usize = 0;
    while i < n
        invariant
            i <= n,
            n == path@.len(),
            collapsed_from(path@, 0) == out@ + collapsed_from(path@, i as int),
        decreases n - i,
    {
        let ghost before = out@;
        if path.get_char(i) == '{' {
            let j: usize = find_closing(path, i + 1, n);
            out.append("{}");
            assert(before + ("{}"@ + collapsed_from(path@, j + 1)) =~= out@ + collapsed_from(
                path@,
                j + 1,
            ));
            if j >= n {
                i = n;
                assert(collapsed_from(path@, j + 1) =~= Seq::<char>::empty());
            } else {
                i = j + 1;
            }
        } else {
            let c = path.substring_char(i, i + 1);
            assert(c@ =~= seq![path@[i as int]]);
            out.append(c);
            assert(before + (seq![path@[i as int]] + collapsed_from(path@, i + 1)) =~= out@
                + collapsed_from(path@, i + 1));
            i += 1;
        }
    }
    assert(collapsed_from(path@, 0) =~= out@);
    cat3(method_text(method), " ", &out)
}

// ── Versions ─────────────────────────────────────────────────────────

/// Whether a character separates words: the Unicode property `White_Space`.
pub open spec fn is_space(c: char) -> bool {
    ||| 0x9 <= c as u32 <= 0xD
    ||| c as u32 == 0x20
    ||| c as u32 == 0x85
    ||| c as u32 == 0xA0
    ||| c as u32 == 0x1680
    ||| 0x2000 <= c as u32 <= 0x200A
    ||| c as u32 == 0x2028
    ||| c as u32 == 0x2029
    ||| c as u32 == 0x202F
    ||| c as u32 == 0x205F
    ||| c as u32 == 0x3000
}

/// Whether the character is a slash, or else a space.
pub open spec fn trimmable(c: char, slash: bool) -> bool {
    if slash {
        c == '/'
    } else {
        is_space(c)
    }
}

/// The first position at or after `i` that is not trimmed.
pub open spec fn first_kept(s: Chars, slash: bool, i: int) -> int
    decreases s.len() - i,
{
    if i < 0 || i >= s.len() || !trimmable(s[i], slash) {
        i
    } else {
        first_kept(s, slash, i + 1)
    }
}

/// The end of what is not trimmed, among the first `n` characters.
pub open spec fn end_kept(s: Chars, slash: bool, n: int) -> int
    decreases n,
{
    if n <= 0 || n > s.len() || !trimmable(s[n - 1], slash) {
        n
    } else {
        end_kept(s, slash, n - 1)
    }
}

/// The text without slashes, or else spaces, at its ends.
pub open spec fn trimmed(s: Chars, slash: bool) -> Chars {
    let a = first_kept(s, slash, 0);
    let b = end_kept(s, slash, s.len() as int);
    if a <= b {
        s.subrange(a, b)
    } else {
        Seq::empty()
    }
}

/// The text without slashes at its start.
pub open spec fn unrooted(s: Chars) -> Chars {
    s.subrange(first_kept(s, true, 0), s.len() as int)
}

/// A version as the leading segment of a path.
pub open spec fn version_segment(v: Chars) -> Chars {
    trimmed(trimmed(v, false), true)
}

/// The path below the version, if there is one.
pub open spec fn versioned(version: Option<Chars>, path: Chars) -> Chars {
    match version {
        None => path,
        Some(v) => if unrooted(path).len() == 0 {
            "/"@ + version_segment(v)
        } else {
            "/"@ + version_segment(v) + "/"@ + unrooted(path)
        },
    }
}

proof fn lemma_kept(s: Chars, slash: bool, i: int)
    requires
        0 <= i <= s.len(),
    ensures
        i <= first_kept(s, slash, i) <= s.len(),
        first_kept(s, slash, i) < s.len() ==> !trimmable(s[first_kept(s, slash, i)], slash),
        forall|j: int| i <= j < first_kept(s, slash, i) ==> trimmable(#[trigger] s[j], slash),
    decreases s.len() - i,
{
    if i < s.len() && trimmable(s[i], slash) {
        lemma_kept(s, slash, i + 1);
    }
}

proof fn lemma_end_kept(s: Chars, slash: bool, n: int)
    requires
        0 <= n <= s.len(),
    ensures
        0 <= end_kept(s, slash, n) <= n,
        end_kept(s, slash, n) > 0 ==> !trimmable(s[end_kept(s, slash, n) - 1], slash),
    decreases n,
{
    if n > 0 && trimmable(s[n - 1], slash) {
        lemma_end_kept(s, slash, n - 1);
    }
}

fn can_trim(c: char, slash: bool) -> (r: bool)
    ensures
        r == trimmable(c, slash),
{
    let u: u32 = c as u32;
    if slash {
        c == '/'
    } else {
        (0x9 <= u && u <= 0xD) || u == 0x20 || u == 0x85 || u == 0xA0 || u == 0x1680 || (0x2000 <= u
            && u <= 0x200A) || u == 0x2028 || u == 0x2029 || u == 0x202F || u == 0x205F || u
            == 0x3000
    }
}

fn start_of(s: &str, slash: bool, n: usize) -> (r: usize)
    requires
        n == s@.len(),
    ensures
        r == first_kept(s@, slash, 0),
        r <= n,
{
    let mut i: usize = 0;
    while i < n && can_trim(s.get_char(i), slash)
        invariant
            i <= n,
            n == s@.len(),
            first_kept(s@, slash, 0) == first_kept(s@, slash, i as int),
        decreases n - i,
    {
        i += 1;
    }
    i
}

fn trim<'s>(s: &'s str, slash: bool) -> (r: &'s str)
    ensures
        r@ == trimmed(s@, slash),
{
    let n: usize = s.unicode_len();
    let a: usize = start_of(s, slash, n);
    let mut b: usize = n;
    while b > 0 && can_trim(s.get_char(b - 1), slash)
        invariant
            b <= n,
            n == s@.len(),
            end_kept(s@, slash, n as int) == end_kept(s@, slash, b as int),
        decreases b,
    {
        b -= 1;
    }
    if a <= b {
        s.substring_char(a, b)
    } else {
        let r = s.substring_char(0, 0);
        assert(r@ =~= Seq::<char>::empty());
        r
    }
}

/// Puts the version in front of the path, with one `/` between the two and one
/// in front, however the two are written.
pub fn apply_version_prefix(version: Option<&str>, path: &str) -> (r: String)
    ensures
        r@ == versioned(
            match version {
                Some(v) => Some(v@),
                None => None,
            },
            path@,
        ),
{
    match version {
        None => path.to_owned(),
        Some(v) => {
            let v = trim(trim(v, false), true);
            let n: usize = path.unicode_len();
            let a: usize = start_of(path, true, n);
            let p = path.substring_char(a, n);
            if a == n {
                cat2("/", v)
            } else {
                cat4("/", v, "/", p)
            }
        },
    }
}

// ── Headers ──────────────────────────────────────────────────────────

pub open spec fn is_capital(c: char) -> bool {
    'A' <= c && c <= 'Z'
}

/// The capital of a letter.
pub open spec fn capital(c: char) -> char {
    if 'a' <= c && c <= 'z' {
        ((c as u32) - 32) as char
    } else {
        c
    }
}

/// The header name for an identifier, from position `i` on: words begin at
/// capitals, each word starts with one, and hyphens stand between them.
pub open spec fn wire_from(s: Chars, i: int) -> Chars
    decreases s.len() - i,
{
    if i < 0 || i >= s.len() {
        Seq::empty()
    } else if i == 0 {
        seq![capital(s[i])] + wire_from(s, i + 1)
    } else if is_capital(s[i]) {
        seq!['-', s[i]] + wire_from(s, i + 1)
    } else {
        seq![s[i]] + wire_from(s, i + 1)
    }
}

/// The header name for an identifier: `xRequestId` is `X-Request-Id`.
pub open spec fn wire(s: Chars) -> Chars {
    wire_from(s, 0)
}

fn capital_text(c: char) -> (r: Option<&'static str>)
    ensures
        match r {
            Some(t) => t@ == seq![capital(c)],
            None => capital(c) == c,
        },
{
    let r: Option<&'static str> = match c {
        'a' => {
            proof {
                reveal_strlit("A");
            }
            Some("A")
        },
        'b' => {
            proof {
                reveal_strlit("B");
            }
            Some("B")
        },
        'c' => {
            proof {
                reveal_strlit("C");
            }
            Some("C")
        },
        'd' => {
            proof {
                reveal_strlit("D");
            }
            Some("D")
        },
        'e' => {
            proof {
                reveal_strlit("E");
            }
            Some("E")
        },
        'f' => {
            proof {
                reveal_strlit("F");
            }
            Some("F")
        },
        'g' => {
            proof {
                reveal_strlit("G");
            }
            Some("G")
        },
        'h' => {
            proof {
                reveal_strlit("H");
            }
            Some("H")
        },
        'i' => {
            proof {
                reveal_strlit("I");
            }
            Some("I")
        },
        'j' => {
            proof {
                reveal_strlit("J");
            }
            Some("J")
        },
        'k' => {
            proof {
                reveal_strlit("K");
            }
            Some("K")
        },
        'l' => {
            proof {
                reveal_strlit("L");
            }
            Some("L")
        },
        'm' => {
            proof {
                reveal_strlit("M");
            }
            Some("M")
        },
        'n' => {
            proof {
                reveal_strlit("N");
            }
            Some("N")
        },
        'o' => {
            proof {
                reveal_strlit("O");
            }
            Some("O")
        },
        'p' => {
            proof {
                reveal_strlit("P");
            }
            Some("P")
        },
        'q' => {
            proof {
                reveal_strlit("Q");
            }
            Some("Q")
        },
        'r' => {
            proof {
                reveal_strlit("R");
            }
            Some("R")
        },
        's' => {
            proof {
                reveal_strlit("S");
            }
            Some("S")
        },
        't' => {
            proof {
                reveal_strlit("T");
            }
            Some("T")
        },
        'u' => {
            proof {
                reveal_strlit("U");
            }
            Some("U")
        },
        'v' => {
            proof {
                reveal_strlit("V");
            }
            Some("V")
        },
        'w' => {
            proof {
                reveal_strlit("W");
            }
            Some("W")
        },
        'x' => {
            proof {
                reveal_strlit("X");
            }
            Some("X")
        },
        'y' => {
            proof {
                reveal_strlit("Y");
            }
            Some("Y")
        },
        'z' => {
            proof {
                reveal_strlit("Z");
            }
            Some("Z")
        },
        _ => None,
    };
    assert(match r {
        Some(t) => t@ =~= seq![capital(c)],
        None => capital(c) == c,
    });
    r
}

/// The header name for an identifier that has none of its own.
pub fn header_wire_name(name: &str) -> (r: String)
    ensures
        r@ == wire(name@),
{
    let n: usize = name.unicode_len();
    let mut out = String::new();
    assert(wire(name@) =~= out@ + wire_from(name@, 0));
    let mut i: usize = 0;
    while i < n
        invariant
            i <= n,
            n == name@.len(),
            wire(name@) == out@ + wire_from(name@, i as int),
        decreases n - i,
    {
        let ghost before = out@;
        let c = name.get_char(i);
        let text = name.substring_char(i, i + 1);
        assert(text@ =~= seq![name@[i as int]]);
        if i == 0 {
            match capital_text(c) {
                Some(t) => out.append(t),
                None => out.append(text),
            }
            assert(before + (seq![capital(c)] + wire_from(name@, i + 1)) =~= out@ + wire_from(
                name@,
                i + 1,
            ));
        } else if 'A' <= c && c <= 'Z' {
            out.append("-");
            out.append(text);
            proof {
                reveal_strlit("-");
            }
            assert(before + (seq!['-', c] + wire_from(name@, i + 1)) =~= out@ + wire_from(
                name@,
                i + 1,
            ));
        } else {
            out.append(text);
            assert(before + (seq![c] + wire_from(name@, i + 1)) =~= out@ + wire_from(
                name@,
                i + 1,
            ));
        }
        i += 1;
    }
    assert(wire(name@) =~= out@);
    out
}

/// The character with the case of an ASCII letter taken away.
pub open spec fn caseless(c: char) -> int {
    if is_capital(c) {
        c as u32 + 32
    } else {
        c as u32 as int
    }
}

/// Whether two header names are the same name.
pub open spec fn same_header(a: Chars, b: Chars) -> bool {
    a.len() == b.len() && forall|i: int|
        0 <= i < a.len() ==> caseless(#[trigger] a[i]) == caseless(b[i])
}

fn caseless_code(c: char) -> (r: u32)
    ensures
        r == caseless(c),
{
    if 'A' <= c && c <= 'Z' {
        c as u32 + 32
    } else {
        c as u32
    }
}

/// Whether two header names are the same name; case does not matter.
pub fn is_same_header(a: &str, b: &str) -> (r: bool)
    ensures
        r == same_header(a@, b@),
{
    let n: usize = a.unicode_len();
    if n != b.unicode_len() {
        return false;
    }
    let mut i: usize = 0;
    while i < n
        invariant
            i <= n,
            n == a@.len(),
            n == b@.len(),
            forall|j: int| 0 <= j < i ==> caseless(#[trigger] a@[j]) == caseless(b@[j]),
        decreases n - i,
    {
        if caseless_code(a.get_char(i)) != caseless_code(b.get_char(i)) {
            assert(caseless(a@[i as int]) != caseless(b@[i as int]));
            return false;
        }
        i += 1;
    }
    true
}

// ── Defaults ─────────────────────────────────────────────────────────

/// The value of a literal.
pub open spec fn default_of(e: Expr) -> Option<DefaultValueV> {
    match e {
        Expr::Literal(x) => Some(
            match x.kind {
                LiteralKind::Int(v) => DefaultValueV::Int(v),
                LiteralKind::Float(s) => DefaultValueV::Float(s@),
                LiteralKind::String(s) => DefaultValueV::Str(s@),
                LiteralKind::Bool(b) => DefaultValueV::Bool(b),
            },
        ),
        _ => None,
    }
}

/// The value of a literal; none for any other expression.
pub fn extract_default_value(e: &Expr) -> (r: Option<DefaultValue>)
    ensures
        r.deep_view() == default_of(*e),
{
    match e {
        Expr::Literal(x) => match &x.kind {
            LiteralKind::Int(v) => Some(DefaultValue::Int(*v)),
            LiteralKind::Float(s) => Some(DefaultValue::Float(s.clone())),
            LiteralKind::String(s) => Some(DefaultValue::String(s.clone())),
            LiteralKind::Bool(b) => Some(DefaultValue::Bool(*b)),
        },
        _ => None,
    }
}

// ── Laws ─────────────────────────────────────────────────────────────

proof fn lemma_closing_shift(u: Chars, v: Chars, i: int)
    requires
        0 <= i <= v.len(),
    ensures
        closing(u + v, u.len() + i) == u.len() + closing(v, i),
    decreases v.len() - i,
{
    if i < v.len() && v[i] != '}' {
        lemma_closing_shift(u, v, i + 1);
    }
}

proof fn lemma_collapsed_shift(u: Chars, v: Chars, i: int)
    requires
        0 <= i <= v.len() + 1,
    ensures
        collapsed_from(u + v, u.len() + i) == collapsed_from(v, i),
    decreases v.len() + 1 - i,
{
    if i < v.len() {
        if v[i] == '{' {
            lemma_closing_shift(u, v, i + 1);
            lemma_closing(v, i + 1);
            lemma_collapsed_shift(u, v, closing(v, i + 1) + 1);
        } else {
            lemma_collapsed_shift(u, v, i + 1);
        }
    }
}

/// The closing brace that follows position `i` of `pre`, in `pre + mid + post`,
/// where `mid` holds a single one, at its end.
proof fn lemma_closing_over(pre: Chars, mid: Chars, post: Chars, i: int)
    requires
        0 <= i <= pre.len(),
        mid.len() > 0,
        mid.last() == '}',
        forall|j: int| 0 <= j < mid.len() - 1 ==> #[trigger] mid[j] != '}',
    ensures
        closing(pre + mid + post, i) == if closing(pre, i) < pre.len() {
            closing(pre, i)
        } else {
            pre.len() + mid.len() - 1
        },
    decreases pre.len() - i,
{
    let s = pre + mid + post;
    if i < pre.len() {
        assert(s[i] == pre[i]);
        if pre[i] != '}' {
            lemma_closing_over(pre, mid, post, i + 1);
        }
    } else {
        lemma_closing_run(s, pre.len() as int, pre.len() + mid.len() - 1);
    }
}

proof fn lemma_closing_run(s: Chars, i: int, k: int)
    requires
        0 <= i <= k < s.len(),
        s[k] == '}',
        forall|j: int| i <= j < k ==> #[trigger] s[j] != '}',
    ensures
        closing(s, i) == k,
    decreases k - i,
{
    if i < k {
        lemma_closing_run(s, i + 1, k);
    }
}

proof fn lemma_names_do_not_matter(pre: Chars, a: Chars, b: Chars, post: Chars, i: int)
    requires
        0 <= i <= pre.len(),
        !a.contains('}'),
        !b.contains('}'),
    ensures
        collapsed_from(pre + (seq!['{'] + a + seq!['}']) + post, i) == collapsed_from(
            pre + (seq!['{'] + b + seq!['}']) + post,
            i,
        ),
    decreases pre.len() - i,
{
    let ma = seq!['{'] + a + seq!['}'];
    let mb = seq!['{'] + b + seq!['}'];
    let x = pre + ma + post;
    let y = pre + mb + post;
    assert forall|j: int| 0 <= j < ma.len() - 1 implies #[trigger] ma[j] != '}' by {
        if j > 0 {
            assert(ma[j] == a[j - 1]);
        }
    }
    assert forall|j: int| 0 <= j < mb.len() - 1 implies #[trigger] mb[j] != '}' by {
        if j > 0 {
            assert(mb[j] == b[j - 1]);
        }
    }
    lemma_collapsed_shift(pre + ma, post, 0);
    lemma_collapsed_shift(pre + mb, post, 0);
    if i < pre.len() {
        assert(x[i] == pre[i] && y[i] == pre[i]);
        if pre[i] == '{' {
            lemma_closing(pre, i + 1);
            lemma_closing_over(pre, ma, post, i + 1);
            lemma_closing_over(pre, mb, post, i + 1);
            if closing(pre, i + 1) < pre.len() {
                lemma_names_do_not_matter(pre, a, b, post, closing(pre, i + 1) + 1);
            }
        } else {
            lemma_names_do_not_matter(pre, a, b, post, i + 1);
        }
    } else {
        assert(x[i] == '{' && y[i] == '{');
        lemma_closing_run(x, i + 1, pre.len() + ma.len() - 1);
        lemma_closing_run(y, i + 1, pre.len() + mb.len() - 1);
    }
}

/// Renaming a placeholder does not change the signature of a route.
pub proof fn law_signature_ignores_param_names(
    m: HttpMethod,
    pre: Chars,
    a: Chars,
    b: Chars,
    post: Chars,
)
    requires
        !a.contains('}'),
        !b.contains('}'),
    ensures
        signature(m, pre + (seq!['{'] + a + seq!['}']) + post) == signature(
            m,
            pre + (seq!['{'] + b + seq!['}']) + post,
        ),
{
    lemma_names_do_not_matter(pre, a, b, post, 0);
}

/// Routes of different methods never share a signature.
pub proof fn law_signature_tells_methods_apart(m: HttpMethod, p: Chars, n: HttpMethod, q: Chars)
    requires
        m != n,
    ensures
        signature(m, p) != signature(n, q),
{
    reveal_strlit("GET");
    reveal_strlit("POST");
    reveal_strlit("PUT");
    reveal_strlit("PATCH");
    reveal_strlit("DELETE");
    reveal_strlit(" ");
    let x = signature(m, p);
    let y = signature(n, q);
    assert(x[0] == method_chars(m)[0] && x[1] == method_chars(m)[1]);
    assert(y[0] == method_chars(n)[0] && y[1] == method_chars(n)[1]);
}

/// A version counts as one segment: it neither starts nor ends with a slash,
/// and neither does the path start with one when it is put behind the version.
pub proof fn law_version_seams(v: Chars, path: Chars)
    ensures
        version_segment(v).len() > 0 ==> version_segment(v)[0] != '/' && version_segment(
            v,
        ).last() != '/',
        unrooted(path).len() > 0 ==> unrooted(path)[0] != '/',
{
    let s = trimmed(v, false);
    lemma_kept(s, true, 0);
    lemma_end_kept(s, true, s.len() as int);
    lemma_kept(path, true, 0);
}

proof fn lemma_first_kept_shift(path: Chars, i: int)
    requires
        0 <= i <= path.len(),
    ensures
        first_kept(seq!['/'] + path, true, i + 1) == first_kept(path, true, i) + 1,
    decreases path.len() - i,
{
    if i < path.len() && path[i] == '/' {
        lemma_first_kept_shift(path, i + 1);
    }
}

/// Whether the path is written with a slash in front does not matter below a
/// version.
pub proof fn law_path_slash_does_not_matter(v: Chars, path: Chars)
    ensures
        versioned(Some(v), seq!['/'] + path) == versioned(Some(v), path),
{
    lemma_first_kept_shift(path, 0);
    lemma_kept(path, true, 0);
    assert(unrooted(seq!['/'] + path) =~= unrooted(path));
}

/// Without a version the path stays as it is.
pub proof fn law_no_version_no_change(path: Chars)
    ensures
        versioned(None, path) == path,
{
}

} // verus!
