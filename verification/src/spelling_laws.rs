//! Types with different names are spelled differently.
use crate::text::{join, Chars};
use crate::types::{spelling, spellings, Ty};
use vstd::prelude::*;
use vstd::string::*;

verus! {

/// Whether the character stands between names in a spelling.
pub open spec fn is_delimiter(c: char) -> bool {
    c == '<' || c == '>' || c == ','
}

/// Whether a name can stand in a spelling: it is not empty and holds nothing
/// that stands between names.
pub open spec fn spellable(name: Chars) -> bool {
    name.len() > 0 && forall|i: int| 0 <= i < name.len() ==> !is_delimiter(#[trigger] name[i])
}

/// Whether a type is made of declared types only, with names that can stand in
/// a spelling.
pub open spec fn made_of_names(t: Ty) -> bool
    decreases t, 0int,
{
    match t {
        Ty::Named(n) => spellable(n),
        Ty::Generic(n, args) => spellable(n) && all_made_of_names(args, args.len() as int),
        _ => false,
    }
}

/// The same for the first `n` types.
pub open spec fn all_made_of_names(ts: Seq<Ty>, n: int) -> bool
    decreases ts, n,
{
    if n <= 0 || n > ts.len() {
        true
    } else {
        all_made_of_names(ts, n - 1) && made_of_names(ts[n - 1])
    }
}

proof fn lemma_each_made_of_names(ts: Seq<Ty>, n: int, i: int)
    requires
        all_made_of_names(ts, n),
        0 <= i < n <= ts.len(),
    ensures
        made_of_names(ts[i]),
    decreases n,
{
    if i < n - 1 {
        lemma_each_made_of_names(ts, n - 1, i);
    }
}

/// Whether the text is empty or starts with what stands between names.
pub open spec fn breaks_off(s: Chars) -> bool {
    s.len() == 0 || is_delimiter(s[0])
}

/// Whether the text is empty or starts with what stands behind a type.
pub open spec fn ends_type(s: Chars) -> bool {
    s.len() == 0 || s[0] == '>' || s[0] == ','
}

/// A name ends where something that is no part of a name begins.
proof fn lemma_name_split(p: Chars, x: Chars, q: Chars, y: Chars)
    requires
        spellable(p),
        spellable(q),
        breaks_off(x),
        breaks_off(y),
        p + x == q + y,
    ensures
        p == q,
        x == y,
{
    let s = p + x;
    if p.len() < q.len() {
        assert(s[p.len() as int] == q[p.len() as int]);
        assert(x.len() > 0);
        assert(s[p.len() as int] == x[0]);
    } else if q.len() < p.len() {
        assert(s[q.len() as int] == p[q.len() as int]);
        assert(y.len() > 0);
        assert((q + y)[q.len() as int] == y[0]);
    } else {
        assert(s.len() == p.len() + x.len() && (q + y).len() == q.len() + y.len());
        assert forall|i: int| 0 <= i < p.len() implies p[i] == q[i] by {
            assert(s[i] == p[i] && (q + y)[i] == q[i]);
        }
        assert(p =~= q);
        assert forall|i: int| 0 <= i < x.len() implies x[i] == y[i] by {
            assert(s[p.len() + i] == x[i] && (q + y)[q.len() + i] == y[i]);
        }
        assert(x =~= y);
    }
}

// ── Lists ────────────────────────────────────────────────────────────

/// The spellings of the types from `i` on, with separators between them.
pub open spec fn listed(ts: Seq<Ty>, i: int) -> Chars
    decreases ts.len() - i,
{
    if i < 0 || i >= ts.len() {
        Seq::empty()
    } else {
        spelling(ts[i]) + behind(ts, i + 1)
    }
}

/// What stands behind the type before `i`.
pub open spec fn behind(ts: Seq<Ty>, i: int) -> Chars
    decreases ts.len() - i,
{
    if i < 0 || i >= ts.len() {
        Seq::empty()
    } else {
        ", "@ + (spelling(ts[i]) + behind(ts, i + 1))
    }
}

proof fn lemma_spellings_count(ts: Seq<Ty>, n: int)
    requires
        0 <= n <= ts.len(),
    ensures
        spellings(ts, n).len() == n,
    decreases n,
{
    if n > 0 {
        lemma_spellings_count(ts, n - 1);
    }
}

proof fn lemma_joined(ts: Seq<Ty>, n: int)
    requires
        1 <= n <= ts.len(),
    ensures
        join(spellings(ts, n), ", "@) + behind(ts, n) == listed(ts, 0),
    decreases n,
{
    lemma_spellings_count(ts, n);
    lemma_spellings_count(ts, n - 1);
    let all = spellings(ts, n);
    if n == 1 {
        assert(all[0] == spelling(ts[0]));
    } else {
        lemma_joined(ts, n - 1);
        let rest = spellings(ts, n - 1);
        assert(all.drop_last() =~= rest);
        let one = spelling(ts[n - 1]);
        assert(join(all, ", "@) == join(rest, ", "@) + ", "@ + one);
        assert(join(rest, ", "@) + ", "@ + one + behind(ts, n) =~= join(rest, ", "@) + (", "@ + (one
            + behind(ts, n))));
    }
}

proof fn lemma_join_is_listed(ts: Seq<Ty>)
    ensures
        join(spellings(ts, ts.len() as int), ", "@) == listed(ts, 0),
{
    let n = ts.len() as int;
    lemma_spellings_count(ts, n);
    if n > 0 {
        lemma_joined(ts, n);
        assert(join(spellings(ts, n), ", "@) + behind(ts, n) =~= join(spellings(ts, n), ", "@));
    }
}

// ── Types ────────────────────────────────────────────────────────────

/// The name at the front of a type.
pub open spec fn front(t: Ty) -> Chars {
    match t {
        Ty::Named(n) => n,
        Ty::Generic(n, _) => n,
        _ => Seq::empty(),
    }
}

/// What stands behind that name.
pub open spec fn arguments(t: Ty) -> Chars {
    match t {
        Ty::Generic(_, args) => "<"@ + (listed(args, 0) + ">"@),
        _ => Seq::empty(),
    }
}

proof fn lemma_spelling_parts(t: Ty)
    requires
        made_of_names(t),
    ensures
        spelling(t) == front(t) + arguments(t),
        spellable(front(t)),
        breaks_off(arguments(t)),
{
    reveal_strlit("<");
    if let Ty::Generic(n, args) = t {
        lemma_join_is_listed(args);
        assert(n + "<"@ + listed(args, 0) + ">"@ =~= n + ("<"@ + (listed(args, 0) + ">"@)));
    } else {
        assert(front(t) + arguments(t) =~= front(t));
    }
}

/// A type ends where something that is no part of it begins.
proof fn lemma_type_split(a: Ty, u: Chars, b: Ty, v: Chars)
    requires
        made_of_names(a),
        made_of_names(b),
        ends_type(u),
        ends_type(v),
        spelling(a) + u == spelling(b) + v,
    ensures
        a == b,
        u == v,
    decreases a, 0int,
{
    reveal_strlit("<");
    lemma_spelling_parts(a);
    lemma_spelling_parts(b);
    let x = arguments(a) + u;
    let y = arguments(b) + v;
    assert(spelling(a) + u =~= front(a) + x);
    assert(spelling(b) + v =~= front(b) + y);
    assert(breaks_off(x)) by {
        if arguments(a).len() == 0 {
            assert(x =~= u);
        }
    }
    assert(breaks_off(y)) by {
        if arguments(b).len() == 0 {
            assert(y =~= v);
        }
    }
    lemma_name_split(front(a), x, front(b), y);
    match (a, b) {
        (Ty::Generic(_, ps), Ty::Generic(_, qs)) => {
            let s = listed(ps, 0) + (">"@ + u);
            let t = listed(qs, 0) + (">"@ + v);
            assert(x =~= "<"@ + s);
            assert(y =~= "<"@ + t);
            lemma_same_rest("<"@, s, t);
            lemma_arguments_split(ps, u, qs, v);
        },
        (Ty::Generic(_, _), _) => {
            assert(y =~= v);
            assert(x[0] == '<');
        },
        (_, Ty::Generic(_, _)) => {
            assert(x =~= u);
            assert(y[0] == '<');
        },
        _ => {
            assert(x =~= u && y =~= v);
        },
    }
}

/// A spelled type does not start with what stands between names.
proof fn lemma_starts_with_name(ts: Seq<Ty>, i: int, rest: Chars)
    requires
        0 <= i < ts.len(),
        made_of_names(ts[i]),
    ensures
        (listed(ts, i) + rest).len() > 0,
        !is_delimiter((listed(ts, i) + rest)[0]),
{
    lemma_spelling_parts(ts[i]);
    let n = front(ts[i]);
    assert(spelling(ts[i])[0] == n[0]);
    assert(listed(ts, i)[0] == n[0]);
    assert((listed(ts, i) + rest)[0] == n[0]);
}

proof fn lemma_same_rest(p: Chars, x: Chars, y: Chars)
    requires
        p + x == p + y,
    ensures
        x == y,
{
    assert((p + x).skip(p.len() as int) =~= x);
    assert((p + y).skip(p.len() as int) =~= y);
}

/// What stands behind a type in a list, up to what is behind the list.
proof fn lemma_behind(ts: Seq<Ty>, i: int, u: Chars)
    requires
        0 <= i <= ts.len(),
    ensures
        ({
            let x = behind(ts, i) + (">"@ + u);
            &&& x.len() > 0
            &&& i < ts.len() ==> x[0] == ',' && x == ", "@ + (listed(ts, i) + (">"@ + u))
            &&& i == ts.len() ==> x[0] == '>' && x == ">"@ + u
        }),
{
    reveal_strlit(">");
    reveal_strlit(", ");
    let x = behind(ts, i) + (">"@ + u);
    if i < ts.len() {
        assert(x =~= ", "@ + (listed(ts, i) + (">"@ + u)));
    } else {
        assert(x =~= ">"@ + u);
    }
}

/// A list of types that is not empty ends at its closing bracket.
proof fn lemma_list_split(ps: Seq<Ty>, i: int, u: Chars, qs: Seq<Ty>, j: int, v: Chars)
    requires
        0 <= i < ps.len(),
        0 <= j < qs.len(),
        all_made_of_names(ps, ps.len() as int),
        all_made_of_names(qs, qs.len() as int),
        listed(ps, i) + (">"@ + u) == listed(qs, j) + (">"@ + v),
    ensures
        ps.skip(i) == qs.skip(j),
        u == v,
    decreases ps, ps.len() - i,
{
    let x = behind(ps, i + 1) + (">"@ + u);
    let y = behind(qs, j + 1) + (">"@ + v);
    assert(listed(ps, i) + (">"@ + u) =~= spelling(ps[i]) + x);
    assert(listed(qs, j) + (">"@ + v) =~= spelling(qs[j]) + y);
    lemma_each_made_of_names(ps, ps.len() as int, i);
    lemma_each_made_of_names(qs, qs.len() as int, j);
    lemma_behind(ps, i + 1, u);
    lemma_behind(qs, j + 1, v);
    lemma_type_split(ps[i], x, qs[j], y);
    if i + 1 < ps.len() {
        lemma_same_rest(
            ", "@,
            listed(ps, i + 1) + (">"@ + u),
            listed(qs, j + 1) + (">"@ + v),
        );
        lemma_list_split(ps, i + 1, u, qs, j + 1, v);
        assert(ps.skip(i) =~= seq![ps[i]] + ps.skip(i + 1));
        assert(qs.skip(j) =~= seq![qs[j]] + qs.skip(j + 1));
    } else {
        lemma_same_rest(">"@, u, v);
        assert(ps.skip(i) =~= seq![ps[i]]);
        assert(qs.skip(j) =~= seq![qs[j]]);
    }
}

/// The same for any list.
proof fn lemma_arguments_split(ps: Seq<Ty>, u: Chars, qs: Seq<Ty>, v: Chars)
    requires
        all_made_of_names(ps, ps.len() as int),
        all_made_of_names(qs, qs.len() as int),
        listed(ps, 0) + (">"@ + u) == listed(qs, 0) + (">"@ + v),
    ensures
        ps == qs,
        u == v,
    decreases ps, ps.len() + 1,
{
    reveal_strlit(">");
    if ps.len() > 0 && qs.len() > 0 {
        lemma_list_split(ps, 0, u, qs, 0, v);
        assert(ps.skip(0) =~= ps && qs.skip(0) =~= qs);
    } else if ps.len() > 0 {
        lemma_each_made_of_names(ps, ps.len() as int, 0);
        lemma_starts_with_name(ps, 0, ">"@ + u);
        assert(listed(qs, 0) + (">"@ + v) =~= ">"@ + v);
    } else if qs.len() > 0 {
        lemma_each_made_of_names(qs, qs.len() as int, 0);
        lemma_starts_with_name(qs, 0, ">"@ + v);
        assert(listed(ps, 0) + (">"@ + u) =~= ">"@ + u);
    } else {
        assert(listed(ps, 0) + (">"@ + u) =~= ">"@ + u);
        assert(listed(qs, 0) + (">"@ + v) =~= ">"@ + v);
        lemma_same_rest(">"@, u, v);
        assert(ps =~= qs);
    }
}

/// Declared types that are spelled alike are the same type. In particular types
/// of the same name in two modules are spelled differently.
pub proof fn law_spelling_tells_types_apart(a: Ty, b: Ty)
    requires
        made_of_names(a),
        made_of_names(b),
        spelling(a) == spelling(b),
    ensures
        a == b,
{
    let none: Chars = Seq::empty();
    assert(spelling(a) + none =~= spelling(a));
    assert(spelling(b) + none =~= spelling(b));
    lemma_type_split(a, none, b, none);
}

} // verus!
