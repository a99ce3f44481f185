//! What paths and header names are made of.
use crate::routes::{
    capital, caseless, closing, collapsed_from, end_kept, first_kept, is_capital, params_from,
    path_params, trimmable, trimmed, unrooted, versioned, wire, wire_from,
};
use crate::text::Chars;
use vstd::prelude::*;

verus! {

// ── Placeholders ─────────────────────────────────────────────────────

proof fn lemma_closes_at(s: Chars, i: int, j: int)
    requires
        0 <= i <= j < s.len(),
        s[j] == '}',
        forall|k: int| i <= k < j ==> s[k] != '}',
    ensures
        closing(s, i) == j,
    decreases j - i,
{
    if i < j {
        assert(s[i] != '}');
        lemma_closes_at(s, i + 1, j);
    }
}

proof fn lemma_closing_behind(pre: Chars, post: Chars, i: int)
    requires
        0 <= i <= post.len(),
    ensures
        closing(pre + post, pre.len() + i) == pre.len() + closing(post, i),
        i <= closing(post, i) <= post.len(),
    decreases post.len() - i,
{
    if i < post.len() {
        assert((pre + post)[pre.len() + i] == post[i]);
        if post[i] != '}' {
            lemma_closing_behind(pre, post, i + 1);
        }
    }
}

proof fn lemma_params_behind(pre: Chars, post: Chars, i: int)
    requires
        0 <= i <= post.len(),
    ensures
        params_from(pre + post, pre.len() + i) == params_from(post, i),
        collapsed_from(pre + post, pre.len() + i) == collapsed_from(post, i),
    decreases post.len() - i,
{
    let s = pre + post;
    if i < post.len() {
        assert(s[pre.len() + i] == post[i]);
        if post[i] == '{' {
            lemma_closing_behind(pre, post, i + 1);
            let j = closing(post, i + 1);
            if j + 1 <= post.len() {
                lemma_params_behind(pre, post, j + 1);
            } else {
                assert(params_from(post, j + 1) =~= Seq::empty());
                assert(params_from(s, pre.len() + j + 1) =~= Seq::empty());
                assert(collapsed_from(post, j + 1) =~= Seq::empty());
                assert(collapsed_from(s, pre.len() + j + 1) =~= Seq::empty());
            }
            assert(s.subrange(pre.len() + i + 1, pre.len() + j) =~= post.subrange(i + 1, j));
        } else {
            lemma_params_behind(pre, post, i + 1);
        }
    }
}

proof fn lemma_plain(s: Chars, i: int, n: int)
    requires
        0 <= i <= n <= s.len(),
        forall|k: int| 0 <= k < n ==> s[k] != '{',
    ensures
        params_from(s, i) == params_from(s, n),
        collapsed_from(s, i) == s.subrange(i, n) + collapsed_from(s, n),
    decreases n - i,
{
    if i < n {
        assert(s[i] != '{');
        lemma_plain(s, i + 1, n);
        assert(s.subrange(i, n) + collapsed_from(s, n) =~= seq![s[i]] + (s.subrange(i + 1, n)
            + collapsed_from(s, n)));
    } else {
        assert(s.subrange(i, n) + collapsed_from(s, n) =~= collapsed_from(s, n));
    }
}

/// A path without `{` has no placeholder and is its own shape.
pub proof fn law_plain_path(s: Chars)
    requires
        !s.contains('{'),
    ensures
        path_params(s) == Seq::<Chars>::empty(),
        collapsed_from(s, 0) == s,
{
    lemma_plain(s, 0, s.len() as int);
    assert(s.subrange(0, s.len() as int) =~= s);
    assert(s + Seq::<char>::empty() =~= s);
}

/// The placeholders of a path come in their order: behind a start without any,
/// `{name}` gives its name and then those of the rest; an empty one does not
/// count. The shape of the path keeps everything but their names.
pub proof fn law_placeholders_in_order(pre: Chars, name: Chars, post: Chars)
    requires
        !pre.contains('{'),
        !name.contains('}'),
    ensures
        ({
            let s = pre + (seq!['{'] + name + seq!['}']) + post;
            &&& name.len() > 0 ==> path_params(s) == seq![name] + path_params(post)
            &&& name.len() == 0 ==> path_params(s) == path_params(post)
            &&& collapsed_from(s, 0) == pre + (seq!['{', '}'] + collapsed_from(post, 0))
        }),
{
    let mid = seq!['{'] + name + seq!['}'];
    let s = pre + mid + post;
    let n = pre.len() as int;
    let m = name.len() as int;
    assert forall|k: int| 0 <= k < n implies s[k] != '{' by {
        assert(s[k] == pre[k]);
        assert(pre.contains(pre[k]));
    }
    lemma_plain(s, 0, n);
    assert(s[n] == '{');
    assert forall|k: int| n + 1 <= k < n + 1 + m implies s[k] != '}' by {
        assert(s[k] == name[k - n - 1]);
        assert(name.contains(name[k - n - 1]));
    }
    assert(s[n + 1 + m] == '}');
    lemma_closes_at(s, n + 1, n + 1 + m);
    assert(s.subrange(n + 1, n + 1 + m) =~= name);
    assert(s =~= (pre + mid) + post);
    lemma_params_behind(pre + mid, post, 0);
    assert((pre + mid).len() == n + m + 2);
    assert(s.subrange(0, n) =~= pre);
    reveal_strlit("{}");
    assert("{}"@ =~= seq!['{', '}']);
}

// ── Versions ─────────────────────────────────────────────────────────

proof fn lemma_first_kept(s: Chars, slash: bool, i: int)
    requires
        0 <= i <= s.len(),
    ensures
        i <= first_kept(s, slash, i) <= s.len(),
        forall|k: int| i <= k < first_kept(s, slash, i) ==> trimmable(#[trigger] s[k], slash),
        first_kept(s, slash, i) < s.len() ==> !trimmable(s[first_kept(s, slash, i)], slash),
    decreases s.len() - i,
{
    if i < s.len() && trimmable(s[i], slash) {
        lemma_first_kept(s, slash, i + 1);
    }
}

proof fn lemma_end_kept(s: Chars, slash: bool, n: int)
    requires
        0 <= n <= s.len(),
    ensures
        0 <= end_kept(s, slash, n) <= n,
        forall|k: int| end_kept(s, slash, n) <= k < n ==> trimmable(#[trigger] s[k], slash),
        end_kept(s, slash, n) > 0 ==> !trimmable(s[end_kept(s, slash, n) - 1], slash),
    decreases n,
{
    if n > 0 && trimmable(s[n - 1], slash) {
        lemma_end_kept(s, slash, n - 1);
    }
}

/// Trimming takes away exactly what can be trimmed at both ends: what is left
/// is a part of the text without such a character at its ends, and everything
/// around it is trimmed.
pub proof fn law_trimming(s: Chars, slash: bool) -> (at: int)
    ensures
        0 <= at <= s.len() - trimmed(s, slash).len(),
        trimmed(s, slash) == s.subrange(at, at + trimmed(s, slash).len()),
        trimmed(s, slash).len() > 0 ==> !trimmable(trimmed(s, slash)[0], slash) && !trimmable(
            trimmed(s, slash).last(),
            slash,
        ),
        forall|k: int|
            0 <= k < s.len() && !(at <= k < at + trimmed(s, slash).len()) ==> trimmable(
                #[trigger] s[k],
                slash,
            ),
{
    let a = first_kept(s, slash, 0);
    let b = end_kept(s, slash, s.len() as int);
    lemma_first_kept(s, slash, 0);
    lemma_end_kept(s, slash, s.len() as int);
    if a <= b {
        if a < b {
            assert(s.subrange(a, b)[0] == s[a]);
            assert(s.subrange(a, b).last() == s[b - 1]);
        }
        a
    } else {
        assert(s.subrange(0, 0) =~= Seq::empty());
        0
    }
}

/// A versioned path is a slash, the version without spaces and slashes around
/// it, and the path behind exactly one slash; nothing of the path but leading
/// slashes is lost.
pub proof fn law_versioned_path(v: Chars, path: Chars)
    ensures
        versioned(Some(v), path) == if unrooted(path).len() == 0 {
            seq!['/'] + trimmed(trimmed(v, false), true)
        } else {
            seq!['/'] + trimmed(trimmed(v, false), true) + seq!['/'] + unrooted(path)
        },
        unrooted(path).len() <= path.len(),
        unrooted(path) == path.subrange(path.len() - unrooted(path).len(), path.len() as int),
        forall|k: int| 0 <= k < path.len() - unrooted(path).len() ==> #[trigger] path[k] == '/',
        unrooted(path).len() > 0 ==> unrooted(path)[0] != '/',
{
    lemma_first_kept(path, true, 0);
    reveal_strlit("/");
    assert("/"@ =~= seq!['/']);
    let a = first_kept(path, true, 0);
    if a < path.len() {
        assert(unrooted(path)[0] == path[a]);
    }
    assert forall|k: int| 0 <= k < path.len() - unrooted(path).len() implies #[trigger] path[k]
        == '/' by {
        assert(trimmable(path[k], true));
    }
}

// ── Header names ─────────────────────────────────────────────────────

proof fn lemma_wire_push(s: Chars, c: char, i: int)
    requires
        0 <= i <= s.len(),
        s.len() > 0,
    ensures
        wire_from(s.push(c), i) == wire_from(s, i) + if is_capital(c) {
            seq!['-', c]
        } else {
            seq![c]
        },
    decreases s.len() - i,
{
    let t = s.push(c);
    if i < s.len() {
        lemma_wire_push(s, c, i + 1);
        assert(t[i] == s[i]);
        assert(wire_from(t, i) =~= wire_from(s, i) + if is_capital(c) {
            seq!['-', c]
        } else {
            seq![c]
        });
    } else {
        assert(t[i] == c);
        assert(wire_from(t, i + 1) =~= Seq::empty());
        assert(wire_from(s, i) =~= Seq::empty());
        assert(wire_from(t, i) =~= wire_from(s, i) + if is_capital(c) {
            seq!['-', c]
        } else {
            seq![c]
        });
    }
}

/// A header name grows with its identifier: the first letter becomes a capital,
/// a later capital starts a new word behind a hyphen, and every other character
/// is taken as it is.
pub proof fn law_header_name_grows(s: Chars, c: char)
    ensures
        wire(seq![c]) == seq![capital(c)],
        s.len() > 0 ==> wire(s.push(c)) == wire(s) + if is_capital(c) {
            seq!['-', c]
        } else {
            seq![c]
        },
        wire(Seq::empty()) == Seq::<char>::empty(),
{
    reveal_with_fuel(wire_from, 2);
    assert(wire(seq![c]) =~= seq![capital(c)]);
    if s.len() > 0 {
        lemma_wire_push(s, c, 0);
    }
}

/// The letters `a` to `z` have the capitals `A` to `Z`, a letter and its capital
/// are the same letter, and nothing else changes.
pub proof fn law_capitals(c: char)
    ensures
        'a' <= c && c <= 'z' ==> is_capital(capital(c)) && capital(c) as u32 + 32 == c as u32,
        !('a' <= c && c <= 'z') ==> capital(c) == c,
        caseless(capital(c)) == caseless(c),
        is_capital(c) <==> 0x41 <= c as u32 <= 0x5A,
{
    if 'a' <= c && c <= 'z' {
        let n: u32 = (c as u32 - 32) as u32;
        assert(0x41 <= n <= 0x5A);
        assert(capital(c) as u32 == n);
    }
}

} // verus!
