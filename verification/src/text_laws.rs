//! What texts are made of: numbers, lists, keys and notes.
use crate::impls::quoted_paths_n;
use crate::paths::{bare, is_builtin_path, name_start, path_text, qualified, separator_at};
use crate::privacy::{declared_notes_n, quoted_n};
use crate::scopes::{kind_notes_n, kinds_n, HeadV};
use crate::span::Span;
use crate::text::{before, before_from, decimal, digit, join, signed_decimal, Chars};
use crate::types::{show, shows, spelling, spellings, Ty};
use crate::variants::{alternatives_n, owner_notes_n, EnumVariantMatchV};
use vstd::prelude::*;

verus! {

// ── Numbers ──────────────────────────────────────────────────────────

/// The number that a row of digits stands for.
pub open spec fn value(s: Chars) -> int
    decreases s.len(),
{
    if s.len() == 0 {
        0
    } else {
        value(s.drop_last()) * 10 + (s.last() as u32 - '0' as u32)
    }
}

/// Whether a character is a digit.
pub open spec fn is_digit(c: char) -> bool {
    '0' <= c && c <= '9'
}

/// A number is written with digits alone, without a zero in front, and reads
/// back as itself.
pub proof fn law_number_reads_back(n: nat)
    ensures
        value(decimal(n)) == n,
        decimal(n).len() > 0,
        n > 0 ==> decimal(n)[0] != '0',
        forall|i: int| 0 <= i < decimal(n).len() ==> is_digit(#[trigger] decimal(n)[i]),
    decreases n,
{
    if n < 10 {
        let s = seq![digit(n)];
        assert(s.drop_last() =~= Seq::empty());
        assert(value(Seq::empty()) == 0);
        assert(value(s) == value(s.drop_last()) * 10 + (s.last() as u32 - '0' as u32));
    } else {
        law_number_reads_back(n / 10);
        let s = decimal(n / 10).push(digit(n % 10));
        assert(s.drop_last() =~= decimal(n / 10));
        assert(value(s) == value(s.drop_last()) * 10 + (s.last() as u32 - '0' as u32));
        assert(s[0] == decimal(n / 10)[0]);
    }
}

/// A negative number is written as a minus sign and the number without it.
pub proof fn law_negative_number_has_a_sign(n: int)
    ensures
        n >= 0 ==> value(signed_decimal(n)) == n,
        n < 0 ==> signed_decimal(n)[0] == '-' && value(signed_decimal(n).skip(1)) == -n,
{
    if n >= 0 {
        law_number_reads_back(n as nat);
    } else {
        law_number_reads_back((-n) as nat);
        assert(signed_decimal(n).skip(1) =~= decimal((-n) as nat));
    }
}

// ── Lists ────────────────────────────────────────────────────────────

/// Joining is done piece by piece: two lists one behind the other are joined
/// with one separator between them, and a single text is itself.
pub proof fn law_join_by_pieces(a: Seq<Chars>, b: Seq<Chars>, sep: Chars)
    requires
        a.len() > 0,
        b.len() > 0,
    ensures
        join(a + b, sep) == join(a, sep) + sep + join(b, sep),
    decreases b.len(),
{
    let all = a + b;
    assert(all.last() == b.last());
    if b.len() == 1 {
        assert(all.drop_last() =~= a);
    } else {
        assert(all.drop_last() =~= a + b.drop_last());
        law_join_by_pieces(a, b.drop_last(), sep);
        assert(join(a, sep) + sep + join(b.drop_last(), sep) + sep + b.last() =~= join(a, sep) + sep
            + (join(b.drop_last(), sep) + sep + b.last()));
    }
}

/// A list of one text is that text, and an empty list is empty.
pub proof fn law_join_of_one(s: Chars, sep: Chars)
    ensures
        join(seq![s], sep) == s,
        join(Seq::empty(), sep) == Seq::<char>::empty(),
{
}

// ── Order ────────────────────────────────────────────────────────────

proof fn lemma_codes(x: char, y: char)
    ensures
        x != y ==> (x as u32) < (y as u32) || (y as u32) < (x as u32),
{
}

proof fn lemma_before(a: Chars, b: Chars, i: int)
    requires
        0 <= i <= a.len(),
        i <= b.len(),
        forall|k: int| 0 <= k < i ==> a[k] == b[k],
    ensures
        !(before_from(a, b, i) && before_from(b, a, i)),
        a != b ==> before_from(a, b, i) || before_from(b, a, i),
        !before_from(a, a, i),
    decreases b.len() - i,
{
    if i < b.len() && i < a.len() {
        if a[i] == b[i] {
            lemma_before(a, b, i + 1);
        } else {
            lemma_codes(a[i], b[i]);
            lemma_never_before_itself(a, i);
        }
    } else {
        lemma_never_before_itself(a, i);
        if i >= a.len() && i >= b.len() {
            assert(a =~= b);
        }
    }
}

proof fn lemma_never_before_itself(a: Chars, i: int)
    requires
        0 <= i,
    ensures
        !before_from(a, a, i),
    decreases a.len() - i,
{
    if i < a.len() {
        lemma_never_before_itself(a, i + 1);
    }
}

/// Of two different texts exactly one comes before the other, and no text comes
/// before itself.
pub proof fn law_texts_are_ordered(a: Chars, b: Chars)
    ensures
        a != b ==> (before(a, b) <==> !before(b, a)),
        !before(a, a),
{
    lemma_before(a, b, 0);
}

pub(crate) proof fn lemma_first_difference(a: Chars, b: Chars, k: int, i: int)
    requires
        0 <= i <= k < b.len(),
        k <= a.len(),
        forall|j: int| 0 <= j < k ==> a[j] == b[j],
        k < a.len() ==> (a[k] as u32) < (b[k] as u32),
    ensures
        before_from(a, b, i),
    decreases k - i,
{
    if i < k {
        lemma_first_difference(a, b, k, i + 1);
    }
}

/// Texts are ordered by the first character in which they differ.
pub proof fn law_order_by_first_difference(head: Chars, x: char, y: char, s: Chars, t: Chars)
    requires
        (x as u32) < (y as u32),
    ensures
        before(head.push(x) + s, head.push(y) + t),
{
    let a = head.push(x) + s;
    let b = head.push(y) + t;
    assert(a[head.len() as int] == x && b[head.len() as int] == y);
    lemma_first_difference(a, b, head.len() as int, 0);
}

/// A text comes before every text that goes on after it.
pub proof fn law_order_of_a_beginning(head: Chars, tail: Chars)
    requires
        tail.len() > 0,
    ensures
        before(head, head + tail),
{
    lemma_first_difference(head, head + tail, head.len() as int, 0);
}

// ── Keys ─────────────────────────────────────────────────────────────

proof fn lemma_name_start(s: Chars, k: int, i: int)
    requires
        2 <= k <= i + 1,
        i <= s.len(),
        separator_at(s, k - 2),
        forall|j: int| k - 1 <= j < i ==> !separator_at(s, j),
    ensures
        name_start(s, i) == k,
    decreases i,
{
    if i > k - 1 {
        assert(!separator_at(s, i - 1));
        lemma_name_start(s, k, i - 1);
    }
}

proof fn lemma_no_separator(s: Chars, i: int)
    requires
        i <= s.len(),
        forall|j: int| 0 <= j < s.len() ==> !separator_at(s, j),
    ensures
        name_start(s, i) == 0,
    decreases i,
{
    if i > 0 {
        lemma_no_separator(s, i - 1);
        assert(!separator_at(s, i - 1));
    }
}

/// A key gives back the name that it was made of, whatever the module, for every
/// name without a colon.
pub proof fn law_key_gives_back_its_name(path: Seq<Chars>, name: Chars)
    requires
        !name.contains(':'),
    ensures
        bare(qualified(path, name)) == name,
{
    let s = qualified(path, name);
    assert forall|j: int| 0 <= j < name.len() implies name[j] != ':' by {
        assert(name.contains(name[j]));
    }
    if path.len() == 0 || is_builtin_path(path) {
        assert forall|j: int| 0 <= j < s.len() implies !separator_at(s, j) by {}
        lemma_no_separator(s, s.len() as int);
        assert(s.skip(0) =~= s);
    } else {
        reveal_strlit("::");
        let p = join(path, "."@);
        let k: int = p.len() as int + 2;
        assert(s[k - 2] == ':' && s[k - 1] == ':');
        assert(separator_at(s, k - 2));
        assert forall|j: int| k - 1 <= j < s.len() implies !separator_at(s, j) by {
            if j + 1 < s.len() {
                assert(s[j + 1] == name[j + 1 - k]);
            }
        }
        lemma_name_start(s, k, s.len() as int);
        assert(s.skip(k) =~= name);
    }
}

/// Two names of one module have the same key only if they are the same name.
pub proof fn law_keys_tell_names_apart(path: Seq<Chars>, a: Chars, b: Chars)
    requires
        qualified(path, a) == qualified(path, b),
    ensures
        a == b,
{
    if !(path.len() == 0 || is_builtin_path(path)) {
        let p = join(path, "."@) + "::"@;
        assert((p + a).skip(p.len() as int) =~= a);
        assert((p + b).skip(p.len() as int) =~= b);
    }
}

// ── Rows of texts and notes ──────────────────────────────────────────

/// The parts of a type are shown in their order.
pub proof fn law_types_are_shown_by_position(ts: Seq<Ty>, n: int)
    requires
        0 <= n <= ts.len(),
    ensures
        shows(ts, n).len() == n,
        forall|i: int| 0 <= i < n ==> #[trigger] shows(ts, n)[i] == show(ts[i]),
    decreases n,
{
    if n > 0 {
        law_types_are_shown_by_position(ts, n - 1);
    }
}

/// The parts of a type are spelled in their order.
pub proof fn law_types_are_spelled_by_position(ts: Seq<Ty>, n: int)
    requires
        0 <= n <= ts.len(),
    ensures
        spellings(ts, n).len() == n,
        forall|i: int| 0 <= i < n ==> #[trigger] spellings(ts, n)[i] == spelling(ts[i]),
    decreases n,
{
    if n > 0 {
        law_types_are_spelled_by_position(ts, n - 1);
    }
}

/// Every private field is named, in their order.
pub proof fn law_fields_are_quoted_by_position(fs: Seq<(Chars, Span)>, n: int)
    requires
        0 <= n <= fs.len(),
    ensures
        quoted_n(fs, n).len() == n,
        forall|i: int| 0 <= i < n ==> #[trigger] quoted_n(fs, n)[i] == "`"@ + fs[i].0 + "`"@,
    decreases n,
{
    if n > 0 {
        law_fields_are_quoted_by_position(fs, n - 1);
    }
}

/// Every private field has a note at its declaration.
pub proof fn law_fields_are_noted_by_position(fs: Seq<(Chars, Span)>, n: int)
    requires
        0 <= n <= fs.len(),
    ensures
        declared_notes_n(fs, n).len() == n,
        forall|i: int| 0 <= i < n ==> #[trigger] declared_notes_n(fs, n)[i] == (fs[i].1, "declared here"@),
    decreases n,
{
    if n > 0 {
        law_fields_are_noted_by_position(fs, n - 1);
    }
}

/// Every enum that has the variant is named, in their order.
pub proof fn law_alternatives_by_position(ms: Seq<EnumVariantMatchV>, variant: Chars, n: int)
    requires
        0 <= n <= ms.len(),
    ensures
        alternatives_n(ms, variant, n).len() == n,
        forall|i: int| 0 <= i < n ==> #[trigger] alternatives_n(ms, variant, n)[i] == "`"@ + ms[i].local_name + "::"@ + variant + "`"@,
    decreases n,
{
    if n > 0 {
        law_alternatives_by_position(ms, variant, n - 1);
    }
}

/// Every enum that has the variant has a note at its declaration.
pub proof fn law_owners_are_noted_by_position(ms: Seq<EnumVariantMatchV>, variant: Chars, n: int)
    requires
        0 <= n <= ms.len(),
    ensures
        owner_notes_n(ms, variant, n).len() == n,
        forall|i: int| 0 <= i < n ==> #[trigger] owner_notes_n(ms, variant, n)[i] == (ms[i].definition_span, "`"@ + variant + "` declared as a variant of `"@ + ms[i].local_name + "` here"@),
    decreases n,
{
    if n > 0 {
        law_owners_are_noted_by_position(ms, variant, n - 1);
    }
}

/// Every module is named, in their order.
pub proof fn law_modules_are_quoted_by_position(ms: Seq<Seq<Chars>>, n: int)
    requires
        0 <= n <= ms.len(),
    ensures
        quoted_paths_n(ms, n).len() == n,
        forall|i: int| 0 <= i < n ==> #[trigger] quoted_paths_n(ms, n)[i] == "`"@ + path_text(ms[i]) + "`"@,
    decreases n,
{
    if n > 0 {
        law_modules_are_quoted_by_position(ms, n - 1);
    }
}

/// Every declaration of an ambiguous name is told by its kind, in their order.
pub proof fn law_kinds_by_position(hs: Seq<HeadV>, n: int)
    requires
        0 <= n <= hs.len(),
    ensures
        kinds_n(hs, n).len() == n,
        forall|i: int| 0 <= i < n ==> #[trigger] kinds_n(hs, n)[i] == hs[i].kind,
    decreases n,
{
    if n > 0 {
        law_kinds_by_position(hs, n - 1);
    }
}

/// Every declaration of an ambiguous name has a note at its place.
pub proof fn law_kinds_are_noted_by_position(hs: Seq<HeadV>, name: Chars, n: int)
    requires
        0 <= n <= hs.len(),
    ensures
        kind_notes_n(hs, name, n).len() == n,
        forall|i: int| 0 <= i < n ==> #[trigger] kind_notes_n(hs, name, n)[i] == (hs[i].span, "`"@ + name + "` declared as a "@ + hs[i].kind + " here"@),
    decreases n,
{
    if n > 0 {
        law_kinds_are_noted_by_position(hs, name, n - 1);
    }
}

} // verus!
