//! Enum variants that the current module can name.
use crate::env::{Env, EnvV};
use crate::pin::variant_fields;
use crate::span::{Diagnostic, DiagnosticV, Severity, Span};
use crate::state::{State, StateV};
use crate::table::find;
use crate::text::{
    before, cat4, cat5, join, join_text, push_view, set_view, text_before, Chars, Dup,
};
use crate::types::{Ty, Type};
use vstd::prelude::*;

verus! {

/// A visible enum that owns a variant.
pub struct EnumVariantMatch {
    pub local_name: String,
    pub key: String,
    pub type_params: Vec<String>,
    pub variant_types: Vec<Type>,
    pub definition_span: Span,
}

/// What an [`EnumVariantMatch`] holds.
#[verifier::ext_equal]
pub struct EnumVariantMatchV {
    pub local_name: Chars,
    pub key: Chars,
    pub type_params: Seq<Chars>,
    pub variant_types: Seq<Ty>,
    pub definition_span: Span,
}

impl DeepView for EnumVariantMatch {
    type V = EnumVariantMatchV;

    open spec fn deep_view(&self) -> EnumVariantMatchV {
        EnumVariantMatchV {
            local_name: self.local_name@,
            key: self.key@,
            type_params: self.type_params.deep_view(),
            variant_types: self.variant_types.deep_view(),
            definition_span: self.definition_span,
        }
    }
}

/// The position of the match for the enum `key` at or after `i`.
pub open spec fn match_position(ms: Seq<EnumVariantMatchV>, key: Chars, i: int) -> int
    decreases ms.len() - i,
{
    if i < 0 || i >= ms.len() {
        ms.len() as int
    } else if ms[i].key == key {
        i
    } else {
        match_position(ms, key, i + 1)
    }
}

/// The matches with one more: an enum that is visible under several names is
/// kept once, under the name that comes first.
pub open spec fn match_added(ms: Seq<EnumVariantMatchV>, m: EnumVariantMatchV) -> Seq<
    EnumVariantMatchV,
> {
    let i = match_position(ms, m.key, 0);
    if i < ms.len() {
        if before(m.local_name, ms[i].local_name) {
            ms.update(i, m)
        } else {
            ms
        }
    } else {
        ms.push(m)
    }
}

/// The enum that a visible symbol stands for, if it owns the variant.
pub open spec fn owner_of(env: EnvV, symbol: (Chars, Chars), variant: Chars) -> Option<
    EnumVariantMatchV,
> {
    match find(env.enums, symbol.1) {
        Some(info) => match find(info.variants, variant) {
            Some(ts) => Some(
                EnumVariantMatchV {
                    local_name: symbol.0,
                    key: symbol.1,
                    type_params: info.type_params,
                    variant_types: ts,
                    definition_span: info.definition_span,
                },
            ),
            None => None,
        },
        None => None,
    }
}

/// The matches among the first `n` visible symbols.
pub open spec fn matches_n(env: EnvV, symbols: Seq<(Chars, Chars)>, variant: Chars, n: int) -> Seq<
    EnumVariantMatchV,
>
    decreases n,
{
    if n <= 0 {
        Seq::empty()
    } else {
        let ms = matches_n(env, symbols, variant, n - 1);
        match owner_of(env, symbols[n - 1], variant) {
            Some(m) => match_added(ms, m),
            None => ms,
        }
    }
}

/// The place of `m` among the first `i` of sorted matches.
pub open spec fn sorted_place(ms: Seq<EnumVariantMatchV>, m: EnumVariantMatchV, i: int) -> int
    decreases i,
{
    if i <= 0 || i > ms.len() {
        0
    } else if before(m.local_name, ms[i - 1].local_name) {
        sorted_place(ms, m, i - 1)
    } else {
        i
    }
}

/// The first `n` matches in the order of their names.
pub open spec fn sorted_n(ms: Seq<EnumVariantMatchV>, n: int) -> Seq<EnumVariantMatchV>
    decreases n,
{
    if n <= 0 {
        Seq::empty()
    } else {
        let s = sorted_n(ms, n - 1);
        s.insert(sorted_place(s, ms[n - 1], s.len() as int), ms[n - 1])
    }
}

/// All visible enums that own the variant, in the order of their names.
pub open spec fn owners(env: EnvV, variant: Chars) -> Seq<EnumVariantMatchV> {
    match find(env.module_scopes, env.current_module) {
        Some(scope) => {
            let ms = matches_n(
                env,
                scope.visible_symbols,
                variant,
                scope.visible_symbols.len() as int,
            );
            sorted_n(ms, ms.len() as int)
        },
        None => Seq::empty(),
    }
}

/// How each of the first `n` candidates is written.
pub open spec fn alternatives_n(ms: Seq<EnumVariantMatchV>, variant: Chars, n: int) -> Seq<Chars>
    decreases n,
{
    if n <= 0 {
        Seq::empty()
    } else {
        alternatives_n(ms, variant, n - 1).push(
            "`"@ + ms[n - 1].local_name + "::"@ + variant + "`"@,
        )
    }
}

/// A note on each of the first `n` candidates.
pub open spec fn owner_notes_n(ms: Seq<EnumVariantMatchV>, variant: Chars, n: int) -> Seq<
    (Span, Chars),
>
    decreases n,
{
    if n <= 0 {
        Seq::empty()
    } else {
        owner_notes_n(ms, variant, n - 1).push(
            (
                ms[n - 1].definition_span,
                "`"@ + variant + "` declared as a variant of `"@ + ms[n - 1].local_name
                    + "` here"@,
            ),
        )
    }
}

/// The error about a variant that several visible enums own.
pub open spec fn ambiguous_variant(ms: Seq<EnumVariantMatchV>, variant: Chars, span: Span) -> DiagnosticV {
    DiagnosticV {
        severity: Severity::Error,
        message: "variant `"@ + variant + "` is ambiguous: could resolve to "@ + join(
            alternatives_n(ms, variant, ms.len() as int),
            ", "@,
        ),
        span,
        notes: owner_notes_n(ms, variant, ms.len() as int),
        suggestion: None,
    }
}

/// The enum that owns the variant; if there are several, that is reported and
/// the first one taken.
pub open spec fn variant_owner(env: EnvV, st: StateV, variant: Chars, span: Span) -> (
    StateV,
    Option<EnumVariantMatchV>,
) {
    let ms = owners(env, variant);
    if ms.len() == 0 {
        (st, None)
    } else if ms.len() == 1 {
        (st, Some(ms[0]))
    } else {
        (st.diagnose(ambiguous_variant(ms, variant, span)), Some(ms[0]))
    }
}

fn add_match(ms: &mut Vec<EnumVariantMatch>, m: EnumVariantMatch)
    ensures
        final(ms).deep_view() == match_added(old(ms).deep_view(), m.deep_view()),
{
    let mut i: usize = 0;
    while i < ms.len()
        invariant
            i <= ms.len(),
            ms.deep_view() == old(ms).deep_view(),
            match_position(ms.deep_view(), m.key@, 0) == match_position(
                ms.deep_view(),
                m.key@,
                i as int,
            ),
        decreases ms.len() - i,
    {
        if ms[i].key == m.key {
            if text_before(&m.local_name, &ms[i].local_name) {
                set_view(ms, i, m);
            }
            return;
        }
        i += 1;
    }
    push_view(ms, m);
}

fn insert_sorted(s: &mut Vec<EnumVariantMatch>, m: EnumVariantMatch)
    ensures
        final(s).deep_view() == old(s).deep_view().insert(
            sorted_place(old(s).deep_view(), m.deep_view(), old(s).deep_view().len() as int),
            m.deep_view(),
        ),
{
    let mut i: usize = s.len();
    while i > 0 && text_before(&m.local_name, &s[i - 1].local_name)
        invariant
            i <= s.len(),
            s.deep_view() == old(s).deep_view(),
            sorted_place(s.deep_view(), m.deep_view(), s.deep_view().len() as int) == sorted_place(
                s.deep_view(),
                m.deep_view(),
                i as int,
            ),
        decreases i,
    {
        i -= 1;
    }
    s.insert(i, m);
    assert(s.deep_view() =~= old(s).deep_view().insert(i as int, m.deep_view()));
}

impl<'a> Env<'a> {
    fn collect_visible_enum_variant_matches(&self, variant: &String) -> (r: Vec<EnumVariantMatch>)
        ensures
            r.deep_view() == owners(self@, variant@),
    {
        let mut ms: Vec<EnumVariantMatch> = Vec::new();
        assert(ms.deep_view() =~= Seq::<EnumVariantMatchV>::empty());
        match self.module_scopes.get(&self.current_module) {
            Some(scope) => {
                let symbols = &scope.visible_symbols.entries;
                let mut i: usize = 0;
                while i < symbols.len()
                    invariant
                        i <= symbols.len(),
                        ms.deep_view() == matches_n(
                            self@,
                            symbols.deep_view(),
                            variant@,
                            i as int,
                        ),
                    decreases symbols.len() - i,
                {
                    if let Some(info) = self.enums.get(&symbols[i].1) {
                        if let Some(ts) = variant_fields(&info.variants, variant) {
                            add_match(
                                &mut ms,
                                EnumVariantMatch {
                                    local_name: symbols[i].0.clone(),
                                    key: symbols[i].1.clone(),
                                    type_params: info.type_params.dup(),
                                    variant_types: ts.dup(),
                                    definition_span: info.definition_span,
                                },
                            );
                        }
                    }
                    i += 1;
                }
                let mut sorted: Vec<EnumVariantMatch> = Vec::new();
                assert(sorted.deep_view() =~= Seq::<EnumVariantMatchV>::empty());
                let mut j: usize = 0;
                while j < ms.len()
                    invariant
                        j <= ms.len(),
                        sorted.deep_view() == sorted_n(ms.deep_view(), j as int),
                    decreases ms.len() - j,
                {
                    let m = EnumVariantMatch {
                        local_name: ms[j].local_name.clone(),
                        key: ms[j].key.clone(),
                        type_params: ms[j].type_params.dup(),
                        variant_types: ms[j].variant_types.dup(),
                        definition_span: ms[j].definition_span,
                    };
                    insert_sorted(&mut sorted, m);
                    j += 1;
                }
                sorted
            },
            None => ms,
        }
    }
}

impl State {
    fn emit_ambiguous_variant_diagnostic(
        &mut self,
        variant: &String,
        span: Span,
        ms: &Vec<EnumVariantMatch>,
    )
        ensures
            final(self)@ == old(self)@.diagnose(
                ambiguous_variant(ms.deep_view(), variant@, span),
            ),
    {
        let mut alternatives: Vec<String> = Vec::new();
        let mut notes: Vec<(Span, String)> = Vec::new();
        assert(alternatives.deep_view() =~= Seq::<Chars>::empty());
        assert(notes.deep_view() =~= Seq::<(Span, Chars)>::empty());
        let mut i: usize = 0;
        while i < ms.len()
            invariant
                i <= ms.len(),
                alternatives.deep_view() == alternatives_n(ms.deep_view(), variant@, i as int),
                notes.deep_view() == owner_notes_n(ms.deep_view(), variant@, i as int),
            decreases ms.len() - i,
        {
            push_view(
                &mut alternatives,
                cat5("`", &ms[i].local_name, "::", variant, "`"),
            );
            push_view(
                &mut notes,
                (
                    ms[i].definition_span,
                    cat5(
                        "`",
                        variant,
                        "` declared as a variant of `",
                        &ms[i].local_name,
                        "` here",
                    ),
                ),
            );
            i += 1;
        }
        self.diagnose(
            Diagnostic {
                severity: Severity::Error,
                message: cat4(
                    "variant `",
                    variant,
                    "` is ambiguous: could resolve to ",
                    &join_text(&alternatives, ", "),
                ),
                span,
                notes,
                suggestion: None,
            },
        );
    }

    pub fn lookup_visible_enum_variant(
        &mut self,
        env: &Env<'_>,
        variant: &String,
        span: Span,
    ) -> (r: Option<EnumVariantMatch>)
        ensures
            (final(self)@, r.deep_view()) == variant_owner(env@, old(self)@, variant@, span),
    {
        let mut ms = env.collect_visible_enum_variant_matches(variant);
        if ms.len() == 0 {
            return None;
        }
        if ms.len() > 1 {
            self.emit_ambiguous_variant_diagnostic(variant, span, &ms);
        }
        Some(ms.remove(0))
    }
}

} // verus!
