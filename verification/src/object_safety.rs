//! Which traits can be used as `dyn`.
use crate::info::{TraitMethodInfo, TraitMethodInfoV};
use crate::text::{cat3, Chars};
use crate::types::{any_contains_self, contains_self, mentions_self, mentions_self_from};
use vstd::prelude::*;

verus! {

broadcast use crate::ty::view_of_type;

/// Why a method cannot be called through `dyn`.
pub open spec fn method_obstacle(m: TraitMethodInfoV) -> Option<Chars> {
    if mentions_self_from(m.params, 0) {
        Some("method `"@ + m.name + "` takes a parameter of type `Self`"@)
    } else if mentions_self(m.return_type) {
        Some("method `"@ + m.name + "` returns `Self`"@)
    } else {
        None
    }
}

/// The first obstacle among the methods at or after `i`.
pub open spec fn obstacle_from(ms: Seq<TraitMethodInfoV>, i: int) -> Option<Chars>
    decreases ms.len() - i,
{
    if i < 0 || i >= ms.len() {
        None
    } else {
        match method_obstacle(ms[i]) {
            Some(reason) => Some(reason),
            None => obstacle_from(ms, i + 1),
        }
    }
}

/// Why a trait with these methods cannot be used as `dyn`, if it cannot.
pub fn validate(methods: &Vec<TraitMethodInfo>) -> (r: Option<String>)
    ensures
        r.deep_view() == obstacle_from(methods.deep_view(), 0),
{
    let mut i: usize = 0;
    while i < methods.len()
        invariant
            i <= methods.len(),
            obstacle_from(methods.deep_view(), 0) == obstacle_from(
                methods.deep_view(),
                i as int,
            ),
        decreases methods.len() - i,
    {
        let m = &methods[i];
        assert(methods.deep_view()[i as int] == m.deep_view());
        if any_contains_self(&m.params) {
            return Some(cat3("method `", &m.name, "` takes a parameter of type `Self`"));
        }
        if contains_self(&m.return_type) {
            return Some(cat3("method `", &m.name, "` returns `Self`"));
        }
        i += 1;
    }
    None
}

proof fn lemma_obstacle_from(ms: Seq<TraitMethodInfoV>, i: int)
    requires
        0 <= i,
    ensures
        obstacle_from(ms, i) is None <==> forall|j: int|
            i <= j < ms.len() ==> method_obstacle(#[trigger] ms[j]) is None,
    decreases ms.len() - i,
{
    if i < ms.len() {
        lemma_obstacle_from(ms, i + 1);
        if obstacle_from(ms, i) is None {
            assert forall|j: int| i <= j < ms.len() implies method_obstacle(
                #[trigger] ms[j],
            ) is None by {
                if j > i {
                    assert(i + 1 <= j);
                }
            }
        } else if method_obstacle(ms[i]) is None {
            assert(obstacle_from(ms, i + 1) is Some);
        }
    }
}

/// A trait can be used as `dyn` exactly when none of its methods mentions
/// `Self`, however deep inside a type.
pub proof fn law_object_safe_without_self(ms: Seq<TraitMethodInfoV>)
    ensures
        obstacle_from(ms, 0) is None <==> forall|j: int|
            0 <= j < ms.len() ==> !mentions_self_from((#[trigger] ms[j]).params, 0)
                && !mentions_self(ms[j].return_type),
{
    lemma_obstacle_from(ms, 0);
    assert forall|j: int| #![trigger ms[j]] method_obstacle(ms[j]) is None <==> (
    !mentions_self_from(ms[j].params, 0) && !mentions_self(ms[j].return_type)) by {}
}

} // verus!
