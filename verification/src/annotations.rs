//! Annotations on declarations and fields.
use crate::ast::{Annotation, AnnotationArg};
use crate::state::{State, StateV};
use crate::text::{cat3, cat5, cat6, same_text, Chars};
use vstd::prelude::*;

verus! {

/// What an annotation is attached to.
#[derive(Debug, Clone, Copy, PartialEq, Eq, Structural)]
pub enum AnnotationTarget {
    Struct,
    Enum,
    Function,
    /// A field of a struct.
    Field,
}

/// A target as it reads in a message.
pub open spec fn described(t: AnnotationTarget) -> Chars {
    match t {
        AnnotationTarget::Struct => "a struct"@,
        AnnotationTarget::Enum => "an enum"@,
        AnnotationTarget::Function => "a function"@,
        AnnotationTarget::Field => "a struct field"@,
    }
}

impl AnnotationTarget {
    pub fn describe(self) -> (r: &'static str)
        ensures
            r@ == described(self),
    {
        match self {
            AnnotationTarget::Struct => "a struct",
            AnnotationTarget::Enum => "an enum",
            AnnotationTarget::Function => "a function",
            AnnotationTarget::Field => "a struct field",
        }
    }
}

/// Whether one of the first `k` annotations has the name.
pub open spec fn annotated_before(anns: Seq<Annotation>, name: Chars, k: int) -> bool {
    exists|j: int| 0 <= j < k && j < anns.len() && (#[trigger] anns[j]).name@ == name
}

/// The error about an annotation on something it is not for.
pub open spec fn target_checked(
    st: StateV,
    ann: Annotation,
    actual: AnnotationTarget,
    expected: AnnotationTarget,
) -> StateV {
    st.error_if(
        actual != expected,
        "`@"@ + ann.name@ + "` can only be applied to "@ + described(expected) + ", not "@
            + described(actual),
        ann.span,
    )
}

/// The error about arguments of an annotation that takes none.
pub open spec fn no_args_checked(st: StateV, ann: Annotation) -> StateV {
    st.error_if(
        ann.args@.len() > 0,
        "`@"@ + ann.name@ + "` does not take any arguments"@,
        ann.span,
    )
}

/// The error about an annotation that takes one string.
pub open spec fn string_arg_checked(st: StateV, ann: Annotation) -> StateV {
    st.error_if(
        !(ann.args@.len() == 1 && ann.args@[0] is String),
        "`@"@ + ann.name@ + "` expects a single string argument, e.g. `@"@ + ann.name@
            + "(\"value\")`"@,
        ann.span,
    )
}

/// One annotation. Those that the language does not know are only warned
/// about.
pub open spec fn annotation_checked(st: StateV, ann: Annotation, target: AnnotationTarget) -> StateV {
    if ann.name@ == "jsonName"@ {
        string_arg_checked(target_checked(st, ann, target, AnnotationTarget::Field), ann)
    } else if ann.name@ == "skip"@ {
        no_args_checked(target_checked(st, ann, target, AnnotationTarget::Field), ann)
    } else if ann.name@ == "jsonSerializable"@ {
        no_args_checked(target_checked(st, ann, target, AnnotationTarget::Struct), ann)
    } else {
        st.warn("unknown annotation `@"@ + ann.name@ + "`; it will be ignored"@, ann.span)
    }
}

/// The first `n` annotations of a declaration, each of which may stand there
/// once.
pub open spec fn annotations_checked_n(
    st: StateV,
    anns: Seq<Annotation>,
    target: AnnotationTarget,
    n: int,
) -> StateV
    decreases n,
{
    if n <= 0 || n > anns.len() {
        st
    } else {
        let s = annotations_checked_n(st, anns, target, n - 1);
        let ann = anns[n - 1];
        if annotated_before(anns, ann.name@, n - 1) {
            s.error(
                "duplicate annotation `@"@ + ann.name@
                    + "`; an annotation may appear at most once per declaration"@,
                ann.span,
            )
        } else {
            annotation_checked(s, ann, target)
        }
    }
}

/// All annotations of a declaration.
pub open spec fn annotations_checked(st: StateV, anns: Seq<Annotation>, target: AnnotationTarget) -> StateV {
    annotations_checked_n(st, anns, target, anns.len() as int)
}

fn has_annotation_before(anns: &Vec<Annotation>, name: &String, k: usize) -> (r: bool)
    requires
        k <= anns.len(),
    ensures
        r == annotated_before(anns@, name@, k as int),
{
    let mut j: usize = 0;
    while j < k
        invariant
            j <= k <= anns.len(),
            forall|q: int| 0 <= q < j ==> (#[trigger] anns@[q]).name@ != name@,
        decreases k - j,
    {
        if anns[j].name == *name {
            return true;
        }
        j += 1;
    }
    false
}

impl State {
    fn check_annotation_target(
        &mut self,
        ann: &Annotation,
        actual: AnnotationTarget,
        expected: AnnotationTarget,
    )
        ensures
            final(self)@ == target_checked(old(self)@, *ann, actual, expected),
    {
        if actual != expected {
            self.error(
                cat6(
                    "`@",
                    &ann.name,
                    "` can only be applied to ",
                    expected.describe(),
                    ", not ",
                    actual.describe(),
                ),
                ann.span,
            );
        }
    }

    fn check_no_args(&mut self, ann: &Annotation)
        ensures
            final(self)@ == no_args_checked(old(self)@, *ann),
    {
        if ann.args.len() > 0 {
            self.error(cat3("`@", &ann.name, "` does not take any arguments"), ann.span);
        }
    }

    fn check_single_string_arg(&mut self, ann: &Annotation)
        ensures
            final(self)@ == string_arg_checked(old(self)@, *ann),
    {
        if ann.args.len() == 1 {
            if let AnnotationArg::String(_) = &ann.args[0] {
                return;
            }
        }
        self.error(
            cat5(
                "`@",
                &ann.name,
                "` expects a single string argument, e.g. `@",
                &ann.name,
                "(\"value\")`",
            ),
            ann.span,
        );
    }

    fn validate_annotation(&mut self, ann: &Annotation, target: AnnotationTarget)
        ensures
            final(self)@ == annotation_checked(old(self)@, *ann, target),
    {
        if same_text(&ann.name, "jsonName") {
            self.check_annotation_target(ann, target, AnnotationTarget::Field);
            self.check_single_string_arg(ann);
        } else if same_text(&ann.name, "skip") {
            self.check_annotation_target(ann, target, AnnotationTarget::Field);
            self.check_no_args(ann);
        } else if same_text(&ann.name, "jsonSerializable") {
            self.check_annotation_target(ann, target, AnnotationTarget::Struct);
            self.check_no_args(ann);
        } else {
            self.warn(
                cat3("unknown annotation `@", &ann.name, "`; it will be ignored"),
                ann.span,
            );
        }
    }

    /// Checks the annotations of a declaration.
    pub fn validate_annotations(&mut self, anns: &Vec<Annotation>, target: AnnotationTarget)
        ensures
            final(self)@ == annotations_checked(old(self)@, anns@, target),
    {
        let mut i: usize = 0;
        while i < anns.len()
            invariant
                i <= anns.len(),
                self@ == annotations_checked_n(old(self)@, anns@, target, i as int),
            decreases anns.len() - i,
        {
            let ann = &anns[i];
            if has_annotation_before(anns, &ann.name, i) {
                self.error(
                    cat3(
                        "duplicate annotation `@",
                        &ann.name,
                        "`; an annotation may appear at most once per declaration",
                    ),
                    ann.span,
                );
            } else {
                self.validate_annotation(ann, target);
            }
            i += 1;
        }
    }
}

} // verus!
