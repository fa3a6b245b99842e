//! Adaptors: how an object answers for its fields.

use std::ops::Deref;
use vstd::prelude::*;

verus! {

/// A field path as text: its segments, in order.
pub type FieldPath = Seq<Seq<char>>;

/// What an object answers for a field: the value as text, and whether the
/// field is present.
pub type FieldValue = (Seq<char>, bool);

/// The mapping of field paths to an object's values.
///
/// For a field path the adaptor returns the value and whether the field is
/// present. An adaptor answers the same path in the same way every time:
/// `lookup` is what it answers.
pub trait Adaptor {
    /// The value of the field at `fieldpath`, and whether it is present.
    /// This describes the adaptor to those who reason about it and is
    /// never run.
    spec fn lookup(&self, fieldpath: FieldPath) -> FieldValue;

    /// Returns the value of the field at `fieldpath`, and whether it is
    /// present.
    fn field(&self, fieldpath: Vec<String>) -> (r: (String, bool))
        ensures
            (r.0@, r.1) == self.lookup(fieldpath.deep_view()),
    ;
}

/// An adaptor made of a function from field paths to values.
pub struct AdapterFunc<F: Fn(Vec<String>) -> (String, bool)>(F);

impl<F: Fn(Vec<String>) -> (String, bool)> AdapterFunc<F> {
    /// Whether `f` can be called on every field path.
    pub open spec fn total(f: F) -> bool {
        forall|fieldpath: Vec<String>| call_requires(f, (fieldpath,))
    }

    /// Whether `f` gives paths of the same text the same answer.
    pub open spec fn functional(f: F) -> bool {
        forall|p1: Vec<String>, p2: Vec<String>, r1: (String, bool), r2: (String, bool)|
            p1.deep_view() == p2.deep_view() && #[trigger] call_ensures(f, (p1,), r1)
                && #[trigger] call_ensures(f, (p2,), r2) ==> r1.0@ == r2.0@ && r1.1 == r2.1
    }

    /// What `f` answers for a field path of the given text: the answer
    /// that its contract allows, which is one answer where `f` gives paths
    /// of the same text the same answer.
    pub open spec fn answers(f: F, fieldpath: FieldPath) -> FieldValue {
        let (p, r) = choose|p: Vec<String>, r: (String, bool)|
            p.deep_view() == fieldpath && #[trigger] call_ensures(f, (p,), r);
        (r.0@, r.1)
    }

    /// Whatever `f` may return for a path is what it answers for the text
    /// of the path.
    pub proof fn lemma_answers(f: F, fieldpath: Vec<String>, r: (String, bool))
        requires
            Self::functional(f),
            call_ensures(f, (fieldpath,), r),
        ensures
            Self::answers(f, fieldpath.deep_view()) == (r.0@, r.1),
    {
    }

    #[verifier::type_invariant]
    spec fn inv(self) -> bool {
        Self::total(self.0) && Self::functional(self.0)
    }

    /// The function that answers.
    pub closed spec fn func(&self) -> F {
        self.0
    }

    /// Makes an adaptor of `f`, which must accept every field path and
    /// answer paths of the same text in the same way.
    pub fn new(f: F) -> (a: Self)
        requires
            Self::total(f),
            Self::functional(f),
        ensures
            a.func() == f,
    {
        AdapterFunc(f)
    }
}

impl<F: Fn(Vec<String>) -> (String, bool)> Deref for AdapterFunc<F> {
    type Target = F;

    fn deref(&self) -> (f: &F)
        ensures
            *f == self.func(),
    {
        &self.0
    }
}

impl<F: Fn(Vec<String>) -> (String, bool)> Adaptor for AdapterFunc<F> {
    /// The answer of the function to a path of the given text.
    open spec fn lookup(&self, fieldpath: FieldPath) -> FieldValue {
        Self::answers(self.func(), fieldpath)
    }

    /// Calls the function: what is returned is what the contract of the
    /// function allows for the path.
    fn field(&self, fieldpath: Vec<String>) -> (r: (String, bool))
        ensures
            call_ensures(self.func(), (fieldpath,), r),
    {
        proof {
            use_type_invariant(self);
        }
        let ghost asked = fieldpath;
        let r = (self.0)(fieldpath);
        proof {
            assert(call_ensures(self.0, (asked,), r));
            Self::lemma_answers(self.0, asked, r);
        }
        r
    }
}

} // verus!
