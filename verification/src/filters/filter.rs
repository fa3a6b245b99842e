//! Filters: selectors, and their conjunction and disjunction.

use crate::filters::adaptor::{Adaptor, FieldPath, FieldValue};
use std::ops::Deref;
use vstd::prelude::*;

verus! {

/// `regex::Regex`, a compiled regular expression: nothing of its inside is
/// looked at.
#[verifier::external_type_specification]
#[verifier::external_body]
pub struct ExRegex(regex::Regex);

/// The pattern that a regular expression stands for: for one that
/// `regex::Regex::new` returned, the text that it was compiled from.
pub uninterp spec fn regex_pattern(re: regex::Regex) -> Seq<char>;

/// Whether the regular expression `pattern`, as `regex::Regex::new`
/// compiles it, matches somewhere in `haystack`.
pub uninterp spec fn regex_match(pattern: Seq<char>, haystack: Seq<char>) -> bool;

/// Whether `regex::Regex::new` compiles `pattern`: whether the pattern is
/// valid and its compiled form within the size limit that `Regex::new`
/// sets.
pub uninterp spec fn regex_compiles(pattern: Seq<char>) -> bool;

/// `regex::Regex::new`: a regular expression is returned exactly for the
/// patterns that compile, and it was compiled from `pattern`. The call
/// fails, and nothing is returned, on a pattern that is not valid or that
/// compiles to more than the size limit.
#[verifier::external_body]
fn regex_compile(pattern: &str) -> (r: Option<regex::Regex>)
    ensures
        r is Some <==> regex_compiles(pattern@),
        r matches Some(re) ==> regex_pattern(re) == pattern@,
{
    regex::Regex::new(pattern).ok()
}

/// `regex::Regex::is_match`: whether the pattern that `re` stands for
/// matches somewhere in `haystack`.
#[verifier::external_body]
fn regex_is_match(re: &regex::Regex, haystack: &str) -> (b: bool)
    ensures
        b == regex_match(regex_pattern(*re), haystack@),
{
    re.is_match(haystack)
}

/// What a selector asks of a field.
#[derive(Clone, Copy, Debug, PartialEq, Eq, Structural)]
pub enum Operator {
    /// The field is present.
    Present,
    /// The field is present and has the value.
    Equal,
    /// The field does not have the value.
    NotEqual,
    /// The value, taken as a regular expression, matches the field.
    Matches,
}

impl Operator {
    /// How each operator is written.
    pub open spec fn text(self) -> Seq<char> {
        match self {
            Operator::Present => "?"@,
            Operator::Equal => "=="@,
            Operator::NotEqual => "!="@,
            Operator::Matches => "~="@,
        }
    }

    /// Returns how the operator is written.
    pub fn as_str(&self) -> (s: &'static str)
        ensures
            s@ == self.text(),
    {
        match self {
            Operator::Present => "?",
            Operator::Equal => "==",
            Operator::NotEqual => "!=",
            Operator::Matches => "~=",
        }
    }
}

/// What a selector is: the path of a field, an operator, the value to
/// compare with, and whether the value could be compiled as a regular
/// expression.
pub struct SelectView {
    pub field_path: FieldPath,
    pub operator: Operator,
    pub value: Seq<char>,
    pub compiled: bool,
}

impl SelectView {
    /// The selector made of a field path, an operator and a value: the
    /// value is compiled where the operator is `Matches` and the value
    /// compiles as a regular expression.
    pub open spec fn of(field_path: FieldPath, operator: Operator, value: Seq<char>) -> SelectView {
        SelectView {
            field_path,
            operator,
            value,
            compiled: operator == Operator::Matches && regex_compiles(value),
        }
    }
}

/// Whether a selector matches a field with the given value and presence.
///
/// `Present` asks for presence alone. `Equal` asks for presence and the
/// value. `NotEqual` asks that the field's value differ, present or not.
/// `Matches` tests the field's value against the selector's value as a
/// regular expression, and matches nothing if that value is none.
pub open spec fn select_matches(selector: SelectView, field: FieldValue) -> bool {
    match selector.operator {
        Operator::Present => field.1,
        Operator::Equal => field.1 && selector.value == field.0,
        Operator::NotEqual => field.0 != selector.value,
        Operator::Matches => selector.compiled && regex_match(selector.value, field.0),
    }
}

/// What an object answers for each field path.
pub type Lookup = spec_fn(FieldPath) -> FieldValue;

/// What the object behind `adaptor` answers for each field path.
pub open spec fn lookup_of(adaptor: &Box<dyn Adaptor>) -> Lookup {
    |fieldpath: FieldPath| adaptor.lookup(fieldpath)
}

/// Whether every selector matches what the object answers for its field.
pub open spec fn all_match_by(selectors: Seq<SelectView>, lookup: Lookup) -> bool {
    forall|i: int|
        0 <= i < selectors.len() ==> select_matches(
            #[trigger] selectors[i],
            lookup(selectors[i].field_path),
        )
}

/// Whether every selector of at least one clause matches what the object
/// answers.
pub open spec fn any_match_by(clauses: Seq<Seq<SelectView>>, lookup: Lookup) -> bool {
    exists|i: int| 0 <= i < clauses.len() && all_match_by(#[trigger] clauses[i], lookup)
}

/// Whether every selector matches what `adaptor` answers for its field.
pub open spec fn all_match(selectors: Seq<SelectView>, adaptor: &Box<dyn Adaptor>) -> bool {
    all_match_by(selectors, lookup_of(adaptor))
}

/// Whether every selector of at least one clause matches.
pub open spec fn any_match(clauses: Seq<Seq<SelectView>>, adaptor: &Box<dyn Adaptor>) -> bool {
    any_match_by(clauses, lookup_of(adaptor))
}

/// Two objects that answer alike are matched alike.
pub proof fn lemma_match_by_answers(clauses: Seq<Seq<SelectView>>, a: Lookup, b: Lookup)
    requires
        forall|fieldpath: FieldPath| #[trigger] a(fieldpath) == b(fieldpath),
    ensures
        any_match_by(clauses, a) == any_match_by(clauses, b),
        forall|i: int|
            0 <= i < clauses.len() ==> all_match_by(#[trigger] clauses[i], a) == all_match_by(
                clauses[i],
                b,
            ),
{
    assert(a =~= b);
}

/// A filter decides, through an adaptor, whether an object matches.
pub trait Filter {
    /// Whether the object behind `adaptor` matches. This describes the
    /// filter to those who reason about it and is never run.
    spec fn matches(&self, adaptor: &Box<dyn Adaptor>) -> bool;

    /// Returns whether the object behind `adaptor` matches.
    fn is_match(&self, adaptor: &Box<dyn Adaptor>) -> (r: bool)
        ensures
            r == self.matches(adaptor),
    ;
}

/// A filter made of a function from adaptors to truth values.
pub struct FilterFunc<F: Fn(&Box<dyn Adaptor>) -> bool>(F);

impl<F: Fn(&Box<dyn Adaptor>) -> bool> FilterFunc<F> {
    /// Whether `f` can be called on every adaptor.
    pub open spec fn total(f: F) -> bool {
        forall|adaptor: &Box<dyn Adaptor>| call_requires(f, (adaptor,))
    }

    /// Whether `f` gives the same adaptor the same answer.
    pub open spec fn functional(f: F) -> bool {
        forall|adaptor: &Box<dyn Adaptor>, r1: bool, r2: bool|
            #[trigger] call_ensures(f, (adaptor,), r1) && #[trigger] call_ensures(
                f,
                (adaptor,),
                r2,
            ) ==> r1 == r2
    }

    /// What `f` answers for an adaptor: the answer that its contract
    /// allows.
    pub open spec fn answers(f: F, adaptor: &Box<dyn Adaptor>) -> bool {
        choose|r: bool| call_ensures(f, (adaptor,), r)
    }

    #[verifier::type_invariant]
    spec fn inv(self) -> bool {
        Self::total(self.0) && Self::functional(self.0)
    }

    /// The function that answers.
    pub closed spec fn func(&self) -> F {
        self.0
    }

    /// Makes a filter of `f`, which must accept every adaptor and answer
    /// the same adaptor in the same way.
    pub fn new(f: F) -> (filter: Self)
        requires
            Self::total(f),
            Self::functional(f),
        ensures
            filter.func() == f,
    {
        FilterFunc(f)
    }
}

impl<F: Fn(&Box<dyn Adaptor>) -> bool> Filter for FilterFunc<F> {
    /// The answer of the function for the adaptor.
    open spec fn matches(&self, adaptor: &Box<dyn Adaptor>) -> bool {
        Self::answers(self.func(), adaptor)
    }

    /// Calls the function: what is returned is what the contract of the
    /// function allows for the adaptor.
    fn is_match(&self, adaptor: &Box<dyn Adaptor>) -> (r: bool)
        ensures
            call_ensures(self.func(), (adaptor,), r),
    {
        proof {
            use_type_invariant(self);
        }
        (self.0)(adaptor)
    }
}

/// The filter that matches every object.
#[allow(unused_variables)]
pub fn always_fn(adaptor: &Box<dyn Adaptor>) -> (r: bool)
    ensures
        r,
{
    true
}

/// One selector: a field path, an operator and a value.
///
/// For `Matches` the value is compiled once, when the selector is made,
/// and the compiled form is used by every match.
pub struct Select {
    field_path: Vec<String>,
    operator: Operator,
    value: String,
    re: Option<regex::Regex>,
}

impl View for Select {
    type V = SelectView;

    closed spec fn view(&self) -> SelectView {
        SelectView {
            field_path: self.field_path.deep_view(),
            operator: self.operator,
            value: self.value@,
            compiled: self.re is Some,
        }
    }
}

impl Select {
    #[verifier::type_invariant]
    spec fn inv(self) -> bool {
        self.re matches Some(re) ==> regex_pattern(re) == self.value@
    }

    /// Makes the selector that applies `operator` with `value` to the field
    /// at `field_path`. For `Matches` the value is compiled as a regular
    /// expression, here and only here; a value that does not compile
    /// makes a selector that matches nothing.
    pub fn new(field_path: Vec<String>, operator: Operator, value: String) -> (s: Select)
        ensures
            s@ == SelectView::of(field_path.deep_view(), operator, value@),
    {
        let re = match operator {
            Operator::Matches => regex_compile(value.as_str()),
            _ => None,
        };
        Select { field_path, operator, value, re }
    }

    /// Returns the path of the field that the selector looks at.
    pub fn field_path(&self) -> (p: &Vec<String>)
        ensures
            p.deep_view() == self@.field_path,
    {
        &self.field_path
    }

    /// Returns the operator of the selector.
    pub fn operator(&self) -> (o: Operator)
        ensures
            o == self@.operator,
    {
        self.operator
    }

    /// Returns the value that the selector compares with.
    pub fn value(&self) -> (v: &String)
        ensures
            v@ == self@.value,
    {
        &self.value
    }

    /// Returns whether the selector matches a field with the given value
    /// and presence.
    pub fn matches_field(&self, value: &str, present: bool) -> (r: bool)
        ensures
            r == select_matches(self@, (value@, present)),
    {
        proof {
            use_type_invariant(self);
        }
        match self.operator {
            Operator::Present => present,
            Operator::Equal => present && *value == *self.value.as_str(),
            Operator::NotEqual => !(*value == *self.value.as_str()),
            Operator::Matches => match &self.re {
                Some(re) => regex_is_match(re, value),
                None => false,
            },
        }
    }
}

impl Filter for Select {
    open spec fn matches(&self, adaptor: &Box<dyn Adaptor>) -> bool {
        select_matches(self@, adaptor.lookup(self@.field_path))
    }

    /// Asks the adaptor for the field and tests what it answers.
    fn is_match(&self, adaptor: &Box<dyn Adaptor>) -> (r: bool) {
        let path = self.field_path.clone();
        assert(path.deep_view() =~= self.field_path.deep_view());
        let (value, present) = adaptor.field(path);
        self.matches_field(value.as_str(), present)
    }
}

/// A boxed filter is the filter in the box, so that filters of any kind
/// can stand side by side.
impl<T: Filter + ?Sized> Filter for Box<T> {
    open spec fn matches(&self, adaptor: &Box<dyn Adaptor>) -> bool {
        (**self).matches(adaptor)
    }

    fn is_match(&self, adaptor: &Box<dyn Adaptor>) -> (r: bool) {
        (**self).is_match(adaptor)
    }
}

/// A conjunction: it matches where all of its filters match, and so
/// everywhere if it has none.
///
/// The filters are of any kind; where none is named they are boxed filters
/// of kinds that are chosen as the program runs. A parsed filter is a
/// conjunction of selectors.
pub struct All<F: Filter = Box<dyn Filter>>(pub Vec<F>);

impl<F: Filter> Deref for All<F> {
    type Target = Vec<F>;

    fn deref(&self) -> (filters: &Vec<F>)
        ensures
            *filters == self.0,
    {
        &self.0
    }
}

impl<F: Filter> Filter for All<F> {
    open spec fn matches(&self, adaptor: &Box<dyn Adaptor>) -> bool {
        forall|i: int| 0 <= i < self.0@.len() ==> (#[trigger] self.0@[i]).matches(adaptor)
    }

    /// Returns true only if all filters match the object.
    fn is_match(&self, adaptor: &Box<dyn Adaptor>) -> (r: bool) {
        let mut i: usize = 0;
        while i < self.0.len()
            invariant
                i <= self.0@.len(),
                forall|j: int| 0 <= j < i ==> (#[trigger] self.0@[j]).matches(adaptor),
            decreases self.0@.len() - i,
        {
            if !self.0[i].is_match(adaptor) {
                return false;
            }
            i += 1;
        }
        true
    }
}

/// A disjunction: it matches where one of its filters matches, and so
/// nowhere if it has none.
///
/// The filters are of any kind; where none is named they are boxed filters
/// of kinds that are chosen as the program runs. Several parsed filters
/// make a disjunction of conjunctions of selectors.
pub struct Any<F: Filter = Box<dyn Filter>>(pub Vec<F>);

impl<F: Filter> Deref for Any<F> {
    type Target = Vec<F>;

    fn deref(&self) -> (filters: &Vec<F>)
        ensures
            *filters == self.0,
    {
        &self.0
    }
}

impl<F: Filter> Filter for Any<F> {
    open spec fn matches(&self, adaptor: &Box<dyn Adaptor>) -> bool {
        exists|i: int| 0 <= i < self.0@.len() && (#[trigger] self.0@[i]).matches(adaptor)
    }

    /// Returns true if any of the filters matches the object.
    fn is_match(&self, adaptor: &Box<dyn Adaptor>) -> (r: bool) {
        let mut i: usize = 0;
        while i < self.0.len()
            invariant
                i <= self.0@.len(),
                forall|j: int| 0 <= j < i ==> !(#[trigger] self.0@[j]).matches(adaptor),
            decreases self.0@.len() - i,
        {
            if self.0[i].is_match(adaptor) {
                return true;
            }
            i += 1;
        }
        false
    }
}

impl View for All<Select> {
    type V = Seq<SelectView>;

    /// The selectors of a conjunction of selectors.
    open spec fn view(&self) -> Seq<SelectView> {
        Seq::new(self.0@.len(), |i: int| self.0@[i]@)
    }
}

impl View for Any<All<Select>> {
    type V = Seq<Seq<SelectView>>;

    /// The clauses of a disjunction of conjunctions of selectors.
    open spec fn view(&self) -> Seq<Seq<SelectView>> {
        Seq::new(self.0@.len(), |i: int| self.0@[i]@)
    }
}

/// A conjunction of selectors matches where every one of its selectors
/// matches what the adaptor answers for its field.
pub proof fn lemma_all_selectors(all: All<Select>, adaptor: &Box<dyn Adaptor>)
    ensures
        all.matches(adaptor) == all_match(all@, adaptor),
{
    if all.matches(adaptor) {
        assert forall|i: int| 0 <= i < all@.len() implies select_matches(
            #[trigger] all@[i],
            lookup_of(adaptor)(all@[i].field_path),
        ) by {
            assert(all.0@[i].matches(adaptor));
        }
    }
    if all_match(all@, adaptor) {
        assert forall|i: int| 0 <= i < all.0@.len() implies (#[trigger] all.0@[i]).matches(
            adaptor,
        ) by {
            assert(select_matches(all@[i], lookup_of(adaptor)(all@[i].field_path)));
        }
    }
}

/// A disjunction of conjunctions of selectors matches where every
/// selector of at least one of its clauses matches.
pub proof fn lemma_any_clauses(any: Any<All<Select>>, adaptor: &Box<dyn Adaptor>)
    ensures
        any.matches(adaptor) == any_match(any@, adaptor),
{
    assert forall|i: int| 0 <= i < any.0@.len() implies (#[trigger] any.0@[i]).matches(adaptor)
        == all_match_by(any@[i], lookup_of(adaptor)) by {
        lemma_all_selectors(any.0@[i], adaptor);
    }
    if any.matches(adaptor) {
        let i = choose|i: int| 0 <= i < any.0@.len() && (#[trigger] any.0@[i]).matches(adaptor);
        assert(all_match_by(any@[i], lookup_of(adaptor)));
    }
    if any_match(any@, adaptor) {
        let i = choose|i: int|
            0 <= i < any@.len() && all_match_by(#[trigger] any@[i], lookup_of(adaptor));
        assert(any.0@[i].matches(adaptor));
    }
}

} // verus!
