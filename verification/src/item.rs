//! What the picker asks of the values it lists.

use std::rc::Rc;
use vstd::prelude::*;

verus! {

/// A value that offers a text to match a filter against.
pub trait FuzzyMatchable {
    /// The text that filters are matched against. An implementation states
    /// it; until it does, nothing is known of the text.
    open spec fn match_text(&self) -> Seq<char> {
        arbitrary()
    }

    fn match_against(&self) -> (text: &str)
        ensures
            text@ == self.match_text(),
    ;
}

impl FuzzyMatchable for String {
    open spec fn match_text(&self) -> Seq<char> {
        self@
    }

    fn match_against(&self) -> (text: &str) {
        self.as_str()
    }
}

impl<T: FuzzyMatchable> FuzzyMatchable for Rc<T> {
    open spec fn match_text(&self) -> Seq<char> {
        (**self).match_text()
    }

    fn match_against(&self) -> (text: &str) {
        let inner: &T = &**self;
        inner.match_against()
    }
}

/// A listed value: it can be matched, compared with another value and
/// duplicated. A duplicate is indistinguishable from the value it was made of.
pub trait Item: FuzzyMatchable + Sized {
    /// Whether the picker treats the two values as the same choice: unless
    /// an implementation says otherwise, that they are the same value.
    open spec fn same_as(&self, other: &Self) -> bool {
        *self == *other
    }

    fn same(&self, other: &Self) -> (yes: bool)
        ensures
            yes == self.same_as(other),
    ;

    fn duplicate(&self) -> (copy: Self)
        ensures
            copy == *self,
    ;
}

impl Item for String {
    open spec fn same_as(&self, other: &Self) -> bool {
        self@ == other@
    }

    fn same(&self, other: &Self) -> (yes: bool) {
        *self == *other
    }

    fn duplicate(&self) -> (copy: Self) {
        self.clone()
    }
}

/// Calls `Rc::clone`. Trusted: the new handle points to the same value as the
/// one it was made of.
#[verifier::external_body]
fn share<T>(handle: &Rc<T>) -> (other: Rc<T>)
    ensures
        other == *handle,
{
    Rc::clone(handle)
}

impl<T: Item> Item for Rc<T> {
    open spec fn same_as(&self, other: &Self) -> bool {
        (**self).same_as(&**other)
    }

    fn same(&self, other: &Self) -> (yes: bool) {
        let a: &T = &**self;
        let b: &T = &**other;
        a.same(b)
    }

    fn duplicate(&self) -> (copy: Self) {
        share(self)
    }
}

/// A duplicate of an optional value.
pub fn duplicate_option<Sel: Item>(value: &Option<Sel>) -> (copy: Option<Sel>)
    ensures
        copy == *value,
{
    match value {
        Some(v) => Some(v.duplicate()),
        None => None,
    }
}

} // verus!
