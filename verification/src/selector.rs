//! Compiled selectors: compound simple-selector sequences joined by
//! combinators, read right-to-left during matching.

use vstd::prelude::*;

verus! {

/// The kind of a simple selector.
#[derive(Clone, Copy, Debug, PartialEq, Eq, Structural)]
pub enum SimpleSelectorType {
    Universal,
    Type,
    Class,
    ID,
}

/// The structural relation joining two compound selectors in a chain.
#[derive(Clone, Copy, Debug, PartialEq, Eq, Structural)]
pub enum Combinator {
    Child,
    Descendant,
    NextSibling,
    SubsequentSibling,
}

/// One simple selector: its kind and, except for the universal selector,
/// the name it matches on.
#[derive(Debug)]
pub struct SimpleSelector {
    pub selector_type: SimpleSelectorType,
    pub value: Option<String>,
}

/// A compound of simple selectors that must all match one element.
#[derive(Debug)]
pub struct SimpleSelectorSequence {
    pub values: Vec<SimpleSelector>,
}

/// A whole selector: (sequence, combinator) pairs; the rightmost pair has no
/// combinator and stands for the matched element itself.
#[derive(Debug)]
pub struct Selector {
    pub values: Vec<(SimpleSelectorSequence, Option<Combinator>)>,
}

impl SimpleSelector {
    pub fn new(selector_type: SimpleSelectorType, value: Option<String>) -> (r: Self)
        ensures
            r.selector_type == selector_type,
            r.value == value,
    {
        Self { selector_type, value }
    }

    pub fn selector_type(&self) -> (r: SimpleSelectorType)
        ensures
            r == self.selector_type,
    {
        self.selector_type
    }

    pub fn value(&self) -> (r: &Option<String>)
        ensures
            r == &self.value,
    {
        &self.value
    }
}

impl SimpleSelectorSequence {
    pub fn new(values: Vec<SimpleSelector>) -> (r: Self)
        ensures
            r.values == values,
    {
        Self { values }
    }

    pub fn values(&self) -> (r: &Vec<SimpleSelector>)
        ensures
            r == &self.values,
    {
        &self.values
    }
}

impl Selector {
    pub fn new(values: Vec<(SimpleSelectorSequence, Option<Combinator>)>) -> (r: Self)
        ensures
            r.values == values,
    {
        Self { values }
    }

    pub fn values(&self) -> (r: &Vec<(SimpleSelectorSequence, Option<Combinator>)>)
        ensures
            r == &self.values,
    {
        &self.values
    }
}

} // verus!
