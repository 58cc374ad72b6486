//! A borrowed producer set that is never empty.
use crate::producer;
use crate::producer::{ProducerRef, ProducerView};
use vstd::prelude::*;

verus! {

/// The bound producers of a `one_or_more` slot: an ordered view that is never
/// empty, so its first member needs no unwrapping.
#[derive(Debug, Clone, Copy, PartialEq, Eq)]
pub struct NonEmptyProducers<'a> {
    producers: &'a [ProducerRef],
}

impl<'a> View for NonEmptyProducers<'a> {
    type V = Seq<ProducerView>;

    closed spec fn view(&self) -> Seq<ProducerView> {
        producer::producer_views(self.producers@)
    }
}

impl<'a> NonEmptyProducers<'a> {
    #[verifier::type_invariant]
    spec fn non_empty(self) -> bool {
        self.producers@.len() > 0
    }

    /// Wraps `producers`, or `None` when there are none.
    pub fn new(producers: &'a [ProducerRef]) -> (set: Option<Self>)
        ensures
            match set {
                Some(set) => producers@.len() > 0 && set@ == producer::producer_views(producers@),
                None => producers@.len() == 0,
            },
    {
        if producers.len() == 0 {
            return None;
        }
        Some(NonEmptyProducers { producers })
    }

    /// The first member in declaration order.
    pub fn first(&self) -> (first: &'a ProducerRef)
        ensures
            self@.len() > 0,
            first@ == self@[0],
    {
        proof {
            use_type_invariant(self);
        }
        &self.producers[0]
    }

    /// The number of members, at least one.
    pub fn len(&self) -> (count: usize)
        ensures
            count == self@.len(),
            count >= 1,
    {
        proof {
            use_type_invariant(self);
        }
        self.producers.len()
    }

    /// The members in declaration order.
    pub fn as_slice(&self) -> (members: &'a [ProducerRef])
        ensures
            producer::producer_views(members@) == self@,
    {
        self.producers
    }

    /// Iterates the members in declaration order.
    pub fn iter(&self) -> (members: std::slice::Iter<'a, ProducerRef>)
        ensures
            producer::producer_views(vstd::std_specs::iter::IteratorSpec::remaining(&members).unref()) == self@,
    {
        self.producers.iter()
    }
}

impl<'a> IntoIterator for NonEmptyProducers<'a> {
    type Item = &'a ProducerRef;

    type IntoIter = std::slice::Iter<'a, ProducerRef>;

    fn into_iter(self) -> (members: std::slice::Iter<'a, ProducerRef>)
        ensures
            producer::producer_views(vstd::std_specs::iter::IteratorSpec::remaining(&members).unref()) == self@,
    {
        self.producers.iter()
    }
}

impl<'a> IntoIterator for &NonEmptyProducers<'a> {
    type Item = &'a ProducerRef;

    type IntoIter = std::slice::Iter<'a, ProducerRef>;

    fn into_iter(self) -> (members: std::slice::Iter<'a, ProducerRef>)
        ensures
            producer::producer_views(vstd::std_specs::iter::IteratorSpec::remaining(&members).unref()) == self@,
    {
        self.producers.iter()
    }
}

} // verus!
