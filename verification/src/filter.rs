//! The per-slot filter that decides which producers reach a consumer slot.
use crate::producer;
use crate::producer::{BoundProducers, ProducerRef, ProducerView};
use vstd::prelude::*;

verus! {

/// The producers explicitly bound to one consumer slot, in binding order.
#[derive(Debug, PartialEq, Eq)]
pub struct ConsumerFilter {
    producers: BoundProducers,
}

impl View for ConsumerFilter {
    type V = Seq<ProducerView>;

    closed spec fn view(&self) -> Seq<ProducerView> {
        self.producers@
    }
}

impl ConsumerFilter {
    /// The filter that admits exactly `producers`.
    pub fn new(producers: BoundProducers) -> (filter: Self)
        ensures
            filter@ == producers@,
    {
        ConsumerFilter { producers }
    }

    /// The admitted producers in binding order.
    pub fn producers(&self) -> (producers: &[ProducerRef])
        ensures
            producer::producer_views(producers@) == self@,
    {
        self.producers.as_slice()
    }

    /// The one producer that service and action calls address, when the slot is
    /// bound to exactly one.
    pub fn pinned_target(&self) -> (target: Option<&ProducerRef>)
        ensures
            match target {
                Some(producer) => self@ == seq![producer@],
                None => self@.len() != 1,
            },
    {
        self.producers.single()
    }
}

} // verus!
