//! Producers and the producer sets bound to consumer slots.
use crate::error::{Error, ErrorView, Result};
use crate::text::text_eq;
use vstd::prelude::*;

verus! {

/// A producer's full wire address. An instance id alone is unique only within
/// one stack, so a half address cannot be written down.
#[derive(Debug, PartialEq, Eq, PartialOrd, Ord, Hash)]
pub struct ProducerRef {
    pub core_node: String,
    pub instance_id: String,
}

/// The view of a [`ProducerRef`].
pub struct ProducerView {
    pub core_node: Seq<char>,
    pub instance_id: Seq<char>,
}

impl View for ProducerRef {
    type V = ProducerView;

    open spec fn view(&self) -> ProducerView {
        ProducerView { core_node: self.core_node@, instance_id: self.instance_id@ }
    }
}

impl Clone for ProducerRef {
    fn clone(&self) -> (copy: Self)
        ensures
            copy@ == self@,
    {
        ProducerRef { core_node: self.core_node.clone(), instance_id: self.instance_id.clone() }
    }
}

impl ProducerRef {
    /// The producer at `(core_node, instance_id)`.
    pub fn new(core_node: &str, instance_id: &str) -> (producer: Self)
        ensures
            producer@ == (ProducerView { core_node: core_node@, instance_id: instance_id@ }),
    {
        ProducerRef { core_node: core_node.to_owned(), instance_id: instance_id.to_owned() }
    }

    /// Whether both name the same producer: the whole address counts.
    pub fn same_as(&self, other: &Self) -> (same: bool)
        ensures
            same == (self@ == other@),
    {
        text_eq(self.core_node.as_str(), other.core_node.as_str()) && text_eq(
            self.instance_id.as_str(),
            other.instance_id.as_str(),
        )
    }
}

/// The views of a sequence of producers.
pub open spec fn producer_views(producers: Seq<ProducerRef>) -> Seq<ProducerView> {
    producers.map_values(|producer: ProducerRef| producer@)
}

/// Whether `producers` holds `producer`.
pub fn contains_producer(producers: &[ProducerRef], producer: &ProducerRef) -> (found: bool)
    ensures
        found == producer_views(producers@).contains(producer@),
{
    let mut i: usize = 0;
    while i < producers.len()
        invariant
            i <= producers@.len(),
            forall|j: int| 0 <= j < i ==> (#[trigger] producers@[j])@ != producer@,
        decreases producers@.len() - i,
    {
        if producers[i].same_as(producer) {
            proof {
                assert(producer_views(producers@)[i as int] == producer@);
            }
            return true;
        }
        i = i + 1;
    }
    proof {
        if producer_views(producers@).contains(producer@) {
            let j = choose|j: int|
                0 <= j < producers@.len() && producer_views(producers@)[j] == producer@;
            assert(producers@[j]@ == producer@);
        }
    }
    false
}

/// Copies a list of producers.
pub fn copy_producers(producers: &[ProducerRef]) -> (copies: Vec<ProducerRef>)
    ensures
        producer_views(copies@) == producer_views(producers@),
{
    let mut copies: Vec<ProducerRef> = Vec::new();
    let mut i: usize = 0;
    while i < producers.len()
        invariant
            i <= producers@.len(),
            copies@.len() == i,
            forall|j: int| 0 <= j < i ==> (#[trigger] copies@[j])@ == producers@[j]@,
        decreases producers@.len() - i,
    {
        copies.push(producers[i].clone());
        i = i + 1;
    }
    proof {
        assert(producer_views(copies@) =~= producer_views(producers@));
    }
    copies
}

/// The producers bound to one consumer slot, in declaration order and without
/// duplicates.
#[derive(Debug, PartialEq, Eq)]
pub struct BoundProducers {
    producers: Vec<ProducerRef>,
}

impl View for BoundProducers {
    type V = Seq<ProducerView>;

    closed spec fn view(&self) -> Seq<ProducerView> {
        producer_views(self.producers@)
    }
}

impl Clone for BoundProducers {
    fn clone(&self) -> (copy: Self)
        ensures
            copy@ == self@,
    {
        proof {
            use_type_invariant(self);
        }
        BoundProducers { producers: copy_producers(self.producers.as_slice()) }
    }
}

/// The first position at which `producers` repeats an earlier entry.
pub open spec fn first_repeat(producers: Seq<ProducerView>, at: int) -> bool {
    &&& 0 <= at < producers.len()
    &&& producers.take(at).no_duplicates()
    &&& producers.take(at).contains(producers[at])
}

impl BoundProducers {
    #[verifier::type_invariant]
    spec fn distinct(self) -> bool {
        producer_views(self.producers@).no_duplicates()
    }

    /// The bound set that holds `producers` in that order. A repeated producer is
    /// refused, naming the first repetition.
    pub fn try_from_list(producers: Vec<ProducerRef>) -> (bound: Result<Self>)
        ensures
            match bound {
                Ok(bound) => producer_views(producers@).no_duplicates() && bound@ == producer_views(
                    producers@,
                ),
                Err(error) => exists|at: int| #[trigger]
                    first_repeat(producer_views(producers@), at) && error@
                        == (ErrorView::DuplicateBoundProducer {
                        core_node: producer_views(producers@)[at].core_node,
                        instance_id: producer_views(producers@)[at].instance_id,
                    }),
            },
    {
        let ghost views = producer_views(producers@);
        let mut i: usize = 0;
        while i < producers.len()
            invariant
                i <= producers@.len(),
                views == producer_views(producers@),
                views.take(i as int).no_duplicates(),
            decreases producers@.len() - i,
        {
            let mut j: usize = 0;
            while j < i
                invariant
                    j <= i < producers@.len(),
                    views == producer_views(producers@),
                    views.take(i as int).no_duplicates(),
                    forall|k: int| 0 <= k < j ==> (#[trigger] producers@[k])@ != producers@[i as int]@,
                decreases i - j,
            {
                if producers[j].same_as(&producers[i]) {
                    proof {
                        assert(views.take(i as int)[j as int] == views[i as int]);
                        assert(first_repeat(views, i as int));
                    }
                    return Err(
                        Error::DuplicateBoundProducer {
                            core_node: producers[i].core_node.clone(),
                            instance_id: producers[i].instance_id.clone(),
                        },
                    );
                }
                j = j + 1;
            }
            proof {
                let next = views.take(i + 1);
                assert(next.no_duplicates()) by {
                    assert forall|a: int, b: int|
                        0 <= a < next.len() && 0 <= b < next.len() && a != b implies next[a] != next[b] by {
                        if a < i && b < i {
                            assert(views.take(i as int)[a] != views.take(i as int)[b]);
                        } else if a < i {
                            assert(producers@[a]@ != producers@[i as int]@);
                        } else {
                            assert(producers@[b]@ != producers@[i as int]@);
                        }
                    }
                }
            }
            i = i + 1;
        }
        proof {
            assert(views.take(i as int) =~= views);
        }
        Ok(BoundProducers { producers })
    }

    /// The bound set that holds `producers`, which has to be neither empty nor
    /// repetitive.
    pub fn new(producers: Vec<ProducerRef>) -> (bound: Option<Self>)
        ensures
            bound is Some <==> producers@.len() > 0 && producer_views(producers@).no_duplicates(),
            bound matches Some(bound) ==> bound@ == producer_views(producers@),
    {
        if producers.len() == 0 {
            return None;
        }
        let ghost views = producer_views(producers@);
        match Self::try_from_list(producers) {
            Ok(bound) => Some(bound),
            Err(error) => {
                proof {
                    let at = choose|at: int| #[trigger]
                        first_repeat(views, at) && error@ == (ErrorView::DuplicateBoundProducer {
                            core_node: views[at].core_node,
                            instance_id: views[at].instance_id,
                        });
                    let k = choose|k: int| 0 <= k < at && views.take(at)[k] == views[at];
                    assert(views[k] == views[at]);
                }
                None
            },
        }
    }

    /// The empty bound set.
    pub fn empty() -> (bound: Self)
        ensures
            bound@ == Seq::<ProducerView>::empty(),
    {
        let bound = BoundProducers { producers: Vec::new() };
        proof {
            assert(bound@ =~= Seq::<ProducerView>::empty());
        }
        bound
    }

    /// The members in declaration order.
    pub fn as_slice(&self) -> (members: &[ProducerRef])
        ensures
            producer_views(members@) == self@,
            self@.no_duplicates(),
    {
        proof {
            use_type_invariant(self);
        }
        self.producers.as_slice()
    }

    /// The number of members.
    pub fn len(&self) -> (count: usize)
        ensures
            count == self@.len(),
    {
        self.producers.len()
    }

    /// The sole member, or `None` when there is not exactly one.
    pub fn single(&self) -> (sole: Option<&ProducerRef>)
        ensures
            match sole {
                Some(producer) => self@ == seq![producer@],
                None => self@.len() != 1,
            },
    {
        if self.producers.len() == 1 {
            proof {
                assert(self@ =~= seq![self.producers@[0]@]);
            }
            Some(&self.producers[0])
        } else {
            None
        }
    }
}

/// The producers of a list are its entries, in their order, each with its core node
/// and its instance.
pub proof fn law_producers_are_listed_in_order(producers: Seq<ProducerRef>)
    ensures
        producer_views(producers).len() == producers.len(),
        forall|i: int|
            0 <= i < producers.len() ==> (#[trigger] producer_views(producers)[i]).core_node
                == producers[i].core_node@ && producer_views(producers)[i].instance_id
                == producers[i].instance_id@,
{
}

/// The first repetition in a list is at the one position whose producer came before
/// while all producers before it differ; and a list has one exactly when some
/// producer is in it twice.
pub proof fn law_first_repetition(producers: Seq<ProducerView>, at: int)
    ensures
        first_repeat(producers, at) <==> 0 <= at < producers.len() && (exists|i: int|
            0 <= i < at && #[trigger] producers[i] == producers[at]) && (forall|i: int, j: int|
            0 <= i < j < at ==> #[trigger] producers[i] != #[trigger] producers[j]),
        first_repeat(producers, at) ==> !producers.no_duplicates(),
{
    if 0 <= at < producers.len() {
        let earlier = producers.take(at);
        if earlier.contains(producers[at]) {
            let i = choose|i: int| 0 <= i < earlier.len() && earlier[i] == producers[at];
            assert(producers[i] == producers[at]);
        }
        if exists|i: int| 0 <= i < at && #[trigger] producers[i] == producers[at] {
            let i = choose|i: int| 0 <= i < at && #[trigger] producers[i] == producers[at];
            assert(earlier[i] == producers[at]);
        }
        if earlier.no_duplicates() {
            assert forall|i: int, j: int| 0 <= i < j < at implies #[trigger] producers[i]
                != #[trigger] producers[j] by {
                assert(earlier[i] != earlier[j]);
            }
        }
        if forall|i: int, j: int|
            0 <= i < j < at ==> #[trigger] producers[i] != #[trigger] producers[j] {
            assert forall|i: int, j: int|
                0 <= i < earlier.len() && 0 <= j < earlier.len() && i != j implies earlier[i]
                != earlier[j] by {
                if i < j {
                    assert(producers[i] != producers[j]);
                } else {
                    assert(producers[j] != producers[i]);
                }
            }
        }
    }
}

} // verus!
