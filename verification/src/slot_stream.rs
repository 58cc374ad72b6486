//! Following the pins of a slot: pairing peers and observed sources.
//!
//! A slot names the pins to follow, and what it names changes while the node
//! runs. For every followed pin there is exactly one wire subscription. A pin the
//! slot moves off loses its subscription before any new one is declared, and a
//! message that is still buffered under such a pin never surfaces.
use crate::message::Message;
use crate::observation::{ObservationState, ObservedSource};
use crate::pairing::{PeerInfo, PeerSetState};
use crate::producer::{ProducerRef, ProducerView};
use crate::text::text_eq;
use crate::topics;
use vstd::prelude::*;

verus! {

/// The identity of a followed pin: the publisher's wire address, and the
/// incarnation that tells byte-identical addresses apart.
pub struct PinView {
    pub generation: nat,
    pub producer: ProducerView,
    pub link_id: Seq<char>,
}

/// A kind of slot: what its state says is to be followed.
pub trait FollowedSlot: Sized {
    /// What is delivered to the slot.
    type State;

    /// One followed pin.
    type Pin;

    /// The pins that a state says to follow, in the slot's order.
    spec fn followed(state: &Self::State) -> Seq<PinView>;

    /// The identity of a pin.
    spec fn identity(pin: &Self::Pin) -> PinView;

    /// The pins to follow now, in the slot's order.
    fn desired(state: &Self::State) -> (pins: Vec<Self::Pin>)
        ensures
            pins@.len() == Self::followed(state).len(),
            forall|i: int|
                0 <= i < pins@.len() ==> Self::identity(&#[trigger] pins@[i]) == Self::followed(state)[i],
    ;

    /// Whether `pin` is still to be followed.
    fn is_followed(state: &Self::State, pin: &Self::Pin) -> (followed: bool)
        ensures
            followed == Self::followed(state).contains(Self::identity(pin)),
    ;

    /// Whether both are the same pin.
    fn same_pin(pin: &Self::Pin, other: &Self::Pin) -> (same: bool)
        ensures
            same == (Self::identity(pin) == Self::identity(other)),
    ;

    /// A second copy of a pin.
    fn copy_pin(pin: &Self::Pin) -> (copy: Self::Pin)
        ensures
            Self::identity(&copy) == Self::identity(pin),
    ;

    /// The producer whose publishes the pin subscribes to.
    fn producer(pin: &Self::Pin) -> (producer: &ProducerRef)
        ensures
            producer@ == Self::identity(pin).producer,
    ;

    /// The producer-side link id of those publishes.
    fn producer_link_id(pin: &Self::Pin) -> (link_id: &str)
        ensures
            link_id@ == Self::identity(pin).link_id,
    ;
}

/// What an observer slot follows: a source in one of its incarnations.
#[derive(Debug, PartialEq, Eq)]
pub struct ObservedPin {
    generation: u64,
    source: ObservedSource,
}

impl ObservedPin {
    /// The observed source.
    pub fn source(&self) -> (source: &ObservedSource)
        ensures
            source@.producer == ObservedFollow::identity(self).producer,
            source@.source_link_id == ObservedFollow::identity(self).link_id,
    {
        &self.source
    }
}

/// The observer kind of slot. It follows one pin per member, keyed by the
/// member's generation, so that an incarnation change redeclares that member.
pub struct ObservedFollow {}

impl FollowedSlot for ObservedFollow {
    type State = ObservationState;

    type Pin = ObservedPin;

    open spec fn followed(state: &ObservationState) -> Seq<PinView> {
        state.members@.map_values(
            |member: crate::observation::ObservedMemberState|
                PinView {
                    generation: member.source_generation as nat,
                    producer: member.source@.producer,
                    link_id: member.source@.source_link_id,
                },
        )
    }

    closed spec fn identity(pin: &ObservedPin) -> PinView {
        PinView {
            generation: pin.generation as nat,
            producer: pin.source@.producer,
            link_id: pin.source@.source_link_id,
        }
    }

    fn desired(state: &ObservationState) -> (pins: Vec<ObservedPin>) {
        let mut pins: Vec<ObservedPin> = Vec::new();
        let mut i: usize = 0;
        while i < state.members.len()
            invariant
                i <= state.members@.len(),
                pins@.len() == i,
                forall|j: int|
                    0 <= j < i ==> Self::identity(&#[trigger] pins@[j]) == Self::followed(state)[j],
            decreases state.members@.len() - i,
        {
            let pin = ObservedPin {
                generation: state.members[i].source_generation,
                source: state.members[i].source.clone(),
            };
            pins.push(pin);
            i = i + 1;
        }
        pins
    }

    fn is_followed(state: &ObservationState, pin: &ObservedPin) -> (followed: bool) {
        let mut i: usize = 0;
        while i < state.members.len()
            invariant
                i <= state.members@.len(),
                forall|j: int| 0 <= j < i ==> #[trigger] Self::followed(state)[j] != Self::identity(pin),
            decreases state.members@.len() - i,
        {
            let same: bool = state.members[i].source_generation == pin.generation
                && state.members[i].source.same_as(&pin.source);
            proof {
                assert(same == (Self::followed(state)[i as int] == Self::identity(pin)));
            }
            if same {
                return true;
            }
            i = i + 1;
        }
        false
    }

    fn same_pin(pin: &ObservedPin, other: &ObservedPin) -> (same: bool) {
        pin.generation == other.generation && pin.source.same_as(&other.source)
    }

    fn copy_pin(pin: &ObservedPin) -> (copy: ObservedPin) {
        ObservedPin { generation: pin.generation, source: pin.source.clone() }
    }

    fn producer(pin: &ObservedPin) -> (producer: &ProducerRef) {
        &pin.source.producer
    }

    fn producer_link_id(pin: &ObservedPin) -> (link_id: &str) {
        pin.source.source_link_id.as_str()
    }
}

/// The pairing kind of slot. It follows the peers themselves.
pub struct PeerFollow {}

impl FollowedSlot for PeerFollow {
    type State = PeerSetState;

    type Pin = PeerInfo;

    open spec fn followed(state: &PeerSetState) -> Seq<PinView> {
        state.members@.map_values(
            |member: crate::pairing::PeerMember|
                PinView {
                    generation: 0,
                    producer: member.info@.producer,
                    link_id: member.info@.peer_link_id,
                },
        )
    }

    open spec fn identity(pin: &PeerInfo) -> PinView {
        PinView { generation: 0, producer: pin@.producer, link_id: pin@.peer_link_id }
    }

    fn desired(state: &PeerSetState) -> (pins: Vec<PeerInfo>) {
        let pins = state.peers();
        proof {
            assert(crate::pairing::peer_views(pins@).len() == state.members@.len());
            assert forall|i: int| 0 <= i < pins@.len() implies Self::identity(&#[trigger] pins@[i])
                == Self::followed(state)[i] by {
                assert(crate::pairing::peer_views(pins@)[i] == crate::pairing::member_peers(
                    state.members@,
                )[i]);
            }
        }
        pins
    }

    fn is_followed(state: &PeerSetState, pin: &PeerInfo) -> (followed: bool) {
        let held: bool = state.holds(pin);
        proof {
            let peers = crate::pairing::member_peers(state.members@);
            if peers.contains(pin@) {
                let i = choose|i: int| 0 <= i < peers.len() && peers[i] == pin@;
                assert(Self::followed(state)[i] == Self::identity(pin));
            }
            if Self::followed(state).contains(Self::identity(pin)) {
                let i = choose|i: int|
                    0 <= i < state.members@.len() && Self::followed(state)[i] == Self::identity(pin);
                assert(peers[i] == state.members@[i].info@);
                assert(peers[i] == pin@);
            }
        }
        held
    }

    fn same_pin(pin: &PeerInfo, other: &PeerInfo) -> (same: bool) {
        pin.same_as(other)
    }

    fn copy_pin(pin: &PeerInfo) -> (copy: PeerInfo) {
        pin.clone()
    }

    fn producer(pin: &PeerInfo) -> (producer: &ProducerRef) {
        &pin.producer
    }

    fn producer_link_id(pin: &PeerInfo) -> (link_id: &str) {
        pin.peer_link_id.as_str()
    }
}

/// The identities of a list of pins.
pub open spec fn identities<F: FollowedSlot>(pins: Seq<F::Pin>) -> Seq<PinView> {
    pins.map_values(|pin: F::Pin| F::identity(&pin))
}

/// The pins that a list of subscriptions follows.
pub open spec fn subscribed<F: FollowedSlot, S>(current: Seq<(F::Pin, S)>) -> Seq<PinView> {
    current.map_values(|entry: (F::Pin, S)| F::identity(&entry.0))
}

/// A convergence under way: for every pin to follow, the subscription that is
/// kept for it, and the pins whose subscription is still owed, with their
/// positions.
pub struct Convergence<P, S> {
    pub kept: Vec<Option<(P, S)>>,
    pub owed: Vec<(usize, P)>,
}

/// Whether `kept` takes over `current` for the pins `desired` as `from` says:
/// every pin gets the subscription it had, none is used twice, and a pin goes
/// without only when none is left for it.
pub open spec fn claimed<F: FollowedSlot, S>(
    current: Seq<(F::Pin, S)>,
    desired: Seq<PinView>,
    kept: Seq<Option<(F::Pin, S)>>,
    from: Seq<Option<int>>,
) -> bool {
    &&& kept.len() == desired.len()
    &&& from.len() == desired.len()
    &&& forall|i: int|
        0 <= i < desired.len() ==> match #[trigger] from[i] {
            Some(k) => 0 <= k < current.len() && F::identity(&current[k].0) == desired[i] && kept[i]
                == Some(current[k]),
            None => kept[i] is None && exhausted::<F, S>(current, desired[i], from, i),
        }
    &&& forall|i: int, j: int|
        0 <= i < desired.len() && 0 <= j < desired.len() && i != j && (#[trigger] from[i]) is Some
            ==> from[i] != #[trigger] from[j]
}

/// Whether every subscription of `current` that follows `pin` was taken over by
/// an earlier pin than the one at `i`.
pub open spec fn exhausted<F: FollowedSlot, S>(
    current: Seq<(F::Pin, S)>,
    pin: PinView,
    from: Seq<Option<int>>,
    i: int,
) -> bool {
    forall|k: int|
        0 <= k < current.len() && F::identity(&(#[trigger] current[k]).0) == pin ==> used_before(
            from,
            i,
            k,
        )
}

/// Whether an earlier pin than the one at `i` took over subscription `k`.
pub open spec fn used_before(from: Seq<Option<int>>, i: int, k: int) -> bool {
    exists|j: int| 0 <= j < i && #[trigger] from[j] == Some(k)
}

/// Whether `owed` lists exactly the pins of `desired` without a kept
/// subscription, in order.
pub open spec fn owes<F: FollowedSlot, S>(
    desired: Seq<PinView>,
    kept: Seq<Option<(F::Pin, S)>>,
    owed: Seq<(usize, F::Pin)>,
) -> bool {
    &&& kept.len() == desired.len()
    &&& lists_missing(kept, owed)
    &&& forall|k: int|
        0 <= k < owed.len() ==> F::identity(&(#[trigger] owed[k]).1) == desired[owed[k].0 as int]
}

/// Whether `owed` lists exactly the positions of `kept` that are vacant, in
/// order.
pub open spec fn lists_missing<P, S>(kept: Seq<Option<(P, S)>>, owed: Seq<(usize, P)>) -> bool {
    &&& forall|k: int|
        0 <= k < owed.len() ==> (#[trigger] owed[k]).0 < kept.len() && kept[owed[k].0 as int] is None
    &&& forall|k: int, l: int|
        0 <= k < l < owed.len() ==> (#[trigger] owed[k]).0 < (#[trigger] owed[l]).0
    &&& forall|i: int|
        0 <= i < kept.len() && (#[trigger] kept[i]) is None ==> exists|k: int|
            0 <= k < owed.len() && (#[trigger] owed[k]).0 == i
}

/// Starts converging the live subscriptions onto the pins to follow. A pin that
/// is still followed keeps its subscription. Every other subscription is dropped
/// here, before any new one is declared.
pub fn begin_convergence<F: FollowedSlot, S>(
    current: Vec<(F::Pin, S)>,
    desired: Vec<F::Pin>,
) -> (plan: Convergence<F::Pin, S>)
    ensures
        exists|from: Seq<Option<int>>|
            claimed::<F, S>(current@, identities::<F>(desired@), plan.kept@, from),
        owes::<F, S>(identities::<F>(desired@), plan.kept@, plan.owed@),
{
    let ghost all = current@;
    let ghost wanted = identities::<F>(desired@);
    let ghost pins = desired@;
    let mut live: Vec<Option<(F::Pin, S)>> = Vec::new();
    for entry in it: current
        invariant
            it.seq() == all,
            live@.len() == it.index(),
            forall|k: int| 0 <= k < it.index() ==> #[trigger] live@[k] == Some(all[k]),
    {
        live.push(Some(entry));
    }
    let mut kept: Vec<Option<(F::Pin, S)>> = Vec::new();
    let mut owed: Vec<(usize, F::Pin)> = Vec::new();
    let ghost mut from: Seq<Option<int>> = Seq::empty();
    for pin in it: desired
        invariant
            it.seq() == pins,
            wanted == identities::<F>(pins),
            live@.len() == all.len(),
            forall|k: int|
                0 <= k < all.len() ==> #[trigger] live@[k] == (if used_before(from, it.index(), k) {
                    None
                } else {
                    Some(all[k])
                }),
            claimed::<F, S>(all, wanted.take(it.index()), kept@, from),
            owes::<F, S>(wanted.take(it.index()), kept@, owed@),
    {
        let ghost at = it.index();
        let position: usize = kept.len();
        proof {
            assert(wanted[at] == F::identity(&pin));
            assert(position == at);
        }
        let mut k: usize = 0;
        let mut found: bool = false;
        while k < live.len() && !found
            invariant
                k <= live@.len(),
                live@.len() == all.len(),
                found ==> k < live@.len() && live@[k as int] is Some && F::identity(
                    &live@[k as int]->Some_0.0,
                ) == F::identity(&pin),
                forall|l: int|
                    0 <= l < k ==> (#[trigger] live@[l] matches Some(entry) ==> F::identity(&entry.0)
                        != F::identity(&pin)),
            decreases live@.len() - k, (if found {
                0int
            } else {
                1int
            }),
        {
            let same: bool = match &live[k] {
                Some(entry) => F::same_pin(&entry.0, &pin),
                None => false,
            };
            if same {
                found = true;
            } else {
                k = k + 1;
            }
        }
        let ghost before = from;
        let ghost kept_before = kept@;
        let ghost owed_before = owed@;
        let ghost live_before = live@;
        if found {
            let taken: Option<(F::Pin, S)> = live[k].take();
            kept.push(taken);
            proof {
                from = from.push(Some(k as int));
                assert(live_before[k as int] == Some(all[k as int]));
            }
        } else {
            let ghost entry = (position, pin);
            kept.push(None);
            owed.push((position, pin));
            proof {
                from = from.push(None::<int>);
            }
        }
        proof {
            let next = wanted.take(at + 1);
            assert forall|i: int, l: int| 0 <= i <= at implies used_before(from, i, l) == used_before(
                before,
                i,
                l,
            ) by {
                if used_before(from, i, l) {
                    let j = choose|j: int| 0 <= j < i && #[trigger] from[j] == Some(l);
                    assert(before[j] == Some(l));
                }
                if used_before(before, i, l) {
                    let j = choose|j: int| 0 <= j < i && #[trigger] before[j] == Some(l);
                    assert(from[j] == Some(l));
                }
            }
            assert forall|l: int| used_before(from, at + 1, l) == (used_before(before, at, l) || from[at]
                == Some(l)) by {
                if used_before(from, at + 1, l) {
                    let j = choose|j: int| 0 <= j < at + 1 && #[trigger] from[j] == Some(l);
                    if j < at {
                        assert(before[j] == Some(l));
                    }
                }
                if used_before(before, at, l) {
                    let j = choose|j: int| 0 <= j < at && #[trigger] before[j] == Some(l);
                    assert(from[j] == Some(l));
                }
                if from[at] == Some(l) {
                    assert(used_before(from, at + 1, l));
                }
            }
            assert forall|i: int| 0 <= i < next.len() implies match #[trigger] from[i] {
                Some(c) => 0 <= c < all.len() && F::identity(&all[c].0) == next[i] && kept@[i] == Some(
                    all[c],
                ),
                None => kept@[i] is None && exhausted::<F, S>(all, next[i], from, i),
            } by {
                if i < at {
                    assert(from[i] == before[i]);
                    assert(kept@[i] == kept_before[i]);
                    assert(next[i] == wanted.take(at)[i]);
                } else if !found {
                    assert forall|l: int|
                        0 <= l < all.len() && F::identity(&(#[trigger] all[l]).0) == next[i] implies used_before(
                        from,
                        i,
                        l,
                    ) by {
                        assert(live_before[l] == (if used_before(before, at, l) {
                            None
                        } else {
                            Some(all[l])
                        }));
                    }
                }
            }
            assert forall|i: int, j: int|
                0 <= i < next.len() && 0 <= j < next.len() && i != j && (#[trigger] from[i]) is Some implies from[i]
                != #[trigger] from[j] by {
                if i < at && j < at {
                    assert(before[i] == from[i] && before[j] == from[j]);
                } else if i == at {
                    if from[j] == from[i] {
                        assert(before[j] == Some(k as int));
                        assert(used_before(before, at, k as int));
                    }
                } else {
                    if from[j] == from[i] {
                        assert(before[i] == Some(k as int));
                        assert(used_before(before, at, k as int));
                    }
                }
            }
            assert(owes::<F, S>(next, kept@, owed@)) by {
                assert forall|c: int| 0 <= c < owed@.len() implies (#[trigger] owed@[c]).0 < next.len()
                    && kept@[owed@[c].0 as int] is None && F::identity(&owed@[c].1)
                    == next[owed@[c].0 as int] by {
                    if c < owed_before.len() {
                        assert(owed@[c] == owed_before[c]);
                    }
                }
                assert forall|c: int, d: int| 0 <= c < d < owed@.len() implies (#[trigger] owed@[c]).0 < (
                #[trigger] owed@[d]).0 by {
                    assert(owed@[c] == owed_before[c]);
                    if d < owed_before.len() {
                        assert(owed@[d] == owed_before[d]);
                    }
                }
                assert forall|i: int| 0 <= i < next.len() && (#[trigger] kept@[i]) is None implies exists|c: int|
                    0 <= c < owed@.len() && (#[trigger] owed@[c]).0 == i by {
                    if i < at {
                        assert(kept@[i] == kept_before[i]);
                        let c = choose|c: int|
                            0 <= c < owed_before.len() && (#[trigger] owed_before[c]).0 == i;
                        assert(owed@[c].0 == i);
                    } else {
                        assert(owed@[owed_before.len() as int].0 == i);
                    }
                }
            }
        }
    }
    let plan = Convergence { kept, owed };
    proof {
        assert(wanted.take(pins.len() as int) =~= wanted);
        assert(claimed::<F, S>(current@, identities::<F>(desired@), plan.kept@, from));
    }
    plan
}

/// What follows a pin in the end: the subscription kept for it, or the one
/// declared for it, or nothing when its declaration failed.
pub open spec fn settled<P, S>(
    kept: Seq<Option<(P, S)>>,
    owed: Seq<(usize, P)>,
    declared: Seq<Option<S>>,
    i: int,
) -> Option<(P, S)> {
    if kept[i] is Some {
        kept[i]
    } else {
        let k = owed_at(owed, i);
        match declared[k] {
            Some(subscription) => Some((owed[k].1, subscription)),
            None => None,
        }
    }
}

/// Which owed declaration is the one for position `i`.
pub open spec fn owed_at<P>(owed: Seq<(usize, P)>, i: int) -> int {
    choose|k: int| 0 <= k < owed.len() && (#[trigger] owed[k]).0 == i
}

/// The entries that are present, in order.
pub open spec fn present<T>(entries: Seq<Option<T>>) -> Seq<T>
    decreases entries.len(),
{
    if entries.len() == 0 {
        Seq::empty()
    } else {
        match entries.last() {
            Some(entry) => present(entries.drop_last()).push(entry),
            None => present(entries.drop_last()),
        }
    }
}

/// What follows every pin in the end.
pub open spec fn settlement<P, S>(
    kept: Seq<Option<(P, S)>>,
    owed: Seq<(usize, P)>,
    declared: Seq<Option<S>>,
) -> Seq<Option<(P, S)>> {
    Seq::new(kept.len(), |i: int| settled(kept, owed, declared, i))
}

/// Ends a convergence with the outcomes of the owed declarations, one per owed
/// pin. A pin whose declaration failed is left out; the others keep their order.
pub fn finish_convergence<P, S>(plan: Convergence<P, S>, declared: Vec<Option<S>>) -> (current: Vec<
    (P, S),
>)
    requires
        lists_missing(plan.kept@, plan.owed@),
        declared@.len() == plan.owed@.len(),
    ensures
        current@ == present(settlement(plan.kept@, plan.owed@, declared@)),
{
    let Convergence { kept, owed } = plan;
    let ghost all = kept@;
    let ghost due = owed@;
    let ghost outcomes = declared@;
    let ghost whole = settlement(all, due, outcomes);
    let mut pins: Vec<Option<P>> = Vec::new();
    for entry in it: owed
        invariant
            it.seq() == due,
            pins@.len() == it.index(),
            forall|k: int| 0 <= k < it.index() ==> #[trigger] pins@[k] == Some(due[k].1),
    {
        pins.push(Some(entry.1));
    }
    let mut results: Vec<Option<S>> = declared;
    let mut current: Vec<(P, S)> = Vec::new();
    let mut next: usize = 0;
    let count: usize = pins.len();
    proof {
        assert(whole.take(0) =~= Seq::empty());
    }
    for entry in it: kept
        invariant
            it.seq() == all,
            lists_missing(all, due),
            outcomes.len() == due.len(),
            whole == settlement(all, due, outcomes),
            next <= due.len(),
            count == due.len(),
            pins@.len() == due.len(),
            results@.len() == due.len(),
            forall|k: int| next <= k < due.len() ==> #[trigger] pins@[k] == Some(due[k].1),
            forall|k: int| next <= k < due.len() ==> #[trigger] results@[k] == outcomes[k],
            forall|k: int| 0 <= k < next ==> (#[trigger] due[k]).0 < it.index(),
            forall|k: int| next <= k < due.len() ==> (#[trigger] due[k]).0 >= it.index(),
            current@ == present(whole.take(it.index())),
    {
        let ghost at = it.index();
        let ghost held = current@;
        proof {
            assert(whole.take(at + 1).drop_last() =~= whole.take(at));
            assert(whole.take(at + 1).last() == settled(all, due, outcomes, at));
        }
        match entry {
            Some(kept_entry) => {
                current.push(kept_entry);
                proof {
                    assert forall|k: int| next <= k < due.len() implies (#[trigger] due[k]).0 >= at + 1 by {
                        if due[k].0 == at {
                            assert(all[at] is None);
                        }
                    }
                }
            },
            None => {
                proof {
                    let k = owed_at(due, at);
                    assert(exists|k: int| 0 <= k < due.len() && (#[trigger] due[k]).0 == at);
                    assert(due[k].0 == at);
                    assert(k >= next);
                    if k > next {
                        assert(due[next as int].0 < due[k].0);
                    }
                    assert(k == next);
                }
                let pin: Option<P> = pins[next].take();
                let outcome: Option<S> = results[next].take();
                match (pin, outcome) {
                    (Some(pin), Some(subscription)) => {
                        current.push((pin, subscription));
                    },
                    _ => {},
                }
                proof {
                    assert forall|k: int| next + 1 <= k < due.len() implies (#[trigger] due[k]).0 >= at + 1 by {
                        assert(due[next as int].0 < due[k].0);
                    }
                }
                next = next + 1;
            },
        }
    }
    proof {
        assert(whole.take(all.len() as int) =~= whole);
    }
    current
}

/// How the pins of a convergence are followed in the end, over the identities:
/// the pins of the subscriptions that result are pins to follow, in that order.
proof fn lemma_present_subscribed<F: FollowedSlot, S>(
    entries: Seq<Option<(F::Pin, S)>>,
    desired: Seq<PinView>,
)
    requires
        entries.len() == desired.len(),
        forall|i: int|
            0 <= i < entries.len() ==> (#[trigger] entries[i] matches Some(entry) ==> F::identity(
                &entry.0,
            ) == desired[i]),
    ensures
        forall|k: int|
            0 <= k < present(entries).len() ==> #[trigger] followed_from::<F, S>(
                entries,
                desired,
                present(entries)[k],
            ),
        desired.no_duplicates() ==> subscribed::<F, S>(present(entries)).no_duplicates(),
        (forall|i: int| 0 <= i < entries.len() ==> (#[trigger] entries[i]) is Some) ==> subscribed::<
            F,
            S,
        >(present(entries)) == desired,
    decreases entries.len(),
{
    let result = present(entries);
    if entries.len() > 0 {
        let shorter = entries.drop_last();
        let wanted = desired.drop_last();
        assert forall|i: int| 0 <= i < shorter.len() implies (#[trigger] shorter[i] matches Some(entry)
            ==> F::identity(&entry.0) == wanted[i]) by {
            assert(entries[i] == shorter[i]);
        }
        lemma_present_subscribed::<F, S>(shorter, wanted);
        let rest = present(shorter);
        assert forall|k: int| 0 <= k < result.len() implies #[trigger] followed_from::<F, S>(
            entries,
            desired,
            result[k],
        ) by {
            if k < rest.len() {
                assert(followed_from::<F, S>(shorter, wanted, rest[k]));
                let i = choose|i: int|
                    0 <= i < shorter.len() && #[trigger] shorter[i] == Some(rest[k]);
                assert(entries[i] == Some(result[k]));
            } else {
                assert(entries[entries.len() - 1] == Some(result[k]));
            }
        }
        if desired.no_duplicates() {
            assert(wanted.no_duplicates()) by {
                assert forall|a: int, b: int| 0 <= a < wanted.len() && 0 <= b < wanted.len() && a != b implies wanted[a]
                    != wanted[b] by {
                    assert(desired[a] != desired[b]);
                }
            }
            let pins = subscribed::<F, S>(result);
            assert forall|a: int, b: int| 0 <= a < pins.len() && 0 <= b < pins.len() && a != b implies pins[a]
                != pins[b] by {
                let before = subscribed::<F, S>(rest);
                if a < rest.len() && b < rest.len() {
                    assert(before[a] == pins[a] && before[b] == pins[b]);
                } else {
                    let old = if a < rest.len() {
                        a
                    } else {
                        b
                    };
                    assert(followed_from::<F, S>(shorter, wanted, rest[old]));
                    let i = choose|i: int|
                        0 <= i < shorter.len() && #[trigger] shorter[i] == Some(rest[old]);
                    assert(entries[i] == Some(rest[old]));
                    assert(pins[old] == desired[i]);
                    assert(entries[entries.len() - 1] is Some);
                    assert(pins[rest.len() as int] == desired[desired.len() - 1]);
                    assert(desired[i] != desired[desired.len() - 1]);
                }
            }
        }
        if forall|i: int| 0 <= i < entries.len() ==> (#[trigger] entries[i]) is Some {
            assert forall|i: int| 0 <= i < shorter.len() implies (#[trigger] shorter[i]) is Some by {
                assert(entries[i] == shorter[i]);
            }
            assert(entries[entries.len() - 1] is Some);
            assert(subscribed::<F, S>(result) =~= subscribed::<F, S>(rest).push(desired.last()));
            assert(desired =~= wanted.push(desired.last()));
        }
    } else {
        assert(subscribed::<F, S>(result) =~= desired);
    }
}

/// Whether `entry` is one of `entries` and follows the pin of its position.
pub open spec fn followed_from<F: FollowedSlot, S>(
    entries: Seq<Option<(F::Pin, S)>>,
    desired: Seq<PinView>,
    entry: (F::Pin, S),
) -> bool {
    exists|i: int|
        0 <= i < entries.len() && #[trigger] entries[i] == Some(entry) && F::identity(&entry.0)
            == desired[i]
}

proof fn lemma_settlement_identities<F: FollowedSlot, S>(
    current: Seq<(F::Pin, S)>,
    desired: Seq<PinView>,
    kept: Seq<Option<(F::Pin, S)>>,
    owed: Seq<(usize, F::Pin)>,
    from: Seq<Option<int>>,
    declared: Seq<Option<S>>,
)
    requires
        claimed::<F, S>(current, desired, kept, from),
        owes::<F, S>(desired, kept, owed),
        declared.len() == owed.len(),
    ensures
        ({
            let entries = settlement(kept, owed, declared);
            &&& entries.len() == desired.len()
            &&& forall|i: int|
                0 <= i < entries.len() ==> (#[trigger] entries[i] matches Some(entry) ==> F::identity(
                    &entry.0,
                ) == desired[i])
        }),
{
    let entries = settlement(kept, owed, declared);
    assert forall|i: int| 0 <= i < entries.len() implies (#[trigger] entries[i] matches Some(entry)
        ==> F::identity(&entry.0) == desired[i]) by {
        assert(from[i] is Some || from[i] is None);
        if kept[i] is None {
            let k = owed_at(owed, i);
            assert(exists|k: int| 0 <= k < owed.len() && (#[trigger] owed[k]).0 == i);
            assert(owed[k].0 == i);
        }
    }
}

/// Convergence follows nothing but pins to follow. When the slot names every pin
/// once, no pin ever has two subscriptions; and when every owed declaration
/// succeeds, exactly the pins to follow are followed, in the slot's order.
pub proof fn law_convergence_follows_the_slot<F: FollowedSlot, S>(
    current: Seq<(F::Pin, S)>,
    desired: Seq<PinView>,
    kept: Seq<Option<(F::Pin, S)>>,
    owed: Seq<(usize, F::Pin)>,
    from: Seq<Option<int>>,
    declared: Seq<Option<S>>,
)
    requires
        claimed::<F, S>(current, desired, kept, from),
        owes::<F, S>(desired, kept, owed),
        declared.len() == owed.len(),
    ensures
        ({
            let pins = subscribed::<F, S>(present(settlement(kept, owed, declared)));
            &&& forall|k: int| 0 <= k < pins.len() ==> desired.contains(#[trigger] pins[k])
            &&& desired.no_duplicates() ==> pins.no_duplicates()
            &&& (forall|k: int| 0 <= k < declared.len() ==> (#[trigger] declared[k]) is Some) ==> pins
                == desired
        }),
{
    let entries = settlement(kept, owed, declared);
    lemma_settlement_identities::<F, S>(current, desired, kept, owed, from, declared);
    lemma_present_subscribed::<F, S>(entries, desired);
    let result = present(entries);
    let pins = subscribed::<F, S>(result);
    assert forall|k: int| 0 <= k < pins.len() implies desired.contains(#[trigger] pins[k]) by {
        assert(followed_from::<F, S>(entries, desired, result[k]));
        let i = choose|i: int|
            0 <= i < entries.len() && #[trigger] entries[i] == Some(result[k]) && F::identity(
                &result[k].0,
            ) == desired[i];
        assert(desired[i] == pins[k]);
    }
    if forall|k: int| 0 <= k < declared.len() ==> (#[trigger] declared[k]) is Some {
        assert forall|i: int| 0 <= i < entries.len() implies (#[trigger] entries[i]) is Some by {
            if kept[i] is None {
                let k = owed_at(owed, i);
                assert(exists|k: int| 0 <= k < owed.len() && (#[trigger] owed[k]).0 == i);
                assert(owed[k].0 == i);
                assert(declared[k] is Some);
            }
        }
    }
}

/// A pin that stays followed keeps the subscription it had: an unrelated change
/// of the slot never interrupts it.
pub proof fn law_convergence_keeps_followed_pins<F: FollowedSlot, S>(
    current: Seq<(F::Pin, S)>,
    desired: Seq<PinView>,
    kept: Seq<Option<(F::Pin, S)>>,
    owed: Seq<(usize, F::Pin)>,
    from: Seq<Option<int>>,
    declared: Seq<Option<S>>,
    k: int,
)
    requires
        claimed::<F, S>(current, desired, kept, from),
        owes::<F, S>(desired, kept, owed),
        declared.len() == owed.len(),
        subscribed::<F, S>(current).no_duplicates(),
        0 <= k < current.len(),
        desired.contains(F::identity(&current[k].0)),
    ensures
        present(settlement(kept, owed, declared)).contains(current[k]),
{
    let entries = settlement(kept, owed, declared);
    let pin = F::identity(&current[k].0);
    let pins = subscribed::<F, S>(current);
    let i = choose|i: int| 0 <= i < desired.len() && desired[i] == pin;
    assert(from[i] is Some || from[i] is None);
    let at: int = match from[i] {
        Some(_) => i,
        None => {
            assert(F::identity(&current[k].0) == desired[i]);
            choose|j: int| 0 <= j < i && #[trigger] from[j] == Some(k)
        },
    };
    match from[i] {
        Some(c) => {
            assert(pins[c] == pins[k]);
            assert(c == k);
        },
        None => {
            assert(used_before(from, i, k));
            assert(from[at] == Some(k));
        },
    }
    assert(entries[at] == Some(current[k]));
    lemma_present_contains(entries, at);
}

proof fn lemma_present_contains<T>(entries: Seq<Option<T>>, i: int)
    requires
        0 <= i < entries.len(),
        entries[i] is Some,
    ensures
        present(entries).contains(entries[i]->Some_0),
    decreases entries.len(),
{
    let item = entries[i]->Some_0;
    let shorter = entries.drop_last();
    let rest = present(shorter);
    if i == entries.len() - 1 {
        assert(present(entries)[rest.len() as int] == item);
    } else {
        assert(shorter[i] == entries[i]);
        lemma_present_contains(shorter, i);
        let k = choose|k: int| 0 <= k < rest.len() && rest[k] == item;
        assert(present(entries)[k] == item);
    }
}

/// Whether `message` was published by the producer of `pin` under its link id.
pub open spec fn published_by(pin: PinView, message: crate::message::MessageView) -> bool {
    &&& message.core_node == pin.producer.core_node
    &&& message.instance_id == pin.producer.instance_id
    &&& message.link_id == pin.link_id
}

/// The subscriptions of one slot and where the merge stands.
pub struct Forwarder<P, S> {
    current: Vec<(P, S)>,
    next_start: usize,
    needs_converge: bool,
}

/// The state of a [`Forwarder`].
#[verifier::ext_equal]
pub struct ForwarderView<P, S> {
    pub current: Seq<(P, S)>,
    pub next_start: nat,
    pub needs_converge: bool,
}

impl<P, S> View for Forwarder<P, S> {
    type V = ForwarderView<P, S>;

    closed spec fn view(&self) -> ForwarderView<P, S> {
        ForwarderView {
            current: self.current@,
            next_start: self.next_start as nat,
            needs_converge: self.needs_converge,
        }
    }
}

/// What a forwarder does next.
pub enum ForwardStep {
    /// The pins to follow may have moved: converge.
    Converge,
    /// Nothing is followed: wait for the slot to change.
    AwaitUpdate,
    /// Poll the subscriptions in rotated order from `start`, looking at the slot
    /// first.
    Receive { start: usize },
}

impl<P, S> Forwarder<P, S> {
    /// A forwarder that follows nothing yet.
    pub fn new() -> (forwarder: Self)
        ensures
            forwarder@ == (ForwarderView::<P, S> {
                current: Seq::empty(),
                next_start: 0,
                needs_converge: true,
            }),
    {
        Forwarder { current: Vec::new(), next_start: 0, needs_converge: true }
    }

    /// Decides the next step. Converging is set work and happens only when the
    /// followed set can have moved.
    pub fn next_step(&mut self) -> (step: ForwardStep)
        ensures
            final(self)@.current == old(self)@.current,
            final(self)@.needs_converge == old(self)@.needs_converge,
            match step {
                ForwardStep::Converge => old(self)@.needs_converge && final(self)@ == old(self)@,
                ForwardStep::AwaitUpdate => !old(self)@.needs_converge && old(self)@.current.len()
                    == 0 && final(self)@ == old(self)@,
                ForwardStep::Receive { start } => !old(self)@.needs_converge && old(
                    self,
                )@.current.len() > 0 && start == old(self)@.next_start && final(self)@.next_start
                    == topics::advanced(old(self)@.next_start),
            },
    {
        if self.needs_converge {
            return ForwardStep::Converge;
        }
        if self.current.len() == 0 {
            return ForwardStep::AwaitUpdate;
        }
        let start: usize = self.next_start;
        self.next_start = start.wrapping_add(1);
        ForwardStep::Receive { start }
    }

    /// Hands out the live subscriptions to be converged.
    pub fn take_current(&mut self) -> (current: Vec<(P, S)>)
        ensures
            current@ == old(self)@.current,
            final(self)@ == (ForwarderView { current: Seq::<(P, S)>::empty(), ..old(self)@ }),
    {
        let mut current: Vec<(P, S)> = Vec::new();
        std::mem::swap(&mut current, &mut self.current);
        current
    }

    /// Takes the converged subscriptions.
    pub fn converged(&mut self, current: Vec<(P, S)>)
        ensures
            final(self)@ == (ForwarderView {
                current: current@,
                needs_converge: false,
                ..old(self)@
            }),
    {
        self.current = current;
        self.needs_converge = false;
    }

    /// The slot changed.
    pub fn slot_changed(&mut self)
        ensures
            final(self)@ == (ForwarderView { needs_converge: true, ..old(self)@ }),
    {
        self.needs_converge = true;
    }

    /// The channel of subscription `index` closed: drops it and hands it back.
    pub fn source_closed(&mut self, index: usize) -> (gone: (P, S))
        requires
            index < old(self)@.current.len(),
        ensures
            gone == old(self)@.current[index as int],
            final(self)@ == (ForwarderView {
                current: old(self)@.current.remove(index as int),
                needs_converge: true,
                ..old(self)@
            }),
    {
        let gone = self.current.remove(index);
        self.needs_converge = true;
        gone
    }

    /// The live subscriptions.
    pub fn current(&self) -> (current: &Vec<(P, S)>)
        ensures
            current@ == self@.current,
    {
        &self.current
    }
}

/// Decides about a message that arrived under `pin`: tags it with the pin, or
/// drops it when another producer published it.
pub fn forward_message<F: FollowedSlot>(pin: &F::Pin, message: Message) -> (forwarded: Option<
    (F::Pin, Message),
>)
    ensures
        match forwarded {
            Some(tagged) => published_by(F::identity(pin), message@) && F::identity(&tagged.0)
                == F::identity(pin) && tagged.1 == message,
            None => !published_by(F::identity(pin), message@),
        },
{
    let producer: &ProducerRef = F::producer(pin);
    let matches_pin: bool = text_eq(message.core_node(), producer.core_node.as_str()) && text_eq(
        message.instance_id(),
        producer.instance_id.as_str(),
    ) && text_eq(message.link_id(), F::producer_link_id(pin));
    if matches_pin {
        Some((F::copy_pin(pin), message))
    } else {
        None
    }
}

/// What happens to a forwarder.
pub enum ForwardEvent {
    /// The slot changed.
    SlotChanged,
    /// The slot's channel closed: the runtime is torn down.
    SlotClosed,
    /// Subscription `index` delivered a message.
    Received { index: usize, message: Message },
    /// The channel of subscription `index` closed.
    SourceClosed { index: usize },
    /// Nobody reads the stream any more.
    StreamDropped,
}

/// What a forwarder makes of an event.
pub enum ForwardOutcome<P> {
    /// Go on.
    Continue,
    /// Hand this message on, tagged with the pin it arrived under, then go on.
    Deliver(P, Message),
    /// The forwarder is done.
    Ended,
}

/// Whether `event` can happen to a forwarder with `count` subscriptions.
pub open spec fn can_happen(event: ForwardEvent, count: nat) -> bool {
    match event {
        ForwardEvent::Received { index, .. } => index < count,
        ForwardEvent::SourceClosed { index } => index < count,
        _ => true,
    }
}

/// Takes what happened to a forwarder. A torn-down runtime and a dropped stream
/// end it; a closed subscription is dropped while the others go on; a message is
/// handed on only when the producer of its pin published it.
pub fn on_forward_event<F: FollowedSlot, S>(
    forwarder: &mut Forwarder<F::Pin, S>,
    event: ForwardEvent,
) -> (outcome: ForwardOutcome<F::Pin>)
    requires
        can_happen(event, old(forwarder)@.current.len()),
    ensures
        match event {
            ForwardEvent::SlotClosed | ForwardEvent::StreamDropped => {
                &&& outcome is Ended
                &&& final(forwarder)@ == old(forwarder)@
            },
            ForwardEvent::SlotChanged => outcome is Continue && final(forwarder)@ == (
            ForwarderView { needs_converge: true, ..old(forwarder)@ }),
            ForwardEvent::SourceClosed { index } => outcome is Continue && final(forwarder)@ == (
            ForwarderView {
                current: old(forwarder)@.current.remove(index as int),
                needs_converge: true,
                ..old(forwarder)@
            }),
            ForwardEvent::Received { index, message } => final(forwarder)@ == old(forwarder)@ && {
                let pin = F::identity(&old(forwarder)@.current[index as int].0);
                if published_by(pin, message@) {
                    outcome matches ForwardOutcome::Deliver(tag, delivered) && F::identity(&tag)
                        == pin && delivered == message
                } else {
                    outcome is Continue
                }
            },
        },
{
    match event {
        ForwardEvent::SlotClosed | ForwardEvent::StreamDropped => ForwardOutcome::Ended,
        ForwardEvent::SlotChanged => {
            forwarder.slot_changed();
            ForwardOutcome::Continue
        },
        ForwardEvent::SourceClosed { index } => {
            let _gone = forwarder.source_closed(index);
            ForwardOutcome::Continue
        },
        ForwardEvent::Received { index, message } => {
            match forward_message::<F>(&forwarder.current()[index].0, message) {
                Some((pin, message)) => ForwardOutcome::Deliver(pin, message),
                None => ForwardOutcome::Continue,
            }
        },
    }
}

/// Decides about a buffered message at delivery: it surfaces only while its pin
/// is still followed.
pub fn surface<F: FollowedSlot>(state: &F::State, pin: F::Pin, message: Message) -> (surfaced: Option<
    (F::Pin, Message),
>)
    ensures
        match surfaced {
            Some(tagged) => F::followed(state).contains(F::identity(&pin)) && tagged == (pin, message),
            None => !F::followed(state).contains(F::identity(&pin)),
        },
{
    if F::is_followed(state, &pin) {
        Some((pin, message))
    } else {
        None
    }
}

/// An incarnation change gives an observed member a new identity, so its
/// subscription is redeclared and what is buffered under the old one is dropped,
/// although the wire address stays the same.
pub proof fn law_generation_tells_incarnations_apart(
    state: ObservationState,
    pin: ObservedPin,
)
    requires
        forall|i: int|
            0 <= i < state.members@.len() ==> (#[trigger] state.members@[i]).source_generation
                != ObservedFollow::identity(&pin).generation,
    ensures
        !ObservedFollow::followed(&state).contains(ObservedFollow::identity(&pin)),
{
    if ObservedFollow::followed(&state).contains(ObservedFollow::identity(&pin)) {
        let i = choose|i: int|
            0 <= i < state.members@.len() && ObservedFollow::followed(&state)[i]
                == ObservedFollow::identity(&pin);
        assert(state.members@[i].source_generation == ObservedFollow::identity(&pin).generation);
    }
}

/// A pairing slot follows every peer it holds and nobody else: one pin per pair, in
/// the slot's order, at the peer's address and under the peer's own slot. So whether
/// a peer is followed and whether the slot holds it are one question.
pub proof fn law_every_peer_is_followed(state: PeerSetState, peer: PeerInfo)
    ensures
        PeerFollow::followed(&state).len() == state.members@.len(),
        forall|i: int|
            0 <= i < state.members@.len() ==> {
                let pin = #[trigger] PeerFollow::followed(&state)[i];
                let info = state.members@[i].info;
                &&& pin.producer.core_node == info.producer.core_node@
                &&& pin.producer.instance_id == info.producer.instance_id@
                &&& pin.link_id == info.peer_link_id@
            },
        PeerFollow::followed(&state).contains(PeerFollow::identity(&peer)) <==> exists|i: int|
            0 <= i < state.members@.len() && (#[trigger] state.members@[i]).info.producer.core_node@
                == peer.producer.core_node@ && state.members@[i].info.producer.instance_id@
                == peer.producer.instance_id@ && state.members@[i].info.peer_link_id@
                == peer.peer_link_id@,
        PeerFollow::followed(&state).contains(PeerFollow::identity(&peer))
            <==> crate::pairing::member_peers(state.members@).contains(peer@),
{
    let pins = PeerFollow::followed(&state);
    let peers = crate::pairing::member_peers(state.members@);
    if pins.contains(PeerFollow::identity(&peer)) {
        let i = choose|i: int| 0 <= i < pins.len() && pins[i] == PeerFollow::identity(&peer);
        assert(state.members@[i].info@.producer == peer@.producer);
        assert(peers[i] == peer@);
    }
    if exists|i: int|
        0 <= i < state.members@.len() && (#[trigger] state.members@[i]).info.producer.core_node@
            == peer.producer.core_node@ && state.members@[i].info.producer.instance_id@
            == peer.producer.instance_id@ && state.members@[i].info.peer_link_id@
            == peer.peer_link_id@ {
        let i = choose|i: int|
            0 <= i < state.members@.len() && (#[trigger] state.members@[i]).info.producer.core_node@
                == peer.producer.core_node@ && state.members@[i].info.producer.instance_id@
                == peer.producer.instance_id@ && state.members@[i].info.peer_link_id@
                == peer.peer_link_id@;
        assert(pins[i] == PeerFollow::identity(&peer));
    }
    if peers.contains(peer@) {
        let i = choose|i: int| 0 <= i < peers.len() && peers[i] == peer@;
        assert(pins[i] == PeerFollow::identity(&peer));
    }
}

/// An observer slot follows every source it observes and nothing else: one pin per
/// member, in the slot's order, at the source's address, under the source's own slot
/// and in the member's generation. Whether the source is live makes no difference.
pub proof fn law_every_source_is_followed(state: ObservationState, pin: PinView)
    ensures
        ObservedFollow::followed(&state).len() == state.members@.len(),
        forall|i: int|
            0 <= i < state.members@.len() ==> {
                let followed = #[trigger] ObservedFollow::followed(&state)[i];
                let member = state.members@[i];
                &&& followed.producer.core_node == member.source.producer.core_node@
                &&& followed.producer.instance_id == member.source.producer.instance_id@
                &&& followed.link_id == member.source.source_link_id@
                &&& followed.generation == member.source_generation
            },
        ObservedFollow::followed(&state).contains(pin) <==> exists|i: int|
            0 <= i < state.members@.len() && (#[trigger] state.members@[i]).source_generation
                == pin.generation && state.members@[i].source.producer.core_node@
                == pin.producer.core_node && state.members@[i].source.producer.instance_id@
                == pin.producer.instance_id && state.members@[i].source.source_link_id@
                == pin.link_id,
{
    let pins = ObservedFollow::followed(&state);
    if pins.contains(pin) {
        let i = choose|i: int| 0 <= i < pins.len() && pins[i] == pin;
        assert(state.members@[i].source@.producer == pin.producer);
    }
    if exists|i: int|
        0 <= i < state.members@.len() && (#[trigger] state.members@[i]).source_generation
            == pin.generation && state.members@[i].source.producer.core_node@
            == pin.producer.core_node && state.members@[i].source.producer.instance_id@
            == pin.producer.instance_id && state.members@[i].source.source_link_id@ == pin.link_id {
        let i = choose|i: int|
            0 <= i < state.members@.len() && (#[trigger] state.members@[i]).source_generation
                == pin.generation && state.members@[i].source.producer.core_node@
                == pin.producer.core_node && state.members@[i].source.producer.instance_id@
                == pin.producer.instance_id && state.members@[i].source.source_link_id@
                == pin.link_id;
        assert(pins[i] == pin);
    }
}

/// Two peers are the same pin exactly when they agree on the publisher and its slot.
pub proof fn law_peers_are_told_apart(peer: PeerInfo, other: PeerInfo)
    ensures
        PeerFollow::identity(&peer) == PeerFollow::identity(&other) <==> peer.producer.core_node@
            == other.producer.core_node@ && peer.producer.instance_id@ == other.producer.instance_id@
            && peer.peer_link_id@ == other.peer_link_id@,
{
}

/// Each declaration counts for itself: a pin whose declaration succeeded is
/// subscribed to, whatever became of the others, and what is subscribed to in the
/// end was kept or has just been declared.
pub proof fn law_each_declaration_counts_for_itself<P, S>(
    kept: Seq<Option<(P, S)>>,
    owed: Seq<(usize, P)>,
    declared: Seq<Option<S>>,
    k: int,
)
    requires
        lists_missing(kept, owed),
        declared.len() == owed.len(),
        0 <= k < owed.len(),
    ensures
        declared[k] matches Some(subscription) ==> present(settlement(kept, owed, declared)).contains(
            (owed[k].1, subscription),
        ),
        forall|n: int|
            0 <= n < present(settlement(kept, owed, declared)).len() ==> kept.contains(
                Some(#[trigger] present(settlement(kept, owed, declared))[n]),
            ) || exists|l: int|
                0 <= l < owed.len() && #[trigger] declared[l] == Some(
                    present(settlement(kept, owed, declared))[n].1,
                ) && owed[l].1 == present(settlement(kept, owed, declared))[n].0,
{
    let entries = settlement(kept, owed, declared);
    let i = owed[k].0 as int;
    let found = owed_at(owed, i);
    assert(owed[k].0 == i);
    assert(0 <= found < owed.len() && owed[found].0 == i);
    assert(found == k) by {
        if found < k {
            assert(owed[found].0 < owed[k].0);
        } else if k < found {
            assert(owed[k].0 < owed[found].0);
        }
    }
    if declared[k] is Some {
        lemma_present_contains(entries, i);
    }
    let result = present(entries);
    assert forall|n: int| 0 <= n < result.len() implies kept.contains(Some(#[trigger] result[n]))
        || exists|l: int|
        0 <= l < owed.len() && #[trigger] declared[l] == Some(result[n].1) && owed[l].1 == result[n].0 by {
        let at = lemma_present_from(entries, n);
        if kept[at] is Some {
            assert(kept[at] == Some(result[n]));
        } else {
            let l = owed_at(owed, at);
            assert(exists|l: int| 0 <= l < owed.len() && (#[trigger] owed[l]).0 == at);
            assert(declared[l] == Some(result[n].1));
        }
    }
}

proof fn lemma_present_from<T>(entries: Seq<Option<T>>, n: int) -> (at: int)
    requires
        0 <= n < present(entries).len(),
    ensures
        0 <= at < entries.len(),
        entries[at] == Some(present(entries)[n]),
    decreases entries.len(),
{
    let rest = present(entries.drop_last());
    if n < rest.len() {
        lemma_present_from(entries.drop_last(), n)
    } else {
        entries.len() - 1
    }
}

/// A message belongs to a pin exactly when it comes from the pin's publisher, by
/// core node and instance, and under the pin's slot.
pub proof fn law_message_belongs_to_its_publisher(pin: PinView, message: crate::message::MessageView)
    ensures
        published_by(pin, message) <==> (message.core_node, message.instance_id, message.link_id) == (
            pin.producer.core_node,
            pin.producer.instance_id,
            pin.link_id,
        ),
{
}

/// A message, or the end of a channel, comes from one of the current subscriptions.
pub proof fn law_events_come_from_current_subscriptions(event: ForwardEvent, count: nat)
    ensures
        can_happen(event, count) <==> match event {
            ForwardEvent::Received { index, .. } => index < count,
            ForwardEvent::SourceClosed { index } => index < count,
            ForwardEvent::SlotChanged => true,
            ForwardEvent::SlotClosed => true,
            ForwardEvent::StreamDropped => true,
        },
{
}

/// The pins of a list, and those of the current subscriptions, are those of its
/// entries, in their order.
pub proof fn law_pins_are_listed_in_order<F: FollowedSlot, S>(
    pins: Seq<F::Pin>,
    current: Seq<(F::Pin, S)>,
)
    ensures
        identities::<F>(pins).len() == pins.len(),
        forall|i: int|
            0 <= i < pins.len() ==> #[trigger] identities::<F>(pins)[i] == F::identity(&pins[i]),
        subscribed::<F, S>(current).len() == current.len(),
        forall|i: int|
            0 <= i < current.len() ==> #[trigger] subscribed::<F, S>(current)[i] == F::identity(
                &current[i].0,
            ),
{
}

} // verus!
