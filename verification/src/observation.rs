//! Observer slots: what a slot observes, and how its handles read it.
use crate::cardinality::Cardinality;
use crate::producer::{ProducerRef, ProducerView};
use crate::text::text_eq;
use vstd::prelude::*;

verus! {

/// One observed source: the observed instance's address and the producer-side
/// link id of the pairing slot that is observed. Together they are the member's
/// identity, so members that share one instance stay distinct.
#[derive(Debug, PartialEq, Eq, PartialOrd, Ord, Hash)]
pub struct ObservedSource {
    pub producer: ProducerRef,
    pub source_link_id: String,
}

/// The view of an [`ObservedSource`].
pub struct SourceView {
    pub producer: ProducerView,
    pub source_link_id: Seq<char>,
}

impl View for ObservedSource {
    type V = SourceView;

    open spec fn view(&self) -> SourceView {
        SourceView { producer: self.producer@, source_link_id: self.source_link_id@ }
    }
}

impl Clone for ObservedSource {
    fn clone(&self) -> (copy: Self)
        ensures
            copy@ == self@,
    {
        ObservedSource {
            producer: self.producer.clone(),
            source_link_id: self.source_link_id.clone(),
        }
    }
}

impl ObservedSource {
    /// Whether both are the same source.
    pub fn same_as(&self, other: &Self) -> (same: bool)
        ensures
            same == (self@ == other@),
    {
        self.producer.same_as(&other.producer) && text_eq(
            self.source_link_id.as_str(),
            other.source_link_id.as_str(),
        )
    }
}

/// The views of a sequence of sources.
pub open spec fn source_views(sources: Seq<ObservedSource>) -> Seq<SourceView> {
    sources.map_values(|source: ObservedSource| source@)
}

/// The observed sources of a `one_or_more` slot: an ordered set that is never
/// empty.
#[derive(Debug, PartialEq, Eq)]
pub struct NonEmptyObservedSources {
    sources: Vec<ObservedSource>,
}

impl View for NonEmptyObservedSources {
    type V = Seq<SourceView>;

    closed spec fn view(&self) -> Seq<SourceView> {
        source_views(self.sources@)
    }
}

impl NonEmptyObservedSources {
    #[verifier::type_invariant]
    spec fn non_empty(self) -> bool {
        self.sources@.len() > 0
    }

    /// Wraps `sources`, or `None` when there are none.
    pub fn new(sources: Vec<ObservedSource>) -> (set: Option<Self>)
        ensures
            match set {
                Some(set) => sources@.len() > 0 && set@ == source_views(sources@),
                None => sources@.len() == 0,
            },
    {
        if sources.len() == 0 {
            return None;
        }
        Some(NonEmptyObservedSources { sources })
    }

    /// The first member in plan order.
    pub fn first(&self) -> (first: &ObservedSource)
        ensures
            self@.len() > 0,
            first@ == self@[0],
    {
        proof {
            use_type_invariant(self);
        }
        &self.sources[0]
    }

    /// Iterates the members in plan order.
    pub fn iter(&self) -> (members: std::slice::Iter<'_, ObservedSource>)
        ensures
            source_views(vstd::std_specs::iter::IteratorSpec::remaining(&members).unref()) == self@,
    {
        self.sources.as_slice().iter()
    }

    /// The number of members, at least one.
    pub fn len(&self) -> (count: usize)
        ensures
            count == self@.len(),
            count >= 1,
    {
        proof {
            use_type_invariant(self);
        }
        self.sources.len()
    }

    /// The members in plan order.
    pub fn as_slice(&self) -> (members: &[ObservedSource])
        ensures
            source_views(members@) == self@,
    {
        self.sources.as_slice()
    }

    /// The members in plan order, handed on.
    pub fn into_vec(self) -> (members: Vec<ObservedSource>)
        ensures
            source_views(members@) == self@,
            members@.len() > 0,
    {
        proof {
            use_type_invariant(&self);
        }
        self.sources
    }
}

impl IntoIterator for NonEmptyObservedSources {
    type Item = ObservedSource;

    type IntoIter = std::vec::IntoIter<ObservedSource>;

    fn into_iter(self) -> (members: std::vec::IntoIter<ObservedSource>)
        ensures
            source_views(vstd::std_specs::iter::IteratorSpec::remaining(&members)) == self@,
    {
        self.sources.into_iter()
    }
}

impl<'a> IntoIterator for &'a NonEmptyObservedSources {
    type Item = &'a ObservedSource;

    type IntoIter = std::slice::Iter<'a, ObservedSource>;

    fn into_iter(self) -> (members: std::slice::Iter<'a, ObservedSource>)
        ensures
            source_views(vstd::std_specs::iter::IteratorSpec::remaining(&members).unref()) == self@,
    {
        self.sources.as_slice().iter()
    }
}

/// One member of an observer slot's set. The generation counts the source's
/// incarnations and is the only thing that tells the messages of two
/// incarnations apart; a member whose source is down stays listed.
#[derive(Debug, PartialEq, Eq)]
pub struct ObservedMemberState {
    pub source: ObservedSource,
    pub source_generation: u64,
    pub source_live: bool,
}

/// The view of an [`ObservedMemberState`].
pub struct MemberView {
    pub source: SourceView,
    pub source_generation: nat,
    pub source_live: bool,
}

impl View for ObservedMemberState {
    type V = MemberView;

    open spec fn view(&self) -> MemberView {
        MemberView {
            source: self.source@,
            source_generation: self.source_generation as nat,
            source_live: self.source_live,
        }
    }
}

impl Clone for ObservedMemberState {
    fn clone(&self) -> (copy: Self)
        ensures
            copy@ == self@,
    {
        ObservedMemberState {
            source: self.source.clone(),
            source_generation: self.source_generation,
            source_live: self.source_live,
        }
    }
}

/// The views of a sequence of members.
pub open spec fn member_views(members: Seq<ObservedMemberState>) -> Seq<MemberView> {
    members.map_values(|member: ObservedMemberState| member@)
}

/// The sources of a sequence of members.
pub open spec fn member_sources(members: Seq<ObservedMemberState>) -> Seq<SourceView> {
    members.map_values(|member: ObservedMemberState| member.source@)
}

/// What becomes of a delivery to a slot.
#[derive(Debug, Clone, Copy, PartialEq, Eq, Structural)]
pub enum DeliveryOutcome {
    /// The delivery is newer: the slot now holds it.
    Replaced,
    /// The delivery repeats the current one.
    Repeated,
    /// The delivery is older than what the slot holds.
    Stale,
}

/// What becomes of a delivery with sequence `delivered` to a slot that holds
/// sequence `held`.
pub open spec fn delivery_outcome(held: nat, delivered: nat) -> DeliveryOutcome {
    if delivered > held {
        DeliveryOutcome::Replaced
    } else if delivered == held {
        DeliveryOutcome::Repeated
    } else {
        DeliveryOutcome::Stale
    }
}

/// The sequence a slot holds after it was given `deliveries`, in that order.
pub open spec fn sequence_after(held: nat, deliveries: Seq<nat>) -> nat
    decreases deliveries.len(),
{
    if deliveries.len() == 0 {
        held
    } else {
        let before = sequence_after(held, deliveries.drop_last());
        if delivery_outcome(before, deliveries.last()) == DeliveryOutcome::Replaced {
            deliveries.last()
        } else {
            before
        }
    }
}

/// No series of deliveries, however delayed or repeated, rolls a slot back: it
/// ends at the newest one it was given.
pub proof fn law_slot_never_rolls_back(held: nat, deliveries: Seq<nat>)
    ensures
        sequence_after(held, deliveries) >= held,
        forall|i: int|
            0 <= i < deliveries.len() ==> sequence_after(held, deliveries) >= #[trigger] deliveries[i],
        sequence_after(held, deliveries) == held || deliveries.contains(
            sequence_after(held, deliveries),
        ),
    decreases deliveries.len(),
{
    if deliveries.len() > 0 {
        let shorter = deliveries.drop_last();
        law_slot_never_rolls_back(held, shorter);
        let after = sequence_after(held, deliveries);
        assert forall|i: int| 0 <= i < deliveries.len() implies after >= #[trigger] deliveries[i] by {
            if i < shorter.len() {
                assert(shorter[i] == deliveries[i]);
            }
        }
        if after != held {
            if after == deliveries.last() {
                assert(deliveries[deliveries.len() - 1] == after);
            } else {
                let k = choose|k: int| 0 <= k < shorter.len() && shorter[k] == after;
                assert(deliveries[k] == after);
            }
        }
    }
}

/// The state of one observer slot as delivered: its complete member set in plan
/// order, and the sequence number that orders deliveries.
#[derive(Debug, PartialEq, Eq)]
pub struct ObservationState {
    pub sequence: u64,
    pub members: Vec<ObservedMemberState>,
}

/// The view of an [`ObservationState`].
pub struct ObservationView {
    pub sequence: nat,
    pub members: Seq<MemberView>,
}

impl View for ObservationState {
    type V = ObservationView;

    open spec fn view(&self) -> ObservationView {
        ObservationView { sequence: self.sequence as nat, members: member_views(self.members@) }
    }
}

impl ObservationState {
    /// The empty state at sequence zero.
    pub fn unregistered() -> (state: Self)
        ensures
            state.sequence == 0,
            state.members@ == Seq::<ObservedMemberState>::empty(),
    {
        ObservationState { sequence: 0, members: Vec::new() }
    }

    /// A slot's boot state: the plan's members at sequence zero.
    pub fn seeded(members: Vec<ObservedMemberState>) -> (state: Self)
        ensures
            state.sequence == 0,
            state.members@ == members@,
    {
        ObservationState { sequence: 0, members }
    }

    /// Takes a delivery. A newer one replaces the whole state. One with the same
    /// sequence is a retry and changes nothing, and an older one is refused, so a
    /// delayed delivery never rolls the slot back.
    pub fn deliver(&mut self, delivery: ObservationState) -> (outcome: DeliveryOutcome)
        ensures
            outcome == delivery_outcome(old(self).sequence as nat, delivery.sequence as nat),
            *final(self) == (if outcome == DeliveryOutcome::Replaced {
                delivery
            } else {
                *old(self)
            }),
    {
        if delivery.sequence < self.sequence {
            return DeliveryOutcome::Stale;
        }
        if delivery.sequence == self.sequence {
            return DeliveryOutcome::Repeated;
        }
        self.sequence = delivery.sequence;
        self.members = delivery.members;
        DeliveryOutcome::Replaced
    }

    /// The observed sources in plan order.
    pub fn sources(&self) -> (sources: Vec<ObservedSource>)
        ensures
            source_views(sources@) == member_sources(self.members@),
    {
        let mut sources: Vec<ObservedSource> = Vec::new();
        let mut i: usize = 0;
        while i < self.members.len()
            invariant
                i <= self.members@.len(),
                sources@.len() == i,
                forall|j: int|
                    0 <= j < i ==> (#[trigger] sources@[j])@ == self.members@[j].source@,
            decreases self.members@.len() - i,
        {
            sources.push(self.members[i].source.clone());
            i = i + 1;
        }
        proof {
            assert(source_views(sources@) =~= member_sources(self.members@));
        }
        sources
    }
}

/// The message with which a slot read through an accessor that does not fit its
/// shape is reported: the generated code and the manifest disagree.
pub open spec fn observer_shape_text(
    link_id: Seq<char>,
    accessor: Seq<char>,
    declared: Seq<char>,
) -> Seq<char> {
    "observer slot `"@ + link_id + "` is declared `"@ + declared + "` but was read through `"@ + accessor
        + "`: the generated code and the manifest disagree (version skew / stale codegen); regenerate bindings for this node"@
}

/// The message with which a slot that has to observe something but observes
/// nothing is reported.
pub open spec fn observer_empty_text(link_id: Seq<char>, declared: Seq<char>) -> Seq<char> {
    "observer slot `"@ + link_id + "` is declared `"@ + declared
        + "` but observes nothing: the plan sizes this slot and node startup re-checks its seed, so an empty set means the daemon and the generated code disagree (version skew / stale codegen); regenerate bindings for this node"@
}

/// Reports a slot read through an accessor that does not fit its shape.
pub fn observer_shape_message(link_id: &str, accessor: &str, declared: &str) -> (message: String)
    ensures
        message@ == observer_shape_text(link_id@, accessor@, declared@),
{
    let mut message = "observer slot `".to_owned();
    message.append(link_id);
    message.append("` is declared `");
    message.append(declared);
    message.append("` but was read through `");
    message.append(accessor);
    message.append(
        "`: the generated code and the manifest disagree (version skew / stale codegen); regenerate bindings for this node",
    );
    message
}

/// Reports a slot that has to observe something but observes nothing.
pub fn observer_empty_message(link_id: &str, declared: &str) -> (message: String)
    ensures
        message@ == observer_empty_text(link_id@, declared@),
{
    let mut message = "observer slot `".to_owned();
    message.append(link_id);
    message.append("` is declared `");
    message.append(declared);
    message.append(
        "` but observes nothing: the plan sizes this slot and node startup re-checks its seed, so an empty set means the daemon and the generated code disagree (version skew / stale codegen); regenerate bindings for this node",
    );
    message
}

/// A scalar observer slot: `one` or `zero_or_one`.
pub struct ObservationSlot {
    link_id: String,
    cardinality: Cardinality,
}

impl ObservationSlot {
    /// The slot's link id.
    pub closed spec fn spec_link_id(&self) -> Seq<char> {
        self.link_id@
    }

    /// The slot's declared cardinality.
    pub closed spec fn spec_cardinality(&self) -> Cardinality {
        self.cardinality
    }

    /// The handle of the slot at `link_id`.
    pub fn new(link_id: &str, cardinality: Cardinality) -> (slot: Self)
        ensures
            slot.spec_link_id() == link_id@,
            slot.spec_cardinality() == cardinality,
    {
        ObservationSlot { link_id: link_id.to_owned(), cardinality }
    }

    /// The observed source, or `None` where the deployment left the slot vacant.
    /// A scalar slot holds at most one member.
    pub fn source(&self, state: &ObservationState) -> (source: Option<ObservedSource>)
        requires
            state.members@.len() <= 1,
        ensures
            match source {
                Some(source) => member_sources(state.members@) == seq![source@],
                None => state.members@.len() == 0,
            },
    {
        if state.members.len() == 0 {
            None
        } else {
            let source = state.members[0].source.clone();
            proof {
                assert(member_sources(state.members@) =~= seq![source@]);
            }
            Some(source)
        }
    }

    /// The sole source of a `one` slot.
    pub fn sole_source(&self, state: &ObservationState) -> (source: ObservedSource)
        requires
            state.members@.len() == 1,
        ensures
            member_sources(state.members@) == seq![source@],
    {
        let source = state.members[0].source.clone();
        proof {
            assert(member_sources(state.members@) =~= seq![source@]);
        }
        source
    }

    /// Reads the slot whatever its state: the source, or the message that reports
    /// a state no scalar slot can have.
    pub fn read(&self, state: &ObservationState) -> (read: std::result::Result<
        Option<ObservedSource>,
        String,
    >)
        ensures
            match read {
                Ok(Some(source)) => member_sources(state.members@) == seq![source@],
                Ok(None) => state.members@.len() == 0,
                Err(message) => state.members@.len() > 1 && message@ == observer_shape_text(
                    self.spec_link_id(),
                    "source()"@,
                    self.spec_cardinality().spelling(),
                ),
            },
    {
        if state.members.len() > 1 {
            return Err(
                observer_shape_message(
                    self.link_id.as_str(),
                    "source()",
                    self.cardinality.as_str(),
                ),
            );
        }
        Ok(self.source(state))
    }

    /// Reads a `one` slot whatever its state: the sole source, or the message
    /// that reports a state no `one` slot can have.
    pub fn read_sole(&self, state: &ObservationState) -> (read: std::result::Result<
        ObservedSource,
        String,
    >)
        ensures
            match read {
                Ok(source) => member_sources(state.members@) == seq![source@],
                Err(message) => if state.members@.len() == 0 {
                    message@ == observer_empty_text(
                        self.spec_link_id(),
                        self.spec_cardinality().spelling(),
                    )
                } else {
                    state.members@.len() > 1 && message@ == observer_shape_text(
                        self.spec_link_id(),
                        "source()"@,
                        self.spec_cardinality().spelling(),
                    )
                },
            },
    {
        match self.read(state) {
            Err(message) => Err(message),
            Ok(Some(source)) => Ok(source),
            Ok(None) => Err(
                observer_empty_message(self.link_id.as_str(), self.cardinality.as_str()),
            ),
        }
    }
}

/// A multi-member observer slot: `one_or_more` or `zero_or_more`.
pub struct ObservationSlotSet {
    link_id: String,
    cardinality: Cardinality,
}

impl ObservationSlotSet {
    /// The slot's link id.
    pub closed spec fn spec_link_id(&self) -> Seq<char> {
        self.link_id@
    }

    /// The slot's declared cardinality.
    pub closed spec fn spec_cardinality(&self) -> Cardinality {
        self.cardinality
    }

    /// The handle of the slot at `link_id`.
    pub fn new(link_id: &str, cardinality: Cardinality) -> (slot: Self)
        ensures
            slot.spec_link_id() == link_id@,
            slot.spec_cardinality() == cardinality,
    {
        ObservationSlotSet { link_id: link_id.to_owned(), cardinality }
    }

    /// Every source the slot observes, in plan order.
    pub fn sources(&self, state: &ObservationState) -> (sources: Vec<ObservedSource>)
        ensures
            source_views(sources@) == member_sources(state.members@),
    {
        state.sources()
    }

    /// Every source a `one_or_more` slot observes, in plan order, or the message
    /// that reports that there is none.
    pub fn non_empty_sources(&self, state: &ObservationState) -> (read: std::result::Result<
        NonEmptyObservedSources,
        String,
    >)
        ensures
            match read {
                Ok(sources) => sources@ == member_sources(state.members@) && sources@.len() > 0,
                Err(message) => state.members@.len() == 0 && message@ == observer_empty_text(
                    self.spec_link_id(),
                    self.spec_cardinality().spelling(),
                ),
            },
    {
        let sources = state.sources();
        proof {
            assert(source_views(sources@).len() == member_sources(state.members@).len());
        }
        match NonEmptyObservedSources::new(sources) {
            Some(set) => Ok(set),
            None => Err(
                observer_empty_message(self.link_id.as_str(), self.cardinality.as_str()),
            ),
        }
    }
}

/// A delivery replaces what a slot holds exactly when its sequence is the higher one;
/// one with the same sequence repeats it, and one with a lower sequence is stale.
pub proof fn law_newest_delivery_wins(held: nat, delivered: nat)
    ensures
        delivery_outcome(held, delivered) == DeliveryOutcome::Replaced <==> held < delivered,
        delivery_outcome(held, delivered) == DeliveryOutcome::Repeated <==> held == delivered,
        delivery_outcome(held, delivered) == DeliveryOutcome::Stale <==> delivered < held,
{
}

/// What is read of an observer slot is what it observes: one entry per member, in the
/// slot's order, each with its source's address, the source's own slot, the member's
/// generation and whether the source is live.
pub proof fn law_members_are_read_as_held(state: ObservationState)
    ensures
        member_views(state.members@).len() == state.members@.len(),
        member_sources(state.members@).len() == state.members@.len(),
        state@.sequence == state.sequence,
        state@.members == member_views(state.members@),
        forall|i: int|
            0 <= i < state.members@.len() ==> {
                let held = #[trigger] state.members@[i];
                let source = member_sources(state.members@)[i];
                let member = member_views(state.members@)[i];
                &&& source.producer.core_node == held.source.producer.core_node@
                &&& source.producer.instance_id == held.source.producer.instance_id@
                &&& source.source_link_id == held.source.source_link_id@
                &&& member.source == source
                &&& member.source_generation == held.source_generation
                &&& member.source_live == held.source_live
            },
{
}

/// The sources of a list are its entries, in their order.
pub proof fn law_sources_are_listed_in_order(sources: Seq<ObservedSource>)
    ensures
        source_views(sources).len() == sources.len(),
        forall|i: int|
            0 <= i < sources.len() ==> (#[trigger] source_views(sources)[i]).producer.core_node
                == sources[i].producer.core_node@ && source_views(sources)[i].producer.instance_id
                == sources[i].producer.instance_id@ && source_views(sources)[i].source_link_id
                == sources[i].source_link_id@,
{
}

/// What is said of an observer slot that is read wrongly: which slot it is, what it is
/// declared as, and how it was read.
pub proof fn law_misread_observer_slots_are_named(
    link_id: Seq<char>,
    accessor: Seq<char>,
    declared: Seq<char>,
)
    ensures
        observer_shape_text(link_id, accessor, declared) == "observer slot `"@ + link_id
            + "` is declared `"@ + declared + "` but was read through `"@ + accessor
            + "`: the generated code and the manifest disagree (version skew / stale codegen); regenerate bindings for this node"@,
        observer_empty_text(link_id, declared) == "observer slot `"@ + link_id + "` is declared `"@
            + declared
            + "` but observes nothing: the plan sizes this slot and node startup re-checks its seed, so an empty set means the daemon and the generated code disagree (version skew / stale codegen); regenerate bindings for this node"@,
{
}

} // verus!
