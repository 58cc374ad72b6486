//! Pairing slots: the peers a slot holds, how its handles read them, and which
//! peer a publish may go to.
use crate::cardinality::Cardinality;
use crate::error::{Error, ErrorView, Result};
use crate::observation;
use crate::observation::DeliveryOutcome;
use crate::producer::{ProducerRef, ProducerView};
use crate::text::text_eq;
use vstd::prelude::*;

verus! {

/// One peer paired on a slot: the peer's address and the link id of the peer's
/// own complementary slot.
#[derive(Debug, PartialEq, Eq, PartialOrd, Ord, Hash)]
pub struct PeerInfo {
    pub producer: ProducerRef,
    pub peer_link_id: String,
}

/// The view of a [`PeerInfo`].
pub struct PeerView {
    pub producer: ProducerView,
    pub peer_link_id: Seq<char>,
}

impl View for PeerInfo {
    type V = PeerView;

    open spec fn view(&self) -> PeerView {
        PeerView { producer: self.producer@, peer_link_id: self.peer_link_id@ }
    }
}

impl Clone for PeerInfo {
    fn clone(&self) -> (copy: Self)
        ensures
            copy@ == self@,
    {
        PeerInfo { producer: self.producer.clone(), peer_link_id: self.peer_link_id.clone() }
    }
}

impl PeerInfo {
    /// Whether both are the same peer.
    pub fn same_as(&self, other: &Self) -> (same: bool)
        ensures
            same == (self@ == other@),
    {
        self.producer.same_as(&other.producer) && text_eq(
            self.peer_link_id.as_str(),
            other.peer_link_id.as_str(),
        )
    }
}

/// The views of a sequence of peers.
pub open spec fn peer_views(peers: Seq<PeerInfo>) -> Seq<PeerView> {
    peers.map_values(|peer: PeerInfo| peer@)
}

/// One pair a slot holds: the peer, and the copy the peer's instance belongs to
/// (none for an instance that runs outside a copy).
#[derive(Debug, PartialEq, Eq, Hash)]
pub struct PeerMember {
    pub info: PeerInfo,
    pub copy: Option<String>,
}

/// The view of a [`PeerMember`].
pub struct PeerMemberView {
    pub info: PeerView,
    pub copy: Option<Seq<char>>,
}

impl View for PeerMember {
    type V = PeerMemberView;

    open spec fn view(&self) -> PeerMemberView {
        PeerMemberView { info: self.info@, copy: crate::error::optional_text(self.copy) }
    }
}

impl Clone for PeerMember {
    fn clone(&self) -> (copy: Self)
        ensures
            copy@ == self@,
    {
        let copy: Option<String> = match &self.copy {
            Some(name) => Some(name.clone()),
            None => None,
        };
        PeerMember { info: self.info.clone(), copy }
    }
}

/// The peers of a sequence of pairs.
pub open spec fn member_peers(members: Seq<PeerMember>) -> Seq<PeerView> {
    members.map_values(|member: PeerMember| member.info@)
}

/// The views of a sequence of pairs.
pub open spec fn peer_member_views(members: Seq<PeerMember>) -> Seq<PeerMemberView> {
    members.map_values(|member: PeerMember| member@)
}

/// The state of one pairing slot as delivered: every pair it holds in
/// establishment order, and the sequence number that orders deliveries.
#[derive(Debug, PartialEq, Eq)]
pub struct PeerSetState {
    pub sequence: u64,
    pub members: Vec<PeerMember>,
}

/// The view of a [`PeerSetState`].
pub struct PeerSetView {
    pub sequence: nat,
    pub members: Seq<PeerMemberView>,
}

impl View for PeerSetState {
    type V = PeerSetView;

    open spec fn view(&self) -> PeerSetView {
        PeerSetView { sequence: self.sequence as nat, members: peer_member_views(self.members@) }
    }
}

impl PeerSetState {
    /// A slot's boot state: the pairs it starts with, at sequence zero.
    pub fn seeded(members: Vec<PeerMember>) -> (state: Self)
        ensures
            state.sequence == 0,
            state.members@ == members@,
    {
        PeerSetState { sequence: 0, members }
    }

    /// The boot state of a slot with no pair yet.
    pub fn empty() -> (state: Self)
        ensures
            state.sequence == 0,
            state.members@ == Seq::<PeerMember>::empty(),
    {
        Self::seeded(Vec::new())
    }

    /// Takes a delivery, on the same terms as an observer slot does.
    pub fn deliver(&mut self, delivery: PeerSetState) -> (outcome: DeliveryOutcome)
        ensures
            outcome == observation::delivery_outcome(
                old(self).sequence as nat,
                delivery.sequence as nat,
            ),
            *final(self) == (if outcome == DeliveryOutcome::Replaced {
                delivery
            } else {
                *old(self)
            }),
    {
        if delivery.sequence < self.sequence {
            return DeliveryOutcome::Stale;
        }
        if delivery.sequence == self.sequence {
            return DeliveryOutcome::Repeated;
        }
        self.sequence = delivery.sequence;
        self.members = delivery.members;
        DeliveryOutcome::Replaced
    }

    /// The peers the slot holds, in establishment order.
    pub fn peers(&self) -> (peers: Vec<PeerInfo>)
        ensures
            peer_views(peers@) == member_peers(self.members@),
    {
        let mut peers: Vec<PeerInfo> = Vec::new();
        let mut i: usize = 0;
        while i < self.members.len()
            invariant
                i <= self.members@.len(),
                peers@.len() == i,
                forall|j: int| 0 <= j < i ==> (#[trigger] peers@[j])@ == self.members@[j].info@,
            decreases self.members@.len() - i,
        {
            peers.push(self.members[i].info.clone());
            i = i + 1;
        }
        proof {
            assert(peer_views(peers@) =~= member_peers(self.members@));
        }
        peers
    }

    /// Whether the slot holds `peer`.
    pub fn holds(&self, peer: &PeerInfo) -> (held: bool)
        ensures
            held == member_peers(self.members@).contains(peer@),
    {
        let mut i: usize = 0;
        while i < self.members.len()
            invariant
                i <= self.members@.len(),
                forall|j: int| 0 <= j < i ==> (#[trigger] self.members@[j]).info@ != peer@,
            decreases self.members@.len() - i,
        {
            if self.members[i].info.same_as(peer) {
                proof {
                    assert(member_peers(self.members@)[i as int] == peer@);
                }
                return true;
            }
            i = i + 1;
        }
        proof {
            if member_peers(self.members@).contains(peer@) {
                let j = choose|j: int|
                    0 <= j < self.members@.len() && member_peers(self.members@)[j] == peer@;
                assert(self.members@[j].info@ == peer@);
            }
        }
        false
    }
}

/// The message with which a pairing slot read through an accessor its
/// cardinality does not fit is reported.
pub open spec fn pairing_shape_text(
    link_id: Seq<char>,
    accessor: Seq<char>,
    cardinality: Seq<char>,
) -> Seq<char> {
    "pairing slot `"@ + link_id + "` declares cardinality `"@ + cardinality + "`, which `"@ + accessor
        + "` cannot read; regenerate the node's bindings so the slot is read through the accessor its cardinality declares"@
}

/// Reports a pairing slot read through an accessor its cardinality does not fit.
pub fn pairing_shape_message(link_id: &str, accessor: &str, cardinality: &str) -> (message: String)
    ensures
        message@ == pairing_shape_text(link_id@, accessor@, cardinality@),
{
    let mut message = "pairing slot `".to_owned();
    message.append(link_id);
    message.append("` declares cardinality `");
    message.append(cardinality);
    message.append("`, which `");
    message.append(accessor);
    message.append(
        "` cannot read; regenerate the node's bindings so the slot is read through the accessor its cardinality declares",
    );
    message
}

/// A scalar pairing slot: `one` or `zero_or_one`.
pub struct PeerSlot {
    link_id: String,
    cardinality: Cardinality,
}

impl PeerSlot {
    /// The slot's link id.
    pub closed spec fn spec_link_id(&self) -> Seq<char> {
        self.link_id@
    }

    /// The slot's declared cardinality.
    pub closed spec fn spec_cardinality(&self) -> Cardinality {
        self.cardinality
    }

    /// The handle of the slot at `link_id`.
    pub fn new(link_id: &str, cardinality: Cardinality) -> (slot: Self)
        ensures
            slot.spec_link_id() == link_id@,
            slot.spec_cardinality() == cardinality,
    {
        PeerSlot { link_id: link_id.to_owned(), cardinality }
    }

    /// The paired peer with its copy, or `None` while unpaired. A scalar slot
    /// holds at most one pair.
    pub fn paired_member(&self, state: &PeerSetState) -> (member: Option<PeerMember>)
        requires
            state.members@.len() <= 1,
        ensures
            match member {
                Some(member) => peer_member_views(state.members@) == seq![member@],
                None => state.members@.len() == 0,
            },
    {
        if state.members.len() == 0 {
            None
        } else {
            let member = state.members[0].clone();
            proof {
                assert(peer_member_views(state.members@) =~= seq![member@]);
            }
            Some(member)
        }
    }

    /// The paired peer, or `None` while unpaired.
    pub fn paired(&self, state: &PeerSetState) -> (peer: Option<PeerInfo>)
        requires
            state.members@.len() <= 1,
        ensures
            match peer {
                Some(peer) => member_peers(state.members@) == seq![peer@],
                None => state.members@.len() == 0,
            },
    {
        match self.paired_member(state) {
            Some(member) => {
                proof {
                    assert(peer_member_views(state.members@).len() == state.members@.len());
                    assert(peer_member_views(state.members@)[0] == state.members@[0]@);
                    assert(member_peers(state.members@) =~= seq![member.info@]);
                }
                Some(member.info)
            },
            None => None,
        }
    }

    /// Reads the slot whatever its state: the pair, or the message that reports a
    /// state no scalar slot can have.
    pub fn read(&self, state: &PeerSetState) -> (read: std::result::Result<
        Option<PeerMember>,
        String,
    >)
        ensures
            match read {
                Ok(Some(member)) => peer_member_views(state.members@) == seq![member@],
                Ok(None) => state.members@.len() == 0,
                Err(message) => state.members@.len() > 1 && message@ == pairing_shape_text(
                    self.spec_link_id(),
                    "paired()"@,
                    self.spec_cardinality().spelling(),
                ),
            },
    {
        if state.members.len() > 1 {
            return Err(
                pairing_shape_message(self.link_id.as_str(), "paired()", self.cardinality.as_str()),
            );
        }
        Ok(self.paired_member(state))
    }
}

/// One step of waiting for a scalar slot to be paired.
pub enum PairingWait {
    /// The slot is paired to this peer.
    Paired(PeerInfo),
    /// Nothing is paired yet: wait for the next delivery.
    Waiting,
}

/// Decides one step of waiting for a pair. `closed` says that no further delivery
/// can come because the runtime is torn down.
pub fn wait_paired_step(slot: &PeerSlot, state: &PeerSetState, closed: bool) -> (step: Result<PairingWait>)
    requires
        state.members@.len() <= 1,
    ensures
        match step {
            Ok(PairingWait::Paired(peer)) => member_peers(state.members@) == seq![peer@],
            Ok(PairingWait::Waiting) => state.members@.len() == 0 && !closed,
            Err(error) => state.members@.len() == 0 && closed && error@
                == ErrorView::PairingSlotClosed,
        },
{
    match slot.paired(state) {
        Some(peer) => Ok(PairingWait::Paired(peer)),
        None => {
            if closed {
                Err(Error::PairingSlotClosed)
            } else {
                Ok(PairingWait::Waiting)
            }
        },
    }
}

/// A multi-peer pairing slot: `one_or_more` or `zero_or_more`. Its set is live
/// and may empty when every peer stops.
pub struct PeerSlotSet {}

impl PeerSlotSet {
    /// The handle of a multi-peer slot.
    pub fn new() -> (slot: Self) {
        PeerSlotSet {  }
    }

    /// Every pair the slot holds, in establishment order.
    pub fn members(&self, state: &PeerSetState) -> (members: Vec<PeerMember>)
        ensures
            peer_member_views(members@) == peer_member_views(state.members@),
    {
        let mut members: Vec<PeerMember> = Vec::new();
        let mut i: usize = 0;
        while i < state.members.len()
            invariant
                i <= state.members@.len(),
                members@.len() == i,
                forall|j: int| 0 <= j < i ==> (#[trigger] members@[j])@ == state.members@[j]@,
            decreases state.members@.len() - i,
        {
            members.push(state.members[i].clone());
            i = i + 1;
        }
        proof {
            assert(peer_member_views(members@) =~= peer_member_views(state.members@));
        }
        members
    }

    /// Every peer the slot holds, in establishment order.
    pub fn peers(&self, state: &PeerSetState) -> (peers: Vec<PeerInfo>)
        ensures
            peer_views(peers@) == member_peers(state.members@),
    {
        state.peers()
    }
}

/// How a peer is named in the error of a refused publish.
pub open spec fn peer_label(peer: PeerView) -> Seq<char> {
    peer.producer.core_node + "/"@ + peer.producer.instance_id + " (slot `"@ + peer.peer_link_id + "`)"@
}

fn peer_label_text(peer: &PeerInfo) -> (label: String)
    ensures
        label@ == peer_label(peer@),
{
    let mut label = peer.producer.core_node.clone();
    label.append("/");
    label.append(peer.producer.instance_id.as_str());
    label.append(" (slot `");
    label.append(peer.peer_link_id.as_str());
    label.append("`)");
    label
}

/// The publishers a multi-peer slot has declared, one per peer.
pub struct PeerPublishers<P> {
    declared: Vec<(PeerInfo, P)>,
}

/// What a publish to a peer needs next.
pub enum PublisherStep {
    /// The publisher at this position is declared for the peer.
    Declared(usize),
    /// The peer is paired but has no publisher yet.
    Declare,
}

impl<P> View for PeerPublishers<P> {
    type V = Seq<(PeerView, P)>;

    closed spec fn view(&self) -> Seq<(PeerView, P)> {
        self.declared@.map_values(|entry: (PeerInfo, P)| (entry.0@, entry.1))
    }
}

/// The publishers that remain once the slot holds exactly `peers`.
pub open spec fn still_paired<P>(declared: Seq<(PeerView, P)>, peers: Seq<PeerView>) -> Seq<
    (PeerView, P),
> {
    declared.filter(|entry: (PeerView, P)| peers.contains(entry.0))
}

/// Whether every peer has at most one publisher.
pub open spec fn one_per_peer<P>(declared: Seq<(PeerView, P)>) -> bool {
    forall|i: int, j: int|
        0 <= i < j < declared.len() ==> (#[trigger] declared[i]).0 != (#[trigger] declared[j]).0
}

impl<P> PeerPublishers<P> {
    /// No publisher declared.
    pub fn new() -> (publishers: Self)
        ensures
            publishers@ == Seq::<(PeerView, P)>::empty(),
    {
        let publishers = PeerPublishers { declared: Vec::new() };
        proof {
            assert(publishers@ =~= Seq::<(PeerView, P)>::empty());
        }
        publishers
    }

    /// Converges the declared publishers with the slot's peers and decides how to
    /// publish to `peer`. A publisher of a peer that is gone goes. A peer the
    /// slot does not hold is refused, so nothing is sent for a pair that ended.
    pub fn publisher_for(&mut self, state: &PeerSetState, link_id: &str, peer: &PeerInfo) -> (step:
        Result<PublisherStep>)
        ensures
            final(self)@ == still_paired(old(self)@, member_peers(state.members@)),
            match step {
                Err(error) => !member_peers(state.members@).contains(peer@) && error@
                    == (ErrorView::PeerNotPaired { link_id: link_id@, peer: peer_label(peer@) }),
                Ok(PublisherStep::Declared(at)) => member_peers(state.members@).contains(peer@) && at
                    < final(self)@.len() && final(self)@[at as int].0 == peer@,
                Ok(PublisherStep::Declare) => member_peers(state.members@).contains(peer@)
                    && forall|i: int| 0 <= i < final(self)@.len() ==> (#[trigger] final(self)@[i]).0 != peer@,
            },
    {
        let ghost before = self@;
        let ghost peers = member_peers(state.members@);
        let ghost keep = |entry: (PeerView, P)| peers.contains(entry.0);
        let mut declared: Vec<(PeerInfo, P)> = Vec::new();
        std::mem::swap(&mut declared, &mut self.declared);
        let mut kept: PeerPublishers<P> = PeerPublishers { declared: Vec::new() };
        let ghost all = declared@;
        proof {
            assert(before.take(0) =~= Seq::empty());
            reveal(Seq::filter);
            assert(kept@ =~= before.take(0).filter(keep));
        }
        for entry in it: declared
            invariant
                it.seq() == all,
                before == all.map_values(|entry: (PeerInfo, P)| (entry.0@, entry.1)),
                peers == member_peers(state.members@),
                keep == (|entry: (PeerView, P)| peers.contains(entry.0)),
                kept@ == before.take(it.index()).filter(keep),
        {
            let ghost view = (entry.0@, entry.1);
            proof {
                let i = it.index();
                assert(before[i] == view);
                reveal(Seq::filter);
                assert(before.take(i + 1).drop_last() =~= before.take(i));
            }
            if state.holds(&entry.0) {
                let ghost held = kept@;
                kept.declared.push(entry);
                proof {
                    assert(kept@ =~= held.push(view));
                }
            }
        }
        proof {
            assert(before.take(all.len() as int) =~= before);
        }
        self.declared = kept.declared;
        if !state.holds(peer) {
            return Err(
                Error::PeerNotPaired { link_id: link_id.to_owned(), peer: peer_label_text(peer) },
            );
        }
        let mut i: usize = 0;
        while i < self.declared.len()
            invariant
                i <= self.declared@.len(),
                self@ == still_paired(old(self)@, member_peers(state.members@)),
                member_peers(state.members@).contains(peer@),
                forall|j: int| 0 <= j < i ==> (#[trigger] self@[j]).0 != peer@,
            decreases self.declared@.len() - i,
        {
            if self.declared[i].0.same_as(peer) {
                return Ok(PublisherStep::Declared(i));
            }
            i = i + 1;
        }
        Ok(PublisherStep::Declare)
    }

    /// Records the publisher declared for `peer`.
    pub fn record(&mut self, peer: &PeerInfo, publisher: P)
        ensures
            final(self)@ == old(self)@.push((peer@, publisher)),
    {
        let ghost before = self@;
        self.declared.push((peer.clone(), publisher));
        proof {
            assert(self@ =~= before.push((peer@, publisher)));
        }
    }

    /// The publisher at position `at`.
    pub fn get(&self, at: usize) -> (publisher: &P)
        requires
            at < self@.len(),
        ensures
            *publisher == self@[at as int].1,
    {
        &self.declared[at].1
    }
}

/// Converging the publishers with the slot's peers keeps no publisher of a peer
/// that is gone, keeps one per peer, and keeps every publisher whose peer stays.
pub proof fn law_publishers_follow_the_peers<P>(declared: Seq<(PeerView, P)>, peers: Seq<PeerView>)
    requires
        one_per_peer(declared),
    ensures
        one_per_peer(still_paired(declared, peers)),
        forall|i: int|
            0 <= i < still_paired(declared, peers).len() ==> peers.contains(
                (#[trigger] still_paired(declared, peers)[i]).0,
            ) && declared.contains(still_paired(declared, peers)[i]),
        forall|i: int|
            0 <= i < declared.len() && peers.contains((#[trigger] declared[i]).0) ==> still_paired(
                declared,
                peers,
            ).contains(declared[i]),
    decreases declared.len(),
{
    reveal(Seq::filter);
    let kept = still_paired(declared, peers);
    if declared.len() > 0 {
        let shorter = declared.drop_last();
        let last = declared.last();
        let rest = still_paired(shorter, peers);
        law_publishers_follow_the_peers(shorter, peers);
        assert forall|i: int| 0 <= i < kept.len() implies peers.contains((#[trigger] kept[i]).0)
            && declared.contains(kept[i]) by {
            if i < rest.len() {
                assert(kept[i] == rest[i]);
                let k = choose|k: int| 0 <= k < shorter.len() && shorter[k] == rest[i];
                assert(declared[k] == kept[i]);
            } else {
                assert(declared[declared.len() - 1] == last);
            }
        }
        assert forall|i: int, j: int| 0 <= i < j < kept.len() implies (#[trigger] kept[i]).0 != (
        #[trigger] kept[j]).0 by {
            if j < rest.len() {
                assert(rest[i].0 != rest[j].0);
            } else {
                let k = choose|k: int| 0 <= k < shorter.len() && shorter[k] == rest[i];
                assert(declared[k].0 != declared[declared.len() - 1].0);
            }
        }
        assert forall|i: int|
            0 <= i < declared.len() && peers.contains((#[trigger] declared[i]).0) implies kept.contains(
            declared[i],
        ) by {
            if i < shorter.len() {
                assert(shorter[i] == declared[i]);
                let k = choose|k: int| 0 <= k < rest.len() && rest[k] == declared[i];
                assert(kept[k] == declared[i]);
            } else {
                assert(kept[rest.len() as int] == last);
            }
        }
    }
}

/// Declaring a publisher for a peer that has none keeps one publisher per peer.
pub proof fn law_declare_keeps_one_per_peer<P>(
    declared: Seq<(PeerView, P)>,
    peer: PeerView,
    publisher: P,
)
    requires
        one_per_peer(declared),
        forall|i: int| 0 <= i < declared.len() ==> (#[trigger] declared[i]).0 != peer,
    ensures
        one_per_peer(declared.push((peer, publisher))),
{
}

/// What is read of a pairing slot is what it holds: one entry per pair, in the slot's
/// order, each with its peer's address, the peer's own slot and its copy.
pub proof fn law_pairs_are_read_as_held(state: PeerSetState)
    ensures
        member_peers(state.members@).len() == state.members@.len(),
        peer_member_views(state.members@).len() == state.members@.len(),
        state@.sequence == state.sequence,
        state@.members == peer_member_views(state.members@),
        forall|i: int|
            0 <= i < state.members@.len() ==> {
                let held = #[trigger] state.members@[i];
                let peer = member_peers(state.members@)[i];
                let member = peer_member_views(state.members@)[i];
                &&& peer.producer.core_node == held.info.producer.core_node@
                &&& peer.producer.instance_id == held.info.producer.instance_id@
                &&& peer.peer_link_id == held.info.peer_link_id@
                &&& member.info == peer
                &&& match held.copy {
                    Some(copy) => member.copy == Some(copy@),
                    None => member.copy is None,
                }
            },
{
}

/// The peers of a list are its entries, in their order.
pub proof fn law_peers_are_listed_in_order(peers: Seq<PeerInfo>)
    ensures
        peer_views(peers).len() == peers.len(),
        forall|i: int|
            0 <= i < peers.len() ==> (#[trigger] peer_views(peers)[i]).producer.core_node
                == peers[i].producer.core_node@ && peer_views(peers)[i].producer.instance_id
                == peers[i].producer.instance_id@ && peer_views(peers)[i].peer_link_id
                == peers[i].peer_link_id@,
{
}

/// As long as every declared publisher's peer is paired, none is dropped and none is
/// moved; and a publisher whose peer is not paired any more is dropped.
pub proof fn law_publishers_stay_while_paired<P>(declared: Seq<(PeerView, P)>, peers: Seq<PeerView>)
    ensures
        (forall|i: int| 0 <= i < declared.len() ==> peers.contains((#[trigger] declared[i]).0))
            ==> still_paired(declared, peers) == declared,
        forall|i: int|
            0 <= i < still_paired(declared, peers).len() ==> peers.contains(
                (#[trigger] still_paired(declared, peers)[i]).0,
            ),
    decreases declared.len(),
{
    reveal(Seq::filter);
    if declared.len() > 0 {
        let shorter = declared.drop_last();
        law_publishers_stay_while_paired(shorter, peers);
        if forall|i: int| 0 <= i < declared.len() ==> peers.contains((#[trigger] declared[i]).0) {
            assert forall|i: int| 0 <= i < shorter.len() implies peers.contains(
                (#[trigger] shorter[i]).0,
            ) by {
                assert(declared[i] == shorter[i]);
            }
            assert(declared[declared.len() - 1] == declared.last());
            assert(declared =~= shorter.push(declared.last()));
        }
    } else {
        assert(still_paired(declared, peers) =~= declared);
    }
}

/// A peer is named by its core node, its instance and its own slot.
pub proof fn law_peer_is_named_by_its_address(peer: PeerView)
    ensures
        peer_label(peer) == peer.producer.core_node + "/"@ + peer.producer.instance_id + " (slot `"@
            + peer.peer_link_id + "`)"@,
{
}

/// What is said of a pairing slot that is read wrongly: which slot it is, what it is
/// declared as, and how it was read.
pub proof fn law_misread_pairing_slots_are_named(
    link_id: Seq<char>,
    accessor: Seq<char>,
    cardinality: Seq<char>,
)
    ensures
        pairing_shape_text(link_id, accessor, cardinality) == "pairing slot `"@ + link_id
            + "` declares cardinality `"@ + cardinality + "`, which `"@ + accessor
            + "` cannot read; regenerate the node's bindings so the slot is read through the accessor its cardinality declares"@,
{
}

} // verus!
