//! Topics: the fair merge of several sources, and the wire address of every
//! kind of topic subscription.
use crate::message::Message;
use crate::pairing::PeerInfo;
use crate::producer::{ProducerRef, ProducerView};
use vstd::prelude::*;

verus! {

/// The source polled at position `position` when a round over `count` sources
/// starts at `start`.
pub open spec fn rotated(count: nat, start: nat, position: nat) -> nat
    recommends
        count > 0,
{
    ((start % count) + position) % count
}

/// The index of the source that won a round: rounds poll the sources in rotated
/// order, so that a busy source cannot starve a quiet one.
pub fn rotated_index(count: usize, start: usize, position: usize) -> (index: usize)
    requires
        0 < count,
        position < count,
    ensures
        index == rotated(count as nat, start as nat, position as nat),
        index < count,
{
    let first: usize = start % count;
    let index: usize = if position < count - first {
        first + position
    } else {
        position - (count - first)
    };
    proof {
        lemma_rotated(count as nat, start as nat, position as nat);
    }
    index
}

proof fn lemma_rotated(count: nat, start: nat, position: nat)
    requires
        0 < count,
        position < count,
    ensures
        rotated(count, start, position) == (if (start % count) + position < count {
            ((start % count) + position) as int
        } else {
            (start % count) + position - count
        }),
        rotated(count, start, position) < count,
{
    let first = start % count;
    assert(first < count) by (nonlinear_arith)
        requires
            count > 0,
            first == start % count,
    ;
    let sum = (first + position) as int;
    if sum < count {
        vstd::arithmetic::div_mod::lemma_small_mod(sum as nat, count);
    } else {
        vstd::arithmetic::div_mod::lemma_small_mod((sum - count) as nat, count);
        vstd::arithmetic::div_mod::lemma_mod_add_multiples_vanish(sum - count, count as int);
    }
}

/// The order in which a round polls its sources.
pub fn rotation_order(count: usize, start: usize) -> (order: Vec<usize>)
    requires
        0 < count,
    ensures
        order@.len() == count,
        forall|position: int|
            0 <= position < count ==> #[trigger] order@[position] == rotated(
                count as nat,
                start as nat,
                position as nat,
            ),
{
    let mut order: Vec<usize> = Vec::new();
    let mut position: usize = 0;
    while position < count
        invariant
            0 < count,
            position <= count,
            order@.len() == position,
            forall|p: int|
                0 <= p < position ==> #[trigger] order@[p] == rotated(
                    count as nat,
                    start as nat,
                    p as nat,
                ),
        decreases count - position,
    {
        order.push(rotated_index(count, start, position));
        position = position + 1;
    }
    order
}

/// A round polls every source exactly once.
pub proof fn law_round_polls_each_source_once(count: nat, start: nat, source: nat)
    requires
        source < count,
    ensures
        exists|position: nat| position < count && #[trigger] rotated(count, start, position) == source,
        forall|p: nat, q: nat|
            p < count && q < count && #[trigger] rotated(count, start, p) == #[trigger] rotated(
                count,
                start,
                q,
            ) ==> p == q,
{
    let first = start % count;
    let position: nat = if source >= first {
        (source - first) as nat
    } else {
        (source + count - first) as nat
    };
    assert(first < count) by (nonlinear_arith)
        requires
            count > 0,
            first == start % count,
    ;
    lemma_rotated(count, start, position);
    assert(rotated(count, start, position) == source);
    assert forall|p: nat, q: nat|
        p < count && q < count && #[trigger] rotated(count, start, p) == #[trigger] rotated(
            count,
            start,
            q,
        ) implies p == q by {
        lemma_rotated(count, start, p);
        lemma_rotated(count, start, q);
    }
}

/// The merge is fair: of any `count` successive rounds exactly one polls a given
/// source first, as long as the count of rounds does not wrap around meanwhile.
pub proof fn law_each_source_is_first_once_per_cycle(count: nat, start: nat, source: nat)
    requires
        source < count,
        start + count - 1 <= usize::MAX,
    ensures
        exists|round: nat|
            start <= round < start + count && #[trigger] rotated(count, round, 0) == source,
        forall|a: nat, b: nat|
            start <= a < start + count && start <= b < start + count && #[trigger] rotated(count, a, 0)
                == #[trigger] rotated(count, b, 0) ==> a == b,
{
    let first = start % count;
    assert(first < count) by (nonlinear_arith)
        requires
            count > 0,
            first == start % count,
    ;
    let ahead: nat = if source >= first {
        (source - first) as nat
    } else {
        (source + count - first) as nat
    };
    lemma_first_of_round(count, start, ahead);
    assert(rotated(count, start + ahead, 0) == source);
    assert forall|a: nat, b: nat|
        start <= a < start + count && start <= b < start + count && #[trigger] rotated(count, a, 0)
            == #[trigger] rotated(count, b, 0) implies a == b by {
        lemma_first_of_round(count, start, (a - start) as nat);
        lemma_first_of_round(count, start, (b - start) as nat);
    }
}

proof fn lemma_first_of_round(count: nat, start: nat, ahead: nat)
    requires
        ahead < count,
    ensures
        rotated(count, start + ahead, 0) == (if (start % count) + ahead < count {
            ((start % count) + ahead) as int
        } else {
            (start % count) + ahead - count
        }),
{
    lemma_rotated(count, start, ahead);
    lemma_rotated(count, start + ahead, 0);
    vstd::arithmetic::div_mod::lemma_add_mod_noop_right(ahead as int, start as int, count as int);
    assert((start + ahead) % count == ((start % count) + ahead) % count);
    vstd::arithmetic::div_mod::lemma_mod_bound((start + ahead) as int, count as int);
}

/// The start of the round after the one that started at `start`.
pub open spec fn advanced(start: nat) -> nat {
    if start == usize::MAX {
        0
    } else {
        start + 1
    }
}

/// The start of the round that comes `rounds` after the one that starts at `start`.
pub open spec fn round_start(start: nat, rounds: nat) -> nat
    decreases rounds,
{
    if rounds == 0 {
        start
    } else {
        advanced(round_start(start, (rounds - 1) as nat))
    }
}

proof fn lemma_round_start(start: nat, rounds: nat)
    requires
        start <= usize::MAX,
        rounds <= usize::MAX,
    ensures
        round_start(start, rounds) == (if start + rounds <= usize::MAX {
            (start + rounds) as int
        } else {
            start + rounds - usize::MAX - 1
        }),
    decreases rounds,
{
    if rounds > 0 {
        lemma_round_start(start, (rounds - 1) as nat);
    }
}

/// No source starves, however busy the others are: within any two cycles of
/// rounds every source is polled first, also where the count of rounds wraps
/// around.
pub proof fn law_no_source_starves(count: nat, start: nat, source: nat)
    requires
        source < count,
        2 * count <= usize::MAX,
        start <= usize::MAX,
    ensures
        exists|rounds: nat|
            rounds < 2 * count && rotated(count, #[trigger] round_start(start, rounds), 0) == source,
{
    if start + count - 1 <= usize::MAX {
        law_each_source_is_first_once_per_cycle(count, start, source);
        let round = choose|round: nat|
            start <= round < start + count && #[trigger] rotated(count, round, 0) == source;
        lemma_round_start(start, (round - start) as nat);
        assert(round_start(start, (round - start) as nat) == round);
    } else {
        let wrapped = (usize::MAX - start + 1) as nat;
        lemma_round_start(start, wrapped + source);
        lemma_first_of_round(count, 0, source);
        vstd::arithmetic::div_mod::lemma_small_mod(0, count);
        assert(round_start(start, wrapped + source) == source);
    }
}

/// One source of a merged subscription.
pub struct BoundSource<S> {
    pub producer: ProducerRef,
    pub subscription: S,
}

/// A subscription that covers a slot's complete bound producer set: one pinned
/// wire subscription per member, merged fairly. The bound set itself never
/// changes; a source whose channel closes is dropped from the merge.
pub struct BoundSetSubscription<S> {
    sources: Vec<BoundSource<S>>,
    next_start: usize,
}

/// The state of a merged subscription.
#[verifier::ext_equal]
pub struct MergeView<S> {
    pub sources: Seq<(ProducerView, S)>,
    pub next_start: nat,
}

impl<S> View for BoundSetSubscription<S> {
    type V = MergeView<S>;

    closed spec fn view(&self) -> MergeView<S> {
        MergeView {
            sources: self.sources@.map_values(
                |source: BoundSource<S>| (source.producer@, source.subscription),
            ),
            next_start: self.next_start as nat,
        }
    }
}

/// What a merged subscription does next.
pub enum MergeStep {
    /// There is no source: wait for shutdown, then end.
    AwaitShutdown,
    /// Poll the sources in rotated order from `start`, and look whether shutdown
    /// has fired.
    Poll { start: usize },
}

/// What a merged subscription makes of what it found.
pub enum MergeOutcome {
    /// A message, tagged with the producer that published it.
    Yield(ProducerRef, Message),
    /// A source closed and others remain: poll again. Names the producer that is
    /// gone.
    Continue(ProducerRef),
    /// The last source closed.
    Ended(ProducerRef),
    /// Nothing is ready and shutdown has not fired: wait for either.
    Pending,
    /// Nothing is ready and shutdown has fired.
    Stopped,
}

/// The view of a [`MergeOutcome`].
pub enum MergeOutcomeView {
    Yield(ProducerView, Message),
    Continue(ProducerView),
    Ended(ProducerView),
    Pending,
    Stopped,
}

impl View for MergeOutcome {
    type V = MergeOutcomeView;

    open spec fn view(&self) -> MergeOutcomeView {
        match *self {
            MergeOutcome::Yield(producer, message) => MergeOutcomeView::Yield(producer@, message),
            MergeOutcome::Continue(gone) => MergeOutcomeView::Continue(gone@),
            MergeOutcome::Ended(gone) => MergeOutcomeView::Ended(gone@),
            MergeOutcome::Pending => MergeOutcomeView::Pending,
            MergeOutcome::Stopped => MergeOutcomeView::Stopped,
        }
    }
}

impl MergeOutcomeView {
    /// Whether this ends the stream of messages.
    pub open spec fn is_end(self) -> bool {
        self is Ended || self is Stopped
    }
}

/// What becomes of a merge whose sources were polled, and what its consumer gets.
/// `ready` is the source that was found ready, if any, with its message, or with
/// none when its channel closed; `shutdown` says whether shutdown has fired.
pub open spec fn polled<S>(
    merge: MergeView<S>,
    ready: Option<(usize, Option<Message>)>,
    shutdown: bool,
) -> (MergeView<S>, MergeOutcomeView) {
    match ready {
        Some((index, Some(message))) => (
            merge,
            MergeOutcomeView::Yield(merge.sources[index as int].0, message),
        ),
        Some((index, None)) => (
            MergeView { sources: merge.sources.remove(index as int), ..merge },
            if merge.sources.len() == 1 {
                MergeOutcomeView::Ended(merge.sources[index as int].0)
            } else {
                MergeOutcomeView::Continue(merge.sources[index as int].0)
            },
        ),
        None => (
            merge,
            if shutdown {
                MergeOutcomeView::Stopped
            } else {
                MergeOutcomeView::Pending
            },
        ),
    }
}

/// Queued messages drain before shutdown is honoured: a ready message is yielded
/// whether or not shutdown has fired, and leaves the merge as it was for the next.
pub proof fn law_queued_message_wins_over_shutdown<S>(
    merge: MergeView<S>,
    index: usize,
    message: Message,
    shutdown: bool,
)
    requires
        index < merge.sources.len(),
    ensures
        polled(merge, Some((index, Some(message))), shutdown) == (
            merge,
            MergeOutcomeView::Yield(merge.sources[index as int].0, message),
        ),
{
}

/// A merge ends only when nothing is ready and shutdown has fired, or with its last
/// source. So a merge without sources, where nothing is ever ready, waits for
/// shutdown and then ends, and a closed source never ends a merge while another
/// source is open.
pub proof fn law_merge_ends_only_when_drained<S>(
    merge: MergeView<S>,
    ready: Option<(usize, Option<Message>)>,
    shutdown: bool,
)
    requires
        ready matches Some(found) ==> found.0 < merge.sources.len(),
    ensures
        polled(merge, ready, shutdown).1.is_end() <==> match ready {
            Some((_, Some(_))) => false,
            Some((_, None)) => merge.sources.len() == 1,
            None => shutdown,
        },
        polled(merge, ready, shutdown).1 is Ended ==> polled(merge, ready, shutdown).0.sources.len()
            == 0,
        merge.sources.len() == 0 ==> polled(merge, ready, shutdown) == (
            merge,
            if shutdown {
                MergeOutcomeView::Stopped
            } else {
                MergeOutcomeView::Pending
            },
        ),
{
}

impl<S> BoundSetSubscription<S> {
    /// The merge of `sources`, one per bound producer.
    pub fn new(sources: Vec<BoundSource<S>>) -> (merge: Self)
        ensures
            merge@.sources == sources@.map_values(
                |source: BoundSource<S>| (source.producer@, source.subscription),
            ),
            merge@.next_start == 0,
    {
        BoundSetSubscription { sources, next_start: 0 }
    }

    /// Decides the next step. Every poll starts one source further.
    pub fn next_step(&mut self) -> (step: MergeStep)
        ensures
            final(self)@.sources == old(self)@.sources,
            match step {
                MergeStep::AwaitShutdown => old(self)@.sources.len() == 0 && final(self)@ == old(
                    self,
                )@,
                MergeStep::Poll { start } => old(self)@.sources.len() > 0 && start == old(
                    self,
                )@.next_start && final(self)@.next_start == advanced(old(self)@.next_start),
            },
    {
        if self.sources.len() == 0 {
            return MergeStep::AwaitShutdown;
        }
        let start: usize = self.next_start;
        self.next_start = start.wrapping_add(1);
        MergeStep::Poll { start }
    }

    /// Takes what polling the sources found: the source that is ready, if any, with
    /// its message or the end of its channel; and whether shutdown has fired. A
    /// ready message comes before a fired shutdown.
    pub fn on_polled(&mut self, ready: Option<(usize, Option<Message>)>, shutdown: bool) -> (outcome:
        MergeOutcome)
        requires
            ready matches Some(found) ==> found.0 < old(self)@.sources.len(),
        ensures
            final(self)@ == polled(old(self)@, ready, shutdown).0,
            outcome@ == polled(old(self)@, ready, shutdown).1,
    {
        let ghost before = self@;
        match ready {
            Some((index, Some(message))) => {
                MergeOutcome::Yield(self.sources[index].producer.clone(), message)
            },
            Some((index, None)) => {
                let gone = self.sources.remove(index);
                proof {
                    assert(self@.sources =~= before.sources.remove(index as int));
                }
                if self.sources.len() == 0 {
                    MergeOutcome::Ended(gone.producer)
                } else {
                    MergeOutcome::Continue(gone.producer)
                }
            },
            None => {
                if shutdown {
                    MergeOutcome::Stopped
                } else {
                    MergeOutcome::Pending
                }
            },
        }
    }

    /// The subscription of source `index`.
    pub fn subscription(&self, index: usize) -> (subscription: &S)
        requires
            index < self@.sources.len(),
        ensures
            *subscription == self@.sources[index as int].1,
    {
        &self.sources[index].subscription
    }

    /// The number of sources that are still open.
    pub fn len(&self) -> (count: usize)
        ensures
            count == self@.sources.len(),
    {
        self.sources.len()
    }
}

/// Where a topic subscription listens. An absent publisher slot is a wildcard.
pub struct TopicReceiver {
    pub as_core_node: String,
    pub as_instance_id: String,
    pub from_core_node: Option<String>,
    pub from_instance_id: Option<String>,
    pub from_link_id: Option<String>,
    pub recipient: PairingRecipient,
    pub topic: String,
}

/// Who a pairing subscription stands for.
pub enum PairingRecipient {
    /// Not a pairing subscription.
    Unaddressed,
    /// The own slot a participant is paired on.
    Slot(String),
    /// Whichever peer holds the pair: an observer of the source.
    Any,
    /// One peer: an observer of one pair.
    Peer(PeerInfo),
}

/// The topic operations of a node.
pub struct TopicMessenger {}

impl TopicMessenger {
    /// The address of a subscription to one producer: its full address is pinned,
    /// so only that producer's publishes reach it.
    pub fn pinned_receiver(
        as_core_node: &str,
        as_instance_id: &str,
        topic: &str,
        from_producer: &ProducerRef,
    ) -> (receiver: TopicReceiver)
        ensures
            receiver.as_core_node@ == as_core_node@,
            receiver.as_instance_id@ == as_instance_id@,
            receiver.topic@ == topic@,
            receiver.from_core_node matches Some(core) && core@ == from_producer@.core_node,
            receiver.from_instance_id matches Some(instance) && instance@ == from_producer@.instance_id,
            receiver.from_link_id is None,
            receiver.recipient is Unaddressed,
    {
        TopicReceiver {
            as_core_node: as_core_node.to_owned(),
            as_instance_id: as_instance_id.to_owned(),
            from_core_node: Some(from_producer.core_node.clone()),
            from_instance_id: Some(from_producer.instance_id.clone()),
            from_link_id: None,
            recipient: PairingRecipient::Unaddressed,
            topic: topic.to_owned(),
        }
    }

    /// The address of a subscription scoped by the publisher's target alone: its
    /// per-boot address stays open, and the link id is pinned when one is given.
    pub fn target_scoped_receiver(
        as_core_node: &str,
        as_instance_id: &str,
        from_link_id: Option<&str>,
        topic: &str,
    ) -> (receiver: TopicReceiver)
        ensures
            receiver.as_core_node@ == as_core_node@,
            receiver.as_instance_id@ == as_instance_id@,
            receiver.topic@ == topic@,
            receiver.from_core_node is None,
            receiver.from_instance_id is None,
            crate::error::optional_text(receiver.from_link_id) == crate::envelope::optional_str(
                from_link_id,
            ),
            receiver.recipient is Unaddressed,
    {
        let link_id: Option<String> = match from_link_id {
            Some(link_id) => Some(link_id.to_owned()),
            None => None,
        };
        TopicReceiver {
            as_core_node: as_core_node.to_owned(),
            as_instance_id: as_instance_id.to_owned(),
            from_core_node: None,
            from_instance_id: None,
            from_link_id: link_id,
            recipient: PairingRecipient::Unaddressed,
            topic: topic.to_owned(),
        }
    }

    /// The address of a subscription pinned to one publisher and one of its link
    /// ids.
    pub fn publisher_pinned_receiver(
        as_core_node: &str,
        as_instance_id: &str,
        from: &ProducerRef,
        from_link_id: &str,
        topic: &str,
    ) -> (receiver: TopicReceiver)
        ensures
            receiver.as_core_node@ == as_core_node@,
            receiver.as_instance_id@ == as_instance_id@,
            receiver.topic@ == topic@,
            receiver.from_core_node matches Some(core) && core@ == from@.core_node,
            receiver.from_instance_id matches Some(instance) && instance@ == from@.instance_id,
            receiver.from_link_id matches Some(link_id) && link_id@ == from_link_id@,
            receiver.recipient is Unaddressed,
    {
        TopicReceiver {
            as_core_node: as_core_node.to_owned(),
            as_instance_id: as_instance_id.to_owned(),
            from_core_node: Some(from.core_node.clone()),
            from_instance_id: Some(from.instance_id.clone()),
            from_link_id: Some(from_link_id.to_owned()),
            recipient: PairingRecipient::Unaddressed,
            topic: topic.to_owned(),
        }
    }

    /// The address of a subscription to one topic of a pairing. Every slot of the
    /// publisher's address is pinned: no pairing subscription is a wildcard.
    pub fn peer_pinned_receiver(
        as_core_node: &str,
        as_instance_id: &str,
        peer: &ProducerRef,
        peer_link_id: &str,
        recipient: PairingRecipient,
        topic: &str,
    ) -> (receiver: TopicReceiver)
        ensures
            receiver.as_core_node@ == as_core_node@,
            receiver.as_instance_id@ == as_instance_id@,
            receiver.topic@ == topic@,
            receiver.from_core_node matches Some(core) && core@ == peer@.core_node,
            receiver.from_instance_id matches Some(instance) && instance@ == peer@.instance_id,
            receiver.from_link_id matches Some(link_id) && link_id@ == peer_link_id@,
            receiver.recipient == recipient,
    {
        TopicReceiver {
            as_core_node: as_core_node.to_owned(),
            as_instance_id: as_instance_id.to_owned(),
            from_core_node: Some(peer.core_node.clone()),
            from_instance_id: Some(peer.instance_id.clone()),
            from_link_id: Some(peer_link_id.to_owned()),
            recipient,
            topic: topic.to_owned(),
        }
    }

    /// The address of a topic publisher.
    pub fn sender(
        as_core_node: &str,
        as_instance_id: &str,
        link_id: Option<&str>,
        topic: &str,
        addressee: Addressee,
    ) -> (sender: TopicSender)
        ensures
            sender.as_core_node@ == as_core_node@,
            sender.as_instance_id@ == as_instance_id@,
            sender.topic@ == topic@,
            sender.link_id@ == (match link_id {
                Some(link_id) => link_id@,
                None => "_"@,
            }),
            sender.addressee == addressee,
    {
        let link: String = match link_id {
            Some(link_id) => link_id.to_owned(),
            None => "_".to_owned(),
        };
        TopicSender {
            as_core_node: as_core_node.to_owned(),
            as_instance_id: as_instance_id.to_owned(),
            link_id: link,
            topic: topic.to_owned(),
            addressee,
        }
    }

    /// The address of a pairing emission from the own slot `link_id` to `peer`.
    pub fn pairing_sender(
        as_core_node: &str,
        as_instance_id: &str,
        link_id: &str,
        topic: &str,
        peer: &PeerInfo,
    ) -> (sender: TopicSender)
        ensures
            sender.as_core_node@ == as_core_node@,
            sender.as_instance_id@ == as_instance_id@,
            sender.topic@ == topic@,
            sender.link_id@ == link_id@,
            sender.addressee matches Addressee::Peer(to) && to@ == peer@,
    {
        Self::sender(
            as_core_node,
            as_instance_id,
            Some(link_id),
            topic,
            Addressee::Peer(peer.clone()),
        )
    }

    /// The address of a pairing emission from the own scalar slot `link_id` to
    /// whichever peer holds its one pair.
    pub fn sole_peer_sender(
        as_core_node: &str,
        as_instance_id: &str,
        link_id: &str,
        topic: &str,
    ) -> (sender: TopicSender)
        ensures
            sender.as_core_node@ == as_core_node@,
            sender.as_instance_id@ == as_instance_id@,
            sender.topic@ == topic@,
            sender.link_id@ == link_id@,
            sender.addressee is SolePeer,
    {
        Self::sender(as_core_node, as_instance_id, Some(link_id), topic, Addressee::SolePeer)
    }
}

/// Who a topic publisher addresses.
pub enum Addressee {
    /// Every subscriber of the topic.
    Everyone,
    /// Whichever peer holds the slot's one pair.
    SolePeer,
    /// One peer.
    Peer(PeerInfo),
}

/// Where a topic publisher publishes. A publisher without a link id of its own
/// uses the reserved one.
pub struct TopicSender {
    pub as_core_node: String,
    pub as_instance_id: String,
    pub link_id: String,
    pub topic: String,
    pub addressee: Addressee,
}

/// A round begins at the source that its number leads to and goes on to the next
/// source each time, with the first one after the last.
pub proof fn law_round_goes_from_its_start(count: nat, start: nat, position: nat)
    requires
        count > 0,
        position + 1 < count,
    ensures
        rotated(count, start, 0) == start % count,
        rotated(count, start, position) + 1 < count ==> rotated(count, start, position + 1) == rotated(
            count,
            start,
            position,
        ) + 1,
        rotated(count, start, position) + 1 == count ==> rotated(count, start, position + 1) == 0,
{
    lemma_rotated(count, start, 0);
    lemma_rotated(count, start, position);
    lemma_rotated(count, start, position + 1);
}

/// Each round starts one source further than the one before; after the highest number
/// of a round the count begins again.
pub proof fn law_next_round_starts_one_further(start: nat)
    requires
        start <= usize::MAX,
    ensures
        start < usize::MAX ==> advanced(start) == start + 1,
        start == usize::MAX ==> advanced(start) == 0,
{
}

/// What a poll yields is the message that was found, in the name of the source it was
/// found at. A source whose channel closed, and no other, leaves the merge, and is
/// named. Without anything ready the merge stays as it is.
pub proof fn law_poll_yields_what_was_found<S>(
    merge: MergeView<S>,
    ready: Option<(usize, Option<Message>)>,
    shutdown: bool,
    at: int,
)
    requires
        ready matches Some(found) ==> found.0 < merge.sources.len(),
        0 <= at < merge.sources.len(),
    ensures
        ({
            let after = polled(merge, ready, shutdown).0;
            let outcome = polled(merge, ready, shutdown).1;
            &&& after.next_start == merge.next_start
            &&& match ready {
                Some((index, Some(message))) => after.sources == merge.sources && (outcome
                    matches MergeOutcomeView::Yield(producer, yielded) && producer
                    == merge.sources[index as int].0 && yielded == message),
                Some((index, None)) => after.sources.len() == merge.sources.len() - 1 && (at < index
                    ==> after.sources[at] == merge.sources[at]) && (at > index ==> after.sources[at - 1]
                    == merge.sources[at]) && match outcome {
                    MergeOutcomeView::Ended(gone) => gone == merge.sources[index as int].0
                        && merge.sources.len() == 1,
                    MergeOutcomeView::Continue(gone) => gone == merge.sources[index as int].0
                        && merge.sources.len() > 1,
                    _ => false,
                },
                None => after.sources == merge.sources && match outcome {
                    MergeOutcomeView::Stopped => shutdown,
                    MergeOutcomeView::Pending => !shutdown,
                    _ => false,
                },
            }
        }),
{
}

/// What a merge hands out is seen as it is: the message with its producer, the
/// producer of a closed source, or that there is nothing.
pub proof fn law_merge_outcome_is_seen_as_it_is(outcome: MergeOutcome)
    ensures
        match outcome {
            MergeOutcome::Yield(producer, message) => outcome@ == MergeOutcomeView::Yield(
                producer@,
                message,
            ),
            MergeOutcome::Continue(gone) => outcome@ == MergeOutcomeView::Continue(gone@),
            MergeOutcome::Ended(gone) => outcome@ == MergeOutcomeView::Ended(gone@),
            MergeOutcome::Pending => outcome@ is Pending,
            MergeOutcome::Stopped => outcome@ is Stopped,
        },
{
}

} // verus!
