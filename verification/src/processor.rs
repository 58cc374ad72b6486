//! The resolved configuration of a running node.
use crate::bound_set::NonEmptyProducers;
use crate::cardinality::Cardinality;
use crate::config;
use crate::config::{
    LifecycleConfig, NodeConfig, NodeInstanceConfig, PairingSlotBinding, ResolvedFramework,
    RuntimeConfig, SimTimeParticipants, SlotDependency, SlotView,
};
use crate::error::{Error, ErrorView, Result};
use crate::observation;
use crate::observation::{MemberView, ObservationState, ObservationView, ObservedMemberState, ObservedSource};
use crate::pairing;
use crate::pairing::{PeerInfo, PeerMember, PeerMemberView, PeerSetState, PeerSetView};
use crate::producer;
use crate::producer::{contains_producer, copy_producers, BoundProducers, ProducerRef, ProducerView};
use crate::slot_setup;
use crate::slot_setup::{
    build_bound_producers, build_cardinalities, build_observation_slots, build_pairing_slots,
    standalone_sim_time_source,
};
use crate::sorted_map::SortedMap;
use crate::standalone::StandaloneConfig;
use crate::text;
use crate::text::{decimal_text, text_eq};
use vstd::prelude::*;
use vstd::string::*;

verus! {

/// The core node that every standalone node runs under.
pub const STANDALONE_CORE_NODE: &'static str = "standalone-core";

/// A node's resolved configuration: who it is, its validated arguments `A`, and
/// what each of its declared slots was resolved to at startup.
pub struct Processor<A> {
    runtime_config: RuntimeConfig,
    arguments: A,
    bound_producers: SortedMap<BoundProducers>,
    pairing_slots: SortedMap<PeerSetState>,
    pairing_cardinalities: SortedMap<Cardinality>,
    observation_slots: SortedMap<ObservationState>,
    observation_cardinalities: SortedMap<Cardinality>,
}

/// The view of a [`Processor`].
#[verifier::ext_equal]
pub struct ProcessorView<A> {
    pub arguments: A,
    pub instance_id: Seq<char>,
    pub core_node: Seq<char>,
    pub node_name: Seq<char>,
    pub node_tag: Seq<char>,
    pub messaging_host: Seq<char>,
    pub messaging_port: u16,
    pub lifecycle: LifecycleConfig,
    pub use_sim_time: bool,
    pub sim_time_source: Option<Seq<Seq<char>>>,
    pub bound: Map<Seq<char>, Seq<ProducerView>>,
    pub pairings: Map<Seq<char>, PeerSetView>,
    pub pairing_cardinalities: Map<Seq<char>, Cardinality>,
    pub observations: Map<Seq<char>, ObservationView>,
    pub observation_cardinalities: Map<Seq<char>, Cardinality>,
}

/// The core nodes of a simulated-time source.
pub open spec fn participants_of(source: Option<SimTimeParticipants>) -> Option<Seq<Seq<char>>> {
    match source {
        Some(participants) => Some(text::texts(participants.core_nodes@)),
        None => None,
    }
}

impl<A> View for Processor<A> {
    type V = ProcessorView<A>;

    closed spec fn view(&self) -> ProcessorView<A> {
        ProcessorView {
            arguments: self.arguments,
            instance_id: self.runtime_config.node_instance.instance_id@,
            core_node: self.runtime_config.bound_core_node@,
            node_name: self.runtime_config.node_name@,
            node_tag: self.runtime_config.node_tag@,
            messaging_host: self.runtime_config.messaging_host@,
            messaging_port: self.runtime_config.messaging_port,
            lifecycle: self.runtime_config.lifecycle,
            use_sim_time: self.runtime_config.node_instance.framework.use_sim_time,
            sim_time_source: participants_of(
                self.runtime_config.node_instance.framework.sim_time_source,
            ),
            bound: slot_setup::bound_sets(self.bound_producers@),
            pairings: slot_setup::pairing_states(self.pairing_slots@),
            pairing_cardinalities: self.pairing_cardinalities@,
            observations: slot_setup::observation_states(self.observation_slots@),
            observation_cardinalities: self.observation_cardinalities@,
        }
    }
}

/// The processor that a launch configuration and a manifest resolve to.
pub open spec fn daemon_view<A>(
    runtime: RuntimeConfig,
    node: NodeConfig,
    arguments: A,
) -> ProcessorView<A> {
    let instance = runtime.node_instance;
    let observers = slot_setup::declared_cardinalities(
        config::slot_views(node.depends_on.pairing_observers@),
    );
    ProcessorView {
        arguments,
        instance_id: instance.instance_id@,
        core_node: runtime.bound_core_node@,
        node_name: runtime.node_name@,
        node_tag: runtime.node_tag@,
        messaging_host: runtime.messaging_host@,
        messaging_port: runtime.messaging_port,
        lifecycle: runtime.lifecycle,
        use_sim_time: instance.framework.use_sim_time,
        sim_time_source: participants_of(instance.framework.sim_time_source),
        bound: slot_setup::resolved_sets(
            slot_setup::bound_sets(instance.slot_bindings@),
            node.depends_on.consumer_slots(),
        ),
        pairings: slot_setup::boot_pairings(
            instance.pairing_slots@,
            config::slot_views(node.depends_on.pairings@),
        ),
        pairing_cardinalities: slot_setup::declared_cardinalities(
            config::slot_views(node.depends_on.pairings@),
        ),
        observations: slot_setup::boot_observations(
            slot_setup::seed_sets(instance.observation_seeds@),
            observers,
        ),
        observation_cardinalities: observers,
    }
}

/// Whether a manifest's slots can be resolved from these bindings and seeds.
pub open spec fn slots_accepted(
    node: NodeConfig,
    bindings: Map<Seq<char>, Seq<ProducerView>>,
    seeds: Map<Seq<char>, Seq<MemberView>>,
) -> bool {
    let observers = slot_setup::declared_cardinalities(
        config::slot_views(node.depends_on.pairing_observers@),
    );
    &&& slot_setup::all_resolve(bindings, node.depends_on.consumer_slots())
    &&& slot_setup::all_declared(seeds, observers)
    &&& slot_setup::all_fit(seeds, observers)
}

/// Whether resolving a manifest's slots fails with `error`: consumer slots come
/// first, observer slots after them.
pub open spec fn slots_refused(
    node: NodeConfig,
    bindings: Map<Seq<char>, Seq<ProducerView>>,
    seeds: Map<Seq<char>, Seq<MemberView>>,
    error: ErrorView,
) -> bool {
    if slot_setup::all_resolve(bindings, node.depends_on.consumer_slots()) {
        slot_setup::seeds_refused(
            seeds,
            slot_setup::declared_cardinalities(
                config::slot_views(node.depends_on.pairing_observers@),
            ),
            error,
        )
    } else {
        exists|at: int| #[trigger]
            slot_setup::first_refused(bindings, node.depends_on.consumer_slots(), at, error)
    }
}

/// What only others can tell about a standalone configuration: its arguments
/// checked against the manifest's parameter schema, whether its names are valid,
/// and whether a launch configuration can be made of it all.
pub struct StandaloneChecks<A> {
    /// The validated arguments.
    pub arguments: Result<A>,
    /// Whether [`StandaloneConfig::instance_id_or_default`] is a valid name, or why
    /// not.
    pub instance_id: std::result::Result<(), String>,
    /// Whether each simulated-time participant is a valid name, or why not.
    pub participants: Vec<std::result::Result<(), String>>,
    /// The lifecycle settings of the launch configuration.
    pub lifecycle: Result<LifecycleConfig>,
}

/// The producers that a standalone configuration binds to the declared slots;
/// those for other slots are ignored.
pub open spec fn standalone_bindings(config: StandaloneConfig, slots: Seq<SlotView>) -> Map<
    Seq<char>,
    Seq<ProducerView>,
> {
    Map::new(
        |link_id: Seq<char>|
            config.bound_producers@.dom().contains(link_id) && config::declares(slots, link_id),
        |link_id: Seq<char>| producer::producer_views(config.bound_producers@[link_id]@),
    )
}

/// The members that a standalone configuration seeds the declared observer slots
/// with: its sources, each live in its first incarnation. Those for other slots
/// are ignored.
pub open spec fn standalone_seeds(
    config: StandaloneConfig,
    declared: Map<Seq<char>, Cardinality>,
) -> Map<Seq<char>, Seq<MemberView>> {
    Map::new(
        |link_id: Seq<char>|
            config.observed_sources@.dom().contains(link_id) && declared.dom().contains(link_id),
        |link_id: Seq<char>| first_incarnations(config.observed_sources@[link_id]@),
    )
}

/// Sources as live members in their first incarnation.
pub open spec fn first_incarnations(sources: Seq<ObservedSource>) -> Seq<MemberView> {
    sources.map_values(
        |source: ObservedSource|
            MemberView { source: source@, source_generation: 0, source_live: true },
    )
}

/// Whether every slot's producers are distinct.
pub open spec fn bindings_distinct(bindings: Map<Seq<char>, Seq<ProducerView>>) -> bool {
    forall|link_id: Seq<char>| #[trigger]
        bindings.dom().contains(link_id) ==> bindings[link_id].no_duplicates()
}

/// Whether `link_id` is the first slot, in key order, that repeats a producer, and
/// `error` names the first repetition.
pub open spec fn first_repetitive(
    bindings: Map<Seq<char>, Seq<ProducerView>>,
    link_id: Seq<char>,
    error: ErrorView,
) -> bool {
    &&& bindings.dom().contains(link_id)
    &&& exists|at: int| #[trigger]
        producer::first_repeat(bindings[link_id], at) && error
            == (ErrorView::DuplicateBoundProducer {
            core_node: bindings[link_id][at].core_node,
            instance_id: bindings[link_id][at].instance_id,
        })
    &&& forall|other: Seq<char>| #[trigger]
        bindings.dom().contains(other) && text::text_less(other, link_id)
            ==> bindings[other].no_duplicates()
}

/// Whether the simulated-time participants can be resolved.
pub open spec fn participants_accepted(
    core_nodes: Seq<String>,
    verdicts: Seq<std::result::Result<(), String>>,
) -> bool {
    &&& forall|j: int| 0 <= j < verdicts.len() ==> (#[trigger] verdicts[j]) is Ok
    &&& text::texts(core_nodes).no_duplicates()
}

/// Whether the simulated-time participants are refused with `error`: an invalid
/// name comes first, then a repeated one.
pub open spec fn participants_refused(
    core_nodes: Seq<String>,
    verdicts: Seq<std::result::Result<(), String>>,
    error: ErrorView,
) -> bool {
    ||| exists|at: int| #[trigger]
        slot_setup::first_invalid(verdicts, at) && error == (ErrorView::InvalidCoreNodeName {
            node_name: core_nodes[at]@,
            reason: verdicts[at]->Err_0@,
        })
    ||| {
        &&& forall|j: int| 0 <= j < verdicts.len() ==> (#[trigger] verdicts[j]) is Ok
        &&& exists|at: int| #[trigger]
            slot_setup::first_repeated_name(text::texts(core_nodes), at) && error
                == (ErrorView::DuplicateSimTimeParticipant { core_node: core_nodes[at]@ })
    }
}

/// Whether a standalone node can start from this manifest and configuration.
pub open spec fn standalone_accepted<A>(
    node: NodeConfig,
    config: StandaloneConfig,
    checks: StandaloneChecks<A>,
) -> bool {
    let bindings = standalone_bindings(config, node.depends_on.consumer_slots());
    let observers = slot_setup::declared_cardinalities(
        config::slot_views(node.depends_on.pairing_observers@),
    );
    &&& checks.arguments is Ok
    &&& checks.instance_id is Ok
    &&& bindings_distinct(bindings)
    &&& participants_accepted(config.sim_time_participants@, checks.participants@)
    &&& checks.lifecycle is Ok
    &&& slots_accepted(node, bindings, standalone_seeds(config, observers))
}

/// Whether a standalone node cannot start, with `error`. The reasons are looked at
/// in this order: the arguments, the instance id, repeated producers, the
/// simulated-time participants, the launch configuration, the slots.
pub open spec fn standalone_refused<A>(
    node: NodeConfig,
    config: StandaloneConfig,
    checks: StandaloneChecks<A>,
    error: ErrorView,
) -> bool {
    let bindings = standalone_bindings(config, node.depends_on.consumer_slots());
    let observers = slot_setup::declared_cardinalities(
        config::slot_views(node.depends_on.pairing_observers@),
    );
    if checks.arguments is Err {
        error == checks.arguments->Err_0@
    } else if checks.instance_id is Err {
        error == (ErrorView::InvalidNodeName {
            node_name: config.spec_instance_id(),
            reason: checks.instance_id->Err_0@,
        })
    } else if !bindings_distinct(bindings) {
        exists|link_id: Seq<char>| #[trigger] first_repetitive(bindings, link_id, error)
    } else if !participants_accepted(config.sim_time_participants@, checks.participants@) {
        participants_refused(config.sim_time_participants@, checks.participants@, error)
    } else if checks.lifecycle is Err {
        error == checks.lifecycle->Err_0@
    } else {
        slots_refused(node, bindings, standalone_seeds(config, observers), error)
    }
}

/// The states that a standalone node's pairing slots start with: a pinned slot
/// holds its peer, as if delivered, any other is unpaired.
pub open spec fn standalone_pairings(config: StandaloneConfig, declared: Seq<SlotView>) -> Map<
    Seq<char>,
    PeerSetView,
> {
    Map::new(
        |link_id: Seq<char>| config::declares(declared, link_id),
        |link_id: Seq<char>|
            if config.peer_pins@.dom().contains(link_id) {
                PeerSetView {
                    sequence: 1,
                    members: seq![
                        PeerMemberView { info: config.peer_pins@[link_id]@, copy: None },
                    ],
                }
            } else {
                PeerSetView { sequence: 0, members: Seq::empty() }
            },
    )
}

/// The processor that a manifest and a standalone configuration resolve to.
pub open spec fn standalone_view<A>(
    node: NodeConfig,
    config: StandaloneConfig,
    checks: StandaloneChecks<A>,
) -> ProcessorView<A> {
    let observers = slot_setup::declared_cardinalities(
        config::slot_views(node.depends_on.pairing_observers@),
    );
    ProcessorView {
        arguments: checks.arguments->Ok_0,
        instance_id: config.spec_instance_id(),
        core_node: STANDALONE_CORE_NODE@,
        node_name: match config.node_name {
            Some(name) => name@,
            None => node.name@,
        },
        node_tag: node.tag@,
        messaging_host: config.spec_messaging_host(),
        messaging_port: config.spec_messaging_port(),
        lifecycle: checks.lifecycle->Ok_0,
        use_sim_time: config.use_sim_time,
        sim_time_source: if config.use_sim_time && config.sim_time_participants@.len() > 0 {
            Some(text::texts(config.sim_time_participants@))
        } else {
            None
        },
        bound: slot_setup::resolved_sets(
            standalone_bindings(config, node.depends_on.consumer_slots()),
            node.depends_on.consumer_slots(),
        ),
        pairings: standalone_pairings(config, config::slot_views(node.depends_on.pairings@)),
        pairing_cardinalities: slot_setup::declared_cardinalities(
            config::slot_views(node.depends_on.pairings@),
        ),
        observations: slot_setup::boot_observations(
            standalone_seeds(config, observers),
            observers,
        ),
        observation_cardinalities: observers,
    }
}

fn is_declared(slots: &Vec<SlotDependency>, link_id: &str) -> (declared: bool)
    ensures
        declared == config::declares(config::slot_views(slots@), link_id@),
{
    let ghost views = config::slot_views(slots@);
    let mut i: usize = 0;
    while i < slots.len()
        invariant
            i <= slots@.len(),
            views == config::slot_views(slots@),
            forall|j: int| 0 <= j < i ==> (#[trigger] views[j]).link_id != link_id@,
        decreases slots@.len() - i,
    {
        proof {
            assert(views[i as int] == slots@[i as int]@);
        }
        if text_eq(slots[i].link_id.as_str(), link_id) {
            return true;
        }
        i = i + 1;
    }
    false
}

proof fn lemma_declares_either(a: Seq<SlotView>, b: Seq<SlotView>, link_id: Seq<char>)
    ensures
        config::declares(a + b, link_id) <==> config::declares(a, link_id) || config::declares(
            b,
            link_id,
        ),
{
    if config::declares(a, link_id) {
        let k = choose|k: int| 0 <= k < a.len() && (#[trigger] a[k]).link_id == link_id;
        assert((a + b)[k].link_id == link_id);
    }
    if config::declares(b, link_id) {
        let k = choose|k: int| 0 <= k < b.len() && (#[trigger] b[k]).link_id == link_id;
        assert((a + b)[a.len() + k].link_id == link_id);
    }
    if config::declares(a + b, link_id) {
        let k = choose|k: int| 0 <= k < (a + b).len() && (#[trigger] (a + b)[k]).link_id == link_id;
        if k < a.len() {
            assert(a[k].link_id == link_id);
        } else {
            assert(b[k - a.len()].link_id == link_id);
        }
    }
}

/// Collects the producers bound to declared slots.
fn collect_bindings(producers: &SortedMap<Vec<ProducerRef>>, node: &NodeConfig, Ghost(config): Ghost<
    StandaloneConfig,
>) -> (bindings: Result<SortedMap<BoundProducers>>)
    requires
        producers@ == config.bound_producers@,
    ensures
        ({
            let wanted = standalone_bindings(config, node.depends_on.consumer_slots());
            match bindings {
                Ok(bindings) => bindings_distinct(wanted) && slot_setup::bound_sets(bindings@)
                    == wanted,
                Err(error) => !bindings_distinct(wanted) && exists|link_id: Seq<char>| #[trigger]
                    first_repetitive(wanted, link_id, error@),
            }
        }),
{
    let ghost slots = node.depends_on.consumer_slots();
    let ghost wanted = standalone_bindings(config, slots);
    let mut bindings: SortedMap<BoundProducers> = SortedMap::new();
    let count: usize = producers.len();
    let ghost keys = producers.keys();
    let mut n: usize = 0;
    while n < count
        invariant
            producers@ == config.bound_producers@,
            slots == node.depends_on.consumer_slots(),
            wanted == standalone_bindings(config, slots),
            keys == producers.keys(),
            count == keys.len(),
            n <= count,
            producers.keys_listed(),
            forall|link_id: Seq<char>| #[trigger]
                bindings@.dom().contains(link_id) <==> keys.take(n as int).contains(link_id)
                    && config::declares(slots, link_id),
            forall|link_id: Seq<char>| #[trigger]
                bindings@.dom().contains(link_id) ==> bindings@[link_id]@ == wanted[link_id]
                    && wanted[link_id].no_duplicates(),
        decreases count - n,
    {
        let key = producers.key_at(n);
        let declared: bool = is_declared(&node.depends_on.nodes, key.as_str()) || is_declared(
            &node.depends_on.contracts,
            key.as_str(),
        );
        let ghost earlier = bindings@;
        let ghost shorter = keys.take(n as int);
        let ghost longer = keys.take(n + 1);
        proof {
            lemma_declares_either(
                config::slot_views(node.depends_on.nodes@),
                config::slot_views(node.depends_on.contracts@),
                key@,
            );
            assert(longer[n as int] == key@);
            assert forall|link_id: Seq<char>|
                longer.contains(link_id) <==> shorter.contains(link_id) || link_id == key@ by {
                if longer.contains(link_id) && link_id != key@ {
                    let k = choose|k: int| 0 <= k < longer.len() && longer[k] == link_id;
                    assert(shorter[k] == link_id);
                }
                if shorter.contains(link_id) {
                    let k = choose|k: int| 0 <= k < shorter.len() && shorter[k] == link_id;
                    assert(longer[k] == link_id);
                }
            }
        }
        if declared {
            let listed = producers.value_at(n);
            match BoundProducers::try_from_list(copy_producers(listed.as_slice())) {
                Err(error) => {
                    proof {
                        assert(wanted.dom().contains(key@));
                        assert(wanted[key@] == producer::producer_views(listed@));
                        let at = choose|at: int| #[trigger]
                            producer::first_repeat(wanted[key@], at) && error@
                                == (ErrorView::DuplicateBoundProducer {
                                core_node: wanted[key@][at].core_node,
                                instance_id: wanted[key@][at].instance_id,
                            });
                        let k = choose|k: int|
                            0 <= k < at && wanted[key@].take(at)[k] == wanted[key@][at];
                        assert(wanted[key@][k] == wanted[key@][at]);
                        assert forall|other: Seq<char>| #[trigger]
                            wanted.dom().contains(other) && text::text_less(
                                other,
                                key@,
                            ) implies wanted[other].no_duplicates() by {
                            slot_setup::lemma_earlier_key(producers, n as int, other);
                            let j = choose|j: int| 0 <= j < n && #[trigger] producers.keys()[j] == other;
                            assert(shorter[j] == other);
                            assert(bindings@.dom().contains(other));
                        }
                        assert(first_repetitive(wanted, key@, error@));
                    }
                    return Err(error);
                },
                Ok(bound) => {
                    let ghost set = bound;
                    bindings.insert(key.clone(), bound);
                    proof {
                        assert(bindings@ =~= earlier.insert(key@, set));
                        assert(wanted[key@] == producer::producer_views(listed@));
                    }
                },
            }
        }
        n = n + 1;
    }
    proof {
        assert(keys.take(n as int) =~= keys);
        let sets = slot_setup::bound_sets(bindings@);
        assert forall|link_id: Seq<char>| #[trigger] sets.dom().contains(link_id) <==> #[trigger]
            wanted.dom().contains(link_id) by {
            if bindings@.dom().contains(link_id) {
                let k = choose|k: int| 0 <= k < keys.len() && keys[k] == link_id;
                assert(producers@.dom().contains(producers.keys()[k]));
            }
            if wanted.dom().contains(link_id) {
                assert(producers@.dom().contains(link_id));
                assert(keys.contains(link_id));
                assert(bindings@.dom().contains(link_id));
            }
        }
        assert(sets =~= wanted);
        assert forall|link_id: Seq<char>| #[trigger]
            wanted.dom().contains(link_id) implies wanted[link_id].no_duplicates() by {
            assert(sets.dom().contains(link_id));
        }
    }
    Ok(bindings)
}

/// Turns sources into live members in their first incarnation.
fn as_first_incarnations(sources: &Vec<ObservedSource>) -> (members: Vec<ObservedMemberState>)
    ensures
        observation::member_views(members@) == first_incarnations(sources@),
{
    let mut members: Vec<ObservedMemberState> = Vec::new();
    let mut i: usize = 0;
    while i < sources.len()
        invariant
            i <= sources@.len(),
            members@.len() == i,
            forall|j: int|
                0 <= j < i ==> (#[trigger] members@[j])@ == (MemberView {
                    source: sources@[j]@,
                    source_generation: 0,
                    source_live: true,
                }),
        decreases sources@.len() - i,
    {
        members.push(
            ObservedMemberState {
                source: sources[i].clone(),
                source_generation: 0,
                source_live: true,
            },
        );
        i = i + 1;
    }
    proof {
        assert(observation::member_views(members@) =~= first_incarnations(sources@));
    }
    members
}

/// Collects the seeds of declared observer slots.
fn collect_seeds(
    sources: &SortedMap<Vec<ObservedSource>>,
    declared: &SortedMap<Cardinality>,
    Ghost(config): Ghost<StandaloneConfig>,
) -> (seeds: SortedMap<Vec<ObservedMemberState>>)
    requires
        sources@ == config.observed_sources@,
    ensures
        slot_setup::seed_sets(seeds@) == standalone_seeds(config, declared@),
{
    let ghost wanted = standalone_seeds(config, declared@);
    let mut seeds: SortedMap<Vec<ObservedMemberState>> = SortedMap::new();
    let count: usize = sources.len();
    let ghost keys = sources.keys();
    let mut n: usize = 0;
    while n < count
        invariant
            sources@ == config.observed_sources@,
            wanted == standalone_seeds(config, declared@),
            keys == sources.keys(),
            count == keys.len(),
            n <= count,
            sources.keys_listed(),
            forall|link_id: Seq<char>| #[trigger]
                seeds@.dom().contains(link_id) <==> keys.take(n as int).contains(link_id)
                    && declared@.dom().contains(link_id),
            forall|link_id: Seq<char>| #[trigger]
                seeds@.dom().contains(link_id) ==> observation::member_views(seeds@[link_id]@)
                    == wanted[link_id],
        decreases count - n,
    {
        let key = sources.key_at(n);
        let ghost earlier = seeds@;
        let ghost shorter = keys.take(n as int);
        let ghost longer = keys.take(n + 1);
        proof {
            assert(longer[n as int] == key@);
            assert forall|link_id: Seq<char>|
                longer.contains(link_id) <==> shorter.contains(link_id) || link_id == key@ by {
                if longer.contains(link_id) && link_id != key@ {
                    let k = choose|k: int| 0 <= k < longer.len() && longer[k] == link_id;
                    assert(shorter[k] == link_id);
                }
                if shorter.contains(link_id) {
                    let k = choose|k: int| 0 <= k < shorter.len() && shorter[k] == link_id;
                    assert(longer[k] == link_id);
                }
            }
        }
        if declared.contains_key(key.as_str()) {
            let members = as_first_incarnations(sources.value_at(n));
            let ghost set = members;
            seeds.insert(key.clone(), members);
            proof {
                assert(seeds@ =~= earlier.insert(key@, set));
            }
        }
        n = n + 1;
    }
    proof {
        assert(keys.take(n as int) =~= keys);
        let sets = slot_setup::seed_sets(seeds@);
        assert forall|link_id: Seq<char>| #[trigger] sets.dom().contains(link_id) <==> #[trigger]
            wanted.dom().contains(link_id) by {
            if seeds@.dom().contains(link_id) {
                let k = choose|k: int| 0 <= k < keys.len() && keys[k] == link_id;
                assert(sources@.dom().contains(sources.keys()[k]));
            }
            if wanted.dom().contains(link_id) {
                assert(sources@.dom().contains(link_id));
                assert(keys.contains(link_id));
                assert(seeds@.dom().contains(link_id));
            }
        }
        assert(sets =~= wanted);
    }
    seeds
}

/// Applies the pins of a standalone configuration to pairing slots that start
/// unpaired. Pins of undeclared slots are ignored.
fn apply_pins(
    slots: &mut SortedMap<PeerSetState>,
    pins: &SortedMap<PeerInfo>,
    Ghost(config): Ghost<StandaloneConfig>,
    Ghost(declared): Ghost<Seq<SlotView>>,
)
    requires
        pins@ == config.peer_pins@,
        slot_setup::pairing_states(old(slots)@) == slot_setup::boot_pairings(
            Map::<Seq<char>, PairingSlotBinding>::empty(),
            declared,
        ),
    ensures
        slot_setup::pairing_states(final(slots)@) == standalone_pairings(config, declared),
{
    let ghost wanted = standalone_pairings(config, declared);
    let count: usize = pins.len();
    let ghost keys = pins.keys();
    let mut n: usize = 0;
    proof {
        assert forall|link_id: Seq<char>| #[trigger]
            slots@.dom().contains(link_id) implies slots@[link_id]@ == (PeerSetView {
            sequence: 0,
            members: Seq::empty(),
        }) by {
            assert(slot_setup::pairing_states(slots@)[link_id] == slots@[link_id]@);
            assert(slot_setup::pairing_states(slots@).dom().contains(link_id));
        }
        assert forall|link_id: Seq<char>| #[trigger]
            slots@.dom().contains(link_id) <==> config::declares(declared, link_id) by {
            assert(slot_setup::pairing_states(slots@).dom().contains(link_id)
                == slots@.dom().contains(link_id));
        }
    }
    while n < count
        invariant
            pins@ == config.peer_pins@,
            wanted == standalone_pairings(config, declared),
            keys == pins.keys(),
            count == keys.len(),
            n <= count,
            pins.keys_listed(),
            forall|link_id: Seq<char>| #[trigger]
                slots@.dom().contains(link_id) <==> config::declares(declared, link_id),
            forall|link_id: Seq<char>| #[trigger]
                slots@.dom().contains(link_id) ==> slots@[link_id]@ == (if keys.take(
                    n as int,
                ).contains(link_id) {
                    wanted[link_id]
                } else {
                    PeerSetView { sequence: 0, members: Seq::empty() }
                }),
        decreases count - n,
    {
        let key = pins.key_at(n);
        let ghost earlier = slots@;
        let ghost shorter = keys.take(n as int);
        let ghost longer = keys.take(n + 1);
        proof {
            assert(longer[n as int] == key@);
            assert forall|link_id: Seq<char>|
                longer.contains(link_id) <==> shorter.contains(link_id) || link_id == key@ by {
                if longer.contains(link_id) && link_id != key@ {
                    let k = choose|k: int| 0 <= k < longer.len() && longer[k] == link_id;
                    assert(shorter[k] == link_id);
                }
                if shorter.contains(link_id) {
                    let k = choose|k: int| 0 <= k < shorter.len() && shorter[k] == link_id;
                    assert(longer[k] == link_id);
                }
            }
        }
        if slots.contains_key(key.as_str()) {
            let mut members: Vec<PeerMember> = Vec::new();
            members.push(PeerMember { info: pins.value_at(n).clone(), copy: None });
            let state = PeerSetState { sequence: 1, members };
            let ghost pinned = state;
            proof {
                assert(pairing::peer_member_views(members@) =~= seq![
                    PeerMemberView { info: pins@[key@]@, copy: None },
                ]);
                assert(wanted.dom().contains(key@));
            }
            slots.insert(key.clone(), state);
            proof {
                assert(slots@ =~= earlier.insert(key@, pinned));
            }
        }
        n = n + 1;
    }
    proof {
        assert(keys.take(n as int) =~= keys);
        let states = slot_setup::pairing_states(slots@);
        assert forall|link_id: Seq<char>| #[trigger] states.dom().contains(link_id) <==> #[trigger]
            wanted.dom().contains(link_id) by {
            assert(slots@.dom().contains(link_id) <==> config::declares(declared, link_id));
        }
        assert forall|link_id: Seq<char>| #[trigger]
            states.dom().contains(link_id) implies states[link_id] == wanted[link_id] by {
            assert(slots@.dom().contains(link_id));
            if !keys.contains(link_id) {
                assert(!pins@.dom().contains(link_id));
            } else {
                let k = choose|k: int| 0 <= k < keys.len() && keys[k] == link_id;
                assert(pins@.dom().contains(pins.keys()[k]));
            }
        }
        assert(states =~= wanted);
    }
}

impl<A> Processor<A> {
    /// Resolves a node launched by a daemon from its launch configuration and its
    /// manifest. `arguments` are the launch arguments checked against the
    /// manifest's parameter schema.
    pub fn daemon_from_manifest(
        runtime_config: RuntimeConfig,
        node_config: NodeConfig,
        arguments: Result<A>,
    ) -> (processor: Result<Self>)
        ensures
            processor is Ok <==> arguments is Ok && slots_accepted(
                node_config,
                slot_setup::bound_sets(runtime_config.node_instance.slot_bindings@),
                slot_setup::seed_sets(runtime_config.node_instance.observation_seeds@),
            ),
            processor matches Ok(processor) ==> {
                &&& processor@.instance_id == runtime_config.node_instance.instance_id@
                &&& processor@.core_node == runtime_config.bound_core_node@
                &&& processor@.node_name == runtime_config.node_name@
                &&& processor@.node_tag == runtime_config.node_tag@
                &&& processor@.messaging_host == runtime_config.messaging_host@
                &&& processor@.messaging_port == runtime_config.messaging_port
                &&& processor@.lifecycle == runtime_config.lifecycle
                &&& processor@.use_sim_time == runtime_config.node_instance.framework.use_sim_time
                &&& processor@.sim_time_source == participants_of(
                    runtime_config.node_instance.framework.sim_time_source,
                )
            },
            match processor {
                Ok(processor) => processor@ == daemon_view(
                    runtime_config,
                    node_config,
                    arguments->Ok_0,
                ),
                Err(error) => match arguments {
                    Err(refusal) => error@ == refusal@,
                    Ok(_) => slots_refused(
                        node_config,
                        slot_setup::bound_sets(runtime_config.node_instance.slot_bindings@),
                        slot_setup::seed_sets(runtime_config.node_instance.observation_seeds@),
                        error@,
                    ),
                },
            },
    {
        let arguments = match arguments {
            Ok(arguments) => arguments,
            Err(error) => {
                return Err(error);
            },
        };
        let bound_producers = match build_bound_producers(
            &runtime_config.node_instance.slot_bindings,
            &node_config.depends_on,
        ) {
            Ok(bound) => bound,
            Err(error) => {
                return Err(error);
            },
        };
        let pairing_slots = build_pairing_slots(
            &runtime_config.node_instance.pairing_slots,
            &node_config.depends_on.pairings,
        );
        let pairing_cardinalities = build_cardinalities(&node_config.depends_on.pairings);
        let observation_cardinalities = build_cardinalities(
            &node_config.depends_on.pairing_observers,
        );
        let observation_slots = match build_observation_slots(
            &runtime_config.node_instance.observation_seeds,
            &observation_cardinalities,
        ) {
            Ok(slots) => slots,
            Err(error) => {
                return Err(error);
            },
        };
        Ok(
            Processor {
                runtime_config,
                arguments,
                bound_producers,
                pairing_slots,
                pairing_cardinalities,
                observation_slots,
                observation_cardinalities,
            },
        )
    }

    /// Resolves a node that runs without a daemon from its manifest and a
    /// standalone configuration.
    pub fn standalone_from_manifest(
        node_config: &NodeConfig,
        config: &StandaloneConfig,
        checks: StandaloneChecks<A>,
    ) -> (processor: Result<Self>)
        requires
            checks.participants@.len() == config.sim_time_participants@.len(),
        ensures
            processor is Ok <==> standalone_accepted(*node_config, *config, checks),
            match processor {
                Ok(processor) => processor@ == standalone_view(*node_config, *config, checks),
                Err(error) => standalone_refused(*node_config, *config, checks, error@),
            },
    {
        let ghost given = checks;
        let StandaloneChecks { arguments, instance_id: verdict, participants, lifecycle } = checks;
        let arguments = match arguments {
            Ok(arguments) => arguments,
            Err(error) => {
                return Err(error);
            },
        };
        let node_name: String = match &config.node_name {
            Some(name) => name.clone(),
            None => node_config.name.clone(),
        };
        let instance_id: String = config.instance_id_or_default();
        if let Err(reason) = verdict {
            return Err(Error::InvalidNodeName { node_name: instance_id, reason });
        }
        let slot_bindings = match collect_bindings(
            &config.bound_producers,
            node_config,
            Ghost(*config),
        ) {
            Ok(bindings) => bindings,
            Err(error) => {
                return Err(error);
            },
        };
        let observation_cardinalities = build_cardinalities(
            &node_config.depends_on.pairing_observers,
        );
        let observation_seeds = collect_seeds(
            &config.observed_sources,
            &observation_cardinalities,
            Ghost(*config),
        );
        let resolved = standalone_sim_time_source(&config.sim_time_participants, &participants);
        let sim_time_source: Option<SimTimeParticipants> = match resolved {
            Ok(source) => {
                proof {
                    if config.sim_time_participants@.len() == 0 {
                        assert(text::texts(config.sim_time_participants@).len() == 0);
                    }
                    assert(participants_accepted(
                        config.sim_time_participants@,
                        given.participants@,
                    ));
                }
                if config.use_sim_time {
                    source
                } else {
                    None
                }
            },
            Err(error) => {
                proof {
                    lemma_participants_refused(
                        config.sim_time_participants@,
                        given.participants@,
                        error@,
                    );
                }
                return Err(error);
            },
        };
        let lifecycle: LifecycleConfig = match lifecycle {
            Ok(lifecycle) => lifecycle,
            Err(error) => {
                return Err(error);
            },
        };
        let mut node_instance = NodeInstanceConfig::new(instance_id);
        node_instance.slot_bindings = slot_bindings;
        node_instance.observation_seeds = observation_seeds;
        node_instance.framework = ResolvedFramework {
            use_sim_time: config.use_sim_time,
            sim_time_source,
        };
        let runtime_config = RuntimeConfig {
            messaging_host: config.messaging_host_or_default(),
            messaging_port: config.messaging_port_or_default(),
            node_instance,
            node_name,
            node_tag: node_config.tag.clone(),
            bound_core_node: STANDALONE_CORE_NODE.to_owned(),
            lifecycle,
        };
        let bound_producers = match build_bound_producers(
            &runtime_config.node_instance.slot_bindings,
            &node_config.depends_on,
        ) {
            Ok(bound) => bound,
            Err(error) => {
                return Err(error);
            },
        };
        let mut pairing_slots = build_pairing_slots(
            &runtime_config.node_instance.pairing_slots,
            &node_config.depends_on.pairings,
        );
        let pairing_cardinalities = build_cardinalities(&node_config.depends_on.pairings);
        let observation_slots = match build_observation_slots(
            &runtime_config.node_instance.observation_seeds,
            &observation_cardinalities,
        ) {
            Ok(slots) => slots,
            Err(error) => {
                return Err(error);
            },
        };
        apply_pins(
            &mut pairing_slots,
            &config.peer_pins,
            Ghost(*config),
            Ghost(config::slot_views(node_config.depends_on.pairings@)),
        );
        Ok(
            Processor {
                runtime_config,
                arguments,
                bound_producers,
                pairing_slots,
                pairing_cardinalities,
                observation_slots,
                observation_cardinalities,
            },
        )
    }
}

proof fn lemma_participants_refused(
    core_nodes: Seq<String>,
    verdicts: Seq<std::result::Result<(), String>>,
    error: ErrorView,
)
    requires
        participants_refused(core_nodes, verdicts, error),
    ensures
        !participants_accepted(core_nodes, verdicts),
{
    if participants_accepted(core_nodes, verdicts) {
        let names = text::texts(core_nodes);
        if exists|at: int| slot_setup::first_invalid(verdicts, at) {
            let at = choose|at: int| slot_setup::first_invalid(verdicts, at);
            assert(verdicts[at] is Err);
        }
        let at = choose|at: int| #[trigger]
            slot_setup::first_repeated_name(names, at) && error
                == (ErrorView::DuplicateSimTimeParticipant { core_node: core_nodes[at]@ });
        let k = choose|k: int| 0 <= k < at && names.take(at)[k] == names[at];
        assert(names[k] == names[at]);
    }
}

/// What is said when generated code asks for a slot that startup did not resolve.
pub open spec fn unknown_slot_text(link_id: Seq<char>) -> Seq<char> {
    "consumer slot `"@ + link_id
        + "` has no cached producer set: the generated code and the manifest disagree (version skew / stale codegen) — regenerate bindings for this node"@
}

/// What is said when generated code asks for a slot through an accessor that its
/// set of `size` producers does not fit.
pub open spec fn misfit_text(link_id: Seq<char>, size: nat, cardinality: Seq<char>) -> Seq<char> {
    "consumer slot `"@ + link_id + "` is bound to "@ + text::decimal(size)
        + " producers but the generated accessor expects cardinality `"@ + cardinality
        + "`: the generated code and the manifest disagree (version skew / stale codegen); regenerate bindings for this node"@
}

/// What is said when generated code expects producers where none are bound.
pub open spec fn empty_set_text(link_id: Seq<char>) -> Seq<char> {
    "consumer slot `"@ + link_id
        + "` is bound to an empty set but the generated accessor expects cardinality `one_or_more`: the generated code and the manifest disagree (version skew / stale codegen); regenerate bindings for this node"@
}

fn unknown_slot_message(link_id: &str) -> (message: String)
    ensures
        message@ == unknown_slot_text(link_id@),
{
    let mut message = "consumer slot `".to_owned();
    message.append(link_id);
    message.append(
        "` has no cached producer set: the generated code and the manifest disagree (version skew / stale codegen) — regenerate bindings for this node",
    );
    message
}

fn misfit_message(link_id: &str, size: usize, cardinality: &str) -> (message: String)
    ensures
        message@ == misfit_text(link_id@, size as nat, cardinality@),
{
    let mut message = "consumer slot `".to_owned();
    message.append(link_id);
    message.append("` is bound to ");
    message.append(decimal_text(size as u64).as_str());
    message.append(" producers but the generated accessor expects cardinality `");
    message.append(cardinality);
    message.append(
        "`: the generated code and the manifest disagree (version skew / stale codegen); regenerate bindings for this node",
    );
    message
}

fn empty_set_message(link_id: &str) -> (message: String)
    ensures
        message@ == empty_set_text(link_id@),
{
    let mut message = "consumer slot `".to_owned();
    message.append(link_id);
    message.append(
        "` is bound to an empty set but the generated accessor expects cardinality `one_or_more`: the generated code and the manifest disagree (version skew / stale codegen); regenerate bindings for this node",
    );
    message
}

impl<A> Processor<A> {
    /// The producers bound to the declared consumer slot `link_id`, in declaration
    /// order.
    pub fn bound_producers(&self, link_id: &str) -> (producers: &[ProducerRef])
        requires
            self@.bound.dom().contains(link_id@),
        ensures
            producer::producer_views(producers@) == self@.bound[link_id@],
            self@.bound[link_id@].no_duplicates(),
    {
        proof {
            assert(self.bound_producers@.dom().contains(link_id@));
        }
        self.bound_producers.get(link_id).unwrap().as_slice()
    }

    /// The sole producer bound to a `one` slot.
    pub fn sole_bound_producer(&self, link_id: &str) -> (sole: &ProducerRef)
        requires
            self@.bound.dom().contains(link_id@),
            self@.bound[link_id@].len() == 1,
        ensures
            self@.bound[link_id@] == seq![sole@],
    {
        let producers = self.bound_producers(link_id);
        proof {
            assert(producer::producer_views(producers@).len() == producers@.len());
            assert(self@.bound[link_id@] =~= seq![producers@[0]@]);
        }
        &producers[0]
    }

    /// The producer bound to a `zero_or_one` slot, if any is.
    pub fn optional_bound_producer(&self, link_id: &str) -> (sole: Option<&ProducerRef>)
        requires
            self@.bound.dom().contains(link_id@),
            self@.bound[link_id@].len() <= 1,
        ensures
            match sole {
                Some(sole) => self@.bound[link_id@] == seq![sole@],
                None => self@.bound[link_id@].len() == 0,
            },
    {
        let producers = self.bound_producers(link_id);
        proof {
            assert(producer::producer_views(producers@).len() == producers@.len());
        }
        if producers.len() == 0 {
            None
        } else {
            proof {
                assert(self@.bound[link_id@] =~= seq![producers@[0]@]);
            }
            Some(&producers[0])
        }
    }

    /// The producers bound to a `one_or_more` slot.
    pub fn non_empty_bound_producers(&self, link_id: &str) -> (set: NonEmptyProducers<'_>)
        requires
            self@.bound.dom().contains(link_id@),
            self@.bound[link_id@].len() > 0,
        ensures
            set@ == self@.bound[link_id@],
    {
        let producers = self.bound_producers(link_id);
        proof {
            assert(producer::producer_views(producers@).len() == producers@.len());
        }
        NonEmptyProducers::new(producers).unwrap()
    }

    /// The producers bound to `link_id`, or what to say when the slot is unknown:
    /// the generated code and the manifest disagree then.
    pub fn read_bound_producers(&self, link_id: &str) -> (read: std::result::Result<
        &[ProducerRef],
        String,
    >)
        ensures
            match read {
                Ok(producers) => self@.bound.dom().contains(link_id@) && producer::producer_views(
                    producers@,
                ) == self@.bound[link_id@],
                Err(message) => !self@.bound.dom().contains(link_id@) && message@
                    == unknown_slot_text(link_id@),
            },
    {
        if self.bound_producers.contains_key(link_id) {
            Ok(self.bound_producers(link_id))
        } else {
            Err(unknown_slot_message(link_id))
        }
    }

    /// The sole producer bound to `link_id`, or what to say when there is not
    /// exactly one.
    pub fn read_sole_bound_producer(&self, link_id: &str) -> (read: std::result::Result<
        &ProducerRef,
        String,
    >)
        ensures
            match read {
                Ok(sole) => self@.bound.dom().contains(link_id@) && self@.bound[link_id@] == seq![
                    sole@,
                ],
                Err(message) => if self@.bound.dom().contains(link_id@) {
                    self@.bound[link_id@].len() != 1 && message@ == misfit_text(
                        link_id@,
                        self@.bound[link_id@].len(),
                        "one"@,
                    )
                } else {
                    message@ == unknown_slot_text(link_id@)
                },
            },
    {
        match self.read_bound_producers(link_id) {
            Err(message) => Err(message),
            Ok(producers) => {
                proof {
                    assert(producer::producer_views(producers@).len() == producers@.len());
                }
                if producers.len() == 1 {
                    Ok(self.sole_bound_producer(link_id))
                } else {
                    Err(misfit_message(link_id, producers.len(), "one"))
                }
            },
        }
    }

    /// The producer bound to `link_id`, if any is, or what to say when there are
    /// several.
    pub fn read_optional_bound_producer(&self, link_id: &str) -> (read: std::result::Result<
        Option<&ProducerRef>,
        String,
    >)
        ensures
            match read {
                Ok(sole) => self@.bound.dom().contains(link_id@) && match sole {
                    Some(sole) => self@.bound[link_id@] == seq![sole@],
                    None => self@.bound[link_id@].len() == 0,
                },
                Err(message) => if self@.bound.dom().contains(link_id@) {
                    self@.bound[link_id@].len() > 1 && message@ == misfit_text(
                        link_id@,
                        self@.bound[link_id@].len(),
                        "zero_or_one"@,
                    )
                } else {
                    message@ == unknown_slot_text(link_id@)
                },
            },
    {
        match self.read_bound_producers(link_id) {
            Err(message) => Err(message),
            Ok(producers) => {
                proof {
                    assert(producer::producer_views(producers@).len() == producers@.len());
                }
                if producers.len() <= 1 {
                    Ok(self.optional_bound_producer(link_id))
                } else {
                    Err(misfit_message(link_id, producers.len(), "zero_or_one"))
                }
            },
        }
    }

    /// The producers bound to `link_id`, or what to say when there are none.
    pub fn read_non_empty_bound_producers(&self, link_id: &str) -> (read: std::result::Result<
        NonEmptyProducers<'_>,
        String,
    >)
        ensures
            match read {
                Ok(set) => self@.bound.dom().contains(link_id@) && set@ == self@.bound[link_id@]
                    && set@.len() > 0,
                Err(message) => if self@.bound.dom().contains(link_id@) {
                    self@.bound[link_id@].len() == 0 && message@ == empty_set_text(link_id@)
                } else {
                    message@ == unknown_slot_text(link_id@)
                },
            },
    {
        match self.read_bound_producers(link_id) {
            Err(message) => Err(message),
            Ok(producers) => {
                proof {
                    assert(producer::producer_views(producers@).len() == producers@.len());
                }
                if producers.len() == 0 {
                    Err(empty_set_message(link_id))
                } else {
                    Ok(self.non_empty_bound_producers(link_id))
                }
            },
        }
    }

    /// Checks that `target` is bound to the declared slot `link_id`. A producer
    /// bound to another slot does not count.
    pub fn ensure_target_bound(&self, link_id: &str, target: &ProducerRef) -> (checked: Result<()>)
        requires
            self@.bound.dom().contains(link_id@),
        ensures
            match checked {
                Ok(_) => self@.bound[link_id@].contains(target@),
                Err(error) => !self@.bound[link_id@].contains(target@) && error@
                    == (ErrorView::TargetNotBound {
                    link_id: link_id@,
                    core_node: target@.core_node,
                    instance_id: target@.instance_id,
                }),
            },
    {
        if contains_producer(self.bound_producers(link_id), target) {
            return Ok(());
        }
        Err(
            Error::TargetNotBound {
                link_id: link_id.to_owned(),
                core_node: target.core_node.clone(),
                instance_id: target.instance_id.clone(),
            },
        )
    }

    /// The state that the pairing slot `link_id` starts with, if it is declared.
    pub fn peer_pin_watch(&self, link_id: &str) -> (state: Option<&PeerSetState>)
        ensures
            match state {
                Some(state) => self@.pairings.dom().contains(link_id@) && state@
                    == self@.pairings[link_id@],
                None => !self@.pairings.dom().contains(link_id@),
            },
    {
        self.pairing_slots.get(link_id)
    }

    /// The declared cardinality of the pairing slot `link_id`, if it is declared.
    pub fn pairing_slot_cardinality(&self, link_id: &str) -> (cardinality: Option<Cardinality>)
        ensures
            match cardinality {
                Some(cardinality) => self@.pairing_cardinalities.dom().contains(link_id@)
                    && cardinality == self@.pairing_cardinalities[link_id@],
                None => !self@.pairing_cardinalities.dom().contains(link_id@),
            },
    {
        match self.pairing_cardinalities.get(link_id) {
            Some(cardinality) => Some(*cardinality),
            None => None,
        }
    }

    /// The states that all pairing slots start with.
    pub fn pairing_slot_senders(&self) -> (slots: &SortedMap<PeerSetState>)
        ensures
            slot_setup::pairing_states(slots@) == self@.pairings,
    {
        &self.pairing_slots
    }

    /// The state that the observer slot `link_id` starts with, if it is declared.
    pub fn observation_slot_watch(&self, link_id: &str) -> (state: Option<&ObservationState>)
        ensures
            match state {
                Some(state) => self@.observations.dom().contains(link_id@) && state@
                    == self@.observations[link_id@],
                None => !self@.observations.dom().contains(link_id@),
            },
    {
        self.observation_slots.get(link_id)
    }

    /// The declared cardinality of the observer slot `link_id`, if it is declared.
    pub fn observation_slot_cardinality(&self, link_id: &str) -> (cardinality: Option<Cardinality>)
        ensures
            match cardinality {
                Some(cardinality) => self@.observation_cardinalities.dom().contains(link_id@)
                    && cardinality == self@.observation_cardinalities[link_id@],
                None => !self@.observation_cardinalities.dom().contains(link_id@),
            },
    {
        match self.observation_cardinalities.get(link_id) {
            Some(cardinality) => Some(*cardinality),
            None => None,
        }
    }

    /// The states that all observer slots start with.
    pub fn observation_slot_senders(&self) -> (slots: &SortedMap<ObservationState>)
        ensures
            slot_setup::observation_states(slots@) == self@.observations,
    {
        &self.observation_slots
    }

    /// What a subscription to the observer slot `link_id` starts from.
    pub fn subscribe_observed(&self, link_id: &str) -> (state: Result<&ObservationState>)
        ensures
            match state {
                Ok(state) => self@.observations.dom().contains(link_id@) && state@
                    == self@.observations[link_id@],
                Err(error) => !self@.observations.dom().contains(link_id@) && error@
                    == (ErrorView::UnknownObservationSlot { link_id: link_id@ }),
            },
    {
        match self.observation_slot_watch(link_id) {
            Some(state) => Ok(state),
            None => Err(Error::UnknownObservationSlot { link_id: link_id.to_owned() }),
        }
    }

    /// What a subscription to, or a publisher on, the pairing slot `link_id` starts
    /// from.
    pub fn subscribe_peer(&self, link_id: &str) -> (state: Result<&PeerSetState>)
        ensures
            match state {
                Ok(state) => self@.pairings.dom().contains(link_id@) && state@
                    == self@.pairings[link_id@],
                Err(error) => !self@.pairings.dom().contains(link_id@) && error@
                    == (ErrorView::UnknownPairingSlot { link_id: link_id@ }),
            },
    {
        match self.peer_pin_watch(link_id) {
            Some(state) => Ok(state),
            None => Err(Error::UnknownPairingSlot { link_id: link_id.to_owned() }),
        }
    }

    /// Checks that the manifest at `path` is the one the bindings were generated
    /// from.
    pub fn validate_fingerprint(path: &str, expected: &str, actual: &str) -> (checked: Result<()>)
        ensures
            match checked {
                Ok(_) => actual@ == expected@,
                Err(error) => actual@ != expected@ && error@
                    == (ErrorView::PeppyConfigFingerprintMismatch {
                    path: path@,
                    expected: expected@,
                    actual: actual@,
                }),
            },
    {
        if text_eq(actual, expected) {
            return Ok(());
        }
        Err(
            Error::PeppyConfigFingerprintMismatch {
                path: path.to_owned(),
                expected: expected.to_owned(),
                actual: actual.to_owned(),
            },
        )
    }

    /// The instance id.
    pub fn bound_instance_id(&self) -> (instance_id: &str)
        ensures
            instance_id@ == self@.instance_id,
    {
        self.runtime_config.node_instance.instance_id.as_str()
    }

    /// The core node.
    pub fn bound_core_node(&self) -> (core_node: &str)
        ensures
            core_node@ == self@.core_node,
    {
        self.runtime_config.bound_core_node.as_str()
    }

    /// The validated arguments.
    pub fn input_arguments(&self) -> (arguments: &A)
        ensures
            *arguments == self@.arguments,
    {
        &self.arguments
    }

    /// The node's name.
    pub fn node_name(&self) -> (node_name: &str)
        ensures
            node_name@ == self@.node_name,
    {
        self.runtime_config.node_name.as_str()
    }

    /// The node's tag.
    pub fn node_tag(&self) -> (node_tag: &str)
        ensures
            node_tag@ == self@.node_tag,
    {
        self.runtime_config.node_tag.as_str()
    }

    /// The messaging host.
    pub fn messaging_host(&self) -> (host: &str)
        ensures
            host@ == self@.messaging_host,
    {
        self.runtime_config.messaging_host.as_str()
    }

    /// The messaging port.
    pub fn messaging_port(&self) -> (port: u16)
        ensures
            port == self@.messaging_port,
    {
        self.runtime_config.messaging_port
    }

    /// How long, in nanoseconds, the node outlives its daemon.
    pub fn daemon_grace(&self) -> (grace: u128)
        ensures
            grace == self@.lifecycle.daemon_grace_secs * 1_000_000_000,
    {
        self.runtime_config.lifecycle.daemon_grace_secs as u128 * 1_000_000_000
    }

    /// How long, in nanoseconds, the node may take to stop.
    pub fn shutdown_grace(&self) -> (grace: u128)
        ensures
            grace == self@.lifecycle.shutdown_grace_secs * 1_000_000_000,
    {
        self.runtime_config.lifecycle.shutdown_grace_secs as u128 * 1_000_000_000
    }

    /// Whether the node runs on simulated time.
    pub fn use_sim_time(&self) -> (use_sim_time: bool)
        ensures
            use_sim_time == self@.use_sim_time,
    {
        self.runtime_config.node_instance.framework.use_sim_time
    }

    /// The core nodes the node publishes simulated time to, if it is a source.
    pub fn sim_time_source(&self) -> (source: Option<&SimTimeParticipants>)
        ensures
            match source {
                Some(source) => self@.sim_time_source == Some(text::texts(source.core_nodes@)),
                None => self@.sim_time_source is None,
            },
    {
        match &self.runtime_config.node_instance.framework.sim_time_source {
            Some(source) => Some(source),
            None => None,
        }
    }
}

/// A node that started finds, behind each slot its manifest declares, a set of
/// producers that fits the accessor generated for the slot.
pub proof fn law_started_node_fits_its_manifest<A>(
    runtime: RuntimeConfig,
    node: NodeConfig,
    arguments: A,
    at: int,
)
    requires
        slots_accepted(
            node,
            slot_setup::bound_sets(runtime.node_instance.slot_bindings@),
            slot_setup::seed_sets(runtime.node_instance.observation_seeds@),
        ),
        0 <= at < node.depends_on.consumer_slots().len(),
    ensures
        ({
            let slot = node.depends_on.consumer_slots()[at];
            let bound = daemon_view(runtime, node, arguments).bound;
            &&& bound.dom().contains(slot.link_id)
            &&& match slot.cardinality {
                Cardinality::One => bound[slot.link_id].len() == 1,
                Cardinality::ZeroOrOne => bound[slot.link_id].len() <= 1,
                Cardinality::OneOrMore => bound[slot.link_id].len() > 0,
                Cardinality::ZeroOrMore => true,
            }
        }),
{
    slot_setup::law_resolved_sets_fit_their_slots(
        slot_setup::bound_sets(runtime.node_instance.slot_bindings@),
        node.depends_on.consumer_slots(),
        at,
    );
}

/// A standalone node resolves its slots as a launched node does: a launch
/// configuration with the same bindings and seeds resolves to the same consumer
/// and observer slots.
pub proof fn law_standalone_resolves_like_a_launch<A>(
    node: NodeConfig,
    config: StandaloneConfig,
    checks: StandaloneChecks<A>,
    runtime: RuntimeConfig,
    arguments: A,
)
    requires
        slot_setup::bound_sets(runtime.node_instance.slot_bindings@) == standalone_bindings(
            config,
            node.depends_on.consumer_slots(),
        ),
        slot_setup::seed_sets(runtime.node_instance.observation_seeds@) == standalone_seeds(
            config,
            slot_setup::declared_cardinalities(
                config::slot_views(node.depends_on.pairing_observers@),
            ),
        ),
    ensures
        standalone_view(node, config, checks).bound == daemon_view(runtime, node, arguments).bound,
        standalone_view(node, config, checks).observations == daemon_view(
            runtime,
            node,
            arguments,
        ).observations,
        standalone_accepted(node, config, checks) ==> slots_accepted(
            node,
            slot_setup::bound_sets(runtime.node_instance.slot_bindings@),
            slot_setup::seed_sets(runtime.node_instance.observation_seeds@),
        ),
{
}

/// A launched node is what its launch configuration says: each of its settings is the
/// one written there, and its arguments are those that were checked.
pub proof fn law_launched_node_is_what_its_launch_says<A>(
    runtime: RuntimeConfig,
    node: NodeConfig,
    arguments: A,
)
    ensures
        ({
            let started = daemon_view(runtime, node, arguments);
            let framework = runtime.node_instance.framework;
            &&& started.arguments == arguments
            &&& started.instance_id == runtime.node_instance.instance_id@
            &&& started.core_node == runtime.bound_core_node@
            &&& started.node_name == runtime.node_name@
            &&& started.node_tag == runtime.node_tag@
            &&& started.messaging_host == runtime.messaging_host@
            &&& started.messaging_port == runtime.messaging_port
            &&& started.lifecycle.daemon_grace_secs == runtime.lifecycle.daemon_grace_secs
            &&& started.lifecycle.shutdown_grace_secs == runtime.lifecycle.shutdown_grace_secs
            &&& started.use_sim_time == framework.use_sim_time
            &&& match framework.sim_time_source {
                None => started.sim_time_source is None,
                Some(source) => started.sim_time_source matches Some(names) && names.len()
                    == source.core_nodes@.len() && forall|i: int|
                    0 <= i < names.len() ==> #[trigger] names[i] == source.core_nodes@[i]@,
            }
        }),
{
}

/// The slots of a launched node are those of its manifest. A consumed slot has the
/// producers that its launch binds to it, a pairing slot the pair that its launch
/// gives it, an observer slot the members that its launch seeds, each where there is
/// any; and pairing and observer slots have the cardinality declared last.
pub proof fn law_launched_node_has_its_slots<A>(
    runtime: RuntimeConfig,
    node: NodeConfig,
    arguments: A,
    link_id: Seq<char>,
)
    ensures
        ({
            let started = daemon_view(runtime, node, arguments);
            let launch = runtime.node_instance;
            let deps = node.depends_on;
            &&& started.bound.dom().contains(link_id) <==> (exists|i: int|
                0 <= i < deps.nodes@.len() && (#[trigger] deps.nodes@[i]).link_id@ == link_id) || (
            exists|i: int|
                0 <= i < deps.contracts@.len() && (#[trigger] deps.contracts@[i]).link_id@ == link_id)
            &&& started.bound.dom().contains(link_id) ==> started.bound[link_id] == (
            if launch.slot_bindings@.dom().contains(link_id) {
                launch.slot_bindings@[link_id]@
            } else {
                Seq::empty()
            })
            &&& started.pairings.dom().contains(link_id) <==> (exists|i: int|
                0 <= i < deps.pairings@.len() && (#[trigger] deps.pairings@[i]).link_id@ == link_id)
            &&& started.pairings.dom().contains(link_id) ==> started.pairings[link_id].sequence == 0
                && if launch.pairing_slots@.dom().contains(link_id) {
                match launch.pairing_slots@[link_id] {
                    PairingSlotBinding::Unpaired => started.pairings[link_id].members.len() == 0,
                    PairingSlotBinding::Paired { peer, peer_link_id } => {
                        let members = started.pairings[link_id].members;
                        &&& members.len() == 1
                        &&& members[0].info.producer.core_node == peer.core_node@
                        &&& members[0].info.producer.instance_id == peer.instance_id@
                        &&& members[0].info.peer_link_id == peer_link_id@
                        &&& members[0].copy is None
                    },
                }
            } else {
                started.pairings[link_id].members.len() == 0
            }
            &&& started.pairing_cardinalities.dom() == started.pairings.dom()
            &&& started.observations.dom().contains(link_id) <==> (exists|i: int|
                0 <= i < deps.pairing_observers@.len() && (#[trigger] deps.pairing_observers@[i]).link_id@
                    == link_id)
            &&& started.observations.dom().contains(link_id) ==> started.observations[link_id].sequence
                == 0 && started.observations[link_id].members == (
            if launch.observation_seeds@.dom().contains(link_id) {
                observation::member_views(launch.observation_seeds@[link_id]@)
            } else {
                Seq::empty()
            })
            &&& started.observation_cardinalities.dom() == started.observations.dom()
        }),
{
    let deps = node.depends_on;
    let started = daemon_view(runtime, node, arguments);
    config::law_declared_link_ids(deps.nodes@, link_id);
    config::law_declared_link_ids(deps.contracts@, link_id);
    config::law_declared_link_ids(deps.pairings@, link_id);
    config::law_declared_link_ids(deps.pairing_observers@, link_id);
    lemma_declares_either(
        config::slot_views(deps.nodes@),
        config::slot_views(deps.contracts@),
        link_id,
    );
    let observers = config::slot_views(deps.pairing_observers@);
    slot_setup::law_slot_has_its_declared_cardinality(observers, link_id, 0);
    assert forall|other: Seq<char>| started.pairing_cardinalities.dom().contains(other)
        == started.pairings.dom().contains(other) by {
        slot_setup::law_slot_has_its_declared_cardinality(
            config::slot_views(deps.pairings@),
            other,
            0,
        );
    }
    assert(started.pairing_cardinalities.dom() =~= started.pairings.dom());
    assert(started.observation_cardinalities.dom() =~= started.observations.dom());
}

/// The cardinality of a pairing or observer slot is the one in the manifest: where a
/// link id is declared once, that declaration's.
pub proof fn law_launched_slots_have_their_cardinality<A>(
    runtime: RuntimeConfig,
    node: NodeConfig,
    arguments: A,
    at: int,
)
    ensures
        0 <= at < node.depends_on.pairings@.len() && (forall|j: int|
            at < j < node.depends_on.pairings@.len() ==> (
            #[trigger] node.depends_on.pairings@[j]).link_id@ != node.depends_on.pairings@[at].link_id@)
            ==> daemon_view(runtime, node, arguments).pairing_cardinalities[node.depends_on.pairings@[at].link_id@]
            == node.depends_on.pairings@[at].cardinality,
        0 <= at < node.depends_on.pairing_observers@.len() && (forall|j: int|
            at < j < node.depends_on.pairing_observers@.len() ==> (
            #[trigger] node.depends_on.pairing_observers@[j]).link_id@
                != node.depends_on.pairing_observers@[at].link_id@) ==> daemon_view(
            runtime,
            node,
            arguments,
        ).observation_cardinalities[node.depends_on.pairing_observers@[at].link_id@]
            == node.depends_on.pairing_observers@[at].cardinality,
{
    let pairings = config::slot_views(node.depends_on.pairings@);
    let observers = config::slot_views(node.depends_on.pairing_observers@);
    if 0 <= at < pairings.len() {
        assert(pairings[at] == node.depends_on.pairings@[at]@);
        slot_setup::law_slot_has_its_declared_cardinality(pairings, pairings[at].link_id, at);
    }
    if 0 <= at < observers.len() {
        assert(observers[at] == node.depends_on.pairing_observers@[at]@);
        slot_setup::law_slot_has_its_declared_cardinality(observers, observers[at].link_id, at);
    }
}

/// A standalone node is what its configuration says, with the manifest and the
/// documented defaults behind it: the name and tag of the manifest, the instance id
/// `standalone`, the messaging address 127.0.0.1:7448. It runs under the core node of
/// all standalone nodes, and is a source of simulated time only when it runs on it.
pub proof fn law_standalone_node_is_what_its_configuration_says<A>(
    node: NodeConfig,
    config: StandaloneConfig,
    checks: StandaloneChecks<A>,
)
    ensures
        ({
            let started = standalone_view(node, config, checks);
            &&& checks.arguments matches Ok(arguments) ==> started.arguments == arguments
            &&& checks.lifecycle matches Ok(lifecycle) ==> started.lifecycle == lifecycle
            &&& started.core_node == "standalone-core"@
            &&& started.instance_id == match config.instance_id {
                Some(id) => id@,
                None => "standalone"@,
            }
            &&& started.node_name == match config.node_name {
                Some(name) => name@,
                None => node.name@,
            }
            &&& started.node_tag == node.tag@
            &&& started.messaging_host == match config.messaging_host {
                Some(host) => host@,
                None => "127.0.0.1"@,
            }
            &&& started.messaging_port == match config.messaging_port {
                Some(port) => port,
                None => 7448,
            }
            &&& started.use_sim_time == config.use_sim_time
            &&& started.sim_time_source is Some <==> config.use_sim_time
                && config.sim_time_participants@.len() > 0
            &&& started.sim_time_source matches Some(names) ==> names.len()
                == config.sim_time_participants@.len() && forall|i: int|
                0 <= i < names.len() ==> #[trigger] names[i] == config.sim_time_participants@[i]@
        }),
{
}

/// The slots of a standalone node are those of its manifest. A consumed slot has the
/// producers that were added for it, an observer slot the sources that were added for
/// it, live and in their first incarnation, and a pairing slot the peer it is pinned
/// to, each where there is any; what was added for other link ids is left out. A
/// pinned pair counts as one delivery.
pub proof fn law_standalone_node_has_its_slots<A>(
    node: NodeConfig,
    config: StandaloneConfig,
    checks: StandaloneChecks<A>,
    link_id: Seq<char>,
)
    ensures
        ({
            let started = standalone_view(node, config, checks);
            let deps = node.depends_on;
            &&& started.bound.dom().contains(link_id) <==> (exists|i: int|
                0 <= i < deps.nodes@.len() && (#[trigger] deps.nodes@[i]).link_id@ == link_id) || (
            exists|i: int|
                0 <= i < deps.contracts@.len() && (#[trigger] deps.contracts@[i]).link_id@ == link_id)
            &&& started.bound.dom().contains(link_id) ==> started.bound[link_id] == (
            if config.bound_producers@.dom().contains(link_id) {
                producer::producer_views(config.bound_producers@[link_id]@)
            } else {
                Seq::empty()
            })
            &&& started.pairings.dom().contains(link_id) <==> (exists|i: int|
                0 <= i < deps.pairings@.len() && (#[trigger] deps.pairings@[i]).link_id@ == link_id)
            &&& started.pairings.dom().contains(link_id) ==> {
                let state = started.pairings[link_id];
                if config.peer_pins@.dom().contains(link_id) {
                    let pin = config.peer_pins@[link_id];
                    &&& state.sequence == 1
                    &&& state.members.len() == 1
                    &&& state.members[0].info.producer.core_node == pin.producer.core_node@
                    &&& state.members[0].info.producer.instance_id == pin.producer.instance_id@
                    &&& state.members[0].info.peer_link_id == pin.peer_link_id@
                    &&& state.members[0].copy is None
                } else {
                    state.sequence == 0 && state.members.len() == 0
                }
            }
            &&& started.observations.dom().contains(link_id) <==> (exists|i: int|
                0 <= i < deps.pairing_observers@.len() && (#[trigger] deps.pairing_observers@[i]).link_id@
                    == link_id)
            &&& started.observations.dom().contains(link_id) ==> {
                let members = started.observations[link_id].members;
                &&& started.observations[link_id].sequence == 0
                &&& !config.observed_sources@.dom().contains(link_id) ==> members.len() == 0
                &&& config.observed_sources@.dom().contains(link_id) ==> members.len()
                    == config.observed_sources@[link_id]@.len() && forall|i: int|
                    0 <= i < members.len() ==> (#[trigger] members[i]).source
                        == config.observed_sources@[link_id]@[i]@ && members[i].source_generation
                        == 0 && members[i].source_live
            }
        }),
{
    let deps = node.depends_on;
    config::law_declared_link_ids(deps.nodes@, link_id);
    config::law_declared_link_ids(deps.contracts@, link_id);
    config::law_declared_link_ids(deps.pairings@, link_id);
    config::law_declared_link_ids(deps.pairing_observers@, link_id);
    lemma_declares_either(
        config::slot_views(deps.nodes@),
        config::slot_views(deps.contracts@),
        link_id,
    );
    let observers = config::slot_views(deps.pairing_observers@);
    slot_setup::law_slot_has_its_declared_cardinality(observers, link_id, 0);
}

/// A standalone node has the pairing and observer slots, with the same cardinalities,
/// that a launched node of the same manifest has.
pub proof fn law_standalone_declares_like_a_launch<A>(
    node: NodeConfig,
    config: StandaloneConfig,
    checks: StandaloneChecks<A>,
    runtime: RuntimeConfig,
    arguments: A,
)
    ensures
        ({
            let alone = standalone_view(node, config, checks);
            let launched = daemon_view(runtime, node, arguments);
            &&& alone.pairing_cardinalities == launched.pairing_cardinalities
            &&& alone.observation_cardinalities == launched.observation_cardinalities
            &&& alone.bound.dom() == launched.bound.dom()
            &&& alone.pairings.dom() == launched.pairings.dom()
            &&& alone.observations.dom() == launched.observations.dom()
        }),
{
    let alone = standalone_view(node, config, checks);
    let launched = daemon_view(runtime, node, arguments);
    assert(alone.bound.dom() =~= launched.bound.dom());
    assert(alone.pairings.dom() =~= launched.pairings.dom());
    assert(alone.observations.dom() =~= launched.observations.dom());
}

/// A node starts exactly when every consumed slot is bound as its cardinality admits,
/// every seed is for a declared observer slot, and every observer slot's seed fits
/// it. When it does not, a consumed slot is reported before an observer slot.
pub proof fn law_node_starts_when_its_slots_fit(
    node: NodeConfig,
    bindings: Map<Seq<char>, Seq<ProducerView>>,
    seeds: Map<Seq<char>, Seq<MemberView>>,
    error: ErrorView,
)
    ensures
        ({
            let slots = node.depends_on.consumer_slots();
            let observers = slot_setup::declared_cardinalities(
                config::slot_views(node.depends_on.pairing_observers@),
            );
            let bound = forall|i: int|
                0 <= i < slots.len() ==> slot_setup::binding_refusal(bindings, #[trigger] slots[i])
                    is None;
            let declared = forall|link_id: Seq<char>| #[trigger]
                seeds.dom().contains(link_id) ==> observers.dom().contains(link_id);
            let fitting = forall|link_id: Seq<char>| #[trigger]
                observers.dom().contains(link_id) ==> slot_setup::seed_fits(
                    observers[link_id],
                    slot_setup::seeded_for(seeds, link_id),
                );
            &&& slots_accepted(node, bindings, seeds) <==> bound && declared && fitting
            &&& slots_refused(node, bindings, seeds, error) ==> (!bound <==> error is SlotUnbound
                || error is SlotCardinalityViolated)
        }),
{
    let slots = node.depends_on.consumer_slots();
    let observers = slot_setup::declared_cardinalities(
        config::slot_views(node.depends_on.pairing_observers@),
    );
    if slots_refused(node, bindings, seeds, error) {
        if slot_setup::all_resolve(bindings, slots) {
            slot_setup::law_seeds_are_for_declared_slots(
                seeds,
                observers,
                Seq::empty(),
                Seq::empty(),
                error,
            );
            if slot_setup::all_declared(seeds, observers) {
                let named = choose|named: Seq<char>| #[trigger]
                    slot_setup::first_bad_seed(seeds, observers, named, error);
                slot_setup::law_seed_fits_its_slot(
                    named,
                    observers[named],
                    slot_setup::seeded_for(seeds, named),
                    error,
                );
            }
        } else {
            let at = choose|at: int| #[trigger]
                slot_setup::first_refused(bindings, slots, at, error);
            slot_setup::law_slot_is_refused_for_its_size(bindings, slots[at]);
        }
    }
}

/// A standalone node starts exactly when its arguments, its instance id, the names it
/// gives simulated time to and its lifecycle settings are valid, no producer is bound
/// to a slot twice, no name is given twice, and its slots fit. When several of these
/// fail, they are reported in the order: arguments, instance id, repeated producers,
/// names, lifecycle, slots.
pub proof fn law_standalone_node_starts_when_all_is_valid<A>(
    node: NodeConfig,
    config: StandaloneConfig,
    checks: StandaloneChecks<A>,
    error: ErrorView,
)
    ensures
        ({
            let slots = node.depends_on.consumer_slots();
            let distinct = forall|link_id: Seq<char>, i: int, j: int|
                #![trigger config.bound_producers@[link_id]@[i], config.bound_producers@[link_id]@[j]]
                config.bound_producers@.dom().contains(link_id) && config::declares(slots, link_id) && 0
                    <= i < j < config.bound_producers@[link_id]@.len()
                    ==> config.bound_producers@[link_id]@[i]@ != config.bound_producers@[link_id]@[j]@;
            let names_valid = forall|i: int|
                0 <= i < checks.participants@.len() ==> (#[trigger] checks.participants@[i]) is Ok;
            let names_differ = forall|i: int, j: int|
                0 <= i < j < config.sim_time_participants@.len() ==> (
                #[trigger] config.sim_time_participants@[i])@ != (
                #[trigger] config.sim_time_participants@[j])@;
            let accepted = standalone_accepted(node, config, checks);
            let refused = standalone_refused(node, config, checks, error);
            &&& accepted ==> checks.arguments is Ok && checks.instance_id is Ok && checks.lifecycle is Ok
                && distinct && names_valid && names_differ
            &&& refused && checks.arguments is Err ==> error == checks.arguments->Err_0@
            &&& refused && checks.arguments is Ok && checks.instance_id is Err ==> error
                == (ErrorView::InvalidNodeName {
                node_name: match config.instance_id {
                    Some(id) => id@,
                    None => "standalone"@,
                },
                reason: checks.instance_id->Err_0@,
            })
            &&& refused && checks.arguments is Ok && checks.instance_id is Ok && !distinct ==> error
                is DuplicateBoundProducer
            &&& refused && checks.arguments is Ok && checks.instance_id is Ok && distinct && !(names_valid
                && names_differ) ==> (if names_valid {
                error is DuplicateSimTimeParticipant
            } else {
                error is InvalidCoreNodeName
            })
            &&& refused && checks.arguments is Ok && checks.instance_id is Ok && distinct && names_valid
                && names_differ && checks.lifecycle is Err ==> error == checks.lifecycle->Err_0@
        }),
{
    let slots = node.depends_on.consumer_slots();
    let bindings = standalone_bindings(config, slots);
    if bindings_distinct(bindings) {
        assert forall|link_id: Seq<char>, i: int, j: int|
            #![trigger config.bound_producers@[link_id]@[i], config.bound_producers@[link_id]@[j]]
            config.bound_producers@.dom().contains(link_id) && config::declares(slots, link_id) && 0 <= i
                < j < config.bound_producers@[link_id]@.len() implies config.bound_producers@[link_id]@[i]@
            != config.bound_producers@[link_id]@[j]@ by {
            assert(bindings.dom().contains(link_id));
            assert(bindings[link_id][i] != bindings[link_id][j]);
        }
    } else {
        let link_id = choose|link_id: Seq<char>| #[trigger]
            bindings.dom().contains(link_id) && !bindings[link_id].no_duplicates();
        let list = config.bound_producers@[link_id]@;
        let (i, j) = choose|i: int, j: int|
            0 <= i < bindings[link_id].len() && 0 <= j < bindings[link_id].len() && i != j
                && bindings[link_id][i] == bindings[link_id][j];
        assert(list[i]@ == list[j]@);
    }
    let names = text::texts(config.sim_time_participants@);
    if names.no_duplicates() {
        assert forall|i: int, j: int| 0 <= i < j < config.sim_time_participants@.len() implies (
        #[trigger] config.sim_time_participants@[i])@ != (#[trigger] config.sim_time_participants@[j])@ by {
            assert(names[i] != names[j]);
        }
    } else {
        let (i, j) = choose|i: int, j: int|
            0 <= i < names.len() && 0 <= j < names.len() && i != j && names[i] == names[j];
        assert(config.sim_time_participants@[i]@ == config.sim_time_participants@[j]@);
    }
}

/// Conversely, a standalone node whose settings are all valid, with no repetition and
/// with slots that fit, is started.
pub proof fn law_valid_standalone_node_starts<A>(
    node: NodeConfig,
    config: StandaloneConfig,
    checks: StandaloneChecks<A>,
)
    requires
        checks.arguments is Ok,
        checks.instance_id is Ok,
        checks.lifecycle is Ok,
        forall|i: int|
            0 <= i < checks.participants@.len() ==> (#[trigger] checks.participants@[i]) is Ok,
        forall|i: int, j: int|
            0 <= i < j < config.sim_time_participants@.len() ==> (
            #[trigger] config.sim_time_participants@[i])@ != (
            #[trigger] config.sim_time_participants@[j])@,
        forall|link_id: Seq<char>| #[trigger]
            config.bound_producers@.dom().contains(link_id) ==> producer::producer_views(
                config.bound_producers@[link_id]@,
            ).no_duplicates(),
        slots_accepted(
            node,
            standalone_bindings(config, node.depends_on.consumer_slots()),
            standalone_seeds(
                config,
                slot_setup::declared_cardinalities(
                    config::slot_views(node.depends_on.pairing_observers@),
                ),
            ),
        ),
    ensures
        standalone_accepted(node, config, checks),
{
    let names = text::texts(config.sim_time_participants@);
    assert forall|i: int, j: int|
        0 <= i < names.len() && 0 <= j < names.len() && i != j implies names[i] != names[j] by {
        if i < j {
            assert(config.sim_time_participants@[i]@ != config.sim_time_participants@[j]@);
        } else {
            assert(config.sim_time_participants@[j]@ != config.sim_time_participants@[i]@);
        }
    }
}

/// Only what is meant for a declared slot counts: the producers of a declared consumed
/// slot and the sources of a declared observer slot, as they were added.
pub proof fn law_only_declared_slots_are_configured(
    config: StandaloneConfig,
    slots: Seq<SlotView>,
    declared: Map<Seq<char>, Cardinality>,
    link_id: Seq<char>,
)
    ensures
        standalone_bindings(config, slots).dom().contains(link_id)
            <==> config.bound_producers@.dom().contains(link_id) && exists|i: int|
            0 <= i < slots.len() && (#[trigger] slots[i]).link_id == link_id,
        standalone_bindings(config, slots).dom().contains(link_id) ==> standalone_bindings(
            config,
            slots,
        )[link_id] == producer::producer_views(config.bound_producers@[link_id]@),
        standalone_seeds(config, declared).dom().contains(link_id)
            <==> config.observed_sources@.dom().contains(link_id) && declared.dom().contains(link_id),
        standalone_seeds(config, declared).dom().contains(link_id) ==> {
            let members = standalone_seeds(config, declared)[link_id];
            &&& members.len() == config.observed_sources@[link_id]@.len()
            &&& forall|i: int|
                0 <= i < members.len() ==> (#[trigger] members[i]).source
                    == config.observed_sources@[link_id]@[i]@ && members[i].source_generation == 0
                    && members[i].source_live
        },
{
}

/// What is said of a slot that generated code reads wrongly: which slot it is, and how
/// it differs from what the code expects.
pub proof fn law_misread_slots_are_named(link_id: Seq<char>, size: nat, cardinality: Seq<char>)
    ensures
        unknown_slot_text(link_id) == "consumer slot `"@ + link_id
            + "` has no cached producer set: the generated code and the manifest disagree (version skew / stale codegen) — regenerate bindings for this node"@,
        misfit_text(link_id, size, cardinality) == "consumer slot `"@ + link_id + "` is bound to "@
            + text::decimal(size) + " producers but the generated accessor expects cardinality `"@
            + cardinality
            + "`: the generated code and the manifest disagree (version skew / stale codegen); regenerate bindings for this node"@,
        empty_set_text(link_id) == "consumer slot `"@ + link_id
            + "` is bound to an empty set but the generated accessor expects cardinality `one_or_more`: the generated code and the manifest disagree (version skew / stale codegen); regenerate bindings for this node"@,
{
}

/// A producer that is bound twice is reported for the lowest slot that has one, and is
/// the earliest repetition there.
pub proof fn law_repeated_producer_is_named(
    bindings: Map<Seq<char>, Seq<ProducerView>>,
    link_id: Seq<char>,
    other: Seq<char>,
    error: ErrorView,
)
    requires
        first_repetitive(bindings, link_id, error),
    ensures
        bindings.dom().contains(link_id),
        exists|i: int, j: int|
            0 <= i < j < bindings[link_id].len() && #[trigger] bindings[link_id][i]
                == #[trigger] bindings[link_id][j] && error == (ErrorView::DuplicateBoundProducer {
                core_node: bindings[link_id][j].core_node,
                instance_id: bindings[link_id][j].instance_id,
            }) && forall|a: int, b: int|
                0 <= a < b < j ==> #[trigger] bindings[link_id][a] != #[trigger] bindings[link_id][b],
        bindings.dom().contains(other) && text::text_less(other, link_id)
            ==> bindings[other].no_duplicates(),
{
    let list = bindings[link_id];
    let at = choose|at: int| #[trigger]
        producer::first_repeat(list, at) && error == (ErrorView::DuplicateBoundProducer {
            core_node: list[at].core_node,
            instance_id: list[at].instance_id,
        });
    producer::law_first_repetition(list, at);
    let i = choose|i: int| 0 <= i < at && #[trigger] list[i] == list[at];
    assert(list[i] == list[at]);
}

/// Of the names that a node gives simulated time to, an invalid one is reported before
/// a repeated one, each the earliest of its kind and with what was said of it.
pub proof fn law_offending_participant_is_named(
    core_nodes: Seq<String>,
    verdicts: Seq<std::result::Result<(), String>>,
    error: ErrorView,
)
    requires
        verdicts.len() == core_nodes.len(),
        participants_refused(core_nodes, verdicts, error),
    ensures
        match error {
            ErrorView::InvalidCoreNodeName { node_name, reason } => exists|at: int|
                0 <= at < verdicts.len() && (#[trigger] verdicts[at]) is Err && verdicts[at]->Err_0@
                    == reason && core_nodes[at]@ == node_name && forall|j: int|
                    0 <= j < at ==> (#[trigger] verdicts[j]) is Ok,
            ErrorView::DuplicateSimTimeParticipant { core_node } => (forall|j: int|
                0 <= j < verdicts.len() ==> (#[trigger] verdicts[j]) is Ok) && exists|i: int, j: int|
                0 <= i < j < core_nodes.len() && (#[trigger] core_nodes[i])@ == (
                #[trigger] core_nodes[j])@ && core_nodes[j]@ == core_node,
            _ => false,
        },
        participants_accepted(core_nodes, verdicts) ==> false,
{
    let names = text::texts(core_nodes);
    if exists|at: int| #[trigger] slot_setup::first_invalid(verdicts, at) && error
        == (ErrorView::InvalidCoreNodeName {
        node_name: core_nodes[at]@,
        reason: verdicts[at]->Err_0@,
    }) {
        let at = choose|at: int| #[trigger] slot_setup::first_invalid(verdicts, at) && error
            == (ErrorView::InvalidCoreNodeName {
            node_name: core_nodes[at]@,
            reason: verdicts[at]->Err_0@,
        });
        assert(verdicts[at] is Err);
    } else {
        let at = choose|at: int| #[trigger]
            slot_setup::first_repeated_name(names, at) && error
                == (ErrorView::DuplicateSimTimeParticipant { core_node: core_nodes[at]@ });
        slot_setup::law_first_offending_name(verdicts, names, at, 0);
        let i = choose|i: int| 0 <= i < at && #[trigger] names[i] == names[at];
        assert(core_nodes[i]@ == core_nodes[at]@);
        assert(names[i] == names[at] && i != at);
    }
}

} // verus!
