//! What a node's manifest declares and what its launch configuration resolves.
use crate::cardinality::Cardinality;
use crate::observation::ObservedMemberState;
use crate::producer::{BoundProducers, ProducerRef};
use crate::sorted_map::SortedMap;
use vstd::prelude::*;

verus! {

/// A slot that a manifest declares.
pub struct SlotDependency {
    pub link_id: String,
    pub cardinality: Cardinality,
}

/// The view of a [`SlotDependency`].
pub struct SlotView {
    pub link_id: Seq<char>,
    pub cardinality: Cardinality,
}

impl View for SlotDependency {
    type V = SlotView;

    open spec fn view(&self) -> SlotView {
        SlotView { link_id: self.link_id@, cardinality: self.cardinality }
    }
}

/// The views of a sequence of declared slots.
pub open spec fn slot_views(slots: Seq<SlotDependency>) -> Seq<SlotView> {
    slots.map_values(|slot: SlotDependency| slot@)
}

/// Whether `slots` declares the slot `link_id`.
pub open spec fn declares(slots: Seq<SlotView>, link_id: Seq<char>) -> bool {
    exists|i: int| 0 <= i < slots.len() && (#[trigger] slots[i]).link_id == link_id
}

/// The slots through which a node depends on others.
pub struct DependsOn {
    /// Slots bound to nodes.
    pub nodes: Vec<SlotDependency>,
    /// Slots bound to whoever fulfils a contract.
    pub contracts: Vec<SlotDependency>,
    /// Slots that take part in a pairing.
    pub pairings: Vec<SlotDependency>,
    /// Slots that observe a pairing.
    pub pairing_observers: Vec<SlotDependency>,
}

impl DependsOn {
    /// A node that depends on nothing.
    pub fn new() -> (deps: Self)
        ensures
            deps.nodes@.len() == 0,
            deps.contracts@.len() == 0,
            deps.pairings@.len() == 0,
            deps.pairing_observers@.len() == 0,
    {
        DependsOn {
            nodes: Vec::new(),
            contracts: Vec::new(),
            pairings: Vec::new(),
            pairing_observers: Vec::new(),
        }
    }

    /// The slots that are bound to producers, in declaration order.
    pub open spec fn consumer_slots(&self) -> Seq<SlotView> {
        slot_views(self.nodes@) + slot_views(self.contracts@)
    }
}

/// What a node's manifest says of the node.
pub struct NodeConfig {
    pub name: String,
    pub tag: String,
    pub depends_on: DependsOn,
}

/// The pair a pairing slot starts with.
pub enum PairingSlotBinding {
    Unpaired,
    Paired { peer: ProducerRef, peer_link_id: String },
}

/// The core nodes that an instance publishes simulated time to, in declaration
/// order.
#[derive(Debug, PartialEq, Eq)]
pub struct SimTimeParticipants {
    pub core_nodes: Vec<String>,
}

/// What the framework resolved for an instance.
pub struct ResolvedFramework {
    pub use_sim_time: bool,
    pub sim_time_source: Option<SimTimeParticipants>,
}

/// How long a node lasts without its daemon, and how long it may take to stop.
#[derive(Debug, Clone, Copy, PartialEq, Eq)]
pub struct LifecycleConfig {
    pub daemon_grace_secs: u64,
    pub shutdown_grace_secs: u64,
}

/// The launch configuration of one node instance.
pub struct NodeInstanceConfig {
    pub instance_id: String,
    /// The producers bound to each consumer slot.
    pub slot_bindings: SortedMap<BoundProducers>,
    /// The pair each pairing slot starts with.
    pub pairing_slots: SortedMap<PairingSlotBinding>,
    /// The members each observer slot starts with.
    pub observation_seeds: SortedMap<Vec<ObservedMemberState>>,
    pub framework: ResolvedFramework,
}

impl NodeInstanceConfig {
    /// An instance with nothing bound, paired or observed, on wall time.
    pub fn new(instance_id: String) -> (instance: Self)
        ensures
            instance.instance_id == instance_id,
            instance.slot_bindings@ == Map::<Seq<char>, BoundProducers>::empty(),
            instance.pairing_slots@ == Map::<Seq<char>, PairingSlotBinding>::empty(),
            instance.observation_seeds@ == Map::<Seq<char>, Vec<ObservedMemberState>>::empty(),
            !instance.framework.use_sim_time,
            instance.framework.sim_time_source is None,
    {
        NodeInstanceConfig {
            instance_id,
            slot_bindings: SortedMap::new(),
            pairing_slots: SortedMap::new(),
            observation_seeds: SortedMap::new(),
            framework: ResolvedFramework { use_sim_time: false, sim_time_source: None },
        }
    }
}

/// The launch configuration of a node.
pub struct RuntimeConfig {
    pub messaging_host: String,
    pub messaging_port: u16,
    pub node_instance: NodeInstanceConfig,
    pub node_name: String,
    pub node_tag: String,
    pub bound_core_node: String,
    pub lifecycle: LifecycleConfig,
}

/// The slots that a node consumes are those of its nodes and then those of its
/// contracts, each list in its order and each slot with its link id and cardinality.
pub proof fn law_consumed_slots_in_order(deps: DependsOn)
    ensures
        deps.consumer_slots().len() == deps.nodes@.len() + deps.contracts@.len(),
        forall|i: int|
            0 <= i < deps.nodes@.len() ==> (#[trigger] deps.consumer_slots()[i]).link_id
                == deps.nodes@[i].link_id@ && deps.consumer_slots()[i].cardinality
                == deps.nodes@[i].cardinality,
        forall|i: int|
            deps.nodes@.len() <= i < deps.consumer_slots().len() ==> (
            #[trigger] deps.consumer_slots()[i]).link_id == deps.contracts@[i
                - deps.nodes@.len()].link_id@ && deps.consumer_slots()[i].cardinality
                == deps.contracts@[i - deps.nodes@.len()].cardinality,
{
}

/// A list of slots declares exactly the link ids of its entries.
pub proof fn law_declared_link_ids(slots: Seq<SlotDependency>, link_id: Seq<char>)
    ensures
        slot_views(slots).len() == slots.len(),
        forall|i: int|
            0 <= i < slots.len() ==> (#[trigger] slot_views(slots)[i]).link_id == slots[i].link_id@
                && slot_views(slots)[i].cardinality == slots[i].cardinality,
        declares(slot_views(slots), link_id) <==> exists|i: int|
            0 <= i < slots.len() && (#[trigger] slots[i]).link_id@ == link_id,
{
    let views = slot_views(slots);
    if declares(views, link_id) {
        let i = choose|i: int| 0 <= i < views.len() && (#[trigger] views[i]).link_id == link_id;
        assert(slots[i].link_id@ == link_id);
    }
    if exists|i: int| 0 <= i < slots.len() && (#[trigger] slots[i]).link_id@ == link_id {
        let i = choose|i: int| 0 <= i < slots.len() && (#[trigger] slots[i]).link_id@ == link_id;
        assert(views[i].link_id == link_id);
    }
}

} // verus!
