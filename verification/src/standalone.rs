//! Configuration of a node that runs without a daemon.
use crate::observation;
use crate::observation::ObservedSource;
use crate::pairing::PeerInfo;
use crate::producer;
use crate::producer::{ProducerRef, ProducerView};
use crate::sorted_map::SortedMap;
use vstd::prelude::*;

verus! {

/// A JSON value of the `serde_json` crate. It is carried through unread.
#[verifier::external_type_specification]
#[verifier::external_body]
pub struct ExJsonValue(serde_json::Value);

/// The port a standalone node uses unless told otherwise.
pub const DEFAULT_MESSAGING_PORT: u16 = 7448;

/// Configuration of a standalone node. Whatever is left out has a default.
pub struct StandaloneConfig {
    /// The node's parameters; none by default.
    pub parameters: Option<serde_json::Value>,
    /// The node's name; by default the manifest's.
    pub node_name: Option<String>,
    /// The instance id; by default `standalone`.
    pub instance_id: Option<String>,
    /// The messaging host; by default this machine.
    pub messaging_host: Option<String>,
    /// The messaging port; by default [`DEFAULT_MESSAGING_PORT`].
    pub messaging_port: Option<u16>,
    /// The peer each pairing slot is paired with from the start.
    pub peer_pins: SortedMap<PeerInfo>,
    /// The producers bound to each consumer slot, in the order they were added.
    pub bound_producers: SortedMap<Vec<ProducerRef>>,
    /// The sources each observer slot observes, in the order they were added.
    pub observed_sources: SortedMap<Vec<ObservedSource>>,
    /// Whether the node runs on simulated time.
    pub use_sim_time: bool,
    /// The core nodes this node publishes simulated time to.
    pub sim_time_participants: Vec<String>,
}

/// The producers a slot holds so far.
pub open spec fn bound_so_far(
    slots: Map<Seq<char>, Vec<ProducerRef>>,
    link_id: Seq<char>,
) -> Seq<ProducerView> {
    if slots.dom().contains(link_id) {
        producer::producer_views(slots[link_id]@)
    } else {
        Seq::empty()
    }
}

/// The sources a slot holds so far.
pub open spec fn observed_so_far(
    slots: Map<Seq<char>, Vec<ObservedSource>>,
    link_id: Seq<char>,
) -> Seq<observation::SourceView> {
    if slots.dom().contains(link_id) {
        observation::source_views(slots[link_id]@)
    } else {
        Seq::empty()
    }
}

impl StandaloneConfig {
    /// Whether both identify the node and its messaging alike.
    pub open spec fn agrees_on_identity(&self, other: &Self) -> bool {
        &&& self.parameters == other.parameters
        &&& self.node_name == other.node_name
        &&& self.instance_id == other.instance_id
        &&& self.messaging_host == other.messaging_host
        &&& self.messaging_port == other.messaging_port
    }

    /// Whether both resolve time alike.
    pub open spec fn agrees_on_time(&self, other: &Self) -> bool {
        &&& self.use_sim_time == other.use_sim_time
        &&& self.sim_time_participants == other.sim_time_participants
    }

    /// The default configuration.
    pub fn new() -> (config: Self)
        ensures
            config.parameters is None,
            config.node_name is None,
            config.instance_id is None,
            config.messaging_host is None,
            config.messaging_port is None,
            config.peer_pins@ == Map::<Seq<char>, PeerInfo>::empty(),
            config.bound_producers@ == Map::<Seq<char>, Vec<ProducerRef>>::empty(),
            config.observed_sources@ == Map::<Seq<char>, Vec<ObservedSource>>::empty(),
            !config.use_sim_time,
            config.sim_time_participants@ == Seq::<String>::empty(),
    {
        StandaloneConfig {
            parameters: None,
            node_name: None,
            instance_id: None,
            messaging_host: None,
            messaging_port: None,
            peer_pins: SortedMap::new(),
            bound_producers: SortedMap::new(),
            observed_sources: SortedMap::new(),
            use_sim_time: false,
            sim_time_participants: Vec::new(),
        }
    }

    /// Sets the parameters from a JSON value.
    pub fn with_parameters_json(self, params: serde_json::Value) -> (config: Self)
        ensures
            config == (StandaloneConfig { parameters: Some(params), ..self }),
    {
        let mut config = self;
        config.parameters = Some(params);
        config
    }

    /// Sets the instance id.
    pub fn with_instance_id(self, id: &str) -> (config: Self)
        ensures
            config.instance_id matches Some(set) && set@ == id@,
            config == (StandaloneConfig { instance_id: config.instance_id, ..self }),
    {
        let mut config = self;
        config.instance_id = Some(id.to_owned());
        config
    }

    /// Sets the node's name.
    pub fn with_node_name(self, name: &str) -> (config: Self)
        ensures
            config.node_name matches Some(set) && set@ == name@,
            config == (StandaloneConfig { node_name: config.node_name, ..self }),
    {
        let mut config = self;
        config.node_name = Some(name.to_owned());
        config
    }

    /// Sets the messaging host.
    pub fn with_messaging_host(self, host: &str) -> (config: Self)
        ensures
            config.messaging_host matches Some(set) && set@ == host@,
            config == (StandaloneConfig { messaging_host: config.messaging_host, ..self }),
    {
        let mut config = self;
        config.messaging_host = Some(host.to_owned());
        config
    }

    /// Sets the messaging port.
    pub fn with_messaging_port(self, port: u16) -> (config: Self)
        ensures
            config == (StandaloneConfig { messaging_port: Some(port), ..self }),
    {
        let mut config = self;
        config.messaging_port = Some(port);
        config
    }

    /// Sets the messaging host and port.
    pub fn with_messaging(self, host: &str, port: u16) -> (config: Self)
        ensures
            config.messaging_host matches Some(set) && set@ == host@,
            config == (StandaloneConfig {
                messaging_host: config.messaging_host,
                messaging_port: Some(port),
                ..self
            }),
    {
        self.with_messaging_host(host).with_messaging_port(port)
    }

    /// Pairs the slot `link_id` with the peer at `(peer_core_node,
    /// peer_instance_id)` whose own slot is `peer_link_id`. A later pin of the
    /// same slot replaces an earlier one.
    pub fn with_peer_pin(
        self,
        link_id: &str,
        peer_core_node: &str,
        peer_instance_id: &str,
        peer_link_id: &str,
    ) -> (config: Self)
        ensures
            config.agrees_on_identity(&self),
            config.agrees_on_time(&self),
            config.bound_producers@ == self.bound_producers@,
            config.observed_sources@ == self.observed_sources@,
            config.peer_pins@.dom() == self.peer_pins@.dom().insert(link_id@),
            config.peer_pins@ == self.peer_pins@.insert(link_id@, config.peer_pins@[link_id@]),
            config.peer_pins@[link_id@]@ == (crate::pairing::PeerView {
                producer: ProducerView {
                    core_node: peer_core_node@,
                    instance_id: peer_instance_id@,
                },
                peer_link_id: peer_link_id@,
            }),
    {
        let mut config = self;
        let pin = PeerInfo {
            producer: ProducerRef::new(peer_core_node, peer_instance_id),
            peer_link_id: peer_link_id.to_owned(),
        };
        config.peer_pins.insert(link_id.to_owned(), pin);
        config
    }

    /// Adds the producer at `(producer_core_node, producer_instance_id)` to those
    /// bound to the slot `link_id`. Repeated calls accumulate in call order.
    pub fn with_bound_producer(
        self,
        link_id: &str,
        producer_core_node: &str,
        producer_instance_id: &str,
    ) -> (config: Self)
        ensures
            config.agrees_on_identity(&self),
            config.agrees_on_time(&self),
            config.peer_pins@ == self.peer_pins@,
            config.observed_sources@ == self.observed_sources@,
            config.bound_producers@ == self.bound_producers@.insert(
                link_id@,
                config.bound_producers@[link_id@],
            ),
            producer::producer_views(config.bound_producers@[link_id@]@) == bound_so_far(
                self.bound_producers@,
                link_id@,
            ).push(
                ProducerView { core_node: producer_core_node@, instance_id: producer_instance_id@ },
            ),
    {
        let ghost before = self.bound_producers@;
        let mut config = self;
        let mut producers: Vec<ProducerRef> = match config.bound_producers.remove(link_id) {
            Some(producers) => producers,
            None => Vec::new(),
        };
        let ghost held = producers@;
        producers.push(ProducerRef::new(producer_core_node, producer_instance_id));
        proof {
            assert(producer::producer_views(producers@) =~= producer::producer_views(held).push(
                producers@.last()@,
            ));
            if !before.dom().contains(link_id@) {
                assert(producer::producer_views(held) =~= Seq::<ProducerView>::empty());
            }
        }
        let ghost all = producers;
        config.bound_producers.insert(link_id.to_owned(), producers);
        proof {
            assert(config.bound_producers@ =~= before.insert(link_id@, all));
        }
        config
    }

    /// Declares the slot `link_id` vacant: bound to nothing, and meant to be. The
    /// producers added to it so far are kept.
    pub fn with_vacant_producer_slot(self, link_id: &str) -> (config: Self)
        ensures
            config.agrees_on_identity(&self),
            config.agrees_on_time(&self),
            config.peer_pins@ == self.peer_pins@,
            config.observed_sources@ == self.observed_sources@,
            config.bound_producers@ == self.bound_producers@.insert(
                link_id@,
                config.bound_producers@[link_id@],
            ),
            producer::producer_views(config.bound_producers@[link_id@]@) == bound_so_far(
                self.bound_producers@,
                link_id@,
            ),
    {
        let ghost before = self.bound_producers@;
        let mut config = self;
        let producers: Vec<ProducerRef> = match config.bound_producers.remove(link_id) {
            Some(producers) => producers,
            None => Vec::new(),
        };
        proof {
            if !before.dom().contains(link_id@) {
                assert(producer::producer_views(producers@) =~= Seq::<ProducerView>::empty());
            }
        }
        let ghost all = producers;
        config.bound_producers.insert(link_id.to_owned(), producers);
        proof {
            assert(config.bound_producers@ =~= before.insert(link_id@, all));
        }
        config
    }

    /// Adds the pairing slot `source_link_id` of the instance at
    /// `(source_core_node, source_instance_id)` to those the observer slot
    /// `link_id` observes. Repeated calls accumulate in call order.
    pub fn with_observed_source(
        self,
        link_id: &str,
        source_core_node: &str,
        source_instance_id: &str,
        source_link_id: &str,
    ) -> (config: Self)
        ensures
            config.agrees_on_identity(&self),
            config.agrees_on_time(&self),
            config.peer_pins@ == self.peer_pins@,
            config.bound_producers@ == self.bound_producers@,
            config.observed_sources@ == self.observed_sources@.insert(
                link_id@,
                config.observed_sources@[link_id@],
            ),
            observation::source_views(config.observed_sources@[link_id@]@) == observed_so_far(
                self.observed_sources@,
                link_id@,
            ).push(
                observation::SourceView {
                    producer: ProducerView {
                        core_node: source_core_node@,
                        instance_id: source_instance_id@,
                    },
                    source_link_id: source_link_id@,
                },
            ),
    {
        let ghost before = self.observed_sources@;
        let mut config = self;
        let mut sources: Vec<ObservedSource> = match config.observed_sources.remove(link_id) {
            Some(sources) => sources,
            None => Vec::new(),
        };
        let ghost held = sources@;
        sources.push(
            ObservedSource {
                producer: ProducerRef::new(source_core_node, source_instance_id),
                source_link_id: source_link_id.to_owned(),
            },
        );
        proof {
            assert(observation::source_views(sources@) =~= observation::source_views(held).push(
                sources@.last()@,
            ));
            if !before.dom().contains(link_id@) {
                assert(observation::source_views(held) =~= Seq::<observation::SourceView>::empty());
            }
        }
        let ghost all = sources;
        config.observed_sources.insert(link_id.to_owned(), sources);
        proof {
            assert(config.observed_sources@ =~= before.insert(link_id@, all));
        }
        config
    }

    /// Sets whether the node runs on simulated time.
    pub fn with_use_sim_time(self, use_sim_time: bool) -> (config: Self)
        ensures
            config == (StandaloneConfig { use_sim_time, ..self }),
    {
        let mut config = self;
        config.use_sim_time = use_sim_time;
        config
    }

    /// Makes the node a source of simulated time for `core_nodes`.
    pub fn with_sim_time_participants(self, core_nodes: Vec<String>) -> (config: Self)
        ensures
            config == (StandaloneConfig { sim_time_participants: core_nodes, ..self }),
    {
        let mut config = self;
        config.sim_time_participants = core_nodes;
        config
    }

    /// The instance id to use.
    pub open spec fn spec_instance_id(&self) -> Seq<char> {
        match self.instance_id {
            Some(id) => id@,
            None => "standalone"@,
        }
    }

    /// The instance id to use.
    pub fn instance_id_or_default(&self) -> (id: String)
        ensures
            id@ == self.spec_instance_id(),
    {
        match &self.instance_id {
            Some(id) => id.clone(),
            None => "standalone".to_owned(),
        }
    }

    /// The messaging host to use.
    pub open spec fn spec_messaging_host(&self) -> Seq<char> {
        match self.messaging_host {
            Some(host) => host@,
            None => "127.0.0.1"@,
        }
    }

    /// The messaging host to use.
    pub fn messaging_host_or_default(&self) -> (host: String)
        ensures
            host@ == self.spec_messaging_host(),
    {
        match &self.messaging_host {
            Some(host) => host.clone(),
            None => "127.0.0.1".to_owned(),
        }
    }

    /// The messaging port to use.
    pub open spec fn spec_messaging_port(&self) -> u16 {
        match self.messaging_port {
            Some(port) => port,
            None => DEFAULT_MESSAGING_PORT,
        }
    }

    /// The messaging port to use.
    pub fn messaging_port_or_default(&self) -> (port: u16)
        ensures
            port == self.spec_messaging_port(),
    {
        match self.messaging_port {
            Some(port) => port,
            None => DEFAULT_MESSAGING_PORT,
        }
    }
}

/// What was added for a slot so far is what its entry lists, in order, and nothing
/// where it has no entry.
pub proof fn law_added_so_far(
    producers: Map<Seq<char>, Vec<ProducerRef>>,
    sources: Map<Seq<char>, Vec<ObservedSource>>,
    link_id: Seq<char>,
)
    ensures
        !producers.dom().contains(link_id) ==> bound_so_far(producers, link_id).len() == 0,
        producers.dom().contains(link_id) ==> bound_so_far(producers, link_id).len()
            == producers[link_id]@.len() && forall|i: int|
            0 <= i < producers[link_id]@.len() ==> #[trigger] bound_so_far(producers, link_id)[i]
                == producers[link_id]@[i]@,
        !sources.dom().contains(link_id) ==> observed_so_far(sources, link_id).len() == 0,
        sources.dom().contains(link_id) ==> observed_so_far(sources, link_id).len()
            == sources[link_id]@.len() && forall|i: int|
            0 <= i < sources[link_id]@.len() ==> #[trigger] observed_so_far(sources, link_id)[i]
                == sources[link_id]@[i]@,
{
}

/// Configurations that agree on a node's identity and on its time are the same in all
/// settings but the slots.
pub proof fn law_agreement_covers_every_setting(config: StandaloneConfig, other: StandaloneConfig)
    ensures
        config.agrees_on_identity(&other) && config.agrees_on_time(&other) <==> config == (
        StandaloneConfig {
            peer_pins: config.peer_pins,
            bound_producers: config.bound_producers,
            observed_sources: config.observed_sources,
            ..other
        }),
{
}

/// A setting that was given is used as given; else the instance id is `standalone` and
/// the messaging address 127.0.0.1:7448.
pub proof fn law_defaults(config: StandaloneConfig)
    ensures
        config.spec_instance_id() == match config.instance_id {
            Some(id) => id@,
            None => "standalone"@,
        },
        config.spec_messaging_host() == match config.messaging_host {
            Some(host) => host@,
            None => "127.0.0.1"@,
        },
        config.spec_messaging_port() == match config.messaging_port {
            Some(port) => port,
            None => 7448,
        },
{
}

} // verus!
