//! Resolving a node's configuration.
use peppylib::cardinality::Cardinality;
use peppylib::config::{
    DependsOn, LifecycleConfig, NodeConfig, NodeInstanceConfig, PairingSlotBinding, RuntimeConfig,
    SlotDependency,
};
use peppylib::error::{Error, Result};
use peppylib::observation::{ObservedMemberState, ObservedSource};
use peppylib::processor::{Processor, StandaloneChecks, STANDALONE_CORE_NODE};
use peppylib::producer::{BoundProducers, ProducerRef};
use peppylib::standalone::StandaloneConfig;

const LIFECYCLE: LifecycleConfig = LifecycleConfig {
    daemon_grace_secs: 30,
    shutdown_grace_secs: 5,
};

fn slot(link_id: &str, cardinality: Cardinality) -> SlotDependency {
    SlotDependency { link_id: link_id.to_string(), cardinality }
}

fn node(name: &str, depends_on: DependsOn) -> NodeConfig {
    NodeConfig { name: name.to_string(), tag: "v1".to_string(), depends_on }
}

fn runtime(node_instance: NodeInstanceConfig, name: &str, core_node: &str) -> RuntimeConfig {
    RuntimeConfig {
        messaging_host: "127.0.0.1".to_string(),
        messaging_port: 7448,
        node_instance,
        node_name: name.to_string(),
        node_tag: "v1".to_string(),
        bound_core_node: core_node.to_string(),
        lifecycle: LIFECYCLE,
    }
}

fn checks<A>(config: &StandaloneConfig, arguments: A) -> StandaloneChecks<A> {
    StandaloneChecks {
        arguments: Ok(arguments),
        instance_id: Ok(()),
        participants: config.sim_time_participants.iter().map(|_| Ok(())).collect(),
        lifecycle: Ok(LIFECYCLE),
    }
}

fn standalone(node: &NodeConfig, config: &StandaloneConfig) -> Result<Processor<()>> {
    Processor::standalone_from_manifest(node, config, checks(config, ()))
}

fn bound(producers: &[(&str, &str)]) -> BoundProducers {
    BoundProducers::try_from_list(
        producers.iter().map(|(core, instance)| ProducerRef::new(core, instance)).collect(),
    )
    .expect("distinct")
}

fn failure<A>(result: Result<Processor<A>>) -> Error {
    match result {
        Ok(_) => panic!("expected startup to fail"),
        Err(error) => error,
    }
}

fn in_memory_manifest() -> NodeConfig {
    let mut deps = DependsOn::new();
    deps.contracts.push(slot("camera", Cardinality::One));
    node("built_in_server", deps)
}

fn bound_camera() -> RuntimeConfig {
    let mut instance = NodeInstanceConfig::new("mcp".to_string());
    instance
        .slot_bindings
        .insert("camera".to_string(), bound(&[("epic-whale-6789", "the_camera")]));
    runtime(instance, "built_in_server", "epic-whale-6789")
}

#[test]
fn daemon_mode_from_an_in_memory_manifest_needs_no_file_and_no_fingerprint() {
    let processor = match Processor::daemon_from_manifest(
        bound_camera(),
        in_memory_manifest(),
        Ok(("port".to_string(), 9000)),
    ) {
        Ok(processor) => processor,
        Err(error) => panic!("the manifest and the launch config agree: {error:?}"),
    };

    assert_eq!(processor.node_name(), "built_in_server");
    assert_eq!(processor.bound_instance_id(), "mcp");
    assert_eq!(processor.bound_core_node(), "epic-whale-6789");
    assert_eq!(processor.input_arguments(), &("port".to_string(), 9000));
    assert_eq!(
        processor.sole_bound_producer("camera"),
        &ProducerRef::new("epic-whale-6789", "the_camera")
    );
}

#[test]
fn daemon_mode_from_an_in_memory_manifest_still_validates_the_launch_arguments() {
    let refused: Result<()> =
        Err(Error::NodeArgumentsValidation("type mismatch for `port`".to_string()));
    let error = failure(Processor::daemon_from_manifest(
        bound_camera(),
        in_memory_manifest(),
        refused,
    ));
    assert!(error.describe().contains("port"), "the refusal names the argument: {error:?}");
}

#[test]
fn the_instance_id_has_a_default() {
    let config = StandaloneConfig::new();
    assert_eq!(config.instance_id_or_default(), "standalone");
    assert_eq!(config.with_instance_id("custom").instance_id_or_default(), "custom");
}

#[test]
fn standalone_mode_from_an_in_memory_manifest_reads_it_like_the_file() {
    let config =
        StandaloneConfig::new().with_bound_producer("camera", "standalone-core", "the_camera");
    let processor = match Processor::standalone_from_manifest(
        &in_memory_manifest(),
        &config,
        checks(&config, 8900),
    ) {
        Ok(processor) => processor,
        Err(error) => panic!("should create processor: {error:?}"),
    };

    assert_eq!(processor.node_name(), "built_in_server");
    assert_eq!(processor.bound_instance_id(), "standalone");
    assert_eq!(processor.input_arguments(), &8900);
    assert_eq!(
        processor.sole_bound_producer("camera"),
        &ProducerRef::new("standalone-core", "the_camera")
    );
}

#[test]
fn standalone_mode_uses_manifest_node_name() {
    let processor = match standalone(&node("my_node", DependsOn::new()), &StandaloneConfig::new()) {
        Ok(processor) => processor,
        Err(error) => panic!("should create processor: {error:?}"),
    };

    assert_eq!(processor.node_name(), "my_node");
    assert_eq!(processor.node_tag(), "v1");
    assert_eq!(processor.bound_instance_id(), "standalone");
    assert_eq!(processor.bound_core_node(), "standalone-core");
    assert_eq!(STANDALONE_CORE_NODE, "standalone-core");
    assert_eq!(processor.messaging_host(), "127.0.0.1");
    assert_eq!(processor.messaging_port(), 7448);
    assert_eq!(processor.daemon_grace(), 30_000_000_000);
    assert_eq!(processor.shutdown_grace(), 5_000_000_000);
}

#[test]
fn standalone_mode_resolves_use_sim_time_like_a_launch_would() {
    let manifest = node("my_node", DependsOn::new());
    let wall = standalone(&manifest, &StandaloneConfig::new());
    assert!(!wall.ok().expect("wall").use_sim_time(), "wall mode is the default");

    let sim = standalone(&manifest, &StandaloneConfig::new().with_use_sim_time(true));
    assert!(
        sim.ok().expect("sim").use_sim_time(),
        "with_use_sim_time must land in the resolved framework block"
    );
}

#[test]
fn standalone_mode_with_custom_config() {
    let config = StandaloneConfig::new()
        .with_node_name("custom_name")
        .with_instance_id("custom_instance")
        .with_messaging("192.168.1.100", 9999);

    let processor =
        standalone(&node("my_node", DependsOn::new()), &config).ok().expect("should create");

    assert_eq!(processor.node_name(), "custom_name");
    assert_eq!(processor.bound_instance_id(), "custom_instance");
    assert_eq!(processor.messaging_host(), "192.168.1.100");
    assert_eq!(processor.messaging_port(), 9999);
}

#[test]
fn standalone_mode_peer_pin_is_retained_for_late_subscriber() {
    let mut deps = DependsOn::new();
    deps.pairings.push(slot("arm", Cardinality::One));
    let config = StandaloneConfig::new().with_peer_pin("arm", "core_a", "arm_1", "controller");
    let processor = standalone(&node("my_node", deps), &config).ok().expect("should create");

    let state = processor.peer_pin_watch("arm").expect("declared slot should have a channel");
    let pin = &state
        .members
        .first()
        .expect("seeded pin should survive until the first subscriber")
        .info;
    assert_eq!(pin.producer.core_node, "core_a");
    assert_eq!(pin.producer.instance_id, "arm_1");
    assert_eq!(pin.peer_link_id, "controller");
    assert_eq!(state.sequence, 1);
    assert_eq!(processor.pairing_slot_cardinality("arm"), Some(Cardinality::One));
    assert_eq!(processor.pairing_slot_senders().len(), 1);
}

#[test]
fn fails_when_codegen_fingerprint_mismatch() {
    let error = Processor::<()>::validate_fingerprint("peppy.json5", "aaaa", "bbbb")
        .expect_err("expected fingerprint mismatch error");
    assert!(error.describe().contains("fingerprint mismatch"), "{error:?}");
    assert!(Processor::<()>::validate_fingerprint("peppy.json5", "aaaa", "aaaa").is_ok());
}

/// A manifest with one default-cardinality consumer slot.
fn consumer() -> NodeConfig {
    let mut deps = DependsOn::new();
    deps.nodes.push(slot("main", Cardinality::One));
    node("consumer_node", deps)
}

/// A manifest with one slot of each cardinality.
fn multi_slot() -> NodeConfig {
    let mut deps = DependsOn::new();
    deps.nodes.push(slot("main", Cardinality::One));
    deps.nodes.push(slot("wrist_camera", Cardinality::ZeroOrOne));
    deps.nodes.push(slot("arms", Cardinality::OneOrMore));
    deps.contracts.push(slot("spare_cameras", Cardinality::ZeroOrMore));
    node("consumer_node", deps)
}

fn daemon_processor_with_instance(
    manifest: NodeConfig,
    instance: NodeInstanceConfig,
) -> Result<Processor<()>> {
    Processor::daemon_from_manifest(
        runtime(instance, "consumer_node", "core-1234"),
        manifest,
        Ok(()),
    )
}

fn daemon_processor_with_bindings(
    manifest: NodeConfig,
    bindings: &[(&str, &[&str])],
) -> Result<Processor<()>> {
    let mut instance = NodeInstanceConfig::new("consumer_1".to_string());
    for (link_id, producers) in bindings {
        let listed: Vec<(&str, &str)> =
            producers.iter().map(|instance_id| ("core-1234", *instance_id)).collect();
        instance.slot_bindings.insert(link_id.to_string(), bound(&listed));
    }
    daemon_processor_with_instance(manifest, instance)
}

fn instance_ids(producers: &[ProducerRef]) -> Vec<&str> {
    producers.iter().map(|p| p.instance_id.as_str()).collect()
}

#[test]
fn fails_at_startup_when_declared_slot_has_no_binding() {
    let err = failure(daemon_processor_with_bindings(consumer(), &[]));
    assert!(
        matches!(
            &err,
            Error::SlotUnbound { link_id, cardinality }
                if link_id == "main" && *cardinality == Cardinality::One
        ),
        "expected SlotUnbound for `main`, got: {err:?}"
    );
}

fn multi_slot_processor() -> Processor<()> {
    daemon_processor_with_bindings(
        multi_slot(),
        &[
            ("main", &["camera_1"]),
            ("wrist_camera", &["camera_2"]),
            ("arms", &["right_arm", "left_arm"]),
            ("spare_cameras", &[]),
        ],
    )
    .ok()
    .expect("valid bindings should construct")
}

fn multi_slot_processor_with_vacant_wrist_camera() -> Processor<()> {
    daemon_processor_with_bindings(
        multi_slot(),
        &[
            ("main", &["camera_1"]),
            ("wrist_camera", &[]),
            ("arms", &["right_arm"]),
            ("spare_cameras", &[]),
        ],
    )
    .ok()
    .expect("a vacant zero_or_one slot is a valid empty set")
}

#[test]
fn daemon_boot_config_bindings_reach_bound_producer_cache() {
    let processor = multi_slot_processor();

    assert_eq!(instance_ids(processor.bound_producers("main")), ["camera_1"]);
    assert_eq!(
        instance_ids(processor.bound_producers("arms")),
        ["right_arm", "left_arm"],
        "binding declaration order must be preserved, not sorted"
    );
    assert!(processor.bound_producers("spare_cameras").is_empty());

    // Membership is per slot: a producer bound to a different slot of the same
    // consumer is rejected all the same.
    let right_arm = ProducerRef::new("core-1234", "right_arm");
    processor
        .ensure_target_bound("arms", &right_arm)
        .expect("bound member must pass the membership check");
    let err = processor
        .ensure_target_bound("main", &right_arm)
        .expect_err("cross-slot target must fail the membership check");
    assert!(
        matches!(
            &err,
            Error::TargetNotBound { link_id, instance_id, .. }
                if link_id == "main" && instance_id == "right_arm"
        ),
        "expected TargetNotBound, got: {err:?}"
    );
}

#[test]
fn cardinality_typed_accessors_return_the_validated_shapes() {
    let processor = multi_slot_processor();

    assert_eq!(processor.sole_bound_producer("main").instance_id, "camera_1");

    assert_eq!(
        processor
            .optional_bound_producer("wrist_camera")
            .map(|producer| producer.instance_id.as_str()),
        Some("camera_2")
    );
    assert_eq!(
        multi_slot_processor_with_vacant_wrist_camera().optional_bound_producer("wrist_camera"),
        None,
        "a vacant zero_or_one slot resolves to an empty set, which reads as `None`"
    );

    let arms = processor.non_empty_bound_producers("arms");
    assert_eq!(
        arms.first().instance_id,
        "right_arm",
        "first() follows binding declaration order"
    );
    assert_eq!(instance_ids(arms.as_slice()), ["right_arm", "left_arm"]);
    assert_eq!(
        arms.as_slice(),
        processor.bound_producers("arms"),
        "the typed view exposes the same cached set as the plain slice"
    );
}

#[test]
#[should_panic(expected = "expects cardinality `one`")]
fn sole_bound_producer_panics_on_a_multi_member_set() {
    if let Err(message) = multi_slot_processor().read_sole_bound_producer("arms") {
        panic!("{message}");
    }
}

#[test]
#[should_panic(expected = "expects cardinality `one_or_more`")]
fn non_empty_bound_producers_panics_on_an_empty_set() {
    if let Err(message) = multi_slot_processor().read_non_empty_bound_producers("spare_cameras") {
        panic!("{message}");
    }
}

#[test]
#[should_panic(expected = "expects cardinality `zero_or_one`")]
fn optional_bound_producer_panics_on_a_multi_member_set() {
    if let Err(message) = multi_slot_processor().read_optional_bound_producer("arms") {
        panic!("{message}");
    }
}

#[test]
fn reading_a_slot_says_what_is_wrong() {
    let processor = multi_slot_processor();
    assert_eq!(
        processor.read_bound_producers("phantom").expect_err("unknown"),
        "consumer slot `phantom` has no cached producer set: the generated code and the manifest disagree (version skew / stale codegen) — regenerate bindings for this node"
    );
    assert_eq!(
        processor.read_sole_bound_producer("arms").expect_err("two"),
        "consumer slot `arms` is bound to 2 producers but the generated accessor expects cardinality `one`: the generated code and the manifest disagree (version skew / stale codegen); regenerate bindings for this node"
    );
    assert_eq!(
        processor.read_non_empty_bound_producers("spare_cameras").expect_err("empty"),
        "consumer slot `spare_cameras` is bound to an empty set but the generated accessor expects cardinality `one_or_more`: the generated code and the manifest disagree (version skew / stale codegen); regenerate bindings for this node"
    );
    assert!(processor.read_sole_bound_producer("phantom").is_err());
    assert!(processor.read_optional_bound_producer("phantom").is_err());
    assert!(processor.read_non_empty_bound_producers("phantom").is_err());
    assert_eq!(processor.read_bound_producers("main").expect("known").len(), 1);
    assert_eq!(processor.read_sole_bound_producer("main").expect("one").instance_id, "camera_1");
    assert!(processor.read_optional_bound_producer("spare_cameras").expect("none").is_none());
    assert_eq!(processor.read_non_empty_bound_producers("arms").expect("two").len(), 2);
}

#[test]
fn fails_at_startup_when_bound_set_size_violates_cardinality() {
    let two_on_a_one_slot = failure(daemon_processor_with_bindings(
        multi_slot(),
        &[
            ("main", &["camera_1", "camera_2"]),
            ("wrist_camera", &[]),
            ("arms", &["right_arm"]),
            ("spare_cameras", &[]),
        ],
    ));
    assert!(
        matches!(
            &two_on_a_one_slot,
            Error::SlotCardinalityViolated { link_id, cardinality, bound }
                if link_id == "main" && *cardinality == Cardinality::One && *bound == 2
        ),
        "expected SlotCardinalityViolated for `main`, got: {two_on_a_one_slot:?}"
    );

    let empty_one_or_more = failure(daemon_processor_with_bindings(
        multi_slot(),
        &[
            ("main", &["camera_1"]),
            ("wrist_camera", &[]),
            ("arms", &[]),
            ("spare_cameras", &[]),
        ],
    ));
    assert!(
        matches!(
            &empty_one_or_more,
            Error::SlotCardinalityViolated { link_id, cardinality, bound }
                if link_id == "arms" && *cardinality == Cardinality::OneOrMore && *bound == 0
        ),
        "expected SlotCardinalityViolated for `arms`, got: {empty_one_or_more:?}"
    );

    let two_on_a_zero_or_one_slot = failure(daemon_processor_with_bindings(
        multi_slot(),
        &[
            ("main", &["camera_1"]),
            ("wrist_camera", &["camera_2", "camera_3"]),
            ("arms", &["right_arm"]),
            ("spare_cameras", &[]),
        ],
    ));
    assert!(
        matches!(
            &two_on_a_zero_or_one_slot,
            Error::SlotCardinalityViolated { link_id, cardinality, bound }
                if link_id == "wrist_camera"
                    && *cardinality == Cardinality::ZeroOrOne
                    && *bound == 2
        ),
        "expected SlotCardinalityViolated for `wrist_camera`, got: {two_on_a_zero_or_one_slot:?}"
    );
}

#[test]
fn zero_or_one_slot_still_needs_its_binding_entry() {
    let err = failure(daemon_processor_with_bindings(
        multi_slot(),
        &[("main", &["camera_1"]), ("arms", &["right_arm"]), ("spare_cameras", &[])],
    ));
    assert!(
        matches!(
            &err,
            Error::SlotUnbound { link_id, cardinality }
                if link_id == "wrist_camera" && *cardinality == Cardinality::ZeroOrOne
        ),
        "expected SlotUnbound for `wrist_camera`, got: {err:?}"
    );
}

#[test]
fn zero_or_more_slot_tolerates_missing_binding_entry() {
    let processor = daemon_processor_with_bindings(
        multi_slot(),
        &[("main", &["camera_1"]), ("wrist_camera", &[]), ("arms", &["right_arm"])],
    )
    .ok()
    .expect("missing zero_or_more entry should construct");
    assert!(processor.bound_producers("spare_cameras").is_empty());
}

/// A manifest with one observer slot of each cardinality with members.
fn observer() -> NodeConfig {
    let mut deps = DependsOn::new();
    deps.pairing_observers.push(slot("sole_arm", Cardinality::One));
    deps.pairing_observers.push(slot("watched_arms", Cardinality::OneOrMore));
    deps.pairing_observers.push(slot("spare_arms", Cardinality::ZeroOrMore));
    node("consumer_node", deps)
}

/// A manifest whose observer slots may all be empty.
fn zero_floor_observer() -> NodeConfig {
    let mut deps = DependsOn::new();
    deps.pairing_observers.push(slot("maybe_arm", Cardinality::ZeroOrOne));
    deps.pairing_observers.push(slot("spare_arms", Cardinality::ZeroOrMore));
    node("consumer_node", deps)
}

fn seed(core_node: &str, instance_id: &str, generation: u64, live: bool) -> ObservedMemberState {
    ObservedMemberState {
        source: ObservedSource {
            producer: ProducerRef::new(core_node, instance_id),
            source_link_id: "controller".to_string(),
        },
        source_generation: generation,
        source_live: live,
    }
}

fn daemon_processor_with_seeds(
    manifest: NodeConfig,
    seeds: Vec<(&str, Vec<ObservedMemberState>)>,
) -> Result<Processor<()>> {
    let mut instance = NodeInstanceConfig::new("consumer_1".to_string());
    for (link_id, members) in seeds {
        instance.observation_seeds.insert(link_id.to_string(), members);
    }
    daemon_processor_with_instance(manifest, instance)
}

#[test]
fn zero_floor_observer_slots_boot_empty_without_seeds() {
    let processor = daemon_processor_with_bindings(zero_floor_observer(), &[])
        .ok()
        .expect("zero-floor observer slots need no seed");

    for (link_id, expected) in [
        ("maybe_arm", Cardinality::ZeroOrOne),
        ("spare_arms", Cardinality::ZeroOrMore),
    ] {
        assert_eq!(
            processor.observation_slot_cardinality(link_id),
            Some(expected),
            "slot `{link_id}` must carry its declared cardinality"
        );
        let watch = processor
            .observation_slot_watch(link_id)
            .unwrap_or_else(|| panic!("slot `{link_id}` must have a channel"));
        assert!(watch.members.is_empty());
    }

    assert_eq!(processor.observation_slot_cardinality("not_declared"), None);
    assert!(processor.observation_slot_watch("not_declared").is_none());
    assert_eq!(processor.observation_slot_senders().len(), 2);
}

#[test]
fn a_missing_seed_for_a_floored_observer_slot_fails_startup() {
    let err = failure(daemon_processor_with_bindings(observer(), &[]));
    assert!(
        matches!(
            &err,
            Error::ObservationSeedViolated { link_id, cardinality, seeded }
                if link_id == "sole_arm" && *cardinality == Cardinality::One && *seeded == 0
        ),
        "expected ObservationSeedViolated for `sole_arm`, got: {err:?}"
    );
}

#[test]
fn an_oversized_seed_fails_startup() {
    let err = failure(daemon_processor_with_seeds(
        zero_floor_observer(),
        vec![(
            "maybe_arm",
            vec![seed("core-1234", "arm_1", 1, true), seed("core-1234", "arm_2", 1, true)],
        )],
    ));
    assert!(
        matches!(
            &err,
            Error::ObservationSeedViolated { link_id, cardinality, seeded }
                if link_id == "maybe_arm"
                    && *cardinality == Cardinality::ZeroOrOne
                    && *seeded == 2
        ),
        "expected ObservationSeedViolated for `maybe_arm`, got: {err:?}"
    );
}

#[test]
fn a_duplicate_seed_identity_fails_startup() {
    let err = failure(daemon_processor_with_seeds(
        zero_floor_observer(),
        vec![(
            "spare_arms",
            vec![seed("core-1234", "arm_1", 1, true), seed("core-1234", "arm_1", 1, true)],
        )],
    ));
    assert!(
        matches!(
            &err,
            Error::ObservationSeedDuplicate { link_id, instance_id, .. }
                if link_id == "spare_arms" && instance_id == "arm_1"
        ),
        "expected ObservationSeedDuplicate, got: {err:?}"
    );
}

#[test]
fn a_seed_for_an_undeclared_slot_fails_startup() {
    let err = failure(daemon_processor_with_seeds(
        zero_floor_observer(),
        vec![("phantom_slot", Vec::new())],
    ));
    assert!(
        matches!(
            &err,
            Error::ObservationSeedUndeclared { link_id } if link_id == "phantom_slot"
        ),
        "expected ObservationSeedUndeclared, got: {err:?}"
    );
}

#[test]
fn observation_seeds_answer_from_construction() {
    let processor = daemon_processor_with_seeds(
        observer(),
        vec![
            ("sole_arm", vec![seed("core-1234", "arm_1", 3, true)]),
            (
                "watched_arms",
                vec![seed("core-1234", "arm_9", 2, true), seed("remote-5678", "arm_3", 0, false)],
            ),
        ],
    )
    .ok()
    .expect("a seeded observer config should construct");

    let state = processor.observation_slot_watch("sole_arm").expect("declared slot has a channel");
    assert_eq!(state.sequence, 0, "the seed is the pre-delivery state");
    assert_eq!(state.members.len(), 1);
    assert_eq!(state.members[0].source.producer.instance_id, "arm_1");
    assert_eq!(state.members[0].source.source_link_id, "controller");
    assert_eq!(state.members[0].source_generation, 3);
    assert!(state.members[0].source_live);

    let members = &processor
        .observation_slot_watch("watched_arms")
        .expect("declared slot has a channel")
        .members;
    assert_eq!(
        members
            .iter()
            .map(|m| m.source.producer.instance_id.as_str())
            .collect::<Vec<_>>(),
        ["arm_9", "arm_3"],
        "plan order is preserved through the seed (arm_9 sorts after arm_3, so a sorted set would flip this)"
    );
    assert!(
        !members[1].source_live,
        "a member whose source has not run yet is seeded down, membership intact"
    );

    let spare =
        processor.observation_slot_watch("spare_arms").expect("declared slot has a channel");
    assert!(spare.members.is_empty(), "an unseeded slot boots empty exactly as before");
}

#[test]
fn standalone_bound_producers_accumulate_and_enforce_cardinality() {
    let manifest = multi_slot();
    let err = failure(standalone(&manifest, &StandaloneConfig::new()));
    assert!(
        matches!(&err, Error::SlotUnbound { link_id, .. } if link_id == "main"),
        "expected SlotUnbound for `main`, got: {err:?}"
    );

    // `spare_cameras` (zero_or_more) is deliberately left unseeded.
    let seeded = StandaloneConfig::new()
        .with_bound_producer("main", "core_x", "camera_1")
        .with_bound_producer("wrist_camera", "core_x", "camera_2")
        .with_bound_producer("arms", "core_x", "right_arm")
        .with_bound_producer("arms", "core_x", "left_arm");
    let processor = standalone(&manifest, &seeded).ok().expect("seeded slots should construct");
    assert_eq!(instance_ids(processor.bound_producers("main")), ["camera_1"]);
    assert_eq!(
        processor
            .optional_bound_producer("wrist_camera")
            .map(|producer| producer.instance_id.as_str()),
        Some("camera_2")
    );
    assert_eq!(
        instance_ids(processor.bound_producers("arms")),
        ["right_arm", "left_arm"],
        "with_bound_producer call order must be preserved"
    );
    assert!(processor.bound_producers("spare_cameras").is_empty());

    let duplicated = StandaloneConfig::new()
        .with_bound_producer("main", "core_x", "camera_1")
        .with_bound_producer("arms", "core_x", "right_arm")
        .with_bound_producer("arms", "core_x", "right_arm");
    let err = failure(standalone(&manifest, &duplicated));
    assert!(
        err.describe().contains("right_arm"),
        "duplicate error should name the producer, got: {err:?}"
    );
}

#[test]
fn standalone_vacant_producer_slot_seeds_an_explicit_empty_set() {
    let manifest = multi_slot();
    let vacant = StandaloneConfig::new()
        .with_bound_producer("main", "core_x", "camera_1")
        .with_vacant_producer_slot("wrist_camera")
        .with_bound_producer("arms", "core_x", "right_arm");
    let processor =
        standalone(&manifest, &vacant).ok().expect("a vacant zero_or_one slot should construct");
    assert_eq!(processor.optional_bound_producer("wrist_camera"), None);

    let vacant_one_slot = StandaloneConfig::new()
        .with_vacant_producer_slot("main")
        .with_vacant_producer_slot("wrist_camera")
        .with_bound_producer("arms", "core_x", "right_arm");
    let err = failure(standalone(&manifest, &vacant_one_slot));
    assert!(
        matches!(
            &err,
            Error::SlotCardinalityViolated { link_id, cardinality, bound }
                if link_id == "main" && *cardinality == Cardinality::One && *bound == 0
        ),
        "expected SlotCardinalityViolated for `main`, got: {err:?}"
    );
}

#[test]
fn standalone_observed_sources_accumulate_and_enforce_cardinality() {
    let manifest = observer();
    let err = failure(standalone(&manifest, &StandaloneConfig::new()));
    assert!(
        matches!(
            &err,
            Error::ObservationSeedViolated { link_id, cardinality, seeded }
                if link_id == "sole_arm" && *cardinality == Cardinality::One && *seeded == 0
        ),
        "expected ObservationSeedViolated for `sole_arm`, got: {err:?}"
    );

    // `spare_arms` (zero_or_more) is deliberately left unseeded.
    let seeded = StandaloneConfig::new()
        .with_observed_source("sole_arm", "core_x", "left_arm", "commander")
        .with_observed_source("watched_arms", "core_x", "right_arm", "commander")
        .with_observed_source("watched_arms", "core_x", "left_arm", "commander");
    let processor =
        standalone(&manifest, &seeded).ok().expect("seeded observer slots should construct");

    let members = |link_id: &str| -> Vec<String> {
        processor
            .observation_slot_watch(link_id)
            .expect("declared slot has a watch channel")
            .members
            .iter()
            .map(|m| m.source.producer.instance_id.clone())
            .collect()
    };
    assert_eq!(members("sole_arm"), ["left_arm"]);
    assert_eq!(
        members("watched_arms"),
        ["right_arm", "left_arm"],
        "with_observed_source call order must be preserved"
    );
    assert!(members("spare_arms").is_empty());
    let sole = &processor.observation_slot_watch("sole_arm").expect("declared").members[0];
    assert_eq!(sole.source_generation, 0);
    assert!(sole.source_live);

    let duplicated = StandaloneConfig::new()
        .with_observed_source("sole_arm", "core_x", "left_arm", "commander")
        .with_observed_source("watched_arms", "core_x", "right_arm", "commander")
        .with_observed_source("watched_arms", "core_x", "right_arm", "commander");
    let err = failure(standalone(&manifest, &duplicated));
    assert!(
        err.describe().contains("right_arm"),
        "duplicate error should name the source, got: {err:?}"
    );
}

#[test]
fn standalone_observed_source_on_an_undeclared_slot_is_ignored() {
    let stray = StandaloneConfig::new().with_observed_source(
        "not_a_slot",
        "core_x",
        "left_arm",
        "commander",
    );
    let processor = standalone(&zero_floor_observer(), &stray)
        .ok()
        .expect("an undeclared observer seed should be ignored, not fatal");
    assert!(processor.observation_slot_watch("not_a_slot").is_none());
}

#[test]
fn undeclared_bindings_and_pins_are_ignored() {
    let stray = StandaloneConfig::new()
        .with_bound_producer("not_a_slot", "core_x", "one")
        .with_bound_producer("not_a_slot", "core_x", "one")
        .with_peer_pin("not_a_slot", "core_x", "peer", "link");
    let processor =
        standalone(&node("my_node", DependsOn::new()), &stray).ok().expect("ignored");
    assert!(processor.read_bound_producers("not_a_slot").is_err());
    assert!(processor.peer_pin_watch("not_a_slot").is_none());
}

#[test]
fn standalone_refusals_come_in_order() {
    let manifest = consumer();
    let config = StandaloneConfig::new()
        .with_instance_id("bad id")
        .with_bound_producer("main", "core_x", "one")
        .with_bound_producer("main", "core_x", "one")
        .with_sim_time_participants(vec!["core_b".to_string(), "core_b".to_string()]);
    let all_bad = || StandaloneChecks::<()> {
        arguments: Err(Error::NodeArgumentsValidation("no".to_string())),
        instance_id: Err("has a space".to_string()),
        participants: vec![Ok(()), Err("too long".to_string())],
        lifecycle: Err(Error::Transport("bad host".to_string())),
    };
    let refuse = |checks| failure(Processor::standalone_from_manifest(&manifest, &config, checks));

    let mut checks = all_bad();
    assert!(matches!(refuse(checks), Error::NodeArgumentsValidation(_)));
    checks = all_bad();
    checks.arguments = Ok(());
    assert_eq!(
        refuse(checks),
        Error::InvalidNodeName {
            node_name: "bad id".to_string(),
            reason: "has a space".to_string()
        }
    );
    checks = all_bad();
    checks.arguments = Ok(());
    checks.instance_id = Ok(());
    assert!(matches!(refuse(checks), Error::DuplicateBoundProducer { .. }));

    let config = StandaloneConfig::new()
        .with_sim_time_participants(vec!["core_b".to_string(), "core_b".to_string()]);
    let refuse = |checks| failure(Processor::standalone_from_manifest(&manifest, &config, checks));
    checks = all_bad();
    checks.arguments = Ok(());
    checks.instance_id = Ok(());
    assert_eq!(
        refuse(checks),
        Error::InvalidCoreNodeName {
            node_name: "core_b".to_string(),
            reason: "too long".to_string()
        }
    );
    checks = all_bad();
    checks.arguments = Ok(());
    checks.instance_id = Ok(());
    checks.participants = vec![Ok(()), Ok(())];
    assert_eq!(
        refuse(checks),
        Error::DuplicateSimTimeParticipant { core_node: "core_b".to_string() }
    );

    let config = StandaloneConfig::new();
    let refuse = |checks| failure(Processor::standalone_from_manifest(&manifest, &config, checks));
    checks = all_bad();
    checks.arguments = Ok(());
    checks.instance_id = Ok(());
    checks.participants = Vec::new();
    assert!(matches!(refuse(checks), Error::Transport(_)));
    checks = all_bad();
    checks.arguments = Ok(());
    checks.instance_id = Ok(());
    checks.participants = Vec::new();
    checks.lifecycle = Ok(LIFECYCLE);
    assert!(matches!(refuse(checks), Error::SlotUnbound { .. }));
}

#[test]
fn a_declared_time_source_is_inert_under_wall_time() {
    let manifest = node("my_node", DependsOn::new());
    let participants = || vec!["core_a".to_string(), "core_b".to_string()];
    let wall = StandaloneConfig::new().with_sim_time_participants(participants());
    assert!(standalone(&manifest, &wall).ok().expect("wall").sim_time_source().is_none());
    let sim = StandaloneConfig::new()
        .with_sim_time_participants(participants())
        .with_use_sim_time(true);
    let processor = standalone(&manifest, &sim).ok().expect("sim");
    assert_eq!(processor.sim_time_source().expect("a source").core_nodes, participants());
    let none = StandaloneConfig::new().with_use_sim_time(true);
    assert!(standalone(&manifest, &none).ok().expect("sim").sim_time_source().is_none());
}

#[test]
fn a_boot_pairing_starts_paired() {
    let mut deps = DependsOn::new();
    deps.pairings.push(slot("arm", Cardinality::One));
    deps.pairings.push(slot("leg", Cardinality::ZeroOrMore));
    let mut instance = NodeInstanceConfig::new("me".to_string());
    instance.pairing_slots.insert(
        "arm".to_string(),
        PairingSlotBinding::Paired {
            peer: ProducerRef::new("core_a", "arm_1"),
            peer_link_id: "controller".to_string(),
        },
    );
    instance.pairing_slots.insert("leg".to_string(), PairingSlotBinding::Unpaired);
    let processor =
        daemon_processor_with_instance(node("me", deps), instance).ok().expect("constructs");
    let arm = processor.peer_pin_watch("arm").expect("declared");
    assert_eq!(arm.sequence, 0);
    assert_eq!(arm.members[0].info.producer.instance_id, "arm_1");
    assert_eq!(arm.members[0].info.peer_link_id, "controller");
    assert!(processor.peer_pin_watch("leg").expect("declared").members.is_empty());
    assert_eq!(processor.pairing_slot_cardinality("leg"), Some(Cardinality::ZeroOrMore));
}

#[test]
fn parameters_are_carried_through() {
    let mut params = serde_json::Map::new();
    params.insert("value".to_string(), serde_json::Value::from(42));
    let config =
        StandaloneConfig::new().with_parameters_json(serde_json::Value::Object(params.clone()));
    assert_eq!(config.parameters, Some(serde_json::Value::Object(params)));
    let config = config.with_messaging_host("h").with_messaging_port(1);
    assert_eq!(config.messaging_host_or_default(), "h");
    assert_eq!(config.messaging_port_or_default(), 1);
}

#[test]
fn subscribing_to_an_undeclared_slot_is_refused() {
    let mut deps = DependsOn::new();
    deps.pairings.push(slot("arm", Cardinality::ZeroOrMore));
    deps.pairing_observers.push(slot("watcher", Cardinality::ZeroOrMore));
    let processor =
        standalone(&node("me", deps), &StandaloneConfig::new()).ok().expect("constructs");
    assert!(processor.subscribe_peer("arm").ok().expect("declared").members.is_empty());
    assert!(processor.subscribe_observed("watcher").ok().expect("declared").members.is_empty());
    match processor.subscribe_peer("watcher") {
        Err(Error::UnknownPairingSlot { link_id }) => assert_eq!(link_id, "watcher"),
        _ => panic!("an observer slot is no pairing slot"),
    }
    match processor.subscribe_observed("arm") {
        Err(Error::UnknownObservationSlot { link_id }) => assert_eq!(link_id, "arm"),
        _ => panic!("a pairing slot is no observer slot"),
    }
}
