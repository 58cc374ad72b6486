//! Starting, running and stopping a node.
use peppylib::config::{DependsOn, LifecycleConfig, NodeConfig};
use peppylib::error::Error;
use peppylib::lifecycle::{
    joined_services, post_setup_services, pre_setup_services, wait_for_handles, ExecutionMode,
    NodeBuilder,
    NodeContext, NodeRun, NodeService, RunAction, RunEvent, SignalAction, SignalBridge, StopSignal,
};
use peppylib::processor::{Processor, StandaloneChecks};
use peppylib::standalone::StandaloneConfig;

fn processor() -> Processor<()> {
    let node = NodeConfig {
        name: "node".to_string(),
        tag: "v1".to_string(),
        depends_on: DependsOn::new(),
    };
    let checks = StandaloneChecks {
        arguments: Ok(()),
        instance_id: Ok(()),
        participants: Vec::new(),
        lifecycle: Ok(LifecycleConfig { daemon_grace_secs: 1, shutdown_grace_secs: 2 }),
    };
    Processor::standalone_from_manifest(&node, &StandaloneConfig::new(), checks)
        .ok()
        .expect("nothing to resolve")
}

#[test]
fn a_launch_takes_precedence_over_a_standalone_configuration() {
    let builder = || NodeBuilder::new().standalone(StandaloneConfig::new().with_node_name("x"));
    assert!(matches!(builder().resolve_mode(true), ExecutionMode::Daemon));
    match builder().resolve_mode(false) {
        ExecutionMode::Standalone(config) => assert_eq!(config.node_name.as_deref(), Some("x")),
        ExecutionMode::Daemon => panic!("nobody launched the node"),
    }
    match NodeBuilder::new().resolve_mode(false) {
        ExecutionMode::Standalone(config) => assert_eq!(config.node_name, None),
        ExecutionMode::Daemon => panic!("nobody launched the node"),
    }
    assert_eq!(NodeBuilder::new().config_path(), "peppy.json5");
    assert_eq!(NodeBuilder::new().with_config_path("other.json5").config_path(), "other.json5");
}

#[test]
fn parameters_can_be_taken_once() {
    let mode = ExecutionMode::Standalone(StandaloneConfig::new());
    let mut context = NodeContext::new(processor(), mode, 7);
    assert!(context.is_standalone());
    assert!(!context.is_daemon());
    assert_eq!(context.take_parameters(), Ok(7));
    assert_eq!(context.take_parameters(), Err(Error::ParametersAlreadyTaken));
    assert_eq!(context.node_name(), "node");
    assert_eq!(context.node_tag(), "v1");
    assert_eq!(context.instance_id(), "standalone");
    assert_eq!(context.messaging_host(), "127.0.0.1");
    assert_eq!(context.messaging_port(), 7448);
    assert_eq!(context.processor().shutdown_grace(), 2_000_000_000);
    assert!(NodeContext::new(processor(), ExecutionMode::Daemon, ()).is_daemon());
}

#[test]
fn health_is_exposed_after_setup() {
    assert_eq!(
        pre_setup_services(),
        vec![NodeService::Ready, NodeService::PeerUpdate, NodeService::Shutdown]
    );
    assert_eq!(post_setup_services(), vec![NodeService::Health, NodeService::ClockOffset]);
}

#[test]
fn services_are_joined_in_their_order() {
    assert_eq!(
        joined_services(),
        vec![
            NodeService::Ready,
            NodeService::Health,
            NodeService::ClockOffset,
            NodeService::PeerUpdate,
            NodeService::Shutdown,
        ]
    );
    let ended = joined_services()
        .iter()
        .map(|service| match service {
            NodeService::PeerUpdate => Err(Error::Io("peers".to_string())),
            NodeService::ClockOffset => Err(Error::Io("clock".to_string())),
            _ => Ok(()),
        })
        .collect();
    assert_eq!(wait_for_handles(Ok(ended)), Err(Error::Io("clock".to_string())));
}

#[test]
fn the_first_failed_service_counts() {
    let io = |name: &str| Error::Io(name.to_string());
    assert_eq!(wait_for_handles(Ok(vec![Ok(()), Ok(())])), Ok(()));
    assert_eq!(
        wait_for_handles(Ok(vec![Ok(()), Err(io("a")), Err(io("b"))])),
        Err(io("a"))
    );
    assert_eq!(
        wait_for_handles(Err("boom".to_string())),
        Err(Error::RuntimeInitialization {
            context: "service task panicked".to_string(),
            reason: "boom".to_string(),
        })
    );
}

/// Stops a run whose tasks are to be told, and returns its outcome.
fn stop(run: NodeRun) -> Result<(), Error> {
    assert_eq!(run.action(), RunAction::CancelToken);
    let run = run.on_event(RunEvent::TokenCancelled);
    assert_eq!(run.action(), RunAction::RunHooks(9));
    let run = run.on_event(RunEvent::HooksRan);
    assert_eq!(run.action(), RunAction::Finish);
    run.outcome().expect("stopped")
}

#[test]
fn every_exit_of_a_launched_node_converges() {
    let failed = || Error::Io("failed".to_string());
    let run = || NodeRun::new(true, 9);
    assert_eq!(run().action(), RunAction::RunSetup);
    assert_eq!(stop(run().on_event(RunEvent::SetupEnded(Err(failed())))), Err(failed()));
    assert_eq!(stop(run().on_event(RunEvent::ShutdownRequested)), Ok(()));
    assert_eq!(stop(run().on_event(RunEvent::Cancelled)), Ok(()));
    let serving = || run().on_event(RunEvent::SetupEnded(Ok(())));
    assert_eq!(serving().action(), RunAction::Serve);
    assert_eq!(stop(serving().on_event(RunEvent::ServicesEnded(Err(failed())))), Err(failed()));
    assert_eq!(stop(serving().on_event(RunEvent::ServicesEnded(Ok(())))), Ok(()));
    assert_eq!(stop(serving().on_event(RunEvent::ShutdownRequested)), Ok(()));
    assert_eq!(stop(serving().on_event(RunEvent::Cancelled)), Ok(()));
    assert!(run().outcome().is_none());
}

#[test]
fn every_exit_of_a_standalone_node_converges() {
    let failed = || Error::Io("failed".to_string());
    let run = || NodeRun::new(false, 9);
    assert_eq!(stop(run().on_event(RunEvent::SetupEnded(Err(failed())))), Err(failed()));
    let waiting = run().on_event(RunEvent::SetupEnded(Ok(())));
    assert_eq!(waiting.action(), RunAction::AwaitCancel);
    assert_eq!(stop(waiting.on_event(RunEvent::Cancelled)), Ok(()));
}

#[test]
fn a_second_signal_leaves_at_once() {
    for (signal, code) in [(StopSignal::Interrupt, 130), (StopSignal::Terminate, 143)] {
        let mut bridge = SignalBridge::new();
        assert_eq!(bridge.on_signal(StopSignal::Terminate), SignalAction::Cancel);
        assert_eq!(bridge.on_signal(signal), SignalAction::Exit(code));
    }
}
