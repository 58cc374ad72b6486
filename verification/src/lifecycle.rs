//! A node's life: how it starts, what it serves, and how it stops.
use crate::error::{Error, ErrorView, Result};
use crate::processor::{Processor, ProcessorView};
use crate::standalone::StandaloneConfig;
use vstd::prelude::*;

verus! {

/// How a node runs.
pub enum ExecutionMode {
    /// Launched and managed by a daemon.
    Daemon,
    /// On its own.
    Standalone(StandaloneConfig),
}

/// Builds a node.
pub struct NodeBuilder {
    standalone_config: Option<StandaloneConfig>,
    config_path: String,
}

impl NodeBuilder {
    /// The configuration to fall back on.
    pub closed spec fn spec_standalone_config(&self) -> Option<StandaloneConfig> {
        self.standalone_config
    }

    /// Where the manifest is read from.
    pub closed spec fn spec_config_path(&self) -> Seq<char> {
        self.config_path@
    }

    /// A builder that reads `peppy.json5`.
    pub fn new() -> (builder: Self)
        ensures
            builder.spec_standalone_config() is None,
            builder.spec_config_path() == "peppy.json5"@,
    {
        NodeBuilder { standalone_config: None, config_path: "peppy.json5".to_owned() }
    }

    /// Sets the configuration to fall back on when no daemon launched the node.
    pub fn standalone(self, config: StandaloneConfig) -> (builder: Self)
        ensures
            builder.spec_standalone_config() == Some(config),
            builder.spec_config_path() == self.spec_config_path(),
    {
        NodeBuilder { standalone_config: Some(config), config_path: self.config_path }
    }

    /// Reads the manifest from another place.
    pub fn with_config_path(self, path: &str) -> (builder: Self)
        ensures
            builder.spec_standalone_config() == self.spec_standalone_config(),
            builder.spec_config_path() == path@,
    {
        NodeBuilder { standalone_config: self.standalone_config, config_path: path.to_owned() }
    }

    /// Where the manifest is read from.
    pub fn config_path(&self) -> (path: &str)
        ensures
            path@ == self.spec_config_path(),
    {
        self.config_path.as_str()
    }

    /// How the node runs. A launch by a daemon takes precedence over a standalone
    /// configuration, which is then ignored.
    pub fn resolve_mode(self, launched: bool) -> (mode: ExecutionMode)
        ensures
            launched ==> mode is Daemon,
            !launched ==> mode is Standalone,
            !launched ==> (self.spec_standalone_config() matches Some(config) ==> mode
                == ExecutionMode::Standalone(config)),
            !launched && self.spec_standalone_config() is None ==> {
                let config = mode->Standalone_0;
                &&& config.parameters is None
                &&& config.node_name is None
                &&& config.instance_id is None
                &&& config.messaging_host is None
                &&& config.messaging_port is None
                &&& config.peer_pins@ == Map::<Seq<char>, crate::pairing::PeerInfo>::empty()
                &&& config.bound_producers@ == Map::<
                    Seq<char>,
                    Vec<crate::producer::ProducerRef>,
                >::empty()
                &&& config.observed_sources@ == Map::<
                    Seq<char>,
                    Vec<crate::observation::ObservedSource>,
                >::empty()
                &&& !config.use_sim_time
                &&& config.sim_time_participants@.len() == 0
            },
    {
        if launched {
            return ExecutionMode::Daemon;
        }
        match self.standalone_config {
            Some(config) => ExecutionMode::Standalone(config),
            None => ExecutionMode::Standalone(StandaloneConfig::new()),
        }
    }
}

/// An initialized node: its resolved configuration and its typed parameters.
pub struct NodeContext<A, P> {
    processor: Processor<A>,
    mode: ExecutionMode,
    params: Option<P>,
}

/// The view of a [`NodeContext`].
pub struct ContextView<A, P> {
    pub processor: ProcessorView<A>,
    pub standalone: bool,
    pub params: Option<P>,
}

impl<A, P> View for NodeContext<A, P> {
    type V = ContextView<A, P>;

    closed spec fn view(&self) -> ContextView<A, P> {
        ContextView {
            processor: self.processor@,
            standalone: self.mode is Standalone,
            params: self.params,
        }
    }
}

impl<A, P> NodeContext<A, P> {
    /// A node that is ready to run.
    pub fn new(processor: Processor<A>, mode: ExecutionMode, params: P) -> (context: Self)
        ensures
            context@ == (ContextView {
                processor: processor@,
                standalone: mode is Standalone,
                params: Some(params),
            }),
    {
        NodeContext { processor, mode, params: Some(params) }
    }

    /// Takes the parameters. They can be taken once.
    pub fn take_parameters(&mut self) -> (taken: Result<P>)
        ensures
            final(self)@ == (ContextView { params: None, ..old(self)@ }),
            match taken {
                Ok(params) => old(self)@.params == Some(params),
                Err(error) => old(self)@.params is None && error@
                    == ErrorView::ParametersAlreadyTaken,
            },
    {
        match self.params.take() {
            Some(params) => Ok(params),
            None => Err(Error::ParametersAlreadyTaken),
        }
    }

    /// Whether the node runs on its own.
    pub fn is_standalone(&self) -> (standalone: bool)
        ensures
            standalone == self@.standalone,
    {
        match &self.mode {
            ExecutionMode::Standalone(_) => true,
            ExecutionMode::Daemon => false,
        }
    }

    /// Whether a daemon manages the node.
    pub fn is_daemon(&self) -> (daemon: bool)
        ensures
            daemon == !self@.standalone,
    {
        match &self.mode {
            ExecutionMode::Standalone(_) => false,
            ExecutionMode::Daemon => true,
        }
    }

    /// The resolved configuration.
    pub fn processor(&self) -> (processor: &Processor<A>)
        ensures
            processor@ == self@.processor,
    {
        &self.processor
    }

    /// The messaging host.
    pub fn messaging_host(&self) -> (host: &str)
        ensures
            host@ == self@.processor.messaging_host,
    {
        self.processor.messaging_host()
    }

    /// The messaging port.
    pub fn messaging_port(&self) -> (port: u16)
        ensures
            port == self@.processor.messaging_port,
    {
        self.processor.messaging_port()
    }

    /// The node's name.
    pub fn node_name(&self) -> (node_name: &str)
        ensures
            node_name@ == self@.processor.node_name,
    {
        self.processor.node_name()
    }

    /// The node's tag.
    pub fn node_tag(&self) -> (node_tag: &str)
        ensures
            node_tag@ == self@.processor.node_tag,
    {
        self.processor.node_tag()
    }

    /// The instance id.
    pub fn instance_id(&self) -> (instance_id: &str)
        ensures
            instance_id@ == self@.processor.instance_id,
    {
        self.processor.bound_instance_id()
    }
}

/// A service that the runtime exposes on a launched node.
#[derive(Debug, Clone, Copy, PartialEq, Eq, Structural)]
pub enum NodeService {
    /// The node is connected.
    Ready,
    /// Pairs are delivered.
    PeerUpdate,
    /// The node is asked to stop.
    Shutdown,
    /// The node finished its setup.
    Health,
    /// The node's clock is compared.
    ClockOffset,
}

/// The services exposed before the user's setup runs, in order. Setup may block for
/// good, and a node has to be reachable for pairs and for a stop all the same.
pub open spec fn services_before_setup() -> Seq<NodeService> {
    seq![NodeService::Ready, NodeService::PeerUpdate, NodeService::Shutdown]
}

/// The services exposed once setup is done, in order.
pub open spec fn services_after_setup() -> Seq<NodeService> {
    seq![NodeService::Health, NodeService::ClockOffset]
}

/// The services exposed before the user's setup runs, in order.
pub fn pre_setup_services() -> (services: Vec<NodeService>)
    ensures
        services@ == services_before_setup(),
{
    let services: Vec<NodeService> = vec![
        NodeService::Ready,
        NodeService::PeerUpdate,
        NodeService::Shutdown,
    ];
    proof {
        assert(services@ =~= services_before_setup());
    }
    services
}

/// The services exposed once setup is done, in order.
pub fn post_setup_services() -> (services: Vec<NodeService>)
    ensures
        services@ == services_after_setup(),
{
    let services: Vec<NodeService> = vec![NodeService::Health, NodeService::ClockOffset];
    proof {
        assert(services@ =~= services_after_setup());
    }
    services
}

/// The services whose end is waited for, in the order in which their outcomes
/// count.
pub open spec fn services_joined() -> Seq<NodeService> {
    seq![
        NodeService::Ready,
        NodeService::Health,
        NodeService::ClockOffset,
        NodeService::PeerUpdate,
        NodeService::Shutdown,
    ]
}

/// The services whose end is waited for, in the order in which their outcomes
/// count. [`wait_for_handles`] takes the outcomes in this order, so where several
/// services failed, the error of the earliest one here is reported.
pub fn joined_services() -> (services: Vec<NodeService>)
    ensures
        services@ == services_joined(),
{
    let services: Vec<NodeService> = vec![
        NodeService::Ready,
        NodeService::Health,
        NodeService::ClockOffset,
        NodeService::PeerUpdate,
        NodeService::Shutdown,
    ];
    proof {
        assert(services@ =~= services_joined());
    }
    services
}

/// Every service that is exposed, before setup or after it, is waited for, once;
/// and no other is.
pub proof fn law_each_exposed_service_is_joined_once(service: NodeService)
    ensures
        services_joined().no_duplicates(),
        services_joined().len() == services_before_setup().len() + services_after_setup().len(),
        services_joined().contains(service) <==> services_before_setup().contains(service)
            || services_after_setup().contains(service),
        services_joined().contains(service),
{
    assert(services_before_setup()[0] == NodeService::Ready);
    assert(services_before_setup()[1] == NodeService::PeerUpdate);
    assert(services_before_setup()[2] == NodeService::Shutdown);
    assert(services_after_setup()[0] == NodeService::Health);
    assert(services_after_setup()[1] == NodeService::ClockOffset);
    assert(services_joined()[0] == NodeService::Ready);
    assert(services_joined()[1] == NodeService::Health);
    assert(services_joined()[2] == NodeService::ClockOffset);
    assert(services_joined()[3] == NodeService::PeerUpdate);
    assert(services_joined()[4] == NodeService::Shutdown);
}

/// A node that reports health has finished its setup, and a node can be stopped
/// and paired before that.
pub proof fn law_health_means_set_up()
    ensures
        !services_before_setup().contains(NodeService::Health),
        services_after_setup().contains(NodeService::Health),
        services_before_setup().contains(NodeService::Shutdown),
        services_before_setup().contains(NodeService::PeerUpdate),
{
    assert(services_after_setup()[0] == NodeService::Health);
    assert(services_before_setup()[1] == NodeService::PeerUpdate);
    assert(services_before_setup()[2] == NodeService::Shutdown);
}

/// The outcome of a node's services once all of them ended, given how each of
/// [`joined_services`] ended: a panic counts first, then the first error in that
/// order.
pub fn wait_for_handles(joined: std::result::Result<Vec<Result<()>>, String>) -> (outcome: Result<()>)
    ensures
        match joined {
            Err(panic) => outcome matches Err(error) && error@
                == (ErrorView::RuntimeInitialization {
                context: "service task panicked"@,
                reason: panic@,
            }),
            Ok(results) => match outcome {
                Ok(_) => forall|i: int| 0 <= i < results@.len() ==> (#[trigger] results@[i]) is Ok,
                Err(error) => exists|i: int|
                    0 <= i < results@.len() && #[trigger] results@[i] == Err::<(), Error>(error) && (
                    forall|j: int| 0 <= j < i ==> (#[trigger] results@[j]) is Ok),
            },
        },
{
    match joined {
        Err(panic) => Err(
            Error::RuntimeInitialization {
                context: "service task panicked".to_owned(),
                reason: panic,
            },
        ),
        Ok(results) => {
            let ghost all = results@;
            for result in it: results
                invariant
                    it.seq() == all,
                    joined is Ok,
                    joined->Ok_0@ == all,
                    forall|i: int| 0 <= i < it.index() ==> (#[trigger] all[i]) is Ok,
            {
                let ghost i = it.index();
                match result {
                    Ok(_) => {},
                    Err(error) => {
                        proof {
                            assert(all[i] == Err::<(), Error>(error));
                        }
                        return Err(error);
                    },
                }
            }
            Ok(())
        },
    }
}

/// Where a running node stands.
pub enum RunPhase {
    /// The user's setup runs.
    SettingUp,
    /// The services of a launched node run.
    Serving,
    /// A standalone node waits to be stopped.
    Waiting,
    /// The node stops: its tasks are to be told.
    Cancelling(Result<()>),
    /// The node stops: its cleanup is to run.
    CleaningUp(Result<()>),
    /// The node has stopped.
    Stopped(Result<()>),
}

/// What happens to a running node.
pub enum RunEvent {
    /// The setup ended.
    SetupEnded(Result<()>),
    /// The services ended.
    ServicesEnded(Result<()>),
    /// The daemon asked the node to stop.
    ShutdownRequested,
    /// The cancellation token fired: a signal arrived, the daemon is gone, or the
    /// user's code asked for it.
    Cancelled,
    /// The tasks were told to stop.
    TokenCancelled,
    /// The registered cleanup ran, or ran out of time.
    HooksRan,
}

/// What a running node does next.
#[derive(Debug, Clone, Copy, PartialEq, Eq)]
pub enum RunAction {
    /// Run the user's setup. A launched node may be stopped meanwhile.
    RunSetup,
    /// Expose the remaining services and run them.
    Serve,
    /// Wait for the cancellation token.
    AwaitCancel,
    /// Cancel the token.
    CancelToken,
    /// Run the registered cleanup, for no longer than this many nanoseconds.
    RunHooks(u128),
    /// Return the outcome.
    Finish,
}

/// Whether `event` can happen in `phase` to a node that is launched or not.
pub open spec fn admits(launched: bool, phase: RunPhase, event: RunEvent) -> bool {
    match phase {
        RunPhase::SettingUp => event is SetupEnded || launched && (event is ShutdownRequested
            || event is Cancelled),
        RunPhase::Serving => event is ServicesEnded || event is ShutdownRequested || event
            is Cancelled,
        RunPhase::Waiting => event is Cancelled,
        RunPhase::Cancelling(_) => event is TokenCancelled,
        RunPhase::CleaningUp(_) => event is HooksRan,
        RunPhase::Stopped(_) => false,
    }
}

/// The phase after `event`.
pub open spec fn next_phase(launched: bool, phase: RunPhase, event: RunEvent) -> RunPhase {
    match event {
        RunEvent::SetupEnded(Err(error)) => RunPhase::Cancelling(Err(error)),
        RunEvent::SetupEnded(Ok(_)) => if launched {
            RunPhase::Serving
        } else {
            RunPhase::Waiting
        },
        RunEvent::ServicesEnded(result) => RunPhase::Cancelling(result),
        RunEvent::ShutdownRequested | RunEvent::Cancelled => RunPhase::Cancelling(Ok(())),
        RunEvent::TokenCancelled => match phase {
            RunPhase::Cancelling(outcome) => RunPhase::CleaningUp(outcome),
            _ => phase,
        },
        RunEvent::HooksRan => match phase {
            RunPhase::CleaningUp(outcome) => RunPhase::Stopped(outcome),
            _ => phase,
        },
    }
}

/// What a node does on entering a phase.
pub open spec fn action_in(phase: RunPhase, grace: u128) -> RunAction {
    match phase {
        RunPhase::SettingUp => RunAction::RunSetup,
        RunPhase::Serving => RunAction::Serve,
        RunPhase::Waiting => RunAction::AwaitCancel,
        RunPhase::Cancelling(_) => RunAction::CancelToken,
        RunPhase::CleaningUp(_) => RunAction::RunHooks(grace),
        RunPhase::Stopped(_) => RunAction::Finish,
    }
}

/// A running node.
pub struct NodeRun {
    launched: bool,
    grace: u128,
    phase: RunPhase,
}

/// The view of a [`NodeRun`].
pub struct RunView {
    pub launched: bool,
    pub grace: u128,
    pub phase: RunPhase,
}

impl View for NodeRun {
    type V = RunView;

    closed spec fn view(&self) -> RunView {
        RunView { launched: self.launched, grace: self.grace, phase: self.phase }
    }
}

impl NodeRun {
    /// A node whose setup is about to run. `grace` bounds its cleanup.
    pub fn new(launched: bool, grace: u128) -> (run: Self)
        ensures
            run@ == (RunView { launched, grace, phase: RunPhase::SettingUp }),
    {
        NodeRun { launched, grace, phase: RunPhase::SettingUp }
    }

    /// What to do now.
    pub fn action(&self) -> (action: RunAction)
        ensures
            action == action_in(self@.phase, self@.grace),
    {
        match &self.phase {
            RunPhase::SettingUp => RunAction::RunSetup,
            RunPhase::Serving => RunAction::Serve,
            RunPhase::Waiting => RunAction::AwaitCancel,
            RunPhase::Cancelling(_) => RunAction::CancelToken,
            RunPhase::CleaningUp(_) => RunAction::RunHooks(self.grace),
            RunPhase::Stopped(_) => RunAction::Finish,
        }
    }

    /// Takes note of what happened.
    pub fn on_event(self, event: RunEvent) -> (run: Self)
        requires
            admits(self@.launched, self@.phase, event),
        ensures
            run@ == (RunView { phase: next_phase(self@.launched, self@.phase, event), ..self@ }),
    {
        let NodeRun { launched, grace, phase } = self;
        let next = match event {
            RunEvent::SetupEnded(Err(error)) => RunPhase::Cancelling(Err(error)),
            RunEvent::SetupEnded(Ok(_)) => {
                if launched {
                    RunPhase::Serving
                } else {
                    RunPhase::Waiting
                }
            },
            RunEvent::ServicesEnded(result) => RunPhase::Cancelling(result),
            RunEvent::ShutdownRequested | RunEvent::Cancelled => RunPhase::Cancelling(Ok(())),
            RunEvent::TokenCancelled => match phase {
                RunPhase::Cancelling(outcome) => RunPhase::CleaningUp(outcome),
                other => other,
            },
            RunEvent::HooksRan => match phase {
                RunPhase::CleaningUp(outcome) => RunPhase::Stopped(outcome),
                other => other,
            },
        };
        NodeRun { launched, grace, phase: next }
    }

    /// The outcome of a node that has stopped.
    pub fn outcome(self) -> (outcome: Option<Result<()>>)
        ensures
            match self@.phase {
                RunPhase::Stopped(result) => outcome == Some(result),
                _ => outcome is None,
            },
    {
        match self.phase {
            RunPhase::Stopped(result) => Some(result),
            _ => None,
        }
    }
}

/// Where a node stands after `events`.
pub open spec fn phase_after(launched: bool, events: Seq<RunEvent>) -> RunPhase
    decreases events.len(),
{
    if events.len() == 0 {
        RunPhase::SettingUp
    } else {
        next_phase(launched, phase_after(launched, events.drop_last()), events.last())
    }
}

/// Whether `events` can happen in a row.
pub open spec fn possible_run(launched: bool, events: Seq<RunEvent>) -> bool
    decreases events.len(),
{
    events.len() == 0 || (possible_run(launched, events.drop_last()) && admits(
        launched,
        phase_after(launched, events.drop_last()),
        events.last(),
    ))
}

/// Every way out converges: a node that has stopped told its tasks to stop and ran
/// its cleanup, in this order and right after what made it stop, and it returns
/// what that left: the error of a failed setup or service, or success.
pub proof fn law_every_exit_converges(launched: bool, events: Seq<RunEvent>)
    requires
        possible_run(launched, events),
        phase_after(launched, events) is Stopped,
    ensures
        events.len() >= 3,
        events[events.len() - 1] is HooksRan,
        events[events.len() - 2] is TokenCancelled,
        phase_after(launched, events)->Stopped_0 == (match events[events.len() - 3] {
            RunEvent::SetupEnded(result) => result,
            RunEvent::ServicesEnded(result) => result,
            _ => Ok(()),
        }),
{
    let one = events.drop_last();
    let two = one.drop_last();
    lemma_phase(launched, events);
    assert(possible_run(launched, one));
    lemma_phase(launched, one);
    assert(possible_run(launched, two));
    lemma_phase(launched, two);
    assert(one.last() == events[events.len() - 2]);
    assert(two.last() == events[events.len() - 3]);
}

proof fn lemma_phase(launched: bool, events: Seq<RunEvent>)
    requires
        possible_run(launched, events),
    ensures
        phase_after(launched, events) is Stopped ==> events.len() > 0 && events.last() is HooksRan
            && phase_after(launched, events.drop_last()) == RunPhase::CleaningUp(
            phase_after(launched, events)->Stopped_0,
        ),
        phase_after(launched, events) is CleaningUp ==> events.len() > 0 && events.last()
            is TokenCancelled && phase_after(launched, events.drop_last()) == RunPhase::Cancelling(
            phase_after(launched, events)->CleaningUp_0,
        ),
        phase_after(launched, events) is Cancelling ==> events.len() > 0 && phase_after(
            launched,
            events,
        )->Cancelling_0 == (match events.last() {
            RunEvent::SetupEnded(result) => result,
            RunEvent::ServicesEnded(result) => result,
            _ => Ok(()),
        }),
{
}

/// A process signal that stops a node.
#[derive(Debug, Clone, Copy, PartialEq, Eq)]
pub enum StopSignal {
    Interrupt,
    Terminate,
}

/// What a signal leads to.
#[derive(Debug, Clone, Copy, PartialEq, Eq)]
pub enum SignalAction {
    /// Cancel the node's token: a graceful stop.
    Cancel,
    /// Leave the process at once with this code.
    Exit(i32),
}

/// The number that a signal has on Unix.
pub open spec fn signal_number(signal: StopSignal) -> int {
    match signal {
        StopSignal::Interrupt => 2,
        StopSignal::Terminate => 15,
    }
}

/// Turns process signals into a stop of the node.
pub struct SignalBridge {
    stopping: bool,
}

impl SignalBridge {
    /// Whether a signal has arrived.
    pub closed spec fn is_stopping(&self) -> bool {
        self.stopping
    }

    /// A bridge that has seen no signal.
    pub fn new() -> (bridge: Self)
        ensures
            !bridge.is_stopping(),
    {
        SignalBridge { stopping: false }
    }

    /// Takes a signal. The first one stops the node gracefully; another one while it
    /// stops leaves the process at once, with the conventional code.
    pub fn on_signal(&mut self, signal: StopSignal) -> (action: SignalAction)
        ensures
            final(self).is_stopping(),
            if old(self).is_stopping() {
                action matches SignalAction::Exit(code) && code == 128 + signal_number(signal)
            } else {
                action is Cancel
            },
    {
        if !self.stopping {
            self.stopping = true;
            return SignalAction::Cancel;
        }
        match signal {
            StopSignal::Interrupt => SignalAction::Exit(130),
            StopSignal::Terminate => SignalAction::Exit(143),
        }
    }
}

/// A run begins with the user's setup. A launched node whose setup succeeded serves;
/// any other waits to be stopped. A setup that failed stops the node with its error.
pub proof fn law_setup_leads_on(launched: bool, result: Result<()>)
    ensures
        phase_after(launched, Seq::empty()) is SettingUp,
        admits(launched, RunPhase::SettingUp, RunEvent::SetupEnded(result)),
        match next_phase(launched, RunPhase::SettingUp, RunEvent::SetupEnded(result)) {
            RunPhase::Serving => launched && result is Ok,
            RunPhase::Waiting => !launched && result is Ok,
            RunPhase::Cancelling(outcome) => result is Err && outcome == result,
            _ => false,
        },
{
}

/// Whatever stops a node, and whenever, the node is told to stop, then cleans up, then
/// ends with the outcome that stopped it: the services' own if they ended, else
/// success. A launched node can be stopped while it sets up and while it serves, one
/// that is not launched once it is set up.
pub proof fn law_a_stop_runs_its_course(
    launched: bool,
    phase: RunPhase,
    event: RunEvent,
    grace: u128,
)
    requires
        admits(launched, phase, event),
        event is ServicesEnded || event is ShutdownRequested || event is Cancelled,
    ensures
        ({
            let outcome = match event {
                RunEvent::ServicesEnded(result) => result,
                _ => Ok(()),
            };
            let stopping = next_phase(launched, phase, event);
            let cleaning = next_phase(launched, stopping, RunEvent::TokenCancelled);
            let stopped = next_phase(launched, cleaning, RunEvent::HooksRan);
            &&& action_in(stopping, grace) == RunAction::CancelToken
            &&& admits(launched, stopping, RunEvent::TokenCancelled)
            &&& action_in(cleaning, grace) == RunAction::RunHooks(grace)
            &&& admits(launched, cleaning, RunEvent::HooksRan)
            &&& action_in(stopped, grace) == RunAction::Finish
            &&& stopped == RunPhase::Stopped(outcome)
        }),
{
}

/// What each phase of a run does, and what can happen in it.
pub proof fn law_what_can_happen_in_a_run(
    launched: bool,
    phase: RunPhase,
    event: RunEvent,
    grace: u128,
)
    ensures
        match phase {
            RunPhase::SettingUp => action_in(phase, grace) == RunAction::RunSetup,
            RunPhase::Serving => action_in(phase, grace) == RunAction::Serve,
            RunPhase::Waiting => action_in(phase, grace) == RunAction::AwaitCancel,
            RunPhase::Cancelling(_) => action_in(phase, grace) == RunAction::CancelToken,
            RunPhase::CleaningUp(_) => action_in(phase, grace) == RunAction::RunHooks(grace),
            RunPhase::Stopped(_) => action_in(phase, grace) == RunAction::Finish,
        },
        admits(launched, phase, event) <==> match event {
            RunEvent::SetupEnded(_) => phase is SettingUp,
            RunEvent::ServicesEnded(_) => phase is Serving,
            RunEvent::ShutdownRequested => phase is Serving || (phase is SettingUp && launched),
            RunEvent::Cancelled => phase is Serving || phase is Waiting || (phase is SettingUp
                && launched),
            RunEvent::TokenCancelled => phase is Cancelling,
            RunEvent::HooksRan => phase is CleaningUp,
        },
        phase matches RunPhase::Cancelling(outcome) ==> next_phase(
            launched,
            phase,
            RunEvent::TokenCancelled,
        ) == RunPhase::CleaningUp(outcome),
        phase matches RunPhase::CleaningUp(outcome) ==> next_phase(launched, phase, RunEvent::HooksRan)
            == RunPhase::Stopped(outcome),
{
}

/// A run goes from event to event.
pub proof fn law_a_run_goes_step_by_step(launched: bool, events: Seq<RunEvent>, event: RunEvent)
    ensures
        phase_after(launched, events.push(event)) == next_phase(
            launched,
            phase_after(launched, events),
            event,
        ),
        possible_run(launched, events.push(event)) <==> possible_run(launched, events) && admits(
            launched,
            phase_after(launched, events),
            event,
        ),
        possible_run(launched, Seq::empty()),
{
    assert(events.push(event).drop_last() =~= events);
}

/// In which order the services of a node are exposed before and after setup, and in
/// which order their outcomes count.
pub proof fn law_service_orders()
    ensures
        services_before_setup().len() == 3,
        services_before_setup()[0] == NodeService::Ready,
        services_before_setup()[1] == NodeService::PeerUpdate,
        services_before_setup()[2] == NodeService::Shutdown,
        services_after_setup().len() == 2,
        services_after_setup()[0] == NodeService::Health,
        services_after_setup()[1] == NodeService::ClockOffset,
        services_joined().len() == 5,
        services_joined()[0] == NodeService::Ready,
        services_joined()[1] == NodeService::Health,
        services_joined()[2] == NodeService::ClockOffset,
        services_joined()[3] == NodeService::PeerUpdate,
        services_joined()[4] == NodeService::Shutdown,
{
}

/// The numbers of the signals that stop a node.
pub proof fn law_signal_numbers(signal: StopSignal)
    ensures
        signal_number(signal) == match signal {
            StopSignal::Interrupt => 2int,
            StopSignal::Terminate => 15int,
        },
{
}

} // verus!
