//! Deciding that the producer of a goal is gone.
use vstd::prelude::*;

verus! {

/// The wait, in nanoseconds, before each confirmation probe. It leaves a closing
/// producer's last message time to arrive, and a router bounce time to announce
/// the producer again.
pub const PRODUCER_GONE_CONFIRM_DELAY: u128 = 250_000_000;

/// How long, in nanoseconds, one liveliness probe may take.
pub const LIVELINESS_PROBE_TIMEOUT: u128 = 1_000_000_000;

/// How long, in nanoseconds, the first announcement of a watched producer is waited
/// for.
pub const LIVELINESS_RESOLVE_TIMEOUT: u128 = 2_000_000_000;

/// How many probes in a row have to find the producer absent before it is
/// declared gone.
pub const PRODUCER_GONE_CONFIRM_PROBES: usize = 2;

/// What a watcher sees.
#[derive(Debug, Clone, Copy, PartialEq, Eq)]
pub enum WatchEvent {
    /// The producer's token was announced.
    Alive,
    /// The producer's token was withdrawn.
    Gone,
    /// Nothing was announced in the time given for it.
    WindowElapsed,
    /// The stream of announcements closed.
    Closed,
    /// A probe found no token.
    ProbedAbsent,
    /// A probe found the token.
    ProbedPresent,
    /// A probe failed.
    ProbeFailed,
}

/// Where a watcher stands.
#[derive(Debug, Clone, Copy, PartialEq, Eq)]
pub enum WatchState {
    /// Waiting for the first announcement.
    Resolving,
    /// Waiting for the producer to go.
    Watching,
    /// Probing; so many probes in a row found the producer absent.
    Confirming { absent: usize },
    /// The producer is confirmed gone.
    Gone,
    /// The announcements ended first.
    Ended,
}

/// What a watcher does next.
#[derive(Debug, Clone, Copy, PartialEq, Eq)]
pub enum WatchAction {
    /// Wait for an announcement, no longer than this.
    AwaitWithin(u128),
    /// Wait for an announcement.
    Await,
    /// Wait, then probe the producer within the timeout.
    ProbeAfter { delay: u128, timeout: u128 },
    /// Nothing more.
    Stop,
}

/// Whether `event` can happen in `state`, which depends on what the watcher
/// waits for there.
pub open spec fn expects(state: WatchState, event: WatchEvent) -> bool {
    match state {
        WatchState::Resolving => event is Alive || event is Gone || event is WindowElapsed || event
            is Closed,
        WatchState::Watching => event is Alive || event is Gone || event is Closed,
        WatchState::Confirming { .. } => event is ProbedAbsent || event is ProbedPresent || event
            is ProbeFailed,
        WatchState::Gone | WatchState::Ended => false,
    }
}

/// The state after `event`.
pub open spec fn after(state: WatchState, event: WatchEvent) -> WatchState {
    match event {
        WatchEvent::Alive => WatchState::Watching,
        WatchEvent::Gone | WatchEvent::WindowElapsed => WatchState::Confirming { absent: 0 },
        WatchEvent::Closed => WatchState::Ended,
        WatchEvent::ProbedAbsent => match state {
            WatchState::Confirming { absent } => if absent + 1 >= PRODUCER_GONE_CONFIRM_PROBES {
                WatchState::Gone
            } else {
                WatchState::Confirming { absent: (absent + 1) as usize }
            },
            _ => state,
        },
        WatchEvent::ProbedPresent | WatchEvent::ProbeFailed => WatchState::Watching,
    }
}

/// What is done on entering `state`.
pub open spec fn action_in(state: WatchState) -> WatchAction {
    match state {
        WatchState::Resolving => WatchAction::AwaitWithin(LIVELINESS_RESOLVE_TIMEOUT),
        WatchState::Watching => WatchAction::Await,
        WatchState::Confirming { .. } => WatchAction::ProbeAfter {
            delay: PRODUCER_GONE_CONFIRM_DELAY,
            timeout: LIVELINESS_PROBE_TIMEOUT,
        },
        WatchState::Gone | WatchState::Ended => WatchAction::Stop,
    }
}

/// Turns the announcements about one producer into a single confirmed verdict.
pub struct ProducerGoneWatch {
    state: WatchState,
}

impl View for ProducerGoneWatch {
    type V = WatchState;

    closed spec fn view(&self) -> WatchState {
        self.state
    }
}

impl ProducerGoneWatch {
    /// A watch on a producer that a goal is about to be sent to.
    pub fn new() -> (watch: Self)
        ensures
            watch@ == WatchState::Resolving,
    {
        ProducerGoneWatch { state: WatchState::Resolving }
    }

    /// What to do now.
    pub fn action(&self) -> (action: WatchAction)
        ensures
            action == action_in(self@),
    {
        match self.state {
            WatchState::Resolving => WatchAction::AwaitWithin(LIVELINESS_RESOLVE_TIMEOUT),
            WatchState::Watching => WatchAction::Await,
            WatchState::Confirming { .. } => WatchAction::ProbeAfter {
                delay: PRODUCER_GONE_CONFIRM_DELAY,
                timeout: LIVELINESS_PROBE_TIMEOUT,
            },
            WatchState::Gone | WatchState::Ended => WatchAction::Stop,
        }
    }

    /// Takes note of what the last action led to. A withdrawn token, or none at
    /// all, is confirmed by probes; a probe that finds the token, or fails,
    /// settles nothing.
    pub fn on_event(&mut self, event: WatchEvent)
        requires
            expects(old(self)@, event),
        ensures
            final(self)@ == after(old(self)@, event),
    {
        match event {
            WatchEvent::Alive => {
                self.state = WatchState::Watching;
            },
            WatchEvent::Gone | WatchEvent::WindowElapsed => {
                self.state = WatchState::Confirming { absent: 0 };
            },
            WatchEvent::Closed => {
                self.state = WatchState::Ended;
            },
            WatchEvent::ProbedAbsent => {
                if let WatchState::Confirming { absent } = self.state {
                    if absent >= PRODUCER_GONE_CONFIRM_PROBES - 1 {
                        self.state = WatchState::Gone;
                    } else {
                        self.state = WatchState::Confirming { absent: absent + 1 };
                    }
                }
            },
            WatchEvent::ProbedPresent | WatchEvent::ProbeFailed => {
                self.state = WatchState::Watching;
            },
        }
    }

    /// Whether the producer is confirmed gone.
    pub fn is_gone(&self) -> (gone: bool)
        ensures
            gone == (self@ is Gone),
    {
        match self.state {
            WatchState::Gone => true,
            _ => false,
        }
    }
}

/// Where a watch stands after `events`.
pub open spec fn watched(events: Seq<WatchEvent>) -> WatchState
    decreases events.len(),
{
    if events.len() == 0 {
        WatchState::Resolving
    } else {
        after(watched(events.drop_last()), events.last())
    }
}

/// Whether `events` can happen in a row.
pub open spec fn possible(events: Seq<WatchEvent>) -> bool
    decreases events.len(),
{
    events.len() == 0 || (possible(events.drop_last()) && expects(
        watched(events.drop_last()),
        events.last(),
    ))
}

/// Whether `events` ends with a withdrawn or missing token followed by `count`
/// probes that all found the producer absent.
pub open spec fn ends_absent(events: Seq<WatchEvent>, count: nat) -> bool {
    &&& events.len() > count
    &&& (events[events.len() - count - 1] is Gone || events[events.len() - count - 1]
        is WindowElapsed)
    &&& forall|i: int|
        events.len() - count <= i < events.len() ==> (#[trigger] events[i]) is ProbedAbsent
}

proof fn lemma_confirming(events: Seq<WatchEvent>)
    requires
        possible(events),
    ensures
        watched(events) matches WatchState::Confirming { absent } ==> absent
            < PRODUCER_GONE_CONFIRM_PROBES && ends_absent(events, absent as nat),
        watched(events) is Gone ==> ends_absent(events, PRODUCER_GONE_CONFIRM_PROBES as nat),
    decreases events.len(),
{
    if events.len() > 0 {
        let earlier = events.drop_last();
        lemma_confirming(earlier);
        if events.last() is ProbedAbsent {
            if let WatchState::Confirming { absent } = watched(earlier) {
                assert(events[events.len() - (absent + 1) - 1] == earlier[earlier.len() - absent
                    - 1]);
                assert forall|i: int| events.len() - (absent + 1) <= i < events.len() implies (
                #[trigger] events[i]) is ProbedAbsent by {
                    if i < earlier.len() {
                        assert(earlier[i] is ProbedAbsent);
                    }
                }
            }
        }
    }
}

/// A producer is declared gone exactly when its token was withdrawn or never seen
/// and every confirmation probe after that found it absent. A flap or a failed
/// probe never makes up a death.
pub proof fn law_gone_is_confirmed(events: Seq<WatchEvent>)
    requires
        possible(events),
    ensures
        watched(events) is Gone <==> ends_absent(events, PRODUCER_GONE_CONFIRM_PROBES as nat),
{
    lemma_confirming(events);
    if ends_absent(events, PRODUCER_GONE_CONFIRM_PROBES as nat) {
        let one = events.drop_last();
        let two = one.drop_last();
        assert(events.last() is ProbedAbsent);
        assert(one.last() == events[events.len() - 2]);
        assert(two.last() == events[events.len() - 3]);
        assert(watched(two) == WatchState::Confirming { absent: 0 });
        assert(watched(one) == WatchState::Confirming { absent: 1 });
    }
}

/// The verdict is final: nothing can happen to a watch that has reached it.
pub proof fn law_verdict_is_final(events: Seq<WatchEvent>, next: WatchEvent)
    requires
        watched(events) is Gone || watched(events) is Ended,
    ensures
        !possible(events.push(next)),
{
    assert(events.push(next).drop_last() =~= events);
}

/// Only a closed stream of announcements ends a watch without a verdict, and it
/// always does.
pub proof fn law_only_a_closed_stream_ends_a_watch(events: Seq<WatchEvent>)
    requires
        possible(events),
    ensures
        watched(events) is Ended <==> events.len() > 0 && events.last() is Closed,
{
    lemma_confirming(events);
}

/// A producer that was announced, or that a probe found or failed to reach, is
/// listened to further, for as long as it takes: its next announcement can be
/// anything, and if it goes, probes start.
pub proof fn law_a_live_producer_is_watched_on(events: Seq<WatchEvent>)
    requires
        possible(events),
        events.len() > 0,
        events.last() is Alive || events.last() is ProbedPresent || events.last() is ProbeFailed,
    ensures
        action_in(watched(events)) == WatchAction::Await,
        possible(events.push(WatchEvent::Alive)),
        possible(events.push(WatchEvent::Gone)),
        possible(events.push(WatchEvent::Closed)),
        action_in(watched(events.push(WatchEvent::Gone))) == (WatchAction::ProbeAfter {
            delay: 250_000_000,
            timeout: 1_000_000_000,
        }),
{
    assert(events.push(WatchEvent::Alive).drop_last() =~= events);
    assert(events.push(WatchEvent::Gone).drop_last() =~= events);
    assert(events.push(WatchEvent::Closed).drop_last() =~= events);
}

/// A producer that goes, or is not announced in time, is declared gone after two
/// probes in a row that find it absent, and not after one; a probe that finds it, or
/// fails, takes the suspicion back. Nothing but a probe's answer is waited for
/// meanwhile.
pub proof fn law_two_absent_probes_confirm(events: Seq<WatchEvent>)
    requires
        possible(events),
        events.len() > 0,
        events.last() is Gone || events.last() is WindowElapsed,
    ensures
        ({
            let once = events.push(WatchEvent::ProbedAbsent);
            let twice = once.push(WatchEvent::ProbedAbsent);
            let probe = WatchAction::ProbeAfter { delay: 250_000_000, timeout: 1_000_000_000 };
            &&& action_in(watched(events)) == probe
            &&& possible(once) && watched(once) !is Gone && action_in(watched(once)) == probe
            &&& possible(twice) && watched(twice) is Gone && action_in(watched(twice))
                == WatchAction::Stop
            &&& possible(events.push(WatchEvent::ProbedPresent))
            &&& possible(events.push(WatchEvent::ProbeFailed))
            &&& possible(once.push(WatchEvent::ProbedPresent))
            &&& possible(once.push(WatchEvent::ProbeFailed))
            &&& !possible(events.push(WatchEvent::Alive))
            &&& !possible(events.push(WatchEvent::Gone))
            &&& !possible(events.push(WatchEvent::Closed))
        }),
{
    let once = events.push(WatchEvent::ProbedAbsent);
    let twice = once.push(WatchEvent::ProbedAbsent);
    assert(once.drop_last() =~= events);
    assert(twice.drop_last() =~= once);
    assert(events.push(WatchEvent::ProbedPresent).drop_last() =~= events);
    assert(events.push(WatchEvent::ProbeFailed).drop_last() =~= events);
    assert(once.push(WatchEvent::ProbedPresent).drop_last() =~= once);
    assert(once.push(WatchEvent::ProbeFailed).drop_last() =~= once);
    assert(events.push(WatchEvent::Alive).drop_last() =~= events);
    assert(events.push(WatchEvent::Gone).drop_last() =~= events);
    assert(events.push(WatchEvent::Closed).drop_last() =~= events);
    assert(watched(events) == WatchState::Confirming { absent: 0 });
    assert(watched(once) == WatchState::Confirming { absent: 1 });
    assert(watched(twice) == WatchState::Gone);
    assert(possible(once));
    assert(possible(twice));
}

/// A watch begins by waiting two seconds for the producer to be announced. What it
/// can see then is an announcement, a withdrawal, that the time is up, or that the
/// announcements closed; and the time can be up only as the first thing it sees.
pub proof fn law_a_watch_begins_with_the_first_announcement(events: Seq<WatchEvent>, at: int)
    requires
        possible(events),
        0 <= at < events.len(),
    ensures
        action_in(watched(Seq::empty())) == WatchAction::AwaitWithin(2_000_000_000),
        possible(seq![WatchEvent::Alive]),
        possible(seq![WatchEvent::Gone]),
        possible(seq![WatchEvent::WindowElapsed]),
        possible(seq![WatchEvent::Closed]),
        events[at] is WindowElapsed ==> at == 0,
    decreases events.len(),
{
    let first = Seq::<WatchEvent>::empty();
    assert(seq![WatchEvent::Alive].drop_last() =~= first);
    assert(seq![WatchEvent::Gone].drop_last() =~= first);
    assert(seq![WatchEvent::WindowElapsed].drop_last() =~= first);
    assert(seq![WatchEvent::Closed].drop_last() =~= first);
    assert(possible(first));
    if at < events.len() - 1 {
        law_a_watch_begins_with_the_first_announcement(events.drop_last(), at);
    } else if events.len() > 1 && events.last() is WindowElapsed {
        lemma_resolving(events.drop_last());
    }
}

proof fn lemma_resolving(events: Seq<WatchEvent>)
    requires
        possible(events),
        watched(events) is Resolving,
    ensures
        events.len() == 0,
    decreases events.len(),
{
    if events.len() > 0 && possible(events.drop_last()) {
        lemma_confirming(events);
    }
}

} // verus!
