//! The concurrent-action engine: routing of cancel and result requests to the
//! goals of one action server.
//!
//! The engine is a state machine. The server hands it each event together with
//! the current time and performs the replies that come back. Responders are
//! opaque to it: it holds them, and hands each one back at most once.
use crate::cancel_ack::CancelState;
use crate::envelope;
use crate::envelope::{wrap_goal_ack, wrap_result_outcome, ResultStatus};
use crate::error::Result;
use crate::payload;
use crate::payload::Payload;
use crate::sorted_map::SortedMap;
use crate::text;
use crate::text::text_eq;
use crate::tombstones;
use crate::tombstones::ExpiredTombstones;
use std::collections::{HashMap, HashSet};
use vstd::prelude::*;

verus! {

broadcast use vstd::std_specs::hash::group_hash_axioms;

/// The most result requests that may wait for goals not yet accepted. Beyond it
/// a request is dropped and its client falls back to its own timeout.
pub const PENDING_WAITERS_CAP: usize = 1024;

/// How long, in nanoseconds, a result request waits for its goal to be accepted.
pub const PENDING_WAITER_MAX_PARK: u128 = 30_000_000_000;

/// How often, in nanoseconds, the retention sweeper runs.
pub const SWEEP_INTERVAL: u128 = 250_000_000;

/// The most goals remembered after their result was evicted.
pub const EXPIRED_TOMBSTONE_CAP: usize = 4096;

/// How long, in nanoseconds, a terminal result stays routable, measured from the
/// terminal transition.
pub const RESULT_RETENTION_GRACE: u128 = 30_000_000_000;

/// The terminal outcome of a goal.
pub enum GoalOutcome {
    /// The worker delivered this result.
    Completed(Payload),
    /// The worker delivered this result after a cancel.
    Cancelled(Payload),
    /// The worker dropped the goal without delivering.
    Abandoned,
}

impl GoalOutcome {
    /// The status this outcome is reported with.
    pub open spec fn spec_status(&self) -> ResultStatus {
        match *self {
            GoalOutcome::Completed(_) => ResultStatus::Completed,
            GoalOutcome::Cancelled(_) => ResultStatus::Cancelled,
            GoalOutcome::Abandoned => ResultStatus::Abandoned,
        }
    }

    /// The body this outcome is reported with.
    pub open spec fn spec_body(&self) -> Seq<u8> {
        match *self {
            GoalOutcome::Completed(payload) => payload@,
            GoalOutcome::Cancelled(payload) => payload@,
            GoalOutcome::Abandoned => Seq::empty(),
        }
    }

    /// The status this outcome is reported with.
    pub fn status(&self) -> (status: ResultStatus)
        ensures
            status == self.spec_status(),
    {
        match self {
            GoalOutcome::Completed(_) => ResultStatus::Completed,
            GoalOutcome::Cancelled(_) => ResultStatus::Cancelled,
            GoalOutcome::Abandoned => ResultStatus::Abandoned,
        }
    }
}

/// Encodes a goal outcome as a result reply.
pub fn encode_result_outcome(outcome: &GoalOutcome) -> (wire: Payload)
    requires
        payload::fits_allocation(1 + outcome.spec_body().len()),
    ensures
        wire@ == envelope::result_wire(outcome.spec_status(), outcome.spec_body()),
{
    match outcome {
        GoalOutcome::Completed(payload) => wrap_result_outcome(
            ResultStatus::Completed,
            payload.as_slice(),
        ),
        GoalOutcome::Cancelled(payload) => wrap_result_outcome(
            ResultStatus::Cancelled,
            payload.as_slice(),
        ),
        GoalOutcome::Abandoned => wrap_result_outcome(
            ResultStatus::Abandoned,
            Payload::new().as_slice(),
        ),
    }
}

/// The lifecycle of a goal's result.
pub enum GoalState<R> {
    /// The worker is running. The responders wait for the outcome.
    Pending { waiters: Vec<R> },
    /// The goal ended. Its result stays fetchable until `evict_at`.
    Terminal { outcome: GoalOutcome, evict_at: u128 },
}

/// The routing state of one accepted goal.
pub struct GoalSlot<R> {
    goal_id: String,
    state: GoalState<R>,
}

/// A result request that arrived before its goal was accepted.
pub struct PendingWaiter<R> {
    goal_id: String,
    responder: R,
    deadline: u128,
}

/// The view of a goal's lifecycle.
pub enum StateView<R> {
    Pending { waiters: Seq<R> },
    Terminal { status: ResultStatus, body: Seq<u8>, evict_at: nat },
}

/// The view of a goal's routing state.
pub struct SlotView<R> {
    pub goal_id: Seq<char>,
    pub state: StateView<R>,
}

/// The view of a request that arrived before its goal.
pub struct ParkedView<R> {
    pub goal_id: Seq<char>,
    pub responder: R,
    pub deadline: nat,
}

impl<R> View for GoalSlot<R> {
    type V = SlotView<R>;

    closed spec fn view(&self) -> SlotView<R> {
        SlotView {
            goal_id: self.goal_id@,
            state: match self.state {
                GoalState::Pending { waiters } => StateView::Pending { waiters: waiters@ },
                GoalState::Terminal { outcome, evict_at } => StateView::Terminal {
                    status: outcome.spec_status(),
                    body: outcome.spec_body(),
                    evict_at: evict_at as nat,
                },
            },
        }
    }
}

impl<R> View for PendingWaiter<R> {
    type V = ParkedView<R>;

    closed spec fn view(&self) -> ParkedView<R> {
        ParkedView {
            goal_id: self.goal_id@,
            responder: self.responder,
            deadline: self.deadline as nat,
        }
    }
}

/// The state of an action server's engine.
#[verifier::ext_equal]
pub struct EngineView<R> {
    /// Which slot each routable goal occupies.
    pub registry: Map<Seq<char>, u64>,
    /// The slots that are routable or whose worker still runs.
    pub slots: Map<u64, SlotView<R>>,
    /// The slots whose worker was asked to cancel, also those that are gone from
    /// the engine while their worker may still look.
    pub signalled: Set<u64>,
    /// The requests that arrived before their goal, oldest first.
    pub parked: Seq<ParkedView<R>>,
    /// The goals whose result was evicted, oldest first.
    pub tombstones: Seq<Seq<char>>,
    /// The next unused slot number.
    pub next_slot: nat,
}

impl<R> EngineView<R> {
    /// Whether `goal_id` can be routed to a slot.
    pub open spec fn routable(self, goal_id: Seq<char>) -> bool {
        self.registry.dom().contains(goal_id)
    }

    /// The slot that requests for `goal_id` are routed to.
    pub open spec fn slot(self, goal_id: Seq<char>) -> SlotView<R> {
        self.slots[self.registry[goal_id]]
    }

    /// Whether requests for the goal of slot `id` are routed to that slot.
    pub open spec fn routes_to(self, id: u64) -> bool {
        self.routable(self.slots[id].goal_id) && self.registry[self.slots[id].goal_id] == id
    }

    /// What every reachable engine state satisfies.
    pub open spec fn wf(self) -> bool {
        &&& forall|goal_id: Seq<char>| #[trigger]
            self.routable(goal_id) ==> self.slots.dom().contains(self.registry[goal_id]) && self.slot(
                goal_id,
            ).goal_id == goal_id
        &&& forall|id: u64| #[trigger] self.slots.dom().contains(id) ==> id < self.next_slot
        &&& forall|id: u64| #[trigger] self.signalled.contains(id) ==> id < self.next_slot
        &&& forall|id: u64| #[trigger]
            self.slots.dom().contains(id) ==> (self.slots[id].state is Terminal ==> self.routes_to(id))
        &&& forall|id: u64| #[trigger]
            self.slots.dom().contains(id) ==> (self.slots[id].state matches StateView::Terminal {
                body,
                ..
            } ==> payload::fits_allocation(1 + body.len()))
        &&& self.parked.len() <= PENDING_WAITERS_CAP
    }
}

/// The engine after a goal was given a fresh slot. An earlier goal with the same
/// id is no longer routable: its slot goes, unless its worker still runs.
pub open spec fn registered<R>(engine: EngineView<R>, goal_id: Seq<char>) -> EngineView<R> {
    let id = engine.next_slot as u64;
    let kept = if engine.routable(goal_id) && engine.slot(goal_id).state is Terminal {
        engine.slots.remove(engine.registry[goal_id])
    } else {
        engine.slots
    };
    EngineView {
        registry: engine.registry.insert(goal_id, id),
        slots: kept.insert(
            id,
            SlotView { goal_id, state: StateView::Pending { waiters: Seq::empty() } },
        ),
        next_slot: engine.next_slot + 1,
        ..engine
    }
}

/// The responders of the requests that wait for `goal_id` to be accepted.
pub open spec fn early_polls<R>(engine: EngineView<R>, goal_id: Seq<char>) -> Seq<R> {
    engine.parked.filter(|waiter: ParkedView<R>| waiter.goal_id == goal_id).map_values(
        |waiter: ParkedView<R>| waiter.responder,
    )
}

/// The engine after slot `id` took over the requests that waited for `goal_id`.
pub open spec fn adopted<R>(engine: EngineView<R>, goal_id: Seq<char>, id: u64) -> EngineView<R> {
    EngineView {
        parked: engine.parked.filter(|waiter: ParkedView<R>| waiter.goal_id != goal_id),
        slots: match engine.slots[id].state {
            StateView::Pending { waiters } => engine.slots.insert(
                id,
                SlotView {
                    state: StateView::Pending { waiters: waiters + early_polls(engine, goal_id) },
                    ..engine.slots[id]
                },
            ),
            StateView::Terminal { .. } => engine.slots,
        },
        ..engine
    }
}

/// The engine after a goal was accepted.
pub open spec fn accepted<R>(engine: EngineView<R>, goal_id: Seq<char>) -> EngineView<R> {
    adopted(registered(engine, goal_id), goal_id, engine.next_slot as u64)
}

/// The engine after the reply to an accepted goal could not be sent: the goal is
/// no longer routable and its slot `id` is gone.
pub open spec fn unregistered<R>(engine: EngineView<R>, goal_id: Seq<char>, id: u64) -> EngineView<R> {
    let displaced = if engine.routable(goal_id) && engine.slot(goal_id).state is Terminal {
        engine.slots.remove(engine.registry[goal_id])
    } else {
        engine.slots
    };
    EngineView { registry: engine.registry.remove(goal_id), slots: displaced.remove(id), ..engine }
}

/// The engine after a cancel request for `goal_id`, and the answer.
pub open spec fn cancelled<R>(engine: EngineView<R>, goal_id: Seq<char>) -> (EngineView<R>, CancelState) {
    if engine.routable(goal_id) {
        if engine.slot(goal_id).state is Pending {
            (
                EngineView {
                    signalled: engine.signalled.insert(engine.registry[goal_id]),
                    ..engine
                },
                CancelState::Signalled,
            )
        } else {
            (engine, CancelState::AlreadyTerminal)
        }
    } else if engine.tombstones.contains(goal_id) {
        (engine, CancelState::AlreadyTerminal)
    } else {
        (engine, CancelState::Unknown)
    }
}

/// The engine after the worker of slot `id` let go of its goal: nobody asks any
/// more whether it was cancelled.
pub open spec fn released<R>(engine: EngineView<R>, id: u64) -> EngineView<R> {
    EngineView { signalled: engine.signalled.remove(id), ..engine }
}

/// What becomes of a result request.
pub enum ActView<R> {
    /// The request is answered now.
    Reply { responder: R, wire: Seq<u8> },
    /// The request waits.
    Parked,
    /// Too many requests wait already.
    Dropped,
}

/// The reply for a goal whose result is no longer retained.
pub open spec fn expired_wire() -> Seq<u8> {
    envelope::result_wire(ResultStatus::Expired, Seq::empty())
}

/// The engine after a result request for `goal_id`, and what becomes of it.
pub open spec fn polled<R>(
    engine: EngineView<R>,
    goal_id: Seq<char>,
    responder: R,
    now: nat,
) -> (EngineView<R>, ActView<R>) {
    if engine.routable(goal_id) {
        match engine.slot(goal_id).state {
            StateView::Terminal { status, body, evict_at } => (
                engine,
                ActView::Reply {
                    responder,
                    wire: if evict_at > now {
                        envelope::result_wire(status, body)
                    } else {
                        expired_wire()
                    },
                },
            ),
            StateView::Pending { waiters } => (
                EngineView {
                    slots: engine.slots.insert(
                        engine.registry[goal_id],
                        SlotView {
                            state: StateView::Pending { waiters: waiters.push(responder) },
                            ..engine.slot(goal_id)
                        },
                    ),
                    ..engine
                },
                ActView::Parked,
            ),
        }
    } else if engine.tombstones.contains(goal_id) {
        (engine, ActView::Reply { responder, wire: expired_wire() })
    } else if engine.parked.len() >= PENDING_WAITERS_CAP {
        (engine, ActView::Dropped)
    } else {
        (
            EngineView {
                parked: engine.parked.push(
                    ParkedView { goal_id, responder, deadline: now + PENDING_WAITER_MAX_PARK as nat },
                ),
                ..engine
            },
            ActView::Parked,
        )
    }
}

/// The engine after the worker of slot `id` ended with an outcome, and the
/// responders to wake. Only the first outcome counts.
pub open spec fn delivered<R>(
    engine: EngineView<R>,
    id: u64,
    status: ResultStatus,
    body: Seq<u8>,
    evict_at: nat,
) -> (EngineView<R>, Option<Seq<R>>) {
    if !engine.slots.dom().contains(id) {
        (engine, None)
    } else {
        match engine.slots[id].state {
            StateView::Terminal { .. } => (engine, None),
            StateView::Pending { waiters } => (
                EngineView {
                    slots: if engine.routes_to(id) {
                        engine.slots.insert(
                            id,
                            SlotView {
                                state: StateView::Terminal { status, body, evict_at },
                                ..engine.slots[id]
                            },
                        )
                    } else {
                        engine.slots.remove(id)
                    },
                    ..engine
                },
                Some(waiters),
            ),
        }
    }
}

/// Whether a sweep at `now` evicts `goal_id`: its result is past its window and
/// nobody holds its slot at the moment.
pub open spec fn evictable<R>(
    engine: EngineView<R>,
    busy: Seq<Seq<char>>,
    now: nat,
    goal_id: Seq<char>,
) -> bool {
    &&& engine.routable(goal_id)
    &&& !busy.contains(goal_id)
    &&& engine.slot(goal_id).state matches StateView::Terminal { evict_at, .. } && evict_at <= now
}

/// Whether `after` is the engine after one retention sweep of `before` at `now`
/// that evicted the goals `evicted`, in that order.
pub open spec fn swept<R>(
    before: EngineView<R>,
    after: EngineView<R>,
    busy: Seq<Seq<char>>,
    now: nat,
    evicted: Seq<Seq<char>>,
) -> bool {
    &&& evicted.no_duplicates()
    &&& forall|goal_id: Seq<char>| #[trigger]
        evicted.contains(goal_id) <==> evictable(before, busy, now, goal_id)
    &&& forall|goal_id: Seq<char>| #[trigger]
        after.routable(goal_id) <==> before.routable(goal_id) && !evicted.contains(goal_id)
    &&& forall|goal_id: Seq<char>| #[trigger]
        after.routable(goal_id) ==> after.registry[goal_id] == before.registry[goal_id]
    &&& forall|id: u64| #[trigger]
        after.slots.dom().contains(id) <==> before.slots.dom().contains(id) && !(before.routes_to(id)
            && evictable(before, busy, now, before.slots[id].goal_id))
    &&& forall|id: u64| #[trigger]
        after.slots.dom().contains(id) ==> after.slots[id] == before.slots[id]
    &&& after.tombstones == tombstones::recorded_all(
        before.tombstones,
        EXPIRED_TOMBSTONE_CAP as nat,
        evicted,
    )
    &&& after.parked == before.parked.filter(|waiter: ParkedView<R>| waiter.deadline > now)
    &&& after.signalled == before.signalled
    &&& after.next_slot == before.next_slot
}

/// What becomes of a result request.
pub enum ResultAct<R> {
    /// Answer the request now.
    Reply { responder: R, payload: Payload },
    /// The request waits in the engine.
    Parked,
    /// Too many requests wait already: the request was dropped.
    Dropped,
}

impl<R> View for ResultAct<R> {
    type V = ActView<R>;

    open spec fn view(&self) -> ActView<R> {
        match *self {
            ResultAct::Reply { responder, payload } => ActView::Reply { responder, wire: payload@ },
            ResultAct::Parked => ActView::Parked,
            ResultAct::Dropped => ActView::Dropped,
        }
    }
}

/// The first terminal transition of a goal: the responders to wake, each exactly
/// once, with the encoded outcome.
pub struct Delivery<R> {
    pub waiters: Vec<R>,
    pub reply: Payload,
}

/// The answer to a cancel request.
pub struct CancelAct {
    /// What the client is told.
    pub state: CancelState,
    /// The slot whose worker is to be signalled.
    pub signal: Option<u64>,
}

/// The concurrent-action engine of one action server.
pub struct GoalEngine<R> {
    registry: SortedMap<u64>,
    slots: HashMap<u64, GoalSlot<R>>,
    signalled: HashSet<u64>,
    parked: Vec<PendingWaiter<R>>,
    tombstones: ExpiredTombstones,
    next_slot: u64,
}

/// The views of a sequence of waiting requests.
spec fn parked_views<R>(parked: Seq<PendingWaiter<R>>) -> Seq<ParkedView<R>> {
    parked.map_values(|waiter: PendingWaiter<R>| waiter@)
}

/// The views of the slots.
spec fn slot_views<R>(slots: Map<u64, GoalSlot<R>>) -> Map<u64, SlotView<R>> {
    slots.map_values(|slot: GoalSlot<R>| slot@)
}

impl<R> View for GoalEngine<R> {
    type V = EngineView<R>;

    closed spec fn view(&self) -> EngineView<R> {
        EngineView {
            registry: self.registry@,
            slots: slot_views(self.slots@),
            signalled: self.signalled@,
            parked: parked_views(self.parked@),
            tombstones: self.tombstones@,
            next_slot: self.next_slot as nat,
        }
    }
}

/// Whether `names` lists `name`.
fn lists(names: &Vec<String>, name: &str) -> (listed: bool)
    ensures
        listed == text::texts(names@).contains(name@),
{
    let mut i: usize = 0;
    while i < names.len()
        invariant
            i <= names@.len(),
            forall|j: int| 0 <= j < i ==> (#[trigger] names@[j])@ != name@,
        decreases names@.len() - i,
    {
        if text_eq(names[i].as_str(), name) {
            proof {
                assert(text::texts(names@)[i as int] == name@);
            }
            return true;
        }
        i = i + 1;
    }
    proof {
        if text::texts(names@).contains(name@) {
            let j = choose|j: int| 0 <= j < names@.len() && text::texts(names@)[j] == name@;
            assert(names@[j]@ == name@);
        }
    }
    false
}

proof fn lemma_filter_step<T>(all: Seq<T>, i: int, keep: spec_fn(T) -> bool)
    requires
        0 <= i < all.len(),
    ensures
        all.take(i + 1).filter(keep) == (if keep(all[i]) {
            all.take(i).filter(keep).push(all[i])
        } else {
            all.take(i).filter(keep)
        }),
{
    reveal(Seq::filter);
    assert(all.take(i + 1).drop_last() =~= all.take(i));
}

pub(crate) proof fn lemma_filter_bounded<T>(all: Seq<T>, keep: spec_fn(T) -> bool)
    ensures
        all.filter(keep).len() <= all.len(),
    decreases all.len(),
{
    reveal(Seq::filter);
    if all.len() > 0 {
        lemma_filter_bounded(all.drop_last(), keep);
    }
}

impl<R> GoalEngine<R> {
    /// What every engine satisfies.
    pub closed spec fn wf(&self) -> bool {
        &&& self@.wf()
        &&& self.tombstones.wf()
        &&& self.tombstones.cap() == EXPIRED_TOMBSTONE_CAP
    }

    /// Every engine's state is well formed, and it remembers each evicted goal
    /// once, within a fixed bound.
    pub proof fn law_state(&self)
        requires
            self.wf(),
        ensures
            self@.wf(),
            self@.tombstones.no_duplicates(),
            self@.tombstones.len() <= EXPIRED_TOMBSTONE_CAP,
            self@.parked.len() <= PENDING_WAITERS_CAP,
    {
        self.tombstones.law_bounded();
    }

    /// An engine without goals.
    pub fn new() -> (engine: Self)
        ensures
            engine.wf(),
            engine@ == (EngineView::<R> {
                registry: Map::empty(),
                slots: Map::empty(),
                signalled: Set::empty(),
                parked: Seq::empty(),
                tombstones: Seq::empty(),
                next_slot: 0,
            }),
    {
        let engine = GoalEngine {
            registry: SortedMap::new(),
            slots: HashMap::new(),
            signalled: HashSet::new(),
            parked: Vec::new(),
            tombstones: ExpiredTombstones::new(EXPIRED_TOMBSTONE_CAP),
            next_slot: 0,
        };
        proof {
            assert(engine@.slots =~= Map::empty());
            assert(engine@.parked =~= Seq::empty());
        }
        engine
    }

    /// Gives `goal_id` a fresh slot and makes it routable. From here on requests
    /// for the goal reach the slot.
    pub fn register(&mut self, goal_id: &str) -> (id: u64)
        requires
            old(self).wf(),
            old(self)@.next_slot < u64::MAX,
        ensures
            final(self).wf(),
            final(self)@ == registered(old(self)@, goal_id@),
            id == old(self)@.next_slot,
    {
        let ghost before = self@;
        let id: u64 = self.next_slot;
        self.next_slot = id + 1;
        let previous = self.registry.insert(goal_id.to_owned(), id);
        if let Some(earlier) = previous {
            let ended: bool = match self.slots.get(&earlier) {
                Some(slot) => match &slot.state {
                    GoalState::Terminal { .. } => true,
                    GoalState::Pending { .. } => false,
                },
                None => false,
            };
            proof {
                assert(before.routable(goal_id@));
                assert(ended == (before.slot(goal_id@).state is Terminal));
            }
            if ended {
                let ghost held = self.slots@;
                self.slots.remove(&earlier);
                proof {
                    lemma_views_remove(held, earlier);
                }
            }
        }
        let ghost held = self.slots@;
        let slot = GoalSlot {
            goal_id: goal_id.to_owned(),
            state: GoalState::Pending { waiters: Vec::new() },
        };
        let ghost fresh = slot;
        self.slots.insert(id, slot);
        proof {
            lemma_views_insert(held, id, fresh);
            assert(fresh@.state->waiters =~= Seq::<R>::empty());
            assert(self@ =~= registered(before, goal_id@));
            lemma_registered_wf(before, goal_id@);
        }
        id
    }

    /// Moves the requests that waited for `goal_id` into slot `id`.
    pub fn adopt(&mut self, goal_id: &str, id: u64)
        requires
            old(self).wf(),
            old(self)@.slots.dom().contains(id),
        ensures
            final(self).wf(),
            final(self)@ == adopted(old(self)@, goal_id@, id),
    {
        let ghost before = self@;
        let mut waiting: Vec<PendingWaiter<R>> = Vec::new();
        std::mem::swap(&mut waiting, &mut self.parked);
        let mut mine: Vec<R> = Vec::new();
        let mut rest: Vec<PendingWaiter<R>> = Vec::new();
        let ghost all = waiting@;
        let ghost ours = |waiter: ParkedView<R>| waiter.goal_id == goal_id@;
        let ghost theirs = |waiter: ParkedView<R>| waiter.goal_id != goal_id@;
        let ghost answer = |waiter: ParkedView<R>| waiter.responder;
        proof {
            assert(parked_views(all).take(0) =~= Seq::empty());
            reveal(Seq::filter);
            assert(mine@ =~= parked_views(all).take(0).filter(ours).map_values(answer));
        }
        for waiter in it: waiting
            invariant
                it.seq() == all,
                mine@ == parked_views(all).take(it.index()).filter(ours).map_values(answer),
                parked_views(rest@) == parked_views(all).take(it.index()).filter(theirs),
                ours == (|waiter: ParkedView<R>| waiter.goal_id == goal_id@),
                theirs == (|waiter: ParkedView<R>| waiter.goal_id != goal_id@),
                answer == (|waiter: ParkedView<R>| waiter.responder),
        {
            proof {
                let i = it.index();
                assert(parked_views(all)[i] == waiter@);
                lemma_filter_step(parked_views(all), i, ours);
                lemma_filter_step(parked_views(all), i, theirs);
            }
            if text_eq(waiter.goal_id.as_str(), goal_id) {
                let ghost held = parked_views(all).take(it.index()).filter(ours);
                let ghost entry = waiter@;
                mine.push(waiter.responder);
                proof {
                    assert(mine@ =~= held.push(entry).map_values(answer));
                }
            } else {
                let ghost held = rest@;
                let ghost entry = waiter;
                rest.push(waiter);
                proof {
                    assert(parked_views(rest@) =~= parked_views(held).push(entry@));
                }
            }
        }
        self.parked = rest;
        proof {
            assert(parked_views(all).take(all.len() as int) =~= parked_views(all));
            lemma_filter_bounded(before.parked, theirs);
        }
        let ghost held = self.slots@;
        let taken = self.slots.remove(&id);
        if let Some(slot) = taken {
            let GoalSlot { goal_id: name, state } = slot;
            let grown: GoalState<R> = match state {
                GoalState::Pending { mut waiters } => {
                    waiters.append(&mut mine);
                    GoalState::Pending { waiters }
                },
                GoalState::Terminal { outcome, evict_at } => GoalState::Terminal {
                    outcome,
                    evict_at,
                },
            };
            let slot = GoalSlot { goal_id: name, state: grown };
            let ghost after = slot;
            self.slots.insert(id, slot);
            proof {
                assert(self.slots@ =~= held.insert(id, after));
                lemma_views_insert(held, id, after);
                assert(self@ =~= adopted(before, goal_id@, id));
                lemma_slot_change_wf(before, self@, id, after@);
            }
        }
    }

    /// Accepts a goal: makes it routable, takes over the requests that arrived
    /// early, and frames the reply. The goal is routable before the reply is
    /// sent, so a request the client makes right after the reply finds it.
    pub fn accept(&mut self, goal_id: &str, response: &[u8]) -> (outcome: Result<(u64, Payload)>)
        requires
            old(self).wf(),
            old(self)@.next_slot < u64::MAX,
            payload::fits_allocation(3 + response@.len()),
        ensures
            final(self).wf(),
            final(self)@ == accepted(old(self)@, goal_id@),
            outcome matches Ok(parts) && parts.0 == old(self)@.next_slot && parts.1@
                == envelope::ack_wire(true, Seq::empty(), response@),
    {
        proof {
            lemma_no_reason();
        }
        match wrap_goal_ack(true, None, response) {
            Err(error) => Err(error),
            Ok(reply) => {
                let id: u64 = self.register(goal_id);
                self.adopt(goal_id, id);
                Ok((id, reply))
            },
        }
    }

    /// Undoes the acceptance of a goal whose reply could not be sent, so that its
    /// slot does not linger. The requests it took over are dropped with it.
    pub fn unregister(&mut self, goal_id: &str, id: u64)
        requires
            old(self).wf(),
            old(self)@.slots.dom().contains(id) ==> old(self)@.slots[id].goal_id == goal_id@,
        ensures
            final(self).wf(),
            final(self)@ == unregistered(old(self)@, goal_id@, id),
    {
        let ghost before = self@;
        let removed = self.registry.remove(goal_id);
        if let Some(routed) = removed {
            let ended: bool = match self.slots.get(&routed) {
                Some(slot) => match &slot.state {
                    GoalState::Terminal { .. } => true,
                    GoalState::Pending { .. } => false,
                },
                None => false,
            };
            proof {
                assert(before.routable(goal_id@));
                assert(ended == (before.slot(goal_id@).state is Terminal));
            }
            if ended {
                let ghost held = self.slots@;
                self.slots.remove(&routed);
                proof {
                    lemma_views_remove(held, routed);
                }
            }
        }
        let ghost held = self.slots@;
        self.slots.remove(&id);
        proof {
            lemma_views_remove(held, id);
            assert(self@ =~= unregistered(before, goal_id@, id));
            lemma_unregistered_wf(before, goal_id@, id);
        }
    }

    /// Routes a cancel request for `goal_id` and answers with its typed outcome.
    pub fn cancel(&mut self, goal_id: &str) -> (act: CancelAct)
        requires
            old(self).wf(),
        ensures
            final(self).wf(),
            final(self)@ == cancelled(old(self)@, goal_id@).0,
            act.state == cancelled(old(self)@, goal_id@).1,
            act.signal == (if act.state == CancelState::Signalled {
                Some(old(self)@.registry[goal_id@])
            } else {
                None
            }),
    {
        let ghost before = self@;
        let routed: Option<u64> = match self.registry.get(goal_id) {
            Some(id) => Some(*id),
            None => None,
        };
        match routed {
            None => {
                if self.tombstones.contains(goal_id) {
                    CancelAct { state: CancelState::AlreadyTerminal, signal: None }
                } else {
                    CancelAct { state: CancelState::Unknown, signal: None }
                }
            },
            Some(id) => {
                proof {
                    assert(before.routable(goal_id@));
                }
                let pending: bool = match self.slots.get(&id) {
                    Some(slot) => match &slot.state {
                        GoalState::Pending { .. } => true,
                        GoalState::Terminal { .. } => false,
                    },
                    None => false,
                };
                proof {
                    assert(self.slots@.dom().contains(id));
                    assert(before.slots[id] == self.slots@[id]@);
                }
                if pending {
                    self.signalled.insert(id);
                    proof {
                        assert(self@ =~= cancelled(before, goal_id@).0);
                        lemma_signalled_change_wf(before, self@);
                    }
                    CancelAct { state: CancelState::Signalled, signal: Some(id) }
                } else {
                    CancelAct { state: CancelState::AlreadyTerminal, signal: None }
                }
            },
        }
    }

    /// Routes a result request for `goal_id`: answers it, or keeps its responder
    /// until the goal ends or is accepted.
    pub fn poll_result(&mut self, goal_id: &str, responder: R, now: u128) -> (act: ResultAct<R>)
        requires
            old(self).wf(),
            now + PENDING_WAITER_MAX_PARK <= u128::MAX,
        ensures
            final(self).wf(),
            final(self)@ == polled(old(self)@, goal_id@, responder, now as nat).0,
            act@ == polled(old(self)@, goal_id@, responder, now as nat).1,
    {
        let ghost before = self@;
        let routed: Option<u64> = match self.registry.get(goal_id) {
            Some(id) => Some(*id),
            None => None,
        };
        match routed {
            None => {
                if self.tombstones.contains(goal_id) {
                    let payload = wrap_result_outcome(
                        ResultStatus::Expired,
                        Payload::new().as_slice(),
                    );
                    ResultAct::Reply { responder, payload }
                } else if self.parked.len() >= PENDING_WAITERS_CAP {
                    ResultAct::Dropped
                } else {
                    let waiter = PendingWaiter {
                        goal_id: goal_id.to_owned(),
                        responder,
                        deadline: now + PENDING_WAITER_MAX_PARK,
                    };
                    let ghost entry = waiter;
                    let ghost held = self.parked@;
                    self.parked.push(waiter);
                    proof {
                        assert(parked_views(self.parked@) =~= parked_views(held).push(entry@));
                        assert(self@ =~= polled(before, goal_id@, responder, now as nat).0);
                        lemma_parked_change_wf(before, self@);
                    }
                    ResultAct::Parked
                }
            },
            Some(id) => {
                proof {
                    assert(before.routable(goal_id@));
                    assert(self.slots@.dom().contains(id));
                    assert(before.slots[id] == self.slots@[id]@);
                }
                self.act_on_slot(goal_id, id, responder, now)
            },
        }
    }

    /// Decides a result request against the goal's slot: answers with the
    /// outcome, with `Expired` when the window has passed but the sweeper has not
    /// run yet, or keeps the responder while the worker runs.
    fn act_on_slot(&mut self, goal_id: &str, id: u64, responder: R, now: u128) -> (act: ResultAct<R>)
        requires
            old(self).wf(),
            old(self)@.routable(goal_id@),
            old(self)@.registry[goal_id@] == id,
        ensures
            final(self).wf(),
            final(self)@ == polled(old(self)@, goal_id@, responder, now as nat).0,
            act@ == polled(old(self)@, goal_id@, responder, now as nat).1,
    {
        let ghost before = self@;
        let ghost held = self.slots@;
        match self.slots.remove(&id) {
            None => ResultAct::Dropped,
            Some(slot) => {
                let ghost found = slot;
                proof {
                    assert(before.slots[id] == found@);
                }
                let GoalSlot { goal_id: name, state } = slot;
                let act: ResultAct<R>;
                let next: GoalState<R>;
                match state {
                    GoalState::Pending { mut waiters } => {
                        waiters.push(responder);
                        next = GoalState::Pending { waiters };
                        act = ResultAct::Parked;
                    },
                    GoalState::Terminal { outcome, evict_at } => {
                        let payload = if evict_at > now {
                            encode_result_outcome(&outcome)
                        } else {
                            wrap_result_outcome(ResultStatus::Expired, Payload::new().as_slice())
                        };
                        next = GoalState::Terminal { outcome, evict_at };
                        act = ResultAct::Reply { responder, payload };
                    },
                }
                let slot = GoalSlot { goal_id: name, state: next };
                let ghost after = slot;
                self.slots.insert(id, slot);
                proof {
                    assert(self.slots@ =~= held.insert(id, after));
                    lemma_views_insert(held, id, after);
                    if after@.state is Terminal {
                        assert(self@.slots =~= before.slots);
                    }
                    assert(self@ =~= polled(before, goal_id@, responder, now as nat).0);
                    lemma_slot_change_wf(before, self@, id, after@);
                }
                act
            },
        }
    }

    /// Ends the goal of slot `id` with `outcome`. The first outcome wins: it
    /// hands back every waiting responder to be answered, and later calls change
    /// nothing.
    pub fn deliver(
        &mut self,
        id: u64,
        outcome: GoalOutcome,
        now: u128,
        retention: u128,
    ) -> (delivery: Option<Delivery<R>>)
        requires
            old(self).wf(),
            now + retention <= u128::MAX,
            payload::fits_allocation(1 + outcome.spec_body().len()),
        ensures
            final(self).wf(),
            ({
                let expected = delivered(
                    old(self)@,
                    id,
                    outcome.spec_status(),
                    outcome.spec_body(),
                    (now + retention) as nat,
                );
                &&& final(self)@ == expected.0
                &&& match delivery {
                    Some(delivery) => expected.1 == Some(delivery.waiters@) && delivery.reply@
                        == envelope::result_wire(outcome.spec_status(), outcome.spec_body()),
                    None => expected.1 is None,
                }
            }),
    {
        let ghost before = self@;
        let ghost held = self.slots@;
        match self.slots.remove(&id) {
            None => {
                proof {
                    assert(self.slots@ =~= held);
                }
                None
            },
            Some(slot) => {
                let ghost found = slot;
                proof {
                    assert(before.slots[id] == found@);
                    lemma_views_remove(held, id);
                }
                let GoalSlot { goal_id: name, state } = slot;
                match state {
                    GoalState::Terminal { outcome: earlier, evict_at } => {
                        let slot = GoalSlot {
                            goal_id: name,
                            state: GoalState::Terminal { outcome: earlier, evict_at },
                        };
                        self.slots.insert(id, slot);
                        proof {
                            assert(self.slots@ =~= held);
                        }
                        None
                    },
                    GoalState::Pending { waiters } => {
                        let reply = encode_result_outcome(&outcome);
                        let routed: bool = match self.registry.get(name.as_str()) {
                            Some(current) => *current == id,
                            None => false,
                        };
                        if routed {
                            let slot = GoalSlot {
                                goal_id: name,
                                state: GoalState::Terminal { outcome, evict_at: now + retention },
                            };
                            let ghost after = slot;
                            self.slots.insert(id, slot);
                            proof {
                                assert(self.slots@ =~= held.insert(id, after));
                                lemma_views_insert(held, id, after);
                                lemma_slot_change_wf(before, self@, id, after@);
                            }
                        } else {
                            proof {
                                lemma_detached_gone_wf(before, self@, id);
                            }
                        }
                        proof {
                            assert(self@ =~= delivered(
                                before,
                                id,
                                outcome.spec_status(),
                                outcome.spec_body(),
                                (now + retention) as nat,
                            ).0);
                        }
                        Some(Delivery { waiters, reply })
                    },
                }
            },
        }
    }

    /// Whether the goal of slot `id` was asked to cancel. The answer outlives the
    /// slot: it stays until the slot's worker lets go with [`GoalEngine::release`].
    pub fn is_cancelled(&self, id: u64) -> (cancelled: bool)
        ensures
            cancelled == self@.signalled.contains(id),
    {
        self.signalled.contains(&id)
    }

    /// Forgets whether slot `id` was asked to cancel, now that its worker let go of
    /// the goal.
    pub fn release(&mut self, id: u64)
        requires
            old(self).wf(),
        ensures
            final(self).wf(),
            final(self)@ == released(old(self)@, id),
    {
        let ghost before = self@;
        self.signalled.remove(&id);
        proof {
            assert(self@ =~= released(before, id));
            lemma_signalled_change_wf(before, self@);
        }
    }

    /// Whether the goal of slot `id` still waits for its outcome.
    pub fn is_pending(&self, id: u64) -> (pending: bool)
        ensures
            pending == (self@.slots.dom().contains(id) && self@.slots[id].state is Pending),
    {
        match self.slots.get(&id) {
            Some(slot) => match &slot.state {
                GoalState::Pending { .. } => true,
                GoalState::Terminal { .. } => false,
            },
            None => false,
        }
    }

    /// Whether `goal_id` is routable.
    pub fn is_routable(&self, goal_id: &str) -> (routable: bool)
        ensures
            routable == self@.routable(goal_id@),
    {
        self.registry.contains_key(goal_id)
    }

    /// Whether `goal_id` is remembered as evicted.
    pub fn is_tombstoned(&self, goal_id: &str) -> (found: bool)
        requires
            self.wf(),
        ensures
            found == self@.tombstones.contains(goal_id@),
    {
        self.tombstones.contains(goal_id)
    }

    /// How many requests wait for goals not yet accepted.
    pub fn parked_count(&self) -> (count: usize)
        ensures
            count == self@.parked.len(),
    {
        self.parked.len()
    }

    /// The routable goals whose result is past its window at `now` and whose slot
    /// nobody holds, in key order.
    fn expired_goals(&self, busy: &Vec<String>, now: u128) -> (expired: Vec<String>)
        requires
            self.wf(),
        ensures
            text::texts(expired@).no_duplicates(),
            forall|goal_id: Seq<char>| #[trigger]
                text::texts(expired@).contains(goal_id) <==> evictable(
                    self@,
                    text::texts(busy@),
                    now as nat,
                    goal_id,
                ),
    {
        let ghost gone = |goal_id: Seq<char>|
            evictable(self@, text::texts(busy@), now as nat, goal_id);
        let mut expired: Vec<String> = Vec::new();
        let count: usize = self.registry.len();
        let ghost keys = self.registry.keys();
        proof {
            reveal(Seq::filter);
            assert(keys.take(0) =~= Seq::empty());
            assert(text::texts(expired@) =~= keys.take(0).filter(gone));
        }
        let mut i: usize = 0;
        while i < count
            invariant
                self.wf(),
                i <= count,
                count == keys.len(),
                keys == self.registry.keys(),
                self.registry.keys_listed(),
                gone == (|goal_id: Seq<char>|
                    evictable(self@, text::texts(busy@), now as nat, goal_id)),
                text::texts(expired@) == keys.take(i as int).filter(gone),
            decreases count - i,
        {
            let goal_id: &String = self.registry.key_at(i);
            let id: u64 = *self.registry.value_at(i);
            proof {
                assert(self@.routable(goal_id@));
                assert(self.slots@.dom().contains(id));
                assert(self@.slots[id] == self.slots@[id]@);
                lemma_filter_step(keys, i as int, gone);
            }
            let past: bool = match self.slots.get(&id) {
                Some(slot) => match &slot.state {
                    GoalState::Terminal { evict_at, .. } => *evict_at <= now,
                    GoalState::Pending { .. } => false,
                },
                None => false,
            };
            if past && !lists(busy, goal_id.as_str()) {
                let ghost held = expired@;
                let entry = goal_id.clone();
                expired.push(entry);
                proof {
                    assert(text::texts(expired@) =~= text::texts(held).push(goal_id@));
                }
            }
            i = i + 1;
        }
        proof {
            assert(keys.take(count as int) =~= keys);
            lemma_filtered_keys(keys, gone);
            assert forall|goal_id: Seq<char>| #[trigger]
                text::texts(expired@).contains(goal_id) <==> evictable(
                    self@,
                    text::texts(busy@),
                    now as nat,
                    goal_id,
                ) by {
                if gone(goal_id) {
                    assert(self@.routable(goal_id));
                    assert(self.registry@.dom().contains(goal_id));
                    assert(keys.contains(goal_id));
                }
            }
        }
        expired
    }

    /// One retention sweep at `now`: evicts the results past their window,
    /// remembering each evicted goal, and drops the requests that waited too long
    /// for their goal. A goal listed in `busy` is held by someone at the moment
    /// and is left for the next sweep.
    pub fn sweep_once(&mut self, busy: &Vec<String>, now: u128)
        requires
            old(self).wf(),
        ensures
            final(self).wf(),
            exists|evicted: Seq<Seq<char>>|
                swept(old(self)@, final(self)@, text::texts(busy@), now as nat, evicted),
    {
        let ghost before = self@;
        let ghost raw = self.slots@;
        let expired = self.expired_goals(busy, now);
        let ghost evicted = text::texts(expired@);
        let ghost all = expired@;
        proof {
            assert(evicted.take(0) =~= Seq::empty());
        }
        for goal_id in it: expired
            invariant
                it.seq() == all,
                evicted == text::texts(all),
                evicted.no_duplicates(),
                before.wf(),
                before.registry == old(self).registry@,
                before.slots == slot_views(raw),
                forall|goal: Seq<char>| #[trigger] evicted.contains(goal) ==> before.routable(goal),
                self.tombstones.wf(),
                self.tombstones.cap() == EXPIRED_TOMBSTONE_CAP,
                self.parked == old(self).parked,
                self.signalled == old(self).signalled,
                self.next_slot == old(self).next_slot,
                forall|goal: Seq<char>| #[trigger]
                    self.registry@.dom().contains(goal) <==> before.routable(goal) && !evicted.take(
                        it.index(),
                    ).contains(goal),
                forall|goal: Seq<char>| #[trigger]
                    self.registry@.dom().contains(goal) ==> self.registry@[goal]
                        == before.registry[goal],
                forall|id: u64| #[trigger]
                    self.slots@.dom().contains(id) <==> raw.dom().contains(id) && !routed_within(
                        before,
                        evicted.take(it.index()),
                        id,
                    ),
                forall|id: u64| #[trigger] self.slots@.dom().contains(id) ==> self.slots@[id] == raw[id],
                self.tombstones@ == tombstones::recorded_all(
                    before.tombstones,
                    EXPIRED_TOMBSTONE_CAP as nat,
                    evicted.take(it.index()),
                ),
        {
            let ghost done = evicted.take(it.index());
            let ghost next = evicted.take(it.index() + 1);
            proof {
                assert(evicted[it.index()] == goal_id@);
                assert(evicted.contains(goal_id@));
                assert(next =~= done.push(goal_id@));
                assert(next.drop_last() =~= done);
                assert(!done.contains(goal_id@)) by {
                    if done.contains(goal_id@) {
                        let k = choose|k: int| 0 <= k < done.len() && done[k] == goal_id@;
                        assert(evicted[k] == evicted[it.index()]);
                    }
                }
                assert forall|goal: Seq<char>| next.contains(goal) == (done.contains(goal) || goal
                    == goal_id@) by {
                    lemma_push_contains(done, goal_id@, goal);
                }
            }
            let routed = self.registry.remove(goal_id.as_str());
            if let Some(id) = routed {
                self.slots.remove(&id);
                proof {
                    assert(id == before.registry[goal_id@]);
                    assert forall|other: u64| routed_within(before, next, other) == (routed_within(
                        before,
                        done,
                        other,
                    ) || other == id) by {
                        if routed_within(before, next, other) {
                            let goal = choose|goal: Seq<char>| #[trigger]
                                next.contains(goal) && before.registry[goal] == other;
                            assert(done.contains(goal) || goal == goal_id@);
                        }
                        if routed_within(before, done, other) {
                            let goal = choose|goal: Seq<char>| #[trigger]
                                done.contains(goal) && before.registry[goal] == other;
                            assert(next.contains(goal));
                        }
                        assert(next.contains(goal_id@));
                    }
                }
            }
            self.tombstones.insert(goal_id);
        }
        proof {
            assert(evicted.take(all.len() as int) =~= evicted);
        }
        let mut waiting: Vec<PendingWaiter<R>> = Vec::new();
        std::mem::swap(&mut waiting, &mut self.parked);
        let mut rest: Vec<PendingWaiter<R>> = Vec::new();
        let ghost queue = waiting@;
        let ghost fresh = |waiter: ParkedView<R>| waiter.deadline > now as nat;
        proof {
            assert(parked_views(queue).take(0) =~= Seq::empty());
            reveal(Seq::filter);
            assert(parked_views(rest@) =~= parked_views(queue).take(0).filter(fresh));
        }
        for waiter in it: waiting
            invariant
                it.seq() == queue,
                fresh == (|waiter: ParkedView<R>| waiter.deadline > now as nat),
                parked_views(rest@) == parked_views(queue).take(it.index()).filter(fresh),
        {
            proof {
                assert(parked_views(queue)[it.index()] == waiter@);
                lemma_filter_step(parked_views(queue), it.index(), fresh);
            }
            if waiter.deadline > now {
                let ghost held = rest@;
                let ghost entry = waiter;
                rest.push(waiter);
                proof {
                    assert(parked_views(rest@) =~= parked_views(held).push(entry@));
                }
            }
        }
        self.parked = rest;
        proof {
            assert(parked_views(queue).take(queue.len() as int) =~= parked_views(queue));
            lemma_filter_bounded(before.parked, fresh);
            let after = self@;
            let held = text::texts(busy@);
            assert forall|id: u64| before.slots.dom().contains(id) implies routed_within(
                before,
                evicted,
                id,
            ) == (before.routes_to(id) && evictable(before, held, now as nat, before.slots[id].goal_id)) by {
                if routed_within(before, evicted, id) {
                    let goal = choose|goal: Seq<char>| #[trigger]
                        evicted.contains(goal) && before.registry[goal] == id;
                    assert(before.routable(goal));
                    assert(before.slot(goal).goal_id == goal);
                }
                if before.routes_to(id) && evictable(before, held, now as nat, before.slots[id].goal_id) {
                    assert(evicted.contains(before.slots[id].goal_id));
                }
            }
            assert(swept(before, after, held, now as nat, evicted)) by {
                assert forall|id: u64| #[trigger]
                    after.slots.dom().contains(id) <==> before.slots.dom().contains(id) && !(
                    before.routes_to(id) && evictable(
                        before,
                        held,
                        now as nat,
                        before.slots[id].goal_id,
                    )) by {
                    assert(after.slots.dom().contains(id) == self.slots@.dom().contains(id));
                    assert(before.slots.dom().contains(id) == raw.dom().contains(id));
                }
                assert forall|id: u64| #[trigger] after.slots.dom().contains(id) implies after.slots[id]
                    == before.slots[id] by {
                    assert(self.slots@.dom().contains(id));
                }
                assert forall|goal: Seq<char>| #[trigger] after.routable(goal) implies after.registry[goal]
                    == before.registry[goal] by {
                    assert(self.registry@.dom().contains(goal));
                }
                assert forall|goal: Seq<char>| #[trigger] after.routable(goal) <==> before.routable(goal)
                    && !evicted.contains(goal) by {
                    assert(after.routable(goal) == self.registry@.dom().contains(goal));
                }
            }
            lemma_swept_wf(before, after, held, now as nat, evicted);
        }
    }
}

/// Whether one of `goals` is routed to slot `id`.
spec fn routed_within<R>(engine: EngineView<R>, goals: Seq<Seq<char>>, id: u64) -> bool {
    exists|goal: Seq<char>| #[trigger] goals.contains(goal) && engine.registry[goal] == id
}

proof fn lemma_push_contains<T>(items: Seq<T>, item: T, other: T)
    ensures
        items.push(item).contains(other) == (items.contains(other) || other == item),
{
    let pushed = items.push(item);
    if items.contains(other) {
        let k = choose|k: int| 0 <= k < items.len() && items[k] == other;
        assert(pushed[k] == other);
    }
    if other == item {
        assert(pushed[items.len() as int] == other);
    }
    if pushed.contains(other) && other != item {
        let k = choose|k: int| 0 <= k < pushed.len() && pushed[k] == other;
        assert(items[k] == other);
    }
}

/// Filtering ascending keys leaves distinct keys: exactly those that pass.
proof fn lemma_filtered_keys(keys: Seq<Seq<char>>, keep: spec_fn(Seq<char>) -> bool)
    requires
        forall|i: int, j: int|
            0 <= i < j < keys.len() ==> crate::text::text_less(#[trigger] keys[i], #[trigger] keys[j]),
    ensures
        keys.filter(keep).no_duplicates(),
        forall|key: Seq<char>| #[trigger]
            keys.filter(keep).contains(key) <==> keys.contains(key) && keep(key),
    decreases keys.len(),
{
    reveal(Seq::filter);
    if keys.len() > 0 {
        let shorter = keys.drop_last();
        let last = keys.last();
        lemma_filtered_keys(shorter, keep);
        assert(!shorter.contains(last)) by {
            if shorter.contains(last) {
                let k = choose|k: int| 0 <= k < shorter.len() && shorter[k] == last;
                assert(crate::text::text_less(keys[k], keys[keys.len() - 1]));
                crate::text::lemma_text_total(last, last);
            }
        }
        assert(keys =~= shorter.push(last));
        let kept = shorter.filter(keep);
        assert(!kept.contains(last));
        assert(kept.push(last).no_duplicates()) by {
            assert forall|i: int, j: int|
                0 <= i < kept.push(last).len() && 0 <= j < kept.push(last).len() && i != j implies kept.push(
                last,
            )[i] != kept.push(last)[j] by {
                if i < kept.len() {
                    assert(kept.contains(kept[i]));
                }
                if j < kept.len() {
                    assert(kept.contains(kept[j]));
                }
            }
        }
        assert forall|key: Seq<char>| #[trigger]
            keys.filter(keep).contains(key) <==> keys.contains(key) && keep(key) by {
            lemma_push_contains(shorter, last, key);
            lemma_push_contains(shorter.filter(keep), last, key);
        }
    }
}

pub(crate) proof fn lemma_swept_wf<R>(
    before: EngineView<R>,
    after: EngineView<R>,
    busy: Seq<Seq<char>>,
    now: nat,
    evicted: Seq<Seq<char>>,
)
    requires
        before.wf(),
        swept(before, after, busy, now, evicted),
        after.parked.len() <= PENDING_WAITERS_CAP,
    ensures
        after.wf(),
{
    assert forall|goal_id: Seq<char>| #[trigger] after.routable(goal_id) implies after.slots.dom().contains(
        after.registry[goal_id],
    ) && after.slot(goal_id).goal_id == goal_id by {
        assert(before.routable(goal_id));
        assert(before.slot(goal_id).goal_id == goal_id);
        assert(!evicted.contains(goal_id));
        let id = before.registry[goal_id];
        assert(before.slots.dom().contains(id));
        assert(after.slots.dom().contains(id));
    }
    assert forall|id: u64| #[trigger]
        after.slots.dom().contains(id) && after.slots[id].state is Terminal implies after.routes_to(id) by {
        assert(before.slots.dom().contains(id));
        assert(before.routes_to(id));
        let goal_id = before.slots[id].goal_id;
        assert(!evicted.contains(goal_id));
        assert(after.routable(goal_id));
    }
}

proof fn lemma_no_reason()
    ensures
        vstd::utf8::encode_utf8(envelope::reason_text(None)).len() == 0,
        envelope::reason_text(None) == Seq::<char>::empty(),
{
}

proof fn lemma_views_insert<R>(slots: Map<u64, GoalSlot<R>>, id: u64, slot: GoalSlot<R>)
    ensures
        slot_views(slots.insert(id, slot)) == slot_views(slots).insert(id, slot@),
{
    assert(slot_views(slots.insert(id, slot)) =~= slot_views(slots).insert(id, slot@));
}

proof fn lemma_views_remove<R>(slots: Map<u64, GoalSlot<R>>, id: u64)
    ensures
        slot_views(slots.remove(id)) == slot_views(slots).remove(id),
{
    assert(slot_views(slots.remove(id)) =~= slot_views(slots).remove(id));
}

pub(crate) proof fn lemma_slot_change_wf<R>(
    before: EngineView<R>,
    after: EngineView<R>,
    id: u64,
    slot: SlotView<R>,
)
    requires
        before.wf(),
        before.slots.dom().contains(id),
        slot.goal_id == before.slots[id].goal_id,
        slot.state matches StateView::Terminal { body, .. } ==> before.routes_to(id)
            && payload::fits_allocation(1 + body.len()),
        after.slots == before.slots.insert(id, slot),
        after.registry == before.registry,
        after.signalled == before.signalled,
        after.next_slot == before.next_slot,
        after.parked.len() <= PENDING_WAITERS_CAP,
    ensures
        after.wf(),
{
    assert forall|goal_id: Seq<char>| #[trigger] after.routable(goal_id) implies after.slots.dom().contains(
        after.registry[goal_id],
    ) && after.slot(goal_id).goal_id == goal_id by {
        assert(before.routable(goal_id));
    }
    assert forall|other: u64| #[trigger]
        after.slots.dom().contains(other) && after.slots[other].state is Terminal implies after.routes_to(
        other,
    ) by {
        assert(before.slots.dom().contains(other));
    }
}

pub(crate) proof fn lemma_parked_change_wf<R>(before: EngineView<R>, after: EngineView<R>)
    requires
        before.wf(),
        after == (EngineView { parked: after.parked, ..before }),
        after.parked.len() <= PENDING_WAITERS_CAP,
    ensures
        after.wf(),
{
    assert forall|goal_id: Seq<char>| #[trigger] after.routable(goal_id) implies after.slots.dom().contains(
        after.registry[goal_id],
    ) && after.slot(goal_id).goal_id == goal_id by {
        assert(before.routable(goal_id));
        assert(before.slot(goal_id).goal_id == goal_id);
    }
    assert forall|id: u64| #[trigger]
        after.slots.dom().contains(id) && after.slots[id].state is Terminal implies after.routes_to(id) by {
        assert(before.slots.dom().contains(id));
        assert(before.routes_to(id));
    }
}

pub(crate) proof fn lemma_signalled_change_wf<R>(before: EngineView<R>, after: EngineView<R>)
    requires
        before.wf(),
        after == (EngineView { signalled: after.signalled, ..before }),
        forall|id: u64| #[trigger] after.signalled.contains(id) ==> id < before.next_slot,
    ensures
        after.wf(),
{
    assert forall|goal_id: Seq<char>| #[trigger] after.routable(goal_id) implies after.slots.dom().contains(
        after.registry[goal_id],
    ) && after.slot(goal_id).goal_id == goal_id by {
        assert(before.routable(goal_id));
        assert(before.slot(goal_id).goal_id == goal_id);
    }
    assert forall|id: u64| #[trigger]
        after.slots.dom().contains(id) && after.slots[id].state is Terminal implies after.routes_to(id) by {
        assert(before.slots.dom().contains(id));
        assert(before.routes_to(id));
    }
}

pub(crate) proof fn lemma_detached_gone_wf<R>(before: EngineView<R>, after: EngineView<R>, id: u64)
    requires
        before.wf(),
        before.slots.dom().contains(id),
        !before.routes_to(id),
        after == (EngineView { slots: before.slots.remove(id), ..before }),
    ensures
        after.wf(),
{
    assert forall|goal_id: Seq<char>| #[trigger] after.routable(goal_id) implies after.slots.dom().contains(
        after.registry[goal_id],
    ) && after.slot(goal_id).goal_id == goal_id by {
        assert(before.routable(goal_id));
        assert(before.slot(goal_id).goal_id == goal_id);
    }
    assert forall|other: u64| #[trigger]
        after.slots.dom().contains(other) && after.slots[other].state is Terminal implies after.routes_to(
        other,
    ) by {
        assert(before.slots.dom().contains(other));
    }
}

pub(crate) proof fn lemma_unregistered_wf<R>(before: EngineView<R>, goal_id: Seq<char>, id: u64)
    requires
        before.wf(),
        before.slots.dom().contains(id) ==> before.slots[id].goal_id == goal_id,
    ensures
        unregistered(before, goal_id, id).wf(),
{
    let after = unregistered(before, goal_id, id);
    assert forall|other: Seq<char>| #[trigger] after.routable(other) implies after.slots.dom().contains(
        after.registry[other],
    ) && after.slot(other).goal_id == other by {
        assert(before.routable(other));
        assert(before.slot(other).goal_id == other);
        if before.routable(goal_id) {
            assert(before.slot(goal_id).goal_id == goal_id);
        }
    }
    assert forall|other: u64| #[trigger]
        after.slots.dom().contains(other) && after.slots[other].state is Terminal implies after.routes_to(
        other,
    ) by {
        assert(before.slots.dom().contains(other));
        assert(before.routes_to(other));
    }
}

pub(crate) proof fn lemma_registered_wf<R>(before: EngineView<R>, goal_id: Seq<char>)
    requires
        before.wf(),
        before.next_slot < u64::MAX,
    ensures
        registered(before, goal_id).wf(),
{
    let after = registered(before, goal_id);
    let fresh = before.next_slot as u64;
    assert forall|other: Seq<char>| #[trigger] after.routable(other) implies after.slots.dom().contains(
        after.registry[other],
    ) && after.slot(other).goal_id == other by {
        if other != goal_id {
            assert(before.routable(other));
            assert(before.slot(other).goal_id == other);
            if before.routable(goal_id) {
                assert(before.slot(goal_id).goal_id == goal_id);
            }
        }
    }
    assert forall|id: u64| #[trigger]
        after.slots.dom().contains(id) && after.slots[id].state is Terminal implies after.routes_to(id) by {
        if id != fresh {
            assert(before.slots.dom().contains(id));
            assert(before.routes_to(id));
            if before.slots[id].goal_id == goal_id {
                assert(before.routable(goal_id));
                assert(false);
            }
        }
    }
}

} // verus!
