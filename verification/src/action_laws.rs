//! What holds of an action server's engine over several events.
use crate::cancel_ack::CancelState;
use crate::engine;
use crate::engine::{ActView, EngineView, StateView};
use crate::envelope;
use crate::envelope::ResultStatus;
use crate::payload;
use crate::tombstones;
use vstd::prelude::*;

verus! {

/// The first outcome of a goal wins: any later outcome for the same slot changes
/// nothing and wakes nobody.
pub proof fn law_first_outcome_wins<R>(
    before: EngineView<R>,
    id: u64,
    status: ResultStatus,
    body: Seq<u8>,
    evict_at: nat,
    later_status: ResultStatus,
    later_body: Seq<u8>,
    later_evict_at: nat,
)
    ensures
        ({
            let after = engine::delivered(before, id, status, body, evict_at).0;
            engine::delivered(after, id, later_status, later_body, later_evict_at) == (
                after,
                None::<Seq<R>>,
            )
        }),
{
}

/// Once a routable goal ended, every result request is answered at once: with its
/// outcome while the retention window lasts, with `Expired` after it. Asking
/// changes nothing, so every later request gets the same answer.
pub proof fn law_outcome_is_served<R>(
    before: EngineView<R>,
    id: u64,
    status: ResultStatus,
    body: Seq<u8>,
    evict_at: nat,
    responder: R,
    now: nat,
)
    requires
        before.wf(),
        before.slots.dom().contains(id),
        before.routes_to(id),
        before.slots[id].state is Pending,
    ensures
        ({
            let after = engine::delivered(before, id, status, body, evict_at).0;
            engine::polled(after, before.slots[id].goal_id, responder, now) == (
                after,
                ActView::Reply {
                    responder,
                    wire: if now < evict_at {
                        envelope::result_wire(status, body)
                    } else {
                        envelope::result_wire(ResultStatus::Expired, Seq::empty())
                    },
                },
            )
        }),
{
}

/// A result request against a running goal waits, and the goal's outcome wakes
/// it: the responder is among those handed back, and the slot keeps none.
pub proof fn law_waiter_is_woken<R>(
    before: EngineView<R>,
    goal_id: Seq<char>,
    responder: R,
    now: nat,
    status: ResultStatus,
    body: Seq<u8>,
    evict_at: nat,
)
    requires
        before.wf(),
        before.routable(goal_id),
        before.slot(goal_id).state is Pending,
    ensures
        ({
            let waiting = engine::polled(before, goal_id, responder, now);
            let id = before.registry[goal_id];
            let ended = engine::delivered(waiting.0, id, status, body, evict_at);
            &&& waiting.1 == ActView::<R>::Parked
            &&& ended.1 == Some(before.slot(goal_id).state->waiters.push(responder))
            &&& ended.0.slots.dom().contains(id) ==> ended.0.slots[id].state is Terminal
        }),
{
    let waiting = engine::polled(before, goal_id, responder, now).0;
    let id = before.registry[goal_id];
    assert(before.slots.dom().contains(id));
    assert(waiting.slots[id].state->waiters == before.slot(goal_id).state->waiters.push(responder));
}

pub(crate) proof fn lemma_filter_keeps<T>(all: Seq<T>, keep: spec_fn(T) -> bool, item: T)
    requires
        all.contains(item),
        keep(item),
    ensures
        all.filter(keep).contains(item),
    decreases all.len(),
{
    reveal(Seq::filter);
    let i = choose|i: int| 0 <= i < all.len() && all[i] == item;
    let shorter = all.drop_last().filter(keep);
    if i == all.len() - 1 {
        assert(all.filter(keep)[shorter.len() as int] == item);
    } else {
        assert(all.drop_last()[i] == item);
        lemma_filter_keeps(all.drop_last(), keep, item);
        let k = choose|k: int| 0 <= k < shorter.len() && shorter[k] == item;
        assert(all.filter(keep)[k] == item);
    }
}

proof fn lemma_filter_passes<T>(all: Seq<T>, keep: spec_fn(T) -> bool, i: int)
    requires
        0 <= i < all.filter(keep).len(),
    ensures
        keep(all.filter(keep)[i]),
        all.contains(all.filter(keep)[i]),
    decreases all.len(),
{
    reveal(Seq::filter);
    if all.len() > 0 {
        let shorter = all.drop_last().filter(keep);
        if i < shorter.len() {
            lemma_filter_passes(all.drop_last(), keep, i);
            let item = shorter[i];
            let k = choose|k: int| 0 <= k < all.drop_last().len() && all.drop_last()[k] == item;
            assert(all[k] == item);
        } else {
            assert(all[all.len() - 1] == all.filter(keep)[i]);
        }
    }
}

/// One thing that happens to an engine.
pub enum EngineStep<R> {
    /// A goal is accepted.
    Accept { goal_id: Seq<char> },
    /// The acceptance of the goal in slot `id` is undone.
    Withdraw { goal_id: Seq<char>, id: u64 },
    /// A cancel request arrives.
    Cancel { goal_id: Seq<char> },
    /// A result request arrives.
    Poll { goal_id: Seq<char>, responder: R, now: nat },
    /// The worker of slot `id` ends.
    Deliver { id: u64, status: ResultStatus, body: Seq<u8>, evict_at: nat },
    /// The worker of slot `id` lets go of its goal.
    Release { id: u64 },
    /// Results past their window are evicted.
    Sweep { busy: Seq<Seq<char>>, now: nat },
}

impl<R> EngineStep<R> {
    /// Whether this step is the end of the goal in slot `id`.
    pub open spec fn ends(self, id: u64) -> bool {
        match self {
            EngineStep::Deliver { id: ended, .. } => ended == id,
            EngineStep::Withdraw { id: withdrawn, .. } => withdrawn == id,
            _ => false,
        }
    }
}

/// Whether `step` takes an engine from `before` to `after`.
pub open spec fn steps_to<R>(before: EngineView<R>, step: EngineStep<R>, after: EngineView<R>) -> bool {
    match step {
        EngineStep::Accept { goal_id } => before.next_slot < u64::MAX && after == engine::accepted(
            before,
            goal_id,
        ),
        EngineStep::Withdraw { goal_id, id } => (before.slots.dom().contains(id)
            ==> before.slots[id].goal_id == goal_id) && after == engine::unregistered(
            before,
            goal_id,
            id,
        ),
        EngineStep::Cancel { goal_id } => after == engine::cancelled(before, goal_id).0,
        EngineStep::Poll { goal_id, responder, now } => after == engine::polled(
            before,
            goal_id,
            responder,
            now,
        ).0,
        EngineStep::Deliver { id, status, body, evict_at } => payload::fits_allocation(1 + body.len())
            && after == engine::delivered(before, id, status, body, evict_at).0,
        EngineStep::Release { id } => after == engine::released(before, id),
        EngineStep::Sweep { busy, now } => exists|evicted: Seq<Seq<char>>| #[trigger]
            engine::swept(before, after, busy, now, evicted),
    }
}

/// Whatever happens to an engine keeps its state well formed.
pub proof fn law_every_step_keeps_wf<R>(
    before: EngineView<R>,
    step: EngineStep<R>,
    after: EngineView<R>,
)
    requires
        before.wf(),
        steps_to(before, step, after),
    ensures
        after.wf(),
{
    match step {
        EngineStep::Accept { goal_id } => {
            let fresh = engine::registered(before, goal_id);
            let id = before.next_slot as u64;
            engine::lemma_registered_wf(before, goal_id);
            engine::lemma_filter_bounded(
                fresh.parked,
                |waiter: engine::ParkedView<R>| waiter.goal_id != goal_id,
            );
            engine::lemma_slot_change_wf(fresh, after, id, after.slots[id]);
        },
        EngineStep::Withdraw { goal_id, id } => {
            engine::lemma_unregistered_wf(before, goal_id, id);
        },
        EngineStep::Cancel { goal_id } => {
            if before.routable(goal_id) && before.slot(goal_id).state is Pending {
                engine::lemma_signalled_change_wf(before, after);
            }
        },
        EngineStep::Release { id } => {
            engine::lemma_signalled_change_wf(before, after);
        },
        EngineStep::Poll { goal_id, responder, now } => {
            if before.routable(goal_id) {
                if before.slot(goal_id).state is Pending {
                    let id = before.registry[goal_id];
                    engine::lemma_slot_change_wf(before, after, id, after.slots[id]);
                }
            } else {
                engine::lemma_parked_change_wf(before, after);
            }
        },
        EngineStep::Deliver { id, status, body, evict_at } => {
            if before.slots.dom().contains(id) && before.slots[id].state is Pending {
                if before.routes_to(id) {
                    engine::lemma_slot_change_wf(before, after, id, after.slots[id]);
                } else {
                    engine::lemma_detached_gone_wf(before, after, id);
                }
            }
        },
        EngineStep::Sweep { busy, now } => {
            let evicted = choose|evicted: Seq<Seq<char>>| #[trigger]
                engine::swept(before, after, busy, now, evicted);
            engine::lemma_filter_bounded(
                before.parked,
                |waiter: engine::ParkedView<R>| waiter.deadline > now,
            );
            engine::lemma_swept_wf(before, after, busy, now, evicted);
        },
    }
}

/// Whether `responder` waits for the outcome of slot `id`.
pub open spec fn awaits<R>(engine: EngineView<R>, id: u64, responder: R) -> bool {
    &&& engine.slots.dom().contains(id)
    &&& engine.slots[id].state matches StateView::Pending { waiters } && waiters.contains(responder)
}

proof fn lemma_still_awaits<R>(
    before: EngineView<R>,
    step: EngineStep<R>,
    after: EngineView<R>,
    id: u64,
    responder: R,
)
    requires
        before.wf(),
        awaits(before, id, responder),
        steps_to(before, step, after),
        !step.ends(id),
    ensures
        awaits(after, id, responder),
        after.wf(),
{
    law_every_step_keeps_wf(before, step, after);
    let waiters = before.slots[id].state->waiters;
    match step {
        EngineStep::Poll { goal_id, responder: newcomer, now } => {
            let at = choose|at: int| 0 <= at < waiters.len() && waiters[at] == responder;
            assert(waiters.push(newcomer)[at] == responder);
        },
        EngineStep::Sweep { busy, now } => {
            let evicted = choose|evicted: Seq<Seq<char>>| #[trigger]
                engine::swept(before, after, busy, now, evicted);
            assert(engine::swept(before, after, busy, now, evicted));
            assert(after.slots.dom().contains(id));
        },
        _ => {},
    }
}

/// No wakeup is lost: once a result request waits in a goal's slot, it waits there
/// through whatever else happens to the engine, until the goal itself ends.
pub proof fn law_waiting_request_is_kept<R>(
    states: Seq<EngineView<R>>,
    steps: Seq<EngineStep<R>>,
    id: u64,
    responder: R,
)
    requires
        states.len() == steps.len() + 1,
        states[0].wf(),
        forall|i: int|
            0 <= i < steps.len() ==> steps_to(states[i], #[trigger] steps[i], states[i + 1]),
        forall|i: int| 0 <= i < steps.len() ==> !(#[trigger] steps[i]).ends(id),
        awaits(states[0], id, responder),
    ensures
        states.last().wf(),
        awaits(states.last(), id, responder),
    decreases steps.len(),
{
    if steps.len() > 0 {
        let last = steps.len() - 1;
        let earlier = states.drop_last();
        assert forall|i: int| 0 <= i < steps.drop_last().len() implies steps_to(
            earlier[i],
            #[trigger] steps.drop_last()[i],
            earlier[i + 1],
        ) by {
            assert(steps_to(states[i], steps[i], states[i + 1]));
        }
        assert forall|i: int| 0 <= i < steps.drop_last().len() implies !(
        #[trigger] steps.drop_last()[i]).ends(id) by {
            assert(!steps[i].ends(id));
        }
        law_waiting_request_is_kept(earlier, steps.drop_last(), id, responder);
        assert(earlier.last() == states[last]);
        lemma_still_awaits(states[last], steps[last], states[last + 1], id, responder);
    }
}

/// Whether the outcome of `goal_id` is retained until `evict_at`.
pub open spec fn retains<R>(
    engine: EngineView<R>,
    goal_id: Seq<char>,
    status: ResultStatus,
    body: Seq<u8>,
    evict_at: nat,
) -> bool {
    &&& engine.routable(goal_id)
    &&& engine.slot(goal_id).state == (StateView::<R>::Terminal { status, body, evict_at })
}

impl<R> EngineStep<R> {
    /// Whether this step may end the retention until `evict_at` of the outcome of
    /// `goal_id`: a sweep that comes no sooner, or another goal of the same id.
    pub open spec fn forgets(self, goal_id: Seq<char>, evict_at: nat) -> bool {
        match self {
            EngineStep::Accept { goal_id: accepted } => accepted == goal_id,
            EngineStep::Withdraw { goal_id: withdrawn, .. } => withdrawn == goal_id,
            EngineStep::Sweep { now, .. } => evict_at <= now,
            _ => false,
        }
    }
}

proof fn lemma_still_retains<R>(
    before: EngineView<R>,
    step: EngineStep<R>,
    after: EngineView<R>,
    goal_id: Seq<char>,
    status: ResultStatus,
    body: Seq<u8>,
    evict_at: nat,
)
    requires
        before.wf(),
        retains(before, goal_id, status, body, evict_at),
        steps_to(before, step, after),
        !step.forgets(goal_id, evict_at),
    ensures
        retains(after, goal_id, status, body, evict_at),
        after.wf(),
{
    law_every_step_keeps_wf(before, step, after);
    let id = before.registry[goal_id];
    assert(before.slots.dom().contains(id));
    assert(before.slot(goal_id).goal_id == goal_id);
    match step {
        EngineStep::Accept { goal_id: accepted } => {
            if before.routable(accepted) {
                assert(before.slot(accepted).goal_id == accepted);
            }
        },
        EngineStep::Withdraw { goal_id: withdrawn, id: other } => {
            if before.routable(withdrawn) {
                assert(before.slot(withdrawn).goal_id == withdrawn);
            }
        },
        EngineStep::Cancel { goal_id: asked } => {
            if before.routable(asked) {
                assert(before.slot(asked).goal_id == asked);
            }
        },
        EngineStep::Poll { goal_id: asked, responder, now } => {
            if before.routable(asked) {
                assert(before.slot(asked).goal_id == asked);
            }
        },
        EngineStep::Sweep { busy, now } => {
            let evicted = choose|evicted: Seq<Seq<char>>| #[trigger]
                engine::swept(before, after, busy, now, evicted);
            law_sweep_spares(before, after, busy, now, evicted, goal_id);
        },
        _ => {},
    }
}

/// A result is kept for its retention time: through whatever else happens to the
/// engine, a result request within that time is answered with the outcome.
pub proof fn law_result_is_kept<R>(
    states: Seq<EngineView<R>>,
    steps: Seq<EngineStep<R>>,
    goal_id: Seq<char>,
    status: ResultStatus,
    body: Seq<u8>,
    evict_at: nat,
    responder: R,
    now: nat,
)
    requires
        states.len() == steps.len() + 1,
        states[0].wf(),
        retains(states[0], goal_id, status, body, evict_at),
        forall|i: int|
            0 <= i < steps.len() ==> steps_to(states[i], #[trigger] steps[i], states[i + 1]),
        forall|i: int| 0 <= i < steps.len() ==> !(#[trigger] steps[i]).forgets(goal_id, evict_at),
        now < evict_at,
    ensures
        states.last().wf(),
        retains(states.last(), goal_id, status, body, evict_at),
        engine::polled(states.last(), goal_id, responder, now) == (
            states.last(),
            ActView::Reply { responder, wire: envelope::result_wire(status, body) },
        ),
    decreases steps.len(),
{
    if steps.len() > 0 {
        let last = steps.len() - 1;
        let earlier = states.drop_last();
        assert forall|i: int| 0 <= i < steps.drop_last().len() implies steps_to(
            earlier[i],
            #[trigger] steps.drop_last()[i],
            earlier[i + 1],
        ) by {
            assert(steps_to(states[i], steps[i], states[i + 1]));
        }
        assert forall|i: int| 0 <= i < steps.drop_last().len() implies !(
        #[trigger] steps.drop_last()[i]).forgets(goal_id, evict_at) by {
            assert(!steps[i].forgets(goal_id, evict_at));
        }
        law_result_is_kept(
            earlier,
            steps.drop_last(),
            goal_id,
            status,
            body,
            evict_at,
            responder,
            now,
        );
        assert(earlier.last() == states[last]);
        lemma_still_retains(
            states[last],
            steps[last],
            states[last + 1],
            goal_id,
            status,
            body,
            evict_at,
        );
    }
}

/// A result request that waits for its goal to be accepted waits until that happens
/// or its time is up, whatever else happens to the engine.
pub proof fn law_early_request_is_kept<R>(
    before: EngineView<R>,
    step: EngineStep<R>,
    after: EngineView<R>,
    waiter: engine::ParkedView<R>,
)
    requires
        steps_to(before, step, after),
        before.parked.contains(waiter),
        step matches EngineStep::Accept { goal_id } ==> goal_id != waiter.goal_id,
        step matches EngineStep::Sweep { now, .. } ==> now < waiter.deadline,
    ensures
        after.parked.contains(waiter),
{
    match step {
        EngineStep::Accept { goal_id } => {
            lemma_filter_keeps(
                before.parked,
                |parked: engine::ParkedView<R>| parked.goal_id != goal_id,
                waiter,
            );
        },
        EngineStep::Poll { goal_id, responder, now } => {
            let at = choose|at: int| 0 <= at < before.parked.len() && before.parked[at] == waiter;
            assert(after.parked[at] == waiter);
        },
        EngineStep::Sweep { busy, now } => {
            let evicted = choose|evicted: Seq<Seq<char>>| #[trigger]
                engine::swept(before, after, busy, now, evicted);
            law_sweep_drops_overdue(before, after, busy, now, evicted, waiter);
        },
        _ => {},
    }
}

/// A result request that beats its goal is not lost: accepting the goal hands it
/// to the goal's slot, from which the outcome wakes it.
pub proof fn law_early_poll_is_adopted<R>(
    before: EngineView<R>,
    goal_id: Seq<char>,
    responder: R,
    now: nat,
)
    requires
        before.wf(),
        before.next_slot < u64::MAX,
        !before.routable(goal_id),
        !before.tombstones.contains(goal_id),
        before.parked.len() < engine::PENDING_WAITERS_CAP,
    ensures
        ({
            let waiting = engine::polled(before, goal_id, responder, now);
            let after = engine::accepted(waiting.0, goal_id);
            &&& waiting.1 == ActView::<R>::Parked
            &&& after.routable(goal_id)
            &&& after.slot(goal_id).state matches StateView::Pending { waiters } && waiters.contains(
                responder,
            )
        }),
{
    let waiting = engine::polled(before, goal_id, responder, now).0;
    let entry = waiting.parked.last();
    let ours = |waiter: engine::ParkedView<R>| waiter.goal_id == goal_id;
    let answer = |waiter: engine::ParkedView<R>| waiter.responder;
    assert(waiting.parked[waiting.parked.len() - 1] == entry);
    assert(waiting.parked.contains(entry));
    lemma_filter_keeps(waiting.parked, ours, entry);
    let mine = waiting.parked.filter(ours);
    let k = choose|k: int| 0 <= k < mine.len() && mine[k] == entry;
    let fresh = engine::registered(waiting, goal_id);
    let polls = engine::early_polls(fresh, goal_id);
    assert(polls =~= mine.map_values(answer));
    assert(polls[k] == responder);
    let after = engine::accepted(waiting, goal_id);
    assert(after.slot(goal_id).state->waiters =~= polls);
}

/// Accepting a goal leaves no request waiting for it outside its slot.
pub proof fn law_accept_leaves_none_parked<R>(before: EngineView<R>, goal_id: Seq<char>, i: int)
    requires
        0 <= i < engine::accepted(before, goal_id).parked.len(),
    ensures
        engine::accepted(before, goal_id).parked[i].goal_id != goal_id,
{
    lemma_filter_passes(
        engine::registered(before, goal_id).parked,
        |waiter: engine::ParkedView<R>| waiter.goal_id != goal_id,
        i,
    );
}

/// A result request that arrives between the registration of its goal and the
/// adoption of the early requests is not lost either: it goes straight into the
/// slot and stays there.
pub proof fn law_poll_during_accept_is_kept<R>(
    before: EngineView<R>,
    goal_id: Seq<char>,
    responder: R,
    now: nat,
)
    requires
        before.wf(),
        before.next_slot < u64::MAX,
    ensures
        ({
            let waiting = engine::polled(engine::registered(before, goal_id), goal_id, responder, now);
            let after = engine::adopted(waiting.0, goal_id, before.next_slot as u64);
            &&& waiting.1 == ActView::<R>::Parked
            &&& after.slot(goal_id).state matches StateView::Pending { waiters } && waiters.contains(
                responder,
            )
        }),
{
    let fresh = engine::registered(before, goal_id);
    let waiting = engine::polled(fresh, goal_id, responder, now).0;
    let after = engine::adopted(waiting, goal_id, before.next_slot as u64);
    let waiters = after.slot(goal_id).state->waiters;
    assert(fresh.slot(goal_id).state->waiters =~= Seq::<R>::empty());
    assert(waiting.slot(goal_id).state->waiters =~= seq![responder]);
    assert(waiters[0] == responder);
}

/// A cancel request for an accepted goal reaches its worker, and one for a goal
/// that ended is told so; neither answer is ever "no active goal".
pub proof fn law_cancel_is_typed<R>(
    before: EngineView<R>,
    goal_id: Seq<char>,
    status: ResultStatus,
    body: Seq<u8>,
    evict_at: nat,
)
    requires
        before.wf(),
        before.next_slot < u64::MAX,
    ensures
        ({
            let running = engine::accepted(before, goal_id);
            let signalled = engine::cancelled(running, goal_id);
            let id = before.next_slot as u64;
            let ended = engine::delivered(signalled.0, id, status, body, evict_at).0;
            &&& signalled.1 == CancelState::Signalled
            &&& !running.signalled.contains(id)
            &&& signalled.0.signalled.contains(id)
            &&& engine::cancelled(ended, goal_id) == (ended, CancelState::AlreadyTerminal)
        }),
{
}

proof fn lemma_still_signalled<R>(
    before: EngineView<R>,
    step: EngineStep<R>,
    after: EngineView<R>,
    id: u64,
)
    requires
        steps_to(before, step, after),
        before.signalled.contains(id),
        step != (EngineStep::<R>::Release { id }),
    ensures
        after.signalled.contains(id),
{
}

/// A cancel is not forgotten: a worker that was asked to cancel finds that it was,
/// whatever else happens to the engine, until it lets go of its goal. That its goal
/// ended, was displaced by another of the same id, or was evicted makes no
/// difference.
pub proof fn law_cancel_is_remembered<R>(
    states: Seq<EngineView<R>>,
    steps: Seq<EngineStep<R>>,
    id: u64,
)
    requires
        states.len() == steps.len() + 1,
        forall|i: int|
            0 <= i < steps.len() ==> steps_to(states[i], #[trigger] steps[i], states[i + 1]),
        forall|i: int|
            0 <= i < steps.len() ==> #[trigger] steps[i] != (EngineStep::<R>::Release { id }),
        states[0].signalled.contains(id),
    ensures
        states.last().signalled.contains(id),
    decreases steps.len(),
{
    if steps.len() > 0 {
        let last = steps.len() - 1;
        let earlier = states.drop_last();
        assert forall|i: int| 0 <= i < steps.drop_last().len() implies steps_to(
            earlier[i],
            #[trigger] steps.drop_last()[i],
            earlier[i + 1],
        ) by {
            assert(steps_to(states[i], steps[i], states[i + 1]));
        }
        assert forall|i: int| 0 <= i < steps.drop_last().len() implies #[trigger] steps.drop_last()[i]
            != (EngineStep::<R>::Release { id }) by {
            assert(steps[i] != (EngineStep::<R>::Release { id }));
        }
        law_cancel_is_remembered(earlier, steps.drop_last(), id);
        assert(earlier.last() == states[last]);
        lemma_still_signalled(states[last], steps[last], states[last + 1], id);
    }
}

/// A worker is asked to cancel only by a cancel request that is routed to its
/// running goal.
pub proof fn law_only_a_cancel_signals<R>(
    before: EngineView<R>,
    step: EngineStep<R>,
    after: EngineView<R>,
    id: u64,
)
    requires
        steps_to(before, step, after),
        !before.signalled.contains(id),
        after.signalled.contains(id),
    ensures
        step matches EngineStep::Cancel { goal_id } && before.routable(goal_id)
            && before.registry[goal_id] == id && before.slot(goal_id).state is Pending,
{
}

/// A goal nobody has heard of is answered `Unknown`, and asking changes nothing.
pub proof fn law_unknown_goal<R>(before: EngineView<R>, goal_id: Seq<char>)
    requires
        !before.routable(goal_id),
        !before.tombstones.contains(goal_id),
    ensures
        engine::cancelled(before, goal_id) == (before, CancelState::Unknown),
{
}

/// A result request is dropped only when the most requests that may wait for
/// unaccepted goals wait already. In every other case it is answered or kept.
pub proof fn law_poll_is_answered_or_kept<R>(
    before: EngineView<R>,
    goal_id: Seq<char>,
    responder: R,
    now: nat,
)
    ensures
        engine::polled(before, goal_id, responder, now).1 == ActView::<R>::Dropped ==> before.parked.len()
            >= engine::PENDING_WAITERS_CAP && !before.routable(goal_id),
        engine::polled(before, goal_id, responder, now).1 matches ActView::Reply {
            responder: answered,
            ..
        } ==> answered == responder,
{
}

/// A sweep spares every goal that is running, within its window, or held by
/// someone: it stays routed to the same slot in the same state.
pub proof fn law_sweep_spares<R>(
    before: EngineView<R>,
    after: EngineView<R>,
    busy: Seq<Seq<char>>,
    now: nat,
    evicted: Seq<Seq<char>>,
    goal_id: Seq<char>,
)
    requires
        before.wf(),
        engine::swept(before, after, busy, now, evicted),
        before.routable(goal_id),
        !engine::evictable(before, busy, now, goal_id),
    ensures
        after.routable(goal_id),
        after.registry[goal_id] == before.registry[goal_id],
        after.slot(goal_id) == before.slot(goal_id),
{
    assert(!evicted.contains(goal_id));
    assert(after.routable(goal_id));
    let id = before.registry[goal_id];
    assert(before.slots.dom().contains(id));
    assert(before.slot(goal_id).goal_id == goal_id);
    assert(after.slots.dom().contains(id));
}

/// A goal whose result a sweep evicted is still answered while it is remembered:
/// a result request with `Expired`, a cancel request with `AlreadyTerminal`.
pub proof fn law_evicted_goal_is_answered<R>(
    before: EngineView<R>,
    after: EngineView<R>,
    busy: Seq<Seq<char>>,
    now: nat,
    evicted: Seq<Seq<char>>,
    goal_id: Seq<char>,
    responder: R,
    later: nat,
)
    requires
        engine::swept(before, after, busy, now, evicted),
        engine::evictable(before, busy, now, goal_id),
        after.tombstones.contains(goal_id),
    ensures
        engine::polled(after, goal_id, responder, later) == (
            after,
            ActView::Reply {
                responder,
                wire: envelope::result_wire(ResultStatus::Expired, Seq::empty()),
            },
        ),
        engine::cancelled(after, goal_id) == (after, CancelState::AlreadyTerminal),
{
    assert(evicted.contains(goal_id));
    assert(!after.routable(goal_id));
}

pub(crate) proof fn lemma_recorded_from(
    order: Seq<Seq<char>>,
    cap: nat,
    goal_ids: Seq<Seq<char>>,
    goal_id: Seq<char>,
)
    requires
        tombstones::recorded_all(order, cap, goal_ids).contains(goal_id),
    ensures
        order.contains(goal_id) || goal_ids.contains(goal_id),
    decreases goal_ids.len(),
{
    if goal_ids.len() > 0 {
        let after = tombstones::recorded_all(order, cap, goal_ids);
        let shorter = goal_ids.drop_last();
        let mid = tombstones::recorded_all(order, cap, shorter);
        let k = choose|k: int| 0 <= k < after.len() && after[k] == goal_id;
        if goal_id == goal_ids.last() {
            assert(goal_ids[goal_ids.len() - 1] == goal_id);
        } else {
            if !mid.contains(goal_ids.last()) {
                let gone = tombstones::fallen(mid.len(), cap) as int;
                assert(mid[gone + k] == goal_id);
            }
            lemma_recorded_from(order, cap, shorter, goal_id);
            if shorter.contains(goal_id) {
                let j = choose|j: int| 0 <= j < shorter.len() && shorter[j] == goal_id;
                assert(goal_ids[j] == goal_id);
            }
        }
    }
}

proof fn lemma_entry_stays(order: Seq<Seq<char>>, cap: nat, goal_ids: Seq<Seq<char>>, at: int) -> (to: int)
    requires
        0 <= at < order.len(),
        order.len() - at + goal_ids.len() <= cap,
    ensures
        ({
            let after = tombstones::recorded_all(order, cap, goal_ids);
            &&& 0 <= to < after.len()
            &&& after[to] == order[at]
            &&& after.len() - to <= order.len() - at + goal_ids.len()
        }),
    decreases goal_ids.len(),
{
    if goal_ids.len() == 0 {
        at
    } else {
        let mid = tombstones::recorded_all(order, cap, goal_ids.drop_last());
        let there = lemma_entry_stays(order, cap, goal_ids.drop_last(), at);
        if mid.contains(goal_ids.last()) {
            there
        } else {
            there - tombstones::fallen(mid.len(), cap)
        }
    }
}

proof fn lemma_newcomer_stays(
    order: Seq<Seq<char>>,
    cap: nat,
    goal_ids: Seq<Seq<char>>,
    at: int,
) -> (to: int)
    requires
        goal_ids.no_duplicates(),
        0 <= at < goal_ids.len(),
        goal_ids.len() - at <= cap,
        !order.contains(goal_ids[at]),
    ensures
        ({
            let after = tombstones::recorded_all(order, cap, goal_ids);
            &&& 0 <= to < after.len()
            &&& after[to] == goal_ids[at]
            &&& after.len() - to <= goal_ids.len() - at
        }),
    decreases goal_ids.len(),
{
    let shorter = goal_ids.drop_last();
    let mid = tombstones::recorded_all(order, cap, shorter);
    let after = tombstones::recorded_all(order, cap, goal_ids);
    if at == goal_ids.len() - 1 {
        if mid.contains(goal_ids[at]) {
            lemma_recorded_from(order, cap, shorter, goal_ids[at]);
            let j = choose|j: int| 0 <= j < shorter.len() && shorter[j] == goal_ids[at];
            assert(goal_ids[j] == goal_ids[at]);
        }
        after.len() - 1
    } else {
        assert(shorter[at] == goal_ids[at]);
        let there = lemma_newcomer_stays(order, cap, shorter, at);
        if mid.contains(goal_ids.last()) {
            there
        } else {
            there - tombstones::fallen(mid.len(), cap)
        }
    }
}

/// A sweep remembers every goal it evicts that was not remembered before, unless
/// it evicts at least as many goals after it as are ever remembered.
pub proof fn law_sweep_remembers<R>(
    before: EngineView<R>,
    after: EngineView<R>,
    busy: Seq<Seq<char>>,
    now: nat,
    evicted: Seq<Seq<char>>,
    at: int,
)
    requires
        engine::swept(before, after, busy, now, evicted),
        0 <= at < evicted.len(),
        evicted.len() - at <= engine::EXPIRED_TOMBSTONE_CAP,
        !before.tombstones.contains(evicted[at]),
    ensures
        after.tombstones.contains(evicted[at]),
{
    let to = lemma_newcomer_stays(
        before.tombstones,
        engine::EXPIRED_TOMBSTONE_CAP as nat,
        evicted,
        at,
    );
    assert(after.tombstones[to] == evicted[at]);
}

/// A goal that is remembered stays so as long as it, those remembered after it and
/// those a sweep evicts are no more than are ever remembered.
pub proof fn law_sweep_keeps_memory<R>(
    before: EngineView<R>,
    after: EngineView<R>,
    busy: Seq<Seq<char>>,
    now: nat,
    evicted: Seq<Seq<char>>,
    at: int,
)
    requires
        engine::swept(before, after, busy, now, evicted),
        0 <= at < before.tombstones.len(),
        before.tombstones.len() - at + evicted.len() <= engine::EXPIRED_TOMBSTONE_CAP,
    ensures
        after.tombstones.contains(before.tombstones[at]),
{
    let to = lemma_entry_stays(
        before.tombstones,
        engine::EXPIRED_TOMBSTONE_CAP as nat,
        evicted,
        at,
    );
    assert(after.tombstones[to] == before.tombstones[at]);
}

/// A sweep never forgets a request that still has time to wait, and drops every
/// one that has not.
pub proof fn law_sweep_drops_overdue<R>(
    before: EngineView<R>,
    after: EngineView<R>,
    busy: Seq<Seq<char>>,
    now: nat,
    evicted: Seq<Seq<char>>,
    waiter: engine::ParkedView<R>,
)
    requires
        engine::swept(before, after, busy, now, evicted),
    ensures
        after.parked.contains(waiter) <==> before.parked.contains(waiter) && waiter.deadline > now,
{
    let fresh = |waiter: engine::ParkedView<R>| waiter.deadline > now;
    assert(after.parked == before.parked.filter(fresh));
    if after.parked.contains(waiter) {
        let k = choose|k: int| 0 <= k < after.parked.len() && after.parked[k] == waiter;
        lemma_filter_passes(before.parked, fresh, k);
    }
    if before.parked.contains(waiter) && waiter.deadline > now {
        lemma_filter_keeps(before.parked, fresh, waiter);
    }
}

/// Undoing the acceptance of a goal whose reply failed leaves no trace of the
/// goal: it is not routable, and its slot is gone.
pub proof fn law_unregister_undoes_accept<R>(before: EngineView<R>, goal_id: Seq<char>)
    requires
        before.wf(),
        before.next_slot < u64::MAX,
    ensures
        ({
            let running = engine::accepted(before, goal_id);
            let undone = engine::unregistered(running, goal_id, before.next_slot as u64);
            &&& !undone.routable(goal_id)
            &&& forall|other: Seq<char>| other != goal_id ==> (#[trigger] undone.routable(other)
                <==> before.routable(other))
            &&& forall|id: u64| #[trigger] undone.slots.dom().contains(id) ==> before.slots.dom().contains(id)
                && undone.slots[id] == before.slots[id]
        }),
{
    let running = engine::accepted(before, goal_id);
    let id = before.next_slot as u64;
    assert(running.slot(goal_id).state is Pending);
    assert forall|other: Seq<char>| other != goal_id implies (#[trigger] engine::unregistered(
        running,
        goal_id,
        id,
    ).routable(other) <==> before.routable(other)) by {}
}

} // verus!
