//! What each event does for the goals of an action server and their clients, in
//! terms of what the client asked, when it asked, and what it is told.
use crate::action_laws;
use crate::cancel_ack::CancelState;
use crate::engine;
use crate::engine::{ActView, EngineView, GoalEngine, GoalOutcome, ParkedView, ResultAct, StateView};
use crate::envelope::ResultStatus;
use crate::goal;
use crate::goal::{GoalContextView, GoalEnd};
use vstd::prelude::*;

verus! {

/// A result request for a goal that nobody knows yet, and for which there is room,
/// waits thirty seconds from its arrival: every sweep before that keeps it, and
/// every sweep from then on drops it.
pub proof fn law_early_request_waits_thirty_seconds<R>(
    before: EngineView<R>,
    goal_id: Seq<char>,
    responder: R,
    arrived: nat,
    after: EngineView<R>,
    busy: Seq<Seq<char>>,
    later: nat,
    evicted: Seq<Seq<char>>,
)
    requires
        !before.registry.dom().contains(goal_id),
        !before.tombstones.contains(goal_id),
        before.parked.len() < 1024,
        engine::swept(
            engine::polled(before, goal_id, responder, arrived).0,
            after,
            busy,
            later,
            evicted,
        ),
    ensures
        ({
            let waiting = engine::polled(before, goal_id, responder, arrived);
            let entry = ParkedView { goal_id, responder, deadline: arrived + 30_000_000_000nat };
            &&& waiting.1 == ActView::<R>::Parked
            &&& waiting.0.parked == before.parked.push(entry)
            &&& later < arrived + 30_000_000_000 ==> after.parked.contains(entry)
            &&& later >= arrived + 30_000_000_000 ==> !after.parked.contains(entry)
        }),
{
    let waiting = engine::polled(before, goal_id, responder, arrived).0;
    let entry = ParkedView { goal_id, responder, deadline: arrived + 30_000_000_000nat };
    assert(waiting.parked[before.parked.len() as int] == entry);
    action_laws::law_sweep_drops_overdue(waiting, after, busy, later, evicted, entry);
}

/// A result request that comes less than thirty seconds before its goal is accepted
/// is answered when the goal ends, also when a sweep runs in between.
pub proof fn law_early_request_is_answered<R>(
    before: EngineView<R>,
    goal_id: Seq<char>,
    responder: R,
    arrived: nat,
    swept: EngineView<R>,
    busy: Seq<Seq<char>>,
    later: nat,
    evicted: Seq<Seq<char>>,
    status: ResultStatus,
    body: Seq<u8>,
    evict_at: nat,
)
    requires
        !before.registry.dom().contains(goal_id),
        !before.tombstones.contains(goal_id),
        before.parked.len() < 1024,
        before.next_slot < u64::MAX,
        later < arrived + 30_000_000_000,
        engine::swept(
            engine::polled(before, goal_id, responder, arrived).0,
            swept,
            busy,
            later,
            evicted,
        ),
    ensures
        ({
            let running = engine::accepted(swept, goal_id);
            let woken = engine::delivered(running, before.next_slot as u64, status, body, evict_at).1;
            woken matches Some(waiters) && waiters.contains(responder)
        }),
{
    law_early_request_waits_thirty_seconds(
        before,
        goal_id,
        responder,
        arrived,
        swept,
        busy,
        later,
        evicted,
    );
    let entry = ParkedView { goal_id, responder, deadline: arrived + 30_000_000_000nat };
    let ours = |waiter: ParkedView<R>| waiter.goal_id == goal_id;
    let answer = |waiter: ParkedView<R>| waiter.responder;
    action_laws::lemma_filter_keeps(swept.parked, ours, entry);
    let mine = swept.parked.filter(ours);
    let k = choose|k: int| 0 <= k < mine.len() && mine[k] == entry;
    let id = before.next_slot as u64;
    law_accept_makes_the_goal_reachable(swept, goal_id);
    let waiters = engine::accepted(swept, goal_id).slots[id].state->waiters;
    assert(waiters == mine.map_values(answer));
    assert(waiters[k] == responder);
}

/// The byte that tells a client how its goal ended.
pub open spec fn told(status: ResultStatus, byte: u8) -> bool {
    match status {
        ResultStatus::Completed => byte == 0,
        ResultStatus::Cancelled => byte == 1,
        ResultStatus::Abandoned => byte == 2,
        ResultStatus::Expired => byte == 3,
    }
}

/// A result request for a goal that ended is answered at once, and changes nothing.
/// Before its retention is over the answer is how it ended and its result; from
/// then on it is that the result has expired.
pub proof fn law_ended_goal_is_answered_at_once<R>(
    before: EngineView<R>,
    goal_id: Seq<char>,
    responder: R,
    now: nat,
)
    requires
        before.registry.dom().contains(goal_id),
        before.slots[before.registry[goal_id]].state is Terminal,
    ensures
        engine::polled(before, goal_id, responder, now).0 == before,
        match before.slots[before.registry[goal_id]].state {
            StateView::Terminal { status, body, evict_at } => match engine::polled(
                before,
                goal_id,
                responder,
                now,
            ).1 {
                ActView::Reply { responder: answered, wire } => answered == responder && wire.len() > 0
                    && if now < evict_at {
                    told(status, wire[0]) && wire.skip(1) == body
                } else {
                    wire == seq![3u8]
                },
                _ => false,
            },
            _ => true,
        },
{
    if let StateView::Terminal { status, body, evict_at } = before.slots[before.registry[goal_id]].state {
        let wire = engine::polled(before, goal_id, responder, now).1->wire;
        if now < evict_at {
            assert(wire.skip(1) =~= body);
        } else {
            assert(wire =~= seq![3u8]);
        }
    }
}

/// A result request for a running goal waits in the goal's slot, behind those that
/// wait there already, and nothing else changes.
pub proof fn law_request_waits_for_a_running_goal<R>(
    before: EngineView<R>,
    goal_id: Seq<char>,
    responder: R,
    now: nat,
)
    requires
        before.wf(),
        before.registry.dom().contains(goal_id),
        before.slots[before.registry[goal_id]].state is Pending,
    ensures
        ({
            let polled = engine::polled(before, goal_id, responder, now);
            let id = before.registry[goal_id];
            &&& polled.1 == ActView::<R>::Parked
            &&& polled.0.slots.dom() == before.slots.dom()
            &&& polled.0.slots[id].goal_id == goal_id
            &&& polled.0.slots[id].state matches StateView::Pending { waiters } && waiters
                == before.slots[id].state->waiters.push(responder)
            &&& forall|other: u64| other != id ==> #[trigger] polled.0.slots[other] == before.slots[other]
            &&& polled.0.registry == before.registry
            &&& polled.0.signalled == before.signalled
            &&& polled.0.parked == before.parked
            &&& polled.0.tombstones == before.tombstones
            &&& polled.0.next_slot == before.next_slot
        }),
{
    let id = before.registry[goal_id];
    assert(before.routable(goal_id));
    assert(before.slots.dom().contains(id));
    assert(before.slot(goal_id).goal_id == goal_id);
    let polled = engine::polled(before, goal_id, responder, now).0;
    assert(polled.slots.dom() =~= before.slots.dom());
}

/// A result request for a goal that is not routable is told that the result has
/// expired when the goal is remembered as evicted; else it waits for the goal to be
/// accepted, unless 1024 requests wait so already: then it is dropped. Nothing else
/// changes.
pub proof fn law_request_for_an_absent_goal<R>(
    before: EngineView<R>,
    goal_id: Seq<char>,
    responder: R,
    now: nat,
)
    requires
        !before.registry.dom().contains(goal_id),
    ensures
        ({
            let polled = engine::polled(before, goal_id, responder, now);
            &&& before.tombstones.contains(goal_id) ==> polled == (
                before,
                ActView::Reply { responder, wire: seq![3u8] },
            )
            &&& !before.tombstones.contains(goal_id) && before.parked.len() >= 1024 ==> polled == (
                before,
                ActView::<R>::Dropped,
            )
            &&& !before.tombstones.contains(goal_id) && before.parked.len() < 1024 ==> polled.1
                == ActView::<R>::Parked && polled.0.slots == before.slots
            &&& polled.0.registry == before.registry
            &&& polled.0.slots == before.slots
            &&& polled.0.signalled == before.signalled
            &&& polled.0.tombstones == before.tombstones
            &&& polled.0.next_slot == before.next_slot
        }),
{
    if before.tombstones.contains(goal_id) {
        let wire = engine::polled(before, goal_id, responder, now).1->wire;
        assert(wire =~= seq![3u8]);
    }
}

/// Accepting a goal makes it reachable under its id, in a slot of its own that no
/// goal had before. The requests that waited for it wait in that slot, in the order
/// in which they came, and those that wait for other goals stay. An earlier goal of
/// the same id loses its slot if it has ended; every other slot stays as it was.
pub proof fn law_accept_makes_the_goal_reachable<R>(before: EngineView<R>, goal_id: Seq<char>)
    requires
        before.next_slot < u64::MAX,
    ensures
        ({
            let after = engine::accepted(before, goal_id);
            let id = before.next_slot as u64;
            &&& after.registry == before.registry.insert(goal_id, id)
            &&& after.slots.dom().contains(id)
            &&& after.slots[id].goal_id == goal_id
            &&& after.slots[id].state matches StateView::Pending { waiters } && waiters
                == before.parked.filter(
                |waiter: ParkedView<R>| waiter.goal_id == goal_id,
            ).map_values(|waiter: ParkedView<R>| waiter.responder)
            &&& after.parked == before.parked.filter(
                |waiter: ParkedView<R>| waiter.goal_id != goal_id,
            )
            &&& forall|other: u64|
                other != id ==> (#[trigger] after.slots.dom().contains(other)
                    <==> before.slots.dom().contains(other) && !(before.registry.dom().contains(
                    goal_id,
                ) && before.registry[goal_id] == other && before.slots[other].state is Terminal))
            &&& forall|other: u64|
                other != id && #[trigger] after.slots.dom().contains(other) ==> after.slots[other]
                    == before.slots[other]
            &&& after.signalled == before.signalled
            &&& after.tombstones == before.tombstones
            &&& after.next_slot == before.next_slot + 1
        }),
{
    let after = engine::accepted(before, goal_id);
    let id = before.next_slot as u64;
    let waiters = before.parked.filter(
        |waiter: ParkedView<R>| waiter.goal_id == goal_id,
    ).map_values(|waiter: ParkedView<R>| waiter.responder);
    assert(after.slots[id].state->waiters =~= waiters);
}

/// A goal that was accepted, and whose reply could not be sent, is not reachable
/// under its id any more and its slot is gone; of the others only a goal of the same
/// id that has ended loses its slot.
pub proof fn law_withdrawn_goal_is_gone<R>(before: EngineView<R>, goal_id: Seq<char>, id: u64)
    ensures
        ({
            let after = engine::unregistered(before, goal_id, id);
            &&& after.registry == before.registry.remove(goal_id)
            &&& forall|other: u64| #[trigger]
                after.slots.dom().contains(other) <==> before.slots.dom().contains(other) && other
                    != id && !(before.registry.dom().contains(goal_id) && before.registry[goal_id]
                    == other && before.slots[other].state is Terminal)
            &&& forall|other: u64| #[trigger]
                after.slots.dom().contains(other) ==> after.slots[other] == before.slots[other]
            &&& after.signalled == before.signalled
            &&& after.parked == before.parked
            &&& after.tombstones == before.tombstones
            &&& after.next_slot == before.next_slot
        }),
{
}

/// A cancel request reaches the worker of the goal that its id leads to, if that
/// goal is running. A goal that ended, and one whose result was evicted, has ended
/// already; any other goal is unknown. Nothing but the worker's signal changes.
pub proof fn law_cancel_reaches_the_running_goal<R>(before: EngineView<R>, goal_id: Seq<char>)
    ensures
        ({
            let cancelled = engine::cancelled(before, goal_id);
            let known = before.registry.dom().contains(goal_id);
            let id = before.registry[goal_id];
            let running = known && before.slots[id].state is Pending;
            &&& cancelled.1 == CancelState::Signalled <==> running
            &&& cancelled.1 == CancelState::Unknown <==> !known && !before.tombstones.contains(goal_id)
            &&& running ==> cancelled.0.signalled == before.signalled.insert(id)
            &&& !running ==> cancelled.0.signalled == before.signalled
            &&& cancelled.0.registry == before.registry
            &&& cancelled.0.slots == before.slots
            &&& cancelled.0.parked == before.parked
            &&& cancelled.0.tombstones == before.tombstones
            &&& cancelled.0.next_slot == before.next_slot
        }),
{
}

/// A worker that lets go of its goal takes only its own signal with it.
pub proof fn law_release_takes_only_its_own_signal<R>(before: EngineView<R>, id: u64, other: u64)
    ensures
        ({
            let after = engine::released(before, id);
            &&& !after.signalled.contains(id)
            &&& other != id ==> (after.signalled.contains(other) <==> before.signalled.contains(other))
            &&& after.registry == before.registry
            &&& after.slots == before.slots
            &&& after.parked == before.parked
            &&& after.tombstones == before.tombstones
            &&& after.next_slot == before.next_slot
        }),
{
}

/// The outcome of a running goal wakes exactly the requests that wait in its slot.
/// If the goal's id still leads to the slot, the outcome is kept there; else the
/// slot goes. Every other slot, and all else, stays.
pub proof fn law_outcome_wakes_every_waiter<R>(
    before: EngineView<R>,
    id: u64,
    status: ResultStatus,
    body: Seq<u8>,
    evict_at: nat,
)
    ensures
        ({
            let delivered = engine::delivered(before, id, status, body, evict_at);
            let slot = before.slots[id];
            let running = before.slots.dom().contains(id) && slot.state is Pending;
            let led_to = before.registry.dom().contains(slot.goal_id)
                && before.registry[slot.goal_id] == id;
            &&& running ==> delivered.1 == Some(slot.state->waiters)
            &&& !running ==> delivered == (before, None::<Seq<R>>)
            &&& running && led_to ==> delivered.0.slots.dom().contains(id)
                && delivered.0.slots[id].goal_id == slot.goal_id && delivered.0.slots[id].state == (
            StateView::<R>::Terminal { status, body, evict_at })
            &&& running && !led_to ==> !delivered.0.slots.dom().contains(id)
            &&& forall|other: u64|
                other != id ==> (#[trigger] delivered.0.slots.dom().contains(other)
                    <==> before.slots.dom().contains(other))
            &&& forall|other: u64|
                other != id ==> #[trigger] delivered.0.slots[other] == before.slots[other]
            &&& delivered.0.registry == before.registry
            &&& delivered.0.signalled == before.signalled
            &&& delivered.0.parked == before.parked
            &&& delivered.0.tombstones == before.tombstones
            &&& delivered.0.next_slot == before.next_slot
        }),
{
}

/// A sweep evicts a goal if and only if the goal has ended, its retention is over
/// and nobody holds its slot. An evicted goal's slot goes; everything else that can
/// be reached stays where and as it was. Of the requests that wait for a goal to be
/// accepted those whose time is not up stay, in their order.
pub proof fn law_sweep_evicts_exactly<R>(
    before: EngineView<R>,
    after: EngineView<R>,
    busy: Seq<Seq<char>>,
    now: nat,
    evicted: Seq<Seq<char>>,
    goal_id: Seq<char>,
    id: u64,
)
    requires
        before.wf(),
        engine::swept(before, after, busy, now, evicted),
    ensures
        after.registry.dom().contains(goal_id) <==> before.registry.dom().contains(goal_id) && !(
        !busy.contains(goal_id) && (before.slots[before.registry[goal_id]].state matches StateView::Terminal {
            evict_at,
            ..
        } && evict_at <= now)),
        evicted.contains(goal_id) <==> before.registry.dom().contains(goal_id)
            && !after.registry.dom().contains(goal_id),
        after.registry.dom().contains(goal_id) ==> after.registry[goal_id] == before.registry[goal_id],
        after.slots.dom().contains(id) <==> before.slots.dom().contains(id) && !(evicted.contains(
            before.slots[id].goal_id,
        ) && before.registry[before.slots[id].goal_id] == id),
        after.slots.dom().contains(id) ==> after.slots[id] == before.slots[id],
        after.parked == before.parked.filter(|waiter: ParkedView<R>| waiter.deadline > now),
        after.signalled == before.signalled,
        after.next_slot == before.next_slot,
{
    assert(after.routable(goal_id) <==> before.routable(goal_id) && !evicted.contains(goal_id));
    assert(evicted.contains(goal_id) <==> engine::evictable(before, busy, now, goal_id));
    let named = before.slots[id].goal_id;
    assert(evicted.contains(named) <==> engine::evictable(before, busy, now, named));
    assert(after.slots.dom().contains(id) <==> before.slots.dom().contains(id) && !(before.routes_to(id)
        && engine::evictable(before, busy, now, named)));
}

/// As long as no more than 4096 goals have to be remembered, a sweep forgets none:
/// those remembered before stay, and those it evicts are added.
pub proof fn law_sweep_forgets_none_within_its_memory<R>(
    before: EngineView<R>,
    after: EngineView<R>,
    busy: Seq<Seq<char>>,
    now: nat,
    evicted: Seq<Seq<char>>,
    goal_id: Seq<char>,
)
    requires
        engine::swept(before, after, busy, now, evicted),
        before.tombstones.len() + evicted.len() <= 4096,
    ensures
        after.tombstones.contains(goal_id) <==> before.tombstones.contains(goal_id) || evicted.contains(
            goal_id,
        ),
{
    if before.tombstones.contains(goal_id) {
        let at = choose|at: int| 0 <= at < before.tombstones.len() && before.tombstones[at] == goal_id;
        action_laws::law_sweep_keeps_memory(before, after, busy, now, evicted, at);
    } else if evicted.contains(goal_id) {
        let at = choose|at: int| 0 <= at < evicted.len() && evicted[at] == goal_id;
        action_laws::law_sweep_remembers(before, after, busy, now, evicted, at);
    }
    if after.tombstones.contains(goal_id) {
        action_laws::lemma_recorded_from(before.tombstones, 4096, evicted, goal_id);
    }
}

/// How a goal's end is kept and told: a result with its own bytes, as completed or
/// as cancelled, and a goal that was given up with none.
pub proof fn law_outcome_is_told_as_it_was(outcome: GoalOutcome)
    ensures
        match outcome {
            GoalOutcome::Completed(result) => outcome.spec_status() == ResultStatus::Completed
                && outcome.spec_body() == result@,
            GoalOutcome::Cancelled(result) => outcome.spec_status() == ResultStatus::Cancelled
                && outcome.spec_body() == result@,
            GoalOutcome::Abandoned => outcome.spec_status() == ResultStatus::Abandoned
                && outcome.spec_body().len() == 0,
        },
{
}

/// A goal's result is kept for its retention time, counted from the moment at which
/// it ended: a request before that time is over gets it, and one after does not.
pub proof fn law_retention_counts_from_the_end<R>(
    before: EngineView<R>,
    after: EngineView<R>,
    context: GoalContextView,
    status: ResultStatus,
    body: Seq<u8>,
    ended_at: nat,
    end: GoalEnd<R>,
    responder: R,
    asked_at: nat,
)
    requires
        before.wf(),
        before.slots.dom().contains(context.slot),
        before.slots[context.slot].state is Pending,
        before.slots[context.slot].goal_id == context.goal_id,
        before.registry.dom().contains(context.goal_id),
        before.registry[context.goal_id] == context.slot,
        goal::ended(before, after, context, status, body, ended_at, end),
    ensures
        match engine::polled(after, context.goal_id, responder, asked_at).1 {
            ActView::Reply { responder: answered, wire } => answered == responder && wire.len() > 0
                && if asked_at < ended_at + context.retention {
                told(status, wire[0]) && wire.skip(1) == body
            } else {
                wire == seq![3u8]
            },
            _ => false,
        },
        end.delivery matches Some(delivery) && delivery.waiters@
            == before.slots[context.slot].state->waiters && delivery.reply@.len() > 0 && told(
            status,
            delivery.reply@[0],
        ) && delivery.reply@.skip(1) == body,
        end.end_feedback == context.has_feedback,
{
    law_outcome_wakes_every_waiter(
        before,
        context.slot,
        status,
        body,
        ended_at + context.retention,
    );
    law_ended_goal_is_answered_at_once(after, context.goal_id, responder, asked_at);
    let reply = end.delivery->Some_0.reply@;
    assert(reply.skip(1) =~= body);
}

/// A goal that had ended before is not ended again: nobody is woken, nothing is
/// published and nothing changes.
pub proof fn law_second_end_does_nothing<R>(
    before: EngineView<R>,
    after: EngineView<R>,
    context: GoalContextView,
    status: ResultStatus,
    body: Seq<u8>,
    now: nat,
    end: GoalEnd<R>,
)
    requires
        !before.slots.dom().contains(context.slot) || before.slots[context.slot].state is Terminal,
        goal::ended(before, after, context, status, body, now, end),
    ensures
        after == before,
        end.delivery is None,
        !end.end_feedback,
{
}

/// An engine holds no more than 1024 requests for goals not yet accepted, and
/// remembers no more than 4096 evicted goals.
pub proof fn law_engine_is_bounded<R>(engine: &GoalEngine<R>)
    requires
        engine.wf(),
    ensures
        engine@.parked.len() <= 1024,
        engine@.tombstones.len() <= 4096,
{
    engine.law_state();
}

/// What becomes of a result request is seen as it is.
pub proof fn law_result_act_is_seen_as_it_is<R>(act: ResultAct<R>)
    ensures
        match act {
            ResultAct::Reply { responder, payload } => act@ == (ActView::Reply {
                responder,
                wire: payload@,
            }),
            ResultAct::Parked => act@ is Parked,
            ResultAct::Dropped => act@ is Dropped,
        },
{
}

/// The times of an action server: a result stays for thirty seconds unless the action
/// says otherwise, and the sweeper runs every quarter of a second, so a request that
/// waits for its goal is dropped at the latest a quarter of a second after its thirty
/// seconds are over.
pub proof fn law_server_times()
    ensures
        engine::RESULT_RETENTION_GRACE == 30_000_000_000,
        engine::PENDING_WAITER_MAX_PARK == 30_000_000_000,
        engine::SWEEP_INTERVAL == 250_000_000,
{
}

} // verus!
