//! What holds of the capture engine whatever the camera and the
//! subscribers do.

use vstd::prelude::*;
use vstd::set_lib::{lemma_int_range, lemma_len_subset, set_int_range};
use crate::distributor::DistributorView;
use crate::footage::engine::{CaptureEvent, EngineView, Phase, SlotState};

verus! {

/// No step adds a request to the pool or takes one away, and none changes
/// the configuration: the same buffers serve from start to end.
pub proof fn lemma_pool_is_fixed(
    engine: EngineView,
    distributor: DistributorView,
    event: CaptureEvent,
)
    requires
        engine.wf(),
    ensures
        engine.step(distributor, event).0.slots.len() == engine.slots.len(),
        engine.step(distributor, event).0.config == engine.config,
{
}

/// Only the arrival of planes makes the engine publish, and then one frame
/// at most: every other event leaves the distributor as it is.
pub proof fn lemma_only_extraction_publishes(
    engine: EngineView,
    distributor: DistributorView,
    event: CaptureEvent,
)
    requires
        engine.wf(),
    ensures
        !(event is Extracted && engine.phase is Extracting) ==> engine.step(
            distributor,
            event,
        ).1 == distributor,
        engine.step(distributor, event).1.next_sequence <= distributor.next_sequence + 1,
        engine.step(distributor, event).1.next_id == distributor.next_id,
{
}

/// While nobody is subscribed, waking up never starts a frame: the engine
/// goes from pacing to idling and back, no request changes its state, and
/// nothing is published.
pub proof fn lemma_idle_without_subscribers(
    engine: EngineView,
    distributor: DistributorView,
    now_ms: u64,
)
    requires
        engine.wf(),
        distributor.subscriber_count() == 0,
        engine.phase is Pacing || engine.phase is Idling,
    ensures
        ({
            let (after, published) = engine.step(distributor, CaptureEvent::Woke { now_ms });
            &&& after.phase is Pacing || after.phase is Idling
            &&& engine.phase is Pacing ==> after.phase is Idling
            &&& after.pending_action() is Sleep
            &&& after.slots == engine.slots
            &&& after.completions == engine.completions
            &&& published == distributor
        }),
{
}

/// With a subscriber present, the rest after pacing is followed by work on
/// a frame: the engine reads the oldest filled request or waits for the
/// camera to fill one.
pub proof fn lemma_subscriber_starts_capture(
    engine: EngineView,
    distributor: DistributorView,
    now_ms: u64,
)
    requires
        engine.wf(),
        distributor.subscriber_count() > 0,
        engine.phase is Pacing,
    ensures
        ({
            let after = engine.step(distributor, CaptureEvent::Woke { now_ms }).0;
            &&& after.started_at_ms == now_ms
            &&& engine.completions.len() == 0 ==> after.phase is Awaiting
            &&& engine.completions.len() > 0 ==> after.phase == (Phase::Extracting {
                request: engine.completions[0].request,
                captured_at_ms: engine.completions[0].at_ms,
            })
        }),
{
}

/// Filled requests are read in the order in which the camera filled them:
/// a request that arrives while others wait joins the end of the line.
pub proof fn lemma_completions_keep_their_order(engine: EngineView, request: u64, now_ms: u64)
    requires
        engine.wf(),
        engine.phase !is Stopped,
        engine.phase !is Awaiting,
        request < engine.slots.len(),
        engine.slots[request as int] == SlotState::Queued,
    ensures
        engine.completed(request, now_ms).completions.len() == engine.completions.len() + 1,
        forall|k: int|
            0 <= k < engine.completions.len() ==> engine.completed(request, now_ms).completions[k]
                == engine.completions[k],
        engine.completed(request, now_ms).completions.last().request == request,
{
}

/// The rest between two frames is the target interval less the time the
/// last frame took, and zero where the frame took longer than the
/// interval.
pub proof fn lemma_rest_is_clamped(engine: EngineView)
    requires
        engine.wf(),
    ensures
        engine.rest_ms() <= engine.config.interval_ms(),
        engine.ended_at_ms >= engine.started_at_ms && engine.ended_at_ms - engine.started_at_ms
            <= engine.config.interval_ms() ==> engine.rest_ms() + (engine.ended_at_ms
            - engine.started_at_ms) == engine.config.interval_ms(),
        engine.ended_at_ms - engine.started_at_ms >= engine.config.interval_ms()
            ==> engine.rest_ms() == 0,
{
    assert(engine.config.interval_ms() <= 1000) by (nonlinear_arith)
        requires
            engine.config.interval_ms() == 1000int / (engine.config.frame_rate as int),
            engine.config.frame_rate >= 1,
    ;
}

/// The pool bounds what is pending: the requests that are filled and not
/// yet handed back, the one being read included, are never more than the
/// pool has buffers.
pub proof fn lemma_pending_extraction_bounded(engine: EngineView)
    requires
        engine.wf(),
        engine.phase !is Stopped,
    ensures
        engine.pending_extraction() <= engine.slots.len(),
{
    let in_hand = match engine.phase {
        Phase::Extracting { request, .. } => request as int,
        _ => 0,
    };
    let held = Seq::new(
        engine.pending_extraction(),
        |k: int|
            if k < engine.completions.len() {
                engine.completions[k].request as int
            } else {
                in_hand
            },
    );
    assert forall|i: int, j: int|
        0 <= i < held.len() && 0 <= j < held.len() && i != j implies held[i] != held[j] by {
        if i < engine.completions.len() && j < engine.completions.len() {
            if i < j {
                assert(engine.completions[i].request != engine.completions[j].request);
            } else {
                assert(engine.completions[j].request != engine.completions[i].request);
            }
        } else if i < engine.completions.len() {
            assert(engine.slots[engine.completions[i].request as int] == SlotState::Completed);
            assert(engine.slots[in_hand] == SlotState::Extracting);
        } else if j < engine.completions.len() {
            assert(engine.slots[engine.completions[j].request as int] == SlotState::Completed);
            assert(engine.slots[in_hand] == SlotState::Extracting);
        }
    }
    held.unique_seq_to_set();
    let all = set_int_range(0, engine.slots.len() as int);
    lemma_int_range(0, engine.slots.len() as int);
    assert forall|request: int| held.to_set().contains(request) implies all.contains(request) by {
        let k = choose|k: int| 0 <= k < held.len() && held[k] == request;
        if k < engine.completions.len() {
            assert(engine.completions[k].request < engine.slots.len());
        }
    }
    lemma_len_subset(held.to_set(), all);
}

/// The state that follows `state` in the cycle of a request: idle, queued,
/// completed, extracting, and idle again.
pub open spec fn next_in_cycle(state: SlotState) -> SlotState {
    match state {
        SlotState::Idle => SlotState::Queued,
        SlotState::Queued => SlotState::Completed,
        SlotState::Completed => SlotState::Extracting,
        SlotState::Extracting => SlotState::Idle,
    }
}

/// Requests only ever move forward through their cycle, and one at a
/// time: a step leaves a request in its state or moves it to the next one
/// (or, where the loop was waiting for just that request, from queued
/// through completed to extracting), and it moves at most one request.
pub proof fn lemma_requests_move_forward(
    engine: EngineView,
    distributor: DistributorView,
    event: CaptureEvent,
)
    requires
        engine.wf(),
    ensures
        ({
            let after = engine.step(distributor, event).0;
            &&& forall|i: int|
                #![trigger after.slots[i]]
                0 <= i < engine.slots.len() ==> {
                    ||| after.slots[i] == engine.slots[i]
                    ||| after.slots[i] == next_in_cycle(engine.slots[i])
                    ||| engine.phase is Awaiting && engine.slots[i] == SlotState::Queued
                        && after.slots[i] == SlotState::Extracting
                }
            &&& forall|i: int, j: int|
                #![trigger after.slots[i], after.slots[j]]
                0 <= i < engine.slots.len() && 0 <= j < engine.slots.len() && i != j
                    && after.slots[i] != engine.slots[i] ==> after.slots[j] == engine.slots[j]
        }),
{
}

} // verus!
