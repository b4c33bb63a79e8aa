//! What holds of a distributor over whole histories of use.

use vstd::prelude::*;
use crate::distributor::DistributorView;
use crate::frame::FrameView;

verus! {

/// One use of a distributor.
pub enum Step {
    Publish { payload: Seq<u8>, captured_at_ms: nat },
    Subscribe,
    Receive { id: nat },
    Unsubscribe { id: nat },
}

impl DistributorView {
    /// The distributor after one use.
    pub open spec fn step(self, step: Step) -> DistributorView {
        match step {
            Step::Publish { payload, captured_at_ms } => self.publish(payload, captured_at_ms),
            Step::Subscribe => self.subscribe(),
            Step::Receive { id } => self.receive(id),
            Step::Unsubscribe { id } => self.unsubscribe(id),
        }
    }

    /// The distributor after `steps`, taken in order.
    pub open spec fn run(self, steps: Seq<Step>) -> DistributorView
        decreases steps.len(),
    {
        if steps.len() == 0 {
            self
        } else {
            self.run(steps.drop_last()).step(steps.last())
        }
    }

    /// The frames that the reads of `id` among `steps` handed out, oldest
    /// first.
    pub open spec fn deliveries(self, steps: Seq<Step>, id: nat) -> Seq<FrameView>
        decreases steps.len(),
    {
        if steps.len() == 0 {
            Seq::empty()
        } else {
            let earlier = self.deliveries(steps.drop_last(), id);
            let state = self.run(steps.drop_last());
            match steps.last() {
                Step::Receive { id: reader } => if reader == id && state.delivered(id) is Some {
                    earlier.push(state.delivered(id)->0)
                } else {
                    earlier
                },
                _ => earlier,
            }
        }
    }

    /// Number of subscriptions that `steps` open.
    pub open spec fn opened(self, steps: Seq<Step>) -> nat
        decreases steps.len(),
    {
        if steps.len() == 0 {
            0
        } else {
            self.opened(steps.drop_last()) + if steps.last() is Subscribe {
                1nat
            } else {
                0nat
            }
        }
    }

    /// Number of subscriptions that `steps` end: the unsubscribe steps that
    /// name a subscription which is live at that moment.
    pub open spec fn ended(self, steps: Seq<Step>) -> nat
        decreases steps.len(),
    {
        if steps.len() == 0 {
            0
        } else {
            let state = self.run(steps.drop_last());
            self.ended(steps.drop_last()) + match steps.last() {
                Step::Unsubscribe { id } => if state.mailboxes.contains_key(id) {
                    1nat
                } else {
                    0nat
                },
                _ => 0nat,
            }
        }
    }
}

/// Every use keeps a well-formed distributor well formed.
pub proof fn lemma_step_keeps_wf(d: DistributorView, step: Step)
    requires
        d.wf(),
    ensures
        d.step(step).wf(),
{
    let after = d.step(step);
    match step {
        Step::Publish { payload, captured_at_ms } => {
            assert(after.mailboxes.dom() =~= d.mailboxes.dom());
        },
        Step::Subscribe => {},
        Step::Receive { id } => {
            if d.mailboxes.contains_key(id) {
                assert(after.mailboxes.dom() =~= d.mailboxes.dom());
            }
        },
        Step::Unsubscribe { id } => {},
    }
}

/// Every history keeps a well-formed distributor well formed.
pub proof fn lemma_run_keeps_wf(d: DistributorView, steps: Seq<Step>)
    requires
        d.wf(),
    ensures
        d.run(steps).wf(),
    decreases steps.len(),
{
    if steps.len() > 0 {
        lemma_run_keeps_wf(d, steps.drop_last());
        lemma_step_keeps_wf(d.run(steps.drop_last()), steps.last());
    }
}

/// Publishing while nobody is subscribed stores nothing: however many
/// frames are published, no mailbox appears and no frame is kept; only the
/// sequence counter moves, by one for each publish.
pub proof fn lemma_publishing_to_nobody_stores_nothing(d: DistributorView, steps: Seq<Step>)
    requires
        d.mailboxes == Map::<nat, Option<FrameView>>::empty(),
        forall|i: int| 0 <= i < steps.len() ==> #[trigger] steps[i] is Publish,
    ensures
        d.run(steps).mailboxes == Map::<nat, Option<FrameView>>::empty(),
        d.run(steps).subscriber_count() == 0,
        d.run(steps).pending_count() == 0,
        d.run(steps).next_sequence == d.next_sequence + steps.len(),
        d.run(steps).next_id == d.next_id,
    decreases steps.len(),
{
    let empty = Map::<nat, Option<FrameView>>::empty();
    if steps.len() > 0 {
        let earlier = steps.drop_last();
        assert forall|i: int| 0 <= i < earlier.len() implies #[trigger] earlier[i] is Publish by {
            assert(earlier[i] == steps[i]);
        }
        lemma_publishing_to_nobody_stores_nothing(d, earlier);
        assert(steps.last() == steps[steps.len() - 1]);
        assert(d.run(steps).mailboxes =~= empty);
    }
    let after = d.run(steps);
    assert(after.mailboxes.dom() =~= Set::<nat>::empty());
    assert(after.mailboxes.dom().filter(|id: nat| after.mailboxes[id] is Some) =~= Set::<
        nat,
    >::empty());
}

/// A distributor never keeps more unread frames than it has live
/// subscriptions.
pub proof fn lemma_pending_frames_bounded(d: DistributorView)
    requires
        d.wf(),
    ensures
        d.pending_count() <= d.subscriber_count(),
{
    d.mailboxes.dom().lemma_len_filter(|id: nat| d.mailboxes[id] is Some);
}

/// The latest frame wins: after a publish, every live subscription reads
/// exactly the frame just published, whatever its mailbox held before.
pub proof fn lemma_latest_frame_wins(
    d: DistributorView,
    payload: Seq<u8>,
    captured_at_ms: nat,
    id: nat,
)
    requires
        d.mailboxes.contains_key(id),
    ensures
        d.publish(payload, captured_at_ms).delivered(id) == Some(
            d.next_frame(payload, captured_at_ms),
        ),
        d.publish(payload, captured_at_ms).receive(id).delivered(id) is None,
{
}

/// A subscription that did not exist when a frame was published never
/// reads that frame: it starts with an empty mailbox.
pub proof fn lemma_new_subscription_starts_empty(d: DistributorView)
    requires
        d.wf(),
    ensures
        !d.mailboxes.contains_key(d.next_id),
        d.subscribe().mailboxes.contains_key(d.next_id),
        d.subscribe().delivered(d.next_id) is None,
{
}

proof fn lemma_deliveries_ordered(d: DistributorView, steps: Seq<Step>, id: nat)
    requires
        d.wf(),
    ensures
        d.run(steps).wf(),
        forall|k: int|
            0 <= k < d.deliveries(steps, id).len() ==> (#[trigger] d.deliveries(
                steps,
                id,
            )[k]).sequence < d.run(steps).next_sequence,
        forall|i: int, j: int|
            0 <= i < j < d.deliveries(steps, id).len() ==> (#[trigger] d.deliveries(
                steps,
                id,
            )[i]).sequence < (#[trigger] d.deliveries(steps, id)[j]).sequence,
        forall|k: int|
            0 <= k < d.deliveries(steps, id).len() ==> (d.run(steps).delivered(id) matches Some(
                frame,
            ) ==> (#[trigger] d.deliveries(steps, id)[k]).sequence < frame.sequence),
    decreases steps.len(),
{
    lemma_run_keeps_wf(d, steps);
    if steps.len() > 0 {
        let earlier = steps.drop_last();
        lemma_deliveries_ordered(d, earlier, id);
        lemma_run_keeps_wf(d, earlier);
        let state = d.run(earlier);
        let got = d.deliveries(earlier, id);
        let after = d.run(steps);
        let now = d.deliveries(steps, id);
        match steps.last() {
            Step::Publish { payload, captured_at_ms } => {
                assert(now == got);
            },
            Step::Subscribe => {
                assert(now == got);
                if state.mailboxes.contains_key(id) {
                    assert(id < state.next_id);
                    assert(after.delivered(id) == state.delivered(id));
                }
            },
            Step::Receive { id: reader } => {
                if reader == id && state.delivered(id) is Some {
                    let frame = state.delivered(id)->0;
                    assert(now == got.push(frame));
                    assert(state.mailboxes.contains_key(id));
                    assert(state.pending_below(id, state.next_sequence));
                    assert(after.delivered(id) is None);
                } else {
                    assert(now == got);
                    assert(after.delivered(id) == state.delivered(id));
                }
            },
            Step::Unsubscribe { id: gone } => {
                assert(now == got);
                if gone != id {
                    assert(after.delivered(id) == state.delivered(id));
                }
            },
        }
    }
}

/// Whatever is published, subscribed, read and unsubscribed in between,
/// the frames that one subscription reads carry strictly increasing
/// sequence numbers: gaps may occur, a repeat or a step back never.
pub proof fn lemma_deliveries_strictly_increasing(d: DistributorView, steps: Seq<Step>, id: nat)
    requires
        d.wf(),
    ensures
        forall|i: int, j: int|
            0 <= i < j < d.deliveries(steps, id).len() ==> (#[trigger] d.deliveries(
                steps,
                id,
            )[i]).sequence < (#[trigger] d.deliveries(steps, id)[j]).sequence,
{
    lemma_deliveries_ordered(d, steps, id);
}

/// The subscriber count is the count at the start, plus the subscriptions
/// opened since, minus those ended since: none is counted twice and none
/// is left over after it has ended.
pub proof fn lemma_count_tracks_live_subscriptions(d: DistributorView, steps: Seq<Step>)
    requires
        d.wf(),
    ensures
        d.run(steps).subscriber_count() + d.ended(steps) == d.subscriber_count() + d.opened(
            steps,
        ),
    decreases steps.len(),
{
    if steps.len() > 0 {
        let earlier = steps.drop_last();
        lemma_count_tracks_live_subscriptions(d, earlier);
        lemma_run_keeps_wf(d, earlier);
        let state = d.run(earlier);
        let after = d.run(steps);
        match steps.last() {
            Step::Publish { payload, captured_at_ms } => {
                assert(after.mailboxes.dom() =~= state.mailboxes.dom());
            },
            Step::Subscribe => {
                assert(!state.mailboxes.contains_key(state.next_id));
                assert(after.mailboxes.dom() =~= state.mailboxes.dom().insert(state.next_id));
            },
            Step::Receive { id } => {
                assert(after.mailboxes.dom() =~= state.mailboxes.dom());
            },
            Step::Unsubscribe { id } => {
                assert(after.mailboxes.dom() =~= state.mailboxes.dom().remove(id));
            },
        }
    }
}

/// Ending a subscription leaves no trace of it: it is no longer live, a
/// read in its name yields nothing, and the count is as it was before the
/// subscription was opened.
pub proof fn lemma_subscription_leaves_no_trace(d: DistributorView)
    requires
        d.wf(),
    ensures
        !d.subscribe().unsubscribe(d.next_id).mailboxes.contains_key(d.next_id),
        d.subscribe().unsubscribe(d.next_id).delivered(d.next_id) is None,
        d.subscribe().unsubscribe(d.next_id).mailboxes == d.mailboxes,
        d.subscribe().unsubscribe(d.next_id).subscriber_count() == d.subscriber_count(),
{
    assert(!d.mailboxes.contains_key(d.next_id));
    assert(d.subscribe().unsubscribe(d.next_id).mailboxes =~= d.mailboxes);
}

/// A subscription that has ended stays ended: identifiers are handed out
/// once, so whatever happens afterwards, no mailbox appears again under an
/// identifier that was given back, and nothing is ever delivered to it.
pub proof fn lemma_ended_subscription_stays_ended(d: DistributorView, steps: Seq<Step>, id: nat)
    requires
        d.wf(),
        id < d.next_id,
        !d.mailboxes.contains_key(id),
    ensures
        d.next_id <= d.run(steps).next_id,
        !d.run(steps).mailboxes.contains_key(id),
        d.deliveries(steps, id).len() == 0,
    decreases steps.len(),
{
    if steps.len() > 0 {
        lemma_ended_subscription_stays_ended(d, steps.drop_last(), id);
        lemma_run_keeps_wf(d, steps.drop_last());
    }
}

} // verus!
