//! What holds of every session.

use vstd::prelude::*;
use crate::command::command_of;
use crate::distributor::DistributorView;
use crate::servo::ServoView;
use crate::session::{ActionView, SessionEvent, SessionState, SessionView};

verus! {

/// Text that spells no command is ignored: the session stays as it is,
/// nothing reaches the servo, the subscription is untouched, and the
/// session goes on as if nothing had arrived.
pub proof fn lemma_malformed_text_is_ignored(
    session: SessionView,
    distributor: DistributorView,
    servo: ServoView,
    text: String,
)
    requires
        session.wf(),
        command_of(text@) is None,
    ensures
        session.step(distributor, servo, SessionEvent::Text(text)).session == session,
        session.step(distributor, servo, SessionEvent::Text(text)).servo == servo,
        session.step(distributor, servo, SessionEvent::Text(text)).distributor == distributor,
        session.step(distributor, servo, SessionEvent::Text(text)).action
            == session.idle_action(),
{
}

/// No text message, command or not, ends a session or touches its
/// subscription.
pub proof fn lemma_text_never_tears_down(
    session: SessionView,
    distributor: DistributorView,
    servo: ServoView,
    text: String,
)
    requires
        session.wf(),
    ensures
        session.step(distributor, servo, SessionEvent::Text(text)).session == session,
        session.step(distributor, servo, SessionEvent::Text(text)).distributor == distributor,
{
}

/// A command sent on an active session joins the end of the servo's queue,
/// behind every command that was sent before it, from this session or
/// from another.
pub proof fn lemma_command_joins_the_queue(
    session: SessionView,
    distributor: DistributorView,
    servo: ServoView,
    text: String,
)
    requires
        session.wf(),
        session.state is Active,
        command_of(text@) is Some,
    ensures
        session.step(distributor, servo, SessionEvent::Text(text)).servo.queue
            == servo.queue.push(command_of(text@)->0),
{
}

/// The states follow one another in one direction only: an active session
/// stays active or starts closing or is closed, a closing session stays so
/// or is closed, and a closed session stays closed.
pub proof fn lemma_session_moves_forward(
    session: SessionView,
    distributor: DistributorView,
    servo: ServoView,
    event: SessionEvent,
)
    requires
        session.wf(),
    ensures
        session.step(distributor, servo, event).session.wf(),
        session.state is Closing ==> !(session.step(distributor, servo, event).session.state
            is Active),
        session.state is Closed ==> session.step(distributor, servo, event).session == session,
        session.state is Closing ==> (session.step(distributor, servo, event).session.state
            is Closed <==> event is PeerGone),
{
}

/// However an active session ends (a failed write, a request to close, a
/// peer that is gone), its subscription is given back in that very step:
/// it is no longer live, and the subscriber count is one less if it was.
pub proof fn lemma_teardown_releases_subscription(
    session: SessionView,
    distributor: DistributorView,
    servo: ServoView,
    event: SessionEvent,
)
    requires
        session.wf(),
        distributor.wf(),
        session.state is Active,
        event is SendFailed || event is Close || event is PeerGone,
    ensures
        ({
            let after = session.step(distributor, servo, event);
            let id = session.subscription->0;
            &&& !(after.session.state is Active)
            &&& after.session.subscription is None
            &&& !after.distributor.mailboxes.contains_key(id)
            &&& distributor.mailboxes.contains_key(id) ==> after.distributor.subscriber_count() + 1
                == distributor.subscriber_count()
            &&& after.servo == servo
            &&& event is PeerGone ==> after.action == ActionView::Done
            &&& !(event is PeerGone) ==> after.action == ActionView::Release
        }),
{
}

/// A frame goes out only while the session is active, and it is the frame
/// that waited in the session's own mailbox, which is empty afterwards.
pub proof fn lemma_frames_come_from_the_mailbox(
    session: SessionView,
    distributor: DistributorView,
    servo: ServoView,
    event: SessionEvent,
)
    requires
        session.wf(),
    ensures
        ({
            let after = session.step(distributor, servo, event);
            after.action matches ActionView::Send(frame) ==> {
                &&& session.state is Active
                &&& event is FrameReady
                &&& distributor.delivered(session.subscription->0) == Some(frame)
                &&& after.distributor.delivered(session.subscription->0) is None
            }
        }),
{
}

} // verus!
