//! One client session: frames go out to the peer, commands come in from
//! it, and when either side fails the session takes itself apart.

use vstd::prelude::*;
use crate::command::command_of;
use crate::command::parse::parse_command;
use crate::distributor::{Distributor, DistributorView, Subscription};
use crate::frame::{Frame, FrameView};
use crate::servo::{Servo, ServoView};

pub mod theorems;

verus! {

/// Where a session is in its life.
#[derive(Clone, Copy, Debug, PartialEq, Eq, Structural)]
pub enum SessionState {
    /// Frames and commands flow.
    Active,
    /// The subscription is given back; the peer connection is still to be
    /// released.
    Closing,
    /// Both are released.
    Closed,
}

/// What happened on a session.
pub enum SessionEvent {
    /// A frame may wait in the session's mailbox.
    FrameReady,
    /// The frame handed out last was written to the peer.
    Sent,
    /// Writing the frame handed out last failed.
    SendFailed,
    /// The peer sent a text message.
    Text(String),
    /// The peer asked to close.
    Close,
    /// The peer sent a message of another kind.
    Other,
    /// The peer connection is released.
    PeerGone,
}

/// What is to be done on a session.
pub enum SessionAction {
    /// Wait for a frame or for a message, whichever comes first.
    Wait,
    /// Write the frame's bytes to the peer as one binary message.
    Send(Frame),
    /// Release the peer connection.
    Release,
    /// Nothing is left to do.
    Done,
}

/// Mathematical value of a [`SessionAction`].
pub enum ActionView {
    Wait,
    Send(FrameView),
    Release,
    Done,
}

impl View for SessionAction {
    type V = ActionView;

    open spec fn view(&self) -> ActionView {
        match *self {
            SessionAction::Wait => ActionView::Wait,
            SessionAction::Send(frame) => ActionView::Send(frame@),
            SessionAction::Release => ActionView::Release,
            SessionAction::Done => ActionView::Done,
        }
    }
}

/// Mathematical value of a [`Session`].
pub struct SessionView {
    pub state: SessionState,
    /// The identifier of the subscription that the session holds.
    pub subscription: Option<nat>,
}

/// A session, the distributor and the servo after a step, and what is to
/// be done.
pub struct Outcome {
    pub session: SessionView,
    pub distributor: DistributorView,
    pub servo: ServoView,
    pub action: ActionView,
}

impl SessionView {
    /// A session holds a subscription exactly while it is active.
    pub open spec fn wf(self) -> bool {
        self.state is Active <==> self.subscription is Some
    }

    /// What is to be done while nothing happens.
    pub open spec fn idle_action(self) -> ActionView {
        match self.state {
            SessionState::Active => ActionView::Wait,
            SessionState::Closing => ActionView::Release,
            SessionState::Closed => ActionView::Done,
        }
    }

    /// The session gives its subscription back and goes to `state`.
    pub open spec fn torn_down(
        self,
        distributor: DistributorView,
        servo: ServoView,
        state: SessionState,
    ) -> Outcome {
        let session = SessionView { state, subscription: None };
        Outcome {
            session,
            distributor: match self.subscription {
                Some(id) => distributor.unsubscribe(id),
                None => distributor,
            },
            servo,
            action: session.idle_action(),
        }
    }

    /// Nothing changes.
    pub open spec fn unmoved(self, distributor: DistributorView, servo: ServoView) -> Outcome {
        Outcome { session: self, distributor, servo, action: self.idle_action() }
    }

    /// The session, the distributor and the servo after `event`, and what
    /// is to be done.
    ///
    /// While the session is active: a frame that waits in its mailbox is
    /// taken out and sent; a text message that spells a command puts that
    /// command on the servo's queue, and any other text changes nothing; a
    /// failed write or a request to close gives the subscription back and
    /// leaves the peer connection to be released; a peer connection that
    /// is gone ends the session at once. While the session is closing,
    /// only the release of the peer connection moves it on. A closed
    /// session stays closed.
    pub open spec fn step(
        self,
        distributor: DistributorView,
        servo: ServoView,
        event: SessionEvent,
    ) -> Outcome {
        match self.state {
            SessionState::Active => match event {
                SessionEvent::FrameReady => match self.subscription {
                    Some(id) => Outcome {
                        session: self,
                        distributor: distributor.receive(id),
                        servo,
                        action: match distributor.delivered(id) {
                            Some(frame) => ActionView::Send(frame),
                            None => ActionView::Wait,
                        },
                    },
                    None => self.unmoved(distributor, servo),
                },
                SessionEvent::Text(text) => Outcome {
                    session: self,
                    distributor,
                    servo: match command_of(text@) {
                        Some(position) => servo.send(position),
                        None => servo,
                    },
                    action: ActionView::Wait,
                },
                SessionEvent::SendFailed | SessionEvent::Close => self.torn_down(
                    distributor,
                    servo,
                    SessionState::Closing,
                ),
                SessionEvent::PeerGone => self.torn_down(distributor, servo, SessionState::Closed),
                SessionEvent::Sent | SessionEvent::Other => self.unmoved(distributor, servo),
            },
            SessionState::Closing => match event {
                SessionEvent::PeerGone => self.torn_down(distributor, servo, SessionState::Closed),
                _ => self.unmoved(distributor, servo),
            },
            SessionState::Closed => self.unmoved(distributor, servo),
        }
    }
}

/// One client session.
pub struct Session {
    state: SessionState,
    subscription: Option<Subscription>,
}

impl View for Session {
    type V = SessionView;

    closed spec fn view(&self) -> SessionView {
        SessionView {
            state: self.state,
            subscription: match self.subscription {
                Some(subscription) => Some(subscription@),
                None => None,
            },
        }
    }
}

impl Session {
    /// The value is well formed.
    pub open spec fn wf(&self) -> bool {
        self@.wf()
    }

    /// Opens a session: subscribes it to `distributor`, so that it sees
    /// the frames published from now on.
    pub fn open(distributor: &mut Distributor) -> (session: Session)
        requires
            old(distributor).wf(),
            old(distributor)@.next_id < u64::MAX,
        ensures
            session.wf(),
            session@ == (SessionView {
                state: SessionState::Active,
                subscription: Some(old(distributor)@.next_id),
            }),
            final(distributor).wf(),
            final(distributor)@ == old(distributor)@.subscribe(),
            final(distributor)@.subscriber_count() == old(distributor)@.subscriber_count() + 1,
    {
        let subscription = distributor.subscribe();
        Session { state: SessionState::Active, subscription: Some(subscription) }
    }

    /// Where the session is in its life.
    pub fn state(&self) -> (state: SessionState)
        ensures
            state == self@.state,
    {
        self.state
    }

    /// The identifier of the subscription that the session holds.
    pub fn subscription_id(&self) -> (id: Option<u64>)
        ensures
            match id {
                Some(id) => self@.subscription == Some(id as nat),
                None => self@.subscription is None,
            },
    {
        match &self.subscription {
            Some(subscription) => Some(subscription.id()),
            None => None,
        }
    }

    fn idle_action(&self) -> (action: SessionAction)
        ensures
            action@ == self@.idle_action(),
    {
        match self.state {
            SessionState::Active => SessionAction::Wait,
            SessionState::Closing => SessionAction::Release,
            SessionState::Closed => SessionAction::Done,
        }
    }

    fn tear_down(&mut self, distributor: &mut Distributor, state: SessionState) -> (action:
        SessionAction)
        requires
            old(distributor).wf(),
            state !is Active,
        ensures
            final(self).wf(),
            final(distributor).wf(),
            final(self)@ == (SessionView { state, subscription: None }),
            final(distributor)@ == match old(self)@.subscription {
                Some(id) => old(distributor)@.unsubscribe(id),
                None => old(distributor)@,
            },
            action@ == final(self)@.idle_action(),
    {
        match self.subscription.take() {
            Some(subscription) => {
                distributor.unsubscribe(subscription);
            },
            None => {},
        }
        self.state = state;
        self.idle_action()
    }
}

/// One step of a session: takes note of `event` and says what is to be
/// done.
///
/// The caller waits for a frame and for a message of the peer at once,
/// reports whichever comes first, performs the action, and reports how it
/// went.
pub fn client_handler(
    session: &mut Session,
    distributor: &mut Distributor,
    servo: &mut Servo,
    event: SessionEvent,
) -> (action: SessionAction)
    requires
        old(session).wf(),
        old(distributor).wf(),
        old(servo).wf(),
    ensures
        final(session).wf(),
        final(distributor).wf(),
        final(servo).wf(),
        (Outcome {
            session: final(session)@,
            distributor: final(distributor)@,
            servo: final(servo)@,
            action: action@,
        }) == old(session)@.step(old(distributor)@, old(servo)@, event),
{
    match session.state {
        SessionState::Active => match event {
            SessionEvent::FrameReady => {
                let frame = match &session.subscription {
                    Some(subscription) => distributor.receive(subscription),
                    None => None,
                };
                match frame {
                    Some(frame) => SessionAction::Send(frame),
                    None => SessionAction::Wait,
                }
            },
            SessionEvent::Text(text) => {
                match parse_command(text.as_str()) {
                    Some(position) => {
                        servo.send(position);
                    },
                    None => {},
                }
                SessionAction::Wait
            },
            SessionEvent::SendFailed | SessionEvent::Close => session.tear_down(
                distributor,
                SessionState::Closing,
            ),
            SessionEvent::PeerGone => session.tear_down(distributor, SessionState::Closed),
            SessionEvent::Sent | SessionEvent::Other => session.idle_action(),
        },
        SessionState::Closing => match event {
            SessionEvent::PeerGone => session.tear_down(distributor, SessionState::Closed),
            _ => session.idle_action(),
        },
        SessionState::Closed => session.idle_action(),
    }
}

} // verus!
