use servocam::distributor::Distributor;
use servocam::servo::{
    initilize_servo, servo_task, PwmSetting, Servo, ServoAction, ServoConfig, ServoEvent,
};
use servocam::session::{client_handler, Session, SessionAction, SessionEvent, SessionState};

fn ready_servo() -> Servo {
    let mut servo = initilize_servo(ServoConfig::standard()).unwrap();
    assert_eq!(servo_task(&mut servo, ServoEvent::Written), ServoAction::Wait);
    servo
}

fn text(message: &str) -> SessionEvent {
    SessionEvent::Text(message.to_string())
}

fn drain(servo: &mut Servo) -> Vec<u64> {
    let mut writes = Vec::new();
    let mut action = servo_task(servo, ServoEvent::Wake);
    while let ServoAction::Write(PwmSetting { pulse_width_us, .. }) = action {
        writes.push(pulse_width_us);
        action = servo_task(servo, ServoEvent::Written);
    }
    writes
}

#[test]
fn opening_a_session_subscribes_it() {
    let mut distributor = Distributor::new();
    let first = Session::open(&mut distributor);
    let second = Session::open(&mut distributor);
    assert_eq!(first.state(), SessionState::Active);
    assert_eq!(first.subscription_id(), Some(0));
    assert_eq!(second.subscription_id(), Some(1));
    assert_eq!(distributor.subscriber_count(), 2);
}

#[test]
fn frame_ready_sends_the_pending_frame() {
    let mut distributor = Distributor::new();
    let mut servo = ready_servo();
    let mut session = Session::open(&mut distributor);
    distributor.publish(vec![1, 2, 3], 10);
    distributor.publish(vec![4, 5, 6], 20);
    let action = client_handler(&mut session, &mut distributor, &mut servo, SessionEvent::FrameReady);
    let SessionAction::Send(frame) = action else {
        panic!("expected a frame to send");
    };
    assert_eq!(frame.sequence(), 1);
    assert_eq!(frame.into_payload(), vec![4, 5, 6]);
    let action = client_handler(&mut session, &mut distributor, &mut servo, SessionEvent::Sent);
    assert!(matches!(action, SessionAction::Wait));
    // A wake-up without a new frame sends nothing.
    let action = client_handler(&mut session, &mut distributor, &mut servo, SessionEvent::FrameReady);
    assert!(matches!(action, SessionAction::Wait));
    assert_eq!(session.state(), SessionState::Active);
}

#[test]
fn commands_reach_the_servo() {
    let mut distributor = Distributor::new();
    let mut servo = ready_servo();
    let mut session = Session::open(&mut distributor);
    for message in ["left", "0.5", "center", "5.0", "right"] {
        let action = client_handler(&mut session, &mut distributor, &mut servo, text(message));
        assert!(matches!(action, SessionAction::Wait));
    }
    assert_eq!(servo.queued(), 5);
    assert_eq!(drain(&mut servo), vec![1000, 1750, 1500, 2000, 2000]);
}

#[test]
fn malformed_text_is_ignored() {
    let mut distributor = Distributor::new();
    let mut servo = ready_servo();
    let mut session = Session::open(&mut distributor);
    for message in ["up", "", "NaN", "down", "left right", "0.5;DROP", "{\"pos\":1}", "１"] {
        let action = client_handler(&mut session, &mut distributor, &mut servo, text(message));
        assert!(matches!(action, SessionAction::Wait), "{message:?}");
        assert_eq!(session.state(), SessionState::Active, "{message:?}");
        assert_eq!(servo.queued(), 0, "{message:?}");
        assert_eq!(servo.pending_action(), ServoAction::Wait, "{message:?}");
        assert_eq!(distributor.subscriber_count(), 1, "{message:?}");
    }
    // The session still works afterwards.
    distributor.publish(vec![7], 1);
    let action = client_handler(&mut session, &mut distributor, &mut servo, SessionEvent::FrameReady);
    assert!(matches!(action, SessionAction::Send(_)));
    client_handler(&mut session, &mut distributor, &mut servo, text("right"));
    assert_eq!(drain(&mut servo), vec![2000]);
}

#[test]
fn other_messages_are_ignored() {
    let mut distributor = Distributor::new();
    let mut servo = ready_servo();
    let mut session = Session::open(&mut distributor);
    let action = client_handler(&mut session, &mut distributor, &mut servo, SessionEvent::Other);
    assert!(matches!(action, SessionAction::Wait));
    assert_eq!(session.state(), SessionState::Active);
    assert_eq!(servo.queued(), 0);
}

#[test]
fn send_failure_tears_the_session_down() {
    let mut distributor = Distributor::new();
    let mut servo = ready_servo();
    let mut session = Session::open(&mut distributor);
    let _other = Session::open(&mut distributor);
    distributor.publish(vec![1], 1);
    let action = client_handler(&mut session, &mut distributor, &mut servo, SessionEvent::FrameReady);
    assert!(matches!(action, SessionAction::Send(_)));
    let action = client_handler(&mut session, &mut distributor, &mut servo, SessionEvent::SendFailed);
    assert!(matches!(action, SessionAction::Release));
    assert_eq!(session.state(), SessionState::Closing);
    assert_eq!(session.subscription_id(), None);
    assert_eq!(distributor.subscriber_count(), 1);
    let action = client_handler(&mut session, &mut distributor, &mut servo, SessionEvent::PeerGone);
    assert!(matches!(action, SessionAction::Done));
    assert_eq!(session.state(), SessionState::Closed);
}

#[test]
fn close_message_tears_the_session_down() {
    let mut distributor = Distributor::new();
    let mut servo = ready_servo();
    let mut session = Session::open(&mut distributor);
    let action = client_handler(&mut session, &mut distributor, &mut servo, SessionEvent::Close);
    assert!(matches!(action, SessionAction::Release));
    assert_eq!(session.state(), SessionState::Closing);
    assert_eq!(distributor.subscriber_count(), 0);
    // Until the peer is released nothing else moves the session.
    for event in [
        SessionEvent::FrameReady,
        SessionEvent::Sent,
        SessionEvent::SendFailed,
        text("left"),
        SessionEvent::Close,
        SessionEvent::Other,
    ] {
        let action = client_handler(&mut session, &mut distributor, &mut servo, event);
        assert!(matches!(action, SessionAction::Release));
        assert_eq!(session.state(), SessionState::Closing);
    }
    assert_eq!(servo.queued(), 0);
    let action = client_handler(&mut session, &mut distributor, &mut servo, SessionEvent::PeerGone);
    assert!(matches!(action, SessionAction::Done));
    assert_eq!(session.state(), SessionState::Closed);
}

#[test]
fn lost_peer_closes_the_session_at_once() {
    let mut distributor = Distributor::new();
    let mut servo = ready_servo();
    let mut session = Session::open(&mut distributor);
    distributor.publish(vec![1], 1);
    let action = client_handler(&mut session, &mut distributor, &mut servo, SessionEvent::PeerGone);
    assert!(matches!(action, SessionAction::Done));
    assert_eq!(session.state(), SessionState::Closed);
    assert_eq!(session.subscription_id(), None);
    assert_eq!(distributor.subscriber_count(), 0);
}

#[test]
fn closed_session_stays_closed() {
    let mut distributor = Distributor::new();
    let mut servo = ready_servo();
    let mut session = Session::open(&mut distributor);
    client_handler(&mut session, &mut distributor, &mut servo, SessionEvent::PeerGone);
    distributor.publish(vec![1], 1);
    for event in [
        SessionEvent::FrameReady,
        SessionEvent::Sent,
        SessionEvent::SendFailed,
        text("right"),
        SessionEvent::Close,
        SessionEvent::Other,
        SessionEvent::PeerGone,
    ] {
        let action = client_handler(&mut session, &mut distributor, &mut servo, event);
        assert!(matches!(action, SessionAction::Done));
        assert_eq!(session.state(), SessionState::Closed);
    }
    assert_eq!(servo.queued(), 0);
    assert_eq!(distributor.subscriber_count(), 0);
}

#[test]
fn commands_already_sent_survive_the_session() {
    let mut distributor = Distributor::new();
    let mut servo = ready_servo();
    let mut session = Session::open(&mut distributor);
    client_handler(&mut session, &mut distributor, &mut servo, text("left"));
    client_handler(&mut session, &mut distributor, &mut servo, SessionEvent::Close);
    client_handler(&mut session, &mut distributor, &mut servo, SessionEvent::PeerGone);
    assert_eq!(drain(&mut servo), vec![1000]);
}

#[test]
fn two_sessions_commands_are_applied_in_arrival_order() {
    let mut distributor = Distributor::new();
    let mut servo = ready_servo();
    let mut a = Session::open(&mut distributor);
    let mut b = Session::open(&mut distributor);
    // What each session sends, with the time at which it reaches the servo's queue.
    let from_a: [(u64, &str, Option<u64>); 4] = [
        (100, "left", Some(1000)),
        (106, "garbage", None),
        (110, "-0.5", Some(1250)),
        (130, "right", Some(2000)),
    ];
    let from_b: [(u64, &str, Option<u64>); 3] = [
        (101, "right", Some(2000)),
        (105, "0.5", Some(1750)),
        (111, "center", Some(1500)),
    ];
    let mut arrivals: Vec<(u64, char, &str, Option<u64>)> = Vec::new();
    arrivals.extend(from_a.iter().map(|&(at, message, pulse)| (at, 'a', message, pulse)));
    arrivals.extend(from_b.iter().map(|&(at, message, pulse)| (at, 'b', message, pulse)));
    arrivals.sort_by_key(|&(at, ..)| at);
    for &(_, who, message, _) in &arrivals {
        let session = if who == 'a' { &mut a } else { &mut b };
        client_handler(session, &mut distributor, &mut servo, text(message));
    }
    let expected: Vec<u64> = arrivals.iter().filter_map(|&(.., pulse)| pulse).collect();
    assert_eq!(expected, vec![1000, 2000, 1750, 1250, 1500, 2000]);
    assert_eq!(drain(&mut servo), expected);
    // The last write wins at the hardware.
    assert_eq!(servo.applied_us(), Some(2000));
}

#[test]
fn sessions_receive_frames_independently() {
    let mut distributor = Distributor::new();
    let mut servo = ready_servo();
    let mut fast = Session::open(&mut distributor);
    let mut slow = Session::open(&mut distributor);
    let mut fast_seen = Vec::new();
    let mut slow_seen = Vec::new();
    for n in 0..10u64 {
        distributor.publish(vec![n as u8], n);
        if let SessionAction::Send(frame) =
            client_handler(&mut fast, &mut distributor, &mut servo, SessionEvent::FrameReady)
        {
            fast_seen.push(frame.sequence());
        }
        if n % 4 == 3 {
            if let SessionAction::Send(frame) =
                client_handler(&mut slow, &mut distributor, &mut servo, SessionEvent::FrameReady)
            {
                slow_seen.push(frame.sequence());
            }
        }
    }
    assert_eq!(fast_seen, (0..10).collect::<Vec<u64>>());
    assert_eq!(slow_seen, vec![3, 7]);
}
