use servocam::distributor::Distributor;
use servocam::footage::engine::{
    CaptureAction, CaptureEngine, CaptureEvent, Phase, SlotState,
};
use servocam::footage::{
    encode_frame, extract_image_from_request, footage_capture_task, frame_bytes, pacing_delay_ms,
    CaptureConfig, CaptureError, ConfigStatus, DeviceReport, BYTES_PER_PIXEL, MAX_DIMENSION,
};

const BGR888: u32 = 875710274;

fn small() -> CaptureConfig {
    CaptureConfig {
        width: 16,
        height: 8,
        pixel_format: BGR888,
        frame_rate: 30,
        min_buffers: 2,
        idle_wait_ms: 1000,
    }
}

fn camera(buffers: usize) -> DeviceReport {
    DeviceReport { cameras: 1, status: ConfigStatus::Valid, buffers }
}

fn plane(len: usize) -> Vec<u8> {
    (0..len).map(|i| (i * 7 % 251) as u8).collect()
}

fn started(buffers: usize) -> CaptureEngine {
    match CaptureEngine::start(small(), camera(buffers), 0) {
        Ok(engine) => engine,
        Err(error) => panic!("start failed: {error:?}"),
    }
}

#[test]
fn standard_capture_configuration() {
    let config = CaptureConfig::standard();
    assert_eq!(config.width, 1024);
    assert_eq!(config.height, 768);
    assert_eq!(config.pixel_format, BGR888);
    assert_eq!(config.pixel_format.to_le_bytes(), *b"BG24");
    assert_eq!(config.frame_rate, 30);
    assert_eq!(config.min_buffers, 1);
    assert_eq!(config.idle_wait_ms, 1000);
    assert_eq!(config.validate(), Ok(()));
    assert_eq!(config.frame_interval_ms(), 33);
    assert_eq!(BYTES_PER_PIXEL, 3);
    assert_eq!(MAX_DIMENSION, 65535);
}

#[test]
fn invalid_configurations_are_refused() {
    let good = small();
    assert_eq!(good.validate(), Ok(()));
    let bad = [
        CaptureConfig { width: 0, ..good },
        CaptureConfig { height: 0, ..good },
        CaptureConfig { width: 65536, ..good },
        CaptureConfig { height: u32::MAX, ..good },
        CaptureConfig { pixel_format: 0, ..good },
        CaptureConfig { pixel_format: BGR888 + 1, ..good },
        CaptureConfig { pixel_format: u32::from_le_bytes(*b"RG24"), ..good },
        CaptureConfig { frame_rate: 0, ..good },
        CaptureConfig { min_buffers: 0, ..good },
    ];
    for config in bad {
        assert_eq!(config.validate(), Err(CaptureError::Configuration), "{config:?}");
    }
    let edge = CaptureConfig { width: 65535, height: 1, frame_rate: 1000, ..good };
    assert_eq!(edge.validate(), Ok(()));
    assert_eq!(edge.frame_interval_ms(), 1);
    assert_eq!(CaptureConfig { frame_rate: 1, ..good }.frame_interval_ms(), 1000);
    let racing = CaptureConfig { frame_rate: 1001, ..good };
    assert_eq!(racing.validate(), Ok(()));
    assert_eq!(racing.frame_interval_ms(), 0);
    assert_eq!(CaptureConfig { frame_rate: u32::MAX, ..good }.frame_interval_ms(), 0);
    assert_eq!(CaptureConfig { frame_rate: 7, ..good }.frame_interval_ms(), 142);
}

#[test]
fn start_errors() {
    let invalid = CaptureConfig { width: 0, ..small() };
    let no_camera = DeviceReport { cameras: 0, status: ConfigStatus::Valid, buffers: 4 };
    let rejected = DeviceReport { cameras: 1, status: ConfigStatus::Invalid, buffers: 4 };
    let starved = DeviceReport { cameras: 1, status: ConfigStatus::Valid, buffers: 1 };
    let all_wrong = DeviceReport { cameras: 0, status: ConfigStatus::Invalid, buffers: 0 };
    assert!(matches!(
        CaptureEngine::start(invalid, camera(4), 0),
        Err(CaptureError::Configuration)
    ));
    assert!(matches!(CaptureEngine::start(invalid, all_wrong, 0), Err(CaptureError::Configuration)));
    assert!(matches!(CaptureEngine::start(small(), no_camera, 0), Err(CaptureError::Device)));
    assert!(matches!(CaptureEngine::start(small(), all_wrong, 0), Err(CaptureError::Device)));
    assert!(matches!(
        CaptureEngine::start(small(), rejected, 0),
        Err(CaptureError::Configuration)
    ));
    assert!(matches!(
        CaptureEngine::start(
            small(),
            DeviceReport { cameras: 1, status: ConfigStatus::Invalid, buffers: 0 },
            0
        ),
        Err(CaptureError::Configuration)
    ));
    assert!(matches!(CaptureEngine::start(small(), starved, 0), Err(CaptureError::Allocation)));
}

#[test]
fn start_accepts_adjusted_configuration() {
    let adjusted = DeviceReport { cameras: 2, status: ConfigStatus::Adjusted, buffers: 2 };
    let engine = CaptureEngine::start(small(), adjusted, 5).ok().expect("adjusted is accepted");
    assert_eq!(engine.pool_size(), 2);
}

#[test]
fn started_engine_has_all_requests_queued() {
    let engine = started(4);
    assert_eq!(engine.config(), small());
    assert_eq!(engine.pool_size(), 4);
    for request in 0..4 {
        assert_eq!(engine.slot_state(request), Some(SlotState::Queued));
    }
    assert_eq!(engine.slot_state(4), None);
    assert_eq!(engine.phase(), Phase::Pacing { ms: 33 });
    assert_eq!(engine.pending_action(), CaptureAction::Sleep { ms: 33 });
}

#[test]
fn pacing_subtracts_processing_time() {
    assert_eq!(pacing_delay_ms(33, 100, 110), 23);
    assert_eq!(pacing_delay_ms(33, 100, 100), 33);
    assert_eq!(pacing_delay_ms(33, 100, 132), 1);
    assert_eq!(pacing_delay_ms(33, 100, 133), 0);
    assert_eq!(pacing_delay_ms(33, 0, u64::MAX), 0);
    assert_eq!(pacing_delay_ms(0, 5, 5), 0);
    assert_eq!(pacing_delay_ms(u64::MAX, 0, 1), u64::MAX - 1);
}

#[test]
fn pacing_clamps_to_zero_when_processing_exceeds_interval() {
    assert_eq!(pacing_delay_ms(33, 1000, 1040), 0);
    assert_eq!(pacing_delay_ms(33, 1000, 1034), 0);
}

#[test]
fn pacing_ignores_a_clock_that_runs_backwards() {
    assert_eq!(pacing_delay_ms(33, 200, 100), 33);
}

#[test]
fn extraction_needs_a_plane() {
    assert_eq!(extract_image_from_request(vec![], 16, 8), Err(CaptureError::Device));
}

#[test]
fn extraction_needs_a_whole_frame() {
    assert_eq!(
        extract_image_from_request(vec![plane(16 * 8 * 3 - 1)], 16, 8),
        Err(CaptureError::Device)
    );
    assert_eq!(
        extract_image_from_request(vec![vec![], plane(16 * 8 * 3)], 16, 8),
        Err(CaptureError::Device)
    );
    assert_eq!(
        extract_image_from_request(vec![plane(1000)], u32::MAX, u32::MAX),
        Err(CaptureError::Device)
    );
}

#[test]
fn extraction_takes_the_first_plane_cut_to_one_frame() {
    let exact = plane(16 * 8 * 3);
    assert_eq!(extract_image_from_request(vec![exact.clone()], 16, 8), Ok(exact.clone()));
    let mut padded = exact.clone();
    padded.extend_from_slice(&[0xAA; 100]);
    assert_eq!(
        extract_image_from_request(vec![padded, vec![1, 2, 3], vec![4]], 16, 8),
        Ok(exact)
    );
    assert_eq!(extract_image_from_request(vec![vec![9, 9]], 0, 8), Ok(vec![]));
}

#[test]
fn encoded_frame_is_a_jpeg() {
    let raw = plane(16 * 8 * 3);
    let jpeg = encode_frame(&raw, 16, 8).expect("the encoder takes 16 by 8");
    assert_eq!(&jpeg[..3], &[0xFF, 0xD8, 0xFF]);
    assert_eq!(&jpeg[jpeg.len() - 2..], &[0xFF, 0xD9]);
    assert_ne!(jpeg, raw);
}

#[test]
fn encoding_depends_on_pixels_and_geometry_alone() {
    let raw = plane(16 * 8 * 3);
    let first = encode_frame(&raw, 16, 8).unwrap();
    let second = encode_frame(&raw, 16, 8).unwrap();
    assert_eq!(first, second);
    let turned = encode_frame(&raw, 8, 16).unwrap();
    assert_ne!(first, turned);
    let mut other = raw.clone();
    for byte in other.iter_mut().take(192) {
        *byte = 255 - *byte;
    }
    assert_ne!(encode_frame(&other, 16, 8).unwrap(), first);
}

#[test]
fn encoder_refuses_an_empty_image() {
    assert_eq!(encode_frame(&vec![], 0, 0), None);
    assert_eq!(encode_frame(&vec![], 0, 5), None);
    assert_eq!(encode_frame(&vec![], 70000, 0), None);
}

#[test]
fn end_to_end_idle_gate_then_first_frame_then_drop() {
    let mut engine = started(4);
    let mut distributor = Distributor::new();

    // Nobody is subscribed: the engine idles and asks for no extraction.
    let mut action = engine.pending_action();
    let mut now = 0u64;
    for _ in 0..6 {
        let CaptureAction::Sleep { ms } = action else {
            panic!("idle engine asked for {action:?}");
        };
        now += ms;
        action = footage_capture_task(&mut engine, &mut distributor, CaptureEvent::Woke { now_ms: now });
    }
    assert_eq!(distributor.next_sequence(), 0);
    for request in 0..4 {
        assert_eq!(engine.slot_state(request), Some(SlotState::Queued));
    }

    // One subscriber arrives; within one pacing interval a frame is on its way.
    let subscription = distributor.subscribe();
    while engine.phase() != (Phase::Pacing { ms: 33 }) {
        action = footage_capture_task(&mut engine, &mut distributor, CaptureEvent::Woke { now_ms: now });
    }
    assert_eq!(action, CaptureAction::Sleep { ms: 33 });
    now += 33;
    action = footage_capture_task(&mut engine, &mut distributor, CaptureEvent::Woke { now_ms: now });
    assert_eq!(action, CaptureAction::AwaitCompletion);
    action = footage_capture_task(
        &mut engine,
        &mut distributor,
        CaptureEvent::Completed { request: 0, now_ms: now + 2 },
    );
    assert_eq!(action, CaptureAction::Extract { request: 0 });
    assert_eq!(engine.slot_state(0), Some(SlotState::Extracting));
    let raw = plane(16 * 8 * 3);
    action = footage_capture_task(
        &mut engine,
        &mut distributor,
        CaptureEvent::Extracted { planes: vec![raw.clone()] },
    );
    assert_eq!(action, CaptureAction::Requeue { request: 0 });
    assert_eq!(engine.slot_state(0), Some(SlotState::Idle));
    let frame = distributor.receive(&subscription).expect("the first frame");
    assert_eq!(frame.sequence(), 0);
    assert_eq!(frame.captured_at_ms(), now + 2);
    assert_eq!(frame.payload(), &encode_frame(&raw, 16, 8).unwrap());
    action = footage_capture_task(
        &mut engine,
        &mut distributor,
        CaptureEvent::Requeued { now_ms: now + 12 },
    );
    assert_eq!(action, CaptureAction::Sleep { ms: 21 });
    assert_eq!(engine.slot_state(0), Some(SlotState::Queued));

    // The subscriber leaves: the count is back at zero and publishing goes on
    // without error, into the void.
    distributor.unsubscribe(subscription);
    assert_eq!(distributor.subscriber_count(), 0);
    assert_eq!(distributor.publish(vec![1, 2, 3], now + 40), 1);
    assert_eq!(distributor.subscriber_count(), 0);
    action = footage_capture_task(
        &mut engine,
        &mut distributor,
        CaptureEvent::Woke { now_ms: now + 33 },
    );
    assert_eq!(action, CaptureAction::Sleep { ms: 1000 });
    assert_eq!(engine.phase(), Phase::Idling);
}

#[test]
fn idle_engine_alternates_idle_wait_and_pacing() {
    let mut engine = started(2);
    let mut distributor = Distributor::new();
    let woke = |engine: &mut CaptureEngine, distributor: &mut Distributor, now_ms: u64| {
        footage_capture_task(engine, distributor, CaptureEvent::Woke { now_ms })
    };
    assert_eq!(woke(&mut engine, &mut distributor, 33), CaptureAction::Sleep { ms: 1000 });
    assert_eq!(engine.phase(), Phase::Idling);
    assert_eq!(woke(&mut engine, &mut distributor, 1033), CaptureAction::Sleep { ms: 33 });
    assert_eq!(woke(&mut engine, &mut distributor, 1066), CaptureAction::Sleep { ms: 1000 });
    assert_eq!(woke(&mut engine, &mut distributor, 2066), CaptureAction::Sleep { ms: 33 });
}

#[test]
fn completions_are_served_oldest_first() {
    let mut engine = started(3);
    let mut distributor = Distributor::new();
    let subscription = distributor.subscribe();
    // The camera fills requests while the loop rests.
    for (request, at) in [(2u64, 5u64), (0, 9), (1, 14)] {
        let action = footage_capture_task(
            &mut engine,
            &mut distributor,
            CaptureEvent::Completed { request, now_ms: at },
        );
        assert_eq!(action, CaptureAction::Sleep { ms: 33 });
        assert_eq!(engine.slot_state(request), Some(SlotState::Completed));
    }
    let mut served: Vec<(u64, u64)> = Vec::new();
    let mut now = 33u64;
    for _ in 0..3 {
        let action =
            footage_capture_task(&mut engine, &mut distributor, CaptureEvent::Woke { now_ms: now });
        let CaptureAction::Extract { request } = action else {
            panic!("expected an extraction, got {action:?}");
        };
        footage_capture_task(
            &mut engine,
            &mut distributor,
            CaptureEvent::Extracted { planes: vec![plane(16 * 8 * 3)] },
        );
        let frame = distributor.receive(&subscription).unwrap();
        served.push((request, frame.captured_at_ms()));
        now += 40;
        let rest = footage_capture_task(
            &mut engine,
            &mut distributor,
            CaptureEvent::Requeued { now_ms: now },
        );
        assert_eq!(rest, CaptureAction::Sleep { ms: 0 });
    }
    assert_eq!(served, vec![(2, 5), (0, 9), (1, 14)]);
    let action =
        footage_capture_task(&mut engine, &mut distributor, CaptureEvent::Woke { now_ms: now });
    assert_eq!(action, CaptureAction::AwaitCompletion);
}

#[test]
fn refused_frame_is_dropped_and_the_loop_goes_on() {
    let mut engine = started(2);
    let mut distributor = Distributor::new();
    let subscription = distributor.subscribe();
    footage_capture_task(&mut engine, &mut distributor, CaptureEvent::Woke { now_ms: 33 });
    footage_capture_task(
        &mut engine,
        &mut distributor,
        CaptureEvent::Completed { request: 1, now_ms: 34 },
    );
    assert_eq!(engine.phase(), Phase::Extracting { request: 1, captured_at_ms: 34 });
    let action = engine.frame_encoded(&mut distributor, None);
    assert_eq!(action, CaptureAction::Requeue { request: 1 });
    assert_eq!(distributor.next_sequence(), 0);
    assert!(distributor.receive(&subscription).is_none());
    let action =
        footage_capture_task(&mut engine, &mut distributor, CaptureEvent::Requeued { now_ms: 40 });
    assert_eq!(action, CaptureAction::Sleep { ms: 26 });
}

#[test]
fn encoded_frame_is_published_with_its_capture_time() {
    let mut engine = started(2);
    let mut distributor = Distributor::new();
    let subscription = distributor.subscribe();
    footage_capture_task(&mut engine, &mut distributor, CaptureEvent::Woke { now_ms: 33 });
    footage_capture_task(
        &mut engine,
        &mut distributor,
        CaptureEvent::Completed { request: 0, now_ms: 50 },
    );
    let action = engine.frame_encoded(&mut distributor, Some(vec![0xFF, 0xD8, 0xFF, 0xD9]));
    assert_eq!(action, CaptureAction::Requeue { request: 0 });
    let frame = distributor.receive(&subscription).unwrap();
    assert_eq!(frame.sequence(), 0);
    assert_eq!(frame.captured_at_ms(), 50);
    assert_eq!(frame.into_payload(), vec![0xFF, 0xD8, 0xFF, 0xD9]);
    // Outside an extraction the encoder's answer changes nothing.
    let again = engine.frame_encoded(&mut distributor, Some(vec![1]));
    assert_eq!(again, CaptureAction::Requeue { request: 0 });
    assert_eq!(distributor.next_sequence(), 1);
}

#[test]
fn short_planes_stop_the_engine() {
    let mut engine = started(2);
    let mut distributor = Distributor::new();
    let _subscription = distributor.subscribe();
    footage_capture_task(&mut engine, &mut distributor, CaptureEvent::Woke { now_ms: 33 });
    footage_capture_task(
        &mut engine,
        &mut distributor,
        CaptureEvent::Completed { request: 0, now_ms: 34 },
    );
    let action = footage_capture_task(
        &mut engine,
        &mut distributor,
        CaptureEvent::Extracted { planes: vec![plane(10)] },
    );
    assert_eq!(action, CaptureAction::Stop { error: CaptureError::Device });
    assert_eq!(distributor.next_sequence(), 0);
}

#[test]
fn unknown_completion_stops_the_engine() {
    for request in [2u64, 99, u64::MAX] {
        let mut engine = started(2);
        let mut distributor = Distributor::new();
        let action = footage_capture_task(
            &mut engine,
            &mut distributor,
            CaptureEvent::Completed { request, now_ms: 1 },
        );
        assert_eq!(action, CaptureAction::Stop { error: CaptureError::Device }, "{request}");
    }
}

#[test]
fn repeated_completion_stops_the_engine() {
    let mut engine = started(2);
    let mut distributor = Distributor::new();
    footage_capture_task(
        &mut engine,
        &mut distributor,
        CaptureEvent::Completed { request: 0, now_ms: 1 },
    );
    let action = footage_capture_task(
        &mut engine,
        &mut distributor,
        CaptureEvent::Completed { request: 0, now_ms: 2 },
    );
    assert_eq!(action, CaptureAction::Stop { error: CaptureError::Device });
}

#[test]
fn hardware_failure_stops_the_engine_for_good() {
    let mut engine = started(2);
    let mut distributor = Distributor::new();
    let _subscription = distributor.subscribe();
    let stop = CaptureAction::Stop { error: CaptureError::Device };
    assert_eq!(footage_capture_task(&mut engine, &mut distributor, CaptureEvent::Failed), stop);
    assert_eq!(engine.phase(), Phase::Stopped { error: CaptureError::Device });
    let events = [
        CaptureEvent::Woke { now_ms: 100 },
        CaptureEvent::Completed { request: 0, now_ms: 100 },
        CaptureEvent::Extracted { planes: vec![plane(16 * 8 * 3)] },
        CaptureEvent::Requeued { now_ms: 100 },
        CaptureEvent::Failed,
    ];
    for event in events {
        assert_eq!(footage_capture_task(&mut engine, &mut distributor, event), stop);
    }
    assert_eq!(distributor.next_sequence(), 0);
}

#[test]
fn events_out_of_turn_change_nothing() {
    let mut engine = started(2);
    let mut distributor = Distributor::new();
    let _subscription = distributor.subscribe();
    let rest = CaptureAction::Sleep { ms: 33 };
    assert_eq!(
        footage_capture_task(
            &mut engine,
            &mut distributor,
            CaptureEvent::Extracted { planes: vec![plane(16 * 8 * 3)] }
        ),
        rest
    );
    assert_eq!(
        footage_capture_task(&mut engine, &mut distributor, CaptureEvent::Requeued { now_ms: 9 }),
        rest
    );
    assert_eq!(engine.phase(), Phase::Pacing { ms: 33 });
    assert_eq!(distributor.next_sequence(), 0);
    footage_capture_task(&mut engine, &mut distributor, CaptureEvent::Woke { now_ms: 33 });
    assert_eq!(
        footage_capture_task(&mut engine, &mut distributor, CaptureEvent::Woke { now_ms: 34 }),
        CaptureAction::AwaitCompletion
    );
}

#[test]
fn frame_length_is_three_bytes_per_pixel() {
    assert_eq!(frame_bytes(1024, 768), 2_359_296);
    assert_eq!(frame_bytes(16, 8), 384);
    assert_eq!(frame_bytes(0, 768), 0);
    assert_eq!(frame_bytes(1, 1), 3);
    assert_eq!(frame_bytes(65535, 65535), 12_884_508_675);
    assert_eq!(frame_bytes(u32::MAX, u32::MAX), 3 * (u32::MAX as u128) * (u32::MAX as u128));
}

#[test]
fn buffer_that_does_not_fill_the_geometry_is_not_encoded() {
    assert_eq!(encode_frame(&plane(16 * 8 * 3 - 1), 16, 8), None);
    assert_eq!(encode_frame(&plane(16 * 8 * 3 + 1), 16, 8), None);
    assert_eq!(encode_frame(&plane(100), u32::MAX, u32::MAX), None);
    assert_eq!(encode_frame(&vec![], 16, 8), None);
}

#[test]
fn engine_transitions_taken_one_by_one() {
    let mut engine = started(2);
    let mut distributor = Distributor::new();
    let _subscription = distributor.subscribe();
    assert_eq!(engine.woke(33, 1), CaptureAction::AwaitCompletion);
    assert_eq!(engine.phase(), Phase::Awaiting);
    assert_eq!(engine.completed(1, 40), CaptureAction::Extract { request: 1 });
    assert_eq!(engine.completed(0, 41), CaptureAction::Extract { request: 1 });
    assert_eq!(engine.slot_state(0), Some(SlotState::Completed));
    assert_eq!(
        engine.extracted(&mut distributor, vec![plane(16 * 8 * 3)]),
        CaptureAction::Requeue { request: 1 }
    );
    assert_eq!(distributor.next_sequence(), 1);
    assert_eq!(engine.requeued(50), CaptureAction::Sleep { ms: 16 });
    assert_eq!(engine.slot_state(1), Some(SlotState::Queued));
    // The other request was filled in the meantime and is taken up without waiting.
    assert_eq!(engine.woke(66, 1), CaptureAction::Extract { request: 0 });
    assert_eq!(engine.phase(), Phase::Extracting { request: 0, captured_at_ms: 41 });
    assert_eq!(engine.failed(), CaptureAction::Stop { error: CaptureError::Device });
    assert_eq!(engine.failed(), CaptureAction::Stop { error: CaptureError::Device });
    assert_eq!(engine.woke(99, 1), CaptureAction::Stop { error: CaptureError::Device });
}

#[test]
fn subscriber_count_at_wake_up_decides() {
    let mut engine = started(2);
    assert_eq!(engine.woke(33, 0), CaptureAction::Sleep { ms: 1000 });
    assert_eq!(engine.woke(1033, 5), CaptureAction::Sleep { ms: 33 });
    assert_eq!(engine.woke(1066, usize::MAX), CaptureAction::AwaitCompletion);
}
