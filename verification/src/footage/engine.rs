//! The capture engine: a fixed pool of capture requests that cycle between
//! the camera and the loop, and the rhythm of that loop.
//!
//! The engine performs no hardware call itself. It says which one is due
//! ([`CaptureAction`]), is told how it went ([`CaptureEvent`]), and keeps
//! the book on every request in between.

use vstd::prelude::*;
use std::collections::VecDeque;
use crate::distributor::{Distributor, DistributorView};
use crate::footage::{
    encode_frame, encoded_frame, extract_image_from_request, extracted_frame, pacing_delay,
    pacing_delay_ms, plane_views, CaptureConfig, CaptureError, ConfigStatus, DeviceReport,
};

verus! {

/// Where a capture request is in its cycle.
#[derive(Clone, Copy, Debug, PartialEq, Eq, Structural)]
pub enum SlotState {
    /// With the loop, free to be queued again.
    Idle,
    /// With the camera, waiting to be filled.
    Queued,
    /// Filled by the camera, waiting for its turn.
    Completed,
    /// Its planes are being read.
    Extracting,
}

/// A request that the camera has filled, and when.
#[derive(Clone, Copy, Debug, PartialEq, Eq, Structural)]
pub struct Completion {
    pub request: u64,
    pub at_ms: u64,
}

/// What the capture loop is doing.
#[derive(Clone, Copy, Debug, PartialEq, Eq, Structural)]
pub enum Phase {
    /// Resting for `ms` before the next frame.
    Pacing { ms: u64 },
    /// Resting because nobody is subscribed.
    Idling,
    /// Waiting for the camera to fill a request.
    Awaiting,
    /// Reading the planes of `request`, which was filled at
    /// `captured_at_ms`.
    Extracting { request: u64, captured_at_ms: u64 },
    /// Handing `request` back to the camera.
    Requeuing { request: u64 },
    /// Ended by `error`.
    Stopped { error: CaptureError },
}

/// The hardware work that is due next.
#[derive(Clone, Copy, Debug, PartialEq, Eq, Structural)]
pub enum CaptureAction {
    /// Rest for `ms` milliseconds.
    Sleep { ms: u64 },
    /// Block until the camera has filled a request.
    AwaitCompletion,
    /// Read the planes of `request`.
    Extract { request: u64 },
    /// Queue `request` again, with the buffer it already has.
    Requeue { request: u64 },
    /// Shut the pipeline down.
    Stop { error: CaptureError },
}

/// How the hardware work went.
pub enum CaptureEvent {
    /// The rest is over.
    Woke { now_ms: u64 },
    /// The camera has filled `request`.
    Completed { request: u64, now_ms: u64 },
    /// The planes of the request being read.
    Extracted { planes: Vec<Vec<u8>> },
    /// The request is with the camera again.
    Requeued { now_ms: u64 },
    /// A call to the camera failed.
    Failed,
}

/// Mathematical value of a [`CaptureEngine`].
pub struct EngineView {
    pub config: CaptureConfig,
    /// The state of each request, by its number.
    pub slots: Seq<SlotState>,
    /// The filled requests that have not had their turn, oldest first.
    pub completions: Seq<Completion>,
    pub phase: Phase,
    /// When the frame in the making, or the last one, was begun.
    pub started_at_ms: u64,
    /// When the last frame was done.
    pub ended_at_ms: u64,
}

impl EngineView {
    /// The waiting line lists, once each, exactly the requests marked
    /// completed.
    pub open spec fn line_matches_slots(self) -> bool {
        &&& forall|k: int|
            0 <= k < self.completions.len() ==> {
                &&& (#[trigger] self.completions[k]).request < self.slots.len()
                &&& self.slots[self.completions[k].request as int] == SlotState::Completed
            }
        &&& forall|j: int, k: int|
            0 <= j < k < self.completions.len() ==> (#[trigger] self.completions[j]).request != (
            #[trigger] self.completions[k]).request
        &&& forall|i: int|
            0 <= i < self.slots.len() && #[trigger] self.slots[i] == SlotState::Completed
                ==> self.in_line(i)
    }

    /// Request `i` waits in the line of filled requests.
    pub open spec fn in_line(self, i: int) -> bool {
        exists|k: int|
            0 <= k < self.completions.len() && (#[trigger] self.completions[k]).request == i
    }

    /// The loop is reading request `i`.
    pub open spec fn reads(self, i: int) -> bool {
        self.phase matches Phase::Extracting { request, .. } && request == i
    }

    /// The loop is handing request `i` back to the camera.
    pub open spec fn hands_back(self, i: int) -> bool {
        self.phase matches Phase::Requeuing { request } && request == i
    }

    /// A request is being read exactly while the loop reads it, and is idle
    /// exactly while the loop hands it back.
    pub open spec fn phase_matches_slots(self) -> bool {
        &&& forall|i: int|
            0 <= i < self.slots.len() ==> (#[trigger] self.slots[i] == SlotState::Extracting
                <==> self.reads(i))
        &&& forall|i: int|
            0 <= i < self.slots.len() ==> (#[trigger] self.slots[i] == SlotState::Idle
                <==> self.hands_back(i))
        &&& self.phase matches Phase::Extracting { request, .. } ==> request < self.slots.len()
        &&& self.phase matches Phase::Requeuing { request } ==> request < self.slots.len()
    }

    /// The configuration is valid and the pool has the buffers it needs.
    pub open spec fn equipped(self) -> bool {
        &&& self.config.valid()
        &&& self.config.min_buffers <= self.slots.len() <= usize::MAX
    }

    /// Every request is in exactly one place: with the camera, in the line
    /// of filled requests, being read, or on its way back.
    pub open spec fn pool_wf(self) -> bool {
        &&& self.equipped()
        &&& self.line_matches_slots()
        &&& self.phase_matches_slots()
    }

    /// The engine is equipped; while it runs, every request is in exactly
    /// one place; and the loop never waits for the camera while a filled
    /// request stands in line.
    pub open spec fn wf(self) -> bool {
        &&& self.equipped()
        &&& self.phase !is Stopped ==> self.pool_wf()
        &&& self.phase is Awaiting ==> self.completions.len() == 0
    }

    /// The engine right after a successful start at `now_ms` with
    /// `buffers` requests, all of them queued.
    pub open spec fn started(config: CaptureConfig, buffers: nat, now_ms: u64) -> EngineView {
        EngineView {
            config,
            slots: Seq::new(buffers, |i: int| SlotState::Queued),
            completions: Seq::empty(),
            phase: Phase::Pacing { ms: config.interval_ms() as u64 },
            started_at_ms: now_ms,
            ended_at_ms: now_ms,
        }
    }

    /// The rest that is due now, given when the last frame began and ended.
    pub open spec fn rest_ms(self) -> u64 {
        pacing_delay(
            self.config.interval_ms(),
            self.started_at_ms as nat,
            self.ended_at_ms as nat,
        ) as u64
    }

    /// The hardware work that the engine is waiting for.
    pub open spec fn pending_action(self) -> CaptureAction {
        match self.phase {
            Phase::Pacing { ms } => CaptureAction::Sleep { ms },
            Phase::Idling => CaptureAction::Sleep { ms: self.config.idle_wait_ms },
            Phase::Awaiting => CaptureAction::AwaitCompletion,
            Phase::Extracting { request, .. } => CaptureAction::Extract { request },
            Phase::Requeuing { request } => CaptureAction::Requeue { request },
            Phase::Stopped { error } => CaptureAction::Stop { error },
        }
    }

    /// Number of requests that are filled and not yet handed back: those
    /// in the line and the one being read.
    pub open spec fn pending_extraction(self) -> nat {
        self.completions.len() + if self.phase is Extracting {
            1nat
        } else {
            0nat
        }
    }

    /// The engine, ended by `error`.
    pub open spec fn stopped(self, error: CaptureError) -> EngineView {
        EngineView { phase: Phase::Stopped { error }, ..self }
    }

    /// The oldest filled request leaves the line and is read.
    pub open spec fn begin_extraction(self) -> EngineView
        recommends
            self.completions.len() > 0,
    {
        let oldest = self.completions[0];
        EngineView {
            slots: self.slots.update(oldest.request as int, SlotState::Extracting),
            completions: self.completions.subrange(1, self.completions.len() as int),
            phase: Phase::Extracting { request: oldest.request, captured_at_ms: oldest.at_ms },
            ..self
        }
    }

    /// A rest is over, with `subscribers` live subscriptions at that
    /// moment.
    ///
    /// After pacing: with no subscriber the engine idles and touches no
    /// request; otherwise a frame begins at `now_ms`, with the oldest
    /// filled request if there is one. After idling the engine paces
    /// again. In any other phase nothing changes.
    pub open spec fn woke(self, now_ms: u64, subscribers: nat) -> EngineView {
        match self.phase {
            Phase::Pacing { .. } => if subscribers == 0 {
                EngineView { phase: Phase::Idling, ..self }
            } else if self.completions.len() > 0 {
                (EngineView { started_at_ms: now_ms, ..self }).begin_extraction()
            } else {
                EngineView { started_at_ms: now_ms, phase: Phase::Awaiting, ..self }
            },
            Phase::Idling => EngineView { phase: Phase::Pacing { ms: self.rest_ms() }, ..self },
            _ => self,
        }
    }

    /// The camera reports `request` as filled at `now_ms`.
    ///
    /// A queued request joins the line of filled requests, and is read at
    /// once if the loop was waiting for it. A report on a request that is
    /// not with the camera ends the engine with a device error.
    pub open spec fn completed(self, request: u64, now_ms: u64) -> EngineView {
        if self.phase is Stopped {
            self
        } else if request < self.slots.len() && self.slots[request as int] == SlotState::Queued {
            let noted = EngineView {
                slots: self.slots.update(request as int, SlotState::Completed),
                completions: self.completions.push(Completion { request, at_ms: now_ms }),
                ..self
            };
            if self.phase is Awaiting {
                noted.begin_extraction()
            } else {
                noted
            }
        } else {
            self.stopped(CaptureError::Device)
        }
    }

    /// The encoder's answer for the request being read: `Some` bytes are
    /// published with the time at which the request was filled, `None`
    /// drops the frame. Either way the request is free and goes back to the
    /// camera next. In any other phase nothing changes.
    pub open spec fn frame_encoded(
        self,
        distributor: DistributorView,
        encoded: Option<Seq<u8>>,
    ) -> (EngineView, DistributorView) {
        match self.phase {
            Phase::Extracting { request, captured_at_ms } => (
                EngineView {
                    slots: self.slots.update(request as int, SlotState::Idle),
                    phase: Phase::Requeuing { request },
                    ..self
                },
                match encoded {
                    Some(bytes) => distributor.publish(bytes, captured_at_ms as nat),
                    None => distributor,
                },
            ),
            _ => (self, distributor),
        }
    }

    /// The planes of the request being read have arrived.
    ///
    /// Planes that hold no whole frame end the engine with a device error.
    /// Otherwise the frame is encoded and the answer handled as
    /// [`Self::frame_encoded`] says. In any other phase nothing changes.
    pub open spec fn extracted(self, distributor: DistributorView, planes: Seq<Seq<u8>>) -> (
        EngineView,
        DistributorView,
    ) {
        match self.phase {
            Phase::Extracting { .. } => match extracted_frame(
                planes,
                self.config.width,
                self.config.height,
            ) {
                Some(raw) => self.frame_encoded(
                    distributor,
                    encoded_frame(raw, self.config.width, self.config.height),
                ),
                None => (self.stopped(CaptureError::Device), distributor),
            },
            _ => (self, distributor),
        }
    }

    /// The request on its way back is with the camera again at `now_ms`:
    /// the frame is done, and the engine rests for what is left of the
    /// interval. In any other phase nothing changes.
    pub open spec fn requeued(self, now_ms: u64) -> EngineView {
        match self.phase {
            Phase::Requeuing { request } => {
                let done = EngineView {
                    slots: self.slots.update(request as int, SlotState::Queued),
                    ended_at_ms: now_ms,
                    ..self
                };
                EngineView { phase: Phase::Pacing { ms: done.rest_ms() }, ..done }
            },
            _ => self,
        }
    }

    /// A call to the camera failed: the engine ends with a device error,
    /// unless it has ended already.
    pub open spec fn failed(self) -> EngineView {
        if self.phase is Stopped {
            self
        } else {
            self.stopped(CaptureError::Device)
        }
    }

    /// The engine and the distributor after `event`.
    pub open spec fn step(self, distributor: DistributorView, event: CaptureEvent) -> (
        EngineView,
        DistributorView,
    ) {
        match event {
            CaptureEvent::Woke { now_ms } => (
                self.woke(now_ms, distributor.subscriber_count()),
                distributor,
            ),
            CaptureEvent::Completed { request, now_ms } => (
                self.completed(request, now_ms),
                distributor,
            ),
            CaptureEvent::Extracted { planes } => self.extracted(distributor, plane_views(planes@)),
            CaptureEvent::Requeued { now_ms } => (self.requeued(now_ms), distributor),
            CaptureEvent::Failed => (self.failed(), distributor),
        }
    }
}

/// Why a start with `config` on a camera that reported `device` fails, if
/// it does: an invalid configuration first, then no camera, then a
/// configuration that the camera calls invalid, then too few buffers.
pub open spec fn start_error(config: CaptureConfig, device: DeviceReport) -> Option<CaptureError> {
    if !config.valid() {
        Some(CaptureError::Configuration)
    } else if device.cameras == 0 {
        Some(CaptureError::Device)
    } else if device.status == ConfigStatus::Invalid {
        Some(CaptureError::Configuration)
    } else if device.buffers < config.min_buffers {
        Some(CaptureError::Allocation)
    } else {
        None
    }
}

/// The capture engine.
pub struct CaptureEngine {
    config: CaptureConfig,
    slots: Vec<SlotState>,
    completions: VecDeque<Completion>,
    phase: Phase,
    started_at_ms: u64,
    ended_at_ms: u64,
}

impl View for CaptureEngine {
    type V = EngineView;

    closed spec fn view(&self) -> EngineView {
        EngineView {
            config: self.config,
            slots: self.slots@,
            completions: self.completions@,
            phase: self.phase,
            started_at_ms: self.started_at_ms,
            ended_at_ms: self.ended_at_ms,
        }
    }
}

impl CaptureEngine {
    /// The value is well formed.
    pub open spec fn wf(&self) -> bool {
        self@.wf()
    }

    /// Starts an engine for `config` on a camera that reported `device`,
    /// at `now_ms`.
    ///
    /// A configuration that the camera adjusted is accepted. On success
    /// the pool has one request for each buffer that the camera allocated,
    /// and every one of them counts as queued: the caller queues them all
    /// before the first step. The first action due is a rest of one whole
    /// interval.
    pub fn start(config: CaptureConfig, device: DeviceReport, now_ms: u64) -> (result: Result<
        CaptureEngine,
        CaptureError,
    >)
        ensures
            match result {
                Ok(engine) => {
                    &&& start_error(config, device) is None
                    &&& engine.wf()
                    &&& engine@ == EngineView::started(config, device.buffers as nat, now_ms)
                },
                Err(error) => start_error(config, device) == Some(error),
            },
    {
        match config.validate() {
            Err(error) => {
                return Err(error);
            },
            Ok(()) => {},
        }
        if device.cameras == 0 {
            return Err(CaptureError::Device);
        }
        match device.status {
            ConfigStatus::Invalid => {
                return Err(CaptureError::Configuration);
            },
            _ => {},
        }
        if device.buffers < config.min_buffers {
            return Err(CaptureError::Allocation);
        }
        let mut slots: Vec<SlotState> = Vec::new();
        let mut i: usize = 0;
        while i < device.buffers
            invariant
                i <= device.buffers,
                slots@.len() == i,
                forall|k: int| 0 <= k < i ==> #[trigger] slots@[k] == SlotState::Queued,
            decreases device.buffers - i,
        {
            slots.push(SlotState::Queued);
            i += 1;
        }
        let interval = config.frame_interval_ms();
        let engine = CaptureEngine {
            config,
            slots,
            completions: VecDeque::new(),
            phase: Phase::Pacing { ms: interval },
            started_at_ms: now_ms,
            ended_at_ms: now_ms,
        };
        assert(engine@.slots =~= EngineView::started(config, device.buffers as nat, now_ms).slots);
        Ok(engine)
    }

    /// The configuration that the engine runs with.
    pub fn config(&self) -> (config: CaptureConfig)
        ensures
            config == self@.config,
    {
        self.config
    }

    /// What the capture loop is doing.
    pub fn phase(&self) -> (phase: Phase)
        ensures
            phase == self@.phase,
    {
        self.phase
    }

    /// Number of requests in the pool.
    pub fn pool_size(&self) -> (n: usize)
        ensures
            n == self@.slots.len(),
    {
        self.slots.len()
    }

    /// The state of `request`, if the pool has a request of that number.
    pub fn slot_state(&self, request: u64) -> (state: Option<SlotState>)
        ensures
            state == if request < self@.slots.len() {
                Some(self@.slots[request as int])
            } else {
                None
            },
    {
        if request < self.slots.len() as u64 {
            Some(self.slots[request as usize])
        } else {
            None
        }
    }

    /// The hardware work that the engine is waiting for.
    pub fn pending_action(&self) -> (action: CaptureAction)
        ensures
            action == self@.pending_action(),
    {
        match self.phase {
            Phase::Pacing { ms } => CaptureAction::Sleep { ms },
            Phase::Idling => CaptureAction::Sleep { ms: self.config.idle_wait_ms },
            Phase::Awaiting => CaptureAction::AwaitCompletion,
            Phase::Extracting { request, .. } => CaptureAction::Extract { request },
            Phase::Requeuing { request } => CaptureAction::Requeue { request },
            Phase::Stopped { error } => CaptureAction::Stop { error },
        }
    }

    fn rest(&self) -> (ms: u64)
        requires
            self@.config.valid(),
        ensures
            ms == self@.rest_ms(),
    {
        pacing_delay_ms(self.config.frame_interval_ms(), self.started_at_ms, self.ended_at_ms)
    }

    fn begin_extraction(&mut self)
        requires
            old(self)@.pool_wf(),
            old(self)@.completions.len() > 0,
            old(self)@.phase is Pacing || old(self)@.phase is Awaiting,
        ensures
            final(self).wf(),
            final(self)@ == old(self)@.begin_extraction(),
    {
        let ghost before = self@;
        let oldest = self.completions.pop_front().unwrap();
        assert(before.completions[0] == oldest);
        self.slots.set(oldest.request as usize, SlotState::Extracting);
        self.phase = Phase::Extracting { request: oldest.request, captured_at_ms: oldest.at_ms };
        proof {
            let after = self@;
            assert(after == before.begin_extraction());
            assert forall|k: int| 0 <= k < after.completions.len() implies {
                &&& (#[trigger] after.completions[k]).request < after.slots.len()
                &&& after.slots[after.completions[k].request as int] == SlotState::Completed
            } by {
                assert(after.completions[k] == before.completions[k + 1]);
                assert(before.completions[0].request != before.completions[k + 1].request);
            }
            assert forall|j: int, k: int| 0 <= j < k < after.completions.len() implies (
            #[trigger] after.completions[j]).request != (
            #[trigger] after.completions[k]).request by {
                assert(after.completions[j] == before.completions[j + 1]);
                assert(after.completions[k] == before.completions[k + 1]);
            }
            assert forall|i: int|
                0 <= i < after.slots.len() && #[trigger] after.slots[i]
                    == SlotState::Completed implies after.in_line(i) by {
                assert(before.slots[i] == SlotState::Completed);
                assert(before.in_line(i));
                let k = choose|k: int|
                    0 <= k < before.completions.len() && (#[trigger] before.completions[k]).request
                        == i;
                assert(k != 0);
                assert(after.completions[k - 1] == before.completions[k]);
            }
        }
    }

    /// Takes note that a rest is over, with `subscribers` live
    /// subscriptions at that moment.
    pub fn woke(&mut self, now_ms: u64, subscribers: usize) -> (action: CaptureAction)
        requires
            old(self).wf(),
        ensures
            final(self).wf(),
            final(self)@ == old(self)@.woke(now_ms, subscribers as nat),
            action == final(self)@.pending_action(),
    {
        match self.phase {
            Phase::Pacing { .. } => {
                if subscribers == 0 {
                    self.phase = Phase::Idling;
                } else if self.completions.len() > 0 {
                    self.started_at_ms = now_ms;
                    self.begin_extraction();
                } else {
                    self.started_at_ms = now_ms;
                    self.phase = Phase::Awaiting;
                }
            },
            Phase::Idling => {
                let ms = self.rest();
                self.phase = Phase::Pacing { ms };
            },
            _ => {},
        }
        self.pending_action()
    }

    /// Takes note that the camera has filled `request` at `now_ms`.
    pub fn completed(&mut self, request: u64, now_ms: u64) -> (action: CaptureAction)
        requires
            old(self).wf(),
        ensures
            final(self).wf(),
            final(self)@ == old(self)@.completed(request, now_ms),
            action == final(self)@.pending_action(),
    {
        match self.phase {
            Phase::Stopped { .. } => {
                return self.pending_action();
            },
            _ => {},
        }
        let known = request < self.slots.len() as u64;
        let queued = known && match self.slots[request as usize] {
            SlotState::Queued => true,
            _ => false,
        };
        if queued {
            let ghost before = self@;
            self.slots.set(request as usize, SlotState::Completed);
            self.completions.push_back(Completion { request, at_ms: now_ms });
            proof {
                let noted = self@;
                assert forall|k: int| 0 <= k < noted.completions.len() implies {
                    &&& (#[trigger] noted.completions[k]).request < noted.slots.len()
                    &&& noted.slots[noted.completions[k].request as int] == SlotState::Completed
                } by {
                    if k < before.completions.len() {
                        assert(noted.completions[k] == before.completions[k]);
                    }
                }
                assert forall|j: int, k: int| 0 <= j < k < noted.completions.len() implies (
                #[trigger] noted.completions[j]).request != (
                #[trigger] noted.completions[k]).request by {
                    assert(noted.completions[j] == before.completions[j]);
                    if k < before.completions.len() {
                        assert(noted.completions[k] == before.completions[k]);
                    }
                }
                assert forall|i: int|
                    0 <= i < noted.slots.len() && #[trigger] noted.slots[i]
                        == SlotState::Completed implies noted.in_line(i) by {
                    if i == request {
                        assert(noted.completions[before.completions.len() as int].request == i);
                    } else {
                        assert(before.slots[i] == SlotState::Completed);
                        assert(before.in_line(i));
                        let k = choose|k: int|
                            0 <= k < before.completions.len() && (
                            #[trigger] before.completions[k]).request == i;
                        assert(noted.completions[k] == before.completions[k]);
                    }
                }
                assert(noted.line_matches_slots());
            }
            match self.phase {
                Phase::Awaiting => {
                    self.begin_extraction();
                },
                _ => {},
            }
        } else {
            self.phase = Phase::Stopped { error: CaptureError::Device };
        }
        self.pending_action()
    }

    /// Handles the encoder's answer for the request being read.
    pub fn frame_encoded(
        &mut self,
        distributor: &mut Distributor,
        encoded: Option<Vec<u8>>,
    ) -> (action: CaptureAction)
        requires
            old(self).wf(),
            old(distributor).wf(),
            old(distributor)@.next_sequence < u64::MAX,
        ensures
            final(self).wf(),
            final(distributor).wf(),
            (final(self)@, final(distributor)@) == old(self)@.frame_encoded(
                old(distributor)@,
                match encoded {
                    Some(bytes) => Some(bytes@),
                    None => None,
                },
            ),
            action == final(self)@.pending_action(),
    {
        match self.phase {
            Phase::Extracting { request, captured_at_ms } => {
                match encoded {
                    Some(bytes) => {
                        distributor.publish(bytes, captured_at_ms);
                    },
                    None => {},
                }
                let ghost before = self@;
                self.slots.set(request as usize, SlotState::Idle);
                self.phase = Phase::Requeuing { request };
                proof {
                    let after = self@;
                    assert forall|k: int| 0 <= k < after.completions.len() implies {
                        &&& (#[trigger] after.completions[k]).request < after.slots.len()
                        &&& after.slots[after.completions[k].request as int]
                            == SlotState::Completed
                    } by {
                        assert(before.completions[k].request != request);
                    }
                    assert forall|i: int|
                        0 <= i < after.slots.len() && #[trigger] after.slots[i]
                            == SlotState::Completed implies after.in_line(i) by {
                        assert(before.slots[i] == SlotState::Completed);
                        assert(before.in_line(i));
                    }
                }
            },
            _ => {},
        }
        self.pending_action()
    }

    /// Takes the planes of the request being read, encodes the frame they
    /// hold and publishes it.
    pub fn extracted(&mut self, distributor: &mut Distributor, planes: Vec<Vec<u8>>) -> (action:
        CaptureAction)
        requires
            old(self).wf(),
            old(distributor).wf(),
            old(distributor)@.next_sequence < u64::MAX,
        ensures
            final(self).wf(),
            final(distributor).wf(),
            (final(self)@, final(distributor)@) == old(self)@.extracted(
                old(distributor)@,
                plane_views(planes@),
            ),
            action == final(self)@.pending_action(),
    {
        match self.phase {
            Phase::Extracting { .. } => {
                match extract_image_from_request(planes, self.config.width, self.config.height) {
                    Ok(raw) => {
                        let encoded = encode_frame(&raw, self.config.width, self.config.height);
                        self.frame_encoded(distributor, encoded)
                    },
                    Err(_) => {
                        self.phase = Phase::Stopped { error: CaptureError::Device };
                        self.pending_action()
                    },
                }
            },
            _ => self.pending_action(),
        }
    }

    /// Takes note that the request on its way back is with the camera
    /// again at `now_ms`.
    pub fn requeued(&mut self, now_ms: u64) -> (action: CaptureAction)
        requires
            old(self).wf(),
        ensures
            final(self).wf(),
            final(self)@ == old(self)@.requeued(now_ms),
            action == final(self)@.pending_action(),
    {
        match self.phase {
            Phase::Requeuing { request } => {
                let ghost before = self@;
                self.slots.set(request as usize, SlotState::Queued);
                self.ended_at_ms = now_ms;
                let ms = self.rest();
                self.phase = Phase::Pacing { ms };
                proof {
                    let after = self@;
                    assert forall|k: int| 0 <= k < after.completions.len() implies {
                        &&& (#[trigger] after.completions[k]).request < after.slots.len()
                        &&& after.slots[after.completions[k].request as int]
                            == SlotState::Completed
                    } by {
                        assert(before.completions[k].request != request);
                    }
                    assert forall|i: int|
                        0 <= i < after.slots.len() && #[trigger] after.slots[i]
                            == SlotState::Completed implies after.in_line(i) by {
                        assert(before.slots[i] == SlotState::Completed);
                        assert(before.in_line(i));
                    }
                }
            },
            _ => {},
        }
        self.pending_action()
    }

    /// Takes note that a call to the camera failed.
    pub fn failed(&mut self) -> (action: CaptureAction)
        requires
            old(self).wf(),
        ensures
            final(self).wf(),
            final(self)@ == old(self)@.failed(),
            action == final(self)@.pending_action(),
    {
        match self.phase {
            Phase::Stopped { .. } => {},
            _ => {
                self.phase = Phase::Stopped { error: CaptureError::Device };
            },
        }
        self.pending_action()
    }
}

} // verus!
