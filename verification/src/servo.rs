//! The servo: what a position command means in microseconds of pulse
//! width, and the one queue through which all sessions drive the one
//! output.

use vstd::prelude::*;
use std::collections::VecDeque;

pub mod theorems;

verus! {

/// A position command.
#[derive(Clone, Copy, Debug, PartialEq, Eq, Structural)]
pub enum ServoPosition {
    /// The lower end of the travel.
    Left,
    /// The middle of the travel.
    Center,
    /// The upper end of the travel.
    Right,
    /// A position along the travel, in millionths of the way from the
    /// middle to an end: `-1_000_000` is the lower end, `0` the middle,
    /// `1_000_000` the upper end. Values beyond the ends count as the ends.
    Custom(i32),
}

/// Number of [`ServoPosition::Custom`] units from the middle of the travel
/// to either end.
pub const FULL_DEFLECTION: i32 = 1_000_000;

/// Number of failed writes in a row at which the servo gives up.
pub const FAILURE_LIMIT: u32 = 3;

/// The output pin and the signal it carries.
#[derive(Clone, Copy, Debug, PartialEq, Eq, Structural)]
pub struct ServoConfig {
    /// Number of the GPIO pin that drives the servo.
    pub gpio_pin: u8,
    /// Length of one cycle of the signal, in milliseconds.
    pub period_ms: u64,
    /// Pulse width at the lower end of the travel, in microseconds.
    pub min_pulse_width_us: u64,
    /// Pulse width at the upper end of the travel, in microseconds.
    pub max_pulse_width_us: u64,
}

/// Why a servo cannot be set up.
#[derive(Clone, Copy, Debug, PartialEq, Eq, Structural)]
pub enum ServoError {
    /// The smallest pulse width is above the largest.
    InvalidRange,
}

/// A signal to put on the output pin.
#[derive(Clone, Copy, Debug, PartialEq, Eq, Structural)]
pub struct PwmSetting {
    pub period_ms: u64,
    pub pulse_width_us: u64,
}

/// What the servo loop is told.
#[derive(Clone, Copy, Debug, PartialEq, Eq, Structural)]
pub enum ServoEvent {
    /// Commands may have arrived.
    Wake,
    /// The write that was due is done.
    Written,
    /// The write that was due failed.
    WriteFailed,
}

/// What the servo loop does next.
#[derive(Clone, Copy, Debug, PartialEq, Eq, Structural)]
pub enum ServoAction {
    /// Nothing is due until a command arrives.
    Wait,
    /// Put this signal on the pin.
    Write(PwmSetting),
    /// Writes keep failing: report the servo as broken.
    Escalate,
}

/// `units`, brought into the travel.
pub open spec fn clamp_units(units: int) -> int {
    if units < -FULL_DEFLECTION {
        -(FULL_DEFLECTION as int)
    } else if units > FULL_DEFLECTION {
        FULL_DEFLECTION as int
    } else {
        units
    }
}

impl ServoConfig {
    /// The smallest pulse width is not above the largest.
    pub open spec fn valid(self) -> bool {
        self.min_pulse_width_us <= self.max_pulse_width_us
    }

    /// Pulse width in the middle of the travel, rounded down.
    pub open spec fn center_us(self) -> int {
        (self.min_pulse_width_us + self.max_pulse_width_us) / 2
    }

    /// Pulse width, in microseconds, that puts the servo at `position`.
    ///
    /// The named positions are the two ends and the middle. A custom
    /// position is clamped to the travel and then lies on the straight line
    /// through the two ends, rounded down to a whole microsecond.
    pub open spec fn pulse_width(self, position: ServoPosition) -> int {
        match position {
            ServoPosition::Left => self.min_pulse_width_us as int,
            ServoPosition::Center => self.center_us(),
            ServoPosition::Right => self.max_pulse_width_us as int,
            ServoPosition::Custom(units) => (FULL_DEFLECTION * (self.min_pulse_width_us
                + self.max_pulse_width_us) + clamp_units(units as int) * (self.max_pulse_width_us
                - self.min_pulse_width_us)) / (2 * FULL_DEFLECTION),
        }
    }

    /// Pin 18, a cycle of 20 ms, pulses from 1000 to 2000 microseconds.
    pub fn standard() -> (config: ServoConfig)
        ensures
            config.valid(),
            config == (ServoConfig {
                gpio_pin: 18,
                period_ms: 20,
                min_pulse_width_us: 1000,
                max_pulse_width_us: 2000,
            }),
    {
        ServoConfig {
            gpio_pin: 18,
            period_ms: 20,
            min_pulse_width_us: 1000,
            max_pulse_width_us: 2000,
        }
    }

    /// Computes [`Self::pulse_width`].
    pub fn pulse_width_us(&self, position: ServoPosition) -> (us: u64)
        requires
            self.valid(),
        ensures
            us == self.pulse_width(position),
            self.min_pulse_width_us <= us <= self.max_pulse_width_us,
    {
        let min = self.min_pulse_width_us;
        let max = self.max_pulse_width_us;
        match position {
            ServoPosition::Left => min,
            ServoPosition::Center => min + (max - min) / 2,
            ServoPosition::Right => max,
            ServoPosition::Custom(units) => {
                let clamped: i32 = if units < -FULL_DEFLECTION {
                    -FULL_DEFLECTION
                } else if units > FULL_DEFLECTION {
                    FULL_DEFLECTION
                } else {
                    units
                };
                let span: u128 = (max - min) as u128;
                let base: u128 = (FULL_DEFLECTION as u128) * (min as u128 + max as u128);
                let total: u128 = if clamped >= 0 {
                    let up: u128 = clamped as u128;
                    assert(up * span <= 1_000_000 * span) by (nonlinear_arith)
                        requires
                            0 <= up <= 1_000_000,
                            0 <= span,
                    ;
                    base + up * span
                } else {
                    let down: u128 = (-clamped) as u128;
                    assert(down * span <= 1_000_000 * span) by (nonlinear_arith)
                        requires
                            0 <= down <= 1_000_000,
                            0 <= span,
                    ;
                    base - down * span
                };
                assert(total == FULL_DEFLECTION * (min + max) + clamped * (max - min))
                    by (nonlinear_arith)
                    requires
                        span == max - min,
                        base == 1_000_000 * (min + max),
                        FULL_DEFLECTION == 1_000_000,
                        clamped >= 0 ==> total == base + clamped * span,
                        clamped < 0 ==> total == base - (-clamped) * span,
                ;
                assert(2_000_000 * min <= total <= 2_000_000 * max) by (nonlinear_arith)
                    requires
                        total == 1_000_000 * (min + max) + clamped * (max - min),
                        -1_000_000 <= clamped <= 1_000_000,
                        min <= max,
                ;
                (total / 2_000_000) as u64
            },
        }
    }
}

/// Mathematical value of a [`Servo`].
pub struct ServoView {
    pub config: ServoConfig,
    /// The commands that wait, oldest first.
    pub queue: Seq<ServoPosition>,
    /// Pulse width of the write that is due and not yet reported on.
    pub writing: Option<u64>,
    /// Pulse width of the last write that succeeded: where the servo
    /// stands.
    pub applied_us: Option<u64>,
    /// Number of writes that have failed since the last one that
    /// succeeded.
    pub failures: nat,
    /// The servo has given up.
    pub halted: bool,
}

impl ServoView {
    /// The configuration is valid, the write that is due lies in the
    /// travel, and the servo has given up exactly when the failures have
    /// reached the limit.
    pub open spec fn wf(self) -> bool {
        &&& self.config.valid()
        &&& self.writing matches Some(us) ==> self.config.min_pulse_width_us <= us
            <= self.config.max_pulse_width_us
        &&& self.failures <= FAILURE_LIMIT
        &&& self.halted <==> self.failures == FAILURE_LIMIT
        &&& self.halted ==> self.writing is None
    }

    /// A servo that has been set up and not yet written to: the write to
    /// the middle of the travel is due.
    pub open spec fn initial(config: ServoConfig) -> ServoView {
        ServoView {
            config,
            queue: Seq::empty(),
            writing: Some(config.center_us() as u64),
            applied_us: None,
            failures: 0,
            halted: false,
        }
    }

    /// The work that is due.
    pub open spec fn pending_action(self) -> ServoAction {
        if self.halted {
            ServoAction::Escalate
        } else {
            match self.writing {
                Some(us) => ServoAction::Write(
                    PwmSetting { period_ms: self.config.period_ms, pulse_width_us: us },
                ),
                None => ServoAction::Wait,
            }
        }
    }

    /// `position` joins the end of the queue.
    pub open spec fn send(self, position: ServoPosition) -> ServoView {
        ServoView { queue: self.queue.push(position), ..self }
    }

    /// With no write due and the servo running, the oldest command leaves
    /// the queue and its write becomes due.
    pub open spec fn advance(self) -> ServoView {
        if !self.halted && self.writing is None && self.queue.len() > 0 {
            ServoView {
                queue: self.queue.subrange(1, self.queue.len() as int),
                writing: Some(self.config.pulse_width(self.queue[0]) as u64),
                ..self
            }
        } else {
            self
        }
    }

    /// The write that was due is done: the servo stands where it was sent,
    /// past failures are forgotten, and the next command is taken up.
    pub open spec fn written(self) -> ServoView {
        match self.writing {
            Some(us) => (ServoView {
                writing: None,
                applied_us: Some(us),
                failures: 0,
                ..self
            }).advance(),
            None => self,
        }
    }

    /// The write that was due failed: the servo stands where it stood, and
    /// the next command is taken up, unless this was the last failure that
    /// the servo puts up with.
    pub open spec fn write_failed(self) -> ServoView {
        match self.writing {
            Some(us) => (ServoView {
                writing: None,
                failures: self.failures + 1,
                halted: self.failures + 1 == FAILURE_LIMIT,
                ..self
            }).advance(),
            None => self,
        }
    }

    /// The servo after `event`.
    pub open spec fn step(self, event: ServoEvent) -> ServoView {
        match event {
            ServoEvent::Wake => self.advance(),
            ServoEvent::Written => self.written(),
            ServoEvent::WriteFailed => self.write_failed(),
        }
    }
}

/// The servo: its configuration, the queue of commands, and where it
/// stands.
pub struct Servo {
    config: ServoConfig,
    queue: VecDeque<ServoPosition>,
    writing: Option<u64>,
    applied_us: Option<u64>,
    failures: u32,
    halted: bool,
}

impl View for Servo {
    type V = ServoView;

    closed spec fn view(&self) -> ServoView {
        ServoView {
            config: self.config,
            queue: self.queue@,
            writing: self.writing,
            applied_us: self.applied_us,
            failures: self.failures as nat,
            halted: self.halted,
        }
    }
}

impl Servo {
    /// The value is well formed.
    pub open spec fn wf(&self) -> bool {
        self@.wf()
    }

    /// The configuration that the servo was set up with.
    pub fn config(&self) -> (config: ServoConfig)
        ensures
            config == self@.config,
    {
        self.config
    }

    /// Pulse width of the last write that succeeded, if any.
    pub fn applied_us(&self) -> (us: Option<u64>)
        ensures
            us == self@.applied_us,
    {
        self.applied_us
    }

    /// Number of commands that wait.
    pub fn queued(&self) -> (n: usize)
        ensures
            n == self@.queue.len(),
    {
        self.queue.len()
    }

    /// Number of writes that have failed in a row.
    pub fn failures(&self) -> (n: u32)
        ensures
            n == self@.failures,
    {
        self.failures
    }

    /// The work that is due.
    pub fn pending_action(&self) -> (action: ServoAction)
        ensures
            action == self@.pending_action(),
    {
        if self.halted {
            ServoAction::Escalate
        } else {
            match self.writing {
                Some(us) => ServoAction::Write(
                    PwmSetting { period_ms: self.config.period_ms, pulse_width_us: us },
                ),
                None => ServoAction::Wait,
            }
        }
    }

    /// Puts `position` at the end of the queue. Never waits and never
    /// refuses.
    pub fn send(&mut self, position: ServoPosition)
        requires
            old(self).wf(),
        ensures
            final(self).wf(),
            final(self)@ == old(self)@.send(position),
    {
        self.queue.push_back(position);
    }

    fn advance(&mut self)
        requires
            old(self)@.config.valid(),
        ensures
            final(self)@ == old(self)@.advance(),
            final(self)@.writing matches Some(us) ==> old(self)@.writing == Some(us) || (
            final(self)@.config.min_pulse_width_us <= us <= final(self)@.config.max_pulse_width_us),
    {
        if !self.halted && self.writing.is_none() {
            match self.queue.pop_front() {
                Some(position) => {
                    self.writing = Some(self.config.pulse_width_us(position));
                },
                None => {},
            }
        }
    }
}

/// Sets a servo up: accepts `config` if its pulse widths are in order, and
/// makes the write to the middle of the travel the first one due.
pub fn initilize_servo(config: ServoConfig) -> (result: Result<Servo, ServoError>)
    ensures
        match result {
            Ok(servo) => config.valid() && servo.wf() && servo@ == ServoView::initial(config),
            Err(error) => !config.valid() && error == ServoError::InvalidRange,
        },
{
    if config.min_pulse_width_us > config.max_pulse_width_us {
        return Err(ServoError::InvalidRange);
    }
    let center = config.pulse_width_us(ServoPosition::Center);
    Ok(
        Servo {
            config,
            queue: VecDeque::new(),
            writing: Some(center),
            applied_us: None,
            failures: 0,
            halted: false,
        },
    )
}

/// One step of the servo loop: takes note of `event` and says what is due
/// next.
///
/// Commands are written in the order in which they were sent, one at a
/// time. A failed write is passed over and the next command taken up;
/// after [`FAILURE_LIMIT`] failures in a row the servo gives up and every
/// further step answers [`ServoAction::Escalate`].
pub fn servo_task(servo: &mut Servo, event: ServoEvent) -> (action: ServoAction)
    requires
        old(servo).wf(),
    ensures
        final(servo).wf(),
        final(servo)@ == old(servo)@.step(event),
        action == final(servo)@.pending_action(),
{
    match event {
        ServoEvent::Wake => {
            servo.advance();
        },
        ServoEvent::Written => {
            match servo.writing {
                Some(us) => {
                    servo.writing = None;
                    servo.applied_us = Some(us);
                    servo.failures = 0;
                    servo.advance();
                },
                None => {},
            }
        },
        ServoEvent::WriteFailed => {
            match servo.writing {
                Some(_) => {
                    servo.writing = None;
                    servo.failures = servo.failures + 1;
                    servo.halted = servo.failures == FAILURE_LIMIT;
                    servo.advance();
                },
                None => {},
            }
        },
    }
    servo.pending_action()
}

} // verus!
