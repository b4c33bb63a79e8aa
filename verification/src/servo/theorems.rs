//! What holds of the pulse widths and of the order of the writes.

use vstd::prelude::*;
use crate::servo::{
    clamp_units, ServoConfig, ServoEvent, ServoPosition, ServoView, FULL_DEFLECTION,
};

verus! {

/// The named positions are the ends and the middle of the configured
/// range, and so are the custom positions at and beyond full deflection
/// and at zero.
pub proof fn lemma_named_positions(config: ServoConfig, units: i32)
    requires
        config.valid(),
    ensures
        config.pulse_width(ServoPosition::Left) == config.min_pulse_width_us,
        config.pulse_width(ServoPosition::Right) == config.max_pulse_width_us,
        config.pulse_width(ServoPosition::Center) == (config.min_pulse_width_us
            + config.max_pulse_width_us) / 2,
        config.pulse_width(ServoPosition::Custom(0)) == config.pulse_width(ServoPosition::Center),
        units <= -FULL_DEFLECTION ==> config.pulse_width(ServoPosition::Custom(units))
            == config.pulse_width(ServoPosition::Left),
        units >= FULL_DEFLECTION ==> config.pulse_width(ServoPosition::Custom(units))
            == config.pulse_width(ServoPosition::Right),
{
    let min = config.min_pulse_width_us as int;
    let max = config.max_pulse_width_us as int;
    assert((1_000_000 * (min + max) + 0 * (max - min)) / 2_000_000 == (min + max) / 2)
        by (nonlinear_arith);
    assert((1_000_000 * (min + max) + (-1_000_000) * (max - min)) / 2_000_000 == min)
        by (nonlinear_arith);
    assert((1_000_000 * (min + max) + 1_000_000 * (max - min)) / 2_000_000 == max)
        by (nonlinear_arith);
}

/// Every position, custom ones beyond the travel included, gets a pulse
/// width inside the configured range.
pub proof fn lemma_pulse_width_in_range(config: ServoConfig, position: ServoPosition)
    requires
        config.valid(),
    ensures
        config.min_pulse_width_us <= config.pulse_width(position) <= config.max_pulse_width_us,
{
    let min = config.min_pulse_width_us as int;
    let max = config.max_pulse_width_us as int;
    match position {
        ServoPosition::Custom(units) => {
            let u = clamp_units(units as int);
            assert(min <= (1_000_000 * (min + max) + u * (max - min)) / 2_000_000 <= max)
                by (nonlinear_arith)
                requires
                    -1_000_000 <= u <= 1_000_000,
                    min <= max,
            ;
        },
        _ => {},
    }
}

/// The pulse width of a custom position never falls when the position
/// rises.
pub proof fn lemma_pulse_width_monotone(config: ServoConfig, lower: i32, upper: i32)
    requires
        config.valid(),
        lower <= upper,
    ensures
        config.pulse_width(ServoPosition::Custom(lower)) <= config.pulse_width(
            ServoPosition::Custom(upper),
        ),
{
    let min = config.min_pulse_width_us as int;
    let max = config.max_pulse_width_us as int;
    let a = clamp_units(lower as int);
    let b = clamp_units(upper as int);
    assert((1_000_000 * (min + max) + a * (max - min)) / 2_000_000 <= (1_000_000 * (min + max) + b
        * (max - min)) / 2_000_000) by (nonlinear_arith)
        requires
            a <= b,
            min <= max,
    ;
}

/// A custom position lies on the straight line through the two ends: its
/// pulse width is the whole number of microseconds in
/// `min + (units + 1_000_000) * (max - min) / 2_000_000`.
pub proof fn lemma_pulse_width_linear(config: ServoConfig, units: i32)
    requires
        config.valid(),
        -FULL_DEFLECTION <= units <= FULL_DEFLECTION,
    ensures
        config.pulse_width(ServoPosition::Custom(units)) == config.min_pulse_width_us + ((units
            + FULL_DEFLECTION) * (config.max_pulse_width_us - config.min_pulse_width_us)) / (2
            * FULL_DEFLECTION),
{
    let min = config.min_pulse_width_us as int;
    let max = config.max_pulse_width_us as int;
    let u = units as int;
    assert((1_000_000 * (min + max) + u * (max - min)) / 2_000_000 == min + ((u + 1_000_000) * (max
        - min)) / 2_000_000) by (nonlinear_arith);
}

/// One use of a servo: a session sends a command, or the servo loop takes
/// a step.
pub enum ServoStep {
    Send(ServoPosition),
    Task(ServoEvent),
}

impl ServoView {
    /// The servo after one use.
    pub open spec fn apply(self, step: ServoStep) -> ServoView {
        match step {
            ServoStep::Send(position) => self.send(position),
            ServoStep::Task(event) => self.step(event),
        }
    }

    /// The servo after `steps`, taken in order.
    pub open spec fn run(self, steps: Seq<ServoStep>) -> ServoView
        decreases steps.len(),
    {
        if steps.len() == 0 {
            self
        } else {
            self.run(steps.drop_last()).apply(steps.last())
        }
    }

    /// The pulse width of the write that `step` makes due, if it makes one
    /// due: a command that leaves the queue.
    pub open spec fn issued_by(self, step: ServoStep) -> Option<u64> {
        if self.apply(step).queue.len() < self.send_if(step).queue.len() {
            self.apply(step).writing
        } else {
            None
        }
    }

    /// The servo after `step` if it is a send, else unchanged.
    pub open spec fn send_if(self, step: ServoStep) -> ServoView {
        match step {
            ServoStep::Send(position) => self.send(position),
            ServoStep::Task(_) => self,
        }
    }

    /// The commands in the order in which they entered the queue: those
    /// that wait at the start, then those that `steps` send.
    pub open spec fn enqueued(self, steps: Seq<ServoStep>) -> Seq<ServoPosition>
        decreases steps.len(),
    {
        if steps.len() == 0 {
            self.queue
        } else {
            match steps.last() {
                ServoStep::Send(position) => self.enqueued(steps.drop_last()).push(position),
                ServoStep::Task(_) => self.enqueued(steps.drop_last()),
            }
        }
    }

    /// The pulse widths of the writes that `steps` make due, in order.
    pub open spec fn issued(self, steps: Seq<ServoStep>) -> Seq<u64>
        decreases steps.len(),
    {
        if steps.len() == 0 {
            Seq::empty()
        } else {
            let earlier = self.issued(steps.drop_last());
            match self.run(steps.drop_last()).issued_by(steps.last()) {
                Some(us) => earlier.push(us),
                None => earlier,
            }
        }
    }
}

/// Every use keeps a well-formed servo well formed.
pub proof fn lemma_apply_keeps_wf(servo: ServoView, step: ServoStep)
    requires
        servo.wf(),
    ensures
        servo.apply(step).wf(),
        servo.apply(step).config == servo.config,
{
    match step {
        ServoStep::Send(position) => {},
        ServoStep::Task(event) => {
            if servo.queue.len() > 0 {
                lemma_pulse_width_in_range(servo.config, servo.queue[0]);
            }
        },
    }
}

/// Commands are written first come, first served. However the sends of
/// several sessions and the steps of the servo loop interleave, and
/// whichever writes fail, the writes that become due are, in order, those
/// of the commands in the order in which they entered the queue, and the
/// commands that still wait are the rest of that order.
pub proof fn lemma_writes_follow_enqueue_order(servo: ServoView, steps: Seq<ServoStep>)
    requires
        servo.wf(),
    ensures
        servo.run(steps).wf(),
        servo.run(steps).config == servo.config,
        servo.issued(steps).len() <= servo.enqueued(steps).len(),
        forall|i: int|
            0 <= i < servo.issued(steps).len() ==> #[trigger] servo.issued(steps)[i]
                == servo.config.pulse_width(servo.enqueued(steps)[i]),
        servo.run(steps).queue == servo.enqueued(steps).subrange(
            servo.issued(steps).len() as int,
            servo.enqueued(steps).len() as int,
        ),
    decreases steps.len(),
{
    if steps.len() == 0 {
        assert(servo.queue =~= servo.queue.subrange(0, servo.queue.len() as int));
    } else {
        let earlier = steps.drop_last();
        lemma_writes_follow_enqueue_order(servo, earlier);
        let state = servo.run(earlier);
        lemma_apply_keeps_wf(state, steps.last());
        let after = servo.run(steps);
        let sent = servo.enqueued(earlier);
        let done = servo.issued(earlier);
        match steps.last() {
            ServoStep::Send(position) => {
                assert(servo.issued(steps) == done);
                assert(after.queue =~= servo.enqueued(steps).subrange(
                    done.len() as int,
                    servo.enqueued(steps).len() as int,
                ));
            },
            ServoStep::Task(event) => {
                assert(servo.enqueued(steps) == sent);
                if after.queue.len() < state.queue.len() {
                    assert(after.queue == state.queue.subrange(1, state.queue.len() as int));
                    assert(after.writing == Some(state.config.pulse_width(state.queue[0]) as u64));
                    lemma_pulse_width_in_range(state.config, state.queue[0]);
                    assert(state.queue[0] == sent[done.len() as int]);
                    assert(servo.issued(steps) == done.push(after.writing->0));
                    assert(after.queue =~= sent.subrange(done.len() as int + 1, sent.len() as int));
                } else {
                    assert(after.queue == state.queue);
                    assert(servo.issued(steps) == done);
                }
            },
        }
    }
}

/// The last write that succeeded is where the servo stands: a write that
/// is reported done becomes the applied pulse width, and a write that
/// failed leaves the applied pulse width as it was.
pub proof fn lemma_last_write_wins(servo: ServoView)
    requires
        servo.wf(),
        servo.writing is Some,
    ensures
        servo.step(ServoEvent::Written).applied_us == servo.writing,
        servo.step(ServoEvent::Written).failures == 0,
        servo.step(ServoEvent::WriteFailed).applied_us == servo.applied_us,
        servo.step(ServoEvent::WriteFailed).failures == servo.failures + 1,
{
}

/// One failed write does not hold up the queue: while the servo has not
/// given up, the next command's write is due right after the failure.
pub proof fn lemma_failure_does_not_block(servo: ServoView)
    requires
        servo.wf(),
        servo.writing is Some,
        servo.failures + 1 < crate::servo::FAILURE_LIMIT,
        servo.queue.len() > 0,
    ensures
        servo.step(ServoEvent::WriteFailed).writing == Some(
            servo.config.pulse_width(servo.queue[0]) as u64,
        ),
        !servo.step(ServoEvent::WriteFailed).halted,
{
}

} // verus!
