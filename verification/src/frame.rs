//! One encoded image together with its place in the stream.

use vstd::prelude::*;

verus! {

/// Mathematical value of a [`Frame`].
pub struct FrameView {
    pub sequence: nat,
    pub captured_at_ms: nat,
    pub payload: Seq<u8>,
}

/// An encoded image, tagged with its sequence number and capture time.
///
/// A frame has no mutating method: once built it only ever gets read or
/// copied.
pub struct Frame {
    sequence: u64,
    captured_at_ms: u64,
    payload: Vec<u8>,
}

impl View for Frame {
    type V = FrameView;

    closed spec fn view(&self) -> FrameView {
        FrameView {
            sequence: self.sequence as nat,
            captured_at_ms: self.captured_at_ms as nat,
            payload: self.payload@,
        }
    }
}

impl Frame {
    /// Builds the frame numbered `sequence`, captured at `captured_at_ms`,
    /// holding `payload`.
    pub fn new(sequence: u64, captured_at_ms: u64, payload: Vec<u8>) -> (frame: Frame)
        ensures
            frame@.sequence == sequence,
            frame@.captured_at_ms == captured_at_ms,
            frame@.payload == payload@,
    {
        Frame { sequence, captured_at_ms, payload }
    }

    /// Position of this frame in capture order.
    pub fn sequence(&self) -> (n: u64)
        ensures
            n == self@.sequence,
    {
        self.sequence
    }

    /// Capture time, in milliseconds on the capture clock.
    pub fn captured_at_ms(&self) -> (t: u64)
        ensures
            t == self@.captured_at_ms,
    {
        self.captured_at_ms
    }

    /// The encoded image bytes.
    pub fn payload(&self) -> (bytes: &Vec<u8>)
        ensures
            bytes@ == self@.payload,
    {
        &self.payload
    }

    /// Gives the encoded image bytes away.
    pub fn into_payload(self) -> (bytes: Vec<u8>)
        ensures
            bytes@ == self@.payload,
    {
        self.payload
    }

    /// An independent copy with the same sequence number, time and bytes.
    pub fn duplicate(&self) -> (copy: Frame)
        ensures
            copy@ == self@,
    {
        let payload = self.payload.clone();
        assert(payload@ =~= self.payload@);
        Frame { sequence: self.sequence, captured_at_ms: self.captured_at_ms, payload }
    }
}

} // verus!
