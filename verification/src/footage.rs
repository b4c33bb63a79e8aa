//! The capture side: what the camera is asked for, how a raw frame is cut
//! out of a completed request, how it is encoded, and how long the capture
//! loop rests between two frames.

use vstd::prelude::*;
use crate::distributor::Distributor;
use crate::footage::engine::{CaptureAction, CaptureEngine, CaptureEvent};

pub mod engine;
pub mod theorems;

verus! {

/// Why capture cannot start or go on.
#[derive(Clone, Copy, Debug, PartialEq, Eq, Structural)]
pub enum CaptureError {
    /// The requested resolution, pixel format or rate is invalid or not
    /// supported.
    Configuration,
    /// No usable camera, or a call to it failed.
    Device,
    /// The camera did not provide the buffers that the pool needs.
    Allocation,
}

/// What the camera said of the requested configuration.
#[derive(Clone, Copy, Debug, PartialEq, Eq, Structural)]
pub enum ConfigStatus {
    Valid,
    Adjusted,
    Invalid,
}

/// What was learnt from the camera while it was set up.
#[derive(Clone, Copy, Debug, PartialEq, Eq, Structural)]
pub struct DeviceReport {
    /// Number of cameras found.
    pub cameras: usize,
    /// The camera's verdict on the configuration.
    pub status: ConfigStatus,
    /// Number of frame buffers that the camera allocated.
    pub buffers: usize,
}

/// The fixed parameters of a capture: geometry, pixel layout and rhythm.
#[derive(Clone, Copy, Debug, PartialEq, Eq, Structural)]
pub struct CaptureConfig {
    /// Frame width in pixels.
    pub width: u32,
    /// Frame height in pixels.
    pub height: u32,
    /// Pixel format as a DRM fourcc code.
    pub pixel_format: u32,
    /// Highest number of frames captured per second.
    pub frame_rate: u32,
    /// Smallest number of frame buffers that capture can run with.
    pub min_buffers: usize,
    /// Rest before looking for subscribers again when there are none, in
    /// milliseconds.
    pub idle_wait_ms: u64,
}

/// Largest width or height that the encoder takes.
pub const MAX_DIMENSION: u32 = 65535;

/// Bytes that one pixel takes in a raw frame: red, green and blue, one byte
/// each.
pub const BYTES_PER_PIXEL: u32 = 3;

/// The DRM fourcc code of the only supported pixel format: three bytes per
/// pixel, red first in memory.
pub open spec fn supported_pixel_format() -> u32 {
    875710274u32
}

/// Length in bytes of one raw frame of the given geometry.
pub open spec fn frame_len(width: u32, height: u32) -> nat {
    (BYTES_PER_PIXEL * width * height) as nat
}

impl CaptureConfig {
    /// Both dimensions are between 1 and [`MAX_DIMENSION`], the pixel
    /// format is the supported one, the rate is at least one frame per
    /// second, and at least one buffer is asked for.
    pub open spec fn valid(self) -> bool {
        &&& 1 <= self.width <= MAX_DIMENSION
        &&& 1 <= self.height <= MAX_DIMENSION
        &&& self.pixel_format == supported_pixel_format()
        &&& 1 <= self.frame_rate
        &&& 1 <= self.min_buffers
    }

    /// Target time from one frame to the next, in whole milliseconds. Above
    /// 1000 frames per second it is zero: the loop does not rest.
    pub open spec fn interval_ms(self) -> nat {
        (1000int / self.frame_rate as int) as nat
    }

    /// 1024 by 768 pixels, three bytes each, at most 30 frames per second,
    /// one buffer or more, and one second of rest while nobody watches.
    pub fn standard() -> (config: CaptureConfig)
        ensures
            config.valid(),
            config == (CaptureConfig {
                width: 1024,
                height: 768,
                pixel_format: supported_pixel_format(),
                frame_rate: 30,
                min_buffers: 1,
                idle_wait_ms: 1000,
            }),
    {
        CaptureConfig {
            width: 1024,
            height: 768,
            pixel_format: bgr888_code(),
            frame_rate: 30,
            min_buffers: 1,
            idle_wait_ms: 1000,
        }
    }

    /// Accepts exactly the valid configurations.
    pub fn validate(&self) -> (result: Result<(), CaptureError>)
        ensures
            self.valid() <==> result is Ok,
            result matches Err(error) ==> error == CaptureError::Configuration,
    {
        if self.width == 0 || self.width > MAX_DIMENSION || self.height == 0 || self.height
            > MAX_DIMENSION {
            return Err(CaptureError::Configuration);
        }
        if self.pixel_format != bgr888_code() {
            return Err(CaptureError::Configuration);
        }
        if self.frame_rate == 0 || self.min_buffers == 0 {
            return Err(CaptureError::Configuration);
        }
        Ok(())
    }

    /// Target time from one frame to the next, in whole milliseconds.
    pub fn frame_interval_ms(&self) -> (ms: u64)
        requires
            self.frame_rate > 0,
        ensures
            ms == self.interval_ms(),
    {
        (1000 / self.frame_rate) as u64
    }
}

/// `drm_fourcc::DrmFourcc::Bgr888` as a number. The crate defines the
/// variant's value as the DRM code of that format, 875710274, and documents
/// the cast to `u32` as the way to read it.
#[verifier::external_body]
fn bgr888_code() -> (code: u32)
    ensures
        code == supported_pixel_format(),
{
    drm_fourcc::DrmFourcc::Bgr888 as u32
}

/// Time that the capture loop rests before the next frame: the target
/// interval less the time that the last frame took from `started_at_ms` to
/// `ended_at_ms`, and never less than zero.
pub open spec fn pacing_delay(interval_ms: nat, started_at_ms: nat, ended_at_ms: nat) -> nat {
    let spent = if ended_at_ms >= started_at_ms {
        ended_at_ms - started_at_ms
    } else {
        0
    };
    if spent >= interval_ms {
        0
    } else {
        (interval_ms - spent) as nat
    }
}

/// Computes [`pacing_delay`].
pub fn pacing_delay_ms(interval_ms: u64, started_at_ms: u64, ended_at_ms: u64) -> (ms: u64)
    ensures
        ms == pacing_delay(interval_ms as nat, started_at_ms as nat, ended_at_ms as nat),
        ms <= interval_ms,
{
    let spent = if ended_at_ms >= started_at_ms {
        ended_at_ms - started_at_ms
    } else {
        0
    };
    if spent >= interval_ms {
        0
    } else {
        interval_ms - spent
    }
}

/// Computes [`frame_len`].
pub fn frame_bytes(width: u32, height: u32) -> (len: u128)
    ensures
        len == frame_len(width, height),
{
    assert(width * height <= 0xffff_ffff * 0xffff_ffff) by (nonlinear_arith)
        requires
            width <= 0xffff_ffff,
            height <= 0xffff_ffff,
    ;
    let pixels: u64 = (width as u64) * (height as u64);
    let len: u128 = (BYTES_PER_PIXEL as u128) * (pixels as u128);
    assert(len == frame_len(width, height)) by (nonlinear_arith)
        requires
            len == 3 * pixels,
            pixels == width * height,
            frame_len(width, height) == 3 * width * height,
    ;
    len
}

/// The raw frame that the planes of a completed request hold: the first
/// [`frame_len`] bytes of the first plane, if there is a first plane and it
/// is long enough.
pub open spec fn extracted_frame(planes: Seq<Seq<u8>>, width: u32, height: u32) -> Option<
    Seq<u8>,
> {
    if planes.len() > 0 && planes[0].len() >= frame_len(width, height) {
        Some(planes[0].subrange(0, frame_len(width, height) as int))
    } else {
        None
    }
}

/// The views of the planes, in order.
pub open spec fn plane_views(planes: Seq<Vec<u8>>) -> Seq<Seq<u8>> {
    planes.map_values(|plane: Vec<u8>| plane@)
}

/// Cuts the raw frame out of the planes of a completed request.
///
/// Fails with [`CaptureError::Device`] when the request carries no plane or
/// its first plane is shorter than one frame.
pub fn extract_image_from_request(planes: Vec<Vec<u8>>, width: u32, height: u32) -> (result:
    Result<Vec<u8>, CaptureError>)
    ensures
        match result {
            Ok(raw) => extracted_frame(plane_views(planes@), width, height) == Some(raw@),
            Err(error) => error == CaptureError::Device && extracted_frame(
                plane_views(planes@),
                width,
                height,
            ) is None,
        },
{
    let mut planes = planes;
    if planes.len() == 0 {
        return Err(CaptureError::Device);
    }
    let need = frame_bytes(width, height);
    let ghost first = planes@[0]@;
    assert(plane_views(planes@)[0] == first);
    let mut raw = planes.swap_remove(0);
    if (raw.len() as u128) < need {
        return Err(CaptureError::Device);
    }
    raw.truncate(need as usize);
    assert(raw@ =~= first.subrange(0, need as int));
    Ok(raw)
}

/// What `image::write_buffer_with_format` makes of an image of `width` by
/// `height` pixels held in `pixels`, three bytes per pixel, when asked for
/// the JPEG format: the bytes it writes, or `None` where it reports an
/// error.
pub uninterp spec fn jpeg_encoding(pixels: Seq<u8>, width: u32, height: u32) -> Option<Seq<u8>>;

/// `image::ImageError`, the error that the encoder reports. It is carried
/// through unread: a refused frame is dropped whatever the reason.
#[verifier::external_type_specification]
#[verifier::external_body]
pub struct ExImageError(image::ImageError);

/// `image::write_buffer_with_format`, writing into a fresh vector, with
/// the colour type `Rgb8` and the format `Jpeg`.
///
/// The encoder panics unless the buffer holds exactly three bytes for each
/// pixel, which `requires` rules out. It writes to memory and reads nothing
/// but its arguments, so what it writes and whether it reports an error
/// depend on the pixels and the two dimensions alone: the outcome is named
/// by [`jpeg_encoding`]. Nothing is claimed about which images it accepts.
#[verifier::external_body]
fn encode_jpeg(pixels: &Vec<u8>, width: u32, height: u32) -> (result: Result<
    Vec<u8>,
    image::ImageError,
>)
    requires
        pixels@.len() == frame_len(width, height),
    ensures
        match result {
            Ok(bytes) => jpeg_encoding(pixels@, width, height) == Some(bytes@),
            Err(_) => jpeg_encoding(pixels@, width, height) is None,
        },
{
    let mut bytes: Vec<u8> = Vec::new();
    let written = image::write_buffer_with_format(
        &mut std::io::Cursor::new(&mut bytes),
        pixels.as_slice(),
        width,
        height,
        image::ExtendedColorType::Rgb8,
        image::ImageFormat::Jpeg,
    );
    match written {
        Ok(()) => Ok(bytes),
        Err(error) => Err(error),
    }
}

/// The encoded form of a raw frame: what the encoder makes of pixels that
/// fill the geometry exactly, and nothing for any other buffer.
pub open spec fn encoded_frame(pixels: Seq<u8>, width: u32, height: u32) -> Option<Seq<u8>> {
    if pixels.len() == frame_len(width, height) {
        jpeg_encoding(pixels, width, height)
    } else {
        None
    }
}

/// Encodes a raw frame as JPEG. `None` means that there is no encoded
/// frame: the buffer does not fill the geometry, or the encoder refuses
/// the image.
pub fn encode_frame(pixels: &Vec<u8>, width: u32, height: u32) -> (encoded: Option<Vec<u8>>)
    ensures
        match encoded {
            Some(bytes) => encoded_frame(pixels@, width, height) == Some(bytes@),
            None => encoded_frame(pixels@, width, height) is None,
        },
{
    if pixels.len() as u128 != frame_bytes(width, height) {
        return None;
    }
    match encode_jpeg(pixels, width, height) {
        Ok(bytes) => Some(bytes),
        Err(_) => None,
    }
}

/// One step of the capture loop: takes note of how the last hardware work
/// went and says which one is due next.
///
/// The caller performs the action, reports with the next event, and so on
/// until the action is [`CaptureAction::Stop`]. After a rest the engine
/// looks at the number of subscribers and idles while there are none; the
/// planes of a filled request are cut to one frame, encoded and published
/// to `distributor`; a frame that the encoder refuses is dropped and the
/// loop goes on.
pub fn footage_capture_task(
    engine: &mut CaptureEngine,
    distributor: &mut Distributor,
    event: CaptureEvent,
) -> (action: CaptureAction)
    requires
        old(engine).wf(),
        old(distributor).wf(),
        old(distributor)@.next_sequence < u64::MAX,
    ensures
        final(engine).wf(),
        final(distributor).wf(),
        (final(engine)@, final(distributor)@) == old(engine)@.step(old(distributor)@, event),
        action == final(engine)@.pending_action(),
{
    match event {
        CaptureEvent::Woke { now_ms } => {
            let subscribers = distributor.subscriber_count();
            engine.woke(now_ms, subscribers)
        },
        CaptureEvent::Completed { request, now_ms } => engine.completed(request, now_ms),
        CaptureEvent::Extracted { planes } => engine.extracted(distributor, planes),
        CaptureEvent::Requeued { now_ms } => engine.requeued(now_ms),
        CaptureEvent::Failed => engine.failed(),
    }
}

} // verus!
