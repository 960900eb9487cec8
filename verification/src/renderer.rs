//! Decisions of the nested renderer, and screenshots read back from the GPU.

use vstd::prelude::*;

use crate::number::Real32;
use crate::pixels::{pack_rows, swap_red_blue};
#[allow(unused_imports)]
use crate::pixels::{packed_rows, rows_fit, swapped_red_blue};
use crate::presenter::SurfaceStatus;

verus! {

/// Row alignment, in bytes, of a texture copied into a buffer.
pub const COPY_ROW_ALIGNMENT: u32 = 256;

/// What came of rendering one frame.
#[derive(Debug)]
pub struct FrameResult {
    pub presented: bool,
    pub capture: Option<Result<(), String>>,
}

impl FrameResult {
    /// A frame that was not shown, and of which no screenshot was taken.
    pub fn not_presented() -> (result: Self)
        ensures
            !result.presented,
            result.capture is None,
    {
        FrameResult { presented: false, capture: None }
    }
}

/// What to do once the surface image was asked for.
#[derive(Clone, Copy, Debug, PartialEq, Eq, Structural)]
pub enum RenderStep {
    /// Draw and show the frame.
    Draw { reconfigure_after: bool },
    /// Leave the frame for later.
    Skip,
    /// Configure the surface again and leave the frame for later.
    Reconfigure,
    /// Make a new surface and leave the frame for later.
    Recreate,
    /// Give up.
    Fail,
}

/// Decides what to do with a frame of the nested window.
pub fn render_step(status: SurfaceStatus) -> (step: RenderStep)
    ensures
        step == (match status {
            SurfaceStatus::Success => RenderStep::Draw { reconfigure_after: false },
            SurfaceStatus::Suboptimal => RenderStep::Draw { reconfigure_after: true },
            SurfaceStatus::Timeout | SurfaceStatus::Occluded => RenderStep::Skip,
            SurfaceStatus::Outdated => RenderStep::Reconfigure,
            SurfaceStatus::Lost => RenderStep::Recreate,
            SurfaceStatus::Validation => RenderStep::Fail,
        }),
{
    match status {
        SurfaceStatus::Success => RenderStep::Draw { reconfigure_after: false },
        SurfaceStatus::Suboptimal => RenderStep::Draw { reconfigure_after: true },
        SurfaceStatus::Timeout | SurfaceStatus::Occluded => RenderStep::Skip,
        SurfaceStatus::Outdated => RenderStep::Reconfigure,
        SurfaceStatus::Lost => RenderStep::Recreate,
        SurfaceStatus::Validation => RenderStep::Fail,
    }
}

/// Whether a screenshot is made of a frame: just where a path for one was given
/// and the frame is drawn.
pub fn takes_capture(step: RenderStep, path_given: bool) -> (takes: bool)
    ensures
        takes == (step is Draw && path_given),
{
    path_given && matches!(step, RenderStep::Draw { .. })
}

/// Why rendering cannot go on.
#[derive(Clone, Copy, Debug, PartialEq, Eq, Structural)]
pub enum RenderFailed {
    /// The surface image was refused for a reason that trying again does not
    /// mend.
    Validation,
    /// A surface that was lost could not be made again.
    NotRecreated,
}

/// `result` is what comes of a frame whose step went well, given how its
/// screenshot went, if one was made. A screenshot that failed does not fail the
/// frame that it is of.
pub open spec fn ends_frame(
    step: RenderStep,
    capture: Option<Result<(), String>>,
    result: Result<FrameResult, RenderFailed>,
) -> bool {
    match step {
        RenderStep::Draw { .. } => result == Ok::<_, RenderFailed>(
            FrameResult { presented: true, capture },
        ),
        RenderStep::Skip | RenderStep::Reconfigure | RenderStep::Recreate => result == Ok::<
            _,
            RenderFailed,
        >(FrameResult { presented: false, capture: None }),
        RenderStep::Fail => result == Err::<FrameResult, _>(RenderFailed::Validation),
    }
}

/// `result` is what comes of a frame, given also whether a surface that was lost
/// could be made again.
pub open spec fn ends_render(
    step: RenderStep,
    recreated: bool,
    capture: Option<Result<(), String>>,
    result: Result<FrameResult, RenderFailed>,
) -> bool {
    if step is Recreate && !recreated {
        result == Err::<FrameResult, _>(RenderFailed::NotRecreated)
    } else {
        ends_frame(step, capture, result)
    }
}

/// What comes of a frame once its step was taken and went well. `capture` says
/// how its screenshot went, if one was made; only a frame that was drawn has
/// one.
pub fn frame_result(step: RenderStep, capture: Option<Result<(), String>>) -> (result: Result<
    FrameResult,
    RenderFailed,
>)
    ensures
        step is Fail <==> result is Err,
        step is Draw ==> (result matches Ok(frame) && frame.presented && frame.capture == capture),
        step is Skip || step is Reconfigure || step is Recreate ==> (result matches Ok(frame)
            && !frame.presented && frame.capture is None),
        ends_frame(step, capture, result),
{
    match step {
        RenderStep::Draw { .. } => Ok(FrameResult { presented: true, capture }),
        RenderStep::Skip | RenderStep::Reconfigure | RenderStep::Recreate => Ok(
            FrameResult::not_presented(),
        ),
        RenderStep::Fail => Err(RenderFailed::Validation),
    }
}

/// What comes of a frame. `recreated` says whether a surface that was lost could
/// be made again, where the step asked for that; the frame fails if it could
/// not.
pub fn frame_outcome(step: RenderStep, recreated: bool, capture: Option<Result<(), String>>) -> (result:
    Result<FrameResult, RenderFailed>)
    ensures
        result is Err <==> step is Fail || (step is Recreate && !recreated),
        ends_render(step, recreated, capture, result),
{
    if !recreated && matches!(step, RenderStep::Recreate) {
        return Err(RenderFailed::NotRecreated);
    }
    frame_result(step, capture)
}

/// A frame has a screenshot just when it was presented and a path was given, be
/// it one that failed; frames that are left for later have none. Rendering fails
/// just where the surface image was refused for good, or a lost surface could
/// not be made again.
pub proof fn captures_come_with_presented_frames(
    step: RenderStep,
    recreated: bool,
    path_given: bool,
    capture: Option<Result<(), String>>,
    result: Result<FrameResult, RenderFailed>,
)
    requires
        capture is Some == (step is Draw && path_given),
        ends_render(step, recreated, capture, result),
    ensures
        result matches Ok(frame) ==> {
            &&& frame.presented == (step is Draw)
            &&& frame.capture is Some <==> frame.presented && path_given
            &&& frame.capture == capture
        },
        capture matches Some(Err(_)) ==> result is Ok && (result->Ok_0).presented,
        result is Err <==> step is Fail || (step is Recreate && !recreated),
{
}

/// Size of the nested surface, and the size of the client frame drawn into it.
#[derive(Clone, Copy, Debug)]
pub struct NestedTarget {
    pub width: u32,
    pub height: u32,
    pub client: Option<(u32, u32)>,
}

/// A change of what the client shows.
#[derive(Clone, Copy, Debug)]
pub enum SurfaceUpdate {
    Frame { width: u32, height: u32 },
    Removed,
}

impl NestedTarget {
    /// Takes on a new size; whether the surface is to be configured for it. A
    /// minimised window has no size to take on.
    pub fn resize(&mut self, width: u32, height: u32) -> (configure: bool)
        ensures
            configure == (width > 0 && height > 0),
            *final(self) == (if width > 0 && height > 0 {
                NestedTarget { width, height, ..*old(self) }
            } else {
                *old(self)
            }),
    {
        if width == 0 || height == 0 {
            return false;
        }
        self.width = width;
        self.height = height;
        true
    }

    /// Takes in a new client frame, or that there is none any more.
    pub fn apply_surface_update(&mut self, update: SurfaceUpdate)
        ensures
            *final(self) == (NestedTarget {
                client: match update {
                    SurfaceUpdate::Frame { width, height } => Some((width, height)),
                    SurfaceUpdate::Removed => None,
                },
                ..*old(self)
            }),
    {
        match update {
            SurfaceUpdate::Frame { width, height } => {
                self.client = Some((width, height));
            },
            SurfaceUpdate::Removed => {
                self.client = None;
            },
        }
    }

    pub fn has_client_frame(&self) -> (has: bool)
        ensures
            has == (self.client is Some),
    {
        self.client.is_some()
    }
}

/// A cursor that is drawn over a composition, in physical pixels.
#[derive(Clone, Copy, Debug, PartialEq, Eq, Structural)]
pub struct CursorOverlay {
    pub center_x: Real32,
    pub center_y: Real32,
    pub radius: Real32,
    /// One where the cursor is drawn, zero where it is not.
    pub visible: Real32,
}

impl Default for CursorOverlay {
    /// No cursor.
    fn default() -> (cursor: Self)
        ensures
            cursor == (CursorOverlay {
                center_x: Real32 { bits: 0 },
                center_y: Real32 { bits: 0 },
                radius: Real32 { bits: 0 },
                visible: Real32 { bits: 0 },
            }),
    {
        CursorOverlay {
            center_x: Real32::zero(),
            center_y: Real32::zero(),
            radius: Real32::zero(),
            visible: Real32::zero(),
        }
    }
}

/// The bytes of a number, least significant first.
pub open spec fn little_endian(value: Real32) -> Seq<u8> {
    seq![
        (value.bits as int % 0x100) as u8,
        (value.bits as int / 0x100 % 0x100) as u8,
        (value.bits as int / 0x1_0000 % 0x100) as u8,
        (value.bits as int / 0x100_0000) as u8,
    ]
}

fn push_little_endian(bytes: &mut Vec<u8>, value: Real32)
    ensures
        final(bytes)@ == old(bytes)@ + little_endian(value),
{
    let ghost before = bytes@;
    bytes.push((value.bits % 0x100) as u8);
    bytes.push((value.bits / 0x100 % 0x100) as u8);
    bytes.push((value.bits / 0x1_0000 % 0x100) as u8);
    bytes.push((value.bits / 0x100_0000) as u8);
    assert(bytes@ =~= before + little_endian(value));
}

impl CursorOverlay {
    /// The cursor as the shader reads it: four numbers, one after the other.
    pub fn uniform_bytes(self) -> (bytes: Vec<u8>)
        ensures
            bytes@ == little_endian(self.center_x) + little_endian(self.center_y) + little_endian(
                self.radius,
            ) + little_endian(self.visible),
    {
        let mut bytes: Vec<u8> = Vec::new();
        push_little_endian(&mut bytes, self.center_x);
        push_little_endian(&mut bytes, self.center_y);
        push_little_endian(&mut bytes, self.radius);
        push_little_endian(&mut bytes, self.visible);
        assert(bytes@ =~= little_endian(self.center_x) + little_endian(self.center_y)
            + little_endian(self.radius) + little_endian(self.visible));
        bytes
    }
}

/// No two numbers are written alike.
pub proof fn written_numbers_read_back(value: Real32)
    ensures
        ({
            let bytes = little_endian(value);
            value.bits == bytes[0] + bytes[1] * 0x100 + bytes[2] * 0x1_0000 + bytes[3] * 0x100_0000
        }),
{
}

/// Bytes from one row of a screenshot to the next in the buffer it is copied
/// into: the bytes of a row, rounded up to the copy alignment.
pub fn padded_row_bytes(width: u32) -> (bytes: u32)
    requires
        width * 4 <= u32::MAX - (COPY_ROW_ALIGNMENT - 1),
    ensures
        bytes >= width * 4,
        bytes % COPY_ROW_ALIGNMENT == 0,
        bytes < width * 4 + COPY_ROW_ALIGNMENT,
{
    let row: u32 = width * 4;
    let over: u32 = row % COPY_ROW_ALIGNMENT;
    if over == 0 {
        row
    } else {
        row + (COPY_ROW_ALIGNMENT - over)
    }
}

/// Channel order of a surface.
#[derive(Clone, Copy, Debug, PartialEq, Eq, Structural)]
pub enum CaptureFormat {
    Bgra8,
    Rgba8,
    Other,
}

/// Why a screenshot cannot be decoded.
#[derive(Clone, Copy, Debug, PartialEq, Eq, Structural)]
pub enum CaptureError {
    DimensionsOverflow,
    ShortBuffer,
    UnsupportedFormat,
}

/// What is wrong with a screenshot in a buffer of `length` bytes.
pub open spec fn capture_error(
    length: int,
    width: u32,
    height: u32,
    padded_row_bytes: u32,
    format: CaptureFormat,
) -> Option<CaptureError> {
    if padded_row_bytes * height > usize::MAX {
        Some(CaptureError::DimensionsOverflow)
    } else if length < padded_row_bytes * height || padded_row_bytes < width * 4 {
        Some(CaptureError::ShortBuffer)
    } else if format is Other {
        Some(CaptureError::UnsupportedFormat)
    } else {
        None
    }
}

/// The RGBA pixels of a screenshot.
pub open spec fn captured_pixels(
    mapped: Seq<u8>,
    width: u32,
    height: u32,
    padded_row_bytes: u32,
    format: CaptureFormat,
) -> Seq<u8> {
    let packed = packed_rows(mapped, padded_row_bytes as int, width * 4, height as nat);
    if format is Bgra8 {
        swapped_red_blue(packed)
    } else {
        packed
    }
}

/// Packs the rows of a screenshot and puts its channels in RGBA order. Rows of
/// no bytes at all are not accepted.
pub fn decode_capture_rows(
    mapped: &[u8],
    width: u32,
    height: u32,
    padded_bytes_per_row: u32,
    format: CaptureFormat,
) -> (pixels: Result<Vec<u8>, CaptureError>)
    requires
        width * 4 <= usize::MAX,
        width > 0 || padded_bytes_per_row > 0,
    ensures
        ({
            let error = capture_error(
                mapped@.len() as int,
                width,
                height,
                padded_bytes_per_row,
                format,
            );
            match pixels {
                Ok(pixels) => error is None && pixels@ == captured_pixels(
                    mapped@,
                    width,
                    height,
                    padded_bytes_per_row,
                    format,
                ),
                Err(reason) => error == Some(reason),
            }
        }),
{
    let row_bytes: usize = width as usize * 4;
    let padded_row_bytes: usize = padded_bytes_per_row as usize;
    let rows: usize = height as usize;
    proof {
        assert(0 <= padded_row_bytes * rows) by (nonlinear_arith)
            requires
                padded_row_bytes >= 0,
                rows >= 0,
        ;
    }
    let required: usize = match padded_row_bytes.checked_mul(rows) {
        Some(required) => required,
        None => {
            return Err(CaptureError::DimensionsOverflow);
        },
    };
    if mapped.len() < required || padded_row_bytes < row_bytes {
        return Err(CaptureError::ShortBuffer);
    }
    proof {
        if rows > 0 {
            assert((rows - 1) * padded_row_bytes + row_bytes <= padded_row_bytes * rows)
                by (nonlinear_arith)
                requires
                    rows >= 1,
                    row_bytes <= padded_row_bytes,
            ;
        }
    }
    match format {
        CaptureFormat::Bgra8 => {
            let mut pixels = pack_rows(mapped, padded_row_bytes, row_bytes, rows);
            swap_red_blue(&mut pixels);
            Ok(pixels)
        },
        CaptureFormat::Rgba8 => Ok(pack_rows(mapped, padded_row_bytes, row_bytes, rows)),
        CaptureFormat::Other => Err(CaptureError::UnsupportedFormat),
    }
}

/// A buffer laid out for a screenshot is long enough to decode it.
pub proof fn padded_captures_decode(width: u32, height: u32, padded: u32, length: int, format: CaptureFormat)
    requires
        padded >= width * 4,
        padded * height <= usize::MAX,
        length == padded * height,
        !(format is Other),
    ensures
        capture_error(length, width, height, padded, format) is None,
{
}

/// Each way in which a frame ends has its own error: one that is refused for good
/// fails as such, and a lost surface that could not be made again as that. A
/// frame that is skipped is neither presented nor an error.
pub proof fn failed_frames_say_why(
    step: RenderStep,
    recreated: bool,
    capture: Option<Result<(), String>>,
    result: Result<FrameResult, RenderFailed>,
)
    requires
        ends_render(step, recreated, capture, result),
    ensures
        step is Fail ==> result is Err && result->Err_0 is Validation,
        step is Recreate && !recreated ==> result is Err && result->Err_0 is NotRecreated,
        step is Recreate && recreated ==> result is Ok && !(result->Ok_0).presented,
        step is Skip || step is Reconfigure ==> result is Ok && !(result->Ok_0).presented && (
        result->Ok_0).capture is None,
        step is Draw ==> result is Ok && (result->Ok_0).presented && (result->Ok_0).capture
            == capture,
{
}

/// The first byte of a written number is its least significant one, and there
/// are four.
pub proof fn numbers_are_written_from_their_low_end(value: Real32)
    ensures
        little_endian(value).len() == 4,
        little_endian(value)[0] == value.bits % 0x100,
        little_endian(value)[3] == value.bits / 0x100_0000,
{
}

/// A decoded screenshot has its pixels row by row without the padding, in the
/// order red, green, blue and alpha whatever the order of the surface was.
pub proof fn captures_are_read_row_by_row(
    mapped: Seq<u8>,
    width: u32,
    height: u32,
    padded: u32,
    format: CaptureFormat,
    row: int,
    x: int,
)
    requires
        capture_error(mapped.len() as int, width, height, padded, format) is None,
        0 <= row < height,
        0 <= x < width,
    ensures
        ({
            let pixels = captured_pixels(mapped, width, height, padded, format);
            let from = row * padded + x * 4;
            let to = row * (width * 4) + x * 4;
            &&& pixels.len() == width * height * 4
            &&& format is Rgba8 ==> pixels[to] == mapped[from] && pixels[to + 2] == mapped[from + 2]
            &&& format is Bgra8 ==> pixels[to] == mapped[from + 2] && pixels[to + 2] == mapped[from]
            &&& pixels[to + 1] == mapped[from + 1] && pixels[to + 3] == mapped[from + 3]
        }),
{
    let row_bytes = width * 4;
    assert((height - 1) * padded + row_bytes <= padded * height) by (nonlinear_arith)
        requires
            height >= 1,
            row_bytes <= padded,
    ;
    crate::pixels::packing_keeps_every_pixel(mapped, padded as int, row_bytes, height as nat);
    let packed = packed_rows(mapped, padded as int, row_bytes, height as nat);
    let to = row * row_bytes + x * 4;
    assert(height * row_bytes == width * height * 4) by (nonlinear_arith)
        requires
            row_bytes == width * 4,
    ;
    assert(0 <= to && to + 4 <= height * row_bytes) by (nonlinear_arith)
        requires
            0 <= row < height,
            0 <= x < width,
            row_bytes == width * 4,
            to == row * row_bytes + x * 4,
    ;
    assert(to % 4 == 0) by (nonlinear_arith)
        requires
            row_bytes == width * 4,
            to == row * row_bytes + x * 4,
            0 <= row,
            0 <= x,
    {
        assert(row * (width * 4) == 4 * (row * width));
    }
    assert(packed[row * row_bytes + (x * 4)] == mapped[row * padded + (x * 4)]);
    assert(packed[row * row_bytes + (x * 4 + 1)] == mapped[row * padded + (x * 4 + 1)]);
    assert(packed[row * row_bytes + (x * 4 + 2)] == mapped[row * padded + (x * 4 + 2)]);
    assert(packed[row * row_bytes + (x * 4 + 3)] == mapped[row * padded + (x * 4 + 3)]);
    assert(packed.len() % 4 == 0);
    let pixel = to / 4;
    assert(pixel * 4 == to);
    crate::pixels::exchanged_channels_come_back(packed, pixel);
}

/// A screenshot is refused just if its rows are shorter than the pixels in them,
/// the buffer is shorter than its rows, or the channel order is not known.
pub proof fn captures_need_whole_rows(
    length: int,
    width: u32,
    height: u32,
    padded: u32,
    format: CaptureFormat,
)
    requires
        padded * height <= usize::MAX,
    ensures
        capture_error(length, width, height, padded, format) is None <==> length >= padded * height
            && padded >= width * 4 && !(format is Other),
        capture_error(length, width, height, padded, format) == Some(CaptureError::ShortBuffer)
            <==> length < padded * height || padded < width * 4,
{
}

/// A frame of the nested window is drawn just if the surface gave an image, and
/// the surface is configured again just if the image did not suit it. An image
/// that came too late is waited for, an outdated surface configured, a lost one
/// made anew, and only a refusal for good gives up.
pub proof fn each_status_has_its_step(status: SurfaceStatus, step: RenderStep)
    requires
        call_ensures(render_step, (status,), step),
    ensures
        step is Draw <==> status is Success || status is Suboptimal,
        step matches RenderStep::Draw { reconfigure_after } ==> (reconfigure_after <==> status
            is Suboptimal),
        step is Skip <==> status is Timeout || status is Occluded,
        step is Reconfigure <==> status is Outdated,
        step is Recreate <==> status is Lost,
        step is Fail <==> status is Validation,
{
}

/// The rows of a screenshot are as long as their pixels need, rounded up to the
/// next multiple of the alignment and no further.
pub proof fn rows_are_padded_to_the_alignment(width: u32, bytes: u32)
    requires
        width * 4 <= u32::MAX - (COPY_ROW_ALIGNMENT - 1),
        call_ensures(padded_row_bytes, (width,), bytes),
    ensures
        bytes % 256 == 0,
        width * 4 <= bytes < width * 4 + 256,
        width * 4 % 256 == 0 ==> bytes == width * 4,
{
}

/// The surface takes on every size that is not empty, side by side, and only
/// those; the client's frame is not touched by it.
pub proof fn targets_take_on_sizes(
    target: &mut NestedTarget,
    width: u32,
    height: u32,
    configure: bool,
)
    requires
        call_ensures(NestedTarget::resize, (target, width, height), configure),
    ensures
        configure <==> width > 0 && height > 0,
        configure ==> final(target).width == width && final(target).height == height,
        !configure ==> final(target).width == old(target).width && final(target).height == old(
            target,
        ).height,
        final(target).client == old(target).client,
{
}

/// A new frame of the client is drawn at its own size, and a client that is gone
/// is not drawn.
pub proof fn client_frames_are_drawn_at_their_size(target: &mut NestedTarget, update: SurfaceUpdate)
    requires
        call_ensures(NestedTarget::apply_surface_update, (target, update), ()),
    ensures
        update matches SurfaceUpdate::Frame { width, height } ==> final(target).client == Some(
            (width, height),
        ),
        update is Removed ==> final(target).client is None,
        final(target).width == old(target).width && final(target).height == old(target).height,
{
}

/// A screenshot is taken of a frame that is drawn, just where one is asked for.
pub proof fn drawn_frames_are_captured(step: RenderStep, path_given: bool, takes: bool)
    requires
        call_ensures(takes_capture, (step, path_given), takes),
    ensures
        takes ==> step is Draw && path_given,
        step is Draw && path_given ==> takes,
{
}

} // verus!
