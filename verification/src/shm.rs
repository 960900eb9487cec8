//! Shared-memory client buffers: layout checks, copies and the part of a
//! buffer that a surface shows.

use vstd::prelude::*;

use crate::number::{Real32, Real64};
use crate::pixels::{force_opaque, pack_rows};
#[allow(unused_imports)]
use crate::pixels::{opaque_pixels, packed_rows, rows_fit};
use crate::surface::SurfaceContentView;

verus! {

/// Pixel format of a shared-memory buffer.
#[derive(Clone, Copy, Debug, PartialEq, Eq, Structural)]
pub enum ShmFormat {
    Argb8888,
    Xrgb8888,
    Other,
}

/// Why a shared-memory buffer cannot be copied.
#[derive(Clone, Copy, Debug, PartialEq, Eq, Structural)]
pub enum ShmError {
    NegativeWidth,
    NegativeHeight,
    NegativeStride,
    NegativeOffset,
    ZeroSized,
    RowSizeOverflow,
    StrideTooShort,
    BufferSizeOverflow,
    OffsetOverflow,
    BeyondPool,
    UnsupportedFormat,
    SourceSizeOverflow,
    InvalidRowLayout,
}

/// What a client says of a buffer in a shared-memory pool.
#[derive(Clone, Copy, Debug, PartialEq, Eq, Structural)]
pub struct ShmBufferData {
    pub offset: i32,
    pub width: i32,
    pub height: i32,
    pub stride: i32,
    pub format: ShmFormat,
}

/// A client buffer with its rows packed.
#[derive(Clone, Debug)]
pub struct CopiedShmBuffer {
    pub width: u32,
    pub height: u32,
    pub bgra_pixels: Vec<u8>,
    pub opaque: bool,
}

/// Bytes from the first row to the end of the last one.
pub open spec fn row_span(width: int, height: int, stride: int) -> int {
    stride * (if height > 0 {
        height - 1
    } else {
        0
    }) + width * 4
}

/// What is wrong with rows of pixels in `length` bytes.
pub open spec fn row_error(
    length: int,
    width: int,
    height: int,
    stride: int,
    format: ShmFormat,
) -> Option<ShmError> {
    if format is Other {
        Some(ShmError::UnsupportedFormat)
    } else if width * 4 > usize::MAX {
        Some(ShmError::RowSizeOverflow)
    } else if row_span(width, height, stride) > usize::MAX {
        Some(ShmError::SourceSizeOverflow)
    } else if stride < width * 4 || length < row_span(width, height, stride) {
        Some(ShmError::InvalidRowLayout)
    } else {
        None
    }
}

/// The packed pixels of well-formed rows. Pixels without alpha are opaque.
pub open spec fn normalized_rows(
    source: Seq<u8>,
    width: int,
    height: int,
    stride: int,
    format: ShmFormat,
) -> Seq<u8> {
    let packed = packed_rows(source, stride, width * 4, height as nat);
    if format is Xrgb8888 {
        opaque_pixels(packed)
    } else {
        packed
    }
}

/// Packs rows of BGRA pixels and makes those without alpha opaque. An empty
/// image without alpha is not accepted.
pub fn normalize_bgra_rows(
    source: &[u8],
    width: usize,
    height: usize,
    stride: usize,
    format: ShmFormat,
) -> (pixels: Result<Vec<u8>, ShmError>)
    requires
        format is Xrgb8888 && row_error(
            source@.len() as int,
            width as int,
            height as int,
            stride as int,
            format,
        ) is None ==> width > 0 && height > 0,
    ensures
        ({
            let error = row_error(
                source@.len() as int,
                width as int,
                height as int,
                stride as int,
                format,
            );
            match pixels {
                Ok(pixels) => error is None && pixels@ == normalized_rows(
                    source@,
                    width as int,
                    height as int,
                    stride as int,
                    format,
                ),
                Err(reason) => error == Some(reason),
            }
        }),
{
    if matches!(format, ShmFormat::Other) {
        return Err(ShmError::UnsupportedFormat);
    }
    let row_bytes: usize = match width.checked_mul(4) {
        Some(bytes) => bytes,
        None => {
            return Err(ShmError::RowSizeOverflow);
        },
    };
    let gaps: usize = if height > 0 {
        height - 1
    } else {
        0
    };
    proof {
        assert(0 <= stride * gaps) by (nonlinear_arith)
            requires
                stride >= 0,
                gaps >= 0,
        ;
    }
    let prefix: usize = match stride.checked_mul(gaps) {
        Some(prefix) => prefix,
        None => {
            return Err(ShmError::SourceSizeOverflow);
        },
    };
    let required: usize = match prefix.checked_add(row_bytes) {
        Some(required) => required,
        None => {
            return Err(ShmError::SourceSizeOverflow);
        },
    };
    if stride < row_bytes || source.len() < required {
        return Err(ShmError::InvalidRowLayout);
    }
    proof {
        assert(gaps * stride == stride * gaps) by (nonlinear_arith);
    }
    let mut pixels = pack_rows(source, stride, row_bytes, height);
    if matches!(format, ShmFormat::Xrgb8888) {
        force_opaque(&mut pixels);
    }
    Ok(pixels)
}

impl ShmBufferData {
    /// What is wrong with the buffer, in a pool of `pool_length` bytes.
    pub open spec fn error(&self, pool_length: int) -> Option<ShmError> {
        if self.width < 0 {
            Some(ShmError::NegativeWidth)
        } else if self.height < 0 {
            Some(ShmError::NegativeHeight)
        } else if self.stride < 0 {
            Some(ShmError::NegativeStride)
        } else if self.offset < 0 {
            Some(ShmError::NegativeOffset)
        } else if self.width == 0 || self.height == 0 {
            Some(ShmError::ZeroSized)
        } else if self.width * 4 > usize::MAX {
            Some(ShmError::RowSizeOverflow)
        } else if self.stride < self.width * 4 {
            Some(ShmError::StrideTooShort)
        } else if self.span() > usize::MAX {
            Some(ShmError::BufferSizeOverflow)
        } else if self.offset + self.span() > usize::MAX {
            Some(ShmError::OffsetOverflow)
        } else if self.offset + self.span() > pool_length {
            Some(ShmError::BeyondPool)
        } else if self.format is Other {
            Some(ShmError::UnsupportedFormat)
        } else {
            None
        }
    }

    /// Bytes from the first row to the end of the last one.
    pub open spec fn span(&self) -> int {
        row_span(self.width as int, self.height as int, self.stride as int)
    }

    /// The pixels of the buffer in a pool.
    pub open spec fn pixels(&self, pool: Seq<u8>) -> Seq<u8> {
        normalized_rows(
            pool.subrange(self.offset as int, self.offset + self.span()),
            self.width as int,
            self.height as int,
            self.stride as int,
            self.format,
        )
    }
}

/// Copies a buffer out of its pool.
pub fn copy_shm_contents(pool: &[u8], data: ShmBufferData) -> (copy: Result<CopiedShmBuffer, ShmError>)
    ensures
        match copy {
            Ok(copy) => {
                &&& data.error(pool@.len() as int) is None
                &&& copy.width == data.width
                &&& copy.height == data.height
                &&& copy.bgra_pixels@ == data.pixels(pool@)
                &&& copy.opaque == (data.format is Xrgb8888)
            },
            Err(reason) => data.error(pool@.len() as int) == Some(reason),
        },
{
    if data.width < 0 {
        return Err(ShmError::NegativeWidth);
    }
    if data.height < 0 {
        return Err(ShmError::NegativeHeight);
    }
    if data.stride < 0 {
        return Err(ShmError::NegativeStride);
    }
    if data.offset < 0 {
        return Err(ShmError::NegativeOffset);
    }
    let width: usize = data.width as usize;
    let height: usize = data.height as usize;
    let stride: usize = data.stride as usize;
    let offset: usize = data.offset as usize;
    if width == 0 || height == 0 {
        return Err(ShmError::ZeroSized);
    }
    let row_bytes: usize = match width.checked_mul(4) {
        Some(bytes) => bytes,
        None => {
            return Err(ShmError::RowSizeOverflow);
        },
    };
    if stride < row_bytes {
        return Err(ShmError::StrideTooShort);
    }
    proof {
        assert(0 <= stride * (height - 1)) by (nonlinear_arith)
            requires
                stride >= 0,
                height >= 1,
        ;
    }
    let prefix: usize = match stride.checked_mul(height - 1) {
        Some(prefix) => prefix,
        None => {
            return Err(ShmError::BufferSizeOverflow);
        },
    };
    let span: usize = match prefix.checked_add(row_bytes) {
        Some(span) => span,
        None => {
            return Err(ShmError::BufferSizeOverflow);
        },
    };
    let end: usize = match offset.checked_add(span) {
        Some(end) => end,
        None => {
            return Err(ShmError::OffsetOverflow);
        },
    };
    if end > pool.len() {
        return Err(ShmError::BeyondPool);
    }
    let source = vstd::slice::slice_subrange(pool, offset, end);
    match normalize_bgra_rows(source, width, height, stride, data.format) {
        Ok(pixels) => Ok(
            CopiedShmBuffer {
                width: width as u32,
                height: height as u32,
                bgra_pixels: pixels,
                opaque: matches!(data.format, ShmFormat::Xrgb8888),
            },
        ),
        Err(error) => Err(error),
    }
}

/// A client asked for a buffer scale that is not positive.
#[derive(Clone, Copy, Debug, PartialEq, Eq, Structural)]
pub struct InvalidBufferScale(pub i32);

/// Accepts positive buffer scales.
pub fn checked_buffer_scale(buffer_scale: i32) -> (scale: Result<u32, InvalidBufferScale>)
    ensures
        match scale {
            Ok(scale) => buffer_scale > 0 && scale == buffer_scale,
            Err(error) => buffer_scale <= 0 && error == InvalidBufferScale(buffer_scale),
        },
{
    if buffer_scale > 0 {
        Ok(buffer_scale as u32)
    } else {
        Err(InvalidBufferScale(buffer_scale))
    }
}

/// Size, scale and orientation of a client buffer.
#[derive(Clone, Copy, Debug, PartialEq, Eq, Structural)]
pub struct SurfaceBufferMetadata {
    pub width: u32,
    pub height: u32,
    pub scale: u32,
    /// The buffer is neither rotated nor flipped.
    pub normal_transform: bool,
}

/// Why no part of a buffer can be shown.
#[derive(Clone, Copy, Debug, PartialEq, Eq, Structural)]
pub enum BufferViewError {
    UnsupportedTransform,
    WidthTooLarge,
    HeightTooLarge,
    ScaleTooLarge,
    InvalidViewport,
    UnrepresentableViewport,
}

/// Size and scale of a buffer as signed numbers.
#[derive(Clone, Copy, Debug, PartialEq, Eq, Structural)]
pub struct BufferExtent {
    pub width: i32,
    pub height: i32,
    pub scale: i32,
}

/// Accepts upright buffers whose size and scale are in range.
pub fn checked_buffer_extent(metadata: SurfaceBufferMetadata) -> (extent: Result<
    BufferExtent,
    BufferViewError,
>)
    ensures
        if !metadata.normal_transform {
            extent == Err::<BufferExtent, _>(BufferViewError::UnsupportedTransform)
        } else if metadata.width > i32::MAX {
            extent == Err::<BufferExtent, _>(BufferViewError::WidthTooLarge)
        } else if metadata.height > i32::MAX {
            extent == Err::<BufferExtent, _>(BufferViewError::HeightTooLarge)
        } else if metadata.scale > i32::MAX {
            extent == Err::<BufferExtent, _>(BufferViewError::ScaleTooLarge)
        } else {
            &&& extent is Ok
            &&& extent->Ok_0.width == metadata.width
            &&& extent->Ok_0.height == metadata.height
            &&& extent->Ok_0.scale == metadata.scale
        },
{
    if !metadata.normal_transform {
        return Err(BufferViewError::UnsupportedTransform);
    }
    if metadata.width > i32::MAX as u32 {
        return Err(BufferViewError::WidthTooLarge);
    }
    if metadata.height > i32::MAX as u32 {
        return Err(BufferViewError::HeightTooLarge);
    }
    if metadata.scale > i32::MAX as u32 {
        return Err(BufferViewError::ScaleTooLarge);
    }
    Ok(
        BufferExtent {
            width: metadata.width as i32,
            height: metadata.height as i32,
            scale: metadata.scale as i32,
        },
    )
}

/// The part of a buffer that a client wants shown, in logical coordinates, with
/// its far edges as they were computed.
#[derive(Clone, Copy, Debug, PartialEq, Eq, Structural)]
pub struct ViewportSource {
    pub x: Real64,
    pub y: Real64,
    pub width: Real64,
    pub height: Real64,
    pub right: Real64,
    pub bottom: Real64,
}

impl ViewportSource {
    /// The part is finite, not empty, and lies within a buffer of the given
    /// size.
    pub open spec fn within(&self, width: Real64, height: Real64) -> bool {
        &&& self.x.finite() && self.y.finite() && self.width.finite() && self.height.finite()
        &&& self.x.rank() >= 0 && self.y.rank() >= 0
        &&& self.width.rank() > 0 && self.height.rank() > 0
        &&& !width.below(self.right) && !height.below(self.bottom)
    }
}

/// Checks what a client wants shown of an upright buffer of the given logical
/// size, and the logical size to show it at.
pub fn check_viewport(
    metadata: SurfaceBufferMetadata,
    source: ViewportSource,
    logical_width: Real64,
    logical_height: Real64,
    destination_width: i32,
    destination_height: i32,
) -> (result: Result<(), BufferViewError>)
    ensures
        result == (if !metadata.normal_transform {
            Err::<(), _>(BufferViewError::UnsupportedTransform)
        } else if source.within(logical_width, logical_height) && destination_width > 0
            && destination_height > 0 {
            Ok(())
        } else {
            Err(BufferViewError::InvalidViewport)
        }),
{
    if !metadata.normal_transform {
        return Err(BufferViewError::UnsupportedTransform);
    }
    let zero = Real64::zero();
    if !source.x.is_finite() || !source.y.is_finite() || !source.width.is_finite()
        || !source.height.is_finite() || source.x.less_than(zero) || source.y.less_than(zero)
        || !zero.less_than(source.width) || !zero.less_than(source.height)
        || logical_width.less_than(source.right) || logical_height.less_than(source.bottom)
        || destination_width <= 0 || destination_height <= 0 {
        return Err(BufferViewError::InvalidViewport);
    }
    Ok(())
}

/// Whether rounding to single precision kept a view within an image of the
/// given size.
pub open spec fn representable(view: SurfaceContentView, width: Real32, height: Real32) -> bool {
    &&& view.source_x.finite() && view.source_y.finite()
    &&& view.source_width.finite() && view.source_height.finite()
    &&& view.logical_width.finite() && view.logical_height.finite()
    &&& view.source_right.nan() || width.nan() || view.source_right.rank() <= width.rank()
    &&& view.source_bottom.nan() || height.nan() || view.source_bottom.rank() <= height.rank()
}

fn not_beyond(edge: Real32, limit: Real32) -> (inside: bool)
    ensures
        inside == (edge.nan() || limit.nan() || edge.rank() <= limit.rank()),
{
    edge.is_nan() || limit.is_nan() || edge.at_most(limit)
}

/// Checks the rounded view of an image of the given size.
pub fn check_rounded_view(view: SurfaceContentView, width: Real32, height: Real32) -> (result: Result<
    (),
    BufferViewError,
>)
    ensures
        result == (if representable(view, width, height) {
            Ok::<(), BufferViewError>(())
        } else {
            Err(BufferViewError::UnrepresentableViewport)
        }),
{
    if view.source_x.is_finite() && view.source_y.is_finite() && view.source_width.is_finite()
        && view.source_height.is_finite() && view.logical_width.is_finite()
        && view.logical_height.is_finite() && not_beyond(view.source_right, width) && not_beyond(
        view.source_bottom,
        height,
    ) {
        Ok(())
    } else {
        Err(BufferViewError::UnrepresentableViewport)
    }
}

/// A copy holds one pixel for each pixel of the buffer, and reads each from its
/// place in the pool.
pub proof fn copies_hold_the_whole_buffer(pool: Seq<u8>, data: ShmBufferData)
    requires
        data.error(pool.len() as int) is None,
    ensures
        data.pixels(pool).len() == data.width * data.height * 4,
        forall|row: int, column: int|
            0 <= row < data.height && 0 <= column < data.width * 4 && column % 4 != 3
                ==> #[trigger] data.pixels(pool)[row * (data.width * 4) + column] == pool[data.offset
                + row * data.stride + column],
{
    let source = pool.subrange(data.offset as int, data.offset + data.span());
    let row_bytes = data.width * 4;
    assert((data.height - 1) * data.stride == data.stride * (data.height - 1)) by (nonlinear_arith);
    crate::pixels::packing_keeps_every_pixel(
        source,
        data.stride as int,
        row_bytes,
        data.height as nat,
    );
    let packed = packed_rows(source, data.stride as int, row_bytes, data.height as nat);
    assert(data.height * row_bytes == data.width * data.height * 4) by (nonlinear_arith)
        requires
            row_bytes == data.width * 4,
    ;
    assert forall|row: int, column: int|
        0 <= row < data.height && 0 <= column < data.width * 4 && column % 4 != 3 implies #[trigger] data.pixels(
        pool,
    )[row * (data.width * 4) + column] == pool[data.offset + row * data.stride + column] by {
        let place = row * row_bytes + column;
        assert(0 <= place < data.height * row_bytes) by (nonlinear_arith)
            requires
                0 <= row < data.height,
                0 <= column < row_bytes,
                place == row * row_bytes + column,
        ;
        assert(place % 4 == column % 4) by (nonlinear_arith)
            requires
                row_bytes == data.width * 4,
                place == row * row_bytes + column,
                0 <= column,
                0 <= row,
        {
            assert(row * (data.width * 4) == 4 * (row * data.width));
        }
        assert(packed[row * row_bytes + column] == source[row * data.stride + column]);
        assert(0 <= row * data.stride <= data.stride * (data.height - 1)) by (nonlinear_arith)
            requires
                0 <= row <= data.height - 1,
                data.stride >= 0,
        ;
    }
}

/// The alpha of a copied pixel is the one in the pool where the format has alpha,
/// and full where it has none.
pub proof fn copies_keep_or_fill_in_alpha(pool: Seq<u8>, data: ShmBufferData, row: int, x: int)
    requires
        data.error(pool.len() as int) is None,
        0 <= row < data.height,
        0 <= x < data.width,
    ensures
        data.format is Xrgb8888 ==> data.pixels(pool)[row * (data.width * 4) + (x * 4 + 3)] == 255,
        data.format is Argb8888 ==> data.pixels(pool)[row * (data.width * 4) + (x * 4 + 3)]
            == pool[data.offset + row * data.stride + (x * 4 + 3)],
{
    let source = pool.subrange(data.offset as int, data.offset + data.span());
    let row_bytes = data.width * 4;
    let column = x * 4 + 3;
    let place = row * row_bytes + column;
    assert((data.height - 1) * data.stride == data.stride * (data.height - 1)) by (nonlinear_arith);
    crate::pixels::packing_keeps_every_pixel(
        source,
        data.stride as int,
        row_bytes,
        data.height as nat,
    );
    let packed = packed_rows(source, data.stride as int, row_bytes, data.height as nat);
    assert(0 <= place < data.height * row_bytes) by (nonlinear_arith)
        requires
            0 <= row < data.height,
            0 <= column < row_bytes,
            place == row * row_bytes + column,
    ;
    assert(place % 4 == 3) by (nonlinear_arith)
        requires
            row_bytes == data.width * 4,
            place == row * row_bytes + column,
            column == x * 4 + 3,
            0 <= x,
            0 <= row,
    {
        assert(row * (data.width * 4) == 4 * (row * data.width));
    }
    assert(packed[row * row_bytes + column] == source[row * data.stride + column]);
    assert(0 <= row * data.stride <= data.stride * (data.height - 1)) by (nonlinear_arith)
        requires
            0 <= row <= data.height - 1,
            data.stride >= 0,
    ;
}

/// An accepted buffer has pixels of a known format, in rows that do not overlap
/// and that all lie within the pool; every such buffer is accepted.
pub proof fn accepted_buffers_lie_within_the_pool(data: ShmBufferData, pool_length: int)
    requires
        0 <= pool_length <= usize::MAX,
    ensures
        data.error(pool_length) is None <==> {
            &&& data.width > 0 && data.height > 0 && data.offset >= 0
            &&& data.width * 4 <= data.stride
            &&& data.offset + data.stride * (data.height - 1) + data.width * 4 <= pool_length
            &&& !(data.format is Other)
        },
{
    if data.height > 0 && data.stride >= 0 {
        assert(0 <= data.stride * (data.height - 1)) by (nonlinear_arith)
            requires
                data.stride >= 0,
                data.height >= 1,
        ;
    }
}

/// Of several faults of a buffer the first one counts: signs before sizes, the
/// size of a row before its stride, and the pool before the format.
pub proof fn faults_are_named_in_order(data: ShmBufferData, pool_length: int)
    ensures
        data.error(pool_length) == Some(ShmError::NegativeWidth) <==> data.width < 0,
        data.error(pool_length) == Some(ShmError::NegativeHeight) <==> data.width >= 0
            && data.height < 0,
        data.error(pool_length) == Some(ShmError::NegativeStride) <==> data.width >= 0
            && data.height >= 0 && data.stride < 0,
        data.error(pool_length) == Some(ShmError::NegativeOffset) <==> data.width >= 0
            && data.height >= 0 && data.stride >= 0 && data.offset < 0,
        data.error(pool_length) == Some(ShmError::ZeroSized) <==> data.width >= 0 && data.height >= 0
            && data.stride >= 0 && data.offset >= 0 && (data.width == 0 || data.height == 0),
        data.error(pool_length) == Some(ShmError::StrideTooShort) ==> data.stride < data.width * 4,
        data.error(pool_length) == Some(ShmError::BeyondPool) ==> data.offset + data.stride * (
        data.height - 1) + data.width * 4 > pool_length,
        data.error(pool_length) == Some(ShmError::UnsupportedFormat) ==> data.format is Other
            && data.offset + data.stride * (data.height - 1) + data.width * 4 <= pool_length,
{
}

/// Rows are accepted just if their format is known and they lie one after the
/// other within their bytes.
pub proof fn accepted_rows_lie_within_their_bytes(
    length: int,
    width: int,
    height: int,
    stride: int,
    format: ShmFormat,
)
    requires
        0 <= length <= usize::MAX,
        0 <= width,
        0 < height,
        0 <= stride,
    ensures
        row_error(length, width, height, stride, format) is None <==> !(format is Other) && width
            * 4 <= stride && stride * (height - 1) + width * 4 <= length,
        format is Other <==> row_error(length, width, height, stride, format) == Some(
            ShmError::UnsupportedFormat,
        ),
        row_span(width, 1, stride) == width * 4,
        row_span(width, height + 1, stride) == row_span(width, height, stride) + stride,
{
    assert(0 <= stride * (height - 1)) by (nonlinear_arith)
        requires
            stride >= 0,
            height >= 1,
    ;
    assert(stride * height == stride * (height - 1) + stride) by (nonlinear_arith);
    assert(stride * (1 - 1) == 0) by (nonlinear_arith);
}

/// What a client wants shown lies within its buffer just if it is a nonempty
/// rectangle of finite numbers that neither starts before the buffer nor ends
/// beyond it, on either axis.
pub proof fn shown_parts_lie_within_the_buffer(
    source: ViewportSource,
    width: Real64,
    height: Real64,
)
    ensures
        source.within(width, height) <==> {
            &&& source.x.finite() && source.x.rank() >= 0
            &&& source.y.finite() && source.y.rank() >= 0
            &&& source.width.finite() && source.width.rank() > 0
            &&& source.height.finite() && source.height.rank() > 0
            &&& !width.below(source.right) && !height.below(source.bottom)
        },
{
}

/// A rounded view is accepted just if it is finite and does not end beyond the
/// image, on either axis.
pub proof fn rounded_views_stay_within_the_image(
    view: SurfaceContentView,
    width: Real32,
    height: Real32,
)
    requires
        !width.nan() && !height.nan() && !view.source_right.nan() && !view.source_bottom.nan(),
    ensures
        representable(view, width, height) <==> {
            &&& view.source_x.finite() && view.source_y.finite()
            &&& view.source_width.finite() && view.source_height.finite()
            &&& view.logical_width.finite() && view.logical_height.finite()
            &&& view.source_right.not_above(width) && view.source_bottom.not_above(height)
        },
{
}

/// Numbers of a buffer are taken over as they are, and refused by name just where
/// they do not fit.
pub proof fn buffer_numbers_are_taken_over(
    metadata: SurfaceBufferMetadata,
    extent: Result<BufferExtent, BufferViewError>,
    asked: i32,
    scale: Result<u32, InvalidBufferScale>,
)
    requires
        call_ensures(checked_buffer_extent, (metadata,), extent),
        call_ensures(checked_buffer_scale, (asked,), scale),
    ensures
        extent is Ok <==> metadata.normal_transform && metadata.width <= i32::MAX
            && metadata.height <= i32::MAX && metadata.scale <= i32::MAX,
        extent matches Ok(taken) ==> taken.width == metadata.width && taken.height
            == metadata.height && taken.scale == metadata.scale,
        extent matches Err(BufferViewError::UnsupportedTransform) ==> !metadata.normal_transform,
        extent matches Err(BufferViewError::WidthTooLarge) ==> metadata.width > i32::MAX,
        extent matches Err(BufferViewError::HeightTooLarge) ==> metadata.height > i32::MAX,
        extent matches Err(BufferViewError::ScaleTooLarge) ==> metadata.scale > i32::MAX,
        scale is Ok <==> asked >= 1,
        scale matches Ok(taken) ==> taken == asked,
        scale matches Err(InvalidBufferScale(named)) ==> named == asked,
{
}

} // verus!
