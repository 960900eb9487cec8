//! Pixel layout: row copies, channel order and alpha representation.

use vstd::prelude::*;

verus! {

/// Straight-alpha value of one premultiplied channel, rounded to nearest.
pub open spec fn straight_channel(channel: u8, alpha: u8) -> u8 {
    if alpha == 0 {
        0
    } else {
        let straight = (channel as int * 255 + alpha as int / 2) / (alpha as int);
        if straight > 255 {
            255
        } else {
            straight as u8
        }
    }
}

/// The four-byte pixels of `pixels` with straight alpha; bytes after the last
/// whole pixel stay as they are.
pub open spec fn straight_bgra(pixels: Seq<u8>) -> Seq<u8> {
    Seq::new(
        pixels.len(),
        |i: int|
            if i % 4 == 3 || i >= pixels.len() as int / 4 * 4 {
                pixels[i]
            } else {
                straight_channel(pixels[i], pixels[i / 4 * 4 + 3])
            },
    )
}

fn straighten(channel: u8, alpha: u8) -> (straight: u8)
    ensures
        straight == straight_channel(channel, alpha),
{
    if alpha == 0 {
        return 0;
    }
    let numerator: u32 = channel as u32 * 255 + alpha as u32 / 2;
    let straight: u32 = numerator / alpha as u32;
    if straight > 255 {
        255
    } else {
        straight as u8
    }
}

/// Converts encoded premultiplied BGRA channels to straight alpha in place.
pub fn unpremultiply_bgra(pixels: &mut [u8])
    ensures
        final(pixels)@ == straight_bgra(old(pixels)@),
{
    let ghost before: Seq<u8> = pixels@;
    let count: usize = pixels.len() / 4;
    let mut pixel: usize = 0;
    while pixel < count
        invariant
            count == before.len() / 4,
            pixel <= count,
            before.len() <= usize::MAX,
            pixels@.len() == before.len(),
            forall|i: int| 0 <= i < pixel * 4 ==> pixels@[i] == straight_bgra(before)[i],
            forall|i: int| pixel * 4 <= i < before.len() ==> pixels@[i] == before[i],
        decreases count - pixel,
    {
        let start: usize = pixel * 4;
        let alpha: u8 = pixels[start + 3];
        let blue: u8 = straighten(pixels[start], alpha);
        let green: u8 = straighten(pixels[start + 1], alpha);
        let red: u8 = straighten(pixels[start + 2], alpha);
        pixels[start] = blue;
        pixels[start + 1] = green;
        pixels[start + 2] = red;
        pixel = pixel + 1;
    }
    assert(pixels@ =~= straight_bgra(before));
}

/// The first `row_bytes` bytes of each of `rows` rows, one after the other. The
/// rows start `stride` bytes apart, the first one at the start of `source`.
pub open spec fn packed_rows(source: Seq<u8>, stride: int, row_bytes: int, rows: nat) -> Seq<u8>
    decreases rows,
{
    if rows == 0 {
        Seq::empty()
    } else {
        packed_rows(source, stride, row_bytes, (rows - 1) as nat) + source.subrange(
            (rows - 1) * stride,
            (rows - 1) * stride + row_bytes,
        )
    }
}

/// `rows` rows of `row_bytes` bytes, `stride` bytes apart, lie within a buffer
/// of `length` bytes.
pub open spec fn rows_fit(length: nat, stride: int, row_bytes: int, rows: nat) -> bool {
    rows > 0 ==> (rows - 1) * stride + row_bytes <= length
}

/// Copies rows out of a padded buffer.
pub fn pack_rows(source: &[u8], stride: usize, row_bytes: usize, rows: usize) -> (packed: Vec<u8>)
    requires
        rows_fit(source@.len(), stride as int, row_bytes as int, rows as nat),
    ensures
        packed@ == packed_rows(source@, stride as int, row_bytes as int, rows as nat),
{
    let mut packed: Vec<u8> = Vec::new();
    let mut row: usize = 0;
    let length: usize = source.len();
    while row < rows
        invariant
            row <= rows,
            length == source@.len(),
            rows_fit(source@.len(), stride as int, row_bytes as int, rows as nat),
            packed@ == packed_rows(source@, stride as int, row_bytes as int, row as nat),
        decreases rows - row,
    {
        proof {
            assert(row * stride <= (rows - 1) * stride) by (nonlinear_arith)
                requires
                    row <= rows - 1,
                    stride >= 0,
            ;
            assert(0 <= row * stride) by (nonlinear_arith)
                requires
                    row >= 0,
                    stride >= 0,
            ;
        }
        let start: usize = row * stride;
        let ghost before = packed@;
        let mut column: usize = 0;
        while column < row_bytes
            invariant
                column <= row_bytes,
                length == source@.len(),
                start + row_bytes <= length,
                packed@ == before + source@.subrange(start as int, start + column),
            decreases row_bytes - column,
        {
            packed.push(source[start + column]);
            assert(packed@ =~= before + source@.subrange(start as int, start + column + 1));
            column = column + 1;
        }
        row = row + 1;
    }
    packed
}

/// Four-byte pixels with their first and third byte exchanged; bytes after the
/// last whole pixel stay as they are.
pub open spec fn swapped_red_blue(pixels: Seq<u8>) -> Seq<u8> {
    Seq::new(
        pixels.len(),
        |i: int|
            if i >= pixels.len() as int / 4 * 4 {
                pixels[i]
            } else if i % 4 == 0 {
                pixels[i + 2]
            } else if i % 4 == 2 {
                pixels[i - 2]
            } else {
                pixels[i]
            },
    )
}

/// Exchanges the red and blue channels in place.
pub fn swap_red_blue(pixels: &mut Vec<u8>)
    ensures
        final(pixels)@ == swapped_red_blue(old(pixels)@),
{
    let ghost before: Seq<u8> = pixels@;
    let count: usize = pixels.len() / 4;
    let mut pixel: usize = 0;
    while pixel < count
        invariant
            count == before.len() / 4,
            pixel <= count,
            before.len() <= usize::MAX,
            pixels@.len() == before.len(),
            forall|i: int| 0 <= i < pixel * 4 ==> pixels@[i] == swapped_red_blue(before)[i],
            forall|i: int| pixel * 4 <= i < before.len() ==> pixels@[i] == before[i],
        decreases count - pixel,
    {
        let start: usize = pixel * 4;
        let first: u8 = pixels[start];
        let third: u8 = pixels[start + 2];
        pixels.set(start, third);
        pixels.set(start + 2, first);
        pixel = pixel + 1;
    }
    assert(pixels@ =~= swapped_red_blue(before));
}

/// Four-byte pixels with the last byte of each at its greatest value.
pub open spec fn opaque_pixels(pixels: Seq<u8>) -> Seq<u8> {
    Seq::new(
        pixels.len(),
        |i: int|
            if i % 4 == 3 {
                255u8
            } else {
                pixels[i]
            },
    )
}

/// Makes every pixel opaque in place.
pub fn force_opaque(pixels: &mut Vec<u8>)
    ensures
        final(pixels)@ == opaque_pixels(old(pixels)@),
{
    let ghost before: Seq<u8> = pixels@;
    let count: usize = pixels.len() / 4;
    let mut pixel: usize = 0;
    while pixel < count
        invariant
            count == before.len() / 4,
            pixel <= count,
            before.len() <= usize::MAX,
            pixels@.len() == before.len(),
            forall|i: int| 0 <= i < pixel * 4 ==> pixels@[i] == opaque_pixels(before)[i],
            forall|i: int| pixel * 4 <= i < before.len() ==> pixels@[i] == before[i],
        decreases count - pixel,
    {
        let alpha: usize = pixel * 4 + 3;
        pixels.set(alpha, 255);
        pixel = pixel + 1;
    }
    assert(pixels@ =~= opaque_pixels(before));
}

/// Bytes of a four-byte-per-pixel image.
pub open spec fn image_bytes(width: u32, height: u32) -> int {
    width * height * 4
}

/// Whether `length` bytes are just a non-empty image of the given size whose
/// byte count a 32-bit number holds.
pub fn image_length_matches(width: u32, height: u32, length: usize) -> (matching: bool)
    ensures
        matching == (width > 0 && height > 0 && image_bytes(width, height) <= u32::MAX && length
            == image_bytes(width, height)),
{
    if width == 0 || height == 0 {
        return false;
    }
    proof {
        assert(width * height >= 1) by (nonlinear_arith)
            requires
                width >= 1,
                height >= 1,
        ;
    }
    match width.checked_mul(height) {
        Some(pixels) => match pixels.checked_mul(4) {
            Some(bytes) => length == bytes as usize,
            None => false,
        },
        None => false,
    }
}

/// Packed rows have the length of the image they hold.
pub proof fn packing_keeps_every_pixel(source: Seq<u8>, stride: int, row_bytes: int, rows: nat)
    requires
        0 <= row_bytes <= stride,
        rows_fit(source.len(), stride, row_bytes, rows),
    ensures
        packed_rows(source, stride, row_bytes, rows).len() == rows * row_bytes,
        forall|row: int, column: int|
            0 <= row < rows && 0 <= column < row_bytes ==> #[trigger] packed_rows(
                source,
                stride,
                row_bytes,
                rows,
            )[row * row_bytes + column] == source[row * stride + column],
    decreases rows,
{
    if rows > 0 {
        let fewer = (rows - 1) as nat;
        assert(0 <= fewer * stride) by (nonlinear_arith)
            requires
                fewer >= 0,
                stride >= 0,
        ;
        if fewer > 0 {
            assert((fewer - 1) * stride + row_bytes <= (rows - 1) * stride + row_bytes)
                by (nonlinear_arith)
                requires
                    fewer == rows - 1,
                    stride >= 0,
            ;
        }
        packing_keeps_every_pixel(source, stride, row_bytes, fewer);
        let shorter = packed_rows(source, stride, row_bytes, fewer);
        let packed = packed_rows(source, stride, row_bytes, rows);
        assert(rows * row_bytes == fewer * row_bytes + row_bytes) by (nonlinear_arith)
            requires
                fewer == rows - 1,
        ;
        assert forall|row: int, column: int| 0 <= row < rows && 0 <= column < row_bytes implies #[trigger] packed_rows(
            source,
            stride,
            row_bytes,
            rows,
        )[row * row_bytes + column] == source[row * stride + column] by {
            if row < fewer {
                assert(row * row_bytes + column < fewer * row_bytes) by (nonlinear_arith)
                    requires
                        0 <= row < fewer,
                        0 <= column < row_bytes,
                ;
                assert(0 <= row * row_bytes) by (nonlinear_arith)
                    requires
                        0 <= row,
                        0 <= row_bytes,
                ;
                assert(packed[row * row_bytes + column] == shorter[row * row_bytes + column]);
            } else {
                assert(row == fewer);
            }
        }
    }
}

/// A straight channel is the one that gives the premultiplied channel back: times
/// the alpha it is the channel at full scale, up to half a step. A channel that
/// is brighter than its alpha allows is cut off, and one without alpha is dark.
pub proof fn straight_channels_scale_back(channel: u8, alpha: u8)
    requires
        alpha > 0,
    ensures
        channel <= alpha ==> -(alpha as int) < 2 * (straight_channel(channel, alpha) * alpha
            - channel * 255) <= alpha,
        channel >= alpha ==> straight_channel(channel, alpha) == 255,
        straight_channel(channel, 0) == 0,
        straight_channel(channel, 255) == channel,
        straight_channel(0, alpha) == 0,
{
    let numerator = channel as int * 255 + alpha as int / 2;
    let straight = numerator / (alpha as int);
    vstd::arithmetic::div_mod::lemma_fundamental_div_mod(numerator, alpha as int);
    assert(alpha as int * straight == straight * alpha as int) by (nonlinear_arith);
    vstd::arithmetic::div_mod::lemma_basic_div(alpha as int / 2, alpha as int);
    if channel <= alpha {
        assert(straight <= 255) by (nonlinear_arith)
            requires
                alpha as int * straight <= numerator,
                numerator == channel as int * 255 + alpha as int / 2,
                0 < alpha,
                channel <= alpha,
        ;
    }
    if channel >= alpha {
        assert(straight >= 255) by (nonlinear_arith)
            requires
                numerator - alpha as int * straight < alpha,
                numerator == channel as int * 255 + alpha as int / 2,
                0 < alpha,
                channel >= alpha,
        ;
    }
}

/// Parting color and alpha changes only the colors of whole pixels, each by its
/// own pixel's alpha; the alphas stay.
pub proof fn straight_pixels_keep_their_alpha(pixels: Seq<u8>, pixel: int, channel: int)
    requires
        0 <= pixel < pixels.len() as int / 4,
        0 <= channel < 3,
    ensures
        straight_bgra(pixels).len() == pixels.len(),
        straight_bgra(pixels)[pixel * 4 + 3] == pixels[pixel * 4 + 3],
        straight_bgra(pixels)[pixel * 4 + channel] == straight_channel(
            pixels[pixel * 4 + channel],
            pixels[pixel * 4 + 3],
        ),
        pixels[pixel * 4 + 3] == 255 ==> straight_bgra(pixels)[pixel * 4 + channel] == pixels[pixel
            * 4 + channel],
        pixels[pixel * 4 + 3] == 0 ==> straight_bgra(pixels)[pixel * 4 + channel] == 0,
{
    let place = pixel * 4 + channel;
    assert(place / 4 == pixel && place % 4 == channel);
    assert((pixel * 4 + 3) % 4 == 3);
    straight_channels_scale_back(pixels[place], 255);
}

/// Exchanging red and blue twice gives the pixels back, and moves nothing else.
pub proof fn exchanged_channels_come_back(pixels: Seq<u8>, pixel: int)
    requires
        0 <= pixel < pixels.len() as int / 4,
    ensures
        swapped_red_blue(swapped_red_blue(pixels)) == pixels,
        swapped_red_blue(pixels).len() == pixels.len(),
        swapped_red_blue(pixels)[pixel * 4] == pixels[pixel * 4 + 2],
        swapped_red_blue(pixels)[pixel * 4 + 2] == pixels[pixel * 4],
        swapped_red_blue(pixels)[pixel * 4 + 1] == pixels[pixel * 4 + 1],
        swapped_red_blue(pixels)[pixel * 4 + 3] == pixels[pixel * 4 + 3],
{
    assert(swapped_red_blue(swapped_red_blue(pixels)) =~= pixels);
}

/// Making pixels opaque sets every alpha to its greatest value and leaves the
/// colors.
pub proof fn opaque_pixels_keep_their_colors(pixels: Seq<u8>, pixel: int, channel: int)
    requires
        0 <= pixel < pixels.len() as int / 4,
        0 <= channel < 3,
    ensures
        opaque_pixels(pixels).len() == pixels.len(),
        opaque_pixels(pixels)[pixel * 4 + 3] == 0xff,
        opaque_pixels(pixels)[pixel * 4 + channel] == pixels[pixel * 4 + channel],
{
    assert((pixel * 4 + 3) % 4 == 3);
    assert((pixel * 4 + channel) % 4 == channel);
}

/// An image has four bytes for each of its pixels: one more row adds the bytes of
/// a row, and an image without an extent has none.
pub proof fn images_have_four_bytes_a_pixel(width: u32, height: u32)
    ensures
        image_bytes(width, 0) == 0 && image_bytes(0, height) == 0,
        image_bytes(1, 1) == 4,
        image_bytes(width, height) == image_bytes(height, width),
        height < u32::MAX ==> image_bytes(width, (height + 1) as u32) == image_bytes(width, height)
            + 4 * width,
{
    assert(width * height * 4 == height * width * 4) by (nonlinear_arith);
    assert(width * (height + 1) * 4 == width * height * 4 + 4 * width) by (nonlinear_arith);
}

} // verus!
