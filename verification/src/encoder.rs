//! The GIF container, written by the `gif` crate.
//!
//! Nothing in this module is proved: each item states what the `gif` crate
//! does, and the renderer's contract rests on these statements.

use vstd::prelude::*;

verus! {

/// A GIF stream under construction: a `gif::Encoder` that writes into a
/// vector of bytes.
#[verifier::external_body]
pub struct GifStream {
    encoder: gif::Encoder<Vec<u8>>,
}

/// `gif::EncodingError`, the error of the streaming GIF writer.
#[verifier::external_type_specification]
#[verifier::external_body]
pub struct ExEncodingError(gif::EncodingError);

/// The bytes the encoder of a stream has written so far to its vector.
pub uninterp spec fn written(stream: GifStream) -> Seq<u8>;

/// A 16-bit number as the container stores it: the low byte first.
pub open spec fn le16(n: u16) -> Seq<u8> {
    seq![(n % 256) as u8, (n / 256) as u8]
}

/// The size field of a colour table for `colors` colours: the table holds
/// 2 to the power of one more than this many entries, the smallest such
/// number that has room for the colours.
pub open spec fn table_bits(colors: int) -> int {
    if colors <= 2 {
        0
    } else if colors <= 4 {
        1
    } else if colors <= 8 {
        2
    } else if colors <= 16 {
        3
    } else if colors <= 32 {
        4
    } else if colors <= 64 {
        5
    } else if colors <= 128 {
        6
    } else {
        7
    }
}

/// The number of entries of a colour table for `colors` colours.
pub open spec fn table_entries(colors: int) -> int {
    if colors <= 2 {
        2
    } else if colors <= 4 {
        4
    } else if colors <= 8 {
        8
    } else if colors <= 16 {
        16
    } else if colors <= 32 {
        32
    } else if colors <= 64 {
        64
    } else if colors <= 128 {
        128
    } else {
        256
    }
}

/// A colour table: the whole colours of `palette`, three bytes each, and
/// black entries that fill the table up.
pub open spec fn color_table(palette: Seq<u8>) -> Seq<u8> {
    let colors = (palette.len() / 3) as int;
    palette.subrange(0, 3 * colors) + Seq::new(
        (3 * (table_entries(colors) - colors)) as nat,
        |i: int| 0u8,
    )
}

/// The head of a stream for a canvas of `width` by `height` pixels with
/// the global palette `palette`: the signature `GIF89a`, the screen
/// descriptor with both dimensions, the flag and size of the global colour
/// table, background index 0 and no aspect ratio, and the colour table.
pub open spec fn screen_bytes(width: u16, height: u16, palette: Seq<u8>) -> Seq<u8> {
    let bits = table_bits((palette.len() / 3) as int);
    seq![0x47u8, 0x49, 0x46, 0x38, 0x39, 0x61] + le16(width) + le16(height) + seq![
        (0x80 + bits + 16 * bits) as u8,
        0x00,
        0x00,
    ] + color_table(palette)
}

/// The graphic control extension of a frame that is shown for `delay`
/// hundredths of a second, is kept when the next frame is drawn, waits for
/// no input and has no transparent colour.
pub open spec fn control_bytes(delay: u16) -> Seq<u8> {
    seq![0x21u8, 0xF9, 0x04, 0x04] + le16(delay) + seq![0x00u8, 0x00]
}

/// The image descriptor of a frame of `width` by `height` pixels at the
/// canvas origin, not interlaced and without a colour table of its own.
pub open spec fn descriptor_bytes(width: u16, height: u16) -> Seq<u8> {
    seq![0x2Cu8, 0x00, 0x00, 0x00, 0x00] + le16(width) + le16(height) + seq![0x00u8]
}

/// The image data that `gif::Encoder::write_frame` writes for the palette
/// indices `pixels`: the code size, the compressed indices in blocks and
/// the end of the blocks.
pub uninterp spec fn image_data(pixels: Seq<u8>) -> Seq<u8>;

/// The bytes of a frame that covers a canvas of `width` by `height` pixels,
/// is shown for `delay` hundredths of a second and holds the palette
/// indices `pixels`, row by row from the top.
pub open spec fn frame_bytes(width: u16, height: u16, delay: u16, pixels: Seq<u8>) -> Seq<u8> {
    control_bytes(delay) + descriptor_bytes(width, height) + image_data(pixels)
}

/// The application extension that makes a player repeat the animation
/// without end: the label `NETSCAPE2.0` and a repeat count of 0.
pub open spec fn loop_bytes() -> Seq<u8> {
    seq![
        0x21u8, 0xFF, 0x0B,
        0x4E, 0x45, 0x54, 0x53, 0x43, 0x41, 0x50, 0x45, 0x32, 0x2E, 0x30,
        0x03, 0x01, 0x00, 0x00, 0x00,
    ]
}

/// The byte that ends a GIF stream.
pub open spec fn trailer_bytes() -> Seq<u8> {
    seq![0x3Bu8]
}

/// Calls `gif::Encoder::new` on an empty vector. The call fails only for a
/// palette of more than 256 colours or when the writer fails, and a vector
/// takes every write; on success the encoder has written the head of the
/// stream.
#[verifier::external_body]
pub(crate) fn start(width: u16, height: u16, palette: &[u8]) -> (res: Result<
    GifStream,
    gif::EncodingError,
>)
    requires
        width * height <= isize::MAX,
    ensures
        palette@.len() <= 768 ==> res is Ok,
        res matches Ok(stream) ==> written(stream) == screen_bytes(width, height, palette@),
{
    gif::Encoder::new(Vec::new(), width, height, palette).map(|encoder| GifStream { encoder })
}

/// Calls `gif::Encoder::set_repeat` with `gif::Repeat::Infinite`, which
/// appends the looping extension. It fails only when the writer fails.
#[verifier::external_body]
pub(crate) fn repeat_forever(stream: &mut GifStream) -> (res: Result<(), gif::EncodingError>)
    ensures
        res is Ok,
        written(*final(stream)) == written(*old(stream)) + loop_bytes(),
{
    stream.encoder.set_repeat(gif::Repeat::Infinite)
}

/// Calls `gif::Encoder::write_frame` with a frame at the canvas origin that
/// has no palette of its own and is otherwise a default frame. The call
/// appends the control extension, the image descriptor and the image data.
/// With the global palette that `new` always writes, it fails only when
/// the writer fails.
#[verifier::external_body]
pub(crate) fn write_frame(
    stream: &mut GifStream,
    width: u16,
    height: u16,
    delay: u16,
    pixels: Vec<u8>,
) -> (res: Result<(), gif::EncodingError>)
    ensures
        res is Ok,
        written(*final(stream)) == written(*old(stream)) + control_bytes(delay)
            + descriptor_bytes(width, height) + image_data(pixels@),
{
    let frame = gif::Frame { delay, width, height, buffer: pixels.into(), ..Default::default() };
    stream.encoder.write_frame(&frame)
}

/// Calls `gif::Encoder::into_inner`, which appends the trailer and hands
/// back the vector. It fails only when the writer fails; the writer's
/// error is wrapped as `gif::EncodingError::Io`.
#[verifier::external_body]
pub(crate) fn finish(stream: GifStream) -> (res: Result<Vec<u8>, gif::EncodingError>)
    ensures
        res is Ok,
        res matches Ok(bytes) ==> bytes@ == written(stream) + trailer_bytes(),
{
    stream.encoder.into_inner().map_err(gif::EncodingError::Io)
}

/// The text of a `gif::EncodingError`, as its `Display` impl writes it.
#[verifier::external_body]
pub(crate) fn describe(error: &gif::EncodingError) -> (text: String) {
    error.to_string()
}

} // verus!
