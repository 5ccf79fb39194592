//! Rendering a page sequence into an animated GIF.

use crate::board::Page;
use crate::canvas::{all_wf, lemma_max_extent_covers, max_extent, Canvas};
use crate::encoder::{
    describe, finish, frame_bytes, loop_bytes, repeat_forever, screen_bytes, start, trailer_bytes,
    write_frame, written,
};
use crate::raster::{frame, rasterize};
use vstd::prelude::*;

verus! {

/// The global colour table: the background, the seven piece colours, the
/// grey of inactive cells and the shade of the garbage marker.
pub const GLOBAL_PALETTE: [u8; 30] = [
    0x40, 0x40, 0x40,
    0x00, 0xFF, 0xFF,
    0xFF, 0x80, 0x00,
    0xFF, 0xFF, 0x00,
    0xFF, 0x00, 0x00,
    0x80, 0x00, 0xFF,
    0x00, 0x20, 0xFF,
    0x00, 0xFF, 0x00,
    0x80, 0x80, 0x80,
    0x10, 0x10, 0x10,
];

/// The edge of one cell in pixels that callers use by default.
pub const BLOCK_SIZE: usize = 24;

/// The delay of one frame at speed 1, in hundredths of a second.
pub const BASE_DELAY: u16 = 50;

/// Why a page sequence was not rendered.
#[derive(Clone, Debug, PartialEq, Eq)]
pub enum RenderError {
    /// The pages give no canvas: there is no page, a page is not well
    /// formed, or the canvas does not fit the container.
    Geometry,
    /// The encoder refused the stream; the text is its message.
    Encoding(String),
}

/// Whether a page sequence can be rendered with cells of `block_size`
/// pixels.
pub open spec fn renderable(pages: Seq<Page>, block_size: usize) -> bool {
    &&& pages.len() > 0
    &&& all_wf(pages)
    &&& Canvas::of(pages, block_size).fits()
}

/// The bytes of the frames of `pages`, in order, all on `canvas` and all
/// shown for `delay` hundredths of a second.
pub open spec fn frames_bytes(pages: Seq<Page>, canvas: Canvas, delay: u16) -> Seq<u8>
    decreases pages.len(),
{
    if pages.len() == 0 {
        Seq::empty()
    } else {
        frames_bytes(pages.drop_last(), canvas, delay) + frame_bytes(
            canvas.width() as u16,
            canvas.height() as u16,
            delay,
            frame(pages.last(), canvas),
        )
    }
}

/// The animation of `pages`: the screen with the canvas of the whole
/// sequence and the global palette, the looping extension, one frame for
/// each page and the trailer.
pub open spec fn animation(pages: Seq<Page>, block_size: usize, delay: u16) -> Seq<u8> {
    let canvas = Canvas::of(pages, block_size);
    screen_bytes(canvas.width() as u16, canvas.height() as u16, GLOBAL_PALETTE@) + loop_bytes()
        + frames_bytes(pages, canvas, delay) + trailer_bytes()
}

/// What rendering `pages` gives: the animation, or the geometry error where
/// the pages cannot be rendered.
pub open spec fn outcome(pages: Seq<Page>, block_size: usize, delay: u16) -> Result<
    Seq<u8>,
    RenderError,
> {
    if renderable(pages, block_size) {
        Ok(animation(pages, block_size, delay))
    } else {
        Err(RenderError::Geometry)
    }
}

/// Whether `res` is what rendering `pages` gives.
pub open spec fn is_outcome(
    res: Result<Vec<u8>, RenderError>,
    pages: Seq<Page>,
    block_size: usize,
    delay: u16,
) -> bool {
    match res {
        Ok(bytes) => outcome(pages, block_size, delay) == Ok::<Seq<u8>, RenderError>(bytes@),
        Err(error) => outcome(pages, block_size, delay) == Err::<Seq<u8>, RenderError>(error),
    }
}

/// Whether every page of the sequence is well formed.
pub fn pages_valid(pages: &Vec<Page>) -> (valid: bool)
    ensures
        valid == all_wf(pages@),
{
    let mut i: usize = 0;
    while i < pages.len()
        invariant
            i <= pages@.len(),
            forall|k: int| 0 <= k < i ==> (#[trigger] pages@[k]).wf(),
        decreases pages@.len() - i,
    {
        if !pages[i].is_valid() {
            return false;
        }
        i += 1;
    }
    true
}

/// Renders `pages` as an endlessly looping GIF with cells of `block_size`
/// pixels, every frame shown for `delay` hundredths of a second.
pub fn render_fumen(pages: &Vec<Page>, block_size: usize, delay: u16) -> (res: Result<
    Vec<u8>,
    RenderError,
>)
    ensures
        is_outcome(res, pages@, block_size, delay),
{
    if pages.len() == 0 || !pages_valid(pages) {
        return Err(RenderError::Geometry);
    }
    let canvas = Canvas::measure(pages, block_size);
    let (width, height) = match canvas.dimensions() {
        None => {
            return Err(RenderError::Geometry);
        },
        Some(dims) => dims,
    };
    let mut stream = match start(width, height, GLOBAL_PALETTE.as_slice()) {
        Err(error) => {
            return Err(RenderError::Encoding(describe(&error)));
        },
        Ok(stream) => stream,
    };
    match repeat_forever(&mut stream) {
        Err(error) => {
            return Err(RenderError::Encoding(describe(&error)));
        },
        Ok(()) => {},
    }
    let ghost head = screen_bytes(width, height, GLOBAL_PALETTE@) + loop_bytes();
    let mut i: usize = 0;
    while i < pages.len()
        invariant
            i <= pages@.len(),
            all_wf(pages@),
            canvas == Canvas::of(pages@, block_size),
            canvas.rows == 1 + max_extent(pages@),
            canvas.fits(),
            width == canvas.width(),
            height == canvas.height(),
            written(stream) == head + frames_bytes(pages@.subrange(0, i as int), canvas, delay),
        decreases pages@.len() - i,
    {
        proof {
            lemma_max_extent_covers(pages@, i as int);
            assert(pages@.subrange(0, i + 1).drop_last() == pages@.subrange(0, i as int));
        }
        let pixels = rasterize(&pages[i], &canvas);
        match write_frame(&mut stream, width, height, delay, pixels) {
            Err(error) => {
                return Err(RenderError::Encoding(describe(&error)));
            },
            Ok(()) => {},
        }
        i += 1;
    }
    assert(pages@.subrange(0, i as int) == pages@);
    match finish(stream) {
        Err(error) => Err(RenderError::Encoding(describe(&error))),
        Ok(bytes) => Ok(bytes),
    }
}

} // verus!
