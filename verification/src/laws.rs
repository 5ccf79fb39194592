//! What holds of every rendering, stated over the models of the other
//! modules.

use crate::board::{CellColor, Page, Piece, COLUMNS, MAX_ROWS};
use crate::canvas::{
    all_wf, any_garbage, board_height, lemma_max_extent_attained, lemma_max_extent_covers,
    max_extent, Canvas, MARKER_HEIGHT,
};
use crate::encoder::{frame_bytes, le16, screen_bytes};
use crate::raster::{
    frame, lemma_pixel_index, lemma_pixel_position, lemma_tile, lemma_tile_bounds, piece_at,
    pixel, MARKER_INDEX,
};
use crate::render::{frames_bytes, is_outcome, renderable, RenderError};
use vstd::prelude::*;

verus! {

/// Every frame of an animation is written with the width and height of the
/// one canvas of the whole sequence, its pixels fill that canvas, and the
/// width is ten cells.
pub proof fn law_frames_share_canvas(pages: Seq<Page>, block_size: usize, delay: u16, i: int)
    requires
        renderable(pages, block_size),
        0 <= i < pages.len(),
    ensures
        ({
            let canvas = Canvas::of(pages, block_size);
            &&& canvas.width() == 10 * block_size
            &&& canvas.width() as u16 == canvas.width()
            &&& canvas.height() as u16 == canvas.height()
            &&& frame(pages[i], canvas).len() == canvas.width() * canvas.height()
            &&& frames_bytes(pages.subrange(0, i + 1), canvas, delay) == frames_bytes(
                pages.subrange(0, i),
                canvas,
                delay,
            ) + frame_bytes(
                canvas.width() as u16,
                canvas.height() as u16,
                delay,
                frame(pages[i], canvas),
            )
        }),
{
    let canvas = Canvas::of(pages, block_size);
    assert(pages.subrange(0, i + 1).drop_last() == pages.subrange(0, i));
    assert(0 <= canvas.width() * canvas.height()) by (nonlinear_arith)
        requires
            0 <= canvas.width(),
            0 <= canvas.height(),
    ;
    assert(0 <= canvas.rows * canvas.block_size) by (nonlinear_arith);
}

/// The head of a stream declares the canvas in its bytes 6 to 9, and a
/// frame declares its delay in its bytes 4 and 5 and the canvas it covers
/// in its bytes 13 to 16.
pub proof fn law_stream_declares_canvas(
    width: u16,
    height: u16,
    delay: u16,
    palette: Seq<u8>,
    pixels: Seq<u8>,
)
    ensures
        screen_bytes(width, height, palette).subrange(6, 8) == le16(width),
        screen_bytes(width, height, palette).subrange(8, 10) == le16(height),
        frame_bytes(width, height, delay, pixels).subrange(4, 6) == le16(delay),
        frame_bytes(width, height, delay, pixels).subrange(13, 15) == le16(width),
        frame_bytes(width, height, delay, pixels).subrange(15, 17) == le16(height),
{
    assert(screen_bytes(width, height, palette).subrange(6, 8) =~= le16(width));
    assert(screen_bytes(width, height, palette).subrange(8, 10) =~= le16(height));
    assert(frame_bytes(width, height, delay, pixels).subrange(4, 6) =~= le16(delay));
    assert(frame_bytes(width, height, delay, pixels).subrange(13, 15) =~= le16(width));
    assert(frame_bytes(width, height, delay, pixels).subrange(15, 17) =~= le16(height));
}

/// The canvas shows one row more than the largest extent, and a page that
/// grows by one row makes the canvas one cell higher where that page had
/// the largest extent; the canvas never shrinks.
pub proof fn law_height_grows_with_extent(
    before: Seq<Page>,
    after: Seq<Page>,
    block_size: usize,
    i: int,
)
    requires
        all_wf(before),
        all_wf(after),
        before.len() == after.len(),
        0 <= i < before.len(),
        any_garbage(before) == any_garbage(after),
        after[i].spec_extent() == before[i].spec_extent() + 1,
        forall|j: int|
            0 <= j < before.len() && j != i ==> (#[trigger] after[j]).spec_extent()
                == before[j].spec_extent(),
    ensures
        Canvas::of(before, block_size).rows == 1 + max_extent(before),
        Canvas::of(after, block_size).rows == 1 + max_extent(after),
        before[i].spec_extent() == max_extent(before) ==> Canvas::of(after, block_size).height()
            == Canvas::of(before, block_size).height() + block_size,
        Canvas::of(after, block_size).height() >= Canvas::of(before, block_size).height(),
{
    lemma_rows(before);
    lemma_rows(after);
    lemma_max_extent_attained(before);
    lemma_max_extent_attained(after);
    let b = choose|k: int| 0 <= k < before.len() && (#[trigger] before[k]).spec_extent() == max_extent(before);
    let a = choose|k: int| 0 <= k < after.len() && (#[trigger] after[k]).spec_extent() == max_extent(after);
    lemma_max_extent_covers(before, a);
    lemma_max_extent_covers(after, b);
    lemma_max_extent_covers(before, i);
    lemma_max_extent_covers(after, i);
    assert(after[b].spec_extent() >= before[b].spec_extent());
    assert(before[a].spec_extent() + 1 >= after[a].spec_extent());
    let grown = max_extent(after) as int;
    let was = max_extent(before) as int;
    assert(was <= grown <= was + 1);
    assert((1 + grown) * block_size >= (1 + was) * block_size) by (nonlinear_arith)
        requires
            grown >= was,
            block_size >= 0,
    ;
    if before[i].spec_extent() == max_extent(before) {
        assert(grown == was + 1);
        assert((1 + grown) * block_size == (1 + was) * block_size + block_size)
            by (nonlinear_arith)
            requires
                grown == was + 1,
        ;
    }
}

/// The rows of the canvas of well-formed pages are one more than their
/// largest extent.
proof fn lemma_rows(pages: Seq<Page>)
    requires
        all_wf(pages),
    ensures
        max_extent(pages) < MAX_ROWS,
        Canvas::of(pages, 0).rows == 1 + max_extent(pages),
    decreases pages.len(),
{
    if pages.len() > 0 {
        lemma_rows(pages.drop_last());
        let last = pages.last();
        assert(last.wf());
        lemma_extent_on_grid(last);
    }
}

/// A well-formed page has its extent on the grid.
proof fn lemma_extent_on_grid(page: Page)
    requires
        page.wf(),
    ensures
        page.spec_extent() < MAX_ROWS,
{
    page.lemma_field_extent();
    if page.spec_field_extent() > 0 {
        assert(page.row_filled(page.spec_field_extent() as int));
    }
    if let Some(piece) = page.piece {
        let c = piece.spec_cells();
        assert(0 <= c[0].1 < MAX_ROWS);
        assert(0 <= c[1].1 < MAX_ROWS);
        assert(0 <= c[2].1 < MAX_ROWS);
        assert(0 <= c[3].1 < MAX_ROWS);
    }
}

/// The pixel in column `px` of pixel row `py` is found in the frame at
/// `py` rows of the canvas width plus `px`.
pub proof fn law_frame_pixel(page: Page, canvas: Canvas, px: int, py: int)
    requires
        0 <= px < canvas.width(),
        0 <= py < canvas.height(),
    ensures
        0 <= py * canvas.width() + px < frame(page, canvas).len(),
        frame(page, canvas).len() == canvas.width() * canvas.height(),
        frame(page, canvas)[py * canvas.width() + px] == pixel(page, canvas, px, py),
{
    let width = canvas.width();
    let height = canvas.height();
    lemma_pixel_position(width, py, px);
    assert(0 <= py * width + px < height * width) by (nonlinear_arith)
        requires
            0 <= px < width,
            0 <= py < height,
    ;
    assert(width * height == height * width) by (nonlinear_arith);
}

/// Where one page of a sequence has a garbage row, the canvas of every
/// frame has the strip below the board rows: the marker band and a band of
/// one cell's height. That holds of the frames of pages whose own garbage
/// row is empty too.
pub proof fn law_garbage_strip_uniform(pages: Seq<Page>, block_size: usize, i: int)
    requires
        all_wf(pages),
        any_garbage(pages),
        0 <= i < pages.len(),
    ensures
        ({
            let canvas = Canvas::of(pages, block_size);
            &&& canvas.garbage
            &&& canvas.height() == board_height(pages) * block_size + MARKER_HEIGHT + block_size
            &&& frame(pages[i], canvas).len() == canvas.width() * canvas.height()
        }),
{
    let canvas = Canvas::of(pages, block_size);
    lemma_rows(pages);
    assert(0 <= canvas.width() * canvas.height()) by (nonlinear_arith)
        requires
            0 <= canvas.width(),
            0 <= canvas.height(),
    ;
    assert(0 <= canvas.rows * canvas.block_size) by (nonlinear_arith);
}

/// In the garbage strip the marker band is drawn on every page, as far as
/// a cell is high, and below it every column has the colour of its garbage
/// cell: background on a page whose garbage row is empty.
pub proof fn law_strip_pixels(page: Page, canvas: Canvas, px: int, py: int)
    requires
        canvas.garbage,
        0 <= px < canvas.width(),
        canvas.board_px() <= py < canvas.height(),
    ensures
        ({
            let depth = py - canvas.board_px();
            &&& 0 <= canvas.column_at(px) < COLUMNS
            &&& depth < MARKER_HEIGHT && depth < canvas.block_size ==> pixel(page, canvas, px, py)
                == MARKER_INDEX
            &&& depth >= MARKER_HEIGHT ==> pixel(page, canvas, px, py)
                == page.garbage_row[canvas.column_at(px)].spec_palette_index()
            &&& depth >= MARKER_HEIGHT && !page.spec_has_garbage() ==> pixel(page, canvas, px, py)
                == 0
        }),
{
    assert(canvas.block_size > 0) by (nonlinear_arith)
        requires
            0 <= px < COLUMNS * canvas.block_size,
    ;
    lemma_tile_bounds(px, canvas.block_size as int, COLUMNS as int);
}

/// Board rows are drawn bottom up: the tile of board row `row` is the
/// `row`-th tile row counted upwards from the last one above the strip, so
/// row 0 is that last tile row whatever the number of rows. A pixel of the
/// tile shows the cell of that column and row unless the piece lies on it.
pub proof fn law_row_inversion(page: Page, canvas: Canvas, col: int, row: int, px: int, py: int)
    requires
        canvas.block_size > 0,
        0 <= col < COLUMNS,
        0 <= row < canvas.rows,
        col * canvas.block_size <= px < col * canvas.block_size + canvas.block_size,
        canvas.board_px() - (row + 1) * canvas.block_size <= py < canvas.board_px() - row
            * canvas.block_size,
    ensures
        canvas.column_at(px) == col,
        canvas.row_at(py) == row,
        0 <= py < canvas.board_px(),
        !piece_at(page, canvas, px, py) ==> pixel(page, canvas, px, py) == page.cell(
            col,
            row,
        ).spec_palette_index(),
{
    let size = canvas.block_size as int;
    let rows = canvas.rows as int;
    assert(rows * size - (row + 1) * size == (rows - 1 - row) * size && rows * size - row * size
        == (rows - 1 - row) * size + size) by (nonlinear_arith);
    assert(0 <= (rows - 1 - row) * size) by (nonlinear_arith)
        requires
            0 <= rows - 1 - row,
            0 <= size,
    ;
    assert(row * size >= 0) by (nonlinear_arith)
        requires
            0 <= row,
            0 <= size,
    ;
    lemma_tile(px, size, col);
    lemma_tile(py, size, rows - 1 - row);
}

/// Where the active piece lies on a cell, every pixel of the cell's tile
/// has the piece's colour, whatever the colour of the field cell below it.
pub proof fn law_piece_occludes(
    page: Page,
    canvas: Canvas,
    piece: Piece,
    col: int,
    row: int,
    px: int,
    py: int,
)
    requires
        canvas.block_size > 0,
        page.piece == Some(piece),
        piece.covers(col, row),
        0 <= col < COLUMNS,
        0 <= row < canvas.rows,
        col * canvas.block_size <= px < col * canvas.block_size + canvas.block_size,
        canvas.board_px() - (row + 1) * canvas.block_size <= py < canvas.board_px() - row
            * canvas.block_size,
    ensures
        pixel(page, canvas, px, py) == piece.kind.spec_color().spec_palette_index(),
        pixel(page, canvas, px, py) != CellColor::Empty.spec_palette_index(),
{
    law_row_inversion(page, canvas, col, row, px, py);
}

/// Rendering is a function of the pages, the block size and the delay: two
/// renderings of the same input succeed or fail together, with the same
/// bytes or the same error.
pub proof fn law_render_deterministic(
    pages: Seq<Page>,
    block_size: usize,
    delay: u16,
    first: Result<Vec<u8>, RenderError>,
    second: Result<Vec<u8>, RenderError>,
)
    requires
        is_outcome(first, pages, block_size, delay),
        is_outcome(second, pages, block_size, delay),
    ensures
        first is Ok <==> second is Ok,
        first is Ok ==> first->Ok_0@ == second->Ok_0@,
        first is Err ==> first->Err_0 == second->Err_0,
{
}

/// A single page with nothing on it gives a canvas one cell high and ten
/// cells wide, and every pixel of its frame is background.
pub proof fn law_empty_board(page: Page, block_size: usize)
    requires
        page.wf(),
        page.piece is None,
        !page.spec_has_garbage(),
        forall|y: int| !page.row_filled(y),
    ensures
        Canvas::of(seq![page], block_size).height() == block_size,
        Canvas::of(seq![page], block_size).width() == 10 * block_size,
        frame(page, Canvas::of(seq![page], block_size)).len() == 10 * block_size * block_size,
        forall|i: int|
            0 <= i < frame(page, Canvas::of(seq![page], block_size)).len() ==> #[trigger] frame(
                page,
                Canvas::of(seq![page], block_size),
            )[i] == 0,
{
    let pages = seq![page];
    let canvas = Canvas::of(pages, block_size);
    lemma_empty_extent(page, page.field@.len());
    assert(pages.drop_last() =~= Seq::<Page>::empty());
    assert(pages.last() == page);
    assert(page.spec_field_extent() == 0);
    assert(page.spec_extent() == 0);
    assert(max_extent(pages.drop_last()) == 0);
    assert(max_extent(pages) == 0);
    if any_garbage(pages) {
        let k = choose|k: int| 0 <= k < pages.len() && (#[trigger] pages[k]).spec_has_garbage();
        assert(pages[k] == page);
    }
    assert(canvas.rows == 1);
    assert(!canvas.garbage);
    assert(canvas.rows * canvas.block_size == canvas.block_size) by (nonlinear_arith)
        requires
            canvas.rows == 1,
    ;
    assert(canvas.width() * canvas.height() == 10 * block_size * block_size)
        by (nonlinear_arith)
        requires
            canvas.width() == 10 * block_size,
            canvas.height() == block_size,
    ;
    assert forall|i: int| 0 <= i < frame(page, canvas).len() implies #[trigger] frame(
        page,
        canvas,
    )[i] == 0 by {
        assert(block_size > 0) by (nonlinear_arith)
            requires
                0 <= i < 10 * block_size * block_size,
        ;
        let px = i % canvas.width();
        let py = i / canvas.width();
        lemma_pixel_index(canvas.width(), i);
        lemma_tile_bounds(i, canvas.width(), canvas.height());
        lemma_tile_bounds(px, block_size as int, COLUMNS as int);
        let col = canvas.column_at(px);
        let row = canvas.row_at(py);
        if 0 <= row < page.field@.len() {
            assert(!page.row_filled(row));
            assert(page.field@[row][col] == CellColor::Empty);
        }
        assert(page.cell(col, row) == CellColor::Empty);
        assert(pixel(page, canvas, px, py) == 0);
    }
}

/// A field without a filled row has extent 0.
proof fn lemma_empty_extent(page: Page, n: nat)
    requires
        forall|y: int| !page.row_filled(y),
    ensures
        page.top_filled_below(n) == 0,
    decreases n,
{
    if n > 0 {
        lemma_empty_extent(page, (n - 1) as nat);
    }
}

} // verus!
