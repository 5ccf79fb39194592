//! Rasterising one page into a buffer of palette indices.

use crate::board::{Page, Piece, COLUMNS, MAX_ROWS};
use crate::canvas::{Canvas, MARKER_HEIGHT};
use vstd::arithmetic::div_mod::{lemma_fundamental_div_mod, lemma_fundamental_div_mod_converse};
use vstd::prelude::*;

verus! {

/// Palette index of the marker band that heads the garbage strip.
pub const MARKER_INDEX: u8 = 9;

/// Whether pixel `i` of a row-major buffer with rows of `width` pixels lies
/// in the rectangle of `w` by `h` pixels whose top left corner is in column
/// `left` of row `top`.
pub open spec fn in_rect(i: int, width: int, left: int, top: int, w: int, h: int) -> bool {
    &&& left <= i % width < left + w
    &&& top <= i / width < top + h
}

/// The buffer `pixels` after the rectangle has been filled with `value`.
pub open spec fn painted(
    pixels: Seq<u8>,
    width: int,
    left: int,
    top: int,
    w: int,
    h: int,
    value: u8,
) -> Seq<u8> {
    Seq::new(
        pixels.len(),
        |i: int|
            if in_rect(i, width, left, top, w, h) {
                value
            } else {
                pixels[i]
            },
    )
}

/// Pixel `q * width + r` lies in column `r` of row `q`.
pub(crate) proof fn lemma_pixel_position(width: int, q: int, r: int)
    requires
        0 <= r < width,
    ensures
        (q * width + r) / width == q,
        (q * width + r) % width == r,
{
    lemma_fundamental_div_mod_converse(q * width + r, width, q, r);
}

/// A pixel is found again from its row and column.
pub(crate) proof fn lemma_pixel_index(width: int, i: int)
    requires
        0 < width,
    ensures
        i == (i / width) * width + i % width,
        0 <= i % width < width,
{
    lemma_fundamental_div_mod(i, width);
    assert(width * (i / width) == (i / width) * width) by (nonlinear_arith);
}

/// The last pixel of a rectangle that ends in row `rows` is in the buffer.
proof fn lemma_rect_in_buffer(width: int, rows: int, row: int, col: int)
    requires
        0 <= row < rows,
        0 <= col < width,
    ensures
        0 <= row * width + col < rows * width,
{
    assert(row * width + width <= rows * width) by (nonlinear_arith)
        requires
            row + 1 <= rows,
            width >= 0,
    ;
    assert(0 <= row * width) by (nonlinear_arith)
        requires
            0 <= row,
            0 <= width,
    ;
}

/// Fills a rectangle of `w` by `h` pixels with `value` in a row-major
/// buffer whose rows are `width` pixels long. The rectangle's top left
/// corner is in column `left` of row `top`.
pub fn fill_rect(
    buffer: &mut Vec<u8>,
    width: usize,
    left: usize,
    top: usize,
    w: usize,
    h: usize,
    value: u8,
)
    requires
        left + w <= width,
        (top + h) * width <= old(buffer)@.len(),
    ensures
        final(buffer)@ == painted(
            old(buffer)@,
            width as int,
            left as int,
            top as int,
            w as int,
            h as int,
            value,
        ),
{
    if w == 0 {
        assert(buffer@ =~= painted(
            buffer@,
            width as int,
            left as int,
            top as int,
            w as int,
            h as int,
            value,
        ));
        return ;
    }
    let len = buffer.len();
    let mut iy: usize = 0;
    while iy < h
        invariant
            iy <= h,
            0 < w,
            len == old(buffer)@.len(),
            left + w <= width,
            (top + h) * width <= old(buffer)@.len(),
            buffer@ == painted(
                old(buffer)@,
                width as int,
                left as int,
                top as int,
                w as int,
                iy as int,
                value,
            ),
        decreases h - iy,
    {
        let ghost rows_done = buffer@;
        proof {
            lemma_rect_in_buffer(width as int, (top + h) as int, (top + iy) as int, left as int);
            assert(top + h <= (top + h) * width) by (nonlinear_arith)
                requires
                    width >= 1,
            ;
        }
        let start = (top + iy) * width + left;
        let mut ix: usize = 0;
        while ix < w
            invariant
                ix <= w,
                iy < h,
                len == old(buffer)@.len(),
                left + w <= width,
                (top + h) * width <= old(buffer)@.len(),
                start == (top + iy) * width + left,
                rows_done.len() == old(buffer)@.len(),
                buffer@ == painted(
                    rows_done,
                    width as int,
                    left as int,
                    (top + iy) as int,
                    ix as int,
                    1,
                    value,
                ),
            decreases w - ix,
        {
            proof {
                lemma_rect_in_buffer(
                    width as int,
                    (top + h) as int,
                    (top + iy) as int,
                    (left + ix) as int,
                );
                lemma_pixel_position(width as int, (top + iy) as int, (left + ix) as int);
                assert(top + h <= (top + h) * width) by (nonlinear_arith)
                    requires
                        width >= 1,
                ;
            }
            let ghost before = buffer@;
            buffer[start + ix] = value;
            proof {
                let target = painted(
                    rows_done,
                    width as int,
                    left as int,
                    (top + iy) as int,
                    ix + 1,
                    1,
                    value,
                );
                assert forall|j: int| 0 <= j < target.len() implies buffer@[j] == target[j] by {
                    lemma_pixel_index(width as int, j);
                }
                assert(buffer@ =~= target);
            }
            ix += 1;
        }
        proof {
            let target = painted(
                old(buffer)@,
                width as int,
                left as int,
                top as int,
                w as int,
                iy + 1,
                value,
            );
            assert(buffer@ =~= target);
        }
        iy += 1;
    }
}

impl Canvas {
    /// The board column shown at pixel column `px`.
    pub open spec fn column_at(self, px: int) -> int {
        px / (self.block_size as int)
    }

    /// The board row shown at pixel row `py`: the canvas is drawn top down
    /// and the board is stored bottom up, so the top pixel rows show the
    /// highest board row and row 0 is the last before the garbage strip.
    pub open spec fn row_at(self, py: int) -> int {
        self.rows - 1 - py / (self.block_size as int)
    }
}

/// The palette index of the field cell shown at a pixel above the strip.
pub open spec fn board_pixel(page: Page, canvas: Canvas, px: int, py: int) -> u8 {
    page.cell(canvas.column_at(px), canvas.row_at(py)).spec_palette_index()
}

/// The palette index of a pixel of the garbage strip: the marker in the
/// first `MARKER_HEIGHT` pixel rows, as far as a cell is high, and below
/// them the colour of the garbage cell of that column.
pub open spec fn strip_pixel(page: Page, canvas: Canvas, px: int, py: int) -> u8 {
    let depth = py - canvas.board_px();
    if depth < MARKER_HEIGHT {
        if depth < canvas.block_size {
            MARKER_INDEX
        } else {
            0
        }
    } else {
        page.garbage_row[canvas.column_at(px)].spec_palette_index()
    }
}

/// The palette index of a pixel before the active piece is drawn.
pub open spec fn ground_pixel(page: Page, canvas: Canvas, px: int, py: int) -> u8 {
    if py < canvas.board_px() {
        board_pixel(page, canvas, px, py)
    } else {
        strip_pixel(page, canvas, px, py)
    }
}

/// Whether the active piece occupies the cell shown at a pixel.
pub open spec fn piece_at(page: Page, canvas: Canvas, px: int, py: int) -> bool {
    &&& py < canvas.board_px()
    &&& page.piece matches Some(piece)
    &&& piece.covers(canvas.column_at(px), canvas.row_at(py))
}

/// The palette index of pixel (`px`, `py`) of the frame of `page`: the
/// piece hides the field cell it lies on.
pub open spec fn pixel(page: Page, canvas: Canvas, px: int, py: int) -> u8 {
    if piece_at(page, canvas, px, py) {
        page.piece->0.kind.spec_color().spec_palette_index()
    } else {
        ground_pixel(page, canvas, px, py)
    }
}

/// The frame of `page` on `canvas`: one palette index per pixel, row by row
/// from the top.
pub open spec fn frame(page: Page, canvas: Canvas) -> Seq<u8> {
    Seq::new(
        canvas.area() as nat,
        |i: int| pixel(page, canvas, i % canvas.width(), i / canvas.width()),
    )
}

/// A coordinate lies in tile `t` exactly when its quotient by the tile size
/// is `t`.
pub(crate) proof fn lemma_tile(a: int, size: int, t: int)
    requires
        size > 0,
    ensures
        (t * size <= a < t * size + size) <==> a / size == t,
{
    lemma_fundamental_div_mod(a, size);
    assert(size * (a / size) == (a / size) * size) by (nonlinear_arith);
    if t * size <= a < t * size + size {
        lemma_fundamental_div_mod_converse(a, size, t, a - t * size);
    }
}

/// Tiles do not overlap, and they come in the order of their numbers.
pub(crate) proof fn lemma_tile_bounds(a: int, size: int, count: int)
    requires
        size > 0,
        0 <= a < count * size,
    ensures
        0 <= a / size < count,
{
    lemma_tile(a, size, a / size);
    assert(a / size < count) by (nonlinear_arith)
        requires
            (a / size) * size <= a,
            a < count * size,
            size > 0,
    ;
    assert(0 <= a / size) by (nonlinear_arith)
        requires
            a < (a / size) * size + size,
            0 <= a,
            size > 0,
    ;
}

/// The buffer `pixels` after the tile of the cell in column `col` of board
/// row `row` has been filled with `value`.
pub open spec fn tile_painted(pixels: Seq<u8>, canvas: Canvas, col: int, row: int, value: u8) -> Seq<
    u8,
> {
    Seq::new(
        pixels.len(),
        |i: int|
            if canvas.column_at(i % canvas.width()) == col && canvas.row_at(i / canvas.width())
                == row {
                value
            } else {
                pixels[i]
            },
    )
}

/// The pixel while the field is being drawn: the rows below `rows_done`
/// and the first `cols_done` cells of row `rows_done` are on the canvas.
spec fn board_stage(
    page: Page,
    canvas: Canvas,
    rows_done: int,
    cols_done: int,
    px: int,
    py: int,
) -> u8 {
    let col = canvas.column_at(px);
    let row = canvas.row_at(py);
    if py < canvas.board_px() && (row < rows_done || (row == rows_done && col < cols_done)) {
        board_pixel(page, canvas, px, py)
    } else {
        0
    }
}

/// Facts about the canvas that the drawing loops share.
pub(crate) proof fn lemma_canvas(canvas: Canvas)
    requires
        canvas.fits(),
        canvas.block_size > 0,
    ensures
        0 < canvas.width() <= u16::MAX,
        0 <= canvas.board_px() <= canvas.height() <= u16::MAX,
        0 <= canvas.area() <= isize::MAX,
        canvas.area() == canvas.height() * canvas.width(),
        canvas.rows <= u16::MAX,
{
    let size = canvas.block_size as int;
    let rows = canvas.rows as int;
    assert(0 <= rows * size) by (nonlinear_arith)
        requires
            0 <= rows,
            0 <= size,
    ;
    assert(rows <= rows * size) by (nonlinear_arith)
        requires
            0 <= rows,
            1 <= size,
    ;
    assert(canvas.width() * canvas.height() == canvas.height() * canvas.width())
        by (nonlinear_arith);
    assert(0 <= canvas.width() * canvas.height()) by (nonlinear_arith)
        requires
            0 <= canvas.width(),
            0 <= canvas.height(),
    ;
}

/// The tile of board column `col` and row `row` lies on the board part of
/// the canvas.
pub(crate) proof fn lemma_tile_on_canvas(canvas: Canvas, col: int, row: int)
    requires
        canvas.fits(),
        canvas.block_size > 0,
        0 <= col < COLUMNS,
        0 <= row < canvas.rows,
    ensures
        0 <= col * canvas.block_size,
        col * canvas.block_size + canvas.block_size <= canvas.width(),
        0 <= (canvas.rows - 1 - row) * canvas.block_size,
        (canvas.rows - 1 - row) * canvas.block_size + canvas.block_size <= canvas.board_px(),
        ((canvas.rows - 1 - row) * canvas.block_size + canvas.block_size) * canvas.width()
            <= canvas.area(),
{
    lemma_canvas(canvas);
    let size = canvas.block_size as int;
    let rows = canvas.rows as int;
    assert(0 <= col * size && col * size + size <= COLUMNS * size) by (nonlinear_arith)
        requires
            0 <= col,
            col + 1 <= COLUMNS,
            0 <= size,
    ;
    assert(0 <= (rows - 1 - row) * size && (rows - 1 - row) * size + size <= rows * size)
        by (nonlinear_arith)
        requires
            0 <= rows - 1 - row,
            rows - row <= rows,
            0 <= size,
    ;
    let bottom = (rows - 1 - row) * size + size;
    assert(bottom * canvas.width() <= canvas.height() * canvas.width()) by (nonlinear_arith)
        requires
            bottom <= canvas.height(),
            0 <= canvas.width(),
    ;
}

/// Fills the tile of the cell in column `col` of board row `row` with
/// `value`. Board rows are counted from the bottom and pixel rows from the
/// top, so the tile of row 0 is the last one above the garbage strip.
pub fn fill_tile(buffer: &mut Vec<u8>, canvas: &Canvas, col: usize, row: usize, value: u8)
    requires
        canvas.fits(),
        col < COLUMNS,
        row < canvas.rows,
        old(buffer)@.len() == canvas.area(),
    ensures
        final(buffer)@ == tile_painted(old(buffer)@, *canvas, col as int, row as int, value),
{
    if canvas.block_size == 0 {
        assert(canvas.area() == 0) by (nonlinear_arith)
            requires
                canvas.width() == 0,
                canvas.area() == canvas.width() * canvas.height(),
        ;
        assert(buffer@ =~= tile_painted(buffer@, *canvas, col as int, row as int, value));
        return ;
    }
    proof {
        lemma_canvas(*canvas);
        lemma_tile_on_canvas(*canvas, col as int, row as int);
    }
    let size = canvas.block_size;
    let width = COLUMNS * size;
    let ghost before = buffer@;
    fill_rect(buffer, width, col * size, (canvas.rows - 1 - row) * size, size, size, value);
    proof {
        let target = tile_painted(before, *canvas, col as int, row as int, value);
        assert forall|i: int| 0 <= i < target.len() implies buffer@[i] == target[i] by {
            lemma_pixel_index(canvas.width(), i);
            lemma_tile_bounds(i, canvas.width(), canvas.height());
            lemma_tile(i % canvas.width(), size as int, col as int);
            lemma_tile(i / canvas.width(), size as int, canvas.rows - 1 - row);
        }
        assert(buffer@ =~= target);
    }
}

/// Draws the field: one tile for every cell of the rows that the page
/// holds and the canvas shows.
fn paint_board(buffer: &mut Vec<u8>, page: &Page, canvas: &Canvas)
    requires
        canvas.fits(),
        canvas.block_size > 0,
        old(buffer)@.len() == canvas.area(),
        forall|i: int| 0 <= i < old(buffer)@.len() ==> #[trigger] old(buffer)@[i] == 0,
    ensures
        final(buffer)@.len() == canvas.area(),
        forall|i: int|
            0 <= i < final(buffer)@.len() ==> #[trigger] final(buffer)@[i] == board_stage(
                *page,
                *canvas,
                canvas.rows as int,
                0,
                i % canvas.width(),
                i / canvas.width(),
            ),
{
    proof {
        lemma_canvas(*canvas);
    }
    let size = canvas.block_size;
    let drawn = if page.field.len() < canvas.rows {
        page.field.len()
    } else {
        canvas.rows
    };
    let mut y: usize = 0;
    while y < drawn
        invariant
            y <= drawn,
            drawn <= canvas.rows,
            drawn <= page.field@.len(),
            canvas.fits(),
            size == canvas.block_size,
            size > 0,
            buffer@.len() == canvas.area(),
            forall|i: int|
                0 <= i < buffer@.len() ==> #[trigger] buffer@[i] == board_stage(
                    *page,
                    *canvas,
                    y as int,
                    0,
                    i % canvas.width(),
                    i / canvas.width(),
                ),
        decreases drawn - y,
    {
        let mut x: usize = 0;
        while x < COLUMNS
            invariant
                x <= COLUMNS,
                y < drawn,
                drawn <= canvas.rows,
                drawn <= page.field@.len(),
                canvas.fits(),
                size == canvas.block_size,
                size > 0,
                buffer@.len() == canvas.area(),
                forall|i: int|
                    0 <= i < buffer@.len() ==> #[trigger] buffer@[i] == board_stage(
                        *page,
                        *canvas,
                        y as int,
                        x as int,
                        i % canvas.width(),
                        i / canvas.width(),
                    ),
            decreases COLUMNS - x,
        {
            let value = page.field[y][x].palette_index();
            let ghost before = buffer@;
            fill_tile(buffer, canvas, x, y, value);
            proof {
                lemma_canvas(*canvas);
                assert forall|i: int| 0 <= i < buffer@.len() implies #[trigger] buffer@[i]
                    == board_stage(
                    *page,
                    *canvas,
                    y as int,
                    x + 1,
                    i % canvas.width(),
                    i / canvas.width(),
                ) by {
                    let px = i % canvas.width();
                    let py = i / canvas.width();
                    lemma_tile_bounds(i, canvas.width(), canvas.height());
                    lemma_tile(py, size as int, canvas.rows - 1 - y);
                    lemma_tile_on_canvas(*canvas, x as int, y as int);
                    assert(before[i] == board_stage(*page, *canvas, y as int, x as int, px, py));
                }
            }
            x += 1;
        }
        proof {
            assert forall|i: int| 0 <= i < buffer@.len() implies #[trigger] buffer@[i]
                == board_stage(
                *page,
                *canvas,
                y + 1,
                0,
                i % canvas.width(),
                i / canvas.width(),
            ) by {
                lemma_pixel_index(canvas.width(), i);
                lemma_tile_bounds(i % canvas.width(), size as int, COLUMNS as int);
            }
        }
        y += 1;
    }
    proof {
        assert forall|i: int| 0 <= i < buffer@.len() implies #[trigger] buffer@[i] == board_stage(
            *page,
            *canvas,
            canvas.rows as int,
            0,
            i % canvas.width(),
            i / canvas.width(),
        ) by {
            let py = i / canvas.width();
            lemma_pixel_index(canvas.width(), i);
            lemma_tile_bounds(i, canvas.width(), canvas.height());
            if py < canvas.board_px() {
                lemma_tile_bounds(py, size as int, canvas.rows as int);
            }
        }
    }
}

/// The pixel while the garbage strip is being drawn: the field is on the
/// canvas, and so are the first `cols_done` columns of the strip.
spec fn strip_stage(page: Page, canvas: Canvas, cols_done: int, px: int, py: int) -> u8 {
    if py < canvas.board_px() {
        board_pixel(page, canvas, px, py)
    } else if canvas.column_at(px) < cols_done {
        strip_pixel(page, canvas, px, py)
    } else {
        0
    }
}

/// Draws the garbage strip below the field: for every column the marker
/// band and, `MARKER_HEIGHT` pixels further down, a tile in the colour of
/// the garbage cell.
fn paint_strip(buffer: &mut Vec<u8>, page: &Page, canvas: &Canvas)
    requires
        canvas.fits(),
        canvas.block_size > 0,
        canvas.garbage,
        old(buffer)@.len() == canvas.area(),
        forall|i: int|
            0 <= i < old(buffer)@.len() ==> #[trigger] old(buffer)@[i] == board_stage(
                *page,
                *canvas,
                canvas.rows as int,
                0,
                i % canvas.width(),
                i / canvas.width(),
            ),
    ensures
        final(buffer)@.len() == canvas.area(),
        forall|i: int|
            0 <= i < final(buffer)@.len() ==> #[trigger] final(buffer)@[i] == ground_pixel(
                *page,
                *canvas,
                i % canvas.width(),
                i / canvas.width(),
            ),
{
    proof {
        lemma_canvas(*canvas);
    }
    let size = canvas.block_size;
    let width = COLUMNS * size;
    let board = canvas.rows * size;
    let marker = if size < MARKER_HEIGHT {
        size
    } else {
        MARKER_HEIGHT
    };
    proof {
        assert forall|i: int| 0 <= i < buffer@.len() implies #[trigger] buffer@[i] == strip_stage(
            *page,
            *canvas,
            0,
            i % canvas.width(),
            i / canvas.width(),
        ) by {
            let py = i / canvas.width();
            lemma_pixel_index(canvas.width(), i);
            lemma_tile_bounds(i, canvas.width(), canvas.height());
            lemma_tile_bounds(i % canvas.width(), size as int, COLUMNS as int);
            if py < canvas.board_px() {
                lemma_tile_bounds(py, size as int, canvas.rows as int);
            }
        }
    }
    let mut x: usize = 0;
    while x < COLUMNS
        invariant
            x <= COLUMNS,
            canvas.fits(),
            canvas.garbage,
            size == canvas.block_size,
            size > 0,
            width == canvas.width(),
            board == canvas.board_px(),
            marker <= MARKER_HEIGHT,
            marker <= size,
            marker == MARKER_HEIGHT || marker == size,
            buffer@.len() == canvas.area(),
            forall|i: int|
                0 <= i < buffer@.len() ==> #[trigger] buffer@[i] == strip_stage(
                    *page,
                    *canvas,
                    x as int,
                    i % canvas.width(),
                    i / canvas.width(),
                ),
        decreases COLUMNS - x,
    {
        proof {
            lemma_canvas(*canvas);
            assert(0 <= x * size && x * size + size <= COLUMNS * size) by (nonlinear_arith)
                requires
                    0 <= x,
                    x + 1 <= COLUMNS,
                    0 <= size,
            ;
            assert((board + marker) * width <= canvas.height() * canvas.width())
                by (nonlinear_arith)
                requires
                    board + marker <= canvas.height(),
                    width == canvas.width(),
                    0 <= width,
            ;
            assert((board + MARKER_HEIGHT + size) * width == canvas.height() * canvas.width())
                by (nonlinear_arith)
                requires
                    board + MARKER_HEIGHT + size == canvas.height(),
                    width == canvas.width(),
            ;
        }
        let value = page.garbage_row[x].palette_index();
        let ghost before = buffer@;
        fill_rect(buffer, width, x * size, board, size, marker, MARKER_INDEX);
        let ghost marked = buffer@;
        fill_rect(buffer, width, x * size, board + MARKER_HEIGHT, size, size, value);
        proof {
            assert forall|i: int| 0 <= i < buffer@.len() implies #[trigger] buffer@[i]
                == strip_stage(*page, *canvas, x + 1, i % canvas.width(), i / canvas.width()) by {
                let px = i % canvas.width();
                let py = i / canvas.width();
                lemma_pixel_index(canvas.width(), i);
                lemma_tile_bounds(i, canvas.width(), canvas.height());
                lemma_tile(px, size as int, x as int);
                assert(before[i] == strip_stage(*page, *canvas, x as int, px, py));
                assert(marked[i] == if in_rect(
                    i,
                    width as int,
                    x * size,
                    board as int,
                    size as int,
                    marker as int,
                ) {
                    MARKER_INDEX
                } else {
                    before[i]
                });
            }
        }
        x += 1;
    }
    proof {
        assert forall|i: int| 0 <= i < buffer@.len() implies #[trigger] buffer@[i] == ground_pixel(
            *page,
            *canvas,
            i % canvas.width(),
            i / canvas.width(),
        ) by {
            lemma_pixel_index(canvas.width(), i);
            lemma_tile_bounds(i % canvas.width(), size as int, COLUMNS as int);
        }
    }
}

/// The pixel while the piece is being drawn: the field and the strip are on
/// the canvas, and so are the first `cells_done` cells of the piece.
spec fn piece_stage(
    page: Page,
    canvas: Canvas,
    piece: Piece,
    cells_done: int,
    px: int,
    py: int,
) -> u8 {
    if py < canvas.board_px() && exists|j: int|
        0 <= j < cells_done && #[trigger] piece.spec_cells()[j] == (
            canvas.column_at(px),
            canvas.row_at(py),
        ) {
        piece.kind.spec_color().spec_palette_index()
    } else {
        ground_pixel(page, canvas, px, py)
    }
}

/// Draws the active piece over what is on the canvas: one tile in the
/// piece's colour for each of its cells.
fn paint_piece(buffer: &mut Vec<u8>, page: &Page, canvas: &Canvas)
    requires
        canvas.fits(),
        canvas.block_size > 0,
        page.wf(),
        page.spec_extent() < canvas.rows,
        old(buffer)@.len() == canvas.area(),
        forall|i: int|
            0 <= i < old(buffer)@.len() ==> #[trigger] old(buffer)@[i] == ground_pixel(
                *page,
                *canvas,
                i % canvas.width(),
                i / canvas.width(),
            ),
    ensures
        final(buffer)@.len() == canvas.area(),
        forall|i: int|
            0 <= i < final(buffer)@.len() ==> #[trigger] final(buffer)@[i] == pixel(
                *page,
                *canvas,
                i % canvas.width(),
                i / canvas.width(),
            ),
{
    let piece = match page.piece {
        None => {
            return ;
        },
        Some(piece) => piece,
    };
    proof {
        lemma_canvas(*canvas);
    }
    let size = canvas.block_size;
    let cells = piece.cells();
    let value = piece.kind.color().palette_index();
    let mut k: usize = 0;
    while k < 4
        invariant
            k <= 4,
            canvas.fits(),
            page.wf(),
            page.piece == Some(piece),
            page.spec_extent() < canvas.rows,
            size == canvas.block_size,
            size > 0,
            value == piece.kind.spec_color().spec_palette_index(),
            forall|j: int|
                0 <= j < 4 ==> (#[trigger] cells[j]).0 == piece.spec_cells()[j].0 && cells[j].1
                    == piece.spec_cells()[j].1,
            buffer@.len() == canvas.area(),
            forall|i: int|
                0 <= i < buffer@.len() ==> #[trigger] buffer@[i] == piece_stage(
                    *page,
                    *canvas,
                    piece,
                    k as int,
                    i % canvas.width(),
                    i / canvas.width(),
                ),
        decreases 4 - k,
    {
        let (cx, cy) = cells[k];
        proof {
            lemma_canvas(*canvas);
            let cell = piece.spec_cells()[k as int];
            assert(0 <= cell.0 < COLUMNS && 0 <= cell.1 < MAX_ROWS);
            assert(cell.1 <= piece.spec_top());
        }
        let col = cx as usize;
        let row = cy as usize;
        let ghost before = buffer@;
        fill_tile(buffer, canvas, col, row, value);
        proof {
            lemma_tile_on_canvas(*canvas, cx as int, cy as int);
            assert forall|i: int| 0 <= i < buffer@.len() implies #[trigger] buffer@[i]
                == piece_stage(
                *page,
                *canvas,
                piece,
                k + 1,
                i % canvas.width(),
                i / canvas.width(),
            ) by {
                let px = i % canvas.width();
                let py = i / canvas.width();
                lemma_tile_bounds(i, canvas.width(), canvas.height());
                lemma_tile(py, size as int, canvas.rows - 1 - row);
                let here = (canvas.column_at(px), canvas.row_at(py));
                assert(before[i] == piece_stage(*page, *canvas, piece, k as int, px, py));
                if piece.spec_cells()[k as int] == here {
                } else {
                    if exists|j: int| 0 <= j < k + 1 && #[trigger] piece.spec_cells()[j] == here {
                        let j = choose|j: int|
                            0 <= j < k + 1 && #[trigger] piece.spec_cells()[j] == here;
                        assert(0 <= j < k);
                    }
                }
            }
        }
        k += 1;
    }
}

/// Rasterises `page` on `canvas`: the field, then the garbage strip where
/// the canvas has one, then the active piece on top.
pub fn rasterize(page: &Page, canvas: &Canvas) -> (pixels: Vec<u8>)
    requires
        page.wf(),
        canvas.fits(),
        page.spec_extent() < canvas.rows,
    ensures
        pixels@ == frame(*page, *canvas),
{
    if canvas.block_size == 0 {
        let pixels: Vec<u8> = Vec::new();
        assert(canvas.area() == 0) by (nonlinear_arith)
            requires
                canvas.width() == 0,
                canvas.area() == canvas.width() * canvas.height(),
        ;
        assert(pixels@ =~= frame(*page, *canvas));
        return pixels;
    }
    proof {
        lemma_canvas(*canvas);
    }
    let size = canvas.block_size;
    let width = COLUMNS * size;
    let strip = if canvas.garbage {
        MARKER_HEIGHT + size
    } else {
        0
    };
    let height = canvas.rows * size + strip;
    let mut pixels: Vec<u8> = vec![0u8; width * height];
    paint_board(&mut pixels, page, canvas);
    if canvas.garbage {
        paint_strip(&mut pixels, page, canvas);
    } else {
        assert forall|i: int| 0 <= i < pixels@.len() implies #[trigger] pixels@[i] == ground_pixel(
            *page,
            *canvas,
            i % canvas.width(),
            i / canvas.width(),
        ) by {
            let py = i / canvas.width();
            lemma_pixel_index(canvas.width(), i);
            lemma_tile_bounds(i, canvas.width(), canvas.height());
            lemma_tile_bounds(py, size as int, canvas.rows as int);
        }
    }
    paint_piece(&mut pixels, page, canvas);
    assert(pixels@ =~= frame(*page, *canvas));
    pixels
}

} // verus!
