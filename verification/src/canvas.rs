//! The canvas that all frames of one animation share.

use crate::board::{Page, COLUMNS, MAX_ROWS};
use vstd::prelude::*;

verus! {

/// Height in pixels of the marker band that heads the garbage strip. It
/// does not grow with the block size.
pub const MARKER_HEIGHT: usize = 2;

/// The shared geometry of an animation: the edge of one cell in pixels, the
/// number of board rows shown, and whether a garbage strip lies below them.
#[derive(Clone, Copy, Debug, PartialEq, Eq, Structural)]
pub struct Canvas {
    pub block_size: usize,
    pub rows: usize,
    pub garbage: bool,
}

/// Whether any page of the sequence has a filled cell in its garbage row.
pub open spec fn any_garbage(pages: Seq<Page>) -> bool {
    exists|i: int| 0 <= i < pages.len() && (#[trigger] pages[i]).spec_has_garbage()
}

/// The largest extent among the pages, 0 for no pages.
pub open spec fn max_extent(pages: Seq<Page>) -> nat
    decreases pages.len(),
{
    if pages.len() == 0 {
        0
    } else {
        let rest = max_extent(pages.drop_last());
        let last = pages.last().spec_extent();
        if rest >= last {
            rest
        } else {
            last
        }
    }
}

/// No page of a sequence reaches higher than the largest extent.
pub proof fn lemma_max_extent_covers(pages: Seq<Page>, i: int)
    requires
        0 <= i < pages.len(),
    ensures
        pages[i].spec_extent() <= max_extent(pages),
    decreases pages.len(),
{
    if i < pages.len() - 1 {
        lemma_max_extent_covers(pages.drop_last(), i);
    }
}

/// The largest extent is the extent of one of the pages.
pub proof fn lemma_max_extent_attained(pages: Seq<Page>)
    requires
        pages.len() > 0,
    ensures
        exists|i: int| 0 <= i < pages.len() && (#[trigger] pages[i]).spec_extent() == max_extent(pages),
    decreases pages.len(),
{
    let rest = pages.drop_last();
    if rest.len() > 0 && max_extent(rest) >= pages.last().spec_extent() {
        lemma_max_extent_attained(rest);
        let i = choose|i: int| 0 <= i < rest.len() && (#[trigger] rest[i]).spec_extent() == max_extent(rest);
        assert(pages[i].spec_extent() == max_extent(pages));
    } else {
        if rest.len() == 0 {
            assert(max_extent(rest) == 0);
        }
        assert(pages.last() == pages[pages.len() - 1]);
        assert(pages[pages.len() - 1].spec_extent() == max_extent(pages));
    }
}

/// The number of board rows the canvas shows: one more than the largest
/// extent, so that the highest drawn row is on it.
pub open spec fn board_height(pages: Seq<Page>) -> nat {
    1 + max_extent(pages)
}

/// Whether every page of the sequence is well formed.
pub open spec fn all_wf(pages: Seq<Page>) -> bool {
    forall|i: int| 0 <= i < pages.len() ==> (#[trigger] pages[i]).wf()
}

impl Canvas {
    /// The canvas of a page sequence drawn with cells of `block_size` pixels.
    pub open spec fn of(pages: Seq<Page>, block_size: usize) -> Canvas {
        Canvas {
            block_size,
            rows: board_height(pages) as usize,
            garbage: any_garbage(pages),
        }
    }

    /// Width in pixels: ten cells.
    pub open spec fn width(self) -> int {
        COLUMNS * self.block_size
    }

    /// Height in pixels of the board rows.
    pub open spec fn board_px(self) -> int {
        self.rows * self.block_size
    }

    /// Height in pixels of the garbage strip: the marker band and a band of
    /// one cell's height below it, or nothing without a strip.
    pub open spec fn strip_px(self) -> int {
        if self.garbage {
            MARKER_HEIGHT + self.block_size
        } else {
            0
        }
    }

    /// Height in pixels: the board rows and the garbage strip.
    pub open spec fn height(self) -> int {
        self.board_px() + self.strip_px()
    }

    /// Number of pixels of one frame.
    pub open spec fn area(self) -> int {
        self.width() * self.height()
    }

    /// Whether both dimensions fit the 16 bits the container gives them and
    /// a frame's pixels can be held in memory.
    pub open spec fn fits(self) -> bool {
        &&& self.width() <= u16::MAX
        &&& self.height() <= u16::MAX
        &&& self.area() <= isize::MAX
    }

    /// Measures a page sequence: the rows reach the highest extent of any
    /// page, and one garbage row anywhere gives every frame the strip.
    pub fn measure(pages: &Vec<Page>, block_size: usize) -> (canvas: Canvas)
        requires
            all_wf(pages@),
        ensures
            canvas == Canvas::of(pages@, block_size),
            canvas.rows == board_height(pages@),
            canvas.rows <= MAX_ROWS,
    {
        let mut garbage = false;
        let mut top: usize = 0;
        let mut i: usize = 0;
        while i < pages.len()
            invariant
                i <= pages@.len(),
                all_wf(pages@),
                garbage == any_garbage(pages@.subrange(0, i as int)),
                top == max_extent(pages@.subrange(0, i as int)),
                top < MAX_ROWS,
            decreases pages@.len() - i,
        {
            let ghost before = pages@.subrange(0, i as int);
            let ghost after = pages@.subrange(0, i + 1);
            assert(pages@[i as int].wf());
            assert(after.drop_last() == before);
            assert(after.last() == pages@[i as int]);
            let page_garbage = pages[i].has_garbage();
            proof {
                if any_garbage(before) {
                    let k = choose|k: int| 0 <= k < before.len() && before[k].spec_has_garbage();
                    assert(after[k].spec_has_garbage());
                }
                if page_garbage {
                    assert(after[i as int].spec_has_garbage());
                }
                if any_garbage(after) {
                    let k = choose|k: int| 0 <= k < after.len() && after[k].spec_has_garbage();
                    if k < i {
                        assert(before[k].spec_has_garbage());
                    }
                }
            }
            if page_garbage {
                garbage = true;
            }
            let extent = pages[i].extent();
            if extent > top {
                top = extent;
            }
            i += 1;
        }
        assert(pages@.subrange(0, i as int) == pages@);
        Canvas { block_size, rows: top + 1, garbage }
    }

    /// The canvas width and height in pixels, where the canvas fits.
    pub fn dimensions(&self) -> (dims: Option<(u16, u16)>)
        ensures
            dims is Some <==> self.fits(),
            dims matches Some((w, h)) ==> w == self.width() && h == self.height(),
    {
        if self.block_size == 0 {
            let strip: u16 = if self.garbage {
                MARKER_HEIGHT as u16
            } else {
                0
            };
            assert(self.rows * self.block_size == 0) by (nonlinear_arith)
                requires
                    self.block_size == 0,
            ;
            return Some((0, strip));
        }
        if self.block_size > 6553 {
            return None;
        }
        if self.rows > 65535 {
            assert(self.rows * self.block_size >= self.rows) by (nonlinear_arith)
                requires
                    self.block_size >= 1,
            ;
            return None;
        }
        assert(self.rows * self.block_size <= 65535 * 6553) by (nonlinear_arith)
            requires
                self.rows <= 65535,
                self.block_size <= 6553,
        ;
        let strip: u64 = if self.garbage {
            MARKER_HEIGHT as u64 + self.block_size as u64
        } else {
            0
        };
        let width: u64 = COLUMNS as u64 * self.block_size as u64;
        let height: u64 = self.rows as u64 * self.block_size as u64 + strip;
        if height > 65535 {
            return None;
        }
        assert(width * height <= 65530 * 65535) by (nonlinear_arith)
            requires
                width <= 65530,
                height <= 65535,
        ;
        if width * height > isize::MAX as u64 {
            return None;
        }
        Some((width as u16, height as u16))
    }
}

} // verus!
