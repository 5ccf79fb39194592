//! Preparing a page for move analysis: what is handed to a move search,
//! and how many moves are played back.

use crate::board::{CellColor, Page, COLUMNS, MAX_ROWS};
use crate::queue::{parse_queue, Queue};
use vstd::prelude::*;

verus! {

/// Which cells of a board are filled, row 0 at the bottom.
pub type Occupancy = [[bool; 10]; 40];

/// Why pages cannot be analysed.
#[derive(Clone, Copy, Debug, PartialEq, Eq, Structural)]
pub enum AnalysisError {
    /// There is not exactly one page.
    NotOnePage,
    /// The page has no comment that states a queue.
    NoQueue,
    /// A row of the page is filled from side to side.
    CompleteRow,
}

impl AnalysisError {
    /// What to tell the user.
    pub fn message(&self) -> (text: &'static str)
        ensures
            text@ == (match self {
                AnalysisError::CompleteRow => "Fumen contains a complete row."@,
                _ => "Fumen should have 1 page and a queue comment."@,
            }),
    {
        match self {
            AnalysisError::CompleteRow => "Fumen contains a complete row.",
            _ => "Fumen should have 1 page and a queue comment.",
        }
    }
}

/// What a move search starts from.
#[derive(Clone, Debug, PartialEq, Eq)]
pub struct Analysis {
    /// The filled cells of the page.
    pub field: Occupancy,
    /// The pieces to play.
    pub queue: Queue,
    /// The number of moves to ask for.
    pub moves: usize,
}

/// Whether the cell in column `x` of row `y` is filled.
pub open spec fn occupied(page: Page, x: int, y: int) -> bool {
    page.cell(x, y) != CellColor::Empty
}

/// Whether row `y` is filled from side to side.
pub open spec fn row_complete(page: Page, y: int) -> bool {
    forall|x: int| 0 <= x < COLUMNS ==> #[trigger] occupied(page, x, y)
}

/// Whether some row of the page is filled from side to side.
pub open spec fn spec_has_complete_row(page: Page) -> bool {
    exists|y: int| 0 <= y < MAX_ROWS && #[trigger] row_complete(page, y)
}

/// Whether `field` marks exactly the filled cells of `page`.
pub open spec fn is_occupancy(field: Occupancy, page: Page) -> bool {
    forall|x: int, y: int|
        0 <= x < COLUMNS && 0 <= y < MAX_ROWS ==> field[y][x] == #[trigger] occupied(page, x, y)
}

/// Whether row `y` of `field` is filled from side to side.
pub open spec fn row_full(field: Occupancy, y: int) -> bool {
    forall|x: int| 0 <= x < COLUMNS ==> #[trigger] field[y][x]
}

/// Whether some row of `field` is filled from side to side.
pub open spec fn any_row_full(field: Occupancy) -> bool {
    exists|y: int| 0 <= y < MAX_ROWS && #[trigger] row_full(field, y)
}

/// Whether the comment of a page states a queue.
pub open spec fn states_queue(page: Page) -> bool {
    page.comment matches Some(comment) && exists|q: Queue| comment@ == #[trigger] q.spec_text()
}

/// The filled cells of the lowest `MAX_ROWS` rows of `page`.
pub fn occupancy(page: &Page) -> (field: Occupancy)
    ensures
        is_occupancy(field, *page),
{
    let mut field: Occupancy = [[false; 10]; 40];
    let rows = if page.field.len() < MAX_ROWS {
        page.field.len()
    } else {
        MAX_ROWS
    };
    let mut y: usize = 0;
    while y < rows
        invariant
            y <= rows,
            rows <= MAX_ROWS,
            rows <= page.field@.len(),
            rows == page.field@.len() || rows == MAX_ROWS,
            forall|x: int, k: int|
                0 <= x < COLUMNS && 0 <= k < y ==> field[k][x] == #[trigger] occupied(*page, x, k),
            forall|x: int, k: int| 0 <= x < COLUMNS && y <= k < MAX_ROWS ==> !#[trigger] field[k][x],
        decreases rows - y,
    {
        let mut row = [false; 10];
        let mut x: usize = 0;
        while x < COLUMNS
            invariant
                x <= COLUMNS,
                y < rows,
                rows <= page.field@.len(),
                forall|k: int| 0 <= k < x ==> #[trigger] row[k] == occupied(*page, k, y as int),
            decreases COLUMNS - x,
        {
            row[x] = page.field[y][x] != CellColor::Empty;
            x += 1;
        }
        field[y] = row;
        y += 1;
    }
    field
}

/// Whether some row of `field` is filled from side to side.
pub fn has_complete_row(field: &Occupancy) -> (complete: bool)
    ensures
        complete == any_row_full(*field),
{
    let mut y: usize = 0;
    while y < MAX_ROWS
        invariant
            y <= MAX_ROWS,
            forall|k: int| 0 <= k < y ==> !#[trigger] row_full(*field, k),
        decreases MAX_ROWS - y,
    {
        let mut x: usize = 0;
        while x < COLUMNS && field[y][x]
            invariant
                x <= COLUMNS,
                y < MAX_ROWS,
                forall|k: int| 0 <= k < x ==> #[trigger] field[y as int][k],
            decreases COLUMNS - x,
        {
            x += 1;
        }
        if x == COLUMNS {
            assert(row_full(*field, y as int));
            return true;
        }
        assert(!field[y as int][x as int]);
        y += 1;
    }
    false
}

/// Prepares the analysis of `pages`: there must be one page, its comment
/// must state a queue, and no row of it may be complete.
pub fn plan(pages: &Vec<Page>) -> (res: Result<Analysis, AnalysisError>)
    ensures
        res == Err::<Analysis, AnalysisError>(AnalysisError::NotOnePage) <==> pages@.len() != 1,
        res == Err::<Analysis, AnalysisError>(AnalysisError::NoQueue) <==> pages@.len() == 1
            && !states_queue(pages@[0]),
        res == Err::<Analysis, AnalysisError>(AnalysisError::CompleteRow) <==> pages@.len() == 1
            && states_queue(pages@[0]) && spec_has_complete_row(pages@[0]),
        res matches Ok(analysis) ==> {
            &&& pages@[0].comment matches Some(comment) && comment@ == analysis.queue.spec_text()
            &&& is_occupancy(analysis.field, pages@[0])
            &&& analysis.moves == analysis.queue.spec_moves()
        },
{
    if pages.len() != 1 {
        return Err(AnalysisError::NotOnePage);
    }
    let page = &pages[0];
    let queue = match &page.comment {
        None => {
            return Err(AnalysisError::NoQueue);
        },
        Some(comment) => match parse_queue(comment.as_str()) {
            None => {
                return Err(AnalysisError::NoQueue);
            },
            Some(queue) => queue,
        },
    };
    let field = occupancy(page);
    proof {
        if spec_has_complete_row(*page) {
            let y = choose|y: int| 0 <= y < MAX_ROWS && #[trigger] row_complete(*page, y);
            assert forall|x: int| 0 <= x < COLUMNS implies #[trigger] field[y][x] by {
                assert(occupied(*page, x, y));
            }
            assert(row_full(field, y));
        }
        if any_row_full(field) {
            let y = choose|y: int| 0 <= y < MAX_ROWS && #[trigger] row_full(field, y);
            assert forall|x: int| 0 <= x < COLUMNS implies #[trigger] occupied(*page, x, y) by {
                assert(field[y][x]);
            }
            assert(row_complete(*page, y));
        }
    }
    if has_complete_row(&field) {
        return Err(AnalysisError::CompleteRow);
    }
    let moves = queue.moves();
    Ok(Analysis { field, queue, moves })
}

} // verus!
