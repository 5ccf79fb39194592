//! The board model: cell colours, piece placements and pages.

use vstd::prelude::*;

verus! {

/// Number of columns of every board row.
pub const COLUMNS: usize = 10;

/// Largest number of rows a page may address.
pub const MAX_ROWS: usize = 40;

/// The colour of one board cell.
#[derive(Clone, Copy, Debug, PartialEq, Eq, Structural)]
pub enum CellColor {
    Empty,
    I,
    L,
    O,
    Z,
    T,
    J,
    S,
    Grey,
}

impl CellColor {
    /// The index of this colour in the global palette. `Empty` is the
    /// background, index 0.
    pub open spec fn spec_palette_index(self) -> u8 {
        match self {
            CellColor::Empty => 0,
            CellColor::I => 1,
            CellColor::L => 2,
            CellColor::O => 3,
            CellColor::Z => 4,
            CellColor::T => 5,
            CellColor::J => 6,
            CellColor::S => 7,
            CellColor::Grey => 8,
        }
    }

    /// The index of this colour in the global palette.
    #[verifier::when_used_as_spec(spec_palette_index)]
    pub fn palette_index(self) -> (index: u8)
        ensures
            index == self.spec_palette_index(),
            index <= 8,
            index == 0 <==> self == CellColor::Empty,
    {
        match self {
            CellColor::Empty => 0,
            CellColor::I => 1,
            CellColor::L => 2,
            CellColor::O => 3,
            CellColor::Z => 4,
            CellColor::T => 5,
            CellColor::J => 6,
            CellColor::S => 7,
            CellColor::Grey => 8,
        }
    }
}

/// One of the seven tetromino shapes.
#[derive(Clone, Copy, Debug, PartialEq, Eq, Structural)]
pub enum PieceType {
    I,
    L,
    O,
    Z,
    T,
    J,
    S,
}

impl PieceType {
    /// The cell colour a piece of this shape is drawn in.
    pub open spec fn spec_color(self) -> CellColor {
        match self {
            PieceType::I => CellColor::I,
            PieceType::L => CellColor::L,
            PieceType::O => CellColor::O,
            PieceType::Z => CellColor::Z,
            PieceType::T => CellColor::T,
            PieceType::J => CellColor::J,
            PieceType::S => CellColor::S,
        }
    }

    /// The cell colour a piece of this shape is drawn in.
    #[verifier::when_used_as_spec(spec_color)]
    pub fn color(self) -> (color: CellColor)
        ensures
            color == self.spec_color(),
            color != CellColor::Empty,
    {
        match self {
            PieceType::I => CellColor::I,
            PieceType::L => CellColor::L,
            PieceType::O => CellColor::O,
            PieceType::Z => CellColor::Z,
            PieceType::T => CellColor::T,
            PieceType::J => CellColor::J,
            PieceType::S => CellColor::S,
        }
    }

    /// The letter that names the shape.
    pub open spec fn spec_letter(self) -> char {
        match self {
            PieceType::I => 'I',
            PieceType::L => 'L',
            PieceType::O => 'O',
            PieceType::Z => 'Z',
            PieceType::T => 'T',
            PieceType::J => 'J',
            PieceType::S => 'S',
        }
    }

    /// The letter that names the shape.
    #[verifier::when_used_as_spec(spec_letter)]
    pub fn letter(self) -> (letter: char)
        ensures
            letter == self.spec_letter(),
    {
        match self {
            PieceType::I => 'I',
            PieceType::L => 'L',
            PieceType::O => 'O',
            PieceType::Z => 'Z',
            PieceType::T => 'T',
            PieceType::J => 'J',
            PieceType::S => 'S',
        }
    }

    /// The shape that a letter names, if it names one.
    pub open spec fn spec_from_char(c: char) -> Option<PieceType> {
        if c == 'I' {
            Some(PieceType::I)
        } else if c == 'O' {
            Some(PieceType::O)
        } else if c == 'T' {
            Some(PieceType::T)
        } else if c == 'L' {
            Some(PieceType::L)
        } else if c == 'J' {
            Some(PieceType::J)
        } else if c == 'S' {
            Some(PieceType::S)
        } else if c == 'Z' {
            Some(PieceType::Z)
        } else {
            None
        }
    }

    /// The shape that a letter names, if it names one.
    #[verifier::when_used_as_spec(spec_from_char)]
    pub fn from_char(c: char) -> (piece: Option<PieceType>)
        ensures
            piece == PieceType::spec_from_char(c),
            piece matches Some(p) ==> p.spec_letter() == c,
            piece is None ==> forall|p: PieceType| #[trigger] p.spec_letter() != c,
    {
        match c {
            'I' => Some(PieceType::I),
            'O' => Some(PieceType::O),
            'T' => Some(PieceType::T),
            'L' => Some(PieceType::L),
            'J' => Some(PieceType::J),
            'S' => Some(PieceType::S),
            'Z' => Some(PieceType::Z),
            _ => None,
        }
    }

    /// The four cells of the shape in its spawn orientation, as
    /// (column, row) offsets from the anchor, rows counted upwards.
    pub open spec fn spec_offsets(self) -> Seq<(int, int)> {
        match self {
            PieceType::I => seq![(-1, 0), (0, 0), (1, 0), (2, 0)],
            PieceType::O => seq![(0, 0), (1, 0), (0, 1), (1, 1)],
            PieceType::T => seq![(-1, 0), (0, 0), (1, 0), (0, 1)],
            PieceType::L => seq![(-1, 0), (0, 0), (1, 0), (1, 1)],
            PieceType::J => seq![(-1, 0), (0, 0), (1, 0), (-1, 1)],
            PieceType::S => seq![(-1, 0), (0, 0), (0, 1), (1, 1)],
            PieceType::Z => seq![(1, 0), (0, 0), (0, 1), (-1, 1)],
        }
    }

    /// The four cells of the shape in its spawn orientation.
    pub fn offsets(self) -> (offsets: [(i64, i64); 4])
        ensures
            forall|i: int|
                0 <= i < 4 ==> (#[trigger] offsets[i]).0 == self.spec_offsets()[i].0
                    && offsets[i].1 == self.spec_offsets()[i].1,
            forall|i: int|
                0 <= i < 4 ==> -1 <= (#[trigger] offsets[i]).0 <= 2 && 0 <= offsets[i].1 <= 1,
    {
        match self {
            PieceType::I => [(-1, 0), (0, 0), (1, 0), (2, 0)],
            PieceType::O => [(0, 0), (1, 0), (0, 1), (1, 1)],
            PieceType::T => [(-1, 0), (0, 0), (1, 0), (0, 1)],
            PieceType::L => [(-1, 0), (0, 0), (1, 0), (1, 1)],
            PieceType::J => [(-1, 0), (0, 0), (1, 0), (-1, 1)],
            PieceType::S => [(-1, 0), (0, 0), (0, 1), (1, 1)],
            PieceType::Z => [(1, 0), (0, 0), (0, 1), (-1, 1)],
        }
    }
}

/// The four orientations of a piece.
#[derive(Clone, Copy, Debug, PartialEq, Eq, Structural)]
pub enum RotationState {
    North,
    East,
    South,
    West,
}

impl RotationState {
    /// Turns a spawn-orientation offset into this orientation: each step
    /// from `North` to `East`, `South` and `West` is a quarter turn clockwise.
    pub open spec fn spec_turn(self, offset: (int, int)) -> (int, int) {
        match self {
            RotationState::North => offset,
            RotationState::East => (offset.1, -offset.0),
            RotationState::South => (-offset.0, -offset.1),
            RotationState::West => (-offset.1, offset.0),
        }
    }

    /// Turns a spawn-orientation offset into this orientation.
    pub fn turn(self, offset: (i64, i64)) -> (turned: (i64, i64))
        requires
            offset.0 > i64::MIN,
            offset.1 > i64::MIN,
        ensures
            (turned.0 as int, turned.1 as int) == self.spec_turn((offset.0 as int, offset.1 as int)),
    {
        match self {
            RotationState::North => offset,
            RotationState::East => (offset.1, -offset.0),
            RotationState::South => (-offset.0, -offset.1),
            RotationState::West => (-offset.1, offset.0),
        }
    }
}

/// An active piece: shape, orientation and the board cell of its anchor.
#[derive(Clone, Copy, Debug, PartialEq, Eq, Structural)]
pub struct Piece {
    pub kind: PieceType,
    pub rotation: RotationState,
    /// Column of the anchor.
    pub x: u32,
    /// Row of the anchor, counted from the bottom.
    pub y: u32,
}

impl Piece {
    /// The four board cells the piece occupies, as (column, row).
    pub open spec fn spec_cells(self) -> Seq<(int, int)> {
        Seq::new(
            4,
            |i: int|
                {
                    let d = self.rotation.spec_turn(self.kind.spec_offsets()[i]);
                    (self.x + d.0, self.y + d.1)
                },
        )
    }

    /// Whether the piece occupies the cell in column `x` of row `y`.
    pub open spec fn covers(self, x: int, y: int) -> bool {
        exists|i: int| 0 <= i < 4 && #[trigger] self.spec_cells()[i] == (x, y)
    }

    /// Every occupied cell lies on the grid.
    pub open spec fn in_grid(self) -> bool {
        forall|i: int|
            0 <= i < 4 ==> 0 <= (#[trigger] self.spec_cells()[i]).0 < COLUMNS && 0
                <= self.spec_cells()[i].1 < MAX_ROWS
    }

    /// The highest row the piece occupies.
    pub open spec fn spec_top(self) -> int {
        let c = self.spec_cells();
        vstd::math::max(vstd::math::max(c[0].1, c[1].1), vstd::math::max(c[2].1, c[3].1))
    }

    /// The four board cells the piece occupies, as (column, row).
    pub fn cells(&self) -> (cells: [(i64, i64); 4])
        ensures
            forall|i: int|
                0 <= i < 4 ==> (#[trigger] cells[i]).0 == self.spec_cells()[i].0 && cells[i].1
                    == self.spec_cells()[i].1,
    {
        let base = self.kind.offsets();
        let x = self.x as i64;
        let y = self.y as i64;
        let d0 = self.rotation.turn(base[0]);
        let d1 = self.rotation.turn(base[1]);
        let d2 = self.rotation.turn(base[2]);
        let d3 = self.rotation.turn(base[3]);
        [(x + d0.0, y + d0.1), (x + d1.0, y + d1.1), (x + d2.0, y + d2.1), (x + d3.0, y + d3.1)]
    }
}

/// One row of board cells, from the left column to the right.
pub type Row = [CellColor; 10];

/// Whether every cell of `row` is empty.
pub open spec fn spec_row_is_empty(row: &Row) -> bool {
    forall|x: int| 0 <= x < COLUMNS ==> #[trigger] row[x] == CellColor::Empty
}

/// Whether every cell of `row` is empty.
#[verifier::when_used_as_spec(spec_row_is_empty)]
pub fn row_is_empty(row: &Row) -> (empty: bool)
    ensures
        empty == spec_row_is_empty(row),
{
    let mut x: usize = 0;
    while x < COLUMNS
        invariant
            x <= COLUMNS,
            forall|k: int| 0 <= k < x ==> #[trigger] row[k] == CellColor::Empty,
        decreases COLUMNS - x,
    {
        if row[x] != CellColor::Empty {
            return false;
        }
        x += 1;
    }
    true
}

/// One board state: the field with row 0 at the bottom, the garbage row
/// that lies below row 0, an active piece and a free-text comment.
///
/// Rows that the field does not hold are empty, and a garbage row of empty
/// cells is the same as none.
#[derive(Clone, Debug, PartialEq, Eq)]
pub struct Page {
    pub piece: Option<Piece>,
    pub field: Vec<Row>,
    pub garbage_row: Row,
    pub comment: Option<String>,
}

impl Page {
    /// The colour of the field cell in column `x` of row `y`.
    pub open spec fn cell(&self, x: int, y: int) -> CellColor {
        if 0 <= y < self.field@.len() && 0 <= x < COLUMNS {
            self.field@[y][x]
        } else {
            CellColor::Empty
        }
    }

    /// Whether row `y` of the field holds a filled cell.
    pub open spec fn row_filled(&self, y: int) -> bool {
        0 <= y < self.field@.len() && !spec_row_is_empty(&self.field@[y])
    }

    /// The highest filled row among the lowest `n` rows of the field, or 0
    /// where none of them is filled.
    pub open spec fn top_filled_below(&self, n: nat) -> nat
        decreases n,
    {
        if n == 0 {
            0
        } else if self.row_filled(n - 1) {
            (n - 1) as nat
        } else {
            self.top_filled_below((n - 1) as nat)
        }
    }

    /// The highest filled row of the field, or 0 for an empty field.
    pub open spec fn spec_field_extent(&self) -> nat {
        self.top_filled_below(self.field@.len())
    }

    /// The highest row the active piece occupies, or 0 without a piece.
    pub open spec fn spec_piece_extent(&self) -> nat {
        match self.piece {
            Some(piece) => if piece.spec_top() > 0 {
                piece.spec_top() as nat
            } else {
                0
            },
            None => 0,
        }
    }

    /// The highest row this page draws on: the larger of the field's and
    /// the piece's extent.
    pub open spec fn spec_extent(&self) -> nat {
        if self.spec_field_extent() >= self.spec_piece_extent() {
            self.spec_field_extent()
        } else {
            self.spec_piece_extent()
        }
    }

    /// Whether the garbage row holds a filled cell.
    pub open spec fn spec_has_garbage(&self) -> bool {
        !spec_row_is_empty(&self.garbage_row)
    }

    /// A page is well formed when its field has at most `MAX_ROWS` rows and
    /// its piece, if any, lies on the grid.
    pub open spec fn wf(&self) -> bool {
        &&& self.field@.len() <= MAX_ROWS
        &&& self.piece matches Some(piece) ==> piece.in_grid()
    }

    /// A page without piece, comment, garbage or filled cell.
    pub fn empty() -> (page: Page)
        ensures
            page.wf(),
            page.piece is None,
            page.comment is None,
            page.field@.len() == 0,
            !page.spec_has_garbage(),
            page.spec_extent() == 0,
    {
        Page { piece: None, field: Vec::new(), garbage_row: [CellColor::Empty; 10], comment: None }
    }

    /// Whether the garbage row holds a filled cell.
    #[verifier::when_used_as_spec(spec_has_garbage)]
    pub fn has_garbage(&self) -> (garbage: bool)
        ensures
            garbage == self.spec_has_garbage(),
    {
        !row_is_empty(&self.garbage_row)
    }

    /// Whether the page is well formed.
    pub fn is_valid(&self) -> (valid: bool)
        ensures
            valid == self.wf(),
    {
        if self.field.len() > MAX_ROWS {
            return false;
        }
        match self.piece {
            None => true,
            Some(piece) => {
                let cells = piece.cells();
                let mut i: usize = 0;
                while i < 4
                    invariant
                        i <= 4,
                        self.piece == Some(piece),
                        self.field@.len() <= MAX_ROWS,
                        forall|k: int|
                            0 <= k < 4 ==> (#[trigger] cells[k]).0 == piece.spec_cells()[k].0
                                && cells[k].1 == piece.spec_cells()[k].1,
                        forall|k: int|
                            0 <= k < i ==> 0 <= (#[trigger] piece.spec_cells()[k]).0 < COLUMNS
                                && 0 <= piece.spec_cells()[k].1 < MAX_ROWS,
                    decreases 4 - i,
                {
                    let (cx, cy) = cells[i];
                    if cx < 0 || cx >= COLUMNS as i64 || cy < 0 || cy >= MAX_ROWS as i64 {
                        assert(!(0 <= piece.spec_cells()[i as int].0 < COLUMNS && 0
                            <= piece.spec_cells()[i as int].1 < MAX_ROWS));
                        return false;
                    }
                    i += 1;
                }
                true
            },
        }
    }

    /// The field's extent is a row of the field unless the field is empty,
    /// that row is filled unless the extent is 0, and no row above it is.
    pub proof fn lemma_field_extent(&self)
        ensures
            self.spec_field_extent() == 0 || self.row_filled(self.spec_field_extent() as int),
            forall|y: int| y > self.spec_field_extent() ==> !self.row_filled(y),
    {
        self.lemma_top_filled_below(self.field@.len());
    }

    /// What the highest filled row among the lowest `n` rows is.
    proof fn lemma_top_filled_below(&self, n: nat)
        requires
            n <= self.field@.len(),
        ensures
            self.top_filled_below(n) == 0 || self.row_filled(self.top_filled_below(n) as int),
            self.top_filled_below(n) == 0 || self.top_filled_below(n) < n,
            forall|y: int| self.top_filled_below(n) < y < n ==> !self.row_filled(y),
        decreases n,
    {
        if n > 0 && !self.row_filled(n - 1) {
            self.lemma_top_filled_below((n - 1) as nat);
        }
    }

    /// The highest filled row of the field, or 0 for an empty field.
    pub fn field_extent(&self) -> (extent: usize)
        ensures
            extent == self.spec_field_extent(),
    {
        let mut n: usize = self.field.len();
        while n > 0
            invariant
                n <= self.field@.len(),
                self.spec_field_extent() == self.top_filled_below(n as nat),
            decreases n,
        {
            if !row_is_empty(&self.field[n - 1]) {
                return n - 1;
            }
            n -= 1;
        }
        0
    }

    /// The highest row the active piece occupies, or 0 without a piece.
    pub fn piece_extent(&self) -> (extent: usize)
        requires
            self.wf(),
        ensures
            extent == self.spec_piece_extent(),
            extent < MAX_ROWS,
    {
        match self.piece {
            None => 0,
            Some(piece) => {
                let cells = piece.cells();
                let mut top: i64 = cells[0].1;
                if cells[1].1 > top {
                    top = cells[1].1;
                }
                if cells[2].1 > top {
                    top = cells[2].1;
                }
                if cells[3].1 > top {
                    top = cells[3].1;
                }
                assert(top == piece.spec_top());
                assert(0 <= piece.spec_cells()[0].1 < MAX_ROWS);
                assert(0 <= piece.spec_cells()[1].1 < MAX_ROWS);
                assert(0 <= piece.spec_cells()[2].1 < MAX_ROWS);
                assert(0 <= piece.spec_cells()[3].1 < MAX_ROWS);
                top as usize
            },
        }
    }

    /// The highest row this page draws on; 0 for a page with nothing on it.
    pub fn extent(&self) -> (extent: usize)
        requires
            self.wf(),
        ensures
            extent == self.spec_extent(),
            extent < MAX_ROWS,
    {
        proof {
            self.lemma_top_filled_below(self.field@.len());
        }
        let field = self.field_extent();
        let piece = self.piece_extent();
        if field >= piece {
            field
        } else {
            piece
        }
    }
}

} // verus!
