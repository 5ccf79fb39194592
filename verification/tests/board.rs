use fumen_render::board::{
    row_is_empty, CellColor, Page, Piece, PieceType, RotationState, COLUMNS, MAX_ROWS,
};

fn blank(rows: usize) -> Page {
    Page {
        piece: None,
        field: vec![[CellColor::Empty; 10]; rows],
        garbage_row: [CellColor::Empty; 10],
        comment: None,
    }
}

fn sorted(mut cells: [(i64, i64); 4]) -> [(i64, i64); 4] {
    cells.sort();
    cells
}

#[test]
fn palette_indices_follow_the_colour_order() {
    assert_eq!(CellColor::Empty.palette_index(), 0);
    assert_eq!(CellColor::I.palette_index(), 1);
    assert_eq!(CellColor::L.palette_index(), 2);
    assert_eq!(CellColor::O.palette_index(), 3);
    assert_eq!(CellColor::Z.palette_index(), 4);
    assert_eq!(CellColor::T.palette_index(), 5);
    assert_eq!(CellColor::J.palette_index(), 6);
    assert_eq!(CellColor::S.palette_index(), 7);
    assert_eq!(CellColor::Grey.palette_index(), 8);
}

#[test]
fn piece_colours_match_their_shapes() {
    assert_eq!(PieceType::I.color(), CellColor::I);
    assert_eq!(PieceType::L.color(), CellColor::L);
    assert_eq!(PieceType::O.color(), CellColor::O);
    assert_eq!(PieceType::Z.color(), CellColor::Z);
    assert_eq!(PieceType::T.color(), CellColor::T);
    assert_eq!(PieceType::J.color(), CellColor::J);
    assert_eq!(PieceType::S.color(), CellColor::S);
}

#[test]
fn spawn_offsets_of_every_shape() {
    assert_eq!(PieceType::I.offsets(), [(-1, 0), (0, 0), (1, 0), (2, 0)]);
    assert_eq!(PieceType::O.offsets(), [(0, 0), (1, 0), (0, 1), (1, 1)]);
    assert_eq!(PieceType::T.offsets(), [(-1, 0), (0, 0), (1, 0), (0, 1)]);
    assert_eq!(PieceType::L.offsets(), [(-1, 0), (0, 0), (1, 0), (1, 1)]);
    assert_eq!(PieceType::J.offsets(), [(-1, 0), (0, 0), (1, 0), (-1, 1)]);
    assert_eq!(PieceType::S.offsets(), [(-1, 0), (0, 0), (0, 1), (1, 1)]);
    assert_eq!(PieceType::Z.offsets(), [(1, 0), (0, 0), (0, 1), (-1, 1)]);
}

#[test]
fn turning_an_offset_by_quarter_turns() {
    assert_eq!(RotationState::North.turn((2, 1)), (2, 1));
    assert_eq!(RotationState::East.turn((2, 1)), (1, -2));
    assert_eq!(RotationState::South.turn((2, 1)), (-2, -1));
    assert_eq!(RotationState::West.turn((2, 1)), (-1, 2));
}

#[test]
fn cells_of_a_t_piece_in_all_orientations() {
    let at = |rotation| Piece { kind: PieceType::T, rotation, x: 4, y: 5 };
    assert_eq!(
        sorted(at(RotationState::North).cells()),
        [(3, 5), (4, 5), (4, 6), (5, 5)]
    );
    assert_eq!(
        sorted(at(RotationState::East).cells()),
        [(4, 4), (4, 5), (4, 6), (5, 5)]
    );
    assert_eq!(
        sorted(at(RotationState::South).cells()),
        [(3, 5), (4, 4), (4, 5), (5, 5)]
    );
    assert_eq!(
        sorted(at(RotationState::West).cells()),
        [(3, 5), (4, 4), (4, 5), (4, 6)]
    );
}

#[test]
fn cells_of_an_i_piece_standing_and_lying() {
    let lying = Piece { kind: PieceType::I, rotation: RotationState::North, x: 1, y: 0 };
    assert_eq!(lying.cells(), [(0, 0), (1, 0), (2, 0), (3, 0)]);
    let standing = Piece { kind: PieceType::I, rotation: RotationState::East, x: 9, y: 2 };
    assert_eq!(standing.cells(), [(9, 3), (9, 2), (9, 1), (9, 0)]);
}

#[test]
fn cells_do_not_wrap_for_large_anchors() {
    let piece = Piece { kind: PieceType::O, rotation: RotationState::North, x: u32::MAX, y: u32::MAX };
    let far = u32::MAX as i64;
    assert_eq!(piece.cells(), [(far, far), (far + 1, far), (far, far + 1), (far + 1, far + 1)]);
}

#[test]
fn a_row_is_empty_only_without_filled_cells() {
    let mut row = [CellColor::Empty; 10];
    assert!(row_is_empty(&row));
    row[9] = CellColor::Grey;
    assert!(!row_is_empty(&row));
}

#[test]
fn an_empty_page_has_extent_zero() {
    let page = Page::empty();
    assert!(page.is_valid());
    assert!(!page.has_garbage());
    assert_eq!(page.field_extent(), 0);
    assert_eq!(page.piece_extent(), 0);
    assert_eq!(page.extent(), 0);
    assert_eq!(blank(23).extent(), 0);
}

#[test]
fn field_extent_is_the_highest_filled_row() {
    let mut page = blank(23);
    page.field[0][0] = CellColor::Grey;
    assert_eq!(page.field_extent(), 0);
    page.field[7][3] = CellColor::T;
    assert_eq!(page.field_extent(), 7);
    page.field[22][9] = CellColor::I;
    assert_eq!(page.field_extent(), 22);
    assert_eq!(page.extent(), 22);
}

#[test]
fn empty_rows_above_the_top_do_not_count() {
    let mut page = blank(40);
    page.field[3][5] = CellColor::S;
    assert_eq!(page.field_extent(), 3);
    assert_eq!(page.extent(), 3);
}

#[test]
fn piece_extent_is_its_highest_cell() {
    let mut page = blank(23);
    page.piece = Some(Piece { kind: PieceType::L, rotation: RotationState::North, x: 4, y: 10 });
    assert_eq!(page.piece_extent(), 11);
    assert_eq!(page.extent(), 11);
    page.field[15][0] = CellColor::Grey;
    assert_eq!(page.extent(), 15);
    page.piece = Some(Piece { kind: PieceType::I, rotation: RotationState::West, x: 4, y: 20 });
    assert_eq!(page.piece_extent(), 22);
    assert_eq!(page.extent(), 22);
}

#[test]
fn garbage_is_seen_in_any_column() {
    let mut page = blank(23);
    assert!(!page.has_garbage());
    page.garbage_row[4] = CellColor::Grey;
    assert!(page.has_garbage());
}

#[test]
fn validity_bounds_the_field_and_the_piece() {
    assert_eq!(COLUMNS, 10);
    assert_eq!(MAX_ROWS, 40);
    assert!(blank(40).is_valid());
    assert!(!blank(41).is_valid());
    let with = |kind, rotation, x, y| {
        let mut page = blank(23);
        page.piece = Some(Piece { kind, rotation, x, y });
        page
    };
    assert!(with(PieceType::I, RotationState::North, 1, 0).is_valid());
    assert!(!with(PieceType::I, RotationState::North, 0, 0).is_valid());
    assert!(with(PieceType::I, RotationState::North, 7, 0).is_valid());
    assert!(!with(PieceType::I, RotationState::North, 8, 0).is_valid());
    assert!(!with(PieceType::T, RotationState::South, 4, 0).is_valid());
    assert!(with(PieceType::T, RotationState::South, 4, 1).is_valid());
    assert!(with(PieceType::O, RotationState::North, 8, 38).is_valid());
    assert!(!with(PieceType::O, RotationState::North, 8, 39).is_valid());
    assert!(!with(PieceType::O, RotationState::North, 9, 0).is_valid());
}
