use fumen_render::board::{CellColor, Page, Piece, PieceType, RotationState};
use fumen_render::canvas::{Canvas, MARKER_HEIGHT};

fn blank() -> Page {
    Page {
        piece: None,
        field: vec![[CellColor::Empty; 10]; 23],
        garbage_row: [CellColor::Empty; 10],
        comment: None,
    }
}

fn filled_up_to(row: usize) -> Page {
    let mut page = blank();
    page.field[row][0] = CellColor::Grey;
    page
}

fn with_garbage() -> Page {
    let mut page = blank();
    page.garbage_row[2] = CellColor::Grey;
    page
}

#[test]
fn one_empty_page_gives_one_row() {
    let canvas = Canvas::measure(&vec![Page::empty()], 24);
    assert_eq!(canvas, Canvas { block_size: 24, rows: 1, garbage: false });
    assert_eq!(canvas.dimensions(), Some((240, 24)));
    let canvas = Canvas::measure(&vec![blank()], 7);
    assert_eq!(canvas.dimensions(), Some((70, 7)));
}

#[test]
fn width_is_ten_cells_whatever_the_pages() {
    for block_size in [1usize, 2, 24, 100] {
        for pages in [vec![blank()], vec![filled_up_to(9), with_garbage()], vec![filled_up_to(22)]] {
            let (width, _) = Canvas::measure(&pages, block_size).dimensions().unwrap();
            assert_eq!(width as usize, 10 * block_size);
        }
    }
}

#[test]
fn rows_are_one_more_than_the_largest_extent() {
    let pages = vec![filled_up_to(3), filled_up_to(11), filled_up_to(0)];
    let canvas = Canvas::measure(&pages, 24);
    assert_eq!(canvas.rows, 12);
    assert_eq!(canvas.dimensions(), Some((240, 12 * 24)));
}

#[test]
fn one_more_row_is_one_more_cell_of_height() {
    for block_size in [1usize, 5, 24] {
        for extent in 0..22 {
            let low = Canvas::measure(&vec![blank(), filled_up_to(extent)], block_size);
            let high = Canvas::measure(&vec![blank(), filled_up_to(extent + 1)], block_size);
            let (_, low) = low.dimensions().unwrap();
            let (_, high) = high.dimensions().unwrap();
            assert_eq!(high as usize, low as usize + block_size);
        }
    }
}

#[test]
fn a_lower_page_that_grows_leaves_the_canvas() {
    let before = Canvas::measure(&vec![filled_up_to(10), filled_up_to(2)], 24);
    let after = Canvas::measure(&vec![filled_up_to(10), filled_up_to(3)], 24);
    assert_eq!(before, after);
}

#[test]
fn the_piece_counts_towards_the_rows() {
    let mut page = filled_up_to(2);
    page.piece = Some(Piece { kind: PieceType::I, rotation: RotationState::West, x: 5, y: 6 });
    let canvas = Canvas::measure(&vec![blank(), page], 24);
    assert_eq!(canvas.rows, 9);
}

#[test]
fn one_garbage_row_gives_the_strip() {
    assert_eq!(MARKER_HEIGHT, 2);
    let canvas = Canvas::measure(&vec![blank(), with_garbage(), blank()], 24);
    assert!(canvas.garbage);
    assert_eq!(canvas.rows, 1);
    assert_eq!(canvas.dimensions(), Some((240, 24 + 2 + 24)));
    let canvas = Canvas::measure(&vec![blank(), blank()], 24);
    assert!(!canvas.garbage);
    assert_eq!(canvas.dimensions(), Some((240, 24)));
}

#[test]
fn dimensions_must_fit_sixteen_bits() {
    let canvas = |block_size, rows, garbage| Canvas { block_size, rows, garbage };
    assert_eq!(canvas(6553, 1, false).dimensions(), Some((65530, 6553)));
    assert_eq!(canvas(6554, 1, false).dimensions(), None);
    assert_eq!(canvas(1638, 40, false).dimensions(), Some((16380, 65520)));
    assert_eq!(canvas(1638, 40, true).dimensions(), None);
    assert_eq!(canvas(1639, 40, false).dimensions(), None);
    assert_eq!(canvas(1, 65535, false).dimensions(), Some((10, 65535)));
    assert_eq!(canvas(1, 65533, true).dimensions(), None);
    assert_eq!(canvas(1, 65532, true).dimensions(), Some((10, 65535)));
    assert_eq!(canvas(1, 65536, false).dimensions(), None);
    assert_eq!(canvas(usize::MAX, usize::MAX, true).dimensions(), None);
}

#[test]
fn a_block_size_of_zero_gives_an_empty_canvas() {
    let canvas = Canvas::measure(&vec![filled_up_to(5)], 0);
    assert_eq!(canvas.dimensions(), Some((0, 0)));
    let canvas = Canvas::measure(&vec![with_garbage()], 0);
    assert_eq!(canvas.dimensions(), Some((0, 2)));
}
