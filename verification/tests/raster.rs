use fumen_render::board::{CellColor, Page, Piece, PieceType, RotationState};
use fumen_render::canvas::Canvas;
use fumen_render::raster::{fill_rect, fill_tile, rasterize, MARKER_INDEX};

fn blank() -> Page {
    Page {
        piece: None,
        field: vec![[CellColor::Empty; 10]; 23],
        garbage_row: [CellColor::Empty; 10],
        comment: None,
    }
}

fn at(pixels: &[u8], width: usize, px: usize, py: usize) -> u8 {
    pixels[py * width + px]
}

#[test]
fn fill_rect_paints_exactly_the_rectangle() {
    let mut buffer = vec![0u8; 5 * 4];
    fill_rect(&mut buffer, 5, 1, 1, 3, 2, 7);
    assert_eq!(
        buffer,
        vec![
            0, 0, 0, 0, 0, //
            0, 7, 7, 7, 0, //
            0, 7, 7, 7, 0, //
            0, 0, 0, 0, 0,
        ]
    );
}

#[test]
fn fill_rect_overwrites_and_keeps_the_rest() {
    let mut buffer: Vec<u8> = (0..12).collect();
    fill_rect(&mut buffer, 4, 2, 0, 2, 3, 99);
    assert_eq!(buffer, vec![0, 1, 99, 99, 4, 5, 99, 99, 8, 9, 99, 99]);
    fill_rect(&mut buffer, 4, 0, 1, 0, 2, 50);
    fill_rect(&mut buffer, 4, 0, 1, 4, 0, 50);
    assert_eq!(buffer, vec![0, 1, 99, 99, 4, 5, 99, 99, 8, 9, 99, 99]);
}

#[test]
fn fill_tile_counts_rows_from_the_bottom() {
    let canvas = Canvas { block_size: 2, rows: 3, garbage: true };
    let mut buffer = vec![0u8; 20 * 10];
    fill_tile(&mut buffer, &canvas, 0, 0, 5);
    fill_tile(&mut buffer, &canvas, 9, 2, 7);
    fill_tile(&mut buffer, &canvas, 4, 1, 1);
    for py in 0..10 {
        for px in 0..20 {
            let expected = match (px / 2, py / 2) {
                (0, 2) => 5,
                (9, 0) => 7,
                (4, 1) => 1,
                _ => 0,
            };
            assert_eq!(at(&buffer, 20, px, py), expected, "px {px} py {py}");
        }
    }
}

#[test]
fn fill_tile_overwrites_one_tile_only() {
    let canvas = Canvas { block_size: 3, rows: 1, garbage: false };
    let mut buffer = vec![4u8; 30 * 3];
    fill_tile(&mut buffer, &canvas, 5, 0, 0);
    for py in 0..3 {
        for px in 0..30 {
            let expected = if px / 3 == 5 { 0 } else { 4 };
            assert_eq!(at(&buffer, 30, px, py), expected);
        }
    }
    let empty = Canvas { block_size: 0, rows: 1, garbage: false };
    let mut nothing: Vec<u8> = Vec::new();
    fill_tile(&mut nothing, &empty, 5, 0, 1);
    assert!(nothing.is_empty());
}

#[test]
fn an_empty_page_is_all_background() {
    let page = Page::empty();
    let canvas = Canvas::measure(&vec![Page::empty()], 24);
    let pixels = rasterize(&page, &canvas);
    assert_eq!(pixels.len(), 240 * 24);
    assert!(pixels.iter().all(|&p| p == 0));
}

#[test]
fn row_zero_is_the_last_tile_row() {
    for rows in [1usize, 2, 5, 23] {
        let mut page = blank();
        page.field[0][3] = CellColor::T;
        page.field[rows - 1][0] = CellColor::Grey;
        let canvas = Canvas { block_size: 4, rows, garbage: false };
        let pixels = rasterize(&page, &canvas);
        let width = 40;
        assert_eq!(pixels.len(), width * rows * 4);
        for py in 0..rows * 4 {
            for px in 0..width {
                let bottom = py >= (rows - 1) * 4;
                let top = py < 4;
                let expected = if bottom && (12..16).contains(&px) {
                    5
                } else if top && px < 4 {
                    8
                } else {
                    0
                };
                assert_eq!(at(&pixels, width, px, py), expected, "rows {rows} px {px} py {py}");
            }
        }
    }
}

#[test]
fn every_cell_fills_its_own_tile() {
    let colours = [
        CellColor::I,
        CellColor::L,
        CellColor::O,
        CellColor::Z,
        CellColor::T,
        CellColor::J,
        CellColor::S,
        CellColor::Grey,
        CellColor::Empty,
        CellColor::I,
    ];
    let mut page = blank();
    page.field[1] = colours;
    let canvas = Canvas { block_size: 3, rows: 3, garbage: false };
    let pixels = rasterize(&page, &canvas);
    for py in 0..9 {
        for px in 0..30 {
            let expected = if (3..6).contains(&py) { colours[px / 3].palette_index() } else { 0 };
            assert_eq!(at(&pixels, 30, px, py), expected);
        }
    }
}

#[test]
fn the_piece_hides_the_cell_below_it() {
    let mut page = blank();
    page.field[0] = [CellColor::Grey; 10];
    page.piece = Some(Piece { kind: PieceType::O, rotation: RotationState::North, x: 4, y: 0 });
    let canvas = Canvas::measure(&vec![page.clone()], 2);
    assert_eq!(canvas.rows, 2);
    let pixels = rasterize(&page, &canvas);
    for py in 0..4 {
        for px in 0..20 {
            let column = px / 2;
            let row = 1 - py / 2;
            let expected = if column == 4 || column == 5 {
                3
            } else if row == 0 {
                8
            } else {
                0
            };
            assert_eq!(at(&pixels, 20, px, py), expected);
        }
    }
}

#[test]
fn the_strip_has_a_marker_band_above_the_garbage_colours() {
    let mut page = blank();
    page.field[0][0] = CellColor::J;
    page.garbage_row[1] = CellColor::Grey;
    page.garbage_row[9] = CellColor::Z;
    let canvas = Canvas::measure(&vec![page.clone()], 3);
    assert_eq!(canvas.dimensions(), Some((30, 3 + 2 + 3)));
    let pixels = rasterize(&page, &canvas);
    assert_eq!(pixels.len(), 30 * 8);
    for py in 0..8 {
        for px in 0..30 {
            let column = px / 3;
            let expected = if py < 3 {
                if column == 0 { 6 } else { 0 }
            } else if py < 5 {
                MARKER_INDEX
            } else if column == 1 {
                8
            } else if column == 9 {
                4
            } else {
                0
            };
            assert_eq!(at(&pixels, 30, px, py), expected, "px {px} py {py}");
        }
    }
    assert_eq!(MARKER_INDEX, 9);
}

#[test]
fn a_page_without_garbage_keeps_the_marker_and_a_blank_band() {
    let mut other = blank();
    other.garbage_row[0] = CellColor::Grey;
    let page = blank();
    let canvas = Canvas::measure(&vec![page.clone(), other], 4);
    let pixels = rasterize(&page, &canvas);
    assert_eq!(pixels.len(), 40 * 10);
    for py in 0..10 {
        for px in 0..40 {
            let expected = if (4..6).contains(&py) { 9 } else { 0 };
            assert_eq!(at(&pixels, 40, px, py), expected);
        }
    }
}

#[test]
fn a_marker_is_no_higher_than_a_cell() {
    let mut page = blank();
    page.garbage_row = [CellColor::S; 10];
    let canvas = Canvas::measure(&vec![page.clone()], 1);
    assert_eq!(canvas.dimensions(), Some((10, 4)));
    let pixels = rasterize(&page, &canvas);
    let mut expected = vec![0u8; 10];
    expected.extend(vec![9u8; 10]);
    expected.extend(vec![0u8; 10]);
    expected.extend(vec![7u8; 10]);
    assert_eq!(pixels, expected);
}

#[test]
fn rows_that_the_field_does_not_hold_are_background() {
    let mut page = Page::empty();
    page.field.push([CellColor::L; 10]);
    page.piece = Some(Piece { kind: PieceType::I, rotation: RotationState::North, x: 1, y: 2 });
    let canvas = Canvas::measure(&vec![page.clone()], 1);
    assert_eq!(canvas.rows, 3);
    let pixels = rasterize(&page, &canvas);
    let mut expected = vec![1, 1, 1, 1, 0, 0, 0, 0, 0, 0];
    expected.extend(vec![0u8; 10]);
    expected.extend(vec![2u8; 10]);
    assert_eq!(pixels, expected);
}

#[test]
fn a_block_size_of_zero_gives_no_pixels() {
    let mut page = blank();
    page.garbage_row[0] = CellColor::Grey;
    let canvas = Canvas::measure(&vec![page.clone()], 0);
    assert_eq!(rasterize(&page, &canvas), Vec::<u8>::new());
}
