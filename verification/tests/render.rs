use fumen_render::board::{CellColor, Page, Piece, PieceType, RotationState};
use fumen_render::canvas::Canvas;
use fumen_render::raster::rasterize;
use fumen_render::render::{
    pages_valid, render_fumen, RenderError, BASE_DELAY, BLOCK_SIZE, GLOBAL_PALETTE,
};

fn blank() -> Page {
    Page {
        piece: None,
        field: vec![[CellColor::Empty; 10]; 23],
        garbage_row: [CellColor::Empty; 10],
        comment: None,
    }
}

fn sample() -> Vec<Page> {
    let mut first = blank();
    first.field[0] = [CellColor::Grey; 10];
    first.field[0][4] = CellColor::Empty;
    first.field[1][0] = CellColor::Z;
    let mut second = first.clone();
    second.piece = Some(Piece { kind: PieceType::I, rotation: RotationState::East, x: 4, y: 2 });
    second.comment = Some("speed=2.0".to_string());
    let mut third = first.clone();
    third.garbage_row[3] = CellColor::Grey;
    vec![first, second, third]
}

struct Decoded {
    width: u16,
    height: u16,
    palette: Vec<u8>,
    frames: Vec<(u16, u16, u16, u16, u16, Vec<u8>)>,
}

fn decode(bytes: &[u8]) -> Decoded {
    let mut options = gif::DecodeOptions::new();
    options.set_color_output(gif::ColorOutput::Indexed);
    let mut reader = options.read_info(bytes).unwrap();
    let mut frames = Vec::new();
    while let Some(frame) = reader.read_next_frame().unwrap() {
        frames.push((
            frame.left,
            frame.top,
            frame.width,
            frame.height,
            frame.delay,
            frame.buffer.to_vec(),
        ));
    }
    Decoded {
        width: reader.width(),
        height: reader.height(),
        palette: reader.global_palette().unwrap().to_vec(),
        frames,
    }
}

#[test]
fn the_constants_of_the_renderer() {
    assert_eq!(BLOCK_SIZE, 24);
    assert_eq!(BASE_DELAY, 50);
    assert_eq!(GLOBAL_PALETTE.len(), 30);
    assert_eq!(&GLOBAL_PALETTE[..3], &[0x40, 0x40, 0x40]);
    assert_eq!(&GLOBAL_PALETTE[27..], &[0x10, 0x10, 0x10]);
}

#[test]
fn an_empty_page_renders_one_background_frame() {
    let bytes = render_fumen(&vec![Page::empty()], 24, 50).unwrap();
    let decoded = decode(&bytes);
    assert_eq!((decoded.width, decoded.height), (240, 24));
    assert_eq!(decoded.frames.len(), 1);
    let (left, top, width, height, delay, pixels) = &decoded.frames[0];
    assert_eq!((*left, *top, *width, *height, *delay), (0, 0, 240, 24, 50));
    assert_eq!(pixels.len(), 240 * 24);
    assert!(pixels.iter().all(|&p| p == 0));
}

#[test]
fn the_stream_starts_with_the_screen_and_the_palette() {
    let bytes = render_fumen(&sample(), 24, 50).unwrap();
    assert_eq!(&bytes[..6], b"GIF89a");
    assert_eq!(&bytes[6..8], &240u16.to_le_bytes());
    assert_eq!(&bytes[8..10], &(4 * 24 + 2 + 24u16).to_le_bytes());
    assert_eq!(&bytes[13..43], &GLOBAL_PALETTE[..]);
    assert_eq!(&bytes[43..61], &[0u8; 18]);
}

#[test]
fn the_screen_descriptor_sizes_the_palette() {
    let bytes = render_fumen(&sample(), 24, 50).unwrap();
    assert_eq!(&bytes[10..13], &[0x80 + 3 + 16 * 3, 0, 0]);
}

#[test]
fn every_frame_is_headed_by_its_delay_and_the_canvas() {
    for (block_size, delay) in [(1usize, 0u16), (3, 50), (24, 25), (30, 0x1234)] {
        let pages = sample();
        let bytes = render_fumen(&pages, block_size, delay).unwrap();
        let canvas = Canvas::measure(&pages, block_size);
        let (width, height) = canvas.dimensions().unwrap();
        let mut head = vec![0x21, 0xF9, 0x04, 0x04];
        head.extend_from_slice(&delay.to_le_bytes());
        head.extend_from_slice(&[0x00, 0x00, 0x2C, 0x00, 0x00, 0x00, 0x00]);
        head.extend_from_slice(&width.to_le_bytes());
        head.extend_from_slice(&height.to_le_bytes());
        head.push(0x00);
        let mut at = 80;
        for _ in &pages {
            assert_eq!(&bytes[at..at + 18], &head[..]);
            at += 19;
            while bytes[at] != 0 {
                at += 1 + bytes[at] as usize;
            }
            at += 1;
        }
        assert_eq!(bytes[at], 0x3B);
        assert_eq!(at + 1, bytes.len());
    }
}

#[test]
fn the_stream_loops_forever_and_ends_with_the_trailer() {
    let bytes = render_fumen(&sample(), 24, 50).unwrap();
    let mut looping = vec![0x21, 0xFF, 0x0B];
    looping.extend_from_slice(b"NETSCAPE2.0");
    looping.extend_from_slice(&[0x03, 0x01, 0x00, 0x00, 0x00]);
    assert_eq!(&bytes[61..80], &looping[..]);
    assert_eq!(bytes[80], 0x21);
    assert_eq!(*bytes.last().unwrap(), 0x3B);
}

#[test]
fn every_frame_has_the_canvas_of_the_sequence() {
    let pages = sample();
    for block_size in [1usize, 3, 24] {
        let bytes = render_fumen(&pages, block_size, 25).unwrap();
        let decoded = decode(&bytes);
        let canvas = Canvas::measure(&pages, block_size);
        let (width, height) = canvas.dimensions().unwrap();
        assert_eq!(width as usize, 10 * block_size);
        assert_eq!(canvas.rows, 4);
        assert_eq!(height as usize, 4 * block_size + 2 + block_size);
        assert_eq!((decoded.width, decoded.height), (width, height));
        assert_eq!(decoded.palette[..30], GLOBAL_PALETTE[..]);
        assert_eq!(decoded.frames.len(), pages.len());
        for (page, frame) in pages.iter().zip(&decoded.frames) {
            assert_eq!((frame.0, frame.1, frame.2, frame.3, frame.4), (0, 0, width, height, 25));
            assert_eq!(frame.5, rasterize(page, &canvas));
        }
    }
}

#[test]
fn the_delay_is_written_to_every_frame() {
    for delay in [0u16, 1, 25, 50, 65535] {
        let decoded = decode(&render_fumen(&sample(), 2, delay).unwrap());
        assert!(decoded.frames.iter().all(|frame| frame.4 == delay));
    }
}

#[test]
fn the_piece_is_drawn_over_filled_cells() {
    let mut page = blank();
    page.field[0] = [CellColor::Grey; 10];
    page.piece = Some(Piece { kind: PieceType::T, rotation: RotationState::North, x: 1, y: 0 });
    let decoded = decode(&render_fumen(&vec![page], 1, 50).unwrap());
    assert_eq!((decoded.width, decoded.height), (10, 2));
    assert_eq!(
        decoded.frames[0].5,
        vec![
            0, 5, 0, 0, 0, 0, 0, 0, 0, 0, //
            5, 5, 5, 8, 8, 8, 8, 8, 8, 8,
        ]
    );
}

#[test]
fn rendering_twice_gives_the_same_bytes() {
    let pages = vec![sample().remove(1)];
    let first = render_fumen(&pages, 24, 50).unwrap();
    let second = render_fumen(&pages, 24, 50).unwrap();
    assert_eq!(first, second);
    let all = sample();
    assert_eq!(render_fumen(&all, 24, 50), render_fumen(&all, 24, 50));
}

#[test]
fn no_pages_cannot_be_rendered() {
    assert_eq!(render_fumen(&vec![], 24, 50), Err(RenderError::Geometry));
}

#[test]
fn a_piece_off_the_grid_cannot_be_rendered() {
    let mut page = blank();
    page.piece = Some(Piece { kind: PieceType::I, rotation: RotationState::North, x: 0, y: 0 });
    assert!(!pages_valid(&vec![blank(), page.clone()]));
    assert_eq!(render_fumen(&vec![blank(), page], 24, 50), Err(RenderError::Geometry));
    assert!(pages_valid(&vec![blank(), blank()]));
    assert!(pages_valid(&vec![]));
}

#[test]
fn a_field_of_too_many_rows_cannot_be_rendered() {
    let mut page = blank();
    page.field = vec![[CellColor::Empty; 10]; 41];
    assert_eq!(render_fumen(&vec![page], 24, 50), Err(RenderError::Geometry));
}

#[test]
fn a_canvas_beyond_sixteen_bits_cannot_be_rendered() {
    assert_eq!(render_fumen(&vec![blank()], 6554, 50), Err(RenderError::Geometry));
    let mut high = blank();
    high.field[22][0] = CellColor::Grey;
    assert_eq!(render_fumen(&vec![high.clone()], 2850, 50), Err(RenderError::Geometry));
    assert!(render_fumen(&vec![high], 100, 50).is_ok());
}

#[test]
fn a_block_size_of_zero_renders_frames_without_pixels() {
    let bytes = render_fumen(&sample(), 0, 50).unwrap();
    assert_eq!(&bytes[..6], b"GIF89a");
    assert_eq!(&bytes[6..10], &[0, 0, 2, 0]);
    assert_eq!(*bytes.last().unwrap(), 0x3B);
    assert_eq!(render_fumen(&sample(), 0, 50).unwrap(), bytes);
}

fn encoded_directly(pages: &[Page], delay: u16) -> Vec<u8> {
    const BLOCK: usize = 24;
    let blank = [CellColor::Empty; 10];
    let garbage = pages.iter().any(|p| p.garbage_row != blank);
    let top = |page: &Page| {
        let field = page.field.iter().rposition(|row| *row != blank).unwrap_or(0);
        let piece = page
            .piece
            .and_then(|p| p.cells().iter().map(|&(_, y)| y as usize).max())
            .unwrap_or(0);
        field.max(piece)
    };
    let height = garbage as usize + pages.iter().map(top).max().unwrap() + 1;
    let gif_height = height * BLOCK + 2 * (garbage as usize);
    let mut data = vec![];
    {
        let mut writer =
            gif::Encoder::new(&mut data, BLOCK as u16 * 10, gif_height as u16, &GLOBAL_PALETTE)
                .unwrap();
        writer.set_repeat(gif::Repeat::Infinite).unwrap();
        for page in pages {
            let mut buf = vec![0u8; BLOCK * 10 * gif_height];
            let mut fill_tile = |x: usize, y: i32, color: u8| {
                let row = (height as i32 - y - 1 - garbage as i32) as usize;
                let tp = BLOCK * x + BLOCK * BLOCK * 10 * row;
                for iy in 0..BLOCK {
                    for ix in 0..BLOCK {
                        let i = tp + iy * 10 * BLOCK + ix;
                        if garbage && y == -1 {
                            if iy < 2 {
                                buf[i] = 9;
                            }
                            buf[i + 2 * 10 * BLOCK] = color;
                        } else {
                            buf[i] = color;
                        }
                    }
                }
            };
            for y in 0..height - garbage as usize {
                for x in 0..10 {
                    fill_tile(x, y as i32, page.field[y][x].palette_index());
                }
            }
            if garbage {
                for x in 0..10 {
                    fill_tile(x, -1, page.garbage_row[x].palette_index());
                }
            }
            if let Some(piece) = page.piece {
                for &(x, y) in &piece.cells() {
                    fill_tile(x as usize, y as i32, piece.kind.color().palette_index());
                }
            }
            writer
                .write_frame(&gif::Frame {
                    delay,
                    width: BLOCK as u16 * 10,
                    height: gif_height as u16,
                    buffer: buf.into(),
                    ..Default::default()
                })
                .unwrap();
        }
    }
    data
}

fn varied() -> Vec<Vec<Page>> {
    let mut stack = blank();
    for y in 0..6 {
        for x in 0..10 {
            if (x + 2 * y) % 3 != 0 {
                stack.field[y][x] = [CellColor::I, CellColor::L, CellColor::O, CellColor::Z][x % 4];
            }
        }
    }
    let mut garbage = stack.clone();
    garbage.garbage_row = [CellColor::Grey; 10];
    garbage.garbage_row[7] = CellColor::Empty;
    let pieces = |kind, rotation| {
        let mut page = stack.clone();
        page.piece = Some(Piece { kind, rotation, x: 4, y: 9 });
        page
    };
    let mut all = vec![stack.clone(), garbage.clone()];
    for kind in [
        PieceType::I,
        PieceType::L,
        PieceType::O,
        PieceType::Z,
        PieceType::T,
        PieceType::J,
        PieceType::S,
    ] {
        for rotation in [
            RotationState::North,
            RotationState::East,
            RotationState::South,
            RotationState::West,
        ] {
            all.push(pieces(kind, rotation));
        }
    }
    let mut top = blank();
    top.field[22] = [CellColor::T; 10];
    vec![
        vec![blank()],
        vec![stack.clone()],
        vec![garbage.clone()],
        sample(),
        all,
        vec![top, garbage, blank()],
    ]
}

#[test]
fn the_stream_is_what_the_encoder_writes_for_the_drawn_frames() {
    for pages in varied() {
        for delay in [50u16, 25] {
            assert_eq!(render_fumen(&pages, 24, delay).unwrap(), encoded_directly(&pages, delay));
        }
    }
}
