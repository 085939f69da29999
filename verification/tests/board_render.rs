use boardbot::board::{Board, Draw, Encode, RenderError, Setup, encode_raster};
use boardbot::color::Rgba;
use boardbot::pieces::{Piece, PieceType};

fn white() -> Rgba {
    Rgba { r: 255, g: 255, b: 255, a: 255 }
}

fn red() -> Rgba {
    Rgba { r: 255, g: 0, b: 0, a: 255 }
}

fn raster_pixel(raster: &Vec<u8>, side: usize, x: usize, y: usize) -> (u8, u8, u8, u8) {
    let k = 4 * (y * side + x);
    (raster[k], raster[k + 1], raster[k + 2], raster[k + 3])
}

fn decode(png: &[u8]) -> (u32, u32, Vec<u8>) {
    let img = image::load_from_memory_with_format(png, image::ImageFormat::Png)
        .expect("png decodes")
        .into_rgba8();
    let w = img.width();
    let h = img.height();
    (w, h, img.into_raw())
}

#[test]
fn empty_board_dimensions() {
    for t in [1usize, 2, 3, 10, 32] {
        let b = Board::empty_board(white(), red(), t as u32);
        assert_eq!(b.raster().len(), 8 * t * 8 * t * 4);
        assert_eq!(b.tile_size() as usize, t);
    }
}

#[test]
fn empty_board_checker_parity() {
    let t = 32usize;
    let b = Board::empty_board(white(), red(), t as u32);
    let side = 8 * t;
    for sy in 0..8 {
        for sx in 0..8 {
            let px = raster_pixel(b.raster(), side, sx * t + t / 2, sy * t + t / 2);
            if (sx + sy) % 2 == 0 {
                assert_eq!(px, (255, 255, 255, 255));
            } else {
                assert_eq!(px, (255, 0, 0, 255));
            }
        }
    }
}

#[test]
fn standard_board_placement_counts() {
    let b = Board::normal_board(white(), red(), 8);
    let mut total = 0;
    let mut pawns = 0;
    let mut rooks = 0;
    let mut knights = 0;
    let mut bishops = 0;
    let mut queens = 0;
    let mut kings = 0;
    for y in 0..8u32 {
        for x in 0..8u32 {
            if let Some(p) = b.piece_at(x, y).unwrap() {
                total += 1;
                assert_eq!(p.color, y >= 6, "color follows rank at ({}, {})", x, y);
                match p.piece_type {
                    PieceType::Pawn => pawns += 1,
                    PieceType::Rook => rooks += 1,
                    PieceType::Knight => knights += 1,
                    PieceType::Bishop => bishops += 1,
                    PieceType::Queen => queens += 1,
                    PieceType::King => kings += 1,
                }
            }
        }
    }
    assert_eq!(total, 32);
    assert_eq!(pawns, 16);
    assert_eq!(rooks, 4);
    assert_eq!(knights, 4);
    assert_eq!(bishops, 4);
    assert_eq!(queens, 2);
    assert_eq!(kings, 2);
    // pawns stand on ranks 1 and 6, eight per color
    for x in 0..8u32 {
        let p1 = b.piece_at(x, 1).unwrap().unwrap();
        assert!(matches!(p1.piece_type, PieceType::Pawn) && !p1.color);
        let p6 = b.piece_at(x, 6).unwrap().unwrap();
        assert!(matches!(p6.piece_type, PieceType::Pawn) && p6.color);
    }
    // rooks in the corners, royal pieces on the center files
    for (x, y) in [(0u32, 0u32), (7, 0), (0, 7), (7, 7)] {
        let p = b.piece_at(x, y).unwrap().unwrap();
        assert!(matches!(p.piece_type, PieceType::Rook));
    }
    for y in [0u32, 7] {
        assert!(matches!(
            b.piece_at(3, y).unwrap().unwrap().piece_type,
            PieceType::Queen
        ));
        assert!(matches!(
            b.piece_at(4, y).unwrap().unwrap().piece_type,
            PieceType::King
        ));
    }
}

#[test]
fn render_is_idempotent_and_leaves_raster_alone() {
    let mut b = Board::normal_board(white(), red(), 16);
    b.set_last_move((4, 6), (4, 4)).unwrap();
    let before = b.raster().clone();
    let first = b.draw_and_render(true);
    assert_eq!(b.raster(), &before, "render must not decorate the stored raster");
    let second = b.draw_and_render(true);
    assert_eq!(first, second, "two renders of one state are byte-identical");
    // interleaving another perspective must not leak decorations either
    let _ = b.draw_and_render(false);
    let third = b.draw_and_render(true);
    assert_eq!(first, third);
    assert_eq!(b.raster(), &before);
}

#[test]
fn perspective_mirrors_piece_positions() {
    let t = 32usize;
    let mut b = Board::empty_board(white(), red(), t as u32);
    b.set_piece(0, 0, Piece { piece_type: PieceType::Pawn, color: false })
        .unwrap();
    let (w, h, from_white) = decode(&b.draw_and_render(true));
    assert_eq!((w, h), (256, 256));
    let (_, _, from_black) = decode(&b.draw_and_render(false));
    // tile offset (16, 16) maps to the sprite's opaque center
    let side = 8 * t;
    let dark_piece = (32, 32, 32, 255);
    assert_eq!(raster_pixel(&from_white, side, 16, 16), dark_piece);
    assert_eq!(raster_pixel(&from_black, side, 7 * t + 16, 7 * t + 16), dark_piece);
    // and each is absent from the opposite corner's tile
    assert_ne!(raster_pixel(&from_white, side, 7 * t + 16, 7 * t + 16), dark_piece);
    assert_ne!(raster_pixel(&from_black, side, 16, 16), dark_piece);
}

#[test]
fn png_round_trip_keeps_dimensions_and_piece_pixels() {
    let t = 32usize;
    let mut b = Board::normal_board(white(), red(), t as u32);
    let png = b.draw_and_render(true);
    let (w, h, raster) = decode(&png);
    assert_eq!((w as usize, h as usize), (8 * t, 8 * t));
    // the white king stands on (4, 7); its sprite center shows piece color
    let side = 8 * t;
    assert_eq!(
        raster_pixel(&raster, side, 4 * t + 16, 7 * t + 16),
        (224, 224, 224, 255)
    );
}

#[test]
fn pawn_scenario_renders_into_its_block() {
    // an empty white/red board, tile size 32, a white pawn on (4, 6),
    // rendered from white's side: a 256x256 PNG whose block
    // [128..160) x [192..224) holds the pawn sprite
    let t = 32usize;
    let mut b = Board::empty_board(white(), red(), t as u32);
    b.set_piece(4, 6, Piece { piece_type: PieceType::Pawn, color: true })
        .unwrap();
    let png = b.draw_and_render(true);
    let (w, h, raster) = decode(&png);
    assert_eq!((w, h), (256, 256));
    let side = 8 * t;
    // sprite center: opaque, the white piece color
    assert_eq!(raster_pixel(&raster, side, 144, 208), (224, 224, 224, 255));
    // block corner: transparent sprite cell over a light square
    assert_eq!(raster_pixel(&raster, side, 129, 193), (255, 255, 255, 255));
    // a pawn pixel is present somewhere in the block
    let mut found = false;
    for y in 192..224 {
        for x in 128..160 {
            if raster_pixel(&raster, side, x, y) == (224, 224, 224, 255) {
                found = true;
            }
        }
    }
    assert!(found);
}

#[test]
fn last_move_highlight_tints_squares() {
    let t = 32usize;
    let mut b = Board::empty_board(white(), red(), t as u32);
    b.set_last_move((0, 0), (1, 0)).unwrap();
    let (_, _, raster) = decode(&b.draw_and_render(true));
    let side = 8 * t;
    // square (0,0) has even parity: the dark (red) tint at alpha 100 over white
    let blend = |d: u32, s: u32| ((s * 100 + d * 155 + 127) / 255) as u8;
    let over_light = (
        blend(255, 255),
        blend(255, 0),
        blend(255, 0),
        255,
    );
    assert_eq!(raster_pixel(&raster, side, 16, 16), over_light);
    // square (1,0) has odd parity: the light (white) tint at alpha 100 over red
    let over_dark = (
        blend(255, 255),
        blend(0, 255),
        blend(0, 255),
        255,
    );
    assert_eq!(raster_pixel(&raster, side, t + 16, 16), over_dark);
    // an untouched square keeps its plain color
    assert_eq!(raster_pixel(&raster, side, 2 * t + 16, 16), (255, 255, 255, 255));
}

#[test]
fn labels_use_alternating_colors() {
    // tile size 32: glyph box is 6x9 with padding 1; the file label for
    // column a is light-colored and the one for column b dark-colored,
    // drawn inside the bottom row near each tile's right edge
    let t = 32usize;
    let b = Board::empty_board(white(), red(), t as u32);
    let side = 8 * t;
    let mut saw_light_on_a = false;
    let mut saw_dark_on_b = false;
    for y in 246..255 {
        for x in 25..31 {
            // column a sits on a dark square in the bottom row, so a light
            // glyph pixel there can only come from the label
            if raster_pixel(b.raster(), side, x, y) == (255, 255, 255, 255) {
                saw_light_on_a = true;
            }
            if raster_pixel(b.raster(), side, t + x, y) == (255, 0, 0, 255) {
                saw_dark_on_b = true;
            }
        }
    }
    // the persisted raster holds no labels at all
    assert!(!saw_light_on_a && !saw_dark_on_b);
    let mut b = b;
    let (_, _, raster) = decode(&b.draw_and_render(true));
    for y in 246..255 {
        for x in 25..31 {
            if raster_pixel(&raster, side, x, y) == (255, 255, 255, 255) {
                saw_light_on_a = true;
            }
            if raster_pixel(&raster, side, t + x, y) == (255, 0, 0, 255) {
                saw_dark_on_b = true;
            }
        }
    }
    assert!(saw_light_on_a, "the a-file label is drawn in the light color");
    assert!(saw_dark_on_b, "the b-file label is drawn in the dark color");
}

#[test]
fn render_equals_passes_then_encode() {
    // running the three decoration passes by hand and encoding gives the
    // same bytes as one render call; unlike a render, it leaves the
    // decorations on the persisted raster
    let build = || {
        let mut b = Board::normal_board(white(), red(), 16);
        b.set_last_move((1, 0), (2, 2)).unwrap();
        b
    };
    let mut rendered = build();
    let png = rendered.draw_and_render(false);
    let mut manual = build();
    let before = manual.raster().clone();
    manual.text_decoration(false);
    manual.draw_pieces(false);
    manual.last_move(false);
    let png2 = manual.encode_png();
    assert_eq!(png, png2);
    assert_ne!(manual.raster(), &before, "the passes decorate the live raster");
    assert_eq!(rendered.raster(), &before, "the render restores it");
}

#[test]
fn placement_mutations_are_range_checked() {
    let mut b = Board::empty_board(white(), red(), 4);
    assert_eq!(b.set_piece(8, 0, Piece { piece_type: PieceType::Rook, color: true }), Err(RenderError::RangeError));
    assert_eq!(b.set_piece(0, 8, Piece { piece_type: PieceType::Rook, color: true }), Err(RenderError::RangeError));
    assert_eq!(b.set_last_move((0, 0), (0, 9)), Err(RenderError::RangeError));
    assert_eq!(b.piece_at(9, 0), Err(RenderError::RangeError));
    assert!(b.set_piece(7, 7, Piece { piece_type: PieceType::Queen, color: false }).is_ok());
    let q = b.piece_at(7, 7).unwrap().unwrap();
    assert!(matches!(q.piece_type, PieceType::Queen));
    assert!(b.clear_piece(7, 7).is_ok());
    assert_eq!(b.piece_at(7, 7).unwrap(), None);
    assert!(b.set_last_move((1, 2), (3, 4)).is_ok());
    b.clear_last_move();
}

#[test]
fn encode_raster_rejects_mismatched_buffers() {
    let pixels = vec![0u8; 4 * 3 * 2];
    assert!(matches!(encode_raster(&pixels, 3, 2), Ok(_)));
    assert_eq!(
        encode_raster(&pixels, 3, 3).unwrap_err(),
        RenderError::DimensionMismatch
    );
    assert_eq!(
        encode_raster(&pixels, 0, 0).unwrap_err(),
        RenderError::DimensionMismatch
    );
    let (w, h, back) = decode(&encode_raster(&pixels, 3, 2).unwrap());
    assert_eq!((w, h), (3, 2));
    assert_eq!(back, pixels);
}

#[test]
fn piece_sprites_have_native_size_and_colors() {
    let p = Piece { piece_type: PieceType::Pawn, color: true };
    let img = p.image();
    assert_eq!(img.len(), 16 * 16 * 4);
    // the pawn's stem is opaque at the sprite center
    let k = 4 * (8 * 16 + 8);
    assert_eq!(&img[k..k + 4], &[224, 224, 224, 255]);
    // the top-left corner is transparent
    assert_eq!(&img[0..4], &[0, 0, 0, 0]);
    let b = Piece { piece_type: PieceType::King, color: false }.image();
    let k = 4 * (8 * 16 + 8);
    assert_eq!(&b[k..k + 4], &[32, 32, 32, 255]);
}
