use walksnail_osd_tool::CharacterSizeClass;
use walksnail_osd_tool::Coordinates;
use walksnail_osd_tool::Dimension;
use walksnail_osd_tool::FontFile;
use walksnail_osd_tool::FontFileError;
use walksnail_osd_tool::FontType;
use walksnail_osd_tool::detect_font_character_size;
use walksnail_osd_tool::get_ideal_character_size;

#[test]
fn font_type_round_trips_through_raw_values() {
    for raw in 1..=4u32 {
        let t = FontType::from_raw_value(raw).unwrap();
        assert_eq!(t.raw_value(), raw);
    }
    assert!(FontType::from_raw_value(0).is_none());
    assert!(FontType::from_raw_value(5).is_none());
}

#[test]
fn sheet_height_not_divisible_by_256_is_invalid() {
    for height in [1u32, 255, 257, 1000, 9215] {
        let r = detect_font_character_size(Dimension { width: 24, height });
        match r {
            Err(FontFileError::InvalidFontFileHeight { height: h }) => assert_eq!(h, height),
            other => panic!("expected an invalid height, got {:?}", other),
        }
    }
    // too short to derive a glyph width
    match detect_font_character_size(Dimension { width: 24, height: 256 }) {
        Err(FontFileError::InvalidFontFileHeight { height }) => assert_eq!(height, 256),
        other => panic!("expected an invalid height, got {:?}", other),
    }
}

#[test]
fn sheet_width_not_divisible_by_glyph_width_is_invalid() {
    // height 9216 gives a 36-pixel glyph height and a 24-pixel width
    for width in [25u32, 23, 100, 0] {
        let r = detect_font_character_size(Dimension { width, height: 9216 });
        match r {
            Err(FontFileError::InvalidFontFileWidth { width: w }) => assert_eq!(w, width),
            other => panic!("expected an invalid width, got {:?}", other),
        }
    }
}

#[test]
fn valid_sheets_detect_glyph_size_and_pages() {
    let (dims, t) = detect_font_character_size(Dimension { width: 24, height: 9216 }).unwrap();
    assert_eq!((dims.width, dims.height), (24, 36));
    assert_eq!(t, FontType::Standard);

    let (_, t) = detect_font_character_size(Dimension { width: 48, height: 9216 }).unwrap();
    assert_eq!(t, FontType::TwoPages);
    let (_, t) = detect_font_character_size(Dimension { width: 96, height: 9216 }).unwrap();
    assert_eq!(t, FontType::FourColor);
    // an unrecognized page count falls back to Standard
    let (_, t) = detect_font_character_size(Dimension { width: 120, height: 9216 }).unwrap();
    assert_eq!(t, FontType::Standard);
}

/// A tiny valid sheet: one column of 256 glyphs, each 2 x 3 pixels, the
/// glyph for index `i` filled with an opaque colour derived from `i`.
fn tiny_sheet_png() -> Vec<u8> {
    let width = 2u32;
    let height = 768u32;
    let mut img = image::RgbaImage::new(width, height);
    for y in 0..height {
        let index = (y / 3) as u8;
        for x in 0..width {
            img.put_pixel(x, y, image::Rgba([index, 255 - index, 7, 255]));
        }
    }
    let mut bytes: Vec<u8> = Vec::new();
    img.write_to(
        &mut std::io::Cursor::new(&mut bytes),
        image::ImageOutputFormat::Png,
    )
    .unwrap();
    bytes
}

#[test]
fn font_file_slices_the_sheet_into_glyphs() {
    let font = FontFile::open(&tiny_sheet_png()).expect("sheet should load");
    assert_eq!(font.font_type, FontType::Standard);
    assert_eq!(font.character_count, 256);
    assert_eq!(font.font_character_size.width, 2);
    assert_eq!(font.font_character_size.height, 3);
    // glyph 5 holds the colour written for row block 5
    let g = &font.characters[5];
    assert_eq!((g.width, g.height), (2, 3));
    assert_eq!(g.pixel(0, 0), [5, 250, 7, 255]);
}

#[test]
fn font_file_open_rejects_bad_bytes_and_bad_sheets() {
    match FontFile::open(&vec![1, 2, 3]) {
        Err(FontFileError::DecodeError { .. }) => {}
        other => panic!("expected a decode error, got {:?}", other),
    }
    // a decodable image with a height that is no multiple of 256
    let img = image::RgbaImage::new(4, 100);
    let mut bytes: Vec<u8> = Vec::new();
    img.write_to(
        &mut std::io::Cursor::new(&mut bytes),
        image::ImageOutputFormat::Png,
    )
    .unwrap();
    match FontFile::open(&bytes) {
        Err(FontFileError::InvalidFontFileHeight { height }) => assert_eq!(height, 100),
        other => panic!("expected an invalid height, got {:?}", other),
    }
    // a decodable image whose width misses the 4-pixel glyph width that
    // its 1536-pixel height derives
    let img = image::RgbaImage::new(5, 1536);
    let mut bytes: Vec<u8> = Vec::new();
    img.write_to(
        &mut std::io::Cursor::new(&mut bytes),
        image::ImageOutputFormat::Png,
    )
    .unwrap();
    match FontFile::open(&bytes) {
        Err(FontFileError::InvalidFontFileWidth { width }) => assert_eq!(width, 5),
        other => panic!("expected an invalid width, got {:?}", other),
    }
}

#[test]
fn get_character_wraps_indices_modulo_the_glyph_count() {
    let mut font = FontFile::open(&tiny_sheet_png()).unwrap();
    let size = Dimension { width: 2u32, height: 3u32 };
    let a = font
        .get_character(5, &CharacterSizeClass::Normal, size)
        .unwrap();
    let b = font
        .get_character(5 + 256, &CharacterSizeClass::Normal, size)
        .unwrap();
    let c = font
        .get_character(5 + 3 * 256, &CharacterSizeClass::Normal, size)
        .unwrap();
    assert_eq!(a.data, b.data);
    assert_eq!(a.data, c.data);
    assert_eq!(a.pixel(0, 0), [5, 250, 7, 255]);
}

#[test]
fn get_character_resizes_to_the_scaled_cell_size() {
    let mut font = FontFile::open(&tiny_sheet_png()).unwrap();
    // a 10 x 10 cell at the Small multiplier (0.8) gives an 8 x 8 glyph
    let g = font
        .get_character(7, &CharacterSizeClass::Small, Dimension { width: 10u32, height: 10u32 })
        .unwrap();
    assert_eq!((g.width, g.height), (8, 8));
    assert_eq!(g.data.len(), 8 * 8 * 4);
    // the resampled glyph keeps the source's solid colour
    assert_eq!(g.pixel(3, 3), [7, 248, 7, 255]);
    // a second request is served from the cache with the same bytes
    let h = font
        .get_character(7, &CharacterSizeClass::Small, Dimension { width: 10u32, height: 10u32 })
        .unwrap();
    assert_eq!(g.data, h.data);
}

#[test]
fn multiplier_tiers_scale_in_thousandths() {
    assert_eq!(CharacterSizeClass::XSmall.multiplier_permille(), 600);
    assert_eq!(CharacterSizeClass::Small.multiplier_permille(), 800);
    assert_eq!(CharacterSizeClass::Normal.multiplier_permille(), 1000);
    assert_eq!(CharacterSizeClass::Large.multiplier_permille(), 1100);
    assert_eq!(CharacterSizeClass::XLarge.multiplier_permille(), 1200);
}

#[test]
fn ideal_character_size_divides_the_frame_into_the_grid() {
    let d = get_ideal_character_size(1280, 720);
    assert_eq!((d.width, d.height), (1280 / 53, 720 / 20));
    let d = get_ideal_character_size(52, 19);
    assert_eq!((d.width, d.height), (0, 0));
}

#[test]
fn coordinates_carry_their_components() {
    let c = Coordinates::new(3u32, 9u32);
    assert_eq!((c.x, c.y), (3, 9));
}
