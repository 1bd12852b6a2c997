use vstd::prelude::*;

use crate::util::Dimension;

verus! {

/// Discrete glyph-scale tier applied to the nominal OSD cell size.
#[derive(Debug, Clone, Copy, PartialEq, Eq, Structural, Hash)]
pub enum CharacterSizeClass {
    XSmall,
    Small,
    Normal,
    Large,
    XLarge,
}

impl CharacterSizeClass {
    /// The scale multiplier of this tier, in thousandths
    /// (so `Normal` is 1000, meaning a factor of one).
    pub fn multiplier_permille(&self) -> (r: u32)
        ensures
            r == self.spec_multiplier_permille(),
    {
        match self {
            CharacterSizeClass::XSmall => 600,
            CharacterSizeClass::Small => 800,
            CharacterSizeClass::Normal => 1000,
            CharacterSizeClass::Large => 1100,
            CharacterSizeClass::XLarge => 1200,
        }
    }

    pub open spec fn spec_multiplier_permille(&self) -> u32 {
        match self {
            CharacterSizeClass::XSmall => 600,
            CharacterSizeClass::Small => 800,
            CharacterSizeClass::Normal => 1000,
            CharacterSizeClass::Large => 1100,
            CharacterSizeClass::XLarge => 1200,
        }
    }

    /// Short label for display purposes.
    pub fn label(&self) -> (r: &'static str)
        ensures
            r@ == self.spec_label(),
    {
        let r = match self {
            CharacterSizeClass::XSmall => "XS",
            CharacterSizeClass::Small => "S",
            CharacterSizeClass::Normal => "Normal",
            CharacterSizeClass::Large => "L",
            CharacterSizeClass::XLarge => "XL",
        };
        proof {
            reveal_strlit("XS");
            reveal_strlit("S");
            reveal_strlit("Normal");
            reveal_strlit("L");
            reveal_strlit("XL");
            assert(r@ =~= self.spec_label());
        }
        r
    }

    pub open spec fn spec_label(&self) -> Seq<char> {
        match self {
            CharacterSizeClass::XSmall => "XS"@,
            CharacterSizeClass::Small => "S"@,
            CharacterSizeClass::Normal => "Normal"@,
            CharacterSizeClass::Large => "L"@,
            CharacterSizeClass::XLarge => "XL"@,
        }
    }
}

/// The number of colour pages (columns) in a font sheet.
#[derive(Debug, Clone, Copy, PartialEq, Eq, Structural)]
pub enum FontType {
    Standard,
    TwoPages,
    ThreePages,
    FourColor,
}

impl FontType {
    pub open spec fn spec_raw_value(&self) -> u32 {
        match self {
            FontType::Standard => 1,
            FontType::TwoPages => 2,
            FontType::ThreePages => 3,
            FontType::FourColor => 4,
        }
    }

    pub open spec fn spec_from_raw_value(raw: u32) -> Option<FontType> {
        match raw {
            1u32 => Some(FontType::Standard),
            2u32 => Some(FontType::TwoPages),
            3u32 => Some(FontType::ThreePages),
            4u32 => Some(FontType::FourColor),
            _ => None,
        }
    }

    pub fn from_raw_value(raw: u32) -> (r: Option<Self>)
        ensures
            r == Self::spec_from_raw_value(raw),
    {
        match raw {
            1 => Some(FontType::Standard),
            2 => Some(FontType::TwoPages),
            3 => Some(FontType::ThreePages),
            4 => Some(FontType::FourColor),
            _ => None,
        }
    }

    pub fn raw_value(&self) -> (r: u32)
        ensures
            r == self.spec_raw_value(),
    {
        match self {
            FontType::Standard => 1,
            FontType::TwoPages => 2,
            FontType::ThreePages => 3,
            FontType::FourColor => 4,
        }
    }
}

/// Why a character sheet was rejected.
#[derive(Debug, Clone)]
pub enum FontFileError {
    /// The sheet height is not an exact multiple of the 256 glyph rows,
    /// or is too small to derive a glyph width from.
    InvalidFontFileHeight { height: u32 },
    /// The sheet width is not an exact multiple of the derived glyph width.
    InvalidFontFileWidth { width: u32 },
    /// The image bytes could not be decoded.
    DecodeError { message: String },
}

/// Number of glyph rows in every character sheet.
pub const GLYPHS_PER_PAGE: u32 = 256;

/// Height of a single glyph derived from a sheet of the given height,
/// assuming the height is a multiple of the row count.
pub open spec fn spec_glyph_height(sheet_height: u32) -> u32 {
    (sheet_height / GLYPHS_PER_PAGE) as u32
}

/// Width of a single glyph: glyphs have a fixed 2:3 width:height aspect.
pub open spec fn spec_glyph_width(sheet_height: u32) -> u32 {
    (spec_glyph_height(sheet_height) * 2 / 3) as u32
}

/// Whether a sheet of these dimensions is accepted: besides the exact
/// alignment, the sheet must be at least one glyph wide.
pub open spec fn spec_sheet_valid(size: Dimension<u32>) -> bool {
    &&& size.height % GLYPHS_PER_PAGE == 0
    &&& spec_glyph_width(size.height) > 0
    &&& size.width % spec_glyph_width(size.height) == 0
    &&& size.width >= spec_glyph_width(size.height)
}

/// The font type detected for a valid sheet: the column count selects the
/// page layout, and unrecognized column counts fall back to `Standard`.
pub open spec fn spec_sheet_font_type(size: Dimension<u32>) -> FontType
    recommends
        spec_sheet_valid(size),
{
    match FontType::spec_from_raw_value((size.width / spec_glyph_width(size.height)) as u32) {
        Some(t) => t,
        None => FontType::Standard,
    }
}

/// Validates the dimensions of a character sheet and derives the size of a
/// single glyph and the page layout.
///
/// The sheet must stack the 256 glyph rows vertically, so its height must be
/// an exact multiple of 256; the glyph width is two thirds of the glyph
/// height (fixed 2:3 aspect), and the sheet width must be an exact multiple
/// of that width. A sheet too short to derive a nonzero glyph width is
/// rejected as having an invalid height.
pub fn detect_font_character_size(font_file_size: Dimension<u32>) -> (r: Result<
    (Dimension<u32>, FontType),
    FontFileError,
>)
    ensures
        r is Ok <==> spec_sheet_valid(font_file_size),
        spec_sheet_valid(font_file_size) ==> r == Ok::<_, FontFileError>(
            (
                Dimension {
                    width: spec_glyph_width(font_file_size.height),
                    height: spec_glyph_height(font_file_size.height),
                },
                spec_sheet_font_type(font_file_size),
            ),
        ),
        font_file_size.height % GLYPHS_PER_PAGE != 0 ==> r == Err::<(Dimension<u32>, FontType), _>(
            FontFileError::InvalidFontFileHeight { height: font_file_size.height },
        ),
        font_file_size.height % GLYPHS_PER_PAGE == 0 && spec_glyph_width(font_file_size.height)
            == 0 ==> r == Err::<(Dimension<u32>, FontType), _>(
            FontFileError::InvalidFontFileHeight { height: font_file_size.height },
        ),
        font_file_size.height % GLYPHS_PER_PAGE == 0 && spec_glyph_width(font_file_size.height) > 0
            && (font_file_size.width % spec_glyph_width(font_file_size.height) != 0
            || font_file_size.width < spec_glyph_width(font_file_size.height)) ==> r
            == Err::<(Dimension<u32>, FontType), _>(
            FontFileError::InvalidFontFileWidth { width: font_file_size.width },
        ),
{
    if font_file_size.height % GLYPHS_PER_PAGE != 0 {
        return Err(FontFileError::InvalidFontFileHeight { height: font_file_size.height });
    }

    let single_char_height = font_file_size.height / GLYPHS_PER_PAGE;
    let single_char_width = single_char_height * 2 / 3;

    if single_char_width == 0 {
        return Err(FontFileError::InvalidFontFileHeight { height: font_file_size.height });
    }

    if font_file_size.width % single_char_width != 0 || font_file_size.width < single_char_width {
        return Err(FontFileError::InvalidFontFileWidth { width: font_file_size.width });
    }

    let number_of_colors = font_file_size.width / single_char_width;

    let font_type = match FontType::from_raw_value(number_of_colors) {
        Some(t) => t,
        None => FontType::Standard,
    };

    Ok((Dimension { width: single_char_width, height: single_char_height }, font_type))
}

} // verus!
