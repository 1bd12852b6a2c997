use vstd::prelude::*;

use crate::font::CharacterSizeClass;
use crate::font_file::FontFile;
use crate::font_file::spec_target_dim;
use crate::osd;
use crate::osd::Frame;
use crate::osd::Glyph;
use crate::osd::OsdOptions;
use crate::overlay::RgbaBuffer;
use crate::overlay::fast_overlay;
use crate::overlay::get_ideal_character_size;
use crate::overlay::spec_blended_composite;
use crate::overlay::spec_copy_composite;
use crate::overlay::spec_overlay_disjoint;
use crate::overlay::spec_simple_alpha;

verus! {

/// The size class used for glyphs: the user's override, or `Normal`.
pub open spec fn spec_size_class(options: OsdOptions) -> CharacterSizeClass {
    match options.character_size_class {
        Some(c) => c,
        None => CharacterSizeClass::Normal,
    }
}

/// The exact pixel size glyphs are drawn at on a `w` x `h` frame: the OSD
/// cell size scaled by the size class multiplier.
pub open spec fn spec_glyph_target(options: OsdOptions, w: u32, h: u32) -> (u32, u32) {
    let mult = spec_size_class(options).spec_multiplier_permille();
    (
        spec_target_dim((w / osd::OSD_GRID_WIDTH) as u32, mult),
        spec_target_dim((h / osd::OSD_GRID_HEIGHT) as u32, mult),
    )
}

/// Whether a glyph is left undrawn: an empty index, a cell the user has
/// masked, or a position outside the fixed 53 x 20 grid.
pub open spec fn spec_osd_skip(g: Glyph, options: OsdOptions) -> bool {
    ||| g.index == 0
    ||| options.masked_grid_positions@.contains(g.grid_position)
    ||| g.grid_position.x >= osd::OSD_GRID_WIDTH
    ||| g.grid_position.y >= osd::OSD_GRID_HEIGHT
}

/// The pixel position of a glyph: the leftover pixels of the integer cell
/// division are split evenly as a centering margin, and the user's pixel
/// offset is added.
pub open spec fn spec_glyph_x(g: Glyph, w: u32, options: OsdOptions) -> int {
    (w % osd::OSD_GRID_WIDTH) / 2 + g.grid_position.x * (w / osd::OSD_GRID_WIDTH)
        + options.position.x
}

pub open spec fn spec_glyph_y(g: Glyph, h: u32, options: OsdOptions) -> int {
    (h % osd::OSD_GRID_HEIGHT) / 2 + g.grid_position.y * (h / osd::OSD_GRID_HEIGHT)
        + options.position.y
}

/// One glyph composited onto the frame bytes: the glyph bitmap served for
/// its index is placed at its cell, fast-copied when its alpha is simple,
/// alpha-blended otherwise. A degenerate glyph size leaves the frame
/// untouched.
pub open spec fn spec_overlay_glyph(
    img: Seq<u8>,
    w: u32,
    h: u32,
    g: Glyph,
    font: FontFile,
    options: OsdOptions,
) -> Seq<u8> {
    let (tw, th) = spec_glyph_target(options, w, h);
    let bmp = font.spec_glyph_bytes(g.index as int, tw, th);
    let x = spec_glyph_x(g, w, options);
    let y = spec_glyph_y(g, h, options);
    if tw == 0 || th == 0 {
        img
    } else if spec_simple_alpha(bmp) || spec_overlay_disjoint(
        w as int,
        h as int,
        tw as int,
        th as int,
        x,
        y,
    ) {
        spec_copy_composite(img, w as int, bmp, tw as int, th as int, x, y)
    } else {
        spec_blended_composite(img, w as int, h as int, bmp, tw as int, th as int, x, y)
    }
}

/// The frame bytes after the first `n` glyphs of the sequence have been
/// drawn, in order, skipping empty, masked and out-of-grid glyphs.
pub open spec fn spec_osd_composited(
    img: Seq<u8>,
    w: u32,
    h: u32,
    glyphs: Seq<Glyph>,
    n: int,
    font: FontFile,
    options: OsdOptions,
) -> Seq<u8>
    decreases n,
{
    if n <= 0 {
        img
    } else {
        let prev = spec_osd_composited(img, w, h, glyphs, n - 1, font, options);
        let g = glyphs[n - 1];
        if spec_osd_skip(g, options) {
            prev
        } else {
            spec_overlay_glyph(prev, w, h, g, font, options)
        }
    }
}

/// Draws every glyph of an OSD frame onto the image: glyphs with index 0
/// and glyphs at masked grid cells are skipped; each other glyph is served
/// from the font at the frame's cell size and composited at its grid cell,
/// offset by the user's pixel shift.
pub fn overlay_osd(
    image: &mut RgbaBuffer,
    osd_frame: &Frame,
    font: &mut FontFile,
    osd_options: &OsdOptions,
)
    requires
        old(image).wf(),
        old(font).wf(),
        old(image).width / osd::OSD_GRID_WIDTH <= 8192,
        old(image).height / osd::OSD_GRID_HEIGHT <= 8192,
    ensures
        final(image).wf(),
        final(image).width == old(image).width,
        final(image).height == old(image).height,
        final(image).bytes() == spec_osd_composited(
            old(image).bytes(),
            old(image).width,
            old(image).height,
            osd_frame.glyphs@,
            osd_frame.glyphs@.len() as int,
            *old(font),
            *osd_options,
        ),
        final(font).wf(),
        final(font).characters@ == old(font).characters@,
        final(font).font_character_size == old(font).font_character_size,
        final(font).font_type == old(font).font_type,
        final(font).character_count == old(font).character_count,
{
    let w = image.width;
    let h = image.height;
    let character_size_class = match &osd_options.character_size_class {
        Some(c) => *c,
        None => CharacterSizeClass::Normal,
    };
    let char_desired_size = get_ideal_character_size(w, h);

    let n = osd_frame.glyphs.len();
    let mut i: usize = 0;
    while i < n
        invariant
            n == osd_frame.glyphs@.len(),
            i <= n,
            image.wf(),
            image.width == w,
            image.height == h,
            w / osd::OSD_GRID_WIDTH <= 8192,
            h / osd::OSD_GRID_HEIGHT <= 8192,
            character_size_class == spec_size_class(*osd_options),
            char_desired_size.width == w / osd::OSD_GRID_WIDTH,
            char_desired_size.height == h / osd::OSD_GRID_HEIGHT,
            font.wf(),
            font.characters@ == old(font).characters@,
            font.font_character_size == old(font).font_character_size,
            font.font_type == old(font).font_type,
            font.character_count == old(font).character_count,
            image.bytes() == spec_osd_composited(
                old(image).bytes(),
                w,
                h,
                osd_frame.glyphs@,
                i as int,
                *old(font),
                *osd_options,
            ),
        decreases n - i,
    {
        let character = &osd_frame.glyphs[i];
        let skip = character.index == 0 || osd_options.get_mask(&character.grid_position)
            || character.grid_position.x >= osd::OSD_GRID_WIDTH || character.grid_position.y
            >= osd::OSD_GRID_HEIGHT;
        if !skip {
            let got = font.get_character(
                character.index as usize,
                &character_size_class,
                char_desired_size,
            );
            proof {
                assert(font.spec_glyph_bytes(
                    character.index as int,
                    spec_glyph_target(*osd_options, w, h).0,
                    spec_glyph_target(*osd_options, w, h).1,
                ) == old(font).spec_glyph_bytes(
                    character.index as int,
                    spec_glyph_target(*osd_options, w, h).0,
                    spec_glyph_target(*osd_options, w, h).1,
                ));
            }
            match got {
                Some(character_image) => {
                    proof {
                        assert((character.grid_position.x as int) * ((w / osd::OSD_GRID_WIDTH)
                            as int) <= 53 * 8192) by (nonlinear_arith)
                            requires
                                (character.grid_position.x as int) < 53,
                                0 <= ((w / osd::OSD_GRID_WIDTH) as int) <= 8192,
                        ;
                        assert((character.grid_position.y as int) * ((h / osd::OSD_GRID_HEIGHT)
                            as int) <= 20 * 8192) by (nonlinear_arith)
                            requires
                                (character.grid_position.y as int) < 20,
                                0 <= ((h / osd::OSD_GRID_HEIGHT) as int) <= 8192,
                        ;
                    }
                    let x_raw = (w % osd::OSD_GRID_WIDTH) / 2;
                    let y_raw = (h % osd::OSD_GRID_HEIGHT) / 2;
                    let x: i64 = x_raw as i64 + (character.grid_position.x as i64)
                        * ((w / osd::OSD_GRID_WIDTH) as i64) + osd_options.position.x as i64;
                    let y: i64 = y_raw as i64 + (character.grid_position.y as i64)
                        * ((h / osd::OSD_GRID_HEIGHT) as i64) + osd_options.position.y as i64;
                    fast_overlay(image, &character_image, x, y);
                },
                None => {},
            }
        }
        i = i + 1;
    }
}

} // verus!
