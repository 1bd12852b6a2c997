use vstd::prelude::*;

use crate::font_file::FontFile;
use crate::osd;
use crate::osd::Frame;
use crate::osd::Glyph;
use crate::osd::OsdOptions;
use crate::osd_overlay::overlay_osd;
use crate::osd_overlay::spec_osd_composited;
use crate::overlay::RgbaBuffer;
use crate::util::Dimension;

verus! {

/// The smallest grid column any glyph of the sequence occupies.
pub open spec fn spec_min_x(glyphs: Seq<Glyph>) -> u32
    decreases glyphs.len(),
{
    if glyphs.len() <= 1 {
        glyphs[0].grid_position.x
    } else {
        let rest = spec_min_x(glyphs.drop_last());
        if glyphs.last().grid_position.x < rest {
            glyphs.last().grid_position.x
        } else {
            rest
        }
    }
}

/// The largest grid column any glyph of the sequence occupies.
pub open spec fn spec_max_x(glyphs: Seq<Glyph>) -> u32
    decreases glyphs.len(),
{
    if glyphs.len() <= 1 {
        glyphs[0].grid_position.x
    } else {
        let rest = spec_max_x(glyphs.drop_last());
        if glyphs.last().grid_position.x > rest {
            glyphs.last().grid_position.x
        } else {
            rest
        }
    }
}

/// The smallest grid row any glyph of the sequence occupies.
pub open spec fn spec_min_y(glyphs: Seq<Glyph>) -> u32
    decreases glyphs.len(),
{
    if glyphs.len() <= 1 {
        glyphs[0].grid_position.y
    } else {
        let rest = spec_min_y(glyphs.drop_last());
        if glyphs.last().grid_position.y < rest {
            glyphs.last().grid_position.y
        } else {
            rest
        }
    }
}

/// The largest grid row any glyph of the sequence occupies.
pub open spec fn spec_max_y(glyphs: Seq<Glyph>) -> u32
    decreases glyphs.len(),
{
    if glyphs.len() <= 1 {
        glyphs[0].grid_position.y
    } else {
        let rest = spec_max_y(glyphs.drop_last());
        if glyphs.last().grid_position.y > rest {
            glyphs.last().grid_position.y
        } else {
            rest
        }
    }
}

/// The horizontal pixel shift that centres a frame's glyph block on a
/// preview of the given width.
pub fn calculate_horizontal_offset(
    width: u32,
    osd_frame: &Frame,
    character_bounds_size: Dimension<u32>,
) -> (r: i32)
    requires
        osd_frame.glyphs@.len() > 0,
        ({
            let min_x = spec_min_x(osd_frame.glyphs@) as int;
            let max_x = spec_max_x(osd_frame.glyphs@) as int;
            let cw = character_bounds_size.width as int;
            &&& (max_x - min_x + 1) * cw <= width
            &&& min_x * cw <= (width - (max_x - min_x + 1) * cw) / 2
            &&& (width - (max_x - min_x + 1) * cw) / 2 - min_x * cw <= i32::MAX
        }),
    ensures
        r == (width - (spec_max_x(osd_frame.glyphs@) - spec_min_x(osd_frame.glyphs@) + 1)
            * character_bounds_size.width) / 2 - spec_min_x(osd_frame.glyphs@)
            * character_bounds_size.width,
{
    let n = osd_frame.glyphs.len();
    let mut min_x: u32 = osd_frame.glyphs[0].grid_position.x;
    let mut max_x: u32 = osd_frame.glyphs[0].grid_position.x;
    let mut i: usize = 1;
    while i < n
        invariant
            n == osd_frame.glyphs@.len(),
            0 < n,
            1 <= i <= n,
            min_x == spec_min_x(osd_frame.glyphs@.subrange(0, i as int)),
            max_x == spec_max_x(osd_frame.glyphs@.subrange(0, i as int)),
        decreases n - i,
    {
        proof {
            assert(osd_frame.glyphs@.subrange(0, i + 1).drop_last() =~= osd_frame.glyphs@.subrange(
                0,
                i as int,
            ));
        }
        let x = osd_frame.glyphs[i].grid_position.x;
        if x < min_x {
            min_x = x;
        }
        if x > max_x {
            max_x = x;
        }
        i = i + 1;
    }
    proof {
        assert(osd_frame.glyphs@.subrange(0, n as int) =~= osd_frame.glyphs@);
    }
    let cw = character_bounds_size.width;
    proof {
        assert(min_x <= max_x) by {
            lemma_min_le_max_x(osd_frame.glyphs@);
        }
    }
    proof {
        assert(((max_x - min_x) as int + 1) * (cw as int) < 0x1_0000_0000_0000_0000)
            by (nonlinear_arith)
            requires
                0 <= ((max_x - min_x) as int) < 0x1_0000_0000,
                0 <= (cw as int) < 0x1_0000_0000,
        ;
        assert((min_x as int) * (cw as int) < 0x1_0000_0000_0000_0000) by (nonlinear_arith)
            requires
                0 <= (min_x as int) < 0x1_0000_0000,
                0 <= (cw as int) < 0x1_0000_0000,
        ;
    }
    let pixel_range: u64 = ((max_x - min_x) as u64 + 1) * (cw as u64);
    let offset: u64 = (width as u64 - pixel_range) / 2 - (min_x as u64) * (cw as u64);
    offset as i32
}

/// The vertical pixel shift that centres a frame's glyph block on a
/// preview of the given height.
pub fn calculate_vertical_offset(
    height: u32,
    osd_frame: &Frame,
    character_bounds_size: Dimension<u32>,
) -> (r: i32)
    requires
        osd_frame.glyphs@.len() > 0,
        ({
            let min_y = spec_min_y(osd_frame.glyphs@) as int;
            let max_y = spec_max_y(osd_frame.glyphs@) as int;
            let ch = character_bounds_size.height as int;
            &&& (max_y - min_y + 1) * ch <= height
            &&& min_y * ch <= (height - (max_y - min_y + 1) * ch) / 2
            &&& (height - (max_y - min_y + 1) * ch) / 2 - min_y * ch <= i32::MAX
        }),
    ensures
        r == (height - (spec_max_y(osd_frame.glyphs@) - spec_min_y(osd_frame.glyphs@) + 1)
            * character_bounds_size.height) / 2 - spec_min_y(osd_frame.glyphs@)
            * character_bounds_size.height,
{
    let n = osd_frame.glyphs.len();
    let mut min_y: u32 = osd_frame.glyphs[0].grid_position.y;
    let mut max_y: u32 = osd_frame.glyphs[0].grid_position.y;
    let mut i: usize = 1;
    while i < n
        invariant
            n == osd_frame.glyphs@.len(),
            0 < n,
            1 <= i <= n,
            min_y == spec_min_y(osd_frame.glyphs@.subrange(0, i as int)),
            max_y == spec_max_y(osd_frame.glyphs@.subrange(0, i as int)),
        decreases n - i,
    {
        proof {
            assert(osd_frame.glyphs@.subrange(0, i + 1).drop_last() =~= osd_frame.glyphs@.subrange(
                0,
                i as int,
            ));
        }
        let y = osd_frame.glyphs[i].grid_position.y;
        if y < min_y {
            min_y = y;
        }
        if y > max_y {
            max_y = y;
        }
        i = i + 1;
    }
    proof {
        assert(osd_frame.glyphs@.subrange(0, n as int) =~= osd_frame.glyphs@);
    }
    let ch = character_bounds_size.height;
    proof {
        assert(min_y <= max_y) by {
            lemma_min_le_max_y(osd_frame.glyphs@);
        }
    }
    proof {
        assert(((max_y - min_y) as int + 1) * (ch as int) < 0x1_0000_0000_0000_0000)
            by (nonlinear_arith)
            requires
                0 <= ((max_y - min_y) as int) < 0x1_0000_0000,
                0 <= (ch as int) < 0x1_0000_0000,
        ;
        assert((min_y as int) * (ch as int) < 0x1_0000_0000_0000_0000) by (nonlinear_arith)
            requires
                0 <= (min_y as int) < 0x1_0000_0000,
                0 <= (ch as int) < 0x1_0000_0000,
        ;
    }
    let pixel_range: u64 = ((max_y - min_y) as u64 + 1) * (ch as u64);
    let offset: u64 = (height as u64 - pixel_range) / 2 - (min_y as u64) * (ch as u64);
    offset as i32
}

/// The smallest column never exceeds the largest.
proof fn lemma_min_le_max_x(glyphs: Seq<Glyph>)
    requires
        glyphs.len() > 0,
    ensures
        spec_min_x(glyphs) <= spec_max_x(glyphs),
    decreases glyphs.len(),
{
    if glyphs.len() > 1 {
        lemma_min_le_max_x(glyphs.drop_last());
    }
}

/// The smallest row never exceeds the largest.
proof fn lemma_min_le_max_y(glyphs: Seq<Glyph>)
    requires
        glyphs.len() > 0,
    ensures
        spec_min_y(glyphs) <= spec_max_y(glyphs),
    decreases glyphs.len(),
{
    if glyphs.len() > 1 {
        lemma_min_le_max_y(glyphs.drop_last());
    }
}

/// Draws one OSD frame onto a blank (fully transparent) canvas of the
/// given size: the preview shown while the user adjusts the overlay.
pub fn create_osd_preview(
    width: u32,
    height: u32,
    osd_frame: &Frame,
    font: &mut FontFile,
    osd_options: &OsdOptions,
) -> (r: RgbaBuffer)
    requires
        old(font).wf(),
        4 * width * height <= u32::MAX,
        width / osd::OSD_GRID_WIDTH <= 8192,
        height / osd::OSD_GRID_HEIGHT <= 8192,
    ensures
        final(font).wf(),
        final(font).characters@ == old(font).characters@,
        final(font).font_character_size == old(font).font_character_size,
        r.wf(),
        r.width == width,
        r.height == height,
        r.bytes() == spec_osd_composited(
            Seq::new((4 * width * height) as nat, |i: int| 0u8),
            width,
            height,
            osd_frame.glyphs@,
            osd_frame.glyphs@.len() as int,
            *old(font),
            *osd_options,
        ),
{
    let mut image = RgbaBuffer::filled(width, height, [0, 0, 0, 0]);
    proof {
        assert(image.bytes() =~= Seq::new((4 * width * height) as nat, |i: int| 0u8));
    }
    overlay_osd(&mut image, osd_frame, font, osd_options);
    image
}

} // verus!
