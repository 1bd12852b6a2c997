use vstd::prelude::*;

use vstd::string::StringExecFns;

use crate::font::CharacterSizeClass;
use crate::font::FontFileError;
use crate::font::FontType;
use crate::font::GLYPHS_PER_PAGE;
use crate::font::detect_font_character_size;
use crate::font::spec_sheet_font_type;
use crate::font::spec_sheet_valid;
use crate::font::spec_glyph_height;
use crate::font::spec_glyph_width;
use crate::overlay::RgbaBuffer;
use crate::overlay::lemma_buf_size;
use crate::overlay::lemma_byte_index_decompose;
use crate::overlay::lemma_grid_index;
use crate::overlay::lemma_mul_le;
use crate::util::Dimension;

verus! {

/// What `image::load_from_memory` decodes from a byte string, converted to
/// RGBA8: the dimensions and the pixel bytes, or nothing when the bytes are
/// not a decodable image.
pub uninterp spec fn spec_decoded_image(bytes: Seq<u8>) -> Option<(u32, u32, Seq<u8>)>;

/// Relies on `image::load_from_memory` and `DynamicImage::to_rgba8`:
/// decodes an image file held in memory into a tightly packed RGBA8 pixel
/// buffer of the image's dimensions.
#[verifier::external_body]
fn decode_image(bytes: &Vec<u8>) -> (r: Result<(u32, u32, Vec<u8>), String>)
    ensures
        match spec_decoded_image(bytes@) {
            Some((w, h, d)) => r matches Ok(ok) && ok.0 == w && ok.1 == h && ok.2@ == d && d.len()
                == 4 * (w as int) * (h as int),
            None => r is Err,
        },
{
    match image::load_from_memory(bytes) {
        Ok(img) => {
            let rgba = img.to_rgba8();
            let (w, h) = rgba.dimensions();
            Ok((w, h, rgba.into_raw()))
        },
        Err(e) => Err(e.to_string()),
    }
}

/// What `image::imageops::resize` with the `Triangle` filter produces for
/// a given source image and target size.
pub uninterp spec fn spec_triangle_resize(
    src: Seq<u8>,
    sw: int,
    sh: int,
    tw: int,
    th: int,
) -> Seq<u8>;

/// Relies on `image::imageops::resize` with `FilterType::Triangle`: smooth
/// linear resampling of an RGBA image to the exact target size.
#[verifier::external_body]
fn triangle_resize(src: &RgbaBuffer, tw: u32, th: u32) -> (r: RgbaBuffer)
    requires
        src.wf(),
        src.width > 0,
        src.height > 0,
        tw > 0,
        th > 0,
        4 * tw * th <= u32::MAX,
    ensures
        r.wf(),
        r.width == tw,
        r.height == th,
        r.bytes() == spec_triangle_resize(
            src.bytes(),
            src.width as int,
            src.height as int,
            tw as int,
            th as int,
        ),
{
    let img = image::RgbaImage::from_raw(src.width, src.height, src.data.clone()).unwrap();
    let resized = image::imageops::resize(&img, tw, th, image::imageops::FilterType::Triangle);
    RgbaBuffer { width: tw, height: th, data: resized.into_raw() }
}

/// The tile starting at column `p` of `c` tiles of width `cw` fits in a row
/// of width `w`.
proof fn lemma_tile_fits(w: int, cw: int, p: int, c: int) by (nonlinear_arith)
    requires
        cw > 0,
        w % cw == 0,
        0 <= p < c,
        c <= w / cw,
    ensures
        0 <= p * cw,
        p * cw + cw <= w,
{
}

/// The bytes of the `w` x `h` sub-rectangle of `src` (an image `src_w`
/// pixels wide) whose top-left corner is at `(x0, y0)`.
pub open spec fn spec_sub_image(
    src: Seq<u8>,
    src_w: int,
    x0: int,
    y0: int,
    w: int,
    h: int,
) -> Seq<u8> {
    Seq::new(
        (4 * w * h) as nat,
        |i: int|
            {
                let p = i / 4;
                let c = i % 4;
                let px = p % w;
                let py = p / w;
                src[4 * ((y0 + py) * src_w + (x0 + px)) + c]
            },
    )
}

/// Copies one rectangular region out of an image.
fn extract_sub(src: &RgbaBuffer, x0: u32, y0: u32, w: u32, h: u32) -> (r: RgbaBuffer)
    requires
        src.wf(),
        w > 0,
        x0 + w <= src.width,
        y0 + h <= src.height,
    ensures
        r.wf(),
        r.width == w,
        r.height == h,
        r.bytes() == spec_sub_image(
            src.bytes(),
            src.width as int,
            x0 as int,
            y0 as int,
            w as int,
            h as int,
        ),
{
    proof {
        lemma_buf_size(src.width as int, src.height as int);
        lemma_mul_le(w as int, h as int, src.width as int, src.height as int);
        lemma_buf_size(w as int, h as int);
    }
    let wh: usize = (w as usize) * (h as usize);
    let src_bytes = src.as_bytes();
    let mut data: Vec<u8> = Vec::new();
    let mut p: usize = 0;
    while p < wh
        invariant
            src.wf(),
            w > 0,
            x0 + w <= src.width,
            y0 + h <= src.height,
            wh == (w as int) * (h as int),
            wh <= 0x3fffffff,
            4 * (w as int) * (h as int) == 4 * wh,
            src_bytes@ == src.bytes(),
            p <= wh,
            data@.len() == 4 * p,
            forall|j: int|
                0 <= j < 4 * p ==> data@[j] == spec_sub_image(
                    src.bytes(),
                    src.width as int,
                    x0 as int,
                    y0 as int,
                    w as int,
                    h as int,
                )[j],
        decreases wh - p,
    {
        let px: usize = p % (w as usize);
        let py: usize = p / (w as usize);
        proof {
            lemma_buf_size(src.width as int, src.height as int);
            lemma_byte_index_decompose(4 * (w as int) * (h as int), w as int, h as int, 4 * p);
            lemma_grid_index(
                src.width as int,
                src.height as int,
                x0 + px as int,
                y0 + py as int,
            );
        }
        let base: usize = 4 * ((y0 as usize + py) * (src.width as usize) + (x0 as usize + px));
        let ghost prev = data@;
        data.push(src_bytes[base]);
        data.push(src_bytes[base + 1]);
        data.push(src_bytes[base + 2]);
        data.push(src_bytes[base + 3]);
        proof {
            assert forall|j: int| 0 <= j < 4 * (p + 1) implies data@[j] == spec_sub_image(
                src.bytes(),
                src.width as int,
                x0 as int,
                y0 as int,
                w as int,
                h as int,
            )[j] by {
                if j < 4 * p {
                    assert(data@[j] == prev[j]);
                } else {
                    lemma_byte_index_decompose(4 * (w as int) * (h as int), w as int, h as int, j);
                    let c = j - 4 * p;
                    assert(j == 4 * (p as int) + c);
                    assert(j / 4 == p && j % 4 == c) by {
                        vstd::arithmetic::div_mod::lemma_fundamental_div_mod_converse(
                            j,
                            4,
                            p as int,
                            c,
                        );
                    }
                    assert(data@[j] == src.bytes()[base + c]);
                }
            }
        }
        p = p + 1;
    }
    proof {
        assert(data@ =~= spec_sub_image(
            src.bytes(),
            src.width as int,
            x0 as int,
            y0 as int,
            w as int,
            h as int,
        ));
    }
    let r = RgbaBuffer { width: w, height: h, data };
    r
}

/// Key of one cached glyph bitmap: the raw (unwrapped) glyph index and the
/// exact pixel size the bitmap was resized to.
#[derive(Debug, Clone, Copy, PartialEq, Eq, Structural)]
pub struct CacheKey {
    pub index: u64,
    pub width: u32,
    pub height: u32,
}

/// Bounded cache of resized glyph bitmaps. Entries are never evicted: once
/// the cache is full, new entries are simply not added, which bounds
/// memory at the cost of recomputing rare glyphs late in a run.
#[derive(Debug, Clone)]
pub struct ImageCache {
    pub entries: Vec<(CacheKey, RgbaBuffer)>,
    pub max_size: usize,
}

impl ImageCache {
    pub open spec fn spec_has(&self, key: CacheKey) -> bool {
        exists|j: int| 0 <= j < self.entries@.len() && (#[trigger] self.entries@[j]).0 == key
    }

    pub fn new(max_size: usize) -> (r: ImageCache)
        ensures
            r.entries@ =~= Seq::<(CacheKey, RgbaBuffer)>::empty(),
            r.max_size == max_size,
    {
        ImageCache { entries: Vec::new(), max_size }
    }

    /// Looks a glyph up by key, handing back a copy of the cached bitmap.
    pub fn get(&self, key: &CacheKey) -> (r: Option<RgbaBuffer>)
        ensures
            match r {
                Some(b) => exists|j: int|
                    0 <= j < self.entries@.len() && (#[trigger] self.entries@[j]).0 == *key && {
                        let e = self.entries@[j].1;
                        b.width == e.width && b.height == e.height && b.bytes() == e.bytes()
                    },
                None => !self.spec_has(*key),
            },
    {
        let n = self.entries.len();
        let mut i: usize = 0;
        while i < n
            invariant
                n == self.entries@.len(),
                i <= n,
                forall|j: int| 0 <= j < i ==> (#[trigger] self.entries@[j]).0 != *key,
            decreases n - i,
        {
            let e = &self.entries[i];
            if e.0.index == key.index && e.0.width == key.width && e.0.height == key.height {
                return Some(e.1.duplicate());
            }
            i = i + 1;
        }
        None
    }

    /// Inserts a bitmap under a key. A full cache, or one that already
    /// holds the key, is left as it is.
    pub fn insert(&mut self, key: CacheKey, img: RgbaBuffer)
        ensures
            final(self).max_size == old(self).max_size,
            final(self).entries@ == if old(self).entries@.len() >= old(self).max_size || old(
                self,
            ).spec_has(key) {
                old(self).entries@
            } else {
                old(self).entries@.push((key, img))
            },
    {
        if self.entries.len() >= self.max_size {
            return ;
        }
        let n = self.entries.len();
        let mut i: usize = 0;
        while i < n
            invariant
                n == self.entries@.len(),
                i <= n,
                forall|j: int| 0 <= j < i ==> (#[trigger] self.entries@[j]).0 != key,
            decreases n - i,
        {
            let e = &self.entries[i];
            if e.0.index == key.index && e.0.width == key.width && e.0.height == key.height {
                return ;
            }
            i = i + 1;
        }
        self.entries.push((key, img));
    }
}

/// A loaded font: the canonical glyph bitmaps sliced out of a character
/// sheet, plus a bounded cache of resized copies.
#[derive(Debug, Clone)]
pub struct FontFile {
    pub font_type: FontType,
    pub font_character_size: Dimension<u32>,
    pub character_count: u32,
    pub characters: Vec<RgbaBuffer>,
    pub cache: ImageCache,
}

/// How many glyphs the cache may hold before it stops accepting more.
pub const GLYPH_CACHE_SIZE: usize = 256;

impl FontFile {
    /// The pixel bytes that `get_character` serves for a raw index and an
    /// exact target size: the canonical glyph of the index wrapped modulo
    /// the glyph count, resized unless the target size is already the
    /// canonical size.
    pub open spec fn spec_glyph_bytes(&self, index: int, tw: u32, th: u32) -> Seq<u8>
        recommends
            self.characters@.len() > 0,
            0 <= index,
    {
        let k = index % (self.characters@.len() as int);
        let src = self.characters@[k];
        if tw == self.font_character_size.width && th == self.font_character_size.height {
            src.bytes()
        } else {
            spec_triangle_resize(
                src.bytes(),
                src.width as int,
                src.height as int,
                tw as int,
                th as int,
            )
        }
    }

    /// Internal consistency: every canonical glyph is a well-formed bitmap
    /// of the glyph size, and every cache entry holds exactly the bytes
    /// that recomputing its key would produce.
    pub open spec fn wf(&self) -> bool {
        &&& self.character_count == self.characters@.len()
        &&& self.character_count > 0
        &&& self.font_character_size.width > 0
        &&& self.font_character_size.height > 0
        &&& 4 * self.font_character_size.width * self.font_character_size.height <= u32::MAX
        &&& forall|i: int|
            0 <= i < self.characters@.len() ==> {
                let ch = #[trigger] self.characters@[i];
                &&& ch.wf()
                &&& ch.width == self.font_character_size.width
                &&& ch.height == self.font_character_size.height
            }
        &&& forall|j: int|
            0 <= j < self.cache.entries@.len() ==> {
                let (k, b) = #[trigger] self.cache.entries@[j];
                &&& b.wf()
                &&& b.width == k.width
                &&& b.height == k.height
                &&& b.bytes() == self.spec_glyph_bytes(k.index as int, k.width, k.height)
            }
    }

    /// Loads a font from the bytes of a character-sheet image file: the
    /// image is decoded, its dimensions validated, and the sheet sliced
    /// into one bitmap per glyph, page by page (outer), row by row
    /// (inner), so that glyph `page * 256 + row` is the cell at column
    /// `page`, row `row` of the sheet.
    pub fn open(data: &Vec<u8>) -> (r: Result<FontFile, FontFileError>)
        ensures
            match spec_decoded_image(data@) {
                None => r matches Err(FontFileError::DecodeError { .. }),
                Some((w, h, d)) => {
                    if 4 * w * h > u32::MAX {
                        r matches Err(FontFileError::DecodeError { .. })
                    } else if h % GLYPHS_PER_PAGE != 0 || spec_glyph_width(h) == 0 {
                        r == Err::<FontFile, FontFileError>(
                            FontFileError::InvalidFontFileHeight { height: h },
                        )
                    } else if !spec_sheet_valid(Dimension { width: w, height: h }) {
                        r == Err::<FontFile, FontFileError>(
                            FontFileError::InvalidFontFileWidth { width: w },
                        )
                    } else {
                        &&& r matches Ok(f)
                        &&& f.wf()
                        &&& f.font_type == spec_sheet_font_type(Dimension { width: w, height: h })
                        &&& f.font_character_size == (Dimension {
                            width: spec_glyph_width(h),
                            height: spec_glyph_height(h),
                        })
                        &&& f.character_count == f.characters@.len()
                        &&& f.characters@.len() == f.font_type.spec_raw_value() * (
                        GLYPHS_PER_PAGE as int)
                        &&& forall|k: int|
                            0 <= k < f.characters@.len() ==> (#[trigger] f.characters@[k]).bytes()
                                == spec_sub_image(
                                d,
                                w as int,
                                (k / (GLYPHS_PER_PAGE as int)) * spec_glyph_width(h),
                                (k % (GLYPHS_PER_PAGE as int)) * spec_glyph_height(h),
                                spec_glyph_width(h) as int,
                                spec_glyph_height(h) as int,
                            )
                        &&& f.cache.entries@.len() == 0
                    }
                },
            },
    {
        let (w, h, pixels) = match decode_image(data) {
            Ok(ok) => ok,
            Err(message) => {
                return Err(FontFileError::DecodeError { message });
            },
        };
        proof {
            assert((w as int) * (h as int) < 0x1_0000_0000_0000_0000) by (nonlinear_arith)
                requires
                    w <= u32::MAX,
                    h <= u32::MAX,
            ;
        }
        if (w as u64) * (h as u64) > (u32::MAX as u64) / 4 {
            proof {
                assert(4 * w * h > u32::MAX) by (nonlinear_arith)
                    requires
                        (w as int) * (h as int) > ((u32::MAX as int) / 4),
                ;
            }
            return Err(
                FontFileError::DecodeError {
                    message: String::from_str("decoded font sheet is too large to index"),
                },
            );
        }
        proof {
            assert(4 * w * h <= u32::MAX) by (nonlinear_arith)
                requires
                    (w as int) * (h as int) <= ((u32::MAX as int) / 4),
            ;
        }
        let size = Dimension { width: w, height: h };
        let (font_character_size, font_type) = match detect_font_character_size(size) {
            Ok(ok) => ok,
            Err(e) => {
                return Err(e);
            },
        };
        let sheet = match RgbaBuffer::from_raw(w, h, pixels) {
            Some(b) => b,
            None => {
                proof {
                    assert(false);
                }
                return Err(
                    FontFileError::DecodeError {
                        message: String::from_str("decoded pixel buffer size mismatch"),
                    },
                );
            },
        };
        proof {
            let cw = font_character_size.width as int;
            assert((sheet.width as int) / cw >= 1) by (nonlinear_arith)
                requires
                    cw > 0,
                    sheet.width >= cw,
            ;
            assert(font_type.spec_raw_value() <= (sheet.width as int) / cw);
        }
        let characters = split_characters(&sheet, &font_character_size, &font_type);
        let character_count: u32 = characters.len() as u32;
        let cache = ImageCache::new(GLYPH_CACHE_SIZE);
        let f = FontFile { font_type, font_character_size, character_count, characters, cache };
        proof {
            lemma_mul_le(
                f.font_character_size.width as int,
                f.font_character_size.height as int,
                w as int,
                h as int,
            );
            lemma_buf_size(
                f.font_character_size.width as int,
                f.font_character_size.height as int,
            );
        }
        Ok(f)
    }

    /// Serves the glyph bitmap for `index`, scaled to the desired cell
    /// size by the size class's multiplier (rounded to the nearest pixel).
    /// The index is wrapped modulo the glyph count, so single-page fonts
    /// serve multi-page OSD streams; the resized bitmap is cached under
    /// the raw index and target size, and cache hits skip the resampling.
    /// A degenerate target size (zero pixels wide or high) yields `None`.
    pub fn get_character(
        &mut self,
        index: usize,
        size_class: &CharacterSizeClass,
        desired_size: Dimension<u32>,
    ) -> (r: Option<RgbaBuffer>)
        requires
            old(self).wf(),
            desired_size.width <= 8192,
            desired_size.height <= 8192,
        ensures
            final(self).wf(),
            final(self).font_type == old(self).font_type,
            final(self).font_character_size == old(self).font_character_size,
            final(self).character_count == old(self).character_count,
            final(self).characters@ == old(self).characters@,
            ({
                let tw = spec_target_dim(desired_size.width, size_class.spec_multiplier_permille());
                let th = spec_target_dim(
                    desired_size.height,
                    size_class.spec_multiplier_permille(),
                );
                &&& (r is Some <==> tw > 0 && th > 0)
                &&& r matches Some(b) ==> b.wf() && b.width == tw && b.height == th && b.bytes()
                    == old(self).spec_glyph_bytes(index as int, tw, th)
            }),
    {
        let mult = size_class.multiplier_permille();
        let tw = target_dim(desired_size.width, mult);
        let th = target_dim(desired_size.height, mult);
        if tw == 0 || th == 0 {
            return None;
        }
        proof {
            assert(4 * tw * th <= u32::MAX) by (nonlinear_arith)
                requires
                    0 < tw <= 9831,
                    0 < th <= 9831,
            ;
        }
        let key = CacheKey { index: index as u64, width: tw, height: th };
        if let Some(cached) = self.cache.get(&key) {
            return Some(cached);
        }
        let wrapped_char_index = index % (self.character_count as usize);
        let src = &self.characters[wrapped_char_index];
        let bitmap = if tw == src.width && th == src.height {
            src.duplicate()
        } else {
            triangle_resize(src, tw, th)
        };
        self.cache.insert(key, bitmap.duplicate());
        proof {
            let entries = self.cache.entries@;
            assert forall|j: int| 0 <= j < entries.len() implies {
                let (k, b) = #[trigger] entries[j];
                &&& b.wf()
                &&& b.width == k.width
                &&& b.height == k.height
                &&& b.bytes() == self.spec_glyph_bytes(k.index as int, k.width, k.height)
            } by {
                if j < old(self).cache.entries@.len() {
                    assert(entries[j] == old(self).cache.entries@[j]);
                }
            }
        }
        Some(bitmap)
    }
}

/// A length scaled by a multiplier in thousandths, rounded to the nearest
/// integer.
pub open spec fn spec_target_dim(v: u32, permille: u32) -> u32 {
    (((v as int) * (permille as int) + 500) / 1000) as u32
}

/// Scales a length by a multiplier in thousandths, rounding to nearest.
fn target_dim(v: u32, permille: u32) -> (r: u32)
    requires
        v <= 8192,
        permille <= 1200,
    ensures
        r == spec_target_dim(v, permille),
        r <= 9831,
{
    proof {
        assert((v as int) * (permille as int) <= 9830400) by (nonlinear_arith)
            requires
                v <= 8192,
                permille <= 1200,
        ;
    }
    (((v as u64) * (permille as u64) + 500) / 1000) as u32
}

/// Slices a character sheet into its glyph bitmaps: the outer loop walks
/// the colour pages (columns), the inner loop the 256 glyph rows, so the
/// flat order is `page * 256 + row`.
fn split_characters(
    sheet: &RgbaBuffer,
    character_size: &Dimension<u32>,
    font_type: &FontType,
) -> (r: Vec<RgbaBuffer>)
    requires
        sheet.wf(),
        character_size.width == spec_glyph_width(sheet.height),
        character_size.height == spec_glyph_height(sheet.height),
        spec_sheet_valid(Dimension { width: sheet.width, height: sheet.height }),
        font_type.spec_raw_value() <= sheet.width / character_size.width,
    ensures
        r@.len() == font_type.spec_raw_value() * (GLYPHS_PER_PAGE as int),
        forall|k: int|
            0 <= k < r@.len() ==> {
                let ch = #[trigger] r@[k];
                &&& ch.wf()
                &&& ch.width == character_size.width
                &&& ch.height == character_size.height
                &&& ch.bytes() == spec_sub_image(
                    sheet.bytes(),
                    sheet.width as int,
                    (k / (GLYPHS_PER_PAGE as int)) * character_size.width,
                    (k % (GLYPHS_PER_PAGE as int)) * character_size.height,
                    character_size.width as int,
                    character_size.height as int,
                )
            },
{
    let columns: u32 = font_type.raw_value();
    let cw = character_size.width;
    let ch = character_size.height;
    let mut char_vec: Vec<RgbaBuffer> = Vec::new();
    let mut page: u32 = 0;
    while page < columns
        invariant
            sheet.wf(),
            cw == spec_glyph_width(sheet.height),
            ch == spec_glyph_height(sheet.height),
            spec_sheet_valid(Dimension { width: sheet.width, height: sheet.height }),
            columns == font_type.spec_raw_value(),
            columns <= sheet.width / cw,
            page <= columns,
            char_vec@.len() == page * (GLYPHS_PER_PAGE as int),
            forall|k: int|
                0 <= k < char_vec@.len() ==> {
                    let chb = #[trigger] char_vec@[k];
                    &&& chb.wf()
                    &&& chb.width == cw
                    &&& chb.height == ch
                    &&& chb.bytes() == spec_sub_image(
                        sheet.bytes(),
                        sheet.width as int,
                        (k / (GLYPHS_PER_PAGE as int)) * cw,
                        (k % (GLYPHS_PER_PAGE as int)) * ch,
                        cw as int,
                        ch as int,
                    )
                },
        decreases columns - page,
    {
        proof {
            lemma_tile_fits(sheet.width as int, cw as int, page as int, columns as int);
        }
        let x = page * cw;
        let mut char_idx: u32 = 0;
        while char_idx < GLYPHS_PER_PAGE
            invariant
                sheet.wf(),
                cw == spec_glyph_width(sheet.height),
                ch == spec_glyph_height(sheet.height),
                spec_sheet_valid(Dimension { width: sheet.width, height: sheet.height }),
                columns == font_type.spec_raw_value(),
                columns <= sheet.width / cw,
                page < columns,
                x == page * cw,
                x + cw <= sheet.width,
                char_idx <= GLYPHS_PER_PAGE,
                char_vec@.len() == page * (GLYPHS_PER_PAGE as int) + char_idx,
                forall|k: int|
                    0 <= k < char_vec@.len() ==> {
                        let chb = #[trigger] char_vec@[k];
                        &&& chb.wf()
                        &&& chb.width == cw
                        &&& chb.height == ch
                        &&& chb.bytes() == spec_sub_image(
                            sheet.bytes(),
                            sheet.width as int,
                            (k / (GLYPHS_PER_PAGE as int)) * cw,
                            (k % (GLYPHS_PER_PAGE as int)) * ch,
                            cw as int,
                            ch as int,
                        )
                    },
            decreases GLYPHS_PER_PAGE - char_idx,
        {
            proof {
                assert(0 <= (char_idx as int) * (ch as int) && (char_idx as int) * (ch as int)
                    + ch <= sheet.height) by (nonlinear_arith)
                    requires
                        0 <= (char_idx as int) < 256,
                        (ch as int) == (sheet.height as int) / 256,
                        (sheet.height as int) % 256 == 0,
                ;
            }
            let y = char_idx * ch;
            let glyph = extract_sub(sheet, x, y, cw, ch);
            char_vec.push(glyph);
            proof {
                let k = char_vec@.len() - 1;
                assert(k == page * (GLYPHS_PER_PAGE as int) + char_idx);
                assert(k / (GLYPHS_PER_PAGE as int) == page && k % (GLYPHS_PER_PAGE as int)
                    == char_idx) by {
                    vstd::arithmetic::div_mod::lemma_fundamental_div_mod_converse(
                        k,
                        GLYPHS_PER_PAGE as int,
                        page as int,
                        char_idx as int,
                    );
                }
            }
            char_idx = char_idx + 1;
        }
        page = page + 1;
        proof {
            assert(char_vec@.len() == page * (GLYPHS_PER_PAGE as int));
        }
    }
    char_vec
}

/// Serving a glyph index shifted by any whole number of glyph counts
/// selects the same bitmap: `get_character` wraps its index modulo the
/// font's glyph count.
pub proof fn lemma_glyph_modulo_wrap(font: FontFile, index: int, n: int, tw: u32, th: u32)
    requires
        font.wf(),
        0 <= index,
        0 <= n,
    ensures
        font.spec_glyph_bytes(index + n * font.characters@.len(), tw, th)
            == font.spec_glyph_bytes(index, tw, th),
{
    let len = font.characters@.len() as int;
    vstd::arithmetic::div_mod::lemma_mod_multiples_vanish(n, index, len);
    assert(index + n * len == len * n + index) by (nonlinear_arith);
}

} // verus!
