use vstd::prelude::*;

use vstd::pervasive::VecAdditionalExecFns;

use crate::osd;
use crate::util::Dimension;

verus! {

/// An RGBA8 frame buffer: row-major, tightly packed, four bytes per pixel.
#[derive(Debug, Clone)]
pub struct RgbaBuffer {
    pub width: u32,
    pub height: u32,
    pub data: Vec<u8>,
}

/// The byte at channel `c` of the pixel `(px, py)` of an image of width
/// `w` stored as a tightly packed RGBA byte sequence.
pub open spec fn spec_px_byte(data: Seq<u8>, w: int, px: int, py: int, c: int) -> u8 {
    data[4 * (py * w + px) + c]
}

/// Whether pixel `(px, py)` of the bottom image lies under a top image of
/// size `tw` x `th` placed at `(x, y)`.
pub open spec fn spec_covered(x: int, y: int, tw: int, th: int, px: int, py: int) -> bool {
    x <= px < x + tw && y <= py < y + th
}

/// Whether every pixel of an RGBA byte sequence is either fully opaque or
/// fully transparent.
pub open spec fn spec_simple_alpha(data: Seq<u8>) -> bool {
    forall|p: int|
        0 <= p < data.len() / 4 ==> #[trigger] data[4 * p + 3] == 0 || data[4 * p + 3] == 255
}

/// Whether every pixel of an RGBA byte sequence is fully opaque.
pub open spec fn spec_all_opaque(data: Seq<u8>) -> bool {
    forall|p: int| 0 <= p < data.len() / 4 ==> #[trigger] data[4 * p + 3] == 255
}

/// Whether every pixel of an RGBA byte sequence is fully transparent.
pub open spec fn spec_all_transparent(data: Seq<u8>) -> bool {
    forall|p: int| 0 <= p < data.len() / 4 ==> #[trigger] data[4 * p + 3] == 0
}

/// Whether the top rectangle lies entirely outside the bottom image.
pub open spec fn spec_overlay_disjoint(
    bw: int,
    bh: int,
    tw: int,
    th: int,
    x: int,
    y: int,
) -> bool {
    x >= bw || y >= bh || x + tw <= 0 || y + th <= 0
}

/// The result of compositing `top` onto `bottom` at `(x, y)` by direct
/// pixel copy: each fully opaque top pixel replaces the bottom pixel it
/// covers, all four bytes; every other byte is unchanged.
pub open spec fn spec_copy_composite(
    bottom: Seq<u8>,
    bw: int,
    top: Seq<u8>,
    tw: int,
    th: int,
    x: int,
    y: int,
) -> Seq<u8> {
    Seq::new(
        bottom.len(),
        |i: int|
            {
                let p = i / 4;
                let c = i % 4;
                let px = p % bw;
                let py = p / bw;
                if spec_covered(x, y, tw, th, px, py) && spec_px_byte(top, tw, px - x, py - y, 3)
                    == 255 {
                    spec_px_byte(top, tw, px - x, py - y, c)
                } else {
                    bottom[i]
                }
            },
    )
}

/// What `image::imageops::overlay` produces when alpha-blending `top` onto
/// `bottom` at `(x, y)`: named here, pinned down pixel by pixel only where
/// the blend degenerates to a copy or to the identity.
pub uninterp spec fn spec_blended_composite(
    bottom: Seq<u8>,
    bw: int,
    bh: int,
    top: Seq<u8>,
    tw: int,
    th: int,
    x: int,
    y: int,
) -> Seq<u8>;

/// Bound on `x` and `y` offsets handed to the compositor, so that clipping
/// arithmetic stays within `i64`.
pub open spec fn spec_offset_in_range(v: int) -> bool {
    -0x4_0000_0000 < v < 0x4_0000_0000
}

/// Facts about the size of a well-formed buffer, proved once: the pixel
/// count fits comfortably, and the byte count is four times it.
pub(crate) proof fn lemma_buf_size(w: int, h: int) by (nonlinear_arith)
    requires
        0 <= w,
        0 <= h,
        4 * w * h <= u32::MAX,
    ensures
        w * h <= 0x3fffffff,
        4 * (w * h) == 4 * w * h,
        w == 0 || h == 0 ==> 4 * w * h == 0,
        4 * w * h > 0 ==> w > 0 && h > 0,
{
}

/// A product grows with each factor.
pub(crate) proof fn lemma_mul_le(w: int, h: int, bigw: int, bigh: int) by (nonlinear_arith)
    requires
        0 <= w <= bigw,
        0 <= h <= bigh,
    ensures
        w * h <= bigw * bigh,
        4 * w * h <= 4 * bigw * bigh,
{
}

/// The flat cell index of `(x, y)` in a `w` x `h` grid is within the grid.
pub(crate) proof fn lemma_grid_index(w: int, h: int, x: int, y: int) by (nonlinear_arith)
    requires
        0 <= x < w,
        0 <= y < h,
    ensures
        0 <= y * w + x,
        y * w + x < w * h,
{
}

/// Distinct pixel/channel coordinates give distinct flat byte indices.
pub(crate) proof fn lemma_byte_index_injective(
    w: int,
    px1: int,
    py1: int,
    c1: int,
    px2: int,
    py2: int,
    c2: int,
) by (nonlinear_arith)
    requires
        0 <= px1 < w,
        0 <= py1,
        0 <= c1 < 4,
        0 <= px2 < w,
        0 <= py2,
        0 <= c2 < 4,
        4 * (py1 * w + px1) + c1 == 4 * (py2 * w + px2) + c2,
    ensures
        px1 == px2,
        py1 == py2,
        c1 == c2,
{
}

/// The pixel/channel coordinates of a flat byte index.
pub(crate) proof fn lemma_byte_index_decompose(data_len: int, w: int, h: int, i: int) by (nonlinear_arith)
    requires
        data_len == 4 * w * h,
        0 <= i < data_len,
        w > 0,
    ensures
        ({
            let p = i / 4;
            let c = i % 4;
            let px = p % w;
            let py = p / w;
            &&& 0 <= c < 4
            &&& 0 <= px < w
            &&& 0 <= py < h
            &&& i == 4 * (py * w + px) + c
        }),
{
}

impl RgbaBuffer {
    /// A buffer is well formed when its byte vector exactly tiles its
    /// pixel grid and the whole buffer is small enough to index.
    pub open spec fn wf(&self) -> bool {
        &&& self.data@.len() == 4 * self.width * self.height
        &&& 4 * self.width * self.height <= u32::MAX
    }

    pub open spec fn bytes(&self) -> Seq<u8> {
        self.data@
    }

    /// A buffer filled with one colour everywhere.
    pub fn filled(width: u32, height: u32, color: [u8; 4]) -> (r: RgbaBuffer)
        requires
            4 * width * height <= u32::MAX,
        ensures
            r.wf(),
            r.width == width,
            r.height == height,
            forall|i: int| 0 <= i < r.bytes().len() ==> r.bytes()[i] == color@[i % 4],
    {
        proof {
            lemma_buf_size(width as int, height as int);
        }
        let wh: usize = (width as usize) * (height as usize);
        let mut data: Vec<u8> = Vec::new();
        let mut p: usize = 0;
        while p < wh
            invariant
                wh <= 0x3fffffff,
                p <= wh,
                data@.len() == 4 * p,
                forall|j: int| 0 <= j < 4 * p ==> data@[j] == color@[j % 4],
            decreases wh - p,
        {
            data.push(color[0]);
            data.push(color[1]);
            data.push(color[2]);
            data.push(color[3]);
            proof {
                assert forall|j: int| 0 <= j < 4 * (p + 1) implies data@[j] == color@[j % 4] by {
                    if j >= 4 * p {
                        let c = j - 4 * p;
                        vstd::arithmetic::div_mod::lemma_mod_multiples_vanish(p as int, c, 4);
                        vstd::arithmetic::div_mod::lemma_small_mod(c as nat, 4);
                    }
                }
            }
            p = p + 1;
        }
        RgbaBuffer { width, height, data }
    }

    /// Wraps raw RGBA bytes as a buffer; fails if the byte count does not
    /// match the dimensions.
    pub fn from_raw(width: u32, height: u32, data: Vec<u8>) -> (r: Option<RgbaBuffer>)
        requires
            4 * width * height <= u32::MAX,
        ensures
            match r {
                Some(b) => {
                    &&& data@.len() == 4 * width * height
                    &&& b.wf()
                    &&& b.width == width
                    &&& b.height == height
                    &&& b.bytes() == data@
                },
                None => data@.len() != 4 * width * height,
            },
    {
        proof {
            lemma_buf_size(width as int, height as int);
        }
        let wh: usize = (width as usize) * (height as usize);
        if data.len() == 4 * wh {
            Some(RgbaBuffer { width, height, data })
        } else {
            None
        }
    }

    /// Hands the raw bytes back out.
    pub fn into_raw(self) -> (r: Vec<u8>)
        ensures
            r@ == self.bytes(),
    {
        self.data
    }

    /// A borrowed view of the raw bytes.
    pub fn as_bytes(&self) -> (r: &Vec<u8>)
        ensures
            r@ == self.bytes(),
    {
        &self.data
    }

    /// An exact copy of the buffer.
    pub fn duplicate(&self) -> (r: RgbaBuffer)
        ensures
            r.width == self.width,
            r.height == self.height,
            r.bytes() == self.bytes(),
    {
        let n = self.data.len();
        let mut data: Vec<u8> = Vec::new();
        let mut i: usize = 0;
        while i < n
            invariant
                n == self.data@.len(),
                i <= n,
                data@ =~= self.data@.subrange(0, i as int),
            decreases n - i,
        {
            data.push(self.data[i]);
            proof {
                assert(data@ =~= self.data@.subrange(0, i + 1));
            }
            i = i + 1;
        }
        proof {
            assert(data@ =~= self.data@);
        }
        RgbaBuffer { width: self.width, height: self.height, data }
    }

    /// The four bytes of one pixel.
    pub fn pixel(&self, px: u32, py: u32) -> (r: [u8; 4])
        requires
            self.wf(),
            px < self.width,
            py < self.height,
        ensures
            forall|c: int|
                0 <= c < 4 ==> r@[c] == spec_px_byte(
                    self.bytes(),
                    self.width as int,
                    px as int,
                    py as int,
                    c,
                ),
    {
        proof {
            lemma_buf_size(self.width as int, self.height as int);
            lemma_grid_index(self.width as int, self.height as int, px as int, py as int);
        }
        let base: usize = 4 * ((py as usize) * (self.width as usize) + (px as usize));
        [self.data[base], self.data[base + 1], self.data[base + 2], self.data[base + 3]]
    }
}

/// Composites `top` onto `bottom` in place, placing the top-left corner of
/// `top` at `(x, y)` of `bottom` (which may be negative or out of range:
/// the overlap is clipped).
///
/// When every top pixel is fully opaque or fully transparent — the common
/// case for OSD glyphs — the opaque pixels are copied directly, with no
/// blend arithmetic; `image::imageops::overlay` would produce exactly the
/// same bytes there, since its per-pixel blend replaces the bottom pixel
/// under a fully opaque top pixel and keeps it under a fully transparent
/// one. Only images with intermediate alpha fall back to the blended
/// overlay itself.
pub fn fast_overlay(bottom: &mut RgbaBuffer, top: &RgbaBuffer, x: i64, y: i64)
    requires
        old(bottom).wf(),
        top.wf(),
        spec_offset_in_range(x as int),
        spec_offset_in_range(y as int),
    ensures
        final(bottom).wf(),
        final(bottom).width == old(bottom).width,
        final(bottom).height == old(bottom).height,
        spec_simple_alpha(top.bytes()) || spec_overlay_disjoint(
            old(bottom).width as int,
            old(bottom).height as int,
            top.width as int,
            top.height as int,
            x as int,
            y as int,
        ) ==> final(bottom).bytes() == spec_copy_composite(
            old(bottom).bytes(),
            old(bottom).width as int,
            top.bytes(),
            top.width as int,
            top.height as int,
            x as int,
            y as int,
        ),
        !(spec_simple_alpha(top.bytes()) || spec_overlay_disjoint(
            old(bottom).width as int,
            old(bottom).height as int,
            top.width as int,
            top.height as int,
            x as int,
            y as int,
        )) ==> final(bottom).bytes() == spec_blended_composite(
            old(bottom).bytes(),
            old(bottom).width as int,
            old(bottom).height as int,
            top.bytes(),
            top.width as int,
            top.height as int,
            x as int,
            y as int,
        ),
{
    let bw = bottom.width;
    let bh = bottom.height;
    let tw = top.width;
    let th = top.height;

    // The top rectangle misses the bottom image entirely: nothing to draw.
    if x >= bw as i64 || y >= bh as i64 || x + (tw as i64) <= 0 || y + (th as i64) <= 0 {
        proof {
            lemma_buf_size(bw as int, bh as int);
            assert(bottom.bytes() =~= spec_copy_composite(
                bottom.bytes(),
                bw as int,
                top.bytes(),
                tw as int,
                th as int,
                x as int,
                y as int,
            )) by {
                assert forall|i: int| 0 <= i < bottom.bytes().len() implies spec_copy_composite(
                    bottom.bytes(),
                    bw as int,
                    top.bytes(),
                    tw as int,
                    th as int,
                    x as int,
                    y as int,
                )[i] == bottom.bytes()[i] by {
                    lemma_byte_index_decompose(
                        bottom.bytes().len() as int,
                        bw as int,
                        bh as int,
                        i,
                    );
                }
            }
        }
        return ;
    }
    if simple_alpha(top) {
        copy_overlay(bottom, top, x, y);
    } else {
        blend_overlay(bottom, top, x, y);
    }
}

/// Whether every pixel of the image is fully opaque or fully transparent.
fn simple_alpha(img: &RgbaBuffer) -> (r: bool)
    requires
        img.wf(),
    ensures
        r == spec_simple_alpha(img.bytes()),
{
    proof {
        lemma_buf_size(img.width as int, img.height as int);
    }
    let n: usize = (img.width as usize) * (img.height as usize);
    let bytes = img.as_bytes();
    let mut p: usize = 0;
    while p < n
        invariant
            4 * n == img.bytes().len(),
            n <= 0x3fffffff,
            bytes@ == img.bytes(),
            p <= n,
            forall|q: int|
                0 <= q < p ==> #[trigger] img.bytes()[4 * q + 3] == 0 || img.bytes()[4 * q + 3]
                    == 255,
        decreases n - p,
    {
        let a = bytes[4 * p + 3];
        if a != 0 && a != 255 {
            return false;
        }
        p = p + 1;
    }
    true
}

/// The state of one byte of the bottom image while the copy loop is part
/// way through: rows before `done_y` are fully composited, and within row
/// `done_y` the pixels before `done_x` are composited.
pub open spec fn spec_composite_partial(
    bottom: Seq<u8>,
    bw: int,
    top: Seq<u8>,
    tw: int,
    th: int,
    x: int,
    y: int,
    px: int,
    py: int,
    c: int,
    done_y: int,
    done_x: int,
) -> u8 {
    if spec_covered(x, y, tw, th, px, py) && (py < done_y || (py == done_y && px < done_x))
        && spec_px_byte(top, tw, px - x, py - y, 3) == 255 {
        spec_px_byte(top, tw, px - x, py - y, c)
    } else {
        spec_px_byte(bottom, bw, px, py, c)
    }
}

/// The verified copy path: copies every fully opaque top pixel over the
/// bottom pixel it covers, and leaves every other byte alone.
fn copy_overlay(bottom: &mut RgbaBuffer, top: &RgbaBuffer, x: i64, y: i64)
    requires
        old(bottom).wf(),
        top.wf(),
        spec_offset_in_range(x as int),
        spec_offset_in_range(y as int),
    ensures
        final(bottom).wf(),
        final(bottom).width == old(bottom).width,
        final(bottom).height == old(bottom).height,
        final(bottom).bytes() == spec_copy_composite(
            old(bottom).bytes(),
            old(bottom).width as int,
            top.bytes(),
            top.width as int,
            top.height as int,
            x as int,
            y as int,
        ),
{
    let bw = bottom.width;
    let bh = bottom.height;
    let tw = top.width;
    let th = top.height;
    let ghost old_data = bottom.data@;
    proof {
        lemma_buf_size(bw as int, bh as int);
        lemma_buf_size(tw as int, th as int);
    }

    let mut ty: u32 = 0;
    while ty < th
        invariant
            bottom.width == bw,
            bottom.height == bh,
            bottom.wf(),
            top.wf(),
            tw == top.width,
            th == top.height,
            spec_offset_in_range(x as int),
            spec_offset_in_range(y as int),
            old_data.len() == bottom.data@.len(),
            ty <= th,
            forall|px: int, py: int, c: int|
                0 <= px < bw && 0 <= py < bh && 0 <= c < 4 ==> #[trigger] spec_px_byte(
                    bottom.data@,
                    bw as int,
                    px,
                    py,
                    c,
                ) == spec_composite_partial(
                    old_data,
                    bw as int,
                    top.bytes(),
                    tw as int,
                    th as int,
                    x as int,
                    y as int,
                    px,
                    py,
                    c,
                    y + ty,
                    x as int,
                ),
        decreases th - ty,
    {
        let by = y + ty as i64;
        if 0 <= by && by < bh as i64 {
            let mut tx: u32 = 0;
            while tx < tw
                invariant
                    bottom.width == bw,
                    bottom.height == bh,
                    bottom.wf(),
                    top.wf(),
                    tw == top.width,
                    th == top.height,
                    spec_offset_in_range(x as int),
                    spec_offset_in_range(y as int),
                    old_data.len() == bottom.data@.len(),
                    ty < th,
                    by == y + ty,
                    0 <= by < bh,
                    tx <= tw,
                    forall|px: int, py: int, c: int|
                        0 <= px < bw && 0 <= py < bh && 0 <= c < 4 ==> #[trigger] spec_px_byte(
                            bottom.data@,
                            bw as int,
                            px,
                            py,
                            c,
                        ) == spec_composite_partial(
                            old_data,
                            bw as int,
                            top.bytes(),
                            tw as int,
                            th as int,
                            x as int,
                            y as int,
                            px,
                            py,
                            c,
                            y + ty,
                            x + tx,
                        ),
                decreases tw - tx,
            {
                let bx = x + tx as i64;
                if 0 <= bx && bx < bw as i64 {
                    proof {
                        lemma_buf_size(bw as int, bh as int);
                        lemma_buf_size(tw as int, th as int);
                        lemma_grid_index(tw as int, th as int, tx as int, ty as int);
                        lemma_grid_index(bw as int, bh as int, bx as int, by as int);
                    }
                    let t_base: usize = 4 * ((ty as usize) * (tw as usize) + (tx as usize));
                    let a = top.data[t_base + 3];
                    if a == 255 {
                        let b_base: usize = 4 * ((by as usize) * (bw as usize) + (bx as usize));
                        let ghost pre = bottom.data@;
                        bottom.data.set(b_base, top.data[t_base]);
                        bottom.data.set(b_base + 1, top.data[t_base + 1]);
                        bottom.data.set(b_base + 2, top.data[t_base + 2]);
                        bottom.data.set(b_base + 3, top.data[t_base + 3]);
                        proof {
                            assert forall|px: int, py: int, c: int|
                                0 <= px < bw && 0 <= py < bh && 0 <= c
                                    < 4 implies #[trigger] spec_px_byte(
                                bottom.data@,
                                bw as int,
                                px,
                                py,
                                c,
                            ) == spec_composite_partial(
                                old_data,
                                bw as int,
                                top.bytes(),
                                tw as int,
                                th as int,
                                x as int,
                                y as int,
                                px,
                                py,
                                c,
                                y + ty,
                                x + tx + 1,
                            ) by {
                                let i = 4 * (py * (bw as int) + px) + c;
                                lemma_grid_index(bw as int, bh as int, px, py);
                                assert(spec_px_byte(pre, bw as int, px, py, c)
                                    == spec_composite_partial(
                                    old_data,
                                    bw as int,
                                    top.bytes(),
                                    tw as int,
                                    th as int,
                                    x as int,
                                    y as int,
                                    px,
                                    py,
                                    c,
                                    y + ty,
                                    x + tx,
                                ));
                                if px == bx as int && py == by as int {
                                    assert(i == b_base + c);
                                    assert(px - x == tx as int && py - y == ty as int);
                                    assert(4 * ((py - y) * (tw as int) + (px - x)) + c == t_base
                                        + c);
                                    assert(4 * ((py - y) * (tw as int) + (px - x)) + 3 == t_base
                                        + 3);
                                    assert(bottom.data@[b_base + 0] == top.data@[t_base + 0]);
                                    assert(bottom.data@[b_base + 1] == top.data@[t_base + 1]);
                                    assert(bottom.data@[b_base + 2] == top.data@[t_base + 2]);
                                    assert(bottom.data@[b_base + 3] == top.data@[t_base + 3]);
                                } else {
                                    assert(i != b_base + 0 && i != b_base + 1 && i != b_base + 2
                                        && i != b_base + 3) by {
                                        if b_base <= i <= b_base + 3 {
                                            lemma_byte_index_injective(
                                                bw as int,
                                                px,
                                                py,
                                                c,
                                                bx as int,
                                                by as int,
                                                i - b_base,
                                            );
                                        }
                                    }
                                    assert(bottom.data@[i] == pre[i]);
                                }
                            }
                        }
                    } else {
                        proof {
                            assert forall|px: int, py: int, c: int|
                                0 <= px < bw && 0 <= py < bh && 0 <= c
                                    < 4 implies #[trigger] spec_px_byte(
                                bottom.data@,
                                bw as int,
                                px,
                                py,
                                c,
                            ) == spec_composite_partial(
                                old_data,
                                bw as int,
                                top.bytes(),
                                tw as int,
                                th as int,
                                x as int,
                                y as int,
                                px,
                                py,
                                c,
                                y + ty,
                                x + tx + 1,
                            ) by {
                                lemma_grid_index(bw as int, bh as int, px, py);
                            }
                        }
                    }
                }
                tx = tx + 1;
            }
        } else {
            proof {
                assert forall|px: int, py: int, c: int|
                    0 <= px < bw && 0 <= py < bh && 0 <= c < 4 implies #[trigger] spec_px_byte(
                    bottom.data@,
                    bw as int,
                    px,
                    py,
                    c,
                ) == spec_composite_partial(
                    old_data,
                    bw as int,
                    top.bytes(),
                    tw as int,
                    th as int,
                    x as int,
                    y as int,
                    px,
                    py,
                    c,
                    y + ty + 1,
                    x as int,
                ) by {
                    lemma_grid_index(bw as int, bh as int, px, py);
                }
            }
        }
        ty = ty + 1;
    }
    proof {
        lemma_buf_size(bw as int, bh as int);
        assert(bottom.data@ =~= spec_copy_composite(
            old_data,
            bw as int,
            top.bytes(),
            tw as int,
            th as int,
            x as int,
            y as int,
        )) by {
            assert forall|i: int| 0 <= i < bottom.data@.len() implies bottom.data@[i]
                == spec_copy_composite(
                old_data,
                bw as int,
                top.bytes(),
                tw as int,
                th as int,
                x as int,
                y as int,
            )[i] by {
                lemma_byte_index_decompose(bottom.data@.len() as int, bw as int, bh as int, i);
                let p = i / 4;
                let c = i % 4;
                let px = p % (bw as int);
                let py = p / (bw as int);
                assert(spec_px_byte(bottom.data@, bw as int, px, py, c) == spec_composite_partial(
                    old_data,
                    bw as int,
                    top.bytes(),
                    tw as int,
                    th as int,
                    x as int,
                    y as int,
                    px,
                    py,
                    c,
                    y + th,
                    x as int,
                ));
            }
        }
    }
}

/// Relies on `image::imageops::overlay`: alpha-blends `top` onto `bottom`
/// in place with src-over compositing, clipping the overlap to the bottom
/// image. Its per-pixel blend leaves the bottom pixel unchanged under a
/// fully transparent top pixel, replaces it under a fully opaque one, and
/// touches nothing outside the overlap.
#[verifier::external_body]
fn blend_overlay(bottom: &mut RgbaBuffer, top: &RgbaBuffer, x: i64, y: i64)
    requires
        old(bottom).wf(),
        top.wf(),
    ensures
        final(bottom).wf(),
        final(bottom).width == old(bottom).width,
        final(bottom).height == old(bottom).height,
        final(bottom).bytes() == spec_blended_composite(
            old(bottom).bytes(),
            old(bottom).width as int,
            old(bottom).height as int,
            top.bytes(),
            top.width as int,
            top.height as int,
            x as int,
            y as int,
        ),
        forall|px: int, py: int, c: int|
            0 <= px < old(bottom).width && 0 <= py < old(bottom).height && 0 <= c < 4
                && !spec_covered(
                x as int,
                y as int,
                top.width as int,
                top.height as int,
                px,
                py,
            ) ==> #[trigger] spec_px_byte(
                final(bottom).bytes(),
                old(bottom).width as int,
                px,
                py,
                c,
            ) == spec_px_byte(old(bottom).bytes(), old(bottom).width as int, px, py, c),
        forall|px: int, py: int, c: int|
            0 <= px < old(bottom).width && 0 <= py < old(bottom).height && 0 <= c < 4
                && spec_covered(x as int, y as int, top.width as int, top.height as int, px, py)
                && spec_px_byte(top.bytes(), top.width as int, px - x, py - y, 3) == 0
                ==> #[trigger] spec_px_byte(
                final(bottom).bytes(),
                old(bottom).width as int,
                px,
                py,
                c,
            ) == spec_px_byte(old(bottom).bytes(), old(bottom).width as int, px, py, c),
        forall|px: int, py: int, c: int|
            0 <= px < old(bottom).width && 0 <= py < old(bottom).height && 0 <= c < 4
                && spec_covered(x as int, y as int, top.width as int, top.height as int, px, py)
                && spec_px_byte(top.bytes(), top.width as int, px - x, py - y, 3) == 255
                ==> #[trigger] spec_px_byte(
                final(bottom).bytes(),
                old(bottom).width as int,
                px,
                py,
                c,
            ) == spec_px_byte(top.bytes(), top.width as int, px - x, py - y, c),
{
    let mut b = image::RgbaImage::from_raw(
        bottom.width,
        bottom.height,
        std::mem::replace(&mut bottom.data, Vec::new()),
    ).unwrap();
    let t = image::RgbaImage::from_raw(top.width, top.height, top.data.clone()).unwrap();
    image::imageops::overlay(&mut b, &t, x, y);
    bottom.data = b.into_raw();
}

/// Compositing a fully transparent image leaves the buffer unchanged.
pub proof fn lemma_transparent_overlay_is_identity(
    bottom: Seq<u8>,
    bw: int,
    bh: int,
    top: Seq<u8>,
    tw: int,
    th: int,
    x: int,
    y: int,
)
    requires
        spec_all_transparent(top),
        bottom.len() == 4 * bw * bh,
        top.len() == 4 * tw * th,
        bw > 0,
        bh >= 0,
        tw > 0,
        th >= 0,
        4 * bw * bh <= u32::MAX,
        4 * tw * th <= u32::MAX,
    ensures
        spec_copy_composite(bottom, bw, top, tw, th, x, y) =~= bottom,
{
    lemma_buf_size(bw, bh);
    lemma_buf_size(tw, th);
    assert forall|i: int| 0 <= i < bottom.len() implies spec_copy_composite(
        bottom,
        bw,
        top,
        tw,
        th,
        x,
        y,
    )[i] == bottom[i] by {
        lemma_byte_index_decompose(bottom.len() as int, bw, bh, i);
        let p = i / 4;
        let px = p % bw;
        let py = p / bw;
        if spec_covered(x, y, tw, th, px, py) {
            lemma_grid_index(tw, th, px - x, py - y);
            assert(top[4 * ((py - y) * tw + (px - x)) + 3] == 0);
        }
    }
}

/// Compositing a fully opaque image replaces exactly the covered pixels
/// with the image's pixels and leaves the rest of the buffer unchanged.
pub proof fn lemma_opaque_overlay_replaces(
    bottom: Seq<u8>,
    bw: int,
    bh: int,
    top: Seq<u8>,
    tw: int,
    th: int,
    x: int,
    y: int,
)
    requires
        spec_all_opaque(top),
        bottom.len() == 4 * bw * bh,
        top.len() == 4 * tw * th,
        bw > 0,
        bh >= 0,
        tw > 0,
        th >= 0,
        4 * bw * bh <= u32::MAX,
        4 * tw * th <= u32::MAX,
    ensures
        forall|px: int, py: int, c: int|
            0 <= px < bw && 0 <= py < bh && 0 <= c < 4 ==> #[trigger] spec_px_byte(
                spec_copy_composite(bottom, bw, top, tw, th, x, y),
                bw,
                px,
                py,
                c,
            ) == if spec_covered(x, y, tw, th, px, py) {
                spec_px_byte(top, tw, px - x, py - y, c)
            } else {
                spec_px_byte(bottom, bw, px, py, c)
            },
{
    lemma_buf_size(bw, bh);
    lemma_buf_size(tw, th);
    assert forall|px: int, py: int, c: int|
        0 <= px < bw && 0 <= py < bh && 0 <= c < 4 implies #[trigger] spec_px_byte(
        spec_copy_composite(bottom, bw, top, tw, th, x, y),
        bw,
        px,
        py,
        c,
    ) == if spec_covered(x, y, tw, th, px, py) {
        spec_px_byte(top, tw, px - x, py - y, c)
    } else {
        spec_px_byte(bottom, bw, px, py, c)
    } by {
        lemma_grid_index(bw, bh, px, py);
        let i = 4 * (py * bw + px) + c;
        lemma_byte_index_decompose(bottom.len() as int, bw, bh, i);
        lemma_byte_index_injective(bw, px, py, c, (i / 4) % bw, (i / 4) / bw, i % 4);
        if spec_covered(x, y, tw, th, px, py) {
            lemma_grid_index(tw, th, px - x, py - y);
            assert(top[4 * ((py - y) * tw + (px - x)) + 3] == 255);
        }
    }
}

/// On a glyph whose pixels are all fully opaque or fully transparent,
/// every per-pixel blend with the standard end points — pixels outside
/// the overlap untouched, the bottom pixel kept under a transparent top
/// pixel, the top pixel copied under an opaque one, as
/// `image::imageops::overlay`'s src-over blend behaves — produces exactly
/// the bytes of the fast copy path.
pub proof fn lemma_simple_alpha_blend_agrees(
    bottom: Seq<u8>,
    bw: int,
    bh: int,
    top: Seq<u8>,
    tw: int,
    th: int,
    x: int,
    y: int,
    blended: Seq<u8>,
)
    requires
        spec_simple_alpha(top),
        bottom.len() == 4 * bw * bh,
        top.len() == 4 * tw * th,
        bw > 0,
        bh >= 0,
        tw > 0,
        th >= 0,
        4 * bw * bh <= u32::MAX,
        4 * tw * th <= u32::MAX,
        blended.len() == bottom.len(),
        forall|px: int, py: int, c: int|
            0 <= px < bw && 0 <= py < bh && 0 <= c < 4 && !spec_covered(x, y, tw, th, px, py)
                ==> #[trigger] spec_px_byte(blended, bw, px, py, c) == spec_px_byte(
                bottom,
                bw,
                px,
                py,
                c,
            ),
        forall|px: int, py: int, c: int|
            0 <= px < bw && 0 <= py < bh && 0 <= c < 4 && spec_covered(x, y, tw, th, px, py)
                && spec_px_byte(top, tw, px - x, py - y, 3) == 0 ==> #[trigger] spec_px_byte(
                blended,
                bw,
                px,
                py,
                c,
            ) == spec_px_byte(bottom, bw, px, py, c),
        forall|px: int, py: int, c: int|
            0 <= px < bw && 0 <= py < bh && 0 <= c < 4 && spec_covered(x, y, tw, th, px, py)
                && spec_px_byte(top, tw, px - x, py - y, 3) == 255 ==> #[trigger] spec_px_byte(
                blended,
                bw,
                px,
                py,
                c,
            ) == spec_px_byte(top, tw, px - x, py - y, c),
    ensures
        blended =~= spec_copy_composite(bottom, bw, top, tw, th, x, y),
{
    lemma_buf_size(bw, bh);
    lemma_buf_size(tw, th);
    assert forall|i: int| 0 <= i < blended.len() implies blended[i] == spec_copy_composite(
        bottom,
        bw,
        top,
        tw,
        th,
        x,
        y,
    )[i] by {
        lemma_byte_index_decompose(bottom.len() as int, bw, bh, i);
        let p = i / 4;
        let c = i % 4;
        let px = p % bw;
        let py = p / bw;
        lemma_byte_index_injective(bw, px, py, c, (i / 4) % bw, (i / 4) / bw, i % 4);
        assert(spec_px_byte(blended, bw, px, py, c) == blended[i]);
        assert(spec_px_byte(bottom, bw, px, py, c) == bottom[i]);
        if spec_covered(x, y, tw, th, px, py) {
            lemma_grid_index(tw, th, px - x, py - y);
            let a = top[4 * ((py - y) * tw + (px - x)) + 3];
            assert(spec_px_byte(top, tw, px - x, py - y, 3) == a);
            assert(a == 0 || a == 255);
        }
    }
}

/// The pixel size of one OSD grid cell on a frame of the given size.
pub fn get_ideal_character_size(frame_width: u32, frame_height: u32) -> (r: Dimension<u32>)
    ensures
        r.width == frame_width / osd::OSD_GRID_WIDTH,
        r.height == frame_height / osd::OSD_GRID_HEIGHT,
{
    Dimension {
        width: frame_width / osd::OSD_GRID_WIDTH,
        height: frame_height / osd::OSD_GRID_HEIGHT,
    }
}

} // verus!
