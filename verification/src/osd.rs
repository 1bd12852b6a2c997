use vstd::prelude::*;

use crate::font::CharacterSizeClass;
use crate::util::Coordinates;
use crate::util::Dimension;

verus! {

/// Width of the OSD overlay grid, in cells.
pub const OSD_GRID_WIDTH: u32 = 53;

/// Height of the OSD overlay grid, in cells.
pub const OSD_GRID_HEIGHT: u32 = 20;

/// One character of an OSD frame: a glyph index and the grid cell it
/// occupies.
#[derive(Debug, Clone, Copy, PartialEq, Eq, Structural)]
pub struct Glyph {
    pub index: u16,
    pub grid_position: Coordinates<u32>,
}

/// One OSD frame: a timestamp and the glyphs visible at that time.
#[derive(Debug, Clone)]
pub struct Frame {
    pub time_millis: u32,
    pub glyphs: Vec<Glyph>,
}

/// The 16-bit value stored little-endian at bytes `b0`, `b1`.
pub open spec fn spec_le16(b0: u8, b1: u8) -> u16 {
    (b0 + b1 * 256) as u16
}

/// The 32-bit value stored little-endian at bytes `b0` .. `b3`.
pub open spec fn spec_le32(b0: u8, b1: u8, b2: u8, b3: u8) -> u32 {
    (b0 + b1 * 256 + b2 * 65536 + b3 * 16777216) as u32
}

/// Glyph indices 0 and 0x20 both mean an empty cell and are dropped when a
/// frame is parsed.
pub open spec fn spec_glyph_index_kept(index: u16) -> bool {
    index != 0 && index != 0x20
}

/// The glyph index encoded in the `i`-th two-byte cell of a frame record
/// (after the four timestamp bytes).
pub open spec fn spec_cell_index(bytes: Seq<u8>, i: int) -> u16 {
    spec_le16(bytes[4 + 2 * i], bytes[4 + 2 * i + 1])
}

/// The glyph described by the `i`-th cell: cells fill the grid row by row.
pub open spec fn spec_cell_glyph(bytes: Seq<u8>, i: int) -> Glyph {
    Glyph {
        index: spec_cell_index(bytes, i),
        grid_position: Coordinates {
            x: (i % (OSD_GRID_WIDTH as int)) as u32,
            y: (i / (OSD_GRID_WIDTH as int)) as u32,
        },
    }
}

/// The glyphs of the first `n` cells of a frame record, in cell order, with
/// empty cells dropped.
pub open spec fn spec_frame_glyphs(bytes: Seq<u8>, n: int) -> Seq<Glyph>
    decreases n,
{
    if n <= 0 {
        Seq::empty()
    } else {
        spec_frame_glyphs(bytes, n - 1) + if spec_glyph_index_kept(
            spec_cell_index(bytes, n - 1),
        ) {
            seq![spec_cell_glyph(bytes, n - 1)]
        } else {
            Seq::empty()
        }
    }
}

/// Number of cells encoded in a frame record.
pub open spec fn spec_cell_count(bytes: Seq<u8>) -> int {
    (bytes.len() - 4) / 2
}

impl Frame {
    /// Every frame starts empty: no glyph is shown before the first OSD
    /// record becomes current.
    pub fn empty() -> (r: Frame)
        ensures
            r.time_millis == 0,
            r.glyphs@ =~= Seq::<Glyph>::empty(),
    {
        Frame { time_millis: 0, glyphs: Vec::new() }
    }

    /// Parses one OSD frame record: a 4-byte little-endian timestamp in
    /// milliseconds followed by one little-endian 16-bit glyph index per
    /// grid cell, rows filled left to right, top to bottom. Indices 0 and
    /// 0x20 mean an empty cell and are excluded.
    pub fn from_bytes(bytes: &[u8]) -> (r: Frame)
        requires
            bytes@.len() >= 4,
            (bytes@.len() - 4) % 2 == 0,
            bytes@.len() <= u32::MAX,
        ensures
            r.time_millis == spec_le32(bytes@[0], bytes@[1], bytes@[2], bytes@[3]),
            r.glyphs@ == spec_frame_glyphs(bytes@, spec_cell_count(bytes@)),
    {
        let time_millis = le32(bytes[0], bytes[1], bytes[2], bytes[3]);
        let cell_count: usize = (bytes.len() - 4) / 2;
        let mut glyphs: Vec<Glyph> = Vec::new();
        let mut i: usize = 0;
        while i < cell_count
            invariant
                cell_count == spec_cell_count(bytes@),
                bytes@.len() >= 4,
                bytes@.len() <= u32::MAX,
                i <= cell_count,
                glyphs@ == spec_frame_glyphs(bytes@, i as int),
            decreases cell_count - i,
        {
            let index = le16(bytes[4 + 2 * i], bytes[4 + 2 * i + 1]);
            if index != 0 && index != 0x20 {
                let glyph = Glyph {
                    index,
                    grid_position: Coordinates {
                        x: (i % (OSD_GRID_WIDTH as usize)) as u32,
                        y: (i / (OSD_GRID_WIDTH as usize)) as u32,
                    },
                };
                glyphs.push(glyph);
            }
            i = i + 1;
        }
        Frame { time_millis, glyphs }
    }
}

/// Reads a little-endian 16-bit integer from two bytes.
pub fn le16(b0: u8, b1: u8) -> (r: u16)
    ensures
        r == spec_le16(b0, b1),
{
    b0 as u16 + b1 as u16 * 256
}

/// Reads a little-endian 32-bit integer from four bytes.
pub fn le32(b0: u8, b1: u8, b2: u8, b3: u8) -> (r: u32)
    ensures
        r == spec_le32(b0, b1, b2, b3),
{
    b0 as u32 + b1 as u32 * 256 + b2 as u32 * 65536 + b3 as u32 * 16777216
}

/// The set of grid cells the user has masked out, so that glyphs placed
/// there are not drawn.
#[derive(Debug, Clone)]
pub struct MaskSet {
    items: Vec<Coordinates<u32>>,
}

/// Toggling a cell inserts it into the masked set when absent and removes
/// it when present.
pub open spec fn spec_toggle(s: Set<Coordinates<u32>>, pos: Coordinates<u32>) -> Set<
    Coordinates<u32>,
> {
    if s.contains(pos) {
        s.remove(pos)
    } else {
        s.insert(pos)
    }
}

impl MaskSet {
    pub closed spec fn view(&self) -> Set<Coordinates<u32>> {
        Set::new(|c: Coordinates<u32>| self.items@.contains(c))
    }

    pub fn new() -> (r: MaskSet)
        ensures
            r@ =~= Set::<Coordinates<u32>>::empty(),
    {
        MaskSet { items: Vec::new() }
    }

    /// The index of `pos` in the backing vector, if present.
    fn position_of(&self, pos: &Coordinates<u32>) -> (r: Option<usize>)
        ensures
            match r {
                Some(j) => j < self.items@.len() && self.items@[j as int] == *pos,
                None => !self.items@.contains(*pos),
            },
    {
        let n = self.items.len();
        let mut i: usize = 0;
        while i < n
            invariant
                n == self.items@.len(),
                i <= n,
                forall|k: int| 0 <= k < i ==> self.items@[k] != *pos,
            decreases n - i,
        {
            let c = self.items[i];
            if c.x == pos.x && c.y == pos.y {
                return Some(i);
            }
            i = i + 1;
        }
        None
    }

    pub fn contains(&self, pos: &Coordinates<u32>) -> (r: bool)
        ensures
            r == self@.contains(*pos),
    {
        self.position_of(pos).is_some()
    }

    pub fn insert(&mut self, pos: Coordinates<u32>)
        ensures
            final(self)@ =~= old(self)@.insert(pos),
    {
        match self.position_of(&pos) {
            Some(_) => {},
            None => {
                let ghost old_items = self.items@;
                self.items.push(pos);
                proof {
                    assert forall|c: Coordinates<u32>| #[trigger]
                        self.items@.contains(c) <==> (old_items.contains(c) || c == pos) by {
                        if self.items@.contains(c) {
                            let k = choose|k: int|
                                0 <= k < self.items@.len() && self.items@[k] == c;
                            if k < old_items.len() {
                                assert(old_items[k] == c);
                            }
                        }
                        if old_items.contains(c) {
                            let k = choose|k: int|
                                0 <= k < old_items.len() && old_items[k] == c;
                            assert(self.items@[k] == c);
                        }
                        if c == pos {
                            assert(self.items@[self.items@.len() - 1] == c);
                        }
                    }
                }
            },
        }
    }

    pub fn remove(&mut self, pos: &Coordinates<u32>)
        ensures
            final(self)@ =~= old(self)@.remove(*pos),
    {
        let ghost old_items = self.items@;
        let n = self.items.len();
        let mut kept: Vec<Coordinates<u32>> = Vec::new();
        let mut i: usize = 0;
        while i < n
            invariant
                n == self.items@.len(),
                self.items@ == old_items,
                i <= n,
                forall|k: int|
                    0 <= k < kept@.len() ==> #[trigger] kept@[k] != *pos && old_items.contains(
                        kept@[k],
                    ),
                forall|k: int|
                    0 <= k < i && old_items[k] != *pos ==> kept@.contains(#[trigger] old_items[k]),
            decreases n - i,
        {
            let c = self.items[i];
            let ghost prev_kept = kept@;
            if !(c.x == pos.x && c.y == pos.y) {
                kept.push(c);
            }
            proof {
                assert forall|k: int|
                    0 <= k < i + 1 && old_items[k] != *pos implies kept@.contains(
                    #[trigger] old_items[k],
                ) by {
                    if k < i {
                        let j = choose|j: int|
                            0 <= j < prev_kept.len() && prev_kept[j] == old_items[k];
                        assert(kept@[j] == old_items[k]);
                    } else {
                        assert(kept@[kept@.len() - 1] == old_items[k]);
                    }
                }
            }
            i = i + 1;
        }
        *self = MaskSet { items: kept };
        proof {
            assert forall|c: Coordinates<u32>|
                self.items@.contains(c) <==> (old_items.contains(c) && c != *pos) by {
                if self.items@.contains(c) {
                    let k = choose|k: int| 0 <= k < self.items@.len() && self.items@[k] == c;
                    assert(self.items@[k] != *pos && old_items.contains(self.items@[k]));
                }
            }
        }
    }

    pub fn clear(&mut self)
        ensures
            final(self)@ =~= Set::<Coordinates<u32>>::empty(),
    {
        self.items = Vec::new();
    }

    /// The masked cells, in no particular order.
    pub fn cells(&self) -> (r: &Vec<Coordinates<u32>>)
        ensures
            forall|c: Coordinates<u32>| r@.contains(c) <==> self@.contains(c),
    {
        &self.items
    }
}

/// Display options for the OSD glyph overlay.
///
/// Times are modelled in integer units: the playback offset in
/// milliseconds, and the playback speed factor in thousandths (1000 means
/// real time).
#[derive(Debug, Clone)]
pub struct OsdOptions {
    /// Extra pixel offset applied to every glyph.
    pub position: Coordinates<i32>,
    pub adjust_playback_speed: bool,
    /// When set, no OSD glyphs are drawn at all.
    pub no_osd: bool,
    /// Speed correction applied to OSD timestamps, in thousandths.
    pub osd_playback_speed_factor_permille: u32,
    pub masked_grid_positions: MaskSet,
    /// Offset added to OSD timestamps, in milliseconds.
    pub osd_playback_offset_millis: i32,
    pub character_size_class: Option<CharacterSizeClass>,
    pub character_size: Dimension<u32>,
}

impl OsdOptions {
    pub fn get_mask(&self, position: &Coordinates<u32>) -> (r: bool)
        ensures
            r == self.masked_grid_positions@.contains(*position),
    {
        self.masked_grid_positions.contains(position)
    }

    pub fn toggle_mask(&mut self, position: Coordinates<u32>)
        ensures
            final(self).masked_grid_positions@ =~= spec_toggle(
                old(self).masked_grid_positions@,
                position,
            ),
            *final(self) == (OsdOptions {
                masked_grid_positions: final(self).masked_grid_positions,
                ..*old(self)
            }),
    {
        if self.masked_grid_positions.contains(&position) {
            self.masked_grid_positions.remove(&position);
        } else {
            self.masked_grid_positions.insert(position);
        }
    }

    pub fn reset_mask(&mut self)
        ensures
            final(self).masked_grid_positions@ =~= Set::<Coordinates<u32>>::empty(),
            *final(self) == (OsdOptions {
                masked_grid_positions: final(self).masked_grid_positions,
                ..*old(self)
            }),
    {
        self.masked_grid_positions.clear();
    }
}

impl Default for OsdOptions {
    /// By default the OSD is drawn unshifted, in real time, with no masked
    /// cells.
    fn default() -> (r: Self)
        ensures
            r.position == (Coordinates { x: 0i32, y: 0i32 }),
            !r.adjust_playback_speed,
            !r.no_osd,
            r.osd_playback_speed_factor_permille == 1000,
            r.masked_grid_positions@ =~= Set::<Coordinates<u32>>::empty(),
            r.osd_playback_offset_millis == 0,
            r.character_size_class is None,
            r.character_size == (Dimension { width: 0u32, height: 0u32 }),
    {
        OsdOptions {
            position: Coordinates { x: 0, y: 0 },
            adjust_playback_speed: false,
            no_osd: false,
            osd_playback_speed_factor_permille: 1000,
            masked_grid_positions: MaskSet::new(),
            osd_playback_offset_millis: 0,
            character_size_class: None,
            character_size: Dimension { width: 0, height: 0 },
        }
    }
}

/// Masking a cell twice restores the original masked set: `toggle` is its
/// own inverse.
pub proof fn lemma_toggle_mask_round_trip(s: Set<Coordinates<u32>>, pos: Coordinates<u32>)
    ensures
        spec_toggle(spec_toggle(s, pos), pos) =~= s,
{
}

} // verus!
