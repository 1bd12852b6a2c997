use vstd::prelude::*;

use crate::font_file::FontFile;
use crate::osd;
use crate::osd::Frame;
use crate::osd::OsdOptions;
use crate::osd_overlay::overlay_osd;
use crate::osd_overlay::spec_osd_composited;
use crate::overlay::RgbaBuffer;
use crate::srt::SrtOptions;

verus! {

/// The effective start time of an OSD record on the video timeline, in
/// microseconds: the user's offset is added to the record time, and the
/// sum is scaled by the playback-speed factor (in thousandths, so
/// milliseconds times permille give microseconds).
pub open spec fn spec_osd_adjusted_start(time_millis: u32, o: OsdOptions) -> int {
    (o.osd_playback_offset_millis + time_millis) * o.osd_playback_speed_factor_permille
}

/// The OSD cursor after consuming every record whose adjusted start time
/// has been reached by `ts` microseconds: records are consumed in order,
/// from `c` on, while their start is at or before the frame time.
pub open spec fn spec_advance_osd(frames: Seq<Frame>, c: int, ts: int, o: OsdOptions) -> int
    decreases frames.len() - c,
{
    if c < 0 || c >= frames.len() {
        c
    } else if spec_osd_adjusted_start(frames[c].time_millis, o) <= ts {
        spec_advance_osd(frames, c + 1, ts, o)
    } else {
        c
    }
}

/// The telemetry cursor after consuming every record whose start time (in
/// microseconds) has been reached by `ts`.
pub open spec fn spec_advance_srt(starts: Seq<u64>, c: int, ts: int) -> int
    decreases starts.len() - c,
{
    if c < 0 || c >= starts.len() {
        c
    } else if starts[c] <= ts {
        spec_advance_srt(starts, c + 1, ts)
    } else {
        c
    }
}

/// Advancing a cursor never moves it backwards.
pub proof fn lemma_advance_osd_monotone(frames: Seq<Frame>, c: int, ts: int, o: OsdOptions)
    requires
        0 <= c <= frames.len(),
    ensures
        c <= spec_advance_osd(frames, c, ts, o) <= frames.len(),
    decreases frames.len() - c,
{
    if c < frames.len() && spec_osd_adjusted_start(frames[c].time_millis, o) <= ts {
        lemma_advance_osd_monotone(frames, c + 1, ts, o);
    }
}

/// Advancing the telemetry cursor never moves it backwards.
pub proof fn lemma_advance_srt_monotone(starts: Seq<u64>, c: int, ts: int)
    requires
        0 <= c <= starts.len(),
    ensures
        c <= spec_advance_srt(starts, c, ts) <= starts.len(),
    decreases starts.len() - c,
{
    if c < starts.len() && starts[c] <= ts {
        lemma_advance_srt_monotone(starts, c + 1, ts);
    }
}

/// The background a composited frame starts from: the chroma-key colour
/// repeated over every pixel when transparent export is on, otherwise the
/// decoded frame bytes themselves.
pub open spec fn spec_frame_base(
    chroma: Option<[u8; 4]>,
    w: u32,
    h: u32,
    data: Seq<u8>,
) -> Seq<u8> {
    match chroma {
        Some(c) => Seq::new((4 * w * h) as nat, |i: int| c@[i % 4]),
        None => data,
    }
}

/// One composited output frame: the pixel buffer, and which telemetry
/// record (if any) is current for it, as an index into the loaded
/// telemetry data.
pub struct AlignedFrame {
    pub image: RgbaBuffer,
    pub srt_index: Option<usize>,
}

/// Walks the decoded-frame timeline and keeps the OSD and telemetry
/// cursors aligned with it: for each decoded frame it advances both
/// cursors past every record whose start time has been reached, draws the
/// current OSD record onto the frame, and reports the current telemetry
/// record for the caller to render as text.
///
/// Both cursors only ever move forward; `osd_cursor` counts consumed OSD
/// records, so the current record is `osd_frames[osd_cursor - 1]` once
/// any has started.
pub struct FrameAligner {
    pub osd_frames: Vec<Frame>,
    pub srt_starts_micros: Vec<u64>,
    pub osd_cursor: usize,
    pub srt_cursor: usize,
    pub font: FontFile,
    pub osd_options: OsdOptions,
    pub srt_options: SrtOptions,
    pub chroma_key: Option<[u8; 4]>,
    pub abort_requested: bool,
}

/// Consumes OSD records in order while their adjusted start time is at or
/// before the frame timestamp.
fn advance_osd(frames: &Vec<Frame>, start: usize, ts: u64, o: &OsdOptions) -> (r: usize)
    requires
        start <= frames@.len(),
        o.osd_playback_speed_factor_permille <= 1000000,
        ts <= 0x7fff_ffff_ffff_ffff,
    ensures
        r == spec_advance_osd(frames@, start as int, ts as int, *o),
        start <= r <= frames@.len(),
{
    let n = frames.len();
    let mut c = start;
    loop
        invariant
            start <= c <= n,
            n == frames@.len(),
            o.osd_playback_speed_factor_permille <= 1000000,
            ts <= 0x7fff_ffff_ffff_ffff,
            spec_advance_osd(frames@, start as int, ts as int, *o) == spec_advance_osd(
                frames@,
                c as int,
                ts as int,
                *o,
            ),
        decreases n - c,
    {
        if c >= n {
            return c;
        }
        let t = frames[c].time_millis;
        proof {
            assert((o.osd_playback_offset_millis as int + t as int) * (
            o.osd_playback_speed_factor_permille as int) < 0x7fff_ffff_ffff_ffff
                && (o.osd_playback_offset_millis as int + t as int) * (
            o.osd_playback_speed_factor_permille as int) > -0x7fff_ffff_ffff_ffff)
                by (nonlinear_arith)
                requires
                    -0x8000_0000 <= (o.osd_playback_offset_millis as int) <= 0x7fff_ffff,
                    0 <= (t as int) <= 0xffff_ffff,
                    0 <= (o.osd_playback_speed_factor_permille as int) <= 1000000,
            ;
        }
        let adjusted: i64 = (o.osd_playback_offset_millis as i64 + t as i64) * (
        o.osd_playback_speed_factor_permille as i64);
        if adjusted <= ts as i64 {
            c = c + 1;
        } else {
            return c;
        }
    }
}

/// Consumes telemetry records in order while their start time is at or
/// before the frame timestamp.
fn advance_srt(starts: &Vec<u64>, start: usize, ts: u64) -> (r: usize)
    requires
        start <= starts@.len(),
    ensures
        r == spec_advance_srt(starts@, start as int, ts as int),
        start <= r <= starts@.len(),
{
    let n = starts.len();
    let mut c = start;
    loop
        invariant
            start <= c <= n,
            n == starts@.len(),
            spec_advance_srt(starts@, start as int, ts as int) == spec_advance_srt(
                starts@,
                c as int,
                ts as int,
            ),
        decreases n - c,
    {
        if c >= n {
            return c;
        }
        if starts[c] <= ts {
            c = c + 1;
        } else {
            return c;
        }
    }
}

impl FrameAligner {
    /// The aligner is well formed when its font is, its cursors are in
    /// range, and the time model stays within comfortable bounds.
    pub open spec fn wf(&self) -> bool {
        &&& self.font.wf()
        &&& self.osd_cursor <= self.osd_frames@.len()
        &&& self.srt_cursor <= self.srt_starts_micros@.len()
        &&& self.osd_options.osd_playback_speed_factor_permille <= 1000000
        &&& self.srt_options.position.x <= 1000
        &&& self.srt_options.position.y <= 1000
    }

    /// The OSD record current at the aligner's cursor: empty before any
    /// record has started.
    pub open spec fn spec_current_osd_glyphs(&self) -> Seq<crate::osd::Glyph> {
        if self.osd_cursor == 0 {
            Seq::empty()
        } else {
            self.osd_frames@[self.osd_cursor - 1].glyphs@
        }
    }

    pub fn new(
        osd_frames: Vec<Frame>,
        srt_starts_micros: Vec<u64>,
        font: FontFile,
        osd_options: OsdOptions,
        srt_options: SrtOptions,
        chroma_key: Option<[u8; 4]>,
    ) -> (r: FrameAligner)
        requires
            font.wf(),
            osd_options.osd_playback_speed_factor_permille <= 1000000,
            srt_options.position.x <= 1000,
            srt_options.position.y <= 1000,
        ensures
            r.wf(),
            r.osd_frames@ == osd_frames@,
            r.srt_starts_micros@ == srt_starts_micros@,
            r.osd_cursor == 0,
            r.srt_cursor == 0,
            r.font == font,
            r.osd_options == osd_options,
            r.srt_options == srt_options,
            r.chroma_key == chroma_key,
            !r.abort_requested,
    {
        FrameAligner {
            osd_frames,
            srt_starts_micros,
            osd_cursor: 0,
            srt_cursor: 0,
            font,
            osd_options,
            srt_options,
            chroma_key,
            abort_requested: false,
        }
    }

    /// Notes a cancellation request. The first call reports that the
    /// decoder should be asked to stop; every later call reports that the
    /// request was already made, so the stop is requested exactly once
    /// however many cancel signals arrive.
    pub fn note_abort(&mut self) -> (r: bool)
        ensures
            *final(self) == (FrameAligner { abort_requested: true, ..*old(self) }),
            r == !old(self).abort_requested,
    {
        let first = !self.abort_requested;
        self.abort_requested = true;
        first
    }

    /// Aligns one decoded frame and composites the OSD onto it.
    ///
    /// Both cursors advance past every record whose start time is at or
    /// before the frame's timestamp and never move backwards. The frame
    /// buffer starts from the chroma-key colour or the decoded bytes, and
    /// unless the OSD is disabled the current OSD record is drawn onto
    /// it. The returned telemetry index names the most recently started
    /// record; the record stays current until the next one starts.
    pub fn process_frame(
        &mut self,
        width: u32,
        height: u32,
        timestamp_micros: u64,
        data: Vec<u8>,
    ) -> (r: AlignedFrame)
        requires
            old(self).wf(),
            data@.len() == 4 * width * height,
            4 * width * height <= u32::MAX,
            width / osd::OSD_GRID_WIDTH <= 8192,
            height / osd::OSD_GRID_HEIGHT <= 8192,
            timestamp_micros <= 0x7fff_ffff_ffff_ffff,
        ensures
            final(self).wf(),
            final(self).osd_frames@ == old(self).osd_frames@,
            final(self).srt_starts_micros@ == old(self).srt_starts_micros@,
            final(self).osd_options == old(self).osd_options,
            final(self).srt_options == old(self).srt_options,
            final(self).chroma_key == old(self).chroma_key,
            final(self).abort_requested == old(self).abort_requested,
            final(self).font.characters@ == old(self).font.characters@,
            final(self).font.font_character_size == old(self).font.font_character_size,
            final(self).osd_cursor == spec_advance_osd(
                old(self).osd_frames@,
                old(self).osd_cursor as int,
                timestamp_micros as int,
                old(self).osd_options,
            ),
            final(self).srt_cursor == spec_advance_srt(
                old(self).srt_starts_micros@,
                old(self).srt_cursor as int,
                timestamp_micros as int,
            ),
            final(self).osd_cursor >= old(self).osd_cursor,
            final(self).srt_cursor >= old(self).srt_cursor,
            r.image.wf(),
            r.image.width == width,
            r.image.height == height,
            r.image.bytes() == ({
                let base = spec_frame_base(old(self).chroma_key, width, height, data@);
                if old(self).osd_options.no_osd {
                    base
                } else {
                    spec_osd_composited(
                        base,
                        width,
                        height,
                        final(self).spec_current_osd_glyphs(),
                        final(self).spec_current_osd_glyphs().len() as int,
                        old(self).font,
                        old(self).osd_options,
                    )
                }
            }),
            r.srt_index == (if final(self).srt_cursor == 0 {
                Option::<usize>::None
            } else {
                Option::<usize>::Some((final(self).srt_cursor - 1) as usize)
            }),
    {
        // advance both cursors past every record that has started
        let new_osd_cursor = advance_osd(
            &self.osd_frames,
            self.osd_cursor,
            timestamp_micros,
            &self.osd_options,
        );
        self.osd_cursor = new_osd_cursor;
        let new_srt_cursor = advance_srt(&self.srt_starts_micros, self.srt_cursor, timestamp_micros);
        self.srt_cursor = new_srt_cursor;

        // build the output pixel buffer
        let mut image = match self.chroma_key {
            Some(c) => RgbaBuffer::filled(width, height, c),
            None => match RgbaBuffer::from_raw(width, height, data) {
                Some(b) => b,
                None => {
                    proof {
                        assert(false);
                    }
                    RgbaBuffer::filled(width, height, [0, 0, 0, 0])
                },
            },
        };
        proof {
            assert(image.bytes() =~= spec_frame_base(
                self.chroma_key,
                width,
                height,
                data@,
            ));
        }

        if !self.osd_options.no_osd {
            let empty_frame = Frame::empty();
            let current: &Frame = if self.osd_cursor == 0 {
                &empty_frame
            } else {
                &self.osd_frames[self.osd_cursor - 1]
            };
            overlay_osd(&mut image, current, &mut self.font, &self.osd_options);
        }

        let srt_index: Option<usize> = if self.srt_cursor == 0 {
            None
        } else {
            Some(self.srt_cursor - 1)
        };
        AlignedFrame { image, srt_index }
    }
}

} // verus!
