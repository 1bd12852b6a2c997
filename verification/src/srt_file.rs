use vstd::prelude::*;

use crate::srt::SrtFrameData;
use crate::srt::spec_parse_srt_frame_data;
use crate::srt_debug::SrtDebugFrameData;
use crate::srt_debug::spec_parse_debug;

verus! {

/// What `srtparse::from_str` yields for a subtitle text: the items in
/// order, each as its start and end time in milliseconds and its text, or
/// nothing when the text is not well-formed SubRip.
pub uninterp spec fn spec_srt_subtitles(text: Seq<char>) -> Option<Seq<(u64, u64, Seq<char>)>>;

/// Relies on `srtparse::from_str`: parses SubRip subtitle text into its
/// items. Each item's `srtparse::Time` is converted to milliseconds the
/// way `Time::into_duration` lays it out (hours, minutes, seconds and
/// milliseconds summed), but with saturating arithmetic, so absurd time
/// fields clamp instead of overflowing.
#[verifier::external_body]
fn parse_subtitles(text: &str) -> (r: Result<Vec<(u64, u64, String)>, String>)
    ensures
        match spec_srt_subtitles(text@) {
            Some(items) => r matches Ok(v) && v@.map_values(|t: (u64, u64, String)| (t.0, t.1, t.2@))
                == items,
            None => r is Err,
        },
{
    let ms = |t: &srtparse::Time| {
        t.hours.saturating_mul(3_600_000).saturating_add(t.minutes.saturating_mul(60_000))
            .saturating_add(t.seconds.saturating_mul(1_000)).saturating_add(t.milliseconds)
    };
    match srtparse::from_str(text) {
        Ok(v) => Ok(
            v.into_iter().map(|i| (ms(&i.start_time), ms(&i.end_time), i.text)).collect(),
        ),
        Err(e) => Err(e.to_string()),
    }
}

/// Why loading a telemetry file failed.
#[derive(Debug, Clone)]
pub enum SrtFileError {
    /// The file held no subtitle items at all.
    EmptySrtFile,
    /// The subtitle text itself could not be read as SubRip.
    UnableToOpenFile { message: String },
    /// The first item fixed the record form, but a later item did not
    /// parse as that form.
    FailedToParseData { index: usize },
    /// No known record form matched the first item.
    ParseError,
}

/// The display time span of one telemetry record, in milliseconds.
#[derive(Debug, Clone, Copy, PartialEq, Eq, Structural)]
pub struct SrtFrame {
    pub start_time_millis: u64,
    pub end_time_millis: u64,
}

/// The records of a loaded telemetry file, as the single form the whole
/// file parsed as.
#[derive(Debug, Clone)]
pub enum SrtData {
    Normal(Vec<SrtFrameData>),
    Debug(Vec<SrtDebugFrameData>),
}

/// A reference to one telemetry record, whichever form the file holds.
#[derive(Debug)]
pub enum SrtFrameDataRef<'a> {
    Normal(&'a SrtFrameData),
    Debug(&'a SrtDebugFrameData),
}

impl SrtData {
    /// The number of records.
    pub fn len(&self) -> (r: usize)
        ensures
            r == self.spec_len(),
    {
        match self {
            SrtData::Normal(v) => v.len(),
            SrtData::Debug(v) => v.len(),
        }
    }

    pub open spec fn spec_len(&self) -> int {
        match self {
            SrtData::Normal(v) => v@.len() as int,
            SrtData::Debug(v) => v@.len() as int,
        }
    }

    /// The record at `index`, if there is one.
    pub fn get_frame_data<'a>(&'a self, index: usize) -> (r: Option<SrtFrameDataRef<'a>>)
        ensures
            r is Some <==> index < self.spec_len(),
            match r {
                Some(SrtFrameDataRef::Normal(d)) => self matches SrtData::Normal(v) && *d == v@[
                    index as int
                ],
                Some(SrtFrameDataRef::Debug(d)) => self matches SrtData::Debug(v) && *d == v@[
                    index as int
                ],
                None => true,
            },
    {
        match self {
            SrtData::Normal(v) => {
                if index < v.len() {
                    Some(SrtFrameDataRef::Normal(&v[index]))
                } else {
                    None
                }
            },
            SrtData::Debug(v) => {
                if index < v.len() {
                    Some(SrtFrameDataRef::Debug(&v[index]))
                } else {
                    None
                }
            },
        }
    }
}

/// A loaded telemetry file: the record time spans, the records in one of
/// the known forms, and whether any record reports a nonzero distance.
#[derive(Debug, Clone)]
pub struct SrtFile {
    pub has_distance: bool,
    pub duration_millis: u64,
    pub frames: Vec<SrtFrame>,
    pub data: SrtData,
}

impl SrtFile {
    /// Loads a telemetry file from its subtitle text. The record form is
    /// chosen by trial-parsing the first item — the extended debug form
    /// first, then the standard form — and the whole file must then parse
    /// as that form. The file's duration is the end time of its last
    /// record.
    #[verifier::rlimit(80)]
    pub fn open(text: &str) -> (r: Result<SrtFile, SrtFileError>)
        ensures
            match spec_srt_subtitles(text@) {
                None => r matches Err(SrtFileError::UnableToOpenFile { .. }),
                Some(items) => {
                    if items.len() == 0 {
                        r == Err::<SrtFile, _>(SrtFileError::EmptySrtFile)
                    } else if spec_parse_debug(items[0].2) {
                        match r {
                            Ok(f) => {
                                &&& f.data matches SrtData::Debug(v) && v@.len() == items.len()
                                    && forall|i: int|
                                    0 <= i < items.len() ==> spec_parse_debug(
                                        #[trigger] items[i].2,
                                    )
                                &&& !f.has_distance
                                &&& f.frames@.len() == items.len()
                                &&& forall|i: int|
                                    0 <= i < items.len() ==> #[trigger] f.frames@[i]
                                        == (SrtFrame {
                                        start_time_millis: items[i].0,
                                        end_time_millis: items[i].1,
                                    })
                                &&& f.duration_millis == items[items.len() - 1].1
                            },
                            Err(e) => e matches SrtFileError::FailedToParseData { index }
                                && 0 < index < items.len() && !spec_parse_debug(
                                items[index as int].2,
                            ),
                        }
                    } else if spec_parse_srt_frame_data(items[0].2) is Some {
                        match r {
                            Ok(f) => {
                                &&& f.data matches SrtData::Normal(v) && v@.len() == items.len()
                                    && forall|i: int|
                                    0 <= i < items.len() ==> spec_parse_srt_frame_data(
                                        #[trigger] items[i].2,
                                    ) == Some(v@[i])
                                &&& (f.has_distance <==> exists|i: int|
                                    0 <= i < items.len() && (#[trigger] spec_parse_srt_frame_data(
                                        items[i].2,
                                    ))->0.distance > 0)
                                &&& f.frames@.len() == items.len()
                                &&& forall|i: int|
                                    0 <= i < items.len() ==> #[trigger] f.frames@[i]
                                        == (SrtFrame {
                                        start_time_millis: items[i].0,
                                        end_time_millis: items[i].1,
                                    })
                                &&& f.duration_millis == items[items.len() - 1].1
                            },
                            Err(e) => e matches SrtFileError::FailedToParseData { index }
                                && 0 < index < items.len() && spec_parse_srt_frame_data(
                                items[index as int].2,
                            ) is None,
                        }
                    } else {
                        r == Err::<SrtFile, _>(SrtFileError::ParseError)
                    }
                },
            },
    {
        let parsed = match parse_subtitles(text) {
            Ok(v) => v,
            Err(message) => {
                return Err(SrtFileError::UnableToOpenFile { message });
            },
        };
        let ghost items = parsed@.map_values(|t: (u64, u64, String)| (t.0, t.1, t.2@));
        let n = parsed.len();
        if n == 0 {
            return Err(SrtFileError::EmptySrtFile);
        }

        let mut frames: Vec<SrtFrame> = Vec::new();
        let mut i: usize = 0;
        while i < n
            invariant
                n == parsed@.len(),
                items == parsed@.map_values(|t: (u64, u64, String)| (t.0, t.1, t.2@)),
                i <= n,
                frames@.len() == i,
                forall|k: int|
                    0 <= k < i ==> #[trigger] frames@[k] == (SrtFrame {
                        start_time_millis: items[k].0,
                        end_time_millis: items[k].1,
                    }),
            decreases n - i,
        {
            let entry = &parsed[i];
            frames.push(SrtFrame { start_time_millis: entry.0, end_time_millis: entry.1 });
            i = i + 1;
        }
        let duration_millis = parsed[n - 1].1;

        let first_text: &String = &parsed[0].2;
        proof {
            assert(items[0] == (parsed@[0].0, parsed@[0].1, parsed@[0].2@));
        }
        if SrtDebugFrameData::from_str(first_text.as_str()).is_some() {
            let mut data: Vec<SrtDebugFrameData> = Vec::new();
            let mut i: usize = 0;
            while i < n
                invariant
                    n == parsed@.len(),
                    items == parsed@.map_values(|t: (u64, u64, String)| (t.0, t.1, t.2@)),
                    spec_srt_subtitles(text@) == Some(items),
                    n > 0,
                    spec_parse_debug(items[0].2),
                    i <= n,
                    data@.len() == i,
                    forall|k: int| 0 <= k < i ==> spec_parse_debug(#[trigger] items[k].2),
                decreases n - i,
            {
                let entry = &parsed[i];
                proof {
                    assert(items[i as int] == (
                        parsed@[i as int].0,
                        parsed@[i as int].1,
                        parsed@[i as int].2@,
                    ));
                }
                match SrtDebugFrameData::from_str(entry.2.as_str()) {
                    Some(d) => {
                        data.push(d);
                    },
                    None => {
                        proof {
                            assert(items[0] == (parsed@[0].0, parsed@[0].1, parsed@[0].2@));
                        }
                        return Err(SrtFileError::FailedToParseData { index: i });
                    },
                }
                i = i + 1;
            }
            Ok(
                SrtFile {
                    has_distance: false,
                    duration_millis,
                    frames,
                    data: SrtData::Debug(data),
                },
            )
        } else if SrtFrameData::from_str(first_text.as_str()).is_some() {
            let mut data: Vec<SrtFrameData> = Vec::new();
            let mut has_distance = false;
            let mut i: usize = 0;
            while i < n
                invariant
                    n == parsed@.len(),
                    items == parsed@.map_values(|t: (u64, u64, String)| (t.0, t.1, t.2@)),
                    spec_srt_subtitles(text@) == Some(items),
                    n > 0,
                    !spec_parse_debug(items[0].2),
                    spec_parse_srt_frame_data(items[0].2) is Some,
                    i <= n,
                    data@.len() == i,
                    forall|k: int|
                        0 <= k < i ==> spec_parse_srt_frame_data(#[trigger] items[k].2) == Some(
                            data@[k],
                        ),
                    has_distance <==> exists|k: int|
                        0 <= k < i && (#[trigger] spec_parse_srt_frame_data(items[k].2))->0.distance
                            > 0,
                decreases n - i,
            {
                let entry = &parsed[i];
                proof {
                    assert(items[i as int] == (
                        parsed@[i as int].0,
                        parsed@[i as int].1,
                        parsed@[i as int].2@,
                    ));
                }
                match SrtFrameData::from_str(entry.2.as_str()) {
                    Some(d) => {
                        let ghost dv = d;
                        if d.distance > 0 {
                            has_distance = true;
                        }
                        data.push(d);
                        proof {
                            assert(spec_parse_srt_frame_data(items[i as int].2) == Some(dv));
                            if has_distance {
                                if dv.distance > 0 {
                                    assert(0 <= i < i + 1 && spec_parse_srt_frame_data(
                                        items[i as int].2,
                                    )->0.distance > 0);
                                } else {
                                    let k = choose|k: int|
                                        0 <= k < i && (#[trigger] spec_parse_srt_frame_data(
                                            items[k].2,
                                        ))->0.distance > 0;
                                    assert(0 <= k < i + 1 && spec_parse_srt_frame_data(
                                        items[k].2,
                                    )->0.distance > 0);
                                }
                            }
                        }
                    },
                    None => {
                        proof {
                            assert(items[0] == (parsed@[0].0, parsed@[0].1, parsed@[0].2@));
                        }
                        return Err(SrtFileError::FailedToParseData { index: i });
                    },
                }
                i = i + 1;
            }
            Ok(
                SrtFile {
                    has_distance,
                    duration_millis,
                    frames,
                    data: SrtData::Normal(data),
                },
            )
        } else {
            Err(SrtFileError::ParseError)
        }
    }
}

} // verus!
