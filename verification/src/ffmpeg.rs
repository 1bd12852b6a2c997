use vstd::prelude::*;

use crate::text::spec_find;
use crate::text::chars_vec;
use crate::text::find_range;

verus! {

/// One progress report from a codec process. Fractional rates are held in
/// thousandths: `fps_milli == 29970` means 29.97 frames per second.
#[derive(Debug, Clone, PartialEq, Eq, Structural)]
pub struct RenderProgress {
    pub frame: u32,
    pub fps_milli: u32,
    pub speed_milli: u32,
    pub bitrate_kbps_milli: u32,
}

/// Severity of a log line from a codec process.
#[derive(Debug, Clone, Copy, PartialEq, Eq, Structural)]
pub enum LogLevel {
    Info,
    Warning,
    Error,
    Fatal,
    Unknown,
}

/// One event read from a codec process's output stream, reduced to plain
/// values: stream metadata, a progress report, a log line, or the end of
/// the stream.
#[derive(Debug, Clone)]
pub enum FfEvent {
    ParsedVersion(String),
    ParsedConfiguration(String),
    ParsedStreamMapping(String),
    ParsedInput(String),
    ParsedOutput(String),
    ParsedInputStream(String),
    ParsedOutputStream(String),
    ParsedDuration(String),
    Progress(RenderProgress),
    Log(LogLevel, String),
    LogEof,
    Done,
    Other,
}

/// A lifecycle or progress message surfaced to the caller of the render
/// pipeline.
#[derive(Debug, Clone)]
pub enum FromFfmpegMessage {
    EncoderStartedWithCommand(String),
    DecoderFatalError(String),
    EncoderFatalError(String),
    EncoderProgress(RenderProgress),
    DecoderProgress(RenderProgress),
    DecoderFinished,
    EncoderFinished,
}

/// A control message sent into the render pipeline by the caller.
#[derive(Debug, Clone, PartialEq, Eq, Structural)]
pub enum ToFfmpegMessage {
    AbortRender,
}

/// What the event reader does with one codec-process event: forward a
/// message to the caller, print the event as an informational note, or
/// drop it.
#[derive(Debug, Clone)]
pub enum EventAction {
    Forward(FromFfmpegMessage),
    Note,
    Ignore,
}

/// Whether `pat` occurs anywhere in `s`.
pub open spec fn spec_contains(s: Seq<char>, pat: Seq<char>) -> bool {
    spec_find(s, pat, 0) is Some
}

/// Finds `pat` anywhere in `s`.
pub fn str_contains(s: &str, pat: &str) -> (r: bool)
    ensures
        r == spec_contains(s@, pat@),
{
    let chars = chars_vec(s);
    find_range(&chars, pat, 0).is_some()
}

/// Log lines the encoder reports at non-fatal severity but which are in
/// fact unrecoverable.
pub open spec fn spec_known_fatal_line(line: Seq<char>) -> bool {
    ||| spec_contains(line, "Error initializing output stream"@)
    ||| spec_contains(line, "[error] Cannot load"@)
}

/// How an encoder-process event is handled: progress is forwarded, the end
/// of the log stream reports the encoder finished, fatal log lines (by
/// severity, or by a known-fatal text at any severity) are forwarded as
/// fatal errors, every other log or metadata line is merely noted.
pub open spec fn spec_classify_encoder_event(e: FfEvent) -> EventAction {
    match e {
        FfEvent::Progress(p) => EventAction::Forward(FromFfmpegMessage::EncoderProgress(p)),
        FfEvent::Log(level, line) => {
            if level == LogLevel::Fatal || spec_known_fatal_line(line@) {
                EventAction::Forward(FromFfmpegMessage::EncoderFatalError(line))
            } else {
                EventAction::Note
            }
        },
        FfEvent::LogEof => EventAction::Forward(FromFfmpegMessage::EncoderFinished),
        FfEvent::ParsedVersion(_) => EventAction::Note,
        FfEvent::ParsedConfiguration(_) => EventAction::Note,
        FfEvent::ParsedStreamMapping(_) => EventAction::Note,
        FfEvent::ParsedInput(_) => EventAction::Note,
        FfEvent::ParsedOutput(_) => EventAction::Note,
        FfEvent::ParsedInputStream(_) => EventAction::Note,
        FfEvent::ParsedOutputStream(_) => EventAction::Note,
        FfEvent::ParsedDuration(_) => EventAction::Note,
        FfEvent::Done => EventAction::Ignore,
        FfEvent::Other => EventAction::Ignore,
    }
}

/// Classifies one event from the encoder process.
pub fn classify_encoder_event(e: FfEvent) -> (r: EventAction)
    ensures
        r == spec_classify_encoder_event(e),
{
    match e {
        FfEvent::Progress(p) => EventAction::Forward(FromFfmpegMessage::EncoderProgress(p)),
        FfEvent::Log(level, line) => {
            let fatal = match level {
                LogLevel::Fatal => true,
                _ => {
                    str_contains(line.as_str(), "Error initializing output stream")
                        || str_contains(line.as_str(), "[error] Cannot load")
                },
            };
            if fatal {
                EventAction::Forward(FromFfmpegMessage::EncoderFatalError(line))
            } else {
                EventAction::Note
            }
        },
        FfEvent::LogEof => EventAction::Forward(FromFfmpegMessage::EncoderFinished),
        FfEvent::ParsedVersion(_) => EventAction::Note,
        FfEvent::ParsedConfiguration(_) => EventAction::Note,
        FfEvent::ParsedStreamMapping(_) => EventAction::Note,
        FfEvent::ParsedInput(_) => EventAction::Note,
        FfEvent::ParsedOutput(_) => EventAction::Note,
        FfEvent::ParsedInputStream(_) => EventAction::Note,
        FfEvent::ParsedOutputStream(_) => EventAction::Note,
        FfEvent::ParsedDuration(_) => EventAction::Note,
        FfEvent::Done => EventAction::Ignore,
        FfEvent::Other => EventAction::Ignore,
    }
}

/// How a decoder-process event is handled: progress is forwarded, both a
/// clean `Done` and the end of the log stream report the decoder
/// finished, a fatal log line is forwarded as a fatal error, warnings and
/// errors are noted, and everything else is dropped.
pub open spec fn spec_classify_decoder_event(e: FfEvent) -> EventAction {
    match e {
        FfEvent::Progress(p) => EventAction::Forward(FromFfmpegMessage::DecoderProgress(p)),
        FfEvent::Done => EventAction::Forward(FromFfmpegMessage::DecoderFinished),
        FfEvent::LogEof => EventAction::Forward(FromFfmpegMessage::DecoderFinished),
        FfEvent::Log(level, line) => {
            if level == LogLevel::Fatal {
                EventAction::Forward(FromFfmpegMessage::DecoderFatalError(line))
            } else if level == LogLevel::Warning || level == LogLevel::Error {
                EventAction::Note
            } else {
                EventAction::Ignore
            }
        },
        _ => EventAction::Ignore,
    }
}

/// Classifies one event from the decoder process.
pub fn classify_decoder_event(e: FfEvent) -> (r: EventAction)
    ensures
        r == spec_classify_decoder_event(e),
{
    match e {
        FfEvent::Progress(p) => EventAction::Forward(FromFfmpegMessage::DecoderProgress(p)),
        FfEvent::Done => EventAction::Forward(FromFfmpegMessage::DecoderFinished),
        FfEvent::LogEof => EventAction::Forward(FromFfmpegMessage::DecoderFinished),
        FfEvent::Log(level, line) => {
            match level {
                LogLevel::Fatal => EventAction::Forward(
                    FromFfmpegMessage::DecoderFatalError(line),
                ),
                LogLevel::Warning => EventAction::Note,
                LogLevel::Error => EventAction::Note,
                _ => EventAction::Ignore,
            }
        },
        _ => EventAction::Ignore,
    }
}

/// Source-video metadata the pipeline needs: dimensions, the frame rate
/// as an exact rational, the container timescale, and the frame count.
#[derive(Debug, Clone, PartialEq, Eq, Structural)]
pub struct VideoInfo {
    pub width: u32,
    pub height: u32,
    pub frame_rate_num: u32,
    pub frame_rate_den: u32,
    pub time_base: u32,
    pub total_frames: u32,
}

/// The render configuration snapshot handed to the pipeline at start.
/// The chroma key is an RGBA colour.
#[derive(Debug, Clone)]
pub struct RenderSettings {
    pub selected_encoder_idx: usize,
    pub show_undetected_encoders: bool,
    pub bitrate_mbps: u32,
    pub keep_quality: bool,
    pub upscale: bool,
    pub rescale_to_4x3_aspect: bool,
    pub rendering_live_view: bool,
    pub use_chroma_key: bool,
    pub chroma_key: [u8; 4],
}

impl Default for RenderSettings {
    /// By default renders keep constant quality at a 40 Mbps fallback
    /// bitrate, with the live preview on and a green chroma key ready but
    /// disabled.
    fn default() -> (r: Self)
        ensures
            r.selected_encoder_idx == 0,
            !r.show_undetected_encoders,
            r.bitrate_mbps == 40,
            r.keep_quality,
            !r.upscale,
            !r.rescale_to_4x3_aspect,
            r.rendering_live_view,
            !r.use_chroma_key,
            r.chroma_key@ =~= seq![1u8, 177u8, 64u8, 255u8],
    {
        RenderSettings {
            selected_encoder_idx: 0,
            show_undetected_encoders: false,
            bitrate_mbps: 40,
            keep_quality: true,
            upscale: false,
            rescale_to_4x3_aspect: false,
            rendering_live_view: true,
            use_chroma_key: false,
            chroma_key: [1, 177, 64, 255],
        }
    }
}

} // verus!
