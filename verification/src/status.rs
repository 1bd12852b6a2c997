use vstd::prelude::*;

use vstd::string::StringExecFns;

use crate::ffmpeg::FromFfmpegMessage;
use crate::ffmpeg::RenderProgress;
use crate::ffmpeg::VideoInfo;

verus! {

/// Progress through the source video in millionths: a frame count over the
/// total frame count, or zero when the total is unknown.
pub open spec fn spec_progress_micro(frame: u32, total: u32) -> u64 {
    if total == 0 {
        0u64
    } else {
        ((frame as int) * 1000000 / (total as int)) as u64
    }
}

/// The milliseconds a stage still needs: remaining frames over the
/// reported rate, or nothing when the rate is zero or the frame count has
/// already passed the total.
pub open spec fn spec_time_remaining_millis(p: RenderProgress, total: u32) -> Option<u64> {
    if p.fps_milli == 0 || p.frame > total {
        None
    } else {
        Some((((total - p.frame) as int) * 1000000 / (p.fps_milli as int)) as u64)
    }
}

/// The state of one codec stage of a render.
#[derive(Debug, Clone)]
pub enum Status {
    Idle,
    InProgress {
        time_remaining_millis: Option<u64>,
        fps_milli: u32,
        speed_milli: u32,
        bitrate_kbps_milli: u32,
        progress_micro: u64,
    },
    Completed,
    Cancelled { progress_micro: u64 },
    Error { progress_micro: u64, error: String },
}

/// The progress state a stage enters on a fresh progress report.
pub open spec fn spec_status_from_progress(p: RenderProgress, info: VideoInfo) -> Status {
    Status::InProgress {
        time_remaining_millis: spec_time_remaining_millis(p, info.total_frames),
        fps_milli: p.fps_milli,
        speed_milli: p.speed_milli,
        bitrate_kbps_milli: p.bitrate_kbps_milli,
        progress_micro: spec_progress_micro(p.frame, info.total_frames),
    }
}

/// Tracks how far the decoder and encoder of a running render have come,
/// updated from the pipeline's lifecycle messages. An encoder that
/// reports finished while decode progress is still below the early-finish
/// threshold is treated as having died before meaningful work.
#[derive(Debug, Clone)]
pub struct RenderStatus {
    pub decoder_status: Status,
    pub encoder_status: Status,
    /// Decode progress (in millionths) under which an encoder finish is
    /// an error rather than a completion. This is policy, not contract,
    /// so it is a configurable field.
    pub early_finish_threshold_micro: u64,
}

impl RenderStatus {
    pub fn new() -> (r: RenderStatus)
        ensures
            r.decoder_status is Idle,
            r.encoder_status is Idle,
            r.early_finish_threshold_micro == 1000,
    {
        RenderStatus {
            decoder_status: Status::Idle,
            encoder_status: Status::Idle,
            early_finish_threshold_micro: 1000,
        }
    }

    /// Puts the decoder stage into a fresh in-progress state.
    pub fn start_render(&mut self)
        ensures
            final(self).decoder_status == (Status::InProgress {
                time_remaining_millis: None,
                fps_milli: 0u32,
                speed_milli: 0u32,
                bitrate_kbps_milli: 0u32,
                progress_micro: 0u64,
            }),
            final(self).encoder_status == old(self).encoder_status,
            final(self).early_finish_threshold_micro == old(self).early_finish_threshold_micro,
    {
        self.decoder_status = Status::InProgress {
            time_remaining_millis: None,
            fps_milli: 0,
            speed_milli: 0,
            bitrate_kbps_milli: 0,
            progress_micro: 0,
        };
    }

    /// Marks an in-progress render as cancelled at its current progress;
    /// a render not in progress is left alone.
    pub fn stop_render(&mut self)
        ensures
            final(self).encoder_status == old(self).encoder_status,
            final(self).early_finish_threshold_micro == old(self).early_finish_threshold_micro,
            match old(self).decoder_status {
                Status::InProgress { progress_micro, .. } => final(self).decoder_status == (
                Status::Cancelled { progress_micro }),
                _ => final(self).decoder_status == old(self).decoder_status,
            },
    {
        match &self.decoder_status {
            Status::InProgress { progress_micro, .. } => {
                let p = *progress_micro;
                self.decoder_status = Status::Cancelled { progress_micro: p };
            },
            _ => {},
        }
    }

    pub fn reset(&mut self)
        ensures
            final(self).decoder_status is Idle,
            final(self).encoder_status == old(self).encoder_status,
            final(self).early_finish_threshold_micro == old(self).early_finish_threshold_micro,
    {
        self.decoder_status = Status::Idle;
    }

    /// Advances the status on one lifecycle message. Only a render in
    /// progress reacts: a fatal error from either stage records the error
    /// at the current decode progress, a progress report refreshes the
    /// stage it describes, a decoder finish completes the render, and an
    /// encoder finish while decode progress is still under the
    /// early-finish threshold records an error (the encoder died before
    /// meaningful work).
    pub fn update_from_ffmpeg_message(&mut self, message: FromFfmpegMessage, video_info: &VideoInfo)
        ensures
            final(self).early_finish_threshold_micro == old(self).early_finish_threshold_micro,
            match old(self).decoder_status {
                Status::InProgress { progress_micro, .. } => {
                    match message {
                        FromFfmpegMessage::DecoderFatalError(e) => final(self).decoder_status == (
                        Status::Error { progress_micro, error: e }) && final(self).encoder_status
                            == old(self).encoder_status,
                        FromFfmpegMessage::EncoderFatalError(e) => final(self).decoder_status == (
                        Status::Error { progress_micro, error: e }) && final(self).encoder_status
                            == old(self).encoder_status,
                        FromFfmpegMessage::DecoderProgress(p) => {
                            &&& final(self).decoder_status == spec_status_from_progress(
                                p,
                                *video_info,
                            )
                            &&& final(self).encoder_status == old(self).encoder_status
                        },
                        FromFfmpegMessage::EncoderProgress(p) => {
                            &&& final(self).encoder_status == spec_status_from_progress(
                                p,
                                *video_info,
                            )
                            &&& final(self).decoder_status == old(self).decoder_status
                        },
                        FromFfmpegMessage::DecoderFinished => {
                            &&& final(self).decoder_status is Completed
                            &&& final(self).encoder_status == old(self).encoder_status
                        },
                        FromFfmpegMessage::EncoderFinished => {
                            if progress_micro < old(self).early_finish_threshold_micro {
                                &&& final(self).decoder_status matches Status::Error {
                                    progress_micro: pm,
                                    error,
                                }
                                &&& pm == 0
                                &&& error@ == "Encoder unexpectedly finished"@
                                &&& final(self).encoder_status == old(self).encoder_status
                            } else {
                                *final(self) == *old(self)
                            }
                        },
                        FromFfmpegMessage::EncoderStartedWithCommand(_) => *final(self) == *old(
                            self,
                        ),
                    }
                },
                _ => *final(self) == *old(self),
            },
    {
        let in_progress_micro: Option<u64> = match &self.decoder_status {
            Status::InProgress { progress_micro, .. } => Some(*progress_micro),
            _ => None,
        };
        match in_progress_micro {
            None => {},
            Some(progress_micro) => {
                match message {
                    FromFfmpegMessage::DecoderFatalError(e) => {
                        self.decoder_status = Status::Error { progress_micro, error: e };
                    },
                    FromFfmpegMessage::EncoderFatalError(e) => {
                        self.decoder_status = Status::Error { progress_micro, error: e };
                    },
                    FromFfmpegMessage::DecoderProgress(p) => {
                        self.decoder_status = status_from_progress(&p, video_info);
                    },
                    FromFfmpegMessage::EncoderProgress(p) => {
                        self.encoder_status = status_from_progress(&p, video_info);
                    },
                    FromFfmpegMessage::DecoderFinished => {
                        self.decoder_status = Status::Completed;
                    },
                    FromFfmpegMessage::EncoderFinished => {
                        if progress_micro < self.early_finish_threshold_micro {
                            self.decoder_status = Status::Error {
                                progress_micro: 0,
                                error: encoder_finished_early_message(),
                            };
                        }
                    },
                    FromFfmpegMessage::EncoderStartedWithCommand(_) => {},
                }
            },
        }
    }

    pub fn is_in_progress(&self) -> (r: bool)
        ensures
            r == (self.decoder_status is InProgress),
    {
        matches!(self.decoder_status, Status::InProgress { .. })
    }

    pub fn is_not_in_progress(&self) -> (r: bool)
        ensures
            r == !(self.decoder_status is InProgress),
    {
        !self.is_in_progress()
    }
}

/// The error recorded when the encoder finishes before the decoder has
/// made meaningful progress.
fn encoder_finished_early_message() -> (r: String)
    ensures
        r@ == "Encoder unexpectedly finished"@,
{
    String::from_str("Encoder unexpectedly finished")
}

/// The progress state a stage enters on a fresh progress report.
fn status_from_progress(p: &RenderProgress, info: &VideoInfo) -> (r: Status)
    ensures
        r == spec_status_from_progress(*p, *info),
{
    let progress_micro: u64 = if info.total_frames == 0 {
        0
    } else {
        (p.frame as u64) * 1000000 / (info.total_frames as u64)
    };
    let time_remaining_millis: Option<u64> = if p.fps_milli == 0 || p.frame > info.total_frames {
        None
    } else {
        Some(((info.total_frames - p.frame) as u64) * 1000000 / (p.fps_milli as u64))
    };
    Status::InProgress {
        time_remaining_millis,
        fps_milli: p.fps_milli,
        speed_milli: p.speed_milli,
        bitrate_kbps_milli: p.bitrate_kbps_milli,
        progress_micro,
    }
}

} // verus!
