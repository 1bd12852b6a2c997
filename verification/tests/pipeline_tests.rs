use walksnail_osd_tool::Codec;
use walksnail_osd_tool::Encoder;
use walksnail_osd_tool::EventAction;
use walksnail_osd_tool::FfEvent;
use walksnail_osd_tool::FromFfmpegMessage;
use walksnail_osd_tool::LogLevel;
use walksnail_osd_tool::OsKind;
use walksnail_osd_tool::RenderProgress;
use walksnail_osd_tool::RenderSettings;
use walksnail_osd_tool::RenderStatus;
use walksnail_osd_tool::Status;
use walksnail_osd_tool::VideoInfo;
use walksnail_osd_tool::classify_decoder_event;
use walksnail_osd_tool::classify_encoder_event;
use walksnail_osd_tool::decoder_args;
use walksnail_osd_tool::encoder_args;
use walksnail_osd_tool::known_encoders;
use walksnail_osd_tool::sort_and_filter_encoders;

fn info() -> VideoInfo {
    VideoInfo {
        width: 1280,
        height: 720,
        frame_rate_num: 60,
        frame_rate_den: 1,
        time_base: 90000,
        total_frames: 1000,
    }
}

fn progress(frame: u32) -> RenderProgress {
    RenderProgress { frame, fps_milli: 30000, speed_milli: 1000, bitrate_kbps_milli: 4000000 }
}

#[test]
fn encoder_events_classify_fatal_lines_and_progress() {
    match classify_encoder_event(FfEvent::Progress(progress(1))) {
        EventAction::Forward(FromFfmpegMessage::EncoderProgress(p)) => assert_eq!(p.frame, 1),
        other => panic!("expected forwarded progress, got {other:?}"),
    }
    match classify_encoder_event(FfEvent::Log(LogLevel::Fatal, String::from("boom"))) {
        EventAction::Forward(FromFfmpegMessage::EncoderFatalError(e)) => assert_eq!(e, "boom"),
        other => panic!("expected a fatal error, got {other:?}"),
    }
    // known-fatal text at a non-fatal severity
    let line = String::from("x Error initializing output stream y");
    match classify_encoder_event(FfEvent::Log(LogLevel::Error, line)) {
        EventAction::Forward(FromFfmpegMessage::EncoderFatalError(_)) => {}
        other => panic!("expected a fatal error, got {other:?}"),
    }
    let line = String::from("something [error] Cannot load nvcuda.dll");
    match classify_encoder_event(FfEvent::Log(LogLevel::Warning, line)) {
        EventAction::Forward(FromFfmpegMessage::EncoderFatalError(_)) => {}
        other => panic!("expected a fatal error, got {other:?}"),
    }
    match classify_encoder_event(FfEvent::Log(LogLevel::Error, String::from("harmless"))) {
        EventAction::Note => {}
        other => panic!("expected a note, got {other:?}"),
    }
    match classify_encoder_event(FfEvent::LogEof) {
        EventAction::Forward(FromFfmpegMessage::EncoderFinished) => {}
        other => panic!("expected the finish message, got {other:?}"),
    }
    match classify_encoder_event(FfEvent::ParsedVersion(String::from("6.1"))) {
        EventAction::Note => {}
        other => panic!("expected a note, got {other:?}"),
    }
}

#[test]
fn decoder_events_classify_finish_and_fatal_lines() {
    match classify_decoder_event(FfEvent::Done) {
        EventAction::Forward(FromFfmpegMessage::DecoderFinished) => {}
        other => panic!("expected the finish message, got {other:?}"),
    }
    match classify_decoder_event(FfEvent::LogEof) {
        EventAction::Forward(FromFfmpegMessage::DecoderFinished) => {}
        other => panic!("expected the finish message, got {other:?}"),
    }
    match classify_decoder_event(FfEvent::Log(LogLevel::Fatal, String::from("dead"))) {
        EventAction::Forward(FromFfmpegMessage::DecoderFatalError(e)) => assert_eq!(e, "dead"),
        other => panic!("expected a fatal error, got {other:?}"),
    }
    match classify_decoder_event(FfEvent::Log(LogLevel::Warning, String::from("meh"))) {
        EventAction::Note => {}
        other => panic!("expected a note, got {other:?}"),
    }
    match classify_decoder_event(FfEvent::Log(LogLevel::Info, String::from("fyi"))) {
        EventAction::Ignore => {}
        other => panic!("expected the event to be dropped, got {other:?}"),
    }
}

#[test]
fn status_tracks_progress_and_finish() {
    let mut status = RenderStatus::new();
    assert!(status.is_not_in_progress());
    status.start_render();
    assert!(status.is_in_progress());

    status.update_from_ffmpeg_message(FromFfmpegMessage::DecoderProgress(progress(500)), &info());
    match &status.decoder_status {
        Status::InProgress { progress_micro, time_remaining_millis, fps_milli, .. } => {
            assert_eq!(*progress_micro, 500_000);
            // 500 frames left at 30 fps: 16,666 ms remain
            assert_eq!(*time_remaining_millis, Some(16_666));
            assert_eq!(*fps_milli, 30000);
        }
        other => panic!("expected progress, got {other:?}"),
    }

    status.update_from_ffmpeg_message(FromFfmpegMessage::EncoderProgress(progress(400)), &info());
    match &status.encoder_status {
        Status::InProgress { progress_micro, .. } => assert_eq!(*progress_micro, 400_000),
        other => panic!("expected progress, got {other:?}"),
    }

    status.update_from_ffmpeg_message(FromFfmpegMessage::DecoderFinished, &info());
    assert!(matches!(status.decoder_status, Status::Completed));
    assert!(status.is_not_in_progress());

    status.reset();
    assert!(matches!(status.decoder_status, Status::Idle));
}

#[test]
fn status_reports_fatal_errors_at_current_progress() {
    let mut status = RenderStatus::new();
    status.start_render();
    status.update_from_ffmpeg_message(FromFfmpegMessage::DecoderProgress(progress(250)), &info());
    status.update_from_ffmpeg_message(
        FromFfmpegMessage::EncoderFatalError(String::from("sink broke")),
        &info(),
    );
    match &status.decoder_status {
        Status::Error { progress_micro, error } => {
            assert_eq!(*progress_micro, 250_000);
            assert_eq!(error, "sink broke");
        }
        other => panic!("expected an error, got {other:?}"),
    }
}

#[test]
fn early_encoder_finish_is_an_error_and_later_finish_is_not() {
    let mut status = RenderStatus::new();
    status.start_render();
    // decode progress is still zero: an encoder finish means it died early
    status.update_from_ffmpeg_message(FromFfmpegMessage::EncoderFinished, &info());
    match &status.decoder_status {
        Status::Error { progress_micro, error } => {
            assert_eq!(*progress_micro, 0);
            assert_eq!(error, "Encoder unexpectedly finished");
        }
        other => panic!("expected an error, got {other:?}"),
    }

    let mut status = RenderStatus::new();
    status.start_render();
    status.update_from_ffmpeg_message(FromFfmpegMessage::DecoderProgress(progress(500)), &info());
    status.update_from_ffmpeg_message(FromFfmpegMessage::EncoderFinished, &info());
    assert!(matches!(status.decoder_status, Status::InProgress { .. }));
}

#[test]
fn stop_render_cancels_at_current_progress() {
    let mut status = RenderStatus::new();
    status.start_render();
    status.update_from_ffmpeg_message(FromFfmpegMessage::DecoderProgress(progress(100)), &info());
    status.stop_render();
    match &status.decoder_status {
        Status::Cancelled { progress_micro } => assert_eq!(*progress_micro, 100_000),
        other => panic!("expected a cancellation, got {other:?}"),
    }
    // stopping an idle render changes nothing
    let mut idle = RenderStatus::new();
    idle.stop_render();
    assert!(matches!(idle.decoder_status, Status::Idle));
}

#[test]
fn decoder_arguments_request_raw_rgba_output() {
    let args = decoder_args("in.mp4");
    assert_eq!(
        args,
        vec!["-hwaccel", "auto", "-i", "in.mp4", "-f", "rawvideo", "-pix_fmt", "rgba", "-"]
    );
}

fn x264() -> Encoder {
    let table = known_encoders(OsKind::Linux);
    table.into_iter().find(|e| e.name == "libx264").unwrap()
}

#[test]
fn encoder_arguments_cover_rate_control_and_audio_passthrough() {
    let settings = RenderSettings::default();
    // constant quality with libx264
    let args = encoder_args(&info(), &settings, &x264(), "out.mp4", "in.mp4");
    let expected: Vec<&str> = vec![
        "-f", "rawvideo", "-pix_fmt", "rgba", "-s", "1280x720", "-r", "60/1", "-i", "-", "-i",
        "in.mp4", "-map", "0", "-map", "1:a?", "-c:a", "copy", "-c:v", "libx264", "-crf", "19",
        "-b:v", "0k", "-video_track_timescale", "90000", "-pix_fmt", "yuv420p", "-y", "out.mp4",
    ];
    assert_eq!(args, expected);

    // fixed bitrate, upscaling and aspect tagging
    let mut settings = RenderSettings::default();
    settings.keep_quality = false;
    settings.upscale = true;
    settings.rescale_to_4x3_aspect = true;
    let args = encoder_args(&info(), &settings, &x264(), "out.mp4", "in.mp4");
    let expected: Vec<&str> = vec![
        "-f", "rawvideo", "-pix_fmt", "rgba", "-s", "1280x720", "-r", "60/1", "-i", "-", "-i",
        "in.mp4", "-map", "0", "-map", "1:a?", "-c:a", "copy", "-vf",
        "scale=-2:1440:flags=bicubic", "-aspect", "4:3", "-c:v", "libx264", "-b:v", "40M",
        "-video_track_timescale", "90000", "-pix_fmt", "yuv420p", "-y", "out.mp4",
    ];
    assert_eq!(args, expected);
}

#[test]
fn encoder_arguments_adapt_to_nvenc_chroma_and_prores() {
    let table = known_encoders(OsKind::Linux);
    let nvenc = table.iter().find(|e| e.name == "hevc_nvenc").unwrap();
    let settings = RenderSettings::default();
    let args = encoder_args(&info(), &settings, nvenc, "out.mp4", "in.mp4");
    // the CUDA upload filter appears, and no yuv420p is forced for NVENC
    assert!(args.iter().any(|a| a == "format=rgb24,hwupload_cuda"));
    assert!(!args.contains(&String::from("yuv420p")));
    // the QuickTime compatibility tag rides along
    assert!(args.windows(2).any(|w| w[0] == "-tag:v" && w[1] == "hvc1"));

    // transparency keeps the native pixel format
    let mut settings = RenderSettings::default();
    settings.use_chroma_key = true;
    let args = encoder_args(&info(), &settings, &x264(), "out.mp4", "in.mp4");
    assert!(!args.contains(&String::from("yuv420p")));

    // ProRes forces a QuickTime container
    let table = known_encoders(OsKind::MacOs);
    let prores = table.iter().find(|e| e.name == "prores_ks").unwrap();
    let mut settings = RenderSettings::default();
    settings.keep_quality = false;
    let args = encoder_args(&info(), &settings, prores, "out.mp4", "in.mp4");
    assert_eq!(args.last().unwrap(), "out.mov");
}

#[test]
fn encoder_table_lists_software_encoders_everywhere() {
    for os in [OsKind::Windows, OsKind::Linux, OsKind::MacOs, OsKind::Other] {
        let table = known_encoders(os);
        assert!(table.iter().all(|e| !e.detected));
        assert_eq!(table[0].name, "libx264");
        assert_eq!(table[1].name, "libx265");
    }
    let mac = known_encoders(OsKind::MacOs);
    assert!(mac.iter().any(|e| e.codec == Codec::ProRes));
}

#[test]
fn detected_encoders_sort_hardware_first_then_codec_then_name() {
    let mut table = known_encoders(OsKind::Linux);
    for e in table.iter_mut() {
        e.detected = matches!(
            e.name.as_str(),
            "libx264" | "libx265" | "hevc_nvenc" | "h264_nvenc" | "h264_vaapi"
        );
    }
    let sorted = sort_and_filter_encoders(&table);
    let names: Vec<&str> = sorted.iter().map(|e| e.name.as_str()).collect();
    assert_eq!(names, vec!["hevc_nvenc", "h264_nvenc", "h264_vaapi", "libx265", "libx264"]);

    // undetected encoders are filtered out entirely
    let none = known_encoders(OsKind::Linux);
    assert!(sort_and_filter_encoders(&none).is_empty());
}
