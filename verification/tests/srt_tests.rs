use walksnail_osd_tool::SrtData;
use walksnail_osd_tool::SrtDebugFrameData;
use walksnail_osd_tool::SrtFile;
use walksnail_osd_tool::SrtFileError;
use walksnail_osd_tool::SrtFrameData;
use walksnail_osd_tool::SrtFrameDataRef;
use walksnail_osd_tool::SrtOptions;
use walksnail_osd_tool::build_srt_debug_line;
use walksnail_osd_tool::build_srt_line;
use walksnail_osd_tool::wrap_two_lines;
use walksnail_osd_tool::join_words;

#[test]
fn parse_pre_v31_36_8_srt_frame_data() {
    let line = "Signal:4 CH:8 FlightTime:0 SBat:4.7V GBat:7.2V Delay:32ms Bitrate:25Mbps Distance:7m";
    let parsed = SrtFrameData::from_str(line);
    assert_eq!(
        parsed.expect("Failed to parse SRT frame data"),
        SrtFrameData {
            signal: 4,
            channel: 8,
            flight_time: 0,
            sky_bat_millivolts: 4700,
            ground_bat_millivolts: 7200,
            latency: 32,
            bitrate_kbps: 25000,
            distance: 7
        }
    )
}

#[test]
fn parse_v32_37_10_srt_frame_data() {
    let line = "Signal:4 CH:7 FlightTime:0 SBat:16.7V GBat:12.5V Delay:25ms Bitrate:25.0Mbps Distance:1m";
    let parsed = SrtFrameData::from_str(line);
    assert_eq!(
        parsed.expect("Failed to parse SRT frame data"),
        SrtFrameData {
            signal: 4,
            channel: 7,
            flight_time: 0,
            sky_bat_millivolts: 16700,
            ground_bat_millivolts: 12500,
            latency: 25,
            bitrate_kbps: 25000,
            distance: 1
        }
    )
}

#[test]
fn parse_v37_42_3_debug_src_frame_data() {
    let line = "CH:4 MCS:4 SP[ 74 152 152 152] GP[ 59  65  53  60] GTP:10 GTP0:00 STP:09 STP0:-1 GSNR:21.4 SSNR:21.6 Gtemp:35 Stemp:56 Delay:35ms Frame:60  Gerr:0 SErr:0 24, [iso:0,mode=max, exp:0] [gain:0.00 exp:0.000ms, Lx:0] [cct:0, rb:0.000 0.000]";
    let parsed = SrtDebugFrameData::from_str(line).expect("Failed to parse SRT frame data");
    assert_eq!(parsed.signal, 4);
    assert_eq!(parsed.channel, 4);
    assert_eq!(parsed.latency, 35);
    assert_eq!((parsed.sp1, parsed.sp2, parsed.sp3, parsed.sp4), (74, 152, 152, 152));
    assert_eq!((parsed.gp1, parsed.gp2, parsed.gp3, parsed.gp4), (59, 65, 53, 60));
    assert_eq!((parsed.gtp, parsed.gtp0, parsed.stp, parsed.stp0), (10, 0, 9, -1));
    assert_eq!(parsed.gsnr_milli, 21400);
    assert_eq!(parsed.ssnr_milli, 21600);
    assert_eq!(parsed.gtemp_milli, 35000);
    assert_eq!(parsed.stemp_milli, 56000);
    assert_eq!(parsed.fps, 60);
    assert_eq!((parsed.gerr, parsed.serr, parsed.serr_ext), (0, 0, 24));
    assert_eq!(parsed.iso, 0);
    assert_eq!(parsed.iso_mode, "max");
    assert_eq!(parsed.iso_exp, 0);
    assert_eq!(parsed.gain_milli, 0);
    assert_eq!(parsed.gain_exp_milli, 0);
    assert_eq!(parsed.gain_lx, 0);
    assert_eq!(parsed.cct, 0);
    assert_eq!(parsed.rb_milli, 0);
    assert_eq!(parsed.rb_ext_milli, 0);
}

#[test]
fn parse_rejects_malformed_record() {
    assert!(SrtFrameData::from_str("Signal:4 CH:8 nothing else").is_none());
    assert!(SrtFrameData::from_str("").is_none());
    assert!(SrtFrameData::from_str(
        "Signal:4 CH:8 FlightTime:0 SBat:4.7.1V GBat:7.2V Delay:32ms Bitrate:25Mbps Distance:7m"
    )
    .is_none());
    assert!(SrtFrameData::from_str(
        "Signal:999 CH:8 FlightTime:0 SBat:4.7V GBat:7.2V Delay:32ms Bitrate:25Mbps Distance:7m"
    )
    .is_none());
}

fn normal_srt_text() -> String {
    let mut t = String::new();
    t.push_str("1\n00:00:00,000 --> 00:00:01,000\n");
    t.push_str("Signal:4 CH:8 FlightTime:0 SBat:4.7V GBat:7.2V Delay:32ms Bitrate:25Mbps Distance:7m\n\n");
    t.push_str("2\n00:00:01,000 --> 00:00:02,500\n");
    t.push_str("Signal:3 CH:8 FlightTime:1 SBat:4.6V GBat:7.1V Delay:30ms Bitrate:24Mbps Distance:12m\n");
    t
}

#[test]
fn srt_file_loads_normal_records() {
    let file = SrtFile::open(&normal_srt_text()).expect("srt file should load");
    assert!(file.has_distance);
    assert_eq!(file.duration_millis, 2500);
    assert_eq!(file.frames.len(), 2);
    assert_eq!(file.frames[0].start_time_millis, 0);
    assert_eq!(file.frames[0].end_time_millis, 1000);
    assert_eq!(file.frames[1].start_time_millis, 1000);
    assert_eq!(file.data.len(), 2);
    match file.data.get_frame_data(1) {
        Some(SrtFrameDataRef::Normal(d)) => {
            assert_eq!(d.signal, 3);
            assert_eq!(d.distance, 12);
        }
        _ => panic!("expected the standard record form"),
    }
    assert!(file.data.get_frame_data(2).is_none());
    match &file.data {
        SrtData::Normal(v) => assert_eq!(v.len(), 2),
        _ => panic!("expected the standard record form"),
    }
}

#[test]
fn srt_file_rejects_unknown_and_mixed_records() {
    let unknown = "1\n00:00:00,000 --> 00:00:01,000\njust some subtitle\n";
    match SrtFile::open(unknown) {
        Err(SrtFileError::ParseError) => {}
        other => panic!("expected a parse error, got {:?}", other),
    }

    let mut mixed = String::new();
    mixed.push_str("1\n00:00:00,000 --> 00:00:01,000\n");
    mixed.push_str("Signal:4 CH:8 FlightTime:0 SBat:4.7V GBat:7.2V Delay:32ms Bitrate:25Mbps Distance:7m\n\n");
    mixed.push_str("2\n00:00:01,000 --> 00:00:02,000\nnot telemetry\n");
    match SrtFile::open(&mixed) {
        Err(SrtFileError::FailedToParseData { index }) => assert_eq!(index, 1),
        other => panic!("expected a data failure, got {:?}", other),
    }

    match SrtFile::open("") {
        Err(SrtFileError::UnableToOpenFile { .. }) | Err(SrtFileError::EmptySrtFile) => {}
        other => panic!("expected an empty-file failure, got {:?}", other),
    }
}

#[test]
fn srt_line_renders_enabled_fields() {
    let data = SrtFrameData {
        signal: 4,
        channel: 8,
        flight_time: 75,
        sky_bat_millivolts: 4700,
        ground_bat_millivolts: 7200,
        latency: 32,
        bitrate_kbps: 25000,
        distance: 7,
    };
    let options = SrtOptions::default();
    // defaults show signal, channel, latency, bitrate and distance
    let line = build_srt_line(&data, &options);
    assert_eq!(line, "Signal:4  Ch:8  Latency: 32ms  Bitrate:25.0Mbps  Distance:  7m");

    let mut all = SrtOptions::default();
    all.show_time = true;
    all.show_sbat = true;
    all.show_gbat = true;
    let line = build_srt_line(&data, &all);
    assert_eq!(
        line,
        "Signal:4  Ch:8  Time:1:15  GBat: 7.2V  SBat: 4.7V  Latency: 32ms  Bitrate:25.0Mbps  Distance:  7m"
    );

    let far = SrtFrameData { distance: 1234, ..data };
    let line = build_srt_line(&far, &options);
    assert_eq!(line, "Signal:4  Ch:8  Latency: 32ms  Bitrate:25.0Mbps  Distance:1.23km");
}

#[test]
fn wrapping_splits_at_word_boundaries_and_drops_excess() {
    // five words of width 40 with spaces of width 10: two words and one
    // space fit a line of width 100, later words are dropped
    let widths = vec![40u64, 40, 40, 40, 40];
    let plan = wrap_two_lines(&widths, 10, 100);
    assert_eq!(plan.line1, 2);
    assert_eq!(plan.line2, 2);

    let words = vec![
        String::from("alpha"),
        String::from("beta"),
        String::from("gamma"),
        String::from("delta"),
        String::from("epsilon"),
    ];
    let line1 = join_words(&words, 0, plan.line1);
    let line2 = join_words(&words, plan.line1, plan.line2);
    assert_eq!(line1, "alpha beta");
    assert_eq!(line2, "gamma delta");

    // everything fits one line
    let plan = wrap_two_lines(&widths, 10, 1000);
    assert_eq!(plan.line1, 5);
    assert_eq!(plan.line2, 0);

    // the first word of the second line is placed even though it is the
    // only word that fits there
    let widths = vec![90u64, 90, 90];
    let plan = wrap_two_lines(&widths, 10, 100);
    assert_eq!(plan.line1, 1);
    assert_eq!(plan.line2, 1);
}

#[test]
fn debug_line_renders_enabled_fields() {
    let line = "CH:4 MCS:4 SP[ 74 152 152 152] GP[ 59  65  53  60] GTP:10 GTP0:00 STP:09 STP0:-1 GSNR:21.4 SSNR:-1.5 Gtemp:35 Stemp:56 Delay:35ms Frame:60  Gerr:0 SErr:0 24, [iso:0,mode=max, exp:0] [gain:2.50 exp:0.125ms, Lx:7] [cct:0, rb:0.000 0.000]";
    let d = SrtDebugFrameData::from_str(line).unwrap();
    let o = SrtOptions::default();
    // defaults show channel, signal, SNR values, sky temperature, latency,
    // error counters and the live camera gain
    let built = build_srt_debug_line(&d, &o);
    assert_eq!(
        built,
        "CH:4 MCS:4 GSNR:21.4 SSNR:-1.5 STemp: 56 Delay: 35 GErr: 0 SErr: 0 24 [ISO_Gain:2.50 Exp:0.125ms Lx:7] "
    );
}

#[test]
fn srt_options_defaults_match_the_reference_layout() {
    let o = SrtOptions::default();
    assert_eq!(o.position.x, 15);
    assert_eq!(o.position.y, 950);
    assert_eq!(o.scale_milli, 35000);
    assert!(!o.no_srt);
    assert!(o.show_signal && o.show_latency && o.show_bitrate && o.show_distance);
    assert!(!o.show_time && !o.show_sbat && !o.show_gbat);
}
