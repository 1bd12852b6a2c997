use vstd::prelude::*;

use crate::srt::SrtFrameData;
use crate::srt::SrtOptions;
use crate::srt_debug::SrtDebugFrameData;
use crate::text::append_fixed1_padded;
use crate::text::append_fixed2;
use crate::text::append_padded_u32;
use crate::text::append_str;
use crate::text::append_u32;
use crate::text::append_zero_padded_u32;
use crate::text::spec_dec_chars;
use crate::text::spec_fixed2_chars;
use crate::text::spec_padded_dec_chars;
use crate::text::append_fixed3;
use crate::text::append_i64;
use crate::text::append_padded_i64;
use crate::text::append_signed_fixed1_padded;
use crate::text::spec_fixed3_chars;
use crate::text::spec_padded_fixed1;
use crate::text::spec_padded_signed_chars;
use crate::text::spec_padded_signed_fixed1;
use crate::text::spec_signed_dec_chars;

verus! {

/// Millivolts rounded to tenths (of a volt, here: tenths of the unit).
pub open spec fn spec_milli_to_deci(milli: int) -> int {
    (milli + 50) / 100
}

/// Metres rounded to hundredths of a kilometre.
pub open spec fn spec_metres_to_centikm(metres: int) -> int {
    (metres + 5) / 10
}

/// The status line built from one standard telemetry record: each enabled
/// field is rendered with its label in a fixed order, numbers with one
/// decimal place where the source carries fractions, and the distance in
/// kilometres once it passes 999 metres.
pub open spec fn spec_srt_line(d: SrtFrameData, o: SrtOptions) -> Seq<char> {
    spec_signal_part(d, o) + spec_channel_part(d, o) + spec_time_part(d, o) + spec_gbat_part(d, o)
        + spec_sbat_part(d, o) + spec_latency_part(d, o) + spec_bitrate_part(d, o)
        + spec_distance_part(d, o)
}

pub open spec fn spec_signal_part(d: SrtFrameData, o: SrtOptions) -> Seq<char> {
    if o.show_signal {
        "Signal:"@ + spec_dec_chars(d.signal as int) + "  "@
    } else {
        Seq::empty()
    }
}

pub open spec fn spec_channel_part(d: SrtFrameData, o: SrtOptions) -> Seq<char> {
    if o.show_channel {
        "Ch:"@ + spec_dec_chars(d.channel as int) + "  "@
    } else {
        Seq::empty()
    }
}

pub open spec fn spec_time_part(d: SrtFrameData, o: SrtOptions) -> Seq<char> {
    if o.show_time {
        "Time:"@ + spec_dec_chars(d.flight_time as int / 60) + ":"@ + spec_padded_dec_chars(
            d.flight_time as int % 60,
            2,
            '0',
        ) + "  "@
    } else {
        Seq::empty()
    }
}

pub open spec fn spec_gbat_part(d: SrtFrameData, o: SrtOptions) -> Seq<char> {
    if o.show_gbat {
        "GBat:"@ + spec_padded_fixed1(spec_milli_to_deci(d.ground_bat_millivolts as int), 4)
            + "V  "@
    } else {
        Seq::empty()
    }
}

pub open spec fn spec_sbat_part(d: SrtFrameData, o: SrtOptions) -> Seq<char> {
    if o.show_sbat {
        "SBat:"@ + spec_padded_fixed1(spec_milli_to_deci(d.sky_bat_millivolts as int), 4) + "V  "@
    } else {
        Seq::empty()
    }
}

pub open spec fn spec_latency_part(d: SrtFrameData, o: SrtOptions) -> Seq<char> {
    if o.show_latency {
        "Latency:"@ + spec_padded_dec_chars(d.latency as int, 3, ' ') + "ms  "@
    } else {
        Seq::empty()
    }
}

pub open spec fn spec_bitrate_part(d: SrtFrameData, o: SrtOptions) -> Seq<char> {
    if o.show_bitrate {
        "Bitrate:"@ + spec_padded_fixed1(spec_milli_to_deci(d.bitrate_kbps as int), 4) + "Mbps  "@
    } else {
        Seq::empty()
    }
}

pub open spec fn spec_distance_part(d: SrtFrameData, o: SrtOptions) -> Seq<char> {
    if o.show_distance {
        if d.distance > 999 {
            "Distance:"@ + spec_fixed2_chars(spec_metres_to_centikm(d.distance as int)) + "km"@
        } else {
            "Distance:"@ + spec_padded_dec_chars(d.distance as int, 3, ' ') + "m"@
        }
    } else {
        Seq::empty()
    }
}

/// Builds the telemetry status line for one standard record.
pub fn build_srt_line(d: &SrtFrameData, o: &SrtOptions) -> (r: String)
    ensures
        r@ == spec_srt_line(*d, *o),
{
    let mut s = String::new();
    append_signal_part(&mut s, d, o);
    append_channel_part(&mut s, d, o);
    append_time_part(&mut s, d, o);
    append_gbat_part(&mut s, d, o);
    append_sbat_part(&mut s, d, o);
    append_latency_part(&mut s, d, o);
    append_bitrate_part(&mut s, d, o);
    append_distance_part(&mut s, d, o);
    proof {
        assert(s@ =~= spec_srt_line(*d, *o));
    }
    s
}

fn append_signal_part(s: &mut String, d: &SrtFrameData, o: &SrtOptions)
    ensures
        final(s)@ == old(s)@ + spec_signal_part(*d, *o),
{
    let ghost base = s@;
    if o.show_signal {
        append_str(s, "Signal:");
        append_u32(s, d.signal as u32);
        append_str(s, "  ");
    }
    proof {
        assert(s@ =~= base + spec_signal_part(*d, *o));
    }
}

fn append_channel_part(s: &mut String, d: &SrtFrameData, o: &SrtOptions)
    ensures
        final(s)@ == old(s)@ + spec_channel_part(*d, *o),
{
    let ghost base = s@;
    if o.show_channel {
        append_str(s, "Ch:");
        append_u32(s, d.channel as u32);
        append_str(s, "  ");
    }
    proof {
        assert(s@ =~= base + spec_channel_part(*d, *o));
    }
}

fn append_time_part(s: &mut String, d: &SrtFrameData, o: &SrtOptions)
    ensures
        final(s)@ == old(s)@ + spec_time_part(*d, *o),
{
    let ghost base = s@;
    if o.show_time {
        append_str(s, "Time:");
        append_u32(s, d.flight_time / 60);
        append_str(s, ":");
        append_zero_padded_u32(s, d.flight_time % 60, 2);
        append_str(s, "  ");
    }
    proof {
        assert(s@ =~= base + spec_time_part(*d, *o));
    }
}

fn append_gbat_part(s: &mut String, d: &SrtFrameData, o: &SrtOptions)
    ensures
        final(s)@ == old(s)@ + spec_gbat_part(*d, *o),
{
    let ghost base = s@;
    if o.show_gbat {
        append_str(s, "GBat:");
        append_fixed1_padded(s, milli_to_deci(d.ground_bat_millivolts), 4);
        append_str(s, "V  ");
    }
    proof {
        assert(s@ =~= base + spec_gbat_part(*d, *o));
    }
}

fn append_sbat_part(s: &mut String, d: &SrtFrameData, o: &SrtOptions)
    ensures
        final(s)@ == old(s)@ + spec_sbat_part(*d, *o),
{
    let ghost base = s@;
    if o.show_sbat {
        append_str(s, "SBat:");
        append_fixed1_padded(s, milli_to_deci(d.sky_bat_millivolts), 4);
        append_str(s, "V  ");
    }
    proof {
        assert(s@ =~= base + spec_sbat_part(*d, *o));
    }
}

fn append_latency_part(s: &mut String, d: &SrtFrameData, o: &SrtOptions)
    ensures
        final(s)@ == old(s)@ + spec_latency_part(*d, *o),
{
    let ghost base = s@;
    if o.show_latency {
        append_str(s, "Latency:");
        append_padded_u32(s, d.latency, 3);
        append_str(s, "ms  ");
    }
    proof {
        assert(s@ =~= base + spec_latency_part(*d, *o));
    }
}

fn append_bitrate_part(s: &mut String, d: &SrtFrameData, o: &SrtOptions)
    ensures
        final(s)@ == old(s)@ + spec_bitrate_part(*d, *o),
{
    let ghost base = s@;
    if o.show_bitrate {
        append_str(s, "Bitrate:");
        append_fixed1_padded(s, milli_to_deci(d.bitrate_kbps), 4);
        append_str(s, "Mbps  ");
    }
    proof {
        assert(s@ =~= base + spec_bitrate_part(*d, *o));
    }
}

fn append_distance_part(s: &mut String, d: &SrtFrameData, o: &SrtOptions)
    ensures
        final(s)@ == old(s)@ + spec_distance_part(*d, *o),
{
    let ghost base = s@;
    if o.show_distance {
        append_str(s, "Distance:");
        if d.distance > 999 {
            let centikm = ((d.distance as u64 + 5) / 10) as u32;
            append_fixed2(s, centikm);
            append_str(s, "km");
        } else {
            append_padded_u32(s, d.distance, 3);
            append_str(s, "m");
        }
    }
    proof {
        assert(s@ =~= base + spec_distance_part(*d, *o));
    }
}

/// A signed value in thousandths rounded to tenths, keeping the sign.
pub open spec fn spec_signed_milli_to_deci(milli: int) -> int {
    if milli < 0 {
        -((-milli + 50) / 100)
    } else {
        (milli + 50) / 100
    }
}

/// Whole units of a signed value in thousandths, truncated toward zero.
pub open spec fn spec_milli_trunc_units(v: int) -> int {
    if v < 0 {
        -((-v) / 1000)
    } else {
        v / 1000
    }
}

/// A value in thousandths rounded to hundredths.
pub open spec fn spec_milli_to_centi(milli: int) -> int {
    (milli + 5) / 10
}

/// The status line built from one extended (debug) telemetry record: the
/// enabled diagnostic blocks in a fixed order, fractional values with
/// one, two or three decimal places as the reference layout has them.
pub open spec fn spec_debug_line(d: SrtDebugFrameData, o: SrtOptions) -> Seq<char> {
    spec_debug_link_part(d, o) + spec_debug_power_part(d, o) + spec_debug_snr_part(d, o)
        + spec_debug_rate_part(d, o) + spec_debug_cam_part(d, o)
}

pub open spec fn spec_debug_link_part(d: SrtDebugFrameData, o: SrtOptions) -> Seq<char> {
    (if o.show_channel {
        "CH:"@ + spec_signed_dec_chars(d.channel as int) + " "@
    } else {
        Seq::empty()
    }) + (if o.show_signal {
        "MCS:"@ + spec_signed_dec_chars(d.signal as int) + " "@
    } else {
        Seq::empty()
    })
}

pub open spec fn spec_quad_chars(a: int, b: int, c: int, e: int) -> Seq<char> {
    spec_padded_signed_chars(a, 3) + " "@ + spec_padded_signed_chars(b, 3) + " "@
        + spec_padded_signed_chars(c, 3) + " "@ + spec_padded_signed_chars(e, 3)
}

pub open spec fn spec_debug_power_part(d: SrtDebugFrameData, o: SrtOptions) -> Seq<char> {
    (if o.show_gp {
        "GP["@ + spec_quad_chars(d.gp1 as int, d.gp2 as int, d.gp3 as int, d.gp4 as int) + "] "@
    } else {
        Seq::empty()
    }) + (if o.show_sp {
        "SP["@ + spec_quad_chars(d.sp1 as int, d.sp2 as int, d.sp3 as int, d.sp4 as int) + "] "@
    } else {
        Seq::empty()
    }) + (if o.show_gtp {
        "GTP:"@ + spec_padded_signed_chars(d.gtp as int, 2) + " "@
    } else {
        Seq::empty()
    }) + (if o.show_stp {
        "STP:"@ + spec_padded_signed_chars(d.stp as int, 2) + " "@
    } else {
        Seq::empty()
    })
}

pub open spec fn spec_debug_snr_part(d: SrtDebugFrameData, o: SrtOptions) -> Seq<char> {
    (if o.show_gsnr {
        "GSNR:"@ + spec_padded_signed_fixed1(spec_signed_milli_to_deci(d.gsnr_milli as int), 4)
            + " "@
    } else {
        Seq::empty()
    }) + (if o.show_ssnr {
        "SSNR:"@ + spec_padded_signed_fixed1(spec_signed_milli_to_deci(d.ssnr_milli as int), 4)
            + " "@
    } else {
        Seq::empty()
    }) + (if o.show_gtemp {
        "GTemp:"@ + spec_padded_signed_chars(spec_milli_trunc_units(d.gtemp_milli as int), 3) + " "@
    } else {
        Seq::empty()
    }) + (if o.show_stemp {
        "STemp:"@ + spec_padded_signed_chars(spec_milli_trunc_units(d.stemp_milli as int), 3) + " "@
    } else {
        Seq::empty()
    })
}

pub open spec fn spec_debug_rate_part(d: SrtDebugFrameData, o: SrtOptions) -> Seq<char> {
    (if o.show_latency {
        "Delay:"@ + spec_padded_signed_chars(d.latency as int, 3) + " "@
    } else {
        Seq::empty()
    }) + (if o.show_fps {
        "FPS:"@ + spec_padded_signed_chars(d.fps as int, 2) + " "@
    } else {
        Seq::empty()
    }) + (if o.show_err {
        "GErr:"@ + spec_padded_signed_chars(d.gerr as int, 2) + " SErr:"@
            + spec_padded_signed_chars(d.serr as int, 2) + " "@ + spec_padded_signed_chars(
            d.serr_ext as int,
            2,
        ) + " "@
    } else {
        Seq::empty()
    })
}

pub open spec fn spec_debug_cam_part(d: SrtDebugFrameData, o: SrtOptions) -> Seq<char> {
    spec_debug_iso_gain(d, o) + spec_debug_cct_rb(d, o)
}

/// Whether a debug record's fractional fields are inside the range the
/// parser produces, so their rendering arithmetic stays in bounds.
pub open spec fn spec_debug_milli_in_range(d: SrtDebugFrameData) -> bool {
    &&& -0x1_0000_0000 < d.gsnr_milli < 0x1_0000_0000
    &&& -0x1_0000_0000 < d.ssnr_milli < 0x1_0000_0000
    &&& -0x1_0000_0000 < d.gtemp_milli < 0x1_0000_0000
    &&& -0x1_0000_0000 < d.stemp_milli < 0x1_0000_0000
}

/// Builds the telemetry status line for one extended (debug) record.
pub fn build_srt_debug_line(d: &SrtDebugFrameData, o: &SrtOptions) -> (r: String)
    requires
        spec_debug_milli_in_range(*d),
    ensures
        r@ == spec_debug_line(*d, *o),
{
    let mut s = String::new();
    append_debug_link_part(&mut s, d, o);
    append_debug_power_part(&mut s, d, o);
    append_debug_snr_part(&mut s, d, o);
    append_debug_rate_part(&mut s, d, o);
    append_debug_cam_part(&mut s, d, o);
    proof {
        assert(s@ =~= spec_debug_line(*d, *o));
    }
    s
}

fn append_debug_link_part(s: &mut String, d: &SrtDebugFrameData, o: &SrtOptions)
    ensures
        final(s)@ == old(s)@ + spec_debug_link_part(*d, *o),
{
    let ghost base = s@;
    if o.show_channel {
        append_str(s, "CH:");
        append_i64(s, d.channel as i64);
        append_str(s, " ");
    }
    let ghost mid = s@;
    proof {
        assert(mid =~= base + (if o.show_channel {
            "CH:"@ + spec_signed_dec_chars(d.channel as int) + " "@
        } else {
            Seq::<char>::empty()
        }));
    }
    if o.show_signal {
        append_str(s, "MCS:");
        append_i64(s, d.signal as i64);
        append_str(s, " ");
    }
    proof {
        assert(s@ =~= base + spec_debug_link_part(*d, *o));
    }
}

fn append_quad(s: &mut String, a: i16, b: i16, c: i16, e: i16)
    ensures
        final(s)@ == old(s)@ + spec_quad_chars(a as int, b as int, c as int, e as int),
{
    append_padded_i64(s, a as i64, 3);
    append_str(s, " ");
    append_padded_i64(s, b as i64, 3);
    append_str(s, " ");
    append_padded_i64(s, c as i64, 3);
    append_str(s, " ");
    append_padded_i64(s, e as i64, 3);
    proof {
        assert(final(s)@ =~= old(s)@ + spec_quad_chars(a as int, b as int, c as int, e as int));
    }
}

#[verifier::rlimit(60)]
fn append_debug_power_part(s: &mut String, d: &SrtDebugFrameData, o: &SrtOptions)
    ensures
        final(s)@ == old(s)@ + spec_debug_power_part(*d, *o),
{
    let ghost base = s@;
    if o.show_gp {
        append_str(s, "GP[");
        append_quad(s, d.gp1, d.gp2, d.gp3, d.gp4);
        append_str(s, "] ");
    }
    proof {
        assert(s@ =~= base + (if o.show_gp {
            "GP["@ + spec_quad_chars(d.gp1 as int, d.gp2 as int, d.gp3 as int, d.gp4 as int)
                + "] "@
        } else {
            Seq::<char>::empty()
        }));
    }
    let ghost done = s@;
    if o.show_sp {
        append_str(s, "SP[");
        append_quad(s, d.sp1, d.sp2, d.sp3, d.sp4);
        append_str(s, "] ");
    }
    proof {
        assert(s@ =~= done + (if o.show_sp {
            "SP["@ + spec_quad_chars(d.sp1 as int, d.sp2 as int, d.sp3 as int, d.sp4 as int)
                + "] "@
        } else {
            Seq::<char>::empty()
        }));
    }
    let ghost done = s@;
    if o.show_gtp {
        append_str(s, "GTP:");
        append_padded_i64(s, d.gtp as i64, 2);
        append_str(s, " ");
    }
    proof {
        assert(s@ =~= done + (if o.show_gtp {
            "GTP:"@ + spec_padded_signed_chars(d.gtp as int, 2) + " "@
        } else {
            Seq::<char>::empty()
        }));
    }
    let ghost done = s@;
    if o.show_stp {
        append_str(s, "STP:");
        append_padded_i64(s, d.stp as i64, 2);
        append_str(s, " ");
    }
    proof {
        assert(s@ =~= done + (if o.show_stp {
            "STP:"@ + spec_padded_signed_chars(d.stp as int, 2) + " "@
        } else {
            Seq::<char>::empty()
        }));
        assert(s@ =~= base + spec_debug_power_part(*d, *o));
    }
}

#[verifier::rlimit(60)]
fn append_debug_snr_part(s: &mut String, d: &SrtDebugFrameData, o: &SrtOptions)
    requires
        spec_debug_milli_in_range(*d),
    ensures
        final(s)@ == old(s)@ + spec_debug_snr_part(*d, *o),
{
    let ghost base = s@;
    if o.show_gsnr {
        append_str(s, "GSNR:");
        append_signed_fixed1_padded(s, signed_milli_to_deci(d.gsnr_milli), 4);
        append_str(s, " ");
    }
    proof {
        assert(s@ =~= base + (if o.show_gsnr {
            "GSNR:"@ + spec_padded_signed_fixed1(
                spec_signed_milli_to_deci(d.gsnr_milli as int),
                4,
            ) + " "@
        } else {
            Seq::<char>::empty()
        }));
    }
    let ghost done = s@;
    if o.show_ssnr {
        append_str(s, "SSNR:");
        append_signed_fixed1_padded(s, signed_milli_to_deci(d.ssnr_milli), 4);
        append_str(s, " ");
    }
    proof {
        assert(s@ =~= done + (if o.show_ssnr {
            "SSNR:"@ + spec_padded_signed_fixed1(
                spec_signed_milli_to_deci(d.ssnr_milli as int),
                4,
            ) + " "@
        } else {
            Seq::<char>::empty()
        }));
    }
    let ghost done = s@;
    if o.show_gtemp {
        append_str(s, "GTemp:");
        append_padded_i64(s, milli_trunc_units(d.gtemp_milli), 3);
        append_str(s, " ");
    }
    proof {
        assert(s@ =~= done + (if o.show_gtemp {
            "GTemp:"@ + spec_padded_signed_chars(spec_milli_trunc_units(d.gtemp_milli as int), 3) + " "@
        } else {
            Seq::<char>::empty()
        }));
    }
    let ghost done = s@;
    if o.show_stemp {
        append_str(s, "STemp:");
        append_padded_i64(s, milli_trunc_units(d.stemp_milli), 3);
        append_str(s, " ");
    }
    proof {
        assert(s@ =~= done + (if o.show_stemp {
            "STemp:"@ + spec_padded_signed_chars(spec_milli_trunc_units(d.stemp_milli as int), 3) + " "@
        } else {
            Seq::<char>::empty()
        }));
        assert(s@ =~= base + spec_debug_snr_part(*d, *o));
    }
}

#[verifier::rlimit(60)]
fn append_debug_rate_part(s: &mut String, d: &SrtDebugFrameData, o: &SrtOptions)
    ensures
        final(s)@ == old(s)@ + spec_debug_rate_part(*d, *o),
{
    let ghost base = s@;
    if o.show_latency {
        append_str(s, "Delay:");
        append_padded_i64(s, d.latency as i64, 3);
        append_str(s, " ");
    }
    proof {
        assert(s@ =~= base + (if o.show_latency {
            "Delay:"@ + spec_padded_signed_chars(d.latency as int, 3) + " "@
        } else {
            Seq::<char>::empty()
        }));
    }
    let ghost done = s@;
    if o.show_fps {
        append_str(s, "FPS:");
        append_padded_i64(s, d.fps as i64, 2);
        append_str(s, " ");
    }
    proof {
        assert(s@ =~= done + (if o.show_fps {
            "FPS:"@ + spec_padded_signed_chars(d.fps as int, 2) + " "@
        } else {
            Seq::<char>::empty()
        }));
    }
    let ghost done = s@;
    if o.show_err {
        append_str(s, "GErr:");
        append_padded_i64(s, d.gerr as i64, 2);
        append_str(s, " SErr:");
        append_padded_i64(s, d.serr as i64, 2);
        append_str(s, " ");
        append_padded_i64(s, d.serr_ext as i64, 2);
        append_str(s, " ");
    }
    proof {
        assert(s@ =~= done + (if o.show_err {
            "GErr:"@ + spec_padded_signed_chars(d.gerr as int, 2) + " SErr:"@
                + spec_padded_signed_chars(d.serr as int, 2) + " "@ + spec_padded_signed_chars(
                d.serr_ext as int,
                2,
            ) + " "@
        } else {
            Seq::<char>::empty()
        }));
        assert(s@ =~= base + spec_debug_rate_part(*d, *o));
    }
}

fn append_debug_cam_part(s: &mut String, d: &SrtDebugFrameData, o: &SrtOptions)
    ensures
        final(s)@ == old(s)@ + spec_debug_cam_part(*d, *o),
{
    let ghost base = s@;
    append_debug_iso_gain(s, d, o);
    append_debug_cct_rb(s, d, o);
    proof {
        assert(s@ =~= base + spec_debug_cam_part(*d, *o));
    }
}

/// The camera-settings and gain segments of the debug line.
pub open spec fn spec_debug_iso_gain(d: SrtDebugFrameData, o: SrtOptions) -> Seq<char> {
    (if o.show_settings_cam {
        "[ISO:"@ + spec_signed_dec_chars(d.iso as int) + " Mode:"@ + d.iso_mode@ + " Exp:"@
            + spec_signed_dec_chars(d.iso_exp as int) + "] "@
    } else {
        Seq::empty()
    }) + (if o.show_actual_cam {
        "[ISO_Gain:"@ + spec_fixed2_chars(spec_milli_to_centi(d.gain_milli as int)) + " Exp:"@
            + spec_fixed3_chars(d.gain_exp_milli as int) + "ms Lx:"@ + spec_signed_dec_chars(
            d.gain_lx as int,
        ) + "] "@
    } else {
        Seq::empty()
    })
}

/// The colour-temperature and balance segments of the debug line.
pub open spec fn spec_debug_cct_rb(d: SrtDebugFrameData, o: SrtOptions) -> Seq<char> {
    (if o.show_cct {
        "[CCT:"@ + spec_signed_dec_chars(d.cct as int) + "] "@
    } else {
        Seq::empty()
    }) + (if o.show_rb {
        "[RB:"@ + spec_fixed2_chars(spec_milli_to_centi(d.rb_milli as int)) + " "@
            + spec_fixed2_chars(spec_milli_to_centi(d.rb_ext_milli as int)) + "] "@
    } else {
        Seq::empty()
    })
}

#[verifier::rlimit(60)]
fn append_debug_iso_gain(s: &mut String, d: &SrtDebugFrameData, o: &SrtOptions)
    ensures
        final(s)@ == old(s)@ + spec_debug_iso_gain(*d, *o),
{
    let ghost base = s@;
    if o.show_settings_cam {
        append_str(s, "[ISO:");
        append_i64(s, d.iso as i64);
        append_str(s, " Mode:");
        append_str(s, d.iso_mode.as_str());
        append_str(s, " Exp:");
        append_i64(s, d.iso_exp as i64);
        append_str(s, "] ");
    }
    proof {
        assert(s@ =~= base + (if o.show_settings_cam {
            "[ISO:"@ + spec_signed_dec_chars(d.iso as int) + " Mode:"@ + d.iso_mode@ + " Exp:"@
                + spec_signed_dec_chars(d.iso_exp as int) + "] "@
        } else {
            Seq::<char>::empty()
        }));
    }
    let ghost done = s@;
    if o.show_actual_cam {
        append_str(s, "[ISO_Gain:");
        append_fixed2(s, milli_to_centi(d.gain_milli));
        append_str(s, " Exp:");
        append_fixed3(s, d.gain_exp_milli);
        append_str(s, "ms Lx:");
        append_i64(s, d.gain_lx as i64);
        append_str(s, "] ");
    }
    proof {
        assert(s@ =~= done + (if o.show_actual_cam {
            "[ISO_Gain:"@ + spec_fixed2_chars(spec_milli_to_centi(d.gain_milli as int)) + " Exp:"@
                + spec_fixed3_chars(d.gain_exp_milli as int) + "ms Lx:"@ + spec_signed_dec_chars(
                d.gain_lx as int,
            ) + "] "@
        } else {
            Seq::<char>::empty()
        }));
        assert(s@ =~= base + spec_debug_iso_gain(*d, *o));
    }
}

#[verifier::rlimit(60)]
fn append_debug_cct_rb(s: &mut String, d: &SrtDebugFrameData, o: &SrtOptions)
    ensures
        final(s)@ == old(s)@ + spec_debug_cct_rb(*d, *o),
{
    let ghost base = s@;
    if o.show_cct {
        append_str(s, "[CCT:");
        append_i64(s, d.cct as i64);
        append_str(s, "] ");
    }
    proof {
        assert(s@ =~= base + (if o.show_cct {
            "[CCT:"@ + spec_signed_dec_chars(d.cct as int) + "] "@
        } else {
            Seq::<char>::empty()
        }));
    }
    let ghost done = s@;
    if o.show_rb {
        append_str(s, "[RB:");
        append_fixed2(s, milli_to_centi(d.rb_milli));
        append_str(s, " ");
        append_fixed2(s, milli_to_centi(d.rb_ext_milli));
        append_str(s, "] ");
    }
    proof {
        assert(s@ =~= done + (if o.show_rb {
            "[RB:"@ + spec_fixed2_chars(spec_milli_to_centi(d.rb_milli as int)) + " "@
                + spec_fixed2_chars(spec_milli_to_centi(d.rb_ext_milli as int)) + "] "@
        } else {
            Seq::<char>::empty()
        }));
        assert(s@ =~= base + spec_debug_cct_rb(*d, *o));
    }
}

/// Rounds a signed value in thousandths to tenths, keeping the sign.
fn signed_milli_to_deci(milli: i64) -> (r: i64)
    requires
        -0x1_0000_0000 < milli < 0x1_0000_0000,
    ensures
        r == spec_signed_milli_to_deci(milli as int),
        -0x1_0000_0000 < r < 0x1_0000_0000,
{
    if milli < 0 {
        -((-milli + 50) / 100)
    } else {
        (milli + 50) / 100
    }
}

/// Whole units of a signed value in thousandths, truncated toward zero.
fn milli_trunc_units(v: i64) -> (r: i64)
    requires
        -0x1_0000_0000 < v < 0x1_0000_0000,
    ensures
        r == spec_milli_trunc_units(v as int),
        -0x1_0000_0000 < r < 0x1_0000_0000,
{
    if v < 0 {
        -((-v) / 1000)
    } else {
        v / 1000
    }
}

/// Rounds a value in thousandths to hundredths.
fn milli_to_centi(milli: u32) -> (r: u32)
    ensures
        r == spec_milli_to_centi(milli as int),
{
    ((milli as u64 + 5) / 10) as u32
}

/// Rounds a value in thousandths to tenths.
fn milli_to_deci(milli: u32) -> (r: u32)
    ensures
        r == spec_milli_to_deci(milli as int),
{
    ((milli as u64 + 50) / 100) as u32
}

/// The pixel anchor of the telemetry text on a frame: the configured
/// thousandths of the frame size, rounded to the nearest pixel.
pub fn srt_anchor(o: &SrtOptions, frame_width: u32, frame_height: u32) -> (r: (i64, i64))
    requires
        o.position.x <= 1000,
        o.position.y <= 1000,
    ensures
        r.0 == ((o.position.x * frame_width + 500) as int) / 1000,
        r.1 == ((o.position.y * frame_height + 500) as int) / 1000,
{
    proof {
        assert((o.position.x as int) * (frame_width as int) + 500 < 0x7fff_ffff_ffff_ffff)
            by (nonlinear_arith)
            requires
                0 <= (o.position.x as int) <= 1000,
                0 <= (frame_width as int) < 0x1_0000_0000,
        ;
        assert((o.position.y as int) * (frame_height as int) + 500 < 0x7fff_ffff_ffff_ffff)
            by (nonlinear_arith)
            requires
                0 <= (o.position.y as int) <= 1000,
                0 <= (frame_height as int) < 0x1_0000_0000,
        ;
    }
    let x = ((o.position.x as u64) * (frame_width as u64) + 500) / 1000;
    let y = ((o.position.y as u64) * (frame_height as u64) + 500) / 1000;
    (x as i64, y as i64)
}

/// How many of the words starting at `from` fit greedily on a line that
/// already holds `cur` width units: a word costs its width, plus a space
/// before it once the line has started.
pub open spec fn spec_fit_count(
    widths: Seq<u64>,
    space: int,
    max: int,
    from: int,
    cur: int,
    started: bool,
) -> int
    decreases widths.len() - from,
{
    if from < 0 || from >= widths.len() {
        0
    } else {
        let add = if started {
            space + widths[from]
        } else {
            widths[from] as int
        };
        if cur + add <= max {
            1 + spec_fit_count(widths, space, max, from + 1, cur + add, true)
        } else {
            0
        }
    }
}

/// The width of a line holding `count` words starting at `from`, joined
/// by single spaces.
pub open spec fn spec_line_width(widths: Seq<u64>, space: int, from: int, count: int) -> int
    decreases count,
{
    if count <= 0 || from < 0 {
        0
    } else if count == 1 {
        widths[from] as int
    } else {
        spec_line_width(widths, space, from, count - 1) + space + widths[from + count - 1]
    }
}

/// How the words of a telemetry line split over at most two rendered
/// lines: `line1` words go on the first line, the next `line2` words on
/// the second, and any words beyond that are dropped.
pub struct WrapPlan {
    pub line1: usize,
    pub line2: usize,
}

/// Splits words greedily into at most two lines. The first line takes
/// words while they fit within `max`; the second line starts with the
/// next word unconditionally and extends while the line fits; all later
/// words are dropped rather than starting a third line.
pub fn wrap_two_lines(widths: &Vec<u64>, space: u64, max: u64) -> (r: WrapPlan)
    requires
        widths@.len() <= 0x10000,
        forall|i: int| 0 <= i < widths@.len() ==> #[trigger] widths@[i] <= 0x1_0000_0000,
        space <= 0x1_0000_0000,
        max <= 0x1_0000_0000_0000,
    ensures
        r.line1 == spec_fit_count(widths@, space as int, max as int, 0, 0, false),
        r.line1 == widths@.len() ==> r.line2 == 0,
        r.line1 < widths@.len() ==> r.line2 == 1 + spec_fit_count(
            widths@,
            space as int,
            max as int,
            r.line1 + 1,
            widths@[r.line1 as int] as int,
            true,
        ),
        r.line1 + r.line2 <= widths@.len(),
{
    let n1 = fit_count(widths, space, max, 0, 0, false);
    if n1 == widths.len() {
        WrapPlan { line1: n1, line2: 0 }
    } else {
        let n2 = 1 + fit_count(widths, space, max, n1 + 1, widths[n1], true);
        WrapPlan { line1: n1, line2: n2 }
    }
}

/// The greedy filling loop for one line.
fn fit_count(widths: &Vec<u64>, space: u64, max: u64, from: usize, cur: u64, started: bool) -> (r:
    usize)
    requires
        widths@.len() <= 0x10000,
        forall|i: int| 0 <= i < widths@.len() ==> #[trigger] widths@[i] <= 0x1_0000_0000,
        space <= 0x1_0000_0000,
        max <= 0x1_0000_0000_0000,
        from <= widths@.len(),
        cur <= 0x1_0000_0000_0000,
    ensures
        r == spec_fit_count(widths@, space as int, max as int, from as int, cur as int, started),
        from + r <= widths@.len(),
    decreases widths@.len() - from,
{
    if from >= widths.len() {
        return 0;
    }
    let add: u64 = if started {
        space + widths[from]
    } else {
        widths[from]
    };
    if cur + add <= max {
        1 + fit_count(widths, space, max, from + 1, cur + add, true)
    } else {
        0
    }
}

/// Greedy filling never overfills: every line the wrap plan lays out fits
/// within the width limit, provided each word alone does (the first word
/// of the second line is placed unconditionally, so it needs that bound).
pub proof fn lemma_wrap_lines_fit(widths: Seq<u64>, space: int, max: int)
    requires
        0 <= space,
        0 <= max,
        forall|i: int| 0 <= i < widths.len() ==> #[trigger] widths[i] <= max,
    ensures
        ({
            let n1 = spec_fit_count(widths, space, max, 0, 0, false);
            spec_line_width(widths, space, 0, n1) <= max
        }),
        ({
            let n1 = spec_fit_count(widths, space, max, 0, 0, false);
            n1 < widths.len() ==> {
                let n2 = 1 + spec_fit_count(widths, space, max, n1 + 1, widths[n1] as int, true);
                spec_line_width(widths, space, n1, n2) <= max
            }
        }),
{
    let n1 = spec_fit_count(widths, space, max, 0, 0, false);
    lemma_fit_count_range(widths, space, max, 0, 0, false);
    if widths.len() == 0 || widths[0] > max {
        assert(n1 == 0);
        assert(spec_line_width(widths, space, 0, 0) == 0);
    } else {
        assert(n1 == 1 + spec_fit_count(widths, space, max, 1, widths[0] as int, true));
        assert(spec_line_width(widths, space, 0, 1) == widths[0]);
        lemma_fit_started(widths, space, max, 0, 1);
    }
    if n1 < widths.len() {
        assert(spec_line_width(widths, space, n1, 1) == widths[n1]);
        lemma_fit_started(widths, space, max, n1, 1);
    }
}

/// The greedy count takes between zero and all remaining words.
proof fn lemma_fit_count_range(
    widths: Seq<u64>,
    space: int,
    max: int,
    from: int,
    cur: int,
    started: bool,
)
    requires
        0 <= from <= widths.len(),
    ensures
        0 <= spec_fit_count(widths, space, max, from, cur, started),
        from + spec_fit_count(widths, space, max, from, cur, started) <= widths.len(),
    decreases widths.len() - from,
{
    if from < widths.len() {
        let add = if started {
            space + widths[from]
        } else {
            widths[from] as int
        };
        if cur + add <= max {
            lemma_fit_count_range(widths, space, max, from + 1, cur + add, true);
        }
    }
}

/// A line of `j` words starting at `b` that already fits keeps fitting as
/// the greedy count extends it.
proof fn lemma_fit_started(widths: Seq<u64>, space: int, max: int, b: int, j: int)
    requires
        0 <= b,
        1 <= j,
        b + j <= widths.len(),
        spec_line_width(widths, space, b, j) <= max,
        0 <= space,
    ensures
        spec_line_width(
            widths,
            space,
            b,
            j + spec_fit_count(
                widths,
                space,
                max,
                b + j,
                spec_line_width(widths, space, b, j),
                true,
            ),
        ) <= max,
    decreases widths.len() - (b + j),
{
    let cur = spec_line_width(widths, space, b, j);
    let from = b + j;
    if from >= widths.len() {
        assert(spec_fit_count(widths, space, max, from, cur, true) == 0);
    } else {
        let add = space + widths[from];
        if cur + add <= max {
            assert(spec_line_width(widths, space, b, j + 1) == cur + add);
            lemma_fit_started(widths, space, max, b, j + 1);
        } else {
            assert(spec_fit_count(widths, space, max, from, cur, true) == 0);
        }
    }
}

/// Joins `count` words starting at `from` with single spaces.
pub fn join_words(words: &Vec<String>, from: usize, count: usize) -> (r: String)
    requires
        from + count <= words@.len(),
    ensures
        r@ == spec_joined_words(words@.map_values(|w: String| w@), from as int, count as int),
{
    let mut s = String::new();
    let n = words.len();
    let mut i: usize = 0;
    while i < count
        invariant
            n == words@.len(),
            from + count <= words@.len(),
            i <= count,
            s@ == spec_joined_words(words@.map_values(|w: String| w@), from as int, i as int),
        decreases count - i,
    {
        proof {
            reveal_strlit(" ");
        }
        if i > 0 {
            append_str(&mut s, " ");
        }
        let w: &String = &words[from + i];
        append_str(&mut s, w.as_str());
        proof {
            assert(words@.map_values(|w: String| w@)[from + i] == words@[from + i]@);
            assert(" "@ =~= seq![' ']);
            assert(s@ =~= spec_joined_words(
                words@.map_values(|w: String| w@),
                from as int,
                i + 1,
            ));
        }
        i = i + 1;
    }
    s
}

/// Words joined by single spaces.
pub open spec fn spec_joined_words(words: Seq<Seq<char>>, from: int, count: int) -> Seq<char>
    decreases count,
{
    if count <= 0 || from < 0 {
        Seq::empty()
    } else if count == 1 {
        words[from]
    } else {
        spec_joined_words(words, from, count - 1) + seq![' '] + words[from + count - 1]
    }
}

} // verus!
