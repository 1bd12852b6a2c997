use vstd::prelude::*;

use crate::text::chars_vec;
use crate::text::find_range;
use crate::text::parse_bounded_range;
use crate::text::parse_u32_range;
use crate::text::spec_all_digits;
use crate::text::spec_dec_value;
use crate::text::spec_find;
use crate::text::lemma_dec_value_bounds;
use crate::text::spec_parse_bounded;
use crate::text::spec_parse_u32;
use crate::text::spec_pow10;
use crate::text::starts_with;

verus! {

/// One telemetry record of the standard link-statistics form. Fractional
/// fields of the source text are held in integer units: battery voltages
/// in millivolts and the bitrate in thousandths of a megabit per second.
#[derive(Debug, Clone, PartialEq, Eq, Structural)]
pub struct SrtFrameData {
    pub signal: u8,
    pub channel: u8,
    pub flight_time: u32,
    pub sky_bat_millivolts: u32,
    pub ground_bat_millivolts: u32,
    pub latency: u32,
    pub bitrate_kbps: u32,
    pub distance: u32,
}

/// The value of an unsigned decimal numeral with an optional fraction,
/// scaled to thousandths and truncated past the third fractional digit:
/// `"4.7"` names 4700, `"25"` names 25000.
pub open spec fn spec_parse_milli(s: Seq<char>) -> Option<u32> {
    match spec_find(s, "."@, 0) {
        None => match spec_parse_u32(s) {
            Some(v) => if v * 1000 <= u32::MAX {
                Some((v * 1000) as u32)
            } else {
                None
            },
            None => None,
        },
        Some(d) => {
            let int_part = s.subrange(0, d);
            let frac_part = s.subrange(d + 1, s.len() as int);
            if int_part.len() > 0 && spec_all_digits(int_part) && spec_all_digits(frac_part) {
                let frac3 = if frac_part.len() >= 3 {
                    frac_part.subrange(0, 3)
                } else {
                    frac_part
                };
                let scale = if frac3.len() == 0 {
                    1000
                } else if frac3.len() == 1 {
                    100
                } else if frac3.len() == 2 {
                    10
                } else {
                    1int
                };
                let v = spec_dec_value(int_part) * 1000 + spec_dec_value(frac3) * scale;
                if v <= u32::MAX {
                    Some(v as u32)
                } else {
                    None
                }
            } else {
                None
            }
        },
    }
}

/// Parses the characters `from .. to` as a decimal number with an
/// optional fraction, in thousandths.
pub fn parse_milli_range(s: &Vec<char>, from: usize, to: usize) -> (r: Option<u32>)
    requires
        from <= to <= s@.len(),
    ensures
        r == spec_parse_milli(s@.subrange(from as int, to as int)),
{
    let ghost sub = s@.subrange(from as int, to as int);
    let mut dot: Option<usize> = None;
    let mut i: usize = from;
    while i < to
        invariant
            from <= i <= to <= s@.len(),
            sub == s@.subrange(from as int, to as int),
            match dot {
                Some(d) => from <= d < i && sub[d - from] == '.' && spec_find(sub, "."@, 0)
                    == Some((d - from) as int),
                None => spec_find(sub, "."@, 0) == spec_find(sub, "."@, (i - from) as int),
            },
        decreases to - i,
    {
        proof {
            reveal_strlit(".");
        }
        if dot.is_none() {
            if s[i] == '.' {
                proof {
                    assert(sub.subrange(i - from, i - from + 1) =~= "."@);
                }
                dot = Some(i);
            } else {
                proof {
                    assert(sub.subrange(i - from, i - from + 1) != "."@) by {
                        assert(sub.subrange(i - from, i - from + 1)[0] == s@[i as int]);
                        assert("."@[0] == '.');
                    }
                }
            }
        }
        i = i + 1;
    }
    proof {
        reveal_strlit(".");
        if dot is None {
            assert(spec_find(sub, "."@, (to - from) as int) is None);
        }
    }
    match dot {
        None => {
            proof {
                assert(spec_find(sub, "."@, 0) is None);
            }
            match parse_u32_range(s, from, to) {
                Some(v) => {
                    if v <= u32::MAX / 1000 {
                        proof {
                            assert(spec_parse_milli(sub) == Some((v * 1000) as u32));
                        }
                        Some(v * 1000)
                    } else {
                        proof {
                            assert((v as int) * 1000 > u32::MAX) by (nonlinear_arith)
                                requires
                                    v > u32::MAX / 1000,
                            ;
                            assert(spec_parse_milli(sub) is None);
                        }
                        None
                    }
                },
                None => {
                    proof {
                        assert(spec_parse_milli(sub) is None);
                    }
                    None
                },
            }
        },
        Some(d) => {
            let ghost int_part = sub.subrange(0, (d - from) as int);
            let ghost frac_part = sub.subrange((d - from + 1) as int, sub.len() as int);
            let ghost frac3 = if frac_part.len() >= 3 {
                frac_part.subrange(0, 3)
            } else {
                frac_part
            };
            let int_val = match parse_u32_range(s, from, d) {
                Some(v) => v,
                None => {
                    proof {
                        assert(s@.subrange(from as int, d as int) =~= int_part);
                        if int_part.len() > 0 && spec_all_digits(int_part) {
                            // the integer part alone already overflows
                            if spec_all_digits(frac_part) {
                                lemma_dec_value_bounds(frac3);
                                assert(spec_dec_value(int_part) * 1000 >= spec_dec_value(int_part));
                            }
                        }
                    }
                    return None;
                },
            };
            proof {
                assert(s@.subrange(from as int, d as int) =~= int_part);
            }
            let frac_to: usize = if to - (d + 1) >= 3 {
                d + 1 + 3
            } else {
                to
            };
            // the fraction past the third digit is ignored, but it must
            // still be made of digits for the numeral to be well formed
            let mut k: usize = d + 1;
            while k < to
                invariant
                    d < k <= to <= s@.len(),
                    sub == s@.subrange(from as int, to as int),
                    from <= d,
                    spec_find(sub, "."@, 0) == Some((d - from) as int),
                    forall|t: int| d + 1 <= t < k ==> crate::text::spec_is_digit(#[trigger] s@[t]),
                decreases to - k,
            {
                let c = s[k];
                if !(c >= '0' && c <= '9') {
                    proof {
                        assert(sub.subrange((d - from + 1) as int, sub.len() as int)[k - from - (d
                            - from + 1)] == s@[k as int]);
                        assert(!spec_all_digits(
                            sub.subrange((d - from + 1) as int, sub.len() as int),
                        ));
                        assert(spec_find(sub, "."@, 0) == Some((d - from) as int));
                        assert(sub.subrange(((d - from) as int) + 1, sub.len() as int)
                            == sub.subrange((d - from + 1) as int, sub.len() as int));
                        assert(spec_parse_milli(sub) is None);
                    }
                    return None;
                }
                k = k + 1;
            }
            proof {
                assert forall|t: int|
                    0 <= t < sub.subrange((d - from + 1) as int, (to - from) as int).len() implies crate::text::spec_is_digit(
                    #[trigger] sub.subrange((d - from + 1) as int, (to - from) as int)[t],
                ) by {
                    assert(sub.subrange((d - from + 1) as int, (to - from) as int)[t] == s@[d + 1
                        + t]);
                }
            }
            let frac_val = match parse_u32_range(s, d + 1, frac_to) {
                Some(v) => v,
                None => {
                    if frac_to == d + 1 {
                        0
                    } else {
                        proof {
                            let fseq = sub.subrange(
                                (d - from + 1) as int,
                                (frac_to - from) as int,
                            );
                            assert(s@.subrange((d + 1) as int, frac_to as int) =~= fseq);
                            assert(spec_all_digits(fseq)) by {
                                assert(forall|t: int|
                                    0 <= t < fseq.len() ==> #[trigger] fseq[t] == s@[d + 1 + t]);
                            }
                            lemma_dec_value_bounds(fseq);
                            reveal_with_fuel(spec_pow10, 4);
                            assert(false);
                        }
                        0
                    }
                },
            };
            proof {
                let fseq = sub.subrange((d - from + 1) as int, (frac_to - from) as int);
                assert(s@.subrange((d + 1) as int, frac_to as int) =~= fseq);
                if frac_to > d + 1 {
                    assert(spec_all_digits(fseq)) by {
                        assert(forall|t: int|
                            0 <= t < fseq.len() ==> #[trigger] fseq[t] == s@[d + 1 + t]);
                    }
                    lemma_dec_value_bounds(fseq);
                    reveal_with_fuel(spec_pow10, 4);
                }
            }
            proof {
                assert(s@.subrange((d + 1) as int, frac_to as int) =~= sub.subrange(
                    (d - from + 1) as int,
                    (frac_to - from) as int,
                ));
                let frac_part = sub.subrange((d - from + 1) as int, sub.len() as int);
                let frac3 = if frac_part.len() >= 3 {
                    frac_part.subrange(0, 3)
                } else {
                    frac_part
                };
                assert(frac3 =~= sub.subrange((d - from + 1) as int, (frac_to - from) as int));
            }
            let scale: u32 = if frac_to == d + 1 {
                1000
            } else if frac_to == d + 2 {
                100
            } else if frac_to == d + 3 {
                10
            } else {
                1
            };
            proof {
                assert((frac_val as int) * (scale as int) <= 0xffffffffint * 1000)
                    by (nonlinear_arith)
                    requires
                        0 <= (frac_val as int) <= 0xffffffff,
                        0 <= (scale as int) <= 1000,
                ;
            }
            let total: u64 = (int_val as u64) * 1000 + (frac_val as u64) * (scale as u64);
            proof {
                let dd = (d - from) as int;
                let int_p = sub.subrange(0, dd);
                let frac_p = sub.subrange(dd + 1, sub.len() as int);
                assert(spec_find(sub, "."@, 0) == Some(dd));
                assert(int_p.len() > 0);
                assert(spec_all_digits(int_p));
                assert(spec_all_digits(frac_p));
                let f3 = if frac_p.len() >= 3 {
                    frac_p.subrange(0, 3)
                } else {
                    frac_p
                };
                assert(f3 == sub.subrange(dd + 1, (frac_to - from) as int));
                assert(s@.subrange(from as int, d as int) =~= int_p);
                lemma_dec_value_bounds(int_p);
                assert(spec_dec_value(int_p) == int_val);
                lemma_dec_value_bounds(f3);
                assert(spec_dec_value(f3) == frac_val);
                assert(f3.len() == frac_to - d - 1);
                let sscale = if f3.len() == 0 {
                    1000
                } else if f3.len() == 1 {
                    100
                } else if f3.len() == 2 {
                    10
                } else {
                    1int
                };
                assert(sscale == scale);
                assert(total == spec_dec_value(int_p) * 1000 + spec_dec_value(f3) * sscale);
            }
            if total <= u32::MAX as u64 {
                proof {
                    assert(spec_parse_milli(sub) == Some(total as u32));
                }
                Some(total as u32)
            } else {
                proof {
                    assert(spec_parse_milli(sub) is None);
                }
                None
            }
        },
    }
}

impl SrtFrameData {
    /// Parses one record of the standard telemetry text, of the form
    /// `Signal:4 CH:8 FlightTime:0 SBat:4.7V GBat:7.2V Delay:32ms
    /// Bitrate:25Mbps Distance:7m`. Each field runs from its label to the
    /// first occurrence of the next label; the numbers may carry a decimal
    /// fraction where the model holds thousandths.
    pub fn from_str(s: &str) -> (r: Option<SrtFrameData>)
        ensures
            r == spec_parse_srt_frame_data(s@),
    {
        let chars = chars_vec(s);
        let n = chars.len();
        proof {
            reveal_strlit("Signal:");
            reveal_strlit(" CH:");
            reveal_strlit(" FlightTime:");
            reveal_strlit(" SBat:");
            reveal_strlit("V GBat:");
            reveal_strlit("V Delay:");
            reveal_strlit("ms Bitrate:");
            reveal_strlit("Mbps Distance:");
            reveal_strlit("m");
        }
        if !starts_with(&chars, "Signal:") {
            return None;
        }
        let sig_start: usize = 7;
        let p1 = match find_range(&chars, " CH:", sig_start) {
            Some(p) => p,
            None => {
                return None;
            },
        };
        let signal = match parse_bounded_range(&chars, sig_start, p1, 255) {
            Some(v) => v as u8,
            None => {
                return None;
            },
        };
        let pos1 = p1 + 4;
        let p2 = match find_range(&chars, " FlightTime:", pos1) {
            Some(p) => p,
            None => {
                return None;
            },
        };
        let channel = match parse_bounded_range(&chars, pos1, p2, 255) {
            Some(v) => v as u8,
            None => {
                return None;
            },
        };
        let pos2 = p2 + 12;
        let p3 = match find_range(&chars, " SBat:", pos2) {
            Some(p) => p,
            None => {
                return None;
            },
        };
        let flight_time = match parse_u32_range(&chars, pos2, p3) {
            Some(v) => v,
            None => {
                return None;
            },
        };
        let pos3 = p3 + 6;
        let p4 = match find_range(&chars, "V GBat:", pos3) {
            Some(p) => p,
            None => {
                return None;
            },
        };
        let sky_bat_millivolts = match parse_milli_range(&chars, pos3, p4) {
            Some(v) => v,
            None => {
                return None;
            },
        };
        let pos4 = p4 + 7;
        let p5 = match find_range(&chars, "V Delay:", pos4) {
            Some(p) => p,
            None => {
                return None;
            },
        };
        let ground_bat_millivolts = match parse_milli_range(&chars, pos4, p5) {
            Some(v) => v,
            None => {
                return None;
            },
        };
        let pos5 = p5 + 8;
        let p6 = match find_range(&chars, "ms Bitrate:", pos5) {
            Some(p) => p,
            None => {
                return None;
            },
        };
        let latency = match parse_u32_range(&chars, pos5, p6) {
            Some(v) => v,
            None => {
                return None;
            },
        };
        let pos6 = p6 + 11;
        let p7 = match find_range(&chars, "Mbps Distance:", pos6) {
            Some(p) => p,
            None => {
                return None;
            },
        };
        let bitrate_kbps = match parse_milli_range(&chars, pos6, p7) {
            Some(v) => v,
            None => {
                return None;
            },
        };
        let pos7 = p7 + 14;
        proof {
            reveal_strlit("m");
        }
        if n == 0 || pos7 > n - 1 {
            return None;
        }
        if chars[n - 1] != 'm' {
            return None;
        }
        let distance = match parse_u32_range(&chars, pos7, n - 1) {
            Some(v) => v,
            None => {
                return None;
            },
        };
        Some(
            SrtFrameData {
                signal,
                channel,
                flight_time,
                sky_bat_millivolts,
                ground_bat_millivolts,
                latency,
                bitrate_kbps,
                distance,
            },
        )
    }
}

/// The parse of one standard telemetry record: the literal labels in
/// order, each field the text up to the first occurrence of the next
/// label, the record ending in `m`.
pub open spec fn spec_parse_srt_frame_data(s: Seq<char>) -> Option<SrtFrameData> {
    if s.len() < 7 || s.subrange(0, 7) != "Signal:"@ {
        None
    } else {
        match spec_find(s, " CH:"@, 7) {
            None => None,
            Some(p1) => match spec_find(s, " FlightTime:"@, p1 + 4) {
                None => None,
                Some(p2) => match spec_find(s, " SBat:"@, p2 + 12) {
                    None => None,
                    Some(p3) => match spec_find(s, "V GBat:"@, p3 + 6) {
                        None => None,
                        Some(p4) => match spec_find(s, "V Delay:"@, p4 + 7) {
                            None => None,
                            Some(p5) => match spec_find(s, "ms Bitrate:"@, p5 + 8) {
                                None => None,
                                Some(p6) => match spec_find(s, "Mbps Distance:"@, p6 + 11) {
                                    None => None,
                                    Some(p7) => {
                                        if p7 + 14 > s.len() - 1 || s.last() != 'm' {
                                            None
                                        } else {
                                            spec_fields_to_data(
                                                spec_parse_bounded(s.subrange(7, p1), 255),
                                                spec_parse_bounded(s.subrange(p1 + 4, p2), 255),
                                                spec_parse_u32(s.subrange(p2 + 12, p3)),
                                                spec_parse_milli(s.subrange(p3 + 6, p4)),
                                                spec_parse_milli(s.subrange(p4 + 7, p5)),
                                                spec_parse_u32(s.subrange(p5 + 8, p6)),
                                                spec_parse_milli(s.subrange(p6 + 11, p7)),
                                                spec_parse_u32(
                                                    s.subrange(p7 + 14, s.len() - 1),
                                                ),
                                            )
                                        }
                                    },
                                },
                            },
                        },
                    },
                },
            },
        }
    }
}

/// Assembles a record from its parsed fields; any missing field fails the
/// whole record.
pub open spec fn spec_fields_to_data(
    signal: Option<u32>,
    channel: Option<u32>,
    flight_time: Option<u32>,
    sky: Option<u32>,
    ground: Option<u32>,
    latency: Option<u32>,
    bitrate: Option<u32>,
    distance: Option<u32>,
) -> Option<SrtFrameData> {
    if signal is Some && channel is Some && flight_time is Some && sky is Some && ground is Some
        && latency is Some && bitrate is Some && distance is Some {
        Some(
            SrtFrameData {
                signal: signal->0 as u8,
                channel: channel->0 as u8,
                flight_time: flight_time->0,
                sky_bat_millivolts: sky->0,
                ground_bat_millivolts: ground->0,
                latency: latency->0,
                bitrate_kbps: bitrate->0,
                distance: distance->0,
            },
        )
    } else {
        None
    }
}

/// Display options for the telemetry text overlay. The label anchor is
/// held in thousandths of the frame size, and the text scale in
/// thousandths of the nominal percent-of-1080p size.
#[derive(Debug, Clone)]
pub struct SrtOptions {
    /// Anchor of the text, in thousandths of the frame width and height.
    pub position: crate::util::Coordinates<u32>,
    /// Text size, in thousandths: 35000 draws at 35 pixels per 1080
    /// pixels of frame height.
    pub scale_milli: u32,
    pub no_srt: bool,
    pub show_time: bool,
    pub show_sbat: bool,
    pub show_gbat: bool,
    pub show_signal: bool,
    pub show_latency: bool,
    pub show_bitrate: bool,
    pub show_distance: bool,
    pub show_channel: bool,
    pub show_gsnr: bool,
    pub show_ssnr: bool,
    pub show_gtemp: bool,
    pub show_stemp: bool,
    pub show_fps: bool,
    pub show_err: bool,
    pub show_settings_cam: bool,
    pub show_actual_cam: bool,
    pub show_cct: bool,
    pub show_rb: bool,
    pub show_sp: bool,
    pub show_gp: bool,
    pub show_stp: bool,
    pub show_gtp: bool,
    pub show_flight_time: bool,
    pub show_uav_bat_cells: bool,
    pub show_gls_bat_cells: bool,
    pub show_rc_signal: bool,
}

impl Default for SrtOptions {
    /// The default overlay sits near the lower left corner at 35-pixel
    /// nominal size and shows the common link fields.
    fn default() -> (r: SrtOptions)
        ensures
            r.position == (crate::util::Coordinates { x: 15u32, y: 950u32 }),
            r.scale_milli == 35000,
            !r.no_srt,
            !r.show_time,
            !r.show_sbat,
            !r.show_gbat,
            r.show_signal,
            r.show_latency,
            r.show_bitrate,
            r.show_distance,
            r.show_channel,
            r.show_gsnr,
            r.show_ssnr,
            !r.show_gtemp,
            r.show_stemp,
            !r.show_fps,
            r.show_err,
            !r.show_settings_cam,
            r.show_actual_cam,
            !r.show_cct,
            !r.show_rb,
            !r.show_sp,
            !r.show_gp,
            !r.show_stp,
            !r.show_gtp,
            r.show_flight_time,
            !r.show_uav_bat_cells,
            !r.show_gls_bat_cells,
            !r.show_rc_signal,
    {
        SrtOptions {
            position: crate::util::Coordinates { x: 15, y: 950 },
            scale_milli: 35000,
            no_srt: false,
            show_time: false,
            show_sbat: false,
            show_gbat: false,
            show_signal: true,
            show_latency: true,
            show_bitrate: true,
            show_distance: true,
            show_channel: true,
            show_gsnr: true,
            show_ssnr: true,
            show_gtemp: false,
            show_stemp: true,
            show_fps: false,
            show_err: true,
            show_settings_cam: false,
            show_actual_cam: true,
            show_cct: false,
            show_rb: false,
            show_sp: false,
            show_gp: false,
            show_stp: false,
            show_gtp: false,
            show_flight_time: true,
            show_uav_bat_cells: false,
            show_gls_bat_cells: false,
            show_rc_signal: false,
        }
    }
}

} // verus!
