use vstd::prelude::*;

use crate::srt::parse_milli_range;
use crate::srt::spec_parse_milli;
use crate::text::chars_vec;
use crate::text::digits_end;
use crate::text::expect_lit;
use crate::text::find_range;
use crate::text::parse_bounded_range;
use crate::text::skip_ws;
use crate::text::spec_digits_end;
use crate::text::spec_expect_lit;
use crate::text::spec_find;
use crate::text::spec_number_end;
use crate::text::spec_parse_bounded;
use crate::text::spec_skip_ws;
use crate::text::spec_word_end;
use crate::text::number_end;
use crate::text::word_end;

verus! {

/// One record of the extended (debug) telemetry text: link diagnostics,
/// per-antenna power readings, temperatures and camera settings.
/// Fractional fields of the source text are held in thousandths.
#[derive(Debug, Clone)]
pub struct SrtDebugFrameData {
    pub signal: i8,
    pub channel: i8,
    pub latency: i32,
    pub sp1: i16,
    pub sp2: i16,
    pub sp3: i16,
    pub sp4: i16,
    pub gp1: i16,
    pub gp2: i16,
    pub gp3: i16,
    pub gp4: i16,
    pub gtp: i16,
    pub gtp0: i16,
    pub stp: i16,
    pub stp0: i16,
    pub gsnr_milli: i64,
    pub ssnr_milli: i64,
    pub gtemp_milli: i64,
    pub stemp_milli: i64,
    pub fps: i16,
    pub gerr: i16,
    pub serr: i16,
    pub serr_ext: i16,
    pub iso: i32,
    pub iso_mode: String,
    pub iso_exp: i32,
    pub gain_milli: u32,
    pub gain_exp_milli: u32,
    pub gain_lx: i16,
    pub cct: i16,
    pub rb_milli: u32,
    pub rb_ext_milli: u32,
}

/// An unsigned numeral capture: optional whitespace skip, a digit run,
/// the value bounded by `max`. Yields the end position and the value.
pub open spec fn spec_cap_uint(s: Seq<char>, i: int, skip: bool, max: u32) -> Option<(int, u32)> {
    let j = if skip {
        spec_skip_ws(s, i)
    } else {
        i
    };
    let k = spec_digits_end(s, j);
    match spec_parse_bounded(s.subrange(j, k), max) {
        Some(v) => Some((k, v)),
        None => None,
    }
}

/// A possibly negated numeral capture: the magnitude may reach
/// `max_pos` unsigned or `max_neg` after a leading minus sign.
pub open spec fn spec_cap_int(s: Seq<char>, i: int, max_pos: u32, max_neg: u32) -> Option<
    (int, i64),
> {
    let j = spec_skip_ws(s, i);
    if j < s.len() && s[j] == '-' {
        let k = spec_digits_end(s, j + 1);
        match spec_parse_bounded(s.subrange(j + 1, k), max_neg) {
            Some(v) => Some((k, (-(v as int)) as i64)),
            None => None,
        }
    } else {
        let k = spec_digits_end(s, j);
        match spec_parse_bounded(s.subrange(j, k), max_pos) {
            Some(v) => Some((k, v as i64)),
            None => None,
        }
    }
}

/// A decimal-number capture in thousandths (digits with an optional
/// fraction), possibly negated.
pub open spec fn spec_cap_milli_signed(s: Seq<char>, i: int) -> Option<(int, i64)> {
    let j = spec_skip_ws(s, i);
    if j < s.len() && s[j] == '-' {
        let k = spec_number_end(s, j + 1);
        match spec_parse_milli(s.subrange(j + 1, k)) {
            Some(v) => Some((k, (-(v as int)) as i64)),
            None => None,
        }
    } else {
        let k = spec_number_end(s, j);
        match spec_parse_milli(s.subrange(j, k)) {
            Some(v) => Some((k, v as i64)),
            None => None,
        }
    }
}

/// An unsigned decimal-number capture in thousandths.
pub open spec fn spec_cap_milli(s: Seq<char>, i: int, skip: bool) -> Option<(int, u32)> {
    let j = if skip {
        spec_skip_ws(s, i)
    } else {
        i
    };
    let k = spec_number_end(s, j);
    match spec_parse_milli(s.subrange(j, k)) {
        Some(v) => Some((k, v)),
        None => None,
    }
}

/// A word capture: a nonempty run of letters, digits and underscores.
pub open spec fn spec_cap_word(s: Seq<char>, i: int) -> Option<(int, Seq<char>)> {
    let k = spec_word_end(s, i);
    if 0 <= i < k {
        Some((k, s.subrange(i, k)))
    } else {
        None
    }
}

fn cap_uint(s: &Vec<char>, i: usize, skip: bool, max: u32) -> (r: Option<(usize, u32)>)
    requires
        i <= s@.len(),
    ensures
        match r {
            Some((k, v)) => spec_cap_uint(s@, i as int, skip, max) == Some((k as int, v)) && k
                <= s@.len(),
            None => spec_cap_uint(s@, i as int, skip, max) is None,
        },
{
    let j = if skip {
        skip_ws(s, i)
    } else {
        i
    };
    let k = digits_end(s, j);
    match parse_bounded_range(s, j, k, max) {
        Some(v) => Some((k, v)),
        None => None,
    }
}

fn cap_int(s: &Vec<char>, i: usize, max_pos: u32, max_neg: u32) -> (r: Option<(usize, i64)>)
    requires
        i <= s@.len(),
        max_pos <= 0x7fff_ffff,
        max_neg <= 0x8000_0000,
    ensures
        match r {
            Some((k, v)) => spec_cap_int(s@, i as int, max_pos, max_neg) == Some((k as int, v))
                && k <= s@.len(),
            None => spec_cap_int(s@, i as int, max_pos, max_neg) is None,
        },
{
    let j = skip_ws(s, i);
    if j < s.len() && s[j] == '-' {
        let k = digits_end(s, j + 1);
        match parse_bounded_range(s, j + 1, k, max_neg) {
            Some(v) => Some((k, -(v as i64))),
            None => None,
        }
    } else {
        let k = digits_end(s, j);
        match parse_bounded_range(s, j, k, max_pos) {
            Some(v) => Some((k, v as i64)),
            None => None,
        }
    }
}

fn cap_milli_signed(s: &Vec<char>, i: usize) -> (r: Option<(usize, i64)>)
    requires
        i <= s@.len(),
    ensures
        match r {
            Some((k, v)) => spec_cap_milli_signed(s@, i as int) == Some((k as int, v)) && k
                <= s@.len(),
            None => spec_cap_milli_signed(s@, i as int) is None,
        },
{
    let j = skip_ws(s, i);
    if j < s.len() && s[j] == '-' {
        let k = number_end(s, j + 1);
        match parse_milli_range(s, j + 1, k) {
            Some(v) => Some((k, -(v as i64))),
            None => None,
        }
    } else {
        let k = number_end(s, j);
        match parse_milli_range(s, j, k) {
            Some(v) => Some((k, v as i64)),
            None => None,
        }
    }
}

fn cap_milli(s: &Vec<char>, i: usize, skip: bool) -> (r: Option<(usize, u32)>)
    requires
        i <= s@.len(),
    ensures
        match r {
            Some((k, v)) => spec_cap_milli(s@, i as int, skip) == Some((k as int, v)) && k
                <= s@.len(),
            None => spec_cap_milli(s@, i as int, skip) is None,
        },
{
    let j = if skip {
        skip_ws(s, i)
    } else {
        i
    };
    let k = number_end(s, j);
    match parse_milli_range(s, j, k) {
        Some(v) => Some((k, v)),
        None => None,
    }
}

/// The channel and signal-quality pair: `CH:<n> MCS:<n>`.
pub open spec fn spec_match_channel_signal(s: Seq<char>) -> Option<(i8, i8)> {
    match spec_find(s, "CH:"@, 0) {
        None => None,
        Some(p) => match spec_cap_uint(s, p + 3, true, 127) {
            None => None,
            Some((e1, channel)) => {
                let j = spec_skip_ws(s, e1);
                match spec_expect_lit(s, j, "MCS:"@) {
                    None => None,
                    Some(q) => match spec_cap_uint(s, q, true, 127) {
                        None => None,
                        Some((_, signal)) => Some((channel as i8, signal as i8)),
                    },
                }
            },
        },
    }
}

fn match_channel_signal(s: &Vec<char>) -> (r: Option<(i8, i8)>)
    ensures
        r == spec_match_channel_signal(s@),
{
    proof {
        reveal_strlit("CH:");
        reveal_strlit("MCS:");
    }
    let n = s.len();
    proof {
        assert(n == s@.len());
    }
    let p = match find_range(s, "CH:", 0) {
        Some(p) => p,
        None => {
            return None;
        },
    };
    let (e1, channel) = match cap_uint(s, p + 3, true, 127) {
        Some(x) => x,
        None => {
            return None;
        },
    };
    let j = skip_ws(s, e1);
    let q = match expect_lit(s, j, "MCS:") {
        Some(q) => q,
        None => {
            return None;
        },
    };
    match cap_uint(s, q, true, 127) {
        Some((_e, signal)) => Some((channel as i8, signal as i8)),
        None => None,
    }
}

/// A bracketed quadruple of numerals: `<lit> n n n n ]` with arbitrary
/// spacing, each value fitting an `i16`.
pub open spec fn spec_match_quad(s: Seq<char>, lit: Seq<char>) -> Option<(i16, i16, i16, i16)> {
    match spec_find(s, lit, 0) {
        None => None,
        Some(p) => match spec_cap_uint(s, p + lit.len(), true, 32767) {
            None => None,
            Some((e1, a)) => match spec_cap_uint(s, e1, true, 32767) {
                None => None,
                Some((e2, b)) => match spec_cap_uint(s, e2, true, 32767) {
                    None => None,
                    Some((e3, c)) => match spec_cap_uint(s, e3, true, 32767) {
                        None => None,
                        Some((e4, d)) => {
                            let j = spec_skip_ws(s, e4);
                            match spec_expect_lit(s, j, "]"@) {
                                None => None,
                                Some(_) => Some((a as i16, b as i16, c as i16, d as i16)),
                            }
                        },
                    },
                },
            },
        },
    }
}

fn match_quad(s: &Vec<char>, lit: &str) -> (r: Option<(i16, i16, i16, i16)>)
    ensures
        r == spec_match_quad(s@, lit@),
{
    proof {
        reveal_strlit("]");
    }
    let n = s.len();
    proof {
        assert(n == s@.len());
    }
    let p = match find_range(s, lit, 0) {
        Some(p) => p,
        None => {
            return None;
        },
    };
    let (e1, a) = match cap_uint(s, p + lit.unicode_len(), true, 32767) {
        Some(x) => x,
        None => {
            return None;
        },
    };
    let (e2, b) = match cap_uint(s, e1, true, 32767) {
        Some(x) => x,
        None => {
            return None;
        },
    };
    let (e3, c) = match cap_uint(s, e2, true, 32767) {
        Some(x) => x,
        None => {
            return None;
        },
    };
    let (e4, d) = match cap_uint(s, e3, true, 32767) {
        Some(x) => x,
        None => {
            return None;
        },
    };
    let j = skip_ws(s, e4);
    match expect_lit(s, j, "]") {
        Some(_) => Some((a as i16, b as i16, c as i16, d as i16)),
        None => None,
    }
}

/// The antenna-power temperature block: `GTP:<n> GTP0:<n> STP:<n>
/// STP0:<±n>`.
pub open spec fn spec_match_gtp_stp(s: Seq<char>) -> Option<(i16, i16, i16, i16)> {
    match spec_find(s, "GTP:"@, 0) {
        None => None,
        Some(p) => match spec_cap_uint(s, p + 4, true, 32767) {
            None => None,
            Some((e1, gtp)) => {
                let j1 = spec_skip_ws(s, e1);
                match spec_expect_lit(s, j1, "GTP0:"@) {
                    None => None,
                    Some(q1) => match spec_cap_uint(s, q1, true, 32767) {
                        None => None,
                        Some((e2, gtp0)) => {
                            let j2 = spec_skip_ws(s, e2);
                            match spec_expect_lit(s, j2, "STP:"@) {
                                None => None,
                                Some(q2) => match spec_cap_uint(s, q2, true, 32767) {
                                    None => None,
                                    Some((e3, stp)) => {
                                        let j3 = spec_skip_ws(s, e3);
                                        match spec_expect_lit(s, j3, "STP0:"@) {
                                            None => None,
                                            Some(q3) => match spec_cap_int(s, q3, 32767, 32768) {
                                                None => None,
                                                Some((_, stp0)) => Some(
                                                    (
                                                        gtp as i16,
                                                        gtp0 as i16,
                                                        stp as i16,
                                                        stp0 as i16,
                                                    ),
                                                ),
                                            },
                                        }
                                    },
                                },
                            }
                        },
                    },
                }
            },
        },
    }
}

fn match_gtp_stp(s: &Vec<char>) -> (r: Option<(i16, i16, i16, i16)>)
    ensures
        r == spec_match_gtp_stp(s@),
{
    proof {
        reveal_strlit("GTP:");
        reveal_strlit("GTP0:");
        reveal_strlit("STP:");
        reveal_strlit("STP0:");
    }
    let n = s.len();
    proof {
        assert(n == s@.len());
    }
    let p = match find_range(s, "GTP:", 0) {
        Some(p) => p,
        None => {
            return None;
        },
    };
    let (e1, gtp) = match cap_uint(s, p + 4, true, 32767) {
        Some(x) => x,
        None => {
            return None;
        },
    };
    let j1 = skip_ws(s, e1);
    let q1 = match expect_lit(s, j1, "GTP0:") {
        Some(q) => q,
        None => {
            return None;
        },
    };
    let (e2, gtp0) = match cap_uint(s, q1, true, 32767) {
        Some(x) => x,
        None => {
            return None;
        },
    };
    let j2 = skip_ws(s, e2);
    let q2 = match expect_lit(s, j2, "STP:") {
        Some(q) => q,
        None => {
            return None;
        },
    };
    let (e3, stp) = match cap_uint(s, q2, true, 32767) {
        Some(x) => x,
        None => {
            return None;
        },
    };
    let j3 = skip_ws(s, e3);
    let q3 = match expect_lit(s, j3, "STP0:") {
        Some(q) => q,
        None => {
            return None;
        },
    };
    match cap_int(s, q3, 32767, 32768) {
        Some((_e, stp0)) => Some((gtp as i16, gtp0 as i16, stp as i16, stp0 as i16)),
        None => None,
    }
}

/// The signal-to-noise and temperature block: `GSNR:<±x.y> SSNR:<±x.y>
/// Gtemp:<±x.y> Stemp:<±x.y>`.
pub open spec fn spec_match_snr_temp(s: Seq<char>) -> Option<(i64, i64, i64, i64)> {
    match spec_find(s, "GSNR:"@, 0) {
        None => None,
        Some(p) => match spec_cap_milli_signed(s, p + 5) {
            None => None,
            Some((e1, gsnr)) => {
                let j1 = spec_skip_ws(s, e1);
                match spec_expect_lit(s, j1, "SSNR:"@) {
                    None => None,
                    Some(q1) => match spec_cap_milli_signed(s, q1) {
                        None => None,
                        Some((e2, ssnr)) => {
                            let j2 = spec_skip_ws(s, e2);
                            match spec_expect_lit(s, j2, "Gtemp:"@) {
                                None => None,
                                Some(q2) => match spec_cap_milli_signed(s, q2) {
                                    None => None,
                                    Some((e3, gtemp)) => {
                                        let j3 = spec_skip_ws(s, e3);
                                        match spec_expect_lit(s, j3, "Stemp:"@) {
                                            None => None,
                                            Some(q3) => match spec_cap_milli_signed(s, q3) {
                                                None => None,
                                                Some((_, stemp)) => Some(
                                                    (gsnr, ssnr, gtemp, stemp),
                                                ),
                                            },
                                        }
                                    },
                                },
                            }
                        },
                    },
                }
            },
        },
    }
}

fn match_snr_temp(s: &Vec<char>) -> (r: Option<(i64, i64, i64, i64)>)
    ensures
        r == spec_match_snr_temp(s@),
{
    proof {
        reveal_strlit("GSNR:");
        reveal_strlit("SSNR:");
        reveal_strlit("Gtemp:");
        reveal_strlit("Stemp:");
    }
    let n = s.len();
    proof {
        assert(n == s@.len());
    }
    let p = match find_range(s, "GSNR:", 0) {
        Some(p) => p,
        None => {
            return None;
        },
    };
    let (e1, gsnr) = match cap_milli_signed(s, p + 5) {
        Some(x) => x,
        None => {
            return None;
        },
    };
    let j1 = skip_ws(s, e1);
    let q1 = match expect_lit(s, j1, "SSNR:") {
        Some(q) => q,
        None => {
            return None;
        },
    };
    let (e2, ssnr) = match cap_milli_signed(s, q1) {
        Some(x) => x,
        None => {
            return None;
        },
    };
    let j2 = skip_ws(s, e2);
    let q2 = match expect_lit(s, j2, "Gtemp:") {
        Some(q) => q,
        None => {
            return None;
        },
    };
    let (e3, gtemp) = match cap_milli_signed(s, q2) {
        Some(x) => x,
        None => {
            return None;
        },
    };
    let j3 = skip_ws(s, e3);
    let q3 = match expect_lit(s, j3, "Stemp:") {
        Some(q) => q,
        None => {
            return None;
        },
    };
    match cap_milli_signed(s, q3) {
        Some((_e, stemp)) => Some((gsnr, ssnr, gtemp, stemp)),
        None => None,
    }
}

/// The latency, frame-rate and error-count block: `Delay:<n>ms Frame:<n>
/// Gerr:<n> SErr:<n> <n>`.
pub open spec fn spec_match_misc(s: Seq<char>) -> Option<(i32, i16, i16, i16, i16)> {
    match spec_find(s, "Delay:"@, 0) {
        None => None,
        Some(p) => match spec_cap_uint(s, p + 6, true, 0x7fff_ffff) {
            None => None,
            Some((e1, latency)) => match spec_expect_lit(s, e1, "ms"@) {
                None => None,
                Some(q1) => {
                    let j1 = spec_skip_ws(s, q1);
                    match spec_expect_lit(s, j1, "Frame:"@) {
                        None => None,
                        Some(q2) => match spec_cap_uint(s, q2, true, 32767) {
                            None => None,
                            Some((e2, fps)) => {
                                let j2 = spec_skip_ws(s, e2);
                                match spec_expect_lit(s, j2, "Gerr:"@) {
                                    None => None,
                                    Some(q3) => match spec_cap_uint(s, q3, true, 32767) {
                                        None => None,
                                        Some((e3, gerr)) => {
                                            let j3 = spec_skip_ws(s, e3);
                                            match spec_expect_lit(s, j3, "SErr:"@) {
                                                None => None,
                                                Some(q4) => match spec_cap_uint(
                                                    s,
                                                    q4,
                                                    true,
                                                    32767,
                                                ) {
                                                    None => None,
                                                    Some((e4, serr)) => match spec_cap_uint(
                                                        s,
                                                        e4,
                                                        true,
                                                        32767,
                                                    ) {
                                                        None => None,
                                                        Some((_, serr_ext)) => Some(
                                                            (
                                                                latency as i32,
                                                                fps as i16,
                                                                gerr as i16,
                                                                serr as i16,
                                                                serr_ext as i16,
                                                            ),
                                                        ),
                                                    },
                                                },
                                            }
                                        },
                                    },
                                }
                            },
                        },
                    }
                },
            },
        },
    }
}

fn match_misc(s: &Vec<char>) -> (r: Option<(i32, i16, i16, i16, i16)>)
    ensures
        r == spec_match_misc(s@),
{
    proof {
        reveal_strlit("Delay:");
        reveal_strlit("ms");
        reveal_strlit("Frame:");
        reveal_strlit("Gerr:");
        reveal_strlit("SErr:");
    }
    let n = s.len();
    proof {
        assert(n == s@.len());
    }
    let p = match find_range(s, "Delay:", 0) {
        Some(p) => p,
        None => {
            return None;
        },
    };
    let (e1, latency) = match cap_uint(s, p + 6, true, 0x7fff_ffff) {
        Some(x) => x,
        None => {
            return None;
        },
    };
    let q1 = match expect_lit(s, e1, "ms") {
        Some(q) => q,
        None => {
            return None;
        },
    };
    let j1 = skip_ws(s, q1);
    let q2 = match expect_lit(s, j1, "Frame:") {
        Some(q) => q,
        None => {
            return None;
        },
    };
    let (e2, fps) = match cap_uint(s, q2, true, 32767) {
        Some(x) => x,
        None => {
            return None;
        },
    };
    let j2 = skip_ws(s, e2);
    let q3 = match expect_lit(s, j2, "Gerr:") {
        Some(q) => q,
        None => {
            return None;
        },
    };
    let (e3, gerr) = match cap_uint(s, q3, true, 32767) {
        Some(x) => x,
        None => {
            return None;
        },
    };
    let j3 = skip_ws(s, e3);
    let q4 = match expect_lit(s, j3, "SErr:") {
        Some(q) => q,
        None => {
            return None;
        },
    };
    let (e4, serr) = match cap_uint(s, q4, true, 32767) {
        Some(x) => x,
        None => {
            return None;
        },
    };
    match cap_uint(s, e4, true, 32767) {
        Some((_e, serr_ext)) => Some(
            (latency as i32, fps as i16, gerr as i16, serr as i16, serr_ext as i16),
        ),
        None => None,
    }
}

/// The camera-settings block: `[iso:<n>,mode=<word>, exp:<n>]`.
pub open spec fn spec_match_iso(s: Seq<char>) -> Option<(i32, Seq<char>, i32)> {
    match spec_find(s, "[iso:"@, 0) {
        None => None,
        Some(p) => match spec_cap_uint(s, p + 5, false, 0x7fff_ffff) {
            None => None,
            Some((e1, iso)) => match spec_expect_lit(s, e1, ",mode="@) {
                None => None,
                Some(q1) => match spec_cap_word(s, q1) {
                    None => None,
                    Some((e2, mode)) => match spec_expect_lit(s, e2, ","@) {
                        None => None,
                        Some(q2) => {
                            let j = spec_skip_ws(s, q2);
                            match spec_expect_lit(s, j, "exp:"@) {
                                None => None,
                                Some(q3) => match spec_cap_uint(s, q3, false, 0x7fff_ffff) {
                                    None => None,
                                    Some((e3, exp)) => match spec_expect_lit(s, e3, "]"@) {
                                        None => None,
                                        Some(_) => Some((iso as i32, mode, exp as i32)),
                                    },
                                },
                            }
                        },
                    },
                },
            },
        },
    }
}

fn match_iso(s: &Vec<char>) -> (r: Option<(i32, String, i32)>)
    ensures
        match r {
            Some((iso, mode, exp)) => spec_match_iso(s@) == Some((iso, mode@, exp)),
            None => spec_match_iso(s@) is None,
        },
{
    proof {
        reveal_strlit("[iso:");
        reveal_strlit(",mode=");
        reveal_strlit(",");
        reveal_strlit("exp:");
        reveal_strlit("]");
    }
    let n = s.len();
    proof {
        assert(n == s@.len());
    }
    let p = match find_range(s, "[iso:", 0) {
        Some(p) => p,
        None => {
            return None;
        },
    };
    let (e1, iso) = match cap_uint(s, p + 5, false, 0x7fff_ffff) {
        Some(x) => x,
        None => {
            return None;
        },
    };
    let q1 = match expect_lit(s, e1, ",mode=") {
        Some(q) => q,
        None => {
            return None;
        },
    };
    let e2 = word_end(s, q1);
    if e2 == q1 {
        return None;
    }
    let mode = substring_string(s, q1, e2);
    let q2 = match expect_lit(s, e2, ",") {
        Some(q) => q,
        None => {
            return None;
        },
    };
    let j = skip_ws(s, q2);
    let q3 = match expect_lit(s, j, "exp:") {
        Some(q) => q,
        None => {
            return None;
        },
    };
    let (e3, exp) = match cap_uint(s, q3, false, 0x7fff_ffff) {
        Some(x) => x,
        None => {
            return None;
        },
    };
    match expect_lit(s, e3, "]") {
        Some(_) => Some((iso as i32, mode, exp as i32)),
        None => None,
    }
}

/// Builds a string from a character range.
fn substring_string(s: &Vec<char>, from: usize, to: usize) -> (r: String)
    requires
        from <= to <= s@.len(),
    ensures
        r@ == s@.subrange(from as int, to as int),
{
    let mut r = String::new();
    let mut i = from;
    while i < to
        invariant
            from <= i <= to <= s@.len(),
            r@ =~= s@.subrange(from as int, i as int),
        decreases to - i,
    {
        crate::text::push_char(&mut r, s[i]);
        proof {
            assert(r@ =~= s@.subrange(from as int, i + 1));
        }
        i = i + 1;
    }
    proof {
        assert(r@ =~= s@.subrange(from as int, to as int));
    }
    r
}

/// The camera-gain block: `[gain:<x.y> exp:<x.y>ms, Lx:<n>]`.
pub open spec fn spec_match_gain(s: Seq<char>) -> Option<(u32, u32, i16)> {
    match spec_find(s, "[gain:"@, 0) {
        None => None,
        Some(p) => match spec_cap_milli(s, p + 6, false) {
            None => None,
            Some((e1, gain)) => {
                let j1 = spec_skip_ws(s, e1);
                match spec_expect_lit(s, j1, "exp:"@) {
                    None => None,
                    Some(q1) => match spec_cap_milli(s, q1, false) {
                        None => None,
                        Some((e2, exp)) => match spec_expect_lit(s, e2, "ms,"@) {
                            None => None,
                            Some(q2) => {
                                let j2 = spec_skip_ws(s, q2);
                                match spec_expect_lit(s, j2, "Lx:"@) {
                                    None => None,
                                    Some(q3) => match spec_cap_uint(s, q3, false, 32767) {
                                        None => None,
                                        Some((e3, lx)) => match spec_expect_lit(s, e3, "]"@) {
                                            None => None,
                                            Some(_) => Some((gain, exp, lx as i16)),
                                        },
                                    },
                                }
                            },
                        },
                    },
                }
            },
        },
    }
}

fn match_gain(s: &Vec<char>) -> (r: Option<(u32, u32, i16)>)
    ensures
        r == spec_match_gain(s@),
{
    proof {
        reveal_strlit("[gain:");
        reveal_strlit("exp:");
        reveal_strlit("ms,");
        reveal_strlit("Lx:");
        reveal_strlit("]");
    }
    let n = s.len();
    proof {
        assert(n == s@.len());
    }
    let p = match find_range(s, "[gain:", 0) {
        Some(p) => p,
        None => {
            return None;
        },
    };
    let (e1, gain) = match cap_milli(s, p + 6, false) {
        Some(x) => x,
        None => {
            return None;
        },
    };
    let j1 = skip_ws(s, e1);
    let q1 = match expect_lit(s, j1, "exp:") {
        Some(q) => q,
        None => {
            return None;
        },
    };
    let (e2, exp) = match cap_milli(s, q1, false) {
        Some(x) => x,
        None => {
            return None;
        },
    };
    let q2 = match expect_lit(s, e2, "ms,") {
        Some(q) => q,
        None => {
            return None;
        },
    };
    let j2 = skip_ws(s, q2);
    let q3 = match expect_lit(s, j2, "Lx:") {
        Some(q) => q,
        None => {
            return None;
        },
    };
    let (e3, lx) = match cap_uint(s, q3, false, 32767) {
        Some(x) => x,
        None => {
            return None;
        },
    };
    match expect_lit(s, e3, "]") {
        Some(_) => Some((gain, exp, lx as i16)),
        None => None,
    }
}

/// The colour-temperature block: `[cct:<n>, rb:<x.y> <x.y>]`.
pub open spec fn spec_match_cct_rb(s: Seq<char>) -> Option<(i16, u32, u32)> {
    match spec_find(s, "[cct:"@, 0) {
        None => None,
        Some(p) => match spec_cap_uint(s, p + 5, false, 32767) {
            None => None,
            Some((e1, cct)) => match spec_expect_lit(s, e1, ","@) {
                None => None,
                Some(q1) => {
                    let j1 = spec_skip_ws(s, q1);
                    match spec_expect_lit(s, j1, "rb:"@) {
                        None => None,
                        Some(q2) => match spec_cap_milli(s, q2, false) {
                            None => None,
                            Some((e2, rb)) => match spec_cap_milli(s, e2, true) {
                                None => None,
                                Some((e3, rb_ext)) => match spec_expect_lit(s, e3, "]"@) {
                                    None => None,
                                    Some(_) => Some((cct as i16, rb, rb_ext)),
                                },
                            },
                        },
                    }
                },
            },
        },
    }
}

fn match_cct_rb(s: &Vec<char>) -> (r: Option<(i16, u32, u32)>)
    ensures
        r == spec_match_cct_rb(s@),
{
    proof {
        reveal_strlit("[cct:");
        reveal_strlit(",");
        reveal_strlit("rb:");
        reveal_strlit("]");
    }
    let n = s.len();
    proof {
        assert(n == s@.len());
    }
    let p = match find_range(s, "[cct:", 0) {
        Some(p) => p,
        None => {
            return None;
        },
    };
    let (e1, cct) = match cap_uint(s, p + 5, false, 32767) {
        Some(x) => x,
        None => {
            return None;
        },
    };
    let q1 = match expect_lit(s, e1, ",") {
        Some(q) => q,
        None => {
            return None;
        },
    };
    let j1 = skip_ws(s, q1);
    let q2 = match expect_lit(s, j1, "rb:") {
        Some(q) => q,
        None => {
            return None;
        },
    };
    let (e2, rb) = match cap_milli(s, q2, false) {
        Some(x) => x,
        None => {
            return None;
        },
    };
    let (e3, rb_ext) = match cap_milli(s, e2, true) {
        Some(x) => x,
        None => {
            return None;
        },
    };
    match expect_lit(s, e3, "]") {
        Some(_) => Some((cct as i16, rb, rb_ext)),
        None => None,
    }
}

/// Whether a debug record parses from the text, and its fields if so:
/// every block must match somewhere in the line.
pub open spec fn spec_parse_debug(s: Seq<char>) -> bool {
    &&& spec_match_channel_signal(s) is Some
    &&& spec_match_quad(s, "SP["@) is Some
    &&& spec_match_quad(s, "GP["@) is Some
    &&& spec_match_gtp_stp(s) is Some
    &&& spec_match_snr_temp(s) is Some
    &&& spec_match_misc(s) is Some
    &&& spec_match_iso(s) is Some
    &&& spec_match_gain(s) is Some
    &&& spec_match_cct_rb(s) is Some
}

impl SrtDebugFrameData {
    /// Parses one extended telemetry record by matching each labelled
    /// block at its first occurrence in the line. The whole record fails
    /// if any block is missing or malformed.
    pub fn from_str(text: &str) -> (r: Option<SrtDebugFrameData>)
        ensures
            r is Some <==> spec_parse_debug(text@),
            r matches Some(d) ==> {
                &&& Some((d.channel, d.signal)) == spec_match_channel_signal(text@)
                &&& Some((d.sp1, d.sp2, d.sp3, d.sp4)) == spec_match_quad(text@, "SP["@)
                &&& Some((d.gp1, d.gp2, d.gp3, d.gp4)) == spec_match_quad(text@, "GP["@)
                &&& Some((d.gtp, d.gtp0, d.stp, d.stp0)) == spec_match_gtp_stp(text@)
                &&& Some((d.gsnr_milli, d.ssnr_milli, d.gtemp_milli, d.stemp_milli))
                    == spec_match_snr_temp(text@)
                &&& Some((d.latency, d.fps, d.gerr, d.serr, d.serr_ext)) == spec_match_misc(
                    text@,
                )
                &&& Some((d.iso, d.iso_mode@, d.iso_exp)) == spec_match_iso(text@)
                &&& Some((d.gain_milli, d.gain_exp_milli, d.gain_lx)) == spec_match_gain(text@)
                &&& Some((d.cct, d.rb_milli, d.rb_ext_milli)) == spec_match_cct_rb(text@)
            },
    {
        let chars = chars_vec(text);
        let (channel, signal) = match match_channel_signal(&chars) {
            Some(x) => x,
            None => {
                return None;
            },
        };
        let (sp1, sp2, sp3, sp4) = match match_quad(&chars, "SP[") {
            Some(x) => x,
            None => {
                return None;
            },
        };
        let (gp1, gp2, gp3, gp4) = match match_quad(&chars, "GP[") {
            Some(x) => x,
            None => {
                return None;
            },
        };
        let (gtp, gtp0, stp, stp0) = match match_gtp_stp(&chars) {
            Some(x) => x,
            None => {
                return None;
            },
        };
        let (gsnr_milli, ssnr_milli, gtemp_milli, stemp_milli) = match match_snr_temp(&chars) {
            Some(x) => x,
            None => {
                return None;
            },
        };
        let (latency, fps, gerr, serr, serr_ext) = match match_misc(&chars) {
            Some(x) => x,
            None => {
                return None;
            },
        };
        let (iso, iso_mode, iso_exp) = match match_iso(&chars) {
            Some(x) => x,
            None => {
                return None;
            },
        };
        let (gain_milli, gain_exp_milli, gain_lx) = match match_gain(&chars) {
            Some(x) => x,
            None => {
                return None;
            },
        };
        let (cct, rb_milli, rb_ext_milli) = match match_cct_rb(&chars) {
            Some(x) => x,
            None => {
                return None;
            },
        };
        Some(
            SrtDebugFrameData {
                signal,
                channel,
                latency,
                sp1,
                sp2,
                sp3,
                sp4,
                gp1,
                gp2,
                gp3,
                gp4,
                gtp,
                gtp0,
                stp,
                stp0,
                gsnr_milli,
                ssnr_milli,
                gtemp_milli,
                stemp_milli,
                fps,
                gerr,
                serr,
                serr_ext,
                iso,
                iso_mode,
                iso_exp,
                gain_milli,
                gain_exp_milli,
                gain_lx,
                cct,
                rb_milli,
                rb_ext_milli,
            },
        )
    }
}

} // verus!
