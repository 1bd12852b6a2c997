use vstd::prelude::*;

use vstd::string::StrSliceExecFns;
use vstd::string::StringExecFns;

verus! {

/// The decimal digit character for a value 0 to 9.
pub open spec fn spec_digit(d: int) -> char {
    ((48 + d) as u8) as char
}

/// Whether a character is a decimal digit.
pub open spec fn spec_is_digit(c: char) -> bool {
    '0' <= c <= '9'
}

/// The numeric value of a digit character.
pub open spec fn spec_digit_value(c: char) -> int {
    c as int - 48
}

/// Whether every character of the sequence is a decimal digit.
pub open spec fn spec_all_digits(s: Seq<char>) -> bool {
    forall|i: int| 0 <= i < s.len() ==> spec_is_digit(#[trigger] s[i])
}

/// The value of a digit string read as a base-10 numeral.
pub open spec fn spec_dec_value(s: Seq<char>) -> int
    decreases s.len(),
{
    if s.len() == 0 {
        0
    } else {
        spec_dec_value(s.drop_last()) * 10 + spec_digit_value(s.last())
    }
}

/// The decimal numeral of a non-negative value, most significant digit
/// first, with no leading zeros (a single zero for 0).
pub open spec fn spec_dec_chars(v: int) -> Seq<char>
    decreases v,
{
    if v < 10 {
        seq![spec_digit(v)]
    } else {
        spec_dec_chars(v / 10) + seq![spec_digit(v % 10)]
    }
}

/// A string of `n` copies of one character.
pub open spec fn spec_repeat_char(c: char, n: int) -> Seq<char> {
    Seq::new(if n >= 0 {
        n as nat
    } else {
        0
    }, |i: int| c)
}

/// The numeral of `v` left-padded with `fill` to at least `width`
/// characters.
pub open spec fn spec_padded_dec_chars(v: int, width: int, fill: char) -> Seq<char> {
    spec_repeat_char(fill, width - spec_dec_chars(v).len()) + spec_dec_chars(v)
}

/// A one-character string for each decimal digit.
fn digit_str(d: u32) -> (r: &'static str)
    requires
        d < 10,
    ensures
        r@ =~= seq![spec_digit(d as int)],
{
    let r = match d {
        0u32 => "0",
        1u32 => "1",
        2u32 => "2",
        3u32 => "3",
        4u32 => "4",
        5u32 => "5",
        6u32 => "6",
        7u32 => "7",
        8u32 => "8",
        _ => "9",
    };
    proof {
        reveal_strlit("0");
        reveal_strlit("1");
        reveal_strlit("2");
        reveal_strlit("3");
        reveal_strlit("4");
        reveal_strlit("5");
        reveal_strlit("6");
        reveal_strlit("7");
        reveal_strlit("8");
        reveal_strlit("9");
    }
    r
}

/// Appends the decimal numeral of `v`.
pub fn append_u32(s: &mut String, v: u32)
    ensures
        final(s)@ == old(s)@ + spec_dec_chars(v as int),
    decreases v,
{
    if v >= 10 {
        append_u32(s, v / 10);
        s.append(digit_str(v % 10));
        proof {
            assert(final(s)@ =~= old(s)@ + spec_dec_chars(v as int));
        }
    } else {
        s.append(digit_str(v));
        proof {
            assert(final(s)@ =~= old(s)@ + spec_dec_chars(v as int));
        }
    }
}

/// Powers of ten.
pub open spec fn spec_pow10(k: nat) -> int
    decreases k,
{
    if k == 0 {
        1
    } else {
        10 * spec_pow10((k - 1) as nat)
    }
}

/// Powers of ten are positive.
proof fn lemma_pow10_pos(k: nat)
    ensures
        spec_pow10(k) >= 1,
    decreases k,
{
    if k > 0 {
        lemma_pow10_pos((k - 1) as nat);
    }
}

/// A value below the `k`-th power of ten has at most `k` digits.
proof fn lemma_dec_chars_len_at_most(v: int, k: nat)
    requires
        0 <= v,
        v < spec_pow10(k),
        k >= 1,
    ensures
        spec_dec_chars(v).len() <= k,
    decreases k,
{
    if v >= 10 {
        lemma_pow10_pos((k - 1) as nat);
        assert(k >= 2) by {
            if k == 1 {
                assert(spec_pow10(1) == 10);
            }
        }
        assert(v / 10 < spec_pow10((k - 1) as nat)) by (nonlinear_arith)
            requires
                0 <= v,
                v < 10 * spec_pow10((k - 1) as nat),
                spec_pow10((k - 1) as nat) >= 1,
        ;
        lemma_dec_chars_len_at_most(v / 10, (k - 1) as nat);
    }
}

/// The number of digits in the decimal numeral of `v`.
fn dec_len(v: u32) -> (r: usize)
    ensures
        r == spec_dec_chars(v as int).len(),
        1 <= r <= 10,
    decreases v,
{
    proof {
        reveal_with_fuel(spec_pow10, 11);
        lemma_dec_chars_len_at_most(v as int, 10);
    }
    if v < 10 {
        1
    } else {
        1 + dec_len(v / 10)
    }
}

/// Appends the numeral of `v` left-padded with spaces to `width`.
pub fn append_padded_u32(s: &mut String, v: u32, width: usize)
    requires
        width <= 16,
    ensures
        final(s)@ == old(s)@ + spec_padded_dec_chars(v as int, width as int, ' '),
{
    append_with_fill(s, v, width, ' ')
}

/// Appends the numeral of `v` left-padded with zeros to `width`.
pub fn append_zero_padded_u32(s: &mut String, v: u32, width: usize)
    requires
        width <= 16,
    ensures
        final(s)@ == old(s)@ + spec_padded_dec_chars(v as int, width as int, '0'),
{
    append_with_fill(s, v, width, '0')
}

/// Appends the numeral of `v` left-padded with `fill` (a space or a zero).
fn append_with_fill(s: &mut String, v: u32, width: usize, fill: char)
    requires
        width <= 16,
        fill == ' ' || fill == '0',
    ensures
        final(s)@ == old(s)@ + spec_padded_dec_chars(v as int, width as int, fill),
{
    let n = dec_len(v);
    let mut pad: usize = 0;
    let fill_str: &'static str = if fill == ' ' {
        let r = " ";
        proof {
            reveal_strlit(" ");
        }
        r
    } else {
        digit_str(0)
    };
    proof {
        assert(fill_str@ =~= seq![fill]);
    }
    let pad_total: usize = if width > n {
        width - n
    } else {
        0
    };
    while pad < pad_total
        invariant
            fill_str@ =~= seq![fill],
            pad <= pad_total,
            pad_total == (if width > n {
                (width - n) as int
            } else {
                0
            }),
            s@ == old(s)@ + spec_repeat_char(fill, pad as int),
        decreases pad_total - pad,
    {
        s.append(fill_str);
        proof {
            assert(s@ =~= old(s)@ + spec_repeat_char(fill, pad + 1));
        }
        pad = pad + 1;
    }
    append_u32(s, v);
    proof {
        assert(spec_repeat_char(fill, pad_total as int) =~= spec_repeat_char(
            fill,
            width - spec_dec_chars(v as int).len(),
        ));
        assert(final(s)@ =~= old(s)@ + spec_padded_dec_chars(v as int, width as int, fill));
    }
}

/// Appends a literal.
pub fn append_str(s: &mut String, lit: &str)
    ensures
        final(s)@ == old(s)@ + lit@,
{
    s.append(lit)
}

/// The characters of a string, one vector entry per character.
pub fn chars_vec(s: &str) -> (r: Vec<char>)
    ensures
        r@ == s@,
{
    let n = s.unicode_len();
    let mut r: Vec<char> = Vec::new();
    let mut i: usize = 0;
    while i < n
        invariant
            n == s@.len(),
            i <= n,
            r@ =~= s@.subrange(0, i as int),
        decreases n - i,
    {
        r.push(s.get_char(i));
        proof {
            assert(r@ =~= s@.subrange(0, i + 1));
        }
        i = i + 1;
    }
    proof {
        assert(r@ =~= s@);
    }
    r
}

/// The value named by a digit string, if the whole range is digits and the
/// value fits in a `u32`; leading zeros are allowed.
pub open spec fn spec_parse_u32(s: Seq<char>) -> Option<u32> {
    if s.len() > 0 && spec_all_digits(s) && spec_dec_value(s) <= u32::MAX {
        Some(spec_dec_value(s) as u32)
    } else {
        None
    }
}

/// Parses the characters `from .. to` of `s` as an unsigned decimal
/// numeral.
pub fn parse_u32_range(s: &Vec<char>, from: usize, to: usize) -> (r: Option<u32>)
    requires
        from <= to <= s@.len(),
    ensures
        r == spec_parse_u32(s@.subrange(from as int, to as int)),
{
    let ghost sub = s@.subrange(from as int, to as int);
    if from == to {
        return None;
    }
    let mut acc: u64 = 0;
    let mut i: usize = from;
    while i < to
        invariant
            from <= i <= to <= s@.len(),
            sub == s@.subrange(from as int, to as int),
            spec_all_digits(s@.subrange(from as int, i as int)),
            acc <= 0x1_0000_0000,
            spec_dec_value(s@.subrange(from as int, i as int)) <= u32::MAX ==> acc
                == spec_dec_value(s@.subrange(from as int, i as int)),
            spec_dec_value(s@.subrange(from as int, i as int)) > u32::MAX ==> acc > u32::MAX,
            spec_dec_value(s@.subrange(from as int, i as int)) >= 0,
        decreases to - i,
    {
        let c = s[i];
        if !(c >= '0' && c <= '9') {
            proof {
                assert(sub[i - from] == c);
                assert(!spec_all_digits(sub));
            }
            return None;
        }
        let d: u64 = (c as u32 - 48) as u64;
        let ghost prev = s@.subrange(from as int, i as int);
        proof {
            assert(s@.subrange(from as int, i + 1).drop_last() =~= prev);
            assert(s@.subrange(from as int, i + 1).last() == c);
        }
        if acc > u32::MAX as u64 {
            acc = 0x1_0000_0000u64;
        } else {
            acc = acc * 10 + d;
            if acc > u32::MAX as u64 {
                acc = 0x1_0000_0000u64;
            }
        }
        i = i + 1;
    }
    proof {
        assert(s@.subrange(from as int, to as int) == sub);
    }
    if acc > u32::MAX as u64 {
        None
    } else {
        Some(acc as u32)
    }
}

/// Parses a numeral bounded by `max` (for narrower integer fields).
pub fn parse_bounded_range(s: &Vec<char>, from: usize, to: usize, max: u32) -> (r: Option<u32>)
    requires
        from <= to <= s@.len(),
    ensures
        r == spec_parse_bounded(s@.subrange(from as int, to as int), max),
{
    match parse_u32_range(s, from, to) {
        Some(v) => {
            if v <= max {
                Some(v)
            } else {
                None
            }
        },
        None => None,
    }
}

/// The value of a digit string when it fits in `max`.
pub open spec fn spec_parse_bounded(s: Seq<char>, max: u32) -> Option<u32> {
    match spec_parse_u32(s) {
        Some(v) => if v <= max {
            Some(v)
        } else {
            None
        },
        None => None,
    }
}

/// The position of the first occurrence of `pat` in `s` at or after
/// `from`, if any.
pub open spec fn spec_find(s: Seq<char>, pat: Seq<char>, from: int) -> Option<int>
    decreases s.len() + 1 - from,
{
    if from < 0 || from + pat.len() > s.len() {
        None
    } else if s.subrange(from, from + pat.len()) == pat {
        Some(from)
    } else {
        spec_find(s, pat, from + 1)
    }
}

/// Whether `pat` occurs in `s` exactly at position `i`.
fn match_at(s: &Vec<char>, pat: &Vec<char>, i: usize) -> (r: bool)
    requires
        i + pat@.len() <= s@.len(),
    ensures
        r <==> s@.subrange(i as int, i + pat@.len()) == pat@,
{
    let m = pat.len();
    let sn = s.len();
    let mut j: usize = 0;
    while j < m
        invariant
            m == pat@.len(),
            sn == s@.len(),
            i + m <= s@.len(),
            j <= m,
            forall|t: int| 0 <= t < j ==> s@[i + t] == pat@[t],
        decreases m - j,
    {
        if s[i + j] != pat[j] {
            proof {
                assert(s@.subrange(i as int, i + m)[j as int] == s@[i + j]);
            }
            return false;
        }
        j = j + 1;
    }
    proof {
        assert(s@.subrange(i as int, i + m) =~= pat@);
    }
    true
}

/// Finds the first occurrence of `pat` in `s` at or after `from`.
pub fn find_range(s: &Vec<char>, pat: &str, from: usize) -> (r: Option<usize>)
    requires
        from <= s@.len(),
    ensures
        (r matches Some(i) && spec_find(s@, pat@, from as int) == Some(i as int)) || (r is None
            && spec_find(s@, pat@, from as int) is None),
        r matches Some(i) ==> from <= i && i + pat@.len() <= s@.len() && s@.subrange(
            i as int,
            i + pat@.len(),
        ) == pat@,
{
    let pat_chars = chars_vec(pat);
    let m = pat_chars.len();
    let n = s.len();
    if m == 0 {
        proof {
            assert(s@.subrange(from as int, from as int) =~= pat@);
        }
        return Some(from);
    }
    if m > n || from > n - m {
        proof {
            lemma_find_none_short(s@, pat@, from as int);
        }
        return None;
    }
    let mut i: usize = from;
    while i <= n - m
        invariant
            m == pat@.len(),
            n == s@.len(),
            1 <= m <= n,
            pat_chars@ == pat@,
            from <= i,
            i <= n - m + 1,
            spec_find(s@, pat@, from as int) == spec_find(s@, pat@, i as int),
        decreases n - i,
    {
        if match_at(s, &pat_chars, i) {
            return Some(i);
        }
        i = i + 1;
    }
    proof {
        lemma_find_none_short(s@, pat@, i as int);
    }
    None
}

/// Past the last possible start, there is no match.
proof fn lemma_find_none_short(s: Seq<char>, pat: Seq<char>, from: int)
    requires
        from + pat.len() > s.len() || from < 0,
    ensures
        from >= 0 ==> spec_find(s, pat, from) is None,
{
}

/// The value of a digit string is non-negative and below the power of ten
/// of its length.
pub proof fn lemma_dec_value_bounds(s: Seq<char>)
    requires
        spec_all_digits(s),
    ensures
        0 <= spec_dec_value(s),
        spec_dec_value(s) < spec_pow10(s.len()),
    decreases s.len(),
{
    if s.len() > 0 {
        assert(spec_all_digits(s.drop_last())) by {
            assert(forall|i: int|
                0 <= i < s.len() - 1 ==> #[trigger] s.drop_last()[i] == s[i]);
        }
        lemma_dec_value_bounds(s.drop_last());
        assert(spec_is_digit(s.last()));
        assert(spec_dec_value(s) < spec_pow10(s.len())) by (nonlinear_arith)
            requires
                spec_dec_value(s) == spec_dec_value(s.drop_last()) * 10 + spec_digit_value(
                    s.last(),
                ),
                0 <= spec_dec_value(s.drop_last()),
                spec_dec_value(s.drop_last()) < spec_pow10((s.len() - 1) as nat),
                0 <= spec_digit_value(s.last()) <= 9,
                spec_pow10(s.len()) == 10 * spec_pow10((s.len() - 1) as nat),
        ;
    }
}

/// A number in tenths rendered with one decimal place: `47` tenths is
/// `4.7`.
pub open spec fn spec_fixed1_chars(deci: int) -> Seq<char> {
    spec_dec_chars(deci / 10) + seq!['.'] + seq![spec_digit(deci % 10)]
}

/// The one-decimal rendering of `deci` tenths, left-padded with spaces to
/// `width` characters.
pub open spec fn spec_padded_fixed1(deci: int, width: int) -> Seq<char> {
    spec_repeat_char(' ', width - spec_fixed1_chars(deci).len()) + spec_fixed1_chars(deci)
}

/// Appends `deci` tenths as a one-decimal number, space-padded to `width`.
pub fn append_fixed1_padded(s: &mut String, deci: u32, width: usize)
    requires
        width <= 16,
    ensures
        final(s)@ == old(s)@ + spec_padded_fixed1(deci as int, width as int),
{
    let int_part = deci / 10;
    let n = dec_len(int_part) + 2;
    let mut pad: usize = 0;
    let pad_total: usize = if width > n {
        width - n
    } else {
        0
    };
    proof {
        reveal_strlit(" ");
        assert(" "@ =~= seq![' ']);
    }
    while pad < pad_total
        invariant
            pad <= pad_total,
            pad_total <= 16,
            s@ == old(s)@ + spec_repeat_char(' ', pad as int),
        decreases pad_total - pad,
    {
        proof {
            reveal_strlit(" ");
            assert(" "@ =~= seq![' ']);
        }
        s.append(" ");
        proof {
            assert(s@ =~= old(s)@ + spec_repeat_char(' ', pad + 1));
        }
        pad = pad + 1;
    }
    append_u32(s, int_part);
    proof {
        reveal_strlit(".");
        assert("."@ =~= seq!['.']);
    }
    s.append(".");
    append_u32(s, deci % 10);
    proof {
        assert(spec_dec_chars((deci % 10) as int) =~= seq![spec_digit((deci as int) % 10)]);
        assert(spec_repeat_char(' ', pad_total as int) =~= spec_repeat_char(
            ' ',
            width - spec_fixed1_chars(deci as int).len(),
        ));
        assert(final(s)@ =~= old(s)@ + spec_padded_fixed1(deci as int, width as int));
    }
}

/// A number in hundredths rendered with two decimal places: `123` is
/// `1.23`.
pub open spec fn spec_fixed2_chars(centi: int) -> Seq<char> {
    spec_dec_chars(centi / 100) + seq!['.'] + seq![spec_digit((centi % 100) / 10)] + seq![
        spec_digit(centi % 10),
    ]
}

/// Appends `centi` hundredths as a two-decimal number.
pub fn append_fixed2(s: &mut String, centi: u32)
    ensures
        final(s)@ == old(s)@ + spec_fixed2_chars(centi as int),
{
    append_u32(s, centi / 100);
    proof {
        reveal_strlit(".");
        assert("."@ =~= seq!['.']);
    }
    s.append(".");
    append_u32(s, (centi % 100) / 10);
    append_u32(s, centi % 10);
    proof {
        assert(spec_dec_chars(((centi % 100) / 10) as int) =~= seq![
            spec_digit(((centi as int) % 100) / 10),
        ]);
        assert(spec_dec_chars((centi % 10) as int) =~= seq![spec_digit((centi as int) % 10)]);
        assert(final(s)@ =~= old(s)@ + spec_fixed2_chars(centi as int));
    }
}

/// The decimal numeral of a possibly negative value.
pub open spec fn spec_signed_dec_chars(v: int) -> Seq<char> {
    if v < 0 {
        seq!['-'] + spec_dec_chars(-v)
    } else {
        spec_dec_chars(v)
    }
}

/// The signed numeral left-padded with spaces to `width`.
pub open spec fn spec_padded_signed_chars(v: int, width: int) -> Seq<char> {
    spec_repeat_char(' ', width - spec_signed_dec_chars(v).len()) + spec_signed_dec_chars(v)
}

/// Appends a signed numeral left-padded with spaces to `width`.
pub fn append_padded_i64(s: &mut String, v: i64, width: usize)
    requires
        width <= 16,
        -0x1_0000_0000 < v < 0x1_0000_0000,
    ensures
        final(s)@ == old(s)@ + spec_padded_signed_chars(v as int, width as int),
{
    let ghost base = s@;
    let mag: u32 = if v < 0 {
        (-v) as u32
    } else {
        v as u32
    };
    let digits = dec_len(mag);
    let n = if v < 0 {
        digits + 1
    } else {
        digits
    };
    let pad_total: usize = if width > n {
        width - n
    } else {
        0
    };
    let mut pad: usize = 0;
    proof {
        reveal_strlit(" ");
        assert(" "@ =~= seq![' ']);
    }
    while pad < pad_total
        invariant
            pad <= pad_total,
            pad_total <= 16,
            s@ == base + spec_repeat_char(' ', pad as int),
        decreases pad_total - pad,
    {
        proof {
            reveal_strlit(" ");
            assert(" "@ =~= seq![' ']);
        }
        s.append(" ");
        proof {
            assert(s@ =~= base + spec_repeat_char(' ', pad + 1));
        }
        pad = pad + 1;
    }
    if v < 0 {
        proof {
            reveal_strlit("-");
        }
        s.append("-");
        proof {
            assert("-"@ =~= seq!['-']);
        }
    }
    append_u32(s, mag);
    proof {
        assert(spec_repeat_char(' ', pad_total as int) =~= spec_repeat_char(
            ' ',
            width - spec_signed_dec_chars(v as int).len(),
        ));
        assert(final(s)@ =~= base + spec_padded_signed_chars(v as int, width as int));
    }
}

/// Appends a signed numeral.
pub fn append_i64(s: &mut String, v: i64)
    requires
        -0x1_0000_0000 < v < 0x1_0000_0000,
    ensures
        final(s)@ == old(s)@ + spec_signed_dec_chars(v as int),
{
    append_padded_i64(s, v, 0)
}

/// A signed value in tenths rendered with one decimal place and
/// space-padded to `width`: `-214` tenths is `-21.4`.
pub open spec fn spec_padded_signed_fixed1(deci: int, width: int) -> Seq<char> {
    let body = if deci < 0 {
        seq!['-'] + spec_fixed1_chars(-deci)
    } else {
        spec_fixed1_chars(deci)
    };
    spec_repeat_char(' ', width - body.len()) + body
}

/// Appends a signed number of tenths with one decimal place, padded to
/// `width`.
pub fn append_signed_fixed1_padded(s: &mut String, deci: i64, width: usize)
    requires
        width <= 16,
        -0x1_0000_0000 < deci < 0x1_0000_0000,
    ensures
        final(s)@ == old(s)@ + spec_padded_signed_fixed1(deci as int, width as int),
{
    let ghost base = s@;
    let mag: u32 = if deci < 0 {
        (-deci) as u32
    } else {
        deci as u32
    };
    let digits = dec_len(mag / 10) + 2;
    let n = if deci < 0 {
        digits + 1
    } else {
        digits
    };
    let pad_total: usize = if width > n {
        width - n
    } else {
        0
    };
    let mut pad: usize = 0;
    proof {
        reveal_strlit(" ");
        assert(" "@ =~= seq![' ']);
    }
    while pad < pad_total
        invariant
            pad <= pad_total,
            pad_total <= 16,
            s@ == base + spec_repeat_char(' ', pad as int),
        decreases pad_total - pad,
    {
        proof {
            reveal_strlit(" ");
            assert(" "@ =~= seq![' ']);
        }
        s.append(" ");
        proof {
            assert(s@ =~= base + spec_repeat_char(' ', pad + 1));
        }
        pad = pad + 1;
    }
    if deci < 0 {
        proof {
            reveal_strlit("-");
        }
        s.append("-");
        proof {
            assert("-"@ =~= seq!['-']);
        }
    }
    append_u32(s, mag / 10);
    proof {
        reveal_strlit(".");
        assert("."@ =~= seq!['.']);
    }
    s.append(".");
    append_u32(s, mag % 10);
    proof {
        assert(spec_dec_chars((mag % 10) as int) =~= seq![spec_digit((mag as int) % 10)]);
        assert(spec_repeat_char(' ', pad_total as int) =~= spec_repeat_char(
            ' ',
            width - (if (deci as int) < 0 {
                seq!['-'] + spec_fixed1_chars(-(deci as int))
            } else {
                spec_fixed1_chars(deci as int)
            }).len(),
        ));
        assert(final(s)@ =~= base + spec_padded_signed_fixed1(deci as int, width as int));
    }
}

/// A value in thousandths rendered with exactly three decimal places:
/// `250` is `0.250`.
pub open spec fn spec_fixed3_chars(milli: int) -> Seq<char> {
    spec_dec_chars(milli / 1000) + seq!['.'] + spec_padded_dec_chars(milli % 1000, 3, '0')
}

/// Appends `milli` thousandths with three decimal places.
pub fn append_fixed3(s: &mut String, milli: u32)
    ensures
        final(s)@ == old(s)@ + spec_fixed3_chars(milli as int),
{
    append_u32(s, milli / 1000);
    proof {
        reveal_strlit(".");
        assert("."@ =~= seq!['.']);
    }
    s.append(".");
    append_zero_padded_u32(s, milli % 1000, 3);
    proof {
        assert(final(s)@ =~= old(s)@ + spec_fixed3_chars(milli as int));
    }
}

/// Relies on `String::push`: appends one character to the end of the
/// string.
#[verifier::external_body]
pub(crate) fn push_char(s: &mut String, c: char)
    ensures
        final(s)@ == old(s)@ + seq![c],
{
    s.push(c);
}

/// Whether two string slices hold the same characters.
pub fn str_eq(a: &str, b: &str) -> (r: bool)
    ensures
        r <==> a@ == b@,
{
    let ac = chars_vec(a);
    let bc = chars_vec(b);
    if ac.len() != bc.len() {
        return false;
    }
    let r = match_at(&ac, &bc, 0);
    proof {
        if r {
            assert(a@ =~= a@.subrange(0, b@.len() as int));
        } else {
            if a@ == b@ {
                assert(a@.subrange(0, b@.len() as int) =~= b@);
            }
        }
    }
    r
}

/// The decimal numeral of a value as a fresh string.
pub fn u32_string(v: u32) -> (r: String)
    ensures
        r@ == spec_dec_chars(v as int),
{
    let mut s = String::new();
    append_u32(&mut s, v);
    proof {
        assert(s@ =~= spec_dec_chars(v as int));
    }
    s
}

/// Whether the sequence begins with the literal.
pub fn starts_with(s: &Vec<char>, lit: &str) -> (r: bool)
    ensures
        r <==> (s@.len() >= lit@.len() && s@.subrange(0, lit@.len() as int) == lit@),
{
    let lit_chars = chars_vec(lit);
    if lit_chars.len() > s.len() {
        return false;
    }
    match_at(s, &lit_chars, 0)
}

/// Whitespace as the scanner knows it.
pub open spec fn spec_is_ws(c: char) -> bool {
    c == ' ' || c == '\t' || c == '\n' || c == '\r'
}

/// The first position at or after `i` holding a non-whitespace character.
pub open spec fn spec_skip_ws(s: Seq<char>, i: int) -> int
    decreases s.len() - i,
{
    if i < 0 || i >= s.len() {
        i
    } else if spec_is_ws(s[i]) {
        spec_skip_ws(s, i + 1)
    } else {
        i
    }
}

/// Skips whitespace.
pub fn skip_ws(s: &Vec<char>, i: usize) -> (r: usize)
    requires
        i <= s@.len(),
    ensures
        r == spec_skip_ws(s@, i as int),
        i <= r <= s@.len(),
{
    let n = s.len();
    let mut j = i;
    loop
        invariant
            i <= j <= n,
            n == s@.len(),
            spec_skip_ws(s@, i as int) == spec_skip_ws(s@, j as int),
        decreases n - j,
    {
        if j >= n {
            return j;
        }
        let c = s[j];
        if c == ' ' || c == '\t' || c == '\n' || c == '\r' {
            j = j + 1;
        } else {
            return j;
        }
    }
}

/// The first position at or after `i` holding a non-digit character.
pub open spec fn spec_digits_end(s: Seq<char>, i: int) -> int
    decreases s.len() - i,
{
    if i < 0 || i >= s.len() {
        i
    } else if spec_is_digit(s[i]) {
        spec_digits_end(s, i + 1)
    } else {
        i
    }
}

/// Scans past a run of digits.
pub fn digits_end(s: &Vec<char>, i: usize) -> (r: usize)
    requires
        i <= s@.len(),
    ensures
        r == spec_digits_end(s@, i as int),
        i <= r <= s@.len(),
{
    let n = s.len();
    let mut j = i;
    loop
        invariant
            i <= j <= n,
            n == s@.len(),
            spec_digits_end(s@, i as int) == spec_digits_end(s@, j as int),
        decreases n - j,
    {
        if j >= n {
            return j;
        }
        let c = s[j];
        if c >= '0' && c <= '9' {
            j = j + 1;
        } else {
            return j;
        }
    }
}

/// The first position at or after `i` holding neither a digit nor a dot.
pub open spec fn spec_number_end(s: Seq<char>, i: int) -> int
    decreases s.len() - i,
{
    if i < 0 || i >= s.len() {
        i
    } else if spec_is_digit(s[i]) || s[i] == '.' {
        spec_number_end(s, i + 1)
    } else {
        i
    }
}

/// Scans past a run of digits and dots.
pub fn number_end(s: &Vec<char>, i: usize) -> (r: usize)
    requires
        i <= s@.len(),
    ensures
        r == spec_number_end(s@, i as int),
        i <= r <= s@.len(),
{
    let n = s.len();
    let mut j = i;
    loop
        invariant
            i <= j <= n,
            n == s@.len(),
            spec_number_end(s@, i as int) == spec_number_end(s@, j as int),
        decreases n - j,
    {
        if j >= n {
            return j;
        }
        let c = s[j];
        if (c >= '0' && c <= '9') || c == '.' {
            j = j + 1;
        } else {
            return j;
        }
    }
}

/// The first position at or after `i` past a run of word characters
/// (letters, digits and underscores).
pub open spec fn spec_is_word_char(c: char) -> bool {
    ('a' <= c <= 'z') || ('A' <= c <= 'Z') || spec_is_digit(c) || c == '_'
}

pub open spec fn spec_word_end(s: Seq<char>, i: int) -> int
    decreases s.len() - i,
{
    if i < 0 || i >= s.len() {
        i
    } else if spec_is_word_char(s[i]) {
        spec_word_end(s, i + 1)
    } else {
        i
    }
}

/// Scans past a run of word characters.
pub fn word_end(s: &Vec<char>, i: usize) -> (r: usize)
    requires
        i <= s@.len(),
    ensures
        r == spec_word_end(s@, i as int),
        i <= r <= s@.len(),
{
    let n = s.len();
    let mut j = i;
    loop
        invariant
            i <= j <= n,
            n == s@.len(),
            spec_word_end(s@, i as int) == spec_word_end(s@, j as int),
        decreases n - j,
    {
        if j >= n {
            return j;
        }
        let c = s[j];
        if (c >= 'a' && c <= 'z') || (c >= 'A' && c <= 'Z') || (c >= '0' && c <= '9') || c == '_' {
            j = j + 1;
        } else {
            return j;
        }
    }
}

/// Whether the literal occurs in `s` exactly at `i`, and the position just
/// past it.
pub open spec fn spec_expect_lit(s: Seq<char>, i: int, lit: Seq<char>) -> Option<int> {
    if 0 <= i && i + lit.len() <= s.len() && s.subrange(i, i + lit.len()) == lit {
        Some(i + lit.len())
    } else {
        None
    }
}

/// Matches a literal at exactly position `i`.
pub fn expect_lit(s: &Vec<char>, i: usize, lit: &str) -> (r: Option<usize>)
    requires
        i <= s@.len(),
    ensures
        (r matches Some(j) && spec_expect_lit(s@, i as int, lit@) == Some(j as int) && j <= s@.len())
            || (r is None && spec_expect_lit(s@, i as int, lit@) is None),
{
    let lit_chars = chars_vec(lit);
    let m = lit_chars.len();
    if m > s.len() - i {
        return None;
    }
    if match_at(s, &lit_chars, i) {
        Some(i + m)
    } else {
        None
    }
}

} // verus!
