use vstd::prelude::*;

use vstd::string::StringExecFns;

use crate::text::append_str;
use crate::text::append_u32;
use crate::text::append_zero_padded_u32;
use crate::text::chars_vec;
use crate::text::push_char;
use crate::text::spec_dec_chars;
use crate::text::spec_padded_dec_chars;
use crate::text::str_eq;

verus! {

/// Paths are modelled as plain strings with `/` separating components.
/// The final component of a path starts after the last separator.
pub open spec fn spec_component_start(s: Seq<char>) -> int {
    match spec_last_index(s, '/') {
        Some(p) => p + 1,
        None => 0,
    }
}

/// The last position of a character in a sequence.
pub open spec fn spec_last_index(s: Seq<char>, c: char) -> Option<int>
    decreases s.len(),
{
    if s.len() == 0 {
        None
    } else if s.last() == c {
        Some(s.len() - 1)
    } else {
        spec_last_index(s.drop_last(), c)
    }
}

/// Where the extension of the final component starts (the position of its
/// dot): the last dot of the path, provided it falls inside the final
/// component and is not the component's first character.
pub open spec fn spec_ext_dot(s: Seq<char>) -> Option<int> {
    match spec_last_index(s, '.') {
        Some(d) => if d > spec_component_start(s) {
            Some(d)
        } else {
            None
        },
        None => None,
    }
}

/// The extension of a path's final component, if it has one.
pub open spec fn spec_extension(s: Seq<char>) -> Option<Seq<char>> {
    match spec_ext_dot(s) {
        Some(d) => Some(s.subrange(d + 1, s.len() as int)),
        None => None,
    }
}

/// The final component without its extension.
pub open spec fn spec_file_stem(s: Seq<char>) -> Seq<char> {
    match spec_ext_dot(s) {
        Some(d) => s.subrange(spec_component_start(s), d),
        None => s.subrange(spec_component_start(s), s.len() as int),
    }
}

/// Everything before the final component (without the trailing
/// separator); empty for a bare file name.
pub open spec fn spec_parent(s: Seq<char>) -> Seq<char> {
    match spec_last_index(s, '/') {
        Some(p) => s.subrange(0, p),
        None => Seq::empty(),
    }
}

/// The path with its extension replaced (or appended when it has none).
pub open spec fn spec_with_extension_replaced(s: Seq<char>, ext: Seq<char>) -> Seq<char> {
    match spec_ext_dot(s) {
        Some(d) => s.subrange(0, d + 1) + ext,
        None => s + seq!['.'] + ext,
    }
}

/// The last position of a character, found by scanning from the end.
fn last_index(s: &Vec<char>, c: char) -> (r: Option<usize>)
    ensures
        match r {
            Some(p) => spec_last_index(s@, c) == Some(p as int) && p < s@.len(),
            None => spec_last_index(s@, c) is None,
        },
{
    let n = s.len();
    let mut i = n;
    proof {
        assert(s@.subrange(0, n as int) =~= s@);
    }
    loop
        invariant
            i <= n,
            n == s@.len(),
            spec_last_index(s@, c) == spec_last_index(s@.subrange(0, i as int), c),
        decreases i,
    {
        proof {
            assert(s@.subrange(0, i as int).len() == i);
        }
        if i == 0 {
            return None;
        }
        let ghost pre = s@.subrange(0, i as int);
        proof {
            assert(pre.last() == s@[i - 1]);
            assert(pre.drop_last() =~= s@.subrange(0, i - 1));
        }
        if s[i - 1] == c {
            return Some(i - 1);
        }
        i = i - 1;
    }
}

/// Finds the extension dot of a path held as characters.
fn ext_dot(s: &Vec<char>) -> (r: Option<usize>)
    ensures
        match r {
            Some(d) => spec_ext_dot(s@) == Some(d as int) && d < s@.len(),
            None => spec_ext_dot(s@) is None,
        },
{
    let n = s.len();
    let d = match last_index(s, '.') {
        Some(d) => d,
        None => {
            return None;
        },
    };
    let comp_start = match last_index(s, '/') {
        Some(p) => p + 1,
        None => 0,
    };
    if d > comp_start {
        Some(d)
    } else {
        None
    }
}

/// Builds a string from a character range.
fn range_string(s: &Vec<char>, from: usize, to: usize) -> (r: String)
    requires
        from <= to <= s@.len(),
    ensures
        r@ == s@.subrange(from as int, to as int),
{
    let mut r = String::new();
    let mut i = from;
    while i < to
        invariant
            from <= i <= to <= s@.len(),
            r@ =~= s@.subrange(from as int, i as int),
        decreases to - i,
    {
        push_char(&mut r, s[i]);
        proof {
            assert(r@ =~= s@.subrange(from as int, i + 1));
        }
        i = i + 1;
    }
    proof {
        assert(r@ =~= s@.subrange(from as int, to as int));
    }
    r
}

/// The path with its extension replaced by `ext` (or `ext` appended after
/// a dot when the path has no extension).
pub fn with_extension_replaced(path: &str, ext: &str) -> (r: String)
    ensures
        r@ == spec_with_extension_replaced(path@, ext@),
{
    let chars = chars_vec(path);
    let n = chars.len();
    proof {
        reveal_strlit(".");
    }
    match ext_dot(&chars) {
        Some(d) => {
            let mut r = range_string(&chars, 0, d + 1);
            append_str(&mut r, ext);
            proof {
                assert(r@ =~= spec_with_extension_replaced(path@, ext@));
            }
            r
        },
        None => {
            let mut r = String::from_str(path);
            append_str(&mut r, ".");
            append_str(&mut r, ext);
            proof {
                assert("."@ =~= seq!['.']);
                assert(r@ =~= spec_with_extension_replaced(path@, ext@));
            }
            r
        },
    }
}

/// Whether the path's extension is exactly `ext`.
pub fn has_extension(path: &str, ext: &str) -> (r: bool)
    ensures
        r == (spec_extension(path@) == Some(ext@)),
{
    let chars = chars_vec(path);
    let n = chars.len();
    match ext_dot(&chars) {
        Some(d) => {
            let e = range_string(&chars, d + 1, n);
            str_eq(e.as_str(), ext)
        },
        None => false,
    }
}

/// The first file in the list whose extension is exactly `extention`.
pub fn filter_file_with_extention<'a>(files: &'a Vec<String>, extention: &str) -> (r: Option<
    &'a String,
>)
    ensures
        match r {
            Some(f) => exists|i: int|
                0 <= i < files@.len() && spec_extension((#[trigger] files@[i])@) == Some(
                    extention@,
                ) && f@ == files@[i]@,
            None => forall|i: int|
                0 <= i < files@.len() ==> spec_extension((#[trigger] files@[i])@) != Some(
                    extention@,
                ),
        },
{
    let n = files.len();
    let mut i: usize = 0;
    while i < n
        invariant
            n == files@.len(),
            i <= n,
            forall|k: int|
                0 <= k < i ==> spec_extension((#[trigger] files@[k])@) != Some(extention@),
        decreases n - i,
    {
        let f: &String = &files[i];
        if has_extension(f.as_str(), extention) {
            return Some(f);
        }
        i = i + 1;
    }
    None
}

/// Whether a path's extension is one of the listed extensions.
pub open spec fn spec_ext_in(path: Seq<char>, extensions: Seq<String>) -> bool {
    exists|j: int|
        0 <= j < extensions.len() && spec_extension(path) == Some((#[trigger] extensions[j])@)
}

/// All files whose extension is any of the listed extensions, in order.
pub fn filter_files_with_extensions(files: &Vec<String>, extensions: &Vec<String>) -> (r: Vec<
    String,
>)
    ensures
        spec_string_views(r@) == spec_string_views(files@).filter(
            |f: Seq<char>| spec_ext_in(f, extensions@),
        ),
{
    let n = files.len();
    let mut r: Vec<String> = Vec::new();
    let mut i: usize = 0;
    while i < n
        invariant
            n == files@.len(),
            i <= n,
            spec_string_views(r@) == spec_string_views(files@).subrange(0, i as int).filter(
                |f: Seq<char>| spec_ext_in(f, extensions@),
            ),
        decreases n - i,
    {
        let f: &String = &files[i];
        let mut matched = false;
        let m = extensions.len();
        let mut j: usize = 0;
        while j < m
            invariant
                m == extensions@.len(),
                j <= m,
                n == files@.len(),
                i < n,
                f == &files@[i as int],
                matched <==> exists|k: int|
                    0 <= k < j && spec_extension(files@[i as int]@) == Some(
                        (#[trigger] extensions@[k])@,
                    ),
            decreases m - j,
        {
            let e: &String = &extensions[j];
            if has_extension(f.as_str(), e.as_str()) {
                matched = true;
            }
            j = j + 1;
        }
        let ghost pre = spec_string_views(r@);
        if matched {
            r.push(f.clone());
        }
        proof {
            let views = spec_string_views(files@);
            let pred = |ff: Seq<char>| spec_ext_in(ff, extensions@);
            assert(views.subrange(0, i + 1).drop_last() =~= views.subrange(0, i as int));
            assert(views.subrange(0, i + 1).last() == files@[i as int]@);
            reveal_with_fuel(Seq::filter, 2);
            if matched {
                assert(pred(files@[i as int]@));
                assert(spec_string_views(r@) =~= pre.push(files@[i as int]@));
                assert(spec_string_views(r@) =~= views.subrange(0, i + 1).filter(pred));
            } else {
                assert(!pred(files@[i as int]@));
                assert(spec_string_views(r@) =~= views.subrange(0, i + 1).filter(pred));
            }
        }
        i = i + 1;
    }
    proof {
        assert(spec_string_views(files@).subrange(0, n as int) =~= spec_string_views(files@));
    }
    r
}

/// The views of a list of strings.
pub open spec fn spec_string_views(v: Seq<String>) -> Seq<Seq<char>> {
    v.map_values(|s: String| s@)
}

/// The first file carrying any of the listed extensions.
pub fn first_file_with_extentions(files: &Vec<String>, extensions: &Vec<String>) -> (r: Option<
    String,
>)
    ensures
        match r {
            Some(f) => spec_string_views(files@).filter(
                |ff: Seq<char>| spec_ext_in(ff, extensions@),
            ).len() > 0 && f@ == spec_string_views(files@).filter(
                |ff: Seq<char>| spec_ext_in(ff, extensions@),
            )[0],
            None => spec_string_views(files@).filter(
                |ff: Seq<char>| spec_ext_in(ff, extensions@),
            ).len() == 0,
        },
{
    let filtered = filter_files_with_extensions(files, extensions);
    if filtered.len() > 0 {
        let f: &String = &filtered[0];
        proof {
            assert(spec_string_views(filtered@)[0] == filtered@[0]@);
        }
        Some(f.clone())
    } else {
        None
    }
}

/// The sibling of `path` with the same stem and the given extension: the
/// matching telemetry or OSD file next to a video file.
pub fn matching_file_with_extension(path: &str, extention: &str) -> (r: String)
    ensures
        r@ == spec_with_extension_replaced(path@, extention@),
{
    with_extension_replaced(path, extention)
}

/// A whole-second duration as `minutes:seconds`, seconds zero-padded to
/// two digits.
pub fn format_minutes_seconds(duration_secs: u64) -> (r: String)
    requires
        duration_secs < 0xf000_0000_0000,
    ensures
        r@ == spec_dec_chars(duration_secs as int / 60) + ":"@ + spec_padded_dec_chars(
            duration_secs as int % 60,
            2,
            '0',
        ),
{
    let minutes = duration_secs / 60;
    let seconds = duration_secs % 60;
    let mut s = String::new();
    append_u64_digits(&mut s, minutes);
    append_str(&mut s, ":");
    append_zero_padded_u32(&mut s, seconds as u32, 2);
    s
}

/// Appends the decimal numeral of a 64-bit value.
fn append_u64_digits(s: &mut String, v: u64)
    ensures
        final(s)@ == old(s)@ + spec_dec_chars(v as int),
    decreases v,
{
    if v >= 0x1_0000_0000 {
        append_u64_digits(s, v / 10);
        append_u32(s, (v % 10) as u32);
        proof {
            assert(spec_dec_chars((v % 10) as int) =~= seq![
                crate::text::spec_digit((v as int) % 10)]);
            assert(final(s)@ =~= old(s)@ + spec_dec_chars(v as int));
        }
    } else {
        append_u32(s, v as u32);
    }
}

/// The default output name for a source video: its stem with a
/// `_with_osd` suffix.
pub fn generate_default_output_file_name(input_file_path: &str) -> (r: String)
    ensures
        r@ == spec_file_stem(input_file_path@) + "_with_osd"@,
{
    let chars = chars_vec(input_file_path);
    let n = chars.len();
    let comp_start = match last_index(&chars, '/') {
        Some(p) => p + 1,
        None => 0,
    };
    let stem_end = match ext_dot(&chars) {
        Some(d) => d,
        None => chars.len(),
    };
    let mut r = range_string(&chars, comp_start, stem_end);
    append_str(&mut r, "_with_osd");
    r
}

/// The output path for a render: the output name (or `file` when empty)
/// beside the input file, with `.mp4` appended unless that is already the
/// extension.
pub fn generate_output_file_path(input_file_path: &str, output_file_name: &str) -> (r: String)
    ensures
        r@ == spec_add_extension(
            spec_joined_output(input_file_path@, output_file_name@),
            "mp4"@,
        ),
{
    let chars = chars_vec(input_file_path);
    proof {
        reveal_strlit("/");
        reveal_strlit("file");
    }
    let mut joined = match last_index(&chars, '/') {
        Some(p) => {
            let mut s = range_string(&chars, 0, p);
            append_str(&mut s, "/");
            proof {
                assert("/"@ =~= seq!['/']);
            }
            s
        },
        None => String::new(),
    };
    if output_file_name.unicode_len() == 0 {
        append_str(&mut joined, "file");
    } else {
        append_str(&mut joined, output_file_name);
    }
    proof {
        assert(joined@ =~= spec_joined_output(input_file_path@, output_file_name@));
    }
    add_extension(joined, "mp4")
}

/// The output name (or `file` when it is empty) placed beside the input
/// path: after the input's last separator, or alone when it has none.
pub open spec fn spec_joined_output(input: Seq<char>, name0: Seq<char>) -> Seq<char> {
    let name = if name0.len() == 0 {
        "file"@
    } else {
        name0
    };
    match spec_last_index(input, '/') {
        Some(p) => input.subrange(0, p) + seq!['/'] + name,
        None => name,
    }
}

/// The path with `ext` appended after a dot, unless its extension is
/// already exactly `ext`.
pub open spec fn spec_add_extension(s: Seq<char>, ext: Seq<char>) -> Seq<char> {
    if spec_extension(s) == Some(ext) {
        s
    } else {
        s + seq!['.'] + ext
    }
}

/// Appends an extension to a path unless it already carries it.
pub fn add_extension(path: String, ext: &str) -> (r: String)
    ensures
        r@ == spec_add_extension(path@, ext@),
{
    let ghost base = path@;
    if has_extension(path.as_str(), ext) {
        path
    } else {
        let mut r = path;
        proof {
            reveal_strlit(".");
        }
        append_str(&mut r, ".");
        append_str(&mut r, ext);
        proof {
            assert("."@ =~= seq!['.']);
            assert(r@ =~= spec_add_extension(base, ext@));
        }
        r
    }
}

} // verus!
