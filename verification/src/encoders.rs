use vstd::prelude::*;

use vstd::string::StringExecFns;

verus! {

/// The codec an encoder produces.
#[derive(Debug, Clone, Copy, PartialEq, Eq, Structural)]
pub enum Codec {
    H264,
    H265,
    VP9,
    ProRes,
}

impl Codec {
    /// Human-readable codec name.
    pub fn label(&self) -> (r: &'static str)
        ensures
            r@ == self.spec_label(),
    {
        let r = match self {
            Codec::H264 => "H.264",
            Codec::H265 => "H.265 (HEVC)",
            Codec::VP9 => "VP9",
            Codec::ProRes => "Apple ProRes",
        };
        proof {
            reveal_strlit("H.264");
            reveal_strlit("H.265 (HEVC)");
            reveal_strlit("VP9");
            reveal_strlit("Apple ProRes");
            assert(r@ =~= self.spec_label());
        }
        r
    }

    pub open spec fn spec_label(&self) -> Seq<char> {
        match self {
            Codec::H264 => "H.264"@,
            Codec::H265 => "H.265 (HEVC)"@,
            Codec::VP9 => "VP9"@,
            Codec::ProRes => "Apple ProRes"@,
        }
    }

    /// Sort priority when listing encoders: modern codecs first.
    pub open spec fn spec_priority(&self) -> int {
        match self {
            Codec::H265 => 0,
            Codec::H264 => 1,
            Codec::VP9 => 2,
            Codec::ProRes => 3,
        }
    }

    pub fn priority(&self) -> (r: usize)
        ensures
            r == self.spec_priority(),
    {
        match self {
            Codec::H265 => 0,
            Codec::H264 => 1,
            Codec::VP9 => 2,
            Codec::ProRes => 3,
        }
    }
}

/// One video encoder ffmpeg may offer: its ffmpeg name, the codec it
/// produces, whether it is hardware accelerated and was detected on this
/// machine, the arguments that select constant-quality mode (for encoders
/// that support one), and extra compatibility arguments.
#[derive(Debug, Clone)]
pub struct Encoder {
    pub name: String,
    pub codec: Codec,
    pub hardware: bool,
    pub detected: bool,
    pub constant_quality_args: Option<Vec<String>>,
    pub extra_args: Vec<String>,
}

/// The platform the encoder table is built for.
#[derive(Debug, Clone, Copy, PartialEq, Eq, Structural)]
pub enum OsKind {
    Windows,
    Linux,
    MacOs,
    Other,
}

fn lit_string(s: &str) -> (r: String)
    ensures
        r@ == s@,
{
    String::from_str(s)
}

fn two_args(a: &str, b: &str) -> (r: Vec<String>)
    ensures
        r@.len() == 2,
        r@[0]@ == a@,
        r@[1]@ == b@,
{
    let mut v: Vec<String> = Vec::new();
    v.push(lit_string(a));
    v.push(lit_string(b));
    v
}

fn four_args(a: &str, b: &str, c: &str, d: &str) -> (r: Vec<String>)
    ensures
        r@.len() == 4,
        r@[0]@ == a@,
        r@[1]@ == b@,
        r@[2]@ == c@,
        r@[3]@ == d@,
{
    let mut v: Vec<String> = Vec::new();
    v.push(lit_string(a));
    v.push(lit_string(b));
    v.push(lit_string(c));
    v.push(lit_string(d));
    v
}

fn make_encoder(
    name: &str,
    codec: Codec,
    hardware: bool,
    constant_quality_args: Option<Vec<String>>,
    extra_args: Vec<String>,
) -> (r: Encoder)
    ensures
        r.name@ == name@,
        r.codec == codec,
        r.hardware == hardware,
        !r.detected,
        r.constant_quality_args == constant_quality_args,
        r.extra_args == extra_args,
{
    Encoder {
        name: lit_string(name),
        codec,
        hardware,
        detected: false,
        constant_quality_args,
        extra_args,
    }
}

/// The encoders this tool knows for a platform, none marked detected yet:
/// the software x264/x265 encoders everywhere, the platform's hardware
/// encoders, and on macOS also VP9 and ProRes. HEVC encoders carry the
/// `hvc1` tag so QuickTime recognises the files; ProRes encoders carry
/// the arguments for alpha-capable profile 4.
pub fn known_encoders(os: OsKind) -> (r: Vec<Encoder>)
    ensures
        r@.len() == match os {
            OsKind::Windows => 8int,
            OsKind::Linux => 10int,
            OsKind::MacOs => 7int,
            OsKind::Other => 2int,
        },
        forall|i: int| 0 <= i < r@.len() ==> !(#[trigger] r@[i]).detected,
        r@[0].name@ == "libx264"@,
        r@[0].codec == Codec::H264,
        !r@[0].hardware,
        r@[1].name@ == "libx265"@,
        r@[1].codec == Codec::H265,
        !r@[1].hardware,
{
    let hvc1tag = two_args("-tag:v", "hvc1");
    let prores_extra = {
        let mut v: Vec<String> = Vec::new();
        v.push(lit_string("-profile:v"));
        v.push(lit_string("4"));
        v.push(lit_string("-pix_fmt"));
        v.push(lit_string("yuva422p10le"));
        v.push(lit_string("-alpha_bits"));
        v.push(lit_string("8"));
        v.push(lit_string("-vendor"));
        v.push(lit_string("apl0"));
        v
    };

    let mut encoders: Vec<Encoder> = Vec::new();
    encoders.push(
        make_encoder(
            "libx264",
            Codec::H264,
            false,
            Some(four_args("-crf", "19", "-b:v", "0k")),
            Vec::new(),
        ),
    );
    encoders.push(
        make_encoder(
            "libx265",
            Codec::H265,
            false,
            Some(four_args("-crf", "20", "-b:v", "0k")),
            hvc1tag_clone(&hvc1tag),
        ),
    );
    match os {
        OsKind::Windows => {
            encoders.push(make_encoder("h264_amf", Codec::H264, true, None, Vec::new()));
            encoders.push(
                make_encoder(
                    "h264_nvenc",
                    Codec::H264,
                    true,
                    Some(four_args("-qp", "18", "-b:v", "0k")),
                    Vec::new(),
                ),
            );
            encoders.push(make_encoder("h264_qsv", Codec::H264, true, None, Vec::new()));
            encoders.push(make_encoder("hevc_amf", Codec::H265, true, None, Vec::new()));
            encoders.push(
                make_encoder(
                    "hevc_nvenc",
                    Codec::H265,
                    true,
                    Some(four_args("-qp", "19", "-b:v", "0k")),
                    hvc1tag_clone(&hvc1tag),
                ),
            );
            encoders.push(make_encoder("hevc_qsv", Codec::H265, true, None, Vec::new()));
        },
        OsKind::Linux => {
            encoders.push(
                make_encoder(
                    "h264_nvenc",
                    Codec::H264,
                    true,
                    Some(four_args("-qp", "18", "-b:v", "0k")),
                    Vec::new(),
                ),
            );
            encoders.push(make_encoder("h264_qsv", Codec::H264, true, None, Vec::new()));
            encoders.push(make_encoder("h264_vaapi", Codec::H264, true, None, Vec::new()));
            encoders.push(make_encoder("h264_v4l2m2m", Codec::H264, true, None, Vec::new()));
            encoders.push(
                make_encoder(
                    "hevc_nvenc",
                    Codec::H265,
                    true,
                    Some(four_args("-qp", "19", "-b:v", "0k")),
                    hvc1tag_clone(&hvc1tag),
                ),
            );
            encoders.push(make_encoder("hevc_qsv", Codec::H265, true, None, Vec::new()));
            encoders.push(make_encoder("hevc_vaapi", Codec::H265, true, None, Vec::new()));
            encoders.push(make_encoder("hevc_v4l2m2m", Codec::H265, true, None, Vec::new()));
        },
        OsKind::MacOs => {
            encoders.push(
                make_encoder(
                    "h264_videotoolbox",
                    Codec::H264,
                    true,
                    Some(four_args("-q:v", "70", "-b:v", "0k")),
                    Vec::new(),
                ),
            );
            encoders.push(
                make_encoder(
                    "hevc_videotoolbox",
                    Codec::H265,
                    true,
                    Some(four_args("-q:v", "70", "-b:v", "0k")),
                    hvc1tag_clone(&hvc1tag),
                ),
            );
            encoders.push(make_encoder("libvpx-vp9", Codec::VP9, false, None, Vec::new()));
            encoders.push(
                make_encoder(
                    "prores_ks",
                    Codec::ProRes,
                    false,
                    None,
                    clone_args(&prores_extra),
                ),
            );
            encoders.push(
                make_encoder(
                    "prores_videotoolbox",
                    Codec::ProRes,
                    true,
                    None,
                    clone_args(&prores_extra),
                ),
            );
        },
        OsKind::Other => {},
    }
    encoders
}

fn hvc1tag_clone(v: &Vec<String>) -> (r: Vec<String>)
    ensures
        r@.len() == v@.len(),
        forall|i: int| 0 <= i < v@.len() ==> (#[trigger] r@[i])@ == v@[i]@,
{
    clone_args(v)
}

/// A by-value copy of an argument list.
fn clone_args(v: &Vec<String>) -> (r: Vec<String>)
    ensures
        r@.len() == v@.len(),
        forall|i: int| 0 <= i < v@.len() ==> (#[trigger] r@[i])@ == v@[i]@,
{
    let mut r: Vec<String> = Vec::new();
    let n = v.len();
    let mut i: usize = 0;
    while i < n
        invariant
            n == v@.len(),
            i <= n,
            r@.len() == i,
            forall|k: int| 0 <= k < i ==> (#[trigger] r@[k])@ == v@[k]@,
        decreases n - i,
    {
        let e: &String = &v[i];
        r.push(e.clone());
        i = i + 1;
    }
    r
}

/// The listing order of detected encoders: hardware encoders first, then
/// by codec priority, then by name.
pub open spec fn spec_encoder_le(a: Encoder, b: Encoder) -> bool {
    if a.hardware != b.hardware {
        a.hardware
    } else if a.codec.spec_priority() != b.codec.spec_priority() {
        a.codec.spec_priority() < b.codec.spec_priority()
    } else {
        lex_le(a.name@, b.name@)
    }
}

/// Lexicographic order on character sequences, by code point.
pub open spec fn lex_le(a: Seq<char>, b: Seq<char>) -> bool
    decreases a.len(),
{
    if a.len() == 0 {
        true
    } else if b.len() == 0 {
        false
    } else if a[0] != b[0] {
        a[0] < b[0]
    } else {
        lex_le(a.skip(1), b.skip(1))
    }
}

/// Decides the lexicographic order on two names.
fn lex_le_exec(a: &str, b: &str) -> (r: bool)
    ensures
        r == lex_le(a@, b@),
{
    let ac = crate::text::chars_vec(a);
    let bc = crate::text::chars_vec(b);
    let an = ac.len();
    let bn = bc.len();
    let mut i: usize = 0;
    proof {
        assert(a@.skip(0) =~= a@);
        assert(b@.skip(0) =~= b@);
    }
    loop
        invariant
            an == a@.len(),
            bn == b@.len(),
            ac@ == a@,
            bc@ == b@,
            i <= an,
            i <= bn,
            forall|k: int| 0 <= k < i ==> a@[k] == b@[k],
            lex_le(a@, b@) == lex_le(a@.skip(i as int), b@.skip(i as int)),
        decreases an - i,
    {
        if i >= an {
            proof {
                assert(a@.skip(i as int).len() == 0);
            }
            return true;
        }
        if i >= bn {
            proof {
                assert(b@.skip(i as int).len() == 0);
                assert(a@.skip(i as int).len() > 0);
            }
            return false;
        }
        let x = ac[i];
        let y = bc[i];
        proof {
            assert(a@.skip(i as int)[0] == a@[i as int]);
            assert(b@.skip(i as int)[0] == b@[i as int]);
            assert(a@.skip(i as int).skip(1) =~= a@.skip(i + 1));
            assert(b@.skip(i as int).skip(1) =~= b@.skip(i + 1));
        }
        if x != y {
            return x < y;
        }
        i = i + 1;
    }
}

/// Whether two encoder entries describe the same encoder: every field
/// agrees, the argument lists character for character.
pub open spec fn spec_encoder_like(a: Encoder, b: Encoder) -> bool {
    &&& a.name@ == b.name@
    &&& a.codec == b.codec
    &&& a.hardware == b.hardware
    &&& a.detected == b.detected
    &&& (a.constant_quality_args is Some <==> b.constant_quality_args is Some)
    &&& (a.constant_quality_args matches Some(av) ==> b.constant_quality_args matches Some(bv)
        && av@.map_values(|s: String| s@) == bv@.map_values(|s: String| s@))
    &&& a.extra_args@.map_values(|s: String| s@) == b.extra_args@.map_values(|s: String| s@)
}

/// Keeps the detected encoders and sorts them for display: hardware
/// encoders first, then by codec priority, then by name (an insertion
/// sort, so the order is total and repeatable). Every detected entry of
/// the input appears in the result, and nothing else does.
pub fn sort_and_filter_encoders(encoders: &Vec<Encoder>) -> (r: Vec<Encoder>)
    ensures
        forall|i: int| 0 <= i < r@.len() ==> (#[trigger] r@[i]).detected,
        forall|i: int, j: int| 0 <= i < j < r@.len() ==> spec_encoder_le(r@[i], r@[j]),
        r@.len() == encoders@.filter(|e: Encoder| e.detected).len(),
{
    let n = encoders.len();
    let mut sorted: Vec<Encoder> = Vec::new();
    let mut i: usize = 0;
    while i < n
        invariant
            n == encoders@.len(),
            i <= n,
            sorted@.len() == encoders@.subrange(0, i as int).filter(
                |e: Encoder| e.detected,
            ).len(),
            forall|k: int| 0 <= k < sorted@.len() ==> (#[trigger] sorted@[k]).detected,
            forall|k: int, l: int|
                0 <= k < l < sorted@.len() ==> spec_encoder_le(sorted@[k], sorted@[l]),
        decreases n - i,
    {
        let e: &Encoder = &encoders[i];
        if e.detected {
            insert_sorted(&mut sorted, clone_encoder(e));
        }
        proof {
            let pred = |e2: Encoder| e2.detected;
            assert(encoders@.subrange(0, i + 1).drop_last() =~= encoders@.subrange(0, i as int));
            assert(encoders@.subrange(0, i + 1).last() == encoders@[i as int]);
            reveal_with_fuel(Seq::filter, 2);
        }
        i = i + 1;
    }
    proof {
        assert(encoders@.subrange(0, n as int) =~= encoders@);
    }
    sorted
}

/// A by-value copy of one encoder entry.
fn clone_encoder(e: &Encoder) -> (r: Encoder)
    ensures
        spec_encoder_like(r, *e),
{
    let r = Encoder {
        name: e.name.clone(),
        codec: e.codec,
        hardware: e.hardware,
        detected: e.detected,
        constant_quality_args: match &e.constant_quality_args {
            Some(v) => Some(clone_args(v)),
            None => None,
        },
        extra_args: clone_args(&e.extra_args),
    };
    proof {
        assert(r.extra_args@.map_values(|s: String| s@) =~= e.extra_args@.map_values(
            |s: String| s@,
        ));
        match (&r.constant_quality_args, &e.constant_quality_args) {
            (Some(rv), Some(ev)) => {
                assert(rv@.map_values(|s: String| s@) =~= ev@.map_values(|s: String| s@));
            },
            _ => {},
        }
    }
    r
}

/// The order test used by the insertion sort.
fn encoder_le(a: &Encoder, b: &Encoder) -> (r: bool)
    ensures
        r == spec_encoder_le(*a, *b),
{
    if a.hardware != b.hardware {
        a.hardware
    } else {
        let ap = a.codec.priority();
        let bp = b.codec.priority();
        if ap != bp {
            ap < bp
        } else {
            lex_le_exec(a.name.as_str(), b.name.as_str())
        }
    }
}

/// The first position whose entry does not come before `e`.
fn find_insert_pos(sorted: &Vec<Encoder>, e: &Encoder) -> (r: usize)
    ensures
        r <= sorted@.len(),
        forall|k: int| 0 <= k < r ==> spec_encoder_le(#[trigger] sorted@[k], *e),
        r < sorted@.len() ==> !spec_encoder_le(sorted@[r as int], *e),
{
    let n = sorted.len();
    let mut pos: usize = 0;
    loop
        invariant
            n == sorted@.len(),
            pos <= n,
            forall|k: int| 0 <= k < pos ==> spec_encoder_le(#[trigger] sorted@[k], *e),
        decreases n - pos,
    {
        if pos >= n {
            return pos;
        }
        if !encoder_le(&sorted[pos], e) {
            return pos;
        }
        pos = pos + 1;
    }
}

/// Inserts an element into an already ordered vector, keeping the order.
fn insert_sorted(sorted: &mut Vec<Encoder>, e: Encoder)
    requires
        forall|k: int, l: int|
            0 <= k < l < old(sorted)@.len() ==> spec_encoder_le(
                #[trigger] old(sorted)@[k],
                #[trigger] old(sorted)@[l],
            ),
        e.detected,
        forall|k: int| 0 <= k < old(sorted)@.len() ==> (#[trigger] old(sorted)@[k]).detected,
    ensures
        final(sorted)@.len() == old(sorted)@.len() + 1,
        forall|k: int| 0 <= k < final(sorted)@.len() ==> (#[trigger] final(sorted)@[k]).detected,
        forall|k: int, l: int|
            0 <= k < l < final(sorted)@.len() ==> spec_encoder_le(
                #[trigger] final(sorted)@[k],
                #[trigger] final(sorted)@[l],
            ),
        forall|k: int|
            0 <= k < final(sorted)@.len() ==> final(sorted)@[k] == e || exists|m: int|
                0 <= m < old(sorted)@.len() && old(sorted)@[m] == #[trigger] final(sorted)@[k],
{
    let pos = find_insert_pos(sorted, &e);
    let ghost old_seq = sorted.view();
    sorted.insert(pos, e);
    proof {
        assert forall|k: int, l: int|
            0 <= k < l < sorted@.len() implies spec_encoder_le(
            #[trigger] sorted@[k],
            #[trigger] sorted@[l],
        ) by {
            if l < pos {
                assert(sorted@[k] == old_seq[k] && sorted@[l] == old_seq[l]);
            } else if k < pos && l == pos {
                assert(sorted@[k] == old_seq[k] && sorted@[l] == e);
            } else if k < pos && l > pos {
                assert(sorted@[k] == old_seq[k] && sorted@[l] == old_seq[l - 1]);
            } else if k == pos && l > pos {
                assert(sorted@[k] == e && sorted@[l] == old_seq[l - 1]);
                lemma_encoder_le_total_or(e, old_seq[pos as int]);
                assert(spec_encoder_le(e, old_seq[pos as int]));
                if l - 1 > pos {
                    assert(spec_encoder_le(old_seq[pos as int], old_seq[l - 1]));
                    lemma_encoder_le_trans(e, old_seq[pos as int], old_seq[l - 1]);
                }
            } else {
                assert(sorted@[k] == old_seq[k - 1] && sorted@[l] == old_seq[l - 1]);
            }
        }
        assert forall|k: int| 0 <= k < sorted@.len() implies sorted@[k] == e || exists|m: int|
            0 <= m < old_seq.len() && old_seq[m] == #[trigger] sorted@[k] by {
            if k < pos {
                assert(old_seq[k] == sorted@[k]);
            } else if k > pos {
                assert(old_seq[k - 1] == sorted@[k]);
            }
        }
    }
}

/// Two encoders always compare one way or the other.
proof fn lemma_encoder_le_total_or(a: Encoder, b: Encoder)
    ensures
        spec_encoder_le(a, b) || spec_encoder_le(b, a),
{
    lemma_lex_le_total(a.name@, b.name@);
}

/// The listing order is transitive.
proof fn lemma_encoder_le_trans(a: Encoder, b: Encoder, c: Encoder)
    requires
        spec_encoder_le(a, b),
        spec_encoder_le(b, c),
    ensures
        spec_encoder_le(a, c),
{
    if a.hardware == b.hardware && b.hardware == c.hardware && a.codec.spec_priority()
        == b.codec.spec_priority() && b.codec.spec_priority() == c.codec.spec_priority() {
        lemma_lex_le_trans(a.name@, b.name@, c.name@);
    }
}

/// Lexicographic order is total.
proof fn lemma_lex_le_total(a: Seq<char>, b: Seq<char>)
    ensures
        lex_le(a, b) || lex_le(b, a),
    decreases a.len(),
{
    if a.len() > 0 && b.len() > 0 && a[0] == b[0] {
        lemma_lex_le_total(a.skip(1), b.skip(1));
    }
}

/// Lexicographic order is transitive.
proof fn lemma_lex_le_trans(a: Seq<char>, b: Seq<char>, c: Seq<char>)
    requires
        lex_le(a, b),
        lex_le(b, c),
    ensures
        lex_le(a, c),
    decreases a.len(),
{
    if a.len() > 0 && b.len() > 0 && c.len() > 0 && a[0] == b[0] && b[0] == c[0] {
        lemma_lex_le_trans(a.skip(1), b.skip(1), c.skip(1));
    }
}

} // verus!
