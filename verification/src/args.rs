use vstd::prelude::*;

use vstd::string::StringExecFns;

use crate::encoders::Encoder;
use crate::ffmpeg::RenderSettings;
use crate::ffmpeg::VideoInfo;
use crate::ffmpeg::spec_contains;
use crate::ffmpeg::str_contains;
use crate::files::spec_with_extension_replaced;
use crate::files::with_extension_replaced;
use crate::text::append_str;
use crate::text::append_u32;
use crate::text::spec_dec_chars;
use crate::text::str_eq;
use crate::text::u32_string;

verus! {

/// The views of an argument list, one character sequence per argument.
pub open spec fn spec_arg_views(args: Seq<String>) -> Seq<Seq<char>> {
    args.map_values(|s: String| s@)
}

/// The arguments the decoder process is spawned with: hardware-assisted
/// decode of the input file, raw RGBA frames on standard output.
pub open spec fn spec_decoder_args(input_video: Seq<char>) -> Seq<Seq<char>> {
    seq!["-hwaccel"@, "auto"@, "-i"@, input_video, "-f"@, "rawvideo"@, "-pix_fmt"@, "rgba"@, "-"@]
}

/// Builds the decoder's argument list.
pub fn decoder_args(input_video: &str) -> (r: Vec<String>)
    ensures
        spec_arg_views(r@) == spec_decoder_args(input_video@),
{
    let mut args: Vec<String> = Vec::new();
    push_lit(&mut args, "-hwaccel");
    push_lit(&mut args, "auto");
    push_lit(&mut args, "-i");
    push_string(&mut args, String::from_str(input_video));
    push_lit(&mut args, "-f");
    push_lit(&mut args, "rawvideo");
    push_lit(&mut args, "-pix_fmt");
    push_lit(&mut args, "rgba");
    push_lit(&mut args, "-");
    proof {
        assert(spec_arg_views(args@) =~= spec_decoder_args(input_video@));
    }
    args
}

fn push_lit(args: &mut Vec<String>, lit: &str)
    ensures
        spec_arg_views(final(args)@) == spec_arg_views(old(args)@).push(lit@),
{
    args.push(String::from_str(lit));
    proof {
        assert(spec_arg_views(args@) =~= spec_arg_views(old(args)@).push(lit@));
    }
}

fn push_string(args: &mut Vec<String>, s: String)
    ensures
        spec_arg_views(final(args)@) == spec_arg_views(old(args)@).push(s@),
{
    let ghost v = s@;
    args.push(s);
    proof {
        assert(spec_arg_views(args@) =~= spec_arg_views(old(args)@).push(v));
    }
}

fn push_all(args: &mut Vec<String>, extra: &Vec<String>)
    ensures
        spec_arg_views(final(args)@) == spec_arg_views(old(args)@) + spec_arg_views(extra@),
{
    let n = extra.len();
    let mut i: usize = 0;
    while i < n
        invariant
            n == extra@.len(),
            i <= n,
            spec_arg_views(args@) == spec_arg_views(old(args)@) + spec_arg_views(
                extra@,
            ).subrange(0, i as int),
        decreases n - i,
    {
        proof {
            assert(spec_arg_views(args@) =~= spec_arg_views(old(args)@) + spec_arg_views(
                extra@,
            ).subrange(0, i as int));
        }
        let e: &String = &extra[i];
        push_string(args, e.clone());
        proof {
            assert(spec_arg_views(extra@)[i as int] == extra@[i as int]@);
            assert(spec_arg_views(args@) =~= spec_arg_views(old(args)@) + spec_arg_views(
                extra@,
            ).subrange(0, i + 1));
        }
        i = i + 1;
    }
    proof {
        assert(spec_arg_views(extra@).subrange(0, n as int) =~= spec_arg_views(extra@));
    }
}

/// The frame size rendered as `WIDTHxHEIGHT`.
pub open spec fn spec_size_arg(w: u32, h: u32) -> Seq<char> {
    spec_dec_chars(w as int) + "x"@ + spec_dec_chars(h as int)
}

/// The frame rate rendered as the exact rational `NUM/DEN`.
pub open spec fn spec_rate_arg(num: u32, den: u32) -> Seq<char> {
    spec_dec_chars(num as int) + "/"@ + spec_dec_chars(den as int)
}

/// The video filter arguments, when any: upscaling to 1440p (through CUDA
/// for NVENC encoders), or the CUDA upload alone for NVENC without
/// upscaling.
pub open spec fn spec_vf_args(settings: RenderSettings, encoder_name: Seq<char>) -> Seq<
    Seq<char>,
> {
    if settings.upscale {
        if spec_contains(encoder_name, "nvenc"@) {
            seq!["-vf"@, "format=rgb24,hwupload_cuda,scale_cuda=-2:1440:3"@]
        } else {
            seq!["-vf"@, "scale=-2:1440:flags=bicubic"@]
        }
    } else {
        if spec_contains(encoder_name, "nvenc"@) {
            seq!["-vf"@, "format=rgb24,hwupload_cuda"@]
        } else {
            Seq::empty()
        }
    }
}

/// The rate-control arguments: the encoder's constant-quality argument
/// set when quality is kept, else a fixed bitrate target in megabits.
pub open spec fn spec_quality_args(settings: RenderSettings, encoder: Encoder) -> Seq<Seq<char>> {
    if settings.keep_quality {
        spec_arg_views(encoder.constant_quality_args->0@)
    } else {
        seq!["-b:v"@, spec_dec_chars(settings.bitrate_mbps as int) + "M"@]
    }
}

/// The whole encoder argument list, as the render pipeline spawns it:
/// raw RGBA frames on standard input at the source size and rate; the
/// original file opened again so its audio stream (if any) is copied
/// through; optional scale filters and aspect tagging; the chosen codec
/// with either constant-quality or bitrate rate control plus its
/// compatibility arguments; the source timescale; a standard pixel format
/// unless transparency or an NVENC path needs the native one; and the
/// output path, forced to a QuickTime container for `prores_ks`.
pub open spec fn spec_encoder_args(
    info: VideoInfo,
    settings: RenderSettings,
    encoder: Encoder,
    output_video: Seq<char>,
    original_video: Seq<char>,
) -> Seq<Seq<char>> {
    seq!["-f"@, "rawvideo"@, "-pix_fmt"@, "rgba"@, "-s"@, spec_size_arg(info.width, info.height),
        "-r"@, spec_rate_arg(info.frame_rate_num, info.frame_rate_den), "-i"@, "-"@, "-i"@,
        original_video, "-map"@, "0"@, "-map"@, "1:a?"@, "-c:a"@, "copy"@] + spec_vf_args(
        settings,
        encoder.name@,
    ) + (if settings.rescale_to_4x3_aspect {
        seq!["-aspect"@, "4:3"@]
    } else {
        Seq::empty()
    }) + seq!["-c:v"@, encoder.name@] + spec_quality_args(settings, encoder) + spec_arg_views(
        encoder.extra_args@,
    ) + seq!["-video_track_timescale"@, spec_dec_chars(info.time_base as int)] + (if encoder.name@
        == "prores_ks"@ {
        Seq::empty()
    } else if !settings.use_chroma_key && !spec_contains(encoder.name@, "nvenc"@) {
        seq!["-pix_fmt"@, "yuv420p"@]
    } else {
        Seq::empty()
    }) + seq!["-y"@, if encoder.name@ == "prores_ks"@ {
        spec_with_extension_replaced(output_video, "mov"@)
    } else {
        output_video
    }]
}

/// Builds the encoder's argument list. Keeping constant quality needs the
/// encoder to define a constant-quality argument set.
#[verifier::rlimit(100)]
pub fn encoder_args(
    info: &VideoInfo,
    settings: &RenderSettings,
    encoder: &Encoder,
    output_video: &str,
    original_video: &str,
) -> (r: Vec<String>)
    requires
        settings.keep_quality ==> encoder.constant_quality_args is Some,
    ensures
        spec_arg_views(r@) == spec_encoder_args(
            *info,
            *settings,
            *encoder,
            output_video@,
            original_video@,
        ),
{
    let mut args: Vec<String> = Vec::new();
    push_lit(&mut args, "-f");
    push_lit(&mut args, "rawvideo");
    push_lit(&mut args, "-pix_fmt");
    push_lit(&mut args, "rgba");
    push_lit(&mut args, "-s");
    let mut size = String::new();
    append_u32(&mut size, info.width);
    append_str(&mut size, "x");
    append_u32(&mut size, info.height);
    push_string(&mut args, size);
    push_lit(&mut args, "-r");
    let mut rate = String::new();
    append_u32(&mut rate, info.frame_rate_num);
    append_str(&mut rate, "/");
    append_u32(&mut rate, info.frame_rate_den);
    push_string(&mut args, rate);
    push_lit(&mut args, "-i");
    push_lit(&mut args, "-");
    push_lit(&mut args, "-i");
    push_string(&mut args, String::from_str(original_video));
    push_lit(&mut args, "-map");
    push_lit(&mut args, "0");
    push_lit(&mut args, "-map");
    push_lit(&mut args, "1:a?");
    push_lit(&mut args, "-c:a");
    push_lit(&mut args, "copy");
    proof {
        assert(spec_arg_views(args@) =~= seq![
            "-f"@, "rawvideo"@, "-pix_fmt"@, "rgba"@, "-s"@, spec_size_arg(
                info.width,
                info.height,
            ), "-r"@, spec_rate_arg(info.frame_rate_num, info.frame_rate_den), "-i"@, "-"@,
            "-i"@, original_video@, "-map"@, "0"@, "-map"@, "1:a?"@, "-c:a"@, "copy"@]);
    }
    let ghost base = spec_arg_views(args@);

    let is_nvenc = str_contains(encoder.name.as_str(), "nvenc");
    if settings.upscale {
        push_lit(&mut args, "-vf");
        if is_nvenc {
            push_lit(&mut args, "format=rgb24,hwupload_cuda,scale_cuda=-2:1440:3");
        } else {
            push_lit(&mut args, "scale=-2:1440:flags=bicubic");
        }
    } else {
        if is_nvenc {
            push_lit(&mut args, "-vf");
            push_lit(&mut args, "format=rgb24,hwupload_cuda");
        }
    }
    proof {
        assert(spec_arg_views(args@) =~= base + spec_vf_args(*settings, encoder.name@));
    }
    let ghost base = spec_arg_views(args@);

    if settings.rescale_to_4x3_aspect {
        push_lit(&mut args, "-aspect");
        push_lit(&mut args, "4:3");
    }
    push_lit(&mut args, "-c:v");
    push_string(&mut args, encoder.name.clone());
    proof {
        assert(spec_arg_views(args@) =~= base + (if settings.rescale_to_4x3_aspect {
            seq!["-aspect"@, "4:3"@]
        } else {
            Seq::<Seq<char>>::empty()
        }) + seq!["-c:v"@, encoder.name@]);
    }
    let ghost base = spec_arg_views(args@);

    if settings.keep_quality {
        match &encoder.constant_quality_args {
            Some(cq) => {
                push_all(&mut args, cq);
            },
            None => {},
        }
    } else {
        push_lit(&mut args, "-b:v");
        let mut b = String::new();
        append_u32(&mut b, settings.bitrate_mbps);
        append_str(&mut b, "M");
        push_string(&mut args, b);
    }
    proof {
        assert(spec_arg_views(args@) =~= base + spec_quality_args(*settings, *encoder));
    }
    let ghost base = spec_arg_views(args@);

    push_all(&mut args, &encoder.extra_args);
    push_lit(&mut args, "-video_track_timescale");
    push_string(&mut args, u32_string(info.time_base));
    proof {
        assert(spec_arg_views(args@) =~= base + spec_arg_views(encoder.extra_args@) + seq![
            "-video_track_timescale"@, spec_dec_chars(info.time_base as int)]);
    }
    let ghost base = spec_arg_views(args@);

    let is_prores = str_eq(encoder.name.as_str(), "prores_ks");
    if !is_prores {
        if !settings.use_chroma_key && !is_nvenc {
            push_lit(&mut args, "-pix_fmt");
            push_lit(&mut args, "yuv420p");
        }
    }
    push_lit(&mut args, "-y");
    if is_prores {
        push_string(&mut args, with_extension_replaced(output_video, "mov"));
    } else {
        push_string(&mut args, String::from_str(output_video));
    }
    proof {
        assert(spec_arg_views(args@) =~= base + (if encoder.name@ == "prores_ks"@ {
            Seq::<Seq<char>>::empty()
        } else if !settings.use_chroma_key && !spec_contains(encoder.name@, "nvenc"@) {
            seq!["-pix_fmt"@, "yuv420p"@]
        } else {
            Seq::<Seq<char>>::empty()
        }) + seq!["-y"@, if encoder.name@ == "prores_ks"@ {
            spec_with_extension_replaced(output_video@, "mov"@)
        } else {
            output_video@
        }]);
        assert(spec_arg_views(args@) =~= spec_encoder_args(
            *info,
            *settings,
            *encoder,
            output_video@,
            original_video@,
        ));
    }
    args
}

} // verus!
