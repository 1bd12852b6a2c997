//! Verified core of an OSD overlay render pipeline for FPV flight video.
//!
//! The library models and verifies the render chain: a font atlas sliced
//! from a character sheet, a bounded glyph cache, a compositor that draws
//! OSD glyphs onto RGBA frame buffers, a frame aligner that advances
//! telemetry cursors along the video timeline, telemetry text parsing and
//! formatting, encoder argument construction, and the render status state
//! machine.

mod aligner;
mod args;
mod encoders;
mod ffmpeg;
mod files;
mod font;
mod font_file;
mod overlay;
mod osd;
mod preview;
mod osd_overlay;
mod srt;
mod srt_debug;
mod srt_file;
mod srt_overlay;
mod status;
mod text;
mod util;
mod version;

pub use aligner::AlignedFrame;
pub use aligner::FrameAligner;
pub use aligner::lemma_advance_osd_monotone;
pub use aligner::lemma_advance_srt_monotone;
pub use aligner::spec_advance_osd;
pub use aligner::spec_advance_srt;
pub use args::decoder_args;
pub use args::encoder_args;
pub use encoders::Codec;
pub use encoders::Encoder;
pub use encoders::OsKind;
pub use encoders::known_encoders;
pub use encoders::sort_and_filter_encoders;
pub use ffmpeg::EventAction;
pub use ffmpeg::FfEvent;
pub use ffmpeg::FromFfmpegMessage;
pub use ffmpeg::LogLevel;
pub use ffmpeg::RenderProgress;
pub use ffmpeg::RenderSettings;
pub use ffmpeg::ToFfmpegMessage;
pub use ffmpeg::VideoInfo;
pub use ffmpeg::classify_decoder_event;
pub use ffmpeg::classify_encoder_event;
pub use ffmpeg::str_contains;
pub use files::add_extension;
pub use files::filter_file_with_extention;
pub use files::filter_files_with_extensions;
pub use files::first_file_with_extentions;
pub use files::format_minutes_seconds;
pub use files::generate_default_output_file_name;
pub use files::generate_output_file_path;
pub use files::has_extension;
pub use files::matching_file_with_extension;
pub use files::with_extension_replaced;
pub use font::CharacterSizeClass;
pub use font::FontFileError;
pub use font::FontType;
pub use font::GLYPHS_PER_PAGE;
pub use font::detect_font_character_size;
pub use font_file::CacheKey;
pub use font_file::FontFile;
pub use font_file::ImageCache;
pub use font_file::lemma_glyph_modulo_wrap;
pub use overlay::RgbaBuffer;
pub use overlay::fast_overlay;
pub use overlay::get_ideal_character_size;
pub use overlay::lemma_opaque_overlay_replaces;
pub use overlay::lemma_simple_alpha_blend_agrees;
pub use overlay::lemma_transparent_overlay_is_identity;
pub use osd::Frame;
pub use osd::Glyph;
pub use osd::MaskSet;
pub use osd::OSD_GRID_HEIGHT;
pub use osd::OSD_GRID_WIDTH;
pub use osd::OsdOptions;
pub use osd::lemma_toggle_mask_round_trip;
pub use osd::spec_toggle;
pub use osd_overlay::overlay_osd;
pub use preview::calculate_horizontal_offset;
pub use preview::calculate_vertical_offset;
pub use preview::create_osd_preview;
pub use srt::SrtFrameData;
pub use srt::SrtOptions;
pub use srt_debug::SrtDebugFrameData;
pub use srt_file::SrtData;
pub use srt_file::SrtFile;
pub use srt_file::SrtFileError;
pub use srt_file::SrtFrame;
pub use srt_file::SrtFrameDataRef;
pub use srt_overlay::WrapPlan;
pub use srt_overlay::build_srt_debug_line;
pub use srt_overlay::build_srt_line;
pub use srt_overlay::join_words;
pub use srt_overlay::lemma_wrap_lines_fit;
pub use srt_overlay::srt_anchor;
pub use srt_overlay::wrap_two_lines;
pub use status::RenderStatus;
pub use status::Status;
pub use text::str_eq;
pub use util::Coordinates;
pub use util::Dimension;
pub use version::PreId;
pub use version::Version;
pub use version::should_update_to_version;
