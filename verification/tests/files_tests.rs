use walksnail_osd_tool::Dimension;
use walksnail_osd_tool::Coordinates;
use walksnail_osd_tool::Frame;
use walksnail_osd_tool::Glyph;
use walksnail_osd_tool::add_extension;
use walksnail_osd_tool::calculate_horizontal_offset;
use walksnail_osd_tool::calculate_vertical_offset;
use walksnail_osd_tool::filter_file_with_extention;
use walksnail_osd_tool::filter_files_with_extensions;
use walksnail_osd_tool::first_file_with_extentions;
use walksnail_osd_tool::format_minutes_seconds;
use walksnail_osd_tool::generate_default_output_file_name;
use walksnail_osd_tool::generate_output_file_path;
use walksnail_osd_tool::has_extension;
use walksnail_osd_tool::matching_file_with_extension;
use walksnail_osd_tool::with_extension_replaced;

fn strings(v: &[&str]) -> Vec<String> {
    v.iter().map(|s| String::from(*s)).collect()
}

#[test]
fn extension_helpers_inspect_the_final_component() {
    assert!(has_extension("clip.mp4", "mp4"));
    assert!(!has_extension("clip.mp4", "mov"));
    assert!(!has_extension("clip", "mp4"));
    assert!(has_extension("flights/day1/clip.osd", "osd"));
    // a dot in a directory name is not an extension
    assert!(!has_extension("archive.old/clip", "old"));
    // a leading dot marks a hidden file, not an extension
    assert!(!has_extension(".bashrc", "bashrc"));
}

#[test]
fn filtering_files_by_extension_keeps_order_and_first_match() {
    let files = strings(&["a.srt", "b.mp4", "c.osd", "d.mp4"]);
    let first = filter_file_with_extention(&files, "mp4").unwrap();
    assert_eq!(first, "b.mp4");
    assert!(filter_file_with_extention(&files, "png").is_none());

    let video_like = strings(&["mp4", "mov"]);
    let kept = filter_files_with_extensions(&files, &video_like);
    assert_eq!(kept, strings(&["b.mp4", "d.mp4"]));
    let first = first_file_with_extentions(&files, &video_like).unwrap();
    assert_eq!(first, "b.mp4");
    assert!(first_file_with_extentions(&files, &strings(&["png"])).is_none());
}

#[test]
fn matching_sidecar_files_swap_the_extension() {
    assert_eq!(matching_file_with_extension("flights/clip.mp4", "osd"), "flights/clip.osd");
    assert_eq!(matching_file_with_extension("clip.mp4", "srt"), "clip.srt");
    assert_eq!(with_extension_replaced("clip", "mov"), "clip.mov");
}

#[test]
fn output_paths_are_derived_from_the_input() {
    assert_eq!(generate_default_output_file_name("flights/clip.mp4"), "clip_with_osd");
    assert_eq!(generate_default_output_file_name("clip"), "clip_with_osd");
    assert_eq!(
        generate_output_file_path("flights/clip.mp4", "clip_with_osd"),
        "flights/clip_with_osd.mp4"
    );
    assert_eq!(generate_output_file_path("clip.mp4", ""), "file.mp4");
    // an existing mp4 extension is not doubled, any other is kept and extended
    assert_eq!(generate_output_file_path("flights/clip.mp4", "out.mp4"), "flights/out.mp4");
    assert_eq!(generate_output_file_path("flights/clip.mp4", "out.x"), "flights/out.x.mp4");
    assert_eq!(add_extension(String::from("out.mp4"), "mp4"), "out.mp4");
    assert_eq!(add_extension(String::from("out.x"), "mp4"), "out.x.mp4");
}

#[test]
fn durations_format_as_minutes_and_padded_seconds() {
    assert_eq!(format_minutes_seconds(0), "0:00");
    assert_eq!(format_minutes_seconds(75), "1:15");
    assert_eq!(format_minutes_seconds(600), "10:00");
    assert_eq!(format_minutes_seconds(3599), "59:59");
    assert_eq!(format_minutes_seconds(3661), "61:01");
}

fn frame_with(positions: &[(u32, u32)]) -> Frame {
    Frame {
        time_millis: 0,
        glyphs: positions
            .iter()
            .map(|&(x, y)| Glyph { index: 1, grid_position: Coordinates { x, y } })
            .collect(),
    }
}

#[test]
fn preview_offsets_centre_the_glyph_block() {
    let frame = frame_with(&[(2, 1), (4, 3), (3, 2)]);
    let size = Dimension { width: 10u32, height: 20u32 };
    // columns 2..=4 span 30 pixels: (100 - 30) / 2 - 2 * 10 = 15
    assert_eq!(calculate_horizontal_offset(100, &frame, size), 15);
    // rows 1..=3 span 60 pixels: (200 - 60) / 2 - 1 * 20 = 50
    assert_eq!(calculate_vertical_offset(200, &frame, size), 50);
}
