use walksnail_osd_tool::CharacterSizeClass;
use walksnail_osd_tool::Coordinates;
use walksnail_osd_tool::Dimension;
use walksnail_osd_tool::FontFile;
use walksnail_osd_tool::FontType;
use walksnail_osd_tool::Frame;
use walksnail_osd_tool::FrameAligner;
use walksnail_osd_tool::Glyph;
use walksnail_osd_tool::ImageCache;
use walksnail_osd_tool::OsdOptions;
use walksnail_osd_tool::RgbaBuffer;
use walksnail_osd_tool::SrtOptions;
use walksnail_osd_tool::fast_overlay;
use walksnail_osd_tool::overlay_osd;

/// A buffer filled with one colour.
fn solid(width: u32, height: u32, color: [u8; 4]) -> RgbaBuffer {
    RgbaBuffer::filled(width, height, color)
}

#[test]
fn frame_parsing_reads_timestamp_and_skips_empty_cells() {
    // timestamp 0x01020304 little-endian, then four cells: kept, empty
    // (0), empty (0x20) and kept
    let mut bytes: Vec<u8> = vec![0x04, 0x03, 0x02, 0x01];
    bytes.extend_from_slice(&[5, 0]); // cell 0: index 5
    bytes.extend_from_slice(&[0, 0]); // cell 1: empty
    bytes.extend_from_slice(&[0x20, 0]); // cell 2: space, excluded
    bytes.extend_from_slice(&[0x34, 0x12]); // cell 3: index 0x1234
    let frame = Frame::from_bytes(&bytes);
    assert_eq!(frame.time_millis, 0x01020304);
    assert_eq!(frame.glyphs.len(), 2);
    assert_eq!(frame.glyphs[0].index, 5);
    assert_eq!(frame.glyphs[0].grid_position, Coordinates { x: 0, y: 0 });
    assert_eq!(frame.glyphs[1].index, 0x1234);
    assert_eq!(frame.glyphs[1].grid_position, Coordinates { x: 3, y: 0 });

    // a cell past the first row lands on the second grid row
    let mut bytes: Vec<u8> = vec![0, 0, 0, 0];
    for _ in 0..53 {
        bytes.extend_from_slice(&[0, 0]);
    }
    bytes.extend_from_slice(&[9, 0]);
    let frame = Frame::from_bytes(&bytes);
    assert_eq!(frame.glyphs.len(), 1);
    assert_eq!(frame.glyphs[0].grid_position, Coordinates { x: 0, y: 1 });
}

#[test]
fn toggling_a_mask_twice_restores_the_original_state() {
    let mut options = OsdOptions::default();
    let pos = Coordinates { x: 7u32, y: 3u32 };
    let before = options.get_mask(&pos);
    options.toggle_mask(pos);
    assert_eq!(options.get_mask(&pos), !before);
    options.toggle_mask(pos);
    assert_eq!(options.get_mask(&pos), before);

    options.toggle_mask(pos);
    options.toggle_mask(Coordinates { x: 1, y: 1 });
    assert!(options.get_mask(&pos));
    assert!(options.get_mask(&Coordinates { x: 1, y: 1 }));
    options.reset_mask();
    assert!(!options.get_mask(&pos));
    assert!(!options.get_mask(&Coordinates { x: 1, y: 1 }));
}

#[test]
fn fully_opaque_overlay_replaces_covered_pixels_exactly() {
    let mut bottom = solid(4, 4, [10, 20, 30, 255]);
    let top = solid(2, 2, [200, 100, 50, 255]);
    fast_overlay(&mut bottom, &top, 1, 1);
    for y in 0..4u32 {
        for x in 0..4u32 {
            let expected = if (1..3).contains(&x) && (1..3).contains(&y) {
                [200, 100, 50, 255]
            } else {
                [10, 20, 30, 255]
            };
            assert_eq!(bottom.pixel(x, y), expected, "pixel ({x},{y})");
        }
    }
}

#[test]
fn fully_transparent_overlay_leaves_the_buffer_unchanged() {
    let mut bottom = solid(4, 4, [10, 20, 30, 255]);
    let before = bottom.data.clone();
    let top = solid(2, 2, [200, 100, 50, 0]);
    fast_overlay(&mut bottom, &top, 1, 1);
    assert_eq!(bottom.data, before);
}

#[test]
fn intermediate_alpha_falls_back_to_real_blending() {
    let mut bottom = solid(2, 2, [0, 0, 0, 255]);
    let before = bottom.data.clone();
    let top = solid(2, 2, [255, 255, 255, 128]);
    fast_overlay(&mut bottom, &top, 0, 0);
    // blended pixels are neither the bottom nor the top colour
    assert_ne!(bottom.data, before);
    let p = bottom.pixel(0, 0);
    assert_ne!(p, [0, 0, 0, 255]);
    assert_ne!(p, [255, 255, 255, 128]);
    assert!(p[0] > 0 && p[0] < 255);
}

#[test]
fn out_of_range_overlay_is_clipped_or_ignored() {
    let mut bottom = solid(4, 4, [1, 2, 3, 255]);
    let before = bottom.data.clone();
    let top = solid(2, 2, [9, 9, 9, 255]);
    fast_overlay(&mut bottom, &top, 100, 100);
    assert_eq!(bottom.data, before);
    fast_overlay(&mut bottom, &top, -1, -1);
    assert_eq!(bottom.pixel(0, 0), [9, 9, 9, 255]);
    assert_eq!(bottom.pixel(1, 1), [1, 2, 3, 255]);
}

/// A font whose glyph `i` is a solid 2 x 3 block of colour `[i, i, i,
/// 255]`, built directly from its parts.
fn test_font() -> FontFile {
    let mut characters = Vec::new();
    for i in 0..=255u8 {
        characters.push(solid(2, 3, [i, i, i, 255]));
    }
    FontFile {
        font_type: FontType::Standard,
        font_character_size: Dimension { width: 2, height: 3 },
        character_count: 256,
        characters,
        cache: ImageCache::new(256),
    }
}

#[test]
fn overlay_osd_draws_glyphs_at_their_grid_cells() {
    // a frame sized so each grid cell is exactly one glyph (2 x 3)
    let mut image = solid(53 * 2, 20 * 3, [0, 0, 0, 255]);
    let mut font = test_font();
    let options = OsdOptions::default();
    let frame = Frame {
        time_millis: 0,
        glyphs: vec![
            Glyph { index: 9, grid_position: Coordinates { x: 0, y: 0 } },
            Glyph { index: 17, grid_position: Coordinates { x: 2, y: 1 } },
        ],
    };
    overlay_osd(&mut image, &frame, &mut font, &options);
    assert_eq!(image.pixel(0, 0), [9, 9, 9, 255]);
    assert_eq!(image.pixel(1, 2), [9, 9, 9, 255]);
    assert_eq!(image.pixel(2, 0), [0, 0, 0, 255]);
    assert_eq!(image.pixel(4, 3), [17, 17, 17, 255]);
    assert_eq!(image.pixel(5, 5), [17, 17, 17, 255]);
}

#[test]
fn overlay_osd_skips_masked_cells_and_empty_indices() {
    let mut image = solid(53 * 2, 20 * 3, [0, 0, 0, 255]);
    let mut font = test_font();
    let mut options = OsdOptions::default();
    options.toggle_mask(Coordinates { x: 1, y: 0 });
    let frame = Frame {
        time_millis: 0,
        glyphs: vec![
            Glyph { index: 0, grid_position: Coordinates { x: 0, y: 0 } },
            Glyph { index: 30, grid_position: Coordinates { x: 1, y: 0 } },
        ],
    };
    overlay_osd(&mut image, &frame, &mut font, &options);
    assert_eq!(image.pixel(0, 0), [0, 0, 0, 255]);
    assert_eq!(image.pixel(2, 0), [0, 0, 0, 255]);
}

fn osd_frame(time_millis: u32, index: u16, x: u32, y: u32) -> Frame {
    Frame {
        time_millis,
        glyphs: vec![Glyph { index, grid_position: Coordinates { x, y } }],
    }
}

#[test]
fn aligner_composites_the_current_osd_record_per_frame() {
    let width = 53 * 2;
    let height = 20 * 3;
    let mut aligner = FrameAligner::new(
        vec![osd_frame(0, 5, 0, 0), osd_frame(1000, 6, 1, 0)],
        vec![],
        test_font(),
        OsdOptions::default(),
        SrtOptions::default(),
        None,
    );
    let raw = || vec![0u8; (width * height * 4) as usize];

    // frames at 0.0 s and 0.5 s carry glyph 5 at cell (0, 0)
    let out = aligner.process_frame(width, height, 0, raw());
    assert_eq!(out.image.pixel(0, 0), [5, 5, 5, 255]);
    assert_eq!(out.image.pixel(2, 0), [0, 0, 0, 0]);
    let out = aligner.process_frame(width, height, 500_000, raw());
    assert_eq!(out.image.pixel(0, 0), [5, 5, 5, 255]);
    // the frame at 1.2 s carries glyph 6 at cell (1, 0)
    let out = aligner.process_frame(width, height, 1_200_000, raw());
    assert_eq!(out.image.pixel(2, 0), [6, 6, 6, 255]);
    assert_eq!(out.image.pixel(0, 0), [0, 0, 0, 0]);
}

#[test]
fn aligner_cursors_never_move_backwards() {
    let width = 53 * 2;
    let height = 20 * 3;
    let mut aligner = FrameAligner::new(
        vec![osd_frame(0, 5, 0, 0), osd_frame(500, 6, 1, 0), osd_frame(1000, 7, 2, 0)],
        vec![0, 400_000, 900_000],
        test_font(),
        OsdOptions::default(),
        SrtOptions::default(),
        None,
    );
    let raw = || vec![0u8; (width * height * 4) as usize];
    let mut last_osd = 0;
    let mut last_srt = 0;
    for ts in [0u64, 100_000, 450_000, 450_000, 1_000_000, 2_000_000] {
        let out = aligner.process_frame(width, height, ts, raw());
        assert!(aligner.osd_cursor >= last_osd);
        assert!(aligner.srt_cursor >= last_srt);
        last_osd = aligner.osd_cursor;
        last_srt = aligner.srt_cursor;
        if aligner.srt_cursor > 0 {
            assert_eq!(out.srt_index, Some(aligner.srt_cursor - 1));
        } else {
            assert_eq!(out.srt_index, None);
        }
    }
    assert_eq!(last_osd, 3);
    assert_eq!(last_srt, 3);
}

#[test]
fn aligner_chroma_key_replaces_the_decoded_frame() {
    let width = 53 * 2;
    let height = 20 * 3;
    let mut options = OsdOptions::default();
    options.no_osd = true;
    let mut aligner = FrameAligner::new(
        vec![],
        vec![],
        test_font(),
        options,
        SrtOptions::default(),
        Some([1, 177, 64, 255]),
    );
    let decoded = vec![9u8; (width * height * 4) as usize];
    let out = aligner.process_frame(width, height, 0, decoded);
    assert_eq!(out.image.pixel(0, 0), [1, 177, 64, 255]);
    assert_eq!(out.image.pixel(50, 10), [1, 177, 64, 255]);
}

#[test]
fn cancellation_is_requested_exactly_once() {
    let mut aligner = FrameAligner::new(
        vec![osd_frame(0, 5, 0, 0)],
        vec![],
        test_font(),
        OsdOptions::default(),
        SrtOptions::default(),
        None,
    );
    assert!(aligner.note_abort());
    assert!(!aligner.note_abort());
    assert!(!aligner.note_abort());
    // processing continues after a cancellation request: queued frames
    // still drain through the aligner
    let out = aligner.process_frame(53 * 2, 20 * 3, 0, vec![0u8; 53 * 2 * 20 * 3 * 4]);
    assert_eq!(out.image.pixel(0, 0), [5, 5, 5, 255]);
}

#[test]
fn bounded_frame_queue_applies_backpressure_without_losing_frames() {
    // the frame queue of the render pipeline, bounded at depth 100: with
    // the consumer paused the producer is blocked once 100 frames are
    // queued; resuming drains every frame exactly once, in order
    let (tx, rx) = crossbeam_channel::bounded::<u32>(100);
    let mut sent = 0u32;
    while sent < 1000 {
        match tx.try_send(sent) {
            Ok(()) => sent += 1,
            Err(crossbeam_channel::TrySendError::Full(_)) => {
                // the producer would block here; the paused consumer now
                // takes one frame, making room for exactly one more
                let got = rx.recv().unwrap();
                assert_eq!(got, sent - 100);
            }
            Err(e) => panic!("unexpected send failure: {e:?}"),
        }
    }
    // drain the rest: every one of the 1,000 frames arrives exactly once
    let mut expected = 900;
    while let Ok(got) = rx.try_recv() {
        assert_eq!(got, expected);
        expected += 1;
    }
    assert_eq!(expected, 1000);
    assert!(rx.try_recv().is_err());
}
