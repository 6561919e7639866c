use vmux_desktop::capture::{
    bgra_to_rgba, capture_output_dir, clamp_crop, join, resolve_output_paths,
    settle_recording_outcome, should_sample_gif_frame, CropRect, GIF_FPS,
};

#[test]
fn output_paths_default_dir_and_name() {
    let (mp4, gif) = resolve_output_paths(None, None, false, "20260623-101010-001", "/tmp/def");
    assert_eq!(mp4, "/tmp/def/vmux-20260623-101010-001.mp4");
    assert!(gif.is_none());
}

#[test]
fn output_paths_custom_dir_name_and_gif() {
    let (mp4, gif) = resolve_output_paths(Some("/tmp/out"), Some("feature-x"), true, "ts", "/tmp/def");
    assert_eq!(mp4, "/tmp/out/feature-x.mp4");
    assert_eq!(gif, Some("/tmp/out/feature-x.gif".to_string()));
}

#[test]
fn gif_sampling_respects_fps() {
    assert!(should_sample_gif_frame(0, None, 12));
    assert!(!should_sample_gif_frame(40, Some(0), 12));
    assert!(should_sample_gif_frame(90, Some(0), 12));
    assert!(should_sample_gif_frame(83, Some(0), GIF_FPS));
    assert!(!should_sample_gif_frame(82, Some(0), GIF_FPS));
    // A zero rate counts as one frame a second.
    assert!(!should_sample_gif_frame(999, Some(0), 0));
    assert!(should_sample_gif_frame(1000, Some(0), 0));
}

#[test]
fn bgra_to_rgba_swaps_channels() {
    let bgra = vec![1u8, 2, 3, 4];
    assert_eq!(bgra_to_rgba(&bgra), vec![3, 2, 1, 4]);
    let two = vec![10u8, 20, 30, 40, 50, 60, 70, 80];
    assert_eq!(bgra_to_rgba(&two), vec![30, 20, 10, 40, 70, 60, 50, 80]);
}

#[test]
fn crop_rect_clamps_to_image() {
    // A pane centred at (100, 100), 80 by 60: its corner is at (60, 70).
    assert_eq!(clamp_crop(60, 70, 80, 60, 1000, 1000), CropRect { x: 60, y: 70, w: 80, h: 60 });
    // Centred at (990, 990), 40 by 40.
    assert_eq!(clamp_crop(970, 970, 40, 40, 1000, 1000), CropRect { x: 970, y: 970, w: 30, h: 30 });
}

#[test]
fn crop_corner_outside_image_moves_to_last_pixel() {
    assert_eq!(clamp_crop(2000, 5, 10, 10, 1000, 1000), CropRect { x: 999, y: 5, w: 1, h: 10 });
}

#[test]
fn join_handles_slashes_and_absolute_files() {
    assert_eq!(join("/tmp/a", "b.mp4"), "/tmp/a/b.mp4");
    assert_eq!(join("/tmp/a/", "b.mp4"), "/tmp/a/b.mp4");
    assert_eq!(join("/tmp/a", "/abs/b.mp4"), "/abs/b.mp4");
    assert_eq!(join("", "b.mp4"), "b.mp4");
}

#[test]
fn capture_dir_prefers_trimmed_setting() {
    assert_eq!(capture_output_dir(Some("  /tmp/x  "), "/d"), "/tmp/x");
    assert_eq!(capture_output_dir(Some("   "), "/d"), "/d");
    assert_eq!(capture_output_dir(None, "/d"), "/d");
}

#[test]
fn recording_outcome_answers_request_and_falls_back_to_auto_stop() {
    let mut last_auto: Option<u32> = Some(7);
    let id = [1u8; 16];
    let answer = settle_recording_outcome(&mut last_auto, Some(id), Err("already stopped".to_string()));
    assert_eq!(answer, Some((id, Ok(7))));
    assert_eq!(last_auto, None);

    let mut last_auto: Option<u32> = None;
    let answer = settle_recording_outcome(&mut last_auto, None, Ok(3));
    assert_eq!(answer, None);
    assert_eq!(last_auto, Some(3));
}
