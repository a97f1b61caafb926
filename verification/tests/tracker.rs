use palmar_velle::tracker::{crop_rect, planar_channels, ConfidenceGate, ConfidenceOutcome, CropRect};

#[test]
fn crop_inside_frame_is_kept() {
    assert_eq!(crop_rect(640, 480, 128, 48, 384), CropRect { x: 128, y: 48, width: 384, height: 384 });
}

#[test]
fn crop_corner_is_clamped_into_frame() {
    assert_eq!(crop_rect(640, 480, -20, 700, 100), CropRect { x: 0, y: 479, width: 100, height: 1 });
}

#[test]
fn crop_side_is_clamped_to_frame_and_one_pixel() {
    assert_eq!(crop_rect(640, 480, 600, 10, 300), CropRect { x: 600, y: 10, width: 40, height: 300 });
    assert_eq!(crop_rect(640, 480, 5, 5, 0), CropRect { x: 5, y: 5, width: 1, height: 1 });
}

#[test]
fn planar_layout_of_padded_rows() {
    // 2 x 2 pixels, rows padded to 8 bytes.
    let bytes: Vec<u8> = vec![
        1, 2, 3, 4, 5, 6, 99, 99, //
        7, 8, 9, 10, 11, 12, 99, 99,
    ];
    let planar = planar_channels(&bytes, 8, 2, 2).unwrap();
    assert_eq!(planar, vec![1, 4, 7, 10, 2, 5, 8, 11, 3, 6, 9, 12]);
}

#[test]
fn planar_rejects_short_rows_and_short_data() {
    let bytes = vec![0u8; 16];
    assert!(planar_channels(&bytes, 5, 2, 2).is_none());
    assert!(planar_channels(&bytes, 8, 2, 3).is_none());
    assert!(planar_channels(&bytes, 6, 2, 2).is_some());
}

#[test]
fn confidence_holds_five_frames_then_drops() {
    let mut g = ConfidenceGate::new();
    assert_eq!(g.observe(true), ConfidenceOutcome::Accept);
    for _ in 0..5 {
        assert_eq!(g.observe(false), ConfidenceOutcome::HoldLast);
    }
    assert_eq!(g.observe(false), ConfidenceOutcome::Drop);
    assert_eq!(g.observe(false), ConfidenceOutcome::Drop);
    assert_eq!(g.misses(), 7);
    assert_eq!(g.observe(true), ConfidenceOutcome::Accept);
    assert_eq!(g.misses(), 0);
    assert_eq!(g.observe(false), ConfidenceOutcome::HoldLast);
}
