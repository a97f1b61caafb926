use palmar_velle::pinch::DebouncedPinch;

#[test]
fn single_noisy_frame_does_not_press() {
    let mut p = DebouncedPinch::new();
    assert!(!p.update(true, false, 2));
    assert!(!p.update(false, false, 2));
    assert!(!p.update(true, false, 2));
    assert!(!p.is_pinched());
}

#[test]
fn two_consecutive_frames_press() {
    let mut p = DebouncedPinch::new();
    assert!(!p.update(true, false, 2));
    assert!(p.update(true, false, 2));
    assert!(p.is_pinched());
    // Held while neither condition holds (between the thresholds).
    assert!(p.update(false, false, 2));
}

#[test]
fn release_needs_consecutive_frames() {
    let mut p = DebouncedPinch::new();
    p.update(true, false, 2);
    p.update(true, false, 2);
    assert!(p.update(false, true, 2));
    assert!(p.update(false, false, 2));
    assert!(p.update(false, true, 2));
    assert!(!p.update(false, true, 2));
}

#[test]
fn confirm_of_zero_or_one_flips_at_once() {
    let mut p = DebouncedPinch::new();
    assert!(p.update(true, false, 1));
    assert!(!p.update(false, true, 0));
}

#[test]
fn longer_confirmation() {
    let mut p = DebouncedPinch::new();
    for _ in 0..4 {
        assert!(!p.update(true, false, 5));
    }
    assert!(p.update(true, false, 5));
}

#[test]
fn reset_releases() {
    let mut p = DebouncedPinch::new();
    p.update(true, false, 2);
    p.update(true, false, 2);
    assert!(p.is_pinched());
    p.reset();
    assert!(!p.is_pinched());
    // A streak started before the reset does not carry over.
    assert!(!p.update(true, false, 2));
}
