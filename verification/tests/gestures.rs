use palmar_velle::gestures::{GestureEvent, GestureRecognizer, HandReading};

fn reading(index: bool, middle: bool) -> HandReading {
    HandReading {
        index_raw_pinched: index,
        index_raw_released: !index,
        middle_raw_pinched: middle,
        middle_raw_released: !middle,
        scroll_beyond_deadzone: false,
    }
}

fn scroll_reading(beyond: bool) -> HandReading {
    HandReading { scroll_beyond_deadzone: beyond, ..reading(true, true) }
}


#[test]
fn open_hand_only_moves() {
    let mut g = GestureRecognizer::new();
    assert_eq!(g.process_at(Some(reading(false, false)), 0), vec![GestureEvent::Move]);
    assert_eq!(g.process_at(Some(reading(false, false)), 10), vec![GestureEvent::Move]);
}

#[test]
fn no_hand_reports_hand_lost() {
    let mut g = GestureRecognizer::new();
    assert_eq!(g.process_at(None, 0), vec![GestureEvent::HandLost]);
}

#[test]
fn index_pinch_presses_after_two_frames_and_releases() {
    let mut g = GestureRecognizer::new();
    assert_eq!(g.process_at(Some(reading(true, false)), 0), vec![GestureEvent::Move]);
    assert_eq!(g.process_at(Some(reading(true, false)), 33), vec![GestureEvent::Move, GestureEvent::PrimaryDown]);
    assert_eq!(g.process_at(Some(reading(true, false)), 66), vec![GestureEvent::Move]);
    assert_eq!(g.process_at(Some(reading(false, false)), 100), vec![GestureEvent::Move]);
    assert_eq!(g.process_at(Some(reading(false, false)), 133), vec![GestureEvent::Move, GestureEvent::PrimaryUp]);
}

#[test]
fn two_quick_pinches_double_click() {
    let mut g = GestureRecognizer::new();
    g.process_at(Some(reading(true, false)), 0);
    g.process_at(Some(reading(true, false)), 30);
    g.process_at(Some(reading(false, false)), 60);
    assert_eq!(g.process_at(Some(reading(false, false)), 100), vec![GestureEvent::Move, GestureEvent::PrimaryUp]);
    g.process_at(Some(reading(true, false)), 200);
    // 350 ms after the release: still a double click.
    assert_eq!(g.process_at(Some(reading(true, false)), 450), vec![GestureEvent::Move, GestureEvent::DoubleClick]);
    // The pinch that made the double click activates nothing more, even
    // once the double-click window has passed, and its release reports
    // nothing: the button was left up.
    assert_eq!(g.process_at(Some(reading(true, false)), 800), vec![GestureEvent::Move]);
    assert_eq!(g.process_at(Some(reading(false, false)), 830), vec![GestureEvent::Move]);
    assert_eq!(g.process_at(Some(reading(false, false)), 860), vec![GestureEvent::Move]);
    // A new pinch after the release is a fresh activation.
    g.process_at(Some(reading(true, false)), 900);
    assert_eq!(
        g.process_at(Some(reading(true, false)), 930),
        vec![GestureEvent::Move, GestureEvent::PrimaryDown]
    );
}

#[test]
fn slow_second_pinch_is_a_press() {
    let mut g = GestureRecognizer::new();
    g.process_at(Some(reading(true, false)), 0);
    g.process_at(Some(reading(true, false)), 30);
    g.process_at(Some(reading(false, false)), 60);
    g.process_at(Some(reading(false, false)), 100);
    g.process_at(Some(reading(true, false)), 400);
    assert_eq!(g.process_at(Some(reading(true, false)), 451), vec![GestureEvent::Move, GestureEvent::PrimaryDown]);
}

#[test]
fn middle_pinch_is_secondary_click() {
    let mut g = GestureRecognizer::new();
    g.process_at(Some(reading(false, true)), 0);
    assert_eq!(g.process_at(Some(reading(false, true)), 30), vec![GestureEvent::Move, GestureEvent::SecondaryDown]);
    g.process_at(Some(reading(false, false)), 60);
    assert_eq!(g.process_at(Some(reading(false, false)), 90), vec![GestureEvent::Move, GestureEvent::SecondaryUp]);
}

#[test]
fn both_pinches_scroll_and_release_held_button() {
    let mut g = GestureRecognizer::new();
    g.process_at(Some(reading(true, false)), 0);
    assert_eq!(g.process_at(Some(reading(true, false)), 30), vec![GestureEvent::Move, GestureEvent::PrimaryDown]);
    g.process_at(Some(reading(true, true)), 60);
    // Middle pinch confirmed: scroll starts and the held button is released.
    assert_eq!(g.process_at(Some(scroll_reading(false)), 90), vec![GestureEvent::Move, GestureEvent::PrimaryUp]);
    assert_eq!(g.process_at(Some(scroll_reading(true)), 120), vec![GestureEvent::Move, GestureEvent::Scroll]);
    assert_eq!(g.process_at(Some(scroll_reading(false)), 150), vec![GestureEvent::Move]);
}

#[test]
fn scroll_start_frame_does_not_scroll() {
    let mut g = GestureRecognizer::new();
    g.process_at(Some(scroll_reading(true)), 0);
    assert_eq!(g.process_at(Some(scroll_reading(true)), 30), vec![GestureEvent::Move]);
    assert_eq!(g.process_at(Some(scroll_reading(true)), 60), vec![GestureEvent::Move, GestureEvent::Scroll]);
}

#[test]
fn losing_the_hand_releases_buttons() {
    let mut g = GestureRecognizer::new();
    g.process_at(Some(reading(true, false)), 0);
    g.process_at(Some(reading(true, false)), 30);
    assert_eq!(g.process_at(None, 60), vec![GestureEvent::PrimaryUp, GestureEvent::HandLost]);
    // Pinches were reset: one frame is not enough to press again.
    assert_eq!(g.process_at(Some(reading(true, false)), 90), vec![GestureEvent::Move]);
}

#[test]
fn losing_the_hand_releases_secondary() {
    let mut g = GestureRecognizer::new();
    g.process_at(Some(reading(false, true)), 0);
    g.process_at(Some(reading(false, true)), 30);
    assert_eq!(g.process_at(None, 60), vec![GestureEvent::SecondaryUp, GestureEvent::HandLost]);
}

#[test]
fn process_reads_the_clock() {
    let mut g = GestureRecognizer::new();
    assert_eq!(g.process(Some(reading(true, false))), vec![GestureEvent::Move]);
    assert_eq!(g.process(Some(reading(true, false))), vec![GestureEvent::Move, GestureEvent::PrimaryDown]);
    assert_eq!(g.process(None), vec![GestureEvent::PrimaryUp, GestureEvent::HandLost]);
}

#[test]
fn held_pinch_after_double_click_does_not_repeat() {
    let mut g = GestureRecognizer::new();
    g.process_at(Some(reading(true, false)), 0);
    g.process_at(Some(reading(true, false)), 30);
    g.process_at(Some(reading(false, false)), 60);
    g.process_at(Some(reading(false, false)), 100);
    g.process_at(Some(reading(true, false)), 200);
    assert_eq!(
        g.process_at(Some(reading(true, false)), 250),
        vec![GestureEvent::Move, GestureEvent::DoubleClick]
    );
    assert_eq!(g.process_at(Some(reading(true, false)), 283), vec![GestureEvent::Move]);
    assert_eq!(g.process_at(Some(reading(true, false)), 316), vec![GestureEvent::Move]);
}

#[test]
fn spent_pinch_stays_spent_through_a_scroll() {
    let mut g = GestureRecognizer::new();
    g.process_at(Some(reading(true, false)), 0);
    g.process_at(Some(reading(true, false)), 30);
    g.process_at(Some(reading(false, false)), 60);
    g.process_at(Some(reading(false, false)), 100);
    g.process_at(Some(reading(true, false)), 200);
    g.process_at(Some(reading(true, false)), 250);
    g.process_at(Some(reading(true, true)), 280);
    assert_eq!(g.process_at(Some(reading(true, true)), 310), vec![GestureEvent::Move]);
    g.process_at(Some(reading(true, false)), 340);
    assert_eq!(g.process_at(Some(reading(true, false)), 370), vec![GestureEvent::Move]);
}
