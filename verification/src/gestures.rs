//! Gesture recognizer for webcam-based mouse control.
//!
//! Gestures:
//!   - palm position: cursor movement
//!   - thumb + index pinch: primary click / drag
//!   - thumb + middle pinch: secondary click
//!   - thumb + index + middle pinch: vertical scrolling
//!   - two quick index pinches: double click
//!
//! The recognizer works on per-frame readings: whether each pinch's raw
//! enter / exit threshold was crossed this frame, and whether the palm moved
//! beyond the scroll dead zone since the previous scroll frame. Pinch state
//! changes are debounced over consecutive frames.

use vstd::prelude::*;

use crate::clock::{duration_as_millis, instant_elapsed, instant_now};
use crate::pinch::{pinch_fresh, pinch_step, pinch_wf, DebouncedPinch, PinchView};

verus! {

/// Consecutive frames a raw pinch condition must hold before it counts as a
/// state change.
pub const PINCH_CONFIRM_FRAMES: u32 = 2;

/// Two primary pinch activations at most this many milliseconds apart (from
/// the release of the first to the press of the second) form a double click.
pub const DOUBLE_CLICK_MS: u64 = 350;

/// What the recognizer reports for one frame. `Move` carries the frame's palm
/// position and `Scroll` the palm's vertical travel since the previous scroll
/// frame; the caller attaches both.
#[derive(Clone, Copy, PartialEq, Eq, Structural, Debug)]
pub enum GestureEvent {
    Move,
    PrimaryDown,
    PrimaryUp,
    SecondaryDown,
    SecondaryUp,
    Scroll,
    DoubleClick,
    HandLost,
}

/// The per-frame readings of a detected hand.
#[derive(Clone, Copy, PartialEq, Eq, Structural, Debug)]
pub struct HandReading {
    /// Thumb-to-index distance below the pinch enter threshold.
    pub index_raw_pinched: bool,
    /// Thumb-to-index distance above the pinch exit threshold.
    pub index_raw_released: bool,
    /// Thumb-to-middle distance below the pinch enter threshold.
    pub middle_raw_pinched: bool,
    /// Thumb-to-middle distance above the pinch exit threshold.
    pub middle_raw_released: bool,
    /// The palm moved vertically beyond the scroll dead zone since the
    /// previous scroll frame (false when no scroll is in progress).
    pub scroll_beyond_deadzone: bool,
}

/// The observable state of a gesture recognizer.
pub struct GestureView {
    pub primary_down: bool,
    pub secondary_down: bool,
    pub scrolling: bool,
    pub last_primary_release_ms: Option<u64>,
    /// The index pinch still held produced a double click: it must be
    /// released before it activates the primary button again.
    pub index_spent: bool,
    pub index: PinchView,
    pub middle: PinchView,
}

/// The state of a freshly created recognizer.
pub open spec fn gesture_fresh() -> GestureView {
    GestureView {
        primary_down: false,
        secondary_down: false,
        scrolling: false,
        last_primary_release_ms: None,
        index_spent: false,
        index: pinch_fresh(),
        middle: pinch_fresh(),
    }
}

/// A press at `now_ms` completes a double click with a release at
/// `release_ms` (time running backwards counts as no time at all).
pub open spec fn within_double_click(release_ms: u64, now_ms: u64) -> bool {
    (if now_ms >= release_ms { now_ms - release_ms } else { 0 }) <= DOUBLE_CLICK_MS
}

/// The events `e` when `b` holds, none otherwise.
pub open spec fn events_if(b: bool, e: Seq<GestureEvent>) -> Seq<GestureEvent> {
    if b { e } else { Seq::empty() }
}

/// The two pinches after a frame with readings `r`.
pub open spec fn step_pinches(s: GestureView, r: HandReading) -> (PinchView, PinchView) {
    (
        pinch_step(s.index, r.index_raw_pinched, r.index_raw_released, PINCH_CONFIRM_FRAMES),
        pinch_step(s.middle, r.middle_raw_pinched, r.middle_raw_released, PINCH_CONFIRM_FRAMES),
    )
}

/// An index pinch without a middle pinch activates the primary button when it
/// is up and the index pinch is not spent.
pub open spec fn primary_press(s: GestureView, index: PinchView, middle: PinchView) -> bool {
    index.pinched && !middle.pinched && !s.primary_down && !s.index_spent
}

/// Releasing the index pinch releases a held primary button.
pub open spec fn primary_release(s: GestureView, index: PinchView) -> bool {
    !index.pinched && s.primary_down
}

/// A primary activation at `now_ms` is a double click: the previous primary
/// release was at most `DOUBLE_CLICK_MS` before.
pub open spec fn double_click_due(s: GestureView, now_ms: u64) -> bool {
    match s.last_primary_release_ms {
        Some(prev) => within_double_click(prev, now_ms),
        None => false,
    }
}

/// A middle pinch without an index pinch presses the secondary button when it
/// is up.
pub open spec fn secondary_press(s: GestureView, index: PinchView, middle: PinchView) -> bool {
    middle.pinched && !index.pinched && !s.secondary_down
}

/// Releasing the middle pinch releases a held secondary button.
pub open spec fn secondary_release(s: GestureView, middle: PinchView) -> bool {
    !middle.pinched && s.secondary_down
}

/// The events of a frame with a hand that is not a scroll frame.
pub open spec fn click_events(s: GestureView, index: PinchView, middle: PinchView, now_ms: u64) -> Seq<GestureEvent> {
    let press = primary_press(s, index, middle);
    let double = double_click_due(s, now_ms);
    seq![GestureEvent::Move]
        + events_if(press && double, seq![GestureEvent::DoubleClick])
        + events_if(press && !double, seq![GestureEvent::PrimaryDown])
        + events_if(primary_release(s, index), seq![GestureEvent::PrimaryUp])
        + events_if(secondary_press(s, index, middle), seq![GestureEvent::SecondaryDown])
        + events_if(secondary_release(s, middle), seq![GestureEvent::SecondaryUp])
}

/// One frame of the recognizer, for a frame without a hand (`None`) or with
/// the given readings, at `now_ms` milliseconds after the recognizer started.
///
/// - Without a hand, held buttons are released, scrolling stops, both pinches
///   are reset, and `HandLost` is reported.
/// - With a hand, `Move` comes first. Both pinches held is a scroll: a scroll
///   already in progress reports `Scroll` when the palm left the dead zone,
///   and held buttons are released.
/// - Otherwise a scroll in progress ends; an index pinch without a middle
///   pinch presses the primary button (a double click instead, when the
///   previous primary release was recent), and releasing the index pinch
///   releases it, recording the time; a middle pinch without an index pinch
///   does the same for the secondary button. An index pinch that produced a
///   double click activates nothing more until it is released.
pub open spec fn gesture_step(
    s: GestureView,
    reading: Option<HandReading>,
    now_ms: u64,
) -> (GestureView, Seq<GestureEvent>) {
    match reading {
        None => (
            GestureView {
                primary_down: false,
                secondary_down: false,
                scrolling: false,
                last_primary_release_ms: s.last_primary_release_ms,
                index_spent: false,
                index: pinch_fresh(),
                middle: pinch_fresh(),
            },
            events_if(s.primary_down, seq![GestureEvent::PrimaryUp])
                + events_if(s.secondary_down, seq![GestureEvent::SecondaryUp])
                + seq![GestureEvent::HandLost],
        ),
        Some(r) => {
            let (index, middle) = step_pinches(s, r);
            if index.pinched && middle.pinched {
                (
                    GestureView {
                        primary_down: false,
                        secondary_down: false,
                        scrolling: true,
                        last_primary_release_ms: s.last_primary_release_ms,
                        index_spent: s.index_spent,
                        index,
                        middle,
                    },
                    seq![GestureEvent::Move]
                        + events_if(s.scrolling && r.scroll_beyond_deadzone, seq![GestureEvent::Scroll])
                        + events_if(s.primary_down, seq![GestureEvent::PrimaryUp])
                        + events_if(s.secondary_down, seq![GestureEvent::SecondaryUp]),
                )
            } else {
                let press = primary_press(s, index, middle);
                let double = double_click_due(s, now_ms);
                let release = primary_release(s, index);
                (
                    GestureView {
                        primary_down: if press {
                            !double
                        } else if release {
                            false
                        } else {
                            s.primary_down
                        },
                        secondary_down: if secondary_press(s, index, middle) {
                            true
                        } else if secondary_release(s, middle) {
                            false
                        } else {
                            s.secondary_down
                        },
                        scrolling: false,
                        last_primary_release_ms: if release {
                            Some(now_ms)
                        } else {
                            s.last_primary_release_ms
                        },
                        index_spent: if press && double {
                            true
                        } else if !index.pinched {
                            false
                        } else {
                            s.index_spent
                        },
                        index,
                        middle,
                    },
                    click_events(s, index, middle, now_ms),
                )
            }
        },
    }
}

/// The states a recognizer can be in: both pinches reachable, a held button
/// backed by its own pinch alone, a scroll backed by both pinches, and a spent
/// index pinch still held with the primary button up.
pub open spec fn gesture_inv(s: GestureView) -> bool {
    &&& pinch_wf(s.index)
    &&& pinch_wf(s.middle)
    &&& s.primary_down ==> s.index.pinched && !s.middle.pinched
    &&& s.secondary_down ==> s.middle.pinched && !s.index.pinched
    &&& s.scrolling ==> s.index.pinched && s.middle.pinched
    &&& s.index_spent ==> s.index.pinched && !s.primary_down
}

/// The two buttons are never held together.
pub proof fn law_buttons_never_held_together(s: GestureView)
    requires
        gesture_inv(s),
    ensures
        !(s.primary_down && s.secondary_down),
{
}

/// Every frame keeps the recognizer in the states of `gesture_inv`.
pub proof fn law_step_keeps_invariant(s: GestureView, reading: Option<HandReading>, now_ms: u64)
    requires
        gesture_inv(s),
    ensures
        gesture_inv(gesture_step(s, reading, now_ms).0),
{
}

/// The button states `(primary, secondary)` after `event`, or `None` when the
/// event does not fit them: a press of a held button, a release of one that
/// is up, a double click while the primary button is held, or a scroll while
/// a button is held.
pub open spec fn replay_event(b: (bool, bool), event: GestureEvent) -> Option<(bool, bool)> {
    match event {
        GestureEvent::PrimaryDown => if b.0 { None } else { Some((true, b.1)) },
        GestureEvent::PrimaryUp => if b.0 { Some((false, b.1)) } else { None },
        GestureEvent::DoubleClick => if b.0 { None } else { Some(b) },
        GestureEvent::SecondaryDown => if b.1 { None } else { Some((b.0, true)) },
        GestureEvent::SecondaryUp => if b.1 { Some((b.0, false)) } else { None },
        GestureEvent::Scroll => if b.0 || b.1 { None } else { Some(b) },
        _ => Some(b),
    }
}

/// The button states after replaying `events` from `b`, or `None` when one
/// of them does not fit (see `replay_event`).
pub open spec fn replay_buttons(b: (bool, bool), events: Seq<GestureEvent>) -> Option<(bool, bool)>
    decreases events.len(),
{
    if events.len() == 0 {
        Some(b)
    } else {
        match replay_buttons(b, events.drop_last()) {
            None => None,
            Some(x) => replay_event(x, events.last()),
        }
    }
}

proof fn lemma_replay_single(b: (bool, bool), e: GestureEvent)
    ensures
        replay_buttons(b, seq![e]) == replay_event(b, e),
{
    assert(seq![e].drop_last() =~= Seq::<GestureEvent>::empty());
    assert(replay_buttons(b, Seq::empty()) == Some(b));
}

proof fn lemma_replay_singles()
    ensures
        forall|b: (bool, bool), e: GestureEvent| #[trigger] replay_buttons(b, seq![e]) == replay_event(b, e),
        forall|b: (bool, bool)| #[trigger] replay_buttons(b, Seq::<GestureEvent>::empty()) == Some(b),
{
    assert forall|b: (bool, bool), e: GestureEvent| #[trigger] replay_buttons(b, seq![e]) == replay_event(b, e) by {
        lemma_replay_single(b, e);
    }
}

proof fn lemma_replay_concat(b: (bool, bool), x: Seq<GestureEvent>, y: Seq<GestureEvent>)
    ensures
        replay_buttons(b, x + y) == match replay_buttons(b, x) {
            None => None,
            Some(c) => replay_buttons(c, y),
        },
    decreases y.len(),
{
    if y.len() == 0 {
        assert(x + y =~= x);
    } else {
        assert((x + y).drop_last() =~= x + y.drop_last());
        lemma_replay_concat(b, x, y.drop_last());
    }
}

/// The button states of `s`.
pub open spec fn buttons(s: GestureView) -> (bool, bool) {
    (s.primary_down, s.secondary_down)
}

/// Button events are consistent with the recognizer state: replaying a
/// frame's events on the button states before the frame never presses a held
/// button, releases one that is up, double-clicks while the primary button is
/// held or scrolls while a button is held, and ends in the button states after
/// the frame. So the events sent to a mouse keep it in step with the
/// recognizer.
pub proof fn law_button_events_track_state(s: GestureView, reading: Option<HandReading>, now_ms: u64)
    requires
        gesture_inv(s),
    ensures
        replay_buttons(buttons(s), gesture_step(s, reading, now_ms).1) == Some(
            buttons(gesture_step(s, reading, now_ms).0),
        ),
{
    lemma_replay_singles();
    let up = seq![GestureEvent::PrimaryUp];
    let sup = seq![GestureEvent::SecondaryUp];
    let lost = seq![GestureEvent::HandLost];
    let mv = seq![GestureEvent::Move];
    let sc = seq![GestureEvent::Scroll];
    let b = buttons(s);
    match reading {
        None => {
            let x = events_if(s.primary_down, up);
            let y = events_if(s.secondary_down, sup);
            lemma_replay_concat(b, x, y);
            lemma_replay_concat(b, x + y, lost);
        },
        Some(r) => {
            let (index, middle) = step_pinches(s, r);
            if index.pinched && middle.pinched {
                let x = events_if(s.scrolling && r.scroll_beyond_deadzone, sc);
                let y = events_if(s.primary_down, up);
                let z = events_if(s.secondary_down, sup);
                lemma_replay_concat(b, mv, x);
                lemma_replay_concat(b, mv + x, y);
                lemma_replay_concat(b, mv + x + y, z);
            } else {
                let press = primary_press(s, index, middle);
                let double = double_click_due(s, now_ms);
                let x1 = events_if(press && double, seq![GestureEvent::DoubleClick]);
                let x2 = events_if(press && !double, seq![GestureEvent::PrimaryDown]);
                let x3 = events_if(primary_release(s, index), up);
                let x4 = events_if(secondary_press(s, index, middle), seq![GestureEvent::SecondaryDown]);
                let x5 = events_if(secondary_release(s, middle), sup);
                lemma_replay_concat(b, mv, x1);
                lemma_replay_concat(b, mv + x1, x2);
                lemma_replay_concat(b, mv + x1 + x2, x3);
                lemma_replay_concat(b, mv + x1 + x2 + x3, x4);
                lemma_replay_concat(b, mv + x1 + x2 + x3 + x4, x5);
            }
        },
    }
}

/// The state after feeding `s` the frames `frames` (each a reading and its
/// time), and all events reported, in order.
pub open spec fn gesture_run(s: GestureView, frames: Seq<(Option<HandReading>, u64)>) -> (GestureView, Seq<GestureEvent>)
    decreases frames.len(),
{
    if frames.len() == 0 {
        (s, Seq::empty())
    } else {
        let prev = gesture_run(s, frames.drop_last());
        let step = gesture_step(prev.0, frames.last().0, frames.last().1);
        (step.0, prev.1 + step.1)
    }
}

/// Over any sequence of frames from a reachable state (such as a new
/// recognizer's), the reported button events fit together: presses and
/// releases of each button alternate, a double click only happens while the
/// primary button is up, a scroll only while both are up, and replaying all
/// events ends in the recognizer's final button states, which are never both
/// held.
pub proof fn law_button_events_alternate(s: GestureView, frames: Seq<(Option<HandReading>, u64)>)
    requires
        gesture_inv(s),
    ensures
        replay_buttons(buttons(s), gesture_run(s, frames).1) == Some(buttons(gesture_run(s, frames).0)),
        gesture_inv(gesture_run(s, frames).0),
        !(gesture_run(s, frames).0.primary_down && gesture_run(s, frames).0.secondary_down),
    decreases frames.len(),
{
    if frames.len() > 0 {
        let prefix = frames.drop_last();
        law_button_events_alternate(s, prefix);
        let prev = gesture_run(s, prefix);
        law_button_events_track_state(prev.0, frames.last().0, frames.last().1);
        law_step_keeps_invariant(prev.0, frames.last().0, frames.last().1);
        lemma_replay_concat(buttons(s), prev.1, gesture_step(prev.0, frames.last().0, frames.last().1).1);
    }
}

/// The events of a frame with a hand that is not a scroll frame, by kind.
proof fn lemma_click_events(s: GestureView, index: PinchView, middle: PinchView, now_ms: u64)
    ensures
        click_events(s, index, middle, now_ms).contains(GestureEvent::DoubleClick)
            <==> primary_press(s, index, middle) && double_click_due(s, now_ms),
        click_events(s, index, middle, now_ms).contains(GestureEvent::PrimaryDown)
            <==> primary_press(s, index, middle) && !double_click_due(s, now_ms),
        click_events(s, index, middle, now_ms).contains(GestureEvent::SecondaryDown)
            <==> secondary_press(s, index, middle),
        click_events(s, index, middle, now_ms).contains(GestureEvent::PrimaryUp)
            <==> primary_release(s, index),
        click_events(s, index, middle, now_ms).contains(GestureEvent::SecondaryUp)
            <==> secondary_release(s, middle),
{
    broadcast use {
        vstd::seq_lib::lemma_seq_concat_contains_all_elements,
        vstd::seq_lib::lemma_seq_contains,
        vstd::seq_lib::lemma_seq_empty_contains_nothing,
    };
    let press = primary_press(s, index, middle);
    let double = double_click_due(s, now_ms);
    assert(press && double ==> seq![GestureEvent::DoubleClick][0] == GestureEvent::DoubleClick);
    assert(press && !double ==> seq![GestureEvent::PrimaryDown][0] == GestureEvent::PrimaryDown);
    assert(secondary_press(s, index, middle) ==> seq![GestureEvent::SecondaryDown][0] == GestureEvent::SecondaryDown);
    assert(primary_release(s, index) ==> seq![GestureEvent::PrimaryUp][0] == GestureEvent::PrimaryUp);
    assert(secondary_release(s, middle) ==> seq![GestureEvent::SecondaryUp][0] == GestureEvent::SecondaryUp);
}

/// A frame with a hand that ends with both pinches held is a scroll frame: a
/// scroll is in progress after it, both buttons are up, and when a scroll was
/// already in progress and the palm left the dead zone, `Scroll` is reported.
pub proof fn law_scroll_completeness(s: GestureView, r: HandReading, now_ms: u64)
    ensures
        gesture_step(s, Some(r), now_ms).0.index.pinched && gesture_step(s, Some(r), now_ms).0.middle.pinched
            ==> {
            &&& gesture_step(s, Some(r), now_ms).0.scrolling
            &&& !gesture_step(s, Some(r), now_ms).0.primary_down
            &&& !gesture_step(s, Some(r), now_ms).0.secondary_down
            &&& (s.scrolling && r.scroll_beyond_deadzone ==> gesture_step(s, Some(r), now_ms).1.contains(
                GestureEvent::Scroll,
            ))
        },
{
    broadcast use {
        vstd::seq_lib::lemma_seq_concat_contains_all_elements,
        vstd::seq_lib::lemma_seq_contains,
    };
    assert(seq![GestureEvent::Scroll][0] == GestureEvent::Scroll);
}

/// A frame with a hand that does not end with both pinches held acts on the
/// buttons as the pinches say, measured on the pinch states after the frame:
/// - an index pinch without a middle pinch, with the primary button up and
///   the pinch not spent on a double click, reports `DoubleClick` (leaving
///   the button up and the pinch spent) when the last primary release was at
///   most `DOUBLE_CLICK_MS` milliseconds before `now_ms` (or the clock reads
///   earlier than that release), and `PrimaryDown` (holding the button)
///   otherwise;
/// - a released index pinch with the primary button held reports `PrimaryUp`,
///   releases the button and records `now_ms` as the release time;
/// - a middle pinch without an index pinch, with the secondary button up,
///   reports `SecondaryDown` and holds the button;
/// - a released middle pinch with the secondary button held reports
///   `SecondaryUp` and releases the button.
pub proof fn law_click_completeness(s: GestureView, r: HandReading, now_ms: u64)
    requires
        !(gesture_step(s, Some(r), now_ms).0.index.pinched && gesture_step(s, Some(r), now_ms).0.middle.pinched),
    ensures
        ({
            let t = gesture_step(s, Some(r), now_ms).0;
            let ev = gesture_step(s, Some(r), now_ms).1;
            let recent = match s.last_primary_release_ms {
                Some(prev) => now_ms < prev || now_ms - prev <= DOUBLE_CLICK_MS,
                None => false,
            };
            &&& t.index.pinched && !t.middle.pinched && !s.primary_down && !s.index_spent ==> {
                &&& recent ==> ev.contains(GestureEvent::DoubleClick) && !t.primary_down && t.index_spent
                &&& !recent ==> ev.contains(GestureEvent::PrimaryDown) && t.primary_down
            }
            &&& !t.index.pinched && s.primary_down ==> {
                &&& ev.contains(GestureEvent::PrimaryUp)
                &&& !t.primary_down
                &&& t.last_primary_release_ms == Some(now_ms)
            }
            &&& t.middle.pinched && !t.index.pinched && !s.secondary_down ==> ev.contains(
                GestureEvent::SecondaryDown,
            ) && t.secondary_down
            &&& !t.middle.pinched && s.secondary_down ==> ev.contains(GestureEvent::SecondaryUp)
                && !t.secondary_down
        }),
{
    let (index, middle) = step_pinches(s, r);
    lemma_click_events(s, index, middle, now_ms);
}

/// The last primary release time changes only on a frame with a hand that
/// releases the held primary button by releasing the index pinch, and then
/// becomes `now_ms`.
pub proof fn law_release_time(s: GestureView, reading: Option<HandReading>, now_ms: u64)
    ensures
        gesture_step(s, reading, now_ms).0.last_primary_release_ms == (if reading is Some && s.primary_down
            && !gesture_step(s, reading, now_ms).0.index.pinched {
            Some(now_ms)
        } else {
            s.last_primary_release_ms
        }),
{
}

/// Losing the hand forgets both pinches: after a frame without a hand both
/// are released with no streak in progress, so a returning hand must hold a
/// pinch for the full confirmation again before it clicks.
pub proof fn law_hand_loss_resets_pinches(s: GestureView, now_ms: u64)
    ensures
        gesture_step(s, None, now_ms).0.index == (PinchView { pinched: false, enter_streak: 0, exit_streak: 0 }),
        gesture_step(s, None, now_ms).0.middle == (PinchView { pinched: false, enter_streak: 0, exit_streak: 0 }),
        !gesture_step(s, None, now_ms).0.index_spent,
        gesture_step(s, None, now_ms).0.last_primary_release_ms == s.last_primary_release_ms,
{
}

/// Clicks are suppressed while scrolling: a frame that ends in a scroll
/// presses no button and leaves both buttons up.
pub proof fn law_scroll_suppresses_clicks(s: GestureView, reading: Option<HandReading>, now_ms: u64)
    requires
        gesture_step(s, reading, now_ms).0.scrolling,
    ensures
        !gesture_step(s, reading, now_ms).1.contains(GestureEvent::PrimaryDown),
        !gesture_step(s, reading, now_ms).1.contains(GestureEvent::SecondaryDown),
        !gesture_step(s, reading, now_ms).1.contains(GestureEvent::DoubleClick),
        !gesture_step(s, reading, now_ms).0.primary_down,
        !gesture_step(s, reading, now_ms).0.secondary_down,
{
    broadcast use {
        vstd::seq_lib::lemma_seq_concat_contains_all_elements,
        vstd::seq_lib::lemma_seq_contains,
        vstd::seq_lib::lemma_seq_empty_contains_nothing,
    };
    let ev = gesture_step(s, reading, now_ms).1;
    assert(!ev.contains(GestureEvent::PrimaryDown));
    assert(!ev.contains(GestureEvent::SecondaryDown));
    assert(!ev.contains(GestureEvent::DoubleClick));
}

/// A frame with a hand reports `Move` first and never `HandLost`; a frame
/// without a hand reports `HandLost` last, never `Move`, and leaves no button
/// held and no scroll in progress.
pub proof fn law_hand_presence(s: GestureView, reading: Option<HandReading>, now_ms: u64)
    ensures
        reading is Some ==> gesture_step(s, reading, now_ms).1.len() > 0
            && gesture_step(s, reading, now_ms).1[0] == GestureEvent::Move
            && !gesture_step(s, reading, now_ms).1.contains(GestureEvent::HandLost),
        reading is None ==> gesture_step(s, reading, now_ms).1.len() > 0
            && gesture_step(s, reading, now_ms).1.last() == GestureEvent::HandLost
            && !gesture_step(s, reading, now_ms).1.contains(GestureEvent::Move)
            && !gesture_step(s, reading, now_ms).0.primary_down
            && !gesture_step(s, reading, now_ms).0.secondary_down
            && !gesture_step(s, reading, now_ms).0.scrolling,
{
    broadcast use {
        vstd::seq_lib::lemma_seq_concat_contains_all_elements,
        vstd::seq_lib::lemma_seq_contains,
        vstd::seq_lib::lemma_seq_empty_contains_nothing,
    };
    let ev = gesture_step(s, reading, now_ms).1;
    if reading is Some {
        assert(!ev.contains(GestureEvent::HandLost));
    } else {
        assert(!ev.contains(GestureEvent::Move));
    }
}

/// A primary press (or double click) only happens with the index pinch held
/// and the middle pinch not held, and a secondary press only with the middle
/// pinch held and the index pinch not held; so no frame presses both.
pub proof fn law_presses_are_exclusive(s: GestureView, reading: Option<HandReading>, now_ms: u64)
    ensures
        gesture_step(s, reading, now_ms).1.contains(GestureEvent::PrimaryDown)
            || gesture_step(s, reading, now_ms).1.contains(GestureEvent::DoubleClick)
            ==> gesture_step(s, reading, now_ms).0.index.pinched
                && !gesture_step(s, reading, now_ms).0.middle.pinched,
        gesture_step(s, reading, now_ms).1.contains(GestureEvent::SecondaryDown)
            ==> gesture_step(s, reading, now_ms).0.middle.pinched
                && !gesture_step(s, reading, now_ms).0.index.pinched,
{
    broadcast use {
        vstd::seq_lib::lemma_seq_concat_contains_all_elements,
        vstd::seq_lib::lemma_seq_contains,
        vstd::seq_lib::lemma_seq_empty_contains_nothing,
    };
    let ev = gesture_step(s, reading, now_ms).1;
    match reading {
        None => {
            assert(!ev.contains(GestureEvent::DoubleClick));
            assert(!ev.contains(GestureEvent::PrimaryDown));
            assert(!ev.contains(GestureEvent::SecondaryDown));
        },
        Some(r) => {
            let (index, middle) = step_pinches(s, r);
            if index.pinched && middle.pinched {
                assert(!ev.contains(GestureEvent::DoubleClick));
                assert(!ev.contains(GestureEvent::PrimaryDown));
                assert(!ev.contains(GestureEvent::SecondaryDown));
            } else {
                lemma_click_events(s, index, middle, now_ms);
            }
        },
    }
}

/// Double click: a primary activation becomes `DoubleClick` exactly when the
/// previous primary release was at most `DOUBLE_CLICK_MS` before it, and
/// `PrimaryDown` otherwise; a double click leaves the button up.
pub proof fn law_double_click_window(s: GestureView, reading: Option<HandReading>, now_ms: u64)
    ensures
        gesture_step(s, reading, now_ms).1.contains(GestureEvent::DoubleClick) ==> {
            &&& s.last_primary_release_ms is Some
            &&& within_double_click(s.last_primary_release_ms->0, now_ms)
            &&& !gesture_step(s, reading, now_ms).0.primary_down
            &&& !s.primary_down
        },
        gesture_step(s, reading, now_ms).1.contains(GestureEvent::PrimaryDown) ==> {
            &&& !(s.last_primary_release_ms is Some && within_double_click(s.last_primary_release_ms->0, now_ms))
            &&& gesture_step(s, reading, now_ms).0.primary_down
            &&& !s.primary_down
        },
{
    broadcast use {
        vstd::seq_lib::lemma_seq_concat_contains_all_elements,
        vstd::seq_lib::lemma_seq_contains,
        vstd::seq_lib::lemma_seq_empty_contains_nothing,
    };
    let ev = gesture_step(s, reading, now_ms).1;
    match reading {
        None => {
            assert(!ev.contains(GestureEvent::DoubleClick));
            assert(!ev.contains(GestureEvent::PrimaryDown));
        },
        Some(r) => {
            let (index, middle) = step_pinches(s, r);
            if index.pinched && middle.pinched {
                assert(!ev.contains(GestureEvent::DoubleClick));
                assert(!ev.contains(GestureEvent::PrimaryDown));
            } else {
                lemma_click_events(s, index, middle, now_ms);
            }
        },
    }
}

/// A held index pinch is one activation: a frame that reports `DoubleClick`
/// marks the index pinch spent, and while a spent index pinch stays held no
/// frame reports `DoubleClick` or `PrimaryDown` and the mark stays; only
/// releasing the index pinch (or losing the hand) clears it.
pub proof fn law_double_click_spends_the_pinch(s: GestureView, reading: Option<HandReading>, now_ms: u64)
    requires
        gesture_inv(s),
    ensures
        gesture_step(s, reading, now_ms).1.contains(GestureEvent::DoubleClick)
            ==> gesture_step(s, reading, now_ms).0.index_spent,
        s.index_spent && gesture_step(s, reading, now_ms).0.index.pinched ==> {
            &&& !gesture_step(s, reading, now_ms).1.contains(GestureEvent::DoubleClick)
            &&& !gesture_step(s, reading, now_ms).1.contains(GestureEvent::PrimaryDown)
            &&& gesture_step(s, reading, now_ms).0.index_spent
        },
        gesture_step(s, reading, now_ms).0.index_spent ==> gesture_step(s, reading, now_ms).0.index.pinched,
{
    broadcast use {
        vstd::seq_lib::lemma_seq_concat_contains_all_elements,
        vstd::seq_lib::lemma_seq_contains,
        vstd::seq_lib::lemma_seq_empty_contains_nothing,
    };
    law_step_keeps_invariant(s, reading, now_ms);
    let ev = gesture_step(s, reading, now_ms).1;
    match reading {
        None => {
            assert(!ev.contains(GestureEvent::DoubleClick));
        },
        Some(r) => {
            let (index, middle) = step_pinches(s, r);
            if index.pinched && middle.pinched {
                assert(!ev.contains(GestureEvent::DoubleClick));
                assert(!ev.contains(GestureEvent::PrimaryDown));
            } else {
                lemma_click_events(s, index, middle, now_ms);
            }
        },
    }
}

/// Whether the index pinch is held after each of the frames `frames` fed to `s`.
pub open spec fn index_held_throughout(s: GestureView, frames: Seq<(Option<HandReading>, u64)>) -> bool
    decreases frames.len(),
{
    if frames.len() == 0 {
        true
    } else {
        index_held_throughout(s, frames.drop_last()) && gesture_run(s, frames).0.index.pinched
    }
}

/// Two quick pinches give one double click: after the frame that reports
/// `DoubleClick`, as long as the same index pinch stays held, no further
/// `DoubleClick` or `PrimaryDown` is reported.
pub proof fn law_held_pinch_after_double_click_is_quiet(s: GestureView, frames: Seq<(Option<HandReading>, u64)>)
    requires
        gesture_inv(s),
        s.index_spent,
        index_held_throughout(s, frames),
    ensures
        !gesture_run(s, frames).1.contains(GestureEvent::DoubleClick),
        !gesture_run(s, frames).1.contains(GestureEvent::PrimaryDown),
        gesture_run(s, frames).0.index_spent,
    decreases frames.len(),
{
    broadcast use {
        vstd::seq_lib::lemma_seq_concat_contains_all_elements,
        vstd::seq_lib::lemma_seq_empty_contains_nothing,
    };
    if frames.len() > 0 {
        let prefix = frames.drop_last();
        law_held_pinch_after_double_click_is_quiet(s, prefix);
        law_button_events_alternate(s, prefix);
        let prev = gesture_run(s, prefix);
        law_double_click_spends_the_pinch(prev.0, frames.last().0, frames.last().1);
    }
}

/// `Scroll` is only reported while a scroll already in progress continues
/// and the palm left the dead zone.
pub proof fn law_scroll_needs_scroll_in_progress(s: GestureView, reading: Option<HandReading>, now_ms: u64)
    ensures
        gesture_step(s, reading, now_ms).1.contains(GestureEvent::Scroll) ==> {
            &&& s.scrolling
            &&& gesture_step(s, reading, now_ms).0.scrolling
            &&& reading is Some
            &&& reading->0.scroll_beyond_deadzone
        },
{
    broadcast use {
        vstd::seq_lib::lemma_seq_concat_contains_all_elements,
        vstd::seq_lib::lemma_seq_contains,
        vstd::seq_lib::lemma_seq_empty_contains_nothing,
    };
}

/// Turns per-frame hand readings into gestures; see `gesture_step`.
pub struct GestureRecognizer {
    is_primary_down: bool,
    is_secondary_down: bool,
    is_scrolling: bool,
    last_primary_release_ms: Option<u64>,
    index_spent: bool,
    index_pinch: DebouncedPinch,
    middle_pinch: DebouncedPinch,
    start_time: std::time::Instant,
}

impl View for GestureRecognizer {
    type V = GestureView;

    closed spec fn view(&self) -> GestureView {
        GestureView {
            primary_down: self.is_primary_down,
            secondary_down: self.is_secondary_down,
            scrolling: self.is_scrolling,
            last_primary_release_ms: self.last_primary_release_ms,
            index_spent: self.index_spent,
            index: self.index_pinch@,
            middle: self.middle_pinch@,
        }
    }
}

impl GestureRecognizer {
    #[verifier::type_invariant]
    closed spec fn inv(self) -> bool {
        gesture_inv(self@)
    }

    pub fn new() -> (g: Self)
        ensures
            g@ == gesture_fresh(),
            gesture_inv(g@),
    {
        GestureRecognizer {
            is_primary_down: false,
            is_secondary_down: false,
            is_scrolling: false,
            last_primary_release_ms: None,
            index_spent: false,
            index_pinch: DebouncedPinch::new(),
            middle_pinch: DebouncedPinch::new(),
            start_time: instant_now(),
        }
    }

    /// The instant the recognizer was created: double-click timing is
    /// measured from it.
    pub closed spec fn clock_origin(&self) -> std::time::Instant {
        self.start_time
    }

    /// Whether a scroll is in progress.
    pub fn is_scrolling(&self) -> (b: bool)
        ensures
            b == self@.scrolling,
    {
        self.is_scrolling
    }

    /// Whole milliseconds since the recognizer was created.
    fn now_ms(&self) -> u64 {
        let elapsed = instant_elapsed(&self.start_time);
        let ms = duration_as_millis(&elapsed);
        ms as u64
    }

    /// One frame, with the clock read from the recognizer's start time.
    pub fn process(&mut self, hand: Option<HandReading>) -> (events: Vec<GestureEvent>)
        ensures
            exists|now_ms: u64| gesture_step(old(self)@, hand, now_ms) == (final(self)@, events@),
            gesture_inv(final(self)@),
            final(self).clock_origin() == old(self).clock_origin(),
    {
        let now = self.now_ms();
        self.process_at(hand, now)
    }

    /// One frame at `now_ms` milliseconds after the recognizer started.
    pub fn process_at(&mut self, hand: Option<HandReading>, now_ms: u64) -> (events: Vec<GestureEvent>)
        ensures
            gesture_step(old(self)@, hand, now_ms) == (final(self)@, events@),
            gesture_inv(old(self)@),
            gesture_inv(final(self)@),
            final(self).clock_origin() == old(self).clock_origin(),
    {
        proof {
            use_type_invariant(&*self);
        }
        let mut events: Vec<GestureEvent> = Vec::new();
        let reading = match hand {
            Some(r) => r,
            None => {
                // Never leave a mouse button held when the camera loses the
                // hand.
                if self.is_primary_down {
                    events.push(GestureEvent::PrimaryUp);
                }
                if self.is_secondary_down {
                    events.push(GestureEvent::SecondaryUp);
                }
                events.push(GestureEvent::HandLost);
                *self = GestureRecognizer {
                    is_primary_down: false,
                    is_secondary_down: false,
                    is_scrolling: false,
                    last_primary_release_ms: self.last_primary_release_ms,
                    index_spent: false,
                    index_pinch: DebouncedPinch::new(),
                    middle_pinch: DebouncedPinch::new(),
                    start_time: self.start_time,
                };
                return events;
            },
        };
        events.push(GestureEvent::Move);
        let mut index_pinch = self.index_pinch;
        let mut middle_pinch = self.middle_pinch;
        let index_pinched = index_pinch.update(
            reading.index_raw_pinched,
            reading.index_raw_released,
            PINCH_CONFIRM_FRAMES,
        );
        let middle_pinched = middle_pinch.update(
            reading.middle_raw_pinched,
            reading.middle_raw_released,
            PINCH_CONFIRM_FRAMES,
        );

        // Thumb + index + middle pinch: scroll. Clicks are suppressed, and a
        // button held when the scroll began is released.
        if index_pinched && middle_pinched {
            if self.is_scrolling && reading.scroll_beyond_deadzone {
                events.push(GestureEvent::Scroll);
            }
            if self.is_primary_down {
                events.push(GestureEvent::PrimaryUp);
            }
            if self.is_secondary_down {
                events.push(GestureEvent::SecondaryUp);
            }
            *self = GestureRecognizer {
                is_primary_down: false,
                is_secondary_down: false,
                is_scrolling: true,
                last_primary_release_ms: self.last_primary_release_ms,
                index_spent: self.index_spent,
                index_pinch,
                middle_pinch,
                start_time: self.start_time,
            };
            return events;
        }

        // Primary click / drag: only while the middle finger is not pinched,
        // and not with an index pinch that already made a double click.
        let mut primary_down = self.is_primary_down;
        let mut last_release = self.last_primary_release_ms;
        let mut index_spent = self.index_spent && index_pinched;
        if index_pinched && !middle_pinched && !primary_down && !self.index_spent {
            // Two primary activations close together are a double click.
            let double = match last_release {
                Some(previous_release) => now_ms.saturating_sub(previous_release) <= DOUBLE_CLICK_MS,
                None => false,
            };
            if double {
                index_spent = true;
                events.push(GestureEvent::DoubleClick);
            } else {
                primary_down = true;
                events.push(GestureEvent::PrimaryDown);
            }
        } else if !index_pinched && primary_down {
            primary_down = false;
            last_release = Some(now_ms);
            events.push(GestureEvent::PrimaryUp);
        }

        // Secondary click / drag: only while the index finger is not pinched.
        let mut secondary_down = self.is_secondary_down;
        if middle_pinched && !index_pinched && !secondary_down {
            secondary_down = true;
            events.push(GestureEvent::SecondaryDown);
        } else if !middle_pinched && secondary_down {
            secondary_down = false;
            events.push(GestureEvent::SecondaryUp);
        }

        *self = GestureRecognizer {
            is_primary_down: primary_down,
            is_secondary_down: secondary_down,
            is_scrolling: false,
            last_primary_release_ms: last_release,
            index_spent,
            index_pinch,
            middle_pinch,
            start_time: self.start_time,
        };
        events
    }
}

} // verus!
