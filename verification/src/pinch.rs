//! A boolean pinch state with hysteresis and a frame-count debounce.

use vstd::prelude::*;

verus! {

/// The observable state of a debounced pinch.
#[derive(Clone, Copy, PartialEq, Eq, Structural, Debug)]
pub struct PinchView {
    /// Whether the pinch is currently considered held.
    pub pinched: bool,
    /// Consecutive frames so far on which the raw pinch condition held
    /// while released.
    pub enter_streak: u32,
    /// Consecutive frames so far on which the raw release condition held
    /// while pinched.
    pub exit_streak: u32,
}

/// The released state with no streak in progress.
pub open spec fn pinch_fresh() -> PinchView {
    PinchView { pinched: false, enter_streak: 0, exit_streak: 0 }
}

/// The states that a debounced pinch can reach: no streak is counted for
/// the direction it is not in, and a streak never reaches `u32::MAX`.
pub open spec fn pinch_wf(s: PinchView) -> bool {
    &&& s.enter_streak < u32::MAX
    &&& s.exit_streak < u32::MAX
    &&& !s.pinched ==> s.exit_streak == 0
    &&& s.pinched ==> s.enter_streak == 0
}

/// One frame of the debounce: while released, a raw pinch extends the enter
/// streak and flips to pinched once the streak reaches `confirm_frames`; any
/// other frame clears the streak. The pinched direction is symmetric with
/// the raw release condition.
pub open spec fn pinch_step(
    s: PinchView,
    raw_pinched: bool,
    raw_released: bool,
    confirm_frames: u32,
) -> PinchView {
    if !s.pinched {
        if raw_pinched {
            if s.enter_streak + 1 >= confirm_frames {
                PinchView { pinched: true, enter_streak: 0, exit_streak: 0 }
            } else {
                PinchView { enter_streak: (s.enter_streak + 1) as u32, ..s }
            }
        } else {
            PinchView { enter_streak: 0, ..s }
        }
    } else {
        if raw_released {
            if s.exit_streak + 1 >= confirm_frames {
                PinchView { pinched: false, enter_streak: 0, exit_streak: 0 }
            } else {
                PinchView { exit_streak: (s.exit_streak + 1) as u32, ..s }
            }
        } else {
            PinchView { exit_streak: 0, ..s }
        }
    }
}

/// The state reached from `start` after feeding it `frames`, each frame a
/// pair `(raw_pinched, raw_released)`, with a fixed `confirm_frames`.
pub open spec fn pinch_run(start: PinchView, frames: Seq<(bool, bool)>, confirm_frames: u32) -> PinchView
    decreases frames.len(),
{
    if frames.len() == 0 {
        start
    } else {
        pinch_step(
            pinch_run(start, frames.drop_last(), confirm_frames),
            frames.last().0,
            frames.last().1,
            confirm_frames,
        )
    }
}

/// How many frames at the end of `frames` have the raw pinch condition.
pub open spec fn trailing_raw_pinched(frames: Seq<(bool, bool)>) -> nat
    decreases frames.len(),
{
    if frames.len() == 0 {
        0
    } else if frames.last().0 {
        trailing_raw_pinched(frames.drop_last()) + 1
    } else {
        0
    }
}

/// How many frames at the end of `frames` have the raw release condition.
pub open spec fn trailing_raw_released(frames: Seq<(bool, bool)>) -> nat
    decreases frames.len(),
{
    if frames.len() == 0 {
        0
    } else if frames.last().1 {
        trailing_raw_released(frames.drop_last()) + 1
    } else {
        0
    }
}

/// A state with no streak in progress, in either direction.
pub open spec fn pinch_settled(s: PinchView) -> bool {
    s.enter_streak == 0 && s.exit_streak == 0
}

/// A run from a settled state stays reachable, and the streak it counts never
/// exceeds the number of trailing frames that had the matching raw condition.
proof fn lemma_streak_bounded(start: PinchView, frames: Seq<(bool, bool)>, confirm_frames: u32)
    requires
        pinch_settled(start),
    ensures
        pinch_wf(pinch_run(start, frames, confirm_frames)),
        !pinch_run(start, frames, confirm_frames).pinched
            ==> pinch_run(start, frames, confirm_frames).enter_streak <= trailing_raw_pinched(frames),
        pinch_run(start, frames, confirm_frames).pinched
            ==> pinch_run(start, frames, confirm_frames).exit_streak <= trailing_raw_released(frames),
    decreases frames.len(),
{
    if frames.len() > 0 {
        lemma_streak_bounded(start, frames.drop_last(), confirm_frames);
    }
}

/// `k` trailing frames with the raw pinch condition means each of the last
/// `k` frames had it.
proof fn lemma_trailing_pinched(frames: Seq<(bool, bool)>, k: int)
    requires
        0 <= k <= trailing_raw_pinched(frames),
    ensures
        k <= frames.len(),
        forall|i: int| frames.len() - k <= i < frames.len() ==> (#[trigger] frames[i]).0,
    decreases frames.len(),
{
    if k > 0 {
        lemma_trailing_pinched(frames.drop_last(), k - 1);
        assert forall|i: int| frames.len() - k <= i < frames.len() implies (#[trigger] frames[i]).0 by {
            if i < frames.len() - 1 {
                assert(frames.drop_last()[i] == frames[i]);
            }
        }
    }
}

/// `k` trailing frames with the raw release condition means each of the last
/// `k` frames had it.
proof fn lemma_trailing_released(frames: Seq<(bool, bool)>, k: int)
    requires
        0 <= k <= trailing_raw_released(frames),
    ensures
        k <= frames.len(),
        forall|i: int| frames.len() - k <= i < frames.len() ==> (#[trigger] frames[i]).1,
    decreases frames.len(),
{
    if k > 0 {
        lemma_trailing_released(frames.drop_last(), k - 1);
        assert forall|i: int| frames.len() - k <= i < frames.len() implies (#[trigger] frames[i]).1 by {
            if i < frames.len() - 1 {
                assert(frames.drop_last()[i] == frames[i]);
            }
        }
    }
}

/// Debounce: starting from a state with no streak in progress, the debounced
/// state only changes on a frame that ends a run of at least `confirm_frames`
/// (and at least one) consecutive frames with the raw condition of the new
/// state: raw pinch for a press, raw release for a release. A single noisy
/// frame never flips it when `confirm_frames >= 2`.
pub proof fn law_flip_needs_consecutive_frames(
    start: PinchView,
    frames: Seq<(bool, bool)>,
    confirm_frames: u32,
)
    requires
        pinch_settled(start),
        frames.len() > 0,
        pinch_run(start, frames.drop_last(), confirm_frames).pinched != pinch_run(
            start,
            frames,
            confirm_frames,
        ).pinched,
    ensures
        frames.len() >= confirm_frames,
        pinch_run(start, frames, confirm_frames).pinched ==> forall|i: int|
            frames.len() - confirm_frames <= i < frames.len() ==> (#[trigger] frames[i]).0,
        pinch_run(start, frames, confirm_frames).pinched ==> frames.last().0,
        !pinch_run(start, frames, confirm_frames).pinched ==> forall|i: int|
            frames.len() - confirm_frames <= i < frames.len() ==> (#[trigger] frames[i]).1,
        !pinch_run(start, frames, confirm_frames).pinched ==> frames.last().1,
{
    let prefix = frames.drop_last();
    lemma_streak_bounded(start, prefix, confirm_frames);
    let k = confirm_frames as int;
    if pinch_run(start, frames, confirm_frames).pinched {
        assert(trailing_raw_pinched(frames) >= k);
        lemma_trailing_pinched(frames, k);
    } else {
        assert(trailing_raw_released(frames) >= k);
        lemma_trailing_released(frames, k);
    }
}

/// How many frames at the end of `frames` came after the last change of the
/// debounced state (all of them when it never changed).
pub open spec fn frames_since_change(start: PinchView, frames: Seq<(bool, bool)>, confirm_frames: u32) -> nat
    decreases frames.len(),
{
    if frames.len() == 0 {
        0
    } else if pinch_run(start, frames, confirm_frames).pinched != pinch_run(
        start,
        frames.drop_last(),
        confirm_frames,
    ).pinched {
        0
    } else {
        frames_since_change(start, frames.drop_last(), confirm_frames) + 1
    }
}

/// The smaller of `a` and `b`.
pub open spec fn min_nat(a: nat, b: nat) -> nat {
    if a <= b { a } else { b }
}

/// From a settled state, the streak counted is exactly the number of trailing
/// frames with the matching raw condition, counting only frames after the
/// last change.
proof fn lemma_streak_exact(start: PinchView, frames: Seq<(bool, bool)>, confirm_frames: u32)
    requires
        pinch_settled(start),
    ensures
        pinch_wf(pinch_run(start, frames, confirm_frames)),
        !pinch_run(start, frames, confirm_frames).pinched ==> pinch_run(start, frames, confirm_frames).enter_streak
            == min_nat(trailing_raw_pinched(frames), frames_since_change(start, frames, confirm_frames)),
        pinch_run(start, frames, confirm_frames).pinched ==> pinch_run(start, frames, confirm_frames).exit_streak
            == min_nat(trailing_raw_released(frames), frames_since_change(start, frames, confirm_frames)),
    decreases frames.len(),
{
    if frames.len() > 0 {
        lemma_streak_exact(start, frames.drop_last(), confirm_frames);
        lemma_streak_bounded(start, frames, confirm_frames);
    }
}

/// Debounce, both directions: from a settled state (such as a new or reset
/// pinch) and with a fixed `confirm_frames >= 1`, a frame changes the
/// debounced state exactly when the raw condition of the change (raw pinch
/// for a press, raw release for a release) held on this frame and on each of
/// the `confirm_frames - 1` frames before it, all of them after the last
/// change.
pub proof fn law_flip_iff_confirmed_streak(start: PinchView, frames: Seq<(bool, bool)>, confirm_frames: u32)
    requires
        pinch_settled(start),
        confirm_frames >= 1,
        frames.len() > 0,
    ensures
        (pinch_run(start, frames, confirm_frames).pinched != pinch_run(start, frames.drop_last(), confirm_frames).pinched)
            <==> (if !pinch_run(start, frames.drop_last(), confirm_frames).pinched {
            &&& trailing_raw_pinched(frames) >= confirm_frames
            &&& frames_since_change(start, frames.drop_last(), confirm_frames) + 1 >= confirm_frames
        } else {
            &&& trailing_raw_released(frames) >= confirm_frames
            &&& frames_since_change(start, frames.drop_last(), confirm_frames) + 1 >= confirm_frames
        }),
{
    lemma_streak_exact(start, frames.drop_last(), confirm_frames);
}

/// `n` frames that all carry the same raw reading.
pub open spec fn steady_frames(n: nat, raw_pinched: bool, raw_released: bool) -> Seq<(bool, bool)> {
    Seq::new(n, |i: int| (raw_pinched, raw_released))
}

proof fn lemma_steady_press(n: nat, confirm_frames: u32)
    ensures
        n < confirm_frames ==> pinch_run(pinch_fresh(), steady_frames(n, true, false), confirm_frames)
            == (PinchView { pinched: false, enter_streak: n as u32, exit_streak: 0 }),
        n >= confirm_frames && n >= 1 ==> pinch_run(pinch_fresh(), steady_frames(n, true, false), confirm_frames)
            == (PinchView { pinched: true, enter_streak: 0, exit_streak: 0 }),
    decreases n,
{
    if n > 0 {
        let m = (n - 1) as nat;
        assert(steady_frames(n, true, false).drop_last() =~= steady_frames(m, true, false));
        lemma_steady_press(m, confirm_frames);
    }
}

proof fn lemma_steady_release(n: nat, confirm_frames: u32)
    ensures
        n < confirm_frames ==> pinch_run(
            PinchView { pinched: true, enter_streak: 0, exit_streak: 0 },
            steady_frames(n, false, true),
            confirm_frames,
        ) == (PinchView { pinched: true, enter_streak: 0, exit_streak: n as u32 }),
        n >= confirm_frames && n >= 1 ==> pinch_run(
            PinchView { pinched: true, enter_streak: 0, exit_streak: 0 },
            steady_frames(n, false, true),
            confirm_frames,
        ) == pinch_fresh(),
    decreases n,
{
    if n > 0 {
        let m = (n - 1) as nat;
        assert(steady_frames(n, false, true).drop_last() =~= steady_frames(m, false, true));
        lemma_steady_release(m, confirm_frames);
    }
}

/// A steady raw pinch presses a released pinch after exactly
/// `max(confirm_frames, 1)` frames, and a steady raw release releases a held
/// pinch after exactly as many frames.
pub proof fn law_steady_condition_flips_after_confirm_frames(n: nat, confirm_frames: u32)
    ensures
        pinch_run(pinch_fresh(), steady_frames(n, true, false), confirm_frames).pinched
            == (n >= confirm_frames && n >= 1),
        pinch_run(
            PinchView { pinched: true, enter_streak: 0, exit_streak: 0 },
            steady_frames(n, false, true),
            confirm_frames,
        ).pinched == !(n >= confirm_frames && n >= 1),
{
    lemma_steady_press(n, confirm_frames);
    lemma_steady_release(n, confirm_frames);
}

/// Tracks a boolean pinch/no-pinch state with a frame-count debounce, so a
/// state change only fires once the new condition has held for several
/// consecutive frames.
#[derive(Clone, Copy)]
pub struct DebouncedPinch {
    is_pinched: bool,
    enter_streak: u32,
    exit_streak: u32,
}

impl View for DebouncedPinch {
    type V = PinchView;

    closed spec fn view(&self) -> PinchView {
        PinchView {
            pinched: self.is_pinched,
            enter_streak: self.enter_streak,
            exit_streak: self.exit_streak,
        }
    }
}

impl DebouncedPinch {
    #[verifier::type_invariant]
    closed spec fn inv(self) -> bool {
        pinch_wf(self@)
    }

    pub fn new() -> (p: Self)
        ensures
            p@ == pinch_fresh(),
            pinch_wf(p@),
    {
        DebouncedPinch { is_pinched: false, enter_streak: 0, exit_streak: 0 }
    }

    /// `raw_pinched` / `raw_released` are this frame's instantaneous
    /// threshold checks (with hysteresis already applied by the caller).
    /// Returns the debounced state for this frame.
    pub fn update(&mut self, raw_pinched: bool, raw_released: bool, confirm_frames: u32) -> (pinched: bool)
        ensures
            final(self)@ == pinch_step(old(self)@, raw_pinched, raw_released, confirm_frames),
            pinched == final(self)@.pinched,
            pinch_wf(old(self)@),
            pinch_wf(final(self)@),
    {
        proof {
            use_type_invariant(&*self);
        }
        if !self.is_pinched {
            if raw_pinched {
                let streak = self.enter_streak + 1;
                if streak >= confirm_frames {
                    *self = DebouncedPinch { is_pinched: true, enter_streak: 0, exit_streak: 0 };
                } else {
                    self.enter_streak = streak;
                }
            } else {
                self.enter_streak = 0;
            }
        } else {
            if raw_released {
                let streak = self.exit_streak + 1;
                if streak >= confirm_frames {
                    *self = DebouncedPinch { is_pinched: false, enter_streak: 0, exit_streak: 0 };
                } else {
                    self.exit_streak = streak;
                }
            } else {
                self.exit_streak = 0;
            }
        }
        self.is_pinched
    }

    /// Back to the released state with no streak in progress.
    pub fn reset(&mut self)
        ensures
            final(self)@ == pinch_fresh(),
            pinch_wf(final(self)@),
    {
        *self = DebouncedPinch { is_pinched: false, enter_streak: 0, exit_streak: 0 };
    }

    /// Whether the pinch is currently considered held.
    pub fn is_pinched(&self) -> (b: bool)
        ensures
            b == self@.pinched,
            pinch_wf(self@),
    {
        proof {
            use_type_invariant(self);
        }
        self.is_pinched
    }
}

} // verus!
