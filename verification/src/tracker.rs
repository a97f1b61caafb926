//! The integer side of the hand tracker: where in the frame to crop the
//! tracked region, how the model input tensor is laid out, and how long the
//! last detected hand is held through low-confidence frames.

use vstd::prelude::*;

verus! {

/// Low-confidence frames through which the last detected hand is still
/// reported before tracking is dropped.
pub const CONFIDENCE_HOLD_FRAMES: u32 = 5;

/// `v` limited to `[lo, hi]`.
pub open spec fn clamp_int(v: int, lo: int, hi: int) -> int {
    if v < lo {
        lo
    } else if v > hi {
        hi
    } else {
        v
    }
}

/// A pixel rectangle of the frame.
#[derive(Clone, Copy, PartialEq, Eq, Structural, Debug)]
pub struct CropRect {
    pub x: i32,
    pub y: i32,
    pub width: i32,
    pub height: i32,
}

/// The crop of a `frame_width` x `frame_height` frame for a square region of
/// interest whose corner and side, rounded to whole pixels, are `x0`, `y0`
/// and `size`: the corner is clamped into the frame, and each side to at
/// least one pixel and at most what is left of the frame past the corner.
pub open spec fn crop_rect_spec(frame_width: int, frame_height: int, x0: int, y0: int, size: int) -> CropRect {
    let x = clamp_int(x0, 0, frame_width - 1);
    let y = clamp_int(y0, 0, frame_height - 1);
    CropRect {
        x: x as i32,
        y: y as i32,
        width: clamp_int(size, 1, frame_width - x) as i32,
        height: clamp_int(size, 1, frame_height - y) as i32,
    }
}

fn clamp_i64(v: i64, lo: i64, hi: i64) -> (r: i64)
    requires
        lo <= hi,
    ensures
        r == clamp_int(v as int, lo as int, hi as int),
{
    if v < lo {
        lo
    } else if v > hi {
        hi
    } else {
        v
    }
}

/// The crop rectangle of a frame for a rounded region of interest. The
/// rectangle always lies inside the frame and is at least one pixel wide and
/// high.
pub fn crop_rect(frame_width: i32, frame_height: i32, x0: i64, y0: i64, size: i64) -> (r: CropRect)
    requires
        frame_width >= 1,
        frame_height >= 1,
    ensures
        r == crop_rect_spec(frame_width as int, frame_height as int, x0 as int, y0 as int, size as int),
        0 <= r.x < frame_width,
        0 <= r.y < frame_height,
        1 <= r.width,
        1 <= r.height,
        r.x + r.width <= frame_width,
        r.y + r.height <= frame_height,
{
    let fw = frame_width as i64;
    let fh = frame_height as i64;
    let x = clamp_i64(x0, 0, fw - 1);
    let y = clamp_i64(y0, 0, fh - 1);
    let width = clamp_i64(size, 1, fw - x);
    let height = clamp_i64(size, 1, fh - y);
    CropRect { x: x as i32, y: y as i32, width: width as i32, height: height as i32 }
}

/// What the tracker does with a frame after reading the model's confidence.
#[derive(Clone, Copy, PartialEq, Eq, Structural, Debug)]
pub enum ConfidenceOutcome {
    /// Confident: use this frame's landmarks.
    Accept,
    /// Not confident, but recently tracked: report the last hand again.
    HoldLast,
    /// Not confident for too long: forget the region and the last hand.
    Drop,
}

/// The outcome and the new miss count for one frame, from the previous miss
/// count: a confident frame clears the count; an unconfident one increments
/// it (saturating) and holds the last hand while the count is at most
/// `CONFIDENCE_HOLD_FRAMES`.
pub open spec fn confidence_step(misses: u32, confident: bool) -> (u32, ConfidenceOutcome) {
    if confident {
        (0, ConfidenceOutcome::Accept)
    } else {
        let m = if misses == u32::MAX { u32::MAX } else { (misses + 1) as u32 };
        (m, if m <= CONFIDENCE_HOLD_FRAMES { ConfidenceOutcome::HoldLast } else { ConfidenceOutcome::Drop })
    }
}

/// Counts consecutive low-confidence frames of the hand model.
pub struct ConfidenceGate {
    misses: u32,
}

impl View for ConfidenceGate {
    type V = u32;

    closed spec fn view(&self) -> u32 {
        self.misses
    }
}

impl ConfidenceGate {
    pub fn new() -> (g: Self)
        ensures
            g@ == 0,
    {
        ConfidenceGate { misses: 0 }
    }

    /// Records whether this frame's confidence reached the threshold.
    pub fn observe(&mut self, confident: bool) -> (outcome: ConfidenceOutcome)
        ensures
            (final(self)@, outcome) == confidence_step(old(self)@, confident),
    {
        if confident {
            self.misses = 0;
            ConfidenceOutcome::Accept
        } else {
            self.misses = self.misses.saturating_add(1);
            if self.misses <= CONFIDENCE_HOLD_FRAMES {
                ConfidenceOutcome::HoldLast
            } else {
                ConfidenceOutcome::Drop
            }
        }
    }

    /// Consecutive low-confidence frames so far.
    pub fn misses(&self) -> (m: u32)
        ensures
            m == self@,
    {
        self.misses
    }
}

/// The miss count after `n` consecutive unconfident frames from `misses`.
pub open spec fn misses_after(misses: u32, n: nat) -> u32
    decreases n,
{
    if n == 0 {
        misses
    } else {
        confidence_step(misses_after(misses, (n - 1) as nat), false).0
    }
}

/// A confident frame accepts the landmarks and clears the miss count,
/// whatever the count was; an unconfident frame adds one miss (staying at
/// `u32::MAX` once there) and holds the last hand exactly while the new
/// count is at most `CONFIDENCE_HOLD_FRAMES`, dropping it otherwise.
pub proof fn law_confidence_frame(misses: u32)
    ensures
        confidence_step(misses, true).0 == 0,
        confidence_step(misses, true).1 == ConfidenceOutcome::Accept,
        confidence_step(misses, false).0 == (if misses < u32::MAX { misses + 1 } else { misses as int }),
        (confidence_step(misses, false).1 == ConfidenceOutcome::HoldLast) <==> confidence_step(misses, false).0
            <= CONFIDENCE_HOLD_FRAMES,
        (confidence_step(misses, false).1 == ConfidenceOutcome::Drop) <==> confidence_step(misses, false).0
            > CONFIDENCE_HOLD_FRAMES,
{
}

/// After a confident frame, whatever the count before it, the `n`-th
/// unconfident frame in a row holds the last hand exactly when
/// `n <= CONFIDENCE_HOLD_FRAMES`, and drops it after that.
pub proof fn law_confident_frame_restarts_the_hold(misses: u32, n: nat)
    requires
        n >= 1,
    ensures
        confidence_step(misses_after(confidence_step(misses, true).0, (n - 1) as nat), false).1 == (if n
            <= CONFIDENCE_HOLD_FRAMES {
            ConfidenceOutcome::HoldLast
        } else {
            ConfidenceOutcome::Drop
        }),
{
    lemma_misses_after(n);
}

/// The crop corner is the region's corner wherever that lies in the frame,
/// and the nearest frame pixel otherwise; each side is the region's side
/// wherever it fits between one pixel and the frame edge past the corner,
/// and the nearest of those limits otherwise.
pub proof fn law_crop_follows_region(frame_width: int, frame_height: int, x0: int, y0: int, size: int)
    requires
        1 <= frame_width <= i32::MAX,
        1 <= frame_height <= i32::MAX,
    ensures
        ({
            let r = crop_rect_spec(frame_width, frame_height, x0, y0, size);
            &&& 0 <= x0 < frame_width ==> r.x == x0
            &&& x0 < 0 ==> r.x == 0
            &&& x0 >= frame_width ==> r.x == frame_width - 1
            &&& 0 <= y0 < frame_height ==> r.y == y0
            &&& y0 < 0 ==> r.y == 0
            &&& y0 >= frame_height ==> r.y == frame_height - 1
            &&& 1 <= size <= frame_width - r.x ==> r.width == size
            &&& size < 1 ==> r.width == 1
            &&& size > frame_width - r.x ==> r.width == frame_width - r.x
            &&& 1 <= size <= frame_height - r.y ==> r.height == size
            &&& size < 1 ==> r.height == 1
            &&& size > frame_height - r.y ==> r.height == frame_height - r.y
        }),
{
}

/// Low confidence holds the last hand for at most `CONFIDENCE_HOLD_FRAMES`
/// consecutive frames: the `n`-th unconfident frame in a row after a
/// confident one holds exactly when `n <= CONFIDENCE_HOLD_FRAMES`, and every
/// later one drops.
pub proof fn law_hold_is_bounded(n: nat)
    requires
        n >= 1,
    ensures
        confidence_step(misses_after(0, (n - 1) as nat), false).1 == (if n <= CONFIDENCE_HOLD_FRAMES {
            ConfidenceOutcome::HoldLast
        } else {
            ConfidenceOutcome::Drop
        }),
    decreases n,
{
    lemma_misses_after(n);
}

proof fn lemma_misses_after(n: nat)
    ensures
        misses_after(0, n) == (if n >= u32::MAX { u32::MAX as int } else { n as int }),
    decreases n,
{
    if n > 0 {
        lemma_misses_after((n - 1) as nat);
    }
}

/// Position of plane `c`, row `row`, column `col` in the channel-planar
/// layout of a `width` x `height` image.
pub open spec fn planar_index(width: int, height: int, c: int, row: int, col: int) -> int {
    (c * height + row) * width + col
}

/// Position of channel `c` of pixel (`row`, `col`) in an interleaved
/// 3-channel image whose rows start every `row_stride` bytes.
pub open spec fn interleaved_index(row_stride: int, c: int, row: int, col: int) -> int {
    row * row_stride + col * 3 + c
}

proof fn lemma_earlier_row_index(width: int, height: int, q: int, c: int, row: int, col: int)
    requires
        width >= 0,
        height >= 0,
        0 <= c,
        0 <= row < height,
        0 <= col < width,
        c * height + row < q,
    ensures
        planar_index(width, height, c, row, col) < q * width,
{
    assert((c * height + row + 1) * width <= q * width) by (nonlinear_arith)
        requires
            c * height + row + 1 <= q,
            width >= 0,
    ;
    assert((c * height + row + 1) * width == (c * height + row) * width + width) by (nonlinear_arith);
}

proof fn lemma_source_in_bounds(row_stride: int, width: int, height: int, len: int, c: int, row: int, col: int)
    requires
        0 <= c < 3,
        0 <= row < height,
        0 <= col < width,
        row_stride >= width * 3,
        len >= row_stride * height,
    ensures
        0 <= interleaved_index(row_stride, c, row, col) < len,
{
    assert(row * row_stride + row_stride <= row_stride * height) by (nonlinear_arith)
        requires
            row + 1 <= height,
            row_stride >= 0,
    ;
    assert(0 <= row * row_stride) by (nonlinear_arith)
        requires
            row >= 0,
            row_stride >= 0,
    ;
}

/// The model input of an interleaved 3-channel image (rows starting every
/// `row_stride` bytes, `width` x `height` pixels) laid out channel-planar:
/// all of channel 0 row by row, then channel 1, then channel 2. `None` when
/// the rows are too short for `width` pixels or the bytes too few for
/// `height` rows.
pub fn planar_channels(bytes: &[u8], row_stride: usize, width: usize, height: usize) -> (r: Option<Vec<u8>>)
    ensures
        r is None <==> (row_stride < width * 3 || bytes@.len() < row_stride * height),
        r matches Some(v) ==> {
            &&& v@.len() == 3 * width * height
            &&& forall|c: int, row: int, col: int|
                0 <= c < 3 && 0 <= row < height && 0 <= col < width ==> #[trigger] v@[planar_index(
                    width as int,
                    height as int,
                    c,
                    row,
                    col,
                )] == bytes@[interleaved_index(row_stride as int, c, row, col)]
        },
{
    let len = bytes.len();
    let row_bytes = match width.checked_mul(3) {
        Some(n) => n,
        None => {
            assert(row_stride < width * 3);
            return None;
        },
    };
    if row_stride < row_bytes {
        return None;
    }
    let needed = match row_stride.checked_mul(height) {
        Some(n) => n,
        None => {
            assert(len < row_stride * height);
            return None;
        },
    };
    if len < needed {
        return None;
    }
    let ghost w = width as int;
    let ghost h = height as int;
    let ghost st = row_stride as int;
    let mut v: Vec<u8> = Vec::new();
    let mut c: usize = 0;
    while c < 3
        invariant
            0 <= c <= 3,
            st >= w * 3,
            bytes@.len() >= st * h,
            bytes@.len() == len,
            w == width,
            h == height,
            st == row_stride,
            v@.len() == (c * h) * w,
            forall|c2: int, r2: int, col2: int|
                0 <= c2 < c && 0 <= r2 < h && 0 <= col2 < w ==> #[trigger] v@[planar_index(w, h, c2, r2, col2)]
                    == bytes@[interleaved_index(st, c2, r2, col2)],
        decreases 3 - c,
    {
        let mut row: usize = 0;
        while row < height
            invariant
                0 <= c < 3,
                0 <= row <= height,
                st >= w * 3,
                bytes@.len() >= st * h,
                bytes@.len() == len,
                w == width,
                h == height,
                st == row_stride,
                v@.len() == (c * h + row) * w,
                forall|c2: int, r2: int, col2: int|
                    0 <= c2 && 0 <= r2 < h && 0 <= col2 < w && (c2 < c || (c2 == c && r2 < row))
                        ==> #[trigger] v@[planar_index(w, h, c2, r2, col2)]
                        == bytes@[interleaved_index(st, c2, r2, col2)],
            decreases height - row,
        {
            let mut col: usize = 0;
            while col < width
                invariant
                    0 <= c < 3,
                    0 <= row < height,
                    0 <= col <= width,
                    st >= w * 3,
                    bytes@.len() >= st * h,
                    bytes@.len() == len,
                    w == width,
                    h == height,
                    st == row_stride,
                    v@.len() == (c * h + row) * w + col,
                    forall|c2: int, r2: int, col2: int|
                        0 <= c2 && 0 <= r2 < h && 0 <= col2 < w && ((c2 < c || (c2 == c && r2 < row))
                            || (c2 == c && r2 == row && col2 < col))
                            ==> #[trigger] v@[planar_index(w, h, c2, r2, col2)]
                            == bytes@[interleaved_index(st, c2, r2, col2)],
                decreases width - col,
            {
                proof {
                    lemma_source_in_bounds(st, w, h, bytes@.len() as int, c as int, row as int, col as int);
                }
                assert(row * row_stride <= interleaved_index(st, c as int, row as int, col as int));
                let src = row * row_stride + col * 3 + c;
                let ghost old_v = v@;
                v.push(bytes[src]);
                proof {
                    assert forall|c2: int, r2: int, col2: int|
                        0 <= c2 && 0 <= r2 < h && 0 <= col2 < w && ((c2 < c || (c2 == c && r2 < row))
                            || (c2 == c && r2 == row && col2 < col + 1))
                            implies #[trigger] v@[planar_index(w, h, c2, r2, col2)]
                            == bytes@[interleaved_index(st, c2, r2, col2)] by {
                        if c2 == c && r2 == row && col2 == col {
                            assert(planar_index(w, h, c2, r2, col2) == old_v.len());
                        } else if c2 == c && r2 == row {
                            assert(planar_index(w, h, c2, r2, col2) < old_v.len());
                        } else {
                            assert(c2 * h + r2 < c * h + row) by (nonlinear_arith)
                                requires
                                    (c2 < c && 0 <= r2 < h) || (c2 == c && r2 < row),
                                    0 <= c2,
                                    row >= 0,
                            ;
                            lemma_earlier_row_index(w, h, c * h + row, c2, r2, col2);
                            assert(planar_index(w, h, c2, r2, col2) < old_v.len()) by (nonlinear_arith)
                                requires
                                    planar_index(w, h, c2, r2, col2) < (c * h + row) * w,
                                    old_v.len() == (c * h + row) * w + col,
                                    col >= 0,
                            ;
                        }
                    }
                }
                col = col + 1;
            }
            proof {
                assert((c * h + row) * w + w == (c * h + row + 1) * w) by (nonlinear_arith);
            }
            row = row + 1;
        }
        proof {
            assert((c * h + h) * w == ((c + 1) * h) * w) by (nonlinear_arith);
        }
        c = c + 1;
    }
    proof {
        assert((3 * h) * w == 3 * w * h) by (nonlinear_arith);
    }
    Some(v)
}

} // verus!
