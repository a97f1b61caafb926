//! Verified decision logic of a webcam gesture mouse: debounced pinch
//! detection, the gesture state machine that turns per-frame pinch readings
//! into mouse gestures, the confidence gate and crop arithmetic of the hand
//! tracker, and the input-device write plans of the virtual mouse.

pub mod pinch;
pub mod clock;
pub mod gestures;
pub mod tracker;
pub mod mouse;
