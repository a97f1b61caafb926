//! What the virtual mouse writes to its input device for each action: a
//! relative-motion mouse with left and right buttons and a vertical wheel.
//! Every batch of writes ends with a synchronization report, so the kernel
//! applies it as one event.

use vstd::prelude::*;

verus! {

/// Pause between the two clicks of a double click, in milliseconds.
pub const DOUBLE_CLICK_GAP_MS: u64 = 60;

#[derive(Clone, Copy, PartialEq, Eq, Structural, Debug)]
pub enum MouseButton {
    Left,
    Right,
}

/// One write to the virtual input device, or a pause between writes.
#[derive(Clone, Copy, PartialEq, Eq, Structural, Debug)]
pub enum DeviceWrite {
    /// Button state: 1 pressed, 0 released.
    Button(MouseButton, i32),
    /// Relative horizontal motion.
    RelX(i32),
    /// Relative vertical motion.
    RelY(i32),
    /// Vertical wheel motion.
    Wheel(i32),
    /// Synchronization report: the writes before it form one event.
    Sync,
    /// Wait this many milliseconds before the next write.
    PauseMs(u64),
}

/// The writes of a button press (`pressed`) or release.
pub open spec fn button_plan(button: MouseButton, pressed: bool) -> Seq<DeviceWrite> {
    seq![DeviceWrite::Button(button, if pressed { 1 } else { 0 }), DeviceWrite::Sync]
}

/// Press or release a button.
pub fn button_writes(button: MouseButton, pressed: bool) -> (w: Vec<DeviceWrite>)
    ensures
        w@ == button_plan(button, pressed),
{
    let value: i32 = if pressed { 1 } else { 0 };
    let mut w: Vec<DeviceWrite> = Vec::new();
    w.push(DeviceWrite::Button(button, value));
    w.push(DeviceWrite::Sync);
    w
}

/// The writes of a double click: two full left clicks, a short pause apart.
pub open spec fn double_click_plan() -> Seq<DeviceWrite> {
    button_plan(MouseButton::Left, true) + button_plan(MouseButton::Left, false) + seq![
        DeviceWrite::PauseMs(DOUBLE_CLICK_GAP_MS),
    ] + button_plan(MouseButton::Left, true) + button_plan(MouseButton::Left, false)
}

/// A double click of the left button.
pub fn double_click_writes() -> (w: Vec<DeviceWrite>)
    ensures
        w@ == double_click_plan(),
{
    let mut w = button_writes(MouseButton::Left, true);
    let mut up = button_writes(MouseButton::Left, false);
    w.append(&mut up);
    w.push(DeviceWrite::PauseMs(DOUBLE_CLICK_GAP_MS));
    let mut down2 = button_writes(MouseButton::Left, true);
    w.append(&mut down2);
    let mut up2 = button_writes(MouseButton::Left, false);
    w.append(&mut up2);
    w
}

/// The writes of a relative cursor motion: each nonzero axis, then a
/// synchronization when anything moved.
pub open spec fn motion_plan(dx: i32, dy: i32) -> Seq<DeviceWrite> {
    (if dx != 0 { seq![DeviceWrite::RelX(dx)] } else { Seq::empty() }) + (if dy != 0 {
        seq![DeviceWrite::RelY(dy)]
    } else {
        Seq::empty()
    }) + (if dx != 0 || dy != 0 { seq![DeviceWrite::Sync] } else { Seq::empty() })
}

/// Move the cursor by whole device units.
pub fn motion_writes(dx: i32, dy: i32) -> (w: Vec<DeviceWrite>)
    ensures
        w@ == motion_plan(dx, dy),
{
    let mut w: Vec<DeviceWrite> = Vec::new();
    if dx != 0 {
        w.push(DeviceWrite::RelX(dx));
    }
    if dy != 0 {
        w.push(DeviceWrite::RelY(dy));
    }
    if dx != 0 || dy != 0 {
        w.push(DeviceWrite::Sync);
    }
    proof {
        assert(w@ =~= motion_plan(dx, dy));
    }
    w
}

/// The writes of a wheel turn of `value` units: none for zero.
pub open spec fn wheel_plan(value: i32) -> Seq<DeviceWrite> {
    if value == 0 {
        Seq::empty()
    } else {
        seq![DeviceWrite::Wheel(value), DeviceWrite::Sync]
    }
}

/// Turn the vertical wheel.
pub fn wheel_writes(value: i32) -> (w: Vec<DeviceWrite>)
    ensures
        w@ == wheel_plan(value),
{
    let mut w: Vec<DeviceWrite> = Vec::new();
    if value != 0 {
        w.push(DeviceWrite::Wheel(value));
        w.push(DeviceWrite::Sync);
    }
    proof {
        assert(w@ =~= wheel_plan(value));
    }
    w
}

/// Each write carries the requested value: a button write sets the given
/// button to 1 when pressed and 0 when released; a cursor motion writes
/// exactly `dx` horizontally and `dy` vertically (each only when nonzero,
/// horizontal first) and nothing else but the final synchronization; a
/// wheel turn writes exactly `value` on the wheel.
pub proof fn law_writes_carry_values(button: MouseButton, pressed: bool, dx: i32, dy: i32, value: i32)
    ensures
        button_plan(button, pressed).len() == 2,
        button_plan(button, pressed)[0] == DeviceWrite::Button(button, if pressed { 1i32 } else { 0i32 }),
        dx != 0 ==> motion_plan(dx, dy)[0] == DeviceWrite::RelX(dx),
        dy != 0 ==> motion_plan(dx, dy)[motion_plan(dx, dy).len() - 2] == DeviceWrite::RelY(dy),
        motion_plan(dx, dy).len() == (if dx != 0 { 1int } else { 0 }) + (if dy != 0 { 1int } else { 0 }) + (
        if dx != 0 || dy != 0 {
            1int
        } else {
            0
        }),
        forall|i: int|
            0 <= i < motion_plan(dx, dy).len() ==> {
                ||| #[trigger] motion_plan(dx, dy)[i] == DeviceWrite::RelX(dx)
                ||| motion_plan(dx, dy)[i] == DeviceWrite::RelY(dy)
                ||| motion_plan(dx, dy)[i] == DeviceWrite::Sync
            },
        value != 0 ==> wheel_plan(value).len() == 2 && wheel_plan(value)[0] == DeviceWrite::Wheel(value),
        forall|i: int|
            0 <= i < wheel_plan(value).len() ==> {
                ||| #[trigger] wheel_plan(value)[i] == DeviceWrite::Wheel(value)
                ||| wheel_plan(value)[i] == DeviceWrite::Sync
            },
{
}

/// A double click is two full clicks of the left button, each a press then
/// a release with a synchronization after every write, separated by a
/// pause of `DOUBLE_CLICK_GAP_MS` milliseconds.
pub proof fn law_double_click_is_two_left_clicks()
    ensures
        double_click_plan().len() == 9,
        double_click_plan()[0] == DeviceWrite::Button(MouseButton::Left, 1),
        double_click_plan()[1] == DeviceWrite::Sync,
        double_click_plan()[2] == DeviceWrite::Button(MouseButton::Left, 0),
        double_click_plan()[3] == DeviceWrite::Sync,
        double_click_plan()[4] == DeviceWrite::PauseMs(DOUBLE_CLICK_GAP_MS),
        double_click_plan()[5] == DeviceWrite::Button(MouseButton::Left, 1),
        double_click_plan()[6] == DeviceWrite::Sync,
        double_click_plan()[7] == DeviceWrite::Button(MouseButton::Left, 0),
        double_click_plan()[8] == DeviceWrite::Sync,
{
}

/// Every batch of device writes that writes anything ends with a
/// synchronization report, and no batch writes nothing but a
/// synchronization.
pub proof fn law_batches_end_in_sync(button: MouseButton, pressed: bool, dx: i32, dy: i32, value: i32)
    ensures
        button_plan(button, pressed).last() == DeviceWrite::Sync,
        double_click_plan().last() == DeviceWrite::Sync,
        motion_plan(dx, dy).len() > 0 ==> motion_plan(dx, dy).last() == DeviceWrite::Sync
            && motion_plan(dx, dy).len() >= 2,
        motion_plan(dx, dy).len() == 0 <==> (dx == 0 && dy == 0),
        wheel_plan(value).len() > 0 ==> wheel_plan(value).last() == DeviceWrite::Sync,
        wheel_plan(value).len() == 0 <==> value == 0,
{
    assert(double_click_plan().last() == DeviceWrite::Sync);
}

} // verus!
