use palmar_velle::mouse::{
    button_writes, double_click_writes, motion_writes, wheel_writes, DeviceWrite, MouseButton,
};

#[test]
fn button_press_and_release() {
    assert_eq!(
        button_writes(MouseButton::Left, true),
        vec![DeviceWrite::Button(MouseButton::Left, 1), DeviceWrite::Sync]
    );
    assert_eq!(
        button_writes(MouseButton::Right, false),
        vec![DeviceWrite::Button(MouseButton::Right, 0), DeviceWrite::Sync]
    );
}

#[test]
fn double_click_is_two_clicks_with_a_pause() {
    let down = DeviceWrite::Button(MouseButton::Left, 1);
    let up = DeviceWrite::Button(MouseButton::Left, 0);
    assert_eq!(
        double_click_writes(),
        vec![
            down,
            DeviceWrite::Sync,
            up,
            DeviceWrite::Sync,
            DeviceWrite::PauseMs(60),
            down,
            DeviceWrite::Sync,
            up,
            DeviceWrite::Sync
        ]
    );
}

#[test]
fn motion_writes_nonzero_axes() {
    assert_eq!(motion_writes(0, 0), vec![]);
    assert_eq!(motion_writes(3, 0), vec![DeviceWrite::RelX(3), DeviceWrite::Sync]);
    assert_eq!(motion_writes(0, -4), vec![DeviceWrite::RelY(-4), DeviceWrite::Sync]);
    assert_eq!(
        motion_writes(-1, 2),
        vec![DeviceWrite::RelX(-1), DeviceWrite::RelY(2), DeviceWrite::Sync]
    );
}

#[test]
fn wheel_writes_nothing_for_zero() {
    assert_eq!(wheel_writes(0), vec![]);
    assert_eq!(wheel_writes(-120), vec![DeviceWrite::Wheel(-120), DeviceWrite::Sync]);
}
