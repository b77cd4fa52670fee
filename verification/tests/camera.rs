use boat::camera::{CameraControl, CameraMode, KeyboardState, FLYCAM_KEYS, HID_KEY_TAB};

fn keys(down: &[u8]) -> KeyboardState {
    KeyboardState { down: down.to_vec() }
}

fn tap(control: &mut CameraControl) -> Option<usize> {
    control.service_camera_mode(Some(&keys(&[HID_KEY_TAB])));
    control.service_camera_mode(Some(&keys(&[])))
}

#[test]
fn taps_cycle_through_the_fleet() {
    let mut control = CameraControl::new();
    assert_eq!(control.mode, CameraMode::Fly);
    assert_eq!(tap(&mut control), Some(0));
    assert_eq!(tap(&mut control), Some(1));
    assert_eq!(tap(&mut control), Some(2));
    assert_eq!(tap(&mut control), Some(0));
    for place in 4..30 {
        assert_eq!(tap(&mut control), Some(place % 3));
    }
}

#[test]
fn a_held_tab_does_not_repeat() {
    let mut control = CameraControl::new();
    let tab = keys(&[HID_KEY_TAB]);
    assert_eq!(control.service_camera_mode(Some(&tab)), Some(0));
    assert_eq!(control.service_camera_mode(Some(&tab)), Some(0));
    assert!(control.tab_down);
}

#[test]
fn every_steering_key_releases_the_camera() {
    for key in FLYCAM_KEYS {
        let mut control = CameraControl::new();
        tap(&mut control);
        assert_eq!(control.service_camera_mode(Some(&keys(&[key, HID_KEY_TAB]))), None);
        assert_eq!(control.mode, CameraMode::Fly);
        // Tab is still down, so it does not count again.
        assert_eq!(control.service_camera_mode(Some(&keys(&[HID_KEY_TAB]))), None);
    }
}

#[test]
fn other_keys_and_no_keyboard_keep_the_mode() {
    let mut control = CameraControl::new();
    tap(&mut control);
    assert_eq!(control.service_camera_mode(Some(&keys(&[0x05, 0x2c]))), Some(0));
    assert_eq!(control.service_camera_mode(None), Some(0));
    assert!(!control.tab_down);
}

#[test]
fn keys_are_looked_up_by_usage() {
    let state = keys(&[0x1a, 0x04]);
    assert!(state.is_down(0x1a));
    assert!(state.is_down(0x04));
    assert!(!state.is_down(HID_KEY_TAB));
}
