use boat::camera::{CameraMode, KeyboardState, HID_KEY_TAB};
use boat::error::{GeometryProbeError, Ui4Error};
use boat::frame::{FrameControls, ServiceAction, ServiceEvent, ServicePhase};
use boat::interaction::{CursorIcon, CursorSource, Extent, PointerEvent};

const FRAME: Extent = Extent { width: 784, height: 441 };
const OUTPUT: Extent = Extent { width: 1920, height: 1080 };

fn press_on_grip() -> PointerEvent {
    PointerEvent {
        source: CursorSource(1),
        local_x: 780,
        local_y: 438,
        x: 1000,
        y: 600,
        primary_pressed: true,
        primary_released: false,
        primary_down: true,
    }
}

fn to_resizes(controls: &mut FrameControls, elapsed: u64) {
    controls.begin(elapsed);
    controls.advance(ServiceEvent::Keyboard(Ok(None)));
    let action = controls.advance(ServiceEvent::CameraStepped(Ok(())));
    assert_eq!(action, ServiceAction::TakeResize);
}

fn to_pointers(controls: &mut FrameControls, elapsed: u64) {
    to_resizes(controls, elapsed);
    let action = controls.advance(ServiceEvent::ResizeTaken(Ok(None), FRAME));
    assert_eq!(action, ServiceAction::ReadOutput);
    let action = controls.advance(ServiceEvent::OutputRead(Ok(OUTPUT)));
    assert_eq!(action, ServiceAction::TakePointer);
}

#[test]
fn a_quiet_frame_is_ready() {
    let mut controls = FrameControls::new();
    assert_eq!(controls.begin(40), ServiceAction::ReadKeyboard);
    assert_eq!(
        controls.advance(ServiceEvent::Keyboard(Ok(None))),
        ServiceAction::StepCamera { follow: None, delta_millis: 40 }
    );
    to_pointers(&mut controls, 56);
    assert_eq!(controls.delta_millis, 16);
    assert_eq!(
        controls.advance(ServiceEvent::PointerTaken(Ok(None), FRAME)),
        ServiceAction::Ready
    );
    assert_eq!(controls.phase, ServicePhase::Ended);
}

#[test]
fn time_that_runs_backwards_counts_as_none() {
    let mut controls = FrameControls::new();
    controls.begin(100);
    controls.begin(70);
    assert_eq!(controls.delta_millis, 0);
    controls.begin(75);
    assert_eq!(controls.delta_millis, 5);
}

#[test]
fn tab_follows_a_ship() {
    let mut controls = FrameControls::new();
    controls.begin(16);
    let tab = KeyboardState { down: vec![HID_KEY_TAB] };
    assert_eq!(
        controls.advance(ServiceEvent::Keyboard(Ok(Some(tab)))),
        ServiceAction::StepCamera { follow: Some(0), delta_millis: 16 }
    );
    assert_eq!(controls.camera.mode, CameraMode::BirdFollow(0));
}

#[test]
fn the_last_resize_request_wins() {
    let mut controls = FrameControls::new();
    to_resizes(&mut controls, 0);
    let first = Extent { width: 300, height: 200 };
    let last = Extent { width: 640, height: 360 };
    assert_eq!(
        controls.advance(ServiceEvent::ResizeTaken(Ok(Some(first)), FRAME)),
        ServiceAction::TakeResize
    );
    assert_eq!(
        controls.advance(ServiceEvent::ResizeTaken(Ok(Some(last)), FRAME)),
        ServiceAction::TakeResize
    );
    assert_eq!(
        controls.advance(ServiceEvent::ResizeTaken(Ok(None), FRAME)),
        ServiceAction::Resize(last)
    );
    assert_eq!(
        controls.advance(ServiceEvent::Resized(Ok(()))),
        ServiceAction::ReadOutput
    );
}

#[test]
fn a_request_for_the_present_size_is_passed_over() {
    let mut controls = FrameControls::new();
    to_resizes(&mut controls, 0);
    controls.advance(ServiceEvent::ResizeTaken(Ok(Some(FRAME)), FRAME));
    assert_eq!(
        controls.advance(ServiceEvent::ResizeTaken(Ok(None), FRAME)),
        ServiceAction::ReadOutput
    );
}

#[test]
fn pointer_events_add_up_to_a_live_resize() {
    let mut controls = FrameControls::new();
    to_pointers(&mut controls, 0);
    let press = press_on_grip();
    match controls.advance(ServiceEvent::PointerTaken(Ok(Some(press)), FRAME)) {
        ServiceAction::RoutePointer(event, route) => {
            assert_eq!(event, press);
            assert!(!route.camera);
            assert_eq!(route.icon, CursorIcon::ResizeDiagonal);
        }
        other => panic!("{other:?}"),
    }
    assert_eq!(
        controls.advance(ServiceEvent::CursorSet(Ok(()))),
        ServiceAction::TakePointer
    );
    let moved = PointerEvent { x: 1016, y: 609, primary_pressed: false, ..press };
    controls.advance(ServiceEvent::PointerTaken(Ok(Some(moved)), FRAME));
    controls.advance(ServiceEvent::CursorSet(Ok(())));
    assert_eq!(
        controls.advance(ServiceEvent::PointerTaken(Ok(None), FRAME)),
        ServiceAction::Resize(Extent { width: 800, height: 450 })
    );
    assert!(controls.resize_drag.is_some());
    assert_eq!(
        controls.advance(ServiceEvent::Resized(Ok(()))),
        ServiceAction::Ready
    );

    // The drag goes on in the next frame.
    let larger = Extent { width: 800, height: 450 };
    to_pointers(&mut controls, 16);
    let released = PointerEvent {
        primary_pressed: false,
        primary_released: true,
        primary_down: false,
        ..press
    };
    controls.advance(ServiceEvent::PointerTaken(Ok(Some(released)), larger));
    controls.advance(ServiceEvent::CursorSet(Ok(())));
    assert_eq!(
        controls.advance(ServiceEvent::PointerTaken(Ok(None), larger)),
        ServiceAction::Resize(FRAME)
    );
    assert!(controls.resize_drag.is_none());
}

#[test]
fn every_failure_is_reported_under_its_call() {
    let fail = |name, error| ServiceAction::Fail(GeometryProbeError::Ui4(name, error));
    let error = Ui4Error::InvalidState;

    let mut controls = FrameControls::new();
    controls.begin(0);
    assert_eq!(
        controls.advance(ServiceEvent::Keyboard(Err(error))),
        fail("fleet-camera-hotkeys", error)
    );

    let mut controls = FrameControls::new();
    controls.begin(0);
    controls.advance(ServiceEvent::Keyboard(Ok(None)));
    assert_eq!(
        controls.advance(ServiceEvent::CameraStepped(Err(error))),
        fail("flycam-ui4", error)
    );

    let mut controls = FrameControls::new();
    to_resizes(&mut controls, 0);
    assert_eq!(
        controls.advance(ServiceEvent::ResizeTaken(Err(error), FRAME)),
        fail("resize-event", error)
    );

    let mut controls = FrameControls::new();
    to_resizes(&mut controls, 0);
    controls.advance(ServiceEvent::ResizeTaken(Ok(Some(OUTPUT)), FRAME));
    controls.advance(ServiceEvent::ResizeTaken(Ok(None), FRAME));
    assert_eq!(
        controls.advance(ServiceEvent::Resized(Err(error))),
        fail("maximize-resize", error)
    );

    let mut controls = FrameControls::new();
    to_resizes(&mut controls, 0);
    controls.advance(ServiceEvent::ResizeTaken(Ok(None), FRAME));
    assert_eq!(
        controls.advance(ServiceEvent::OutputRead(Err(error))),
        fail("output-extent", error)
    );

    let mut controls = FrameControls::new();
    to_pointers(&mut controls, 0);
    assert_eq!(
        controls.advance(ServiceEvent::PointerTaken(Err(error), FRAME)),
        fail("pointer-event", error)
    );

    let mut controls = FrameControls::new();
    to_pointers(&mut controls, 0);
    controls.advance(ServiceEvent::PointerTaken(Ok(Some(press_on_grip())), FRAME));
    assert_eq!(
        controls.advance(ServiceEvent::CursorSet(Err(error))),
        fail("resize-cursor", error)
    );
    assert!(controls.resize_drag.is_none());

    let mut controls = FrameControls::new();
    to_pointers(&mut controls, 0);
    controls.advance(ServiceEvent::PointerTaken(Ok(Some(press_on_grip())), FRAME));
    controls.advance(ServiceEvent::CursorSet(Ok(())));
    let smaller = Extent { width: 700, height: 400 };
    assert_eq!(
        controls.advance(ServiceEvent::PointerTaken(Ok(None), smaller)),
        ServiceAction::Resize(FRAME)
    );
    assert_eq!(
        controls.advance(ServiceEvent::Resized(Err(error))),
        fail("live-resize", error)
    );
}

#[test]
fn a_drag_is_judged_against_an_output_that_holds_the_least_size() {
    let small = Extent { width: 120, height: 1080 };
    let mut controls = FrameControls::new();
    to_resizes(&mut controls, 0);
    controls.advance(ServiceEvent::ResizeTaken(Ok(None), FRAME));
    controls.advance(ServiceEvent::OutputRead(Ok(small)));
    let aside = PointerEvent { local_x: 10, ..press_on_grip() };
    let taken = ServiceEvent::PointerTaken(Ok(Some(aside)), FRAME);
    assert!(controls.judges(&taken));
    controls.advance(taken);
    assert!(controls.judges(&ServiceEvent::CursorSet(Ok(()))));
    controls.advance(ServiceEvent::CursorSet(Ok(())));
    controls.advance(ServiceEvent::PointerTaken(Ok(Some(press_on_grip())), FRAME));
    assert!(!controls.judges(&ServiceEvent::CursorSet(Ok(()))));
    assert!(controls.judges(&ServiceEvent::CursorSet(Err(Ui4Error::Busy))));
}
