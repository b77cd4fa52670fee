use boat::interaction::{
    has_grip, on_grip, resize_to, route, CursorIcon, CursorSource, Extent, PointerEvent, PointerState,
};

const FRAME: Extent = Extent { width: 784, height: 441 };
const OUTPUT: Extent = Extent { width: 1920, height: 1080 };

fn event(source: u64, local: (i32, i32), at: (u32, u32)) -> PointerEvent {
    PointerEvent {
        source: CursorSource(source),
        local_x: local.0,
        local_y: local.1,
        x: at.0,
        y: at.1,
        primary_pressed: false,
        primary_released: false,
        primary_down: false,
    }
}

fn press(source: u64, local: (i32, i32), at: (u32, u32)) -> PointerEvent {
    PointerEvent { primary_pressed: true, primary_down: true, ..event(source, local, at) }
}

fn drag(source: u64, at: (u32, u32)) -> PointerEvent {
    PointerEvent { primary_down: true, ..event(source, (0, 0), at) }
}

fn release(source: u64, at: (u32, u32)) -> PointerEvent {
    PointerEvent { primary_released: true, ..event(source, (0, 0), at) }
}

fn idle() -> PointerState {
    PointerState { drag: None, live_extent: None }
}

#[test]
fn the_grip_is_the_last_sixteen_pixels() {
    assert!(on_grip(&event(1, (768, 425), (0, 0)), FRAME));
    assert!(on_grip(&event(1, (783, 440), (0, 0)), FRAME));
    assert!(!on_grip(&event(1, (767, 430), (0, 0)), FRAME));
    assert!(!on_grip(&event(1, (770, 424), (0, 0)), FRAME));
    assert!(!on_grip(&event(1, (784, 430), (0, 0)), FRAME));
    assert!(!on_grip(&event(1, (770, 441), (0, 0)), FRAME));
    assert!(!on_grip(&event(1, (-1, -1), (0, 0)), FRAME));
}

#[test]
fn a_drag_moves_the_size_with_the_pointer() {
    let mut state = idle();
    state.apply(&press(1, (780, 438), (1000, 600)), FRAME, OUTPUT);
    assert_eq!(state.live_extent, Some(FRAME));
    assert_eq!(resize_to(state.live_extent, FRAME), None);
    state.apply(&drag(1, (1010, 590)), FRAME, OUTPUT);
    assert_eq!(state.live_extent, Some(Extent { width: 794, height: 431 }));
    assert!(state.drag.is_some());
    state.apply(&release(1, (1020, 600)), FRAME, OUTPUT);
    assert_eq!(state.live_extent, Some(Extent { width: 804, height: 441 }));
    assert!(state.drag.is_none());
}

#[test]
fn a_drag_stays_between_the_least_size_and_the_output() {
    let mut state = idle();
    state.apply(&press(1, (780, 438), (1000, 600)), FRAME, OUTPUT);
    state.apply(&drag(1, (0, 0)), FRAME, OUTPUT);
    assert_eq!(state.live_extent, Some(Extent { width: 160, height: 90 }));
    state.apply(&drag(1, (u32::MAX, u32::MAX)), FRAME, OUTPUT);
    assert_eq!(state.live_extent, Some(OUTPUT));
}

#[test]
fn only_a_press_on_the_grip_starts_a_drag() {
    let mut state = idle();
    state.apply(&event(1, (780, 438), (1000, 600)), FRAME, OUTPUT);
    state.apply(&press(1, (400, 200), (500, 300)), FRAME, OUTPUT);
    state.apply(&drag(1, (510, 310)), FRAME, OUTPUT);
    assert_eq!(state, idle());
}

#[test]
fn other_pointers_leave_a_drag_alone() {
    let mut state = idle();
    state.apply(&press(1, (780, 438), (1000, 600)), FRAME, OUTPUT);
    let before = state;
    state.apply(&drag(2, (0, 0)), FRAME, OUTPUT);
    state.apply(&release(2, (0, 0)), FRAME, OUTPUT);
    assert_eq!(state, before);
    state.apply(&press(2, (780, 438), (7, 7)), FRAME, OUTPUT);
    assert_eq!(state.drag.unwrap().source, CursorSource(2));
}

#[test]
fn the_camera_gets_what_the_grip_leaves() {
    let mut state = idle();
    let aside = route(&state.drag, &event(1, (10, 10), (0, 0)), FRAME);
    assert!(aside.camera);
    assert_eq!(aside.icon, CursorIcon::Default);
    let grip = route(&state.drag, &event(1, (780, 438), (0, 0)), FRAME);
    assert!(!grip.camera);
    assert_eq!(grip.icon, CursorIcon::ResizeDiagonal);
    state.apply(&press(1, (780, 438), (1000, 600)), FRAME, OUTPUT);
    assert!(!route(&state.drag, &event(1, (10, 10), (0, 0)), FRAME).camera);
    assert!(route(&state.drag, &event(2, (10, 10), (0, 0)), FRAME).camera);
}

#[test]
fn a_frame_is_resized_only_to_another_size() {
    let other = Extent { width: 784, height: 442 };
    assert_eq!(resize_to(Some(other), FRAME), Some(other));
    assert_eq!(resize_to(Some(FRAME), FRAME), None);
    assert_eq!(resize_to(None, FRAME), None);
}

#[test]
fn frames_too_wide_for_a_coordinate_have_no_grip() {
    let wide = Extent { width: 0x8000_0008, height: 441 };
    assert!(!has_grip(&event(1, (10, 10), (0, 0)), wide));
    let tall = Extent { width: 784, height: 0x8000_0008 };
    assert!(has_grip(&event(1, (10, 10), (0, 0)), tall));
    assert!(!has_grip(&event(1, (770, 10), (0, 0)), tall));
    assert!(has_grip(&event(1, (770, 10), (0, 0)), FRAME));
}

#[test]
fn events_move_their_own_drag() {
    let mut state = idle();
    assert!(!state.moves_drag(&drag(1, (0, 0)), FRAME));
    assert!(state.moves_drag(&press(1, (780, 438), (1000, 600)), FRAME));
    state.apply(&press(1, (780, 438), (1000, 600)), FRAME, OUTPUT);
    assert!(state.moves_drag(&drag(1, (0, 0)), FRAME));
    assert!(!state.moves_drag(&drag(2, (0, 0)), FRAME));
}
