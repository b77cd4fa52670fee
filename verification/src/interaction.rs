//! The frame's pointer interaction: the resize grip and the drag it starts.
use vstd::prelude::*;

verus! {

/// The side of the grip in the bottom-right corner.
pub const RESIZE_GRIP_PX: i32 = 16;

/// The least width a drag leaves.
pub const MIN_WIDTH: u32 = 160;

/// The least height a drag leaves.
pub const MIN_HEIGHT: u32 = 90;

/// The pointer that an event comes from.
#[derive(Clone, Copy, Debug, PartialEq, Eq, Structural)]
pub struct CursorSource(pub u64);

/// The shape of a cursor.
#[derive(Clone, Copy, Debug, PartialEq, Eq, Structural)]
pub enum CursorIcon {
    Default,
    ResizeDiagonal,
}

/// The size of a frame or of the output.
#[derive(Clone, Copy, Debug, PartialEq, Eq, Structural)]
pub struct Extent {
    pub width: u32,
    pub height: u32,
}

/// A pointer event: its place in the frame and on the output, and what the
/// primary button did.
#[derive(Clone, Copy, Debug, PartialEq, Eq, Structural)]
pub struct PointerEvent {
    pub source: CursorSource,
    pub local_x: i32,
    pub local_y: i32,
    pub x: u32,
    pub y: u32,
    pub primary_pressed: bool,
    pub primary_released: bool,
    pub primary_down: bool,
}

/// A resize in progress: who drags, where it started, and the size then.
#[derive(Clone, Copy, Debug, PartialEq, Eq, Structural)]
pub struct ResizeDrag {
    pub source: CursorSource,
    pub anchor_x: u32,
    pub anchor_y: u32,
    pub width: u32,
    pub height: u32,
}

/// A length as the signed coordinate with the same bits.
pub open spec fn as_signed(length: u32) -> int {
    if length < 0x8000_0000 {
        length as int
    } else {
        length - 0x1_0000_0000
    }
}

fn signed(length: u32) -> (coordinate: i32)
    ensures
        coordinate == as_signed(length),
{
    assert(length as i32 == (if length < 0x8000_0000 {
        length as int
    } else {
        length - 0x1_0000_0000
    })) by (bit_vector);
    length as i32
}

/// Whether an event is on the grip, which lies inside the frame.
pub open spec fn in_grip(event: PointerEvent, frame: Extent) -> bool {
    &&& as_signed(frame.width) - RESIZE_GRIP_PX <= event.local_x < as_signed(frame.width)
    &&& as_signed(frame.height) - RESIZE_GRIP_PX <= event.local_y < as_signed(frame.height)
}

/// Whether the grip's corner is a coordinate; the height counts only for
/// events that are not left of the grip.
pub open spec fn grip_exists(event: PointerEvent, frame: Extent) -> bool {
    &&& as_signed(frame.width) - RESIZE_GRIP_PX >= i32::MIN
    &&& event.local_x >= as_signed(frame.width) - RESIZE_GRIP_PX ==> as_signed(frame.height)
        - RESIZE_GRIP_PX >= i32::MIN
}

/// Whether an event belongs to the drag in progress.
pub open spec fn owns_drag(drag: Option<ResizeDrag>, event: PointerEvent) -> bool {
    drag matches Some(active) && active.source == event.source
}

/// A value brought into a range.
pub open spec fn clamped(value: int, low: int, high: int) -> int {
    if value < low {
        low
    } else if value > high {
        high
    } else {
        value
    }
}

/// The drag once an event may have started one.
pub open spec fn drag_started(
    drag: Option<ResizeDrag>,
    event: PointerEvent,
    frame: Extent,
) -> Option<ResizeDrag> {
    if event.primary_pressed && in_grip(event, frame) {
        Some(
            ResizeDrag {
                source: event.source,
                anchor_x: event.x,
                anchor_y: event.y,
                width: frame.width,
                height: frame.height,
            },
        )
    } else {
        drag
    }
}

/// The size that a drag asks for at an event: the size it started with, moved
/// by as much as the pointer moved, between the least size and the output's.
pub open spec fn dragged_extent(drag: ResizeDrag, event: PointerEvent, output: Extent) -> Extent {
    Extent {
        width: clamped(
            drag.width + event.x - drag.anchor_x,
            MIN_WIDTH as int,
            output.width as int,
        ) as u32,
        height: clamped(
            drag.height + event.y - drag.anchor_y,
            MIN_HEIGHT as int,
            output.height as int,
        ) as u32,
    }
}

/// Whether the least size fits the output.
pub open spec fn minimum_fits(output: Extent) -> bool {
    MIN_WIDTH <= output.width && MIN_HEIGHT <= output.height
}

/// The pointer state of one frame: the drag, and the size asked for last.
#[derive(Clone, Copy, Debug, PartialEq, Eq, Structural)]
pub struct PointerState {
    pub drag: Option<ResizeDrag>,
    pub live_extent: Option<Extent>,
}

impl PointerState {
    /// The state after an event.  An event of the dragging pointer asks for a
    /// size, and ends the drag once the primary button is up.
    pub open spec fn after(self, event: PointerEvent, frame: Extent, output: Extent) -> PointerState {
        let started = drag_started(self.drag, event, frame);
        if owns_drag(started, event) {
            PointerState {
                drag: if event.primary_released || !event.primary_down {
                    None
                } else {
                    started
                },
                live_extent: Some(dragged_extent(started->Some_0, event, output)),
            }
        } else {
            PointerState { drag: started, live_extent: self.live_extent }
        }
    }

    /// The state after a sequence of events.
    pub open spec fn after_all(self, events: Seq<PointerEvent>, frame: Extent, output: Extent) -> PointerState
        decreases events.len(),
    {
        if events.len() == 0 {
            self
        } else {
            self.after_all(events.drop_last(), frame, output).after(events.last(), frame, output)
        }
    }

    /// Whether an event moves a drag, which it may have started itself.
    pub fn moves_drag(&self, event: &PointerEvent, frame: Extent) -> (moves: bool)
        requires
            grip_exists(*event, frame),
        ensures
            moves == owns_drag(drag_started(self.drag, *event, frame), *event),
    {
        if event.primary_pressed && on_grip(event, frame) {
            return true;
        }
        match self.drag {
            Some(active) => active.source == event.source,
            None => false,
        }
    }

    /// Take an event into account.
    pub fn apply(&mut self, event: &PointerEvent, frame: Extent, output: Extent)
        requires
            grip_exists(*event, frame),
            owns_drag(drag_started(old(self).drag, *event, frame), *event) ==> minimum_fits(output),
        ensures
            *final(self) == old(self).after(*event, frame, output),
    {
        if event.primary_pressed && on_grip(event, frame) {
            self.drag =
            Some(
                ResizeDrag {
                    source: event.source,
                    anchor_x: event.x,
                    anchor_y: event.y,
                    width: frame.width,
                    height: frame.height,
                },
            );
        }
        if let Some(active) = self.drag {
            if active.source == event.source {
                let width: i64 = active.width as i64 + event.x as i64 - active.anchor_x as i64;
                let height: i64 = active.height as i64 + event.y as i64 - active.anchor_y as i64;
                self.live_extent =
                Some(
                    Extent {
                        width: clamp(width, MIN_WIDTH, output.width),
                        height: clamp(height, MIN_HEIGHT, output.height),
                    },
                );
                if event.primary_released || !event.primary_down {
                    self.drag = None;
                }
            }
        }
    }
}

fn clamp(value: i64, low: u32, high: u32) -> (result: u32)
    requires
        low <= high,
    ensures
        result == clamped(value as int, low as int, high as int),
{
    if value < low as i64 {
        low
    } else if value > high as i64 {
        high
    } else {
        value as u32
    }
}

/// Whether an event is on the grip.
pub fn on_grip(event: &PointerEvent, frame: Extent) -> (on: bool)
    requires
        grip_exists(*event, frame),
    ensures
        on == in_grip(*event, frame),
        frame.width <= i32::MAX && frame.height <= i32::MAX ==> on == (1 <= frame.width
            - event.local_x <= 16 && 1 <= frame.height - event.local_y <= 16),
{
    event.local_x >= signed(frame.width) - RESIZE_GRIP_PX && event.local_y >= signed(frame.height)
        - RESIZE_GRIP_PX && event.local_x < signed(frame.width) && event.local_y < signed(
        frame.height,
    )
}

/// Whether the grip's corner is a coordinate for an event.
pub fn has_grip(event: &PointerEvent, frame: Extent) -> (has: bool)
    ensures
        has == grip_exists(*event, frame),
{
    let left: i64 = signed(frame.width) as i64 - RESIZE_GRIP_PX as i64;
    let top: i64 = signed(frame.height) as i64 - RESIZE_GRIP_PX as i64;
    left >= i32::MIN as i64 && ((event.local_x as i64) < left || top >= i32::MIN as i64)
}

/// Where an event goes: to the resize grip, or to the camera.
#[derive(Clone, Copy, Debug, PartialEq, Eq, Structural)]
pub struct PointerRoute {
    /// Whether the camera may use the event.
    pub camera: bool,
    pub icon: CursorIcon,
}

/// The route of an event: the grip and the drag in progress keep it from the
/// camera and show the resize cursor.
pub open spec fn routed(drag: Option<ResizeDrag>, event: PointerEvent, frame: Extent) -> PointerRoute {
    let captured = in_grip(event, frame) || owns_drag(drag, event);
    PointerRoute {
        camera: !captured,
        icon: if captured {
            CursorIcon::ResizeDiagonal
        } else {
            CursorIcon::Default
        },
    }
}

/// The route of an event.
pub fn route(drag: &Option<ResizeDrag>, event: &PointerEvent, frame: Extent) -> (route: PointerRoute)
    requires
        grip_exists(*event, frame),
    ensures
        route == routed(*drag, *event, frame),
{
    let owns = match drag {
        Some(active) => active.source == event.source,
        None => false,
    };
    let captured = on_grip(event, frame) || owns;
    PointerRoute {
        camera: !captured,
        icon: if captured {
            CursorIcon::ResizeDiagonal
        } else {
            CursorIcon::Default
        },
    }
}

/// The resize that a requested size calls for: none where nothing was
/// requested or the frame already has that size.
pub open spec fn needed_resize(requested: Option<Extent>, frame: Extent) -> Option<Extent> {
    match requested {
        Some(extent) => if extent == frame {
            None
        } else {
            Some(extent)
        },
        None => None,
    }
}

/// The resize that a requested size calls for.
pub fn resize_to(requested: Option<Extent>, frame: Extent) -> (resize: Option<Extent>)
    ensures
        resize == needed_resize(requested, frame),
{
    match requested {
        Some(extent) => if extent == frame {
            None
        } else {
            Some(extent)
        },
        None => None,
    }
}

/// A frame of ordinary size has a grip for every event.
pub proof fn lemma_ordinary_frames_have_a_grip(event: PointerEvent, frame: Extent)
    requires
        frame.width <= i32::MAX,
        frame.height <= i32::MAX,
    ensures
        grip_exists(event, frame),
{
}

/// Whatever a pointer does, the size that a drag asks for lies between the
/// least size and the output's.
pub proof fn lemma_live_extent_is_bounded(
    state: PointerState,
    events: Seq<PointerEvent>,
    frame: Extent,
    output: Extent,
)
    requires
        minimum_fits(output),
        state.live_extent is None,
    ensures
        state.after_all(events, frame, output).live_extent matches Some(extent) ==> {
            &&& MIN_WIDTH <= extent.width <= output.width
            &&& MIN_HEIGHT <= extent.height <= output.height
        },
    decreases events.len(),
{
    if events.len() > 0 {
        lemma_live_extent_is_bounded(state, events.drop_last(), frame, output);
    }
}

/// Without a drag in progress, events that never press on the grip change
/// nothing.
pub proof fn lemma_only_the_grip_starts_a_drag(
    state: PointerState,
    events: Seq<PointerEvent>,
    frame: Extent,
    output: Extent,
)
    requires
        state.drag is None,
        forall|i: int|
            0 <= i < events.len() ==> !((#[trigger] events[i]).primary_pressed && in_grip(
                events[i],
                frame,
            )),
    ensures
        state.after_all(events, frame, output) == state,
    decreases events.len(),
{
    if events.len() > 0 {
        let earlier = events.drop_last();
        assert forall|i: int| 0 <= i < earlier.len() implies !((
        #[trigger] earlier[i]).primary_pressed && in_grip(earlier[i], frame)) by {
            assert(earlier[i] == events[i]);
        }
        lemma_only_the_grip_starts_a_drag(state, earlier, frame, output);
        assert(events.last() == events[events.len() - 1]);
    }
}

/// A drag answers its own pointer only: an event of another pointer that does
/// not press on the grip neither moves nor ends it.
pub proof fn lemma_other_pointers_leave_a_drag_alone(
    state: PointerState,
    event: PointerEvent,
    frame: Extent,
    output: Extent,
)
    requires
        state.drag matches Some(active) && active.source != event.source,
        !(event.primary_pressed && in_grip(event, frame)),
    ensures
        state.after(event, frame, output) == state,
{
}

/// A drag that moved the pointer nowhere asks for the size it started with,
/// where that size is allowed.
pub proof fn lemma_a_still_drag_keeps_the_size(
    state: PointerState,
    event: PointerEvent,
    frame: Extent,
    output: Extent,
)
    requires
        event.primary_pressed,
        in_grip(event, frame),
        MIN_WIDTH <= frame.width <= output.width,
        MIN_HEIGHT <= frame.height <= output.height,
    ensures
        state.after(event, frame, output).live_extent == Some(frame),
        needed_resize(state.after(event, frame, output).live_extent, frame) is None,
{
}

/// A drag ends with the event that shows the primary button up.
pub proof fn lemma_release_ends_the_drag(
    state: PointerState,
    event: PointerEvent,
    frame: Extent,
    output: Extent,
)
    requires
        owns_drag(state.drag, event),
        event.primary_released || !event.primary_down,
    ensures
        state.after(event, frame, output).drag is None,
{
}

/// An event goes to the camera exactly where it shows the default cursor.
pub proof fn lemma_the_camera_gets_what_the_grip_leaves(
    drag: Option<ResizeDrag>,
    event: PointerEvent,
    frame: Extent,
)
    ensures
        routed(drag, event, frame).camera <==> routed(drag, event, frame).icon
            == CursorIcon::Default,
{
}

/// The grip follows the frame's size: an event is on it exactly where it lies
/// from one to sixteen pixels left of the right edge and as many above the
/// bottom edge.
pub proof fn lemma_the_grip_is_measured_from_the_corner(event: PointerEvent, frame: Extent)
    requires
        frame.width <= i32::MAX,
        frame.height <= i32::MAX,
    ensures
        in_grip(event, frame) <==> {
            &&& 1 <= frame.width - event.local_x <= 16
            &&& 1 <= frame.height - event.local_y <= 16
        },
        event.local_x == frame.width - 1 && event.local_y == frame.height - 1 ==> in_grip(
            event,
            frame,
        ),
{
}

/// Only the distances from the corner count: an event that lies as far from the
/// corner of another frame is on that frame's grip exactly where this one is on
/// its own.
pub proof fn lemma_the_grip_moves_with_the_corner(
    event: PointerEvent,
    frame: Extent,
    other: PointerEvent,
    resized: Extent,
)
    requires
        frame.width <= i32::MAX && frame.height <= i32::MAX,
        resized.width <= i32::MAX && resized.height <= i32::MAX,
        frame.width - event.local_x == resized.width - other.local_x,
        frame.height - event.local_y == resized.height - other.local_y,
    ensures
        in_grip(event, frame) == in_grip(other, resized),
{
}

/// A length beyond the signed range counts from below zero, so the grip of such
/// a frame lies left of or above its origin.
pub proof fn lemma_long_sides_count_from_below_zero(event: PointerEvent, frame: Extent)
    requires
        in_grip(event, frame),
    ensures
        frame.width > i32::MAX ==> 1 <= frame.width - 0x1_0000_0000 - event.local_x <= 16,
        frame.height > i32::MAX ==> 1 <= frame.height - 0x1_0000_0000 - event.local_y <= 16,
        frame.width <= i32::MAX ==> 1 <= frame.width - event.local_x <= 16,
        frame.height <= i32::MAX ==> 1 <= frame.height - event.local_y <= 16,
{
}

/// Only lengths just beyond the signed range have no grip, and such a height
/// counts only for events that are not left of the grip.
pub proof fn lemma_few_frames_have_no_grip(event: PointerEvent, frame: Extent)
    ensures
        0x8000_0000 <= frame.width < 0x8000_0010 ==> !grip_exists(event, frame),
        !(0x8000_0000 <= frame.width < 0x8000_0010) && !(0x8000_0000 <= frame.height < 0x8000_0010)
            ==> grip_exists(event, frame),
        !(0x8000_0000 <= frame.width < 0x8000_0010) && 0x8000_0000 <= frame.height < 0x8000_0010
            ==> (grip_exists(event, frame) <==> event.local_x + 16 < (if frame.width <= i32::MAX {
            frame.width as int
        } else {
            frame.width - 0x1_0000_0000
        })),
{
}

/// A press on the grip starts a drag of its own pointer, from where the pointer
/// is on the output and from the size that the frame has; no other event does.
pub proof fn lemma_a_press_on_the_grip_starts_a_drag(
    state: PointerState,
    event: PointerEvent,
    frame: Extent,
    output: Extent,
)
    ensures
        ({
            let after = state.after(event, frame, output);
            let pressed = event.primary_pressed && in_grip(event, frame);
            &&& pressed && event.primary_down && !event.primary_released ==> after.drag == Some(
                ResizeDrag {
                    source: event.source,
                    anchor_x: event.x,
                    anchor_y: event.y,
                    width: frame.width,
                    height: frame.height,
                },
            )
            &&& !pressed ==> after.drag is None || after.drag == state.drag
            &&& !pressed && state.drag is None ==> after == state
            &&& after.live_extent is None ==> state.live_extent is None
        }),
{
}

/// A drag goes on while its button is down and ends with the button, whatever
/// the event's place is; and every event of the dragging pointer asks for a
/// size.
pub proof fn lemma_a_drag_lasts_as_long_as_its_button(
    state: PointerState,
    event: PointerEvent,
    frame: Extent,
    output: Extent,
)
    requires
        state.drag matches Some(active) && active.source == event.source,
        !(event.primary_pressed && in_grip(event, frame)),
    ensures
        state.after(event, frame, output).drag == (if event.primary_down
            && !event.primary_released {
            state.drag
        } else {
            None
        }),
        state.after(event, frame, output).live_extent is Some,
{
}

/// A drag resizes by as much as its pointer moved: where the outcome is allowed
/// the size differs from the one at the start exactly as the pointer's place
/// does from its start, and where it is not, the size is the nearest allowed.
pub proof fn lemma_a_drag_follows_its_pointer(
    state: PointerState,
    event: PointerEvent,
    frame: Extent,
    output: Extent,
)
    requires
        minimum_fits(output),
        state.drag matches Some(active) && active.source == event.source,
        !(event.primary_pressed && in_grip(event, frame)),
    ensures
        ({
            let drag = state.drag->Some_0;
            let width = drag.width + (event.x - drag.anchor_x);
            let height = drag.height + (event.y - drag.anchor_y);
            &&& state.after(event, frame, output).live_extent matches Some(extent)
            &&& width < 160 ==> extent.width == 160
            &&& 160 <= width <= output.width ==> extent.width == width
            &&& width > output.width ==> extent.width == output.width
            &&& height < 90 ==> extent.height == 90
            &&& 90 <= height <= output.height ==> extent.height == height
            &&& height > output.height ==> extent.height == output.height
        }),
{
}

/// The camera gets an event exactly where it is not on the grip and does not
/// belong to the drag in progress.
pub proof fn lemma_the_grip_and_the_drag_keep_events_from_the_camera(
    drag: Option<ResizeDrag>,
    event: PointerEvent,
    frame: Extent,
)
    ensures
        in_grip(event, frame) ==> !routed(drag, event, frame).camera,
        drag matches Some(active) ==> active.source == event.source ==> !routed(
            drag,
            event,
            frame,
        ).camera,
        !in_grip(event, frame) && (drag matches Some(active) ==> active.source != event.source)
            ==> routed(drag, event, frame).camera,
        routed(drag, event, frame).icon == CursorIcon::ResizeDiagonal <==> !routed(
            drag,
            event,
            frame,
        ).camera,
{
}

/// A frame is resized exactly where a size was asked for that differs from its
/// own in width or height, and then to that size.
pub proof fn lemma_only_another_size_is_a_resize(requested: Option<Extent>, frame: Extent)
    ensures
        needed_resize(requested, frame) is Some <==> requested is Some && (
        requested->Some_0.width != frame.width || requested->Some_0.height != frame.height),
        needed_resize(requested, frame) is Some ==> needed_resize(requested, frame) == requested,
{
}

/// The least size is 160 by 90, and an output holds it exactly where it is at
/// least as large both ways.
pub proof fn lemma_the_least_size(output: Extent)
    ensures
        minimum_fits(output) <==> output.width >= 160 && output.height >= 90,
{
}

/// A press on the grip asks at once for the size that the frame has, or for the
/// nearest allowed one; and a press whose button is up again leaves no drag.
pub proof fn lemma_a_press_asks_for_the_frames_size(
    state: PointerState,
    event: PointerEvent,
    frame: Extent,
    output: Extent,
)
    requires
        minimum_fits(output),
        event.primary_pressed,
        in_grip(event, frame),
    ensures
        ({
            let after = state.after(event, frame, output);
            &&& after.live_extent matches Some(extent)
            &&& frame.width < 160 ==> extent.width == 160
            &&& 160 <= frame.width <= output.width ==> extent.width == frame.width
            &&& frame.width > output.width ==> extent.width == output.width
            &&& frame.height < 90 ==> extent.height == 90
            &&& 90 <= frame.height <= output.height ==> extent.height == frame.height
            &&& frame.height > output.height ==> extent.height == output.height
            &&& event.primary_released || !event.primary_down ==> after.drag is None
        }),
{
}

} // verus!
