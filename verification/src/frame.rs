//! One frame: its input, its admission, and what it leaves behind.
use crate::camera::{CameraControl, KeyboardState};
#[allow(unused_imports)]
use crate::camera::{fly_key_down, key_down, HID_KEY_TAB};
use crate::error::{GeometryProbeError, Ui4Error};
use crate::interaction::{
    has_grip, resize_to, route, Extent, PointerEvent, PointerRoute, PointerState, ResizeDrag, MIN_HEIGHT,
    MIN_WIDTH,
};
#[allow(unused_imports)]
use crate::interaction::{drag_started, grip_exists, minimum_fits, needed_resize, owns_drag, routed};
use vstd::prelude::*;

verus! {

/// Render a frame that was admitted.  A busy back buffer defers the frame
/// before anything is acquired; every other error is an error, and so is any
/// error once the frame was admitted.
pub fn render_admitted_frame<F: FnOnce() -> Result<(), GeometryProbeError>>(
    admission: Result<(), Ui4Error>,
    render: F,
) -> (outcome: Result<bool, GeometryProbeError>)
    requires
        admission is Ok ==> render.requires(()),
    ensures
        match admission {
            Ok(_) => exists|submitted: Result<(), GeometryProbeError>| #[trigger]
                render.ensures((), submitted) && match submitted {
                    Ok(_) => outcome == Ok::<bool, GeometryProbeError>(true),
                    Err(error) => outcome == Err::<bool, GeometryProbeError>(error),
                },
            Err(Ui4Error::Busy) => outcome == Ok::<bool, GeometryProbeError>(false),
            Err(error) => outcome == Err::<bool, GeometryProbeError>(
                GeometryProbeError::Ui4("frame-begin", error),
            ),
        },
{
    match admission {
        Ok(()) => match render() {
            Ok(()) => Ok(true),
            Err(error) => Err(error),
        },
        Err(Ui4Error::Busy) => Ok(false),
        Err(error) => Err(GeometryProbeError::Ui4("frame-begin", error)),
    }
}

/// The native offset of a device write, where there is one.
pub fn write_offset(offset: u64, unsupported: i32) -> (native: Result<usize, i32>)
    ensures
        native == (if offset <= usize::MAX {
            Ok::<usize, i32>(offset as usize)
        } else {
            Err(unsupported)
        }),
{
    if offset <= usize::MAX as u64 {
        Ok(offset as usize)
    } else {
        Err(unsupported)
    }
}

/// The outcome of a write that must be complete.
pub open spec fn write_outcome(
    offset: u64,
    length: nat,
    written: Result<usize, i32>,
    unsupported: i32,
    incomplete: i32,
) -> Result<(), i32> {
    if offset > usize::MAX {
        Err(unsupported)
    } else {
        match written {
            Err(code) => Err(code),
            Ok(count) => if count == length {
                Ok(())
            } else {
                Err(incomplete)
            },
        }
    }
}

/// Judge a write of `length` bytes, given how many the device said it wrote.
pub fn write_exact(
    offset: u64,
    length: usize,
    written: Result<usize, i32>,
    unsupported: i32,
    incomplete: i32,
) -> (outcome: Result<(), i32>)
    ensures
        outcome == write_outcome(offset, length as nat, written, unsupported, incomplete),
{
    match write_offset(offset, unsupported) {
        Err(code) => Err(code),
        Ok(_) => match written {
            Err(code) => Err(code),
            Ok(count) => if count == length {
                Ok(())
            } else {
                Err(incomplete)
            },
        },
    }
}

/// The call whose answer a frame waits for.
#[derive(Clone, Copy, Debug, PartialEq, Eq, Structural)]
pub enum ServicePhase {
    Keyboard,
    Camera,
    ResizeEvents,
    MaximizeResize,
    Output,
    Pointers,
    Cursor,
    LiveResize,
    Ended,
}

impl ServicePhase {
    /// The name under which the call's failure is reported.
    pub open spec fn call(self) -> &'static str {
        match self {
            ServicePhase::Keyboard => "fleet-camera-hotkeys",
            ServicePhase::Camera => "flycam-ui4",
            ServicePhase::ResizeEvents => "resize-event",
            ServicePhase::MaximizeResize => "maximize-resize",
            ServicePhase::Output => "output-extent",
            ServicePhase::Pointers => "pointer-event",
            ServicePhase::Cursor => "resize-cursor",
            ServicePhase::LiveResize => "live-resize",
            ServicePhase::Ended => "ended",
        }
    }

    fn call_name(self) -> (name: &'static str)
        ensures
            name == self.call(),
    {
        match self {
            ServicePhase::Keyboard => "fleet-camera-hotkeys",
            ServicePhase::Camera => "flycam-ui4",
            ServicePhase::ResizeEvents => "resize-event",
            ServicePhase::MaximizeResize => "maximize-resize",
            ServicePhase::Output => "output-extent",
            ServicePhase::Pointers => "pointer-event",
            ServicePhase::Cursor => "resize-cursor",
            ServicePhase::LiveResize => "live-resize",
            ServicePhase::Ended => "ended",
        }
    }
}

/// The answer to a call.  The two that hand out events also tell the size that
/// the frame has.
pub enum ServiceEvent {
    Keyboard(Result<Option<KeyboardState>, Ui4Error>),
    CameraStepped(Result<(), Ui4Error>),
    ResizeTaken(Result<Option<Extent>, Ui4Error>, Extent),
    Resized(Result<(), Ui4Error>),
    OutputRead(Result<Extent, Ui4Error>),
    PointerTaken(Result<Option<PointerEvent>, Ui4Error>, Extent),
    CursorSet(Result<(), Ui4Error>),
}

impl ServiceEvent {
    /// The error that the call ended in, if it did.
    pub open spec fn failure(self) -> Option<Ui4Error> {
        match self {
            ServiceEvent::Keyboard(Err(error)) => Some(error),
            ServiceEvent::CameraStepped(Err(error)) => Some(error),
            ServiceEvent::ResizeTaken(Err(error), _) => Some(error),
            ServiceEvent::Resized(Err(error)) => Some(error),
            ServiceEvent::OutputRead(Err(error)) => Some(error),
            ServiceEvent::PointerTaken(Err(error), _) => Some(error),
            ServiceEvent::CursorSet(Err(error)) => Some(error),
            _ => None,
        }
    }
}

/// The call to make next, or how the servicing ended.
#[derive(Clone, Copy, Debug, PartialEq, Eq)]
pub enum ServiceAction {
    ReadKeyboard,
    /// Step the free camera by the time that passed, from above the followed
    /// ship where one is followed.
    StepCamera { follow: Option<usize>, delta_millis: u64 },
    TakeResize,
    Resize(Extent),
    ReadOutput,
    TakePointer,
    /// Offer the event to the camera as told, and set its cursor.
    RoutePointer(PointerEvent, PointerRoute),
    Ready,
    Fail(GeometryProbeError),
}

/// Input state: what lasts from frame to frame, and what one frame gathers.
#[derive(Clone, Copy, Debug, PartialEq, Eq, Structural)]
pub struct FrameControls {
    pub camera: CameraControl,
    pub resize_drag: Option<ResizeDrag>,
    pub previous_elapsed_millis: u64,
    pub phase: ServicePhase,
    pub delta_millis: u64,
    /// The size that the last resize event of the frame asked for.
    pub requested: Option<Extent>,
    /// The size of the frame when the last event was taken.
    pub frame: Extent,
    pub output: Extent,
    pub pointers: PointerState,
    /// The pointer event whose cursor is being set.
    pub pending: Option<PointerEvent>,
}

impl FrameControls {
    pub open spec fn wf(self) -> bool {
        &&& self.camera.wf()
        &&& self.phase == ServicePhase::Cursor ==> (self.pending matches Some(event)
            && grip_exists(event, self.frame))
    }

    /// Whether an event answers the call that the frame waits for.
    pub open spec fn awaits(self, event: ServiceEvent) -> bool {
        match self.phase {
            ServicePhase::Keyboard => event is Keyboard,
            ServicePhase::Camera => event is CameraStepped,
            ServicePhase::ResizeEvents => event is ResizeTaken,
            ServicePhase::MaximizeResize => event is Resized,
            ServicePhase::Output => event is OutputRead,
            ServicePhase::Pointers => event is PointerTaken,
            ServicePhase::Cursor => event is CursorSet,
            ServicePhase::LiveResize => event is Resized,
            ServicePhase::Ended => false,
        }
    }

    /// Whether an event can be judged: its grip is a coordinate, and a drag
    /// that it moves finds an output that holds the least size.
    pub open spec fn admits(self, event: ServiceEvent) -> bool {
        match event {
            ServiceEvent::PointerTaken(Ok(Some(pointer)), frame) => grip_exists(pointer, frame),
            ServiceEvent::CursorSet(Ok(_)) => owns_drag(
                drag_started(self.pointers.drag, self.pending->Some_0, self.frame),
                self.pending->Some_0,
            ) ==> minimum_fits(self.output),
            _ => true,
        }
    }

    /// The controls at the start of a frame.
    pub open spec fn begun(self, elapsed_millis: u64) -> FrameControls {
        FrameControls {
            previous_elapsed_millis: elapsed_millis,
            phase: ServicePhase::Keyboard,
            delta_millis: if elapsed_millis >= self.previous_elapsed_millis {
                (elapsed_millis - self.previous_elapsed_millis) as u64
            } else {
                0
            },
            requested: None,
            pointers: PointerState { drag: self.resize_drag, live_extent: None },
            pending: None,
            ..self
        }
    }

    /// The controls and the call that follow an answer without an error.
    pub open spec fn answered(self, event: ServiceEvent) -> (FrameControls, ServiceAction) {
        match event {
            ServiceEvent::Keyboard(read) => {
                let keyboard = match read->Ok_0 {
                    Some(state) => Some(&state),
                    None => None,
                };
                let camera = self.camera.serviced(
                    key_down(keyboard, HID_KEY_TAB),
                    fly_key_down(keyboard),
                );
                (
                    FrameControls { camera, phase: ServicePhase::Camera, ..self },
                    ServiceAction::StepCamera {
                        follow: camera.followed(),
                        delta_millis: self.delta_millis,
                    },
                )
            },
            ServiceEvent::CameraStepped(_) => (
                FrameControls { phase: ServicePhase::ResizeEvents, ..self },
                ServiceAction::TakeResize,
            ),
            ServiceEvent::ResizeTaken(taken, frame) => match taken->Ok_0 {
                // The last of several requests counts.
                Some(extent) => (
                    FrameControls { requested: Some(extent), frame, ..self },
                    ServiceAction::TakeResize,
                ),
                None => match needed_resize(self.requested, frame) {
                    Some(extent) => (
                        FrameControls { phase: ServicePhase::MaximizeResize, frame, ..self },
                        ServiceAction::Resize(extent),
                    ),
                    None => (
                        FrameControls { phase: ServicePhase::Output, frame, ..self },
                        ServiceAction::ReadOutput,
                    ),
                },
            },
            ServiceEvent::Resized(_) => if self.phase == ServicePhase::MaximizeResize {
                (
                    FrameControls { phase: ServicePhase::Output, ..self },
                    ServiceAction::ReadOutput,
                )
            } else {
                (FrameControls { phase: ServicePhase::Ended, ..self }, ServiceAction::Ready)
            },
            ServiceEvent::OutputRead(read) => (
                FrameControls { output: read->Ok_0, phase: ServicePhase::Pointers, ..self },
                ServiceAction::TakePointer,
            ),
            ServiceEvent::PointerTaken(taken, frame) => match taken->Ok_0 {
                Some(pointer) => (
                    FrameControls {
                        pending: Some(pointer),
                        frame,
                        phase: ServicePhase::Cursor,
                        ..self
                    },
                    ServiceAction::RoutePointer(
                        pointer,
                        routed(self.pointers.drag, pointer, frame),
                    ),
                ),
                // The drag outlives the frame once every event was taken.
                None => match needed_resize(self.pointers.live_extent, frame) {
                    Some(extent) => (
                        FrameControls {
                            resize_drag: self.pointers.drag,
                            frame,
                            phase: ServicePhase::LiveResize,
                            ..self
                        },
                        ServiceAction::Resize(extent),
                    ),
                    None => (
                        FrameControls {
                            resize_drag: self.pointers.drag,
                            frame,
                            phase: ServicePhase::Ended,
                            ..self
                        },
                        ServiceAction::Ready,
                    ),
                },
            },
            ServiceEvent::CursorSet(_) => (
                FrameControls {
                    pointers: self.pointers.after(self.pending->Some_0, self.frame, self.output),
                    pending: None,
                    phase: ServicePhase::Pointers,
                    ..self
                },
                ServiceAction::TakePointer,
            ),
        }
    }

    /// The controls and the call that follow an answer.  An error ends the
    /// frame and is reported under the name of the call.
    pub open spec fn next(self, event: ServiceEvent) -> (FrameControls, ServiceAction) {
        match event.failure() {
            Some(error) => (
                FrameControls { phase: ServicePhase::Ended, ..self },
                ServiceAction::Fail(GeometryProbeError::Ui4(self.phase.call(), error)),
            ),
            None => self.answered(event),
        }
    }

    /// Controls before the first frame.
    pub fn new() -> (controls: FrameControls)
        ensures
            controls.wf(),
            controls.camera.mode == crate::camera::CameraMode::Fly,
            !controls.camera.tab_down,
            controls.resize_drag is None,
            controls.previous_elapsed_millis == 0,
            controls.phase == ServicePhase::Ended,
    {
        FrameControls {
            camera: CameraControl::new(),
            resize_drag: None,
            previous_elapsed_millis: 0,
            phase: ServicePhase::Ended,
            delta_millis: 0,
            requested: None,
            frame: Extent { width: 0, height: 0 },
            output: Extent { width: 0, height: 0 },
            pointers: PointerState { drag: None, live_extent: None },
            pending: None,
        }
    }

    /// Begin a frame.  Time that runs backwards counts as none.
    pub fn begin(&mut self, elapsed_millis: u64) -> (action: ServiceAction)
        requires
            old(self).wf(),
        ensures
            final(self).wf(),
            *final(self) == old(self).begun(elapsed_millis),
            action == ServiceAction::ReadKeyboard,
    {
        self.delta_millis = elapsed_millis.saturating_sub(self.previous_elapsed_millis);
        self.previous_elapsed_millis = elapsed_millis;
        self.phase = ServicePhase::Keyboard;
        self.requested = None;
        self.pointers = PointerState { drag: self.resize_drag, live_extent: None };
        self.pending = None;
        ServiceAction::ReadKeyboard
    }

    fn fail(&mut self, error: Ui4Error) -> (action: ServiceAction)
        requires
            old(self).wf(),
        ensures
            final(self).wf(),
            *final(self) == (FrameControls { phase: ServicePhase::Ended, ..*old(self) }),
            action == ServiceAction::Fail(GeometryProbeError::Ui4(old(self).phase.call(), error)),
    {
        let name = self.phase.call_name();
        self.phase = ServicePhase::Ended;
        ServiceAction::Fail(GeometryProbeError::Ui4(name, error))
    }

    /// Whether an answer to the last call can be judged.
    pub fn judges(&self, event: &ServiceEvent) -> (judged: bool)
        requires
            self.wf(),
            self.awaits(*event),
        ensures
            judged == self.admits(*event),
    {
        match event {
            ServiceEvent::PointerTaken(Ok(Some(pointer)), frame) => has_grip(pointer, *frame),
            ServiceEvent::CursorSet(Ok(_)) => match &self.pending {
                Some(pointer) => !self.pointers.moves_drag(pointer, self.frame) || (MIN_WIDTH
                    <= self.output.width && MIN_HEIGHT <= self.output.height),
                None => true,
            },
            _ => true,
        }
    }

    /// Take the answer to the last call and tell the next one.
    pub fn advance(&mut self, event: ServiceEvent) -> (action: ServiceAction)
        requires
            old(self).wf(),
            old(self).awaits(event),
            old(self).admits(event),
        ensures
            final(self).wf(),
            (*final(self), action) == old(self).next(event),
    {
        match event {
            ServiceEvent::Keyboard(Err(error)) => self.fail(error),
            ServiceEvent::CameraStepped(Err(error)) => self.fail(error),
            ServiceEvent::ResizeTaken(Err(error), _) => self.fail(error),
            ServiceEvent::Resized(Err(error)) => self.fail(error),
            ServiceEvent::OutputRead(Err(error)) => self.fail(error),
            ServiceEvent::PointerTaken(Err(error), _) => self.fail(error),
            ServiceEvent::CursorSet(Err(error)) => self.fail(error),
            ServiceEvent::Keyboard(Ok(keyboard)) => {
                let follow = match &keyboard {
                    Some(state) => self.camera.service_camera_mode(Some(state)),
                    None => self.camera.service_camera_mode(None),
                };
                self.phase = ServicePhase::Camera;
                ServiceAction::StepCamera { follow, delta_millis: self.delta_millis }
            },
            ServiceEvent::CameraStepped(Ok(_)) => {
                self.phase = ServicePhase::ResizeEvents;
                ServiceAction::TakeResize
            },
            ServiceEvent::ResizeTaken(Ok(Some(extent)), frame) => {
                self.requested = Some(extent);
                self.frame = frame;
                ServiceAction::TakeResize
            },
            ServiceEvent::ResizeTaken(Ok(None), frame) => {
                self.frame = frame;
                match resize_to(self.requested, frame) {
                    Some(extent) => {
                        self.phase = ServicePhase::MaximizeResize;
                        ServiceAction::Resize(extent)
                    },
                    None => {
                        self.phase = ServicePhase::Output;
                        ServiceAction::ReadOutput
                    },
                }
            },
            ServiceEvent::Resized(Ok(_)) => {
                if self.phase == ServicePhase::MaximizeResize {
                    self.phase = ServicePhase::Output;
                    ServiceAction::ReadOutput
                } else {
                    self.phase = ServicePhase::Ended;
                    ServiceAction::Ready
                }
            },
            ServiceEvent::OutputRead(Ok(output)) => {
                self.output = output;
                self.phase = ServicePhase::Pointers;
                ServiceAction::TakePointer
            },
            ServiceEvent::PointerTaken(Ok(Some(pointer)), frame) => {
                let route = route(&self.pointers.drag, &pointer, frame);
                self.pending = Some(pointer);
                self.frame = frame;
                self.phase = ServicePhase::Cursor;
                ServiceAction::RoutePointer(pointer, route)
            },
            ServiceEvent::PointerTaken(Ok(None), frame) => {
                self.resize_drag = self.pointers.drag;
                self.frame = frame;
                match resize_to(self.pointers.live_extent, frame) {
                    Some(extent) => {
                        self.phase = ServicePhase::LiveResize;
                        ServiceAction::Resize(extent)
                    },
                    None => {
                        self.phase = ServicePhase::Ended;
                        ServiceAction::Ready
                    },
                }
            },
            ServiceEvent::CursorSet(Ok(_)) => {
                if let Some(pointer) = self.pending {
                    let mut pointers = self.pointers;
                    pointers.apply(&pointer, self.frame, self.output);
                    self.pointers = pointers;
                }
                self.pending = None;
                self.phase = ServicePhase::Pointers;
                ServiceAction::TakePointer
            },
        }
    }
}

/// The controls after taking resize requests one after the other.
pub open spec fn after_requests(
    controls: FrameControls,
    requests: Seq<Extent>,
    frame: Extent,
) -> FrameControls
    decreases requests.len(),
{
    if requests.len() == 0 {
        controls
    } else {
        after_requests(controls, requests.drop_last(), frame).next(
            ServiceEvent::ResizeTaken(Ok(Some(requests.last())), frame),
        ).0
    }
}

/// Of the resize requests of a frame the last one counts, and only where the
/// frame does not have that size already.
pub proof fn lemma_last_request_wins(
    controls: FrameControls,
    requests: Seq<Extent>,
    frame: Extent,
)
    requires
        controls.phase == ServicePhase::ResizeEvents,
        controls.requested is None,
    ensures
        after_requests(controls, requests, frame).next(
            ServiceEvent::ResizeTaken(Ok(None), frame),
        ).1 == (if requests.len() > 0 && requests.last() != frame {
            ServiceAction::Resize(requests.last())
        } else {
            ServiceAction::ReadOutput
        }),
{
    lemma_after_requests(controls, requests, frame);
}

proof fn lemma_after_requests(controls: FrameControls, requests: Seq<Extent>, frame: Extent)
    requires
        controls.phase == ServicePhase::ResizeEvents,
        controls.requested is None,
    ensures
        after_requests(controls, requests, frame).phase == ServicePhase::ResizeEvents,
        after_requests(controls, requests, frame).requested == (if requests.len() > 0 {
            Some(requests.last())
        } else {
            None
        }),
    decreases requests.len(),
{
    if requests.len() > 0 {
        lemma_after_requests(controls, requests.drop_last(), frame);
    }
}

/// The controls after taking pointer events and setting their cursors.
pub open spec fn after_pointers(
    controls: FrameControls,
    events: Seq<PointerEvent>,
    frame: Extent,
) -> FrameControls
    decreases events.len(),
{
    if events.len() == 0 {
        controls
    } else {
        after_pointers(controls, events.drop_last(), frame).next(
            ServiceEvent::PointerTaken(Ok(Some(events.last())), frame),
        ).0.next(ServiceEvent::CursorSet(Ok(()))).0
    }
}

/// The pointer events of a frame add up, and when none is left the frame keeps
/// the drag and takes the size asked for last.
pub proof fn lemma_pointer_events_add_up(
    controls: FrameControls,
    events: Seq<PointerEvent>,
    frame: Extent,
)
    requires
        controls.phase == ServicePhase::Pointers,
    ensures
        ({
            let gathered = controls.pointers.after_all(events, frame, controls.output);
            let taken = after_pointers(controls, events, frame);
            let end = taken.next(ServiceEvent::PointerTaken(Ok(None), frame));
            &&& taken.pointers == gathered
            &&& end.0.resize_drag == gathered.drag
            &&& end.1 == match needed_resize(gathered.live_extent, frame) {
                Some(extent) => ServiceAction::Resize(extent),
                None => ServiceAction::Ready,
            }
        }),
{
    lemma_after_pointers(controls, events, frame);
}

proof fn lemma_after_pointers(controls: FrameControls, events: Seq<PointerEvent>, frame: Extent)
    requires
        controls.phase == ServicePhase::Pointers,
    ensures
        after_pointers(controls, events, frame).phase == ServicePhase::Pointers,
        after_pointers(controls, events, frame).output == controls.output,
        after_pointers(controls, events, frame).pointers == controls.pointers.after_all(
            events,
            frame,
            controls.output,
        ),
    decreases events.len(),
{
    if events.len() > 0 {
        lemma_after_pointers(controls, events.drop_last(), frame);
    }
}

/// A failed call changes neither the camera's mode nor the drag.
pub proof fn lemma_failure_keeps_the_controls(controls: FrameControls, event: ServiceEvent)
    requires
        event.failure() is Some,
    ensures
        controls.next(event).0.camera == controls.camera,
        controls.next(event).0.resize_drag == controls.resize_drag,
        controls.next(event).1 == ServiceAction::Fail(
            GeometryProbeError::Ui4(controls.phase.call(), event.failure()->Some_0),
        ),
{
}

/// A write is complete exactly where its offset can be addressed and the device
/// wrote as many bytes as it was given; what else the device said is passed on.
pub proof fn lemma_only_whole_writes_count(
    offset: u64,
    length: nat,
    written: Result<usize, i32>,
    unsupported: i32,
    incomplete: i32,
)
    ensures
        ({
            let outcome = write_outcome(offset, length, written, unsupported, incomplete);
            &&& outcome is Ok <==> offset <= usize::MAX && written is Ok && written->Ok_0 == length
            &&& offset > usize::MAX ==> outcome == Err::<(), i32>(unsupported)
            &&& offset <= usize::MAX && written is Err ==> outcome == Err::<(), i32>(
                written->Err_0,
            )
            &&& offset <= usize::MAX && written is Ok && written->Ok_0 != length ==> outcome
                == Err::<(), i32>(incomplete)
        }),
{
}

/// A frame starts afresh but for the camera, the drag and the clock: it takes
/// the drag that the frames before left, and its time is what passed since the
/// last frame, or none where time ran backwards.
pub proof fn lemma_a_frame_starts_afresh(controls: FrameControls, elapsed_millis: u64)
    ensures
        ({
            let begun = controls.begun(elapsed_millis);
            &&& begun.previous_elapsed_millis == elapsed_millis
            &&& elapsed_millis >= controls.previous_elapsed_millis
                ==> controls.previous_elapsed_millis + begun.delta_millis == elapsed_millis
            &&& elapsed_millis < controls.previous_elapsed_millis ==> begun.delta_millis == 0
            &&& begun.phase == ServicePhase::Keyboard
            &&& begun.camera == controls.camera
            &&& begun.resize_drag == controls.resize_drag
            &&& begun.pointers.drag == controls.resize_drag
            &&& begun.pointers.live_extent is None
            &&& begun.requested is None
            &&& begun.pending is None
        }),
{
}

/// The keyboard decides which ship is followed in this very frame, and the
/// camera is stepped by the time that the frame took.
pub proof fn lemma_the_keyboard_decides_the_camera(
    controls: FrameControls,
    keyboard: Option<KeyboardState>,
)
    ensures
        ({
            let (after, action) = controls.next(ServiceEvent::Keyboard(Ok(keyboard)));
            let tab = keyboard matches Some(state) && state.down@.contains(0x2b);
            let fly = keyboard matches Some(state) && {
                ||| state.down@.contains(0x04)
                ||| state.down@.contains(0x07)
                ||| state.down@.contains(0x08)
                ||| state.down@.contains(0x14)
                ||| state.down@.contains(0x16)
                ||| state.down@.contains(0x1a)
            };
            &&& after.camera.tab_down == tab
            &&& fly ==> after.camera.mode == crate::camera::CameraMode::Fly
            &&& after == (FrameControls {
                camera: controls.camera.serviced(tab, fly),
                phase: ServicePhase::Camera,
                ..controls
            })
            &&& action == (ServiceAction::StepCamera {
                follow: match after.camera.mode {
                    crate::camera::CameraMode::Fly => None,
                    crate::camera::CameraMode::BirdFollow(slot) => Some(slot),
                },
                delta_millis: controls.delta_millis,
            })
        }),
{
    match keyboard {
        Some(state) => crate::camera::lemma_the_keys(Some(&state)),
        None => crate::camera::lemma_the_keys(None),
    }
}

/// After the camera the resize requests are taken, after them the output is
/// read, and after it the pointer events are taken; nothing of what the frame
/// gathered is lost on the way.
pub proof fn lemma_the_course_of_a_frame(
    controls: FrameControls,
    extent: Extent,
    frame: Extent,
    pointer: PointerEvent,
)
    ensures
        controls.next(ServiceEvent::CameraStepped(Ok(()))) == (
            FrameControls { phase: ServicePhase::ResizeEvents, ..controls },
            ServiceAction::TakeResize,
        ),
        controls.next(ServiceEvent::ResizeTaken(Ok(Some(extent)), frame)) == (
            FrameControls { requested: Some(extent), frame, ..controls },
            ServiceAction::TakeResize,
        ),
        controls.next(ServiceEvent::OutputRead(Ok(extent))) == (
            FrameControls { output: extent, phase: ServicePhase::Pointers, ..controls },
            ServiceAction::TakePointer,
        ),
        controls.next(ServiceEvent::PointerTaken(Ok(Some(pointer)), frame)) == (
            FrameControls {
                pending: Some(pointer),
                frame,
                phase: ServicePhase::Cursor,
                ..controls
            },
            ServiceAction::RoutePointer(
                pointer,
                routed(controls.pointers.drag, pointer, frame),
            ),
        ),
        controls.pending matches Some(event) ==> controls.next(ServiceEvent::CursorSet(Ok(())))
            == (
            FrameControls {
                pointers: controls.pointers.after(event, controls.frame, controls.output),
                pending: None,
                phase: ServicePhase::Pointers,
                ..controls
            },
            ServiceAction::TakePointer,
        ),
        controls.phase == ServicePhase::MaximizeResize ==> controls.next(
            ServiceEvent::Resized(Ok(())),
        ) == (
            FrameControls { phase: ServicePhase::Output, ..controls },
            ServiceAction::ReadOutput,
        ),
        controls.phase == ServicePhase::LiveResize ==> controls.next(
            ServiceEvent::Resized(Ok(())),
        ) == (FrameControls { phase: ServicePhase::Ended, ..controls }, ServiceAction::Ready),
{
}

/// Once no request is left the frame is resized to the last one, unless it has
/// that size; once no pointer event is left it keeps the drag for the next
/// frame and is resized to the size that was dragged to last, unless it has
/// that size.
pub proof fn lemma_what_ends_a_queue(controls: FrameControls, frame: Extent)
    ensures
        ({
            let (after, action) = controls.next(ServiceEvent::ResizeTaken(Ok(None), frame));
            let resizes = controls.requested is Some && controls.requested->Some_0 != frame;
            &&& action == (if resizes {
                ServiceAction::Resize(controls.requested->Some_0)
            } else {
                ServiceAction::ReadOutput
            })
            &&& after == (FrameControls {
                frame,
                phase: if resizes {
                    ServicePhase::MaximizeResize
                } else {
                    ServicePhase::Output
                },
                ..controls
            })
        }),
        ({
            let (after, action) = controls.next(ServiceEvent::PointerTaken(Ok(None), frame));
            let live = controls.pointers.live_extent;
            let resizes = live is Some && live->Some_0 != frame;
            &&& action == (if resizes {
                ServiceAction::Resize(live->Some_0)
            } else {
                ServiceAction::Ready
            })
            &&& after == (FrameControls {
                frame,
                resize_drag: controls.pointers.drag,
                phase: if resizes {
                    ServicePhase::LiveResize
                } else {
                    ServicePhase::Ended
                },
                ..controls
            })
        }),
{
}

/// Every call of a frame fails under a name of its own, and with the error that
/// it ended in.
pub proof fn lemma_calls_fail_under_their_names(
    controls: FrameControls,
    error: Ui4Error,
    frame: Extent,
)
    ensures
        ({
            let failed = |event: ServiceEvent, name: &'static str|
                controls.next(event) == (
                    FrameControls { phase: ServicePhase::Ended, ..controls },
                    ServiceAction::Fail(GeometryProbeError::Ui4(name, error)),
                );
            &&& controls.phase == ServicePhase::Keyboard ==> failed(
                ServiceEvent::Keyboard(Err(error)),
                "fleet-camera-hotkeys",
            )
            &&& controls.phase == ServicePhase::Camera ==> failed(
                ServiceEvent::CameraStepped(Err(error)),
                "flycam-ui4",
            )
            &&& controls.phase == ServicePhase::ResizeEvents ==> failed(
                ServiceEvent::ResizeTaken(Err(error), frame),
                "resize-event",
            )
            &&& controls.phase == ServicePhase::MaximizeResize ==> failed(
                ServiceEvent::Resized(Err(error)),
                "maximize-resize",
            )
            &&& controls.phase == ServicePhase::Output ==> failed(
                ServiceEvent::OutputRead(Err(error)),
                "output-extent",
            )
            &&& controls.phase == ServicePhase::Pointers ==> failed(
                ServiceEvent::PointerTaken(Err(error), frame),
                "pointer-event",
            )
            &&& controls.phase == ServicePhase::Cursor ==> failed(
                ServiceEvent::CursorSet(Err(error)),
                "resize-cursor",
            )
            &&& controls.phase == ServicePhase::LiveResize ==> failed(
                ServiceEvent::Resized(Err(error)),
                "live-resize",
            )
        }),
{
}

/// A frame waits for the answer to the call that it made last, and can judge
/// any answer but a pointer without a grip and a drag on an output below the
/// least size.
pub proof fn lemma_what_a_frame_waits_for(controls: FrameControls, event: ServiceEvent)
    ensures
        controls.awaits(event) <==> match event {
            ServiceEvent::Keyboard(_) => controls.phase == ServicePhase::Keyboard,
            ServiceEvent::CameraStepped(_) => controls.phase == ServicePhase::Camera,
            ServiceEvent::ResizeTaken(_, _) => controls.phase == ServicePhase::ResizeEvents,
            ServiceEvent::Resized(_) => controls.phase == ServicePhase::MaximizeResize
                || controls.phase == ServicePhase::LiveResize,
            ServiceEvent::OutputRead(_) => controls.phase == ServicePhase::Output,
            ServiceEvent::PointerTaken(_, _) => controls.phase == ServicePhase::Pointers,
            ServiceEvent::CursorSet(_) => controls.phase == ServicePhase::Cursor,
        },
        event.failure() is Some ==> controls.admits(event),
        !(event is PointerTaken) && !(event is CursorSet) ==> controls.admits(event),
        controls.output.width >= 160 && controls.output.height >= 90 && event is CursorSet
            ==> controls.admits(event),
        event matches ServiceEvent::PointerTaken(Ok(Some(pointer)), frame) ==> (controls.admits(
            event,
        ) <==> grip_exists(pointer, frame)),
{
}

/// An event whose cursor was set can be judged exactly where it moves no drag or
/// the output holds the least size; it moves a drag where it is a press on the
/// grip or belongs to the pointer that drags.
pub proof fn lemma_which_drags_can_be_judged(controls: FrameControls, pointer: PointerEvent)
    requires
        controls.pending == Some(pointer),
    ensures
        controls.admits(ServiceEvent::CursorSet(Ok(()))) <==> {
            ||| controls.output.width >= 160 && controls.output.height >= 90
            ||| !(pointer.primary_pressed && crate::interaction::in_grip(pointer, controls.frame))
                && (controls.pointers.drag is None || controls.pointers.drag->Some_0.source
                != pointer.source)
        },
{
}

} // verus!
