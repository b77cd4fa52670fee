//! One frame from its input to its end: rendered, deferred or failed.
use crate::asset::PreparedAsset;
use crate::error::{GeometryProbeError, Ui4Error};
use crate::frame::{render_admitted_frame, ServiceAction, ServiceEvent};
use crate::geometry::ShipPose;
use crate::interaction::Extent;
use crate::probe::{FrameReport, GeometryProbe, Submission, SubmitAction, SubmitEvent, SubmitPhase};
#[allow(unused_imports)]
use crate::probe::{frame_ended, submission_step, writes_fleet};
use vstd::prelude::*;

verus! {

/// The part of the frame that waits for an answer.
#[derive(Clone, Copy, Debug, PartialEq, Eq, Structural)]
pub enum RenderPhase {
    Service,
    Admission,
    Submission,
    Ended,
}

/// A frame in progress.
#[derive(Clone, Copy, Debug, PartialEq, Eq)]
pub struct FrameRender {
    pub phase: RenderPhase,
    pub submission: Submission,
}

/// The answer to a call of a frame.
pub enum RenderEvent {
    Service(ServiceEvent),
    /// Whether the back buffer was acquired, and the view and projection that
    /// the frame is drawn with, as bit patterns, and its size.
    Admitted(Result<(), Ui4Error>, [u32; 16], Extent),
    Submit(SubmitEvent),
}

/// The call to make next, or how the frame ended.
#[derive(Clone, Copy, Debug)]
pub enum RenderAction {
    Service(ServiceAction),
    /// Place the camera and acquire the back buffer.
    Begin,
    Submit(SubmitAction),
    Done { rendered: bool, report: Option<FrameReport> },
    Fail(GeometryProbeError),
}

/// A frame that was not admitted yet.
pub open spec fn unsubmitted(
    view_projection: [u32; 16],
    extent: Extent,
    poses: [ShipPose; 3],
) -> Submission {
    Submission {
        phase: SubmitPhase::Surface,
        surface: 0,
        point: 0,
        view_projection,
        extent,
        poses,
    }
}

/// The scene and the frame together.
pub struct FrameState {
    pub probe: GeometryProbe,
    pub render: FrameRender,
}

impl FrameState {
    /// Whether an event answers the call that the frame waits for, and can be
    /// judged.
    pub open spec fn awaits(self, event: RenderEvent) -> bool {
        match event {
            RenderEvent::Service(event) => {
                &&& self.render.phase == RenderPhase::Service
                &&& self.probe.controls.awaits(event)
                &&& self.probe.controls.admits(event)
            },
            RenderEvent::Admitted(_, _, _) => self.render.phase == RenderPhase::Admission,
            RenderEvent::Submit(event) => {
                &&& self.render.phase == RenderPhase::Submission
                &&& self.render.submission.awaits(event)
            },
        }
    }

    /// The same scene, with the frame in another phase.
    pub open spec fn in_phase(self, phase: RenderPhase) -> FrameState {
        FrameState { render: FrameRender { phase, ..self.render }, ..self }
    }

    /// The scene with a frame ended, whether rendered or deferred.
    pub open spec fn ended(self, rendered: bool) -> FrameState {
        FrameState {
            probe: GeometryProbe {
                deferred_frames: frame_ended(
                    self.probe.deferred_frames,
                    self.probe.timeline,
                    rendered,
                ).0,
                ..self.probe
            },
            ..self
        }.in_phase(RenderPhase::Ended)
    }

    /// The scene with the view and the timeline of the frame's submission.
    pub open spec fn committed(self) -> FrameState {
        FrameState {
            probe: GeometryProbe {
                timeline: self.render.submission.point,
                previous_view_projection: self.render.submission.view_projection,
                ..self.probe
            },
            ..self
        }
    }

    /// What there is to report once the frame ended.
    pub open spec fn report(self, rendered: bool) -> Option<FrameReport> {
        frame_ended(self.probe.deferred_frames, self.probe.timeline, rendered).1
    }
}

/// How a frame goes on after an answer to a call of its input.
pub open spec fn service_step(
    before: FrameState,
    event: ServiceEvent,
    after: FrameState,
    action: RenderAction,
) -> bool {
    let (controls, next) = before.probe.controls.next(event);
    let serviced = FrameState {
        probe: GeometryProbe { controls, ..before.probe },
        ..before
    };
    match next {
        ServiceAction::Ready => {
            &&& after == serviced.in_phase(RenderPhase::Admission)
            &&& action is Begin
        },
        ServiceAction::Fail(error) => {
            &&& after == serviced.in_phase(RenderPhase::Ended)
            &&& action == RenderAction::Fail(error)
        },
        _ => {
            &&& after == serviced
            &&& action == RenderAction::Service(next)
        },
    }
}

/// How a frame goes on once its admission was answered: a busy back buffer
/// defers it, any other error ends it, and without an error it is submitted.
pub open spec fn admission_step(
    before: FrameState,
    admission: Result<(), Ui4Error>,
    view_projection: [u32; 16],
    extent: Extent,
    after: FrameState,
    action: RenderAction,
) -> bool {
    match admission {
        Ok(_) => {
            &&& after.probe == before.probe
            &&& after.render == (FrameRender {
                phase: RenderPhase::Submission,
                submission: unsubmitted(
                    view_projection,
                    extent,
                    before.render.submission.poses,
                ),
            })
            &&& action == RenderAction::Submit(SubmitAction::AcquireSurface)
        },
        Err(Ui4Error::Busy) => {
            &&& after == before.ended(false)
            &&& action == (RenderAction::Done { rendered: false, report: before.report(false) })
        },
        Err(error) => {
            &&& after == before.in_phase(RenderPhase::Ended)
            &&& action == RenderAction::Fail(GeometryProbeError::Ui4("frame-begin", error))
        },
    }
}

/// How a frame goes on after an answer to a call of its submission.
pub open spec fn submit_step(
    before: FrameState,
    event: SubmitEvent,
    asset: PreparedAsset,
    unsupported: i32,
    incomplete: i32,
    after: FrameState,
    action: RenderAction,
) -> bool {
    exists|next: SubmitAction|
        {
            &&& #[trigger] submission_step(
                before.render.submission,
                event,
                before.probe.resources,
                asset,
                unsupported,
                incomplete,
                after.render.submission,
                next,
            )
            &&& match next {
                SubmitAction::Committed => {
                    &&& after.probe == before.committed().ended(true).probe
                    &&& after.render.phase == RenderPhase::Ended
                    &&& action == (RenderAction::Done {
                        rendered: true,
                        report: before.committed().report(true),
                    })
                },
                SubmitAction::Fail(error) => {
                    &&& after.probe == before.probe
                    &&& after.render.phase == RenderPhase::Ended
                    &&& action == RenderAction::Fail(error)
                },
                _ => {
                    &&& after.probe == before.probe
                    &&& after.render.phase == RenderPhase::Submission
                    &&& action == RenderAction::Submit(next)
                },
            }
        }
}

/// How a frame goes on after an answer.
pub open spec fn render_step(
    before: FrameState,
    event: RenderEvent,
    asset: PreparedAsset,
    unsupported: i32,
    incomplete: i32,
    after: FrameState,
    action: RenderAction,
) -> bool {
    match event {
        RenderEvent::Service(event) => service_step(before, event, after, action),
        RenderEvent::Admitted(admission, view_projection, extent) => admission_step(
            before,
            admission,
            view_projection,
            extent,
            after,
            action,
        ),
        RenderEvent::Submit(event) => submit_step(
            before,
            event,
            asset,
            unsupported,
            incomplete,
            after,
            action,
        ),
    }
}

/// Nothing more to do before an admitted frame is submitted.
fn go_on() -> (outcome: Result<(), GeometryProbeError>)
    ensures
        outcome is Ok,
{
    Ok(())
}

impl FrameRender {
    /// Begin a frame with its input.  The ships are where they are at the
    /// frame's time; the view and the size are known once it is admitted.
    pub fn begin(
        probe: &mut GeometryProbe,
        elapsed_millis: u64,
        poses: [ShipPose; 3],
    ) -> (started: (FrameRender, RenderAction))
        requires
            old(probe).wf(),
        ensures
            final(probe).wf(),
            *final(probe) == (GeometryProbe {
                controls: old(probe).controls.begun(elapsed_millis),
                ..*old(probe)
            }),
            started.0 == (FrameRender {
                phase: RenderPhase::Service,
                submission: unsubmitted(
                    old(probe).previous_view_projection,
                    Extent { width: 0, height: 0 },
                    poses,
                ),
            }),
            started.1 == RenderAction::Service(ServiceAction::ReadKeyboard),
    {
        let action = probe.render_frame(elapsed_millis);
        let extent = Extent { width: 0, height: 0 };
        let (submission, _) = Submission::begin(probe.previous_view_projection, extent, poses);
        (FrameRender { phase: RenderPhase::Service, submission }, RenderAction::Service(action))
    }

    /// End a frame that was rendered or deferred.
    fn finish(&mut self, probe: &mut GeometryProbe, rendered: bool) -> (action: RenderAction)
        requires
            old(probe).wf(),
        ensures
            final(probe).wf(),
            *final(self) == (FrameRender { phase: RenderPhase::Ended, ..*old(self) }),
            *final(probe) == (GeometryProbe {
                deferred_frames: frame_ended(
                    old(probe).deferred_frames,
                    old(probe).timeline,
                    rendered,
                ).0,
                ..*old(probe)
            }),
            action == (RenderAction::Done {
                rendered,
                report: frame_ended(
                    old(probe).deferred_frames,
                    old(probe).timeline,
                    rendered,
                ).1,
            }),
    {
        self.phase = RenderPhase::Ended;
        let report = probe.finish_frame(rendered);
        RenderAction::Done { rendered, report }
    }

    /// Take the answer to the last call and tell the next one.
    pub fn advance(
        &mut self,
        probe: &mut GeometryProbe,
        event: RenderEvent,
        asset: &PreparedAsset,
        unsupported: i32,
        incomplete: i32,
    ) -> (action: RenderAction)
        requires
            old(probe).wf(),
            (FrameState { probe: *old(probe), render: *old(self) }).awaits(event),
        ensures
            final(probe).wf(),
            render_step(
                (FrameState { probe: *old(probe), render: *old(self) }),
                event,
                *asset,
                unsupported,
                incomplete,
                (FrameState { probe: *final(probe), render: *final(self) }),
                action,
            ),
    {
        match event {
            RenderEvent::Service(event) => match probe.service(event) {
                ServiceAction::Ready => {
                    self.phase = RenderPhase::Admission;
                    RenderAction::Begin
                },
                ServiceAction::Fail(error) => {
                    self.phase = RenderPhase::Ended;
                    RenderAction::Fail(error)
                },
                action => RenderAction::Service(action),
            },
            RenderEvent::Admitted(admission, view_projection, extent) => {
                match render_admitted_frame(admission, go_on) {
                    Ok(true) => {
                        let (submission, action) = Submission::begin(
                            view_projection,
                            extent,
                            self.submission.poses,
                        );
                        self.submission = submission;
                        self.phase = RenderPhase::Submission;
                        RenderAction::Submit(action)
                    },
                    Ok(false) => self.finish(probe, false),
                    Err(error) => {
                        self.phase = RenderPhase::Ended;
                        RenderAction::Fail(error)
                    },
                }
            },
            RenderEvent::Submit(event) => {
                let mut submission = self.submission;
                let next = probe.submit(&mut submission, event, asset, unsupported, incomplete);
                self.submission = submission;
                match next {
                    SubmitAction::Committed => self.finish(probe, true),
                    SubmitAction::Fail(error) => {
                        self.phase = RenderPhase::Ended;
                        RenderAction::Fail(error)
                    },
                    _ => RenderAction::Submit(next),
                }
            },
        }
    }
}

/// A frame that finds the back buffer busy is deferred: it submits nothing and
/// keeps the timeline, the last view and the resources.
pub proof fn lemma_busy_frames_are_deferred(
    before: FrameState,
    view_projection: [u32; 16],
    extent: Extent,
    asset: PreparedAsset,
    unsupported: i32,
    incomplete: i32,
    after: FrameState,
    action: RenderAction,
)
    requires
        render_step(
            before,
            RenderEvent::Admitted(Err(Ui4Error::Busy), view_projection, extent),
            asset,
            unsupported,
            incomplete,
            after,
            action,
        ),
    ensures
        action matches RenderAction::Done { rendered, .. } && !rendered,
        after.probe.timeline == before.probe.timeline,
        after.probe.previous_view_projection == before.probe.previous_view_projection,
        after.probe.resources == before.probe.resources,
        after.probe.controls == before.probe.controls,
        before.probe.deferred_frames < u64::MAX ==> after.probe.deferred_frames
            == before.probe.deferred_frames + 1,
{
}

/// A frame counts as rendered exactly once it was published, and only then the
/// timeline and the last view move on, to those of its submission.
pub proof fn lemma_publication_ends_a_rendered_frame(
    before: FrameState,
    event: RenderEvent,
    asset: PreparedAsset,
    unsupported: i32,
    incomplete: i32,
    after: FrameState,
    action: RenderAction,
)
    requires
        render_step(before, event, asset, unsupported, incomplete, after, action),
    ensures
        (action matches RenderAction::Done { rendered, .. } && rendered) <==> event
            matches RenderEvent::Submit(SubmitEvent::Published(Ok(_))),
        event matches RenderEvent::Submit(SubmitEvent::Published(Ok(_))) ==> {
            &&& after.probe.timeline == before.render.submission.point
            &&& after.probe.previous_view_projection == before.render.submission.view_projection
            &&& after.probe.deferred_frames == 0
        },
        !(event matches RenderEvent::Submit(SubmitEvent::Published(Ok(_)))) ==> {
            &&& after.probe.timeline == before.probe.timeline
            &&& after.probe.previous_view_projection == before.probe.previous_view_projection
        },
{
}

/// Once a frame is admitted no error defers it: it goes on, is rendered, or
/// fails.
pub proof fn lemma_admitted_frames_are_never_deferred(
    before: FrameState,
    event: SubmitEvent,
    asset: PreparedAsset,
    unsupported: i32,
    incomplete: i32,
    after: FrameState,
    action: RenderAction,
)
    requires
        render_step(
            before,
            RenderEvent::Submit(event),
            asset,
            unsupported,
            incomplete,
            after,
            action,
        ),
    ensures
        action is Submit || action is Fail || (action matches RenderAction::Done { rendered, .. }
            && rendered),
        event matches SubmitEvent::Published(Err(error)) ==> action == RenderAction::Fail(
            GeometryProbeError::Ui4("frame-publish", error),
        ),
{
}

/// A frame keeps the poses that it began with: no answer changes them, so the
/// rows that it writes are theirs.
pub proof fn lemma_frames_write_the_rows_of_their_poses(
    before: FrameState,
    event: RenderEvent,
    asset: PreparedAsset,
    unsupported: i32,
    incomplete: i32,
    after: FrameState,
    action: RenderAction,
)
    requires
        render_step(before, event, asset, unsupported, incomplete, after, action),
    ensures
        after.render.submission.poses == before.render.submission.poses,
        action matches RenderAction::Submit(call) ==> call is WriteSeeds ==> writes_fleet(
            call,
            before.render.submission.poses,
            before.probe.resources,
        ),
{
}

/// A frame is submitted only once all of the fleet's table was written.
pub proof fn lemma_frames_are_submitted_over_a_whole_table(
    before: FrameState,
    event: RenderEvent,
    asset: PreparedAsset,
    unsupported: i32,
    incomplete: i32,
    after: FrameState,
    action: RenderAction,
)
    requires
        before.probe.wf(),
        render_step(before, event, asset, unsupported, incomplete, after, action),
        action matches RenderAction::Submit(call) && call is Submit,
    ensures
        event matches RenderEvent::Submit(SubmitEvent::SeedsWritten(Ok(written))) && written
            == before.probe.resources.seed_table_bytes(),
{
}

/// A scene goes on without a publication: an answer that is none takes a frame
/// on, or the next frame begins.
pub open spec fn unpublished_step(before: FrameState, after: FrameState) -> bool {
    ||| exists|
        event: RenderEvent,
        asset: PreparedAsset,
        unsupported: i32,
        incomplete: i32,
        action: RenderAction,
    |
        {
            &&& #[trigger] render_step(
                before,
                event,
                asset,
                unsupported,
                incomplete,
                after,
                action,
            )
            &&& !(event matches RenderEvent::Submit(SubmitEvent::Published(Ok(_))))
        }
    ||| exists|elapsed_millis: u64|
        after.probe == (GeometryProbe {
            controls: #[trigger] before.probe.controls.begun(elapsed_millis),
            ..before.probe
        })
}

proof fn lemma_unpublished_step(before: FrameState, after: FrameState)
    requires
        unpublished_step(before, after),
    ensures
        after.probe.timeline == before.probe.timeline,
        after.probe.previous_view_projection == before.probe.previous_view_projection,
        after.probe.resources == before.probe.resources,
        after.probe.deferred_frames >= before.probe.deferred_frames,
{
    if exists|elapsed_millis: u64|
        after.probe == (GeometryProbe {
            controls: #[trigger] before.probe.controls.begun(elapsed_millis),
            ..before.probe
        }) {
    } else {
        let (event, asset, unsupported, incomplete, action) = choose|
            event: RenderEvent,
            asset: PreparedAsset,
            unsupported: i32,
            incomplete: i32,
            action: RenderAction,
        |
            {
                &&& #[trigger] render_step(
                    before,
                    event,
                    asset,
                    unsupported,
                    incomplete,
                    after,
                    action,
                )
                &&& !(event matches RenderEvent::Submit(SubmitEvent::Published(Ok(_))))
            };
        lemma_publication_ends_a_rendered_frame(
            before,
            event,
            asset,
            unsupported,
            incomplete,
            after,
            action,
        );
    }
}

/// However many frames pass without a publication, deferred or failed, the
/// timeline, the last view and the resources stay, and no deferral is
/// forgotten.
pub proof fn lemma_unpublished_frames_keep_the_scene(states: Seq<FrameState>)
    requires
        states.len() > 0,
        forall|i: int|
            0 <= i < states.len() - 1 ==> unpublished_step(#[trigger] states[i], states[i + 1]),
    ensures
        states.last().probe.timeline == states[0].probe.timeline,
        states.last().probe.previous_view_projection == states[0].probe.previous_view_projection,
        states.last().probe.resources == states[0].probe.resources,
        states.last().probe.deferred_frames >= states[0].probe.deferred_frames,
    decreases states.len(),
{
    if states.len() > 1 {
        let front = states.drop_last();
        assert forall|i: int| 0 <= i < front.len() - 1 implies unpublished_step(
            #[trigger] front[i],
            front[i + 1],
        ) by {
            assert(front[i] == states[i] && front[i + 1] == states[i + 1]);
        }
        lemma_unpublished_frames_keep_the_scene(front);
        assert(unpublished_step(states[states.len() - 2], states[states.len() - 1]));
        lemma_unpublished_step(front.last(), states.last());
    }
}

/// A frame is admitted once its input is serviced.  An admitted frame is
/// submitted with the view and the size that it was admitted with; a busy back
/// buffer defers it, and any other error ends it.
pub proof fn lemma_how_a_frame_is_admitted(
    before: FrameState,
    admission: Result<(), Ui4Error>,
    view_projection: [u32; 16],
    extent: Extent,
    asset: PreparedAsset,
    unsupported: i32,
    incomplete: i32,
    after: FrameState,
    action: RenderAction,
)
    requires
        render_step(
            before,
            RenderEvent::Admitted(admission, view_projection, extent),
            asset,
            unsupported,
            incomplete,
            after,
            action,
        ),
    ensures
        admission is Ok ==> {
            &&& action == RenderAction::Submit(SubmitAction::AcquireSurface)
            &&& after.probe == before.probe
            &&& after.render.phase == RenderPhase::Submission
            &&& after.render.submission.phase == SubmitPhase::Surface
            &&& after.render.submission.view_projection == view_projection
            &&& after.render.submission.extent == extent
            &&& after.render.submission.poses == before.render.submission.poses
        },
        admission == Err::<(), Ui4Error>(Ui4Error::Busy) ==> {
            &&& action matches RenderAction::Done { rendered, report } && !rendered
            &&& after.render.phase == RenderPhase::Ended
            &&& after.probe == (GeometryProbe {
                deferred_frames: after.probe.deferred_frames,
                ..before.probe
            })
        },
        admission is Err && admission->Err_0 != Ui4Error::Busy ==> {
            &&& action == RenderAction::Fail(
                GeometryProbeError::Ui4("frame-begin", admission->Err_0),
            )
            &&& after.render.phase == RenderPhase::Ended
            &&& after.probe == before.probe
        },
{
}

/// Servicing a frame's input changes its controls only; the frame goes on to
/// its admission exactly where the input is done, and ends where it failed.
pub proof fn lemma_how_a_frame_is_serviced(
    before: FrameState,
    event: ServiceEvent,
    asset: PreparedAsset,
    unsupported: i32,
    incomplete: i32,
    after: FrameState,
    action: RenderAction,
)
    requires
        render_step(
            before,
            RenderEvent::Service(event),
            asset,
            unsupported,
            incomplete,
            after,
            action,
        ),
    ensures
        ({
            let (controls, next) = before.probe.controls.next(event);
            &&& after.probe == (GeometryProbe { controls, ..before.probe })
            &&& after.render.submission == before.render.submission
            &&& match next {
                ServiceAction::Ready => action is Begin && after.render.phase
                    == RenderPhase::Admission,
                ServiceAction::Fail(error) => action == RenderAction::Fail(error)
                    && after.render.phase == RenderPhase::Ended,
                _ => action == RenderAction::Service(next) && after.render.phase
                    == before.render.phase,
            }
        }),
{
}

/// The calls of a frame's submission are those of the submission; its failure
/// is the frame's, and a published frame is reported with its own point.
pub proof fn lemma_how_a_frame_is_submitted(
    before: FrameState,
    event: SubmitEvent,
    asset: PreparedAsset,
    unsupported: i32,
    incomplete: i32,
    after: FrameState,
    action: RenderAction,
)
    requires
        render_step(
            before,
            RenderEvent::Submit(event),
            asset,
            unsupported,
            incomplete,
            after,
            action,
        ),
    ensures
        action matches RenderAction::Submit(call) ==> {
            &&& after.probe == before.probe
            &&& after.render.phase == RenderPhase::Submission
            &&& submission_step(
                before.render.submission,
                event,
                before.probe.resources,
                asset,
                unsupported,
                incomplete,
                after.render.submission,
                call,
            )
        },
        action matches RenderAction::Fail(error) ==> {
            &&& after.probe == before.probe
            &&& after.render.phase == RenderPhase::Ended
            &&& submission_step(
                before.render.submission,
                event,
                before.probe.resources,
                asset,
                unsupported,
                incomplete,
                after.render.submission,
                SubmitAction::Fail(error),
            )
        },
        action matches RenderAction::Done { rendered, report } ==> {
            &&& rendered
            &&& after.render.phase == RenderPhase::Ended
            &&& after.probe == (GeometryProbe {
                timeline: before.render.submission.point,
                previous_view_projection: before.render.submission.view_projection,
                deferred_frames: 0,
                ..before.probe
            })
            &&& before.probe.deferred_frames > 0 ==> report == Some(
                FrameReport::Resumed {
                    deferred_frames: before.probe.deferred_frames,
                    timeline: before.render.submission.point,
                },
            )
            &&& before.probe.deferred_frames == 0 ==> report is None
        },
        !(action is Begin) && !(action is Service),
{
}

/// A frame waits for the answer to the part that it is in.
pub proof fn lemma_what_a_frame_waits_for(state: FrameState, event: RenderEvent)
    ensures
        state.awaits(event) <==> match event {
            RenderEvent::Service(event) => {
                &&& state.render.phase == RenderPhase::Service
                &&& state.probe.controls.awaits(event)
                &&& state.probe.controls.admits(event)
            },
            RenderEvent::Admitted(_, _, _) => state.render.phase == RenderPhase::Admission,
            RenderEvent::Submit(event) => {
                &&& state.render.phase == RenderPhase::Submission
                &&& state.render.submission.awaits(event)
            },
        },
{
}

} // verus!
