//! The resident scene: its device resources, and the submission of a frame.
use crate::asset::PreparedAsset;
use crate::error::{GeometryProbeError, Ui4Error};
use crate::frame::{write_exact, FrameControls, ServiceAction, ServiceEvent};
#[allow(unused_imports)]
use crate::frame::write_outcome;
#[allow(unused_imports)]
use crate::geometry::fleet_rows;
use crate::geometry::{ship_seeds, RetainedTransformSeed, ShipPose, SHIP_INSTANCE_COUNT};
use crate::interaction::Extent;
use crate::material::{retained_material_texture_ids, ResidentMaterial, RetainedMaterialParameters};
#[allow(unused_imports)]
use crate::material::id_or_zero;
use vstd::prelude::*;

verus! {

/// The colour behind the fleet: the little-endian word of 0, 128, 0, 0.
pub const CLEAR_RGBA8_SRGB: u32 = 0x8000;

/// How often a busy back buffer is reported again.
pub const DEFERRAL_REPORT_PERIOD: u64 = 120;

/// Device handles and material scalars, one of each for every asset.
pub struct SceneResources {
    pub asset_vertex_buffers: Vec<Option<u64>>,
    pub asset_index_buffers: Vec<Option<u64>>,
    pub retained_meshes: Vec<Option<u64>>,
    pub material_textures: Vec<ResidentMaterial>,
    pub material_parameters: Vec<RetainedMaterialParameters>,
    pub ship_seed_buffer: u64,
    /// The device's size of one row of the fleet's table.
    pub ship_seed_bytes: usize,
}

impl SceneResources {
    /// Every table has a row for each asset, there is an asset, and the fleet's
    /// table has a size.
    pub open spec fn wf(self) -> bool {
        &&& self.asset_vertex_buffers@.len() > 0
        &&& self.asset_index_buffers@.len() == self.asset_vertex_buffers@.len()
        &&& self.retained_meshes@.len() == self.asset_vertex_buffers@.len()
        &&& self.material_textures@.len() == self.asset_vertex_buffers@.len()
        &&& self.material_parameters@.len() == self.asset_vertex_buffers@.len()
        &&& self.seed_table_bytes() <= usize::MAX
    }

    /// The size of the fleet's table: a row for each ship.
    pub open spec fn seed_table_bytes(self) -> int {
        SHIP_INSTANCE_COUNT * self.ship_seed_bytes
    }

    /// Whether everything that a submission binds is resident.
    pub open spec fn drawable(self) -> bool {
        &&& self.retained_meshes@[0] is Some
        &&& self.asset_vertex_buffers@[0] is Some
        &&& self.asset_index_buffers@[0] is Some
    }
}

/// One indexed draw.
#[derive(Clone, Copy, Debug, PartialEq, Eq, Structural)]
pub struct DrawRange {
    pub first_index: u32,
    pub index_count: u32,
}

/// Everything of a submission but the camera.
#[derive(Clone, Copy, Debug)]
pub struct FrameSubmission {
    pub surface: u64,
    pub mesh: u64,
    pub vertices: u64,
    pub indices: u64,
    pub textures: [u64; 5],
    pub parameters: RetainedMaterialParameters,
    pub clear_rgba8_srgb: u32,
    pub seed_buffer: u64,
    pub seed_offset: u64,
    pub seed_count: u32,
    pub draw_count: u32,
    pub draw: DrawRange,
}

/// Whether a submission draws the whole first asset once, with its own buffers
/// and material, for every ship.
pub open spec fn submits_fleet(
    submission: FrameSubmission,
    surface: u64,
    resources: SceneResources,
    asset: PreparedAsset,
) -> bool {
    &&& submission.surface == surface
    &&& Some(submission.mesh) == resources.retained_meshes@[0]
    &&& Some(submission.vertices) == resources.asset_vertex_buffers@[0]
    &&& Some(submission.indices) == resources.asset_index_buffers@[0]
    &&& submission.textures@ == Seq::new(
        5,
        |i: int|
            if asset.sampled_material {
                id_or_zero(resources.material_textures@[0].slots()[i])
            } else {
                0
            },
    )
    &&& submission.parameters == resources.material_parameters@[0]
    &&& submission.clear_rgba8_srgb == CLEAR_RGBA8_SRGB
    &&& submission.seed_buffer == resources.ship_seed_buffer
    &&& submission.seed_offset == 0
    &&& submission.seed_count == SHIP_INSTANCE_COUNT
    &&& submission.draw_count == 1
    &&& submission.draw == (DrawRange { first_index: 0, index_count: asset.index_count })
}

/// The call whose answer a submission waits for.
#[derive(Clone, Copy, Debug, PartialEq, Eq, Structural)]
pub enum SubmitPhase {
    Surface,
    Seeds,
    Submit,
    Wait,
    Publish,
    Ended,
}

/// A submission in progress.
#[derive(Clone, Copy, Debug, PartialEq, Eq)]
pub struct Submission {
    pub phase: SubmitPhase,
    pub surface: u64,
    /// The timeline point that retires the frame.
    pub point: u64,
    /// The view and projection that the frame is drawn with, as bit patterns.
    pub view_projection: [u32; 16],
    /// The size that the frame is drawn at.
    pub extent: Extent,
    /// Where the ships are in this frame.
    pub poses: [ShipPose; 3],
}

/// The answer to a call of a submission.
#[derive(Clone, Copy, Debug, PartialEq, Eq)]
pub enum SubmitEvent {
    SurfaceAcquired(Result<u64, i32>),
    /// How many bytes of the fleet's rows the device said it wrote.
    SeedsWritten(Result<usize, i32>),
    Submitted(Result<u64, i32>),
    Waited(Result<(), i32>),
    Published(Result<(), Ui4Error>),
}

/// The call to make next, or how the submission ended.
#[derive(Clone, Copy, Debug)]
pub enum SubmitAction {
    AcquireSurface,
    /// Write the fleet's rows, so many bytes of them.
    WriteSeeds { buffer: u64, offset: u64, rows: [RetainedTransformSeed; 3], bytes: usize },
    Submit(FrameSubmission),
    Wait(u64),
    /// Publish a frame of this size, all of it damaged.
    Publish(Extent),
    Committed,
    Fail(GeometryProbeError),
}

/// Whether a call writes the rows of a frame's poses, all of them, over the
/// fleet's table.
pub open spec fn writes_fleet(
    action: SubmitAction,
    poses: [ShipPose; 3],
    resources: SceneResources,
) -> bool {
    &&& action matches SubmitAction::WriteSeeds { buffer, offset, rows, bytes }
    &&& buffer == resources.ship_seed_buffer
    &&& offset == 0
    &&& rows@ == fleet_rows(poses)
    &&& bytes == resources.seed_table_bytes()
}

/// How a submission goes on after an answer: the calls follow each other, and
/// the first that fails ends it under its own name.
pub open spec fn submission_step(
    before: Submission,
    event: SubmitEvent,
    resources: SceneResources,
    asset: PreparedAsset,
    unsupported: i32,
    incomplete: i32,
    after: Submission,
    action: SubmitAction,
) -> bool {
    match event {
        SubmitEvent::SurfaceAcquired(Ok(surface)) => if resources.drawable() {
            &&& after == (Submission { phase: SubmitPhase::Seeds, surface, ..before })
            &&& writes_fleet(action, before.poses, resources)
        } else {
            &&& after == before.ended()
            &&& action == SubmitAction::Fail(GeometryProbeError::Contract)
        },
        SubmitEvent::SurfaceAcquired(Err(code)) => {
            &&& after == before.ended()
            &&& action == SubmitAction::Fail(
                GeometryProbeError::Vgpu("surface-acquire", code),
            )
        },
        SubmitEvent::SeedsWritten(written) => match write_outcome(
            0,
            resources.seed_table_bytes() as nat,
            written,
            unsupported,
            incomplete,
        ) {
            Err(code) => {
                &&& after == before.ended()
                &&& action == SubmitAction::Fail(
                    GeometryProbeError::Vgpu("ship-seed-upload", code),
                )
            },
            Ok(_) => if resources.drawable() {
                &&& after == (Submission {
                    phase: SubmitPhase::Submit,
                    ..before
                })
                &&& action matches SubmitAction::Submit(submission) && submits_fleet(
                    submission,
                    before.surface,
                    resources,
                    asset,
                )
            } else {
                &&& after == before.ended()
                &&& action == SubmitAction::Fail(GeometryProbeError::Contract)
            },
        },
        SubmitEvent::Submitted(Ok(point)) => {
            &&& after == (Submission { phase: SubmitPhase::Wait, point, ..before })
            &&& action == SubmitAction::Wait(point)
        },
        SubmitEvent::Submitted(Err(code)) => {
            &&& after == before.ended()
            &&& action == SubmitAction::Fail(
                GeometryProbeError::Vgpu("retained-frame-submit", code),
            )
        },
        SubmitEvent::Waited(Ok(_)) => {
            &&& after == (Submission { phase: SubmitPhase::Publish, ..before })
            &&& action == SubmitAction::Publish(before.extent)
        },
        SubmitEvent::Waited(Err(code)) => {
            &&& after == before.ended()
            &&& action == SubmitAction::Fail(
                GeometryProbeError::Vgpu("timeline-wait", code),
            )
        },
        SubmitEvent::Published(Ok(_)) => {
            &&& after == before.ended()
            &&& action is Committed
        },
        SubmitEvent::Published(Err(error)) => {
            &&& after == before.ended()
            &&& action == SubmitAction::Fail(
                GeometryProbeError::Ui4("frame-publish", error),
            )
        },
    }
}

impl Submission {
    /// Whether an event answers the call that the submission waits for.
    pub open spec fn awaits(self, event: SubmitEvent) -> bool {
        match self.phase {
            SubmitPhase::Surface => event is SurfaceAcquired,
            SubmitPhase::Seeds => event is SeedsWritten,
            SubmitPhase::Submit => event is Submitted,
            SubmitPhase::Wait => event is Waited,
            SubmitPhase::Publish => event is Published,
            SubmitPhase::Ended => false,
        }
    }

    /// Ended, with everything else as it was.
    pub open spec fn ended(self) -> Submission {
        Submission { phase: SubmitPhase::Ended, ..self }
    }

    /// A submission of a frame that was admitted.
    pub fn begin(view_projection: [u32; 16], extent: Extent, poses: [ShipPose; 3]) -> (started: (
        Submission,
        SubmitAction,
    ))
        ensures
            started.0 == (Submission {
                phase: SubmitPhase::Surface,
                surface: 0,
                point: 0,
                view_projection,
                extent,
                poses,
            }),
            started.1 is AcquireSurface,
    {
        (
            Submission {
                phase: SubmitPhase::Surface,
                surface: 0,
                point: 0,
                view_projection,
                extent,
                poses,
            },
            SubmitAction::AcquireSurface,
        )
    }

    /// Take the answer to the last call and tell the next one.
    pub fn advance(
        &mut self,
        event: SubmitEvent,
        resources: &SceneResources,
        asset: &PreparedAsset,
        unsupported: i32,
        incomplete: i32,
    ) -> (action: SubmitAction)
        requires
            old(self).awaits(event),
            resources.wf(),
        ensures
            submission_step(
                *old(self),
                event,
                *resources,
                *asset,
                unsupported,
                incomplete,
                *final(self),
                action,
            ),
    {
        match event {
            SubmitEvent::SurfaceAcquired(Err(code)) => {
                self.phase = SubmitPhase::Ended;
                SubmitAction::Fail(GeometryProbeError::Vgpu("surface-acquire", code))
            },
            SubmitEvent::SurfaceAcquired(Ok(surface)) => {
                if resources.retained_meshes[0].is_some()
                    && resources.asset_vertex_buffers[0].is_some()
                    && resources.asset_index_buffers[0].is_some() {
                    self.phase = SubmitPhase::Seeds;
                    self.surface = surface;
                    SubmitAction::WriteSeeds {
                        buffer: resources.ship_seed_buffer,
                        offset: 0,
                        rows: ship_seeds(&self.poses),
                        bytes: SHIP_INSTANCE_COUNT * resources.ship_seed_bytes,
                    }
                } else {
                    self.phase = SubmitPhase::Ended;
                    SubmitAction::Fail(GeometryProbeError::Contract)
                }
            },
            SubmitEvent::SeedsWritten(written) => {
                let length: usize = SHIP_INSTANCE_COUNT * resources.ship_seed_bytes;
                match write_exact(0, length, written, unsupported, incomplete) {
                    Err(code) => {
                        self.phase = SubmitPhase::Ended;
                        SubmitAction::Fail(GeometryProbeError::Vgpu("ship-seed-upload", code))
                    },
                    Ok(_) => match (
                        resources.retained_meshes[0],
                        resources.asset_vertex_buffers[0],
                        resources.asset_index_buffers[0],
                    ) {
                        (Some(mesh), Some(vertices), Some(indices)) => {
                            self.phase = SubmitPhase::Submit;
                            SubmitAction::Submit(
                                FrameSubmission {
                                    surface: self.surface,
                                    mesh,
                                    vertices,
                                    indices,
                                    textures: retained_material_texture_ids(
                                        &resources.material_textures[0],
                                        asset.sampled_material,
                                    ),
                                    parameters: resources.material_parameters[0],
                                    clear_rgba8_srgb: CLEAR_RGBA8_SRGB,
                                    seed_buffer: resources.ship_seed_buffer,
                                    seed_offset: 0,
                                    seed_count: SHIP_INSTANCE_COUNT as u32,
                                    draw_count: 1,
                                    draw: DrawRange {
                                        first_index: 0,
                                        index_count: asset.index_count,
                                    },
                                },
                            )
                        },
                        _ => {
                            self.phase = SubmitPhase::Ended;
                            SubmitAction::Fail(GeometryProbeError::Contract)
                        },
                    },
                }
            },
            SubmitEvent::Submitted(Ok(point)) => {
                self.point = point;
                self.phase = SubmitPhase::Wait;
                SubmitAction::Wait(point)
            },
            SubmitEvent::Submitted(Err(code)) => {
                self.phase = SubmitPhase::Ended;
                SubmitAction::Fail(GeometryProbeError::Vgpu("retained-frame-submit", code))
            },
            SubmitEvent::Waited(Ok(_)) => {
                self.phase = SubmitPhase::Publish;
                SubmitAction::Publish(self.extent)
            },
            SubmitEvent::Waited(Err(code)) => {
                self.phase = SubmitPhase::Ended;
                SubmitAction::Fail(GeometryProbeError::Vgpu("timeline-wait", code))
            },
            SubmitEvent::Published(Ok(_)) => {
                self.phase = SubmitPhase::Ended;
                SubmitAction::Committed
            },
            SubmitEvent::Published(Err(error)) => {
                self.phase = SubmitPhase::Ended;
                SubmitAction::Fail(GeometryProbeError::Ui4("frame-publish", error))
            },
        }
    }
}

/// What a frame gives to report.
#[derive(Clone, Copy, Debug, PartialEq, Eq, Structural)]
pub enum FrameReport {
    /// Rendering went on after deferred frames.
    Resumed { deferred_frames: u64, timeline: u64 },
    /// The back buffer is busy.
    Busy { deferred_frames: u64, timeline: u64 },
}

/// The number of frames deferred in a row once a frame ended, and what there
/// is to report: the end of a row of deferrals, its first frame, and every
/// further period of it.
pub open spec fn frame_ended(deferred_frames: u64, timeline: u64, rendered: bool) -> (
    u64,
    Option<FrameReport>,
) {
    if rendered {
        (
            0,
            if deferred_frames != 0 {
                Some(FrameReport::Resumed { deferred_frames, timeline })
            } else {
                None
            },
        )
    } else {
        let count = if deferred_frames < u64::MAX {
            (deferred_frames + 1) as u64
        } else {
            u64::MAX
        };
        (
            count,
            if count == 1 || count % DEFERRAL_REPORT_PERIOD == 0 {
                Some(FrameReport::Busy { deferred_frames: count, timeline })
            } else {
                None
            },
        )
    }
}

/// The count after a row of deferrals.
pub open spec fn after_deferrals(deferred_frames: u64, timeline: u64, frames: nat) -> u64
    decreases frames,
{
    if frames == 0 {
        deferred_frames
    } else {
        frame_ended(
            after_deferrals(deferred_frames, timeline, (frames - 1) as nat),
            timeline,
            false,
        ).0
    }
}

/// The scene while it is shown.
pub struct GeometryProbe {
    pub resources: SceneResources,
    pub controls: FrameControls,
    pub timeline: u64,
    pub previous_view_projection: [u32; 16],
    pub deferred_frames: u64,
}

impl GeometryProbe {
    pub open spec fn wf(self) -> bool {
        self.resources.wf() && self.controls.wf()
    }

    /// A scene over resident resources, before its first frame.
    pub fn new(resources: SceneResources, previous_view_projection: [u32; 16]) -> (probe:
        GeometryProbe)
        requires
            resources.wf(),
        ensures
            probe.wf(),
            probe.resources == resources,
            probe.controls.camera.mode == crate::camera::CameraMode::Fly,
            !probe.controls.camera.tab_down,
            probe.controls.resize_drag is None,
            probe.controls.previous_elapsed_millis == 0,
            probe.timeline == 0,
            probe.previous_view_projection == previous_view_projection,
            probe.deferred_frames == 0,
    {
        GeometryProbe {
            resources,
            controls: FrameControls::new(),
            timeline: 0,
            previous_view_projection,
            deferred_frames: 0,
        }
    }

    /// Begin a frame: its input is serviced first.
    pub fn render_frame(&mut self, elapsed_millis: u64) -> (action: ServiceAction)
        requires
            old(self).wf(),
        ensures
            final(self).wf(),
            action == ServiceAction::ReadKeyboard,
            *final(self) == (GeometryProbe {
                controls: old(self).controls.begun(elapsed_millis),
                ..*old(self)
            }),
    {
        self.controls.begin(elapsed_millis)
    }

    /// Take the answer to a call of the frame's input.
    pub fn service(&mut self, event: ServiceEvent) -> (action: ServiceAction)
        requires
            old(self).wf(),
            old(self).controls.awaits(event),
            old(self).controls.admits(event),
        ensures
            final(self).wf(),
            action == old(self).controls.next(event).1,
            *final(self) == (GeometryProbe {
                controls: old(self).controls.next(event).0,
                ..*old(self)
            }),
    {
        self.controls.advance(event)
    }

    /// Take the answer to a call of an admitted frame's submission.  Timeline
    /// and view move on once the frame is published, and not before.
    pub fn submit(
        &mut self,
        submission: &mut Submission,
        event: SubmitEvent,
        asset: &PreparedAsset,
        unsupported: i32,
        incomplete: i32,
    ) -> (action: SubmitAction)
        requires
            old(self).wf(),
            old(submission).awaits(event),
        ensures
            final(self).wf(),
            submission_step(
                *old(submission),
                event,
                old(self).resources,
                *asset,
                unsupported,
                incomplete,
                *final(submission),
                action,
            ),
            *final(self) == (if action is Committed {
                GeometryProbe {
                    timeline: old(submission).point,
                    previous_view_projection: old(submission).view_projection,
                    ..*old(self)
                }
            } else {
                *old(self)
            }),
    {
        let action = submission.advance(event, &self.resources, asset, unsupported, incomplete);
        if let SubmitAction::Committed = action {
            self.timeline = submission.point;
            self.previous_view_projection = submission.view_projection;
        }
        action
    }

    /// End a frame that was rendered or deferred.
    pub fn finish_frame(&mut self, rendered: bool) -> (report: Option<FrameReport>)
        requires
            old(self).wf(),
        ensures
            final(self).wf(),
            report == frame_ended(old(self).deferred_frames, old(self).timeline, rendered).1,
            *final(self) == (GeometryProbe {
                deferred_frames: frame_ended(
                    old(self).deferred_frames,
                    old(self).timeline,
                    rendered,
                ).0,
                ..*old(self)
            }),
    {
        if rendered {
            if self.deferred_frames != 0 {
                let report = FrameReport::Resumed {
                    deferred_frames: self.deferred_frames,
                    timeline: self.timeline,
                };
                self.deferred_frames = 0;
                Some(report)
            } else {
                None
            }
        } else {
            self.deferred_frames = self.deferred_frames.saturating_add(1);
            if self.deferred_frames == 1 || self.deferred_frames % DEFERRAL_REPORT_PERIOD == 0 {
                Some(
                    FrameReport::Busy {
                        deferred_frames: self.deferred_frames,
                        timeline: self.timeline,
                    },
                )
            } else {
                None
            }
        }
    }

    /// The timeline point of the last published frame.
    pub fn timeline(&self) -> (timeline: u64)
        ensures
            timeline == self.timeline,
    {
        self.timeline
    }

    /// Whether the first frame reached the screen, given the window's answer.
    pub fn take_first_presentation(&self, taken: Result<bool, Ui4Error>) -> (presented: Result<
        bool,
        GeometryProbeError,
    >)
        ensures
            presented == match taken {
                Ok(first) => Ok::<bool, GeometryProbeError>(first),
                Err(error) => Err(GeometryProbeError::Ui4("first-presentation", error)),
            },
    {
        match taken {
            Ok(first) => Ok(first),
            Err(error) => Err(GeometryProbeError::Ui4("first-presentation", error)),
        }
    }
}

/// A row of deferrals is counted, and reported in full when rendering resumes.
pub proof fn lemma_deferrals_are_counted(timeline: u64, frames: nat)
    requires
        0 < frames <= u64::MAX,
    ensures
        after_deferrals(0, timeline, frames) == frames,
        frame_ended(after_deferrals(0, timeline, frames), timeline, true) == (
            0u64,
            Some(FrameReport::Resumed { deferred_frames: frames as u64, timeline }),
        ),
    decreases frames,
{
    if frames > 1 {
        lemma_deferrals_are_counted(timeline, (frames - 1) as nat);
    } else {
        assert(after_deferrals(0, timeline, 0) == 0);
    }
}

/// A frame that fails or is deferred leaves timeline and view alone: only the
/// answer to its publication moves them.
pub proof fn lemma_only_publication_commits(
    before: Submission,
    event: SubmitEvent,
    resources: SceneResources,
    asset: PreparedAsset,
    unsupported: i32,
    incomplete: i32,
    after: Submission,
    action: SubmitAction,
)
    requires
        submission_step(
            before,
            event,
            resources,
            asset,
            unsupported,
            incomplete,
            after,
            action,
        ),
    ensures
        action is Committed <==> event matches SubmitEvent::Published(Ok(_)),
        before.view_projection == after.view_projection,
{
}

/// What a frame draws is the whole index buffer that it binds: the draw starts
/// at the first index and has as many as the asset's index bytes hold words.
pub proof fn lemma_frames_draw_the_whole_mesh(
    before: Submission,
    event: SubmitEvent,
    resources: SceneResources,
    asset: PreparedAsset,
    unsupported: i32,
    incomplete: i32,
    after: Submission,
    action: SubmitAction,
)
    requires
        submission_step(
            before,
            event,
            resources,
            asset,
            unsupported,
            incomplete,
            after,
            action,
        ),
        asset.index_count * 4 == asset.indices@.len(),
        action is Submit,
    ensures
        ({
            let submission = action->Submit_0;
            &&& submission.draw_count == 1
            &&& submission.draw.first_index == 0
            &&& 4 * submission.draw.index_count == asset.indices@.len()
        }),
{
}

/// A frame binds what the scene holds of its first asset: the mesh and its two
/// buffers, the parameters, each role's texture at the role's place where the
/// material is sampled, and the rows of all ships.
pub proof fn lemma_frames_bind_the_first_asset(
    before: Submission,
    event: SubmitEvent,
    resources: SceneResources,
    asset: PreparedAsset,
    unsupported: i32,
    incomplete: i32,
    after: Submission,
    action: SubmitAction,
)
    requires
        submission_step(
            before,
            event,
            resources,
            asset,
            unsupported,
            incomplete,
            after,
            action,
        ),
        action is Submit,
    ensures
        ({
            let submission = action->Submit_0;
            let material = resources.material_textures@[0];
            let bound = |texture: Option<u64>, id: u64|
                if asset.sampled_material && texture is Some {
                    id == texture->Some_0
                } else {
                    id == 0
                };
            &&& submission.surface == before.surface
            &&& resources.retained_meshes@[0] == Some(submission.mesh)
            &&& resources.asset_vertex_buffers@[0] == Some(submission.vertices)
            &&& resources.asset_index_buffers@[0] == Some(submission.indices)
            &&& submission.parameters == resources.material_parameters@[0]
            &&& submission.textures@.len() == 5
            &&& bound(material.base_color, submission.textures@[0])
            &&& bound(material.metallic_roughness, submission.textures@[1])
            &&& bound(material.emissive, submission.textures@[2])
            &&& bound(material.occlusion, submission.textures@[3])
            &&& bound(material.normal, submission.textures@[4])
            &&& submission.clear_rgba8_srgb == 0x8000
            &&& submission.seed_buffer == resources.ship_seed_buffer
            &&& submission.seed_offset == 0
            &&& submission.seed_count == 3
        }),
{
    let submission = action->Submit_0;
    let slots = resources.material_textures@[0].slots();
    assert(slots[0] == resources.material_textures@[0].base_color && slots[1]
        == resources.material_textures@[0].metallic_roughness && slots[2]
        == resources.material_textures@[0].emissive && slots[3]
        == resources.material_textures@[0].occlusion && slots[4]
        == resources.material_textures@[0].normal);
}

/// The rows are written from the start of their buffer, one for each ship, and
/// all of their bytes.
pub proof fn lemma_all_rows_are_written(
    action: SubmitAction,
    poses: [ShipPose; 3],
    resources: SceneResources,
    slot: int,
)
    requires
        writes_fleet(action, poses, resources),
        0 <= slot < 3,
    ensures
        action matches SubmitAction::WriteSeeds { buffer, offset, rows, bytes } && {
            &&& buffer == resources.ship_seed_buffer
            &&& offset == 0
            &&& bytes == 3 * resources.ship_seed_bytes
            &&& rows@.len() == 3
            &&& rows@[slot].translation == poses@[slot].translation
            &&& rows@[slot].rotation == poses@[slot].rotation
            &&& rows@[slot].flags as int / 65536 == slot
        },
{
    crate::geometry::lemma_rows_follow_their_poses(poses, slot);
}

/// The calls of a submission follow each other: the surface, the rows, the
/// submission, the wait for its own point, and the publication of the frame at
/// its own size.  A frame whose mesh or buffers are missing breaks the contract
/// once it has its surface.
pub proof fn lemma_the_course_of_a_submission(
    before: Submission,
    event: SubmitEvent,
    resources: SceneResources,
    asset: PreparedAsset,
    unsupported: i32,
    incomplete: i32,
    after: Submission,
    action: SubmitAction,
)
    requires
        submission_step(
            before,
            event,
            resources,
            asset,
            unsupported,
            incomplete,
            after,
            action,
        ),
    ensures
        after.view_projection == before.view_projection,
        after.extent == before.extent,
        after.poses == before.poses,
        ({
            let whole = resources.retained_meshes@[0] is Some
                && resources.asset_vertex_buffers@[0] is Some
                && resources.asset_index_buffers@[0] is Some;
            let ends = after.phase == SubmitPhase::Ended && after.surface == before.surface
                && after.point == before.point;
            let broken = ends && action == SubmitAction::Fail(GeometryProbeError::Contract);
            match event {
                SubmitEvent::SurfaceAcquired(Ok(surface)) => if whole {
                    &&& action is WriteSeeds
                    &&& after.phase == SubmitPhase::Seeds
                    &&& after.surface == surface
                    &&& after.point == before.point
                } else {
                    broken
                },
                SubmitEvent::SurfaceAcquired(Err(code)) => ends && action == SubmitAction::Fail(
                    GeometryProbeError::Vgpu("surface-acquire", code),
                ),
                SubmitEvent::SeedsWritten(Err(code)) => ends && action == SubmitAction::Fail(
                    GeometryProbeError::Vgpu("ship-seed-upload", code),
                ),
                SubmitEvent::SeedsWritten(Ok(written)) => if written != 3
                    * resources.ship_seed_bytes {
                    ends && action == SubmitAction::Fail(
                        GeometryProbeError::Vgpu("ship-seed-upload", incomplete),
                    )
                } else if whole {
                    &&& action is Submit
                    &&& after.phase == SubmitPhase::Submit
                    &&& after.surface == before.surface
                    &&& after.point == before.point
                } else {
                    broken
                },
                SubmitEvent::Submitted(Ok(point)) => {
                    &&& action == SubmitAction::Wait(point)
                    &&& after.phase == SubmitPhase::Wait
                    &&& after.point == point
                    &&& after.surface == before.surface
                },
                SubmitEvent::Submitted(Err(code)) => ends && action == SubmitAction::Fail(
                    GeometryProbeError::Vgpu("retained-frame-submit", code),
                ),
                SubmitEvent::Waited(Ok(_)) => {
                    &&& action == SubmitAction::Publish(before.extent)
                    &&& after.phase == SubmitPhase::Publish
                    &&& after.point == before.point
                    &&& after.surface == before.surface
                },
                SubmitEvent::Waited(Err(code)) => ends && action == SubmitAction::Fail(
                    GeometryProbeError::Vgpu("timeline-wait", code),
                ),
                SubmitEvent::Published(Ok(_)) => ends && action is Committed,
                SubmitEvent::Published(Err(error)) => ends && action == SubmitAction::Fail(
                    GeometryProbeError::Ui4("frame-publish", error),
                ),
            }
        }),
{
}

/// A submission waits for the answer to the call that it made last.
pub proof fn lemma_what_a_submission_waits_for(submission: Submission, event: SubmitEvent)
    ensures
        submission.awaits(event) <==> match event {
            SubmitEvent::SurfaceAcquired(_) => submission.phase == SubmitPhase::Surface,
            SubmitEvent::SeedsWritten(_) => submission.phase == SubmitPhase::Seeds,
            SubmitEvent::Submitted(_) => submission.phase == SubmitPhase::Submit,
            SubmitEvent::Waited(_) => submission.phase == SubmitPhase::Wait,
            SubmitEvent::Published(_) => submission.phase == SubmitPhase::Publish,
        },
{
}

/// A deferred frame adds one to the count, as far as it can be counted, and is
/// reported where it is the first of its row or the 120th, the 240th and so on;
/// a rendered frame ends the row and is reported where there was one.
pub proof fn lemma_when_deferrals_are_reported(deferred_frames: u64, timeline: u64)
    ensures
        ({
            let (count, report) = frame_ended(deferred_frames, timeline, false);
            &&& deferred_frames < u64::MAX ==> count == deferred_frames + 1
            &&& deferred_frames == u64::MAX ==> count == u64::MAX
            &&& report is Some <==> count == 1 || count % 120 == 0
            &&& report is Some ==> report == Some(
                FrameReport::Busy { deferred_frames: count, timeline },
            )
        }),
        ({
            let (count, report) = frame_ended(deferred_frames, timeline, true);
            &&& count == 0
            &&& deferred_frames == 0 ==> report is None
            &&& deferred_frames > 0 ==> report == Some(
                FrameReport::Resumed { deferred_frames, timeline },
            )
        }),
{
}

} // verus!
