//! Bringing the scene up: from a catalog that was read back to resident
//! resources.
use crate::asset::{vgpu_topology, PreparedAsset, TopologyCodes};
use crate::database::{asset_matches, DatabasePreparedCatalog};
#[allow(unused_imports)]
use crate::database::contents_match;
use crate::error::{GeometryProbeError, Ui4Error};
use crate::frame::write_exact;
#[allow(unused_imports)]
use crate::frame::write_outcome;
use crate::geometry::{prepared_geometry, IndexFormat, SHIP_INSTANCE_COUNT};
use crate::interaction::Extent;
use crate::material::{texture_to_decode, MaterialRole, ResidentMaterial, RetainedMaterialParameters};
#[allow(unused_imports)]
use crate::material::{decoded_texture, texture_need};
#[allow(unused_imports)]
use crate::probe::{submission_step, Submission, SubmitAction, SubmitEvent};
use crate::probe::{GeometryProbe, SceneResources};
use vstd::prelude::*;

verus! {

/// The width of the frame at start.
pub const INITIAL_WIDTH: u32 = 784;

/// The height of the frame at start.
pub const INITIAL_HEIGHT: u32 = 441;

/// The frame's place where the output's size is unknown.
pub const FALLBACK_X: i32 = 120;

/// The frame's place where the output's size is unknown.
pub const FALLBACK_Y: i32 = 96;

/// The device's numeric vocabulary.
#[derive(Clone, Copy, Debug, PartialEq, Eq, Structural)]
pub struct DeviceCodes {
    pub topology: TopologyCodes,
    pub mesh_double_sided: u32,
    pub layout_position_normal: u32,
    pub layout_sampled: u32,
    pub usage_map_read: u32,
    pub usage_map_write: u32,
    pub usage_vertex: u32,
    pub usage_index: u32,
    /// The error of an offset that the machine cannot address.
    pub error_unsupported: i32,
    /// The error of a write that came to an early end.
    pub error_incomplete: i32,
    /// The size of one row of the transform table.
    pub seed_bytes: usize,
}

/// Where a frame stands on the output: in the middle, or at the fallback where
/// the output's size could not be read.  An output smaller than the frame has
/// it at its edge.
pub open spec fn initial_origin(output: Result<Extent, Ui4Error>) -> (int, int) {
    match output {
        Ok(extent) => (
            if extent.width > INITIAL_WIDTH {
                (extent.width - INITIAL_WIDTH) / 2
            } else {
                0
            },
            if extent.height > INITIAL_HEIGHT {
                (extent.height - INITIAL_HEIGHT) / 2
            } else {
                0
            },
        ),
        Err(_) => (FALLBACK_X as int, FALLBACK_Y as int),
    }
}

/// Where the frame stands at start.
pub fn initial_position(output: Result<Extent, Ui4Error>) -> (origin: (i32, i32))
    ensures
        (origin.0 as int, origin.1 as int) == initial_origin(output),
{
    match output {
        Ok(extent) => (
            (extent.width.saturating_sub(INITIAL_WIDTH) / 2) as i32,
            (extent.height.saturating_sub(INITIAL_HEIGHT) / 2) as i32,
        ),
        Err(_) => (FALLBACK_X, FALLBACK_Y),
    }
}

/// Whether a catalog and the prepared assets can make a scene: as many of one
/// as of the other, and a first asset with vertices and with one word for each
/// index.
pub open spec fn scene_contract(assets: Seq<PreparedAsset>, catalog_count: nat) -> bool {
    &&& catalog_count == assets.len()
    &&& assets[0].vertex_count != 0
    &&& assets[0].index_count != 0
    &&& assets[0].index_count * 4 == assets[0].indices@.len()
}

/// The two streams of a mesh.
#[derive(Clone, Copy, Debug, PartialEq, Eq, Structural)]
pub enum MeshStream {
    Vertices,
    Indices,
}

/// A retained mesh, in the device's terms.
#[derive(Clone, Copy, Debug, PartialEq, Eq, Structural)]
pub struct MeshDescriptor {
    pub vertex_count: u32,
    pub index_count: u32,
    pub vertex_layout: u32,
    pub topology: u32,
}

/// The descriptor of an asset's mesh, where its primitives have one topology.
pub open spec fn described(asset: PreparedAsset, codes: DeviceCodes) -> Option<MeshDescriptor> {
    match asset.retained_topology {
        None => None,
        Some(topology) => Some(
            MeshDescriptor {
                vertex_count: asset.vertex_count,
                index_count: asset.index_count,
                vertex_layout: if asset.sampled_material {
                    codes.layout_sampled
                } else {
                    codes.layout_position_normal
                },
                topology: codes.topology.code(topology) | (if asset.retained_double_sided {
                    codes.mesh_double_sided
                } else {
                    0
                }),
            },
        ),
    }
}

/// The descriptor of an asset's mesh.
pub fn mesh_descriptor(asset: &PreparedAsset, codes: &DeviceCodes) -> (descriptor: Option<
    MeshDescriptor,
>)
    ensures
        descriptor == described(*asset, *codes),
{
    match asset.retained_topology {
        None => None,
        Some(topology) => Some(
            MeshDescriptor {
                vertex_count: asset.vertex_count,
                index_count: asset.index_count,
                vertex_layout: if asset.sampled_material {
                    codes.layout_sampled
                } else {
                    codes.layout_position_normal
                },
                topology: vgpu_topology(topology, &codes.topology) | (
                if asset.retained_double_sided {
                    codes.mesh_double_sided
                } else {
                    0
                }),
            },
        ),
    }
}

/// The call whose answer the opening waits for.
#[derive(Clone, Copy, Debug, PartialEq, Eq, Structural)]
pub enum OpenPhase {
    Output,
    Frame,
    Device,
    Queue,
    VertexBuffer,
    IndexBuffer,
    VertexUpload,
    IndexUpload,
    Mesh,
    SeedBuffer,
    Texture,
    Assembled,
    Failed,
}

/// The answer to a call of the opening.
#[derive(Clone, Copy, Debug, PartialEq, Eq)]
pub enum OpenEvent {
    OutputRead(Result<Extent, Ui4Error>),
    FrameOpened(Result<(), Ui4Error>),
    DeviceOpened(Result<(), i32>),
    QueueCreated(Result<(), i32>),
    BufferCreated(Result<u64, i32>),
    BufferWritten(Result<usize, i32>),
    MeshCreated(Result<u64, i32>),
    TextureDecoded(Result<u64, i32>),
}

/// The call to make next, or how the opening ended.
#[derive(Clone, Copy, Debug, PartialEq, Eq)]
pub enum OpenAction {
    ReadOutput,
    OpenFrame { x: i32, y: i32, width: u32, height: u32 },
    OpenDevice,
    CreateQueue,
    CreateBuffer { bytes: usize, usage: u32 },
    /// Write a stream of the catalog's asset in a slot to the buffer's start.
    WriteBuffer { buffer: u64, slot: usize, stream: MeshStream },
    CreateMesh { vertices: u64, indices: u64, descriptor: MeshDescriptor },
    /// Decode a texture of the catalog's asset in a slot.
    DecodeTexture { slot: usize, role: MaterialRole },
    Assemble,
    Fail(GeometryProbeError),
}

/// What the opening has achieved.
#[verifier::ext_equal]
pub struct OpenProgress {
    pub phase: OpenPhase,
    pub vertex_buffers: Seq<u64>,
    pub index_buffers: Seq<u64>,
    pub meshes: Seq<u64>,
    pub seed_buffer: u64,
    /// The textures of the assets, five for each.
    pub textures: Seq<Option<u64>>,
}

/// The role at a place among the five.
pub open spec fn role_at(index: int) -> MaterialRole {
    if index == 0 {
        MaterialRole::BaseColor
    } else if index == 1 {
        MaterialRole::MetallicRoughness
    } else if index == 2 {
        MaterialRole::Emissive
    } else if index == 3 {
        MaterialRole::Occlusion
    } else {
        MaterialRole::Normal
    }
}

fn role(index: usize) -> (role: MaterialRole)
    requires
        index < 5,
    ensures
        role == role_at(index as int),
        role.index() == index,
{
    match index {
        0 => MaterialRole::BaseColor,
        1 => MaterialRole::MetallicRoughness,
        2 => MaterialRole::Emissive,
        3 => MaterialRole::Occlusion,
        _ => MaterialRole::Normal,
    }
}

/// What an opening works on.
pub struct OpenInputs<'a> {
    pub assets: &'a [PreparedAsset],
    pub catalog: &'a DatabasePreparedCatalog,
    pub codes: DeviceCodes,
}

impl<'a> OpenInputs<'a> {
    pub open spec fn wf(self) -> bool {
        &&& self.assets@.len() > 0
        &&& self.catalog@.len() == self.assets@.len()
        &&& SHIP_INSTANCE_COUNT * self.codes.seed_bytes <= usize::MAX
    }

    pub open spec fn count(self) -> int {
        self.assets@.len() as int
    }

    /// The bytes that the catalog holds for a stream.
    pub open spec fn stream(self, slot: int, stream: MeshStream) -> Seq<u8> {
        match stream {
            MeshStream::Vertices => self.catalog@[slot].objects[0],
            MeshStream::Indices => self.catalog@[slot].objects[1],
        }
    }

    /// What there is to do for the texture at a place of the flat list.
    pub open spec fn texture_need(self, place: int) -> Result<bool, GeometryProbeError> {
        texture_need(
            self.assets@[place / 5].material.textures()[place % 5],
            self.catalog@[place / 5].objects[2 + place % 5],
        )
    }

    /// Whether a finished list of textures lacks the base colour of the asset
    /// that it ends with, which is sampled.
    pub open spec fn lacks_base_color(self, textures: Seq<Option<u64>>) -> bool {
        &&& textures.len() > 0
        &&& textures.len() % 5 == 0
        &&& self.assets@[textures.len() as int / 5 - 1].sampled_material
        &&& textures[textures.len() - 5] is None
    }
}

impl OpenProgress {
    /// The asset that is being brought up.
    pub open spec fn slot(self) -> int {
        self.meshes.len() as int
    }

    pub open spec fn failed(self, error: GeometryProbeError) -> (OpenProgress, OpenAction) {
        (OpenProgress { phase: OpenPhase::Failed, ..self }, OpenAction::Fail(error))
    }

    /// Go on with the next asset's mesh: its bytes must be the prepared ones
    /// before anything is made of them.  After the last, the fleet's table.
    pub open spec fn to_mesh(self, inputs: OpenInputs) -> (OpenProgress, OpenAction) {
        if self.slot() >= inputs.count() {
            (
                OpenProgress { phase: OpenPhase::SeedBuffer, ..self },
                OpenAction::CreateBuffer {
                    bytes: (SHIP_INSTANCE_COUNT * inputs.codes.seed_bytes) as usize,
                    usage: inputs.codes.usage_map_read | inputs.codes.usage_map_write,
                },
            )
        } else if !contents_match(inputs.catalog@[self.slot()], inputs.assets@[self.slot()]) {
            self.failed(GeometryProbeError::Contract)
        } else {
            (
                OpenProgress { phase: OpenPhase::VertexBuffer, ..self },
                OpenAction::CreateBuffer {
                    bytes: inputs.stream(self.slot(), MeshStream::Vertices).len() as usize,
                    usage: inputs.codes.usage_map_write | inputs.codes.usage_vertex,
                },
            )
        }
    }

    /// Go on with the next texture that there is to decode, passing over the
    /// roles that the assets leave empty.
    pub open spec fn to_texture(self, inputs: OpenInputs) -> (OpenProgress, OpenAction)
        decreases 5 * inputs.count() - self.textures.len(),
    {
        let place = self.textures.len() as int;
        if inputs.lacks_base_color(self.textures) {
            self.failed(GeometryProbeError::Contract)
        } else if place >= 5 * inputs.count() {
            (OpenProgress { phase: OpenPhase::Assembled, ..self }, OpenAction::Assemble)
        } else {
            match inputs.texture_need(place) {
                Err(error) => self.failed(error),
                Ok(needed) => if needed {
                    (
                        OpenProgress { phase: OpenPhase::Texture, ..self },
                        OpenAction::DecodeTexture {
                            slot: (place / 5) as usize,
                            role: role_at(place % 5),
                        },
                    )
                } else {
                    OpenProgress { textures: self.textures.push(None), ..self }.to_texture(inputs)
                },
            }
        }
    }

    /// Whether an event answers the call that the opening waits for.
    pub open spec fn awaits(self, event: OpenEvent) -> bool {
        match self.phase {
            OpenPhase::Output => event is OutputRead,
            OpenPhase::Frame => event is FrameOpened,
            OpenPhase::Device => event is DeviceOpened,
            OpenPhase::Queue => event is QueueCreated,
            OpenPhase::VertexBuffer => event is BufferCreated,
            OpenPhase::IndexBuffer => event is BufferCreated,
            OpenPhase::VertexUpload => event is BufferWritten,
            OpenPhase::IndexUpload => event is BufferWritten,
            OpenPhase::Mesh => event is MeshCreated,
            OpenPhase::SeedBuffer => event is BufferCreated,
            OpenPhase::Texture => event is TextureDecoded,
            OpenPhase::Assembled => false,
            OpenPhase::Failed => false,
        }
    }

    /// The progress and the call that follow an answer.  The first call that
    /// fails ends the opening under its own name.
    pub open spec fn next(self, event: OpenEvent, inputs: OpenInputs) -> (OpenProgress, OpenAction) {
        let slot = self.slot();
        match event {
            OpenEvent::OutputRead(output) => {
                let origin = initial_origin(output);
                (
                    OpenProgress { phase: OpenPhase::Frame, ..self },
                    OpenAction::OpenFrame {
                        x: origin.0 as i32,
                        y: origin.1 as i32,
                        width: INITIAL_WIDTH,
                        height: INITIAL_HEIGHT,
                    },
                )
            },
            OpenEvent::FrameOpened(Err(error)) => self.failed(
                GeometryProbeError::Ui4("frame-open", error),
            ),
            OpenEvent::FrameOpened(Ok(_)) => (
                OpenProgress { phase: OpenPhase::Device, ..self },
                OpenAction::OpenDevice,
            ),
            OpenEvent::DeviceOpened(Err(code)) => self.failed(
                GeometryProbeError::Vgpu("device-open", code),
            ),
            OpenEvent::DeviceOpened(Ok(_)) => (
                OpenProgress { phase: OpenPhase::Queue, ..self },
                OpenAction::CreateQueue,
            ),
            OpenEvent::QueueCreated(Err(code)) => self.failed(
                GeometryProbeError::Vgpu("queue-create", code),
            ),
            OpenEvent::QueueCreated(Ok(_)) => self.to_mesh(inputs),
            OpenEvent::BufferCreated(Err(code)) => self.failed(
                GeometryProbeError::Vgpu(
                    match self.phase {
                        OpenPhase::VertexBuffer => "asset-vertex-buffer-create",
                        OpenPhase::IndexBuffer => "asset-index-buffer-create",
                        _ => "ship-seed-buffer-create",
                    },
                    code,
                ),
            ),
            OpenEvent::BufferCreated(Ok(buffer)) => match self.phase {
                OpenPhase::VertexBuffer => (
                    OpenProgress {
                        phase: OpenPhase::IndexBuffer,
                        vertex_buffers: self.vertex_buffers.push(buffer),
                        ..self
                    },
                    OpenAction::CreateBuffer {
                        bytes: inputs.stream(slot, MeshStream::Indices).len() as usize,
                        usage: inputs.codes.usage_map_write | inputs.codes.usage_index,
                    },
                ),
                OpenPhase::IndexBuffer => (
                    OpenProgress {
                        phase: OpenPhase::VertexUpload,
                        index_buffers: self.index_buffers.push(buffer),
                        ..self
                    },
                    OpenAction::WriteBuffer {
                        buffer: self.vertex_buffers[slot],
                        slot: slot as usize,
                        stream: MeshStream::Vertices,
                    },
                ),
                _ => OpenProgress { seed_buffer: buffer, ..self }.to_texture(inputs),
            },
            OpenEvent::BufferWritten(written) => {
                let vertices = self.phase == OpenPhase::VertexUpload;
                let stream = if vertices {
                    MeshStream::Vertices
                } else {
                    MeshStream::Indices
                };
                match write_outcome(
                    0,
                    inputs.stream(slot, stream).len(),
                    written,
                    inputs.codes.error_unsupported,
                    inputs.codes.error_incomplete,
                ) {
                    Err(code) => self.failed(
                        GeometryProbeError::Vgpu(
                            if vertices {
                                "asset-vertex-upload"
                            } else {
                                "asset-index-upload"
                            },
                            code,
                        ),
                    ),
                    Ok(_) => if vertices {
                        (
                            OpenProgress { phase: OpenPhase::IndexUpload, ..self },
                            OpenAction::WriteBuffer {
                                buffer: self.index_buffers[slot],
                                slot: slot as usize,
                                stream: MeshStream::Indices,
                            },
                        )
                    } else {
                        match described(inputs.assets@[slot], inputs.codes) {
                            None => self.failed(GeometryProbeError::Contract),
                            Some(descriptor) => (
                                OpenProgress { phase: OpenPhase::Mesh, ..self },
                                OpenAction::CreateMesh {
                                    vertices: self.vertex_buffers[slot],
                                    indices: self.index_buffers[slot],
                                    descriptor,
                                },
                            ),
                        }
                    },
                }
            },
            OpenEvent::MeshCreated(Err(code)) => self.failed(
                GeometryProbeError::Vgpu("retained-mesh-create", code),
            ),
            OpenEvent::MeshCreated(Ok(mesh)) => OpenProgress {
                meshes: self.meshes.push(mesh),
                ..self
            }.to_mesh(inputs),
            OpenEvent::TextureDecoded(Err(code)) => self.failed(
                GeometryProbeError::Vgpu("material-texture-decode", code),
            ),
            OpenEvent::TextureDecoded(Ok(texture)) => OpenProgress {
                textures: self.textures.push(Some(texture)),
                ..self
            }.to_texture(inputs),
        }
    }

    /// How much stands at each phase.
    pub open spec fn wf(self, inputs: OpenInputs) -> bool {
        let n = inputs.count();
        let slot = self.slot();
        &&& match self.phase {
            OpenPhase::Output | OpenPhase::Frame | OpenPhase::Device | OpenPhase::Queue => {
                &&& self.vertex_buffers.len() == 0
                &&& self.index_buffers.len() == 0
                &&& self.meshes.len() == 0
                &&& self.textures.len() == 0
            },
            OpenPhase::VertexBuffer => {
                &&& slot < n
                &&& self.vertex_buffers.len() == slot
                &&& self.index_buffers.len() == slot
                &&& self.textures.len() == 0
                &&& self.matched(inputs, slot + 1)
            },
            OpenPhase::IndexBuffer => {
                &&& slot < n
                &&& self.vertex_buffers.len() == slot + 1
                &&& self.index_buffers.len() == slot
                &&& self.textures.len() == 0
                &&& self.matched(inputs, slot + 1)
            },
            OpenPhase::VertexUpload | OpenPhase::IndexUpload | OpenPhase::Mesh => {
                &&& slot < n
                &&& self.vertex_buffers.len() == slot + 1
                &&& self.index_buffers.len() == slot + 1
                &&& self.textures.len() == 0
                &&& self.matched(inputs, slot + 1)
            },
            OpenPhase::SeedBuffer => {
                &&& self.complete(inputs)
                &&& self.textures.len() == 0
            },
            OpenPhase::Texture => {
                &&& self.complete(inputs)
                &&& self.textures.len() < 5 * n
                &&& self.base_colors_stand(inputs)
                &&& self.settled(inputs)
                &&& inputs.texture_need(self.textures.len() as int) == Ok::<
                    bool,
                    GeometryProbeError,
                >(true)
            },
            OpenPhase::Assembled => {
                &&& self.complete(inputs)
                &&& self.textures.len() == 5 * n
                &&& self.base_colors_stand(inputs)
                &&& self.settled(inputs)
            },
            OpenPhase::Failed => true,
        }
    }

    /// Whether the first assets of the catalog are the prepared ones.
    pub open spec fn matched(self, inputs: OpenInputs, count: int) -> bool {
        forall|i: int|
            0 <= i < count ==> contents_match(#[trigger] inputs.catalog@[i], inputs.assets@[i])
    }

    /// Whether every asset has its mesh.
    pub open spec fn complete(self, inputs: OpenInputs) -> bool {
        &&& self.slot() == inputs.count()
        &&& self.vertex_buffers.len() == inputs.count()
        &&& self.index_buffers.len() == inputs.count()
        &&& self.matched(inputs, inputs.count())
    }

    /// Whether every sampled asset whose textures are settled has its base
    /// colour.
    pub open spec fn base_colors_stand(self, inputs: OpenInputs) -> bool {
        forall|i: int|
            0 <= i && 5 * i + 5 <= self.textures.len() && (
            #[trigger] inputs.assets@[i]).sampled_material ==> self.textures[5 * i] is Some
    }

    /// Whether the textures settled so far are those that there were to decode.
    pub open spec fn settled(self, inputs: OpenInputs) -> bool {
        forall|place: int|
            0 <= place < self.textures.len() ==> #[trigger] inputs.texture_need(place) == Ok::<
                bool,
                GeometryProbeError,
            >(self.textures[place] is Some)
    }

    /// [`Self::base_colors_stand`] of all assets but the one settled last.
    pub open spec fn earlier_base_colors_stand(self, inputs: OpenInputs) -> bool {
        forall|i: int|
            0 <= i && 5 * i + 5 < self.textures.len() && (
            #[trigger] inputs.assets@[i]).sampled_material ==> self.textures[5 * i] is Some
    }
}

/// An opening in progress.
pub struct Opening<'a> {
    pub inputs: OpenInputs<'a>,
    pub phase: OpenPhase,
    pub vertex_buffers: Vec<u64>,
    pub index_buffers: Vec<u64>,
    pub meshes: Vec<u64>,
    pub seed_buffer: u64,
    pub textures: Vec<Option<u64>>,
}

impl<'a> View for Opening<'a> {
    type V = OpenProgress;

    open spec fn view(&self) -> OpenProgress {
        OpenProgress {
            phase: self.phase,
            vertex_buffers: self.vertex_buffers@,
            index_buffers: self.index_buffers@,
            meshes: self.meshes@,
            seed_buffer: self.seed_buffer,
            textures: self.textures@,
        }
    }
}

impl<'a> Opening<'a> {
    pub open spec fn wf(self) -> bool {
        self.inputs.wf() && self@.wf(self.inputs)
    }

    fn fail(&mut self, error: GeometryProbeError) -> (action: OpenAction)
        ensures
            final(self).inputs == old(self).inputs,
            final(self).phase == OpenPhase::Failed,
            (final(self)@, action) == old(self)@.failed(error),
    {
        self.phase = OpenPhase::Failed;
        OpenAction::Fail(error)
    }

    /// Whether a scene can be opened at all, and with what call it begins.
    pub fn open(
        assets: &'a [PreparedAsset],
        catalog: &'a DatabasePreparedCatalog,
        codes: DeviceCodes,
    ) -> (opened: Result<(Opening<'a>, OpenAction), GeometryProbeError>)
        requires
            assets@.len() > 0,
            SHIP_INSTANCE_COUNT * codes.seed_bytes <= usize::MAX,
        ensures
            scene_contract(assets@, catalog@.len()) ==> opened is Ok,
            !scene_contract(assets@, catalog@.len()) ==> opened == Err::<
                (Opening<'a>, OpenAction),
                GeometryProbeError,
            >(GeometryProbeError::Contract),
            opened matches Ok((opening, action)) ==> {
                &&& opening.wf()
                &&& opening.inputs == (OpenInputs { assets, catalog, codes })
                &&& opening@.phase == OpenPhase::Output
                &&& action == OpenAction::ReadOutput
            },
    {
        if catalog.assets.len() != assets.len() {
            return Err(GeometryProbeError::Contract);
        }
        let primitive = prepared_geometry(&assets[0]);
        let index_bytes: u64 = match primitive.indices {
            Some(range) => range.byte_length,
            None => return Err(GeometryProbeError::Contract),
        };
        let word_indices = match primitive.index_format {
            Some(IndexFormat::Uint32) => true,
            _ => false,
        };
        if primitive.vertex_stride != assets[0].vertex_stride as u32 || primitive.vertex_count == 0
            || primitive.index_count == 0 || !word_indices || primitive.vertices.byte_length
            != assets[0].vertices.len() as u64 || index_bytes != assets[0].indices.len() as u64 {
            return Err(GeometryProbeError::Contract);
        }
        Ok(
            (
                Opening {
                    inputs: OpenInputs { assets, catalog, codes },
                    phase: OpenPhase::Output,
                    vertex_buffers: Vec::new(),
                    index_buffers: Vec::new(),
                    meshes: Vec::new(),
                    seed_buffer: 0,
                    textures: Vec::new(),
                },
                OpenAction::ReadOutput,
            ),
        )
    }

    fn go_to_mesh(&mut self) -> (action: OpenAction)
        requires
            old(self).inputs.wf(),
            old(self)@.vertex_buffers.len() == old(self)@.slot(),
            old(self)@.index_buffers.len() == old(self)@.slot(),
            old(self)@.textures.len() == 0,
            old(self)@.slot() <= old(self).inputs.count(),
            old(self)@.matched(old(self).inputs, old(self)@.slot()),
        ensures
            final(self).inputs == old(self).inputs,
            final(self).wf(),
            (final(self)@, action) == old(self)@.to_mesh(old(self).inputs),
    {
        let slot: usize = self.meshes.len();
        let ghost before = self@;
        if slot >= self.inputs.assets.len() {
            self.phase = OpenPhase::SeedBuffer;
            return OpenAction::CreateBuffer {
                bytes: SHIP_INSTANCE_COUNT * self.inputs.codes.seed_bytes,
                usage: self.inputs.codes.usage_map_read | self.inputs.codes.usage_map_write,
            };
        }
        if !asset_matches(&self.inputs.catalog.assets[slot], &self.inputs.assets[slot]) {
            return self.fail(GeometryProbeError::Contract);
        }
        self.phase = OpenPhase::VertexBuffer;
        OpenAction::CreateBuffer {
            bytes: self.inputs.catalog.assets[slot].vertices.len(),
            usage: self.inputs.codes.usage_map_write | self.inputs.codes.usage_vertex,
        }
    }

    fn go_to_texture(&mut self) -> (action: OpenAction)
        requires
            old(self).inputs.wf(),
            old(self)@.complete(old(self).inputs),
            old(self)@.textures.len() <= 5 * old(self).inputs.count(),
            old(self)@.earlier_base_colors_stand(old(self).inputs),
            old(self)@.settled(old(self).inputs),
        ensures
            final(self).inputs == old(self).inputs,
            final(self).wf(),
            (final(self)@, action) == old(self)@.to_texture(old(self).inputs),
        decreases 5 * old(self).inputs.count() - old(self)@.textures.len(),
    {
        let place: usize = self.textures.len();
        let slot: usize = place / 5;
        let ghost before = self@;
        let ghost inputs = self.inputs;
        if place > 0 && place % 5 == 0 && self.inputs.assets[slot - 1].sampled_material
            && self.textures[place - 5].is_none() {
            assert(inputs.lacks_base_color(before.textures));
            return self.fail(GeometryProbeError::Contract);
        }
        assert(!inputs.lacks_base_color(before.textures));
        assert(before.base_colors_stand(inputs)) by {
            assert forall|i: int|
                0 <= i && 5 * i + 5 <= before.textures.len() && (
                #[trigger] inputs.assets@[i]).sampled_material implies before.textures[5
                * i] is Some by {}
        }
        if slot >= self.inputs.assets.len() {
            self.phase = OpenPhase::Assembled;
            return OpenAction::Assemble;
        }
        let role = role(place % 5);
        let prepared = self.inputs.assets[slot].material.texture(role);
        let encoded = self.inputs.catalog.assets[slot].material.map(role);
        assert(inputs.catalog@[slot as int].objects[2 + place % 5] == encoded@);
        match texture_to_decode(prepared, encoded) {
            Err(error) => self.fail(error),
            Ok(true) => {
                self.phase = OpenPhase::Texture;
                OpenAction::DecodeTexture { slot, role }
            },
            Ok(false) => {
                self.textures.push(None);
                assert(self@ =~= OpenProgress { textures: before.textures.push(None), ..before });
                self.go_to_texture()
            },
        }
    }

    /// Take the answer to the last call and tell the next one.
    pub fn advance(&mut self, event: OpenEvent) -> (action: OpenAction)
        requires
            old(self).wf(),
            old(self)@.awaits(event),
        ensures
            final(self).inputs == old(self).inputs,
            final(self).wf(),
            (final(self)@, action) == old(self)@.next(event, old(self).inputs),
    {
        let slot: usize = self.meshes.len();
        let ghost before = self@;
        match event {
            OpenEvent::OutputRead(output) => {
                let (x, y) = initial_position(output);
                self.phase = OpenPhase::Frame;
                OpenAction::OpenFrame { x, y, width: INITIAL_WIDTH, height: INITIAL_HEIGHT }
            },
            OpenEvent::FrameOpened(Err(error)) => self.fail(
                GeometryProbeError::Ui4("frame-open", error),
            ),
            OpenEvent::FrameOpened(Ok(_)) => {
                self.phase = OpenPhase::Device;
                OpenAction::OpenDevice
            },
            OpenEvent::DeviceOpened(Err(code)) => self.fail(
                GeometryProbeError::Vgpu("device-open", code),
            ),
            OpenEvent::DeviceOpened(Ok(_)) => {
                self.phase = OpenPhase::Queue;
                OpenAction::CreateQueue
            },
            OpenEvent::QueueCreated(Err(code)) => self.fail(
                GeometryProbeError::Vgpu("queue-create", code),
            ),
            OpenEvent::QueueCreated(Ok(_)) => self.go_to_mesh(),
            OpenEvent::BufferCreated(Err(code)) => {
                let name = match self.phase {
                    OpenPhase::VertexBuffer => "asset-vertex-buffer-create",
                    OpenPhase::IndexBuffer => "asset-index-buffer-create",
                    _ => "ship-seed-buffer-create",
                };
                self.fail(GeometryProbeError::Vgpu(name, code))
            },
            OpenEvent::BufferCreated(Ok(buffer)) => match self.phase {
                OpenPhase::VertexBuffer => {
                    self.vertex_buffers.push(buffer);
                    self.phase = OpenPhase::IndexBuffer;
                    OpenAction::CreateBuffer {
                        bytes: self.inputs.catalog.assets[slot].indices.len(),
                        usage: self.inputs.codes.usage_map_write | self.inputs.codes.usage_index,
                    }
                },
                OpenPhase::IndexBuffer => {
                    self.index_buffers.push(buffer);
                    self.phase = OpenPhase::VertexUpload;
                    OpenAction::WriteBuffer {
                        buffer: self.vertex_buffers[slot],
                        slot,
                        stream: MeshStream::Vertices,
                    }
                },
                _ => {
                    self.seed_buffer = buffer;
                    self.go_to_texture()
                },
            },
            OpenEvent::BufferWritten(written) => {
                let vertices = self.phase == OpenPhase::VertexUpload;
                let length: usize = if vertices {
                    self.inputs.catalog.assets[slot].vertices.len()
                } else {
                    self.inputs.catalog.assets[slot].indices.len()
                };
                match write_exact(
                    0,
                    length,
                    written,
                    self.inputs.codes.error_unsupported,
                    self.inputs.codes.error_incomplete,
                ) {
                    Err(code) => {
                        let name = if vertices {
                            "asset-vertex-upload"
                        } else {
                            "asset-index-upload"
                        };
                        self.fail(GeometryProbeError::Vgpu(name, code))
                    },
                    Ok(_) => if vertices {
                        self.phase = OpenPhase::IndexUpload;
                        OpenAction::WriteBuffer {
                            buffer: self.index_buffers[slot],
                            slot,
                            stream: MeshStream::Indices,
                        }
                    } else {
                        match mesh_descriptor(&self.inputs.assets[slot], &self.inputs.codes) {
                            None => self.fail(GeometryProbeError::Contract),
                            Some(descriptor) => {
                                self.phase = OpenPhase::Mesh;
                                OpenAction::CreateMesh {
                                    vertices: self.vertex_buffers[slot],
                                    indices: self.index_buffers[slot],
                                    descriptor,
                                }
                            },
                        }
                    },
                }
            },
            OpenEvent::MeshCreated(Err(code)) => self.fail(
                GeometryProbeError::Vgpu("retained-mesh-create", code),
            ),
            OpenEvent::MeshCreated(Ok(mesh)) => {
                self.meshes.push(mesh);
                self.go_to_mesh()
            },
            OpenEvent::TextureDecoded(Err(code)) => self.fail(
                GeometryProbeError::Vgpu("material-texture-decode", code),
            ),
            OpenEvent::TextureDecoded(Ok(texture)) => {
                self.textures.push(Some(texture));
                self.go_to_texture()
            },
        }
    }

    /// The scene over the resources that the opening made.
    pub fn assemble(self, previous_view_projection: [u32; 16]) -> (probe: GeometryProbe)
        requires
            self.wf(),
            self@.phase == OpenPhase::Assembled,
        ensures
            probe.wf(),
            probe.resources.drawable(),
            holds_opening(probe.resources, self@, self.inputs),
            probe.resources.asset_vertex_buffers@ == self@.vertex_buffers.map_values(
                |buffer: u64| Some(buffer),
            ),
            probe.resources.asset_index_buffers@ == self@.index_buffers.map_values(
                |buffer: u64| Some(buffer),
            ),
            probe.resources.retained_meshes@ == self@.meshes.map_values(|mesh: u64| Some(mesh)),
            probe.resources.ship_seed_buffer == self@.seed_buffer,
            probe.resources.ship_seed_bytes == self.inputs.codes.seed_bytes,
            probe.resources.material_textures@.len() == self.inputs.count(),
            forall|i: int|
                0 <= i < self.inputs.count() ==> (
                #[trigger] probe.resources.material_textures@[i]).slots()
                    == self@.textures.subrange(5 * i, 5 * i + 5),
            forall|i: int|
                0 <= i < self.inputs.count() ==> #[trigger] probe.resources.material_parameters@[i]
                    == self.inputs.catalog@[i].parameters,
            probe.controls.camera.mode == crate::camera::CameraMode::Fly,
            !probe.controls.camera.tab_down,
            probe.controls.resize_drag is None,
            probe.controls.previous_elapsed_millis == 0,
            probe.timeline == 0,
            probe.previous_view_projection == previous_view_projection,
            probe.deferred_frames == 0,
    {
        let count: usize = self.inputs.assets.len();
        let mut asset_vertex_buffers: Vec<Option<u64>> = Vec::new();
        let mut asset_index_buffers: Vec<Option<u64>> = Vec::new();
        let mut retained_meshes: Vec<Option<u64>> = Vec::new();
        let mut material_textures: Vec<ResidentMaterial> = Vec::new();
        let mut material_parameters: Vec<RetainedMaterialParameters> = Vec::new();
        let mut slot: usize = 0;
        while slot < count
            invariant
                slot <= count,
                count == self.inputs.count(),
                self.wf(),
                self@.phase == OpenPhase::Assembled,
                asset_vertex_buffers@ =~= self@.vertex_buffers.take(slot as int).map_values(
                    |buffer: u64| Some(buffer),
                ),
                asset_index_buffers@ =~= self@.index_buffers.take(slot as int).map_values(
                    |buffer: u64| Some(buffer),
                ),
                retained_meshes@ =~= self@.meshes.take(slot as int).map_values(
                    |mesh: u64| Some(mesh),
                ),
                material_textures@.len() == slot,
                forall|i: int|
                    0 <= i < slot ==> (#[trigger] material_textures@[i]).slots()
                        == self@.textures.subrange(5 * i, 5 * i + 5),
                material_parameters@.len() == slot,
                forall|i: int|
                    0 <= i < slot ==> #[trigger] material_parameters@[i]
                        == self.inputs.catalog@[i].parameters,
            decreases count - slot,
        {
            asset_vertex_buffers.push(Some(self.vertex_buffers[slot]));
            asset_index_buffers.push(Some(self.index_buffers[slot]));
            retained_meshes.push(Some(self.meshes[slot]));
            assert(5 * slot + 5 <= self.textures@.len());
            let material = ResidentMaterial {
                base_color: self.textures[5 * slot],
                metallic_roughness: self.textures[5 * slot + 1],
                emissive: self.textures[5 * slot + 2],
                occlusion: self.textures[5 * slot + 3],
                normal: self.textures[5 * slot + 4],
            };
            assert(material.slots() =~= self@.textures.subrange(5 * slot, 5 * slot + 5));
            material_textures.push(material);
            material_parameters.push(self.inputs.catalog.assets[slot].material.parameters);
            slot += 1;
        }
        assert(self@.vertex_buffers.take(count as int) =~= self@.vertex_buffers);
        assert(self@.index_buffers.take(count as int) =~= self@.index_buffers);
        assert(self@.meshes.take(count as int) =~= self@.meshes);
        GeometryProbe::new(
            SceneResources {
                asset_vertex_buffers,
                asset_index_buffers,
                retained_meshes,
                material_textures,
                material_parameters,
                ship_seed_buffer: self.seed_buffer,
                ship_seed_bytes: self.inputs.codes.seed_bytes,
            },
            previous_view_projection,
        )
    }
}

/// Whether resources are those that an opening made.
pub open spec fn holds_opening(
    resources: SceneResources,
    progress: OpenProgress,
    inputs: OpenInputs,
) -> bool {
    &&& resources.asset_vertex_buffers@ == progress.vertex_buffers.map_values(
        |buffer: u64| Some(buffer),
    )
    &&& resources.asset_index_buffers@ == progress.index_buffers.map_values(
        |buffer: u64| Some(buffer),
    )
    &&& resources.retained_meshes@ == progress.meshes.map_values(|mesh: u64| Some(mesh))
    &&& resources.ship_seed_buffer == progress.seed_buffer
    &&& resources.ship_seed_bytes == inputs.codes.seed_bytes
    &&& forall|i: int|
        0 <= i < inputs.count() ==> (#[trigger] resources.material_textures@[i]).slots()
            == progress.textures.subrange(5 * i, 5 * i + 5)
    &&& forall|i: int|
        0 <= i < inputs.count() ==> #[trigger] resources.material_parameters@[i]
            == inputs.catalog@[i].parameters
}

impl OpenProgress {
    /// Go on once a texture is settled: with the next place, or not at all.
    pub open spec fn settle_texture(
        self,
        texture: Result<Option<u64>, GeometryProbeError>,
        inputs: OpenInputs,
    ) -> (OpenProgress, OpenAction) {
        match texture {
            Err(error) => self.failed(error),
            Ok(texture) => OpenProgress { textures: self.textures.push(texture), ..self }.to_texture(
                inputs,
            ),
        }
    }
}

/// Each texture is settled as [`decode_material_texture`] answers for the
/// prepared texture and its bytes in the catalog: with the decoder's answer
/// where it was asked, and without one where there is nothing to decode or the
/// two do not fit each other.
///
/// [`decode_material_texture`]: crate::material::decode_material_texture
pub proof fn lemma_textures_are_settled_as_decoded(
    progress: OpenProgress,
    decoded: Result<u64, i32>,
    inputs: OpenInputs,
)
    requires
        inputs.wf(),
        progress.textures.len() < 5 * inputs.count(),
    ensures
        ({
            let place = progress.textures.len() as int;
            let texture = decoded_texture(
                inputs.assets@[place / 5].material.textures()[place % 5],
                inputs.catalog@[place / 5].objects[2 + place % 5],
                decoded,
            );
            &&& progress.wf(inputs) && progress.phase == OpenPhase::Texture ==> progress.next(
                OpenEvent::TextureDecoded(decoded),
                inputs,
            ) == progress.settle_texture(texture, inputs)
            &&& !inputs.lacks_base_color(progress.textures) && inputs.texture_need(place) != Ok::<
                bool,
                GeometryProbeError,
            >(true) ==> progress.to_texture(inputs) == progress.settle_texture(texture, inputs)
        }),
{
}

/// The rows that a frame writes fill exactly the buffer that the opening makes
/// for them.
pub proof fn lemma_fleet_rows_fill_their_buffer(
    progress: OpenProgress,
    inputs: OpenInputs,
    submission: Submission,
    surface: u64,
    resources: SceneResources,
    asset: PreparedAsset,
    unsupported: i32,
    incomplete: i32,
    after: Submission,
    action: SubmitAction,
)
    requires
        inputs.wf(),
        progress.slot() >= inputs.count(),
        resources.ship_seed_bytes == inputs.codes.seed_bytes,
        resources.drawable(),
        submission_step(
            submission,
            SubmitEvent::SurfaceAcquired(Ok(surface)),
            resources,
            asset,
            unsupported,
            incomplete,
            after,
            action,
        ),
    ensures
        progress.to_mesh(inputs).1 matches OpenAction::CreateBuffer { bytes: made, .. }
            && action matches SubmitAction::WriteSeeds { offset, bytes: written, .. } && offset == 0
            && written == made,
{
}

/// No buffer is made or filled for an asset whose bytes in the catalog are not
/// the prepared ones.
pub proof fn lemma_only_prepared_bytes_are_uploaded(progress: OpenProgress, inputs: OpenInputs)
    requires
        inputs.wf(),
        progress.wf(inputs),
        progress.phase == OpenPhase::VertexBuffer || progress.phase == OpenPhase::IndexBuffer
            || progress.phase == OpenPhase::VertexUpload || progress.phase == OpenPhase::IndexUpload
            || progress.phase == OpenPhase::Mesh,
    ensures
        inputs.stream(progress.slot(), MeshStream::Vertices)
            == inputs.assets@[progress.slot()].vertices@,
        inputs.stream(progress.slot(), MeshStream::Indices)
            == inputs.assets@[progress.slot()].indices@,
{
    let slot = progress.slot();
    assert(contents_match(inputs.catalog@[slot], inputs.assets@[slot]));
    let objects = crate::database::prepared_contents(inputs.assets@[slot]).objects;
    assert(objects[0] == inputs.assets@[slot].vertices@);
    assert(objects[1] == inputs.assets@[slot].indices@);
}

/// An asset that can be shown once it was read back: its parameters are
/// numbers, its textures are named, it has one topology, and it has a base
/// colour where it is sampled.
pub open spec fn presentable(asset: PreparedAsset) -> bool {
    &&& asset.material.parameters.is_number()
    &&& asset.retained_topology is Some
    &&& asset.sampled_material ==> asset.material.base_color.bytes@.len() > 0
    &&& forall|i: int|
        0 <= i < 5 ==> (#[trigger] asset.material.textures()[i]).bytes@.len() > 0
            ==> asset.material.textures()[i].name@.len() > 0
}

/// Once presentable assets were published and read back, only a service can
/// stop the opening: it never breaks its own contract.
pub proof fn lemma_published_assets_keep_the_contract(
    progress: OpenProgress,
    event: OpenEvent,
    inputs: OpenInputs,
)
    requires
        inputs.wf(),
        inputs.catalog@ == inputs.assets@.map_values(
            |asset: PreparedAsset| crate::database::prepared_contents(asset),
        ),
        forall|i: int| 0 <= i < inputs.count() ==> presentable(#[trigger] inputs.assets@[i]),
        progress.wf(inputs),
        progress.awaits(event),
    ensures
        progress.next(event, inputs).1 != OpenAction::Fail(GeometryProbeError::Contract),
{
    assert forall|i: int| 0 <= i < inputs.count() implies contents_match(
        #[trigger] inputs.catalog@[i],
        inputs.assets@[i],
    ) by {
        assert(presentable(inputs.assets@[i]));
        crate::database::lemma_unchanged_asset_matches(inputs.assets@[i]);
    }
    match event {
        OpenEvent::BufferCreated(Ok(buffer)) => {
            if progress.phase == OpenPhase::SeedBuffer {
                lemma_textures_keep_the_contract(
                    OpenProgress { seed_buffer: buffer, ..progress },
                    inputs,
                );
            }
        },
        OpenEvent::TextureDecoded(Ok(texture)) => {
            let settled = OpenProgress { textures: progress.textures.push(Some(texture)), ..progress };
            assert forall|place: int| 0 <= place < settled.textures.len() implies
                #[trigger] inputs.texture_need(place) == Ok::<bool, GeometryProbeError>(
                settled.textures[place] is Some,
            ) by {
                if place < progress.textures.len() {
                    assert(settled.textures[place] == progress.textures[place]);
                }
            }
            lemma_textures_keep_the_contract(settled, inputs);
        },
        OpenEvent::BufferWritten(_) => {
            assert(presentable(inputs.assets@[progress.slot()]));
        },
        _ => {},
    }
}

proof fn lemma_textures_keep_the_contract(progress: OpenProgress, inputs: OpenInputs)
    requires
        inputs.wf(),
        inputs.catalog@ == inputs.assets@.map_values(
            |asset: PreparedAsset| crate::database::prepared_contents(asset),
        ),
        forall|i: int| 0 <= i < inputs.count() ==> presentable(#[trigger] inputs.assets@[i]),
        progress.settled(inputs),
        progress.textures.len() <= 5 * inputs.count(),
    ensures
        progress.to_texture(inputs).1 != OpenAction::Fail(GeometryProbeError::Contract),
    decreases 5 * inputs.count() - progress.textures.len(),
{
    let place = progress.textures.len() as int;
    assert forall|p: int| 0 <= p < 5 * inputs.count() implies #[trigger] inputs.texture_need(p)
        == Ok::<bool, GeometryProbeError>(
        inputs.assets@[p / 5].material.textures()[p % 5].bytes@.len() > 0,
    ) by {
        let asset = inputs.assets@[p / 5];
        assert(presentable(asset));
        let objects = inputs.catalog@[p / 5].objects;
        assert(objects[2 + p % 5] == asset.material.maps()[p % 5]);
        assert(asset.material.maps()[p % 5] == asset.material.textures()[p % 5].bytes@);
    }
    if inputs.lacks_base_color(progress.textures) {
        let first = place - 5;
        assert(first / 5 == place / 5 - 1 && first % 5 == 0);
        assert(presentable(inputs.assets@[first / 5]));
        assert(inputs.texture_need(first) == Ok::<bool, GeometryProbeError>(
            progress.textures[first] is Some,
        ));
        assert(false);
    }
    if place < 5 * inputs.count() {
        if inputs.texture_need(place) == Ok::<bool, GeometryProbeError>(false) {
            let next = OpenProgress { textures: progress.textures.push(None), ..progress };
            assert forall|p: int| 0 <= p < next.textures.len() implies
                #[trigger] inputs.texture_need(p) == Ok::<bool, GeometryProbeError>(
                next.textures[p] is Some,
            ) by {
                if p < place {
                    assert(next.textures[p] == progress.textures[p]);
                }
            }
            lemma_textures_keep_the_contract(next, inputs);
        }
    }
}

/// The frame opens in the middle of an output that holds it, to a pixel, at the
/// edge of a smaller one, and at a fixed place where the size is unknown.
pub proof fn lemma_frames_open_in_the_middle(output: Result<Extent, Ui4Error>)
    ensures
        ({
            let (x, y) = initial_origin(output);
            match output {
                Ok(extent) => {
                    &&& extent.width >= 784 ==> 0 <= extent.width - (x + 784 + x) <= 1
                    &&& extent.width < 784 ==> x == 0
                    &&& extent.height >= 441 ==> 0 <= extent.height - (y + 441 + y) <= 1
                    &&& extent.height < 441 ==> y == 0
                },
                Err(_) => x == 120 && y == 96,
            }
        }),
{
}

/// A scene can be opened exactly where there is an entry for every asset and
/// the first asset has vertices, has indices, and has four bytes for each index
/// that it counts.
pub proof fn lemma_what_makes_a_scene(assets: Seq<PreparedAsset>, catalog_count: nat)
    requires
        assets.len() > 0,
    ensures
        scene_contract(assets, catalog_count) <==> {
            &&& assets.len() == catalog_count
            &&& assets[0].vertex_count > 0
            &&& assets[0].index_count > 0
            &&& assets[0].indices@.len() == 4 * assets[0].index_count
        },
{
}

/// A scene that could be opened draws the whole of its index buffer in every
/// frame.
pub proof fn lemma_scenes_draw_their_whole_mesh(
    assets: Seq<PreparedAsset>,
    catalog_count: nat,
    submission: Submission,
    event: SubmitEvent,
    resources: SceneResources,
    unsupported: i32,
    incomplete: i32,
    after: Submission,
    action: SubmitAction,
)
    requires
        assets.len() > 0,
        scene_contract(assets, catalog_count),
        submission_step(
            submission,
            event,
            resources,
            assets[0],
            unsupported,
            incomplete,
            after,
            action,
        ),
        action is Submit,
    ensures
        action->Submit_0.draw.first_index == 0,
        4 * action->Submit_0.draw.index_count == assets[0].indices@.len(),
        action->Submit_0.draw.index_count > 0,
{
    crate::probe::lemma_frames_draw_the_whole_mesh(
        submission,
        event,
        resources,
        assets[0],
        unsupported,
        incomplete,
        after,
        action,
    );
}

/// A mesh is described by its asset's own counts, by the layout that its
/// material calls for, and by its topology, to which a mesh that is visible
/// from behind adds the device's flag.  Without one topology there is no
/// description.
pub proof fn lemma_meshes_are_described_as_prepared(asset: PreparedAsset, codes: DeviceCodes)
    ensures
        asset.retained_topology is None <==> described(asset, codes) is None,
        described(asset, codes) matches Some(descriptor) ==> {
            let topology = codes.topology.code(asset.retained_topology->Some_0);
            &&& descriptor.vertex_count == asset.vertex_count
            &&& descriptor.index_count == asset.index_count
            &&& asset.sampled_material ==> descriptor.vertex_layout == codes.layout_sampled
            &&& !asset.sampled_material ==> descriptor.vertex_layout
                == codes.layout_position_normal
            &&& asset.retained_double_sided ==> descriptor.topology == topology
                | codes.mesh_double_sided
            &&& !asset.retained_double_sided ==> descriptor.topology == topology
        },
{
    if let Some(topology) = asset.retained_topology {
        let code = codes.topology.code(topology);
        assert(code | 0 == code) by (bit_vector);
    }
}

/// The opening works on the bytes that were read back: the two streams of an
/// asset, and the map of each role beside the role's prepared texture.
pub proof fn lemma_the_opening_works_on_what_was_read(
    inputs: OpenInputs,
    slot: int,
    role: MaterialRole,
)
    requires
        inputs.wf(),
        0 <= slot < inputs.count(),
    ensures
        inputs.count() == inputs.assets@.len(),
        inputs.stream(slot, MeshStream::Vertices) == inputs.catalog.assets@[slot].vertices@,
        inputs.stream(slot, MeshStream::Indices) == inputs.catalog.assets@[slot].indices@,
        inputs.texture_need(5 * slot + role.index()) == texture_need(
            inputs.assets@[slot].material.textures()[role.index()],
            inputs.catalog.assets@[slot].material.maps()[role.index()],
        ),
        role_at(role.index()) == role,
{
    let asset = inputs.catalog.assets@[slot];
    let place = 5 * slot + role.index();
    assert(place / 5 == slot && place % 5 == role.index());
    assert(asset@.objects[2 + role.index()] == asset.material.maps()[role.index()]);
}

/// A mesh is begun only of an asset whose bytes are the prepared ones, with a
/// buffer as large as its vertices; after the last asset the fleet's table is
/// made, with a row for each ship.
pub proof fn lemma_how_a_mesh_is_begun(progress: OpenProgress, inputs: OpenInputs)
    requires
        inputs.wf(),
    ensures
        ({
            let slot = progress.meshes.len() as int;
            let (after, action) = progress.to_mesh(inputs);
            &&& slot >= inputs.assets@.len() ==> {
                &&& after == (OpenProgress { phase: OpenPhase::SeedBuffer, ..progress })
                &&& action == (OpenAction::CreateBuffer {
                    bytes: (3 * inputs.codes.seed_bytes) as usize,
                    usage: inputs.codes.usage_map_read | inputs.codes.usage_map_write,
                })
            }
            &&& slot < inputs.assets@.len() && !contents_match(
                inputs.catalog@[slot],
                inputs.assets@[slot],
            ) ==> {
                &&& after == (OpenProgress { phase: OpenPhase::Failed, ..progress })
                &&& action == OpenAction::Fail(GeometryProbeError::Contract)
            }
            &&& slot < inputs.assets@.len() && contents_match(
                inputs.catalog@[slot],
                inputs.assets@[slot],
            ) ==> {
                &&& after == (OpenProgress { phase: OpenPhase::VertexBuffer, ..progress })
                &&& action == (OpenAction::CreateBuffer {
                    bytes: inputs.assets@[slot].vertices@.len() as usize,
                    usage: inputs.codes.usage_map_write | inputs.codes.usage_vertex,
                })
            }
        }),
{
    let slot = progress.meshes.len() as int;
    if slot < inputs.assets@.len() {
        assert(crate::database::prepared_contents(inputs.assets@[slot]).objects[0]
            == inputs.assets@[slot].vertices@);
    }
}

/// Textures are settled role by role and asset by asset.  A sampled asset whose
/// base colour turned out to be missing breaks the contract once its roles are
/// settled; and once all are, the scene is assembled.
pub proof fn lemma_how_textures_are_settled(progress: OpenProgress, inputs: OpenInputs)
    requires
        inputs.wf(),
    ensures
        ({
            let place = progress.textures.len() as int;
            let (after, action) = progress.to_texture(inputs);
            let lacking = place > 0 && place % 5 == 0 && inputs.assets@[place / 5
                - 1].sampled_material && progress.textures[place - 5] is None;
            &&& lacking ==> action == OpenAction::Fail(GeometryProbeError::Contract)
            &&& !lacking && place >= 5 * inputs.assets@.len() ==> {
                &&& action == OpenAction::Assemble
                &&& after == (OpenProgress { phase: OpenPhase::Assembled, ..progress })
            }
            &&& !lacking && place < 5 * inputs.assets@.len() && inputs.texture_need(place) == Ok::<
                bool,
                GeometryProbeError,
            >(true) ==> {
                &&& action matches OpenAction::DecodeTexture { slot, role } && slot == place / 5
                    && role.index() == place % 5
                &&& after == (OpenProgress { phase: OpenPhase::Texture, ..progress })
            }
            &&& !lacking && place < 5 * inputs.assets@.len() && inputs.texture_need(place) == Ok::<
                bool,
                GeometryProbeError,
            >(false) ==> progress.to_texture(inputs) == (OpenProgress {
                textures: progress.textures.push(None),
                ..progress
            }).to_texture(inputs)
            &&& !lacking && place < 5 * inputs.assets@.len() && inputs.texture_need(place) is Err
                ==> {
                &&& after == (OpenProgress { phase: OpenPhase::Failed, ..progress })
                &&& action == OpenAction::Fail(inputs.texture_need(place)->Err_0)
            }
        }),
{
    assert(inputs.assets@.len() == inputs.assets.len());
    let place = progress.textures.len() as int;
    if place < 5 * inputs.assets@.len() {
        assert(0 <= place / 5 <= usize::MAX);
    }
}

/// The calls of an opening follow each other, each kept with what it answered,
/// and the first that fails ends the opening under its own name.
pub proof fn lemma_the_course_of_an_opening(
    progress: OpenProgress,
    event: OpenEvent,
    inputs: OpenInputs,
)
    requires
        inputs.wf(),
        progress.wf(inputs),
        progress.awaits(event),
    ensures
        ({
            let (after, action) = progress.next(event, inputs);
            let slot = progress.meshes.len() as int;
            let fails = |error: GeometryProbeError|
                after == (OpenProgress { phase: OpenPhase::Failed, ..progress }) && action
                    == OpenAction::Fail(error);
            match event {
                OpenEvent::OutputRead(output) => {
                    &&& after == (OpenProgress { phase: OpenPhase::Frame, ..progress })
                    &&& action matches OpenAction::OpenFrame { x, y, width, height } && (
                    x as int,
                    y as int,
                ) == initial_origin(output) && width == 784 && height == 441
                },
                OpenEvent::FrameOpened(Ok(_)) => after == (OpenProgress {
                    phase: OpenPhase::Device,
                    ..progress
                }) && action == OpenAction::OpenDevice,
                OpenEvent::FrameOpened(Err(error)) => fails(
                    GeometryProbeError::Ui4("frame-open", error),
                ),
                OpenEvent::DeviceOpened(Ok(_)) => after == (OpenProgress {
                    phase: OpenPhase::Queue,
                    ..progress
                }) && action == OpenAction::CreateQueue,
                OpenEvent::DeviceOpened(Err(code)) => fails(
                    GeometryProbeError::Vgpu("device-open", code),
                ),
                OpenEvent::QueueCreated(Ok(_)) => (after, action) == progress.to_mesh(inputs),
                OpenEvent::QueueCreated(Err(code)) => fails(
                    GeometryProbeError::Vgpu("queue-create", code),
                ),
                OpenEvent::BufferCreated(Ok(buffer)) => {
                    &&& progress.phase == OpenPhase::VertexBuffer ==> {
                        &&& after == (OpenProgress {
                            phase: OpenPhase::IndexBuffer,
                            vertex_buffers: progress.vertex_buffers.push(buffer),
                            ..progress
                        })
                        &&& action == (OpenAction::CreateBuffer {
                            bytes: inputs.assets@[slot].indices@.len() as usize,
                            usage: inputs.codes.usage_map_write | inputs.codes.usage_index,
                        })
                    }
                    &&& progress.phase == OpenPhase::IndexBuffer ==> {
                        &&& after == (OpenProgress {
                            phase: OpenPhase::VertexUpload,
                            index_buffers: progress.index_buffers.push(buffer),
                            ..progress
                        })
                        &&& action == (OpenAction::WriteBuffer {
                            buffer: progress.vertex_buffers.last(),
                            slot: slot as usize,
                            stream: MeshStream::Vertices,
                        })
                    }
                    &&& progress.phase == OpenPhase::SeedBuffer ==> (after, action) == (
                    OpenProgress { seed_buffer: buffer, ..progress }).to_texture(inputs)
                },
                OpenEvent::BufferCreated(Err(code)) => {
                    &&& progress.phase == OpenPhase::VertexBuffer ==> fails(
                        GeometryProbeError::Vgpu("asset-vertex-buffer-create", code),
                    )
                    &&& progress.phase == OpenPhase::IndexBuffer ==> fails(
                        GeometryProbeError::Vgpu("asset-index-buffer-create", code),
                    )
                    &&& progress.phase == OpenPhase::SeedBuffer ==> fails(
                        GeometryProbeError::Vgpu("ship-seed-buffer-create", code),
                    )
                },
                OpenEvent::BufferWritten(written) => {
                    &&& progress.phase == OpenPhase::VertexUpload ==> match written {
                        Err(code) => fails(GeometryProbeError::Vgpu("asset-vertex-upload", code)),
                        Ok(count) => if count != inputs.assets@[slot].vertices@.len() {
                            fails(
                                GeometryProbeError::Vgpu(
                                    "asset-vertex-upload",
                                    inputs.codes.error_incomplete,
                                ),
                            )
                        } else {
                            &&& after == (OpenProgress {
                                phase: OpenPhase::IndexUpload,
                                ..progress
                            })
                            &&& action == (OpenAction::WriteBuffer {
                                buffer: progress.index_buffers.last(),
                                slot: slot as usize,
                                stream: MeshStream::Indices,
                            })
                        },
                    }
                    &&& progress.phase == OpenPhase::IndexUpload ==> match written {
                        Err(code) => fails(GeometryProbeError::Vgpu("asset-index-upload", code)),
                        Ok(count) => if count != inputs.assets@[slot].indices@.len() {
                            fails(
                                GeometryProbeError::Vgpu(
                                    "asset-index-upload",
                                    inputs.codes.error_incomplete,
                                ),
                            )
                        } else {
                            match described(inputs.assets@[slot], inputs.codes) {
                                None => fails(GeometryProbeError::Contract),
                                Some(descriptor) => {
                                    &&& after == (OpenProgress {
                                        phase: OpenPhase::Mesh,
                                        ..progress
                                    })
                                    &&& action == (OpenAction::CreateMesh {
                                        vertices: progress.vertex_buffers.last(),
                                        indices: progress.index_buffers.last(),
                                        descriptor,
                                    })
                                },
                            }
                        },
                    }
                },
                OpenEvent::MeshCreated(Ok(mesh)) => (after, action) == (OpenProgress {
                    meshes: progress.meshes.push(mesh),
                    ..progress
                }).to_mesh(inputs),
                OpenEvent::MeshCreated(Err(code)) => fails(
                    GeometryProbeError::Vgpu("retained-mesh-create", code),
                ),
                OpenEvent::TextureDecoded(Ok(texture)) => (after, action) == (OpenProgress {
                    textures: progress.textures.push(Some(texture)),
                    ..progress
                }).to_texture(inputs),
                OpenEvent::TextureDecoded(Err(code)) => fails(
                    GeometryProbeError::Vgpu("material-texture-decode", code),
                ),
            }
        }),
{
    let slot = progress.meshes.len() as int;
    if progress.phase == OpenPhase::VertexBuffer || progress.phase == OpenPhase::IndexBuffer
        || progress.phase == OpenPhase::VertexUpload || progress.phase == OpenPhase::IndexUpload {
        assert(contents_match(inputs.catalog@[slot], inputs.assets@[slot]));
        let objects = crate::database::prepared_contents(inputs.assets@[slot]).objects;
        assert(objects[0] == inputs.assets@[slot].vertices@);
        assert(objects[1] == inputs.assets@[slot].indices@);
    }
}

/// An opening waits for the answer to the call that it made last.
pub proof fn lemma_what_an_opening_waits_for(progress: OpenProgress, event: OpenEvent)
    ensures
        progress.awaits(event) <==> match event {
            OpenEvent::OutputRead(_) => progress.phase == OpenPhase::Output,
            OpenEvent::FrameOpened(_) => progress.phase == OpenPhase::Frame,
            OpenEvent::DeviceOpened(_) => progress.phase == OpenPhase::Device,
            OpenEvent::QueueCreated(_) => progress.phase == OpenPhase::Queue,
            OpenEvent::BufferCreated(_) => progress.phase == OpenPhase::VertexBuffer
                || progress.phase == OpenPhase::IndexBuffer || progress.phase
                == OpenPhase::SeedBuffer,
            OpenEvent::BufferWritten(_) => progress.phase == OpenPhase::VertexUpload
                || progress.phase == OpenPhase::IndexUpload,
            OpenEvent::MeshCreated(_) => progress.phase == OpenPhase::Mesh,
            OpenEvent::TextureDecoded(_) => progress.phase == OpenPhase::Texture,
        },
{
}

/// A scene holds what its opening made: for each asset its own buffers, mesh and
/// parameters, and for each role of each asset the texture that was settled for
/// it; and the fleet's buffer with its row size.
pub proof fn lemma_scenes_hold_what_was_made(
    resources: SceneResources,
    progress: OpenProgress,
    inputs: OpenInputs,
    i: int,
)
    requires
        inputs.wf(),
        progress.wf(inputs),
        progress.phase == OpenPhase::Assembled,
        holds_opening(resources, progress, inputs),
        0 <= i < inputs.count(),
    ensures
        resources.asset_vertex_buffers@[i] == Some(progress.vertex_buffers[i]),
        resources.asset_index_buffers@[i] == Some(progress.index_buffers[i]),
        resources.retained_meshes@[i] == Some(progress.meshes[i]),
        resources.material_textures@[i].base_color == progress.textures[5 * i],
        resources.material_textures@[i].metallic_roughness == progress.textures[5 * i + 1],
        resources.material_textures@[i].emissive == progress.textures[5 * i + 2],
        resources.material_textures@[i].occlusion == progress.textures[5 * i + 3],
        resources.material_textures@[i].normal == progress.textures[5 * i + 4],
        resources.material_parameters@[i] == inputs.catalog.assets@[i].material.parameters,
        resources.ship_seed_buffer == progress.seed_buffer,
        resources.ship_seed_bytes == inputs.codes.seed_bytes,
{
    let slots = resources.material_textures@[i].slots();
    let range = progress.textures.subrange(5 * i, 5 * i + 5);
    assert(slots == range);
    assert(slots[0] == range[0] && slots[1] == range[1] && slots[2] == range[2] && slots[3]
        == range[3] && slots[4] == range[4]);
    let buffers = progress.vertex_buffers.map_values(|buffer: u64| Some(buffer));
    assert(buffers[i] == Some(progress.vertex_buffers[i]));
}

} // verus!
