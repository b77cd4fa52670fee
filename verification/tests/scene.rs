use boat::asset::{
    PreparedAsset, PreparedMaterial, PreparedTexture, PrimitiveTopology, TopologyCodes,
};
use boat::database::{DatabasePreparedAsset, DatabasePreparedCatalog};
use boat::error::{GeometryProbeError, Ui4Error};
use boat::frame::{ServiceAction, ServiceEvent};
use boat::geometry::{ship_seeds, ShipPose};
use boat::interaction::Extent;
use boat::material::{decode_material_texture, DatabasePreparedMaterial, MaterialRole};
use boat::mesh::{bake_model, SourcePrimitive, SourceTangents};
use boat::model::{prepared_asset, source_parameters, BakedBuffers, BakedTextures};
use boat::opening::{
    initial_position, mesh_descriptor, DeviceCodes, MeshDescriptor, MeshStream, OpenAction,
    OpenEvent, OpenPhase, Opening,
};
use boat::render::{FrameRender, RenderAction, RenderEvent, RenderPhase};
use boat::probe::{
    DrawRange, FrameReport, GeometryProbe, Submission, SubmitAction, SubmitEvent, SubmitPhase,
};

const UNSUPPORTED: i32 = -95;
const INCOMPLETE: i32 = -5;

fn codes() -> DeviceCodes {
    DeviceCodes {
        topology: TopologyCodes {
            point_list: 1,
            line_list: 2,
            line_loop: 3,
            line_strip: 4,
            triangle_list: 5,
            triangle_strip: 6,
            triangle_fan: 7,
        },
        mesh_double_sided: 0x100,
        layout_position_normal: 20,
        layout_sampled: 21,
        usage_map_read: 1,
        usage_map_write: 2,
        usage_vertex: 4,
        usage_index: 8,
        error_unsupported: UNSUPPORTED,
        error_incomplete: INCOMPLETE,
        seed_bytes: 64,
    }
}

fn asset() -> PreparedAsset {
    PreparedAsset {
        name: "Ship",
        vertices: &[7; 144],
        indices: &[1; 12],
        vertex_count: 3,
        index_count: 3,
        vertex_stride: 48,
        material: PreparedMaterial {
            base_color: PreparedTexture { name: "Ship.base-color.png", bytes: &[1, 2, 3] },
            metallic_roughness: PreparedTexture::none(),
            emissive: PreparedTexture { name: "Ship.emissive.jpg", bytes: &[4, 5] },
            occlusion: PreparedTexture::none(),
            normal: PreparedTexture::none(),
            parameters: source_parameters(None, 1),
        },
        sampled_material: true,
        helmet_program: true,
        primitives: &[],
        retained_topology: Some(PrimitiveTopology::TriangleList),
        retained_double_sided: true,
    }
}

fn read_back(asset: &PreparedAsset) -> DatabasePreparedAsset {
    DatabasePreparedAsset {
        vertices: asset.vertices.to_vec(),
        indices: asset.indices.to_vec(),
        material: DatabasePreparedMaterial {
            base_color: asset.material.base_color.bytes.to_vec(),
            metallic_roughness: asset.material.metallic_roughness.bytes.to_vec(),
            emissive: asset.material.emissive.bytes.to_vec(),
            occlusion: asset.material.occlusion.bytes.to_vec(),
            normal: asset.material.normal.bytes.to_vec(),
            parameters: asset.material.parameters,
        },
    }
}

fn poses() -> [ShipPose; 3] {
    [5, 7, 9].map(|place| ShipPose { translation: [place; 3], rotation: [place + 1; 4] })
}

fn catalog(assets: &[PreparedAsset]) -> DatabasePreparedCatalog {
    DatabasePreparedCatalog { assets: assets.iter().map(read_back).collect() }
}

/// Answer calls as a sound platform would until one of a phase is due.
fn advance_to(opening: &mut Opening, phase: OpenPhase, handle: &mut u64) -> OpenAction {
    let mut action = OpenAction::ReadOutput;
    while opening.phase != phase {
        *handle += 1;
        let event = match action {
            OpenAction::ReadOutput => {
                OpenEvent::OutputRead(Ok(Extent { width: 1920, height: 1080 }))
            }
            OpenAction::OpenFrame { .. } => OpenEvent::FrameOpened(Ok(())),
            OpenAction::OpenDevice => OpenEvent::DeviceOpened(Ok(())),
            OpenAction::CreateQueue => OpenEvent::QueueCreated(Ok(())),
            OpenAction::CreateBuffer { .. } => OpenEvent::BufferCreated(Ok(*handle)),
            OpenAction::WriteBuffer { slot, stream, .. } => {
                let asset = &opening.inputs.catalog.assets[slot];
                OpenEvent::BufferWritten(Ok(match stream {
                    MeshStream::Vertices => asset.vertices.len(),
                    MeshStream::Indices => asset.indices.len(),
                }))
            }
            OpenAction::CreateMesh { .. } => OpenEvent::MeshCreated(Ok(*handle)),
            OpenAction::DecodeTexture { .. } => OpenEvent::TextureDecoded(Ok(*handle)),
            OpenAction::Assemble | OpenAction::Fail(_) => panic!("{action:?}"),
        };
        action = opening.advance(event);
    }
    action
}

fn open_probe(asset: PreparedAsset) -> GeometryProbe {
    let assets = [asset];
    let catalog = catalog(&assets);
    let (mut opening, _) = Opening::open(&assets, &catalog, codes()).unwrap();
    let mut handle = 100;
    advance_to(&mut opening, OpenPhase::Assembled, &mut handle);
    opening.assemble([3; 16])
}

#[test]
fn frames_open_in_the_middle_of_the_output() {
    let output = |width, height| Ok(Extent { width, height });
    assert_eq!(initial_position(output(1920, 1080)), (568, 319));
    assert_eq!(initial_position(output(640, 480)), (0, 19));
    assert_eq!(initial_position(output(784, 441)), (0, 0));
    assert_eq!(initial_position(output(u32::MAX, 0)), (2147483255, 0));
    assert_eq!(initial_position(Err(Ui4Error::NotFound)), (120, 96));
}

#[test]
fn meshes_are_described_in_device_codes() {
    let mut ship = asset();
    assert_eq!(
        mesh_descriptor(&ship, &codes()),
        Some(MeshDescriptor {
            vertex_count: 3,
            index_count: 3,
            vertex_layout: 21,
            topology: 0x105,
        })
    );
    ship.sampled_material = false;
    ship.retained_double_sided = false;
    ship.retained_topology = Some(PrimitiveTopology::LineLoop);
    let plain = mesh_descriptor(&ship, &codes()).unwrap();
    assert_eq!((plain.vertex_layout, plain.topology), (20, 3));
    ship.retained_topology = None;
    assert_eq!(mesh_descriptor(&ship, &codes()), None);
}

#[test]
fn an_opening_brings_the_asset_up_call_by_call() {
    let assets = [asset()];
    let catalog = catalog(&assets);
    let (mut opening, action) = Opening::open(&assets, &catalog, codes()).unwrap();
    assert_eq!(action, OpenAction::ReadOutput);
    assert_eq!(
        opening.advance(OpenEvent::OutputRead(Err(Ui4Error::Busy))),
        OpenAction::OpenFrame { x: 120, y: 96, width: 784, height: 441 }
    );
    assert_eq!(opening.advance(OpenEvent::FrameOpened(Ok(()))), OpenAction::OpenDevice);
    assert_eq!(opening.advance(OpenEvent::DeviceOpened(Ok(()))), OpenAction::CreateQueue);
    assert_eq!(
        opening.advance(OpenEvent::QueueCreated(Ok(()))),
        OpenAction::CreateBuffer { bytes: 144, usage: 6 }
    );
    assert_eq!(
        opening.advance(OpenEvent::BufferCreated(Ok(31))),
        OpenAction::CreateBuffer { bytes: 12, usage: 10 }
    );
    assert_eq!(
        opening.advance(OpenEvent::BufferCreated(Ok(32))),
        OpenAction::WriteBuffer { buffer: 31, slot: 0, stream: MeshStream::Vertices }
    );
    assert_eq!(
        opening.advance(OpenEvent::BufferWritten(Ok(144))),
        OpenAction::WriteBuffer { buffer: 32, slot: 0, stream: MeshStream::Indices }
    );
    assert_eq!(
        opening.advance(OpenEvent::BufferWritten(Ok(12))),
        OpenAction::CreateMesh {
            vertices: 31,
            indices: 32,
            descriptor: MeshDescriptor {
                vertex_count: 3,
                index_count: 3,
                vertex_layout: 21,
                topology: 0x105,
            },
        }
    );
    assert_eq!(
        opening.advance(OpenEvent::MeshCreated(Ok(33))),
        OpenAction::CreateBuffer { bytes: 192, usage: 3 }
    );
    assert_eq!(
        opening.advance(OpenEvent::BufferCreated(Ok(34))),
        OpenAction::DecodeTexture { slot: 0, role: MaterialRole::BaseColor }
    );
    assert_eq!(
        opening.advance(OpenEvent::TextureDecoded(Ok(35))),
        OpenAction::DecodeTexture { slot: 0, role: MaterialRole::Emissive }
    );
    assert_eq!(opening.advance(OpenEvent::TextureDecoded(Ok(36))), OpenAction::Assemble);
    let probe = opening.assemble([3; 16]);
    assert_eq!(probe.resources.asset_vertex_buffers, [Some(31)]);
    assert_eq!(probe.resources.asset_index_buffers, [Some(32)]);
    assert_eq!(probe.resources.retained_meshes, [Some(33)]);
    assert_eq!(probe.resources.ship_seed_buffer, 34);
    assert_eq!(probe.resources.ship_seed_bytes, 64);
    assert_eq!(probe.resources.material_textures[0].base_color, Some(35));
    assert_eq!(probe.resources.material_textures[0].metallic_roughness, None);
    assert_eq!(probe.resources.material_textures[0].emissive, Some(36));
    assert_eq!(probe.timeline(), 0);
}

#[test]
fn textures_are_settled_as_decoded() {
    let assets = [asset()];
    let catalog = catalog(&assets);
    let material = &assets[0].material;
    let encoded = &catalog.assets[0].material;
    for decoded in [Ok(77), Err(-12)] {
        let (mut opening, _) = Opening::open(&assets, &catalog, codes()).unwrap();
        advance_to(&mut opening, OpenPhase::Texture, &mut 100);
        let action = opening.advance(OpenEvent::TextureDecoded(decoded));
        match decode_material_texture(&material.base_color, &encoded.base_color, decoded) {
            Ok(texture) => {
                assert!(matches!(action, OpenAction::DecodeTexture { .. }));
                advance_to(&mut opening, OpenPhase::Texture, &mut 100);
                assert_eq!(
                    opening.advance(OpenEvent::TextureDecoded(Ok(78))),
                    OpenAction::Assemble
                );
                let textures = opening.assemble([3; 16]).resources.material_textures;
                assert_eq!(textures[0].base_color, texture);
                assert_eq!(
                    decode_material_texture(
                        &material.metallic_roughness,
                        &encoded.metallic_roughness,
                        decoded
                    ),
                    Ok(textures[0].metallic_roughness)
                );
            }
            Err(error) => assert_eq!(action, OpenAction::Fail(error)),
        }
    }
}

#[test]
fn an_opened_scene_is_at_rest() {
    let probe = open_probe(asset());
    assert!(!probe.controls.camera.tab_down);
    assert!(probe.controls.resize_drag.is_none());
    assert_eq!(probe.controls.previous_elapsed_millis, 0);
}

#[test]
fn a_broken_contract_is_found_before_the_first_call() {
    let contract = Some(GeometryProbeError::Contract);
    let refuse = |assets: &[PreparedAsset], catalog: &DatabasePreparedCatalog| {
        Opening::open(assets, catalog, codes()).err()
    };
    let assets = [asset()];
    assert_eq!(refuse(&assets, &DatabasePreparedCatalog { assets: Vec::new() }), contract);
    let mut empty = asset();
    empty.vertex_count = 0;
    let assets = [empty];
    assert_eq!(refuse(&assets, &catalog(&assets)), contract);
    let mut empty = asset();
    empty.index_count = 0;
    let assets = [empty];
    assert_eq!(refuse(&assets, &catalog(&assets)), contract);
    let mut short = asset();
    short.indices = &[1; 11];
    let assets = [short];
    assert_eq!(refuse(&assets, &catalog(&assets)), contract);
}

#[test]
fn bytes_that_changed_in_the_database_are_never_uploaded() {
    let assets = [asset()];
    let mut changed = catalog(&assets);
    changed.assets[0].vertices[0] = 8;
    let (mut opening, _) = Opening::open(&assets, &changed, codes()).unwrap();
    let mut handle = 0;
    advance_to(&mut opening, OpenPhase::Queue, &mut handle);
    assert_eq!(
        opening.advance(OpenEvent::QueueCreated(Ok(()))),
        OpenAction::Fail(GeometryProbeError::Contract)
    );
}

#[test]
fn mixed_topologies_and_missing_base_colors_break_the_contract() {
    let mut mixed = asset();
    mixed.retained_topology = None;
    let assets = [mixed];
    let held = catalog(&assets);
    let (mut opening, _) = Opening::open(&assets, &held, codes()).unwrap();
    let mut handle = 0;
    advance_to(&mut opening, OpenPhase::IndexUpload, &mut handle);
    assert_eq!(
        opening.advance(OpenEvent::BufferWritten(Ok(12))),
        OpenAction::Fail(GeometryProbeError::Contract)
    );

    let mut bare = asset();
    bare.material.base_color = PreparedTexture::none();
    bare.material.emissive = PreparedTexture::none();
    let assets = [bare];
    let held = catalog(&assets);
    let (mut opening, _) = Opening::open(&assets, &held, codes()).unwrap();
    advance_to(&mut opening, OpenPhase::SeedBuffer, &mut handle);
    assert_eq!(
        opening.advance(OpenEvent::BufferCreated(Ok(1))),
        OpenAction::Fail(GeometryProbeError::Contract)
    );
}

#[test]
fn every_failed_call_ends_the_opening_under_its_name() {
    let assets = [asset()];
    let held = catalog(&assets);
    let at = |phase: OpenPhase, event: OpenEvent| {
        let (mut opening, _) = Opening::open(&assets, &held, codes()).unwrap();
        let mut handle = 0;
        advance_to(&mut opening, phase, &mut handle);
        opening.advance(event)
    };
    let vgpu = |name, code| OpenAction::Fail(GeometryProbeError::Vgpu(name, code));
    assert_eq!(
        at(OpenPhase::Frame, OpenEvent::FrameOpened(Err(Ui4Error::Busy))),
        OpenAction::Fail(GeometryProbeError::Ui4("frame-open", Ui4Error::Busy))
    );
    assert_eq!(
        at(OpenPhase::Device, OpenEvent::DeviceOpened(Err(-1))),
        vgpu("device-open", -1)
    );
    assert_eq!(
        at(OpenPhase::Queue, OpenEvent::QueueCreated(Err(-2))),
        vgpu("queue-create", -2)
    );
    assert_eq!(
        at(OpenPhase::VertexBuffer, OpenEvent::BufferCreated(Err(-3))),
        vgpu("asset-vertex-buffer-create", -3)
    );
    assert_eq!(
        at(OpenPhase::IndexBuffer, OpenEvent::BufferCreated(Err(-4))),
        vgpu("asset-index-buffer-create", -4)
    );
    assert_eq!(
        at(OpenPhase::VertexUpload, OpenEvent::BufferWritten(Err(-6))),
        vgpu("asset-vertex-upload", -6)
    );
    assert_eq!(
        at(OpenPhase::VertexUpload, OpenEvent::BufferWritten(Ok(143))),
        vgpu("asset-vertex-upload", INCOMPLETE)
    );
    assert_eq!(
        at(OpenPhase::IndexUpload, OpenEvent::BufferWritten(Ok(0))),
        vgpu("asset-index-upload", INCOMPLETE)
    );
    assert_eq!(
        at(OpenPhase::Mesh, OpenEvent::MeshCreated(Err(-7))),
        vgpu("retained-mesh-create", -7)
    );
    assert_eq!(
        at(OpenPhase::SeedBuffer, OpenEvent::BufferCreated(Err(-8))),
        vgpu("ship-seed-buffer-create", -8)
    );
    assert_eq!(
        at(OpenPhase::Texture, OpenEvent::TextureDecoded(Err(-9))),
        vgpu("material-texture-decode", -9)
    );
}

#[test]
fn a_submission_draws_the_fleet_and_moves_the_view_once_published() {
    let ship = asset();
    let mut probe = open_probe(asset());
    let resources_mesh = probe.resources.retained_meshes[0].unwrap();
    let (mut submission, action) = Submission::begin([4; 16], FRAME, poses());
    assert!(matches!(action, SubmitAction::AcquireSurface));
    let mut answer = |probe: &mut GeometryProbe, event| {
        probe.submit(&mut submission, event, &ship, UNSUPPORTED, INCOMPLETE)
    };
    match answer(&mut probe, SubmitEvent::SurfaceAcquired(Ok(50))) {
        SubmitAction::WriteSeeds { buffer, offset, rows, bytes } => {
            assert_eq!(buffer, probe.resources.ship_seed_buffer);
            assert_eq!((offset, bytes), (0, 192));
            assert_eq!(rows, ship_seeds(&poses()));
            assert_eq!(rows[1].translation, [7; 3]);
            assert_eq!(rows[2].flags, 2 << 16);
        }
        other => panic!("{other:?}"),
    }
    match answer(&mut probe, SubmitEvent::SeedsWritten(Ok(192))) {
        SubmitAction::Submit(frame) => {
            let textures = probe.resources.material_textures[0];
            assert_eq!(frame.surface, 50);
            assert_eq!(frame.mesh, resources_mesh);
            assert_eq!(Some(frame.vertices), probe.resources.asset_vertex_buffers[0]);
            assert_eq!(Some(frame.indices), probe.resources.asset_index_buffers[0]);
            assert_eq!(
                frame.textures,
                [textures.base_color.unwrap(), 0, textures.emissive.unwrap(), 0, 0]
            );
            assert_eq!(frame.parameters, ship.material.parameters);
            assert_eq!(frame.clear_rgba8_srgb, u32::from_le_bytes([0, 128, 0, 0]));
            assert_eq!(frame.seed_buffer, probe.resources.ship_seed_buffer);
            assert_eq!((frame.seed_offset, frame.seed_count, frame.draw_count), (0, 3, 1));
            assert_eq!(frame.draw, DrawRange { first_index: 0, index_count: 3 });
        }
        other => panic!("{other:?}"),
    }
    assert!(matches!(
        answer(&mut probe, SubmitEvent::Submitted(Ok(17))),
        SubmitAction::Wait(17)
    ));
    assert!(matches!(
        answer(&mut probe, SubmitEvent::Waited(Ok(()))),
        SubmitAction::Publish(FRAME)
    ));
    assert_eq!(probe.timeline(), 0);
    assert_eq!(probe.previous_view_projection, [3; 16]);
    assert!(matches!(
        answer(&mut probe, SubmitEvent::Published(Ok(()))),
        SubmitAction::Committed
    ));
    assert_eq!(probe.timeline(), 17);
    assert_eq!(probe.previous_view_projection, [4; 16]);
}

#[test]
fn a_failed_submission_leaves_timeline_and_view_alone() {
    let ship = asset();
    let events = [
        (SubmitPhase::Surface, SubmitEvent::SurfaceAcquired(Err(-1)), "surface-acquire", -1),
        (SubmitPhase::Seeds, SubmitEvent::SeedsWritten(Err(-2)), "ship-seed-upload", -2),
        (SubmitPhase::Seeds, SubmitEvent::SeedsWritten(Ok(1)), "ship-seed-upload", INCOMPLETE),
        (SubmitPhase::Seeds, SubmitEvent::SeedsWritten(Ok(191)), "ship-seed-upload", INCOMPLETE),
        (SubmitPhase::Seeds, SubmitEvent::SeedsWritten(Ok(193)), "ship-seed-upload", INCOMPLETE),
        (SubmitPhase::Submit, SubmitEvent::Submitted(Err(-16)), "retained-frame-submit", -16),
        (SubmitPhase::Wait, SubmitEvent::Waited(Err(-4)), "timeline-wait", -4),
    ];
    for (phase, event, name, code) in events {
        let mut probe = open_probe(asset());
        let (mut submission, _) = Submission::begin([4; 16], FRAME, poses());
        while submission.phase != phase {
            let sound = match submission.phase {
                SubmitPhase::Surface => SubmitEvent::SurfaceAcquired(Ok(50)),
                SubmitPhase::Seeds => SubmitEvent::SeedsWritten(Ok(192)),
                SubmitPhase::Submit => SubmitEvent::Submitted(Ok(17)),
                SubmitPhase::Wait => SubmitEvent::Waited(Ok(())),
                SubmitPhase::Publish | SubmitPhase::Ended => unreachable!(),
            };
            probe.submit(&mut submission, sound, &ship, UNSUPPORTED, INCOMPLETE);
        }
        match probe.submit(&mut submission, event, &ship, UNSUPPORTED, INCOMPLETE) {
            SubmitAction::Fail(error) => {
                assert_eq!(error, GeometryProbeError::Vgpu(name, code))
            }
            other => panic!("{other:?}"),
        }
        assert_eq!(submission.phase, SubmitPhase::Ended);
        assert_eq!(probe.timeline(), 0);
        assert_eq!(probe.previous_view_projection, [3; 16]);
    }

    let mut probe = open_probe(asset());
    let (mut submission, _) = Submission::begin([4; 16], FRAME, poses());
    for event in [
        SubmitEvent::SurfaceAcquired(Ok(50)),
        SubmitEvent::SeedsWritten(Ok(192)),
        SubmitEvent::Submitted(Ok(17)),
        SubmitEvent::Waited(Ok(())),
    ] {
        probe.submit(&mut submission, event, &ship, UNSUPPORTED, INCOMPLETE);
    }
    let event = SubmitEvent::Published(Err(Ui4Error::Busy));
    match probe.submit(&mut submission, event, &ship, UNSUPPORTED, INCOMPLETE) {
        SubmitAction::Fail(error) => {
            assert_eq!(error, GeometryProbeError::Ui4("frame-publish", Ui4Error::Busy))
        }
        other => panic!("{other:?}"),
    }
    assert_eq!(probe.timeline(), 0);
}

#[test]
fn a_submission_needs_its_resources() {
    let ship = asset();
    let mut probe = open_probe(asset());
    probe.resources.retained_meshes[0] = None;
    let (mut submission, _) = Submission::begin([4; 16], FRAME, poses());
    let event = SubmitEvent::SurfaceAcquired(Ok(50));
    match probe.submit(&mut submission, event, &ship, UNSUPPORTED, INCOMPLETE) {
        SubmitAction::Fail(error) => assert_eq!(error, GeometryProbeError::Contract),
        other => panic!("{other:?}"),
    }
}

#[test]
fn deferrals_are_counted_and_reported_when_rendering_resumes() {
    let mut probe = open_probe(asset());
    assert_eq!(
        probe.finish_frame(false),
        Some(FrameReport::Busy { deferred_frames: 1, timeline: 0 })
    );
    for count in 2..120 {
        assert_eq!(probe.finish_frame(false), None, "{count}");
    }
    assert_eq!(
        probe.finish_frame(false),
        Some(FrameReport::Busy { deferred_frames: 120, timeline: 0 })
    );
    assert_eq!(
        probe.finish_frame(true),
        Some(FrameReport::Resumed { deferred_frames: 120, timeline: 0 })
    );
    assert_eq!(probe.finish_frame(true), None);
    probe.deferred_frames = u64::MAX;
    probe.finish_frame(false);
    assert_eq!(probe.deferred_frames, u64::MAX);
}

#[test]
fn a_frame_begins_with_its_input() {
    let mut probe = open_probe(asset());
    assert_eq!(probe.render_frame(16), ServiceAction::ReadKeyboard);
    assert_eq!(
        probe.service(ServiceEvent::Keyboard(Ok(None))),
        ServiceAction::StepCamera { follow: None, delta_millis: 16 }
    );
}

#[test]
fn the_first_presentation_is_passed_on() {
    let probe = open_probe(asset());
    assert_eq!(probe.take_first_presentation(Ok(true)), Ok(true));
    assert_eq!(probe.take_first_presentation(Ok(false)), Ok(false));
    assert_eq!(
        probe.take_first_presentation(Err(Ui4Error::NotFound)),
        Err(GeometryProbeError::Ui4("first-presentation", Ui4Error::NotFound))
    );
}

const FRAME: Extent = Extent { width: 784, height: 441 };
const OUTPUT: Extent = Extent { width: 1920, height: 1080 };

fn answer(probe: &mut GeometryProbe, render: &mut FrameRender, event: RenderEvent) -> RenderAction {
    render.advance(probe, event, &asset(), UNSUPPORTED, INCOMPLETE)
}

/// A frame whose input is serviced.
fn begun(probe: &mut GeometryProbe) -> FrameRender {
    let (mut render, action) = FrameRender::begin(probe, 16, poses());
    assert!(matches!(action, RenderAction::Service(ServiceAction::ReadKeyboard)));
    for event in [
        ServiceEvent::Keyboard(Ok(None)),
        ServiceEvent::CameraStepped(Ok(())),
        ServiceEvent::ResizeTaken(Ok(None), FRAME),
        ServiceEvent::OutputRead(Ok(OUTPUT)),
    ] {
        let action = answer(probe, &mut render, RenderEvent::Service(event));
        assert!(matches!(action, RenderAction::Service(_)));
    }
    let last = ServiceEvent::PointerTaken(Ok(None), FRAME);
    let action = answer(probe, &mut render, RenderEvent::Service(last));
    assert!(matches!(action, RenderAction::Begin));
    render
}

#[test]
fn a_frame_runs_from_its_input_to_its_publication() {
    let mut probe = open_probe(asset());
    probe.deferred_frames = 2;
    let mut render = begun(&mut probe);
    let action = answer(&mut probe, &mut render, RenderEvent::Admitted(Ok(()), [9; 16], FRAME));
    assert!(matches!(action, RenderAction::Submit(SubmitAction::AcquireSurface)));
    for event in [
        SubmitEvent::SurfaceAcquired(Ok(50)),
        SubmitEvent::SeedsWritten(Ok(192)),
        SubmitEvent::Submitted(Ok(21)),
        SubmitEvent::Waited(Ok(())),
    ] {
        let action = answer(&mut probe, &mut render, RenderEvent::Submit(event));
        assert!(matches!(action, RenderAction::Submit(_)));
        assert_eq!(probe.timeline(), 0);
    }
    let published = RenderEvent::Submit(SubmitEvent::Published(Ok(())));
    match answer(&mut probe, &mut render, published) {
        RenderAction::Done { rendered, report } => {
            assert!(rendered);
            assert_eq!(
                report,
                Some(FrameReport::Resumed { deferred_frames: 2, timeline: 21 })
            );
        }
        other => panic!("{other:?}"),
    }
    assert_eq!(render.phase, RenderPhase::Ended);
    assert_eq!(probe.timeline(), 21);
    assert_eq!(probe.previous_view_projection, [9; 16]);
    assert_eq!(probe.deferred_frames, 0);
}

#[test]
fn a_frame_writes_the_rows_of_its_poses_over_the_whole_table() {
    let mut probe = open_probe(asset());
    let mut render = begun(&mut probe);
    assert_eq!(render.submission.poses, poses());
    answer(&mut probe, &mut render, RenderEvent::Admitted(Ok(()), [9; 16], FRAME));
    let acquired = RenderEvent::Submit(SubmitEvent::SurfaceAcquired(Ok(50)));
    match answer(&mut probe, &mut render, acquired) {
        RenderAction::Submit(SubmitAction::WriteSeeds { rows, bytes, .. }) => {
            assert_eq!(rows, ship_seeds(&poses()));
            assert_eq!(bytes, 3 * codes().seed_bytes);
        }
        other => panic!("{other:?}"),
    }
    let short = RenderEvent::Submit(SubmitEvent::SeedsWritten(Ok(64)));
    match answer(&mut probe, &mut render, short) {
        RenderAction::Fail(error) => {
            assert_eq!(error, GeometryProbeError::Vgpu("ship-seed-upload", INCOMPLETE))
        }
        other => panic!("{other:?}"),
    }
}

#[test]
fn busy_frames_are_deferred() {
    let mut probe = open_probe(asset());
    for count in 1..4 {
        let mut render = begun(&mut probe);
        let busy = RenderEvent::Admitted(Err(Ui4Error::Busy), [9; 16], FRAME);
        match answer(&mut probe, &mut render, busy) {
            RenderAction::Done { rendered, .. } => assert!(!rendered),
            other => panic!("{other:?}"),
        }
        assert_eq!(probe.deferred_frames, count);
        assert_eq!(probe.timeline(), 0);
        assert_eq!(probe.previous_view_projection, [3; 16]);
    }
}

#[test]
fn unpublished_frames_keep_the_scene() {
    let mut probe = open_probe(asset());
    let meshes = probe.resources.retained_meshes.clone();
    for _ in 0..3 {
        let mut deferred = begun(&mut probe);
        answer(&mut probe, &mut deferred, RenderEvent::Admitted(Err(Ui4Error::Busy), [9; 16], FRAME));
        let mut failed = begun(&mut probe);
        answer(&mut probe, &mut failed, RenderEvent::Admitted(Ok(()), [9; 16], FRAME));
        let lost = RenderEvent::Submit(SubmitEvent::SurfaceAcquired(Err(-4)));
        assert!(matches!(answer(&mut probe, &mut failed, lost), RenderAction::Fail(_)));
    }
    assert_eq!(probe.timeline(), 0);
    assert_eq!(probe.previous_view_projection, [3; 16]);
    assert_eq!(probe.resources.retained_meshes, meshes);
    assert_eq!(probe.deferred_frames, 3);
}

#[test]
fn frames_fail_with_the_error_of_their_part() {
    let failed = |action: RenderAction| match action {
        RenderAction::Fail(error) => error,
        other => panic!("{other:?}"),
    };
    let mut probe = open_probe(asset());
    let (mut render, _) = FrameRender::begin(&mut probe, 16, poses());
    let event = RenderEvent::Service(ServiceEvent::Keyboard(Err(Ui4Error::Ui4)));
    assert_eq!(
        failed(answer(&mut probe, &mut render, event)),
        GeometryProbeError::Ui4("fleet-camera-hotkeys", Ui4Error::Ui4)
    );

    let mut render = begun(&mut probe);
    let event = RenderEvent::Admitted(Err(Ui4Error::NotFound), [9; 16], FRAME);
    assert_eq!(
        failed(answer(&mut probe, &mut render, event)),
        GeometryProbeError::Ui4("frame-begin", Ui4Error::NotFound)
    );

    let mut render = begun(&mut probe);
    answer(&mut probe, &mut render, RenderEvent::Admitted(Ok(()), [9; 16], FRAME));
    let event = RenderEvent::Submit(SubmitEvent::SurfaceAcquired(Err(-16)));
    assert_eq!(
        failed(answer(&mut probe, &mut render, event)),
        GeometryProbeError::Vgpu("surface-acquire", -16)
    );
    assert_eq!(probe.deferred_frames, 0);
    assert_eq!(probe.timeline(), 0);
}

#[test]
fn baked_models_make_a_scene() {
    let triangle = SourcePrimitive {
        topology: PrimitiveTopology::TriangleList,
        positions: vec![[1; 3], [2; 3], [3; 3]],
        normals: vec![[4; 3]; 3],
        uvs: None,
        tangents: SourceTangents::Corners(Vec::new()),
        indices: vec![0, 1, 2],
        double_sided: false,
    };
    let builder = bake_model(&[triangle], false).ok().unwrap();
    let positions = builder.positions().to_vec();
    let geometry = builder.finish(&positions).unwrap();
    let buffers = BakedBuffers {
        vertices: geometry.vertices.leak(),
        indices: geometry.indices.leak(),
        vertex_stride: geometry.vertex_stride,
        primitives: geometry.primitives.leak(),
    };
    let textures = BakedTextures {
        base_color: None,
        metallic_roughness: None,
        emissive: None,
        occlusion: None,
        normal: None,
    };
    let assets =
        [prepared_asset(0, "Ship", &buffers, &textures, source_parameters(None, 1))];
    let held = catalog(&assets);
    let (mut opening, _) = Opening::open(&assets, &held, codes()).unwrap();
    let mut handle = 0;
    let action = advance_to(&mut opening, OpenPhase::Assembled, &mut handle);
    assert_eq!(action, OpenAction::Assemble);
}
