//! Geometry descriptors: resource-relative ranges, the four head instances,
//! and the fleet's transform seeds.
use crate::asset::{PreparedAsset, PrimitiveTopology};
#[allow(unused_imports)]
use crate::bits::{lemma_words_bytes, le_bytes, words_bytes};
use vstd::prelude::*;

verus! {

/// The identity of an immutable resource.
#[derive(Clone, Copy, Debug, PartialEq, Eq, Structural)]
pub struct ResourceId(pub u64);

/// The identity of a resource that the device may change.
#[derive(Clone, Copy, Debug, PartialEq, Eq, Structural)]
pub struct SharedResourceId(pub u64);

/// The width of an index.
#[derive(Clone, Copy, Debug, PartialEq, Eq, Structural)]
pub enum IndexFormat {
    Uint16,
    Uint32,
}

/// A byte range of an immutable resource.
#[derive(Clone, Copy, Debug, PartialEq, Eq, Structural)]
pub struct PreparedRange {
    pub resource: ResourceId,
    pub offset: u64,
    pub byte_length: u64,
    pub revision: u64,
}

/// Geometry that an executor can draw without parsing anything.
#[derive(Clone, Copy, Debug, PartialEq, Eq, Structural)]
pub struct ExecutablePrimitive {
    pub topology: PrimitiveTopology,
    pub vertices: PreparedRange,
    pub indices: Option<PreparedRange>,
    pub index_format: Option<IndexFormat>,
    pub vertex_stride: u32,
    pub vertex_count: u32,
    pub index_count: u32,
}

/// The states that a list of transform references selects from.
#[derive(Clone, Copy, Debug, PartialEq, Eq, Structural)]
pub struct TransformStateRange {
    pub resource: SharedResourceId,
    pub offset: u64,
    pub byte_length: u64,
    pub state_count: u32,
    pub state_stride: u32,
    pub generation: u64,
}

/// A mesh's references into a shared table of transform states.
#[derive(Clone, Copy, Debug, PartialEq, Eq, Structural)]
pub struct TransformRefList {
    pub states: TransformStateRange,
    pub references: PreparedRange,
    pub reference_count: u32,
}

/// The resource that holds the head's vertices.
pub const HELMET_VERTICES: u64 = 0x0001_0000_0000_0001;

/// The resource that holds the head's indices.
pub const HELMET_INDICES: u64 = 0x0001_0000_0000_0002;

/// The resource that holds the head's transform references.
pub const HELMET_TRANSFORM_REFS: u64 = 0x0001_0000_0000_0003;

/// How many heads share the one mesh.
pub const HEAD_INSTANCE_COUNT: u32 = 4;

/// The size of one transform state: twelve words.
pub const TRANSFORM_VALUE_BYTES: u32 = 48;

/// The size of the heads' state table.
pub const HEAD_TRANSFORM_STATE_BYTES: u64 = 192;

/// The heads' references, one little-endian word each: top left, top right,
/// bottom left, bottom right.
pub const HELMET_TRANSFORM_REFS_U32: [u8; 16] = [0, 0, 0, 0, 1, 0, 0, 0, 2, 0, 0, 0, 3, 0, 0, 0];

/// Describe the first asset's geometry as resource-relative ranges.
pub fn prepared_geometry(asset: &PreparedAsset) -> (primitive: ExecutablePrimitive)
    ensures
        primitive == (ExecutablePrimitive {
            topology: PrimitiveTopology::TriangleList,
            vertices: PreparedRange {
                resource: ResourceId(HELMET_VERTICES),
                offset: 0,
                byte_length: asset.vertices@.len() as u64,
                revision: 1,
            },
            indices: Some(
                PreparedRange {
                    resource: ResourceId(HELMET_INDICES),
                    offset: 0,
                    byte_length: (asset.index_count * 4) as u64,
                    revision: 1,
                },
            ),
            index_format: Some(IndexFormat::Uint32),
            vertex_stride: asset.vertex_stride as u32,
            vertex_count: asset.vertex_count,
            index_count: asset.index_count,
        }),
{
    ExecutablePrimitive {
        topology: PrimitiveTopology::TriangleList,
        vertices: PreparedRange {
            resource: ResourceId(HELMET_VERTICES),
            offset: 0,
            byte_length: asset.vertices.len() as u64,
            revision: 1,
        },
        indices: Some(
            PreparedRange {
                resource: ResourceId(HELMET_INDICES),
                offset: 0,
                byte_length: asset.index_count as u64 * 4,
                revision: 1,
            },
        ),
        index_format: Some(IndexFormat::Uint32),
        vertex_stride: asset.vertex_stride as u32,
        vertex_count: asset.vertex_count,
        index_count: asset.index_count,
    }
}

/// Bind the heads' four references to one shared table of states.
pub fn head_transform_refs(state_resource: SharedResourceId, generation: u64) -> (refs:
    TransformRefList)
    ensures
        refs == (TransformRefList {
            states: TransformStateRange {
                resource: state_resource,
                offset: 0,
                byte_length: HEAD_TRANSFORM_STATE_BYTES,
                state_count: HEAD_INSTANCE_COUNT,
                state_stride: TRANSFORM_VALUE_BYTES,
                generation,
            },
            references: PreparedRange {
                resource: ResourceId(HELMET_TRANSFORM_REFS),
                offset: 0,
                byte_length: HELMET_TRANSFORM_REFS_U32@.len() as u64,
                revision: 1,
            },
            reference_count: HEAD_INSTANCE_COUNT,
        }),
        refs.states.byte_length == refs.states.state_count * refs.states.state_stride,
        refs.references.byte_length == refs.reference_count * 4,
{
    assert(HEAD_INSTANCE_COUNT * TRANSFORM_VALUE_BYTES == HEAD_TRANSFORM_STATE_BYTES)
        by (nonlinear_arith);
    TransformRefList {
        states: TransformStateRange {
            resource: state_resource,
            offset: 0,
            byte_length: HEAD_TRANSFORM_STATE_BYTES,
            state_count: HEAD_INSTANCE_COUNT,
            state_stride: TRANSFORM_VALUE_BYTES,
            generation,
        },
        references: PreparedRange {
            resource: ResourceId(HELMET_TRANSFORM_REFS),
            offset: 0,
            byte_length: 16,
            revision: 1,
        },
        reference_count: HEAD_INSTANCE_COUNT,
    }
}

/// The reference image names every state of the table once, in order.
pub proof fn lemma_references_name_every_state()
    ensures
        HELMET_TRANSFORM_REFS_U32@ == words_bytes(
            Seq::new(HEAD_INSTANCE_COUNT as nat, |instance: int| instance as u32),
        ),
{
    let ids: Seq<u32> = Seq::new(HEAD_INSTANCE_COUNT as nat, |instance: int| instance as u32);
    lemma_words_bytes(ids);
    let image = words_bytes(ids);
    let refs = HELMET_TRANSFORM_REFS_U32@;
    assert forall|i: int| 0 <= i < 16 implies refs[i] == image[i] by {
        let k = i / 4;
        assert(image.subrange(4 * k, 4 * k + 4) == le_bytes(ids[k]));
        assert(image[i] == image.subrange(4 * k, 4 * k + 4)[i - 4 * k]);
        assert(refs[4 * k] == ids[k] && refs[4 * k + 1] == 0 && refs[4 * k + 2] == 0 && refs[4 * k
            + 3] == 0);
    }
    assert(refs =~= image);
}

/// A transform state, as bit patterns.
#[derive(Clone, Copy, Debug, PartialEq, Eq)]
pub struct TransformValue {
    pub translation: [u32; 3],
    pub translation_pad: u32,
    pub rotation: [u32; 4],
    pub scale: [u32; 3],
    pub scale_pad: u32,
}

/// The animation of one head, as bit patterns.
#[derive(Clone, Copy, Debug, PartialEq, Eq)]
pub struct HeadInstanceProgram {
    pub initial: TransformValue,
    /// Signed angular velocity about Z in radians per second; negative is
    /// clockwise.
    pub angular_velocity_z: u32,
    /// Half a scale cycle in seconds; zero does not pulse.
    pub scale_half_period_seconds: u32,
    pub reserved: [u32; 2],
}

/// The bit pattern of zero.
pub const ZERO: u32 = 0;

/// The bit pattern of one.
pub const ONE: u32 = 0x3f80_0000;

/// The bit pattern of a half.
pub const ONE_HALF: u32 = 0x3f00_0000;

/// The bit pattern of the heads' distance from the axes, 1.6.
pub const HEAD_PLANE_OFFSET: u32 = 0x3fcc_cccd;

/// The bit pattern of the negated distance.
pub const HEAD_PLANE_OFFSET_NEGATED: u32 = 0xbfcc_cccd;

/// The bit pattern of the heads' scale, 0.9.
pub const HELMET_SCALE: u32 = 0x3f66_6666;

/// The bit pattern of a quarter turn per second, pi over two.
pub const QUARTER_TURN: u32 = 0x3fc9_0fdb;

/// The bit pattern of a quarter turn per second the other way.
pub const QUARTER_TURN_NEGATED: u32 = 0xbfc9_0fdb;

/// The heads' places on the plane, as bit patterns.
pub const HEAD_WORLD_TRANSLATIONS: [[u32; 3]; 4] = [
    [HEAD_PLANE_OFFSET_NEGATED, HEAD_PLANE_OFFSET, ZERO],
    [HEAD_PLANE_OFFSET, HEAD_PLANE_OFFSET, ZERO],
    [HEAD_PLANE_OFFSET_NEGATED, HEAD_PLANE_OFFSET_NEGATED, ZERO],
    [HEAD_PLANE_OFFSET, HEAD_PLANE_OFFSET_NEGATED, ZERO],
];

/// An unrotated head at a place on the plane.
pub open spec fn head_at(x: u32, y: u32) -> TransformValue {
    TransformValue {
        translation: [x, y, ZERO],
        translation_pad: ZERO,
        rotation: [ZERO, ZERO, ZERO, ONE],
        scale: [HELMET_SCALE, HELMET_SCALE, HELMET_SCALE],
        scale_pad: ZERO,
    }
}

/// An unrotated head at a place on the plane.
pub fn placed_head(x: u32, y: u32) -> (head: TransformValue)
    ensures
        head == head_at(x, y),
{
    TransformValue {
        translation: [x, y, ZERO],
        translation_pad: ZERO,
        rotation: [ZERO, ZERO, ZERO, ONE],
        scale: [HELMET_SCALE, HELMET_SCALE, HELMET_SCALE],
        scale_pad: ZERO,
    }
}

/// A head's animation, from its place, its spin and its pulse.
pub open spec fn head_program(place: [u32; 3], spin: u32, pulse: u32) -> HeadInstanceProgram {
    HeadInstanceProgram {
        initial: head_at(place[0], place[1]),
        angular_velocity_z: spin,
        scale_half_period_seconds: pulse,
        reserved: [0, 0],
    }
}

/// The four heads' animations: clockwise, counter-clockwise, pulsing every
/// half second, and at rest.
pub fn head_instance_programs() -> (programs: [HeadInstanceProgram; 4])
    ensures
        programs@ == seq![
            head_program(HEAD_WORLD_TRANSLATIONS[0], QUARTER_TURN_NEGATED, ZERO),
            head_program(HEAD_WORLD_TRANSLATIONS[1], QUARTER_TURN, ZERO),
            head_program(HEAD_WORLD_TRANSLATIONS[2], ZERO, ONE_HALF),
            head_program(HEAD_WORLD_TRANSLATIONS[3], ZERO, ZERO),
        ],
        forall|i: int|
            0 <= i < 4 ==> (#[trigger] programs@[i]).initial.translation@
                == HEAD_WORLD_TRANSLATIONS[i]@,
{
    let places = HEAD_WORLD_TRANSLATIONS;
    let programs = [
        HeadInstanceProgram {
            initial: placed_head(places[0][0], places[0][1]),
            angular_velocity_z: QUARTER_TURN_NEGATED,
            scale_half_period_seconds: ZERO,
            reserved: [0, 0],
        },
        HeadInstanceProgram {
            initial: placed_head(places[1][0], places[1][1]),
            angular_velocity_z: QUARTER_TURN,
            scale_half_period_seconds: ZERO,
            reserved: [0, 0],
        },
        HeadInstanceProgram {
            initial: placed_head(places[2][0], places[2][1]),
            angular_velocity_z: ZERO,
            scale_half_period_seconds: ONE_HALF,
            reserved: [0, 0],
        },
        HeadInstanceProgram {
            initial: placed_head(places[3][0], places[3][1]),
            angular_velocity_z: ZERO,
            scale_half_period_seconds: ZERO,
            reserved: [0, 0],
        },
    ];
    assert forall|i: int| 0 <= i < 4 implies (#[trigger] programs@[i]).initial.translation@
        == HEAD_WORLD_TRANSLATIONS[i]@ by {
        assert(programs@[i].initial.translation@ =~= HEAD_WORLD_TRANSLATIONS[i]@);
    }
    programs
}

/// The number of ships.
pub const SHIP_INSTANCE_COUNT: usize = 3;

/// The bit pattern of the ships' scale, 0.65.
pub const SHIP_SCALE: u32 = 0x3f26_6666;

/// The bit pattern of the ships' bounding radius, 3.
pub const SHIP_RADIUS: u32 = 0x4040_0000;

/// The lane of each ship across the water: the four controls of a cubic Bézier
/// curve, as bit patterns.  The first and last controls join, so each ship
/// loops without a leap.
pub const SHIP_PATHS: [[[u32; 3]; 4]; 3] = [
    [
        [0xc1a0_0000, ZERO, 0xc140_0000],
        [0xc0e0_0000, ZERO, 0xc1d0_0000],
        [0x4150_0000, ZERO, 0xc1c0_0000],
        [0xc1a0_0000, ZERO, 0xc140_0000],
    ],
    [
        [0x41a8_0000, ZERO, 0xc120_0000],
        [0x41e8_0000, ZERO, 0x40a0_0000],
        [0x41a8_0000, ZERO, 0x41a0_0000],
        [0x41a8_0000, ZERO, 0xc120_0000],
    ],
    [
        [0x40e0_0000, ZERO, 0x41b8_0000],
        [0xc110_0000, ZERO, 0x41f0_0000],
        [0xc1c8_0000, ZERO, 0x4188_0000],
        [0x40e0_0000, ZERO, 0x41b8_0000],
    ],
];

/// Where a ship is and which way it heads, as bit patterns.
#[derive(Clone, Copy, Debug, PartialEq, Eq)]
pub struct ShipPose {
    pub translation: [u32; 3],
    pub rotation: [u32; 4],
}

/// One row of the retained scene's transform table, as bit patterns.
#[derive(Clone, Copy, Debug, PartialEq, Eq)]
pub struct RetainedTransformSeed {
    pub translation: [u32; 3],
    pub scale: [u32; 3],
    pub rotation: [u32; 4],
    pub local_radius: u32,
    pub previous_translation: [u32; 3],
    pub draw_group: u32,
    pub flags: u32,
}

/// The row of the ship in a slot: it stands still between rows, belongs to the
/// first draw group, and carries its slot in the upper half of the flags.
pub open spec fn ship_seed(slot: int, pose: ShipPose) -> RetainedTransformSeed {
    RetainedTransformSeed {
        translation: pose.translation,
        scale: [SHIP_SCALE, SHIP_SCALE, SHIP_SCALE],
        rotation: pose.rotation,
        local_radius: SHIP_RADIUS,
        previous_translation: pose.translation,
        draw_group: 0,
        flags: (slot * 65536) as u32,
    }
}

fn seed(slot: u32, pose: &ShipPose) -> (row: RetainedTransformSeed)
    requires
        slot < SHIP_INSTANCE_COUNT,
    ensures
        row == ship_seed(slot as int, *pose),
{
    RetainedTransformSeed {
        translation: pose.translation,
        scale: [SHIP_SCALE, SHIP_SCALE, SHIP_SCALE],
        rotation: pose.rotation,
        local_radius: SHIP_RADIUS,
        previous_translation: pose.translation,
        draw_group: 0,
        flags: slot * 65536,
    }
}

/// The rows of the fleet, from the ships' poses.
pub open spec fn fleet_rows(poses: [ShipPose; 3]) -> Seq<RetainedTransformSeed> {
    Seq::new(SHIP_INSTANCE_COUNT as nat, |slot: int| ship_seed(slot, poses@[slot]))
}

/// The rows of the fleet, from the ships' poses.
pub fn ship_seeds(poses: &[ShipPose; 3]) -> (seeds: [RetainedTransformSeed; 3])
    ensures
        seeds@ == fleet_rows(*poses),
{
    let seeds = [seed(0, &poses[0]), seed(1, &poses[1]), seed(2, &poses[2])];
    assert(seeds@ =~= fleet_rows(*poses));
    seeds
}

/// Every lane ends where it starts, and lies on the water.
pub proof fn lemma_lanes_are_closed(slot: int)
    requires
        0 <= slot < SHIP_INSTANCE_COUNT,
    ensures
        SHIP_PATHS[slot][3]@ == SHIP_PATHS[slot][0]@,
        forall|control: int|
            0 <= control < 4 ==> (#[trigger] SHIP_PATHS[slot][control])[1] == ZERO,
{
    assert(SHIP_PATHS[slot][3]@ =~= SHIP_PATHS[slot][0]@);
}

/// Each ship has a row of its own, in the order of the slots: it stands where
/// its pose says, then as before, and its slot is the upper half of its flags.
pub proof fn lemma_rows_follow_their_poses(poses: [ShipPose; 3], slot: int)
    requires
        0 <= slot < 3,
    ensures
        fleet_rows(poses).len() == 3,
        fleet_rows(poses)[slot].translation == poses@[slot].translation,
        fleet_rows(poses)[slot].previous_translation == poses@[slot].translation,
        fleet_rows(poses)[slot].rotation == poses@[slot].rotation,
        fleet_rows(poses)[slot].scale@ == seq![SHIP_SCALE, SHIP_SCALE, SHIP_SCALE],
        fleet_rows(poses)[slot].local_radius == SHIP_RADIUS,
        fleet_rows(poses)[slot].draw_group == 0,
        fleet_rows(poses)[slot].flags as int / 65536 == slot,
        fleet_rows(poses)[slot].flags % 65536 == 0,
{
}

/// Every head is placed where it is told, unrotated, and scaled alike along all
/// axes.
pub proof fn lemma_heads_stand_unrotated(x: u32, y: u32)
    ensures
        head_at(x, y).translation@ == seq![x, y, 0u32],
        head_at(x, y).rotation@ == seq![0u32, 0u32, 0u32, 0x3f80_0000u32],
        head_at(x, y).scale@ == seq![HELMET_SCALE, HELMET_SCALE, HELMET_SCALE],
        head_at(x, y).translation_pad == 0,
        head_at(x, y).scale_pad == 0,
{
}

/// A head is animated from its own place on the plane, with its own spin and
/// pulse.
pub proof fn lemma_heads_are_animated_from_their_places(place: [u32; 3], spin: u32, pulse: u32)
    ensures
        head_program(place, spin, pulse).initial.translation@ == seq![place[0], place[1], 0u32],
        head_program(place, spin, pulse).angular_velocity_z == spin,
        head_program(place, spin, pulse).scale_half_period_seconds == pulse,
        head_program(place, spin, pulse).reserved@ == seq![0u32, 0u32],
{
}

/// The heads' resources differ from each other, the table has a state of twelve
/// words for each head, and the four heads stand in the four corners of the
/// plane, as far from both axes.
pub proof fn lemma_heads_and_their_resources(head: int)
    requires
        0 <= head < HEAD_INSTANCE_COUNT,
    ensures
        HELMET_VERTICES == 0x1_0000_0000_0001,
        HELMET_INDICES == HELMET_VERTICES + 1,
        HELMET_TRANSFORM_REFS == HELMET_VERTICES + 2,
        HEAD_INSTANCE_COUNT == 4,
        TRANSFORM_VALUE_BYTES == 4 * 12,
        HEAD_TRANSFORM_STATE_BYTES == 4 * TRANSFORM_VALUE_BYTES,
        HEAD_PLANE_OFFSET_NEGATED == HEAD_PLANE_OFFSET + 0x8000_0000,
        QUARTER_TURN_NEGATED == QUARTER_TURN + 0x8000_0000,
        HEAD_WORLD_TRANSLATIONS[head][0] == (if head % 2 == 0 {
            HEAD_PLANE_OFFSET_NEGATED
        } else {
            HEAD_PLANE_OFFSET
        }),
        HEAD_WORLD_TRANSLATIONS[head][1] == (if head < 2 {
            HEAD_PLANE_OFFSET
        } else {
            HEAD_PLANE_OFFSET_NEGATED
        }),
        HEAD_WORLD_TRANSLATIONS[head][2] == 0,
{
}

/// The fleet has three ships, each scaled by 0.65 within a radius of 3; the
/// heads are scaled by 0.9 and stand 1.6 from the axes.
pub proof fn lemma_sizes_of_ships_and_heads()
    ensures
        SHIP_INSTANCE_COUNT == 3,
        SHIP_SCALE == 0x3f26_6666,
        SHIP_RADIUS == 0x4040_0000,
        HELMET_SCALE == 0x3f66_6666,
        HEAD_PLANE_OFFSET == 0x3fcc_cccd,
        QUARTER_TURN == 0x3fc9_0fdb,
        ZERO == 0,
        ONE == 0x3f80_0000,
        ONE_HALF == 0x3f00_0000,
{
}

} // verus!
