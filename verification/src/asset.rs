//! Assets as the scene consumes them.
use crate::material::RetainedMaterialParameters;
use vstd::prelude::*;

verus! {

/// A source file that the scene embeds and publishes unchanged.
pub struct DemoAsset {
    pub name: &'static str,
    pub bytes: &'static [u8],
}

/// How consecutive indices form primitives.
#[derive(Clone, Copy, Debug, PartialEq, Eq, Structural)]
pub enum PrimitiveTopology {
    PointList,
    LineList,
    LineLoop,
    LineStrip,
    TriangleList,
    TriangleStrip,
    TriangleFan,
}

/// The device's numeric codes for the topologies.
#[derive(Clone, Copy, Debug, PartialEq, Eq, Structural)]
pub struct TopologyCodes {
    pub point_list: u32,
    pub line_list: u32,
    pub line_loop: u32,
    pub line_strip: u32,
    pub triangle_list: u32,
    pub triangle_strip: u32,
    pub triangle_fan: u32,
}

impl TopologyCodes {
    /// The code that the device gives to a topology.
    pub open spec fn code(self, topology: PrimitiveTopology) -> u32 {
        match topology {
            PrimitiveTopology::PointList => self.point_list,
            PrimitiveTopology::LineList => self.line_list,
            PrimitiveTopology::LineLoop => self.line_loop,
            PrimitiveTopology::LineStrip => self.line_strip,
            PrimitiveTopology::TriangleList => self.triangle_list,
            PrimitiveTopology::TriangleStrip => self.triangle_strip,
            PrimitiveTopology::TriangleFan => self.triangle_fan,
        }
    }
}

/// The device code of a topology.
pub fn vgpu_topology(topology: PrimitiveTopology, codes: &TopologyCodes) -> (code: u32)
    ensures
        code == codes.code(topology),
{
    match topology {
        PrimitiveTopology::PointList => codes.point_list,
        PrimitiveTopology::LineList => codes.line_list,
        PrimitiveTopology::LineLoop => codes.line_loop,
        PrimitiveTopology::LineStrip => codes.line_strip,
        PrimitiveTopology::TriangleList => codes.triangle_list,
        PrimitiveTopology::TriangleStrip => codes.triangle_strip,
        PrimitiveTopology::TriangleFan => codes.triangle_fan,
    }
}

/// An encoded image and the name under which it is decoded.
#[derive(Clone, Copy)]
pub struct PreparedTexture {
    pub name: &'static str,
    pub bytes: &'static [u8],
}

impl PreparedTexture {
    /// The texture of a role that a material leaves empty.
    pub fn none() -> (texture: PreparedTexture)
        ensures
            texture.name@.len() == 0,
            texture.bytes@.len() == 0,
    {
        proof {
            reveal_strlit("");
        }
        PreparedTexture { name: "", bytes: &[] }
    }
}

/// Every image and scalar that one material needs.  Images stay encoded until
/// the scene admits them to the device.
#[derive(Clone, Copy)]
pub struct PreparedMaterial {
    pub base_color: PreparedTexture,
    pub metallic_roughness: PreparedTexture,
    pub emissive: PreparedTexture,
    pub occlusion: PreparedTexture,
    pub normal: PreparedTexture,
    pub parameters: RetainedMaterialParameters,
}

impl PreparedMaterial {
    /// The five textures, in the order of [`crate::material::MaterialRole`].
    pub open spec fn textures(self) -> Seq<PreparedTexture> {
        seq![
            self.base_color,
            self.metallic_roughness,
            self.emissive,
            self.occlusion,
            self.normal,
        ]
    }

    /// The bytes of the five textures, in the same order.
    pub open spec fn maps(self) -> Seq<Seq<u8>> {
        seq![
            self.base_color.bytes@,
            self.metallic_roughness.bytes@,
            self.emissive.bytes@,
            self.occlusion.bytes@,
            self.normal.bytes@,
        ]
    }
}

/// One primitive's ranges in a prepared asset.
#[derive(Clone, Copy, Debug, PartialEq, Eq, Structural)]
pub struct PreparedPrimitive {
    pub topology: PrimitiveTopology,
    pub first_vertex: u32,
    pub vertex_count: u32,
    pub first_index: u32,
    pub index_count: u32,
    /// Whether the source material is visible from behind.
    pub double_sided: bool,
}

/// A mesh and its material, ready to be published and uploaded.
pub struct PreparedAsset {
    pub name: &'static str,
    pub vertices: &'static [u8],
    pub indices: &'static [u8],
    pub vertex_count: u32,
    pub index_count: u32,
    pub vertex_stride: usize,
    pub material: PreparedMaterial,
    pub sampled_material: bool,
    pub helmet_program: bool,
    /// Every source primitive; its topology is kept as authored.
    pub primitives: &'static [PreparedPrimitive],
    /// The one topology of the retained mesh, where the primitives agree.
    pub retained_topology: Option<PrimitiveTopology>,
    /// Whether any source primitive is double sided.
    pub retained_double_sided: bool,
}

/// Each topology has the device's own code for it.
pub proof fn lemma_topologies_have_their_codes(codes: TopologyCodes)
    ensures
        codes.code(PrimitiveTopology::PointList) == codes.point_list,
        codes.code(PrimitiveTopology::LineList) == codes.line_list,
        codes.code(PrimitiveTopology::LineLoop) == codes.line_loop,
        codes.code(PrimitiveTopology::LineStrip) == codes.line_strip,
        codes.code(PrimitiveTopology::TriangleList) == codes.triangle_list,
        codes.code(PrimitiveTopology::TriangleStrip) == codes.triangle_strip,
        codes.code(PrimitiveTopology::TriangleFan) == codes.triangle_fan,
{
}

} // verus!
