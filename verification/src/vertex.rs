//! Vertex-level data shared by geometry and level resources.

use vstd::prelude::*;
use crate::fixed::FixedVec3;

verus! {

/// A texture coordinate pair in fixed-point units.
#[derive(Clone, Copy, PartialEq, Eq, Structural, Debug)]
pub struct TextureCoords {
    pub u: i32,
    pub v: i32,
}

/// One model vertex: position and tangent frame in fixed-point world units,
/// plus its texture coordinates.
#[derive(Clone, Copy, PartialEq, Eq, Structural, Debug)]
pub struct ModelVertex {
    pub position: FixedVec3,
    pub normal: FixedVec3,
    pub binormal: FixedVec3,
    pub tangent: FixedVec3,
    pub texture_coords: TextureCoords,
}

/// Lightmap texture coordinates of one vertex.
#[derive(Clone, Copy, PartialEq, Eq, Structural, Debug)]
pub struct LightmapVertex {
    pub lightmap_texture_coords: TextureCoords,
}

/// One triangle, as indices into a vertex list.
#[derive(Clone, Copy, Debug)]
pub struct ModelTriangle {
    pub indices: [u16; 3],
}

/// Where a geometry instance's data lies within the shared per-level vertex
/// and index buffers.
#[derive(Clone, Copy, PartialEq, Eq, Structural, Debug)]
pub struct VertexOffsets {
    /// Number of indices the instance draws.
    pub index_count: u32,
    /// Offset added to every index when drawing.
    pub vertex_offset: i32,
    /// First index within the shared index buffer.
    pub index_offset: u32,
}

} // verus!
