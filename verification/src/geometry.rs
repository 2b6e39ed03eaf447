//! Model geometry resources.

use vstd::prelude::*;
use crate::error::{Error, MResult};
use crate::fixed::FixedVec3;
use crate::keymap::{KeyMap, spec_contains_key};
use crate::shader::Shader;
use crate::vertex::{ModelVertex, TextureCoords, VertexOffsets};

verus! {

/// One value per level of detail, ordered from lowest to highest.
#[derive(Clone, Copy, Debug)]
pub struct GeometryDetailData<T> {
    pub super_low: T,
    pub low: T,
    pub medium: T,
    pub high: T,
    pub super_high: T,
}

impl<T> GeometryDetailData<T> {
    /// References to the five values, sorted from lowest to highest detail.
    pub fn as_arr(&self) -> (r: [&T; 5])
        ensures
            r@.len() == 5,
            *r@[0] == self.super_low,
            *r@[1] == self.low,
            *r@[2] == self.medium,
            *r@[3] == self.high,
            *r@[4] == self.super_high,
    {
        [&self.super_low, &self.low, &self.medium, &self.high, &self.super_high]
    }

    /// Mutable references to the five values, sorted from lowest to
    /// highest detail.
    pub fn as_arr_mut(&mut self) -> (r: [&mut T; 5]) {
        [
            &mut self.super_low,
            &mut self.low,
            &mut self.medium,
            &mut self.high,
            &mut self.super_high,
        ]
    }
}

/// A rotation as a fixed-point quaternion.
#[derive(Clone, Copy, PartialEq, Eq, Structural, Debug)]
pub struct FixedQuat {
    pub x: i32,
    pub y: i32,
    pub z: i32,
    pub w: i32,
}

/// One node of a model's skeleton.
pub struct GeometryNode {
    pub name: String,
    pub children: Vec<GeometryNode>,
    pub default_translation: FixedVec3,
    pub default_rotation: FixedQuat,
    pub node_distance_from_parent: u32,
}

/// A vertex of a model part together with its node binding.
pub struct Vertex {
    pub vertex_data: ModelVertex,
    pub node0: String,
    pub node1: Option<String>,
    /// Weight of `node0` as a fixed-point fraction.
    pub node0_weight: u32,
}

/// One drawable part of a model: a shader reference plus its slice of the
/// shared buffers.
pub struct GeometryPart {
    pub shader: String,
    pub offsets: VertexOffsets,
    /// Center used when the part participates in depth sorting.
    pub centroid: FixedVec3,
    pub previous_filthy_part_index: Option<usize>,
    pub next_filthy_part_index: Option<usize>,
}

/// One level-of-detail mesh of a model.
pub struct GeometryGeometry {
    pub parts: Vec<GeometryPart>,
}

/// A named region of a model with one mesh per level of detail.
pub struct GeometryRegion {
    pub name: String,
    pub cannot_be_chosen_randomly: bool,
    pub geometry_indices: GeometryDetailData<usize>,
}

/// Parameters for one named region of a model to add.
pub struct AddGeometryParameterRegion {
    pub name: String,
    pub cannot_be_chosen_randomly: bool,
    pub geometry_indices: GeometryDetailData<usize>,
}

/// A loaded model resource.
pub struct Geometry {
    pub nodes: Vec<GeometryNode>,
    pub geometries: Vec<GeometryGeometry>,
    /// Detail cutoff distances as fixed-point world units.
    pub cutoff: GeometryDetailData<u32>,
    pub base_uv: TextureCoords,
}

/// The vertex offset of part `k`: the saturating sum of the vertex counts
/// of the parts before it.
pub open spec fn spec_part_vertex_offset(parts: Seq<AddGeometryParameterPart>, k: int) -> int
    decreases k,
{
    if k <= 0 {
        0
    } else {
        let prev = spec_part_vertex_offset(parts, k - 1);
        let grown = parts[k - 1].vertices@.len();
        if grown <= i32::MAX - prev {
            prev + grown
        } else {
            i32::MAX as int
        }
    }
}

/// The index offset of part `k`: the saturating sum of the index counts of
/// the parts before it.
pub open spec fn spec_part_index_offset(parts: Seq<AddGeometryParameterPart>, k: int) -> int
    decreases k,
{
    if k <= 0 {
        0
    } else {
        let prev = spec_part_index_offset(parts, k - 1);
        let grown = parts[k - 1].indices@.len();
        if grown <= u32::MAX - prev {
            prev + grown
        } else {
            u32::MAX as int
        }
    }
}

/// The stored form of one model part, given its buffer offsets.
pub open spec fn spec_geometry_part(
    part: AddGeometryParameterPart,
    voff: int,
    ioff: int,
) -> GeometryPart {
    GeometryPart {
        shader: part.shader,
        offsets: VertexOffsets {
            index_count: if part.indices@.len() <= u32::MAX {
                part.indices@.len() as u32
            } else {
                u32::MAX as u32
            },
            vertex_offset: voff as i32,
            index_offset: ioff as u32,
        },
        centroid: part.centroid,
        previous_filthy_part_index: part.previous_filthy_part_index,
        next_filthy_part_index: part.next_filthy_part_index,
    }
}

impl Geometry {
    /// Build a model resource from validated parameters: each part keeps
    /// its shader reference, centroid and chaining indices, and receives
    /// its slice of the model's shared buffers in part order, the offsets
    /// saturating at the index types' limits.
    pub fn load_from_parameters(parameter: AddGeometryParameter) -> (r: Geometry)
        ensures
            r.nodes == parameter.nodes,
            r.cutoff == parameter.cutoff,
            r.base_uv == parameter.base_uv,
            r.geometries@.len() == parameter.geometries@.len(),
            forall|g: int|
                0 <= g < r.geometries@.len() ==> (#[trigger] r.geometries@[g]).parts@.len()
                    == parameter.geometries@[g].parts@.len(),
            forall|g: int, p: int|
                0 <= g < r.geometries@.len() && 0 <= p < r.geometries@[g].parts@.len()
                    ==> (#[trigger] r.geometries@[g].parts@[p]) == spec_geometry_part(
                    parameter.geometries@[g].parts@[p],
                    spec_part_vertex_offset(parameter.geometries@[g].parts@, p),
                    spec_part_index_offset(parameter.geometries@[g].parts@, p),
                ),
    {
        let cutoff = parameter.cutoff;
        let base_uv = parameter.base_uv;
        let nodes = parameter.nodes;
        let mut geometries: Vec<GeometryGeometry> = Vec::new();
        let gn = parameter.geometries.len();
        let ghost orig = parameter.geometries@;
        let mut source = parameter.geometries;
        let mut g: usize = 0;
        proof {
            assert(source@ =~= orig.subrange(0, gn as int));
        }
        while g < gn
            invariant
                gn == orig.len(),
                g <= gn,
                source@ == orig.subrange(g as int, gn as int),
                geometries@.len() == g,
                forall|j: int|
                    0 <= j < g ==> (#[trigger] geometries@[j]).parts@.len()
                        == orig[j].parts@.len(),
                forall|j: int, p: int|
                    0 <= j < g && 0 <= p < geometries@[j].parts@.len()
                        ==> (#[trigger] geometries@[j].parts@[p]) == spec_geometry_part(
                            orig[j].parts@[p],
                            spec_part_vertex_offset(orig[j].parts@, p),
                            spec_part_index_offset(orig[j].parts@, p),
                        ),
            decreases gn - g,
        {
            proof {
                assert(source@[0] == orig[g as int]);
            }
            let mesh = source.remove(0);
            let mut parts: Vec<GeometryPart> = Vec::new();
            let pn = mesh.parts.len();
            let ghost mesh_parts = mesh.parts@;
            let mut psource = mesh.parts;
            let mut p: usize = 0;
            let mut vertex_offset: i32 = 0;
            let mut index_offset: u32 = 0;
            proof {
                assert(psource@ =~= mesh_parts.subrange(0, pn as int));
            }
            while p < pn
                invariant
                    pn == mesh_parts.len(),
                    p <= pn,
                    psource@ == mesh_parts.subrange(p as int, pn as int),
                    parts@.len() == p,
                    vertex_offset == spec_part_vertex_offset(mesh_parts, p as int),
                    index_offset == spec_part_index_offset(mesh_parts, p as int),
                    0 <= vertex_offset,
                    forall|j: int|
                        0 <= j < p ==> (#[trigger] parts@[j]) == spec_geometry_part(
                            mesh_parts[j],
                            spec_part_vertex_offset(mesh_parts, j),
                            spec_part_index_offset(mesh_parts, j),
                        ),
                decreases pn - p,
            {
                proof {
                    assert(psource@[0] == mesh_parts[p as int]);
                }
                let part = psource.remove(0);
                let vcount = part.vertices.len();
                let icount = part.indices.len();
                parts.push(
                    GeometryPart {
                        shader: part.shader,
                        offsets: VertexOffsets {
                            index_count: if icount as u64 <= u32::MAX as u64 {
                                icount as u32
                            } else {
                                u32::MAX
                            },
                            vertex_offset,
                            index_offset,
                        },
                        centroid: part.centroid,
                        previous_filthy_part_index: part.previous_filthy_part_index,
                        next_filthy_part_index: part.next_filthy_part_index,
                    },
                );
                vertex_offset = if vcount as u64 <= (i32::MAX as u64 - vertex_offset as u64) {
                    vertex_offset + vcount as i32
                } else {
                    i32::MAX
                };
                index_offset = if icount as u64 <= (u32::MAX as u64 - index_offset as u64) {
                    index_offset + icount as u32
                } else {
                    u32::MAX
                };
                proof {
                    assert(psource@ =~= mesh_parts.subrange(p as int + 1, pn as int));
                }
                p = p + 1;
            }
            geometries.push(GeometryGeometry { parts });
            proof {
                assert(source@ =~= orig.subrange(g as int + 1, gn as int));
            }
            g = g + 1;
        }
        Geometry { nodes, geometries, cutoff, base_uv }
    }
}

/// Parameters for one part of a model to add.
pub struct AddGeometryParameterPart {
    pub shader: String,
    pub vertices: Vec<Vertex>,
    pub indices: Vec<u16>,
    pub centroid: FixedVec3,
    pub previous_filthy_part_index: Option<usize>,
    pub next_filthy_part_index: Option<usize>,
}

/// Parameters for one level-of-detail mesh of a model to add.
pub struct AddGeometryParameterGeometry {
    pub parts: Vec<AddGeometryParameterPart>,
}

/// Parameters for adding a model resource.
pub struct AddGeometryParameter {
    pub nodes: Vec<GeometryNode>,
    pub geometries: Vec<AddGeometryParameterGeometry>,
    pub cutoff: GeometryDetailData<u32>,
    pub base_uv: TextureCoords,
}

impl AddGeometryParameter {
    /// Every part references a shader that is loaded.
    pub open spec fn valid(&self, shaders: Seq<(Seq<char>, Shader)>) -> bool {
        forall|g: int, p: int|
            0 <= g < self.geometries@.len()
                && 0 <= p < self.geometries@[g].parts@.len()
                ==> spec_contains_key(shaders, (#[trigger] self.geometries@[g].parts@[p]).shader@)
    }

    /// Check that every referenced shader is loaded.
    pub fn validate(&self, shaders: &KeyMap<Shader>) -> (r: MResult<()>)
        ensures
            r is Ok <==> self.valid(shaders@),
    {
        let gn = self.geometries.len();
        let mut g: usize = 0;
        while g < gn
            invariant
                gn == self.geometries@.len(),
                g <= gn,
                forall|gi: int, p: int|
                    0 <= gi < g && 0 <= p < self.geometries@[gi].parts@.len()
                        ==> spec_contains_key(
                            shaders@,
                            (#[trigger] self.geometries@[gi].parts@[p]).shader@,
                        ),
            decreases gn - g,
        {
            let pn = self.geometries[g].parts.len();
            let mut p: usize = 0;
            while p < pn
                invariant
                    gn == self.geometries@.len(),
                    g < gn,
                    pn == self.geometries@[g as int].parts@.len(),
                    p <= pn,
                    forall|pi: int|
                        0 <= pi < p ==> spec_contains_key(
                            shaders@,
                            (#[trigger] self.geometries@[g as int].parts@[pi]).shader@,
                        ),
                decreases pn - p,
            {
                if !shaders.contains_key(&self.geometries[g].parts[p].shader) {
                    return Err(Error::Validation);
                }
                p = p + 1;
            }
            g = g + 1;
        }
        Ok(())
    }
}

} // verus!
