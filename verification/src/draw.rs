//! The per-viewport draw-submission protocol.
//!
//! Walking a level's opaque and transparent draw-order lists produces a
//! sequence of backend commands.  Consecutive draws that share a shader
//! reuse its bound state; transparent instances are re-sorted farthest
//! first around the camera each frame; a shader of the unsupported water
//! family is skipped outright rather than drawn incorrectly.

use vstd::prelude::*;
use vstd::relations::sorted_by;
use vstd::string::StrSliceExecFns;
use crate::bsp::{BSP, BSPGeometry};
use crate::color::ColorRgba;
use crate::fixed::{FixedVec3, spec_distance_squared, distance_squared};
use crate::keymap::KeyMap;
use crate::order::{sort_pairs_desc, spec_desc_leq};
use crate::pipeline::{VulkanPipelineType, spec_has_lightmaps};
use crate::shader::{Shader, Material, spec_main_pipeline};
use crate::vertex::VertexOffsets;

verus! {

/// One backend command of the submission stream.
#[derive(Clone, Copy, PartialEq, Eq, Debug)]
pub enum DrawCommand {
    /// Bind the viewport's global uniform state once: the fog record every
    /// fogged draw of the viewport reads.
    BindViewportUniforms { fog: crate::sky::FogData },
    /// Bind the pipeline and descriptor state of the given shader.
    BindMaterial { shader_index: usize, pipeline: VulkanPipelineType },
    /// Bind the lightmap page for the next draw; `None` binds the null
    /// lightmap.
    BindLightmap { lightmap_index: Option<usize> },
    /// Draw one geometry instance from the shared buffers.
    DrawIndexed { index_count: u32, index_offset: u32, vertex_offset: i32 },
    /// Fill a screen-space box with a solid color (sky background and
    /// split-screen bars).
    ColorBox { x: u32, y: u32, width: u32, height: u32, color: ColorRgba },
}

impl VertexOffsets {
    /// The indexed-draw command that draws this buffer slice.
    pub fn make_vulkan_draw_command(&self) -> (r: DrawCommand)
        ensures
            r == (DrawCommand::DrawIndexed {
                index_count: self.index_count,
                index_offset: self.index_offset,
                vertex_offset: self.vertex_offset,
            }),
    {
        DrawCommand::DrawIndexed {
            index_count: self.index_count,
            index_offset: self.index_offset,
            vertex_offset: self.vertex_offset,
        }
    }
}

/// Whether a material's bound descriptor state may be kept by the next
/// draw that uses the same shader.
pub open spec fn spec_can_reuse(m: Material) -> bool {
    match m {
        Material::Basic(_) => true,
        Material::Environment(_) => true,
        Material::TransparentChicago(_) => true,
    }
}

/// The rebind rule: state is rebound when there is no previous shader, the
/// shader changed, or the previous shader does not support binding reuse.
pub open spec fn spec_rebind(
    last: Option<usize>,
    cur: usize,
    shaders: Seq<(Seq<char>, Shader)>,
) -> bool {
    match last {
        Option::None => true,
        Option::Some(p) => !(p == cur && spec_can_reuse(shaders[p as int].1.material)),
    }
}

/// Whether a shader key names the unsupported water family.
pub open spec fn spec_is_water(key: Seq<char>) -> bool {
    let l = key.len() as int;
    l >= 5 && key[l - 5] == 'w' && key[l - 4] == 'a' && key[l - 3] == 't' && key[l - 2] == 'e'
        && key[l - 1] == 'r'
}

/// Check whether a shader key names the unsupported water family.
pub fn key_is_water(key: &String) -> (r: bool)
    ensures
        r == spec_is_water(key@),
{
    let s = key.as_str();
    let l = s.unicode_len();
    if l < 5 {
        return false;
    }
    s.get_char(l - 5) == 'w' && s.get_char(l - 4) == 'a' && s.get_char(l - 3) == 't'
        && s.get_char(l - 2) == 'e' && s.get_char(l - 1) == 'r'
}

/// The commands drawing one instance: a material rebind when required, the
/// instance's lightmap binding when its pipeline takes one, and the
/// indexed draw.
pub open spec fn spec_geom_commands(
    geoms: Seq<BSPGeometry>,
    shaders: Seq<(Seq<char>, Shader)>,
    g: int,
    rebind: bool,
    lightmaps: bool,
) -> Seq<DrawCommand> {
    let geom = geoms[g];
    let pipeline = spec_main_pipeline(shaders[geom.shader_index as int].1.material);
    (if rebind {
        seq![DrawCommand::BindMaterial { shader_index: geom.shader_index, pipeline }]
    } else {
        Seq::empty()
    }) + (if spec_has_lightmaps(pipeline) {
        seq![
            DrawCommand::BindLightmap {
                lightmap_index: if lightmaps {
                    geom.lightmap_index
                } else {
                    Option::<usize>::None
                },
            },
        ]
    } else {
        Seq::empty()
    }) + seq![
        DrawCommand::DrawIndexed {
            index_count: geom.offset.index_count,
            index_offset: geom.offset.index_offset,
            vertex_offset: geom.offset.vertex_offset,
        },
    ]
}

/// The command stream of walking `order`, threading the last bound shader.
pub open spec fn spec_walk_commands(
    geoms: Seq<BSPGeometry>,
    shaders: Seq<(Seq<char>, Shader)>,
    order: Seq<usize>,
    last: Option<usize>,
    lightmaps: bool,
    skip_water: bool,
) -> Seq<DrawCommand>
    decreases order.len(),
{
    if order.len() == 0 {
        Seq::empty()
    } else {
        let g = order.first() as int;
        if skip_water && spec_is_water(shaders[geoms[g].shader_index as int].0) {
            spec_walk_commands(geoms, shaders, order.drop_first(), last, lightmaps, skip_water)
        } else {
            let rebind = spec_rebind(last, geoms[g].shader_index, shaders);
            spec_geom_commands(geoms, shaders, g, rebind, lightmaps) + spec_walk_commands(
                geoms,
                shaders,
                order.drop_first(),
                Option::Some(geoms[g].shader_index),
                lightmaps,
                skip_water,
            )
        }
    }
}

/// The last bound shader after walking `order`.
pub open spec fn spec_walk_last(
    geoms: Seq<BSPGeometry>,
    shaders: Seq<(Seq<char>, Shader)>,
    order: Seq<usize>,
    last: Option<usize>,
    skip_water: bool,
) -> Option<usize>
    decreases order.len(),
{
    if order.len() == 0 {
        last
    } else {
        let g = order.first() as int;
        if skip_water && spec_is_water(shaders[geoms[g].shader_index as int].0) {
            spec_walk_last(geoms, shaders, order.drop_first(), last, skip_water)
        } else {
            spec_walk_last(
                geoms,
                shaders,
                order.drop_first(),
                Option::Some(geoms[g].shader_index),
                skip_water,
            )
        }
    }
}

/// Walk one draw-order list, appending its commands to `out` and returning
/// the shader left bound.
pub fn walk_draw_list(
    geometries: &Vec<BSPGeometry>,
    shaders: &KeyMap<Shader>,
    order: &Vec<usize>,
    last: Option<usize>,
    lightmaps: bool,
    skip_water: bool,
    out: &mut Vec<DrawCommand>,
) -> (r: Option<usize>)
    requires
        forall|i: int| 0 <= i < order@.len() ==> (#[trigger] order@[i]) < geometries@.len(),
        forall|i: int|
            0 <= i < geometries@.len() ==> (#[trigger] geometries@[i]).shader_index
                < shaders@.len(),
    ensures
        final(out)@ == old(out)@ + spec_walk_commands(
            geometries@,
            shaders@,
            order@,
            last,
            lightmaps,
            skip_water,
        ),
        r == spec_walk_last(geometries@, shaders@, order@, last, skip_water),
{
    let ghost base = out@;
    let n = order.len();
    let mut i: usize = 0;
    let mut cur_last: Option<usize> = last;
    proof {
        assert(out@.subrange(base.len() as int, out@.len() as int) =~= Seq::<
            DrawCommand,
        >::empty());
        assert(order@.subrange(0, n as int) =~= order@);
        assert(out@.subrange(0, base.len() as int) =~= base);
    }
    while i < n
        invariant
            n == order@.len(),
            i <= n,
            forall|j: int| 0 <= j < order@.len() ==> (#[trigger] order@[j]) < geometries@.len(),
            forall|j: int|
                0 <= j < geometries@.len() ==> (#[trigger] geometries@[j]).shader_index
                    < shaders@.len(),
            spec_walk_commands(geometries@, shaders@, order@, last, lightmaps, skip_water)
                == out@.subrange(base.len() as int, out@.len() as int) + spec_walk_commands(
                geometries@,
                shaders@,
                order@.subrange(i as int, n as int),
                cur_last,
                lightmaps,
                skip_water,
            ),
            out@.len() >= base.len(),
            out@.subrange(0, base.len() as int) == base,
            spec_walk_last(geometries@, shaders@, order@, last, skip_water) == spec_walk_last(
                geometries@,
                shaders@,
                order@.subrange(i as int, n as int),
                cur_last,
                skip_water,
            ),
        decreases n - i,
    {
        let g = order[i];
        let geom = geometries[g];
        let shader_key = shaders.key_at(geom.shader_index);
        let ghost suffix = order@.subrange(i as int, n as int);
        proof {
            assert(suffix.first() == order@[i as int]);
            assert(suffix.drop_first() =~= order@.subrange(i as int + 1, n as int));
        }
        if skip_water && key_is_water(shader_key) {
            proof {
                assert(shader_key@ == shaders@[geom.shader_index as int].0);
                assert(spec_walk_commands(
                    geometries@,
                    shaders@,
                    suffix,
                    cur_last,
                    lightmaps,
                    skip_water,
                ) == spec_walk_commands(
                    geometries@,
                    shaders@,
                    suffix.drop_first(),
                    cur_last,
                    lightmaps,
                    skip_water,
                ));
                assert(spec_walk_last(geometries@, shaders@, suffix, cur_last, skip_water)
                    == spec_walk_last(
                    geometries@,
                    shaders@,
                    suffix.drop_first(),
                    cur_last,
                    skip_water,
                ));
            }
            i = i + 1;
            continue;
        }
        let shader = shaders.value_at(geom.shader_index);
        let rebind = match cur_last {
            Option::Some(p) => {
                if p == geom.shader_index {
                    let prev = shaders.value_at(p);
                    !prev.material.can_reuse_descriptors()
                } else {
                    true
                }
            },
            Option::None => true,
        };
        let pipeline = shader.material.get_main_pipeline();
        let ghost before_geom = out@;
        if rebind {
            out.push(DrawCommand::BindMaterial { shader_index: geom.shader_index, pipeline });
        }
        if pipeline.has_lightmaps() {
            let lightmap_index = if lightmaps {
                geom.lightmap_index
            } else {
                None
            };
            out.push(DrawCommand::BindLightmap { lightmap_index });
        }
        out.push(
            DrawCommand::DrawIndexed {
                index_count: geom.offset.index_count,
                index_offset: geom.offset.index_offset,
                vertex_offset: geom.offset.vertex_offset,
            },
        );
        proof {
            assert(out@ =~= before_geom + spec_geom_commands(
                geometries@,
                shaders@,
                g as int,
                rebind,
                lightmaps,
            ));
            assert(out@.subrange(base.len() as int, out@.len() as int) =~= before_geom.subrange(
                base.len() as int,
                before_geom.len() as int,
            ) + spec_geom_commands(geometries@, shaders@, g as int, rebind, lightmaps));
            assert(out@.subrange(0, base.len() as int) =~= before_geom.subrange(
                0,
                base.len() as int,
            ));
            assert(rebind == spec_rebind(cur_last, geom.shader_index, shaders@));
            assert(spec_walk_commands(
                geometries@,
                shaders@,
                suffix,
                cur_last,
                lightmaps,
                skip_water,
            ) == spec_geom_commands(geometries@, shaders@, g as int, rebind, lightmaps)
                + spec_walk_commands(
                geometries@,
                shaders@,
                suffix.drop_first(),
                Option::Some(geom.shader_index),
                lightmaps,
                skip_water,
            ));
        }
        cur_last = Some(geom.shader_index);
        i = i + 1;
    }
    proof {
        assert(order@.subrange(n as int, n as int) =~= Seq::<usize>::empty());
        assert(out@.subrange(base.len() as int, out@.len() as int) + Seq::<DrawCommand>::empty()
            =~= out@.subrange(base.len() as int, out@.len() as int));
        assert(out@ =~= base + out@.subrange(base.len() as int, out@.len() as int));
    }
    cur_last
}

/// The squared camera distance of instance `g`.
pub open spec fn spec_geom_distance_sq(
    geoms: Seq<BSPGeometry>,
    g: usize,
    camera_position: FixedVec3,
) -> int {
    spec_distance_squared(camera_position, geoms[g as int].centroid)
}

/// What re-sorting the transparent list must produce: a sequence holding
/// exactly the transparent instances, in an order whose camera distances
/// never increase, stable among equal distances.
pub open spec fn spec_transparent_order_ok(
    geoms: Seq<BSPGeometry>,
    tp: Seq<usize>,
    camera_position: FixedVec3,
    r: Seq<usize>,
) -> bool {
    &&& r.len() == tp.len()
    &&& forall|i: int| 0 <= i < r.len() ==> tp.contains(#[trigger] r[i])
    &&& forall|g: usize| tp.contains(g) ==> r.contains(g)
    &&& forall|i: int, j: int|
        0 <= i < j < r.len() ==> spec_geom_distance_sq(geoms, r[i], camera_position)
            >= spec_geom_distance_sq(geoms, r[j], camera_position)
    &&& forall|i: int, j: int|
        0 <= i < j < r.len() && spec_geom_distance_sq(geoms, r[i], camera_position)
            == spec_geom_distance_sq(geoms, r[j], camera_position) ==> exists|a: int, b: int|
            0 <= a < b < tp.len() && tp[a] == r[i] && tp[b] == r[j]
}

/// Re-sort a level's transparent instances by descending camera distance.
///
/// The result holds exactly the instances of the transparent draw-order
/// list; distances never increase along it; and the sort is stable: among
/// instances at the same distance the transparent list's order is kept.
pub fn sort_transparent(bsp: &BSP, camera_position: FixedVec3) -> (r: Vec<usize>)
    requires
        forall|i: int|
            0 <= i < bsp.transparent_geometries@.len()
                ==> (#[trigger] bsp.transparent_geometries@[i]) < bsp.geometries@.len(),
    ensures
        spec_transparent_order_ok(
            bsp.geometries@,
            bsp.transparent_geometries@,
            camera_position,
            r@,
        ),
{
    let tp = &bsp.transparent_geometries;
    let n = tp.len();
    let mut pairs: Vec<(u128, usize)> = Vec::new();
    let mut i: usize = 0;
    while i < n
        invariant
            n == tp@.len(),
            i <= n,
            forall|j: int| 0 <= j < tp@.len() ==> (#[trigger] tp@[j]) < bsp.geometries@.len(),
            pairs@.len() == i,
            forall|j: int|
                0 <= j < i ==> #[trigger] pairs@[j] == (
                    spec_geom_distance_sq(
                        bsp.geometries@,
                        tp@[j],
                        camera_position,
                    ) as u128,
                    j as usize,
                ),
        decreases n - i,
    {
        let g = tp[i];
        let d = distance_squared(camera_position, bsp.geometries[g].centroid);
        pairs.push((d, i));
        i = i + 1;
    }
    let ghost pairs_view = pairs@;
    proof {
        assert(pairs_view =~= Seq::new(
            tp@.len(),
            |j: int|
                (
                    spec_geom_distance_sq(bsp.geometries@, tp@[j], camera_position) as u128,
                    j as usize,
                ),
        ));
    }
    let sorted = sort_pairs_desc(pairs);
    proof {
        broadcast use vstd::seq_lib::group_to_multiset_ensures;

        assert forall|j: int| 0 <= j < sorted@.len() implies ((#[trigger] sorted@[j]).1 < n
            && sorted@[j].0 == spec_geom_distance_sq(
            bsp.geometries@,
            tp@[sorted@[j].1 as int],
            camera_position,
        ) as u128) by {
            assert(sorted@.contains(sorted@[j]));
            assert(sorted@.to_multiset().count(sorted@[j]) > 0);
            assert(pairs_view.to_multiset().count(sorted@[j]) > 0);
            assert(pairs_view.contains(sorted@[j]));
            let w = choose|w: int| 0 <= w < pairs_view.len() && pairs_view[w] == sorted@[j];
            assert(pairs_view[w] == (
                spec_geom_distance_sq(bsp.geometries@, tp@[w], camera_position) as u128,
                w as usize,
            ));
        }
    }
    let mut out: Vec<usize> = Vec::new();
    let mut k: usize = 0;
    let m = sorted.len();
    while k < m
        invariant
            m == sorted@.len(),
            k <= m,
            n == tp@.len(),
            forall|j: int| 0 <= j < tp@.len() ==> (#[trigger] tp@[j]) < bsp.geometries@.len(),
            forall|j: int|
                0 <= j < sorted@.len() ==> (#[trigger] sorted@[j]).1 < n && sorted@[j].0
                    == spec_geom_distance_sq(
                    bsp.geometries@,
                    tp@[sorted@[j].1 as int],
                    camera_position,
                ) as u128,
            out@.len() == k,
            forall|j: int| 0 <= j < k ==> out@[j] == tp@[(#[trigger] sorted@[j]).1 as int],
        decreases m - k,
    {
        proof {
            assert(sorted@.contains(sorted@[k as int]));
        }
        out.push(tp[sorted[k].1]);
        k = k + 1;
    }
    proof {
        lemma_sort_transparent_post(
            bsp.geometries@,
            tp@,
            camera_position,
            sorted@,
            out@,
        );
    }
    out
}

/// Relate the sorted distance pairs to the final transparent draw order.
proof fn lemma_sort_transparent_post(
    geoms: Seq<BSPGeometry>,
    tp: Seq<usize>,
    camera_position: FixedVec3,
    sorted: Seq<(u128, usize)>,
    out: Seq<usize>,
)
    requires
        tp.len() <= usize::MAX,
        forall|j: int| 0 <= j < tp.len() ==> (#[trigger] tp[j]) < geoms.len(),
        sorted.len() == tp.len(),
        out.len() == sorted.len(),
        sorted_by(sorted, |a: (u128, usize), b: (u128, usize)| spec_desc_leq(a, b)),
        sorted.to_multiset() == Seq::new(
            tp.len(),
            |j: int|
                (
                    spec_geom_distance_sq(geoms, tp[j], camera_position) as u128,
                    j as usize,
                ),
        ).to_multiset(),
        forall|j: int|
            0 <= j < sorted.len() ==> (#[trigger] sorted[j]).1 < tp.len() && sorted[j].0
                == spec_geom_distance_sq(geoms, tp[sorted[j].1 as int], camera_position) as u128,
        forall|j: int| 0 <= j < out.len() ==> out[j] == tp[(#[trigger] sorted[j]).1 as int],
    ensures
        forall|i: int| 0 <= i < out.len() ==> tp.contains(#[trigger] out[i]),
        forall|g: usize| tp.contains(g) ==> out.contains(g),
        forall|i: int, j: int|
            0 <= i < j < out.len() ==> spec_geom_distance_sq(geoms, out[i], camera_position)
                >= spec_geom_distance_sq(geoms, out[j], camera_position),
        forall|i: int, j: int|
            0 <= i < j < out.len() && spec_geom_distance_sq(geoms, out[i], camera_position)
                == spec_geom_distance_sq(geoms, out[j], camera_position)
                ==> exists|a: int, b: int|
                    0 <= a < b < tp.len() && tp[a] == out[i] && tp[b] == out[j],
{
    broadcast use vstd::seq_lib::group_to_multiset_ensures;

    let ghost orig = Seq::new(
        tp.len(),
        |j: int| (spec_geom_distance_sq(geoms, tp[j], camera_position) as u128, j as usize),
    );
    let ghost leq = |a: (u128, usize), b: (u128, usize)| spec_desc_leq(a, b);
    assert(sorted_by(sorted, leq));
    assert forall|i: int| 0 <= i < out.len() implies tp.contains(#[trigger] out[i]) by {
        assert(out[i] == tp[sorted[i].1 as int]);
        assert(tp.contains(tp[sorted[i].1 as int]));
    }
    assert forall|g: usize| tp.contains(g) implies out.contains(g) by {
        let j = choose|j: int| 0 <= j < tp.len() && tp[j] == g;
        let x = (spec_geom_distance_sq(geoms, tp[j], camera_position) as u128, j as usize);
        assert(orig[j] == x);
        assert(orig.contains(x));
        assert(orig.to_multiset().count(x) > 0);
        assert(sorted.to_multiset().count(x) > 0);
        assert(sorted.contains(x));
        let w = choose|w: int| 0 <= w < sorted.len() && sorted[w] == x;
        assert(out[w] == tp[j]);
        assert(out.contains(g));
    }
    assert forall|i: int, j: int| 0 <= i < j < out.len() implies spec_geom_distance_sq(
        geoms,
        out[i],
        camera_position,
    ) >= spec_geom_distance_sq(geoms, out[j], camera_position) by {
        assert(leq(sorted[i], sorted[j]));
        crate::fixed::lemma_distance_squared_bounds(
            camera_position,
            geoms[out[i] as int].centroid,
        );
        crate::fixed::lemma_distance_squared_bounds(
            camera_position,
            geoms[out[j] as int].centroid,
        );
    }
    assert forall|i: int, j: int|
        0 <= i < j < out.len() && spec_geom_distance_sq(geoms, out[i], camera_position)
            == spec_geom_distance_sq(geoms, out[j], camera_position) implies exists|a: int, b: int|
        0 <= a < b < tp.len() && tp[a] == out[i] && tp[b] == out[j] by {
        assert(leq(sorted[i], sorted[j]));
        assert(sorted[i].0 == sorted[j].0);
        assert(sorted[i].1 <= sorted[j].1);
        if sorted[i].1 == sorted[j].1 {
            assert(sorted[i] == sorted[j]);
            assert(orig.no_duplicates()) by {
                assert(forall|a: int, b: int|
                    0 <= a < b < orig.len() ==> (#[trigger] orig[a]).1 != (#[trigger] orig[b]).1);
            }
            orig.lemma_multiset_has_no_duplicates();
            assert(forall|x: (u128, usize)|
                sorted.to_multiset().contains(x) ==> #[trigger] sorted.to_multiset().count(x)
                    == 1);
            sorted.lemma_multiset_has_no_duplicates_conv();
            assert(false);
        }
        let a = sorted[i].1 as int;
        let b = sorted[j].1 as int;
        assert(0 <= a < b < tp.len() && tp[a] == out[i] && tp[b] == out[j]);
    }
}

} // verus!
