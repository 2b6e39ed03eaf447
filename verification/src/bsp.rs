//! Level partitions: clusters, geometry instances, and draw-order lists.

use vstd::prelude::*;
use vstd::relations::sorted_by;
use crate::bitmap::Bitmap;
use crate::error::{Error, MResult};
use crate::fixed::{
    FRAC_ONE, MIN_DRAW_DISTANCE_LIMIT, MAX_DRAW_DISTANCE_LIMIT, FixedVec3, spec_clamp,
    spec_isqrt, isqrt,
};
use crate::keymap::{KeyMap, spec_contains_key, spec_index_of, spec_value_of};
use crate::shader::{Shader, spec_is_transparent};
use crate::sky::Sky;
use crate::vertex::{LightmapVertex, ModelTriangle, ModelVertex, VertexOffsets};

verus! {

/// One convex visibility cluster, modeled by its bounding box, with an
/// optional sky reference.
pub struct BSPCluster {
    /// Key of the sky seen from this cluster, if any.
    pub sky: Option<String>,
    /// Smallest corner of the cluster's region.
    pub cluster_min: FixedVec3,
    /// Largest corner of the cluster's region.
    pub cluster_max: FixedVec3,
}

/// Whether `p` lies within cluster `c`.
pub open spec fn spec_cluster_contains(c: BSPCluster, p: FixedVec3) -> bool {
    &&& c.cluster_min.x <= p.x <= c.cluster_max.x
    &&& c.cluster_min.y <= p.y <= c.cluster_max.y
    &&& c.cluster_min.z <= p.z <= c.cluster_max.z
}

/// The spatial partition data of a level.
pub struct BSPData {
    pub clusters: Vec<BSPCluster>,
}

/// The first cluster among the first `n` that contains `p`, if any.
pub open spec fn spec_find_cluster_upto(clusters: Seq<BSPCluster>, p: FixedVec3, n: int) -> Option<
    int,
>
    decreases n,
{
    if n <= 0 {
        Option::None
    } else {
        match spec_find_cluster_upto(clusters, p, n - 1) {
            Option::Some(i) => Option::Some(i),
            Option::None => if spec_cluster_contains(clusters[n - 1], p) {
                Option::Some(n - 1)
            } else {
                Option::None
            },
        }
    }
}

/// The first cluster containing `p`, if any.
pub open spec fn spec_find_cluster(clusters: Seq<BSPCluster>, p: FixedVec3) -> Option<int> {
    spec_find_cluster_upto(clusters, p, clusters.len() as int)
}

/// Once some prefix finds a cluster, every longer prefix finds the same
/// one.
proof fn lemma_find_cluster_extend(clusters: Seq<BSPCluster>, p: FixedVec3, k: int, m: int)
    requires
        0 <= k <= m <= clusters.len(),
        spec_find_cluster_upto(clusters, p, k) is Some,
    ensures
        spec_find_cluster_upto(clusters, p, m) == spec_find_cluster_upto(clusters, p, k),
    decreases m - k,
{
    if m > k {
        lemma_find_cluster_extend(clusters, p, k, m - 1);
    }
}

impl BSPData {
    /// Find the first cluster containing `position`.  Not finding one is a
    /// valid outcome: the camera may stand outside the level.
    pub fn find_cluster(&self, position: FixedVec3) -> (r: Option<usize>)
        ensures
            match r {
                Some(i) => Option::Some(i as int) == spec_find_cluster(self.clusters@, position)
                    && i < self.clusters@.len(),
                None => spec_find_cluster(self.clusters@, position) is None,
            },
    {
        let n = self.clusters.len();
        let mut i: usize = 0;
        while i < n
            invariant
                n == self.clusters@.len(),
                i <= n,
                spec_find_cluster_upto(self.clusters@, position, i as int) is None,
            decreases n - i,
        {
            let c = &self.clusters[i];
            if c.cluster_min.x <= position.x && position.x <= c.cluster_max.x
                && c.cluster_min.y <= position.y && position.y <= c.cluster_max.y
                && c.cluster_min.z <= position.z && position.z <= c.cluster_max.z {
                proof {
                    assert(spec_find_cluster_upto(self.clusters@, position, i as int + 1)
                        == Option::Some(i as int));
                    lemma_find_cluster_extend(self.clusters@, position, i as int + 1, n as int);
                }
                return Some(i);
            }
            i = i + 1;
        }
        None
    }
}

/// One material run of a lightmap set: its vertices, triangles, shader and
/// sorting centroid.
pub struct AddBSPParameterLightmapMaterial {
    pub shader_vertices: Vec<ModelVertex>,
    pub lightmap_vertices: Option<Vec<LightmapVertex>>,
    pub surfaces: Vec<ModelTriangle>,
    pub shader: String,
    pub centroid: FixedVec3,
}

/// One lightmap set: the materials lit by one lightmap page.
pub struct AddBSPParameterLightmapSet {
    pub lightmap_index: Option<usize>,
    pub materials: Vec<AddBSPParameterLightmapMaterial>,
}

/// Parameters for adding a level.
pub struct AddBSPParameter {
    pub lightmap_bitmap: Option<String>,
    pub lightmap_sets: Vec<AddBSPParameterLightmapSet>,
    pub bsp_data: BSPData,
}

/// Total number of vertices of a run of materials.
pub open spec fn spec_mats_vcount(mats: Seq<AddBSPParameterLightmapMaterial>) -> int
    decreases mats.len(),
{
    if mats.len() == 0 {
        0
    } else {
        mats.first().shader_vertices@.len() + spec_mats_vcount(mats.drop_first())
    }
}

/// Total number of indices (three per triangle) of a run of materials.
pub open spec fn spec_mats_icount(mats: Seq<AddBSPParameterLightmapMaterial>) -> int
    decreases mats.len(),
{
    if mats.len() == 0 {
        0
    } else {
        3 * mats.first().surfaces@.len() + spec_mats_icount(mats.drop_first())
    }
}

/// Total number of vertices of a run of lightmap sets.
pub open spec fn spec_sets_vcount(sets: Seq<AddBSPParameterLightmapSet>) -> int
    decreases sets.len(),
{
    if sets.len() == 0 {
        0
    } else {
        spec_mats_vcount(sets.first().materials@) + spec_sets_vcount(sets.drop_first())
    }
}

/// Total number of indices of a run of lightmap sets.
pub open spec fn spec_sets_icount(sets: Seq<AddBSPParameterLightmapSet>) -> int
    decreases sets.len(),
{
    if sets.len() == 0 {
        0
    } else {
        spec_mats_icount(sets.first().materials@) + spec_sets_icount(sets.drop_first())
    }
}

/// Vertex and index counts are sums of nonnegative terms.
pub proof fn lemma_counts_nonneg(sets: Seq<AddBSPParameterLightmapSet>)
    ensures
        spec_sets_vcount(sets) >= 0,
        spec_sets_icount(sets) >= 0,
    decreases sets.len(),
{
    if sets.len() > 0 {
        lemma_mats_counts_nonneg(sets.first().materials@);
        lemma_counts_nonneg(sets.drop_first());
    }
}

/// Per-set vertex and index counts are sums of nonnegative terms.
pub proof fn lemma_mats_counts_nonneg(mats: Seq<AddBSPParameterLightmapMaterial>)
    ensures
        spec_mats_vcount(mats) >= 0,
        spec_mats_icount(mats) >= 0,
    decreases mats.len(),
{
    if mats.len() > 0 {
        lemma_mats_counts_nonneg(mats.drop_first());
    }
}

/// Whether every material's shader reference in `sets` is loaded.
pub open spec fn spec_sets_shaders_ok(
    sets: Seq<AddBSPParameterLightmapSet>,
    shaders: Seq<(Seq<char>, Shader)>,
) -> bool {
    forall|s: int, m: int|
        0 <= s < sets.len() && 0 <= m < sets[s].materials@.len() ==> spec_contains_key(
            shaders,
            (#[trigger] sets[s].materials@[m]).shader@,
        )
}

impl AddBSPParameter {
    /// Whether every material's shader reference is loaded.
    pub open spec fn shaders_ok(&self, shaders: Seq<(Seq<char>, Shader)>) -> bool {
        spec_sets_shaders_ok(self.lightmap_sets@, shaders)
    }

    /// Whether each material's lightmap vertices, when present, pair up
    /// one-to-one with its shader vertices.
    pub open spec fn lightmap_vertices_ok(&self) -> bool {
        forall|s: int, m: int|
            0 <= s < self.lightmap_sets@.len()
                && 0 <= m < self.lightmap_sets@[s].materials@.len()
                ==> match (#[trigger] self.lightmap_sets@[s].materials@[m]).lightmap_vertices {
                    Option::Some(lv) => lv@.len()
                        == self.lightmap_sets@[s].materials@[m].shader_vertices@.len(),
                    Option::None => true,
                }
    }

    /// Whether every cluster's sky reference is loaded.
    pub open spec fn skies_ok(&self, skies: Seq<(Seq<char>, Sky)>) -> bool {
        forall|c: int|
            0 <= c < self.bsp_data.clusters@.len()
                ==> match (#[trigger] self.bsp_data.clusters@[c]).sky {
                    Option::Some(k) => spec_contains_key(skies, k@),
                    Option::None => true,
                }
    }

    /// Whether the totals fit the index and offset types used for drawing.
    pub open spec fn counts_ok(&self) -> bool {
        &&& spec_sets_vcount(self.lightmap_sets@) <= i32::MAX
        &&& spec_sets_icount(self.lightmap_sets@) <= u32::MAX
    }

    /// The whole validity condition checked before a level is loaded.
    pub open spec fn valid(
        &self,
        shaders: Seq<(Seq<char>, Shader)>,
        bitmaps: Seq<(Seq<char>, Bitmap)>,
        skies: Seq<(Seq<char>, Sky)>,
    ) -> bool {
        &&& self.shaders_ok(shaders)
        &&& self.lightmap_vertices_ok()
        &&& self.skies_ok(skies)
        &&& self.counts_ok()
        &&& match self.lightmap_bitmap {
            Option::Some(k) => spec_contains_key(bitmaps, k@),
            Option::None => true,
        }
    }

    /// Check every reference and limit of the parameter set.
    pub fn validate(
        &self,
        shaders: &KeyMap<Shader>,
        bitmaps: &KeyMap<Bitmap>,
        skies: &KeyMap<Sky>,
    ) -> (r: MResult<()>)
        ensures
            r is Ok <==> self.valid(shaders@, bitmaps@, skies@),
    {
        match &self.lightmap_bitmap {
            Option::Some(k) => {
                if !bitmaps.contains_key(k) {
                    return Err(Error::Validation);
                }
            },
            Option::None => {},
        }
        let cn = self.bsp_data.clusters.len();
        let mut c: usize = 0;
        while c < cn
            invariant
                cn == self.bsp_data.clusters@.len(),
                c <= cn,
                forall|j: int|
                    0 <= j < c ==> match (#[trigger] self.bsp_data.clusters@[j]).sky {
                        Option::Some(k) => spec_contains_key(skies@, k@),
                        Option::None => true,
                    },
            decreases cn - c,
        {
            match &self.bsp_data.clusters[c].sky {
                Option::Some(k) => {
                    if !skies.contains_key(k) {
                        return Err(Error::Validation);
                    }
                },
                Option::None => {},
            }
            c = c + 1;
        }
        let sn = self.lightmap_sets.len();
        let mut vtotal: u64 = 0;
        let mut itotal: u64 = 0;
        let mut s: usize = 0;
        while s < sn
            invariant
                sn == self.lightmap_sets@.len(),
                s <= sn,
                vtotal == spec_sets_vcount(self.lightmap_sets@.subrange(0, s as int)),
                itotal == spec_sets_icount(self.lightmap_sets@.subrange(0, s as int)),
                vtotal <= i32::MAX,
                itotal <= u32::MAX,
                forall|si: int, m: int|
                    0 <= si < s && 0 <= m < self.lightmap_sets@[si].materials@.len()
                        ==> spec_contains_key(
                            shaders@,
                            (#[trigger] self.lightmap_sets@[si].materials@[m]).shader@,
                        ),
                forall|si: int, m: int|
                    0 <= si < s && 0 <= m < self.lightmap_sets@[si].materials@.len()
                        ==> match (
                            #[trigger] self.lightmap_sets@[si].materials@[m]
                        ).lightmap_vertices {
                            Option::Some(lv) => lv@.len()
                                == self.lightmap_sets@[si].materials@[m].shader_vertices@.len(),
                            Option::None => true,
                        },
            decreases sn - s,
        {
            let mats = &self.lightmap_sets[s].materials;
            let mn = mats.len();
            let mut m: usize = 0;
            let ghost vstart = vtotal;
            let ghost istart = itotal;
            while m < mn
                invariant
                    mn == mats@.len(),
                    mats@ == self.lightmap_sets@[s as int].materials@,
                    s < sn,
                    sn == self.lightmap_sets@.len(),
                    m <= mn,
                    vstart == spec_sets_vcount(self.lightmap_sets@.subrange(0, s as int)),
                    istart == spec_sets_icount(self.lightmap_sets@.subrange(0, s as int)),
                    vtotal == vstart + spec_mats_vcount(mats@.subrange(0, m as int)),
                    itotal == istart + spec_mats_icount(mats@.subrange(0, m as int)),
                    vtotal <= i32::MAX,
                    itotal <= u32::MAX,
                    forall|mi: int|
                        0 <= mi < m ==> spec_contains_key(
                            shaders@,
                            (#[trigger] mats@[mi]).shader@,
                        ),
                    forall|mi: int|
                        0 <= mi < m ==> match (#[trigger] mats@[mi]).lightmap_vertices {
                            Option::Some(lv) => lv@.len() == mats@[mi].shader_vertices@.len(),
                            Option::None => true,
                        },
                decreases mn - m,
            {
                let mat = &mats[m];
                if !shaders.contains_key(&mat.shader) {
                    return Err(Error::Validation);
                }
                match &mat.lightmap_vertices {
                    Option::Some(lv) => {
                        if lv.len() != mat.shader_vertices.len() {
                            return Err(Error::Validation);
                        }
                    },
                    Option::None => {},
                }
                let vlen: u128 = mat.shader_vertices.len() as u128;
                let ilen: u128 = 3u128 * (mat.surfaces.len() as u128);
                if vtotal as u128 + vlen > i32::MAX as u128 {
                    proof {
                        lemma_count_exceeds(self.lightmap_sets@, s as int, m as int);
                    }
                    return Err(Error::Validation);
                }
                if itotal as u128 + ilen > u32::MAX as u128 {
                    proof {
                        lemma_count_exceeds(self.lightmap_sets@, s as int, m as int);
                    }
                    return Err(Error::Validation);
                }
                vtotal = vtotal + vlen as u64;
                itotal = itotal + ilen as u64;
                proof {
                    lemma_prefix_counts(mats@, m as int + 1);
                }
                m = m + 1;
            }
            proof {
                assert(mats@.subrange(0, mn as int) =~= mats@);
                lemma_set_prefix_counts(self.lightmap_sets@, s as int + 1);
            }
            s = s + 1;
        }
        proof {
            assert(self.lightmap_sets@.subrange(0, sn as int) =~= self.lightmap_sets@);
        }
        Ok(())
    }
}

/// Material counts split at any position.
proof fn lemma_mats_split(mats: Seq<AddBSPParameterLightmapMaterial>, k: int)
    requires
        0 <= k <= mats.len(),
    ensures
        spec_mats_vcount(mats) == spec_mats_vcount(mats.subrange(0, k)) + spec_mats_vcount(
            mats.subrange(k, mats.len() as int),
        ),
        spec_mats_icount(mats) == spec_mats_icount(mats.subrange(0, k)) + spec_mats_icount(
            mats.subrange(k, mats.len() as int),
        ),
    decreases k,
{
    if k == 0 {
        assert(mats.subrange(0, 0).len() == 0);
        assert(mats.subrange(0, mats.len() as int) =~= mats);
    } else {
        lemma_mats_split(mats.drop_first(), k - 1);
        assert(mats.subrange(0, k).drop_first() =~= mats.drop_first().subrange(0, k - 1));
        assert(mats.subrange(k, mats.len() as int) =~= mats.drop_first().subrange(
            k - 1,
            mats.drop_first().len() as int,
        ));
        assert(mats.subrange(0, k).first() == mats.first());
        assert(mats.subrange(0, k).len() > 0);
    }
}

/// Set counts split at any position.
proof fn lemma_sets_split(sets: Seq<AddBSPParameterLightmapSet>, k: int)
    requires
        0 <= k <= sets.len(),
    ensures
        spec_sets_vcount(sets) == spec_sets_vcount(sets.subrange(0, k)) + spec_sets_vcount(
            sets.subrange(k, sets.len() as int),
        ),
        spec_sets_icount(sets) == spec_sets_icount(sets.subrange(0, k)) + spec_sets_icount(
            sets.subrange(k, sets.len() as int),
        ),
    decreases k,
{
    if k == 0 {
        assert(sets.subrange(0, 0).len() == 0);
        assert(sets.subrange(0, sets.len() as int) =~= sets);
    } else {
        lemma_sets_split(sets.drop_first(), k - 1);
        assert(sets.subrange(0, k).drop_first() =~= sets.drop_first().subrange(0, k - 1));
        assert(sets.subrange(k, sets.len() as int) =~= sets.drop_first().subrange(
            k - 1,
            sets.drop_first().len() as int,
        ));
        assert(sets.subrange(0, k).first() == sets.first());
        assert(sets.subrange(0, k).len() > 0);
    }
}

/// The whole level's counts are at least the counts accumulated up to any
/// material, plus that material's own contribution.
proof fn lemma_count_exceeds(sets: Seq<AddBSPParameterLightmapSet>, s: int, m: int)
    requires
        0 <= s < sets.len(),
        0 <= m < sets[s].materials@.len(),
    ensures
        spec_sets_vcount(sets) >= spec_sets_vcount(sets.subrange(0, s)) + spec_mats_vcount(
            sets[s].materials@.subrange(0, m),
        ) + sets[s].materials@[m].shader_vertices@.len(),
        spec_sets_icount(sets) >= spec_sets_icount(sets.subrange(0, s)) + spec_mats_icount(
            sets[s].materials@.subrange(0, m),
        ) + 3 * sets[s].materials@[m].surfaces@.len(),
{
    let len = sets.len() as int;
    let mats = sets[s].materials@;
    let mlen = mats.len() as int;
    lemma_sets_split(sets, s);
    let tail = sets.subrange(s, len);
    assert(tail.first() == sets[s]);
    assert(tail.drop_first() =~= sets.subrange(s + 1, len));
    lemma_counts_nonneg(sets.subrange(s + 1, len));
    lemma_mats_split(mats, m);
    let mtail = mats.subrange(m, mlen);
    assert(mtail.first() == mats[m]);
    assert(mtail.drop_first() =~= mats.subrange(m + 1, mlen));
    lemma_mats_counts_nonneg(mats.subrange(m + 1, mlen));
}

/// The positions of one material's vertices, in order.
pub open spec fn spec_mat_positions(m: AddBSPParameterLightmapMaterial) -> Seq<FixedVec3> {
    Seq::new(m.shader_vertices@.len(), |i: int| m.shader_vertices@[i].position)
}

/// The positions of a run of materials, concatenated in order.
pub open spec fn spec_mats_positions(mats: Seq<AddBSPParameterLightmapMaterial>) -> Seq<
    FixedVec3,
>
    decreases mats.len(),
{
    if mats.len() == 0 {
        Seq::empty()
    } else {
        spec_mat_positions(mats.first()) + spec_mats_positions(mats.drop_first())
    }
}

/// The positions of all vertices of a level, concatenated in set and
/// material order.
pub open spec fn spec_sets_positions(sets: Seq<AddBSPParameterLightmapSet>) -> Seq<FixedVec3>
    decreases sets.len(),
{
    if sets.len() == 0 {
        Seq::empty()
    } else {
        spec_mats_positions(sets.first().materials@) + spec_sets_positions(sets.drop_first())
    }
}

/// A material-position prefix extends by its last element.
proof fn lemma_mats_positions_prefix(mats: Seq<AddBSPParameterLightmapMaterial>, n: int)
    requires
        0 < n <= mats.len(),
    ensures
        spec_mats_positions(mats.subrange(0, n)) =~= spec_mats_positions(mats.subrange(0, n - 1))
            + spec_mat_positions(mats[n - 1]),
    decreases n,
{
    if n == 1 {
        assert(mats.subrange(0, 1).drop_first() =~= mats.subrange(0, 0));
        assert(mats.subrange(0, 0).len() == 0);
    } else {
        lemma_mats_positions_prefix(mats.drop_first(), n - 1);
        assert(mats.subrange(0, n).drop_first() =~= mats.drop_first().subrange(0, n - 1));
        assert(mats.subrange(0, n - 1).drop_first() =~= mats.drop_first().subrange(0, n - 2));
        assert(mats.drop_first()[n - 2] == mats[n - 1]);
        assert(mats.subrange(0, n).first() == mats.first());
        assert(mats.subrange(0, n - 1).first() == mats.first());
    }
}

/// A set-position prefix extends by its last element.
proof fn lemma_sets_positions_prefix(sets: Seq<AddBSPParameterLightmapSet>, n: int)
    requires
        0 < n <= sets.len(),
    ensures
        spec_sets_positions(sets.subrange(0, n)) =~= spec_sets_positions(sets.subrange(0, n - 1))
            + spec_mats_positions(sets[n - 1].materials@),
    decreases n,
{
    if n == 1 {
        assert(sets.subrange(0, 1).drop_first() =~= sets.subrange(0, 0));
        assert(sets.subrange(0, 0).len() == 0);
    } else {
        lemma_sets_positions_prefix(sets.drop_first(), n - 1);
        assert(sets.subrange(0, n).drop_first() =~= sets.drop_first().subrange(0, n - 1));
        assert(sets.subrange(0, n - 1).drop_first() =~= sets.drop_first().subrange(0, n - 2));
        assert(sets.drop_first()[n - 2] == sets[n - 1]);
        assert(sets.subrange(0, n).first() == sets.first());
        assert(sets.subrange(0, n - 1).first() == sets.first());
    }
}

impl AddBSPParameter {
    /// Collect the positions of every vertex of the level, in set and
    /// material order.
    pub fn collect_positions(&self) -> (r: Vec<FixedVec3>)
        ensures
            r@ == spec_sets_positions(self.lightmap_sets@),
    {
        let mut out: Vec<FixedVec3> = Vec::new();
        let sn = self.lightmap_sets.len();
        let mut s: usize = 0;
        proof {
            assert(out@ =~= spec_sets_positions(self.lightmap_sets@.subrange(0, 0)));
        }
        while s < sn
            invariant
                sn == self.lightmap_sets@.len(),
                s <= sn,
                out@ == spec_sets_positions(self.lightmap_sets@.subrange(0, s as int)),
            decreases sn - s,
        {
            let mats = &self.lightmap_sets[s].materials;
            let mn = mats.len();
            let mut m: usize = 0;
            let ghost base = out@;
            proof {
                assert(spec_mats_positions(mats@.subrange(0, 0)) =~= Seq::<FixedVec3>::empty());
            }
            while m < mn
                invariant
                    mn == mats@.len(),
                    mats@ == self.lightmap_sets@[s as int].materials@,
                    m <= mn,
                    out@ == base + spec_mats_positions(mats@.subrange(0, m as int)),
                decreases mn - m,
            {
                let verts = &mats[m].shader_vertices;
                let vn = verts.len();
                let mut v: usize = 0;
                let ghost mbase = out@;
                while v < vn
                    invariant
                        vn == verts@.len(),
                        verts@ == mats@[m as int].shader_vertices@,
                        v <= vn,
                        m < mn,
                        mn == mats@.len(),
                        out@ == mbase + Seq::new(v as nat, |i: int| verts@[i].position),
                    decreases vn - v,
                {
                    out.push(verts[v].position);
                    proof {
                        assert(out@ =~= mbase + Seq::new(
                            (v + 1) as nat,
                            |i: int| verts@[i].position,
                        ));
                    }
                    v = v + 1;
                }
                proof {
                    assert(Seq::new(vn as nat, |i: int| verts@[i].position) =~= spec_mat_positions(
                        mats@[m as int],
                    ));
                    lemma_mats_positions_prefix(mats@, m as int + 1);
                    assert(out@ =~= base + spec_mats_positions(mats@.subrange(0, m as int + 1)));
                }
                m = m + 1;
            }
            proof {
                assert(mats@.subrange(0, mn as int) =~= mats@);
                lemma_sets_positions_prefix(self.lightmap_sets@, s as int + 1);
                assert(out@ =~= spec_sets_positions(
                    self.lightmap_sets@.subrange(0, s as int + 1),
                ));
            }
            s = s + 1;
        }
        proof {
            assert(self.lightmap_sets@.subrange(0, sn as int) =~= self.lightmap_sets@);
        }
        out
    }
}

/// The least x coordinate among the first `n` positions.
pub open spec fn spec_min_x(ps: Seq<FixedVec3>, n: int) -> int
    decreases n,
{
    if n <= 1 {
        ps[0].x as int
    } else {
        let m = spec_min_x(ps, n - 1);
        if ps[n - 1].x < m {
            ps[n - 1].x as int
        } else {
            m
        }
    }
}

/// The greatest x coordinate among the first `n` positions.
pub open spec fn spec_max_x(ps: Seq<FixedVec3>, n: int) -> int
    decreases n,
{
    if n <= 1 {
        ps[0].x as int
    } else {
        let m = spec_max_x(ps, n - 1);
        if ps[n - 1].x > m {
            ps[n - 1].x as int
        } else {
            m
        }
    }
}

/// The least y coordinate among the first `n` positions.
pub open spec fn spec_min_y(ps: Seq<FixedVec3>, n: int) -> int
    decreases n,
{
    if n <= 1 {
        ps[0].y as int
    } else {
        let m = spec_min_y(ps, n - 1);
        if ps[n - 1].y < m {
            ps[n - 1].y as int
        } else {
            m
        }
    }
}

/// The greatest y coordinate among the first `n` positions.
pub open spec fn spec_max_y(ps: Seq<FixedVec3>, n: int) -> int
    decreases n,
{
    if n <= 1 {
        ps[0].y as int
    } else {
        let m = spec_max_y(ps, n - 1);
        if ps[n - 1].y > m {
            ps[n - 1].y as int
        } else {
            m
        }
    }
}

/// The least z coordinate among the first `n` positions.
pub open spec fn spec_min_z(ps: Seq<FixedVec3>, n: int) -> int
    decreases n,
{
    if n <= 1 {
        ps[0].z as int
    } else {
        let m = spec_min_z(ps, n - 1);
        if ps[n - 1].z < m {
            ps[n - 1].z as int
        } else {
            m
        }
    }
}

/// The greatest z coordinate among the first `n` positions.
pub open spec fn spec_max_z(ps: Seq<FixedVec3>, n: int) -> int
    decreases n,
{
    if n <= 1 {
        ps[0].z as int
    } else {
        let m = spec_max_z(ps, n - 1);
        if ps[n - 1].z > m {
            ps[n - 1].z as int
        } else {
            m
        }
    }
}

/// The draw distance derived from a level's vertex positions: the diagonal
/// of its bounding box plus ten units of leeway, clamped to the supported
/// range.  A level with no vertices gets the minimum distance.
pub open spec fn spec_draw_distance(ps: Seq<FixedVec3>) -> u32 {
    if ps.len() == 0 {
        MIN_DRAW_DISTANCE_LIMIT
    } else {
        let n = ps.len() as int;
        let dx = spec_max_x(ps, n) - spec_min_x(ps, n);
        let dy = spec_max_y(ps, n) - spec_min_y(ps, n);
        let dz = spec_max_z(ps, n) - spec_min_z(ps, n);
        spec_clamp(
            spec_isqrt(dx * dx + dy * dy + dz * dz) + 10 * (FRAC_ONE as int),
            MIN_DRAW_DISTANCE_LIMIT as int,
            MAX_DRAW_DISTANCE_LIMIT as int,
        ) as u32
    }
}

/// Compute a level's draw distance from its vertex positions.
pub fn compute_draw_distance(positions: &Vec<FixedVec3>) -> (r: u32)
    ensures
        r == spec_draw_distance(positions@),
{
    let n = positions.len();
    if n == 0 {
        return MIN_DRAW_DISTANCE_LIMIT;
    }
    let mut min_x: i32 = positions[0].x;
    let mut max_x: i32 = positions[0].x;
    let mut min_y: i32 = positions[0].y;
    let mut max_y: i32 = positions[0].y;
    let mut min_z: i32 = positions[0].z;
    let mut max_z: i32 = positions[0].z;
    let mut i: usize = 1;
    while i < n
        invariant
            n == positions@.len(),
            1 <= i <= n,
            min_x == spec_min_x(positions@, i as int),
            max_x == spec_max_x(positions@, i as int),
            min_y == spec_min_y(positions@, i as int),
            max_y == spec_max_y(positions@, i as int),
            min_z == spec_min_z(positions@, i as int),
            max_z == spec_max_z(positions@, i as int),
        decreases n - i,
    {
        let p = positions[i];
        if p.x < min_x {
            min_x = p.x;
        }
        if p.x > max_x {
            max_x = p.x;
        }
        if p.y < min_y {
            min_y = p.y;
        }
        if p.y > max_y {
            max_y = p.y;
        }
        if p.z < min_z {
            min_z = p.z;
        }
        if p.z > max_z {
            max_z = p.z;
        }
        i = i + 1;
    }
    let d2 = crate::fixed::distance_squared(
        FixedVec3 { x: max_x, y: max_y, z: max_z },
        FixedVec3 { x: min_x, y: min_y, z: min_z },
    );
    proof {
        lemma_extents_ordered(positions@, n as int);
        crate::fixed::lemma_mul_bound(
            max_x - min_x,
            max_x - min_x,
            0xffff_ffff,
            0xffff_ffff,
        );
        crate::fixed::lemma_mul_bound(
            max_y - min_y,
            max_y - min_y,
            0xffff_ffff,
            0xffff_ffff,
        );
        crate::fixed::lemma_mul_bound(
            max_z - min_z,
            max_z - min_z,
            0xffff_ffff,
            0xffff_ffff,
        );
    }
    let s = isqrt(d2);
    proof {
        assert(d2 < 0x40_0000_0000_0000_0000u128);
        if s >= 0x2_0000_0000u128 {
            crate::fixed::lemma_mul_bound(
                0x2_0000_0000,
                0x2_0000_0000,
                s as int,
                s as int,
            );
            assert(false);
        }
    }
    let t: u64 = s as u64 + 10u64 * (FRAC_ONE as u64);
    if t < MIN_DRAW_DISTANCE_LIMIT as u64 {
        MIN_DRAW_DISTANCE_LIMIT
    } else if t > MAX_DRAW_DISTANCE_LIMIT as u64 {
        MAX_DRAW_DISTANCE_LIMIT
    } else {
        t as u32
    }
}

/// Each minimum is no greater than the corresponding maximum.
proof fn lemma_extents_ordered(ps: Seq<FixedVec3>, n: int)
    requires
        1 <= n <= ps.len(),
    ensures
        spec_min_x(ps, n) <= spec_max_x(ps, n),
        spec_min_y(ps, n) <= spec_max_y(ps, n),
        spec_min_z(ps, n) <= spec_max_z(ps, n),
    decreases n,
{
    if n > 1 {
        lemma_extents_ordered(ps, n - 1);
    }
}

/// Whether the shader of instance `g` is transparent.
pub open spec fn spec_geom_transparent(
    g: BSPGeometry,
    shaders: Seq<(Seq<char>, Shader)>,
) -> bool {
    spec_is_transparent(shaders[g.shader_index as int].1.material)
}

/// The `(shader identity, instance index)` pairs of the instances among the
/// first `n` whose transparency equals `want`, in instance order.
pub open spec fn spec_filter_pairs(
    geoms: Seq<BSPGeometry>,
    shaders: Seq<(Seq<char>, Shader)>,
    want: bool,
    n: int,
) -> Seq<(u64, usize)>
    decreases n,
{
    if n <= 0 {
        Seq::empty()
    } else {
        let pre = spec_filter_pairs(geoms, shaders, want, n - 1);
        if spec_geom_transparent(geoms[n - 1], shaders) == want {
            pre.push((geoms[n - 1].shader_index as u64, (n - 1) as usize))
        } else {
            pre
        }
    }
}

/// What holds of every filtered pair, and which pairs are present.
proof fn lemma_filter_pairs_props(
    geoms: Seq<BSPGeometry>,
    shaders: Seq<(Seq<char>, Shader)>,
    want: bool,
    n: int,
)
    requires
        0 <= n <= geoms.len(),
        geoms.len() <= usize::MAX,
    ensures
        forall|i: int|
            0 <= i < spec_filter_pairs(geoms, shaders, want, n).len()
                ==> (#[trigger] spec_filter_pairs(geoms, shaders, want, n)[i]).1 < n
                    && spec_geom_transparent(
                    geoms[spec_filter_pairs(geoms, shaders, want, n)[i].1 as int],
                    shaders,
                ) == want
                    && spec_filter_pairs(geoms, shaders, want, n)[i].0
                    == geoms[spec_filter_pairs(geoms, shaders, want, n)[i].1 as int].shader_index
                    as u64,
        forall|i: int, j: int|
            0 <= i < j < spec_filter_pairs(geoms, shaders, want, n).len()
                ==> (#[trigger] spec_filter_pairs(geoms, shaders, want, n)[i]).1 < (
                #[trigger] spec_filter_pairs(geoms, shaders, want, n)[j]).1,
        forall|g: int|
            0 <= g < n && spec_geom_transparent(#[trigger] geoms[g], shaders) == want
                ==> spec_filter_pairs(geoms, shaders, want, n).contains(
                (geoms[g].shader_index as u64, g as usize),
            ),
        spec_filter_pairs(geoms, shaders, true, n).len() + spec_filter_pairs(
            geoms,
            shaders,
            false,
            n,
        ).len() == n,
    decreases n,
{
    if n > 0 {
        lemma_filter_pairs_props(geoms, shaders, want, n - 1);
        lemma_filter_pairs_props(geoms, shaders, !want, n - 1);
        let pre = spec_filter_pairs(geoms, shaders, want, n - 1);
        let f = spec_filter_pairs(geoms, shaders, want, n);
        if spec_geom_transparent(geoms[n - 1], shaders) == want {
            let x = (geoms[n - 1].shader_index as u64, (n - 1) as usize);
            assert(f == pre.push(x));
            assert forall|i: int| 0 <= i < f.len() implies (#[trigger] f[i]).1 < n
                && spec_geom_transparent(geoms[f[i].1 as int], shaders) == want && f[i].0
                == geoms[f[i].1 as int].shader_index as u64 by {
                if i < pre.len() {
                    assert(f[i] == pre[i]);
                } else {
                    assert(f[i] == x);
                }
            }
            assert forall|i: int, j: int| 0 <= i < j < f.len() implies (#[trigger] f[i]).1 < (
            #[trigger] f[j]).1 by {
                if j < pre.len() {
                    assert(f[i] == pre[i] && f[j] == pre[j]);
                } else {
                    assert(f[j] == x);
                    assert(f[i] == pre[i]);
                    assert(pre[i].1 < n - 1);
                }
            }
        } else {
            assert(f == pre);
            assert(spec_filter_pairs(geoms, shaders, !want, n) == spec_filter_pairs(
                geoms,
                shaders,
                !want,
                n - 1,
            ).push((geoms[n - 1].shader_index as u64, (n - 1) as usize)));
        }
        assert forall|g: int|
            0 <= g < n && spec_geom_transparent(#[trigger] geoms[g], shaders) == want implies f
            .contains((geoms[g].shader_index as u64, g as usize)) by {
            if g < n - 1 {
                let x = (geoms[g].shader_index as u64, g as usize);
                assert(pre.contains(x));
                let w = choose|w: int| 0 <= w < pre.len() && pre[w] == x;
                assert(f[w] == x);
            } else {
                assert(f[f.len() - 1] == (geoms[n - 1].shader_index as u64, (n - 1) as usize));
            }
        }
    }
}

/// Two sequences with the same multiset have the same members.
proof fn lemma_same_multiset_contains(a: Seq<(u64, usize)>, b: Seq<(u64, usize)>, x: (u64, usize))
    requires
        a.to_multiset() == b.to_multiset(),
        a.contains(x),
    ensures
        b.contains(x),
{
    broadcast use vstd::seq_lib::group_to_multiset_ensures;

    assert(a.to_multiset().count(x) > 0);
    assert(b.to_multiset().count(x) > 0);
}

/// Properties of a draw-order list built by sorting the filtered pairs of a
/// level and keeping their instance indices.
proof fn lemma_list_from_sorted(
    geoms: Seq<BSPGeometry>,
    shaders: Seq<(Seq<char>, Shader)>,
    want: bool,
    sorted: Seq<(u64, usize)>,
    out: Seq<usize>,
)
    requires
        geoms.len() <= usize::MAX,
        out.len() == sorted.len(),
        forall|i: int| 0 <= i < out.len() ==> out[i] == (#[trigger] sorted[i]).1,
        sorted_by(sorted, |a: (u64, usize), b: (u64, usize)| crate::order::spec_asc_leq(a, b)),
        sorted.to_multiset() == spec_filter_pairs(
            geoms,
            shaders,
            want,
            geoms.len() as int,
        ).to_multiset(),
    ensures
        forall|i: int|
            0 <= i < out.len() ==> (#[trigger] out[i]) < geoms.len() && spec_geom_transparent(
                geoms[out[i] as int],
                shaders,
            ) == want,
        forall|i: int, j: int|
            0 <= i < j < out.len() ==> spec_draw_order(geoms, out[i], out[j]),
        forall|g: int|
            0 <= g < geoms.len() && spec_geom_transparent(#[trigger] geoms[g], shaders) == want
                ==> out.contains(g as usize),
{
    broadcast use vstd::seq_lib::group_to_multiset_ensures;

    let n = geoms.len() as int;
    let pairs = spec_filter_pairs(geoms, shaders, want, n);
    lemma_filter_pairs_props(geoms, shaders, want, n);
    assert(pairs.no_duplicates()) by {
        assert forall|i: int, j: int|
            0 <= i < pairs.len() && 0 <= j < pairs.len() && i != j implies pairs[i]
            != pairs[j] by {
            if i < j {
                assert(pairs[i].1 < pairs[j].1);
            } else {
                assert(pairs[j].1 < pairs[i].1);
            }
        }
    }
    pairs.lemma_multiset_has_no_duplicates();
    assert(forall|x: (u64, usize)|
        sorted.to_multiset().contains(x) ==> #[trigger] sorted.to_multiset().count(x) == 1);
    sorted.lemma_multiset_has_no_duplicates_conv();
    let ghost leq = |a: (u64, usize), b: (u64, usize)| crate::order::spec_asc_leq(a, b);
    assert(sorted_by(sorted, leq));
    assert forall|i: int| 0 <= i < out.len() implies (#[trigger] out[i]) < geoms.len()
        && spec_geom_transparent(geoms[out[i] as int], shaders) == want by {
        assert(sorted.contains(sorted[i]));
        lemma_same_multiset_contains(sorted, pairs, sorted[i]);
        let w = choose|w: int| 0 <= w < pairs.len() && pairs[w] == sorted[i];
        assert(pairs[w].1 < n);
    }
    assert forall|i: int, j: int| 0 <= i < j < out.len() implies spec_draw_order(
        geoms,
        out[i],
        out[j],
    ) by {
        assert(leq(sorted[i], sorted[j]));
        assert(crate::order::spec_asc_leq(sorted[i], sorted[j]));
        assert(sorted[i] != sorted[j]);
        assert(sorted.contains(sorted[i]));
        lemma_same_multiset_contains(sorted, pairs, sorted[i]);
        let wi = choose|w: int| 0 <= w < pairs.len() && pairs[w] == sorted[i];
        assert(sorted.contains(sorted[j]));
        lemma_same_multiset_contains(sorted, pairs, sorted[j]);
        let wj = choose|w: int| 0 <= w < pairs.len() && pairs[w] == sorted[j];
        assert(sorted[i].0 == geoms[sorted[i].1 as int].shader_index as u64);
        assert(sorted[j].0 == geoms[sorted[j].1 as int].shader_index as u64);
    }
    assert forall|g: int|
        0 <= g < geoms.len() && spec_geom_transparent(#[trigger] geoms[g], shaders) == want
        implies out.contains(g as usize) by {
        let x = (geoms[g].shader_index as u64, g as usize);
        assert(pairs.contains(x));
        lemma_same_multiset_contains(pairs, sorted, x);
        let w = choose|w: int| 0 <= w < sorted.len() && sorted[w] == x;
        assert(out[w] == x.1);
        assert(out.contains(g as usize));
    }
}

/// The draw order among two instances of one list: strictly earlier shader
/// identity, or the same shader with the earlier instance first.  Shader
/// identity is the interned registry position, so instances of one shader
/// are always grouped consecutively; the order of the groups among each
/// other follows registry insertion order, which the grouping's purpose
/// (sharing bound state between consecutive draws) does not constrain.
pub open spec fn spec_draw_order(geoms: Seq<BSPGeometry>, a: usize, b: usize) -> bool {
    geoms[a as int].shader_index < geoms[b as int].shader_index || (geoms[a as int].shader_index
        == geoms[b as int].shader_index && a < b)
}

/// A loaded level resource.
pub struct BSP {
    /// The flattened geometry instances.
    pub geometries: Vec<BSPGeometry>,
    /// The spatial partition.
    pub bsp_data: BSPData,
    /// Indices of the opaque instances, grouped by shader identity.
    pub opaque_geometries: Vec<usize>,
    /// Indices of the transparent instances, grouped by shader identity.
    pub transparent_geometries: Vec<usize>,
    /// Draw distance derived from the level's extents.
    pub draw_distance: u32,
}

impl BSP {
    /// The two draw-order lists partition the instance set: each list holds
    /// only instances of its transparency class, in shader-grouped stable
    /// order with no duplicates, every instance appears in its class's
    /// list, and the lists' lengths sum to the instance count.
    pub open spec fn wf(&self, shaders: Seq<(Seq<char>, Shader)>) -> bool {
        let geoms = self.geometries@;
        let op = self.opaque_geometries@;
        let tp = self.transparent_geometries@;
        &&& forall|i: int|
            0 <= i < geoms.len() ==> (#[trigger] geoms[i]).shader_index < shaders.len()
        &&& forall|i: int|
            0 <= i < op.len() ==> (#[trigger] op[i]) < geoms.len() && !spec_geom_transparent(
                geoms[op[i] as int],
                shaders,
            )
        &&& forall|i: int|
            0 <= i < tp.len() ==> (#[trigger] tp[i]) < geoms.len() && spec_geom_transparent(
                geoms[tp[i] as int],
                shaders,
            )
        &&& forall|i: int, j: int| 0 <= i < j < op.len() ==> spec_draw_order(geoms, op[i], op[j])
        &&& forall|i: int, j: int| 0 <= i < j < tp.len() ==> spec_draw_order(geoms, tp[i], tp[j])
        &&& forall|g: int|
            0 <= g < geoms.len() && !spec_geom_transparent(#[trigger] geoms[g], shaders)
                ==> op.contains(g as usize)
        &&& forall|g: int|
            0 <= g < geoms.len() && spec_geom_transparent(#[trigger] geoms[g], shaders)
                ==> tp.contains(g as usize)
        &&& op.len() + tp.len() == geoms.len()
    }
}

/// Every instance built from materials whose shaders are loaded carries an
/// in-range shader identity.
proof fn lemma_mats_geoms_shader_bounds(
    mats: Seq<AddBSPParameterLightmapMaterial>,
    si: int,
    mi0: int,
    set_lightmap: Option<usize>,
    v0: int,
    i0: int,
    shaders: Seq<(Seq<char>, Shader)>,
)
    requires
        forall|m: int|
            0 <= m < mats.len() ==> spec_contains_key(shaders, (#[trigger] mats[m]).shader@),
    ensures
        forall|i: int|
            0 <= i < spec_mats_geoms(mats, si, mi0, set_lightmap, v0, i0, shaders).len()
                ==> (#[trigger] spec_mats_geoms(mats, si, mi0, set_lightmap, v0, i0, shaders)[i])
                .shader_index < shaders.len(),
    decreases mats.len(),
{
    if mats.len() > 0 {
        let last = mats.last();
        assert(mats[mats.len() - 1] == last);
        crate::keymap::lemma_index_of_in_range(shaders, last.shader@);
        assert(forall|m: int|
            0 <= m < mats.drop_last().len() ==> #[trigger] mats.drop_last()[m] == mats[m]);
        lemma_mats_geoms_shader_bounds(
            mats.drop_last(),
            si,
            mi0,
            set_lightmap,
            v0,
            i0,
            shaders,
        );
    }
}

/// Every instance of a level whose shader references are loaded carries an
/// in-range shader identity.
proof fn lemma_sets_geoms_shader_bounds(
    sets: Seq<AddBSPParameterLightmapSet>,
    si0: int,
    v0: int,
    i0: int,
    shaders: Seq<(Seq<char>, Shader)>,
)
    requires
        spec_sets_shaders_ok(sets, shaders),
    ensures
        forall|i: int|
            0 <= i < spec_sets_geoms(sets, si0, v0, i0, shaders).len()
                ==> (#[trigger] spec_sets_geoms(sets, si0, v0, i0, shaders)[i]).shader_index
                < shaders.len(),
    decreases sets.len(),
{
    if sets.len() > 0 {
        let last = sets.last();
        assert(sets[sets.len() - 1] == last);
        assert(forall|m: int|
            0 <= m < last.materials@.len() ==> spec_contains_key(
                shaders,
                (#[trigger] last.materials@[m]).shader@,
            ));
        lemma_mats_geoms_shader_bounds(
            last.materials@,
            si0 + sets.len() - 1,
            0,
            last.lightmap_index,
            v0 + spec_sets_vcount(sets.drop_last()),
            i0 + spec_sets_icount(sets.drop_last()),
            shaders,
        );
        assert(spec_sets_shaders_ok(sets.drop_last(), shaders)) by {
            assert(forall|s: int|
                0 <= s < sets.drop_last().len() ==> #[trigger] sets.drop_last()[s] == sets[s]);
        }
        lemma_sets_geoms_shader_bounds(sets.drop_last(), si0, v0, i0, shaders);
    }
}

impl BSP {
    /// Build a level resource from validated parameters: flatten the
    /// lightmap sets into geometry instances with interned shader
    /// identities and running buffer offsets, derive the draw distance from
    /// the level's extents, and split the instances once into the opaque
    /// and transparent draw-order lists, each grouped by shader identity.
    pub fn load_from_parameters(parameter: AddBSPParameter, shaders: &KeyMap<Shader>) -> (r: BSP)
        requires
            shaders.wf(),
            parameter.shaders_ok(shaders@),
            parameter.counts_ok(),
        ensures
            r.geometries@ == spec_sets_geoms(parameter.lightmap_sets@, 0, 0, 0, shaders@),
            r.draw_distance == spec_draw_distance(spec_sets_positions(parameter.lightmap_sets@)),
            r.bsp_data == parameter.bsp_data,
            r.wf(shaders@),
    {
        let positions = parameter.collect_positions();
        let draw_distance = compute_draw_distance(&positions);

        let ghost allsets = parameter.lightmap_sets@;
        let mut geometries: Vec<BSPGeometry> = Vec::new();
        let mut voff: i32 = 0;
        let mut ioff: u32 = 0;
        let sn = parameter.lightmap_sets.len();
        let mut s: usize = 0;
        proof {
            assert(geometries@ =~= spec_sets_geoms(allsets.subrange(0, 0), 0, 0, 0, shaders@));
            assert(spec_sets_vcount(allsets.subrange(0, 0)) == 0);
            assert(spec_sets_icount(allsets.subrange(0, 0)) == 0);
        }
        while s < sn
            invariant
                sn == allsets.len(),
                allsets == parameter.lightmap_sets@,
                s <= sn,
                shaders.wf(),
                spec_sets_shaders_ok(allsets, shaders@),
                spec_sets_vcount(allsets) <= i32::MAX,
                spec_sets_icount(allsets) <= u32::MAX,
                geometries@ == spec_sets_geoms(allsets.subrange(0, s as int), 0, 0, 0, shaders@),
                voff == spec_sets_vcount(allsets.subrange(0, s as int)),
                ioff == spec_sets_icount(allsets.subrange(0, s as int)),
            decreases sn - s,
        {
            let mats = &parameter.lightmap_sets[s].materials;
            let set_lightmap = parameter.lightmap_sets[s].lightmap_index;
            let mn = mats.len();
            let mut m: usize = 0;
            let ghost vstart = voff as int;
            let ghost istart = ioff as int;
            let ghost geoms_start = geometries@;
            proof {
                assert(spec_mats_geoms(
                    mats@.subrange(0, 0),
                    s as int,
                    0,
                    set_lightmap,
                    vstart,
                    istart,
                    shaders@,
                ) =~= Seq::<BSPGeometry>::empty());
                assert(spec_mats_vcount(mats@.subrange(0, 0)) == 0);
                assert(spec_mats_icount(mats@.subrange(0, 0)) == 0);
            }
            while m < mn
                invariant
                    sn == allsets.len(),
                    allsets == parameter.lightmap_sets@,
                    s < sn,
                    mn == mats@.len(),
                    mats@ == allsets[s as int].materials@,
                    set_lightmap == allsets[s as int].lightmap_index,
                    m <= mn,
                    shaders.wf(),
                    spec_sets_shaders_ok(allsets, shaders@),
                    spec_sets_vcount(allsets) <= i32::MAX,
                    spec_sets_icount(allsets) <= u32::MAX,
                    vstart == spec_sets_vcount(allsets.subrange(0, s as int)),
                    istart == spec_sets_icount(allsets.subrange(0, s as int)),
                    geoms_start == spec_sets_geoms(
                        allsets.subrange(0, s as int),
                        0,
                        0,
                        0,
                        shaders@,
                    ),
                    geometries@ == geoms_start + spec_mats_geoms(
                        mats@.subrange(0, m as int),
                        s as int,
                        0,
                        set_lightmap,
                        vstart,
                        istart,
                        shaders@,
                    ),
                    voff == vstart + spec_mats_vcount(mats@.subrange(0, m as int)),
                    ioff == istart + spec_mats_icount(mats@.subrange(0, m as int)),
                decreases mn - m,
            {
                let mat = &mats[m];
                proof {
                    lemma_count_exceeds(allsets, s as int, m as int);
                    lemma_counts_nonneg(allsets.subrange(0, s as int));
                    lemma_mats_counts_nonneg(mats@.subrange(0, m as int));
                }
                let shader_index = match shaders.index_of(&mat.shader) {
                    Some(i) => i,
                    None => {
                        proof {
                            assert(false);
                        }
                        0
                    },
                };
                let vlen = mat.shader_vertices.len();
                let icount = 3u64 * (mat.surfaces.len() as u64);
                let lightmap_index = match &mat.lightmap_vertices {
                    Option::Some(_) => set_lightmap,
                    Option::None => None,
                };
                let geom = BSPGeometry {
                    shader_index,
                    lightmap_index,
                    centroid: mat.centroid,
                    offset: VertexOffsets {
                        index_count: icount as u32,
                        vertex_offset: voff,
                        index_offset: ioff,
                    },
                    material_reflexive_index: m,
                    lightmap_reflexive_index: s,
                };
                geometries.push(geom);
                proof {
                    assert(geom == spec_geom(
                        mats@[m as int],
                        s as int,
                        m as int,
                        set_lightmap,
                        vstart + spec_mats_vcount(mats@.subrange(0, m as int)),
                        istart + spec_mats_icount(mats@.subrange(0, m as int)),
                        shaders@,
                    ));
                    assert(mats@.subrange(0, m as int + 1).drop_last() =~= mats@.subrange(
                        0,
                        m as int,
                    ));
                    assert(mats@.subrange(0, m as int + 1).last() == mats@[m as int]);
                    lemma_prefix_counts(mats@, m as int + 1);
                }
                voff = voff + (vlen as i32);
                ioff = ioff + (icount as u32);
                m = m + 1;
            }
            proof {
                assert(mats@.subrange(0, mn as int) =~= mats@);
                assert(allsets.subrange(0, s as int + 1).drop_last() =~= allsets.subrange(
                    0,
                    s as int,
                ));
                assert(allsets.subrange(0, s as int + 1).last() == allsets[s as int]);
                lemma_set_prefix_counts(allsets, s as int + 1);
            }
            s = s + 1;
        }
        proof {
            assert(allsets.subrange(0, sn as int) =~= allsets);
        }

        let ghost all_geoms = geometries@;
        let n = geometries.len();
        proof {
            lemma_sets_geoms_shader_bounds(allsets, 0, 0, 0, shaders@);
        }
        let mut opaque_pairs: Vec<(u64, usize)> = Vec::new();
        let mut transparent_pairs: Vec<(u64, usize)> = Vec::new();
        let mut g: usize = 0;
        while g < n
            invariant
                n == all_geoms.len(),
                all_geoms == geometries@,
                g <= n,
                forall|i: int|
                    0 <= i < all_geoms.len() ==> (#[trigger] all_geoms[i]).shader_index
                        < shaders@.len(),
                opaque_pairs@ == spec_filter_pairs(all_geoms, shaders@, false, g as int),
                transparent_pairs@ == spec_filter_pairs(all_geoms, shaders@, true, g as int),
            decreases n - g,
        {
            let shader_index = geometries[g].shader_index;
            let shader = shaders.value_at(shader_index);
            if shader.material.is_transparent() {
                transparent_pairs.push((shader_index as u64, g));
            } else {
                opaque_pairs.push((shader_index as u64, g));
            }
            g = g + 1;
        }
        proof {
            lemma_filter_pairs_props(all_geoms, shaders@, true, n as int);
        }
        let sorted_opaque = crate::order::sort_pairs_asc(opaque_pairs);
        let sorted_transparent = crate::order::sort_pairs_asc(transparent_pairs);
        let mut opaque_geometries: Vec<usize> = Vec::new();
        let mut i: usize = 0;
        let om = sorted_opaque.len();
        while i < om
            invariant
                om == sorted_opaque@.len(),
                i <= om,
                opaque_geometries@.len() == i,
                forall|j: int|
                    0 <= j < i ==> opaque_geometries@[j] == (#[trigger] sorted_opaque@[j]).1,
            decreases om - i,
        {
            opaque_geometries.push(sorted_opaque[i].1);
            i = i + 1;
        }
        let mut transparent_geometries: Vec<usize> = Vec::new();
        let mut k: usize = 0;
        let tm = sorted_transparent.len();
        while k < tm
            invariant
                tm == sorted_transparent@.len(),
                k <= tm,
                transparent_geometries@.len() == k,
                forall|j: int|
                    0 <= j < k ==> transparent_geometries@[j] == (
                    #[trigger] sorted_transparent@[j]).1,
            decreases tm - k,
        {
            transparent_geometries.push(sorted_transparent[k].1);
            k = k + 1;
        }
        proof {
            lemma_list_from_sorted(
                all_geoms,
                shaders@,
                false,
                sorted_opaque@,
                opaque_geometries@,
            );
            lemma_list_from_sorted(
                all_geoms,
                shaders@,
                true,
                sorted_transparent@,
                transparent_geometries@,
            );
        }
        BSP {
            geometries,
            bsp_data: parameter.bsp_data,
            opaque_geometries,
            transparent_geometries,
            draw_distance,
        }
    }
}

/// The opaque and transparent index lists of a well-formed level partition
/// its geometry instances exactly: every instance index is in the list of
/// its own transparency class and in no other, and each list is grouped by
/// shader identity.
pub proof fn lemma_draw_lists_partition(bsp: &BSP, shaders: Seq<(Seq<char>, Shader)>)
    requires
        bsp.wf(shaders),
    ensures
        forall|g: int|
            0 <= g < bsp.geometries@.len() ==> (bsp.opaque_geometries@.contains(g as usize)
                <==> !spec_geom_transparent(#[trigger] bsp.geometries@[g], shaders)),
        forall|g: int|
            0 <= g < bsp.geometries@.len() ==> (bsp.transparent_geometries@.contains(g as usize)
                <==> spec_geom_transparent(#[trigger] bsp.geometries@[g], shaders)),
        forall|g: int|
            0 <= g < bsp.geometries@.len() ==> !(#[trigger] bsp.opaque_geometries@.contains(
                g as usize,
            ) && bsp.transparent_geometries@.contains(g as usize)),
{
    let geoms = bsp.geometries@;
    let op = bsp.opaque_geometries@;
    let tp = bsp.transparent_geometries@;
    assert forall|g: int| 0 <= g < geoms.len() implies (op.contains(g as usize)
        <==> !spec_geom_transparent(#[trigger] geoms[g], shaders)) by {
        if op.contains(g as usize) {
            let w = choose|w: int| 0 <= w < op.len() && op[w] == g as usize;
            assert(!spec_geom_transparent(geoms[op[w] as int], shaders));
        }
    }
    assert forall|g: int| 0 <= g < geoms.len() implies (tp.contains(g as usize)
        <==> spec_geom_transparent(#[trigger] geoms[g], shaders)) by {
        if tp.contains(g as usize) {
            let w = choose|w: int| 0 <= w < tp.len() && tp[w] == g as usize;
            assert(spec_geom_transparent(geoms[tp[w] as int], shaders));
        }
    }
}

/// One geometry instance of a level: its interned shader, optional
/// lightmap, sorting centroid and slice of the shared buffers.
#[derive(Clone, Copy, Debug)]
pub struct BSPGeometry {
    /// Position of the instance's shader in the shader registry; the
    /// instance's shader identity.  The registry never replaces or removes
    /// a single entry, so this position is stable, and the draw-order
    /// lists group and order instances by it.
    pub shader_index: usize,
    /// Lightmap page the instance is lit by, if it has lightmap vertices.
    pub lightmap_index: Option<usize>,
    /// Center used for back-to-front sorting.
    pub centroid: FixedVec3,
    /// The instance's slice of the shared vertex and index buffers.
    pub offset: VertexOffsets,
    /// Position of the instance's material within its lightmap set.
    pub material_reflexive_index: usize,
    /// Position of the instance's lightmap set within the level.
    pub lightmap_reflexive_index: usize,
}

/// The geometry instance a material run turns into.
pub open spec fn spec_geom(
    m: AddBSPParameterLightmapMaterial,
    si: int,
    mi: int,
    set_lightmap: Option<usize>,
    voff: int,
    ioff: int,
    shaders: Seq<(Seq<char>, Shader)>,
) -> BSPGeometry {
    BSPGeometry {
        shader_index: spec_index_of(shaders, m.shader@) as usize,
        lightmap_index: if m.lightmap_vertices is Some {
            set_lightmap
        } else {
            Option::<usize>::None
        },
        centroid: m.centroid,
        offset: VertexOffsets {
            index_count: (3 * m.surfaces@.len()) as u32,
            vertex_offset: voff as i32,
            index_offset: ioff as u32,
        },
        material_reflexive_index: mi as usize,
        lightmap_reflexive_index: si as usize,
    }
}

/// The geometry instances of a run of materials: each instance's buffer
/// offsets advance by the totals of the materials before it.
pub open spec fn spec_mats_geoms(
    mats: Seq<AddBSPParameterLightmapMaterial>,
    si: int,
    mi: int,
    set_lightmap: Option<usize>,
    voff: int,
    ioff: int,
    shaders: Seq<(Seq<char>, Shader)>,
) -> Seq<BSPGeometry>
    decreases mats.len(),
{
    if mats.len() == 0 {
        Seq::empty()
    } else {
        spec_mats_geoms(mats.drop_last(), si, mi, set_lightmap, voff, ioff, shaders).push(
            spec_geom(
                mats.last(),
                si,
                mi + mats.len() - 1,
                set_lightmap,
                voff + spec_mats_vcount(mats.drop_last()),
                ioff + spec_mats_icount(mats.drop_last()),
                shaders,
            ),
        )
    }
}

/// The geometry instances of a run of lightmap sets.
pub open spec fn spec_sets_geoms(
    sets: Seq<AddBSPParameterLightmapSet>,
    si: int,
    voff: int,
    ioff: int,
    shaders: Seq<(Seq<char>, Shader)>,
) -> Seq<BSPGeometry>
    decreases sets.len(),
{
    if sets.len() == 0 {
        Seq::empty()
    } else {
        spec_sets_geoms(sets.drop_last(), si, voff, ioff, shaders) + spec_mats_geoms(
            sets.last().materials@,
            si + sets.len() - 1,
            0,
            sets.last().lightmap_index,
            voff + spec_sets_vcount(sets.drop_last()),
            ioff + spec_sets_icount(sets.drop_last()),
            shaders,
        )
    }
}

/// A material-count prefix extends by its last element.
proof fn lemma_prefix_counts(mats: Seq<AddBSPParameterLightmapMaterial>, n: int)
    requires
        0 < n <= mats.len(),
    ensures
        spec_mats_vcount(mats.subrange(0, n)) == spec_mats_vcount(mats.subrange(0, n - 1))
            + mats[n - 1].shader_vertices@.len(),
        spec_mats_icount(mats.subrange(0, n)) == spec_mats_icount(mats.subrange(0, n - 1))
            + 3 * mats[n - 1].surfaces@.len(),
    decreases n,
{
    if n == 1 {
        assert(mats.subrange(0, 1).drop_first() =~= mats.subrange(0, 0));
        assert(mats.subrange(0, 0).len() == 0);
    } else {
        lemma_prefix_counts(mats.drop_first(), n - 1);
        assert(mats.subrange(0, n).drop_first() =~= mats.drop_first().subrange(0, n - 1));
        assert(mats.subrange(0, n - 1).drop_first() =~= mats.drop_first().subrange(0, n - 2));
        assert(mats.drop_first()[n - 2] == mats[n - 1]);
    }
}

/// A set-count prefix extends by its last element.
proof fn lemma_set_prefix_counts(sets: Seq<AddBSPParameterLightmapSet>, n: int)
    requires
        0 < n <= sets.len(),
    ensures
        spec_sets_vcount(sets.subrange(0, n)) == spec_sets_vcount(sets.subrange(0, n - 1))
            + spec_mats_vcount(sets[n - 1].materials@),
        spec_sets_icount(sets.subrange(0, n)) == spec_sets_icount(sets.subrange(0, n - 1))
            + spec_mats_icount(sets[n - 1].materials@),
    decreases n,
{
    if n == 1 {
        assert(sets.subrange(0, 1).drop_first() =~= sets.subrange(0, 0));
        assert(sets.subrange(0, 0).len() == 0);
    } else {
        lemma_set_prefix_counts(sets.drop_first(), n - 1);
        assert(sets.subrange(0, n).drop_first() =~= sets.drop_first().subrange(0, n - 1));
        assert(sets.subrange(0, n - 1).drop_first() =~= sets.drop_first().subrange(0, n - 2));
        assert(sets.drop_first()[n - 2] == sets[n - 1]);
    }
}

} // verus!
