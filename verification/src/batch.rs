//! Material-keyed mesh batching: every node that carries both a mesh and a
//! material has its vertices transformed into world space and appended, with
//! index-shifted indices, into one growing buffer per distinct material. One
//! draw call per material then replaces one per node. Nodes whose mesh
//! carries no material stay out of every bucket and keep their own draw
//! call.

use vstd::prelude::*;

use crate::math::{mat4_applied, mat4_is_identity, rotation_part_of};
use crate::scene::{wf_mesh, wf_meshes, wf_scene, Mesh, Scene, SceneObject, Vertex};
use crate::load::SceneError;

verus! {

/// A merged per-material buffer: world-space vertices and locally valid,
/// offset-shifted indices. The material reference of a batch is never
/// absent, so it is a plain value here.
pub struct BatchedMesh {
    pub material: u32,
    pub vertices: Vec<Vertex>,
    pub indices: Vec<u32>,
}

/// A node takes part in batching when it has a mesh and that mesh has a
/// material.
pub open spec fn batchable(o: SceneObject, meshes: Seq<Mesh>) -> bool {
    match o.mesh {
        Option::Some(h) => (h as int) < meshes.len() && meshes[h as int].material is Some,
        Option::None => false,
    }
}

/// The material of a batchable node.
pub open spec fn node_material(o: SceneObject, meshes: Seq<Mesh>) -> u32
    recommends
        batchable(o, meshes),
{
    meshes[o.mesh->Some_0 as int].material->Some_0
}

/// One vertex carried into world space: the position by the node's world
/// transform; the normal and tangent, being direction vectors, by its
/// rotation component alone — translation cannot affect a direction, and
/// discarding scale is the documented, deliberately approximate treatment
/// of non-uniform scale. Color and texture coordinates pass through.
pub open spec fn transformed_vertex(world: glam::Mat4, rot: glam::Mat4, v: Vertex) -> Vertex {
    Vertex {
        pos: mat4_applied(world, v.pos),
        color: v.color,
        uv: v.uv,
        normal: mat4_applied(rot, v.normal),
        tangent: mat4_applied(rot, v.tangent),
    }
}

/// A vertex list carried into world space.
pub open spec fn transformed_vertices(world: glam::Mat4, vs: Seq<Vertex>) -> Seq<Vertex> {
    vs.map_values(|v: Vertex| transformed_vertex(world, rotation_part_of(world), v))
}

/// Indices shifted by the vertex count already in the bucket, so they stay
/// locally valid after concatenation.
pub open spec fn shifted_indices(indices: Seq<u32>, offset: int) -> Seq<u32> {
    indices.map_values(|x: u32| (x + offset) as u32)
}

/// The distinct materials of the batchable nodes, in order of first
/// appearance: one bucket each.
pub open spec fn bucket_materials(objs: Seq<SceneObject>, meshes: Seq<Mesh>) -> Seq<u32>
    decreases objs.len(),
{
    if objs.len() == 0 {
        Seq::empty()
    } else {
        let prev = bucket_materials(objs.drop_last(), meshes);
        let o = objs.last();
        if batchable(o, meshes) && !prev.contains(node_material(o, meshes)) {
            prev.push(node_material(o, meshes))
        } else {
            prev
        }
    }
}

/// The vertices of the bucket for material `m`: the world-space vertices of
/// every batchable node with that material, concatenated in node order.
pub open spec fn bucket_vertices(objs: Seq<SceneObject>, meshes: Seq<Mesh>, m: u32) -> Seq<Vertex>
    decreases objs.len(),
{
    if objs.len() == 0 {
        Seq::empty()
    } else {
        let prev = bucket_vertices(objs.drop_last(), meshes, m);
        let o = objs.last();
        if batchable(o, meshes) && node_material(o, meshes) == m {
            prev + transformed_vertices(
                o.world_transform,
                meshes[o.mesh->Some_0 as int].vertices@,
            )
        } else {
            prev
        }
    }
}

/// The indices of the bucket for material `m`: each contributing mesh's
/// indices shifted by the bucket's vertex count at the moment it was
/// appended.
pub open spec fn bucket_indices(objs: Seq<SceneObject>, meshes: Seq<Mesh>, m: u32) -> Seq<u32>
    decreases objs.len(),
{
    if objs.len() == 0 {
        Seq::empty()
    } else {
        let prev = bucket_indices(objs.drop_last(), meshes, m);
        let o = objs.last();
        if batchable(o, meshes) && node_material(o, meshes) == m {
            prev + shifted_indices(
                meshes[o.mesh->Some_0 as int].indices@,
                bucket_vertices(objs.drop_last(), meshes, m).len() as int,
            )
        } else {
            prev
        }
    }
}

/// How many vertices the batchable nodes with material `m` contribute in
/// total.
pub open spec fn material_vertex_total(objs: Seq<SceneObject>, meshes: Seq<Mesh>, m: u32) -> nat
    decreases objs.len(),
{
    if objs.len() == 0 {
        0
    } else {
        let prev = material_vertex_total(objs.drop_last(), meshes, m);
        let o = objs.last();
        if batchable(o, meshes) && node_material(o, meshes) == m {
            prev + meshes[o.mesh->Some_0 as int].vertices@.len()
        } else {
            prev
        }
    }
}

/// How many indices the batchable nodes with material `m` contribute in
/// total.
pub open spec fn material_index_total(objs: Seq<SceneObject>, meshes: Seq<Mesh>, m: u32) -> nat
    decreases objs.len(),
{
    if objs.len() == 0 {
        0
    } else {
        let prev = material_index_total(objs.drop_last(), meshes, m);
        let o = objs.last();
        if batchable(o, meshes) && node_material(o, meshes) == m {
            prev + meshes[o.mesh->Some_0 as int].indices@.len()
        } else {
            prev
        }
    }
}

/// Batching preserves vertex counts: the bucket for `m` holds exactly as
/// many vertices as the nodes of that material contribute together.
pub proof fn lemma_batch_preserves_vertex_count(objs: Seq<SceneObject>, meshes: Seq<Mesh>, m: u32)
    ensures
        bucket_vertices(objs, meshes, m).len() == material_vertex_total(objs, meshes, m),
    decreases objs.len(),
{
    if objs.len() > 0 {
        lemma_batch_preserves_vertex_count(objs.drop_last(), meshes, m);
    }
}

/// Round trip: summing index counts back per material recovers the
/// per-material totals of the un-batched scene. (With three indices to the
/// triangle, the bucket for two nodes of `n1` and `n2` triangles holds
/// exactly `3 * (n1 + n2)` indices.)
pub proof fn lemma_batch_round_trip(objs: Seq<SceneObject>, meshes: Seq<Mesh>, m: u32)
    ensures
        bucket_indices(objs, meshes, m).len() == material_index_total(objs, meshes, m),
    decreases objs.len(),
{
    if objs.len() > 0 {
        lemma_batch_round_trip(objs.drop_last(), meshes, m);
    }
}

/// Every index of a well-formed scene's bucket points at one of the
/// bucket's own vertices: index shifting keeps indices locally valid, and in
/// particular the maximum index stays below the vertex count.
pub proof fn lemma_batched_indices_in_range(objs: Seq<SceneObject>, meshes: Seq<Mesh>, m: u32)
    requires
        wf_meshes(meshes),
    ensures
        forall|k: int|
            0 <= k < bucket_indices(objs, meshes, m).len() ==> (#[trigger] bucket_indices(
                objs,
                meshes,
                m,
            )[k] as int) < bucket_vertices(objs, meshes, m).len(),
    decreases objs.len(),
{
    if objs.len() > 0 {
        let prevo = objs.drop_last();
        lemma_batched_indices_in_range(prevo, meshes, m);
        let o = objs.last();
        if batchable(o, meshes) && node_material(o, meshes) == m {
            let mesh = meshes[o.mesh->Some_0 as int];
            let off = bucket_vertices(prevo, meshes, m).len() as int;
            let shifted = shifted_indices(mesh.indices@, off);
            assert(wf_mesh(mesh));
            assert forall|k: int|
                0 <= k < bucket_indices(objs, meshes, m).len() implies (#[trigger] bucket_indices(
                objs,
                meshes,
                m,
            )[k] as int) < bucket_vertices(objs, meshes, m).len() by {
                let prev = bucket_indices(prevo, meshes, m);
                if k < prev.len() {
                    assert(bucket_indices(objs, meshes, m)[k] == prev[k]);
                } else {
                    let k2 = k - prev.len();
                    assert(bucket_indices(objs, meshes, m)[k] == shifted[k2]);
                    assert((mesh.indices@[k2] as int) < mesh.vertices@.len());
                    assert(bucket_vertices(objs, meshes, m).len() == off + mesh.vertices@.len());
                    if mesh.indices@[k2] + off <= u32::MAX {
                        assert(shifted[k2] == mesh.indices@[k2] + off);
                    } else {
                        assert((shifted[k2] as int) < 0x1_0000_0000);
                        assert(bucket_vertices(objs, meshes, m).len() >= 0x1_0000_0000);
                    }
                }
            }
        } else {
            assert(bucket_indices(objs, meshes, m) == bucket_indices(prevo, meshes, m));
            assert(bucket_vertices(objs, meshes, m) == bucket_vertices(prevo, meshes, m));
        }
    }
}

/// A material no batchable node carries gets no bucket: its material never
/// appears in the bucket list and its would-be buffers stay empty.
pub proof fn lemma_no_material_no_bucket(objs: Seq<SceneObject>, meshes: Seq<Mesh>, m: u32)
    requires
        forall|i: int|
            0 <= i < objs.len() ==> !(batchable(#[trigger] objs[i], meshes) && node_material(
                objs[i],
                meshes,
            ) == m),
    ensures
        !bucket_materials(objs, meshes).contains(m),
        bucket_vertices(objs, meshes, m).len() == 0,
        bucket_indices(objs, meshes, m).len() == 0,
    decreases objs.len(),
{
    if objs.len() > 0 {
        assert(objs.last() == objs[objs.len() - 1]);
        assert(forall|i: int|
            0 <= i < objs.drop_last().len() ==> objs.drop_last()[i] == objs[i]);
        lemma_no_material_no_bucket(objs.drop_last(), meshes, m);
        assert(!bucket_materials(objs, meshes).contains(m));
    }
}

/// The bucket list never holds one material twice.
pub proof fn lemma_bucket_materials_distinct(objs: Seq<SceneObject>, meshes: Seq<Mesh>)
    ensures
        forall|b1: int, b2: int|
            0 <= b1 < bucket_materials(objs, meshes).len() && 0 <= b2 < bucket_materials(
                objs,
                meshes,
            ).len() && b1 != b2 ==> #[trigger] bucket_materials(objs, meshes)[b1]
                != #[trigger] bucket_materials(objs, meshes)[b2],
    decreases objs.len(),
{
    if objs.len() > 0 {
        lemma_bucket_materials_distinct(objs.drop_last(), meshes);
        let prev = bucket_materials(objs.drop_last(), meshes);
        let o = objs.last();
        if batchable(o, meshes) && !prev.contains(node_material(o, meshes)) {
            assert forall|b1: int, b2: int|
                0 <= b1 < bucket_materials(objs, meshes).len() && 0 <= b2 < bucket_materials(
                    objs,
                    meshes,
                ).len() && b1 != b2 implies #[trigger] bucket_materials(objs, meshes)[b1]
                != #[trigger] bucket_materials(objs, meshes)[b2] by {
                if b1 < prev.len() && b2 < prev.len() {
                } else if b1 < prev.len() {
                    assert(prev[b1] == prev[b1]);
                } else if b2 < prev.len() {
                    assert(prev[b2] == prev[b2]);
                }
            }
        }
    }
}

/// A bucket over a prefix of the node table never exceeds the bucket over
/// the whole table.
pub proof fn lemma_bucket_vertices_prefix(
    objs: Seq<SceneObject>,
    meshes: Seq<Mesh>,
    m: u32,
    k: int,
)
    requires
        0 <= k <= objs.len(),
    ensures
        bucket_vertices(objs.take(k), meshes, m).len() <= bucket_vertices(objs, meshes, m).len(),
    decreases objs.len() - k,
{
    if k == objs.len() {
        assert(objs.take(k) =~= objs);
    } else {
        assert(objs.take(k + 1).drop_last() =~= objs.take(k));
        assert(objs.take(k + 1).last() == objs[k]);
        lemma_bucket_vertices_prefix(objs, meshes, m, k + 1);
    }
}

/// A bucket's indices over a prefix of the node table never exceed the
/// bucket's indices over the whole table.
pub proof fn lemma_bucket_indices_prefix(objs: Seq<SceneObject>, meshes: Seq<Mesh>, m: u32, k: int)
    requires
        0 <= k <= objs.len(),
    ensures
        bucket_indices(objs.take(k), meshes, m).len() <= bucket_indices(objs, meshes, m).len(),
    decreases objs.len() - k,
{
    if k == objs.len() {
        assert(objs.take(k) =~= objs);
    } else {
        assert(objs.take(k + 1).drop_last() =~= objs.take(k));
        assert(objs.take(k + 1).last() == objs[k]);
        lemma_bucket_indices_prefix(objs, meshes, m, k + 1);
    }
}

/// The material of every batchable node stands in the bucket list.
pub proof fn lemma_material_listed(objs: Seq<SceneObject>, meshes: Seq<Mesh>, i: int)
    requires
        0 <= i < objs.len(),
        batchable(objs[i], meshes),
    ensures
        bucket_materials(objs, meshes).contains(node_material(objs[i], meshes)),
    decreases objs.len(),
{
    let m = node_material(objs[i], meshes);
    let prev = bucket_materials(objs.drop_last(), meshes);
    if i == objs.len() - 1 {
        assert(objs.last() == objs[i]);
        if !prev.contains(m) {
            let pushed = prev.push(m);
            assert(pushed[pushed.len() - 1] == m);
            assert(pushed.contains(m));
        }
    } else {
        assert(objs.drop_last()[i] == objs[i]);
        lemma_material_listed(objs.drop_last(), meshes, i);
        let idx = choose|idx: int| 0 <= idx < prev.len() && prev[idx] == m;
        let o = objs.last();
        if batchable(o, meshes) && !prev.contains(node_material(o, meshes)) {
            assert(prev.push(node_material(o, meshes))[idx] == m);
            assert(bucket_materials(objs, meshes).contains(m));
        } else {
            assert(bucket_materials(objs, meshes) == prev);
        }
    }
}

/// There are never more buckets than nodes: each bucket's material first
/// appeared on some node.
pub proof fn lemma_bucket_materials_bounded(objs: Seq<SceneObject>, meshes: Seq<Mesh>)
    ensures
        bucket_materials(objs, meshes).len() <= objs.len(),
    decreases objs.len(),
{
    if objs.len() > 0 {
        lemma_bucket_materials_bounded(objs.drop_last(), meshes);
    }
}

impl Scene {
    /// Merges the geometry of every batchable node into one buffer per
    /// distinct material: vertex positions carried into world space, normals
    /// and tangents rotated, indices shifted by the bucket's vertex count so
    /// they stay locally valid. Succeeds exactly when no bucket outgrows the
    /// 32-bit index range.
    #[verifier::loop_isolation(false)]
    pub fn batch_by_material(&self) -> (r: Result<Vec<BatchedMesh>, SceneError>)
        requires
            wf_scene(*self),
        ensures
            r is Ok <==> forall|b: int|
                0 <= b < bucket_materials(self.objects@, self.meshes@).len() ==> {
                    &&& bucket_vertices(
                        self.objects@,
                        self.meshes@,
                        #[trigger] bucket_materials(self.objects@, self.meshes@)[b],
                    ).len() <= u32::MAX
                    &&& bucket_indices(
                        self.objects@,
                        self.meshes@,
                        bucket_materials(self.objects@, self.meshes@)[b],
                    ).len() <= u32::MAX
                },
            match r {
                Result::Ok(batches) => {
                    &&& batches@.len() == bucket_materials(self.objects@, self.meshes@).len()
                    &&& forall|b: int|
                        0 <= b < batches@.len() ==> {
                            &&& (#[trigger] batches@[b]).material == bucket_materials(
                                self.objects@,
                                self.meshes@,
                            )[b]
                            &&& batches@[b].vertices@ == bucket_vertices(
                                self.objects@,
                                self.meshes@,
                                batches@[b].material,
                            )
                            &&& batches@[b].indices@ == bucket_indices(
                                self.objects@,
                                self.meshes@,
                                batches@[b].material,
                            )
                        }
                },
                Result::Err(e) => e == SceneError::TooManyVertices || e
                    == SceneError::TooManyIndices,
            },
    {
        let ghost full = self.objects@;
        let ghost meshseq = self.meshes@;
        let n = self.objects.len();
        let mut out: Vec<BatchedMesh> = Vec::new();
        let mut i: usize = 0;
        while i < n
            invariant
                out@.len() == bucket_materials(full.take(i as int), meshseq).len(),
                i <= n,
                forall|b2: int|
                    0 <= b2 < out@.len() ==> {
                        &&& (#[trigger] out@[b2]).material == bucket_materials(
                            full.take(i as int),
                            meshseq,
                        )[b2]
                        &&& out@[b2].vertices@ == bucket_vertices(
                            full.take(i as int),
                            meshseq,
                            out@[b2].material,
                        )
                        &&& out@[b2].indices@ == bucket_indices(
                            full.take(i as int),
                            meshseq,
                            out@[b2].material,
                        )
                        &&& out@[b2].vertices@.len() <= u32::MAX
                        &&& out@[b2].indices@.len() <= u32::MAX
                    },
            decreases n - i,
        {
            proof {
                assert(full.take(i as int + 1).drop_last() =~= full.take(i as int));
                assert(full.take(i as int + 1).last() == full[i as int]);
            }
            let o = &self.objects[i];
            let mut mat_found: Option<u32> = Option::None;
            match o.mesh {
                Option::None => {},
                Option::Some(h) => {
                    match self.meshes[h as usize].material {
                        Option::None => {},
                        Option::Some(mat) => {
                            mat_found = Option::Some(mat);
                        },
                    }
                },
            }
            match mat_found {
                Option::None => {
                    proof {
                        assert(!batchable(full[i as int], meshseq));
                    }
                },
                Option::Some(mat) => {
                    let h = o.mesh.unwrap();
                    let ghost prefix = full.take(i as int);
                    let ghost step = full.take(i as int + 1);
                    proof {
                        assert(batchable(full[i as int], meshseq));
                        assert(node_material(full[i as int], meshseq) == mat);
                        lemma_bucket_materials_distinct(prefix, meshseq);
                    }
                    // find this material's bucket, if one has started
                    let mut b: usize = 0;
                    while b < out.len() && out[b].material != mat
                        invariant
                            b <= out@.len(),
                            forall|b2: int| 0 <= b2 < b as int ==> out@[b2].material != mat,
                        decreases out@.len() - b,
                    {
                        b = b + 1;
                    }
                    if b == out.len() {
                        proof {
                            if bucket_materials(prefix, meshseq).contains(mat) {
                                let bi = choose|bi: int|
                                    0 <= bi < bucket_materials(prefix, meshseq).len()
                                        && bucket_materials(prefix, meshseq)[bi] == mat;
                                assert(out@[bi].material == mat);
                                assert(false);
                            }
                            assert forall|i2: int|
                                0 <= i2 < prefix.len() implies !(batchable(
                                #[trigger] prefix[i2],
                                meshseq,
                            ) && node_material(prefix[i2], meshseq) == mat) by {
                                if batchable(prefix[i2], meshseq) && node_material(
                                    prefix[i2],
                                    meshseq,
                                ) == mat {
                                    lemma_material_listed(prefix, meshseq, i2);
                                }
                            }
                            lemma_no_material_no_bucket(prefix, meshseq, mat);
                        }
                        out.push(
                            BatchedMesh { material: mat, vertices: Vec::new(), indices: Vec::new() },
                        );
                    }
                    proof {
                        assert(out@[b as int].material == mat);
                        // only bucket `b` carries this material
                        assert forall|b2: int|
                            0 <= b2 < out@.len() && b2 != b as int implies out@[b2].material
                            != mat by {}
                    }
                    let mesh = &self.meshes[h as usize];
                    let current = out[b].vertices.len();
                    if mesh.vertices.len() > u32::MAX as usize - current {
                        proof {
                            assert(bucket_vertices(step, meshseq, mat).len() == current
                                + meshseq[h as int].vertices@.len());
                            lemma_bucket_vertices_prefix(full, meshseq, mat, i as int + 1);
                            lemma_material_listed(full, meshseq, i as int);
                            let bi = choose|bi: int|
                                0 <= bi < bucket_materials(full, meshseq).len()
                                    && bucket_materials(full, meshseq)[bi] == mat;
                            assert(bucket_vertices(
                                full,
                                meshseq,
                                bucket_materials(full, meshseq)[bi],
                            ).len() > u32::MAX);
                        }
                        return Result::Err(SceneError::TooManyVertices);
                    }
                    let current_inds = out[b].indices.len();
                    if mesh.indices.len() > u32::MAX as usize - current_inds {
                        proof {
                            assert(bucket_indices(step, meshseq, mat).len() == current_inds
                                + meshseq[h as int].indices@.len());
                            lemma_bucket_indices_prefix(full, meshseq, mat, i as int + 1);
                            lemma_material_listed(full, meshseq, i as int);
                            let bi = choose|bi: int|
                                0 <= bi < bucket_materials(full, meshseq).len()
                                    && bucket_materials(full, meshseq)[bi] == mat;
                            assert(bucket_indices(
                                full,
                                meshseq,
                                bucket_materials(full, meshseq)[bi],
                            ).len() > u32::MAX);
                        }
                        return Result::Err(SceneError::TooManyIndices);
                    }
                    let offset: u32 = current as u32;
                    let world: glam::Mat4 = o.world_transform;
                    let rot: glam::Mat4 = crate::math::mat4_rotation_part(&world);

                    let mut tverts: Vec<Vertex> = Vec::new();
                    let mut vi: usize = 0;
                    while vi < mesh.vertices.len()
                        invariant
                            vi <= mesh.vertices@.len(),
                            tverts@ == transformed_vertices(world, mesh.vertices@.take(vi as int)),
                        decreases mesh.vertices@.len() - vi,
                    {
                        let v = mesh.vertices[vi];
                        let tv = Vertex {
                            pos: world.mul_vec4(v.pos),
                            color: v.color,
                            uv: v.uv,
                            normal: rot.mul_vec4(v.normal),
                            tangent: rot.mul_vec4(v.tangent),
                        };
                        tverts.push(tv);
                        proof {
                            assert(tverts@ =~= transformed_vertices(
                                world,
                                mesh.vertices@.take(vi as int + 1),
                            ));
                        }
                        vi = vi + 1;
                    }
                    proof {
                        assert(mesh.vertices@.take(mesh.vertices@.len() as int)
                            =~= mesh.vertices@);
                    }

                    let mut tinds: Vec<u32> = Vec::new();
                    let mut ii: usize = 0;
                    while ii < mesh.indices.len()
                        invariant
                            ii <= mesh.indices@.len(),
                            tinds@ == shifted_indices(mesh.indices@.take(ii as int), offset as int),
                        decreases mesh.indices@.len() - ii,
                    {
                        let idx = mesh.indices[ii];
                        proof {
                            assert(wf_mesh(meshseq[h as int]));
                            assert((meshseq[h as int].indices@[ii as int] as int)
                                < meshseq[h as int].vertices@.len());
                        }
                        let s = idx + offset;
                        tinds.push(s);
                        proof {
                            assert(tinds@ =~= shifted_indices(
                                mesh.indices@.take(ii as int + 1),
                                offset as int,
                            ));
                        }
                        ii = ii + 1;
                    }
                    proof {
                        assert(mesh.indices@.take(mesh.indices@.len() as int) =~= mesh.indices@);
                    }

                    let ghost pre_out = out@;
                    let bkt = &mut out[b];
                    bkt.vertices.append(&mut tverts);
                    bkt.indices.append(&mut tinds);
                    proof {
                        assert(out@ == pre_out.update(
                            b as int,
                            BatchedMesh {
                                material: mat,
                                vertices: out@[b as int].vertices,
                                indices: out@[b as int].indices,
                            },
                        ));
                        assert(out@[b as int].vertices@ == bucket_vertices(step, meshseq, mat));
                        assert(out@[b as int].indices@ == bucket_indices(step, meshseq, mat));
                        if !bucket_materials(prefix, meshseq).contains(mat) {
                            assert(bucket_materials(step, meshseq) == bucket_materials(
                                prefix,
                                meshseq,
                            ).push(mat));
                        } else {
                            assert(bucket_materials(step, meshseq) == bucket_materials(
                                prefix,
                                meshseq,
                            ));
                        }
                        assert forall|b2: int|
                            0 <= b2 < out@.len() && b2 != b as int implies {
                            &&& out@[b2].vertices@ == bucket_vertices(
                                step,
                                meshseq,
                                out@[b2].material,
                            )
                            &&& out@[b2].indices@ == bucket_indices(
                                step,
                                meshseq,
                                out@[b2].material,
                            )
                        } by {
                            assert(out@[b2] == pre_out[b2]);
                            assert(out@[b2].material != mat);
                        }
                    }
                },
            }
            i = i + 1;
        }
        proof {
            assert(full.take(n as int) =~= full);
            assert forall|b: int|
                0 <= b < bucket_materials(full, meshseq).len() implies {
                &&& bucket_vertices(
                    full,
                    meshseq,
                    #[trigger] bucket_materials(full, meshseq)[b],
                ).len() <= u32::MAX
                &&& bucket_indices(full, meshseq, bucket_materials(full, meshseq)[b]).len()
                    <= u32::MAX
            } by {
                assert(out@[b].material == bucket_materials(full, meshseq)[b]);
                assert(out@[b].vertices@.len() <= u32::MAX);
                assert(out@[b].indices@.len() <= u32::MAX);
            }
        }
        Result::Ok(out)
    }

    /// Batches the scene and installs the result: each bucket becomes one
    /// mesh in the arena and one synthetic node with identity transform, no
    /// parent and the material id as its index, appended to
    /// `batched_objects`. Everything already loaded stays untouched; on
    /// rejection the whole scene stays untouched.
    #[verifier::loop_isolation(false)]
    pub fn batch_objects(&mut self) -> (r: Result<(), SceneError>)
        requires
            wf_scene(*old(self)),
            old(self).meshes@.len() + bucket_materials(old(self).objects@, old(self).meshes@).len()
                <= u32::MAX,
        ensures
            r is Ok <==> forall|b: int|
                0 <= b < bucket_materials(old(self).objects@, old(self).meshes@).len() ==> {
                    &&& bucket_vertices(
                        old(self).objects@,
                        old(self).meshes@,
                        #[trigger] bucket_materials(old(self).objects@, old(self).meshes@)[b],
                    ).len() <= u32::MAX
                    &&& bucket_indices(
                        old(self).objects@,
                        old(self).meshes@,
                        bucket_materials(old(self).objects@, old(self).meshes@)[b],
                    ).len() <= u32::MAX
                },
            match r {
                Result::Ok(()) => {
                    let mats = bucket_materials(old(self).objects@, old(self).meshes@);
                    let m0 = old(self).meshes@.len() as int;
                    let b0 = old(self).batched_objects@.len() as int;
                    &&& final (self).meshes@.len() == m0 + mats.len()
                    &&& forall|k: int|
                        0 <= k < m0 ==> #[trigger] final (self).meshes@[k] == old(self).meshes@[k]
                    &&& final (self).batched_objects@.len() == b0 + mats.len()
                    &&& forall|k: int|
                        0 <= k < b0 ==> #[trigger] final (self).batched_objects@[k] == old(
                            self,
                        ).batched_objects@[k]
                    &&& forall|b: int|
                        0 <= b < mats.len() ==> {
                            let node = #[trigger] final (self).batched_objects@[b0 + b];
                            let mesh = final (self).meshes@[m0 + b];
                            &&& node.index == mats[b]
                            &&& node.parent_index is None
                            &&& node.child_index@.len() == 0
                            &&& node.depth == 0
                            &&& mat4_is_identity(node.local_transform)
                            &&& mat4_is_identity(node.world_transform)
                            &&& node.mesh == Option::Some((m0 + b) as u32)
                            &&& node.shading_type == crate::scene::ShadingType::Uninitialized
                            &&& node.render_resource is None
                            &&& mesh.material == Option::Some(mats[b])
                            &&& mesh.vertices@ == bucket_vertices(
                                old(self).objects@,
                                old(self).meshes@,
                                mats[b],
                            )
                            &&& mesh.indices@ == bucket_indices(
                                old(self).objects@,
                                old(self).meshes@,
                                mats[b],
                            )
                        }
                    &&& *final (self) == (Scene {
                        batched_objects: final (self).batched_objects,
                        meshes: final (self).meshes,
                        ..*old(self)
                    })
                    &&& wf_scene(*final (self))
                },
                Result::Err(_) => *final (self) == *old(self),
            },
    {
        let ghost old_objs = self.objects@;
        let ghost old_meshes = self.meshes@;
        let ghost mats = bucket_materials(old_objs, old_meshes);
        let mut batches = match self.batch_by_material() {
            Result::Ok(batches) => batches,
            Result::Err(e) => {
                return Result::Err(e);
            },
        };
        let ghost orig = batches@;
        let ghost m0 = self.meshes@.len() as int;
        let ghost b0 = self.batched_objects@.len() as int;
        let mut b: usize = 0;
        while batches.len() > 0
            invariant
                b as int + batches@.len() == orig.len(),
                batches@ =~= orig.skip(b as int),
                self.meshes@.len() == m0 + b as int,
                self.batched_objects@.len() == b0 + b as int,
                forall|k: int| 0 <= k < m0 ==> #[trigger] self.meshes@[k] == old_meshes[k],
                forall|k: int|
                    0 <= k < b0 ==> #[trigger] self.batched_objects@[k] == old(
                        self,
                    ).batched_objects@[k],
                forall|b2: int|
                    0 <= b2 < b as int ==> {
                        let node = #[trigger] self.batched_objects@[b0 + b2];
                        let mesh = self.meshes@[m0 + b2];
                        &&& node.index == mats[b2]
                        &&& node.parent_index is None
                        &&& node.child_index@.len() == 0
                        &&& node.depth == 0
                        &&& mat4_is_identity(node.local_transform)
                        &&& mat4_is_identity(node.world_transform)
                        &&& node.mesh == Option::Some((m0 + b2) as u32)
                        &&& node.shading_type == crate::scene::ShadingType::Uninitialized
                        &&& node.render_resource is None
                        &&& mesh.material == Option::Some(mats[b2])
                        &&& mesh.vertices@ == bucket_vertices(old_objs, old_meshes, mats[b2])
                        &&& mesh.indices@ == bucket_indices(old_objs, old_meshes, mats[b2])
                        &&& wf_mesh(mesh)
                    },
                *self == (Scene {
                    batched_objects: self.batched_objects,
                    meshes: self.meshes,
                    ..*old(self)
                }),
            decreases batches@.len(),
        {
            proof {
                assert(orig.skip(b as int)[0] == orig[b as int]);
                assert(orig.skip(b as int).remove(0) =~= orig.skip(b as int + 1));
            }
            let bm = batches.remove(0);
            proof {
                assert(bm == orig[b as int]);
                assert(bm.material == mats[b as int]);
                assert(bm.vertices@ == bucket_vertices(old_objs, old_meshes, mats[b as int]));
                assert(bm.indices@ == bucket_indices(old_objs, old_meshes, mats[b as int]));
                lemma_batched_indices_in_range(old_objs, old_meshes, bm.material);
                assert(bm.indices@.len() <= u32::MAX);
            }
            let handle: u32 = self.meshes.len() as u32;
            self.meshes.push(
                Mesh {
                    _name: Option::None,
                    vertices: bm.vertices,
                    indices: bm.indices,
                    material: Option::Some(bm.material),
                },
            );
            let ident: glam::Mat4 = crate::math::mat4_identity();
            let node = SceneObject {
                _name: Option::None,
                index: bm.material,
                parent_index: Option::None,
                child_index: Vec::new(),
                depth: 0,
                local_transform: ident,
                world_transform: ident,
                mesh: Option::Some(handle),
                shading_type: crate::scene::ShadingType::Uninitialized,
                render_resource: Option::None,
            };
            self.batched_objects.push(node);
            b = b + 1;
        }
        proof {
            assert(wf_scene(*self)) by {
                assert(crate::scene::wf_links(crate::scene::links_of(self.objects@)));
                assert forall|h2: int|
                    0 <= h2 < self.meshes@.len() implies wf_mesh(#[trigger] self.meshes@[h2]) by {
                    if h2 < m0 {
                        assert(self.meshes@[h2] == old_meshes[h2]);
                    } else {
                        assert(self.batched_objects@[b0 + (h2 - m0)].index == mats[h2 - m0]);
                        assert(wf_mesh(self.meshes@[m0 + (h2 - m0)]));
                    }
                }
            }
        }
        Result::Ok(())
    }
}

} // verus!
