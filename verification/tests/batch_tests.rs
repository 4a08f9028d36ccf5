use renderer_core::{Mesh, NodeInput, Scene, Vertex};

fn empty_scene() -> Scene {
    let mut s = Scene::new(
        glam::Vec3::new(5.0, 0.0, 0.5),
        -glam::Vec3::X,
        glam::Vec3::new(0.0, 0.0, -1.0),
        glam::Mat4::from_axis_angle(glam::Vec3::X, std::f32::consts::FRAC_PI_2),
    );
    s.convert_y_to_z = false;
    s
}

fn node(local: glam::Mat4, children: Vec<u32>, mesh: Option<u32>) -> NodeInput {
    NodeInput {
        _name: None,
        local_transform: local,
        child_index: children,
        mesh,
    }
}

fn vertex(x: f32, y: f32, z: f32) -> Vertex {
    Vertex {
        pos: glam::Vec4::new(x, y, z, 1.0),
        color: glam::Vec3::new(0.5, 0.25, 0.125),
        uv: glam::Vec2::new(0.25, 0.75),
        normal: glam::Vec4::new(0.0, 0.0, 1.0, 1.0),
        tangent: glam::Vec4::new(1.0, 0.0, 0.0, 1.0),
    }
}

fn triangle_mesh(material: Option<u32>) -> Mesh {
    Mesh {
        _name: None,
        vertices: vec![vertex(0.0, 0.0, 0.0), vertex(1.0, 0.0, 0.0), vertex(0.0, 1.0, 0.0)],
        indices: vec![0, 1, 2],
        material,
    }
}

/// Two nodes share material 7, a third has no material: one bucket with the
/// summed triangle count, indices in range, the unbatched node excluded.
#[test]
fn shared_material_bucket_counts() {
    let mut s = empty_scene();
    let inputs = vec![
        node(glam::Mat4::IDENTITY, vec![], Some(0)),
        node(glam::Mat4::IDENTITY, vec![], Some(0)),
        node(glam::Mat4::IDENTITY, vec![], Some(1)),
    ];
    s.load(inputs, vec![triangle_mesh(Some(7)), triangle_mesh(None)], Vec::new())
        .unwrap();
    s.resolve_world_transforms();
    let batches = s.batch_by_material().unwrap();
    assert_eq!(batches.len(), 1);
    assert_eq!(batches[0].material, 7);
    // N1 + N2 triangles
    assert_eq!(batches[0].indices.len(), 6);
    assert_eq!(batches[0].vertices.len(), 6);
    // the maximum index stays below the vertex count
    let max = batches[0].indices.iter().max().copied().unwrap();
    assert!((max as usize) < batches[0].vertices.len());
}

/// Vertex counts are preserved per material group.
#[test]
fn vertex_count_preserved() {
    let mut s = empty_scene();
    let mut big = triangle_mesh(Some(3));
    big.vertices.push(vertex(2.0, 2.0, 2.0));
    big.indices = vec![0, 1, 2, 1, 2, 3];
    let inputs = vec![
        node(glam::Mat4::IDENTITY, vec![], Some(0)),
        node(glam::Mat4::IDENTITY, vec![], Some(1)),
    ];
    s.load(inputs, vec![triangle_mesh(Some(3)), big], Vec::new())
        .unwrap();
    s.resolve_world_transforms();
    let batches = s.batch_by_material().unwrap();
    assert_eq!(batches.len(), 1);
    assert_eq!(batches[0].vertices.len(), 3 + 4);
    assert_eq!(batches[0].indices.len(), 3 + 6);
}

/// Indices of the second contributor are shifted by the first's vertex
/// count.
#[test]
fn indices_shift_by_vertex_offset() {
    let mut s = empty_scene();
    let inputs = vec![
        node(glam::Mat4::IDENTITY, vec![], Some(0)),
        node(glam::Mat4::IDENTITY, vec![], Some(0)),
    ];
    s.load(inputs, vec![triangle_mesh(Some(0))], Vec::new())
        .unwrap();
    s.resolve_world_transforms();
    let batches = s.batch_by_material().unwrap();
    assert_eq!(batches[0].indices, vec![0, 1, 2, 3, 4, 5]);
}

/// Positions are carried into world space by the node's world transform;
/// normals and tangents only rotate, so a pure translation leaves them
/// unchanged. Color and texture coordinates pass through.
#[test]
fn batching_transforms_vertices() {
    let mut s = empty_scene();
    let shift = glam::Mat4::from_translation(glam::Vec3::new(10.0, 0.0, 0.0));
    s.load(
        vec![node(shift, vec![], Some(0))],
        vec![triangle_mesh(Some(1))],
        Vec::new(),
    )
    .unwrap();
    s.resolve_world_transforms();
    let batches = s.batch_by_material().unwrap();
    let v = batches[0].vertices[0];
    assert_eq!(v.pos, glam::Vec4::new(10.0, 0.0, 0.0, 1.0));
    assert_eq!(v.normal, glam::Vec4::new(0.0, 0.0, 1.0, 1.0));
    assert_eq!(v.tangent, glam::Vec4::new(1.0, 0.0, 0.0, 1.0));
    assert_eq!(v.color, glam::Vec3::new(0.5, 0.25, 0.125));
    assert_eq!(v.uv, glam::Vec2::new(0.25, 0.75));
}

/// A rotation rotates normals and tangents along with positions.
#[test]
fn batching_rotates_normals() {
    let mut s = empty_scene();
    let quarter = glam::Mat4::from_rotation_x(std::f32::consts::FRAC_PI_2);
    s.load(
        vec![node(quarter, vec![], Some(0))],
        vec![triangle_mesh(Some(1))],
        Vec::new(),
    )
    .unwrap();
    s.resolve_world_transforms();
    let batches = s.batch_by_material().unwrap();
    let v = batches[0].vertices[0];
    let expect_rot = glam::Mat4::from_quat(quarter.to_scale_rotation_translation().1);
    assert_eq!(v.normal, expect_rot.mul_vec4(glam::Vec4::new(0.0, 0.0, 1.0, 1.0)));
    assert_eq!(v.tangent, expect_rot.mul_vec4(glam::Vec4::new(1.0, 0.0, 0.0, 1.0)));
}

/// Buckets appear in order of first appearance, one per distinct material.
#[test]
fn buckets_in_first_appearance_order() {
    let mut s = empty_scene();
    let inputs = vec![
        node(glam::Mat4::IDENTITY, vec![], Some(0)),
        node(glam::Mat4::IDENTITY, vec![], Some(1)),
        node(glam::Mat4::IDENTITY, vec![], Some(0)),
    ];
    s.load(
        inputs,
        vec![triangle_mesh(Some(9)), triangle_mesh(Some(4))],
        Vec::new(),
    )
    .unwrap();
    s.resolve_world_transforms();
    let batches = s.batch_by_material().unwrap();
    assert_eq!(batches.len(), 2);
    assert_eq!(batches[0].material, 9);
    assert_eq!(batches[1].material, 4);
    assert_eq!(batches[0].vertices.len(), 6);
    assert_eq!(batches[1].vertices.len(), 3);
}

/// Round trip: summing triangle counts back per material recovers the
/// original per-material totals.
#[test]
fn triangle_totals_round_trip() {
    let mut s = empty_scene();
    let inputs = vec![
        node(glam::Mat4::IDENTITY, vec![], Some(0)),
        node(glam::Mat4::IDENTITY, vec![], Some(1)),
        node(glam::Mat4::IDENTITY, vec![], Some(0)),
        node(glam::Mat4::IDENTITY, vec![], None),
    ];
    s.load(
        inputs,
        vec![triangle_mesh(Some(2)), triangle_mesh(Some(5))],
        Vec::new(),
    )
    .unwrap();
    s.resolve_world_transforms();
    let batches = s.batch_by_material().unwrap();
    let mut per_material: Vec<(u32, usize)> = Vec::new();
    for b in &batches {
        per_material.push((b.material, b.indices.len() / 3));
    }
    // material 2 was contributed by two nodes of one triangle each,
    // material 5 by one node; the no-mesh node contributes nowhere
    assert_eq!(per_material, vec![(2, 2), (5, 1)]);
}

/// Installing the batches appends one synthetic node per bucket with an
/// identity transform and the material id as its index.
#[test]
fn batch_objects_installs_synthetic_nodes() {
    let mut s = empty_scene();
    let inputs = vec![
        node(glam::Mat4::from_translation(glam::Vec3::new(1.0, 0.0, 0.0)), vec![], Some(0)),
        node(glam::Mat4::IDENTITY, vec![], Some(0)),
    ];
    s.load(inputs, vec![triangle_mesh(Some(7))], Vec::new()).unwrap();
    s.resolve_world_transforms();
    let meshes_before = s.meshes.len();
    s.batch_objects().unwrap();
    assert_eq!(s.batched_objects.len(), 1);
    assert_eq!(s.meshes.len(), meshes_before + 1);
    let bo = &s.batched_objects[0];
    assert_eq!(bo.index, 7);
    assert_eq!(bo.parent_index, None);
    assert_eq!(bo.world_transform, glam::Mat4::IDENTITY);
    assert_eq!(bo.local_transform, glam::Mat4::IDENTITY);
    assert_eq!(bo.mesh, Some(meshes_before as u32));
    assert!(bo.render_resource.is_none());
    let bm = &s.meshes[meshes_before];
    assert_eq!(bm.material, Some(7));
    assert_eq!(bm.vertices.len(), 6);
    assert_eq!(bm.indices.len(), 6);
    // the original nodes are untouched
    assert_eq!(s.objects.len(), 2);
}
