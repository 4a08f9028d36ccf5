use renderer_core::{Mesh, NodeInput, Scene, SceneError, SceneMaterial, ShadingType, Vertex};

fn empty_scene() -> Scene {
    Scene::new(
        glam::Vec3::new(5.0, 0.0, 0.5),
        -glam::Vec3::X,
        glam::Vec3::new(0.0, 0.0, -1.0),
        glam::Mat4::from_axis_angle(glam::Vec3::X, std::f32::consts::FRAC_PI_2),
    )
}

fn node(local: glam::Mat4, children: Vec<u32>, mesh: Option<u32>) -> NodeInput {
    NodeInput {
        _name: None,
        local_transform: local,
        child_index: children,
        mesh,
    }
}

fn vertex(x: f32, y: f32, z: f32) -> Vertex {
    Vertex {
        pos: glam::Vec4::new(x, y, z, 1.0),
        color: glam::Vec3::ZERO,
        uv: glam::Vec2::ZERO,
        normal: glam::Vec4::new(0.0, 0.0, 1.0, 1.0),
        tangent: glam::Vec4::new(1.0, 0.0, 0.0, 1.0),
    }
}

fn triangle_mesh(material: Option<u32>) -> Mesh {
    Mesh {
        _name: None,
        vertices: vec![vertex(0.0, 0.0, 0.0), vertex(1.0, 0.0, 0.0), vertex(0.0, 1.0, 0.0)],
        indices: vec![0, 1, 2],
        material,
    }
}

#[test]
fn scene_new_defaults() {
    let s = empty_scene();
    assert!(s.objects.is_empty());
    assert!(s.batched_objects.is_empty());
    assert!(matches!(s.scene_shading_type, ShadingType::Differed));
    assert_eq!(s.differed_debug_type, 0);
    assert!(s.convert_y_to_z);
    assert!(s.is_first_update);
    assert!(s.use_batched);
    assert_eq!(s.ambient_light_color.a, 255);
    assert_eq!(s.background_color.r, 178);
}

#[test]
fn load_builds_parent_links_and_depths() {
    let mut s = empty_scene();
    let inputs = vec![
        node(glam::Mat4::IDENTITY, vec![1], None),
        node(glam::Mat4::IDENTITY, vec![2], None),
        node(glam::Mat4::IDENTITY, vec![], None),
    ];
    s.load(inputs, Vec::new(), Vec::new()).unwrap();
    assert_eq!(s.objects.len(), 3);
    assert_eq!(s.objects[0].parent_index, None);
    assert_eq!(s.objects[1].parent_index, Some(0));
    assert_eq!(s.objects[2].parent_index, Some(1));
    assert_eq!(s.objects[0].depth, 0);
    assert_eq!(s.objects[1].depth, 1);
    assert_eq!(s.objects[2].depth, 2);
    assert_eq!(s.objects[0].index, 0);
    assert_eq!(s.objects[2].index, 2);
}

#[test]
fn load_rejects_child_out_of_range() {
    let mut s = empty_scene();
    let inputs = vec![node(glam::Mat4::IDENTITY, vec![7], None)];
    assert_eq!(
        s.load(inputs, Vec::new(), Vec::new()),
        Err(SceneError::ChildIndexOutOfRange)
    );
    assert!(s.objects.is_empty());
}

#[test]
fn load_rejects_child_claimed_twice() {
    let mut s = empty_scene();
    let inputs = vec![
        node(glam::Mat4::IDENTITY, vec![2], None),
        node(glam::Mat4::IDENTITY, vec![2], None),
        node(glam::Mat4::IDENTITY, vec![], None),
    ];
    assert_eq!(
        s.load(inputs, Vec::new(), Vec::new()),
        Err(SceneError::DuplicateParent)
    );
}

#[test]
fn load_rejects_self_cycle() {
    let mut s = empty_scene();
    let inputs = vec![node(glam::Mat4::IDENTITY, vec![0], None)];
    assert_eq!(
        s.load(inputs, Vec::new(), Vec::new()),
        Err(SceneError::CycleDetected)
    );
}

#[test]
fn load_rejects_two_node_cycle() {
    let mut s = empty_scene();
    let inputs = vec![
        node(glam::Mat4::IDENTITY, vec![1], None),
        node(glam::Mat4::IDENTITY, vec![0], None),
    ];
    assert_eq!(
        s.load(inputs, Vec::new(), Vec::new()),
        Err(SceneError::CycleDetected)
    );
}

#[test]
fn load_rejects_dangling_mesh_reference() {
    let mut s = empty_scene();
    let inputs = vec![node(glam::Mat4::IDENTITY, vec![], Some(0))];
    assert_eq!(
        s.load(inputs, Vec::new(), Vec::new()),
        Err(SceneError::MeshIndexOutOfRange)
    );
}

#[test]
fn load_rejects_mesh_with_dangling_indices() {
    let mut s = empty_scene();
    let bad = Mesh {
        _name: None,
        vertices: vec![vertex(0.0, 0.0, 0.0)],
        indices: vec![0, 1, 2],
        material: None,
    };
    let inputs = vec![node(glam::Mat4::IDENTITY, vec![], Some(0))];
    assert_eq!(
        s.load(inputs, vec![bad], Vec::new()),
        Err(SceneError::InvalidMeshIndices)
    );
}

#[test]
fn root_world_equals_local() {
    // a node with no parent stands exactly where it was authored
    let mut s = empty_scene();
    s.convert_y_to_z = false;
    let local = glam::Mat4::from_translation(glam::Vec3::new(3.0, -2.0, 7.5));
    s.load(vec![node(local, vec![], None)], Vec::new(), Vec::new())
        .unwrap();
    s.resolve_world_transforms();
    assert_eq!(s.objects[0].world_transform, local);
}

#[test]
fn three_level_chain_accumulates_translations() {
    // A -> B -> C with unit translations on each axis: C ends at (1, 1, 1)
    let mut s = empty_scene();
    s.convert_y_to_z = false;
    let a = glam::Mat4::from_translation(glam::Vec3::new(1.0, 0.0, 0.0));
    let b = glam::Mat4::from_translation(glam::Vec3::new(0.0, 1.0, 0.0));
    let c = glam::Mat4::from_translation(glam::Vec3::new(0.0, 0.0, 1.0));
    let inputs = vec![node(a, vec![1], None), node(b, vec![2], None), node(c, vec![], None)];
    s.load(inputs, Vec::new(), Vec::new()).unwrap();
    s.resolve_world_transforms();
    let origin = glam::Vec4::new(0.0, 0.0, 0.0, 1.0);
    let world_pos = s.objects[2].world_transform.mul_vec4(origin);
    assert_eq!(world_pos, glam::Vec4::new(1.0, 1.0, 1.0, 1.0));
}

#[test]
fn resolving_twice_reproduces_identical_worlds() {
    // re-running on unchanged local transforms is bit-identical
    let mut s = empty_scene();
    let a = glam::Mat4::from_rotation_y(0.37);
    let b = glam::Mat4::from_translation(glam::Vec3::new(0.1, 2.0, -3.0))
        * glam::Mat4::from_scale(glam::Vec3::new(1.5, 0.5, 2.0));
    let inputs = vec![node(a, vec![1], None), node(b, vec![], None)];
    s.load(inputs, Vec::new(), Vec::new()).unwrap();
    s.resolve_world_transforms();
    let first: Vec<glam::Mat4> = s.objects.iter().map(|o| o.world_transform).collect();
    s.resolve_world_transforms();
    let second: Vec<glam::Mat4> = s.objects.iter().map(|o| o.world_transform).collect();
    assert_eq!(first, second);
}

#[test]
fn up_axis_conversion_premultiplies_without_touching_locals() {
    let mut s = empty_scene();
    let local = glam::Mat4::from_translation(glam::Vec3::new(0.0, 2.0, 0.0));
    s.load(vec![node(local, vec![], None)], Vec::new(), Vec::new())
        .unwrap();
    s.convert_y_to_z = true;
    s.resolve_world_transforms();
    let conv = s.y_to_z_matrix;
    assert_eq!(s.objects[0].world_transform, conv.mul_mat4(&local));
    assert_eq!(s.objects[0].local_transform, local);
    // toggling the flag off is non-destructive
    s.convert_y_to_z = false;
    s.resolve_world_transforms();
    assert_eq!(s.objects[0].world_transform, local);
}

#[test]
fn chain_world_matches_glam_products() {
    // the resolver associates exactly as a bottom-up walk does
    let mut s = empty_scene();
    s.convert_y_to_z = false;
    let a = glam::Mat4::from_rotation_z(0.3);
    let b = glam::Mat4::from_translation(glam::Vec3::new(1.0, 2.0, 3.0));
    let c = glam::Mat4::from_scale(glam::Vec3::new(2.0, 2.0, 2.0));
    let inputs = vec![node(a, vec![1], None), node(b, vec![2], None), node(c, vec![], None)];
    s.load(inputs, Vec::new(), Vec::new()).unwrap();
    s.resolve_world_transforms();
    assert_eq!(s.objects[0].world_transform, a);
    assert_eq!(s.objects[1].world_transform, a.mul_mat4(&b));
    assert_eq!(s.objects[2].world_transform, a.mul_mat4(&b.mul_mat4(&c)));
}

#[test]
fn init_resets_contents() {
    let mut s = empty_scene();
    s.load(
        vec![node(glam::Mat4::IDENTITY, vec![], Some(0))],
        vec![triangle_mesh(None)],
        vec![SceneMaterial {
            _name: None,
            base_color_texture: vec![1, 2, 3, 4],
            base_color_texture_size: [1, 1],
            normal_texture: Vec::new(),
            normal_texture_size: [0, 0],
            metallic_roughness_texture: Vec::new(),
            metallic_roughness_texture_size: [0, 0],
        }],
    )
    .unwrap();
    let eye = glam::Vec3::new(5.0, 0.0, 0.5);
    let dir = -glam::Vec3::X;
    let light = glam::Vec3::new(0.0, 0.0, -1.0);
    let conv = glam::Mat4::from_axis_angle(glam::Vec3::X, std::f32::consts::FRAC_PI_2);
    s.init(eye, dir, light, conv);
    assert!(s.objects.is_empty());
    assert!(s.meshes.is_empty());
    assert!(s.materials.is_empty());
    assert_eq!(s.eye_location, eye);
    assert_eq!(s.eye_direction, dir);
}
