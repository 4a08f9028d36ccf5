use renderer_core::{
    ensure_resource, texture_info, missing_texture_rgba, sentinel_texel_rgba, Mesh, NodeInput,
    ResourceCache, Scene, SceneMaterial, ShadingType, Vertex,
};

fn empty_scene() -> Scene {
    let mut s = Scene::new(
        glam::Vec3::new(5.0, 0.0, 0.5),
        -glam::Vec3::X,
        glam::Vec3::new(0.0, 0.0, -1.0),
        glam::Mat4::from_axis_angle(glam::Vec3::X, std::f32::consts::FRAC_PI_2),
    );
    s.convert_y_to_z = false;
    s
}

fn vertex(x: f32, y: f32, z: f32) -> Vertex {
    Vertex {
        pos: glam::Vec4::new(x, y, z, 1.0),
        color: glam::Vec3::ZERO,
        uv: glam::Vec2::ZERO,
        normal: glam::Vec4::new(0.0, 0.0, 1.0, 1.0),
        tangent: glam::Vec4::new(1.0, 0.0, 0.0, 1.0),
    }
}

fn triangle_mesh(material: Option<u32>) -> Mesh {
    Mesh {
        _name: None,
        vertices: vec![vertex(0.0, 0.0, 0.0), vertex(1.0, 0.0, 0.0), vertex(0.0, 1.0, 0.0)],
        indices: vec![0, 1, 2],
        material,
    }
}

fn textured_material(w: u32, h: u32) -> SceneMaterial {
    SceneMaterial {
        _name: None,
        base_color_texture: vec![0u8; (w * h * 4) as usize],
        base_color_texture_size: [w, h],
        normal_texture: Vec::new(),
        normal_texture_size: [0, 0],
        metallic_roughness_texture: Vec::new(),
        metallic_roughness_texture_size: [0, 0],
    }
}

fn loaded_scene() -> Scene {
    let mut s = empty_scene();
    let inputs = vec![
        NodeInput {
            _name: None,
            local_transform: glam::Mat4::IDENTITY,
            child_index: vec![],
            mesh: Some(0),
        },
        NodeInput {
            _name: None,
            local_transform: glam::Mat4::IDENTITY,
            child_index: vec![],
            mesh: None,
        },
    ];
    s.load(inputs, vec![triangle_mesh(Some(0))], vec![textured_material(4, 2)])
        .unwrap();
    s
}

/// Ensuring the same node in the same mode twice returns the same handle
/// and allocates nothing.
#[test]
fn ensure_resource_is_idempotent() {
    let mut s = loaded_scene();
    let mut cache = ResourceCache::new();
    let obj = &mut s.objects[0];
    let h1 = ensure_resource(&mut cache, obj, &s.meshes, &s.materials, ShadingType::Differed);
    assert_eq!(cache.entries.len(), 1);
    let h2 = ensure_resource(&mut cache, obj, &s.meshes, &s.materials, ShadingType::Differed);
    assert_eq!(h1, h2);
    assert_eq!(cache.entries.len(), 1);
}

/// Ensuring for a different mode rebuilds: a new entry, the node repointed.
#[test]
fn mode_change_rebuilds() {
    let mut s = loaded_scene();
    let mut cache = ResourceCache::new();
    let obj = &mut s.objects[0];
    let h1 = ensure_resource(&mut cache, obj, &s.meshes, &s.materials, ShadingType::Differed);
    let h2 = ensure_resource(&mut cache, obj, &s.meshes, &s.materials, ShadingType::Forward);
    assert_ne!(h1, h2);
    assert_eq!(cache.entries.len(), 2);
    assert!(matches!(obj.shading_type, ShadingType::Forward));
    assert_eq!(obj.render_resource, Some(h2));
}

/// The built entry records the draw count, the mode's payload size and the
/// texture binding.
#[test]
fn entry_contents() {
    let mut s = loaded_scene();
    let mut cache = ResourceCache::new();
    let obj = &mut s.objects[0];
    let h = ensure_resource(&mut cache, obj, &s.meshes, &s.materials, ShadingType::Differed);
    let e = &cache.entries[h as usize];
    assert_eq!(e.index_count, 3);
    assert_eq!(e.uniform_words, 64);
    assert!(e.uses_texture_binding);
    assert_eq!(e.texture_size, [4, 2]);
    assert!(!e.texture_is_sentinel);
    let h2 = ensure_resource(&mut cache, obj, &s.meshes, &s.materials, ShadingType::Forward);
    let e2 = &cache.entries[h2 as usize];
    assert_eq!(e2.uniform_words, 40);
    assert!(!e2.uses_texture_binding);
}

/// A textureless or dangling material resolves to the one-texel sentinel.
#[test]
fn texture_sentinel_resolution() {
    let materials = vec![textured_material(8, 8), {
        let mut m = textured_material(1, 1);
        m.base_color_texture = Vec::new();
        m
    }];
    assert_eq!(texture_info(Some(0), &materials), ([8, 8], false));
    assert_eq!(texture_info(Some(1), &materials), ([1, 1], true));
    assert_eq!(texture_info(Some(9), &materials), ([1, 1], true));
    assert_eq!(texture_info(None, &materials), ([1, 1], true));
    assert_eq!(missing_texture_rgba(), vec![255, 0, 255, 255]);
    assert_eq!(sentinel_texel_rgba(), vec![255, 255, 255, 255]);
}

/// The ensure pass stamps every mesh-carrying node, skips the rest, and
/// grows the cache by exactly the nodes it constructed.
#[test]
fn ensure_pass_covers_all_mesh_nodes() {
    let mut s = loaded_scene();
    let mut cache = ResourceCache::new();
    s.ensure_resources(&mut cache, ShadingType::Differed);
    assert_eq!(cache.entries.len(), 1);
    assert!(matches!(s.objects[0].shading_type, ShadingType::Differed));
    assert!(s.objects[0].render_resource.is_some());
    assert!(matches!(s.objects[1].shading_type, ShadingType::Uninitialized));
    assert!(s.objects[1].render_resource.is_none());
    // running the pass again is a no-op
    s.ensure_resources(&mut cache, ShadingType::Differed);
    assert_eq!(cache.entries.len(), 1);
}

/// Invalidation drops every resource and empties the cache.
#[test]
fn invalidation_resets_everything() {
    let mut s = loaded_scene();
    let mut cache = ResourceCache::new();
    s.ensure_resources(&mut cache, ShadingType::Forward);
    assert_eq!(cache.entries.len(), 1);
    s.invalidate_resources(&mut cache);
    assert!(cache.entries.is_empty());
    for o in &s.objects {
        assert!(o.render_resource.is_none());
        assert!(matches!(o.shading_type, ShadingType::Uninitialized));
    }
}
