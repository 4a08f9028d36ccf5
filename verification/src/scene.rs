//! The scene data model: vertices, meshes, materials, nodes and the scene
//! itself, together with the well-formedness conditions that the loader
//! establishes and every later pass relies on.
//!
//! Meshes live in an arena owned by the scene and nodes refer to them by
//! index, so a mesh may be shared by several nodes (instancing) without
//! shared-ownership pointers.

use vstd::prelude::*;

use crate::math::mat4_product;

verus! {

/// One vertex: a homogeneous position, a color, texture coordinates, and the
/// normal and tangent directions. Directions carry a homogeneous coordinate of
/// one so that they can be rotated by a 4x4 matrix directly.
#[derive(Clone, Copy)]
pub struct Vertex {
    pub pos: glam::Vec4,
    pub color: glam::Vec3,
    pub uv: glam::Vec2,
    pub normal: glam::Vec4,
    pub tangent: glam::Vec4,
}

/// An immutable vertex/index pair with an optional reference into the
/// material table. Indices form a triangle list.
pub struct Mesh {
    pub _name: Option<String>,
    pub vertices: Vec<Vertex>,
    pub indices: Vec<u32>,
    pub material: Option<u32>,
}

/// Which pipeline a node (or the whole scene) is matched against.
#[derive(Clone, Copy, PartialEq, Eq, Structural, Debug)]
pub enum ShadingType {
    Uninitialized,
    Differed,
    Forward,
}

/// A material: texture bytes with their pixel sizes. Empty texture bytes mean
/// "no texture authored"; consumers substitute a one-texel sentinel instead of
/// failing.
pub struct SceneMaterial {
    pub _name: Option<String>,
    pub base_color_texture: Vec<u8>,
    pub base_color_texture_size: [u32; 2],
    pub normal_texture: Vec<u8>,
    pub normal_texture_size: [u32; 2],
    pub metallic_roughness_texture: Vec<u8>,
    pub metallic_roughness_texture_size: [u32; 2],
}

/// An RGBA color with 8 bits per channel; 255 stands for full intensity.
#[derive(Clone, Copy, PartialEq, Eq, Structural, Debug)]
pub struct Color8 {
    pub r: u8,
    pub g: u8,
    pub b: u8,
    pub a: u8,
}

/// One scene-graph node. `parent_index` is a back-reference only; parent
/// links of a well-formed scene form a forest, witnessed by `depth`, the
/// node's distance from its root. `world_transform` is derived state,
/// recomputed from the local transforms along the parent chain.
pub struct SceneObject {
    pub _name: Option<String>,
    pub index: u32,
    pub parent_index: Option<u32>,
    pub child_index: Vec<u32>,
    pub depth: u32,
    pub local_transform: glam::Mat4,
    pub world_transform: glam::Mat4,
    pub mesh: Option<u32>,
    pub shading_type: ShadingType,
    pub render_resource: Option<u32>,
}

/// The scene: a flat node table, the mesh arena the nodes point into, the
/// material table, world lighting state, the camera, and per-frame
/// configuration.
pub struct Scene {
    pub objects: Vec<SceneObject>,
    pub batched_objects: Vec<SceneObject>,
    pub meshes: Vec<Mesh>,
    pub materials: Vec<SceneMaterial>,
    pub eye_location: glam::Vec3,
    pub eye_direction: glam::Vec3,
    pub directional_light_angle: glam::Vec3,
    pub ambient_light_color: Color8,
    pub background_color: Color8,
    pub y_to_z_matrix: glam::Mat4,
    pub convert_y_to_z: bool,
    pub is_first_update: bool,
    pub scene_shading_type: ShadingType,
    pub differed_debug_type: u8,
    pub use_batched: bool,
}

/// What transform resolution reads of a node: the parent link, the authored
/// local transform, and the depth witness. Everything else a node holds is
/// irrelevant to where it stands in space.
pub struct NodeLink {
    pub parent_index: Option<u32>,
    pub local_transform: glam::Mat4,
    pub depth: u32,
}

pub open spec fn link_of(o: SceneObject) -> NodeLink {
    NodeLink {
        parent_index: o.parent_index,
        local_transform: o.local_transform,
        depth: o.depth,
    }
}

pub open spec fn links_of(objects: Seq<SceneObject>) -> Seq<NodeLink> {
    objects.map_values(|o: SceneObject| link_of(o))
}

/// Parent links are in range and each node's `depth` is one more than its
/// parent's (zero at a root). Local consistency of the depths rules out
/// cycles: depth strictly decreases along every parent chain.
pub open spec fn wf_links(links: Seq<NodeLink>) -> bool {
    forall|i: int|
        0 <= i < links.len() ==> match #[trigger] links[i].parent_index {
            Option::None => links[i].depth == 0,
            Option::Some(p) => {
                &&& (p as int) < links.len()
                &&& links[p as int].depth + 1 == links[i].depth
            },
        }
}

/// A mesh is well formed when every index refers to one of its vertices and
/// the index count fits the 32-bit draw-call range.
pub open spec fn wf_mesh(m: Mesh) -> bool {
    &&& forall|k: int| 0 <= k < m.indices.len() ==> (#[trigger] m.indices[k] as int) < m.vertices.len()
    &&& m.indices.len() <= u32::MAX
}

/// Node-table well-formedness: indices match positions, parent links and
/// depths are consistent, and mesh references point into the arena.
pub open spec fn wf_objects(objects: Seq<SceneObject>, meshes: Seq<Mesh>) -> bool {
    &&& wf_links(links_of(objects))
    &&& objects.len() <= u32::MAX
    &&& forall|i: int|
        0 <= i < objects.len() ==> (#[trigger] objects[i].index) == i as u32
    &&& forall|i: int|
        0 <= i < objects.len() ==> match #[trigger] objects[i].mesh {
            Option::None => true,
            Option::Some(h) => (h as int) < meshes.len(),
        }
}

pub open spec fn wf_meshes(meshes: Seq<Mesh>) -> bool {
    forall|h: int| 0 <= h < meshes.len() ==> wf_mesh(#[trigger] meshes[h])
}

/// The invariant the loader establishes and every pass preserves.
pub open spec fn wf_scene(s: Scene) -> bool {
    &&& wf_objects(s.objects@, s.meshes@)
    &&& wf_meshes(s.meshes@)
}

/// The world transform of the node at `j`, accumulated tail-recursively up
/// the parent chain: each step left-multiplies the parent's local transform,
/// in exactly the association order the resolver computes it (floating-point
/// matrix products do not reassociate).
pub open spec fn chain_transform(links: Seq<NodeLink>, j: int, acc: glam::Mat4) -> glam::Mat4
    decreases links[j].depth,
        when 0 <= j < links.len() && wf_links(links)
{
    match links[j].parent_index {
        Option::None => acc,
        Option::Some(p) => chain_transform(
            links,
            p as int,
            mat4_product(links[p as int].local_transform, acc),
        ),
    }
}

/// The resolved world transform of the node at `j`, before any up-axis
/// conversion: the accumulated product of the ancestors' local transforms
/// times the node's own.
pub open spec fn resolved_world(links: Seq<NodeLink>, j: int) -> glam::Mat4 {
    chain_transform(links, j, links[j].local_transform)
}

/// The resolved world transform with the scene-global up-axis conversion
/// applied: when `convert` is set, the fixed conversion rotation is
/// pre-multiplied; the local transforms themselves are never touched, so
/// toggling the flag is non-destructive.
pub open spec fn resolved_world_converted(
    links: Seq<NodeLink>,
    j: int,
    convert: bool,
    conversion: glam::Mat4,
) -> glam::Mat4 {
    if convert {
        mat4_product(conversion, resolved_world(links, j))
    } else {
        resolved_world(links, j)
    }
}

impl Scene {
    /// Builds an empty scene with the documented initial configuration. The
    /// camera, the light direction and the up-axis conversion rotation are
    /// authored floating-point values and are supplied by the caller.
    pub fn new(
        eye_location: glam::Vec3,
        eye_direction: glam::Vec3,
        directional_light_angle: glam::Vec3,
        y_to_z_matrix: glam::Mat4,
    ) -> (s: Scene)
        ensures
            s.objects@ == Seq::<SceneObject>::empty(),
            s.batched_objects@ == Seq::<SceneObject>::empty(),
            s.meshes@ == Seq::<Mesh>::empty(),
            s.materials@ == Seq::<SceneMaterial>::empty(),
            s.eye_location == eye_location,
            s.eye_direction == eye_direction,
            s.directional_light_angle == directional_light_angle,
            s.y_to_z_matrix == y_to_z_matrix,
            s.ambient_light_color == (Color8 { r: 0, g: 0, b: 0, a: 255 }),
            s.background_color == (Color8 { r: 178, g: 178, b: 178, a: 255 }),
            s.scene_shading_type == ShadingType::Differed,
            s.differed_debug_type == 0,
            s.convert_y_to_z == true,
            s.is_first_update == true,
            s.use_batched == true,
            wf_scene(s),
    {
        let s = Scene {
            objects: Vec::new(),
            batched_objects: Vec::new(),
            meshes: Vec::new(),
            materials: Vec::new(),
            eye_location,
            eye_direction,
            directional_light_angle,
            ambient_light_color: Color8 { r: 0, g: 0, b: 0, a: 255 },
            background_color: Color8 { r: 178, g: 178, b: 178, a: 255 },
            y_to_z_matrix,
            convert_y_to_z: true,
            is_first_update: true,
            scene_shading_type: ShadingType::Differed,
            differed_debug_type: 0,
            use_batched: true,
        };
        s
    }

    /// Resets the scene to the same configuration [`Scene::new`] builds,
    /// dropping all loaded content.
    pub fn init(
        &mut self,
        eye_location: glam::Vec3,
        eye_direction: glam::Vec3,
        directional_light_angle: glam::Vec3,
        y_to_z_matrix: glam::Mat4,
    )
        ensures
            final (self).objects@ == Seq::<SceneObject>::empty(),
            final (self).batched_objects@ == Seq::<SceneObject>::empty(),
            final (self).meshes@ == Seq::<Mesh>::empty(),
            final (self).materials@ == Seq::<SceneMaterial>::empty(),
            final (self).eye_location == eye_location,
            final (self).eye_direction == eye_direction,
            final (self).directional_light_angle == directional_light_angle,
            final (self).y_to_z_matrix == y_to_z_matrix,
            final (self).ambient_light_color == (Color8 { r: 0, g: 0, b: 0, a: 255 }),
            final (self).background_color == (Color8 { r: 178, g: 178, b: 178, a: 255 }),
            final (self).scene_shading_type == ShadingType::Differed,
            final (self).differed_debug_type == 0,
            final (self).convert_y_to_z == true,
            final (self).is_first_update == true,
            final (self).use_batched == true,
            wf_scene(*final (self)),
    {
        *self = Scene::new(eye_location, eye_direction, directional_light_angle, y_to_z_matrix);
    }
}

} // verus!
