//! The rendering protocol. A frame is planned here and executed by an
//! embedder against its graphics device: the plan pins down, per mode,
//! which passes run in which order, what every attachment is cleared to,
//! and which node resources are drawn.
//!
//! The deferred path is a per-frame state machine: a geometry pass writes
//! world position, world normal and albedo into three intermediate targets
//! plus a shared depth buffer, then a screen-space resolve pass shades each
//! pixel once from those targets (or visualizes one raw channel in debug
//! mode). The forward path is the single-pass alternative against the
//! swapchain target directly.

use vstd::prelude::*;

use crate::math::{mat4_inverse_of, mat4_product, rotation_part_of};
use crate::resources::ResourceCache;
use crate::scene::{Color8, Scene, SceneObject, ShadingType};

verus! {

/// One indexed draw: which cache entry to bind and how many indices to
/// cover, with the texture bind set attached when the entry carries one.
#[derive(Clone, Copy, PartialEq, Eq, Structural, Debug)]
pub struct DrawCall {
    pub resource: u32,
    pub index_count: u32,
    pub uses_texture_binding: bool,
}

/// The draw list of a pass: one call for every node stamped with `mode`
/// that holds a valid resource, in node order.
pub open spec fn draw_calls(
    objects: Seq<SceneObject>,
    cache: ResourceCache,
    mode: ShadingType,
) -> Seq<DrawCall>
    decreases objects.len(),
{
    if objects.len() == 0 {
        Seq::empty()
    } else {
        let prev = draw_calls(objects.drop_last(), cache, mode);
        let o = objects.last();
        if o.shading_type == mode && o.render_resource is Some && (o.render_resource->Some_0
            as int) < cache.entries@.len() {
            prev.push(
                DrawCall {
                    resource: o.render_resource->Some_0,
                    index_count: cache.entries@[o.render_resource->Some_0 as int].index_count,
                    uses_texture_binding: cache.entries@[o.render_resource->Some_0 as int].uses_texture_binding,
                },
            )
        } else {
            prev
        }
    }
}

/// The world-position target clears to the zero vector with full alpha.
pub open spec fn gbuffer_position_clear() -> Color8 {
    Color8 { r: 0, g: 0, b: 0, a: 255 }
}

/// The normal target clears to a value read as "facing +Z", avoiding
/// divide-by-zero artifacts where no geometry was written.
pub open spec fn gbuffer_normal_clear() -> Color8 {
    Color8 { r: 0, g: 0, b: 255, a: 255 }
}

/// The albedo target clears to opaque black.
pub open spec fn gbuffer_albedo_clear() -> Color8 {
    Color8 { r: 0, g: 0, b: 0, a: 255 }
}

/// The deferred per-frame protocol: each frame re-enters `Uninitialized`,
/// populates the G-buffer, and resolves to the swapchain.
#[derive(Clone, Copy, PartialEq, Eq, Structural, Debug)]
pub enum DeferredStage {
    Uninitialized,
    GBufferPopulated,
    Resolved,
}

/// The deferred state machine for one frame.
pub struct DeferredFrame {
    pub stage: DeferredStage,
}

/// What the geometry pass does: clear the three intermediate targets and
/// the depth buffer to the documented sentinels, then draw every deferred
/// node with depth test and depth write enabled.
pub struct GBufferPassPlan {
    pub position_clear: Color8,
    pub normal_clear: Color8,
    pub albedo_clear: Color8,
    pub depth_clear_to_farthest: bool,
    pub depth_test: bool,
    pub draws: Vec<DrawCall>,
}

/// What the resolve pass does: clear the swapchain target to the scene
/// background, then draw one full-screen triangle pair (six vertices, no
/// vertex buffer) sampling the G-buffer — through the lit pipeline, or the
/// debug-visualization pipeline when a raw channel is selected. It never
/// depth-tests.
pub struct LightingPassPlan {
    pub background_clear: Color8,
    pub use_debug_pipeline: bool,
    pub fullscreen_vertex_count: u32,
    pub depth_test: bool,
}

/// What the forward pass does: clear the swapchain target and the depth
/// buffer, then draw every forward node directly with a standard depth
/// test, no intermediate targets.
pub struct ForwardPassPlan {
    pub background_clear: Color8,
    pub depth_clear_to_farthest: bool,
    pub depth_test: bool,
    pub draws: Vec<DrawCall>,
}

/// Builds the draw list for `mode` over `objects`.
#[verifier::loop_isolation(false)]
fn collect_draws(objects: &Vec<SceneObject>, cache: &ResourceCache, mode: ShadingType) -> (draws:
    Vec<DrawCall>)
    ensures
        draws@ == draw_calls(objects@, *cache, mode),
{
    let n = objects.len();
    let mut draws: Vec<DrawCall> = Vec::new();
    let mut i: usize = 0;
    while i < n
        invariant
            n == objects@.len(),
            i <= n,
            draws@ == draw_calls(objects@.take(i as int), *cache, mode),
        decreases n - i,
    {
        proof {
            assert(objects@.take(i as int + 1).drop_last() =~= objects@.take(i as int));
            assert(objects@.take(i as int + 1).last() == objects@[i as int]);
        }
        let o = &objects[i];
        if o.shading_type == mode {
            match o.render_resource {
                Option::Some(h) => {
                    if (h as usize) < cache.entries.len() {
                        let entry = &cache.entries[h as usize];
                        draws.push(
                            DrawCall {
                                resource: h,
                                index_count: entry.index_count,
                                uses_texture_binding: entry.uses_texture_binding,
                            },
                        );
                    }
                },
                Option::None => {},
            }
        }
        i = i + 1;
    }
    proof {
        assert(objects@.take(n as int) =~= objects@);
    }
    draws
}

impl DeferredFrame {
    /// A frame starts uninitialized.
    pub fn begin() -> (f: DeferredFrame)
        ensures
            f.stage == DeferredStage::Uninitialized,
    {
        DeferredFrame { stage: DeferredStage::Uninitialized }
    }

    /// Transition 1, the geometry pass: plans the clears of the three
    /// same-sized color targets and the depth buffer, and one draw per
    /// deferred node holding a valid resource. Runs exactly once per frame,
    /// before the resolve.
    pub fn gbuffer_pass(&mut self, objects: &Vec<SceneObject>, cache: &ResourceCache) -> (plan:
        GBufferPassPlan)
        requires
            old(self).stage == DeferredStage::Uninitialized,
        ensures
            final (self).stage == DeferredStage::GBufferPopulated,
            plan.position_clear == gbuffer_position_clear(),
            plan.normal_clear == gbuffer_normal_clear(),
            plan.albedo_clear == gbuffer_albedo_clear(),
            plan.depth_clear_to_farthest,
            plan.depth_test,
            plan.draws@ == draw_calls(objects@, *cache, ShadingType::Differed),
    {
        self.stage = DeferredStage::GBufferPopulated;
        GBufferPassPlan {
            position_clear: Color8 { r: 0, g: 0, b: 0, a: 255 },
            normal_clear: Color8 { r: 0, g: 0, b: 255, a: 255 },
            albedo_clear: Color8 { r: 0, g: 0, b: 0, a: 255 },
            depth_clear_to_farthest: true,
            depth_test: true,
            draws: collect_draws(objects, cache, ShadingType::Differed),
        }
    }

    /// Transition 2, the lighting/resolve pass: plans the full-screen
    /// triangle pair that shades each pixel once from the G-buffer — or,
    /// when a debug channel is selected, visualizes that raw channel —
    /// writing to the swapchain target without a depth test. Runs exactly
    /// once per frame, after the geometry pass.
    pub fn lighting_pass(&mut self, scene: &Scene) -> (plan: LightingPassPlan)
        requires
            old(self).stage == DeferredStage::GBufferPopulated,
        ensures
            final (self).stage == DeferredStage::Resolved,
            plan.background_clear == scene.background_color,
            plan.use_debug_pipeline == (scene.differed_debug_type != 0),
            plan.fullscreen_vertex_count == 6,
            !plan.depth_test,
    {
        self.stage = DeferredStage::Resolved;
        LightingPassPlan {
            background_clear: scene.background_color,
            use_debug_pipeline: scene.differed_debug_type != 0,
            fullscreen_vertex_count: 6,
            depth_test: false,
        }
    }
}

/// Plans the single forward pass: swapchain cleared to the background,
/// depth cleared to farthest, one draw per forward node holding a valid
/// resource, depth-tested.
pub fn forward_pass(scene: &Scene, objects: &Vec<SceneObject>, cache: &ResourceCache) -> (plan:
    ForwardPassPlan)
    ensures
        plan.background_clear == scene.background_color,
        plan.depth_clear_to_farthest,
        plan.depth_test,
        plan.draws@ == draw_calls(objects@, *cache, ShadingType::Forward),
{
    ForwardPassPlan {
        background_clear: scene.background_color,
        depth_clear_to_farthest: true,
        depth_test: true,
        draws: collect_draws(objects, cache, ShadingType::Forward),
    }
}

/// The whole frame, as planned by the orchestrator.
pub enum FramePlan {
    Differed { gbuffer: GBufferPassPlan, lighting: LightingPassPlan },
    Forward { pass: ForwardPassPlan },
    Idle,
}

/// Which node list a frame draws: the per-material batched nodes when the
/// scene asks for batching, the individual nodes otherwise.
pub open spec fn chosen_objects(s: Scene) -> Seq<SceneObject> {
    if s.use_batched {
        s.batched_objects@
    } else {
        s.objects@
    }
}

impl Scene {
    /// Plans one frame: selects the pipeline by the scene's shading type,
    /// and for the deferred path drives the state machine through geometry
    /// pass then resolve pass, in that order. A scene with no shading type
    /// selected draws nothing.
    pub fn render_frame(&self, cache: &ResourceCache) -> (plan: FramePlan)
        ensures
            match plan {
                FramePlan::Differed { gbuffer, lighting } => {
                    &&& self.scene_shading_type is Differed
                    &&& gbuffer.position_clear == gbuffer_position_clear()
                    &&& gbuffer.normal_clear == gbuffer_normal_clear()
                    &&& gbuffer.albedo_clear == gbuffer_albedo_clear()
                    &&& gbuffer.depth_clear_to_farthest
                    &&& gbuffer.depth_test
                    &&& gbuffer.draws@ == draw_calls(
                        chosen_objects(*self),
                        *cache,
                        ShadingType::Differed,
                    )
                    &&& lighting.background_clear == self.background_color
                    &&& lighting.use_debug_pipeline == (self.differed_debug_type != 0)
                    &&& lighting.fullscreen_vertex_count == 6
                    &&& !lighting.depth_test
                },
                FramePlan::Forward { pass } => {
                    &&& self.scene_shading_type is Forward
                    &&& pass.background_clear == self.background_color
                    &&& pass.depth_clear_to_farthest
                    &&& pass.depth_test
                    &&& pass.draws@ == draw_calls(
                        chosen_objects(*self),
                        *cache,
                        ShadingType::Forward,
                    )
                },
                FramePlan::Idle => self.scene_shading_type is Uninitialized,
            },
    {
        let objects: &Vec<SceneObject> = if self.use_batched {
            &self.batched_objects
        } else {
            &self.objects
        };
        match self.scene_shading_type {
            ShadingType::Differed => {
                let mut frame = DeferredFrame::begin();
                let gbuffer = frame.gbuffer_pass(objects, cache);
                let lighting = frame.lighting_pass(self);
                FramePlan::Differed { gbuffer, lighting }
            },
            ShadingType::Forward => {
                let pass = forward_pass(self, objects, cache);
                FramePlan::Forward { pass }
            },
            ShadingType::Uninitialized => FramePlan::Idle,
        }
    }
}

/// A pass over nodes of which none is stamped for `mode` with a valid
/// resource draws nothing: rendering an empty scene is exactly the
/// documented clears.
pub proof fn lemma_no_nodes_no_draws(
    objects: Seq<SceneObject>,
    cache: ResourceCache,
    mode: ShadingType,
)
    requires
        forall|i: int|
            0 <= i < objects.len() ==> !((#[trigger] objects[i]).shading_type == mode
                && objects[i].render_resource is Some && (objects[i].render_resource->Some_0
                as int) < cache.entries@.len()),
    ensures
        draw_calls(objects, cache, mode).len() == 0,
    decreases objects.len(),
{
    if objects.len() > 0 {
        assert(objects.last() == objects[objects.len() - 1]);
        assert(forall|i: int|
            0 <= i < objects.drop_last().len() ==> #[trigger] objects.drop_last()[i]
                == objects[i]);
        lemma_no_nodes_no_draws(objects.drop_last(), cache, mode);
    }
}

/// The per-object uniform payload of the deferred geometry pass: the
/// model, view, projection and rotation matrices, in that order.
pub struct WriteGBuffersUniform {
    pub model_matrix: glam::Mat4,
    pub view_matrix: glam::Mat4,
    pub projection_matrix: glam::Mat4,
    pub rotation_matrix: glam::Mat4,
}

/// Builds the deferred geometry-pass uniform for one node: the resolved
/// world transform as the model matrix, the caller's view and projection,
/// and the model's rotation component for transforming normals.
pub fn gbuffer_uniform(
    object: &SceneObject,
    view_matrix: glam::Mat4,
    projection_matrix: glam::Mat4,
) -> (u: WriteGBuffersUniform)
    ensures
        u.model_matrix == object.world_transform,
        u.view_matrix == view_matrix,
        u.projection_matrix == projection_matrix,
        u.rotation_matrix == rotation_part_of(object.world_transform),
{
    WriteGBuffersUniform {
        model_matrix: object.world_transform,
        view_matrix,
        projection_matrix,
        rotation_matrix: crate::math::mat4_rotation_part(&object.world_transform),
    }
}

/// The per-object uniform payload of the forward (Phong) pass: the full
/// transform, the light direction, the ambient color, and the transform's
/// inverse for view-independent normals.
pub struct PhongUniform {
    pub transform_matrix: glam::Mat4,
    pub directional_light: glam::Vec3,
    pub ambient_light: Color8,
    pub inverse_matrix: glam::Mat4,
}

/// Builds the forward-pass uniform for one node: projection times view
/// times model (associated exactly that way), the scene's light and
/// ambient, and the inverse of the full transform.
pub fn phong_uniform(
    object: &SceneObject,
    scene: &Scene,
    view_matrix: glam::Mat4,
    projection_matrix: glam::Mat4,
) -> (u: PhongUniform)
    ensures
        u.transform_matrix == mat4_product(
            mat4_product(projection_matrix, view_matrix),
            object.world_transform,
        ),
        u.directional_light == scene.directional_light_angle,
        u.ambient_light == scene.ambient_light_color,
        u.inverse_matrix == mat4_inverse_of(u.transform_matrix),
{
    let pv = projection_matrix.mul_mat4(&view_matrix);
    let transform_matrix = pv.mul_mat4(&object.world_transform);
    let inverse_matrix = transform_matrix.inverse();
    PhongUniform {
        transform_matrix,
        directional_light: scene.directional_light_angle,
        ambient_light: scene.ambient_light_color,
        inverse_matrix,
    }
}

/// The per-frame uniform payload of the resolve pass: the light direction,
/// the ambient color, the inverse view-projection for reconstructing
/// shading inputs from the G-buffer, and the debug channel selector.
pub struct DifferedUniform {
    pub directional_light: glam::Vec3,
    pub ambient_light: Color8,
    pub inverse_matrix: glam::Mat4,
    pub differed_debug_type: u8,
}

/// Builds the per-frame resolve uniform: the inverse of projection times
/// view, and the scene's light, ambient and debug selector.
pub fn differed_frame_uniform(
    scene: &Scene,
    view_matrix: glam::Mat4,
    projection_matrix: glam::Mat4,
) -> (u: DifferedUniform)
    ensures
        u.directional_light == scene.directional_light_angle,
        u.ambient_light == scene.ambient_light_color,
        u.inverse_matrix == mat4_inverse_of(mat4_product(projection_matrix, view_matrix)),
        u.differed_debug_type == scene.differed_debug_type,
{
    let pv = projection_matrix.mul_mat4(&view_matrix);
    let inverse_matrix = pv.inverse();
    DifferedUniform {
        directional_light: scene.directional_light_angle,
        ambient_light: scene.ambient_light_color,
        inverse_matrix,
        differed_debug_type: scene.differed_debug_type,
    }
}

} // verus!
