//! Core of a real-time 3D renderer: a scene graph with hierarchical
//! transform resolution, material-keyed mesh batching, a lazy per-node
//! render-resource cache, and the forward / deferred two-pass rendering
//! protocol, each with a verified contract.

use vstd::prelude::*;

mod batch;
mod bytes;
mod control;
mod load;
mod math;
mod pipeline;
mod resources;
mod scene;
mod transform;

pub use batch::batchable;
pub use batch::bucket_indices;
pub use batch::bucket_materials;
pub use batch::bucket_vertices;
pub use batch::lemma_batch_preserves_vertex_count;
pub use batch::lemma_batch_round_trip;
pub use batch::lemma_batched_indices_in_range;
pub use batch::lemma_bucket_materials_bounded;
pub use batch::lemma_bucket_materials_distinct;
pub use batch::lemma_no_material_no_bucket;
pub use batch::material_index_total;
pub use batch::material_vertex_total;
pub use batch::node_material;
pub use batch::shifted_indices;
pub use batch::transformed_vertex;
pub use batch::transformed_vertices;
pub use batch::BatchedMesh;
pub use control::color_hex_bytes;
pub use control::hex_digit_ascii;
pub use control::hex_digit_value;
pub use control::lemma_hex_color_round_trip;
pub use control::parse_hex_color;
pub use control::spec_camera_action;
pub use control::spec_parse_hex_color;
pub use control::update_control;
pub use control::CameraAction;
pub use control::ControlState;
pub use control::ControlUpdate;
pub use load::acyclic;
pub use load::build_objects;
pub use load::is_built_object;
pub use load::children_in_range;
pub use load::claims_child;
pub use load::mesh_refs_in_range;
pub use load::spec_parent_of;
pub use load::spec_parents;
pub use load::steps_plus;
pub use load::steps_to_root;
pub use load::unique_parents;
pub use load::valid_scene_input;
pub use load::NodeInput;
pub use load::SceneError;
pub use bytes::be_bytes_of;
pub use bytes::u32_of_be;
pub use bytes::encode_rgba_blob;
pub use bytes::lemma_be_round_trip;
pub use bytes::lemma_blob_round_trip;
pub use bytes::load_4byte_to_u32;
pub use bytes::parse_rgba_blob;
pub use bytes::u32_to_u8_vec;
pub use math::mat4_applied;
pub use math::mat4_identity;
pub use math::mat4_inverse_of;
pub use math::mat4_is_identity;
pub use math::mat4_product;
pub use math::mat4_rotation_part;
pub use math::rotation_part_of;
pub use pipeline::chosen_objects;
pub use pipeline::differed_frame_uniform;
pub use pipeline::draw_calls;
pub use pipeline::forward_pass;
pub use pipeline::gbuffer_albedo_clear;
pub use pipeline::gbuffer_normal_clear;
pub use pipeline::gbuffer_position_clear;
pub use pipeline::gbuffer_uniform;
pub use pipeline::lemma_no_nodes_no_draws;
pub use pipeline::phong_uniform;
pub use pipeline::DeferredFrame;
pub use pipeline::DeferredStage;
pub use pipeline::DifferedUniform;
pub use pipeline::DrawCall;
pub use pipeline::ForwardPassPlan;
pub use pipeline::FramePlan;
pub use pipeline::GBufferPassPlan;
pub use pipeline::LightingPassPlan;
pub use pipeline::PhongUniform;
pub use pipeline::WriteGBuffersUniform;
pub use resources::built_entry;
pub use resources::count_to_init;
pub use resources::ensure_resource;
pub use resources::holds_resource_for;
pub use resources::lemma_count_to_init_bounded;
pub use resources::lemma_ensure_resource_idempotent;
pub use resources::coherent_resources;
pub use resources::missing_texture_rgba;
pub use resources::sentinel_texel_rgba;
pub use resources::spec_texture_info;
pub use resources::texture_info;
pub use resources::uniform_word_count;
pub use resources::RenderResourceDesc;
pub use resources::ResourceCache;
pub use scene::chain_transform;
pub use transform::lemma_resolution_idempotent;
pub use transform::lemma_resolution_reproducible;
pub use transform::resolved_objects;
pub use transform::lemma_root_world_is_local;
pub use scene::link_of;
pub use scene::links_of;
pub use scene::resolved_world;
pub use scene::resolved_world_converted;
pub use scene::wf_links;
pub use scene::wf_mesh;
pub use scene::wf_meshes;
pub use scene::wf_objects;
pub use scene::wf_scene;
pub use scene::Color8;
pub use scene::Mesh;
pub use scene::NodeLink;
pub use scene::Scene;
pub use scene::SceneMaterial;
pub use scene::SceneObject;
pub use scene::ShadingType;
pub use scene::Vertex;

verus! {

} // verus!
