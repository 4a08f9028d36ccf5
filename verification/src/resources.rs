//! The render-resource cache: for each node and each shading mode, the
//! GPU-side objects (vertex/index buffers, uniform buffer, bind sets,
//! pipeline) are described once, lazily, and reused every frame after.
//! A node re-enters construction only when it is ensured for a different
//! mode than it currently holds, or after a wholesale invalidation (mode
//! switch or canvas resize).
//!
//! The cache owns descriptions, not GPU handles: an embedder mirrors the
//! entry table one-to-one with its device objects, creating them exactly
//! when an entry appears.

use vstd::prelude::*;

use crate::scene::{wf_mesh, Mesh, Scene, SceneMaterial, SceneObject, ShadingType};

verus! {

/// One cache entry: everything the GPU objects for a node in a mode are
/// built from.
#[derive(Clone, Copy, Debug)]
pub struct RenderResourceDesc {
    /// The mode the entry was built for.
    pub shading_type: ShadingType,
    /// How many indices the draw call covers.
    pub index_count: u32,
    /// The per-object uniform payload size, in 32-bit words.
    pub uniform_words: u32,
    /// Whether a second bind set with the base-color texture is attached.
    pub uses_texture_binding: bool,
    /// The pixel size of the bound base-color texture.
    pub texture_size: [u32; 2],
    /// Whether the one-texel sentinel stands in for an absent texture.
    pub texture_is_sentinel: bool,
}

/// The per-node-per-mode resource table. Entries are only ever appended or
/// cleared wholesale: a handle stays valid for the life of the scene.
pub struct ResourceCache {
    pub entries: Vec<RenderResourceDesc>,
}

/// The per-object uniform payload size of each mode, in 32-bit words: the
/// forward (Phong) payload is a transform, a light direction with padding,
/// an ambient color and an inverse transform; the deferred geometry payload
/// is four matrices.
pub open spec fn uniform_word_count(mode: ShadingType) -> u32 {
    match mode {
        ShadingType::Forward => 40,
        ShadingType::Differed => 64,
        ShadingType::Uninitialized => 0,
    }
}

/// The base-color texture a material resolves to: its authored size, or the
/// one-texel sentinel when nothing was authored (or the reference dangles).
pub open spec fn spec_texture_info(material: Option<u32>, materials: Seq<SceneMaterial>) -> (
    [u32; 2],
    bool,
) {
    match material {
        Option::Some(mi) => {
            if (mi as int) < materials.len() && materials[mi as int].base_color_texture@.len()
                > 0 {
                (materials[mi as int].base_color_texture_size, false)
            } else {
                ([1, 1], true)
            }
        },
        Option::None => ([1, 1], true),
    }
}

/// The entry built for `mesh` in `mode`.
pub open spec fn built_entry(
    mesh: Mesh,
    materials: Seq<SceneMaterial>,
    mode: ShadingType,
) -> RenderResourceDesc {
    RenderResourceDesc {
        shading_type: mode,
        index_count: mesh.indices@.len() as u32,
        uniform_words: uniform_word_count(mode),
        uses_texture_binding: mode is Differed,
        texture_size: spec_texture_info(mesh.material, materials).0,
        texture_is_sentinel: spec_texture_info(mesh.material, materials).1,
    }
}

/// Cache coherence: every node that holds a resource holds a handle to an
/// entry that was built for that node's mesh in the mode the node is
/// stamped with. A freshly loaded scene (no resources) is trivially
/// coherent, and every pass preserves coherence.
pub open spec fn coherent_resources(
    objects: Seq<SceneObject>,
    meshes: Seq<Mesh>,
    materials: Seq<SceneMaterial>,
    cache: ResourceCache,
) -> bool {
    forall|i: int|
        0 <= i < objects.len() ==> match #[trigger] objects[i].render_resource {
            Option::None => true,
            Option::Some(h) => {
                &&& (h as int) < cache.entries@.len()
                &&& objects[i].mesh is Some
                &&& (objects[i].mesh->Some_0 as int) < meshes.len()
                &&& cache.entries@[h as int] == built_entry(
                    meshes[objects[i].mesh->Some_0 as int],
                    materials,
                    objects[i].shading_type,
                )
            },
        }
}

/// The nodes with a mesh whose resource a pass over `objects` must still
/// construct for `mode`: those not already holding a valid resource built
/// for that mode.
pub open spec fn count_to_init(
    objects: Seq<SceneObject>,
    mode: ShadingType,
    cache_len: int,
) -> nat
    decreases objects.len(),
{
    if objects.len() == 0 {
        0
    } else {
        let prev = count_to_init(objects.drop_last(), mode, cache_len);
        let o = objects.last();
        if o.mesh is Some && !(o.render_resource is Some && o.shading_type == mode
            && (o.render_resource->Some_0 as int) < cache_len) {
            prev + 1
        } else {
            prev
        }
    }
}

/// No pass constructs more entries than it scans nodes.
pub proof fn lemma_count_to_init_bounded(
    objects: Seq<SceneObject>,
    mode: ShadingType,
    cache_len: int,
)
    ensures
        count_to_init(objects, mode, cache_len) <= objects.len(),
    decreases objects.len(),
{
    if objects.len() > 0 {
        lemma_count_to_init_bounded(objects.drop_last(), mode, cache_len);
    }
}

impl ResourceCache {
    /// An empty cache.
    pub fn new() -> (r: ResourceCache)
        ensures
            r.entries@ == Seq::<RenderResourceDesc>::empty(),
    {
        ResourceCache { entries: Vec::new() }
    }
}

/// The fast-path guard of [`ensure_resource`]: the node already holds a
/// resource that was built for this very mode.
pub open spec fn holds_resource_for(o: SceneObject, cache: ResourceCache, mode: ShadingType) -> bool {
    &&& o.render_resource is Some
    &&& o.shading_type == mode
    &&& (o.render_resource->Some_0 as int) < cache.entries@.len()
}

/// Ensuring twice is ensuring once: the state in which a call to
/// [`ensure_resource`] leaves a node — holding `handle` into the cache,
/// stamped with the mode — is precisely the fast-path guard of a repeated
/// call with the same mode, which by contract returns the same handle and
/// leaves both the node and the cache untouched.
pub proof fn lemma_ensure_resource_idempotent(
    object: SceneObject,
    cache: ResourceCache,
    mode: ShadingType,
    handle: u32,
)
    requires
        object.render_resource == Option::Some(handle),
        object.shading_type == mode,
        (handle as int) < cache.entries@.len(),
    ensures
        holds_resource_for(object, cache, mode),
{
}

/// Ensures the GPU resources for one node in one mode exist: returns the
/// node's handle unchanged when the node already holds one built for this
/// mode (the idempotent fast path — nothing is allocated), and otherwise
/// appends one freshly built entry, points the node at it and stamps the
/// node with the mode.
pub fn ensure_resource(
    cache: &mut ResourceCache,
    object: &mut SceneObject,
    meshes: &Vec<Mesh>,
    materials: &Vec<SceneMaterial>,
    mode: ShadingType,
) -> (handle: u32)
    requires
        mode is Differed || mode is Forward,
        old(object).mesh is Some,
        (old(object).mesh->Some_0 as int) < meshes@.len(),
        wf_mesh(meshes@[old(object).mesh->Some_0 as int]),
        old(cache).entries@.len() < u32::MAX,
    ensures
        final (object).render_resource == Option::Some(handle),
        final (object).shading_type == mode,
        (handle as int) < final (cache).entries@.len(),
        holds_resource_for(*old(object), *old(cache), mode) ==> {
            &&& *final (cache) == *old(cache)
            &&& *final (object) == *old(object)
            &&& handle == old(object).render_resource->Some_0
        },
        !holds_resource_for(*old(object), *old(cache), mode) ==> {
            &&& handle as int == old(cache).entries@.len()
            &&& final (cache).entries@ == old(cache).entries@.push(
                built_entry(meshes@[old(object).mesh->Some_0 as int], materials@, mode),
            )
            &&& *final (object) == (SceneObject {
                shading_type: mode,
                render_resource: Option::Some(handle),
                ..*old(object)
            })
        },
{
    match object.render_resource {
        Option::Some(h) => {
            if object.shading_type == mode && (h as usize) < cache.entries.len() {
                return h;
            }
        },
        Option::None => {},
    }
    let h = object.mesh.unwrap();
    let mesh = &meshes[h as usize];
    let (texture_size, texture_is_sentinel) = texture_info(mesh.material, materials);
    let uniform_words: u32 = match mode {
        ShadingType::Forward => 40,
        ShadingType::Differed => 64,
        ShadingType::Uninitialized => 0,
    };
    let entry = RenderResourceDesc {
        shading_type: mode,
        index_count: mesh.indices.len() as u32,
        uniform_words,
        uses_texture_binding: match mode {
            ShadingType::Differed => true,
            _ => false,
        },
        texture_size,
        texture_is_sentinel,
    };
    let handle: u32 = cache.entries.len() as u32;
    cache.entries.push(entry);
    object.shading_type = mode;
    object.render_resource = Option::Some(handle);
    handle
}

/// Resolves a material reference to the texture actually bound: the
/// authored size, or the one-texel sentinel when the material is absent,
/// dangling or textureless.
pub fn texture_info(material: Option<u32>, materials: &Vec<SceneMaterial>) -> (r: ([u32; 2], bool))
    ensures
        r == spec_texture_info(material, materials@),
{
    match material {
        Option::Some(mi) => {
            if (mi as usize) < materials.len() {
                let m = &materials[mi as usize];
                if m.base_color_texture.len() > 0 {
                    return (m.base_color_texture_size, false);
                }
            }
            ([1, 1], true)
        },
        Option::None => ([1, 1], true),
    }
}

/// The one-texel magenta sentinel a loader substitutes when a material has
/// no authored base-color texture.
pub fn missing_texture_rgba() -> (r: Vec<u8>)
    ensures
        r@ == seq![255u8, 0u8, 255u8, 255u8],
{
    let mut out: Vec<u8> = Vec::new();
    out.push(255);
    out.push(0);
    out.push(255);
    out.push(255);
    proof {
        assert(out@ =~= seq![255u8, 0u8, 255u8, 255u8]);
    }
    out
}

/// The one-texel opaque white a renderer binds when a texture is missing at
/// bind time.
pub fn sentinel_texel_rgba() -> (r: Vec<u8>)
    ensures
        r@ == seq![255u8, 255u8, 255u8, 255u8],
{
    let mut out: Vec<u8> = Vec::new();
    out.push(255);
    out.push(255);
    out.push(255);
    out.push(255);
    proof {
        assert(out@ =~= seq![255u8, 255u8, 255u8, 255u8]);
    }
    out
}

impl Scene {
    /// The explicit per-frame "ensure resources" pass: every node that
    /// carries a mesh ends up holding a resource built for `mode`, reusing
    /// what the cache already holds for that mode and constructing the rest.
    /// Existing cache entries are never touched, so handles held elsewhere
    /// stay valid; the cache grows by exactly the number of nodes that
    /// needed construction.
    #[verifier::loop_isolation(false)]
    pub fn ensure_resources(&mut self, cache: &mut ResourceCache, mode: ShadingType)
        requires
            mode is Differed || mode is Forward,
            crate::scene::wf_scene(*old(self)),
            coherent_resources(
                old(self).objects@,
                old(self).meshes@,
                old(self).materials@,
                *old(cache),
            ),
            old(cache).entries@.len() + old(self).objects@.len() <= u32::MAX,
        ensures
            final (cache).entries@.len() == old(cache).entries@.len() + count_to_init(
                old(self).objects@,
                mode,
                old(cache).entries@.len() as int,
            ),
            forall|k: int|
                0 <= k < old(cache).entries@.len() ==> #[trigger] final (cache).entries@[k] == old(
                    cache,
                ).entries@[k],
            final (self).objects@.len() == old(self).objects@.len(),
            forall|i: int|
                0 <= i < old(self).objects@.len() ==> {
                    let o = old(self).objects@[i];
                    let o2 = #[trigger] final (self).objects@[i];
                    &&& (o.mesh is None ==> o2 == o)
                    &&& (o.mesh is Some ==> {
                        &&& o2.shading_type == mode
                        &&& o2.render_resource is Some
                        &&& (o2.render_resource->Some_0 as int) < final (cache).entries@.len()
                        &&& final (cache).entries@[o2.render_resource->Some_0 as int]
                            == built_entry(
                            old(self).meshes@[o.mesh->Some_0 as int],
                            old(self).materials@,
                            mode,
                        )
                        &&& o2 == (SceneObject {
                            shading_type: o2.shading_type,
                            render_resource: o2.render_resource,
                            ..o
                        })
                        &&& (holds_resource_for(o, *old(cache), mode) ==> o2 == o)
                    })
                },
            coherent_resources(
                final (self).objects@,
                final (self).meshes@,
                final (self).materials@,
                *final (cache),
            ),
            *final (self) == (Scene { objects: final (self).objects, ..*old(self) }),
            crate::scene::wf_scene(*final (self)),
    {
        let ghost olds = old(self).objects@;
        let ghost len0 = old(cache).entries@.len() as int;
        let n = self.objects.len();
        let mut i: usize = 0;
        while i < n
            invariant
                n == self.objects@.len(),
                n == olds.len(),
                i <= n,
                cache.entries@.len() == len0 + count_to_init(
                    olds.take(i as int),
                    mode,
                    len0,
                ),
                forall|k: int|
                    0 <= k < len0 ==> #[trigger] cache.entries@[k] == old(cache).entries@[k],
                forall|i2: int| i as int <= i2 < n ==> #[trigger] self.objects@[i2] == olds[i2],
                forall|i2: int|
                    0 <= i2 < i as int ==> {
                        let o = olds[i2];
                        let o2 = #[trigger] self.objects@[i2];
                        &&& (o.mesh is None ==> o2 == o)
                        &&& (o.mesh is Some ==> {
                            &&& o2.shading_type == mode
                            &&& o2.render_resource is Some
                            &&& (o2.render_resource->Some_0 as int) < cache.entries@.len()
                            &&& cache.entries@[o2.render_resource->Some_0 as int] == built_entry(
                                old(self).meshes@[o.mesh->Some_0 as int],
                                old(self).materials@,
                                mode,
                            )
                            &&& o2 == (SceneObject {
                                shading_type: o2.shading_type,
                                render_resource: o2.render_resource,
                                ..o
                            })
                            &&& (holds_resource_for(o, *old(cache), mode) ==> o2 == o)
                        })
                    },
                *self == (Scene { objects: self.objects, ..*old(self) }),
            decreases n - i,
        {
            proof {
                assert(olds.take(i as int + 1).drop_last() =~= olds.take(i as int));
                assert(olds.take(i as int + 1).last() == olds[i as int]);
            }
            proof {
                lemma_count_to_init_bounded(olds.take(i as int), mode, len0);
                if olds[i as int].render_resource is Some {
                    let h = olds[i as int].render_resource->Some_0;
                    assert((h as int) < len0);
                    assert(cache.entries@[h as int] == built_entry(
                        old(self).meshes@[olds[i as int].mesh->Some_0 as int],
                        old(self).materials@,
                        olds[i as int].shading_type,
                    ));
                }
            }
            let has_mesh = self.objects[i].mesh.is_some();
            if has_mesh {
                let obj = &mut self.objects[i];
                ensure_resource(cache, obj, &self.meshes, &self.materials, mode);
            }
            i = i + 1;
        }
        proof {
            assert(olds.take(n as int) =~= olds);
            assert(crate::scene::links_of(self.objects@) =~= crate::scene::links_of(
                old(self).objects@,
            ));
            assert forall|i2: int|
                0 <= i2 < self.objects@.len() implies match (#[trigger] self.objects@[i2]).render_resource {
                Option::None => true,
                Option::Some(h) => {
                    &&& (h as int) < cache.entries@.len()
                    &&& self.objects@[i2].mesh is Some
                    &&& (self.objects@[i2].mesh->Some_0 as int) < self.meshes@.len()
                    &&& cache.entries@[h as int] == built_entry(
                        self.meshes@[self.objects@[i2].mesh->Some_0 as int],
                        self.materials@,
                        self.objects@[i2].shading_type,
                    )
                },
            } by {
                if olds[i2].mesh is None {
                    assert(self.objects@[i2] == olds[i2]);
                }
            }
        }
    }

    /// Drops every node's resource and empties the cache: the wholesale
    /// invalidation a shading-mode switch or a canvas resize forces, since
    /// size-dependent attachments must be recreated. Both the node table and
    /// the batched nodes are reset; everything else stays as it was.
    #[verifier::loop_isolation(false)]
    pub fn invalidate_resources(&mut self, cache: &mut ResourceCache)
        ensures
            final (cache).entries@ == Seq::<RenderResourceDesc>::empty(),
            final (self).objects@.len() == old(self).objects@.len(),
            final (self).batched_objects@.len() == old(self).batched_objects@.len(),
            forall|i: int|
                0 <= i < old(self).objects@.len() ==> #[trigger] final (self).objects@[i]
                    == (SceneObject {
                    shading_type: ShadingType::Uninitialized,
                    render_resource: Option::None,
                    ..old(self).objects@[i]
                }),
            forall|i: int|
                0 <= i < old(self).batched_objects@.len() ==> #[trigger] final (self).batched_objects@[i] == (SceneObject {
                    shading_type: ShadingType::Uninitialized,
                    render_resource: Option::None,
                    ..old(self).batched_objects@[i]
                }),
            *final (self) == (Scene {
                objects: final (self).objects,
                batched_objects: final (self).batched_objects,
                ..*old(self)
            }),
            coherent_resources(
                final (self).objects@,
                final (self).meshes@,
                final (self).materials@,
                *final (cache),
            ),
            crate::scene::wf_scene(*old(self)) ==> crate::scene::wf_scene(*final (self)),
    {
        cache.entries = Vec::new();
        let n = self.objects.len();
        let mut i: usize = 0;
        while i < n
            invariant
                n == self.objects@.len(),
                i <= n,
                forall|k: int| i as int <= k < n ==> self.objects@[k] == old(self).objects@[k],
                forall|k: int|
                    0 <= k < i as int ==> #[trigger] self.objects@[k] == (SceneObject {
                        shading_type: ShadingType::Uninitialized,
                        render_resource: Option::None,
                        ..old(self).objects@[k]
                    }),
                self.batched_objects@ == old(self).batched_objects@,
                *self == (Scene {
                    objects: self.objects,
                    batched_objects: self.batched_objects,
                    ..*old(self)
                }),
            decreases n - i,
        {
            let o = &mut self.objects[i];
            o.shading_type = ShadingType::Uninitialized;
            o.render_resource = Option::None;
            i = i + 1;
        }
        let bn = self.batched_objects.len();
        let mut i: usize = 0;
        while i < bn
            invariant
                bn == self.batched_objects@.len(),
                i <= bn,
                forall|k: int|
                    i as int <= k < bn ==> self.batched_objects@[k] == old(
                        self,
                    ).batched_objects@[k],
                forall|k: int|
                    0 <= k < i as int ==> #[trigger] self.batched_objects@[k] == (SceneObject {
                        shading_type: ShadingType::Uninitialized,
                        render_resource: Option::None,
                        ..old(self).batched_objects@[k]
                    }),
                self.objects@.len() == old(self).objects@.len(),
                forall|k: int|
                    0 <= k < self.objects@.len() ==> #[trigger] self.objects@[k] == (SceneObject {
                        shading_type: ShadingType::Uninitialized,
                        render_resource: Option::None,
                        ..old(self).objects@[k]
                    }),
                *self == (Scene {
                    objects: self.objects,
                    batched_objects: self.batched_objects,
                    ..*old(self)
                }),
            decreases bn - i,
        {
            let o = &mut self.batched_objects[i];
            o.shading_type = ShadingType::Uninitialized;
            o.render_resource = Option::None;
            i = i + 1;
        }
        proof {
            if crate::scene::wf_scene(*old(self)) {
                assert(crate::scene::links_of(self.objects@) =~= crate::scene::links_of(
                    old(self).objects@,
                ));
            }
        }
    }
}

} // verus!
