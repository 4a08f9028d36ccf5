//! Hierarchical transform resolution: every node's world transform is the
//! accumulated product of its ancestors' local transforms times its own,
//! optionally pre-multiplied by the scene-global up-axis conversion.

use vstd::prelude::*;

use crate::math::mat4_product;
use crate::scene::{
    chain_transform, link_of, links_of, resolved_world, resolved_world_converted, wf_links,
    wf_scene, Scene, SceneObject,
};

verus! {

impl Scene {
    /// Walks the parent chain of node `j` upward, left-multiplying each
    /// ancestor's local transform onto the accumulator. Terminates because
    /// `depth` strictly decreases along the chain of a well-formed scene.
    fn world_of_node(&self, j: usize) -> (r: glam::Mat4)
        requires
            wf_scene(*self),
            j < self.objects@.len(),
        ensures
            r == resolved_world(links_of(self.objects@), j as int),
    {
        let ghost links = links_of(self.objects@);
        proof {
            assert(links[j as int] == link_of(self.objects@[j as int]));
        }
        let mut acc: glam::Mat4 = self.objects[j].local_transform;
        let mut cur: usize = j;
        while self.objects[cur].parent_index.is_some()
            invariant
                wf_scene(*self),
                links == links_of(self.objects@),
                cur < self.objects@.len(),
                chain_transform(links, cur as int, acc) == resolved_world(links, j as int),
            decreases links[cur as int].depth,
        {
            proof {
                assert(links[cur as int] == link_of(self.objects@[cur as int]));
            }
            let p = self.objects[cur].parent_index.unwrap();
            proof {
                assert(links[p as int] == link_of(self.objects@[p as int]));
            }
            let parent_local: glam::Mat4 = self.objects[p as usize].local_transform;
            acc = parent_local.mul_mat4(&acc);
            cur = p as usize;
        }
        proof {
            assert(links[cur as int] == link_of(self.objects@[cur as int]));
        }
        acc
    }

    /// Recomputes every node's `world_transform` in place from the local
    /// transforms along its parent chain, applying the up-axis conversion
    /// when the scene asks for it. Only derived state changes: the node
    /// links, and every other part of the scene, are left as they were.
    pub fn resolve_world_transforms(&mut self)
        requires
            wf_scene(*old(self)),
        ensures
            final (self).objects@.len() == old(self).objects@.len(),
            forall|i: int|
                0 <= i < old(self).objects@.len() ==> final (self).objects@[i]
                    == (SceneObject {
                    world_transform: resolved_world_converted(
                        links_of(old(self).objects@),
                        i,
                        old(self).convert_y_to_z,
                        old(self).y_to_z_matrix,
                    ),
                    ..old(self).objects@[i]
                }),
            final (self).objects@ == resolved_objects(
                old(self).objects@,
                old(self).convert_y_to_z,
                old(self).y_to_z_matrix,
            ),
            *final (self) == (Scene { objects: final (self).objects, ..*old(self) }),
            wf_scene(*final (self)),
    {
        let ghost links = links_of(old(self).objects@);
        let n = self.objects.len();

        let mut worlds: Vec<glam::Mat4> = Vec::new();
        let mut i: usize = 0;
        while i < n
            invariant
                wf_scene(*self),
                self == old(self),
                n == self.objects@.len(),
                links == links_of(self.objects@),
                i <= n,
                worlds@.len() == i as int,
                forall|k: int| 0 <= k < i as int ==> worlds@[k] == resolved_world(links, k),
            decreases n - i,
        {
            let w = self.world_of_node(i);
            worlds.push(w);
            i = i + 1;
        }

        let mut i: usize = 0;
        while i < n
            invariant
                n == self.objects@.len(),
                n == old(self).objects@.len(),
                links == links_of(old(self).objects@),
                i <= n,
                worlds@.len() == n as int,
                forall|k: int| 0 <= k < n as int ==> worlds@[k] == resolved_world(links, k),
                forall|k: int|
                    i as int <= k < n as int ==> self.objects@[k] == old(self).objects@[k],
                forall|k: int|
                    0 <= k < i as int ==> self.objects@[k] == (SceneObject {
                        world_transform: resolved_world_converted(
                            links,
                            k,
                            old(self).convert_y_to_z,
                            old(self).y_to_z_matrix,
                        ),
                        ..old(self).objects@[k]
                    }),
                *self == (Scene { objects: self.objects, ..*old(self) }),
            decreases n - i,
        {
            let w: glam::Mat4 = if self.convert_y_to_z {
                self.y_to_z_matrix.mul_mat4(&worlds[i])
            } else {
                worlds[i]
            };
            let o = &mut self.objects[i];
            o.world_transform = w;
            i = i + 1;
        }

        proof {
            assert(links_of(self.objects@) =~= links_of(old(self).objects@));
            assert(self.objects@ =~= resolved_objects(
                old(self).objects@,
                old(self).convert_y_to_z,
                old(self).y_to_z_matrix,
            ));
        }
    }
}

/// The node table after one resolution pass: every world transform replaced
/// by the transform derived from the links, everything else untouched.
pub open spec fn resolved_objects(
    objects: Seq<SceneObject>,
    convert: bool,
    conversion: glam::Mat4,
) -> Seq<SceneObject> {
    Seq::new(
        objects.len(),
        |i: int|
            SceneObject {
                world_transform: resolved_world_converted(
                    links_of(objects),
                    i,
                    convert,
                    conversion,
                ),
                ..objects[i]
            },
    )
}

/// World transforms are a function of the node links (parent indices, local
/// transforms and depth witnesses) alone: two scenes whose links agree
/// resolve to identical world transforms, however their current world
/// transforms differ. This is why re-running the resolver over unchanged
/// local transforms reproduces bit-identical results.
pub proof fn lemma_resolution_reproducible(
    a: Seq<SceneObject>,
    b: Seq<SceneObject>,
    convert: bool,
    conversion: glam::Mat4,
)
    requires
        links_of(a) == links_of(b),
    ensures
        forall|i: int|
            0 <= i < a.len() ==> resolved_world_converted(links_of(a), i, convert, conversion)
                == resolved_world_converted(links_of(b), i, convert, conversion),
{
}

/// Resolution is idempotent over the input: resolving an already-resolved
/// node table reproduces it bit for bit, because derivation reads only the
/// links, which a pass never touches — the world transforms are derived
/// state, never authoritative input.
pub proof fn lemma_resolution_idempotent(
    objects: Seq<SceneObject>,
    convert: bool,
    conversion: glam::Mat4,
)
    ensures
        resolved_objects(resolved_objects(objects, convert, conversion), convert, conversion)
            == resolved_objects(objects, convert, conversion),
{
    let once = resolved_objects(objects, convert, conversion);
    assert(links_of(once) =~= links_of(objects));
    assert(resolved_objects(once, convert, conversion) =~= once);
}

/// A node with no parent stands exactly where it was authored: its resolved
/// world transform (before up-axis conversion) is its local transform.
pub proof fn lemma_root_world_is_local(links: Seq<crate::scene::NodeLink>, i: int)
    requires
        wf_links(links),
        0 <= i < links.len(),
        links[i].parent_index is None,
    ensures
        resolved_world(links, i) == links[i].local_transform,
{
}

} // verus!
