//! Scene construction: turning a loader-produced flat node list (with
//! forward child references) into a validated node table with unique parent
//! links and per-node depth witnesses.
//!
//! Validation fails fast, as continuing with malformed links would corrupt
//! transform resolution silently: a child index out of range, a child listed
//! under two parents, a parent cycle, a dangling mesh reference or malformed
//! mesh indices each reject the whole load.

use vstd::prelude::*;

use crate::scene::{
    wf_mesh, wf_meshes, wf_scene, Mesh, Scene, SceneMaterial, SceneObject, ShadingType,
};

verus! {

/// One node as the loader hands it over: the authored local transform,
/// forward references to the children, and an optional mesh handle.
pub struct NodeInput {
    pub _name: Option<String>,
    pub local_transform: glam::Mat4,
    pub child_index: Vec<u32>,
    pub mesh: Option<u32>,
}

/// Why a load was rejected.
#[derive(Clone, Copy, PartialEq, Eq, Structural, Debug)]
pub enum SceneError {
    /// More nodes than a 32-bit index can address.
    TooManyNodes,
    /// A node lists a child index outside the node table.
    ChildIndexOutOfRange,
    /// A node is listed as a child under two parents (or twice under one).
    DuplicateParent,
    /// A parent chain never reaches a root.
    CycleDetected,
    /// A node references a mesh outside the mesh arena.
    MeshIndexOutOfRange,
    /// A mesh has an index outside its own vertex list, or more indices than
    /// a 32-bit draw count can address.
    InvalidMeshIndices,
    /// A material bucket would hold more vertices than a 32-bit index can
    /// address.
    TooManyVertices,
    /// A material bucket would hold more indices than a 32-bit draw count
    /// can address.
    TooManyIndices,
}

/// Every child reference stays inside the node table.
pub open spec fn children_in_range(inputs: Seq<NodeInput>) -> bool {
    forall|j: int, k: int|
        0 <= j < inputs.len() && 0 <= k < inputs[j].child_index@.len() ==> (
        #[trigger] inputs[j].child_index@[k] as int) < inputs.len()
}

/// Node `j` lists `c` among its children.
pub open spec fn claims_child(inputs: Seq<NodeInput>, j: int, c: u32) -> bool {
    exists|k: int| 0 <= k < inputs[j].child_index@.len() && inputs[j].child_index@[k] == c
}

/// No child is listed twice, neither under two parents nor twice under one.
pub open spec fn unique_parents(inputs: Seq<NodeInput>) -> bool {
    forall|j1: int, k1: int, j2: int, k2: int|
        0 <= j1 < inputs.len() && 0 <= k1 < inputs[j1].child_index@.len() && 0 <= j2
            < inputs.len() && 0 <= k2 < inputs[j2].child_index@.len()
            && #[trigger] inputs[j1].child_index@[k1] == #[trigger] inputs[j2].child_index@[k2]
            ==> j1 == j2 && k1 == k2
}

/// The parent of node `c` as the child lists imply it: the node that lists
/// `c`, if any. (Meaningful when `unique_parents` holds; `choose` then picks
/// the only candidate.)
pub open spec fn spec_parent_of(inputs: Seq<NodeInput>, c: int) -> Option<u32> {
    if exists|j: int| 0 <= j < inputs.len() && #[trigger] claims_child(inputs, j, c as u32) {
        Option::Some(
            (choose|j: int|
                0 <= j < inputs.len() && #[trigger] claims_child(inputs, j, c as u32)) as u32,
        )
    } else {
        Option::None
    }
}

/// All derived parent links at once.
pub open spec fn spec_parents(inputs: Seq<NodeInput>) -> Seq<Option<u32>> {
    Seq::new(inputs.len(), |c: int| spec_parent_of(inputs, c))
}

/// How many steps the parent chain of `j` takes to reach a root, walking at
/// most `fuel` links: `None` when the chain leaves the table, or when `fuel`
/// runs out before a root appears.
pub open spec fn steps_to_root(parents: Seq<Option<u32>>, j: int, fuel: nat) -> Option<nat>
    decreases fuel,
{
    if !(0 <= j < parents.len()) {
        Option::None
    } else {
        match parents[j] {
            Option::None => Option::Some(0),
            Option::Some(p) => {
                if fuel == 0 {
                    Option::None
                } else {
                    match steps_to_root(parents, p as int, (fuel - 1) as nat) {
                        Option::None => Option::None,
                        Option::Some(d) => Option::Some(d + 1),
                    }
                }
            },
        }
    }
}

/// `d` more steps in front of a partial walk.
pub open spec fn steps_plus(d: nat, rest: Option<nat>) -> Option<nat> {
    match rest {
        Option::None => Option::None,
        Option::Some(k) => Option::Some(d + k),
    }
}

/// Every parent chain reaches a root within as many steps as there are
/// nodes: the links form a forest.
pub open spec fn acyclic(parents: Seq<Option<u32>>) -> bool {
    forall|i: int|
        0 <= i < parents.len() ==> (#[trigger] steps_to_root(
            parents,
            i,
            parents.len() as nat,
        )) is Some
}

/// Every mesh reference of the inputs stays inside the mesh arena.
pub open spec fn mesh_refs_in_range(inputs: Seq<NodeInput>, mesh_count: int) -> bool {
    forall|i: int|
        0 <= i < inputs.len() ==> match #[trigger] inputs[i].mesh {
            Option::None => true,
            Option::Some(h) => (h as int) < mesh_count,
        }
}

/// The inputs a load accepts: addressable node count, child references in
/// range and claimed at most once, acyclic parent links, mesh references in
/// range, and well-formed meshes.
pub open spec fn valid_scene_input(inputs: Seq<NodeInput>, meshes: Seq<Mesh>) -> bool {
    &&& inputs.len() <= u32::MAX
    &&& children_in_range(inputs)
    &&& unique_parents(inputs)
    &&& acyclic(spec_parents(inputs))
    &&& mesh_refs_in_range(inputs, meshes.len() as int)
    &&& wf_meshes(meshes)
}

/// The node the builder makes of input `i`: parent derived from the child
/// lists, the world transform seeded with the local one, shading not yet
/// initialized. (The child list is compared by contents: the builder copies
/// it.)
pub open spec fn is_built_object(o: SceneObject, inputs: Seq<NodeInput>, i: int) -> bool {
    &&& o._name == inputs[i]._name
    &&& o.index == i as u32
    &&& o.parent_index == spec_parent_of(inputs, i)
    &&& o.child_index@ == inputs[i].child_index@
    &&& o.local_transform == inputs[i].local_transform
    &&& o.world_transform == inputs[i].local_transform
    &&& o.mesh == inputs[i].mesh
    &&& o.shading_type == ShadingType::Uninitialized
    &&& o.render_resource is None
}

/// A walk that succeeds with some fuel succeeds identically with more.
proof fn lemma_steps_fuel_mono(parents: Seq<Option<u32>>, j: int, f1: nat, f2: nat)
    requires
        steps_to_root(parents, j, f1) is Some,
        f1 <= f2,
    ensures
        steps_to_root(parents, j, f2) == steps_to_root(parents, j, f1),
    decreases f1,
{
    if 0 <= j < parents.len() {
        match parents[j] {
            Option::None => {},
            Option::Some(p) => {
                lemma_steps_fuel_mono(parents, p as int, (f1 - 1) as nat, (f2 - 1) as nat);
            },
        }
    }
}

/// Checks that every mesh keeps its indices inside its own vertex list and
/// its index count inside the 32-bit draw range.
#[verifier::loop_isolation(false)]
fn check_meshes(meshes: &Vec<Mesh>) -> (ok: bool)
    ensures
        ok == wf_meshes(meshes@),
{
    let mut h: usize = 0;
    while h < meshes.len()
        invariant
            h <= meshes.len(),
            forall|h2: int| 0 <= h2 < h as int ==> wf_mesh(#[trigger] meshes@[h2]),
        decreases meshes.len() - h,
    {
        let m = &meshes[h];
        if m.indices.len() > u32::MAX as usize {
            proof {
                assert(!wf_mesh(meshes@[h as int]));
            }
            return false;
        }
        let vcount = m.vertices.len();
        let mut k: usize = 0;
        while k < m.indices.len()
            invariant
                k <= m.indices@.len(),
                vcount == m.vertices@.len(),
                forall|k2: int| 0 <= k2 < k as int ==> (#[trigger] m.indices@[k2] as int) < vcount,
            decreases m.indices.len() - k,
        {
            if m.indices[k] as usize >= vcount {
                proof {
                    assert(!wf_mesh(meshes@[h as int]));
                }
                return false;
            }
            k = k + 1;
        }
        h = h + 1;
    }
    true
}

/// A claim `(j, k)` comes before the cursor `(j0, k0)` in scan order.
spec fn claim_before(j: int, k: int, j0: int, k0: int) -> bool {
    j < j0 || (j == j0 && k < k0)
}

/// Derives the parent of every node from the child lists, rejecting a child
/// reference out of range and a child claimed twice.
#[verifier::loop_isolation(false)]
fn derive_parents(inputs: &Vec<NodeInput>) -> (r: Result<Vec<Option<u32>>, SceneError>)
    requires
        inputs@.len() <= u32::MAX,
    ensures
        match r {
            Result::Ok(parents) => {
                &&& children_in_range(inputs@)
                &&& unique_parents(inputs@)
                &&& parents@.len() == inputs@.len()
                &&& forall|c: int|
                    0 <= c < inputs@.len() ==> #[trigger] parents@[c] == spec_parent_of(inputs@, c)
                &&& forall|c: int|
                    0 <= c < inputs@.len() ==> match #[trigger] parents@[c] {
                        Option::None => true,
                        Option::Some(p) => (p as int) < inputs@.len(),
                    }
            },
            Result::Err(e) => {
                &&& (e == SceneError::ChildIndexOutOfRange || e == SceneError::DuplicateParent)
                &&& e == SceneError::ChildIndexOutOfRange ==> !children_in_range(inputs@)
                &&& e == SceneError::DuplicateParent ==> !unique_parents(inputs@)
            },
        },
{
    let n = inputs.len();
    let mut parents: Vec<Option<u32>> = Vec::new();
    let mut c: usize = 0;
    while c < n
        invariant
            parents@.len() == c as int,
            c <= n,
            forall|c2: int| 0 <= c2 < c as int ==> #[trigger] parents@[c2] is None,
        decreases n - c,
    {
        parents.push(Option::None);
        c = c + 1;
    }

    let mut j: usize = 0;
    while j < n
        invariant
            n == inputs@.len(),
            parents@.len() == n as int,
            j <= n,
            // every scanned claim was in range
            forall|j2: int, k2: int|
                0 <= j2 < n as int && 0 <= k2 < inputs@[j2].child_index@.len() && claim_before(
                    j2,
                    k2,
                    j as int,
                    0,
                ) ==> (#[trigger] inputs@[j2].child_index@[k2] as int) < n as int,
            // no two scanned claims name the same child
            forall|j1: int, k1: int, j2: int, k2: int|
                0 <= j1 < n as int && 0 <= k1 < inputs@[j1].child_index@.len() && 0 <= j2
                    < n as int && 0 <= k2 < inputs@[j2].child_index@.len() && claim_before(
                    j1,
                    k1,
                    j as int,
                    0,
                ) && claim_before(j2, k2, j as int, 0)
                    && #[trigger] inputs@[j1].child_index@[k1]
                    == #[trigger] inputs@[j2].child_index@[k2] ==> j1 == j2 && k1 == k2,
            // the table mirrors the scanned claims
            forall|c2: int|
                0 <= c2 < n as int ==> match #[trigger] parents@[c2] {
                    Option::Some(pj) => 0 <= pj < n && exists|k2: int|
                        0 <= k2 < inputs@[pj as int].child_index@.len() && claim_before(
                            pj as int,
                            k2,
                            j as int,
                            0,
                        ) && inputs@[pj as int].child_index@[k2] == c2 as u32,
                    Option::None => forall|j2: int, k2: int|
                        0 <= j2 < n as int && 0 <= k2 < inputs@[j2].child_index@.len()
                            && claim_before(j2, k2, j as int, 0) ==> #[trigger] inputs@[j2].child_index@[k2]
                            != c2 as u32,
                },
        decreases n - j,
    {
        let children = &inputs[j].child_index;
        let mut k: usize = 0;
        while k < children.len()
            invariant
                n == inputs@.len(),
                parents@.len() == n as int,
                j < n,
                k <= children@.len(),
                children@ == inputs@[j as int].child_index@,
                forall|j2: int, k2: int|
                    0 <= j2 < n as int && 0 <= k2 < inputs@[j2].child_index@.len() && claim_before(
                        j2,
                        k2,
                        j as int,
                        k as int,
                    ) ==> (#[trigger] inputs@[j2].child_index@[k2] as int) < n as int,
                forall|j1: int, k1: int, j2: int, k2: int|
                    0 <= j1 < n as int && 0 <= k1 < inputs@[j1].child_index@.len() && 0 <= j2
                        < n as int && 0 <= k2 < inputs@[j2].child_index@.len() && claim_before(
                        j1,
                        k1,
                        j as int,
                        k as int,
                    ) && claim_before(j2, k2, j as int, k as int)
                        && #[trigger] inputs@[j1].child_index@[k1]
                        == #[trigger] inputs@[j2].child_index@[k2] ==> j1 == j2 && k1 == k2,
                forall|c2: int|
                    0 <= c2 < n as int ==> match #[trigger] parents@[c2] {
                        Option::Some(pj) => 0 <= pj < n && exists|k2: int|
                            0 <= k2 < inputs@[pj as int].child_index@.len() && claim_before(
                                pj as int,
                                k2,
                                j as int,
                                k as int,
                            ) && inputs@[pj as int].child_index@[k2] == c2 as u32,
                        Option::None => forall|j2: int, k2: int|
                            0 <= j2 < n as int && 0 <= k2 < inputs@[j2].child_index@.len()
                                && claim_before(j2, k2, j as int, k as int) ==> #[trigger] inputs@[j2].child_index@[k2]
                                != c2 as u32,
                    },
            decreases children.len() - k,
        {
            let child = children[k];
            if child as usize >= n {
                return Result::Err(SceneError::ChildIndexOutOfRange);
            }
            if parents[child as usize].is_some() {
                proof {
                    let c2 = child as int;
                    let pj = parents@[c2]->Some_0;
                    let k2 = choose|k2: int|
                        0 <= k2 < inputs@[pj as int].child_index@.len() && claim_before(
                            pj as int,
                            k2,
                            j as int,
                            k as int,
                        ) && inputs@[pj as int].child_index@[k2] == child;
                    assert(inputs@[pj as int].child_index@[k2] == inputs@[j as int].child_index@[k as int]);
                    assert(!claim_before(j as int, k as int, j as int, k as int));
                    assert(!unique_parents(inputs@));
                }
                return Result::Err(SceneError::DuplicateParent);
            }
            let ghost pre = parents@;
            let o = &mut parents[child as usize];
            *o = Option::Some(j as u32);
            proof {
                assert forall|c2: int|
                    0 <= c2 < n as int implies match #[trigger] parents@[c2] {
                    Option::Some(pj) => 0 <= pj < n && exists|k2: int|
                        0 <= k2 < inputs@[pj as int].child_index@.len() && claim_before(
                            pj as int,
                            k2,
                            j as int,
                            k as int + 1,
                        ) && inputs@[pj as int].child_index@[k2] == c2 as u32,
                    Option::None => forall|j2: int, k2: int|
                        0 <= j2 < n as int && 0 <= k2 < inputs@[j2].child_index@.len()
                            && claim_before(j2, k2, j as int, k as int + 1)
                            ==> #[trigger] inputs@[j2].child_index@[k2] != c2 as u32,
                } by {
                    if c2 == child as int {
                        assert((k as int) < inputs@[j as int].child_index@.len()
                            && claim_before(j as int, k as int, j as int, k as int + 1)
                            && inputs@[j as int].child_index@[k as int] == c2 as u32);
                    } else {
                        assert(parents@[c2] == pre[c2]);
                        match pre[c2] {
                            Option::Some(pj) => {
                                let k2 = choose|k2: int|
                                    0 <= k2 < inputs@[pj as int].child_index@.len()
                                        && claim_before(pj as int, k2, j as int, k as int)
                                        && inputs@[pj as int].child_index@[k2] == c2 as u32;
                                assert(0 <= k2 < inputs@[pj as int].child_index@.len()
                                    && claim_before(pj as int, k2, j as int, k as int + 1)
                                    && inputs@[pj as int].child_index@[k2] == c2 as u32);
                            },
                            Option::None => {},
                        }
                    }
                }
            }
            k = k + 1;
        }
        proof {
            assert forall|c2: int|
                0 <= c2 < n as int implies match #[trigger] parents@[c2] {
                Option::Some(pj) => 0 <= pj < n && exists|k2: int|
                    0 <= k2 < inputs@[pj as int].child_index@.len() && claim_before(
                        pj as int,
                        k2,
                        j as int + 1,
                        0,
                    ) && inputs@[pj as int].child_index@[k2] == c2 as u32,
                Option::None => forall|j2: int, k2: int|
                    0 <= j2 < n as int && 0 <= k2 < inputs@[j2].child_index@.len() && claim_before(
                        j2,
                        k2,
                        j as int + 1,
                        0,
                    ) ==> #[trigger] inputs@[j2].child_index@[k2] != c2 as u32,
            } by {
                match parents@[c2] {
                    Option::Some(pj) => {
                        let k2 = choose|k2: int|
                            0 <= k2 < inputs@[pj as int].child_index@.len() && claim_before(
                                pj as int,
                                k2,
                                j as int,
                                k as int,
                            ) && inputs@[pj as int].child_index@[k2] == c2 as u32;
                        assert(0 <= k2 < inputs@[pj as int].child_index@.len() && claim_before(
                            pj as int,
                            k2,
                            j as int + 1,
                            0,
                        ) && inputs@[pj as int].child_index@[k2] == c2 as u32);
                    },
                    Option::None => {},
                }
            }
        }
        j = j + 1;
    }

    proof {
        // every claim has been scanned
        assert forall|j2: int, k2: int|
            0 <= j2 < n as int && 0 <= k2 < inputs@[j2].child_index@.len() implies claim_before(
            j2,
            k2,
            n as int,
            0,
        ) by {}
        assert forall|c2: int| 0 <= c2 < n as int implies #[trigger] parents@[c2]
            == spec_parent_of(inputs@, c2) by {
            match parents@[c2] {
                Option::Some(pj) => {
                    assert(claims_child(inputs@, pj as int, c2 as u32));
                    let wj = choose|j3: int|
                        0 <= j3 < inputs@.len() && #[trigger] claims_child(inputs@, j3, c2 as u32);
                    assert(claims_child(inputs@, wj, c2 as u32));
                    let wk = choose|k3: int|
                        0 <= k3 < inputs@[wj].child_index@.len() && inputs@[wj].child_index@[k3]
                            == c2 as u32;
                    let pk = choose|k3: int|
                        0 <= k3 < inputs@[pj as int].child_index@.len() && claim_before(
                            pj as int,
                            k3,
                            n as int,
                            0,
                        ) && inputs@[pj as int].child_index@[k3] == c2 as u32;
                    assert(inputs@[wj].child_index@[wk] == inputs@[pj as int].child_index@[pk]);
                },
                Option::None => {
                    if exists|j3: int| 0 <= j3 < inputs@.len() && #[trigger] claims_child(
                        inputs@,
                        j3,
                        c2 as u32,
                    ) {
                        let wj = choose|j3: int|
                            0 <= j3 < inputs@.len() && #[trigger] claims_child(inputs@, j3, c2 as u32);
                        let wk = choose|k3: int|
                            0 <= k3 < inputs@[wj].child_index@.len() && inputs@[wj].child_index@[k3]
                                == c2 as u32;
                        assert(inputs@[wj].child_index@[wk] == c2 as u32);
                        assert(false);
                    }
                },
            }
        }
    }
    Result::Ok(parents)
}

/// Walks every node's parent chain to a root, recording the step counts as
/// depth witnesses; a chain still unfinished after as many steps as there
/// are nodes is a cycle.
fn compute_depths(parents: &Vec<Option<u32>>) -> (r: Result<Vec<u32>, SceneError>)
    requires
        parents@.len() <= u32::MAX,
        forall|c: int|
            0 <= c < parents@.len() ==> match #[trigger] parents@[c] {
                Option::None => true,
                Option::Some(p) => (p as int) < parents@.len(),
            },
    ensures
        match r {
            Result::Ok(depths) => {
                &&& depths@.len() == parents@.len()
                &&& forall|i: int|
                    0 <= i < parents@.len() ==> steps_to_root(parents@, i, parents@.len() as nat)
                        == Option::Some(#[trigger] depths@[i] as nat)
            },
            Result::Err(e) => {
                &&& e == SceneError::CycleDetected
                &&& !acyclic(parents@)
            },
        },
{
    let n = parents.len();
    let mut depths: Vec<u32> = Vec::new();
    let mut i: usize = 0;
    while i < n
        invariant
            n == parents@.len(),
            n <= u32::MAX,
            forall|c: int|
                0 <= c < n as int ==> match #[trigger] parents@[c] {
                    Option::None => true,
                    Option::Some(p) => (p as int) < n as int,
                },
            i <= n,
            depths@.len() == i as int,
            forall|i2: int|
                0 <= i2 < i as int ==> steps_to_root(parents@, i2, n as nat) == Option::Some(
                    #[trigger] depths@[i2] as nat,
                ),
        decreases n - i,
    {
        let mut cur: usize = i;
        let mut d: usize = 0;
        loop
            invariant
                n == parents@.len(),
                forall|c: int|
                    0 <= c < n as int ==> match #[trigger] parents@[c] {
                        Option::None => true,
                        Option::Some(p) => (p as int) < n as int,
                    },
                i < n,
                n <= u32::MAX,
                cur < n,
                d <= n,
                steps_to_root(parents@, i as int, n as nat) == steps_plus(
                    d as nat,
                    steps_to_root(parents@, cur as int, (n - d) as nat),
                ),
            ensures
                d <= n,
                cur < n,
                parents@[cur as int] is None,
                steps_to_root(parents@, i as int, n as nat) == steps_plus(
                    d as nat,
                    steps_to_root(parents@, cur as int, (n - d) as nat),
                ),
            decreases n - d,
        {
            match parents[cur] {
                Option::None => {
                    break ;
                },
                Option::Some(p) => {
                    if d == n {
                        assert(steps_to_root(parents@, i as int, n as nat) is None);
                        return Result::Err(SceneError::CycleDetected);
                    }
                    cur = p as usize;
                    d = d + 1;
                },
            }
        }
        depths.push(d as u32);
        i = i + 1;
    }
    Result::Ok(depths)
}

/// Checks that every mesh reference stays inside the arena.
#[verifier::loop_isolation(false)]
fn check_mesh_refs(inputs: &Vec<NodeInput>, mesh_count: usize) -> (ok: bool)
    ensures
        ok == mesh_refs_in_range(inputs@, mesh_count as int),
{
    let mut i: usize = 0;
    while i < inputs.len()
        invariant
            i <= inputs@.len(),
            forall|i2: int|
                0 <= i2 < i as int ==> match #[trigger] inputs@[i2].mesh {
                    Option::None => true,
                    Option::Some(h) => (h as int) < mesh_count as int,
                },
        decreases inputs.len() - i,
    {
        match inputs[i].mesh {
            Option::None => {},
            Option::Some(h) => {
                if h as usize >= mesh_count {
                    return false;
                }
            },
        }
        i = i + 1;
    }
    true
}

/// Builds the validated node table: parents derived from the child lists,
/// depth witnesses computed, world transforms seeded with the local ones.
/// Succeeds exactly on [`valid_scene_input`].
#[verifier::loop_isolation(false)]
pub fn build_objects(inputs: Vec<NodeInput>, meshes: &Vec<Mesh>) -> (r: Result<
    Vec<SceneObject>,
    SceneError,
>)
    ensures
        r is Ok <==> valid_scene_input(inputs@, meshes@),
        match r {
            Result::Ok(objects) => {
                &&& objects@.len() == inputs@.len()
                &&& forall|i: int|
                    0 <= i < inputs@.len() ==> is_built_object(#[trigger] objects@[i], inputs@, i)
                &&& forall|i: int|
                    0 <= i < inputs@.len() ==> steps_to_root(
                        spec_parents(inputs@),
                        i,
                        inputs@.len() as nat,
                    ) == Option::Some(#[trigger] objects@[i].depth as nat)
                &&& crate::scene::wf_objects(objects@, meshes@)
            },
            Result::Err(e) => {
                &&& e == SceneError::TooManyNodes ==> inputs@.len() > u32::MAX
                &&& e == SceneError::ChildIndexOutOfRange ==> !children_in_range(inputs@)
                &&& e == SceneError::DuplicateParent ==> !unique_parents(inputs@)
                &&& e == SceneError::CycleDetected ==> !acyclic(spec_parents(inputs@))
                &&& e == SceneError::MeshIndexOutOfRange ==> !mesh_refs_in_range(
                    inputs@,
                    meshes@.len() as int,
                )
                &&& e == SceneError::InvalidMeshIndices ==> !wf_meshes(meshes@)
            },
        },
{
    let n = inputs.len();
    if n > u32::MAX as usize {
        return Result::Err(SceneError::TooManyNodes);
    }
    if !check_meshes(meshes) {
        return Result::Err(SceneError::InvalidMeshIndices);
    }
    if !check_mesh_refs(&inputs, meshes.len()) {
        return Result::Err(SceneError::MeshIndexOutOfRange);
    }
    let parents = match derive_parents(&inputs) {
        Result::Ok(parents) => parents,
        Result::Err(e) => {
            return Result::Err(e);
        },
    };
    proof {
        assert(parents@ =~= spec_parents(inputs@));
    }
    let depths = match compute_depths(&parents) {
        Result::Ok(depths) => depths,
        Result::Err(e) => {
            return Result::Err(e);
        },
    };
    proof {
        let ps = spec_parents(inputs@);
        assert forall|i2: int|
            0 <= i2 < ps.len() implies (#[trigger] steps_to_root(ps, i2, ps.len() as nat)) is Some by {
            assert(steps_to_root(ps, i2, n as nat) == Option::Some(depths@[i2] as nat));
        }
        assert(acyclic(ps));
    }

    let mut objects: Vec<SceneObject> = Vec::new();
    let mut i: usize = 0;
    while i < n
        invariant
            n == inputs@.len(),
            n <= u32::MAX,
            parents@ == spec_parents(inputs@),
            depths@.len() == n as int,
            forall|i2: int|
                0 <= i2 < n as int ==> steps_to_root(spec_parents(inputs@), i2, n as nat)
                    == Option::Some(#[trigger] depths@[i2] as nat),
            i <= n,
            objects@.len() == i as int,
            forall|i2: int|
                0 <= i2 < i as int ==> is_built_object(#[trigger] objects@[i2], inputs@, i2),
            forall|i2: int| 0 <= i2 < i as int ==> #[trigger] objects@[i2].depth == depths@[i2],
        decreases n - i,
    {
        let input = &inputs[i];
        let parent = parents[i];
        let node = SceneObject {
            _name: clone_name(&input._name),
            index: i as u32,
            parent_index: parent,
            child_index: clone_children(&input.child_index),
            depth: depths[i],
            local_transform: input.local_transform,
            world_transform: input.local_transform,
            mesh: input.mesh,
            shading_type: ShadingType::Uninitialized,
            render_resource: Option::None,
        };
        objects.push(node);
        i = i + 1;
    }

    proof {
        let links = crate::scene::links_of(objects@);
        assert forall|i2: int| 0 <= i2 < n as int implies match (#[trigger] links[i2]).parent_index {
            Option::None => links[i2].depth == 0,
            Option::Some(p) => (p as int) < links.len() && links[p as int].depth + 1
                == links[i2].depth,
        } by {
            assert(links[i2] == crate::scene::link_of(objects@[i2]));
            let ps = spec_parents(inputs@);
            assert(steps_to_root(ps, i2, n as nat) == Option::Some(objects@[i2].depth as nat));
            match ps[i2] {
                Option::None => {},
                Option::Some(p) => {
                    assert(links[p as int] == crate::scene::link_of(objects@[p as int]));
                    assert(steps_to_root(ps, p as int, (n - 1) as nat) == Option::Some(
                        (objects@[i2].depth - 1) as nat,
                    ));
                    lemma_steps_fuel_mono(ps, p as int, (n - 1) as nat, n as nat);
                },
            }
        }
    }
    Result::Ok(objects)
}

/// Copies an optional node name.
fn clone_name(name: &Option<String>) -> (r: Option<String>)
    ensures
        r == *name,
{
    match name {
        Option::None => Option::None,
        Option::Some(s) => {
            let copied: String = s.clone();
            proof {
                assert(copied@ == s@);
            }
            Option::Some(copied)
        },
    }
}

/// Copies a child list.
#[verifier::loop_isolation(false)]
fn clone_children(children: &Vec<u32>) -> (r: Vec<u32>)
    ensures
        r@ == children@,
{
    let mut out: Vec<u32> = Vec::new();
    let mut k: usize = 0;
    while k < children.len()
        invariant
            k <= children@.len(),
            out@ == children@.take(k as int),
        decreases children.len() - k,
    {
        out.push(children[k]);
        proof {
            assert(out@ =~= children@.take(k as int + 1));
        }
        k = k + 1;
    }
    proof {
        assert(children@.take(children@.len() as int) =~= children@);
    }
    out
}

impl Scene {
    /// Replaces the scene's contents wholesale with a freshly validated node
    /// table, mesh arena and material table. On rejection the scene is left
    /// untouched. Succeeds exactly on [`valid_scene_input`].
    pub fn load(
        &mut self,
        inputs: Vec<NodeInput>,
        meshes: Vec<Mesh>,
        materials: Vec<SceneMaterial>,
    ) -> (r: Result<(), SceneError>)
        ensures
            r is Ok <==> valid_scene_input(inputs@, meshes@),
            match r {
                Result::Ok(()) => {
                    &&& final (self).objects@.len() == inputs@.len()
                    &&& forall|i: int|
                        0 <= i < inputs@.len() ==> is_built_object(
                            #[trigger] final (self).objects@[i],
                            inputs@,
                            i,
                        )
                    &&& final (self).meshes@ == meshes@
                    &&& final (self).materials@ == materials@
                    &&& final (self).batched_objects@ == Seq::<SceneObject>::empty()
                    &&& *final (self) == (Scene {
                        objects: final (self).objects,
                        batched_objects: final (self).batched_objects,
                        meshes: final (self).meshes,
                        materials: final (self).materials,
                        ..*old(self)
                    })
                    &&& wf_scene(*final (self))
                },
                Result::Err(_) => *final (self) == *old(self),
            },
    {
        let objects = match build_objects(inputs, &meshes) {
            Result::Ok(objects) => objects,
            Result::Err(e) => {
                return Result::Err(e);
            },
        };
        self.objects = objects;
        self.batched_objects = Vec::new();
        self.meshes = meshes;
        self.materials = materials;
        Result::Ok(())
    }
}

} // verus!
