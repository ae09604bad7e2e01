//! Instantiating a loaded scene blueprint into world entities.
//!
//! Once a scene's blueprint is in storage, one entity is spawned per node,
//! carrying the node's transform and, via handles, its mesh and material;
//! every node hangs off the scene root first and is then re-parented
//! under the node that lists it as a child, the last claimant winning.

use crate::components::{MaterialDefinition, MeshDefinition};
use crate::scene::SceneData;
use crate::scene::SceneNode;
use crate::world::{EntityRecord, World};
use vstd::prelude::*;

verus! {

/// Registers scene instantiation with an engine; the work itself is
/// [`spawn_scene`].
pub struct ScenePlugin;

/// The node whose children list claims `c`, scanning the nodes in order;
/// when several nodes claim one child the last claim wins, and an
/// unclaimed node stays under the scene root.
pub open spec fn last_parent_of(nodes: Seq<SceneNode>, c: usize) -> Option<int>
    decreases nodes.len(),
{
    if nodes.len() == 0 {
        None
    } else if nodes.last().children@.contains(c) {
        Some(nodes.len() - 1)
    } else {
        last_parent_of(nodes.drop_last(), c)
    }
}

proof fn lemma_last_parent_push(nodes: Seq<SceneNode>, n: SceneNode, c: usize)
    ensures
        last_parent_of(nodes.push(n), c) == (if n.children@.contains(c) {
            Some(nodes.len() as int)
        } else {
            last_parent_of(nodes, c)
        }),
{
    assert(nodes.push(n).last() == n);
    assert(nodes.push(n).drop_last() =~= nodes);
}

proof fn lemma_contains_push(s: Seq<usize>, x: usize, y: usize)
    ensures
        s.push(x).contains(y) <==> (s.contains(y) || x == y),
{
    if s.contains(y) {
        let i = choose|i: int| 0 <= i < s.len() && s[i] == y;
        assert(s.push(x)[i] == y);
    }
    if x == y {
        assert(s.push(x)[s.len() as int] == y);
    }
    if s.push(x).contains(y) {
        let i = choose|i: int| 0 <= i < s.push(x).len() && s.push(x)[i] == y;
        if i < s.len() {
            assert(s[i] == y);
        }
    }
}

/// The parent entity a node's record ends with: the entity of the last
/// node that lists it as a child, or the scene root.
pub open spec fn spawned_parent(nodes: Seq<SceneNode>, c: usize, base: int, root: usize) -> Option<
    usize,
> {
    match last_parent_of(nodes, c) {
        Some(p) => Some((base + p) as usize),
        None => Some(root),
    }
}

/// Spawns one entity per node of `scene` under the existing entity
/// `root`: each new entity carries its node's transform, the mesh handle
/// its node references, a material handle only where a mesh is present
/// (as the renderer needs both), and a parent edge -- to the last node
/// claiming it as a child, or to the root. Nothing else in the world
/// changes.
pub fn spawn_scene(world: &mut World, root: usize, scene: &SceneData)
    requires
        root < old(world)@.len(),
        scene.wf(),
        old(world)@.len() + scene.nodes@.len() <= usize::MAX,
    ensures
        final(world)@.len() == old(world)@.len() + scene.nodes@.len(),
        forall|e: int| 0 <= e < old(world)@.len() ==> final(world)@[e] == old(world)@[e],
        forall|e: int|
            old(world)@.len() <= e < final(world)@.len() ==> ({
                let n = scene.nodes@[e - old(world)@.len()];
                let rec = #[trigger] final(world)@[e];
                &&& rec.transform == Some(n.transform)
                &&& (n.mesh_index matches Some(mi) ==> rec.mesh_def matches Some(d) && d.0.id
                    == scene.meshes@[mi as int].id)
                &&& (n.mesh_index is None ==> rec.mesh_def is None)
                &&& ((n.mesh_index is Some && n.material_index is Some)
                    ==> rec.material_def is Some && rec.material_def.unwrap().0.id
                    == scene.materials@[n.material_index.unwrap() as int].id)
                &&& ((n.mesh_index is None || n.material_index is None) ==> rec.material_def
                    is None)
                &&& rec.parent == spawned_parent(
                    scene.nodes@,
                    (e - old(world)@.len()) as usize,
                    old(world)@.len() as int,
                    root,
                )
                &&& rec.name is None
                &&& rec.kind is None
                &&& !rec.has_data
                &&& rec.derived_from is None
                &&& rec.scene_root is None
            }),
{
    let base = world.len();
    let n_nodes = scene.nodes.len();
    let mut i: usize = 0;
    while i < n_nodes
        invariant
            scene.wf(),
            root < base,
            n_nodes == scene.nodes@.len(),
            base == old(world)@.len(),
            base + n_nodes <= usize::MAX,
            i <= n_nodes,
            world@.len() == base + i,
            forall|e: int| 0 <= e < base ==> world@[e] == old(world)@[e],
            forall|e: int|
                base <= e < world@.len() ==> ({
                    let n = scene.nodes@[e - base];
                    let rec = #[trigger] world@[e];
                    &&& rec.transform == Some(n.transform)
                    &&& (n.mesh_index matches Some(mi) ==> rec.mesh_def matches Some(d) && d.0.id
                        == scene.meshes@[mi as int].id)
                    &&& (n.mesh_index is None ==> rec.mesh_def is None)
                    &&& ((n.mesh_index is Some && n.material_index is Some)
                        ==> rec.material_def is Some && rec.material_def.unwrap().0.id
                        == scene.materials@[n.material_index.unwrap() as int].id)
                    &&& ((n.mesh_index is None || n.material_index is None) ==> rec.material_def
                        is None)
                    &&& rec.parent == Some(root)
                    &&& rec.name is None
                    &&& rec.kind is None
                    &&& !rec.has_data
                    &&& rec.derived_from is None
                    &&& rec.scene_root is None
                }),
        decreases n_nodes - i,
    {
        let node = &scene.nodes[i];
        let e = world.spawn();
        let mut rec = world.take(e);
        rec.transform = Some(node.transform);
        match node.mesh_index {
            Some(mi) => {
                rec.mesh_def = Some(MeshDefinition(scene.meshes[mi].duplicate()));
                match node.material_index {
                    Some(ti) => {
                        rec.material_def = Some(
                            MaterialDefinition(scene.materials[ti].duplicate()),
                        );
                    },
                    None => {},
                }
            },
            None => {},
        }
        rec.parent = Some(root);
        world.put(e, rec);
        i = i + 1;
    }
    let ghost w1 = world@;
    let mut p: usize = 0;
    while p < n_nodes
        invariant
            scene.wf(),
            n_nodes == scene.nodes@.len(),
            base == old(world)@.len(),
            base + n_nodes <= usize::MAX,
            p <= n_nodes,
            world@.len() == w1.len() == base + n_nodes,
            forall|e: int| 0 <= e < base ==> world@[e] == w1[e],
            forall|e: int|
                base <= e < world@.len() ==> #[trigger] world@[e] == (EntityRecord {
                    parent: match last_parent_of(
                        scene.nodes@.take(p as int),
                        (e - base) as usize,
                    ) {
                        Some(q) => Some((base + q) as usize),
                        None => w1[e].parent,
                    },
                    ..w1[e]
                }),
        decreases n_nodes - p,
    {
        let node = &scene.nodes[p];
        let n_children = node.children.len();
        let mut k: usize = 0;
        while k < n_children
            invariant
                scene.wf(),
                n_nodes == scene.nodes@.len(),
                base == old(world)@.len(),
                base + n_nodes <= usize::MAX,
                p < n_nodes,
                node == &scene.nodes@[p as int],
                n_children == node.children@.len(),
                k <= n_children,
                world@.len() == w1.len() == base + n_nodes,
                forall|e: int| 0 <= e < base ==> world@[e] == w1[e],
                forall|e: int|
                    base <= e < world@.len() ==> #[trigger] world@[e] == (EntityRecord {
                        parent: if node.children@.take(k as int).contains((e - base) as usize) {
                            Some((base + p) as usize)
                        } else {
                            match last_parent_of(
                                scene.nodes@.take(p as int),
                                (e - base) as usize,
                            ) {
                                Some(q) => Some((base + q) as usize),
                                None => w1[e].parent,
                            }
                        },
                        ..w1[e]
                    }),
            decreases n_children - k,
        {
            let c = node.children[k];
            proof {
                assert(node_wf_index(*scene, p as int, k as int));
            }
            let child_entity = base + c;
            let mut rec = world.take(child_entity);
            rec.parent = Some(base + p);
            world.put(child_entity, rec);
            proof {
                assert(node.children@.take(k + 1) =~= node.children@.take(k as int).push(c));
                assert forall|e: int|
                    base <= e < world@.len() implies #[trigger] world@[e] == (EntityRecord {
                        parent: if node.children@.take(k + 1).contains((e - base) as usize) {
                            Some((base + p) as usize)
                        } else {
                            match last_parent_of(
                                scene.nodes@.take(p as int),
                                (e - base) as usize,
                            ) {
                                Some(q) => Some((base + q) as usize),
                                None => w1[e].parent,
                            }
                        },
                        ..w1[e]
                    }) by {
                    lemma_contains_push(node.children@.take(k as int), c, (e - base) as usize);
                }
            }
            k = k + 1;
        }
        proof {
            assert(node.children@.take(n_children as int) =~= node.children@);
            assert(scene.nodes@.take(p + 1) =~= scene.nodes@.take(p as int).push(
                scene.nodes@[p as int],
            ));
            assert forall|e: int|
                base <= e < world@.len() implies #[trigger] world@[e] == (EntityRecord {
                    parent: match last_parent_of(
                        scene.nodes@.take(p + 1),
                        (e - base) as usize,
                    ) {
                        Some(q) => Some((base + q) as usize),
                        None => w1[e].parent,
                    },
                    ..w1[e]
                }) by {
                lemma_last_parent_push(
                    scene.nodes@.take(p as int),
                    scene.nodes@[p as int],
                    (e - base) as usize,
                );
            }
        }
        p = p + 1;
    }
    proof {
        assert(scene.nodes@.take(n_nodes as int) =~= scene.nodes@);
    }
}

/// The well-formedness of one child reference, spelled out so the loops
/// can name it.
pub open spec fn node_wf_index(scene: SceneData, p: int, k: int) -> bool {
    0 <= p < scene.nodes@.len() && 0 <= k < scene.nodes@[p].children@.len()
        && scene.nodes@[p].children@[k] < scene.nodes@.len()
}

} // verus!
