//! Flattening a tree of scene nodes into drawable elements.
use crate::scene_element::SceneElement;
use crate::scene_node::{local_transform, SceneNode, Visit};
use crate::transform::{Homo4, Transformation};
use crate::triangle_mesh::TriangleMesh;
use std::rc::Rc;
use vstd::prelude::*;

verus! {

/// Whether `elems` are the elements of `visits`, one for one: each carries
/// the name of the visited node, the local transforms of that node's
/// ancestors, and a mesh that `policy` produced.
pub open spec fn resolves<F: Fn() -> TriangleMesh>(
    elems: Seq<SceneElement>,
    visits: Seq<Visit>,
    policy: F,
) -> bool {
    &&& elems.len() == visits.len()
    &&& forall|i: int|
        0 <= i < elems.len() ==> {
            &&& (#[trigger] elems[i]).name@ == visits[i].node.name@
            &&& elems[i].transformations@ == visits[i].stack()
            &&& policy.ensures((), *elems[i].mesh)
        }
}

/// A copy of a transform stack, for a branch to add to without its siblings
/// seeing it.
fn shallow_copy(v: &Vec<Transformation>) -> (copy: Vec<Transformation>)
    ensures
        copy@ == v@,
{
    let mut copy: Vec<Transformation> = Vec::new();
    let mut i: usize = 0;
    while i < v.len()
        invariant
            i <= v@.len(),
            copy@ == v@.take(i as int),
        decreases v@.len() - i,
    {
        copy.push(v[i]);
        assert(v@.take(i + 1) == v@.take(i as int).push(v@[i as int]));
        i += 1;
    }
    assert(v@.take(i as int) == v@);
    copy
}

/// Resolves the subtree below `n`, whose ancestors' transforms are
/// `transforms`.
fn bse<F: Fn() -> TriangleMesh>(
    n: &SceneNode,
    transforms: &Vec<Transformation>,
    policy: &F,
    Ghost(ancestors): Ghost<Seq<SceneNode>>,
) -> (elems: Vec<SceneElement>)
    requires
        policy.requires(()),
        transforms@ == (Visit { node: *n, ancestors }).stack(),
    ensures
        resolves(elems@, n.walk(ancestors), *policy),
    decreases n,
{
    let elem = SceneElement {
        name: n.name.clone(),
        mesh: Rc::new(policy()),
        transformations: shallow_copy(transforms),
    };
    let mut new_transforms = shallow_copy(transforms);
    new_transforms.push(Transformation::Matrix(Homo4::new(n.transformation)));
    let ghost below = ancestors.push(*n);
    assert(new_transforms@ == (Visit { node: *n, ancestors: below }).stack());

    let mut elems: Vec<SceneElement> = Vec::new();
    elems.push(elem);
    let mut i: usize = 0;
    while i < n.children.len()
        invariant
            i <= n.children@.len(),
            policy.requires(()),
            below == ancestors.push(*n),
            new_transforms@ == (Visit { node: *n, ancestors: below }).stack(),
            resolves(elems@, n.walk_prefix(ancestors, i as nat), *policy),
        decreases n.children@.len() - i,
    {
        let child = &n.children[i];
        let mut sub = bse(child, &new_transforms, policy, Ghost(below));
        let ghost before = elems@;
        let ghost added = sub@;
        elems.append(&mut sub);
        proof {
            let head = n.walk_prefix(ancestors, i as nat);
            let tail = child.walk(below);
            assert(n.walk_prefix(ancestors, (i + 1) as nat) == head + tail);
            assert forall|j: int| 0 <= j < elems@.len() implies {
                &&& (#[trigger] elems@[j]).name@ == (head + tail)[j].node.name@
                &&& elems@[j].transformations@ == (head + tail)[j].stack()
                &&& policy.ensures((), *elems@[j].mesh)
            } by {
                if j < before.len() {
                    assert(elems@[j] == before[j]);
                } else {
                    assert(elems@[j] == added[j - before.len()]);
                }
            }
        }
        i += 1;
    }
    elems
}

/// Resolves the tree below `node` into a flat list of elements, one for each
/// node, in pre-order.  An element's transform list holds the local
/// transforms of the node's ancestors, root first: the root's list is empty,
/// and a node's own transform reaches its descendants only.  Every node
/// becomes an element, and each gets a mesh of its own from `policy`,
/// whether or not the node refers to geometry.
pub fn build_scene_elements<F: Fn() -> TriangleMesh>(node: &SceneNode, policy: F) -> (elems: Vec<
    SceneElement,
>)
    requires
        policy.requires(()),
    ensures
        resolves(elems@, node.preorder(), policy),
        elems@.len() == node.size(),
        forall|i: int|
            0 <= i < elems@.len() ==> (#[trigger] elems@[i]).transformations@.len()
                == node.preorder()[i].depth(),
{
    let transforms: Vec<Transformation> = Vec::new();
    assert(transforms@ == (Visit { node: *node, ancestors: Seq::empty() }).stack());
    proof {
        node.lemma_walk_len(Seq::empty());
    }
    bse(node, &transforms, &policy, Ghost(Seq::empty()))
}

/// Whether `out` holds what `f` gave for the node of each visit, one for one.
pub open spec fn maps<F: Fn(&SceneNode) -> R, R>(out: Seq<R>, visits: Seq<Visit>, f: F) -> bool {
    &&& out.len() == visits.len()
    &&& forall|i: int| 0 <= i < out.len() ==> f.ensures((&visits[i].node,), #[trigger] out[i])
}

/// Maps the subtree below `n`, which lies below `ancestors`.
fn map_nodes_rec<F: Fn(&SceneNode) -> R, R>(
    f: &F,
    n: &SceneNode,
    Ghost(ancestors): Ghost<Seq<SceneNode>>,
) -> (out: Vec<R>)
    requires
        forall|i: int|
            0 <= i < n.walk(ancestors).len() ==> f.requires(
                (&(#[trigger] n.walk(ancestors)[i]).node,),
            ),
    ensures
        maps(out@, n.walk(ancestors), *f),
    decreases n,
{
    proof {
        n.lemma_walk_starts(ancestors);
        assert(n.walk(ancestors)[0].node == *n);
    }
    let mut out: Vec<R> = Vec::new();
    out.push(f(n));
    let ghost below = ancestors.push(*n);
    let mut i: usize = 0;
    while i < n.children.len()
        invariant
            i <= n.children@.len(),
            below == ancestors.push(*n),
            forall|j: int|
                0 <= j < n.walk(ancestors).len() ==> f.requires(
                    (&(#[trigger] n.walk(ancestors)[j]).node,),
                ),
            maps(out@, n.walk_prefix(ancestors, i as nat), *f),
        decreases n.children@.len() - i,
    {
        let child = &n.children[i];
        let ghost head = n.walk_prefix(ancestors, i as nat);
        let ghost tail = child.walk(below);
        proof {
            assert(n.walk_prefix(ancestors, (i + 1) as nat) == head + tail);
            n.lemma_walk_prefix_extends(ancestors, (i + 1) as nat, n.children@.len());
            assert forall|j: int| 0 <= j < tail.len() implies f.requires(
                (&(#[trigger] tail[j]).node,),
            ) by {
                let at = head.len() + j;
                assert(n.walk(ancestors).take((head + tail).len() as int)[at] == (head
                    + tail)[at]);
                assert(n.walk(ancestors)[at] == tail[j]);
            }
        }
        let mut sub = map_nodes_rec(f, child, Ghost(below));
        let ghost before = out@;
        let ghost added = sub@;
        out.append(&mut sub);
        proof {
            assert forall|j: int| 0 <= j < out@.len() implies f.ensures(
                (&(head + tail)[j].node,),
                #[trigger] out@[j],
            ) by {
                if j < before.len() {
                    assert(out@[j] == before[j]);
                } else {
                    assert(out@[j] == added[j - before.len()]);
                }
            }
        }
        i += 1;
    }
    out
}

/// Applies `f` to every node of the tree below `n` and collects the results
/// in pre-order: the node's own result first, then those of each child's
/// subtree in the children's order.
pub fn map_nodes<F: Fn(&SceneNode) -> R, R>(f: F, n: &SceneNode) -> (out: Vec<R>)
    requires
        forall|i: int|
            0 <= i < n.preorder().len() ==> f.requires((&(#[trigger] n.preorder()[i]).node,)),
    ensures
        maps(out@, n.preorder(), f),
{
    map_nodes_rec(&f, n, Ghost(Seq::empty()))
}

/// What a scene holds, ready to be shown: the root's name, the names of all
/// nodes in pre-order, and the resolved elements.
pub struct SceneListing {
    pub root_name: String,
    pub node_names: Vec<String>,
    pub elements: Vec<SceneElement>,
}

/// Reads a scene off its root node: the names of its nodes and the elements
/// that it resolves to.
pub fn parse_scene<F: Fn() -> TriangleMesh>(root: &SceneNode, policy: F) -> (listing:
    SceneListing)
    requires
        policy.requires(()),
    ensures
        listing.root_name@ == root.name@,
        listing.node_names@.len() == root.preorder().len(),
        forall|i: int|
            0 <= i < listing.node_names@.len() ==> (#[trigger] listing.node_names@[i])@
                == root.preorder()[i].node.name@,
        resolves(listing.elements@, root.preorder(), policy),
{
    let name_of = |x: &SceneNode| -> (name: String)
        ensures
            name@ == x.name@,
        { x.name.clone() };
    let node_names = map_nodes(name_of, root);
    let elements = build_scene_elements(root, policy);
    SceneListing { root_name: root.name.clone(), node_names, elements }
}

/// Whether `elem` is the element of the node that `path` leads to from
/// `root`: it has that node's name, and its transform list holds the local
/// transforms of the nodes along the path, the root's first.
pub open spec fn is_element_of(elem: SceneElement, root: SceneNode, path: Seq<int>) -> bool {
    &&& root.has_path(path)
    &&& elem.name@ == root.node_at(path).name@
    &&& elem.transformations@ == root.nodes_along(path).map_values(
        |a: SceneNode| local_transform(a),
    )
}

/// Whether `elem`, found at place `i`, is the element of the node that has
/// this place in the pre-order walk.
pub open spec fn is_element_at(elem: SceneElement, root: SceneNode, i: int) -> bool {
    exists|path: Seq<int>| #[trigger] root.position(path) == i && is_element_of(elem, root, path)
}

/// A resolved tree has one element for each of its nodes.  The first is the
/// root's, with an empty transform list.  Every element is that of the node
/// whose place it stands at, and its transform list is as long as that node
/// is deep.
pub proof fn lemma_resolved_tree<F: Fn() -> TriangleMesh>(
    root: SceneNode,
    elems: Seq<SceneElement>,
    policy: F,
)
    requires
        resolves(elems, root.preorder(), policy),
    ensures
        elems.len() == root.size(),
        elems.len() > 0,
        elems[0].name@ == root.name@,
        elems[0].transformations@.len() == 0,
        forall|i: int|
            0 <= i < elems.len() ==> {
                &&& is_element_at(#[trigger] elems[i], root, i)
                &&& elems[i].transformations@.len() == root.preorder()[i].depth()
            },
{
    root.lemma_walk_len(Seq::empty());
    root.lemma_walk_starts(Seq::empty());
    assert forall|i: int| 0 <= i < elems.len() implies is_element_at(
        #[trigger] elems[i],
        root,
        i,
    ) by {
        root.lemma_position_onto(i as nat);
        let path = choose|path: Seq<int>|
            root.has_path(path) && #[trigger] root.position(path) == i;
        lemma_resolved_node(root, elems, policy, path);
    }
}

/// The element of one node: whatever path leads from the root to a node, the
/// element at the path's place is that node's, and its transform list is as
/// long as the path.
pub proof fn lemma_resolved_node<F: Fn() -> TriangleMesh>(
    root: SceneNode,
    elems: Seq<SceneElement>,
    policy: F,
    path: Seq<int>,
)
    requires
        resolves(elems, root.preorder(), policy),
        root.has_path(path),
    ensures
        root.position(path) < elems.len(),
        is_element_of(elems[root.position(path) as int], root, path),
        elems[root.position(path) as int].transformations@.len() == path.len(),
{
    root.lemma_walk_at(Seq::empty(), path);
    root.lemma_nodes_along_len(path);
    assert(Seq::<SceneNode>::empty() + root.nodes_along(path) == root.nodes_along(path));
}

} // verus!
