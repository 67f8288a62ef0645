//! The scene hierarchy and its pre-order walk.
use crate::transform::{Homo4, Transformation};
use vstd::prelude::*;

verus! {

/// A node of the scene hierarchy: a name, a transform relative to the parent,
/// at most one reference to geometry, and the children in their order.
#[derive(Debug)]
pub struct SceneNode {
    pub name: String,
    pub transformation: [[u32; 4]; 4],
    pub mesh: Option<usize>,
    pub children: Vec<SceneNode>,
}

/// One stop of a walk through the tree: a node, and the nodes above it from
/// the root of the walk down to its parent.
pub struct Visit {
    pub node: SceneNode,
    pub ancestors: Seq<SceneNode>,
}

/// The transform that a node applies to everything below it.
pub open spec fn local_transform(node: SceneNode) -> Transformation {
    Transformation::Matrix(Homo4(node.transformation))
}

impl Visit {
    /// Number of nodes above the visited one.
    pub open spec fn depth(self) -> nat {
        self.ancestors.len()
    }

    /// The local transforms of the ancestors, outermost first.
    pub open spec fn stack(self) -> Seq<Transformation> {
        self.ancestors.map_values(|a: SceneNode| local_transform(a))
    }
}

impl SceneNode {
    /// The visit of this node, then the walks of its first `k` subtrees one
    /// after the other.
    pub open spec fn walk_prefix(self, ancestors: Seq<SceneNode>, k: nat) -> Seq<Visit>
        decreases self, k,
    {
        if k == 0 {
            seq![Visit { node: self, ancestors }]
        } else if k <= self.children@.len() {
            let child = self.children@[k - 1];
            self.walk_prefix(ancestors, (k - 1) as nat) + child.walk_prefix(
                ancestors.push(self),
                child.children@.len(),
            )
        } else {
            self.walk_prefix(ancestors, (k - 1) as nat)
        }
    }

    /// The pre-order walk of the subtree below `self`, which itself lies
    /// below `ancestors`: the node first, then each child's subtree in the
    /// children's order.
    pub open spec fn walk(self, ancestors: Seq<SceneNode>) -> Seq<Visit> {
        self.walk_prefix(ancestors, self.children@.len())
    }

    /// The pre-order walk of the whole tree rooted here.
    pub open spec fn preorder(self) -> Seq<Visit> {
        self.walk(Seq::empty())
    }

    /// Number of nodes in the first `k` subtrees, and this node.
    pub open spec fn size_prefix(self, k: nat) -> nat
        decreases self, k,
    {
        if k == 0 {
            1
        } else if k <= self.children@.len() {
            let child = self.children@[k - 1];
            self.size_prefix((k - 1) as nat) + child.size_prefix(child.children@.len())
        } else {
            self.size_prefix((k - 1) as nat)
        }
    }

    /// Number of nodes in the tree rooted here.
    pub open spec fn size(self) -> nat {
        self.size_prefix(self.children@.len())
    }

    /// Whether `path` leads from this node down into its subtree: each entry
    /// of a path picks a child by its position among the children.
    pub open spec fn has_path(self, path: Seq<int>) -> bool
        decreases path.len(),
    {
        if path.len() == 0 {
            true
        } else {
            0 <= path[0] < self.children@.len() && self.children@[path[0]].has_path(
                path.drop_first(),
            )
        }
    }

    /// The node that `path` leads to.
    pub open spec fn node_at(self, path: Seq<int>) -> SceneNode
        decreases path.len(),
    {
        if path.len() == 0 {
            self
        } else {
            self.children@[path[0]].node_at(path.drop_first())
        }
    }

    /// The nodes that `path` passes, from this node to the parent of the
    /// node that it leads to.
    pub open spec fn nodes_along(self, path: Seq<int>) -> Seq<SceneNode>
        decreases path.len(),
    {
        if path.len() == 0 {
            Seq::empty()
        } else {
            seq![self] + self.children@[path[0]].nodes_along(path.drop_first())
        }
    }

    /// The place in the pre-order walk of the node that `path` leads to.
    pub open spec fn position(self, path: Seq<int>) -> nat
        decreases path.len(),
    {
        if path.len() == 0 {
            0
        } else {
            self.size_prefix(path[0] as nat) + self.children@[path[0]].position(
                path.drop_first(),
            )
        }
    }
}

/// Whether the node at `p` comes before the node at `q` in pre-order: `p`
/// stops at an ancestor of `q`, or where the two paths part, `p` goes on
/// with the earlier child.
pub open spec fn precedes(p: Seq<int>, q: Seq<int>) -> bool
    decreases p.len(),
{
    if q.len() == 0 {
        false
    } else if p.len() == 0 {
        true
    } else if p[0] != q[0] {
        p[0] < q[0]
    } else {
        precedes(p.drop_first(), q.drop_first())
    }
}

impl SceneNode {
    /// A longer prefix of the walk only adds visits at the end.
    pub proof fn lemma_walk_prefix_extends(self, ancestors: Seq<SceneNode>, k: nat, m: nat)
        requires
            k <= m,
        ensures
            self.walk_prefix(ancestors, k).len() <= self.walk_prefix(ancestors, m).len(),
            self.walk_prefix(ancestors, m).take(self.walk_prefix(ancestors, k).len() as int)
                == self.walk_prefix(ancestors, k),
        decreases m,
    {
        if k < m {
            self.lemma_walk_prefix_extends(ancestors, k, (m - 1) as nat);
        }
    }

    /// The walk in one piece: the node itself, then the walks of the
    /// children's subtrees in the children's order.
    pub proof fn lemma_walk_is_preorder(self, ancestors: Seq<SceneNode>)
        ensures
            self.walk(ancestors) == seq![Visit { node: self, ancestors }]
                + self.children@.flat_map(|c: SceneNode| c.walk(ancestors.push(self))),
    {
        self.lemma_walk_prefix_is_preorder(ancestors, self.children@.len());
        assert(self.children@.take(self.children@.len() as int) == self.children@);
    }

    proof fn lemma_walk_prefix_is_preorder(self, ancestors: Seq<SceneNode>, k: nat)
        requires
            k <= self.children@.len(),
        ensures
            self.walk_prefix(ancestors, k) == seq![Visit { node: self, ancestors }]
                + self.children@.take(k as int).flat_map(
                |c: SceneNode| c.walk(ancestors.push(self)),
            ),
        decreases k,
    {
        let f = |c: SceneNode| c.walk(ancestors.push(self));
        if k == 0 {
            assert(self.children@.take(0).flat_map(f) == Seq::<Visit>::empty());
        } else {
            self.lemma_walk_prefix_is_preorder(ancestors, (k - 1) as nat);
            self.children@.lemma_flat_map_take_append(f, k - 1);
        }
    }

    /// The walk visits as many nodes as the tree has.
    pub proof fn lemma_walk_len(self, ancestors: Seq<SceneNode>)
        ensures
            self.walk(ancestors).len() == self.size(),
        decreases self,
    {
        self.lemma_walk_prefix_len(ancestors, self.children@.len());
    }

    proof fn lemma_walk_prefix_len(self, ancestors: Seq<SceneNode>, k: nat)
        ensures
            self.walk_prefix(ancestors, k).len() == self.size_prefix(k),
        decreases self, k,
    {
        if k == 0 {
        } else if k <= self.children@.len() {
            let child = self.children@[k - 1];
            self.lemma_walk_prefix_len(ancestors, (k - 1) as nat);
            child.lemma_walk_prefix_len(ancestors.push(self), child.children@.len());
        } else {
            self.lemma_walk_prefix_len(ancestors, (k - 1) as nat);
        }
    }

    /// The walk starts at the node itself.
    pub proof fn lemma_walk_starts(self, ancestors: Seq<SceneNode>)
        ensures
            self.walk(ancestors).len() > 0,
            self.walk(ancestors)[0] == (Visit { node: self, ancestors }),
    {
        self.lemma_walk_prefix_extends(ancestors, 0, self.children@.len());
        assert(self.walk(ancestors).take(1)[0] == self.walk_prefix(ancestors, 0)[0]);
    }

    /// A path passes as many nodes as it has entries.
    pub proof fn lemma_nodes_along_len(self, path: Seq<int>)
        ensures
            self.nodes_along(path).len() == path.len(),
        decreases path.len(),
    {
        if path.len() > 0 {
            self.children@[path[0]].lemma_nodes_along_len(path.drop_first());
        }
    }

    /// The subtrees of a node are not empty, so the count grows with each.
    pub proof fn lemma_size_prefix_grows(self, k: nat, m: nat)
        requires
            k < m <= self.children@.len(),
        ensures
            0 < self.size_prefix(k) < self.size_prefix(m),
            self.size_prefix((k + 1) as nat) == self.size_prefix(k) + self.children@[k as int].size(),
        decreases m,
    {
        self.lemma_size_prefix_positive(k);
        self.children@[k as int].lemma_size_prefix_positive(
            self.children@[k as int].children@.len(),
        );
        if k + 1 < m {
            self.lemma_size_prefix_grows(k, (m - 1) as nat);
            self.children@[m - 1].lemma_size_prefix_positive(
                self.children@[m - 1].children@.len(),
            );
        }
    }

    proof fn lemma_size_prefix_positive(self, k: nat)
        ensures
            0 < self.size_prefix(k),
        decreases k,
    {
        if k > 0 {
            self.lemma_size_prefix_positive((k - 1) as nat);
        }
    }

    /// A node's place lies within the walk, and behind the subtrees of the
    /// children before the one that the path enters.
    pub proof fn lemma_position_bounds(self, path: Seq<int>)
        requires
            self.has_path(path),
        ensures
            self.position(path) < self.size(),
            path.len() > 0 ==> self.size_prefix(path[0] as nat) <= self.position(path)
                < self.size_prefix((path[0] + 1) as nat),
        decreases path.len(),
    {
        if path.len() == 0 {
            self.lemma_size_prefix_positive(self.children@.len());
        } else {
            let k = path[0] as nat;
            let child = self.children@[k as int];
            child.lemma_position_bounds(path.drop_first());
            self.lemma_size_prefix_grows(k, k + 1);
            if k + 1 < self.children@.len() {
                self.lemma_size_prefix_grows(k + 1, self.children@.len());
            }
        }
    }

    /// The walk leaves no node out and visits none twice: the node that a
    /// path leads to is visited at the path's place, with the nodes along
    /// the path for its ancestors.
    pub proof fn lemma_walk_at(self, ancestors: Seq<SceneNode>, path: Seq<int>)
        requires
            self.has_path(path),
        ensures
            self.position(path) < self.walk(ancestors).len(),
            self.walk(ancestors)[self.position(path) as int] == (Visit {
                node: self.node_at(path),
                ancestors: ancestors + self.nodes_along(path),
            }),
        decreases path.len(),
    {
        self.lemma_walk_len(ancestors);
        self.lemma_position_bounds(path);
        if path.len() == 0 {
            self.lemma_walk_starts(ancestors);
            assert(ancestors + self.nodes_along(path) == ancestors);
        } else {
            let k = path[0] as nat;
            let child = self.children@[k as int];
            let rest = path.drop_first();
            let below = ancestors.push(self);
            child.lemma_walk_at(below, rest);
            let head = self.walk_prefix(ancestors, k);
            let tail = child.walk(below);
            assert(self.walk_prefix(ancestors, k + 1) == head + tail);
            self.lemma_walk_prefix_extends(ancestors, k + 1, self.children@.len());
            self.lemma_walk_prefix_len(ancestors, k);
            let at = head.len() + child.position(rest);
            assert(at == self.position(path));
            assert(self.walk(ancestors).take((head + tail).len() as int)[at as int] == (head
                + tail)[at as int]);
            assert(below + child.nodes_along(rest) == ancestors + self.nodes_along(path));
        }
    }

    /// The walk is in pre-order: a node that comes before another in
    /// pre-order has the earlier place.
    pub proof fn lemma_position_order(self, p: Seq<int>, q: Seq<int>)
        requires
            self.has_path(p),
            self.has_path(q),
            precedes(p, q),
        ensures
            self.position(p) < self.position(q),
        decreases p.len(),
    {
        self.lemma_position_bounds(q);
        if p.len() == 0 {
            self.lemma_size_prefix_positive(q[0] as nat);
        } else {
            self.lemma_position_bounds(p);
            if p[0] < q[0] {
                if p[0] + 1 < q[0] {
                    self.lemma_size_prefix_grows((p[0] + 1) as nat, q[0] as nat);
                }
            } else {
                self.children@[p[0]].lemma_position_order(p.drop_first(), q.drop_first());
            }
        }
    }

    /// Two paths with the same place are the same path.
    pub proof fn lemma_position_injective(self, p: Seq<int>, q: Seq<int>)
        requires
            self.has_path(p),
            self.has_path(q),
            self.position(p) == self.position(q),
        ensures
            p == q,
    {
        if p != q {
            lemma_precedes_total(p, q);
            if precedes(p, q) {
                self.lemma_position_order(p, q);
            } else {
                self.lemma_position_order(q, p);
            }
        }
    }

    /// Every place of the walk is the place of a node.
    pub proof fn lemma_position_onto(self, i: nat)
        requires
            i < self.size(),
        ensures
            exists|path: Seq<int>| self.has_path(path) && #[trigger] self.position(path) == i,
        decreases self,
    {
        self.lemma_position_onto_prefix(self.children@.len(), i);
    }

    proof fn lemma_position_onto_prefix(self, k: nat, i: nat)
        requires
            k <= self.children@.len(),
            i < self.size_prefix(k),
        ensures
            exists|path: Seq<int>| self.has_path(path) && #[trigger] self.position(path) == i,
        decreases self, k,
    {
        if k == 0 {
            let path = Seq::<int>::empty();
            assert(self.has_path(path) && self.position(path) == i);
        } else if i < self.size_prefix((k - 1) as nat) {
            self.lemma_position_onto_prefix((k - 1) as nat, i);
        } else {
            let child = self.children@[k - 1];
            let j = (i - self.size_prefix((k - 1) as nat)) as nat;
            child.lemma_position_onto_prefix(child.children@.len(), j);
            let rest = choose|rest: Seq<int>|
                child.has_path(rest) && #[trigger] child.position(rest) == j;
            let path = seq![k - 1] + rest;
            assert(path.drop_first() == rest);
            assert(self.has_path(path) && self.position(path) == i);
        }
    }
}

/// Of two different paths one comes before the other.
pub proof fn lemma_precedes_total(p: Seq<int>, q: Seq<int>)
    requires
        p != q,
    ensures
        precedes(p, q) || precedes(q, p),
    decreases p.len(),
{
    if p.len() == 0 && q.len() == 0 {
        assert(p =~= q);
    } else if p.len() > 0 && q.len() > 0 && p[0] == q[0] {
        if p.drop_first() == q.drop_first() {
            assert(p =~= seq![p[0]] + p.drop_first());
            assert(q =~= seq![q[0]] + q.drop_first());
        } else {
            lemma_precedes_total(p.drop_first(), q.drop_first());
        }
    }
}

} // verus!
