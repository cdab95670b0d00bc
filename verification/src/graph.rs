//! The operator graph: an arena of nodes addressed by index. A node's
//! parents are always older than the node, so the graph has no cycle and
//! the order of the indices is a topological order.

use vstd::prelude::*;

verus! {

/// What a node computes.
#[derive(Clone, Copy, Debug, PartialEq, Eq, Structural)]
pub enum OperatorKind {
    Base,
    Join,
    Aggregation,
    Filter,
    Union,
    Reader,
    Egress,
    Ingress,
}

/// Whether a node keeps state, and whether that state may have holes.
#[derive(Clone, Copy, Debug, PartialEq, Eq, Structural)]
pub enum Materialization {
    Stateless,
    Partial,
    Full,
}

/// One vertex of the graph.
pub struct Node {
    pub kind: OperatorKind,
    /// The column by which the node's rows are sharded, if they are.
    pub sharding: Option<usize>,
    /// The domain that runs the node.
    pub domain: usize,
    pub state: Materialization,
    /// The nodes whose output this node reads.
    pub parents: Vec<usize>,
}

/// One hop of a replay path: the domain to ask, and the node whose state
/// is asked for.
#[derive(Clone, Copy, Debug, PartialEq, Eq, Structural)]
pub struct ReplayPathSegment {
    pub domain: usize,
    pub node: usize,
}

/// Why a node was not added.
#[derive(Clone, Copy, Debug, PartialEq, Eq, Structural)]
pub enum GraphError {
    /// A base table has no parents and is fully materialized.
    MalformedBase,
    /// Every other node reads from at least one parent.
    Orphan,
    /// A parent's index names no node of the graph.
    UnknownParent,
}

/// A node from which a replay can read authoritative rows.
pub open spec fn is_source(n: Node) -> bool {
    n.kind == OperatorKind::Base || n.state == Materialization::Full
}

/// Whether a node with these attributes may join a graph of `len` nodes.
pub open spec fn admissible(kind: OperatorKind, state: Materialization, parents: Seq<usize>, len: int)
    -> Result<(), GraphError> {
    if kind == OperatorKind::Base {
        if parents.len() == 0 && state == Materialization::Full {
            Ok(())
        } else {
            Err(GraphError::MalformedBase)
        }
    } else if parents.len() == 0 {
        Err(GraphError::Orphan)
    } else if exists|i: int| 0 <= i < parents.len() && parents[i] >= len {
        Err(GraphError::UnknownParent)
    } else {
        Ok(())
    }
}

/// Every node's parents are older than the node; a base table has none
/// and is full; every other node has one at least.
pub open spec fn well_formed(nodes: Seq<Node>) -> bool {
    forall|i: int|
        0 <= i < nodes.len() ==> (#[trigger] admissible(
            nodes[i].kind,
            nodes[i].state,
            nodes[i].parents@,
            i,
        )).is_ok()
}

/// The nodes that a replay for `node` passes, nearest first: from each
/// node to its first parent, up to and including the first source. Empty
/// where `node` is a source itself and so never misses.
pub open spec fn upstream(nodes: Seq<Node>, node: int) -> Seq<int>
    decreases node,
{
    if 0 <= node < nodes.len() && !is_source(nodes[node]) && nodes[node].parents@.len() > 0
        && nodes[node].parents@[0] < node {
        seq![nodes[node].parents@[0] as int] + upstream(nodes, nodes[node].parents@[0] as int)
    } else {
        Seq::empty()
    }
}

/// The operator graph.
pub struct Graph {
    nodes: Vec<Node>,
}

impl View for Graph {
    type V = Seq<Node>;

    closed spec fn view(&self) -> Seq<Node> {
        self.nodes@
    }
}

impl Graph {
    /// The graph's invariant.
    pub open spec fn wf(&self) -> bool {
        well_formed(self@)
    }

    /// A graph without nodes.
    pub fn new() -> (g: Graph)
        ensures
            g.wf(),
            g@ == Seq::<Node>::empty(),
    {
        Graph { nodes: Vec::new() }
    }

    /// The number of nodes.
    pub fn len(&self) -> (n: usize)
        ensures
            n == self@.len(),
    {
        self.nodes.len()
    }

    /// The node at `index`.
    pub fn node(&self, index: usize) -> (n: Option<&Node>)
        ensures
            match n {
                Some(x) => index < self@.len() && *x == self@[index as int],
                None => index >= self@.len(),
            },
    {
        if index < self.nodes.len() {
            Some(&self.nodes[index])
        } else {
            None
        }
    }

    /// Adds a node and returns its index, which stays the same from then
    /// on. A node that would break the graph's invariant is refused and
    /// the graph is left as it was.
    pub fn add_node(&mut self, node: Node) -> (r: Result<usize, GraphError>)
        requires
            old(self).wf(),
        ensures
            final(self).wf(),
            match admissible(node.kind, node.state, node.parents@, old(self)@.len() as int) {
                Ok(_) => r == Ok::<usize, GraphError>(old(self)@.len() as usize) && final(self)@
                    == old(self)@.push(node),
                Err(e) => r == Err::<usize, GraphError>(e) && final(self)@ == old(self)@,
            },
    {
        let len: usize = self.nodes.len();
        let is_base: bool = match node.kind {
            OperatorKind::Base => true,
            _ => false,
        };
        if is_base {
            let full: bool = match node.state {
                Materialization::Full => true,
                _ => false,
            };
            if node.parents.len() != 0 || !full {
                return Err(GraphError::MalformedBase);
            }
        } else {
            if node.parents.len() == 0 {
                return Err(GraphError::Orphan);
            }
            let mut i: usize = 0;
            while i < node.parents.len()
                invariant
                    *self == *old(self),
                    self.wf(),
                    len == self.nodes@.len(),
                    node.kind != OperatorKind::Base,
                    node.parents@.len() > 0,
                    i <= node.parents@.len(),
                    forall|j: int| 0 <= j < i ==> node.parents@[j] < len,
                decreases node.parents@.len() - i,
            {
                if node.parents[i] >= len {
                    return Err(GraphError::UnknownParent);
                }
                i += 1;
            }
        }
        let ghost before = self.nodes@;
        self.nodes.push(node);
        proof {
            assert forall|i: int| 0 <= i < self.nodes@.len() implies (#[trigger] admissible(
                self.nodes@[i].kind,
                self.nodes@[i].state,
                self.nodes@[i].parents@,
                i,
            )).is_ok() by {
                if i < before.len() {
                    assert(self.nodes@[i] == before[i]);
                }
            }
        }
        Ok(len)
    }

    /// The replay path of `node`: one segment for each node that a replay
    /// passes, nearest first, each with the domain that runs it.
    pub fn replay_path(&self, node: usize) -> (path: Vec<ReplayPathSegment>)
        requires
            self.wf(),
        ensures
            path@.len() == upstream(self@, node as int).len(),
            forall|i: int|
                0 <= i < path@.len() ==> (#[trigger] path@[i]).node == upstream(
                    self@,
                    node as int,
                )[i] && path@[i].domain == self@[upstream(self@, node as int)[i]].domain,
    {
        let mut path: Vec<ReplayPathSegment> = Vec::new();
        if node >= self.nodes.len() {
            return path;
        }
        let mut cur: usize = node;
        let mut done: bool = self.answers(cur);
        let ghost whole = upstream(self@, node as int);
        while !done
            invariant
                self.wf(),
                cur < self.nodes@.len(),
                done == is_source(self.nodes@[cur as int]),
                whole == upstream(self@, node as int),
                path@.len() + upstream(self@, cur as int).len() == whole.len(),
                forall|i: int|
                    0 <= i < upstream(self@, cur as int).len() ==> upstream(self@, cur as int)[i]
                        == whole[path@.len() + i],
                forall|i: int|
                    0 <= i < path@.len() ==> (#[trigger] path@[i]).node == whole[i]
                        && path@[i].domain == self@[whole[i]].domain,
            decreases cur,
        {
            let ghost n = self.nodes@[cur as int];
            assert(admissible(
                self@[cur as int].kind,
                self@[cur as int].state,
                self@[cur as int].parents@,
                cur as int,
            ).is_ok());
            let parent: usize = self.nodes[cur].parents[0];
            let ghost rest = upstream(self@, parent as int);
            assert(upstream(self@, cur as int) == seq![parent as int] + rest);
            assert(upstream(self@, cur as int)[0] == parent);
            assert forall|i: int| 0 <= i < rest.len() implies rest[i] == whole[path@.len() + 1
                + i] by {
                assert(upstream(self@, cur as int)[i + 1] == rest[i]);
            }
            path.push(ReplayPathSegment { domain: self.nodes[parent].domain, node: parent });
            cur = parent;
            done = self.answers(cur);
        }
        path
    }

    /// Whether the node at `index` is a base table or holds a full state.
    pub fn answers(&self, index: usize) -> (yes: bool)
        requires
            index < self@.len(),
        ensures
            yes == is_source(self@[index as int]),
    {
        let base: bool = match self.nodes[index].kind {
            OperatorKind::Base => true,
            _ => false,
        };
        let full: bool = match self.nodes[index].state {
            Materialization::Full => true,
            _ => false,
        };
        base || full
    }

    /// The nodes that `domain` runs, in the order in which a packet passes
    /// them: ascending by index, which puts every parent before its
    /// children.
    pub fn local_order(&self, domain: usize) -> (order: Vec<usize>)
        ensures
            forall|j: int|
                0 <= j < order@.len() ==> (#[trigger] order@[j]) < self@.len()
                    && self@[order@[j] as int].domain == domain,
            forall|j: int, k: int| 0 <= j < k < order@.len() ==> order@[j] < order@[k],
            forall|i: int|
                0 <= i < self@.len() && (#[trigger] self@[i]).domain == domain ==> order@.contains(
                    i as usize,
                ),
    {
        let mut order: Vec<usize> = Vec::new();
        let mut i: usize = 0;
        while i < self.nodes.len()
            invariant
                i <= self.nodes@.len(),
                forall|j: int|
                    0 <= j < order@.len() ==> (#[trigger] order@[j]) < i
                        && self@[order@[j] as int].domain == domain,
                forall|j: int, k: int| 0 <= j < k < order@.len() ==> order@[j] < order@[k],
                forall|m: int|
                    0 <= m < i && (#[trigger] self@[m]).domain == domain ==> order@.contains(
                        m as usize,
                    ),
            decreases self.nodes@.len() - i,
        {
            if self.nodes[i].domain == domain {
                let ghost prev = order@;
                order.push(i);
                proof {
                    assert(order@[prev.len() as int] == i);
                    assert forall|m: int|
                        0 <= m < i + 1 && (#[trigger] self@[m]).domain == domain implies order@.contains(
                        m as usize,
                    ) by {
                        if m < i {
                            let j = choose|j: int| 0 <= j < prev.len() && prev[j] == m as usize;
                            assert(order@[j] == m as usize);
                        }
                    }
                }
            }
            i += 1;
        }
        order
    }
}

/// The order of the indices is a topological order: every parent of a
/// node has a smaller index than the node, so a packet that passes the
/// nodes by ascending index reaches each node after all its parents.
pub proof fn parents_come_first(nodes: Seq<Node>, child: int, which: int)
    requires
        well_formed(nodes),
        0 <= child < nodes.len(),
        0 <= which < nodes[child].parents@.len(),
    ensures
        nodes[child].parents@[which] < child,
        nodes[child].kind != OperatorKind::Base,
{
    assert(admissible(nodes[child].kind, nodes[child].state, nodes[child].parents@, child).is_ok());
}

/// A replay path leads strictly towards older nodes, follows first
/// parents, passes only nodes that cannot answer by themselves, and ends
/// at a base table or a full state.
pub proof fn replay_path_reaches_a_source(nodes: Seq<Node>, node: int)
    requires
        well_formed(nodes),
        0 <= node < nodes.len(),
    ensures
        is_source(nodes[node]) <==> upstream(nodes, node).len() == 0,
        forall|i: int|
            0 <= i < upstream(nodes, node).len() ==> 0 <= (#[trigger] upstream(nodes, node)[i])
                < node,
        forall|i: int|
            0 <= i < upstream(nodes, node).len() - 1 ==> !is_source(
                nodes[#[trigger] upstream(nodes, node)[i]],
            ) && upstream(nodes, node)[i + 1] == nodes[upstream(nodes, node)[i]].parents@[0],
        upstream(nodes, node).len() > 0 ==> upstream(nodes, node)[0] == nodes[node].parents@[0]
            && is_source(nodes[upstream(nodes, node).last()]),
    decreases node,
{
    assert(admissible(nodes[node].kind, nodes[node].state, nodes[node].parents@, node).is_ok());
    if !is_source(nodes[node]) {
        let p = nodes[node].parents@[0] as int;
        let rest = upstream(nodes, p);
        let all = upstream(nodes, node);
        assert(all == seq![p] + rest);
        replay_path_reaches_a_source(nodes, p);
        assert(all[0] == p);
        assert forall|i: int| 1 <= i < all.len() implies all[i] == rest[i - 1] by {}
        assert forall|i: int| 0 <= i < all.len() implies 0 <= (#[trigger] all[i]) < node by {
            if i > 0 {
                assert(all[i] == rest[i - 1]);
            }
        }
        assert forall|i: int| 0 <= i < all.len() - 1 implies !is_source(nodes[#[trigger] all[i]])
            && all[i + 1] == nodes[all[i]].parents@[0] by {
            assert(all[i + 1] == rest[i]);
            if i > 0 {
                assert(all[i] == rest[i - 1]);
            }
        }
        if rest.len() > 0 {
            assert(all.last() == rest.last());
        }
    }
}

} // verus!
