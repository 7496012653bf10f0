//! The arena-based game tree.
//!
//! One growable store owns every node; nodes reference each other only
//! through [`NodeId`] handles (array indices), which removes parent/child
//! ownership cycles. The arena is append-only: nodes are never removed
//! during a search.
//!
//! The well-formedness predicate [`arena_wf`] carries the tree's standing
//! invariants:
//! - every node's recorded id is its own index, a parent always precedes its
//!   children, and a node has a parent exactly when it has an originating
//!   action;
//! - `wins <= visits * REWARD_UNIT` at every node;
//! - at every node, the untried actions together with the actions of the
//!   children are exactly the legal actions the node was created with, as a
//!   multiset — no action is duplicated or lost;
//! - a node appears at most once in its parent's children list, and
//!   [`arena_attached`] strengthens this to exactly once, which holds
//!   between expansions.

use vstd::prelude::*;
use crate::state::{State, REWARD_UNIT};

verus! {

broadcast use vstd::seq_lib::group_to_multiset_ensures;

/// More visits than any search can make: visit counts stay below this
/// machine limit so that the statistics never overflow.
pub const MAX_VISITS: u64 = 0x10_0000_0000_0000;

/// An opaque handle into the arena; the only way nodes reference each other.
/// Only the arena issues these values.
#[derive(Debug, Clone, PartialEq, Eq, Copy, Structural)]
pub struct NodeId {
    index: usize,
}

impl NodeId {
    /// The position in the arena's store that this handle names.
    pub closed spec fn spec_index(self) -> int {
        self.index as int
    }

    /// Two handles with the same index are the same handle.
    pub proof fn lemma_index_injective(a: NodeId, b: NodeId)
        ensures
            a == b <==> a.spec_index() == b.spec_index(),
    {
    }

    pub fn as_usize(self) -> (i: usize)
        ensures
            i == self.spec_index(),
    {
        self.index
    }
}

/// One explored position: its statistics, its links, and the actions not
/// yet expanded into children.
pub struct Node {
    /// This node's own handle.
    pub id: NodeId,
    /// The action that led here; `None` for a root.
    pub action: Option<u32>,
    /// A human label for that action; `None` for a root.
    pub action_string: Option<String>,
    /// The parent node; `None` for a root.
    pub parent: Option<NodeId>,
    /// The children, in the order they were expanded.
    pub children: Vec<NodeId>,
    /// Cumulative reward, in thousandths of a win.
    pub wins: u64,
    /// How many times backpropagation has passed through this node.
    pub visits: u64,
    /// Actions of this position that have no child yet.
    pub untried_actions: Vec<u32>,
    /// Labels parallel to `untried_actions`.
    pub untried_action_strings: Vec<String>,
    /// The participant who moved into this position.
    pub player_just_moved: usize,
    /// The legal actions of the position when the node was created.
    pub all_actions: Ghost<Seq<u32>>,
}

/// The recorded action of a non-root node.
pub open spec fn spec_action_of(n: Node) -> u32 {
    match n.action {
        Some(a) => a,
        None => 0,
    }
}

/// The actions of the given children, looked up in the store.
pub open spec fn child_actions(ns: Seq<Node>, cs: Seq<NodeId>) -> Seq<u32> {
    cs.map_values(|c: NodeId| spec_action_of(ns[c.spec_index()]))
}

/// A children-list entry points forward to a node that records this parent.
pub open spec fn child_link_ok(ns: Seq<Node>, i: int, c: NodeId) -> bool {
    &&& i < c.spec_index() < ns.len()
    &&& ns[c.spec_index()].parent == Some(ns[i].id)
}

/// The local well-formedness of the node at index `i`.
pub open spec fn node_wf(ns: Seq<Node>, i: int) -> bool {
    let n = ns[i];
    &&& n.id.spec_index() == i
    &&& n.wins <= n.visits * REWARD_UNIT
    &&& n.untried_action_strings@.len() == n.untried_actions@.len()
    &&& (n.parent is None <==> n.action is None)
    &&& (match n.parent {
        None => true,
        Some(p) => 0 <= p.spec_index() < i,
    })
    &&& (forall|j: int| 0 <= j < n.children@.len() ==> child_link_ok(ns, i, #[trigger] n.children@[j]))
    &&& n.untried_actions@.to_multiset().add(child_actions(ns, n.children@).to_multiset())
        == n.all_actions@.to_multiset()
}

/// The node at index `i` stands at most once in its parent's children.
pub open spec fn parent_count_ok(ns: Seq<Node>, i: int) -> bool {
    match ns[i].parent {
        None => true,
        Some(p) => ns[p.spec_index()].children@.to_multiset().count(ns[i].id) <= 1,
    }
}

/// The whole store is well-formed.
pub open spec fn arena_wf(ns: Seq<Node>) -> bool {
    forall|i: int| 0 <= i < ns.len() ==> #[trigger] node_wf(ns, i) && parent_count_ok(ns, i)
}

/// The node at index `i` stands exactly once in its parent's children.
pub open spec fn node_attached(ns: Seq<Node>, i: int) -> bool {
    match ns[i].parent {
        None => true,
        Some(p) => ns[p.spec_index()].children@.to_multiset().count(ns[i].id) == 1,
    }
}

/// Every non-root node has been attached to its parent: each untried action
/// became at most one child, and each child was attached exactly once.
pub open spec fn arena_attached(ns: Seq<Node>) -> bool {
    forall|i: int| 0 <= i < ns.len() ==> #[trigger] node_attached(ns, i)
}

/// Every non-root node has been backpropagated through at least once.
pub open spec fn arena_visited(ns: Seq<Node>) -> bool {
    forall|i: int| 0 <= i < ns.len() && (#[trigger] ns[i].parent) is Some ==> ns[i].visits >= 1
}

/// Everything of the node at `i` except its statistics is unchanged.
pub open spec fn same_but_stats(a: Node, b: Node) -> bool {
    &&& b.id == a.id
    &&& b.action == a.action
    &&& b.action_string == a.action_string
    &&& b.parent == a.parent
    &&& b.children == a.children
    &&& b.untried_actions == a.untried_actions
    &&& b.untried_action_strings == a.untried_action_strings
    &&& b.player_just_moved == a.player_just_moved
    &&& b.all_actions == a.all_actions
}

/// Lookups into both stores agree on the actions of the given children.
proof fn lemma_child_actions_congruent(ns1: Seq<Node>, ns2: Seq<Node>, cs: Seq<NodeId>)
    requires
        forall|j: int| 0 <= j < cs.len() ==> {
            let k = (#[trigger] cs[j]).spec_index();
            &&& 0 <= k < ns1.len()
            &&& 0 <= k < ns2.len()
            &&& ns1[k].action == ns2[k].action
        },
    ensures
        child_actions(ns1, cs) == child_actions(ns2, cs),
{
    assert(child_actions(ns1, cs) =~= child_actions(ns2, cs));
}

impl Node {
    /// Adds one backpropagated outcome: a reward in thousandths of a win.
    pub fn update(&mut self, result: u64)
        requires
            result <= REWARD_UNIT,
            old(self).visits < MAX_VISITS,
            old(self).wins <= old(self).visits * REWARD_UNIT,
        ensures
            final(self).visits == old(self).visits + 1,
            final(self).wins == old(self).wins + result,
            final(self).wins <= final(self).visits * REWARD_UNIT,
            same_but_stats(*old(self), *final(self)),
    {
        proof {
            let v = old(self).visits;
            assert(v * REWARD_UNIT + REWARD_UNIT == (v + 1) * REWARD_UNIT) by (nonlinear_arith);
            assert((v + 1) * REWARD_UNIT <= MAX_VISITS * REWARD_UNIT) by (nonlinear_arith)
                requires
                    v + 1 <= MAX_VISITS,
            ;
        }
        self.visits = self.visits + 1;
        self.wins = self.wins + result;
    }

    /// Creates a child of this node in the arena; the caller attaches it.
    pub fn add_child<S: State>(
        &self,
        arena: &mut NodeArena,
        action: Option<u32>,
        action_string: Option<String>,
        state: &S,
    ) -> (id: NodeId)
        requires
            state.inv(),
            arena_wf(old(arena).nodes@),
            0 <= self.id.spec_index() < old(arena).nodes@.len(),
            action is Some,
        ensures
            arena_wf(final(arena).nodes@),
            final(arena).nodes@.len() == old(arena).nodes@.len() + 1,
            final(arena).nodes@.subrange(0, old(arena).nodes@.len() as int) == old(arena).nodes@,
            id.spec_index() == old(arena).nodes@.len(),
            new_child_desc(final(arena).nodes@[id.spec_index()], id, Some(self.id), action, action_string, *state),
    {
        arena.new_child_node(Some(self.id), action, action_string, state)
    }
}

/// What a freshly created node looks like: links and label as given,
/// statistics zeroed, the untried list exactly the position's legal
/// actions with a parallel label list, and the mover recorded.
pub open spec fn new_child_desc<S: State>(
    n: Node,
    id: NodeId,
    parent: Option<NodeId>,
    action: Option<u32>,
    action_string: Option<String>,
    state: S,
) -> bool {
    &&& n.id == id
    &&& n.action == action
    &&& n.action_string == action_string
    &&& n.parent == parent
    &&& n.children@.len() == 0
    &&& n.wins == 0
    &&& n.visits == 0
    &&& n.untried_actions@ == state.spec_actions()
    &&& n.untried_action_strings@.len() == state.spec_actions().len()
    &&& n.all_actions@ == state.spec_actions()
    &&& n.player_just_moved == state.spec_player_just_moved()
}

/// Owns all tree nodes in one growable, append-only, indexed store; the
/// sole creator and mutator of nodes.
pub struct NodeArena {
    pub nodes: Vec<Node>,
}

impl NodeArena {
    /// The whole store is well-formed.
    pub open spec fn wf(&self) -> bool {
        arena_wf(self.nodes@)
    }

    pub fn new() -> (a: NodeArena)
        ensures
            a.nodes@.len() == 0,
            a.wf(),
            arena_attached(a.nodes@),
            arena_visited(a.nodes@),
    {
        NodeArena { nodes: Vec::new() }
    }

    /// How many nodes the arena has issued.
    pub fn len(&self) -> (n: usize)
        ensures
            n == self.nodes@.len(),
    {
        self.nodes.len()
    }

    /// Direct access to the node stored at position `i`.
    pub fn node_at(&self, i: usize) -> (n: &Node)
        requires
            i < self.nodes@.len(),
        ensures
            *n == self.nodes@[i as int],
    {
        &self.nodes[i]
    }

    /// Index access, total over handles the arena itself issued.
    pub fn get(&self, id: NodeId) -> (n: &Node)
        requires
            0 <= id.spec_index() < self.nodes@.len(),
        ensures
            *n == self.nodes@[id.spec_index()],
    {
        &self.nodes[id.as_usize()]
    }

    /// Creates a parentless node from the legal actions of `state`.
    pub fn new_node<S: State>(&mut self, state: S) -> (id: NodeId)
        requires
            state.inv(),
            arena_wf(old(self).nodes@),
        ensures
            arena_wf(final(self).nodes@),
            final(self).nodes@.len() == old(self).nodes@.len() + 1,
            final(self).nodes@.subrange(0, old(self).nodes@.len() as int) == old(self).nodes@,
            id.spec_index() == old(self).nodes@.len(),
            new_child_desc(final(self).nodes@[id.spec_index()], id, None, None, None, state),
    {
        self.push_node(None, None, None, &state)
    }

    /// Creates a node from the legal actions of `state`, after the parent's
    /// `action` has been applied to it. The new node records its parent but
    /// is not yet listed among the parent's children: the caller performs
    /// attachment and untried-list removal as one step, through
    /// [`NodeArena::attach_child`].
    pub fn new_child_node<S: State>(
        &mut self,
        parent: Option<NodeId>,
        action: Option<u32>,
        action_string: Option<String>,
        state: &S,
    ) -> (id: NodeId)
        requires
            state.inv(),
            arena_wf(old(self).nodes@),
            parent is Some <==> action is Some,
            (match parent {
                Some(p) => 0 <= p.spec_index() < old(self).nodes@.len(),
                None => true,
            }),
        ensures
            arena_wf(final(self).nodes@),
            final(self).nodes@.len() == old(self).nodes@.len() + 1,
            final(self).nodes@.subrange(0, old(self).nodes@.len() as int) == old(self).nodes@,
            id.spec_index() == old(self).nodes@.len(),
            new_child_desc(final(self).nodes@[id.spec_index()], id, parent, action, action_string, *state),
    {
        self.push_node(parent, action, action_string, state)
    }

    fn push_node<S: State>(
        &mut self,
        parent: Option<NodeId>,
        action: Option<u32>,
        action_string: Option<String>,
        state: &S,
    ) -> (id: NodeId)
        requires
            state.inv(),
            arena_wf(old(self).nodes@),
            parent is Some <==> action is Some,
            (match parent {
                Some(p) => 0 <= p.spec_index() < old(self).nodes@.len(),
                None => true,
            }),
        ensures
            arena_wf(final(self).nodes@),
            final(self).nodes@.len() == old(self).nodes@.len() + 1,
            final(self).nodes@.subrange(0, old(self).nodes@.len() as int) == old(self).nodes@,
            id.spec_index() == old(self).nodes@.len(),
            new_child_desc(final(self).nodes@[id.spec_index()], id, parent, action, action_string, *state),
    {
        let ghost old_ns = self.nodes@;
        let index = self.nodes.len();
        let id = NodeId { index };
        let untried_actions = state.get_actions();
        let untried_action_strings = state.get_action_strings();
        let ghost acts = untried_actions@;
        let node = Node {
            id,
            action,
            action_string,
            parent,
            children: Vec::new(),
            wins: 0,
            visits: 0,
            untried_actions,
            untried_action_strings,
            player_just_moved: state.get_player_just_moved(),
            all_actions: Ghost(acts),
        };
        self.nodes.push(node);
        proof {
            let ns = self.nodes@;
            assert(ns.subrange(0, old_ns.len() as int) =~= old_ns);
            let i = old_ns.len() as int;
            let n = ns[i];
            assert(child_actions(ns, n.children@) =~= Seq::<u32>::empty());
            assert(n.untried_actions@.to_multiset().add(child_actions(ns, n.children@).to_multiset())
                =~= n.all_actions@.to_multiset());
            assert(node_wf(ns, i));
            assert(parent_count_ok(ns, i)) by {
                if n.parent is Some {
                    let p = n.parent->0;
                    assert(node_wf(old_ns, p.spec_index()));
                    let pcs = ns[p.spec_index()].children@;
                    assert(forall|j: int| 0 <= j < pcs.len()
                        ==> (#[trigger] pcs[j]).spec_index() < old_ns.len());
                    assert(forall|j: int| 0 <= j < pcs.len() ==> pcs[j] != n.id) by {
                        assert(forall|j: int| 0 <= j < pcs.len()
                            ==> (#[trigger] pcs[j]).spec_index() != n.id.spec_index());
                    }
                    assert(!pcs.contains(n.id));
                    assert(pcs.to_multiset().count(n.id) == 0);
                }
            }
            assert forall|k: int| 0 <= k < old_ns.len() implies #[trigger] node_wf(ns, k)
                && parent_count_ok(ns, k) by {
                assert(node_wf(old_ns, k));
                assert(parent_count_ok(old_ns, k));
                assert(ns[k] == old_ns[k]);
                lemma_child_actions_congruent(old_ns, ns, old_ns[k].children@);
                if old_ns[k].parent is Some {
                    let p = old_ns[k].parent->0;
                    assert(ns[p.spec_index()] == old_ns[p.spec_index()]);
                }
            }
        }
        id
    }

    /// Attaches a freshly created child to its parent: appends the child to
    /// the parent's children and removes the expanded action (and its label)
    /// from the parent's untried lists, as one step.
    pub fn attach_child(&mut self, parent: NodeId, child: NodeId, untried_index: usize)
        requires
            arena_wf(old(self).nodes@),
            0 <= parent.spec_index() < old(self).nodes@.len(),
            parent.spec_index() < child.spec_index() < old(self).nodes@.len(),
            old(self).nodes@[child.spec_index()].parent == Some(parent),
            untried_index < old(self).nodes@[parent.spec_index()].untried_actions@.len(),
            old(self).nodes@[parent.spec_index()].untried_actions@[untried_index as int]
                == spec_action_of(old(self).nodes@[child.spec_index()]),
            old(self).nodes@[parent.spec_index()].children@.to_multiset().count(child) == 0,
        ensures
            arena_wf(final(self).nodes@),
            final(self).nodes@.len() == old(self).nodes@.len(),
            forall|k: int| 0 <= k < old(self).nodes@.len() && k != parent.spec_index()
                ==> final(self).nodes@[k] == old(self).nodes@[k],
            ({
                let p0 = old(self).nodes@[parent.spec_index()];
                let p1 = final(self).nodes@[parent.spec_index()];
                &&& p1.id == p0.id
                &&& p1.action == p0.action
                &&& p1.action_string == p0.action_string
                &&& p1.parent == p0.parent
                &&& p1.wins == p0.wins
                &&& p1.visits == p0.visits
                &&& p1.player_just_moved == p0.player_just_moved
                &&& p1.all_actions == p0.all_actions
                &&& p1.children@ == p0.children@.push(child)
                &&& p1.untried_actions@ == p0.untried_actions@.remove(untried_index as int)
                &&& p1.untried_action_strings@
                    == p0.untried_action_strings@.remove(untried_index as int)
            }),
    {
        let ghost old_ns = self.nodes@;
        let ghost pi = parent.spec_index();
        proof {
            assert(node_wf(old_ns, pi));
        }
        let pidx = parent.as_usize();
        let node = &mut self.nodes[pidx];
        node.untried_actions.remove(untried_index);
        node.untried_action_strings.remove(untried_index);
        node.children.push(child);
        proof {
            let ns = self.nodes@;
            let p0 = old_ns[pi];
            let p1 = ns[pi];
            let a = spec_action_of(old_ns[child.spec_index()]);
            assert(node_wf(ns, pi)) by {
                assert(forall|j: int| 0 <= j < p0.children@.len()
                    ==> child_link_ok(old_ns, pi, #[trigger] p0.children@[j]));
                assert forall|j: int| 0 <= j < p1.children@.len()
                    implies child_link_ok(ns, pi, #[trigger] p1.children@[j]) by {
                    if j < p0.children@.len() {
                        assert(p1.children@[j] == p0.children@[j]);
                        let c = p0.children@[j];
                        assert(child_link_ok(old_ns, pi, c));
                        assert(ns[c.spec_index()] == old_ns[c.spec_index()]);
                    } else {
                        assert(p1.children@[j] == child);
                        assert(ns[child.spec_index()] == old_ns[child.spec_index()]);
                        assert(ns[child.spec_index()].parent == Some(parent));
                        assert(old_ns[pi].id.spec_index() == pi);
                        NodeId::lemma_index_injective(old_ns[pi].id, parent);
                    }
                }
                assert(child_actions(ns, p1.children@)
                    =~= child_actions(ns, p0.children@).push(a)) by {
                    assert(ns[child.spec_index()] == old_ns[child.spec_index()]);
                }
                lemma_child_actions_congruent(old_ns, ns, p0.children@);
                assert(p1.untried_actions@.to_multiset()
                    =~= p0.untried_actions@.to_multiset().remove(a));
                assert(child_actions(ns, p1.children@).to_multiset()
                    =~= child_actions(old_ns, p0.children@).to_multiset().insert(a));
                assert(p0.untried_actions@.to_multiset().count(a) >= 1) by {
                    assert(p0.untried_actions@.contains(a));
                }
                assert(p1.untried_actions@.to_multiset().add(
                    child_actions(ns, p1.children@).to_multiset())
                    =~= p0.untried_actions@.to_multiset().add(
                        child_actions(old_ns, p0.children@).to_multiset()));
            }
            assert(parent_count_ok(ns, pi)) by {
                if p0.parent is Some {
                    let q = p0.parent->0;
                    assert(ns[q.spec_index()] == old_ns[q.spec_index()]);
                    assert(parent_count_ok(old_ns, pi));
                }
            }
            assert forall|k: int| 0 <= k < ns.len() && k != pi implies #[trigger] node_wf(ns, k)
                && parent_count_ok(ns, k) by {
                assert(node_wf(old_ns, k));
                assert(parent_count_ok(old_ns, k));
                assert(ns[k] == old_ns[k]);
                assert forall|j: int| 0 <= j < ns[k].children@.len()
                    implies child_link_ok(ns, k, #[trigger] ns[k].children@[j]) by {
                    let c = old_ns[k].children@[j];
                    assert(child_link_ok(old_ns, k, c));
                    assert(ns[c.spec_index()].parent == old_ns[c.spec_index()].parent);
                }
                lemma_child_actions_congruent(old_ns, ns, old_ns[k].children@);
                if old_ns[k].parent is Some {
                    let q = old_ns[k].parent->0;
                    if q.spec_index() == pi {
                        assert(p1.children@.to_multiset()
                            =~= p0.children@.to_multiset().insert(child));
                        if k == child.spec_index() {
                            assert(p1.children@.to_multiset().count(ns[k].id) <= 1) by {
                                assert(old_ns[k].id.spec_index() == k);
                                NodeId::lemma_index_injective(old_ns[k].id, child);
                            }
                        } else {
                            assert(old_ns[k].id.spec_index() == k);
                            NodeId::lemma_index_injective(old_ns[k].id, child);
                            assert(p1.children@.to_multiset().count(ns[k].id)
                                == p0.children@.to_multiset().count(ns[k].id));
                        }
                    } else {
                        assert(ns[q.spec_index()] == old_ns[q.spec_index()]);
                    }
                }
            }
        }
    }

    /// Adds one backpropagated outcome to the node `id`.
    pub fn record_outcome(&mut self, id: NodeId, result: u64)
        requires
            arena_wf(old(self).nodes@),
            0 <= id.spec_index() < old(self).nodes@.len(),
            result <= REWARD_UNIT,
            old(self).nodes@[id.spec_index()].visits < MAX_VISITS,
        ensures
            arena_wf(final(self).nodes@),
            final(self).nodes@.len() == old(self).nodes@.len(),
            forall|k: int| 0 <= k < old(self).nodes@.len() && k != id.spec_index()
                ==> final(self).nodes@[k] == old(self).nodes@[k],
            ({
                let n0 = old(self).nodes@[id.spec_index()];
                let n1 = final(self).nodes@[id.spec_index()];
                &&& same_but_stats(n0, n1)
                &&& n1.visits == n0.visits + 1
                &&& n1.wins == n0.wins + result
            }),
    {
        let ghost old_ns = self.nodes@;
        let ghost i = id.spec_index();
        proof {
            assert(node_wf(old_ns, i));
        }
        let idx = id.as_usize();
        let node = &mut self.nodes[idx];
        node.update(result);
        proof {
            let ns = self.nodes@;
            assert(node_wf(ns, i)) by {
                assert forall|j: int| 0 <= j < ns[i].children@.len()
                    implies child_link_ok(ns, i, #[trigger] ns[i].children@[j]) by {
                    let c = old_ns[i].children@[j];
                    assert(child_link_ok(old_ns, i, c));
                    assert(ns[c.spec_index()] == old_ns[c.spec_index()]);
                }
                lemma_child_actions_congruent(old_ns, ns, old_ns[i].children@);
            }
            assert(parent_count_ok(ns, i)) by {
                if old_ns[i].parent is Some {
                    let q = old_ns[i].parent->0;
                    assert(ns[q.spec_index()].children@ == old_ns[q.spec_index()].children@);
                    assert(parent_count_ok(old_ns, i));
                }
            }
            assert forall|k: int| 0 <= k < ns.len() && k != i implies #[trigger] node_wf(ns, k)
                && parent_count_ok(ns, k) by {
                assert(node_wf(old_ns, k));
                assert(parent_count_ok(old_ns, k));
                assert(ns[k] == old_ns[k]);
                assert forall|j: int| 0 <= j < ns[k].children@.len()
                    implies child_link_ok(ns, k, #[trigger] ns[k].children@[j]) by {
                    let c = old_ns[k].children@[j];
                    assert(child_link_ok(old_ns, k, c));
                    assert(ns[c.spec_index()].parent == old_ns[c.spec_index()].parent);
                }
                lemma_child_actions_congruent(old_ns, ns, old_ns[k].children@);
                if old_ns[k].parent is Some {
                    let q = old_ns[k].parent->0;
                    if q.spec_index() == i {
                        assert(ns[q.spec_index()].children@ == old_ns[q.spec_index()].children@);
                    } else {
                        assert(ns[q.spec_index()] == old_ns[q.spec_index()]);
                    }
                }
            }
        }
    }
}

/// At every node, the cumulative reward never exceeds the visit count times
/// one whole win.
pub proof fn lemma_wins_bounded(ns: Seq<Node>, i: int)
    requires
        arena_wf(ns),
        0 <= i < ns.len(),
    ensures
        ns[i].wins <= ns[i].visits * REWARD_UNIT,
{
    assert(node_wf(ns, i));
}

/// At every node, the untried actions together with the actions of the
/// children are, as a multiset, exactly the legal actions of the position
/// the node was created from: no action is duplicated or lost.
pub proof fn lemma_actions_partition(ns: Seq<Node>, i: int)
    requires
        arena_wf(ns),
        0 <= i < ns.len(),
    ensures
        ns[i].untried_actions@.to_multiset().add(child_actions(ns, ns[i].children@).to_multiset())
            == ns[i].all_actions@.to_multiset(),
{
    assert(node_wf(ns, i));
}

/// In an attached arena, every node with a parent appears in that parent's
/// children list exactly once.
pub proof fn lemma_child_listed_once(ns: Seq<Node>, i: int)
    requires
        arena_wf(ns),
        arena_attached(ns),
        0 <= i < ns.len(),
        ns[i].parent is Some,
    ensures
        ns[(ns[i].parent->0).spec_index()].children@.to_multiset().count(ns[i].id) == 1,
{
    assert(node_attached(ns, i));
}

} // verus!
