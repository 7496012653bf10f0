//! The four-phase search: selection by UCT score, expansion of one untried
//! action, uniform-random rollout to a terminal position, and
//! backpropagation of the result along the parent chain.

use vstd::prelude::*;
use crate::node::{
    arena_attached, arena_visited, arena_wf, child_actions, child_link_ok, node_attached,
    node_wf, spec_action_of, Node, NodeArena, NodeId, MAX_VISITS,
};
use crate::rng::RandomSource;
use crate::scoring::spec_uct_score;
use crate::state::{State, REWARD_UNIT};
use std::time::Instant;

verus! {

broadcast use vstd::seq_lib::group_to_multiset_ensures;

/// The exploration constant `C = 1.4` of the UCT score, in thousandths.
pub const DEFAULT_EXPLORATION_MILLI: u32 = 1400;

/// How a search run is bounded: a fixed iteration count, a wall-clock
/// budget in milliseconds, or both, whichever triggers first. At least one
/// must be supplied and positive. The exploration constant is the `C` term
/// of the UCT score, in thousandths.
#[derive(Debug, Clone, Copy)]
pub struct SearchConfig {
    pub iterations: Option<u64>,
    pub time_ms: Option<u64>,
    pub exploration_milli: u32,
}

impl SearchConfig {
    /// A configuration is usable when it supplies a positive iteration
    /// count or a positive time budget.
    pub open spec fn spec_valid(&self) -> bool {
        ||| (self.iterations matches Some(n) && n > 0)
        ||| (self.time_ms matches Some(t) && t > 0)
    }

    pub fn new(iterations: Option<u64>, time_ms: Option<u64>) -> (c: SearchConfig)
        ensures
            c.iterations == iterations,
            c.time_ms == time_ms,
            c.exploration_milli == DEFAULT_EXPLORATION_MILLI,
    {
        SearchConfig { iterations, time_ms, exploration_milli: DEFAULT_EXPLORATION_MILLI }
    }

    /// Stop after `n` iterations.
    pub fn with_iterations(n: u64) -> (c: SearchConfig)
        ensures
            c.iterations == Some(n),
            c.time_ms is None,
            c.exploration_milli == DEFAULT_EXPLORATION_MILLI,
    {
        SearchConfig { iterations: Some(n), time_ms: None, exploration_milli: DEFAULT_EXPLORATION_MILLI }
    }

    /// Stop once `ms` milliseconds have elapsed, checked after each whole
    /// iteration.
    pub fn with_time_ms(ms: u64) -> (c: SearchConfig)
        ensures
            c.iterations is None,
            c.time_ms == Some(ms),
            c.exploration_milli == DEFAULT_EXPLORATION_MILLI,
    {
        SearchConfig { iterations: None, time_ms: Some(ms), exploration_milli: DEFAULT_EXPLORATION_MILLI }
    }
}

/// Why a search returned no action.
#[derive(Debug, Clone, Copy, PartialEq, Eq, Structural)]
pub enum SearchError {
    /// Neither an iteration count nor a time budget was supplied, or both
    /// were zero.
    InvalidConfiguration,
    /// The root position has no legal action: there is nothing to search.
    TerminalRoot,
    /// An action recorded in the tree was rejected by the simulated
    /// position it was replayed on: a defect in action bookkeeping between
    /// the tree and the game, carrying the offending action and node.
    IllegalMove { action: u32, node: NodeId },
}

#[verifier::external_type_specification]
#[verifier::external_body]
pub struct ExInstant(Instant);

/// Relies on std's `Instant::now`: an opaque reading of the monotonic
/// clock. Nothing is promised of its value.
#[verifier::external_body]
fn instant_now() -> Instant {
    Instant::now()
}

/// Relies on std's `Instant::elapsed`: the time since `start`, converted to
/// whole milliseconds. Nothing is promised of its value.
#[verifier::external_body]
fn elapsed_millis(start: &Instant) -> u64 {
    let d = start.elapsed();
    let ms = d.as_millis();
    if ms > u64::MAX as u128 {
        u64::MAX
    } else {
        ms as u64
    }
}

/// The UCT score of the child `c` under a parent with `parent_visits`
/// visits, in thousandths.
pub open spec fn spec_child_score(ns: Seq<Node>, c: NodeId, parent_visits: u64, c_milli: u32) -> nat {
    spec_uct_score(
        ns[c.spec_index()].wins as nat,
        ns[c.spec_index()].visits as nat,
        parent_visits as nat,
        c_milli as nat,
    )
}

/// Picks the child with the highest UCT score; ties go to the child that
/// was encountered first. Only children that have been visited at least
/// once are ever scored, so the score's divisions are well defined.
fn select_best_child(arena: &NodeArena, parent: NodeId, c_milli: u32) -> (j: usize)
    requires
        arena_wf(arena.nodes@),
        0 <= parent.spec_index() < arena.nodes@.len(),
        arena.nodes@[parent.spec_index()].children@.len() > 0,
        arena.nodes@[parent.spec_index()].visits >= 1,
        forall|k: int| 0 <= k < arena.nodes@[parent.spec_index()].children@.len()
            ==> arena.nodes@[(#[trigger] arena.nodes@[parent.spec_index()].children@[k]).spec_index()].visits >= 1,
    ensures
        ({
            let ns = arena.nodes@;
            let p = ns[parent.spec_index()];
            let cs = p.children@;
            &&& 0 <= j < cs.len()
            &&& forall|k: int| 0 <= k < cs.len()
                ==> spec_child_score(ns, #[trigger] cs[k], p.visits, c_milli)
                    <= spec_child_score(ns, cs[j as int], p.visits, c_milli)
            &&& forall|k: int| 0 <= k < j
                ==> spec_child_score(ns, #[trigger] cs[k], p.visits, c_milli)
                    < spec_child_score(ns, cs[j as int], p.visits, c_milli)
        }),
{
    let ghost ns = arena.nodes@;
    let pnode = arena.get(parent);
    let parent_visits = pnode.visits;
    let ghost cs = ns[parent.spec_index()].children@;
    let mut best: usize = 0;
    let mut k: usize = 1;
    proof {
        assert(pnode.children@ == cs);
        assert(node_wf(ns, parent.spec_index()));
        assert(child_link_ok(ns, parent.spec_index(), cs[0]));
        assert(0 <= cs[0].spec_index() < ns.len());
        assert(node_wf(ns, cs[0].spec_index()));
    }
    let first = arena.get(pnode.children[0]);
    let mut best_score = crate::scoring::uct_score(first.wins, first.visits, parent_visits, c_milli);
    while k < pnode.children.len()
        invariant
            arena_wf(ns),
            ns == arena.nodes@,
            0 <= parent.spec_index() < ns.len(),
            *pnode == ns[parent.spec_index()],
            cs == pnode.children@,
            parent_visits == pnode.visits,
            parent_visits >= 1,
            forall|m: int| 0 <= m < cs.len()
                ==> ns[(#[trigger] cs[m]).spec_index()].visits >= 1,
            0 < cs.len(),
            0 <= best < k <= cs.len(),
            best_score == spec_child_score(ns, cs[best as int], parent_visits, c_milli),
            forall|m: int| 0 <= m < k
                ==> spec_child_score(ns, #[trigger] cs[m], parent_visits, c_milli) <= best_score,
            forall|m: int| 0 <= m < best
                ==> spec_child_score(ns, #[trigger] cs[m], parent_visits, c_milli) < best_score,
        decreases cs.len() - k,
    {
        proof {
            assert(node_wf(ns, parent.spec_index()));
            assert(child_link_ok(ns, parent.spec_index(), cs[k as int]));
            assert(0 <= cs[k as int].spec_index() < ns.len());
            assert(node_wf(ns, cs[k as int].spec_index()));
        }
        let child = arena.get(pnode.children[k]);
        let score = crate::scoring::uct_score(child.wins, child.visits, parent_visits, c_milli);
        if score > best_score {
            best = k;
            best_score = score;
        }
        k = k + 1;
    }
    best
}

/// The indices on the parent chain from `i` up to its tree's root,
/// inclusive of both ends.
pub open spec fn path_set(ns: Seq<Node>, i: int) -> Set<int>
    decreases i,
{
    if 0 <= i < ns.len() {
        match ns[i].parent {
            None => set![i],
            Some(p) => {
                if 0 <= p.spec_index() < i {
                    path_set(ns, p.spec_index()).insert(i)
                } else {
                    set![i]
                }
            },
        }
    } else {
        Set::empty()
    }
}

proof fn lemma_path_set_members(ns: Seq<Node>, i: int)
    requires
        0 <= i < ns.len(),
    ensures
        path_set(ns, i).contains(i),
        forall|k: int| #[trigger] path_set(ns, i).contains(k) ==> 0 <= k <= i,
    decreases i,
{
    match ns[i].parent {
        None => {},
        Some(p) => {
            if 0 <= p.spec_index() < i {
                lemma_path_set_members(ns, p.spec_index());
            }
        },
    }
}

/// Two stores whose nodes agree on `parent` fields have the same parent
/// chains.
proof fn lemma_path_set_congruent(ns1: Seq<Node>, ns2: Seq<Node>, i: int)
    requires
        ns1.len() == ns2.len(),
        forall|k: int| 0 <= k < ns1.len() ==> ns1[k].parent == ns2[k].parent,
    ensures
        path_set(ns1, i) == path_set(ns2, i),
    decreases i,
{
    if 0 <= i < ns1.len() {
        match ns1[i].parent {
            None => {
                assert(path_set(ns1, i) =~= path_set(ns2, i));
            },
            Some(p) => {
                if 0 <= p.spec_index() < i {
                    lemma_path_set_congruent(ns1, ns2, p.spec_index());
                }
                assert(path_set(ns1, i) =~= path_set(ns2, i));
            },
        }
    } else {
        assert(path_set(ns1, i) =~= path_set(ns2, i));
    }
}

/// A store extended by appending keeps every earlier node as it was.
proof fn lemma_prefix_node_unchanged(ns0: Seq<Node>, ns1: Seq<Node>, k: int)
    requires
        ns0.len() <= ns1.len(),
        ns1.subrange(0, ns0.len() as int) == ns0,
        0 <= k < ns0.len(),
    ensures
        ns1[k] == ns0[k],
{
    assert(ns1.subrange(0, ns0.len() as int)[k] == ns1[k]);
}

/// The tree grown by one search call occupies indices `start..`, is rooted
/// at `start`, and never reaches outside itself.
pub open spec fn tree_rooted(ns: Seq<Node>, start: int) -> bool {
    &&& 0 <= start < ns.len()
    &&& ns[start].parent is None
    &&& forall|k: int| start < k < ns.len()
        ==> ((#[trigger] ns[k].parent) matches Some(p) && start <= p.spec_index() < k)
}

proof fn lemma_path_in_tree(ns: Seq<Node>, start: int, i: int)
    requires
        tree_rooted(ns, start),
        start <= i < ns.len(),
    ensures
        forall|k: int| #[trigger] path_set(ns, i).contains(k) ==> start <= k <= i,
        path_set(ns, i).contains(start),
    decreases i,
{
    lemma_path_set_members(ns, i);
    if i == start {
    } else {
        let p = ns[i].parent->0;
        lemma_path_in_tree(ns, start, p.spec_index());
    }
}

/// Every node in `start..` has been through backpropagation at most
/// `bound` times.
pub open spec fn visits_bounded(ns: Seq<Node>, start: int, bound: u64) -> bool {
    forall|k: int| start <= k < ns.len() ==> (#[trigger] ns[k]).visits <= bound
}

fn vec_contains(v: &Vec<u32>, x: u32) -> (b: bool)
    ensures
        b == v@.contains(x),
{
    let mut k: usize = 0;
    while k < v.len()
        invariant
            k <= v@.len(),
            forall|m: int| 0 <= m < k ==> v@[m] != x,
        decreases v@.len() - k,
    {
        if v[k] == x {
            return true;
        }
        k = k + 1;
    }
    false
}

fn position_of(v: &Vec<u32>, x: u32) -> (i: usize)
    requires
        v@.contains(x),
    ensures
        0 <= i < v@.len(),
        v@[i as int] == x,
{
    let mut k: usize = 0;
    while k < v.len()
        invariant
            k <= v@.len(),
            v@.contains(x),
            forall|m: int| 0 <= m < k ==> v@[m] != x,
        decreases v@.len() - k,
    {
        if v[k] == x {
            return k;
        }
        k = k + 1;
    }
    proof {
        let w = choose|w: int| 0 <= w < v@.len() && v@[w] == x;
        assert(false);
    }
    0
}

/// Selection: from the root, while the current node is fully expanded and
/// has children, descend to the child with the best UCT score, replaying
/// each descended child's action on the simulated position. An action the
/// simulation rejects is a bookkeeping defect and aborts the search.
fn select_path<S: State>(
    arena: &NodeArena,
    root: NodeId,
    sim: &mut S,
    c_milli: u32,
) -> (r: Result<NodeId, SearchError>)
    requires
        arena_wf(arena.nodes@),
        arena_visited(arena.nodes@),
        old(sim).inv(),
        0 <= root.spec_index() < arena.nodes@.len(),
        arena.nodes@[root.spec_index()].children@.len() > 0
            ==> arena.nodes@[root.spec_index()].visits >= 1,
    ensures
        final(sim).inv(),
        (match r {
            Ok(cur) => {
                let ns = arena.nodes@;
                &&& root.spec_index() <= cur.spec_index() < ns.len()
                &&& (ns[cur.spec_index()].untried_actions@.len() > 0
                    || ns[cur.spec_index()].children@.len() == 0)
            },
            Err(e) => e is IllegalMove,
        }),
        (arena.nodes@[root.spec_index()].untried_actions@.len() > 0
            || arena.nodes@[root.spec_index()].children@.len() == 0)
            ==> (r == Ok::<NodeId, SearchError>(root) && *final(sim) == *old(sim)),
{
    let ghost ns = arena.nodes@;
    let mut cur = root;
    loop
        invariant
            arena_wf(ns),
            arena_visited(ns),
            ns == arena.nodes@,
            sim.inv(),
            0 <= root.spec_index() <= cur.spec_index() < ns.len(),
            ns[cur.spec_index()].children@.len() > 0 ==> ns[cur.spec_index()].visits >= 1,
            cur == root ==> *sim == *old(sim),
            (ns[root.spec_index()].untried_actions@.len() > 0
                || ns[root.spec_index()].children@.len() == 0) ==> cur == root,
        ensures
            sim.inv(),
            root.spec_index() <= cur.spec_index() < ns.len(),
            ns[cur.spec_index()].untried_actions@.len() > 0
                || ns[cur.spec_index()].children@.len() == 0,
            cur == root ==> *sim == *old(sim),
            (ns[root.spec_index()].untried_actions@.len() > 0
                || ns[root.spec_index()].children@.len() == 0) ==> cur == root,
        decreases ns.len() - cur.spec_index(),
    {
        let node = arena.get(cur);
        if node.untried_actions.len() != 0 || node.children.len() == 0 {
            break;
        }
        proof {
            assert(node_wf(ns, cur.spec_index()));
            assert forall|m: int| 0 <= m < ns[cur.spec_index()].children@.len()
                implies ns[(#[trigger] ns[cur.spec_index()].children@[m]).spec_index()].visits >= 1 by {
                let c = ns[cur.spec_index()].children@[m];
                assert(child_link_ok(ns, cur.spec_index(), c));
                assert(ns[c.spec_index()].parent is Some);
            }
        }
        let j = select_best_child(arena, cur, c_milli);
        let child_id = node.children[j];
        proof {
            assert(child_link_ok(ns, cur.spec_index(), ns[cur.spec_index()].children@[j as int]));
            assert(node_wf(ns, child_id.spec_index()));
            assert(ns[child_id.spec_index()].parent is Some);
        }
        let child = arena.get(child_id);
        let action = match child.action {
            Some(a) => a,
            None => {
                proof {
                    assert(false);
                }
                0
            },
        };
        match sim.do_action(action) {
            Ok(_) => {},
            Err(_) => {
                return Err(SearchError::IllegalMove { action, node: child_id });
            },
        }
        proof {
            assert(ns[child_id.spec_index()].parent is Some);
        }
        cur = child_id;
    }
    Ok(cur)
}

/// Expansion: draw untried actions of `cur` uniformly at random until one
/// is legal in the simulated position, apply it, create the child from the
/// resulting position, and attach it while removing the expanded action
/// from the untried lists. Untried actions found illegal are set aside for
/// this iteration; if none is legal, the cursor stays put and nothing is
/// created.
fn expand_node<S: State, R: RandomSource>(
    arena: &mut NodeArena,
    cur: NodeId,
    sim: &mut S,
    rng: &mut R,
) -> (r: NodeId)
    requires
        arena_wf(old(arena).nodes@),
        arena_attached(old(arena).nodes@),
        old(sim).inv(),
        0 <= cur.spec_index() < old(arena).nodes@.len(),
    ensures
        final(sim).inv(),
        arena_wf(final(arena).nodes@),
        arena_attached(final(arena).nodes@),
        old(arena).nodes@.len() <= final(arena).nodes@.len() <= old(arena).nodes@.len() + 1,
        forall|k: int| 0 <= k < old(arena).nodes@.len() && k != cur.spec_index()
            ==> final(arena).nodes@[k] == old(arena).nodes@[k],
        ({
            let ns0 = old(arena).nodes@;
            let ns1 = final(arena).nodes@;
            let c0 = ns0[cur.spec_index()];
            let c1 = ns1[cur.spec_index()];
            &&& c1.id == c0.id
            &&& c1.parent == c0.parent
            &&& c1.action == c0.action
            &&& c1.wins == c0.wins
            &&& c1.visits == c0.visits
            &&& c1.all_actions == c0.all_actions
        }),
        (if final(arena).nodes@.len() == old(arena).nodes@.len() {
            r == cur && final(arena).nodes@ == old(arena).nodes@
        } else {
            let ns1 = final(arena).nodes@;
            &&& r.spec_index() == old(arena).nodes@.len()
            &&& ns1[r.spec_index()].parent == Some(old(arena).nodes@[cur.spec_index()].id)
            &&& ns1[r.spec_index()].visits == 0
            &&& ns1[r.spec_index()].children@.len() == 0
            &&& ns1[cur.spec_index()].children@
                == old(arena).nodes@[cur.spec_index()].children@.push(r)
        }),
        final(arena).nodes@.len() == old(arena).nodes@.len()
            ==> (*final(sim) == *old(sim)
                && forall|x: u32|
                    #[trigger] old(arena).nodes@[cur.spec_index()].untried_actions@.contains(x)
                    ==> !old(sim).spec_actions().contains(x)),
{
    let ghost ns0 = arena.nodes@;
    let untried = &arena.get(cur).untried_actions;
    let mut pool: Vec<u32> = Vec::new();
    let mut k: usize = 0;
    while k < untried.len()
        invariant
            k <= untried@.len(),
            pool@ == untried@.subrange(0, k as int),
        decreases untried@.len() - k,
    {
        let a = untried[k];
        pool.push(a);
        proof {
            assert(pool@ =~= untried@.subrange(0, k + 1));
        }
        k = k + 1;
    }
    proof {
        assert(pool@ =~= untried@);
    }
    while pool.len() != 0
        invariant
            arena_wf(ns0),
            arena_attached(ns0),
            ns0 == arena.nodes@,
            ns0 == old(arena).nodes@,
            sim.inv(),
            *sim == *old(sim),
            0 <= cur.spec_index() < ns0.len(),
            forall|x: u32| #[trigger] pool@.contains(x)
                ==> ns0[cur.spec_index()].untried_actions@.contains(x),
            forall|x: u32| #[trigger] ns0[cur.spec_index()].untried_actions@.contains(x)
                && sim.spec_actions().contains(x) ==> pool@.contains(x),
        decreases pool@.len(),
    {
        let d = rng.next_below(pool.len());
        let a = pool[d];
        proof {
            assert(pool@.contains(a));
        }
        let acts = sim.get_actions();
        if vec_contains(&acts, a) {
            match sim.do_action(a) {
                Ok(_) => {},
                Err(_) => {
                    proof {
                        assert(false);
                    }
                },
            }
            proof {
                assert(node_wf(ns0, cur.spec_index()));
            }
            let ui = position_of(&arena.get(cur).untried_actions, a);
            let label = arena.get(cur).untried_action_strings[ui].clone();
            let parent_id = arena.get(cur).id;
            proof {
                assert(parent_id.spec_index() == cur.spec_index());
            }
            let child = arena.new_child_node(Some(parent_id), Some(a), Some(label), sim);
            let ghost ns1 = arena.nodes@;
            proof {
                assert(ns1[cur.spec_index()] == ns0[cur.spec_index()]) by {
                    lemma_prefix_node_unchanged(ns0, ns1, cur.spec_index());
                }
                assert(ns1[child.spec_index()].parent == Some(parent_id));
                NodeId::lemma_index_injective(parent_id, cur);
                // The fresh child is in nobody's children list yet.
                let pcs = ns1[cur.spec_index()].children@;
                assert(node_wf(ns0, cur.spec_index()));
                assert(forall|j: int| 0 <= j < pcs.len()
                    ==> (#[trigger] pcs[j]).spec_index() < ns0.len());
                assert(forall|j: int| 0 <= j < pcs.len() ==> pcs[j] != child) by {
                    assert(forall|j: int| 0 <= j < pcs.len()
                        ==> (#[trigger] pcs[j]).spec_index() != child.spec_index());
                }
                assert(!pcs.contains(child));
                assert(pcs.to_multiset().count(child) == 0);
            }
            arena.attach_child(cur, child, ui);
            proof {
                let ns2 = arena.nodes@;
                // Everything but the parent and the child kept its fields;
                // attachment restores the exactly-once linkage.
                assert forall|i: int| 0 <= i < ns2.len() implies #[trigger] node_attached(ns2, i) by {
                    if i == child.spec_index() {
                        assert(ns2[i].parent == Some(parent_id));
                        assert(ns2[cur.spec_index()].children@
                            == ns1[cur.spec_index()].children@.push(child));
                        assert(ns2[cur.spec_index()].children@.to_multiset()
                            =~= ns1[cur.spec_index()].children@.to_multiset().insert(child));
                        assert(ns1[cur.spec_index()].children@.to_multiset().count(child) == 0);
                        assert(ns2[i].id == child) by {
                            assert(node_wf(ns2, i));
                            NodeId::lemma_index_injective(ns2[i].id, child);
                        }
                    } else if 0 <= i < ns0.len() {
                        assert(node_attached(ns0, i));
                        assert(node_wf(ns2, i));
                        if ns2[i].parent is Some {
                            let p = ns2[i].parent->0;
                            assert(0 <= p.spec_index() < i);
                            assert(ns2[i].parent == ns0[i].parent) by {
                                lemma_prefix_node_unchanged(ns0, ns1, i);
                            }
                            assert(ns2[i].id == ns0[i].id) by {
                                if i == cur.spec_index() {
                                } else {
                                    assert(ns2[i] == ns1[i]);
                                    lemma_prefix_node_unchanged(ns0, ns1, i);
                                }
                            }
                            if p.spec_index() == cur.spec_index() {
                                assert(ns2[cur.spec_index()].children@.to_multiset()
                                    =~= ns1[cur.spec_index()].children@.to_multiset().insert(child));
                                assert(ns1[cur.spec_index()].children@
                                    == ns0[cur.spec_index()].children@) by {
                                    lemma_prefix_node_unchanged(ns0, ns1, cur.spec_index());
                                }
                                assert(ns0[i].id.spec_index() == i) by {
                                    assert(node_wf(ns0, i));
                                }
                                NodeId::lemma_index_injective(ns0[i].id, child);
                                assert(ns2[cur.spec_index()].children@.to_multiset().count(ns2[i].id)
                                    == ns0[cur.spec_index()].children@.to_multiset().count(ns0[i].id));
                            } else {
                                assert(ns2[p.spec_index()].children@
                                    == ns0[p.spec_index()].children@) by {
                                    assert(ns2[p.spec_index()] == ns1[p.spec_index()]);
                                    lemma_prefix_node_unchanged(ns0, ns1, p.spec_index());
                                }
                            }
                        }
                    } else {
                        assert(false);
                    }
                }
                assert forall|k: int| 0 <= k < ns0.len() && k != cur.spec_index()
                    implies ns2[k] == ns0[k] by {
                    assert(ns2[k] == ns1[k]);
                    lemma_prefix_node_unchanged(ns0, ns1, k);
                }
                assert(ns2.len() == ns0.len() + 1);
                assert(ns2[child.spec_index()].parent == Some(ns0[cur.spec_index()].id)) by {
                    assert(ns2[child.spec_index()] == ns1[child.spec_index()]);
                }
                assert(ns2[child.spec_index()].visits == 0);
                assert(ns2[child.spec_index()].children@.len() == 0);
                assert(ns1[cur.spec_index()] == ns0[cur.spec_index()]);
                assert(ns2[cur.spec_index()].children@
                    == ns0[cur.spec_index()].children@.push(child));
            }
            return child;
        } else {
            let ghost pool0 = pool@;
            pool.remove(d);
            proof {
                assert(!sim.spec_actions().contains(a));
                assert forall|x: u32| pool@.contains(x) implies pool0.contains(x) by {
                    let i = choose|i: int| 0 <= i < pool@.len() && pool@[i] == x;
                    if i < d {
                        assert(pool0[i] == x);
                    } else {
                        assert(pool0[i + 1] == x);
                    }
                }
                assert forall|x: u32| #[trigger] pool@.contains(x)
                    implies ns0[cur.spec_index()].untried_actions@.contains(x) by {
                    assert(pool0.contains(x));
                }
                assert forall|x: u32| pool0.contains(x) && x != a implies pool@.contains(x) by {
                    let i = choose|i: int| 0 <= i < pool0.len() && pool0[i] == x;
                    if i < d {
                        assert(pool@[i] == x);
                    } else if i > d {
                        assert(pool@[i - 1] == x);
                    } else {
                        assert(pool0[d as int] == a);
                    }
                }
                assert forall|x: u32| #[trigger] ns0[cur.spec_index()].untried_actions@.contains(x)
                    && sim.spec_actions().contains(x) implies pool@.contains(x) by {
                    assert(pool0.contains(x));
                    assert(x != a);
                }
            }
        }
    }
    cur
}

/// Rollout: from the simulated position, repeatedly apply a uniformly
/// random legal action until no legal action remains. No nodes are created.
fn rollout<S: State, R: RandomSource>(sim: &mut S, rng: &mut R)
    requires
        old(sim).inv(),
    ensures
        final(sim).inv(),
        final(sim).spec_actions().len() == 0,
{
    loop
        invariant
            sim.inv(),
        ensures
            sim.inv(),
            sim.spec_actions().len() == 0,
        decreases sim.moves_left(),
    {
        let acts = sim.get_actions();
        if acts.len() == 0 {
            break;
        }
        let d = rng.next_below(acts.len());
        let a = acts[d];
        proof {
            assert(acts@[d as int] == a);
            assert(sim.spec_actions().contains(a));
        }
        match sim.do_action(a) {
            Ok(_) => {},
            Err(_) => {
                proof {
                    assert(false);
                }
            },
        }
    }
}

/// Backpropagation: walking from `leaf` up through the parent links to the
/// tree's root inclusive, add each node's own perspective of the terminal
/// result to its statistics and count one more visit — exactly one per
/// node on the path, and no other node is touched.
fn backpropagate<S: State>(arena: &mut NodeArena, leaf: NodeId, sim: &S)
    requires
        arena_wf(old(arena).nodes@),
        arena_attached(old(arena).nodes@),
        sim.inv(),
        sim.spec_actions().len() == 0,
        0 <= leaf.spec_index() < old(arena).nodes@.len(),
        forall|k: int| #[trigger] path_set(old(arena).nodes@, leaf.spec_index()).contains(k)
            ==> 0 <= k < old(arena).nodes@.len() && old(arena).nodes@[k].visits < MAX_VISITS,
    ensures
        arena_wf(final(arena).nodes@),
        arena_attached(final(arena).nodes@),
        final(arena).nodes@.len() == old(arena).nodes@.len(),
        forall|k: int| 0 <= k < old(arena).nodes@.len()
            && !path_set(old(arena).nodes@, leaf.spec_index()).contains(k)
            ==> final(arena).nodes@[k] == old(arena).nodes@[k],
        forall|k: int| #[trigger] path_set(old(arena).nodes@, leaf.spec_index()).contains(k)
            ==> {
                let n0 = old(arena).nodes@[k];
                let n1 = final(arena).nodes@[k];
                &&& crate::node::same_but_stats(n0, n1)
                &&& n1.visits == n0.visits + 1
                &&& n0.wins <= n1.wins <= n0.wins + REWARD_UNIT
            },
{
    let ghost ns0 = arena.nodes@;
    let ghost path = path_set(ns0, leaf.spec_index());
    let mut w = leaf;
    let ghost mut done: Set<int> = Set::empty();
    proof {
        lemma_path_set_members(ns0, leaf.spec_index());
        assert(path =~= path_set(ns0, w.spec_index()).union(done));
    }
    loop
        invariant_except_break
            forall|k: int| #[trigger] path_set(ns0, w.spec_index()).contains(k)
                ==> !done.contains(k),
            forall|k: int| #[trigger] path_set(ns0, w.spec_index()).contains(k)
                ==> arena.nodes@[k] == ns0[k],
        invariant
            arena_wf(ns0),
            ns0 == old(arena).nodes@,
            arena_wf(arena.nodes@),
            sim.inv(),
            sim.spec_actions().len() == 0,
            arena.nodes@.len() == ns0.len(),
            0 <= w.spec_index() < ns0.len(),
            path == path_set(ns0, leaf.spec_index()),
            path == path_set(ns0, w.spec_index()).union(done),
            forall|k: int| #[trigger] path.contains(k)
                ==> 0 <= k < ns0.len() && ns0[k].visits < MAX_VISITS,
            forall|k: int| 0 <= k < ns0.len() && !path.contains(k)
                ==> arena.nodes@[k] == ns0[k],
            forall|k: int| #[trigger] done.contains(k)
                ==> {
                    let n0 = ns0[k];
                    let n1 = arena.nodes@[k];
                    &&& 0 <= k < ns0.len()
                    &&& crate::node::same_but_stats(n0, n1)
                    &&& n1.visits == n0.visits + 1
                    &&& n0.wins <= n1.wins <= n0.wins + REWARD_UNIT
                },
        ensures
            arena.nodes@.len() == ns0.len(),
            done == path,
            forall|k: int| 0 <= k < ns0.len() && !path.contains(k)
                ==> arena.nodes@[k] == ns0[k],
            forall|k: int| #[trigger] done.contains(k)
                ==> {
                    let n0 = ns0[k];
                    let n1 = arena.nodes@[k];
                    &&& 0 <= k < ns0.len()
                    &&& crate::node::same_but_stats(n0, n1)
                    &&& n1.visits == n0.visits + 1
                    &&& n0.wins <= n1.wins <= n0.wins + REWARD_UNIT
                },
            arena_wf(arena.nodes@),
        decreases w.spec_index(),
    {
        let ghost wi = w.spec_index();
        proof {
            lemma_path_set_members(ns0, wi);
            assert(path_set(ns0, wi).contains(wi));
            assert(path.contains(wi));
            assert(arena.nodes@[wi] == ns0[wi]);
        }
        let reward = sim.get_result(arena.get(w).player_just_moved);
        arena.record_outcome(w, reward);
        proof {
            done = done.insert(wi);
        }
        let parent = arena.get(w).parent;
        proof {
            assert(arena.nodes@[wi].parent == ns0[wi].parent);
            assert(node_wf(ns0, wi));
            match ns0[wi].parent {
                None => {
                    assert(path_set(ns0, wi) =~= set![wi]);
                },
                Some(p) => {
                    assert(0 <= p.spec_index() < wi);
                    assert(path_set(ns0, wi)
                        =~= path_set(ns0, p.spec_index()).insert(wi));
                    lemma_path_set_members(ns0, p.spec_index());
                },
            }
        }
        match parent {
            Some(p) => {
                proof {
                    assert(path_set(ns0, wi) == path_set(ns0, p.spec_index()).insert(wi));
                    assert(path =~= path_set(ns0, p.spec_index()).union(done));
                    assert forall|k: int| #[trigger] path_set(ns0, p.spec_index()).contains(k)
                        implies !done.contains(k) && arena.nodes@[k] == ns0[k] by {
                        assert(0 <= k <= p.spec_index());
                        assert(path_set(ns0, wi).contains(k));
                        assert(k != wi);
                    }
                }
                w = p;
            },
            None => {
                proof {
                    assert(path =~= done);
                }
                break;
            },
        }
    }
    proof {
        let ns1 = arena.nodes@;
        assert forall|i: int| 0 <= i < ns1.len() implies #[trigger] node_attached(ns1, i) by {
            assert(node_attached(ns0, i));
            assert(ns1[i].parent == ns0[i].parent && ns1[i].id == ns0[i].id) by {
                if path.contains(i) {
                    assert(done.contains(i));
                } else {
                }
            }
            if ns1[i].parent is Some {
                let p = ns1[i].parent->0;
                assert(0 <= p.spec_index() < ns1.len()) by {
                    assert(node_wf(ns1, i));
                }
                assert(ns1[p.spec_index()].children@ == ns0[p.spec_index()].children@) by {
                    if path.contains(p.spec_index()) {
                        assert(done.contains(p.spec_index()));
                    } else {
                    }
                }
            }
        }
    }
}


/// Picks the root child with the most visits; ties go to the child that
/// was found first.
fn best_visited_child(arena: &NodeArena, root: NodeId) -> (j: usize)
    requires
        arena_wf(arena.nodes@),
        0 <= root.spec_index() < arena.nodes@.len(),
        arena.nodes@[root.spec_index()].children@.len() > 0,
    ensures
        ({
            let ns = arena.nodes@;
            let cs = ns[root.spec_index()].children@;
            &&& 0 <= j < cs.len()
            &&& forall|k: int| 0 <= k < cs.len()
                ==> ns[(#[trigger] cs[k]).spec_index()].visits
                    <= ns[cs[j as int].spec_index()].visits
            &&& forall|k: int| 0 <= k < j
                ==> ns[(#[trigger] cs[k]).spec_index()].visits
                    < ns[cs[j as int].spec_index()].visits
        }),
{
    let ghost ns = arena.nodes@;
    let rnode = arena.get(root);
    let ghost cs = ns[root.spec_index()].children@;
    proof {
        assert(rnode.children@ == cs);
        assert(node_wf(ns, root.spec_index()));
        assert(child_link_ok(ns, root.spec_index(), cs[0]));
    }
    let mut best: usize = 0;
    let mut best_visits = arena.get(rnode.children[0]).visits;
    let mut k: usize = 1;
    while k < rnode.children.len()
        invariant
            arena_wf(ns),
            ns == arena.nodes@,
            0 <= root.spec_index() < ns.len(),
            *rnode == ns[root.spec_index()],
            cs == rnode.children@,
            0 < cs.len(),
            0 <= best < k <= cs.len(),
            best_visits == ns[cs[best as int].spec_index()].visits,
            forall|m: int| 0 <= m < k
                ==> ns[(#[trigger] cs[m]).spec_index()].visits <= best_visits,
            forall|m: int| 0 <= m < best
                ==> ns[(#[trigger] cs[m]).spec_index()].visits < best_visits,
        decreases cs.len() - k,
    {
        proof {
            assert(node_wf(ns, root.spec_index()));
            assert(child_link_ok(ns, root.spec_index(), cs[k as int]));
        }
        let v = arena.get(rnode.children[k]).visits;
        if v > best_visits {
            best = k;
            best_visits = v;
        }
        k = k + 1;
    }
    best
}

/// One whole search: creates a root node for `rootstate` in the arena,
/// repeats the four phases until the budget is spent, and returns the
/// action of the root child with the most visits (ties: first found).
///
/// A configuration that supplies neither a positive iteration count nor a
/// positive time budget is rejected, as is a root with no legal action. An
/// action the simulation rejects during selection aborts the search with
/// the fatal bookkeeping error, never silently. Nodes of earlier searches
/// in the same arena are left untouched.
pub fn uct_search<S: State, R: RandomSource>(
    arena: &mut NodeArena,
    rootstate: &S,
    config: &SearchConfig,
    rng: &mut R,
) -> (r: Result<u32, SearchError>)
    requires
        rootstate.inv(),
        arena_wf(old(arena).nodes@),
        arena_attached(old(arena).nodes@),
        arena_visited(old(arena).nodes@),
    ensures
        arena_wf(final(arena).nodes@),
        arena_attached(final(arena).nodes@),
        arena_visited(final(arena).nodes@),
        old(arena).nodes@.len() <= final(arena).nodes@.len(),
        forall|k: int| 0 <= k < old(arena).nodes@.len()
            ==> final(arena).nodes@[k] == old(arena).nodes@[k],
        (r == Err::<u32, SearchError>(SearchError::InvalidConfiguration)
            <==> !config.spec_valid()),
        (r == Err::<u32, SearchError>(SearchError::TerminalRoot)
            <==> config.spec_valid() && rootstate.spec_actions().len() == 0),
        (match r {
            Ok(_) => true,
            Err(e) => e is InvalidConfiguration || e is TerminalRoot || e is IllegalMove,
        }),
        r is Ok ==> ({
            let ns = final(arena).nodes@;
            let rooti = old(arena).nodes@.len() as int;
            let cs = ns[rooti].children@;
            &&& rooti < ns.len()
            &&& ns[rooti].parent is None
            &&& ns[rooti].visits >= 1
            &&& cs.len() > 0
            &&& exists|j: int| {
                &&& 0 <= j < cs.len()
                &&& ns[(#[trigger] cs[j]).spec_index()].action == Some(r->Ok_0)
                &&& (forall|k: int| 0 <= k < cs.len()
                    ==> ns[(#[trigger] cs[k]).spec_index()].visits
                        <= ns[cs[j].spec_index()].visits)
                &&& (forall|k: int| 0 <= k < j
                    ==> ns[(#[trigger] cs[k]).spec_index()].visits
                        < ns[cs[j].spec_index()].visits)
            }
        }),
        (match config.iterations {
            Some(n) => (r is Ok && config.time_ms is None)
                ==> final(arena).nodes@[old(arena).nodes@.len() as int].visits
                    == (if n < MAX_VISITS { n } else { MAX_VISITS }),
            None => true,
        }),
        r is Ok ==> rootstate.spec_actions().contains(r->Ok_0),
        (config.spec_valid() && config.time_ms is None && config.iterations == Some(1u64)
            && rootstate.spec_actions().len() > 0) ==> r is Ok,
{
    let valid = match config.iterations {
        Some(n) => n > 0,
        None => false,
    } || match config.time_ms {
        Some(t) => t > 0,
        None => false,
    };
    if !valid {
        return Err(SearchError::InvalidConfiguration);
    }
    let root_actions = rootstate.get_actions();
    if root_actions.len() == 0 {
        return Err(SearchError::TerminalRoot);
    }
    let start_time = instant_now();
    let ghost start = arena.nodes@.len() as int;
    let root = arena.new_node(rootstate.clone_state());
    let mut counter: u64 = 0;
    proof {
        assert(arena.nodes@.subrange(0, start) == old(arena).nodes@);
        assert forall|k: int| 0 <= k < start implies arena.nodes@[k] == old(arena).nodes@[k] by {
            assert(arena.nodes@.subrange(0, start)[k] == arena.nodes@[k]);
        }
        assert forall|i: int| 0 <= i < arena.nodes@.len() implies #[trigger] node_attached(
            arena.nodes@, i) by {
            if i < start {
                assert(node_attached(old(arena).nodes@, i));
                if arena.nodes@[i].parent is Some {
                    let p = arena.nodes@[i].parent->0;
                    assert(node_wf(old(arena).nodes@, i));
                    assert(arena.nodes@[p.spec_index()] == old(arena).nodes@[p.spec_index()]);
                }
            }
        }
        assert(arena_visited(arena.nodes@)) by {
            assert forall|i: int| 0 <= i < arena.nodes@.len()
                && (#[trigger] arena.nodes@[i].parent) is Some
                implies arena.nodes@[i].visits >= 1 by {
                if i < start {
                    assert(arena.nodes@[i] == old(arena).nodes@[i]);
                }
            }
        }
    }
    loop
        invariant_except_break
            counter < MAX_VISITS,
            (match config.iterations {
                Some(n) => config.time_ms is None ==> counter < n,
                None => true,
            }),
        invariant
            rootstate.inv(),
            arena_wf(arena.nodes@),
            arena_attached(arena.nodes@),
            arena_visited(arena.nodes@),
            counter <= MAX_VISITS,
            config.spec_valid(),
            (match config.iterations {
                Some(n) => config.time_ms is None ==> counter <= n && n >= 1,
                None => true,
            }),
            start == old(arena).nodes@.len(),
            start < arena.nodes@.len(),
            root.spec_index() == start,
            forall|k: int| 0 <= k < start ==> arena.nodes@[k] == old(arena).nodes@[k],
            tree_rooted(arena.nodes@, start),
            arena.nodes@[start].action is None,
            visits_bounded(arena.nodes@, start, counter),
            arena.nodes@[start].visits == counter,
            arena.nodes@[start].children@.len() > 0 <==> counter >= 1,
            counter == 0 ==> arena.nodes@[start].children@.len() == 0
                && arena.nodes@[start].untried_actions@ == rootstate.spec_actions(),
            arena.nodes@[start].all_actions@ == rootstate.spec_actions(),
            rootstate.spec_actions().len() > 0,
        ensures
            counter >= 1,
            arena_wf(arena.nodes@),
            arena_attached(arena.nodes@),
            arena_visited(arena.nodes@),
            start < arena.nodes@.len(),
            forall|k: int| 0 <= k < start ==> arena.nodes@[k] == old(arena).nodes@[k],
            arena.nodes@[start].parent is None,
            arena.nodes@[start].visits == counter,
            arena.nodes@[start].children@.len() > 0,
            arena.nodes@[start].all_actions@ == rootstate.spec_actions(),
            (match config.iterations {
                Some(n) => config.time_ms is None
                    ==> (counter == n || (counter == MAX_VISITS && n >= MAX_VISITS)),
                None => true,
            }),
        decreases MAX_VISITS - counter,
    {
        let ghost ns_iter = arena.nodes@;
        let mut sim = rootstate.clone_state();
        let cur = match select_path(arena, root, &mut sim, config.exploration_milli) {
            Ok(c) => c,
            Err(e) => {
                proof {
                    // A defect can only surface once the root has children,
                    // so a one-iteration run never aborts.
                    if config.time_ms is None && config.iterations == Some(1u64) {
                        assert(counter == 0);
                        assert(arena.nodes@[start].children@.len() == 0);
                        assert(false);
                    }
                }
                return Err(e);
            },
        };
        let ghost chosen = cur;
        let cursor = expand_node(arena, cur, &mut sim, rng);
        proof {
            assert(start <= cursor.spec_index() < arena.nodes@.len());
            // The first iteration always expands a child of the root: the
            // fresh clone still offers every untried root action.
            if counter == 0 {
                assert(chosen == root);
                if arena.nodes@.len() == ns_iter.len() {
                    let x = ns_iter[root.spec_index()].untried_actions@[0];
                    assert(ns_iter[root.spec_index()].untried_actions@.contains(x));
                    assert(rootstate.spec_actions().contains(x));
                    assert(false);
                }
                assert(arena.nodes@.len() == ns_iter.len() + 1);
            }
            // The grown store is still one tree rooted at `start`.
            let nsx = arena.nodes@;
            assert(node_wf(ns_iter, chosen.spec_index()));
            assert(tree_rooted(nsx, start)) by {
                assert forall|k: int| start < k < nsx.len()
                    implies ((#[trigger] nsx[k].parent) matches Some(p)
                        && start <= p.spec_index() < k) by {
                    if k < ns_iter.len() {
                        if k == chosen.spec_index() {
                            assert(nsx[k].parent == ns_iter[k].parent);
                        } else {
                            assert(nsx[k] == ns_iter[k]);
                        }
                    } else {
                        assert(nsx[k].parent == Some(ns_iter[chosen.spec_index()].id));
                        assert(ns_iter[chosen.spec_index()].id.spec_index()
                            == chosen.spec_index());
                    }
                }
            }
        }
        rollout(&mut sim, rng);
        let ghost ns_pre_bp = arena.nodes@;
        proof {
            lemma_path_in_tree(ns_pre_bp, start, cursor.spec_index());
            assert forall|k: int| #[trigger] path_set(ns_pre_bp, cursor.spec_index()).contains(k)
                implies 0 <= k < ns_pre_bp.len() && ns_pre_bp[k].visits < MAX_VISITS by {
                assert(start <= k);
                assert(ns_pre_bp[k].visits <= counter);
            }
        }
        backpropagate(arena, cursor, &sim);
        counter = counter + 1;
        proof {
            let ns2 = arena.nodes@;
            assert(path_set(ns_pre_bp, cursor.spec_index()).contains(start));
            assert(path_set(ns_pre_bp, cursor.spec_index()).contains(cursor.spec_index()));
            assert forall|k: int| 0 <= k < start implies ns2[k] == old(arena).nodes@[k] by {
                assert(!path_set(ns_pre_bp, cursor.spec_index()).contains(k));
                assert(ns2[k] == ns_pre_bp[k]);
            }
            assert(arena_visited(ns2)) by {
                assert forall|i: int| 0 <= i < ns2.len() && (#[trigger] ns2[i].parent) is Some
                    implies ns2[i].visits >= 1 by {
                    if path_set(ns_pre_bp, cursor.spec_index()).contains(i) {
                    } else {
                        assert(ns2[i] == ns_pre_bp[i]);
                        if i == cursor.spec_index() {
                            assert(false);
                        }
                    }
                }
            }
            assert(tree_rooted(ns2, start)) by {
                assert forall|k: int| start < k < ns2.len()
                    implies ((#[trigger] ns2[k].parent) matches Some(p)
                        && start <= p.spec_index() < k) by {
                    if path_set(ns_pre_bp, cursor.spec_index()).contains(k) {
                        assert(crate::node::same_but_stats(ns_pre_bp[k], ns2[k]));
                    } else {
                        assert(ns2[k] == ns_pre_bp[k]);
                    }
                }
            }
            assert(visits_bounded(ns2, start, counter)) by {
                assert forall|k: int| start <= k < ns2.len()
                    implies (#[trigger] ns2[k]).visits <= counter by {
                    if path_set(ns_pre_bp, cursor.spec_index()).contains(k) {
                        assert(ns2[k].visits == ns_pre_bp[k].visits + 1);
                    } else {
                        assert(ns2[k] == ns_pre_bp[k]);
                    }
                }
            }
            assert(ns2[start].visits == counter);
            assert(ns2[start].children@.len() > 0) by {
                assert(crate::node::same_but_stats(ns_pre_bp[start], ns2[start]));
                if counter - 1 == 0 {
                    assert(chosen == root);
                    assert(ns_pre_bp[start].children@
                        == ns_iter[start].children@.push(cursor));
                } else {
                    assert(ns_iter[start].children@.len() > 0);
                    if chosen.spec_index() == start && ns_pre_bp.len() == ns_iter.len() + 1 {
                        assert(ns_pre_bp[start].children@
                            == ns_iter[start].children@.push(cursor));
                    } else if chosen.spec_index() == start {
                        assert(ns_pre_bp[start] == ns_iter[start]);
                    } else {
                        assert(ns_pre_bp[start] == ns_iter[start]);
                    }
                }
            }
        }
        let mut stop = counter >= MAX_VISITS;
        match config.iterations {
            Some(n) => {
                if counter >= n {
                    stop = true;
                }
            },
            None => {},
        }
        match config.time_ms {
            Some(t) => {
                if elapsed_millis(&start_time) >= t {
                    stop = true;
                }
            },
            None => {},
        }
        if stop {
            break;
        }
    }
    let j = best_visited_child(arena, root);
    let rnode = arena.get(root);
    let child_id = rnode.children[j];
    proof {
        assert(node_wf(arena.nodes@, root.spec_index()));
        assert(child_link_ok(arena.nodes@, root.spec_index(),
            arena.nodes@[root.spec_index()].children@[j as int]));
        assert(node_wf(arena.nodes@, child_id.spec_index()));
        assert(arena.nodes@[child_id.spec_index()].parent is Some);
        // The chosen child's action is one of the root position's legal
        // actions: the untried/children partition never loses or invents
        // an action.
        let ns = arena.nodes@;
        let cs = ns[start].children@;
        let a = spec_action_of(ns[child_id.spec_index()]);
        assert(child_actions(ns, cs)[j as int] == a);
        assert(child_actions(ns, cs).contains(a));
        assert(child_actions(ns, cs).to_multiset().count(a) >= 1);
        assert(ns[start].untried_actions@.to_multiset().add(
            child_actions(ns, cs).to_multiset()).count(a) >= 1);
        assert(ns[start].all_actions@.to_multiset().count(a) >= 1);
        assert(ns[start].all_actions@.contains(a));
        assert(rootstate.spec_actions().contains(a));
    }
    let child = arena.get(child_id);
    match child.action {
        Some(a) => Ok(a),
        None => {
            proof {
                assert(false);
            }
            Err(SearchError::TerminalRoot)
        },
    }
}

} // verus!
