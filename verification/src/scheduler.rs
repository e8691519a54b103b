//! Dependency scheduler: derives the dependency relation from operand
//! references inside each node and computes one valid topological order over
//! all node indices. Fails fast on cycles and on operand ids that refer to
//! no node. The order picked among independent nodes is the smallest
//! eligible index, so the schedule is stable for a fixed input graph.

use vstd::prelude::*;
use vstd::relations::injective;
use vstd::seq_lib::*;
use vstd::set_lib::*;

use crate::error::Error;
use crate::graph::{op_dep_list, op_deps, GraphNode};

verus! {

/// `order` lists each of the indices `0 .. n` exactly once.
pub open spec fn is_permutation(order: Seq<usize>, n: int) -> bool {
    &&& order.len() == n
    &&& forall|p: int| 0 <= p < order.len() ==> (#[trigger] order[p] as int) < n
    &&& order.no_duplicates()
}

/// Every operand of every scheduled node appears at an earlier position
/// than its consumer.
pub open spec fn deps_precede<T>(nodes: Seq<GraphNode<T>>, order: Seq<usize>) -> bool {
    forall|pc: int, j: int|
        0 <= pc < order.len() && 0 <= j < op_deps(nodes[order[pc] as int].op).len() ==> exists|
            pd: int,
        |
            0 <= pd < pc && order[pd] == #[trigger] op_deps(nodes[order[pc] as int].op)[j]
}

/// A correct schedule: a permutation of all node indices in which every
/// operand precedes its consumer.
pub open spec fn valid_order<T>(nodes: Seq<GraphNode<T>>, order: Seq<usize>) -> bool {
    &&& is_permutation(order, nodes.len() as int)
    &&& deps_precede(nodes, order)
}

/// Some correct schedule exists.
pub open spec fn schedulable<T>(nodes: Seq<GraphNode<T>>) -> bool {
    exists|order: Seq<usize>| valid_order(nodes, order)
}

/// Every operand id refers to a node of the list.
pub open spec fn deps_in_range<T>(nodes: Seq<GraphNode<T>>) -> bool {
    forall|v: int, j: int|
        0 <= v < nodes.len() && 0 <= j < op_deps(nodes[v].op).len() ==> (#[trigger] op_deps(
            nodes[v].op,
        )[j] as int) < nodes.len()
}

/// A sequence of distinct indices below `n` that is at least `n` long
/// contains every index below `n`.
proof fn lemma_entries_cover(order: Seq<usize>, n: int, v: usize)
    requires
        order.no_duplicates(),
        forall|p: int| 0 <= p < order.len() ==> (#[trigger] order[p] as int) < n,
        order.len() >= n,
        (v as int) < n,
    ensures
        order.contains(v),
{
    let f = |u: usize| u as int;
    assert(injective(f)) by {
        assert(forall|x1: usize, x2: usize| #[trigger] f(x1) == #[trigger] f(x2) ==> x1 == x2);
    }
    let oi = order.map_values(f);
    order.lemma_no_duplicates_injective(f);
    oi.unique_seq_to_set();
    lemma_int_range(0, n);
    assert(oi.to_set().subset_of(set_int_range(0, n))) by {
        assert forall|x: int| oi.to_set().contains(x) implies set_int_range(0, n).contains(
            x,
        ) by {
            let p = choose|p: int| 0 <= p < oi.len() && oi[p] == x;
            assert(order[p] as int == x);
        }
    }
    lemma_len_subset(oi.to_set(), set_int_range(0, n));
    lemma_subset_equality(oi.to_set(), set_int_range(0, n));
    assert(set_int_range(0, n).contains(v as int));
    assert(oi.to_set().contains(v as int));
    let p = choose|p: int| 0 <= p < oi.len() && oi[p] == v as int;
    assert(order[p] == v);
    assert(order.contains(v));
}

/// An operand id outside the node list rules out every schedule.
proof fn lemma_missing_operand_unschedulable<T>(nodes: Seq<GraphNode<T>>)
    requires
        !deps_in_range(nodes),
    ensures
        !schedulable(nodes),
{
    if schedulable(nodes) {
        let order = choose|order: Seq<usize>| valid_order(nodes, order);
        let n = nodes.len() as int;
        let (v, j) = choose|v: int, j: int|
            0 <= v < nodes.len() && 0 <= j < op_deps(nodes[v].op).len() && !((op_deps(
                nodes[v].op,
            )[j] as int) < nodes.len());
        lemma_entries_cover(order, n, v as usize);
        let pc = choose|pc: int| 0 <= pc < order.len() && order[pc] == v as usize;
        assert(op_deps(nodes[order[pc] as int].op)[j] == op_deps(nodes[v].op)[j]);
        let pd = choose|pd: int|
            0 <= pd < pc && order[pd] == op_deps(nodes[order[pc] as int].op)[j];
        assert((order[pd] as int) < n);
        assert(false);
    }
}

/// If every unemitted node still waits on an unemitted operand, no valid
/// order exists once at least one node is unemitted.
#[verifier::rlimit(50)]
proof fn lemma_stuck_unschedulable<T>(nodes: Seq<GraphNode<T>>, emitted: Seq<bool>, done: Seq<usize>)
    requires
        nodes.len() <= usize::MAX,
        emitted.len() == nodes.len(),
        forall|vi: int|
            0 <= vi < nodes.len() ==> (#[trigger] emitted[vi] <==> done.contains(vi as usize)),
        done.no_duplicates(),
        forall|p: int| 0 <= p < done.len() ==> (#[trigger] done[p] as int) < nodes.len(),
        done.len() < nodes.len(),
        deps_in_range(nodes),
        forall|v: int|
            0 <= v < nodes.len() && !(#[trigger] emitted[v]) ==> exists|j: int|
                0 <= j < op_deps(nodes[v].op).len() && !emitted[op_deps(nodes[v].op)[j] as int],
    ensures
        !schedulable(nodes),
{
    if schedulable(nodes) {
        let order = choose|order: Seq<usize>| valid_order(nodes, order);
        let n = nodes.len() as int;
        // every position of the valid order holds an emitted node
        assert forall|p: int| 0 <= p < order.len() implies emitted[order[p] as int] by {
            lemma_valid_position_emitted(nodes, emitted, order, p);
        }
        // there is an unemitted node
        assert(exists|v0: int| 0 <= v0 < n && !emitted[v0]) by {
            if forall|v: int| 0 <= v < n ==> #[trigger] emitted[v] {
                // then `done` contains every index below n, yet is shorter
                assert forall|v: int| 0 <= v < n implies #[trigger] done.contains(v as usize) by {
                    assert(emitted[v]);
                }
                lemma_all_contained_len(done, n);
            }
        }
        let v0 = choose|v0: int| 0 <= v0 < n && !emitted[v0];
        lemma_entries_cover(order, n, v0 as usize);
        let p0 = choose|p0: int| 0 <= p0 < order.len() && order[p0] == v0 as usize;
        assert(emitted[v0]);
        assert(false);
    }
}

/// A sequence containing all indices below `n` is at least `n` long.
proof fn lemma_all_contained_len(done: Seq<usize>, n: int)
    requires
        0 <= n <= usize::MAX,
        forall|v: int| 0 <= v < n ==> #[trigger] done.contains(v as usize),
    ensures
        done.len() >= n,
{
    let f = |u: usize| u as int;
    let oi = done.map_values(f);
    oi.lemma_cardinality_of_set();
    lemma_int_range(0, n);
    assert(set_int_range(0, n).subset_of(oi.to_set())) by {
        assert forall|x: int| set_int_range(0, n).contains(x) implies oi.to_set().contains(
            x,
        ) by {
            assert(done.contains(x as usize));
            let p = choose|p: int| 0 <= p < done.len() && done[p] == x as usize;
            assert(oi[p] == f(done[p]));
            assert((x as usize) as int == x);
            assert(oi[p] == x);
            assert(oi.contains(x));
        }
    }
    lemma_len_subset(set_int_range(0, n), oi.to_set());
}

/// Within a stuck state, a node standing anywhere in a valid order must
/// already have been emitted: by strong induction on the position, all its
/// operands stand earlier, so they are emitted, so the node itself cannot
/// be the one still waiting.
proof fn lemma_valid_position_emitted<T>(
    nodes: Seq<GraphNode<T>>,
    emitted: Seq<bool>,
    order: Seq<usize>,
    p: int,
)
    requires
        valid_order(nodes, order),
        emitted.len() == nodes.len(),
        deps_in_range(nodes),
        forall|v: int|
            0 <= v < nodes.len() && !(#[trigger] emitted[v]) ==> exists|j: int|
                0 <= j < op_deps(nodes[v].op).len() && !emitted[op_deps(nodes[v].op)[j] as int],
        0 <= p < order.len(),
    ensures
        emitted[order[p] as int],
    decreases p,
{
    let v = order[p] as int;
    if !emitted[v] {
        let j = choose|j: int|
            0 <= j < op_deps(nodes[v].op).len() && !emitted[op_deps(nodes[v].op)[j] as int];
        let d = op_deps(nodes[v].op)[j];
        assert(op_deps(nodes[order[p] as int].op)[j] == d);
        let pd = choose|pd: int|
            0 <= pd < p && order[pd] == op_deps(nodes[order[p] as int].op)[j];
        lemma_valid_position_emitted(nodes, emitted, order, pd);
        assert(emitted[d as int]);
        assert(false);
    }
}

/// Compute a topological ordering of the computation graph nodes.
///
/// Succeeds exactly when some valid schedule exists; the result is then a
/// permutation of all node indices in which every operand precedes its
/// consumer. An operand id outside the list reports `MissingOperand`; a
/// dependency cycle reports `Cycle`.
pub fn topo_order<T: Copy>(nodes: &Vec<GraphNode<T>>) -> (r: Result<Vec<usize>, Error>)
    ensures
        match r {
            Ok(order) => valid_order(nodes@, order@) && schedulable(nodes@),
            Err(e) => {
                &&& !schedulable(nodes@)
                &&& (e is Cycle || e is MissingOperand)
                &&& (e is MissingOperand <==> !deps_in_range(nodes@))
            },
        },
{
    let n = nodes.len();
    // Validate that every operand id refers to a node.
    let mut v: usize = 0;
    while v < n
        invariant
            v <= n,
            n == nodes@.len(),
            forall|vi: int, j: int|
                0 <= vi < v && 0 <= j < op_deps(nodes@[vi].op).len() ==> (#[trigger] op_deps(
                    nodes@[vi].op,
                )[j] as int) < n,
        decreases n - v,
    {
        let deps = op_dep_list(&nodes[v].op);
        let mut j: usize = 0;
        while j < deps.len()
            invariant
                j <= deps@.len(),
                v < n,
                n == nodes@.len(),
                deps@ =~= op_deps(nodes@[v as int].op),
                forall|ji: int| 0 <= ji < j ==> (#[trigger] deps@[ji] as int) < n,
            decreases deps@.len() - j,
        {
            if deps[j] >= n {
                proof {
                    assert(!deps_in_range(nodes@));
                    lemma_missing_operand_unschedulable(nodes@);
                }
                return Err(Error::MissingOperand { node: v, operand: deps[j] });
            }
            j = j + 1;
        }
        v = v + 1;
    }
    proof {
        assert(deps_in_range(nodes@));
    }
    // Emit nodes whose operands have all been emitted, smallest index first.
    let mut order: Vec<usize> = Vec::new();
    let mut emitted: Vec<bool> = vec![false; n];
    while order.len() < n
        invariant
            n == nodes@.len(),
            order@.len() <= n,
            emitted@.len() == n,
            deps_in_range(nodes@),
            order@.no_duplicates(),
            forall|p: int| 0 <= p < order@.len() ==> (#[trigger] order@[p] as int) < n,
            forall|vi: int|
                0 <= vi < n ==> (#[trigger] emitted@[vi] <==> order@.contains(vi as usize)),
            deps_precede(nodes@, order@),
        decreases n - order.len(),
    {
        // Scan for the first unemitted node whose operands are all emitted.
        let mut pick: Option<usize> = None;
        let mut w: usize = 0;
        while w < n
            invariant
                w <= n,
                n == nodes@.len(),
                emitted@.len() == n,
                deps_in_range(nodes@),
                match pick {
                    Some(pv) => {
                        &&& (pv as int) < n
                        &&& !emitted@[pv as int]
                        &&& forall|j: int|
                            0 <= j < op_deps(nodes@[pv as int].op).len() ==> emitted@[(
                            #[trigger] op_deps(nodes@[pv as int].op)[j]) as int]
                    },
                    None => forall|vi: int|
                        0 <= vi < w ==> (#[trigger] emitted@[vi] || exists|j: int|
                            0 <= j < op_deps(nodes@[vi].op).len() && !emitted@[op_deps(
                                nodes@[vi].op,
                            )[j] as int]),
                },
            decreases n - w,
        {
            if pick.is_none() && !emitted[w] {
                let deps = op_dep_list(&nodes[w].op);
                let mut eligible = true;
                let mut j: usize = 0;
                while j < deps.len()
                    invariant
                        j <= deps@.len(),
                        w < n,
                        n == nodes@.len(),
                        emitted@.len() == n,
                        deps_in_range(nodes@),
                        deps@ =~= op_deps(nodes@[w as int].op),
                        eligible <==> forall|ji: int|
                            0 <= ji < j ==> emitted@[(#[trigger] deps@[ji]) as int],
                    decreases deps@.len() - j,
                {
                    proof {
                        assert(op_deps(nodes@[w as int].op)[j as int] == deps@[j as int]);
                        assert((deps@[j as int] as int) < n);
                    }
                    if !emitted[deps[j]] {
                        eligible = false;
                    }
                    j = j + 1;
                }
                if eligible {
                    pick = Some(w);
                    proof {
                        assert forall|ji: int|
                            0 <= ji < op_deps(nodes@[w as int].op).len() implies emitted@[(
                        op_deps(nodes@[w as int].op)[ji]) as int] by {
                            assert(deps@[ji] == op_deps(nodes@[w as int].op)[ji]);
                        }
                    }
                }
            }
            w = w + 1;
        }
        match pick {
            Some(pv) => {
                let ghost prev_order = order@;
                let ghost prev_emitted = emitted@;
                proof {
                    assert(!prev_order.contains(pv));
                }
                emitted[pv] = true;
                order.push(pv);
                proof {
                    let cur = order@;
                    assert(cur =~= prev_order.push(pv));
                    assert(emitted@ =~= prev_emitted.update(pv as int, true));
                    // the entries stay distinct and below n
                    assert forall|p: int, q: int|
                        0 <= p < cur.len() && 0 <= q < cur.len() && p != q implies cur[p]
                        != cur[q] by {
                        if p < prev_order.len() && q < prev_order.len() {
                        } else if q == prev_order.len() {
                            assert(prev_order.contains(cur[p]) && cur[q] == pv);
                        } else {
                            assert(prev_order.contains(cur[q]) && cur[p] == pv);
                        }
                    }
                    // emitted still mirrors membership in the order
                    assert forall|vi: int| 0 <= vi < n implies (emitted@[vi] <==> cur.contains(
                        vi as usize,
                    )) by {
                        if vi == pv as int {
                            assert(cur[prev_order.len() as int] == pv);
                        } else {
                            if prev_order.contains(vi as usize) {
                                let p = choose|p: int|
                                    0 <= p < prev_order.len() && prev_order[p] == vi as usize;
                                assert(cur[p] == vi as usize);
                            }
                            if cur.contains(vi as usize) {
                                let p = choose|p: int|
                                    0 <= p < cur.len() && cur[p] == vi as usize;
                                assert(p < prev_order.len());
                                assert(prev_order[p] == vi as usize);
                            }
                        }
                    }
                    // operands still precede their consumers
                    assert forall|pc: int, j: int|
                        0 <= pc < cur.len() && 0 <= j < op_deps(
                            nodes@[cur[pc] as int].op,
                        ).len() implies exists|pd: int|
                        0 <= pd < pc && cur[pd] == #[trigger] op_deps(
                            nodes@[cur[pc] as int].op,
                        )[j] by {
                        let d = op_deps(nodes@[cur[pc] as int].op)[j];
                        if pc < prev_order.len() {
                            assert(prev_order[pc] == cur[pc]);
                            let pd = choose|pd: int|
                                0 <= pd < pc && prev_order[pd] == op_deps(
                                    nodes@[prev_order[pc] as int].op,
                                )[j];
                            assert(cur[pd] == d);
                        } else {
                            assert(cur[pc] == pv);
                            assert(prev_emitted[d as int]);
                            assert(prev_order.contains(d));
                            let pd = choose|pd: int|
                                0 <= pd < prev_order.len() && prev_order[pd] == d;
                            assert(cur[pd] == d);
                        }
                    }
                    assert(deps_precede(nodes@, cur));
                    assert(order@ =~= cur);
                }
            },
            None => {
                proof {
                    lemma_stuck_unschedulable(nodes@, emitted@, order@);
                }
                return Err(Error::Cycle);
            },
        }
    }
    proof {
        assert(valid_order(nodes@, order@));
    }
    Ok(order)
}

} // verus!
