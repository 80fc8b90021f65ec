//! Depth-first ordering of a dependency graph. A graph is a sequence of
//! nodes; each node lists, in order, the nodes it depends on.

use vstd::prelude::*;

verus! {

/// Every node of `nodes` is a node of the graph.
pub open spec fn nodes_in_range(g: Seq<Seq<int>>, nodes: Seq<int>) -> bool {
    forall|k: int| 0 <= k < nodes.len() ==> 0 <= #[trigger] nodes[k] < g.len()
}

/// Every dependency of every node is a node of the graph.
pub open spec fn graph_ok(g: Seq<Seq<int>>) -> bool {
    forall|i: int| 0 <= i < g.len() ==> nodes_in_range(g, #[trigger] g[i])
}

/// Nodes of the graph, none of them twice.
pub open spec fn is_path(g: Seq<Seq<int>>, path: Seq<int>) -> bool {
    path.no_duplicates() && nodes_in_range(g, path)
}

/// Each node of the sequence depends on the one after it.
pub open spec fn is_chain(g: Seq<Seq<int>>, chain: Seq<int>) -> bool {
    forall|k: int| 0 <= k < chain.len() - 1 ==> g[#[trigger] chain[k]].contains(chain[k + 1])
}

/// A cycle: a chain of nodes whose last node depends on its first.
pub open spec fn is_cycle(g: Seq<Seq<int>>, cycle: Seq<int>) -> bool {
    &&& cycle.len() > 0
    &&& nodes_in_range(g, cycle)
    &&& is_chain(g, cycle)
    &&& g[cycle.last()].contains(cycle[0])
}

/// The graph has no cycle.
pub open spec fn acyclic(g: Seq<Seq<int>>) -> bool {
    forall|cycle: Seq<int>| !is_cycle(g, cycle)
}

/// The nodes `0` to `n - 1` in rising order.
pub open spec fn all_nodes(n: nat) -> Seq<int> {
    Seq::new(n, |i: int| i)
}

/// A sequence that holds each node of the graph exactly once, every node
/// after all the nodes that it depends on.
pub open spec fn is_topological(g: Seq<Seq<int>>, order: Seq<int>) -> bool {
    &&& order.len() == g.len()
    &&& order.no_duplicates()
    &&& nodes_in_range(g, order)
    &&& forall|i: int| 0 <= i < g.len() ==> order.contains(i)
    &&& forall|i: int, k: int|
        0 <= i < g.len() && 0 <= k < g[i].len() ==> order.index_of(#[trigger] g[i][k])
            < order.index_of(i)
}

/// A path cannot be longer than the graph has nodes.
pub proof fn lemma_path_bounded(g: Seq<Seq<int>>, path: Seq<int>)
    requires
        is_path(g, path),
    ensures
        path.len() <= g.len(),
{
    let range = vstd::set_lib::set_int_range(0, g.len() as int);
    vstd::set_lib::lemma_int_range(0, g.len() as int);
    path.unique_seq_to_set();
    assert(path.to_set().subset_of(range)) by {
        assert forall|x: int| path.to_set().contains(x) implies range.contains(x) by {
            let k = choose|k: int| 0 <= k < path.len() && path[k] == x;
            assert(0 <= path[k] < g.len());
        }
    }
    vstd::set_lib::lemma_len_subset(path.to_set(), range);
}

/// The depth-first visit of one node. `order` holds the nodes that are
/// done, `path` the nodes that are in progress, from the root of the visit
/// down.
///
/// * A node in progress closes a cycle: the visit fails with the part of
///   the path from that node on.
/// * A node that is done is left alone.
/// * Any other node is put in progress, its dependencies are visited in
///   order, and then it is appended to the nodes that are done.
pub open spec fn visit(g: Seq<Seq<int>>, node: int, order: Seq<int>, path: Seq<int>) -> Result<
    Seq<int>,
    Seq<int>,
>
    decreases g.len() - path.len(), 0nat,
    when is_path(g, path) && 0 <= node < g.len()
{
    if path.contains(node) {
        Err(path.skip(path.index_of(node)))
    } else if order.contains(node) {
        Ok(order)
    } else {
        proof {
            lemma_path_bounded(g, path.push(node));
        }
        match visit_each(g, g[node], order, path.push(node)) {
            Ok(done) => Ok(done.push(node)),
            Err(cycle) => Err(cycle),
        }
    }
}

/// The depth-first visit of each of `nodes` in turn. The first visit that
/// fails ends the whole.
pub open spec fn visit_each(
    g: Seq<Seq<int>>,
    nodes: Seq<int>,
    order: Seq<int>,
    path: Seq<int>,
) -> Result<Seq<int>, Seq<int>>
    decreases g.len() - path.len(), nodes.len() + 1,
{
    if nodes.len() == 0 {
        Ok(order)
    } else {
        match visit(g, nodes[0], order, path) {
            Ok(done) => visit_each(g, nodes.drop_first(), done, path),
            Err(cycle) => Err(cycle),
        }
    }
}

/// The depth-first order of the whole graph: the nodes are visited as
/// roots in rising order. The result is the order in which the nodes were
/// done, or the first cycle that was met.
pub open spec fn depth_first_order(g: Seq<Seq<int>>) -> Result<Seq<int>, Seq<int>> {
    visit_each(g, all_nodes(g.len()), Seq::empty(), Seq::empty())
}

/// `x` stands in `order` before the position `a`.
pub open spec fn placed_before(order: Seq<int>, a: int, x: int) -> bool {
    exists|b: int| 0 <= b < a && order[b] == x
}

/// What holds of the nodes that are done at any moment of the traversal:
/// none is listed twice, and each is listed after all its dependencies.
pub open spec fn is_settled(g: Seq<Seq<int>>, order: Seq<int>) -> bool {
    &&& order.no_duplicates()
    &&& nodes_in_range(g, order)
    &&& forall|a: int, k: int|
        0 <= a < order.len() && 0 <= k < g[order[a]].len() ==> placed_before(
            order,
            a,
            #[trigger] g[order[a]][k],
        )
}

/// No node is both done and in progress.
pub open spec fn apart(order: Seq<int>, path: Seq<int>) -> bool {
    forall|x: int| order.contains(x) ==> !path.contains(x)
}

/// What a successful visit makes of the nodes that are done: it appends to
/// them, and keeps them settled and apart from the nodes in progress.
pub open spec fn extends(g: Seq<Seq<int>>, order: Seq<int>, done: Seq<int>, path: Seq<int>) -> bool {
    &&& is_settled(g, done)
    &&& order.is_prefix_of(done)
    &&& apart(done, path)
}

/// A node that is in progress closes a cycle with the nodes below it on the
/// path, given that the last of them depends on it.
proof fn lemma_closing_cycle(g: Seq<Seq<int>>, node: int, path: Seq<int>)
    requires
        is_path(g, path),
        is_chain(g, path),
        path.contains(node),
        g[path.last()].contains(node),
    ensures
        is_cycle(g, path.skip(path.index_of(node))),
{
    let at = path.index_of(node);
    let cycle = path.skip(at);
    assert(cycle[0] == path[at]);
    assert(cycle.last() == path.last());
    assert forall|k: int| 0 <= k < cycle.len() - 1 implies g[#[trigger] cycle[k]].contains(
        cycle[k + 1],
    ) by {
        assert(cycle[k] == path[at + k]);
        assert(cycle[k + 1] == path[at + k + 1]);
    }
    assert forall|k: int| 0 <= k < cycle.len() implies 0 <= #[trigger] cycle[k] < g.len() by {
        assert(cycle[k] == path[at + k]);
    }
}

/// A settled order stays settled when a node is appended whose
/// dependencies are all in it.
proof fn lemma_settle(g: Seq<Seq<int>>, done: Seq<int>, node: int)
    requires
        graph_ok(g),
        is_settled(g, done),
        0 <= node < g.len(),
        !done.contains(node),
        forall|k: int| 0 <= k < g[node].len() ==> done.contains(#[trigger] g[node][k]),
    ensures
        is_settled(g, done.push(node)),
{
    let after = done.push(node);
    assert forall|a: int, k: int| 0 <= a < after.len() && 0 <= k < g[after[a]].len() implies placed_before(
        after,
        a,
        #[trigger] g[after[a]][k],
    ) by {
        let x = g[after[a]][k];
        if a < done.len() {
            assert(after[a] == done[a]);
            assert(placed_before(done, a, g[done[a]][k]));
            let b = choose|b: int| 0 <= b < a && done[b] == x;
            assert(after[b] == x);
        } else {
            assert(done.contains(g[node][k]));
            let b = choose|b: int| 0 <= b < done.len() && done[b] == x;
            assert(after[b] == x);
        }
    }
    assert forall|i: int, j: int| 0 <= i < after.len() && 0 <= j < after.len() && i != j implies after[i]
        != after[j] by {
        if i < done.len() && j < done.len() {
        } else if i < done.len() {
            assert(done.contains(done[i]));
        } else if j < done.len() {
            assert(done.contains(done[j]));
        }
    }
}

/// Putting a node in progress that is neither done nor in progress keeps
/// the path a chain of distinct nodes, apart from the nodes that are done.
pub proof fn lemma_descend(g: Seq<Seq<int>>, node: int, order: Seq<int>, path: Seq<int>)
    requires
        is_path(g, path),
        is_chain(g, path),
        apart(order, path),
        0 <= node < g.len(),
        !path.contains(node),
        !order.contains(node),
        path.len() > 0 ==> g[path.last()].contains(node),
    ensures
        is_path(g, path.push(node)),
        is_chain(g, path.push(node)),
        apart(order, path.push(node)),
        path.push(node).len() <= g.len(),
{
    let deeper = path.push(node);
    assert(is_path(g, deeper)) by {
        assert forall|i: int, j: int|
            0 <= i < deeper.len() && 0 <= j < deeper.len() && i != j implies deeper[i]
            != deeper[j] by {
            if i < path.len() && j < path.len() {
            } else if i < path.len() {
                assert(path.contains(path[i]));
            } else if j < path.len() {
                assert(path.contains(path[j]));
            }
        }
    }
    assert(is_chain(g, deeper)) by {
        assert forall|k: int| 0 <= k < deeper.len() - 1 implies g[#[trigger] deeper[k]].contains(
            deeper[k + 1],
        ) by {
            if k < path.len() - 1 {
                assert(deeper[k] == path[k]);
                assert(deeper[k + 1] == path[k + 1]);
            }
        }
    }
    assert(apart(order, deeper)) by {
        assert forall|x: int| order.contains(x) implies !deeper.contains(x) by {
            if deeper.contains(x) {
                let k = choose|k: int| 0 <= k < deeper.len() && deeper[k] == x;
                if k < path.len() {
                    assert(path.contains(x));
                }
            }
        }
    }
    lemma_path_bounded(g, deeper);
}

/// What a visit of one node achieves.
pub proof fn lemma_visit(g: Seq<Seq<int>>, node: int, order: Seq<int>, path: Seq<int>)
    requires
        graph_ok(g),
        is_path(g, path),
        is_chain(g, path),
        0 <= node < g.len(),
        is_settled(g, order),
        apart(order, path),
        path.len() > 0 ==> g[path.last()].contains(node),
    ensures
        match visit(g, node, order, path) {
            Ok(done) => extends(g, order, done, path) && done.contains(node),
            Err(cycle) => is_cycle(g, cycle),
        },
    decreases g.len() - path.len(), 0nat,
{
    if path.contains(node) {
        lemma_closing_cycle(g, node, path);
    } else if order.contains(node) {
    } else {
        let deeper = path.push(node);
        lemma_descend(g, node, order, path);
        assert forall|k: int| 0 <= k < g[node].len() implies g[deeper.last()].contains(
            #[trigger] g[node][k],
        ) by {}
        lemma_visit_each(g, g[node], order, deeper);
        match visit_each(g, g[node], order, deeper) {
            Ok(done) => {
                assert(deeper.contains(node)) by {
                    assert(deeper[path.len() as int] == node);
                }
                assert(!done.contains(node));
                lemma_settle(g, done, node);
                let after = done.push(node);
                assert(after.contains(node)) by {
                    assert(after[done.len() as int] == node);
                }
                assert(order.is_prefix_of(after));
                assert(apart(after, path)) by {
                    assert forall|x: int| after.contains(x) implies !path.contains(x) by {
                        let k = choose|k: int| 0 <= k < after.len() && after[k] == x;
                        if k < done.len() {
                            assert(done.contains(x));
                            if path.contains(x) {
                                let j = choose|j: int| 0 <= j < path.len() && path[j] == x;
                                assert(deeper[j] == x);
                                assert(deeper.contains(x));
                            }
                        }
                    }
                }
            },
            Err(cycle) => {},
        }
    }
}

/// What the visits of several nodes in turn achieve.
pub proof fn lemma_visit_each(g: Seq<Seq<int>>, nodes: Seq<int>, order: Seq<int>, path: Seq<int>)
    requires
        graph_ok(g),
        is_path(g, path),
        is_chain(g, path),
        nodes_in_range(g, nodes),
        is_settled(g, order),
        apart(order, path),
        path.len() > 0 ==> forall|k: int|
            0 <= k < nodes.len() ==> g[path.last()].contains(#[trigger] nodes[k]),
    ensures
        match visit_each(g, nodes, order, path) {
            Ok(done) => extends(g, order, done, path) && forall|k: int|
                0 <= k < nodes.len() ==> done.contains(#[trigger] nodes[k]),
            Err(cycle) => is_cycle(g, cycle),
        },
    decreases g.len() - path.len(), nodes.len() + 1,
{
    if nodes.len() == 0 {
    } else {
        let rest = nodes.drop_first();
        lemma_visit(g, nodes[0], order, path);
        match visit(g, nodes[0], order, path) {
            Ok(first) => {
                assert forall|k: int| 0 <= k < rest.len() implies 0 <= #[trigger] rest[k]
                    < g.len() by {
                    assert(rest[k] == nodes[k + 1]);
                }
                if path.len() > 0 {
                    assert forall|k: int| 0 <= k < rest.len() implies g[path.last()].contains(
                        #[trigger] rest[k],
                    ) by {
                        assert(rest[k] == nodes[k + 1]);
                    }
                }
                lemma_visit_each(g, rest, first, path);
                match visit_each(g, rest, first, path) {
                    Ok(done) => {
                        assert(order.is_prefix_of(done));
                        assert forall|k: int| 0 <= k < nodes.len() implies done.contains(
                            #[trigger] nodes[k],
                        ) by {
                            if k == 0 {
                                let b = choose|b: int| 0 <= b < first.len() && first[b] == nodes[0];
                                assert(done[b] == nodes[0]);
                            } else {
                                assert(rest[k - 1] == nodes[k]);
                            }
                        }
                    },
                    Err(cycle) => {},
                }
            },
            Err(cycle) => {},
        }
    }
}

/// The depth-first order of a graph is a topological order of it, unless
/// the traversal met a cycle.
pub proof fn lemma_depth_first_order(g: Seq<Seq<int>>)
    requires
        graph_ok(g),
    ensures
        match depth_first_order(g) {
            Ok(order) => is_topological(g, order),
            Err(cycle) => is_cycle(g, cycle),
        },
{
    let roots = all_nodes(g.len());
    let none = Seq::<int>::empty();
    lemma_visit_each(g, roots, none, none);
    match depth_first_order(g) {
        Ok(order) => {
            assert forall|i: int| 0 <= i < g.len() implies order.contains(i) by {
                assert(roots[i] == i);
            }
            lemma_path_bounded(g, order);
            assert(order.len() == g.len()) by {
                lemma_path_bounded(g, order);
                let range = vstd::set_lib::set_int_range(0, g.len() as int);
                vstd::set_lib::lemma_int_range(0, g.len() as int);
                order.unique_seq_to_set();
                assert(range.subset_of(order.to_set()));
                vstd::set_lib::lemma_len_subset(range, order.to_set());
            }
            assert forall|i: int, k: int| 0 <= i < g.len() && 0 <= k < g[i].len() implies order.index_of(
                #[trigger] g[i][k],
            ) < order.index_of(i) by {
                let a = order.index_of(i);
                assert(order.contains(i));
                assert(order[a] == i);
                assert(placed_before(order, a, g[order[a]][k]));
                let b = choose|b: int| 0 <= b < a && order[b] == g[i][k];
                assert(order.contains(g[i][k]));
                let c = order.index_of(g[i][k]);
                assert(order[c] == g[i][k]);
                assert(b == c);
            }
        },
        Err(cycle) => {},
    }
}

/// A graph with a topological order has no cycle.
pub proof fn lemma_topological_acyclic(g: Seq<Seq<int>>, order: Seq<int>)
    requires
        graph_ok(g),
        is_topological(g, order),
    ensures
        acyclic(g),
{
    assert forall|cycle: Seq<int>| !is_cycle(g, cycle) by {
        if is_cycle(g, cycle) {
            lemma_chain_descends(g, order, cycle, cycle.len() - 1);
            let last = cycle.last();
            let k = choose|k: int| 0 <= k < g[last].len() && g[last][k] == cycle[0];
            assert(order.index_of(g[last][k]) < order.index_of(last));
        }
    }
}

/// Along a chain, the position in a topological order does not rise.
proof fn lemma_chain_descends(g: Seq<Seq<int>>, order: Seq<int>, chain: Seq<int>, n: int)
    requires
        graph_ok(g),
        is_topological(g, order),
        nodes_in_range(g, chain),
        is_chain(g, chain),
        0 <= n < chain.len(),
    ensures
        order.index_of(chain[n]) <= order.index_of(chain[0]),
    decreases n,
{
    if n > 0 {
        lemma_chain_descends(g, order, chain, n - 1);
        let from = chain[n - 1];
        assert(g[from].contains(chain[n]));
        let k = choose|k: int| 0 <= k < g[from].len() && g[from][k] == chain[n];
        assert(order.index_of(g[from][k]) < order.index_of(from));
    }
}

/// The traversal succeeds exactly on the graphs without a cycle.
pub proof fn lemma_order_exists_iff_acyclic(g: Seq<Seq<int>>)
    requires
        graph_ok(g),
    ensures
        depth_first_order(g) is Ok <==> acyclic(g),
{
    lemma_depth_first_order(g);
    match depth_first_order(g) {
        Ok(order) => {
            lemma_topological_acyclic(g, order);
        },
        Err(cycle) => {
            assert(is_cycle(g, cycle));
        },
    }
}

} // verus!
