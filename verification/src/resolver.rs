//! The dependency resolver: the order in which records are declared in the
//! schema, every record after the records that its fields refer to.

use vstd::prelude::*;
use vstd::string::*;
use crate::error::{SchemaError, SchemaErrorView};
use crate::graph::{all_nodes, apart, depth_first_order, extends, graph_ok, is_chain, is_cycle,
    is_path, is_settled, lemma_depth_first_order, lemma_descend, lemma_order_exists_iff_acyclic,
    lemma_visit, nodes_in_range, visit, visit_each};
use crate::schema::{dependency_names, lemma_dependency_names, record_name, struct_views,
    CapnpStruct, StructView};
use crate::text::views;

verus! {

/// The position of the first record of the given name.
pub open spec fn first_position(structs: Seq<StructView>, name: Seq<char>) -> Option<int>
    decreases structs.len(),
{
    if structs.len() == 0 {
        None
    } else {
        match first_position(structs.drop_last(), name) {
            Some(i) => Some(i),
            None => if structs.last().name == name {
                Some(structs.len() - 1)
            } else {
                None
            },
        }
    }
}

/// The first position of a name is the least position of a record of that
/// name; a name has none exactly if no record has it.
pub proof fn lemma_first_position(structs: Seq<StructView>, name: Seq<char>)
    ensures
        match first_position(structs, name) {
            Some(i) => {
                &&& 0 <= i < structs.len()
                &&& structs[i].name == name
                &&& forall|j: int| 0 <= j < i ==> (#[trigger] structs[j]).name != name
            },
            None => forall|j: int| 0 <= j < structs.len() ==> (#[trigger] structs[j]).name != name,
        },
    decreases structs.len(),
{
    if structs.len() > 0 {
        let head = structs.drop_last();
        lemma_first_position(head, name);
        match first_position(head, name) {
            Some(i) => {
                assert(structs[i] == head[i]);
                assert forall|j: int| 0 <= j < i implies (#[trigger] structs[j]).name != name by {
                    assert(structs[j] == head[j]);
                }
            },
            None => {
                assert forall|j: int| 0 <= j < structs.len() - 1 implies (
                #[trigger] structs[j]).name != name by {
                    assert(structs[j] == head[j]);
                }
            },
        }
    }
}

/// The record `i` refers to the record `j`: one of its fields has a type
/// that, under its list and optional wrappers, names a record, and `j` is
/// the first record of that name.
pub open spec fn refers_to(structs: Seq<StructView>, i: int, j: int) -> bool {
    exists|k: int|
        0 <= k < structs[i].fields.len() && match #[trigger] record_name(structs[i].fields[k].ty) {
            Some(name) => first_position(structs, name) == Some(j),
            None => false,
        }
}

/// The records that the names stand for, in the order of the names. A name
/// that no record has stands for nothing.
pub open spec fn resolved(structs: Seq<StructView>, names: Seq<Seq<char>>) -> Seq<int>
    decreases names.len(),
{
    if names.len() == 0 {
        Seq::empty()
    } else {
        let before = resolved(structs, names.drop_last());
        match first_position(structs, names.last()) {
            Some(j) => before.push(j),
            None => before,
        }
    }
}

/// The records that the record `i` refers to, in the order in which its
/// fields first mention them.
pub open spec fn dependencies_of(structs: Seq<StructView>, i: int) -> Seq<int> {
    resolved(structs, dependency_names(structs[i].fields))
}

/// The dependency graph of the records.
pub open spec fn dependency_graph(structs: Seq<StructView>) -> Seq<Seq<int>> {
    Seq::new(structs.len(), |i: int| dependencies_of(structs, i))
}

/// A record is among the resolved ones exactly if one of the names stands
/// for it.
pub proof fn lemma_resolved(structs: Seq<StructView>, names: Seq<Seq<char>>)
    ensures
        forall|j: int| #[trigger]
            resolved(structs, names).contains(j) <==> exists|k: int|
                0 <= k < names.len() && first_position(structs, #[trigger] names[k]) == Some(j),
        nodes_in_range(dependency_graph(structs), resolved(structs, names)),
    decreases names.len(),
{
    if names.len() > 0 {
        let head = names.drop_last();
        let before = resolved(structs, head);
        let after = resolved(structs, names);
        lemma_resolved(structs, head);
        lemma_first_position(structs, names.last());
        assert forall|j: int| #[trigger]
            after.contains(j) <==> exists|k: int|
                0 <= k < names.len() && first_position(structs, #[trigger] names[k]) == Some(
                    j,
                ) by {
            if after.contains(j) {
                if before.contains(j) {
                    let k = choose|k: int|
                        0 <= k < head.len() && first_position(structs, #[trigger] head[k]) == Some(
                            j,
                        );
                    assert(names[k] == head[k]);
                } else {
                    let a = choose|a: int| 0 <= a < after.len() && after[a] == j;
                    assert(first_position(structs, names[names.len() - 1]) == Some(j));
                }
            }
            if exists|k: int|
                0 <= k < names.len() && first_position(structs, #[trigger] names[k]) == Some(j) {
                let k = choose|k: int|
                    0 <= k < names.len() && first_position(structs, #[trigger] names[k]) == Some(
                        j,
                    );
                if k < head.len() {
                    assert(names[k] == head[k]);
                    assert(before.contains(j));
                    let a = choose|a: int| 0 <= a < before.len() && before[a] == j;
                    assert(after[a] == j);
                } else {
                    assert(after[after.len() - 1] == j);
                }
            }
        }
        assert forall|a: int| 0 <= a < after.len() implies 0 <= #[trigger] after[a]
            < structs.len() by {
            if a < before.len() {
                assert(after[a] == before[a]);
            }
        }
    }
}

/// The dependency graph holds exactly the references between the records.
pub proof fn lemma_dependency_graph(structs: Seq<StructView>)
    ensures
        graph_ok(dependency_graph(structs)),
        dependency_graph(structs).len() == structs.len(),
        forall|i: int, j: int|
            0 <= i < structs.len() ==> (#[trigger] dependency_graph(structs)[i].contains(j)
                <==> refers_to(structs, i, j)),
{
    let g = dependency_graph(structs);
    assert forall|i: int| 0 <= i < g.len() implies nodes_in_range(g, #[trigger] g[i]) by {
        lemma_resolved(structs, dependency_names(structs[i].fields));
    }
    assert forall|i: int, j: int| 0 <= i < structs.len() implies (#[trigger] g[i].contains(j)
        <==> refers_to(structs, i, j)) by {
        let fields = structs[i].fields;
        let names = dependency_names(fields);
        lemma_resolved(structs, names);
        lemma_dependency_names(fields);
        if g[i].contains(j) {
            let k = choose|k: int|
                0 <= k < names.len() && first_position(structs, #[trigger] names[k]) == Some(j);
            assert(names.contains(names[k]));
            let f = choose|f: int|
                0 <= f < fields.len() && #[trigger] record_name(fields[f].ty) == Some(names[k]);
            assert(refers_to(structs, i, j));
        }
        if refers_to(structs, i, j) {
            let f = choose|f: int|
                0 <= f < fields.len() && match #[trigger] record_name(fields[f].ty) {
                    Some(name) => first_position(structs, name) == Some(j),
                    None => false,
                };
            let name = record_name(fields[f].ty)->Some_0;
            assert(names.contains(name));
            let k = choose|k: int| 0 <= k < names.len() && names[k] == name;
            assert(first_position(structs, names[k]) == Some(j));
        }
    }
}

/// The records refer to each other in a cycle: each record of the sequence
/// refers to the next, and the last to the first.
pub open spec fn is_reference_cycle(structs: Seq<StructView>, cycle: Seq<int>) -> bool {
    &&& cycle.len() > 0
    &&& forall|k: int| 0 <= k < cycle.len() ==> 0 <= #[trigger] cycle[k] < structs.len()
    &&& forall|k: int|
        0 <= k < cycle.len() - 1 ==> refers_to(structs, #[trigger] cycle[k], cycle[k + 1])
    &&& refers_to(structs, cycle.last(), cycle[0])
}

/// No records refer to each other in a cycle.
pub open spec fn no_reference_cycle(structs: Seq<StructView>) -> bool {
    forall|cycle: Seq<int>| !is_reference_cycle(structs, cycle)
}

/// A declaration order: every record is listed exactly once, and after
/// every record that it refers to.
pub open spec fn is_dependency_order(structs: Seq<StructView>, order: Seq<int>) -> bool {
    &&& order.len() == structs.len()
    &&& order.no_duplicates()
    &&& forall|k: int| 0 <= k < order.len() ==> 0 <= #[trigger] order[k] < structs.len()
    &&& forall|i: int| 0 <= i < structs.len() ==> order.contains(i)
    &&& forall|i: int, j: int|
        0 <= i < structs.len() && #[trigger] refers_to(structs, i, j) ==> order.index_of(j)
            < order.index_of(i)
}

/// The names of the records at the given positions.
pub open spec fn names_at(structs: Seq<StructView>, positions: Seq<int>) -> Seq<Seq<char>> {
    Seq::new(positions.len(), |k: int| structs[positions[k]].name)
}

/// The declaration order of the records: the order in which a depth-first
/// traversal of the references is done with them. The records are taken as
/// roots in the order in which they are given, and the references of a
/// record in the order of its fields. Where the traversal meets a cycle,
/// the result is the error that names the records on the cycle.
pub open spec fn declaration_order(structs: Seq<StructView>) -> Result<Seq<int>, SchemaErrorView> {
    match depth_first_order(dependency_graph(structs)) {
        Ok(order) => Ok(order),
        Err(cycle) => Err(SchemaErrorView::CyclicDependency { names: names_at(structs, cycle) }),
    }
}

/// Cycles of the dependency graph and cycles of references are the same.
pub proof fn lemma_cycles_agree(structs: Seq<StructView>, cycle: Seq<int>)
    ensures
        is_cycle(dependency_graph(structs), cycle) <==> is_reference_cycle(structs, cycle),
{
    let g = dependency_graph(structs);
    lemma_dependency_graph(structs);
    if is_cycle(g, cycle) {
        assert forall|k: int| 0 <= k < cycle.len() - 1 implies refers_to(
            structs,
            #[trigger] cycle[k],
            cycle[k + 1],
        ) by {
            assert(g[cycle[k]].contains(cycle[k + 1]));
        }
        assert(g[cycle.last()].contains(cycle[0]));
    }
    if is_reference_cycle(structs, cycle) {
        assert forall|k: int| 0 <= k < cycle.len() - 1 implies g[#[trigger] cycle[k]].contains(
            cycle[k + 1],
        ) by {
            assert(refers_to(structs, cycle[k], cycle[k + 1]));
        }
        assert(refers_to(structs, cycle.last(), cycle[0]));
        assert(g[cycle.last()].contains(cycle[0]));
    }
}

/// The declaration order is a dependency order: it lists every record once,
/// and each after all the records that it refers to. It exists exactly if
/// no records refer to each other in a cycle; where they do, the error
/// names the records of such a cycle.
pub proof fn lemma_declaration_order(structs: Seq<StructView>)
    ensures
        declaration_order(structs) is Ok <==> no_reference_cycle(structs),
        match declaration_order(structs) {
            Ok(order) => is_dependency_order(structs, order),
            Err(e) => exists|cycle: Seq<int>|
                is_reference_cycle(structs, cycle) && e == (SchemaErrorView::CyclicDependency {
                    names: names_at(structs, cycle),
                }),
        },
{
    let g = dependency_graph(structs);
    lemma_dependency_graph(structs);
    lemma_depth_first_order(g);
    lemma_order_exists_iff_acyclic(g);
    assert forall|cycle: Seq<int>|
        is_cycle(g, cycle) <==> is_reference_cycle(structs, cycle) by {
        lemma_cycles_agree(structs, cycle);
    }
    match depth_first_order(g) {
        Ok(order) => {
            assert forall|i: int, j: int|
                0 <= i < structs.len() && #[trigger] refers_to(
                    structs,
                    i,
                    j,
                ) implies order.index_of(j) < order.index_of(i) by {
                assert(g[i].contains(j));
                let k = choose|k: int| 0 <= k < g[i].len() && g[i][k] == j;
                assert(order.index_of(g[i][k]) < order.index_of(i));
            }
        },
        Err(cycle) => {
            assert(is_reference_cycle(structs, cycle));
        },
    }
}

/// The positions as mathematical integers.
pub open spec fn as_ints(positions: Seq<usize>) -> Seq<int> {
    positions.map_values(|p: usize| p as int)
}

/// The view of a graph that is held as adjacency lists.
pub open spec fn graph_view(lists: Seq<Vec<usize>>) -> Seq<Seq<int>> {
    Seq::new(lists.len(), |i: int| as_ints(lists[i]@))
}

/// The view of the result of ordering the records.
pub open spec fn order_result_view(r: Result<Vec<usize>, SchemaError>) -> Result<
    Seq<int>,
    SchemaErrorView,
> {
    match r {
        Ok(order) => Ok(as_ints(order@)),
        Err(e) => Err(e@),
    }
}

/// The position of the first record of the given name.
fn position(structs: &Vec<CapnpStruct>, name: &String) -> (r: Option<usize>)
    ensures
        match r {
            Some(i) => first_position(struct_views(structs@), name@) == Some(i as int),
            None => first_position(struct_views(structs@), name@) is None,
        },
{
    let ghost all = struct_views(structs@);
    let mut i: usize = 0;
    proof {
        assert(all.take(0) =~= Seq::<StructView>::empty());
    }
    while i < structs.len()
        invariant
            i <= structs.len(),
            all == struct_views(structs@),
            first_position(all.take(i as int), name@) is None,
        decreases structs.len() - i,
    {
        proof {
            assert(all.take(i as int + 1).drop_last() =~= all.take(i as int));
            assert(all.take(i as int + 1).last() == structs[i as int]@);
        }
        if structs[i].name == *name {
            proof {
                lemma_first_position_extends(all, name@, i as int + 1);
            }
            return Some(i);
        }
        i += 1;
    }
    proof {
        assert(all.take(i as int) =~= all);
    }
    None
}

/// A first position among the first records is the first position among
/// all of them.
proof fn lemma_first_position_extends(structs: Seq<StructView>, name: Seq<char>, n: int)
    requires
        0 <= n <= structs.len(),
        first_position(structs.take(n), name) is Some,
    ensures
        first_position(structs, name) == first_position(structs.take(n), name),
    decreases structs.len() - n,
{
    if n < structs.len() {
        assert(structs.take(n + 1).drop_last() =~= structs.take(n));
        lemma_first_position_extends(structs, name, n + 1);
    } else {
        assert(structs.take(n) =~= structs);
    }
}

/// The positions of the records that the names stand for.
fn resolve(structs: &Vec<CapnpStruct>, names: &Vec<String>) -> (r: Vec<usize>)
    ensures
        as_ints(r@) == resolved(struct_views(structs@), views(names@)),
{
    let ghost all = struct_views(structs@);
    let mut out: Vec<usize> = Vec::new();
    let mut k: usize = 0;
    proof {
        assert(views(names@).take(0) =~= Seq::<Seq<char>>::empty());
        assert(as_ints(out@) =~= Seq::<int>::empty());
    }
    while k < names.len()
        invariant
            k <= names.len(),
            all == struct_views(structs@),
            as_ints(out@) == resolved(all, views(names@).take(k as int)),
        decreases names.len() - k,
    {
        let ghost before = as_ints(out@);
        proof {
            assert(views(names@).take(k as int + 1).drop_last() =~= views(names@).take(k as int));
            assert(views(names@).take(k as int + 1).last() == names[k as int]@);
        }
        match position(structs, &names[k]) {
            Some(j) => {
                out.push(j);
                assert(as_ints(out@) =~= before.push(j as int));
            },
            None => {},
        }
        k += 1;
    }
    proof {
        assert(views(names@).take(k as int) =~= views(names@));
    }
    out
}

/// The dependency graph of the records, as adjacency lists.
fn build_graph(structs: &Vec<CapnpStruct>) -> (r: Vec<Vec<usize>>)
    ensures
        graph_view(r@) == dependency_graph(struct_views(structs@)),
{
    let ghost all = struct_views(structs@);
    let mut graph: Vec<Vec<usize>> = Vec::new();
    let mut i: usize = 0;
    while i < structs.len()
        invariant
            i <= structs.len(),
            graph.len() == i,
            all == struct_views(structs@),
            forall|a: int| 0 <= a < i ==> as_ints(#[trigger] graph[a]@) == dependencies_of(all, a),
        decreases structs.len() - i,
    {
        let names = structs[i].dependencies();
        let list = resolve(structs, &names);
        assert(all[i as int] == structs[i as int]@);
        graph.push(list);
        i += 1;
    }
    assert(graph_view(graph@) =~= dependency_graph(all));
    graph
}

/// The three colours of the traversal.
#[derive(Clone, Copy, PartialEq, Eq, Structural)]
enum Mark {
    Unvisited,
    InProgress,
    Done,
}

/// The marks say which nodes are done and which are in progress.
spec fn marks_agree(marks: Seq<Mark>, order: Seq<int>, path: Seq<int>) -> bool {
    forall|v: int|
        0 <= v < marks.len() ==> {
            &&& (#[trigger] marks[v] == Mark::Done) <==> order.contains(v)
            &&& (marks[v] == Mark::InProgress) <==> path.contains(v)
        }
}

/// What the traversal keeps true of its state between two visits.
spec fn traversal_ok(g: Seq<Seq<int>>, marks: Seq<Mark>, order: Seq<int>, path: Seq<int>) -> bool {
    &&& marks.len() == g.len()
    &&& marks_agree(marks, order, path)
    &&& is_path(g, path)
    &&& is_chain(g, path)
    &&& is_settled(g, order)
    &&& apart(order, path)
}

/// The part of the stack from `node` on.
fn cycle_from(stack: &Vec<usize>, node: usize) -> (r: Vec<usize>)
    requires
        as_ints(stack@).no_duplicates(),
        as_ints(stack@).contains(node as int),
    ensures
        as_ints(r@) == as_ints(stack@).skip(as_ints(stack@).index_of(node as int)),
{
    let ghost path = as_ints(stack@);
    let ghost at = path.index_of(node as int);
    let mut start: usize = 0;
    while start < stack.len() && stack[start] != node
        invariant
            start <= stack.len(),
            path == as_ints(stack@),
            forall|k: int| 0 <= k < start ==> path[k] != node as int,
        decreases stack.len() - start,
    {
        start += 1;
    }
    assert(start == at) by {
        assert(path[at] == node as int);
        if start < stack.len() {
            assert(path[start as int] == node as int);
        }
    }
    let mut out: Vec<usize> = Vec::new();
    let mut k: usize = start;
    while k < stack.len()
        invariant
            start <= k <= stack.len(),
            path == as_ints(stack@),
            as_ints(out@) == path.subrange(start as int, k as int),
        decreases stack.len() - k,
    {
        let ghost before = as_ints(out@);
        out.push(stack[k]);
        assert(as_ints(out@) =~= before.push(path[k as int]));
        assert(path.subrange(start as int, k as int + 1) =~= path.subrange(
            start as int,
            k as int,
        ).push(path[k as int]));
        k += 1;
    }
    assert(path.subrange(start as int, path.len() as int) =~= path.skip(at));
    out
}

/// Visits one node: the executable form of [`visit`]. On success the node
/// and what it depends on are done; on failure the result is the cycle
/// that was met.
fn visit_node(
    graph: &Vec<Vec<usize>>,
    node: usize,
    marks: &mut Vec<Mark>,
    order: &mut Vec<usize>,
    stack: &mut Vec<usize>,
) -> (r: Result<(), Vec<usize>>)
    requires
        graph_ok(graph_view(graph@)),
        node < graph.len(),
        traversal_ok(
            graph_view(graph@),
            old(marks)@,
            as_ints(old(order)@),
            as_ints(old(stack)@),
        ),
        old(stack).len() > 0 ==> graph_view(graph@)[as_ints(old(stack)@).last()].contains(
            node as int,
        ),
    ensures
        match visit(graph_view(graph@), node as int, as_ints(old(order)@), as_ints(old(stack)@)) {
            Ok(done) => {
                &&& r is Ok
                &&& as_ints(final(order)@) == done
                &&& final(stack)@ == old(stack)@
                &&& traversal_ok(
                    graph_view(graph@),
                    final(marks)@,
                    as_ints(final(order)@),
                    as_ints(final(stack)@),
                )
                &&& extends(graph_view(graph@), as_ints(old(order)@), done, as_ints(old(stack)@))
                &&& done.contains(node as int)
            },
            Err(cycle) => r is Err && as_ints(r->Err_0@) == cycle,
        },
    decreases graph.len() - old(stack).len(),
{
    let ghost g = graph_view(graph@);
    let ghost order0 = as_ints(order@);
    let ghost path0 = as_ints(stack@);
    proof {
        lemma_visit(g, node as int, order0, path0);
    }
    match marks[node] {
        Mark::InProgress => {
            let cycle = cycle_from(stack, node);
            return Err(cycle);
        },
        Mark::Done => {
            return Ok(());
        },
        Mark::Unvisited => {},
    }
    marks.set(node, Mark::InProgress);
    stack.push(node);
    let ghost deeper = path0.push(node as int);
    let deps = &graph[node];
    let ghost nodes = g[node as int];
    proof {
        assert(as_ints(stack@) =~= deeper);
        assert(nodes == as_ints(deps@));
        assert(deeper[path0.len() as int] == node as int);
        lemma_descend(g, node as int, order0, path0);
        assert(marks_agree(marks@, order0, deeper)) by {
            assert forall|v: int| 0 <= v < marks.len() implies {
                &&& (#[trigger] marks@[v] == Mark::Done) <==> order0.contains(v)
                &&& (marks@[v] == Mark::InProgress) <==> deeper.contains(v)
            } by {
                if v != node as int {
                    assert(marks@[v] == old(marks)@[v]);
                    if deeper.contains(v) {
                        let k = choose|k: int| 0 <= k < deeper.len() && deeper[k] == v;
                        assert(path0[k] == v);
                    }
                    if path0.contains(v) {
                        let k = choose|k: int| 0 <= k < path0.len() && path0[k] == v;
                        assert(deeper[k] == v);
                    }
                }
            }
        }
        assert(nodes.skip(0) =~= nodes);
        assert(order0.is_prefix_of(order0));
    }
    let mut k: usize = 0;
    while k < deps.len()
        invariant
            k <= deps.len(),
            g == graph_view(graph@),
            graph_ok(g),
            node < graph.len(),
            deps@ == graph[node as int]@,
            nodes == as_ints(deps@),
            nodes == g[node as int],
            deeper == path0.push(node as int),
            deeper.len() <= g.len(),
            as_ints(stack@) == deeper,
            stack@ == old(stack)@.push(node),
            order0 == as_ints(old(order)@),
            path0 == as_ints(old(stack)@),
            is_path(g, path0),
            !path0.contains(node as int),
            !order0.contains(node as int),
            traversal_ok(g, marks@, as_ints(order@), deeper),
            extends(g, order0, as_ints(order@), deeper),
            forall|j: int| 0 <= j < k ==> as_ints(order@).contains(#[trigger] nodes[j]),
            visit_each(g, nodes, order0, deeper) == visit_each(
                g,
                nodes.skip(k as int),
                as_ints(order@),
                deeper,
            ),
        decreases deps.len() - k,
    {
        let ghost order_k = as_ints(order@);
        let ghost rest = nodes.skip(k as int);
        proof {
            assert(rest[0] == nodes[k as int]);
            assert(rest.drop_first() =~= nodes.skip(k as int + 1));
            assert(nodes[k as int] == deps[k as int] as int);
            assert(nodes_in_range(g, nodes));
            assert(g[deeper.last()].contains(nodes[k as int]));
            lemma_visit(g, nodes[k as int], order_k, deeper);
        }
        match visit_node(graph, deps[k], marks, order, stack) {
            Err(cycle) => {
                proof {
                    let found = Err::<Seq<int>, Seq<int>>(as_ints(cycle@));
                    assert(visit(g, rest[0], order_k, deeper) == found);
                    assert(visit_each(g, rest, order_k, deeper) == found);
                    assert(visit(g, node as int, order0, path0) == found);
                }
                return Err(cycle);
            },
            Ok(_) => {},
        }
        proof {
            let now = as_ints(order@);
            assert(order0.is_prefix_of(now));
            assert forall|j: int| 0 <= j < k + 1 implies now.contains(#[trigger] nodes[j]) by {
                if j < k {
                    let b = choose|b: int| 0 <= b < order_k.len() && order_k[b] == nodes[j];
                    assert(now[b] == nodes[j]);
                }
            }
        }
        k += 1;
    }
    proof {
        assert(nodes.skip(k as int) =~= Seq::<int>::empty());
    }
    let ghost done = as_ints(order@);
    stack.pop();
    marks.set(node, Mark::Done);
    order.push(node);
    proof {
        let after = done.push(node as int);
        assert(stack@ =~= old(stack)@);
        assert(as_ints(order@) =~= after);
        assert(after[done.len() as int] == node as int);
        assert(marks_agree(marks@, after, path0)) by {
            assert forall|v: int| 0 <= v < marks.len() implies {
                &&& (#[trigger] marks@[v] == Mark::Done) <==> after.contains(v)
                &&& (marks@[v] == Mark::InProgress) <==> path0.contains(v)
            } by {
                if v != node as int {
                    if after.contains(v) {
                        let b = choose|b: int| 0 <= b < after.len() && after[b] == v;
                        assert(done[b] == v);
                    }
                    if done.contains(v) {
                        let b = choose|b: int| 0 <= b < done.len() && done[b] == v;
                        assert(after[b] == v);
                    }
                    if deeper.contains(v) {
                        let j = choose|j: int| 0 <= j < deeper.len() && deeper[j] == v;
                        assert(path0[j] == v);
                    }
                    if path0.contains(v) {
                        let j = choose|j: int| 0 <= j < path0.len() && path0[j] == v;
                        assert(deeper[j] == v);
                    }
                }
            }
        }
    }
    Ok(())
}

/// The names of the records at the given positions.
fn names_of(structs: &Vec<CapnpStruct>, positions: &Vec<usize>) -> (r: Vec<String>)
    requires
        forall|k: int| 0 <= k < positions.len() ==> #[trigger] positions[k] < structs.len(),
    ensures
        views(r@) == names_at(struct_views(structs@), as_ints(positions@)),
{
    let mut names: Vec<String> = Vec::new();
    let mut k: usize = 0;
    while k < positions.len()
        invariant
            k <= positions.len(),
            names.len() == k,
            forall|j: int| 0 <= j < positions.len() ==> #[trigger] positions[j] < structs.len(),
            forall|j: int| 0 <= j < k ==> (#[trigger] names[j])@ == structs[positions[j] as int].name@,
        decreases positions.len() - k,
    {
        names.push(structs[positions[k]].name.clone());
        k += 1;
    }
    assert(views(names@) =~= names_at(struct_views(structs@), as_ints(positions@)));
    names
}

/// Orders the records for declaration. The result holds the position of
/// every record exactly once, each after the positions of all the records
/// that its fields refer to; a field refers to the first record that has
/// the name under the field type's list and optional wrappers, and to
/// nothing if no record has it. The order is that of a depth-first
/// traversal which takes the records as roots in the order given, and the
/// references of a record in the order of its fields.
///
/// The call fails exactly if records refer to each other in a cycle, and
/// the error then names the records of the first cycle that the traversal
/// met.
pub fn topo_sort(structs: &Vec<CapnpStruct>) -> (r: Result<Vec<usize>, SchemaError>)
    ensures
        order_result_view(r) == declaration_order(struct_views(structs@)),
        r is Ok <==> no_reference_cycle(struct_views(structs@)),
        r matches Ok(order) ==> is_dependency_order(struct_views(structs@), as_ints(order@)),
        r matches Err(e) ==> exists|cycle: Seq<int>|
            is_reference_cycle(struct_views(structs@), cycle) && e@ == (
            SchemaErrorView::CyclicDependency { names: names_at(struct_views(structs@), cycle) }),
{
    let ghost all = struct_views(structs@);
    let graph = build_graph(structs);
    let ghost g = graph_view(graph@);
    let n = graph.len();
    let ghost roots = all_nodes(n as nat);
    let mut marks: Vec<Mark> = Vec::new();
    let mut i: usize = 0;
    while i < n
        invariant
            i <= n,
            marks.len() == i,
            forall|v: int| 0 <= v < i ==> marks[v] == Mark::Unvisited,
        decreases n - i,
    {
        marks.push(Mark::Unvisited);
        i += 1;
    }
    let mut order: Vec<usize> = Vec::new();
    let mut stack: Vec<usize> = Vec::new();
    proof {
        lemma_dependency_graph(all);
        assert(as_ints(order@) =~= Seq::<int>::empty());
        assert(as_ints(stack@) =~= Seq::<int>::empty());
        assert(roots.skip(0) =~= roots);
    }
    let mut root: usize = 0;
    while root < n
        invariant
            root <= n,
            n == graph.len(),
            g == graph_view(graph@),
            g == dependency_graph(all),
            all == struct_views(structs@),
            n == structs.len(),
            graph_ok(g),
            roots == all_nodes(n as nat),
            stack@.len() == 0,
            traversal_ok(g, marks@, as_ints(order@), as_ints(stack@)),
            depth_first_order(g) == visit_each(
                g,
                roots.skip(root as int),
                as_ints(order@),
                Seq::<int>::empty(),
            ),
        decreases n - root,
    {
        let ghost rest = roots.skip(root as int);
        let ghost old_order = order;
        proof {
            assert(as_ints(stack@) =~= Seq::<int>::empty());
            assert(rest[0] == root as int);
            assert(rest.drop_first() =~= roots.skip(root as int + 1));
        }
        match visit_node(&graph, root, &mut marks, &mut order, &mut stack) {
            Err(cycle) => {
                proof {
                    let found = Err::<Seq<int>, Seq<int>>(as_ints(cycle@));
                    assert(visit(g, rest[0], as_ints(old_order@), Seq::<int>::empty()) == found);
                    assert(visit_each(g, rest, as_ints(old_order@), Seq::<int>::empty()) == found);
                    assert(depth_first_order(g) == found);
                    lemma_depth_first_order(g);
                    lemma_declaration_order(all);
                    assert forall|k: int| 0 <= k < cycle.len() implies #[trigger] cycle[k]
                        < structs.len() by {
                        assert(as_ints(cycle@)[k] == cycle[k] as int);
                    }
                }
                let names = names_of(structs, &cycle);
                return Err(SchemaError::CyclicDependency { names });
            },
            Ok(_) => {},
        }
        root += 1;
    }
    proof {
        assert(roots.skip(root as int) =~= Seq::<int>::empty());
        lemma_declaration_order(all);
    }
    Ok(order)
}

/// The views of a list of borrowed records.
pub open spec fn borrowed_views(structs: Seq<&CapnpStruct>) -> Seq<StructView> {
    structs.map_values(|s: &CapnpStruct| s@)
}

/// The records at the given positions, in the order of the positions.
pub open spec fn records_at(structs: Seq<StructView>, positions: Seq<int>) -> Seq<StructView> {
    Seq::new(positions.len(), |k: int| structs[positions[k]])
}

/// The records in their declaration order.
pub open spec fn sorted_records(structs: Seq<StructView>) -> Result<
    Seq<StructView>,
    SchemaErrorView,
> {
    match declaration_order(structs) {
        Ok(order) => Ok(records_at(structs, order)),
        Err(e) => Err(e),
    }
}

/// The view of the result of sorting the records.
pub open spec fn sorted_result_view(r: Result<Vec<&CapnpStruct>, SchemaError>) -> Result<
    Seq<StructView>,
    SchemaErrorView,
> {
    match r {
        Ok(sorted) => Ok(borrowed_views(sorted@)),
        Err(e) => Err(e@),
    }
}

/// The records in the order in which the schema declares them: the order
/// that [`topo_sort`] gives, applied to the records themselves.
pub fn sort_deps<'a>(items: &'a Vec<CapnpStruct>) -> (r: Result<Vec<&'a CapnpStruct>, SchemaError>)
    ensures
        sorted_result_view(r) == sorted_records(struct_views(items@)),
        r is Ok <==> no_reference_cycle(struct_views(items@)),
{
    let order = match topo_sort(items) {
        Ok(order) => order,
        Err(e) => {
            return Err(e);
        },
    };
    let ghost all = struct_views(items@);
    let ghost positions = as_ints(order@);
    let mut sorted: Vec<&'a CapnpStruct> = Vec::new();
    let mut k: usize = 0;
    proof {
        assert(is_dependency_order(all, positions));
        assert forall|j: int| 0 <= j < order.len() implies #[trigger] order[j] < items.len() by {
            assert(positions[j] == order[j] as int);
        }
    }
    while k < order.len()
        invariant
            k <= order.len(),
            sorted.len() == k,
            forall|j: int| 0 <= j < order.len() ==> #[trigger] order[j] < items.len(),
            forall|j: int| 0 <= j < k ==> *(#[trigger] sorted[j]) == items[order[j] as int],
        decreases order.len() - k,
    {
        sorted.push(&items[order[k]]);
        k += 1;
    }
    assert(borrowed_views(sorted@) =~= records_at(all, positions));
    Ok(sorted)
}

} // verus!
