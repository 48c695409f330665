//! The order in which the nodes of a graph are processed: every node after the
//! nodes whose outputs it reads.
use vstd::prelude::*;
use crate::node_graph::contents::NodeID;
use crate::node_graph::graph::NodeGraph;
use crate::compute_graph::UnrecoverableError;

verus! {

/// The nodes that the node `id` reads from, one per linked input pin.
pub open spec fn inputs_of(graph: NodeGraph, id: int) -> Seq<NodeID> {
    match graph.node_at(id) {
        Some(n) => if n.contents is Group {
            seq![]
        } else {
            graph.linked_nodes(n.contents.attr_list())
        },
        None => seq![],
    }
}

/// The inputs of every node slot of the graph.
pub open spec fn input_table(graph: NodeGraph) -> Seq<Seq<NodeID>> {
    Seq::new(graph.node_slots(), |i: int| inputs_of(graph, i))
}

/// A cycle of one table is a cycle of another that gives every node the same
/// successors.
pub proof fn lemma_same_successors_cycle(n: NodeID, t1: Seq<Seq<NodeID>>, t2: Seq<Seq<NodeID>>)
    requires
        on_cycle(n, t1),
        forall|id: NodeID| #[trigger] succ(t1, id) == succ(t2, id),
    ensures
        on_cycle(n, t2),
{
    let path = choose|path: Seq<NodeID>|
        {
            &&& path.len() >= 2
            &&& path[0] == n
            &&& path.last() == n
            &&& forall|k: int| 0 <= k < path.len() - 1 ==> #[trigger] succ(t1, path[k]).contains(path[k + 1])
        };
    assert forall|k: int| 0 <= k < path.len() - 1 implies #[trigger] succ(t2, path[k]).contains(path[k + 1]) by {
        assert(succ(t1, path[k]).contains(path[k + 1]));
    }
}

/// The characters of the rows of a table.
pub open spec fn table_view(t: Seq<Vec<NodeID>>) -> Seq<Seq<NodeID>> {
    t.map_values(|v: Vec<NodeID>| v@)
}

/// The successors of `id` in the table: its row, or none when `id` has no row.
pub open spec fn succ(t: Seq<Seq<NodeID>>, id: NodeID) -> Seq<NodeID> {
    if 0 <= id < t.len() {
        t[id as int]
    } else {
        seq![]
    }
}

/// `order` is a topological order of what `roots` reach in the table: it holds no
/// node twice, holds every root, holds only roots and successors of what it holds,
/// and puts every node before its successors.
pub open spec fn is_topological(order: Seq<NodeID>, roots: Seq<NodeID>, t: Seq<Seq<NodeID>>) -> bool {
    &&& order.no_duplicates()
    &&& forall|r: NodeID| #[trigger] roots.contains(r) ==> order.contains(r)
    &&& forall|i: int|
        0 <= i < order.len() ==> roots.contains(#[trigger] order[i]) || exists|j: int|
            0 <= j < order.len() && succ(t, order[j]).contains(order[i])
    &&& forall|i: int, s: NodeID|
        0 <= i < order.len() && #[trigger] succ(t, order[i]).contains(s) ==> exists|j: int|
            i < j < order.len() && order[j] == s
}

/// The node `n` lies on a cycle of the table: a path of successors leads from `n`
/// back to `n`.
pub open spec fn on_cycle(n: NodeID, t: Seq<Seq<NodeID>>) -> bool {
    exists|path: Seq<NodeID>|
        {
            &&& path.len() >= 2
            &&& path[0] == n
            &&& path.last() == n
            &&& forall|k: int| 0 <= k < path.len() - 1 ==> #[trigger] succ(t, path[k]).contains(path[k + 1])
        }
}

/// The row of `id` in the table.
pub fn successors(table: &Vec<Vec<NodeID>>, id: NodeID) -> (r: Vec<NodeID>)
    ensures
        r@ == succ(table_view(table@), id),
{
    if id >= 0 && (id as usize) < table.len() {
        table[id as usize].clone()
    } else {
        Vec::new()
    }
}

/// Calls `pathfinding::directed::topological_sort::topological_sort` on `roots`, with
/// the rows of `table` as successors. The crate explores the roots in the order in
/// which a hash set walks them, so which order comes back, and which node of a
/// cycle, is left open. Its source shows that an order that comes back holds every
/// root once, holds only what the roots reach, and puts each node before its
/// successors; and that a node that comes back as an error is on a cycle (it was
/// met again while its own successors were being explored).
#[verifier::external_body]
fn topological_sort(roots: &Vec<NodeID>, table: &Vec<Vec<NodeID>>) -> (r: Result<Vec<NodeID>, NodeID>)
    ensures
        r matches Ok(order) ==> is_topological(order@, roots@, table_view(table@)),
        r matches Err(n) ==> on_cycle(n, table_view(table@)),
{
    pathfinding::directed::topological_sort::topological_sort(roots.as_slice(), |id: &NodeID| successors(table, *id))
}

/// The message of the error for a graph with a cycle.
pub open spec fn cycle_message() -> Seq<char> {
    " cycle detected \n at this node "@
}

/// `order` lists each live node of `graph` once, each after every node it reads from.
pub open spec fn is_processing_order(graph: NodeGraph, order: Seq<NodeID>) -> bool {
    &&& order.no_duplicates()
    &&& forall|id: NodeID| #[trigger] order.contains(id) <==> graph.node_at(id as int) is Some
    &&& forall|i: int, s: NodeID|
        0 <= i < order.len() && #[trigger] inputs_of(graph, order[i] as int).contains(s)
            ==> exists|j: int| 0 <= j < i && order[j] == s
}

/// The nodes of `graph` in an order in which each node comes after every node it
/// reads from; or, where the links make a cycle, an error on a node of that cycle.
/// Which of several valid orders comes back is left open.
pub fn processing_order(graph: &NodeGraph) -> (r: Result<Vec<NodeID>, UnrecoverableError>)
    requires
        graph.wf(),
    ensures
        r matches Ok(order) ==> is_processing_order(*graph, order@),
        r matches Err(e) ==> {
            &&& e.error@ == cycle_message()
            &&& on_cycle(e.node_id, input_table(*graph))
        },
{
    let nodes = graph.get_nodes();
    let n_slots: usize = if nodes.len() == 0 {
        0
    } else {
        let last = nodes[nodes.len() - 1].0;
        assert(last >= 0) by {
            assert(graph.node_at(last as int) is Some);
            graph.lemma_live_id_nonnegative(last as int);
        }
        last as usize + 1
    };
    proof {
        assert forall|id: int| #[trigger] graph.node_at(id) is Some implies 0 <= id < n_slots by {
            graph.lemma_live_id_nonnegative(id);
            let k = choose|k: int| 0 <= k < nodes@.len() && nodes@[k].0 == id;
            if k < nodes@.len() - 1 {
                assert(nodes@[k].0 < nodes@[nodes@.len() - 1].0);
            }
        }
    }
    let mut table: Vec<Vec<NodeID>> = Vec::new();
    let mut roots: Vec<NodeID> = Vec::new();
    let mut k: usize = 0;
    while k < n_slots
        invariant
            graph.wf(),
            k <= n_slots,
            n_slots <= i32::MAX as usize + 1,
            table@.len() == k,
            forall|j: int| 0 <= j < k ==> #[trigger] table@[j]@ == inputs_of(*graph, j),
            forall|id: int| #[trigger] graph.node_at(id) is Some ==> 0 <= id < n_slots,
            forall|id: NodeID| #[trigger] roots@.contains(id) <==> (0 <= id < k && graph.node_at(id as int) is Some),
            roots@.no_duplicates(),
            forall|a: int, b: int| 0 <= a < b < roots@.len() ==> roots@[a] < roots@[b],
            forall|a: int| 0 <= a < roots@.len() ==> roots@[a] < k,
        decreases n_slots - k,
    {
        let id = k as NodeID;
        let ghost roots0 = roots@;
        match graph.get_node(id) {
            Some(node) => {
                if node.contents.is_group() {
                    table.push(Vec::new());
                } else {
                    table.push(graph.get_input_nodes(node));
                }
                roots.push(id);
                assert forall|x: NodeID| #[trigger] roots@.contains(x) <==> (0 <= x < k + 1 && graph.node_at(x as int) is Some) by {
                    if roots@.contains(x) {
                        let a = choose|a: int| 0 <= a < roots@.len() && roots@[a] == x;
                        if a < roots0.len() {
                            assert(roots0.contains(x));
                        }
                    }
                    if 0 <= x < k + 1 && graph.node_at(x as int) is Some {
                        if x < k {
                            assert(roots0.contains(x));
                            let a = choose|a: int| 0 <= a < roots0.len() && roots0[a] == x;
                            assert(roots@[a] == x);
                        } else {
                            assert(roots@[roots@.len() - 1] == x);
                        }
                    }
                }
            },
            None => {
                table.push(Vec::new());
                assert forall|x: NodeID| #[trigger] roots@.contains(x) <==> (0 <= x < k + 1 && graph.node_at(x as int) is Some) by {
                    if x == k {
                        assert(!roots0.contains(x));
                    }
                }
            },
        }
        k = k + 1;
    }
    let ghost t = table_view(table@);
    assert forall|id: NodeID| #[trigger] succ(t, id) == inputs_of(*graph, id as int) by {
        if 0 <= id < table@.len() {
            assert(t[id as int] == table@[id as int]@);
        }
    }
    assert forall|id: NodeID| #[trigger] succ(t, id) == succ(input_table(*graph), id) by {
        if 0 <= id < graph.node_slots() {
            assert(input_table(*graph)[id as int] == inputs_of(*graph, id as int));
        } else {
            graph.lemma_node_slots(id as int);
        }
    }
    match topological_sort(&roots, &table) {
        Err(node_id) => {
            proof {
                lemma_same_successors_cycle(node_id, t, input_table(*graph));
            }
            Err(UnrecoverableError { node_id, error: " cycle detected \n at this node " })
        },
        Ok(sorted) => {
            let mut order: Vec<NodeID> = Vec::new();
            let mut i: usize = sorted.len();
            while i > 0
                invariant
                    i <= sorted@.len(),
                    order@ == sorted@.subrange(i as int, sorted@.len() as int).reverse(),
                decreases i,
            {
                i = i - 1;
                order.push(sorted[i]);
                assert(order@ =~= sorted@.subrange(i as int, sorted@.len() as int).reverse());
            }
            assert(sorted@.subrange(0, sorted@.len() as int) =~= sorted@);
            proof {
                lemma_reverse_order(sorted@, order@, roots@, t, *graph);
            }
            Ok(order)
        },
    }
}

proof fn lemma_reverse_order(
    sorted: Seq<NodeID>,
    order: Seq<NodeID>,
    roots: Seq<NodeID>,
    t: Seq<Seq<NodeID>>,
    graph: NodeGraph,
)
    requires
        graph.wf(),
        order == sorted.reverse(),
        is_topological(sorted, roots, t),
        forall|id: NodeID| #[trigger] roots.contains(id) <==> graph.node_at(id as int) is Some,
        forall|id: NodeID| #[trigger] succ(t, id) == inputs_of(graph, id as int),
    ensures
        order.no_duplicates(),
        forall|id: NodeID| #[trigger] order.contains(id) <==> graph.node_at(id as int) is Some,
        forall|i: int, s: NodeID|
            0 <= i < order.len() && #[trigger] inputs_of(graph, order[i] as int).contains(s)
                ==> exists|j: int| 0 <= j < i && order[j] == s,
{
    let n = sorted.len() as int;
    assert forall|a: int, b: int| 0 <= a < b < order.len() implies order[a] != order[b] by {
        assert(order[a] == sorted[n - 1 - a]);
        assert(order[b] == sorted[n - 1 - b]);
    }
    assert forall|id: NodeID| #[trigger] order.contains(id) <==> sorted.contains(id) by {
        if order.contains(id) {
            let a = choose|a: int| 0 <= a < order.len() && order[a] == id;
            assert(sorted[n - 1 - a] == id);
        }
        if sorted.contains(id) {
            let a = choose|a: int| 0 <= a < sorted.len() && sorted[a] == id;
            assert(order[n - 1 - a] == id);
        }
    }
    assert forall|id: NodeID| #[trigger] order.contains(id) <==> graph.node_at(id as int) is Some by {
        if graph.node_at(id as int) is Some {
            assert(roots.contains(id));
        }
        if sorted.contains(id) {
            let a = choose|a: int| 0 <= a < sorted.len() && sorted[a] == id;
            if !roots.contains(sorted[a]) {
                let j = choose|j: int| 0 <= j < sorted.len() && succ(t, sorted[j]).contains(sorted[a]);
                lemma_inputs_live(graph, sorted[j] as int, id);
            }
        }
    }
    assert forall|i: int, s: NodeID|
        0 <= i < order.len() && #[trigger] inputs_of(graph, order[i] as int).contains(s) implies exists|j: int|
            0 <= j < i && order[j] == s by {
        let a = n - 1 - i;
        assert(sorted[a] == order[i]);
        assert(succ(t, sorted[a]).contains(s));
        let b = choose|b: int| a < b < sorted.len() && sorted[b] == s;
        assert(order[n - 1 - b] == s);
    }
}

/// What a live node reads from is live.
pub proof fn lemma_inputs_live(graph: NodeGraph, id: int, s: NodeID)
    requires
        graph.wf(),
        inputs_of(graph, id).contains(s),
    ensures
        graph.node_at(s as int) is Some,
{
    let n = graph.node_at(id)->0;
    graph.lemma_linked_nodes_live(n.contents.attr_list(), s);
}

} // verus!
