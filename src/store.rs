use vstd::prelude::*;
use petgraph::graph::{Graph, NodeIndex};
use petgraph::visit::{Dfs, Reversed};

verus! {

#[verifier::external_type_specification]
#[verifier::external_body]
#[verifier::reject_recursive_types(N)]
#[verifier::reject_recursive_types(E)]
#[verifier::reject_recursive_types(Ty)]
#[verifier::reject_recursive_types(Ix)]
pub struct ExGraph<N, E, Ty, Ix>(Graph<N, E, Ty, Ix>);

#[verifier::external_type_specification]
#[verifier::external_body]
pub struct ExDirected(petgraph::Directed);

/// The weights of a graph's nodes, by node index.
pub uninterp spec fn graph_nodes(g: Graph<usize, u8>) -> Seq<usize>;

/// A graph's edges as (source, target) node indices, in order of addition.
pub uninterp spec fn graph_edges(g: Graph<usize, u8>) -> Seq<(usize, usize)>;

/// The largest node or edge count of a graph with petgraph's default index type.
pub const MAX_INDEX: usize = 0xffff_ffff;

/// Relies on petgraph's `Graph::with_capacity`: the graph starts without nodes
/// or edges.
#[verifier::external_body]
pub(crate) fn new_graph(nodes: usize, edges: usize) -> (r: Graph<usize, u8>)
    ensures
        graph_nodes(r) == Seq::<usize>::empty(),
        graph_edges(r) == Seq::<(usize, usize)>::empty(),
{
    Graph::with_capacity(nodes, edges)
}

/// Relies on petgraph's `Graph::add_node`: the node gets the next index; it
/// panics only when that index would be `u32::MAX`.
#[verifier::external_body]
pub(crate) fn add_node(g: &mut Graph<usize, u8>, weight: usize) -> (r: usize)
    requires
        graph_nodes(*old(g)).len() < MAX_INDEX,
    ensures
        graph_nodes(*final(g)) == graph_nodes(*old(g)).push(weight),
        graph_edges(*final(g)) == graph_edges(*old(g)),
        r == graph_nodes(*old(g)).len(),
{
    g.add_node(weight).index()
}

/// Relies on petgraph's `Graph::add_edge`: the edge is appended (parallel edges
/// are kept); it panics on a missing node or when the edge index would be
/// `u32::MAX`.
#[verifier::external_body]
pub(crate) fn add_edge(g: &mut Graph<usize, u8>, a: usize, b: usize)
    requires
        a < graph_nodes(*old(g)).len(),
        b < graph_nodes(*old(g)).len(),
        graph_edges(*old(g)).len() < MAX_INDEX,
    ensures
        graph_nodes(*final(g)) == graph_nodes(*old(g)),
        graph_edges(*final(g)) == graph_edges(*old(g)).push((a, b)),
{
    g.add_edge(NodeIndex::new(a), NodeIndex::new(b), 0);
}

/// Relies on petgraph's `Index<NodeIndex>` for `Graph`: the weight of node `a`.
#[verifier::external_body]
pub(crate) fn node_weight(g: &Graph<usize, u8>, a: usize) -> (r: usize)
    requires
        a < graph_nodes(*g).len(),
    ensures
        r == graph_nodes(*g)[a as int],
{
    g[NodeIndex::new(a)]
}

/// `v` is reached from `s` against the direction of the edges: there is a
/// path from `s` to `v` whose every step goes from an edge's target to its
/// source.
pub open spec fn reaches_back(edges: Seq<(usize, usize)>, s: usize, v: usize) -> bool {
    exists|p: Seq<usize>|
        p.len() >= 1 && p[0] == s && p.last() == v && forall|i: int|
            0 <= i < p.len() - 1 ==> #[trigger] edges.contains((p[i + 1], p[i]))
}

/// Relies on petgraph's `Dfs` over `Reversed`: a depth-first walk from
/// `start` against the edges yields each node reached exactly once, `start`
/// first, which is skipped.
#[verifier::external_body]
pub(crate) fn reverse_dfs(g: &Graph<usize, u8>, start: usize) -> (r: Vec<usize>)
    requires
        start < graph_nodes(*g).len(),
    ensures
        r@.no_duplicates(),
        forall|v: usize|
            r@.contains(v) <==> (v < graph_nodes(*g).len() && v != start && reaches_back(
                graph_edges(*g),
                start,
                v,
            )),
{
    let graph = Reversed(g);
    let mut dfs = Dfs::new(&graph, NodeIndex::new(start));
    dfs.next(&graph);
    let mut r = Vec::new();
    while let Some(node) = dfs.next(&graph) {
        r.push(node.index());
    }
    r
}

} // verus!
