//! The lineage as a `petgraph` graph, and its text in the DOT language.

use vstd::prelude::*;
use crate::lineage::{
    all_links, lemma_last_link_labels, lineage_of, merged, node_names, same_ends, Lineage,
    LineageView, LinkView,
};
use crate::model::SqlModelView;
use crate::models::SqlModels;
use crate::seqs::{first_index, lemma_distinct_contains, lemma_first_index, lemma_first_index_is};
use crate::text::str_eq;

verus! {

/// `petgraph`'s adjacency-list graph. Nothing inside it is visible here: what
/// it holds is named by [`graph_nodes`] and [`graph_edges`].
#[verifier::external_type_specification]
#[verifier::external_body]
#[verifier::reject_recursive_types(N)]
#[verifier::reject_recursive_types(E)]
#[verifier::reject_recursive_types(Ty)]
#[verifier::reject_recursive_types(Ix)]
pub struct ExGraph<N, E, Ty, Ix>(petgraph::graph::Graph<N, E, Ty, Ix>);

/// `petgraph`'s marker for graphs with directed edges.
#[verifier::external_type_specification]
#[verifier::external_body]
pub struct ExDirected(petgraph::Directed);

/// The weights of the nodes of a graph, in the order of their indices.
pub uninterp spec fn graph_nodes(
    g: petgraph::graph::Graph<String, String, petgraph::Directed, u32>,
) -> Seq<Seq<char>>;

/// The edges of a graph, in the order of their indices: of each the index of
/// its source, the index of its target and its weight.
pub uninterp spec fn graph_edges(
    g: petgraph::graph::Graph<String, String, petgraph::Directed, u32>,
) -> Seq<(int, int, Seq<char>)>;

/// The text in the DOT language of a directed graph with the given node
/// weights and edges.
pub uninterp spec fn dot_text(nodes: Seq<Seq<char>>, edges: Seq<(int, int, Seq<char>)>) -> Seq<char>;

/// Calls `petgraph::graph::Graph::new`, which makes a directed graph with no
/// node and no edge.
#[verifier::external_body]
fn graph_new() -> (g: petgraph::graph::Graph<String, String, petgraph::Directed, u32>)
    ensures
        graph_nodes(g) == Seq::<Seq<char>>::empty(),
        graph_edges(g) == Seq::<(int, int, Seq<char>)>::empty(),
{
    petgraph::graph::Graph::new()
}

/// Calls `petgraph::graph::Graph::add_node`, which appends a node with the
/// given weight, leaves the edges alone and returns the new node's index. It
/// panics on a graph that already has as many nodes as its 32-bit indices
/// can tell apart, so such a graph is not admitted.
#[verifier::external_body]
fn graph_add_node(
    g: &mut petgraph::graph::Graph<String, String, petgraph::Directed, u32>,
    weight: String,
) -> (index: usize)
    requires
        graph_nodes(*old(g)).len() < u32::MAX,
    ensures
        graph_nodes(*final(g)) == graph_nodes(*old(g)).push(weight@),
        graph_edges(*final(g)) == graph_edges(*old(g)),
        index == graph_nodes(*old(g)).len(),
{
    g.add_node(weight).index()
}

/// Calls `petgraph::graph::Graph::add_edge`, which appends an edge from node
/// `a` to node `b` with the given weight, whether or not the two are joined
/// already, and leaves the nodes alone. It panics if `a` or `b` is no node of
/// the graph, or on a graph that already has as many edges as its 32-bit
/// indices can tell apart, so neither is admitted.
#[verifier::external_body]
fn graph_add_edge(
    g: &mut petgraph::graph::Graph<String, String, petgraph::Directed, u32>,
    a: usize,
    b: usize,
    weight: String,
)
    requires
        a < graph_nodes(*old(g)).len(),
        b < graph_nodes(*old(g)).len(),
        graph_edges(*old(g)).len() < u32::MAX,
    ensures
        graph_nodes(*final(g)) == graph_nodes(*old(g)),
        graph_edges(*final(g)) == graph_edges(*old(g)).push((a as int, b as int, weight@)),
{
    g.add_edge(petgraph::graph::NodeIndex::new(a), petgraph::graph::NodeIndex::new(b), weight);
}

/// Formats `petgraph::dot::Dot::new` of the graph with `{}`. The text lists
/// the nodes and then the edges in index order, so it depends on nothing but
/// what [`graph_nodes`] and [`graph_edges`] name.
#[verifier::external_body]
fn graph_dot(g: &petgraph::graph::Graph<String, String, petgraph::Directed, u32>) -> (text: String)
    ensures
        text@ == dot_text(graph_nodes(*g), graph_edges(*g)),
{
    format!("{}", petgraph::dot::Dot::new(g))
}

/// The most nodes, and the most edges, that a graph with 32-bit indices
/// holds.
pub const GRAPH_LIMIT: usize = 0xFFFF_FFFF;

/// The index of the node called `name`: that of the first node of that
/// name, and the number of nodes if there is none.
pub open spec fn node_index(nodes: Seq<Seq<char>>, name: Seq<char>) -> int {
    first_index(nodes, is_name(name))
}

/// The test that a node's name is `name`.
pub open spec fn is_name(name: Seq<char>) -> spec_fn(Seq<char>) -> bool {
    |n: Seq<char>| n == name
}

/// The graph edge that stands for a link among the given nodes.
pub open spec fn graph_edge_of(nodes: Seq<Seq<char>>, link: LinkView) -> (int, int, Seq<char>) {
    (node_index(nodes, link.from), node_index(nodes, link.to), link.label)
}

/// The graph edges that stand for the edges of a lineage.
pub open spec fn graph_edges_of(lineage: LineageView) -> Seq<(int, int, Seq<char>)> {
    lineage.edges.map_values(|l: LinkView| graph_edge_of(lineage.nodes, l))
}

impl LineageView {
    /// Whether both ends of every edge are nodes.
    pub open spec fn closed(self) -> bool {
        forall|k: int|
            0 <= k < self.edges.len() ==> node_index(self.nodes, (#[trigger] self.edges[k]).from)
                < self.nodes.len() && node_index(self.nodes, self.edges[k].to) < self.nodes.len()
    }

    /// Whether a graph with 32-bit indices holds the nodes and the edges.
    pub open spec fn fits(self) -> bool {
        self.nodes.len() <= GRAPH_LIMIT && self.edges.len() <= GRAPH_LIMIT
    }
}

/// The index of the first node called `name`, if there is one.
pub fn find_node(nodes: &Vec<String>, name: &str) -> (r: Option<usize>)
    ensures
        match r {
            Some(i) => i < nodes.len() && i == node_index(nodes.deep_view(), name@),
            None => node_index(nodes.deep_view(), name@) == nodes.len(),
        },
{
    let ghost named = is_name(name@);
    let mut i: usize = 0;
    while i < nodes.len()
        invariant
            i <= nodes.len(),
            named == is_name(name@),
            forall|k: int| 0 <= k < i ==> !named(#[trigger] nodes.deep_view()[k]),
        decreases nodes.len() - i,
    {
        if str_eq(nodes[i].as_str(), name) {
            proof {
                assert(named(nodes.deep_view()[i as int]));
                lemma_first_index_is(nodes.deep_view(), named, i as int);
            }
            return Some(i);
        }
        assert(!named(nodes.deep_view()[i as int]));
        i = i + 1;
    }
    proof {
        lemma_first_index_is(nodes.deep_view(), named, i as int);
    }
    None
}

impl Lineage {
    /// The lineage as a directed graph: one node per name, weighted with the
    /// name, and one edge per link, weighted with the label, both in the
    /// lineage's order. There is no graph for a lineage with an edge that
    /// ends in no node, nor for one with more nodes or edges than 32-bit
    /// indices tell apart.
    pub fn to_graph(&self) -> (r: Option<
        petgraph::graph::Graph<String, String, petgraph::Directed, u32>,
    >)
        ensures
            r is Some <==> self@.closed() && self@.fits(),
            match r {
                Some(g) => graph_nodes(g) == self@.nodes && graph_edges(g) == graph_edges_of(self@),
                None => true,
            },
    {
        if self.nodes.len() > GRAPH_LIMIT || self.edges.len() > GRAPH_LIMIT {
            return None;
        }
        let mut g = graph_new();
        let mut i: usize = 0;
        assert(graph_nodes(g) =~= self@.nodes.take(0));
        while i < self.nodes.len()
            invariant
                i <= self.nodes.len(),
                self.nodes.len() <= GRAPH_LIMIT,
                graph_nodes(g) == self@.nodes.take(i as int),
                graph_edges(g) == Seq::<(int, int, Seq<char>)>::empty(),
            decreases self.nodes.len() - i,
        {
            let _ = graph_add_node(&mut g, self.nodes[i].clone());
            assert(graph_nodes(g) =~= self@.nodes.take(i as int + 1));
            i = i + 1;
        }
        assert(self@.nodes.take(i as int) =~= self@.nodes);
        let mut k: usize = 0;
        assert(graph_edges(g) =~= graph_edges_of(self@).take(0));
        while k < self.edges.len()
            invariant
                k <= self.edges.len(),
                self.edges.len() <= GRAPH_LIMIT,
                graph_nodes(g) == self@.nodes,
                graph_edges(g) == graph_edges_of(self@).take(k as int),
                forall|n: int|
                    0 <= n < k ==> node_index(self@.nodes, (#[trigger] self@.edges[n]).from)
                        < self@.nodes.len() && node_index(self@.nodes, self@.edges[n].to)
                        < self@.nodes.len(),
            decreases self.edges.len() - k,
        {
            let edge = &self.edges[k];
            assert(edge@ == self@.edges[k as int]);
            let from = find_node(&self.nodes, edge.from.as_str());
            let to = find_node(&self.nodes, edge.to.as_str());
            match (from, to) {
                (Some(a), Some(b)) => {
                    graph_add_edge(&mut g, a, b, edge.label.clone());
                    assert(graph_edges(g) =~= graph_edges_of(self@).take(k as int + 1));
                },
                _ => {
                    assert(!self@.closed());
                    return None;
                },
            }
            k = k + 1;
        }
        assert(graph_edges_of(self@).take(k as int) =~= graph_edges_of(self@));
        Some(g)
    }

    /// The lineage as text in the DOT language: that of its graph.
    pub fn to_dot(&self) -> (r: Option<String>)
        ensures
            r is Some <==> self@.closed() && self@.fits(),
            match r {
                Some(text) => text@ == dot_text(self@.nodes, graph_edges_of(self@)),
                None => true,
            },
    {
        match self.to_graph() {
            Some(g) => Some(graph_dot(&g)),
            None => None,
        }
    }
}

/// The names that a run of links mentions include both ends of each link.
pub proof fn lemma_node_names_hold_ends(links: Seq<LinkView>, j: int)
    requires
        0 <= j < links.len(),
    ensures
        node_names(links).contains(links[j].from),
        node_names(links).contains(links[j].to),
    decreases links.len(),
{
    let names = node_names(links);
    let before = node_names(links.drop_last());
    if j == links.len() - 1 {
        assert(names[names.len() - 2] == links[j].from);
        assert(names[names.len() - 1] == links[j].to);
    } else {
        lemma_node_names_hold_ends(links.drop_last(), j);
        let a = choose|a: int| 0 <= a < before.len() && before[a] == links[j].from;
        let b = choose|b: int| 0 <= b < before.len() && before[b] == links[j].to;
        assert(names[a] == links[j].from);
        assert(names[b] == links[j].to);
    }
}

/// A name that is among the nodes has an index among them.
pub proof fn lemma_node_found(all: Seq<Seq<char>>, wanted: Seq<char>)
    requires
        all.contains(wanted),
    ensures
        node_index(all, wanted) < all.len(),
{
    let a = choose|a: int| 0 <= a < all.len() && all[a] == wanted;
    lemma_first_index(all, is_name(wanted));
    assert(is_name(wanted)(all[a]));
}

/// Both ends of every edge of the lineage of a set of models are nodes of
/// it.
pub proof fn lemma_lineage_closed(models: Seq<SqlModelView>)
    ensures
        lineage_of(models).closed(),
{
    let links = all_links(models);
    let l = lineage_of(models);
    assert forall|k: int| 0 <= k < l.edges.len() implies node_index(
        l.nodes,
        (#[trigger] l.edges[k]).from,
    ) < l.nodes.len() && node_index(l.nodes, l.edges[k].to) < l.nodes.len() by {
        lemma_last_link_labels(links, k);
        let j = choose|j: int|
            0 <= j < links.len() && #[trigger] links[j] == merged(links)[k] && forall|n: int|
                j < n < links.len() ==> !same_ends(#[trigger] links[n], merged(links)[k]);
        lemma_node_names_hold_ends(links, j);
        lemma_distinct_contains(node_names(links), links[j].from);
        lemma_distinct_contains(node_names(links), links[j].to);
        lemma_node_found(l.nodes, l.edges[k].from);
        lemma_node_found(l.nodes, l.edges[k].to);
    }
}

impl SqlModels {
    /// The lineage of the models as a directed graph: one node per table or
    /// model, weighted with its name, and one edge per linked pair, weighted
    /// with its label. There is no graph only where the lineage has more
    /// nodes or edges than 32-bit indices tell apart.
    pub fn to_graph(&self) -> (r: Option<
        petgraph::graph::Graph<String, String, petgraph::Directed, u32>,
    >)
        requires
            self.well_formed(),
        ensures
            r is Some <==> lineage_of(self@).fits(),
            match r {
                Some(g) => graph_nodes(g) == lineage_of(self@).nodes && graph_edges(g)
                    == graph_edges_of(lineage_of(self@)),
                None => true,
            },
    {
        proof {
            lemma_lineage_closed(self@);
        }
        self.lineage().to_graph()
    }

    /// The lineage of the models as text in the DOT language.
    pub fn to_dot(&self) -> (r: Option<String>)
        requires
            self.well_formed(),
        ensures
            r is Some <==> lineage_of(self@).fits(),
            match r {
                Some(text) => text@ == dot_text(
                    lineage_of(self@).nodes,
                    graph_edges_of(lineage_of(self@)),
                ),
                None => true,
            },
    {
        proof {
            lemma_lineage_closed(self@);
        }
        self.lineage().to_dot()
    }
}

} // verus!
