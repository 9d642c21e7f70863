//! The graph model: vertices, edges, components, and McCabe's metric
//! `M = E - N + 2P` on them.
use std::collections::HashSet;
use vstd::prelude::*;
use vstd::std_specs::convert::FromSpecImpl;

verus! {

/// A vertex: the identity of a piece of syntax.
pub type Node = u64;

/// A directed edge from a piece of syntax to one that it contains.
#[derive(Debug, Clone, Copy, PartialEq, Eq, Structural)]
pub struct Edge {
    pub from: Node,
    pub to: Node,
}

impl From<(Node, Node)> for Edge {
    fn from(t: (Node, Node)) -> (e: Edge) {
        Edge { from: t.0, to: t.1 }
    }
}

impl FromSpecImpl<(Node, Node)> for Edge {
    open spec fn obeys_from_spec() -> bool {
        true
    }

    open spec fn from_spec(t: (Node, Node)) -> Edge {
        Edge { from: t.0, to: t.1 }
    }
}

/// What a graph is, mathematically: the edges in the order in which they were
/// added (the same pair may occur more than once), the set of vertices, and
/// the number of components.
pub struct GraphView {
    pub edges: Seq<Edge>,
    pub vertices: Set<Node>,
    pub components: nat,
}

impl GraphView {
    /// The graph with nothing in it.
    pub open spec fn empty() -> GraphView {
        GraphView { edges: Seq::empty(), vertices: Set::empty(), components: 0 }
    }

    pub open spec fn add_edge(self, parent: Node, child: Node) -> GraphView {
        GraphView { edges: self.edges.push(Edge { from: parent, to: child }), ..self }
    }

    pub open spec fn register_vertex(self, id: Node) -> GraphView {
        GraphView { vertices: self.vertices.insert(id), ..self }
    }

    pub open spec fn add_component(self) -> GraphView {
        GraphView { components: self.components + 1, ..self }
    }

    pub open spec fn edge_count(self) -> nat {
        self.edges.len()
    }

    pub open spec fn node_count(self) -> nat {
        self.vertices.len()
    }

    /// McCabe's metric by Euler's formula. It is negative where the graph
    /// has more vertices than edges and twice its components together.
    pub open spec fn complexity(self) -> int {
        self.edge_count() - self.node_count() + 2 * self.components
    }

    /// Every edge joins two vertices of the graph.
    pub open spec fn closed(self) -> bool {
        forall|i: int|
            0 <= i < self.edges.len() ==> self.vertices.contains((#[trigger] self.edges[i]).from)
                && self.vertices.contains(self.edges[i].to)
    }
}

/// The vertices that the first `n` of the edges touch.
pub open spec fn endpoints(edges: Seq<Edge>, n: nat) -> Set<Node>
    decreases n,
{
    if n == 0 || n > edges.len() {
        Set::empty()
    } else {
        endpoints(edges, (n - 1) as nat).insert(edges[n - 1].from).insert(edges[n - 1].to)
    }
}

/// The vertices that one of the first `n` of the edges leaves.
pub open spec fn sources(edges: Seq<Edge>, n: nat) -> Set<Node>
    decreases n,
{
    if n == 0 || n > edges.len() {
        Set::empty()
    } else {
        sources(edges, (n - 1) as nat).insert(edges[n - 1].from)
    }
}

/// The vertices that the edges touch and that none of them leaves: where
/// the graph ends.
pub open spec fn exits(edges: Seq<Edge>) -> Set<Node> {
    endpoints(edges, edges.len()).difference(sources(edges, edges.len()))
}

/// A graph without edges ends nowhere.
pub proof fn law_no_edge_no_exit(edges: Seq<Edge>)
    requires
        edges.len() == 0,
    ensures
        exits(edges) == Set::<Node>::empty(),
        exits(edges).len() == 0,
{
    assert(exits(edges) =~= Set::<Node>::empty());
}

/// A graph ends at no more vertices than it has.
pub proof fn law_exits_are_vertices(edges: Seq<Edge>)
    ensures
        exits(edges).subset_of(endpoints(edges, edges.len())),
        endpoints(edges, edges.len()).finite(),
        exits(edges).len() <= endpoints(edges, edges.len()).len(),
{
    lemma_endpoints_finite(edges, edges.len());
    vstd::set_lib::lemma_len_subset(exits(edges), endpoints(edges, edges.len()));
}

proof fn lemma_endpoints_finite(edges: Seq<Edge>, n: nat)
    ensures
        endpoints(edges, n).finite(),
    decreases n,
{
    if 0 < n <= edges.len() {
        lemma_endpoints_finite(edges, (n - 1) as nat);
    }
}

/// A directed multigraph with a count of its components.
///
/// A walk over a file counts one component for each top-level item. A graph
/// that is given by its edges alone counts one for each vertex at which it
/// ends; for a file whose items hold nothing that is walked, these are its
/// top-level items.
#[derive(Debug)]
pub struct Graph {
    pub edges: Vec<Edge>,
    pub vertices: HashSet<Node>,
    pub components: usize,
}

impl View for Graph {
    type V = GraphView;

    open spec fn view(&self) -> GraphView {
        GraphView {
            edges: self.edges@,
            vertices: self.vertices@,
            components: self.components as nat,
        }
    }
}

impl Graph {
    /// The graph of the given edges: its vertices are the endpoints of the
    /// edges, and its components are counted by the vertices that no edge
    /// leaves.
    pub fn new(edges: Vec<Edge>) -> (g: Graph)
        ensures
            g@.edges == edges@,
            g@.vertices == endpoints(edges@, edges@.len()),
            g@.components == exits(edges@).len(),
            g@.closed(),
    {
        let mut vertices: HashSet<Node> = HashSet::new();
        let mut ends: HashSet<Node> = HashSet::new();
        let mut i: usize = 0;
        while i < edges.len()
            invariant
                i <= edges.len(),
                vertices@ == endpoints(edges@, i as nat),
                ends@ == endpoints(edges@, i as nat),
                forall|j: int|
                    0 <= j < i ==> vertices@.contains((#[trigger] edges@[j]).from)
                        && vertices@.contains(edges@[j].to),
            decreases edges.len() - i,
        {
            let e: Edge = edges[i];
            vertices.insert(e.from);
            vertices.insert(e.to);
            ends.insert(e.from);
            ends.insert(e.to);
            i += 1;
        }
        let mut j: usize = 0;
        while j < edges.len()
            invariant
                j <= edges.len(),
                ends@ == endpoints(edges@, edges@.len()).difference(sources(edges@, j as nat)),
            decreases edges.len() - j,
        {
            let e: Edge = edges[j];
            ends.remove(&e.from);
            assert(ends@ =~= endpoints(edges@, edges@.len()).difference(
                sources(edges@, (j + 1) as nat),
            ));
            j += 1;
        }
        let components: usize = ends.len();
        Graph { edges, vertices, components }
    }

    /// Appends the edge from `parent` to `child`. The same edge may be added
    /// any number of times, and each time counts.
    pub fn add_edge(&mut self, parent: Node, child: Node)
        ensures
            final(self)@ == old(self)@.add_edge(parent, child),
    {
        self.edges.push(Edge { from: parent, to: child });
    }

    /// Puts `id` among the vertices and says whether it was absent before.
    pub fn register_vertex(&mut self, id: Node) -> (is_new: bool)
        ensures
            is_new == !old(self)@.vertices.contains(id),
            final(self)@ == old(self)@.register_vertex(id),
    {
        self.vertices.insert(id)
    }

    /// Counts one more component.
    pub fn add_component(&mut self)
        requires
            old(self).components < usize::MAX,
        ensures
            final(self)@ == old(self)@.add_component(),
    {
        self.components = self.components + 1;
    }

    pub fn edge_count(&self) -> (n: usize)
        ensures
            n == self@.edge_count(),
    {
        self.edges.len()
    }

    pub fn node_count(&self) -> (n: usize)
        ensures
            n == self@.node_count(),
    {
        self.vertices.len()
    }

    pub fn connected_components(&self) -> (n: usize)
        ensures
            n == self@.components,
    {
        self.components
    }

    /// McCabe's metric of the graph: edges, less vertices, plus twice the
    /// components. The result is wide enough for every graph.
    pub fn calculate_complexity(&self) -> (m: i128)
        ensures
            m == self@.complexity(),
    {
        let e: i128 = self.edges.len() as i128;
        let n: i128 = self.vertices.len() as i128;
        let p: i128 = self.components as i128;
        e - n + 2 * p
    }
}

/// Something that turns a file, given by name, into its graph.
pub trait Parser {
    fn parse(&mut self, file: String) -> Graph;
}

/// The complexity of the graph that `parser` makes of `file`: of a graph
/// that `parse` may return for this parser and this file.
pub fn calculate<T: Parser>(file: String, mut parser: T) -> (m: i128)
    ensures
        exists|p: &mut T, g: Graph|
            *p == parser && call_ensures(T::parse, (p, file), g) && m == g@.complexity(),
{
    let graph: Graph = parser.parse(file);
    graph.calculate_complexity()
}

} // verus!
