//! Interaction graph: an undirected graph whose nodes carry collision-object
//! handles and whose edges carry contact or proximity interactions.
//!
//! The index structure is petgraph's `Graph`, held behind trusted wrappers.
//! Its contents are modelled by two names: the sequence of node weights (one
//! per node index) and the sequence of edges (stored endpoints and weight,
//! one per edge index).  Node and edge removal swap the last element into the
//! vacated index, exactly as petgraph documents.

use vstd::prelude::*;
use petgraph::visit::EdgeRef;
use crate::dispatcher::ContactAlgorithm;
use crate::kernels::Proximity;
use crate::manifold::{is_first_max_depth, ContactManifold};
use crate::proximity::ProximityAlgorithm;

verus! {

#[verifier::external_type_specification]
#[verifier::external_body]
#[verifier::reject_recursive_types(N)]
#[verifier::reject_recursive_types(E)]
#[verifier::reject_recursive_types(Ty)]
#[verifier::reject_recursive_types(Ix)]
pub struct ExGraph<N, E, Ty, Ix>(petgraph::graph::Graph<N, E, Ty, Ix>);

#[verifier::external_type_specification]
#[verifier::external_body]
pub struct ExUndirected(petgraph::Undirected);

/// The index structure: node weights are collision-object handles, edge
/// weights are slots into the interaction slab kept beside the graph.
pub type PipeGraph = petgraph::graph::Graph<u64, u64, petgraph::Undirected, usize>;

/// The node weights of the graph, one entry per node index.
pub uninterp spec fn graph_nodes(g: PipeGraph) -> Seq<u64>;

/// The edges of the graph, one entry per edge index: stored source node
/// index, stored target node index, and edge weight.
pub uninterp spec fn graph_edges(g: PipeGraph) -> Seq<(int, int, u64)>;

/// The edge joins node indices `a` and `b`, in either orientation.
pub open spec fn connects(e: (int, int, u64), a: int, b: int) -> bool {
    (e.0 == a && e.1 == b) || (e.0 == b && e.1 == a)
}

/// One of the edge's endpoints is `a`.
pub open spec fn incident(e: (int, int, u64), a: int) -> bool {
    e.0 == a || e.1 == a
}

/// The endpoint of `e` that is not `a` (for an edge incident to `a`).
pub open spec fn other_endpoint(e: (int, int, u64), a: int) -> int {
    if e.0 == a {
        e.1
    } else {
        e.0
    }
}

/// The sequence with index `i` vacated by moving the last element into it.
pub open spec fn swap_removed<A>(s: Seq<A>, i: int) -> Seq<A> {
    s.update(i, s.last()).drop_last()
}

/// Endpoints equal to `from` renamed to `to`.
pub open spec fn rename_node(e: (int, int, u64), from: int, to: int) -> (int, int, u64) {
    (
        if e.0 == from {
            to
        } else {
            e.0
        },
        if e.1 == from {
            to
        } else {
            e.1
        },
        e.2,
    )
}

/// Relies on petgraph's `Graph::with_capacity`: a graph with no nodes and no
/// edges.
#[verifier::external_body]
pub fn pg_new() -> (g: PipeGraph)
    ensures
        graph_nodes(g) == Seq::<u64>::empty(),
        graph_edges(g) == Seq::<(int, int, u64)>::empty(),
{
    petgraph::graph::Graph::with_capacity(10, 10)
}

/// Relies on petgraph's `Graph::node_count`.
#[verifier::external_body]
pub fn pg_node_count(g: &PipeGraph) -> (n: usize)
    ensures
        n == graph_nodes(*g).len(),
{
    g.node_count()
}

/// Relies on petgraph's `Graph::add_node`: the weight is appended at the
/// next node index.  With a `usize` index type the call never fails.
#[verifier::external_body]
pub fn pg_add_node(g: &mut PipeGraph, w: u64) -> (i: usize)
    ensures
        i == graph_nodes(*old(g)).len(),
        graph_nodes(*final(g)) == graph_nodes(*old(g)).push(w),
        graph_edges(*final(g)) == graph_edges(*old(g)),
{
    g.add_node(w).index()
}

/// Relies on petgraph's `Graph::node_weight`.
#[verifier::external_body]
pub fn pg_node_weight(g: &PipeGraph, i: usize) -> (r: Option<u64>)
    ensures
        r == if i < graph_nodes(*g).len() {
            Some(graph_nodes(*g)[i as int])
        } else {
            None::<u64>
        },
{
    g.node_weight(petgraph::graph::NodeIndex::new(i)).copied()
}

/// Relies on petgraph's `Graph::update_edge`: if an edge already joins the
/// two nodes (in either orientation, the graph being undirected) its weight
/// is replaced, otherwise a new edge is appended.
#[verifier::external_body]
pub fn pg_update_edge(g: &mut PipeGraph, a: usize, b: usize, w: u64)
    requires
        a < graph_nodes(*old(g)).len(),
        b < graph_nodes(*old(g)).len(),
    ensures
        graph_nodes(*final(g)) == graph_nodes(*old(g)),
        (exists|j: int|
            0 <= j < graph_edges(*old(g)).len() && connects(
                graph_edges(*old(g))[j],
                a as int,
                b as int,
            )) ==> exists|j: int|
            0 <= j < graph_edges(*old(g)).len() && connects(
                graph_edges(*old(g))[j],
                a as int,
                b as int,
            ) && graph_edges(*final(g)) == graph_edges(*old(g)).update(
                j,
                (graph_edges(*old(g))[j].0, graph_edges(*old(g))[j].1, w),
            ),
        !(exists|j: int|
            0 <= j < graph_edges(*old(g)).len() && connects(
                graph_edges(*old(g))[j],
                a as int,
                b as int,
            )) ==> graph_edges(*final(g)) == graph_edges(*old(g)).push((a as int, b as int, w)),
{
    let _ = g.update_edge(
        petgraph::graph::NodeIndex::new(a),
        petgraph::graph::NodeIndex::new(b),
        w,
    );
}

/// Relies on petgraph's `Graph::find_edge`: finds an edge joining the two
/// nodes in either orientation, or `None` when no such edge exists.
#[verifier::external_body]
pub fn pg_find_edge(g: &PipeGraph, a: usize, b: usize) -> (r: Option<usize>)
    ensures
        r.is_none() ==> forall|j: int|
            0 <= j < graph_edges(*g).len() ==> !connects(graph_edges(*g)[j], a as int, b as int),
        r.is_some() ==> r.unwrap() < graph_edges(*g).len() && connects(
            graph_edges(*g)[r.unwrap() as int],
            a as int,
            b as int,
        ),
{
    g.find_edge(petgraph::graph::NodeIndex::new(a), petgraph::graph::NodeIndex::new(b)).map(|e|
        e.index(),
    )
}

/// Relies on petgraph's `Graph::edge_weight`.
#[verifier::external_body]
pub fn pg_edge_weight(g: &PipeGraph, e: usize) -> (r: Option<u64>)
    ensures
        r == if e < graph_edges(*g).len() {
            Some(graph_edges(*g)[e as int].2)
        } else {
            None::<u64>
        },
{
    g.edge_weight(petgraph::graph::EdgeIndex::new(e)).copied()
}

/// Relies on petgraph's `Graph::remove_edge`: the edge's weight is returned
/// and the last edge index is swapped into its place.
#[verifier::external_body]
pub fn pg_remove_edge(g: &mut PipeGraph, e: usize) -> (r: Option<u64>)
    ensures
        graph_nodes(*final(g)) == graph_nodes(*old(g)),
        e < graph_edges(*old(g)).len() ==> r == Some(graph_edges(*old(g))[e as int].2)
            && graph_edges(*final(g)) == swap_removed(graph_edges(*old(g)), e as int),
        e >= graph_edges(*old(g)).len() ==> r.is_none() && graph_edges(*final(g)) == graph_edges(
            *old(g),
        ),
{
    g.remove_edge(petgraph::graph::EdgeIndex::new(e))
}

/// Relies on petgraph's `Graph::remove_node`: the node's weight is returned,
/// the last node index is swapped into its place, every incident edge is
/// removed, and surviving edges keep their stored orientation with the
/// swapped node renamed; their order is not specified.
#[verifier::external_body]
pub fn pg_remove_node(g: &mut PipeGraph, a: usize) -> (r: Option<u64>)
    ensures
        a < graph_nodes(*old(g)).len() ==> r == Some(graph_nodes(*old(g))[a as int])
            && graph_nodes(*final(g)) == swap_removed(graph_nodes(*old(g)), a as int)
            && graph_edges(*final(g)).to_multiset() == graph_edges(*old(g)).filter(
            |e: (int, int, u64)| !incident(e, a as int),
        ).map_values(
            |e: (int, int, u64)|
                rename_node(e, graph_nodes(*old(g)).len() - 1, a as int),
        ).to_multiset(),
        a >= graph_nodes(*old(g)).len() ==> r.is_none() && graph_nodes(*final(g)) == graph_nodes(
            *old(g),
        ) && graph_edges(*final(g)) == graph_edges(*old(g)),
{
    g.remove_node(petgraph::graph::NodeIndex::new(a))
}

/// Relies on petgraph's `Graph::edges`: every edge incident to the node,
/// each reported with the node itself as source; collected as
/// (other endpoint, weight).  A missing node yields an empty vector.
#[verifier::external_body]
pub fn pg_edges_of(g: &PipeGraph, a: usize) -> (r: Vec<(usize, u64)>)
    ensures
        r@.map_values(|p: (usize, u64)| (p.0 as int, p.1)).to_multiset() == graph_edges(
            *g,
        ).filter(|e: (int, int, u64)| incident(e, a as int)).map_values(
            |e: (int, int, u64)| (other_endpoint(e, a as int), e.2),
        ).to_multiset(),
{
    let mut out = Vec::new();
    for e in g.edges(petgraph::graph::NodeIndex::new(a)) {
        out.push((e.target().index(), *e.weight()));
    }
    out
}

/// Relies on petgraph's `Graph::edge_references`: all edges in edge-index
/// order, each as (stored source, stored target, weight).
#[verifier::external_body]
pub fn pg_edge_references(g: &PipeGraph) -> (r: Vec<(usize, usize, u64)>)
    ensures
        r@.len() == graph_edges(*g).len(),
        forall|j: int|
            0 <= j < r@.len() ==> r@[j].0 as int == graph_edges(*g)[j].0 && r@[j].1 as int
                == graph_edges(*g)[j].1 && r@[j].2 == graph_edges(*g)[j].2,
{
    let mut out = Vec::new();
    for e in g.edge_references() {
        out.push((e.source().index(), e.target().index(), *e.weight()));
    }
    out
}

/// An interaction between two collision objects: a potential contact with
/// its persistent manifold, or a proximity relation.
#[derive(Debug)]
pub enum Interaction {
    Contact(ContactAlgorithm, ContactManifold),
    Proximity(ProximityAlgorithm),
}

impl Interaction {
    /// Checks if this interaction is a potential contact interaction.
    pub fn is_contact(&self) -> (r: bool)
        ensures
            r == (*self matches Interaction::Contact(_, _)),
    {
        matches!(self, Interaction::Contact(_, _))
    }

    /// Checks if this interaction is a potential proximity interaction.
    pub fn is_proximity(&self) -> (r: bool)
        ensures
            r == (*self matches Interaction::Proximity(_)),
    {
        matches!(self, Interaction::Proximity(_))
    }
}

/// An interaction is effective when its contact manifold holds an actual
/// penetration, or its proximity status is intersecting.
pub open spec fn interaction_effective(i: Interaction) -> bool {
    match i {
        Interaction::Contact(_, m) => exists|s: int|
            is_first_max_depth(m.points@, s) && m.points@[s].contact.depth >= 0,
        Interaction::Proximity(alg) => alg.spec_proximity() == Proximity::Intersecting,
    }
}

/// Decides effectiveness of an interaction.
pub fn is_interaction_effective(i: &Interaction) -> (r: bool)
    ensures
        r == interaction_effective(*i),
{
    match i {
        Interaction::Contact(_, m) => {
            match m.deepest_contact() {
                Some(c) => {
                    proof {
                        if m.points@.len() > 0 {
                            lemma_first_max_exists(m.points@);
                        }
                    }
                    c.contact.depth >= 0
                },
                None => {
                    proof {
                        assert(forall|s: int| !is_first_max_depth(m.points@, s));
                    }
                    false
                },
            }
        },
        Interaction::Proximity(alg) => matches!(alg.current(), Proximity::Intersecting),
    }
}

/// A non-empty contact list has a first deepest entry.
pub proof fn lemma_first_max_exists(points: Seq<crate::manifold::TrackedContact>)
    requires
        points.len() > 0,
    ensures
        exists|s: int| is_first_max_depth(points, s),
    decreases points.len(),
{
    if points.len() == 1 {
        assert(is_first_max_depth(points, 0));
    } else {
        lemma_first_max_exists(points.drop_last());
        let s = choose|s: int| is_first_max_depth(points.drop_last(), s);
        assert(forall|j: int| 0 <= j < points.len() - 1 ==> points.drop_last()[j] == points[j]);
        if points.last().contact.depth > points[s].contact.depth {
            assert(is_first_max_depth(points, points.len() - 1));
        } else {
            assert(is_first_max_depth(points, s));
        }
    }
}

/// A graph where nodes are collision-object handles and edges carry
/// contact or proximity interactions.  The petgraph index structure holds
/// the handles and, as edge weights, slots into the interaction slab kept
/// beside it.
#[derive(Debug)]
pub struct InteractionGraph {
    pub graph: PipeGraph,
    pub interactions: Vec<Option<Interaction>>,
    pub free_slots: Vec<u64>,
}

/// The slot index of edge `j` is filled in the slab.
pub open spec fn edge_slot_valid(g: PipeGraph, slab: Seq<Option<Interaction>>, j: int) -> bool {
    0 <= graph_edges(g)[j].2 < slab.len() && slab[graph_edges(g)[j].2 as int].is_some()
}

impl InteractionGraph {
    /// Creates a new empty collection of collision objects.
    pub fn new() -> (r: InteractionGraph)
        ensures
            graph_nodes(r.graph) == Seq::<u64>::empty(),
            graph_edges(r.graph) == Seq::<(int, int, u64)>::empty(),
            r.interactions@.len() == 0,
            r.free_slots@.len() == 0,
    {
        InteractionGraph { graph: pg_new(), interactions: Vec::new(), free_slots: Vec::new() }
    }

    /// The raw underlying graph from the petgraph crate.
    pub fn raw_graph(&self) -> (r: &PipeGraph)
        ensures
            graph_nodes(*r) == graph_nodes(self.graph),
            graph_edges(*r) == graph_edges(self.graph),
    {
        &self.graph
    }

    /// Converts this interaction graph into the raw graph from the
    /// petgraph crate.
    pub fn into_inner(self) -> (r: PipeGraph)
        ensures
            graph_nodes(r) == graph_nodes(self.graph),
            graph_edges(r) == graph_edges(self.graph),
    {
        self.graph
    }

    /// Inserts a new collision object into this collection and returns the
    /// corresponding graph index.
    pub fn insert(&mut self, handle: u64) -> (idx: usize)
        ensures
            idx == graph_nodes(old(self).graph).len(),
            graph_nodes(final(self).graph) == graph_nodes(old(self).graph).push(handle),
            graph_edges(final(self).graph) == graph_edges(old(self).graph),
            final(self).interactions@ == old(self).interactions@,
            final(self).free_slots@ == old(self).free_slots@,
    {
        pg_add_node(&mut self.graph, handle)
    }

    /// Removes the collision object at the given graph index.  The last
    /// node index takes its place, and the handle now living at the
    /// removed index is returned so the caller can fix its bookkeeping;
    /// the interactions of every incident edge are discarded.
    pub fn remove(&mut self, id: usize) -> (moved: Option<u64>)
        ensures
            id < graph_nodes(old(self).graph).len() ==> graph_nodes(final(self).graph)
                == swap_removed(graph_nodes(old(self).graph), id as int),
            id < graph_nodes(old(self).graph).len() ==> graph_edges(
                final(self).graph,
            ).to_multiset() == graph_edges(old(self).graph).filter(
                |e: (int, int, u64)| !incident(e, id as int),
            ).map_values(
                |e: (int, int, u64)|
                    rename_node(e, graph_nodes(old(self).graph).len() - 1, id as int),
            ).to_multiset(),
            id >= graph_nodes(old(self).graph).len() ==> graph_nodes(final(self).graph)
                == graph_nodes(old(self).graph) && graph_edges(final(self).graph) == graph_edges(
                old(self).graph,
            ),
            moved == if id < graph_nodes(final(self).graph).len() {
                Some(graph_nodes(final(self).graph)[id as int])
            } else {
                None::<u64>
            },
            final(self).interactions@.len() == old(self).interactions@.len(),
            forall|w: int|
                0 <= w < final(self).interactions@.len() && (#[trigger] final(self).interactions@[w]).is_some() ==> old(self).interactions@[w].is_some(),
    {
        let incident_edges = pg_edges_of(&self.graph, id);
        let mut t: usize = 0;
        while t < incident_edges.len()
            invariant
                0 <= t <= incident_edges@.len(),
                graph_nodes(self.graph) == graph_nodes(old(self).graph),
                graph_edges(self.graph) == graph_edges(old(self).graph),
                self.interactions@.len() == old(self).interactions@.len(),
                forall|w: int|
                    0 <= w < self.interactions@.len() && (#[trigger] self.interactions@[w]).is_some()
                        ==> old(self).interactions@[w].is_some(),
            decreases incident_edges@.len() - t,
        {
            let w = incident_edges[t].1;
            if (w as usize) < self.interactions.len() {
                self.interactions[w as usize] = None;
                self.free_slots.push(w);
            }
            t = t + 1;
        }
        let _ = pg_remove_node(&mut self.graph, id);
        pg_node_weight(&self.graph, id)
    }

    /// Stores an interaction on the edge between two graph indices,
    /// creating the edge if the pair had none, and returns the slot the
    /// interaction lives in.
    pub fn insert_interaction(&mut self, id1: usize, id2: usize, inter: Interaction) -> (r: Option<
        u64,
    >)
        ensures
            graph_nodes(final(self).graph) == graph_nodes(old(self).graph),
            r.is_some() ==> id1 < graph_nodes(old(self).graph).len() && id2 < graph_nodes(
                old(self).graph,
            ).len() && id1 != id2,
            id1 < graph_nodes(old(self).graph).len() && id2 < graph_nodes(old(self).graph).len()
                && id1 != id2 && old(self).interactions@.len() < usize::MAX / 2 ==> r.is_some(),
            r.is_some() ==> (r.unwrap() as int) < final(self).interactions@.len() && final(self).interactions@[r.unwrap() as int] == Some(inter),
    {
        let count = pg_node_count(&self.graph);
        if !(id1 < count && id2 < count && id1 != id2) {
            return None;
        }
        let w: u64;
        let reuse = match self.free_slots.pop() {
            Some(c) => if c < self.interactions.len() as u64 {
                Some(c)
            } else {
                None
            },
            None => None,
        };
        match reuse {
            Some(c) => {
                self.interactions[c as usize] = Some(inter);
                w = c;
            },
            None => {
                if self.interactions.len() >= usize::MAX / 2 {
                    return None;
                }
                w = self.interactions.len() as u64;
                self.interactions.push(Some(inter));
            },
        }
        pg_update_edge(&mut self.graph, id1, id2, w);
        Some(w)
    }

    /// Removes and returns the interaction of the pair, if any: the
    /// connecting edge is removed, and the slot it pointed at is emptied
    /// and recycled.
    pub fn remove_interaction(&mut self, id1: usize, id2: usize) -> (r: Option<Interaction>)
        ensures
            graph_nodes(final(self).graph) == graph_nodes(old(self).graph),
            (forall|j: int|
                0 <= j < graph_edges(old(self).graph).len() ==> !connects(
                    #[trigger] graph_edges(old(self).graph)[j],
                    id1 as int,
                    id2 as int,
                )) ==> r.is_none() && graph_edges(final(self).graph) == graph_edges(old(self).graph)
                && final(self).interactions@ == old(self).interactions@,
            (exists|j: int|
                0 <= j < graph_edges(old(self).graph).len() && connects(
                    #[trigger] graph_edges(old(self).graph)[j],
                    id1 as int,
                    id2 as int,
                )) ==> exists|j: int|
                #![trigger graph_edges(old(self).graph)[j]]
                0 <= j < graph_edges(old(self).graph).len() && connects(
                    graph_edges(old(self).graph)[j],
                    id1 as int,
                    id2 as int,
                ) && graph_edges(final(self).graph) == swap_removed(
                    graph_edges(old(self).graph),
                    j,
                ) && ((0 <= graph_edges(old(self).graph)[j].2 < old(self).interactions@.len()
                    && old(self).interactions@[graph_edges(old(self).graph)[j].2 as int].is_some())
                    ==> r == Some(
                    old(self).interactions@[graph_edges(old(self).graph)[j].2 as int].unwrap(),
                ) && final(self).interactions@ == old(self).interactions@.update(
                    graph_edges(old(self).graph)[j].2 as int,
                    None,
                )) && (!(0 <= graph_edges(old(self).graph)[j].2 < old(self).interactions@.len()
                    && old(self).interactions@[graph_edges(old(self).graph)[j].2 as int].is_some())
                    ==> r.is_none() && final(self).interactions@ == old(self).interactions@),
    {
        let j = match pg_find_edge(&self.graph, id1, id2) {
            Some(j) => j,
            None => {
                return None;
            },
        };
        let w = match pg_edge_weight(&self.graph, j) {
            Some(w) => w,
            None => {
                proof {
                    assert(false);
                }
                return None;
            },
        };
        let _ = pg_remove_edge(&mut self.graph, j);
        if (w as u64) < self.interactions.len() as u64 {
            match &self.interactions[w as usize] {
                Some(_) => {
                    let mut taken: Option<Interaction> = None;
                    let slot = &mut self.interactions[w as usize];
                    std::mem::swap(&mut taken, slot);
                    self.free_slots.push(w);
                    taken
                },
                None => None,
            }
        } else {
            None
        }
    }

    /// The interaction stored in the given slot.
    pub fn interaction(&self, w: u64) -> (r: Option<&Interaction>)
        ensures
            r.is_some() == ((w as int) < self.interactions@.len() && self.interactions@[w as int].is_some()),
            r.is_some() ==> Some(*r.unwrap()) == self.interactions@[w as int],
    {
        if (w as u64) < self.interactions.len() as u64 {
            self.interactions[w as usize].as_ref()
        } else {
            None
        }
    }

    /// The interaction between the two collision objects at the given
    /// graph indices, as (handle, handle, slot): the handles are the node
    /// weights at the two indices.
    pub fn interaction_pair(&self, id1: usize, id2: usize, effective_only: bool) -> (r: Option<
        (u64, u64, u64),
    >)
        ensures
            r.is_some() ==> id1 < graph_nodes(self.graph).len() && id2 < graph_nodes(
                self.graph,
            ).len() && r.unwrap().0 == graph_nodes(self.graph)[id1 as int] && r.unwrap().1
                == graph_nodes(self.graph)[id2 as int],
            r.is_some() ==> exists|j: int|
                #![trigger graph_edges(self.graph)[j]]
                0 <= j < graph_edges(self.graph).len() && connects(
                    graph_edges(self.graph)[j],
                    id1 as int,
                    id2 as int,
                ) && edge_slot_valid(self.graph, self.interactions@, j) && graph_edges(
                    self.graph,
                )[j].2 == r.unwrap().2 && (!effective_only || interaction_effective(
                    self.interactions@[graph_edges(self.graph)[j].2 as int].unwrap(),
                )),
            r.is_none() ==> (forall|j: int|
                0 <= j < graph_edges(self.graph).len() ==> !connects(
                    #[trigger] graph_edges(self.graph)[j],
                    id1 as int,
                    id2 as int,
                )) || !(id1 < graph_nodes(self.graph).len() && id2 < graph_nodes(
                self.graph,
            ).len()) || (exists|j: int|
                #![trigger graph_edges(self.graph)[j]]
                0 <= j < graph_edges(self.graph).len() && connects(
                    graph_edges(self.graph)[j],
                    id1 as int,
                    id2 as int,
                ) && (!edge_slot_valid(self.graph, self.interactions@, j) || (effective_only
                    && !interaction_effective(
                    self.interactions@[graph_edges(self.graph)[j].2 as int].unwrap(),
                )))),
            // existence: the lookup succeeds when some edge connects the
            // pair and every such edge has a live, filter-passing slot
            id1 < graph_nodes(self.graph).len() && id2 < graph_nodes(self.graph).len() && (exists|
                j: int,
            |
                0 <= j < graph_edges(self.graph).len() && connects(
                    #[trigger] graph_edges(self.graph)[j],
                    id1 as int,
                    id2 as int,
                )) && (forall|j: int|
                0 <= j < graph_edges(self.graph).len() && connects(
                    #[trigger] graph_edges(self.graph)[j],
                    id1 as int,
                    id2 as int,
                ) ==> edge_slot_valid(self.graph, self.interactions@, j) && (!effective_only
                    || interaction_effective(
                    self.interactions@[graph_edges(self.graph)[j].2 as int].unwrap(),
                ))) ==> r.is_some(),
    {
        let j = match pg_find_edge(&self.graph, id1, id2) {
            Some(j) => j,
            None => {
                return None;
            },
        };
        let w = match pg_edge_weight(&self.graph, j) {
            Some(w) => w,
            None => {
                proof {
                    assert(false);
                }
                return None;
            },
        };
        let h1 = match pg_node_weight(&self.graph, id1) {
            Some(h) => h,
            None => {
                return None;
            },
        };
        let h2 = match pg_node_weight(&self.graph, id2) {
            Some(h) => h,
            None => {
                return None;
            },
        };
        if (w as u64) < self.interactions.len() as u64 {
            match &self.interactions[w as usize] {
                Some(inter) => {
                    if effective_only && !is_interaction_effective(inter) {
                        None
                    } else {
                        Some((h1, h2, w))
                    }
                },
                None => None,
            }
        } else {
            None
        }
    }

    /// The contact pair between the two collision objects: `Some` exactly
    /// when the pair lookup succeeds and the interaction is a contact.
    pub fn contact_pair(&self, id1: usize, id2: usize, effective_only: bool) -> (r: Option<
        (u64, u64, u64),
    >)
        ensures
            r.is_some() ==> (r.unwrap().2 as int) < self.interactions@.len()
                && self.interactions@[r.unwrap().2 as int].is_some()
                && (self.interactions@[r.unwrap().2 as int].unwrap() matches Interaction::Contact(
                _,
                _,
            )) && r.unwrap().0 == graph_nodes(self.graph)[id1 as int] && r.unwrap().1
                == graph_nodes(self.graph)[id2 as int],
            // existence: a connecting pair whose every edge holds a live,
            // filter-passing contact forces `Some`
            id1 < graph_nodes(self.graph).len() && id2 < graph_nodes(self.graph).len() && (exists|
                j: int,
            |
                0 <= j < graph_edges(self.graph).len() && connects(
                    #[trigger] graph_edges(self.graph)[j],
                    id1 as int,
                    id2 as int,
                )) && (forall|j: int|
                0 <= j < graph_edges(self.graph).len() && connects(
                    #[trigger] graph_edges(self.graph)[j],
                    id1 as int,
                    id2 as int,
                ) ==> edge_slot_valid(self.graph, self.interactions@, j)
                    && (self.interactions@[graph_edges(self.graph)[j].2 as int].unwrap() matches Interaction::Contact(
                    _,
                    _,
                )) && (!effective_only || interaction_effective(
                    self.interactions@[graph_edges(self.graph)[j].2 as int].unwrap(),
                ))) ==> r.is_some(),
    {
        let p = match self.interaction_pair(id1, id2, effective_only) {
            Some(p) => p,
            None => {
                return None;
            },
        };
        let inter = match self.interaction(p.2) {
            Some(inter) => inter,
            None => {
                return None;
            },
        };
        if inter.is_contact() {
            Some(p)
        } else {
            None
        }
    }

    /// The proximity pair between the two collision objects: `Some`
    /// exactly when the pair lookup succeeds and the interaction is a
    /// proximity.
    pub fn proximity_pair(&self, id1: usize, id2: usize, effective_only: bool) -> (r: Option<
        (u64, u64, u64),
    >)
        ensures
            r.is_some() ==> (r.unwrap().2 as int) < self.interactions@.len()
                && self.interactions@[r.unwrap().2 as int].is_some()
                && (self.interactions@[r.unwrap().2 as int].unwrap() matches Interaction::Proximity(
                _,
            )) && r.unwrap().0 == graph_nodes(self.graph)[id1 as int] && r.unwrap().1
                == graph_nodes(self.graph)[id2 as int],
            // existence: a connecting pair whose every edge holds a live,
            // filter-passing proximity forces `Some`
            id1 < graph_nodes(self.graph).len() && id2 < graph_nodes(self.graph).len() && (exists|
                j: int,
            |
                0 <= j < graph_edges(self.graph).len() && connects(
                    #[trigger] graph_edges(self.graph)[j],
                    id1 as int,
                    id2 as int,
                )) && (forall|j: int|
                0 <= j < graph_edges(self.graph).len() && connects(
                    #[trigger] graph_edges(self.graph)[j],
                    id1 as int,
                    id2 as int,
                ) ==> edge_slot_valid(self.graph, self.interactions@, j)
                    && (self.interactions@[graph_edges(self.graph)[j].2 as int].unwrap() matches Interaction::Proximity(
                    _,
                )) && (!effective_only || interaction_effective(
                    self.interactions@[graph_edges(self.graph)[j].2 as int].unwrap(),
                ))) ==> r.is_some(),
    {
        let p = match self.interaction_pair(id1, id2, effective_only) {
            Some(p) => p,
            None => {
                return None;
            },
        };
        let inter = match self.interaction(p.2) {
            Some(inter) => inter,
            None => {
                return None;
            },
        };
        if inter.is_proximity() {
            Some(p)
        } else {
            None
        }
    }
}

/// Whether the interaction has the asked-for kind: any, contact, or
/// proximity.
pub open spec fn kind_matches(i: Interaction, kind: int) -> bool {
    if kind == 1 {
        i is Contact
    } else if kind == 2 {
        i is Proximity
    } else {
        true
    }
}

/// What a pair iteration yields from the first `j` edges: one entry per
/// edge whose endpoints and slot are valid, whose interaction has the
/// asked-for kind and, when `eff` is set, is effective; entries are
/// (handle, handle, slot).
pub open spec fn listed_pairs(
    nodes: Seq<u64>,
    edges: Seq<(int, int, u64)>,
    slab: Seq<Option<Interaction>>,
    eff: bool,
    kind: int,
    j: int,
) -> Seq<(u64, u64, u64)>
    decreases j,
{
    if j <= 0 {
        Seq::empty()
    } else {
        let prev = listed_pairs(nodes, edges, slab, eff, kind, j - 1);
        let e = edges[j - 1];
        if 0 <= e.0 < nodes.len() && 0 <= e.1 < nodes.len() && 0 <= e.2 < slab.len() && slab[e.2 as int].is_some()
            && kind_matches(slab[e.2 as int].unwrap(), kind) && (!eff || interaction_effective(
            slab[e.2 as int].unwrap(),
        )) {
            prev.push((nodes[e.0], nodes[e.1], e.2))
        } else {
            prev
        }
    }
}

/// What an incident-interaction iteration yields from the first `j`
/// edges: one entry per edge incident to node `id` whose endpoints and
/// slot are valid, whose interaction has the asked-for kind and, when
/// `eff` is set, is effective; entries are (the node's handle, the other
/// endpoint's handle, slot).
pub open spec fn listed_incident(
    nodes: Seq<u64>,
    edges: Seq<(int, int, u64)>,
    slab: Seq<Option<Interaction>>,
    id: int,
    eff: bool,
    kind: int,
    j: int,
) -> Seq<(u64, u64, u64)>
    decreases j,
{
    if j <= 0 {
        Seq::empty()
    } else {
        let prev = listed_incident(nodes, edges, slab, id, eff, kind, j - 1);
        let e = edges[j - 1];
        if incident(e, id) && 0 <= e.0 < nodes.len() && 0 <= e.1 < nodes.len() && 0 <= id
            < nodes.len() && 0 <= e.2 < slab.len() && slab[e.2 as int].is_some() && kind_matches(
            slab[e.2 as int].unwrap(),
            kind,
        ) && (!eff || interaction_effective(slab[e.2 as int].unwrap())) {
            prev.push((nodes[id], nodes[other_endpoint(e, id)], e.2))
        } else {
            prev
        }
    }
}

impl InteractionGraph {
    /// All the interaction pairs on this graph, as (handle, handle,
    /// slot), in edge order.  With `effective_only` only the effective
    /// interactions are yielded.
    pub fn interaction_pairs(&self, effective_only: bool) -> (r: Vec<(u64, u64, u64)>)
        ensures
            r@ == listed_pairs(
                graph_nodes(self.graph),
                graph_edges(self.graph),
                self.interactions@,
                effective_only,
                0,
                graph_edges(self.graph).len() as int,
            ),
    {
        let refs = pg_edge_references(&self.graph);
        let count = pg_node_count(&self.graph);
        let mut out: Vec<(u64, u64, u64)> = Vec::new();
        let mut j: usize = 0;
        while j < refs.len()
            invariant
                refs@.len() == graph_edges(self.graph).len(),
                forall|t: int|
                    0 <= t < refs@.len() ==> (#[trigger] refs@[t]).0 as int == graph_edges(
                        self.graph,
                    )[t].0 && refs@[t].1 as int == graph_edges(self.graph)[t].1 && refs@[t].2
                        == graph_edges(self.graph)[t].2,
                count == graph_nodes(self.graph).len(),
                0 <= j <= refs@.len(),
                out@ == listed_pairs(
                    graph_nodes(self.graph),
                    graph_edges(self.graph),
                    self.interactions@,
                    effective_only,
                    0,
                    j as int,
                ),
            decreases refs@.len() - j,
        {
            let (sidx, tidx, w) = refs[j];
            if sidx < count && tidx < count && (w as u64) < self.interactions.len() as u64 {
                let h1 = match pg_node_weight(&self.graph, sidx) {
                    Some(h) => h,
                    None => {
                        proof {
                            assert(false);
                        }
                        return out;
                    },
                };
                let h2 = match pg_node_weight(&self.graph, tidx) {
                    Some(h) => h,
                    None => {
                        proof {
                            assert(false);
                        }
                        return out;
                    },
                };
                match &self.interactions[w as usize] {
                    Some(inter) => {
                        if true && (!effective_only || is_interaction_effective(inter)) {
                            out.push((h1, h2, w));
                        }
                    },
                    None => {
                    },
                }
            }
            j = j + 1;
        }
        out
    }

    /// All the contact pairs on this graph, as (handle, handle, slot),
    /// in edge order: exactly the interaction pairs whose interaction is
    /// a contact.
    pub fn contact_pairs(&self, effective_only: bool) -> (r: Vec<(u64, u64, u64)>)
        ensures
            r@ == listed_pairs(
                graph_nodes(self.graph),
                graph_edges(self.graph),
                self.interactions@,
                effective_only,
                1,
                graph_edges(self.graph).len() as int,
            ),
    {
        let refs = pg_edge_references(&self.graph);
        let count = pg_node_count(&self.graph);
        let mut out: Vec<(u64, u64, u64)> = Vec::new();
        let mut j: usize = 0;
        while j < refs.len()
            invariant
                refs@.len() == graph_edges(self.graph).len(),
                forall|t: int|
                    0 <= t < refs@.len() ==> (#[trigger] refs@[t]).0 as int == graph_edges(
                        self.graph,
                    )[t].0 && refs@[t].1 as int == graph_edges(self.graph)[t].1 && refs@[t].2
                        == graph_edges(self.graph)[t].2,
                count == graph_nodes(self.graph).len(),
                0 <= j <= refs@.len(),
                out@ == listed_pairs(
                    graph_nodes(self.graph),
                    graph_edges(self.graph),
                    self.interactions@,
                    effective_only,
                    1,
                    j as int,
                ),
            decreases refs@.len() - j,
        {
            let (sidx, tidx, w) = refs[j];
            if sidx < count && tidx < count && (w as u64) < self.interactions.len() as u64 {
                let h1 = match pg_node_weight(&self.graph, sidx) {
                    Some(h) => h,
                    None => {
                        proof {
                            assert(false);
                        }
                        return out;
                    },
                };
                let h2 = match pg_node_weight(&self.graph, tidx) {
                    Some(h) => h,
                    None => {
                        proof {
                            assert(false);
                        }
                        return out;
                    },
                };
                match &self.interactions[w as usize] {
                    Some(inter) => {
                        if inter.is_contact() && (!effective_only || is_interaction_effective(inter)) {
                            out.push((h1, h2, w));
                        }
                    },
                    None => {
                    },
                }
            }
            j = j + 1;
        }
        out
    }

    /// All the proximity pairs on this graph, as (handle, handle, slot),
    /// in edge order: exactly the interaction pairs whose interaction is
    /// a proximity.
    pub fn proximity_pairs(&self, effective_only: bool) -> (r: Vec<(u64, u64, u64)>)
        ensures
            r@ == listed_pairs(
                graph_nodes(self.graph),
                graph_edges(self.graph),
                self.interactions@,
                effective_only,
                2,
                graph_edges(self.graph).len() as int,
            ),
    {
        let refs = pg_edge_references(&self.graph);
        let count = pg_node_count(&self.graph);
        let mut out: Vec<(u64, u64, u64)> = Vec::new();
        let mut j: usize = 0;
        while j < refs.len()
            invariant
                refs@.len() == graph_edges(self.graph).len(),
                forall|t: int|
                    0 <= t < refs@.len() ==> (#[trigger] refs@[t]).0 as int == graph_edges(
                        self.graph,
                    )[t].0 && refs@[t].1 as int == graph_edges(self.graph)[t].1 && refs@[t].2
                        == graph_edges(self.graph)[t].2,
                count == graph_nodes(self.graph).len(),
                0 <= j <= refs@.len(),
                out@ == listed_pairs(
                    graph_nodes(self.graph),
                    graph_edges(self.graph),
                    self.interactions@,
                    effective_only,
                    2,
                    j as int,
                ),
            decreases refs@.len() - j,
        {
            let (sidx, tidx, w) = refs[j];
            if sidx < count && tidx < count && (w as u64) < self.interactions.len() as u64 {
                let h1 = match pg_node_weight(&self.graph, sidx) {
                    Some(h) => h,
                    None => {
                        proof {
                            assert(false);
                        }
                        return out;
                    },
                };
                let h2 = match pg_node_weight(&self.graph, tidx) {
                    Some(h) => h,
                    None => {
                        proof {
                            assert(false);
                        }
                        return out;
                    },
                };
                match &self.interactions[w as usize] {
                    Some(inter) => {
                        if inter.is_proximity() && (!effective_only || is_interaction_effective(inter)) {
                            out.push((h1, h2, w));
                        }
                    },
                    None => {
                    },
                }
            }
            j = j + 1;
        }
        out
    }

    /// All the interactions involving the collision object at the given
    /// graph index, as (its handle, the other handle, slot), in edge
    /// order.
    pub fn interactions_with(&self, id: usize, effective_only: bool) -> (r: Vec<(u64, u64, u64)>)
        ensures
            r@ == listed_incident(
                graph_nodes(self.graph),
                graph_edges(self.graph),
                self.interactions@,
                id as int,
                effective_only,
                0,
                graph_edges(self.graph).len() as int,
            ),
    {
        let refs = pg_edge_references(&self.graph);
        let count = pg_node_count(&self.graph);
        let mut out: Vec<(u64, u64, u64)> = Vec::new();
        let mut j: usize = 0;
        while j < refs.len()
            invariant
                refs@.len() == graph_edges(self.graph).len(),
                forall|t: int|
                    0 <= t < refs@.len() ==> (#[trigger] refs@[t]).0 as int == graph_edges(
                        self.graph,
                    )[t].0 && refs@[t].1 as int == graph_edges(self.graph)[t].1 && refs@[t].2
                        == graph_edges(self.graph)[t].2,
                count == graph_nodes(self.graph).len(),
                0 <= j <= refs@.len(),
                out@ == listed_incident(
                    graph_nodes(self.graph),
                    graph_edges(self.graph),
                    self.interactions@,
                    id as int,
                    effective_only,
                    0,
                    j as int,
                ),
            decreases refs@.len() - j,
        {
            let (sidx, tidx, w) = refs[j];
            let touches = sidx == id || tidx == id;
            if touches && sidx < count && tidx < count && (w as u64)
                < self.interactions.len() as u64 {
                let other = if sidx == id {
                    tidx
                } else {
                    sidx
                };
                let h1 = match pg_node_weight(&self.graph, id) {
                    Some(h) => h,
                    None => {
                        proof {
                            assert(false);
                        }
                        return out;
                    },
                };
                let h2 = match pg_node_weight(&self.graph, other) {
                    Some(h) => h,
                    None => {
                        proof {
                            assert(false);
                        }
                        return out;
                    },
                };
                match &self.interactions[w as usize] {
                    Some(inter) => {
                        if true && (!effective_only || is_interaction_effective(inter)) {
                            out.push((h1, h2, w));
                        }
                    },
                    None => {
                    },
                }
            }
            j = j + 1;
        }
        out
    }

    /// All the contact interactions involving the collision object at
    /// the given graph index, in edge order.
    pub fn contacts_with(&self, id: usize, effective_only: bool) -> (r: Vec<(u64, u64, u64)>)
        ensures
            r@ == listed_incident(
                graph_nodes(self.graph),
                graph_edges(self.graph),
                self.interactions@,
                id as int,
                effective_only,
                1,
                graph_edges(self.graph).len() as int,
            ),
    {
        let refs = pg_edge_references(&self.graph);
        let count = pg_node_count(&self.graph);
        let mut out: Vec<(u64, u64, u64)> = Vec::new();
        let mut j: usize = 0;
        while j < refs.len()
            invariant
                refs@.len() == graph_edges(self.graph).len(),
                forall|t: int|
                    0 <= t < refs@.len() ==> (#[trigger] refs@[t]).0 as int == graph_edges(
                        self.graph,
                    )[t].0 && refs@[t].1 as int == graph_edges(self.graph)[t].1 && refs@[t].2
                        == graph_edges(self.graph)[t].2,
                count == graph_nodes(self.graph).len(),
                0 <= j <= refs@.len(),
                out@ == listed_incident(
                    graph_nodes(self.graph),
                    graph_edges(self.graph),
                    self.interactions@,
                    id as int,
                    effective_only,
                    1,
                    j as int,
                ),
            decreases refs@.len() - j,
        {
            let (sidx, tidx, w) = refs[j];
            let touches = sidx == id || tidx == id;
            if touches && sidx < count && tidx < count && (w as u64)
                < self.interactions.len() as u64 {
                let other = if sidx == id {
                    tidx
                } else {
                    sidx
                };
                let h1 = match pg_node_weight(&self.graph, id) {
                    Some(h) => h,
                    None => {
                        proof {
                            assert(false);
                        }
                        return out;
                    },
                };
                let h2 = match pg_node_weight(&self.graph, other) {
                    Some(h) => h,
                    None => {
                        proof {
                            assert(false);
                        }
                        return out;
                    },
                };
                match &self.interactions[w as usize] {
                    Some(inter) => {
                        if inter.is_contact() && (!effective_only || is_interaction_effective(inter)) {
                            out.push((h1, h2, w));
                        }
                    },
                    None => {
                    },
                }
            }
            j = j + 1;
        }
        out
    }

    /// All the proximity interactions involving the collision object at
    /// the given graph index, in edge order.
    pub fn proximities_with(&self, id: usize, effective_only: bool) -> (r: Vec<(u64, u64, u64)>)
        ensures
            r@ == listed_incident(
                graph_nodes(self.graph),
                graph_edges(self.graph),
                self.interactions@,
                id as int,
                effective_only,
                2,
                graph_edges(self.graph).len() as int,
            ),
    {
        let refs = pg_edge_references(&self.graph);
        let count = pg_node_count(&self.graph);
        let mut out: Vec<(u64, u64, u64)> = Vec::new();
        let mut j: usize = 0;
        while j < refs.len()
            invariant
                refs@.len() == graph_edges(self.graph).len(),
                forall|t: int|
                    0 <= t < refs@.len() ==> (#[trigger] refs@[t]).0 as int == graph_edges(
                        self.graph,
                    )[t].0 && refs@[t].1 as int == graph_edges(self.graph)[t].1 && refs@[t].2
                        == graph_edges(self.graph)[t].2,
                count == graph_nodes(self.graph).len(),
                0 <= j <= refs@.len(),
                out@ == listed_incident(
                    graph_nodes(self.graph),
                    graph_edges(self.graph),
                    self.interactions@,
                    id as int,
                    effective_only,
                    2,
                    j as int,
                ),
            decreases refs@.len() - j,
        {
            let (sidx, tidx, w) = refs[j];
            let touches = sidx == id || tidx == id;
            if touches && sidx < count && tidx < count && (w as u64)
                < self.interactions.len() as u64 {
                let other = if sidx == id {
                    tidx
                } else {
                    sidx
                };
                let h1 = match pg_node_weight(&self.graph, id) {
                    Some(h) => h,
                    None => {
                        proof {
                            assert(false);
                        }
                        return out;
                    },
                };
                let h2 = match pg_node_weight(&self.graph, other) {
                    Some(h) => h,
                    None => {
                        proof {
                            assert(false);
                        }
                        return out;
                    },
                };
                match &self.interactions[w as usize] {
                    Some(inter) => {
                        if inter.is_proximity() && (!effective_only || is_interaction_effective(inter)) {
                            out.push((h1, h2, w));
                        }
                    },
                    None => {
                    },
                }
            }
            j = j + 1;
        }
        out
    }

    /// The handles of the collision objects effectively interacting with
    /// the object at the given graph index, in edge order.
    pub fn collision_objects_interacting_with(&self, id: usize) -> (r: Vec<u64>)
        ensures
            ({
                let listed = listed_incident(
                    graph_nodes(self.graph),
                    graph_edges(self.graph),
                    self.interactions@,
                    id as int,
                    true,
                    0,
                    graph_edges(self.graph).len() as int,
                );
                r@.len() == listed.len() && forall|t: int|
                    0 <= t < r@.len() ==> r@[t] == (#[trigger] listed[t]).1
            }),
    {
        let all = self.interactions_with(id, true);
        let mut out: Vec<u64> = Vec::new();
        let mut j: usize = 0;
        while j < all.len()
            invariant
                all@ == listed_incident(
                    graph_nodes(self.graph),
                    graph_edges(self.graph),
                    self.interactions@,
                    id as int,
                    true,
                    0,
                    graph_edges(self.graph).len() as int,
                ),
                0 <= j <= all@.len(),
                out@.len() == j,
                forall|t: int| 0 <= t < j ==> out@[t] == (#[trigger] all@[t]).1,
            decreases all@.len() - j,
        {
            out.push(all[j].1);
            j = j + 1;
        }
        out
    }

    /// The handles of the collision objects effectively in contact with
    /// the object at the given graph index, in edge order.
    pub fn collision_objects_in_contact_with(&self, id: usize) -> (r: Vec<u64>)
        ensures
            ({
                let listed = listed_incident(
                    graph_nodes(self.graph),
                    graph_edges(self.graph),
                    self.interactions@,
                    id as int,
                    true,
                    1,
                    graph_edges(self.graph).len() as int,
                );
                r@.len() == listed.len() && forall|t: int|
                    0 <= t < r@.len() ==> r@[t] == (#[trigger] listed[t]).1
            }),
    {
        let all = self.contacts_with(id, true);
        let mut out: Vec<u64> = Vec::new();
        let mut j: usize = 0;
        while j < all.len()
            invariant
                all@ == listed_incident(
                    graph_nodes(self.graph),
                    graph_edges(self.graph),
                    self.interactions@,
                    id as int,
                    true,
                    1,
                    graph_edges(self.graph).len() as int,
                ),
                0 <= j <= all@.len(),
                out@.len() == j,
                forall|t: int| 0 <= t < j ==> out@[t] == (#[trigger] all@[t]).1,
            decreases all@.len() - j,
        {
            out.push(all[j].1);
            j = j + 1;
        }
        out
    }

    /// The handles of the collision objects effectively in proximity of
    /// the object at the given graph index, in edge order.
    pub fn collision_objects_in_proximity_of(&self, id: usize) -> (r: Vec<u64>)
        ensures
            ({
                let listed = listed_incident(
                    graph_nodes(self.graph),
                    graph_edges(self.graph),
                    self.interactions@,
                    id as int,
                    true,
                    2,
                    graph_edges(self.graph).len() as int,
                );
                r@.len() == listed.len() && forall|t: int|
                    0 <= t < r@.len() ==> r@[t] == (#[trigger] listed[t]).1
            }),
    {
        let all = self.proximities_with(id, true);
        let mut out: Vec<u64> = Vec::new();
        let mut j: usize = 0;
        while j < all.len()
            invariant
                all@ == listed_incident(
                    graph_nodes(self.graph),
                    graph_edges(self.graph),
                    self.interactions@,
                    id as int,
                    true,
                    2,
                    graph_edges(self.graph).len() as int,
                ),
                0 <= j <= all@.len(),
                out@.len() == j,
                forall|t: int| 0 <= t < j ==> out@[t] == (#[trigger] all@[t]).1,
            decreases all@.len() - j,
        {
            out.push(all[j].1);
            j = j + 1;
        }
        out
    }

}

/// The effective-only iteration yields a subset of the unfiltered one:
/// every pair listed with the filter on is also listed with it off.
pub proof fn lemma_effective_filter_subset(
    nodes: Seq<u64>,
    edges: Seq<(int, int, u64)>,
    slab: Seq<Option<Interaction>>,
    kind: int,
    j: int,
)
    ensures
        forall|t: int|
            0 <= t < listed_pairs(nodes, edges, slab, true, kind, j).len() ==> listed_pairs(
                nodes,
                edges,
                slab,
                false,
                kind,
                j,
            ).contains(#[trigger] listed_pairs(nodes, edges, slab, true, kind, j)[t]),
    decreases j,
{
    if j > 0 {
        lemma_effective_filter_subset(nodes, edges, slab, kind, j - 1);
        let with = listed_pairs(nodes, edges, slab, true, kind, j);
        let without = listed_pairs(nodes, edges, slab, false, kind, j);
        let pw = listed_pairs(nodes, edges, slab, true, kind, j - 1);
        let po = listed_pairs(nodes, edges, slab, false, kind, j - 1);
        assert forall|t: int| 0 <= t < with.len() implies without.contains(with[t]) by {
            if t < pw.len() {
                assert(with[t] == pw[t]);
                assert(po.contains(pw[t]));
                let u = choose|u: int| 0 <= u < po.len() && po[u] == pw[t];
                assert(without[u] == po[u]);
            } else {
                assert(without[without.len() - 1] == with[t]);
            }
        }
    }
}

} // verus!
