//! The dependency graph: live nodes, the edges observers recorded on them, and the stack of
//! computations that are recording right now.
use vstd::prelude::*;

use crate::collections::{DependencyTable, DependentTable, IdSet, MetaTable, VersionMap};
use crate::diagnostics::NodeKind;
use crate::id::{Location, NodeId};

verus! {

/// What the graph knows of one live node.
#[derive(Clone, Copy, Debug)]
pub struct NodeMeta {
    /// How often the node's value has changed.
    pub version: u64,
    /// Where the node was created.
    pub origin: Location,
    /// The primitive the node was created as.
    pub kind: NodeKind,
}

/// The mathematical content of a [`Graph`].
#[verifier::ext_equal]
pub struct GraphModel {
    /// The raw id the next node receives.
    pub next_node: u64,
    /// The live nodes.
    pub nodes: Map<u64, NodeMeta>,
    /// The recorded dependencies: an (observer, observable) pair, with the version that the
    /// observer saw.
    pub edges: Map<(u64, u64), u64>,
    /// The computations in progress, outermost first.
    pub stack: Seq<u64>,
}

impl GraphModel {
    /// A graph with nothing in it.
    pub open spec fn empty() -> GraphModel {
        GraphModel {
            next_node: 1,
            nodes: Map::empty(),
            edges: Map::empty(),
            stack: Seq::empty(),
        }
    }

    /// The current version of a node; an unknown node has version zero.
    pub open spec fn version(self, node: u64) -> u64 {
        if self.nodes.contains_key(node) {
            self.nodes[node].version
        } else {
            0
        }
    }

    /// `observer` has an edge on `node`.
    pub open spec fn observes(self, observer: u64, node: u64) -> bool {
        self.edges.contains_key((observer, node))
    }

    /// The observers that recorded an edge on `node`.
    pub open spec fn observers(self, node: u64) -> Set<u64> {
        Set::new(|observer: u64| self.observes(observer, node))
    }

    /// What `observer` recorded: the nodes it read, with the versions it saw.
    pub open spec fn inputs(self, observer: u64) -> Map<u64, u64> {
        Map::new(
            |node: u64| self.observes(observer, node),
            |node: u64| self.edges[(observer, node)],
        )
    }

    /// The nodes with at least one observer.
    pub open spec fn observed(self) -> Set<u64> {
        self.edges.dom().map(|edge: (u64, u64)| edge.1)
    }

    /// The live nodes that were created as `kind`.
    pub open spec fn of_kind(self, kind: NodeKind) -> Set<u64> {
        self.nodes.dom().filter(|node: u64| self.nodes[node].kind == kind)
    }

    /// After allocating a node.
    pub open spec fn allocated(self, kind: NodeKind, origin: Location) -> GraphModel {
        GraphModel {
            next_node: (self.next_node + 1) as u64,
            nodes: self.nodes.insert(self.next_node, NodeMeta { version: 0, origin, kind }),
            ..self
        }
    }

    /// After the value of `node` changed. Versions wrap around.
    pub open spec fn bumped(self, node: u64) -> GraphModel {
        if self.nodes.contains_key(node) {
            let meta = self.nodes[node];
            let version = if meta.version == u64::MAX {
                0
            } else {
                (meta.version + 1) as u64
            };
            GraphModel { nodes: self.nodes.insert(node, NodeMeta { version, ..meta }), ..self }
        } else {
            self
        }
    }

    /// After `observer` read `node` at its current version.
    pub open spec fn observing(self, observer: u64, node: u64) -> GraphModel {
        GraphModel { edges: self.edges.insert((observer, node), self.version(node)), ..self }
    }

    /// After dropping every edge that `observer` recorded.
    pub open spec fn forgetting(self, observer: u64) -> GraphModel {
        GraphModel {
            edges: self.edges.restrict(
                self.edges.dom().filter(|edge: (u64, u64)| edge.0 != observer),
            ),
            ..self
        }
    }

    /// After dropping every edge on `node`.
    pub open spec fn unobserving(self, node: u64) -> GraphModel {
        GraphModel {
            edges: self.edges.restrict(self.edges.dom().filter(|edge: (u64, u64)| edge.1 != node)),
            ..self
        }
    }

    /// After taking `node` out of the live nodes.
    pub open spec fn without_node(self, node: u64) -> GraphModel {
        GraphModel { nodes: self.nodes.remove(node), ..self }
    }

    /// After starting the computation of `observer`.
    pub open spec fn entered(self, observer: u64) -> GraphModel {
        GraphModel { stack: self.stack.push(observer), ..self }
    }

    /// After the innermost computation ended.
    pub open spec fn left(self) -> GraphModel {
        if self.stack.len() > 0 {
            GraphModel { stack: self.stack.drop_last(), ..self }
        } else {
            self
        }
    }

    /// `observer` is being computed somewhere up the stack.
    pub open spec fn active(self, observer: u64) -> bool {
        self.stack.contains(observer)
    }

    /// What every graph satisfies: finitely many edges and nodes, every live id handed out
    /// already, and no computation entered twice.
    pub open spec fn wf(self) -> bool {
        &&& self.edges.dom().finite()
        &&& self.nodes.dom().finite()
        &&& forall|node: u64| #[trigger] self.nodes.contains_key(node) ==> node < self.next_node
        &&& self.stack.no_duplicates()
    }
}

/// The dependency graph.
pub struct Graph {
    next_node: u64,
    meta: MetaTable,
    dependencies: DependencyTable,
    dependents: DependentTable,
    observed_nodes: usize,
    stack: Vec<u64>,
    active: IdSet,
}

/// The edges that a table of recorded dependencies holds.
spec fn edges_of(dependencies: Map<u64, Map<u64, u64>>) -> Map<(u64, u64), u64> {
    Map::new(
        |edge: (u64, u64)| dependencies.contains_key(edge.0) && dependencies[edge.0].contains_key(
            edge.1,
        ),
        |edge: (u64, u64)| dependencies[edge.0][edge.1],
    )
}

/// A table of observers lists exactly the reversed edges.
spec fn mirrors(edges: Map<(u64, u64), u64>, dependents: Map<u64, Set<u64>>) -> bool {
    forall|observer: u64, node: u64|
        #![trigger edges.contains_key((observer, node))]
        #![trigger dependents[node].contains(observer)]
        edges.contains_key((observer, node)) <==> dependents.contains_key(node)
            && dependents[node].contains(observer)
}

impl View for Graph {
    type V = GraphModel;

    closed spec fn view(&self) -> GraphModel {
        GraphModel {
            next_node: self.next_node,
            nodes: self.meta@,
            edges: edges_of(self.dependencies@),
            stack: self.stack@,
        }
    }
}

impl Graph {
    /// The tables agree with each other, the count of observed nodes is exact, and the set of
    /// active computations is the stack's.
    pub closed spec fn wf(&self) -> bool {
        &&& self@.wf()
        &&& mirrors(self@.edges, self.dependents@)
        &&& self.observed_nodes == self@.observed().len()
        &&& self.active@ == self.stack@.to_set()
    }

    /// Creates an empty graph.
    pub fn new() -> (graph: Self)
        ensures
            graph.wf(),
            graph@ == GraphModel::empty(),
    {
        let graph = Graph {
            next_node: 1,
            meta: MetaTable::new(),
            dependencies: DependencyTable::new(),
            dependents: DependentTable::new(),
            observed_nodes: 0,
            stack: Vec::new(),
            active: IdSet::new(),
        };
        assert(graph@.edges =~= Map::empty());
        assert(graph@.observed() =~= Set::empty());
        assert(graph.stack@.to_set() =~= Set::empty());
        graph
    }

    /// Allocates a node.
    pub fn allocate(&mut self, kind: NodeKind, origin: Location) -> (node: NodeId)
        requires
            old(self).wf(),
            old(self)@.next_node < u64::MAX,
        ensures
            final(self).wf(),
            final(self)@ == old(self)@.allocated(kind, origin),
            node.0 == old(self)@.next_node,
    {
        let raw: u64 = self.next_node;
        self.next_node = raw.wrapping_add(1);
        let _ = self.meta.insert(raw, NodeMeta { version: 0, origin, kind });
        assert(self@.edges =~= old(self)@.edges);
        NodeId::new(raw)
    }

    /// Returns what is known of a live node.
    pub fn node(&self, node: NodeId) -> (meta: Option<NodeMeta>)
        ensures
            meta == self@.nodes.get(node.0),
    {
        self.meta.get(node.0)
    }

    /// Returns the number of live nodes.
    pub fn live_nodes(&self) -> (count: usize)
        ensures
            count == self@.nodes.dom().len(),
    {
        self.meta.len()
    }

    /// Returns the number of nodes with at least one observer.
    pub fn observed_nodes(&self) -> (count: usize)
        requires
            self.wf(),
        ensures
            count == self@.observed().len(),
    {
        self.observed_nodes
    }

    /// Returns the current version of `node`, or zero if the node is unknown.
    pub fn version(&self, node: NodeId) -> (version: u64)
        ensures
            version == self@.version(node.0),
    {
        match self.meta.get(node.0) {
            Some(meta) => meta.version,
            None => 0,
        }
    }

    /// Increments the version of `node`, recording that its value changed.
    pub fn bump_version(&mut self, node: NodeId)
        requires
            old(self).wf(),
        ensures
            final(self).wf(),
            final(self)@ == old(self)@.bumped(node.0),
    {
        if let Some(meta) = self.meta.get(node.0) {
            let version: u64 = meta.version.wrapping_add(1);
            let _ = self.meta.insert(node.0, NodeMeta { version, ..meta });
            assert(self@.edges =~= old(self)@.edges);
            assert(self@.nodes =~= old(self)@.bumped(node.0).nodes);
        }
    }
}

/// A graph has no more observed nodes than edges.
proof fn observed_at_most_edges(graph: GraphModel)
    requires
        graph.edges.dom().finite(),
    ensures
        graph.observed().finite(),
        graph.observed().len() <= graph.edges.dom().len(),
{
    let target = |edge: (u64, u64)| edge.1;
    graph.edges.dom().lemma_map_finite(target);
    vstd::set_lib::lemma_map_size_bound(graph.edges.dom(), graph.observed(), target);
}

/// A node is observed exactly when some observer has an edge on it.
proof fn observed_iff(graph: GraphModel, node: u64)
    ensures
        graph.observed().contains(node) <==> exists|observer: u64| graph.observes(observer, node),
{
    let target = |edge: (u64, u64)| edge.1;
    if graph.observed().contains(node) {
        let edge = choose|edge: (u64, u64)| graph.edges.dom().contains(edge) && target(edge) == node;
        assert(graph.observes(edge.0, node));
    }
    if exists|observer: u64| graph.observes(observer, node) {
        let observer = choose|observer: u64| graph.observes(observer, node);
        assert(graph.edges.dom().contains((observer, node)));
        assert(target((observer, node)) == node);
    }
}

impl Graph {
    /// Records that `observer` read `node` at its current version. Returns whether the edge is
    /// new, and whether `node` had no observer before.
    pub fn observe(&mut self, observer: NodeId, node: NodeId) -> (outcome: (bool, bool))
        requires
            old(self).wf(),
            old(self)@.edges.dom().len() < usize::MAX,
        ensures
            final(self).wf(),
            final(self)@ == old(self)@.observing(observer.0, node.0),
            outcome.0 == !old(self)@.observes(observer.0, node.0),
            outcome.1 == !old(self)@.observed().contains(node.0),
    {
        let ghost before = self@;
        let ghost reversed = self.dependents@;
        proof {
            observed_at_most_edges(before);
            observed_iff(before, node.0);
        }
        let version: u64 = self.version(node);
        let mut inputs = match self.dependencies.remove(observer.0) {
            Some(inputs) => inputs,
            None => VersionMap::new(),
        };
        let existing = inputs.insert(node.0, version);
        self.dependencies.insert(observer.0, inputs);
        let mut observers = match self.dependents.remove(node.0) {
            Some(observers) => observers,
            None => IdSet::new(),
        };
        let was_unobserved = observers.is_empty();
        let ghost listed = observers@;
        let _ = observers.insert(observer.0);
        self.dependents.insert(node.0, observers);
        proof {
            assert(self@.edges =~= before.observing(observer.0, node.0).edges);
            assert forall|other: u64| #[trigger] listed.contains(other) <==> before.observes(
                other,
                node.0,
            ) by {
                assert(before.edges.contains_key((other, node.0)) <==> reversed.contains_key(node.0)
                    && reversed[node.0].contains(other));
            }
            if was_unobserved {
                assert(!before.observed().contains(node.0));
            } else {
                let other = choose|other: u64| listed.contains(other);
                assert(listed.contains(other)) by {
                    if forall|other: u64| !listed.contains(other) {
                        assert(listed =~= Set::empty());
                    }
                }
                assert(before.observes(other, node.0));
            }
            assert forall|other: u64| self@.observed().contains(other) <==> before.observed().insert(
                node.0,
            ).contains(other) by {
                observed_iff(before, other);
                observed_iff(self@, other);
                if before.observed().contains(other) {
                    let o = choose|o: u64| before.observes(o, other);
                    assert(self@.observes(o, other));
                }
                if self@.observed().contains(other) && other != node.0 {
                    let o = choose|o: u64| self@.observes(o, other);
                    assert(before.observes(o, other));
                }
                assert(self@.observes(observer.0, node.0));
            }
            assert(self@.observed() =~= before.observed().insert(node.0));
        }
        if was_unobserved {
            self.observed_nodes = self.observed_nodes + 1;
        }
        (existing.is_none(), was_unobserved)
    }
}

/// A duplicate-free list of members of a finite set is no longer than the set.
proof fn list_within(list: Seq<u64>, set: Set<u64>)
    requires
        list.no_duplicates(),
        set.finite(),
        forall|node: u64| #[trigger] list.contains(node) ==> set.contains(node),
    ensures
        list.len() <= set.len(),
        set.difference(list.to_set()).finite(),
        set.difference(list.to_set()).len() == set.len() - list.len(),
{
    list.unique_seq_to_set();
    vstd::seq_lib::seq_to_set_is_finite(list);
    let members = list.to_set();
    let rest = set.difference(members);
    assert forall|node: u64| members.contains(node) implies set.contains(node) by {
        assert(list.contains(node));
    }
    vstd::set_lib::lemma_set_subset_finite(set, rest);
    vstd::set_lib::lemma_set_disjoint_lens(members, rest);
    assert(members + rest =~= set);
}

/// Dropping an observer's edges takes out as many edges as it had inputs.
pub proof fn forgetting_takes_out_the_inputs(graph: GraphModel, observer: u64)
    requires
        graph.edges.dom().finite(),
    ensures
        graph.inputs(observer).dom().finite(),
        graph.forgetting(observer).edges.dom().finite(),
        graph.edges.dom().len() == graph.forgetting(observer).edges.dom().len() + graph.inputs(
            observer,
        ).dom().len(),
{
    let kept = graph.forgetting(observer).edges.dom();
    let dropped = graph.edges.dom().difference(kept);
    let target = |edge: (u64, u64)| edge.1;
    vstd::set_lib::lemma_set_subset_finite(graph.edges.dom(), kept);
    vstd::set_lib::lemma_set_subset_finite(graph.edges.dom(), dropped);
    vstd::set_lib::lemma_set_disjoint_lens(kept, dropped);
    assert(kept + dropped =~= graph.edges.dom());
    assert forall|node: u64| dropped.map(target).contains(node) <==> graph.inputs(
        observer,
    ).dom().contains(node) by {
        if graph.observes(observer, node) {
            assert(dropped.contains((observer, node)));
            assert(target((observer, node)) == node);
        }
    }
    assert(dropped.map(target) =~= graph.inputs(observer).dom());
    vstd::set_lib::lemma_map_size(dropped, graph.inputs(observer).dom(), target);
}

/// Dropping the edges on a node takes out as many edges as it had observers.
pub proof fn unobserving_takes_out_the_observers(graph: GraphModel, node: u64)
    requires
        graph.edges.dom().finite(),
    ensures
        graph.observers(node).finite(),
        graph.unobserving(node).edges.dom().finite(),
        graph.edges.dom().len() == graph.unobserving(node).edges.dom().len() + graph.observers(
            node,
        ).len(),
{
    let kept = graph.unobserving(node).edges.dom();
    let dropped = graph.edges.dom().difference(kept);
    let origin = |edge: (u64, u64)| edge.0;
    vstd::set_lib::lemma_set_subset_finite(graph.edges.dom(), kept);
    vstd::set_lib::lemma_set_subset_finite(graph.edges.dom(), dropped);
    vstd::set_lib::lemma_set_disjoint_lens(kept, dropped);
    assert(kept + dropped =~= graph.edges.dom());
    assert forall|observer: u64| dropped.map(origin).contains(observer) <==> graph.observers(
        node,
    ).contains(observer) by {
        if graph.observes(observer, node) {
            assert(dropped.contains((observer, node)));
            assert(origin((observer, node)) == observer);
        }
    }
    assert(dropped.map(origin) =~= graph.observers(node));
    vstd::set_lib::lemma_map_size(dropped, graph.observers(node), origin);
}

impl Graph {
    /// Drops every edge that `observer` recorded during its last run. Returns how many there were,
    /// and the nodes that lost their last observer, in an order left open.
    pub fn forget_inputs(&mut self, observer: NodeId) -> (outcome: (usize, Vec<u64>))
        requires
            old(self).wf(),
        ensures
            final(self).wf(),
            final(self)@ == old(self)@.forgetting(observer.0),
            outcome.0 == old(self)@.inputs(observer.0).dom().len(),
            outcome.1@.no_duplicates(),
            outcome.1@.to_set() == old(self)@.observed().difference(final(self)@.observed()),
    {
        let ghost before = self@;
        let ghost listed = self.dependents@;
        let ghost after = before.forgetting(observer.0);
        proof {
            observed_at_most_edges(before);
            forgetting_takes_out_the_inputs(before, observer.0);
        }
        let mut lost: Vec<u64> = Vec::new();
        let inputs = match self.dependencies.remove(observer.0) {
            Some(inputs) => inputs,
            None => {
                proof {
                    assert(self@.edges =~= before.edges);
                    assert(after.edges =~= before.edges);
                    assert(before.inputs(observer.0).dom() =~= Set::empty());
                    assert(lost@.to_set() =~= Set::empty());
                    assert(before.observed().difference(after.observed()) =~= Set::empty());
                }
                return (0, lost);
            },
        };
        let nodes = inputs.keys();
        assert(inputs@.dom() =~= before.inputs(observer.0).dom());
        assert(self@.edges =~= after.edges);
        let mut index: usize = 0;
        while index < nodes.len()
            invariant
                index <= nodes.len(),
                nodes@.no_duplicates(),
                nodes@.to_set() == before.inputs(observer.0).dom(),
                before.wf(),
                before.observed().finite(),
                mirrors(before.edges, listed),
                after == before.forgetting(observer.0),
                self@ == after,
                self.active@ == self.stack@.to_set(),
                lost@.no_duplicates(),
                self.observed_nodes == before.observed().len() - lost@.len(),
                self.dependents@.dom() == listed.dom(),
                forall|node: u64| #[trigger]
                    lost@.contains(node) <==> nodes@.take(index as int).contains(node)
                        && listed[node].remove(observer.0) == Set::<u64>::empty(),
                forall|node: u64| #[trigger] listed.contains_key(node) ==> self.dependents@[node]
                    == (if nodes@.take(index as int).contains(node) {
                    listed[node].remove(observer.0)
                } else {
                    listed[node]
                }),
            decreases nodes.len() - index,
        {
            let node: u64 = nodes[index];
            proof {
                assert(nodes@.to_set().contains(node));
                assert(before.edges.contains_key((observer.0, node)));
                assert(listed.contains_key(node) && listed[node].contains(observer.0));
                crate::seqs::take_one_more(nodes@, index as int);
                assert(!nodes@.take(index as int).contains(node));
                assert(!lost@.contains(node));
                crate::seqs::push_members(lost@, node);
            }
            if let Some(entry) = self.dependents.remove(node) {
                let mut observers = entry;
                let _ = observers.remove(observer.0);
                if observers.is_empty() {
                    proof {
                        let longer = lost@.push(node);
                        assert(longer.no_duplicates());
                        assert forall|other: u64| #[trigger] longer.contains(other) implies
                            before.observed().contains(other) by {
                            assert(lost@.contains(other) || other == node);
                            assert(nodes@.take(index + 1).contains(other));
                            assert(nodes@.contains(other));
                            assert(nodes@.to_set().contains(other));
                            assert(before.observes(observer.0, other));
                            observed_iff(before, other);
                        }
                        list_within(longer, before.observed());
                    }
                    self.observed_nodes = self.observed_nodes.saturating_sub(1);
                    lost.push(node);
                }
                self.dependents.insert(node, observers);
            }
            assert(self.dependents@.dom() =~= listed.dom());
            assert(self@ =~= after);
            index = index + 1;
        }
        proof {
            assert(nodes@.take(index as int) =~= nodes@);
            nodes@.unique_seq_to_set();
            assert forall|other: u64, node: u64|
                after.edges.contains_key((other, node)) <==> self.dependents@.contains_key(node)
                    && #[trigger] self.dependents@[node].contains(other) by {
                assert(before.edges.contains_key((other, node)) <==> listed.contains_key(node)
                    && listed[node].contains(other));
                if other == observer.0 && before.edges.contains_key((other, node)) {
                    assert(nodes@.to_set().contains(node));
                    assert(nodes@.contains(node));
                }
            }
            assert(mirrors(self@.edges, self.dependents@));
            assert forall|node: u64| lost@.to_set().contains(node) <==> before.observed().difference(
                after.observed(),
            ).contains(node) by {
                observed_iff(before, node);
                observed_iff(after, node);
                assert(nodes@.contains(node) <==> nodes@.to_set().contains(node));
                if lost@.contains(node) {
                    assert(before.observes(observer.0, node));
                    if after.observed().contains(node) {
                        let other = choose|other: u64| after.observes(other, node);
                        assert(before.observes(other, node));
                        assert(listed[node].contains(other));
                        assert(listed[node].remove(observer.0).contains(other));
                    }
                }
                if before.observed().contains(node) && !after.observed().contains(node) {
                    let other = choose|other: u64| before.observes(other, node);
                    assert(!after.observes(other, node));
                    assert(other == observer.0);
                    let rest = listed[node].remove(observer.0);
                    assert forall|third: u64| !rest.contains(third) by {
                        if rest.contains(third) {
                            assert(listed[node].contains(third));
                            assert(listed.contains_key(node)) by {
                                assert(before.edges.contains_key((other, node)));
                            }
                            assert(before.observes(third, node));
                            assert(after.observes(third, node));
                        }
                    }
                    assert(rest =~= Set::empty());
                    assert(nodes@.contains(node));
                }
            }
            assert(lost@.to_set() =~= before.observed().difference(after.observed()));
            assert forall|node: u64| #[trigger] lost@.contains(node) implies before.observed().contains(
                node,
            ) by {
                assert(lost@.to_set().contains(node));
            }
            list_within(lost@, before.observed());
            assert forall|node: u64| after.observed().contains(node) implies before.observed().contains(
                node,
            ) by {
                observed_iff(before, node);
                observed_iff(after, node);
                let other = choose|other: u64| after.observes(other, node);
                assert(before.observes(other, node));
            }
            assert(before.observed().difference(lost@.to_set()) =~= after.observed());
        }
        (nodes.len(), lost)
    }
}

impl Graph {
    /// Drops every edge that observers recorded on `node`. Returns how many there were.
    pub fn forget_observers(&mut self, node: NodeId) -> (removed: usize)
        requires
            old(self).wf(),
        ensures
            final(self).wf(),
            final(self)@ == old(self)@.unobserving(node.0),
            removed == old(self)@.observers(node.0).len(),
    {
        let ghost before = self@;
        let ghost listed = self.dependents@;
        let ghost recorded = self.dependencies@;
        let ghost after = before.unobserving(node.0);
        proof {
            observed_at_most_edges(before);
            unobserving_takes_out_the_observers(before, node.0);
            observed_iff(before, node.0);
        }
        let entry = match self.dependents.remove(node.0) {
            Some(entry) => entry,
            None => {
                proof {
                    assert(before.observers(node.0) =~= Set::empty());
                    assert forall|edge: (u64, u64)| before.edges.contains_key(edge) implies edge.1
                        != node.0 by {
                        assert(before.edges.contains_key((edge.0, edge.1)));
                    }
                    assert(after.edges =~= before.edges);
                    assert(self@.edges =~= before.edges);
                    assert(self.dependents@ =~= listed);
                }
                return 0;
            },
        };
        assert(entry@ =~= before.observers(node.0)) by {
            assert forall|other: u64| entry@.contains(other) <==> before.observers(node.0).contains(
                other,
            ) by {
                assert(before.edges.contains_key((other, node.0)) <==> listed[node.0].contains(
                    other,
                ));
            }
        }
        let incoming = entry.members();
        let observed = !entry.is_empty();
        proof {
            incoming@.unique_seq_to_set();
            assert(observed == before.observed().contains(node.0)) by {
                if observed {
                    if forall|other: u64| !entry@.contains(other) {
                        assert(entry@ =~= Set::empty());
                    }
                    let other = choose|other: u64| entry@.contains(other);
                    assert(before.observes(other, node.0));
                }
            }
        }
        let mut index: usize = 0;
        while index < incoming.len()
            invariant
                index <= incoming.len(),
                incoming@.no_duplicates(),
                incoming@.to_set() == before.observers(node.0),
                before.edges == edges_of(recorded),
                self.next_node == before.next_node,
                self.meta@ == before.nodes,
                self.stack@ == before.stack,
                self.active@ == self.stack@.to_set(),
                self.dependents@ == listed.remove(node.0),
                self.observed_nodes == before.observed().len(),
                forall|other: u64, input: u64|
                    #![trigger recorded[other].contains_key(input)]
                    #![trigger self.dependencies@[other].contains_key(input)]
                    (self.dependencies@.contains_key(other)
                        && self.dependencies@[other].contains_key(input)) <==> (
                    recorded.contains_key(other) && recorded[other].contains_key(input) && !(
                    incoming@.take(index as int).contains(other) && input == node.0)),
                forall|other: u64, input: u64|
                    #![trigger self.dependencies@[other][input]]
                    self.dependencies@.contains_key(other)
                        && self.dependencies@[other].contains_key(input)
                        ==> self.dependencies@[other][input] == recorded[other][input],
            decreases incoming.len() - index,
        {
            let observer: u64 = incoming[index];
            proof {
                crate::seqs::take_one_more(incoming@, index as int);
            }
            let ghost held = self.dependencies@;
            if let Some(inputs) = self.dependencies.remove(observer) {
                let mut inputs = inputs;
                let _ = inputs.remove(node.0);
                if !inputs.is_empty() {
                    self.dependencies.insert(observer, inputs);
                }
                assert(inputs@ == held[observer].remove(node.0));
            }
            proof {
                assert forall|other: u64, input: u64|
                    #![trigger recorded[other].contains_key(input)]
                    #![trigger self.dependencies@[other].contains_key(input)]
                    (self.dependencies@.contains_key(other)
                        && self.dependencies@[other].contains_key(input)) <==> (
                    recorded.contains_key(other) && recorded[other].contains_key(input) && !(
                    incoming@.take(index + 1).contains(other) && input == node.0)) by {
                    let kept = held.contains_key(other) && held[other].contains_key(input);
                    assert(kept <==> (recorded.contains_key(other) && recorded[other].contains_key(
                        input,
                    ) && !(incoming@.take(index as int).contains(other) && input == node.0)));
                    if other == observer && held.contains_key(observer) {
                        let rest = held[observer].remove(node.0);
                        if input != node.0 {
                            assert(rest.contains_key(input) <==> held[observer].contains_key(input));
                        }
                    }
                }
            }
            index = index + 1;
        }
        proof {
            assert(incoming@.take(index as int) =~= incoming@);
            assert forall|edge: (u64, u64)| edges_of(self.dependencies@).contains_key(edge)
                <==> after.edges.contains_key(edge) by {
                assert(recorded[edge.0].contains_key(edge.1) || !recorded[edge.0].contains_key(
                    edge.1,
                ));
                if before.edges.contains_key(edge) && edge.1 == node.0 {
                    assert(before.observes(edge.0, node.0));
                    assert(incoming@.to_set().contains(edge.0));
                    assert(incoming@.contains(edge.0));
                }
            }
            assert forall|edge: (u64, u64)| #[trigger]
                after.edges.contains_key(edge) implies edges_of(self.dependencies@)[edge]
                == after.edges[edge] by {
                assert(edges_of(self.dependencies@).contains_key(edge));
                assert(self.dependencies@[edge.0][edge.1] == recorded[edge.0][edge.1]);
            }
            assert(edges_of(self.dependencies@) =~= after.edges);
            assert(self@.edges == after.edges);
            assert forall|other: u64, input: u64|
                after.edges.contains_key((other, input)) <==> self.dependents@.contains_key(input)
                    && #[trigger] self.dependents@[input].contains(other) by {
                assert(before.edges.contains_key((other, input)) <==> listed.contains_key(input)
                    && listed[input].contains(other));
            }
            assert(after.observed() =~= before.observed().remove(node.0)) by {
                assert forall|other: u64| after.observed().contains(other)
                    <==> before.observed().remove(node.0).contains(other) by {
                    observed_iff(before, other);
                    observed_iff(after, other);
                    if after.observed().contains(other) {
                        let o = choose|o: u64| after.observes(o, other);
                        assert(before.observes(o, other));
                    }
                    if before.observed().contains(other) && other != node.0 {
                        let o = choose|o: u64| before.observes(o, other);
                        assert(after.observes(o, other));
                    }
                }
            }
        }
        if observed {
            self.observed_nodes = self.observed_nodes.saturating_sub(1);
        }
        incoming.len()
    }

    /// Takes `node` out of the live nodes and returns what was known of it.
    pub fn remove_node(&mut self, node: NodeId) -> (meta: Option<NodeMeta>)
        requires
            old(self).wf(),
        ensures
            final(self).wf(),
            final(self)@ == old(self)@.without_node(node.0),
            meta == old(self)@.nodes.get(node.0),
    {
        let meta = self.meta.remove(node.0);
        assert(self@.edges =~= old(self)@.edges);
        meta
    }

    /// Starts the computation of `observer`.
    pub fn enter(&mut self, observer: NodeId)
        requires
            old(self).wf(),
            !old(self)@.active(observer.0),
        ensures
            final(self).wf(),
            final(self)@ == old(self)@.entered(observer.0),
    {
        let _ = self.active.insert(observer.0);
        self.stack.push(observer.0);
        proof {
            crate::seqs::push_members(old(self).stack@, observer.0);
            assert(self@.edges =~= old(self)@.edges);
            assert(self.stack@.to_set() =~= self.active@);
        }
    }

    /// Ends the innermost computation.
    pub fn leave(&mut self)
        requires
            old(self).wf(),
        ensures
            final(self).wf(),
            final(self)@ == old(self)@.left(),
    {
        if let Some(observer) = self.stack.pop() {
            let _ = self.active.remove(observer);
            proof {
                let stack = old(self).stack@;
                assert(stack =~= stack.drop_last().push(observer));
                assert(!stack.drop_last().contains(observer)) by {
                    if stack.drop_last().contains(observer) {
                        let at = choose|at: int|
                            0 <= at < stack.len() - 1 && stack.drop_last()[at] == observer;
                        assert(stack[at] == stack[stack.len() - 1]);
                    }
                }
                crate::seqs::push_members(stack.drop_last(), observer);
                assert(self.active@ =~= self.stack@.to_set());
            }
        }
        assert(self@.edges =~= old(self)@.edges);
    }

    /// Returns whether the computation of `observer` is in progress.
    pub fn is_active(&self, observer: NodeId) -> (active: bool)
        requires
            self.wf(),
        ensures
            active == self@.active(observer.0),
    {
        assert(self.stack@.to_set().contains(observer.0) <==> self.stack@.contains(observer.0));
        self.active.contains(observer.0)
    }

    /// Returns the innermost computation in progress.
    pub fn current(&self) -> (observer: Option<NodeId>)
        ensures
            self@.stack.len() == 0 ==> observer is None,
            self@.stack.len() > 0 ==> observer == Some(NodeId(self@.stack.last())),
    {
        let depth: usize = self.stack.len();
        if depth > 0 {
            Some(NodeId::new(self.stack[depth - 1]))
        } else {
            None
        }
    }

    /// Returns the observers of `node`, in an order left open.
    pub fn observers_of(&self, node: NodeId) -> (observers: Vec<u64>)
        requires
            self.wf(),
        ensures
            observers@.no_duplicates(),
            observers@.to_set() == self@.observers(node.0),
    {
        assert forall|other: u64|
            self@.observers(node.0).contains(other) <==> self.dependents@.contains_key(node.0)
                && self.dependents@[node.0].contains(other) by {
            assert(self@.edges.contains_key((other, node.0)) <==> self.dependents@.contains_key(
                node.0,
            ) && self.dependents@[node.0].contains(other));
        }
        match self.dependents.get(node.0) {
            Some(observers) => {
                assert(observers@ =~= self@.observers(node.0));
                observers.members()
            },
            None => {
                let none: Vec<u64> = Vec::new();
                assert(none@.to_set() =~= self@.observers(node.0));
                none
            },
        }
    }

    /// Returns the number of observers of `node`.
    pub fn observer_count(&self, node: NodeId) -> (count: usize)
        requires
            self.wf(),
        ensures
            count == self@.observers(node.0).len(),
    {
        assert forall|other: u64|
            self@.observers(node.0).contains(other) <==> self.dependents@.contains_key(node.0)
                && self.dependents@[node.0].contains(other) by {
            assert(self@.edges.contains_key((other, node.0)) <==> self.dependents@.contains_key(
                node.0,
            ) && self.dependents@[node.0].contains(other));
        }
        match self.dependents.get(node.0) {
            Some(observers) => {
                assert(observers@ =~= self@.observers(node.0));
                observers.len()
            },
            None => {
                assert(self@.observers(node.0) =~= Set::empty());
                0
            },
        }
    }

    /// Returns the number of dependencies that `observer` recorded.
    pub fn dependency_count(&self, observer: NodeId) -> (count: usize)
        requires
            self.wf(),
        ensures
            count == self@.inputs(observer.0).dom().len(),
    {
        match self.dependencies.get(observer.0) {
            Some(inputs) => {
                assert(inputs@.dom() =~= self@.inputs(observer.0).dom());
                inputs.len()
            },
            None => {
                assert(self@.inputs(observer.0).dom() =~= Set::empty());
                0
            },
        }
    }
}

/// One dependency as an observer recorded it: the node it read, and the version it saw.
#[derive(Clone, Copy, Debug, Eq, PartialEq, Structural)]
pub struct RecordedDependency {
    pub node: NodeId,
    pub version: u64,
}

/// `list` holds exactly the given inputs, each once.
pub open spec fn lists_inputs(list: Seq<RecordedDependency>, inputs: Map<u64, u64>) -> bool {
    &&& forall|at: int| #![trigger list[at]]
        0 <= at < list.len() ==> inputs.contains_pair(list[at].node.0, list[at].version)
    &&& forall|at: int, later: int| #![trigger list[at], list[later]]
        0 <= at < later < list.len() ==> list[at].node != list[later].node
    &&& forall|node: u64| #[trigger]
        inputs.contains_key(node) ==> exists|at: int|
            0 <= at < list.len() && #[trigger] list[at].node.0 == node
}

/// The cycle that reading `node` would close: the computations in progress from `node` inwards,
/// and `node` again.
pub open spec fn cycle_through(stack: Seq<u64>, node: u64) -> Seq<u64> {
    stack.skip(stack.index_of(node)).push(node)
}

impl Graph {
    /// Returns the dependencies that `observer` recorded, in an order left open.
    pub fn recorded(&self, observer: NodeId) -> (list: Vec<RecordedDependency>)
        requires
            self.wf(),
        ensures
            lists_inputs(list@, self@.inputs(observer.0)),
    {
        let ghost inputs = self@.inputs(observer.0);
        let mut list: Vec<RecordedDependency> = Vec::new();
        if let Some(held) = self.dependencies.get(observer.0) {
            assert(held@ =~= inputs);
            let nodes = held.keys();
            let mut index: usize = 0;
            while index < nodes.len()
                invariant
                    index <= nodes.len(),
                    held@ == inputs,
                    nodes@.no_duplicates(),
                    nodes@.to_set() == inputs.dom(),
                    list@.len() == index,
                    forall|at: int| #![trigger list@[at]]
                        0 <= at < index ==> list@[at].node.0 == nodes@[at] && inputs.contains_pair(
                            nodes@[at],
                            list@[at].version,
                        ),
                decreases nodes.len() - index,
            {
                let node: u64 = nodes[index];
                assert(nodes@.to_set().contains(node));
                let version: u64 = match held.get(node) {
                    Some(version) => version,
                    None => 0,
                };
                list.push(RecordedDependency { node: NodeId::new(node), version });
                index = index + 1;
            }
            assert forall|node: u64| #[trigger] inputs.contains_key(node) implies exists|at: int|
                0 <= at < list@.len() && #[trigger] list@[at].node.0 == node by {
                assert(nodes@.to_set().contains(node));
                let at = choose|at: int| 0 <= at < nodes@.len() && nodes@[at] == node;
                assert(list@[at].node.0 == node);
            }
        } else {
            assert(inputs =~= Map::empty());
        }
        list
    }

    /// Returns the cycle that reading `node` now would close, if it is being computed.
    pub fn cycle(&self, node: NodeId) -> (path: Option<Vec<NodeId>>)
        requires
            self.wf(),
        ensures
            path is Some <==> self@.active(node.0),
            path matches Some(nodes) ==> nodes@.map_values(|node: NodeId| node.0) == cycle_through(
                self@.stack,
                node.0,
            ),
    {
        if !self.is_active(node) {
            return None;
        }
        let mut start: usize = 0;
        while self.stack[start] != node.0
            invariant
                start < self.stack.len(),
                self.stack@ == self@.stack,
                self.stack@.contains(node.0),
                forall|at: int| #![trigger self.stack@[at]]
                    0 <= at < start ==> self.stack@[at] != node.0,
            decreases self.stack@.len() - start,
        {
            proof {
                let at = choose|at: int| 0 <= at < self.stack@.len() && self.stack@[at] == node.0;
                assert(at > start);
            }
            start = start + 1;
        }
        let mut path: Vec<NodeId> = Vec::new();
        let mut index: usize = start;
        while index < self.stack.len()
            invariant
                start <= index <= self.stack@.len(),
                path@.len() == index - start,
                forall|at: int| #![trigger path@[at]]
                    0 <= at < path@.len() ==> path@[at].0 == self.stack@[start + at],
            decreases self.stack.len() - index,
        {
            path.push(NodeId::new(self.stack[index]));
            index = index + 1;
        }
        path.push(node);
        proof {
            let first = self.stack@.index_of(node.0);
            assert(self.stack@.contains(node.0));
            assert(0 <= first < self.stack@.len() && self.stack@[first] == node.0);
            assert(self.stack@[start as int] == self.stack@[first]);
            assert(first == start);
            assert(path@.map_values(|node: NodeId| node.0) =~= cycle_through(self.stack@, node.0));
        }
        Some(path)
    }
}

} // verus!
