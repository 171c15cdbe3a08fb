//! The search for the cheapest and the costliest path through a graph. The
//! simple paths between two nodes are enumerated by `petgraph`.
use crate::graph::{id_texts, Graph, Node};
use crate::labels::{annotations, are_numbers, is_value_in, value_named, NodeInfo};
use crate::model::{lemma_node_position, node_position, GraphModel, NodeModel};
use crate::names::Id;
use crate::number::Floats;
use crate::paths::{cost_models, is_best, len_models, select_path};
use crate::scan::variables_from;
use crate::text::{insert_text, sorted_texts, string_of, texts};
use crate::value::{is_total, value_view, ValueModel, VariableValue};
use vstd::prelude::*;
use vstd::string::StringExecFns;

verus! {

/// A directed graph of `petgraph`: a `petgraph::graph::Graph` without
/// weights, its nodes and edges named by indices of the type `usize`. Nothing
/// is seen of its contents but through `pet_node_count` and `pet_edges`.
#[verifier::external_body]
pub struct PetGraph {
    inner: petgraph::graph::DiGraph<(), (), usize>,
}

/// The number of nodes of a `petgraph` graph. Its nodes are numbered from zero.
pub uninterp spec fn pet_node_count(g: PetGraph) -> nat;

/// The edges of a `petgraph` graph in the order in which they were added,
/// each as the numbers of the node at which it starts and of the node at
/// which it ends.
pub uninterp spec fn pet_edges(g: PetGraph) -> Seq<(int, int)>;

/// The simple paths from the node `from` to the node `to` in the directed
/// graph with `node_count` nodes and the edges `edges`, each path as the
/// numbers of its nodes, in the order in which `petgraph::algo::all_simple_paths`
/// yields them.
pub uninterp spec fn simple_paths(
    node_count: nat,
    edges: Seq<(int, int)>,
    from: int,
    to: int,
) -> Seq<Seq<int>>;

/// `p` leads from `from` to `to` along edges of `edges`, through nodes below `node_count`.
pub open spec fn is_walk(
    p: Seq<int>,
    node_count: nat,
    edges: Seq<(int, int)>,
    from: int,
    to: int,
) -> bool {
    &&& p.len() >= 2
    &&& p[0] == from
    &&& p[p.len() - 1] == to
    &&& forall|k: int| 0 <= k < p.len() ==> 0 <= #[trigger] p[k] < node_count
    &&& forall|k: int| 0 <= k < p.len() - 1 ==> edges.contains((#[trigger] p[k], p[k + 1]))
}

/// The node numbers that a vector of paths holds.
pub open spec fn path_numbers(v: Seq<Vec<usize>>) -> Seq<Seq<int>> {
    v.map_values(|p: Vec<usize>| p@.map_values(|x: usize| x as int))
}

/// `petgraph::graph::Graph::with_capacity`, asked for no capacity: a graph
/// without nodes and edges.
#[verifier::external_body]
fn pet_new() -> (g: PetGraph)
    ensures
        pet_node_count(g) == 0,
        pet_edges(g) == Seq::<(int, int)>::empty(),
{
    PetGraph { inner: petgraph::graph::DiGraph::with_capacity(0, 0) }
}

/// `petgraph::graph::Graph::add_node`: adds a node, whose number is the
/// number of nodes there were, and leaves the edges as they are. With
/// indices of the type `usize` it does not panic.
#[verifier::external_body]
fn pet_add_node(g: &mut PetGraph) -> (index: usize)
    ensures
        index == pet_node_count(*old(g)),
        pet_node_count(*final(g)) == pet_node_count(*old(g)) + 1,
        pet_edges(*final(g)) == pet_edges(*old(g)),
{
    g.inner.add_node(()).index()
}

/// `petgraph::graph::Graph::add_edge`: adds an edge between two nodes of the
/// graph, after the edges there were, and leaves the nodes as they are. It
/// panics where one of the nodes does not exist, which `requires` leaves out.
#[verifier::external_body]
fn pet_add_edge(g: &mut PetGraph, from: usize, to: usize)
    requires
        from < pet_node_count(*old(g)),
        to < pet_node_count(*old(g)),
    ensures
        pet_node_count(*final(g)) == pet_node_count(*old(g)),
        pet_edges(*final(g)) == pet_edges(*old(g)).push((from as int, to as int)),
{
    g.inner.add_edge(
        petgraph::graph::NodeIndex::new(from),
        petgraph::graph::NodeIndex::new(to),
        (),
    );
}

/// `petgraph::algo::all_simple_paths` with no bound on the length of a
/// path, its results collected: the paths from `from` to `to`. Each starts
/// at `from`, ends at `to`, has two nodes or more, and goes from each of its
/// nodes to the next along an edge of the graph. Which paths come, and in
/// which order, is given the name `simple_paths`.
#[verifier::external_body]
fn pet_all_simple_paths(g: &PetGraph, from: usize, to: usize) -> (r: Vec<Vec<usize>>)
    requires
        from < pet_node_count(*g),
        to < pet_node_count(*g),
    ensures
        path_numbers(r@) == simple_paths(
            pet_node_count(*g),
            pet_edges(*g),
            from as int,
            to as int,
        ),
        forall|i: int|
            0 <= i < r@.len() ==> is_walk(
                #[trigger] path_numbers(r@)[i],
                pet_node_count(*g),
                pet_edges(*g),
                from as int,
                to as int,
            ),
{
    let start = petgraph::graph::NodeIndex::new(from);
    let end = petgraph::graph::NodeIndex::new(to);
    petgraph::algo::all_simple_paths::<Vec<petgraph::graph::NodeIndex<usize>>, _>(
        &g.inner,
        start,
        end,
        0,
        None,
    ).map(|path| path.into_iter().map(|node| node.index()).collect()).collect()
}

/// A graph in the form in which paths are searched: its nodes numbered in
/// the order of their insertion, and beside each number the identifier.
pub struct PGraph {
    graph: PetGraph,
    ids: Vec<Id>,
}

impl PGraph {
    /// The number of nodes.
    pub closed spec fn node_count(&self) -> nat {
        pet_node_count(self.graph)
    }

    /// The edges, each as the numbers of the two nodes that it joins.
    pub closed spec fn edges(&self) -> Seq<(int, int)> {
        pet_edges(self.graph)
    }

    /// The identifiers of the nodes, by their numbers.
    pub closed spec fn ids(&self) -> Seq<Seq<char>> {
        self.ids@.map_values(|i: Id| i@)
    }

    /// Every node has its identifier.
    pub closed spec fn wf(&self) -> bool {
        self.ids@.len() == pet_node_count(self.graph)
    }

    /// The graph without nodes.
    pub fn new() -> (r: PGraph)
        ensures
            r.wf(),
            r.node_count() == 0,
            r.edges() == Seq::<(int, int)>::empty(),
            r.ids() == Seq::<Seq<char>>::empty(),
    {
        PGraph { graph: pet_new(), ids: Vec::new() }
    }

    /// Adds the node `id` and returns its number.
    pub fn add_node(&mut self, id: Id) -> (index: usize)
        requires
            old(self).wf(),
        ensures
            final(self).wf(),
            index == old(self).node_count(),
            final(self).node_count() == old(self).node_count() + 1,
            final(self).edges() == old(self).edges(),
            final(self).ids() == old(self).ids().push(id@),
    {
        let index = pet_add_node(&mut self.graph);
        self.ids.push(id);
        index
    }

    /// Adds an edge from the node with the number `from` to the node with the number `to`.
    pub fn add_edge(&mut self, from: usize, to: usize)
        requires
            old(self).wf(),
            from < old(self).node_count(),
            to < old(self).node_count(),
        ensures
            final(self).wf(),
            final(self).node_count() == old(self).node_count(),
            final(self).edges() == old(self).edges().push((from as int, to as int)),
            final(self).ids() == old(self).ids(),
    {
        pet_add_edge(&mut self.graph, from, to);
    }

    /// The simple paths from the node with the number `from` to the node
    /// with the number `to`, each as the numbers of its nodes.
    pub fn paths_between(&self, from: usize, to: usize) -> (r: Vec<Vec<usize>>)
        requires
            self.wf(),
            from < self.node_count(),
            to < self.node_count(),
        ensures
            path_numbers(r@) == simple_paths(
                self.node_count(),
                self.edges(),
                from as int,
                to as int,
            ),
            forall|i: int|
                0 <= i < r@.len() ==> is_walk(
                    #[trigger] path_numbers(r@)[i],
                    self.node_count(),
                    self.edges(),
                    from as int,
                    to as int,
                ),
    {
        pet_all_simple_paths(&self.graph, from, to)
    }
}

impl Graph {
    /// The graph in the form in which paths are searched.
    pub fn to_petgraph(&self) -> (r: PGraph)
        requires
            self.wf(),
        ensures
            r.wf(),
            r.node_count() == self@.nodes.len(),
            r.edges() == self@.edge_positions(),
            r.ids() == self@.nodes.map_values(|n: NodeModel| n.id()),
    {
        let mut graph = PGraph::new();
        let nodes = self.nodes();
        let ghost ids = self@.nodes.map_values(|n: NodeModel| n.id());
        let mut i: usize = 0;
        while i < nodes.len()
            invariant
                self.wf(),
                graph.wf(),
                i <= nodes@.len(),
                nodes@.len() == self@.nodes.len(),
                forall|j: int|
                    0 <= j < nodes@.len() ==> (#[trigger] nodes@[j]).id_text()
                        == self@.nodes[j].id(),
                ids == self@.nodes.map_values(|n: NodeModel| n.id()),
                graph.node_count() == i,
                graph.edges() == Seq::<(int, int)>::empty(),
                graph.ids() == ids.take(i as int),
            decreases nodes.len() - i,
        {
            graph.add_node(nodes[i].id().clone());
            i += 1;
        }
        let ends = self.edge_ends();
        let ghost all = self@.edge_positions();
        let mut k: usize = 0;
        while k < ends.len()
            invariant
                self.wf(),
                graph.wf(),
                k <= ends@.len(),
                ends@.len() == all.len(),
                all == self@.edge_positions(),
                forall|j: int|
                    0 <= j < ends@.len() ==> (#[trigger] ends@[j]).0 < self@.nodes.len()
                        && ends@[j].1 < self@.nodes.len() && (ends@[j].0 as int, ends@[j].1 as int)
                        == all[j],
                graph.node_count() == self@.nodes.len(),
                graph.ids() == ids,
                graph.edges() == all.take(k as int),
            decreases ends.len() - k,
        {
            let (from, to) = ends[k];
            graph.add_edge(from, to);
            k += 1;
        }
        graph
    }
}

/// What gives a node, or another item, its cost. Nothing is assumed of an
/// implementation: the contracts speak of the costs that its method returned.
pub trait GetVariableValue<T> {
    /// The cost of `item`, if it has one.
    fn get_weight(&self, item: &T) -> Option<VariableValue>;
}

/// Gives a node the value that its label gives to one variable.
pub struct CostCalculator<F: Floats> {
    variable_name: String,
    floats: F,
}

impl<F: Floats> CostCalculator<F> {
    /// The name of the variable that is read.
    pub closed spec fn variable(&self) -> Seq<char> {
        self.variable_name@
    }

    /// What says which values are numbers.
    pub closed spec fn floats(&self) -> F {
        self.floats
    }

    /// A calculator that reads the variable `variable_name`, with `floats`
    /// to say which values are numbers.
    pub fn new(variable_name: &str, floats: F) -> (r: Self)
        ensures
            r.variable() == variable_name@,
            r.floats() == floats,
    {
        CostCalculator { variable_name: String::from_str(variable_name), floats }
    }

    /// The value that the label of `item` gives to the variable.
    pub fn weight_of(&self, item: &Node) -> (r: Option<VariableValue>)
        ensures
            is_value_in(&self.floats(), item@.label, self.variable(), value_view(r)),
    {
        let info = NodeInfo::parse(item.label(), &self.floats);
        let r = info.value_of(self.variable_name.as_str());
        proof {
            let label = item@.label;
            let numbers = choose|numbers: Seq<Option<u64>>|
                #![trigger annotations(label, numbers)]
                are_numbers(&self.floats, variables_from(label, 0), numbers) && info@
                    == annotations(label, numbers);
            assert(value_view(r) == value_named(
                annotations(label, numbers).variables,
                self.variable(),
            ));
        }
        r
    }
}

impl<F: Floats> GetVariableValue<Node> for CostCalculator<F> {
    fn get_weight(&self, item: &Node) -> (r: Option<VariableValue>)
        ensures
            is_value_in(&self.floats(), item@.label, self.variable(), value_view(r)),
    {
        self.weight_of(item)
    }
}

/// A path through a graph, and what it costs.
#[derive(Debug)]
pub struct Path {
    /// The nodes of the path, from its start to its end.
    pub ids: Vec<Id>,
    /// The sum of the costs of the nodes that have one, if any has.
    pub cost: Option<VariableValue>,
}

/// A path as specifications see it.
#[verifier::ext_equal]
pub struct PathModel {
    pub ids: Seq<Seq<char>>,
    pub cost: Option<ValueModel>,
}

impl View for Path {
    type V = PathModel;

    open spec fn view(&self) -> PathModel {
        PathModel { ids: id_texts(self.ids@), cost: value_view(self.cost) }
    }
}

/// The simple paths from the node `source` to the node `sink`, each as the
/// positions of its nodes.
pub open spec fn paths_between(g: GraphModel, source: Seq<char>, sink: Seq<char>) -> Seq<
    Seq<int>,
> {
    match (node_position(g.nodes, source), node_position(g.nodes, sink)) {
        (Some(a), Some(b)) => simple_paths(g.nodes.len(), g.edge_positions(), a, b),
        _ => Seq::empty(),
    }
}

/// The simple paths from `source` to each of `sinks`, in the order of `sinks`.
pub open spec fn paths_to_sinks(g: GraphModel, source: Seq<char>, sinks: Seq<Seq<char>>) -> Seq<
    Seq<int>,
>
    decreases sinks.len(),
{
    if sinks.len() == 0 {
        Seq::empty()
    } else {
        paths_to_sinks(g, source, sinks.drop_last()) + paths_between(g, source, sinks.last())
    }
}

/// The simple paths from each of `sources` to each of `sinks`: all paths
/// from the first of `sources`, then all from the second, and so on.
pub open spec fn paths_from_sources(
    g: GraphModel,
    sources: Seq<Seq<char>>,
    sinks: Seq<Seq<char>>,
) -> Seq<Seq<int>>
    decreases sources.len(),
{
    if sources.len() == 0 {
        Seq::empty()
    } else {
        paths_from_sources(g, sources.drop_last(), sinks) + paths_to_sinks(
            g,
            sources.last(),
            sinks,
        )
    }
}

/// The paths among which the cheapest and the costliest are sought: every
/// simple path from a node without incoming edges to a node without outgoing edges.
pub open spec fn candidates(g: GraphModel) -> Seq<Seq<int>> {
    paths_from_sources(g, g.sources(), g.sinks())
}

/// `p` is a walk through the graph: two nodes or more, each joined to the
/// next by an edge.
pub open spec fn is_walk_in(p: Seq<int>, g: GraphModel) -> bool {
    &&& p.len() >= 2
    &&& forall|k: int| 0 <= k < p.len() ==> 0 <= #[trigger] p[k] < g.nodes.len()
    &&& forall|k: int|
        0 <= k < p.len() - 1 ==> g.edge_positions().contains((#[trigger] p[k], p[k + 1]))
}

/// `p` starts at a node without incoming edges and ends at a node without
/// outgoing edges.
#[verifier::opaque]
pub open spec fn joins_ends(p: Seq<int>, g: GraphModel) -> bool {
    &&& p.len() >= 1
    &&& g.sources().contains(g.nodes[p[0]].id())
    &&& g.sinks().contains(g.nodes[p[p.len() - 1]].id())
}

/// `p` is a way through the graph: a walk from a node without incoming
/// edges to a node without outgoing edges.
#[verifier::opaque]
pub open spec fn is_route(p: Seq<int>, g: GraphModel) -> bool {
    is_walk_in(p, g) && joins_ends(p, g)
}

/// The nodes `ids` are a way through the graph: see `is_route`.
pub open spec fn is_way(g: GraphModel, ids: Seq<Seq<char>>) -> bool {
    exists|p: Seq<int>| #![trigger ids_along(g, p)] is_route(p, g) && ids == ids_along(g, p)
}

/// The costs of the nodes of `path` that have one, in the order of the path.
pub open spec fn present_values(path: Seq<int>, weights: Seq<Option<ValueModel>>) -> Seq<
    ValueModel,
>
    decreases path.len(),
{
    if path.len() == 0 {
        Seq::empty()
    } else if 0 <= path.last() < weights.len() && weights[path.last()] is Some {
        present_values(path.drop_last(), weights).push(weights[path.last()].unwrap())
    } else {
        present_values(path.drop_last(), weights)
    }
}

/// `cost` is the cost of `path`: none where no node of the path has a cost,
/// else the sum of the costs that there are, in the order of the path, with
/// the sums of numbers that `floats` gives.
pub open spec fn is_cost<F: Floats>(
    floats: &F,
    path: Seq<int>,
    weights: Seq<Option<ValueModel>>,
    cost: Option<ValueModel>,
) -> bool {
    match cost {
        None => present_values(path, weights).len() == 0,
        Some(total) => present_values(path, weights).len() > 0 && is_total(
            floats,
            present_values(path, weights),
            total,
        ),
    }
}

/// `weights` holds, for each of `nodes`, the cost that `get_weights` gives it.
pub open spec fn are_weights<W: GetVariableValue<Node>>(
    get_weights: &W,
    nodes: Seq<Node>,
    weights: Seq<Option<VariableValue>>,
) -> bool {
    &&& weights.len() == nodes.len()
    &&& forall|i: int|
        0 <= i < nodes.len() ==> call_ensures(
            W::get_weight,
            (get_weights, &nodes[i]),
            #[trigger] weights[i],
        )
}

/// The identifiers of the nodes at the positions `path`.
pub open spec fn ids_along(g: GraphModel, path: Seq<int>) -> Seq<Seq<char>> {
    Seq::new(path.len(), |k: int| g.nodes[path[k]].id())
}

/// The lengths of `paths`.
pub open spec fn lengths(paths: Seq<Seq<int>>) -> Seq<int> {
    Seq::new(paths.len(), |i: int| paths[i].len() as int)
}

/// `chosen` is the path to choose among `paths`, where the nodes have the
/// costs `weights` and the paths the costs `costs`: it is the path at `best`
/// with its cost.
pub open spec fn is_chosen<F: Floats>(
    floats: &F,
    g: GraphModel,
    paths: Seq<Seq<int>>,
    weights: Seq<Option<ValueModel>>,
    costs: Seq<Option<ValueModel>>,
    best: int,
    shortest: bool,
    chosen: PathModel,
) -> bool {
    &&& weights.len() == g.nodes.len()
    &&& costs.len() == paths.len()
    &&& forall|i: int|
        0 <= i < paths.len() ==> is_cost(floats, paths[i], weights, #[trigger] costs[i])
    &&& is_best(costs, lengths(paths), shortest, best)
    &&& chosen.ids == ids_along(g, paths[best])
    &&& chosen.cost == costs[best]
}

/// `chosen` is what the search for the cheapest path, or for the costliest,
/// gives on the graph `g` with the nodes `nodes`, where the nodes have the
/// costs that `get_weights` gives them and numbers the sums that `floats`
/// gives: where there is no path, no nodes and no cost; else the path to
/// choose among the candidates, with its cost.
pub open spec fn is_found<W: GetVariableValue<Node>, F: Floats>(
    get_weights: &W,
    floats: &F,
    nodes: Seq<Node>,
    g: GraphModel,
    shortest: bool,
    chosen: PathModel,
) -> bool {
    if candidates(g).len() == 0 {
        chosen.ids.len() == 0 && chosen.cost is None
    } else {
        exists|weights: Seq<Option<VariableValue>>, costs: Seq<Option<ValueModel>>, best: int|
            #![trigger is_chosen(
                floats,
                g,
                candidates(g),
                cost_models(weights),
                costs,
                best,
                shortest,
                chosen,
            )]
            are_weights(get_weights, nodes, weights) && is_chosen(
                floats,
                g,
                candidates(g),
                cost_models(weights),
                costs,
                best,
                shortest,
                chosen,
            )
    }
}

/// The position of each of `ids` among the nodes.
pub open spec fn positions_of(g: GraphModel, ids: Seq<Seq<char>>) -> Seq<int> {
    Seq::new(ids.len(), |k: int| g.position_of(ids[k]))
}

/// The identifiers of the nodes, in the order of the nodes.
pub open spec fn node_ids(g: GraphModel) -> Seq<Seq<char>> {
    Seq::new(g.nodes.len(), |i: int| g.nodes[i].id())
}

/// `total` is what all nodes of `g`, which are `nodes`, cost together: the
/// sum of the costs that `get_weights` gives them, where it gives one, taken
/// in the order of the identifiers of the nodes, with the sums of numbers
/// that `floats` gives.
pub open spec fn is_cost_of_all<W: GetVariableValue<Node>, F: Floats>(
    get_weights: &W,
    floats: &F,
    nodes: Seq<Node>,
    g: GraphModel,
    total: ValueModel,
) -> bool {
    exists|weights: Seq<Option<VariableValue>>|
        #![trigger are_weights(get_weights, nodes, weights)]
        are_weights(get_weights, nodes, weights) && is_total(
            floats,
            present_values(positions_of(g, sorted_texts(node_ids(g))), cost_models(weights)),
            total,
        )
}

impl Graph {
    /// The cost of each node, in the order of the nodes, as `get_weights` gives it.
    pub fn node_weights<W: GetVariableValue<Node>>(&self, get_weights: &W) -> (r: Vec<
        Option<VariableValue>,
    >)
        requires
            self.wf(),
        ensures
            r@.len() == self@.nodes.len(),
            are_weights(get_weights, self.node_seq(), r@),
    {
        let nodes = self.nodes();
        let mut out: Vec<Option<VariableValue>> = Vec::new();
        let mut i: usize = 0;
        while i < nodes.len()
            invariant
                i <= nodes@.len(),
                nodes@.len() == self@.nodes.len(),
                out@.len() == i,
                forall|j: int|
                    0 <= j < i ==> call_ensures(
                        W::get_weight,
                        (get_weights, &nodes@[j]),
                        #[trigger] out@[j],
                    ),
            decreases nodes.len() - i,
        {
            let weight = get_weights.get_weight(&nodes[i]);
            assert(call_ensures(W::get_weight, (get_weights, &nodes@[i as int]), weight));
            out.push(weight);
            i += 1;
        }
        out
    }

    /// The identifiers of the nodes at the positions `path`.
    pub fn ids_at(&self, path: &Vec<usize>) -> (r: Vec<Id>)
        requires
            self.wf(),
            forall|k: int| 0 <= k < path@.len() ==> #[trigger] path@[k] < self@.nodes.len(),
        ensures
            id_texts(r@) == ids_along(self@, path@.map_values(|x: usize| x as int)),
    {
        let nodes = self.nodes();
        let ghost wanted = ids_along(self@, path@.map_values(|x: usize| x as int));
        let mut out: Vec<Id> = Vec::new();
        let mut k: usize = 0;
        while k < path.len()
            invariant
                self.wf(),
                k <= path@.len(),
                nodes@.len() == self@.nodes.len(),
                forall|j: int|
                    0 <= j < nodes@.len() ==> (#[trigger] nodes@[j]).id_text()
                        == self@.nodes[j].id(),
                forall|j: int| 0 <= j < path@.len() ==> #[trigger] path@[j] < self@.nodes.len(),
                wanted == ids_along(self@, path@.map_values(|x: usize| x as int)),
                id_texts(out@) == wanted.take(k as int),
            decreases path.len() - k,
        {
            let id = nodes[path[k]].id().clone();
            let ghost before = id_texts(out@);
            out.push(id);
            assert(id_texts(out@) == before.push(id@));
            k += 1;
        }
        out
    }
}

/// The simple paths of `graph` from the node `source` to the node `sink`.
fn paths_for(graph: &Graph, pgraph: &PGraph, source: &Id, sink: &Id) -> (r: Vec<Vec<usize>>)
    requires
        graph.wf(),
        pgraph.wf(),
        pgraph.node_count() == graph@.nodes.len(),
        pgraph.edges() == graph@.edge_positions(),
        graph@.sources().contains(source@),
        graph@.sinks().contains(sink@),
    ensures
        path_numbers(r@) == paths_between(graph@, source@, sink@),
        forall|i: int| 0 <= i < r@.len() ==> is_route(#[trigger] path_numbers(r@)[i], graph@),
{
    match (graph.position(source), graph.position(sink)) {
        (Some(a), Some(b)) => {
            let found = pgraph.paths_between(a, b);
            proof {
                lemma_node_position(graph@.nodes, source@);
                lemma_node_position(graph@.nodes, sink@);
            }
            assert forall|i: int| 0 <= i < found@.len() implies is_route(
                #[trigger] path_numbers(found@)[i],
                graph@,
            ) by {
                let p = path_numbers(found@)[i];
                assert(is_walk(p, pgraph.node_count(), pgraph.edges(), a as int, b as int));
                assert(graph@.nodes[p[0]].id() == source@);
                assert(graph@.nodes[p[p.len() - 1]].id() == sink@);
                reveal(joins_ends);
                reveal(is_route);
            }
            found
        },
        _ => {
            let found: Vec<Vec<usize>> = Vec::new();
            found
        },
    }
}

/// Moves the paths `found` to the end of `all`.
fn add_paths(all: &mut Vec<Vec<usize>>, found: Vec<Vec<usize>>, Ghost(g): Ghost<GraphModel>)
    requires
        forall|i: int|
            0 <= i < old(all)@.len() ==> is_route(#[trigger] path_numbers(old(all)@)[i], g),
        forall|i: int| 0 <= i < found@.len() ==> is_route(#[trigger] path_numbers(found@)[i], g),
    ensures
        path_numbers(final(all)@) == path_numbers(old(all)@) + path_numbers(found@),
        forall|i: int|
            0 <= i < final(all)@.len() ==> is_route(#[trigger] path_numbers(final(all)@)[i], g),
{
    let ghost held = all@;
    let mut rest = found;
    all.append(&mut rest);
    assert(path_numbers(all@) == path_numbers(held) + path_numbers(found@));
    assert forall|i: int| 0 <= i < all@.len() implies is_route(
        #[trigger] path_numbers(all@)[i],
        g,
    ) by {}
}

/// Every simple path of `graph` from a node without incoming edges to a
/// node without outgoing edges, each as the positions of its nodes.
pub fn candidate_paths(graph: &Graph) -> (r: Vec<Vec<usize>>)
    requires
        graph.wf(),
    ensures
        path_numbers(r@) == candidates(graph@),
        forall|i: int| 0 <= i < r@.len() ==> is_route(#[trigger] path_numbers(r@)[i], graph@),
        forall|i: int, k: int|
            0 <= i < r@.len() && 0 <= k < r@[i]@.len() ==> (#[trigger] r@[i]@[k])
                < graph@.nodes.len(),
        graph@.edges.len() == 0 ==> r@.len() == 0,
{
    let pgraph = graph.to_petgraph();
    let sources = graph.sources();
    let sinks = graph.sinks();
    let ghost g = graph@;
    let ghost from = id_texts(sources@);
    let ghost to = id_texts(sinks@);
    let mut all: Vec<Vec<usize>> = Vec::new();
    let mut i: usize = 0;
    while i < sources.len()
        invariant
            graph.wf(),
            pgraph.wf(),
            g == graph@,
            pgraph.node_count() == g.nodes.len(),
            pgraph.edges() == g.edge_positions(),
            from == id_texts(sources@),
            to == id_texts(sinks@),
            from == g.sources(),
            to == g.sinks(),
            i <= sources@.len(),
            path_numbers(all@) == paths_from_sources(g, from.take(i as int), to),
            forall|n: int| 0 <= n < all@.len() ==> is_route(#[trigger] path_numbers(all@)[n], g),
        decreases sources.len() - i,
    {
        let ghost done = path_numbers(all@);
        let mut k: usize = 0;
        while k < sinks.len()
            invariant
                graph.wf(),
                pgraph.wf(),
                g == graph@,
                pgraph.node_count() == g.nodes.len(),
                pgraph.edges() == g.edge_positions(),
                from == id_texts(sources@),
                to == id_texts(sinks@),
                from == g.sources(),
                to == g.sinks(),
                i < sources@.len(),
                k <= sinks@.len(),
                path_numbers(all@) == done + paths_to_sinks(g, from[i as int], to.take(k as int)),
                forall|n: int|
                    0 <= n < all@.len() ==> is_route(#[trigger] path_numbers(all@)[n], g),
            decreases sinks.len() - k,
        {
            assert(to.take(k + 1).drop_last() == to.take(k as int));
            assert(from[i as int] == sources@[i as int]@ && to[k as int] == sinks@[k as int]@);
            let found = paths_for(graph, &pgraph, &sources[i], &sinks[k]);
            add_paths(&mut all, found, Ghost(g));
            k += 1;
        }
        proof {
            assert(to.take(k as int) == to);
            assert(from.take(i + 1).drop_last() == from.take(i as int));
        }
        i += 1;
    }
    assert(from.take(i as int) == from);
    proof {
        reveal(is_route);
        if graph@.edges.len() == 0 && all@.len() > 0 {
            let p = path_numbers(all@)[0];
            assert(is_route(p, g));
            assert(g.edge_positions().contains((p[0], p[1])));
        }
        assert forall|i: int, k: int| 0 <= i < all@.len() && 0 <= k < all@[i]@.len() implies (
        #[trigger] all@[i]@[k]) < g.nodes.len() by {
            assert(is_route(path_numbers(all@)[i], g));
            assert(path_numbers(all@)[i][k] == all@[i]@[k]);
        }
    }
    all
}

/// What the nodes of `path` cost together.
pub fn path_cost<F: Floats>(
    path: &Vec<usize>,
    weights: &Vec<Option<VariableValue>>,
    floats: &F,
) -> (r: Option<VariableValue>)
    ensures
        is_cost(
            floats,
            path@.map_values(|x: usize| x as int),
            cost_models(weights@),
            value_view(r),
        ),
{
    let ghost p = path@.map_values(|x: usize| x as int);
    let ghost w = cost_models(weights@);
    let mut values: Vec<VariableValue> = Vec::new();
    let mut k: usize = 0;
    while k < path.len()
        invariant
            k <= path@.len(),
            p == path@.map_values(|x: usize| x as int),
            w == cost_models(weights@),
            values@.map_values(|v: VariableValue| v@) == present_values(p.take(k as int), w),
        decreases path.len() - k,
    {
        assert(p.take(k + 1).drop_last() == p.take(k as int));
        let at = path[k];
        if at < weights.len() {
            if let Some(v) = &weights[at] {
                values.push(v.clone());
            }
        }
        k += 1;
    }
    assert(p.take(k as int) == p);
    if values.len() == 0 {
        None
    } else {
        Some(VariableValue::sum(&values, floats))
    }
}

/// The path to choose among `paths`, given the cost of each, and its cost.
/// Where there is no path, the result has no nodes and no cost.
pub fn choose_path(
    graph: &Graph,
    paths: &Vec<Vec<usize>>,
    costs: &Vec<Option<VariableValue>>,
    shortest: bool,
) -> (r: Path)
    requires
        graph.wf(),
        costs@.len() == paths@.len(),
        forall|i: int, k: int|
            0 <= i < paths@.len() && 0 <= k < paths@[i]@.len() ==> (#[trigger] paths@[i]@[k])
                < graph@.nodes.len(),
    ensures
        paths@.len() == 0 ==> r@.ids.len() == 0 && r@.cost is None,
        paths@.len() > 0 ==> exists|best: int|
            #![trigger path_numbers(paths@)[best]]
            is_best(cost_models(costs@), lengths(path_numbers(paths@)), shortest, best) && r@.ids
                == ids_along(graph@, path_numbers(paths@)[best]) && r@.cost == cost_models(
                costs@,
            )[best],
{
    let mut lens: Vec<usize> = Vec::new();
    let mut i: usize = 0;
    while i < paths.len()
        invariant
            i <= paths@.len(),
            lens@.len() == i,
            forall|j: int| 0 <= j < i ==> #[trigger] lens@[j] == paths@[j]@.len(),
        decreases paths.len() - i,
    {
        lens.push(paths[i].len());
        i += 1;
    }
    assert(len_models(lens@) == lengths(path_numbers(paths@)));
    match select_path(costs, &lens, shortest) {
        Some(best) => {
            let ids = graph.ids_at(&paths[best]);
            let cost = match &costs[best] {
                Some(v) => Some(v.clone()),
                None => None,
            };
            let r = Path { ids, cost };
            assert(r@.ids == ids_along(graph@, path_numbers(paths@)[best as int]));
            r
        },
        None => {
            let r = Path { ids: Vec::new(), cost: None };
            r
        },
    }
}

fn find_path<W: GetVariableValue<Node>, F: Floats>(
    graph: &Graph,
    get_weights: &W,
    floats: &F,
    shortest: bool,
) -> (r: Path)
    requires
        graph.wf(),
    ensures
        is_found(get_weights, floats, graph.node_seq(), graph@, shortest, r@),
        graph@.edges.len() == 0 ==> r@.ids.len() == 0 && r@.cost is None,
        r@.ids.len() > 0 ==> is_way(graph@, r@.ids),
{
    let paths = candidate_paths(graph);
    let weights = graph.node_weights(get_weights);
    let ghost ps = path_numbers(paths@);
    let ghost ws = cost_models(weights@);
    let mut costs: Vec<Option<VariableValue>> = Vec::new();
    let mut i: usize = 0;
    while i < paths.len()
        invariant
            i <= paths@.len(),
            ps == path_numbers(paths@),
            ws == cost_models(weights@),
            costs@.len() == i,
            forall|j: int|
                0 <= j < i ==> is_cost(floats, ps[j], ws, #[trigger] cost_models(costs@)[j]),
        decreases paths.len() - i,
    {
        let cost = path_cost(&paths[i], &weights, floats);
        let ghost before = cost_models(costs@);
        costs.push(cost);
        assert(cost_models(costs@) == before.push(value_view(cost)));
        i += 1;
    }
    let r = choose_path(graph, &paths, &costs, shortest);
    proof {
        if paths@.len() > 0 {
            let best = choose|best: int|
                #![trigger path_numbers(paths@)[best]]
                is_best(cost_models(costs@), lengths(path_numbers(paths@)), shortest, best)
                    && r@.ids == ids_along(graph@, path_numbers(paths@)[best]) && r@.cost
                    == cost_models(costs@)[best];
            let costs_seen = cost_models(costs@);
            assert(is_chosen(
                floats,
                graph@,
                candidates(graph@),
                cost_models(weights@),
                costs_seen,
                best,
                shortest,
                r@,
            ));
            assert(is_route(path_numbers(paths@)[best], graph@));
        }
    }
    r
}

/// The costliest path from a node without incoming edges to a node without
/// outgoing edges; of two that cost the same, the longer one. The costs of
/// the nodes are what `get_weights` gives.
pub fn find_longest_path<W: GetVariableValue<Node>, F: Floats>(
    graph: &Graph,
    get_weights: &W,
    floats: &F,
) -> (r: Path)
    requires
        graph.wf(),
    ensures
        is_found(get_weights, floats, graph.node_seq(), graph@, false, r@),
        graph@.edges.len() == 0 ==> r@.ids.len() == 0 && r@.cost is None,
        r@.ids.len() > 0 ==> is_way(graph@, r@.ids),
{
    find_path(graph, get_weights, floats, false)
}

/// The cheapest path from a node without incoming edges to a node without
/// outgoing edges; of two that cost the same, the shorter one. The costs of
/// the nodes are what `get_weights` gives.
pub fn find_shortest_path<W: GetVariableValue<Node>, F: Floats>(
    graph: &Graph,
    get_weights: &W,
    floats: &F,
) -> (r: Path)
    requires
        graph.wf(),
    ensures
        is_found(get_weights, floats, graph.node_seq(), graph@, true, r@),
        graph@.edges.len() == 0 ==> r@.ids.len() == 0 && r@.cost is None,
        r@.ids.len() > 0 ==> is_way(graph@, r@.ids),
{
    find_path(graph, get_weights, floats, true)
}

/// What all nodes of `graph` cost together: the sum of the costs that
/// `get_weights` gives, taken in the order of the identifiers of the nodes.
/// Where no node has a cost, it is the number zero.
pub fn find_cost<W: GetVariableValue<Node>, F: Floats>(
    graph: &Graph,
    get_weights: &W,
    floats: &F,
) -> (r: VariableValue)
    requires
        graph.wf(),
    ensures
        is_cost_of_all(get_weights, floats, graph.node_seq(), graph@, r@),
{
    let weights = graph.node_weights(get_weights);
    let nodes = graph.nodes();
    let ghost g = graph@;
    let ghost ids = node_ids(g);
    let mut sorted: Vec<Vec<char>> = Vec::new();
    let mut i: usize = 0;
    while i < nodes.len()
        invariant
            i <= nodes@.len(),
            nodes@.len() == g.nodes.len(),
            forall|j: int|
                0 <= j < nodes@.len() ==> (#[trigger] nodes@[j]).id_text() == g.nodes[j].id(),
            ids == node_ids(g),
            texts(sorted@) == sorted_texts(ids.take(i as int)),
        decreases nodes.len() - i,
    {
        assert(ids.take(i + 1).drop_last() == ids.take(i as int));
        insert_text(&mut sorted, nodes[i].id().chars());
        i += 1;
    }
    assert(ids.take(i as int) == ids);
    let ghost order = positions_of(g, texts(sorted@));
    let mut places: Vec<usize> = Vec::new();
    let mut k: usize = 0;
    while k < sorted.len()
        invariant
            graph.wf(),
            g == graph@,
            k <= sorted@.len(),
            order == positions_of(g, texts(sorted@)),
            places@.map_values(|x: usize| x as int) == order.take(k as int),
        decreases sorted.len() - k,
    {
        let id = Id::new(string_of(&sorted[k]).as_str());
        let place = match graph.position(&id) {
            Some(at) => at,
            None => 0,
        };
        let ghost before = places@.map_values(|x: usize| x as int);
        places.push(place);
        assert(places@.map_values(|x: usize| x as int) == before.push(place as int));
        k += 1;
    }
    assert(order.take(k as int) == order);
    let r = match path_cost(&places, &weights, floats) {
        Some(total) => total,
        None => VariableValue::zero(),
    };
    r
}

} // verus!
