//! The graph as specifications see it, and what each command does to it.
use crate::command::CommandModel;
use crate::exporter::{ExportEvent, NodeHighlight};
use crate::text::{contains_text, decimal, lemma_decimal_injective, sorted_texts};
use vstd::prelude::*;

verus! {

/// The identifier of the node with the given sequence number.
pub open spec fn node_id(serial: nat) -> Seq<char> {
    seq!['n'] + decimal(serial)
}

/// The identifier of the edge with the given sequence number.
pub open spec fn edge_id(serial: nat) -> Seq<char> {
    seq!['e'] + decimal(serial)
}

/// Nodes with different sequence numbers have different identifiers.
pub proof fn lemma_node_id_injective(a: nat, b: nat)
    requires
        node_id(a) == node_id(b),
    ensures
        a == b,
{
    assert(node_id(a).drop_first() == decimal(a));
    assert(node_id(b).drop_first() == decimal(b));
    lemma_decimal_injective(a, b);
}

/// Edges with different sequence numbers have different identifiers.
pub proof fn lemma_edge_id_injective(a: nat, b: nat)
    requires
        edge_id(a) == edge_id(b),
    ensures
        a == b,
{
    assert(edge_id(a).drop_first() == decimal(a));
    assert(edge_id(b).drop_first() == decimal(b));
    lemma_decimal_injective(a, b);
}

/// A node: its sequence number, from which its identifier derives, and its label.
#[verifier::ext_equal]
pub struct NodeModel {
    pub serial: nat,
    pub label: Seq<char>,
}

impl NodeModel {
    /// The identifier of the node.
    pub open spec fn id(self) -> Seq<char> {
        node_id(self.serial)
    }
}

/// An edge: its sequence number and the identifiers of the nodes it joins.
#[verifier::ext_equal]
pub struct EdgeModel {
    pub serial: nat,
    pub from: Seq<char>,
    pub to: Seq<char>,
}

impl EdgeModel {
    /// The identifier of the edge.
    pub open spec fn id(self) -> Seq<char> {
        edge_id(self.serial)
    }

    /// The edge starts or ends at the node `id`.
    pub open spec fn touches(self, id: Seq<char>) -> bool {
        self.from == id || self.to == id
    }
}

/// The position of the first node with identifier `id`.
pub open spec fn node_position(nodes: Seq<NodeModel>, id: Seq<char>) -> Option<int>
    decreases nodes.len(),
{
    if nodes.len() == 0 {
        None
    } else {
        match node_position(nodes.drop_last(), id) {
            Some(i) => Some(i),
            None => if nodes.last().id() == id {
                Some(nodes.len() - 1)
            } else {
                None
            },
        }
    }
}

/// The position of the first edge with identifier `id`.
pub open spec fn edge_position(edges: Seq<EdgeModel>, id: Seq<char>) -> Option<int>
    decreases edges.len(),
{
    if edges.len() == 0 {
        None
    } else {
        match edge_position(edges.drop_last(), id) {
            Some(i) => Some(i),
            None => if edges.last().id() == id {
                Some(edges.len() - 1)
            } else {
                None
            },
        }
    }
}

/// What `node_position` finds is the first node with that identifier, and it
/// finds one whenever there is one.
pub proof fn lemma_node_position(nodes: Seq<NodeModel>, id: Seq<char>)
    ensures
        match node_position(nodes, id) {
            Some(i) => 0 <= i < nodes.len() && nodes[i].id() == id && forall|j: int|
                0 <= j < i ==> (#[trigger] nodes[j]).id() != id,
            None => forall|j: int| 0 <= j < nodes.len() ==> (#[trigger] nodes[j]).id() != id,
        },
    decreases nodes.len(),
{
    if nodes.len() > 0 {
        lemma_node_position(nodes.drop_last(), id);
        assert(forall|j: int|
            0 <= j < nodes.len() - 1 ==> nodes.drop_last()[j] == #[trigger] nodes[j]);
    }
}

/// What `edge_position` finds is the first edge with that identifier, and it
/// finds one whenever there is one.
pub proof fn lemma_edge_position(edges: Seq<EdgeModel>, id: Seq<char>)
    ensures
        match edge_position(edges, id) {
            Some(i) => 0 <= i < edges.len() && edges[i].id() == id && forall|j: int|
                0 <= j < i ==> (#[trigger] edges[j]).id() != id,
            None => forall|j: int| 0 <= j < edges.len() ==> (#[trigger] edges[j]).id() != id,
        },
    decreases edges.len(),
{
    if edges.len() > 0 {
        lemma_edge_position(edges.drop_last(), id);
        assert(forall|j: int|
            0 <= j < edges.len() - 1 ==> edges.drop_last()[j] == #[trigger] edges[j]);
    }
}

/// The first node with identifier `id` is where `node_position` says.
pub proof fn lemma_node_position_is(nodes: Seq<NodeModel>, id: Seq<char>, i: int)
    requires
        0 <= i < nodes.len(),
        nodes[i].id() == id,
        forall|j: int| 0 <= j < i ==> (#[trigger] nodes[j]).id() != id,
    ensures
        node_position(nodes, id) == Some(i),
{
    lemma_node_position(nodes, id);
}

/// Where no node has the identifier `id`, `node_position` finds none.
pub proof fn lemma_node_position_none(nodes: Seq<NodeModel>, id: Seq<char>)
    requires
        forall|j: int| 0 <= j < nodes.len() ==> (#[trigger] nodes[j]).id() != id,
    ensures
        node_position(nodes, id) is None,
{
    lemma_node_position(nodes, id);
}

/// The first edge with identifier `id` is where `edge_position` says.
pub proof fn lemma_edge_position_is(edges: Seq<EdgeModel>, id: Seq<char>, i: int)
    requires
        0 <= i < edges.len(),
        edges[i].id() == id,
        forall|j: int| 0 <= j < i ==> (#[trigger] edges[j]).id() != id,
    ensures
        edge_position(edges, id) == Some(i),
{
    lemma_edge_position(edges, id);
}

/// Where no edge has the identifier `id`, `edge_position` finds none.
pub proof fn lemma_edge_position_none(edges: Seq<EdgeModel>, id: Seq<char>)
    requires
        forall|j: int| 0 <= j < edges.len() ==> (#[trigger] edges[j]).id() != id,
    ensures
        edge_position(edges, id) is None,
{
    lemma_edge_position(edges, id);
}

/// The edges of `edges` that do not touch the node `id`, in their order.
pub open spec fn edges_clear_of(edges: Seq<EdgeModel>, id: Seq<char>) -> Seq<EdgeModel>
    decreases edges.len(),
{
    if edges.len() == 0 {
        Seq::empty()
    } else if edges.last().touches(id) {
        edges_clear_of(edges.drop_last(), id)
    } else {
        edges_clear_of(edges.drop_last(), id).push(edges.last())
    }
}

/// The start nodes of the edges that end at `id`, but for `id` itself, in
/// the order of the edges.
pub open spec fn incoming_ends(edges: Seq<EdgeModel>, id: Seq<char>) -> Seq<Seq<char>>
    decreases edges.len(),
{
    if edges.len() == 0 {
        Seq::empty()
    } else if edges.last().to == id && edges.last().from != id {
        incoming_ends(edges.drop_last(), id).push(edges.last().from)
    } else {
        incoming_ends(edges.drop_last(), id)
    }
}

/// The end nodes of the edges that start at `id`, but for `id` itself, in
/// the order of the edges.
pub open spec fn outgoing_ends(edges: Seq<EdgeModel>, id: Seq<char>) -> Seq<Seq<char>>
    decreases edges.len(),
{
    if edges.len() == 0 {
        Seq::empty()
    } else if edges.last().from == id && edges.last().to != id {
        outgoing_ends(edges.drop_last(), id).push(edges.last().to)
    } else {
        outgoing_ends(edges.drop_last(), id)
    }
}

/// The predecessors of the node `id`: the other nodes with an edge to it,
/// sorted, each once.
pub open spec fn predecessors(edges: Seq<EdgeModel>, id: Seq<char>) -> Seq<Seq<char>> {
    sorted_texts(incoming_ends(edges, id))
}

/// The successors of the node `id`: the other nodes with an edge from it,
/// sorted, each once.
pub open spec fn successors(edges: Seq<EdgeModel>, id: Seq<char>) -> Seq<Seq<char>> {
    sorted_texts(outgoing_ends(edges, id))
}

/// The pairs `(f, t)` for `t` in `ts`, in the order of `ts`.
pub open spec fn pairs_from(f: Seq<char>, ts: Seq<Seq<char>>) -> Seq<(Seq<char>, Seq<char>)> {
    Seq::new(ts.len(), |k: int| (f, ts[k]))
}

/// Every pair of one of `fs` with one of `ts`: all pairs of the first of
/// `fs`, then all pairs of the second, and so on.
pub open spec fn cross(fs: Seq<Seq<char>>, ts: Seq<Seq<char>>) -> Seq<(Seq<char>, Seq<char>)>
    decreases fs.len(),
{
    if fs.len() == 0 {
        Seq::empty()
    } else {
        cross(fs.drop_last(), ts) + pairs_from(fs.last(), ts)
    }
}

/// There are as many pairs as the product of the two lengths says.
pub proof fn lemma_cross_len(fs: Seq<Seq<char>>, ts: Seq<Seq<char>>)
    ensures
        cross(fs, ts).len() == fs.len() * ts.len(),
    decreases fs.len(),
{
    if fs.len() > 0 {
        lemma_cross_len(fs.drop_last(), ts);
        assert((fs.len() - 1) * ts.len() + ts.len() == fs.len() * ts.len())
            by (nonlinear_arith);
    }
}

/// Whether the label of a node holds the text that is searched for.
pub open spec fn matches_search(label: Seq<char>, search: Option<Seq<char>>) -> bool {
    match search {
        Some(fragment) => contains_text(label, fragment),
        None => false,
    }
}

/// The identifiers of the nodes whose label holds `fragment`, in the order of the nodes.
pub open spec fn matching_ids(nodes: Seq<NodeModel>, fragment: Seq<char>) -> Seq<Seq<char>>
    decreases nodes.len(),
{
    if nodes.len() == 0 {
        Seq::empty()
    } else if contains_text(nodes.last().label, fragment) {
        matching_ids(nodes.drop_last(), fragment).push(nodes.last().id())
    } else {
        matching_ids(nodes.drop_last(), fragment)
    }
}

/// The identifiers of the nodes at which no edge ends, in the order of the nodes.
pub open spec fn ids_without_incoming(nodes: Seq<NodeModel>, edges: Seq<EdgeModel>) -> Seq<
    Seq<char>,
>
    decreases nodes.len(),
{
    if nodes.len() == 0 {
        Seq::empty()
    } else if exists|k: int| 0 <= k < edges.len() && (#[trigger] edges[k]).to == nodes.last().id() {
        ids_without_incoming(nodes.drop_last(), edges)
    } else {
        ids_without_incoming(nodes.drop_last(), edges).push(nodes.last().id())
    }
}

/// The identifiers of the nodes at which no edge starts, in the order of the nodes.
pub open spec fn ids_without_outgoing(nodes: Seq<NodeModel>, edges: Seq<EdgeModel>) -> Seq<
    Seq<char>,
>
    decreases nodes.len(),
{
    if nodes.len() == 0 {
        Seq::empty()
    } else if exists|k: int|
        0 <= k < edges.len() && (#[trigger] edges[k]).from == nodes.last().id() {
        ids_without_outgoing(nodes.drop_last(), edges)
    } else {
        ids_without_outgoing(nodes.drop_last(), edges).push(nodes.last().id())
    }
}

/// The whole state of a graph.
#[verifier::ext_equal]
pub struct GraphModel {
    pub nodes: Seq<NodeModel>,
    pub edges: Seq<EdgeModel>,
    /// The sequence number that the next node gets.
    pub node_high_water: nat,
    /// The sequence number that the next edge gets.
    pub edge_high_water: nat,
    pub is_left_right: bool,
    pub current_search: Option<Seq<char>>,
    pub current_node: Option<Seq<char>>,
}

impl GraphModel {
    /// The graph without nodes and edges, laid out from top to bottom.
    pub open spec fn empty() -> GraphModel {
        GraphModel {
            nodes: Seq::empty(),
            edges: Seq::empty(),
            node_high_water: 0,
            edge_high_water: 0,
            is_left_right: false,
            current_search: None,
            current_node: None,
        }
    }

    /// Whether the graph has a node with the identifier `id`.
    pub open spec fn has_node(self, id: Seq<char>) -> bool {
        node_position(self.nodes, id) is Some
    }

    /// Whether the graph has an edge with the identifier `id`.
    pub open spec fn has_edge(self, id: Seq<char>) -> bool {
        edge_position(self.edges, id) is Some
    }

    /// The label of the node `id`, if there is such a node.
    pub open spec fn label_of(self, id: Seq<char>) -> Option<Seq<char>> {
        match node_position(self.nodes, id) {
            Some(i) => Some(self.nodes[i].label),
            None => None,
        }
    }

    /// The invariant of a graph. Sequence numbers lie below the high-water
    /// marks and grow along the lists, so that no identifier occurs twice;
    /// every edge joins two nodes of the graph; the selected node, if there
    /// is one, is a node of the graph.
    pub open spec fn wf(self) -> bool {
        &&& forall|i: int|
            0 <= i < self.nodes.len() ==> (#[trigger] self.nodes[i]).serial < self.node_high_water
        &&& forall|i: int, j: int|
            0 <= i < j < self.nodes.len() ==> (#[trigger] self.nodes[i]).serial < (
            #[trigger] self.nodes[j]).serial
        &&& forall|i: int|
            0 <= i < self.edges.len() ==> (#[trigger] self.edges[i]).serial < self.edge_high_water
        &&& forall|i: int, j: int|
            0 <= i < j < self.edges.len() ==> (#[trigger] self.edges[i]).serial < (
            #[trigger] self.edges[j]).serial
        &&& forall|k: int|
            0 <= k < self.edges.len() ==> self.has_node((#[trigger] self.edges[k]).from)
                && self.has_node(self.edges[k].to)
        &&& (self.current_node matches Some(id) ==> self.has_node(id))
    }

    /// The graph with one more node, which has the next identifier and is selected.
    pub open spec fn insert_node(self, label: Seq<char>) -> GraphModel {
        GraphModel {
            nodes: self.nodes.push(NodeModel { serial: self.node_high_water, label }),
            node_high_water: self.node_high_water + 1,
            current_node: Some(node_id(self.node_high_water)),
            ..self
        }
    }

    /// The graph with one more edge, which has the next identifier, where
    /// `from` and `to` are nodes of the graph; else the graph as it is. An
    /// edge may join a node to itself, and two nodes may be joined more than once.
    pub open spec fn link_edge(self, from: Seq<char>, to: Seq<char>) -> GraphModel {
        if self.has_node(from) && self.has_node(to) {
            GraphModel {
                edges: self.edges.push(EdgeModel { serial: self.edge_high_water, from, to }),
                edge_high_water: self.edge_high_water + 1,
                ..self
            }
        } else {
            self
        }
    }

    /// The graph without the edge `id`; the graph as it is where there is no such edge.
    pub open spec fn unlink_edge(self, id: Seq<char>) -> GraphModel {
        match edge_position(self.edges, id) {
            Some(i) => GraphModel { edges: self.edges.remove(i), ..self },
            None => self,
        }
    }

    /// The graph with the node `id` relabelled and selected; the graph as it
    /// is where there is no such node.
    pub open spec fn rename_node(self, id: Seq<char>, label: Seq<char>) -> GraphModel {
        match node_position(self.nodes, id) {
            Some(i) => GraphModel {
                nodes: self.nodes.update(i, NodeModel { serial: self.nodes[i].serial, label }),
                current_node: Some(id),
                ..self
            },
            None => self,
        }
    }

    /// The graph with the node `id` selected; the graph as it is where there
    /// is no such node.
    pub open spec fn select_node(self, id: Seq<char>) -> GraphModel {
        if self.has_node(id) {
            GraphModel { current_node: Some(id), ..self }
        } else {
            self
        }
    }

    /// The graph with a new node and an edge to it from the node `from`; the
    /// graph as it is where there is no such node.
    pub open spec fn inject_after_node(self, from: Seq<char>, label: Seq<char>) -> GraphModel {
        if self.has_node(from) {
            self.insert_node(label).link_edge(from, node_id(self.node_high_water))
        } else {
            self
        }
    }

    /// The graph with a new node and an edge from it to the node `to`; the
    /// graph as it is where there is no such node.
    pub open spec fn inject_before_node(self, to: Seq<char>, label: Seq<char>) -> GraphModel {
        if self.has_node(to) {
            self.insert_node(label).link_edge(node_id(self.node_high_water), to)
        } else {
            self
        }
    }

    /// The graph with a new node in the place of the edge `id`: the edge goes,
    /// an edge from its start to the new node and one from the new node to its
    /// end come. The graph as it is where there is no such edge.
    pub open spec fn expand_edge(self, id: Seq<char>, label: Seq<char>) -> GraphModel {
        match edge_position(self.edges, id) {
            Some(i) => {
                let middle = node_id(self.node_high_water);
                self.unlink_edge(id).insert_node(label).link_edge(
                    self.edges[i].from,
                    middle,
                ).link_edge(middle, self.edges[i].to)
            },
            None => self,
        }
    }

    /// The graph laid out in the given direction.
    pub open spec fn set_direction(self, is_left_right: bool) -> GraphModel {
        GraphModel { is_left_right, ..self }
    }

    /// The graph with `fragment` as the text that is searched for.
    pub open spec fn highlight_search_results(self, fragment: Seq<char>) -> GraphModel {
        GraphModel { current_search: Some(fragment), ..self }
    }

    /// `link_edge` for each of `pairs`, in their order.
    pub open spec fn link_all(self, pairs: Seq<(Seq<char>, Seq<char>)>) -> GraphModel
        decreases pairs.len(),
    {
        if pairs.len() == 0 {
            self
        } else {
            self.link_all(pairs.drop_last()).link_edge(pairs.last().0, pairs.last().1)
        }
    }

    /// The graph without the node `id` and without the edges that touch it.
    pub open spec fn without_node(self, id: Seq<char>) -> GraphModel {
        match node_position(self.nodes, id) {
            Some(i) => GraphModel {
                nodes: self.nodes.remove(i),
                edges: edges_clear_of(self.edges, id),
                current_node: if self.current_node == Some(id) {
                    None
                } else {
                    self.current_node
                },
                ..self
            },
            None => self,
        }
    }

    /// Deleting the node `id`. With `keep_edges`, every predecessor of the
    /// node is then linked to every successor of it.
    pub open spec fn delete_node(self, id: Seq<char>, keep_edges: bool) -> GraphModel {
        if self.has_node(id) && keep_edges {
            self.without_node(id).link_all(
                cross(predecessors(self.edges, id), successors(self.edges, id)),
            )
        } else {
            self.without_node(id)
        }
    }

    /// What a command makes of the graph.
    pub open spec fn apply(self, command: CommandModel) -> GraphModel {
        match command {
            CommandModel::DeleteNode { id, keep_edges } => self.delete_node(id, keep_edges),
            CommandModel::ExpandEdge { id, label } => self.expand_edge(id, label),
            CommandModel::InsertAfterNode { id, label } => self.inject_after_node(id, label),
            CommandModel::InsertBeforeNode { id, label } => self.inject_before_node(id, label),
            CommandModel::InsertNode { label } => self.insert_node(label),
            CommandModel::LinkEdge { from, to } => self.link_edge(from, to),
            CommandModel::RenameNode { id, label } => self.rename_node(id, label),
            CommandModel::SelectNode { id } => self.select_node(id),
            CommandModel::SetDirection { is_left_right } => self.set_direction(is_left_right),
            CommandModel::UnlinkEdge { id } => self.unlink_edge(id),
        }
    }

    /// The graph after each of `commands`, in their order.
    pub open spec fn apply_all(self, commands: Seq<CommandModel>) -> GraphModel
        decreases commands.len(),
    {
        if commands.len() == 0 {
            self
        } else {
            self.apply_all(commands.drop_last()).apply(commands.last())
        }
    }

    /// The position of the node `id` among the nodes; zero where there is no such node.
    pub open spec fn position_of(self, id: Seq<char>) -> int {
        match node_position(self.nodes, id) {
            Some(i) => i,
            None => 0,
        }
    }

    /// For each edge, the positions of the node at which it starts and of
    /// the node at which it ends.
    pub open spec fn edge_positions(self) -> Seq<(int, int)> {
        Seq::new(
            self.edges.len(),
            |k: int| (self.position_of(self.edges[k].from), self.position_of(self.edges[k].to)),
        )
    }

    /// The nodes without an incoming edge, sorted by identifier.
    pub open spec fn sources(self) -> Seq<Seq<char>> {
        sorted_texts(ids_without_incoming(self.nodes, self.edges))
    }

    /// The nodes without an outgoing edge, sorted by identifier.
    pub open spec fn sinks(self) -> Seq<Seq<char>> {
        sorted_texts(ids_without_outgoing(self.nodes, self.edges))
    }

    /// How the node at position `i` is shown: as a search result where its
    /// label holds the text searched for, else as the selected node where it
    /// is that, else plainly.
    pub open spec fn highlight_of(self, i: int) -> NodeHighlight {
        if matches_search(self.nodes[i].label, self.current_search) {
            NodeHighlight::SearchResult
        } else if self.current_node == Some(self.nodes[i].id()) {
            NodeHighlight::CurrentNode
        } else {
            NodeHighlight::Normal
        }
    }

    /// The call that hands the node at position `i` to an exporter.
    pub open spec fn node_event(self, i: int) -> ExportEvent {
        ExportEvent::Node {
            id: self.nodes[i].id(),
            label: self.nodes[i].label,
            highlight: self.highlight_of(i),
        }
    }

    /// The call that hands the edge at position `k` to an exporter.
    pub open spec fn edge_event(self, k: int) -> ExportEvent {
        ExportEvent::Edge { id: self.edges[k].id(), from: self.edges[k].from, to: self.edges[k].to }
    }

    /// What an export hands to the exporter: the direction, then every node,
    /// then every edge.
    pub open spec fn export_events(self) -> Seq<ExportEvent> {
        seq![ExportEvent::Direction { is_left_right: self.is_left_right }] + Seq::new(
            self.nodes.len(),
            |i: int| self.node_event(i),
        ) + Seq::new(self.edges.len(), |k: int| self.edge_event(k))
    }

    /// What `insert_node` reports.
    pub open spec fn insert_message(self, label: Seq<char>) -> Seq<char> {
        "inserted node "@ + node_id(self.node_high_water) + ": '"@ + label + "'"@
    }

    /// What `link_edge` reports.
    pub open spec fn link_message(self, from: Seq<char>, to: Seq<char>) -> Seq<char> {
        if !self.has_node(from) {
            "source node "@ + from + " not found"@
        } else if !self.has_node(to) {
            "target node "@ + to + " not found"@
        } else {
            "Added edge "@ + edge_id(self.edge_high_water) + " from "@ + from + " to "@ + to
        }
    }

    /// What `unlink_edge` reports.
    pub open spec fn unlink_message(self, id: Seq<char>) -> Seq<char> {
        if self.has_edge(id) {
            "edge "@ + id + " removed"@
        } else {
            "edge "@ + id + " not found"@
        }
    }

    /// What `rename_node` reports.
    pub open spec fn rename_message(self, id: Seq<char>, label: Seq<char>) -> Seq<char> {
        if self.has_node(id) {
            "Node "@ + id + " renamed to '"@ + label + "'"@
        } else {
            "Could not find node "@ + id
        }
    }

    /// What `select_node` reports.
    pub open spec fn select_message(self, id: Seq<char>) -> Seq<char> {
        if self.has_node(id) {
            "node "@ + id + " selected"@
        } else {
            "node "@ + id + " not found"@
        }
    }

    /// What `delete_node` reports.
    pub open spec fn delete_message(self, id: Seq<char>) -> Seq<char> {
        if self.has_node(id) {
            "node "@ + id + " removed"@
        } else {
            "node "@ + id + " not found"@
        }
    }

    /// What `inject_after_node` reports.
    pub open spec fn inject_after_message(self, from: Seq<char>, label: Seq<char>) -> Seq<char> {
        if self.has_node(from) {
            "inserted node "@ + node_id(self.node_high_water) + ": '"@ + label + "' after "@ + from
        } else {
            "source node "@ + from + " not found"@
        }
    }

    /// What `inject_before_node` reports.
    pub open spec fn inject_before_message(self, to: Seq<char>, label: Seq<char>) -> Seq<char> {
        if self.has_node(to) {
            "inserted node "@ + node_id(self.node_high_water) + ": '"@ + label + "' before "@ + to
        } else {
            "target node "@ + to + " not found"@
        }
    }

    /// What `expand_edge` reports.
    pub open spec fn expand_message(self, id: Seq<char>, label: Seq<char>) -> Seq<char> {
        match edge_position(self.edges, id) {
            Some(i) => "injected "@ + node_id(self.node_high_water) + ": '"@ + label
                + "' between "@ + self.edges[i].from + " and "@ + self.edges[i].to,
            None => "edge "@ + id + " not found"@,
        }
    }

    /// What `set_direction` reports.
    pub open spec fn direction_message(is_left_right: bool) -> Seq<char> {
        if is_left_right {
            "Direction changed to LR"@
        } else {
            "Direction changed to TB"@
        }
    }

    /// The line of a search result: the identifier, a colon and the label.
    pub open spec fn search_line(self, id: Seq<char>) -> Seq<char> {
        match self.label_of(id) {
            Some(label) => id + ": "@ + label,
            None => id + ": "@,
        }
    }

    /// The lines of the nodes `ids`, one below the other.
    pub open spec fn search_lines(self, ids: Seq<Seq<char>>) -> Seq<char>
        decreases ids.len(),
    {
        if ids.len() == 0 {
            Seq::empty()
        } else if ids.len() == 1 {
            self.search_line(ids[0])
        } else {
            self.search_lines(ids.drop_last()) + "\n"@ + self.search_line(ids.last())
        }
    }

    /// What `highlight_search_results` reports: a heading, then one line for
    /// each node whose label holds the text, sorted by identifier.
    pub open spec fn search_message(self, fragment: Seq<char>) -> Seq<char> {
        "Search results for: "@ + fragment + ",\n"@ + self.search_lines(
            sorted_texts(matching_ids(self.nodes, fragment)),
        ) + "\n"@
    }

    /// What a command reports.
    pub open spec fn message(self, command: CommandModel) -> Seq<char> {
        match command {
            CommandModel::DeleteNode { id, keep_edges } => self.delete_message(id),
            CommandModel::ExpandEdge { id, label } => self.expand_message(id, label),
            CommandModel::InsertAfterNode { id, label } => self.inject_after_message(id, label),
            CommandModel::InsertBeforeNode { id, label } => self.inject_before_message(id, label),
            CommandModel::InsertNode { label } => self.insert_message(label),
            CommandModel::LinkEdge { from, to } => self.link_message(from, to),
            CommandModel::RenameNode { id, label } => self.rename_message(id, label),
            CommandModel::SelectNode { id } => self.select_message(id),
            CommandModel::SetDirection { is_left_right } => Self::direction_message(is_left_right),
            CommandModel::UnlinkEdge { id } => self.unlink_message(id),
        }
    }

    /// Whether the counters leave room for what the command may add.
    pub open spec fn has_room_for(self, command: CommandModel) -> bool {
        match command {
            CommandModel::DeleteNode { id, keep_edges } => keep_edges ==> self.edge_high_water
                + predecessors(self.edges, id).len() * successors(self.edges, id).len()
                <= usize::MAX,
            CommandModel::ExpandEdge { id, label } => self.node_high_water < usize::MAX
                && self.edge_high_water + 1 < usize::MAX,
            CommandModel::InsertAfterNode { id, label } => self.node_high_water < usize::MAX
                && self.edge_high_water < usize::MAX,
            CommandModel::InsertBeforeNode { id, label } => self.node_high_water < usize::MAX
                && self.edge_high_water < usize::MAX,
            CommandModel::InsertNode { label } => self.node_high_water < usize::MAX,
            CommandModel::LinkEdge { from, to } => self.edge_high_water < usize::MAX,
            _ => true,
        }
    }
}

} // verus!
