//! The graph and its commands.
use crate::command::GraphCommand;
use crate::exporter::{
    are_made, events, is_made, ExportCall, ExportEvent, Exporter, NodeHighlight,
};
use crate::model::{
    cross, edge_id, edge_position, edges_clear_of, ids_without_incoming, ids_without_outgoing,
    incoming_ends, lemma_cross_len, lemma_edge_position_is, lemma_edge_position_none,
    lemma_node_position_is, lemma_node_position_none, matching_ids, node_id, node_position,
    outgoing_ends, pairs_from, predecessors, successors, EdgeModel, GraphModel, NodeModel,
};
use crate::names::{CommandResult, Id, Label};
use crate::text::{
    contains, decimal, insert_text, push_decimal, push_text, sorted_texts, string_of, texts,
};
use vstd::prelude::*;

verus! {

/// A labelled node of a graph.
pub struct Node {
    id: Id,
    label: Label,
    serial: usize,
}

impl View for Node {
    type V = NodeModel;

    closed spec fn view(&self) -> NodeModel {
        NodeModel { serial: self.serial as nat, label: self.label@ }
    }
}

impl Node {
    /// The text attached to the node.
    pub fn label(&self) -> (r: &Label)
        ensures
            r@ == self@.label,
    {
        &self.label
    }

    /// The text of the identifier of the node.
    pub closed spec fn id_text(&self) -> Seq<char> {
        self.id@
    }

    /// The identifier of the node.
    pub fn id(&self) -> (r: &Id)
        ensures
            r@ == self.id_text(),
    {
        &self.id
    }
}

/// The nodes of a vector as specifications see them.
pub open spec fn node_models(v: Seq<Node>) -> Seq<NodeModel> {
    v.map_values(|n: Node| n@)
}

/// A directed edge between two nodes, which it names by their identifiers.
pub struct Edge {
    id: Id,
    from: Id,
    to: Id,
    serial: usize,
}

impl View for Edge {
    type V = EdgeModel;

    closed spec fn view(&self) -> EdgeModel {
        EdgeModel { serial: self.serial as nat, from: self.from@, to: self.to@ }
    }
}

/// A directed graph of labelled nodes. Nodes and edges carry identifiers
/// that the graph hands out and never hands out again.
pub struct Graph {
    node_high_water: usize,
    edge_high_water: usize,
    nodes: Vec<Node>,
    edges: Vec<Edge>,
    is_left_right: bool,
    current_search: Option<Label>,
    current_node: Option<Id>,
}

/// The text of a label that may be missing.
pub open spec fn text_of_label(label: Option<Label>) -> Option<Seq<char>> {
    match label {
        Some(l) => Some(l@),
        None => None,
    }
}

/// The text of an identifier that may be missing.
pub open spec fn text_of_id(id: Option<Id>) -> Option<Seq<char>> {
    match id {
        Some(i) => Some(i@),
        None => None,
    }
}

impl View for Graph {
    type V = GraphModel;

    closed spec fn view(&self) -> GraphModel {
        GraphModel {
            nodes: self.nodes@.map_values(|n: Node| n@),
            edges: self.edges@.map_values(|e: Edge| e@),
            node_high_water: self.node_high_water as nat,
            edge_high_water: self.edge_high_water as nat,
            is_left_right: self.is_left_right,
            current_search: text_of_label(self.current_search),
            current_node: text_of_id(self.current_node),
        }
    }
}

impl Default for Graph {
    /// The empty graph.
    fn default() -> (r: Graph)
        ensures
            r.wf(),
            r@ == GraphModel::empty(),
    {
        Graph::new()
    }
}

impl Graph {
    /// The invariant of the graph: that of its model, and every identifier
    /// is the one that its sequence number gives.
    pub closed spec fn wf(&self) -> bool {
        &&& self@.wf()
        &&& forall|i: int|
            0 <= i < self.nodes@.len() ==> (#[trigger] self.nodes@[i]).id@ == node_id(
                self.nodes@[i].serial as nat,
            )
        &&& forall|k: int|
            0 <= k < self.edges@.len() ==> (#[trigger] self.edges@[k]).id@ == edge_id(
                self.edges@[k].serial as nat,
            )
    }

    /// A well-formed graph has a well-formed model.
    pub proof fn lemma_wf(&self)
        requires
            self.wf(),
        ensures
            self@.wf(),
    {
    }

    /// The empty graph.
    pub fn new() -> (r: Graph)
        ensures
            r.wf(),
            r@ == GraphModel::empty(),
    {
        Graph {
            node_high_water: 0,
            edge_high_water: 0,
            nodes: Vec::new(),
            edges: Vec::new(),
            is_left_right: false,
            current_search: None,
            current_node: None,
        }
    }

    /// The graph in a few words: how many nodes and edges it has.
    pub fn to_string(&self) -> (r: String)
        ensures
            r@ == "Graph: "@ + decimal(self@.nodes.len()) + " nodes, "@ + decimal(
                self@.edges.len(),
            ) + " edges"@,
    {
        let mut out = String::new();
        push_text(&mut out, "Graph: ");
        push_decimal(&mut out, self.nodes.len() as u64);
        push_text(&mut out, " nodes, ");
        push_decimal(&mut out, self.edges.len() as u64);
        push_text(&mut out, " edges");
        out
    }

    /// The number of nodes.
    pub fn node_count(&self) -> (r: usize)
        ensures
            r == self@.nodes.len(),
    {
        self.nodes.len()
    }

    /// The number of edges.
    pub fn edge_count(&self) -> (r: usize)
        ensures
            r == self@.edges.len(),
    {
        self.edges.len()
    }

    /// The sequence number that the next node gets.
    pub fn node_high_water(&self) -> (r: usize)
        ensures
            r == self@.node_high_water,
    {
        self.node_high_water
    }

    /// The sequence number that the next edge gets.
    pub fn edge_high_water(&self) -> (r: usize)
        ensures
            r == self@.edge_high_water,
    {
        self.edge_high_water
    }

    /// Whether the graph is laid out from left to right.
    pub fn is_left_right(&self) -> (r: bool)
        ensures
            r == self@.is_left_right,
    {
        self.is_left_right
    }

    /// The selected node, if there is one.
    pub fn current_node(&self) -> (r: Option<Id>)
        ensures
            text_of_id(r) == self@.current_node,
    {
        match &self.current_node {
            Some(id) => Some(id.clone()),
            None => None,
        }
    }

    /// The text last searched for, if there was a search.
    pub fn current_search(&self) -> (r: Option<Label>)
        ensures
            text_of_label(r) == self@.current_search,
    {
        match &self.current_search {
            Some(l) => Some(l.clone()),
            None => None,
        }
    }

    fn next_node_id(&mut self) -> (r: Id)
        requires
            old(self).node_high_water < usize::MAX,
        ensures
            r@ == node_id(old(self).node_high_water as nat),
            final(self).node_high_water == old(self).node_high_water + 1,
            final(self).edge_high_water == old(self).edge_high_water,
            final(self).nodes == old(self).nodes,
            final(self).edges == old(self).edges,
            final(self).is_left_right == old(self).is_left_right,
            final(self).current_search == old(self).current_search,
            final(self).current_node == old(self).current_node,
    {
        let mut text = String::new();
        text.push('n');
        push_decimal(&mut text, self.node_high_water as u64);
        self.node_high_water += 1;
        Id::new(text.as_str())
    }

    fn next_edge_id(&mut self) -> (r: Id)
        requires
            old(self).edge_high_water < usize::MAX,
        ensures
            r@ == edge_id(old(self).edge_high_water as nat),
            final(self).edge_high_water == old(self).edge_high_water + 1,
            final(self).node_high_water == old(self).node_high_water,
            final(self).nodes == old(self).nodes,
            final(self).edges == old(self).edges,
            final(self).is_left_right == old(self).is_left_right,
            final(self).current_search == old(self).current_search,
            final(self).current_node == old(self).current_node,
    {
        let mut text = String::new();
        text.push('e');
        push_decimal(&mut text, self.edge_high_water as u64);
        self.edge_high_water += 1;
        Id::new(text.as_str())
    }

    fn find_edge_idx(&self, id: &Id) -> (r: Option<usize>)
        requires
            self.wf(),
        ensures
            match r {
                Some(i) => edge_position(self@.edges, id@) == Some(i as int) && i
                    < self.edges@.len(),
                None => edge_position(self@.edges, id@) is None,
            },
    {
        let mut i: usize = 0;
        while i < self.edges.len()
            invariant
                self.wf(),
                i <= self.edges@.len(),
                forall|j: int| 0 <= j < i ==> (#[trigger] self@.edges[j]).id() != id@,
            decreases self.edges.len() - i,
        {
            if self.edges[i].id == *id {
                proof {
                    lemma_edge_position_is(self@.edges, id@, i as int);
                }
                return Some(i);
            }
            i += 1;
        }
        proof {
            lemma_edge_position_none(self@.edges, id@);
        }
        None
    }

    fn find_node_idx(&self, id: &Id) -> (r: Option<usize>)
        requires
            self.wf(),
        ensures
            match r {
                Some(i) => node_position(self@.nodes, id@) == Some(i as int) && i
                    < self.nodes@.len(),
                None => node_position(self@.nodes, id@) is None,
            },
    {
        let mut i: usize = 0;
        while i < self.nodes.len()
            invariant
                self.wf(),
                i <= self.nodes@.len(),
                forall|j: int| 0 <= j < i ==> (#[trigger] self@.nodes[j]).id() != id@,
            decreases self.nodes.len() - i,
        {
            if self.nodes[i].id == *id {
                proof {
                    lemma_node_position_is(self@.nodes, id@, i as int);
                }
                return Some(i);
            }
            i += 1;
        }
        proof {
            lemma_node_position_none(self@.nodes, id@);
        }
        None
    }

    /// The nodes themselves, in the order of their insertion.
    pub closed spec fn node_seq(&self) -> Seq<Node> {
        self.nodes@
    }

    /// The nodes, in the order of their insertion.
    pub fn nodes(&self) -> (r: &Vec<Node>)
        requires
            self.wf(),
        ensures
            r@ == self.node_seq(),
            node_models(r@) == self@.nodes,
            forall|i: int|
                0 <= i < r@.len() ==> (#[trigger] r@[i]).id_text() == self@.nodes[i].id(),
    {
        &self.nodes
    }

    /// For each edge, in the order of their insertion, the positions of the
    /// two nodes that it joins.
    pub fn edge_ends(&self) -> (r: Vec<(usize, usize)>)
        requires
            self.wf(),
        ensures
            r@.len() == self@.edges.len(),
            forall|k: int|
                0 <= k < r@.len() ==> (#[trigger] r@[k]).0 < self@.nodes.len() && r@[k].1
                    < self@.nodes.len() && (r@[k].0 as int, r@[k].1 as int)
                    == self@.edge_positions()[k],
    {
        let mut out: Vec<(usize, usize)> = Vec::new();
        let mut k: usize = 0;
        while k < self.edges.len()
            invariant
                self.wf(),
                k <= self.edges@.len(),
                out@.len() == k,
                forall|j: int|
                    0 <= j < k ==> (#[trigger] out@[j]).0 < self@.nodes.len() && out@[j].1
                        < self@.nodes.len() && (out@[j].0 as int, out@[j].1 as int)
                        == self@.edge_positions()[j],
            decreases self.edges.len() - k,
        {
            let from = self.find_node_idx(&self.edges[k].from);
            let to = self.find_node_idx(&self.edges[k].to);
            assert(self@.edges[k as int].from == self.edges@[k as int].from@);
            match (from, to) {
                (Some(a), Some(b)) => {
                    out.push((a, b));
                },
                _ => {
                    out.push((0, 0));
                },
            }
            k += 1;
        }
        out
    }

    /// The position of the node `id` among the nodes, if there is such a node.
    pub fn position(&self, id: &Id) -> (r: Option<usize>)
        requires
            self.wf(),
        ensures
            match r {
                Some(i) => node_position(self@.nodes, id@) == Some(i as int) && i
                    < self@.nodes.len(),
                None => node_position(self@.nodes, id@) is None,
            },
    {
        self.find_node_idx(id)
    }

    /// The label of the node `id`, if the graph has such a node.
    pub fn find_node_label(&self, id: &Id) -> (r: Option<Label>)
        requires
            self.wf(),
        ensures
            text_of_label(r) == self@.label_of(id@),
    {
        match self.find_node_idx(id) {
            Some(idx) => Some(self.nodes[idx].label.clone()),
            None => None,
        }
    }
}

/// The texts of a vector of identifiers.
pub open spec fn id_texts(v: Seq<Id>) -> Seq<Seq<char>> {
    v.map_values(|x: Id| x@)
}

impl Graph {
    /// Adds a node with the given label and selects it.
    pub fn insert_node(&mut self, label: Label) -> (r: (Id, CommandResult))
        requires
            old(self).wf(),
            old(self)@.node_high_water < usize::MAX,
        ensures
            final(self).wf(),
            final(self)@ == old(self)@.insert_node(label@),
            r.0@ == node_id(old(self)@.node_high_water),
            r.1@ == old(self)@.insert_message(label@),
    {
        let ghost before = self@;
        let serial = self.node_high_water;
        let id = self.next_node_id();
        let mut message = String::new();
        push_text(&mut message, "inserted node ");
        push_text(&mut message, id.as_str());
        push_text(&mut message, ": '");
        push_text(&mut message, label.as_str());
        push_text(&mut message, "'");
        assert(message@ == before.insert_message(label@));
        let node = Node { id: id.clone(), label, serial };
        self.nodes.push(node);
        self.current_node = Some(id.clone());
        proof {
            assert(self@.nodes == before.nodes.push(
                NodeModel { serial: serial as nat, label: label@ },
            ));
            crate::laws::lemma_insert_node_wf(before, label@);
        }
        (id, CommandResult::new(message.as_str()))
    }

    /// Adds an edge from `from` to `to`, where both are nodes of the graph.
    pub fn link_edge(&mut self, from: &Id, to: &Id) -> (r: CommandResult)
        requires
            old(self).wf(),
            old(self)@.edge_high_water < usize::MAX,
        ensures
            final(self).wf(),
            final(self)@ == old(self)@.link_edge(from@, to@),
            r@ == old(self)@.link_message(from@, to@),
    {
        let ghost before = self@;
        if self.find_node_idx(from).is_none() {
            let mut message = String::new();
            push_text(&mut message, "source node ");
            push_text(&mut message, from.as_str());
            push_text(&mut message, " not found");
            return CommandResult::new(message.as_str());
        }
        if self.find_node_idx(to).is_none() {
            let mut message = String::new();
            push_text(&mut message, "target node ");
            push_text(&mut message, to.as_str());
            push_text(&mut message, " not found");
            return CommandResult::new(message.as_str());
        }
        let serial = self.edge_high_water;
        let id = self.next_edge_id();
        let mut message = String::new();
        push_text(&mut message, "Added edge ");
        push_text(&mut message, id.as_str());
        push_text(&mut message, " from ");
        push_text(&mut message, from.as_str());
        push_text(&mut message, " to ");
        push_text(&mut message, to.as_str());
        let edge = Edge { id, from: from.clone(), to: to.clone(), serial };
        self.edges.push(edge);
        proof {
            assert(self@.edges == before.edges.push(
                EdgeModel { serial: serial as nat, from: from@, to: to@ },
            ));
            crate::laws::lemma_link_edge_wf(before, from@, to@);
        }
        CommandResult::new(message.as_str())
    }

    /// Removes the edge `id`.
    pub fn unlink_edge(&mut self, id: &Id) -> (r: CommandResult)
        requires
            old(self).wf(),
        ensures
            final(self).wf(),
            final(self)@ == old(self)@.unlink_edge(id@),
            r@ == old(self)@.unlink_message(id@),
    {
        let ghost before = self@;
        match self.find_edge_idx(id) {
            Some(idx) => {
                self.edges.remove(idx);
                proof {
                    assert(self@.edges == before.edges.remove(idx as int));
                    crate::laws::lemma_unlink_edge_wf(before, id@);
                }
                let message = crate::command::join3("edge ", id.as_str(), " removed");
                CommandResult::new(message.as_str())
            },
            None => {
                let message = crate::command::join3("edge ", id.as_str(), " not found");
                CommandResult::new(message.as_str())
            },
        }
    }

    /// Gives the node `id` another label and selects it.
    pub fn rename_node(&mut self, id: &Id, label: Label) -> (r: CommandResult)
        requires
            old(self).wf(),
        ensures
            final(self).wf(),
            final(self)@ == old(self)@.rename_node(id@, label@),
            r@ == old(self)@.rename_message(id@, label@),
    {
        let ghost before = self@;
        match self.find_node_idx(id) {
            Some(idx) => {
                let message = crate::command::join5(
                    "Node ",
                    id.as_str(),
                    " renamed to '",
                    label.as_str(),
                    "'",
                );
                self.current_node = Some(id.clone());
                let node = Node {
                    id: self.nodes[idx].id.clone(),
                    label,
                    serial: self.nodes[idx].serial,
                };
                self.nodes.set(idx, node);
                proof {
                    assert(self@.nodes == before.nodes.update(
                        idx as int,
                        NodeModel { serial: before.nodes[idx as int].serial, label: label@ },
                    ));
                    crate::laws::lemma_rename_node_wf(before, id@, label@);
                }
                CommandResult::new(message.as_str())
            },
            None => {
                let message = crate::command::join3("Could not find node ", id.as_str(), "");
                assert(""@ == Seq::<char>::empty()) by {
                    reveal_strlit("");
                }
                CommandResult::new(message.as_str())
            },
        }
    }

    /// Selects the node `id`.
    pub fn select_node(&mut self, id: &Id) -> (r: CommandResult)
        requires
            old(self).wf(),
        ensures
            final(self).wf(),
            final(self)@ == old(self)@.select_node(id@),
            r@ == old(self)@.select_message(id@),
    {
        if self.find_node_idx(id).is_none() {
            let message = crate::command::join3("node ", id.as_str(), " not found");
            return CommandResult::new(message.as_str());
        }
        self.current_node = Some(id.clone());
        let message = crate::command::join3("node ", id.as_str(), " selected");
        CommandResult::new(message.as_str())
    }

    /// Sets the direction in which the graph is laid out.
    pub fn set_direction(&mut self, is_left_right: bool) -> (r: CommandResult)
        requires
            old(self).wf(),
        ensures
            final(self).wf(),
            final(self)@ == old(self)@.set_direction(is_left_right),
            r@ == GraphModel::direction_message(is_left_right),
    {
        self.is_left_right = is_left_right;
        if is_left_right {
            CommandResult::new("Direction changed to LR")
        } else {
            CommandResult::new("Direction changed to TB")
        }
    }

    /// Adds a node with the given label and an edge to it from the node `from`.
    pub fn inject_after_node(&mut self, from: &Id, label: &Label) -> (r: CommandResult)
        requires
            old(self).wf(),
            old(self)@.node_high_water < usize::MAX,
            old(self)@.edge_high_water < usize::MAX,
        ensures
            final(self).wf(),
            final(self)@ == old(self)@.inject_after_node(from@, label@),
            r@ == old(self)@.inject_after_message(from@, label@),
    {
        if self.find_node_idx(from).is_none() {
            let message = crate::command::join3("source node ", from.as_str(), " not found");
            return CommandResult::new(message.as_str());
        }
        let (id, _) = self.insert_node(label.clone());
        self.link_edge(from, &id);
        let mut message = crate::command::join5(
            "inserted node ",
            id.as_str(),
            ": '",
            label.as_str(),
            "' after ",
        );
        push_text(&mut message, from.as_str());
        CommandResult::new(message.as_str())
    }

    /// Adds a node with the given label and an edge from it to the node `to`.
    pub fn inject_before_node(&mut self, to: &Id, label: &Label) -> (r: CommandResult)
        requires
            old(self).wf(),
            old(self)@.node_high_water < usize::MAX,
            old(self)@.edge_high_water < usize::MAX,
        ensures
            final(self).wf(),
            final(self)@ == old(self)@.inject_before_node(to@, label@),
            r@ == old(self)@.inject_before_message(to@, label@),
    {
        if self.find_node_idx(to).is_none() {
            let message = crate::command::join3("target node ", to.as_str(), " not found");
            return CommandResult::new(message.as_str());
        }
        let (id, _) = self.insert_node(label.clone());
        self.link_edge(&id, to);
        let mut message = crate::command::join5(
            "inserted node ",
            id.as_str(),
            ": '",
            label.as_str(),
            "' before ",
        );
        push_text(&mut message, to.as_str());
        CommandResult::new(message.as_str())
    }

    /// Puts a new node with the given label in the middle of the edge
    /// `edge_id`: the edge goes, and two edges through the new node take its place.
    pub fn expand_edge(&mut self, edge_id: &Id, label: &Label) -> (r: CommandResult)
        requires
            old(self).wf(),
            old(self)@.node_high_water < usize::MAX,
            old(self)@.edge_high_water + 1 < usize::MAX,
        ensures
            final(self).wf(),
            final(self)@ == old(self)@.expand_edge(edge_id@, label@),
            r@ == old(self)@.expand_message(edge_id@, label@),
    {
        let (from, to) = match self.find_edge_idx(edge_id) {
            Some(idx) => (self.edges[idx].from.clone(), self.edges[idx].to.clone()),
            None => {
                let message = crate::command::join3("edge ", edge_id.as_str(), " not found");
                return CommandResult::new(message.as_str());
            },
        };
        self.unlink_edge(edge_id);
        let (new_id, _) = self.insert_node(label.clone());
        self.link_edge(&from, &new_id);
        self.link_edge(&new_id, &to);
        let mut message = crate::command::join5(
            "injected ",
            new_id.as_str(),
            ": '",
            label.as_str(),
            "' between ",
        );
        push_text(&mut message, from.as_str());
        push_text(&mut message, " and ");
        push_text(&mut message, to.as_str());
        CommandResult::new(message.as_str())
    }
}

impl Graph {
    /// The predecessors and the successors of the node `id`, each sorted.
    fn neighbours(&self, id: &Id) -> (r: (Vec<Vec<char>>, Vec<Vec<char>>))
        ensures
            texts(r.0@) == predecessors(self@.edges, id@),
            texts(r.1@) == successors(self@.edges, id@),
    {
        let mut before: Vec<Vec<char>> = Vec::new();
        let mut after: Vec<Vec<char>> = Vec::new();
        let ghost all = self@.edges;
        let mut k: usize = 0;
        while k < self.edges.len()
            invariant
                k <= self.edges@.len(),
                all == self@.edges,
                texts(before@) == sorted_texts(incoming_ends(all.take(k as int), id@)),
                texts(after@) == sorted_texts(outgoing_ends(all.take(k as int), id@)),
            decreases self.edges.len() - k,
        {
            let edge = &self.edges[k];
            assert(all.take(k + 1).drop_last() == all.take(k as int));
            let from_is = edge.from == *id;
            let to_is = edge.to == *id;
            if to_is && !from_is {
                assert(incoming_ends(all.take(k + 1), id@).drop_last() == incoming_ends(
                    all.take(k as int),
                    id@,
                ));
                insert_text(&mut before, edge.from.chars());
            }
            if from_is && !to_is {
                assert(outgoing_ends(all.take(k + 1), id@).drop_last() == outgoing_ends(
                    all.take(k as int),
                    id@,
                ));
                insert_text(&mut after, edge.to.chars());
            }
            k += 1;
        }
        assert(all.take(k as int) == all);
        (before, after)
    }

    /// Removes the edges that touch the node `id`.
    fn drop_edges_of(&mut self, id: &Id)
        ensures
            final(self)@.edges == edges_clear_of(old(self)@.edges, id@),
            final(self).nodes == old(self).nodes,
            final(self).node_high_water == old(self).node_high_water,
            final(self).edge_high_water == old(self).edge_high_water,
            final(self).is_left_right == old(self).is_left_right,
            final(self).current_search == old(self).current_search,
            final(self).current_node == old(self).current_node,
            forall|k: int|
                0 <= k < final(self).edges@.len() ==> old(self).edges@.contains(
                    #[trigger] final(self).edges@[k],
                ),
    {
        let ghost all = self@.edges;
        let ghost k: int = 0;
        let mut i: usize = 0;
        while i < self.edges.len()
            invariant
                i <= self.edges@.len(),
                0 <= k <= all.len(),
                all == old(self)@.edges,
                i == edges_clear_of(all.take(k), id@).len(),
                self@.edges == edges_clear_of(all.take(k), id@) + all.skip(k),
                self.nodes == old(self).nodes,
                self.node_high_water == old(self).node_high_water,
                self.edge_high_water == old(self).edge_high_water,
                self.is_left_right == old(self).is_left_right,
                self.current_search == old(self).current_search,
                self.current_node == old(self).current_node,
                forall|j: int|
                    0 <= j < self.edges@.len() ==> old(self).edges@.contains(
                        #[trigger] self.edges@[j],
                    ),
            decreases self.edges.len() - i,
        {
            let ghost now = self@.edges;
            assert(now[i as int] == all.skip(k)[0]);
            assert(all.take(k + 1).drop_last() == all.take(k));
            if self.edges[i].from == *id || self.edges[i].to == *id {
                self.edges.remove(i);
                proof {
                    assert(self@.edges == now.remove(i as int));
                    assert forall|j: int| 0 <= j < self.edges@.len() implies old(
                        self,
                    ).edges@.contains(#[trigger] self.edges@[j]) by {}
                    k = k + 1;
                }
            } else {
                proof {
                    k = k + 1;
                }
                i += 1;
            }
        }
    }

    /// Adds an edge for each pair of one of `froms` with one of `tos`.
    fn link_pairs(&mut self, froms: &Vec<Vec<char>>, tos: &Vec<Vec<char>>)
        requires
            old(self).wf(),
            old(self)@.edge_high_water + froms@.len() * tos@.len() <= usize::MAX,
        ensures
            final(self).wf(),
            final(self)@ == old(self)@.link_all(cross(texts(froms@), texts(tos@))),
    {
        let ghost base = self@;
        let ghost fs = texts(froms@);
        let ghost ts = texts(tos@);
        let mut i: usize = 0;
        while i < froms.len()
            invariant
                i <= froms@.len(),
                fs == texts(froms@),
                ts == texts(tos@),
                base == old(self)@,
                base.wf(),
                base.edge_high_water + froms@.len() * tos@.len() <= usize::MAX,
                self.wf(),
                self@ == base.link_all(cross(fs.take(i as int), ts)),
            decreases froms.len() - i,
        {
            let from = Id::new(string_of(&froms[i]).as_str());
            let ghost done = cross(fs.take(i as int), ts);
            let mut j: usize = 0;
            while j < tos.len()
                invariant
                    i < froms@.len(),
                    j <= tos@.len(),
                    fs == texts(froms@),
                    ts == texts(tos@),
                    from@ == fs[i as int],
                    done == cross(fs.take(i as int), ts),
                    base.wf(),
                    base.edge_high_water + froms@.len() * tos@.len() <= usize::MAX,
                    self.wf(),
                    self@ == base.link_all(done + pairs_from(fs[i as int], ts).take(j as int)),
                decreases tos.len() - j,
            {
                let to = Id::new(string_of(&tos[j]).as_str());
                let ghost so_far = done + pairs_from(fs[i as int], ts).take(j as int);
                proof {
                    crate::laws::lemma_link_all_wf(base, so_far);
                    lemma_cross_len(fs.take(i as int), ts);
                    assert(i * tos@.len() + j < froms@.len() * tos@.len()) by (nonlinear_arith)
                        requires
                            i < froms@.len(),
                            j < tos@.len(),
                    ;
                }
                self.link_edge(&from, &to);
                proof {
                    let next = done + pairs_from(fs[i as int], ts).take(j + 1);
                    assert(next.drop_last() == so_far);
                }
                j += 1;
            }
            proof {
                assert(pairs_from(fs[i as int], ts).take(j as int) == pairs_from(fs[i as int], ts));
                assert(fs.take(i + 1).drop_last() == fs.take(i as int));
            }
            i += 1;
        }
        assert(fs.take(i as int) == fs);
    }

    /// Removes the node `id` and every edge that touches it. With
    /// `keep_edges`, each predecessor of the node is then linked to each
    /// successor of it.
    pub fn delete_node(&mut self, id: &Id, keep_edges: bool) -> (r: CommandResult)
        requires
            old(self).wf(),
            keep_edges ==> old(self)@.edge_high_water + predecessors(old(self)@.edges, id@).len()
                * successors(old(self)@.edges, id@).len() <= usize::MAX,
        ensures
            final(self).wf(),
            final(self)@ == old(self)@.delete_node(id@, keep_edges),
            r@ == old(self)@.delete_message(id@),
    {
        let ghost before = self@;
        match self.find_node_idx(id) {
            Some(idx) => {
                let (froms, tos) = self.neighbours(id);
                self.drop_edges_of(id);
                self.nodes.remove(idx);
                let clear = match &self.current_node {
                    Some(current) => *current == *id,
                    None => false,
                };
                if clear {
                    self.current_node = None;
                }
                proof {
                    assert(self@.nodes == before.nodes.remove(idx as int));
                    crate::laws::lemma_without_node_wf(before, id@);
                    assert forall|i: int| 0 <= i < self.nodes@.len() implies (
                    #[trigger] self.nodes@[i]).id@ == node_id(self.nodes@[i].serial as nat) by {}
                    assert forall|k: int| 0 <= k < self.edges@.len() implies (
                    #[trigger] self.edges@[k]).id@ == edge_id(self.edges@[k].serial as nat) by {}
                }
                if keep_edges {
                    self.link_pairs(&froms, &tos);
                }
                let message = crate::command::join3("node ", id.as_str(), " removed");
                CommandResult::new(message.as_str())
            },
            None => {
                let message = crate::command::join3("node ", id.as_str(), " not found");
                CommandResult::new(message.as_str())
            },
        }
    }

    /// The nodes whose label holds `fragment`, sorted by identifier.
    fn search(&self, fragment: &Vec<char>) -> (r: Vec<Vec<char>>)
        requires
            self.wf(),
        ensures
            texts(r@) == sorted_texts(matching_ids(self@.nodes, fragment@)),
    {
        let mut found: Vec<Vec<char>> = Vec::new();
        let ghost all = self@.nodes;
        let mut i: usize = 0;
        while i < self.nodes.len()
            invariant
                self.wf(),
                i <= self.nodes@.len(),
                all == self@.nodes,
                texts(found@) == sorted_texts(matching_ids(all.take(i as int), fragment@)),
            decreases self.nodes.len() - i,
        {
            assert(all.take(i + 1).drop_last() == all.take(i as int));
            let label = self.nodes[i].label.chars();
            if contains(&label, fragment) {
                assert(matching_ids(all.take(i + 1), fragment@).drop_last() == matching_ids(
                    all.take(i as int),
                    fragment@,
                ));
                insert_text(&mut found, self.nodes[i].id.chars());
            }
            i += 1;
        }
        assert(all.take(i as int) == all);
        found
    }

    /// Remembers `sub_label` as the text that is searched for, and lists the
    /// nodes whose label holds it.
    pub fn highlight_search_results(&mut self, sub_label: Label) -> (r: CommandResult)
        requires
            old(self).wf(),
        ensures
            final(self).wf(),
            final(self)@ == old(self)@.highlight_search_results(sub_label@),
            r@ == old(self)@.search_message(sub_label@),
    {
        let ghost before = self@;
        let fragment = sub_label.chars();
        let found = self.search(&fragment);
        let ghost ids = texts(found@);
        let mut message = String::new();
        push_text(&mut message, "Search results for: ");
        push_text(&mut message, sub_label.as_str());
        push_text(&mut message, ",\n");
        let ghost head = message@;
        assert(head == "Search results for: "@ + sub_label@ + ",\n"@);
        let mut i: usize = 0;
        while i < found.len()
            invariant
                self.wf(),
                self@ == before,
                i <= found@.len(),
                ids == texts(found@),
                message@ == head + before.search_lines(ids.take(i as int)),
            decreases found.len() - i,
        {
            let id = Id::new(string_of(&found[i]).as_str());
            if i > 0 {
                push_text(&mut message, "\n");
            }
            push_text(&mut message, id.as_str());
            push_text(&mut message, ": ");
            match self.find_node_label(&id) {
                Some(label) => {
                    push_text(&mut message, label.as_str());
                },
                None => {},
            }
            proof {
                assert(ids.take(i + 1).drop_last() == ids.take(i as int));
            }
            i += 1;
        }
        assert(ids.take(i as int) == ids);
        push_text(&mut message, "\n");
        self.current_search = Some(sub_label);
        CommandResult::new(message.as_str())
    }

    /// The predecessors of the node `id`: the other nodes with an edge to
    /// it, sorted by identifier, each once.
    pub fn predecessors(&self, id: &Id) -> (r: Vec<Id>)
        ensures
            id_texts(r@) == predecessors(self@.edges, id@),
    {
        let (before, _) = self.neighbours(id);
        ids_of(&before)
    }

    /// The successors of the node `id`: the other nodes with an edge from
    /// it, sorted by identifier, each once.
    pub fn successors(&self, id: &Id) -> (r: Vec<Id>)
        ensures
            id_texts(r@) == successors(self@.edges, id@),
    {
        let (_, after) = self.neighbours(id);
        ids_of(&after)
    }

    /// Whether the counters leave room for what `command` may add, so that
    /// the command can be applied.
    pub fn can_apply(&self, command: &GraphCommand) -> (r: bool)
        ensures
            r == self@.has_room_for(command@),
    {
        let nodes_left: usize = usize::MAX - self.node_high_water;
        let edges_left: usize = usize::MAX - self.edge_high_water;
        match command {
            GraphCommand::DeleteNode { id, keep_edges } => {
                if *keep_edges {
                    let (before, after) = self.neighbours(id);
                    let wanted: u128 = mul_wide(before.len(), after.len());
                    wanted <= edges_left as u128
                } else {
                    true
                }
            },
            GraphCommand::ExpandEdge { id, label } => nodes_left > 0 && edges_left > 1,
            GraphCommand::InsertAfterNode { id, label } => nodes_left > 0 && edges_left > 0,
            GraphCommand::InsertBeforeNode { id, label } => nodes_left > 0 && edges_left > 0,
            GraphCommand::InsertNode { label } => nodes_left > 0,
            GraphCommand::LinkEdge { from, to } => edges_left > 0,
            _ => true,
        }
    }

    /// Applies one command and reports what it did.
    pub fn apply_command(&mut self, command: GraphCommand) -> (r: CommandResult)
        requires
            old(self).wf(),
            old(self)@.has_room_for(command@),
        ensures
            final(self).wf(),
            final(self)@ == old(self)@.apply(command@),
            r@ == old(self)@.message(command@),
    {
        match command {
            GraphCommand::DeleteNode { id, keep_edges } => self.delete_node(&id, keep_edges),
            GraphCommand::ExpandEdge { id, label } => self.expand_edge(&id, &label),
            GraphCommand::InsertAfterNode { id, label } => self.inject_after_node(&id, &label),
            GraphCommand::InsertBeforeNode { id, label } => self.inject_before_node(&id, &label),
            GraphCommand::InsertNode { label } => self.insert_node(label).1,
            GraphCommand::LinkEdge { from, to } => self.link_edge(&from, &to),
            GraphCommand::RenameNode { id, label } => self.rename_node(&id, label),
            GraphCommand::SelectNode { id } => self.select_node(&id),
            GraphCommand::SetDirection { is_left_right } => self.set_direction(is_left_right),
            GraphCommand::UnlinkEdge { id } => self.unlink_edge(&id),
        }
    }
}

impl Graph {
    /// Whether some edge ends at the node `id`.
    fn has_incoming(&self, id: &Id) -> (r: bool)
        ensures
            r == exists|k: int|
                0 <= k < self@.edges.len() && (#[trigger] self@.edges[k]).to == id@,
    {
        let mut k: usize = 0;
        while k < self.edges.len()
            invariant
                k <= self.edges@.len(),
                forall|j: int| 0 <= j < k ==> (#[trigger] self@.edges[j]).to != id@,
            decreases self.edges.len() - k,
        {
            if self.edges[k].to == *id {
                assert(self@.edges[k as int].to == id@);
                return true;
            }
            k += 1;
        }
        false
    }

    /// Whether some edge starts at the node `id`.
    fn has_outgoing(&self, id: &Id) -> (r: bool)
        ensures
            r == exists|k: int|
                0 <= k < self@.edges.len() && (#[trigger] self@.edges[k]).from == id@,
    {
        let mut k: usize = 0;
        while k < self.edges.len()
            invariant
                k <= self.edges@.len(),
                forall|j: int| 0 <= j < k ==> (#[trigger] self@.edges[j]).from != id@,
            decreases self.edges.len() - k,
        {
            if self.edges[k].from == *id {
                assert(self@.edges[k as int].from == id@);
                return true;
            }
            k += 1;
        }
        false
    }

    /// The nodes at which no edge ends, sorted by identifier.
    pub fn sources(&self) -> (r: Vec<Id>)
        requires
            self.wf(),
        ensures
            id_texts(r@) == self@.sources(),
    {
        let mut found: Vec<Vec<char>> = Vec::new();
        let ghost all = self@.nodes;
        let mut i: usize = 0;
        while i < self.nodes.len()
            invariant
                self.wf(),
                i <= self.nodes@.len(),
                all == self@.nodes,
                texts(found@) == sorted_texts(
                    ids_without_incoming(all.take(i as int), self@.edges),
                ),
            decreases self.nodes.len() - i,
        {
            assert(all.take(i + 1).drop_last() == all.take(i as int));
            if !self.has_incoming(&self.nodes[i].id) {
                assert(ids_without_incoming(all.take(i + 1), self@.edges).drop_last()
                    == ids_without_incoming(all.take(i as int), self@.edges));
                insert_text(&mut found, self.nodes[i].id.chars());
            }
            i += 1;
        }
        assert(all.take(i as int) == all);
        ids_of(&found)
    }

    /// The nodes at which no edge starts, sorted by identifier.
    pub fn sinks(&self) -> (r: Vec<Id>)
        requires
            self.wf(),
        ensures
            id_texts(r@) == self@.sinks(),
    {
        let mut found: Vec<Vec<char>> = Vec::new();
        let ghost all = self@.nodes;
        let mut i: usize = 0;
        while i < self.nodes.len()
            invariant
                self.wf(),
                i <= self.nodes@.len(),
                all == self@.nodes,
                texts(found@) == sorted_texts(
                    ids_without_outgoing(all.take(i as int), self@.edges),
                ),
            decreases self.nodes.len() - i,
        {
            assert(all.take(i + 1).drop_last() == all.take(i as int));
            if !self.has_outgoing(&self.nodes[i].id) {
                assert(ids_without_outgoing(all.take(i + 1), self@.edges).drop_last()
                    == ids_without_outgoing(all.take(i as int), self@.edges));
                insert_text(&mut found, self.nodes[i].id.chars());
            }
            i += 1;
        }
        assert(all.take(i as int) == all);
        ids_of(&found)
    }

    /// How the node at position `i` is to be shown.
    fn highlight_at(&self, i: usize) -> (r: NodeHighlight)
        requires
            self.wf(),
            i < self@.nodes.len(),
        ensures
            r == self@.highlight_of(i as int),
    {
        let node = &self.nodes[i];
        let searched = match &self.current_search {
            Some(fragment) => contains(&node.label.chars(), &fragment.chars()),
            None => false,
        };
        let selected = match &self.current_node {
            Some(current) => *current == node.id,
            None => false,
        };
        if searched {
            NodeHighlight::SearchResult
        } else if selected {
            NodeHighlight::CurrentNode
        } else {
            NodeHighlight::Normal
        }
    }

    /// The calls that an export makes, in their order: one that sets the
    /// direction, then one for each node with its highlight, then one for each
    /// edge, nodes and edges in the order of their insertion.
    pub fn export_calls(&self) -> (r: Vec<ExportCall>)
        requires
            self.wf(),
        ensures
            events(r@) == self@.export_events(),
    {
        let ghost node_events = Seq::new(self@.nodes.len(), |i: int| self@.node_event(i));
        let ghost edge_events = Seq::new(self@.edges.len(), |k: int| self@.edge_event(k));
        let ghost head = seq![ExportEvent::Direction { is_left_right: self@.is_left_right }];
        let mut calls: Vec<ExportCall> = Vec::new();
        calls.push(ExportCall::Direction { is_left_right: self.is_left_right });
        let mut i: usize = 0;
        while i < self.nodes.len()
            invariant
                self.wf(),
                i <= self.nodes@.len(),
                node_events == Seq::new(self@.nodes.len(), |i: int| self@.node_event(i)),
                events(calls@) == head + node_events.take(i as int),
            decreases self.nodes.len() - i,
        {
            let highlight = self.highlight_at(i);
            let node = &self.nodes[i];
            let call = ExportCall::Node {
                id: node.id.clone(),
                label: node.label.clone(),
                highlight,
            };
            let ghost before = events(calls@);
            calls.push(call);
            assert(events(calls@) == before.push(node_events[i as int]));
            i += 1;
        }
        let ghost middle = head + node_events;
        let mut k: usize = 0;
        while k < self.edges.len()
            invariant
                self.wf(),
                k <= self.edges@.len(),
                edge_events == Seq::new(self@.edges.len(), |k: int| self@.edge_event(k)),
                events(calls@) == middle + edge_events.take(k as int),
            decreases self.edges.len() - k,
        {
            let edge = &self.edges[k];
            let call = ExportCall::Edge {
                id: edge.id.clone(),
                from: edge.from.clone(),
                to: edge.to.clone(),
            };
            let ghost before = events(calls@);
            calls.push(call);
            assert(events(calls@) == before.push(edge_events[k as int]));
            k += 1;
        }
        calls
    }

    /// Hands the graph to `exporter`: makes on it the calls of
    /// `export_calls`, each once, in their order. Each call finds the
    /// exporter as the call before left it, and the exporter is left as the
    /// last call leaves it.
    pub fn export<X: Exporter>(&self, exporter: &mut X)
        requires
            self.wf(),
        ensures
            exists|calls: Seq<ExportCall>, through: Seq<&mut X>|
                #![trigger are_made(through, calls)]
                events(calls) == self@.export_events() && are_made(through, calls)
                    && mut_ref_current(through[0]) == *old(exporter) && mut_ref_future(
                    through[through.len() - 1],
                ) == *final(exporter) && forall|i: int|
                    0 <= i < through.len() - 1 ==> mut_ref_future(#[trigger] through[i])
                        == mut_ref_current(through[i + 1]),
    {
        let calls = self.export_calls();
        let ghost start = *exporter;
        let mut i: usize = 0;
        assert(are_made(Seq::<&mut X>::empty(), calls@.take(0)));
        while i < calls.len()
            invariant
                i <= calls@.len(),
                exists|through: Seq<&mut X>|
                    #![trigger are_made(through, calls@.take(i as int))]
                    are_made(through, calls@.take(i as int)) && (i == 0 ==> *exporter == start)
                        && (i > 0 ==> mut_ref_current(through[0]) == start && mut_ref_future(
                        through[i - 1],
                    ) == *exporter) && forall|j: int|
                        0 <= j < i - 1 ==> mut_ref_future(#[trigger] through[j])
                            == mut_ref_current(through[j + 1]),
            decreases calls.len() - i,
        {
            let ghost before = *exporter;
            proof {
                assert(calls@.take(i + 1) == calls@.take(i as int).push(calls@[i as int]));
            }
            calls[i].deliver(exporter);
            proof {
                let done = choose|through: Seq<&mut X>|
                    #![trigger are_made(through, calls@.take(i as int))]
                    are_made(through, calls@.take(i as int)) && (i == 0 ==> before == start) && (i
                        > 0 ==> mut_ref_current(through[0]) == start && mut_ref_future(
                        through[i - 1],
                    ) == before) && forall|j: int|
                        0 <= j < i - 1 ==> mut_ref_future(#[trigger] through[j])
                            == mut_ref_current(through[j + 1]);
                let m = choose|m: &mut X|
                    #![trigger is_made(m, calls@[i as int])]
                    mut_ref_current(m) == before && mut_ref_future(m) == *exporter && is_made(
                        m,
                        calls@[i as int],
                    );
                let next = done.push(m);
                assert(are_made(next, calls@.take(i + 1)));
                assert(mut_ref_current(next[0]) == start);
                assert(mut_ref_future(next[i as int]) == *exporter);
                assert forall|j: int| 0 <= j < i implies mut_ref_future(#[trigger] next[j])
                    == mut_ref_current(next[j + 1]) by {
                    if j < i - 1 {
                        assert(next[j] == done[j] && next[j + 1] == done[j + 1]);
                    }
                }
            }
            i += 1;
        }
        proof {
            assert(calls@.take(i as int) == calls@);
            assert(events(calls@).len() == calls@.len());
            assert(self@.export_events().len() >= 1);
            let done = choose|through: Seq<&mut X>|
                #![trigger are_made(through, calls@.take(i as int))]
                are_made(through, calls@.take(i as int)) && (i == 0 ==> *exporter == start) && (i
                    > 0 ==> mut_ref_current(through[0]) == start && mut_ref_future(
                    through[i - 1],
                ) == *exporter) && forall|j: int|
                    0 <= j < i - 1 ==> mut_ref_future(#[trigger] through[j]) == mut_ref_current(
                        through[j + 1],
                    );
            assert(are_made(done, calls@));
        }
    }
}

/// The product of two lengths, in a type that holds it.
fn mul_wide(a: usize, b: usize) -> (r: u128)
    ensures
        r == a * b,
{
    assert(a * b <= 0xffff_ffff_ffff_ffff * 0xffff_ffff_ffff_ffff) by (nonlinear_arith)
        requires
            0 <= a <= 0xffff_ffff_ffff_ffff,
            0 <= b <= 0xffff_ffff_ffff_ffff,
    ;
    (a as u128) * (b as u128)
}

/// The identifiers with the given texts.
pub fn ids_of(v: &Vec<Vec<char>>) -> (r: Vec<Id>)
    ensures
        id_texts(r@) == texts(v@),
{
    let mut out: Vec<Id> = Vec::new();
    let mut i: usize = 0;
    while i < v.len()
        invariant
            i <= v@.len(),
            id_texts(out@) == texts(v@).take(i as int),
        decreases v.len() - i,
    {
        let id = Id::new(string_of(&v[i]).as_str());
        out.push(id);
        assert(id_texts(out@) == texts(v@).take(i as int).push(v@[i as int]@));
        i += 1;
    }
    out
}

} // verus!
