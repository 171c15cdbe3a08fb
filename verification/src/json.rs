//! The document in which a graph is kept: its nodes with their labels, its
//! edges by the nodes they join, and its direction.
use crate::exporter::{ExportCall, ExportEvent, Exporter, NodeHighlight};
use crate::graph::Graph;
use crate::laws::{lemma_ids_unique, lemma_insert_node_wf, lemma_link_edge_wf};
use crate::model::{
    lemma_node_id_injective, lemma_node_position, lemma_node_position_is, node_id, node_position,
    EdgeModel, GraphModel, NodeModel,
};
use crate::names::{Id, Label};
use vstd::prelude::*;
use vstd::string::StringExecFns;

verus! {

/// A node of a document.
#[derive(Debug, PartialEq)]
pub struct JsonNode {
    pub id: Id,
    pub label: Label,
}

/// An edge of a document.
#[derive(Debug, PartialEq)]
pub struct JsonEdge {
    pub from: Id,
    pub to: Id,
}

/// A document.
#[derive(Debug, PartialEq)]
pub struct JsonGraph {
    pub nodes: Vec<JsonNode>,
    pub edges: Vec<JsonEdge>,
    pub is_left_right: bool,
}

/// A node of a document, as specifications see it.
#[verifier::ext_equal]
pub struct DocNode {
    pub id: Seq<char>,
    pub label: Seq<char>,
}

/// An edge of a document, as specifications see it.
#[verifier::ext_equal]
pub struct DocEdge {
    pub from: Seq<char>,
    pub to: Seq<char>,
}

/// A document, as specifications see it.
#[verifier::ext_equal]
pub struct DocumentModel {
    pub nodes: Seq<DocNode>,
    pub edges: Seq<DocEdge>,
    pub is_left_right: bool,
}

impl View for JsonNode {
    type V = DocNode;

    open spec fn view(&self) -> DocNode {
        DocNode { id: self.id@, label: self.label@ }
    }
}

impl View for JsonEdge {
    type V = DocEdge;

    open spec fn view(&self) -> DocEdge {
        DocEdge { from: self.from@, to: self.to@ }
    }
}

impl View for JsonGraph {
    type V = DocumentModel;

    open spec fn view(&self) -> DocumentModel {
        DocumentModel {
            nodes: self.nodes@.map_values(|n: JsonNode| n@),
            edges: self.edges@.map_values(|e: JsonEdge| e@),
            is_left_right: self.is_left_right,
        }
    }
}

impl DocumentModel {
    /// The document without nodes and edges.
    pub open spec fn empty() -> DocumentModel {
        DocumentModel { nodes: Seq::empty(), edges: Seq::empty(), is_left_right: false }
    }

    /// The document after one call of an export.
    pub open spec fn after(self, event: ExportEvent) -> DocumentModel {
        match event {
            ExportEvent::Direction { is_left_right } => DocumentModel { is_left_right, ..self },
            ExportEvent::Node { id, label, highlight } => DocumentModel {
                nodes: self.nodes.push(DocNode { id, label }),
                ..self
            },
            ExportEvent::Edge { id, from, to } => DocumentModel {
                edges: self.edges.push(DocEdge { from, to }),
                ..self
            },
        }
    }

    /// The document after the calls `events`, in their order.
    pub open spec fn after_all(self, events: Seq<ExportEvent>) -> DocumentModel
        decreases events.len(),
    {
        if events.len() == 0 {
            self
        } else {
            self.after_all(events.drop_last()).after(events.last())
        }
    }
}

/// The document of a graph: every node with its identifier and its label,
/// every edge with the identifiers of the nodes it joins, and the direction.
pub open spec fn document_of(g: GraphModel) -> DocumentModel {
    DocumentModel {
        nodes: Seq::new(
            g.nodes.len(),
            |i: int| DocNode { id: g.nodes[i].id(), label: g.nodes[i].label },
        ),
        edges: Seq::new(
            g.edges.len(),
            |k: int| DocEdge { from: g.edges[k].from, to: g.edges[k].to },
        ),
        is_left_right: g.is_left_right,
    }
}

/// An exporter that builds the document of a graph.
pub struct JsonExporter {
    nodes: Vec<JsonNode>,
    edges: Vec<JsonEdge>,
    is_left_right: bool,
}

impl View for JsonExporter {
    type V = DocumentModel;

    closed spec fn view(&self) -> DocumentModel {
        DocumentModel {
            nodes: self.nodes@.map_values(|n: JsonNode| n@),
            edges: self.edges@.map_values(|e: JsonEdge| e@),
            is_left_right: self.is_left_right,
        }
    }
}

impl Exporter for JsonExporter {
    fn set_direction(&mut self, is_left_right: bool)
        ensures
            final(self)@ == old(self)@.after(ExportEvent::Direction { is_left_right }),
    {
        self.is_left_right = is_left_right;
    }

    fn add_node(&mut self, id: &Id, label: &Label, highlight: NodeHighlight)
        ensures
            final(self)@ == old(self)@.after(
                ExportEvent::Node { id: id@, label: label@, highlight },
            ),
    {
        let node = JsonNode { id: id.clone(), label: label.clone() };
        self.nodes.push(node);
    }

    fn add_edge(&mut self, id: &Id, from: &Id, to: &Id)
        ensures
            final(self)@ == old(self)@.after(ExportEvent::Edge { id: id@, from: from@, to: to@ }),
    {
        let edge = JsonEdge { from: from.clone(), to: to.clone() };
        self.edges.push(edge);
    }
}

impl JsonExporter {
    /// An exporter that has seen nothing yet.
    pub fn new() -> (r: Self)
        ensures
            r@ == DocumentModel::empty(),
    {
        let r = JsonExporter { nodes: Vec::new(), edges: Vec::new(), is_left_right: false };
        r
    }

    /// What the exporter has seen so far, as a document.
    pub fn document(&self) -> (r: JsonGraph)
        ensures
            r@ == self@,
    {
        let mut nodes: Vec<JsonNode> = Vec::new();
        let mut i: usize = 0;
        while i < self.nodes.len()
            invariant
                i <= self.nodes@.len(),
                nodes@.map_values(|n: JsonNode| n@) == self@.nodes.take(i as int),
            decreases self.nodes.len() - i,
        {
            let ghost before = nodes@.map_values(|n: JsonNode| n@);
            let node = JsonNode {
                id: self.nodes[i].id.clone(),
                label: self.nodes[i].label.clone(),
            };
            nodes.push(node);
            assert(nodes@.map_values(|n: JsonNode| n@) == before.push(self@.nodes[i as int]));
            i += 1;
        }
        let mut edges: Vec<JsonEdge> = Vec::new();
        let mut k: usize = 0;
        while k < self.edges.len()
            invariant
                k <= self.edges@.len(),
                edges@.map_values(|e: JsonEdge| e@) == self@.edges.take(k as int),
            decreases self.edges.len() - k,
        {
            let ghost before = edges@.map_values(|e: JsonEdge| e@);
            let edge = JsonEdge { from: self.edges[k].from.clone(), to: self.edges[k].to.clone() };
            edges.push(edge);
            assert(edges@.map_values(|e: JsonEdge| e@) == before.push(self@.edges[k as int]));
            k += 1;
        }
        JsonGraph { nodes, edges, is_left_right: self.is_left_right }
    }

    /// Exports `graph` to this exporter, and returns the document of all
    /// that the exporter has seen.
    pub fn export_document(&mut self, graph: &Graph) -> (r: JsonGraph)
        requires
            graph.wf(),
        ensures
            final(self)@ == old(self)@.after_all(graph@.export_events()),
            r@ == final(self)@,
            old(self)@ == DocumentModel::empty() ==> r@ == document_of(graph@),
    {
        let calls = graph.export_calls();
        let ghost all = graph@.export_events();
        let mut i: usize = 0;
        while i < calls.len()
            invariant
                i <= calls@.len(),
                all == crate::exporter::events(calls@),
                self@ == old(self)@.after_all(all.take(i as int)),
            decreases calls.len() - i,
        {
            assert(all.take(i + 1).drop_last() == all.take(i as int));
            match &calls[i] {
                ExportCall::Direction { is_left_right } => self.set_direction(*is_left_right),
                ExportCall::Node { id, label, highlight } => self.add_node(id, label, *highlight),
                ExportCall::Edge { id, from, to } => self.add_edge(id, from, to),
            }
            i += 1;
        }
        assert(all.take(i as int) == all);
        proof {
            if old(self)@ == DocumentModel::empty() {
                lemma_export_of_fresh(graph@);
            }
        }
        self.document()
    }
}

/// An exporter that has seen one export only holds the document of the graph.
pub proof fn lemma_export_of_fresh(g: GraphModel)
    ensures
        DocumentModel::empty().after_all(g.export_events()) == document_of(g),
{
    let edge_events = Seq::new(g.edges.len(), |k: int| g.edge_event(k));
    lemma_after_edges(g, g.edges.len() as int);
    assert(edge_events.take(g.edges.len() as int) == edge_events);
}

proof fn lemma_after_nodes(g: GraphModel, n: int)
    requires
        0 <= n <= g.nodes.len(),
    ensures
        DocumentModel::empty().after_all(
            seq![ExportEvent::Direction { is_left_right: g.is_left_right }] + Seq::new(
                g.nodes.len(),
                |i: int| g.node_event(i),
            ).take(n),
        ) == (DocumentModel {
            nodes: document_of(g).nodes.take(n),
            edges: Seq::empty(),
            is_left_right: g.is_left_right,
        }),
    decreases n,
{
    let head = seq![ExportEvent::Direction { is_left_right: g.is_left_right }];
    let node_events = Seq::new(g.nodes.len(), |i: int| g.node_event(i));
    if n == 0 {
        assert(head.drop_last() == Seq::<ExportEvent>::empty());
        assert(DocumentModel::empty().after_all(Seq::<ExportEvent>::empty())
            == DocumentModel::empty());
    } else {
        lemma_after_nodes(g, n - 1);
        let now = head + node_events.take(n);
        assert(now.drop_last() == head + node_events.take(n - 1));
    }
}

proof fn lemma_after_edges(g: GraphModel, n: int)
    requires
        0 <= n <= g.edges.len(),
    ensures
        DocumentModel::empty().after_all(
            seq![ExportEvent::Direction { is_left_right: g.is_left_right }] + Seq::new(
                g.nodes.len(),
                |i: int| g.node_event(i),
            ) + Seq::new(g.edges.len(), |k: int| g.edge_event(k)).take(n),
        ) == (DocumentModel {
            nodes: document_of(g).nodes,
            edges: document_of(g).edges.take(n),
            is_left_right: g.is_left_right,
        }),
    decreases n,
{
    let head = seq![ExportEvent::Direction { is_left_right: g.is_left_right }];
    let node_events = Seq::new(g.nodes.len(), |i: int| g.node_event(i));
    let edge_events = Seq::new(g.edges.len(), |k: int| g.edge_event(k));
    if n == 0 {
        lemma_after_nodes(g, g.nodes.len() as int);
        assert(node_events.take(g.nodes.len() as int) == node_events);
    } else {
        lemma_after_edges(g, n - 1);
        let now = head + node_events + edge_events.take(n);
        assert(now.drop_last() == head + node_events + edge_events.take(n - 1));
    }
}

/// The position of the last node of `nodes` with the identifier `id`.
pub open spec fn last_position(nodes: Seq<DocNode>, id: Seq<char>) -> Option<int>
    decreases nodes.len(),
{
    if nodes.len() == 0 {
        None
    } else if nodes.last().id == id {
        Some(nodes.len() - 1)
    } else {
        last_position(nodes.drop_last(), id)
    }
}

/// The graph `g` with a node for each of `nodes`, in their order. The nodes
/// get new identifiers.
pub open spec fn with_nodes(g: GraphModel, nodes: Seq<DocNode>) -> GraphModel
    decreases nodes.len(),
{
    if nodes.len() == 0 {
        g
    } else {
        with_nodes(g, nodes.drop_last()).insert_node(nodes.last().label)
    }
}

/// The graph `g`, whose nodes stand for `nodes` in their order, with an
/// edge for each of `edges` that joins two of `nodes`. Where the document
/// uses an identifier twice, it names the last node that has it.
pub open spec fn with_edges(g: GraphModel, nodes: Seq<DocNode>, edges: Seq<DocEdge>) -> GraphModel
    decreases edges.len(),
{
    if edges.len() == 0 {
        g
    } else {
        let rest = with_edges(g, nodes, edges.drop_last());
        match (last_position(nodes, edges.last().from), last_position(nodes, edges.last().to)) {
            (Some(a), Some(b)) => rest.link_edge(node_id(a as nat), node_id(b as nat)),
            _ => rest,
        }
    }
}

/// The graph that a document gives: the direction of the document, a node
/// for each of its nodes, and an edge for each of its edges that joins two
/// of its nodes.
pub open spec fn import_model(d: DocumentModel) -> GraphModel {
    with_edges(
        with_nodes(GraphModel::empty().set_direction(d.is_left_right), d.nodes),
        d.nodes,
        d.edges,
    )
}

/// A reader of documents.
pub struct JsonImporter {
    content: String,
}

impl JsonImporter {
    /// A reader of the document that `content` writes.
    pub fn new(content: &str) -> (r: Self)
        ensures
            r.content_text() == content@,
    {
        JsonImporter { content: String::from_str(content) }
    }

    /// The text that the reader was given.
    pub closed spec fn content_text(&self) -> Seq<char> {
        self.content@
    }

    /// The text that the reader was given.
    pub fn content(&self) -> (r: &str)
        ensures
            r@ == self.content_text(),
    {
        self.content.as_str()
    }

    /// The graph that `document` gives.
    pub fn import_document(document: &JsonGraph) -> (r: Graph)
        ensures
            r.wf(),
            r@ == import_model(document@),
    {
        let mut graph = Graph::new();
        graph.set_direction(document.is_left_right);
        let ghost start = graph@;
        let ghost d = document@;
        let mut ids: Vec<Id> = Vec::new();
        let mut i: usize = 0;
        while i < document.nodes.len()
            invariant
                graph.wf(),
                d == document@,
                i <= document.nodes@.len(),
                ids@.len() == i,
                forall|j: int| 0 <= j < i ==> (#[trigger] ids@[j])@ == node_id(j as nat),
                graph@ == with_nodes(start, d.nodes.take(i as int)),
                graph@.node_high_water == i,
                graph@.edge_high_water == 0,
            decreases document.nodes.len() - i,
        {
            assert(d.nodes.take(i + 1).drop_last() == d.nodes.take(i as int));
            let (id, _) = graph.insert_node(document.nodes[i].label.clone());
            ids.push(id);
            i += 1;
        }
        assert(d.nodes.take(i as int) == d.nodes);
        let ghost base = graph@;
        let mut k: usize = 0;
        while k < document.edges.len()
            invariant
                graph.wf(),
                d == document@,
                k <= document.edges@.len(),
                ids@.len() == document.nodes@.len(),
                forall|j: int| 0 <= j < ids@.len() ==> (#[trigger] ids@[j])@ == node_id(j as nat),
                graph@ == with_edges(base, d.nodes, d.edges.take(k as int)),
                graph@.edge_high_water <= k,
            decreases document.edges.len() - k,
        {
            assert(d.edges.take(k + 1).drop_last() == d.edges.take(k as int));
            let from = last_index(&document.nodes, &document.edges[k].from);
            let to = last_index(&document.nodes, &document.edges[k].to);
            match (from, to) {
                (Some(a), Some(b)) => {
                    graph.link_edge(&ids[a], &ids[b]);
                },
                _ => {},
            }
            k += 1;
        }
        assert(d.edges.take(k as int) == d.edges);
        graph
    }
}

/// The position of the last node of `nodes` with the identifier `id`.
fn last_index(nodes: &Vec<JsonNode>, id: &Id) -> (r: Option<usize>)
    ensures
        match r {
            Some(j) => j < nodes@.len() && last_position(nodes@.map_values(|n: JsonNode| n@), id@)
                == Some(j as int),
            None => last_position(nodes@.map_values(|n: JsonNode| n@), id@) is None,
        },
{
    let ghost all = nodes@.map_values(|n: JsonNode| n@);
    let mut j: usize = nodes.len();
    assert(all.take(j as int) == all);
    while j > 0
        invariant
            j <= nodes@.len(),
            all == nodes@.map_values(|n: JsonNode| n@),
            last_position(all, id@) == last_position(all.take(j as int), id@),
        decreases j,
    {
        assert(all.take(j as int).drop_last() == all.take(j - 1));
        if nodes[j - 1].id == *id {
            return Some(j - 1);
        }
        j -= 1;
    }
    None
}

/// What `with_nodes` gives: the nodes of `g`, then a node for each of
/// `nodes` with the next sequence numbers; the rest of `g` as it is.
pub proof fn lemma_with_nodes(g: GraphModel, nodes: Seq<DocNode>)
    requires
        g.wf(),
    ensures
        with_nodes(g, nodes).wf(),
        with_nodes(g, nodes).nodes == g.nodes + Seq::new(
            nodes.len(),
            |i: int| NodeModel { serial: (g.node_high_water + i) as nat, label: nodes[i].label },
        ),
        with_nodes(g, nodes).node_high_water == g.node_high_water + nodes.len(),
        with_nodes(g, nodes).edges == g.edges,
        with_nodes(g, nodes).edge_high_water == g.edge_high_water,
        with_nodes(g, nodes).is_left_right == g.is_left_right,
    decreases nodes.len(),
{
    if nodes.len() > 0 {
        lemma_with_nodes(g, nodes.drop_last());
        lemma_insert_node_wf(with_nodes(g, nodes.drop_last()), nodes.last().label);
    }
}

/// In the document of a well-formed graph, an identifier names the node
/// that it names in the graph.
pub proof fn lemma_last_position(g: GraphModel, id: Seq<char>)
    requires
        g.wf(),
    ensures
        last_position(document_of(g).nodes, id) == node_position(g.nodes, id),
{
    let nodes = document_of(g).nodes;
    lemma_last_position_is(nodes, id);
    lemma_node_position(g.nodes, id);
    lemma_ids_unique(g);
    if let Some(b) = node_position(g.nodes, id) {
        assert(nodes[b].id == g.nodes[b].id());
    }
}

/// What `last_position` finds is the last node with that identifier, and it
/// finds one whenever there is one.
pub proof fn lemma_last_position_is(nodes: Seq<DocNode>, id: Seq<char>)
    ensures
        match last_position(nodes, id) {
            Some(i) => 0 <= i < nodes.len() && nodes[i].id == id && forall|j: int|
                i < j < nodes.len() ==> (#[trigger] nodes[j]).id != id,
            None => forall|j: int| 0 <= j < nodes.len() ==> (#[trigger] nodes[j]).id != id,
        },
    decreases nodes.len(),
{
    if nodes.len() > 0 && nodes.last().id != id {
        lemma_last_position_is(nodes.drop_last(), id);
        assert(forall|j: int|
            0 <= j < nodes.len() - 1 ==> nodes.drop_last()[j] == #[trigger] nodes[j]);
    }
}

/// The nodes of a graph that was built from nothing but nodes: each is
/// found at its position under the identifier of its position.
proof fn lemma_fresh_positions(h: GraphModel, a: int)
    requires
        forall|i: int| 0 <= i < h.nodes.len() ==> (#[trigger] h.nodes[i]).serial == i,
        0 <= a < h.nodes.len(),
    ensures
        node_position(h.nodes, node_id(a as nat)) == Some(a),
{
    assert forall|j: int| 0 <= j < a implies (#[trigger] h.nodes[j]).id() != node_id(
        a as nat,
    ) by {
        if h.nodes[j].id() == node_id(a as nat) {
            lemma_node_id_injective(j as nat, a as nat);
        }
    }
    lemma_node_position_is(h.nodes, node_id(a as nat), a);
}

/// What `with_edges` gives for the first `k` edges of the document of `g`,
/// on the graph `h` that holds the nodes of that document: an edge for each,
/// between the nodes at the positions at which `g` has them.
proof fn lemma_with_edges(g: GraphModel, h: GraphModel, k: int)
    requires
        g.wf(),
        h.wf(),
        h.nodes.len() == g.nodes.len(),
        forall|i: int| 0 <= i < h.nodes.len() ==> (#[trigger] h.nodes[i]).serial == i,
        h.edges.len() == 0,
        h.edge_high_water == 0,
        0 <= k <= g.edges.len(),
    ensures
        with_edges(h, document_of(g).nodes, document_of(g).edges.take(k)).wf(),
        with_edges(h, document_of(g).nodes, document_of(g).edges.take(k)).nodes == h.nodes,
        with_edges(h, document_of(g).nodes, document_of(g).edges.take(k)).is_left_right
            == h.is_left_right,
        with_edges(h, document_of(g).nodes, document_of(g).edges.take(k)).edge_high_water == k,
        with_edges(h, document_of(g).nodes, document_of(g).edges.take(k)).edges == Seq::new(
            k as nat,
            |e: int|
                EdgeModel {
                    serial: e as nat,
                    from: node_id(g.position_of(g.edges[e].from) as nat),
                    to: node_id(g.position_of(g.edges[e].to) as nat),
                },
        ),
    decreases k,
{
    let d = document_of(g);
    if k == 0 {
    } else {
        lemma_with_edges(g, h, k - 1);
        let edges = d.edges.take(k);
        assert(edges.drop_last() == d.edges.take(k - 1));
        let from = g.edges[k - 1].from;
        let to = g.edges[k - 1].to;
        lemma_last_position(g, from);
        lemma_last_position(g, to);
        lemma_node_position(g.nodes, from);
        lemma_node_position(g.nodes, to);
        let a = g.position_of(from);
        let b = g.position_of(to);
        lemma_fresh_positions(h, a);
        lemma_fresh_positions(h, b);
    }
}

/// Exporting a well-formed graph to a document and importing the document
/// gives a graph of the same shape: as many nodes with the same labels in
/// the same order, as many edges between the nodes at the same positions in
/// the same order, and the same direction. Identifiers may differ.
pub proof fn lemma_round_trip(g: GraphModel)
    requires
        g.wf(),
    ensures
        import_model(document_of(g)).wf(),
        import_model(document_of(g)).is_left_right == g.is_left_right,
        import_model(document_of(g)).nodes.len() == g.nodes.len(),
        forall|i: int|
            0 <= i < g.nodes.len() ==> (#[trigger] import_model(document_of(g)).nodes[i]).label
                == g.nodes[i].label,
        import_model(document_of(g)).edges.len() == g.edges.len(),
        import_model(document_of(g)).edge_positions() == g.edge_positions(),
{
    let d = document_of(g);
    let start = GraphModel::empty().set_direction(d.is_left_right);
    let h = with_nodes(start, d.nodes);
    lemma_with_nodes(start, d.nodes);
    lemma_with_edges(g, h, g.edges.len() as int);
    assert(d.edges.take(g.edges.len() as int) == d.edges);
    let r = import_model(d);
    assert forall|e: int| 0 <= e < g.edges.len() implies r.edge_positions()[e]
        == g.edge_positions()[e] by {
        lemma_node_position(g.nodes, g.edges[e].from);
        lemma_node_position(g.nodes, g.edges[e].to);
        lemma_fresh_positions(h, g.position_of(g.edges[e].from));
        lemma_fresh_positions(h, g.position_of(g.edges[e].to));
    }
}

} // verus!
