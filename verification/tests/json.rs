use microdot_core::command::GraphCommand;
use microdot_core::graph::Graph;
use microdot_core::json::{JsonEdge, JsonExporter, JsonGraph, JsonImporter, JsonNode};
use microdot_core::{Id, Label};

fn node(id: &str, label: &str) -> JsonNode {
    JsonNode {
        id: Id::new(id),
        label: Label::new(label),
    }
}

fn edge(from: &str, to: &str) -> JsonEdge {
    JsonEdge {
        from: Id::new(from),
        to: Id::new(to),
    }
}

#[test]
fn json_exports_graph() {
    let mut graph = Graph::new();

    graph.apply_command(GraphCommand::InsertNode {
        label: Label::new("abc"),
    });

    graph.apply_command(GraphCommand::InsertNode {
        label: Label::new("def"),
    });

    graph.apply_command(GraphCommand::LinkEdge {
        from: Id::new("n0"),
        to: Id::new("n1"),
    });

    let mut exporter = JsonExporter::new();
    let exported = exporter.export_document(&graph);

    assert_eq!(
        exported,
        JsonGraph {
            nodes: vec![node("n0", "abc"), node("n1", "def")],
            edges: vec![edge("n0", "n1")],
            is_left_right: false,
        }
    );
}

#[test]
fn json_imports_graph() {
    let document = JsonGraph {
        nodes: vec![node("a", "first"), node("b", "second"), node("a", "third")],
        edges: vec![edge("a", "b"), edge("b", "missing"), edge("b", "b")],
        is_left_right: true,
    };
    let graph = JsonImporter::import_document(&document);
    assert!(graph.is_left_right());
    assert_eq!(graph.node_count(), 3);
    assert_eq!(graph.edge_count(), 2);
    assert_eq!(graph.current_node(), Some(Id::new("n2")));
    let exported = JsonExporter::new().export_document(&graph);
    assert_eq!(
        exported,
        JsonGraph {
            nodes: vec![node("n0", "first"), node("n1", "second"), node("n2", "third")],
            edges: vec![edge("n2", "n1"), edge("n1", "n1")],
            is_left_right: true,
        }
    );
}

#[test]
fn json_round_trips_graph() {
    let mut graph = Graph::new();
    let (a, _) = graph.insert_node(Label::new("abc"));
    let (b, _) = graph.insert_node(Label::new("gone"));
    let (c, _) = graph.insert_node(Label::new("def #tag $x=1"));
    graph.link_edge(&a, &c);
    graph.link_edge(&c, &a);
    graph.link_edge(&a, &c);
    graph.link_edge(&c, &c);
    graph.delete_node(&b, false);
    graph.set_direction(true);
    let exported = JsonExporter::new().export_document(&graph);
    let imported = JsonImporter::import_document(&exported);
    let again = JsonExporter::new().export_document(&imported);
    assert_eq!(
        again,
        JsonGraph {
            nodes: vec![node("n0", "abc"), node("n1", "def #tag $x=1")],
            edges: vec![
                edge("n0", "n1"),
                edge("n1", "n0"),
                edge("n0", "n1"),
                edge("n1", "n1")
            ],
            is_left_right: true,
        }
    );
    assert_eq!(imported.node_count(), graph.node_count());
    assert_eq!(imported.edge_count(), graph.edge_count());
    assert_eq!(imported.edge_ends(), graph.edge_ends());
    assert_eq!(imported.is_left_right(), graph.is_left_right());
}

#[test]
fn creates_empty_graph() {
    let graph = JsonImporter::import_document(&JsonGraph {
        nodes: vec![],
        edges: vec![],
        is_left_right: false,
    });
    assert_eq!(graph.node_count(), 0);
    assert_eq!(graph.edge_count(), 0);
    assert_eq!(graph.to_string(), "Graph: 0 nodes, 0 edges");
}

#[test]
fn an_exporter_keeps_what_it_has_seen() {
    let mut graph = Graph::new();
    graph.insert_node(Label::new("x"));
    let mut exporter = JsonExporter::new();
    exporter.export_document(&graph);
    let twice = exporter.export_document(&graph);
    assert_eq!(twice.nodes, vec![node("n0", "x"), node("n0", "x")]);
    assert_eq!(JsonImporter::new("{}").content(), "{}");
}
