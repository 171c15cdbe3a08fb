use microdot_core::command::GraphCommand;
use microdot_core::exporter::{ExportCall, Exporter, NodeHighlight};
use microdot_core::graph::Graph;
use microdot_core::{Id, Label};

#[test]
fn can_insert_a_node() {
    let mut graph = Graph::new();
    let (id, _) = graph.insert_node(Label::new("a node label"));

    assert_eq!(graph.node_count(), 1);

    assert_eq!(graph.current_node(), Some(id))
}

#[test]
fn can_select_a_node() {
    let mut graph = Graph::new();
    let (id1, _) = graph.insert_node(Label::new("first node"));
    let (id2, _) = graph.insert_node(Label::new("second node"));

    assert_eq!(graph.current_node(), Some(id2));
    graph.select_node(&id1);
    assert_eq!(graph.current_node(), Some(id1));
}

#[test]
fn can_delete_a_node() {
    let mut graph = Graph::new();
    let (id1, _) = graph.insert_node(Label::new("first node"));
    let (id2, _) = graph.insert_node(Label::new("second node"));
    let (id3, _) = graph.insert_node(Label::new("third node"));

    let _e12 = graph.link_edge(&id1, &id2);
    let _e23 = graph.link_edge(&id2, &id3);

    // delete the middle node - should delete the edges too
    graph.delete_node(&id2, false);

    assert_eq!(graph.node_count(), 2);
    assert_eq!(graph.edge_count(), 0);
}

#[test]
fn can_delete_a_node_but_keep_edges() {
    let mut graph = Graph::new();
    let (id1, _) = graph.insert_node(Label::new("first node"));
    let (id2, _) = graph.insert_node(Label::new("second node"));
    let (id3, _) = graph.insert_node(Label::new("third node"));

    let _e12 = graph.link_edge(&id1, &id2);
    let _e23 = graph.link_edge(&id2, &id3);

    // delete the middle node but bridge its neighbours
    graph.delete_node(&id2, true);

    assert_eq!(graph.node_count(), 2);
    assert_eq!(graph.edge_count(), 1);
}

struct Recorder {
    lines: Vec<String>,
}

impl Exporter for Recorder {
    fn set_direction(&mut self, is_left_right: bool) {
        self.lines.push(format!("direction {}", is_left_right));
    }

    fn add_node(&mut self, id: &Id, label: &Label, highlight: NodeHighlight) {
        self.lines
            .push(format!("node {} '{}' {:?}", id.as_str(), label.as_str(), highlight));
    }

    fn add_edge(&mut self, id: &Id, from: &Id, to: &Id) {
        self.lines
            .push(format!("edge {} {} {}", id.as_str(), from.as_str(), to.as_str()));
    }
}

#[test]
fn export_visits_direction_nodes_and_edges_in_order() {
    let mut graph = Graph::new();
    let (a, _) = graph.insert_node(Label::new("alpha"));
    let (b, _) = graph.insert_node(Label::new("beta"));
    graph.link_edge(&a, &b);
    graph.highlight_search_results(Label::new("alp"));
    let mut recorder = Recorder { lines: Vec::new() };
    graph.export(&mut recorder);
    assert_eq!(
        recorder.lines,
        vec![
            "direction false".to_string(),
            "node n0 'alpha' SearchResult".to_string(),
            "node n1 'beta' CurrentNode".to_string(),
            "edge e0 n0 n1".to_string(),
        ]
    );
}

#[test]
fn messages_say_what_happened() {
    let mut graph = Graph::new();
    let (a, inserted) = graph.insert_node(Label::new("alpha"));
    assert_eq!(inserted.as_str(), "inserted node n0: 'alpha'");
    let missing = Id::new("n7");
    assert_eq!(graph.link_edge(&missing, &a).as_str(), "source node n7 not found");
    assert_eq!(graph.link_edge(&a, &missing).as_str(), "target node n7 not found");
    assert_eq!(graph.link_edge(&a, &a).as_str(), "Added edge e0 from n0 to n0");
    assert_eq!(graph.select_node(&missing).as_str(), "node n7 not found");
    assert_eq!(graph.select_node(&a).as_str(), "node n0 selected");
    let applied = graph.apply_command(GraphCommand::SetDirection { is_left_right: true });
    assert_eq!(applied.as_str(), "Direction changed to LR");
    assert!(graph.is_left_right());
}

#[test]
fn identifiers_are_never_handed_out_again() {
    let mut graph = Graph::new();
    let (a, _) = graph.insert_node(Label::new("a"));
    let (b, _) = graph.insert_node(Label::new("b"));
    graph.link_edge(&a, &b);
    graph.delete_node(&b, false);
    assert_eq!(graph.node_high_water(), 2);
    assert_eq!(graph.edge_high_water(), 1);
    let (c, _) = graph.insert_node(Label::new("c"));
    assert_eq!(c, Id::new("n2"));
    assert_eq!(
        graph.link_edge(&a, &c).as_str(),
        "Added edge e1 from n0 to n2"
    );
    for _ in 0..9 {
        graph.insert_node(Label::new("more"));
    }
    assert_eq!(graph.insert_node(Label::new("x")).0, Id::new("n12"));
}

#[test]
fn deleting_a_node_removes_the_edges_that_touch_it_and_no_others() {
    let mut graph = Graph::new();
    let ids: Vec<Id> = (0..5)
        .map(|i| graph.insert_node(Label::new(&format!("node {}", i))).0)
        .collect();
    graph.link_edge(&ids[0], &ids[2]);
    graph.link_edge(&ids[1], &ids[2]);
    graph.link_edge(&ids[2], &ids[3]);
    graph.link_edge(&ids[0], &ids[4]);
    graph.link_edge(&ids[2], &ids[2]);
    graph.link_edge(&ids[1], &ids[2]);
    graph.select_node(&ids[2]);
    assert_eq!(graph.delete_node(&ids[2], false).as_str(), "node n2 removed");
    assert_eq!(graph.node_count(), 4);
    assert_eq!(graph.edge_count(), 1);
    assert_eq!(graph.edge_ends(), vec![(0, 3)]);
    assert_eq!(graph.current_node(), None);
    assert_eq!(graph.delete_node(&ids[2], false).as_str(), "node n2 not found");
    assert_eq!(graph.node_count(), 4);
}

#[test]
fn keeping_edges_links_every_predecessor_to_every_successor() {
    let mut graph = Graph::new();
    let ids: Vec<Id> = (0..12)
        .map(|i| graph.insert_node(Label::new(&format!("node {}", i))).0)
        .collect();
    // predecessors of n5: n10, n2, n1 (n2 twice); successors: n11, n3
    graph.link_edge(&ids[10], &ids[5]);
    graph.link_edge(&ids[2], &ids[5]);
    graph.link_edge(&ids[1], &ids[5]);
    graph.link_edge(&ids[2], &ids[5]);
    graph.link_edge(&ids[5], &ids[3]);
    graph.link_edge(&ids[5], &ids[11]);
    graph.link_edge(&ids[5], &ids[5]);
    graph.link_edge(&ids[0], &ids[1]);
    graph.delete_node(&ids[5], true);
    assert_eq!(graph.node_count(), 11);
    // one edge is left, and three times two are new
    assert_eq!(graph.edge_count(), 7);
    assert_eq!(graph.edge_high_water(), 14);
    let mut recorder = Recorder { lines: Vec::new() };
    graph.export(&mut recorder);
    let edges: Vec<&String> = recorder
        .lines
        .iter()
        .filter(|l| l.starts_with("edge"))
        .collect();
    assert_eq!(
        edges,
        vec![
            "edge e7 n0 n1",
            "edge e8 n1 n11",
            "edge e9 n1 n3",
            "edge e10 n10 n11",
            "edge e11 n10 n3",
            "edge e12 n2 n11",
            "edge e13 n2 n3",
        ]
    );
}

#[test]
fn commands_that_name_what_is_missing_change_nothing() {
    let mut graph = Graph::new();
    let (a, _) = graph.insert_node(Label::new("a"));
    let missing = Id::new("e5");
    assert_eq!(graph.unlink_edge(&missing).as_str(), "edge e5 not found");
    assert_eq!(
        graph.rename_node(&missing, Label::new("x")).as_str(),
        "Could not find node e5"
    );
    assert_eq!(
        graph.inject_after_node(&missing, &Label::new("x")).as_str(),
        "source node e5 not found"
    );
    assert_eq!(
        graph.inject_before_node(&missing, &Label::new("x")).as_str(),
        "target node e5 not found"
    );
    assert_eq!(
        graph.expand_edge(&missing, &Label::new("x")).as_str(),
        "edge e5 not found"
    );
    assert_eq!(graph.node_count(), 1);
    assert_eq!(graph.edge_count(), 0);
    assert_eq!(graph.node_high_water(), 1);
    assert_eq!(graph.current_node(), Some(a));
    assert_eq!(graph.to_string(), "Graph: 1 nodes, 0 edges");
}

#[test]
fn edges_are_expanded_and_nodes_injected() {
    let mut graph = Graph::new();
    let (a, _) = graph.insert_node(Label::new("a"));
    let (b, _) = graph.insert_node(Label::new("b"));
    graph.link_edge(&a, &b);
    assert_eq!(
        graph.expand_edge(&Id::new("e0"), &Label::new("mid")).as_str(),
        "injected n2: 'mid' between n0 and n1"
    );
    assert_eq!(graph.edge_ends(), vec![(0, 2), (2, 1)]);
    assert_eq!(graph.current_node(), Some(Id::new("n2")));
    assert_eq!(
        graph.inject_after_node(&b, &Label::new("tail")).as_str(),
        "inserted node n3: 'tail' after n1"
    );
    assert_eq!(
        graph.inject_before_node(&a, &Label::new("head")).as_str(),
        "inserted node n4: 'head' before n0"
    );
    assert_eq!(graph.edge_ends(), vec![(0, 2), (2, 1), (1, 3), (4, 0)]);
    assert_eq!(graph.sources(), vec![Id::new("n4")]);
    assert_eq!(graph.sinks(), vec![Id::new("n3")]);
    assert_eq!(
        graph.rename_node(&a, Label::new("alpha")).as_str(),
        "Node n0 renamed to 'alpha'"
    );
    assert_eq!(graph.find_node_label(&a), Some(Label::new("alpha")));
    assert_eq!(graph.current_node(), Some(a));
    assert_eq!(graph.unlink_edge(&Id::new("e1")).as_str(), "edge e1 removed");
    assert_eq!(graph.edge_ends(), vec![(2, 1), (1, 3), (4, 0)]);
}

#[test]
fn search_results_are_listed_by_identifier() {
    let mut graph = Graph::new();
    for i in 0..11 {
        graph.insert_node(Label::new(&format!("item {}", i % 3)));
    }
    let found = graph.highlight_search_results(Label::new("item 1"));
    assert_eq!(
        found.as_str(),
        "Search results for: item 1,\nn1: item 1\nn10: item 1\nn4: item 1\nn7: item 1\n"
    );
    assert_eq!(graph.current_search(), Some(Label::new("item 1")));
    let none = graph.highlight_search_results(Label::new("nothing"));
    assert_eq!(none.as_str(), "Search results for: nothing,\n\n");
}

#[test]
fn a_search_result_is_shown_as_such_even_when_selected() {
    let mut graph = Graph::new();
    let (a, _) = graph.insert_node(Label::new("alpha"));
    graph.insert_node(Label::new("beta"));
    graph.select_node(&a);
    graph.highlight_search_results(Label::new("alp"));
    let mut recorder = Recorder { lines: Vec::new() };
    graph.export(&mut recorder);
    assert_eq!(recorder.lines[1], "node n0 'alpha' SearchResult");
    assert_eq!(recorder.lines[2], "node n1 'beta' Normal");
    graph.highlight_search_results(Label::new("zzz"));
    let mut recorder = Recorder { lines: Vec::new() };
    graph.export(&mut recorder);
    assert_eq!(recorder.lines[1], "node n0 'alpha' CurrentNode");
}

#[test]
fn neighbours_are_listed_sorted_and_once() {
    let mut graph = Graph::new();
    let ids: Vec<Id> = (0..12)
        .map(|i| graph.insert_node(Label::new(&format!("node {}", i))).0)
        .collect();
    graph.link_edge(&ids[10], &ids[5]);
    graph.link_edge(&ids[2], &ids[5]);
    graph.link_edge(&ids[2], &ids[5]);
    graph.link_edge(&ids[5], &ids[5]);
    graph.link_edge(&ids[5], &ids[3]);
    assert_eq!(graph.predecessors(&ids[5]), vec![Id::new("n10"), Id::new("n2")]);
    assert_eq!(graph.successors(&ids[5]), vec![Id::new("n3")]);
    assert!(graph.predecessors(&ids[0]).is_empty());
    assert!(graph.can_apply(&GraphCommand::DeleteNode {
        id: ids[5].clone(),
        keep_edges: true
    }));
    assert!(graph.can_apply(&GraphCommand::InsertNode {
        label: Label::new("x")
    }));
}

#[test]
fn every_command_is_applied_through_one_door() {
    let mut graph = Graph::new();
    let said = graph.apply_command(GraphCommand::InsertNode {
        label: Label::new("a"),
    });
    assert_eq!(said.as_str(), "inserted node n0: 'a'");
    let said = graph.apply_command(GraphCommand::InsertAfterNode {
        id: Id::new("n0"),
        label: Label::new("b"),
    });
    assert_eq!(said.as_str(), "inserted node n1: 'b' after n0");
    let said = graph.apply_command(GraphCommand::ExpandEdge {
        id: Id::new("e0"),
        label: Label::new("m"),
    });
    assert_eq!(said.as_str(), "injected n2: 'm' between n0 and n1");
    let said = graph.apply_command(GraphCommand::DeleteNode {
        id: Id::new("n2"),
        keep_edges: true,
    });
    assert_eq!(said.as_str(), "node n2 removed");
    assert_eq!(graph.edge_ends(), vec![(0, 1)]);
    let said = graph.apply_command(GraphCommand::UnlinkEdge { id: Id::new("e3") });
    assert_eq!(said.as_str(), "edge e3 removed");
    let said = graph.apply_command(GraphCommand::RenameNode {
        id: Id::new("n1"),
        label: Label::new("beta"),
    });
    assert_eq!(said.as_str(), "Node n1 renamed to 'beta'");
    let said = graph.apply_command(GraphCommand::SelectNode { id: Id::new("n0") });
    assert_eq!(said.as_str(), "node n0 selected");
    let said = graph.apply_command(GraphCommand::SetDirection {
        is_left_right: false,
    });
    assert_eq!(said.as_str(), "Direction changed to TB");
    let said = graph.apply_command(GraphCommand::LinkEdge {
        from: Id::new("n1"),
        to: Id::new("n0"),
    });
    assert_eq!(said.as_str(), "Added edge e4 from n1 to n0");
    let said = graph.apply_command(GraphCommand::InsertBeforeNode {
        id: Id::new("n9"),
        label: Label::new("x"),
    });
    assert_eq!(said.as_str(), "target node n9 not found");
}

#[test]
fn calls_are_delivered_to_the_method_they_name() {
    let mut recorder = Recorder { lines: Vec::new() };
    ExportCall::Direction { is_left_right: true }.deliver(&mut recorder);
    ExportCall::Node {
        id: Id::new("n3"),
        label: Label::new("three"),
        highlight: NodeHighlight::Normal,
    }
    .deliver(&mut recorder);
    ExportCall::Edge {
        id: Id::new("e1"),
        from: Id::new("n3"),
        to: Id::new("n4"),
    }
    .deliver(&mut recorder);
    assert_eq!(
        recorder.lines,
        vec![
            "direction true".to_string(),
            "node n3 'three' Normal".to_string(),
            "edge e1 n3 n4".to_string(),
        ]
    );
    let mut graph = Graph::new();
    graph.insert_node(Label::new("a"));
    let calls = graph.export_calls();
    assert_eq!(calls.len(), 2);
    let mut by_hand = Recorder { lines: Vec::new() };
    for call in &calls {
        call.deliver(&mut by_hand);
    }
    let mut at_once = Recorder { lines: Vec::new() };
    graph.export(&mut at_once);
    assert_eq!(by_hand.lines, at_once.lines);
}
