use microdot_core::command::GraphCommand;
use microdot_core::helper::{GetNodeLabel, MicrodotLanguageCompleter};
use microdot_core::parser::parse_line;
use microdot_core::{Command, Id, Label, Line};

fn parsed(input: &str) -> Command {
    parse_line(Line::new(input))
}

#[test]
fn parser_parser_bits() {
    assert_eq!(
        parsed("l f1 f2"),
        GraphCommand::LinkEdge {
            from: Id::new("f1"),
            to: Id::new("f2")
        }
        .into()
    );
    assert_eq!(
        parsed("r f new name"),
        GraphCommand::RenameNode {
            id: Id::new("f"),
            label: Label::new("new name")
        }
        .into()
    );
    assert_eq!(parsed("r f"), Command::RenameNodeUnlabelled { id: Id::new("f") });
    assert_eq!(
        parsed("aft f new name"),
        GraphCommand::InsertAfterNode {
            id: Id::new("f"),
            label: Label::new("new name")
        }
        .into()
    );
    assert_eq!(
        parsed("bef f new name"),
        GraphCommand::InsertBeforeNode {
            id: Id::new("f"),
            label: Label::new("new name")
        }
        .into()
    );
    assert_eq!(
        parsed("exp f new name"),
        GraphCommand::ExpandEdge {
            id: Id::new("f"),
            label: Label::new("new name")
        }
        .into()
    );
    assert_eq!(
        parsed("d foo"),
        GraphCommand::DeleteNode {
            id: Id::new("foo"),
            keep_edges: false
        }
        .into()
    );
    assert_eq!(parsed("exit"), Command::Exit);
    assert_eq!(parsed("show"), Command::Show);
    assert_eq!(
        parsed("i foo bar baz"),
        GraphCommand::InsertNode {
            label: Label::new("foo bar baz")
        }
        .into()
    );
    assert_eq!(
        parsed("i foo"),
        GraphCommand::InsertNode {
            label: Label::new("foo")
        }
        .into()
    );
    assert_eq!(
        parsed("lr"),
        GraphCommand::SetDirection {
            is_left_right: true
        }
        .into()
    );
    assert_eq!(parsed("p"), Command::PrintDot);
    assert_eq!(parsed("print"), Command::PrintDot);
    assert_eq!(parsed("j"), Command::PrintJson);
    assert_eq!(parsed("json"), Command::PrintJson);
    assert_eq!(parsed("save"), Command::Save);
    assert_eq!(
        parsed("/foo"),
        Command::Search {
            sub_label: Label::new("foo")
        }
    );
    assert_eq!(
        parsed("s foo"),
        Command::Search {
            sub_label: Label::new("foo")
        }
    );
    assert_eq!(
        parsed("search foo"),
        Command::Search {
            sub_label: Label::new("foo")
        }
    );
    assert_eq!(
        parsed("sel n1"),
        GraphCommand::SelectNode { id: Id::new("n1") }.into()
    );
    assert_eq!(parsed("h"), Command::ShowHelp);
    assert_eq!(parsed("help"), Command::ShowHelp);
    assert_eq!(
        parsed("tb"),
        GraphCommand::SetDirection {
            is_left_right: false
        }
        .into()
    );
    assert_eq!(
        parsed("u e1"),
        GraphCommand::UnlinkEdge { id: Id::new("e1") }.into()
    );
}

#[test]
fn parser_parse_line_works() {
    assert_eq!(
        parsed("i"),
        Command::ParseError {
            line: Line::new("i")
        }
    );

    assert_eq!(parsed("h"), Command::ShowHelp);

    assert_eq!(parsed("p"), Command::PrintDot);

    assert_eq!(parsed("j"), Command::PrintJson);

    assert_eq!(parsed("exit"), Command::Exit);
    assert_eq!(
        parsed("exp e1 foo"),
        GraphCommand::ExpandEdge {
            id: Id::new("e1"),
            label: Label::new("foo")
        }
        .into()
    );
    assert_eq!(
        parsed("aft n1 foo"),
        GraphCommand::InsertAfterNode {
            id: Id::new("n1"),
            label: Label::new("foo")
        }
        .into()
    );
    assert_eq!(
        parsed("bef n1 foo"),
        GraphCommand::InsertBeforeNode {
            id: Id::new("n1"),
            label: Label::new("foo")
        }
        .into()
    );

    assert_eq!(
        parsed("lr"),
        GraphCommand::SetDirection {
            is_left_right: true
        }
        .into()
    );
    assert_eq!(
        parsed("tb"),
        GraphCommand::SetDirection {
            is_left_right: false
        }
        .into()
    );

    assert_eq!(
        parsed("i foo"),
        GraphCommand::InsertNode {
            label: Label::new("foo")
        }
        .into()
    );

    assert_eq!(
        parsed("d foo"),
        GraphCommand::DeleteNode {
            id: Id::new("foo"),
            keep_edges: false
        }
        .into()
    );

    assert_eq!(
        parsed("sel foo"),
        GraphCommand::SelectNode { id: Id::new("foo") }.into()
    );

    assert_eq!(
        parsed("l foo bar"),
        GraphCommand::LinkEdge {
            from: Id::new("foo"),
            to: Id::new("bar")
        }
        .into()
    );

    assert_eq!(
        parsed("u foo"),
        GraphCommand::UnlinkEdge { id: Id::new("foo") }.into()
    );

    assert_eq!(
        parsed("r foo a new name"),
        GraphCommand::RenameNode {
            id: Id::new("foo"),
            label: Label::new("a new name")
        }
        .into()
    );

    assert_eq!(
        parsed("r foo"),
        Command::RenameNodeUnlabelled { id: Id::new("foo") }.into()
    );

    assert_eq!(parsed("save"), Command::Save);

    assert_eq!(
        parsed("search foo"),
        Command::Search {
            sub_label: Label::new("foo")
        }
    );

    assert_eq!(
        parsed("s foo"),
        Command::Search {
            sub_label: Label::new("foo")
        }
    );
    assert_eq!(parsed("show"), Command::Show {});
    assert_eq!(
        parsed("/foo"),
        Command::Search {
            sub_label: Label::new("foo")
        }
    );
}

#[test]
fn the_first_form_that_fits_decides() {
    assert_eq!(
        parsed("  d\tn1  trailing"),
        GraphCommand::DeleteNode {
            id: Id::new("n1"),
            keep_edges: false
        }
        .into()
    );
    assert_eq!(
        parsed("dk n1"),
        GraphCommand::DeleteNode {
            id: Id::new("n1"),
            keep_edges: true
        }
        .into()
    );
    assert_eq!(
        parsed("info"),
        GraphCommand::InsertNode {
            label: Label::new("nfo")
        }
        .into()
    );
    assert_eq!(
        parsed("i first line\nsecond"),
        GraphCommand::InsertNode {
            label: Label::new("first line")
        }
        .into()
    );
    assert_eq!(
        parsed("crit cost"),
        Command::CriticalPathAnalysis {
            variable_name: "cost".to_string()
        }
    );
    assert_eq!(
        parsed("cost effort"),
        Command::CostAnalysis {
            variable_name: "effort".to_string()
        }
    );
    assert_eq!(
        parsed("sel"),
        Command::Search {
            sub_label: Label::new("el")
        }
    );
    assert_eq!(
        parsed(""),
        Command::ParseError {
            line: Line::new("")
        }
    );
    assert_eq!(
        parsed("x 1"),
        Command::ParseError {
            line: Line::new("x 1")
        }
    );
    assert_eq!(
        parsed("l foo 9"),
        Command::ParseError {
            line: Line::new("l foo 9")
        }
    );
}

#[test]
fn help_lines_name_what_a_command_does() {
    assert_eq!(parsed("d n1").to_help_string(), "Delete the <n1> node");
    assert_eq!(
        parsed("exp e1 mid").to_help_string(),
        "Expand the <e1> edge with a new node labelled \"mid\""
    );
    assert_eq!(
        parsed("aft n1 x").to_help_string(),
        "Insert a node labelled \"x\" after the node with id \"n1\""
    );
    assert_eq!(
        parsed("bef n1 x").to_help_string(),
        "Insert a node labelled \"x\" before the node with id \"n1\""
    );
    assert_eq!(
        parsed("i x").to_help_string(),
        "Insert a node labelled \"x\" into the graph"
    );
    assert_eq!(
        parsed("l a b").to_help_string(),
        "Link the <a> node to the <b> node"
    );
    assert_eq!(parsed("r a b").to_help_string(), "Rename the <a> node to \"b\"");
    assert_eq!(
        parsed("sel a").to_help_string(),
        "Select the <a> node and highlight it"
    );
    assert_eq!(
        parsed("lr").to_help_string(),
        "Change the orientation of the graph to left to right"
    );
    assert_eq!(
        parsed("tb").to_help_string(),
        "Change the orientation of the graph to top to bottom"
    );
    assert_eq!(parsed("u e1").to_help_string(), "Unlink the <e1> edge");
    assert_eq!(parsed("h").to_help_string(), "display this help");
    assert_eq!(
        parsed("/x").to_help_string(),
        "search for <x> and highlight matching nodes"
    );
    assert_eq!(parsed("exit").to_help_string(), "exit microdot");
    assert_eq!(parsed("??").to_help_string(), "could not parse: \"??\"");
}

struct Known;

impl GetNodeLabel for Known {
    fn get_node_label(&self, id: &Id) -> Option<Label> {
        if id.as_str() == "n1" {
            Some(Label::new("first node"))
        } else {
            None
        }
    }
}

#[test]
fn lines_that_rename_a_node_are_completed_with_its_label() {
    let known = Known;
    let completer = MicrodotLanguageCompleter::new(&known);
    assert_eq!(completer.complete("r n1"), Some("r n1 first node".to_string()));
    assert_eq!(
        completer.complete("r n1 something else"),
        Some("r n1 first node".to_string())
    );
    assert_eq!(completer.complete("r n9"), None);
    assert_eq!(completer.complete("i n1"), None);
    assert_eq!(completer.complete(""), None);
    assert_eq!(
        MicrodotLanguageCompleter::<Known>::renamed("  r  n1  "),
        Some(Id::new("n1"))
    );
    assert_eq!(MicrodotLanguageCompleter::<Known>::renamed("d n1"), None);
    assert_eq!(
        MicrodotLanguageCompleter::<Known>::completion(&Id::new("n2"), Some(Label::new("x y"))),
        Some("r n2 x y".to_string())
    );
    assert_eq!(
        MicrodotLanguageCompleter::<Known>::completion(&Id::new("n2"), None),
        None
    );
}
