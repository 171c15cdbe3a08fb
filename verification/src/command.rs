//! The commands that edit a graph.
use crate::names::{Id, Label};
use crate::text::push_text;
use vstd::prelude::*;

verus! {

/// One structural edit of a graph.
#[derive(PartialEq, Eq, Debug)]
pub enum GraphCommand {
    DeleteNode { id: Id, keep_edges: bool },
    ExpandEdge { id: Id, label: Label },
    InsertAfterNode { id: Id, label: Label },
    InsertBeforeNode { id: Id, label: Label },
    InsertNode { label: Label },
    LinkEdge { from: Id, to: Id },
    RenameNode { id: Id, label: Label },
    SelectNode { id: Id },
    SetDirection { is_left_right: bool },
    UnlinkEdge { id: Id },
}

/// A command as specifications see it: the same variants over plain texts.
pub enum CommandModel {
    DeleteNode { id: Seq<char>, keep_edges: bool },
    ExpandEdge { id: Seq<char>, label: Seq<char> },
    InsertAfterNode { id: Seq<char>, label: Seq<char> },
    InsertBeforeNode { id: Seq<char>, label: Seq<char> },
    InsertNode { label: Seq<char> },
    LinkEdge { from: Seq<char>, to: Seq<char> },
    RenameNode { id: Seq<char>, label: Seq<char> },
    SelectNode { id: Seq<char> },
    SetDirection { is_left_right: bool },
    UnlinkEdge { id: Seq<char> },
}

impl View for GraphCommand {
    type V = CommandModel;

    open spec fn view(&self) -> CommandModel {
        match self {
            GraphCommand::DeleteNode { id, keep_edges } => CommandModel::DeleteNode {
                id: id@,
                keep_edges: *keep_edges,
            },
            GraphCommand::ExpandEdge { id, label } => CommandModel::ExpandEdge {
                id: id@,
                label: label@,
            },
            GraphCommand::InsertAfterNode { id, label } => CommandModel::InsertAfterNode {
                id: id@,
                label: label@,
            },
            GraphCommand::InsertBeforeNode { id, label } => CommandModel::InsertBeforeNode {
                id: id@,
                label: label@,
            },
            GraphCommand::InsertNode { label } => CommandModel::InsertNode { label: label@ },
            GraphCommand::LinkEdge { from, to } => CommandModel::LinkEdge { from: from@, to: to@ },
            GraphCommand::RenameNode { id, label } => CommandModel::RenameNode {
                id: id@,
                label: label@,
            },
            GraphCommand::SelectNode { id } => CommandModel::SelectNode { id: id@ },
            GraphCommand::SetDirection { is_left_right } => CommandModel::SetDirection {
                is_left_right: *is_left_right,
            },
            GraphCommand::UnlinkEdge { id } => CommandModel::UnlinkEdge { id: id@ },
        }
    }
}

/// The help line of a command.
pub open spec fn help_text(c: CommandModel) -> Seq<char> {
    match c {
        CommandModel::DeleteNode { id, keep_edges } => "Delete the <"@ + id + "> node"@,
        CommandModel::ExpandEdge { id, label } => "Expand the <"@ + id
            + "> edge with a new node labelled \""@ + label + "\""@,
        CommandModel::InsertAfterNode { id, label } => "Insert a node labelled \""@ + label
            + "\" after the node with id \""@ + id + "\""@,
        CommandModel::InsertBeforeNode { id, label } => "Insert a node labelled \""@ + label
            + "\" before the node with id \""@ + id + "\""@,
        CommandModel::InsertNode { label } => "Insert a node labelled \""@ + label
            + "\" into the graph"@,
        CommandModel::LinkEdge { from, to } => "Link the <"@ + from + "> node to the <"@ + to
            + "> node"@,
        CommandModel::RenameNode { id, label } => "Rename the <"@ + id + "> node to \""@ + label
            + "\""@,
        CommandModel::SelectNode { id } => "Select the <"@ + id + "> node and highlight it"@,
        CommandModel::SetDirection { is_left_right } => "Change the orientation of the graph to "@
            + (if is_left_right {
            "left to right"@
        } else {
            "top to bottom"@
        }),
        CommandModel::UnlinkEdge { id } => "Unlink the <"@ + id + "> edge"@,
    }
}

/// `a`, then `b`, then `c`.
pub fn join3(a: &str, b: &str, c: &str) -> (r: String)
    ensures
        r@ == a@ + b@ + c@,
{
    let mut out = String::new();
    push_text(&mut out, a);
    push_text(&mut out, b);
    push_text(&mut out, c);
    out
}

/// `a`, `b`, `c`, `d` and `e`, one after the other.
pub fn join5(a: &str, b: &str, c: &str, d: &str, e: &str) -> (r: String)
    ensures
        r@ == a@ + b@ + c@ + d@ + e@,
{
    let mut out = join3(a, b, c);
    push_text(&mut out, d);
    push_text(&mut out, e);
    out
}

impl GraphCommand {
    /// One line that says what the command does.
    pub fn to_help_string(&self) -> (r: String)
        ensures
            r@ == help_text(self@),
    {
        match self {
            GraphCommand::DeleteNode { id, keep_edges } => join3(
                "Delete the <",
                id.as_str(),
                "> node",
            ),
            GraphCommand::ExpandEdge { id, label } => join5(
                "Expand the <",
                id.as_str(),
                "> edge with a new node labelled \"",
                label.as_str(),
                "\"",
            ),
            GraphCommand::InsertAfterNode { id, label } => join5(
                "Insert a node labelled \"",
                label.as_str(),
                "\" after the node with id \"",
                id.as_str(),
                "\"",
            ),
            GraphCommand::InsertBeforeNode { id, label } => join5(
                "Insert a node labelled \"",
                label.as_str(),
                "\" before the node with id \"",
                id.as_str(),
                "\"",
            ),
            GraphCommand::InsertNode { label } => join3(
                "Insert a node labelled \"",
                label.as_str(),
                "\" into the graph",
            ),
            GraphCommand::LinkEdge { from, to } => join5(
                "Link the <",
                from.as_str(),
                "> node to the <",
                to.as_str(),
                "> node",
            ),
            GraphCommand::RenameNode { id, label } => join5(
                "Rename the <",
                id.as_str(),
                "> node to \"",
                label.as_str(),
                "\"",
            ),
            GraphCommand::SelectNode { id } => join3(
                "Select the <",
                id.as_str(),
                "> node and highlight it",
            ),
            GraphCommand::SetDirection { is_left_right } => {
                let way = if *is_left_right {
                    "left to right"
                } else {
                    "top to bottom"
                };
                let r = join3("Change the orientation of the graph to ", way, "");
                assert(r@ == help_text(self@)) by {
                    assert(""@ == Seq::<char>::empty()) by {
                        reveal_strlit("");
                    }
                }
                r
            },
            GraphCommand::UnlinkEdge { id } => join3("Unlink the <", id.as_str(), "> edge"),
        }
    }
}

} // verus!
