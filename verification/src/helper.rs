//! Completion of the line that is being typed: a line that renames a node
//! is completed with the label that the node has.
use crate::command::{CommandModel, GraphCommand};
use crate::graph::text_of_label;
use crate::names::{Id, Label, Line};
use crate::parser::{parse_line, parse_model, Command, RequestModel};
use crate::text::push_text;
use vstd::prelude::*;

verus! {

/// What knows the labels of the nodes. Nothing is assumed of an
/// implementation: the contracts speak of what its method returned.
pub trait GetNodeLabel {
    /// The label of the node `id`, if there is such a node.
    fn get_node_label(&self, id: &Id) -> Option<Label>;
}

/// The node that the line `s` renames, if it renames one, with a new label or without.
pub open spec fn renamed_node(s: Seq<char>) -> Option<Seq<char>> {
    match parse_model(s) {
        RequestModel::GraphCommand(CommandModel::RenameNode { id, label }) => Some(id),
        RequestModel::RenameNodeUnlabelled { id } => Some(id),
        _ => None,
    }
}

/// The line that renames the node `id` to `label`.
pub open spec fn rename_text(id: Seq<char>, label: Seq<char>) -> Seq<char> {
    "r "@ + id + " "@ + label
}

/// The line that renames the node `id` to `label`.
pub fn rename_line(id: &Id, label: &Label) -> (r: String)
    ensures
        r@ == rename_text(id@, label@),
{
    let mut out = String::new();
    push_text(&mut out, "r ");
    push_text(&mut out, id.as_str());
    push_text(&mut out, " ");
    push_text(&mut out, label.as_str());
    out
}

/// The text of a line that may be missing.
pub open spec fn text_of_line(line: Option<String>) -> Option<Seq<char>> {
    match line {
        Some(l) => Some(l@),
        None => None,
    }
}

/// The completion of a line that renames the node `id`, where `label` is the
/// label of that node, if it is known.
pub open spec fn completion_text(id: Seq<char>, label: Option<Seq<char>>) -> Option<Seq<char>> {
    match label {
        Some(l) => Some(rename_text(id, l)),
        None => None,
    }
}

/// `line` is the completion that `label_info` gives for the node `id`: the
/// completion made of what `get_node_label` returns when asked for `id`.
pub open spec fn is_completion<GNL: GetNodeLabel>(
    label_info: &GNL,
    id: Seq<char>,
    line: Option<Seq<char>>,
) -> bool {
    exists|asked: Id, label: Option<Label>|
        #![trigger call_ensures(GNL::get_node_label, (label_info, &asked), label)]
        asked@ == id && call_ensures(GNL::get_node_label, (label_info, &asked), label) && line
            == completion_text(id, text_of_label(label))
}

/// Completes lines of the command language.
pub struct MicrodotLanguageCompleter<'a, GNL: GetNodeLabel> {
    pub label_info: &'a GNL,
}

impl<'a, GNL: GetNodeLabel> MicrodotLanguageCompleter<'a, GNL> {
    /// A completer that takes the labels from `label_info`.
    pub fn new(label_info: &'a GNL) -> (r: Self)
        ensures
            r.label_info == label_info,
    {
        MicrodotLanguageCompleter { label_info }
    }

    /// The node that `line` renames, if it renames one.
    pub fn renamed(line: &str) -> (r: Option<Id>)
        ensures
            crate::graph::text_of_id(r) == renamed_node(line@),
    {
        match parse_line(Line::new(line)) {
            Command::GraphCommand(GraphCommand::RenameNode { id, label }) => Some(id),
            Command::RenameNodeUnlabelled { id } => Some(id),
            _ => None,
        }
    }

    /// The completion of a line that renames the node `id`, given the label
    /// of that node, if it is known: the line that renames the node to that
    /// label; none where the label is not known.
    pub fn completion(id: &Id, label: Option<Label>) -> (r: Option<String>)
        ensures
            text_of_line(r) == completion_text(id@, text_of_label(label)),
    {
        match label {
            Some(label) => Some(rename_line(id, &label)),
            None => None,
        }
    }

    /// The completion of `line`: where the line renames a node, the node is
    /// looked up in `label_info`, and the completion is made of what that
    /// gives; a line that renames no node has no completion.
    pub fn complete(&self, line: &str) -> (r: Option<String>)
        ensures
            match renamed_node(line@) {
                Some(id) => is_completion(self.label_info, id, text_of_line(r)),
                None => r is None,
            },
    {
        match Self::renamed(line) {
            Some(id) => {
                let label = self.label_info.get_node_label(&id);
                let r = Self::completion(&id, label);
                assert(call_ensures(GNL::get_node_label, (self.label_info, &id), label));
                r
            },
            None => None,
        }
    }
}

} // verus!
