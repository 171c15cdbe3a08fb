//! What a graph shows to whatever renders it.
use crate::names::{Id, Label};
use vstd::prelude::*;

verus! {

/// How a node is to be set off from the others.
#[derive(Copy, Clone, Debug, PartialEq, Eq, Structural)]
pub enum NodeHighlight {
    Normal,
    SearchResult,
    CurrentNode,
}

/// A receiver of a graph's contents. `Graph::export` sets the direction
/// once, then adds each node and then each edge, in the order of their
/// insertion: it makes the calls that `Graph::export_calls` lists. Nothing
/// is assumed of an implementation: the contracts speak of what its methods
/// ensure.
pub trait Exporter {
    fn set_direction(&mut self, is_left_right: bool);

    fn add_node(&mut self, id: &Id, label: &Label, highlight: NodeHighlight);

    fn add_edge(&mut self, id: &Id, from: &Id, to: &Id);
}

/// One call on an exporter.
#[derive(Debug)]
pub enum ExportCall {
    Direction { is_left_right: bool },
    Node { id: Id, label: Label, highlight: NodeHighlight },
    Edge { id: Id, from: Id, to: Id },
}

/// One call on an exporter, as specifications see it.
#[verifier::ext_equal]
pub enum ExportEvent {
    Direction { is_left_right: bool },
    Node { id: Seq<char>, label: Seq<char>, highlight: NodeHighlight },
    Edge { id: Seq<char>, from: Seq<char>, to: Seq<char> },
}

impl View for ExportCall {
    type V = ExportEvent;

    open spec fn view(&self) -> ExportEvent {
        match self {
            ExportCall::Direction { is_left_right } => ExportEvent::Direction {
                is_left_right: *is_left_right,
            },
            ExportCall::Node { id, label, highlight } => ExportEvent::Node {
                id: id@,
                label: label@,
                highlight: *highlight,
            },
            ExportCall::Edge { id, from, to } => ExportEvent::Edge {
                id: id@,
                from: from@,
                to: to@,
            },
        }
    }
}

/// The calls of a vector as specifications see them.
pub open spec fn events(calls: Seq<ExportCall>) -> Seq<ExportEvent> {
    calls.map_values(|c: ExportCall| c@)
}

/// The call `call` is made through `m`: what the method of the exporter
/// that the call names ensures, of the exporter behind `m` as it was and as
/// it is left, given what the call holds.
pub open spec fn is_made<X: Exporter>(m: &mut X, call: ExportCall) -> bool {
    match call {
        ExportCall::Direction { is_left_right } => call_ensures(
            X::set_direction,
            (m, is_left_right),
            (),
        ),
        ExportCall::Node { id, label, highlight } => call_ensures(
            X::add_node,
            (m, &id, &label, highlight),
            (),
        ),
        ExportCall::Edge { id, from, to } => call_ensures(X::add_edge, (m, &id, &from, &to), ()),
    }
}

/// The calls `calls` are made through `through`, one through each.
pub open spec fn are_made<X: Exporter>(through: Seq<&mut X>, calls: Seq<ExportCall>) -> bool {
    &&& through.len() == calls.len()
    &&& forall|i: int| 0 <= i < calls.len() ==> is_made(#[trigger] through[i], calls[i])
}

impl ExportCall {
    /// Makes the call on `exporter`: calls the method that the call names,
    /// once, with what the call holds. The exporter is left as that method
    /// leaves it.
    pub fn deliver<X: Exporter>(&self, exporter: &mut X)
        ensures
            exists|m: &mut X|
                #![trigger is_made(m, *self)]
                mut_ref_current(m) == *old(exporter) && mut_ref_future(m) == *final(exporter)
                    && is_made(m, *self),
    {
        let ghost before = *exporter;
        match self {
            ExportCall::Direction { is_left_right } => {
                exporter.set_direction(*is_left_right);
                proof {
                    let through = choose|m: &mut X|
                        #![trigger call_ensures(X::set_direction, (m, *is_left_right), ())]
                        mut_ref_current(m) == before && mut_ref_future(m) == *exporter
                            && call_ensures(X::set_direction, (m, *is_left_right), ());
                    assert(is_made(through, *self));
                }
            },
            ExportCall::Node { id, label, highlight } => {
                exporter.add_node(id, label, *highlight);
                proof {
                    let through = choose|m: &mut X|
                        #![trigger call_ensures(X::add_node, (m, id, label, *highlight), ())]
                        mut_ref_current(m) == before && mut_ref_future(m) == *exporter
                            && call_ensures(X::add_node, (m, id, label, *highlight), ());
                    assert(is_made(through, *self));
                }
            },
            ExportCall::Edge { id, from, to } => {
                exporter.add_edge(id, from, to);
                proof {
                    let through = choose|m: &mut X|
                        #![trigger call_ensures(X::add_edge, (m, id, from, to), ())]
                        mut_ref_current(m) == before && mut_ref_future(m) == *exporter
                            && call_ensures(X::add_edge, (m, id, from, to), ());
                    assert(is_made(through, *self));
                }
            },
        }
    }
}

} // verus!
