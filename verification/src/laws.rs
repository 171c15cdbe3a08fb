//! What holds of every graph that the commands can build.
use crate::command::CommandModel;
use crate::model::{
    cross, edge_position, edges_clear_of, incoming_ends, lemma_cross_len, lemma_edge_id_injective,
    lemma_edge_position, lemma_node_id_injective, lemma_node_position, node_id, node_position,
    outgoing_ends, pairs_from, predecessors, successors, EdgeModel, GraphModel, NodeModel,
};
use crate::text::{
    insert_sorted, lemma_text_lt_total, lemma_text_lt_transitive, sorted_texts, text_lt,
};
use vstd::prelude::*;

verus! {

/// A node at some position is found under its identifier.
pub proof fn lemma_has_node(nodes: Seq<NodeModel>, id: Seq<char>, i: int)
    requires
        0 <= i < nodes.len(),
        nodes[i].id() == id,
    ensures
        node_position(nodes, id) is Some,
{
    lemma_node_position(nodes, id);
}

/// In a well-formed graph no two nodes share an identifier, and no two edges.
pub proof fn lemma_ids_unique(g: GraphModel)
    requires
        g.wf(),
    ensures
        forall|i: int, j: int|
            0 <= i < g.nodes.len() && 0 <= j < g.nodes.len() && i != j ==> (
            #[trigger] g.nodes[i]).id() != (#[trigger] g.nodes[j]).id(),
        forall|i: int, j: int|
            0 <= i < g.edges.len() && 0 <= j < g.edges.len() && i != j ==> (
            #[trigger] g.edges[i]).id() != (#[trigger] g.edges[j]).id(),
{
    assert forall|i: int, j: int|
        0 <= i < g.nodes.len() && 0 <= j < g.nodes.len() && i != j implies (
    #[trigger] g.nodes[i]).id() != (#[trigger] g.nodes[j]).id() by {
        if g.nodes[i].id() == g.nodes[j].id() {
            lemma_node_id_injective(g.nodes[i].serial, g.nodes[j].serial);
        }
    }
    assert forall|i: int, j: int|
        0 <= i < g.edges.len() && 0 <= j < g.edges.len() && i != j implies (
    #[trigger] g.edges[i]).id() != (#[trigger] g.edges[j]).id() by {
        if g.edges[i].id() == g.edges[j].id() {
            lemma_edge_id_injective(g.edges[i].serial, g.edges[j].serial);
        }
    }
}

/// No node of a well-formed graph has the identifier that the next node gets.
pub proof fn lemma_next_node_id_fresh(g: GraphModel)
    requires
        g.wf(),
    ensures
        !g.has_node(node_id(g.node_high_water)),
{
    lemma_node_position(g.nodes, node_id(g.node_high_water));
    if let Some(i) = node_position(g.nodes, node_id(g.node_high_water)) {
        lemma_node_id_injective(g.nodes[i].serial, g.node_high_water);
    }
}

/// A node found among `nodes` is found in the same place after one more node is added.
pub proof fn lemma_position_after_push(nodes: Seq<NodeModel>, n: NodeModel, id: Seq<char>)
    requires
        node_position(nodes, id) is Some,
    ensures
        node_position(nodes.push(n), id) == node_position(nodes, id),
{
    assert(nodes.push(n).drop_last() == nodes);
}

/// Inserting a node leaves a well-formed graph.
pub proof fn lemma_insert_node_wf(g: GraphModel, label: Seq<char>)
    requires
        g.wf(),
    ensures
        g.insert_node(label).wf(),
{
    let h = g.insert_node(label);
    let n = NodeModel { serial: g.node_high_water, label };
    assert forall|k: int| 0 <= k < h.edges.len() implies h.has_node(
        (#[trigger] h.edges[k]).from,
    ) && h.has_node(h.edges[k].to) by {
        lemma_position_after_push(g.nodes, n, g.edges[k].from);
        lemma_position_after_push(g.nodes, n, g.edges[k].to);
    }
}

/// Linking two nodes leaves a well-formed graph.
pub proof fn lemma_link_edge_wf(g: GraphModel, from: Seq<char>, to: Seq<char>)
    requires
        g.wf(),
    ensures
        g.link_edge(from, to).wf(),
{
}

/// Removing an edge leaves a well-formed graph.
pub proof fn lemma_unlink_edge_wf(g: GraphModel, id: Seq<char>)
    requires
        g.wf(),
    ensures
        g.unlink_edge(id).wf(),
{
    lemma_edge_position(g.edges, id);
}

/// Giving a node another label moves no node.
pub proof fn lemma_position_after_relabel(
    nodes: Seq<NodeModel>,
    p: int,
    label: Seq<char>,
    id: Seq<char>,
)
    requires
        0 <= p < nodes.len(),
    ensures
        node_position(nodes.update(p, NodeModel { serial: nodes[p].serial, label }), id)
            == node_position(nodes, id),
{
    let m = nodes.update(p, NodeModel { serial: nodes[p].serial, label });
    lemma_node_position(nodes, id);
    lemma_node_position(m, id);
    if let Some(i) = node_position(nodes, id) {
        assert(m[i].id() == id);
    }
}

/// Relabelling a node leaves a well-formed graph.
pub proof fn lemma_rename_node_wf(g: GraphModel, id: Seq<char>, label: Seq<char>)
    requires
        g.wf(),
    ensures
        g.rename_node(id, label).wf(),
{
    let h = g.rename_node(id, label);
    lemma_node_position(g.nodes, id);
    if let Some(p) = node_position(g.nodes, id) {
        assert forall|x: Seq<char>| g.has_node(x) == h.has_node(x) by {
            lemma_position_after_relabel(g.nodes, p, label, x);
        }
    }
}

/// Selecting a node leaves a well-formed graph.
pub proof fn lemma_select_node_wf(g: GraphModel, id: Seq<char>)
    requires
        g.wf(),
    ensures
        g.select_node(id).wf(),
{
}

/// Inserting a node after another leaves a well-formed graph.
pub proof fn lemma_inject_after_node_wf(g: GraphModel, from: Seq<char>, label: Seq<char>)
    requires
        g.wf(),
    ensures
        g.inject_after_node(from, label).wf(),
{
    if g.has_node(from) {
        lemma_insert_node_wf(g, label);
    }
}

/// Inserting a node before another leaves a well-formed graph.
pub proof fn lemma_inject_before_node_wf(g: GraphModel, to: Seq<char>, label: Seq<char>)
    requires
        g.wf(),
    ensures
        g.inject_before_node(to, label).wf(),
{
    if g.has_node(to) {
        lemma_insert_node_wf(g, label);
    }
}

/// Expanding an edge leaves a well-formed graph.
pub proof fn lemma_expand_edge_wf(g: GraphModel, id: Seq<char>, label: Seq<char>)
    requires
        g.wf(),
    ensures
        g.expand_edge(id, label).wf(),
{
    lemma_edge_position(g.edges, id);
    if let Some(i) = edge_position(g.edges, id) {
        let a = g.unlink_edge(id);
        lemma_insert_node_wf(a, label);
    }
}

/// Linking pairs of nodes leaves a well-formed graph, adds no more edges than
/// there are pairs, and changes nothing but the edges.
pub proof fn lemma_link_all_wf(g: GraphModel, pairs: Seq<(Seq<char>, Seq<char>)>)
    requires
        g.wf(),
    ensures
        g.link_all(pairs).wf(),
        g.link_all(pairs).nodes == g.nodes,
        g.link_all(pairs).node_high_water == g.node_high_water,
        g.link_all(pairs).edge_high_water >= g.edge_high_water,
        g.link_all(pairs).edge_high_water <= g.edge_high_water + pairs.len(),
        g.link_all(pairs).is_left_right == g.is_left_right,
        g.link_all(pairs).current_node == g.current_node,
        g.link_all(pairs).current_search == g.current_search,
    decreases pairs.len(),
{
    if pairs.len() > 0 {
        lemma_link_all_wf(g, pairs.drop_last());
    }
}

/// The edges that are left when a node goes are edges of the graph, and none touches the node.
pub proof fn lemma_clear_members(edges: Seq<EdgeModel>, id: Seq<char>)
    ensures
        forall|k: int|
            0 <= k < edges_clear_of(edges, id).len() ==> edges.contains(
                #[trigger] edges_clear_of(edges, id)[k],
            ) && !edges_clear_of(edges, id)[k].touches(id),
    decreases edges.len(),
{
    if edges.len() > 0 {
        let rest = edges.drop_last();
        lemma_clear_members(rest, id);
        assert(edges_clear_of(edges, id) == if edges.last().touches(id) {
            edges_clear_of(rest, id)
        } else {
            edges_clear_of(rest, id).push(edges.last())
        });
    }
}

/// The edges that are left when a node goes keep their order.
pub proof fn lemma_clear_increasing(edges: Seq<EdgeModel>, id: Seq<char>)
    requires
        forall|i: int, j: int|
            0 <= i < j < edges.len() ==> (#[trigger] edges[i]).serial < (
            #[trigger] edges[j]).serial,
    ensures
        forall|a: int, b: int|
            0 <= a < b < edges_clear_of(edges, id).len() ==> (#[trigger] edges_clear_of(
                edges,
                id,
            )[a]).serial < (#[trigger] edges_clear_of(edges, id)[b]).serial,
    decreases edges.len(),
{
    if edges.len() > 0 {
        let rest = edges.drop_last();
        lemma_clear_increasing(rest, id);
        lemma_clear_members(rest, id);
        assert(edges_clear_of(edges, id) == if edges.last().touches(id) {
            edges_clear_of(rest, id)
        } else {
            edges_clear_of(rest, id).push(edges.last())
        });
    }
}

/// Deleting a node leaves a well-formed graph: the edges that are left touch
/// only nodes that are left.
pub proof fn lemma_without_node_wf(g: GraphModel, id: Seq<char>)
    requires
        g.wf(),
    ensures
        g.without_node(id).wf(),
        g.without_node(id).edge_high_water == g.edge_high_water,
        g.without_node(id).node_high_water == g.node_high_water,
        forall|x: Seq<char>| x != id && g.has_node(x) ==> g.without_node(id).has_node(x),
        !g.without_node(id).has_node(id),
{
    let h = g.without_node(id);
    lemma_node_position(g.nodes, id);
    lemma_ids_unique(g);
    if let Some(p) = node_position(g.nodes, id) {
        lemma_clear_members(g.edges, id);
        lemma_clear_increasing(g.edges, id);
        assert forall|x: Seq<char>| x != id && g.has_node(x) implies h.has_node(x) by {
            lemma_node_position(g.nodes, x);
            let q = node_position(g.nodes, x).unwrap();
            if q < p {
                lemma_has_node(h.nodes, x, q);
            } else {
                lemma_has_node(h.nodes, x, q - 1);
            }
        }
        assert(!h.has_node(id)) by {
            lemma_node_position(h.nodes, id);
        }
    }
}

/// Deleting a node leaves a well-formed graph.
pub proof fn lemma_delete_node_wf(g: GraphModel, id: Seq<char>, keep_edges: bool)
    requires
        g.wf(),
    ensures
        g.delete_node(id, keep_edges).wf(),
{
    lemma_without_node_wf(g, id);
    if g.has_node(id) && keep_edges {
        lemma_link_all_wf(
            g.without_node(id),
            cross(predecessors(g.edges, id), successors(g.edges, id)),
        );
    }
}

/// Whatever the command, it leaves a well-formed graph well-formed, and
/// neither high-water mark falls.
pub proof fn lemma_apply_wf(g: GraphModel, command: CommandModel)
    requires
        g.wf(),
    ensures
        g.apply(command).wf(),
        g.apply(command).node_high_water >= g.node_high_water,
        g.apply(command).edge_high_water >= g.edge_high_water,
{
    match command {
        CommandModel::DeleteNode { id, keep_edges } => {
            lemma_delete_node_wf(g, id, keep_edges);
            lemma_without_node_wf(g, id);
            if g.has_node(id) && keep_edges {
                lemma_link_all_wf(
                    g.without_node(id),
                    cross(predecessors(g.edges, id), successors(g.edges, id)),
                );
            }
        },
        CommandModel::ExpandEdge { id, label } => {
            lemma_expand_edge_wf(g, id, label);
        },
        CommandModel::InsertAfterNode { id, label } => {
            lemma_inject_after_node_wf(g, id, label);
        },
        CommandModel::InsertBeforeNode { id, label } => {
            lemma_inject_before_node_wf(g, id, label);
        },
        CommandModel::InsertNode { label } => {
            lemma_insert_node_wf(g, label);
        },
        CommandModel::LinkEdge { from, to } => {
            lemma_link_edge_wf(g, from, to);
        },
        CommandModel::RenameNode { id, label } => {
            lemma_rename_node_wf(g, id, label);
        },
        CommandModel::SelectNode { id } => {
            lemma_select_node_wf(g, id);
        },
        CommandModel::SetDirection { is_left_right } => {},
        CommandModel::UnlinkEdge { id } => {
            lemma_unlink_edge_wf(g, id);
        },
    }
}

/// After any sequence of commands on a well-formed graph, the graph is
/// well-formed, so no two of its nodes and no two of its edges share an
/// identifier, and neither high-water mark has fallen.
pub proof fn lemma_identifiers_stay_unique(g: GraphModel, commands: Seq<CommandModel>)
    requires
        g.wf(),
    ensures
        g.apply_all(commands).wf(),
        g.apply_all(commands).node_high_water >= g.node_high_water,
        g.apply_all(commands).edge_high_water >= g.edge_high_water,
        forall|i: int, j: int|
            0 <= i < g.apply_all(commands).nodes.len() && 0 <= j < g.apply_all(
                commands,
            ).nodes.len() && i != j ==> (#[trigger] g.apply_all(commands).nodes[i]).id() != (
            #[trigger] g.apply_all(commands).nodes[j]).id(),
        forall|i: int, j: int|
            0 <= i < g.apply_all(commands).edges.len() && 0 <= j < g.apply_all(
                commands,
            ).edges.len() && i != j ==> (#[trigger] g.apply_all(commands).edges[i]).id() != (
            #[trigger] g.apply_all(commands).edges[j]).id(),
    decreases commands.len(),
{
    if commands.len() > 0 {
        lemma_identifiers_stay_unique(g, commands.drop_last());
        lemma_apply_wf(g.apply_all(commands.drop_last()), commands.last());
    }
    lemma_ids_unique(g.apply_all(commands));
}

/// Every edge that does not touch the node is left when the node goes.
pub proof fn lemma_clear_complete(edges: Seq<EdgeModel>, id: Seq<char>)
    ensures
        forall|m: int|
            0 <= m < edges.len() && !(#[trigger] edges[m]).touches(id) ==> edges_clear_of(
                edges,
                id,
            ).contains(edges[m]),
    decreases edges.len(),
{
    if edges.len() > 0 {
        let rest = edges.drop_last();
        lemma_clear_complete(rest, id);
        let c = edges_clear_of(edges, id);
        let cr = edges_clear_of(rest, id);
        assert forall|m: int| 0 <= m < edges.len() && !(#[trigger] edges[m]).touches(
            id,
        ) implies c.contains(edges[m]) by {
            if m < rest.len() {
                let k = choose|k: int| 0 <= k < cr.len() && cr[k] == rest[m];
                assert(c[k] == edges[m]);
            } else {
                assert(c[c.len() - 1] == edges[m]);
            }
        }
    }
}

/// What is in a sorted sequence after a text was put in was there before, or is that text.
pub proof fn lemma_insert_sorted_members(s: Seq<Seq<char>>, x: Seq<char>)
    ensures
        forall|k: int|
            0 <= k < insert_sorted(s, x).len() ==> (#[trigger] insert_sorted(s, x)[k]) == x
                || s.contains(insert_sorted(s, x)[k]),
    decreases s.len(),
{
    if s.len() > 0 && s.last() != x && !text_lt(s.last(), x) {
        lemma_insert_sorted_members(s.drop_last(), x);
        assert(insert_sorted(s, x) == insert_sorted(s.drop_last(), x).push(s.last()));
    }
}

/// Sorting adds no text.
pub proof fn lemma_sorted_members(s: Seq<Seq<char>>)
    ensures
        forall|k: int|
            0 <= k < sorted_texts(s).len() ==> s.contains(#[trigger] sorted_texts(s)[k]),
    decreases s.len(),
{
    if s.len() > 0 {
        lemma_sorted_members(s.drop_last());
        let inner = sorted_texts(s.drop_last());
        lemma_insert_sorted_members(inner, s.last());
    }
}

/// A predecessor of a node is another node of the graph, and so is a successor.
pub proof fn lemma_neighbours_are_nodes(g: GraphModel, id: Seq<char>)
    requires
        g.wf(),
    ensures
        forall|k: int|
            0 <= k < predecessors(g.edges, id).len() ==> (#[trigger] predecessors(
                g.edges,
                id,
            )[k]) != id && g.has_node(predecessors(g.edges, id)[k]),
        forall|k: int|
            0 <= k < successors(g.edges, id).len() ==> (#[trigger] successors(g.edges, id)[k])
                != id && g.has_node(successors(g.edges, id)[k]),
{
    lemma_ends(g, id, g.edges.len() as int);
    assert(g.edges.take(g.edges.len() as int) == g.edges);
    lemma_sorted_members(incoming_ends(g.edges, id));
    lemma_sorted_members(outgoing_ends(g.edges, id));
}

proof fn lemma_ends(g: GraphModel, id: Seq<char>, n: int)
    requires
        g.wf(),
        0 <= n <= g.edges.len(),
    ensures
        forall|m: int|
            0 <= m < incoming_ends(g.edges.take(n), id).len() ==> (#[trigger] incoming_ends(
                g.edges.take(n),
                id,
            )[m]) != id && g.has_node(incoming_ends(g.edges.take(n), id)[m]),
        forall|m: int|
            0 <= m < outgoing_ends(g.edges.take(n), id).len() ==> (#[trigger] outgoing_ends(
                g.edges.take(n),
                id,
            )[m]) != id && g.has_node(outgoing_ends(g.edges.take(n), id)[m]),
    decreases n,
{
    if n > 0 {
        lemma_ends(g, id, n - 1);
        let edge = g.edges[n - 1];
        assert(g.edges.take(n).drop_last() == g.edges.take(n - 1));
        assert(incoming_ends(g.edges.take(n), id) == if edge.to == id && edge.from != id {
            incoming_ends(g.edges.take(n - 1), id).push(edge.from)
        } else {
            incoming_ends(g.edges.take(n - 1), id)
        });
        assert(outgoing_ends(g.edges.take(n), id) == if edge.from == id && edge.to != id {
            outgoing_ends(g.edges.take(n - 1), id).push(edge.to)
        } else {
            outgoing_ends(g.edges.take(n - 1), id)
        });
    }
}

/// Each pair of a cross product joins one of the first texts with one of the second.
pub proof fn lemma_cross_members(fs: Seq<Seq<char>>, ts: Seq<Seq<char>>)
    ensures
        forall|k: int|
            0 <= k < cross(fs, ts).len() ==> fs.contains((#[trigger] cross(fs, ts)[k]).0)
                && ts.contains(cross(fs, ts)[k].1),
    decreases fs.len(),
{
    if fs.len() > 0 {
        lemma_cross_members(fs.drop_last(), ts);
        assert(cross(fs, ts) == cross(fs.drop_last(), ts) + pairs_from(fs.last(), ts));
    }
}

/// Linking pairs of nodes that the graph has adds one edge for each pair,
/// in the order of the pairs, with the next sequence numbers.
pub proof fn lemma_link_all_adds(g: GraphModel, pairs: Seq<(Seq<char>, Seq<char>)>)
    requires
        g.wf(),
        forall|k: int|
            0 <= k < pairs.len() ==> g.has_node((#[trigger] pairs[k]).0) && g.has_node(
                pairs[k].1,
            ),
    ensures
        g.link_all(pairs).edges == g.edges + Seq::new(
            pairs.len(),
            |k: int|
                EdgeModel {
                    serial: (g.edge_high_water + k) as nat,
                    from: pairs[k].0,
                    to: pairs[k].1,
                },
        ),
        g.link_all(pairs).edge_high_water == g.edge_high_water + pairs.len(),
        g.link_all(pairs).nodes == g.nodes,
    decreases pairs.len(),
{
    if pairs.len() > 0 {
        let rest = pairs.drop_last();
        lemma_link_all_adds(g, rest);
    }
}

/// Deleting a node removes the edges that touch it and no others: an edge
/// of the graph is left if and only if it does not touch the node, and the
/// edges that are left keep their order. With `keep_edges`, an edge is then
/// added for each pair of a predecessor and a successor of the node: as
/// many as the product of their numbers says, with new identifiers. Without
/// it, no edge is added.
pub proof fn lemma_delete_cascades(g: GraphModel, id: Seq<char>, keep_edges: bool)
    requires
        g.wf(),
        g.has_node(id),
    ensures
        !g.delete_node(id, keep_edges).has_node(id),
        g.delete_node(id, keep_edges).nodes.len() == g.nodes.len() - 1,
        forall|m: int|
            0 <= m < g.edges.len() ==> (edges_clear_of(g.edges, id).contains(
                #[trigger] g.edges[m],
            ) <==> !g.edges[m].touches(id)),
        g.delete_node(id, keep_edges).edges == edges_clear_of(g.edges, id) + Seq::new(
            if keep_edges {
                predecessors(g.edges, id).len() * successors(g.edges, id).len()
            } else {
                0
            },
            |k: int|
                EdgeModel {
                    serial: (g.edge_high_water + k) as nat,
                    from: cross(predecessors(g.edges, id), successors(g.edges, id))[k].0,
                    to: cross(predecessors(g.edges, id), successors(g.edges, id))[k].1,
                },
        ),
        g.delete_node(id, keep_edges).edge_high_water == g.edge_high_water + if keep_edges {
            predecessors(g.edges, id).len() * successors(g.edges, id).len()
        } else {
            0
        },
{
    let base = g.without_node(id);
    lemma_without_node_wf(g, id);
    lemma_node_position(g.nodes, id);
    lemma_clear_complete(g.edges, id);
    let ps = predecessors(g.edges, id);
    let ss = successors(g.edges, id);
    let pairs = cross(ps, ss);
    if keep_edges {
        lemma_neighbours_are_nodes(g, id);
        lemma_cross_members(ps, ss);
        lemma_cross_len(ps, ss);
        lemma_link_all_adds(base, pairs);
    }
}

/// Each text comes before the next.
pub open spec fn strictly_sorted(s: Seq<Seq<char>>) -> bool {
    forall|i: int, j: int| 0 <= i < j < s.len() ==> text_lt(#[trigger] s[i], #[trigger] s[j])
}

/// Putting a text in its place in a sorted sequence leaves the sequence
/// sorted; the text is in it then, and so is all that was in it.
pub proof fn lemma_insert_sorted_sorted(s: Seq<Seq<char>>, x: Seq<char>)
    requires
        strictly_sorted(s),
    ensures
        strictly_sorted(insert_sorted(s, x)),
        insert_sorted(s, x).contains(x),
        forall|k: int| 0 <= k < s.len() ==> insert_sorted(s, x).contains(#[trigger] s[k]),
        forall|k: int|
            0 <= k < insert_sorted(s, x).len() ==> (#[trigger] insert_sorted(s, x)[k]) == x
                || s.contains(insert_sorted(s, x)[k]),
    decreases s.len(),
{
    let r = insert_sorted(s, x);
    if s.len() == 0 {
        assert(r[0] == x);
    } else if s.last() == x {
    } else if text_lt(s.last(), x) {
        assert(r[s.len() as int] == x);
        assert forall|k: int| 0 <= k < s.len() implies r.contains(#[trigger] s[k]) by {}
        assert forall|i: int, j: int| 0 <= i < j < r.len() implies text_lt(
            #[trigger] r[i],
            #[trigger] r[j],
        ) by {
            if j < s.len() {
            } else if i < s.len() - 1 {
                lemma_text_lt_transitive(s[i], s.last(), x);
            }
        }
    } else {
        let rest = s.drop_last();
        lemma_insert_sorted_sorted(rest, x);
        let inner = insert_sorted(rest, x);
        lemma_text_lt_total(s.last(), x);
        let m = choose|m: int| 0 <= m < inner.len() && inner[m] == x;
        assert(r[m] == x);
        assert forall|k: int| 0 <= k < s.len() implies r.contains(#[trigger] s[k]) by {
            if k < rest.len() {
                let n = choose|n: int| 0 <= n < inner.len() && inner[n] == rest[k];
                assert(r[n] == s[k]);
            } else {
                assert(r[inner.len() as int] == s[k]);
            }
        }
    }
}

/// What `sorted_texts` gives is sorted, each text once, and holds the texts
/// it was given and no others.
pub proof fn lemma_sorted_texts(s: Seq<Seq<char>>)
    ensures
        strictly_sorted(sorted_texts(s)),
        forall|k: int| 0 <= k < s.len() ==> sorted_texts(s).contains(#[trigger] s[k]),
        forall|k: int|
            0 <= k < sorted_texts(s).len() ==> s.contains(#[trigger] sorted_texts(s)[k]),
    decreases s.len(),
{
    if s.len() > 0 {
        let rest = s.drop_last();
        lemma_sorted_texts(rest);
        let inner = sorted_texts(rest);
        lemma_insert_sorted_sorted(inner, s.last());
        let r = sorted_texts(s);
        assert forall|k: int| 0 <= k < s.len() implies r.contains(#[trigger] s[k]) by {
            if k < rest.len() {
                assert(inner.contains(rest[k]));
            }
        }
    }
}

/// A sorted sequence holds no text twice.
pub proof fn lemma_sorted_is_distinct(s: Seq<Seq<char>>)
    requires
        strictly_sorted(s),
    ensures
        forall|i: int, j: int|
            0 <= i < s.len() && 0 <= j < s.len() && i != j ==> (#[trigger] s[i]) != (
            #[trigger] s[j]),
{
    assert forall|i: int, j: int| 0 <= i < s.len() && 0 <= j < s.len() && i != j implies (
    #[trigger] s[i]) != (#[trigger] s[j]) by {
        if i < j {
            crate::text::lemma_text_lt_irreflexive(s[i]);
        } else {
            crate::text::lemma_text_lt_irreflexive(s[j]);
        }
    }
}

/// A command that names a node or an edge that the graph does not have
/// changes nothing.
pub proof fn lemma_missing_changes_nothing(g: GraphModel, command: CommandModel)
    ensures
        match command {
            CommandModel::DeleteNode { id, keep_edges } => !g.has_node(id) ==> g.apply(command)
                == g,
            CommandModel::ExpandEdge { id, label } => !g.has_edge(id) ==> g.apply(command) == g,
            CommandModel::InsertAfterNode { id, label } => !g.has_node(id) ==> g.apply(command)
                == g,
            CommandModel::InsertBeforeNode { id, label } => !g.has_node(id) ==> g.apply(command)
                == g,
            CommandModel::LinkEdge { from, to } => !g.has_node(from) || !g.has_node(to)
                ==> g.apply(command) == g,
            CommandModel::RenameNode { id, label } => !g.has_node(id) ==> g.apply(command) == g,
            CommandModel::SelectNode { id } => !g.has_node(id) ==> g.apply(command) == g,
            CommandModel::UnlinkEdge { id } => !g.has_edge(id) ==> g.apply(command) == g,
            _ => true,
        },
{
}

} // verus!
