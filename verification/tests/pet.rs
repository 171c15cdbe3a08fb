use microdot_core::graph::{Graph, Node};
use microdot_core::number::Floats;
use microdot_core::pet::{
    candidate_paths, find_cost, find_longest_path, find_shortest_path, CostCalculator,
    GetVariableValue,
};
use microdot_core::time::Time;
use microdot_core::value::VariableValue;
use microdot_core::Label;

struct Ieee;

impl Floats for Ieee {
    fn parse(&self, text: &str) -> Option<u64> {
        text.parse::<f64>().ok().map(f64::to_bits)
    }

    fn sum(&self, a: u64, b: u64) -> u64 {
        (f64::from_bits(a) + f64::from_bits(b)).to_bits()
    }

    fn show(&self, bits: u64) -> String {
        f64::from_bits(bits).to_string()
    }
}

fn number(value: f64) -> VariableValue {
    VariableValue::number(value.to_bits())
}

struct Uniform;

impl GetVariableValue<Node> for Uniform {
    fn get_weight(&self, _node: &Node) -> Option<VariableValue> {
        Some(number(1.0))
    }
}

struct SlowIsExpensive;

impl GetVariableValue<Node> for SlowIsExpensive {
    fn get_weight(&self, node: &Node) -> Option<VariableValue> {
        if node.label().as_str() == "slow1" {
            Some(number(-10.0))
        } else {
            Some(number(-1.0))
        }
    }
}

#[test]
fn shortest_path_can_be_found() {
    let mut graph = Graph::new();
    let a = graph.insert_node(Label::new("A")).0;
    let b = graph.insert_node(Label::new("B")).0;
    let c = graph.insert_node(Label::new("C")).0;
    graph.link_edge(&a, &b);
    graph.link_edge(&b, &c);

    let path = find_shortest_path(&graph, &Uniform, &Ieee);
    assert_eq!(path.ids, vec![a, b, c]);
    assert_eq!(path.cost, Some(number(3.0)));
}

#[test]
fn shortest_path_can_be_found_with_expensive_node() {
    let mut graph = Graph::new();
    // create a graph with a quick path and a slow path -- the quick path has
    // more nodes in it, but the slow path is more expensive.
    let q1 = graph.insert_node(Label::new("quick1")).0;
    let s1 = graph.insert_node(Label::new("slow1")).0;
    let q2 = graph.insert_node(Label::new("quick2")).0;
    let q3 = graph.insert_node(Label::new("quick3")).0;
    let q4 = graph.insert_node(Label::new("quick4")).0;

    // slow path q1 -> s1 -> q4
    graph.link_edge(&q1, &s1);
    graph.link_edge(&s1, &q4);

    // fast path q1 -> q2 -> q3 -> q4
    graph.link_edge(&q1, &q2);
    graph.link_edge(&q2, &q3);
    graph.link_edge(&q3, &q4);

    // we're finding the _longest_ path by using a negative weight function
    let path = find_shortest_path(&graph, &SlowIsExpensive, &Ieee);
    assert_eq!(path.ids, vec![q1, s1, q4]);
    assert_eq!(path.cost, Some(number(-12.0)));
}

#[test]
fn shortest_and_longest_paths_can_be_found_via_a_variable() {
    let mut graph = Graph::new();
    let q1 = graph.insert_node(Label::new("quick1 $cost=10m")).0;
    let s1 = graph.insert_node(Label::new("slow1 $cost=1d")).0;
    let q2 = graph.insert_node(Label::new("quick2 $cost=10m")).0;
    let q3 = graph.insert_node(Label::new("quick3 $cost=10m")).0;
    let q4 = graph.insert_node(Label::new("quick4 $cost=10m")).0;

    // slow path q1 -> s1 -> q4
    graph.link_edge(&q1, &s1);
    graph.link_edge(&s1, &q4);

    // fast path q1 -> q2 -> q3 -> q4
    graph.link_edge(&q1, &q2);
    graph.link_edge(&q2, &q3);
    graph.link_edge(&q3, &q4);

    let longest_path = find_longest_path(&graph, &CostCalculator::new("cost", Ieee), &Ieee);
    assert_eq!(longest_path.ids, vec![q1.clone(), s1, q4.clone()]);
    assert_eq!(
        longest_path.cost,
        Some(VariableValue::time(Time::Minute(500)))
    );

    let shortest_path = find_shortest_path(&graph, &CostCalculator::new("cost", Ieee), &Ieee);
    assert_eq!(shortest_path.ids, vec![q1, q2, q3, q4]);
    assert_eq!(
        shortest_path.cost,
        Some(VariableValue::time(Time::Minute(40)))
    );
}

#[test]
fn shortest_and_longest_paths_based_on_length_if_no_variables() {
    let mut graph = Graph::new();
    // create a graph with a short path (q1 -> q4) and a long path (q1 -> q2 -> q3 -> q4)
    let q1 = graph.insert_node(Label::new("q1")).0;
    let q2 = graph.insert_node(Label::new("q2")).0;
    let q3 = graph.insert_node(Label::new("q3")).0;
    let q4 = graph.insert_node(Label::new("q4")).0;

    // short path q1 -> q4
    graph.link_edge(&q1, &q4);

    // long path q1 -> q2 -> q3 -> q4
    graph.link_edge(&q1, &q2);
    graph.link_edge(&q2, &q3);
    graph.link_edge(&q3, &q4);

    let shortest = find_shortest_path(&graph, &CostCalculator::new("cost", Ieee), &Ieee);
    assert_eq!(shortest.ids, vec![q1.clone(), q4.clone()]);
    assert_eq!(shortest.cost, None);

    let longest = find_longest_path(&graph, &CostCalculator::new("cost", Ieee), &Ieee);
    assert_eq!(longest.ids, vec![q1, q2, q3, q4]);
    assert_eq!(longest.cost, None);
}

#[test]
fn handles_empty_cost_nodes_gracefully() {
    let mut graph = Graph::new();
    // create a graph with some nodes that don't have costs
    // this is 20m explicit and some unknown value for the others
    let q1 = graph.insert_node(Label::new("quick1")).0;
    let q2 = graph.insert_node(Label::new("quick2 $cost=10m")).0;
    let q3 = graph.insert_node(Label::new("quick3")).0;
    let q4 = graph.insert_node(Label::new("quick4 $cost=10m")).0;

    // only path q1 -> q2 -> q3 -> q4
    graph.link_edge(&q1, &q2);
    graph.link_edge(&q2, &q3);
    graph.link_edge(&q3, &q4);

    let shortest_path = find_shortest_path(&graph, &CostCalculator::new("cost", Ieee), &Ieee);
    assert_eq!(shortest_path.ids, vec![q1, q2, q3, q4]);
    assert_eq!(
        shortest_path.cost,
        Some(VariableValue::time(Time::Minute(20)))
    );
}

#[test]
fn longest_semantics_prefer_the_most_negative_sum() {
    let mut graph = Graph::new();
    let q1 = graph.insert_node(Label::new("quick1")).0;
    let s1 = graph.insert_node(Label::new("slow1")).0;
    let q2 = graph.insert_node(Label::new("quick2")).0;
    let q3 = graph.insert_node(Label::new("quick3")).0;
    let q4 = graph.insert_node(Label::new("quick4")).0;
    graph.link_edge(&q1, &s1);
    graph.link_edge(&s1, &q4);
    graph.link_edge(&q1, &q2);
    graph.link_edge(&q2, &q3);
    graph.link_edge(&q3, &q4);
    let longest = find_longest_path(&graph, &SlowIsExpensive, &Ieee);
    assert_eq!(longest.ids, vec![q1, q2, q3, q4]);
    assert_eq!(longest.cost, Some(number(-4.0)));
}

#[test]
fn a_graph_without_edges_has_no_path() {
    let mut graph = Graph::new();
    let shortest = find_shortest_path(&graph, &Uniform, &Ieee);
    assert!(shortest.ids.is_empty());
    assert_eq!(shortest.cost, None);
    graph.insert_node(Label::new("alone"));
    graph.insert_node(Label::new("apart"));
    let shortest = find_shortest_path(&graph, &Uniform, &Ieee);
    assert!(shortest.ids.is_empty());
    assert_eq!(shortest.cost, None);
    let longest = find_longest_path(&graph, &Uniform, &Ieee);
    assert!(longest.ids.is_empty());
    assert_eq!(longest.cost, None);
    assert!(candidate_paths(&graph).is_empty());
}

struct NanAt(&'static str);

impl GetVariableValue<Node> for NanAt {
    fn get_weight(&self, node: &Node) -> Option<VariableValue> {
        if node.label().as_str() == self.0 {
            Some(number(f64::NAN))
        } else {
            Some(number(1.0))
        }
    }
}

#[test]
fn a_cost_that_is_not_a_number_ranks_last() {
    let mut graph = Graph::new();
    let a = graph.insert_node(Label::new("a")).0;
    let b = graph.insert_node(Label::new("b")).0;
    let c = graph.insert_node(Label::new("c")).0;
    let d = graph.insert_node(Label::new("d")).0;
    graph.link_edge(&a, &b);
    graph.link_edge(&b, &d);
    graph.link_edge(&a, &c);
    graph.link_edge(&c, &d);
    let shortest = find_shortest_path(&graph, &NanAt("b"), &Ieee);
    assert_eq!(shortest.ids, vec![a.clone(), c.clone(), d.clone()]);
    let longest = find_longest_path(&graph, &NanAt("b"), &Ieee);
    assert_eq!(longest.ids, vec![a.clone(), c.clone(), d.clone()]);
    let other = find_shortest_path(&graph, &NanAt("c"), &Ieee);
    assert_eq!(other.ids, vec![a, b, d]);
}

#[test]
fn paths_are_enumerated_from_every_source_to_every_sink() {
    let mut graph = Graph::new();
    let a = graph.insert_node(Label::new("a")).0;
    let b = graph.insert_node(Label::new("b")).0;
    let c = graph.insert_node(Label::new("c")).0;
    let d = graph.insert_node(Label::new("d")).0;
    graph.link_edge(&a, &c);
    graph.link_edge(&b, &c);
    graph.link_edge(&c, &d);
    graph.link_edge(&a, &d);
    assert_eq!(graph.sources(), vec![a.clone(), b.clone()]);
    assert_eq!(graph.sinks(), vec![d.clone()]);
    let paths = candidate_paths(&graph);
    assert_eq!(paths, vec![vec![0, 3], vec![0, 2, 3], vec![1, 2, 3]]);
}

#[test]
fn the_cost_of_all_nodes_is_summed_in_the_order_of_identifiers() {
    let mut graph = Graph::new();
    for i in 0..11 {
        graph.insert_node(Label::new(&format!("node $w=s{},", i)));
    }
    let total = find_cost(&graph, &CostCalculator::new("w", Ieee), &Ieee);
    assert_eq!(
        total,
        VariableValue::string("s0,s1,s10,s2,s3,s4,s5,s6,s7,s8,s9,")
    );
    let none = find_cost(&graph, &CostCalculator::new("other", Ieee), &Ieee);
    assert_eq!(none, VariableValue::zero());
    let numbers = find_cost(&graph, &Uniform, &Ieee);
    assert_eq!(numbers, number(11.0));
}
