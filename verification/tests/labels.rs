use microdot_core::graph::Graph;
use microdot_core::hash::HashTag;
use microdot_core::labels::NodeInfo;
use microdot_core::number::Floats;
use microdot_core::time::Time;
use microdot_core::util::generate_hash;
use microdot_core::value::VariableValue;
use microdot_core::variable::Variable;
use microdot_core::{Id, Label};
use std::collections::hash_map::DefaultHasher;
use std::hash::{Hash, Hasher};

struct Ieee;

impl Floats for Ieee {
    fn parse(&self, text: &str) -> Option<u64> {
        text.parse::<f64>().ok().map(f64::to_bits)
    }

    fn sum(&self, a: u64, b: u64) -> u64 {
        (f64::from_bits(a) + f64::from_bits(b)).to_bits()
    }

    fn show(&self, bits: u64) -> String {
        f64::from_bits(bits).to_string()
    }
}

#[test]
fn it_matches_variables() {
    let variables = vec![
        (
            "$name=John",
            Variable::new("name", VariableValue::string("John")),
        ),
        (
            "$age=25",
            Variable::new("age", VariableValue::number(25.0f64.to_bits())),
        ),
        (
            "$is_cool=true",
            Variable::new("is_cool", VariableValue::boolean(true)),
        ),
        (
            "$delay=4d",
            Variable::new("delay", VariableValue::time(Time::Day(4))),
        ),
        (
            "$delay=4m",
            Variable::new("delay", VariableValue::time(Time::Minute(4))),
        ),
        (
            "$delay=4M",
            Variable::new("delay", VariableValue::time(Time::Month(4))),
        ),
        (
            "$delay=4y",
            Variable::new("delay", VariableValue::time(Time::Year(4))),
        ),
    ];

    for (input, expected) in variables {
        let actual = Variable::parse(input, &Ieee)
            .unwrap_or_else(|| panic!("could not parse variable: {}", input));
        assert_eq!(actual, expected);
    }
}

#[test]
fn it_parses_node_label_with_no_markup() {
    let actual = NodeInfo::parse(&Label::new("no hashtags"), &Ieee);
    let expected = NodeInfo {
        label: "no hashtags".to_string(),
        tags: Vec::new(),
        variables: Vec::new(),
        subgraph: None,
    };
    assert_eq!(actual, expected);
}

#[test]
fn it_parses_node_label_with_inner_hashtag() {
    let actual = NodeInfo::parse(&Label::new("a #hashtag in the middle"), &Ieee);
    let expected = NodeInfo {
        label: "a #hashtag in the middle".to_string(),
        tags: vec![HashTag::new("#hashtag")],
        variables: Vec::new(),
        subgraph: None,
    };
    assert_eq!(actual, expected);
}

#[test]
fn it_parses_node_label_with_end_hashtag() {
    let actual = NodeInfo::parse(&Label::new("a #hashtag at the #end"), &Ieee);
    let expected = NodeInfo {
        label: "a #hashtag at the".to_string(),
        tags: vec![HashTag::new("#end"), HashTag::new("#hashtag")],
        variables: Vec::new(),
        subgraph: None,
    };
    assert_eq!(actual, expected);
}

#[test]
fn it_parses_node_label_with_end_subgraph() {
    let actual = NodeInfo::parse(
        &Label::new("a #hashtag in the middle and a #SG_SUBGRAPH"),
        &Ieee,
    );
    let expected = NodeInfo {
        label: "a #hashtag in the middle and a".to_string(),
        tags: vec![HashTag::new("#hashtag")],
        variables: Vec::new(),
        subgraph: Some(HashTag::new("#SG_SUBGRAPH")),
    };
    assert_eq!(actual, expected);
}

#[test]
fn it_parses_node_label_with_boolean_variable() {
    let actual = NodeInfo::parse(&Label::new("positive choice $choice=true"), &Ieee);
    let expected = NodeInfo {
        label: "positive choice".to_string(),
        tags: vec![],
        variables: vec![Variable::boolean("choice", true)],
        subgraph: None,
    };
    assert_eq!(actual, expected);
}

#[test]
fn trailing_hashtags_go_however_many() {
    let info = NodeInfo::parse(&Label::new("  ship it #now #urgent  #SG_ops "), &Ieee);
    assert_eq!(info.label, "ship it");
    assert_eq!(info.tags, vec![HashTag::new("#now"), HashTag::new("#urgent")]);
    assert_eq!(info.subgraph, Some(HashTag::new("#SG_ops")));
}

#[test]
fn variables_go_before_trailing_hashtags_are_trimmed() {
    let info = NodeInfo::parse(&Label::new("text #tag $x=1"), &Ieee);
    assert_eq!(info.label, "text");
    assert_eq!(info.tags, vec![HashTag::new("#tag")]);
    assert_eq!(
        info.variables,
        vec![Variable::new("x", VariableValue::number(1.0f64.to_bits()))]
    );
}

#[test]
fn equal_variables_collapse_and_different_values_stay() {
    let info = NodeInfo::parse(&Label::new("n $x=1 $x=1.0 $x=2 $y=a $y=a"), &Ieee);
    assert_eq!(
        info.variables,
        vec![
            Variable::new("x", VariableValue::number(1.0f64.to_bits())),
            Variable::new("x", VariableValue::number(2.0f64.to_bits())),
            Variable::new("y", VariableValue::string("a")),
        ]
    );
    assert_eq!(info.label, "n");
    assert_eq!(
        info.value_of("x"),
        Some(VariableValue::number(1.0f64.to_bits()))
    );
    assert_eq!(info.value_of("z"), None);
}

#[test]
fn the_smallest_subgraph_tag_is_taken() {
    let info = NodeInfo::parse(&Label::new("x #SG_b #SG_a #t"), &Ieee);
    assert_eq!(info.subgraph, Some(HashTag::new("#SG_a")));
    assert_eq!(info.tags, vec![HashTag::new("#t")]);
    assert_eq!(info.label, "x");
}

#[test]
fn what_is_no_hashtag_or_variable_stays_text() {
    let info = NodeInfo::parse(&Label::new("cost $ 5 # 1 #2 $=3 $a= b"), &Ieee);
    assert_eq!(info.label, "cost $ 5 # 1 #2 $=3 $a= b");
    assert!(info.tags.is_empty());
    assert!(info.variables.is_empty());
    assert_eq!(info.subgraph, None);
}

#[test]
fn a_hashtag_inside_a_value_is_a_tag_and_a_value() {
    let info = NodeInfo::parse(&Label::new("a $x=#foo"), &Ieee);
    assert_eq!(info.tags, vec![HashTag::new("#foo")]);
    assert_eq!(
        info.variables,
        vec![Variable::new("x", VariableValue::string("#foo"))]
    );
    assert_eq!(info.label, "a");
}

#[test]
fn parsing_the_shown_text_again_finds_nothing_new() {
    let labels = [
        "a #hashtag at the #end",
        "x $a=1 #t $b=2 y #u #v",
        "  #a$x=1 #b  ",
        "keep #mid dle $v=#w #SG_q",
    ];
    for label in labels {
        let first = NodeInfo::parse(&Label::new(label), &Ieee);
        let second = NodeInfo::parse(&Label::new(&first.label), &Ieee);
        assert!(second.variables.is_empty(), "{}", label);
        assert_eq!(second.label, first.label, "{}", label);
        for tag in &second.tags {
            assert!(first.tags.contains(tag), "{}", label);
        }
        if let Some(tag) = &second.subgraph {
            assert_eq!(first.subgraph.as_ref(), Some(tag), "{}", label);
        }
    }
}

#[test]
fn values_are_read_from_the_label_of_a_node() {
    let mut graph = Graph::new();
    let (a, _) = graph.insert_node(Label::new("build $cost=4d $done=false"));
    assert_eq!(
        graph.find_node_variable_value(&a, "cost", &Ieee),
        Some(VariableValue::time(Time::Day(4)))
    );
    assert_eq!(
        graph.find_node_variable_value(&a, "done", &Ieee),
        Some(VariableValue::boolean(false))
    );
    assert_eq!(graph.find_node_variable_value(&a, "other", &Ieee), None);
    assert_eq!(
        graph.find_node_variable_value(&Id::new("n9"), "cost", &Ieee),
        None
    );
    assert_eq!(graph.find_node_label(&a), Some(Label::new("build $cost=4d $done=false")));
    assert_eq!(graph.find_node_label(&Id::new("n9")), None);
}

#[test]
fn hashes_are_those_of_the_standard_hasher() {
    let mut s = DefaultHasher::new();
    "#urgent".hash(&mut s);
    assert_eq!(generate_hash("#urgent"), s.finish() as usize);
    assert_eq!(HashTag::new("#urgent").hash(), generate_hash("#urgent"));
    assert_ne!(generate_hash("#a"), generate_hash("#b"));
}

#[test]
fn the_written_values_are_listed_for_the_caller() {
    let texts = NodeInfo::variable_texts(&Label::new("a $x=1 b $y=true"));
    assert_eq!(texts, vec!["1".to_string(), "true".to_string()]);
    let info = NodeInfo::parse_with(&Label::new("a $x=1 b $y=true"), &vec![None, None]);
    assert_eq!(
        info.variables,
        vec![
            Variable::new("x", VariableValue::string("1")),
            Variable::boolean("y", true),
        ]
    );
}
