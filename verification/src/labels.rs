//! What a label says besides its text: its hashtags, the subgraph it names,
//! and its variables.
use crate::graph::Graph;
use crate::hash::HashTag;
use crate::names::{Id, Label};
use crate::number::Floats;
use crate::scan::{
    display_text, hashtags_from, raw_pairs, scan_hashtags, scan_variables, strip_trailing_tags,
    variables_from,
};
use crate::text::{insert_text, same_text, sorted_texts, string_of, texts};
use crate::value::{infer_with, is_number_of, value_view, ValueModel, VariableValue};
use crate::variable::{variables_equal, Variable, VariableModel};
use vstd::prelude::*;
use vstd::string::StringExecFns;

verus! {

/// What a label holds.
#[derive(Debug, PartialEq)]
pub struct NodeInfo {
    /// The text to show: the label without its variables and without the
    /// hashtags at its end.
    pub label: String,
    /// The hashtags of the label, sorted, each once, but for those that name a subgraph.
    pub tags: Vec<HashTag>,
    /// The variables of the label in the order in which they occur, equal
    /// ones once. Two variables of one name with different values both stay.
    pub variables: Vec<Variable>,
    /// The subgraph that the label names, if it names one: the hashtag that
    /// starts with `#SG_`, and of several the first in the order of the dictionary.
    pub subgraph: Option<HashTag>,
}

/// What a label holds, as specifications see it.
#[verifier::ext_equal]
pub struct NodeInfoModel {
    pub label: Seq<char>,
    pub tags: Seq<Seq<char>>,
    pub variables: Seq<VariableModel>,
    pub subgraph: Option<Seq<char>>,
}

/// The texts of a vector of hashtags.
pub open spec fn tag_texts(v: Seq<HashTag>) -> Seq<Seq<char>> {
    v.map_values(|t: HashTag| t@)
}

/// The variables of a vector as specifications see them.
pub open spec fn variable_models(v: Seq<Variable>) -> Seq<VariableModel> {
    v.map_values(|x: Variable| x@)
}

/// The text of a hashtag that may be missing.
pub open spec fn text_of_tag(t: Option<HashTag>) -> Option<Seq<char>> {
    match t {
        Some(x) => Some(x@),
        None => None,
    }
}

impl View for NodeInfo {
    type V = NodeInfoModel;

    open spec fn view(&self) -> NodeInfoModel {
        NodeInfoModel {
            label: self.label@,
            tags: tag_texts(self.tags@),
            variables: variable_models(self.variables@),
            subgraph: text_of_tag(self.subgraph),
        }
    }
}

/// A hashtag names a subgraph when it starts with `#SG_`.
pub open spec fn is_subgraph_tag(t: Seq<char>) -> bool {
    t.len() >= 4 && t[0] == '#' && t[1] == 'S' && t[2] == 'G' && t[3] == '_'
}

/// The hashtags of `tags` that name no subgraph, in their order.
pub open spec fn plain_tags(tags: Seq<Seq<char>>) -> Seq<Seq<char>>
    decreases tags.len(),
{
    if tags.len() == 0 {
        Seq::empty()
    } else if is_subgraph_tag(tags.last()) {
        plain_tags(tags.drop_last())
    } else {
        plain_tags(tags.drop_last()).push(tags.last())
    }
}

/// The first hashtag of `tags` that names a subgraph.
pub open spec fn first_subgraph(tags: Seq<Seq<char>>) -> Option<Seq<char>>
    decreases tags.len(),
{
    if tags.len() == 0 {
        None
    } else {
        match first_subgraph(tags.drop_last()) {
            Some(t) => Some(t),
            None => if is_subgraph_tag(tags.last()) {
                Some(tags.last())
            } else {
                None
            },
        }
    }
}

/// The variables `raw` with their values read, where `numbers` holds for
/// each the number that its value writes, if it writes one.
pub open spec fn typed(raw: Seq<(Seq<char>, Seq<char>)>, numbers: Seq<Option<u64>>) -> Seq<
    VariableModel,
> {
    Seq::new(
        raw.len(),
        |i: int| VariableModel { name: raw[i].0, value: infer_with(raw[i].1, numbers[i]) },
    )
}

/// Whether `vs` holds a variable equal to `v`.
pub open spec fn has_equal(vs: Seq<VariableModel>, v: VariableModel) -> bool {
    exists|i: int| 0 <= i < vs.len() && variables_equal(#[trigger] vs[i], v)
}

/// The variables of `vs` in their order, without those that equal an earlier one.
pub open spec fn distinct(vs: Seq<VariableModel>) -> Seq<VariableModel>
    decreases vs.len(),
{
    if vs.len() == 0 {
        Seq::empty()
    } else if has_equal(distinct(vs.drop_last()), vs.last()) {
        distinct(vs.drop_last())
    } else {
        distinct(vs.drop_last()).push(vs.last())
    }
}

/// What the label `label` holds, where `numbers` holds for each variable of
/// the label the number that its value writes, if it writes one.
pub open spec fn annotations(label: Seq<char>, numbers: Seq<Option<u64>>) -> NodeInfoModel {
    NodeInfoModel {
        label: display_text(label),
        tags: plain_tags(sorted_texts(hashtags_from(label, 0))),
        variables: distinct(typed(variables_from(label, 0), numbers)),
        subgraph: first_subgraph(sorted_texts(hashtags_from(label, 0))),
    }
}

/// `numbers` holds, for each of the variables `raw`, the number that its
/// value writes, or none, as `floats` says.
pub open spec fn are_numbers<F: Floats>(
    floats: &F,
    raw: Seq<(Seq<char>, Seq<char>)>,
    numbers: Seq<Option<u64>>,
) -> bool {
    &&& numbers.len() == raw.len()
    &&& forall|i: int| 0 <= i < raw.len() ==> is_number_of(floats, raw[i].1, #[trigger] numbers[i])
}

/// `info` is what the label `label` holds, where `floats` says which values
/// of its variables are numbers: see `annotations`.
pub open spec fn is_read<F: Floats>(floats: &F, label: Seq<char>, info: NodeInfoModel) -> bool {
    exists|numbers: Seq<Option<u64>>|
        #![trigger annotations(label, numbers)]
        are_numbers(floats, variables_from(label, 0), numbers) && info == annotations(
            label,
            numbers,
        )
}

/// The value of the first variable of `vs` that has the name `name`.
pub open spec fn value_named(vs: Seq<VariableModel>, name: Seq<char>) -> Option<ValueModel>
    decreases vs.len(),
{
    if vs.len() == 0 {
        None
    } else {
        match value_named(vs.drop_last(), name) {
            Some(v) => Some(v),
            None => if vs.last().name == name {
                Some(vs.last().value)
            } else {
                None
            },
        }
    }
}

/// The hashtags of `s`, sorted, each once.
fn sorted_hashtags(s: &Vec<char>) -> (r: Vec<Vec<char>>)
    ensures
        texts(r@) == sorted_texts(hashtags_from(s@, 0)),
{
    let found = scan_hashtags(s);
    let ghost all = texts(found@);
    let mut sorted: Vec<Vec<char>> = Vec::new();
    let mut i: usize = 0;
    while i < found.len()
        invariant
            i <= found@.len(),
            all == texts(found@),
            texts(sorted@) == sorted_texts(all.take(i as int)),
        decreases found.len() - i,
    {
        assert(all.take(i + 1).drop_last() == all.take(i as int));
        insert_text(&mut sorted, found[i].clone());
        i += 1;
    }
    assert(all.take(i as int) == all);
    sorted
}

fn subgraph_tag(t: &Vec<char>) -> (r: bool)
    ensures
        r == is_subgraph_tag(t@),
{
    t.len() >= 4 && t[0] == '#' && t[1] == 'S' && t[2] == 'G' && t[3] == '_'
}

/// Whether `kept` holds a variable equal to `v`.
fn holds_equal(kept: &Vec<Variable>, v: &Variable) -> (r: bool)
    ensures
        r == has_equal(variable_models(kept@), v@),
{
    let mut i: usize = 0;
    while i < kept.len()
        invariant
            i <= kept@.len(),
            forall|j: int|
                0 <= j < i ==> !variables_equal(#[trigger] variable_models(kept@)[j], v@),
        decreases kept.len() - i,
    {
        if kept[i] == *v {
            assert(variables_equal(variable_models(kept@)[i as int], v@));
            return true;
        }
        i += 1;
    }
    false
}

impl NodeInfo {
    /// What a label without hashtags and variables holds: its text.
    pub fn new(label: &str) -> (r: Self)
        ensures
            r@ == (NodeInfoModel {
                label: label@,
                tags: Seq::empty(),
                variables: Seq::empty(),
                subgraph: None,
            }),
    {
        let r = NodeInfo {
            label: String::from_str(label),
            tags: Vec::new(),
            variables: Vec::new(),
            subgraph: None,
        };
        r
    }

    /// The values of the variables of `label`, as they are written.
    pub fn variable_texts(label: &Label) -> (r: Vec<String>)
        ensures
            r@.len() == variables_from(label@, 0).len(),
            forall|i: int|
                0 <= i < r@.len() ==> (#[trigger] r@[i])@ == variables_from(label@, 0)[i].1,
    {
        let chars = label.chars();
        let (raw, _) = scan_variables(&chars);
        let mut out: Vec<String> = Vec::new();
        let mut i: usize = 0;
        while i < raw.len()
            invariant
                i <= raw@.len(),
                out@.len() == i,
                raw_pairs(raw@) == variables_from(label@, 0),
                forall|j: int|
                    0 <= j < i ==> (#[trigger] out@[j])@ == variables_from(label@, 0)[j].1,
            decreases raw.len() - i,
        {
            out.push(string_of(&raw[i].value));
            i += 1;
        }
        out
    }

    /// What `label` holds, given for each of its variables the number that
    /// its value writes, if it writes one.
    pub fn parse_with(label: &Label, numbers: &Vec<Option<u64>>) -> (r: Self)
        requires
            numbers@.len() == variables_from(label@, 0).len(),
        ensures
            r@ == annotations(label@, numbers@),
    {
        let chars = label.chars();
        let sorted = sorted_hashtags(&chars);
        let (raw, rest) = scan_variables(&chars);
        let shown = strip_trailing_tags(&rest);
        let ghost all_tags = texts(sorted@);
        let mut tags: Vec<HashTag> = Vec::new();
        let mut subgraph: Option<HashTag> = None;
        let mut i: usize = 0;
        while i < sorted.len()
            invariant
                i <= sorted@.len(),
                all_tags == texts(sorted@),
                tag_texts(tags@) == plain_tags(all_tags.take(i as int)),
                text_of_tag(subgraph) == first_subgraph(all_tags.take(i as int)),
            decreases sorted.len() - i,
        {
            assert(all_tags.take(i + 1).drop_last() == all_tags.take(i as int));
            let tag = HashTag::new(string_of(&sorted[i]).as_str());
            if subgraph_tag(&sorted[i]) {
                if subgraph.is_none() {
                    subgraph = Some(tag);
                }
            } else {
                tags.push(tag);
            }
            i += 1;
        }
        assert(all_tags.take(i as int) == all_tags);
        let ghost pairs = raw_pairs(raw@);
        let ghost all = typed(pairs, numbers@);
        let mut variables: Vec<Variable> = Vec::new();
        let mut k: usize = 0;
        while k < raw.len()
            invariant
                k <= raw@.len(),
                pairs == raw_pairs(raw@),
                numbers@.len() == pairs.len(),
                all == typed(pairs, numbers@),
                variable_models(variables@) == distinct(all.take(k as int)),
            decreases raw.len() - k,
        {
            assert(all.take(k + 1).drop_last() == all.take(k as int));
            let name = string_of(&raw[k].name);
            let written = string_of(&raw[k].value);
            let value = VariableValue::infer_from(written.as_str(), numbers[k]);
            let variable = Variable { name, value };
            if !holds_equal(&variables, &variable) {
                variables.push(variable);
            }
            k += 1;
        }
        assert(all.take(k as int) == all);
        NodeInfo { label: string_of(&shown), tags, variables, subgraph }
    }

    /// What `label` holds. Which values of its variables are numbers is for
    /// `floats` to say.
    pub fn parse<F: Floats>(label: &Label, floats: &F) -> (r: Self)
        ensures
            is_read(floats, label@, r@),
            r@.label == display_text(label@),
            r@.tags == plain_tags(sorted_texts(hashtags_from(label@, 0))),
            r@.subgraph == first_subgraph(sorted_texts(hashtags_from(label@, 0))),
    {
        let written = NodeInfo::variable_texts(label);
        let ghost raw = variables_from(label@, 0);
        let mut numbers: Vec<Option<u64>> = Vec::new();
        let mut i: usize = 0;
        while i < written.len()
            invariant
                i <= written@.len(),
                numbers@.len() == i,
                raw == variables_from(label@, 0),
                written@.len() == raw.len(),
                forall|j: int| 0 <= j < written@.len() ==> (#[trigger] written@[j])@ == raw[j].1,
                forall|j: int|
                    0 <= j < i ==> is_number_of(floats, raw[j].1, #[trigger] numbers@[j]),
            decreases written.len() - i,
        {
            let number = VariableValue::number_of(written[i].as_str(), floats);
            numbers.push(number);
            i += 1;
        }
        let r = NodeInfo::parse_with(label, &numbers);
        assert(are_numbers(floats, raw, numbers@));
        assert(r@ == annotations(label@, numbers@));
        r
    }

    /// The value of the first variable with the name `name`.
    pub fn value_of(&self, name: &str) -> (r: Option<VariableValue>)
        ensures
            value_view(r) == value_named(self@.variables, name@),
    {
        let ghost all = self@.variables;
        let mut i: usize = 0;
        while i < self.variables.len()
            invariant
                i <= self.variables@.len(),
                all == self@.variables,
                value_named(all.take(i as int), name@) is None,
            decreases self.variables.len() - i,
        {
            assert(all.take(i + 1).drop_last() == all.take(i as int));
            if same_text(self.variables[i].name.as_str(), name) {
                let r = Some(self.variables[i].value.clone());
                proof {
                    lemma_value_named_prefix(all, name@, i + 1);
                }
                return r;
            }
            i += 1;
        }
        assert(all.take(i as int) == all);
        None
    }
}

/// A variable found among the first of `vs` is the one found among all of them.
pub proof fn lemma_value_named_prefix(vs: Seq<VariableModel>, name: Seq<char>, k: int)
    requires
        0 <= k <= vs.len(),
        value_named(vs.take(k), name) is Some,
    ensures
        value_named(vs, name) == value_named(vs.take(k), name),
    decreases vs.len() - k,
{
    if k < vs.len() {
        assert(vs.drop_last().take(k) == vs.take(k));
        lemma_value_named_prefix(vs.drop_last(), name, k);
    } else {
        assert(vs.take(k) == vs);
    }
}

/// `value` is the value that the label `label` gives to the variable `name`,
/// where `floats` says which of the label's values are numbers.
pub open spec fn is_value_in<F: Floats>(
    floats: &F,
    label: Seq<char>,
    name: Seq<char>,
    value: Option<ValueModel>,
) -> bool {
    exists|numbers: Seq<Option<u64>>|
        #![trigger annotations(label, numbers)]
        are_numbers(floats, variables_from(label, 0), numbers) && value == value_named(
            annotations(label, numbers).variables,
            name,
        )
}

impl Graph {
    /// The value that the label of the node `id` gives to the variable
    /// `variable_name`. Which values are numbers is for `floats` to say.
    pub fn find_node_variable_value<F: Floats>(
        &self,
        id: &Id,
        variable_name: &str,
        floats: &F,
    ) -> (r: Option<VariableValue>)
        requires
            self.wf(),
        ensures
            match self@.label_of(id@) {
                Some(label) => is_value_in(floats, label, variable_name@, value_view(r)),
                None => r is None,
            },
    {
        match self.find_node_label(id) {
            Some(label) => {
                let info = NodeInfo::parse(&label, floats);
                let r = info.value_of(variable_name);
                proof {
                    let numbers = choose|numbers: Seq<Option<u64>>|
                        #![trigger annotations(label@, numbers)]
                        are_numbers(floats, variables_from(label@, 0), numbers) && info@
                            == annotations(label@, numbers);
                    assert(value_view(r) == value_named(
                        annotations(label@, numbers).variables,
                        variable_name@,
                    ));
                }
                r
            },
            None => None,
        }
    }
}

} // verus!
