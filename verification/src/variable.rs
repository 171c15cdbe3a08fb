//! Variables: a name and a value, written `$name=value` in a label.
use crate::number::Floats;
use crate::scan::{scan_variables, variables_from};
use crate::text::{chars_of, push_text, string_of};
use crate::util::{generate_hash, hash_of};
use crate::value::{infer_with, is_inferred, is_shown, values_equal, ValueModel, VariableValue};
use vstd::prelude::*;
use vstd::std_specs::cmp::PartialEqSpecImpl;
use vstd::string::StringExecFns;

verus! {

/// A named value.
#[derive(Debug)]
pub struct Variable {
    pub name: String,
    pub value: VariableValue,
}

/// A variable as specifications see it.
#[verifier::ext_equal]
pub struct VariableModel {
    pub name: Seq<char>,
    pub value: ValueModel,
}

impl View for Variable {
    type V = VariableModel;

    open spec fn view(&self) -> VariableModel {
        VariableModel { name: self.name@, value: self.value@ }
    }
}

/// Two variables are equal when they have the same name and equal values.
pub open spec fn variables_equal(a: VariableModel, b: VariableModel) -> bool {
    a.name == b.name && values_equal(a.value, b.value)
}

impl Clone for Variable {
    fn clone(&self) -> (r: Self)
        ensures
            r@ == self@,
    {
        Variable { name: self.name.clone(), value: self.value.clone() }
    }
}

impl PartialEq for Variable {
    fn eq(&self, other: &Self) -> (r: bool) {
        self.name == other.name && self.value == other.value
    }
}

impl PartialEqSpecImpl for Variable {
    open spec fn obeys_eq_spec() -> bool {
        true
    }

    open spec fn eq_spec(&self, other: &Self) -> bool {
        variables_equal(self@, other@)
    }
}

/// How a variable is written out: its name, `=`, and its value, a number
/// as `floats` writes it.
pub open spec fn is_written<F: Floats>(floats: &F, v: VariableModel, written: Seq<char>) -> bool {
    exists|shown: Seq<char>|
        #![trigger is_shown(floats, v.value, shown)]
        is_shown(floats, v.value, shown) && written == v.name + "="@ + shown
}

impl Variable {
    /// The variable `name` with the value `value`.
    pub fn new(name: &str, value: VariableValue) -> (r: Self)
        ensures
            r@ == (VariableModel { name: name@, value: value@ }),
    {
        Variable { name: String::from_str(name), value }
    }

    /// The variable `name` with the truth value `value`.
    pub fn boolean(name: &str, value: bool) -> (r: Self)
        ensures
            r@ == (VariableModel { name: name@, value: ValueModel::Boolean(value) }),
    {
        Variable { name: String::from_str(name), value: VariableValue::Boolean(value) }
    }

    /// The first variable that `input` holds, given the number that its
    /// value writes, if it writes one.
    pub fn parse_with(input: &str, number: Option<u64>) -> (r: Option<Self>)
        ensures
            match r {
                Some(v) => variables_from(input@, 0).len() > 0 && v@ == (VariableModel {
                    name: variables_from(input@, 0)[0].0,
                    value: infer_with(variables_from(input@, 0)[0].1, number),
                }),
                None => variables_from(input@, 0).len() == 0,
            },
    {
        let text = chars_of(input);
        let (found, _) = scan_variables(&text);
        if found.len() == 0 {
            return None;
        }
        let name = string_of(&found[0].name);
        let written = string_of(&found[0].value);
        let value = VariableValue::infer_from(written.as_str(), number);
        Some(Variable { name, value })
    }

    /// The first variable that `input` holds. Whether its value is a number
    /// is for `floats` to say.
    pub fn parse<F: Floats>(input: &str, floats: &F) -> (r: Option<Self>)
        ensures
            match r {
                Some(v) => variables_from(input@, 0).len() > 0 && v@.name == variables_from(
                    input@,
                    0,
                )[0].0 && is_inferred(floats, variables_from(input@, 0)[0].1, v@.value),
                None => variables_from(input@, 0).len() == 0,
            },
    {
        let text = chars_of(input);
        let (found, _) = scan_variables(&text);
        if found.len() == 0 {
            return None;
        }
        let name = string_of(&found[0].name);
        let written = string_of(&found[0].value);
        let value = VariableValue::infer(written.as_str(), floats);
        Some(Variable { name, value })
    }

    /// The variable written out.
    pub fn to_string<F: Floats>(&self, floats: &F) -> (r: String)
        ensures
            is_written(floats, self@, r@),
    {
        let shown = self.value.as_string(floats);
        let mut out = self.name.clone();
        push_text(&mut out, "=");
        push_text(&mut out, shown.as_str());
        assert(is_shown(floats, self@.value, shown@));
        out
    }

    /// A hash of the variable as it is written out.
    pub fn hash<F: Floats>(&self, floats: &F) -> (r: usize)
        ensures
            exists|written: Seq<char>|
                #![trigger is_written(floats, self@, written)]
                is_written(floats, self@, written) && r == hash_of(written) as usize,
    {
        let written = self.to_string(floats);
        let r = generate_hash(written.as_str());
        assert(is_written(floats, self@, written@));
        r
    }
}

} // verus!
