//! The order of values and of durations.
use crate::number::key;
use crate::text::{
    chars_of, lemma_text_lt_asymmetric, lemma_text_lt_irreflexive, lemma_text_lt_total,
    lemma_text_lt_transitive, precedes, same_chars, text_lt,
};
use crate::time::Time;
use crate::value::{order_of, sign, ValueModel, VariableValue};
use core::cmp::Ordering;
use vstd::prelude::*;
use vstd::std_specs::cmp::PartialOrdSpecImpl;

verus! {

/// Minus one for `Less`, zero for `Equal`, one for `Greater`.
pub open spec fn order_number(o: Ordering) -> int {
    match o {
        Ordering::Less => -1,
        Ordering::Equal => 0,
        Ordering::Greater => 1,
    }
}

/// `Less` for a negative number, `Equal` for zero, `Greater` for a positive one.
pub open spec fn ordering_of(n: int) -> Ordering {
    if n < 0 {
        Ordering::Less
    } else if n == 0 {
        Ordering::Equal
    } else {
        Ordering::Greater
    }
}

/// Every value is level with itself.
pub proof fn lemma_order_reflexive(a: ValueModel)
    ensures
        order_of(a, a) == 0,
{
    if let ValueModel::Text(x) = a {
        lemma_text_lt_irreflexive(x);
    }
}

/// Turning two values around turns their order around.
pub proof fn lemma_order_antisymmetric(a: ValueModel, b: ValueModel)
    ensures
        order_of(b, a) == -order_of(a, b),
{
    match (a, b) {
        (ValueModel::Text(x), ValueModel::Text(y)) => {
            lemma_text_lt_total(x, y);
            lemma_text_lt_irreflexive(x);
            if text_lt(x, y) {
                lemma_text_lt_asymmetric(x, y);
            }
            if text_lt(y, x) {
                lemma_text_lt_asymmetric(y, x);
            }
        },
        _ => {},
    }
}

/// What comes no later than a second value, which comes no later than a
/// third, comes no later than the third.
pub proof fn lemma_order_transitive(a: ValueModel, b: ValueModel, c: ValueModel)
    requires
        order_of(a, b) <= 0,
        order_of(b, c) <= 0,
    ensures
        order_of(a, c) <= 0,
        order_of(a, b) < 0 || order_of(b, c) < 0 ==> order_of(a, c) < 0,
{
    match (a, b, c) {
        (ValueModel::Text(x), ValueModel::Text(y), ValueModel::Text(z)) => {
            lemma_text_lt_total(x, y);
            lemma_text_lt_total(y, z);
            lemma_text_lt_total(x, z);
            lemma_text_lt_irreflexive(x);
            if text_lt(x, y) && text_lt(y, z) {
                lemma_text_lt_transitive(x, y, z);
            }
            if text_lt(z, x) {
                if text_lt(x, y) {
                    lemma_text_lt_transitive(z, x, y);
                    if text_lt(y, z) {
                        lemma_text_lt_asymmetric(y, z);
                    }
                } else if text_lt(y, z) {
                    lemma_text_lt_asymmetric(y, z);
                }
            }
        },
        _ => {},
    }
}

impl VariableValue {
    /// The order of two values. It is total: any two values compare, also a
    /// number with what is not a number, which comes after every number.
    pub fn cmp(&self, other: &Self) -> (r: Ordering)
        ensures
            order_number(r) == order_of(self@, other@),
    {
        match (self, other) {
            (VariableValue::String(x), VariableValue::String(y)) => {
                let a = chars_of(x.as_str());
                let b = chars_of(y.as_str());
                if precedes(&a, &b) {
                    Ordering::Less
                } else if same_chars(&a, &b) {
                    Ordering::Equal
                } else {
                    Ordering::Greater
                }
            },
            (VariableValue::Number(x), VariableValue::Number(y)) => {
                let a = key(*x);
                let b = key(*y);
                if a < b {
                    Ordering::Less
                } else if a == b {
                    Ordering::Equal
                } else {
                    Ordering::Greater
                }
            },
            (VariableValue::Boolean(x), VariableValue::Boolean(y)) => {
                if *x == *y {
                    Ordering::Equal
                } else if *y {
                    Ordering::Less
                } else {
                    Ordering::Greater
                }
            },
            (VariableValue::Time(x), VariableValue::Time(y)) => {
                let a = x.to_minutes();
                let b = y.to_minutes();
                if a < b {
                    Ordering::Less
                } else if a == b {
                    Ordering::Equal
                } else {
                    Ordering::Greater
                }
            },
            (VariableValue::String(_), _) => Ordering::Less,
            (_, VariableValue::String(_)) => Ordering::Greater,
            (VariableValue::Number(_), _) => Ordering::Less,
            (_, VariableValue::Number(_)) => Ordering::Greater,
            (VariableValue::Boolean(_), _) => Ordering::Less,
            (_, VariableValue::Boolean(_)) => Ordering::Greater,
        }
    }
}

impl PartialOrd for VariableValue {
    fn partial_cmp(&self, other: &Self) -> (r: Option<Ordering>) {
        Some(self.cmp(other))
    }
}

impl PartialOrdSpecImpl for VariableValue {
    open spec fn obeys_partial_cmp_spec() -> bool {
        true
    }

    open spec fn partial_cmp_spec(&self, other: &Self) -> Option<Ordering> {
        Some(ordering_of(order_of(self@, other@)))
    }
}

impl PartialOrd for Time {
    fn partial_cmp(&self, other: &Self) -> (r: Option<Ordering>) {
        let a = self.to_minutes();
        let b = other.to_minutes();
        if a < b {
            Some(Ordering::Less)
        } else if a == b {
            Some(Ordering::Equal)
        } else {
            Some(Ordering::Greater)
        }
    }
}

impl PartialOrdSpecImpl for Time {
    open spec fn obeys_partial_cmp_spec() -> bool {
        true
    }

    open spec fn partial_cmp_spec(&self, other: &Self) -> Option<Ordering> {
        Some(ordering_of(sign(self.minutes() - other.minutes())))
    }
}

} // verus!
