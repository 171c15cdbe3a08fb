//! The values that a variable of a label can have: a text, a number, a
//! truth value or a duration.
use crate::number::{
    equal_numbers, key, negate_bits, negated_bits, number_key, numbers_equal, Floats, ZERO_BITS,
};
use crate::text::{push_text, same_text, text_lt};
use crate::time::{add_minutes, clamp, duration_text, parse_time, Time};
use vstd::prelude::*;
use vstd::std_specs::cmp::PartialEqSpecImpl;
use vstd::string::StringExecFns;

verus! {

/// A value. A number is held as the bits of its encoding, see `number`.
#[derive(Debug)]
pub enum VariableValue {
    String(String),
    Number(u64),
    Boolean(bool),
    Time(Time),
}

/// A value as specifications see it.
#[verifier::ext_equal]
pub enum ValueModel {
    Text(Seq<char>),
    Number(u64),
    Boolean(bool),
    Time(Time),
}

impl View for VariableValue {
    type V = ValueModel;

    open spec fn view(&self) -> ValueModel {
        match self {
            VariableValue::String(s) => ValueModel::Text(s@),
            VariableValue::Number(n) => ValueModel::Number(*n),
            VariableValue::Boolean(b) => ValueModel::Boolean(*b),
            VariableValue::Time(t) => ValueModel::Time(*t),
        }
    }
}

/// The view of a value that may be missing.
pub open spec fn value_view(v: Option<VariableValue>) -> Option<ValueModel> {
    match v {
        Some(x) => Some(x@),
        None => None,
    }
}

/// Equality of values: the same kind and equal contents. Numbers are equal
/// as numbers, durations when they amount to the same minutes.
pub open spec fn values_equal(a: ValueModel, b: ValueModel) -> bool {
    match (a, b) {
        (ValueModel::Text(x), ValueModel::Text(y)) => x == y,
        (ValueModel::Number(x), ValueModel::Number(y)) => numbers_equal(x, y),
        (ValueModel::Boolean(x), ValueModel::Boolean(y)) => x == y,
        (ValueModel::Time(x), ValueModel::Time(y)) => x.minutes() == y.minutes(),
        _ => false,
    }
}

/// The place of a kind of value among the kinds: texts come first, then
/// numbers, truth values and durations.
pub open spec fn rank(v: ValueModel) -> int {
    match v {
        ValueModel::Text(_) => 0,
        ValueModel::Number(_) => 1,
        ValueModel::Boolean(_) => 2,
        ValueModel::Time(_) => 3,
    }
}

/// Minus one, zero or one, as `x` is negative, zero or positive.
pub open spec fn sign(x: int) -> int {
    if x < 0 {
        -1
    } else if x == 0 {
        0
    } else {
        1
    }
}

/// The order of values: minus one where `a` comes first, one where `b` does,
/// zero where neither does. Values of one kind are ordered by their contents:
/// texts as in a dictionary, numbers by size with what is not a number last,
/// false before true, durations by their minutes.
pub open spec fn order_of(a: ValueModel, b: ValueModel) -> int {
    match (a, b) {
        (ValueModel::Text(x), ValueModel::Text(y)) => if text_lt(x, y) {
            -1
        } else if x == y {
            0
        } else {
            1
        },
        (ValueModel::Number(x), ValueModel::Number(y)) => sign(number_key(x) - number_key(y)),
        (ValueModel::Boolean(x), ValueModel::Boolean(y)) => if x == y {
            0
        } else if y {
            -1
        } else {
            1
        },
        (ValueModel::Time(x), ValueModel::Time(y)) => sign(x.minutes() - y.minutes()),
        _ => sign(rank(a) - rank(b)),
    }
}

/// The value with the opposite sign. Texts and truth values have none: for
/// them the result is the text `cannot negate`.
pub open spec fn negated_value(v: ValueModel) -> ValueModel {
    match v {
        ValueModel::Number(n) => ValueModel::Number(negated_bits(n)),
        ValueModel::Time(t) => ValueModel::Time(t.negated()),
        _ => ValueModel::Text("cannot negate"@),
    }
}

/// The sum of two values, where `number_sum` is the sum of the two numbers
/// if both are numbers. Durations add up their minutes, texts are joined,
/// truth values are joined by `or`. Values of two kinds give the text `mixed types`.
pub open spec fn sum_with(a: ValueModel, b: ValueModel, number_sum: u64) -> ValueModel {
    match (a, b) {
        (ValueModel::Number(_), ValueModel::Number(_)) => ValueModel::Number(number_sum),
        (ValueModel::Time(x), ValueModel::Time(y)) => ValueModel::Time(
            Time::Minute(clamp(x.minutes() + y.minutes()) as i64),
        ),
        (ValueModel::Text(x), ValueModel::Text(y)) => ValueModel::Text(x + y),
        (ValueModel::Boolean(x), ValueModel::Boolean(y)) => ValueModel::Boolean(x || y),
        _ => ValueModel::Text("mixed types"@),
    }
}

/// `total` is the sum of `a` and `b`, where the sum of two numbers is what
/// `floats` gives for them: see `sum_with`.
pub open spec fn is_sum<F: Floats>(
    floats: &F,
    a: ValueModel,
    b: ValueModel,
    total: ValueModel,
) -> bool {
    match (a, b) {
        (ValueModel::Number(x), ValueModel::Number(y)) => exists|number_sum: u64|
            #![trigger call_ensures(F::sum, (floats, x, y), number_sum)]
            call_ensures(F::sum, (floats, x, y), number_sum) && total == ValueModel::Number(
                number_sum,
            ),
        _ => total == sum_with(a, b, ZERO_BITS),
    }
}

/// `total` is the sum of `values`, added up from the first to the last, with
/// the sums of numbers that `floats` gives. The sum of no values is the
/// number zero.
pub open spec fn is_total<F: Floats>(floats: &F, values: Seq<ValueModel>, total: ValueModel) -> bool
    decreases values.len(),
{
    if values.len() == 0 {
        total == ValueModel::Number(ZERO_BITS)
    } else if values.len() == 1 {
        total == values[0]
    } else {
        exists|before: ValueModel|
            #![trigger is_sum(floats, before, values.last(), total)]
            is_total(floats, values.drop_last(), before) && is_sum(
                floats,
                before,
                values.last(),
                total,
            )
    }
}

/// The value that `text` writes, where `number` holds the number that it
/// writes if it writes one: `true` and `false` are truth values; then a
/// number is a number; then a duration is a duration; all else is a text.
pub open spec fn infer_with(text: Seq<char>, number: Option<u64>) -> ValueModel {
    if text == "true"@ {
        ValueModel::Boolean(true)
    } else if text == "false"@ {
        ValueModel::Boolean(false)
    } else {
        match number {
            Some(bits) => ValueModel::Number(bits),
            None => match parse_time(text) {
                Some(t) => ValueModel::Time(t),
                None => ValueModel::Text(text),
            },
        }
    }
}

/// `number` is the number that `text` writes, or none, as `floats` says.
/// `floats` is not asked about `true` and `false`, which write no number.
pub open spec fn is_number_of<F: Floats>(
    floats: &F,
    text: Seq<char>,
    number: Option<u64>,
) -> bool {
    if text == "true"@ || text == "false"@ {
        number is None
    } else {
        exists|written: &str|
            #![trigger call_ensures(F::parse, (floats, written), number)]
            written@ == text && call_ensures(F::parse, (floats, written), number)
    }
}

/// `value` is what `text` writes, where `floats` says whether it writes a
/// number and which: see `infer_with`.
pub open spec fn is_inferred<F: Floats>(floats: &F, text: Seq<char>, value: ValueModel) -> bool {
    exists|number: Option<u64>|
        #![trigger is_number_of(floats, text, number)]
        is_number_of(floats, text, number) && value == infer_with(text, number)
}

/// `shown` is how `v` is written out, where a number is written as `floats`
/// writes it.
pub open spec fn is_shown<F: Floats>(floats: &F, v: ValueModel, shown: Seq<char>) -> bool {
    match v {
        ValueModel::Text(s) => shown == s,
        ValueModel::Number(bits) => exists|written: String|
            #![trigger call_ensures(F::show, (floats, bits), written)]
            call_ensures(F::show, (floats, bits), written) && written@ == shown,
        ValueModel::Boolean(b) => shown == if b {
            "true"@
        } else {
            "false"@
        },
        ValueModel::Time(t) => shown == duration_text(t.minutes()),
    }
}

impl Clone for VariableValue {
    fn clone(&self) -> (r: Self)
        ensures
            r@ == self@,
    {
        match self {
            VariableValue::String(s) => VariableValue::String(s.clone()),
            VariableValue::Number(n) => VariableValue::Number(*n),
            VariableValue::Boolean(b) => VariableValue::Boolean(*b),
            VariableValue::Time(t) => VariableValue::Time(*t),
        }
    }
}

impl Default for VariableValue {
    /// The number zero.
    fn default() -> (r: Self)
        ensures
            r@ == ValueModel::Number(ZERO_BITS),
    {
        VariableValue::Number(ZERO_BITS)
    }
}

impl PartialEq for VariableValue {
    fn eq(&self, other: &Self) -> (r: bool) {
        match (self, other) {
            (VariableValue::String(s1), VariableValue::String(s2)) => *s1 == *s2,
            (VariableValue::Number(n1), VariableValue::Number(n2)) => equal_numbers(*n1, *n2),
            (VariableValue::Boolean(b1), VariableValue::Boolean(b2)) => *b1 == *b2,
            (VariableValue::Time(t1), VariableValue::Time(t2)) => t1.to_minutes()
                == t2.to_minutes(),
            _ => false,
        }
    }
}

impl PartialEqSpecImpl for VariableValue {
    open spec fn obeys_eq_spec() -> bool {
        true
    }

    open spec fn eq_spec(&self, other: &Self) -> bool {
        values_equal(self@, other@)
    }
}

impl VariableValue {
    /// The truth value `value`.
    pub fn boolean(value: bool) -> (r: Self)
        ensures
            r@ == ValueModel::Boolean(value),
    {
        VariableValue::Boolean(value)
    }

    /// The number with the given bits.
    pub fn number(bits: u64) -> (r: Self)
        ensures
            r@ == ValueModel::Number(bits),
    {
        VariableValue::Number(bits)
    }

    /// The number zero, which is the sum of no values.
    pub fn zero() -> (r: Self)
        ensures
            r@ == ValueModel::Number(ZERO_BITS),
    {
        VariableValue::Number(ZERO_BITS)
    }

    /// The text `value`.
    pub fn string(value: &str) -> (r: Self)
        ensures
            r@ == ValueModel::Text(value@),
    {
        VariableValue::String(String::from_str(value))
    }

    /// The duration `value`.
    pub fn time(value: Time) -> (r: Self)
        ensures
            r@ == ValueModel::Time(value),
    {
        VariableValue::Time(value)
    }

    /// Whether the value is the number zero or a duration of no minutes.
    pub fn is_zero(&self) -> (r: bool)
        ensures
            r == match self@ {
                ValueModel::Number(n) => number_key(n) == 0,
                ValueModel::Time(t) => t.minutes() == 0,
                _ => false,
            },
    {
        match self {
            VariableValue::Number(n) => key(*n) == 0,
            VariableValue::Time(t) => t.to_minutes() == 0,
            VariableValue::String(_) => false,
            VariableValue::Boolean(_) => false,
        }
    }

    /// The value with the opposite sign.
    pub fn negate(&self) -> (r: Self)
        ensures
            r@ == negated_value(self@),
    {
        match self {
            VariableValue::Number(n) => VariableValue::Number(negate_bits(*n)),
            VariableValue::Time(t) => VariableValue::Time(t.negate()),
            _ => VariableValue::String(String::from_str("cannot negate")),
        }
    }

    /// The value that `text` writes, given the number that it writes, if any.
    pub fn infer_from(text: &str, number: Option<u64>) -> (r: Self)
        ensures
            r@ == infer_with(text@, number),
    {
        if same_text(text, "true") {
            VariableValue::Boolean(true)
        } else if same_text(text, "false") {
            VariableValue::Boolean(false)
        } else {
            match number {
                Some(bits) => VariableValue::Number(bits),
                None => match Time::parse(text) {
                    Some(t) => VariableValue::Time(t),
                    None => VariableValue::String(String::from_str(text)),
                },
            }
        }
    }

    /// The number that `text` writes, if it writes one: what `floats` says,
    /// but that `true` and `false` write none.
    pub fn number_of<F: Floats>(text: &str, floats: &F) -> (r: Option<u64>)
        ensures
            is_number_of(floats, text@, r),
    {
        if same_text(text, "true") || same_text(text, "false") {
            None
        } else {
            let r = floats.parse(text);
            assert(call_ensures(F::parse, (floats, text), r));
            r
        }
    }

    /// The value that `text` writes. Whether it writes a number, and which,
    /// is for `floats` to say.
    pub fn infer<F: Floats>(text: &str, floats: &F) -> (r: Self)
        ensures
            is_inferred(floats, text@, r@),
            text@ == "true"@ ==> r@ == ValueModel::Boolean(true),
            text@ == "false"@ ==> r@ == ValueModel::Boolean(false),
    {
        let number = VariableValue::number_of(text, floats);
        let r = VariableValue::infer_from(text, number);
        proof {
            reveal_strlit("true");
            reveal_strlit("false");
            assert(is_number_of(floats, text@, number));
        }
        r
    }

    /// The sum of two values, given the sum of the two numbers if they are numbers.
    pub fn add_with(self, rhs: Self, number_sum: u64) -> (r: Self)
        ensures
            r@ == sum_with(self@, rhs@, number_sum),
    {
        match (self, rhs) {
            (VariableValue::Number(_), VariableValue::Number(_)) => VariableValue::Number(
                number_sum,
            ),
            (VariableValue::Time(t1), VariableValue::Time(t2)) => VariableValue::Time(
                Time::Minute(add_minutes(t1.to_minutes(), t2.to_minutes())),
            ),
            (VariableValue::String(s1), VariableValue::String(s2)) => {
                let mut joined = s1;
                push_text(&mut joined, s2.as_str());
                VariableValue::String(joined)
            },
            (VariableValue::Boolean(b1), VariableValue::Boolean(b2)) => VariableValue::Boolean(
                b1 || b2,
            ),
            (_, _) => VariableValue::String(String::from_str("mixed types")),
        }
    }

    /// The sum of two values. The sum of two numbers is for `floats` to say.
    pub fn add<F: Floats>(self, rhs: Self, floats: &F) -> (r: Self)
        ensures
            is_sum(floats, self@, rhs@, r@),
    {
        let number_sum = match (&self, &rhs) {
            (VariableValue::Number(a), VariableValue::Number(b)) => {
                let n = floats.sum(*a, *b);
                assert(call_ensures(F::sum, (floats, *a, *b), n));
                n
            },
            _ => ZERO_BITS,
        };
        self.add_with(rhs, number_sum)
    }

    /// The sum of `values`, added up from the first to the last.
    pub fn sum<F: Floats>(values: &Vec<VariableValue>, floats: &F) -> (r: Self)
        ensures
            is_total(floats, values@.map_values(|v: VariableValue| v@), r@),
    {
        let ghost models = values@.map_values(|v: VariableValue| v@);
        if values.len() == 0 {
            return VariableValue::zero();
        }
        let mut total = values[0].clone();
        let mut i: usize = 1;
        while i < values.len()
            invariant
                1 <= i <= values@.len(),
                models == values@.map_values(|v: VariableValue| v@),
                is_total(floats, models.take(i as int), total@),
            decreases values.len() - i,
        {
            let ghost before = total@;
            total = total.add(values[i].clone(), floats);
            proof {
                let grown = models.take(i + 1);
                assert(grown.drop_last() == models.take(i as int));
                assert(grown.last() == models[i as int]);
                assert(is_sum(floats, before, grown.last(), total@));
            }
            i += 1;
        }
        assert(models.take(i as int) == models);
        total
    }

    /// The value written out. How a number is written is for `floats` to say.
    pub fn as_string<F: Floats>(&self, floats: &F) -> (r: String)
        ensures
            is_shown(floats, self@, r@),
    {
        match self {
            VariableValue::String(s) => s.clone(),
            VariableValue::Number(n) => {
                let r = floats.show(*n);
                assert(call_ensures(F::show, (floats, *n), r));
                r
            },
            VariableValue::Boolean(b) => {
                if *b {
                    String::from_str("true")
                } else {
                    String::from_str("false")
                }
            },
            VariableValue::Time(t) => t.to_string(),
        }
    }
}

} // verus!
