use microdot_core::number::Floats;
use microdot_core::time::Time;
use microdot_core::value::VariableValue;
use microdot_core::variable::Variable;
use std::cmp::Ordering;

struct Ieee;

impl Floats for Ieee {
    fn parse(&self, text: &str) -> Option<u64> {
        text.parse::<f64>().ok().map(f64::to_bits)
    }

    fn sum(&self, a: u64, b: u64) -> u64 {
        (f64::from_bits(a) + f64::from_bits(b)).to_bits()
    }

    fn show(&self, bits: u64) -> String {
        f64::from_bits(bits).to_string()
    }
}

fn number(value: f64) -> VariableValue {
    VariableValue::number(value.to_bits())
}

#[test]
fn it_can_parse_a_plus_in_a_variable_string() {
    let variable = Variable::parse("$foo=x+1", &Ieee);
    assert_eq!(variable.unwrap().value, VariableValue::string("x+1"));
}

#[test]
fn it_can_sum_iter_time_values() {
    let t1 = VariableValue::time(Time::Minute(1));
    let t2 = VariableValue::time(Time::Minute(1));
    let v = vec![t1, t2];
    let total: VariableValue = VariableValue::sum(&v, &Ieee);
    assert_eq!(total, VariableValue::time(Time::Minute(2)));
}

#[test]
fn it_can_sum_iter_number_values() {
    let n1 = number(1.0);
    let n2 = number(1.0);
    let v = vec![n1, n2];
    let total: VariableValue = VariableValue::sum(&v, &Ieee);
    assert_eq!(total, number(2.0));
}

#[test]
fn it_can_sum_iter_string_values() {
    let n1 = VariableValue::string("x");
    let n2 = VariableValue::string("y");
    let v = vec![n1, n2];
    let total: VariableValue = VariableValue::sum(&v, &Ieee);
    assert_eq!(total, VariableValue::string("xy"));
}

#[test]
fn it_can_sum_iter_bool_values() {
    let n1 = VariableValue::boolean(false);
    let n2 = VariableValue::boolean(false);
    let n3 = VariableValue::boolean(true);
    let v = vec![n1, n2, n3];
    let total: VariableValue = VariableValue::sum(&v, &Ieee);
    assert_eq!(total, VariableValue::boolean(true));
}

#[test]
fn it_can_add_time_values() {
    let t1 = VariableValue::time(Time::Minute(1));
    let t2 = VariableValue::time(Time::Minute(1));
    let total = t1.add(t2, &Ieee);
    assert_eq!(total, VariableValue::time(Time::Minute(2)));
}

#[test]
fn it_can_add_boolean_values() {
    assert_eq!(
        VariableValue::boolean(false).add(VariableValue::boolean(false), &Ieee),
        VariableValue::boolean(false)
    );
    assert_eq!(
        VariableValue::boolean(false).add(VariableValue::boolean(true), &Ieee),
        VariableValue::boolean(true)
    );
    assert_eq!(
        VariableValue::boolean(true).add(VariableValue::boolean(false), &Ieee),
        VariableValue::boolean(true)
    );
    assert_eq!(
        VariableValue::boolean(true).add(VariableValue::boolean(true), &Ieee),
        VariableValue::boolean(true)
    );
}

#[test]
fn it_can_add_number_values() {
    let n1 = number(1.0);
    let n2 = number(1.0);
    let total = n1.add(n2, &Ieee);
    assert_eq!(total, number(2.0));
}

#[test]
fn it_can_add_number_references() {
    let n1 = number(1.0);
    let n2 = number(1.0);
    let total = n1.add(n2.clone(), &Ieee);
    assert_eq!(total, number(2.0));
}

#[test]
fn it_collapses_mixed_values() {
    let n1 = number(1.0);
    let t2 = VariableValue::time(Time::Minute(1));
    let total = n1.add(t2, &Ieee);
    assert_eq!(total, VariableValue::string("mixed types"));
}

#[test]
fn numbers_order_as_expected() {
    let n1 = number(1.0);
    let n2 = number(2.0);
    assert!(n1 < n2);

    let n1 = number(f64::NAN);
    let n2 = number(f64::NAN);
    assert_eq!(n1.cmp(&n2), Ordering::Equal);

    let n1 = number(1.0);
    let n2 = number(f64::NAN);
    assert_eq!(n1.cmp(&n2), Ordering::Less);

    let n1 = number(f64::NAN);
    let n2 = number(1.0);
    assert_eq!(n1.cmp(&n2), Ordering::Greater);
}

#[test]
fn values_are_inferred_in_the_stated_order() {
    assert_eq!(VariableValue::infer("true", &Ieee), VariableValue::boolean(true));
    assert_eq!(VariableValue::infer("false", &Ieee), VariableValue::boolean(false));
    assert_eq!(VariableValue::infer("25", &Ieee), number(25.0));
    let days = VariableValue::infer("4d", &Ieee);
    assert_eq!(days, VariableValue::time(Time::Minute(1920)));
    assert_eq!(days.as_string(&Ieee), "4 days");
    assert_eq!(VariableValue::infer("x+1", &Ieee), VariableValue::string("x+1"));
    assert_eq!(VariableValue::infer("1e3", &Ieee), number(1000.0));
    assert_eq!(VariableValue::infer("truely", &Ieee), VariableValue::string("truely"));
}

#[test]
fn the_number_a_caller_hands_in_decides() {
    assert_eq!(
        VariableValue::infer_from("25", Some(25.0f64.to_bits())),
        number(25.0)
    );
    assert_eq!(VariableValue::infer_from("25", None), VariableValue::string("25"));
    assert_eq!(
        VariableValue::infer_from("true", Some(1.0f64.to_bits())),
        VariableValue::boolean(true)
    );
    assert_eq!(
        VariableValue::infer_from("4d", None),
        VariableValue::time(Time::Day(4))
    );
}

#[test]
fn numbers_compare_by_value_across_signs_and_zeros() {
    let values = [
        f64::NEG_INFINITY,
        -10.5,
        -1.0,
        -0.0,
        1e-300,
        1.0,
        12.0,
        f64::INFINITY,
    ];
    for (i, a) in values.iter().enumerate() {
        for (j, b) in values.iter().enumerate() {
            let expected = i.cmp(&j);
            assert_eq!(number(*a).cmp(&number(*b)), expected, "{} against {}", a, b);
        }
    }
    assert_eq!(number(0.0).cmp(&number(-0.0)), Ordering::Equal);
    assert_eq!(number(0.0), number(-0.0));
    assert_ne!(number(f64::NAN), number(f64::NAN));
    assert_eq!(number(f64::INFINITY).cmp(&number(f64::NAN)), Ordering::Less);
    assert!(number(0.0).is_zero());
    assert!(number(-0.0).is_zero());
    assert!(!number(f64::NAN).is_zero());
    assert!(VariableValue::time(Time::Hour(0)).is_zero());
    assert!(!VariableValue::string("").is_zero());
}

#[test]
fn negation_flips_numbers_and_durations_only() {
    assert_eq!(number(3.5).negate(), number(-3.5));
    assert_eq!(number(-0.0).negate().cmp(&number(0.0)), Ordering::Equal);
    assert_eq!(
        VariableValue::time(Time::Hour(2)).negate(),
        VariableValue::time(Time::Minute(-120))
    );
    assert_eq!(
        VariableValue::boolean(true).negate(),
        VariableValue::string("cannot negate")
    );
    assert_eq!(
        VariableValue::string("x").negate(),
        VariableValue::string("cannot negate")
    );
}

#[test]
fn kinds_are_ordered_among_themselves() {
    let text = VariableValue::string("zzz");
    let num = number(-5.0);
    let truth = VariableValue::boolean(false);
    let span = VariableValue::time(Time::Minute(-1));
    assert_eq!(text.cmp(&num), Ordering::Less);
    assert_eq!(num.cmp(&truth), Ordering::Less);
    assert_eq!(truth.cmp(&span), Ordering::Less);
    assert_eq!(span.cmp(&text), Ordering::Greater);
    assert_eq!(
        VariableValue::string("abc").cmp(&VariableValue::string("abd")),
        Ordering::Less
    );
    assert_eq!(
        VariableValue::string("ab").cmp(&VariableValue::string("abc")),
        Ordering::Less
    );
    assert_eq!(
        VariableValue::boolean(false).cmp(&VariableValue::boolean(true)),
        Ordering::Less
    );
    assert_eq!(
        VariableValue::time(Time::Hour(1)).cmp(&VariableValue::time(Time::Minute(60))),
        Ordering::Equal
    );
}

#[test]
fn the_sum_of_nothing_is_zero() {
    let none: Vec<VariableValue> = Vec::new();
    assert_eq!(VariableValue::sum(&none, &Ieee), VariableValue::zero());
    assert_eq!(VariableValue::zero(), number(0.0));
}

#[test]
fn variables_are_written_as_name_and_value() {
    let v = Variable::new("cost", VariableValue::time(Time::Day(4)));
    assert_eq!(v.to_string(&Ieee), "cost=4 days");
    let w = Variable::boolean("done", true);
    assert_eq!(w.to_string(&Ieee), "done=true");
    let n = Variable::new("n", number(2.5));
    assert_eq!(n.to_string(&Ieee), "n=2.5");
    assert_eq!(v.hash(&Ieee), v.clone().hash(&Ieee));
}

#[test]
fn truth_values_are_never_asked_for_as_numbers() {
    struct Everything;
    impl Floats for Everything {
        fn parse(&self, _text: &str) -> Option<u64> {
            Some(1.0f64.to_bits())
        }
        fn sum(&self, a: u64, _b: u64) -> u64 {
            a
        }
        fn show(&self, _bits: u64) -> String {
            "?".to_string()
        }
    }
    assert_eq!(VariableValue::number_of("true", &Everything), None);
    assert_eq!(VariableValue::number_of("false", &Everything), None);
    assert_eq!(
        VariableValue::number_of("anything", &Everything),
        Some(1.0f64.to_bits())
    );
    assert_eq!(VariableValue::number_of("25", &Ieee), Some(25.0f64.to_bits()));
    assert_eq!(VariableValue::number_of("x+1", &Ieee), None);
    assert_eq!(
        VariableValue::infer("true", &Everything),
        VariableValue::boolean(true)
    );
    assert_eq!(VariableValue::infer("4d", &Everything), number(1.0));
    assert_eq!(number(3.0).add(number(4.0), &Everything), number(3.0));
    assert_eq!(number(3.0).as_string(&Everything), "?");
}
