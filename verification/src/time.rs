//! Durations in working time: a day has eight hours, a month twenty days
//! and a year two hundred and sixty.
use crate::text::{chars_of, decimal, join_with, push_decimal, push_text};
use vstd::prelude::*;
use vstd::std_specs::cmp::PartialEqSpecImpl;
use vstd::std_specs::ops::{AddSpecImpl, NegSpecImpl};

verus! {

/// The minutes of an hour.
pub const HOUR: i64 = 60;

/// The minutes of a working day.
pub const DAY: i64 = 480;

/// The minutes of a working month.
pub const MONTH: i64 = 9600;

/// The minutes of a working year.
pub const YEAR: i64 = 124800;

/// A duration: a count of one unit. Durations are compared, added and shown
/// by the minutes they amount to.
#[derive(Debug, Clone, Copy)]
pub enum Time {
    Minute(i64),
    Hour(i64),
    Day(i64),
    Month(i64),
    Year(i64),
}

/// `x`, or the nearest value that a 64-bit signed integer holds.
pub open spec fn clamp(x: int) -> int {
    if x > i64::MAX {
        i64::MAX as int
    } else if x < i64::MIN {
        i64::MIN as int
    } else {
        x
    }
}

/// `count` times `unit`, kept within 64 bits.
fn scaled(count: i64, unit: i64) -> (r: i64)
    requires
        0 < unit <= 124800,
    ensures
        r == clamp(count * unit),
{
    assert(-0x1_0000_0000_0000_0000_0000 < count * unit < 0x1_0000_0000_0000_0000_0000)
        by (nonlinear_arith)
        requires
            -0x8000_0000_0000_0000 <= count < 0x8000_0000_0000_0000,
            0 < unit <= 124800,
    ;
    let wide: i128 = (count as i128) * (unit as i128);
    if wide > i64::MAX as i128 {
        i64::MAX
    } else if wide < i64::MIN as i128 {
        i64::MIN
    } else {
        wide as i64
    }
}

/// The sum of two minute counts, kept within 64 bits.
pub fn add_minutes(a: i64, b: i64) -> (r: i64)
    ensures
        r == clamp(a + b),
{
    let wide: i128 = (a as i128) + (b as i128);
    if wide > i64::MAX as i128 {
        i64::MAX
    } else if wide < i64::MIN as i128 {
        i64::MIN
    } else {
        wide as i64
    }
}

/// The negative of a count, kept within 64 bits.
pub fn negate_count(a: i64) -> (r: i64)
    ensures
        r == clamp(-a),
{
    if a == i64::MIN {
        i64::MAX
    } else {
        -a
    }
}

impl Time {
    /// The minutes that the duration amounts to. Beyond what 64 bits hold
    /// the count stays at the nearest bound.
    pub open spec fn minutes(self) -> int {
        match self {
            Time::Minute(m) => m as int,
            Time::Hour(h) => clamp(h * 60),
            Time::Day(d) => clamp(d * 480),
            Time::Month(m) => clamp(m * 9600),
            Time::Year(y) => clamp(y * 124800),
        }
    }

    /// The minutes that the duration amounts to.
    pub fn to_minutes(&self) -> (r: i64)
        ensures
            r == self.minutes(),
    {
        match self {
            Time::Minute(m) => *m,
            Time::Hour(h) => scaled(*h, HOUR),
            Time::Day(d) => scaled(*d, DAY),
            Time::Month(m) => scaled(*m, MONTH),
            Time::Year(y) => scaled(*y, YEAR),
        }
    }

    /// The same count of the same unit, with the opposite sign.
    pub open spec fn negated(self) -> Time {
        match self {
            Time::Minute(m) => Time::Minute(clamp(-m) as i64),
            Time::Hour(h) => Time::Hour(clamp(-h) as i64),
            Time::Day(d) => Time::Day(clamp(-d) as i64),
            Time::Month(m) => Time::Month(clamp(-m) as i64),
            Time::Year(y) => Time::Year(clamp(-y) as i64),
        }
    }

    /// The same count of the same unit, with the opposite sign.
    pub fn negate(&self) -> (r: Time)
        ensures
            r == self.negated(),
    {
        match self {
            Time::Minute(m) => Time::Minute(negate_count(*m)),
            Time::Hour(h) => Time::Hour(negate_count(*h)),
            Time::Day(d) => Time::Day(negate_count(*d)),
            Time::Month(m) => Time::Month(negate_count(*m)),
            Time::Year(y) => Time::Year(negate_count(*y)),
        }
    }
}

impl PartialEq for Time {
    fn eq(&self, other: &Self) -> (r: bool) {
        self.to_minutes() == other.to_minutes()
    }
}

impl PartialEqSpecImpl for Time {
    open spec fn obeys_eq_spec() -> bool {
        true
    }

    open spec fn eq_spec(&self, other: &Self) -> bool {
        self.minutes() == other.minutes()
    }
}

impl AddSpecImpl for Time {
    open spec fn obeys_add_spec() -> bool {
        true
    }

    open spec fn add_req(self, rhs: Time) -> bool {
        true
    }

    open spec fn add_spec(self, rhs: Time) -> Time {
        Time::Minute(clamp(self.minutes() + rhs.minutes()) as i64)
    }
}

impl core::ops::Add for Time {
    type Output = Time;

    /// The two durations together, in minutes.
    fn add(self, rhs: Time) -> (r: Time) {
        Time::Minute(add_minutes(self.to_minutes(), rhs.to_minutes()))
    }
}

impl NegSpecImpl for Time {
    open spec fn obeys_neg_spec() -> bool {
        true
    }

    open spec fn neg_req(self) -> bool {
        true
    }

    open spec fn neg_spec(self) -> Time {
        self.negated()
    }
}

impl core::ops::Neg for Time {
    type Output = Time;

    /// The same count of the same unit, with the opposite sign.
    fn neg(self) -> (r: Time) {
        self.negate()
    }
}

/// One part of a duration as it is shown: the count, the unit, and an `s`
/// unless the count is one. A count of zero has no part.
pub open spec fn part_text(count: int, unit: Seq<char>) -> Seq<Seq<char>> {
    if count <= 0 {
        Seq::empty()
    } else if count == 1 {
        seq![decimal(1) + " "@ + unit]
    } else {
        seq![decimal(count as nat) + " "@ + unit + "s"@]
    }
}

/// The parts of a duration of `minutes` minutes: as many years as fit, then
/// months, days and hours, and the minutes that are left.
pub open spec fn duration_parts(minutes: int) -> Seq<Seq<char>> {
    let years = minutes / 124800;
    let after_years = minutes - years * 124800;
    let months = after_years / 9600;
    let after_months = after_years - months * 9600;
    let days = after_months / 480;
    let after_days = after_months - days * 480;
    let hours = after_days / 60;
    let left = after_days - hours * 60;
    part_text(years, "year"@) + part_text(months, "month"@) + part_text(days, "day"@)
        + part_text(hours, "hour"@) + part_text(left, "minute"@)
}

/// How a duration of `minutes` minutes is shown. A duration of no minutes,
/// or of less, is shown as the empty text.
pub open spec fn duration_text(minutes: int) -> Seq<char> {
    if minutes <= 0 {
        Seq::empty()
    } else {
        join_with(duration_parts(minutes), " "@)
    }
}

/// Appends one part of a duration to `out`, after a space where parts came
/// before. `first` says whether none did, and the result says it of the next part.
fn push_part(
    out: &mut String,
    count: i64,
    unit: &str,
    first: bool,
    Ghost(parts): Ghost<Seq<Seq<char>>>,
) -> (next_first: bool)
    requires
        old(out)@ == join_with(parts, " "@),
        first == (parts.len() == 0),
        0 <= count,
    ensures
        final(out)@ == join_with(parts + part_text(count as int, unit@), " "@),
        next_first == ((parts + part_text(count as int, unit@)).len() == 0),
{
    if count > 0 {
        let ghost added = part_text(count as int, unit@);
        if !first {
            push_text(out, " ");
        }
        push_decimal(out, count as u64);
        push_text(out, " ");
        push_text(out, unit);
        if count != 1 {
            push_text(out, "s");
        }
        proof {
            let all = parts + added;
            assert(all.drop_last() == parts);
        }
        false
    } else {
        first
    }
}

impl Time {
    /// How the duration is shown: its years, months, days, hours and
    /// minutes, largest first, without the units of which it has none.
    pub fn to_string(&self) -> (r: String)
        ensures
            r@ == duration_text(self.minutes()),
    {
        let minutes = self.to_minutes();
        let mut out = String::new();
        if minutes <= 0 {
            return out;
        }
        let years = minutes / YEAR;
        let after_years = minutes - years * YEAR;
        let months = after_years / MONTH;
        let after_months = after_years - months * MONTH;
        let days = after_months / DAY;
        let after_days = after_months - days * DAY;
        let hours = after_days / HOUR;
        let left = after_days - hours * HOUR;
        let ghost no_parts = Seq::<Seq<char>>::empty();
        let ghost to_years = no_parts + part_text(years as int, "year"@);
        let ghost to_months = to_years + part_text(months as int, "month"@);
        let ghost to_days = to_months + part_text(days as int, "day"@);
        let ghost to_hours = to_days + part_text(hours as int, "hour"@);
        let first = push_part(&mut out, years, "year", true, Ghost(no_parts));
        let first = push_part(&mut out, months, "month", first, Ghost(to_years));
        let first = push_part(&mut out, days, "day", first, Ghost(to_months));
        let first = push_part(&mut out, hours, "hour", first, Ghost(to_days));
        let _ = push_part(&mut out, left, "minute", first, Ghost(to_hours));
        assert(to_hours + part_text(left as int, "minute"@) == duration_parts(minutes as int));
        out
    }
}

/// Whether `c` is one of the ten digits.
pub open spec fn is_digit(c: char) -> bool {
    '0' <= c && c <= '9'
}

/// The number that the digit `c` stands for.
pub open spec fn digit_value(c: char) -> nat {
    (c as int - '0' as int) as nat
}

/// Whether `s` holds digits only.
pub open spec fn all_digits(s: Seq<char>) -> bool {
    forall|i: int| 0 <= i < s.len() ==> is_digit(#[trigger] s[i])
}

/// The number that the digits `s` write in base ten.
pub open spec fn digits_value(s: Seq<char>) -> nat
    decreases s.len(),
{
    if s.len() == 0 {
        0
    } else {
        digits_value(s.drop_last()) * 10 + digit_value(s.last())
    }
}

/// The duration of `count` times the unit that `unit` names, if it names one:
/// `m` a minute, `h` an hour, `d` a day, `M` a month, `y` a year.
pub open spec fn time_of(count: i64, unit: char) -> Option<Time> {
    if unit == 'm' {
        Some(Time::Minute(count))
    } else if unit == 'h' {
        Some(Time::Hour(count))
    } else if unit == 'd' {
        Some(Time::Day(count))
    } else if unit == 'M' {
        Some(Time::Month(count))
    } else if unit == 'y' {
        Some(Time::Year(count))
    } else {
        None
    }
}

/// The duration that `s` writes: one digit or more, which give a count of
/// at most 2147483647, and then the letter of a unit. Any other text writes none.
pub open spec fn parse_time(s: Seq<char>) -> Option<Time> {
    if s.len() >= 2 && all_digits(s.drop_last()) && digits_value(s.drop_last()) <= i32::MAX {
        time_of(digits_value(s.drop_last()) as i64, s.last())
    } else {
        None
    }
}

/// More digits never write a smaller number.
pub proof fn lemma_digits_value_grows(s: Seq<char>, k: int)
    requires
        0 <= k <= s.len(),
    ensures
        digits_value(s.take(k)) <= digits_value(s),
    decreases s.len() - k,
{
    if k < s.len() {
        lemma_digits_value_grows(s.drop_last(), k);
        assert(s.drop_last().take(k) == s.take(k));
    } else {
        assert(s.take(k) == s);
    }
}

impl Time {
    /// Reads a duration such as `4d` or `90m`.
    pub fn parse(input: &str) -> (r: Option<Time>)
        ensures
            r == parse_time(input@),
    {
        let text = chars_of(input);
        if text.len() < 2 {
            return None;
        }
        let n: usize = text.len() - 1;
        let ghost digits = text@.drop_last();
        let mut count: i64 = 0;
        let mut i: usize = 0;
        while i < n
            invariant
                i <= n,
                n == text@.len() - 1,
                text@ == input@,
                text@.len() >= 2,
                digits == text@.drop_last(),
                all_digits(digits.take(i as int)),
                count == digits_value(digits.take(i as int)),
                count <= i32::MAX,
            decreases n - i,
        {
            let c = text[i];
            assert(digits[i as int] == c);
            assert(digits.take(i + 1).drop_last() == digits.take(i as int));
            if !('0' <= c && c <= '9') {
                return None;
            }
            let d: i64 = (c as u32 - '0' as u32) as i64;
            count = count * 10 + d;
            if count > i32::MAX as i64 {
                proof {
                    lemma_digits_value_grows(digits, i + 1);
                }
                return None;
            }
            i += 1;
        }
        assert(digits.take(n as int) == digits);
        let unit = text[n];
        if unit == 'm' {
            Some(Time::Minute(count))
        } else if unit == 'h' {
            Some(Time::Hour(count))
        } else if unit == 'd' {
            Some(Time::Day(count))
        } else if unit == 'M' {
            Some(Time::Month(count))
        } else if unit == 'y' {
            Some(Time::Year(count))
        } else {
            None
        }
    }
}

} // verus!
