//! Numbers. A number travels through the library as the 64 bits of its
//! binary floating-point encoding: a sign bit, eleven bits of exponent and
//! fifty-two of fraction. What can be read off the bits is done here: order,
//! equality, the sign. Reading, adding and writing numbers is floating-point
//! arithmetic, which the library leaves to its caller, behind `Floats`.
use vstd::prelude::*;

verus! {

/// The sign bit.
pub const SIGN_BIT: u64 = 0x8000_0000_0000_0000;

/// The bits of positive infinity: every larger magnitude is not a number.
pub const INFINITY_BITS: u64 = 0x7FF0_0000_0000_0000;

/// The bits of the number zero.
pub const ZERO_BITS: u64 = 0;

/// The floating-point operations that the library needs and cannot perform.
/// Nothing is assumed of an implementation: where a result of one of these
/// enters a value, the contracts say of which call it is the result.
pub trait Floats {
    /// The bits of the number that `text` writes, if it writes one.
    fn parse(&self, text: &str) -> Option<u64>;

    /// The bits of the sum of the numbers with the bits `a` and `b`.
    fn sum(&self, a: u64, b: u64) -> u64;

    /// The number with the given bits, written out.
    fn show(&self, bits: u64) -> String;
}

/// The bits without the sign bit.
pub open spec fn magnitude(bits: u64) -> int {
    if bits >= SIGN_BIT {
        bits - SIGN_BIT
    } else {
        bits as int
    }
}

/// Whether the bits encode no number.
pub open spec fn is_nan(bits: u64) -> bool {
    magnitude(bits) > INFINITY_BITS
}

/// An integer that orders the bits as the numbers they encode are ordered:
/// among numbers, the smaller number has the smaller key, and the two zeros
/// have the same. What is not a number has one key, above all others.
pub open spec fn number_key(bits: u64) -> int {
    if is_nan(bits) {
        SIGN_BIT as int
    } else if bits >= SIGN_BIT {
        -magnitude(bits)
    } else {
        magnitude(bits)
    }
}

/// Whether the bits encode equal numbers. What is not a number equals nothing.
pub open spec fn numbers_equal(a: u64, b: u64) -> bool {
    !is_nan(a) && !is_nan(b) && number_key(a) == number_key(b)
}

/// The bits with the sign bit flipped: the bits of the negated number.
pub open spec fn negated_bits(bits: u64) -> u64 {
    if bits >= SIGN_BIT {
        (bits - SIGN_BIT) as u64
    } else {
        (bits + SIGN_BIT) as u64
    }
}

/// What is not a number has the largest key of all, so it sorts last.
pub proof fn lemma_nan_is_greatest(a: u64, b: u64)
    requires
        is_nan(a),
    ensures
        number_key(b) <= number_key(a),
        is_nan(b) <==> number_key(b) == number_key(a),
{
}

/// Negating a number turns the order around, and leaves what is not a number as it is.
pub proof fn lemma_negation_reverses(a: u64, b: u64)
    requires
        !is_nan(a),
        !is_nan(b),
    ensures
        number_key(negated_bits(a)) == -number_key(a),
        number_key(a) <= number_key(b) <==> number_key(negated_bits(b)) <= number_key(
            negated_bits(a),
        ),
        forall|c: u64| is_nan(c) ==> is_nan(#[trigger] negated_bits(c)),
{
}

/// Whether the bits encode no number.
pub fn nan(bits: u64) -> (r: bool)
    ensures
        r == is_nan(bits),
{
    if bits >= SIGN_BIT {
        bits - SIGN_BIT > INFINITY_BITS
    } else {
        bits > INFINITY_BITS
    }
}

/// The key by which the bits are ordered, see `number_key`.
pub fn key(bits: u64) -> (r: i128)
    ensures
        r == number_key(bits),
{
    if nan(bits) {
        SIGN_BIT as i128
    } else if bits >= SIGN_BIT {
        -((bits - SIGN_BIT) as i128)
    } else {
        bits as i128
    }
}

/// The bits of the negated number.
pub fn negate_bits(bits: u64) -> (r: u64)
    ensures
        r == negated_bits(bits),
{
    if bits >= SIGN_BIT {
        bits - SIGN_BIT
    } else {
        bits + SIGN_BIT
    }
}

/// Whether the bits encode equal numbers.
pub fn equal_numbers(a: u64, b: u64) -> (r: bool)
    ensures
        r == numbers_equal(a, b),
{
    !nan(a) && !nan(b) && key(a) == key(b)
}

} // verus!
