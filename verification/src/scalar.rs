//! Single-precision numbers as bit patterns.
//!
//! A number is carried as the `u32` that holds its IEEE-754 encoding: the
//! sign in the top bit, then eight bits of exponent and twenty-three of
//! fraction.  What the bits mean is said by [`scaled`].  The functions here
//! compare and clamp by looking at the bits alone, and are proved to do to
//! the number what their names say.
use vstd::arithmetic::power2::{
    lemma2_to64, lemma_pow2_adds, lemma_pow2_pos, lemma_pow2_strictly_increases, pow2,
};
use vstd::prelude::*;

verus! {

/// Bit pattern of `0.0`.
pub const ZERO: u32 = 0;

/// Bit pattern of `1.0`.
pub const ONE: u32 = 0x3F80_0000;

/// Bit pattern of `-1.0`.
pub const MINUS_ONE: u32 = 0xBF80_0000;

/// The sign bit.
pub const SIGN: u32 = 0x8000_0000;

/// Bit pattern of positive infinity.
pub const INFINITY: u32 = 0x7F80_0000;

/// The encoding without its sign.
pub open spec fn magnitude(bits: u32) -> u32 {
    bits & !SIGN
}

/// Whether the sign bit is set.
pub open spec fn is_negative(bits: u32) -> bool {
    bits & SIGN != 0
}

/// The exponent field.
pub open spec fn exponent(bits: u32) -> nat {
    (magnitude(bits) >> 23) as nat
}

/// The fraction field.
pub open spec fn fraction(bits: u32) -> nat {
    (bits & 0x007F_FFFF) as nat
}

/// Whether the encoding is that of a NaN: the exponent field is full, and
/// the fraction is not zero.
pub open spec fn is_nan(bits: u32) -> bool {
    magnitude(bits) > INFINITY
}

/// The magnitude of the number that the bits encode, times two to the power
/// of 149, which makes an integer of it: a number with the exponent field
/// `e` above zero and the fraction `f` has the magnitude
/// `(2^23 + f) * 2^(e - 150)`, and one with the exponent field zero has
/// `f * 2^(-149)`.  Infinity and the NaNs are read as if their exponent
/// field were that of a number, so that infinity comes out above every
/// number.
pub open spec fn scaled_magnitude(bits: u32) -> nat {
    if exponent(bits) == 0 {
        fraction(bits)
    } else {
        (0x80_0000 + fraction(bits)) * pow2((exponent(bits) - 1) as nat)
    }
}

/// The number that the bits encode, times two to the power of 149.
pub open spec fn scaled(bits: u32) -> int {
    if is_negative(bits) {
        -(scaled_magnitude(bits) as int)
    } else {
        scaled_magnitude(bits) as int
    }
}

/// The number one on the scale of [`scaled`].
pub open spec fn scaled_one() -> int {
    pow2(149) as int
}

/// Whether the bits encode a number that is at most one.
pub open spec fn at_most_one(bits: u32) -> bool {
    !is_nan(bits) && scaled(bits) <= scaled_one()
}

/// Whether the bits encode a number between minus one and one.
pub open spec fn in_unit_interval(bits: u32) -> bool {
    !is_nan(bits) && -scaled_one() <= scaled(bits) <= scaled_one()
}

/// The encoding of the opposite number: the same bits under the other sign.
pub open spec fn negated(bits: u32) -> u32 {
    bits ^ SIGN
}

/// What clamping to the interval from minus one to one gives: a number
/// above one becomes one, a number below minus one becomes minus one, and
/// everything else, a NaN too, stays as it is, bit for bit.
pub open spec fn clamped_unit(bits: u32) -> u32 {
    if is_nan(bits) {
        bits
    } else if scaled(bits) > scaled_one() {
        ONE
    } else if scaled(bits) < -scaled_one() {
        MINUS_ONE
    } else {
        bits
    }
}

/// The opposite number.
pub fn negate(bits: u32) -> (r: u32)
    ensures
        r == negated(bits),
        scaled(r) == -scaled(bits),
{
    proof {
        lemma_negated(bits);
    }
    bits ^ SIGN
}

/// Tells whether a number is at most one.  Of a squared distance from the
/// origin it says whether the point lies on the unit disk, its rim included,
/// so that one minus the number has a square root.
pub fn within_unit(bits: u32) -> (yes: bool)
    ensures
        yes == at_most_one(bits),
{
    proof {
        lemma_compared_with_one(bits);
    }
    let m = bits & !SIGN;
    m <= INFINITY && (bits & SIGN != 0 || m <= ONE)
}

/// Clamps a number to the interval from minus one to one, so that its
/// inverse cosine is defined whenever it is a number at all.
pub fn clamp_unit(bits: u32) -> (r: u32)
    ensures
        r == clamped_unit(bits),
        is_nan(bits) || in_unit_interval(r),
{
    proof {
        lemma_compared_with_one(bits);
        lemma_clamped_unit(bits);
    }
    let m = bits & !SIGN;
    if m > INFINITY || m <= ONE {
        bits
    } else if bits & SIGN != 0 {
        MINUS_ONE
    } else {
        ONE
    }
}

/// The bits split into sign, exponent and fraction.
proof fn lemma_fields(bits: u32)
    ensures
        magnitude(bits) == exponent(bits) * 0x80_0000 + fraction(bits),
        exponent(bits) < 256,
        fraction(bits) < 0x80_0000,
        exponent(bits) == exponent(magnitude(bits)),
        fraction(bits) == fraction(magnitude(bits)),
{
    let m = bits & !0x8000_0000u32;
    assert(m == (m >> 23) * 0x80_0000 + (bits & 0x007F_FFFFu32)) by (bit_vector)
        requires
            m == bits & !0x8000_0000u32,
    ;
    assert((m >> 23) < 256) by (bit_vector)
        requires
            m == bits & !0x8000_0000u32,
    ;
    assert((bits & 0x007F_FFFFu32) < 0x80_0000) by (bit_vector);
    assert(m & !0x8000_0000u32 == m) by (bit_vector)
        requires
            m == bits & !0x8000_0000u32,
    ;
    assert(m & 0x007F_FFFFu32 == bits & 0x007F_FFFFu32) by (bit_vector)
        requires
            m == bits & !0x8000_0000u32,
    ;
}

proof fn lemma_scaled_magnitude_step(a: u32, b: u32)
    requires
        magnitude(a) < magnitude(b),
    ensures
        scaled_magnitude(a) < scaled_magnitude(b),
{
    lemma_fields(a);
    lemma_fields(b);
    let (ea, fa) = (exponent(a), fraction(a));
    let (eb, fb) = (exponent(b), fraction(b));
    assert(ea <= eb) by (nonlinear_arith)
        requires
            ea * 0x80_0000 + fa < eb * 0x80_0000 + fb,
            fb < 0x80_0000,
    ;
    if ea == eb {
        if ea > 0 {
            lemma_pow2_pos((ea - 1) as nat);
            assert((0x80_0000 + fa) * pow2((ea - 1) as nat) < (0x80_0000 + fb) * pow2(
                (ea - 1) as nat,
            )) by (nonlinear_arith)
                requires
                    fa < fb,
                    pow2((ea - 1) as nat) > 0,
            ;
        }
    } else {
        let high = pow2((eb - 1) as nat);
        lemma_pow2_pos((eb - 1) as nat);
        assert(0x80_0000 * high <= (0x80_0000 + fb) * high) by (nonlinear_arith)
            requires
                high > 0,
        ;
        if ea == 0 {
            assert(0x80_0000 <= 0x80_0000 * high) by (nonlinear_arith)
                requires
                    high > 0,
            ;
        } else {
            let low = pow2((ea - 1) as nat);
            lemma_pow2_pos((ea - 1) as nat);
            lemma_pow2_adds(1, (ea - 1) as nat);
            lemma2_to64();
            assert(pow2(ea) == 2 * low);
            if ea < eb - 1 {
                lemma_pow2_strictly_increases(ea, (eb - 1) as nat);
            }
            assert((0x80_0000 + fa) * low < 0x80_0000 * high) by (nonlinear_arith)
                requires
                    fa < 0x80_0000,
                    low > 0,
                    2 * low <= high,
            ;
        }
    }
}

/// The magnitude of a number grows with the lower thirty-one bits of its
/// encoding, read as an integer.
pub proof fn lemma_scaled_magnitude_grows(a: u32, b: u32)
    ensures
        magnitude(a) < magnitude(b) <==> scaled_magnitude(a) < scaled_magnitude(b),
        magnitude(a) == magnitude(b) <==> scaled_magnitude(a) == scaled_magnitude(b),
{
    lemma_fields(a);
    lemma_fields(b);
    if magnitude(a) < magnitude(b) {
        lemma_scaled_magnitude_step(a, b);
    } else if magnitude(b) < magnitude(a) {
        lemma_scaled_magnitude_step(b, a);
    } else {
        lemma_fields(magnitude(a));
    }
}

/// The constants are the numbers that they are named after.
pub proof fn lemma_scaled_constants()
    ensures
        scaled(ZERO) == 0,
        scaled(SIGN) == 0,
        scaled(ONE) == scaled_one(),
        scaled(MINUS_ONE) == -scaled_one(),
        scaled_one() > 0,
        !is_nan(ZERO) && !is_nan(SIGN) && !is_nan(ONE) && !is_nan(MINUS_ONE) && !is_nan(
            INFINITY,
        ),
        magnitude(ONE) == ONE,
        magnitude(MINUS_ONE) == ONE,
        is_negative(MINUS_ONE) && !is_negative(ONE),
{
    assert(0x3F80_0000u32 & !0x8000_0000u32 == 0x3F80_0000u32) by (bit_vector);
    assert(0xBF80_0000u32 & !0x8000_0000u32 == 0x3F80_0000u32) by (bit_vector);
    assert(0x7F80_0000u32 & !0x8000_0000u32 == 0x7F80_0000u32) by (bit_vector);
    assert(0x3F80_0000u32 & 0x8000_0000u32 == 0) by (bit_vector);
    assert(0xBF80_0000u32 & 0x8000_0000u32 != 0) by (bit_vector);
    assert(0x3F80_0000u32 >> 23 == 127) by (bit_vector);
    assert(0x3F80_0000u32 & 0x007F_FFFFu32 == 0) by (bit_vector);
    assert(0xBF80_0000u32 & 0x007F_FFFFu32 == 0) by (bit_vector);
    assert(0u32 & !0x8000_0000u32 == 0) by (bit_vector);
    assert(0x8000_0000u32 & !0x8000_0000u32 == 0) by (bit_vector);
    assert(0u32 >> 23 == 0) by (bit_vector);
    assert(0u32 & 0x007F_FFFFu32 == 0) by (bit_vector);
    assert(0x8000_0000u32 & 0x007F_FFFFu32 == 0) by (bit_vector);
    assert(0u32 & 0x8000_0000u32 == 0) by (bit_vector);
    lemma2_to64();
    lemma_pow2_adds(23, 126);
    lemma_pow2_pos(149);
    assert(pow2(23) == 0x80_0000);
}

/// How a number compares with one and with minus one can be read off its
/// bits: it is above one if it is positive with more in its lower bits than
/// one has, and below minus one if it is negative with more there.
pub proof fn lemma_compared_with_one(bits: u32)
    ensures
        scaled(bits) > scaled_one() <==> !is_negative(bits) && magnitude(bits) > ONE,
        scaled(bits) < -scaled_one() <==> is_negative(bits) && magnitude(bits) > ONE,
{
    lemma_scaled_constants();
    lemma_scaled_magnitude_grows(bits, ONE);
    lemma_scaled_magnitude_grows(ONE, bits);
}

/// Negating gives the opposite number, and gives the number back when done
/// twice; nothing but the sign changes.
pub proof fn lemma_negated(bits: u32)
    ensures
        scaled(negated(bits)) == -scaled(bits),
        negated(negated(bits)) == bits,
        magnitude(negated(bits)) == magnitude(bits),
        is_negative(negated(bits)) == !is_negative(bits),
        is_nan(negated(bits)) == is_nan(bits),
{
    assert((bits ^ 0x8000_0000u32) ^ 0x8000_0000u32 == bits) by (bit_vector);
    assert((bits ^ 0x8000_0000u32) & !0x8000_0000u32 == bits & !0x8000_0000u32) by (bit_vector);
    assert(((bits ^ 0x8000_0000u32) & 0x8000_0000u32 != 0) == !(bits & 0x8000_0000u32 != 0))
        by (bit_vector);
    lemma_scaled_magnitude_grows(bits, negated(bits));
}

/// A clamped number lies between minus one and one and is left alone by a
/// second clamping; a number that lay there already is not changed; only a
/// NaN comes out as a NaN.
pub proof fn lemma_clamped_unit(bits: u32)
    ensures
        is_nan(clamped_unit(bits)) == is_nan(bits),
        !is_nan(bits) ==> in_unit_interval(clamped_unit(bits)),
        in_unit_interval(bits) ==> clamped_unit(bits) == bits,
        clamped_unit(clamped_unit(bits)) == clamped_unit(bits),
        !is_nan(bits) ==> scaled(clamped_unit(bits)) == if scaled(bits) > scaled_one() {
            scaled_one()
        } else if scaled(bits) < -scaled_one() {
            -scaled_one()
        } else {
            scaled(bits)
        },
{
    lemma_scaled_constants();
}

} // verus!
