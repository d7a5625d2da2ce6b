use rust_decimal::prelude::FromPrimitive;
use rust_decimal::Decimal;
use vstd::prelude::*;

verus! {

/// The largest mantissa magnitude of a decimal number: 2^96 - 1.
pub const MAX_MANTISSA: i128 = 0xFFFF_FFFF_FFFF_FFFF_FFFF_FFFF;

/// The largest scale of a decimal number.
pub const MAX_SCALE: u32 = 28;

/// A decimal number as its mantissa and scale: the number is
/// `mantissa / 10^scale`.
#[derive(Clone, Copy, Debug, PartialEq, Eq, Structural)]
pub struct DecimalValue {
    pub mantissa: i128,
    pub scale: u32,
}

/// Ten to the power `n`.
pub open spec fn pow10(n: nat) -> int
    decreases n,
{
    if n == 0 {
        1
    } else {
        10 * pow10((n - 1) as nat)
    }
}

/// The magnitude of `x`.
pub open spec fn abs(x: int) -> int {
    if x < 0 {
        -x
    } else {
        x
    }
}

/// The mantissa and scale of the product of two decimal numbers, as the
/// `rust_decimal` crate rounds it to fit.
pub uninterp spec fn decimal_product(
    a_mantissa: int,
    a_scale: int,
    b_mantissa: int,
    b_scale: int,
) -> (int, int);

/// The mantissa and scale of the quotient of two decimal numbers, as the
/// `rust_decimal` crate rounds it to fit.
pub uninterp spec fn decimal_quotient(
    a_mantissa: int,
    a_scale: int,
    b_mantissa: int,
    b_scale: int,
) -> (int, int);

/// `d` is the quotient `num / den` up to one unit of its last digit:
/// `|d * den - num|` is at most `den` units of `d`'s last digit.
pub open spec fn within_one_unit(d: DecimalValue, num: int, den: int) -> bool {
    num * pow10(d.scale as nat) - den <= d.mantissa * den <= num * pow10(d.scale as nat) + den
}

impl DecimalValue {
    /// The mantissa fits in 96 bits and the scale is at most 28.
    pub open spec fn wf(self) -> bool {
        -MAX_MANTISSA <= self.mantissa <= MAX_MANTISSA && self.scale <= MAX_SCALE
    }

    /// The integer `n` as a decimal number.
    pub open spec fn integer(n: int) -> DecimalValue {
        DecimalValue { mantissa: n as i128, scale: 0 }
    }

    /// The exact product of the two numbers is at most the largest mantissa in
    /// magnitude.
    pub open spec fn product_fits(a: DecimalValue, b: DecimalValue) -> bool {
        abs(a.mantissa * b.mantissa) <= MAX_MANTISSA * pow10((a.scale + b.scale) as nat)
    }

    /// `b` is not zero and the exact quotient `a / b` is at most the largest
    /// mantissa in magnitude.
    pub open spec fn quotient_fits(a: DecimalValue, b: DecimalValue) -> bool {
        &&& b.mantissa != 0
        &&& abs(a.mantissa as int) * pow10(b.scale as nat) <= MAX_MANTISSA * abs(b.mantissa as int) * pow10(
            a.scale as nat,
        )
    }
}

/// `rust_decimal::Decimal::from_u64`: the integer `n` as a decimal number, with
/// scale zero (it is always `Some`, since every `u64` fits in 96 bits).
#[verifier::external_body]
pub(crate) fn decimal_from_u64(n: u64) -> (r: Option<DecimalValue>)
    ensures
        r == Some((DecimalValue { mantissa: n as i128, scale: 0 })),
{
    match Decimal::from_u64(n) {
        Some(d) => Some(DecimalValue { mantissa: d.mantissa(), scale: d.scale() }),
        None => None,
    }
}

/// `rust_decimal::Decimal` multiplication (`*`). The result is named by
/// `decimal_product`; the crate's source shows that it is zero with scale zero
/// when a factor is zero, and the exact product (mantissas multiplied, scales
/// added) when that fits in 96 bits with a scale of at most 28; otherwise it
/// rounds off digits. It panics when even the rounded product does not fit,
/// which an exact product below the largest mantissa rules out.
#[verifier::external_body]
pub(crate) fn decimal_mul(a: DecimalValue, b: DecimalValue) -> (r: DecimalValue)
    requires
        a.wf(),
        b.wf(),
        DecimalValue::product_fits(a, b),
    ensures
        r.wf(),
        (r.mantissa as int, r.scale as int) == decimal_product(
            a.mantissa as int,
            a.scale as int,
            b.mantissa as int,
            b.scale as int,
        ),
        a.mantissa * b.mantissa == 0 ==> r == (DecimalValue { mantissa: 0, scale: 0 }),
        a.mantissa * b.mantissa != 0 && abs(a.mantissa * b.mantissa) <= MAX_MANTISSA && a.scale
            + b.scale <= MAX_SCALE ==> r.mantissa == a.mantissa * b.mantissa && r.scale == a.scale
            + b.scale,
{
    let product = Decimal::from_i128_with_scale(a.mantissa, a.scale) * Decimal::from_i128_with_scale(
        b.mantissa,
        b.scale,
    );
    DecimalValue { mantissa: product.mantissa(), scale: product.scale() }
}

/// `rust_decimal::Decimal` division (`/`). The result is named by
/// `decimal_quotient`; the crate's source shows that it is zero with scale zero
/// when the dividend is zero, the exact quotient when the divisor's mantissa
/// divides the dividend's and the dividend's scale is not below the divisor's,
/// and otherwise the quotient rounded at a scale of at least zero, so never more
/// than one away from the exact quotient; a quotient by a power of ten that
/// needs a scale of at most 28 is exact, as the division scales the quotient up
/// until no remainder is left. Between integers the rounding, to the nearest
/// value at the final scale, leaves the quotient less than one unit of its last
/// digit away from the exact one. It panics on a zero divisor and on a quotient
/// that does not fit.
#[verifier::external_body]
pub(crate) fn decimal_div(a: DecimalValue, b: DecimalValue) -> (r: DecimalValue)
    requires
        a.wf(),
        b.wf(),
        DecimalValue::quotient_fits(a, b),
    ensures
        r.wf(),
        (r.mantissa as int, r.scale as int) == decimal_quotient(
            a.mantissa as int,
            a.scale as int,
            b.mantissa as int,
            b.scale as int,
        ),
        a.mantissa == 0 ==> r == (DecimalValue { mantissa: 0, scale: 0 }),
        a.mantissa != 0 && a.mantissa % b.mantissa == 0 && a.scale >= b.scale ==> r.mantissa
            == a.mantissa / b.mantissa && r.scale == a.scale - b.scale,
        forall|d: nat|
            #![trigger pow10(d)]
            a.scale + d <= MAX_SCALE && b.scale == 0 && b.mantissa == pow10(d) ==> r.mantissa
                * pow10((a.scale + d) as nat) == a.mantissa * pow10(r.scale as nat),
        abs(r.mantissa as int) * abs(b.mantissa as int) * pow10(a.scale as nat) <= (abs(a.mantissa as int) * pow10(
            b.scale as nat,
        ) + abs(b.mantissa as int) * pow10(a.scale as nat)) * pow10(r.scale as nat),
        a.scale == 0 && b.scale == 0 && a.mantissa >= 0 && b.mantissa > 0 ==> within_one_unit(
            r,
            a.mantissa as int,
            b.mantissa as int,
        ),
{
    let quotient = Decimal::from_i128_with_scale(a.mantissa, a.scale) / Decimal::from_i128_with_scale(
        b.mantissa,
        b.scale,
    );
    DecimalValue { mantissa: quotient.mantissa(), scale: quotient.scale() }
}

} // verus!
