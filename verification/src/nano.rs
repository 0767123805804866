//! The boundary between stored integers and in-process decimals.
//!
//! Money is a decimal everywhere it is computed and an integer everywhere it is
//! stored, and this module is the only place where the two meet.
use vstd::prelude::*;

use crate::decimal::{
    decimal_product, fits_i64, pow10, pow10_adds, pow10_positive, rounded, same_number, Decimal,
    MAX_MANTISSA,
};

verus! {

/// Nano-units per whole unit.
pub const NANO: i64 = 1_000_000_000;

/// Stored integer to decimal. Always exact, and without the zeros that are an
/// artefact of storage.
pub fn to_decimal(nano: i64) -> (d: Decimal)
    ensures
        same_number(d@, (nano as i128, 9u32)),
        d@.1 <= 9,
        d@.0 == 0 ==> d@.1 == 0,
        d@.1 > 0 ==> d@.0 % 10 != 0,
{
    Decimal::new(nano, 9).normalize()
}

/// What is stored for a decimal: its product with the nano-units per unit,
/// rounded to the nearest whole number with a half going to the even one;
/// nothing where that does not fit.
pub open spec fn stored_nano(d: (i128, u32)) -> Option<i64> {
    match decimal_product(d, (NANO as i128, 0u32)) {
        None => None,
        Some(scaled) => fits_i64(rounded(scaled.0 as int, scaled.1 as nat)),
    }
}

/// Decimal to stored integer; `None` when the value will not fit.
///
/// An amount that was read from storage is stored again as what it was.
pub fn from_decimal(value: Decimal) -> (r: Option<i64>)
    ensures
        r == stored_nano(value@),
        forall|nano: i64|
            #[trigger] same_number(value@, (nano as i128, 9u32)) && value@.1 <= 9 ==> r == Some(
                nano,
            ),
{
    let scaled = match value.checked_mul(Decimal::new(NANO, 0)) {
        Some(s) => s,
        None => {
            proof {
                assert forall|nano: i64| #[trigger] same_number(value@, (nano as i128, 9u32))
                    && value@.1 <= 9 implies false by {
                    exact_product(value@, nano);
                }
            }
            return None;
        },
    };
    let whole = scaled.round();
    proof {
        assert forall|nano: i64| #[trigger] same_number(value@, (nano as i128, 9u32)) && value@.1
            <= 9 implies rounded(scaled@.0 as int, scaled@.1 as nat) == nano by {
            exact_product(value@, nano);
            let p = ((value@.0 * NANO) as i128, value@.1);
            assert(p.0 == 0 ==> 0 * pow10(p.1 as nat) == 0 * pow10(0)) by (nonlinear_arith);
            assert(same_number(scaled@, p));
            exact_rounding(value@, scaled@, nano);
        }
    }
    whole.to_i64()
}

/// The mantissa of a nano amount, written with at most nine digits behind the
/// point, is small enough for an exact product.
proof fn exact_product(v: (i128, u32), nano: i64)
    requires
        same_number(v, (nano as i128, 9u32)),
        v.1 <= 9,
    ensures
        v.0 * pow10((9 - v.1) as nat) == nano,
        -MAX_MANTISSA <= v.0 * NANO <= MAX_MANTISSA,
{
    let p = pow10(v.1 as nat) as int;
    let q = pow10((9 - v.1) as nat) as int;
    let m = v.0 as int;
    let n = nano as int;
    pow10_adds(v.1 as nat, (9 - v.1) as nat);
    pow10_positive(v.1 as nat);
    pow10_positive((9 - v.1) as nat);
    assert(pow10(9) == 1_000_000_000) by {
        reveal_with_fuel(pow10, 10);
    }
    assert(m * pow10(9) == n * p);
    assert((m * q) * p == n * p) by (nonlinear_arith)
        requires
            m * 1_000_000_000 == n * p,
            p * q == 1_000_000_000,
    ;
    assert(m * q == n) by (nonlinear_arith)
        requires
            (m * q) * p == n * p,
            p >= 1,
    ;
    assert(m <= n || m <= 0) by (nonlinear_arith)
        requires
            m * q == n,
            q >= 1,
    ;
    assert(m >= n || m >= 0) by (nonlinear_arith)
        requires
            m * q == n,
            q >= 1,
    ;
}

/// A number that is whole already rounds to itself.
proof fn exact_rounding(v: (i128, u32), scaled: (i128, u32), nano: i64)
    requires
        v.1 <= 9,
        v.0 * pow10((9 - v.1) as nat) == nano,
        same_number(scaled, ((v.0 * NANO) as i128, v.1)),
        -MAX_MANTISSA <= v.0 * NANO <= MAX_MANTISSA,
    ensures
        rounded(scaled.0 as int, scaled.1 as nat) == nano,
{
    let p = pow10(v.1 as nat) as int;
    let q = pow10((9 - v.1) as nat) as int;
    let m = v.0 as int;
    let u = pow10(scaled.1 as nat) as int;
    let sm = scaled.0 as int;
    pow10_adds(v.1 as nat, (9 - v.1) as nat);
    pow10_positive(v.1 as nat);
    pow10_positive(scaled.1 as nat);
    assert(pow10(9) == 1_000_000_000) by {
        reveal_with_fuel(pow10, 10);
    }
    assert(sm * p == (m * 1_000_000_000) * u);
    assert(sm == nano * u) by (nonlinear_arith)
        requires
            sm * p == (m * 1_000_000_000) * u,
            p * q == 1_000_000_000,
            m * q == nano,
            p >= 1,
    {
        assert((m * (p * q)) * u == ((m * q) * u) * p);
        assert(sm * p == (nano * u) * p);
    }
    assert(sm / u == nano && sm % u == 0) by {
        vstd::arithmetic::div_mod::lemma_fundamental_div_mod_converse(sm, u, nano as int, 0);
    }
}

} // verus!
