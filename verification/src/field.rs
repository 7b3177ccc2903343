//! Arithmetic of the proving field, the integers modulo the Baby Bear prime.

use p3_baby_bear::BabyBear;
use p3_field::{PrimeCharacteristicRing, PrimeField64};
use vstd::prelude::*;

verus! {

/// The Baby Bear prime, `2^31 - 2^27 + 1`.
pub const BABY_BEAR_PRIME: u64 = 2013265921;

/// The canonical representative of the class of `a`.
pub open spec fn reduce(a: int) -> int {
    a % (BABY_BEAR_PRIME as int)
}

/// Sum in the field, as a canonical representative.
pub open spec fn field_add(a: int, b: int) -> int {
    reduce(a + b)
}

/// Difference in the field, as a canonical representative.
pub open spec fn field_sub(a: int, b: int) -> int {
    reduce(a - b)
}

/// Product in the field, as a canonical representative.
pub open spec fn field_mul(a: int, b: int) -> int {
    reduce(a * b)
}

/// Adds two field elements given by any of their representatives.
///
/// Trusted: `BabyBear::from_u64` maps an integer to its class modulo the
/// prime, `+` on `BabyBear` is addition in the field, and
/// `as_canonical_u64` gives the representative below the prime.
#[verifier::external_body]
pub(crate) fn add_in_field(a: u64, b: u64) -> (sum: u64)
    ensures
        sum == field_add(a as int, b as int),
{
    (BabyBear::from_u64(a) + BabyBear::from_u64(b)).as_canonical_u64()
}

/// Subtracts two field elements given by any of their representatives.
///
/// Trusted: `-` on `BabyBear` is subtraction in the field; the conversions
/// are those of [`add_in_field`].
#[verifier::external_body]
pub(crate) fn sub_in_field(a: u64, b: u64) -> (difference: u64)
    ensures
        difference == field_sub(a as int, b as int),
{
    (BabyBear::from_u64(a) - BabyBear::from_u64(b)).as_canonical_u64()
}

/// Multiplies two field elements given by any of their representatives.
///
/// Trusted: `*` on `BabyBear` is multiplication in the field; the
/// conversions are those of [`add_in_field`].
#[verifier::external_body]
pub(crate) fn mul_in_field(a: u64, b: u64) -> (product: u64)
    ensures
        product == field_mul(a as int, b as int),
{
    (BabyBear::from_u64(a) * BabyBear::from_u64(b)).as_canonical_u64()
}

} // verus!
