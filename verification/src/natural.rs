//! The arbitrary-precision unsigned integer that a parsed member holds,
//! and its construction from decimal text.

use crate::decimal::{check_decimal, decimal_value, is_decimal};
use num_bigint::BigUint;
use std::str::FromStr;
use vstd::prelude::*;

verus! {

/// `num_bigint::BigUint`, carried through this library as an opaque value.
#[verifier::external_type_specification]
#[verifier::external_body]
pub struct ExBigUint(num_bigint::BigUint);

/// The natural number that a `BigUint` holds.
pub uninterp spec fn biguint_value(n: BigUint) -> nat;

/// Calls `<BigUint as FromStr>::from_str`, which reads `text` in radix 10.
///
/// Trusted: on a non-empty text of ASCII digits the call succeeds, and the
/// number it returns is the one that the numeral denotes. Nothing is claimed
/// for any other text (the call also takes a leading `+` and `_` between
/// digits, which this library never hands it).
#[verifier::external_body]
fn biguint_from_decimal(text: &str) -> (r: Option<BigUint>)
    ensures
        is_decimal(text@) ==> r is Some && biguint_value(r->0) == decimal_value(text@),
{
    BigUint::from_str(text).ok()
}

/// Converts an unsigned decimal numeral into the number it denotes, or
/// returns `None` when `text` is not such a numeral.
pub fn parse_natural(text: &str) -> (r: Option<BigUint>)
    ensures
        r is Some <==> is_decimal(text@),
        r matches Some(n) ==> biguint_value(n) == decimal_value(text@),
{
    if check_decimal(text) {
        biguint_from_decimal(text)
    } else {
        None
    }
}

} // verus!
