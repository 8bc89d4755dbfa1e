//! Strict reading of a JSON document that holds two arbitrary-precision
//! unsigned integers, `p` and `q`.
//!
//! A document is one JSON object with exactly the members `p` and `q`, in
//! either order and in either case. Each value is a JSON string of decimal
//! digits or a bare JSON number of decimal digits; its text is taken
//! without loss and converted to a `num_bigint::BigUint`. Everything else
//! is rejected with an error that says what was wrong and where: no member
//! is ignored, and no number is ever made up.
//!
//! The work is done in layers, each with a contract that Verus checks:
//!
//! - [`decimal`]: which texts are numerals, and what number each denotes;
//! - [`natural`]: the conversion of a numeral to a `BigUint`;
//! - [`field`]: the two member names;
//! - [`value`]: a member's value and the extraction of its text;
//! - [`record`]: the slot-filling parser over the members of an object;
//! - [`json`]: the tokens of a document, delimited and decoded by
//!   `serde_json`;
//! - [`document`]: the framing of the object, and the whole parse;
//! - [`theorems`]: what holds of the parser on every input.
//!
//! Three calls are trusted and not proved: where `serde_json` finds the end
//! of a value, what it decodes a string to, and the number that
//! `num_bigint` reads from a run of digits. Each stands in a private
//! function whose comment says what is taken on trust.

pub mod decimal;
pub mod document;
pub mod error;
pub mod field;
pub mod json;
pub mod natural;
pub mod record;
pub mod theorems;
pub mod value;
