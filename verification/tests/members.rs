use num_bigint::BigUint;
use pq_json::error::ParseError;
use pq_json::field::FieldKey;
use pq_json::record::{parse_members, Accumulator, Record};
use pq_json::value::{extract_text, Member, ValueNode};
use std::str::FromStr;

fn big_number(text: &str) -> BigUint {
    BigUint::from_str(text).unwrap()
}

fn entry(key: &str, value: ValueNode) -> Member {
    Member { key: key.to_string(), value }
}

fn string_value(content: &str) -> ValueNode {
    ValueNode::Text(content.to_string())
}

fn number_value(lexical: &str) -> ValueNode {
    ValueNode::Numeral(lexical.to_string())
}

#[test]
fn two_valid_members_make_a_record() {
    let members = [entry("p", string_value("3")), entry("q", number_value("5"))];
    assert_eq!(
        parse_members(&members),
        Ok(Record { p: big_number("3"), q: big_number("5") })
    );
}

#[test]
fn record_holds_the_numbers_exactly() {
    let p = "1797693134862315907729305190789024733617976978942306572734300811577326758055009631327084773224075360211201138798713933576587897688144166224928474306394741243777678934248654852763022196012460941194530829520850057688381506823424628814739131105408272371633505106845862982399472459384797163048353563296242241372";
    let q = "16";
    let members = [entry("q", number_value(q)), entry("p", string_value(p))];
    let record = parse_members(&members).unwrap();
    assert_eq!(record.p.to_string(), p);
    assert_eq!(record.q, BigUint::from(16u32));
}

#[test]
fn no_members_miss_p() {
    assert_eq!(parse_members(&[]), Err(ParseError::MissingField(FieldKey::P)));
}

#[test]
fn lone_p_misses_q() {
    let members = [entry("P", number_value("1"))];
    assert_eq!(parse_members(&members), Err(ParseError::MissingField(FieldKey::Q)));
}

#[test]
fn lone_q_misses_p() {
    let members = [entry("Q", number_value("1"))];
    assert_eq!(parse_members(&members), Err(ParseError::MissingField(FieldKey::P)));
}

#[test]
fn third_member_is_unknown_or_duplicate() {
    let unknown =
        [entry("p", number_value("1")), entry("q", number_value("2")), entry("e", number_value("3"))];
    assert_eq!(parse_members(&unknown), Err(ParseError::UnknownField("e".to_string())));
    let duplicate =
        [entry("p", number_value("1")), entry("q", number_value("2")), entry("P", number_value("3"))];
    assert_eq!(parse_members(&duplicate), Err(ParseError::DuplicateField(FieldKey::P)));
}

#[test]
fn checks_run_in_order_for_each_member() {
    let members = [entry("p", number_value("1")), entry("p", ValueNode::Other)];
    assert_eq!(parse_members(&members), Err(ParseError::DuplicateField(FieldKey::P)));
    let members = [entry("p", ValueNode::Other), entry("zz", ValueNode::Other)];
    assert_eq!(parse_members(&members), Err(ParseError::UnexpectedValueType(FieldKey::P)));
    let members = [entry("q", string_value("1.0")), entry("q", string_value("1"))];
    assert_eq!(
        parse_members(&members),
        Err(ParseError::InvalidInteger(FieldKey::Q, "1.0".to_string()))
    );
}

#[test]
fn extractor_returns_string_content_verbatim() {
    let node = string_value(" 12 a");
    assert_eq!(extract_text(FieldKey::P, &node), Ok(" 12 a"));
}

#[test]
fn extractor_returns_numeral_as_written() {
    let node = number_value("12345678901234567890123456789012345678901234567890");
    assert_eq!(
        extract_text(FieldKey::Q, &node),
        Ok("12345678901234567890123456789012345678901234567890")
    );
    let node = number_value("1e2");
    assert_eq!(extract_text(FieldKey::Q, &node), Ok("1e2"));
}

#[test]
fn extractor_rejects_other_values_naming_the_field() {
    assert_eq!(
        extract_text(FieldKey::P, &ValueNode::Other),
        Err(ParseError::UnexpectedValueType(FieldKey::P))
    );
    assert_eq!(
        extract_text(FieldKey::Q, &ValueNode::Other),
        Err(ParseError::UnexpectedValueType(FieldKey::Q))
    );
}

#[test]
fn accumulator_fills_each_slot_once() {
    let mut acc = Accumulator::new();
    assert_eq!(acc.accept("q", &number_value("5")), Ok(()));
    assert_eq!(
        acc.accept("Q", &number_value("6")),
        Err(ParseError::DuplicateField(FieldKey::Q))
    );
    assert_eq!(acc.accept("p", &string_value("3")), Ok(()));
    assert_eq!(
        acc.accept("p", &string_value("3")),
        Err(ParseError::DuplicateField(FieldKey::P))
    );
    assert_eq!(acc.finish(), Ok(Record { p: big_number("3"), q: big_number("5") }));
}

#[test]
fn accumulator_is_unchanged_by_a_rejected_member() {
    let mut acc = Accumulator::new();
    assert_eq!(
        acc.accept("p", &string_value("x")),
        Err(ParseError::InvalidInteger(FieldKey::P, "x".to_string()))
    );
    assert_eq!(acc.accept("p", &ValueNode::Other), Err(ParseError::UnexpectedValueType(FieldKey::P)));
    assert_eq!(acc.accept("r", &string_value("1")), Err(ParseError::UnknownField("r".to_string())));
    assert_eq!(acc.accept("p", &string_value("8")), Ok(()));
    assert_eq!(acc.accept("q", &string_value("9")), Ok(()));
    assert_eq!(acc.finish(), Ok(Record { p: big_number("8"), q: big_number("9") }));
}

#[test]
fn fresh_accumulator_finishes_missing_p() {
    assert_eq!(Accumulator::new().finish(), Err(ParseError::MissingField(FieldKey::P)));
}

#[test]
fn accumulator_with_p_only_finishes_missing_q() {
    let mut acc = Accumulator::new();
    assert_eq!(acc.accept("p", &number_value("2")), Ok(()));
    assert_eq!(acc.finish(), Err(ParseError::MissingField(FieldKey::Q)));
}

#[test]
fn error_names_its_field() {
    assert_eq!(ParseError::MalformedJson.field(), None);
    assert_eq!(ParseError::UnknownField("r".to_string()).field(), None);
    assert_eq!(ParseError::DuplicateField(FieldKey::P).field(), Some(FieldKey::P));
    assert_eq!(ParseError::MissingField(FieldKey::Q).field(), Some(FieldKey::Q));
    assert_eq!(ParseError::UnexpectedValueType(FieldKey::Q).field(), Some(FieldKey::Q));
    assert_eq!(
        ParseError::InvalidInteger(FieldKey::P, "x".to_string()).field(),
        Some(FieldKey::P)
    );
}
