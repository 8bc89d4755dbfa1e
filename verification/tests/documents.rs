use num_bigint::BigUint;
use pq_json::document::{parse_document, read_members};
use pq_json::error::ParseError;
use pq_json::field::FieldKey;
use pq_json::record::Record;
use pq_json::value::{Member, ValueNode};
use std::str::FromStr;

fn big(text: &str) -> BigUint {
    BigUint::from_str(text).unwrap()
}

fn record(p: &str, q: &str) -> Record {
    Record { p: big(p), q: big(q) }
}

fn member(key: &str, value: ValueNode) -> Member {
    Member { key: key.to_string(), value }
}

fn text(content: &str) -> ValueNode {
    ValueNode::Text(content.to_string())
}

fn numeral(lexical: &str) -> ValueNode {
    ValueNode::Numeral(lexical.to_string())
}

#[test]
fn string_members_round_trip() {
    let parsed = parse_document(br#"{"p":"3","q":"5"}"#);
    assert_eq!(parsed, Ok(record("3", "5")));
}

#[test]
fn three_hundred_digit_string_round_trips() {
    let mut p = String::from("9");
    let mut q = String::from("1");
    for i in 0..299 {
        p.push(char::from(b'0' + (i % 10) as u8));
        q.push(char::from(b'0' + ((i * 7 + 3) % 10) as u8));
    }
    assert_eq!(p.len(), 300);
    let document = format!("{{\"p\":\"{}\",\"q\":\"{}\"}}", p, q);
    let parsed = parse_document(document.as_bytes()).unwrap();
    assert_eq!(parsed.p.to_string(), p);
    assert_eq!(parsed.q.to_string(), q);
    assert_eq!(parsed, record(&p, &q));
}

#[test]
fn numeral_members_keep_every_digit() {
    let parsed = parse_document(br#"{"p":12345678901234567890,"q":2}"#).unwrap();
    assert_eq!(parsed.p, big("12345678901234567890"));
    assert_eq!(parsed.q, BigUint::from(2u32));
    assert_eq!(parsed.p.to_string(), "12345678901234567890");
}

#[test]
fn numeral_beyond_any_machine_integer() {
    let digits = "340282366920938463463374607431768211456340282366920938463463374607431768211457";
    let document = format!("{{\"p\":{},\"q\":{}}}", digits, digits);
    let parsed = parse_document(document.as_bytes()).unwrap();
    assert_eq!(parsed.p.to_string(), digits);
    assert_eq!(parsed.q.to_string(), digits);
}

#[test]
fn string_and_numeral_may_be_mixed() {
    assert_eq!(parse_document(br#"{"p":"7","q":11}"#), Ok(record("7", "11")));
    assert_eq!(parse_document(br#"{"p":7,"q":"11"}"#), Ok(record("7", "11")));
}

#[test]
fn keys_are_case_insensitive() {
    let upper = parse_document(br#"{"P":"3","q":"5"}"#);
    let lower = parse_document(br#"{"p":"3","q":"5"}"#);
    assert_eq!(upper, Ok(record("3", "5")));
    assert_eq!(upper, lower);
    assert_eq!(parse_document(br#"{"P":"3","Q":"5"}"#), lower);
    assert_eq!(parse_document(br#"{"p":"3","Q":"5"}"#), lower);
}

#[test]
fn members_may_come_in_either_order() {
    assert_eq!(parse_document(br#"{"q":"5","p":"3"}"#), Ok(record("3", "5")));
}

#[test]
fn whitespace_between_tokens_is_ignored() {
    let document = b" \t\r\n{ \n \"p\" \t: \r\"3\" ,\n\n \"q\"\t:\t5 \r\n} \n\t ";
    assert_eq!(parse_document(document), Ok(record("3", "5")));
}

#[test]
fn zero_is_a_number() {
    assert_eq!(parse_document(br#"{"p":0,"q":"0"}"#), Ok(record("0", "0")));
}

#[test]
fn leading_zeros_in_a_string_are_accepted() {
    assert_eq!(parse_document(br#"{"p":"007","q":"00"}"#), Ok(record("7", "0")));
}

#[test]
fn escaped_key_is_decoded_before_matching() {
    assert_eq!(parse_document(br#"{"\u0070":"3","\u0051":"5"}"#), Ok(record("3", "5")));
}

#[test]
fn escaped_digits_in_a_string_are_decoded() {
    assert_eq!(parse_document(br#"{"p":"\u0034\u0032","q":"5"}"#), Ok(record("42", "5")));
}

#[test]
fn unknown_field_is_rejected() {
    assert_eq!(
        parse_document(br#"{"p":"3","q":"5","r":"7"}"#),
        Err(ParseError::UnknownField("r".to_string()))
    );
}

#[test]
fn unknown_field_keeps_the_key_as_written() {
    assert_eq!(
        parse_document(br#"{"Modulus":"3"}"#),
        Err(ParseError::UnknownField("Modulus".to_string()))
    );
    assert_eq!(parse_document(br#"{"":"3"}"#), Err(ParseError::UnknownField(String::new())));
    assert_eq!(
        parse_document(br#"{"pp":"3"}"#),
        Err(ParseError::UnknownField("pp".to_string()))
    );
    assert_eq!(
        parse_document(br#"{"a\nb":"3"}"#),
        Err(ParseError::UnknownField("a\nb".to_string()))
    );
}

#[test]
fn duplicate_field_is_rejected() {
    assert_eq!(
        parse_document(br#"{"p":"3","p":"4","q":"5"}"#),
        Err(ParseError::DuplicateField(FieldKey::P))
    );
    assert_eq!(
        parse_document(br#"{"p":"3","q":"5","q":"5"}"#),
        Err(ParseError::DuplicateField(FieldKey::Q))
    );
}

#[test]
fn duplicate_in_another_case_is_still_a_duplicate() {
    assert_eq!(
        parse_document(br#"{"p":"3","P":"4","q":"5"}"#),
        Err(ParseError::DuplicateField(FieldKey::P))
    );
}

#[test]
fn duplicate_is_reported_before_its_value_is_looked_at() {
    assert_eq!(
        parse_document(br#"{"p":"3","p":"not a number","q":"5"}"#),
        Err(ParseError::DuplicateField(FieldKey::P))
    );
    assert_eq!(
        parse_document(br#"{"p":"3","p":[1,2],"q":"5"}"#),
        Err(ParseError::DuplicateField(FieldKey::P))
    );
}

#[test]
fn missing_field_is_rejected() {
    assert_eq!(parse_document(br#"{"p":"3"}"#), Err(ParseError::MissingField(FieldKey::Q)));
    assert_eq!(parse_document(br#"{"q":"5"}"#), Err(ParseError::MissingField(FieldKey::P)));
}

#[test]
fn empty_object_misses_p_first() {
    assert_eq!(parse_document(b"{}"), Err(ParseError::MissingField(FieldKey::P)));
    assert_eq!(parse_document(b"  { }  "), Err(ParseError::MissingField(FieldKey::P)));
}

#[test]
fn invalid_numeral_text_is_rejected() {
    assert_eq!(
        parse_document(br#"{"p":"12a3","q":"5"}"#),
        Err(ParseError::InvalidInteger(FieldKey::P, "12a3".to_string()))
    );
}

#[test]
fn empty_string_is_no_numeral() {
    assert_eq!(
        parse_document(br#"{"p":"","q":"5"}"#),
        Err(ParseError::InvalidInteger(FieldKey::P, String::new()))
    );
}

#[test]
fn signs_and_separators_are_rejected() {
    for bad in ["+5", "-5", "1_000", " 5", "5 ", "0x10", "٣"] {
        let document = format!("{{\"p\":\"3\",\"q\":\"{}\"}}", bad);
        assert_eq!(
            parse_document(document.as_bytes()),
            Err(ParseError::InvalidInteger(FieldKey::Q, bad.to_string())),
            "text {:?}",
            bad
        );
    }
}

#[test]
fn numbers_that_are_no_unsigned_integers_are_rejected() {
    for bad in ["-5", "1.5", "1e5", "2E+3", "-0", "0.0"] {
        let document = format!("{{\"p\":{},\"q\":5}}", bad);
        assert_eq!(
            parse_document(document.as_bytes()),
            Err(ParseError::InvalidInteger(FieldKey::P, bad.to_string())),
            "numeral {:?}",
            bad
        );
    }
}

#[test]
fn values_of_other_types_are_rejected() {
    for bad in ["null", "true", "false", "[]", "[1,2]", "{}", "{\"p\":1}"] {
        let document = format!("{{\"p\":\"3\",\"q\":{}}}", bad);
        assert_eq!(
            parse_document(document.as_bytes()),
            Err(ParseError::UnexpectedValueType(FieldKey::Q)),
            "value {:?}",
            bad
        );
    }
}

#[test]
fn first_fault_in_document_order_is_reported() {
    assert_eq!(
        parse_document(br#"{"r":1,"p":"x","p":2}"#),
        Err(ParseError::UnknownField("r".to_string()))
    );
    assert_eq!(
        parse_document(br#"{"p":"x","r":1}"#),
        Err(ParseError::InvalidInteger(FieldKey::P, "x".to_string()))
    );
    assert_eq!(
        parse_document(br#"{"p":null,"q":"x"}"#),
        Err(ParseError::UnexpectedValueType(FieldKey::P))
    );
    assert_eq!(
        parse_document(br#"{"q":"x"}"#),
        Err(ParseError::InvalidInteger(FieldKey::Q, "x".to_string()))
    );
}

#[test]
fn non_object_root_is_rejected() {
    assert_eq!(parse_document(br#"["3","5"]"#), Err(ParseError::MalformedJson));
    assert_eq!(parse_document(b"35"), Err(ParseError::MalformedJson));
    assert_eq!(parse_document(br#""p""#), Err(ParseError::MalformedJson));
    assert_eq!(parse_document(b"null"), Err(ParseError::MalformedJson));
}

#[test]
fn empty_input_is_malformed() {
    assert_eq!(parse_document(b""), Err(ParseError::MalformedJson));
    assert_eq!(parse_document(b" \n "), Err(ParseError::MalformedJson));
}

#[test]
fn broken_syntax_is_malformed() {
    let broken: [&[u8]; 14] = [
        br#"{"p":"3","q":"5""#,
        br#"{"p":"3","q":"5"}}"#,
        br#"{"p":"3","q":"5"} x"#,
        br#"{"p":"3","q":"5",}"#,
        br#"{,"p":"3","q":"5"}"#,
        br#"{"p":"3" "q":"5"}"#,
        br#"{"p" "3","q":"5"}"#,
        br#"{"p":,"q":"5"}"#,
        br#"{p:"3","q":"5"}"#,
        br#"{1:"3","q":"5"}"#,
        br#"{"p":03,"q":"5"}"#,
        br#"{"p":3x,"q":"5"}"#,
        br#"{"p":"3,"q":"5"}"#,
        br#"{"p":"\ud800","q":"5"}"#,
    ];
    for document in broken {
        assert_eq!(
            parse_document(document),
            Err(ParseError::MalformedJson),
            "document {:?}",
            String::from_utf8_lossy(document)
        );
    }
}

#[test]
fn invalid_utf8_is_malformed() {
    assert_eq!(
        parse_document(b"{\"p\":\"\xff\",\"q\":\"5\"}"),
        Err(ParseError::MalformedJson)
    );
}

#[test]
fn byte_order_mark_is_not_skipped() {
    assert_eq!(
        parse_document(b"\xef\xbb\xbf{\"p\":\"3\",\"q\":\"5\"}"),
        Err(ParseError::MalformedJson)
    );
}

#[test]
fn malformed_document_hides_the_faults_of_its_members() {
    assert_eq!(parse_document(br#"{"r":1,"p":"#), Err(ParseError::MalformedJson));
    assert_eq!(parse_document(br#"{"p":"x","q":}"#), Err(ParseError::MalformedJson));
}

#[test]
fn braces_and_commas_inside_values_do_not_frame() {
    assert_eq!(
        parse_document(br#"{"p":"}","q":"5"}"#),
        Err(ParseError::InvalidInteger(FieldKey::P, "}".to_string()))
    );
    assert_eq!(
        parse_document(br#"{"p":{"a":[1,{"b":"}"}],"c":","},"q":"5"}"#),
        Err(ParseError::UnexpectedValueType(FieldKey::P))
    );
    assert_eq!(
        parse_document(br#"{"p":"a\"b,","q":"5"}"#),
        Err(ParseError::InvalidInteger(FieldKey::P, "a\"b,".to_string()))
    );
}

#[test]
fn members_are_read_in_order_with_repeats() {
    let members = read_members(br#"{ "p": "3", "x": [1, 2], "p": 4.5, "n": null }"#).unwrap();
    assert_eq!(
        members,
        vec![
            member("p", text("3")),
            member("x", ValueNode::Other),
            member("p", numeral("4.5")),
            member("n", ValueNode::Other),
        ]
    );
}

#[test]
fn empty_object_has_no_members() {
    assert_eq!(read_members(b"{}"), Some(Vec::new()));
    assert_eq!(read_members(b"\n{\n}\n"), Some(Vec::new()));
}

#[test]
fn members_of_a_malformed_document_are_not_read() {
    assert_eq!(read_members(b""), None);
    assert_eq!(read_members(b"[]"), None);
    assert_eq!(read_members(br#"{"p":1"#), None);
    assert_eq!(read_members(br#"{"p":1,}"#), None);
    assert_eq!(read_members(br#"{"p":1} {}"#), None);
}
