//! The JSON tokens of a document, as `serde_json` delimits and decodes
//! them, and their reduction to values.

use crate::decimal::is_digit;
use crate::value::{ValueNode, ValueNodeView};
use serde_json::value::RawValue;
use vstd::prelude::*;
use vstd::string::StrSliceExecFns;
use vstd::utf8::{decode_utf8, encode_utf8, encode_utf8_decode_utf8};

verus! {

/// The space character.
pub const SPACE: u8 = 0x20;

/// The horizontal tab.
pub const TAB: u8 = 0x09;

/// The line feed.
pub const LINE_FEED: u8 = 0x0a;

/// The carriage return.
pub const CARRIAGE_RETURN: u8 = 0x0d;

/// The four bytes that JSON counts as whitespace.
pub open spec fn is_whitespace(b: u8) -> bool {
    b == SPACE || b == TAB || b == LINE_FEED || b == CARRIAGE_RETURN
}

/// The first position from `at` on that holds no whitespace; the end of
/// `bytes` if there is none.
pub open spec fn skip_whitespace(bytes: Seq<u8>, at: int) -> int
    decreases bytes.len() - at,
{
    if 0 <= at < bytes.len() && is_whitespace(bytes[at]) {
        skip_whitespace(bytes, at + 1)
    } else {
        at
    }
}

/// Skipping whitespace moves forward only, and never past the end.
pub proof fn lemma_skip_whitespace_bounds(bytes: Seq<u8>, at: int)
    ensures
        at <= skip_whitespace(bytes, at),
        at <= bytes.len() ==> skip_whitespace(bytes, at) <= bytes.len(),
    decreases bytes.len() - at,
{
    if 0 <= at < bytes.len() && is_whitespace(bytes[at]) {
        lemma_skip_whitespace_bounds(bytes, at + 1);
    }
}

/// Skipping whitespace in the tail of `bytes` from `from` on is skipping it
/// in `bytes` itself.
pub proof fn lemma_skip_whitespace_in_tail(bytes: Seq<u8>, from: int, at: int)
    requires
        0 <= from <= bytes.len(),
        0 <= at,
    ensures
        from + skip_whitespace(bytes.subrange(from, bytes.len() as int), at) == skip_whitespace(
            bytes,
            from + at,
        ),
    decreases bytes.len() - from - at,
{
    let tail = bytes.subrange(from, bytes.len() as int);
    if at < tail.len() && is_whitespace(tail[at]) {
        lemma_skip_whitespace_in_tail(bytes, from, at + 1);
    }
}

/// Where `serde_json` finds the end of the first JSON value in `input`:
/// the number of bytes of `input` up to and including that value, the
/// whitespace before it counted in. `None` where `input` does not start
/// with a complete, well-formed value that is properly delimited from what
/// follows it.
pub uninterp spec fn json_value_end(input: Seq<u8>) -> Option<nat>;

/// The content of the JSON string whose text is `token`, escapes resolved,
/// as `serde_json` decodes it. `None` where `token` is not a JSON string.
pub uninterp spec fn json_string_content(token: Seq<char>) -> Option<Seq<char>>;

/// Reads one value from the head of `input` with
/// `serde_json::StreamDeserializer`, as a `RawValue`: calls `next`, then
/// `RawValue::get` and `byte_offset`.
///
/// Trusted: whether a value is read, and where it ends, depends on the
/// bytes of `input` alone; the end lies within `input`, at or after the
/// first byte that is no whitespace; and the text handed back is exactly
/// the bytes of `input` from that byte up to the end, which are UTF-8.
#[verifier::external_body]
fn scan_value(input: &[u8]) -> (r: Option<(String, usize)>)
    ensures
        match r {
            Some((text, used)) => json_value_end(input@) == Some(used as nat)
                && skip_whitespace(input@, 0) <= used <= input.len()
                && encode_utf8(text@) == input@.subrange(skip_whitespace(input@, 0), used as int),
            None => json_value_end(input@) is None,
        },
{
    let mut stream = serde_json::Deserializer::from_slice(input).into_iter::<Box<RawValue>>();
    match stream.next() {
        Some(Ok(raw)) => Some((raw.get().to_owned(), stream.byte_offset())),
        _ => None,
    }
}

/// Decodes the text of a JSON string with `serde_json::from_str`.
///
/// Trusted: the outcome depends on the characters of `token` alone.
#[verifier::external_body]
fn decode_string(token: &str) -> (r: Option<String>)
    ensures
        match r {
            Some(content) => json_string_content(token@) == Some(content@),
            None => json_string_content(token@) is None,
        },
{
    serde_json::from_str::<String>(token).ok()
}

/// The value that starts at `at`, after optional whitespace: its text,
/// which is the bytes of the document from the first that is no whitespace
/// to the end of the value, and the position after it.
pub open spec fn token_at(bytes: Seq<u8>, at: int) -> Option<(Seq<char>, int)> {
    if 0 <= at <= bytes.len() {
        match json_value_end(bytes.subrange(at, bytes.len() as int)) {
            Some(used) => Some(
                (decode_utf8(bytes.subrange(skip_whitespace(bytes, at), at + used)), at + used),
            ),
            None => None,
        }
    } else {
        None
    }
}

/// Reads the value that starts at `at`: its text, and the position after
/// it. A position past the end of `bytes` holds no value.
pub fn read_token(bytes: &[u8], at: usize) -> (r: Option<(String, usize)>)
    ensures
        match r {
            Some((text, end)) => token_at(bytes@, at as int) == Some((text@, end as int)) && at
                <= end <= bytes.len(),
            None => token_at(bytes@, at as int) is None,
        },
{
    if at > bytes.len() {
        return None;
    }
    let rest = vstd::slice::slice_subrange(bytes, at, bytes.len());
    match scan_value(rest) {
        Some((text, used)) => {
            proof {
                let start = skip_whitespace(rest@, 0);
                lemma_skip_whitespace_bounds(rest@, 0);
                lemma_skip_whitespace_in_tail(bytes@, at as int, 0);
                assert(rest@.subrange(start, used as int) =~= bytes@.subrange(
                    skip_whitespace(bytes@, at as int),
                    at + used,
                ));
                encode_utf8_decode_utf8(text@);
            }
            Some((text, at + used))
        },
        None => None,
    }
}

/// The three kinds of token that the parser tells apart.
#[derive(Clone, Copy, Debug, PartialEq, Eq, Structural)]
pub enum TokenKind {
    /// Begins with a quotation mark: a JSON string.
    Text,
    /// Begins with a digit or a minus sign: a JSON number.
    Numeral,
    /// Anything else: an object, an array, `true`, `false` or `null`.
    Other,
}

/// The kind of the token with this text, told by its first character.
pub open spec fn token_kind(text: Seq<char>) -> TokenKind {
    if text.len() > 0 && text[0] == '"' {
        TokenKind::Text
    } else if text.len() > 0 && (text[0] == '-' || is_digit(text[0])) {
        TokenKind::Numeral
    } else {
        TokenKind::Other
    }
}

/// Tells the kind of a token by its first character.
pub fn classify_token(text: &str) -> (kind: TokenKind)
    ensures
        kind == token_kind(text@),
{
    if text.is_empty() {
        return TokenKind::Other;
    }
    let first = text.get_char(0);
    if first == '"' {
        TokenKind::Text
    } else if first == '-' || ('0' <= first && first <= '9') {
        TokenKind::Numeral
    } else {
        TokenKind::Other
    }
}

/// The value that a token stands for: a string gives its content, a number
/// its own text, anything else no text at all. `None` for a token that
/// begins like a string and is none.
pub open spec fn token_node(text: Seq<char>) -> Option<ValueNodeView> {
    match token_kind(text) {
        TokenKind::Text => match json_string_content(text) {
            Some(content) => Some(ValueNodeView::Text(content)),
            None => None,
        },
        TokenKind::Numeral => Some(ValueNodeView::Numeral(text)),
        TokenKind::Other => Some(ValueNodeView::Other),
    }
}

/// The content of a token that is a string, as an object key must be.
pub open spec fn token_key(text: Seq<char>) -> Option<Seq<char>> {
    match token_kind(text) {
        TokenKind::Text => json_string_content(text),
        _ => None,
    }
}

/// Reduces a token to the value it stands for.
pub fn node_from_token(text: String) -> (r: Option<ValueNode>)
    ensures
        match r {
            Some(node) => token_node(text@) == Some(node@),
            None => token_node(text@) is None,
        },
{
    match classify_token(text.as_str()) {
        TokenKind::Text => match decode_string(text.as_str()) {
            Some(content) => Some(ValueNode::Text(content)),
            None => None,
        },
        TokenKind::Numeral => Some(ValueNode::Numeral(text)),
        TokenKind::Other => Some(ValueNode::Other),
    }
}

/// Reduces a token to the key it spells, if it is a string.
pub fn key_from_token(text: &str) -> (r: Option<String>)
    ensures
        match r {
            Some(key) => token_key(text@) == Some(key@),
            None => token_key(text@) is None,
        },
{
    match classify_token(text) {
        TokenKind::Text => decode_string(text),
        _ => None,
    }
}

} // verus!
