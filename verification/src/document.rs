//! A whole document: one JSON object, framed here and tokenized by
//! `serde_json`, then parsed into a record.

use crate::error::{ParseError, ParseErrorView};
use crate::json::{
    key_from_token, lemma_skip_whitespace_bounds, node_from_token, read_token, skip_whitespace,
    token_at, token_key, token_node, CARRIAGE_RETURN, LINE_FEED, SPACE, TAB,
};
use crate::record::{is_outcome, parse_members, parse_outcome, Record, RecordView};
use crate::value::{member_views, Member, MemberView};
use vstd::prelude::*;

verus! {

/// The byte `{`, which opens an object.
pub const OPEN_BRACE: u8 = 0x7b;

/// The byte `}`, which closes an object.
pub const CLOSE_BRACE: u8 = 0x7d;

/// The byte `:`, which stands between a key and its value.
pub const COLON: u8 = 0x3a;

/// The byte `,`, which stands between two members.
pub const COMMA: u8 = 0x2c;

/// Whether the byte `c` stands at position `at`.
pub open spec fn has_byte(bytes: Seq<u8>, at: int, c: u8) -> bool {
    0 <= at < bytes.len() && bytes[at] == c
}

/// The member that starts at `at` and the position after it: a string
/// token for the key, a colon, and a token for the value, with optional
/// whitespace around the colon.
pub open spec fn member_at(bytes: Seq<u8>, at: int) -> Option<(MemberView, int)> {
    match token_at(bytes, at) {
        None => None,
        Some((key_text, key_end)) => match token_key(key_text) {
            None => None,
            Some(key) => {
                let colon = skip_whitespace(bytes, key_end);
                if has_byte(bytes, colon, COLON) {
                    match token_at(bytes, skip_whitespace(bytes, colon + 1)) {
                        None => None,
                        Some((text, end)) => match token_node(text) {
                            None => None,
                            Some(value) => Some((MemberView { key, value }, end)),
                        },
                    }
                } else {
                    None
                }
            },
        },
    }
}

/// A member ends after it begins.
pub proof fn lemma_member_advances(bytes: Seq<u8>, at: int)
    ensures
        member_at(bytes, at) matches Some((_, end)) ==> 0 <= at < end,
{
    if let Some((key_text, key_end)) = token_at(bytes, at) {
        let colon = skip_whitespace(bytes, key_end);
        lemma_skip_whitespace_bounds(bytes, key_end);
        lemma_skip_whitespace_bounds(bytes, colon + 1);
    }
}

/// The members from position `at`, where one starts, to the closing brace
/// of the object, after which nothing but whitespace may follow. Members
/// are separated by commas, with optional whitespace on both sides.
pub open spec fn members_from(bytes: Seq<u8>, at: int) -> Option<Seq<MemberView>>
    decreases bytes.len() - at,
    via members_from_decreases
{
    match member_at(bytes, at) {
        None => None,
        Some((member, end)) => {
            let next = skip_whitespace(bytes, end);
            if has_byte(bytes, next, COMMA) {
                match members_from(bytes, skip_whitespace(bytes, next + 1)) {
                    None => None,
                    Some(rest) => Some(seq![member] + rest),
                }
            } else if has_byte(bytes, next, CLOSE_BRACE) && skip_whitespace(bytes, next + 1)
                == bytes.len() {
                Some(seq![member])
            } else {
                None
            }
        },
    }
}

#[via_fn]
proof fn members_from_decreases(bytes: Seq<u8>, at: int) {
    if let Some((member, end)) = member_at(bytes, at) {
        let next = skip_whitespace(bytes, end);
        lemma_member_advances(bytes, at);
        lemma_skip_whitespace_bounds(bytes, end);
        lemma_skip_whitespace_bounds(bytes, next + 1);
    }
}

/// The members of the object that `bytes` holds, in document order, or
/// `None` where `bytes` is not one JSON object: optional whitespace, an
/// opening brace, the members, a closing brace, optional whitespace.
pub open spec fn document_members(bytes: Seq<u8>) -> Option<Seq<MemberView>> {
    let open = skip_whitespace(bytes, 0);
    if has_byte(bytes, open, OPEN_BRACE) {
        let first = skip_whitespace(bytes, open + 1);
        if has_byte(bytes, first, CLOSE_BRACE) {
            if skip_whitespace(bytes, first + 1) == bytes.len() {
                Some(Seq::empty())
            } else {
                None
            }
        } else {
            members_from(bytes, first)
        }
    } else {
        None
    }
}

/// The outcome of parsing the document `bytes`.
pub open spec fn document_outcome(bytes: Seq<u8>) -> Result<RecordView, ParseErrorView> {
    match document_members(bytes) {
        None => Err(ParseErrorView::MalformedJson),
        Some(members) => parse_outcome(members),
    }
}

/// Moves from `at` to the first byte that is no whitespace.
fn skip_blank(bytes: &[u8], at: usize) -> (r: usize)
    requires
        at <= bytes.len(),
    ensures
        r == skip_whitespace(bytes@, at as int),
        at <= r <= bytes.len(),
{
    let mut i: usize = at;
    while i < bytes.len() && (bytes[i] == SPACE || bytes[i] == TAB || bytes[i] == LINE_FEED
        || bytes[i] == CARRIAGE_RETURN)
        invariant
            at <= i <= bytes.len(),
            skip_whitespace(bytes@, at as int) == skip_whitespace(bytes@, i as int),
        decreases bytes.len() - i,
    {
        i += 1;
    }
    i
}

/// Whether the byte `c` stands at position `at`.
fn byte_is(bytes: &[u8], at: usize, c: u8) -> (r: bool)
    ensures
        r == has_byte(bytes@, at as int, c),
{
    at < bytes.len() && bytes[at] == c
}

/// Reads the member that starts at `at`.
fn read_member(bytes: &[u8], at: usize) -> (r: Option<(Member, usize)>)
    ensures
        match r {
            Some((member, end)) => member_at(bytes@, at as int) == Some((member@, end as int))
                && at < end <= bytes.len(),
            None => member_at(bytes@, at as int) is None,
        },
{
    let (key_text, key_end) = match read_token(bytes, at) {
        Some(token) => token,
        None => {
            return None;
        },
    };
    let key = match key_from_token(key_text.as_str()) {
        Some(key) => key,
        None => {
            return None;
        },
    };
    let colon = skip_blank(bytes, key_end);
    if !byte_is(bytes, colon, COLON) {
        return None;
    }
    let value_at = skip_blank(bytes, colon + 1);
    let (text, end) = match read_token(bytes, value_at) {
        Some(token) => token,
        None => {
            return None;
        },
    };
    match node_from_token(text) {
        Some(value) => Some((Member { key, value }, end)),
        None => None,
    }
}

/// With the members read so far in front of what is still to come.
spec fn after(read: Seq<MemberView>, coming: Option<Seq<MemberView>>) -> Option<
    Seq<MemberView>,
> {
    match coming {
        None => None,
        Some(rest) => Some(read + rest),
    }
}

/// Tokenizes a whole document into the members of its object, in document
/// order and with repeated keys kept, or returns `None` where the document
/// is not one well-formed JSON object.
pub fn read_members(bytes: &[u8]) -> (r: Option<Vec<Member>>)
    ensures
        match r {
            Some(members) => document_members(bytes@) == Some(member_views(members@)),
            None => document_members(bytes@) is None,
        },
{
    let open = skip_blank(bytes, 0);
    if !byte_is(bytes, open, OPEN_BRACE) {
        return None;
    }
    let mut at = skip_blank(bytes, open + 1);
    let mut members: Vec<Member> = Vec::new();
    if byte_is(bytes, at, CLOSE_BRACE) {
        if skip_blank(bytes, at + 1) == bytes.len() {
            assert(member_views(members@) =~= Seq::empty());
            return Some(members);
        } else {
            return None;
        }
    }
    proof {
        if let Some(rest) = members_from(bytes@, at as int) {
            assert(member_views(members@) + rest =~= rest);
        }
    }
    loop
        invariant
            at <= bytes.len(),
            document_members(bytes@) == after(
                member_views(members@),
                members_from(bytes@, at as int),
            ),
        decreases bytes.len() - at,
    {
        let ghost read = member_views(members@);
        let (member, end) = match read_member(bytes, at) {
            Some(found) => found,
            None => {
                return None;
            },
        };
        let ghost view = member@;
        members.push(member);
        assert(member_views(members@) =~= read + seq![view]);
        let next = skip_blank(bytes, end);
        if byte_is(bytes, next, COMMA) {
            at = skip_blank(bytes, next + 1);
            proof {
                if let Some(rest) = members_from(bytes@, at as int) {
                    assert(read + (seq![view] + rest) =~= (read + seq![view]) + rest);
                }
            }
        } else if byte_is(bytes, next, CLOSE_BRACE) {
            if skip_blank(bytes, next + 1) == bytes.len() {
                return Some(members);
            } else {
                return None;
            }
        } else {
            return None;
        }
    }
}

/// Parses a document into a record.
///
/// The whole document is tokenized first, so a document that is not one
/// well-formed JSON object is rejected as malformed whatever its members
/// hold; after that the members are parsed in order.
pub fn parse_document(bytes: &[u8]) -> (r: Result<Record, ParseError>)
    ensures
        is_outcome(r, document_outcome(bytes@)),
{
    match read_members(bytes) {
        None => Err(ParseError::MalformedJson),
        Some(members) => parse_members(members.as_slice()),
    }
}

} // verus!
