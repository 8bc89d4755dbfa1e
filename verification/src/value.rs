//! The value of one object member, reduced to what a record is built from,
//! and the extraction of its numeric text.

use crate::error::{ParseError, ParseErrorView};
use crate::field::FieldKey;
use vstd::prelude::*;

verus! {

/// A JSON value as this library sees it.
#[derive(Clone, Debug, PartialEq, Eq)]
pub enum ValueNode {
    /// A JSON string; holds its content, escapes resolved.
    Text(String),
    /// A JSON number; holds its numeral exactly as it stands in the
    /// document, so that no digit is lost to a machine number.
    Numeral(String),
    /// An object, an array, `true`, `false` or `null`.
    Other,
}

/// The mathematical content of a [`ValueNode`].
pub enum ValueNodeView {
    Text(Seq<char>),
    Numeral(Seq<char>),
    Other,
}

impl View for ValueNode {
    type V = ValueNodeView;

    open spec fn view(&self) -> ValueNodeView {
        match self {
            ValueNode::Text(content) => ValueNodeView::Text(content@),
            ValueNode::Numeral(numeral) => ValueNodeView::Numeral(numeral@),
            ValueNode::Other => ValueNodeView::Other,
        }
    }
}

/// One key/value pair of an object, in document order.
#[derive(Clone, Debug, PartialEq, Eq)]
pub struct Member {
    pub key: String,
    pub value: ValueNode,
}

/// The mathematical content of a [`Member`].
pub struct MemberView {
    pub key: Seq<char>,
    pub value: ValueNodeView,
}

impl View for Member {
    type V = MemberView;

    open spec fn view(&self) -> MemberView {
        MemberView { key: self.key@, value: self.value@ }
    }
}

/// The views of a run of members, in the same order.
pub open spec fn member_views(members: Seq<Member>) -> Seq<MemberView> {
    Seq::new(members.len(), |i: int| members[i]@)
}

/// The text that a value offers as a numeral: the content of a string, the
/// lexical form of a number, and nothing for any other value. Whether the
/// text is a numeral is not looked at here.
pub open spec fn node_text(node: ValueNodeView) -> Option<Seq<char>> {
    match node {
        ValueNodeView::Text(content) => Some(content),
        ValueNodeView::Numeral(numeral) => Some(numeral),
        ValueNodeView::Other => None,
    }
}

/// Extracts the numeric text of the value of `field`, unchanged, or
/// reports that the value is of a type that has none.
pub fn extract_text<'a>(field: FieldKey, node: &'a ValueNode) -> (r: Result<&'a str, ParseError>)
    ensures
        match node_text(node@) {
            Some(text) => r matches Ok(t) && t@ == text,
            None => r matches Err(e) && e@ == ParseErrorView::UnexpectedValueType(field),
        },
{
    match node {
        ValueNode::Text(content) => Ok(content.as_str()),
        ValueNode::Numeral(numeral) => Ok(numeral.as_str()),
        ValueNode::Other => Err(ParseError::UnexpectedValueType(field)),
    }
}

} // verus!
