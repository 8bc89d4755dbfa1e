//! The ways in which reading a document can fail.

use crate::field::FieldKey;
use vstd::prelude::*;

verus! {

/// Why a document was rejected. Every rejection is exactly one of these.
#[derive(Clone, Debug, PartialEq, Eq)]
pub enum ParseError {
    /// The document is not syntactically valid JSON, or its top-level value
    /// is not an object.
    MalformedJson,
    /// A member's key names neither field. Holds the key as written.
    UnknownField(String),
    /// A field occurs a second time.
    DuplicateField(FieldKey),
    /// The object ended without the field.
    MissingField(FieldKey),
    /// The field's value is neither a string nor a number.
    UnexpectedValueType(FieldKey),
    /// The field's text is not an unsigned decimal numeral. Holds the text.
    InvalidInteger(FieldKey, String),
}

/// The mathematical content of a [`ParseError`].
pub enum ParseErrorView {
    MalformedJson,
    UnknownField(Seq<char>),
    DuplicateField(FieldKey),
    MissingField(FieldKey),
    UnexpectedValueType(FieldKey),
    InvalidInteger(FieldKey, Seq<char>),
}

impl View for ParseError {
    type V = ParseErrorView;

    open spec fn view(&self) -> ParseErrorView {
        match self {
            ParseError::MalformedJson => ParseErrorView::MalformedJson,
            ParseError::UnknownField(key) => ParseErrorView::UnknownField(key@),
            ParseError::DuplicateField(field) => ParseErrorView::DuplicateField(*field),
            ParseError::MissingField(field) => ParseErrorView::MissingField(*field),
            ParseError::UnexpectedValueType(field) => ParseErrorView::UnexpectedValueType(*field),
            ParseError::InvalidInteger(field, text) => ParseErrorView::InvalidInteger(
                *field,
                text@,
            ),
        }
    }
}

impl ParseErrorView {
    /// The field that the error is about, where it is about one.
    pub open spec fn field(self) -> Option<FieldKey> {
        match self {
            ParseErrorView::MalformedJson => None,
            ParseErrorView::UnknownField(_) => None,
            ParseErrorView::DuplicateField(field) => Some(field),
            ParseErrorView::MissingField(field) => Some(field),
            ParseErrorView::UnexpectedValueType(field) => Some(field),
            ParseErrorView::InvalidInteger(field, _) => Some(field),
        }
    }
}

impl ParseError {
    /// The field that the error is about, where it is about one.
    pub fn field(&self) -> (r: Option<FieldKey>)
        ensures
            r == self@.field(),
    {
        match self {
            ParseError::MalformedJson => None,
            ParseError::UnknownField(_) => None,
            ParseError::DuplicateField(field) => Some(*field),
            ParseError::MissingField(field) => Some(*field),
            ParseError::UnexpectedValueType(field) => Some(*field),
            ParseError::InvalidInteger(field, _) => Some(*field),
        }
    }
}

} // verus!
