//! The record, and the slot-filling parser that builds it from the members
//! of an object.

use crate::decimal::{decimal_value, is_decimal};
use crate::error::{ParseError, ParseErrorView};
use crate::field::FieldKey;
use crate::natural::{biguint_value, parse_natural};
use crate::value::{extract_text, member_views, node_text, Member, MemberView, ValueNode};
use num_bigint::BigUint;
use vstd::prelude::*;

verus! {

/// The parsed result: both numbers, always present.
#[derive(Debug, PartialEq, Eq)]
pub struct Record {
    pub p: BigUint,
    pub q: BigUint,
}

/// The mathematical content of a [`Record`].
pub struct RecordView {
    pub p: nat,
    pub q: nat,
}

impl View for Record {
    type V = RecordView;

    open spec fn view(&self) -> RecordView {
        RecordView { p: biguint_value(self.p), q: biguint_value(self.q) }
    }
}

/// What has been seen of each field so far.
pub struct Slots {
    pub p: Option<nat>,
    pub q: Option<nat>,
}

impl Slots {
    /// Nothing seen yet.
    pub open spec fn empty() -> Slots {
        Slots { p: None, q: None }
    }

    /// The number seen for `field`, if any.
    pub open spec fn get(self, field: FieldKey) -> Option<nat> {
        match field {
            FieldKey::P => self.p,
            FieldKey::Q => self.q,
        }
    }

    /// These slots with `field` holding `n`.
    pub open spec fn fill(self, field: FieldKey, n: nat) -> Slots {
        match field {
            FieldKey::P => Slots { p: Some(n), q: self.q },
            FieldKey::Q => Slots { p: self.p, q: Some(n) },
        }
    }
}

/// One transition of the parser: what becomes of `slots` when `member`
/// comes next. The checks are made in this order, and the first that fails
/// decides the error: the key names a field; the field has not been seen;
/// the value is a string or a number; its text is a decimal numeral.
pub open spec fn step(slots: Slots, member: MemberView) -> Result<Slots, ParseErrorView> {
    match FieldKey::recognize(member.key) {
        None => Err(ParseErrorView::UnknownField(member.key)),
        Some(field) => if slots.get(field) is Some {
            Err(ParseErrorView::DuplicateField(field))
        } else {
            match node_text(member.value) {
                None => Err(ParseErrorView::UnexpectedValueType(field)),
                Some(text) => if is_decimal(text) {
                    Ok(slots.fill(field, decimal_value(text)))
                } else {
                    Err(ParseErrorView::InvalidInteger(field, text))
                },
            }
        },
    }
}

/// The transitions for `members` in order, starting from `slots` and
/// stopping at the first error.
pub open spec fn run(slots: Slots, members: Seq<MemberView>) -> Result<Slots, ParseErrorView>
    decreases members.len(),
{
    if members.len() == 0 {
        Ok(slots)
    } else {
        match step(slots, members[0]) {
            Err(e) => Err(e),
            Ok(next) => run(next, members.drop_first()),
        }
    }
}

/// What the end of the object makes of `slots`: the record, or the first
/// field that is missing, `p` before `q`.
pub open spec fn finalize(slots: Slots) -> Result<RecordView, ParseErrorView> {
    match (slots.p, slots.q) {
        (None, _) => Err(ParseErrorView::MissingField(FieldKey::P)),
        (Some(_), None) => Err(ParseErrorView::MissingField(FieldKey::Q)),
        (Some(p), Some(q)) => Ok(RecordView { p, q }),
    }
}

/// The outcome of parsing an object with exactly these members.
pub open spec fn parse_outcome(members: Seq<MemberView>) -> Result<RecordView, ParseErrorView> {
    match run(Slots::empty(), members) {
        Err(e) => Err(e),
        Ok(slots) => finalize(slots),
    }
}

/// Whether `r` is the outcome `expected`, value for value.
pub open spec fn is_outcome(
    r: Result<Record, ParseError>,
    expected: Result<RecordView, ParseErrorView>,
) -> bool {
    match expected {
        Ok(record) => r matches Ok(got) && got@ == record,
        Err(error) => r matches Err(got) && got@ == error,
    }
}

/// The state of one parse: a slot for each field, empty until the field is
/// seen and never emptied again.
pub struct Accumulator {
    seen_p: Option<BigUint>,
    seen_q: Option<BigUint>,
}

impl View for Accumulator {
    type V = Slots;

    closed spec fn view(&self) -> Slots {
        Slots {
            p: match self.seen_p {
                Some(n) => Some(biguint_value(n)),
                None => None,
            },
            q: match self.seen_q {
                Some(n) => Some(biguint_value(n)),
                None => None,
            },
        }
    }
}

impl Accumulator {
    /// A parse that has seen no member yet.
    pub fn new() -> (acc: Accumulator)
        ensures
            acc@ == Slots::empty(),
    {
        Accumulator { seen_p: None, seen_q: None }
    }

    /// Takes the next member of the object. On success the member's field
    /// is filled; on an error nothing changes.
    pub fn accept(&mut self, key: &str, value: &ValueNode) -> (r: Result<(), ParseError>)
        ensures
            match step(old(self)@, MemberView { key: key@, value: value@ }) {
                Ok(next) => r is Ok && final(self)@ == next,
                Err(error) => r matches Err(e) && e@ == error && final(self)@ == old(self)@,
            },
    {
        let field = match FieldKey::from_key(key) {
            Some(field) => field,
            None => {
                return Err(ParseError::UnknownField(key.to_owned()));
            },
        };
        let seen = match field {
            FieldKey::P => self.seen_p.is_some(),
            FieldKey::Q => self.seen_q.is_some(),
        };
        if seen {
            return Err(ParseError::DuplicateField(field));
        }
        let text = match extract_text(field, value) {
            Ok(text) => text,
            Err(e) => {
                return Err(e);
            },
        };
        let number = match parse_natural(text) {
            Some(number) => number,
            None => {
                return Err(ParseError::InvalidInteger(field, text.to_owned()));
            },
        };
        match field {
            FieldKey::P => {
                self.seen_p = Some(number);
            },
            FieldKey::Q => {
                self.seen_q = Some(number);
            },
        }
        Ok(())
    }

    /// Ends the object: the record if both fields were seen, else the first
    /// missing field.
    pub fn finish(self) -> (r: Result<Record, ParseError>)
        ensures
            is_outcome(r, finalize(self@)),
    {
        let p = match self.seen_p {
            Some(p) => p,
            None => {
                return Err(ParseError::MissingField(FieldKey::P));
            },
        };
        let q = match self.seen_q {
            Some(q) => q,
            None => {
                return Err(ParseError::MissingField(FieldKey::Q));
            },
        };
        Ok(Record { p, q })
    }
}

/// Parses the members of one object, in document order, into a record.
///
/// Each member is checked as it comes, so the error returned is that of
/// the first member at fault; only when every member has passed is a
/// missing field reported.
pub fn parse_members(members: &[Member]) -> (r: Result<Record, ParseError>)
    ensures
        is_outcome(r, parse_outcome(member_views(members@))),
{
    let ghost all = member_views(members@);
    let mut acc = Accumulator::new();
    let mut i: usize = 0;
    assert(all.subrange(0, all.len() as int) == all);
    while i < members.len()
        invariant
            i <= members.len(),
            all == member_views(members@),
            run(Slots::empty(), all) == run(acc@, all.subrange(i as int, all.len() as int)),
        decreases members.len() - i,
    {
        let member = &members[i];
        proof {
            let rest = all.subrange(i as int, all.len() as int);
            assert(rest[0] == MemberView { key: member.key@, value: member.value@ });
            assert(rest.drop_first() == all.subrange(i + 1, all.len() as int));
        }
        match acc.accept(member.key.as_str(), &member.value) {
            Ok(()) => {},
            Err(e) => {
                return Err(e);
            },
        }
        i += 1;
    }
    acc.finish()
}

} // verus!
