//! What holds of the parser on every input, proved from its transition
//! function.

use crate::decimal::{decimal_text, decimal_value, is_decimal, lemma_decimal_text_round_trip};
use crate::document::{document_members, document_outcome, has_byte, OPEN_BRACE};
use crate::error::ParseErrorView;
use crate::field::FieldKey;
use crate::json::skip_whitespace;
use crate::record::{finalize, parse_outcome, run, step, RecordView, Slots};
use crate::value::{node_text, MemberView, ValueNodeView};
use vstd::prelude::*;

verus! {

/// Running over two stretches of members one after the other is running
/// over the second from where the first ended, unless the first failed.
pub proof fn lemma_run_append(slots: Slots, first: Seq<MemberView>, second: Seq<MemberView>)
    ensures
        run(slots, first + second) == match run(slots, first) {
            Err(e) => Err(e),
            Ok(mid) => run(mid, second),
        },
    decreases first.len(),
{
    if first.len() == 0 {
        assert(first + second =~= second);
    } else {
        assert((first + second)[0] == first[0]);
        assert((first + second).drop_first() =~= first.drop_first() + second);
        match step(slots, first[0]) {
            Err(_) => {},
            Ok(next) => {
                lemma_run_append(next, first.drop_first(), second);
            },
        }
    }
}

/// The first member at fault decides the outcome: when the members before
/// position `i` are accepted and the member at `i` is not, the error is
/// that member's, whatever follows it in the document.
pub proof fn theorem_first_fault_decides(members: Seq<MemberView>, i: int)
    requires
        0 <= i < members.len(),
        run(Slots::empty(), members.take(i)) is Ok,
        step(run(Slots::empty(), members.take(i))->Ok_0, members[i]) is Err,
    ensures
        parse_outcome(members) == Err::<RecordView, ParseErrorView>(
            step(run(Slots::empty(), members.take(i))->Ok_0, members[i])->Err_0,
        ),
{
    let before = members.take(i);
    let from = members.skip(i);
    assert(members =~= before + from);
    lemma_run_append(Slots::empty(), before, from);
    assert(from[0] == members[i]);
}

/// A slot, once filled, keeps its number: no later member changes or
/// empties it.
pub proof fn theorem_filled_slot_stays(slots: Slots, members: Seq<MemberView>, field: FieldKey)
    requires
        slots.get(field) is Some,
        run(slots, members) is Ok,
    ensures
        run(slots, members)->Ok_0.get(field) == slots.get(field),
    decreases members.len(),
{
    if members.len() > 0 {
        let next = step(slots, members[0])->Ok_0;
        assert(next.get(field) == slots.get(field));
        theorem_filled_slot_stays(next, members.drop_first(), field);
    }
}

/// How many slots are filled.
pub open spec fn filled(slots: Slots) -> nat {
    (if slots.p is Some { 1nat } else { 0nat }) + (if slots.q is Some { 1nat } else { 0nat })
}

/// Every accepted member fills exactly one slot that was empty.
pub proof fn lemma_each_member_fills_one(slots: Slots, members: Seq<MemberView>)
    requires
        run(slots, members) is Ok,
    ensures
        filled(run(slots, members)->Ok_0) == filled(slots) + members.len(),
    decreases members.len(),
{
    if members.len() > 0 {
        let next = step(slots, members[0])->Ok_0;
        lemma_each_member_fills_one(next, members.drop_first());
    }
}

/// Whether `member` is for `field` and carries a decimal numeral.
pub open spec fn is_valid_for(member: MemberView, field: FieldKey) -> bool {
    &&& FieldKey::recognize(member.key) == Some(field)
    &&& node_text(member.value) matches Some(text) && is_decimal(text)
}

/// The number that a member carries.
pub open spec fn member_number(member: MemberView) -> nat {
    decimal_value(node_text(member.value)->0)
}

/// A record comes out of exactly the objects that hold one valid member
/// for each field and nothing else, in either order; and it holds the two
/// numbers that those members denote. In particular no record is ever
/// completed with a number that the document did not give.
pub proof fn theorem_accepts_exactly_pairs(members: Seq<MemberView>)
    ensures
        parse_outcome(members) is Ok <==> members.len() == 2 && ({
            ||| is_valid_for(members[0], FieldKey::P) && is_valid_for(members[1], FieldKey::Q)
            ||| is_valid_for(members[0], FieldKey::Q) && is_valid_for(members[1], FieldKey::P)
        }),
        members.len() == 2 && is_valid_for(members[0], FieldKey::P) && is_valid_for(
            members[1],
            FieldKey::Q,
        ) ==> parse_outcome(members) == Ok::<RecordView, ParseErrorView>(
            RecordView { p: member_number(members[0]), q: member_number(members[1]) },
        ),
        members.len() == 2 && is_valid_for(members[0], FieldKey::Q) && is_valid_for(
            members[1],
            FieldKey::P,
        ) ==> parse_outcome(members) == Ok::<RecordView, ParseErrorView>(
            RecordView { p: member_number(members[1]), q: member_number(members[0]) },
        ),
{
    if parse_outcome(members) is Ok {
        lemma_each_member_fills_one(Slots::empty(), members);
        assert(members.len() == 2);
    }
    if members.len() == 2 {
        let rest = members.drop_first();
        assert(rest[0] == members[1]);
        assert(rest.drop_first().len() == 0);
        reveal_with_fuel(run, 3);
    }
}

/// Writing two natural numbers down and parsing them back gives the same
/// two numbers, whatever their size, and whether each is written as a JSON
/// string or as a JSON number.
pub proof fn theorem_round_trip(p: nat, q: nat, p_value: ValueNodeView, q_value: ValueNodeView)
    requires
        node_text(p_value) == Some(decimal_text(p)),
        node_text(q_value) == Some(decimal_text(q)),
    ensures
        parse_outcome(
            seq![
                MemberView { key: seq!['p'], value: p_value },
                MemberView { key: seq!['q'], value: q_value },
            ],
        ) == Ok::<RecordView, ParseErrorView>(RecordView { p, q }),
{
    lemma_decimal_text_round_trip(p);
    lemma_decimal_text_round_trip(q);
    let members = seq![
        MemberView { key: seq!['p'], value: p_value },
        MemberView { key: seq!['q'], value: q_value },
    ];
    assert(is_valid_for(members[0], FieldKey::P));
    assert(is_valid_for(members[1], FieldKey::Q)) by {
        assert(seq!['q'][0] != 'p' && seq!['q'][0] != 'P');
    }
    theorem_accepts_exactly_pairs(members);
}

/// A key counts only through the field it names: two objects whose members
/// carry the same values under keys that name the same fields, member by
/// member, have the same outcome. So `P` does for `p` and `Q` for `q`.
pub proof fn theorem_key_case_is_ignored(a: Seq<MemberView>, b: Seq<MemberView>)
    requires
        a.len() == b.len(),
        forall|i: int|
            0 <= i < a.len() ==> {
                &&& (#[trigger] a[i]).value == b[i].value
                &&& FieldKey::recognize(a[i].key) is Some
                &&& FieldKey::recognize(a[i].key) == FieldKey::recognize(b[i].key)
            },
    ensures
        parse_outcome(a) == parse_outcome(b),
{
    lemma_same_fields_same_run(Slots::empty(), a, b);
}

proof fn lemma_same_fields_same_run(slots: Slots, a: Seq<MemberView>, b: Seq<MemberView>)
    requires
        a.len() == b.len(),
        forall|i: int|
            0 <= i < a.len() ==> {
                &&& (#[trigger] a[i]).value == b[i].value
                &&& FieldKey::recognize(a[i].key) is Some
                &&& FieldKey::recognize(a[i].key) == FieldKey::recognize(b[i].key)
            },
    ensures
        run(slots, a) == run(slots, b),
    decreases a.len(),
{
    if a.len() > 0 {
        assert(a[0].value == b[0].value);
        assert(step(slots, a[0]) == step(slots, b[0]));
        match step(slots, a[0]) {
            Err(_) => {},
            Ok(next) => {
                assert forall|i: int| 0 <= i < a.drop_first().len() implies {
                    &&& (#[trigger] a.drop_first()[i]).value == b.drop_first()[i].value
                    &&& FieldKey::recognize(a.drop_first()[i].key) is Some
                    &&& FieldKey::recognize(a.drop_first()[i].key) == FieldKey::recognize(
                        b.drop_first()[i].key,
                    )
                } by {
                    assert(a.drop_first()[i] == a[i + 1]);
                    assert(b.drop_first()[i] == b[i + 1]);
                }
                lemma_same_fields_same_run(next, a.drop_first(), b.drop_first());
            },
        }
    }
}

/// Nothing but the two field names is taken for a key: an object with any
/// other key is rejected with that key, unless an earlier member is at
/// fault.
pub proof fn theorem_unknown_key_is_rejected(members: Seq<MemberView>, i: int)
    requires
        0 <= i < members.len(),
        run(Slots::empty(), members.take(i)) is Ok,
        FieldKey::recognize(members[i].key) is None,
    ensures
        parse_outcome(members) == Err::<RecordView, ParseErrorView>(
            ParseErrorView::UnknownField(members[i].key),
        ),
{
    theorem_first_fault_decides(members, i);
}

/// Once a member for `field` has been accepted, the slot of `field` is
/// filled, whatever else has been accepted since.
pub proof fn lemma_accepted_field_is_seen(
    slots: Slots,
    members: Seq<MemberView>,
    j: int,
    field: FieldKey,
)
    requires
        0 <= j < members.len(),
        FieldKey::recognize(members[j].key) == Some(field),
        run(slots, members) is Ok,
    ensures
        run(slots, members)->Ok_0.get(field) is Some,
    decreases members.len(),
{
    let next = step(slots, members[0])->Ok_0;
    if j == 0 {
        theorem_filled_slot_stays(next, members.drop_first(), field);
    } else {
        assert(members.drop_first()[j - 1] == members[j]);
        lemma_accepted_field_is_seen(next, members.drop_first(), j - 1, field);
    }
}

/// A field is taken once: when the members before position `i` are
/// accepted and one of them is for the field that the key at `i` names,
/// the object is rejected for the repeated field, whatever the repeated
/// member holds and whatever follows it.
pub proof fn theorem_repeated_field_is_rejected(members: Seq<MemberView>, j: int, i: int)
    requires
        0 <= j < i < members.len(),
        run(Slots::empty(), members.take(i)) is Ok,
        FieldKey::recognize(members[i].key) is Some,
        FieldKey::recognize(members[j].key) == FieldKey::recognize(members[i].key),
    ensures
        parse_outcome(members) == Err::<RecordView, ParseErrorView>(
            ParseErrorView::DuplicateField(FieldKey::recognize(members[i].key)->0),
        ),
{
    let field = FieldKey::recognize(members[i].key)->0;
    assert(members.take(i)[j] == members[j]);
    lemma_accepted_field_is_seen(Slots::empty(), members.take(i), j, field);
    theorem_first_fault_decides(members, i);
}

/// The end of the object settles what is missing: with every member
/// accepted, the outcome is the record or the first field never seen.
pub proof fn theorem_missing_field_is_reported(members: Seq<MemberView>)
    requires
        run(Slots::empty(), members) is Ok,
    ensures
        members.len() == 0 ==> parse_outcome(members) == Err::<RecordView, ParseErrorView>(
            ParseErrorView::MissingField(FieldKey::P),
        ),
        members.len() == 1 && FieldKey::recognize(members[0].key) == Some(FieldKey::P)
            ==> parse_outcome(members) == Err::<RecordView, ParseErrorView>(
            ParseErrorView::MissingField(FieldKey::Q),
        ),
        members.len() == 1 && FieldKey::recognize(members[0].key) == Some(FieldKey::Q)
            ==> parse_outcome(members) == Err::<RecordView, ParseErrorView>(
            ParseErrorView::MissingField(FieldKey::P),
        ),
        parse_outcome(members) == finalize(run(Slots::empty(), members)->Ok_0),
{
    reveal_with_fuel(run, 2);
    if members.len() == 1 {
        assert(members.drop_first().len() == 0);
    }
}

/// No transition reports a malformed document.
pub proof fn lemma_run_is_never_malformed(slots: Slots, members: Seq<MemberView>)
    ensures
        run(slots, members) != Err::<Slots, ParseErrorView>(ParseErrorView::MalformedJson),
    decreases members.len(),
{
    if members.len() > 0 {
        if let Ok(next) = step(slots, members[0]) {
            lemma_run_is_never_malformed(next, members.drop_first());
        }
    }
}

/// The members of an object are never the reason to call a document
/// malformed: that error is kept for what is not one JSON object.
pub proof fn theorem_members_are_never_malformed(members: Seq<MemberView>)
    ensures
        parse_outcome(members) != Err::<RecordView, ParseErrorView>(
            ParseErrorView::MalformedJson,
        ),
{
    lemma_run_is_never_malformed(Slots::empty(), members);
}

/// A document is reported as malformed exactly when it is not one JSON
/// object; every other error is about a member or a missing field.
pub proof fn theorem_malformed_means_no_object(bytes: Seq<u8>)
    ensures
        document_outcome(bytes) == Err::<RecordView, ParseErrorView>(
            ParseErrorView::MalformedJson,
        ) <==> document_members(bytes) is None,
{
    if let Some(members) = document_members(bytes) {
        theorem_members_are_never_malformed(members);
    }
}

/// The root of a document must be an object: a document whose first byte
/// after optional whitespace is no opening brace, or that holds nothing
/// but whitespace, is malformed.
pub proof fn theorem_root_must_be_an_object(bytes: Seq<u8>)
    requires
        !has_byte(bytes, skip_whitespace(bytes, 0), OPEN_BRACE),
    ensures
        document_outcome(bytes) == Err::<RecordView, ParseErrorView>(
            ParseErrorView::MalformedJson,
        ),
{
}

/// A document that is read as the object with the members `p` and `q`,
/// each holding the canonical numeral of a natural number as a string or
/// as a number, gives the record of those two numbers.
pub proof fn theorem_document_round_trip(
    bytes: Seq<u8>,
    p: nat,
    q: nat,
    p_value: ValueNodeView,
    q_value: ValueNodeView,
)
    requires
        node_text(p_value) == Some(decimal_text(p)),
        node_text(q_value) == Some(decimal_text(q)),
        document_members(bytes) == Some(
            seq![
                MemberView { key: seq!['p'], value: p_value },
                MemberView { key: seq!['q'], value: q_value },
            ],
        ),
    ensures
        document_outcome(bytes) == Ok::<RecordView, ParseErrorView>(RecordView { p, q }),
{
    theorem_round_trip(p, q, p_value, q_value);
}

} // verus!
