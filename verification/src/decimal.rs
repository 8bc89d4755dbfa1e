//! Unsigned decimal numerals as text: which strings are numerals, and which
//! natural number each one denotes.

use vstd::prelude::*;

verus! {

/// The byte of the digit `0`.
pub const DIGIT_ZERO: u8 = 0x30;

/// The byte of the digit `9`.
pub const DIGIT_NINE: u8 = 0x39;

/// Whether `c` is one of the ten ASCII digits.
pub open spec fn is_digit(c: char) -> bool {
    '0' <= c && c <= '9'
}

/// The number that the digit `c` stands for.
pub open spec fn digit_value(c: char) -> nat
    recommends
        is_digit(c),
{
    (c as u32 - '0' as u32) as nat
}

/// Whether `text` is an unsigned decimal numeral: at least one character,
/// and nothing but ASCII digits. Leading zeros are allowed; a sign, a
/// separator, a fraction or an exponent is not.
pub open spec fn is_decimal(text: Seq<char>) -> bool {
    &&& text.len() > 0
    &&& forall|i: int| 0 <= i < text.len() ==> is_digit(#[trigger] text[i])
}

/// The natural number that the numeral `text` denotes, most significant
/// digit first.
pub open spec fn decimal_value(text: Seq<char>) -> nat
    decreases text.len(),
{
    if text.len() == 0 {
        0
    } else {
        10 * decimal_value(text.drop_last()) + digit_value(text.last())
    }
}

/// The digit character for `d`.
pub open spec fn digit_char(d: nat) -> char
    recommends
        d < 10,
{
    ('0' as u32 + d) as char
}

/// The canonical numeral of `n`: its decimal digits, most significant
/// first, without leading zeros (zero itself is the single digit `0`).
pub open spec fn decimal_text(n: nat) -> Seq<char>
    decreases n,
{
    if n < 10 {
        seq![digit_char(n)]
    } else {
        decimal_text(n / 10).push(digit_char(n % 10))
    }
}

/// Every natural number has a canonical numeral, and that numeral denotes
/// the number: writing a number down and reading it back loses nothing,
/// however large the number is.
pub proof fn lemma_decimal_text_round_trip(n: nat)
    ensures
        is_decimal(decimal_text(n)),
        decimal_value(decimal_text(n)) == n,
        n > 0 ==> decimal_text(n)[0] != '0',
    decreases n,
{
    let text = decimal_text(n);
    if n < 10 {
        assert(text.drop_last() =~= Seq::<char>::empty());
        assert(decimal_value(text.drop_last()) == 0);
        assert(is_digit(text[0]));
    } else {
        lemma_decimal_text_round_trip(n / 10);
        let head = decimal_text(n / 10);
        assert(text.drop_last() =~= head);
        assert(text.last() == digit_char(n % 10));
        assert forall|i: int| 0 <= i < text.len() implies is_digit(#[trigger] text[i]) by {
            if i < head.len() {
                assert(text[i] == head[i]);
            }
        }
        assert(text[0] == head[0]);
    }
}

/// A numeral with a leading zero denotes what it denotes without it.
pub proof fn lemma_leading_zero(text: Seq<char>)
    requires
        is_decimal(text),
    ensures
        decimal_value(seq!['0'] + text) == decimal_value(text),
    decreases text.len(),
{
    let padded = seq!['0'] + text;
    assert(padded.last() == text.last());
    if text.len() == 1 {
        assert(padded.drop_last() =~= seq!['0']);
        assert(seq!['0'].drop_last() =~= Seq::<char>::empty());
        assert(decimal_value(seq!['0']) == 0) by {
            reveal_with_fuel(decimal_value, 2);
        }
        assert(text.drop_last() =~= Seq::<char>::empty());
    } else {
        let shorter = text.drop_last();
        assert(is_decimal(shorter)) by {
            assert forall|i: int| 0 <= i < shorter.len() implies is_digit(#[trigger] shorter[i]) by {
                assert(shorter[i] == text[i]);
            }
        }
        lemma_leading_zero(shorter);
        assert(padded.drop_last() =~= seq!['0'] + shorter);
    }
}

/// Decides whether `text` is an unsigned decimal numeral, in one pass over
/// its bytes.
pub fn check_decimal(text: &str) -> (ok: bool)
    ensures
        ok == is_decimal(text@),
{
    if text.is_empty() || !text.is_ascii() {
        proof {
            if is_decimal(text@) {
                lemma_digits_are_ascii(text@);
            }
        }
        return false;
    }
    let bytes = text.as_bytes();
    proof {
        vstd::string::is_ascii_spec_bytes(text);
    }
    let mut i: usize = 0;
    while i < bytes.len()
        invariant
            i <= bytes.len(),
            bytes@.len() == text@.len(),
            vstd::utf8::is_ascii_chars(text@),
            forall|j: int| 0 <= j < bytes@.len() ==> bytes@[j] == #[trigger] text@[j] as u8,
            forall|j: int| 0 <= j < i ==> is_digit(#[trigger] text@[j]),
        decreases bytes.len() - i,
    {
        let b: u8 = bytes[i];
        assert(b == text@[i as int] as u8 && text@[i as int] <= '\u{7f}');
        if b < DIGIT_ZERO || b > DIGIT_NINE {
            assert(!is_digit(text@[i as int]));
            return false;
        }
        i += 1;
    }
    true
}

/// A numeral holds ASCII characters only.
proof fn lemma_digits_are_ascii(text: Seq<char>)
    requires
        is_decimal(text),
    ensures
        vstd::utf8::is_ascii_chars(text),
{
    assert forall|i: int| 0 <= i < text.len() implies '\0' <= #[trigger] text[i] <= '\u{7f}' by {
        assert(is_digit(text[i]));
    }
}

} // verus!
