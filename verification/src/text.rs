//! The digits written in a piece of text.

use crate::decimal::{all_digits, decimal_digits, lemma_decimal_digits_canonical, magnitude_of};
use vstd::prelude::*;
use vstd::std_specs::iter::IteratorSpec;

verus! {

/// The digit that the character `c` stands for, if it is one of `0` to `9`.
pub open spec fn digit_of_char(c: char) -> Option<u8> {
    if '0' <= c <= '9' {
        Some((c as u32 - '0' as u32) as u8)
    } else {
        None
    }
}

/// The digits written in `text`, in the order in which they stand there.
/// Every other character is passed over.
pub open spec fn text_digits(text: Seq<char>) -> Seq<u8> {
    text.filter_map(|c: char| digit_of_char(c))
}

/// The character that the digit `d` is written as.
pub open spec fn char_of_digit(d: u8) -> char {
    ('0' as u32 + d as u32) as char
}

/// The digits `s`, written out as text.
pub open spec fn digits_text(s: Seq<u8>) -> Seq<char> {
    s.map_values(|d: u8| char_of_digit(d))
}

/// The integer `v` as it is written in decimal: a minus sign where it is
/// negative, then the digits of its absolute value.
pub open spec fn decimal_text(v: int) -> Seq<char> {
    if v < 0 {
        seq!['-'] + digits_text(decimal_digits(magnitude_of(v)))
    } else {
        digits_text(decimal_digits(magnitude_of(v)))
    }
}

/// The digits written in two pieces of text, one behind the other, are those
/// of the first followed by those of the second.
pub proof fn lemma_text_digits_concat(a: Seq<char>, b: Seq<char>)
    ensures
        text_digits(a + b) == text_digits(a) + text_digits(b),
    decreases b.len(),
{
    if b.len() == 0 {
        assert(a + b =~= a);
        assert(text_digits(a) + text_digits(b) =~= text_digits(a));
    } else {
        assert((a + b).drop_last() =~= a + b.drop_last());
        lemma_text_digits_concat(a, b.drop_last());
        assert(text_digits(a + b) =~= text_digits(a) + text_digits(b));
    }
}

/// Digits that are written out as text are read back as they were.
pub proof fn lemma_text_digits_of_digits_text(s: Seq<u8>)
    requires
        all_digits(s),
    ensures
        text_digits(digits_text(s)) == s,
    decreases s.len(),
{
    let t = digits_text(s);
    if s.len() > 0 {
        assert(t.drop_last() =~= digits_text(s.drop_last()));
        lemma_text_digits_of_digits_text(s.drop_last());
        assert(digit_of_char(t.last()) == Some(s.last()));
        assert(s.drop_last() + seq![s.last()] =~= s);
    }
}

/// The digits of an integer are the digits written in its decimal text: the
/// sign is passed over.
pub proof fn lemma_text_digits_of_decimal_text(v: int)
    ensures
        text_digits(decimal_text(v)) == decimal_digits(magnitude_of(v)),
{
    let digits = decimal_digits(magnitude_of(v));
    lemma_decimal_digits_canonical(magnitude_of(v));
    lemma_text_digits_of_digits_text(digits);
    if v < 0 {
        lemma_text_digits_concat(seq!['-'], digits_text(digits));
        Seq::lemma_filter_map_singleton('-', |c: char| digit_of_char(c));
        assert(Seq::<u8>::empty() + digits =~= digits);
    }
}

/// Whether `c` is one of the characters `0` to `9`.
pub fn is_decimal_digit(c: char) -> (b: bool)
    ensures
        b == (digit_of_char(c) is Some),
{
    '0' <= c && c <= '9'
}

/// The digit that the character `c`, one of `0` to `9`, stands for.
pub fn char_to_digit(c: char) -> (d: u8)
    requires
        digit_of_char(c) is Some,
    ensures
        digit_of_char(c) == Some(d),
{
    match c {
        '0' => 0,
        '1' => 1,
        '2' => 2,
        '3' => 3,
        '4' => 4,
        '5' => 5,
        '6' => 6,
        '7' => 7,
        '8' => 8,
        _ => 9,
    }
}

/// `Vec::into_boxed_slice`. Trusted: the boxed slice holds the items of the
/// vector, in the same order.
#[verifier::external_body]
pub(crate) fn into_boxed_slice(v: Vec<u8>) -> (b: Box<[u8]>)
    ensures
        b@ == v@,
{
    v.into_boxed_slice()
}

/// The digits written in `text`, in order. Characters that are no digits,
/// such as a sign or a decimal point, are left out.
pub fn stringable_to_digits(text: &str) -> (digits: Box<[u8]>)
    ensures
        digits@ == text_digits(text@),
{
    let mut found: Vec<u8> = Vec::new();
    let mut rest = text.chars();
    let ghost mut seen: int = 0;
    loop
        invariant
            0 <= seen <= text@.len(),
            rest.remaining() == text@.skip(seen),
            found@ == text_digits(text@.take(seen)),
        decreases text@.len() - seen,
    {
        match rest.next() {
            Some(c) => {
                proof {
                    text@.lemma_filter_map_take_succ(|c: char| digit_of_char(c), seen);
                    assert(text@.skip(seen).drop_first() =~= text@.skip(seen + 1));
                    seen = seen + 1;
                }
                if is_decimal_digit(c) {
                    found.push(char_to_digit(c));
                }
            },
            None => {
                assert(text@.take(seen) =~= text@);
                return into_boxed_slice(found);
            },
        }
    }
}

} // verus!
