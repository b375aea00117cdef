//! The digits on either side of the decimal point of a floating-point number.
//!
//! The library does no floating-point arithmetic: a number comes to it as
//! `FloatParts`, read off the number by the caller.

use crate::decimal::{all_digits, decimal_digits};
use crate::text::{
    char_to_digit, decimal_text, digit_of_char, digits_text, into_boxed_slice, is_decimal_digit,
    lemma_text_digits_of_decimal_text, lemma_text_digits_of_digits_text, stringable_to_digits,
    text_digits,
};
use vstd::prelude::*;
use vstd::std_specs::iter::IteratorSpec;

verus! {

/// A number with a decimal point, taken apart into the digits on either side
/// of the point.
pub trait FloatDigits {
    /// The digits that stand left of the decimal point.
    spec fn left_of_dot(&self) -> Seq<u8>;

    /// The digits that stand right of the decimal point.
    spec fn right_of_dot(&self) -> Seq<u8>;

    /// Digits left of the decimal point
    fn digits_left_of_dot(&self) -> (digits: Box<[u8]>)
        ensures
            digits@ == self.left_of_dot(),
    ;

    /// Digits right of the decimal point
    fn digits_right_of_dot(&self) -> (digits: Box<[u8]>)
        ensures
            digits@ == self.right_of_dot(),
    ;

    /// Digits left of the decimal point, and right of the decimal point in that order.
    fn digits_left_then_right_of_dot(&self) -> (both: [Box<[u8]>; 2])
        ensures
            both[0]@ == self.left_of_dot(),
            both[1]@ == self.right_of_dot(),
    {
        [self.digits_left_of_dot(), self.digits_right_of_dot()]
    }
}

/// What is read off a floating-point number before its digits are taken.
pub struct FloatParts {
    /// Whether the number is finite: neither an infinity nor NaN.
    pub finite: bool,
    /// The absolute value of the number's whole part, in decimal.
    pub whole: String,
    /// The absolute value of the number's fractional part, in decimal: `0`,
    /// or `0.` and the digits of the fraction.
    pub fraction: String,
}

/// The part of `text` behind its first decimal point, and all of `text`
/// where it has none.
pub open spec fn after_dot(text: Seq<char>) -> Seq<char> {
    match text.index_of_first('.') {
        Some(at) => text.skip(at + 1),
        None => text,
    }
}

/// The digits written in `text` behind its first decimal point; those
/// written anywhere in `text` where it has no decimal point.
pub fn digits_after_dot(text: &str) -> (digits: Box<[u8]>)
    ensures
        digits@ == text_digits(after_dot(text@)),
{
    let mut found: Vec<u8> = Vec::new();
    let mut rest = text.chars();
    let mut dot_seen = false;
    let ghost mut seen: int = 0;
    let ghost mut start: int = 0;
    loop
        invariant
            0 <= start <= seen <= text@.len(),
            rest.remaining() == text@.skip(seen),
            found@ == text_digits(text@.subrange(start, seen)),
            dot_seen ==> start >= 1 && text@[start - 1] == '.' && forall|k: int|
                0 <= k < start - 1 ==> text@[k] != '.',
            !dot_seen ==> start == 0 && forall|k: int| 0 <= k < seen ==> text@[k] != '.',
        decreases text@.len() - seen,
    {
        match rest.next() {
            Some(c) => {
                proof {
                    assert(text@.skip(seen).drop_first() =~= text@.skip(seen + 1));
                }
                if !dot_seen && c == '.' {
                    found.clear();
                    dot_seen = true;
                    proof {
                        seen = seen + 1;
                        start = seen;
                        assert(text@.subrange(start, seen) =~= Seq::<char>::empty());
                    }
                } else {
                    proof {
                        let behind = text@.skip(start);
                        behind.lemma_filter_map_take_succ(|c: char| digit_of_char(c), seen - start);
                        assert(behind.take(seen - start) =~= text@.subrange(start, seen));
                        assert(behind.take(seen - start + 1) =~= text@.subrange(start, seen + 1));
                        seen = seen + 1;
                    }
                    if is_decimal_digit(c) {
                        found.push(char_to_digit(c));
                    }
                }
            },
            None => {
                proof {
                    text@.index_of_first_ensures('.');
                    assert(text@.subrange(start, seen) =~= text@.skip(start));
                    if !dot_seen {
                        assert(text@.skip(0) =~= text@);
                    }
                }
                return into_boxed_slice(found);
            },
        }
    }
}

impl FloatDigits for FloatParts {
    open spec fn left_of_dot(&self) -> Seq<u8> {
        if self.finite {
            text_digits(self.whole@)
        } else {
            Seq::empty()
        }
    }

    open spec fn right_of_dot(&self) -> Seq<u8> {
        if self.finite {
            text_digits(after_dot(self.fraction@))
        } else {
            Seq::empty()
        }
    }

    fn digits_left_of_dot(&self) -> (digits: Box<[u8]>)
        ensures
            !self.finite ==> digits@ == Seq::<u8>::empty(),
    {
        if self.finite {
            stringable_to_digits(self.whole.as_str())
        } else {
            into_boxed_slice(Vec::new())
        }
    }

    fn digits_right_of_dot(&self) -> (digits: Box<[u8]>)
        ensures
            !self.finite ==> digits@ == Seq::<u8>::empty(),
    {
        if self.finite {
            digits_after_dot(self.fraction.as_str())
        } else {
            into_boxed_slice(Vec::new())
        }
    }
}

/// Where the whole part is the decimal text of the number `n`, the digits
/// left of the decimal point are the digits of `n`.
pub proof fn lemma_left_of_dot_of_whole_number(parts: FloatParts, n: nat)
    requires
        parts.finite,
        parts.whole@ == decimal_text(n as int),
    ensures
        parts.left_of_dot() == decimal_digits(n),
{
    lemma_text_digits_of_decimal_text(n as int);
}

/// Where the fractional part is written as `0.` and the digits `s`, the
/// digits right of the decimal point are `s`.
pub proof fn lemma_right_of_dot_of_fraction(parts: FloatParts, s: Seq<u8>)
    requires
        parts.finite,
        all_digits(s),
        parts.fraction@ == seq!['0', '.'] + digits_text(s),
    ensures
        parts.right_of_dot() == s,
{
    let text = parts.fraction@;
    text.index_of_first_ensures('.');
    assert(text[0] == '0');
    assert(text[1] == '.');
    assert(text.index_of_first('.') == Some(1int));
    assert(text.skip(2) =~= digits_text(s));
    lemma_text_digits_of_digits_text(s);
}

/// Where the fractional part is written without a decimal point, as the text
/// `0` of a number without a fraction, all its digits count.
pub proof fn lemma_right_of_dot_without_dot(parts: FloatParts)
    requires
        parts.finite,
        !parts.fraction@.contains('.'),
    ensures
        parts.right_of_dot() == text_digits(parts.fraction@),
{
    parts.fraction@.index_of_first_ensures('.');
}

} // verus!
