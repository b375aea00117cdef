//! The digits of the primitive integers.
//!
//! Every integer type gets its digits in a buffer of its own size, whose
//! capacity is the least power of two that the longest value of the type
//! fits in. The digits are worked out once, on `u128`: a signed type hands
//! over its absolute value, and has the digits of its least value, which has
//! no absolute value in the type, written out.

use crate::buffer::{
    empty_16, empty_32, empty_4, empty_64, empty_8, extend, push, reverse, Contents,
};
use crate::decimal::{
    decimal_digits, digits_value, is_canonical, lemma_decimal_digits_canonical,
    lemma_digit_count_monotonic, lemma_digits_value_of_decimal_digits, magnitude_of,
};
use tinyvec::ArrayVec;
use vstd::prelude::*;

verus! {

/// An integer that can be taken apart into its decimal digits.
pub trait Digits: Sized {
    /// The most digits that a value of this type can have.
    const MAX_NUMBER_OF_DIGITS: usize;

    /// The buffer that the digits come in.
    type R: Contents;

    /// The absolute value of `self`.
    spec fn magnitude(self) -> nat;

    /// The decimal digits of `self`, most significant first, without a sign.
    ///
    /// The result is the one canonical way of writing the absolute value of
    /// `self`: it is never empty, holds nothing but digits, starts with a
    /// zero only for zero, and adds up to the absolute value again. It never
    /// has more than `MAX_NUMBER_OF_DIGITS` digits, which the buffer has
    /// room for.
    fn digits(self) -> (r: Self::R)
        ensures
            r.contents() == decimal_digits(self.magnitude()),
            is_canonical(r.contents()),
            digits_value(r.contents()) == self.magnitude(),
            self.magnitude() == 0 ==> r.contents() == seq![0u8],
            r.contents().len() <= Self::MAX_NUMBER_OF_DIGITS <= <Self::R as Contents>::capacity(),
    ;
}

/// Fills the empty buffer `v` with the digits of `n`, most significant first.
///
/// The digits are taken off `n` from the right, least significant first, and
/// the buffer is turned round at the end.
pub(crate) fn write_digits<const N: usize>(v: &mut ArrayVec<[u8; N]>, n: u128) where
    ArrayVec<[u8; N]>: Contents,

    requires
        old(v).contents().len() == 0,
        decimal_digits(n as nat).len() <= N <= u16::MAX,
    ensures
        final(v).contents() == decimal_digits(n as nat),
{
    let mut rest: u128 = n;
    while rest >= 10
        invariant
            decimal_digits(n as nat).len() <= N <= u16::MAX,
            v.contents().len() + decimal_digits(rest as nat).len() == decimal_digits(
                n as nat,
            ).len(),
            decimal_digits(n as nat) == decimal_digits(rest as nat) + v.contents().reverse(),
        decreases rest,
    {
        let ghost before = v.contents();
        let digit: u8 = (rest % 10) as u8;
        push(v, digit);
        proof {
            let higher = decimal_digits((rest / 10) as nat);
            assert(before.push(digit).reverse() =~= seq![digit] + before.reverse());
            assert(higher.push(digit) + before.reverse() =~= higher + (seq![digit]
                + before.reverse()));
        }
        rest = rest / 10;
    }
    let ghost before = v.contents();
    let digit: u8 = rest as u8;
    push(v, digit);
    reverse(v);
    proof {
        assert(before.push(digit).reverse() =~= seq![digit] + before.reverse());
    }
}

/// What each integer type needs to know of the digits of one of its values
/// `n`, given the number `k` of digits of its largest value `max`.
proof fn lemma_digits_within(n: nat, max: nat, k: nat)
    requires
        n <= max,
        decimal_digits(max).len() == k,
    ensures
        decimal_digits(n).len() <= k,
        is_canonical(decimal_digits(n)),
        digits_value(decimal_digits(n)) == n,
{
    lemma_digit_count_monotonic(n, max);
    lemma_decimal_digits_canonical(n);
    lemma_digits_value_of_decimal_digits(n);
}

/// `c` is a power of two.
pub open spec fn is_power_of_two(c: nat) -> bool
    decreases c,
{
    c == 1 || (c >= 2 && c % 2 == 0 && is_power_of_two(c / 2))
}

/// `c` is the least power of two that is not below `m`.
pub open spec fn is_least_power_of_two_from(c: nat, m: nat) -> bool {
    is_power_of_two(c) && m <= c < 2 * m
}

/// The value of `MAX_NUMBER_OF_DIGITS` for each integer type.
pub proof fn lemma_max_number_of_digits()
    ensures
        <u8 as Digits>::MAX_NUMBER_OF_DIGITS == 3,
        <u16 as Digits>::MAX_NUMBER_OF_DIGITS == 5,
        <u32 as Digits>::MAX_NUMBER_OF_DIGITS == 10,
        <u64 as Digits>::MAX_NUMBER_OF_DIGITS == 20,
        <u128 as Digits>::MAX_NUMBER_OF_DIGITS == 39,
        <usize as Digits>::MAX_NUMBER_OF_DIGITS == 20,
        <i8 as Digits>::MAX_NUMBER_OF_DIGITS == 3,
        <i16 as Digits>::MAX_NUMBER_OF_DIGITS == 5,
        <i32 as Digits>::MAX_NUMBER_OF_DIGITS == 10,
        <i64 as Digits>::MAX_NUMBER_OF_DIGITS == 19,
        <i128 as Digits>::MAX_NUMBER_OF_DIGITS == 39,
        <isize as Digits>::MAX_NUMBER_OF_DIGITS == 19,
{
}

/// The capacity of each type's buffer is the least power of two that
/// `MAX_NUMBER_OF_DIGITS` digits fit in.
pub proof fn lemma_capacity_is_least_power_of_two()
    ensures
        is_least_power_of_two_from(
            <<u8 as Digits>::R as Contents>::capacity(),
            <u8 as Digits>::MAX_NUMBER_OF_DIGITS as nat,
        ),
        is_least_power_of_two_from(
            <<u16 as Digits>::R as Contents>::capacity(),
            <u16 as Digits>::MAX_NUMBER_OF_DIGITS as nat,
        ),
        is_least_power_of_two_from(
            <<u32 as Digits>::R as Contents>::capacity(),
            <u32 as Digits>::MAX_NUMBER_OF_DIGITS as nat,
        ),
        is_least_power_of_two_from(
            <<u64 as Digits>::R as Contents>::capacity(),
            <u64 as Digits>::MAX_NUMBER_OF_DIGITS as nat,
        ),
        is_least_power_of_two_from(
            <<u128 as Digits>::R as Contents>::capacity(),
            <u128 as Digits>::MAX_NUMBER_OF_DIGITS as nat,
        ),
        is_least_power_of_two_from(
            <<usize as Digits>::R as Contents>::capacity(),
            <usize as Digits>::MAX_NUMBER_OF_DIGITS as nat,
        ),
        is_least_power_of_two_from(
            <<i8 as Digits>::R as Contents>::capacity(),
            <i8 as Digits>::MAX_NUMBER_OF_DIGITS as nat,
        ),
        is_least_power_of_two_from(
            <<i16 as Digits>::R as Contents>::capacity(),
            <i16 as Digits>::MAX_NUMBER_OF_DIGITS as nat,
        ),
        is_least_power_of_two_from(
            <<i32 as Digits>::R as Contents>::capacity(),
            <i32 as Digits>::MAX_NUMBER_OF_DIGITS as nat,
        ),
        is_least_power_of_two_from(
            <<i64 as Digits>::R as Contents>::capacity(),
            <i64 as Digits>::MAX_NUMBER_OF_DIGITS as nat,
        ),
        is_least_power_of_two_from(
            <<i128 as Digits>::R as Contents>::capacity(),
            <i128 as Digits>::MAX_NUMBER_OF_DIGITS as nat,
        ),
        is_least_power_of_two_from(
            <<isize as Digits>::R as Contents>::capacity(),
            <isize as Digits>::MAX_NUMBER_OF_DIGITS as nat,
        ),
{
    reveal_with_fuel(is_power_of_two, 7);
}

/// The largest value of each integer type has exactly as many digits as the
/// type's `MAX_NUMBER_OF_DIGITS` says. For `usize` and `isize` this is so
/// where they are 64 bits wide.
pub proof fn lemma_largest_values_have_max_number_of_digits()
    ensures
        decimal_digits(u8::MAX as nat).len() == <u8 as Digits>::MAX_NUMBER_OF_DIGITS,
        decimal_digits(u16::MAX as nat).len() == <u16 as Digits>::MAX_NUMBER_OF_DIGITS,
        decimal_digits(u32::MAX as nat).len() == <u32 as Digits>::MAX_NUMBER_OF_DIGITS,
        decimal_digits(u64::MAX as nat).len() == <u64 as Digits>::MAX_NUMBER_OF_DIGITS,
        decimal_digits(u128::MAX as nat).len() == <u128 as Digits>::MAX_NUMBER_OF_DIGITS,
        decimal_digits(i8::MAX as nat).len() == <i8 as Digits>::MAX_NUMBER_OF_DIGITS,
        decimal_digits(i16::MAX as nat).len() == <i16 as Digits>::MAX_NUMBER_OF_DIGITS,
        decimal_digits(i32::MAX as nat).len() == <i32 as Digits>::MAX_NUMBER_OF_DIGITS,
        decimal_digits(i64::MAX as nat).len() == <i64 as Digits>::MAX_NUMBER_OF_DIGITS,
        decimal_digits(i128::MAX as nat).len() == <i128 as Digits>::MAX_NUMBER_OF_DIGITS,
        usize::MAX == u64::MAX ==> decimal_digits(usize::MAX as nat).len()
            == <usize as Digits>::MAX_NUMBER_OF_DIGITS,
        isize::MAX == i64::MAX ==> decimal_digits(isize::MAX as nat).len()
            == <isize as Digits>::MAX_NUMBER_OF_DIGITS,
{
    assert(decimal_digits(255).len() == 3) by {
        reveal_with_fuel(decimal_digits, 3);
    }
    assert(decimal_digits(65535).len() == 5) by {
        reveal_with_fuel(decimal_digits, 5);
    }
    assert(decimal_digits(4294967295).len() == 10) by {
        reveal_with_fuel(decimal_digits, 10);
    }
    assert(decimal_digits(18446744073709551615).len() == 20) by {
        reveal_with_fuel(decimal_digits, 20);
    }
    assert(decimal_digits(340282366920938463463374607431768211455).len() == 39) by {
        reveal_with_fuel(decimal_digits, 39);
    }
    assert(decimal_digits(127).len() == 3) by {
        reveal_with_fuel(decimal_digits, 3);
    }
    assert(decimal_digits(32767).len() == 5) by {
        reveal_with_fuel(decimal_digits, 5);
    }
    assert(decimal_digits(2147483647).len() == 10) by {
        reveal_with_fuel(decimal_digits, 10);
    }
    assert(decimal_digits(9223372036854775807).len() == 19) by {
        reveal_with_fuel(decimal_digits, 19);
    }
    assert(decimal_digits(170141183460469231731687303715884105727).len() == 39) by {
        reveal_with_fuel(decimal_digits, 39);
    }
}

/// The digits of the least value of each signed type, whose absolute value is
/// one more than the largest value of the type. For `isize` they are given
/// where it is 64 bits wide.
pub proof fn lemma_least_values_digits()
    ensures
        decimal_digits(magnitude_of(i8::MIN as int)) == seq![1u8, 2, 8],
        decimal_digits(magnitude_of(i16::MIN as int)) == seq![3u8, 2, 7, 6, 8],
        decimal_digits(magnitude_of(i32::MIN as int)) == seq![2u8, 1, 4, 7, 4, 8, 3, 6, 4, 8],
        decimal_digits(magnitude_of(i64::MIN as int)) == seq![
            9u8, 2, 2, 3, 3, 7, 2, 0, 3, 6, 8, 5, 4, 7, 7, 5, 8, 0, 8,
        ],
        isize::MIN == i64::MIN ==> decimal_digits(magnitude_of(isize::MIN as int)) == seq![
            9u8, 2, 2, 3, 3, 7, 2, 0, 3, 6, 8, 5, 4, 7, 7, 5, 8, 0, 8,
        ],
        decimal_digits(magnitude_of(i128::MIN as int)) == seq![
            1u8, 7, 0, 1, 4, 1, 1, 8, 3, 4, 6, 0, 4, 6, 9, 2, 3, 1, 7, 3, 1, 6, 8, 7, 3, 0, 3,
            7, 1, 5, 8, 8, 4, 1, 0, 5, 7, 2, 8,
        ],
{
    assert(decimal_digits(128) == seq![1u8, 2, 8]) by {
        reveal_with_fuel(decimal_digits, 3);
    }
    assert(decimal_digits(32768) == seq![3u8, 2, 7, 6, 8]) by {
        reveal_with_fuel(decimal_digits, 5);
    }
    assert(decimal_digits(2147483648) == seq![2u8, 1, 4, 7, 4, 8, 3, 6, 4, 8]) by {
        reveal_with_fuel(decimal_digits, 10);
    }
    assert(decimal_digits(9223372036854775808) == seq![
        9u8, 2, 2, 3, 3, 7, 2, 0, 3, 6, 8, 5, 4, 7, 7, 5, 8, 0, 8,
    ]) by {
        reveal_with_fuel(decimal_digits, 19);
    }
    assert(decimal_digits(170141183460469231731687303715884105728) == seq![
        1u8, 7, 0, 1, 4, 1, 1, 8, 3, 4, 6, 0, 4, 6, 9, 2, 3, 1, 7, 3, 1, 6, 8, 7, 3, 0, 3, 7, 1,
        5, 8, 8, 4, 1, 0, 5, 7, 2, 8,
    ]) by {
        reveal_with_fuel(decimal_digits, 39);
    }
}

impl Digits for u8 {
    const MAX_NUMBER_OF_DIGITS: usize = 3;

    type R = ArrayVec<[u8; 4]>;

    open spec fn magnitude(self) -> nat {
        self as nat
    }

    fn digits(self) -> (r: ArrayVec<[u8; 4]>) {
        proof {
            lemma_largest_values_have_max_number_of_digits();
            lemma_digits_within(self as nat, u8::MAX as nat, 3);
        }
        let mut v = empty_4();
        write_digits(&mut v, self as u128);
        v
    }
}

impl Digits for u16 {
    const MAX_NUMBER_OF_DIGITS: usize = 5;

    type R = ArrayVec<[u8; 8]>;

    open spec fn magnitude(self) -> nat {
        self as nat
    }

    fn digits(self) -> (r: ArrayVec<[u8; 8]>) {
        proof {
            lemma_largest_values_have_max_number_of_digits();
            lemma_digits_within(self as nat, u16::MAX as nat, 5);
        }
        let mut v = empty_8();
        write_digits(&mut v, self as u128);
        v
    }
}

impl Digits for u32 {
    const MAX_NUMBER_OF_DIGITS: usize = 10;

    type R = ArrayVec<[u8; 16]>;

    open spec fn magnitude(self) -> nat {
        self as nat
    }

    fn digits(self) -> (r: ArrayVec<[u8; 16]>) {
        proof {
            lemma_largest_values_have_max_number_of_digits();
            lemma_digits_within(self as nat, u32::MAX as nat, 10);
        }
        let mut v = empty_16();
        write_digits(&mut v, self as u128);
        v
    }
}

impl Digits for u64 {
    const MAX_NUMBER_OF_DIGITS: usize = 20;

    type R = ArrayVec<[u8; 32]>;

    open spec fn magnitude(self) -> nat {
        self as nat
    }

    fn digits(self) -> (r: ArrayVec<[u8; 32]>) {
        proof {
            lemma_largest_values_have_max_number_of_digits();
            lemma_digits_within(self as nat, u64::MAX as nat, 20);
        }
        let mut v = empty_32();
        write_digits(&mut v, self as u128);
        v
    }
}

impl Digits for u128 {
    const MAX_NUMBER_OF_DIGITS: usize = 39;

    type R = ArrayVec<[u8; 64]>;

    open spec fn magnitude(self) -> nat {
        self as nat
    }

    fn digits(self) -> (r: ArrayVec<[u8; 64]>) {
        proof {
            lemma_largest_values_have_max_number_of_digits();
            lemma_digits_within(self as nat, u128::MAX as nat, 39);
        }
        let mut v = empty_64();
        write_digits(&mut v, self as u128);
        v
    }
}

impl Digits for usize {
    const MAX_NUMBER_OF_DIGITS: usize = 20;

    type R = ArrayVec<[u8; 32]>;

    open spec fn magnitude(self) -> nat {
        self as nat
    }

    /// A `usize` is at most 64 bits wide, and has the digits of the same
    /// number as a `u64`.
    fn digits(self) -> (r: ArrayVec<[u8; 32]>) {
        (self as u64).digits()
    }
}

impl Digits for i8 {
    const MAX_NUMBER_OF_DIGITS: usize = 3;

    type R = ArrayVec<[u8; 4]>;

    open spec fn magnitude(self) -> nat {
        magnitude_of(self as int)
    }

    fn digits(self) -> (r: ArrayVec<[u8; 4]>) {
        let mut v = empty_4();
        if self == i8::MIN {
            proof {
                lemma_least_values_digits();
                lemma_digits_within(128, 128, 3);
            }
            extend(&mut v, [1, 2, 8]);
        } else {
            let magnitude: i8 = if self < 0 {
                -self
            } else {
                self
            };
            proof {
                lemma_largest_values_have_max_number_of_digits();
                lemma_digits_within(magnitude as nat, i8::MAX as nat, 3);
            }
            write_digits(&mut v, magnitude as u128);
        }
        v
    }
}

impl Digits for i16 {
    const MAX_NUMBER_OF_DIGITS: usize = 5;

    type R = ArrayVec<[u8; 8]>;

    open spec fn magnitude(self) -> nat {
        magnitude_of(self as int)
    }

    fn digits(self) -> (r: ArrayVec<[u8; 8]>) {
        let mut v = empty_8();
        if self == i16::MIN {
            proof {
                lemma_least_values_digits();
                lemma_digits_within(32768, 32768, 5);
            }
            extend(&mut v, [3, 2, 7, 6, 8]);
        } else {
            let magnitude: i16 = if self < 0 {
                -self
            } else {
                self
            };
            proof {
                lemma_largest_values_have_max_number_of_digits();
                lemma_digits_within(magnitude as nat, i16::MAX as nat, 5);
            }
            write_digits(&mut v, magnitude as u128);
        }
        v
    }
}

impl Digits for i32 {
    const MAX_NUMBER_OF_DIGITS: usize = 10;

    type R = ArrayVec<[u8; 16]>;

    open spec fn magnitude(self) -> nat {
        magnitude_of(self as int)
    }

    fn digits(self) -> (r: ArrayVec<[u8; 16]>) {
        let mut v = empty_16();
        if self == i32::MIN {
            proof {
                lemma_least_values_digits();
                lemma_digits_within(2147483648, 2147483648, 10);
            }
            extend(&mut v, [2, 1, 4, 7, 4, 8, 3, 6, 4, 8]);
        } else {
            let magnitude: i32 = if self < 0 {
                -self
            } else {
                self
            };
            proof {
                lemma_largest_values_have_max_number_of_digits();
                lemma_digits_within(magnitude as nat, i32::MAX as nat, 10);
            }
            write_digits(&mut v, magnitude as u128);
        }
        v
    }
}

impl Digits for i64 {
    const MAX_NUMBER_OF_DIGITS: usize = 19;

    type R = ArrayVec<[u8; 32]>;

    open spec fn magnitude(self) -> nat {
        magnitude_of(self as int)
    }

    fn digits(self) -> (r: ArrayVec<[u8; 32]>) {
        let mut v = empty_32();
        if self == i64::MIN {
            proof {
                lemma_least_values_digits();
                lemma_digits_within(9223372036854775808, 9223372036854775808, 19);
            }
            extend(&mut v, [9, 2, 2, 3, 3, 7, 2, 0, 3, 6, 8, 5, 4, 7, 7, 5, 8, 0, 8]);
        } else {
            let magnitude: i64 = if self < 0 {
                -self
            } else {
                self
            };
            proof {
                lemma_largest_values_have_max_number_of_digits();
                lemma_digits_within(magnitude as nat, i64::MAX as nat, 19);
            }
            write_digits(&mut v, magnitude as u128);
        }
        v
    }
}

impl Digits for i128 {
    const MAX_NUMBER_OF_DIGITS: usize = 39;

    type R = ArrayVec<[u8; 64]>;

    open spec fn magnitude(self) -> nat {
        magnitude_of(self as int)
    }

    fn digits(self) -> (r: ArrayVec<[u8; 64]>) {
        let mut v = empty_64();
        if self == i128::MIN {
            proof {
                lemma_least_values_digits();
                lemma_digits_within(
                    170141183460469231731687303715884105728,
                    170141183460469231731687303715884105728,
                    39,
                );
            }
            extend(&mut v, [
                1, 7, 0, 1, 4, 1, 1, 8, 3, 4, 6, 0, 4, 6, 9, 2, 3, 1, 7, 3, 1, 6, 8, 7, 3, 0, 3,
                7, 1, 5, 8, 8, 4, 1, 0, 5, 7, 2, 8,
            ]);
        } else {
            let magnitude: i128 = if self < 0 {
                -self
            } else {
                self
            };
            proof {
                lemma_largest_values_have_max_number_of_digits();
                lemma_digits_within(magnitude as nat, i128::MAX as nat, 39);
            }
            write_digits(&mut v, magnitude as u128);
        }
        v
    }
}

impl Digits for isize {
    const MAX_NUMBER_OF_DIGITS: usize = 19;

    type R = ArrayVec<[u8; 32]>;

    open spec fn magnitude(self) -> nat {
        magnitude_of(self as int)
    }

    /// An `isize` is at most 64 bits wide, and has the digits of the same
    /// number as an `i64`.
    fn digits(self) -> (r: ArrayVec<[u8; 32]>) {
        (self as i64).digits()
    }
}

} // verus!
