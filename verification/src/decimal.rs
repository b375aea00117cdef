//! What the decimal digits of a natural number are, and what they add up to.

use vstd::prelude::*;

verus! {

/// Ten to the power `e`.
pub open spec fn pow10(e: nat) -> nat
    decreases e,
{
    if e == 0 {
        1
    } else {
        10 * pow10((e - 1) as nat)
    }
}

/// The absolute value of `v`.
pub open spec fn magnitude_of(v: int) -> nat {
    if v < 0 {
        (-v) as nat
    } else {
        v as nat
    }
}

/// The decimal digits of `n`, most significant first. Zero has the one digit 0.
pub open spec fn decimal_digits(n: nat) -> Seq<u8>
    decreases n,
{
    if n < 10 {
        seq![n as u8]
    } else {
        decimal_digits(n / 10).push((n % 10) as u8)
    }
}

/// The number that `s` denotes when read as decimal digits, most significant
/// first: the sum of `s[i] * 10^(len - 1 - i)`.
pub open spec fn digits_value(s: Seq<u8>) -> nat
    decreases s.len(),
{
    if s.len() == 0 {
        0
    } else {
        s[0] as nat * pow10((s.len() - 1) as nat) + digits_value(s.drop_first())
    }
}

/// Every element of `s` is a digit, 0 to 9.
pub open spec fn all_digits(s: Seq<u8>) -> bool {
    forall|i: int| 0 <= i < s.len() ==> s[i] <= 9
}

/// `s` is the way a number is normally written: at least one digit, nothing
/// but digits, and no zero in front unless it is the only digit.
pub open spec fn is_canonical(s: Seq<u8>) -> bool {
    &&& s.len() >= 1
    &&& all_digits(s)
    &&& s.len() > 1 ==> s[0] != 0
}

/// Powers of ten are positive.
pub proof fn lemma_pow10_positive(e: nat)
    ensures
        pow10(e) >= 1,
    decreases e,
{
    if e > 0 {
        lemma_pow10_positive((e - 1) as nat);
    }
}

/// Powers of ten grow with the exponent.
pub proof fn lemma_pow10_monotonic(a: nat, b: nat)
    requires
        a <= b,
    ensures
        pow10(a) <= pow10(b),
    decreases b,
{
    if a < b {
        lemma_pow10_monotonic(a, (b - 1) as nat);
        lemma_pow10_positive((b - 1) as nat);
    }
}

/// Zero is written as the single digit 0.
pub proof fn lemma_zero_is_one_digit()
    ensures
        decimal_digits(0) == seq![0u8],
{
}

/// The digits of a number are canonical: there is at least one, each is at
/// most 9, and the first is zero only for the number zero.
pub proof fn lemma_decimal_digits_canonical(n: nat)
    ensures
        is_canonical(decimal_digits(n)),
        n > 0 ==> decimal_digits(n)[0] != 0,
    decreases n,
{
    if n >= 10 {
        lemma_decimal_digits_canonical(n / 10);
    }
}

/// A single digit denotes itself.
pub proof fn lemma_digits_value_single(s: Seq<u8>)
    requires
        s.len() == 1,
    ensures
        digits_value(s) == s[0],
{
    let a = s[0] as nat;
    let p = pow10(0);
    assert(s.drop_first() =~= Seq::<u8>::empty());
    assert(digits_value(s.drop_first()) == 0);
    assert(a * p == a) by (nonlinear_arith)
        requires
            p == 1,
    ;
}

/// Appending a digit multiplies the value by ten and adds the digit.
pub proof fn lemma_digits_value_push(s: Seq<u8>, d: u8)
    ensures
        digits_value(s.push(d)) == 10 * digits_value(s) + d,
    decreases s.len(),
{
    let t = s.push(d);
    if s.len() == 0 {
        lemma_digits_value_single(t);
    } else {
        assert(t.drop_first() =~= s.drop_first().push(d));
        lemma_digits_value_push(s.drop_first(), d);
        let a = s[0] as nat;
        let p = pow10((s.len() - 1) as nat);
        assert(pow10((t.len() - 1) as nat) == 10 * p);
        assert(t[0] == s[0]);
        assert(digits_value(t) == a * (10 * p) + digits_value(t.drop_first()));
        assert(digits_value(s) == a * p + digits_value(s.drop_first()));
        assert(a * (10 * p) == 10 * (a * p)) by (nonlinear_arith);
    }
}

/// The digits of `n` denote `n`.
pub proof fn lemma_digits_value_of_decimal_digits(n: nat)
    ensures
        digits_value(decimal_digits(n)) == n,
    decreases n,
{
    if n < 10 {
        lemma_digits_value_single(decimal_digits(n));
    } else {
        lemma_digits_value_of_decimal_digits(n / 10);
        lemma_digits_value_push(decimal_digits(n / 10), (n % 10) as u8);
    }
}

/// A canonical digit sequence that starts with a nonzero digit denotes a
/// positive number.
proof fn lemma_value_positive(s: Seq<u8>)
    requires
        s.len() >= 1,
        s[0] != 0,
    ensures
        digits_value(s) >= 1,
{
    let p = pow10((s.len() - 1) as nat);
    lemma_pow10_positive((s.len() - 1) as nat);
    assert(s[0] as nat * p >= 1) by (nonlinear_arith)
        requires
            s[0] >= 1,
            p >= 1,
    ;
}

/// A canonical digit sequence is the digits of the number it denotes: no
/// number has two canonical ways of writing it.
pub proof fn lemma_canonical_digits_are_decimal_digits(s: Seq<u8>)
    requires
        is_canonical(s),
    ensures
        decimal_digits(digits_value(s)) == s,
    decreases s.len(),
{
    if s.len() == 1 {
        lemma_digits_value_single(s);
        assert(decimal_digits(digits_value(s)) =~= s);
    } else {
        let t = s.drop_last();
        let d = s.last();
        assert(s =~= t.push(d));
        lemma_digits_value_push(t, d);
        lemma_value_positive(t);
        lemma_canonical_digits_are_decimal_digits(t);
    }
}

/// The number of digits of `n` is the least `k >= 1` with `n < 10^k`.
pub proof fn lemma_digit_count_bounds(n: nat)
    ensures
        n < pow10(decimal_digits(n).len()),
        n > 0 ==> pow10((decimal_digits(n).len() - 1) as nat) <= n,
    decreases n,
{
    reveal_with_fuel(pow10, 2);
    if n >= 10 {
        lemma_digit_count_bounds(n / 10);
    }
}

/// A number between `10^(k - 1)` and `10^k` has exactly `k` digits.
pub proof fn lemma_digit_count(n: nat, k: nat)
    requires
        k >= 1,
        n < pow10(k),
        k > 1 ==> pow10((k - 1) as nat) <= n,
    ensures
        decimal_digits(n).len() == k,
{
    let len = decimal_digits(n).len();
    lemma_digit_count_bounds(n);
    lemma_decimal_digits_canonical(n);
    if len < k {
        lemma_pow10_monotonic(len, (k - 1) as nat);
    } else if len > k {
        lemma_pow10_monotonic(k, (len - 1) as nat);
    }
}

/// A larger number has at least as many digits.
pub proof fn lemma_digit_count_monotonic(a: nat, b: nat)
    requires
        a <= b,
    ensures
        decimal_digits(a).len() <= decimal_digits(b).len(),
{
    let la = decimal_digits(a).len();
    let lb = decimal_digits(b).len();
    lemma_digit_count_bounds(a);
    lemma_digit_count_bounds(b);
    lemma_decimal_digits_canonical(a);
    lemma_decimal_digits_canonical(b);
    if la > lb {
        lemma_pow10_monotonic(lb, (la - 1) as nat);
    }
}

} // verus!
