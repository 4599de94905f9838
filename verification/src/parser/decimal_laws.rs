//! Laws of decimal digits and powers of ten, and why the canonical form is
//! canonical: two decimals in canonical form that are the same number are
//! the same decimal.

use super::decimal::{digits_in_range, digits_value, pow10, same_number, SpecDecimal};
use vstd::prelude::*;

verus! {

/// Digits written behind other digits shift them to the left.
pub proof fn lemma_value_of_joined(front: Seq<u8>, back: Seq<u8>)
    ensures
        digits_value(front + back) == digits_value(front) * pow10(back.len()) + digits_value(back),
    decreases back.len(),
{
    if back.len() == 0 {
        assert(front + back =~= front);
        assert(pow10(0) == 1);
        assert(digits_value(front) * 1 == digits_value(front)) by (nonlinear_arith);
    } else {
        let shorter = back.drop_last();
        lemma_value_of_joined(front, shorter);
        assert((front + back).drop_last() =~= front + shorter);
        assert((front + back).last() == back.last());
        let high = digits_value(front);
        let unit = pow10(shorter.len());
        assert(pow10(back.len()) == 10 * unit);
        assert((high * unit + digits_value(shorter)) * 10 == high * (10 * unit) + digits_value(
            shorter,
        ) * 10) by (nonlinear_arith);
    }
}

/// A run of `n` digits denotes a number below ten to the power `n`.
pub proof fn lemma_value_is_bounded(digits: Seq<u8>)
    requires
        digits_in_range(digits),
    ensures
        digits_value(digits) < pow10(digits.len()),
    decreases digits.len(),
{
    if digits.len() == 0 {
        assert(pow10(0) == 1);
    } else {
        let shorter = digits.drop_last();
        assert forall|i: int| 0 <= i < shorter.len() implies #[trigger] shorter[i] <= 9 by {
            assert(shorter[i] == digits[i]);
        }
        lemma_value_is_bounded(shorter);
        assert(digits[digits.len() - 1] <= 9);
        assert(pow10(digits.len()) == 10 * pow10(shorter.len()));
    }
}

/// Ten to any power is positive.
pub proof fn lemma_pow10_positive(n: nat)
    ensures
        pow10(n) >= 1,
    decreases n,
{
    if n > 0 {
        lemma_pow10_positive((n - 1) as nat);
    }
}

/// Powers of ten multiply as their exponents add.
pub proof fn lemma_pow10_sum(a: nat, b: nat)
    ensures
        pow10(a + b) == pow10(a) * pow10(b),
    decreases b,
{
    if b == 0 {
        assert(pow10(0) == 1);
    } else {
        lemma_pow10_sum(a, (b - 1) as nat);
        assert(pow10(a + b) == 10 * pow10((a + b - 1) as nat));
        assert(pow10(b) == 10 * pow10((b - 1) as nat));
        assert(10 * (pow10(a) * pow10((b - 1) as nat)) == pow10(a) * (10 * pow10((b - 1) as nat)))
            by (nonlinear_arith);
    }
}

/// Powers of ten grow with the exponent.
pub proof fn lemma_pow10_grows(a: nat, b: nat)
    requires
        a <= b,
    ensures
        pow10(a) <= pow10(b),
    decreases b,
{
    if a < b {
        lemma_pow10_grows(a, (b - 1) as nat);
        lemma_pow10_positive((b - 1) as nat);
    }
}

/// A run of `n` digits that starts with no zero denotes a number of at
/// least ten to the power `n - 1`.
pub proof fn lemma_value_without_leading_zero(digits: Seq<u8>)
    requires
        digits.len() >= 1,
        digits[0] != 0,
    ensures
        digits_value(digits) >= pow10((digits.len() - 1) as nat),
    decreases digits.len(),
{
    let shorter = digits.drop_last();
    if digits.len() == 1 {
        assert(shorter.len() == 0);
        assert(digits_value(shorter) == 0);
        assert(pow10(0) == 1);
    } else {
        assert(shorter[0] == digits[0]);
        lemma_value_without_leading_zero(shorter);
        assert(pow10((digits.len() - 1) as nat) == 10 * pow10((shorter.len() - 1) as nat));
    }
}

/// Two runs of digits of one length that denote the same number are the
/// same run.
pub proof fn lemma_same_length_same_digits(a: Seq<u8>, b: Seq<u8>)
    requires
        digits_in_range(a),
        digits_in_range(b),
        a.len() == b.len(),
        digits_value(a) == digits_value(b),
    ensures
        a == b,
    decreases a.len(),
{
    if a.len() > 0 {
        let shorter_a = a.drop_last();
        let shorter_b = b.drop_last();
        assert(a[a.len() - 1] <= 9);
        assert(b[b.len() - 1] <= 9);
        assert forall|i: int| 0 <= i < shorter_a.len() implies #[trigger] shorter_a[i] <= 9 by {
            assert(shorter_a[i] == a[i]);
        }
        assert forall|i: int| 0 <= i < shorter_b.len() implies #[trigger] shorter_b[i] <= 9 by {
            assert(shorter_b[i] == b[i]);
        }
        lemma_same_length_same_digits(shorter_a, shorter_b);
        assert(a =~= shorter_a.push(a.last()));
        assert(b =~= shorter_b.push(b.last()));
    } else {
        assert(a =~= b);
    }
}

/// Two integer parts without needless zeros that denote the same number
/// are the same run of digits.
pub proof fn lemma_same_integer_part(a: Seq<u8>, b: Seq<u8>)
    requires
        digits_in_range(a),
        digits_in_range(b),
        a.len() >= 1,
        b.len() >= 1,
        a.len() > 1 ==> a[0] != 0,
        b.len() > 1 ==> b[0] != 0,
        digits_value(a) == digits_value(b),
    ensures
        a == b,
{
    if a.len() < b.len() {
        lemma_value_is_bounded(a);
        lemma_value_without_leading_zero(b);
        lemma_pow10_grows(a.len(), (b.len() - 1) as nat);
    } else if b.len() < a.len() {
        lemma_value_is_bounded(b);
        lemma_value_without_leading_zero(a);
        lemma_pow10_grows(b.len(), (a.len() - 1) as nat);
    } else {
        lemma_same_length_same_digits(a, b);
    }
}

/// The digits of a decimal, read as one integer.
pub open spec fn magnitude(d: SpecDecimal) -> nat {
    digits_value(d.integer + d.fraction)
}

/// A decimal in canonical form has the digits of zero only if it is zero,
/// and a fraction that is written ends in a digit that is not zero.
pub proof fn lemma_magnitude(d: SpecDecimal)
    requires
        d.is_canonical(),
    ensures
        magnitude(d) == digits_value(d.integer) * pow10(d.scale()) + digits_value(d.fraction),
        digits_value(d.fraction) < pow10(d.scale()),
        magnitude(d) == 0 ==> d.is_zero(),
        d.scale() > 0 ==> magnitude(d) % 10 != 0,
{
    lemma_value_of_joined(d.integer, d.fraction);
    lemma_value_is_bounded(d.fraction);
    lemma_pow10_positive(d.scale());
    let high = digits_value(d.integer);
    let unit = pow10(d.scale());
    assert(high * unit >= 0) by (nonlinear_arith)
        requires
            high >= 0,
            unit >= 0,
    ;
    if d.scale() > 0 {
        let joined = d.integer + d.fraction;
        assert(joined.last() == d.fraction.last());
        assert(d.fraction[d.fraction.len() - 1] <= 9);
        assert(magnitude(d) == digits_value(joined.drop_last()) * 10 + joined.last());
    } else {
        assert(d.fraction.len() == 0);
        if magnitude(d) == 0 {
            assert(unit == 1);
            assert(high * 1 == high) by (nonlinear_arith);
            if d.integer.len() > 1 {
                lemma_value_without_leading_zero(d.integer);
                lemma_pow10_positive((d.integer.len() - 1) as nat);
            } else {
                assert(d.integer.drop_last().len() == 0);
                assert(digits_value(d.integer.drop_last()) == 0);
                assert(d.integer =~= seq![0u8]);
            }
        }
    }
}

/// Two decimals in canonical form are the same number only if they are
/// the same decimal: equality of decimals is equality of numbers.
pub proof fn lemma_canonical_form_is_unique(a: SpecDecimal, b: SpecDecimal)
    requires
        a.is_canonical(),
        b.is_canonical(),
        same_number(a.unscaled(), a.scale(), b.unscaled(), b.scale()),
    ensures
        a == b,
{
    lemma_magnitude(a);
    lemma_magnitude(b);
    let ma = magnitude(a) as int;
    let mb = magnitude(b) as int;
    let pa = pow10(a.scale()) as int;
    let pb = pow10(b.scale()) as int;
    lemma_pow10_positive(a.scale());
    lemma_pow10_positive(b.scale());
    // The signs agree, so the magnitudes stand in the same proportion.
    assert(a.negative == b.negative && ma * pb == mb * pa) by {
        let ua = a.unscaled();
        let ub = b.unscaled();
        assert(ua * pb == ub * pa);
        if a.negative && !b.negative {
            assert(ma > 0);
            assert((-ma) * pb < 0) by (nonlinear_arith)
                requires
                    ma > 0,
                    pb >= 1,
            ;
            assert(mb * pa >= 0) by (nonlinear_arith)
                requires
                    mb >= 0,
                    pa >= 1,
            ;
        } else if !a.negative && b.negative {
            assert(mb > 0);
            assert((-mb) * pa < 0) by (nonlinear_arith)
                requires
                    mb > 0,
                    pa >= 1,
            ;
            assert(ma * pb >= 0) by (nonlinear_arith)
                requires
                    ma >= 0,
                    pb >= 1,
            ;
        } else if a.negative {
            assert((-ma) * pb == -(ma * pb)) by (nonlinear_arith);
            assert((-mb) * pa == -(mb * pa)) by (nonlinear_arith);
        }
    }
    // Neither has more digits behind the point than the other.
    if a.scale() < b.scale() {
        lemma_longer_fraction_ends_in_zero(ma, a.scale(), mb, b.scale());
    } else if b.scale() < a.scale() {
        lemma_longer_fraction_ends_in_zero(mb, b.scale(), ma, a.scale());
    }
    assert(a.scale() == b.scale());
    assert(ma == mb) by (nonlinear_arith)
        requires
            ma * pb == mb * pa,
            pa == pb,
            pa >= 1,
    ;
    let ia = digits_value(a.integer) as int;
    let ib = digits_value(b.integer) as int;
    let fa = digits_value(a.fraction) as int;
    let fb = digits_value(b.fraction) as int;
    assert(ia == ib && fa == fb) by (nonlinear_arith)
        requires
            ia * pa + fa == ib * pa + fb,
            0 <= fa < pa,
            0 <= fb < pa,
    ;
    lemma_same_integer_part(a.integer, b.integer);
    lemma_same_length_same_digits(a.fraction, b.fraction);
}

/// Where two fractions are the same and one has more digits behind the
/// point, its digits end in zero.
proof fn lemma_longer_fraction_ends_in_zero(short: int, short_scale: nat, long: int, long_scale: nat)
    requires
        short_scale < long_scale,
        short * pow10(long_scale) == long * pow10(short_scale),
    ensures
        long % 10 == 0,
{
    let extra = (long_scale - short_scale - 1) as nat;
    lemma_pow10_sum(short_scale, extra + 1);
    lemma_pow10_positive(short_scale);
    let unit = pow10(short_scale) as int;
    let rest = pow10(extra) as int;
    assert(pow10(extra + 1) == 10 * rest);
    assert(short * (unit * (10 * rest)) == (short * rest * 10) * unit) by (nonlinear_arith);
    assert(long == short * rest * 10) by (nonlinear_arith)
        requires
            (short * rest * 10) * unit == long * unit,
            unit >= 1,
    ;
}

} // verus!
