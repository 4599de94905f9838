//! What a numeral denotes: from its text to the decimal number.

use super::decimal::{digits_value, pow10, same_number, trim_zeros, Decimal, SpecDecimal};
use super::decimal_laws::lemma_pow10_sum;
use super::lexical::{
    digit, fraction_end, integer_end, lemma_digits_end, numeral_end, skip_digits,
};
use vstd::prelude::*;

verus! {

/// The number that a digit character stands for.
pub open spec fn digit_of(c: char) -> u8 {
    if c == '1' {
        1
    } else if c == '2' {
        2
    } else if c == '3' {
        3
    } else if c == '4' {
        4
    } else if c == '5' {
        5
    } else if c == '6' {
        6
    } else if c == '7' {
        7
    } else if c == '8' {
        8
    } else if c == '9' {
        9
    } else {
        0
    }
}

/// The numbers that the digits of `s` stand for, in order.
pub open spec fn digits_of(s: Seq<char>) -> Seq<u8> {
    Seq::new(s.len(), |i: int| digit_of(s[i]))
}

/// Whether the numeral at `pos` has a sign.
pub open spec fn signed_at(s: Seq<char>, pos: int) -> bool {
    0 <= pos < s.len() && s[pos] == '-'
}

/// Where the integer part of the numeral at `pos` starts.
pub open spec fn integer_start(s: Seq<char>, pos: int) -> int {
    if signed_at(s, pos) {
        pos + 1
    } else {
        pos
    }
}

/// The digits of the integer part of the numeral at `pos`.
pub open spec fn integer_digits_at(s: Seq<char>, pos: int) -> Seq<u8> {
    let start = integer_start(s, pos);
    digits_of(s.subrange(start, integer_end(s, start)->0))
}

/// The digits behind the point of the numeral at `pos`, as written.
pub open spec fn fraction_digits_at(s: Seq<char>, pos: int) -> Seq<u8> {
    let point = integer_end(s, integer_start(s, pos))->0;
    let end = fraction_end(s, point);
    if point < end {
        digits_of(s.subrange(point + 1, end))
    } else {
        Seq::empty()
    }
}

/// The decimal that the numeral at `pos` denotes, in canonical form: zeros
/// at the end of the fraction are dropped, and zero has no sign.
pub open spec fn numeral_at(s: Seq<char>, pos: int) -> SpecDecimal {
    let unsigned = SpecDecimal {
        negative: false,
        integer: integer_digits_at(s, pos),
        fraction: trim_zeros(fraction_digits_at(s, pos)),
    };
    SpecDecimal {
        negative: signed_at(s, pos) && !unsigned.is_zero(),
        integer: unsigned.integer,
        fraction: unsigned.fraction,
    }
}

/// The numeral at `pos` as written, read as an integer without its point.
pub open spec fn written_unscaled(s: Seq<char>, pos: int) -> int {
    let magnitude = digits_value(integer_digits_at(s, pos) + fraction_digits_at(s, pos)) as int;
    if signed_at(s, pos) {
        -magnitude
    } else {
        magnitude
    }
}

/// How many digits the numeral at `pos` has behind its point, as written.
pub open spec fn written_scale(s: Seq<char>, pos: int) -> nat {
    fraction_digits_at(s, pos).len()
}

/// Dropping the zeros at the end leaves a prefix that ends in no zero.
pub proof fn lemma_trim_zeros(digits: Seq<u8>)
    ensures
        trim_zeros(digits).len() <= digits.len(),
        trim_zeros(digits) == digits.take(trim_zeros(digits).len() as int),
        trim_zeros(digits).len() > 0 ==> trim_zeros(digits).last() != 0,
    decreases digits.len(),
{
    if digits.len() > 0 && digits.last() == 0 {
        lemma_trim_zeros(digits.drop_last());
        let kept = trim_zeros(digits).len() as int;
        assert(digits.drop_last().take(kept) =~= digits.take(kept));
    } else {
        assert(digits.take(digits.len() as int) =~= digits);
    }
}

/// Zeros at the end of the fraction multiply the unscaled number by ten
/// each, and change nothing else.
pub proof fn lemma_trailing_zeros_scale(integer: Seq<u8>, fraction: Seq<u8>)
    ensures
        trim_zeros(fraction).len() <= fraction.len(),
        digits_value(integer + fraction) == digits_value(integer + trim_zeros(fraction)) * pow10(
            (fraction.len() - trim_zeros(fraction).len()) as nat,
        ),
    decreases fraction.len(),
{
    lemma_trim_zeros(fraction);
    if fraction.len() > 0 && fraction.last() == 0 {
        let shorter = fraction.drop_last();
        lemma_trim_zeros(shorter);
        lemma_trailing_zeros_scale(integer, shorter);
        assert((integer + fraction).drop_last() =~= integer + shorter);
        assert((integer + fraction).last() == 0);
        assert(trim_zeros(fraction) == trim_zeros(shorter));
        let dropped = (shorter.len() - trim_zeros(shorter).len()) as nat;
        let head = digits_value(integer + trim_zeros(shorter));
        assert(digits_value(integer + fraction) == digits_value(integer + shorter) * 10);
        assert(pow10(dropped + 1) == 10 * pow10(dropped));
        assert(head * pow10(dropped) * 10 == head * (10 * pow10(dropped))) by (nonlinear_arith);
    } else {
        assert(trim_zeros(fraction) == fraction);
        assert(pow10(0) == 1);
        assert(digits_value(integer + fraction) * 1 == digits_value(integer + fraction))
            by (nonlinear_arith);
    }
}

/// The decimal that a numeral denotes is in canonical form.
pub proof fn lemma_numeral_canonical(s: Seq<char>, pos: int)
    requires
        numeral_end(s, pos) is Some,
    ensures
        numeral_at(s, pos).is_canonical(),
{
    let start = integer_start(s, pos);
    let point = integer_end(s, start)->0;
    lemma_digits_end(s, start + 1);
    let integer = integer_digits_at(s, pos);
    assert(integer[0] == digit_of(s[start]));
    lemma_trim_zeros(fraction_digits_at(s, pos));
}

/// A numeral denotes the number that its text writes down: the decimal in
/// canonical form and the digits as written are the same fraction.
pub proof fn lemma_numeral_value(s: Seq<char>, pos: int)
    requires
        numeral_end(s, pos) is Some,
    ensures
        numeral_at(s, pos).is_canonical(),
        same_number(
            numeral_at(s, pos).unscaled(),
            numeral_at(s, pos).scale(),
            written_unscaled(s, pos),
            written_scale(s, pos),
        ),
{
    lemma_numeral_canonical(s, pos);
    let integer = integer_digits_at(s, pos);
    let written = fraction_digits_at(s, pos);
    let kept = trim_zeros(written);
    lemma_trailing_zeros_scale(integer, written);
    let dropped = (written.len() - kept.len()) as nat;
    lemma_pow10_sum(kept.len(), dropped);
    let magnitude = digits_value(integer + kept) as int;
    let scale = pow10(dropped) as int;
    let unit = pow10(kept.len()) as int;
    assert(magnitude * (unit * scale) == (magnitude * scale) * unit) by (nonlinear_arith);
    assert((-magnitude) * (unit * scale) == (-(magnitude * scale)) * unit) by (nonlinear_arith);
    if numeral_at(s, pos).is_zero() {
        assert(integer =~= seq![0u8]);
        assert(integer + kept =~= seq![0u8]);
        assert(seq![0u8].drop_last() =~= Seq::<u8>::empty());
        assert(digits_value(seq![0u8]) == 0) by {
            reveal_with_fuel(digits_value, 2);
        }
    }
}

/// The number that a digit character stands for.
fn digit_value(c: char) -> (r: u8)
    ensures
        r == digit_of(c),
{
    if c == '1' {
        1
    } else if c == '2' {
        2
    } else if c == '3' {
        3
    } else if c == '4' {
        4
    } else if c == '5' {
        5
    } else if c == '6' {
        6
    } else if c == '7' {
        7
    } else if c == '8' {
        8
    } else if c == '9' {
        9
    } else {
        0
    }
}

/// The digits that stand in `input` from `from` up to `to`.
fn read_digits(input: &[char], from: usize, to: usize) -> (r: Vec<u8>)
    requires
        from <= to <= input.len(),
    ensures
        r@ == digits_of(input@.subrange(from as int, to as int)),
{
    let mut digits: Vec<u8> = Vec::new();
    let mut i: usize = from;
    while i < to
        invariant
            from <= i <= to <= input.len(),
            digits@ == digits_of(input@.subrange(from as int, i as int)),
        decreases to - i,
    {
        digits.push(digit_value(input[i]));
        assert(digits@ =~= digits_of(input@.subrange(from as int, i + 1)));
        i = i + 1;
    }
    digits
}

/// Drops the zeros at the end of `digits`.
fn drop_trailing_zeros(digits: Vec<u8>) -> (r: Vec<u8>)
    ensures
        r@ == trim_zeros(digits@),
{
    let mut kept = digits;
    while kept.len() > 0 && kept[kept.len() - 1] == 0
        invariant
            trim_zeros(kept@) == trim_zeros(digits@),
        decreases kept.len(),
    {
        kept.pop();
    }
    kept
}

/// Reads the numeral at `pos`: the decimal that it denotes and the place
/// where it ends, or `None` if no numeral starts there.
pub fn read_numeral(input: &[char], pos: usize) -> (r: Option<(Decimal, usize)>)
    requires
        pos <= input.len(),
    ensures
        match r {
            Some((decimal, end)) => {
                &&& numeral_end(input@, pos as int) == Some(end as int)
                &&& decimal@ == numeral_at(input@, pos as int)
                &&& pos < end <= input.len()
            },
            None => numeral_end(input@, pos as int) is None,
        },
{
    let signed = pos < input.len() && input[pos] == '-';
    let start = if signed {
        pos + 1
    } else {
        pos
    };
    if !(start < input.len() && digit(input[start])) {
        return None;
    }
    let point = if input[start] == '0' {
        start + 1
    } else {
        skip_digits(input, start + 1)
    };
    let has_fraction = point < input.len() && input[point] == '.' && input.len() - point > 1
        && digit(input[point + 1]);
    let end = if has_fraction {
        skip_digits(input, point + 2)
    } else {
        point
    };
    let integer = read_digits(input, start, point);
    let fraction = if has_fraction {
        drop_trailing_zeros(read_digits(input, point + 1, end))
    } else {
        Vec::new()
    };
    let zero = integer.len() == 1 && integer[0] == 0 && fraction.len() == 0;
    proof {
        lemma_numeral_canonical(input@, pos as int);
        assert(trim_zeros(Seq::<u8>::empty()) =~= Seq::<u8>::empty());
        if zero {
            assert(integer@ =~= seq![0u8]);
        }
    }
    Some((Decimal::from_canonical(signed && !zero, integer, fraction), end))
}

} // verus!
