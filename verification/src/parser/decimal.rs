//! Decimal numbers: what a numeral denotes, held exactly.

use vstd::prelude::*;

verus! {

/// The mathematical model of a [`Decimal`]: a sign, the digits before the
/// point and the digits after it, most significant first.
pub struct SpecDecimal {
    pub negative: bool,
    pub integer: Seq<u8>,
    pub fraction: Seq<u8>,
}

/// The number that a run of digits denotes, read as an integer.
pub open spec fn digits_value(digits: Seq<u8>) -> nat
    decreases digits.len(),
{
    if digits.len() == 0 {
        0
    } else {
        digits_value(digits.drop_last()) * 10 + digits.last() as nat
    }
}

/// Ten to the power `n`.
pub open spec fn pow10(n: nat) -> nat
    decreases n,
{
    if n == 0 {
        1
    } else {
        10 * pow10((n - 1) as nat)
    }
}

/// Every element is a digit.
pub open spec fn digits_in_range(digits: Seq<u8>) -> bool {
    forall|i: int| 0 <= i < digits.len() ==> #[trigger] digits[i] <= 9
}

/// `digits` without the zeros at its end.
pub open spec fn trim_zeros(digits: Seq<u8>) -> Seq<u8>
    decreases digits.len(),
{
    if digits.len() > 0 && digits.last() == 0 {
        trim_zeros(digits.drop_last())
    } else {
        digits
    }
}

impl SpecDecimal {
    /// The digits are those of the number zero.
    pub open spec fn is_zero(self) -> bool {
        self.integer =~= seq![0u8] && self.fraction.len() == 0
    }

    /// Each number has one canonical form: no needless zero before the
    /// integer part or behind the fraction, and no sign on zero.
    pub open spec fn is_canonical(self) -> bool {
        &&& self.integer.len() >= 1
        &&& digits_in_range(self.integer)
        &&& self.integer.len() > 1 ==> self.integer[0] != 0
        &&& digits_in_range(self.fraction)
        &&& self.fraction.len() > 0 ==> self.fraction.last() != 0
        &&& self.negative ==> !self.is_zero()
    }

    /// How many digits stand behind the point.
    pub open spec fn scale(self) -> nat {
        self.fraction.len()
    }

    /// The number times ten to the power [`scale`](Self::scale): an
    /// integer.
    pub open spec fn unscaled(self) -> int {
        if self.negative {
            -(digits_value(self.integer + self.fraction) as int)
        } else {
            digits_value(self.integer + self.fraction) as int
        }
    }
}

/// The fraction `a / 10^a_scale` is the fraction `b / 10^b_scale`.
pub open spec fn same_number(a: int, a_scale: nat, b: int, b_scale: nat) -> bool {
    a * pow10(b_scale) == b * pow10(a_scale)
}

/// A decimal number in canonical form.
#[derive(Debug)]
pub struct Decimal {
    negative: bool,
    integer: Vec<u8>,
    fraction: Vec<u8>,
}

impl View for Decimal {
    type V = SpecDecimal;

    closed spec fn view(&self) -> SpecDecimal {
        SpecDecimal { negative: self.negative, integer: self.integer@, fraction: self.fraction@ }
    }
}

/// Whether every element of `digits` is a digit.
fn in_range(digits: &Vec<u8>) -> (r: bool)
    ensures
        r == digits_in_range(digits@),
{
    let mut i: usize = 0;
    while i < digits.len()
        invariant
            i <= digits.len(),
            forall|k: int| 0 <= k < i ==> #[trigger] digits[k] <= 9,
        decreases digits.len() - i,
    {
        if digits[i] > 9 {
            return false;
        }
        i = i + 1;
    }
    true
}

/// Whether two runs of digits are the same.
fn same_digits(a: &Vec<u8>, b: &Vec<u8>) -> (r: bool)
    ensures
        r == (a@ == b@),
{
    if a.len() != b.len() {
        return false;
    }
    let mut i: usize = 0;
    while i < a.len()
        invariant
            i <= a.len(),
            a.len() == b.len(),
            forall|k: int| 0 <= k < i ==> a[k] == b[k],
        decreases a.len() - i,
    {
        if a[i] != b[i] {
            return false;
        }
        i = i + 1;
    }
    assert(a@ =~= b@);
    true
}

/// A copy of a run of digits.
fn copy_digits(digits: &Vec<u8>) -> (r: Vec<u8>)
    ensures
        r@ == digits@,
{
    let mut copy: Vec<u8> = Vec::new();
    let mut i: usize = 0;
    while i < digits.len()
        invariant
            i <= digits.len(),
            copy@ == digits@.take(i as int),
        decreases digits.len() - i,
    {
        copy.push(digits[i]);
        i = i + 1;
    }
    copy
}

impl Decimal {
    /// What holds of every decimal: it is in canonical form.
    #[verifier::type_invariant]
    pub closed spec fn well_formed(&self) -> bool {
        self@.is_canonical()
    }

    /// The decimal with the given sign and digits, where they are in
    /// canonical form.
    pub fn new(negative: bool, integer: Vec<u8>, fraction: Vec<u8>) -> (r: Option<Decimal>)
        ensures
            r is Some <==> (SpecDecimal {
                negative,
                integer: integer@,
                fraction: fraction@,
            }).is_canonical(),
            r is Some ==> r->0@ == (SpecDecimal {
                negative,
                integer: integer@,
                fraction: fraction@,
            }),
    {
        let ghost model = SpecDecimal { negative, integer: integer@, fraction: fraction@ };
        if integer.len() == 0 || !in_range(&integer) || !in_range(&fraction) {
            return None;
        }
        if integer.len() > 1 && integer[0] == 0 {
            return None;
        }
        if fraction.len() > 0 && fraction[fraction.len() - 1] == 0 {
            return None;
        }
        if negative && integer.len() == 1 && integer[0] == 0 && fraction.len() == 0 {
            assert(model.integer =~= seq![0u8]);
            return None;
        }
        Some(Decimal { negative, integer, fraction })
    }

    /// The decimal with the given sign and digits, which are in canonical
    /// form.
    pub(crate) fn from_canonical(negative: bool, integer: Vec<u8>, fraction: Vec<u8>) -> (r:
        Decimal)
        requires
            (SpecDecimal { negative, integer: integer@, fraction: fraction@ }).is_canonical(),
        ensures
            r@ == (SpecDecimal { negative, integer: integer@, fraction: fraction@ }),
    {
        Decimal { negative, integer, fraction }
    }

    /// Whether the number is below zero.  Every decimal is in canonical
    /// form, so zero is never negative.
    pub fn is_negative(&self) -> (r: bool)
        ensures
            r == self@.negative,
            self@.is_canonical(),
    {
        proof {
            use_type_invariant(self);
        }
        self.negative
    }

    /// The digits before the point.
    pub fn integer_digits(&self) -> (r: &Vec<u8>)
        ensures
            r@ == self@.integer,
    {
        &self.integer
    }

    /// The digits behind the point.
    pub fn fraction_digits(&self) -> (r: &Vec<u8>)
        ensures
            r@ == self@.fraction,
    {
        &self.fraction
    }

    /// Whether two decimals are the same number.
    pub fn same(&self, other: &Decimal) -> (r: bool)
        ensures
            r == (self@ == other@),
    {
        self.negative == other.negative && same_digits(&self.integer, &other.integer)
            && same_digits(&self.fraction, &other.fraction)
    }
}

impl Clone for Decimal {
    fn clone(&self) -> (r: Self)
        ensures
            r@ == self@,
    {
        proof {
            use_type_invariant(self);
        }
        Decimal {
            negative: self.negative,
            integer: copy_digits(&self.integer),
            fraction: copy_digits(&self.fraction),
        }
    }
}

impl PartialEq for Decimal {
    fn eq(&self, other: &Self) -> (r: bool) {
        self.same(other)
    }
}

impl Eq for Decimal {

}

impl vstd::std_specs::cmp::PartialEqSpecImpl for Decimal {
    open spec fn obeys_eq_spec() -> bool {
        true
    }

    open spec fn eq_spec(&self, other: &Self) -> bool {
        self@ == other@
    }
}

} // verus!
