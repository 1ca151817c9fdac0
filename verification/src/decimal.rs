//! Decimal numbers of up to ninety-six bits, the currency of all prices and amounts.
use vstd::arithmetic::power::pow;
use vstd::prelude::*;

verus! {

/// Most digits that can stand behind the decimal point.
pub const MAX_SCALE: u32 = 28;

/// A decimal number: a whole number of up to ninety-six bits, in three words, of which the
/// last `scale` digits stand behind the decimal point. Zero can carry a minus sign.
#[derive(Debug, Clone, Copy)]
pub struct Decimal {
    negative: bool,
    scale: u32,
    hi: u32,
    mid: u32,
    lo: u32,
}

/// The price of one unit.
pub type Price = Decimal;

/// A number of units.
pub type Amount = Decimal;

/// The digit as a character.
pub open spec fn digit(value: int) -> char {
    (value + '0' as int) as char
}

/// A whole number in decimal digits, without leading zeros.
pub open spec fn digits(value: nat) -> Seq<char>
    decreases value,
{
    if value < 10 {
        seq![digit(value as int)]
    } else {
        digits(value / 10).push(digit((value % 10) as int))
    }
}

/// The last `width` digits of a whole number.
pub open spec fn last_digits(value: nat, width: nat) -> Seq<char>
    decreases width,
{
    if width == 0 {
        seq![]
    } else {
        last_digits(value / 10, (width - 1) as nat).push(digit((value % 10) as int))
    }
}

/// A decimal number in print: the sign if it is minus, at least one digit before the
/// decimal point, and all digits behind it; no point where none is behind it.
pub open spec fn printed(negative: bool, mantissa: nat, scale: nat) -> Seq<char> {
    let sign = if negative {
        seq!['-']
    } else {
        seq![]
    };
    let whole = digits(mantissa / pow(10, scale) as nat);
    let fraction = if scale == 0 {
        seq![]
    } else {
        seq!['.'] + last_digits(mantissa, scale)
    };
    sign + whole + fraction
}

impl Decimal {
    /// What holds of every decimal number.
    #[verifier::type_invariant]
    pub closed spec fn wf(self) -> bool {
        self.scale <= MAX_SCALE
    }

    /// The number `num` with its last `scale` digits behind the decimal point.
    pub closed spec fn of(num: i64, scale: u32) -> Decimal {
        let magnitude: int = if num < 0 {
            -num
        } else {
            num as int
        };
        Decimal {
            negative: num < 0,
            scale,
            hi: 0,
            mid: (magnitude / 0x1_0000_0000) as u32,
            lo: (magnitude % 0x1_0000_0000) as u32,
        }
    }

    /// The largest number.
    pub closed spec fn largest() -> Decimal {
        Decimal { negative: false, scale: 0, hi: 0xffff_ffff, mid: 0xffff_ffff, lo: 0xffff_ffff }
    }

    /// The smallest number.
    pub closed spec fn smallest() -> Decimal {
        Decimal { negative: true, scale: 0, hi: 0xffff_ffff, mid: 0xffff_ffff, lo: 0xffff_ffff }
    }

    /// The sign is minus.
    pub closed spec fn negative(self) -> bool {
        self.negative
    }

    /// The number of digits behind the decimal point.
    pub closed spec fn scale(self) -> u32 {
        self.scale
    }

    /// The digits as one whole number.
    pub closed spec fn mantissa(self) -> nat {
        (self.hi * 0x1_0000_0000_0000_0000 + self.mid * 0x1_0000_0000 + self.lo) as nat
    }

    /// The digits as one whole number, with the sign.
    pub open spec fn signed(self) -> int {
        if self.negative() {
            -(self.mantissa() as int)
        } else {
            self.mantissa() as int
        }
    }

    /// Zero, without sign and decimal point.
    pub open spec fn is_plain_zero(self) -> bool {
        !self.negative() && self.mantissa() == 0 && self.scale() == 0
    }

    /// The number in units of the last place that a decimal number can have.
    pub open spec fn units(self) -> int {
        self.signed() * pow(10, (MAX_SCALE - self.scale()) as nat)
    }

    /// `self` is the smaller number.
    pub open spec fn less(self, other: Decimal) -> bool {
        self.units() < other.units()
    }

    /// The numbers are equal, however many digits they carry.
    pub open spec fn same_number(self, other: Decimal) -> bool {
        self.units() == other.units()
    }

    /// The number in print.
    pub open spec fn text(self) -> Seq<char> {
        printed(self.negative(), self.mantissa(), self.scale() as nat)
    }

    /// The smaller of two numbers, the first where they are equal.
    pub open spec fn lesser(self, other: Decimal) -> Decimal {
        if other.less(self) {
            other
        } else {
            self
        }
    }

    /// The larger of two numbers, the first where they are equal.
    pub open spec fn greater(self, other: Decimal) -> Decimal {
        if self.less(other) {
            other
        } else {
            self
        }
    }

    /// The number with these words, sign and scale.
    pub fn from_parts(lo: u32, mid: u32, hi: u32, negative: bool, scale: u32) -> (number: Decimal)
        requires
            scale <= MAX_SCALE,
        ensures
            number.negative() == negative,
            number.scale() == scale,
            number.mantissa() == hi * 0x1_0000_0000_0000_0000 + mid * 0x1_0000_0000 + lo,
            number.wf(),
    {
        Decimal { negative, scale, hi, mid, lo }
    }

    /// The low, middle and high word, whether the sign is minus, and the scale.
    pub fn parts(&self) -> (parts: (u32, u32, u32, bool, u32))
        ensures
            self.mantissa() == parts.2 * 0x1_0000_0000_0000_0000 + parts.1 * 0x1_0000_0000
                + parts.0,
            self.negative() == parts.3,
            self.scale() == parts.4,
            parts.4 <= MAX_SCALE,
    {
        proof {
            use_type_invariant(self);
        }
        (self.lo, self.mid, self.hi, self.negative, self.scale)
    }

    /// The number `num` with its last `scale` digits behind the decimal point.
    pub fn new(num: i64, scale: u32) -> (number: Decimal)
        requires
            scale <= MAX_SCALE,
        ensures
            number == Decimal::of(num, scale),
            number.signed() == num,
            number.negative() == (num < 0),
            number.scale() == scale,
            number.wf(),
    {
        let magnitude: u64 = if num < 0 {
            (-(num as i128)) as u64
        } else {
            num as u64
        };
        let hi_word: u64 = magnitude / 0x1_0000_0000;
        let lo_word: u64 = magnitude % 0x1_0000_0000;
        Decimal { negative: num < 0, scale, hi: 0, mid: hi_word as u32, lo: lo_word as u32 }
    }

    /// The largest number.
    pub fn max_value() -> (number: Decimal)
        ensures
            number == Decimal::largest(),
            number.wf(),
            !number.negative(),
            number.scale() == 0,
            number.mantissa() == 0xffff_ffff_ffff_ffff_ffff_ffff,
    {
        Decimal { negative: false, scale: 0, hi: 0xffff_ffff, mid: 0xffff_ffff, lo: 0xffff_ffff }
    }

    /// The smallest number.
    pub fn min_value() -> (number: Decimal)
        ensures
            number == Decimal::smallest(),
            number.wf(),
            number.negative(),
            number.scale() == 0,
            number.mantissa() == 0xffff_ffff_ffff_ffff_ffff_ffff,
    {
        Decimal { negative: true, scale: 0, hi: 0xffff_ffff, mid: 0xffff_ffff, lo: 0xffff_ffff }
    }

    /// Whether the sign is plus.
    pub fn is_sign_positive(&self) -> (positive: bool)
        ensures
            positive == !self.negative(),
    {
        !self.negative
    }

    /// The number without its sign.
    pub fn abs(&self) -> (number: Decimal)
        ensures
            !number.negative(),
            number.scale() == self.scale(),
            number.mantissa() == self.mantissa(),
    {
        proof {
            use_type_invariant(self);
        }
        Decimal { negative: false, scale: self.scale, hi: self.hi, mid: self.mid, lo: self.lo }
    }

    /// Whether `self` is the smaller number.
    pub fn is_less(&self, other: &Decimal) -> (smaller: bool)
        ensures
            smaller == self.less(*other),
    {
        proof {
            use_type_invariant(self);
            use_type_invariant(other);
        }
        decimal_lt(*self, *other)
    }

    /// The smaller of two numbers, the first where they are equal.
    pub fn min(self, other: Decimal) -> (number: Decimal)
        ensures
            number == self.lesser(other),
    {
        if other.is_less(&self) {
            other
        } else {
            self
        }
    }

    /// The larger of two numbers, the first where they are equal.
    pub fn max(self, other: Decimal) -> (number: Decimal)
        ensures
            number == self.greater(other),
    {
        if self.is_less(&other) {
            other
        } else {
            self
        }
    }

    /// The number in print.
    pub fn to_text(&self) -> (text: String)
        ensures
            text@ == self.text(),
    {
        proof {
            use_type_invariant(self);
        }
        decimal_to_string(*self)
    }
}

/// Numbers of up to sixty-four bits with as many digits behind the decimal point: their sum
/// and their difference are exact.
pub open spec fn align(a: Decimal, b: Decimal) -> bool {
    &&& a.scale() == b.scale()
    &&& a.mantissa() <= u64::MAX
    &&& b.mantissa() <= u64::MAX
}

/// A whole number divided by `unit` and rounded, from halfway to the even neighbour.
pub open spec fn half_even(value: nat, unit: nat) -> nat {
    let below = value / unit;
    let twice = 2 * (value % unit);
    if twice > unit || (twice == unit && below % 2 == 1) {
        below + 1
    } else {
        below
    }
}

impl Decimal {
    /// `self` is `number` rounded to `places` digits behind the decimal point. A number
    /// that is rounded to zero loses its sign.
    pub open spec fn is_rounded(self, number: Decimal, places: u32) -> bool {
        if number.scale() <= places {
            self == number
        } else {
            &&& self.scale() == places
            &&& self.mantissa() == half_even(
                number.mantissa(),
                pow(10, (number.scale() - places) as nat) as nat,
            )
            &&& self.negative() == (number.negative() && (self.mantissa() != 0
                || number.mantissa() == 0))
        }
    }

    /// The number rounded to `places` digits behind the decimal point, from halfway to the
    /// even neighbour.
    pub fn round_dp(&self, places: u32) -> (rounded: Decimal)
        ensures
            rounded.is_rounded(*self, places),
    {
        proof {
            use_type_invariant(self);
        }
        decimal_round_dp(*self, places)
    }

    /// The sum, or `None` where it is out of range.
    pub fn checked_add(&self, other: &Decimal) -> (sum: Option<Decimal>)
        ensures
            sum == decimal_sum(*self, *other),
            align(*self, *other) ==> {
                &&& sum is Some
                &&& sum->0.scale() == self.scale()
                &&& sum->0.signed() == self.signed() + other.signed()
            },
    {
        proof {
            use_type_invariant(self);
            use_type_invariant(other);
        }
        decimal_checked_add(*self, *other)
    }

    /// The difference, or `None` where it is out of range.
    pub fn checked_sub(&self, other: &Decimal) -> (difference: Option<Decimal>)
        ensures
            difference == decimal_difference(*self, *other),
            align(*self, *other) ==> {
                &&& difference is Some
                &&& difference->0.scale() == self.scale()
                &&& difference->0.signed() == self.signed() - other.signed()
            },
    {
        proof {
            use_type_invariant(self);
            use_type_invariant(other);
        }
        decimal_checked_sub(*self, *other)
    }

    /// The product, or `None` where it is out of range.
    pub fn checked_mul(&self, other: &Decimal) -> (product: Option<Decimal>)
        ensures
            product == decimal_product(*self, *other),
    {
        proof {
            use_type_invariant(self);
            use_type_invariant(other);
        }
        decimal_checked_mul(*self, *other)
    }
}

/// Every decimal number lies between the smallest and the largest.
pub proof fn law_range(number: Decimal)
    requires
        number.wf(),
    ensures
        !number.less(Decimal::smallest()),
        !Decimal::largest().less(number),
{
    let top = 0xffff_ffff_ffff_ffff_ffff_ffffint;
    let full = pow(10, MAX_SCALE as nat);
    let unit = pow(10, (MAX_SCALE - number.scale()) as nat);
    vstd::arithmetic::power::lemma_pow_increases(
        10,
        (MAX_SCALE - number.scale()) as nat,
        MAX_SCALE as nat,
    );
    vstd::arithmetic::power::lemma_pow_positive(10, (MAX_SCALE - number.scale()) as nat);
    let mantissa = number.mantissa() as int;
    assert(0 <= mantissa <= top);
    assert(0 <= mantissa * unit <= top * full) by (nonlinear_arith)
        requires
            0 <= mantissa <= top,
            0 < unit <= full,
    ;
    assert((-mantissa) * unit == -(mantissa * unit)) by (nonlinear_arith);
    assert((-top) * full == -(top * full)) by (nonlinear_arith);
}

impl PartialEq for Decimal {
    fn eq(&self, other: &Self) -> (equal: bool) {
        proof {
            use_type_invariant(self);
            use_type_invariant(other);
        }
        decimal_eq(*self, *other)
    }
}

impl Eq for Decimal {

}

impl vstd::std_specs::cmp::PartialEqSpecImpl for Decimal {
    open spec fn obeys_eq_spec() -> bool {
        true
    }

    open spec fn eq_spec(&self, other: &Self) -> bool {
        self.same_number(*other)
    }
}

impl Default for Decimal {
    fn default() -> (number: Self)
        ensures
            number.is_plain_zero(),
    {
        Decimal { negative: false, scale: 0, hi: 0, mid: 0, lo: 0 }
    }
}

/// `PartialOrd::lt` of `rust_decimal::Decimal`: compares the numbers, whatever their scales.
#[verifier::external_body]
fn decimal_lt(a: Decimal, b: Decimal) -> (smaller: bool)
    requires
        a.scale() <= MAX_SCALE,
        b.scale() <= MAX_SCALE,
    ensures
        smaller == a.less(b),
{
    let mut left = rust_decimal::Decimal::from_parts(a.lo, a.mid, a.hi, a.negative, a.scale);
    left.set_sign_negative(a.negative);
    let mut right = rust_decimal::Decimal::from_parts(b.lo, b.mid, b.hi, b.negative, b.scale);
    right.set_sign_negative(b.negative);
    left < right
}

/// `PartialEq::eq` of `rust_decimal::Decimal`: compares the numbers, whatever their scales;
/// zero is zero under either sign.
#[verifier::external_body]
fn decimal_eq(a: Decimal, b: Decimal) -> (equal: bool)
    requires
        a.scale() <= MAX_SCALE,
        b.scale() <= MAX_SCALE,
    ensures
        equal == a.same_number(b),
{
    let mut left = rust_decimal::Decimal::from_parts(a.lo, a.mid, a.hi, a.negative, a.scale);
    left.set_sign_negative(a.negative);
    let mut right = rust_decimal::Decimal::from_parts(b.lo, b.mid, b.hi, b.negative, b.scale);
    right.set_sign_negative(b.negative);
    left == right
}

/// `to_string` of `rust_decimal::Decimal`: every digit that the scale calls for is printed,
/// also trailing zeros, and the minus sign also of zero.
#[verifier::external_body]
fn decimal_to_string(number: Decimal) -> (text: String)
    requires
        number.scale() <= MAX_SCALE,
    ensures
        text@ == number.text(),
{
    let mut value = rust_decimal::Decimal::from_parts(
        number.lo,
        number.mid,
        number.hi,
        number.negative,
        number.scale,
    );
    value.set_sign_negative(number.negative);
    value.to_string()
}

/// The sum that `rust_decimal` computes: exact as far as ninety-six bits hold it, with
/// digits behind the point rounded away where they do not, and nothing where the whole part
/// does not fit.
pub uninterp spec fn decimal_sum(a: Decimal, b: Decimal) -> Option<Decimal>;

/// The difference that `rust_decimal` computes, under the same rules.
pub uninterp spec fn decimal_difference(a: Decimal, b: Decimal) -> Option<Decimal>;

/// The product that `rust_decimal` computes, under the same rules.
pub uninterp spec fn decimal_product(a: Decimal, b: Decimal) -> Option<Decimal>;

/// `rust_decimal::Decimal::checked_add`: the sum depends on the two numbers alone, and is
/// exact where they are aligned. Nothing more is said of it.
#[verifier::external_body]
fn decimal_checked_add(a: Decimal, b: Decimal) -> (sum: Option<Decimal>)
    requires
        a.scale() <= MAX_SCALE,
        b.scale() <= MAX_SCALE,
    ensures
        sum == decimal_sum(a, b),
        align(a, b) ==> {
            &&& sum is Some
            &&& sum->0.scale() == a.scale()
            &&& sum->0.signed() == a.signed() + b.signed()
        },
{
    let mut left = rust_decimal::Decimal::from_parts(a.lo, a.mid, a.hi, a.negative, a.scale);
    left.set_sign_negative(a.negative);
    let mut right = rust_decimal::Decimal::from_parts(b.lo, b.mid, b.hi, b.negative, b.scale);
    right.set_sign_negative(b.negative);
    let r = left.checked_add(right)?.unpack();
    Some(Decimal { negative: r.negative, scale: r.scale, hi: r.hi, mid: r.mid, lo: r.lo })
}

/// `rust_decimal::Decimal::checked_sub`: the difference depends on the two numbers alone, and
/// is exact where they are aligned. Nothing more is said of it.
#[verifier::external_body]
fn decimal_checked_sub(a: Decimal, b: Decimal) -> (difference: Option<Decimal>)
    requires
        a.scale() <= MAX_SCALE,
        b.scale() <= MAX_SCALE,
    ensures
        difference == decimal_difference(a, b),
        align(a, b) ==> {
            &&& difference is Some
            &&& difference->0.scale() == a.scale()
            &&& difference->0.signed() == a.signed() - b.signed()
        },
{
    let mut left = rust_decimal::Decimal::from_parts(a.lo, a.mid, a.hi, a.negative, a.scale);
    left.set_sign_negative(a.negative);
    let mut right = rust_decimal::Decimal::from_parts(b.lo, b.mid, b.hi, b.negative, b.scale);
    right.set_sign_negative(b.negative);
    let r = left.checked_sub(right)?.unpack();
    Some(Decimal { negative: r.negative, scale: r.scale, hi: r.hi, mid: r.mid, lo: r.lo })
}

/// `rust_decimal::Decimal::checked_mul`: nothing is said of the product but that it depends
/// on the two numbers alone.
#[verifier::external_body]
fn decimal_checked_mul(a: Decimal, b: Decimal) -> (product: Option<Decimal>)
    requires
        a.scale() <= MAX_SCALE,
        b.scale() <= MAX_SCALE,
    ensures
        product == decimal_product(a, b),
{
    let mut left = rust_decimal::Decimal::from_parts(a.lo, a.mid, a.hi, a.negative, a.scale);
    left.set_sign_negative(a.negative);
    let mut right = rust_decimal::Decimal::from_parts(b.lo, b.mid, b.hi, b.negative, b.scale);
    right.set_sign_negative(b.negative);
    let r = left.checked_mul(right)?.unpack();
    Some(Decimal { negative: r.negative, scale: r.scale, hi: r.hi, mid: r.mid, lo: r.lo })
}

/// `rust_decimal::Decimal::round_dp`: rounds half to even, and drops the sign of a number
/// that is rounded to zero, but not that of zero itself.
#[verifier::external_body]
fn decimal_round_dp(number: Decimal, places: u32) -> (rounded: Decimal)
    requires
        number.scale() <= MAX_SCALE,
    ensures
        rounded.is_rounded(number, places),
{
    let n = number;
    let mut value = rust_decimal::Decimal::from_parts(n.lo, n.mid, n.hi, n.negative, n.scale);
    value.set_sign_negative(n.negative);
    let r = value.round_dp(places).unpack();
    Decimal { negative: r.negative, scale: r.scale, hi: r.hi, mid: r.mid, lo: r.lo }
}

/// The smaller and the larger of two numbers are the two themselves, in their order, and the
/// first one is taken where they are equal.
pub proof fn law_lesser_and_greater(a: Decimal, b: Decimal)
    ensures
        a.units() <= b.units() ==> a.lesser(b) == a,
        b.units() < a.units() ==> a.lesser(b) == b,
        a.units() >= b.units() ==> a.greater(b) == a,
        b.units() > a.units() ==> a.greater(b) == b,
{
}

/// A number with digits behind the decimal point is worth its digits, less a power of ten for
/// each of those behind the point.
pub proof fn law_new_number(num: i64, scale: u32, number: Decimal)
    requires
        scale <= 28,
        call_ensures(Decimal::new, (num, scale), number),
    ensures
        number.units() == num * pow(10, (28 - scale) as nat),
        number.negative() <==> num < 0,
{
}

/// A number that carries a minus sign is not above zero, and one that does not is not below.
pub proof fn law_sign_agrees_with_number(number: Decimal)
    ensures
        number.units() < 0 ==> number.negative(),
        number.units() > 0 ==> !number.negative(),
        number.negative() && number.mantissa() > 0 ==> number.units() < 0,
        number.mantissa() == 0 <==> number.units() == 0,
{
    let power = (MAX_SCALE - number.scale()) as nat;
    vstd::arithmetic::power::lemma_pow_positive(10, power);
    let unit = pow(10, power);
    let mantissa = number.mantissa() as int;
    assert((-mantissa) * unit == -(mantissa * unit)) by (nonlinear_arith);
    assert(mantissa * unit >= 0 && (mantissa > 0 ==> mantissa * unit > 0) && (mantissa == 0
        ==> mantissa * unit == 0)) by (nonlinear_arith)
        requires
            mantissa >= 0,
            unit > 0,
    ;
}

/// A rounded number is off by no more than half of its last place, and carries no digit
/// beyond it.
pub proof fn law_rounding_is_close(rounded: Decimal, number: Decimal, places: u32)
    requires
        rounded.is_rounded(number, places),
        number.scale() <= 28,
        places <= 28,
    ensures
        rounded.scale() <= places,
        -pow(10, (28 - places) as nat) <= 2 * (rounded.units() - number.units()) <= pow(
            10,
            (28 - places) as nat,
        ),
        number.scale() <= places ==> rounded == number,
{
    let coarse = pow(10, (28 - places) as nat);
    vstd::arithmetic::power::lemma_pow_positive(10, (28 - places) as nat);
    if number.scale() > places {
        let more = (number.scale() - places) as nat;
        let fine = pow(10, (28 - number.scale()) as nat);
        let unit = pow(10, more);
        vstd::arithmetic::power::lemma_pow_positive(10, (28 - number.scale()) as nat);
        vstd::arithmetic::power::lemma_pow_positive(10, more);
        vstd::arithmetic::power::lemma_pow_adds(10, more, (28 - number.scale()) as nat);
        assert(coarse == unit * fine);
        let value = number.mantissa() as int;
        let result = rounded.mantissa() as int;
        vstd::arithmetic::div_mod::lemma_fundamental_div_mod(value, unit);
        let below = value / unit;
        assert(0 <= value % unit < unit);
        assert(unit * (below + 1) == unit * below + unit) by (nonlinear_arith);
        assert(-unit <= 2 * (result * unit - value) <= unit) by {
            assert(result == below || result == below + 1);
            assert(below * unit == unit * below) by (nonlinear_arith);
            assert((below + 1) * unit == unit * (below + 1)) by (nonlinear_arith);
        }
        assert(-(unit * fine) <= 2 * (result * (unit * fine) - value * fine) <= unit * fine)
            by (nonlinear_arith)
            requires
                -unit <= 2 * (result * unit - value) <= unit,
                fine > 0,
        ;
        assert((-result) * coarse == -(result * coarse)) by (nonlinear_arith);
        assert((-value) * fine == -(value * fine)) by (nonlinear_arith);
        if result == 0 {
            assert(result * coarse == 0) by (nonlinear_arith)
                requires
                    result == 0,
            ;
        }
        if value == 0 {
            assert(value * fine == 0) by (nonlinear_arith)
                requires
                    value == 0,
            ;
        }
    }
}

/// Numbers compare by what they are worth, however many digits they carry.
pub proof fn law_comparisons_go_by_worth(a: Decimal, b: Decimal, smaller: bool, equal: bool)
    requires
        call_ensures(Decimal::is_less, (&a, &b), smaller),
        call_ensures(<Decimal as PartialEq>::eq, (&a, &b), equal),
    ensures
        smaller <==> a.units() < b.units(),
        equal <==> a.units() == b.units(),
{
}

/// A number is made of the words, the sign and the scale that it is taken apart into.
pub proof fn law_parts_make_the_number(
    lo: u32,
    mid: u32,
    hi: u32,
    negative: bool,
    scale: u32,
    number: Decimal,
    parts: (u32, u32, u32, bool, u32),
)
    requires
        call_ensures(Decimal::from_parts, (lo, mid, hi, negative, scale), number),
        call_ensures(Decimal::parts, (&number,), parts),
    ensures
        parts == (lo, mid, hi, negative, scale),
{
}

/// A number and the same number without its sign are equally far from zero, and the latter is
/// not below it.
pub proof fn law_abs_drops_the_sign(number: Decimal, positive: Decimal)
    requires
        call_ensures(Decimal::abs, (&number,), positive),
    ensures
        positive.units() >= 0,
        positive.units() == number.units() || positive.units() == -number.units(),
        positive.scale() == number.scale(),
        !positive.negative(),
{
    law_sign_agrees_with_number(positive);
    let unit = pow(10, (MAX_SCALE - number.scale()) as nat);
    let mantissa = number.mantissa() as int;
    assert((-mantissa) * unit == -(mantissa * unit)) by (nonlinear_arith);
}

} // verus!
