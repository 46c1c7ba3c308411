//! Exact decimal amounts, computed by `rust_decimal`.
//!
//! An [`Amount`] holds what a `rust_decimal::Decimal` holds, a mantissa of at
//! most 96 bits and a scale of at most 28 decimal places, as plain integers.
//! Its view is its value counted in units of 10^-28, so that sums and
//! comparisons of amounts are plain integer arithmetic in contracts.
use vstd::prelude::*;
use rust_decimal::Decimal;
use crate::text::{decimal_digits, pow10_nat, zero_padded};

verus! {

/// Ten to the power `n`.
pub open spec fn pow10(n: nat) -> int
    decreases n,
{
    if n == 0 {
        1
    } else {
        10 * pow10((n - 1) as nat)
    }
}

/// The largest scale of a decimal.
pub const MAX_SCALE: u32 = 28;

/// The largest mantissa of a decimal: 2^96 - 1.
pub const MAX_MANTISSA: i128 = 79_228_162_514_264_337_593_543_950_335;

/// A decimal number `mantissa / 10^scale`.
#[derive(Debug, Clone, Copy)]
pub struct Amount {
    mantissa: i128,
    scale: u32,
}

/// The value of `mantissa / 10^scale` in units of 10^-28.
pub open spec fn units_of(mantissa: int, scale: nat) -> int {
    mantissa * pow10((MAX_SCALE - scale) as nat)
}

/// A mantissa within the 96-bit range.
pub open spec fn mantissa_ok(m: int) -> bool {
    -(MAX_MANTISSA as int) <= m <= MAX_MANTISSA as int
}

impl View for Amount {
    type V = int;

    closed spec fn view(&self) -> int {
        units_of(self.mantissa as int, self.scale as nat)
    }
}

/// What `Decimal::checked_add` returns for two (mantissa, scale) pairs: the
/// sum as a (mantissa, scale) pair, or none where it overflows.
pub uninterp spec fn decimal_checked_sum(a: (i128, u32), b: (i128, u32)) -> Option<(i128, u32)>;

/// What `Decimal` addition returns where it does not overflow (it panics
/// where it does): the checked sum.
pub open spec fn decimal_sum(a: (i128, u32), b: (i128, u32)) -> (i128, u32) {
    match decimal_checked_sum(a, b) {
        Some(p) => p,
        None => (0, 0),
    }
}

/// What `Decimal` subtraction returns where it does not overflow (it
/// panics where it does): the checked difference.
pub open spec fn decimal_difference(a: (i128, u32), b: (i128, u32)) -> (i128, u32) {
    match decimal_checked_difference(a, b) {
        Some(p) => p,
        None => (0, 0),
    }
}

/// What `Decimal::checked_sub` returns for two (mantissa, scale) pairs: the
/// difference, or none where it overflows.
pub uninterp spec fn decimal_checked_difference(a: (i128, u32), b: (i128, u32)) -> Option<(i128, u32)>;

/// What `Decimal` multiplication returns for two (mantissa, scale) pairs.
pub uninterp spec fn decimal_product(a: (i128, u32), b: (i128, u32)) -> (i128, u32);

/// The magnitude of a mantissa.
pub open spec fn magnitude(m: i128) -> nat {
    if m < 0 { (-m) as nat } else { m as nat }
}

/// What `Decimal::to_string` prints for a (mantissa, scale) pair: a '-'
/// for a negative mantissa; the whole part, magnitude / 10^scale, in
/// decimal digits ("0" when it is zero); and, for a positive scale, a
/// point and the remainder, magnitude % 10^scale, in exactly `scale`
/// digits.
pub open spec fn decimal_text(a: (i128, u32)) -> Seq<char> {
    let m = magnitude(a.0);
    let p = pow10_nat(a.1 as nat);
    let sign = if a.0 < 0 { seq!['-'] } else { Seq::<char>::empty() };
    let fraction = if a.1 == 0 { Seq::<char>::empty() } else { seq!['.'] + zero_padded(m % p, a.1 as nat) };
    sign + decimal_digits(m / p) + fraction
}

/// What `Decimal::from_str` returns for a text: a (mantissa, scale) pair,
/// or the message of the error.
pub uninterp spec fn decimal_parse(s: Seq<char>) -> Result<(i128, u32), Seq<char>>;

/// The larger scale of two (mantissa, scale) pairs.
pub open spec fn pair_scale(a: (i128, u32), b: (i128, u32)) -> nat {
    if a.1 >= b.1 { a.1 as nat } else { b.1 as nat }
}

/// The mantissa of a (mantissa, scale) pair rescaled to a larger scale.
pub open spec fn pair_aligned(a: (i128, u32), s: nat) -> int {
    a.0 * pow10((s - a.1) as nat)
}

/// Adding two (mantissa, scale) pairs needs no rounding: both, aligned to
/// the larger scale, and their sum fit in 96 bits.
pub open spec fn pair_add_fits(a: (i128, u32), b: (i128, u32)) -> bool {
    let s = pair_scale(a, b);
    &&& mantissa_ok(pair_aligned(a, s))
    &&& mantissa_ok(pair_aligned(b, s))
    &&& mantissa_ok(pair_aligned(a, s) + pair_aligned(b, s))
}

/// The (mantissa, scale) pair `Decimal` forms for a sum that needs no
/// rounding: a zero operand gives the other operand unchanged; otherwise
/// the mantissas aligned to the larger scale, added, at that scale.
pub open spec fn exact_sum_parts(a: (i128, u32), b: (i128, u32)) -> (i128, u32) {
    if a.0 == 0 {
        b
    } else if b.0 == 0 {
        a
    } else {
        let s = pair_scale(a, b);
        ((pair_aligned(a, s) + pair_aligned(b, s)) as i128, s as u32)
    }
}

/// The (mantissa, scale) pair `Decimal` forms for a difference that needs
/// no rounding: from zero, the other operand negated; less zero, the first
/// operand unchanged; otherwise the aligned mantissas' difference at the
/// larger scale.
pub open spec fn exact_difference_parts(a: (i128, u32), b: (i128, u32)) -> (i128, u32) {
    if a.0 == 0 {
        ((-b.0) as i128, b.1)
    } else if b.0 == 0 {
        a
    } else {
        let s = pair_scale(a, b);
        ((pair_aligned(a, s) - pair_aligned(b, s)) as i128, s as u32)
    }
}

/// Subtracting one (mantissa, scale) pair from another needs no rounding.
pub open spec fn pair_sub_fits(a: (i128, u32), b: (i128, u32)) -> bool {
    let s = pair_scale(a, b);
    &&& mantissa_ok(pair_aligned(a, s))
    &&& mantissa_ok(pair_aligned(b, s))
    &&& mantissa_ok(pair_aligned(a, s) - pair_aligned(b, s))
}

proof fn lemma_pow10_pos(k: nat)
    ensures
        1 <= pow10(k),
    decreases k,
{
    if k > 0 {
        lemma_pow10_pos((k - 1) as nat);
    }
}

proof fn lemma_pow10_bound(k: nat)
    requires
        k <= 28,
    ensures
        1 <= pow10(k) <= pow10(28),
    decreases 28 - k,
{
    lemma_pow10_pos(k);
    if k < 28 {
        lemma_pow10_bound(k + 1);
        assert(pow10(k + 1) == 10 * pow10(k));
    }
}

/// `m` times 10^d when that fits in 96 bits.
fn aligned_within(m: i128, d: u32) -> (r: Option<i128>)
    requires
        mantissa_ok(m as int),
        d <= 28,
    ensures
        match r {
            Some(x) => x == m * pow10(d as nat) && mantissa_ok(x as int),
            None => !mantissa_ok(m * pow10(d as nat)),
        },
{
    proof {
        lemma_pow10_bound(d as nat);
        assert(pow10(28) == 10_000_000_000_000_000_000_000_000_000int) by {
            reveal_with_fuel(pow10, 29);
        }
    }
    let mut p: i128 = 1;
    let mut k: u32 = 0;
    while k < d
        invariant
            k <= d <= 28,
            p == pow10(k as nat),
            pow10(28) == 10_000_000_000_000_000_000_000_000_000int,
        decreases d - k,
    {
        proof {
            lemma_pow10_bound((k + 1) as nat);
            assert(pow10((k + 1) as nat) == 10 * pow10(k as nat));
        }
        p = p * 10;
        k = k + 1;
    }
    let lim = MAX_MANTISSA / p;
    let ghost mx = MAX_MANTISSA as int;
    let ghost pi = p as int;
    proof {
        assert(pi >= 1);
        assert(mx == (mx / pi) * pi + mx % pi && 0 <= mx % pi < pi) by (nonlinear_arith)
            requires pi >= 1;
        let li = mx / pi;
        assert((li + 1) * pi > mx && li * pi <= mx) by (nonlinear_arith)
            requires mx == li * pi + mx % pi, 0 <= mx % pi < pi;
    }
    if m <= lim && m >= -lim {
        proof {
            let mi = m as int;
            let li = lim as int;
            assert(li == mx / pi);
            assert(-mx <= mi * pi <= mx) by (nonlinear_arith)
                requires -li <= mi <= li, li * pi <= mx, pi >= 1;
        }
        Some(m * p)
    } else {
        proof {
            let mi = m as int;
            let li = lim as int;
            assert(li == mx / pi);
            assert(mi * pi > mx || mi * pi < -mx) by (nonlinear_arith)
                requires mi > li || mi < -li, (li + 1) * pi > mx, pi >= 1;
        }
        None
    }
}

impl Amount {
    /// The decimal invariant: a 96-bit mantissa and a scale of at most 28.
    #[verifier::type_invariant]
    pub closed spec fn inv(self) -> bool {
        mantissa_ok(self.mantissa as int) && self.scale <= MAX_SCALE
    }

    /// The (mantissa, scale) pair.
    pub closed spec fn parts(self) -> (i128, u32) {
        (self.mantissa, self.scale)
    }

    /// The mantissa of an amount rescaled to a larger scale.
    pub open spec fn aligned(a: Amount, s: nat) -> int {
        pair_aligned(a.parts(), s)
    }

    /// Adding `b` to `a` needs no rounding: both, aligned to the larger
    /// scale, and their sum fit in 96 bits.
    pub open spec fn add_fits(a: Amount, b: Amount) -> bool {
        pair_add_fits(a.parts(), b.parts())
    }

    /// Subtracting `b` from `a` needs no rounding.
    pub open spec fn sub_fits(a: Amount, b: Amount) -> bool {
        pair_sub_fits(a.parts(), b.parts())
    }

    /// Multiplying `a` by `b` needs no rounding: the scales add up to at
    /// most 28 and the product of the mantissas fits in 96 bits.
    pub open spec fn mul_fits(a: Amount, b: Amount) -> bool {
        &&& a.parts().1 + b.parts().1 <= MAX_SCALE
        &&& mantissa_ok(a.parts().0 * b.parts().0)
    }

    /// `Decimal::new(num, scale)`: the amount `num / 10^scale`.
    pub fn new(num: i64, scale: u32) -> (r: Amount)
        requires
            scale <= MAX_SCALE,
        ensures
            r.parts() == (num as i128, scale),
            r@ == units_of(num as int, scale as nat),
    {
        Amount { mantissa: num as i128, scale }
    }

    /// `Decimal::from_i128_with_scale`, checked: `None` when the mantissa
    /// exceeds 96 bits or the scale exceeds 28.
    pub fn from_parts(mantissa: i128, scale: u32) -> (r: Option<Amount>)
        ensures
            r is Some <==> (mantissa_ok(mantissa as int) && scale <= MAX_SCALE),
            r matches Some(a) ==> a.parts() == (mantissa, scale) && a@ == units_of(mantissa as int, scale as nat),
    {
        if mantissa <= MAX_MANTISSA && mantissa >= -MAX_MANTISSA && scale <= MAX_SCALE {
            Some(Amount { mantissa, scale })
        } else {
            None
        }
    }

    /// Zero.
    pub fn zero() -> (r: Amount)
        ensures
            r@ == 0,
            r.parts() == (0i128, 0u32),
    {
        Amount { mantissa: 0, scale: 0 }
    }

    /// The mantissa.
    pub fn mantissa(&self) -> (r: i128)
        ensures
            r == self.parts().0,
            mantissa_ok(r as int),
    {
        proof { use_type_invariant(self); }
        self.mantissa
    }

    /// The scale.
    pub fn scale(&self) -> (r: u32)
        ensures
            r == self.parts().1,
            r <= MAX_SCALE,
    {
        proof { use_type_invariant(self); }
        self.scale
    }

    /// The sum (`Decimal` addition, which panics on overflow): exact where
    /// no rounding is needed, otherwise what `Decimal` gives.
    pub fn add(&self, other: &Amount) -> (r: Amount)
        requires
            Self::add_fits(*self, *other) || decimal_checked_sum(self.parts(), other.parts()) is Some,
        ensures
            Self::add_fits(*self, *other) ==> r@ == self@ + other@
                && r.parts() == exact_sum_parts(self.parts(), other.parts()),
            decimal_checked_sum(self.parts(), other.parts()) == Some(r.parts()),
            r.parts() == decimal_sum(self.parts(), other.parts()),
    {
        match decimal_checked_add(self, other) {
            Some(sum) => sum,
            None => {
                proof { assert(false); }
                *self
            },
        }
    }

    /// The sum, or none where `Decimal` addition overflows
    /// (`Decimal::checked_add`).
    pub fn checked_add(&self, other: &Amount) -> (r: Option<Amount>)
        ensures
            match r {
                Some(sum) => decimal_checked_sum(self.parts(), other.parts()) == Some(sum.parts())
                    && (Self::add_fits(*self, *other) ==> sum@ == self@ + other@
                        && sum.parts() == exact_sum_parts(self.parts(), other.parts())),
                None => decimal_checked_sum(self.parts(), other.parts()) is None,
            },
            Self::add_fits(*self, *other) ==> r is Some,
    {
        decimal_checked_add(self, other)
    }

    /// The difference (`Decimal` subtraction, which panics on overflow):
    /// exact where no rounding is needed, otherwise what `Decimal` gives.
    pub fn sub(&self, other: &Amount) -> (r: Amount)
        requires
            Self::sub_fits(*self, *other) || decimal_checked_difference(self.parts(), other.parts()) is Some,
        ensures
            Self::sub_fits(*self, *other) ==> r@ == self@ - other@
                && r.parts() == exact_difference_parts(self.parts(), other.parts()),
            decimal_checked_difference(self.parts(), other.parts()) == Some(r.parts()),
            r.parts() == decimal_difference(self.parts(), other.parts()),
    {
        match decimal_checked_sub(self, other) {
            Some(d) => d,
            None => {
                proof { assert(false); }
                *self
            },
        }
    }

    /// The difference, or none where `Decimal` subtraction overflows
    /// (`Decimal::checked_sub`).
    pub fn checked_sub(&self, other: &Amount) -> (r: Option<Amount>)
        ensures
            match r {
                Some(d) => decimal_checked_difference(self.parts(), other.parts()) == Some(d.parts())
                    && (Self::sub_fits(*self, *other) ==> d@ == self@ - other@
                        && d.parts() == exact_difference_parts(self.parts(), other.parts())),
                None => decimal_checked_difference(self.parts(), other.parts()) is None,
            },
            Self::sub_fits(*self, *other) ==> r is Some,
    {
        decimal_checked_sub(self, other)
    }

    /// The product, without rounding (`Decimal` multiplication).
    pub fn mul(&self, other: &Amount) -> (r: Amount)
        requires
            Self::mul_fits(*self, *other),
        ensures
            r@ == units_of(self.parts().0 * other.parts().0, (self.parts().1 + other.parts().1) as nat),
            r.parts() == decimal_product(self.parts(), other.parts()),
    {
        decimal_multiply(self, other)
    }

    /// Compares two amounts by value: -1, 0 or 1.
    pub fn compare(&self, other: &Amount) -> (r: i8)
        ensures
            r == (if self@ < other@ { -1i8 } else if self@ == other@ { 0i8 } else { 1i8 }),
    {
        decimal_compare(self, other)
    }

    /// Whether `self + other` needs no rounding.
    pub fn can_add(&self, other: &Amount) -> (r: bool)
        ensures
            r == Self::add_fits(*self, *other),
    {
        proof {
            use_type_invariant(self);
            use_type_invariant(other);
        }
        let s = if self.scale >= other.scale { self.scale } else { other.scale };
        match (aligned_within(self.mantissa, s - self.scale), aligned_within(other.mantissa, s - other.scale)) {
            (Some(x), Some(y)) => {
                let t = x + y;
                t <= MAX_MANTISSA && t >= -MAX_MANTISSA
            },
            _ => false,
        }
    }

    /// Whether `self - other` needs no rounding.
    pub fn can_sub(&self, other: &Amount) -> (r: bool)
        ensures
            r == Self::sub_fits(*self, *other),
    {
        proof {
            use_type_invariant(self);
            use_type_invariant(other);
        }
        let s = if self.scale >= other.scale { self.scale } else { other.scale };
        match (aligned_within(self.mantissa, s - self.scale), aligned_within(other.mantissa, s - other.scale)) {
            (Some(x), Some(y)) => {
                let t = x - y;
                t <= MAX_MANTISSA && t >= -MAX_MANTISSA
            },
            _ => false,
        }
    }

    /// `self < other`, by value.
    pub fn less_than(&self, other: &Amount) -> (r: bool)
        ensures
            r == (self@ < other@),
    {
        decimal_compare(self, other) < 0
    }

    /// `self <= other`, by value.
    pub fn at_most(&self, other: &Amount) -> (r: bool)
        ensures
            r == (self@ <= other@),
    {
        decimal_compare(self, other) <= 0
    }

    /// The amount as `Decimal` displays it.
    pub fn to_text(&self) -> (r: String)
        ensures
            r@ == decimal_text(self.parts()),
    {
        decimal_to_string(self)
    }

    /// Parses a decimal text as `Decimal::from_str` does.
    pub fn parse(s: &str) -> (r: Option<Amount>)
        ensures
            match r {
                Some(a) => decimal_parse(s@) == Ok::<(i128, u32), Seq<char>>(a.parts()),
                None => decimal_parse(s@) is Err,
            },
    {
        match decimal_from_str(s) {
            Ok(a) => Some(a),
            Err(_) => None,
        }
    }

    /// Parses a decimal text as `Decimal::from_str` does; on failure, the
    /// message of its error.
    pub fn try_parse(s: &str) -> (r: Result<Amount, String>)
        ensures
            match r {
                Ok(a) => decimal_parse(s@) == Ok::<(i128, u32), Seq<char>>(a.parts()),
                Err(m) => decimal_parse(s@) == Err::<(i128, u32), Seq<char>>(m@),
            },
    {
        decimal_from_str(s)
    }
}

/// The value of an amount is that of its (mantissa, scale) pair.
pub proof fn lemma_value_of_parts(a: Amount)
    ensures
        a@ == units_of(a.parts().0 as int, a.parts().1 as nat),
{
}

/// Two amounts of one scale compare as their mantissas do.
pub proof fn lemma_same_scale(a: Amount, b: Amount)
    requires
        a.parts().1 == b.parts().1,
    ensures
        a@ < b@ <==> a.parts().0 < b.parts().0,
        a@ == b@ <==> a.parts().0 == b.parts().0,
{
    lemma_value_of_parts(a);
    lemma_value_of_parts(b);
    let k = (MAX_SCALE - a.parts().1) as nat;
    lemma_pow10_pos(k);
    let p = pow10(k);
    let x = a.parts().0 as int;
    let y = b.parts().0 as int;
    assert(x < y <==> x * p < y * p) by (nonlinear_arith)
        requires p >= 1;
    assert(x == y <==> x * p == y * p) by (nonlinear_arith)
        requires p >= 1;
}

/// Adding zero (mantissa 0, scale 0) to any amount, or any amount to zero,
/// needs no rounding.
pub proof fn lemma_zero_adds(a: Amount, z: Amount)
    requires
        a.inv(),
        z.parts() == (0i128, 0u32),
    ensures
        Amount::add_fits(a, z),
        Amount::add_fits(z, a),
{
    let s = a.scale as nat;
    assert(((s - s) as nat) == 0nat);
    assert(pow10(0nat) == 1) by { reveal_with_fuel(pow10, 2); }
    assert(a.parts() == (a.mantissa, a.scale));
    assert(((s - a.parts().1) as nat) == 0nat);
    assert(Amount::aligned(a, s) == a.mantissa * 1);
    assert(Amount::aligned(z, s) == 0) by (nonlinear_arith)
        requires Amount::aligned(z, s) == 0 * pow10((s - 0) as nat);
}

/// `Decimal::checked_add`: the sum of two decimals, none on overflow. When
/// the operands aligned to the larger scale and their sum fit in 96 bits,
/// there is a sum and it is exact (no rounding): a zero operand comes back
/// as the other operand, else the sum is kept at the larger scale. The
/// result is named.
#[verifier::external_body]
fn decimal_checked_add(a: &Amount, b: &Amount) -> (r: Option<Amount>)
    ensures
        match r {
            Some(sum) => decimal_checked_sum(a.parts(), b.parts()) == Some(sum.parts())
                && (Amount::add_fits(*a, *b) ==> sum@ == a@ + b@
                    && sum.parts() == exact_sum_parts(a.parts(), b.parts())),
            None => decimal_checked_sum(a.parts(), b.parts()) is None,
        },
        Amount::add_fits(*a, *b) ==> r is Some,
{
    let x = Decimal::from_i128_with_scale(a.mantissa, a.scale);
    let y = Decimal::from_i128_with_scale(b.mantissa, b.scale);
    x.checked_add(y).map(|d| Amount { mantissa: d.mantissa(), scale: d.scale() })
}

/// `Decimal::checked_sub`: the difference of two decimals, none on
/// overflow; exact, and formed as the sum is, under the same condition as
/// the sum. The result is named.
#[verifier::external_body]
fn decimal_checked_sub(a: &Amount, b: &Amount) -> (r: Option<Amount>)
    ensures
        match r {
            Some(d) => decimal_checked_difference(a.parts(), b.parts()) == Some(d.parts())
                && (Amount::sub_fits(*a, *b) ==> d@ == a@ - b@
                    && d.parts() == exact_difference_parts(a.parts(), b.parts())),
            None => decimal_checked_difference(a.parts(), b.parts()) is None,
        },
        Amount::sub_fits(*a, *b) ==> r is Some,
{
    let x = Decimal::from_i128_with_scale(a.mantissa, a.scale);
    let y = Decimal::from_i128_with_scale(b.mantissa, b.scale);
    x.checked_sub(y).map(|d| Amount { mantissa: d.mantissa(), scale: d.scale() })
}

/// `impl Mul for Decimal`: the product of two decimals. When the scales add
/// up to at most 28 and the product of the mantissas fits in 96 bits, the
/// product is exact; the result is always named.
#[verifier::external_body]
fn decimal_multiply(a: &Amount, b: &Amount) -> (r: Amount)
    requires
        Amount::mul_fits(*a, *b),
    ensures
        r@ == units_of(a.parts().0 * b.parts().0, (a.parts().1 + b.parts().1) as nat),
        r.parts() == decimal_product(a.parts(), b.parts()),
{
    let d = Decimal::from_i128_with_scale(a.mantissa, a.scale) * Decimal::from_i128_with_scale(b.mantissa, b.scale);
    Amount { mantissa: d.mantissa(), scale: d.scale() }
}

/// `Ord::cmp` of two decimals: they are compared by value.
#[verifier::external_body]
fn decimal_compare(a: &Amount, b: &Amount) -> (r: i8)
    ensures
        r == (if a@ < b@ { -1i8 } else if a@ == b@ { 0i8 } else { 1i8 }),
{
    let x = Decimal::from_i128_with_scale(a.mantissa, a.scale);
    let y = Decimal::from_i128_with_scale(b.mantissa, b.scale);
    match x.cmp(&y) {
        std::cmp::Ordering::Less => -1,
        std::cmp::Ordering::Equal => 0,
        std::cmp::Ordering::Greater => 1,
    }
}

/// `Decimal::to_string` of the decimal the parts make: its `Display`
/// prints the sign, the whole digits and the scaled fraction as
/// `decimal_text` states (no width or precision is asked for).
#[verifier::external_body]
fn decimal_to_string(a: &Amount) -> (r: String)
    ensures
        r@ == decimal_text(a.parts()),
{
    Decimal::from_i128_with_scale(a.mantissa, a.scale).to_string()
}

/// `Decimal::from_str`: the result, a value or the text of the error, is
/// named; what it accepts is its own.
#[verifier::external_body]
fn decimal_from_str(s: &str) -> (r: Result<Amount, String>)
    ensures
        match r {
            Ok(a) => decimal_parse(s@) == Ok::<(i128, u32), Seq<char>>(a.parts()),
            Err(m) => decimal_parse(s@) == Err::<(i128, u32), Seq<char>>(m@),
        },
{
    match s.parse::<Decimal>() {
        Ok(d) => Ok(Amount { mantissa: d.mantissa(), scale: d.scale() }),
        Err(e) => Err(e.to_string()),
    }
}

impl PartialEq for Amount {
    fn eq(&self, other: &Amount) -> (r: bool) {
        decimal_compare(self, other) == 0
    }
}

impl vstd::std_specs::cmp::PartialEqSpecImpl for Amount {
    open spec fn obeys_eq_spec() -> bool {
        true
    }

    open spec fn eq_spec(&self, other: &Amount) -> bool {
        self@ == other@
    }
}

} // verus!
