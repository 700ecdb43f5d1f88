//! Exact decimal quantities: a signed 96-bit mantissa and a power-of-ten scale.

use vstd::prelude::*;

verus! {

/// Largest magnitude of a mantissa: 2^96 - 1.
pub const MAX_MANTISSA: i128 = 79_228_162_514_264_337_593_543_950_335;

/// Largest number of fractional digits.
pub const MAX_SCALE: u32 = 28;

/// Ten to the power `n`.
pub open spec fn pow10(n: nat) -> int
    decreases n,
{
    if n == 0 {
        1
    } else {
        10 * pow10((n - 1) as nat)
    }
}

/// The mathematical content of an [`Amount`]: the number `mantissa / 10^scale`.
pub ghost struct Dec {
    pub mantissa: int,
    pub scale: nat,
}

impl Dec {
    /// The mantissa fits in 96 bits and the scale is at most 28.
    pub open spec fn wf(self) -> bool {
        &&& -MAX_MANTISSA <= self.mantissa <= MAX_MANTISSA
        &&& self.scale <= MAX_SCALE
    }

    /// The number in units of 10^-28, which every well-formed value is a whole multiple of.
    pub open spec fn value(self) -> int {
        self.mantissa * pow10((MAX_SCALE - self.scale) as nat)
    }

    /// The mantissa this number has when written with `scale` fractional digits,
    /// for a `scale` that is not below its own.
    pub open spec fn mantissa_at(self, scale: nat) -> int {
        self.mantissa * pow10((scale - self.scale) as nat)
    }

    /// Zero, written without fractional digits.
    pub open spec fn zero() -> Dec {
        Dec { mantissa: 0, scale: 0 }
    }

    /// The largest representable number.
    pub open spec fn largest() -> Dec {
        Dec { mantissa: MAX_MANTISSA as int, scale: 0 }
    }

    /// The smallest representable number.
    pub open spec fn smallest() -> Dec {
        Dec { mantissa: -MAX_MANTISSA, scale: 0 }
    }
}

/// The number of value `value`, in units of 10^-28, lies beyond the largest or the smallest
/// representable number.
pub open spec fn overflows(value: int) -> bool {
    value > Dec::largest().value() || value < Dec::smallest().value()
}

/// The representable number nearest to one that overflows.
pub open spec fn saturated(value: int) -> Dec {
    if value > 0 {
        Dec::largest()
    } else {
        Dec::smallest()
    }
}

/// The larger of two scales.
pub open spec fn max_scale(a: Dec, b: Dec) -> nat {
    if a.scale >= b.scale {
        a.scale
    } else {
        b.scale
    }
}

/// The sum can be written, digit for digit, at the larger of the two scales:
/// one operand is zero, or the mantissa of the sum at that scale fits in 96 bits.
pub open spec fn sum_is_exact(a: Dec, b: Dec) -> bool {
    let s = max_scale(a, b);
    let m = a.mantissa_at(s) + b.mantissa_at(s);
    a.mantissa == 0 || b.mantissa == 0 || -MAX_MANTISSA <= m <= MAX_MANTISSA
}

/// The sum where [`sum_is_exact`] holds: a zero operand leaves the other as it is written,
/// otherwise the mantissas are added at the larger scale.
pub open spec fn exact_sum(a: Dec, b: Dec) -> Dec {
    let s = max_scale(a, b);
    if a.mantissa == 0 {
        b
    } else if b.mantissa == 0 {
        a
    } else {
        Dec { mantissa: a.mantissa_at(s) + b.mantissa_at(s), scale: s }
    }
}

/// What the addition gives where the sum is within the representable range but cannot be
/// written at the larger scale: the sum rounded to fewer fractional digits.
pub uninterp spec fn rounded_sum(a: Dec, b: Dec) -> Dec;

/// The result of a saturating addition: the exact sum where it can be written, the largest
/// or the smallest representable number where the sum lies beyond them, and a rounded sum
/// in between.
pub open spec fn saturating_sum(a: Dec, b: Dec) -> Dec {
    if sum_is_exact(a, b) {
        exact_sum(a, b)
    } else if overflows(a.value() + b.value()) {
        saturated(a.value() + b.value())
    } else {
        rounded_sum(a, b)
    }
}

/// The difference can be written, digit for digit, at the larger of the two scales.
pub open spec fn difference_is_exact(a: Dec, b: Dec) -> bool {
    let s = max_scale(a, b);
    let m = a.mantissa_at(s) - b.mantissa_at(s);
    a.mantissa == 0 || b.mantissa == 0 || -MAX_MANTISSA <= m <= MAX_MANTISSA
}

/// The difference where [`difference_is_exact`] holds: from zero, the negated subtrahend as it
/// is written; less zero, the minuend as it is written; otherwise the mantissas are subtracted
/// at the larger scale.
pub open spec fn exact_difference(a: Dec, b: Dec) -> Dec {
    let s = max_scale(a, b);
    if a.mantissa == 0 {
        Dec { mantissa: -b.mantissa, scale: b.scale }
    } else if b.mantissa == 0 {
        a
    } else {
        Dec { mantissa: a.mantissa_at(s) - b.mantissa_at(s), scale: s }
    }
}

/// What the subtraction gives where the difference is within the representable range but
/// cannot be written at the larger scale: the difference rounded to fewer fractional digits.
pub uninterp spec fn rounded_difference(a: Dec, b: Dec) -> Dec;

/// The result of a saturating subtraction: the exact difference where it can be written,
/// the largest or the smallest representable number where the difference lies beyond them,
/// and a rounded difference in between.
pub open spec fn saturating_difference(a: Dec, b: Dec) -> Dec {
    if difference_is_exact(a, b) {
        exact_difference(a, b)
    } else if overflows(a.value() - b.value()) {
        saturated(a.value() - b.value())
    } else {
        rounded_difference(a, b)
    }
}

/// The integer nearest to `m / d`, a tie going to the even neighbour, for `d > 0`.
pub open spec fn round_half_even(m: int, d: int) -> int {
    let magnitude = if m < 0 {
        -m
    } else {
        m
    };
    let q = magnitude / d;
    let r = magnitude % d;
    let rounded = if 2 * r > d || (2 * r == d && q % 2 == 1) {
        q + 1
    } else {
        q
    };
    if m < 0 {
        -rounded
    } else {
        rounded
    }
}

/// The number with at most `dp` fractional digits: unchanged where it has no more,
/// otherwise rounded half to even and written with exactly `dp` digits.
pub open spec fn rounded(a: Dec, dp: nat) -> Dec {
    if a.scale <= dp {
        a
    } else {
        Dec { mantissa: round_half_even(a.mantissa, pow10((a.scale - dp) as nat)), scale: dp }
    }
}

/// Every power of ten is positive.
pub proof fn lemma_pow10_positive(n: nat)
    ensures
        pow10(n) > 0,
    decreases n,
{
    if n > 0 {
        lemma_pow10_positive((n - 1) as nat);
    }
}

/// Powers of ten multiply by adding their exponents.
pub proof fn lemma_pow10_add(a: nat, b: nat)
    ensures
        pow10(a + b) == pow10(a) * pow10(b),
    decreases a,
{
    if a > 0 {
        lemma_pow10_add((a - 1) as nat, b);
        assert(10 * (pow10((a - 1) as nat) * pow10(b)) == (10 * pow10((a - 1) as nat)) * pow10(b))
            by (nonlinear_arith);
    }
}

/// A number keeps its value when its mantissa is written at a larger scale.
pub proof fn lemma_mantissa_at_value(a: Dec, scale: nat)
    requires
        a.scale <= scale <= MAX_SCALE,
    ensures
        a.mantissa_at(scale) * pow10((MAX_SCALE - scale) as nat) == a.value(),
{
    let up = (scale - a.scale) as nat;
    let rest = (MAX_SCALE - scale) as nat;
    lemma_pow10_add(up, rest);
    assert((a.mantissa * pow10(up)) * pow10(rest) == a.mantissa * (pow10(up) * pow10(rest)))
        by (nonlinear_arith);
}

/// Where a sum is exact it is representable and its value is the sum of the two values.
pub proof fn lemma_exact_sum(a: Dec, b: Dec)
    requires
        a.wf(),
        b.wf(),
        sum_is_exact(a, b),
    ensures
        saturating_sum(a, b) == exact_sum(a, b),
        saturating_sum(a, b).wf(),
        saturating_sum(a, b).value() == a.value() + b.value(),
{
    let s = max_scale(a, b);
    let unit = pow10((MAX_SCALE - s) as nat);
    lemma_mantissa_at_value(a, s);
    lemma_mantissa_at_value(b, s);
    assert((a.mantissa_at(s) + b.mantissa_at(s)) * unit == a.mantissa_at(s) * unit + b.mantissa_at(
        s,
    ) * unit) by (nonlinear_arith);
    assert(0 * pow10((MAX_SCALE - a.scale) as nat) == 0);
    assert(0 * pow10((MAX_SCALE - b.scale) as nat) == 0);
}

/// Where a difference is exact it is representable and its value is the difference of the
/// two values.
pub proof fn lemma_exact_difference(a: Dec, b: Dec)
    requires
        a.wf(),
        b.wf(),
        difference_is_exact(a, b),
    ensures
        saturating_difference(a, b) == exact_difference(a, b),
        saturating_difference(a, b).wf(),
        saturating_difference(a, b).value() == a.value() - b.value(),
{
    let s = max_scale(a, b);
    let unit = pow10((MAX_SCALE - s) as nat);
    lemma_mantissa_at_value(a, s);
    lemma_mantissa_at_value(b, s);
    assert((a.mantissa_at(s) - b.mantissa_at(s)) * unit == a.mantissa_at(s) * unit - b.mantissa_at(
        s,
    ) * unit) by (nonlinear_arith);
    let own = pow10((MAX_SCALE - b.scale) as nat);
    assert((-b.mantissa) * own == -(b.mantissa * own)) by (nonlinear_arith);
    assert(0 * pow10((MAX_SCALE - a.scale) as nat) == 0);
    assert(0 * own == 0);
}

/// Rounding a representable number gives a representable number.
pub proof fn lemma_rounded_is_representable(a: Dec, dp: nat)
    requires
        a.wf(),
    ensures
        rounded(a, dp).wf(),
{
    if a.scale > dp {
        let d = pow10((a.scale - dp) as nat);
        let magnitude = if a.mantissa < 0 {
            -a.mantissa
        } else {
            a.mantissa
        };
        let q = magnitude / d;
        lemma_pow10_positive((a.scale - dp - 1) as nat);
        assert(d >= 10);
        assert(0 <= q && 10 * q <= magnitude) by (nonlinear_arith)
            requires
                d >= 10,
                magnitude >= 0,
                q == magnitude / d,
        ;
    }
}

/// A decimal quantity with up to 28 fractional digits.
#[derive(Clone, Copy, Debug)]
pub struct Amount {
    mantissa: i128,
    scale: u32,
}

impl View for Amount {
    type V = Dec;

    closed spec fn view(&self) -> Dec {
        Dec { mantissa: self.mantissa as int, scale: self.scale as nat }
    }
}

impl Amount {
    #[verifier::type_invariant]
    pub open spec fn inv(self) -> bool {
        self@.wf()
    }

    /// The quantity `num / 10^scale`.
    pub fn new(num: i64, scale: u32) -> (r: Amount)
        requires
            scale <= MAX_SCALE,
        ensures
            r@ == (Dec { mantissa: num as int, scale: scale as nat }),
    {
        Amount { mantissa: num as i128, scale }
    }

    /// The quantity `mantissa / 10^scale`, where the mantissa fits in 96 bits and the scale
    /// is at most 28.
    pub fn from_parts(mantissa: i128, scale: u32) -> (r: Option<Amount>)
        ensures
            r is Some <==> (Dec { mantissa: mantissa as int, scale: scale as nat }).wf(),
            r matches Some(a) ==> a@ == (Dec { mantissa: mantissa as int, scale: scale as nat }),
    {
        if scale <= MAX_SCALE && -MAX_MANTISSA <= mantissa && mantissa <= MAX_MANTISSA {
            Some(Amount { mantissa, scale })
        } else {
            None
        }
    }

    /// Zero, written without fractional digits.
    pub fn zero() -> (r: Amount)
        ensures
            r@ == Dec::zero(),
    {
        Amount { mantissa: 0, scale: 0 }
    }

    /// The mantissa: the quantity times `10^scale`.
    pub fn mantissa(&self) -> (m: i128)
        ensures
            m == self@.mantissa,
            -MAX_MANTISSA <= m <= MAX_MANTISSA,
    {
        proof {
            use_type_invariant(self);
        }
        self.mantissa
    }

    /// The number of fractional digits the quantity is written with.
    pub fn scale(&self) -> (s: u32)
        ensures
            s == self@.scale,
            s <= MAX_SCALE,
    {
        proof {
            use_type_invariant(self);
        }
        self.scale
    }

    /// The sum, exact wherever it can be written at the larger of the two scales.
    pub fn saturating_add(self, other: Amount) -> (r: Amount)
        ensures
            r@ == saturating_sum(self@, other@),
            r@.wf(),
    {
        proof {
            use_type_invariant(self);
            use_type_invariant(other);
        }
        decimal_saturating_add(self, other)
    }

    /// The difference, exact wherever it can be written at the larger of the two scales.
    pub fn saturating_sub(self, other: Amount) -> (r: Amount)
        ensures
            r@ == saturating_difference(self@, other@),
            r@.wf(),
    {
        proof {
            use_type_invariant(self);
            use_type_invariant(other);
        }
        decimal_saturating_sub(self, other)
    }

    /// Whether this quantity is the smaller number.
    pub fn less_than(&self, other: &Amount) -> (r: bool)
        ensures
            r == (self@.value() < other@.value()),
    {
        proof {
            use_type_invariant(self);
            use_type_invariant(other);
        }
        decimal_lt(*self, *other)
    }

    /// The quantity with at most `dp` fractional digits, rounded half to even.
    pub fn round_dp(self, dp: u32) -> (r: Amount)
        ensures
            r@ == rounded(self@, dp as nat),
            r@.wf(),
    {
        proof {
            use_type_invariant(self);
            lemma_rounded_is_representable(self@, dp as nat);
        }
        decimal_round_dp(self, dp)
    }
}

impl Default for Amount {
    fn default() -> (r: Amount)
        ensures
            r@ == Dec::zero(),
    {
        Amount::zero()
    }
}

impl PartialEq for Amount {
    fn eq(&self, other: &Amount) -> (r: bool) {
        proof {
            use_type_invariant(self);
            use_type_invariant(other);
        }
        decimal_eq(*self, *other)
    }
}

/// Two amounts are equal when they are the same number, whatever their scales.
impl vstd::std_specs::cmp::PartialEqSpecImpl for Amount {
    open spec fn obeys_eq_spec() -> bool {
        true
    }

    open spec fn eq_spec(&self, other: &Amount) -> bool {
        self@.value() == other@.value()
    }
}

/// `rust_decimal::Decimal::saturating_add` on the two numbers. Where the sum can be written at
/// the larger scale the crate returns exactly that, or the other operand untouched when one is
/// zero. Where the sum lies beyond the largest or the smallest decimal it returns that one.
/// In between it rounds to fewer digits, and the result is only named. The result is always
/// a representable decimal.
#[verifier::external_body]
fn decimal_saturating_add(a: Amount, b: Amount) -> (r: Amount)
    requires
        a@.wf(),
        b@.wf(),
    ensures
        r@.wf(),
        sum_is_exact(a@, b@) ==> r@ == exact_sum(a@, b@),
        !sum_is_exact(a@, b@) && overflows(a@.value() + b@.value()) ==> r@ == saturated(
            a@.value() + b@.value(),
        ),
        !sum_is_exact(a@, b@) && !overflows(a@.value() + b@.value()) ==> r@ == rounded_sum(a@, b@),
{
    let x = rust_decimal::Decimal::from_i128_with_scale(a.mantissa, a.scale);
    let y = rust_decimal::Decimal::from_i128_with_scale(b.mantissa, b.scale);
    let z = x.saturating_add(y);
    Amount { mantissa: z.mantissa(), scale: z.scale() }
}

/// `rust_decimal::Decimal::saturating_sub` on the two numbers. Where the difference can be
/// written at the larger scale the crate returns exactly that, the minuend untouched when the
/// subtrahend is zero, or the negated subtrahend when the minuend is zero. Where the
/// difference lies beyond the largest or the smallest decimal it returns that one. In between
/// it rounds to fewer digits, and the result is only named. The result is always a
/// representable decimal.
#[verifier::external_body]
fn decimal_saturating_sub(a: Amount, b: Amount) -> (r: Amount)
    requires
        a@.wf(),
        b@.wf(),
    ensures
        r@.wf(),
        difference_is_exact(a@, b@) ==> r@ == exact_difference(a@, b@),
        !difference_is_exact(a@, b@) && overflows(a@.value() - b@.value()) ==> r@ == saturated(
            a@.value() - b@.value(),
        ),
        !difference_is_exact(a@, b@) && !overflows(a@.value() - b@.value()) ==> r@
            == rounded_difference(a@, b@),
{
    let x = rust_decimal::Decimal::from_i128_with_scale(a.mantissa, a.scale);
    let y = rust_decimal::Decimal::from_i128_with_scale(b.mantissa, b.scale);
    let z = x.saturating_sub(y);
    Amount { mantissa: z.mantissa(), scale: z.scale() }
}

/// `<` on two `rust_decimal::Decimal`s, the `lt` of their `PartialOrd`, which orders them as
/// numbers, whatever their scales.
#[verifier::external_body]
fn decimal_lt(a: Amount, b: Amount) -> (r: bool)
    requires
        a@.wf(),
        b@.wf(),
    ensures
        r == (a@.value() < b@.value()),
{
    let x = rust_decimal::Decimal::from_i128_with_scale(a.mantissa, a.scale);
    let y = rust_decimal::Decimal::from_i128_with_scale(b.mantissa, b.scale);
    x < y
}

/// `==` on two `rust_decimal::Decimal`s, the `eq` of their `PartialEq`, which holds when they
/// are the same number, whatever their scales.
#[verifier::external_body]
fn decimal_eq(a: Amount, b: Amount) -> (r: bool)
    requires
        a@.wf(),
        b@.wf(),
    ensures
        r == (a@.value() == b@.value()),
{
    let x = rust_decimal::Decimal::from_i128_with_scale(a.mantissa, a.scale);
    let y = rust_decimal::Decimal::from_i128_with_scale(b.mantissa, b.scale);
    x == y
}

/// `rust_decimal::Decimal::round_dp`: a number with no more than `dp` fractional digits is
/// returned as it is; one with more is rounded half to even and has exactly `dp` digits.
#[verifier::external_body]
fn decimal_round_dp(a: Amount, dp: u32) -> (r: Amount)
    requires
        a@.wf(),
    ensures
        r@ == rounded(a@, dp as nat),
{
    let x = rust_decimal::Decimal::from_i128_with_scale(a.mantissa, a.scale);
    let z = x.round_dp(dp);
    Amount { mantissa: z.mantissa(), scale: z.scale() }
}

} // verus!
