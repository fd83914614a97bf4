//! Fixed-point decimal numbers: a signed 96-bit mantissa and a power-of-ten scale.
//!
//! A value stands for `mantissa / 10^scale`. Order, sign and truncation are
//! decided here; sums, differences, products and quotients are computed by the
//! `rust_decimal` crate, whose rounding and overflow rules are taken as given.

use vstd::prelude::*;

verus! {

/// Largest magnitude of a mantissa, `2^96 - 1`.
pub const MAX_MANTISSA: i128 = 0x0000_0000_FFFF_FFFF_FFFF_FFFF_FFFF_FFFF;

/// Largest scale: a value has at most 28 digits after the point.
pub const MAX_SCALE: u32 = 28;

/// `10^e`.
pub open spec fn pow10(e: nat) -> int
    decreases e,
{
    if e == 0 {
        1
    } else {
        10 * pow10((e - 1) as nat)
    }
}

/// Whether a mantissa and a scale describe a representable decimal.
pub open spec fn representable(mantissa: int, scale: int) -> bool {
    -(MAX_MANTISSA as int) <= mantissa <= MAX_MANTISSA as int && 0 <= scale <= MAX_SCALE as int
}

/// `am / 10^ae < bm / 10^be`, stated without division.
pub open spec fn value_lt(am: int, ae: nat, bm: int, be: nat) -> bool {
    am * pow10(be) < bm * pow10(ae)
}

/// `am / 10^ae == bm / 10^be`, stated without division.
pub open spec fn value_eq(am: int, ae: nat, bm: int, be: nat) -> bool {
    am * pow10(be) == bm * pow10(ae)
}

/// The integer part of `m / 10^e`, rounded toward zero.
pub open spec fn truncated(m: int, e: nat) -> int {
    if m >= 0 {
        m / pow10(e)
    } else {
        -((-m) / pow10(e))
    }
}

/// What `rust_decimal` returns for the checked sum of two decimals, as mantissa and
/// scale; `None` where it reports overflow.
pub uninterp spec fn decimal_sum(am: int, ae: int, bm: int, be: int) -> Option<(int, int)>;

/// What `rust_decimal` returns for the checked difference of two decimals.
pub uninterp spec fn decimal_difference(am: int, ae: int, bm: int, be: int) -> Option<(int, int)>;

/// What `rust_decimal` returns for the checked product of two decimals.
pub uninterp spec fn decimal_product(am: int, ae: int, bm: int, be: int) -> Option<(int, int)>;

/// What `rust_decimal` returns for the checked quotient of two decimals.
pub uninterp spec fn decimal_quotient(am: int, ae: int, bm: int, be: int) -> Option<(int, int)>;

/// The text in which a decimal is displayed: a minus sign where it is below zero,
/// the digits of its whole part, and where the scale is above zero a point and
/// as many digits as the scale says, zeros among them.
pub open spec fn decimal_text(m: int, e: nat) -> Seq<char> {
    let magnitude = if m < 0 {
        (-m) as nat
    } else {
        m as nat
    };
    let sign = if m < 0 {
        seq!['-']
    } else {
        Seq::empty()
    };
    let whole = crate::text::nat_text((magnitude / (pow10(e) as nat)) as nat);
    let fraction = if e > 0 {
        seq!['.'] + crate::text::fixed_digits((magnitude % (pow10(e) as nat)) as nat, e)
    } else {
        Seq::empty()
    };
    sign + whole + fraction
}

/// A decimal number `mantissa / 10^scale`.
#[derive(Clone, Copy, Debug)]
pub struct Decimal {
    mantissa: i128,
    scale: u32,
}

impl Decimal {
    #[verifier::type_invariant]
    spec fn in_range(self) -> bool {
        representable(self.mantissa as int, self.scale as int)
    }

    /// The mantissa.
    pub closed spec fn m(self) -> int {
        self.mantissa as int
    }

    /// The scale: the number of digits after the point.
    pub closed spec fn e(self) -> nat {
        self.scale as nat
    }

    /// The decimal with the given parts, for use in contracts.
    pub closed spec fn of_parts(parts: (int, int)) -> Decimal {
        Decimal { mantissa: parts.0 as i128, scale: parts.1 as u32 }
    }

    /// The parts of a decimal made of representable parts are those parts.
    pub proof fn parts_of(m: int, e: int)
        requires
            representable(m, e),
        ensures
            Decimal::of_parts((m, e)).m() == m,
            Decimal::of_parts((m, e)).e() == e,
    {
    }

    /// Zero, at scale zero.
    pub open spec fn zero_value() -> Decimal {
        Decimal::of_parts((0, 0))
    }

    /// The text in which the decimal is displayed.
    pub open spec fn text(self) -> Seq<char> {
        decimal_text(self.m(), self.e())
    }

    /// `self < other` by value.
    pub open spec fn less(self, other: Decimal) -> bool {
        value_lt(self.m(), self.e(), other.m(), other.e())
    }

    /// `self == other` by value: `1.0` and `1.00` are the same.
    pub open spec fn same_value(self, other: Decimal) -> bool {
        value_eq(self.m(), self.e(), other.m(), other.e())
    }

    /// The checked sum, as `rust_decimal` computes it.
    pub open spec fn plus(self, other: Decimal) -> Option<Decimal> {
        match decimal_sum(self.m(), self.e() as int, other.m(), other.e() as int) {
            Some(parts) => Some(Decimal::of_parts(parts)),
            None => None,
        }
    }

    /// The checked difference, as `rust_decimal` computes it.
    pub open spec fn minus(self, other: Decimal) -> Option<Decimal> {
        match decimal_difference(self.m(), self.e() as int, other.m(), other.e() as int) {
            Some(parts) => Some(Decimal::of_parts(parts)),
            None => None,
        }
    }

    /// The checked product, as `rust_decimal` computes it.
    pub open spec fn times(self, other: Decimal) -> Option<Decimal> {
        match decimal_product(self.m(), self.e() as int, other.m(), other.e() as int) {
            Some(parts) => Some(Decimal::of_parts(parts)),
            None => None,
        }
    }

    /// The checked quotient, as `rust_decimal` computes it.
    pub open spec fn over(self, other: Decimal) -> Option<Decimal> {
        match decimal_quotient(self.m(), self.e() as int, other.m(), other.e() as int) {
            Some(parts) => Some(Decimal::of_parts(parts)),
            None => None,
        }
    }

    /// Two decimals with the same mantissa and scale are the same decimal.
    pub proof fn same_parts(a: Decimal, b: Decimal)
        requires
            a.m() == b.m(),
            a.e() == b.e(),
        ensures
            a == b,
    {
    }

    /// The decimal `mantissa / 10^scale`, or `None` where the mantissa needs more
    /// than 96 bits or the scale is above 28.
    pub fn new(mantissa: i128, scale: u32) -> (r: Option<Decimal>)
        ensures
            r is Some <==> representable(mantissa as int, scale as int),
            r matches Some(d) ==> d.m() == mantissa && d.e() == scale,
    {
        if -MAX_MANTISSA <= mantissa && mantissa <= MAX_MANTISSA && scale <= MAX_SCALE {
            Some(Decimal { mantissa, scale })
        } else {
            None
        }
    }

    /// The whole number `n`.
    pub fn from_u64(n: u64) -> (r: Decimal)
        ensures
            r.m() == n,
            r.e() == 0,
    {
        Decimal { mantissa: n as i128, scale: 0 }
    }

    /// The whole number `n`.
    pub fn from_i64(n: i64) -> (r: Decimal)
        ensures
            r.m() == n,
            r.e() == 0,
    {
        Decimal { mantissa: n as i128, scale: 0 }
    }

    /// Zero.
    pub fn zero() -> (r: Decimal)
        ensures
            r == Decimal::zero_value(),
            r.m() == 0,
            r.e() == 0,
    {
        Decimal { mantissa: 0, scale: 0 }
    }

    /// The decimal as text, as `rust_decimal` displays it.
    pub fn to_string(&self) -> (r: String)
        ensures
            r@ == self.text(),
    {
        proof {
            use_type_invariant(self);
        }
        text_outside(*self)
    }

    /// One.
    pub fn one() -> (r: Decimal)
        ensures
            r.m() == 1,
            r.e() == 0,
    {
        Decimal { mantissa: 1, scale: 0 }
    }

    /// The largest decimal, `2^96 - 1`.
    pub fn max_value() -> (r: Decimal)
        ensures
            r == Decimal::of_parts((MAX_MANTISSA as int, 0)),
            r.m() == MAX_MANTISSA,
            r.e() == 0,
    {
        Decimal { mantissa: MAX_MANTISSA, scale: 0 }
    }

    /// The smallest decimal, `-(2^96 - 1)`.
    pub fn min_value() -> (r: Decimal)
        ensures
            r == Decimal::of_parts((-(MAX_MANTISSA as int), 0)),
            r.m() == -MAX_MANTISSA,
            r.e() == 0,
    {
        Decimal { mantissa: -MAX_MANTISSA, scale: 0 }
    }

    /// The mantissa.
    pub fn mantissa(&self) -> (r: i128)
        ensures
            r == self.m(),
            representable(r as int, self.e() as int),
    {
        proof {
            use_type_invariant(self);
        }
        self.mantissa
    }

    /// The scale.
    pub fn scale(&self) -> (r: u32)
        ensures
            r == self.e(),
            r <= MAX_SCALE,
    {
        proof {
            use_type_invariant(self);
        }
        self.scale
    }

    /// Whether the value is zero, at whatever scale.
    pub fn is_zero(&self) -> (r: bool)
        ensures
            r == (self.m() == 0),
    {
        self.mantissa == 0
    }

    /// Whether the value is above zero.
    pub fn is_positive(&self) -> (r: bool)
        ensures
            r == (self.m() > 0),
    {
        self.mantissa > 0
    }

    /// Whether the value is below zero.
    pub fn is_sign_negative(&self) -> (r: bool)
        ensures
            r == (self.m() < 0),
    {
        self.mantissa < 0
    }

    /// The value with its sign turned.
    pub fn neg(self) -> (r: Decimal)
        ensures
            r.m() == -self.m(),
            r.e() == self.e(),
    {
        proof {
            use_type_invariant(self);
        }
        Decimal { mantissa: -self.mantissa, scale: self.scale }
    }

    /// `self < other` by value.
    pub fn lt(self, other: Decimal) -> (r: bool)
        ensures
            r == self.less(other),
    {
        proof {
            use_type_invariant(self);
            use_type_invariant(other);
        }
        less_than(self, other)
    }

    /// `self <= other` by value.
    pub fn le(self, other: Decimal) -> (r: bool)
        ensures
            r == !other.less(self),
    {
        proof {
            use_type_invariant(self);
            use_type_invariant(other);
        }
        !less_than(other, self)
    }

    /// `self == other` by value.
    pub fn eq_value(self, other: Decimal) -> (r: bool)
        ensures
            r == self.same_value(other),
    {
        proof {
            use_type_invariant(self);
            use_type_invariant(other);
        }
        !less_than(self, other) && !less_than(other, self)
    }

    /// The sum of `self` and `other`, or `None` where `rust_decimal` refuses it.
    pub fn checked_add(self, other: Decimal) -> (r: Option<Decimal>)
        ensures
            r == self.plus(other),
    {
        proof {
            use_type_invariant(self);
            use_type_invariant(other);
        }
        let r = add_outside(self, other);
        proof {
            if let Some(d) = r {
                use_type_invariant(&d);
                Decimal::same_parts(d, Decimal::of_parts((d.m(), d.e() as int)));
            }
        }
        r
    }

    /// The difference of `self` and `other`, or `None` where `rust_decimal` refuses it.
    pub fn checked_sub(self, other: Decimal) -> (r: Option<Decimal>)
        ensures
            r == self.minus(other),
    {
        proof {
            use_type_invariant(self);
            use_type_invariant(other);
        }
        let r = sub_outside(self, other);
        proof {
            if let Some(d) = r {
                use_type_invariant(&d);
                Decimal::same_parts(d, Decimal::of_parts((d.m(), d.e() as int)));
            }
        }
        r
    }

    /// The product of `self` and `other`, or `None` where `rust_decimal` refuses it.
    pub fn checked_mul(self, other: Decimal) -> (r: Option<Decimal>)
        ensures
            r == self.times(other),
    {
        proof {
            use_type_invariant(self);
            use_type_invariant(other);
        }
        let r = mul_outside(self, other);
        proof {
            if let Some(d) = r {
                use_type_invariant(&d);
                Decimal::same_parts(d, Decimal::of_parts((d.m(), d.e() as int)));
            }
        }
        r
    }

    /// The quotient of `self` and `other`, or `None` where `rust_decimal` refuses it.
    pub fn checked_div(self, other: Decimal) -> (r: Option<Decimal>)
        ensures
            r == self.over(other),
    {
        proof {
            use_type_invariant(self);
            use_type_invariant(other);
        }
        let r = div_outside(self, other);
        proof {
            if let Some(d) = r {
                use_type_invariant(&d);
                Decimal::same_parts(d, Decimal::of_parts((d.m(), d.e() as int)));
            }
        }
        r
    }

    /// The integer part, rounded toward zero, where it fits in an `i64`.
    pub fn to_i64(&self) -> (r: Option<i64>)
        ensures
            r is Some <==> i64::MIN <= truncated(self.m(), self.e()) <= i64::MAX,
            r matches Some(n) ==> n == truncated(self.m(), self.e()),
    {
        proof {
            use_type_invariant(self);
        }
        let p: u128 = power_of_ten(self.scale);
        if self.mantissa >= 0 {
            let q: u128 = (self.mantissa as u128) / p;
            if q <= i64::MAX as u128 {
                Some(q as i64)
            } else {
                None
            }
        } else {
            let q: u128 = ((-self.mantissa) as u128) / p;
            if q <= i64::MAX as u128 {
                Some(-(q as i64))
            } else if q == i64::MAX as u128 + 1 {
                Some(i64::MIN)
            } else {
                None
            }
        }
    }
}

/// `10^28` written out.
proof fn pow10_of_max_scale()
    ensures
        pow10(28) == 10_000_000_000_000_000_000_000_000_000int,
{
    reveal_with_fuel(pow10, 29);
}

/// `pow10` grows with its argument and is at least one.
pub proof fn pow10_monotonic(a: nat, b: nat)
    requires
        a <= b,
    ensures
        1 <= pow10(a) <= pow10(b),
    decreases b,
{
    if b == 0 {
    } else if a == b {
        pow10_monotonic(0, (b - 1) as nat);
    } else {
        pow10_monotonic(a, (b - 1) as nat);
    }
}

/// `10^e` for a scale in range.
fn power_of_ten(e: u32) -> (p: u128)
    requires
        e <= MAX_SCALE,
    ensures
        p == pow10(e as nat),
        p >= 1,
{
    let mut p: u128 = 1;
    let mut i: u32 = 0;
    while i < e
        invariant
            i <= e <= MAX_SCALE,
            p == pow10(i as nat),
            p >= 1,
        decreases e - i,
    {
        proof {
            pow10_monotonic((i + 1) as nat, 28);
            pow10_of_max_scale();
        }
        p = p * 10;
        i = i + 1;
    }
    p
}

/// `rust_decimal::Decimal`'s `Display`, through `to_string`: the decimal as text.
/// The crate writes the digits of the mantissa, with zeros in front where they
/// are fewer than the scale, puts the point before the last `scale` of them and
/// a zero before a point that would stand first, and a minus sign before a value
/// below zero.
#[verifier::external_body]
fn text_outside(a: Decimal) -> (r: String)
    requires
        representable(a.m(), a.e() as int),
    ensures
        r@ == decimal_text(a.m(), a.e()),
{
    rust_decimal::Decimal::from_i128_with_scale(a.mantissa, a.scale).to_string()
}

/// `rust_decimal::Decimal`'s `<`: whether the first value is below the second. The
/// crate orders decimals by value, whatever their scales. Both operands must be in
/// its range, outside of which it cannot be given them.
#[verifier::external_body]
fn less_than(a: Decimal, b: Decimal) -> (r: bool)
    requires
        representable(a.m(), a.e() as int),
        representable(b.m(), b.e() as int),
    ensures
        r == a.less(b),
{
    let x = rust_decimal::Decimal::from_i128_with_scale(a.mantissa, a.scale);
    let y = rust_decimal::Decimal::from_i128_with_scale(b.mantissa, b.scale);
    x < y
}

/// `rust_decimal::Decimal::checked_add`: the sum, or `None` on overflow. The result is that
/// crate's, rounding included: it is named by its mantissa and scale, not restated.
#[verifier::external_body]
fn add_outside(a: Decimal, b: Decimal) -> (r: Option<Decimal>)
    requires
        representable(a.m(), a.e() as int),
        representable(b.m(), b.e() as int),
    ensures
        r matches Some(d) ==> decimal_sum(a.m(), a.e() as int, b.m(), b.e() as int) == Some(
            (d.m(), d.e() as int),
        ),
        r is None ==> decimal_sum(a.m(), a.e() as int, b.m(), b.e() as int) is None,
{
    let x = rust_decimal::Decimal::from_i128_with_scale(a.mantissa, a.scale);
    let y = rust_decimal::Decimal::from_i128_with_scale(b.mantissa, b.scale);
    match x.checked_add(y) {
        Some(d) => Some(Decimal { mantissa: d.mantissa(), scale: d.scale() }),
        None => None,
    }
}

/// `rust_decimal::Decimal::checked_sub`: the difference, or `None` on overflow. The result is that
/// crate's, rounding included: it is named by its mantissa and scale, not restated.
#[verifier::external_body]
fn sub_outside(a: Decimal, b: Decimal) -> (r: Option<Decimal>)
    requires
        representable(a.m(), a.e() as int),
        representable(b.m(), b.e() as int),
    ensures
        r matches Some(d) ==> decimal_difference(a.m(), a.e() as int, b.m(), b.e() as int) == Some(
            (d.m(), d.e() as int),
        ),
        r is None ==> decimal_difference(a.m(), a.e() as int, b.m(), b.e() as int) is None,
{
    let x = rust_decimal::Decimal::from_i128_with_scale(a.mantissa, a.scale);
    let y = rust_decimal::Decimal::from_i128_with_scale(b.mantissa, b.scale);
    match x.checked_sub(y) {
        Some(d) => Some(Decimal { mantissa: d.mantissa(), scale: d.scale() }),
        None => None,
    }
}

/// `rust_decimal::Decimal::checked_mul`: the product, or `None` on overflow. The result is that
/// crate's, rounding included: it is named by its mantissa and scale, not restated.
#[verifier::external_body]
fn mul_outside(a: Decimal, b: Decimal) -> (r: Option<Decimal>)
    requires
        representable(a.m(), a.e() as int),
        representable(b.m(), b.e() as int),
    ensures
        r matches Some(d) ==> decimal_product(a.m(), a.e() as int, b.m(), b.e() as int) == Some(
            (d.m(), d.e() as int),
        ),
        r is None ==> decimal_product(a.m(), a.e() as int, b.m(), b.e() as int) is None,
{
    let x = rust_decimal::Decimal::from_i128_with_scale(a.mantissa, a.scale);
    let y = rust_decimal::Decimal::from_i128_with_scale(b.mantissa, b.scale);
    match x.checked_mul(y) {
        Some(d) => Some(Decimal { mantissa: d.mantissa(), scale: d.scale() }),
        None => None,
    }
}

/// `rust_decimal::Decimal::checked_div`: the quotient, or `None` on overflow or where the divisor is zero. The result is that
/// crate's, rounding included: it is named by its mantissa and scale, not restated.
#[verifier::external_body]
fn div_outside(a: Decimal, b: Decimal) -> (r: Option<Decimal>)
    requires
        representable(a.m(), a.e() as int),
        representable(b.m(), b.e() as int),
    ensures
        r matches Some(d) ==> decimal_quotient(a.m(), a.e() as int, b.m(), b.e() as int) == Some(
            (d.m(), d.e() as int),
        ),
        r is None ==> decimal_quotient(a.m(), a.e() as int, b.m(), b.e() as int) is None,
{
    let x = rust_decimal::Decimal::from_i128_with_scale(a.mantissa, a.scale);
    let y = rust_decimal::Decimal::from_i128_with_scale(b.mantissa, b.scale);
    match x.checked_div(y) {
        Some(d) => Some(Decimal { mantissa: d.mantissa(), scale: d.scale() }),
        None => None,
    }
}

} // verus!
