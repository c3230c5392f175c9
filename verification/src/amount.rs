//! Exact decimal amounts.
//!
//! An [`Amount`] is a signed 96-bit mantissa together with a scale between 0
//! and 28: the number `mantissa / 10^scale`. These are exactly the values of
//! `rust_decimal::Decimal`, and sums and differences are computed by that
//! crate. Nothing here is ever a binary floating point number.
use rust_decimal::Decimal;
use vstd::prelude::*;
use vstd::std_specs::convert::FromSpecImpl;

verus! {

/// The largest magnitude that a mantissa can have: `2^96 - 1`.
pub const MAX_MANTISSA: i128 = 0x0000_0000_FFFF_FFFF_FFFF_FFFF_FFFF_FFFF;

/// The largest scale, the number of digits behind the decimal point.
pub const MAX_SCALE: u32 = 28;

/// Whether `mantissa` and `scale` are the parts of a decimal number that an
/// [`Amount`] can hold.
pub open spec fn representable(mantissa: int, scale: nat) -> bool {
    -MAX_MANTISSA <= mantissa <= MAX_MANTISSA && scale <= MAX_SCALE
}

/// What `Decimal::checked_add` returns for the decimals with the given
/// mantissas and scales: the mantissa and scale of the sum, or `None` where
/// the crate reports an overflow.
pub uninterp spec fn decimal_sum(
    mantissa: int,
    scale: nat,
    other_mantissa: int,
    other_scale: nat,
) -> Option<(int, nat)>;

/// What `Decimal::checked_sub` returns for the decimals with the given
/// mantissas and scales: the mantissa and scale of the difference, or `None`
/// where the crate reports an overflow.
pub uninterp spec fn decimal_difference(
    mantissa: int,
    scale: nat,
    other_mantissa: int,
    other_scale: nat,
) -> Option<(int, nat)>;

/// An exact decimal quantity of money.
///
/// Two amounts are equal when their mantissas and their scales are: `1.0` and
/// `1.00` are one quantity written as two different amounts.
#[derive(Clone, Copy, Debug, PartialEq, Eq, Structural)]
pub struct Amount {
    mantissa: i128,
    scale: u32,
}

impl View for Amount {
    type V = (int, nat);

    /// The mantissa and the scale.
    closed spec fn view(&self) -> (int, nat) {
        (self.mantissa as int, self.scale as nat)
    }
}

/// The parts of an optional amount.
pub open spec fn parts(amount: Option<Amount>) -> Option<(int, nat)> {
    match amount {
        Some(a) => Some(a@),
        None => None,
    }
}

impl Amount {
    #[verifier::type_invariant]
    spec fn well_formed(self) -> bool {
        representable(self.mantissa as int, self.scale as nat)
    }

    /// The sum of two amounts as `rust_decimal` computes it, `None` where it
    /// overflows.
    pub closed spec fn spec_checked_add(self, other: Amount) -> Option<Amount> {
        match decimal_sum(self@.0, self@.1, other@.0, other@.1) {
            Some((m, s)) => Some(Amount { mantissa: m as i128, scale: s as u32 }),
            None => None,
        }
    }

    /// The difference of two amounts as `rust_decimal` computes it, `None`
    /// where it overflows.
    pub closed spec fn spec_checked_sub(self, other: Amount) -> Option<Amount> {
        match decimal_difference(self@.0, self@.1, other@.0, other@.1) {
            Some((m, s)) => Some(Amount { mantissa: m as i128, scale: s as u32 }),
            None => None,
        }
    }

    /// The whole number `n` as an amount, with scale 0.
    pub closed spec fn whole(n: i64) -> Amount {
        Amount { mantissa: n as i128, scale: 0 }
    }

    /// Whether the amount is below zero.
    pub open spec fn spec_is_negative(self) -> bool {
        self@.0 < 0
    }

    /// The amount `mantissa / 10^scale`, or `None` where the mantissa needs
    /// more than 96 bits or the scale is above 28.
    pub fn new(mantissa: i128, scale: u32) -> (r: Option<Amount>)
        ensures
            parts(r) == (if representable(mantissa as int, scale as nat) {
                Some((mantissa as int, scale as nat))
            } else {
                None
            }),
    {
        if -MAX_MANTISSA <= mantissa && mantissa <= MAX_MANTISSA && scale <= MAX_SCALE {
            Some(Amount { mantissa, scale })
        } else {
            None
        }
    }

    /// The amount zero, with scale 0.
    pub fn zero() -> (r: Amount)
        ensures
            r == Amount::whole(0),
            r@ == (0int, 0nat),
    {
        Amount { mantissa: 0, scale: 0 }
    }

    /// The mantissa: the amount's digits as a whole number.
    pub fn mantissa(&self) -> (r: i128)
        ensures
            r == self@.0,
            representable(self@.0, self@.1),
    {
        proof {
            use_type_invariant(self);
        }
        self.mantissa
    }

    /// The scale: how many of the mantissa's digits stand behind the point.
    pub fn scale(&self) -> (r: u32)
        ensures
            r == self@.1,
            representable(self@.0, self@.1),
    {
        proof {
            use_type_invariant(self);
        }
        self.scale
    }

    /// Whether the amount is below zero.
    pub fn is_negative(&self) -> (r: bool)
        ensures
            r == self.spec_is_negative(),
    {
        self.mantissa < 0
    }

    /// The sum of two amounts, or `None` where `rust_decimal` reports an
    /// overflow.
    pub fn checked_add(self, other: Amount) -> (r: Option<Amount>)
        ensures
            r == self.spec_checked_add(other),
            parts(r) == decimal_sum(self@.0, self@.1, other@.0, other@.1),
    {
        proof {
            use_type_invariant(self);
            use_type_invariant(other);
        }
        match decimal_checked_add(self.mantissa, self.scale, other.mantissa, other.scale) {
            Some((mantissa, scale)) => Some(Amount { mantissa, scale }),
            None => None,
        }
    }

    /// The difference of two amounts, or `None` where `rust_decimal` reports
    /// an overflow.
    pub fn checked_sub(self, other: Amount) -> (r: Option<Amount>)
        ensures
            r == self.spec_checked_sub(other),
            parts(r) == decimal_difference(self@.0, self@.1, other@.0, other@.1),
    {
        proof {
            use_type_invariant(self);
            use_type_invariant(other);
        }
        match decimal_checked_sub(self.mantissa, self.scale, other.mantissa, other.scale) {
            Some((mantissa, scale)) => Some(Amount { mantissa, scale }),
            None => None,
        }
    }
}

impl From<i64> for Amount {
    /// The whole number `n` as an amount, with scale 0.
    fn from(n: i64) -> (r: Amount) {
        Amount { mantissa: n as i128, scale: 0 }
    }
}

impl FromSpecImpl<i64> for Amount {
    open spec fn obeys_from_spec() -> bool {
        true
    }

    open spec fn from_spec(n: i64) -> Amount {
        Amount::whole(n)
    }
}

/// A whole number as an amount has the number as its mantissa and scale 0.
pub proof fn lemma_whole_number_parts(n: i64)
    ensures
        Amount::whole(n)@ == (n as int, 0nat),
{
}

/// Calls `rust_decimal::Decimal::checked_add` on the decimals built by
/// `Decimal::from_i128_with_scale` and hands back the mantissa and scale of
/// what it returns.
///
/// Trusted: the result is the one named by [`decimal_sum`], and a decimal that
/// the crate returns has a mantissa of at most 96 bits and a scale of at most
/// 28. The arguments must be representable, since the constructor panics on
/// others.
#[verifier::external_body]
fn decimal_checked_add(mantissa: i128, scale: u32, other_mantissa: i128, other_scale: u32) -> (r:
    Option<(i128, u32)>)
    requires
        representable(mantissa as int, scale as nat),
        representable(other_mantissa as int, other_scale as nat),
    ensures
        decimal_sum(mantissa as int, scale as nat, other_mantissa as int, other_scale as nat) == (
        match r {
            Some((m, s)) => Some((m as int, s as nat)),
            None => None,
        }),
        r matches Some((m, s)) ==> representable(m as int, s as nat),
{
    let a = Decimal::from_i128_with_scale(mantissa, scale);
    let b = Decimal::from_i128_with_scale(other_mantissa, other_scale);
    match a.checked_add(b) {
        Some(c) => Some((c.mantissa(), c.scale())),
        None => None,
    }
}

/// Calls `rust_decimal::Decimal::checked_sub` on the decimals built by
/// `Decimal::from_i128_with_scale` and hands back the mantissa and scale of
/// what it returns.
///
/// Trusted: the result is the one named by [`decimal_difference`], and a
/// decimal that the crate returns has a mantissa of at most 96 bits and a
/// scale of at most 28. The arguments must be representable, since the
/// constructor panics on others.
#[verifier::external_body]
fn decimal_checked_sub(mantissa: i128, scale: u32, other_mantissa: i128, other_scale: u32) -> (r:
    Option<(i128, u32)>)
    requires
        representable(mantissa as int, scale as nat),
        representable(other_mantissa as int, other_scale as nat),
    ensures
        decimal_difference(mantissa as int, scale as nat, other_mantissa as int, other_scale as nat)
            == (match r {
            Some((m, s)) => Some((m as int, s as nat)),
            None => None,
        }),
        r matches Some((m, s)) ==> representable(m as int, s as nat),
{
    let a = Decimal::from_i128_with_scale(mantissa, scale);
    let b = Decimal::from_i128_with_scale(other_mantissa, other_scale);
    match a.checked_sub(b) {
        Some(c) => Some((c.mantissa(), c.scale())),
        None => None,
    }
}

} // verus!
