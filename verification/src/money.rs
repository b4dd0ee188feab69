use crate::amount::{
    divisible, larger, near, order_of, product_of, quotient_without_division, raised,
    same_decimal, truncated_rem, Amount,
};
use crate::currency::Currency;
use std::cmp::Ordering;
use std::ops::{Add, Div, Mul, Sub};
use vstd::prelude::*;

verus! {

/// An amount of money in one currency.
#[derive(Debug)]
pub struct Money {
    currency: Currency,
    amount: Amount,
}

/// Makes money of an amount, given in the type `T`, and a currency.
pub trait Factories<T>: Sized {
    /// The whole number and the scale of the amount that `amount` stands for.
    spec fn amount_of(amount: T) -> (int, int);

    /// The currency of the money, as contracts speak of it.
    spec fn currency_in(made: Self) -> Currency;

    /// The whole number and the scale of the amount of the money.
    spec fn amount_in(made: Self) -> (int, int);

    fn of(amount: T, currency: Currency) -> (made: Self)
        ensures
            Self::currency_in(made) == currency,
            Self::amount_in(made) == Self::amount_of(amount),
    ;
}

impl Factories<i64> for Money {
    open spec fn amount_of(amount: i64) -> (int, int) {
        (amount as int, 0int)
    }

    open spec fn currency_in(made: Self) -> Currency {
        made.spec_currency()
    }

    open spec fn amount_in(made: Self) -> (int, int) {
        made.spec_amount()
    }

    fn of(amount: i64, currency: Currency) -> (made: Self) {
        Money { amount: Amount::from_i64(amount), currency }
    }
}

impl Factories<Amount> for Money {
    open spec fn amount_of(amount: Amount) -> (int, int) {
        amount@
    }

    open spec fn currency_in(made: Self) -> Currency {
        made.spec_currency()
    }

    open spec fn amount_in(made: Self) -> (int, int) {
        made.spec_amount()
    }

    fn of(amount: Amount, currency: Currency) -> (made: Self) {
        Money { amount, currency }
    }
}

impl Clone for Money {
    fn clone(&self) -> (copy: Self)
        ensures
            copy.spec_currency() == self.spec_currency(),
            copy.spec_amount() == self.spec_amount(),
    {
        Money { currency: self.currency, amount: self.amount.clone() }
    }
}

/// Two sums of money are equal where they are in the same currency and
/// their amounts are the same number, however each is written.
impl PartialEq for Money {
    fn eq(&self, other: &Self) -> (equal: bool) {
        self.currency == other.currency && self.amount.is_same_as(&other.amount)
    }
}

impl vstd::std_specs::cmp::PartialEqSpecImpl for Money {
    open spec fn obeys_eq_spec() -> bool {
        true
    }

    open spec fn eq_spec(&self, other: &Self) -> bool {
        self.spec_currency() == other.spec_currency() && same_decimal(
            self.spec_amount(),
            other.spec_amount(),
        )
    }
}

impl Money {
    /// The currency.
    pub closed spec fn spec_currency(&self) -> Currency {
        self.currency
    }

    /// The whole number and the scale of the amount.
    pub closed spec fn spec_amount(&self) -> (int, int) {
        self.amount@
    }

    pub fn currency(&self) -> (currency: &Currency)
        ensures
            *currency == self.spec_currency(),
    {
        &self.currency
    }

    pub fn amount(&self) -> (amount: &Amount)
        ensures
            amount@ == self.spec_amount(),
    {
        &self.amount
    }

    /// One unit of the currency.
    pub fn one(currency: Currency) -> (money: Self)
        ensures
            money.spec_currency() == currency,
            money.spec_amount() == (1int, 0int),
    {
        <Self as Factories<Amount>>::of(Amount::one(), currency)
    }

    /// Nothing, in the currency.
    pub fn zero(currency: Currency) -> (money: Self)
        ensures
            money.spec_currency() == currency,
            money.spec_amount() == (0int, 0int),
    {
        <Self as Factories<Amount>>::of(Amount::zero(), currency)
    }

    /// The amount times -1, in the same currency: the whole number with the
    /// other sign at the same scale, or, where the amount is found to be 1,
    /// the whole number -1 at scale 0.
    pub fn negated(self) -> (money: Self)
        ensures
            money.spec_currency() == self.spec_currency(),
            money.spec_amount() == negation(self.spec_amount()),
    {
        let minus_one = Amount::from_i64(-1);
        proof {
            self.amount.lemma_scale_fits();
        }
        <Self as Factories<Amount>>::of(self.amount.product(&minus_one), self.currency)
    }

    /// The amount without its sign, in the same currency.
    pub fn abs(self) -> (money: Self)
        ensures
            money.spec_currency() == self.spec_currency(),
            money.spec_amount() == (
                if self.spec_amount().0 < 0 {
                    -self.spec_amount().0
                } else {
                    self.spec_amount().0
                },
                self.spec_amount().1,
            ),
    {
        <Self as Factories<Amount>>::of(self.amount.abs(), self.currency)
    }

    /// The remainder of the amount by `n`, in the same currency: both
    /// numbers are written at the larger of their scales, and the remainder
    /// has the sign of the amount. `n` must not be zero, and its scale must be
    /// near that of the amount.
    pub fn rem(self, n: Amount) -> (money: Self)
        requires
            n@.0 != 0,
            near(self.spec_amount().1, n@.1),
        ensures
            money.spec_currency() == self.spec_currency(),
            money.spec_amount().1 == larger(self.spec_amount().1, n@.1),
            money.spec_amount().0 == truncated_rem(
                raised(self.spec_amount().0, self.spec_amount().1, money.spec_amount().1),
                raised(n@.0, n@.1, money.spec_amount().1),
            ),
    {
        <Self as Factories<Amount>>::of(self.amount.remainder(&n), self.currency)
    }

    pub fn is_zero(&self) -> (zero: bool)
        ensures
            zero == (self.spec_amount().0 == 0),
    {
        self.amount.is_zero()
    }

    pub fn is_non_zero(&self) -> (non_zero: bool)
        ensures
            non_zero == (self.spec_amount().0 != 0),
    {
        !self.is_zero()
    }

    /// How the amount stands to that of `other`, which must be in the same
    /// currency: by the numbers, not by how they are written, except where
    /// the two scales are not near each other. The answer is never `None`.
    pub fn partial_cmp(&self, other: &Self) -> (order: Option<Ordering>)
        requires
            self.spec_currency() == other.spec_currency(),
        ensures
            order == Some(order_of(self.spec_amount(), other.spec_amount())),
    {
        Some(self.amount.compared_with(&other.amount))
    }
}

/// The whole number and the scale of a number times -1.
pub open spec fn negation(amount: (int, int)) -> (int, int) {
    product_of(amount, (-1int, 0int))
}

/// The whole number and the scale of the sum of two numbers: both are
/// written at the larger of their scales.
pub open spec fn sum_of(a: (int, int), b: (int, int)) -> (int, int) {
    let scale = larger(a.1, b.1);
    (raised(a.0, a.1, scale) + raised(b.0, b.1, scale), scale)
}

/// The sum of two sums of money, which must be in the same currency and have
/// scales near each other.
impl Add for Money {
    type Output = Self;

    fn add(self, rhs: Self) -> (money: Self)
        ensures
            money.spec_currency() == rhs.spec_currency(),
            money.spec_amount() == sum_of(self.spec_amount(), rhs.spec_amount()),
    {
        let result = self.amount.sum(&rhs.amount);
        <Self as Factories<Amount>>::of(result, rhs.currency)
    }
}

impl vstd::std_specs::ops::AddSpecImpl for Money {
    open spec fn obeys_add_spec() -> bool {
        false
    }

    open spec fn add_req(self, rhs: Self) -> bool {
        self.spec_currency() == rhs.spec_currency() && near(
            self.spec_amount().1,
            rhs.spec_amount().1,
        )
    }

    open spec fn add_spec(self, rhs: Self) -> Self {
        self
    }
}

/// The first sum of money less the second: the sum of the first and of the
/// second negated. They must be in the same currency, and the scale of the
/// first must be near the scale of the second and near 0.
impl Sub for Money {
    type Output = Self;

    fn sub(self, rhs: Self) -> (money: Self)
        ensures
            money.spec_currency() == rhs.spec_currency(),
            money.spec_amount() == sum_of(self.spec_amount(), negation(rhs.spec_amount())),
    {
        self + rhs.negated()
    }
}

impl vstd::std_specs::ops::SubSpecImpl for Money {
    open spec fn obeys_sub_spec() -> bool {
        false
    }

    open spec fn sub_req(self, rhs: Self) -> bool {
        &&& self.spec_currency() == rhs.spec_currency()
        &&& near(self.spec_amount().1, rhs.spec_amount().1)
        &&& near(self.spec_amount().1, 0)
    }

    open spec fn sub_spec(self, rhs: Self) -> Self {
        self
    }
}

/// The amount times `rhs`, in the same currency: the product of the whole
/// numbers at the sum of the scales, or, where one factor is found to be 1,
/// the other factor as it is written. The sum of the two scales must fit the
/// machine's signed word.
impl Mul<Amount> for Money {
    type Output = Self;

    fn mul(self, rhs: Amount) -> (money: Self)
        ensures
            money.spec_currency() == self.spec_currency(),
            money.spec_amount() == product_of(self.spec_amount(), rhs@),
    {
        <Self as Factories<Amount>>::of(self.amount.product(&rhs), self.currency)
    }
}

impl vstd::std_specs::ops::MulSpecImpl<Amount> for Money {
    open spec fn obeys_mul_spec() -> bool {
        false
    }

    open spec fn mul_req(self, rhs: Amount) -> bool {
        i64::MIN <= self.spec_amount().1 + rhs@.1 <= i64::MAX
    }

    open spec fn mul_spec(self, rhs: Amount) -> Self {
        self
    }
}

/// The amount divided by `rhs`, in the same currency. An amount of zero and
/// an `rhs` found to be 1 give the amount back as it is written, and an `rhs`
/// with the same whole number gives 1 at the difference of the scales. Every
/// other quotient is rounded as bigdecimal was built to round, and nothing
/// more is said of it. `rhs` must not be zero, and the scales and the length
/// of `rhs` must leave room for the working.
impl Div<Amount> for Money {
    type Output = Self;

    fn div(self, rhs: Amount) -> (money: Self)
        ensures
            money.spec_currency() == self.spec_currency(),
            quotient_without_division(self.spec_amount(), rhs@, money.spec_amount()),
    {
        <Self as Factories<Amount>>::of(self.amount.quotient(&rhs), self.currency)
    }
}

impl vstd::std_specs::ops::DivSpecImpl<Amount> for Money {
    open spec fn obeys_div_spec() -> bool {
        false
    }

    open spec fn div_req(self, rhs: Amount) -> bool {
        rhs@.0 != 0 && divisible(self.spec_amount().1, rhs@.1, rhs.spec_len())
    }

    open spec fn div_spec(self, rhs: Amount) -> Self {
        self
    }
}

} // verus!
