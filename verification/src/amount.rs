use bigdecimal::num_bigint::BigInt;
use bigdecimal::{BigDecimal, One, Zero};
use std::cmp::Ordering;
use vstd::prelude::*;

verus! {

/// The whole number that `bytes` write in two's complement, least significant
/// byte first. No bytes write zero.
pub open spec fn signed_le(bytes: Seq<u8>) -> int
    decreases bytes.len(),
{
    if bytes.len() == 0 {
        0
    } else if bytes.len() == 1 {
        if bytes[0] < 128 {
            bytes[0] as int
        } else {
            bytes[0] - 256
        }
    } else {
        bytes[0] + 256 * signed_le(bytes.drop_first())
    }
}

/// A decimal number of any size: a whole number, kept as its bytes in two's
/// complement with the least significant byte first, and a scale. The number
/// is the whole number divided by ten to the power of the scale.
#[derive(Debug)]
pub struct Amount {
    unscaled: Vec<u8>,
    scale: i64,
}

/// An amount is seen as its whole number and its scale.
impl View for Amount {
    type V = (int, int);

    closed spec fn view(&self) -> (int, int) {
        (signed_le(self.unscaled@), self.scale as int)
    }
}

impl Clone for Amount {
    fn clone(&self) -> (copy: Self)
        ensures
            copy@ == self@,
    {
        let mut unscaled: Vec<u8> = Vec::new();
        unscaled.extend_from_slice(self.unscaled.as_slice());
        assert(unscaled@ =~= self.unscaled@);
        Amount { unscaled, scale: self.scale }
    }
}

/// Ten to the power of `n`.
pub open spec fn pow10(n: nat) -> int
    decreases n,
{
    if n == 0 {
        1
    } else {
        10 * pow10((n - 1) as nat)
    }
}

/// The larger of two scales.
pub open spec fn larger(a_scale: int, b_scale: int) -> int {
    if a_scale >= b_scale {
        a_scale
    } else {
        b_scale
    }
}

/// The whole number that writes, at the scale `to`, the number that
/// `unscaled` writes at the scale `scale`, which is not larger than `to`.
pub open spec fn raised(unscaled: int, scale: int, to: int) -> int
    recommends
        scale <= to,
{
    unscaled * pow10((to - scale) as nat)
}

/// The first number less the second, both written at the larger of their
/// two scales: negative, zero or positive as the first number is less than,
/// equal to or greater than the second.
pub open spec fn difference(a_unscaled: int, a_scale: int, b_unscaled: int, b_scale: int) -> int {
    let scale = larger(a_scale, b_scale);
    raised(a_unscaled, a_scale, scale) - raised(b_unscaled, b_scale, scale)
}

/// The remainder of `a` by `b` that has the sign of `a`, as the machine's
/// `%` gives it.
pub open spec fn truncated_rem(a: int, b: int) -> int
    recommends
        b != 0,
{
    let divisor = if b < 0 {
        -b
    } else {
        b
    };
    if a >= 0 {
        a % divisor
    } else {
        -((-a) % divisor)
    }
}

/// Whether bigdecimal finds, without further work, that the number with
/// this whole number and this scale is 1: it is 1, written with at most 38
/// digits after the point.
pub open spec fn found_one(unscaled: int, scale: int) -> bool {
    0 <= scale <= 38 && unscaled == pow10(scale as nat)
}

/// The whole number and the scale of the product of two decimal numbers:
/// where one factor is found to be 1, the other factor as it is written, the
/// first factor being looked at first; else the product of the whole numbers
/// at the sum of the scales.
pub open spec fn product_of(a: (int, int), b: (int, int)) -> (int, int) {
    if found_one(a.0, a.1) {
        b
    } else if found_one(b.0, b.1) {
        a
    } else {
        (a.0 * b.0, a.1 + b.1)
    }
}

/// -1, 0 or 1 as the whole number is negative, zero or positive.
pub open spec fn sign_of(unscaled: int) -> int {
    if unscaled < 0 {
        -1
    } else if unscaled == 0 {
        0
    } else {
        1
    }
}

/// Whether two decimal numbers count as the same number: both are zero, or
/// their scales are near each other and, written at the larger scale, they
/// have the same whole number. Two numbers whose scales are not near each
/// other count as different unless both are zero.
pub open spec fn same_decimal(a: (int, int), b: (int, int)) -> bool {
    (a.0 == 0 && b.0 == 0) || (near(a.1, b.1) && difference(a.0, a.1, b.0, b.1) == 0)
}

/// How the first decimal number stands to the second: by their signs where
/// these differ; else, where the scales are near each other, by the whole
/// numbers written at the larger scale; else by the scales alone, the larger
/// scale making the number nearer to zero.
pub open spec fn order_of(a: (int, int), b: (int, int)) -> Ordering {
    if sign_of(a.0) != sign_of(b.0) {
        if sign_of(a.0) < sign_of(b.0) {
            Ordering::Less
        } else {
            Ordering::Greater
        }
    } else if a.0 == 0 {
        Ordering::Equal
    } else if near(a.1, b.1) {
        if difference(a.0, a.1, b.0, b.1) < 0 {
            Ordering::Less
        } else if difference(a.0, a.1, b.0, b.1) == 0 {
            Ordering::Equal
        } else {
            Ordering::Greater
        }
    } else if (a.1 > b.1) == (a.0 > 0) {
        Ordering::Less
    } else {
        Ordering::Greater
    }
}

/// The longest whole number, in bytes, that bigdecimal is asked to compare
/// with a number at another scale. Across scales bigdecimal first sizes up
/// the two numbers from their lengths in bits, with arithmetic that is
/// rounded; up to this length the rounding never changes the answer.
pub const LONGEST_COMPARED: usize = 67_108_864;

/// Whether two whole numbers, written in `a_len` and `b_len` bytes, are both
/// short enough to be compared across scales.
pub open spec fn short_enough(a_len: int, b_len: int) -> bool {
    a_len <= LONGEST_COMPARED && b_len <= LONGEST_COMPARED
}

/// Whether two numbers are compared without one being weighed against the
/// other across scales: their signs differ, or both are zero, or their
/// scales are the same, or their scales are not near each other.
pub open spec fn compared_at_once(a: (int, int), b: (int, int)) -> bool {
    ||| sign_of(a.0) != sign_of(b.0)
    ||| a.0 == 0
    ||| a.1 == b.1
    ||| !near(a.1, b.1)
}

/// Whether bigdecimal's `==` can be asked of two numbers written in `a_len`
/// and `b_len` bytes: they are compared at once, or they are short enough
/// and their scales differ by 20 or more and by no more than a machine word
/// holds. On scales that differ by 1 to 19 it multiplies word by word and
/// adds a carry without a check.
pub open spec fn settled_plainly(a: (int, int), b: (int, int), a_len: int, b_len: int) -> bool {
    let gap = if a.1 >= b.1 {
        a.1 - b.1
    } else {
        b.1 - a.1
    };
    compared_at_once(a, b) || (20 <= gap <= usize::MAX && short_enough(a_len, b_len))
}

/// Whether bigdecimal's ordering can be asked of two numbers written in
/// `a_len` and `b_len` bytes: they are compared at once, or they are short
/// enough.
pub open spec fn ordered_plainly(a: (int, int), b: (int, int), a_len: int, b_len: int) -> bool {
    compared_at_once(a, b) || short_enough(a_len, b_len)
}

/// The whole number and the scale of the quotient of two decimal numbers, in
/// the three cases in which bigdecimal does not divide: a dividend of zero
/// and a divisor found to be 1 give the dividend back as it is written, and
/// two numbers with the same whole number give 1 at the difference of their
/// scales.
pub open spec fn quotient_without_division(a: (int, int), b: (int, int), q: (int, int)) -> bool {
    if a.0 == 0 || found_one(b.0, b.1) {
        q == a
    } else {
        a.0 == b.0 ==> q == (1int, a.1 - b.1)
    }
}

/// Ten to any power is positive.
pub proof fn lemma_pow10_positive(n: nat)
    ensures
        pow10(n) > 0,
    decreases n,
{
    if n > 0 {
        lemma_pow10_positive((n - 1) as nat);
    }
}

/// A number written at a larger scale keeps its sign, and written at its own
/// scale keeps its whole number.
pub proof fn lemma_raised_keeps_sign(unscaled: int, scale: int, to: int)
    requires
        scale <= to,
    ensures
        sign_of(raised(unscaled, scale, to)) == sign_of(unscaled),
        raised(unscaled, to, to) == unscaled,
{
    let power = pow10((to - scale) as nat);
    lemma_pow10_positive((to - scale) as nat);
    assert(unscaled > 0 ==> unscaled * power > 0) by (nonlinear_arith)
        requires
            power > 0,
    ;
    assert(unscaled < 0 ==> unscaled * power < 0) by (nonlinear_arith)
        requires
            power > 0,
    ;
    assert(pow10(0) == 1);
}

/// Whether a quotient can be worked out of a number at the scale `a_scale`
/// and a divisor at the scale `b_scale` that is written in `b_len` bytes.
/// The working starts at the difference of the scales and raises it by one
/// for each digit that it brings in: at most three for each byte of the
/// divisor, and then at most 4294967295 more, the largest precision that
/// bigdecimal can be built with. All of these must fit the machine's signed
/// word.
pub open spec fn divisible(a_scale: int, b_scale: int, b_len: int) -> bool {
    i64::MIN <= a_scale - b_scale && a_scale - b_scale + 3 * b_len + 4294967296 <= i64::MAX
}

/// The whole number that bytes write is negative exactly where there is a
/// last byte and its highest bit is set.
pub proof fn lemma_sign_in_last_byte(bytes: Seq<u8>)
    ensures
        bytes.len() == 0 ==> signed_le(bytes) == 0,
        bytes.len() > 0 ==> (bytes.last() >= 128 <==> signed_le(bytes) < 0),
    decreases bytes.len(),
{
    if bytes.len() >= 2 {
        let rest = bytes.drop_first();
        lemma_sign_in_last_byte(rest);
        assert(rest.last() == bytes.last());
    }
}

/// Whether two scales are close enough for one number to be brought to the
/// scale of the other: their difference fits the machine's signed word.
pub open spec fn near(a_scale: int, b_scale: int) -> bool {
    -(i64::MAX as int) <= a_scale - b_scale <= i64::MAX as int
}

impl Amount {
    /// The bytes of the whole number.
    pub closed spec fn spec_bytes(&self) -> Seq<u8> {
        self.unscaled@
    }

    /// The number of bytes in which the whole number is written.
    pub closed spec fn spec_len(&self) -> int {
        self.unscaled@.len() as int
    }

    /// The scale of an amount fits the machine's signed word.
    pub proof fn lemma_scale_fits(&self)
        ensures
            i64::MIN <= self@.1 <= i64::MAX,
    {
    }

    /// The amount with the whole number that `unscaled` writes in two's
    /// complement, least significant byte first, and with the given scale.
    pub fn new(unscaled: Vec<u8>, scale: i64) -> (amount: Self)
        ensures
            amount@ == (signed_le(unscaled@), scale as int),
            amount.spec_bytes() == unscaled@,
            amount.spec_len() == unscaled@.len(),
    {
        Self { unscaled, scale }
    }

    /// The bytes of the whole number, in two's complement, least significant
    /// byte first.
    pub fn unscaled(&self) -> (bytes: &[u8])
        ensures
            bytes@ == self.spec_bytes(),
            bytes@.len() == self.spec_len(),
            signed_le(bytes@) == self@.0,
    {
        self.unscaled.as_slice()
    }

    pub fn scale(&self) -> (scale: i64)
        ensures
            scale == self@.1,
    {
        self.scale
    }

    // The functions marked `external_body` are believed, not proved: each
    // hands its amounts to bigdecimal and takes the result back. An amount
    // becomes a `BigDecimal` by `BigDecimal::new` of
    // `BigInt::from_signed_bytes_le` of its bytes, and a `BigDecimal` becomes
    // an amount by `into_bigint_and_scale` and `BigInt::to_signed_bytes_le`;
    // every contract rests on these four as it rests on the operation that it
    // names.

    /// `BigDecimal::zero` of bigdecimal: the whole number 0 with scale 0.
    #[verifier::external_body]
    pub(crate) fn zero() -> (amount: Self)
        ensures
            amount@ == (0int, 0int),
    {
        let (unscaled, scale) = BigDecimal::zero().into_bigint_and_scale();
        Amount { unscaled: unscaled.to_signed_bytes_le(), scale }
    }

    /// `BigDecimal::one` of bigdecimal: the whole number 1 with scale 0.
    #[verifier::external_body]
    pub(crate) fn one() -> (amount: Self)
        ensures
            amount@ == (1int, 0int),
    {
        let (unscaled, scale) = BigDecimal::one().into_bigint_and_scale();
        Amount { unscaled: unscaled.to_signed_bytes_le(), scale }
    }

    /// `BigDecimal::from` of bigdecimal, for an `i64`: the whole number `n`
    /// with scale 0.
    #[verifier::external_body]
    pub(crate) fn from_i64(n: i64) -> (amount: Self)
        ensures
            amount@ == (n as int, 0int),
    {
        let (unscaled, scale) = BigDecimal::from(n).into_bigint_and_scale();
        Amount { unscaled: unscaled.to_signed_bytes_le(), scale }
    }

    /// `Zero::is_zero` of bigdecimal: whether the whole number is 0, whatever
    /// the scale.
    #[verifier::external_body]
    pub(crate) fn is_zero(&self) -> (zero: bool)
        ensures
            zero == (self@.0 == 0),
    {
        BigDecimal::new(BigInt::from_signed_bytes_le(&self.unscaled), self.scale).is_zero()
    }

    /// `BigDecimal::abs` of bigdecimal: the whole number without its sign,
    /// with the same scale.
    #[verifier::external_body]
    pub(crate) fn abs(&self) -> (amount: Self)
        ensures
            amount@ == (if self@.0 < 0 { -self@.0 } else { self@.0 }, self@.1),
    {
        let this = BigDecimal::new(BigInt::from_signed_bytes_le(&self.unscaled), self.scale);
        let (unscaled, scale) = this.abs().into_bigint_and_scale();
        Amount { unscaled: unscaled.to_signed_bytes_le(), scale }
    }

    /// `+` of bigdecimal on two `BigDecimal`s: both numbers are brought to
    /// the larger of their scales, which the sum keeps, and their whole
    /// numbers are added. The scales must be near each other; the work and the
    /// memory that this takes grow with their difference.
    #[verifier::external_body]
    pub(crate) fn sum(&self, other: &Amount) -> (amount: Self)
        requires
            near(self@.1, other@.1),
        ensures
            amount@.1 == larger(self@.1, other@.1),
            amount@.0 == raised(self@.0, self@.1, amount@.1) + raised(
                other@.0,
                other@.1,
                amount@.1,
            ),
    {
        let this = BigDecimal::new(BigInt::from_signed_bytes_le(&self.unscaled), self.scale);
        let that = BigDecimal::new(BigInt::from_signed_bytes_le(&other.unscaled), other.scale);
        let (unscaled, scale) = (this + that).into_bigint_and_scale();
        Amount { unscaled: unscaled.to_signed_bytes_le(), scale }
    }

    /// `*` of bigdecimal on two `BigDecimal`s: where the first factor is
    /// found to be 1 the second is returned as it is written, and where the
    /// second is found to be 1 the first; else the whole numbers are
    /// multiplied and the scales added. The sum of the scales must fit the
    /// machine's signed word.
    #[verifier::external_body]
    pub(crate) fn product(&self, other: &Amount) -> (amount: Self)
        requires
            i64::MIN <= self@.1 + other@.1 <= i64::MAX,
        ensures
            amount@ == product_of(self@, other@),
    {
        let this = BigDecimal::new(BigInt::from_signed_bytes_le(&self.unscaled), self.scale);
        let that = BigDecimal::new(BigInt::from_signed_bytes_le(&other.unscaled), other.scale);
        let (unscaled, scale) = (this * that).into_bigint_and_scale();
        Amount { unscaled: unscaled.to_signed_bytes_le(), scale }
    }

    /// `%` of bigdecimal on two `BigDecimal`s: both numbers are brought to
    /// the larger of their scales, which the remainder keeps, and the
    /// remainder of their whole numbers is taken, with the sign of the first.
    /// The divisor must not be zero, and the scales must be near each other,
    /// as for a sum.
    #[verifier::external_body]
    pub(crate) fn remainder(&self, other: &Amount) -> (amount: Self)
        requires
            other@.0 != 0,
            near(self@.1, other@.1),
        ensures
            amount@.1 == larger(self@.1, other@.1),
            amount@.0 == truncated_rem(
                raised(self@.0, self@.1, amount@.1),
                raised(other@.0, other@.1, amount@.1),
            ),
    {
        let this = BigDecimal::new(BigInt::from_signed_bytes_le(&self.unscaled), self.scale);
        let that = BigDecimal::new(BigInt::from_signed_bytes_le(&other.unscaled), other.scale);
        let (unscaled, scale) = (this % that).into_bigint_and_scale();
        Amount { unscaled: unscaled.to_signed_bytes_le(), scale }
    }

    /// `/` of bigdecimal on two `BigDecimal`s. A dividend of zero and a
    /// divisor found to be 1 give the dividend back, and two numbers with the
    /// same whole number give 1 at the difference of their scales. Of every
    /// other quotient nothing is said: it is rounded to a number of digits
    /// that is fixed when bigdecimal is built. The divisor must not be zero,
    /// and the scales and the length of the divisor must leave room for the
    /// working.
    #[verifier::external_body]
    pub(crate) fn quotient(&self, other: &Amount) -> (amount: Self)
        requires
            other@.0 != 0,
            divisible(self@.1, other@.1, other.spec_len()),
        ensures
            quotient_without_division(self@, other@, amount@),
    {
        let this = BigDecimal::new(BigInt::from_signed_bytes_le(&self.unscaled), self.scale);
        let that = BigDecimal::new(BigInt::from_signed_bytes_le(&other.unscaled), other.scale);
        let (unscaled, scale) = (this / that).into_bigint_and_scale();
        Amount { unscaled: unscaled.to_signed_bytes_le(), scale }
    }

    /// `==` of bigdecimal on two `BigDecimal`s, which compares the numbers
    /// and not how they are written. It is asked only of two numbers that it
    /// settles plainly. On two numbers of the same sign whose scales differ
    /// by 1 to 19 it multiplies word by word and adds a carry without a
    /// check, which can overflow; across scales it first sizes up the two
    /// numbers from their lengths in bits with rounded arithmetic, which can
    /// tell two equal numbers apart once they are longer than
    /// `LONGEST_COMPARED` bytes.
    #[verifier::external_body]
    fn same_number(&self, other: &Amount) -> (same: bool)
        requires
            settled_plainly(
                self@,
                other@,
                self.spec_len(),
                other.spec_len(),
            ),
        ensures
            same == same_decimal(self@, other@),
    {
        let this = BigDecimal::new(BigInt::from_signed_bytes_le(&self.unscaled), self.scale);
        let that = BigDecimal::new(BigInt::from_signed_bytes_le(&other.unscaled), other.scale);
        this == that
    }

    /// `Ord::cmp` of bigdecimal on two `BigDecimal`s, which orders the
    /// numbers and not how they are written, except where their scales are
    /// not near each other: there it goes by the scales alone. It is asked
    /// only of two numbers that it orders plainly: across scales it first
    /// sizes up the two numbers from their lengths in bits with rounded
    /// arithmetic, which can misplace two numbers once they are longer than
    /// `LONGEST_COMPARED` bytes.
    #[verifier::external_body]
    fn order(&self, other: &Amount) -> (order: Ordering)
        requires
            ordered_plainly(
                self@,
                other@,
                self.spec_len(),
                other.spec_len(),
            ),
        ensures
            order == order_of(self@, other@),
    {
        let this = BigDecimal::new(BigInt::from_signed_bytes_le(&self.unscaled), self.scale);
        let that = BigDecimal::new(BigInt::from_signed_bytes_le(&other.unscaled), other.scale);
        this.cmp(&that)
    }

    /// Whether the whole number is negative.
    pub fn is_negative(&self) -> (negative: bool)
        ensures
            negative == (self@.0 < 0),
    {
        proof {
            lemma_sign_in_last_byte(self.unscaled@);
        }
        let len = self.unscaled.len();
        len > 0 && self.unscaled[len - 1] >= 128
    }

    /// Whether this number and `other` are compared without one being
    /// weighed against the other across scales.
    fn is_compared_at_once(&self, other: &Amount) -> (at_once: bool)
        ensures
            at_once == compared_at_once(self@, other@),
    {
        let zero = self.is_zero();
        if zero || other.is_zero() || self.is_negative() != other.is_negative() {
            true
        } else {
            let apart: i128 = self.scale as i128 - other.scale as i128;
            apart == 0 || apart > i64::MAX as i128 || apart < -(i64::MAX as i128)
        }
    }

    /// Whether this number and `other` are both short enough to be compared
    /// across scales.
    fn is_short_enough(&self, other: &Amount) -> (short: bool)
        ensures
            short == short_enough(
                self.spec_len(),
                other.spec_len(),
            ),
    {
        self.unscaled.len() <= LONGEST_COMPARED && other.unscaled.len() <= LONGEST_COMPARED
    }

    /// Whether the scales of this number and of `other` differ by 20 or more
    /// and by no more than a machine word holds.
    fn is_far_from(&self, other: &Amount) -> (far: bool)
        ensures
            far == ({
                let gap = if self@.1 >= other@.1 {
                    self@.1 - other@.1
                } else {
                    other@.1 - self@.1
                };
                20 <= gap <= usize::MAX
            }),
    {
        let gap: i128 = if self.scale >= other.scale {
            self.scale as i128 - other.scale as i128
        } else {
            other.scale as i128 - self.scale as i128
        };
        gap >= 20 && gap <= usize::MAX as i128
    }

    /// The same number written at the scale `to`, which is not smaller than
    /// its own and near it. bigdecimal does the writing, in a sum with zero
    /// at that scale; the work and the memory that this takes grow with the
    /// difference of the scales.
    fn raised_to(&self, to: i64) -> (amount: Self)
        requires
            self@.1 <= to,
            near(self@.1, to as int),
        ensures
            amount@ == (raised(self@.0, self@.1, to as int), to as int),
    {
        let zero = Amount::new(Vec::new(), to);
        self.sum(&zero)
    }

    /// Whether this number and `other` are the same number, however each is
    /// written. bigdecimal's `==` decides where it can be asked; else its
    /// ordering decides where the numbers are short enough; else both
    /// numbers are first written at the larger of their scales.
    pub(crate) fn is_same_as(&self, other: &Amount) -> (same: bool)
        ensures
            same == same_decimal(self@, other@),
    {
        if self.is_compared_at_once(other) {
            self.same_number(other)
        } else if self.is_short_enough(other) {
            if self.is_far_from(other) {
                self.same_number(other)
            } else {
                is_equal(self.order(other))
            }
        } else {
            let to = if self.scale >= other.scale {
                self.scale
            } else {
                other.scale
            };
            let this = self.raised_to(to);
            let that = other.raised_to(to);
            proof {
                lemma_raised_keeps_sign(this@.0, this@.1, this@.1);
                lemma_raised_keeps_sign(that@.0, that@.1, that@.1);
            }
            this.same_number(&that)
        }
    }

    /// How this number stands to `other`. bigdecimal's ordering decides
    /// where it can be asked; else both numbers are first written at the
    /// larger of their scales.
    pub(crate) fn compared_with(&self, other: &Amount) -> (order: Ordering)
        ensures
            order == order_of(self@, other@),
    {
        if self.is_compared_at_once(other) || self.is_short_enough(other) {
            self.order(other)
        } else {
            let to = if self.scale >= other.scale {
                self.scale
            } else {
                other.scale
            };
            let this = self.raised_to(to);
            let that = other.raised_to(to);
            proof {
                lemma_raised_keeps_sign(self@.0, self@.1, this@.1);
                lemma_raised_keeps_sign(other@.0, other@.1, that@.1);
                lemma_raised_keeps_sign(this@.0, this@.1, this@.1);
                lemma_raised_keeps_sign(that@.0, that@.1, that@.1);
            }
            this.order(&that)
        }
    }
}

fn is_equal(order: Ordering) -> (equal: bool)
    ensures
        equal == (order == Ordering::Equal),
{
    match order {
        Ordering::Equal => true,
        _ => false,
    }
}

} // verus!
