//! The numbers that prices, volumes and profits are counted in.

use vstd::prelude::*;

verus! {

/// A number that prices, volumes and profits are counted in.
///
/// The library compares, adds, multiplies and divides amounts, in the order its
/// specifications spell out. Of arithmetic it takes nothing for granted but what an
/// implementation has to prove of a few whole numbers: what the library says of a
/// result holds of floating-point numbers, which round and have values that compare
/// to nothing, as it holds of integers.
///
/// Each operation has a mathematical counterpart, in which contracts are written.
/// An implementation that is not verified gives the counterpart the operation's own
/// body, and leaves the bodies of the proofs empty.
pub trait Amount: Copy {
    /// The amount that stands for the whole number `n`.
    spec fn whole(n: i64) -> Self;

    /// Whether this is an ordinary number: not infinite, and not the result of
    /// an undefined operation.
    spec fn finite(self) -> bool;

    /// Whether this amount is strictly smaller than `other`.
    spec fn below(self, other: Self) -> bool;

    /// Whether this amount and `other` are equal as numbers.
    spec fn same(self, other: Self) -> bool;

    /// This amount plus `other`.
    spec fn sum(self, other: Self) -> Self;

    /// This amount times `other`.
    spec fn product(self, other: Self) -> Self;

    /// This amount divided by `other`.
    spec fn quotient(self, other: Self) -> Self;

    /// Zero is equal to itself.
    proof fn zero_is_itself()
        ensures
            Self::whole(0).same(Self::whole(0)),
    ;

    /// One is an ordinary number above zero.
    proof fn one_is_above_zero()
        ensures
            Self::whole(1).finite(),
            Self::whole(0).below(Self::whole(1)),
    ;

    /// What is above a whole number is above every whole number that is no greater.
    proof fn above_is_above_less(less: i64, more: i64, amount: Self)
        requires
            less <= more,
            Self::whole(more).below(amount),
        ensures
            Self::whole(less).below(amount),
    ;

    /// Computes [`Amount::whole`].
    fn from_int(n: i64) -> (r: Self)
        ensures
            r == Self::whole(n),
    ;

    /// Computes [`Amount::finite`].
    fn is_finite(self) -> (r: bool)
        ensures
            r == self.finite(),
    ;

    /// Computes [`Amount::below`].
    fn less_than(self, other: Self) -> (r: bool)
        ensures
            r == self.below(other),
    ;

    /// Computes [`Amount::same`].
    fn equals(self, other: Self) -> (r: bool)
        ensures
            r == self.same(other),
    ;

    /// Computes [`Amount::sum`].
    fn plus(self, other: Self) -> (r: Self)
        ensures
            r == self.sum(other),
    ;

    /// Computes [`Amount::product`].
    fn times(self, other: Self) -> (r: Self)
        ensures
            r == self.product(other),
    ;

    /// Computes [`Amount::quotient`], for a divisor that is not zero or less.
    fn divided_by(self, other: Self) -> (r: Self)
        requires
            !other.below(Self::whole(0)),
            !other.same(Self::whole(0)),
        ensures
            r == self.quotient(other),
    ;
}

/// Whether `a` is smaller than `b` or equal to it.
pub open spec fn at_most<A: Amount>(a: A, b: A) -> bool {
    a.below(b) || a.same(b)
}

/// Computes [`at_most`].
pub fn is_at_most<A: Amount>(a: A, b: A) -> (r: bool)
    ensures
        r == at_most(a, b),
{
    a.less_than(b) || a.equals(b)
}

/// The integer `n`, moved to the nearest limit of `i64` where it is beyond one.
pub open spec fn clamped(n: int) -> i64 {
    if n > i64::MAX {
        i64::MAX
    } else if n < i64::MIN {
        i64::MIN
    } else {
        n as i64
    }
}

/// Computes [`clamped`].
fn clamp_to_i64(n: i128) -> (r: i64)
    ensures
        r == clamped(n as int),
{
    if n > i64::MAX as i128 {
        i64::MAX
    } else if n < i64::MIN as i128 {
        i64::MIN
    } else {
        n as i64
    }
}

/// `a` divided by `b`, rounded towards zero.
pub open spec fn truncated_quotient(a: int, b: int) -> int {
    if a >= 0 {
        a / b
    } else {
        -((-a) / b)
    }
}

/// Whole units. Sums and products stay at the limits of `i64` instead of
/// leaving them, and quotients are rounded towards zero.
impl Amount for i64 {
    open spec fn whole(n: i64) -> i64 {
        n
    }

    open spec fn finite(self) -> bool {
        true
    }

    open spec fn below(self, other: i64) -> bool {
        self < other
    }

    open spec fn same(self, other: i64) -> bool {
        self == other
    }

    open spec fn sum(self, other: i64) -> i64 {
        clamped(self + other)
    }

    open spec fn product(self, other: i64) -> i64 {
        clamped(self * other)
    }

    open spec fn quotient(self, other: i64) -> i64 {
        truncated_quotient(self as int, other as int) as i64
    }

    proof fn zero_is_itself() {
    }

    proof fn one_is_above_zero() {
    }

    proof fn above_is_above_less(less: i64, more: i64, amount: i64) {
    }

    fn from_int(n: i64) -> (r: i64) {
        n
    }

    fn is_finite(self) -> (r: bool) {
        true
    }

    fn less_than(self, other: i64) -> (r: bool) {
        self < other
    }

    fn equals(self, other: i64) -> (r: bool) {
        self == other
    }

    fn plus(self, other: i64) -> (r: i64) {
        clamp_to_i64(self as i128 + other as i128)
    }

    fn times(self, other: i64) -> (r: i64) {
        assert(-0x4000_0000_0000_0000_0000_0000_0000_0000 <= self * other
            <= 0x4000_0000_0000_0000_0000_0000_0000_0000) by (nonlinear_arith)
            requires
                -0x8000_0000_0000_0000 <= self <= 0x7fff_ffff_ffff_ffff,
                -0x8000_0000_0000_0000 <= other <= 0x7fff_ffff_ffff_ffff,
        ;
        clamp_to_i64(self as i128 * other as i128)
    }

    fn divided_by(self, other: i64) -> (r: i64) {
        if self >= 0 {
            self / other
        } else {
            let size: i128 = -(self as i128);
            let r: i128 = size / (other as i128);
            assert(0 <= size as int / other as int <= size) by (nonlinear_arith)
                requires
                    size > 0,
                    other > 0,
            ;
            (-r) as i64
        }
    }
}

/// Whether the amounts that satisfy `domain` are totally ordered: none is smaller than
/// itself, of two at most one is smaller than the other, and what is not smaller than
/// an amount is not smaller than any that this amount is not smaller than either.
///
/// All of `i64` qualifies, and so do the floating-point numbers of either sign,
/// infinities included.
pub open spec fn totally_ordered<A: Amount>(domain: spec_fn(A) -> bool) -> bool {
    &&& forall|a: A| domain(a) ==> !(#[trigger] a.below(a))
    &&& forall|a: A, b: A| domain(a) && domain(b) && #[trigger] a.below(b) ==> !b.below(a)
    &&& forall|a: A, b: A, c: A|
        #![trigger b.below(a), c.below(b)]
        domain(a) && domain(b) && domain(c) && !b.below(a) && !c.below(b) ==> !c.below(a)
}

/// Whether adding the same amount to two amounts that satisfy `domain` never swaps
/// their order, where the two sums satisfy `domain` too.
///
/// All of `i64` qualifies, and so do the floating-point numbers of either sign,
/// infinities and rounding included.
pub open spec fn adding_keeps_order<A: Amount>(domain: spec_fn(A) -> bool) -> bool {
    forall|a: A, b: A, c: A|
        #![trigger a.sum(c), b.sum(c)]
        domain(a) && domain(b) && domain(a.sum(c)) && domain(b.sum(c)) && !b.below(a)
            ==> !b.sum(c).below(a.sum(c))
}

/// Whether adding zero or less to an amount that satisfies `domain` never gives more
/// than that amount, where the sum satisfies `domain` too.
///
/// All of `i64` qualifies, and so do the floating-point numbers of either sign,
/// infinities and rounding included.
pub open spec fn losses_gain_nothing<A: Amount>(domain: spec_fn(A) -> bool) -> bool {
    forall|a: A, loss: A|
        #![trigger a.sum(loss)]
        domain(a) && domain(a.sum(loss)) && !A::whole(0).below(loss) ==> !a.below(a.sum(loss))
}

/// Whole units are totally ordered, adding keeps their order, and adding a loss gains
/// nothing, whatever their values.
pub proof fn whole_units_can_be_ranked_and_added()
    ensures
        totally_ordered::<i64>(|a: i64| true),
        adding_keeps_order::<i64>(|a: i64| true),
        losses_gain_nothing::<i64>(|a: i64| true),
{
}

/// Whole units count as integers do: they compare as integers, and a sum or a product
/// within the limits of `i64` is exact, while one beyond a limit is that limit. A
/// quotient times the divisor misses the amount by less than the divisor, on the side of
/// zero.
pub proof fn whole_units_count_as_integers(a: i64, b: i64)
    ensures
        i64::whole(a) == a,
        a.finite(),
        a.below(b) <==> a < b,
        a.same(b) <==> a == b,
        i64::MIN <= a + b <= i64::MAX ==> a.sum(b) == a + b,
        a + b > i64::MAX ==> a.sum(b) == i64::MAX,
        a + b < i64::MIN ==> a.sum(b) == i64::MIN,
        i64::MIN <= a * b <= i64::MAX ==> a.product(b) == a * b,
        a * b > i64::MAX ==> a.product(b) == i64::MAX,
        a * b < i64::MIN ==> a.product(b) == i64::MIN,
        0 < b && 0 <= a ==> 0 <= a - a.quotient(b) * b < b,
        0 < b && a < 0 ==> -b < a - a.quotient(b) * b <= 0,
{
    if 0 < b {
        let size = if a >= 0 { a as int } else { -a };
        let q = size / b as int;
        assert(0 <= size - q * b < b && 0 <= q <= size) by (nonlinear_arith)
            requires
                0 < b,
                0 <= size,
                q == size / b as int,
        ;
        if a < 0 {
            assert((-q) * b == -(q * b)) by (nonlinear_arith);
        }
    }
}

/// Being at most another amount is being smaller or equal.
pub proof fn at_most_is_smaller_or_equal<A: Amount>(a: A, b: A, r: bool)
    requires
        call_ensures(is_at_most::<A>, (a, b), r),
    ensures
        a.below(b) ==> r,
        a.same(b) ==> r,
        r ==> a.below(b) || a.same(b),
{
}

} // verus!
