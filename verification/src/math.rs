//! Integer helpers used to size stack frames.

use vstd::prelude::*;

verus! {

/// Remainder of the division that truncates towards zero: the sign of the
/// result follows the dividend.
pub open spec fn rem_trunc(a: int, b: int) -> int {
    if a >= 0 {
        a % b
    } else {
        -((-a) % b)
    }
}

/// Quotient of the division that truncates towards zero.
pub open spec fn quot_trunc(a: int, b: int) -> int {
    if a >= 0 {
        a / b
    } else {
        -((-a) / b)
    }
}

/// `bytes` rounded up to the next multiple of `alignment` when the truncated
/// remainder is positive, and `bytes` itself otherwise.
pub open spec fn aligned(bytes: int, alignment: int) -> int {
    let rem = rem_trunc(bytes, alignment);
    if rem > 0 {
        bytes + alignment - rem
    } else {
        bytes
    }
}

/// Whether `m` is a multiple of `alignment`.
pub open spec fn is_multiple(m: int, alignment: int) -> bool {
    m % alignment == 0
}

/// A machine integer that byte counts can be expressed in.
pub trait Integer: Copy + Sized {
    /// The mathematical value of this integer.
    spec fn value(self) -> int;

    /// Whether `v` can be represented in this type.
    spec fn fits(v: int) -> bool;

    fn add(self, rhs: Self) -> (r: Self)
        requires
            Self::fits(self.value() + rhs.value()),
        ensures
            r.value() == self.value() + rhs.value(),
    ;

    fn sub(self, rhs: Self) -> (r: Self)
        requires
            Self::fits(self.value() - rhs.value()),
        ensures
            r.value() == self.value() - rhs.value(),
    ;

    fn div(self, rhs: Self) -> (r: Self)
        requires
            rhs.value() != 0,
            Self::fits(quot_trunc(self.value(), rhs.value())),
        ensures
            r.value() == quot_trunc(self.value(), rhs.value()),
    ;

    fn mod_floor(self, rhs: Self) -> (r: Self)
        requires
            rhs.value() != 0,
            Self::fits(quot_trunc(self.value(), rhs.value())),
        ensures
            r.value() == rem_trunc(self.value(), rhs.value()),
    ;

    fn mul(self, rhs: Self) -> (r: Self)
        requires
            Self::fits(self.value() * rhs.value()),
        ensures
            r.value() == self.value() * rhs.value(),
    ;

    fn eq(self, rhs: Self) -> (r: bool)
        ensures
            r == (self.value() == rhs.value()),
    ;

    fn greater(self, rhs: Self) -> (r: bool)
        ensures
            r == (self.value() > rhs.value()),
    ;

    fn zero() -> (r: Self)
        ensures
            r.value() == 0,
    ;

    fn one() -> (r: Self)
        ensures
            r.value() == 1,
    ;
}

/// Rounds `bytes` up to a multiple of `alignment`.
pub fn align_bytes<I: Integer>(bytes: I, alignment: I) -> (r: I)
    requires
        alignment.value() != 0,
        I::fits(quot_trunc(bytes.value(), alignment.value())),
        rem_trunc(bytes.value(), alignment.value()) > 0 ==> I::fits(
            bytes.value() + alignment.value(),
        ),
        I::fits(aligned(bytes.value(), alignment.value())),
    ensures
        r.value() == aligned(bytes.value(), alignment.value()),
{
    let rem = bytes.mod_floor(alignment);

    if rem.greater(I::zero()) {
        bytes.add(alignment).sub(rem)
    } else {
        bytes
    }
}

/// For a byte count that is not negative and a positive alignment, the
/// aligned value is the smallest multiple of the alignment that is not below
/// the byte count.
pub proof fn lemma_aligned_is_smallest_multiple(bytes: int, alignment: int)
    requires
        bytes >= 0,
        alignment > 0,
    ensures
        is_multiple(aligned(bytes, alignment), alignment),
        aligned(bytes, alignment) >= bytes,
        aligned(bytes, alignment) < bytes + alignment,
        forall|m: int|
            m >= bytes && #[trigger] is_multiple(m, alignment) ==> m >= aligned(bytes, alignment),
{
    let a = aligned(bytes, alignment);
    let rem = bytes % alignment;
    vstd::arithmetic::div_mod::lemma_fundamental_div_mod(bytes, alignment);
    vstd::arithmetic::div_mod::lemma_mod_bound(bytes, alignment);
    let q = bytes / alignment;
    if rem > 0 {
        assert(a == alignment * (q + 1)) by (nonlinear_arith)
            requires
                a == bytes + alignment - rem,
                bytes == alignment * q + rem,
        ;
        vstd::arithmetic::div_mod::lemma_mod_multiples_basic(q + 1, alignment);
        assert(a == (q + 1) * alignment) by (nonlinear_arith)
            requires
                a == alignment * (q + 1),
        ;
    } else {
        assert(a == bytes);
    }
    assert forall|m: int| m >= bytes && #[trigger] is_multiple(m, alignment) implies m >= a by {
        if m < a {
            // m lies strictly between two consecutive multiples of the alignment
            vstd::arithmetic::div_mod::lemma_fundamental_div_mod(m, alignment);
            let k = m / alignment;
            assert(m == alignment * k);
            assert(rem > 0);
            assert(a == alignment * (q + 1));
            assert(k <= q) by (nonlinear_arith)
                requires
                    alignment * k < alignment * (q + 1),
                    alignment > 0,
            ;
            assert(alignment * k <= alignment * q) by (nonlinear_arith)
                requires
                    k <= q,
                    alignment > 0,
            ;
            assert(m <= bytes - rem);
        }
    }
}

impl Integer for usize {
    open spec fn value(self) -> int {
        self as int
    }

    open spec fn fits(v: int) -> bool {
        0 <= v <= usize::MAX
    }

    fn add(self, rhs: Self) -> (r: Self) {
        self + rhs
    }

    fn sub(self, rhs: Self) -> (r: Self) {
        self - rhs
    }

    fn div(self, rhs: Self) -> (r: Self) {
        self / rhs
    }

    fn mod_floor(self, rhs: Self) -> (r: Self) {
        self % rhs
    }

    fn mul(self, rhs: Self) -> (r: Self) {
        self * rhs
    }

    fn eq(self, rhs: Self) -> (r: bool) {
        self == rhs
    }

    fn greater(self, rhs: Self) -> (r: bool) {
        self > rhs
    }

    fn zero() -> (r: Self) {
        0
    }

    fn one() -> (r: Self) {
        1
    }
}

impl Integer for u128 {
    open spec fn value(self) -> int {
        self as int
    }

    open spec fn fits(v: int) -> bool {
        0 <= v <= u128::MAX
    }

    fn add(self, rhs: Self) -> (r: Self) {
        self + rhs
    }

    fn sub(self, rhs: Self) -> (r: Self) {
        self - rhs
    }

    fn div(self, rhs: Self) -> (r: Self) {
        self / rhs
    }

    fn mod_floor(self, rhs: Self) -> (r: Self) {
        self % rhs
    }

    fn mul(self, rhs: Self) -> (r: Self) {
        self * rhs
    }

    fn eq(self, rhs: Self) -> (r: bool) {
        self == rhs
    }

    fn greater(self, rhs: Self) -> (r: bool) {
        self > rhs
    }

    fn zero() -> (r: Self) {
        0
    }

    fn one() -> (r: Self) {
        1
    }
}

impl Integer for i32 {
    open spec fn value(self) -> int {
        self as int
    }

    open spec fn fits(v: int) -> bool {
        i32::MIN <= v <= i32::MAX
    }

    fn add(self, rhs: Self) -> (r: Self) {
        self + rhs
    }

    fn sub(self, rhs: Self) -> (r: Self) {
        self - rhs
    }

    fn div(self, rhs: Self) -> (r: Self) {
        proof {
            lemma_quot_trunc_bounds(self as int, rhs as int);
        }
        self / rhs
    }

    fn mod_floor(self, rhs: Self) -> (r: Self) {
        proof {
            lemma_quot_trunc_bounds(self as int, rhs as int);
        }
        self % rhs
    }

    fn mul(self, rhs: Self) -> (r: Self) {
        self * rhs
    }

    fn eq(self, rhs: Self) -> (r: bool) {
        self == rhs
    }

    fn greater(self, rhs: Self) -> (r: bool) {
        self > rhs
    }

    fn zero() -> (r: Self) {
        0
    }

    fn one() -> (r: Self) {
        1
    }
}

/// Dividing the least 32-bit integer by minus one leaves the 32-bit range,
/// and the truncated remainder is smaller in magnitude than the divisor.
pub proof fn lemma_quot_trunc_bounds(a: int, b: int)
    requires
        b != 0,
    ensures
        a == i32::MIN && b == -1 ==> quot_trunc(a, b) == -(i32::MIN as int),
        -abs(b) < rem_trunc(a, b) < abs(b),
{
    if a >= 0 {
        lemma_euclid_mod_bound(a, b);
    } else {
        lemma_euclid_mod_bound(-a, b);
    }
    if a == i32::MIN && b == -1 {
        let n = -a;
        lemma_euclid_mod_bound(n, b);
        assert(n % b == 0);
        assert(n == b * (n / b) + n % b) by (nonlinear_arith)
            requires
                b != 0,
        ;
        assert(n / b == -n) by (nonlinear_arith)
            requires
                n == b * (n / b),
                b == -1,
        ;
    }
}

pub open spec fn abs(a: int) -> int {
    if a < 0 {
        -a
    } else {
        a
    }
}

/// The Euclidean remainder lies between zero and the magnitude of the divisor.
pub proof fn lemma_euclid_mod_bound(a: int, b: int)
    requires
        b != 0,
    ensures
        0 <= a % b < abs(b),
{
    assert(0 <= a % b < abs(b)) by (nonlinear_arith)
        requires
            b != 0,
    ;
}

} // verus!
