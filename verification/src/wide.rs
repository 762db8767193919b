//! Fixed-width integers wider than the machine's: values are held as 64-bit
//! limbs, least significant first, and every contract speaks of the integer
//! they stand for.

use vstd::prelude::*;

verus! {

/// The weight of one limb: 2^64.
pub open spec fn limb_base() -> int {
    0x1_0000_0000_0000_0000
}

/// 2^256, the first value an unsigned 256-bit integer cannot hold.
pub open spec fn two_pow_256() -> int {
    limb_base() * limb_base() * limb_base() * limb_base()
}

/// 2^255, the magnitude of the least signed 256-bit integer.
pub open spec fn two_pow_255() -> int {
    0x8000_0000_0000_0000 * limb_base() * limb_base() * limb_base()
}

/// The integer that four limbs stand for.
pub open spec fn limbs_value(limbs: [u64; 4]) -> int {
    limbs[0] as int + limbs[1] as int * limb_base() + limbs[2] as int * limb_base() * limb_base()
        + limbs[3] as int * limb_base() * limb_base() * limb_base()
}

/// An unsigned 256-bit integer.
#[derive(Clone, Copy, Debug, PartialEq, Eq)]
pub struct U256 {
    pub limbs: [u64; 4],
}

/// A signed 256-bit integer in two's complement.
#[derive(Clone, Copy, Debug, PartialEq, Eq)]
pub struct I256 {
    pub limbs: [u64; 4],
}

/// An unsigned 160-bit integer: three limbs, the last below 2^32.
#[derive(Clone, Copy, Debug, PartialEq, Eq)]
pub struct U160 {
    pub limbs: [u64; 3],
}

impl View for U256 {
    type V = int;

    open spec fn view(&self) -> int {
        limbs_value(self.limbs)
    }
}

impl View for I256 {
    type V = int;

    open spec fn view(&self) -> int {
        if limbs_value(self.limbs) < two_pow_255() {
            limbs_value(self.limbs)
        } else {
            limbs_value(self.limbs) - two_pow_256()
        }
    }
}

impl View for U160 {
    type V = int;

    open spec fn view(&self) -> int {
        self.limbs[0] as int + self.limbs[1] as int * limb_base() + self.limbs[2] as int
            * limb_base() * limb_base()
    }
}

/// Every limb pattern is a value below 2^256.
pub proof fn lemma_limbs_value_bounds(limbs: [u64; 4])
    ensures
        0 <= limbs_value(limbs) < two_pow_256(),
{
    let b = limb_base();
    let l0 = limbs[0] as int;
    let l1 = limbs[1] as int;
    let l2 = limbs[2] as int;
    let l3 = limbs[3] as int;
    assert(l1 * b <= (b - 1) * b) by (nonlinear_arith)
        requires
            0 <= l1 <= b - 1,
            b > 0,
    ;
    assert(l2 * b * b <= (b - 1) * b * b && l2 * b * b >= 0) by (nonlinear_arith)
        requires
            0 <= l2 <= b - 1,
            b > 0,
    ;
    assert(l3 * b * b * b <= (b - 1) * b * b * b && l3 * b * b * b >= 0) by (nonlinear_arith)
        requires
            0 <= l3 <= b - 1,
            b > 0,
    ;
    assert((b - 1) + (b - 1) * b + (b - 1) * b * b + (b - 1) * b * b * b == b * b * b * b - 1)
        by (nonlinear_arith);
    assert(l1 * b >= 0) by (nonlinear_arith)
        requires
            0 <= l1,
            b > 0,
    ;
}

/// Different limbs stand for different values: the value tells the limbs.
pub proof fn lemma_limbs_value_injective(a: [u64; 4], b: [u64; 4])
    requires
        limbs_value(a) == limbs_value(b),
    ensures
        a == b,
{
    let w = limb_base();
    let d0 = a[0] as int - b[0] as int;
    let d1 = a[1] as int - b[1] as int;
    let d2 = a[2] as int - b[2] as int;
    let d3 = a[3] as int - b[3] as int;
    assert(d0 + d1 * w + d2 * w * w + d3 * w * w * w == 0) by (nonlinear_arith)
        requires
            a[0] as int + a[1] as int * w + a[2] as int * w * w + a[3] as int * w * w * w == b[0] as int
                + b[1] as int * w + b[2] as int * w * w + b[3] as int * w * w * w,
            d0 == a[0] as int - b[0] as int,
            d1 == a[1] as int - b[1] as int,
            d2 == a[2] as int - b[2] as int,
            d3 == a[3] as int - b[3] as int,
    ;
    assert(d3 == 0) by (nonlinear_arith)
        requires
            d0 + d1 * w + d2 * w * w + d3 * w * w * w == 0,
            -w < d0 < w,
            -w < d1 < w,
            -w < d2 < w,
            w >= 2,
    ;
    assert(d2 == 0) by (nonlinear_arith)
        requires
            d0 + d1 * w + d2 * w * w + d3 * w * w * w == 0,
            d3 == 0,
            -w < d0 < w,
            -w < d1 < w,
            w >= 2,
    ;
    assert(d1 == 0) by (nonlinear_arith)
        requires
            d0 + d1 * w + d2 * w * w + d3 * w * w * w == 0,
            d3 == 0,
            d2 == 0,
            -w < d0 < w,
            w >= 2,
    ;
    assert(a =~= b);
}

impl U256 {
    /// Zero.
    pub fn zero() -> (r: U256)
        ensures
            r@ == 0,
    {
        U256 { limbs: [0, 0, 0, 0] }
    }

    /// The 256-bit integer equal to `value`.
    pub fn from_u128(value: u128) -> (r: U256)
        ensures
            r@ == value,
    {
        let (low, high) = split_u128(value);
        U256 { limbs: [low, high, 0, 0] }
    }

    /// The value as a `u128`, where it fits.
    pub fn to_u128(&self) -> (r: Option<u128>)
        ensures
            self@ <= u128::MAX ==> r == Some(self@ as u128),
            self@ > u128::MAX ==> r is None,
    {
        let l0: u64 = self.limbs[0];
        let l1: u64 = self.limbs[1];
        proof {
            let b = limb_base();
            let l2 = self.limbs[2] as int;
            let l3 = self.limbs[3] as int;
            assert(l2 * b * b >= l2 * (b * b) && l2 * (b * b) >= 0) by (nonlinear_arith)
                requires
                    l2 >= 0,
                    b > 0,
            ;
            assert(l3 * b * b * b == l3 * (b * b * b) && l3 * (b * b * b) >= 0)
                by (nonlinear_arith)
                requires
                    l3 >= 0,
                    b > 0,
            ;
            assert(l2 >= 1 ==> l2 * (b * b) >= b * b) by (nonlinear_arith)
                requires
                    b > 0,
            ;
            assert(l3 >= 1 ==> l3 * (b * b * b) >= b * b * b) by (nonlinear_arith)
                requires
                    b > 0,
            ;
            assert((l1 as int) * b >= 0 && (l1 as int) * b <= (b - 1) * b) by (nonlinear_arith)
                requires
                    0 <= l1 as int <= b - 1,
                    b > 0,
            ;
            assert(b * b == 0x1_0000_0000_0000_0000_0000_0000_0000_0000) by (nonlinear_arith)
                requires
                    b == 0x1_0000_0000_0000_0000,
            ;
            assert(b * b * b >= b * b) by (nonlinear_arith)
                requires
                    b == 0x1_0000_0000_0000_0000,
            ;
        }
        if self.limbs[2] != 0 || self.limbs[3] != 0 {
            None
        } else {
            let wide_low: u128 = l0 as u128;
            let wide_high: u128 = l1 as u128;
            assert(wide_high << 64 == wide_high * 0x1_0000_0000_0000_0000) by (bit_vector)
                requires
                    wide_high <= 0xffff_ffff_ffff_ffff,
            ;
            Some((wide_high << 64) + wide_low)
        }
    }
}

/// Unsigned 256-bit addition, done by `ruint::Uint::checked_add` of the
/// `alloy_primitives` crate on the same limbs: the sum where it is below 2^256,
/// nothing where it is not.
#[verifier::external_body]
fn limbs_checked_add(a: [u64; 4], b: [u64; 4]) -> (sum: Option<[u64; 4]>)
    ensures
        limbs_value(a) + limbs_value(b) < two_pow_256() ==> sum is Some && limbs_value(
            sum.unwrap(),
        ) == limbs_value(a) + limbs_value(b),
        limbs_value(a) + limbs_value(b) >= two_pow_256() ==> sum is None,
{
    let x = alloy_primitives::U256::from_limbs(a);
    let y = alloy_primitives::U256::from_limbs(b);
    match x.checked_add(y) {
        Some(v) => Some(v.into_limbs()),
        None => None,
    }
}

/// Unsigned 256-bit subtraction, done by `ruint::Uint::checked_sub` of the
/// `alloy_primitives` crate on the same limbs: the difference where it is not
/// negative, nothing where it is.
#[verifier::external_body]
fn limbs_checked_sub(a: [u64; 4], b: [u64; 4]) -> (difference: Option<[u64; 4]>)
    ensures
        limbs_value(a) >= limbs_value(b) ==> difference is Some && limbs_value(
            difference.unwrap(),
        ) == limbs_value(a) - limbs_value(b),
        limbs_value(a) < limbs_value(b) ==> difference is None,
{
    let x = alloy_primitives::U256::from_limbs(a);
    let y = alloy_primitives::U256::from_limbs(b);
    match x.checked_sub(y) {
        Some(v) => Some(v.into_limbs()),
        None => None,
    }
}

/// The magnitude of a two's-complement 256-bit integer, computed by
/// `alloy_primitives::Signed::unsigned_abs`: the limbs read as an unsigned value
/// where that is below 2^255, and 2^256 less that value otherwise.
#[verifier::external_body]
fn limbs_unsigned_abs(a: [u64; 4]) -> (magnitude: [u64; 4])
    ensures
        limbs_value(a) < two_pow_255() ==> limbs_value(magnitude) == limbs_value(a),
        limbs_value(a) >= two_pow_255() ==> limbs_value(magnitude) == two_pow_256() - limbs_value(
            a,
        ),
{
    alloy_primitives::I256::from_limbs(a).unsigned_abs().into_limbs()
}

/// The sign bit is the top bit of the last limb.
pub proof fn lemma_sign_limb(limbs: [u64; 4])
    ensures
        (limbs[3] >= 0x8000_0000_0000_0000u64) <==> limbs_value(limbs) >= two_pow_255(),
{
    let b = limb_base();
    let l0 = limbs[0] as int;
    let l1 = limbs[1] as int;
    let l2 = limbs[2] as int;
    let l3 = limbs[3] as int;
    let c = b * b * b;
    assert(l1 * b >= 0 && l1 * b <= (b - 1) * b) by (nonlinear_arith)
        requires
            0 <= l1 <= b - 1,
            b > 0,
    ;
    assert(l2 * b * b >= 0 && l2 * b * b <= (b - 1) * b * b) by (nonlinear_arith)
        requires
            0 <= l2 <= b - 1,
            b > 0,
    ;
    assert((b - 1) + (b - 1) * b + (b - 1) * b * b == c - 1) by (nonlinear_arith)
        requires
            c == b * b * b,
    ;
    assert(l3 * b * b * b == l3 * c) by (nonlinear_arith)
        requires
            c == b * b * b,
    ;
    assert(0x8000_0000_0000_0000 * b * b * b == 0x8000_0000_0000_0000 * c) by (nonlinear_arith)
        requires
            c == b * b * b,
    ;
    assert(c > 0) by (nonlinear_arith)
        requires
            c == b * b * b,
            b > 0,
    ;
    if l3 >= 0x8000_0000_0000_0000 {
        assert(l3 * c >= 0x8000_0000_0000_0000 * c) by (nonlinear_arith)
            requires
                l3 >= 0x8000_0000_0000_0000,
                c > 0,
        ;
    } else {
        assert(l3 * c + c <= 0x8000_0000_0000_0000 * c) by (nonlinear_arith)
            requires
                l3 + 1 <= 0x8000_0000_0000_0000,
                c > 0,
        ;
    }
}

impl I256 {
    /// Whether the value is below zero.
    pub fn is_negative(&self) -> (negative: bool)
        ensures
            negative == (self@ < 0),
    {
        proof {
            lemma_sign_limb(self.limbs);
            lemma_limbs_value_bounds(self.limbs);
        }
        self.limbs[3] >= 0x8000_0000_0000_0000u64
    }

    /// The distance of the value from zero.
    pub fn unsigned_abs(&self) -> (magnitude: U256)
        ensures
            magnitude@ == if self@ < 0 {
                -self@
            } else {
                self@
            },
    {
        proof {
            lemma_limbs_value_bounds(self.limbs);
        }
        U256 { limbs: limbs_unsigned_abs(self.limbs) }
    }
}

impl U256 {
    /// `self + rhs`, where that is below 2^256.
    pub fn checked_add(&self, rhs: &U256) -> (sum: Option<U256>)
        ensures
            self@ + rhs@ < two_pow_256() ==> sum is Some && sum.unwrap()@ == self@ + rhs@,
            self@ + rhs@ >= two_pow_256() ==> sum is None,
    {
        match limbs_checked_add(self.limbs, rhs.limbs) {
            Some(limbs) => Some(U256 { limbs }),
            None => None,
        }
    }

    /// `self - rhs`, where that is not negative.
    pub fn checked_sub(&self, rhs: &U256) -> (difference: Option<U256>)
        ensures
            self@ >= rhs@ ==> difference is Some && difference.unwrap()@ == self@ - rhs@,
            self@ < rhs@ ==> difference is None,
    {
        match limbs_checked_sub(self.limbs, rhs.limbs) {
            Some(limbs) => Some(U256 { limbs }),
            None => None,
        }
    }

    /// `self + delta` for a signed `delta`, where the sum is a 256-bit unsigned
    /// value.
    pub fn checked_add_signed(&self, delta: &I256) -> (sum: Option<U256>)
        ensures
            0 <= self@ + delta@ < two_pow_256() ==> sum is Some && sum.unwrap()@ == self@ + delta@,
            !(0 <= self@ + delta@ < two_pow_256()) ==> sum is None,
    {
        let magnitude = delta.unsigned_abs();
        if delta.is_negative() {
            self.checked_sub(&magnitude)
        } else {
            self.checked_add(&magnitude)
        }
    }

    /// `self - delta` for a signed `delta`, where the difference is a 256-bit
    /// unsigned value.
    pub fn checked_sub_signed(&self, delta: &I256) -> (difference: Option<U256>)
        ensures
            0 <= self@ - delta@ < two_pow_256() ==> difference is Some && difference.unwrap()@
                == self@ - delta@,
            !(0 <= self@ - delta@ < two_pow_256()) ==> difference is None,
    {
        let magnitude = delta.unsigned_abs();
        proof {
            lemma_limbs_value_bounds(self.limbs);
        }
        if delta.is_negative() {
            self.checked_add(&magnitude)
        } else {
            self.checked_sub(&magnitude)
        }
    }
}

/// The two limbs of a 128-bit value.
fn split_u128(value: u128) -> (limbs: (u64, u64))
    ensures
        value == limbs.0 as int + limbs.1 as int * limb_base(),
{
    let low: u64 = (value & 0xffff_ffff_ffff_ffff) as u64;
    let high: u64 = (value >> 64) as u64;
    assert(value == (value & 0xffff_ffff_ffff_ffff) + (value >> 64) * 0x1_0000_0000_0000_0000)
        by (bit_vector);
    assert((value & 0xffff_ffff_ffff_ffff) <= 0xffff_ffff_ffff_ffff) by (bit_vector);
    assert((value >> 64) <= 0xffff_ffff_ffff_ffff) by (bit_vector);
    (low, high)
}

impl I256 {
    /// Zero.
    pub fn zero() -> (r: I256)
        ensures
            r@ == 0,
    {
        let r = I256 { limbs: [0, 0, 0, 0] };
        proof {
            lemma_sign_limb(r.limbs);
        }
        r
    }

    /// The 256-bit integer equal to `value`.
    pub fn from_i128(value: i128) -> (r: I256)
        ensures
            r@ == value,
    {
        if value >= 0 {
            let (low, high) = split_u128(value as u128);
            let r = I256 { limbs: [low, high, 0, 0] };
            proof {
                lemma_sign_limb(r.limbs);
            }
            r
        } else {
            let below: u128 = (-(value + 1)) as u128;
            let pattern: u128 = !below;
            assert(!below == 0xffff_ffff_ffff_ffff_ffff_ffff_ffff_ffff - below) by (bit_vector);
            let (low, high) = split_u128(pattern);
            let r = I256 { limbs: [low, high, u64::MAX, u64::MAX] };
            proof {
                let b = limb_base();
                lemma_sign_limb(r.limbs);
                assert(b * b == 0x1_0000_0000_0000_0000_0000_0000_0000_0000) by (nonlinear_arith)
                    requires
                        b == 0x1_0000_0000_0000_0000,
                ;
                assert((b - 1) * b * b + (b - 1) * b * b * b == b * b * b * b - b * b)
                    by (nonlinear_arith);
                assert(limbs_value(r.limbs) == pattern + (b - 1) * b * b + (b - 1) * b * b * b);
            }
            r
        }
    }
}

impl U160 {
    /// Whether the limbs stand for a value below 2^160.
    pub open spec fn wf(&self) -> bool {
        self.limbs[2] <= 0xffff_ffff
    }

    /// Zero.
    pub fn zero() -> (r: U160)
        ensures
            r@ == 0,
            r.wf(),
    {
        U160 { limbs: [0, 0, 0] }
    }

    /// The 160-bit integer equal to `value`.
    pub fn from_u128(value: u128) -> (r: U160)
        ensures
            r@ == value,
            r.wf(),
    {
        let (low, high) = split_u128(value);
        U160 { limbs: [low, high, 0] }
    }

    /// The 160-bit integer with these limbs, least significant first, if the
    /// last is below 2^32.
    pub fn from_limbs(limbs: [u64; 3]) -> (r: Option<U160>)
        ensures
            limbs[2] <= 0xffff_ffff ==> r == Some(U160 { limbs }),
            limbs[2] > 0xffff_ffff ==> r is None,
    {
        if limbs[2] <= 0xffff_ffff {
            Some(U160 { limbs })
        } else {
            None
        }
    }
}

} // verus!
