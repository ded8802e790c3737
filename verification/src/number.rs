//! Real numbers by their bits, and how they are rounded to what single and double precision hold.
use vstd::arithmetic::power2::{
    lemma2_to64, lemma2_to64_rest, lemma_pow2_adds, lemma_pow2_pos, lemma_pow2_strictly_increases,
    lemma_pow2_unfold, pow2,
};
use vstd::prelude::*;

verus! {

/// How many binary digits `n` has; zero has none.
pub open spec fn bit_len(n: nat) -> nat
    decreases n,
{
    if n == 0 {
        0
    } else {
        1 + bit_len(n / 2)
    }
}

pub proof fn lemma_bit_len(n: nat)
    ensures
        n < pow2(bit_len(n)),
        n > 0 ==> bit_len(n) > 0 && pow2((bit_len(n) - 1) as nat) <= n,
    decreases n,
{
    if n == 0 {
        lemma_pow2_pos(0);
    } else {
        lemma_bit_len(n / 2);
        lemma_pow2_unfold(bit_len(n));
        if n / 2 > 0 {
            lemma_pow2_unfold(bit_len(n / 2));
        } else {
            lemma2_to64();
        }
    }
}

/// A power of two is not reached by what has no more digits.
proof fn lemma_bit_len_below(n: nat, e: nat)
    requires
        n < pow2(e),
    ensures
        bit_len(n) <= e,
{
    lemma_bit_len(n);
    if bit_len(n) > e {
        if bit_len(n) - 1 > e {
            lemma_pow2_strictly_increases(e, (bit_len(n) - 1) as nat);
        }
    }
}

proof fn lemma_pow2_grows(a: nat, b: nat)
    requires
        a <= b,
    ensures
        0 < pow2(a) <= pow2(b),
{
    lemma_pow2_pos(a);
    if a < b {
        lemma_pow2_strictly_increases(a, b);
    }
}

/// `n / q` to the nearest whole number; what lies in the middle goes to the even one.
pub open spec fn nearest_even(n: nat, q: nat) -> nat {
    let k = n / q;
    let r = n % q;
    if 2 * r < q || (2 * r == q && k % 2 == 0) {
        k
    } else {
        k + 1
    }
}

/// How many digits of `n` are too many for `digits` of them.
pub open spec fn excess(n: nat, digits: nat) -> nat {
    if bit_len(n) > digits {
        (bit_len(n) - digits) as nat
    } else {
        0
    }
}

/// `n / d` to the nearest number that has no more than `digits` binary digits before its zeros;
/// of two that are as near, the one whose last digit is zero.
pub open spec fn significant(n: nat, d: nat, digits: nat) -> nat {
    let unit = pow2(excess(n / d, digits));
    nearest_even(n, d * unit) * unit
}

fn bit_length(n: u128) -> (len: u32)
    ensures
        len == bit_len(n as nat),
        len <= 128,
{
    let mut rest: u128 = n;
    let mut len: u32 = 0;
    proof {
        lemma2_to64_rest();
        lemma_pow2_adds(64, 64);
        assert(pow2(64) * pow2(64) > n) by (nonlinear_arith)
            requires
                pow2(64) == 0x1_0000_0000_0000_0000,
                n <= 0xffff_ffff_ffff_ffff_ffff_ffff_ffff_ffff,
        ;
        lemma_bit_len_below(n as nat, 128);
    }
    while rest > 0
        invariant
            len + bit_len(rest as nat) == bit_len(n as nat),
            bit_len(n as nat) <= 128,
        decreases rest,
    {
        rest = rest / 2;
        len += 1;
    }
    len
}

fn power_of_two(e: u32) -> (p: u128)
    requires
        e < 128,
    ensures
        p == pow2(e as nat),
{
    let mut p: u128 = 1;
    let mut i: u32 = 0;
    proof {
        lemma2_to64();
    }
    while i < e
        invariant
            i <= e < 128,
            p == pow2(i as nat),
        decreases e - i,
    {
        proof {
            lemma_pow2_unfold((i + 1) as nat);
            lemma_pow2_grows((i + 1) as nat, 127);
            lemma2_to64_rest();
            lemma2_to64();
            lemma_pow2_adds(63, 64);
            assert(pow2(63) * pow2(64) <= 0xffff_ffff_ffff_ffff_ffff_ffff_ffff_ffff)
                by (nonlinear_arith)
                requires
                    pow2(63) == 0x8000_0000_0000_0000,
                    pow2(64) == 0x1_0000_0000_0000_0000,
            ;
        }
        p = p * 2;
        i += 1;
    }
    p
}

fn round_even(n: u128, q: u128) -> (k: u128)
    requires
        0 < q <= 0x7fff_ffff_ffff_ffff_ffff_ffff_ffff_ffff,
    ensures
        k == nearest_even(n as nat, q as nat),
{
    let k: u128 = n / q;
    let r: u128 = n % q;
    if 2 * r < q || (2 * r == q && k % 2 == 0) {
        k
    } else {
        proof {
            assert(k < 0xffff_ffff_ffff_ffff_ffff_ffff_ffff_ffff) by (nonlinear_arith)
                requires
                    k == n as int / q as int,
                    r == n as int % q as int,
                    r > 0,
                    0 < q,
                    n <= 0xffff_ffff_ffff_ffff_ffff_ffff_ffff_ffff,
            ;
        }
        k + 1
    }
}

/// A double-precision number by its IEEE 754 bit pattern.
#[derive(Clone, Copy, Debug, PartialEq, Eq, Structural)]
pub struct Real64 {
    pub bits: u64,
}

/// The number one.
pub const ONE_BITS: u64 = 0x3ff0_0000_0000_0000;

/// The sign bit alone.
pub const SIGN_BIT: u64 = 0x8000_0000_0000_0000;

/// Infinity: the smallest magnitude that is not a number's.
pub const INFINITY_BITS: u64 = 0x7ff0_0000_0000_0000;

impl Real64 {
    pub open spec fn negative(self) -> bool {
        self.bits >= SIGN_BIT
    }

    /// The bits without the sign; for numbers they order as the magnitudes do.
    pub open spec fn magnitude(self) -> int {
        if self.negative() {
            self.bits - SIGN_BIT
        } else {
            self.bits as int
        }
    }

    pub open spec fn is_nan(self) -> bool {
        self.magnitude() > INFINITY_BITS
    }

    pub open spec fn finite(self) -> bool {
        self.magnitude() < INFINITY_BITS
    }

    /// The magnitude of a number as `m * 2^e`.
    pub open spec fn parts(self) -> (nat, int) {
        let exponent = self.magnitude() / 0x10_0000_0000_0000;
        let fraction = (self.magnitude() % 0x10_0000_0000_0000) as nat;
        if exponent == 0 {
            (fraction, -1074)
        } else {
            (fraction + 0x10_0000_0000_0000, exponent - 1075)
        }
    }

    /// This number rounded to single precision. What is no finite number stays as it is.
    pub open spec fn in_single(self) -> Real64 {
        if self.finite() {
            signed(self.negative(), single_bits(self.parts().0, self.parts().1))
        } else {
            self
        }
    }

    /// This number moved into the range from zero to one: what is below zero becomes zero, what is
    /// above one becomes one. Zero of either sign stays, and so does what is no number.
    pub open spec fn clamped_to_unit(self) -> Real64 {
        if self.is_nan() || self.magnitude() == 0 {
            self
        } else if self.negative() {
            Real64 { bits: 0 }
        } else if self.bits > ONE_BITS {
            Real64 { bits: ONE_BITS }
        } else {
            self
        }
    }

    fn magnitude_bits(self) -> (m: u64)
        ensures
            m == self.magnitude(),
    {
        if self.bits >= SIGN_BIT {
            self.bits - SIGN_BIT
        } else {
            self.bits
        }
    }

    pub fn is_finite(self) -> (b: bool)
        ensures
            b == self.finite(),
    {
        self.magnitude_bits() < INFINITY_BITS
    }

    fn split(self) -> (parts: (u64, i32))
        requires
            self.finite(),
        ensures
            parts.0 == self.parts().0,
            parts.1 == self.parts().1,
            parts.0 < 0x20_0000_0000_0000,
            parts.1 >= 0 ==> parts.0 >= 0x10_0000_0000_0000,
            -1074 <= parts.1 <= 971,
    {
        let magnitude: u64 = self.magnitude_bits();
        let exponent: u64 = magnitude / 0x10_0000_0000_0000;
        let fraction: u64 = magnitude % 0x10_0000_0000_0000;
        if exponent == 0 {
            (fraction, -1074)
        } else {
            (fraction + 0x10_0000_0000_0000, exponent as i32 - 1075)
        }
    }

    pub fn to_single(self) -> (r: Real64)
        ensures
            r == self.in_single(),
    {
        if self.magnitude_bits() >= INFINITY_BITS {
            return self;
        }
        let (m, e): (u64, i32) = self.split();
        let bits: u64 = bits_in_single(m, e);
        Real64 {
            bits: if self.bits >= SIGN_BIT {
                SIGN_BIT + bits
            } else {
                bits
            },
        }
    }

    /// A whole number in single precision.
    pub fn single_from_u64(n: u64) -> (r: Real64)
        ensures
            r == single_of_integer(n as int),
    {
        Real64 { bits: bits_in_single(n, 0) }
    }

    /// A whole number in single precision.
    pub fn single_from_i64(n: i64) -> (r: Real64)
        ensures
            r == single_of_integer(n as int),
    {
        if n < 0 {
            let magnitude: u64 = if n == i64::MIN {
                0x8000_0000_0000_0000
            } else {
                (-n) as u64
            };
            Real64 { bits: SIGN_BIT + bits_in_single(magnitude, 0) }
        } else {
            Real64 { bits: bits_in_single(n as u64, 0) }
        }
    }

    pub fn clamp_to_unit(self) -> (r: Real64)
        ensures
            r == self.clamped_to_unit(),
    {
        let magnitude: u64 = self.magnitude_bits();
        if magnitude > INFINITY_BITS || magnitude == 0 {
            self
        } else if self.bits >= SIGN_BIT {
            Real64 { bits: 0 }
        } else if self.bits > ONE_BITS {
            Real64 { bits: ONE_BITS }
        } else {
            self
        }
    }
}

/// The unit to which `n / d` is rounded is not larger than `n / d`.
proof fn lemma_unit(n: nat, d: nat, digits: nat)
    requires
        0 < d,
        0 < digits,
    ensures
        ({
            let e = excess(n / d, digits);
            &&& 0 < pow2(e)
            &&& 0 < d * pow2(e)
            &&& e > 0 ==> d * pow2(e) * pow2((digits - 1) as nat) <= n
            &&& e > 0 ==> d * pow2(e) <= n
        }),
{
    let quotient = n / d;
    let e = excess(quotient, digits);
    lemma_pow2_pos(e);
    assert(0 < d * pow2(e)) by (nonlinear_arith)
        requires
            0 < d,
            0 < pow2(e),
    ;
    if e > 0 {
        lemma_bit_len(quotient);
        lemma_pow2_adds(e, (digits - 1) as nat);
        lemma_pow2_pos((digits - 1) as nat);
        let start = pow2((digits - 1) as nat);
        assert(pow2(e) * start <= quotient);
        assert(d * pow2(e) * start <= n && d * pow2(e) <= n) by (nonlinear_arith)
            requires
                pow2(e) * start <= quotient,
                quotient == n / d,
                0 < d,
                0 < pow2(e),
                0 < start,
        ;
    }
}

/// How far a rounded number is from the number: not further than half a unit.
proof fn lemma_nearest_even(n: nat, q: nat)
    requires
        0 < q,
    ensures
        2 * (nearest_even(n, q) * q) <= 2 * n + q,
        2 * n <= 2 * (nearest_even(n, q) * q) + q,
{
    let k = n / q;
    let r = n % q;
    assert(n == k * q + r && (k + 1) * q == k * q + q) by (nonlinear_arith)
        requires
            k == n / q,
            r == n % q,
            0 < q,
    ;
}

/// A number rounded to `digits` digits exceeds it by no more than one part in two to the power of
/// `digits`.
pub proof fn lemma_significant(n: nat, d: nat, digits: nat)
    requires
        0 < d,
        0 < digits,
        n / d >= pow2((digits - 1) as nat) || d == 1,
    ensures
        significant(n, d, digits) * d * pow2(digits) <= n * pow2(digits) + n,
{
    let e = excess(n / d, digits);
    let unit = pow2(e);
    let q = d * unit;
    let k = nearest_even(n, q);
    let p = pow2(digits);
    lemma_unit(n, d, digits);
    lemma_nearest_even(n, q);
    lemma_pow2_unfold(digits);
    let half = pow2((digits - 1) as nat);
    lemma_pow2_pos((digits - 1) as nat);
    if e == 0 {
        lemma2_to64();
        if d == 1 {
            assert(k == n) by {
                assert(n / 1 == n && n % 1 == 0);
            }
            assert(k * unit * d * p <= n * p + n) by (nonlinear_arith)
                requires
                    unit == 1,
                    d == 1,
                    k == n,
            ;
        } else {
            assert(half * d <= n) by (nonlinear_arith)
                requires
                    n / d >= half,
                    0 < d,
            ;
            assert(k * unit * d * p <= n * p + n) by (nonlinear_arith)
                requires
                    unit == 1,
                    q == d * unit,
                    2 * (k * q) <= 2 * n + q,
                    half * d <= n,
                    p == 2 * half,
                    0 < half,
            ;
        }
    } else {
        assert(k * unit * d * p <= n * p + n) by (nonlinear_arith)
            requires
                q == d * unit,
                2 * (k * q) <= 2 * n + q,
                q * half <= n,
                p == 2 * half,
                0 < half,
        ;
    }
}

/// A number rounded to `digits` digits falls short of it by no more than one part in two to the power
/// of `digits`.
pub proof fn lemma_significant_not_less(n: nat, d: nat, digits: nat)
    requires
        0 < d,
        0 < digits,
        n / d >= pow2((digits - 1) as nat) || d == 1,
    ensures
        n * pow2(digits) <= significant(n, d, digits) * d * pow2(digits) + n,
{
    let e = excess(n / d, digits);
    let unit = pow2(e);
    let q = d * unit;
    let k = nearest_even(n, q);
    let p = pow2(digits);
    lemma_unit(n, d, digits);
    lemma_nearest_even(n, q);
    lemma_pow2_unfold(digits);
    let half = pow2((digits - 1) as nat);
    lemma_pow2_pos((digits - 1) as nat);
    if e == 0 && d == 1 {
        lemma2_to64();
        assert(k == n) by {
            assert(n / 1 == n && n % 1 == 0);
        }
        assert(n * p <= k * unit * d * p + n) by (nonlinear_arith)
            requires
                unit == 1,
                d == 1,
                k == n,
        ;
    } else {
        if e == 0 {
            lemma2_to64();
            assert(q * half <= n) by (nonlinear_arith)
                requires
                    n / d >= half,
                    0 < d,
                    q == d * 1,
            ;
        }
        assert(n * p <= k * unit * d * p + n) by (nonlinear_arith)
            requires
                q == d * unit,
                2 * n <= 2 * (k * q) + q,
                q * half <= n,
                p == 2 * half,
                0 < half,
        ;
    }
}

/// A number that has few enough digits before its zeros is not changed.
pub proof fn lemma_significant_exact(a: nat, zeros: nat, digits: nat)
    requires
        a < pow2(digits),
        0 < digits,
    ensures
        significant(a * pow2(zeros), 1, digits) == a * pow2(zeros),
{
    let n = a * pow2(zeros);
    let e = excess(n, digits);
    lemma_pow2_pos(zeros);
    lemma_pow2_adds(digits, zeros);
    assert(n < pow2(digits) * pow2(zeros)) by (nonlinear_arith)
        requires
            n == a * pow2(zeros),
            a < pow2(digits),
            0 < pow2(zeros),
    ;
    lemma_bit_len_below(n, digits + zeros);
    assert(e <= zeros);
    lemma_pow2_adds((zeros - e) as nat, e);
    lemma_pow2_pos(e);
    let unit = pow2(e);
    let k = a * pow2((zeros - e) as nat);
    assert(n == k * unit) by (nonlinear_arith)
        requires
            n == a * pow2(zeros),
            k == a * pow2((zeros - e) as nat),
            pow2(zeros) == pow2((zeros - e) as nat) * unit,
    ;
    vstd::arithmetic::div_mod::lemma_fundamental_div_mod_converse(
        n as int,
        unit as int,
        k as int,
        0,
    );
    assert(1 * unit == unit);
    assert(n / 1 == n);
}

/// A quotient that is not below a power of two is not when it is rounded.
pub proof fn lemma_significant_at_least(n: nat, d: nat, zeros: nat, digits: nat)
    requires
        0 < d,
        0 < digits,
        d * pow2(zeros) <= n,
        n / d < pow2(zeros + digits),
    ensures
        pow2(zeros) <= significant(n, d, digits),
{
    let e = excess(n / d, digits);
    lemma_bit_len_below(n / d, zeros + digits);
    lemma_pow2_adds((zeros - e) as nat, e);
    lemma_unit(n, d, digits);
    let unit = pow2(e);
    let q = d * unit;
    let many = pow2((zeros - e) as nat);
    assert(many * q <= n) by (nonlinear_arith)
        requires
            d * pow2(zeros) <= n,
            pow2(zeros) == many * unit,
            q == d * unit,
    ;
    assert(many <= n / q) by (nonlinear_arith)
        requires
            many * q <= n,
            0 < q,
    ;
    assert(many * unit <= nearest_even(n, q) * unit) by (nonlinear_arith)
        requires
            many <= nearest_even(n, q),
            0 < unit,
    ;
}

/// `n / d` to the nearest number with no more than `digits` binary digits before its zeros.
pub fn to_significant(n: u128, d: u128, digits: u32) -> (r: u128)
    requires
        0 < d <= 0x7fff_ffff_ffff_ffff_ffff_ffff_ffff_ffff,
        n <= 0x7fff_ffff_ffff_ffff_ffff_ffff_ffff_ffff,
        0 < digits,
    ensures
        r == significant(n as nat, d as nat, digits as nat),
{
    let quotient: u128 = n / d;
    let len: u32 = bit_length(quotient);
    let e: u32 = if len > digits {
        len - digits
    } else {
        0
    };
    let unit: u128 = power_of_two(e);
    proof {
        lemma_unit(n as nat, d as nat, digits as nat);
        if e == 0 {
            lemma2_to64();
        }
    }
    let q: u128 = d * unit;
    let k: u128 = round_even(n, q);
    proof {
        lemma_nearest_even(n as nat, q as nat);
        assert(k * unit <= 0xffff_ffff_ffff_ffff_ffff_ffff_ffff_ffff) by (nonlinear_arith)
            requires
                q == d * unit,
                0 < d,
                0 < unit,
                2 * (k * q) <= 2 * n + q,
                n <= 0x7fff_ffff_ffff_ffff_ffff_ffff_ffff_ffff,
                q <= 0x7fff_ffff_ffff_ffff_ffff_ffff_ffff_ffff,
        ;
    }
    k * unit
}

/// The number with these bits and this sign.
pub open spec fn signed(negative: bool, bits: int) -> Real64 {
    Real64 {
        bits: if negative {
            (SIGN_BIT + bits) as u64
        } else {
            bits as u64
        },
    }
}

/// A whole number in single precision.
pub open spec fn single_of_integer(n: int) -> Real64 {
    if n < 0 {
        signed(true, single_bits((-n) as nat, 0))
    } else {
        signed(false, single_bits(n as nat, 0))
    }
}

/// The bits of the double-precision number `k * 2^s`, where single precision holds it; those of
/// infinity where it is too large for that.
pub open spec fn scaled_bits(k: nat, s: int) -> int {
    let len = bit_len(k);
    if k == 0 {
        0
    } else if s + len > 128 {
        INFINITY_BITS as int
    } else {
        (s + len + 1022) * 0x10_0000_0000_0000 + (k - pow2((len - 1) as nat)) * pow2(
            (53 - len) as nat,
        )
    }
}

/// How many digits of `m * 2^e` single precision cannot hold: it has room for 24, and for none
/// below `2^-149`.
pub open spec fn too_fine(m: nat, e: int) -> nat {
    let long = excess(m, 24);
    if e + long < -149 {
        (-149 - e) as nat
    } else {
        long
    }
}

/// The bits of `m * 2^e` in single precision: of the nearest number that it holds, and of two that
/// are as near the one whose last digit is zero.
pub open spec fn single_bits(m: nat, e: int) -> int {
    let dropped = too_fine(m, e);
    scaled_bits(nearest_even(m, pow2(dropped)), e + dropped)
}

fn bits_in_single(m: u64, e: i32) -> (bits: u64)
    requires
        -1100 <= e <= 1100,
    ensures
        bits == single_bits(m as nat, e as int),
        bits <= INFINITY_BITS,
{
    let len: u32 = bit_length(m as u128);
    let long: i32 = if len > 24 {
        len as i32 - 24
    } else {
        0
    };
    let dropped: i32 = if e + long < -149 {
        -149 - e
    } else {
        long
    };
    proof {
        lemma2_to64();
        lemma2_to64_rest();
        lemma_bit_len(m as nat);
        lemma_bit_len_below(m as nat, 64);
        lemma_pow2_pos(dropped as nat);
    }
    if dropped > 66 {
        proof {
            lemma_pow2_grows(66, dropped as nat);
            lemma_pow2_adds(2, 64);
            let q = pow2(dropped as nat);
            assert(2 * m < q);
            assert(m as nat / q == 0 && m as nat % q == m) by {
                vstd::arithmetic::div_mod::lemma_small_mod(m as nat, q);
                vstd::arithmetic::div_mod::lemma_basic_div(m as int, q as int);
            }
        }
        return 0;
    }
    let k: u128 = round_even(m as u128, power_of_two_small(dropped as u32));
    proof {
        let q = pow2(dropped as nat);
        lemma_nearest_even(m as nat, q);
        // No more than 24 digits stay, but for the one number behind them.
        assert(m < 0x100_0000 * q) by {
            if len > 24 {
                lemma_pow2_adds(24, (len - 24) as nat);
                lemma_pow2_grows((len - 24) as nat, dropped as nat);
                assert(0x100_0000 * pow2((len - 24) as nat) <= 0x100_0000 * q) by (nonlinear_arith)
                    requires
                        pow2((len - 24) as nat) <= q,
                ;
            } else {
                lemma_pow2_grows(len as nat, 24);
                assert(0x100_0000 <= 0x100_0000 * q) by (nonlinear_arith)
                    requires
                        0 < q,
                ;
            }
        }
        assert(k <= 0x100_0000) by (nonlinear_arith)
            requires
                m < 0x100_0000 * q,
                2 * (k * q) <= 2 * m + q,
                0 < q,
        ;
        lemma_bit_len(k as nat);
        lemma_bit_len_below(k as nat, 25);
    }
    if k == 0 {
        return 0;
    }
    let digits: u32 = bit_length(k);
    let s: i32 = e + dropped;
    if s + digits as i32 > 128 {
        return INFINITY_BITS;
    }
    let start: u128 = power_of_two(digits - 1);
    let step: u128 = power_of_two(53 - digits);
    proof {
        lemma_pow2_adds((digits - 1) as nat, (53 - digits) as nat);
        lemma_pow2_unfold(digits as nat);
        assert(0 <= (k - start) * step && (k - start) * step < 0x10_0000_0000_0000)
            by (nonlinear_arith)
            requires
                start <= k < 2 * start,
                start * step == 0x10_0000_0000_0000,
        ;
    }
    let high: u64 = (s + digits as i32 + 1022) as u64;
    high * 0x10_0000_0000_0000 + ((k - start) * step) as u64
}

fn power_of_two_small(e: u32) -> (p: u128)
    requires
        e <= 66,
    ensures
        p == pow2(e as nat),
        0 < p <= 0x7fff_ffff_ffff_ffff_ffff_ffff_ffff_ffff,
{
    proof {
        lemma2_to64();
        lemma2_to64_rest();
        lemma_pow2_adds(2, 64);
        lemma_pow2_grows(e as nat, 66);
    }
    power_of_two(e)
}

/// `m * 2^e` to the nearest whole number; what lies in the middle goes up.
pub open spec fn nearest_up(m: nat, e: int) -> nat {
    if e >= 0 {
        m * pow2(e as nat)
    } else {
        (2 * m + pow2((-e) as nat)) / (2 * pow2((-e) as nat))
    }
}

/// A hundred times this number, which is not negative, in single precision.
pub open spec fn hundredfold(x: Real64) -> Real64 {
    if x.finite() {
        signed(false, single_bits(100 * x.parts().0, x.parts().1))
    } else {
        x
    }
}

/// A scale in percent, computed in single precision: rounded to a whole number, and kept between 50
/// and 400. What is no number gives zero.
pub open spec fn percent_of(scale: Real64) -> int {
    let mult = scale.in_single();
    let product = hundredfold(mult);
    if mult.is_nan() {
        0
    } else if mult.negative() {
        50
    } else if !product.finite() {
        400
    } else {
        let whole = nearest_up(product.parts().0, product.parts().1);
        if whole < 50 {
            50
        } else if whole > 400 {
            400
        } else {
            whole as int
        }
    }
}

/// `m * 2^e` to the nearest whole number, kept between 50 and 400.
fn percent_between(m: u64, e: i32) -> (percent: u16)
    requires
        m < 0x20_0000_0000_0000,
        e >= 0 ==> m >= 0x10_0000_0000_0000,
        -1100 <= e <= 1100,
    ensures
        ({
            let whole = nearest_up(m as nat, e as int);
            percent == if whole < 50 {
                50
            } else if whole > 400 {
                400
            } else {
                whole as int
            }
        }),
{
    if e >= 0 {
        proof {
            lemma_pow2_pos(e as nat);
            assert(m <= m * pow2(e as nat)) by (nonlinear_arith)
                requires
                    0 < pow2(e as nat),
            ;
        }
        return 400;
    }
    if e < -66 {
        proof {
            let q = pow2((-e) as nat);
            lemma_pow2_grows(66, (-e) as nat);
            lemma2_to64();
            lemma2_to64_rest();
            lemma_pow2_adds(2, 64);
            let n = m as nat;
            assert((2 * n + q) / (2 * q) < 50) by (nonlinear_arith)
                requires
                    n < q,
                    0 < q,
            ;
        }
        return 50;
    }
    let q: u128 = power_of_two_small((-e) as u32);
    proof {
        lemma2_to64();
        lemma2_to64_rest();
        lemma_pow2_adds(2, 64);
        lemma_pow2_grows((-e) as nat, 66);
    }
    let whole: u128 = (2 * m as u128 + q) / (2 * q);
    if whole < 50 {
        50
    } else if whole > 400 {
        400
    } else {
        whole as u16
    }
}

/// A scale in percent.
pub fn scale_percent(scale: Real64) -> (percent: u16)
    ensures
        percent == percent_of(scale),
{
    let mult = scale.to_single();
    let magnitude: u64 = mult.magnitude_bits();
    if magnitude > INFINITY_BITS {
        return 0;
    }
    if mult.bits >= SIGN_BIT {
        return 50;
    }
    if magnitude == INFINITY_BITS {
        return 400;
    }
    let (m, e): (u64, i32) = mult.split();
    let product: u64 = bits_in_single(100 * m, e);
    if product == INFINITY_BITS {
        return 400;
    }
    let product = Real64 { bits: product };
    let (m, e): (u64, i32) = product.split();
    percent_between(m, e)
}

/// A clamped number is one: clamping it again changes nothing, and unless there was no number to
/// begin with it lies between zero and one.
pub proof fn law_clamping_settles(x: Real64)
    ensures
        x.clamped_to_unit().clamped_to_unit() == x.clamped_to_unit(),
        !x.is_nan() ==> x.clamped_to_unit().magnitude() <= ONE_BITS,
        !x.is_nan() && x.clamped_to_unit().negative() ==> x.clamped_to_unit().magnitude() == 0,
{
}

/// A scale in percent lies between 50 and 400; what is no number gives none, and a negative one the
/// least.
pub proof fn law_percent_stays_within_bounds(scale: Real64)
    ensures
        scale.in_single().is_nan() <==> percent_of(scale) == 0,
        !scale.in_single().is_nan() ==> 50 <= percent_of(scale) <= 400,
        !scale.in_single().is_nan() && scale.in_single().negative() ==> percent_of(scale) == 50,
{
}

} // verus!
