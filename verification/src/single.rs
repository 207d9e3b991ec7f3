use vstd::arithmetic::power2::{
    lemma2_to64, lemma2_to64_rest, lemma_pow2_strictly_increases, lemma_pow2_unfold, pow2,
};
use vstd::prelude::*;

verus! {

/// A single-precision binary floating-point number, held as its 32 bits: from the
/// top, one sign bit, eight exponent bits, twenty-three fraction bits.
///
/// The library tests, orders and rounds such numbers. It does no arithmetic on them.
#[derive(Debug, Clone, Copy, PartialEq, Eq, Structural)]
pub struct Single {
    pub bits: u32,
}

/// The bits of positive infinity, the largest magnitude that is not a NaN.
pub const INFINITY_BITS: u32 = 0x7f80_0000;

/// The value of the sign bit.
pub const SIGN_BIT: u32 = 0x8000_0000;

/// Two to the number of fraction bits.
pub const FRACTION_RANGE: u32 = 0x80_0000;

impl Single {
    /// Whether the sign bit is set.
    pub open spec fn negative(self) -> bool {
        self.bits >= SIGN_BIT
    }

    /// The bits without the sign bit.
    pub open spec fn magnitude(self) -> int {
        if self.negative() {
            self.bits - SIGN_BIT
        } else {
            self.bits as int
        }
    }

    /// The exponent bits, as they stand.
    pub open spec fn biased_exponent(self) -> int {
        self.magnitude() / (FRACTION_RANGE as int)
    }

    /// The fraction bits.
    pub open spec fn fraction(self) -> int {
        self.magnitude() % (FRACTION_RANGE as int)
    }

    /// Whether the bits stand for no number at all.
    pub open spec fn spec_is_nan(self) -> bool {
        self.magnitude() > INFINITY_BITS
    }

    /// Whether the bits stand for positive or negative infinity.
    pub open spec fn is_infinite(self) -> bool {
        self.magnitude() == INFINITY_BITS
    }

    /// An integer that orders numbers as their values do: of two numbers that are not
    /// NaN, the smaller has the smaller key, and equal numbers (the two zeros among
    /// them) have equal keys.
    pub open spec fn spec_key(self) -> int {
        if self.negative() {
            -self.magnitude()
        } else {
            self.magnitude()
        }
    }

    /// `self < other` as floating-point numbers compare: false where either is NaN.
    pub open spec fn spec_lt(self, other: Single) -> bool {
        !self.spec_is_nan() && !other.spec_is_nan() && self.spec_key() < other.spec_key()
    }

    /// `self >= other` as floating-point numbers compare: false where either is NaN.
    pub open spec fn spec_ge(self, other: Single) -> bool {
        !self.spec_is_nan() && !other.spec_is_nan() && self.spec_key() >= other.spec_key()
    }

    /// The integer `m` of a finite number written as plus or minus `m` times two to
    /// the `scale`.
    pub open spec fn significand(self) -> int {
        if self.biased_exponent() == 0 {
            self.fraction()
        } else {
            FRACTION_RANGE + self.fraction()
        }
    }

    /// The power of two by which the significand of a finite number is scaled.
    pub open spec fn scale(self) -> int {
        if self.biased_exponent() == 0 {
            -149
        } else {
            self.biased_exponent() - 150
        }
    }

    /// The least integer that is not below a finite number.
    pub open spec fn ceiling(self) -> int {
        let m = self.significand();
        let e = self.scale();
        if e >= 0 {
            if self.negative() {
                -(m * pow2(e as nat))
            } else {
                m * pow2(e as nat)
            }
        } else {
            let d = pow2((-e) as nat) as int;
            if self.negative() {
                -(m / d)
            } else {
                (m + d - 1) / d
            }
        }
    }

    /// The ceiling as a 64-bit integer: 0 for a NaN, the nearest bound for a number
    /// beyond the 64-bit range.
    pub open spec fn spec_ceil_i64(self) -> i64 {
        if self.spec_is_nan() {
            0
        } else if self.is_infinite() || self.ceiling() > i64::MAX || self.ceiling() < i64::MIN {
            if self.negative() {
                i64::MIN
            } else {
                i64::MAX
            }
        } else {
            self.ceiling() as i64
        }
    }

    /// The number with the given bits.
    pub fn from_bits(bits: u32) -> (x: Single)
        ensures
            x.bits == bits,
    {
        Single { bits }
    }

    /// The bits of the number.
    pub fn to_bits(self) -> (bits: u32)
        ensures
            bits == self.bits,
    {
        self.bits
    }

    /// Whether the bits stand for no number at all.
    #[verifier::when_used_as_spec(spec_is_nan)]
    pub fn is_nan(self) -> (b: bool)
        ensures
            b == self.spec_is_nan(),
    {
        let magnitude = if self.bits >= SIGN_BIT {
            self.bits - SIGN_BIT
        } else {
            self.bits
        };
        magnitude > INFINITY_BITS
    }

    /// The integer by which the number is ordered.
    pub fn key(self) -> (k: i64)
        ensures
            k == self.spec_key(),
    {
        if self.bits >= SIGN_BIT {
            let magnitude: u32 = self.bits - SIGN_BIT;
            let m: i64 = magnitude as i64;
            -m
        } else {
            self.bits as i64
        }
    }

    /// Whether `self < other`, as floating-point numbers compare.
    #[verifier::when_used_as_spec(spec_lt)]
    pub fn lt(self, other: Single) -> (b: bool)
        ensures
            b == self.spec_lt(other),
    {
        !self.is_nan() && !other.is_nan() && self.key() < other.key()
    }

    /// Whether `self >= other`, as floating-point numbers compare.
    #[verifier::when_used_as_spec(spec_ge)]
    pub fn ge(self, other: Single) -> (b: bool)
        ensures
            b == self.spec_ge(other),
    {
        !self.is_nan() && !other.is_nan() && self.key() >= other.key()
    }

    /// The least integer that is not below the number, kept within 64 bits.
    #[verifier::when_used_as_spec(spec_ceil_i64)]
    pub fn ceil_i64(self) -> (r: i64)
        ensures
            r == self.spec_ceil_i64(),
    {
        let negative = self.bits >= SIGN_BIT;
        let magnitude: u32 = if negative {
            self.bits - SIGN_BIT
        } else {
            self.bits
        };
        if magnitude > INFINITY_BITS {
            return 0;
        }
        if magnitude == INFINITY_BITS {
            return if negative {
                i64::MIN
            } else {
                i64::MAX
            };
        }
        let exponent: u32 = magnitude / FRACTION_RANGE;
        let fraction: u32 = magnitude % FRACTION_RANGE;
        let m: u64 = if exponent == 0 {
            fraction as u64
        } else {
            FRACTION_RANGE as u64 + fraction as u64
        };
        if exponent >= 150 {
            let e: u32 = exponent - 150;
            if e >= 40 {
                proof {
                    lemma2_to64();
                    lemma2_to64_rest();
                    if e > 40 {
                        lemma_pow2_strictly_increases(40, e as nat);
                    }
                    assert(m * pow2(e as nat) >= 0x80_0000 * 0x100_0000_0000) by (nonlinear_arith)
                        requires
                            m >= 0x80_0000,
                            pow2(e as nat) >= 0x100_0000_0000,
                    ;
                }
                return if negative {
                    i64::MIN
                } else {
                    i64::MAX
                };
            }
            let p = pow2_u64(e);
            proof {
                lemma2_to64();
                lemma2_to64_rest();
                if e < 39 {
                    lemma_pow2_strictly_increases(e as nat, 39);
                }
                assert(m * p <= 0xff_ffff * 0x80_0000_0000) by (nonlinear_arith)
                    requires
                        0 <= m <= 0xff_ffff,
                        0 <= p <= 0x80_0000_0000,
                ;
            }
            let v: u64 = m * p;
            if negative {
                -(v as i64)
            } else {
                v as i64
            }
        } else {
            let k: u32 = if exponent == 0 {
                149
            } else {
                150 - exponent
            };
            if k >= 25 {
                proof {
                    lemma2_to64();
                    if k > 25 {
                        lemma_pow2_strictly_increases(25, k as nat);
                    }
                    let d = pow2(k as nat) as int;
                    let n = m as int;
                    assert(n / d == 0) by (nonlinear_arith)
                        requires
                            0 <= n < d,
                    ;
                    assert(n > 0 ==> (n + d - 1) / d == 1) by (nonlinear_arith)
                        requires
                            0 <= n < d,
                    ;
                    assert(n == 0 ==> (n + d - 1) / d == 0) by (nonlinear_arith)
                        requires
                            0 <= n < d,
                    ;
                }
                return if negative || m == 0 {
                    0
                } else {
                    1
                };
            }
            let d = pow2_u64(k);
            proof {
                lemma2_to64();
                if k < 24 {
                    lemma_pow2_strictly_increases(k as nat, 24);
                }
            }
            if negative {
                -((m / d) as i64)
            } else {
                ((m + d - 1) / d) as i64
            }
        }
    }
}

/// Two to the power `n`.
fn pow2_u64(n: u32) -> (p: u64)
    requires
        n <= 62,
    ensures
        p == pow2(n as nat),
        p >= 1,
{
    let mut p: u64 = 1;
    let mut i: u32 = 0;
    proof {
        lemma2_to64();
    }
    while i < n
        invariant
            i <= n <= 62,
            p == pow2(i as nat),
            p >= 1,
        decreases n - i,
    {
        proof {
            lemma_pow2_unfold((i + 1) as nat);
            lemma2_to64_rest();
            if i + 1 < 63 {
                lemma_pow2_strictly_increases((i + 1) as nat, 63);
            }
        }
        p = p * 2;
        i += 1;
    }
    p
}

} // verus!
