//! Range checks on floating-point numbers that are carried by their IEEE 754
//! bits. What a bit pattern stands for is stated exactly, as an integer
//! multiple of the smallest positive value of the format.

use vstd::arithmetic::power2::*;
use vstd::prelude::*;

verus! {

/// A single-precision number, by its bits.
#[derive(Debug, Clone, Copy, PartialEq, Eq, Structural)]
pub struct Single {
    pub bits: u32,
}

/// A double-precision number, by its bits.
#[derive(Debug, Clone, Copy, PartialEq, Eq, Structural)]
pub struct Double {
    pub bits: u64,
}

/// The magnitude with exponent field `e` and fraction field `m`, in a format
/// with `p` fraction bits, in units of the smallest positive value.
pub open spec fn magnitude(e: nat, m: nat, p: nat) -> nat {
    if e == 0 {
        m
    } else {
        (m + pow2(p)) * pow2((e - 1) as nat)
    }
}

impl Single {
    pub open spec fn negative(self) -> bool {
        self.bits >= 0x8000_0000
    }

    /// The bits without the sign.
    pub open spec fn unsigned_bits(self) -> nat {
        self.bits as nat % 0x8000_0000
    }

    /// Neither an infinity nor a NaN.
    pub open spec fn finite(self) -> bool {
        self.unsigned_bits() < 0x7f80_0000
    }

    /// The value times 2^149.
    pub open spec fn scaled(self) -> int {
        let m = magnitude(
            self.unsigned_bits() / 0x80_0000,
            self.unsigned_bits() % 0x80_0000,
            23,
        );
        if self.negative() {
            -m
        } else {
            m as int
        }
    }

    /// A number from 0 to 1.
    pub open spec fn in_0_to_1(self) -> bool {
        self.finite() && 0 <= self.scaled() <= pow2(149)
    }

    /// A number from 0 to 2.
    pub open spec fn in_0_to_2(self) -> bool {
        self.finite() && 0 <= self.scaled() <= pow2(150)
    }

    /// A number from -2 to 2.
    pub open spec fn in_minus_2_to_2(self) -> bool {
        self.finite() && -pow2(150) <= self.scaled() <= pow2(150)
    }
}

impl Double {
    pub open spec fn negative(self) -> bool {
        self.bits >= 0x8000_0000_0000_0000
    }

    /// The bits without the sign.
    pub open spec fn unsigned_bits(self) -> nat {
        self.bits as nat % 0x8000_0000_0000_0000
    }

    /// Neither an infinity nor a NaN.
    pub open spec fn finite(self) -> bool {
        self.unsigned_bits() < 0x7ff0_0000_0000_0000
    }

    /// The value times 2^1074.
    pub open spec fn scaled(self) -> int {
        let m = magnitude(
            self.unsigned_bits() / 0x10_0000_0000_0000,
            self.unsigned_bits() % 0x10_0000_0000_0000,
            52,
        );
        if self.negative() {
            -m
        } else {
            m as int
        }
    }

    /// A positive number up to 1.
    pub open spec fn in_above_0_to_1(self) -> bool {
        self.finite() && 0 < self.scaled() <= pow2(1074)
    }
}

/// A magnitude is at most a power of two exactly when its fields are at most
/// those of that power.
proof fn lemma_magnitude_order(e: nat, m: nat, p: nat, k: nat)
    requires
        m < pow2(p),
        k >= 1,
    ensures
        magnitude(e, m, p) <= pow2((p + k - 1) as nat) <==> (e < k || (e == k && m == 0)),
        magnitude(e, m, p) == 0 <==> (e == 0 && m == 0),
{
    lemma_pow2_pos(p);
    let top = pow2((p + k - 1) as nat);
    lemma_pow2_adds(p, (k - 1) as nat);
    lemma_pow2_pos((k - 1) as nat);
    assert(top == pow2(p) * pow2((k - 1) as nat));
    if e == 0 {
        assert(top >= pow2(p)) by (nonlinear_arith)
            requires
                top == pow2(p) * pow2((k - 1) as nat),
                pow2((k - 1) as nat) >= 1,
        ;
    } else {
        let q = pow2((e - 1) as nat);
        lemma_pow2_pos((e - 1) as nat);
        assert((m + pow2(p)) * q > 0) by (nonlinear_arith)
            requires
                pow2(p) > 0,
                q > 0,
        ;
        if e < k {
            // (m + 2^p) * 2^(e-1) < 2^(p+1) * 2^(e-1) = 2^(p+e) <= 2^(p+k-1)
            lemma_pow2_adds(p + 1, (e - 1) as nat);
            lemma_pow2_unfold(p + 1);
            assert((m + pow2(p)) * q <= pow2(p + 1) * q) by (nonlinear_arith)
                requires
                    m < pow2(p),
                    pow2(p + 1) == 2 * pow2(p),
                    q > 0,
            ;
            if p + e < p + k - 1 {
                lemma_pow2_strictly_increases((p + e) as nat, (p + k - 1) as nat);
            }
        } else if e == k {
            assert((m + pow2(p)) * q == m * q + pow2(p) * q) by (nonlinear_arith);
            if m == 0 {
                assert(m * q == 0) by (nonlinear_arith)
                    requires
                        m == 0,
                ;
            } else {
                assert(m * q > 0) by (nonlinear_arith)
                    requires
                        m > 0,
                        q > 0,
                ;
            }
        } else {
            lemma_pow2_strictly_increases((k - 1) as nat, (e - 1) as nat);
            assert((m + pow2(p)) * q > pow2(p) * pow2((k - 1) as nat)) by (nonlinear_arith)
                requires
                    q > pow2((k - 1) as nat),
                    pow2(p) > 0,
                    m >= 0,
            ;
        }
    }
}

impl Single {
    /// Whether this is a number from 0 to 1.
    pub fn from_0_to_1(self) -> (r: bool)
        ensures
            r == self.in_0_to_1(),
    {
        proof {
            lemma2_to64();
            lemma_magnitude_order(
                self.unsigned_bits() / 0x80_0000,
                self.unsigned_bits() % 0x80_0000,
                23,
                127,
            );
        }
        self.bits <= 0x3f80_0000 || self.bits == 0x8000_0000
    }

    /// Whether this is a number from 0 to 2.
    pub fn from_0_to_2(self) -> (r: bool)
        ensures
            r == self.in_0_to_2(),
    {
        proof {
            lemma2_to64();
            lemma_magnitude_order(
                self.unsigned_bits() / 0x80_0000,
                self.unsigned_bits() % 0x80_0000,
                23,
                128,
            );
        }
        self.bits <= 0x4000_0000 || self.bits == 0x8000_0000
    }

    /// Whether this is a number from -2 to 2.
    pub fn from_minus_2_to_2(self) -> (r: bool)
        ensures
            r == self.in_minus_2_to_2(),
    {
        proof {
            lemma2_to64();
            lemma_magnitude_order(
                self.unsigned_bits() / 0x80_0000,
                self.unsigned_bits() % 0x80_0000,
                23,
                128,
            );
        }
        self.bits % 0x8000_0000 <= 0x4000_0000
    }
}

/// The positive doubles up to 1 are the bit patterns from 1 to that of 1.
pub proof fn lemma_above_0_to_1(x: Double)
    ensures
        x.in_above_0_to_1() <==> 1 <= x.bits <= 0x3ff0_0000_0000_0000,
{
    lemma2_to64();
    lemma2_to64_rest();
    lemma_magnitude_order(
        x.unsigned_bits() / 0x10_0000_0000_0000,
        x.unsigned_bits() % 0x10_0000_0000_0000,
        52,
        1023,
    );
}

impl Double {
    /// Whether this is a positive number up to 1.
    pub fn above_0_to_1(self) -> (r: bool)
        ensures
            r == self.in_above_0_to_1(),
    {
        proof {
            lemma_above_0_to_1(self);
        }
        1 <= self.bits && self.bits <= 0x3ff0_0000_0000_0000
    }
}

/// The ranges by their bits: 0 to 1 ends at the bits of 1, 0 to 2 and -2 to 2 at the
/// bits of 2; the zero with a sign is 0, and nothing else with a sign is at least 0.
pub proof fn law_single_ranges(x: Single)
    ensures
        x.in_0_to_1() <==> x.bits <= 0x3f80_0000 || x.bits == 0x8000_0000,
        x.in_0_to_2() <==> x.bits <= 0x4000_0000 || x.bits == 0x8000_0000,
        x.in_minus_2_to_2() <==> x.bits % 0x8000_0000 <= 0x4000_0000,
{
    lemma2_to64();
    lemma_magnitude_order(x.unsigned_bits() / 0x80_0000, x.unsigned_bits() % 0x80_0000, 23, 127);
    lemma_magnitude_order(x.unsigned_bits() / 0x80_0000, x.unsigned_bits() % 0x80_0000, 23, 128);
}

/// A share is a positive number up to 1: neither zero nor a negative number, and nothing above 1.
pub proof fn law_shares_are_positive_up_to_one(x: Double)
    ensures
        x.in_above_0_to_1() <==> 0 < x.bits <= 0x3ff0_0000_0000_0000,
{
    lemma_above_0_to_1(x);
}

} // verus!
