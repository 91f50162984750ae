//! Single-precision (IEEE 754 binary32) arithmetic, stated and computed over
//! integers.
//!
//! A value is `mantissa * 2^exponent`. The colour adjustments only ever meet
//! normal binary32 numbers far from both ends of the exponent range, so every
//! operation is the exact result rounded to a 24-bit significand, to nearest,
//! ties to even.

use vstd::prelude::*;

verus! {

/// `2^n`.
pub open spec fn two_to(n: nat) -> nat
    decreases n,
{
    if n == 0 {
        1
    } else {
        2 * two_to((n - 1) as nat)
    }
}

/// The number of binary digits of `n` (0 for 0).
pub open spec fn bit_length(n: nat) -> nat
    decreases n,
{
    if n == 0 {
        0
    } else {
        1 + bit_length(n / 2)
    }
}

/// The absolute value.
pub open spec fn abs(m: int) -> int {
    if m < 0 {
        -m
    } else {
        m
    }
}

/// The value `m * 2^e`, made a little larger in magnitude when `sticky`,
/// rounded to 24 significant bits: to nearest, ties to even, sign kept.
/// `sticky` stands for a nonzero remainder below the last bit of `m`; it only
/// matters when `m` has more than 24 bits.
pub open spec fn round_significand(m: int, e: int, sticky: bool) -> (int, int) {
    let a = abs(m);
    let n = bit_length(a as nat);
    if n <= 24 {
        (m, e)
    } else {
        let s = (n - 24) as nat;
        let p = two_to(s) as int;
        let q = a / p;
        let r = a % p;
        let up = 2 * r > p || (2 * r == p && (sticky || q % 2 == 1));
        let q2 = if up {
            q + 1
        } else {
            q
        };
        (if m < 0 {
            -q2
        } else {
            q2
        }, e + s)
    }
}

/// The binary32 sum `x + y`.
pub open spec fn single_add(x: (int, int), y: (int, int)) -> (int, int) {
    let e = if x.1 <= y.1 {
        x.1
    } else {
        y.1
    };
    round_significand(
        x.0 * two_to((x.1 - e) as nat) + y.0 * two_to((y.1 - e) as nat),
        e,
        false,
    )
}

/// The binary32 difference `x - y`.
pub open spec fn single_sub(x: (int, int), y: (int, int)) -> (int, int) {
    single_add(x, (-y.0, y.1))
}

/// The binary32 product `x * y`.
pub open spec fn single_mul(x: (int, int), y: (int, int)) -> (int, int) {
    round_significand(x.0 * y.0, x.1 + y.1, false)
}

/// The binary32 quotient `x / 3` of a value that is not negative: the
/// quotient is taken to 32 more bits, and what is left marks it inexact.
pub open spec fn single_third(x: (int, int)) -> (int, int) {
    round_significand((x.0 * two_to(32)) / 3int, x.1 - 32, (x.0 * two_to(32)) % 3int != 0)
}

/// `f32::round`: to the nearest integer, halves away from zero.
pub open spec fn round_half_away(x: (int, int)) -> int {
    if x.1 >= 0 {
        x.0 * two_to(x.1 as nat)
    } else {
        let p = two_to((-x.1) as nat) as int;
        let a = abs(x.0);
        let q = a / p + (if 2 * (a % p) >= p {
            1int
        } else {
            0int
        });
        if x.0 < 0 {
            -q
        } else {
            q
        }
    }
}

/// An integer clamped to `0..=255`.
pub open spec fn clamp_to_byte(v: int) -> u8 {
    if v < 0 {
        0
    } else if v > 255 {
        255
    } else {
        v as u8
    }
}

/// `x.round().clamp(0.0, 255.0) as u8`.
pub open spec fn single_to_byte(x: (int, int)) -> u8 {
    clamp_to_byte(round_half_away(x))
}

/// A binary32 value `mantissa * 2^exponent`.
#[derive(Clone, Copy, Debug, PartialEq, Eq)]
pub struct Single {
    pub mantissa: i64,
    pub exponent: i64,
}

impl View for Single {
    type V = (int, int);

    open spec fn view(&self) -> (int, int) {
        (self.mantissa as int, self.exponent as int)
    }
}

impl Single {
    /// The mantissa fits 25 bits and the exponent stays well inside the range
    /// that the operations below handle.
    pub open spec fn bounded(self) -> bool {
        &&& -0x200_0000 <= self.mantissa <= 0x200_0000
        &&& -200 <= self.exponent <= 100
    }
}

// ---------------------------------------------------------------- lemmas

pub proof fn lemma_two_to_positive(n: nat)
    ensures
        two_to(n) >= 1,
    decreases n,
{
    if n > 0 {
        lemma_two_to_positive((n - 1) as nat);
    }
}

pub proof fn lemma_two_to_adds(a: nat, b: nat)
    ensures
        two_to(a + b) == two_to(a) * two_to(b),
    decreases b,
{
    if b > 0 {
        let b1 = (b - 1) as nat;
        lemma_two_to_adds(a, b1);
        assert((a + b - 1) as nat == a + b1);
        assert(two_to(a + b) == 2 * two_to(a + b1));
        assert(two_to(b) == 2 * two_to(b1));
        let x = two_to(a);
        let y = two_to(b1);
        assert(x * (2 * y) == 2 * (x * y)) by (nonlinear_arith);
    } else {
        assert(two_to(0) == 1);
        assert(a + b == a);
    }
}

pub proof fn lemma_two_to_grows(a: nat, b: nat)
    requires
        a <= b,
    ensures
        two_to(a) <= two_to(b),
    decreases b,
{
    if a < b {
        lemma_two_to_grows(a, (b - 1) as nat);
        lemma_two_to_positive((b - 1) as nat);
    }
}

/// A number below `2^k` has at most `k` binary digits.
pub proof fn lemma_bit_length_below(a: nat, k: nat)
    requires
        a < two_to(k),
    ensures
        bit_length(a) <= k,
    decreases k,
{
    if a > 0 {
        assert(k > 0);
        lemma_bit_length_below(a / 2, (k - 1) as nat);
    }
}

/// A positive number lies in `2^(n-1) .. 2^n` where `n` is its bit length.
pub proof fn lemma_bit_length_range(a: nat)
    requires
        a > 0,
    ensures
        bit_length(a) >= 1,
        two_to((bit_length(a) - 1) as nat) <= a < two_to(bit_length(a)),
    decreases a,
{
    let n = bit_length(a);
    assert(n == 1 + bit_length(a / 2));
    if a >= 2 {
        lemma_bit_length_range(a / 2);
        let m = bit_length(a / 2);
        assert(two_to(n) == 2 * two_to(m));
        assert(two_to(m) == 2 * two_to((m - 1) as nat));
    } else {
        assert(bit_length(0) == 0);
        assert(two_to(1) == 2 * two_to(0));
    }
}

proof fn lemma_two_to_values()
    ensures
        two_to(126) == 0x4000_0000_0000_0000_0000_0000_0000_0000,
        two_to(128) == 0x1_0000_0000_0000_0000_0000_0000_0000_0000,
        two_to(100) == 0x10_0000_0000_0000_0000_0000_0000,
        two_to(32) == 0x1_0000_0000,
        two_to(24) == 0x100_0000,
        two_to(25) == 0x200_0000,
        two_to(27) == 0x800_0000,
        two_to(51) == 0x8_0000_0000_0000,
        two_to(57) == 0x200_0000_0000_0000,
{
    reveal_with_fuel(two_to, 9);
    assert(two_to(8) == 0x100);
    lemma_two_to_adds(8, 8);
    lemma_two_to_adds(16, 8);
    lemma_two_to_adds(16, 16);
    lemma_two_to_adds(32, 32);
    lemma_two_to_adds(64, 32);
    lemma_two_to_adds(96, 4);
    lemma_two_to_adds(64, 64);
    lemma_two_to_adds(124, 2);
    lemma_two_to_adds(100, 24);
    assert(two_to(4) == 16);
    assert(two_to(2) == 4);
    assert(two_to(16) == 0x1_0000);
    assert(two_to(24) == 0x100_0000);
    assert(two_to(32) == 0x1_0000_0000);
    assert(two_to(64) == 0x1_0000_0000_0000_0000);
    assert(two_to(96) == 0x1_0000_0000_0000_0000_0000_0000);
    assert(two_to(100) == 0x10_0000_0000_0000_0000_0000_0000);
    assert(two_to(124) == two_to(100) * two_to(24));
    assert(two_to(124) == 0x10_0000_0000_0000_0000_0000_0000 * 0x100_0000);
    assert(two_to(126) == two_to(124) * 4);
    assert(two_to(128) == two_to(64) * two_to(64));
    lemma_two_to_adds(24, 3);
    lemma_two_to_adds(24, 27);
    lemma_two_to_adds(27, 27);
    lemma_two_to_adds(32, 25);
    lemma_two_to_adds(60, 25);
    assert(two_to(3) == 8);
    assert(two_to(27) == two_to(24) * 8);
    assert(two_to(51) == two_to(24) * two_to(27));
    assert(two_to(54) == two_to(27) * two_to(27));
    assert(two_to(25) == two_to(24) * 2);
    assert(two_to(57) == two_to(32) * two_to(25));
}

// ---------------------------------------------------------------- exec

fn two_to_exec(s: u32) -> (p: u128)
    requires
        s <= 126,
    ensures
        p == two_to(s as nat),
{
    proof {
        lemma_two_to_values();
    }
    let mut p: u128 = 1;
    let mut i: u32 = 0;
    while i < s
        invariant
            i <= s <= 126,
            p == two_to(i as nat),
            two_to(126) == 0x4000_0000_0000_0000_0000_0000_0000_0000,
        decreases s - i,
    {
        proof {
            lemma_two_to_grows((i + 1) as nat, 126);
        }
        p = p * 2;
        i = i + 1;
    }
    p
}

fn bit_length_exec(a: u128) -> (n: u32)
    ensures
        n == bit_length(a as nat),
{
    proof {
        lemma_two_to_values();
        lemma_bit_length_below(a as nat, 128);
    }
    let mut x: u128 = a;
    let mut n: u32 = 0;
    while x > 0
        invariant
            n + bit_length(x as nat) == bit_length(a as nat),
            bit_length(a as nat) <= 128,
        decreases x,
    {
        x = x / 2;
        n = n + 1;
    }
    n
}

/// Rounds `m * 2^e` (a little more when `sticky`) to 24 significant bits.
fn round_significand_exec(m: i128, e: i64, sticky: bool) -> (out: Single)
    requires
        -0x4000_0000_0000_0000_0000_0000_0000_0000 < m < 0x4000_0000_0000_0000_0000_0000_0000_0000,
        -1000 <= e <= 1000,
    ensures
        out@ == round_significand(m as int, e as int, sticky),
        -0x100_0000 <= out.mantissa <= 0x100_0000,
        m >= 0 ==> out.mantissa >= 0,
        e <= out.exponent,
        bit_length(abs(m as int) as nat) <= 24 ==> out.exponent == e,
        bit_length(abs(m as int) as nat) > 24 ==> out.exponent == e + bit_length(
            abs(m as int) as nat,
        ) - 24,
{
    let a: u128 = if m < 0 {
        (-m) as u128
    } else {
        m as u128
    };
    assert(a as int == abs(m as int));
    let n = bit_length_exec(a);
    proof {
        lemma_two_to_values();
        lemma_bit_length_below(a as nat, 126);
    }
    if n <= 24 {
        proof {
            if a > 0 {
                lemma_bit_length_range(a as nat);
                lemma_two_to_grows(n as nat, 24);
            }
        }
        return Single { mantissa: m as i64, exponent: e };
    }
    let s: u32 = n - 24;
    let p: u128 = two_to_exec(s);
    proof {
        lemma_two_to_positive(s as nat);
    }
    let q: u128 = a / p;
    let r: u128 = a % p;
    proof {
        lemma_bit_length_range(a as nat);
        lemma_two_to_adds(s as nat, 24);
        assert(n as nat == s as nat + 24);
        lemma_two_to_positive(s as nat);
        assert(q < 0x100_0000) by (nonlinear_arith)
            requires
                a < p * 0x100_0000,
                p > 0,
                q == a / p,
        ;
        assert(r < p);
        lemma_two_to_grows(s as nat, 126);
    }
    let up: bool = 2 * r > p || (2 * r == p && (sticky || q % 2 == 1));
    let q2: u128 = if up {
        q + 1
    } else {
        q
    };
    let mant: i64 = if m < 0 {
        -(q2 as i64)
    } else {
        q2 as i64
    };
    Single { mantissa: mant, exponent: e + s as i64 }
}

impl Single {
    /// A byte as a binary32 value, exactly.
    pub fn from_byte(b: u8) -> (out: Single)
        ensures
            out@ == (b as int, 0int),
            out.bounded(),
    {
        Single { mantissa: b as i64, exponent: 0 }
    }

    /// The binary32 sum.
    pub fn plus(self, other: Single) -> (out: Single)
        requires
            self.bounded(),
            other.bounded(),
            -100 <= self.exponent - other.exponent <= 100,
        ensures
            out@ == single_add(self@, other@),
            -0x100_0000 <= out.mantissa <= 0x100_0000,
            self.mantissa >= 0 && other.mantissa >= 0 ==> out.mantissa >= 0,
            out.exponent >= (if self.exponent <= other.exponent {
                self.exponent
            } else {
                other.exponent
            }),
            out.exponent <= (if self.exponent <= other.exponent {
                other.exponent
            } else {
                self.exponent
            }) + 3,
    {
        let e: i64 = if self.exponent <= other.exponent {
            self.exponent
        } else {
            other.exponent
        };
        let dx: u32 = (self.exponent - e) as u32;
        let dy: u32 = (other.exponent - e) as u32;
        let px: u128 = two_to_exec(dx);
        let py: u128 = two_to_exec(dy);
        let ghost d: nat = if dx <= dy {
            dy as nat
        } else {
            dx as nat
        };
        proof {
            lemma_two_to_values();
            lemma_two_to_positive(dx as nat);
            lemma_two_to_positive(dy as nat);
            lemma_two_to_grows(dx as nat, d);
            lemma_two_to_grows(dy as nat, d);
            lemma_two_to_grows(d, 100);
            assert(dx == 0 || dy == 0);
            let pd = two_to(d);
            let mx = self.mantissa as int;
            let my = other.mantissa as int;
            assert(-0x200_0000 * pd <= mx * px <= 0x200_0000 * pd) by (nonlinear_arith)
                requires
                    -0x200_0000 <= mx <= 0x200_0000,
                    1 <= px <= pd,
            ;
            assert(-0x200_0000 * pd <= my * py <= 0x200_0000 * pd) by (nonlinear_arith)
                requires
                    -0x200_0000 <= my <= 0x200_0000,
                    1 <= py <= pd,
            ;
            assert(mx >= 0 ==> mx * px >= 0) by (nonlinear_arith)
                requires
                    px >= 1,
            ;
            assert(my >= 0 ==> my * py >= 0) by (nonlinear_arith)
                requires
                    py >= 1,
            ;
            assert(0x200_0000 * pd <= 0x200_0000 * 0x10_0000_0000_0000_0000_0000_0000)
                by (nonlinear_arith)
                requires
                    pd <= 0x10_0000_0000_0000_0000_0000_0000,
            ;
        }
        let mx: i128 = self.mantissa as i128 * px as i128;
        let my: i128 = other.mantissa as i128 * py as i128;
        let sum: i128 = mx + my;
        let out = round_significand_exec(sum, e, false);
        proof {
            let pd = two_to(d);
            lemma_two_to_adds(27, d);
            assert(abs(sum as int) < 0x800_0000 * pd);
            assert(two_to(27 + d) == 0x800_0000 * pd);
            lemma_bit_length_below(abs(sum as int) as nat, 27 + d);
        }
        out
    }

    /// The binary32 difference.
    pub fn minus(self, other: Single) -> (out: Single)
        requires
            self.bounded(),
            other.bounded(),
            -100 <= self.exponent - other.exponent <= 100,
        ensures
            out@ == single_sub(self@, other@),
            -0x100_0000 <= out.mantissa <= 0x100_0000,
            out.exponent >= (if self.exponent <= other.exponent {
                self.exponent
            } else {
                other.exponent
            }),
            out.exponent <= (if self.exponent <= other.exponent {
                other.exponent
            } else {
                self.exponent
            }) + 3,
    {
        let negated = Single { mantissa: -other.mantissa, exponent: other.exponent };
        self.plus(negated)
    }

    /// The binary32 product.
    pub fn times(self, other: Single) -> (out: Single)
        requires
            self.bounded(),
            other.bounded(),
        ensures
            out@ == single_mul(self@, other@),
            -0x100_0000 <= out.mantissa <= 0x100_0000,
            self.exponent + other.exponent <= out.exponent <= self.exponent + other.exponent + 27,
    {
        let mx = self.mantissa as i128;
        let my = other.mantissa as i128;
        assert(-0x4_0000_0000_0000 <= mx * my <= 0x4_0000_0000_0000) by (nonlinear_arith)
            requires
                -0x200_0000 <= mx <= 0x200_0000,
                -0x200_0000 <= my <= 0x200_0000,
        ;
        let product: i128 = mx * my;
        let out = round_significand_exec(product, self.exponent + other.exponent, false);
        proof {
            lemma_two_to_values();
            lemma_bit_length_below(abs(product as int) as nat, 51);
        }
        out
    }

    /// The binary32 quotient by three of a value that is not negative.
    pub fn third(self) -> (out: Single)
        requires
            self.bounded(),
            self.mantissa >= 0,
        ensures
            out@ == single_third(self@),
            -0x100_0000 <= out.mantissa <= 0x100_0000,
            self.exponent - 32 <= out.exponent <= self.exponent + 1,
    {
        proof {
            lemma_two_to_values();
        }
        let scaled: i128 = self.mantissa as i128 * 0x1_0000_0000;
        let q: i128 = scaled / 3;
        let r: i128 = scaled % 3;
        let out = round_significand_exec(q, self.exponent - 32, r != 0);
        proof {
            lemma_bit_length_below(abs(q as int) as nat, 57);
        }
        out
    }

    /// `round().clamp(0.0, 255.0) as u8`.
    pub fn to_byte(self) -> (out: u8)
        requires
            self.bounded(),
            -100 <= self.exponent <= 60,
        ensures
            out == single_to_byte(self@),
    {
        proof {
            lemma_two_to_values();
        }
        let v: i128 = if self.exponent >= 0 {
            let p: u128 = two_to_exec(self.exponent as u32);
            proof {
                lemma_two_to_grows(self.exponent as nat, 100);
                lemma_two_to_positive(self.exponent as nat);
                assert(-0x200_0000 * 0x10_0000_0000_0000_0000_0000_0000 <= self.mantissa * p
                    <= 0x200_0000 * 0x10_0000_0000_0000_0000_0000_0000) by (nonlinear_arith)
                    requires
                        -0x200_0000 <= self.mantissa <= 0x200_0000,
                        1 <= p <= 0x10_0000_0000_0000_0000_0000_0000,
                ;
                lemma_two_to_positive(self.exponent as nat);
            }
            self.mantissa as i128 * p as i128
        } else {
            let p: u128 = two_to_exec((-self.exponent) as u32);
            proof {
                lemma_two_to_positive((-self.exponent) as nat);
                lemma_two_to_grows((-self.exponent) as nat, 100);
            }
            let a: u128 = if self.mantissa < 0 {
                (-self.mantissa) as u128
            } else {
                self.mantissa as u128
            };
            let half_up: u128 = if 2 * (a % p) >= p {
                1
            } else {
                0
            };
            let q: u128 = a / p + half_up;
            assert(q <= a + 1) by (nonlinear_arith)
                requires
                    p >= 1,
                    q == a / p + half_up,
                    half_up <= 1,
            ;
            if self.mantissa < 0 {
                -(q as i128)
            } else {
                q as i128
            }
        };
        if v < 0 {
            0
        } else if v > 255 {
            255
        } else {
            v as u8
        }
    }
}

} // verus!
