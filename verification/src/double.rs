//! Double-precision numbers, held by their bit patterns.
//!
//! Player times and speeds travel as IEEE 754 doubles.  A [`Double`] carries the
//! 64 bits of such a number and decides on them exactly, with integer arithmetic.

use vstd::arithmetic::power2::*;
use vstd::prelude::*;

verus! {

/// The number of distinct fractions: two to the 52.
pub const FRACTIONS: u64 = 0x10_0000_0000_0000;

/// The weight of the sign bit: two to the 63.
pub const SIGN: u64 = 0x8000_0000_0000_0000;

/// An IEEE 754 double, by its bits.
#[derive(Debug, Clone, Copy)]
pub struct Double {
    pub bits: u64,
}

impl Double {
    /// The 52 low bits.
    pub open spec fn fraction(self) -> int {
        (self.bits % FRACTIONS) as int
    }

    /// The eleven bits above the fraction.
    pub open spec fn exponent(self) -> int {
        ((self.bits / FRACTIONS) % 2048) as int
    }

    /// Whether the sign bit is set.
    pub open spec fn negative(self) -> bool {
        self.bits >= SIGN
    }

    /// Not a number.
    pub open spec fn nan(self) -> bool {
        self.exponent() == 2047 && self.fraction() != 0
    }

    /// One of the two infinities.
    pub open spec fn infinite(self) -> bool {
        self.exponent() == 2047 && self.fraction() == 0
    }

    /// Neither infinite nor a NaN.
    pub open spec fn finite(self) -> bool {
        self.exponent() < 2047
    }

    /// The absolute value, counted in the smallest positive double, `2^-1074`.
    /// An infinity counts as the power of two after the largest finite double.
    pub open spec fn magnitude(self) -> int {
        if self.exponent() == 0 {
            self.fraction()
        } else {
            (FRACTIONS + self.fraction()) * pow2((self.exponent() - 1) as nat)
        }
    }

    /// The value, counted in `2^-1074`.
    pub open spec fn units(self) -> int {
        if self.negative() {
            -self.magnitude()
        } else {
            self.magnitude()
        }
    }

    /// What `==` says of two doubles: a NaN equals nothing, and the two zeros are equal.
    pub open spec fn equals(self, other: Double) -> bool {
        !self.nan() && !other.nan() && self.units() == other.units()
    }

    /// What `<` says of two doubles.
    pub open spec fn less(self, other: Double) -> bool {
        !self.nan() && !other.nan() && self.units() < other.units()
    }

    /// The double with these bits.
    pub fn from_bits(bits: u64) -> (d: Double)
        ensures
            d.bits == bits,
    {
        Double { bits }
    }

    /// The bits of the double.
    pub fn to_bits(self) -> (bits: u64)
        ensures
            bits == self.bits,
    {
        self.bits
    }

    /// Positive zero.
    pub fn zero() -> (d: Double)
        ensures
            d.bits == 0,
            d.finite(),
            d.units() == 0,
    {
        Double { bits: 0 }
    }

    /// The number one.
    pub fn one() -> (d: Double)
        ensures
            d.bits == 0x3FF0_0000_0000_0000,
            d.finite(),
            d.units() == pow2(1074),
    {
        let d = Double { bits: 0x3FF0_0000_0000_0000 };
        proof {
            assert(d.fraction() == 0 && d.exponent() == 1023);
            lemma2_to64_rest();
            lemma_pow2_adds(52, 1022);
        }
        d
    }

    /// Whether this is not a number.
    pub fn is_nan(self) -> (r: bool)
        ensures
            r == self.nan(),
    {
        (self.bits / FRACTIONS) % 2048 == 2047 && self.bits % FRACTIONS != 0
    }

    /// Whether this is one of the two infinities.
    pub fn is_infinite(self) -> (r: bool)
        ensures
            r == self.infinite(),
    {
        (self.bits / FRACTIONS) % 2048 == 2047 && self.bits % FRACTIONS == 0
    }

    /// The bits below the sign bit; they order the absolute values.
    fn key(self) -> (k: u64)
        ensures
            k == self.exponent() * FRACTIONS + self.fraction(),
            k < SIGN,
            self.negative() ==> self.bits == SIGN + k,
            !self.negative() ==> self.bits == k,
    {
        self.bits % SIGN
    }

    /// Whether the sign bit is set.
    pub fn is_negative(self) -> (r: bool)
        ensures
            r == self.negative(),
    {
        self.bits >= SIGN
    }

    /// `self < other`.
    pub fn lt(self, other: Double) -> (r: bool)
        ensures
            r == self.less(other),
    {
        proof {
            lemma_magnitude_order(self, other);
            lemma_magnitude_order(other, self);
            lemma_magnitude_zero(self);
            lemma_magnitude_zero(other);
        }
        if self.is_nan() || other.is_nan() {
            false
        } else if self.is_negative() {
            if other.is_negative() {
                other.key() < self.key()
            } else {
                self.key() != 0 || other.key() != 0
            }
        } else if other.is_negative() {
            false
        } else {
            self.key() < other.key()
        }
    }
}

impl PartialEq for Double {
    fn eq(&self, other: &Double) -> (r: bool) {
        proof {
            lemma_magnitude_order(*self, *other);
            lemma_magnitude_order(*other, *self);
            lemma_magnitude_zero(*self);
            lemma_magnitude_zero(*other);
        }
        if self.is_nan() || other.is_nan() {
            false
        } else {
            self.bits == other.bits || (self.key() == 0 && other.key() == 0)
        }
    }
}

impl vstd::std_specs::cmp::PartialEqSpecImpl for Double {
    open spec fn obeys_eq_spec() -> bool {
        true
    }

    open spec fn eq_spec(&self, other: &Double) -> bool {
        self.equals(*other)
    }
}

/// The absolute values are ordered as the bits below the sign bit are, and of two
/// distinct ones the greater is ahead by at least a quarter of its last place.
pub proof fn lemma_magnitude_order(a: Double, b: Double)
    ensures
        a.exponent() * FRACTIONS + a.fraction() < b.exponent() * FRACTIONS + b.fraction()
            <==> a.magnitude() < b.magnitude(),
        a.magnitude() < b.magnitude() ==> a.exponent() <= b.exponent(),
        a.magnitude() < b.magnitude() && b.exponent() >= 2 ==> b.magnitude() - a.magnitude()
            >= pow2((b.exponent() - 2) as nat),
{
    if a.exponent() * FRACTIONS + a.fraction() < b.exponent() * FRACTIONS + b.fraction() {
        lemma_magnitude_gap(a, b);
    }
    if b.exponent() * FRACTIONS + b.fraction() < a.exponent() * FRACTIONS + a.fraction() {
        lemma_magnitude_gap(b, a);
    }
}

proof fn lemma_magnitude_gap(a: Double, b: Double)
    requires
        a.exponent() * FRACTIONS + a.fraction() < b.exponent() * FRACTIONS + b.fraction(),
    ensures
        a.magnitude() < b.magnitude(),
        a.exponent() <= b.exponent(),
        b.exponent() >= 2 ==> b.magnitude() - a.magnitude() >= pow2(
            (b.exponent() - 2) as nat,
        ),
{
    let e = a.exponent();
    let f = b.exponent();
    assert(e <= f);
    if f == 0 {
    } else if e == f {
        let p = pow2((f - 1) as nat);
        lemma_pow2_pos((f - 1) as nat);
        assert((FRACTIONS + b.fraction()) * p - (FRACTIONS + a.fraction()) * p == (b.fraction()
            - a.fraction()) * p) by (nonlinear_arith);
        assert((b.fraction() - a.fraction()) * p >= p) by (nonlinear_arith)
            requires
                b.fraction() - a.fraction() >= 1,
                p > 0,
        ;
        if f >= 2 {
            lemma_pow2_unfold((f - 1) as nat);
        }
    } else {
        // The least value of exponent f lies above everything of a lower exponent.
        let p = pow2((f - 1) as nat);
        lemma_pow2_pos((f - 1) as nat);
        assert((FRACTIONS + b.fraction()) * p >= FRACTIONS * p) by (nonlinear_arith)
            requires
                b.fraction() >= 0,
                p > 0,
        ;
        if e == 0 {
            if f >= 2 {
                let q = pow2((f - 2) as nat);
                lemma_pow2_unfold((f - 1) as nat);
                lemma_pow2_pos((f - 2) as nat);
                assert(FRACTIONS * (2 * q) >= FRACTIONS + q) by (nonlinear_arith)
                    requires
                        q >= 1,
                        FRACTIONS == 0x10_0000_0000_0000,
                ;
            } else {
                lemma2_to64();
            }
        } else {
            let q = pow2((f - 2) as nat);
            let r = pow2((e - 1) as nat);
            lemma_pow2_unfold((f - 1) as nat);
            lemma_pow2_pos((f - 2) as nat);
            lemma_pow2_pos((e - 1) as nat);
            if e < f - 1 {
                lemma_pow2_strictly_increases((e - 1) as nat, (f - 2) as nat);
            }
            assert((FRACTIONS + a.fraction()) * r <= (2 * FRACTIONS - 1) * q) by (nonlinear_arith)
                requires
                    0 <= FRACTIONS + a.fraction() <= 2 * FRACTIONS - 1,
                    0 < r <= q,
            ;
            assert(FRACTIONS * (2 * q) - (2 * FRACTIONS - 1) * q == q) by (nonlinear_arith);
        }
    }
}

/// Nothing but the two zeros has the absolute value zero.
proof fn lemma_magnitude_zero(a: Double)
    ensures
        a.magnitude() >= 0,
        a.magnitude() == 0 <==> a.exponent() == 0 && a.fraction() == 0,
{
    if a.exponent() > 0 {
        let p = pow2((a.exponent() - 1) as nat);
        lemma_pow2_pos((a.exponent() - 1) as nat);
        assert((FRACTIONS + a.fraction()) * p > 0) by (nonlinear_arith)
            requires
                FRACTIONS + a.fraction() > 0,
                p > 0,
        ;
    }
}

/// `r` is the double nearest to the exact value `d`, and of two equally near ones
/// the one whose last fraction bit is zero.  Since an infinity counts as the power of
/// two after the largest finite double, this is also when a value overflows to it.
pub open spec fn rounds_to(d: int, r: Double) -> bool {
    &&& !r.nan()
    &&& forall|s: Double| !s.nan() ==> distance(d, r) <= #[trigger] distance(d, s)
    &&& forall|s: Double|
        !s.nan() && s.units() != r.units() && distance(d, r) == #[trigger] distance(d, s)
            ==> r.fraction() % 2 == 0
}

/// How far the double `s` lies from the exact value `d`.
pub open spec fn distance(d: int, s: Double) -> int {
    if s.units() <= d {
        d - s.units()
    } else {
        s.units() - d
    }
}

/// The bits `t * 2^52 + q` are those of the double `q * 2^t`.
proof fn lemma_encode(t: nat, q: int, r: Double)
    requires
        t <= 2045,
        0 <= q <= 2 * FRACTIONS,
        q >= FRACTIONS || t == 0,
        r.bits == t * FRACTIONS + q,
    ensures
        !r.nan(),
        !r.negative(),
        r.magnitude() == q * pow2(t),
        r.units() == q * pow2(t),
        r.fraction() % 2 == q % 2,
{
    lemma2_to64();
    if q < FRACTIONS {
        assert(r.exponent() == 0);
    } else if q < 2 * FRACTIONS {
        assert(r.bits == (t + 1) * FRACTIONS + (q - FRACTIONS));
        assert(r.exponent() == t + 1 && r.fraction() == q - FRACTIONS);
    } else {
        assert(r.bits == (t + 2) * FRACTIONS);
        assert(r.exponent() == t + 2 && r.fraction() == 0);
        lemma_pow2_unfold((t + 1) as nat);
        assert(FRACTIONS * (2 * pow2(t)) == (2 * FRACTIONS) * pow2(t)) by (nonlinear_arith);
    }
}

/// From `2^52 * 2^t` on, all doubles are multiples of `2^t`.
proof fn lemma_grid(t: nat, s: Double) -> (j: int)
    requires
        s.magnitude() >= FRACTIONS * pow2(t),
    ensures
        s.magnitude() == j * pow2(t),
        j >= FRACTIONS,
{
    lemma_pow2_pos(t);
    if s.exponent() == 0 {
        assert(FRACTIONS * pow2(t) >= FRACTIONS) by (nonlinear_arith)
            requires
                pow2(t) >= 1,
                FRACTIONS > 0,
        ;
        assert(false);
    }
    let e = (s.exponent() - 1) as nat;
    let m = FRACTIONS + s.fraction();
    if e < t {
        lemma_pow2_pos(e);
        lemma_pow2_unfold(t);
        if e < t - 1 {
            lemma_pow2_strictly_increases(e, (t - 1) as nat);
        }
        assert(m * pow2(e) < FRACTIONS * (2 * pow2((t - 1) as nat))) by (nonlinear_arith)
            requires
                0 < m < 2 * FRACTIONS,
                0 < pow2(e) <= pow2((t - 1) as nat),
        ;
        assert(false);
    }
    let k = (e - t) as nat;
    lemma_pow2_adds(t, k);
    assert(m * (pow2(t) * pow2(k)) == (m * pow2(k)) * pow2(t)) by (nonlinear_arith);
    lemma_pow2_pos(k);
    assert(m * pow2(k) >= m) by (nonlinear_arith)
        requires
            m > 0,
            pow2(k) >= 1,
    ;
    m * pow2(k)
}

/// Between two neighbouring multiples of `2^t` the nearer one is the nearest double.
proof fn lemma_nearest_of_two(t: nat, q: int, rest: int, up: bool, r: Double)
    requires
        t <= 2045,
        0 <= rest < pow2(t),
        q < 2 * FRACTIONS,
        q >= FRACTIONS || (t == 0 && q >= 0),
        up ==> 2 * rest >= pow2(t),
        !up ==> 2 * rest <= pow2(t),
        2 * rest == pow2(t) ==> (if up {
            q + 1
        } else {
            q
        }) % 2 == 0,
        r.bits == t * FRACTIONS + (if up {
            q + 1
        } else {
            q
        }),
    ensures
        !r.nan(),
        !r.negative(),
        rounds_to(q * pow2(t) + rest, r),
{
    let p = pow2(t) as int;
    let d = q * p + rest;
    let c = if up {
        q + 1
    } else {
        q
    };
    lemma_pow2_pos(t);
    lemma2_to64();
    lemma_encode(t, c, r);
    assert((q + 1) * p == q * p + p) by (nonlinear_arith);
    assert(q * p >= 0) by (nonlinear_arith)
        requires
            q >= 0,
            p > 0,
    ;
    assert forall|s: Double| !s.nan() implies distance(d, r) <= #[trigger] distance(d, s) && (
    s.units() != r.units() && distance(d, r) == distance(d, s) ==> r.fraction() % 2 == 0) by {
        lemma_magnitude_zero(s);
        if s.negative() || s.magnitude() < FRACTIONS * p {
            if t == 0 {
                assert(q * p == q) by (nonlinear_arith)
                    requires
                        p == 1,
                ;
            } else {
                assert(FRACTIONS * p <= q * p) by (nonlinear_arith)
                    requires
                        FRACTIONS <= q,
                        p > 0,
                ;
            }
        } else {
            let j = lemma_grid(t, s);
            if j <= q {
                assert(j * p <= q * p) by (nonlinear_arith)
                    requires
                        j <= q,
                        p > 0,
                ;
            } else {
                assert(j * p >= (q + 1) * p) by (nonlinear_arith)
                    requires
                        j >= q + 1,
                        p > 0,
                ;
            }
        }
    }
}

/// What is at least the infinity is nearest to it.
proof fn lemma_nearest_is_infinity(d: int, r: Double)
    requires
        r.bits == 2047 * FRACTIONS,
        d >= FRACTIONS * pow2(2046),
    ensures
        rounds_to(d, r),
{
    assert(r.exponent() == 2047 && r.fraction() == 0);
    assert forall|s: Double| !s.nan() implies distance(d, r) <= #[trigger] distance(d, s) by {
        lemma_magnitude_order(r, s);
        lemma_magnitude_zero(s);
        lemma_magnitude_zero(r);
    }
}

/// Something far below the last place of a double does not move it.
proof fn lemma_nearest_when_far(r: Double, d: int)
    requires
        r.finite(),
        r.exponent() >= 66,
        distance(d, r) < pow2((r.exponent() - 13) as nat),
    ensures
        rounds_to(d, r),
{
    let t = (r.exponent() - 1) as nat;
    let h = (t - 1) as nat;
    let p = pow2(h) as int;
    let m = FRACTIONS + r.fraction();
    lemma_pow2_unfold(t);
    lemma_pow2_unfold(h);
    lemma_pow2_pos((h - 1) as nat);
    lemma_pow2_strictly_increases((t - 12) as nat, (h - 1) as nat);
    assert(m * (2 * p) == (2 * m) * p) by (nonlinear_arith);
    assert(r.magnitude() == (2 * m) * p);
    assert((2 * m) * p >= FRACTIONS * p + p) by (nonlinear_arith)
        requires
            2 * m >= FRACTIONS + 1,
            p > 0,
    ;
    assert(FRACTIONS * p > 0) by (nonlinear_arith)
        requires
            p > 0,
            FRACTIONS > 0,
    ;
    assert forall|s: Double|
        !s.nan() && s.units() != r.units() implies distance(d, r) < #[trigger] distance(d, s) by {
        lemma_magnitude_zero(s);
        if s.magnitude() < FRACTIONS * p {
        } else {
            let j = lemma_grid(h, s);
            if s.negative() == r.negative() {
                assert(j != 2 * m);
                if j < 2 * m {
                    assert(j * p <= (2 * m) * p - p) by (nonlinear_arith)
                        requires
                            j + 1 <= 2 * m,
                            p > 0,
                    ;
                } else {
                    assert(j * p >= (2 * m) * p + p) by (nonlinear_arith)
                        requires
                            j >= 2 * m + 1,
                            p > 0,
                    ;
                }
            }
        }
    }
}

/// Rounding treats both signs alike.
proof fn lemma_rounds_negated(d: int, r: Double, n: Double)
    requires
        rounds_to(d, r),
        n.exponent() == r.exponent(),
        n.fraction() == r.fraction(),
        n.negative() != r.negative(),
    ensures
        rounds_to(-d, n),
{
    assert forall|s: Double| !s.nan() implies distance(-d, n) <= #[trigger] distance(-d, s) && (
    s.units() != n.units() && distance(-d, n) == distance(-d, s) ==> n.fraction() % 2 == 0) by {
        let m = Double {
            bits: (if s.bits >= SIGN {
                s.bits - SIGN
            } else {
                s.bits + SIGN
            }) as u64,
        };
        assert(m.exponent() == s.exponent() && m.fraction() == s.fraction());
        assert(m.units() == -s.units());
        assert(distance(d, m) == distance(-d, s));
    }
}

/// The double nearest to `n * 2^t`.
fn round(n: u128, t: u64) -> (r: Double)
    requires
        n < 0x40_0000_0000_0000_0000_0000_0000_0000,
        t <= 2045,
    ensures
        !r.negative(),
        rounds_to(n * pow2(t as nat), r),
{
    let mut n: u128 = n;
    let mut t: u64 = t;
    let ghost d = n * pow2(t as nat);
    proof {
        lemma2_to64();
        lemma2_to64_rest();
    }
    while n < FRACTIONS as u128 && t > 0
        invariant
            t <= 2045,
            n < 0x40_0000_0000_0000_0000_0000_0000_0000,
            d == n * pow2(t as nat),
        decreases t,
    {
        proof {
            lemma_pow2_unfold(t as nat);
            assert(n * (2 * pow2((t - 1) as nat)) == (2 * n) * pow2((t - 1) as nat))
                by (nonlinear_arith);
        }
        n = 2 * n;
        t = t - 1;
    }
    let mut p: u128 = 1;
    let mut k: u64 = 0;
    proof {
        assert(n / p == n);
    }
    while n / p >= 2 * FRACTIONS as u128
        invariant
            0 < p <= 0x4_0000_0000_0000_0000,
            k <= 66,
            p == pow2(k as nat),
            n < 0x40_0000_0000_0000_0000_0000_0000_0000,
            n / p >= FRACTIONS || (k == 0 && t == 0),
        decreases 66 - k,
    {
        proof {
            lemma2_to64();
            lemma2_to64_rest();
            lemma_pow2_unfold((k + 1) as nat);
            if k >= 65 {
                lemma_pow2_unfold(65);
                lemma_pow2_unfold(66);
                assert(n / p < 0x20_0000_0000_0000) by (nonlinear_arith)
                    requires
                        p >= 0x2_0000_0000_0000_0000,
                        n < 0x40_0000_0000_0000_0000_0000_0000_0000,
                ;
                assert(false);
            }
            if k >= 1 {
                lemma_pow2_strictly_increases(k as nat, 65);
                lemma_pow2_unfold(65);
            }
            vstd::arithmetic::div_mod::lemma_div_denominator(n as int, p as int, 2);
        }
        p = 2 * p;
        k = k + 1;
    }
    let q: u64 = (n / p) as u64;
    let rest: u128 = n % p;
    let top: u64 = t + k;
    let ghost w = rest * pow2(t as nat);
    proof {
        let a = pow2(t as nat) as int;
        lemma_pow2_pos(t as nat);
        lemma_pow2_adds(k as nat, t as nat);
        assert(n == q * p + rest) by (nonlinear_arith)
            requires
                p > 0,
                q == n / p,
                rest == n % p,
        ;
        assert((q * p + rest) * a == q * (p * a) + rest * a) by (nonlinear_arith);
        assert(d == q * pow2(top as nat) + w);
        assert(0 <= rest * a < p * a) by (nonlinear_arith)
            requires
                0 <= rest < p,
                a > 0,
        ;
    }
    if top >= 2046 {
        let r = Double { bits: 0x7FF0_0000_0000_0000 };
        proof {
            assert(q >= FRACTIONS);
            if top > 2046 {
                lemma_pow2_strictly_increases(2046, top as nat);
            }
            lemma_pow2_pos(2046);
            assert(q * pow2(top as nat) >= FRACTIONS * pow2(2046)) by (nonlinear_arith)
                requires
                    q >= FRACTIONS,
                    pow2(top as nat) >= pow2(2046) > 0,
            ;
            lemma_nearest_is_infinity(d, r);
        }
        return r;
    }
    let up = 2 * rest > p || (2 * rest == p && q % 2 == 1);
    let c: u64 = if up {
        q + 1
    } else {
        q
    };
    let r = Double { bits: top * FRACTIONS + c };
    proof {
        let a = pow2(t as nat) as int;
        assert((2 * rest) * a == 2 * (rest * a)) by (nonlinear_arith);
        if 2 * rest > p {
            assert((2 * rest) * a > p * a) by (nonlinear_arith)
                requires
                    2 * rest > p,
                    a > 0,
            ;
        } else if 2 * rest < p {
            assert((2 * rest) * a < p * a) by (nonlinear_arith)
                requires
                    2 * rest < p,
                    a > 0,
            ;
        }
        if up && k == 0 {
            assert(false);
        }
        lemma_nearest_of_two(top as nat, q as int, w, up, r);
    }
    r
}

/// `m * 2^k`.
fn shifted(m: u64, k: u64) -> (n: u128)
    requires
        m < 2 * FRACTIONS,
        k <= 64,
    ensures
        n == m * pow2(k as nat),
        n < 0x20_0000_0000_0000_0000_0000_0000_0000,
{
    let mut n: u128 = m as u128;
    let mut i: u64 = 0;
    proof {
        lemma2_to64();
        assert(m * 1 == m);
    }
    while i < k
        invariant
            i <= k <= 64,
            m < 2 * FRACTIONS,
            n == m * pow2(i as nat),
            n < 0x20_0000_0000_0000_0000_0000_0000_0000,
        decreases k - i,
    {
        proof {
            lemma_pow2_unfold((i + 1) as nat);
            assert(m * (2 * pow2(i as nat)) == 2 * (m * pow2(i as nat))) by (nonlinear_arith);
            lemma2_to64_rest();
            lemma_pow2_pos(i as nat);
            if i < 63 {
                lemma_pow2_strictly_increases(i as nat, 63);
            }
            assert(m * pow2(i as nat) < (2 * FRACTIONS) * 0x8000_0000_0000_0000)
                by (nonlinear_arith)
                requires
                    0 <= m < 2 * FRACTIONS,
                    0 < pow2(i as nat) <= 0x8000_0000_0000_0000,
            ;
        }
        n = 2 * n;
        i = i + 1;
    }
    n
}

/// What lies off zero does not round to zero.
proof fn lemma_rounds_off_zero(d: int, r: Double)
    requires
        rounds_to(d, r),
        r.units() == 0,
    ensures
        d == 0,
{
    let up = Double { bits: 1 };
    let down = Double { bits: 0x8000_0000_0000_0001 };
    assert(up.exponent() == 0 && up.fraction() == 1 && !up.negative());
    assert(down.exponent() == 0 && down.fraction() == 1 && down.negative());
    assert(distance(d, r) <= distance(d, up));
    assert(distance(d, r) <= distance(d, down));
}

impl Double {
    /// The number with the sign bit set as asked.
    fn signed(self, negative: bool) -> (r: Double)
        ensures
            r.exponent() == self.exponent(),
            r.fraction() == self.fraction(),
            r.negative() == negative,
            r.magnitude() == self.magnitude(),
    {
        let key: u64 = self.key();
        if negative {
            Double { bits: SIGN + key }
        } else {
            Double { bits: key }
        }
    }

    /// A finite double as `m * 2^t`.
    fn parts(self) -> (mt: (u64, u64))
        requires
            self.finite(),
        ensures
            self.magnitude() == mt.0 * pow2(mt.1 as nat),
            mt.0 < 2 * FRACTIONS,
            mt.1 <= 2045,
            mt.1 == (if self.exponent() == 0 {
                0
            } else {
                self.exponent() - 1
            }),
    {
        proof {
            lemma2_to64();
        }
        let exponent: u64 = (self.bits / FRACTIONS) % 2048;
        let fraction: u64 = self.bits % FRACTIONS;
        if exponent == 0 {
            assert(fraction * 1 == fraction);
            (fraction, 0)
        } else {
            (FRACTIONS + fraction, exponent - 1)
        }
    }

    /// `r` is `a - b`, rounded to the nearest double.
    pub open spec fn difference(a: Double, b: Double, r: Double) -> bool {
        if a.nan() || b.nan() || (a.infinite() && b.infinite() && a.negative() == b.negative()) {
            r.nan()
        } else if a.infinite() {
            r == a
        } else if b.infinite() {
            r.infinite() && r.negative() != b.negative()
        } else {
            &&& rounds_to(a.units() - b.units(), r)
            &&& r.units() == 0 ==> (r.negative() <==> a.negative() && !b.negative())
        }
    }

    /// `self - other`, rounded to the nearest double.
    pub fn minus(self, other: Double) -> (r: Double)
        ensures
            Double::difference(self, other, r),
    {
        if self.is_nan() || other.is_nan() {
            let r = Double { bits: 0x7FF8_0000_0000_0000 };
            assert(r.exponent() == 2047 && r.fraction() != 0);
            return r;
        }
        if self.is_infinite() {
            if other.is_infinite() && self.is_negative() == other.is_negative() {
                let r = Double { bits: 0x7FF8_0000_0000_0000 };
                assert(r.exponent() == 2047 && r.fraction() != 0);
                return r;
            }
            return self;
        }
        if other.is_infinite() {
            return other.signed(!other.is_negative());
        }
        let added: Double = other.signed(!other.is_negative());
        proof {
            lemma_magnitude_order(self, added);
            lemma_magnitude_order(added, self);
            lemma_magnitude_zero(self);
            lemma_magnitude_zero(added);
        }
        let r = if self.key() < added.key() {
            Double::sum(added, self)
        } else {
            Double::sum(self, added)
        };
        proof {
            if r.units() == 0 {
                lemma_rounds_off_zero(self.units() - other.units(), r);
            }
        }
        r
    }

    /// `big + small`, rounded to the nearest double.
    fn sum(big: Double, small: Double) -> (r: Double)
        requires
            big.finite(),
            small.finite(),
            big.magnitude() >= small.magnitude(),
        ensures
            rounds_to(big.units() + small.units(), r),
            big.units() + small.units() == 0 ==> (r.negative() <==> big.negative()
                && small.negative()),
    {
        let (m, t) = big.parts();
        let (n, u) = small.parts();
        let down: bool = big.is_negative();
        let same: bool = down == small.is_negative();
        let ghost d = if same {
            big.magnitude() + small.magnitude()
        } else {
            big.magnitude() - small.magnitude()
        };
        proof {
            lemma_magnitude_order(big, small);
            lemma_magnitude_order(small, big);
            lemma_magnitude_zero(big);
            lemma_magnitude_zero(small);
            if big.magnitude() == small.magnitude() {
                assert(big.exponent() * FRACTIONS + big.fraction() == small.exponent() * FRACTIONS
                    + small.fraction());
                assert(big.exponent() == small.exponent());
            }
            assert(u <= t);
        }
        if t - u > 64 {
            proof {
                lemma_pow2_adds(53, u as nat);
                lemma2_to64_rest();
                lemma_pow2_pos(u as nat);
                assert(n * pow2(u as nat) < (2 * FRACTIONS) * pow2(u as nat)) by (nonlinear_arith)
                    requires
                        0 <= n < 2 * FRACTIONS,
                        pow2(u as nat) > 0,
                ;
                if 53 + u < t - 12 {
                    lemma_pow2_strictly_increases((53 + u) as nat, (t - 12) as nat);
                }
                lemma_nearest_when_far(big, big.units() + small.units());
            }
            return big;
        }
        let k: u64 = t - u;
        let wide: u128 = shifted(m, k);
        proof {
            lemma_pow2_adds(k as nat, u as nat);
            assert(m * (pow2(k as nat) * pow2(u as nat)) == wide * pow2(u as nat))
                by (nonlinear_arith)
                requires
                    wide == m * pow2(k as nat),
            ;
            lemma_pow2_pos(u as nat);
            if wide < n {
                assert(wide * pow2(u as nat) < n * pow2(u as nat)) by (nonlinear_arith)
                    requires
                        wide < n,
                        pow2(u as nat) > 0,
                ;
            }
        }
        let total: u128 = if same {
            wide + n as u128
        } else {
            wide - n as u128
        };
        proof {
            let a = pow2(u as nat) as int;
            assert((wide + n) * a == wide * a + n * a) by (nonlinear_arith);
            assert((wide - n) * a == wide * a - n * a) by (nonlinear_arith);
            assert(d == total * a);
            if d == 0 {
                assert(total == 0) by (nonlinear_arith)
                    requires
                        total * a == 0,
                        a > 0,
                ;
            }
        }
        let near: Double = round(total, u);
        let negative: bool = down && (same || total != 0);
        let r: Double = near.signed(negative);
        proof {
            if negative {
                lemma_rounds_negated(d, near, r);
            } else {
                assert(r.bits == near.bits);
                if down {
                    assert(d == 0);
                }
            }
        }
        r
    }
}

/// Five, counted in `2^-1074`, and half the step from five to the next double.
pub open spec fn just_over_five() -> int {
    (5 * pow2(1074) + pow2(1023)) as int
}

/// A difference rounds to more than five exactly if it exceeds five by more than half
/// the step to the next double: half a step still rounds down, to the even neighbour.
pub proof fn lemma_rounds_above_five(d: int, r: Double, five: Double)
    requires
        rounds_to(d, r),
        five.bits == 0x4014_0000_0000_0000,
    ensures
        five.units() == 5 * pow2(1074),
        five.less(r) <==> d > just_over_five(),
{
    let next = Double { bits: 0x4014_0000_0000_0001 };
    let h = pow2(1023) as int;
    assert(five.exponent() == 1025 && five.fraction() == 0x4_0000_0000_0000 && !five.negative());
    assert(next.exponent() == 1025 && next.fraction() == 0x4_0000_0000_0001 && !next.negative());
    lemma_pow2_unfold(1024);
    lemma_pow2_adds(50, 1024);
    lemma2_to64();
    lemma2_to64_rest();
    lemma_pow2_pos(1023);
    assert(five.units() == 5 * pow2(1074));
    assert(next.units() == five.units() + 2 * h);
    assert(distance(d, r) <= distance(d, five));
    assert(distance(d, r) <= distance(d, next));
    lemma_magnitude_zero(r);
    lemma_magnitude_order(five, r);
    lemma_magnitude_order(r, next);
    if five.less(r) && d <= just_over_five() {
        // r is at least the next double, and no nearer to d than five is.
        assert(!r.negative());
        assert(r.units() >= next.units());
        assert(distance(d, five) == distance(d, r));
        assert(r.units() == next.units());
        lemma_magnitude_order(next, r);
        assert(r.fraction() == next.fraction());
        assert(false);
    }
}

impl Double {
    /// What `max - min > 5.` says of two doubles.
    pub open spec fn over_five_apart(max: Double, min: Double) -> bool {
        if max.nan() || min.nan() {
            false
        } else if max.infinite() {
            !max.negative() && !(min.infinite() && !min.negative())
        } else if min.infinite() {
            min.negative()
        } else {
            max.units() - min.units() > just_over_five()
        }
    }

    /// `self - other > 5.`
    pub fn exceeds_by_five(self, other: Double) -> (r: bool)
        ensures
            r == Double::over_five_apart(self, other),
    {
        let five = Double { bits: 0x4014_0000_0000_0000 };
        let gap = self.minus(other);
        proof {
            assert(five.exponent() == 1025 && !five.negative());
            lemma_magnitude_zero(five);
            lemma_magnitude_zero(gap);
            lemma_magnitude_order(five, gap);
            if self.finite() && other.finite() {
                lemma_rounds_above_five(self.units() - other.units(), gap, five);
            }
        }
        five.lt(gap)
    }

    /// What `floor() as u32` makes of a double: whole units, none for what is negative or
    /// NaN, and the largest `u32` for what is too great.
    pub open spec fn whole(self) -> int {
        if self.nan() || self.units() < 0 {
            0
        } else if self.units() / (pow2(1074) as int) > u32::MAX {
            u32::MAX as int
        } else {
            self.units() / (pow2(1074) as int)
        }
    }

    /// `self.floor() as u32`.
    pub fn floor_u32(self) -> (r: u32)
        ensures
            r == self.whole(),
    {
        proof {
            lemma_magnitude_zero(self);
            lemma_pow2_pos(1074);
        }
        if self.is_nan() || self.is_negative() {
            return 0;
        }
        let exponent: u64 = (self.bits / FRACTIONS) % 2048;
        let m: u64 = FRACTIONS + self.bits % FRACTIONS;
        if exponent < 1023 {
            proof {
                if exponent == 0 {
                    lemma_pow2_strictly_increases(52, 1074);
                    lemma2_to64_rest();
                } else {
                    lemma_pow2_adds(53, (exponent - 1) as nat);
                    lemma2_to64_rest();
                    lemma_pow2_pos((exponent - 1) as nat);
                    assert(m * pow2((exponent - 1) as nat) < (2 * FRACTIONS) * pow2(
                        (exponent - 1) as nat,
                    )) by (nonlinear_arith)
                        requires
                            0 <= m < 2 * FRACTIONS,
                            pow2((exponent - 1) as nat) > 0,
                    ;
                    if exponent < 1022 {
                        lemma_pow2_strictly_increases((52 + exponent) as nat, 1074);
                    }
                }
                vstd::arithmetic::div_mod::lemma_basic_div(self.units(), pow2(1074) as int);
            }
            return 0;
        }
        if exponent >= 1055 {
            proof {
                let a = pow2(1074) as int;
                lemma_pow2_adds(52, (exponent - 1) as nat);
                lemma_pow2_adds(32, 1074);
                lemma2_to64();
                lemma2_to64_rest();
                lemma_pow2_pos((exponent - 1) as nat);
                if exponent > 1055 {
                    lemma_pow2_strictly_increases(1106, (51 + exponent) as nat);
                }
                assert(m * pow2((exponent - 1) as nat) >= FRACTIONS * pow2((exponent - 1) as nat))
                    by (nonlinear_arith)
                    requires
                        m >= FRACTIONS,
                        pow2((exponent - 1) as nat) > 0,
                ;
                assert(self.units() >= 0x1_0000_0000 * a);
                assert(self.units() / a >= 0x1_0000_0000) by (nonlinear_arith)
                    requires
                        self.units() >= 0x1_0000_0000 * a,
                        a > 0,
                ;
            }
            return u32::MAX;
        }
        let k: u64 = 1075 - exponent;
        let mut p: u64 = 1;
        let mut i: u64 = 0;
        proof {
            lemma2_to64();
        }
        while i < k
            invariant
                i <= k <= 52,
                p == pow2(i as nat),
                0 < p <= 0x10_0000_0000_0000,
            decreases k - i,
        {
            proof {
                lemma_pow2_unfold((i + 1) as nat);
                lemma2_to64_rest();
                if i + 1 < 52 {
                    lemma_pow2_strictly_increases((i + 1) as nat, 52);
                }
            }
            p = 2 * p;
            i = i + 1;
        }
        let whole: u64 = m / p;
        proof {
            let a = pow2((exponent - 1) as nat) as int;
            lemma_pow2_pos((exponent - 1) as nat);
            lemma_pow2_pos(k as nat);
            lemma_pow2_adds(k as nat, (exponent - 1) as nat);
            // (m * a) / (p * a) == m / p
            vstd::arithmetic::div_mod::lemma_truncate_middle(m as int, p as int, a);
            vstd::arithmetic::div_mod::lemma_div_denominator(m * a, a, p as int);
            vstd::arithmetic::div_mod::lemma_div_multiples_vanish(m as int, a);
            assert(p * a == a * p && m * a == a * m) by (nonlinear_arith);
            assert(self.units() / (pow2(1074) as int) == whole);
            // The quotient stays below 2^32.
            if k > 21 {
                lemma_pow2_strictly_increases(21, k as nat);
            }
            lemma2_to64();
            assert(m / p < 0x1_0000_0000) by (nonlinear_arith)
                requires
                    0 <= m < 0x20_0000_0000_0000,
                    p >= 0x20_0000,
            ;
        }
        whole as u32
    }
}

/// Two numbers that are over five apart stay so as the greater grows and the lesser
/// shrinks.
pub proof fn lemma_over_five_apart_widens(hi: Double, lo: Double, max: Double, min: Double)
    requires
        Double::over_five_apart(hi, lo),
        !max.nan(),
        !min.nan(),
        hi.units() <= max.units(),
        min.units() <= lo.units(),
    ensures
        Double::over_five_apart(max, min),
{
    lemma_magnitude_zero(hi);
    lemma_magnitude_zero(lo);
    lemma_magnitude_zero(max);
    lemma_magnitude_zero(min);
    lemma_magnitude_order(hi, max);
    lemma_magnitude_order(max, hi);
    lemma_magnitude_order(lo, min);
    lemma_magnitude_order(min, lo);
}

/// Nothing is over five apart from what equals it.
pub proof fn lemma_equal_not_apart(a: Double, b: Double)
    requires
        a.units() == b.units(),
    ensures
        !Double::over_five_apart(a, b),
{
    lemma_magnitude_zero(a);
    lemma_magnitude_zero(b);
    lemma_magnitude_order(a, b);
    lemma_magnitude_order(b, a);
    lemma_pow2_pos(1074);
    lemma_pow2_pos(1023);
}

/// From one double to the next the value grows by one step, which is the smallest positive
/// double up to twice the smallest normal one, and doubles with every exponent after that.
#[verifier::spinoff_prover]
pub proof fn law_next_double_is_one_step_ahead(d: Double, next: Double)
    requires
        d.bits < 0x7FF0_0000_0000_0000,
        next.bits == d.bits + 1,
    ensures
        next.units() - d.units() == pow2(
            if d.bits < 0x10_0000_0000_0000 {
                0
            } else {
                (d.bits / 0x10_0000_0000_0000 - 1) as nat
            },
        ),
{
    let q = (d.bits / FRACTIONS) as int;
    let f = (d.bits % FRACTIONS) as int;
    assert(d.bits == q * FRACTIONS + f && 0 <= f < FRACTIONS && 0 <= q < 2047);
    assert(d.exponent() == q && d.fraction() == f);
    assert(q == 0 <==> d.bits < FRACTIONS);
    assert(!d.negative() && !next.negative());
    if f + 1 < FRACTIONS {
        assert(next.bits / FRACTIONS == q && next.bits % FRACTIONS == f + 1);
        assert(next.exponent() == q && next.fraction() == f + 1);
    } else {
        assert(next.bits == (q + 1) * FRACTIONS);
        assert(next.bits / FRACTIONS == q + 1 && next.bits % FRACTIONS == 0);
        assert(next.exponent() == q + 1 && next.fraction() == 0);
    }
    if q == 0 {
        lemma2_to64();
        assert(d.units() == f);
        assert(next.units() == f + 1);
    } else {
        let p = pow2((q - 1) as nat) as int;
        assert(d.units() == (FRACTIONS + f) * p);
        if f + 1 < FRACTIONS {
            assert(next.units() == (FRACTIONS + (f + 1)) * p);
            assert((FRACTIONS + (f + 1)) * p - (FRACTIONS + f) * p == p) by (nonlinear_arith);
        } else {
            lemma_pow2_unfold(q as nat);
            assert(next.units() == FRACTIONS * (2 * p));
            assert(FRACTIONS * (2 * p) - (FRACTIONS + f) * p == p) by (nonlinear_arith)
                requires
                    f == FRACTIONS - 1,
            ;
        }
    }
}

/// The double without any bit is zero, and the sign bit turns a value into its opposite.
pub proof fn law_sign_bit_negates(d: Double, n: Double)
    requires
        d.bits < 0x8000_0000_0000_0000,
        n.bits == d.bits + 0x8000_0000_0000_0000,
    ensures
        d.bits == 0 ==> d.units() == 0,
        n.units() == -d.units(),
        n.nan() == d.nan(),
        n.infinite() == d.infinite(),
        n.finite() == d.finite(),
{
    assert(n.bits % FRACTIONS == d.bits % FRACTIONS);
    assert((n.bits / FRACTIONS) % 2048 == (d.bits / FRACTIONS) % 2048);
}

/// Which doubles are finite, infinite or no number, by their bits below the sign bit.
pub proof fn law_doubles_fall_into_classes(d: Double)
    ensures
        d.finite() <==> d.bits % 0x8000_0000_0000_0000 < 0x7FF0_0000_0000_0000,
        d.infinite() <==> d.bits % 0x8000_0000_0000_0000 == 0x7FF0_0000_0000_0000,
        d.nan() <==> d.bits % 0x8000_0000_0000_0000 > 0x7FF0_0000_0000_0000,
{
    let k = (d.bits % SIGN) as int;
    assert(k == d.exponent() * FRACTIONS + d.fraction());
}

/// Doubles are told to be less, or equal, by their values; a NaN is neither.
pub proof fn law_doubles_are_compared_by_value(a: Double, b: Double, less: bool, equal: bool)
    requires
        call_ensures(Double::lt, (a, b), less),
        call_ensures(<Double as PartialEq>::eq, (&a, &b), equal),
    ensures
        a.nan() || b.nan() ==> !less && !equal,
        !a.nan() && !b.nan() ==> (less <==> a.units() < b.units()) && (equal <==> a.units()
            == b.units()),
{
}

/// A difference of finite doubles is a double nearest to the exact difference; halfway
/// between two it is the even one.  Where the exact difference is a double, it is that one.
pub proof fn law_difference_is_the_nearest_double(a: Double, b: Double, r: Double, s: Double)
    requires
        a.finite(),
        b.finite(),
        !s.nan(),
        call_ensures(Double::minus, (a, b), r),
    ensures
        !r.nan(),
        ({
            let d = a.units() - b.units();
            let off_r = if r.units() <= d {
                d - r.units()
            } else {
                r.units() - d
            };
            let off_s = if s.units() <= d {
                d - s.units()
            } else {
                s.units() - d
            };
            &&& off_r <= off_s
            &&& off_r == off_s && r.units() != s.units() ==> r.bits % 2 == 0
            &&& s.units() == d ==> r.units() == d
        }),
{
    assert(distance(a.units() - b.units(), r) <= distance(a.units() - b.units(), s));
    assert(r.bits % 2 == r.fraction() % 2);
}

/// A difference with a NaN is one, and so is that of equal infinities; otherwise an infinity
/// decides.
pub proof fn law_difference_with_infinities(a: Double, b: Double, r: Double)
    requires
        call_ensures(Double::minus, (a, b), r),
    ensures
        a.nan() || b.nan() ==> r.nan(),
        a.infinite() && b.infinite() && a.bits == b.bits ==> r.nan(),
        a.infinite() && !b.nan() && a.bits != b.bits ==> r == a,
        b.infinite() && a.finite() ==> r.infinite() && r.units() == -b.units(),
{
    if a.infinite() && b.infinite() {
        law_doubles_fall_into_classes(a);
        law_doubles_fall_into_classes(b);
    }
    if b.infinite() && a.finite() {
        lemma_magnitude_zero(b);
        assert(r.fraction() == b.fraction() && r.exponent() == b.exponent());
    }
}

/// A finite double exceeds another by five where the difference of the values is greater than
/// five by more than half a step; an infinity where the other is not the same infinity.
pub proof fn law_exceeding_by_five(a: Double, b: Double, r: bool)
    requires
        call_ensures(Double::exceeds_by_five, (a, b), r),
    ensures
        a.finite() && b.finite() ==> (r <==> a.units() - b.units() > 5 * pow2(1074) + pow2(1023)),
        a.nan() || b.nan() ==> !r,
        a.infinite() && !b.nan() ==> (r <==> a.bits < 0x8000_0000_0000_0000 && b.bits
            != a.bits),
        a.finite() && b.infinite() ==> (r <==> b.bits >= 0x8000_0000_0000_0000),
{
    if a.infinite() && b.infinite() {
        law_doubles_fall_into_classes(a);
        law_doubles_fall_into_classes(b);
    }
}

/// The floor of a double is the whole number at or below it; what is negative, or a NaN, has
/// none, and what is too great has the greatest.
pub proof fn law_floor_is_the_whole_number_below(d: Double, n: u32)
    requires
        call_ensures(Double::floor_u32, (d,), n),
    ensures
        d.nan() || d.units() < 0 ==> n == 0,
        !d.nan() && 0 <= d.units() < 0x1_0000_0000 * pow2(1074) ==> n * pow2(1074) <= d.units()
            < (n + 1) * pow2(1074),
        !d.nan() && d.units() >= 0x1_0000_0000 * pow2(1074) ==> n == 0xFFFF_FFFF,
{
    let a = pow2(1074) as int;
    lemma_pow2_pos(1074);
    let u = d.units();
    if !d.nan() && u >= 0 {
        let q = u / a;
        vstd::arithmetic::div_mod::lemma_fundamental_div_mod(u, a);
        vstd::arithmetic::div_mod::lemma_mod_bound(u, a);
        assert(a * q == q * a) by (nonlinear_arith);
        assert((q + 1) * a == q * a + a) by (nonlinear_arith);
        if u < 0x1_0000_0000 * a {
            assert(q < 0x1_0000_0000) by (nonlinear_arith)
                requires
                    q * a <= u,
                    u < 0x1_0000_0000 * a,
                    a > 0,
            ;
        } else {
            assert(q >= 0x1_0000_0000) by (nonlinear_arith)
                requires
                    u < (q + 1) * a,
                    u >= 0x1_0000_0000 * a,
                    a > 0,
            ;
        }
    }
}

} // verus!
