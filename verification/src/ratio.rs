//! Exact non-negative rational numbers.
//!
//! The sampling engine works with real quantities (the modification factor,
//! the running `ln g` estimate, thresholds and tolerances) that are only ever
//! built from configured constants by addition, multiplication and comparison.
//! A pair of 64-bit integers represents each such quantity exactly; all
//! comparisons are exact, and sums and products are exact whenever their
//! direct form fits in 64 bits.  A sum that does not fit saturates to the
//! largest representable value, and a product that does not fit collapses to
//! the smallest positive value; both fallbacks are stated precisely by
//! [`plus_spec`] and [`times_spec`], so callers see exactly when a result is
//! exact.

use vstd::prelude::*;

verus! {

/// A non-negative rational number `num / den`.
#[derive(Clone, Copy, Debug, PartialEq, Eq, Structural)]
pub struct Ratio {
    /// Numerator.
    pub num: u64,
    /// Denominator; must be positive (see [`Ratio::wf`]).
    pub den: u64,
}

impl Ratio {
    /// A ratio is well formed when its denominator is positive.
    pub open spec fn wf(self) -> bool {
        self.den >= 1
    }

    /// Builds `num / den`.
    pub fn new(num: u64, den: u64) -> (r: Ratio)
        requires
            den >= 1,
        ensures
            r == (Ratio { num, den }),
    {
        Ratio { num, den }
    }

    /// Exact comparison `self < other`, by cross multiplication.
    pub fn lt(&self, other: &Ratio) -> (r: bool)
        requires
            self.wf(),
            other.wf(),
        ensures
            r == vlt(*self, *other),
    {
        proof {
            lemma_mul_u64_fits(self.num, other.den);
            lemma_mul_u64_fits(other.num, self.den);
        }
        (self.num as u128) * (other.den as u128) < (other.num as u128) * (self.den as u128)
    }

    /// Exact comparison `self <= other`, by cross multiplication.
    pub fn le(&self, other: &Ratio) -> (r: bool)
        requires
            self.wf(),
            other.wf(),
        ensures
            r == vle(*self, *other),
    {
        proof {
            lemma_mul_u64_fits(self.num, other.den);
            lemma_mul_u64_fits(other.num, self.den);
        }
        (self.num as u128) * (other.den as u128) <= (other.num as u128) * (self.den as u128)
    }

    /// The sum `self + other`, exact whenever representable (see [`plus_spec`]).
    pub fn plus(&self, other: &Ratio) -> (r: Ratio)
        requires
            self.wf(),
            other.wf(),
        ensures
            r == plus_spec(*self, *other),
    {
        if self.den == other.den {
            if self.num <= u64::MAX - other.num {
                Ratio { num: self.num + other.num, den: self.den }
            } else {
                rat_cap_exec()
            }
        } else if self.den % other.den == 0 {
            let k: u64 = self.den / other.den;
            proof {
                lemma_mul_add_u64_fits(other.num, k, self.num);
            }
            let n: u128 = self.num as u128 + (other.num as u128) * (k as u128);
            if n <= u64::MAX as u128 {
                Ratio { num: n as u64, den: self.den }
            } else {
                rat_cap_exec()
            }
        } else if other.den % self.den == 0 {
            let k: u64 = other.den / self.den;
            proof {
                lemma_mul_add_u64_fits(self.num, k, other.num);
            }
            let n: u128 = (self.num as u128) * (k as u128) + other.num as u128;
            if n <= u64::MAX as u128 {
                Ratio { num: n as u64, den: other.den }
            } else {
                rat_cap_exec()
            }
        } else {
            proof {
                lemma_mul_u64_fits(self.num, other.den);
                lemma_mul_u64_fits(other.num, self.den);
                lemma_mul_u64_fits(self.den, other.den);
            }
            let p1: u128 = (self.num as u128) * (other.den as u128);
            let p2: u128 = (other.num as u128) * (self.den as u128);
            let d: u128 = (self.den as u128) * (other.den as u128);
            if p1 <= u64::MAX as u128 && p2 <= u64::MAX as u128 - p1 && d <= u64::MAX as u128 {
                Ratio { num: (p1 + p2) as u64, den: d as u64 }
            } else {
                rat_cap_exec()
            }
        }
    }

    /// The product `self * other`, exact whenever representable (see
    /// [`times_spec`]).
    pub fn times(&self, other: &Ratio) -> (r: Ratio)
        requires
            self.wf(),
            other.wf(),
        ensures
            r == times_spec(*self, *other),
    {
        proof {
            lemma_mul_u64_fits(self.num, other.num);
            lemma_mul_u64_fits(self.den, other.den);
        }
        let n: u128 = (self.num as u128) * (other.num as u128);
        let d: u128 = (self.den as u128) * (other.den as u128);
        if n <= u64::MAX as u128 && d <= u64::MAX as u128 {
            Ratio { num: n as u64, den: d as u64 }
        } else {
            Ratio { num: 1, den: u64::MAX }
        }
    }
}

/// The largest representable value, used when a sum does not fit.
pub open spec fn rat_cap() -> Ratio {
    Ratio { num: u64::MAX, den: 1 }
}

fn rat_cap_exec() -> (r: Ratio)
    ensures
        r == rat_cap(),
{
    Ratio { num: u64::MAX, den: 1 }
}

/// `a < b` as rationals, by cross multiplication.
pub open spec fn vlt(a: Ratio, b: Ratio) -> bool {
    a.num * b.den < b.num * a.den
}

/// `a <= b` as rationals, by cross multiplication.
pub open spec fn vle(a: Ratio, b: Ratio) -> bool {
    a.num * b.den <= b.num * a.den
}

/// `c` is the exact rational sum `a + b`.
pub open spec fn is_sum(c: Ratio, a: Ratio, b: Ratio) -> bool {
    c.num * (a.den * b.den) == (a.num * b.den + b.num * a.den) * c.den
}

/// `c` is the exact rational product `a * b`.
pub open spec fn is_prod(c: Ratio, a: Ratio, b: Ratio) -> bool {
    c.num * (a.den * b.den) == (a.num * b.num) * c.den
}

/// What [`Ratio::plus`] returns: the exact sum, over the finer of the two
/// denominators when one divides the other (so repeated additions of the
/// same factor do not grow the denominator), else over their product; the
/// saturation value [`rat_cap`] when that form does not fit in 64 bits.
pub open spec fn plus_spec(a: Ratio, b: Ratio) -> Ratio {
    if a.den == b.den {
        if a.num + b.num <= u64::MAX {
            Ratio { num: (a.num + b.num) as u64, den: a.den }
        } else {
            rat_cap()
        }
    } else if a.den % b.den == 0 {
        if a.num + b.num * (a.den / b.den) <= u64::MAX {
            Ratio { num: (a.num + b.num * (a.den / b.den)) as u64, den: a.den }
        } else {
            rat_cap()
        }
    } else if b.den % a.den == 0 {
        if a.num * (b.den / a.den) + b.num <= u64::MAX {
            Ratio { num: (a.num * (b.den / a.den) + b.num) as u64, den: b.den }
        } else {
            rat_cap()
        }
    } else {
        if a.num * b.den + b.num * a.den <= u64::MAX && a.den * b.den <= u64::MAX {
            Ratio { num: (a.num * b.den + b.num * a.den) as u64, den: (a.den * b.den) as u64 }
        } else {
            rat_cap()
        }
    }
}

/// What [`Ratio::times`] returns: the exact product when it fits in 64 bits,
/// else the smallest positive value.
pub open spec fn times_spec(a: Ratio, b: Ratio) -> Ratio {
    if a.num * b.num <= u64::MAX && a.den * b.den <= u64::MAX {
        Ratio { num: (a.num * b.num) as u64, den: (a.den * b.den) as u64 }
    } else {
        Ratio { num: 1, den: u64::MAX }
    }
}

/// `k` successive additions of `f`, as performed by repeated [`Ratio::plus`].
pub open spec fn plus_iter(a: Ratio, f: Ratio, k: nat) -> Ratio
    decreases k,
{
    if k == 0 {
        a
    } else {
        plus_spec(plus_iter(a, f, (k - 1) as nat), f)
    }
}

/// A product of two 64-bit values fits in 128 bits.
proof fn lemma_mul_u64_fits(x: u64, y: u64)
    by (nonlinear_arith)
    ensures
        x * y <= u128::MAX,
        x * y >= 0,
{
}

/// A product of two 64-bit values plus a third still fits in 128 bits.
proof fn lemma_mul_add_u64_fits(x: u64, y: u64, z: u64)
    by (nonlinear_arith)
    ensures
        x * y + z <= u128::MAX,
{
}

/// Well-formedness is preserved by addition.
pub proof fn lemma_plus_wf(a: Ratio, b: Ratio)
    requires
        a.wf(),
        b.wf(),
    ensures
        plus_spec(a, b).wf(),
{
    assert(a.den * b.den >= 1) by (nonlinear_arith)
        requires
            a.den >= 1,
            b.den >= 1,
    ;
}

/// Well-formedness is preserved by multiplication.
pub proof fn lemma_times_wf(a: Ratio, b: Ratio)
    requires
        a.wf(),
        b.wf(),
    ensures
        times_spec(a, b).wf(),
{
    assert(a.den * b.den >= 1) by (nonlinear_arith)
        requires
            a.den >= 1,
            b.den >= 1,
    ;
}

/// Adding a non-negative value never decreases a ratio.
pub proof fn lemma_plus_le(a: Ratio, b: Ratio)
    requires
        a.wf(),
        b.wf(),
    ensures
        vle(a, plus_spec(a, b)),
{
    if a.den == b.den {
        if a.num + b.num <= u64::MAX {
            assert(a.num * a.den <= (a.num + b.num) * a.den) by (nonlinear_arith)
                requires
                    b.num >= 0,
                    a.den >= 1,
            ;
        } else {
            lemma_le_cap(a);
        }
    } else if a.den % b.den == 0 {
        if a.num + b.num * (a.den / b.den) <= u64::MAX {
            assert(a.num * a.den <= (a.num + b.num * (a.den / b.den)) * a.den) by (nonlinear_arith)
                requires
                    b.num * (a.den / b.den) >= 0,
                    a.den >= 1,
            ;
        } else {
            lemma_le_cap(a);
        }
    } else if b.den % a.den == 0 {
        if a.num * (b.den / a.den) + b.num <= u64::MAX {
            vstd::arithmetic::div_mod::lemma_fundamental_div_mod(b.den as int, a.den as int);
            assert(a.num * b.den <= (a.num * (b.den / a.den) + b.num) * a.den) by (nonlinear_arith)
                requires
                    b.den == (b.den / a.den) * a.den,
                    b.num >= 0,
                    a.den >= 1,
                    a.num >= 0,
            ;
        } else {
            lemma_le_cap(a);
        }
    } else {
        if a.num * b.den + b.num * a.den <= u64::MAX && a.den * b.den <= u64::MAX {
            assert(a.num * (a.den * b.den) <= (a.num * b.den + b.num * a.den) * a.den)
                by (nonlinear_arith)
                requires
                    a.num >= 0,
                    b.num >= 0,
                    a.den >= 1,
                    b.den >= 1,
            ;
        } else {
            lemma_le_cap(a);
        }
    }
}

/// Every well-formed ratio lies below the saturation value.
pub proof fn lemma_le_cap(a: Ratio)
    requires
        a.wf(),
        a.num <= u64::MAX,
    ensures
        vle(a, rat_cap()),
{
    assert(a.num * 1 <= u64::MAX * a.den) by (nonlinear_arith)
        requires
            a.num <= u64::MAX,
            a.den >= 1,
    ;
}

/// When the direct form of the sum fits in 64 bits, [`plus_spec`] is the
/// exact rational sum.
pub proof fn lemma_plus_exact(a: Ratio, b: Ratio)
    requires
        a.wf(),
        b.wf(),
        a.num * b.den + b.num * a.den <= u64::MAX,
        a.den * b.den <= u64::MAX,
    ensures
        is_sum(plus_spec(a, b), a, b),
{
    if a.den == b.den {
        assert(a.num + b.num <= u64::MAX) by (nonlinear_arith)
            requires
                a.num * b.den + b.num * a.den <= u64::MAX,
                a.den == b.den,
                a.den >= 1,
                a.num >= 0,
                b.num >= 0,
        ;
        assert((a.num + b.num) * (a.den * b.den) == (a.num * b.den + b.num * a.den) * a.den)
            by (nonlinear_arith)
            requires
                a.den == b.den,
        ;
    } else if a.den % b.den == 0 {
        vstd::arithmetic::div_mod::lemma_fundamental_div_mod(a.den as int, b.den as int);
        assert(a.num + b.num * (a.den / b.den) <= a.num * b.den + b.num * a.den)
            by (nonlinear_arith)
            requires
                a.den == (a.den / b.den) * b.den,
                a.num >= 0,
                b.num >= 0,
                a.den >= 1,
                b.den >= 1,
        ;
        assert((a.num + b.num * (a.den / b.den)) * (a.den * b.den) == (a.num * b.den + b.num
            * a.den) * a.den) by (nonlinear_arith)
            requires
                a.den == (a.den / b.den) * b.den,
        ;
    } else if b.den % a.den == 0 {
        vstd::arithmetic::div_mod::lemma_fundamental_div_mod(b.den as int, a.den as int);
        assert(a.num * (b.den / a.den) + b.num <= a.num * b.den + b.num * a.den)
            by (nonlinear_arith)
            requires
                b.den == (b.den / a.den) * a.den,
                a.num >= 0,
                b.num >= 0,
                a.den >= 1,
                b.den >= 1,
        ;
        assert((a.num * (b.den / a.den) + b.num) * (a.den * b.den) == (a.num * b.den + b.num
            * a.den) * b.den) by (nonlinear_arith)
            requires
                b.den == (b.den / a.den) * a.den,
        ;
    } else {
        assert(((a.num * b.den + b.num * a.den) as u64) * ((a.den * b.den) as u64) == (a.num
            * b.den + b.num * a.den) * ((a.den * b.den) as u64));
    }
}

/// When the direct form of the product fits in 64 bits, [`times_spec`] is the
/// exact rational product.
pub proof fn lemma_times_exact(a: Ratio, b: Ratio)
    requires
        a.wf(),
        b.wf(),
        a.num * b.num <= u64::MAX,
        a.den * b.den <= u64::MAX,
    ensures
        is_prod(times_spec(a, b), a, b),
{
}

/// Law: as long as the numerator stays representable, `k` successive
/// additions of a factor `f` grow an entry by exactly `k * f`: when the
/// entry's denominator is a multiple of the factor's, the entry keeps its
/// denominator and its numerator grows by `f.num * (a.den / f.den)` per
/// addition.  This is the bookkeeping a Wang-Landau visit performs on a
/// bin's `ln g` entry, so an entry visited `k` times within a stage holds
/// exactly its old value plus `k` times the modification factor.
pub proof fn lemma_plus_iter_exact(a: Ratio, f: Ratio, k: nat)
    requires
        a.wf(),
        f.wf(),
        a.den % f.den == 0,
        a.num + k * (f.num * (a.den / f.den)) <= u64::MAX,
    ensures
        plus_iter(a, f, k) == (Ratio {
            num: (a.num + k * (f.num * (a.den / f.den))) as u64,
            den: a.den,
        }),
    decreases k,
{
    let q = f.num * (a.den / f.den);
    vstd::arithmetic::div_mod::lemma_div_pos_is_pos(a.den as int, f.den as int);
    assert(f.num * (a.den / f.den) >= 0) by (nonlinear_arith)
        requires
            f.num >= 0,
            a.den / f.den >= 0,
    ;
    if k == 0 {
        assert(a.num + 0 * q == a.num) by (nonlinear_arith);
    } else {
        let j = (k - 1) as nat;
        assert(j * q <= k * q && j * q + q == k * q) by (nonlinear_arith)
            requires
                q >= 0,
                k >= 1,
                j == k - 1,
        ;
        lemma_plus_iter_exact(a, f, j);
        let m = plus_iter(a, f, j);
        if a.den == f.den {
            vstd::arithmetic::div_mod::lemma_fundamental_div_mod(a.den as int, f.den as int);
            assert(a.den / f.den == 1) by (nonlinear_arith)
                requires
                    a.den == (a.den / f.den) * f.den,
                    a.den == f.den,
                    f.den >= 1,
                    a.den / f.den >= 0,
            ;
        }
        assert(plus_spec(m, f) == (Ratio { num: (a.num + k * q) as u64, den: a.den }));
    }
}

/// `vle` is transitive.
pub proof fn lemma_vle_trans(a: Ratio, b: Ratio, c: Ratio)
    by (nonlinear_arith)
    requires
        a.wf(),
        b.wf(),
        c.wf(),
        vle(a, b),
        vle(b, c),
    ensures
        vle(a, c),
{
}

} // verus!
