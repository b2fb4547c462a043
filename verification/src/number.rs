use vstd::prelude::*;

verus! {

/// An exact rational over machine integers: the value `num / den`.
///
/// A well-formed value has `den >= 0`. A positive denominator marks a
/// finite value; `den == 0` (with `num == 0`) marks a non-finite value,
/// the result of dividing by zero or of arithmetic whose exact value no
/// longer fits in an `i64` pair — the role infinity and NaN play in
/// floating point. Operations on a non-finite value stay non-finite.
#[derive(Clone, Copy, Debug, PartialEq, Eq, Structural)]
pub struct Number {
    pub num: i64,
    pub den: i64,
}

/// Whether a mathematical integer fits in an `i64`.
pub open spec fn in_i64(x: int) -> bool {
    i64::MIN <= x <= i64::MAX
}

/// The canonical non-finite value.
pub open spec fn spec_non_finite() -> Number {
    Number { num: 0, den: 0 }
}

/// Exact sum of two finite rationals, as an unbounded pair.
pub open spec fn sum_num(a: Number, b: Number) -> int {
    a.num * b.den + b.num * a.den
}

/// Exact difference of two finite rationals, as an unbounded pair.
pub open spec fn diff_num(a: Number, b: Number) -> int {
    a.num * b.den - b.num * a.den
}

/// The denominator of a sum, difference or product.
pub open spec fn prod_den(a: Number, b: Number) -> int {
    a.den * b.den
}

impl Number {
    /// Well-formedness: the denominator is never negative, and the
    /// non-finite marker is canonical.
    pub open spec fn wf(self) -> bool {
        &&& self.den >= 0
        &&& self.den == 0 ==> self.num == 0
    }

    /// A finite value: a genuine rational `num / den`.
    pub open spec fn finite(self) -> bool {
        self.den > 0
    }

    /// The exact sum: `num/den` pairs are combined over a common
    /// denominator; a non-finite operand or a result outside the `i64`
    /// range yields the non-finite value.
    pub open spec fn spec_add(self, other: Number) -> Number {
        if self.finite() && other.finite() && in_i64(sum_num(self, other)) && in_i64(
            prod_den(self, other),
        ) {
            Number { num: sum_num(self, other) as i64, den: prod_den(self, other) as i64 }
        } else {
            spec_non_finite()
        }
    }

    /// The exact difference, under the same non-finite rules as the sum.
    pub open spec fn spec_sub(self, other: Number) -> Number {
        if self.finite() && other.finite() && in_i64(diff_num(self, other)) && in_i64(
            prod_den(self, other),
        ) {
            Number { num: diff_num(self, other) as i64, den: prod_den(self, other) as i64 }
        } else {
            spec_non_finite()
        }
    }

    /// The exact product, under the same non-finite rules as the sum.
    pub open spec fn spec_mul(self, other: Number) -> Number {
        if self.finite() && other.finite() && in_i64(self.num * other.num) && in_i64(
            prod_den(self, other),
        ) {
            Number { num: (self.num * other.num) as i64, den: (self.den * other.den) as i64 }
        } else {
            spec_non_finite()
        }
    }

    /// The exact quotient: multiply by the reciprocal, keeping the
    /// denominator positive. Division by zero yields the non-finite
    /// value, as floating point yields an infinity or NaN.
    pub open spec fn spec_div(self, other: Number) -> Number {
        if self.finite() && other.finite() && other.num != 0 {
            let n = if other.num < 0 {
                -(self.num * other.den)
            } else {
                self.num * other.den
            };
            let d = if other.num < 0 {
                -(self.den * other.num)
            } else {
                self.den * other.num
            };
            if in_i64(n) && in_i64(d) {
                Number { num: n as i64, den: d as i64 }
            } else {
                spec_non_finite()
            }
        } else {
            spec_non_finite()
        }
    }

    /// The canonical non-finite value.
    pub fn non_finite() -> (r: Self)
        ensures
            r == spec_non_finite(),
    {
        Number { num: 0, den: 0 }
    }

    /// A whole number as a rational.
    pub fn from_integer(n: i64) -> (r: Self)
        ensures
            r.num == n,
            r.den == 1,
            r.wf(),
            r.finite(),
    {
        Number { num: n, den: 1 }
    }

    /// Whether this value is a genuine rational rather than the
    /// non-finite marker.
    pub fn is_finite(&self) -> (r: bool)
        ensures
            r == self.finite(),
    {
        self.den > 0
    }

    /// Exact addition.
    pub fn add(self, other: Self) -> (r: Self)
        requires
            self.wf(),
            other.wf(),
        ensures
            r == self.spec_add(other),
            r.wf(),
    {
        if self.den == 0 || other.den == 0 {
            return Self::non_finite();
        }
        proof {
            lemma_num_times_den_bound(self.num as int, other.den as int);
            lemma_num_times_den_bound(other.num as int, self.den as int);
            lemma_den_times_den_bound(self.den as int, other.den as int);
        }
        let n: i128 = (self.num as i128) * (other.den as i128) + (other.num as i128) * (self.den
            as i128);
        let d: i128 = (self.den as i128) * (other.den as i128);
        Self::clip(n, d)
    }

    /// Exact subtraction.
    pub fn sub(self, other: Self) -> (r: Self)
        requires
            self.wf(),
            other.wf(),
        ensures
            r == self.spec_sub(other),
            r.wf(),
    {
        if self.den == 0 || other.den == 0 {
            return Self::non_finite();
        }
        proof {
            lemma_num_times_den_bound(self.num as int, other.den as int);
            lemma_num_times_den_bound(other.num as int, self.den as int);
            lemma_den_times_den_bound(self.den as int, other.den as int);
        }
        let n: i128 = (self.num as i128) * (other.den as i128) - (other.num as i128) * (self.den
            as i128);
        let d: i128 = (self.den as i128) * (other.den as i128);
        Self::clip(n, d)
    }

    /// Exact multiplication.
    pub fn mul(self, other: Self) -> (r: Self)
        requires
            self.wf(),
            other.wf(),
        ensures
            r == self.spec_mul(other),
            r.wf(),
    {
        if self.den == 0 || other.den == 0 {
            return Self::non_finite();
        }
        proof {
            lemma_num_times_num_bound(self.num as int, other.num as int);
            lemma_den_times_den_bound(self.den as int, other.den as int);
        }
        let n: i128 = (self.num as i128) * (other.num as i128);
        let d: i128 = (self.den as i128) * (other.den as i128);
        Self::clip(n, d)
    }

    /// Exact division: division by zero yields the non-finite value.
    pub fn div(self, other: Self) -> (r: Self)
        requires
            self.wf(),
            other.wf(),
        ensures
            r == self.spec_div(other),
            r.wf(),
    {
        if self.den == 0 || other.den == 0 || other.num == 0 {
            return Self::non_finite();
        }
        proof {
            lemma_num_times_den_bound(self.num as int, other.den as int);
            lemma_num_times_den_bound(other.num as int, self.den as int);
        }
        let n0: i128 = (self.num as i128) * (other.den as i128);
        let d0: i128 = (self.den as i128) * (other.num as i128);
        if other.num < 0 {
            proof {
                assert((self.den as int) * (other.num as int) <= -1) by (nonlinear_arith)
                    requires
                        self.den >= 1,
                        other.num <= -1,
                ;
            }
            Self::clip(-n0, -d0)
        } else {
            proof {
                assert((self.den as int) * (other.num as int) >= 1) by (nonlinear_arith)
                    requires
                        self.den >= 1,
                        other.num >= 1,
                ;
            }
            Self::clip(n0, d0)
        }
    }

    /// Narrows an exactly computed pair back to `i64` components, or
    /// yields the non-finite value when either falls outside the range.
    fn clip(n: i128, d: i128) -> (r: Self)
        requires
            d >= 1,
        ensures
            r == (if in_i64(n as int) && in_i64(d as int) {
                Number { num: n as i64, den: d as i64 }
            } else {
                spec_non_finite()
            }),
            r.wf(),
    {
        if n >= i64::MIN as i128 && n <= i64::MAX as i128 && d <= i64::MAX as i128 {
            Number { num: n as i64, den: d as i64 }
        } else {
            Self::non_finite()
        }
    }
}

/// Bound on the product of a numerator and a denominator: the first
/// factor spans the full `i64` range, the second is positive.
proof fn lemma_num_times_den_bound(x: int, y: int)
    requires
        i64::MIN <= x <= i64::MAX,
        1 <= y <= i64::MAX,
    ensures
        -0x8000_0000_0000_0000 * 0x7fff_ffff_ffff_ffff <= x * y <= 0x8000_0000_0000_0000
            * 0x7fff_ffff_ffff_ffff,
        y >= 1,
{
    assert(-0x8000_0000_0000_0000 * 0x7fff_ffff_ffff_ffff <= x * y <= 0x8000_0000_0000_0000
        * 0x7fff_ffff_ffff_ffff) by (nonlinear_arith)
        requires
            -0x8000_0000_0000_0000 <= x <= 0x7fff_ffff_ffff_ffff,
            1 <= y <= 0x7fff_ffff_ffff_ffff,
    ;
}

/// Bound on the product of two numerators, each spanning the full
/// `i64` range.
proof fn lemma_num_times_num_bound(x: int, y: int)
    requires
        i64::MIN <= x <= i64::MAX,
        i64::MIN <= y <= i64::MAX,
    ensures
        -0x8000_0000_0000_0000 * 0x8000_0000_0000_0000 <= x * y <= 0x8000_0000_0000_0000
            * 0x8000_0000_0000_0000,
{
    assert(-0x8000_0000_0000_0000 * 0x8000_0000_0000_0000 <= x * y <= 0x8000_0000_0000_0000
        * 0x8000_0000_0000_0000) by (nonlinear_arith)
        requires
            -0x8000_0000_0000_0000 <= x <= 0x7fff_ffff_ffff_ffff,
            -0x8000_0000_0000_0000 <= y <= 0x7fff_ffff_ffff_ffff,
    ;
}

/// The product of two positive denominators is positive and bounded.
proof fn lemma_den_times_den_bound(x: int, y: int)
    requires
        1 <= x <= i64::MAX,
        1 <= y <= i64::MAX,
    ensures
        1 <= x * y <= 0x7fff_ffff_ffff_ffff * 0x7fff_ffff_ffff_ffff,
{
    assert(1 <= x * y <= 0x7fff_ffff_ffff_ffff * 0x7fff_ffff_ffff_ffff) by (nonlinear_arith)
        requires
            1 <= x <= 0x7fff_ffff_ffff_ffff,
            1 <= y <= 0x7fff_ffff_ffff_ffff,
    ;
}

} // verus!
