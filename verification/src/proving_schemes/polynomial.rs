//! Dense polynomials over the commitment scheme's scalar field.
//!
//! A polynomial is its coefficient vector, lowest degree first. The
//! mathematical model of every operation is a spec function over
//! `Seq<Scalar>`; evaluation is the Horner form [`poly_eval`].

use vstd::prelude::*;

use crate::field::{
    s_add, s_from_u128, s_inv, s_mul, s_one, s_sub, s_zero, scalar_add, scalar_eq,
    scalar_field_laws, scalar_from_u128, scalar_invert, scalar_mul, scalar_one, scalar_sub,
    scalar_zero,
};
use crate::proving_schemes::polynomial_lemmas::{
    div_invariant, lemma_add_zero, lemma_cancel_lead, lemma_div_invariant_init,
    lemma_div_invariant_step, lemma_div_remainder_shrinks, lemma_eval_add, lemma_eval_conv,
    lemma_eval_scale, lemma_eval_single, lemma_eval_strip, lemma_linear_at_pivot,
    lemma_linear_at_root, lemma_mul_one, lemma_mul_zero, lemma_strip_len,
};

verus! {

use curve25519_dalek::scalar::Scalar;

/// The value of the polynomial with coefficients `s` at `x`, in Horner form:
/// an empty polynomial is zero, and `[c0, c1, ...]` evaluates to
/// `c0 + x * (the rest at x)`.
pub open spec fn poly_eval(s: Seq<Scalar>, x: Scalar) -> Scalar
    decreases s.len(),
{
    if s.len() == 0 {
        s_zero()
    } else {
        s_add(s[0], s_mul(x, poly_eval(s.subrange(1, s.len() as int), x)))
    }
}

/// `s` with trailing zero coefficients removed, never below length one.
pub open spec fn strip(s: Seq<Scalar>) -> Seq<Scalar>
    decreases s.len(),
{
    if s.len() > 1 && s.last() == s_zero() {
        strip(s.drop_last())
    } else {
        s
    }
}

/// A coefficient sequence in normal form: nonempty, and with a nonzero
/// leading coefficient unless it is the zero polynomial `[0]`.
pub open spec fn is_normalized(s: Seq<Scalar>) -> bool {
    s.len() >= 1 && (s.len() > 1 ==> s.last() != s_zero())
}

/// Pointwise sum of two coefficient sequences, the shorter one extended by
/// keeping the longer one's coefficients.
pub open spec fn add_seq(a: Seq<Scalar>, b: Seq<Scalar>) -> Seq<Scalar> {
    Seq::new(
        if a.len() >= b.len() {
            a.len()
        } else {
            b.len()
        },
        |i: int|
            if i < a.len() && i < b.len() {
                s_add(a[i], b[i])
            } else if i < a.len() {
                a[i]
            } else {
                b[i]
            },
    )
}

/// Pointwise difference of two coefficient sequences; where only the right
/// sequence has a coefficient the entry is `0 - b[i]`.
pub open spec fn sub_seq(a: Seq<Scalar>, b: Seq<Scalar>) -> Seq<Scalar> {
    Seq::new(
        if a.len() >= b.len() {
            a.len()
        } else {
            b.len()
        },
        |i: int|
            if i < a.len() && i < b.len() {
                s_sub(a[i], b[i])
            } else if i < a.len() {
                a[i]
            } else {
                s_sub(s_zero(), b[i])
            },
    )
}

/// `s` extended with zero coefficients up to length `n` (unchanged if it is
/// already that long).
pub open spec fn padded_to(s: Seq<Scalar>, n: int) -> Seq<Scalar> {
    if n <= s.len() {
        s
    } else {
        s + Seq::new((n - s.len()) as nat, |i: int| s_zero())
    }
}

/// Every coefficient of `a` multiplied by `v`.
pub open spec fn scale_seq(a: Seq<Scalar>, v: Scalar) -> Seq<Scalar> {
    Seq::new(a.len(), |i: int| s_mul(a[i], v))
}

/// Whether product term `j` contributes to coefficient `k` of `a * b`.
pub open spec fn conv_term_ok(a: Seq<Scalar>, b: Seq<Scalar>, k: int, j: int) -> bool {
    0 <= j < a.len() && 0 <= k - j < b.len()
}

/// Coefficient `k` of the product of `a` and `b`, summed over the first `n`
/// coefficients of `a`, starting from zero and adding term by term exactly
/// as the multiplication loop does.
pub open spec fn conv_partial(a: Seq<Scalar>, b: Seq<Scalar>, k: int, n: int) -> Scalar
    decreases n,
{
    if n <= 0 {
        s_zero()
    } else {
        let prev = conv_partial(a, b, k, n - 1);
        if conv_term_ok(a, b, k, n - 1) {
            s_add(prev, s_mul(a[n - 1], b[k - (n - 1)]))
        } else {
            prev
        }
    }
}

/// The coefficient sequence of the product of `a` and `b` (both nonempty).
pub open spec fn conv(a: Seq<Scalar>, b: Seq<Scalar>) -> Seq<Scalar> {
    Seq::new((a.len() + b.len() - 1) as nat, |k: int| conv_partial(a, b, k, a.len() as int))
}

/// A dense polynomial: coefficients lowest degree first.
#[derive(Clone, Debug, PartialEq, Eq)]
pub struct Polynomial(pub Vec<Scalar>);

impl View for Polynomial {
    type V = Seq<Scalar>;

    open spec fn view(&self) -> Seq<Scalar> {
        self.0@
    }
}

impl Polynomial {
    /// Well-formed: in normal form, as `new` and `normalize` leave it.
    pub open spec fn wf(&self) -> bool {
        is_normalized(self@)
    }

    /// Builds a polynomial from its coefficients, removing trailing zeros.
    pub fn new(coefficients: Vec<Scalar>) -> (r: Polynomial)
        requires
            coefficients@.len() >= 1,
        ensures
            r@ == strip(coefficients@),
            r.wf(),
    {
        let mut poly = Polynomial(coefficients);
        poly.normalize();
        poly
    }

    /// Builds a polynomial from small integer coefficients.
    pub fn from(coefficients: &[u128]) -> (r: Polynomial)
        requires
            coefficients@.len() >= 1,
        ensures
            r@ == strip(Seq::new(coefficients@.len(), |i: int| s_from_u128(coefficients@[i]))),
            r.wf(),
    {
        let mut v: Vec<Scalar> = Vec::new();
        let mut i: usize = 0;
        while i < coefficients.len()
            invariant
                i <= coefficients@.len(),
                v@ == Seq::new(i as nat, |j: int| s_from_u128(coefficients@[j])),
            decreases coefficients@.len() - i,
        {
            let s = scalar_from_u128(coefficients[i]);
            v.push(s);
            i = i + 1;
            proof {
                assert(v@ =~= Seq::new(i as nat, |j: int| s_from_u128(coefficients@[j])));
            }
        }
        Polynomial::new(v)
    }

    /// The zero polynomial `[0]`.
    pub fn zero() -> (r: Polynomial)
        ensures
            r@ =~= seq![s_zero()],
            r.wf(),
    {
        let mut v: Vec<Scalar> = Vec::new();
        v.push(scalar_zero());
        Polynomial(v)
    }

    /// The constant polynomial `[1]`.
    pub fn one() -> (r: Polynomial)
        ensures
            r@ =~= seq![s_one()],
            r.wf(),
    {
        let mut v: Vec<Scalar> = Vec::new();
        v.push(scalar_one());
        Polynomial(v)
    }

    /// Degree under the dense representation: one less than the length.
    pub fn degree(&self) -> (r: usize)
        requires
            self@.len() >= 1,
        ensures
            r == self@.len() - 1,
    {
        self.0.len() - 1
    }

    /// Removes trailing zero coefficients, never dropping the last one.
    pub fn normalize(&mut self)
        requires
            old(self)@.len() >= 1,
        ensures
            final(self)@ == strip(old(self)@),
            final(self).wf(),
    {
        let zero = scalar_zero();
        while self.0.len() > 1 && scalar_eq(&self.0[self.0.len() - 1], &zero)
            invariant
                zero == s_zero(),
                self@.len() >= 1,
                strip(self@) == strip(old(self)@),
            decreases self@.len(),
        {
            proof {
                assert(self@.drop_last() =~= self@.subrange(0, self@.len() - 1));
            }
            self.0.pop();
        }
    }

    /// Whether this is the zero polynomial `[0]`.
    pub fn is_zero(&self) -> (r: bool)
        requires
            self@.len() >= 1,
        ensures
            r == (self@.len() == 1 && self@[0] == s_zero()),
    {
        let zero = scalar_zero();
        self.0.len() == 1 && scalar_eq(&self.0[0], &zero)
    }

    /// The coefficient at `i`, if present.
    pub fn get(&self, i: usize) -> (r: Option<&Scalar>)
        ensures
            match r {
                Some(v) => i < self@.len() && *v == self@[i as int],
                None => i >= self@.len(),
            },
    {
        if i < self.0.len() {
            Some(&self.0[i])
        } else {
            None
        }
    }

    /// Adds `rhs` coefficient by coefficient, then normalizes.
    pub fn add_assign(&mut self, rhs: &Polynomial)
        requires
            old(self)@.len() >= 1,
            rhs@.len() >= 1,
        ensures
            final(self)@ == strip(add_seq(old(self)@, rhs@)),
            final(self).wf(),
    {
        let ghost a = self@;
        let ghost b = rhs@;
        let max = if self.0.len() >= rhs.0.len() {
            self.0.len()
        } else {
            rhs.0.len()
        };
        let mut n: usize = 0;
        while n < max
            invariant
                n <= max,
                a.len() >= 1,
                b.len() >= 1,
                b == rhs@,
                max == add_seq(a, b).len(),
                self@.len() == if n <= a.len() {
                    a.len() as int
                } else {
                    n as int
                },
                forall|k: int| 0 <= k < n ==> self@[k] == add_seq(a, b)[k],
                forall|k: int| n <= k < self@.len() ==> self@[k] == a[k],
            decreases max - n,
        {
            if n >= self.0.len() {
                let v = rhs.0[n];
                self.0.push(v);
            } else if n < rhs.0.len() {
                let s = scalar_add(self.0[n], rhs.0[n]);
                self.0.set(n, s);
            }
            n = n + 1;
        }
        proof {
            assert(self@ =~= add_seq(a, b));
        }
        self.normalize();
    }

    /// Subtracts `rhs` coefficient by coefficient, then normalizes.
    pub fn sub_assign(&mut self, rhs: &Polynomial)
        requires
            old(self)@.len() >= 1,
            rhs@.len() >= 1,
        ensures
            final(self)@ == strip(sub_seq(old(self)@, rhs@)),
            final(self).wf(),
    {
        let ghost a = self@;
        let ghost b = rhs@;
        let zero = scalar_zero();
        let max = if self.0.len() >= rhs.0.len() {
            self.0.len()
        } else {
            rhs.0.len()
        };
        let mut n: usize = 0;
        while n < max
            invariant
                n <= max,
                a.len() >= 1,
                b.len() >= 1,
                b == rhs@,
                zero == s_zero(),
                max == sub_seq(a, b).len(),
                self@.len() == if n <= a.len() {
                    a.len() as int
                } else {
                    n as int
                },
                forall|k: int| 0 <= k < n ==> self@[k] == sub_seq(a, b)[k],
                forall|k: int| n <= k < self@.len() ==> self@[k] == a[k],
            decreases max - n,
        {
            if n >= self.0.len() {
                let d = scalar_sub(zero, rhs.0[n]);
                self.0.push(d);
            } else if n < rhs.0.len() {
                let s = scalar_sub(self.0[n], rhs.0[n]);
                self.0.set(n, s);
            }
            n = n + 1;
        }
        proof {
            assert(self@ =~= sub_seq(a, b));
        }
        self.normalize();
    }

    /// The product polynomial, by summing coefficient products term by term.
    pub fn mul_poly(&self, rhs: &Polynomial) -> (r: Polynomial)
        requires
            self@.len() >= 1,
            rhs@.len() >= 1,
            self@.len() + rhs@.len() <= usize::MAX,
        ensures
            r@ == conv(self@, rhs@),
    {
        let ghost a = self@;
        let ghost b = rhs@;
        let len = self.0.len() + rhs.0.len() - 1;
        let zero = scalar_zero();
        let mut out: Vec<Scalar> = Vec::new();
        let mut i: usize = 0;
        while i < len
            invariant
                zero == s_zero(),
                i <= len,
                out@.len() == i,
                forall|k: int| 0 <= k < i ==> out@[k] == s_zero(),
            decreases len - i,
        {
            out.push(zero);
            i = i + 1;
        }
        let mut n: usize = 0;
        while n < self.0.len()
            invariant
                a == self@,
                b == rhs@,
                a.len() >= 1,
                b.len() >= 1,
                n <= a.len(),
                len == a.len() + b.len() - 1,
                out@.len() == len,
                forall|k: int| 0 <= k < len ==> out@[k] == conv_partial(a, b, k, n as int),
            decreases a.len() - n,
        {
            let mut m: usize = 0;
            while m < rhs.0.len()
                invariant
                    a == self@,
                    b == rhs@,
                    a.len() >= 1,
                    b.len() >= 1,
                    n < a.len(),
                    m <= b.len(),
                    len == a.len() + b.len() - 1,
                    out@.len() == len,
                    forall|k: int|
                        0 <= k < len ==> out@[k] == (if n <= k < n + m {
                            conv_partial(a, b, k, n as int + 1)
                        } else {
                            conv_partial(a, b, k, n as int)
                        }),
                decreases b.len() - m,
            {
                let t = scalar_mul(self.0[n], rhs.0[m]);
                let s = scalar_add(out[n + m], t);
                out.set(n + m, s);
                proof {
                    let k0 = n + m;
                    assert(conv_term_ok(a, b, k0 as int, n as int));
                    assert(conv_partial(a, b, k0 as int, n as int + 1) == s_add(
                        conv_partial(a, b, k0 as int, n as int),
                        s_mul(a[n as int], b[k0 - n]),
                    ));
                }
                m = m + 1;
            }
            proof {
                assert forall|k: int| 0 <= k < len implies out@[k] == conv_partial(
                    a,
                    b,
                    k,
                    n as int + 1,
                ) by {
                    if !(n <= k < n + b.len()) {
                        assert(!conv_term_ok(a, b, k, n as int));
                        assert(conv_partial(a, b, k, n as int + 1) == conv_partial(
                            a,
                            b,
                            k,
                            n as int,
                        ));
                    }
                }
            }
            n = n + 1;
        }
        proof {
            assert(out@ =~= conv(a, b));
        }
        Polynomial(out)
    }

    /// The polynomial scaled by `rhs`; scaling by zero collapses to the
    /// zero polynomial, as the reference arithmetic does.
    pub fn mul_scalar(&self, rhs: &Scalar) -> (r: Polynomial)
        requires
            self@.len() >= 1,
        ensures
            r@ == (if *rhs == s_zero() {
                seq![s_zero()]
            } else {
                scale_seq(self@, *rhs)
            }),
    {
        let zero = scalar_zero();
        if scalar_eq(rhs, &zero) {
            let r = Polynomial::zero();
            proof {
                assert(r@ =~= seq![s_zero()]);
            }
            r
        } else {
            let mut out: Vec<Scalar> = Vec::new();
            let mut i: usize = 0;
            while i < self.0.len()
                invariant
                    i <= self@.len(),
                    out@.len() == i,
                    forall|k: int| 0 <= k < i ==> out@[k] == s_mul(self@[k], *rhs),
                decreases self@.len() - i,
            {
                let s = scalar_mul(self.0[i], *rhs);
                out.push(s);
                i = i + 1;
            }
            proof {
                assert(out@ =~= scale_seq(self@, *rhs));
            }
            Polynomial(out)
        }
    }

    /// Sets coefficient `i`, extending with zeros if needed, then normalizes.
    pub fn set(&mut self, i: usize, p: Scalar)
        requires
            old(self)@.len() >= 1,
            i < usize::MAX,
        ensures
            final(self)@ == strip(padded_to(old(self)@, i + 1).update(i as int, p)),
            final(self).wf(),
    {
        let ghost a = self@;
        let zero = scalar_zero();
        while self.0.len() < i + 1
            invariant
                i < usize::MAX,
                zero == s_zero(),
                a.len() >= 1,
                self@.len() >= a.len(),
                self@.len() <= if i + 1 <= a.len() {
                    a.len() as int
                } else {
                    i + 1
                },
                self@ == padded_to(a, self@.len() as int),
            decreases i + 1 - self@.len(),
        {
            self.0.push(zero);
            proof {
                assert(self@ =~= padded_to(a, self@.len() as int));
            }
        }
        self.0.set(i, p);
        proof {
            assert(self@ =~= padded_to(a, i + 1).update(i as int, p));
        }
        self.normalize();
    }

    /// The interpolated polynomial through the given points, built from
    /// Lagrange basis polynomials: for each pivot `j` the product of the
    /// normalized factors `(x - p_i) / (p_j - p_i)` over `i != j`, scaled by
    /// the pivot's value and summed. Its degree stays below the number of
    /// points, and its value at each given position is the given value.
    pub fn lagrange(p: &Vec<(Scalar, Scalar)>) -> (r: Polynomial)
        requires
            p@.len() + 2 <= usize::MAX,
            forall|i1: int, j1: int| 0 <= i1 < j1 < p@.len() ==> p@[i1].0 != p@[j1].0,
        ensures
            r.wf(),
            r@.len() <= if p@.len() == 0 {
                1int
            } else {
                p@.len() as int
            },
            forall|m: int| 0 <= m < p@.len() ==> poly_eval(r@, p@[m].0) == p@[m].1,
    {
        let ghost pts = p@;
        let k = p.len();
        let zero = scalar_zero();
        let mut l = Polynomial::zero();
        proof {
            assert forall|m: int| 0 <= m < k implies poly_eval(l@, pts[m].0) == s_zero() by {
                lemma_eval_single(l@, pts[m].0);
            }
        }
        let mut j: usize = 0;
        while j < k
            invariant
                scalar_field_laws(),
                pts == p@,
                k == pts.len(),
                k + 2 <= usize::MAX,
                forall|i1: int, j1: int| 0 <= i1 < j1 < pts.len() ==> pts[i1].0 != pts[j1].0,
                zero == s_zero(),
                j <= k,
                l.wf(),
                l@.len() <= if j == 0 {
                    1int
                } else {
                    k as int
                },
                forall|m: int|
                    0 <= m < k ==> poly_eval(l@, pts[m].0) == (if m < j {
                        pts[m].1
                    } else {
                        s_zero()
                    }),
            decreases k - j,
        {
            let ghost pj = pts[j as int].0;
            let ghost vj = pts[j as int].1;
            let mut l_j = Polynomial::one();
            proof {
                lemma_eval_single(l_j@, pj);
            }
            let mut i: usize = 0;
            while i < k
                invariant
                    scalar_field_laws(),
                    pts == p@,
                    k == pts.len(),
                    k + 2 <= usize::MAX,
                    forall|i1: int, j1: int| 0 <= i1 < j1 < pts.len() ==> pts[i1].0 != pts[j1].0,
                    zero == s_zero(),
                    j < k,
                    pj == pts[j as int].0,
                    i <= k,
                    l_j@.len() == if i <= j {
                        i + 1
                    } else {
                        i as int
                    },
                    poly_eval(l_j@, pj) == s_one(),
                    forall|m: int|
                        0 <= m < i && m != j ==> poly_eval(l_j@, pts[m].0) == s_zero(),
                decreases k - i,
            {
                if i != j {
                    let ghost old_lj = l_j@;
                    let ghost pi = pts[i as int].0;
                    let d = scalar_sub(p[j].0, p[i].0);
                    let c = scalar_invert(d);
                    let cpi = scalar_mul(c, p[i].0);
                    let c0 = scalar_sub(zero, cpi);
                    let mut lv: Vec<Scalar> = Vec::new();
                    lv.push(c0);
                    lv.push(c);
                    let linear = Polynomial(lv);
                    proof {
                        assert(linear@ =~= seq![
                            s_sub(s_zero(), s_mul(s_inv(s_sub(pj, pi)), pi)),
                            s_inv(s_sub(pj, pi)),
                        ]);
                    }
                    l_j = l_j.mul_poly(&linear);
                    proof {
                        let lin = seq![
                            s_sub(s_zero(), s_mul(s_inv(s_sub(pj, pi)), pi)),
                            s_inv(s_sub(pj, pi)),
                        ];
                        assert(pi != pj);
                        lemma_eval_conv(old_lj, lin, pj);
                        lemma_linear_at_pivot(pi, pj);
                        lemma_mul_one(s_one());
                        assert(poly_eval(l_j@, pj) == s_one());
                        assert forall|m: int|
                            0 <= m < i + 1 && m != j implies poly_eval(l_j@, pts[m].0)
                            == s_zero() by {
                            let pm = pts[m].0;
                            lemma_eval_conv(old_lj, lin, pm);
                            if m < i {
                                lemma_mul_zero(poly_eval(lin, pm));
                            } else {
                                lemma_linear_at_root(s_inv(s_sub(pj, pi)), pi);
                                lemma_mul_zero(poly_eval(old_lj, pm));
                            }
                        }
                    }
                }
                i = i + 1;
            }
            let term = l_j.mul_scalar(&p[j].1);
            proof {
                assert forall|m: int| 0 <= m < k implies poly_eval(term@, pts[m].0) == s_mul(
                    poly_eval(l_j@, pts[m].0),
                    vj,
                ) by {
                    let pm = pts[m].0;
                    if vj == s_zero() {
                        lemma_eval_single(term@, pm);
                        lemma_mul_zero(poly_eval(l_j@, pm));
                    } else {
                        lemma_eval_scale(l_j@, vj, pm);
                    }
                }
            }
            let ghost old_l = l@;
            l.add_assign(&term);
            proof {
                lemma_strip_len(add_seq(old_l, term@));
                assert forall|m: int| 0 <= m < k implies poly_eval(l@, pts[m].0) == (if m < j
                    + 1 {
                    pts[m].1
                } else {
                    s_zero()
                }) by {
                    let pm = pts[m].0;
                    lemma_eval_add(old_l, term@, pm);
                    lemma_eval_strip(add_seq(old_l, term@), pm);
                    if m < j {
                        lemma_mul_zero(vj);
                        lemma_add_zero(pts[m].1);
                    } else if m == j {
                        lemma_mul_one(vj);
                        lemma_add_zero(vj);
                    } else {
                        lemma_mul_zero(vj);
                        lemma_add_zero(s_zero());
                    }
                }
            }
            j = j + 1;
        }
        l
    }

    /// Adds a scalar to the constant coefficient, leaving the rest as is.
    pub fn add_scalar(&mut self, rhs: &Scalar)
        requires
            old(self)@.len() >= 1,
        ensures
            final(self)@ == old(self)@.update(0, s_add(old(self)@[0], *rhs)),
    {
        let s = scalar_add(self.0[0], *rhs);
        self.0.set(0, s);
    }

    /// A copy of the coefficient vector; `Scalar` is a plain value.
    fn copy_coefficients(&self) -> (r: Vec<Scalar>)
        ensures
            r@ == self@,
    {
        let mut out: Vec<Scalar> = Vec::new();
        let mut i: usize = 0;
        while i < self.0.len()
            invariant
                i <= self@.len(),
                out@.len() == i,
                forall|k: int| 0 <= k < i ==> out@[k] == self@[k],
            decreases self@.len() - i,
        {
            out.push(self.0[i]);
            i = i + 1;
        }
        proof {
            assert(out@ =~= self@);
        }
        out
    }

    /// Long division by a nonzero polynomial: the quotient and remainder
    /// satisfy `self == quotient * rhs + remainder` at every point, and
    /// the remainder is zero or of lower degree than the divisor.
    pub fn div_poly(&self, rhs: &Polynomial) -> (r: (Polynomial, Polynomial))
        requires
            self@.len() >= 1,
            self@.len() < usize::MAX,
            rhs.wf(),
            !(rhs@.len() == 1 && rhs@[0] == s_zero()),
        ensures
            r.0.wf(),
            r.1.wf(),
            forall|x: Scalar|
                poly_eval(self@, x) == s_add(
                    s_mul(poly_eval(r.0@, x), poly_eval(rhs@, x)),
                    #[trigger] poly_eval(r.1@, x),
                ),
            r.1@.len() == 1 || r.1@.len() < rhs@.len(),
        decreases self@.len(),
    {
        let ghost orig = self@;
        let zero = scalar_zero();
        let mut q = Polynomial::zero();
        let mut rem = Polynomial(self.copy_coefficients());
        rem.normalize();
        proof {
            lemma_div_invariant_init(rhs@, orig);
            lemma_strip_len(orig);
            assert(q@ =~= seq![s_zero()]);
        }
        while !rem.is_zero() && rem.degree() >= rhs.degree()
            invariant
                scalar_field_laws(),
                zero == s_zero(),
                rhs.wf(),
                !(rhs@.len() == 1 && rhs@[0] == s_zero()),
                q.wf(),
                rem.wf(),
                orig.len() >= 1,
                orig.len() < usize::MAX,
                rem@.len() <= orig.len(),
                q@.len() <= orig.len(),
                div_invariant(q@, rem@, rhs@, orig),
            decreases rem@.len() + (if rem@.len() == 1 && rem@[0] == s_zero() {
                0int
            } else {
                1int
            }),
        {
            let ghost q0 = q@;
            let ghost r0 = rem@;
            let rlen = rem.0.len();
            let dlen = rhs.0.len();
            let lead_r = rem.0[rlen - 1];
            let lead_d = rhs.0[dlen - 1];
            proof {
                assert(lead_d != s_zero());
                assert(lead_r != s_zero());
            }
            let inv = scalar_invert(lead_d);
            let coef = scalar_mul(lead_r, inv);
            proof {
                lemma_cancel_lead(lead_d, lead_r);
            }
            let i = rlen - dlen;
            let mut t = Polynomial::zero();
            t.set(i, coef);
            proof {
                let base = padded_to(seq![s_zero()], i + 1).update(i as int, coef);
                assert(base.len() == i + 1);
                assert(base.last() == coef);
                assert(t@ == base);
            }
            q.add_assign(&t);
            let prod = rhs.mul_poly(&t);
            rem.sub_assign(&prod);
            proof {
                lemma_strip_len(add_seq(q0, t@));
                lemma_strip_len(sub_seq(r0, prod@));
                lemma_div_invariant_step(q0, r0, rhs@, orig, t@);
                lemma_div_remainder_shrinks(r0, rhs@, t@);
            }
        }
        proof {
            reveal(div_invariant);
        }
        (q, rem)
    }

    /// The value of the polynomial at `x`, by Horner's rule.
    pub fn eval(&self, x: &Scalar) -> (r: Scalar)
        ensures
            r == poly_eval(self@, *x),
    {
        let mut acc = scalar_zero();
        let mut i: usize = self.0.len();
        while i > 0
            invariant
                i <= self@.len(),
                acc == poly_eval(self@.subrange(i as int, self@.len() as int), *x),
            decreases i,
        {
            i = i - 1;
            let t = scalar_mul(*x, acc);
            acc = scalar_add(self.0[i], t);
            proof {
                let tail = self@.subrange(i + 1, self@.len() as int);
                let cur = self@.subrange(i as int, self@.len() as int);
                assert(cur[0] == self@[i as int]);
                assert(cur.subrange(1, cur.len() as int) =~= tail);
            }
        }
        proof {
            assert(self@.subrange(0, self@.len() as int) =~= self@);
        }
        acc
    }
}

} // verus!
