//! How [`poly_eval`] interacts with the polynomial operations.
//!
//! Every lemma assumes [`scalar_field_laws`], the algebraic description of
//! the scalar field; callers obtain it from any scalar wrapper's contract.

use vstd::prelude::*;

use crate::field::{s_add, s_inv, s_mul, s_one, s_sub, s_zero, scalar_field_laws};
use crate::proving_schemes::polynomial::{
    add_seq, conv, conv_partial, conv_term_ok, padded_to, poly_eval, scale_seq, strip, sub_seq,
};

verus! {

use curve25519_dalek::scalar::Scalar;

/// Rearranging a sum of four scalars: `(p + q) + (r + t) == (p + r) + (q + t)`.
pub proof fn lemma_add_ac4(p: Scalar, q: Scalar, r: Scalar, t: Scalar)
    requires
        scalar_field_laws(),
    ensures
        s_add(s_add(p, q), s_add(r, t)) == s_add(s_add(p, r), s_add(q, t)),
{
    reveal(scalar_field_laws);
    assert(s_add(s_add(p, q), s_add(r, t)) == s_add(p, s_add(q, s_add(r, t))));
    assert(s_add(s_add(q, r), t) == s_add(q, s_add(r, t)));
    assert(s_add(q, r) == s_add(r, q));
    assert(s_add(s_add(r, q), t) == s_add(r, s_add(q, t)));
    assert(s_add(s_add(p, r), s_add(q, t)) == s_add(p, s_add(r, s_add(q, t))));
}

/// A polynomial whose coefficients are all zero evaluates to zero.
pub proof fn lemma_eval_all_zeros(z: Seq<Scalar>, x: Scalar)
    requires
        scalar_field_laws(),
        forall|i: int| 0 <= i < z.len() ==> z[i] == s_zero(),
    ensures
        poly_eval(z, x) == s_zero(),
    decreases z.len(),
{
    reveal(scalar_field_laws);
    if z.len() > 0 {
        let rest = z.subrange(1, z.len() as int);
        lemma_eval_all_zeros(rest, x);
        assert(s_mul(x, s_zero()) == s_zero());
        assert(s_add(s_zero(), s_zero()) == s_zero());
    }
}

/// Appending zero coefficients does not change the value.
pub proof fn lemma_eval_append_zeros(s: Seq<Scalar>, z: Seq<Scalar>, x: Scalar)
    requires
        scalar_field_laws(),
        forall|i: int| 0 <= i < z.len() ==> z[i] == s_zero(),
    ensures
        poly_eval(s + z, x) == poly_eval(s, x),
    decreases s.len(),
{
    if s.len() == 0 {
        assert(s + z =~= z);
        lemma_eval_all_zeros(z, x);
    } else {
        let rest = s.subrange(1, s.len() as int);
        assert((s + z).subrange(1, (s + z).len() as int) =~= rest + z);
        lemma_eval_append_zeros(rest, z, x);
        assert((s + z)[0] == s[0]);
    }
}

/// Removing trailing zero coefficients does not change the value.
pub proof fn lemma_eval_strip(s: Seq<Scalar>, x: Scalar)
    requires
        scalar_field_laws(),
        s.len() >= 1,
    ensures
        poly_eval(strip(s), x) == poly_eval(s, x),
    decreases s.len(),
{
    if s.len() > 1 && s.last() == s_zero() {
        assert(s =~= s.drop_last() + seq![s.last()]);
        lemma_eval_append_zeros(s.drop_last(), seq![s.last()], x);
        lemma_eval_strip(s.drop_last(), x);
    }
}

/// The value of a pointwise sum is the sum of the values.
pub proof fn lemma_eval_add(a: Seq<Scalar>, b: Seq<Scalar>, x: Scalar)
    requires
        scalar_field_laws(),
    ensures
        poly_eval(add_seq(a, b), x) == s_add(poly_eval(a, x), poly_eval(b, x)),
    decreases a.len() + b.len(),
{
    reveal(scalar_field_laws);
    if a.len() == 0 {
        assert(add_seq(a, b) =~= b);
        assert(s_add(s_zero(), poly_eval(b, x)) == s_add(poly_eval(b, x), s_zero()));
    } else if b.len() == 0 {
        assert(add_seq(a, b) =~= a);
    } else {
        let ra = a.subrange(1, a.len() as int);
        let rb = b.subrange(1, b.len() as int);
        let s = add_seq(a, b);
        assert(s.subrange(1, s.len() as int) =~= add_seq(ra, rb));
        lemma_eval_add(ra, rb, x);
        let ea = poly_eval(ra, x);
        let eb = poly_eval(rb, x);
        assert(s_mul(x, s_add(ea, eb)) == s_add(s_mul(x, ea), s_mul(x, eb)));
        lemma_add_ac4(a[0], b[0], s_mul(x, ea), s_mul(x, eb));
        assert(s[0] == s_add(a[0], b[0]));
    }
}

/// A product coefficient left of position zero is an empty sum.
pub proof fn lemma_conv_partial_neg(a: Seq<Scalar>, b: Seq<Scalar>, k: int, n: int)
    requires
        k < 0,
    ensures
        conv_partial(a, b, k, n) == s_zero(),
    decreases n,
{
    if n > 0 {
        lemma_conv_partial_neg(a, b, k, n - 1);
    }
}

/// Splitting off the lowest coefficient of `a`: coefficient `k` of `a * b`
/// is `a[0] * b[k]` (where that term exists) plus coefficient `k - 1` of
/// `a[1..] * b`.
pub proof fn lemma_conv_partial_decompose(a: Seq<Scalar>, b: Seq<Scalar>, k: int, n: int)
    requires
        scalar_field_laws(),
        a.len() >= 1,
        1 <= n <= a.len(),
    ensures
        conv_partial(a, b, k, n) == s_add(
            if 0 <= k < b.len() {
                s_mul(a[0], b[k])
            } else {
                s_zero()
            },
            conv_partial(a.subrange(1, a.len() as int), b, k - 1, n - 1),
        ),
    decreases n,
{
    reveal(scalar_field_laws);
    let ra = a.subrange(1, a.len() as int);
    let h = if 0 <= k < b.len() {
        s_mul(a[0], b[k])
    } else {
        s_zero()
    };
    if n == 1 {
        assert(conv_partial(ra, b, k - 1, 0) == s_zero());
        assert(conv_partial(a, b, k, 0) == s_zero());
        if conv_term_ok(a, b, k, 0) {
            assert(conv_partial(a, b, k, 1) == s_add(s_zero(), s_mul(a[0], b[k])));
            assert(s_add(s_zero(), s_mul(a[0], b[k])) == s_add(s_mul(a[0], b[k]), s_zero()));
        } else {
            assert(s_add(s_zero(), s_zero()) == s_zero());
        }
    } else {
        lemma_conv_partial_decompose(a, b, k, n - 1);
        let cprev = conv_partial(ra, b, k - 1, n - 2);
        assert(conv_term_ok(a, b, k, n - 1) == conv_term_ok(ra, b, k - 1, n - 2));
        if conv_term_ok(a, b, k, n - 1) {
            let t = s_mul(a[n - 1], b[k - (n - 1)]);
            assert(ra[n - 2] == a[n - 1]);
            assert(conv_partial(ra, b, k - 1, n - 1) == s_add(cprev, t));
            assert(s_add(s_add(h, cprev), t) == s_add(h, s_add(cprev, t)));
        } else {
            assert(conv_partial(ra, b, k - 1, n - 1) == cprev);
        }
    }
}

/// Splitting off the lowest coefficient of `a` at the sequence level:
/// `a * b` is `a[0]`-scaled `b` plus `x` times `a[1..] * b`.
pub proof fn lemma_conv_decompose(a: Seq<Scalar>, b: Seq<Scalar>)
    requires
        scalar_field_laws(),
        a.len() >= 2,
        b.len() >= 1,
    ensures
        conv(a, b) =~= add_seq(
            scale_seq(b, a[0]),
            seq![s_zero()] + conv(a.subrange(1, a.len() as int), b),
        ),
{
    reveal(scalar_field_laws);
    let ra = a.subrange(1, a.len() as int);
    let zc = seq![s_zero()] + conv(ra, b);
    let rhs = add_seq(scale_seq(b, a[0]), zc);
    assert(zc.len() == a.len() + b.len() - 1);
    assert(rhs.len() == a.len() + b.len() - 1);
    assert forall|k: int| 0 <= k < conv(a, b).len() implies conv(a, b)[k] == rhs[k] by {
        lemma_conv_partial_decompose(a, b, k, a.len() as int);
        let cp = conv_partial(ra, b, k - 1, a.len() - 1);
        if k == 0 {
            lemma_conv_partial_neg(ra, b, k - 1, a.len() - 1);
            assert(s_add(s_mul(a[0], b[0]), s_zero()) == s_mul(a[0], b[0]));
            assert(s_mul(a[0], b[0]) == s_mul(b[0], a[0]));
            assert(rhs[0] == s_add(s_mul(b[0], a[0]), s_zero()));
        } else if k < b.len() {
            assert(zc[k] == cp);
            assert(rhs[k] == s_add(s_mul(b[k], a[0]), cp));
            assert(s_mul(a[0], b[k]) == s_mul(b[k], a[0]));
        } else {
            assert(zc[k] == cp);
            assert(rhs[k] == cp);
            assert(s_add(s_zero(), cp) == s_add(cp, s_zero()));
        }
    }
}

/// Multiplying by a one-coefficient polynomial is scaling.
pub proof fn lemma_conv_single(a: Seq<Scalar>, b: Seq<Scalar>)
    requires
        scalar_field_laws(),
        a.len() == 1,
        b.len() >= 1,
    ensures
        conv(a, b) =~= scale_seq(b, a[0]),
{
    reveal(scalar_field_laws);
    assert forall|k: int| 0 <= k < conv(a, b).len() implies conv(a, b)[k] == scale_seq(
        b,
        a[0],
    )[k] by {
        assert(conv_term_ok(a, b, k, 0));
        assert(conv_partial(a, b, k, 0) == s_zero());
        let t = s_mul(a[0], b[k]);
        assert(conv_partial(a, b, k, 1) == s_add(s_zero(), t));
        assert(s_add(s_zero(), t) == s_add(t, s_zero()));
        assert(t == s_mul(b[k], a[0]));
    }
}

/// Rearranging `(a0 + x * e) * f` into `f * a0 + x * (e * f)`.
pub proof fn lemma_mul_assemble(a0: Scalar, e: Scalar, f: Scalar, x: Scalar)
    requires
        scalar_field_laws(),
    ensures
        s_mul(s_add(a0, s_mul(x, e)), f) == s_add(s_mul(f, a0), s_mul(x, s_mul(e, f))),
{
    reveal(scalar_field_laws);
    let p = s_mul(x, e);
    assert(s_mul(s_add(a0, p), f) == s_mul(f, s_add(a0, p)));
    assert(s_mul(f, s_add(a0, p)) == s_add(s_mul(f, a0), s_mul(f, p)));
    assert(s_mul(f, p) == s_mul(p, f));
    assert(s_mul(s_mul(x, e), f) == s_mul(x, s_mul(e, f)));
}

/// A one-coefficient polynomial evaluates to that coefficient.
pub proof fn lemma_eval_single(a: Seq<Scalar>, x: Scalar)
    requires
        scalar_field_laws(),
        a.len() == 1,
    ensures
        poly_eval(a, x) == a[0],
{
    reveal(scalar_field_laws);
    assert(a.subrange(1, 1).len() == 0);
    assert(poly_eval(a.subrange(1, 1), x) == s_zero());
    assert(s_mul(x, s_zero()) == s_zero());
    assert(s_add(a[0], s_zero()) == a[0]);
}

/// Multiplication is commutative.
pub proof fn lemma_mul_comm(p: Scalar, q: Scalar)
    requires
        scalar_field_laws(),
    ensures
        s_mul(p, q) == s_mul(q, p),
{
    reveal(scalar_field_laws);
}

/// Prefixing a zero coefficient multiplies the value by `x`.
pub proof fn lemma_eval_zero_cons(s: Seq<Scalar>, x: Scalar)
    requires
        scalar_field_laws(),
    ensures
        poly_eval(seq![s_zero()] + s, x) == s_mul(x, poly_eval(s, x)),
{
    reveal(scalar_field_laws);
    let zc = seq![s_zero()] + s;
    assert(zc.subrange(1, zc.len() as int) =~= s);
    assert(zc[0] == s_zero());
    let e = s_mul(x, poly_eval(s, x));
    assert(s_add(s_zero(), e) == s_add(e, s_zero()));
}

/// The value of `a * b`, split at the lowest coefficient of `a`.
pub proof fn lemma_eval_conv_split(a: Seq<Scalar>, b: Seq<Scalar>, x: Scalar)
    requires
        scalar_field_laws(),
        a.len() >= 2,
        b.len() >= 1,
    ensures
        poly_eval(conv(a, b), x) == s_add(
            s_mul(poly_eval(b, x), a[0]),
            s_mul(x, poly_eval(conv(a.subrange(1, a.len() as int), b), x)),
        ),
{
    let ra = a.subrange(1, a.len() as int);
    let zc = seq![s_zero()] + conv(ra, b);
    lemma_conv_decompose(a, b);
    assert(conv(a, b) == add_seq(scale_seq(b, a[0]), zc));
    lemma_eval_add(scale_seq(b, a[0]), zc, x);
    lemma_eval_scale(b, a[0], x);
    lemma_eval_zero_cons(conv(ra, b), x);
}

/// The value of a product is the product of the values.
pub proof fn lemma_eval_conv(a: Seq<Scalar>, b: Seq<Scalar>, x: Scalar)
    requires
        scalar_field_laws(),
        a.len() >= 1,
        b.len() >= 1,
    ensures
        poly_eval(conv(a, b), x) == s_mul(poly_eval(a, x), poly_eval(b, x)),
    decreases a.len(),
{
    let ea = poly_eval(a, x);
    let eb = poly_eval(b, x);
    if a.len() == 1 {
        lemma_conv_single(a, b);
        lemma_eval_scale(b, a[0], x);
        lemma_eval_single(a, x);
        lemma_mul_comm(eb, a[0]);
        assert(conv(a, b) == scale_seq(b, a[0]));
    } else {
        let ra = a.subrange(1, a.len() as int);
        let era = poly_eval(ra, x);
        lemma_eval_conv_split(a, b, x);
        lemma_eval_conv(ra, b, x);
        lemma_mul_assemble(a[0], era, eb, x);
        assert(ea == s_add(a[0], s_mul(x, era)));
    }
}

/// Zero annihilates multiplication, on either side.
pub proof fn lemma_mul_zero(a: Scalar)
    requires
        scalar_field_laws(),
    ensures
        s_mul(a, s_zero()) == s_zero(),
        s_mul(s_zero(), a) == s_zero(),
{
    reveal(scalar_field_laws);
}

/// One is the multiplicative identity, on either side.
pub proof fn lemma_mul_one(a: Scalar)
    requires
        scalar_field_laws(),
    ensures
        s_mul(a, s_one()) == a,
        s_mul(s_one(), a) == a,
{
    reveal(scalar_field_laws);
}

/// Zero is the additive identity, on either side.
pub proof fn lemma_add_zero(a: Scalar)
    requires
        scalar_field_laws(),
    ensures
        s_add(a, s_zero()) == a,
        s_add(s_zero(), a) == a,
{
    reveal(scalar_field_laws);
}

/// Stripping trailing zeros keeps at least one coefficient and never grows.
pub proof fn lemma_strip_len(s: Seq<Scalar>)
    requires
        s.len() >= 1,
    ensures
        1 <= strip(s).len() <= s.len(),
    decreases s.len(),
{
    if s.len() > 1 && s.last() == s_zero() {
        lemma_strip_len(s.drop_last());
    }
}

/// The value of the degree-one factor `c0 + c * x`.
pub proof fn lemma_eval_linear(c0: Scalar, c: Scalar, x: Scalar)
    requires
        scalar_field_laws(),
    ensures
        poly_eval(seq![c0, c], x) == s_add(c0, s_mul(x, c)),
{
    reveal(scalar_field_laws);
    let s = seq![c0, c];
    assert(s.subrange(1, 2) =~= seq![c]);
    let t = seq![c];
    assert(t.subrange(1, 1).len() == 0);
    assert(poly_eval(t.subrange(1, 1), x) == s_zero());
    assert(poly_eval(t, x) == s_add(c, s_mul(x, s_zero())));
    assert(s_mul(x, s_zero()) == s_zero());
    assert(s_add(c, s_zero()) == c);
}

/// The Lagrange factor built for root `pi` vanishes at `pi`: with
/// `c0 == 0 - c * pi`, the factor `c0 + c * x` is zero at `x == pi`.
pub proof fn lemma_linear_at_root(c: Scalar, pi: Scalar)
    requires
        scalar_field_laws(),
    ensures
        poly_eval(seq![s_sub(s_zero(), s_mul(c, pi)), c], pi) == s_zero(),
{
    lemma_eval_linear(s_sub(s_zero(), s_mul(c, pi)), c, pi);
    reveal(scalar_field_laws);
    assert(s_mul(pi, c) == s_mul(c, pi));
    assert(s_add(s_sub(s_zero(), s_mul(c, pi)), s_mul(c, pi)) == s_zero());
}

/// The Lagrange factor normalized for pivot `pj` is one at `pj`: with
/// `c == (pj - pi)^-1` and `c0 == 0 - c * pi`, the factor `c0 + c * x`
/// is one at `x == pj`, for distinct `pi` and `pj`.
pub proof fn lemma_linear_at_pivot(pi: Scalar, pj: Scalar)
    requires
        scalar_field_laws(),
        pi != pj,
    ensures
        poly_eval(
            seq![s_sub(s_zero(), s_mul(s_inv(s_sub(pj, pi)), pi)), s_inv(s_sub(pj, pi))],
            pj,
        ) == s_one(),
{
    let d = s_sub(pj, pi);
    let c = s_inv(d);
    let c0 = s_sub(s_zero(), s_mul(c, pi));
    lemma_eval_linear(c0, c, pj);
    reveal(scalar_field_laws);
    assert(d != s_zero());
    assert(s_mul(d, s_inv(d)) == s_one());
    // pj == d + pi, so pj * c == c*d + c*pi
    assert(s_add(d, pi) == pj);
    assert(s_mul(pj, c) == s_mul(c, pj));
    assert(s_mul(c, s_add(d, pi)) == s_add(s_mul(c, d), s_mul(c, pi)));
    // c0 + (c*d + c*pi) == c*d + (c0 + c*pi) == c*d + 0 == c*d == d*c == 1
    lemma_add_ac4(s_zero(), c0, s_mul(c, d), s_mul(c, pi));
    assert(s_add(s_zero(), c0) == s_add(c0, s_zero()));
    assert(s_add(c0, s_mul(c, pi)) == s_zero());
    assert(s_add(s_zero(), s_mul(c, d)) == s_add(s_mul(c, d), s_zero()));
    assert(s_mul(c, d) == s_mul(d, c));
}

/// The value of a scaled polynomial is the scaled value.
pub proof fn lemma_eval_scale(a: Seq<Scalar>, v: Scalar, x: Scalar)
    requires
        scalar_field_laws(),
    ensures
        poly_eval(scale_seq(a, v), x) == s_mul(poly_eval(a, x), v),
    decreases a.len(),
{
    reveal(scalar_field_laws);
    if a.len() == 0 {
        assert(scale_seq(a, v) =~= a);
        assert(s_mul(s_zero(), v) == s_mul(v, s_zero()));
    } else {
        let ra = a.subrange(1, a.len() as int);
        let s = scale_seq(a, v);
        assert(s.subrange(1, s.len() as int) =~= scale_seq(ra, v));
        lemma_eval_scale(ra, v, x);
        let ea = poly_eval(ra, x);
        assert(s[0] == s_mul(a[0], v));
        // x * (ea * v) == v * (x * ea), by rearranging the product
        assert(s_mul(x, s_mul(ea, v)) == s_mul(x, s_mul(v, ea)));
        assert(s_mul(s_mul(x, v), ea) == s_mul(x, s_mul(v, ea)));
        assert(s_mul(s_mul(v, x), ea) == s_mul(v, s_mul(x, ea)));
        assert(s_mul(x, v) == s_mul(v, x));
        // (a0 + x*ea) * v == v*a0 + v*(x*ea)
        assert(s_mul(s_add(a[0], s_mul(x, ea)), v) == s_mul(v, s_add(a[0], s_mul(x, ea))));
        assert(s_mul(v, s_add(a[0], s_mul(x, ea))) == s_add(
            s_mul(v, a[0]),
            s_mul(v, s_mul(x, ea)),
        ));
        assert(s_mul(v, a[0]) == s_mul(a[0], v));
    }
}

/// The pointwise difference is the value that, added to the subtrahend's
/// value, gives back the minuend's value.
pub proof fn lemma_eval_sub(a: Seq<Scalar>, b: Seq<Scalar>, x: Scalar)
    requires
        scalar_field_laws(),
    ensures
        s_add(poly_eval(sub_seq(a, b), x), poly_eval(b, x)) == poly_eval(a, x),
    decreases a.len() + b.len(),
{
    reveal(scalar_field_laws);
    if b.len() == 0 {
        assert(sub_seq(a, b) =~= a);
        assert(s_add(poly_eval(a, x), s_zero()) == poly_eval(a, x));
    } else {
        let s = sub_seq(a, b);
        let rb = b.subrange(1, b.len() as int);
        if a.len() == 0 {
            assert(s.subrange(1, s.len() as int) =~= sub_seq(a, rb));
            lemma_eval_sub(a, rb, x);
            let es = poly_eval(sub_seq(a, rb), x);
            let erb = poly_eval(rb, x);
            assert(s[0] == s_sub(s_zero(), b[0]));
            assert(s_mul(x, s_add(es, erb)) == s_add(s_mul(x, es), s_mul(x, erb)));
            lemma_add_ac4(s_sub(s_zero(), b[0]), s_mul(x, es), b[0], s_mul(x, erb));
            assert(s_add(s_sub(s_zero(), b[0]), b[0]) == s_zero());
            assert(s_add(es, erb) == s_zero());
            assert(s_mul(x, s_zero()) == s_zero());
            assert(s_add(s_zero(), s_zero()) == s_zero());
        } else {
            let ra = a.subrange(1, a.len() as int);
            assert(s.subrange(1, s.len() as int) =~= sub_seq(ra, rb));
            lemma_eval_sub(ra, rb, x);
            let es = poly_eval(sub_seq(ra, rb), x);
            let erb = poly_eval(rb, x);
            assert(s[0] == s_sub(a[0], b[0]));
            assert(s_mul(x, s_add(es, erb)) == s_add(s_mul(x, es), s_mul(x, erb)));
            lemma_add_ac4(s_sub(a[0], b[0]), s_mul(x, es), b[0], s_mul(x, erb));
            assert(s_add(s_sub(a[0], b[0]), b[0]) == a[0]);
            assert(s_add(es, erb) == poly_eval(ra, x));
        }
    }
}

/// Multiplying by the inverse of a nonzero scalar cancels it, and never
/// turns a nonzero scalar into zero.
pub proof fn lemma_cancel_lead(d: Scalar, lr: Scalar)
    requires
        scalar_field_laws(),
        d != s_zero(),
    ensures
        s_mul(d, s_mul(lr, s_inv(d))) == lr,
        lr != s_zero() ==> s_mul(lr, s_inv(d)) != s_zero(),
{
    reveal(scalar_field_laws);
    assert(s_mul(s_mul(d, lr), s_inv(d)) == s_mul(d, s_mul(lr, s_inv(d))));
    assert(s_mul(d, lr) == s_mul(lr, d));
    assert(s_mul(s_mul(lr, d), s_inv(d)) == s_mul(lr, s_mul(d, s_inv(d))));
    assert(s_mul(d, s_inv(d)) == s_one());
    assert(s_mul(lr, s_one()) == lr);
    if lr != s_zero() && s_mul(lr, s_inv(d)) == s_zero() {
        assert(s_mul(d, s_zero()) == s_zero());
    }
}

/// Product coefficients at the very top index gather no terms from the
/// lower coefficients of `a`.
pub proof fn lemma_conv_partial_top(a: Seq<Scalar>, b: Seq<Scalar>, n: int)
    requires
        a.len() >= 1,
        b.len() >= 1,
        0 <= n <= a.len() - 1,
    ensures
        conv_partial(a, b, a.len() + b.len() - 2, n) == s_zero(),
    decreases n,
{
    if n > 0 {
        lemma_conv_partial_top(a, b, n - 1);
        assert(!conv_term_ok(a, b, a.len() + b.len() - 2, n - 1));
    }
}

/// The leading coefficient of a product is the product of the leading
/// coefficients (as the loop's one-term sum).
pub proof fn lemma_conv_last(a: Seq<Scalar>, b: Seq<Scalar>)
    requires
        a.len() >= 1,
        b.len() >= 1,
    ensures
        conv(a, b).last() == s_add(s_zero(), s_mul(a.last(), b.last())),
{
    let k = a.len() + b.len() - 2;
    lemma_conv_partial_top(a, b, a.len() - 1);
    assert(conv_term_ok(a, b, k, a.len() - 1));
    assert(conv_partial(a, b, k, a.len() as int) == s_add(
        conv_partial(a, b, k, a.len() - 1),
        s_mul(a[a.len() - 1], b[k - (a.len() - 1)]),
    ));
}

/// One division step preserves the division relation: if `q * d + r == o`
/// and the new remainder differs from `r` by `d * t`, then
/// `(q + t) * d + (new r) == o`.
pub proof fn lemma_div_step(eq: Scalar, et: Scalar, ed: Scalar, er: Scalar, ern: Scalar, eo: Scalar)
    requires
        scalar_field_laws(),
        s_add(s_mul(eq, ed), er) == eo,
        s_add(ern, s_mul(ed, et)) == er,
    ensures
        s_add(s_mul(s_add(eq, et), ed), ern) == eo,
{
    reveal(scalar_field_laws);
    assert(s_mul(s_add(eq, et), ed) == s_mul(ed, s_add(eq, et)));
    assert(s_mul(ed, s_add(eq, et)) == s_add(s_mul(ed, eq), s_mul(ed, et)));
    assert(s_add(s_add(s_mul(ed, eq), s_mul(ed, et)), ern) == s_add(
        s_mul(ed, eq),
        s_add(s_mul(ed, et), ern),
    ));
    assert(s_add(s_mul(ed, et), ern) == s_add(ern, s_mul(ed, et)));
    assert(s_mul(ed, eq) == s_mul(eq, ed));
}

/// The division relation: at every point, quotient times divisor plus
/// remainder gives the dividend.
#[verifier::opaque]
pub open spec fn div_invariant(
    q: Seq<Scalar>,
    r: Seq<Scalar>,
    d: Seq<Scalar>,
    o: Seq<Scalar>,
) -> bool {
    forall|x: Scalar|
        s_add(s_mul(poly_eval(q, x), poly_eval(d, x)), #[trigger] poly_eval(r, x)) == poly_eval(
            o,
            x,
        )
}

/// Division starts with a zero quotient and the normalized dividend as
/// remainder.
pub proof fn lemma_div_invariant_init(d: Seq<Scalar>, o: Seq<Scalar>)
    requires
        scalar_field_laws(),
        o.len() >= 1,
    ensures
        div_invariant(seq![s_zero()], strip(o), d, o),
{
    reveal(div_invariant);
    assert forall|x: Scalar|
        s_add(
            s_mul(poly_eval(seq![s_zero()], x), poly_eval(d, x)),
            #[trigger] poly_eval(strip(o), x),
        ) == poly_eval(o, x) by {
        lemma_eval_single(seq![s_zero()], x);
        lemma_mul_zero(poly_eval(d, x));
        lemma_add_zero(poly_eval(strip(o), x));
        lemma_eval_strip(o, x);
    }
}

/// One division step preserves the relation: add `t` to the quotient and
/// take `d * t` off the remainder.
pub proof fn lemma_div_invariant_step(
    q0: Seq<Scalar>,
    r0: Seq<Scalar>,
    d: Seq<Scalar>,
    o: Seq<Scalar>,
    t: Seq<Scalar>,
)
    requires
        scalar_field_laws(),
        div_invariant(q0, r0, d, o),
        q0.len() >= 1,
        r0.len() >= 1,
        d.len() >= 1,
        t.len() >= 1,
    ensures
        div_invariant(strip(add_seq(q0, t)), strip(sub_seq(r0, conv(d, t))), d, o),
{
    reveal(div_invariant);
    let q1 = strip(add_seq(q0, t));
    let prod = conv(d, t);
    let r1 = strip(sub_seq(r0, prod));
    assert forall|x: Scalar|
        s_add(s_mul(poly_eval(q1, x), poly_eval(d, x)), #[trigger] poly_eval(r1, x))
            == poly_eval(o, x) by {
        lemma_eval_add(q0, t, x);
        lemma_eval_strip(add_seq(q0, t), x);
        lemma_eval_conv(d, t, x);
        lemma_eval_sub(r0, prod, x);
        lemma_eval_strip(sub_seq(r0, prod), x);
        lemma_div_step(
            poly_eval(q0, x),
            poly_eval(t, x),
            poly_eval(d, x),
            poly_eval(r0, x),
            poly_eval(r1, x),
            poly_eval(o, x),
        );
    }
}

/// When the leading terms cancel, the stripped remainder shrinks: one
/// step of division either shortens the remainder or leaves the zero
/// polynomial.
pub proof fn lemma_div_remainder_shrinks(r0: Seq<Scalar>, d: Seq<Scalar>, t: Seq<Scalar>)
    requires
        scalar_field_laws(),
        r0.len() >= 1,
        d.len() >= 1,
        t.len() >= 1,
        r0.len() == d.len() + t.len() - 1,
        s_mul(d.last(), t.last()) == r0.last(),
    ensures
        r0.len() > 1 ==> 1 <= strip(sub_seq(r0, conv(d, t))).len() < r0.len(),
        r0.len() == 1 ==> strip(sub_seq(r0, conv(d, t))) =~= seq![s_zero()],
{
    let prod = conv(d, t);
    assert(prod.len() == r0.len());
    lemma_conv_last(d, t);
    assert(prod.last() == s_mul(d.last(), t.last())) by {
        reveal(scalar_field_laws);
        assert(s_add(s_zero(), s_mul(d.last(), t.last())) == s_add(
            s_mul(d.last(), t.last()),
            s_zero(),
        ));
    }
    let diff = sub_seq(r0, prod);
    assert(diff.len() == r0.len());
    assert(diff.last() == s_sub(r0.last(), r0.last()));
    assert(s_sub(r0.last(), r0.last()) == s_zero()) by {
        reveal(scalar_field_laws);
    }
    if r0.len() > 1 {
        assert(strip(diff) == strip(diff.drop_last()));
        lemma_strip_len(diff.drop_last());
    } else {
        assert(strip(diff) == diff);
    }
}

/// Adding a scalar changes nothing only if the scalar is zero.
pub proof fn lemma_cancel_add(d: Scalar, c: Scalar)
    requires
        scalar_field_laws(),
        s_add(d, c) == c,
    ensures
        d == s_zero(),
{
    reveal(scalar_field_laws);
    let n = s_sub(s_zero(), c);
    assert(s_add(n, c) == s_zero());
    assert(s_add(s_add(d, c), n) == s_add(d, s_add(c, n)));
    assert(s_add(c, n) == s_add(n, c));
    assert(s_add(d, s_zero()) == d);
    assert(s_add(c, n) == s_add(s_add(d, c), n));
}

/// A field has no zero divisors: a product with a nonzero factor is zero
/// only if the other factor is.
pub proof fn lemma_no_zero_divisors(a: Scalar, b: Scalar)
    requires
        scalar_field_laws(),
        a != s_zero(),
        s_mul(a, b) == s_zero(),
    ensures
        b == s_zero(),
{
    reveal(scalar_field_laws);
    let ia = s_inv(a);
    assert(s_mul(a, ia) == s_one());
    assert(s_mul(b, s_one()) == b);
    assert(s_mul(b, s_mul(a, ia)) == s_mul(s_mul(b, a), ia));
    assert(s_mul(b, a) == s_mul(a, b));
    assert(s_mul(s_mul(a, b), ia) == s_mul(ia, s_mul(a, b)));
    assert(s_mul(ia, s_zero()) == s_zero());
}

/// The quotient of dividing by the linear factor `x - r`: coefficient `k`
/// is the value of the tail `e[k+1..]` at `r`, the classical synthetic
/// division scheme.
pub open spec fn synth_quotient(e: Seq<Scalar>, r: Scalar) -> Seq<Scalar> {
    Seq::new((e.len() - 1) as nat, |k: int| poly_eval(e.subrange(k + 1, e.len() as int), r))
}

/// The scalar step of the division identity: with `q0` both the quotient's
/// constant term and the tail's value at `r`, Horner at `x` agrees with
/// the factored form.
pub proof fn lemma_synth_step(e0: Scalar, q0: Scalar, ep: Scalar, x: Scalar, r: Scalar)
    requires
        scalar_field_laws(),
    ensures
        s_add(e0, s_mul(x, s_add(s_mul(s_sub(x, r), ep), q0))) == s_add(
            s_mul(s_sub(x, r), s_add(q0, s_mul(x, ep))),
            s_add(e0, s_mul(r, q0)),
        ),
{
    reveal(scalar_field_laws);
    let d = s_sub(x, r);
    // left side: e0 + (x*(d*ep) + x*q0)
    assert(s_mul(x, s_add(s_mul(d, ep), q0)) == s_add(s_mul(x, s_mul(d, ep)), s_mul(x, q0)));
    // right side first summand: d*q0 + d*(x*ep)
    assert(s_mul(d, s_add(q0, s_mul(x, ep))) == s_add(s_mul(d, q0), s_mul(d, s_mul(x, ep))));
    // d*(x*ep) == x*(d*ep)
    assert(s_mul(d, s_mul(x, ep)) == s_mul(s_mul(d, x), ep));
    assert(s_mul(d, x) == s_mul(x, d));
    assert(s_mul(s_mul(x, d), ep) == s_mul(x, s_mul(d, ep)));
    // d*q0 + r*q0 == x*q0
    assert(s_mul(d, q0) == s_mul(q0, d));
    assert(s_mul(r, q0) == s_mul(q0, r));
    assert(s_mul(q0, s_add(d, r)) == s_add(s_mul(q0, d), s_mul(q0, r)));
    assert(s_add(d, r) == x);
    assert(s_mul(q0, x) == s_mul(x, q0));
    // assemble: both sides equal e0 + x*(d*ep) + d*q0 + r*q0
    let m1 = s_mul(x, s_mul(d, ep));
    let m2 = s_mul(d, q0);
    let m3 = s_mul(r, q0);
    assert(s_mul(x, q0) == s_add(m2, m3));
    // left == e0 + (m1 + (m2 + m3))
    assert(s_add(e0, s_add(m1, s_add(m2, m3))) == s_add(
        e0,
        s_add(s_mul(x, s_mul(d, ep)), s_mul(x, q0)),
    ));
    // right == (m2 + m1) + (e0 + m3) == e0 + (m1 + (m2 + m3))
    lemma_add_ac4(m2, m1, e0, m3);
    assert(s_add(s_add(m2, m1), s_add(e0, m3)) == s_add(s_add(m2, e0), s_add(m1, m3)));
    lemma_add_ac4(m2, e0, m1, m3);
    assert(s_add(s_add(m2, e0), s_add(m1, m3)) == s_add(s_add(m2, m1), s_add(e0, m3)));
    assert(s_add(e0, s_add(m1, s_add(m2, m3))) == s_add(s_add(e0, m1), s_add(m2, m3)));
    lemma_add_ac4(e0, m1, m2, m3);
    assert(s_add(s_add(e0, m2), s_add(m1, m3)) == s_add(s_add(e0, m1), s_add(m2, m3)));
    assert(s_add(s_add(m2, e0), s_add(m1, m3)) == s_add(s_add(e0, m2), s_add(m1, m3)));
    assert(s_add(e0, m2) == s_add(m2, e0));
}

/// Dividing by the linear factor `x - r`: at every point, a polynomial is
/// the factor times its synthetic quotient, plus its value at `r`.
pub proof fn lemma_synth_div(e: Seq<Scalar>, r: Scalar, x: Scalar)
    requires
        scalar_field_laws(),
        e.len() >= 1,
    ensures
        poly_eval(e, x) == s_add(
            s_mul(s_sub(x, r), poly_eval(synth_quotient(e, r), x)),
            poly_eval(e, r),
        ),
    decreases e.len(),
{
    let q = synth_quotient(e, r);
    if e.len() == 1 {
        assert(q.len() == 0);
        assert(poly_eval(q, x) == s_zero());
        assert(e.subrange(1, e.len() as int).len() == 0);
        assert(poly_eval(e.subrange(1, e.len() as int), x) == s_zero());
        assert(poly_eval(e.subrange(1, e.len() as int), r) == s_zero());
        assert(poly_eval(e, x) == s_add(e[0], s_mul(x, s_zero())));
        assert(poly_eval(e, r) == s_add(e[0], s_mul(r, s_zero())));
        assert(s_mul(s_sub(x, r), s_zero()) == s_zero()) by {
            reveal(scalar_field_laws);
        }
        assert(s_mul(x, s_zero()) == s_zero() && s_mul(r, s_zero()) == s_zero()) by {
            reveal(scalar_field_laws);
        }
        assert(s_add(s_zero(), poly_eval(e, r)) == poly_eval(e, r)) by {
            reveal(scalar_field_laws);
            assert(s_add(s_zero(), poly_eval(e, r)) == s_add(poly_eval(e, r), s_zero()));
        }
    } else {
        let ep = e.subrange(1, e.len() as int);
        let qp = synth_quotient(ep, r);
        lemma_synth_div(ep, r, x);
        // the quotient's tail is the tail's quotient, and its head is the
        // tail's value at r
        assert forall|k: int| 0 <= k < qp.len() implies qp[k] == q[k + 1] by {
            assert(ep.subrange(k + 1, ep.len() as int) =~= e.subrange(k + 2, e.len() as int));
        }
        assert(q.subrange(1, q.len() as int) =~= qp);
        assert(q[0] == poly_eval(ep, r)) by {
            assert(e.subrange(1, e.len() as int) =~= ep);
        }
        let e0 = e[0];
        let q0 = q[0];
        let epx = poly_eval(qp, x);
        lemma_synth_step(e0, q0, epx, x, r);
        assert(poly_eval(q, x) == s_add(q0, s_mul(x, epx)));
        assert(poly_eval(ep, x) == s_add(s_mul(s_sub(x, r), epx), q0));
        assert(poly_eval(e, x) == s_add(e0, s_mul(x, s_add(s_mul(s_sub(x, r), epx), q0))));
        assert(poly_eval(e, r) == s_add(e0, s_mul(r, q0)));
    }
}

/// A polynomial that vanishes at as many distinct points as it has
/// coefficients is the zero coefficient sequence.
pub proof fn lemma_zero_on_distinct(e: Seq<Scalar>, pts: Seq<Scalar>)
    requires
        scalar_field_laws(),
        e.len() >= 1,
        pts.len() >= e.len(),
        forall|i: int, j: int| 0 <= i < j < pts.len() ==> pts[i] != pts[j],
        forall|i: int| 0 <= i < pts.len() ==> poly_eval(e, pts[i]) == s_zero(),
    ensures
        forall|k: int| 0 <= k < e.len() ==> e[k] == s_zero(),
    decreases e.len(),
{
    if e.len() == 1 {
        assert(e.subrange(1, e.len() as int).len() == 0);
        assert(poly_eval(e.subrange(1, e.len() as int), pts[0]) == s_zero());
        assert(poly_eval(e, pts[0]) == s_add(e[0], s_mul(pts[0], s_zero())));
        assert(e[0] == s_zero()) by {
            reveal(scalar_field_laws);
            assert(s_mul(pts[0], s_zero()) == s_zero());
            assert(s_add(e[0], s_zero()) == e[0]);
        }
    } else {
        let r = pts[0];
        let q = synth_quotient(e, r);
        let rest = pts.subrange(1, pts.len() as int);
        // at every later point the factored form shows the quotient
        // vanishes
        assert forall|i: int| 0 <= i < rest.len() implies poly_eval(q, rest[i]) == s_zero() by {
            let x = rest[i];
            lemma_synth_div(e, r, x);
            assert(poly_eval(e, r) == s_zero());
            assert(poly_eval(e, x) == s_zero());
            let m = s_mul(s_sub(x, r), poly_eval(q, x));
            assert(m == s_zero()) by {
                reveal(scalar_field_laws);
                assert(s_add(m, s_zero()) == m);
            }
            assert(s_sub(x, r) != s_zero()) by {
                reveal(scalar_field_laws);
                assert(pts[i + 1] != pts[0]);
            }
            lemma_no_zero_divisors(s_sub(x, r), poly_eval(q, x));
        }
        lemma_zero_on_distinct(q, rest);
        // all quotient coefficients are zero, so the tail coefficients of
        // `e` are zero, from the top down
        assert forall|k: int| 1 <= k < e.len() implies e[k] == s_zero() by {
            let suf = e.subrange(k, e.len() as int);
            let sufn = e.subrange(k + 1, e.len() as int);
            assert(q[k - 1] == poly_eval(suf, r));
            assert(suf.subrange(1, suf.len() as int) =~= sufn);
            assert(poly_eval(suf, r) == s_add(e[k], s_mul(r, poly_eval(sufn, r))));
            assert(poly_eval(sufn, r) == s_zero()) by {
                if k + 1 < e.len() {
                    assert(q[k] == poly_eval(sufn, r));
                } else {
                    assert(sufn.len() == 0);
                }
            }
            assert(e[k] == s_zero()) by {
                reveal(scalar_field_laws);
                assert(s_mul(r, s_zero()) == s_zero());
                assert(s_add(e[k], s_zero()) == e[k]);
            }
        }
        // and the constant coefficient is the value at r, which is zero
        let ep = e.subrange(1, e.len() as int);
        assert(q[0] == poly_eval(ep, r));
        assert(poly_eval(e, r) == s_add(e[0], s_mul(r, poly_eval(ep, r))));
        assert(poly_eval(e, r) == s_zero());
        assert(e[0] == s_zero()) by {
            reveal(scalar_field_laws);
            assert(s_mul(r, s_zero()) == s_zero());
            assert(s_add(e[0], s_zero()) == e[0]);
        }
    }
}

/// Interpolation is unique: two coefficient sequences of the same length
/// that agree at that many distinct points are equal.
pub proof fn lemma_interpolation_unique(c1: Seq<Scalar>, c2: Seq<Scalar>, pts: Seq<Scalar>)
    requires
        scalar_field_laws(),
        c1.len() == c2.len(),
        c1.len() >= 1,
        pts.len() >= c1.len(),
        forall|i: int, j: int| 0 <= i < j < pts.len() ==> pts[i] != pts[j],
        forall|i: int| 0 <= i < pts.len() ==> poly_eval(c1, pts[i]) == poly_eval(c2, pts[i]),
    ensures
        c1 == c2,
{
    let e = sub_seq(c1, c2);
    assert(e.len() == c1.len());
    assert forall|i: int| 0 <= i < pts.len() implies poly_eval(e, pts[i]) == s_zero() by {
        lemma_eval_sub(c1, c2, pts[i]);
        lemma_cancel_add(poly_eval(e, pts[i]), poly_eval(c2, pts[i]));
    }
    lemma_zero_on_distinct(e, pts);
    assert forall|k: int| 0 <= k < c1.len() implies c1[k] == c2[k] by {
        assert(e[k] == s_sub(c1[k], c2[k]));
        assert(c1[k] == c2[k]) by {
            reveal(scalar_field_laws);
        }
    }
    assert(c1 =~= c2);
}

/// A product with an empty factor has only empty sums.
pub proof fn lemma_conv_partial_empty(b: Seq<Scalar>, e: Seq<Scalar>, k: int, n: int)
    requires
        e.len() == 0,
    ensures
        conv_partial(b, e, k, n) == s_zero(),
    decreases n,
{
    if n > 0 {
        lemma_conv_partial_empty(b, e, k, n - 1);
        assert(!conv_term_ok(b, e, k, n - 1));
    }
}

/// Splitting off the lowest coefficient of the second factor: coefficient
/// `k` of `b * a` is coefficient `k - 1` of `b * a[1..]` plus the one term
/// `b[k] * a[0]`, once the sum has reached index `k`.
pub proof fn lemma_conv_partial_decompose_second(b: Seq<Scalar>, a: Seq<Scalar>, k: int, n: int)
    requires
        scalar_field_laws(),
        a.len() >= 1,
        0 <= n <= b.len(),
    ensures
        conv_partial(b, a, k, n) == s_add(
            conv_partial(b, a.subrange(1, a.len() as int), k - 1, n),
            if 0 <= k < b.len() && n > k {
                s_mul(b[k], a[0])
            } else {
                s_zero()
            },
        ),
    decreases n,
{
    reveal(scalar_field_laws);
    let ra = a.subrange(1, a.len() as int);
    if n == 0 {
        assert(s_add(s_zero(), s_zero()) == s_zero());
    } else {
        lemma_conv_partial_decompose_second(b, a, k, n - 1);
        let cp = conv_partial(b, ra, k - 1, n - 1);
        if n - 1 == k {
            assert(!conv_term_ok(b, ra, k - 1, n - 1));
            assert(conv_partial(b, ra, k - 1, n) == cp);
            if k < b.len() {
                let t = s_mul(b[k], a[0]);
                assert(conv_term_ok(b, a, k, n - 1));
                assert(a[k - (n - 1)] == a[0]);
                assert(conv_partial(b, a, k, n) == s_add(s_add(cp, s_zero()), t));
                assert(s_add(s_add(cp, s_zero()), t) == s_add(cp, t));
            } else {
                assert(!conv_term_ok(b, a, k, n - 1));
            }
        } else {
            assert(conv_term_ok(b, a, k, n - 1) == conv_term_ok(b, ra, k - 1, n - 1));
            if conv_term_ok(b, a, k, n - 1) {
                let tn = s_mul(b[n - 1], a[k - (n - 1)]);
                assert(a[k - (n - 1)] == ra[(k - 1) - (n - 1)]);
                assert(conv_partial(b, ra, k - 1, n) == s_add(cp, tn));
                let t = if 0 <= k < b.len() && n - 1 > k {
                    s_mul(b[k], a[0])
                } else {
                    s_zero()
                };
                lemma_add_ac4(cp, t, tn, s_zero());
                assert(s_add(s_add(cp, t), s_add(tn, s_zero())) == s_add(
                    s_add(cp, tn),
                    s_add(t, s_zero()),
                ));
                assert(s_add(tn, s_zero()) == tn);
                assert(s_add(t, s_zero()) == t);
            } else {
                assert(conv_partial(b, ra, k - 1, n) == cp);
            }
        }
    }
}

/// Coefficient `k` of `a * b` equals coefficient `k` of `b * a`.
pub proof fn lemma_conv_comm_at(a: Seq<Scalar>, b: Seq<Scalar>, k: int)
    requires
        scalar_field_laws(),
        a.len() >= 1,
        b.len() >= 1,
    ensures
        conv_partial(a, b, k, a.len() as int) == conv_partial(b, a, k, b.len() as int),
    decreases a.len(),
{
    reveal(scalar_field_laws);
    let ra = a.subrange(1, a.len() as int);
    let h = if 0 <= k < b.len() {
        s_mul(a[0], b[k])
    } else {
        s_zero()
    };
    lemma_conv_partial_decompose(a, b, k, a.len() as int);
    lemma_conv_partial_decompose_second(b, a, k, b.len() as int);
    let t = if 0 <= k < b.len() {
        s_mul(b[k], a[0])
    } else {
        s_zero()
    };
    assert(h == t);
    if a.len() == 1 {
        assert(conv_partial(ra, b, k - 1, 0) == s_zero());
        lemma_conv_partial_empty(b, ra, k - 1, b.len() as int);
        assert(s_add(h, s_zero()) == h);
        assert(s_add(s_zero(), t) == s_add(t, s_zero()));
        assert(s_add(t, s_zero()) == t);
    } else {
        lemma_conv_comm_at(ra, b, k - 1);
        let x = conv_partial(ra, b, k - 1, a.len() - 1);
        assert(s_add(h, x) == s_add(x, h));
    }
}

/// Polynomial multiplication is commutative, coefficient by coefficient.
pub proof fn lemma_conv_comm(a: Seq<Scalar>, b: Seq<Scalar>)
    requires
        scalar_field_laws(),
        a.len() >= 1,
        b.len() >= 1,
    ensures
        conv(a, b) == conv(b, a),
{
    assert forall|k: int| 0 <= k < conv(a, b).len() implies conv(a, b)[k] == conv(b, a)[k] by {
        lemma_conv_comm_at(a, b, k);
    }
    assert(conv(a, b) =~= conv(b, a));
}

} // verus!
