//! Scalar-field layer: the commitment scheme's field elements.
//!
//! `curve25519_dalek::scalar::Scalar` is an element of the prime field of
//! integers modulo the Ristretto group order. The arithmetic itself is done
//! by the outside crate; each operation is named by an uninterpreted spec
//! function, and the algebraic laws of a prime field relate those names.

use vstd::prelude::*;

verus! {

use curve25519_dalek::scalar::Scalar;

#[verifier::external_type_specification]
#[verifier::external_body]
pub struct ExScalar(Scalar);

/// What `Scalar` addition returns.
pub uninterp spec fn s_add(a: Scalar, b: Scalar) -> Scalar;

/// What `Scalar` subtraction returns.
pub uninterp spec fn s_sub(a: Scalar, b: Scalar) -> Scalar;

/// What `Scalar` multiplication returns.
pub uninterp spec fn s_mul(a: Scalar, b: Scalar) -> Scalar;

/// What `Scalar::invert` returns.
pub uninterp spec fn s_inv(a: Scalar) -> Scalar;

/// What `Scalar::from` returns on a `u128`.
pub uninterp spec fn s_from_u128(x: u128) -> Scalar;

/// What `Scalar::from_bytes_mod_order` returns.
pub uninterp spec fn s_mod_order(bs: Seq<u8>) -> Scalar;

/// What `Scalar::from_bytes_mod_order_wide` returns.
pub uninterp spec fn s_wide(bs: Seq<u8>) -> Scalar;

/// The additive identity of the field, `Scalar::from(0)`.
pub open spec fn s_zero() -> Scalar {
    s_from_u128(0)
}

/// The multiplicative identity of the field, `Scalar::from(1)`.
pub open spec fn s_one() -> Scalar {
    s_from_u128(1)
}

/// The laws of the scalar field, as the outside crate documents them:
/// `Scalar` is the field of integers modulo the prime group order
/// `l = 2^252 + 27742317777372353535851937790883648493`, with `+`, `-`, `*`
/// and `invert` the field operations and `Scalar::from` the canonical ring
/// map. So addition and multiplication are commutative and associative,
/// multiplication distributes over addition, zero and one are the
/// identities, `a - b` is the unique `d` with `d + b == a` (zero exactly
/// when `a == b`), a nonzero element times its inverse is one, and -
/// because `l > 2^128` - distinct `u128` values map to distinct scalars.
#[verifier::opaque]
pub open spec fn scalar_field_laws() -> bool {
    &&& forall|a: Scalar, b: Scalar| #[trigger] s_add(a, b) == s_add(b, a)
    &&& forall|a: Scalar, b: Scalar, c: Scalar|
        #[trigger] s_add(s_add(a, b), c) == s_add(a, s_add(b, c))
    &&& forall|a: Scalar| #[trigger] s_add(a, s_zero()) == a
    &&& forall|a: Scalar, b: Scalar| #[trigger] s_mul(a, b) == s_mul(b, a)
    &&& forall|a: Scalar, b: Scalar, c: Scalar|
        #[trigger] s_mul(s_mul(a, b), c) == s_mul(a, s_mul(b, c))
    &&& forall|a: Scalar| #[trigger] s_mul(a, s_one()) == a
    &&& forall|a: Scalar| #[trigger] s_mul(a, s_zero()) == s_zero()
    &&& forall|a: Scalar, b: Scalar, c: Scalar|
        #[trigger] s_mul(a, s_add(b, c)) == s_add(s_mul(a, b), s_mul(a, c))
    &&& forall|a: Scalar, b: Scalar| #[trigger] s_add(s_sub(a, b), b) == a
    &&& forall|a: Scalar, b: Scalar| ((#[trigger] s_sub(a, b)) == s_zero()) <==> a == b
    &&& forall|a: Scalar| a != s_zero() ==> #[trigger] s_mul(a, s_inv(a)) == s_one()
    &&& forall|x: u128, y: u128|
        #![trigger s_from_u128(x), s_from_u128(y)]
        x != y ==> s_from_u128(x) != s_from_u128(y)
}

/// Any scalar the outside crate hands back witnesses that the field laws
/// hold: the predicate does not constrain `r` itself beyond its type, it
/// records that a field element exists under [`scalar_field_laws`], which
/// is what lets verified callers use those laws.
pub open spec fn witnesses_field_laws(r: Scalar) -> bool {
    scalar_field_laws()
}

/// Relies on `Scalar`'s `Add` impl: field addition modulo the group order.
#[verifier::external_body]
pub fn scalar_add(a: Scalar, b: Scalar) -> (r: Scalar)
    ensures
        r == s_add(a, b),
        witnesses_field_laws(r),
{
    a + b
}

/// Relies on `Scalar`'s `Sub` impl: field subtraction modulo the group order.
#[verifier::external_body]
pub fn scalar_sub(a: Scalar, b: Scalar) -> (r: Scalar)
    ensures
        r == s_sub(a, b),
        witnesses_field_laws(r),
{
    a - b
}

/// Relies on `Scalar`'s `Mul` impl: field multiplication modulo the group order.
#[verifier::external_body]
pub fn scalar_mul(a: Scalar, b: Scalar) -> (r: Scalar)
    ensures
        r == s_mul(a, b),
        witnesses_field_laws(r),
{
    a * b
}

/// Relies on `Scalar::invert`: the multiplicative inverse of a nonzero scalar.
#[verifier::external_body]
pub fn scalar_invert(a: Scalar) -> (r: Scalar)
    ensures
        r == s_inv(a),
        witnesses_field_laws(r),
{
    a.invert()
}

/// Relies on `Scalar`'s `From<u128>` impl: the canonical ring map, injective
/// on `u128` because the group order is larger than `2^128`.
#[verifier::external_body]
pub fn scalar_from_u128(x: u128) -> (r: Scalar)
    ensures
        r == s_from_u128(x),
        witnesses_field_laws(r),
{
    Scalar::from(x)
}

/// Relies on `Scalar::ZERO`, documented as the scalar zero, `Scalar::from(0)`.
#[verifier::external_body]
pub fn scalar_zero() -> (r: Scalar)
    ensures
        r == s_zero(),
        witnesses_field_laws(r),
{
    Scalar::ZERO
}

/// Relies on `Scalar::ONE`, documented as the scalar one, `Scalar::from(1)`.
#[verifier::external_body]
pub fn scalar_one() -> (r: Scalar)
    ensures
        r == s_one(),
        witnesses_field_laws(r),
{
    Scalar::ONE
}

/// Relies on `Scalar::from_bytes_mod_order`: reduces 32 little-endian bytes
/// modulo the group order; a function of the bytes alone.
#[verifier::external_body]
pub fn scalar_from_bytes_mod_order(bytes: [u8; 32]) -> (r: Scalar)
    ensures
        r == s_mod_order(bytes@),
{
    Scalar::from_bytes_mod_order(bytes)
}

/// Relies on `Scalar::from_bytes_mod_order_wide`: reduces 64 little-endian
/// bytes modulo the group order; a function of the bytes alone.
#[verifier::external_body]
pub fn scalar_from_bytes_wide(bytes: &[u8; 64]) -> (r: Scalar)
    ensures
        r == s_wide(bytes@),
{
    Scalar::from_bytes_mod_order_wide(bytes)
}

/// What `Scalar::to_bytes` returns: the canonical 32-byte encoding.
pub uninterp spec fn s_bytes_of(s: Scalar) -> Seq<u8>;

/// Relies on `Scalar::to_bytes`: the canonical little-endian 32-byte
/// encoding, a function of the scalar alone.
#[verifier::external_body]
pub fn scalar_to_bytes(s: &Scalar) -> (r: [u8; 32])
    ensures
        r@ == s_bytes_of(*s),
        r@.len() == 32,
{
    s.to_bytes()
}

/// Relies on `Scalar`'s `PartialEq` impl, which compares the canonical
/// 32-byte encodings and so decides equality of the field elements.
#[verifier::external_body]
pub fn scalar_eq(a: &Scalar, b: &Scalar) -> (r: bool)
    ensures
        r == (a == b),
{
    a == b
}

} // verus!
