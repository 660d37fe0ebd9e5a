//! The Jubjub curve as an arithmetic provider, on top of arkworks.
//!
//! The three types of this module hold arkworks values that nothing outside
//! it can reach or replace: every value is made by arkworks itself, from the
//! generator onwards. Verus sees nothing inside them. What it knows of them
//! is what the functions at the end of the module state; each of those makes
//! one call into arkworks, and its contract is believed, not proved.
//!
//! That the points of Jubjub form a group is mathematics that is not proved
//! here either: the statements of [`crate::laws`] have it as a premise.

use crate::error::Error;
use crate::group::{be_value, Encode, Group, RandomnessSource, Scalar};
use vstd::prelude::*;

verus! {

/// A point of the Jubjub curve, in extended twisted Edwards coordinates.
#[verifier::external_body]
#[derive(Debug)]
pub struct Jubjub {
    inner: ark_ed_on_bls12_381::EdwardsProjective,
}

/// A point of the Jubjub curve, in affine coordinates.
#[verifier::external_body]
#[derive(Debug)]
pub struct JubjubAffine {
    inner: ark_ed_on_bls12_381::EdwardsAffine,
}

/// An element of the scalar field of Jubjub.
#[verifier::external_body]
#[derive(Debug)]
pub struct JubjubScalar {
    inner: ark_ed_on_bls12_381::Fr,
}

/// The error of ark-serialize, which is carried through and never read.
#[verifier::external_type_specification]
#[verifier::external_body]
pub struct ExSerializationError(ark_serialize::SerializationError);

/// The standard generator of rand, from which scalars can be drawn.
#[verifier::external_type_specification]
#[verifier::external_body]
pub struct ExStdRng(ark_std::rand::rngs::StdRng);

/// The canonical compressed encoding of the curve point that `p` stands for:
/// its affine y coordinate in 32 little-endian bytes, with the sign of x in
/// the top bit.
pub uninterp spec fn point_encoding(p: Jubjub) -> Seq<u8>;

/// The canonical compressed encoding of the curve point `p`.
pub uninterp spec fn affine_encoding(p: JubjubAffine) -> Seq<u8>;

/// The integer in `0..jubjub_order()` that `s` stands for.
pub uninterp spec fn scalar_residue(s: JubjubScalar) -> nat;

/// The encoding of the sum of the points with encodings `a` and `b`.
pub uninterp spec fn jubjub_sum(a: Seq<u8>, b: Seq<u8>) -> Seq<u8>;

/// The encoding of `k` times the point with encoding `p`.
pub uninterp spec fn jubjub_product(p: Seq<u8>, k: nat) -> Seq<u8>;

/// Whether arkworks writes out the point that has this encoding. A point in
/// extended coordinates is written out as its affine form is.
pub uninterp spec fn jubjub_encodable(encoding: Seq<u8>) -> bool;

/// The order of the scalar field of Jubjub, a prime of 252 bits.
pub open spec fn jubjub_order() -> nat {
    6554484396890773809930967563523245729705921265872317281365359162392183254199nat
}

/// The compressed encoding of the generator that arkworks fixes for Jubjub.
pub open spec fn generator_encoding() -> Seq<u8> {
    seq![
        0xaau8, 0x92u8, 0xd2u8, 0x59u8, 0x0eu8, 0x87u8, 0x3fu8, 0xccu8,
        0xd7u8, 0xfeu8, 0x20u8, 0xc2u8, 0x5cu8, 0xbau8, 0x26u8, 0x3eu8,
        0xc3u8, 0xc0u8, 0x66u8, 0xc8u8, 0x78u8, 0x2eu8, 0x13u8, 0x93u8,
        0x17u8, 0x1au8, 0xabu8, 0xddu8, 0xf1u8, 0x3cu8, 0x52u8, 0x1du8,
    ]
}

impl Jubjub {
    /// The generator of the prime-order subgroup that arkworks fixes.
    pub fn generator() -> (g: Jubjub)
        ensures
            g.encoding() == generator_encoding(),
    {
        point_generator()
    }
}

impl Clone for Jubjub {
    fn clone(&self) -> (r: Self)
        ensures
            r == *self,
    {
        point_copy(self)
    }
}

impl Clone for JubjubScalar {
    fn clone(&self) -> (r: Self)
        ensures
            r == *self,
    {
        scalar_copy(self)
    }
}

impl Encode for Jubjub {
    open spec fn encoding(&self) -> Seq<u8> {
        point_encoding(*self)
    }

    open spec fn encodable(encoding: Seq<u8>) -> bool {
        jubjub_encodable(encoding)
    }

    fn serialize_compressed(&self) -> (r: Result<Vec<u8>, Error>) {
        match point_serialize(self) {
            Ok(bytes) => Ok(bytes),
            Err(_) => Err(Error::SerializationError),
        }
    }
}

impl Encode for JubjubAffine {
    open spec fn encoding(&self) -> Seq<u8> {
        affine_encoding(*self)
    }

    open spec fn encodable(encoding: Seq<u8>) -> bool {
        jubjub_encodable(encoding)
    }

    fn serialize_compressed(&self) -> (r: Result<Vec<u8>, Error>) {
        match affine_serialize(self) {
            Ok(bytes) => Ok(bytes),
            Err(_) => Err(Error::SerializationError),
        }
    }
}

impl Scalar for JubjubScalar {
    open spec fn modulus() -> nat {
        jubjub_order()
    }

    open spec fn value(&self) -> nat {
        scalar_residue(*self)
    }

    fn from_be_bytes_mod_order(bytes: &[u8]) -> (r: Self) {
        scalar_from_be_bytes_mod_order(bytes)
    }

    fn add(&self, rhs: &Self) -> (r: Self) {
        scalar_add(self, rhs)
    }

    fn mul(&self, rhs: &Self) -> (r: Self) {
        scalar_mul(self, rhs)
    }
}

impl Group for Jubjub {
    type ScalarField = JubjubScalar;

    type Affine = JubjubAffine;

    open spec fn sum(a: Seq<u8>, b: Seq<u8>) -> Seq<u8> {
        jubjub_sum(a, b)
    }

    open spec fn product(p: Seq<u8>, k: nat) -> Seq<u8> {
        jubjub_product(p, k)
    }

    fn add(&self, rhs: &Self) -> (r: Self) {
        point_add(self, rhs)
    }

    fn mul(&self, k: &JubjubScalar) -> (r: Self) {
        point_mul(self, k)
    }

    fn into_affine(&self) -> (r: JubjubAffine) {
        point_into_affine(self)
    }

    fn equals(&self, rhs: &Self) -> (same: bool) {
        point_eq(self, rhs)
    }
}

impl RandomnessSource<JubjubScalar> for ark_std::rand::rngs::StdRng {
    fn sample(&mut self) -> (r: JubjubScalar) {
        scalar_sample(self)
    }
}

/// `Group::generator` of ark-ec, for the Jubjub curve: the fixed generator,
/// whose coordinates ark-ed-on-bls12-381 gives as constants. Its x coordinate
/// counts as positive, so the encoding is the little-endian y coordinate.
#[verifier::external_body]
fn point_generator() -> (g: Jubjub)
    ensures
        point_encoding(g) == generator_encoding(),
{
    Jubjub { inner: ark_ec::Group::generator() }
}

/// `Clone::clone` of ark-ec on a point in extended coordinates, which copies
/// the four coordinates: the same value.
#[verifier::external_body]
fn point_copy(p: &Jubjub) -> (r: Jubjub)
    ensures
        r == *p,
{
    Jubjub { inner: p.inner.clone() }
}

/// `+` of ark-ec on two points in extended coordinates: the sum of the two
/// curve points, which depends on the points alone and not on the coordinates
/// that stand for them.
#[verifier::external_body]
fn point_add(p: &Jubjub, q: &Jubjub) -> (r: Jubjub)
    ensures
        point_encoding(r) == jubjub_sum(point_encoding(*p), point_encoding(*q)),
{
    Jubjub { inner: p.inner + q.inner }
}

/// `*` of ark-ec on a point and a scalar: the point multiplied by the integer
/// that the scalar stands for.
#[verifier::external_body]
fn point_mul(p: &Jubjub, k: &JubjubScalar) -> (r: Jubjub)
    ensures
        point_encoding(r) == jubjub_product(point_encoding(*p), scalar_residue(*k)),
{
    Jubjub { inner: p.inner * k.inner }
}

/// `==` of ark-ec on two points in extended coordinates: whether they are the
/// same curve point. Two points are the same exactly when their canonical
/// encodings are.
#[verifier::external_body]
fn point_eq(p: &Jubjub, q: &Jubjub) -> (same: bool)
    ensures
        same == (point_encoding(*p) == point_encoding(*q)),
{
    p.inner == q.inner
}

/// `CurveGroup::into_affine` of ark-ec: the same curve point in affine
/// coordinates.
#[verifier::external_body]
fn point_into_affine(p: &Jubjub) -> (r: JubjubAffine)
    ensures
        affine_encoding(r) == point_encoding(*p),
{
    JubjubAffine { inner: ark_ec::CurveGroup::into_affine(p.inner) }
}

/// `CanonicalSerialize::serialize_compressed` of ark-serialize, on a point in
/// extended coordinates and an empty vector: the point is brought into affine
/// form and written out as such. On success the vector holds the canonical
/// encoding of the point. Whether it succeeds depends on the point alone.
#[verifier::external_body]
fn point_serialize(p: &Jubjub) -> (r: Result<Vec<u8>, ark_serialize::SerializationError>)
    ensures
        r is Ok <==> jubjub_encodable(point_encoding(*p)),
        r matches Ok(bytes) ==> bytes@ == point_encoding(*p),
{
    let mut bytes = Vec::new();
    match ark_serialize::CanonicalSerialize::serialize_compressed(&p.inner, &mut bytes) {
        Ok(()) => Ok(bytes),
        Err(e) => Err(e),
    }
}

/// `CanonicalSerialize::serialize_compressed` of ark-serialize, on an affine
/// point and an empty vector: on success the vector holds the canonical
/// encoding of the point. Whether it succeeds depends on the point alone.
#[verifier::external_body]
fn affine_serialize(p: &JubjubAffine) -> (r: Result<Vec<u8>, ark_serialize::SerializationError>)
    ensures
        r is Ok <==> jubjub_encodable(affine_encoding(*p)),
        r matches Ok(bytes) ==> bytes@ == affine_encoding(*p),
{
    let mut bytes = Vec::new();
    match ark_serialize::CanonicalSerialize::serialize_compressed(&p.inner, &mut bytes) {
        Ok(()) => Ok(bytes),
        Err(e) => Err(e),
    }
}

/// `PrimeField::from_be_bytes_mod_order` of ark-ff: the bytes are read as a
/// big-endian integer, which is reduced modulo the order of the field.
#[verifier::external_body]
fn scalar_from_be_bytes_mod_order(bytes: &[u8]) -> (r: JubjubScalar)
    ensures
        scalar_residue(r) == be_value(bytes@) % jubjub_order(),
{
    JubjubScalar { inner: ark_ff::PrimeField::from_be_bytes_mod_order(bytes) }
}

/// `+` of ark-ff on two elements of the scalar field: addition modulo the
/// order.
#[verifier::external_body]
fn scalar_add(a: &JubjubScalar, b: &JubjubScalar) -> (r: JubjubScalar)
    ensures
        scalar_residue(r) == (scalar_residue(*a) + scalar_residue(*b)) % jubjub_order(),
{
    JubjubScalar { inner: a.inner + b.inner }
}

/// `*` of ark-ff on two elements of the scalar field: multiplication modulo
/// the order.
#[verifier::external_body]
fn scalar_mul(a: &JubjubScalar, b: &JubjubScalar) -> (r: JubjubScalar)
    ensures
        scalar_residue(r) == (scalar_residue(*a) * scalar_residue(*b)) % jubjub_order(),
{
    JubjubScalar { inner: a.inner * b.inner }
}

/// `Clone::clone` of ark-ff on a field element, which copies its limbs: the
/// same value.
#[verifier::external_body]
fn scalar_copy(s: &JubjubScalar) -> (r: JubjubScalar)
    ensures
        r == *s,
{
    JubjubScalar { inner: s.inner.clone() }
}

/// `UniformRand::rand` of ark-ff, for the scalar field: an element of the
/// field, drawn uniformly with the randomness of `rng`. Which element comes
/// out is not known; as every element, it stands for an integer below the
/// order.
#[verifier::external_body]
fn scalar_sample(rng: &mut ark_std::rand::rngs::StdRng) -> (r: JubjubScalar)
    ensures
        scalar_residue(r) < jubjub_order(),
{
    JubjubScalar { inner: ark_ff::UniformRand::rand(rng) }
}

} // verus!
