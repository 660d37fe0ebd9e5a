//! The capabilities that the protocol needs from an arithmetic provider.
//!
//! A group element is modelled by its canonical compressed encoding, which is
//! taken to be the same for two values exactly when they stand for the same
//! element. A scalar is modelled by its residue, a natural number.

use crate::error::Error;
use vstd::prelude::*;

verus! {

/// The number that a byte string denotes when it is read with the most
/// significant byte first.
pub open spec fn be_value(bytes: Seq<u8>) -> nat
    decreases bytes.len(),
{
    if bytes.len() == 0 {
        0
    } else {
        be_value(bytes.drop_last()) * 256 + bytes.last() as nat
    }
}

/// Canonical compressed serialisation of a group element.
pub trait Encode {
    /// The canonical compressed encoding of the element that `self` stands for.
    spec fn encoding(&self) -> Seq<u8>;

    /// Whether the provider is able to write out the element with this
    /// encoding. A sound provider can, for every element that it produced.
    spec fn encodable(encoding: Seq<u8>) -> bool;

    /// Writes the canonical compressed encoding of `self`.
    fn serialize_compressed(&self) -> (r: Result<Vec<u8>, Error>)
        ensures
            r is Ok <==> Self::encodable(self.encoding()),
            r matches Ok(bytes) ==> bytes@ == self.encoding(),
    ;
}

/// An element of the scalar field: the integers modulo the group's order.
pub trait Scalar: Sized {
    /// The order of the field.
    spec fn modulus() -> nat;

    /// The residue of `self`.
    spec fn value(&self) -> nat;

    /// Reads `bytes` as a big-endian integer and reduces it modulo the order.
    fn from_be_bytes_mod_order(bytes: &[u8]) -> (r: Self)
        ensures
            r.value() == be_value(bytes@) % Self::modulus(),
    ;

    /// Field addition.
    fn add(&self, rhs: &Self) -> (r: Self)
        ensures
            r.value() == (self.value() + rhs.value()) % Self::modulus(),
    ;

    /// Field multiplication.
    fn mul(&self, rhs: &Self) -> (r: Self)
        ensures
            r.value() == (self.value() * rhs.value()) % Self::modulus(),
    ;
}

/// An element of the group in which the protocol runs.
pub trait Group: Encode + Sized {
    /// The scalars by which an element can be multiplied.
    type ScalarField: Scalar;

    /// The affine form of an element, in which a ciphertext is kept.
    type Affine: Encode;

    /// The encoding of the sum of the elements with encodings `a` and `b`.
    spec fn sum(a: Seq<u8>, b: Seq<u8>) -> Seq<u8>;

    /// The encoding of `k` times the element with encoding `p`.
    spec fn product(p: Seq<u8>, k: nat) -> Seq<u8>;

    /// Group addition.
    fn add(&self, rhs: &Self) -> (r: Self)
        ensures
            r.encoding() == Self::sum(self.encoding(), rhs.encoding()),
    ;

    /// Multiplication of an element by a scalar.
    fn mul(&self, k: &Self::ScalarField) -> (r: Self)
        ensures
            r.encoding() == Self::product(self.encoding(), k.value()),
    ;

    /// The affine form of the same element.
    fn into_affine(&self) -> (r: Self::Affine)
        ensures
            r.encoding() == self.encoding(),
    ;

    /// Group equality: whether two values stand for the same element.
    fn equals(&self, rhs: &Self) -> (same: bool)
        ensures
            same == (self.encoding() == rhs.encoding()),
    ;
}

/// The order of the scalar field of the group `C`.
pub open spec fn order<C: Group>() -> nat {
    <C::ScalarField as Scalar>::modulus()
}

/// A source of scalars drawn uniformly at random from the scalar field. That
/// a sample is an element of the field is all that is known of it: the
/// protocol's contracts hold whichever scalars come out.
pub trait RandomnessSource<F: Scalar> {
    /// Draws a fresh scalar.
    fn sample(&mut self) -> (r: F)
        ensures
            r.value() < F::modulus(),
    ;
}

} // verus!
