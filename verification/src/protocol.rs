//! The protocol itself: what is proved, how a proof is made and how it is
//! checked.
//!
//! The prover holds a secret scalar `s`. The commitment `g*s + h*s` and the
//! ciphertext `(g*r, h*(s*r))` are public. The proof `(t, a, z)` with
//! `t = g*k`, `a = h*k` and `z = k + e*s` convinces a verifier that both were
//! made from the same `s`; the challenge `e` is the hash of the encodings of
//! `t`, `a`, `c1` and `c2`, in that order.

use crate::error::Error;
use crate::group::{be_value, order, Encode, Group, RandomnessSource, Scalar};
use crate::hash::{concat, shake128, shake128_output};
use core::marker::PhantomData;
use vstd::prelude::*;

verus! {

/// A public commitment to a scalar `s`: the group element `g*s + h*s`.
pub type Commitment<C> = C;

/// An ElGamal-style ciphertext `(g*r, h*(s*r))`, in affine form.
pub struct Ciphertext<C: Group> {
    c1: C::Affine,
    c2: C::Affine,
}

/// The proof of knowledge.
pub struct PoK<C: Group> {
    /// The commitment to the nonce under the first base, `g*k`.
    pub t: C,
    /// The commitment to the nonce under the second base, `h*k`.
    pub a: C,
    /// The response, `k + e*s`.
    pub z: C::ScalarField,
}

/// The public parameters: the two bases that prover and verifier agree on.
#[derive(Clone, Debug)]
pub struct Params<C: Group> {
    /// The first base.
    pub g: C,
    /// The second base, by convention a public key `g*x`. Nothing holds the
    /// caller to that.
    pub h: C,
}

/// The protocol over the group `C`. It has no state of its own.
pub struct ElGamalSigmaProtocol<C> {
    _c: PhantomData<C>,
}

/// What the contracts say of a pair of bases.
pub struct ParamsModel {
    pub g: Seq<u8>,
    pub h: Seq<u8>,
}

/// What the contracts say of a ciphertext.
pub struct CiphertextModel {
    pub c1: Seq<u8>,
    pub c2: Seq<u8>,
}

/// What the contracts say of a proof.
pub struct ProofModel {
    pub t: Seq<u8>,
    pub a: Seq<u8>,
    pub z: nat,
}

/// Everything that a prover hands out.
pub struct Transcript {
    pub commitment: Seq<u8>,
    pub ciphertext: CiphertextModel,
    pub proof: ProofModel,
}

impl<C: Group> View for Params<C> {
    type V = ParamsModel;

    open spec fn view(&self) -> ParamsModel {
        ParamsModel { g: self.g.encoding(), h: self.h.encoding() }
    }
}

impl<C: Group> View for Ciphertext<C> {
    type V = CiphertextModel;

    closed spec fn view(&self) -> CiphertextModel {
        CiphertextModel { c1: self.c1.encoding(), c2: self.c2.encoding() }
    }
}

impl<C: Group> View for PoK<C> {
    type V = ProofModel;

    open spec fn view(&self) -> ProofModel {
        ProofModel { t: self.t.encoding(), a: self.a.encoding(), z: self.z.value() }
    }
}

/// The scalar that a hashed byte string denotes: its 32-byte digest, read as
/// a big-endian integer and reduced modulo the order.
pub open spec fn hash_to_scalar<C: Group>(bytes: Seq<u8>) -> nat {
    be_value(shake128_output(bytes)) % order::<C>()
}

/// The challenge that binds a proof to a ciphertext: the hash of the
/// encodings of `t`, `a`, `c1` and `c2`, in this order.
pub open spec fn challenge_of<C: Group>(ciphertext: CiphertextModel, t: Seq<u8>, a: Seq<u8>) -> nat {
    hash_to_scalar::<C>(t + a + ciphertext.c1 + ciphertext.c2)
}

/// The commitment to `s`: `g*s + h*s`.
pub open spec fn commitment_of<C: Group>(params: ParamsModel, s: nat) -> Seq<u8> {
    C::sum(C::product(params.g, s), C::product(params.h, s))
}

/// The ciphertext of `s` under the randomness `r`: `(g*r, h*(s*r))`.
pub open spec fn ciphertext_of<C: Group>(params: ParamsModel, s: nat, r: nat) -> CiphertextModel {
    CiphertextModel {
        c1: C::product(params.g, r),
        c2: C::product(params.h, (s * r) % order::<C>()),
    }
}

/// Whether the provider can write out all four elements that are hashed.
pub open spec fn transcript_encodable<C: Group>(
    ciphertext: CiphertextModel,
    t: Seq<u8>,
    a: Seq<u8>,
) -> bool {
    &&& <C as Encode>::encodable(t)
    &&& <C as Encode>::encodable(a)
    &&& <C::Affine as Encode>::encodable(ciphertext.c1)
    &&& <C::Affine as Encode>::encodable(ciphertext.c2)
}

/// The verification equation under the challenge `e`:
/// `g*z + h*z == t + a + commitment*e`.
pub open spec fn equation_holds<C: Group>(
    commitment: Seq<u8>,
    proof: ProofModel,
    params: ParamsModel,
    e: nat,
) -> bool {
    C::sum(C::product(params.g, proof.z), C::product(params.h, proof.z)) == C::sum(
        C::sum(proof.t, proof.a),
        C::product(commitment, e),
    )
}

/// Whether a proof is accepted: the four hashed elements can be written out,
/// and the verification equation holds under the challenge derived from them.
pub open spec fn accepts<C: Group>(
    commitment: Seq<u8>,
    ciphertext: CiphertextModel,
    proof: ProofModel,
    params: ParamsModel,
) -> bool {
    &&& transcript_encodable::<C>(ciphertext, proof.t, proof.a)
    &&& equation_holds::<C>(
        commitment,
        proof,
        params,
        challenge_of::<C>(ciphertext, proof.t, proof.a),
    )
}

/// What an honest prover hands out for the secret `s`, the encryption
/// randomness `r` and the nonce `k`; nothing, if the provider cannot write
/// out one of the elements that are hashed.
pub open spec fn honest_transcript<C: Group>(
    s: nat,
    params: ParamsModel,
    r: nat,
    k: nat,
) -> Option<Transcript> {
    let ciphertext = ciphertext_of::<C>(params, s, r);
    let t = C::product(params.g, k);
    let a = C::product(params.h, k);
    let e = challenge_of::<C>(ciphertext, t, a);
    if transcript_encodable::<C>(ciphertext, t, a) {
        Some(
            Transcript {
                commitment: commitment_of::<C>(params, s),
                ciphertext,
                proof: ProofModel { t, a, z: (k + (e * s) % order::<C>()) % order::<C>() },
            },
        )
    } else {
        None
    }
}

/// Whether `res` is what an honest prover returns for `s`, `r` and `k`: the
/// honest transcript, or the serialisation error if there is none.
pub open spec fn is_honest_outcome<C: Group>(
    res: Result<(Commitment<C>, Ciphertext<C>, PoK<C>), Error>,
    s: nat,
    params: ParamsModel,
    r: nat,
    k: nat,
) -> bool {
    match res {
        Ok((commitment, ciphertext, proof)) => honest_transcript::<C>(s, params, r, k) == Some(
            Transcript { commitment: commitment.encoding(), ciphertext: ciphertext@, proof: proof@ },
        ),
        Err(e) => e is SerializationError && honest_transcript::<C>(s, params, r, k) is None,
    }
}

impl<C: Group> Ciphertext<C> {
    /// The compressed encodings of both components, `c1` first.
    pub fn serialize_compressed(&self) -> (r: Result<(Vec<u8>, Vec<u8>), Error>)
        ensures
            r is Ok <==> <C::Affine as Encode>::encodable(self@.c1) && <C::Affine as Encode>::encodable(
                self@.c2,
            ),
            r matches Ok(bytes) ==> bytes.0@ == self@.c1 && bytes.1@ == self@.c2,
            r matches Err(e) ==> e is SerializationError,
    {
        let c1_bytes = self.c1.serialize_compressed()?;
        let c2_bytes = self.c2.serialize_compressed()?;
        Ok((c1_bytes, c2_bytes))
    }
}

impl<C: Group> ElGamalSigmaProtocol<C> {
    /// Derives the challenge from the four encodings: they are hashed in the
    /// order `t`, `a`, `c1`, `c2`, and the digest is reduced to a scalar.
    pub fn challenge(
        t_bytes: Vec<u8>,
        a_bytes: Vec<u8>,
        c1_bytes: Vec<u8>,
        c2_bytes: Vec<u8>,
    ) -> (e: C::ScalarField)
        ensures
            e.value() == hash_to_scalar::<C>(t_bytes@ + a_bytes@ + c1_bytes@ + c2_bytes@),
    {
        let ghost transcript = t_bytes@ + a_bytes@ + c1_bytes@ + c2_bytes@;
        let mut inputs: Vec<Vec<u8>> = Vec::new();
        inputs.push(t_bytes);
        inputs.push(a_bytes);
        inputs.push(c1_bytes);
        inputs.push(c2_bytes);
        proof {
            reveal_with_fuel(concat, 5);
            assert(concat(inputs@) == transcript);
        }
        let digest = shake128(inputs.as_slice());
        C::ScalarField::from_be_bytes_mod_order(digest.as_slice())
    }

    /// Proves that a commitment is of the preimage of an ElGamal ciphertext,
    /// without revealing the secret `s`. The randomness of the ciphertext and
    /// the nonce of the proof are drawn from `rng`, in this order; both are
    /// elements of the scalar field.
    pub fn prove<R: RandomnessSource<C::ScalarField>>(
        s: C::ScalarField,
        params: Params<C>,
        mut rng: R,
    ) -> (res: Result<(Commitment<C>, Ciphertext<C>, PoK<C>), Error>)
        ensures
            exists|r: nat, k: nat|
                r < order::<C>() && k < order::<C>() && is_honest_outcome::<C>(
                    res,
                    s.value(),
                    params@,
                    r,
                    k,
                ),
    {
        let r = rng.sample();
        let k = rng.sample();
        let ghost rv = r.value();
        let ghost kv = k.value();
        let res = Self::prove_with_nonces(s, params, r, k);
        assert(rv < order::<C>() && kv < order::<C>() && is_honest_outcome::<C>(
            res,
            s.value(),
            params@,
            rv,
            kv,
        ));
        res
    }

    /// What `prove` does once the randomness `r` of the ciphertext and the
    /// nonce `k` of the proof are drawn. Both have to be fresh for every
    /// proof: a ciphertext made twice with one `r` gives the secret away.
    pub fn prove_with_nonces(
        s: C::ScalarField,
        params: Params<C>,
        r: C::ScalarField,
        k: C::ScalarField,
    ) -> (res: Result<(Commitment<C>, Ciphertext<C>, PoK<C>), Error>)
        ensures
            is_honest_outcome::<C>(res, s.value(), params@, r.value(), k.value()),
    {
        let c1 = params.g.mul(&r);
        let c2 = params.h.mul(&s.mul(&r));
        let ciphertext: Ciphertext<C> = Ciphertext { c1: c1.into_affine(), c2: c2.into_affine() };

        let commitment: Commitment<C> = params.g.mul(&s).add(&params.h.mul(&s));

        let t = params.g.mul(&k);
        let a = params.h.mul(&k);

        let t_bytes = t.serialize_compressed()?;
        let a_bytes = a.serialize_compressed()?;
        let (c1_bytes, c2_bytes) = ciphertext.serialize_compressed()?;

        let challenge = Self::challenge(t_bytes, a_bytes, c1_bytes, c2_bytes);
        let z = k.add(&challenge.mul(&s));
        Ok((commitment, ciphertext, PoK { t, a, z }))
    }

    /// Verifies a proof that a commitment is of the preimage of an ElGamal
    /// ciphertext. A proof whose elements cannot be written out is rejected.
    pub fn verify(
        commitment: Commitment<C>,
        ciphertext: Ciphertext<C>,
        proof: PoK<C>,
        params: Params<C>,
    ) -> (ok: bool)
        ensures
            ok == accepts::<C>(commitment.encoding(), ciphertext@, proof@, params@),
    {
        let t_bytes = match proof.t.serialize_compressed() {
            Ok(bytes) => bytes,
            Err(_) => {
                return false;
            },
        };
        let a_bytes = match proof.a.serialize_compressed() {
            Ok(bytes) => bytes,
            Err(_) => {
                return false;
            },
        };
        let (c1_bytes, c2_bytes) = match ciphertext.serialize_compressed() {
            Ok(bytes) => bytes,
            Err(_) => {
                return false;
            },
        };

        let challenge = Self::challenge(t_bytes, a_bytes, c1_bytes, c2_bytes);

        let zg = params.g.mul(&proof.z);
        let zh = params.h.mul(&proof.z);

        zg.add(&zh).equals(&proof.t.add(&proof.a).add(&commitment.mul(&challenge)))
    }
}

} // verus!
