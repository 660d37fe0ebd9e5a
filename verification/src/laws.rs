//! What holds of the protocol whenever the arithmetic provider is a group.
//!
//! The group laws are a premise of each statement, never an assumption about
//! a provider: see [`is_group`].

use crate::algebra::{
    has_full_order, is_group, lemma_associative, lemma_cancel, lemma_full_order_separates,
    lemma_interchange, lemma_product, lemma_product_by_one, lemma_product_by_residue,
    lemma_product_of_product, lemma_product_of_sum_of_elements, lemma_response, lemma_sum,
};
use crate::error::Error;
use crate::group::{order, Encode, Group};
use crate::protocol::{
    accepts, challenge_of, ciphertext_of, commitment_of, equation_holds, honest_transcript,
    is_honest_outcome, transcript_encodable, Ciphertext, CiphertextModel, Commitment, Params,
    ParamsModel, PoK, ProofModel,
};
use vstd::prelude::*;

verus! {

/// Completeness, over the model: where both bases are elements of a group,
/// the verification equation holds of what an honest prover computes,
/// whatever the secret, the randomness and the nonce.
pub proof fn lemma_honest_response_satisfies_equation<C: Group>(
    elements: Set<Seq<u8>>,
    zero: Seq<u8>,
    params: ParamsModel,
    s: nat,
    k: nat,
    e: nat,
)
    requires
        is_group::<C>(elements, zero),
        elements.contains(params.g),
        elements.contains(params.h),
    ensures
        equation_holds::<C>(
            commitment_of::<C>(params, s),
            (ProofModel {
                t: C::product(params.g, k),
                a: C::product(params.h, k),
                z: (k + (e * s) % order::<C>()) % order::<C>(),
            }),
            params,
            e,
        ),
{
    let g = params.g;
    let h = params.h;
    let gs = C::product(g, s);
    let hs = C::product(h, s);
    let t = C::product(g, k);
    let a = C::product(h, k);
    lemma_product::<C>(elements, zero, g, s);
    lemma_product::<C>(elements, zero, h, s);
    lemma_product::<C>(elements, zero, g, k);
    lemma_product::<C>(elements, zero, h, k);
    lemma_product::<C>(elements, zero, gs, e);
    lemma_product::<C>(elements, zero, hs, e);
    lemma_response::<C>(elements, zero, g, s, k, e);
    lemma_response::<C>(elements, zero, h, s, k, e);
    lemma_product_of_sum_of_elements::<C>(elements, zero, gs, hs, e);
    lemma_interchange::<C>(elements, zero, t, C::product(gs, e), a, C::product(hs, e));
}

/// Completeness: where both bases are elements of a group whose order
/// divides that of the scalar field, whatever an honest prover hands out is
/// accepted, for every secret, every randomness and every nonce.
pub proof fn lemma_honest_transcript_is_accepted<C: Group>(
    elements: Set<Seq<u8>>,
    zero: Seq<u8>,
    params: ParamsModel,
    s: nat,
    r: nat,
    k: nat,
)
    requires
        is_group::<C>(elements, zero),
        elements.contains(params.g),
        elements.contains(params.h),
    ensures
        honest_transcript::<C>(s, params, r, k) matches Some(transcript) ==> accepts::<C>(
            transcript.commitment,
            transcript.ciphertext,
            transcript.proof,
            params,
        ),
{
    let ciphertext = ciphertext_of::<C>(params, s, r);
    let e = challenge_of::<C>(ciphertext, C::product(params.g, k), C::product(params.h, k));
    lemma_honest_response_satisfies_equation::<C>(elements, zero, params, s, k, e);
}

/// Completeness, of the functions: what `prove` returns on success, `verify`
/// accepts under the same parameters.
pub proof fn lemma_proved_is_verified<C: Group>(
    elements: Set<Seq<u8>>,
    zero: Seq<u8>,
    res: Result<(Commitment<C>, Ciphertext<C>, PoK<C>), Error>,
    s: nat,
    params: Params<C>,
    r: nat,
    k: nat,
)
    requires
        is_group::<C>(elements, zero),
        elements.contains(params.g.encoding()),
        elements.contains(params.h.encoding()),
        is_honest_outcome::<C>(res, s, params@, r, k),
    ensures
        res matches Ok(out) ==> accepts::<C>(out.0.encoding(), out.1@, out.2@, params@),
{
    lemma_honest_transcript_is_accepted::<C>(elements, zero, params@, s, r, k);
}

/// Soundness against a wrong-base proof, in which `t` and `a` are both `g*j`
/// and the response is `j` itself: in place of an honest proof it is
/// accepted exactly when `h*j == g*j + commitment*e`, where `e` is the
/// challenge that it leads to. With `j == 0` and the commitment to the secret
/// `0` both sides are the neutral element, and the forgery is accepted.
pub proof fn lemma_wrong_base_proof<C: Group>(
    elements: Set<Seq<u8>>,
    zero: Seq<u8>,
    commitment: Seq<u8>,
    ciphertext: CiphertextModel,
    params: ParamsModel,
    j: nat,
)
    requires
        is_group::<C>(elements, zero),
        elements.contains(params.g),
        elements.contains(params.h),
        elements.contains(commitment),
    ensures
        ({
            let forged = ProofModel {
                t: C::product(params.g, j),
                a: C::product(params.g, j),
                z: j,
            };
            let e = challenge_of::<C>(ciphertext, forged.t, forged.a);
            accepts::<C>(commitment, ciphertext, forged, params) <==> transcript_encodable::<C>(
                ciphertext,
                forged.t,
                forged.a,
            ) && C::product(params.h, j) == C::sum(
                C::product(params.g, j),
                C::product(commitment, e),
            )
        }),
{
    let gj = C::product(params.g, j);
    let hj = C::product(params.h, j);
    let e = challenge_of::<C>(ciphertext, gj, gj);
    let ce = C::product(commitment, e);
    lemma_product::<C>(elements, zero, params.g, j);
    lemma_product::<C>(elements, zero, params.h, j);
    lemma_product::<C>(elements, zero, commitment, e);
    lemma_sum::<C>(elements, zero, gj, ce);
    lemma_associative::<C>(elements, zero, gj, gj, ce);
    if C::sum(gj, hj) == C::sum(gj, C::sum(gj, ce)) {
        lemma_cancel::<C>(elements, zero, gj, hj, C::sum(gj, ce));
    }
}

/// Soundness against a foreign commitment: where the challenge of a
/// transcript is invertible modulo the order, no second commitment is
/// accepted with a ciphertext and a proof that are accepted with one. In a
/// group of prime order every challenge is invertible but zero. Where `h` is
/// the inverse of `g`, every secret has the same commitment, and so the
/// commitment to another secret is accepted.
pub proof fn lemma_foreign_commitment_is_rejected<C: Group>(
    elements: Set<Seq<u8>>,
    zero: Seq<u8>,
    commitment: Seq<u8>,
    foreign: Seq<u8>,
    ciphertext: CiphertextModel,
    proof: ProofModel,
    params: ParamsModel,
    inverse: nat,
)
    requires
        is_group::<C>(elements, zero),
        elements.contains(commitment),
        elements.contains(foreign),
        elements.contains(proof.t),
        elements.contains(proof.a),
        (challenge_of::<C>(ciphertext, proof.t, proof.a) * inverse) % order::<C>() == 1,
        accepts::<C>(commitment, ciphertext, proof, params),
        foreign != commitment,
    ensures
        !accepts::<C>(foreign, ciphertext, proof, params),
{
    let e = challenge_of::<C>(ciphertext, proof.t, proof.a);
    let ta = C::sum(proof.t, proof.a);
    lemma_sum::<C>(elements, zero, proof.t, proof.a);
    lemma_product::<C>(elements, zero, commitment, e);
    lemma_product::<C>(elements, zero, foreign, e);
    if accepts::<C>(foreign, ciphertext, proof, params) {
        lemma_cancel::<C>(elements, zero, ta, C::product(commitment, e), C::product(foreign, e));
        // multiplying by the inverse of the challenge gives the commitments back
        lemma_product_of_product::<C>(elements, zero, commitment, e, inverse);
        lemma_product_of_product::<C>(elements, zero, foreign, e, inverse);
        lemma_product_by_residue::<C>(elements, zero, commitment, e * inverse);
        lemma_product_by_residue::<C>(elements, zero, foreign, e * inverse);
        lemma_product_by_one::<C>(elements, zero, commitment);
        lemma_product_by_one::<C>(elements, zero, foreign);
        assert(false);
    }
}

/// Soundness against a changed response: where `g + h` has the full order
/// of the scalar field, a proof that is accepted is rejected once its
/// response is replaced by another residue. Where `h` is the inverse of `g`,
/// `g + h` is the neutral element and every response is accepted.
pub proof fn lemma_changed_response_is_rejected<C: Group>(
    elements: Set<Seq<u8>>,
    zero: Seq<u8>,
    commitment: Seq<u8>,
    ciphertext: CiphertextModel,
    proof: ProofModel,
    params: ParamsModel,
    z: nat,
)
    requires
        is_group::<C>(elements, zero),
        elements.contains(params.g),
        elements.contains(params.h),
        has_full_order::<C>(C::sum(params.g, params.h), zero),
        accepts::<C>(commitment, ciphertext, proof, params),
        z % order::<C>() != proof.z % order::<C>(),
    ensures
        !accepts::<C>(commitment, ciphertext, (ProofModel { t: proof.t, a: proof.a, z }), params),
{
    let gh = C::sum(params.g, params.h);
    lemma_sum::<C>(elements, zero, params.g, params.h);
    lemma_product_of_sum_of_elements::<C>(elements, zero, params.g, params.h, proof.z);
    lemma_product_of_sum_of_elements::<C>(elements, zero, params.g, params.h, z);
    if accepts::<C>(commitment, ciphertext, (ProofModel { t: proof.t, a: proof.a, z }), params) {
        assert(C::product(gh, z) == C::product(gh, proof.z));
        lemma_full_order_separates::<C>(elements, zero, gh, z, proof.z);
        assert(false);
    }
}

/// Determinism: the verdict depends on the encodings of the elements and on
/// the residue of the response alone. Two calls on inputs with the same
/// bytes give the same result.
pub proof fn lemma_verdict_depends_on_encodings<C: Group>(
    commitment: Commitment<C>,
    ciphertext: Ciphertext<C>,
    proof: PoK<C>,
    params: Params<C>,
    commitment2: Commitment<C>,
    ciphertext2: Ciphertext<C>,
    proof2: PoK<C>,
    params2: Params<C>,
)
    requires
        commitment.encoding() == commitment2.encoding(),
        ciphertext@ == ciphertext2@,
        proof@ == proof2@,
        params@ == params2@,
    ensures
        accepts::<C>(commitment.encoding(), ciphertext@, proof@, params@) == accepts::<C>(
            commitment2.encoding(),
            ciphertext2@,
            proof2@,
            params2@,
        ),
{
}

/// Determinism of the challenge: it depends on the hashed bytes alone, that
/// is on the four encodings one after the other.
pub proof fn lemma_challenge_depends_on_hashed_bytes<C: Group>(
    ciphertext: CiphertextModel,
    t: Seq<u8>,
    a: Seq<u8>,
    ciphertext2: CiphertextModel,
    t2: Seq<u8>,
    a2: Seq<u8>,
)
    requires
        t + a + ciphertext.c1 + ciphertext.c2 == t2 + a2 + ciphertext2.c1 + ciphertext2.c2,
    ensures
        challenge_of::<C>(ciphertext, t, a) == challenge_of::<C>(ciphertext2, t2, a2),
{
}

/// Transcript binding, as far as it does not rest on the hash: where the
/// encodings of two transcripts have the same lengths, the same bytes are
/// hashed only if the four encodings are the same. A changed byte in any of
/// `t`, `a`, `c1` and `c2` therefore changes what is hashed.
pub proof fn lemma_hashed_bytes_bind_the_encodings(
    ciphertext: CiphertextModel,
    t: Seq<u8>,
    a: Seq<u8>,
    ciphertext2: CiphertextModel,
    t2: Seq<u8>,
    a2: Seq<u8>,
)
    requires
        t.len() == t2.len(),
        a.len() == a2.len(),
        ciphertext.c1.len() == ciphertext2.c1.len(),
        ciphertext.c2.len() == ciphertext2.c2.len(),
        t + a + ciphertext.c1 + ciphertext.c2 == t2 + a2 + ciphertext2.c1 + ciphertext2.c2,
    ensures
        t == t2,
        a == a2,
        ciphertext == ciphertext2,
{
    let hashed = t + a + ciphertext.c1 + ciphertext.c2;
    let hashed2 = t2 + a2 + ciphertext2.c1 + ciphertext2.c2;
    let n1 = t.len() as int;
    let n2 = n1 + a.len();
    let n3 = n2 + ciphertext.c1.len();
    let n4 = n3 + ciphertext.c2.len();
    assert(t =~= hashed.subrange(0, n1));
    assert(t2 =~= hashed2.subrange(0, n1));
    assert(a =~= hashed.subrange(n1, n2));
    assert(a2 =~= hashed2.subrange(n1, n2));
    assert(ciphertext.c1 =~= hashed.subrange(n2, n3));
    assert(ciphertext2.c1 =~= hashed2.subrange(n2, n3));
    assert(ciphertext.c2 =~= hashed.subrange(n3, n4));
    assert(ciphertext2.c2 =~= hashed2.subrange(n3, n4));
}

} // verus!
