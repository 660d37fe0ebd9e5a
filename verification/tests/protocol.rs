use ark_ec::{CurveGroup, Group as ArkGroup};
use ark_ed_on_bls12_381::{EdwardsProjective, Fr};
use ark_ff::{BigInteger, PrimeField};
use ark_serialize::CanonicalSerialize;
use ark_std::rand::{rngs::StdRng, SeedableRng};
use elgamal_sigma::{
    ElGamalSigmaProtocol, Encode, Group, Jubjub, JubjubScalar, Params, PoK, RandomnessSource,
    Scalar,
};

/// The deterministic generator that the arkworks test helper hands out.
fn test_rng() -> StdRng {
    StdRng::from_seed([
        1, 0, 0, 0, 23, 0, 0, 0, 200, 1, 0, 0, 210, 30, 0, 0, 0, 0, 0, 0, 0, 0, 0, 0, 0, 0, 0, 0,
        0, 0, 0, 0,
    ])
}

fn scalar(x: &Fr) -> JubjubScalar {
    JubjubScalar::from_be_bytes_mod_order(&x.into_bigint().to_bytes_be())
}

fn compressed<T: CanonicalSerialize>(x: &T) -> Vec<u8> {
    let mut bytes = Vec::new();
    x.serialize_compressed(&mut bytes).unwrap();
    bytes
}

fn encoded<T: Encode>(x: &T) -> Vec<u8> {
    x.serialize_compressed().unwrap()
}

fn xof(input: &[u8]) -> [u8; 32] {
    let mut digest = [0u8; 32];
    <sha3::Shake128 as sha3::digest::ExtendableOutput>::digest_xof(input, &mut digest);
    digest
}

#[test]
pub fn prove_and_verify() {
    let mut rng = test_rng();
    // the secret key
    let x: JubjubScalar = rng.sample();
    let g = Jubjub::generator();
    // the public key
    let h = g.mul(&x);

    let params = Params { g, h };

    let (commitment, ciphertext, proof) =
        ElGamalSigmaProtocol::prove(x, params.clone(), test_rng()).unwrap();
    let result = ElGamalSigmaProtocol::verify(commitment, ciphertext, proof, params);
    assert_eq!(result, true);
}

#[test]
pub fn verify_fails_with_invalid_proof() {
    let mut rng = test_rng();
    // the secret key
    let x: JubjubScalar = rng.sample();
    let g = Jubjub::generator();
    // the public key
    let h = g.mul(&x);

    let j: JubjubScalar = rng.sample();
    let bad_proof = PoK { t: g.mul(&j), a: g.mul(&j), z: j };

    let params = Params { g, h };

    let (commitment, ciphertext, _proof) =
        ElGamalSigmaProtocol::prove(x, params.clone(), test_rng()).unwrap();
    let result = ElGamalSigmaProtocol::verify(commitment, ciphertext, bad_proof, params);
    assert_eq!(result, false);
}

#[test]
pub fn verify_fails_with_invalid_commitment() {
    let mut rng = test_rng();
    // the secret key
    let x: JubjubScalar = rng.sample();
    let g = Jubjub::generator();
    // the public key
    let h = g.mul(&x);

    let j: JubjubScalar = rng.sample();
    let bad_commitment = g.mul(&j);

    let params = Params { g, h };

    let (_commitment, ciphertext, proof) =
        ElGamalSigmaProtocol::prove(x, params.clone(), test_rng()).unwrap();
    let result = ElGamalSigmaProtocol::verify(bad_commitment, ciphertext, proof, params);
    assert_eq!(result, false);
}

#[test]
fn honest_transcript_has_the_stated_values() {
    let s = Fr::from(1234567u64);
    let x = Fr::from(42u64);
    let r = Fr::from(99u64);
    let k = Fr::from(31337u64);
    let g = EdwardsProjective::generator();
    let h = g * x;

    let lib_g = Jubjub::generator();
    let lib_h = lib_g.mul(&scalar(&x));
    let params = Params { g: lib_g.clone(), h: lib_h };
    let (commitment, ciphertext, proof) =
        ElGamalSigmaProtocol::prove_with_nonces(scalar(&s), params, scalar(&r), scalar(&k))
            .unwrap();

    assert_eq!(encoded(&commitment), compressed(&(g * s + h * s)));
    let (c1_bytes, c2_bytes) = ciphertext.serialize_compressed().unwrap();
    assert_eq!(c1_bytes, compressed(&(g * r).into_affine()));
    assert_eq!(c2_bytes, compressed(&(h * (s * r)).into_affine()));
    assert_eq!(encoded(&proof.t), compressed(&(g * k)));
    assert_eq!(encoded(&proof.a), compressed(&(h * k)));

    let mut transcript = compressed(&(g * k));
    transcript.extend(compressed(&(h * k)));
    transcript.extend(c1_bytes);
    transcript.extend(c2_bytes);
    let e = Fr::from_be_bytes_mod_order(&xof(&transcript));
    let z = k + e * s;
    // g has prime order, so g*z pins z down
    assert_eq!(encoded(&lib_g.mul(&proof.z)), compressed(&(g * z)));
}

#[test]
fn honest_proofs_are_accepted_for_many_secrets() {
    let mut rng = test_rng();
    let g = Jubjub::generator();
    for _ in 0..8 {
        let x: JubjubScalar = rng.sample();
        let s: JubjubScalar = rng.sample();
        let r: JubjubScalar = rng.sample();
        let k: JubjubScalar = rng.sample();
        let params = Params { g: g.clone(), h: g.mul(&x) };
        let (commitment, ciphertext, proof) =
            ElGamalSigmaProtocol::prove_with_nonces(s, params.clone(), r, k).unwrap();
        assert!(ElGamalSigmaProtocol::verify(commitment, ciphertext, proof, params));
    }
}

#[test]
fn honest_proof_is_accepted_for_the_zero_secret() {
    let g = Jubjub::generator();
    let params = Params { g: g.clone(), h: g.mul(&scalar(&Fr::from(5u64))) };
    let zero = scalar(&Fr::from(0u64));
    let (commitment, ciphertext, proof) =
        ElGamalSigmaProtocol::prove(zero, params.clone(), test_rng()).unwrap();
    assert_eq!(encoded(&commitment), compressed(&(EdwardsProjective::generator() * Fr::from(0u64))));
    assert!(ElGamalSigmaProtocol::verify(commitment, ciphertext, proof, params));
}

#[test]
fn prove_draws_the_randomness_before_the_nonce() {
    let mut rng = test_rng();
    let r: JubjubScalar = rng.sample();
    let k: JubjubScalar = rng.sample();
    let g = Jubjub::generator();
    let x = scalar(&Fr::from(7u64));
    let params = Params { g: g.clone(), h: g.mul(&x) };

    let (c, ct, pok) =
        ElGamalSigmaProtocol::prove(scalar(&Fr::from(11u64)), params.clone(), test_rng())
            .unwrap();
    let (c2, ct2, pok2) =
        ElGamalSigmaProtocol::prove_with_nonces(scalar(&Fr::from(11u64)), params, r, k).unwrap();

    assert_eq!(encoded(&c), encoded(&c2));
    assert_eq!(ct.serialize_compressed().unwrap(), ct2.serialize_compressed().unwrap());
    assert_eq!(encoded(&pok.t), encoded(&pok2.t));
    assert_eq!(encoded(&pok.a), encoded(&pok2.a));
    assert_eq!(encoded(&g.mul(&pok.z)), encoded(&g.mul(&pok2.z)));
}

#[test]
fn verify_gives_the_same_verdict_on_the_same_bytes() {
    let g = Jubjub::generator();
    let x = scalar(&Fr::from(3u64));
    let params = Params { g: g.clone(), h: g.mul(&x) };
    let run = |tamper: bool| {
        let (c, ct, mut pok) = ElGamalSigmaProtocol::prove_with_nonces(
            scalar(&Fr::from(21u64)),
            params.clone(),
            scalar(&Fr::from(8u64)),
            scalar(&Fr::from(13u64)),
        )
        .unwrap();
        if tamper {
            pok.z = pok.z.add(&scalar(&Fr::from(1u64)));
        }
        ElGamalSigmaProtocol::verify(c, ct, pok, params.clone())
    };
    assert_eq!(run(false), true);
    assert_eq!(run(false), true);
    assert_eq!(run(true), false);
    assert_eq!(run(true), false);
}

#[test]
fn challenge_changes_when_a_byte_of_the_transcript_flips() {
    let g = EdwardsProjective::generator();
    let parts = [
        compressed(&(g * Fr::from(2u64))),
        compressed(&(g * Fr::from(3u64))),
        compressed(&(g * Fr::from(5u64)).into_affine()),
        compressed(&(g * Fr::from(7u64)).into_affine()),
    ];
    let challenge = |p: &[Vec<u8>; 4]| {
        let e = ElGamalSigmaProtocol::<Jubjub>::challenge(
            p[0].clone(),
            p[1].clone(),
            p[2].clone(),
            p[3].clone(),
        );
        encoded(&Jubjub::generator().mul(&e))
    };
    let honest = challenge(&parts);

    let expected = Fr::from_be_bytes_mod_order(&xof(&parts.concat()));
    assert_eq!(honest, compressed(&(g * expected)));

    for part in 0..4 {
        for position in [0usize, 17, 31] {
            let mut flipped = parts.clone();
            flipped[part][position] ^= 0x01;
            assert_ne!(challenge(&flipped), honest);
        }
    }

    let swapped = [parts[1].clone(), parts[0].clone(), parts[2].clone(), parts[3].clone()];
    assert_ne!(challenge(&swapped), honest);
}

#[test]
fn tampered_response_and_foreign_commitment_are_rejected() {
    let mut rng = test_rng();
    let x: JubjubScalar = rng.sample();
    let other: JubjubScalar = rng.sample();
    let g = Jubjub::generator();
    let params = Params { g: g.clone(), h: g.mul(&x) };

    let (c, ct, pok) =
        ElGamalSigmaProtocol::prove(x.clone(), params.clone(), test_rng()).unwrap();
    assert_eq!(ElGamalSigmaProtocol::verify(c, ct, pok, params.clone()), true);

    let (c, ct, mut pok) =
        ElGamalSigmaProtocol::prove(x.clone(), params.clone(), test_rng()).unwrap();
    pok.z = pok.z.add(&scalar(&Fr::from(1u64)));
    assert_eq!(ElGamalSigmaProtocol::verify(c, ct, pok, params.clone()), false);

    let (_c, ct, pok) =
        ElGamalSigmaProtocol::prove(x.clone(), params.clone(), test_rng()).unwrap();
    let foreign = params.g.mul(&other).add(&params.h.mul(&other));
    assert_eq!(ElGamalSigmaProtocol::verify(foreign, ct, pok, params), false);
}

#[test]
fn proof_for_another_ciphertext_is_rejected() {
    let g = Jubjub::generator();
    let params = Params { g: g.clone(), h: g.mul(&scalar(&Fr::from(9u64))) };
    let s = Fr::from(77u64);
    let (c, _ct, pok) = ElGamalSigmaProtocol::prove_with_nonces(
        scalar(&s),
        params.clone(),
        scalar(&Fr::from(1u64)),
        scalar(&Fr::from(2u64)),
    )
    .unwrap();
    let (_c, ct_other, _pok) = ElGamalSigmaProtocol::prove_with_nonces(
        scalar(&s),
        params.clone(),
        scalar(&Fr::from(3u64)),
        scalar(&Fr::from(2u64)),
    )
    .unwrap();
    assert_eq!(ElGamalSigmaProtocol::verify(c, ct_other, pok, params), false);
}

#[test]
fn wrong_base_proof_is_accepted_for_the_zero_nonce_and_the_zero_secret() {
    let g = Jubjub::generator();
    let params = Params { g: g.clone(), h: g.mul(&scalar(&Fr::from(5u64))) };
    let zero = Fr::from(0u64);
    let (commitment, ciphertext, _proof) = ElGamalSigmaProtocol::prove_with_nonces(
        scalar(&zero),
        params.clone(),
        scalar(&Fr::from(3u64)),
        scalar(&Fr::from(4u64)),
    )
    .unwrap();
    let forged = PoK { t: g.mul(&scalar(&zero)), a: g.mul(&scalar(&zero)), z: scalar(&zero) };
    assert_eq!(ElGamalSigmaProtocol::verify(commitment, ciphertext, forged, params), true);
}

#[test]
fn opposite_bases_bind_neither_the_response_nor_the_secret() {
    let g = Jubjub::generator();
    let h = g.mul(&scalar(&(-Fr::from(1u64))));
    let params = Params { g, h };
    let s = scalar(&Fr::from(1000u64));
    let other = scalar(&Fr::from(2000u64));

    let (commitment, ciphertext, mut proof) =
        ElGamalSigmaProtocol::prove(s.clone(), params.clone(), test_rng()).unwrap();
    proof.z = proof.z.add(&scalar(&Fr::from(1u64)));
    assert_eq!(ElGamalSigmaProtocol::verify(commitment, ciphertext, proof, params.clone()), true);

    let (commitment, ciphertext, proof) =
        ElGamalSigmaProtocol::prove(s, params.clone(), test_rng()).unwrap();
    let foreign = params.g.mul(&other).add(&params.h.mul(&other));
    assert!(foreign.equals(&commitment));
    assert_eq!(ElGamalSigmaProtocol::verify(foreign, ciphertext, proof, params), true);
}

#[test]
fn params_clone_keeps_both_bases() {
    let g = Jubjub::generator();
    let params = Params { g: g.clone(), h: g.mul(&scalar(&Fr::from(4u64))) };
    let copy = params.clone();
    assert!(copy.g.equals(&params.g));
    assert!(copy.h.equals(&params.h));
    assert!(!copy.g.equals(&params.h));
    assert!(format!("{:?}", copy).contains("Params"));
}
