//! The extendable-output hash that derives the challenge.

use vstd::prelude::*;

verus! {

/// A SHAKE128 sponge that is still absorbing input.
#[verifier::external_body]
pub struct Sponge {
    inner: sha3::Shake128,
}

/// The bytes that a sponge has absorbed so far, in the order in which they
/// were fed to it.
pub uninterp spec fn absorbed(sponge: Sponge) -> Seq<u8>;

/// The first 32 bytes that SHAKE128 squeezes out after it has absorbed `input`.
pub uninterp spec fn shake128_output(input: Seq<u8>) -> Seq<u8>;

/// `Shake128::default` of sha3: a sponge that has absorbed nothing yet.
#[verifier::external_body]
fn sponge_new() -> (sponge: Sponge)
    ensures
        absorbed(sponge) == Seq::<u8>::empty(),
{
    Sponge { inner: sha3::Shake128::default() }
}

/// `Update::update` of digest, on a SHAKE128 sponge: `data` is absorbed after
/// what the sponge already holds.
#[verifier::external_body]
fn sponge_update(sponge: &mut Sponge, data: &[u8])
    ensures
        absorbed(*final(sponge)) == absorbed(*old(sponge)) + data@,
{
    sha3::digest::Update::update(&mut sponge.inner, data)
}

/// `ExtendableOutput::finalize_xof_into` of digest, on a SHAKE128 sponge and
/// a buffer of 32 bytes: the sponge is finalised and the first 32 bytes of its
/// output are read. They depend on the absorbed bytes alone.
#[verifier::external_body]
fn sponge_finalize(sponge: Sponge) -> (digest: [u8; 32])
    ensures
        digest@ == shake128_output(absorbed(sponge)),
{
    let mut digest = [0u8; 32];
    sha3::digest::ExtendableOutput::finalize_xof_into(sponge.inner, &mut digest);
    digest
}

/// The byte strings of `parts`, one after the other.
pub open spec fn concat(parts: Seq<Vec<u8>>) -> Seq<u8>
    decreases parts.len(),
{
    if parts.len() == 0 {
        Seq::empty()
    } else {
        concat(parts.drop_last()) + parts.last()@
    }
}

/// Absorbs the byte strings of `input` in order and squeezes 32 bytes.
pub fn shake128(input: &[Vec<u8>]) -> (digest: [u8; 32])
    ensures
        digest@ == shake128_output(concat(input@)),
{
    let mut sponge = sponge_new();
    let mut i: usize = 0;
    while i < input.len()
        invariant
            i <= input.len(),
            absorbed(sponge) == concat(input@.take(i as int)),
        decreases input.len() - i,
    {
        sponge_update(&mut sponge, input[i].as_slice());
        proof {
            assert(input@.take(i + 1).drop_last() == input@.take(i as int));
        }
        i += 1;
    }
    proof {
        assert(input@.take(input.len() as int) == input@);
    }
    sponge_finalize(sponge)
}

} // verus!
