//! Deterministic signing model.
//!
//! The pipeline delegates real cryptography to an external key vault; the
//! protocol logic only depends on the signer capability: a secret key yields a
//! published verification key, a signature is a function of the secret key and
//! of a running digest of the signed content, and checking a signature against
//! the verification key recomputes that function.  This module gives those
//! three operations a transparent definition so every protocol-level claim
//! (tamper detection, binding, expiry, ordering) is proved, not assumed.

use vstd::prelude::*;

verus! {

/// Seed of the running content digest.
pub const DIGEST_SEED: u64 = 0xcbf2_9ce4_8422_2325;

/// Mask relating a secret key to its published verification key.
pub const KEY_MASK: u64 = 0xa5a5_a5a5_a5a5_a5a5;

/// The verification key published for a secret key.
pub open spec fn public_of(secret: u64) -> u64 {
    secret ^ KEY_MASK
}

/// The secret key a verification key corresponds to.
pub open spec fn secret_of(public_key: u64) -> u64 {
    public_key ^ KEY_MASK
}

/// Deriving the verification key and going back yields the secret key.
pub proof fn lemma_key_roundtrip(secret: u64)
    ensures
        secret_of(public_of(secret)) == secret,
{
    let m = KEY_MASK;
    assert((secret ^ m) ^ m == secret) by (bit_vector);
}

/// One step of the running digest.
pub open spec fn mix(acc: u64, x: u64) -> u64 {
    vstd::wrapping::u64_specs::wrapping_mul(acc, 31) ^ x
}

/// Digest of a character sequence.
pub open spec fn digest_chars(s: Seq<char>) -> u64
    decreases s.len(),
{
    if s.len() == 0 {
        DIGEST_SEED
    } else {
        mix(digest_chars(s.drop_last()), s.last() as u64)
    }
}

/// The signature a secret key produces over a content digest.
pub open spec fn mac_of(secret: u64, digest: u64) -> u64 {
    secret ^ digest
}

/// Whether `mac` is the signature of `digest` under the secret key behind
/// `public_key`.
pub open spec fn mac_matches(public_key: u64, digest: u64, mac: u64) -> bool {
    mac == mac_of(secret_of(public_key), digest)
}

/// A token signature: the authenticator over the token's content digest.
#[derive(Clone, Copy, Debug, PartialEq, Eq, Structural)]
pub struct Signature {
    pub mac: u64,
}

/// A signature produced by a secret key checks against its verification key.
pub proof fn lemma_sign_then_check(secret: u64, digest: u64)
    ensures
        mac_matches(public_of(secret), digest, mac_of(secret, digest)),
{
    lemma_key_roundtrip(secret);
}

/// One step of the running digest, executably.
pub fn mix_step(acc: u64, x: u64) -> (r: u64)
    ensures
        r == mix(acc, x),
{
    acc.wrapping_mul(31) ^ x
}

/// Digest of a string slice.
pub fn digest_str(s: &str) -> (r: u64)
    ensures
        r == digest_chars(s@),
{
    let n: usize = s.unicode_len();
    let mut acc: u64 = DIGEST_SEED;
    let mut i: usize = 0;
    while i < n
        invariant
            n == s@.len(),
            i <= n,
            acc == digest_chars(s@.subrange(0, i as int)),
        decreases n - i,
    {
        let c = s.get_char(i);
        acc = acc.wrapping_mul(31) ^ (c as u64);
        proof {
            assert(s@.subrange(0, i + 1).drop_last() =~= s@.subrange(0, i as int));
            assert(s@.subrange(0, i + 1).last() == s@[i as int]);
        }
        i = i + 1;
    }
    proof {
        assert(s@.subrange(0, n as int) =~= s@);
    }
    acc
}

/// Checks `sig` against the verification key `public_key` for content with
/// digest `digest`.
pub fn check_signature(public_key: u64, digest: u64, sig: &Signature) -> (r: bool)
    ensures
        r == mac_matches(public_key, digest, sig.mac),
{
    sig.mac == (public_key ^ KEY_MASK) ^ digest
}

} // verus!
