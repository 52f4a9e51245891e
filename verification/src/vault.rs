//! Per-actor key vault.
//!
//! The vault generates key pairs and signs on request given a key-fragment
//! handle; it never hands out secret key material.  Key generation is
//! deterministic from the vault's seed and the number of keys generated so
//! far, standing in for the entropy an external vault would supply.

use vstd::prelude::*;

use crate::errors::ErrorSpec;
use crate::errors::IdentityError;
use crate::sign::Signature;
use crate::sign::mac_of;
use crate::sign::mix;
use crate::sign::public_of;

verus! {

/// Mathematical abstraction of one vault entry.
pub ghost struct KeyEntrySpec {
    pub fragment: Seq<char>,
    pub secret: u64,
}

pub struct KeyEntry {
    pub fragment: String,
    pub secret: u64,
}

impl View for KeyEntry {
    type V = KeyEntrySpec;

    open spec fn view(&self) -> KeyEntrySpec {
        KeyEntrySpec { fragment: self.fragment@, secret: self.secret }
    }
}

impl DeepView for KeyEntry {
    type V = KeyEntrySpec;

    open spec fn deep_view(&self) -> KeyEntrySpec {
        self.view()
    }
}

/// Mathematical abstraction of a [`KeyVault`].
pub ghost struct KeyVaultSpec {
    pub seed: u64,
    pub entries: Seq<KeyEntrySpec>,
}

/// Encrypted per-actor key store: generates key pairs, signs on request.
pub struct KeyVault {
    seed: u64,
    entries: Vec<KeyEntry>,
}

impl View for KeyVault {
    type V = KeyVaultSpec;

    closed spec fn view(&self) -> KeyVaultSpec {
        KeyVaultSpec { seed: self.seed, entries: self.entries.deep_view() }
    }
}

/// The secret key the vault with seed `seed` derives for its `index`-th key.
pub open spec fn key_material(seed: u64, index: u64) -> u64 {
    mix(seed, index)
}

/// The secret key stored under the first entry named `frag`, if any.
pub open spec fn lookup_secret(entries: Seq<KeyEntrySpec>, frag: Seq<char>) -> Option<u64>
    decreases entries.len(),
{
    if entries.len() == 0 {
        None
    } else if entries[0].fragment == frag {
        Some(entries[0].secret)
    } else {
        lookup_secret(entries.drop_first(), frag)
    }
}

proof fn lemma_lookup_skip(entries: Seq<KeyEntrySpec>, frag: Seq<char>, k: int)
    requires
        0 <= k <= entries.len(),
        forall|j: int| 0 <= j < k ==> entries[j].fragment != frag,
    ensures
        lookup_secret(entries, frag) == lookup_secret(
            entries.subrange(k, entries.len() as int),
            frag,
        ),
    decreases k,
{
    if k == 0 {
        assert(entries.subrange(0, entries.len() as int) =~= entries);
    } else {
        assert(entries.drop_first() =~= entries.subrange(1, entries.len() as int));
        lemma_lookup_skip(entries.drop_first(), frag, k - 1);
        assert(entries.drop_first().subrange(k - 1, entries.drop_first().len() as int)
            =~= entries.subrange(k, entries.len() as int));
    }
}

/// Looking up in a vault with one more entry at the end is unchanged for a
/// fragment that already resolved, and newly finds the pushed entry's
/// fragment where it did not.
pub proof fn lemma_lookup_push(entries: Seq<KeyEntrySpec>, e: KeyEntrySpec, frag: Seq<char>)
    ensures
        lookup_secret(entries, frag) matches Some(s) ==> lookup_secret(entries.push(e), frag)
            == Some(s),
        lookup_secret(entries, frag) is None && e.fragment == frag ==> lookup_secret(
            entries.push(e),
            frag,
        ) == Some(e.secret),
        lookup_secret(entries, frag) is None && e.fragment != frag ==> lookup_secret(
            entries.push(e),
            frag,
        ) is None,
    decreases entries.len(),
{
    if entries.len() == 0 {
        assert(entries.push(e)[0] == e);
        assert(entries.push(e).drop_first() =~= Seq::<KeyEntrySpec>::empty());
        assert(lookup_secret(Seq::<KeyEntrySpec>::empty(), frag) is None);
    } else {
        assert(entries.push(e)[0] == entries[0]);
        assert(entries.push(e).drop_first() =~= entries.drop_first().push(e));
        lemma_lookup_push(entries.drop_first(), e, frag);
    }
}

impl KeyVault {
    /// Opens a fresh vault derived from `seed` (the vault file's entropy).
    pub fn new(seed: u64) -> (r: KeyVault)
        ensures
            r@ == (KeyVaultSpec { seed, entries: Seq::empty() }),
    {
        let r = KeyVault { seed, entries: Vec::new() };
        proof {
            assert(r@.entries =~= Seq::<KeyEntrySpec>::empty());
        }
        r
    }

    /// Generates a key pair stored under `fragment` and returns the
    /// verification key; the secret stays in the vault.
    pub fn generate_key(&mut self, fragment: &String) -> (public_key: u64)
        ensures
            final(self)@.seed == old(self)@.seed,
            final(self)@.entries == old(self)@.entries.push(
                KeyEntrySpec {
                    fragment: fragment@,
                    secret: key_material(old(self)@.seed, old(self)@.entries.len() as u64),
                },
            ),
            public_key == public_of(
                key_material(old(self)@.seed, old(self)@.entries.len() as u64),
            ),
    {
        let index: u64 = self.entries.len() as u64;
        let secret = crate::sign::mix_step(self.seed, index);
        let entry = KeyEntry { fragment: fragment.clone(), secret };
        self.entries.push(entry);
        proof {
            assert(self.entries.deep_view() =~= old(self).entries.deep_view().push(
                KeyEntrySpec {
                    fragment: fragment@,
                    secret: key_material(old(self)@.seed, old(self)@.entries.len() as u64),
                },
            ));
        }
        secret ^ crate::sign::KEY_MASK
    }

    /// Signs a content digest with the key stored under `fragment`; an
    /// unknown fragment is a vault failure.
    pub fn sign(&self, fragment: &String, digest: u64) -> (r: Result<Signature, IdentityError>)
        ensures
            ({
                let found = lookup_secret(self@.entries, fragment@);
                match r {
                    Ok(sig) => found matches Some(secret) && sig == (Signature {
                        mac: mac_of(secret, digest),
                    }),
                    Err(e) => found is None && e@ == ErrorSpec::Vault,
                }
            }),
    {
        let n: usize = self.entries.len();
        let mut i: usize = 0;
        while i < n
            invariant
                n == self.entries.len(),
                i <= n,
                forall|j: int| 0 <= j < i ==> self@.entries[j].fragment != fragment@,
            decreases n - i,
        {
            if self.entries[i].fragment == *fragment {
                let secret = self.entries[i].secret;
                proof {
                    lemma_lookup_skip(self@.entries, fragment@, i as int);
                    assert(self@.entries.subrange(i as int, n as int)[0] == self@.entries[
                        i as int
                    ]);
                }
                return Ok(Signature { mac: secret ^ digest });
            }
            i = i + 1;
        }
        proof {
            lemma_lookup_skip(self@.entries, fragment@, n as int);
            assert(self@.entries.subrange(n as int, n as int) =~= Seq::<KeyEntrySpec>::empty());
        }
        Err(IdentityError::Vault)
    }

    /// Whether a key is stored under `fragment`.
    pub fn has_fragment(&self, fragment: &String) -> (r: bool)
        ensures
            r == (lookup_secret(self@.entries, fragment@) is Some),
    {
        let n: usize = self.entries.len();
        let mut i: usize = 0;
        while i < n
            invariant
                n == self.entries.len(),
                i <= n,
                forall|j: int| 0 <= j < i ==> self@.entries[j].fragment != fragment@,
            decreases n - i,
        {
            if self.entries[i].fragment == *fragment {
                proof {
                    lemma_lookup_skip(self@.entries, fragment@, i as int);
                    assert(self@.entries.subrange(i as int, n as int)[0] == self@.entries[
                        i as int
                    ]);
                }
                return true;
            }
            i = i + 1;
        }
        proof {
            lemma_lookup_skip(self@.entries, fragment@, n as int);
            assert(self@.entries.subrange(n as int, n as int) =~= Seq::<KeyEntrySpec>::empty());
        }
        false
    }
}

} // verus!
