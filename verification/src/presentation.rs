//! Presentation assembly: bundling credential tokens under a holder's
//! signature with a bounded validity window.

use vstd::prelude::*;

use crate::credential::CredentialToken;
use crate::credential::CredentialTokenSpec;
use crate::credential::credential_digest;
use crate::credential::credential_digest_exec;
use crate::errors::ErrorSpec;
use crate::errors::IdentityError;
use crate::errors::res_view;
use crate::identity::ActorIdentity;
use crate::identity::ActorIdentitySpec;
use crate::sign::DIGEST_SEED;
use crate::sign::Signature;
use crate::sign::digest_chars;
use crate::sign::digest_str;
use crate::sign::mac_of;
use crate::sign::mix;
use crate::sign::mix_step;
use crate::vault::KeyVault;
use crate::vault::KeyVaultSpec;
use crate::vault::lookup_secret;

verus! {

/// How long a presentation stays valid, in seconds.
pub const VALIDITY_WINDOW: u64 = 600;

/// Mathematical abstraction of a [`Presentation`].
pub ghost struct PresentationSpec {
    pub holder: Seq<char>,
    pub credentials: Seq<CredentialTokenSpec>,
    pub expires_at: u64,
}

/// A holder's bundle of credential tokens with its expiry instant.
pub struct Presentation {
    pub holder: String,
    pub credentials: Vec<CredentialToken>,
    pub expires_at: u64,
}

impl View for Presentation {
    type V = PresentationSpec;

    open spec fn view(&self) -> PresentationSpec {
        PresentationSpec {
            holder: self.holder@,
            credentials: self.credentials.deep_view(),
            expires_at: self.expires_at,
        }
    }
}

impl Clone for Presentation {
    fn clone(&self) -> (r: Self)
        ensures
            r@ == self@,
    {
        let mut credentials: Vec<CredentialToken> = Vec::new();
        let n: usize = self.credentials.len();
        let mut i: usize = 0;
        while i < n
            invariant
                n == self.credentials.len(),
                i <= n,
                credentials@.len() == i,
                forall|j: int| 0 <= j < i ==> (#[trigger] credentials@[j])@ == self.credentials@[
                    j
                ]@,
            decreases n - i,
        {
            credentials.push(self.credentials[i].clone());
            i = i + 1;
        }
        proof {
            let a = credentials.deep_view();
            let b = self.credentials.deep_view();
            assert forall|j: int| 0 <= j < n implies a[j] == b[j] by {
                assert(a[j] == credentials@[j]@);
                assert(b[j] == self.credentials@[j]@);
            }
            assert(a =~= b);
        }
        Presentation { holder: self.holder.clone(), credentials, expires_at: self.expires_at }
    }
}

/// Mathematical abstraction of a [`PresentationToken`].
pub ghost struct PresentationTokenSpec {
    pub presentation: PresentationSpec,
    pub fragment: Seq<char>,
    pub signature: Signature,
}

/// A signed, self-contained presentation: the bundle, the holder's signing
/// key fragment, and the holder's signature over the bundle digest.
pub struct PresentationToken {
    pub presentation: Presentation,
    pub fragment: String,
    pub signature: Signature,
}

impl View for PresentationToken {
    type V = PresentationTokenSpec;

    open spec fn view(&self) -> PresentationTokenSpec {
        PresentationTokenSpec {
            presentation: self.presentation@,
            fragment: self.fragment@,
            signature: self.signature,
        }
    }
}

impl DeepView for PresentationToken {
    type V = PresentationTokenSpec;

    open spec fn deep_view(&self) -> PresentationTokenSpec {
        self.view()
    }
}

impl Clone for PresentationToken {
    fn clone(&self) -> (r: Self)
        ensures
            r@ == self@,
    {
        PresentationToken {
            presentation: self.presentation.clone(),
            fragment: self.fragment.clone(),
            signature: self.signature,
        }
    }
}

/// Digest of one embedded credential token, signature metadata included: a
/// presentation signs the serialized tokens, not just their contents.
pub open spec fn token_digest(t: CredentialTokenSpec) -> u64 {
    mix(
        mix(mix(DIGEST_SEED, credential_digest(t.credential)), digest_chars(t.fragment)),
        t.signature.mac,
    )
}

/// Digest of the embedded credential-token list.
pub open spec fn digest_tokens(ts: Seq<CredentialTokenSpec>) -> u64
    decreases ts.len(),
{
    if ts.len() == 0 {
        DIGEST_SEED
    } else {
        mix(digest_tokens(ts.drop_last()), token_digest(ts.last()))
    }
}

/// Digest of a presentation's content: what the holder signs.
pub open spec fn presentation_digest(p: PresentationSpec) -> u64 {
    mix(
        mix(mix(DIGEST_SEED, digest_chars(p.holder)), digest_tokens(p.credentials)),
        p.expires_at,
    )
}

/// Digest of one embedded credential token.
pub fn token_digest_exec(t: &CredentialToken) -> (r: u64)
    ensures
        r == token_digest(t@),
{
    let d1 = mix_step(DIGEST_SEED, credential_digest_exec(&t.credential));
    let d2 = mix_step(d1, digest_str(t.fragment.as_str()));
    mix_step(d2, t.signature.mac)
}

/// Digest of a credential-token list.
pub fn digest_tokens_exec(ts: &Vec<CredentialToken>) -> (r: u64)
    ensures
        r == digest_tokens(ts.deep_view()),
{
    let n: usize = ts.len();
    let mut acc: u64 = DIGEST_SEED;
    let mut i: usize = 0;
    while i < n
        invariant
            n == ts@.len(),
            i <= n,
            acc == digest_tokens(ts.deep_view().subrange(0, i as int)),
        decreases n - i,
    {
        let d = token_digest_exec(&ts[i]);
        acc = mix_step(acc, d);
        proof {
            let tv = ts.deep_view();
            assert(tv.subrange(0, i + 1).drop_last() =~= tv.subrange(0, i as int));
            assert(tv.subrange(0, i + 1).last() == tv[i as int]);
            assert(tv[i as int] == ts@[i as int]@);
        }
        i = i + 1;
    }
    proof {
        assert(ts.deep_view().subrange(0, n as int) =~= ts.deep_view());
    }
    acc
}

/// Digest of a presentation's content.
pub fn presentation_digest_exec(p: &Presentation) -> (r: u64)
    ensures
        r == presentation_digest(p@),
{
    let d1 = mix_step(DIGEST_SEED, digest_str(p.holder.as_str()));
    let d2 = mix_step(d1, digest_tokens_exec(&p.credentials));
    mix_step(d2, p.expires_at)
}

/// Assembling a presentation: the current credential token is wrapped under
/// the holder's DID with expiry `now + VALIDITY_WINDOW` and signed with the
/// holder's vault key.  No current credential is a storage failure; expiry
/// overflow is an internal failure; an unknown fragment is a vault failure.
pub open spec fn present_spec(
    holder: ActorIdentitySpec,
    vault: KeyVaultSpec,
    current: Option<CredentialTokenSpec>,
    now: u64,
) -> Result<PresentationTokenSpec, ErrorSpec> {
    match current {
        None => Err(ErrorSpec::Storage),
        Some(tok) => if now + VALIDITY_WINDOW > u64::MAX {
            Err(ErrorSpec::Internal)
        } else {
            let pres = PresentationSpec {
                holder: holder.document.id,
                credentials: seq![tok],
                expires_at: (now + VALIDITY_WINDOW) as u64,
            };
            match lookup_secret(vault.entries, holder.fragment) {
                Some(secret) => Ok(
                    PresentationTokenSpec {
                        presentation: pres,
                        fragment: holder.fragment,
                        signature: Signature { mac: mac_of(secret, presentation_digest(pres)) },
                    },
                ),
                None => Err(ErrorSpec::Vault),
            }
        },
    }
}

/// Wraps the holder's current credential token into a presentation expiring
/// `VALIDITY_WINDOW` seconds after `now`, signed under the holder's fragment.
pub fn present(
    holder: &ActorIdentity,
    vault: &KeyVault,
    current: &Option<CredentialToken>,
    now: u64,
) -> (r: Result<PresentationToken, IdentityError>)
    ensures
        res_view(r) == present_spec(holder@, vault@, current.deep_view(), now),
{
    let tok = match current {
        None => {
            return Err(IdentityError::Storage);
        },
        Some(t) => t,
    };
    if now > u64::MAX - VALIDITY_WINDOW {
        return Err(IdentityError::Internal);
    }
    let expires_at = now + VALIDITY_WINDOW;
    let mut credentials: Vec<CredentialToken> = Vec::new();
    credentials.push(tok.clone());
    let presentation = Presentation {
        holder: holder.document.id.clone(),
        credentials,
        expires_at,
    };
    proof {
        assert(presentation@.credentials =~= seq![tok@]);
    }
    let digest = presentation_digest_exec(&presentation);
    match vault.sign(&holder.fragment, digest) {
        Ok(sig) => Ok(
            PresentationToken {
                presentation,
                fragment: holder.fragment.clone(),
                signature: sig,
            },
        ),
        Err(e) => Err(e),
    }
}

} // verus!
