//! Credential issuance: claims about a subject, signed by an issuer.

use vstd::prelude::*;

use crate::errors::ErrorSpec;
use crate::errors::IdentityError;
use crate::errors::res_view;
use crate::identity::ActorIdentity;
use crate::identity::ActorIdentitySpec;
use crate::sign::DIGEST_SEED;
use crate::sign::Signature;
use crate::sign::digest_chars;
use crate::sign::digest_str;
use crate::sign::mac_of;
use crate::sign::mix;
use crate::sign::mix_step;
use crate::vault::KeyVault;
use crate::vault::KeyVaultSpec;
use crate::vault::lookup_secret;

verus! {

/// Mathematical abstraction of a claim.
pub ghost struct ClaimSpec {
    pub key: Seq<char>,
    pub value: Seq<char>,
}

/// One asserted attribute of a subject.
pub struct Claim {
    pub key: String,
    pub value: String,
}

impl View for Claim {
    type V = ClaimSpec;

    open spec fn view(&self) -> ClaimSpec {
        ClaimSpec { key: self.key@, value: self.value@ }
    }
}

impl DeepView for Claim {
    type V = ClaimSpec;

    open spec fn deep_view(&self) -> ClaimSpec {
        self.view()
    }
}

impl Clone for Claim {
    fn clone(&self) -> (r: Self)
        ensures
            r@ == self@,
    {
        Claim { key: self.key.clone(), value: self.value.clone() }
    }
}

/// Mathematical abstraction of a [`Credential`].
pub ghost struct CredentialSpec {
    pub issuer: Seq<char>,
    pub subject_id: Seq<char>,
    pub claims: Seq<ClaimSpec>,
    pub credential_type: Seq<char>,
}

/// An issuer's claim set about a subject; never mutated after signing.
pub struct Credential {
    pub issuer: String,
    pub subject_id: String,
    pub claims: Vec<Claim>,
    pub credential_type: String,
}

impl View for Credential {
    type V = CredentialSpec;

    open spec fn view(&self) -> CredentialSpec {
        CredentialSpec {
            issuer: self.issuer@,
            subject_id: self.subject_id@,
            claims: self.claims.deep_view(),
            credential_type: self.credential_type@,
        }
    }
}

impl Clone for Credential {
    fn clone(&self) -> (r: Self)
        ensures
            r@ == self@,
    {
        let mut claims: Vec<Claim> = Vec::new();
        let n: usize = self.claims.len();
        let mut i: usize = 0;
        while i < n
            invariant
                n == self.claims.len(),
                i <= n,
                claims@.len() == i,
                forall|j: int| 0 <= j < i ==> (#[trigger] claims@[j])@ == self.claims@[j]@,
            decreases n - i,
        {
            claims.push(self.claims[i].clone());
            i = i + 1;
        }
        proof {
            let a = claims.deep_view();
            let b = self.claims.deep_view();
            assert forall|j: int| 0 <= j < n implies a[j] == b[j] by {
                assert(a[j] == claims@[j]@);
                assert(b[j] == self.claims@[j]@);
            }
            assert(a =~= b);
        }
        Credential {
            issuer: self.issuer.clone(),
            subject_id: self.subject_id.clone(),
            claims,
            credential_type: self.credential_type.clone(),
        }
    }
}

/// Mathematical abstraction of a [`CredentialToken`].
pub ghost struct CredentialTokenSpec {
    pub credential: CredentialSpec,
    pub fragment: Seq<char>,
    pub signature: Signature,
}

/// A signed, self-contained credential: the credential content, the signing
/// key fragment, and the issuer's signature over the content digest.
pub struct CredentialToken {
    pub credential: Credential,
    pub fragment: String,
    pub signature: Signature,
}

impl View for CredentialToken {
    type V = CredentialTokenSpec;

    open spec fn view(&self) -> CredentialTokenSpec {
        CredentialTokenSpec {
            credential: self.credential@,
            fragment: self.fragment@,
            signature: self.signature,
        }
    }
}

impl DeepView for CredentialToken {
    type V = CredentialTokenSpec;

    open spec fn deep_view(&self) -> CredentialTokenSpec {
        self.view()
    }
}

impl Clone for CredentialToken {
    fn clone(&self) -> (r: Self)
        ensures
            r@ == self@,
    {
        CredentialToken {
            credential: self.credential.clone(),
            fragment: self.fragment.clone(),
            signature: self.signature,
        }
    }
}

/// Digest of a claim sequence.
pub open spec fn digest_claims(claims: Seq<ClaimSpec>) -> u64
    decreases claims.len(),
{
    if claims.len() == 0 {
        DIGEST_SEED
    } else {
        mix(
            mix(digest_claims(claims.drop_last()), digest_chars(claims.last().key)),
            digest_chars(claims.last().value),
        )
    }
}

/// Digest of a credential's content: what the issuer signs.
pub open spec fn credential_digest(c: CredentialSpec) -> u64 {
    mix(
        mix(
            mix(mix(DIGEST_SEED, digest_chars(c.issuer)), digest_chars(c.subject_id)),
            digest_claims(c.claims),
        ),
        digest_chars(c.credential_type),
    )
}

/// Digest of a claim list.
pub fn digest_claims_exec(claims: &Vec<Claim>) -> (r: u64)
    ensures
        r == digest_claims(claims.deep_view()),
{
    let n: usize = claims.len();
    let mut acc: u64 = DIGEST_SEED;
    let mut i: usize = 0;
    while i < n
        invariant
            n == claims@.len(),
            i <= n,
            acc == digest_claims(claims.deep_view().subrange(0, i as int)),
        decreases n - i,
    {
        let dk = digest_str(claims[i].key.as_str());
        let dv = digest_str(claims[i].value.as_str());
        acc = mix_step(mix_step(acc, dk), dv);
        proof {
            let cv = claims.deep_view();
            assert(cv.subrange(0, i + 1).drop_last() =~= cv.subrange(0, i as int));
            assert(cv.subrange(0, i + 1).last() == cv[i as int]);
            assert(cv[i as int] == claims@[i as int]@);
        }
        i = i + 1;
    }
    proof {
        assert(claims.deep_view().subrange(0, n as int) =~= claims.deep_view());
    }
    acc
}

/// Digest of a credential's content.
pub fn credential_digest_exec(c: &Credential) -> (r: u64)
    ensures
        r == credential_digest(c@),
{
    let d1 = mix_step(DIGEST_SEED, digest_str(c.issuer.as_str()));
    let d2 = mix_step(d1, digest_str(c.subject_id.as_str()));
    let d3 = mix_step(d2, digest_claims_exec(&c.claims));
    mix_step(d3, digest_str(c.credential_type.as_str()))
}

/// Issuing a credential: the claims are bound to the subject, attributed to
/// the issuer's DID, and signed with the issuer's vault key; an unknown
/// fragment is a vault failure.
pub open spec fn issue_spec(
    issuer: ActorIdentitySpec,
    vault: KeyVaultSpec,
    subject_did: Seq<char>,
    claims: Seq<ClaimSpec>,
    credential_type: Seq<char>,
) -> Result<CredentialTokenSpec, ErrorSpec> {
    let cred = CredentialSpec {
        issuer: issuer.document.id,
        subject_id: subject_did,
        claims,
        credential_type,
    };
    match lookup_secret(vault.entries, issuer.fragment) {
        Some(secret) => Ok(
            CredentialTokenSpec {
                credential: cred,
                fragment: issuer.fragment,
                signature: Signature { mac: mac_of(secret, credential_digest(cred)) },
            },
        ),
        None => Err(ErrorSpec::Vault),
    }
}

/// Builds and signs a credential binding `claims` to `subject_did` under the
/// issuer's identity.  The subject's DID is not resolved here; that check is
/// deferred to verification.
pub fn issue(
    issuer: &ActorIdentity,
    vault: &KeyVault,
    subject_did: &String,
    claims: Vec<Claim>,
    credential_type: &String,
) -> (r: Result<CredentialToken, IdentityError>)
    ensures
        res_view(r) == issue_spec(
            issuer@,
            vault@,
            subject_did@,
            claims.deep_view(),
            credential_type@,
        ),
{
    let credential = Credential {
        issuer: issuer.document.id.clone(),
        subject_id: subject_did.clone(),
        claims,
        credential_type: credential_type.clone(),
    };
    let digest = credential_digest_exec(&credential);
    match vault.sign(&issuer.fragment, digest) {
        Ok(sig) => Ok(
            CredentialToken { credential, fragment: issuer.fragment.clone(), signature: sig },
        ),
        Err(e) => Err(e),
    }
}

} // verus!
