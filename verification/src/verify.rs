//! Presentation and credential verification.
//!
//! Validation order (later steps assume earlier ones held): extract the
//! claimed holder syntactically, resolve the holder's document, check the
//! presentation signature, check expiry, batch-resolve every issuer, then
//! check each credential's signature and its subject-holder binding,
//! fail-fast on the first invalid credential.

use vstd::prelude::*;

use crate::credential::CredentialTokenSpec;
use crate::credential::credential_digest;
use crate::credential::credential_digest_exec;
use crate::document::DidDocumentSpec;
use crate::document::method_key;
use crate::errors::ErrorSpec;
use crate::errors::IdentityError;
use crate::errors::res_view;
use crate::ledger::Ledger;
use crate::ledger::resolve_doc;
use crate::presentation::PresentationToken;
use crate::presentation::PresentationTokenSpec;
use crate::presentation::presentation_digest;
use crate::presentation::presentation_digest_exec;
use crate::resolver::resolve_many;
use crate::sign::check_signature;
use crate::sign::mac_matches;

verus! {

/// Mathematical abstraction of a [`VerifyReport`].
pub ghost struct ReportSpec {
    pub valid: bool,
    pub holder: Seq<char>,
    pub credential_count: int,
}

/// Successful verification outcome: the holder and how many credentials were
/// validated.
pub struct VerifyReport {
    pub valid: bool,
    pub holder: String,
    pub credential_count: usize,
}

impl View for VerifyReport {
    type V = ReportSpec;

    open spec fn view(&self) -> ReportSpec {
        ReportSpec {
            valid: self.valid,
            holder: self.holder@,
            credential_count: self.credential_count as int,
        }
    }
}

/// Whether the presentation token's signature checks against the holder's
/// resolved document under the token's key fragment.
pub open spec fn presentation_sig_ok(t: PresentationTokenSpec, holder_doc: DidDocumentSpec)
    -> bool {
    match method_key(holder_doc.methods, t.fragment) {
        None => false,
        Some(pk) => mac_matches(pk, presentation_digest(t.presentation), t.signature.mac),
    }
}

/// The first failure of one credential token against its issuer's resolved
/// document: signature first, then the always-subject binding (the
/// credential's subject must be the presentation's holder).
pub open spec fn credential_check(
    c: CredentialTokenSpec,
    issuer_doc: DidDocumentSpec,
    holder: Seq<char>,
) -> Option<ErrorSpec> {
    match method_key(issuer_doc.methods, c.fragment) {
        None => Some(ErrorSpec::SignatureInvalid),
        Some(pk) => if !mac_matches(pk, credential_digest(c.credential), c.signature.mac) {
            Some(ErrorSpec::SignatureInvalid)
        } else if c.credential.subject_id != holder {
            Some(ErrorSpec::HolderBindingMismatch)
        } else {
            None
        },
    }
}

/// The issuer DID of the first credential whose issuer does not resolve, in
/// credential order.
pub open spec fn first_unresolved(
    documents: Seq<DidDocumentSpec>,
    creds: Seq<CredentialTokenSpec>,
) -> Option<Seq<char>>
    decreases creds.len(),
{
    if creds.len() == 0 {
        None
    } else if resolve_doc(documents, creds[0].credential.issuer) is None {
        Some(creds[0].credential.issuer)
    } else {
        first_unresolved(documents, creds.drop_first())
    }
}

/// The first per-credential failure, in credential order, with every issuer
/// resolved against `documents`.
pub open spec fn first_credential_error(
    documents: Seq<DidDocumentSpec>,
    creds: Seq<CredentialTokenSpec>,
    holder: Seq<char>,
) -> Option<ErrorSpec>
    decreases creds.len(),
{
    if creds.len() == 0 {
        None
    } else {
        match resolve_doc(documents, creds[0].credential.issuer) {
            None => Some(ErrorSpec::Resolution(creds[0].credential.issuer)),
            Some(doc) => match credential_check(creds[0], doc, holder) {
                Some(e) => Some(e),
                None => first_credential_error(documents, creds.drop_first(), holder),
            },
        }
    }
}

/// Fail-closed verification of a presentation token against the published
/// documents at instant `now`.
pub open spec fn verify_spec(
    t: PresentationTokenSpec,
    documents: Seq<DidDocumentSpec>,
    now: u64,
) -> Result<ReportSpec, ErrorSpec> {
    let holder = t.presentation.holder;
    match resolve_doc(documents, holder) {
        None => Err(ErrorSpec::Resolution(holder)),
        Some(holder_doc) => if !presentation_sig_ok(t, holder_doc) {
            Err(ErrorSpec::SignatureInvalid)
        } else if t.presentation.expires_at <= now {
            Err(ErrorSpec::ExpiredPresentation)
        } else {
            match first_unresolved(documents, t.presentation.credentials) {
                Some(missing) => Err(ErrorSpec::Resolution(missing)),
                None => match first_credential_error(
                    documents,
                    t.presentation.credentials,
                    holder,
                ) {
                    Some(e) => Err(e),
                    None => Ok(
                        ReportSpec {
                            valid: true,
                            holder,
                            credential_count: t.presentation.credentials.len() as int,
                        },
                    ),
                },
            }
        },
    }
}

pub proof fn lemma_first_unresolved_none(
    documents: Seq<DidDocumentSpec>,
    creds: Seq<CredentialTokenSpec>,
)
    requires
        forall|j: int| 0 <= j < creds.len() ==> resolve_doc(
            documents,
            #[trigger] creds[j].credential.issuer,
        ) is Some,
    ensures
        first_unresolved(documents, creds) is None,
    decreases creds.len(),
{
    if creds.len() > 0 {
        assert(forall|j: int| 0 <= j < creds.drop_first().len() ==> creds.drop_first()[j]
            == creds[j + 1]);
        lemma_first_unresolved_none(documents, creds.drop_first());
    }
}

pub proof fn lemma_first_unresolved_at(
    documents: Seq<DidDocumentSpec>,
    creds: Seq<CredentialTokenSpec>,
    i: int,
)
    requires
        0 <= i < creds.len(),
        resolve_doc(documents, creds[i].credential.issuer) is None,
        forall|j: int| 0 <= j < i ==> resolve_doc(
            documents,
            #[trigger] creds[j].credential.issuer,
        ) is Some,
    ensures
        first_unresolved(documents, creds) == Some(creds[i].credential.issuer),
    decreases i,
{
    if i > 0 {
        assert(forall|j: int| 0 <= j < creds.drop_first().len() ==> creds.drop_first()[j]
            == creds[j + 1]);
        lemma_first_unresolved_at(documents, creds.drop_first(), i - 1);
    }
}

pub proof fn lemma_first_cred_error_skip(
    documents: Seq<DidDocumentSpec>,
    creds: Seq<CredentialTokenSpec>,
    holder: Seq<char>,
    k: int,
)
    requires
        0 <= k <= creds.len(),
        forall|j: int| 0 <= j < k ==> (resolve_doc(
            documents,
            #[trigger] creds[j].credential.issuer,
        ) matches Some(doc) && credential_check(creds[j], doc, holder) is None),
    ensures
        first_credential_error(documents, creds, holder) == first_credential_error(
            documents,
            creds.subrange(k, creds.len() as int),
            holder,
        ),
    decreases k,
{
    if k == 0 {
        assert(creds.subrange(0, creds.len() as int) =~= creds);
    } else {
        assert(creds.drop_first() =~= creds.subrange(1, creds.len() as int));
        assert(forall|j: int| 0 <= j < creds.drop_first().len() ==> creds.drop_first()[j]
            == creds[j + 1]);
        lemma_first_cred_error_skip(documents, creds.drop_first(), holder, k - 1);
        assert(creds.drop_first().subrange(k - 1, creds.drop_first().len() as int)
            =~= creds.subrange(k, creds.len() as int));
    }
}

/// With no issuer unresolved and no credential failing, every credential's
/// issuer resolves and every per-credential check passes.
pub proof fn lemma_all_credentials_pass(
    documents: Seq<DidDocumentSpec>,
    creds: Seq<CredentialTokenSpec>,
    holder: Seq<char>,
)
    requires
        first_unresolved(documents, creds) is None,
        first_credential_error(documents, creds, holder) is None,
    ensures
        forall|j: int| 0 <= j < creds.len() ==> (resolve_doc(
            documents,
            #[trigger] creds[j].credential.issuer,
        ) matches Some(doc) && credential_check(creds[j], doc, holder) is None),
    decreases creds.len(),
{
    if creds.len() > 0 {
        assert(forall|j: int| 0 <= j < creds.drop_first().len() ==> creds.drop_first()[j]
            == creds[j + 1]);
        lemma_all_credentials_pass(documents, creds.drop_first(), holder);
        assert forall|j: int| 0 <= j < creds.len() implies (resolve_doc(
            documents,
            #[trigger] creds[j].credential.issuer,
        ) matches Some(doc) && credential_check(creds[j], doc, holder) is None) by {
            if j > 0 {
                assert(creds.drop_first()[j - 1] == creds[j]);
            }
        }
    }
}

/// Verifies a presentation token: holder resolution, presentation signature,
/// expiry, batched issuer resolution, then per-credential signature and
/// binding checks, failing on the first invalid credential.
#[verifier::loop_isolation(false)]
pub fn verify_presentation(token: &PresentationToken, ledger: &Ledger, now: u64) -> (r: Result<
    VerifyReport,
    IdentityError,
>)
    ensures
        res_view(r) == verify_spec(token@, ledger@.documents, now),
{
    let holder = &token.presentation.holder;
    let holder_doc = match ledger.lookup(holder) {
        Some(doc) => doc,
        None => {
            return Err(IdentityError::Resolution(holder.clone()));
        },
    };
    let pk = match holder_doc.find_method_key(&token.fragment) {
        Some(pk) => pk,
        None => {
            return Err(IdentityError::SignatureInvalid);
        },
    };
    let digest = presentation_digest_exec(&token.presentation);
    if !check_signature(pk, digest, &token.signature) {
        return Err(IdentityError::SignatureInvalid);
    }
    if token.presentation.expires_at <= now {
        return Err(IdentityError::ExpiredPresentation);
    }
    let creds = &token.presentation.credentials;
    let n: usize = creds.len();
    let mut issuers: Vec<String> = Vec::new();
    let mut i: usize = 0;
    while i < n
        invariant
            n == creds@.len(),
            i <= n,
            issuers@.len() == i,
            forall|j: int| 0 <= j < i ==> (#[trigger] issuers@[j])@ == creds.deep_view()[
                j
            ].credential.issuer,
        decreases n - i,
    {
        issuers.push(creds[i].credential.issuer.clone());
        proof {
            assert(creds.deep_view()[i as int] == creds@[i as int]@);
        }
        i = i + 1;
    }
    proof {
        assert forall|j: int| 0 <= j < n implies (#[trigger] issuers.deep_view()[j])
            == creds.deep_view()[j].credential.issuer by {
            assert(issuers.deep_view()[j] == issuers@[j]@);
        }
    }
    let docs = match resolve_many(ledger, &issuers) {
        Ok(docs) => {
            proof {
                assert forall|j: int| 0 <= j < n implies resolve_doc(
                    ledger@.documents,
                    #[trigger] creds.deep_view()[j].credential.issuer,
                ) is Some by {
                    assert(resolve_doc(ledger@.documents, issuers.deep_view()[j]) is Some);
                }
                lemma_first_unresolved_none(ledger@.documents, creds.deep_view());
            }
            docs
        },
        Err(e) => {
            proof {
                let i = choose|i: int|
                    0 <= i < issuers@.len() && resolve_doc(
                        ledger@.documents,
                        issuers.deep_view()[i],
                    ) is None && e@ == ErrorSpec::Resolution(issuers.deep_view()[i]) && (forall|
                        j: int,
                    |
                        0 <= j < i ==> resolve_doc(
                            ledger@.documents,
                            issuers.deep_view()[j],
                        ) is Some);
                assert forall|j: int| 0 <= j < i implies resolve_doc(
                    ledger@.documents,
                    #[trigger] creds.deep_view()[j].credential.issuer,
                ) is Some by {
                    assert(resolve_doc(ledger@.documents, issuers.deep_view()[j]) is Some);
                }
                lemma_first_unresolved_at(ledger@.documents, creds.deep_view(), i);
            }
            return Err(e);
        },
    };
    let mut i: usize = 0;
    while i < n
        invariant
            n == creds@.len(),
            n == docs@.len(),
            i <= n,
            forall|j: int| 0 <= j < n ==> resolve_doc(
                ledger@.documents,
                #[trigger] creds.deep_view()[j].credential.issuer,
            ) == Some(docs.deep_view()[j]),
            forall|j: int| 0 <= j < i ==> credential_check(
                #[trigger] creds.deep_view()[j],
                docs.deep_view()[j],
                token@.presentation.holder,
            ) is None,
        decreases n - i,
    {
        let cred = &creds[i];
        let doc = &docs[i];
        proof {
            assert(creds.deep_view()[i as int] == creds@[i as int]@);
            assert(docs.deep_view()[i as int] == docs@[i as int]@);
            lemma_first_cred_error_skip(
                ledger@.documents,
                creds.deep_view(),
                token@.presentation.holder,
                i as int,
            );
            assert(creds.deep_view().subrange(i as int, n as int)[0] == creds.deep_view()[
                i as int
            ]);
        }
        let ipk = match doc.find_method_key(&cred.fragment) {
            Some(ipk) => ipk,
            None => {
                return Err(IdentityError::SignatureInvalid);
            },
        };
        let cdigest = credential_digest_exec(&cred.credential);
        if !check_signature(ipk, cdigest, &cred.signature) {
            return Err(IdentityError::SignatureInvalid);
        }
        if cred.credential.subject_id != token.presentation.holder {
            return Err(IdentityError::HolderBindingMismatch);
        }
        i = i + 1;
    }
    proof {
        lemma_first_cred_error_skip(
            ledger@.documents,
            creds.deep_view(),
            token@.presentation.holder,
            n as int,
        );
        assert(creds.deep_view().subrange(n as int, n as int) =~= Seq::<
            CredentialTokenSpec,
        >::empty());
    }
    Ok(
        VerifyReport {
            valid: true,
            holder: token.presentation.holder.clone(),
            credential_count: n,
        },
    )
}

} // verus!
