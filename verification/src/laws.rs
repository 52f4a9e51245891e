//! Laws of the trust pipeline, proved from the operations' specifications.

use vstd::prelude::*;

use crate::credential::CredentialTokenSpec;
use crate::credential::ClaimSpec;
use crate::credential::credential_digest;
use crate::credential::issue_spec;
use crate::document::DidDocumentSpec;
use crate::document::method_key;
use crate::errors::ErrorSpec;
use crate::identity::ActorIdentitySpec;
use crate::identity::ActorStateSpec;
use crate::identity::create_identity_spec;
use crate::identity::created_document;
use crate::identity::ensure_identity_spec;
use crate::identity::RecordSpec;
use crate::identity::load_identity_spec;
use crate::ledger::LedgerSpec;
use crate::ledger::resolve_doc;
use crate::presentation::PresentationSpec;
use crate::presentation::PresentationTokenSpec;
use crate::presentation::VALIDITY_WINDOW;
use crate::presentation::present_spec;
use crate::presentation::presentation_digest;
use crate::sign::Signature;
use crate::sign::lemma_sign_then_check;
use crate::sign::mac_matches;
use crate::sign::public_of;
use crate::text::lemma_trim_idempotent;
use crate::text::trim_spec;
use crate::document::MethodSpec;
use crate::ledger::lemma_resolve_doc_push;
use crate::ledger::lemma_unresolved_absent;
use crate::ledger::unique_dids;
use crate::vault::KeyEntrySpec;
use crate::vault::KeyVaultSpec;
use crate::vault::key_material;
use crate::vault::lemma_lookup_push;
use crate::vault::lookup_secret;
use crate::verify::ReportSpec;
use crate::workflow::WorldSpec;
use crate::workflow::create_did_spec;
use crate::workflow::create_vp_spec;
use crate::workflow::issue_vc_spec;
use crate::workflow::verify_vp_spec;
use crate::verify::credential_check;
use crate::verify::first_credential_error;
use crate::verify::first_unresolved;
use crate::verify::lemma_all_credentials_pass;
use crate::verify::lemma_first_cred_error_skip;
use crate::verify::lemma_first_unresolved_at;
use crate::verify::lemma_first_unresolved_none;
use crate::verify::presentation_sig_ok;
use crate::verify::verify_spec;

verus! {

/// An identity is consistently set up when its vault holds a secret under
/// its fragment, its document publishes the matching verification key under
/// that fragment, and the ledger resolves its DID to that document.
pub open spec fn identity_consistent(
    id: ActorIdentitySpec,
    vault: KeyVaultSpec,
    ledger: LedgerSpec,
) -> bool {
    &&& (lookup_secret(vault.entries, id.fragment) matches Some(secret) && method_key(
        id.document.methods,
        id.fragment,
    ) == Some(public_of(secret)))
    &&& resolve_doc(ledger.documents, id.document.id) == Some(id.document)
}

/// Idempotence: once create-or-load has succeeded, calling it again returns
/// the same identity (hence the same DID) and changes neither the actor
/// state nor the ledger — in particular, no second publish.
pub proof fn lemma_ensure_identity_idempotent(
    actor: ActorStateSpec,
    ledger: LedgerSpec,
    did: Seq<char>,
    fragment: Seq<char>,
)
    requires
        ({
            let (a1, l1, r1) = ensure_identity_spec(actor, ledger, did, fragment);
            r1 is Ok
        }),
    ensures
        ({
            let (a1, l1, r1) = ensure_identity_spec(actor, ledger, did, fragment);
            let (a2, l2, r2) = ensure_identity_spec(a1, l1, did, fragment);
            a2 == a1 && l2 == l1 && r2 == r1
        }),
{
    lemma_trim_idempotent(fragment);
    if actor.record is Some {
        lemma_trim_idempotent(actor.record->Some_0.fragment);
    }
}

/// Load inverts creation: a successful creation persists a record whose
/// load returns exactly the created identity, whatever the requested
/// fragment looked like.
pub proof fn lemma_load_inverts_create(
    actor: ActorStateSpec,
    ledger: LedgerSpec,
    did: Seq<char>,
    fragment: Seq<char>,
)
    requires
        ({
            let (a1, l1, r1) = create_identity_spec(actor, ledger, did, fragment);
            r1 is Ok
        }),
    ensures
        ({
            let (a1, l1, r1) = create_identity_spec(actor, ledger, did, fragment);
            a1.record matches Some(rec) && load_identity_spec(rec) == Ok::<
                ActorIdentitySpec,
                ErrorSpec,
            >(r1->Ok_0)
        }),
{
    lemma_trim_idempotent(fragment);
}

/// A successful creation leaves the new identity consistently set up with
/// the actor's vault and the ledger, provided its fragment is fresh in the
/// vault.
pub proof fn lemma_create_identity_consistent(
    actor: ActorStateSpec,
    ledger: LedgerSpec,
    did: Seq<char>,
    fragment: Seq<char>,
)
    requires
        lookup_secret(actor.vault.entries, trim_spec(fragment)) is None,
        ({
            let (a1, l1, r1) = create_identity_spec(actor, ledger, did, fragment);
            r1 is Ok
        }),
    ensures
        ({
            let (a1, l1, r1) = create_identity_spec(actor, ledger, did, fragment);
            identity_consistent(r1->Ok_0, a1.vault, l1)
        }),
{
    let frag = trim_spec(fragment);
    let secret = key_material(actor.vault.seed, actor.vault.entries.len() as u64);
    let entry = KeyEntrySpec { fragment: frag, secret };
    lemma_lookup_push(actor.vault.entries, entry, frag);
    let doc = created_document(did, frag, public_of(secret));
    assert(doc.methods[0] == (MethodSpec { fragment: frag, public_key: public_of(secret) }));
    assert(method_key(doc.methods, frag) == Some(public_of(secret)));
    lemma_resolve_doc_push(ledger.documents, doc, did);
}

/// Consistency survives later activity on the ledger: publishing another
/// document or funding more addresses does not disturb an identity already
/// set up.
pub proof fn lemma_consistency_preserved_by_publish(
    id: ActorIdentitySpec,
    vault: KeyVaultSpec,
    ledger: LedgerSpec,
    doc: DidDocumentSpec,
    funded: Seq<u64>,
)
    requires
        identity_consistent(id, vault, ledger),
    ensures
        identity_consistent(
            id,
            vault,
            LedgerSpec { documents: ledger.documents.push(doc), funded },
        ),
{
    lemma_resolve_doc_push(ledger.documents, doc, id.document.id);
}

/// Publish-once: an accepted publication is of a DID no published document
/// holds, so the ledger never holds two documents for one DID.
pub proof fn lemma_publish_preserves_uniqueness(
    documents: Seq<DidDocumentSpec>,
    doc: DidDocumentSpec,
)
    requires
        unique_dids(documents),
        resolve_doc(documents, doc.id) is None,
    ensures
        unique_dids(documents.push(doc)),
{
    lemma_unresolved_absent(documents, doc.id);
    let p = documents.push(doc);
    assert forall|i: int, j: int| 0 <= i < j < p.len() implies p[i].id != p[j].id by {
        assert(p[i] == documents[i]);
        if j == documents.len() {
            assert(p[j] == doc);
        } else {
            assert(p[j] == documents[j]);
        }
    }
}

/// Round trip: with the driver and the issuer consistently set up, issuing a
/// credential for the driver, presenting it as the driver, and verifying
/// before expiry reports valid, the driver as holder, and one credential.
pub proof fn lemma_round_trip(
    driver: ActorIdentitySpec,
    issuer: ActorIdentitySpec,
    driver_vault: KeyVaultSpec,
    issuer_vault: KeyVaultSpec,
    ledger: LedgerSpec,
    claims: Seq<ClaimSpec>,
    credential_type: Seq<char>,
    now: u64,
    check_time: u64,
)
    requires
        identity_consistent(driver, driver_vault, ledger),
        identity_consistent(issuer, issuer_vault, ledger),
        now + VALIDITY_WINDOW <= u64::MAX,
        check_time < now + VALIDITY_WINDOW,
    ensures
        (issue_spec(issuer, issuer_vault, driver.document.id, claims, credential_type)
            matches Ok(vc) && present_spec(driver, driver_vault, Some(vc), now) matches Ok(vp)
            && verify_spec(vp, ledger.documents, check_time) == Ok::<ReportSpec, ErrorSpec>(
            ReportSpec { valid: true, holder: driver.document.id, credential_count: 1 },
        )),
{
    let isecret = lookup_secret(issuer_vault.entries, issuer.fragment)->Some_0;
    let dsecret = lookup_secret(driver_vault.entries, driver.fragment)->Some_0;
    let vc = issue_spec(issuer, issuer_vault, driver.document.id, claims, credential_type)->Ok_0;
    lemma_sign_then_check(isecret, credential_digest(vc.credential));
    let vp = present_spec(driver, driver_vault, Some(vc), now)->Ok_0;
    lemma_sign_then_check(dsecret, presentation_digest(vp.presentation));
    let creds = vp.presentation.credentials;
    assert(creds =~= seq![vc]);
    assert(creds[0] == vc);
    assert(creds.drop_first() =~= Seq::<CredentialTokenSpec>::empty());
    assert(first_unresolved(ledger.documents, creds.drop_first()) is None);
    assert(first_unresolved(ledger.documents, creds) is None);
    assert(credential_check(vc, issuer.document, driver.document.id) is None);
    assert(first_credential_error(ledger.documents, creds.drop_first(), driver.document.id)
        is None);
    assert(first_credential_error(ledger.documents, creds, driver.document.id) is None);
}

/// End to end: from a fresh state, creating the driver, issuing a
/// credential for it, presenting at `now`, and verifying before expiry
/// succeeds at every step and reports valid, the driver as holder, and one
/// credential.
pub proof fn lemma_pipeline_end_to_end(
    w0: WorldSpec,
    driver_did: Seq<char>,
    driver_fragment: Seq<char>,
    issuer_did: Seq<char>,
    issuer_fragment: Seq<char>,
    claims: Seq<ClaimSpec>,
    credential_type: Seq<char>,
    now: u64,
    check_time: u64,
)
    requires
        w0.driver.record is None,
        w0.issuer.record is None,
        w0.driver.vault.entries == Seq::<KeyEntrySpec>::empty(),
        w0.issuer.vault.entries == Seq::<KeyEntrySpec>::empty(),
        w0.ledger.documents == Seq::<crate::document::DidDocumentSpec>::empty(),
        trim_spec(driver_fragment).len() > 0,
        trim_spec(issuer_fragment).len() > 0,
        issuer_did != driver_did,
        now + VALIDITY_WINDOW <= u64::MAX,
        check_time < now + VALIDITY_WINDOW,
    ensures
        ({
            let (w1, r1) = create_did_spec(w0, driver_did, driver_fragment);
            let (w2, r2) = issue_vc_spec(w1, issuer_did, issuer_fragment, claims, credential_type);
            let (w3, r3) = create_vp_spec(w2, now);
            r1 == Ok::<Seq<char>, ErrorSpec>(driver_did) && r2 is Ok && r3 is Ok
                && verify_vp_spec(w3, check_time) == Ok::<ReportSpec, ErrorSpec>(
                ReportSpec { valid: true, holder: driver_did, credential_count: 1 },
            )
        }),
{
    let dfrag = trim_spec(driver_fragment);
    let ifrag = trim_spec(issuer_fragment);
    assert(lookup_secret(w0.driver.vault.entries, dfrag) is None);
    assert(lookup_secret(w0.issuer.vault.entries, ifrag) is None);
    assert(resolve_doc(w0.ledger.documents, driver_did) is None);
    let (w1, r1) = create_did_spec(w0, driver_did, driver_fragment);
    lemma_create_identity_consistent(w0.driver, w0.ledger, driver_did, driver_fragment);
    let dsecret = key_material(w0.driver.vault.seed, 0);
    let ddoc = created_document(driver_did, dfrag, public_of(dsecret));
    let driver = ActorIdentitySpec { document: ddoc, fragment: dfrag };
    assert(identity_consistent(driver, w1.driver.vault, w1.ledger));
    lemma_resolve_doc_push(w0.ledger.documents, ddoc, issuer_did);
    assert(w1.ledger.documents == w0.ledger.documents.push(ddoc));
    assert(resolve_doc(w1.ledger.documents, issuer_did) is None);
    let (w2, r2) = issue_vc_spec(w1, issuer_did, issuer_fragment, claims, credential_type);
    lemma_trim_idempotent(driver_fragment);
    assert(load_identity_spec(RecordSpec { document: ddoc, fragment: dfrag })
        == Ok::<ActorIdentitySpec, ErrorSpec>(driver));
    lemma_create_identity_consistent(w1.issuer, w1.ledger, issuer_did, issuer_fragment);
    let isecret = key_material(w0.issuer.vault.seed, 0);
    let idoc = created_document(issuer_did, ifrag, public_of(isecret));
    let issuer = ActorIdentitySpec { document: idoc, fragment: ifrag };
    assert(identity_consistent(issuer, w2.issuer.vault, w2.ledger));
    lemma_consistency_preserved_by_publish(
        driver,
        w1.driver.vault,
        w1.ledger,
        idoc,
        w2.ledger.funded,
    );
    assert(identity_consistent(driver, w2.driver.vault, w2.ledger));
    assert(r2 is Ok);
    let (w3, r3) = create_vp_spec(w2, now);
    lemma_round_trip(
        driver,
        issuer,
        w2.driver.vault,
        w2.issuer.vault,
        w2.ledger,
        claims,
        credential_type,
        now,
        check_time,
    );
    assert(r3 is Ok);
    assert(w3.ledger == w2.ledger);
}

/// Tamper detection, credential level: changing the signature of a
/// credential token that passes its check makes the check fail with a
/// signature error, whatever the new value.
pub proof fn lemma_credential_tamper_detected(
    c: CredentialTokenSpec,
    issuer_doc: DidDocumentSpec,
    holder: Seq<char>,
    tampered_mac: u64,
)
    requires
        credential_check(c, issuer_doc, holder) is None,
        tampered_mac != c.signature.mac,
    ensures
        credential_check(
            CredentialTokenSpec {
                credential: c.credential,
                fragment: c.fragment,
                signature: Signature { mac: tampered_mac },
            },
            issuer_doc,
            holder,
        ) == Some(ErrorSpec::SignatureInvalid),
{
}

/// Tamper detection, presentation level: changing the signature of a
/// presentation token that verifies makes verification fail with a signature
/// error, whatever the new value.
pub proof fn lemma_presentation_tamper_detected(
    t: PresentationTokenSpec,
    documents: Seq<DidDocumentSpec>,
    now: u64,
    tampered_mac: u64,
)
    requires
        verify_spec(t, documents, now) is Ok,
        tampered_mac != t.signature.mac,
    ensures
        verify_spec(
            PresentationTokenSpec {
                presentation: t.presentation,
                fragment: t.fragment,
                signature: Signature { mac: tampered_mac },
            },
            documents,
            now,
        ) == Err::<ReportSpec, ErrorSpec>(ErrorSpec::SignatureInvalid),
{
}

/// Tamper detection, embedded credential: changing the signature of any
/// credential token inside a presentation that verifies makes verification
/// fail with a signature error — either the presentation signature no longer
/// covers the bundle, or the credential's own check fails.
pub proof fn lemma_embedded_credential_tamper_detected(
    t: PresentationTokenSpec,
    documents: Seq<DidDocumentSpec>,
    now: u64,
    i: int,
    tampered_mac: u64,
)
    requires
        verify_spec(t, documents, now) is Ok,
        0 <= i < t.presentation.credentials.len(),
        tampered_mac != t.presentation.credentials[i].signature.mac,
    ensures
        ({
            let c = t.presentation.credentials[i];
            let c2 = CredentialTokenSpec {
                credential: c.credential,
                fragment: c.fragment,
                signature: Signature { mac: tampered_mac },
            };
            let t2 = PresentationTokenSpec {
                presentation: PresentationSpec {
                    holder: t.presentation.holder,
                    credentials: t.presentation.credentials.update(i, c2),
                    expires_at: t.presentation.expires_at,
                },
                fragment: t.fragment,
                signature: t.signature,
            };
            verify_spec(t2, documents, now) == Err::<ReportSpec, ErrorSpec>(ErrorSpec::SignatureInvalid)
        }),
{
    let holder = t.presentation.holder;
    let creds = t.presentation.credentials;
    let c = creds[i];
    let c2 = CredentialTokenSpec {
        credential: c.credential,
        fragment: c.fragment,
        signature: Signature { mac: tampered_mac },
    };
    let creds2 = creds.update(i, c2);
    let t2 = PresentationTokenSpec {
        presentation: PresentationSpec {
            holder,
            credentials: creds2,
            expires_at: t.presentation.expires_at,
        },
        fragment: t.fragment,
        signature: t.signature,
    };
    let holder_doc = resolve_doc(documents, holder)->Some_0;
    lemma_all_credentials_pass(documents, creds, holder);
    if presentation_sig_ok(t2, holder_doc) {
        assert forall|j: int| 0 <= j < creds2.len() implies resolve_doc(
            documents,
            #[trigger] creds2[j].credential.issuer,
        ) is Some by {
            assert(creds2[j].credential == creds[j].credential);
        }
        lemma_first_unresolved_none(documents, creds2);
        assert forall|j: int| 0 <= j < i implies (resolve_doc(
            documents,
            #[trigger] creds2[j].credential.issuer,
        ) matches Some(doc) && credential_check(creds2[j], doc, holder) is None) by {
            assert(creds2[j] == creds[j]);
        }
        lemma_first_cred_error_skip(documents, creds2, holder, i);
        assert(creds2.subrange(i, creds2.len() as int)[0] == c2);
        let issuer_doc = resolve_doc(documents, c.credential.issuer)->Some_0;
        assert(credential_check(c, issuer_doc, holder) is None);
        assert(credential_check(c2, issuer_doc, holder) == Some(ErrorSpec::SignatureInvalid));
    }
}

/// Expiry: a presentation whose expiry instant is not after the check
/// instant fails verification with an expiry error whenever its signature is
/// otherwise valid.
pub proof fn lemma_expired_presentation_rejected(
    t: PresentationTokenSpec,
    documents: Seq<DidDocumentSpec>,
    now: u64,
)
    requires
        (resolve_doc(documents, t.presentation.holder) matches Some(doc) && presentation_sig_ok(
            t,
            doc,
        )),
        t.presentation.expires_at <= now,
    ensures
        verify_spec(t, documents, now) == Err::<ReportSpec, ErrorSpec>(ErrorSpec::ExpiredPresentation),
{
}

/// Binding enforcement: a credential whose subject is not the presenting
/// holder fails its check with a binding error even when its signature is
/// valid.
pub proof fn lemma_binding_mismatch_rejected(
    c: CredentialTokenSpec,
    issuer_doc: DidDocumentSpec,
    holder: Seq<char>,
)
    requires
        (method_key(issuer_doc.methods, c.fragment) matches Some(pk) && mac_matches(
            pk,
            credential_digest(c.credential),
            c.signature.mac,
        )),
        c.credential.subject_id != holder,
    ensures
        credential_check(c, issuer_doc, holder) == Some(ErrorSpec::HolderBindingMismatch),
{
}

/// Batch-resolution completeness: with the presentation layer valid, an
/// unresolvable issuer among the credentials fails the whole verification
/// with a resolution error naming the first such issuer; no credential count
/// is reported.
pub proof fn lemma_unresolvable_issuer_rejected(
    t: PresentationTokenSpec,
    documents: Seq<DidDocumentSpec>,
    now: u64,
    i: int,
)
    requires
        (resolve_doc(documents, t.presentation.holder) matches Some(doc) && presentation_sig_ok(
            t,
            doc,
        )),
        now < t.presentation.expires_at,
        0 <= i < t.presentation.credentials.len(),
        resolve_doc(documents, t.presentation.credentials[i].credential.issuer) is None,
        forall|j: int| 0 <= j < i ==> resolve_doc(
            documents,
            #[trigger] t.presentation.credentials[j].credential.issuer,
        ) is Some,
    ensures
        verify_spec(t, documents, now) == Err::<ReportSpec, ErrorSpec>(
            ErrorSpec::Resolution(t.presentation.credentials[i].credential.issuer),
        ),
{
    lemma_first_unresolved_at(documents, t.presentation.credentials, i);
}

} // verus!
