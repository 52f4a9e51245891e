//! Actor identity lifecycle: create-or-load with at-most-one publication.
//!
//! An actor's identity is its DID document plus the fragment naming its
//! signing key.  If a persisted record exists it is loaded and validated with
//! no vault or ledger interaction; otherwise the fragment is normalized and
//! checked, a key pair is generated, the fresh signing address is funded, the
//! document is published, and the record is persisted before the identity is
//! returned — so loading a record always returns exactly what creation
//! persisted.

use vstd::prelude::*;

use crate::document::DidDocument;
use crate::document::DidDocumentSpec;
use crate::document::MethodSpec;
use crate::document::VerificationMethod;
use crate::errors::ErrorSpec;
use crate::errors::IdentityError;
use crate::errors::res_view;
use crate::ledger::Ledger;
use crate::ledger::LedgerSpec;
use crate::ledger::resolve_doc;
use crate::sign::public_of;
use crate::text::trim_spec;
use crate::text::trim_str;
use crate::vault::KeyEntrySpec;
use crate::vault::KeyVault;
use crate::vault::KeyVaultSpec;
use crate::vault::key_material;

verus! {

/// Mathematical abstraction of a persisted identity record.
pub ghost struct RecordSpec {
    pub document: DidDocumentSpec,
    pub fragment: Seq<char>,
}

/// The persisted identity artifact: a DID document and the raw contents of
/// the fragment file (possibly with surrounding whitespace).
pub struct IdentityRecord {
    pub document: DidDocument,
    pub fragment: String,
}

impl View for IdentityRecord {
    type V = RecordSpec;

    open spec fn view(&self) -> RecordSpec {
        RecordSpec { document: self.document@, fragment: self.fragment@ }
    }
}

/// Mathematical abstraction of an [`ActorIdentity`].
pub ghost struct ActorIdentitySpec {
    pub document: DidDocumentSpec,
    pub fragment: Seq<char>,
}

/// A loaded actor identity: its DID document and the validated fragment
/// naming its signing key.
pub struct ActorIdentity {
    pub document: DidDocument,
    pub fragment: String,
}

impl View for ActorIdentity {
    type V = ActorIdentitySpec;

    open spec fn view(&self) -> ActorIdentitySpec {
        ActorIdentitySpec { document: self.document@, fragment: self.fragment@ }
    }
}

impl Clone for ActorIdentity {
    fn clone(&self) -> (r: Self)
        ensures
            r@ == self@,
    {
        ActorIdentity { document: self.document.clone(), fragment: self.fragment.clone() }
    }
}

/// Mathematical abstraction of an [`ActorState`].
pub ghost struct ActorStateSpec {
    pub record: Option<RecordSpec>,
    pub vault: KeyVaultSpec,
}

/// Everything persisted for one actor: its identity record, if any, and its
/// key vault.
pub struct ActorState {
    pub record: Option<IdentityRecord>,
    pub vault: KeyVault,
}

impl View for ActorState {
    type V = ActorStateSpec;

    open spec fn view(&self) -> ActorStateSpec {
        ActorStateSpec {
            record: match self.record {
                Some(r) => Some(r@),
                None => None,
            },
            vault: self.vault@,
        }
    }
}

impl ActorState {
    /// A fresh actor with no persisted identity and a vault opened from
    /// `vault_seed`.
    pub fn new(vault_seed: u64) -> (r: ActorState)
        ensures
            r@.record is None,
            r@.vault == (KeyVaultSpec { seed: vault_seed, entries: Seq::empty() }),
    {
        ActorState { record: None, vault: KeyVault::new(vault_seed) }
    }
}

/// Loading a persisted record: the fragment file is trimmed and must be
/// non-empty, else the record counts as corrupt.
pub open spec fn load_identity_spec(rec: RecordSpec) -> Result<ActorIdentitySpec, ErrorSpec> {
    let frag = trim_spec(rec.fragment);
    if frag.len() == 0 {
        Err(ErrorSpec::Storage)
    } else {
        Ok(ActorIdentitySpec { document: rec.document, fragment: frag })
    }
}

/// The document a new identity publishes: one verification method under the
/// requested fragment.
pub open spec fn created_document(did: Seq<char>, fragment: Seq<char>, public_key: u64)
    -> DidDocumentSpec {
    DidDocumentSpec { id: did, methods: seq![MethodSpec { fragment, public_key }] }
}

/// Creating an identity: normalize the key name, generate a key, fund its
/// address, publish the document, persist the record.  The fragment is
/// trimmed first and used in that form throughout, so a later load returns
/// exactly what creation persisted; a fragment that trims to nothing is
/// corrupt-artifact material and is rejected before any key is generated,
/// funded or published.  The ledger rejects an already-taken DID; the
/// generated key then stays in the vault (an orphan) and nothing is
/// persisted.
pub open spec fn create_identity_spec(
    actor: ActorStateSpec,
    ledger: LedgerSpec,
    did: Seq<char>,
    fragment: Seq<char>,
) -> (ActorStateSpec, LedgerSpec, Result<ActorIdentitySpec, ErrorSpec>) {
    let frag = trim_spec(fragment);
    if frag.len() == 0 {
        (actor, ledger, Err(ErrorSpec::Storage))
    } else {
        let secret = key_material(actor.vault.seed, actor.vault.entries.len() as u64);
        let public_key = public_of(secret);
        let vault1 = KeyVaultSpec {
            seed: actor.vault.seed,
            entries: actor.vault.entries.push(KeyEntrySpec { fragment: frag, secret }),
        };
        let doc = created_document(did, frag, public_key);
        let funded1 = ledger.funded.push(public_key);
        if resolve_doc(ledger.documents, did) is None {
            (
                ActorStateSpec {
                    record: Some(RecordSpec { document: doc, fragment: frag }),
                    vault: vault1,
                },
                LedgerSpec { documents: ledger.documents.push(doc), funded: funded1 },
                Ok(ActorIdentitySpec { document: doc, fragment: frag }),
            )
        } else {
            (
                ActorStateSpec { record: actor.record, vault: vault1 },
                LedgerSpec { documents: ledger.documents, funded: funded1 },
                Err(ErrorSpec::Ledger),
            )
        }
    }
}

/// Create-or-load: an existing record is loaded with no vault or ledger
/// interaction; a missing one triggers creation.
pub open spec fn ensure_identity_spec(
    actor: ActorStateSpec,
    ledger: LedgerSpec,
    did: Seq<char>,
    fragment: Seq<char>,
) -> (ActorStateSpec, LedgerSpec, Result<ActorIdentitySpec, ErrorSpec>) {
    match actor.record {
        Some(rec) => (actor, ledger, load_identity_spec(rec)),
        None => create_identity_spec(actor, ledger, did, fragment),
    }
}

/// Loads and validates a persisted identity record.
pub fn load_identity(rec: &IdentityRecord) -> (r: Result<ActorIdentity, IdentityError>)
    ensures
        res_view(r) == load_identity_spec(rec@),
{
    let frag = trim_str(rec.fragment.as_str());
    if frag.unicode_len() == 0 {
        Err(IdentityError::Storage)
    } else {
        Ok(ActorIdentity { document: rec.document.clone(), fragment: frag })
    }
}

/// Creates a new identity for `actor`: normalizes the key name, generates a
/// key pair, funds the signing address, publishes the DID document under
/// `did`, and persists the record with the normalized name.  A fragment that
/// trims to nothing is rejected before any side effect.
pub fn create_identity(
    actor: &mut ActorState,
    ledger: &mut Ledger,
    did: &String,
    fragment: &String,
) -> (r: Result<ActorIdentity, IdentityError>)
    ensures
        ({
            let (a2, l2, r2) = create_identity_spec(old(actor)@, old(ledger)@, did@, fragment@);
            final(actor)@ == a2 && final(ledger)@ == l2 && res_view(r) == r2
        }),
{
    let frag = trim_str(fragment.as_str());
    if frag.as_str().unicode_len() == 0 {
        return Err(IdentityError::Storage);
    }
    let public_key = actor.vault.generate_key(&frag);
    ledger.request_funds(public_key);
    let mut methods: Vec<VerificationMethod> = Vec::new();
    methods.push(VerificationMethod { fragment: frag.clone(), public_key });
    let document = DidDocument { id: did.clone(), methods };
    proof {
        assert(document@.methods =~= seq![
            MethodSpec { fragment: trim_spec(fragment@), public_key },
        ]);
    }
    match ledger.publish(document.clone(), public_key) {
        Err(e) => {
            proof {
                let f1 = old(ledger)@.funded.push(public_key);
                assert(f1[f1.len() - 1] == public_key);
                assert(f1.contains(public_key));
            }
            Err(e)
        },
        Ok(_) => {
            let identity = ActorIdentity { document: document.clone(), fragment: frag.clone() };
            actor.record = Some(IdentityRecord { document, fragment: frag });
            Ok(identity)
        },
    }
}

/// Create-or-load for one actor: idempotent once a record is persisted.
pub fn ensure_identity(
    actor: &mut ActorState,
    ledger: &mut Ledger,
    did: &String,
    fragment: &String,
) -> (r: Result<ActorIdentity, IdentityError>)
    ensures
        ({
            let (a2, l2, r2) = ensure_identity_spec(old(actor)@, old(ledger)@, did@, fragment@);
            final(actor)@ == a2 && final(ledger)@ == l2 && res_view(r) == r2
        }),
{
    match &actor.record {
        Some(rec) => load_identity(rec),
        None => create_identity(actor, ledger, did, fragment),
    }
}

} // verus!
