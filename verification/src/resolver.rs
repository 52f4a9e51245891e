//! Batched DID resolution.
//!
//! A verifier needs the DID documents of every issuer in a presentation;
//! partial success is useless to it, so a batch either returns a document for
//! every requested DID or fails naming the first missing one.

use vstd::prelude::*;

use crate::document::DidDocument;
use crate::errors::ErrorSpec;
use crate::errors::IdentityError;
use crate::ledger::Ledger;
use crate::ledger::resolve_doc;

verus! {

/// Resolves a single DID, failing with a resolution error naming it.
pub fn resolve(ledger: &Ledger, did: &String) -> (r: Result<DidDocument, IdentityError>)
    ensures
        match r {
            Ok(doc) => resolve_doc(ledger@.documents, did@) == Some(doc@),
            Err(e) => resolve_doc(ledger@.documents, did@) is None && e@ == ErrorSpec::Resolution(
                did@,
            ),
        },
{
    match ledger.lookup(did) {
        Some(doc) => Ok(doc),
        None => Err(IdentityError::Resolution(did.clone())),
    }
}

/// Resolves every DID of `dids`, in order.  Either every DID resolves and the
/// documents come back aligned with the request, or the whole batch fails
/// naming the first DID that does not resolve.
pub fn resolve_many(ledger: &Ledger, dids: &Vec<String>) -> (r: Result<
    Vec<DidDocument>,
    IdentityError,
>)
    ensures
        match r {
            Ok(docs) => docs@.len() == dids@.len() && forall|j: int|
                0 <= j < dids@.len() ==> resolve_doc(ledger@.documents, dids.deep_view()[j])
                    == Some(docs.deep_view()[j]),
            Err(e) => exists|i: int|
                0 <= i < dids@.len() && resolve_doc(ledger@.documents, dids.deep_view()[i]) is None
                    && e@ == ErrorSpec::Resolution(dids.deep_view()[i]) && (forall|j: int|
                    0 <= j < i ==> resolve_doc(ledger@.documents, dids.deep_view()[j]) is Some),
        },
{
    let n: usize = dids.len();
    let mut docs: Vec<DidDocument> = Vec::new();
    let mut i: usize = 0;
    while i < n
        invariant
            n == dids@.len(),
            i <= n,
            docs@.len() == i,
            forall|j: int| 0 <= j < i ==> resolve_doc(ledger@.documents, dids.deep_view()[j])
                == Some(docs.deep_view()[j]),
        decreases n - i,
    {
        match ledger.lookup(&dids[i]) {
            Some(doc) => {
                docs.push(doc);
                proof {
                    assert(dids@[i as int]@ == dids.deep_view()[i as int]);
                }
            },
            None => {
                proof {
                    assert(dids@[i as int]@ == dids.deep_view()[i as int]);
                }
                return Err(IdentityError::Resolution(dids[i].clone()));
            },
        }
        i = i + 1;
    }
    Ok(docs)
}

} // verus!
