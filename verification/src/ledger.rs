//! The ledger that stores published DID documents and funds signing
//! addresses.
//!
//! Documents are immutable once published and at most one document exists per
//! DID; publishing is paid by a funded address.  The in-memory state stands
//! for the distributed ledger's: the pipeline's logic reads it only through
//! the operations below.

use vstd::prelude::*;

use crate::document::DidDocument;
use crate::document::DidDocumentSpec;
use crate::errors::ErrorSpec;
use crate::errors::IdentityError;

verus! {

/// Mathematical abstraction of the [`Ledger`].
pub ghost struct LedgerSpec {
    pub documents: Seq<DidDocumentSpec>,
    pub funded: Seq<u64>,
}

/// The DID document store with its faucet-funded addresses.
pub struct Ledger {
    documents: Vec<DidDocument>,
    funded: Vec<u64>,
}

impl View for Ledger {
    type V = LedgerSpec;

    closed spec fn view(&self) -> LedgerSpec {
        LedgerSpec { documents: self.documents.deep_view(), funded: self.funded@ }
    }
}

/// The first published document whose id is `did`, if any.
pub open spec fn resolve_doc(documents: Seq<DidDocumentSpec>, did: Seq<char>) -> Option<
    DidDocumentSpec,
>
    decreases documents.len(),
{
    if documents.len() == 0 {
        None
    } else if documents[0].id == did {
        Some(documents[0])
    } else {
        resolve_doc(documents.drop_first(), did)
    }
}

/// At most one published document per DID.
pub open spec fn unique_dids(documents: Seq<DidDocumentSpec>) -> bool {
    forall|i: int, j: int| 0 <= i < j < documents.len() ==> documents[i].id != documents[j].id
}

/// An unresolvable DID occurs in no published document.
pub proof fn lemma_unresolved_absent(documents: Seq<DidDocumentSpec>, did: Seq<char>)
    requires
        resolve_doc(documents, did) is None,
    ensures
        forall|i: int| 0 <= i < documents.len() ==> documents[i].id != did,
    decreases documents.len(),
{
    if documents.len() > 0 {
        lemma_unresolved_absent(documents.drop_first(), did);
        assert forall|i: int| 0 <= i < documents.len() implies documents[i].id != did by {
            if i > 0 {
                assert(documents.drop_first()[i - 1] == documents[i]);
            }
        }
    }
}

proof fn lemma_resolve_doc_skip(documents: Seq<DidDocumentSpec>, did: Seq<char>, k: int)
    requires
        0 <= k <= documents.len(),
        forall|j: int| 0 <= j < k ==> documents[j].id != did,
    ensures
        resolve_doc(documents, did) == resolve_doc(
            documents.subrange(k, documents.len() as int),
            did,
        ),
    decreases k,
{
    if k == 0 {
        assert(documents.subrange(0, documents.len() as int) =~= documents);
    } else {
        assert(documents.drop_first() =~= documents.subrange(1, documents.len() as int));
        lemma_resolve_doc_skip(documents.drop_first(), did, k - 1);
        assert(documents.drop_first().subrange(k - 1, documents.drop_first().len() as int)
            =~= documents.subrange(k, documents.len() as int));
    }
}

/// Resolving in a ledger with one more document at the end is unchanged for
/// every DID that was already resolvable, and newly resolves the pushed
/// document's DID if it was not.
pub proof fn lemma_resolve_doc_push(
    documents: Seq<DidDocumentSpec>,
    doc: DidDocumentSpec,
    did: Seq<char>,
)
    ensures
        resolve_doc(documents, did) matches Some(d) ==> resolve_doc(
            documents.push(doc),
            did,
        ) == Some(d),
        resolve_doc(documents, did) is None && doc.id == did ==> resolve_doc(
            documents.push(doc),
            did,
        ) == Some(doc),
        resolve_doc(documents, did) is None && doc.id != did ==> resolve_doc(
            documents.push(doc),
            did,
        ) is None,
    decreases documents.len(),
{
    if documents.len() == 0 {
        assert(documents.push(doc).drop_first() =~= Seq::<DidDocumentSpec>::empty());
    } else {
        assert(documents.push(doc).drop_first() =~= documents.drop_first().push(doc));
        lemma_resolve_doc_push(documents.drop_first(), doc, did);
    }
}

impl Ledger {
    /// A ledger holding no documents and no funded addresses.
    pub fn new() -> (r: Ledger)
        ensures
            r@.documents == Seq::<DidDocumentSpec>::empty(),
            r@.funded == Seq::<u64>::empty(),
    {
        let r = Ledger { documents: Vec::new(), funded: Vec::new() };
        proof {
            assert(r@.documents =~= Seq::<DidDocumentSpec>::empty());
        }
        r
    }

    /// Faucet call: marks `address` as funded for ledger writes.
    pub fn request_funds(&mut self, address: u64)
        ensures
            final(self)@.documents == old(self)@.documents,
            final(self)@.funded == old(self)@.funded.push(address),
    {
        self.funded.push(address);
        proof {
            assert(self@.documents =~= old(self)@.documents);
        }
    }

    /// Whether `address` can pay for a ledger write.
    pub fn is_funded(&self, address: u64) -> (r: bool)
        ensures
            r == self@.funded.contains(address),
    {
        let n: usize = self.funded.len();
        let mut i: usize = 0;
        while i < n
            invariant
                n == self.funded.len(),
                i <= n,
                forall|j: int| 0 <= j < i ==> self@.funded[j] != address,
            decreases n - i,
        {
            if self.funded[i] == address {
                return true;
            }
            i = i + 1;
        }
        false
    }

    /// Publishes a DID document, paid by `payer`.  The write is rejected if
    /// the DID is already taken or the payer is not funded; a rejected write
    /// leaves the ledger unchanged.
    pub fn publish(&mut self, document: DidDocument, payer: u64) -> (r: Result<
        (),
        IdentityError,
    >)
        ensures
            final(self)@.funded == old(self)@.funded,
            match r {
                Ok(_) => resolve_doc(old(self)@.documents, document@.id) is None && old(
                    self,
                )@.funded.contains(payer) && final(self)@.documents == old(
                    self,
                )@.documents.push(document@),
                Err(e) => (resolve_doc(old(self)@.documents, document@.id) is Some || !old(
                    self,
                )@.funded.contains(payer)) && e@ == ErrorSpec::Ledger && final(self)@ == old(
                    self,
                )@,
            },
    {
        if !self.is_funded(payer) {
            return Err(IdentityError::Ledger);
        }
        let taken = self.lookup(&document.id);
        if taken.is_some() {
            return Err(IdentityError::Ledger);
        }
        let ghost pushed = document@;
        self.documents.push(document);
        proof {
            assert(self@.documents =~= old(self)@.documents.push(pushed));
        }
        Ok(())
    }

    /// Read-through resolution: the document published for `did`, or a
    /// resolution failure naming the missing DID.
    pub fn lookup(&self, did: &String) -> (r: Option<DidDocument>)
        ensures
            match r {
                Some(doc) => resolve_doc(self@.documents, did@) == Some(doc@),
                None => resolve_doc(self@.documents, did@) is None,
            },
    {
        let n: usize = self.documents.len();
        let mut i: usize = 0;
        while i < n
            invariant
                n == self.documents.len(),
                i <= n,
                forall|j: int| 0 <= j < i ==> self@.documents[j].id != did@,
            decreases n - i,
        {
            if self.documents[i].id == *did {
                proof {
                    lemma_resolve_doc_skip(self@.documents, did@, i as int);
                    assert(self@.documents.subrange(i as int, n as int)[0] == self@.documents[
                        i as int
                    ]);
                }
                return Some(self.documents[i].clone());
            }
            i = i + 1;
        }
        proof {
            lemma_resolve_doc_skip(self@.documents, did@, n as int);
            assert(self@.documents.subrange(n as int, n as int) =~= Seq::<
                DidDocumentSpec,
            >::empty());
        }
        None
    }
}

} // verus!
