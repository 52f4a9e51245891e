//! DID documents: the published record of an actor's verification methods.

use vstd::prelude::*;

verus! {

/// Mathematical abstraction of a verification method.
pub ghost struct MethodSpec {
    pub fragment: Seq<char>,
    pub public_key: u64,
}

/// A named public verification key inside a DID document.
pub struct VerificationMethod {
    pub fragment: String,
    pub public_key: u64,
}

impl View for VerificationMethod {
    type V = MethodSpec;

    open spec fn view(&self) -> MethodSpec {
        MethodSpec { fragment: self.fragment@, public_key: self.public_key }
    }
}

impl DeepView for VerificationMethod {
    type V = MethodSpec;

    open spec fn deep_view(&self) -> MethodSpec {
        self.view()
    }
}

impl Clone for VerificationMethod {
    fn clone(&self) -> (r: Self)
        ensures
            r@ == self@,
    {
        VerificationMethod { fragment: self.fragment.clone(), public_key: self.public_key }
    }
}

/// Mathematical abstraction of a [`DidDocument`].
pub ghost struct DidDocumentSpec {
    pub id: Seq<char>,
    pub methods: Seq<MethodSpec>,
}

/// The published record of an actor: its DID and its verification methods.
pub struct DidDocument {
    pub id: String,
    pub methods: Vec<VerificationMethod>,
}

impl View for DidDocument {
    type V = DidDocumentSpec;

    open spec fn view(&self) -> DidDocumentSpec {
        DidDocumentSpec { id: self.id@, methods: self.methods.deep_view() }
    }
}

impl DeepView for DidDocument {
    type V = DidDocumentSpec;

    open spec fn deep_view(&self) -> DidDocumentSpec {
        self.view()
    }
}

impl Clone for DidDocument {
    fn clone(&self) -> (r: Self)
        ensures
            r@ == self@,
    {
        let mut methods: Vec<VerificationMethod> = Vec::new();
        let n: usize = self.methods.len();
        let mut i: usize = 0;
        while i < n
            invariant
                n == self.methods.len(),
                i <= n,
                methods@.len() == i,
                forall|j: int| 0 <= j < i ==> (#[trigger] methods@[j])@ == self.methods@[j]@,
            decreases n - i,
        {
            methods.push(self.methods[i].clone());
            i = i + 1;
        }
        proof {
            let a = methods.deep_view();
            let b = self.methods.deep_view();
            assert forall|j: int| 0 <= j < n implies a[j] == b[j] by {
                assert(a[j] == methods@[j]@);
                assert(b[j] == self.methods@[j]@);
            }
            assert(a =~= b);
        }
        DidDocument { id: self.id.clone(), methods }
    }
}

/// The key of the first method named `frag`, if any.
pub open spec fn method_key(methods: Seq<MethodSpec>, frag: Seq<char>) -> Option<u64>
    decreases methods.len(),
{
    if methods.len() == 0 {
        None
    } else if methods[0].fragment == frag {
        Some(methods[0].public_key)
    } else {
        method_key(methods.drop_first(), frag)
    }
}

proof fn lemma_method_key_skip(methods: Seq<MethodSpec>, frag: Seq<char>, k: int)
    requires
        0 <= k <= methods.len(),
        forall|j: int| 0 <= j < k ==> methods[j].fragment != frag,
    ensures
        method_key(methods, frag) == method_key(
            methods.subrange(k, methods.len() as int),
            frag,
        ),
    decreases k,
{
    if k == 0 {
        assert(methods.subrange(0, methods.len() as int) =~= methods);
    } else {
        assert(methods.drop_first() =~= methods.subrange(1, methods.len() as int));
        lemma_method_key_skip(methods.drop_first(), frag, k - 1);
        assert(methods.drop_first().subrange(k - 1, methods.drop_first().len() as int)
            =~= methods.subrange(k, methods.len() as int));
    }
}

impl DidDocument {
    /// Looks up the verification key published under `fragment`.
    pub fn find_method_key(&self, fragment: &String) -> (r: Option<u64>)
        ensures
            r == method_key(self@.methods, fragment@),
    {
        let n: usize = self.methods.len();
        let mut i: usize = 0;
        while i < n
            invariant
                n == self.methods.len(),
                i <= n,
                forall|j: int| 0 <= j < i ==> self@.methods[j].fragment != fragment@,
            decreases n - i,
        {
            if self.methods[i].fragment == *fragment {
                proof {
                    lemma_method_key_skip(self@.methods, fragment@, i as int);
                    assert(self@.methods.subrange(i as int, n as int)[0] == self@.methods[
                        i as int
                    ]);
                }
                return Some(self.methods[i].public_key);
            }
            i = i + 1;
        }
        proof {
            lemma_method_key_skip(self@.methods, fragment@, n as int);
            assert(self@.methods.subrange(n as int, n as int) =~= Seq::<MethodSpec>::empty());
        }
        None
    }
}

} // verus!
