//! Error taxonomy of the credential pipeline.
//!
//! Every operation fails closed: any error means "not valid", and the
//! verification-specific errors are terminal.

use vstd::prelude::*;

verus! {

/// Mathematical abstraction of [`IdentityError`].
pub ghost enum ErrorSpec {
    /// Missing or invalid process configuration.
    Config,
    /// Missing or corrupt persisted artifact (empty key fragment, missing
    /// current credential, unparseable record).
    Storage,
    /// Key generation or signing failure in the key vault.
    Vault,
    /// Ledger publish or funding failure.
    Ledger,
    /// A DID could not be resolved; carries the missing DID.
    Resolution(Seq<char>),
    /// A token's signature does not verify against the resolved key.
    SignatureInvalid,
    /// The presentation's validity window has passed.
    ExpiredPresentation,
    /// A credential's subject is not the presenting holder.
    HolderBindingMismatch,
    /// Internal arithmetic failure (timestamp overflow).
    Internal,
}

/// Why an operation of the pipeline failed.
#[derive(Debug)]
pub enum IdentityError {
    /// Missing or invalid process configuration.
    Config,
    /// Missing or corrupt persisted artifact.
    Storage,
    /// Key generation or signing failure in the key vault.
    Vault,
    /// Ledger publish or funding failure.
    Ledger,
    /// A DID could not be resolved; carries the missing DID.
    Resolution(String),
    /// A token's signature does not verify against the resolved key.
    SignatureInvalid,
    /// The presentation's validity window has passed.
    ExpiredPresentation,
    /// A credential's subject is not the presenting holder.
    HolderBindingMismatch,
    /// Internal arithmetic failure (timestamp overflow).
    Internal,
}

impl View for IdentityError {
    type V = ErrorSpec;

    open spec fn view(&self) -> ErrorSpec {
        match self {
            IdentityError::Config => ErrorSpec::Config,
            IdentityError::Storage => ErrorSpec::Storage,
            IdentityError::Vault => ErrorSpec::Vault,
            IdentityError::Ledger => ErrorSpec::Ledger,
            IdentityError::Resolution(d) => ErrorSpec::Resolution(d@),
            IdentityError::SignatureInvalid => ErrorSpec::SignatureInvalid,
            IdentityError::ExpiredPresentation => ErrorSpec::ExpiredPresentation,
            IdentityError::HolderBindingMismatch => ErrorSpec::HolderBindingMismatch,
            IdentityError::Internal => ErrorSpec::Internal,
        }
    }
}

/// View of an executable `Result` as a pair of mathematical values.
pub open spec fn res_view<T: View, E: View>(r: Result<T, E>) -> Result<T::V, E::V> {
    match r {
        Ok(t) => Ok(t.view()),
        Err(e) => Err(e.view()),
    }
}

impl IdentityError {
    /// Human-readable message for transport layers.
    pub fn describe(&self) -> String {
        match self {
            IdentityError::Config => String::from_str("missing or invalid configuration"),
            IdentityError::Storage => String::from_str("missing or corrupt persisted artifact"),
            IdentityError::Vault => String::from_str("key vault failure"),
            IdentityError::Ledger => String::from_str("ledger publish or funding failure"),
            IdentityError::Resolution(d) => String::from_str("DID not resolvable: ").concat(
                d.as_str(),
            ),
            IdentityError::SignatureInvalid => String::from_str("signature verification failed"),
            IdentityError::ExpiredPresentation => String::from_str("presentation has expired"),
            IdentityError::HolderBindingMismatch => String::from_str(
                "credential subject is not the presentation holder",
            ),
            IdentityError::Internal => String::from_str("internal arithmetic failure"),
        }
    }
}

} // verus!
