//! The four operations of the pipeline over the whole persisted state:
//! create the driver's DID, issue the driver's credential, assemble the
//! driver's presentation, verify it.
//!
//! `World` gathers everything the process persists: the two actors' records
//! and vaults, the ledger, and the current credential/presentation artifacts
//! (overwrite semantics, no history).

use vstd::prelude::*;

use crate::credential::Claim;
use crate::credential::ClaimSpec;
use crate::credential::CredentialToken;
use crate::credential::CredentialTokenSpec;
use crate::credential::issue;
use crate::credential::issue_spec;
use crate::errors::ErrorSpec;
use crate::errors::IdentityError;
use crate::errors::res_view;
use crate::identity::ActorState;
use crate::identity::ActorStateSpec;
use crate::identity::ensure_identity;
use crate::identity::ensure_identity_spec;
use crate::identity::load_identity;
use crate::identity::load_identity_spec;
use crate::ledger::Ledger;
use crate::ledger::LedgerSpec;
use crate::presentation::PresentationToken;
use crate::presentation::PresentationTokenSpec;
use crate::presentation::present;
use crate::presentation::present_spec;
use crate::verify::VerifyReport;
use crate::verify::verify_spec;
use crate::verify::verify_presentation;

verus! {

/// Mathematical abstraction of the [`ArtifactStore`].
pub ghost struct ArtifactStoreSpec {
    pub credential: Option<CredentialTokenSpec>,
    pub presentation: Option<PresentationTokenSpec>,
}

/// The current credential and presentation tokens; each issuance or
/// assembly overwrites the previous one.
pub struct ArtifactStore {
    pub credential: Option<CredentialToken>,
    pub presentation: Option<PresentationToken>,
}

impl View for ArtifactStore {
    type V = ArtifactStoreSpec;

    open spec fn view(&self) -> ArtifactStoreSpec {
        ArtifactStoreSpec {
            credential: self.credential.deep_view(),
            presentation: self.presentation.deep_view(),
        }
    }
}

/// Mathematical abstraction of the [`World`].
pub ghost struct WorldSpec {
    pub driver: ActorStateSpec,
    pub issuer: ActorStateSpec,
    pub ledger: LedgerSpec,
    pub artifacts: ArtifactStoreSpec,
}

/// Everything the pipeline persists.
pub struct World {
    pub driver: ActorState,
    pub issuer: ActorState,
    pub ledger: Ledger,
    pub artifacts: ArtifactStore,
}

impl View for World {
    type V = WorldSpec;

    open spec fn view(&self) -> WorldSpec {
        WorldSpec {
            driver: self.driver@,
            issuer: self.issuer@,
            ledger: self.ledger@,
            artifacts: self.artifacts@,
        }
    }
}

impl World {
    /// A fresh process state: no identities, empty ledger, no artifacts.
    pub fn new(driver_vault_seed: u64, issuer_vault_seed: u64) -> (r: World)
        ensures
            r@.driver.record is None,
            r@.driver.vault.seed == driver_vault_seed,
            r@.driver.vault.entries == Seq::<crate::vault::KeyEntrySpec>::empty(),
            r@.issuer.record is None,
            r@.issuer.vault.seed == issuer_vault_seed,
            r@.issuer.vault.entries == Seq::<crate::vault::KeyEntrySpec>::empty(),
            r@.ledger.documents == Seq::<crate::document::DidDocumentSpec>::empty(),
            r@.ledger.funded == Seq::<u64>::empty(),
            r@.artifacts.credential is None,
            r@.artifacts.presentation is None,
    {
        World {
            driver: ActorState::new(driver_vault_seed),
            issuer: ActorState::new(issuer_vault_seed),
            ledger: Ledger::new(),
            artifacts: ArtifactStore { credential: None, presentation: None },
        }
    }
}

/// Create-or-load of the driver identity, returning its DID.
pub open spec fn create_did_spec(world: WorldSpec, did: Seq<char>, fragment: Seq<char>) -> (
    WorldSpec,
    Result<Seq<char>, ErrorSpec>,
) {
    let (driver2, ledger2, r) = ensure_identity_spec(world.driver, world.ledger, did, fragment);
    let world2 = WorldSpec {
        driver: driver2,
        issuer: world.issuer,
        ledger: ledger2,
        artifacts: world.artifacts,
    };
    match r {
        Ok(identity) => (world2, Ok(identity.document.id)),
        Err(e) => (world2, Err(e)),
    }
}

/// Issuance over the whole state: the driver (the subject) must already
/// exist; the issuer is created lazily if absent; the signed token becomes
/// the current credential.
pub open spec fn issue_vc_spec(
    world: WorldSpec,
    issuer_did: Seq<char>,
    issuer_fragment: Seq<char>,
    claims: Seq<ClaimSpec>,
    credential_type: Seq<char>,
) -> (WorldSpec, Result<CredentialTokenSpec, ErrorSpec>) {
    match world.driver.record {
        None => (world, Err(ErrorSpec::Storage)),
        Some(rec) => match load_identity_spec(rec) {
            Err(e) => (world, Err(e)),
            Ok(driver) => {
                let (issuer2, ledger2, r) = ensure_identity_spec(
                    world.issuer,
                    world.ledger,
                    issuer_did,
                    issuer_fragment,
                );
                let world2 = WorldSpec {
                    driver: world.driver,
                    issuer: issuer2,
                    ledger: ledger2,
                    artifacts: world.artifacts,
                };
                match r {
                    Err(e) => (world2, Err(e)),
                    Ok(issuer) => match issue_spec(
                        issuer,
                        issuer2.vault,
                        driver.document.id,
                        claims,
                        credential_type,
                    ) {
                        Err(e) => (world2, Err(e)),
                        Ok(tok) => (
                            WorldSpec {
                                driver: world.driver,
                                issuer: issuer2,
                                ledger: ledger2,
                                artifacts: ArtifactStoreSpec {
                                    credential: Some(tok),
                                    presentation: world.artifacts.presentation,
                                },
                            },
                            Ok(tok),
                        ),
                    },
                }
            },
        },
    }
}

/// Presentation assembly over the whole state: the driver (the holder) must
/// already exist; the current credential is wrapped and signed; the signed
/// token becomes the current presentation.
pub open spec fn create_vp_spec(world: WorldSpec, now: u64) -> (
    WorldSpec,
    Result<PresentationTokenSpec, ErrorSpec>,
) {
    match world.driver.record {
        None => (world, Err(ErrorSpec::Storage)),
        Some(rec) => match load_identity_spec(rec) {
            Err(e) => (world, Err(e)),
            Ok(driver) => match present_spec(
                driver,
                world.driver.vault,
                world.artifacts.credential,
                now,
            ) {
                Err(e) => (world, Err(e)),
                Ok(tok) => (
                    WorldSpec {
                        driver: world.driver,
                        issuer: world.issuer,
                        ledger: world.ledger,
                        artifacts: ArtifactStoreSpec {
                            credential: world.artifacts.credential,
                            presentation: Some(tok),
                        },
                    },
                    Ok(tok),
                ),
            },
        },
    }
}

/// Verification over the whole state: the current presentation token is
/// verified against the published documents at instant `now`.
pub open spec fn verify_vp_spec(world: WorldSpec, now: u64) -> Result<
    crate::verify::ReportSpec,
    ErrorSpec,
> {
    match world.artifacts.presentation {
        None => Err(ErrorSpec::Storage),
        Some(tok) => verify_spec(tok, world.ledger.documents, now),
    }
}

/// Creates the driver identity if absent, else loads it; returns the DID.
pub fn create_driver_did(world: &mut World, did: &String, fragment: &String) -> (r: Result<
    String,
    IdentityError,
>)
    ensures
        ({
            let (w2, r2) = create_did_spec(old(world)@, did@, fragment@);
            final(world)@ == w2 && res_view(r) == r2
        }),
{
    match ensure_identity(&mut world.driver, &mut world.ledger, did, fragment) {
        Ok(identity) => Ok(identity.document.id),
        Err(e) => Err(e),
    }
}

/// Issues the driver's credential: the driver must have been created first;
/// the issuer identity is created on first use.  The token becomes the
/// current credential and is returned.
pub fn issue_driver_vc(
    world: &mut World,
    issuer_did: &String,
    issuer_fragment: &String,
    claims: Vec<Claim>,
    credential_type: &String,
) -> (r: Result<CredentialToken, IdentityError>)
    ensures
        ({
            let (w2, r2) = issue_vc_spec(
                old(world)@,
                issuer_did@,
                issuer_fragment@,
                claims.deep_view(),
                credential_type@,
            );
            final(world)@ == w2 && res_view(r) == r2
        }),
{
    let driver = match &world.driver.record {
        None => {
            return Err(IdentityError::Storage);
        },
        Some(rec) => match load_identity(rec) {
            Err(e) => {
                return Err(e);
            },
            Ok(driver) => driver,
        },
    };
    let issuer = match ensure_identity(
        &mut world.issuer,
        &mut world.ledger,
        issuer_did,
        issuer_fragment,
    ) {
        Err(e) => {
            return Err(e);
        },
        Ok(issuer) => issuer,
    };
    let token = match issue(
        &issuer,
        &world.issuer.vault,
        &driver.document.id,
        claims,
        credential_type,
    ) {
        Err(e) => {
            return Err(e);
        },
        Ok(token) => token,
    };
    world.artifacts.credential = Some(token.clone());
    Ok(token)
}

/// Assembles and signs the driver's presentation from the current
/// credential; the token becomes the current presentation and is returned.
pub fn create_driver_vp(world: &mut World, now: u64) -> (r: Result<
    PresentationToken,
    IdentityError,
>)
    ensures
        ({
            let (w2, r2) = create_vp_spec(old(world)@, now);
            final(world)@ == w2 && res_view(r) == r2
        }),
{
    let driver = match &world.driver.record {
        None => {
            return Err(IdentityError::Storage);
        },
        Some(rec) => match load_identity(rec) {
            Err(e) => {
                return Err(e);
            },
            Ok(driver) => driver,
        },
    };
    let token = match present(&driver, &world.driver.vault, &world.artifacts.credential, now) {
        Err(e) => {
            return Err(e);
        },
        Ok(token) => token,
    };
    world.artifacts.presentation = Some(token.clone());
    Ok(token)
}

/// Verifies the current presentation at instant `now`.
pub fn verify_driver_vp(world: &World, now: u64) -> (r: Result<VerifyReport, IdentityError>)
    ensures
        res_view(r) == verify_vp_spec(world@, now),
{
    match &world.artifacts.presentation {
        None => Err(IdentityError::Storage),
        Some(tok) => verify_presentation(tok, &world.ledger, now),
    }
}

} // verus!
