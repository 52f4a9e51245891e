use identity_backend::credential::Claim;
use identity_backend::credential::issue;
use identity_backend::errors::IdentityError;
use identity_backend::identity::ensure_identity;
use identity_backend::identity::load_identity;
use identity_backend::presentation::present;
use identity_backend::verify::verify_presentation;
use identity_backend::workflow::World;
use identity_backend::workflow::create_driver_did;
use identity_backend::workflow::create_driver_vp;
use identity_backend::workflow::issue_driver_vc;
use identity_backend::workflow::verify_driver_vp;

fn s(x: &str) -> String {
    x.to_string()
}

fn demo_claims() -> Vec<Claim> {
    vec![
        Claim { key: s("name"), value: s("Joe Bloggs") },
        Claim { key: s("licenseNumber"), value: s("UK-TRK-2024-001") },
        Claim { key: s("vehicleClass"), value: s("HGV") },
        Claim { key: s("country"), value: s("GB") },
    ]
}

fn demo_world() -> World {
    let mut w = World::new(11, 22);
    let did = create_driver_did(&mut w, &s("did:example:driver1"), &s("driver-key")).unwrap();
    assert_eq!(did, s("did:example:driver1"));
    let vc = issue_driver_vc(
        &mut w,
        &s("did:example:issuer1"),
        &s("issuer-key"),
        demo_claims(),
        &s("DriverIdentityCredential"),
    )
    .unwrap();
    assert_eq!(vc.credential.issuer, s("did:example:issuer1"));
    assert_eq!(vc.credential.subject_id, s("did:example:driver1"));
    w
}

#[test]
fn concrete_scenario_round_trip() {
    let mut w = demo_world();
    let vp = create_driver_vp(&mut w, 1_000).unwrap();
    assert_eq!(vp.presentation.holder, s("did:example:driver1"));
    assert_eq!(vp.presentation.credentials.len(), 1);
    assert_eq!(vp.presentation.expires_at, 1_600);
    let report = verify_driver_vp(&w, 1_000).unwrap();
    assert!(report.valid);
    assert_eq!(report.holder, s("did:example:driver1"));
    assert_eq!(report.credential_count, 1);
}

#[test]
fn create_did_is_idempotent() {
    let mut w = World::new(11, 22);
    let did1 = create_driver_did(&mut w, &s("did:example:driver1"), &s("driver-key")).unwrap();
    let did2 = create_driver_did(&mut w, &s("did:example:driver1"), &s("driver-key")).unwrap();
    assert_eq!(did1, did2);
    // The second call also ignores a different requested DID: the persisted
    // identity wins.
    let did3 = create_driver_did(&mut w, &s("did:example:other"), &s("driver-key")).unwrap();
    assert_eq!(did3, s("did:example:driver1"));
}

#[test]
fn issue_overwrites_current_credential() {
    let mut w = demo_world();
    let vc2 = issue_driver_vc(
        &mut w,
        &s("did:example:issuer1"),
        &s("issuer-key"),
        vec![Claim { key: s("name"), value: s("Joe Bloggs") }],
        &s("DriverIdentityCredential"),
    )
    .unwrap();
    let current = w.artifacts.credential.as_ref().unwrap();
    assert_eq!(current.credential.claims.len(), vc2.credential.claims.len());
    assert_eq!(current.signature.mac, vc2.signature.mac);
}

#[test]
fn expired_presentation_is_rejected() {
    let mut w = demo_world();
    let _vp = create_driver_vp(&mut w, 1_000).unwrap();
    match verify_driver_vp(&w, 1_600) {
        Err(IdentityError::ExpiredPresentation) => {},
        _ => panic!("expected an expiry error at the expiry instant"),
    }
    match verify_driver_vp(&w, 2_000) {
        Err(IdentityError::ExpiredPresentation) => {},
        _ => panic!("expected an expiry error after the window"),
    }
    assert!(verify_driver_vp(&w, 1_599).is_ok());
}

#[test]
fn tampered_credential_signature_is_rejected() {
    let mut w = demo_world();
    let vp = create_driver_vp(&mut w, 1_000).unwrap();
    for k in 0..8 {
        let mut t = vp.clone();
        t.presentation.credentials[0].signature.mac ^= 0xFFu64 << (8 * k);
        match verify_presentation(&t, &w.ledger, 1_000) {
            Err(IdentityError::SignatureInvalid) => {},
            Err(_) => panic!("expected a signature error for byte {}", k),
            Ok(_) => panic!("tampered credential byte {} verified", k),
        }
    }
}

#[test]
fn tampered_presentation_signature_is_rejected() {
    let mut w = demo_world();
    let vp = create_driver_vp(&mut w, 1_000).unwrap();
    for k in 0..8 {
        let mut t = vp.clone();
        t.signature.mac ^= 0xFFu64 << (8 * k);
        match verify_presentation(&t, &w.ledger, 1_000) {
            Err(IdentityError::SignatureInvalid) => {},
            Err(_) => panic!("expected a signature error for byte {}", k),
            Ok(_) => panic!("tampered presentation byte {} verified", k),
        }
    }
}

#[test]
fn subject_holder_mismatch_is_rejected() {
    let mut w = World::new(11, 22);
    create_driver_did(&mut w, &s("did:example:driver1"), &s("driver-key")).unwrap();
    let issuer = ensure_identity(
        &mut w.issuer,
        &mut w.ledger,
        &s("did:example:issuer1"),
        &s("issuer-key"),
    )
    .unwrap();
    // A validly signed credential about somebody other than the holder.
    let vc = issue(
        &issuer,
        &w.issuer.vault,
        &s("did:example:someone-else"),
        demo_claims(),
        &s("DriverIdentityCredential"),
    )
    .unwrap();
    let driver = load_identity(w.driver.record.as_ref().unwrap()).unwrap();
    let vp = present(&driver, &w.driver.vault, &Some(vc), 1_000).unwrap();
    match verify_presentation(&vp, &w.ledger, 1_000) {
        Err(IdentityError::HolderBindingMismatch) => {},
        _ => panic!("expected a holder-binding error"),
    }
}

#[test]
fn verify_without_presentation_fails_with_storage_error() {
    let w = World::new(11, 22);
    match verify_driver_vp(&w, 1_000) {
        Err(IdentityError::Storage) => {},
        _ => panic!("expected a storage error"),
    }
}

#[test]
fn issue_without_driver_fails_with_storage_error() {
    let mut w = World::new(11, 22);
    match issue_driver_vc(
        &mut w,
        &s("did:example:issuer1"),
        &s("issuer-key"),
        demo_claims(),
        &s("DriverIdentityCredential"),
    ) {
        Err(IdentityError::Storage) => {},
        _ => panic!("expected a storage error"),
    }
}

#[test]
fn present_without_credential_fails_with_storage_error() {
    let mut w = World::new(11, 22);
    create_driver_did(&mut w, &s("did:example:driver1"), &s("driver-key")).unwrap();
    match create_driver_vp(&mut w, 1_000) {
        Err(IdentityError::Storage) => {},
        _ => panic!("expected a storage error"),
    }
}

#[test]
fn present_at_timestamp_overflow_fails_with_internal_error() {
    let mut w = demo_world();
    match create_driver_vp(&mut w, u64::MAX - 100) {
        Err(IdentityError::Internal) => {},
        _ => panic!("expected an internal arithmetic error"),
    }
}

#[test]
fn padded_fragment_stays_usable_across_reloads() {
    let mut w = World::new(11, 22);
    let did1 = create_driver_did(&mut w, &s("did:example:driver1"), &s(" driver-key \n")).unwrap();
    let did2 = create_driver_did(&mut w, &s("did:example:driver1"), &s(" driver-key \n")).unwrap();
    assert_eq!(did1, did2);
    // The persisted fragment is the normalized one, so the reloaded identity
    // can still sign: issuance and presentation work after the reload.
    let vc = issue_driver_vc(
        &mut w,
        &s("did:example:issuer1"),
        &s("issuer-key"),
        demo_claims(),
        &s("DriverIdentityCredential"),
    )
    .unwrap();
    assert_eq!(vc.fragment, s("issuer-key"));
    let vp = create_driver_vp(&mut w, 1_000).unwrap();
    assert_eq!(vp.fragment, s("driver-key"));
    let report = verify_driver_vp(&w, 1_000).unwrap();
    assert!(report.valid);
    assert_eq!(report.credential_count, 1);
}

#[test]
fn blank_fragment_is_rejected_without_publishing() {
    let mut w = World::new(11, 22);
    match create_driver_did(&mut w, &s("did:example:driver1"), &s("  \n")) {
        Err(IdentityError::Storage) => {},
        _ => panic!("expected a storage error for a blank fragment"),
    }
    // The failed call persisted nothing, so a good fragment still succeeds
    // under the same DID.
    let did = create_driver_did(&mut w, &s("did:example:driver1"), &s("driver-key")).unwrap();
    assert_eq!(did, s("did:example:driver1"));
}
