use identity_backend::config::load_config;
use identity_backend::credential::Claim;
use identity_backend::credential::issue;
use identity_backend::document::DidDocument;
use identity_backend::document::VerificationMethod;
use identity_backend::errors::IdentityError;
use identity_backend::identity::ActorIdentity;
use identity_backend::identity::ActorState;
use identity_backend::identity::IdentityRecord;
use identity_backend::identity::create_identity;
use identity_backend::identity::load_identity;
use identity_backend::ledger::Ledger;
use identity_backend::presentation::Presentation;
use identity_backend::presentation::PresentationToken;
use identity_backend::presentation::presentation_digest_exec;
use identity_backend::resolver::resolve;
use identity_backend::resolver::resolve_many;
use identity_backend::sign::check_signature;
use identity_backend::sign::digest_str;
use identity_backend::text::trim_str;
use identity_backend::vault::KeyVault;
use identity_backend::verify::verify_presentation;

fn s(x: &str) -> String {
    x.to_string()
}

fn actor(seed: u64, ledger: &mut Ledger, did: &str, frag: &str) -> (ActorState, ActorIdentity) {
    let mut state = ActorState::new(seed);
    let id = create_identity(&mut state, ledger, &s(did), &s(frag)).unwrap();
    (state, id)
}

#[test]
fn digest_has_expected_values() {
    assert_eq!(digest_str(""), 0xcbf2_9ce4_8422_2325);
    assert_eq!(digest_str("ab"), 0x99be_f5d4_0425_e244);
    assert_ne!(digest_str("ab"), digest_str("ba"));
}

#[test]
fn trim_strips_surrounding_whitespace() {
    assert_eq!(trim_str("  key-1 \n"), s("key-1"));
    assert_eq!(trim_str("key-1"), s("key-1"));
    assert_eq!(trim_str(" \t\r\n "), s(""));
    assert_eq!(trim_str(""), s(""));
    assert_eq!(trim_str("a b"), s("a b"));
}

#[test]
fn load_identity_trims_and_rejects_empty_fragment() {
    let mut ledger = Ledger::new();
    let (state, _) = actor(1, &mut ledger, "did:example:driver1", "driver-key");
    let doc = state.record.as_ref().unwrap().document.clone();
    let good = IdentityRecord { document: doc.clone(), fragment: s("  driver-key \n") };
    let loaded = load_identity(&good).unwrap();
    assert_eq!(loaded.fragment, s("driver-key"));
    let corrupt = IdentityRecord { document: doc, fragment: s(" \n\t") };
    match load_identity(&corrupt) {
        Err(IdentityError::Storage) => {},
        _ => panic!("expected a storage error for an empty fragment"),
    }
}

#[test]
fn vault_signs_only_known_fragments() {
    let mut vault = KeyVault::new(5);
    let pk = vault.generate_key(&s("key-1"));
    assert!(vault.has_fragment(&s("key-1")));
    assert!(!vault.has_fragment(&s("key-2")));
    let digest = digest_str("payload");
    let sig = vault.sign(&s("key-1"), digest).unwrap();
    assert!(check_signature(pk, digest, &sig));
    assert!(!check_signature(pk, digest_str("other payload"), &sig));
    let mut bad = sig;
    bad.mac ^= 1;
    assert!(!check_signature(pk, digest, &bad));
    match vault.sign(&s("key-2"), digest) {
        Err(IdentityError::Vault) => {},
        _ => panic!("expected a vault error for an unknown fragment"),
    }
}

#[test]
fn ledger_requires_funding_and_rejects_taken_dids() {
    let mut ledger = Ledger::new();
    let doc = DidDocument {
        id: s("did:example:a"),
        methods: vec![VerificationMethod { fragment: s("k"), public_key: 7 }],
    };
    match ledger.publish(doc.clone(), 42) {
        Err(IdentityError::Ledger) => {},
        _ => panic!("expected a ledger error for an unfunded payer"),
    }
    ledger.request_funds(42);
    assert!(ledger.publish(doc.clone(), 42).is_ok());
    match ledger.publish(doc, 42) {
        Err(IdentityError::Ledger) => {},
        _ => panic!("expected a ledger error for a taken DID"),
    }
}

#[test]
fn resolution_names_the_missing_did() {
    let mut ledger = Ledger::new();
    let (_, a) = actor(1, &mut ledger, "did:example:a", "ka");
    let (_, b) = actor(2, &mut ledger, "did:example:b", "kb");
    let got = resolve(&ledger, &s("did:example:b")).unwrap();
    assert_eq!(got.id, b.document.id);
    match resolve(&ledger, &s("did:example:c")) {
        Err(IdentityError::Resolution(d)) => assert_eq!(d, s("did:example:c")),
        _ => panic!("expected a resolution error"),
    }
    let batch = resolve_many(&ledger, &vec![s("did:example:b"), s("did:example:a")]).unwrap();
    assert_eq!(batch.len(), 2);
    assert_eq!(batch[0].id, b.document.id);
    assert_eq!(batch[1].id, a.document.id);
    match resolve_many(
        &ledger,
        &vec![s("did:example:a"), s("did:example:c"), s("did:example:d")],
    ) {
        Err(IdentityError::Resolution(d)) => assert_eq!(d, s("did:example:c")),
        _ => panic!("expected the first missing DID"),
    }
}

#[test]
fn two_issuers_resolve_in_one_batch() {
    let mut ledger = Ledger::new();
    let (mut driver_state, driver) = actor(1, &mut ledger, "did:example:driver1", "driver-key");
    let (issuer1_state, issuer1) = actor(2, &mut ledger, "did:example:issuer1", "issuer-key");
    let (issuer2_state, issuer2) = actor(3, &mut ledger, "did:example:issuer2", "issuer-key");
    let vc1 = issue(
        &issuer1,
        &issuer1_state.vault,
        &driver.document.id,
        vec![Claim { key: s("name"), value: s("Joe Bloggs") }],
        &s("DriverIdentityCredential"),
    )
    .unwrap();
    let vc2 = issue(
        &issuer2,
        &issuer2_state.vault,
        &driver.document.id,
        vec![Claim { key: s("country"), value: s("GB") }],
        &s("DriverIdentityCredential"),
    )
    .unwrap();
    let presentation = Presentation {
        holder: driver.document.id.clone(),
        credentials: vec![vc1.clone(), vc2],
        expires_at: 2_000,
    };
    let digest = presentation_digest_exec(&presentation);
    let signature = driver_state.vault.sign(&driver.fragment, digest).unwrap();
    let vp = PresentationToken { presentation, fragment: driver.fragment.clone(), signature };
    let report = verify_presentation(&vp, &ledger, 1_000).unwrap();
    assert!(report.valid);
    assert_eq!(report.credential_count, 2);

    // An unpublished issuer makes the whole batch, and the verification,
    // fail, naming the missing DID; no count is reported.
    let mut ghost_state = ActorState::new(4);
    let ghost_pk = ghost_state.vault.generate_key(&s("ghost-key"));
    let ghost = ActorIdentity {
        document: DidDocument {
            id: s("did:example:ghost"),
            methods: vec![VerificationMethod { fragment: s("ghost-key"), public_key: ghost_pk }],
        },
        fragment: s("ghost-key"),
    };
    let vc3 = issue(
        &ghost,
        &ghost_state.vault,
        &driver.document.id,
        vec![],
        &s("DriverIdentityCredential"),
    )
    .unwrap();
    let presentation2 = Presentation {
        holder: driver.document.id.clone(),
        credentials: vec![vc1, vc3],
        expires_at: 2_000,
    };
    let digest2 = presentation_digest_exec(&presentation2);
    let signature2 = driver_state.vault.sign(&driver.fragment, digest2).unwrap();
    let vp2 = PresentationToken {
        presentation: presentation2,
        fragment: driver.fragment.clone(),
        signature: signature2,
    };
    match verify_presentation(&vp2, &ledger, 1_000) {
        Err(IdentityError::Resolution(d)) => assert_eq!(d, s("did:example:ghost")),
        _ => panic!("expected a resolution error naming the unpublished issuer"),
    }
}

#[test]
fn issue_with_unknown_fragment_fails_with_vault_error() {
    let mut ledger = Ledger::new();
    let (state, mut id) = actor(1, &mut ledger, "did:example:issuer1", "issuer-key");
    id.fragment = s("missing-key");
    match issue(&id, &state.vault, &s("did:example:driver1"), vec![], &s("T")) {
        Err(IdentityError::Vault) => {},
        _ => panic!("expected a vault error"),
    }
}

#[test]
fn config_requires_every_option() {
    let ok = load_config(Some(s("http://ledger.example")), Some(s("0x1234")), Some(s("pw")))
        .unwrap();
    assert_eq!(ok.api_endpoint, s("http://ledger.example"));
    assert_eq!(ok.package_id, s("0x1234"));
    assert_eq!(ok.vault_password, s("pw"));
    for bad in [
        load_config(None, Some(s("0x1234")), Some(s("pw"))),
        load_config(Some(s("e")), None, Some(s("pw"))),
        load_config(Some(s("e")), Some(s("0x1234")), None),
        load_config(Some(s("e")), Some(s("")), Some(s("pw"))),
    ] {
        match bad {
            Err(IdentityError::Config) => {},
            _ => panic!("expected a configuration error"),
        }
    }
}

#[test]
fn errors_describe_themselves() {
    assert_eq!(
        IdentityError::Resolution(s("did:example:c")).describe(),
        s("DID not resolvable: did:example:c")
    );
    assert_eq!(IdentityError::Vault.describe(), s("key vault failure"));
}

#[test]
fn create_normalizes_a_padded_fragment() {
    let mut ledger = Ledger::new();
    let mut state = ActorState::new(8);
    let id = create_identity(&mut state, &mut ledger, &s("did:example:driver1"), &s(" driver-key \n"))
        .unwrap();
    assert_eq!(id.fragment, s("driver-key"));
    let rec = state.record.as_ref().unwrap();
    assert_eq!(rec.fragment, s("driver-key"));
    // A later load returns the identity unchanged, and the vault signs for
    // it: creation is invertible and usable.
    let reloaded = load_identity(rec).unwrap();
    assert_eq!(reloaded.fragment, id.fragment);
    assert!(state.vault.has_fragment(&reloaded.fragment));
    let vc = issue(&reloaded, &state.vault, &s("did:example:driver1"), vec![], &s("T"));
    assert!(vc.is_ok());
}

#[test]
fn create_rejects_a_blank_fragment_before_any_side_effect() {
    let mut ledger = Ledger::new();
    let mut state = ActorState::new(8);
    match create_identity(&mut state, &mut ledger, &s("did:example:driver1"), &s(" \n\t "))
    {
        Err(IdentityError::Storage) => {},
        _ => panic!("expected a storage error for a blank fragment"),
    }
    assert!(state.record.is_none());
    assert!(!state.vault.has_fragment(&s("")));
    // Nothing was published: the same DID is still free.
    let id = create_identity(&mut state, &mut ledger, &s("did:example:driver1"), &s("driver-key"))
        .unwrap();
    assert_eq!(id.document.id, s("did:example:driver1"));
}
