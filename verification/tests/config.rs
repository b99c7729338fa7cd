use base64::engine::general_purpose::URL_SAFE_NO_PAD;
use base64::Engine;
use p2x::credential::TokenSecret;
use p2x::credential_file::{
    CredentialConfigError, CredentialRecord, CredentialRef, CredentialRole, FixedTokenFile,
};
use p2x::hex::hex;
use p2x::identity::{
    after_read, after_write, FileFailure, FileOutcome, IdentityError, IdentityStep, LoadedIdentity,
};
use p2x::secret_file::{
    check_metadata, check_read, check_written, temporary_name, SecretFileError, MAX_SECRET_FILE,
};
use p2x::ticket::{ConnectionTicketClaimsV1, TicketValidation};
use p2x::ticket_key::{
    TicketKey, TicketKeyError, VerificationKey, VerificationKeyFile, VerificationKeyRecord,
    VerificationKeyRing,
};
use p2x::yaml::{
    check_documents, parse_documents, validate_document, validate_events, validate_file,
    validate_structure, YamlError, YamlNode, MAX_YAML_DEPTH, MAX_YAML_FILE,
};

fn active_key(key: &TicketKey, activates_at: i64, retires_at: Option<i64>) -> VerificationKey {
    VerificationKey {
        key_id: key.key_id(),
        public: key.public(),
        activates_at,
        retires_at,
    }
}

#[test]
fn ring_observes_activation_and_retirement() {
    let key = TicketKey::from_seed([9; 32]);
    let mut ring = VerificationKeyRing::default();
    ring.add(active_key(&key, 10, Some(20))).unwrap();
    assert!(ring.get(key.key_id(), 9).is_none());
    assert!(ring.get(key.key_id(), 10).is_some());
    assert!(ring.get(key.key_id(), 20).is_none());
}

#[test]
fn ring_verifies_exact_active_key() {
    let key = TicketKey::from_seed([9; 32]);
    let mut ring = VerificationKeyRing::default();
    ring.add(active_key(&key, 0, None)).unwrap();
    let expected = TicketValidation {
        issuer_exchange_peer_id: &[],
        client_peer_id: &[],
        server_peer_id: &[],
        tenant: "",
        upstream_id: "",
        selector_fingerprint: [0; 32],
        registration_revision: 0,
        authorization_revision: 0,
        permissions: 0,
        max_streams: 0,
        now: 0,
        clock_skew: 0,
    };
    assert!(ring.verify(&[0; 4], &expected).is_err());
}

#[test]
fn key_separation_is_enforced() {
    let key = TicketKey::from_seed([9; 32]);
    assert!(key.ensure_separate_from(key.public().as_bytes()).is_err());
    assert!(key.ensure_separate_from(&[0; 32]).is_ok());
}

#[test]
fn key_id_is_stable_and_debug_redacts() {
    let k = TicketKey::from_seed([9; 32]);
    assert_eq!(
        k.key_id(),
        [
            0xdb, 0xc2, 0x98, 0x25, 0x1c, 0x51, 0x32, 0x1b, 0x72, 0x66, 0xe7, 0x8d, 0x1c, 0x15,
            0x1c, 0x2b
        ]
    );
    assert!(k.redacted().contains("REDACTED"));
}

#[test]
fn ring_loader_rejects_wrong_key_id_and_unknown_fields() {
    let key = TicketKey::from_seed([9; 32]);
    let public = URL_SAFE_NO_PAD.encode(key.public().as_bytes());
    let record = |key_id: String, public_key: String| VerificationKeyRecord {
        key_id,
        public_key,
        activates_at: 1,
        retires_at: Some(2),
    };
    let ring = VerificationKeyRing::load(&VerificationKeyFile {
        schema_version: 1,
        keys: vec![record(hex(&key.key_id()), public.clone())],
    })
    .unwrap();
    assert!(ring.get(key.key_id(), 1).is_some());
    for (schema_version, key_id, public_key) in [
        (1, hex(&[0; 16]), public.clone()),
        (1, hex(&key.key_id()), "x".to_string()),
        (2, hex(&key.key_id()), public.clone()),
    ] {
        assert!(VerificationKeyRing::load(&VerificationKeyFile {
            schema_version,
            keys: vec![record(key_id, public_key)],
        })
        .is_err());
    }
}

#[test]
fn keys_come_back_from_their_files() {
    let (key, file) = TicketKey::create_from(Some([9; 32])).unwrap_or_else(|_| panic!());
    let loaded = TicketKey::load(&file).unwrap_or_else(|_| panic!());
    assert_eq!(key.key_id(), loaded.key_id());
    assert_eq!(key.key_id(), TicketKey::from_seed([9; 32]).key_id());
    assert!(TicketKey::load(&file[1..]).is_err());
    assert!(TicketKey::create_from(None).is_err());
    let (one, _) = TicketKey::create().unwrap_or_else(|_| panic!());
    let (two, _) = TicketKey::create().unwrap_or_else(|_| panic!());
    assert_ne!(one.key_id(), two.key_id());
}

#[test]
fn rings_refuse_keys_that_do_not_fit() {
    let key = TicketKey::from_seed([9; 32]);
    let mut ring = VerificationKeyRing::default();
    assert_eq!(
        ring.add(active_key(&key, 10, Some(10))),
        Err(TicketKeyError::InvalidVerificationKey)
    );
    ring.add(active_key(&key, 10, None)).unwrap();
    assert_eq!(
        ring.add(active_key(&key, 10, None)),
        Err(TicketKeyError::DuplicateVerificationKey)
    );
}

#[test]
fn signatures_depend_on_key_and_message() {
    let key = TicketKey::from_seed([9; 32]);
    assert_eq!(key.sign(b"a"), key.sign(b"a"));
    assert_ne!(key.sign(b"a"), key.sign(b"b"));
    assert_ne!(key.sign(b"a"), TicketKey::from_seed([8; 32]).sign(b"a"));
    let error: Result<(), TicketKeyError> = key.ensure_separate_from(key.public().as_bytes());
    assert!(error.is_err());
}

#[test]
fn missing_is_fatal_without_opt_in() {
    assert_eq!(
        after_read(FileOutcome::NotFound, false),
        IdentityStep::Fail(IdentityError::MissingWithoutGeneration)
    );
}

#[test]
fn identities_are_generated_once() {
    assert_eq!(after_read(FileOutcome::Done, false), IdentityStep::Decode);
    assert_eq!(
        after_read(FileOutcome::NotFound, true),
        IdentityStep::Generate
    );
    assert_eq!(
        after_write(FileOutcome::AlreadyExists),
        IdentityStep::ReadAgain
    );
    assert_eq!(after_write(FileOutcome::Done), IdentityStep::Decode);
    assert_eq!(
        after_read(FileOutcome::Failed(FileFailure::Io), true),
        IdentityStep::Fail(IdentityError::File(FileFailure::Io))
    );
}

#[test]
fn identities_are_read_from_their_encoding() {
    let keypair = libp2p::identity::Keypair::generate_ed25519();
    let bytes = keypair.to_protobuf_encoding().unwrap();
    let identity = LoadedIdentity::decode(&bytes).unwrap();
    assert_eq!(
        identity.peer_id.as_bytes(),
        keypair.public().to_peer_id().to_bytes().as_slice()
    );
    let digest: [u8; 32] = sha2::Digest::finalize(sha2::Digest::chain_update(
        <sha2::Sha256 as sha2::Digest>::new(),
        keypair.public().encode_protobuf(),
    ))
    .into();
    assert_eq!(identity.fingerprint, hex(&digest));
    assert!(matches!(
        LoadedIdentity::decode(&[1, 2, 3]),
        Err(IdentityError::InvalidEncoding)
    ));
}

#[test]
fn secret_files_are_small_and_private() {
    assert_eq!(check_metadata(true, 32, 0o100600), Ok(()));
    assert_eq!(
        check_metadata(true, 32, 0o100640),
        Err(SecretFileError::UnsafePermissions)
    );
    assert_eq!(
        check_metadata(false, 32, 0o100600),
        Err(SecretFileError::InvalidSize)
    );
    assert_eq!(
        check_metadata(true, 0, 0o100600),
        Err(SecretFileError::InvalidSize)
    );
    assert_eq!(check_read(&[]), Ok(()));
    assert_eq!(
        check_read(&vec![0; MAX_SECRET_FILE + 1]),
        Err(SecretFileError::InvalidSize)
    );
    assert_eq!(check_written(&[]), Err(SecretFileError::InvalidSize));
    assert_eq!(check_written(&[1]), Ok(()));
    assert!(temporary_name(Some("key")).starts_with(".key"));
}

fn load(text: &str) -> Result<String, YamlError> {
    validate_document(text.as_bytes())
}

#[test]
fn rejects_merge_and_multiple_documents() {
    assert!(load("a: 1\n---\nb: 2\n").is_err());
    assert!(load("a: &x 1\nb: *x\n").is_err());
    assert!(load("a: 1\na: 2\n").is_err());
}

#[test]
fn rejects_structural_bounds_and_tags() {
    assert!(load("a: !secret value\n").is_err());
    assert_eq!(
        load(&format!("a: {}\n", "x".repeat(4097))),
        Err(YamlError::Bounds)
    );
}

#[test]
fn files_are_single_documents() {
    assert_eq!(load("a: 1\n---\nb: 2\n"), Err(YamlError::Parse));
    assert_eq!(load("a: 1\na: 2\n"), Err(YamlError::Parse));
    assert_eq!(load("a: {b: 1, b: 2}\n"), Err(YamlError::Parse));
    assert_eq!(load("a: [\n"), Err(YamlError::Parse));
    assert_eq!(load("a: &x 1\nb: *x\n"), Err(YamlError::Bounds));
    assert_eq!(load("a: {b: 1, c: [x, 2]}\n"), Ok("a: {b: 1, c: [x, 2]}\n".to_string()));
    assert_eq!(validate_document(&[255, 254]), Err(YamlError::Parse));
    assert_eq!(
        validate_document(&vec![b' '; MAX_YAML_FILE + 1]),
        Err(YamlError::TooLarge)
    );
    let open = format!("{}{}", "[".repeat(MAX_YAML_DEPTH), "]".repeat(MAX_YAML_DEPTH));
    assert!(load(&open).is_ok());
}

#[test]
fn documents_are_read_value_by_value() {
    let documents = parse_documents("a: [1, true, null]\nb: text\n").unwrap();
    assert_eq!(documents.len(), 1);
    let YamlNode::Mapping(entries) = &documents[0] else {
        panic!("a mapping");
    };
    assert_eq!(entries.len(), 4);
    assert!(matches!(&entries[0], YamlNode::Text(text) if text == "a"));
    assert!(matches!(&entries[1], YamlNode::Sequence(items)
        if items.len() == 3 && items.iter().all(|item| matches!(item, YamlNode::Plain))));
    assert!(matches!(&entries[3], YamlNode::Text(text) if text == "text"));
    assert_eq!(parse_documents("a: 1\n---\nb: 2\n").unwrap().len(), 2);
    assert!(matches!(parse_documents("!x 1\n").unwrap()[0], YamlNode::Tagged));
    assert!(parse_documents("a: 1\na: 2\n").is_none());
}

#[test]
fn one_document_within_bounds_is_accepted() {
    assert_eq!(check_documents(&None), Err(YamlError::Parse));
    assert_eq!(check_documents(&Some(vec![])), Err(YamlError::Parse));
    assert_eq!(
        check_documents(&Some(vec![YamlNode::Plain, YamlNode::Plain])),
        Err(YamlError::Parse)
    );
    assert_eq!(
        check_documents(&Some(vec![YamlNode::Tagged])),
        Err(YamlError::Bounds)
    );
    assert_eq!(check_documents(&Some(vec![YamlNode::Plain])), Ok(()));
}

#[test]
fn plain_yaml_is_accepted() {
    assert!(load("a: 1\nb: [x, y]\n").is_ok());
    assert_eq!(validate_events("a: 1\n"), Ok(()));
    assert_eq!(validate_events("a: [\n"), Err(YamlError::Parse));
    assert_eq!(
        validate_file(&vec![b' '; MAX_YAML_FILE + 1]),
        Err(YamlError::TooLarge)
    );
    assert_eq!(validate_file(&[255, 254]), Err(YamlError::Parse));
    let deep = format!("{}1{}", "[".repeat(40), "]".repeat(40));
    assert_eq!(validate_events(&deep), Err(YamlError::Bounds));
}

#[test]
fn parsed_values_are_bounded() {
    let mut nodes = 0;
    let value = YamlNode::Mapping(vec![
        YamlNode::Text("a".to_string()),
        YamlNode::Sequence(vec![YamlNode::Plain, YamlNode::Plain]),
    ]);
    assert_eq!(validate_structure(&value, 0, &mut nodes), Ok(()));
    assert!(validate_structure(&YamlNode::Tagged, 0, &mut 0).is_err());
    let mut deep = YamlNode::Plain;
    for _ in 0..MAX_YAML_DEPTH + 2 {
        deep = YamlNode::Sequence(vec![deep]);
    }
    assert!(validate_structure(&deep, 0, &mut 0).is_err());
    assert_eq!(nodes, 5);
    let mut most = usize::MAX;
    assert_eq!(
        validate_structure(&YamlNode::Plain, 0, &mut most),
        Err(YamlError::Bounds)
    );
}

#[test]
fn keys_are_not_repeated_in_one_mapping() {
    for text in [
        "a: 1\na: 2\n",
        "a: {b: 1, c: 2, b: 3}\n",
        "a: {b: [1, 2], b: {c: 1}}\n",
        "- x\n- {y: 1, y: 1}\n",
        "\"a\": 1\n'a': 2\n",
        "a: 1\n\"a\": 2\n",
        "1: a\n1: b\n",
    ] {
        assert_eq!(load(text), Err(YamlError::Parse), "{text}");
    }
    for text in [
        "a: {a: {a: 1}}\n",
        "- {a: 1}\n- {a: 2}\n",
        "a: b\nb: a\n",
        "1: a\n\"1\": b\n",
        "a: [a, a]\n",
    ] {
        assert_eq!(load(text), Ok(text.to_string()));
    }
}

#[test]
fn credential_files_are_of_limited_length() {
    assert_eq!(FixedTokenFile::check_length(0), Ok(()));
    assert_eq!(FixedTokenFile::check_length(524_288), Ok(()));
    assert_eq!(
        FixedTokenFile::check_length(524_289),
        Err(CredentialConfigError::Invalid("file too large"))
    );
}

fn peer_text() -> String {
    libp2p::identity::Keypair::generate_ed25519()
        .public()
        .to_peer_id()
        .to_string()
}

fn record(id: &str, role: CredentialRole, scopes: &[&str]) -> CredentialRecord {
    CredentialRecord {
        credential_id: id.to_string(),
        token_sha256: URL_SAFE_NO_PAD.encode(TokenSecret::from_bytes([7; 32]).digest().as_bytes()),
        peer_id: peer_text(),
        tenant: "tenant".to_string(),
        role,
        scopes: scopes.iter().map(|scope| scope.to_string()).collect(),
        quota_profile: "standard".to_string(),
        not_before: 0,
        expires_at: 100,
        revoked: false,
    }
}

fn file(credentials: Vec<CredentialRecord>) -> FixedTokenFile {
    FixedTokenFile {
        schema_version: 1,
        authorization_revision: 1,
        credentials,
    }
}

#[test]
fn credential_files_are_checked() {
    assert!(file(vec![
        record("client-1", CredentialRole::Client, &["open_proxy_stream"]),
        record(
            "server-1",
            CredentialRole::Server,
            &["register_services", "reserve_relay"]
        ),
    ])
    .validate()
    .is_ok());
    let bad = |record: CredentialRecord| {
        assert!(matches!(
            file(vec![record]).validate(),
            Err(CredentialConfigError::Invalid(_))
        ))
    };
    let client = || record("client-1", CredentialRole::Client, &["open_proxy_stream"]);
    bad(CredentialRecord {
        credential_id: "bad id".to_string(),
        ..client()
    });
    bad(CredentialRecord {
        token_sha256: "x".to_string(),
        ..client()
    });
    bad(CredentialRecord {
        peer_id: "nobody".to_string(),
        ..client()
    });
    bad(CredentialRecord {
        expires_at: 0,
        ..client()
    });
    bad(CredentialRecord {
        scopes: vec!["everything".to_string()],
        ..client()
    });
    bad(CredentialRecord {
        role: CredentialRole::Server,
        ..client()
    });
    assert!(file(vec![client(), client()]).validate().is_err());
    let old = FixedTokenFile {
        schema_version: 2,
        ..file(vec![])
    };
    assert!(old.validate().is_err());
}

#[test]
fn credentials_are_read_from_the_environment() {
    let reference = CredentialRef {
        env_name: "P2X_TOKEN".to_string(),
    };
    let token = format!("p2x1.server-1.{}", URL_SAFE_NO_PAD.encode([7u8; 32]));
    let (id, secret) = reference.read(Some(token)).unwrap_or_else(|_| panic!());
    assert_eq!(id.as_str(), "server-1");
    assert_eq!(secret.as_bytes(), &[7; 32]);
    assert!(matches!(
        reference.read(None),
        Err(CredentialConfigError::MissingEnvironment)
    ));
    assert!(matches!(
        reference.read(Some("x".to_string())),
        Err(CredentialConfigError::Invalid(_))
    ));
}

#[test]
fn claims_need_real_peers() {
    assert!(ConnectionTicketClaimsV1::new(
        vec![1, 2, 3],
        "t".to_string(),
        vec![1, 2, 3],
        vec![1, 2, 3],
        "u".to_string(),
        [4; 32],
        1,
        2,
        4,
        10,
        20,
        [5; 16],
        1,
    )
    .is_err());
}
