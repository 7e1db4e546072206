use ed25519_dalek::{Signer, SigningKey, VerifyingKey};
use ibc_mini::codec::{CommitSignature, TendermintHeader};
use ibc_mini::light_client::{LightClient, LightClientError, Validator, ValidatorSet};
use rand::rngs::OsRng;
use sha2::{Digest, Sha256};

fn create_test_keys() -> (SigningKey, VerifyingKey) {
    let mut csprng = OsRng;
    let signing_key: SigningKey = SigningKey::generate(&mut csprng);
    let verifying_key = signing_key.verifying_key();
    (signing_key, verifying_key)
}

fn create_test_validator_set() -> (ValidatorSet, Vec<SigningKey>) {
    let (sk1, vk1) = create_test_keys();
    let (sk2, vk2) = create_test_keys();
    let (sk3, vk3) = create_test_keys();

    let validators = vec![
        Validator {
            pub_key: vk1.to_bytes().to_vec(),
            voting_power: 100,
        },
        Validator {
            pub_key: vk2.to_bytes().to_vec(),
            voting_power: 100,
        },
        Validator {
            pub_key: vk3.to_bytes().to_vec(),
            voting_power: 100,
        },
    ];

    let set = ValidatorSet::new(validators, 300).expect("the stated total matches the sum");
    (set, vec![sk1, sk2, sk3])
}

fn address_of(pub_key: &[u8]) -> [u8; 20] {
    let mut hasher = Sha256::new();
    hasher.update(pub_key);
    let hash = hasher.finalize();
    hash[0..20].try_into().unwrap()
}

fn test_header() -> TendermintHeader {
    TendermintHeader {
        height: 1000,
        time: "2024-01-01T00:00:00Z".to_string(),
        app_hash: [42; 32],
        validators_hash: [24; 32],
        commit_signatures: vec![],
    }
}

fn signed_commit(set: &ValidatorSet, keys: &[SigningKey], who: usize, digest: &[u8; 32]) -> CommitSignature {
    CommitSignature {
        validator_address: address_of(&set.validators[who].pub_key),
        signature: keys[who].sign(digest).to_bytes().to_vec(),
    }
}

#[test]
fn test_light_client_verification_success() {
    let (validator_set, signing_keys) = create_test_validator_set();
    let light_client = LightClient::new(validator_set.clone());

    let mut header = test_header();
    let header_digest = header.digest();

    header.commit_signatures = vec![
        signed_commit(&validator_set, &signing_keys, 0, &header_digest),
        signed_commit(&validator_set, &signing_keys, 1, &header_digest),
        signed_commit(&validator_set, &signing_keys, 2, &header_digest),
    ];

    let result = light_client.verify_header(&header).unwrap();
    assert!(result, "Header verification should succeed with 2/3 voting power");
}

#[test]
fn test_light_client_verification_failure() {
    let (validator_set, signing_keys) = create_test_validator_set();
    let light_client = LightClient::new(validator_set.clone());

    let mut header = test_header();
    let header_digest = header.digest();

    header.commit_signatures = vec![signed_commit(&validator_set, &signing_keys, 0, &header_digest)];

    let result = light_client.verify_header(&header).unwrap();
    assert!(!result, "Header verification should fail with insufficient voting power");
}

#[test]
fn test_extract_app_hash() {
    let (validator_set, _) = create_test_validator_set();
    let light_client = LightClient::new(validator_set);

    let expected_hash = [42; 32];
    let header = TendermintHeader {
        height: 1000,
        time: "2024-01-01T00:00:00Z".to_string(),
        app_hash: expected_hash,
        validators_hash: [24; 32],
        commit_signatures: vec![],
    };

    let app_hash = light_client.extract_app_hash(&header);
    assert_eq!(app_hash, expected_hash, "App hash should be extracted correctly");
}

// Exactly two of three equal-weight validators reach 200 of 300: not strictly
// more than floor(300 * 2 / 3) = 200, so the header is rejected.
#[test]
fn test_two_of_three_equal_weight_rejected() {
    let (validator_set, signing_keys) = create_test_validator_set();
    let light_client = LightClient::new(validator_set.clone());

    let mut header = test_header();
    let header_digest = header.digest();

    header.commit_signatures = vec![
        signed_commit(&validator_set, &signing_keys, 0, &header_digest),
        signed_commit(&validator_set, &signing_keys, 1, &header_digest),
    ];

    let result = light_client.verify_header(&header).unwrap();
    assert!(!result, "200 of 300 is not strictly above the threshold");
}

// 201 of 301 is strictly above floor(301 * 2 / 3) = 200, so the header is
// accepted: the boundary is exact.
#[test]
fn test_threshold_boundary_exact() {
    let (sk1, vk1) = create_test_keys();
    let (sk2, vk2) = create_test_keys();
    let (sk3, vk3) = create_test_keys();
    let validators = vec![
        Validator { pub_key: vk1.to_bytes().to_vec(), voting_power: 100 },
        Validator { pub_key: vk2.to_bytes().to_vec(), voting_power: 101 },
        Validator { pub_key: vk3.to_bytes().to_vec(), voting_power: 100 },
    ];
    let set = ValidatorSet::new(validators, 301).unwrap();
    let keys = vec![sk1, sk2, sk3];
    let light_client = LightClient::new(set.clone());

    let mut header = test_header();
    let header_digest = header.digest();
    header.commit_signatures = vec![
        signed_commit(&set, &keys, 0, &header_digest),
        signed_commit(&set, &keys, 1, &header_digest),
    ];

    let result = light_client.verify_header(&header).unwrap();
    assert!(result, "201 of 301 is strictly above floor(602/3) = 200");
}

#[test]
fn test_duplicate_signature_counts_once() {
    let (validator_set, signing_keys) = create_test_validator_set();
    let light_client = LightClient::new(validator_set.clone());

    let mut header = test_header();
    let header_digest = header.digest();

    // the same validator's valid signature three times, plus one other: the
    // duplicate must not lift 200 to a passing 300
    let dup = signed_commit(&validator_set, &signing_keys, 0, &header_digest);
    header.commit_signatures = vec![
        dup.clone(),
        dup.clone(),
        dup,
        signed_commit(&validator_set, &signing_keys, 1, &header_digest),
    ];

    let result = light_client.verify_header(&header).unwrap();
    assert!(!result, "a duplicated signature must contribute its validator's power once");
}

#[test]
fn test_unknown_address_contributes_nothing() {
    let (validator_set, signing_keys) = create_test_validator_set();
    let light_client = LightClient::new(validator_set.clone());

    let mut header = test_header();
    let header_digest = header.digest();

    let mut stranger = signed_commit(&validator_set, &signing_keys, 0, &header_digest);
    stranger.validator_address = [7; 20];
    header.commit_signatures = vec![
        stranger,
        signed_commit(&validator_set, &signing_keys, 0, &header_digest),
        signed_commit(&validator_set, &signing_keys, 1, &header_digest),
    ];

    let result = light_client.verify_header(&header).unwrap();
    assert!(!result, "an unknown address is ignored, contributing no power");
}

#[test]
fn test_invalid_signature_contributes_nothing() {
    let (validator_set, signing_keys) = create_test_validator_set();
    let light_client = LightClient::new(validator_set.clone());

    let mut header = test_header();
    let header_digest = header.digest();

    // validator 2 signs the wrong message: syntactically fine, cryptographically invalid
    let wrong = CommitSignature {
        validator_address: address_of(&validator_set.validators[2].pub_key),
        signature: signing_keys[2].sign(b"some other message").to_bytes().to_vec(),
    };
    header.commit_signatures = vec![
        signed_commit(&validator_set, &signing_keys, 0, &header_digest),
        signed_commit(&validator_set, &signing_keys, 1, &header_digest),
        wrong,
    ];

    let result = light_client.verify_header(&header).unwrap();
    assert!(!result, "an invalid signature is ignored, contributing no power");
}

#[test]
fn test_malformed_signature_length_rejected() {
    let (validator_set, signing_keys) = create_test_validator_set();
    let light_client = LightClient::new(validator_set.clone());

    let mut header = test_header();
    let header_digest = header.digest();

    let mut short = signed_commit(&validator_set, &signing_keys, 0, &header_digest);
    short.signature.truncate(63);
    header.commit_signatures = vec![short];

    let result = light_client.verify_header(&header);
    assert_eq!(result, Err(LightClientError::MalformedInput));
}

#[test]
fn test_malformed_public_key_length_rejected() {
    let (_, vk1) = create_test_keys();
    let mut key_bytes = vk1.to_bytes().to_vec();
    key_bytes.truncate(31);
    let validators = vec![Validator { pub_key: key_bytes, voting_power: 100 }];
    let set = ValidatorSet::new(validators, 100).unwrap();
    let light_client = LightClient::new(set);

    let header = test_header();
    let result = light_client.verify_header(&header);
    assert_eq!(result, Err(LightClientError::MalformedInput));
}

#[test]
fn test_validator_set_rejects_wrong_total() {
    let (_, vk1) = create_test_keys();
    let validators = vec![Validator { pub_key: vk1.to_bytes().to_vec(), voting_power: 100 }];
    let r = ValidatorSet::new(validators, 250);
    assert_eq!(r.err(), Some(LightClientError::MalformedInput));
}

#[test]
fn test_validator_set_rejects_duplicate_key() {
    let (_, vk1) = create_test_keys();
    let validators = vec![
        Validator { pub_key: vk1.to_bytes().to_vec(), voting_power: 100 },
        Validator { pub_key: vk1.to_bytes().to_vec(), voting_power: 50 },
    ];
    let r = ValidatorSet::new(validators, 150);
    assert_eq!(r.err(), Some(LightClientError::MalformedInput));
}

#[test]
fn test_empty_validator_set_and_no_signatures() {
    let set = ValidatorSet::new(vec![], 0).unwrap();
    let light_client = LightClient::new(set);
    let header = test_header();
    // zero power is not strictly above floor(0 * 2 / 3) = 0
    assert_eq!(light_client.verify_header(&header), Ok(false));
}

#[test]
fn test_maximal_voting_power_no_overflow() {
    let (sk1, vk1) = create_test_keys();
    let validators = vec![Validator {
        pub_key: vk1.to_bytes().to_vec(),
        voting_power: u64::MAX,
    }];
    let set = ValidatorSet::new(validators, u64::MAX).unwrap();
    let keys = vec![sk1];
    let light_client = LightClient::new(set.clone());

    let mut header = test_header();
    let header_digest = header.digest();
    header.commit_signatures = vec![signed_commit(&set, &keys, 0, &header_digest)];

    // the whole power signs: strictly above floor(2 * u64::MAX / 3)
    assert_eq!(light_client.verify_header(&header), Ok(true));
}

// Lengths are checked before any matching or cryptography: a wrong-length
// signature is malformed even when its address matches no validator.
#[test]
fn test_malformed_length_checked_before_matching() {
    let (validator_set, _) = create_test_validator_set();
    let light_client = LightClient::new(validator_set);

    let mut header = test_header();
    header.commit_signatures = vec![CommitSignature {
        validator_address: [9; 20],
        signature: vec![0; 63],
    }];

    let result = light_client.verify_header(&header);
    assert_eq!(result, Err(LightClientError::MalformedInput));
}
