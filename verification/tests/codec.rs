use ibc_mini::codec::TendermintHeader;
use sha2::{Digest, Sha256};

fn sample_header() -> TendermintHeader {
    TendermintHeader {
        height: 1000,
        time: "2024-01-01T00:00:00Z".to_string(),
        app_hash: [42; 32],
        validators_hash: [24; 32],
        commit_signatures: vec![],
    }
}

// The digest is SHA-256 over height (big-endian), timestamp bytes, app hash,
// validators hash, in that order: recompute it directly with sha2.
#[test]
fn test_digest_layout_matches_sha256() {
    let header = sample_header();
    let mut hasher = Sha256::new();
    hasher.update(1000u64.to_be_bytes());
    hasher.update("2024-01-01T00:00:00Z".as_bytes());
    hasher.update([42u8; 32]);
    hasher.update([24u8; 32]);
    let expected: [u8; 32] = hasher.finalize().into();
    assert_eq!(header.digest(), expected);
}

#[test]
fn test_digest_deterministic() {
    let h1 = sample_header();
    let h2 = sample_header();
    assert_eq!(h1.digest(), h2.digest());
}

// Changing any single signed field changes the digest; the commit signatures
// are not part of the signed message.
#[test]
fn test_digest_changes_with_each_field() {
    let base = sample_header().digest();

    let mut h = sample_header();
    h.height = 1001;
    assert_ne!(h.digest(), base);

    let mut h = sample_header();
    h.time = "2024-01-01T00:00:01Z".to_string();
    assert_ne!(h.digest(), base);

    let mut h = sample_header();
    h.app_hash[0] = 43;
    assert_ne!(h.digest(), base);

    let mut h = sample_header();
    h.validators_hash[31] = 0;
    assert_ne!(h.digest(), base);
}
