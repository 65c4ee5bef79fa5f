use sha3::Digest;
use wifi_commissioning::authorize::Authorized;
use wifi_commissioning::authorize::AuthorizeService;
use wifi_commissioning::authorize::AUTHORIZE_TIMEOUT_SECS;
use wifi_commissioning::authorize::KEY_LENGTH;
use wifi_commissioning::error::ReqError;

fn digest_of(secret: &str) -> [u8; 32] {
    sha3::Sha3_256::digest(secret.as_bytes()).into()
}

fn from_hex(text: &str) -> Vec<u8> {
    (0..text.len() / 2).map(|i| u8::from_str_radix(&text[2 * i..2 * i + 2], 16).unwrap()).collect()
}

#[test]
fn a_new_guard_is_not_authorized() {
    let guard = AuthorizeService::new("secret".to_string());
    assert!(!guard.is_authorized());
}

#[test]
fn the_digest_of_the_secret_authorizes() {
    let mut guard = AuthorizeService::new("secret".to_string());
    assert_eq!(guard.write_key(0, &digest_of("secret")), Ok(()));
    assert!(guard.is_authorized());
}

#[test]
fn the_digest_is_sha3_256() {
    let mut guard = AuthorizeService::new(String::new());
    let expected = from_hex("a7ffc6f8bf1ed76651c14756a061d662f580ff4de43b49fa82d80a4b80f8434a");
    assert_eq!(guard.write_key(0, &expected), Ok(()));
    assert!(guard.is_authorized());
    let mut guard = AuthorizeService::new("abc".to_string());
    let expected = from_hex("3a985da74fe225b2045c172d6bd390bd855f086e3e9d525b46bfe24511431532");
    assert_eq!(guard.write_key(0, &expected), Ok(()));
    assert!(guard.is_authorized());
}

#[test]
fn the_secret_itself_does_not_authorize() {
    let secret = "0123456789abcdef0123456789abcdef";
    let mut guard = AuthorizeService::new(secret.to_string());
    assert_eq!(guard.write_key(0, secret.as_bytes()), Ok(()));
    assert!(!guard.is_authorized());
}

#[test]
fn any_other_value_ends_the_authorization() {
    let mut guard = AuthorizeService::with_digest([7; 32]);
    assert_eq!(guard.write_key(0, &[7; 32]), Ok(()));
    assert!(guard.is_authorized());
    assert_eq!(guard.write_key(0, &[8; 32]), Ok(()));
    assert!(!guard.is_authorized());
    assert_eq!(guard.write_key(0, &[7; 32]), Ok(()));
    assert_eq!(guard.write_key(31, &[0]), Ok(()));
    assert!(!guard.is_authorized());
}

#[test]
fn a_commitment_written_in_pieces_authorizes_with_the_last_piece() {
    let digest: Vec<u8> = (1u8..=32).collect();
    let mut array = [0u8; 32];
    array.copy_from_slice(&digest);
    let mut guard = AuthorizeService::with_digest(array);
    assert_eq!(guard.write_key(0, &digest[..20]), Ok(()));
    assert!(!guard.is_authorized());
    assert_eq!(guard.write_key(20, &digest[20..]), Ok(()));
    assert!(guard.is_authorized());
}

#[test]
fn a_write_that_does_not_fit_is_refused_and_changes_nothing() {
    let mut guard = AuthorizeService::with_digest([7; 32]);
    assert_eq!(guard.write_key(0, &[7; 32]), Ok(()));
    assert_eq!(guard.write_key(0, &[7; 33]), Err(ReqError::InvalidLength));
    assert_eq!(guard.write_key(1, &[7; 32]), Err(ReqError::InvalidLength));
    assert_eq!(guard.write_key(33, &[]), Err(ReqError::InvalidLength));
    assert!(guard.is_authorized());
    assert_eq!(guard.write_key(32, &[]), Ok(()));
    assert!(guard.is_authorized());
}

#[test]
fn the_authorization_lasts_three_hundred_ticks() {
    assert_eq!(AUTHORIZE_TIMEOUT_SECS, 300);
    assert_eq!(KEY_LENGTH, 32);
    let mut guard = AuthorizeService::with_digest([7; 32]);
    assert_eq!(guard.write_key(0, &[7; 32]), Ok(()));
    for _ in 0..299 {
        guard.tick();
        assert!(guard.is_authorized());
    }
    guard.tick();
    assert!(!guard.is_authorized());
    guard.tick();
    assert!(!guard.is_authorized());
}

#[test]
fn a_matching_write_starts_the_countdown_anew() {
    let mut guard = AuthorizeService::with_digest([7; 32]);
    assert_eq!(guard.write_key(0, &[7; 32]), Ok(()));
    for _ in 0..200 {
        guard.tick();
    }
    assert_eq!(guard.write_key(0, &[7]), Ok(()));
    for _ in 0..299 {
        guard.tick();
    }
    assert!(guard.is_authorized());
    guard.tick();
    assert!(!guard.is_authorized());
}

#[test]
fn expiry_wipes_the_commitment() {
    let mut guard = AuthorizeService::with_digest([7; 32]);
    assert_eq!(guard.write_key(0, &[7; 32]), Ok(()));
    for _ in 0..300 {
        guard.tick();
    }
    // Were the commitment still in place, its last byte alone would match again.
    assert_eq!(guard.write_key(31, &[7]), Ok(()));
    assert!(!guard.is_authorized());
    assert_eq!(guard.write_key(0, &[7; 31]), Ok(()));
    assert!(guard.is_authorized());
}

#[test]
fn expiry_leaves_zero_bytes() {
    let mut digest = [0u8; 32];
    digest[0] = 1;
    let mut guard = AuthorizeService::with_digest(digest);
    assert_eq!(guard.write_key(0, &digest), Ok(()));
    for _ in 0..300 {
        guard.tick();
    }
    // One byte completes the digest only if the other 31 read back as zero.
    assert_eq!(guard.write_key(0, &[1]), Ok(()));
    assert!(guard.is_authorized());
}

#[test]
fn ticks_leave_a_mismatched_commitment_in_place() {
    let mut guard = AuthorizeService::with_digest([7; 32]);
    assert_eq!(guard.write_key(0, &[7; 31]), Ok(()));
    for _ in 0..400 {
        guard.tick();
    }
    assert_eq!(guard.write_key(31, &[7]), Ok(()));
    assert!(guard.is_authorized());
}
