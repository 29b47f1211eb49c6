use concord::totp::{base32_encode, TotpSecret, SECRET_BYTES};

const ALPHABET: &[u8] = b"ABCDEFGHIJKLMNOPQRSTUVWXYZ234567";

#[test]
fn a_secret_is_the_length_authenticator_apps_expect() {
    let secret = TotpSecret::generate();

    assert_eq!(secret.as_str().len(), 32);
    assert_eq!(SECRET_BYTES % 5, 0, "a partial chunk would need padding");
}

#[test]
fn a_secret_uses_only_the_base32_alphabet() {
    for _ in 0..32 {
        let secret = TotpSecret::generate();
        assert!(secret.as_str().bytes().all(|byte| ALPHABET.contains(&byte)), "{} is not base32", secret.as_str());
    }
}

#[test]
fn two_secrets_differ() {
    let first = TotpSecret::generate();
    let second = TotpSecret::generate();

    assert_ne!(first, second);
    assert!(first.as_str().bytes().any(|byte| byte != b'A'), "an all-zero secret encodes as all A");
}

#[test]
fn base32_matches_the_rfc_test_vectors() {
    assert_eq!(base32_encode(b"f"), "MY");
    assert_eq!(base32_encode(b"fo"), "MZXQ");
    assert_eq!(base32_encode(b"foo"), "MZXW6");
    assert_eq!(base32_encode(b"foob"), "MZXW6YQ");
    assert_eq!(base32_encode(b"fooba"), "MZXW6YTB");
    assert_eq!(base32_encode(b"foobar"), "MZXW6YTBOI");
}

#[test]
fn an_account_name_cannot_break_out_of_the_uri() {
    let secret = TotpSecret::from_base32("ABCD");
    let uri = secret.otpauth_uri("some?one#two");

    assert!(uri.contains("some%3Fone%23two"));
    assert_eq!(uri.matches('?').count(), 1, "the query was broken");
    assert!(!uri.contains("#two"));
    assert!(uri.ends_with("&issuer=Discord"));
}

#[test]
fn an_ordinary_name_is_left_readable() {
    let uri = TotpSecret::from_base32("ABCD").otpauth_uri("someone");
    assert!(uri.contains("Discord:someone?"));
}

#[test]
fn grouping_does_not_change_the_secret() {
    let secret = TotpSecret::generate();
    assert_eq!(secret.grouped().replace(' ', ""), secret.as_str());
    assert!(secret.grouped().contains(' '), "not grouped at all");
}
