//! Tests for public key validation.

use lykin::utils::{validate_public_key, PeerForm};

fn valid_key() -> String {
    let base64: String = std::iter::repeat('A').take(43).collect::<String>() + "=";
    assert_eq!(base64.len(), 44);
    format!("@{}.ed25519", base64)
}

#[test]
fn accepts_valid_key() {
    assert_eq!(validate_public_key(&valid_key()), Ok(()));
}

#[test]
fn rejects_missing_sigil() {
    let key = valid_key().replacen('@', "%", 1);
    assert_eq!(
        validate_public_key(&key),
        Err("expected '@' sigil as first character".to_string())
    );
}

#[test]
fn rejects_empty_string() {
    assert_eq!(
        validate_public_key(""),
        Err("expected '@' sigil as first character".to_string())
    );
}

#[test]
fn rejects_missing_dot() {
    assert_eq!(
        validate_public_key("@AAAAed25519"),
        Err("no dot index was found".to_string())
    );
}

#[test]
fn rejects_wrong_algorithm() {
    assert_eq!(
        validate_public_key("@AAAA.rsa4096"),
        Err("hashing algorithm must be ed25519".to_string())
    );
}

#[test]
fn rejects_wrong_base64_length() {
    assert_eq!(
        validate_public_key("@tooshort.ed25519"),
        Err("base64 data length is incorrect".to_string())
    );
    let long = format!("@{}.ed25519", "B".repeat(45));
    assert_eq!(
        validate_public_key(&long),
        Err("base64 data length is incorrect".to_string())
    );
}

#[test]
fn validates_form_field() {
    let form = PeerForm {
        public_key: valid_key(),
    };
    assert!(validate_public_key(&form.public_key).is_ok());
}
