use audio_bridge::license::keygen_message;
use audio_bridge::license::{generate_hwid, generate_license_key, license_key, verify_license_static, KeygenError};
use sha2::{Digest, Sha256};

fn reference_key(hwid: &str, name: &str) -> String {
    let mut h = Sha256::new();
    h.update(hwid.trim().to_uppercase().as_bytes());
    h.update(name.trim().as_bytes());
    h.update(b"MmcyS5isfQKEdMPnn3F6N1n4tFLbtjPjPvip6spNjg");
    format!("{:x}", h.finalize())[..16].to_uppercase()
}

fn reference_hwid(uid: &str) -> String {
    let mut h = Sha256::new();
    h.update(uid.as_bytes());
    format!("{:x}", h.finalize())[..12].to_uppercase()
}

#[test]
fn license_key_matches_reference() {
    for (h, n) in [("76A18EAF2DE8", "Raspberry 01"), (" abc ", " Mario Rossi "), ("", "x"), ("ß", "ü")] {
        assert_eq!(license_key(h, n), reference_key(h, n));
    }
}

#[test]
fn generated_key_verifies() {
    let key = license_key("76a18eaf2de8", "Studio");
    assert_eq!(key.len(), 16);
    assert!(verify_license_static("76A18EAF2DE8", "Studio", &key));
    assert!(verify_license_static(" 76a18eaf2de8 ", "  Studio\t", &format!("  {}\n", key)));
    assert!(verify_license_static("\u{3000}76a18eaf2de8\u{85}", "Studio", &format!("\u{2003}{}", key)));
}

#[test]
fn wrong_or_empty_keys_fail() {
    let key = license_key("ABC", "Name");
    assert!(!verify_license_static("ABC", "", &key));
    assert!(!verify_license_static("ABC", "Name", ""));
    assert!(!verify_license_static("ABD", "Name", &key));
    assert!(!verify_license_static("ABC", "Name", &key.to_lowercase()));
}

#[test]
fn keygen_result() {
    assert_eq!(generate_license_key("", "x"), Err(KeygenError::EmptyField));
    assert_eq!(generate_license_key("x", ""), Err(KeygenError::EmptyField));
    assert_eq!(generate_license_key("hw", "n"), Ok(reference_key("hw", "n")));
}

#[test]
fn hwid_from_machine_id() {
    assert_eq!(generate_hwid(Some("0123456789abcdef0123456789abcdef")), reference_hwid("0123456789abcdef0123456789abcdef"));
    assert_eq!(generate_hwid(None), reference_hwid("UNKNOWN"));
    assert_eq!(generate_hwid(None).len(), 12);
}

#[test]
fn keygen_messages() {
    assert_eq!(keygen_message("", "n"), "ERRORE: Campi vuoti!");
    assert_eq!(keygen_message(" hw ", "n"), reference_key("hw", "n"));
}

#[test]
fn keygen_message_is_upper_hex() {
    let m = keygen_message("ABC123", "Cliente");
    assert_eq!(m.len(), 16);
    assert!(m.chars().all(|c| c.is_ascii_digit() || ('A'..='F').contains(&c)));
    assert_eq!(m, reference_key("ABC123", "Cliente"));
}

#[test]
fn machine_id_case_and_space_ignored() {
    let key = license_key("ABC123", "Cliente");
    assert!(verify_license_static("ABC123", "Cliente", &key));
    assert!(verify_license_static(" abc123\n", " Cliente ", &format!("\t{} ", key)));
    assert_eq!(license_key("aBc123", "Cliente"), key);
    assert!(!verify_license_static("abc124", "Cliente", &key));
}
