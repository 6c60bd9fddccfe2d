use audio_bridge::vpnkey::{
    clamp_private_key, decode_key, derive_public_key, new_private_key, public_key_console_text,
    public_key_text, KeyError,
};
use base64::Engine;

fn b64(b: &[u8]) -> String {
    base64::engine::general_purpose::STANDARD.encode(b)
}

#[test]
fn public_key_of_known_private_key() {
    let secret = [7u8; 32];
    let expected = {
        let s = boringtun::x25519::StaticSecret::from(secret);
        b64(boringtun::x25519::PublicKey::from(&s).as_bytes())
    };
    let got = derive_public_key(&b64(&secret)).unwrap();
    assert_eq!(got, expected);
    assert_ne!(got, b64(&secret));
    assert_eq!(derive_public_key(&format!("  {} ", b64(&secret))).unwrap(), expected);
}

#[test]
fn public_key_errors() {
    assert_eq!(derive_public_key(""), Err(KeyError::NotSet));
    assert_eq!(derive_public_key("not base64!"), Err(KeyError::InvalidBase64));
    assert_eq!(derive_public_key(&b64(&[1u8; 16])), Err(KeyError::WrongLength));
    assert_eq!(public_key_text(""), "Chiave privata non impostata...");
    assert_eq!(public_key_text("@@@@"), "Chiave privata non in formato Base64 valido...");
    assert_eq!(public_key_text(&b64(&[1u8; 31])), "Chiave privata non valida (lunghezza errata)...");
    assert_eq!(public_key_console_text(""), "Nessuna");
    assert_eq!(public_key_console_text("@@@@"), "Errore: Base64 non valido");
    assert_eq!(public_key_console_text(&b64(&[1u8; 33])), "Errore: Chiave privata corrotta");
}

#[test]
fn clamping() {
    let mut b = vec![0xffu8; 32];
    clamp_private_key(&mut b);
    assert_eq!(b[0], 0xf8);
    assert_eq!(b[31], 0x7f);
    let mut z = vec![0u8; 32];
    clamp_private_key(&mut z);
    assert_eq!(z[31], 0x40);
    assert_eq!(z[0], 0);
}

#[test]
fn new_keys_are_clamped_and_decodable() {
    for _ in 0..8 {
        let k = new_private_key();
        assert_eq!(k.len(), 44);
        let b = decode_key(&k).unwrap();
        assert_eq!(b.len(), 32);
        assert_eq!(b[0] & 7, 0);
        assert_eq!(b[31] & 0x80, 0);
        assert_eq!(b[31] & 0x40, 0x40);
        assert!(derive_public_key(&k).is_ok());
    }
}

#[test]
fn decode_key_cases() {
    assert_eq!(decode_key(&b64(&[3u8; 32])), Some(vec![3u8; 32]));
    assert_eq!(decode_key(&format!("\t{}\n", b64(&[3u8; 32]))), Some(vec![3u8; 32]));
    assert_eq!(decode_key(&b64(&[3u8; 30])), None);
    assert_eq!(decode_key("####"), None);
}

#[test]
fn shown_public_key_is_44_characters() {
    let k = b64(&[3u8; 32]);
    let shown = public_key_text(&k);
    assert_eq!(shown.len(), 44);
    assert!(shown.ends_with('='));
    assert_eq!(public_key_console_text(&k), shown);
    assert_eq!(derive_public_key(&k).unwrap().len(), 44);
}

#[test]
fn only_canonical_base64_reads() {
    let canonical = b64(&[0u8; 32]);
    assert_eq!(canonical, "AAAAAAAAAAAAAAAAAAAAAAAAAAAAAAAAAAAAAAAAAAA=");
    assert_eq!(decode_key(&canonical), Some(vec![0u8; 32]));
    let trailing_bits = "AAAAAAAAAAAAAAAAAAAAAAAAAAAAAAAAAAAAAAAAAAB=";
    assert_eq!(decode_key(trailing_bits), None);
    assert_eq!(derive_public_key(trailing_bits), Err(KeyError::InvalidBase64));
    assert_eq!(derive_public_key("AAAAAAAAAAAAAAAAAAAAAAAAAAAAAAAAAAAAAAAAAAA"), Err(KeyError::InvalidBase64));
}
