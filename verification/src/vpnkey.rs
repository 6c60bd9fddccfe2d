//! WireGuard identity handling: base64 key text, key clamping and the
//! public key that belongs to a private key.

use vstd::prelude::*;
use base64::Engine;
use crate::text::{is_white_space, lemma_trim_unchanged, str_trim, trim_spec};

verus! {

/// Length in bytes of an X25519 key.
pub const KEY_LEN: usize = 32;

/// The character of the standard base64 alphabet for a value below 64.
pub open spec fn b64_char(v: u8) -> char
    recommends
        v < 64,
{
    if v < 26 {
        (65 + v) as char
    } else if v < 52 {
        (97 + (v - 26)) as char
    } else if v < 62 {
        (48 + (v - 52)) as char
    } else if v == 62 {
        '+'
    } else {
        '/'
    }
}

/// The standard base64 text of `b`, padded with `=` to a multiple of four
/// characters.
pub open spec fn b64_encode_spec(b: Seq<u8>) -> Seq<char>
    decreases b.len(),
{
    if b.len() == 0 {
        seq![]
    } else if b.len() == 1 {
        seq![b64_char(b[0] >> 2u8), b64_char((b[0] & 3u8) << 4u8), '=', '=']
    } else if b.len() == 2 {
        seq![
            b64_char(b[0] >> 2u8),
            b64_char(((b[0] & 3u8) << 4u8) | (b[1] >> 4u8)),
            b64_char((b[1] & 15u8) << 2u8),
            '=',
        ]
    } else {
        seq![
            b64_char(b[0] >> 2u8),
            b64_char(((b[0] & 3u8) << 4u8) | (b[1] >> 4u8)),
            b64_char(((b[1] & 15u8) << 2u8) | (b[2] >> 6u8)),
            b64_char(b[2] & 63u8),
        ] + b64_encode_spec(b.skip(3))
    }
}

/// The bytes whose standard base64 text is `s`, or `None` when `s` is the
/// text of no bytes.
pub open spec fn b64_decode_spec(s: Seq<char>) -> Option<Seq<u8>> {
    if exists|b: Seq<u8>| #[trigger] b64_encode_spec(b) == s {
        Some(choose|b: Seq<u8>| #[trigger] b64_encode_spec(b) == s)
    } else {
        None
    }
}

/// No character of the standard alphabet is the padding `=`, and two
/// values below 64 with the same character are equal.
proof fn lemma_b64_char_distinct(u: u8, v: u8)
    requires
        u < 64,
        v < 64,
    ensures
        b64_char(u) != '=',
        b64_char(u) == b64_char(v) ==> u == v,
{
}

/// Different bytes have different standard base64 texts.
pub proof fn lemma_b64_injective(b1: Seq<u8>, b2: Seq<u8>)
    requires
        b64_encode_spec(b1) == b64_encode_spec(b2),
    ensures
        b1 == b2,
    decreases b1.len(),
{
    let e = b64_encode_spec(b1);
    lemma_b64_encode_len(b1);
    lemma_b64_encode_len(b2);
    if b1.len() == 0 || b2.len() == 0 {
        assert(b1 =~= b2);
        return;
    }
    let (x1, x2) = (b1[0], b2[0]);
    assert((x1 >> 2u8) < 64 && ((x1 & 3u8) << 4u8) < 64) by (bit_vector);
    assert((x2 >> 2u8) < 64 && ((x2 & 3u8) << 4u8) < 64) by (bit_vector);
    if b1.len() >= 2 {
        let y1 = b1[1];
        assert((((x1 & 3u8) << 4u8) | (y1 >> 4u8)) < 64 && ((y1 & 15u8) << 2u8) < 64) by (bit_vector);
    }
    if b2.len() >= 2 {
        let y2 = b2[1];
        assert((((x2 & 3u8) << 4u8) | (y2 >> 4u8)) < 64 && ((y2 & 15u8) << 2u8) < 64) by (bit_vector);
    }
    if b1.len() >= 3 {
        let (y1, z1) = (b1[1], b1[2]);
        assert((((y1 & 15u8) << 2u8) | (z1 >> 6u8)) < 64 && (z1 & 63u8) < 64) by (bit_vector);
    }
    if b2.len() >= 3 {
        let (y2, z2) = (b2[1], b2[2]);
        assert((((y2 & 15u8) << 2u8) | (z2 >> 6u8)) < 64 && (z2 & 63u8) < 64) by (bit_vector);
    }
    if b1.len() == 1 {
        lemma_b64_char_distinct(x1 >> 2u8, x2 >> 2u8);
        lemma_b64_char_distinct((x1 & 3u8) << 4u8, (x2 & 3u8) << 4u8);
        if b2.len() >= 2 {
            let y2 = b2[1];
            lemma_b64_char_distinct(((x2 & 3u8) << 4u8) | (y2 >> 4u8), 0);
            lemma_b64_char_distinct((y2 & 15u8) << 2u8, 0);
            if b2.len() >= 3 {
                let z2 = b2[2];
                lemma_b64_char_distinct(((y2 & 15u8) << 2u8) | (z2 >> 6u8), 0);
            }
        }
        assert(b2.len() == 1);
        assert(x1 >> 2u8 == x2 >> 2u8 && (x1 & 3u8) << 4u8 == (x2 & 3u8) << 4u8 ==> x1 == x2)
            by (bit_vector);
        assert(b1 =~= b2);
    } else if b1.len() == 2 {
        let y1 = b1[1];
        lemma_b64_char_distinct(((x1 & 3u8) << 4u8) | (y1 >> 4u8), 0);
        lemma_b64_char_distinct((y1 & 15u8) << 2u8, 0);
        if b2.len() == 1 {
            assert(false);
        }
        let y2 = b2[1];
        if b2.len() >= 3 {
            let z2 = b2[2];
            lemma_b64_char_distinct(z2 & 63u8, 0);
            assert(false);
        }
        lemma_b64_char_distinct(x1 >> 2u8, x2 >> 2u8);
        lemma_b64_char_distinct(((x1 & 3u8) << 4u8) | (y1 >> 4u8), ((x2 & 3u8) << 4u8) | (y2 >> 4u8));
        lemma_b64_char_distinct((y1 & 15u8) << 2u8, (y2 & 15u8) << 2u8);
        assert(x1 >> 2u8 == x2 >> 2u8 && ((x1 & 3u8) << 4u8) | (y1 >> 4u8) == ((x2 & 3u8) << 4u8)
            | (y2 >> 4u8) && (y1 & 15u8) << 2u8 == (y2 & 15u8) << 2u8 ==> x1 == x2 && y1 == y2)
            by (bit_vector);
        assert(b1 =~= b2);
    } else {
        let (y1, z1) = (b1[1], b1[2]);
        lemma_b64_char_distinct(((y1 & 15u8) << 2u8) | (z1 >> 6u8), 0);
        lemma_b64_char_distinct(z1 & 63u8, 0);
        if b2.len() == 1 {
            assert(false);
        }
        let y2 = b2[1];
        lemma_b64_char_distinct((y2 & 15u8) << 2u8, 0);
        if b2.len() == 2 {
            assert(false);
        }
        let z2 = b2[2];
        lemma_b64_char_distinct(x1 >> 2u8, x2 >> 2u8);
        lemma_b64_char_distinct(((x1 & 3u8) << 4u8) | (y1 >> 4u8), ((x2 & 3u8) << 4u8) | (y2 >> 4u8));
        lemma_b64_char_distinct(((y1 & 15u8) << 2u8) | (z1 >> 6u8), ((y2 & 15u8) << 2u8) | (z2 >> 6u8));
        lemma_b64_char_distinct(z1 & 63u8, z2 & 63u8);
        assert(x1 >> 2u8 == x2 >> 2u8 && ((x1 & 3u8) << 4u8) | (y1 >> 4u8) == ((x2 & 3u8) << 4u8)
            | (y2 >> 4u8) && ((y1 & 15u8) << 2u8) | (z1 >> 6u8) == ((y2 & 15u8) << 2u8) | (z2
            >> 6u8) && z1 & 63u8 == z2 & 63u8 ==> x1 == x2 && y1 == y2 && z1 == z2) by (bit_vector);
        let f = b64_encode_spec(b2);
        assert(e[0] == b64_char(x1 >> 2u8) && f[0] == b64_char(x2 >> 2u8));
        assert(e[1] == b64_char(((x1 & 3u8) << 4u8) | (y1 >> 4u8)) && f[1] == b64_char(
            ((x2 & 3u8) << 4u8) | (y2 >> 4u8),
        ));
        assert(e[2] == b64_char(((y1 & 15u8) << 2u8) | (z1 >> 6u8)) && f[2] == b64_char(
            ((y2 & 15u8) << 2u8) | (z2 >> 6u8),
        ));
        assert(e[3] == b64_char(z1 & 63u8) && f[3] == b64_char(z2 & 63u8));
        assert(x1 == x2 && y1 == y2 && z1 == z2);
        let t1 = b64_encode_spec(b1.skip(3));
        let t2 = b64_encode_spec(b2.skip(3));
        assert(e.subrange(4, e.len() as int) =~= t1);
        assert(b64_encode_spec(b2).subrange(4, e.len() as int) =~= t2);
        lemma_b64_injective(b1.skip(3), b2.skip(3));
        assert(b1 =~= b1.take(3) + b1.skip(3));
        assert(b2 =~= b2.take(3) + b2.skip(3));
        assert(b1.take(3) =~= b2.take(3));
    }
}

/// Decoding the standard base64 text of `b` gives `b`.
pub proof fn lemma_b64_decode_encode(b: Seq<u8>)
    ensures
        b64_decode_spec(b64_encode_spec(b)) == Some(b),
{
    let s = b64_encode_spec(b);
    assert(exists|c: Seq<u8>| #[trigger] b64_encode_spec(c) == s);
    let c = choose|c: Seq<u8>| #[trigger] b64_encode_spec(c) == s;
    lemma_b64_injective(c, b);
}

/// The public X25519 key of the private key `secret`, as `x25519-dalek`
/// (re-exported by `boringtun`) computes it.
pub uninterp spec fn spec_x25519_public(secret: Seq<u8>) -> Seq<u8>;

/// Calls `Engine::encode` of `base64::engine::general_purpose::STANDARD`:
/// the standard alphabet with `=` padding.
#[verifier::external_body]
fn b64_encode(b: &[u8]) -> (r: String)
    ensures
        r@ == b64_encode_spec(b@),
{
    base64::engine::general_purpose::STANDARD.encode(b)
}

/// The decoding error of the `base64` crate.
#[verifier::external_type_specification]
#[verifier::external_body]
pub struct ExDecodeError(base64::DecodeError);

/// Calls `Engine::decode` of `base64::engine::general_purpose::STANDARD`.
/// That engine requires canonical padding and refuses trailing bits, so it
/// accepts exactly the texts that its encoding gives: it gives bytes whose
/// standard text is `s`, and refuses `s` when no bytes have that text.
#[verifier::external_body]
fn b64_decode(s: &str) -> (r: Result<Vec<u8>, base64::DecodeError>)
    ensures
        match r {
            Ok(v) => b64_encode_spec(v@) == s@,
            Err(_) => forall|b: Seq<u8>| #[trigger] b64_encode_spec(b) != s@,
        },
{
    base64::engine::general_purpose::STANDARD.decode(s)
}

/// The bytes whose standard base64 text is `s`, or `None` when there are
/// none.
fn decode_b64(s: &str) -> (r: Option<Vec<u8>>)
    ensures
        match r {
            Some(v) => b64_decode_spec(s@) == Some(v@),
            None => b64_decode_spec(s@) is None,
        },
{
    match b64_decode(s) {
        Ok(v) => {
            proof {
                lemma_b64_decode_encode(v@);
            }
            Some(v)
        },
        Err(_) => None,
    }
}

/// Calls `PublicKey::from(&StaticSecret)` of `boringtun::x25519` on the
/// private key made from the 32 bytes of `secret`; the public key is named,
/// and it is 32 bytes long.
#[verifier::external_body]
fn x25519_public_key(secret: &[u8]) -> (r: Vec<u8>)
    requires
        secret@.len() == KEY_LEN,
    ensures
        r@ == spec_x25519_public(secret@),
        r@.len() == KEY_LEN,
{
    let bytes: [u8; 32] = secret.try_into().unwrap();
    let s = boringtun::x25519::StaticSecret::from(bytes);
    boringtun::x25519::PublicKey::from(&s).to_bytes().to_vec()
}

/// Calls `RngCore::fill_bytes` on `rand::thread_rng()`; nothing is promised
/// of the 32 bytes but their number.
#[verifier::external_body]
fn random_key_bytes() -> (r: Vec<u8>)
    ensures
        r@.len() == KEY_LEN,
{
    let mut b = [0u8; 32];
    rand::RngCore::fill_bytes(&mut rand::thread_rng(), &mut b);
    b.to_vec()
}

/// The key bytes `b` clamped for X25519: the low three bits of the first
/// byte cleared, the top bit of the last byte cleared and the bit below it
/// set.
pub open spec fn clamp_spec(b: Seq<u8>) -> Seq<u8>
    recommends
        b.len() == KEY_LEN,
{
    b.update(0, b[0] & 248u8).update(31, (b[31] & 127u8) | 64u8)
}

/// Whether the key bytes `b` are clamped.
pub open spec fn is_clamped(b: Seq<u8>) -> bool {
    b.len() == KEY_LEN && b[0] & 7u8 == 0 && b[31] & 128u8 == 0 && b[31] & 64u8 == 64u8
}

/// Clamps the 32 key bytes in `b` for X25519.
pub fn clamp_private_key(b: &mut Vec<u8>)
    requires
        old(b)@.len() == KEY_LEN,
    ensures
        final(b)@ == clamp_spec(old(b)@),
{
    let first = b[0] & 248u8;
    b.set(0, first);
    let last = (b[31] & 127u8) | 64u8;
    b.set(31, last);
}

/// A clamped key is clamped, and clamping it again changes nothing.
pub proof fn lemma_clamp(b: Seq<u8>)
    requires
        b.len() == KEY_LEN,
    ensures
        is_clamped(clamp_spec(b)),
        clamp_spec(clamp_spec(b)) == clamp_spec(b),
{
    let x = b[0];
    let y = b[31];
    assert((x & 248u8) & 7u8 == 0 && (x & 248u8) & 248u8 == x & 248u8) by (bit_vector);
    assert(((y & 127u8) | 64u8) & 128u8 == 0 && ((y & 127u8) | 64u8) & 64u8 == 64u8 && ((((y
        & 127u8) | 64u8) & 127u8) | 64u8) == (y & 127u8) | 64u8) by (bit_vector);
    assert(clamp_spec(clamp_spec(b)) =~= clamp_spec(b));
}

/// No character of the standard base64 alphabet is white space.
proof fn lemma_b64_char_not_white(v: u8)
    requires
        v < 64,
    ensures
        !is_white_space(b64_char(v)),
{
}

/// Every character of a base64 text, `=` included, is not white space.
proof fn lemma_b64_no_white_space(b: Seq<u8>)
    ensures
        forall|i: int|
            0 <= i < b64_encode_spec(b).len() ==> !is_white_space(
                #[trigger] b64_encode_spec(b)[i],
            ),
    decreases b.len(),
{
    let e = b64_encode_spec(b);
    if b.len() > 0 {
        let x = b[0];
        assert((x >> 2u8) < 64 && ((x & 3u8) << 4u8) < 64) by (bit_vector);
        lemma_b64_char_not_white(x >> 2u8);
        lemma_b64_char_not_white((x & 3u8) << 4u8);
    }
    if b.len() > 1 {
        let (x, y) = (b[0], b[1]);
        assert((((x & 3u8) << 4u8) | (y >> 4u8)) < 64 && ((y & 15u8) << 2u8) < 64) by (bit_vector);
        lemma_b64_char_not_white(((x & 3u8) << 4u8) | (y >> 4u8));
        lemma_b64_char_not_white((y & 15u8) << 2u8);
    }
    if b.len() > 2 {
        let (y, z) = (b[1], b[2]);
        assert((((y & 15u8) << 2u8) | (z >> 6u8)) < 64 && (z & 63u8) < 64) by (bit_vector);
        lemma_b64_char_not_white(((y & 15u8) << 2u8) | (z >> 6u8));
        lemma_b64_char_not_white(z & 63u8);
        lemma_b64_no_white_space(b.skip(3));
        let t = b64_encode_spec(b.skip(3));
        assert forall|i: int| 0 <= i < e.len() implies !is_white_space(#[trigger] e[i]) by {
            if i >= 4 {
                assert(e[i] == t[i - 4]);
            }
        }
    }
}

/// Base64 text is four characters for every three bytes, the last group
/// padded.
pub proof fn lemma_b64_encode_len(b: Seq<u8>)
    ensures
        b64_encode_spec(b).len() == 4 * ((b.len() + 2) / 3),
    decreases b.len(),
{
    if b.len() > 2 {
        lemma_b64_encode_len(b.skip(3));
    }
}

/// What a key written as base64 text reads as: the decoded bytes of the
/// trimmed text when they are exactly 32, else `None`.
pub open spec fn decode_key_spec(text: Seq<char>) -> Option<Seq<u8>> {
    match b64_decode_spec(trim_spec(text)) {
        Some(v) => if v.len() == KEY_LEN {
            Some(v)
        } else {
            None
        },
        None => None,
    }
}

/// Reads a 32-byte key written as base64 text, white space around it
/// ignored.
pub fn decode_key(text: &str) -> (r: Option<Vec<u8>>)
    ensures
        match r {
            Some(v) => decode_key_spec(text@) == Some(v@),
            None => decode_key_spec(text@) is None,
        },
{
    match decode_b64(str_trim(text)) {
        Some(v) => if v.len() == KEY_LEN {
            Some(v)
        } else {
            None
        },
        None => None,
    }
}

/// Why no public key can be shown for a private key text.
#[derive(Debug, PartialEq, Eq, Clone, Copy)]
pub enum KeyError {
    /// The private key text is empty.
    NotSet,
    /// The trimmed text is not standard base64.
    InvalidBase64,
    /// The text decodes to a number of bytes other than 32.
    WrongLength,
}

/// The public key text that belongs to the private key written as
/// `private_key`, or why there is none.
pub open spec fn public_key_spec(private_key: Seq<char>) -> Result<Seq<char>, KeyError> {
    if private_key.len() == 0 {
        Err(KeyError::NotSet)
    } else {
        match b64_decode_spec(trim_spec(private_key)) {
            None => Err(KeyError::InvalidBase64),
            Some(v) => if v.len() != KEY_LEN {
                Err(KeyError::WrongLength)
            } else {
                Ok(b64_encode_spec(spec_x25519_public(v)))
            },
        }
    }
}

/// Derives the base64 public key of the private key written as
/// `private_key`.
pub fn derive_public_key(private_key: &str) -> (r: Result<String, KeyError>)
    ensures
        match r {
            Ok(s) => public_key_spec(private_key@) == Ok::<Seq<char>, KeyError>(s@),
            Err(e) => public_key_spec(private_key@) == Err::<Seq<char>, KeyError>(e),
        },
        r matches Ok(s) ==> s@.len() == 44,
{
    if private_key.unicode_len() == 0 {
        return Err(KeyError::NotSet);
    }
    match decode_b64(str_trim(private_key)) {
        None => Err(KeyError::InvalidBase64),
        Some(v) => {
            if v.len() != KEY_LEN {
                Err(KeyError::WrongLength)
            } else {
                let p = x25519_public_key(v.as_slice());
                proof {
                    lemma_b64_encode_len(p@);
                }
                Ok(b64_encode(p.as_slice()))
            }
        },
    }
}

/// The text that the VPN page shows in the public key box.
pub fn public_key_text(private_key: &str) -> (r: String)
    ensures
        r@ == match public_key_spec(private_key@) {
            Ok(s) => s,
            Err(KeyError::NotSet) => "Chiave privata non impostata..."@,
            Err(KeyError::InvalidBase64) => "Chiave privata non in formato Base64 valido..."@,
            Err(KeyError::WrongLength) => "Chiave privata non valida (lunghezza errata)..."@,
        },
        public_key_spec(private_key@) is Ok ==> r@.len() == 44,
{
    match derive_public_key(private_key) {
        Ok(s) => s,
        Err(KeyError::NotSet) => String::from_str("Chiave privata non impostata..."),
        Err(KeyError::InvalidBase64) => String::from_str(
            "Chiave privata non in formato Base64 valido...",
        ),
        Err(KeyError::WrongLength) => String::from_str(
            "Chiave privata non valida (lunghezza errata)...",
        ),
    }
}

/// The public key as the headless console reports it at start-up.
pub fn public_key_console_text(private_key: &str) -> (r: String)
    ensures
        r@ == match public_key_spec(private_key@) {
            Ok(s) => s,
            Err(KeyError::NotSet) => "Nessuna"@,
            Err(KeyError::InvalidBase64) => "Errore: Base64 non valido"@,
            Err(KeyError::WrongLength) => "Errore: Chiave privata corrotta"@,
        },
        public_key_spec(private_key@) is Ok ==> r@.len() == 44,
{
    match derive_public_key(private_key) {
        Ok(s) => s,
        Err(KeyError::NotSet) => String::from_str("Nessuna"),
        Err(KeyError::InvalidBase64) => String::from_str("Errore: Base64 non valido"),
        Err(KeyError::WrongLength) => String::from_str("Errore: Chiave privata corrotta"),
    }
}

/// Makes a fresh private key: 32 random bytes, clamped, written as base64.
/// Returns the text and, as ghost, the clamped bytes it encodes.
pub fn new_private_key() -> (r: String)
    ensures
        exists|b: Seq<u8>|
            #![trigger clamp_spec(b)]
            b.len() == KEY_LEN && r@ == b64_encode_spec(clamp_spec(b)) && decode_key_spec(r@)
                == Some(clamp_spec(b)),
{
    let mut b = random_key_bytes();
    let ghost raw = b@;
    clamp_private_key(&mut b);
    let r = b64_encode(b.as_slice());
    proof {
        lemma_b64_no_white_space(b@);
        let s = r@;
        if s.len() > 0 {
            assert(!is_white_space(s[0]));
            assert(!is_white_space(s[s.len() - 1]));
        }
        lemma_trim_unchanged(s);
        lemma_b64_decode_encode(b@);
        assert(decode_key_spec(r@) == Some(clamp_spec(raw)));
    }
    r
}

/// A key made by `new_private_key` reads back, through `decode_key`, as
/// clamped key bytes.
pub proof fn lemma_new_key_is_clamped(text: Seq<char>, b: Seq<u8>)
    requires
        b.len() == KEY_LEN,
        decode_key_spec(text) == Some(clamp_spec(b)),
    ensures
        decode_key_spec(text) matches Some(k) && is_clamped(k),
{
    lemma_clamp(b);
}

} // verus!
