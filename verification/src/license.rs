//! Hardware identifiers and license keys, both derived from SHA-256.

use vstd::prelude::*;
use vstd::utf8::encode_utf8;
use sha2::Digest;
use crate::text::{
    all_white_space, ascii_lower_text, ascii_upper_text, is_ascii_text, is_white_space,
    lemma_trim_ascii_lower, lemma_trim_padded, push_char,
    lemma_trim_unchanged, str_to_uppercase, str_trim, trim_spec, upper_text,
};

verus! {

/// The secret that every license key is salted with.
pub const LICENSE_SALT: &'static str = "MmcyS5isfQKEdMPnn3F6N1n4tFLbtjPjPvip6spNjg";

/// The machine identifier used when the machine's own cannot be read.
pub const UNKNOWN_MACHINE: &'static str = "UNKNOWN";

/// Number of digest bytes whose hex digits form a license key (16 digits).
pub const KEY_BYTES: usize = 8;

/// Number of digest bytes whose hex digits form a hardware id (12 digits).
pub const HWID_BYTES: usize = 6;

/// The SHA-256 digest of `data`, as the `sha2` crate computes it.
pub uninterp spec fn spec_sha256(data: Seq<u8>) -> Seq<u8>;

/// Calls `Digest::digest` of `sha2::Sha256` on `data`. The digest is named,
/// not stated; that it is 32 bytes long is the output size that the type
/// declares.
#[verifier::external_body]
fn sha256(data: &[u8]) -> (r: Vec<u8>)
    ensures
        r@ == spec_sha256(data@),
        r@.len() == 32,
{
    sha2::Sha256::digest(data).to_vec()
}

/// The upper-case hex digit of a value below sixteen.
pub open spec fn hex_digit(v: u8) -> char
    recommends
        v < 16,
{
    if v < 10 {
        (('0' as u8) + v) as char
    } else {
        (('A' as u8) + v - 10) as char
    }
}

/// Whether `c` is a digit of upper-case hex text: `0` to `9` or `A` to
/// `F`.
pub open spec fn is_upper_hex_digit(c: char) -> bool {
    ('0' <= c && c <= '9') || ('A' <= c && c <= 'F')
}

/// The upper-case hex text of `b`, two digits per byte, high nibble first.
pub open spec fn hex_upper(b: Seq<u8>) -> Seq<char>
    decreases b.len(),
{
    if b.len() == 0 {
        seq![]
    } else {
        hex_upper(b.drop_last()) + seq![hex_digit(b.last() >> 4u8), hex_digit(b.last() & 15u8)]
    }
}

/// The bytes that are hashed for the license of `name` on machine `hwid`:
/// the trimmed, upper-cased machine id, the trimmed name, then the salt.
pub open spec fn license_input(hwid: Seq<char>, name: Seq<char>) -> Seq<u8> {
    encode_utf8(upper_text(trim_spec(hwid))) + encode_utf8(trim_spec(name)) + encode_utf8(
        LICENSE_SALT@,
    )
}

/// The license key of `name` on machine `hwid`: the first sixteen
/// upper-case hex digits of the digest of `license_input`.
pub open spec fn license_key_spec(hwid: Seq<char>, name: Seq<char>) -> Seq<char> {
    hex_upper(spec_sha256(license_input(hwid, name)).take(KEY_BYTES as int))
}

/// Whether `key` is accepted as the license of `name` on machine `hwid`:
/// name and key are not empty and the trimmed key is the license key.
pub open spec fn license_valid(hwid: Seq<char>, name: Seq<char>, key: Seq<char>) -> bool {
    name.len() > 0 && key.len() > 0 && trim_spec(key) == license_key_spec(hwid, name)
}

/// The hardware id of a machine whose own identifier is `uid`: the first
/// twelve upper-case hex digits of the digest of `uid`.
pub open spec fn hwid_spec(uid: Seq<char>) -> Seq<char> {
    hex_upper(spec_sha256(encode_utf8(uid)).take(HWID_BYTES as int))
}

/// The upper-case hex digit of a value below sixteen.
fn hex_char(v: u8) -> (c: char)
    requires
        v < 16,
    ensures
        c == hex_digit(v),
{
    if v < 10 {
        (48u8 + v) as char
    } else {
        (55u8 + v) as char
    }
}

/// The upper-case hex text of the first `n` bytes of `b`.
fn hex_upper_prefix(b: &[u8], n: usize) -> (r: String)
    requires
        n <= b@.len(),
    ensures
        r@ == hex_upper(b@.take(n as int)),
{
    let mut out = String::new();
    let mut i: usize = 0;
    while i < n
        invariant
            i <= n <= b@.len(),
            out@ == hex_upper(b@.take(i as int)),
        decreases n - i,
    {
        let x = b[i];
        assert((x >> 4u8) < 16 && (x & 15u8) < 16) by (bit_vector);
        push_char(&mut out, hex_char(x >> 4u8));
        push_char(&mut out, hex_char(x & 15u8));
        assert(b@.take(i + 1).drop_last() =~= b@.take(i as int));
        assert(b@.take(i + 1).last() == x);
        i = i + 1;
    }
    out
}

/// The license key of `name` on machine `hwid`, as the key generators and
/// the license check compute it.
pub fn license_key(hwid: &str, name: &str) -> (r: String)
    ensures
        r@ == license_key_spec(hwid@, name@),
        r@ == hex_upper(
            spec_sha256(
                encode_utf8(upper_text(trim_spec(hwid@))) + encode_utf8(trim_spec(name@))
                    + encode_utf8(LICENSE_SALT@),
            ).take(8),
        ),
        r@.len() == 2 * KEY_BYTES,
        forall|i: int| 0 <= i < r@.len() ==> is_upper_hex_digit(#[trigger] r@[i]),
{
    let up = str_to_uppercase(str_trim(hwid));
    let mut data = up.as_str().as_bytes_vec();
    let mut nb = str_trim(name).as_bytes_vec();
    let mut salt = LICENSE_SALT.as_bytes_vec();
    data.append(&mut nb);
    data.append(&mut salt);
    let digest = sha256(data.as_slice());
    let r = hex_upper_prefix(digest.as_slice(), KEY_BYTES);
    proof {
        lemma_hex_upper_shape(digest@.take(KEY_BYTES as int));
    }
    r
}

/// Whether `key` is the license of `name` on machine `hwid`; an empty name
/// or key is never accepted, and white space around the key is ignored.
pub fn verify_license_static(hwid: &str, name: &str, key: &str) -> (r: bool)
    ensures
        r == license_valid(hwid@, name@, key@),
        r == (name@.len() > 0 && key@.len() > 0 && trim_spec(key@) == hex_upper(
            spec_sha256(
                encode_utf8(upper_text(trim_spec(hwid@))) + encode_utf8(trim_spec(name@))
                    + encode_utf8(LICENSE_SALT@),
            ).take(8),
        )),
        r ==> trim_spec(key@).len() == 16,
{
    if name.unicode_len() == 0 || key.unicode_len() == 0 {
        return false;
    }
    let expected = license_key(hwid, name);
    let k = str_trim(key);
    let kc = crate::text::str_chars(k);
    let ec = crate::text::str_chars(expected.as_str());
    let eq = crate::text::chars_eq(kc.as_slice(), ec.as_slice());
    eq
}

/// Why a license key could not be generated.
#[derive(Debug, PartialEq, Eq, Clone, Copy)]
pub enum KeygenError {
    /// The machine id or the customer name is empty.
    EmptyField,
}

/// The key that the license generator shows for `hwid` and `name`: an
/// error when either is empty, else the license key.
pub fn generate_license_key(hwid: &str, name: &str) -> (r: Result<String, KeygenError>)
    ensures
        hwid@.len() == 0 || name@.len() == 0 <==> r is Err,
        r matches Ok(k) ==> k@ == license_key_spec(hwid@, name@),
        r matches Ok(k) ==> k@.len() == 2 * KEY_BYTES && forall|i: int|
            0 <= i < k@.len() ==> is_upper_hex_digit(#[trigger] k@[i]),
{
    if hwid.unicode_len() == 0 || name.unicode_len() == 0 {
        return Err(KeygenError::EmptyField);
    }
    Ok(license_key(hwid, name))
}

/// What the license generator shows after the user asks for a key: the
/// key, or the error for an empty field.
pub fn keygen_message(hwid: &str, name: &str) -> (r: String)
    ensures
        r@ == if hwid@.len() == 0 || name@.len() == 0 {
            "ERRORE: Campi vuoti!"@
        } else {
            license_key_spec(hwid@, name@)
        },
        hwid@.len() > 0 && name@.len() > 0 ==> r@.len() == 2 * KEY_BYTES && forall|i: int|
            0 <= i < r@.len() ==> is_upper_hex_digit(#[trigger] r@[i]),
{
    match generate_license_key(hwid, name) {
        Ok(k) => k,
        Err(_) => String::from_str("ERRORE: Campi vuoti!"),
    }
}

/// The hardware id of this machine, given the identifier that the system
/// reports for it, or `None` when it could not be read.
pub fn generate_hwid(machine_uid: Option<&str>) -> (r: String)
    ensures
        r@ == hwid_spec(
            match machine_uid {
                Some(u) => u@,
                None => UNKNOWN_MACHINE@,
            },
        ),
        r@ == hex_upper(
            spec_sha256(
                encode_utf8(
                    match machine_uid {
                        Some(u) => u@,
                        None => UNKNOWN_MACHINE@,
                    },
                ),
            ).take(6),
        ),
        r@.len() == 2 * HWID_BYTES,
        forall|i: int| 0 <= i < r@.len() ==> is_upper_hex_digit(#[trigger] r@[i]),
{
    let uid = match machine_uid {
        Some(u) => u,
        None => UNKNOWN_MACHINE,
    };
    let digest = sha256(uid.as_bytes_vec().as_slice());
    let r = hex_upper_prefix(digest.as_slice(), HWID_BYTES);
    proof {
        lemma_hex_upper_shape(digest@.take(HWID_BYTES as int));
    }
    r
}

/// The hex text of `n` bytes has `2 * n` characters, each an upper-case
/// hex digit and none of them white space.
proof fn lemma_hex_upper_shape(b: Seq<u8>)
    ensures
        hex_upper(b).len() == 2 * b.len(),
        forall|i: int| 0 <= i < hex_upper(b).len() ==> !is_white_space(#[trigger] hex_upper(b)[i]),
        forall|i: int| 0 <= i < hex_upper(b).len() ==> is_upper_hex_digit(#[trigger] hex_upper(b)[i]),
    decreases b.len(),
{
    if b.len() > 0 {
        lemma_hex_upper_shape(b.drop_last());
        let x = b.last();
        assert((x >> 4u8) < 16 && (x & 15u8) < 16) by (bit_vector);
        let h = hex_upper(b);
        let p = hex_upper(b.drop_last());
        assert forall|i: int| 0 <= i < h.len() implies !is_white_space(#[trigger] h[i])
            && is_upper_hex_digit(h[i]) by {
            if i < p.len() {
                assert(h[i] == p[i]);
            }
        }
    }
}

/// A license key made for `name` on machine `hwid` (what `license_key`
/// returns: the key text, sixteen digits long) is accepted by the license
/// check for the same `name` and `hwid`, whenever the name is not empty.
pub proof fn lemma_generated_key_verifies(hwid: Seq<char>, name: Seq<char>, key: Seq<char>)
    requires
        name.len() > 0,
        key == license_key_spec(hwid, name),
        key.len() == 2 * KEY_BYTES,
    ensures
        license_valid(hwid, name, key),
{
    let digest = spec_sha256(license_input(hwid, name));
    let k = key;
    lemma_hex_upper_shape(digest.take(KEY_BYTES as int));
    if k.len() > 0 {
        assert(!is_white_space(k[0]));
        assert(!is_white_space(k[k.len() - 1]));
    }
    lemma_trim_unchanged(k);
}

/// The license check ignores the letter case of an ASCII machine id and
/// the white space around the machine id, the name and the key: machine ids
/// whose trimmed texts are ASCII and agree once capitalised, names that
/// agree once trimmed and keys that agree once trimmed are judged alike,
/// whenever names and keys are not empty.
pub proof fn lemma_license_ignores_case_and_space(
    h1: Seq<char>,
    h2: Seq<char>,
    n1: Seq<char>,
    n2: Seq<char>,
    k1: Seq<char>,
    k2: Seq<char>,
)
    requires
        is_ascii_text(trim_spec(h1)),
        is_ascii_text(trim_spec(h2)),
        ascii_upper_text(trim_spec(h1)) == ascii_upper_text(trim_spec(h2)),
        trim_spec(n1) == trim_spec(n2),
        trim_spec(k1) == trim_spec(k2),
        n1.len() > 0,
        n2.len() > 0,
        k1.len() > 0,
        k2.len() > 0,
    ensures
        license_valid(h1, n1, k1) == license_valid(h2, n2, k2),
{
    assert(license_input(h1, n1) == license_input(h2, n2));
}

/// Capitalising the lower-cased form of ASCII text gives what capitalising
/// the text gives, and the lower-cased form is ASCII too.
pub proof fn lemma_ascii_upper_of_lower(s: Seq<char>)
    requires
        is_ascii_text(s),
    ensures
        is_ascii_text(ascii_lower_text(s)),
        ascii_upper_text(ascii_lower_text(s)) == ascii_upper_text(s),
{
    let l = ascii_lower_text(s);
    assert forall|i: int| 0 <= i < l.len() implies (#[trigger] l[i] as u32) < 128 by {
        assert(l[i] == crate::text::ascii_lower_char(s[i]));
        assert((s[i] as u32) < 128);
    }
    assert forall|i: int| 0 <= i < s.len() implies #[trigger] ascii_upper_text(l)[i]
        == ascii_upper_text(s)[i] by {
        assert(l[i] == crate::text::ascii_lower_char(s[i]));
    }
    assert(ascii_upper_text(l) =~= ascii_upper_text(s));
}

/// For an ASCII machine id `h`, writing the id in lower case and putting
/// white space around the id, the name and the key change nothing the
/// license check decides, whenever name and key are not empty.
pub proof fn lemma_license_padded_lowercase(
    h: Seq<char>,
    n: Seq<char>,
    k: Seq<char>,
    pads: Seq<Seq<char>>,
)
    requires
        is_ascii_text(h),
        n.len() > 0,
        k.len() > 0,
        pads.len() == 6,
        forall|i: int| 0 <= i < 6 ==> all_white_space(#[trigger] pads[i]),
    ensures
        license_valid(h, n, k) == license_valid(
            pads[0] + ascii_lower_text(h) + pads[1],
            pads[2] + n + pads[3],
            pads[4] + k + pads[5],
        ),
{
    let h2 = pads[0] + ascii_lower_text(h) + pads[1];
    let n2 = pads[2] + n + pads[3];
    let k2 = pads[4] + k + pads[5];
    assert(all_white_space(pads[0]) && all_white_space(pads[1]) && all_white_space(pads[2])
        && all_white_space(pads[3]) && all_white_space(pads[4]) && all_white_space(pads[5]));
    lemma_trim_padded(pads[0], ascii_lower_text(h), pads[1]);
    lemma_trim_padded(pads[2], n, pads[3]);
    lemma_trim_padded(pads[4], k, pads[5]);
    lemma_trim_ascii_lower(h);
    let t = trim_spec(h);
    lemma_ascii_upper_of_lower(t);
    assert(n2.len() > 0 && k2.len() > 0);
    lemma_license_ignores_case_and_space(h, h2, n, n2, k, k2);
}

/// The value of an upper-case hex digit.
pub open spec fn hex_value(c: char) -> int {
    if '0' <= c && c <= '9' {
        c as int - '0' as int
    } else {
        c as int - 'A' as int + 10
    }
}

/// Hex text gives back its bytes: each byte is written as two upper-case
/// hex digits, high digit first, whose values make up the byte, and the
/// text has two digits per byte.
pub proof fn lemma_hex_digits_give_bytes(b: Seq<u8>)
    ensures
        hex_upper(b).len() == 2 * b.len(),
        forall|i: int|
            0 <= i < b.len() ==> is_upper_hex_digit(#[trigger] hex_upper(b)[2 * i]) && is_upper_hex_digit(
                hex_upper(b)[2 * i + 1],
            ) && hex_value(hex_upper(b)[2 * i]) * 16 + hex_value(hex_upper(b)[2 * i + 1]) == b[i],
    decreases b.len(),
{
    lemma_hex_upper_shape(b);
    if b.len() > 0 {
        let d = b.drop_last();
        lemma_hex_digits_give_bytes(d);
        let h = hex_upper(b);
        let x = b.last();
        assert((x >> 4u8) < 16 && (x & 15u8) < 16 && (x >> 4u8) * 16 + (x & 15u8) == x) by (bit_vector);
        assert forall|i: int| 0 <= i < b.len() implies is_upper_hex_digit(#[trigger] h[2 * i])
            && is_upper_hex_digit(h[2 * i + 1]) && hex_value(h[2 * i]) * 16 + hex_value(h[2 * i + 1])
            == b[i] by {
            if i < d.len() {
                assert(h[2 * i] == hex_upper(d)[2 * i]);
                assert(h[2 * i + 1] == hex_upper(d)[2 * i + 1]);
                assert(b[i] == d[i]);
            } else {
                assert(i == d.len());
                assert(h[2 * i] == hex_digit(x >> 4u8));
                assert(h[2 * i + 1] == hex_digit(x & 15u8));
            }
        }
    }
}

/// A key is accepted only when, white space around it removed, it is the
/// whole license key: the sixteen upper-case hex digits of the first eight
/// bytes of the SHA-256 digest of the trimmed, capitalised machine id, the
/// trimmed name and the salt. As a SHA-256 digest has 32 bytes, that is
/// sixteen characters, and a shorter key, a prefix of the license key among
/// them, is never accepted.
pub proof fn lemma_license_key_exact(hwid: Seq<char>, name: Seq<char>, key: Seq<char>)
    ensures
        license_valid(hwid, name, key) ==> trim_spec(key) == hex_upper(
            spec_sha256(
                encode_utf8(upper_text(trim_spec(hwid))) + encode_utf8(trim_spec(name))
                    + encode_utf8(LICENSE_SALT@),
            ).take(8),
        ),
        spec_sha256(license_input(hwid, name)).len() == 32 && license_valid(hwid, name, key)
            ==> trim_spec(key).len() == 16,
        spec_sha256(license_input(hwid, name)).len() == 32 && trim_spec(key).len() != 16
            ==> !license_valid(hwid, name, key),
        license_valid(hwid, name, key) <==> name.len() > 0 && key.len() > 0 && trim_spec(key)
            == license_key_spec(hwid, name),
{
    lemma_hex_upper_shape(spec_sha256(license_input(hwid, name)).take(8));
    if spec_sha256(license_input(hwid, name)).len() >= 8 {
        assert(spec_sha256(license_input(hwid, name)).take(8).len() == 8);
    }
}

/// The hardware id is taken from the whole machine identifier: it is the
/// first twelve upper-case hex digits of the SHA-256 digest of all of the
/// identifier's UTF-8 bytes, so identifiers whose bytes hash alike give the
/// same id, and each digit pair is a byte of that digest.
pub proof fn lemma_hwid_whole_id(u: Seq<char>, w: Seq<char>)
    ensures
        hwid_spec(u) == hex_upper(spec_sha256(encode_utf8(u)).take(6)),
        spec_sha256(encode_utf8(u)).len() >= 6 ==> hwid_spec(u).len() == 12 && forall|i: int|
            0 <= i < 6 ==> hex_value(#[trigger] hwid_spec(u)[2 * i]) * 16 + hex_value(
                hwid_spec(u)[2 * i + 1],
            ) == spec_sha256(encode_utf8(u))[i],
        spec_sha256(encode_utf8(u)) == spec_sha256(encode_utf8(w)) ==> hwid_spec(u) == hwid_spec(w),
{
    let dg = spec_sha256(encode_utf8(u)).take(6);
    lemma_hex_digits_give_bytes(dg);
    if spec_sha256(encode_utf8(u)).len() >= 6 {
        assert forall|i: int| 0 <= i < 6 implies hex_value(#[trigger] hwid_spec(u)[2 * i]) * 16
            + hex_value(hwid_spec(u)[2 * i + 1]) == spec_sha256(encode_utf8(u))[i] by {
            assert(dg[i] == spec_sha256(encode_utf8(u))[i]);
        }
    }
}

} // verus!
