//! The cryptographic primitives, each behind one function.
//!
//! The outside crates do the work. What is known of their results stands in the
//! contracts below and nowhere else.
use chacha20poly1305::aead::rand_core::RngCore;
use chacha20poly1305::aead::{Aead, KeyInit, OsRng};
use chacha20poly1305::{ChaCha20Poly1305, Nonce};
use hkdf::Hkdf;
use sha2::{Digest, Sha256};
use vstd::prelude::*;

verus! {

/// The number of bytes in a symmetric key.
pub const KEY_SIZE: usize = 32;

/// The number of bytes in a nonce.
pub const NONCE_SIZE: usize = 12;

/// The number of bytes in an authentication tag.
pub const TAG_SIZE: usize = 16;

/// What HKDF-SHA256 derives from a salt, key material and an info string, in
/// `length` bytes.
pub uninterp spec fn hkdf_sha256(
    salt: Seq<u8>,
    material: Seq<u8>,
    info: Seq<u8>,
    length: nat,
) -> Seq<u8>;

/// `Hkdf::<Sha256>::new` followed by `expand` into 32 bytes.
///
/// Claimed: the key depends on the three inputs and the length alone. `expand`
/// fails only for more than 255 hash lengths, which 32 bytes never are.
#[verifier::external_body]
pub(crate) fn hkdf_sha256_key(salt: &[u8], material: &[u8], info: &[u8]) -> (key: [u8; KEY_SIZE])
    ensures
        key@ == hkdf_sha256(salt@, material@, info@, KEY_SIZE as nat),
{
    let hkdf = Hkdf::<Sha256>::new(Some(salt), material);
    let mut key = [0u8; KEY_SIZE];
    hkdf.expand(info, &mut key).expect("32 bytes are a valid HKDF-SHA256 length");
    key
}

/// The ciphertext and tag that ChaCha20-Poly1305 makes of a plaintext.
pub uninterp spec fn sealed(key: Seq<u8>, nonce: Seq<u8>, plaintext: Seq<u8>) -> Seq<u8>;

/// The plaintext of a ciphertext with its tag, or nothing where the tag does not
/// fit the key, the nonce and the ciphertext.
pub uninterp spec fn opened(key: Seq<u8>, nonce: Seq<u8>, ciphertext: Seq<u8>) -> Option<Seq<u8>>;

/// The longest plaintext: as many blocks of 64 bytes as the counter of ChaCha20
/// has left behind the block that the tag's key is taken from.
pub const MAX_PLAINTEXT: u64 = 274_877_906_816;

/// Whether the block counter of ChaCha20 lasts for a message of this length.
pub open spec fn sealable(length: nat) -> bool {
    length <= MAX_PLAINTEXT
}

/// `ChaCha20Poly1305::encrypt`, without associated data.
///
/// Claimed, of a plaintext for which the block counter lasts: it succeeds, the
/// ciphertext depends on the key, the nonce and the plaintext alone and is 16
/// bytes longer than the plaintext, and opening it under the same key and nonce
/// gives the plaintext back.
#[verifier::external_body]
pub(crate) fn seal(key: &[u8; KEY_SIZE], nonce: &[u8; NONCE_SIZE], plaintext: &[u8]) -> (result:
    Result<Vec<u8>, String>)
    requires
        sealable(plaintext@.len()),
    ensures
        match result {
            Ok(ciphertext) => {
                &&& ciphertext@ == sealed(key@, nonce@, plaintext@)
                &&& ciphertext@.len() == plaintext@.len() + TAG_SIZE
                &&& opened(key@, nonce@, ciphertext@) == Some(plaintext@)
            },
            Err(_) => false,
        },
{
    ChaCha20Poly1305::new_from_slice(key)
        .expect("32 bytes are a valid ChaCha20-Poly1305 key")
        .encrypt(Nonce::from_slice(nonce), plaintext)
        .map_err(|e| e.to_string())
}

/// `ChaCha20Poly1305::decrypt`, without associated data.
///
/// Claimed, of a ciphertext for which the block counter lasts: the result depends
/// on the key, the nonce and the ciphertext alone; a plaintext comes back only of
/// a ciphertext that sealing it under the same key and nonce gives; the error
/// reads `aead::Error`.
#[verifier::external_body]
pub(crate) fn open(key: &[u8; KEY_SIZE], nonce: &[u8; NONCE_SIZE], ciphertext: &[u8]) -> (result:
    Result<Vec<u8>, String>)
    requires
        ciphertext@.len() <= MAX_PLAINTEXT + TAG_SIZE,
    ensures
        match result {
            Ok(plaintext) => {
                &&& opened(key@, nonce@, ciphertext@) == Some(plaintext@)
                &&& ciphertext@ == sealed(key@, nonce@, plaintext@)
                &&& ciphertext@.len() == plaintext@.len() + TAG_SIZE
            },
            Err(text) => opened(key@, nonce@, ciphertext@) is None && text@ == "aead::Error"@,
        },
{
    ChaCha20Poly1305::new_from_slice(key)
        .expect("32 bytes are a valid ChaCha20-Poly1305 key")
        .decrypt(Nonce::from_slice(nonce), ciphertext)
        .map_err(|e| e.to_string())
}

/// `OsRng::fill_bytes` on one nonce. Nothing is claimed of random bytes.
#[verifier::external_body]
pub(crate) fn random_nonce() -> (nonce: [u8; NONCE_SIZE]) {
    let mut nonce = [0u8; NONCE_SIZE];
    OsRng.fill_bytes(&mut nonce);
    nonce
}

/// The SHA-256 digest of a byte string.
pub uninterp spec fn sha256(data: Seq<u8>) -> Seq<u8>;

/// `Sha256::digest`. Claimed: the digest depends on the data alone.
#[verifier::external_body]
pub(crate) fn sha256_digest(data: &[u8]) -> (digest: [u8; 32])
    ensures
        digest@ == sha256(data@),
{
    Sha256::digest(data).into()
}

/// A hexadecimal digit in lower case.
pub open spec fn hex_digit(value: int) -> char {
    if value < 10 {
        ('0' as int + value) as char
    } else {
        ('a' as int + value - 10) as char
    }
}

/// Bytes in lower-case hexadecimal, two digits for each, the high one first.
pub open spec fn hex_lower(bytes: Seq<u8>) -> Seq<char> {
    Seq::new(
        2 * bytes.len(),
        |i: int| hex_digit(if i % 2 == 0 { bytes[i / 2] as int / 16 } else { bytes[i / 2] as int % 16 }),
    )
}

/// `hex::encode`. Claimed: two lower-case hexadecimal digits for each byte.
#[verifier::external_body]
pub(crate) fn hex_encode(bytes: &[u8]) -> (text: String)
    ensures
        text@ == hex_lower(bytes@),
{
    hex::encode(bytes)
}

/// Different bytes have different hexadecimal texts.
pub proof fn lemma_hex_injective(a: Seq<u8>, b: Seq<u8>)
    requires
        hex_lower(a) == hex_lower(b),
    ensures
        a == b,
{
    assert(hex_lower(a).len() == 2 * a.len());
    assert(hex_lower(b).len() == 2 * b.len());
    assert forall|i: int| 0 <= i < a.len() implies a[i] == b[i] by {
        assert((2 * i) / 2 == i && (2 * i) % 2 == 0);
        assert((2 * i + 1) / 2 == i && (2 * i + 1) % 2 == 1);
        assert(hex_lower(a)[2 * i] == hex_digit(a[i] as int / 16));
        assert(hex_lower(b)[2 * i] == hex_digit(b[i] as int / 16));
        assert(hex_lower(a)[2 * i + 1] == hex_digit(a[i] as int % 16));
        assert(hex_lower(b)[2 * i + 1] == hex_digit(b[i] as int % 16));
        lemma_hex_digit_injective(a[i] as int / 16, b[i] as int / 16);
        lemma_hex_digit_injective(a[i] as int % 16, b[i] as int % 16);
    }
    assert(a =~= b);
}

proof fn lemma_hex_digit_injective(a: int, b: int)
    requires
        0 <= a < 16,
        0 <= b < 16,
        hex_digit(a) == hex_digit(b),
    ensures
        a == b,
{
}

/// A message of any length up to 256 GiB less 128 bytes can be sealed, and none that is longer.
pub proof fn law_sealable(length: nat)
    ensures
        sealable(length) <==> length + 128 <= 256 * 1024 * 1024 * 1024,
        sealable(length) <==> length <= 64 * 0xffff_fffe,
{
}

/// Each byte is written as two of the sixteen digits, and is what these two stand for.
pub proof fn law_hex_digits(bytes: Seq<u8>, i: int, high: int, low: int)
    requires
        0 <= i < bytes.len(),
        0 <= high < 16,
        0 <= low < 16,
        bytes[i] == 16 * high + low,
    ensures
        hex_lower(bytes).len() == 2 * bytes.len(),
        hex_lower(bytes)[2 * i] == "0123456789abcdef"@[high],
        hex_lower(bytes)[2 * i + 1] == "0123456789abcdef"@[low],
{
    reveal_strlit("0123456789abcdef");
    assert((2 * i) / 2 == i && (2 * i) % 2 == 0);
    assert((2 * i + 1) / 2 == i && (2 * i + 1) % 2 == 1);
    assert(hex_lower(bytes)[2 * i] == hex_digit(high));
    assert(hex_lower(bytes)[2 * i + 1] == hex_digit(low));
}

} // verus!
