//! Encryption of stored secrets with AES-256-GCM: a random 12-byte nonce is put in front of
//! the ciphertext and the whole is kept as standard Base64 text.
use vstd::prelude::*;
use vstd::utf8::{decode_utf8, encode_utf8, valid_utf8};

use aes_gcm::aead::{Aead, KeyInit};
use base64::Engine;
use rand::Rng;

use crate::ext::utf8_string;

verus! {

/// Bytes of the nonce in front of each ciphertext.
pub const NONCE_SIZE: usize = 12;

/// Bytes of a master key.
pub const KEY_SIZE: usize = 32;

/// Longest plaintext AES-GCM seals (2^36 bytes).
pub const P_MAX: u64 = 68719476736;

/// The AES-256-GCM sealing (ciphertext followed by the tag) of `plaintext` under `key` and
/// `nonce`, without associated data.
pub uninterp spec fn aes_gcm_sealed(key: Seq<u8>, nonce: Seq<u8>, plaintext: Seq<u8>) -> Seq<u8>;

/// The plaintext that AES-256-GCM recovers from `ciphertext` under `key` and `nonce`, when
/// the tag checks.
pub uninterp spec fn aes_gcm_opened(key: Seq<u8>, nonce: Seq<u8>, ciphertext: Seq<u8>) -> Option<
    Seq<u8>,
>;

/// The standard Base64 digit of a six-bit value.
pub open spec fn base64_digit(v: int) -> char {
    if v < 26 {
        (('A' as int) + v) as char
    } else if v < 52 {
        (('a' as int) + v - 26) as char
    } else if v < 62 {
        (('0' as int) + v - 52) as char
    } else if v == 62 {
        '+'
    } else {
        '/'
    }
}

/// The four digits of a 24-bit group.
pub open spec fn base64_group(n: int) -> Seq<char> {
    seq![
        base64_digit(n / 262144),
        base64_digit((n / 4096) % 64),
        base64_digit((n / 64) % 64),
        base64_digit(n % 64),
    ]
}

/// Standard Base64 text (with padding) of a byte sequence: each three bytes, read as a
/// 24-bit big-endian group, become four digits; a last group of one or two bytes, filled
/// with zero bits, keeps two or three digits and is padded with `=` to four.
pub open spec fn base64_text(bytes: Seq<u8>) -> Seq<char>
    decreases bytes.len(),
{
    if bytes.len() == 0 {
        Seq::empty()
    } else if bytes.len() == 1 {
        base64_group(bytes[0] as int * 65536).subrange(0, 2) + seq!['=', '=']
    } else if bytes.len() == 2 {
        base64_group(bytes[0] as int * 65536 + bytes[1] as int * 256).subrange(0, 3) + seq!['=']
    } else {
        base64_group(bytes[0] as int * 65536 + bytes[1] as int * 256 + bytes[2] as int) + base64_text(
            bytes.subrange(3, bytes.len() as int),
        )
    }
}

/// The bytes a standard Base64 text decodes to, when it is valid.
pub uninterp spec fn base64_bytes(text: Seq<char>) -> Option<Seq<u8>>;

/// `Aes256Gcm::new_from_slice` and `Aead::encrypt`: a key of any other length than 32 bytes
/// is refused; otherwise the result is the sealing named `aes_gcm_sealed`, 16 bytes longer
/// than the plaintext, and it is produced exactly for the plaintexts of at most 2^36 bytes. The error
/// messages are the crate's own and are left unsaid.
#[verifier::external_body]
fn aes256_gcm_encrypt(key: &[u8], nonce: &[u8], plaintext: &[u8]) -> (r: Result<Vec<u8>, String>)
    requires
        nonce@.len() == NONCE_SIZE,
    ensures
        match r {
            Ok(c) => key@.len() == KEY_SIZE && plaintext@.len() <= P_MAX && c@ == aes_gcm_sealed(
                key@,
                nonce@,
                plaintext@,
            ) && c@.len() == plaintext@.len() + 16,
            Err(_) => key@.len() != KEY_SIZE || plaintext@.len() > P_MAX,
        },
{
    let cipher = match aes_gcm::Aes256Gcm::new_from_slice(key) {
        Ok(c) => c,
        Err(e) => return Err(e.to_string()),
    };
    match cipher.encrypt(aes_gcm::Nonce::from_slice(nonce), plaintext) {
        Ok(c) => Ok(c),
        Err(e) => Err(e.to_string()),
    }
}

/// `Aes256Gcm::new_from_slice` and `Aead::decrypt`: a key of any other length than 32 bytes
/// is refused; otherwise the result is what `aes_gcm_opened` names. What was sealed under a
/// key and nonce opens to the same plaintext under them. The error messages are the crate's
/// own and are left unsaid.
#[verifier::external_body]
fn aes256_gcm_decrypt(key: &[u8], nonce: &[u8], ciphertext: &[u8]) -> (r: Result<Vec<u8>, String>)
    requires
        nonce@.len() == NONCE_SIZE,
    ensures
        match r {
            Ok(p) => key@.len() == KEY_SIZE && aes_gcm_opened(key@, nonce@, ciphertext@) == Some(p@),
            Err(_) => key@.len() != KEY_SIZE || aes_gcm_opened(key@, nonce@, ciphertext@) is None,
        },
        forall|p: Seq<u8>|
            key@.len() == KEY_SIZE && p.len() <= P_MAX && ciphertext@ == #[trigger] aes_gcm_sealed(
                key@,
                nonce@,
                p,
            ) ==> r is Ok && r->Ok_0@ == p,
{
    let cipher = match aes_gcm::Aes256Gcm::new_from_slice(key) {
        Ok(c) => c,
        Err(e) => return Err(e.to_string()),
    };
    match cipher.decrypt(aes_gcm::Nonce::from_slice(nonce), ciphertext) {
        Ok(p) => Ok(p),
        Err(e) => Err(e.to_string()),
    }
}

/// `base64::engine::general_purpose::STANDARD.encode`: the text `base64_text` of the bytes.
#[verifier::external_body]
fn base64_encode(bytes: &[u8]) -> (r: String)
    ensures
        r@ == base64_text(bytes@),
{
    base64::engine::general_purpose::STANDARD.encode(bytes)
}

/// `base64::engine::general_purpose::STANDARD.decode`: the bytes named `base64_bytes`. The
/// encoding of some bytes decodes to those bytes, and only such an encoding decodes (padding
/// must be canonical and the last digit may carry no unused bits). The error messages are the
/// crate's own and are left unsaid.
#[verifier::external_body]
fn base64_decode(text: &str) -> (r: Result<Vec<u8>, String>)
    ensures
        match r {
            Ok(b) => base64_bytes(text@) == Some(b@),
            Err(_) => base64_bytes(text@) is None,
        },
        forall|b: Seq<u8>| text@ == #[trigger] base64_text(b) ==> r is Ok && r->Ok_0@ == b,
        r matches Ok(b) ==> base64_text(b@) == text@,
{
    match base64::engine::general_purpose::STANDARD.decode(text) {
        Ok(b) => Ok(b),
        Err(e) => Err(e.to_string()),
    }
}

/// `Rng::fill` of `rand::thread_rng()` on `n` zero bytes: `n` random bytes (nothing else is
/// promised of them).
#[verifier::external_body]
pub(crate) fn random_bytes(n: usize) -> (r: Vec<u8>)
    ensures
        r@.len() == n,
{
    let mut v = vec![0u8; n];
    rand::thread_rng().fill(&mut v[..]);
    v
}

/// The stored text of a secret sealed under `key` with `nonce`.
pub open spec fn sealed_text(plaintext: Seq<char>, key: Seq<u8>, nonce: Seq<u8>) -> Seq<char> {
    base64_text(nonce + aes_gcm_sealed(key, nonce, encode_utf8(plaintext)))
}

/// Encrypts a secret under `key` with a fresh random nonce.
pub fn encrypt_string_with_key(plaintext: &str, key: &[u8]) -> (r: Result<String, String>)
    ensures
        match r {
            Ok(t) => key@.len() == KEY_SIZE && encode_utf8(plaintext@).len() <= P_MAX && exists|
                nonce: Seq<u8>,
            | nonce.len() == NONCE_SIZE && t@ == #[trigger] sealed_text(plaintext@, key@, nonce),
            Err(_) => key@.len() != KEY_SIZE || encode_utf8(plaintext@).len() > P_MAX,
        },
{
    let nonce = random_bytes(NONCE_SIZE);
    let bytes = plaintext.as_bytes();
    let ciphertext = match aes256_gcm_encrypt(key, &nonce, bytes) {
        Ok(c) => c,
        Err(e) => return Err(e),
    };
    let mut combined: Vec<u8> = Vec::new();
    let mut i: usize = 0;
    while i < nonce.len()
        invariant
            i <= nonce@.len(),
            combined@ == nonce@.subrange(0, i as int),
        decreases nonce.len() - i,
    {
        combined.push(nonce[i]);
        i = i + 1;
        assert(combined@ =~= nonce@.subrange(0, i as int));
    }
    let mut k: usize = 0;
    while k < ciphertext.len()
        invariant
            k <= ciphertext@.len(),
            combined@ == nonce@ + ciphertext@.subrange(0, k as int),
        decreases ciphertext.len() - k,
    {
        combined.push(ciphertext[k]);
        k = k + 1;
        assert(combined@ =~= nonce@ + ciphertext@.subrange(0, k as int));
    }
    assert(nonce@.subrange(0, nonce@.len() as int) =~= nonce@);
    assert(ciphertext@.subrange(0, ciphertext@.len() as int) =~= ciphertext@);
    let t = base64_encode(&combined);
    assert(t@ == sealed_text(plaintext@, key@, nonce@));
    Ok(t)
}

/// The secret a stored text decrypts to under `key`: Base64 decoding, at least a nonce's
/// worth of bytes, an authentic ciphertext, and UTF-8 plaintext.
pub open spec fn opened_text(text: Seq<char>, key: Seq<u8>) -> Option<Seq<char>> {
    match base64_bytes(text) {
        None => None,
        Some(c) => if c.len() < NONCE_SIZE || key.len() != KEY_SIZE {
            None
        } else {
            match aes_gcm_opened(key, c.subrange(0, 12), c.subrange(12, c.len() as int)) {
                None => None,
                Some(b) => if valid_utf8(b) {
                    Some(decode_utf8(b))
                } else {
                    None
                },
            }
        },
    }
}

/// Decrypts a stored secret under `key`. A text that `encrypt_string_with_key` made under the
/// same key decrypts to the original secret.
pub fn decrypt_string_with_key(encrypted: &str, key: &[u8]) -> (r: Result<String, String>)
    ensures
        match r {
            Ok(s) => opened_text(encrypted@, key@) == Some(s@),
            Err(e) => opened_text(encrypted@, key@) is None && (base64_bytes(encrypted@) matches Some(
                c,
            ) && c.len() < NONCE_SIZE ==> e@ == "Invalid encrypted data"@),
        },
        forall|p: Seq<char>, nonce: Seq<u8>|
            nonce.len() == NONCE_SIZE && key@.len() == KEY_SIZE && encode_utf8(p).len() <= P_MAX
                && encrypted@ == #[trigger] sealed_text(p, key@, nonce) ==> (r matches Ok(s) && s@
                == p),
{
    broadcast use vstd::utf8::encode_utf8_valid_utf8, vstd::utf8::encode_utf8_decode_utf8;

    let combined = match base64_decode(encrypted) {
        Ok(c) => c,
        Err(e) => return Err(e),
    };
    if combined.len() < NONCE_SIZE {
        proof {
            assert forall|p: Seq<char>, nonce: Seq<u8>|
                nonce.len() == NONCE_SIZE && encrypted@ == #[trigger] sealed_text(p, key@, nonce) implies false by {
                let b = nonce + aes_gcm_sealed(key@, nonce, encode_utf8(p));
                assert(encrypted@ == base64_text(b));
            }
        }
        return Err("Invalid encrypted data".to_owned());
    }
    let nonce = crate::text::slice_bytes(&combined, 0, NONCE_SIZE);
    let body = crate::text::slice_bytes(&combined, NONCE_SIZE, combined.len());
    let plain = match aes256_gcm_decrypt(key, &nonce, &body) {
        Ok(p) => p,
        Err(e) => {
            proof {
                assert forall|p: Seq<char>, n: Seq<u8>|
                    n.len() == NONCE_SIZE && key@.len() == KEY_SIZE && encode_utf8(p).len() <= P_MAX
                        && encrypted@ == #[trigger] sealed_text(p, key@, n) implies false by {
                    let b = n + aes_gcm_sealed(key@, n, encode_utf8(p));
                    assert(encrypted@ == base64_text(b));
                    assert(combined@ == b);
                    assert(nonce@ =~= n);
                    assert(body@ =~= aes_gcm_sealed(key@, n, encode_utf8(p)));
                }
            }
            return Err(e);
        },
    };
    let ghost pb = plain@;
    let r = utf8_string(plain);
    proof {
        assert forall|p: Seq<char>, n: Seq<u8>|
            n.len() == NONCE_SIZE && key@.len() == KEY_SIZE && encode_utf8(p).len() <= P_MAX
                && encrypted@ == #[trigger] sealed_text(p, key@, n) implies (r matches Ok(s) && s@
            == p) by {
            let b = n + aes_gcm_sealed(key@, n, encode_utf8(p));
            assert(encrypted@ == base64_text(b));
            assert(combined@ == b);
            assert(nonce@ =~= n);
            assert(body@ =~= aes_gcm_sealed(key@, n, encode_utf8(p)));
            assert(pb == encode_utf8(p));
        }
    }
    r
}

/// The master key to use: the stored one when it has exactly 32 bytes, else fresh random
/// bytes; the flag says whether the key is new and must be stored.
pub fn master_key_from_stored(stored: Option<Vec<u8>>) -> (r: (Vec<u8>, bool))
    ensures
        r.0@.len() == KEY_SIZE,
        match stored {
            Some(k) => if k@.len() == KEY_SIZE {
                r.0@ == k@ && !r.1
            } else {
                r.1
            },
            None => r.1,
        },
{
    match stored {
        Some(k) => {
            if k.len() == KEY_SIZE {
                return (k, false);
            }
        },
        None => {},
    }
    (random_bytes(KEY_SIZE), true)
}

} // verus!
