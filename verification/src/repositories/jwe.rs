//! Encrypted payloads: compact JWE with RSA-OAEP-256 key encryption and
//! A256GCM content encryption.
use vstd::prelude::*;
use crate::text::split_seq;

verus! {

/// JWE repository.
#[derive(Default)]
pub struct JweRepository {}

/// Why a payload was not encrypted or decrypted.
#[derive(Debug, PartialEq, Eq, Structural)]
pub enum JweError {
    /// The key does not parse, or the token does not decrypt with it.
    Refused,
}

/// The plaintext of the compact JWE `token` decrypted by RSA-OAEP-256 with
/// the private key `pem`; `None` when the key or the token is refused.
pub uninterp spec fn jwe_rsa_oaep_plaintext(token: Seq<char>, pem: Seq<u8>) -> Option<Seq<u8>>;

/// Whether `payload` is encrypted by RSA-OAEP-256 for the public key `pem`
/// with the content encryption `encryption`: the key parses, and the key
/// encryption and content encryption succeed.
pub uninterp spec fn jwe_rsa_oaep_encrypts(payload: Seq<u8>, pem: Seq<u8>, encryption: Seq<char>) -> bool;

/// A character of the URL-safe base64 alphabet.
pub open spec fn base64url_char(c: char) -> bool {
    ('A' <= c <= 'Z') || ('a' <= c <= 'z') || ('0' <= c <= '9') || c == '-' || c == '_'
}

/// The length of the unpadded URL-safe base64 encoding of `n` bytes.
pub open spec fn base64url_len(n: nat) -> nat {
    4 * (n / 3) + if n % 3 == 0 { 0nat } else { (n % 3 + 1) as nat }
}

/// The shape of a compact JWE with A256GCM content encryption of a payload
/// of `payload_len` bytes: five parts separated by `.` (header, encrypted
/// key, 12-byte initial vector, ciphertext as long as the payload, 16-byte
/// tag), each in unpadded URL-safe base64, the first two not empty.
pub open spec fn compact_jwe_shape(token: Seq<char>, payload_len: nat) -> bool {
    let parts = split_seq(token, '.');
    &&& parts.len() == 5
    &&& forall|i: int, j: int| 0 <= i < 5 && 0 <= j < parts[i].len() ==> base64url_char(#[trigger] parts[i][j])
    &&& parts[0].len() > 0
    &&& parts[1].len() > 0
    &&& parts[2].len() == base64url_len(12)
    &&& parts[3].len() == base64url_len(payload_len)
    &&& parts[4].len() == base64url_len(16)
}

/// `josekit::jwe::RSA_OAEP_256.encrypter_from_pem(pem)`, then
/// `josekit::jwe::serialize_compact` of `payload` under a header whose
/// content encryption is `encryption` (A256GCM here). The content key and
/// the initial vector are drawn at random, so the token's content is not
/// promised; its shape is the one `JweContext::serialize_compact` writes:
/// header, encrypted key, initial vector, ciphertext and tag, each base64url
/// without padding, joined by `.`, and A256GCM keeps the payload's length,
/// uses a 12-byte initial vector and a 16-byte tag.
#[verifier::external_body]
fn rsa_oaep_encrypt(payload: &[u8], pem: &[u8], encryption: &str) -> (token: Option<String>)
    requires
        encryption@ == "A256GCM"@,
    ensures
        match token {
            Some(t) => jwe_rsa_oaep_encrypts(payload@, pem@, encryption@) && compact_jwe_shape(t@, payload@.len()),
            None => !jwe_rsa_oaep_encrypts(payload@, pem@, encryption@),
        },
{
    let mut header = josekit::jwe::JweHeader::new();
    header.set_content_encryption(encryption);
    let encrypter = match josekit::jwe::RSA_OAEP_256.encrypter_from_pem(pem) {
        Ok(encrypter) => encrypter,
        Err(_) => return None,
    };
    josekit::jwe::serialize_compact(payload, &header, &encrypter).ok()
}

/// `josekit::jwe::RSA_OAEP_256.decrypter_from_pem(pem)`, then
/// `josekit::jwe::deserialize_compact(token, &decrypter)`: the plaintext,
/// which depends on the token and the key alone.
#[verifier::external_body]
fn rsa_oaep_decrypt(token: &str, pem: &[u8]) -> (plain: Option<Vec<u8>>)
    ensures
        match plain {
            Some(p) => jwe_rsa_oaep_plaintext(token@, pem@) == Some(p@),
            None => jwe_rsa_oaep_plaintext(token@, pem@) is None,
        },
{
    let decrypter = match josekit::jwe::RSA_OAEP_256.decrypter_from_pem(pem) {
        Ok(decrypter) => decrypter,
        Err(_) => return None,
    };
    match josekit::jwe::deserialize_compact(token, &decrypter) {
        Ok((payload, _)) => Some(payload),
        Err(_) => None,
    }
}

impl JweRepository {
    /// Encrypts `payload` for the holder of the private key matching the
    /// public key `public_pem`, with A256GCM content encryption.
    pub fn encrypt(payload: &[u8], public_pem: &[u8]) -> (r: Result<String, JweError>)
        ensures
            match r {
                Ok(t) => jwe_rsa_oaep_encrypts(payload@, public_pem@, "A256GCM"@)
                    && compact_jwe_shape(t@, payload@.len()),
                Err(_) => !jwe_rsa_oaep_encrypts(payload@, public_pem@, "A256GCM"@),
            },
    {
        match rsa_oaep_encrypt(payload, public_pem, "A256GCM") {
            Some(token) => Ok(token),
            None => Err(JweError::Refused),
        }
    }

    /// Decrypts the compact JWE `token` with the private key `private_pem`.
    pub fn decrypt(token: &str, private_pem: &[u8]) -> (r: Result<Vec<u8>, JweError>)
        ensures
            match r {
                Ok(p) => jwe_rsa_oaep_plaintext(token@, private_pem@) == Some(p@),
                Err(_) => jwe_rsa_oaep_plaintext(token@, private_pem@) is None,
            },
    {
        match rsa_oaep_decrypt(token, private_pem) {
            Some(payload) => Ok(payload),
            None => Err(JweError::Refused),
        }
    }
}

} // verus!
