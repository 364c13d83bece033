use josekit::jwe::{self, JweHeader, Dir, RSA_OAEP_256};
use josekit::jwk::KeyPair;
use josekit::jws::{JwsHeader, RS256};
use josekit::jwt::{self, JwtPayload};

use cryptos::repositories::auth::token::{TokenRepository, TokenError};
use cryptos::repositories::jwe::{JweRepository, JweError};

const SHARED_KEY: &[u8] = b"0123456789abcdef0123456789abcdef";

fn signed_token(private_pem: &[u8], exp: u64, uid: Option<&str>) -> String {
    let mut header = JwsHeader::new();
    header.set_token_type("JWT");
    let mut payload = JwtPayload::new();
    payload.set_subject("subject");
    payload.set_claim("exp", Some(serde_json::Value::from(exp))).unwrap();
    if let Some(uid) = uid {
        payload.set_claim("uid", Some(serde_json::Value::from(uid))).unwrap();
    }
    let signer = RS256.signer_from_pem(private_pem).unwrap();
    let jwt = jwt::encode_with_signer(&payload, &header, &signer).unwrap();
    let mut jwe_header = JweHeader::new();
    jwe_header.set_content_encryption("A256GCM");
    let encrypter = Dir.encrypter_from_bytes(SHARED_KEY).unwrap();
    jwe::serialize_compact(jwt.as_bytes(), &jwe_header, &encrypter).unwrap()
}

#[test]
fn token_gives_its_uid() {
    let keys = RS256.generate_key_pair(2048).unwrap();
    let private_pem = keys.to_pem_private_key();
    let public_pem = keys.to_pem_public_key();
    let far = 4_000_000_000;

    let token = signed_token(&private_pem, far, Some("u-42"));
    assert_eq!(TokenRepository::uid(&token, SHARED_KEY, &public_pem), Ok("u-42".to_string()));

    let expired = signed_token(&private_pem, 1, Some("u-42"));
    assert_eq!(TokenRepository::uid(&expired, SHARED_KEY, &public_pem), Err(TokenError::Expired));

    let anonymous = signed_token(&private_pem, far, None);
    assert_eq!(TokenRepository::uid(&anonymous, SHARED_KEY, &public_pem), Err(TokenError::Invalid));

    let other_key = b"fedcba9876543210fedcba9876543210";
    assert_eq!(TokenRepository::uid(&token, other_key, &public_pem), Err(TokenError::NotDecrypted));

    let stranger = RS256.generate_key_pair(2048).unwrap().to_pem_public_key();
    assert_eq!(TokenRepository::uid(&token, SHARED_KEY, &stranger), Err(TokenError::NotVerified));
    assert_eq!(TokenRepository::uid("not a token", SHARED_KEY, &public_pem), Err(TokenError::NotDecrypted));
}

#[test]
fn jwe_round_trip() {
    let keys = RSA_OAEP_256.generate_key_pair(2048).unwrap();
    let private_pem = keys.to_pem_private_key();
    let public_pem = keys.to_pem_public_key();
    let token = JweRepository::encrypt(b"payload bytes", &public_pem).unwrap();
    let parts: Vec<&str> = token.split('.').collect();
    assert_eq!(parts.len(), 5);
    assert!(!parts[0].is_empty() && !parts[1].is_empty());
    assert_eq!(parts[2].len(), 16);
    assert_eq!(parts[3].len(), 18);
    assert_eq!(parts[4].len(), 22);
    assert!(token.chars().all(|c| c == '.' || c.is_ascii_alphanumeric() || c == '-' || c == '_'));
    assert_eq!(JweRepository::decrypt(&token, &private_pem), Ok(b"payload bytes".to_vec()));
    assert_eq!(JweRepository::decrypt("a.b.c.d.e", &private_pem), Err(JweError::Refused));
    assert_eq!(JweRepository::encrypt(b"x", b"not a key"), Err(JweError::Refused));
}
