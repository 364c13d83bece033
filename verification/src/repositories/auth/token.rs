//! Authentication tokens: the user id carried by an encrypted, signed token.
//!
//! A token is a compact JWE encrypted directly with a shared key, whose
//! plaintext is a JWT signed with RS256. Its payload gives the user id
//! (`uid`) while its expiry time (`exp`) has not passed.
use vstd::prelude::*;

verus! {

/// Token repository.
#[derive(Default)]
pub struct TokenRepository {}

/// A claim of a token's payload, as far as the user id needs it.
pub enum Claim {
    /// A string claim.
    Text(String),
    /// Any other JSON value.
    Other,
}

/// Why a token gives no user id.
#[derive(Debug, PartialEq, Eq, Structural)]
pub enum TokenError {
    /// The token does not decrypt with the shared key.
    NotDecrypted,
    /// The decrypted JWT's signature does not verify with the public key.
    NotVerified,
    /// The token's expiry time has passed.
    Expired,
    /// The token has no expiry time, or no string `uid` claim.
    Invalid,
}

/// The plaintext of the compact JWE `token` decrypted by the `dir`
/// algorithm with the content encryption key `key`; `None` when the key or
/// the token is refused.
pub uninterp spec fn jwe_dir_plaintext(token: Seq<char>, key: Seq<u8>) -> Option<Seq<u8>>;

/// The expiry claim (`exp`, whole seconds since the epoch, when it is a
/// non-negative integer) and the `uid` claim (`None` when absent, `Some(None)`
/// when not a string) of the JWT `jwt` verified by RS256 with the public key
/// `pem`; `None` when the key does not parse or the JWT does not verify.
pub uninterp spec fn rs256_claims(jwt: Seq<u8>, pem: Seq<u8>) -> Option<(Option<u64>, Option<Option<Seq<char>>>)>;

/// The view of a claim: `Some(s)` for a string claim, `None` for another
/// value.
pub open spec fn claim_view(c: Option<Claim>) -> Option<Option<Seq<char>>> {
    match c {
        None => None,
        Some(Claim::Text(s)) => Some(Some(s@)),
        Some(Claim::Other) => Some(None),
    }
}

/// Whether a token expiring at `exp` (seconds) has expired at `now`
/// (nanoseconds since the epoch; `None` for a clock before the epoch, which
/// no expiry time precedes).
pub open spec fn token_expired(exp: u64, now: Option<u128>) -> bool {
    match now {
        Some(n) => exp * 1000000000 <= n,
        None => false,
    }
}

/// The user id of a verified payload with expiry `exp` and claim `uid` at
/// the instant `now`.
pub open spec fn spec_uid(exp: Option<u64>, now: Option<u128>, uid: Option<Option<Seq<char>>>) -> Result<Seq<char>, TokenError> {
    match exp {
        None => Err(TokenError::Invalid),
        Some(e) => if token_expired(e, now) {
            Err(TokenError::Expired)
        } else {
            match uid {
                Some(Some(s)) => Ok(s),
                _ => Err(TokenError::Invalid),
            }
        },
    }
}

/// `josekit::jwe::Dir.decrypter_from_bytes(key)`, then
/// `josekit::jwe::deserialize_compact(token, &decrypter)`: the plaintext,
/// which depends on the token and the key alone.
#[verifier::external_body]
fn dir_decrypt(token: &str, key: &[u8]) -> (plain: Option<Vec<u8>>)
    ensures
        match plain {
            Some(p) => jwe_dir_plaintext(token@, key@) == Some(p@),
            None => jwe_dir_plaintext(token@, key@) is None,
        },
{
    let decrypter = match josekit::jwe::Dir.decrypter_from_bytes(key) {
        Ok(decrypter) => decrypter,
        Err(_) => return None,
    };
    match josekit::jwe::deserialize_compact(token, &decrypter) {
        Ok((payload, _)) => Some(payload),
        Err(_) => None,
    }
}

/// `josekit::jws::RS256.verifier_from_pem(pem)`, then
/// `josekit::jwt::decode_with_verifier(jwt, &verifier)`, and the payload's
/// `exp` claim as `u64` (as `JwtPayload::expires_at` reads it) and `uid`
/// claim.
#[verifier::external_body]
fn rs256_verify(jwt: &[u8], pem: &[u8]) -> (claims: Option<(Option<u64>, Option<Claim>)>)
    ensures
        match claims {
            Some((exp, uid)) => rs256_claims(jwt@, pem@) == Some((exp, claim_view(uid))),
            None => rs256_claims(jwt@, pem@) is None,
        },
{
    let verifier = match josekit::jws::RS256.verifier_from_pem(pem) { Ok(v) => v, Err(_) => return None };
    let (payload, _) = match josekit::jwt::decode_with_verifier(jwt, &verifier) { Ok(d) => d, Err(_) => return None };
    let exp = match payload.claim("exp") { Some(value) => value.as_u64(), None => None };
    let uid = match payload.claim("uid") {
        Some(serde_json::Value::String(s)) => Some(Claim::Text(s.clone())),
        Some(_) => Some(Claim::Other),
        None => None,
    };
    Some((exp, uid))
}

/// `std::time::SystemTime::now()` as nanoseconds since the epoch; `None` for
/// a clock before the epoch. Which instant is returned depends on the clock.
#[verifier::external_body]
fn now_nanos() -> (ns: Option<u128>) {
    match std::time::SystemTime::now().duration_since(std::time::UNIX_EPOCH) {
        Ok(elapsed) => Some(elapsed.as_nanos()),
        Err(_) => None,
    }
}

impl TokenRepository {
    /// The user id of a verified payload, given its expiry time (seconds),
    /// the current time (nanoseconds since the epoch) and its `uid` claim.
    pub fn uid_from_claims(expires_at: Option<u64>, now: Option<u128>, uid: Option<Claim>) -> (r: Result<String, TokenError>)
        ensures
            match r {
                Ok(s) => spec_uid(expires_at, now, claim_view(uid)) == Ok::<Seq<char>, TokenError>(s@),
                Err(e) => spec_uid(expires_at, now, claim_view(uid)) == Err::<Seq<char>, TokenError>(e),
            },
    {
        match expires_at {
            None => Err(TokenError::Invalid),
            Some(exp) => {
                let expired = match now {
                    Some(n) => (exp as u128) * 1000000000 <= n,
                    None => false,
                };
                if expired {
                    Err(TokenError::Expired)
                } else {
                    match uid {
                        Some(Claim::Text(s)) => Ok(s),
                        _ => Err(TokenError::Invalid),
                    }
                }
            },
        }
    }

    /// The user id carried by `token`: decrypted with the shared key
    /// `jwt_key`, verified with the public key `public_pem`, and checked
    /// against the clock.
    pub fn uid(token: &str, jwt_key: &[u8], public_pem: &[u8]) -> (r: Result<String, TokenError>)
        ensures
            match jwe_dir_plaintext(token@, jwt_key@) {
                None => r == Err::<String, TokenError>(TokenError::NotDecrypted),
                Some(jwt) => match rs256_claims(jwt, public_pem@) {
                    None => r == Err::<String, TokenError>(TokenError::NotVerified),
                    Some((exp, uid)) => exists|now: Option<u128>| match r {
                        Ok(s) => #[trigger] spec_uid(exp, now, uid) == Ok::<Seq<char>, TokenError>(s@),
                        Err(e) => spec_uid(exp, now, uid) == Err::<Seq<char>, TokenError>(e),
                    },
                },
            },
    {
        let jwt = match dir_decrypt(token, jwt_key) {
            Some(jwt) => jwt,
            None => return Err(TokenError::NotDecrypted),
        };
        let (exp, uid) = match rs256_verify(jwt.as_slice(), public_pem) {
            Some(claims) => claims,
            None => return Err(TokenError::NotVerified),
        };
        let now = now_nanos();
        let ghost uid_view = claim_view(uid);
        let r = Self::uid_from_claims(exp, now, uid);
        assert(match r {
            Ok(s) => spec_uid(exp, now, uid_view) == Ok::<Seq<char>, TokenError>(s@),
            Err(e) => spec_uid(exp, now, uid_view) == Err::<Seq<char>, TokenError>(e),
        });
        r
    }
}

/// An expired token never yields a user id, whatever its claims.
pub proof fn law_expired_token_refused(exp: u64, now: u128, uid: Option<Option<Seq<char>>>)
    requires
        exp * 1000000000 <= now,
    ensures
        spec_uid(Some(exp), Some(now), uid) == Err::<Seq<char>, TokenError>(TokenError::Expired),
{
}

} // verus!
