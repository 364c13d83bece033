use cryptos::signing::{signed_query, raw_payload, payload_signature, text_pair};
use cryptos::repositories::binance::spot::account::AccountRepository;
use cryptos::repositories::binance::futures::account::AccountRepository as FuturesAccountRepository;
use cryptos::repositories::binance::spot::orders::{OrdersRepository, OpenError};
use cryptos::repositories::binance::futures::orders::OrdersRepository as FuturesOrdersRepository;
use base64::Engine;
use josekit::jwk::KeyPair;
use josekit::jws::{JwsVerifier, RS256};

/// A fresh RSA key pair: the PKCS#8 private key and the public key, in PEM.
fn key_pair() -> (String, Vec<u8>) {
    let keys = RS256.generate_key_pair(2048).unwrap();
    (String::from_utf8(keys.to_pem_private_key()).unwrap(), keys.to_pem_public_key())
}

/// Whether `signature` (base64) is the RSASSA-PKCS1-v1_5 SHA-256 signature of
/// `message` under the public key `public_pem`, as OpenSSL checks it.
fn verifies(public_pem: &[u8], message: &str, signature: &str) -> bool {
    let raw = base64::engine::general_purpose::STANDARD.decode(signature).unwrap();
    RS256.verifier_from_pem(public_pem).unwrap().verify(message.as_bytes(), &raw).is_ok()
}


fn pairs(items: &[(&str, &str)]) -> Vec<(String, String)> {
    items.iter().map(|(k, v)| (k.to_string(), v.to_string())).collect()
}

#[test]
fn form_encoding_of_special_characters() {
    let q = signed_query("k", &pairs(&[("a b", "x&y=\u{fc}*~")]));
    assert!(q.starts_with("a+b=x%26y%3D%C3%BC*%7E&signature="));
    assert_eq!(q.len(), "a+b=x%26y%3D%C3%BC*%7E&signature=".len() + 64);
    let q = signed_query("k", &pairs(&[("", "")]));
    assert!(q.starts_with("=&signature="));
    assert!(q[q.len() - 64..].chars().all(|c| c.is_ascii_digit() || ('a'..='f').contains(&c)));
}

#[test]
fn signed_query_appends_hex_hmac() {
    let q = signed_query("secret", &pairs(&[("recvWindow", "60000"), ("timestamp", "1700000000000")]));
    assert_eq!(q, "recvWindow=60000&timestamp=1700000000000&signature=42750d42c8a24511a67831c5f7e791b4d7a30a5f81389f5b8dc8359d01dbb4ab");
}

#[test]
fn signed_query_of_no_parameters() {
    let q = signed_query("secret", &pairs(&[]));
    assert!(q.starts_with("signature="));
    assert_eq!(q.len(), "signature=".len() + 64);
}

#[test]
fn account_query_is_signed() {
    let q = AccountRepository::flush_query("secret", 1700000000000);
    assert_eq!(q, "recvWindow=60000&timestamp=1700000000000&signature=42750d42c8a24511a67831c5f7e791b4d7a30a5f81389f5b8dc8359d01dbb4ab");
    let p = FuturesAccountRepository::params(-3);
    assert_eq!(p, pairs(&[("timeInForce", "GTC"), ("recvWindow", "60000"), ("timestamp", "-3")]));
    let q = FuturesAccountRepository::flush_query("secret", 5);
    assert!(q.starts_with("timeInForce=GTC&recvWindow=60000&timestamp=5&signature="));
}

#[test]
fn sync_params_start_time_only_when_positive() {
    let p = OrdersRepository::sync_params("BTCUSDT", 1690000000000, 500, 1700000000000);
    assert_eq!(p, pairs(&[
        ("symbol", "BTCUSDT"),
        ("startTime", "1690000000000"),
        ("limit", "500"),
        ("recvWindow", "60000"),
        ("timestamp", "1700000000000"),
    ]));
    let p = FuturesOrdersRepository::sync_params("BTCUSDT", 0, 500, 1700000000000);
    assert_eq!(p.len(), 4);
    let q = OrdersRepository::sync_query("k", "BTCUSDT", 0, 10, 1);
    assert!(q.starts_with("symbol=BTCUSDT&limit=10&recvWindow=60000&timestamp=1&signature="));
}

#[test]
fn raw_payload_is_not_encoded() {
    assert_eq!(raw_payload(&pairs(&[("a b", "c&d"), ("e", "")])), "a b=c&d&e=");
    assert_eq!(raw_payload(&pairs(&[])), "");
}

#[test]
fn payload_signature_is_base64_rsa() {
    let (private_pem, public_pem) = key_pair();
    let payload = "symbol=BTCUSDT&timestamp=";
    let sig = payload_signature(&private_pem, payload).unwrap();
    assert_eq!(sig.len(), 344);
    assert!(verifies(&public_pem, payload, &sig));
    assert!(!verifies(&public_pem, "symbol=BTCUSDT&timestamp=1", &sig));
    assert_eq!(payload_signature(&private_pem, payload), Some(sig));
    assert_eq!(payload_signature("not a key", "x"), None);
}

#[test]
fn open_reports_unavailable_or_bad_key() {
    let (private_pem, _) = key_pair();
    assert!(matches!(OrdersRepository::open(&private_pem), Err(OpenError::Unavailable)));
    assert!(matches!(OrdersRepository::open("garbage"), Err(OpenError::Key)));
}

#[test]
fn submit_body_is_signed_form() {
    let (private_pem, public_pem) = key_pair();
    let params = FuturesOrdersRepository::submit_params("BTCUSDT", "LONG", "BUY", "42000.5", "0.001", 1700000000000);
    let payload = raw_payload(&params);
    assert_eq!(payload, "symbol=BTCUSDT&positionSide=LONG&side=BUY&type=LIMIT&price=42000.5&quantity=0.001&timeInForce=GTC&newOrderRespType=RESULT&recvWindow=60000&timestamp=1700000000000");
    let body = FuturesOrdersRepository::submit_body(&private_pem, &params).unwrap();
    let prefix = format!("{payload}&signature=");
    assert!(body.starts_with(&prefix));
    let sig: String = url::form_urlencoded::parse(body[prefix.len() - "signature=".len()..].as_bytes())
        .find(|(name, _)| name == "signature")
        .map(|(_, value)| value.into_owned())
        .unwrap();
    assert_eq!(Some(sig.clone()), payload_signature(&private_pem, &payload));
    assert!(verifies(&public_pem, &payload, &sig));
    let encoded: String = url::form_urlencoded::byte_serialize(sig.as_bytes()).collect();
    assert_eq!(body, format!("{prefix}{encoded}"));
    assert_eq!(FuturesOrdersRepository::submit_body("bad", &params), None);
}

#[test]
fn stale_currencies_are_the_dropped_ones() {
    let current = vec!["BTC".to_string(), "USDT".to_string()];
    let last = vec!["ETH".to_string(), "BTC".to_string(), "BNB".to_string()];
    assert_eq!(AccountRepository::stale_currencies(&current, &last), vec!["ETH".to_string(), "BNB".to_string()]);
    assert_eq!(FuturesAccountRepository::stale_currencies(&last, &last), Vec::<String>::new());
}

#[test]
fn text_pair_copies() {
    assert_eq!(text_pair("a", "b"), ("a".to_string(), "b".to_string()));
}

#[test]
fn plain_payload_is_the_sent_query() {
    let params = pairs(&[("symbol", "BTCUSDT"), ("side", "BUY"), ("price", "1.5"), ("quantity", "0.001")]);
    let payload = raw_payload(&params);
    let query = signed_query("k", &params);
    assert_eq!(format!("{payload}&signature="), query[..query.len() - 64].to_string());
}
