use aws_lc_rs::encoding::AsDer;
use aws_lc_rs::signature::{EcdsaKeyPair, KeyPair, ECDSA_P256_SHA256_FIXED_SIGNING};
use base64::Engine;
use nautilus_coinbase::common::credential::{
    hex_encode, jwt_header, jwt_payload, jwt_with_signature, AuthError, CoinbaseCredential,
};

const TEST_API_KEY: &str = "organizations/test-org/apiKeys/test-key-id";

fn test_sec1_pem_key() -> String {
    let rng = aws_lc_rs::rand::SystemRandom::new();
    let pkcs8 = EcdsaKeyPair::generate_pkcs8(&ECDSA_P256_SHA256_FIXED_SIGNING, &rng).unwrap();
    let key_pair = EcdsaKeyPair::from_pkcs8(&ECDSA_P256_SHA256_FIXED_SIGNING, pkcs8.as_ref()).unwrap();
    let sec1_der = key_pair.private_key().as_der().unwrap();
    let pem_obj = pem::Pem::new("EC PRIVATE KEY", sec1_der.as_ref().to_vec());
    pem::encode(&pem_obj)
}

fn test_pkcs8_pem_key() -> String {
    let rng = aws_lc_rs::rand::SystemRandom::new();
    let pkcs8 = EcdsaKeyPair::generate_pkcs8(&ECDSA_P256_SHA256_FIXED_SIGNING, &rng).unwrap();
    let pem_obj = pem::Pem::new("PRIVATE KEY", pkcs8.as_ref().to_vec());
    pem::encode(&pem_obj)
}

fn decode_part(part: &str) -> serde_json::Value {
    let bytes = base64::engine::general_purpose::URL_SAFE_NO_PAD.decode(part).unwrap();
    serde_json::from_slice(&bytes).unwrap()
}

#[test]
fn test_credential_debug_redacts_secret() {
    let cred = CoinbaseCredential::new(TEST_API_KEY.to_string(), "my_secret_pem".to_string());
    let debug = cred.debug_string();
    assert!(debug.contains("redacted"));
    assert!(!debug.contains("my_secret_pem"));
    assert_eq!(
        debug,
        "CoinbaseCredential { api_key: \"organiza...\", api_secret: \"***redacted***\" }"
    );
}

#[test]
fn test_credential_display_truncates_key() {
    let cred = CoinbaseCredential::new(TEST_API_KEY.to_string(), "my_secret_pem".to_string());
    let display = cred.display_string();
    assert_eq!(display, "CoinbaseCredential(organiza...)");
    assert!(!display.contains("my_secret_pem"));
    let short = CoinbaseCredential::new("abc".to_string(), "s".to_string());
    assert_eq!(short.display_string(), "CoinbaseCredential(abc...)");
}

#[test]
fn test_build_rest_jwt() {
    let cred = CoinbaseCredential::new(TEST_API_KEY.to_string(), test_sec1_pem_key());
    let jwt = cred.build_rest_jwt("GET api.coinbase.com/api/v3/brokerage/accounts");
    assert!(jwt.is_ok());
    let token = jwt.unwrap();
    let parts: Vec<&str> = token.split('.').collect();
    assert_eq!(parts.len(), 3, "JWT must have 3 parts");

    let header = decode_part(parts[0]);
    assert_eq!(header["alg"], "ES256");
    assert_eq!(header["typ"], "JWT");
    assert_eq!(header["kid"], TEST_API_KEY);
    assert!(header["nonce"].is_string());
    assert_eq!(header["nonce"].as_str().unwrap().len(), 32);

    let payload = decode_part(parts[1]);
    assert_eq!(payload["sub"], TEST_API_KEY);
    assert_eq!(payload["iss"], "cdp");
    assert!(payload["nbf"].is_number());
    assert!(payload["exp"].is_number());
    assert_eq!(payload["exp"].as_u64().unwrap(), payload["nbf"].as_u64().unwrap() + 120);
    assert_eq!(payload["uri"], "GET api.coinbase.com/api/v3/brokerage/accounts");

    let sig = base64::engine::general_purpose::URL_SAFE_NO_PAD.decode(parts[2]).unwrap();
    assert_eq!(sig.len(), 64);
}

#[test]
fn test_build_jwt_signature_verifies() {
    let pem_key = test_pkcs8_pem_key();
    let der = pem::parse(&pem_key).unwrap().into_contents();
    let key = EcdsaKeyPair::from_pkcs8(&ECDSA_P256_SHA256_FIXED_SIGNING, &der).unwrap();
    let public = key.public_key().as_ref().to_vec();
    let cred = CoinbaseCredential::new(TEST_API_KEY.to_string(), pem_key);
    let token = cred.build_ws_jwt().unwrap();
    let (signing_input, sig) = token.rsplit_once('.').unwrap();
    let sig = base64::engine::general_purpose::URL_SAFE_NO_PAD.decode(sig).unwrap();
    let verifier = aws_lc_rs::signature::UnparsedPublicKey::new(
        &aws_lc_rs::signature::ECDSA_P256_SHA256_FIXED,
        public,
    );
    assert!(verifier.verify(signing_input.as_bytes(), &sig).is_ok());
}

#[test]
fn test_build_ws_jwt_has_no_uri() {
    let cred = CoinbaseCredential::new(TEST_API_KEY.to_string(), test_sec1_pem_key());
    let token = cred.build_ws_jwt().unwrap();
    let parts: Vec<&str> = token.split('.').collect();
    let payload = decode_part(parts[1]);
    assert!(payload.get("uri").is_none());
}

#[test]
fn test_build_jwt_with_pkcs8_pem() {
    let cred = CoinbaseCredential::new(TEST_API_KEY.to_string(), test_pkcs8_pem_key());
    let jwt = cred.build_rest_jwt("GET api.coinbase.com/api/v3/brokerage/accounts");
    assert!(jwt.is_ok());
}

#[test]
fn test_build_jwt_trims_secret() {
    let cred = CoinbaseCredential::new(TEST_API_KEY.to_string(), format!("\n  {}\n\n", test_sec1_pem_key()));
    assert!(cred.build_ws_jwt().is_ok());
}

#[test]
fn test_build_jwt_invalid_pem_fails() {
    let cred = CoinbaseCredential::new(TEST_API_KEY.to_string(), "not-a-pem-key".to_string());
    let result = cred.build_rest_jwt("GET api.coinbase.com/test");
    assert_eq!(result, Err(AuthError::InvalidPem));
}

#[test]
fn test_build_jwt_invalid_key_fails() {
    let pem_text = pem::encode(&pem::Pem::new("EC PRIVATE KEY", vec![1, 2, 3]));
    let cred = CoinbaseCredential::new(TEST_API_KEY.to_string(), pem_text);
    assert_eq!(cred.build_ws_jwt(), Err(AuthError::InvalidKey));
}

#[test]
fn test_base64url_encode() {
    let token = jwt_with_signature("a.b", b"hello world?>>");
    let sig = token.strip_prefix("a.b.").unwrap();
    assert!(!sig.contains('='));
    assert!(!sig.contains('+'));
    assert!(!sig.contains('/'));
    assert_eq!(sig, "aGVsbG8gd29ybGQ_Pj4");
}

#[test]
fn test_jwt_header_and_payload_text() {
    assert_eq!(
        jwt_header("key\"1", "00ff"),
        "{\"alg\":\"ES256\",\"kid\":\"key\\\"1\",\"nonce\":\"00ff\",\"typ\":\"JWT\"}"
    );
    assert_eq!(
        jwt_payload("k", 1_700_000_000, Some("GET h/p")),
        "{\"exp\":1700000120,\"iss\":\"cdp\",\"nbf\":1700000000,\"sub\":\"k\",\"uri\":\"GET h/p\"}"
    );
    assert_eq!(
        jwt_payload("k", 0, None),
        "{\"exp\":120,\"iss\":\"cdp\",\"nbf\":0,\"sub\":\"k\"}"
    );
}

#[test]
fn test_hex_encode() {
    assert_eq!(hex_encode(&[0x00, 0x0f, 0xa0, 0xff]), "000fa0ff");
    assert_eq!(hex_encode(&[]), "");
}

#[test]
fn test_resolve_prefers_given_values() {
    let c = CoinbaseCredential::resolve(Some("key"), Some("secret"), Some("env_key".to_string()), None).unwrap();
    assert_eq!(c.api_key(), "key");
    assert_eq!(c.api_secret(), "secret");
    let c = CoinbaseCredential::resolve(Some("  "), None, Some("env_key".to_string()), Some("env_secret".to_string())).unwrap();
    assert_eq!(c.api_key(), "env_key");
    assert_eq!(c.api_secret(), "env_secret");
    assert_eq!(
        CoinbaseCredential::resolve(None, Some("s"), None, None).err(),
        Some(AuthError::MissingApiKey)
    );
    assert_eq!(
        CoinbaseCredential::resolve(Some("k"), Some(""), None, None).err(),
        Some(AuthError::MissingApiSecret)
    );
}

#[test]
fn test_jwt_after_clock_issues_token_at_given_time() {
    let cred = CoinbaseCredential::new(TEST_API_KEY.to_string(), test_sec1_pem_key());
    let nonce = [0xabu8; 16];
    let token = cred
        .jwt_after_clock(Some("GET api.coinbase.com/api/v3/brokerage/accounts"), 1_700_000_000, &nonce)
        .unwrap();
    let parts: Vec<&str> = token.split('.').collect();
    assert_eq!(parts.len(), 3);
    let header = decode_part(parts[0]);
    assert_eq!(header["nonce"], "abababababababababababababababab");
    assert_eq!(header["kid"], TEST_API_KEY);
    let payload = decode_part(parts[1]);
    assert_eq!(payload["nbf"].as_u64(), Some(1_700_000_000));
    assert_eq!(payload["exp"].as_u64(), Some(1_700_000_120));
    assert_eq!(payload["uri"], "GET api.coinbase.com/api/v3/brokerage/accounts");
    let sig = base64::engine::general_purpose::URL_SAFE_NO_PAD.decode(parts[2]).unwrap();
    assert_eq!(sig.len(), 64);
}

#[test]
fn test_jwt_after_clock_without_uri() {
    let cred = CoinbaseCredential::new(TEST_API_KEY.to_string(), test_pkcs8_pem_key());
    let token = cred.jwt_after_clock(None, 42, &[1u8; 16]).unwrap();
    let parts: Vec<&str> = token.split('.').collect();
    let payload = decode_part(parts[1]);
    assert!(payload.get("uri").is_none());
    assert_eq!(payload["nbf"].as_u64(), Some(42));
    assert_eq!(payload["exp"].as_u64(), Some(162));
}

#[test]
fn test_jwt_after_clock_time_limit() {
    let cred = CoinbaseCredential::new(TEST_API_KEY.to_string(), test_sec1_pem_key());
    assert_eq!(cred.jwt_after_clock(None, u64::MAX, &[0u8; 16]), Err(AuthError::TimeOutOfRange));
    assert_eq!(
        cred.jwt_after_clock(None, u64::MAX - 119, &[0u8; 16]),
        Err(AuthError::TimeOutOfRange)
    );
    assert!(cred.jwt_after_clock(None, u64::MAX - 120, &[0u8; 16]).is_ok());
    let bad = CoinbaseCredential::new(TEST_API_KEY.to_string(), "not-a-pem-key".to_string());
    assert_eq!(bad.jwt_after_clock(None, u64::MAX, &[0u8; 16]), Err(AuthError::TimeOutOfRange));
}

#[test]
fn test_jwt_after_clock_key_errors() {
    let bad_pem = CoinbaseCredential::new(TEST_API_KEY.to_string(), "not-a-pem-key".to_string());
    assert_eq!(bad_pem.jwt_after_clock(None, 1_000, &[0u8; 16]), Err(AuthError::InvalidPem));
    let pem_text = pem::encode(&pem::Pem::new("EC PRIVATE KEY", vec![1, 2, 3]));
    let bad_key = CoinbaseCredential::new(TEST_API_KEY.to_string(), pem_text);
    assert_eq!(bad_key.jwt_after_clock(Some("GET x"), 1_000, &[0u8; 16]), Err(AuthError::InvalidKey));
}

#[test]
fn test_jwt_after_clock_signature_verifies_under_key() {
    let pem_key = test_pkcs8_pem_key();
    let der = pem::parse(&pem_key).unwrap().into_contents();
    let key = EcdsaKeyPair::from_pkcs8(&ECDSA_P256_SHA256_FIXED_SIGNING, &der).unwrap();
    let public = key.public_key().as_ref().to_vec();
    let cred = CoinbaseCredential::new(TEST_API_KEY.to_string(), pem_key);
    let token = cred.jwt_after_clock(Some("GET api.coinbase.com/x"), 1_000, &[7u8; 16]).unwrap();
    let (signing_input, sig) = token.rsplit_once('.').unwrap();
    let sig = base64::engine::general_purpose::URL_SAFE_NO_PAD.decode(sig).unwrap();
    let verifier = aws_lc_rs::signature::UnparsedPublicKey::new(
        &aws_lc_rs::signature::ECDSA_P256_SHA256_FIXED,
        public,
    );
    assert!(verifier.verify(signing_input.as_bytes(), &sig).is_ok());
    assert!(verifier.verify(der.as_slice(), &sig).is_err());
}

#[test]
fn test_key_prefix_is_on_boundary() {
    let ascii = CoinbaseCredential::new(TEST_API_KEY.to_string(), "s".to_string());
    assert!(ascii.key_prefix_is_on_boundary());
    let short = CoinbaseCredential::new("ab".to_string(), "s".to_string());
    assert!(short.key_prefix_is_on_boundary());
    let split = CoinbaseCredential::new("aaaaaaa\u{e9}xyz".to_string(), "s".to_string());
    assert!(!split.key_prefix_is_on_boundary());
    let whole = CoinbaseCredential::new("aaaaaa\u{e9}xyz".to_string(), "s".to_string());
    assert!(whole.key_prefix_is_on_boundary());
}

#[test]
fn test_base64url_short_groups() {
    assert_eq!(jwt_with_signature("s", b"f"), "s.Zg");
    assert_eq!(jwt_with_signature("s", b"fo"), "s.Zm8");
    assert_eq!(jwt_with_signature("s", b"foo"), "s.Zm9v");
    assert_eq!(jwt_with_signature("s", &[0xfb, 0xff]), "s.-_8");
    assert_eq!(jwt_with_signature("s", &[]), "s.");
}

#[test]
fn test_jwt_header_escapes_control_characters() {
    assert_eq!(
        jwt_header("a\\b\n\t\u{1}\u{1f}\u{8}\u{c}\r\u{e9}/", "00"),
        "{\"alg\":\"ES256\",\"kid\":\"a\\\\b\\n\\t\\u0001\\u001f\\b\\f\\r\u{e9}/\",\"nonce\":\"00\",\"typ\":\"JWT\"}"
    );
}
