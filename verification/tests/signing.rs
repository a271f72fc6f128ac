use polymarket_rust_rl::chainlink::{hash_feed_id, hex_encode, ChainlinkClient};
use polymarket_rust_rl::config::ChainlinkConfig;
use polymarket_rust_rl::exchange_ws::hash_symbol;
use polymarket_rust_rl::polymarket_rest::{auth_headers, base64_encode, clob_signature};
use std::hash::{Hash, Hasher};

fn chainlink_config(api_key: &str, secret: &str) -> ChainlinkConfig {
    ChainlinkConfig {
        ws_url: "wss://example.invalid/ws".to_string(),
        api_key: api_key.to_string(),
        hmac_secret: secret.to_string(),
        feeds: vec!["0x01".to_string(), "0x02".to_string()],
    }
}

#[test]
fn hex_encode_lowercase_two_digits() {
    assert_eq!(hex_encode(&[]), "");
    assert_eq!(hex_encode(&[0x00, 0x0f, 0xab, 0xff]), "000fabff");
    assert_eq!(hex_encode(&[0x5b, 0xdc]), "5bdc");
}

#[test]
fn hex_encode_matches_format() {
    let bytes: Vec<u8> = (0..=255u8).collect();
    let expected: String = bytes.iter().map(|b| format!("{b:02x}")).collect();
    assert_eq!(hex_encode(&bytes), expected);
}

#[test]
fn base64_padding_cases() {
    assert_eq!(base64_encode(b""), "");
    assert_eq!(base64_encode(b"M"), "TQ==");
    assert_eq!(base64_encode(b"Ma"), "TWE=");
    assert_eq!(base64_encode(b"Man"), "TWFu");
    assert_eq!(base64_encode(b"hello world"), "aGVsbG8gd29ybGQ=");
    assert_eq!(base64_encode(&[0xfb, 0xff, 0xbf]), "+/+/");
}

#[test]
fn compute_hmac_rfc4231_case_2() {
    let client = ChainlinkClient::new(chainlink_config("key", "Jefe"));
    let tag = client.compute_hmac(b"what do ya want for nothing?");
    assert_eq!(tag.len(), 32);
    assert_eq!(
        hex_encode(&tag),
        "5bdcc146bf60754e6a042426089575c75a003f089d2739839dec58b964ec3843"
    );
}

#[test]
fn chainlink_auth_signature_signs_key_and_timestamp() {
    let client = ChainlinkClient::new(chainlink_config("what do ya want ", "Jefe"));
    assert_eq!(
        client.auth_signature("for nothing?"),
        "5bdcc146bf60754e6a042426089575c75a003f089d2739839dec58b964ec3843"
    );
}

#[test]
fn chainlink_subscribe_message() {
    let client = ChainlinkClient::new(chainlink_config("k", "s"));
    assert_eq!(
        client.subscribe_message(),
        "{\"feedIDs\":[\"0x01\",\"0x02\"],\"type\":\"subscribe\"}"
    );
}

#[test]
fn clob_signature_known_values() {
    assert_eq!(
        clob_signature("Jefe", "1700000000"),
        "lbNZa2XsNZ9CArYZgKn1LJVPpnfT9EiHKf8GhVOhZ00="
    );
    assert_eq!(
        clob_signature("secret", "1700000000"),
        "9gDI7HpEevSN2ScfQqCVd/DcN64zS0rPgyLNaxJr8sE="
    );
}

#[test]
fn auth_headers_order_and_values() {
    let h = auth_headers(
        &"0xabc".to_string(),
        &"secret".to_string(),
        &"pass".to_string(),
        &"1700000000".to_string(),
    );
    assert_eq!(h.len(), 4);
    assert_eq!(h[0], ("POLY_ADDRESS", "0xabc".to_string()));
    assert_eq!(
        h[1],
        (
            "POLY_SIGNATURE",
            "9gDI7HpEevSN2ScfQqCVd/DcN64zS0rPgyLNaxJr8sE=".to_string()
        )
    );
    assert_eq!(h[2], ("POLY_TIMESTAMP", "1700000000".to_string()));
    assert_eq!(h[3], ("POLY_PASSPHRASE", "pass".to_string()));
}

fn reference_hash(s: &str) -> u64 {
    let mut hasher = std::collections::hash_map::DefaultHasher::new();
    s.hash(&mut hasher);
    hasher.finish()
}

#[test]
fn hashes_use_default_hasher() {
    assert_eq!(hash_symbol("BTCUSDT"), reference_hash("BTCUSDT"));
    assert_eq!(hash_feed_id("0x0003"), reference_hash("0x0003"));
    assert_eq!(hash_symbol("BTCUSDT"), hash_feed_id("BTCUSDT"));
    assert_ne!(hash_symbol("BTCUSDT"), hash_symbol("ETHUSDT"));
}

#[test]
fn chainlink_auth_headers_order_and_values() {
    let client = ChainlinkClient::new(chainlink_config("api-key-1", "Jefe"));
    let headers = client.auth_headers("1700000000");
    assert_eq!(headers.len(), 3);
    assert_eq!(headers[0], ("Authorization", "api-key-1".to_string()));
    assert_eq!(headers[1], ("X-Authorization-Timestamp", "1700000000".to_string()));
    assert_eq!(headers[2].0, "X-Authorization-Signature-SHA256");
    assert_eq!(headers[2].1, client.auth_signature("1700000000"));
    assert_eq!(headers[2].1.len(), 64);
}
