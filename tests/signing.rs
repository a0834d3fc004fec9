use binance_core::signer::sign;

const QUERY: &str = "symbol=BTCUSDT&side=BUY&type=MARKET&quantity=1&timestamp=1620000000000";
const DIGEST: &str = "281c4dd9952feff7ea293234eb4b4e60fa0a9e96604b4831458132c5401fbcf4";

#[test]
fn sign_matches_reference_digest() {
    assert_eq!(sign("test-secret", QUERY), DIGEST);
}

#[test]
fn sign_known_vector() {
    assert_eq!(
        sign("key", "The quick brown fox jumps over the lazy dog"),
        "f7bc83f430538424b13298e6aa6fb143ef4d59a14946175997479dbc2d1a3cd8"
    );
}

#[test]
fn sign_empty_query() {
    assert_eq!(
        sign("test-secret", ""),
        "a41bc6d81d6413576ae0994995e0ad89a416ec97389515c3604f47722122eeeb"
    );
}

#[test]
fn sign_is_repeatable() {
    assert_eq!(sign("test-secret", QUERY), sign("test-secret", QUERY));
}

#[test]
fn sign_changes_with_query_byte() {
    let other = QUERY.replace("quantity=1", "quantity=2");
    assert_ne!(sign("test-secret", QUERY), sign("test-secret", &other));
}

#[test]
fn sign_changes_with_secret_byte() {
    assert_ne!(sign("test-secret", QUERY), sign("test-secreu", QUERY));
}

#[test]
fn sign_is_lowercase_hex_of_32_bytes() {
    let s = sign("test-secret", QUERY);
    assert_eq!(s.len(), 64);
    assert!(s.chars().all(|c| c.is_ascii_digit() || ('a'..='f').contains(&c)));
}
