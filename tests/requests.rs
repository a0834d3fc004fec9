use binance_core::client::{Client, ClientError, Header, HttpRequest, Method};

const QUERY: &str = "symbol=BTCUSDT&side=BUY&type=MARKET&quantity=1&timestamp=1620000000000";
const DIGEST: &str = "281c4dd9952feff7ea293234eb4b4e60fa0a9e96604b4831458132c5401fbcf4";
const HOST: &str = "https://api.example.com";

fn client(key: &str) -> Client {
    Client::new(Some(key.to_string()), Some("test-secret".to_string()), HOST.to_string())
}

fn pairs(r: &HttpRequest) -> Vec<(String, String)> {
    r.headers.iter().map(|h: &Header| (h.name.clone(), h.value.clone())).collect()
}

fn pair(a: &str, b: &str) -> (String, String) {
    (a.to_string(), b.to_string())
}

#[test]
fn signed_target_is_query_then_signature() {
    let r = client("my-key").post_signed("/api/v3/order", QUERY).unwrap();
    assert_eq!(r.method, Method::Post);
    assert_eq!(r.url, format!("{}{}?{}&signature={}", HOST, "/api/v3/order", QUERY, DIGEST));
    assert_eq!(r.body, None);
}

#[test]
fn sign_request_builds_target() {
    let url = client("my-key").sign_request("/api/v3/order", QUERY);
    assert_eq!(url, format!("{}/api/v3/order?{}&signature={}", HOST, QUERY, DIGEST));
}

#[test]
fn signed_requests_carry_key_and_form_type() {
    let c = client("my-key");
    let want = vec![
        pair("user-agent", "binance-rs"),
        pair("content-type", "application/x-www-form-urlencoded"),
        pair("x-mbx-apikey", "my-key"),
    ];
    let g = c.get_signed("/api/v3/account", "timestamp=1").unwrap();
    assert_eq!(g.method, Method::Get);
    assert_eq!(pairs(&g), want);
    let d = c.delete_signed("/api/v3/order", "timestamp=1").unwrap();
    assert_eq!(d.method, Method::Delete);
    assert_eq!(pairs(&d), want);
}

#[test]
fn session_requests_carry_key_without_form_type() {
    let c = client("my-key");
    let want = vec![pair("user-agent", "binance-rs"), pair("x-mbx-apikey", "my-key")];
    let p = c.post("/api/v3/userDataStream").unwrap();
    assert_eq!(p.method, Method::Post);
    assert_eq!(p.url, format!("{}/api/v3/userDataStream", HOST));
    assert_eq!(p.body, None);
    assert_eq!(pairs(&p), want);
    let u = c.put("/api/v3/userDataStream", "abc123").unwrap();
    assert_eq!(u.method, Method::Put);
    assert_eq!(u.body, Some("listenKey=abc123".to_string()));
    assert_eq!(pairs(&u), want);
    let d = c.delete("/api/v3/userDataStream", "abc123").unwrap();
    assert_eq!(d.method, Method::Delete);
    assert_eq!(d.url, format!("{}/api/v3/userDataStream", HOST));
    assert_eq!(d.body, Some("listenKey=abc123".to_string()));
}

#[test]
fn plain_get_with_empty_query_has_no_question_mark() {
    let r = client("my-key").get("/api/v3/ping", "");
    assert_eq!(r.method, Method::Get);
    assert_eq!(r.url, format!("{}/api/v3/ping", HOST));
    assert!(r.headers.is_empty());
}

#[test]
fn plain_get_with_query_appends_it() {
    let r = client("my-key").get("/api/v3/depth", "symbol=BTCUSDT");
    assert_eq!(r.url, format!("{}/api/v3/depth?symbol=BTCUSDT", HOST));
    assert!(r.headers.is_empty());
}

#[test]
fn invalid_api_key_is_a_configuration_error() {
    let c = client("bad\nkey");
    assert_eq!(c.post_signed("/api/v3/order", QUERY), Err(ClientError::InvalidApiKey));
    assert_eq!(c.post("/api/v3/userDataStream"), Err(ClientError::InvalidApiKey));
    assert_eq!(c.build_headers(false), Err(ClientError::InvalidApiKey));
}

#[test]
fn tab_and_high_bytes_are_valid_in_the_key() {
    assert!(client("a\tb").build_headers(true).is_ok());
    assert!(client("caf\u{e9}").build_headers(true).is_ok());
    assert!(client("a\u{7f}b").build_headers(true).is_err());
}

#[test]
fn missing_credentials_stand_as_empty() {
    let c = Client::new(None, None, HOST.to_string());
    let h = c.build_headers(false).unwrap();
    assert_eq!(h[1].value, "");
    let r = c.get_signed("/x", "a=1").unwrap();
    assert!(r.url.starts_with(&format!("{}/x?a=1&signature=", HOST)));
}
