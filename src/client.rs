use vstd::prelude::*;
use vstd::utf8::encode_utf8;
use crate::signer::{sign, signature_of};

verus! {

/// Header that names the calling client.
pub const USER_AGENT: &'static str = "user-agent";
/// Fixed identifier sent under `USER_AGENT`.
pub const CLIENT_ID: &'static str = "binance-rs";
/// Header that carries the form content type of signed requests.
pub const CONTENT_TYPE: &'static str = "content-type";
/// Content type of signed requests.
pub const FORM_CONTENT_TYPE: &'static str = "application/x-www-form-urlencoded";
/// Header that carries the API key.
pub const API_KEY_HEADER: &'static str = "x-mbx-apikey";
/// Start of the body of session-token requests; the token follows it.
pub const LISTEN_KEY_FIELD: &'static str = "listenKey=";
/// Separates the endpoint from the query.
pub const QUERY_START: &'static str = "?";
/// Joins the signature to the signed query.
pub const SIGNATURE_FIELD: &'static str = "&signature=";

#[derive(PartialEq, Eq, Structural, Clone, Copy, Debug)]
pub enum Method {
    Get,
    Post,
    Put,
    Delete,
}

/// One header of a request.
#[derive(Clone, Debug, PartialEq, Eq)]
pub struct Header {
    pub name: String,
    pub value: String,
}

/// A request ready to be sent: what the transport must transmit, exactly.
#[derive(Clone, Debug, PartialEq, Eq)]
pub struct HttpRequest {
    pub method: Method,
    pub url: String,
    pub headers: Vec<Header>,
    pub body: Option<String>,
}

/// Errors decided by the request engine.
#[derive(Clone, Debug, PartialEq, Eq)]
pub enum ClientError {
    /// The API key holds a byte that an HTTP header value cannot hold.
    InvalidApiKey,
    /// Status 500.
    InternalServerError,
    /// Status 503.
    ServiceUnavailable,
    /// Status 401.
    Unauthorized,
    /// Status 400 with an error body of the venue.
    Domain { code: i64, msg: String },
    /// Status 400 whose body is not an error body of the venue.
    MalformedErrorBody,
    /// Any other status but 200.
    UnexpectedStatus(u16),
}

pub open spec fn header_pairs(h: Seq<Header>) -> Seq<(Seq<char>, Seq<char>)> {
    h.map_values(|x: Header| (x.name@, x.value@))
}

pub open spec fn body_view(b: Option<String>) -> Option<Seq<char>> {
    match b {
        Some(s) => Some(s@),
        None => None,
    }
}

/// The headers of an authenticated request, in order: the client identifier,
/// the form content type where `form` holds, and the API key.
pub open spec fn auth_headers(form: bool, api_key: Seq<char>) -> Seq<(Seq<char>, Seq<char>)> {
    if form {
        seq![(USER_AGENT@, CLIENT_ID@), (CONTENT_TYPE@, FORM_CONTENT_TYPE@), (API_KEY_HEADER@, api_key)]
    } else {
        seq![(USER_AGENT@, CLIENT_ID@), (API_KEY_HEADER@, api_key)]
    }
}

/// Every authenticated request carries the API-key header; a form request
/// also carries the form content type.
pub proof fn lemma_auth_headers_present(form: bool, api_key: Seq<char>)
    ensures
        auth_headers(form, api_key).contains((API_KEY_HEADER@, api_key)),
        form ==> auth_headers(form, api_key).contains((CONTENT_TYPE@, FORM_CONTENT_TYPE@)),
{
    let h = auth_headers(form, api_key);
    if form {
        assert(h[2] == (API_KEY_HEADER@, api_key));
        assert(h[1] == (CONTENT_TYPE@, FORM_CONTENT_TYPE@));
    } else {
        assert(h[1] == (API_KEY_HEADER@, api_key));
    }
}

/// A byte that an HTTP header value may hold: a tab or any byte from 32 up, but 127.
pub open spec fn header_byte_ok(b: u8) -> bool {
    (b >= 32 && b != 127) || b == 9
}

pub open spec fn valid_header_value(s: Seq<char>) -> bool {
    forall|i: int| 0 <= i < encode_utf8(s).len() ==> header_byte_ok(#[trigger] encode_utf8(s)[i])
}

/// What the transport receives: host, endpoint, and the query after `?`
/// where it is not empty.
pub open spec fn plain_url(host: Seq<char>, endpoint: Seq<char>, query: Seq<char>) -> Seq<char> {
    if query.len() == 0 {
        host + endpoint
    } else {
        host + endpoint + QUERY_START@ + query
    }
}

/// Target of a signed request: the query as given, then its signature.
pub open spec fn signed_url(host: Seq<char>, endpoint: Seq<char>, secret: Seq<char>, query: Seq<char>) -> Seq<char> {
    host + endpoint + QUERY_START@ + query + SIGNATURE_FIELD@ + signature_of(secret, query)
}

/// Relies on reqwest::header::HeaderValue::from_str (http 0.2): it accepts a
/// string exactly when each of its bytes is a tab or a byte from 32 up, but 127.
#[verifier::external_body]
fn header_value_accepted(s: &str) -> (r: bool)
    ensures
        r == valid_header_value(s@),
{
    reqwest::header::HeaderValue::from_str(s).is_ok()
}

fn text(s: &str) -> (r: String)
    ensures
        r@ == s@,
{
    String::from_str(s)
}

fn header(name: &str, value: &str) -> (r: Header)
    ensures
        r.name@ == name@,
        r.value@ == value@,
{
    Header { name: text(name), value: text(value) }
}

/// What an authenticated request must be: refused exactly when the API key
/// cannot stand in a header, else the given method, target and body with the
/// authenticated headers.
pub open spec fn authenticated_result(
    api_key: Seq<char>,
    r: Result<HttpRequest, ClientError>,
    method: Method,
    url: Seq<char>,
    form: bool,
    body: Option<Seq<char>>,
) -> bool {
    match r {
        Ok(q) => valid_header_value(api_key) && q.method == method && q.url@ == url && header_pairs(
            q.headers@,
        ) == auth_headers(form, api_key) && body_view(q.body) == body,
        Err(e) => !valid_header_value(api_key) && e == ClientError::InvalidApiKey,
    }
}

pub struct ClientView {
    pub api_key: Seq<char>,
    pub secret_key: Seq<char>,
    pub host: Seq<char>,
}

/// Credentials and host of the venue. The secret is used only to sign.
#[derive(Clone)]
pub struct Client {
    api_key: String,
    secret_key: String,
    host: String,
}

impl View for Client {
    type V = ClientView;

    closed spec fn view(&self) -> ClientView {
        ClientView { api_key: self.api_key@, secret_key: self.secret_key@, host: self.host@ }
    }
}

pub open spec fn key_or_empty(k: Option<String>) -> Seq<char> {
    match k {
        Some(s) => s@,
        None => Seq::empty(),
    }
}

impl Client {
    /// A client for `host`; a missing key stands as the empty string.
    pub fn new(api_key: Option<String>, secret_key: Option<String>, host: String) -> (r: Client)
        ensures
            r@.api_key == key_or_empty(api_key),
            r@.secret_key == key_or_empty(secret_key),
            r@.host == host@,
    {
        let api_key = match api_key {
            Some(k) => k,
            None => String::new(),
        };
        let secret_key = match secret_key {
            Some(k) => k,
            None => String::new(),
        };
        Client { api_key, secret_key, host }
    }

    fn endpoint_url(&self, endpoint: &str) -> (r: String)
        ensures
            r@ == self@.host + endpoint@,
    {
        let mut url = text(self.host.as_str());
        url.append(endpoint);
        url
    }

    /// The target of a signed request: the query exactly as given, followed by
    /// `&signature=` and the signature of the query under the secret.
    pub fn sign_request(&self, endpoint: &str, request: &str) -> (r: String)
        ensures
            r@ == signed_url(self@.host, endpoint@, self@.secret_key, request@),
            signature_of(self@.secret_key, request@).len() == 64,
    {
        let signature = sign(self.secret_key.as_str(), request);
        let mut url = self.endpoint_url(endpoint);
        url.append(QUERY_START);
        url.append(request);
        url.append(SIGNATURE_FIELD);
        url.append(signature.as_str());
        url
    }

    /// The headers of an authenticated request; refused when the API key
    /// cannot stand in a header.
    pub fn build_headers(&self, content_type: bool) -> (r: Result<Vec<Header>, ClientError>)
        ensures
            r is Ok <==> valid_header_value(self@.api_key),
            r matches Ok(h) ==> header_pairs(h@) == auth_headers(content_type, self@.api_key),
            r matches Err(e) ==> e == ClientError::InvalidApiKey,
    {
        if !header_value_accepted(self.api_key.as_str()) {
            return Err(ClientError::InvalidApiKey);
        }
        let mut headers: Vec<Header> = Vec::new();
        headers.push(header(USER_AGENT, CLIENT_ID));
        if content_type {
            headers.push(header(CONTENT_TYPE, FORM_CONTENT_TYPE));
        }
        headers.push(header(API_KEY_HEADER, self.api_key.as_str()));
        assert(header_pairs(headers@) =~= auth_headers(content_type, self@.api_key));
        Ok(headers)
    }

    fn authenticated(&self, method: Method, url: String, form: bool, body: Option<String>) -> (r: Result<
        HttpRequest,
        ClientError,
    >)
        ensures
            authenticated_result(self@.api_key, r, method, url@, form, body_view(body)),
    {
        let headers = self.build_headers(form)?;
        Ok(HttpRequest { method, url, headers, body })
    }

    /// A signed GET of `endpoint` with the query `request`.
    pub fn get_signed(&self, endpoint: &str, request: &str) -> (r: Result<HttpRequest, ClientError>)
        ensures
            authenticated_result(
                self@.api_key,
                r,
                Method::Get,
                signed_url(self@.host, endpoint@, self@.secret_key, request@),
                true,
                None,
            ),
    {
        let url = self.sign_request(endpoint, request);
        self.authenticated(Method::Get, url, true, None)
    }

    /// A signed POST of `endpoint` with the query `request`.
    pub fn post_signed(&self, endpoint: &str, request: &str) -> (r: Result<HttpRequest, ClientError>)
        ensures
            authenticated_result(
                self@.api_key,
                r,
                Method::Post,
                signed_url(self@.host, endpoint@, self@.secret_key, request@),
                true,
                None,
            ),
    {
        let url = self.sign_request(endpoint, request);
        self.authenticated(Method::Post, url, true, None)
    }

    /// A signed DELETE of `endpoint` with the query `request`.
    pub fn delete_signed(&self, endpoint: &str, request: &str) -> (r: Result<HttpRequest, ClientError>)
        ensures
            authenticated_result(
                self@.api_key,
                r,
                Method::Delete,
                signed_url(self@.host, endpoint@, self@.secret_key, request@),
                true,
                None,
            ),
    {
        let url = self.sign_request(endpoint, request);
        self.authenticated(Method::Delete, url, true, None)
    }

    /// An unsigned GET without headers; `?` and the query follow the endpoint
    /// only where the query is not empty.
    pub fn get(&self, endpoint: &str, request: &str) -> (r: HttpRequest)
        ensures
            r.method == Method::Get,
            r.url@ == plain_url(self@.host, endpoint@, request@),
            r.headers@.len() == 0,
            r.body is None,
    {
        let mut url = self.endpoint_url(endpoint);
        if !request.is_empty() {
            url.append(QUERY_START);
            url.append(request);
        }
        HttpRequest { method: Method::Get, url, headers: Vec::new(), body: None }
    }

    /// A POST of `endpoint` that carries the API key but no signature.
    pub fn post(&self, endpoint: &str) -> (r: Result<HttpRequest, ClientError>)
        ensures
            authenticated_result(self@.api_key, r, Method::Post, self@.host + endpoint@, false, None),
    {
        let url = self.endpoint_url(endpoint);
        self.authenticated(Method::Post, url, false, None)
    }

    fn listen_key_body(listen_key: &str) -> (r: String)
        ensures
            r@ == LISTEN_KEY_FIELD@ + listen_key@,
    {
        let mut body = text(LISTEN_KEY_FIELD);
        body.append(listen_key);
        body
    }

    /// A PUT of `endpoint` that carries the API key and the session token in
    /// its body.
    pub fn put(&self, endpoint: &str, listen_key: &str) -> (r: Result<HttpRequest, ClientError>)
        ensures
            authenticated_result(
                self@.api_key,
                r,
                Method::Put,
                self@.host + endpoint@,
                false,
                Some(LISTEN_KEY_FIELD@ + listen_key@),
            ),
    {
        let url = self.endpoint_url(endpoint);
        self.authenticated(Method::Put, url, false, Some(Self::listen_key_body(listen_key)))
    }

    /// A DELETE of `endpoint` that carries the API key and the session token
    /// in its body.
    pub fn delete(&self, endpoint: &str, listen_key: &str) -> (r: Result<HttpRequest, ClientError>)
        ensures
            authenticated_result(
                self@.api_key,
                r,
                Method::Delete,
                self@.host + endpoint@,
                false,
                Some(LISTEN_KEY_FIELD@ + listen_key@),
            ),
    {
        let url = self.endpoint_url(endpoint);
        self.authenticated(Method::Delete, url, false, Some(Self::listen_key_body(listen_key)))
    }
}

/// Field of a venue error body that holds its integer code.
pub const ERROR_CODE_FIELD: &'static str = "code";
/// Field of a venue error body that holds its message.
pub const ERROR_MSG_FIELD: &'static str = "msg";

/// The integer at the top-level field `int_key` and the string at the
/// top-level field `text_key` of `text` read as JSON, or none where either
/// is missing or of another type, or the text is not JSON.
pub uninterp spec fn json_int_and_text(text: Seq<char>, int_key: Seq<char>, text_key: Seq<char>) -> Option<
    (i64, Seq<char>),
>;

/// Relies on serde_json::from_str into serde_json::Value, and on the value's
/// field lookup with as_i64 and as_str: the integer and the string at the two
/// fields, or none.
#[verifier::external_body]
fn json_int_and_text_fields(text: &str, int_key: &str, text_key: &str) -> (r: Option<(i64, String)>)
    ensures
        json_int_and_text(text@, int_key@, text_key@) == (match r {
            Some((c, m)) => Some((c, m@)),
            None => None::<(i64, Seq<char>)>,
        }),
{
    let v: serde_json::Value = serde_json::from_str(text).ok()?;
    Some((v[int_key].as_i64()?, v[text_key].as_str()?.to_string()))
}

/// The code and message of a venue error body `{"code": integer, "msg": string}`,
/// or none where the text is not such a body.
pub open spec fn error_body_of(text: Seq<char>) -> Option<(i64, Seq<char>)> {
    json_int_and_text(text, ERROR_CODE_FIELD@, ERROR_MSG_FIELD@)
}

/// What a response of any status but 400 means.
pub open spec fn response_outcome(status: u16, body: String) -> Result<String, ClientError> {
    if status == 200 {
        Ok(body)
    } else if status == 500 {
        Err(ClientError::InternalServerError)
    } else if status == 503 {
        Err(ClientError::ServiceUnavailable)
    } else if status == 401 {
        Err(ClientError::Unauthorized)
    } else {
        Err(ClientError::UnexpectedStatus(status))
    }
}

/// Classifies a response: the body for 200, a fixed error for 500, 503 and
/// 401, the venue's error for 400, and the status itself for any other.
pub fn handle_response(status: u16, body: String) -> (r: Result<String, ClientError>)
    ensures
        status != 400 ==> r == response_outcome(status, body),
        status == 400 ==> match error_body_of(body@) {
            Some((c, m)) => r matches Err(ClientError::Domain { code, msg }) && code == c && msg@ == m,
            None => r == Err::<String, ClientError>(ClientError::MalformedErrorBody),
        },
{
    if status == 200 {
        Ok(body)
    } else if status == 500 {
        Err(ClientError::InternalServerError)
    } else if status == 503 {
        Err(ClientError::ServiceUnavailable)
    } else if status == 401 {
        Err(ClientError::Unauthorized)
    } else if status == 400 {
        match json_int_and_text_fields(body.as_str(), ERROR_CODE_FIELD, ERROR_MSG_FIELD) {
            Some((code, msg)) => Err(ClientError::Domain { code, msg }),
            None => Err(ClientError::MalformedErrorBody),
        }
    } else {
        Err(ClientError::UnexpectedStatus(status))
    }
}

/// Each mapped status gives its fixed outcome, and any status outside the
/// table gives an unexpected-status error that carries it.
pub proof fn lemma_status_table(status: u16, body: String)
    ensures
        status == 200 ==> response_outcome(status, body) == Ok::<String, ClientError>(body),
        status == 500 ==> response_outcome(status, body) == Err::<String, ClientError>(
            ClientError::InternalServerError,
        ),
        status == 503 ==> response_outcome(status, body) == Err::<String, ClientError>(
            ClientError::ServiceUnavailable,
        ),
        status == 401 ==> response_outcome(status, body) == Err::<String, ClientError>(ClientError::Unauthorized),
        (status != 200 && status != 400 && status != 401 && status != 500 && status != 503)
            ==> response_outcome(status, body) == Err::<String, ClientError>(
            ClientError::UnexpectedStatus(status),
        ),
{
}

} // verus!
