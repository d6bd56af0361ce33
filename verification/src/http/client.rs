//! Request construction for the Coinbase Advanced Trade REST API: URLs, token claims,
//! authorization headers, endpoint paths and queries, and the response status rules.
//! Sending requests is left to the transport that the caller owns.

use crate::common::credential::{
    issued_token, jwt_failure_cause, json_string, json_string_text, opt_chars, pem_contents, ec_key_accepted, AuthError,
    CoinbaseCredential, JWT_EXPIRY_SECS,
};
use crate::common::enums::CoinbaseEnvironment;
use crate::string::{chars_of, decimal_digits, push_decimal, push_str, spec_trim, string_from_chars};
use vstd::prelude::*;
use vstd::utf8::encode_utf8;

verus! {

/// Path prefix of the brokerage REST API.
pub const REST_API_PATH: &'static str = "/api/v3/brokerage";

/// REST base URL of the live environment.
pub const REST_URL_LIVE: &'static str = "https://api.coinbase.com";

/// REST base URL of the sandbox environment.
pub const REST_URL_SANDBOX: &'static str = "https://api-sandbox.coinbase.com";

/// Requests allowed per second.
pub const RATE_LIMIT_PER_SECOND: u32 = 30;

/// The REST base URL of an environment.
pub open spec fn spec_rest_url(environment: CoinbaseEnvironment) -> Seq<char> {
    match environment {
        CoinbaseEnvironment::Live => REST_URL_LIVE@,
        CoinbaseEnvironment::Sandbox => REST_URL_SANDBOX@,
    }
}

/// The REST base URL of an environment.
pub fn rest_url(environment: CoinbaseEnvironment) -> (url: &'static str)
    ensures
        url@ == spec_rest_url(environment),
{
    match environment {
        CoinbaseEnvironment::Live => REST_URL_LIVE,
        CoinbaseEnvironment::Sandbox => REST_URL_SANDBOX,
    }
}

/// `url` without a leading `https://` or, failing that, `http://`.
pub open spec fn strip_scheme(url: Seq<char>) -> Seq<char> {
    if "https://"@.is_prefix_of(url) {
        url.skip(8)
    } else if "http://"@.is_prefix_of(url) {
        url.skip(7)
    } else {
        url
    }
}

/// `s` without the leading `prefix`, if it starts with it.
fn strip_prefix_chars(s: &Vec<char>, prefix: &str) -> (r: Option<Vec<char>>)
    ensures
        prefix@.is_prefix_of(s@) ==> (r matches Some(v) && v@ == s@.skip(prefix@.len() as int)),
        !prefix@.is_prefix_of(s@) ==> r is None,
{
    let p = chars_of(prefix);
    if p.len() > s.len() {
        return None;
    }
    let mut i: usize = 0;
    while i < p.len()
        invariant
            p@ == prefix@,
            p.len() <= s.len(),
            i <= p.len(),
            forall|k: int| 0 <= k < i ==> p@[k] == s@[k],
        decreases p.len() - i,
    {
        if p[i] != s[i] {
            proof {
                assert(s@.subrange(0, p@.len() as int)[i as int] != p@[i as int]);
            }
            return None;
        }
        i += 1;
    }
    proof {
        assert(p@ =~= s@.subrange(0, p@.len() as int));
    }
    let mut out: Vec<char> = Vec::new();
    let mut k: usize = p.len();
    while k < s.len()
        invariant
            p.len() <= k <= s.len(),
            out@ == s@.subrange(p.len() as int, k as int),
        decreases s.len() - k,
    {
        out.push(s[k]);
        proof {
            assert(s@.subrange(p.len() as int, k + 1) =~= s@.subrange(p.len() as int, k as int).push(s@[k as int]));
        }
        k += 1;
    }
    proof {
        assert(out@ =~= s@.skip(p@.len() as int));
    }
    Some(out)
}

/// `path`, with `?` and `query` appended when the query is not empty.
pub open spec fn spec_full_path(path: Seq<char>, query: Seq<char>) -> Seq<char> {
    if query.len() == 0 {
        path
    } else {
        path + seq!['?'] + query
    }
}

/// `path`, with `?` and `query` appended when the query is not empty.
pub fn full_path(path: &str, query: &str) -> (s: String)
    ensures
        s@ == spec_full_path(path@, query@),
{
    let mut out: Vec<char> = Vec::new();
    push_str(&mut out, path);
    if !query.is_empty() {
        out.push('?');
        push_str(&mut out, query);
    }
    proof {
        assert(out@ =~= spec_full_path(path@, query@));
    }
    string_from_chars(&out)
}

/// Concatenation of two strings.
fn concat(a: &str, b: &str) -> (s: String)
    ensures
        s@ == a@ + b@,
{
    let mut out: Vec<char> = Vec::new();
    push_str(&mut out, a);
    push_str(&mut out, b);
    string_from_chars(&out)
}

/// The path of one product.
pub fn product_path(product_id: &str) -> (s: String)
    ensures
        s@ == "/products/"@ + product_id@,
{
    concat("/products/", product_id)
}

/// The path of a product's candles.
pub fn candles_path(product_id: &str) -> (s: String)
    ensures
        s@ == "/products/"@ + product_id@ + "/candles"@,
{
    let p = product_path(product_id);
    concat(p.as_str(), "/candles")
}

/// The path of a product's recent trades.
pub fn market_trades_path(product_id: &str) -> (s: String)
    ensures
        s@ == "/products/"@ + product_id@ + "/ticker"@,
{
    let p = product_path(product_id);
    concat(p.as_str(), "/ticker")
}

/// The path of one account.
pub fn account_path(account_id: &str) -> (s: String)
    ensures
        s@ == "/accounts/"@ + account_id@,
{
    concat("/accounts/", account_id)
}

/// The path of one historical order.
pub fn order_path(order_id: &str) -> (s: String)
    ensures
        s@ == "/orders/historical/"@ + order_id@,
{
    concat("/orders/historical/", order_id)
}

/// The query of a candles request.
pub fn candles_query(start: &str, end: &str, granularity: &str) -> (s: String)
    ensures
        s@ == "start="@ + start@ + "&end="@ + end@ + "&granularity="@ + granularity@,
{
    let mut out: Vec<char> = Vec::new();
    push_str(&mut out, "start=");
    push_str(&mut out, start);
    push_str(&mut out, "&end=");
    push_str(&mut out, end);
    push_str(&mut out, "&granularity=");
    push_str(&mut out, granularity);
    proof {
        assert(out@ =~= "start="@ + start@ + "&end="@ + end@ + "&granularity="@ + granularity@);
    }
    string_from_chars(&out)
}

/// The query of a market trades request.
pub fn market_trades_query(limit: u32) -> (s: String)
    ensures
        s@ == "limit="@ + decimal_digits(limit as nat),
{
    let mut out: Vec<char> = Vec::new();
    push_str(&mut out, "limit=");
    push_decimal(&mut out, limit as u64);
    string_from_chars(&out)
}

/// `product_ids=<id>` for each identifier, joined by `&`.
pub open spec fn spec_best_bid_ask_query(ids: Seq<Seq<char>>) -> Seq<char>
    decreases ids.len(),
{
    if ids.len() == 0 {
        Seq::empty()
    } else if ids.len() == 1 {
        "product_ids="@ + ids[0]
    } else {
        spec_best_bid_ask_query(ids.drop_last()) + "&product_ids="@ + ids.last()
    }
}

/// The query of a best bid/ask request: `product_ids=<id>` for each identifier, joined by `&`.
pub fn best_bid_ask_query(product_ids: &[&str]) -> (s: String)
    ensures
        s@ == spec_best_bid_ask_query(product_ids@.map_values(|id: &str| id@)),
{
    let ghost ids = product_ids@.map_values(|id: &str| id@);
    let mut out: Vec<char> = Vec::new();
    let mut i: usize = 0;
    while i < product_ids.len()
        invariant
            i <= product_ids.len(),
            ids == product_ids@.map_values(|id: &str| id@),
            out@ == spec_best_bid_ask_query(ids.take(i as int)),
        decreases product_ids.len() - i,
    {
        if i > 0 {
            out.push('&');
        }
        push_str(&mut out, "product_ids=");
        push_str(&mut out, product_ids[i]);
        proof {
            assert(ids.take(i + 1).drop_last() =~= ids.take(i as int));
            assert(ids.take(i + 1).last() == product_ids@[i as int]@);
            if i == 0 {
                assert(ids.take(1)[0] == product_ids@[0]@);
            }
            reveal_strlit("&product_ids=");
            reveal_strlit("product_ids=");
            assert(out@ =~= spec_best_bid_ask_query(ids.take(i + 1)));
        }
        i += 1;
    }
    proof {
        assert(ids.take(product_ids.len() as int) =~= ids);
    }
    string_from_chars(&out)
}

/// The query of an order book request, with the depth limit when given.
pub fn product_book_query(product_id: &str, limit: Option<u32>) -> (s: String)
    ensures
        s@ == "product_id="@ + product_id@ + match limit {
            Some(l) => "&limit="@ + decimal_digits(l as nat),
            None => Seq::empty(),
        },
{
    let mut out: Vec<char> = Vec::new();
    push_str(&mut out, "product_id=");
    push_str(&mut out, product_id);
    match limit {
        Some(l) => {
            push_str(&mut out, "&limit=");
            push_decimal(&mut out, l as u64);
        },
        None => {},
    }
    proof {
        assert(out@ =~= "product_id="@ + product_id@ + match limit {
            Some(l) => "&limit="@ + decimal_digits(l as nat),
            None => Seq::empty(),
        });
    }
    string_from_chars(&out)
}

/// JSON strings of `ids`, joined by commas.
pub open spec fn json_string_list(ids: Seq<Seq<char>>) -> Seq<char>
    decreases ids.len(),
{
    if ids.len() == 0 {
        Seq::empty()
    } else if ids.len() == 1 {
        json_string(ids[0])
    } else {
        json_string_list(ids.drop_last()) + seq![','] + json_string(ids.last())
    }
}

/// The body of a batch cancel request: `{"order_ids":[...]}`.
pub fn cancel_orders_body(order_ids: &Vec<String>) -> (s: String)
    ensures
        s@ == "{\"order_ids\":["@ + json_string_list(order_ids@.map_values(|id: String| id@)) + "]}"@,
{
    let ghost ids = order_ids@.map_values(|id: String| id@);
    let mut list: Vec<char> = Vec::new();
    let mut i: usize = 0;
    while i < order_ids.len()
        invariant
            i <= order_ids.len(),
            ids == order_ids@.map_values(|id: String| id@),
            list@ == json_string_list(ids.take(i as int)),
        decreases order_ids.len() - i,
    {
        if i > 0 {
            list.push(',');
        }
        let quoted = json_string_text(order_ids[i].as_str());
        push_str(&mut list, quoted.as_str());
        proof {
            assert(ids.take(i + 1).drop_last() =~= ids.take(i as int));
            assert(ids.take(i + 1).last() == order_ids@[i as int]@);
            if i == 0 {
                assert(ids.take(1)[0] == order_ids@[0]@);
            }
            assert(list@ =~= json_string_list(ids.take(i + 1)));
        }
        i += 1;
    }
    proof {
        assert(ids.take(order_ids.len() as int) =~= ids);
    }
    let mut out: Vec<char> = Vec::new();
    push_str(&mut out, "{\"order_ids\":[");
    let l = string_from_chars(&list);
    push_str(&mut out, l.as_str());
    push_str(&mut out, "]}");
    string_from_chars(&out)
}

/// How a response with a given status is handled: a non-2xx status is an error; a 2xx
/// response with an empty body is JSON `null`; otherwise the body is parsed as JSON.
#[derive(Debug, Clone, Copy, PartialEq, Eq, Structural)]
pub enum ResponseBody {
    /// The body is empty: the result is JSON `null`.
    Null,
    /// The body holds JSON to parse.
    Json,
}

/// Why a response is an error.
#[derive(Debug, Clone, Copy, PartialEq, Eq, Structural)]
pub enum ResponseError {
    /// The status is not a success (2xx).
    Status { status: u16 },
}

/// Classifies a response by its status and body length.
pub fn classify_response(status: u16, body_len: usize) -> (r: Result<ResponseBody, ResponseError>)
    ensures
        !(200 <= status <= 299) ==> r == Err::<ResponseBody, ResponseError>(
            ResponseError::Status { status },
        ),
        200 <= status <= 299 && body_len == 0 ==> r == Ok::<ResponseBody, ResponseError>(
            ResponseBody::Null,
        ),
        200 <= status <= 299 && body_len > 0 ==> r == Ok::<ResponseBody, ResponseError>(
            ResponseBody::Json,
        ),
{
    if status < 200 || status > 299 {
        return Err(ResponseError::Status { status });
    }
    if body_len == 0 {
        Ok(ResponseBody::Null)
    } else {
        Ok(ResponseBody::Json)
    }
}

/// `value` is `"Bearer "` and a token for `key` with the `uri` claim, signed with the key
/// whose DER bytes are `der` (see `issued_token`).
pub open spec fn is_bearer_token(key: Seq<char>, der: Seq<u8>, uri: Seq<char>, value: Seq<char>) -> bool {
    exists|t: Seq<char>| value == "Bearer "@ + t && #[trigger] issued_token(t, der, key, Some(uri))
}

/// The request side of the REST client: environment, base URL and credential.
pub struct CoinbaseRawHttpClient {
    credential: Option<CoinbaseCredential>,
    base_url: String,
    environment: CoinbaseEnvironment,
}

impl CoinbaseRawHttpClient {
    /// The base URL.
    pub closed spec fn base_url_view(&self) -> Seq<char> {
        self.base_url@
    }

    /// The environment.
    pub closed spec fn environment_view(&self) -> CoinbaseEnvironment {
        self.environment
    }

    /// The credential, by key and secret, if any.
    pub closed spec fn credential_view(&self) -> Option<(Seq<char>, Seq<char>)> {
        match self.credential {
            Some(c) => Some((c.key_view(), c.secret_view())),
            None => None,
        }
    }

    /// A client for public endpoints, at the environment's base URL.
    pub fn new(environment: CoinbaseEnvironment) -> (c: CoinbaseRawHttpClient)
        ensures
            c.environment_view() == environment,
            c.base_url_view() == spec_rest_url(environment),
            c.credential_view() is None,
    {
        CoinbaseRawHttpClient {
            credential: None,
            base_url: rest_url(environment).to_owned(),
            environment,
        }
    }

    /// A client for authenticated endpoints, at the environment's base URL.
    pub fn with_credentials(credential: CoinbaseCredential, environment: CoinbaseEnvironment) -> (c:
        CoinbaseRawHttpClient)
        ensures
            c.environment_view() == environment,
            c.base_url_view() == spec_rest_url(environment),
            c.credential_view() == Some((credential.key_view(), credential.secret_view())),
    {
        CoinbaseRawHttpClient {
            credential: Some(credential),
            base_url: rest_url(environment).to_owned(),
            environment,
        }
    }

    /// A client for authenticated endpoints with the given key and secret.
    pub fn from_credentials(api_key: &str, api_secret: &str, environment: CoinbaseEnvironment) -> (c:
        CoinbaseRawHttpClient)
        ensures
            c.environment_view() == environment,
            c.base_url_view() == spec_rest_url(environment),
            c.credential_view() == Some((api_key@, api_secret@)),
    {
        let credential = CoinbaseCredential::new(api_key.to_owned(), api_secret.to_owned());
        CoinbaseRawHttpClient::with_credentials(credential, environment)
    }

    /// Overrides the base URL (for tests against a mock server).
    pub fn set_base_url(&mut self, url: String)
        ensures
            final(self).base_url_view() == url@,
            final(self).environment_view() == old(self).environment_view(),
            final(self).credential_view() == old(self).credential_view(),
    {
        self.base_url = url;
    }

    /// The configured environment.
    pub fn environment(&self) -> (e: CoinbaseEnvironment)
        ensures
            e == self.environment_view(),
    {
        self.environment
    }

    /// Whether the client has a credential.
    pub fn is_authenticated(&self) -> (b: bool)
        ensures
            b == self.credential_view() is Some,
    {
        self.credential.is_some()
    }

    /// The URL of an API path: base URL, API prefix, path.
    pub fn build_url(&self, path: &str) -> (s: String)
        ensures
            s@ == self.base_url_view() + REST_API_PATH@ + path@,
    {
        let mut out: Vec<char> = Vec::new();
        push_str(&mut out, self.base_url.as_str());
        push_str(&mut out, REST_API_PATH);
        push_str(&mut out, path);
        string_from_chars(&out)
    }

    /// The `uri` claim of a request token: method, space, host (the base URL without its
    /// scheme), API prefix, path.
    pub fn build_jwt_uri(&self, method: &str, path: &str) -> (s: String)
        ensures
            s@ == method@ + seq![' '] + strip_scheme(self.base_url_view()) + REST_API_PATH@ + path@,
    {
        let base = chars_of(self.base_url.as_str());
        let host = match strip_prefix_chars(&base, "https://") {
            Some(h) => h,
            None => match strip_prefix_chars(&base, "http://") {
                Some(h) => h,
                None => base,
            },
        };
        proof {
            reveal_strlit("https://");
            reveal_strlit("http://");
        }
        let mut out: Vec<char> = Vec::new();
        push_str(&mut out, method);
        out.push(' ');
        let host_text = string_from_chars(&host);
        push_str(&mut out, host_text.as_str());
        push_str(&mut out, REST_API_PATH);
        push_str(&mut out, path);
        proof {
            assert(out@ =~= method@ + seq![' '] + strip_scheme(self.base_url_view()) + REST_API_PATH@
                + path@);
        }
        string_from_chars(&out)
    }

    /// The authorization header of a request: `("Authorization", "Bearer <token>")`, the
    /// token's `uri` claim being `build_jwt_uri(method, path)`. Fails without a credential,
    /// or when no token can be made.
    pub fn auth_headers(&self, method: &str, path: &str) -> (r: Result<(String, String), AuthError>)
        ensures
            self.credential_view() is None ==> r == Err::<(String, String), AuthError>(
                AuthError::NoCredentials,
            ),
            r matches Err(e) ==> (self.credential_view() matches Some((key, secret))
                ==> jwt_failure_cause(secret, e)),
            r matches Ok((name, value)) ==> (self.credential_view() matches Some((key, secret))
                && name@ == "Authorization"@ && (pem_contents(encode_utf8(spec_trim(secret)))
                matches Some(der) && ec_key_accepted(der) && is_bearer_token(
                key,
                der,
                method@ + seq![' '] + strip_scheme(self.base_url_view()) + REST_API_PATH@ + path@,
                value@,
            ))),
    {
        let credential = match &self.credential {
            Some(c) => c,
            None => return Err(AuthError::NoCredentials),
        };
        let uri = self.build_jwt_uri(method, path);
        let jwt = credential.build_rest_jwt(uri.as_str())?;
        let value = concat("Bearer ", jwt.as_str());
        proof {
            let der = pem_contents(encode_utf8(spec_trim(credential.secret_view()))).unwrap();
            let spec_uri = method@ + seq![' '] + strip_scheme(self.base_url_view()) + REST_API_PATH@ + path@;
            assert(uri@ == spec_uri);
            assert(issued_token(jwt@, der, credential.key_view(), Some(spec_uri)));
            assert(value@ == "Bearer "@ + jwt@);
            assert(is_bearer_token(credential.key_view(), der, spec_uri, value@));
        }
        Ok(("Authorization".to_owned(), value))
    }
}

} // verus!
