use nautilus_coinbase::common::credential::{AuthError, CoinbaseCredential};
use nautilus_coinbase::common::enums::CoinbaseEnvironment;
use nautilus_coinbase::http::client::{
    best_bid_ask_query, cancel_orders_body, candles_path, candles_query, classify_response,
    full_path, market_trades_path, market_trades_query, product_book_query, product_path,
    CoinbaseRawHttpClient, ResponseBody, ResponseError,
};

#[test]
fn test_raw_client_construction_live() {
    let client = CoinbaseRawHttpClient::new(CoinbaseEnvironment::Live);
    assert_eq!(client.environment(), CoinbaseEnvironment::Live);
    assert!(!client.is_authenticated());
}

#[test]
fn test_raw_client_construction_sandbox() {
    let client = CoinbaseRawHttpClient::new(CoinbaseEnvironment::Sandbox);
    assert_eq!(client.environment(), CoinbaseEnvironment::Sandbox);
}

#[test]
fn test_raw_build_url() {
    let client = CoinbaseRawHttpClient::new(CoinbaseEnvironment::Live);
    assert_eq!(client.build_url("/products"), "https://api.coinbase.com/api/v3/brokerage/products");
}

#[test]
fn test_raw_build_jwt_uri_live() {
    let client = CoinbaseRawHttpClient::new(CoinbaseEnvironment::Live);
    assert_eq!(client.build_jwt_uri("GET", "/accounts"), "GET api.coinbase.com/api/v3/brokerage/accounts");
}

#[test]
fn test_raw_build_jwt_uri_sandbox() {
    let client = CoinbaseRawHttpClient::new(CoinbaseEnvironment::Sandbox);
    assert_eq!(
        client.build_jwt_uri("GET", "/accounts"),
        "GET api-sandbox.coinbase.com/api/v3/brokerage/accounts"
    );
}

#[test]
fn test_raw_build_jwt_uri_custom_base_url() {
    let mut client = CoinbaseRawHttpClient::new(CoinbaseEnvironment::Live);
    client.set_base_url("http://localhost:8080".to_string());
    assert_eq!(client.build_jwt_uri("POST", "/orders"), "POST localhost:8080/api/v3/brokerage/orders");
    client.set_base_url("ws.example".to_string());
    assert_eq!(client.build_jwt_uri("GET", "/x"), "GET ws.example/api/v3/brokerage/x");
}

#[test]
fn test_raw_auth_headers_without_credentials() {
    let client = CoinbaseRawHttpClient::new(CoinbaseEnvironment::Live);
    assert_eq!(client.auth_headers("GET", "/accounts").err(), Some(AuthError::NoCredentials));
}

#[test]
fn test_raw_auth_headers_with_bad_secret() {
    let client = CoinbaseRawHttpClient::from_credentials("key", "not a pem", CoinbaseEnvironment::Live);
    assert!(client.is_authenticated());
    assert_eq!(client.auth_headers("GET", "/accounts").err(), Some(AuthError::InvalidPem));
}

#[test]
fn test_domain_client_set_base_url() {
    let mut client = CoinbaseRawHttpClient::with_credentials(
        CoinbaseCredential::new("k".to_string(), "s".to_string()),
        CoinbaseEnvironment::Live,
    );
    client.set_base_url("http://localhost:9090".to_string());
    assert!(client.build_url("/test").starts_with("http://localhost:9090"));
    assert!(client.is_authenticated());
}

#[test]
fn test_request_paths_and_queries() {
    assert_eq!(product_path("BTC-USD"), "/products/BTC-USD");
    assert_eq!(candles_path("BTC-USD"), "/products/BTC-USD/candles");
    assert_eq!(market_trades_path("BTC-USD"), "/products/BTC-USD/ticker");
    assert_eq!(candles_query("1", "2", "ONE_HOUR"), "start=1&end=2&granularity=ONE_HOUR");
    assert_eq!(market_trades_query(100), "limit=100");
    assert_eq!(best_bid_ask_query(&["BTC-USD", "ETH-USD"]), "product_ids=BTC-USD&product_ids=ETH-USD");
    assert_eq!(best_bid_ask_query(&[]), "");
    assert_eq!(product_book_query("BTC-USD", Some(50)), "product_id=BTC-USD&limit=50");
    assert_eq!(product_book_query("BTC-USD", None), "product_id=BTC-USD");
    assert_eq!(full_path("/p", ""), "/p");
    assert_eq!(full_path("/p", "a=1"), "/p?a=1");
}

#[test]
fn test_cancel_orders_body() {
    assert_eq!(cancel_orders_body(&vec!["a".to_string(), "b\"c".to_string()]), "{\"order_ids\":[\"a\",\"b\\\"c\"]}");
    assert_eq!(cancel_orders_body(&vec![]), "{\"order_ids\":[]}");
}

#[test]
fn test_classify_response() {
    assert_eq!(classify_response(200, 0), Ok(ResponseBody::Null));
    assert_eq!(classify_response(201, 10), Ok(ResponseBody::Json));
    assert_eq!(classify_response(404, 10), Err(ResponseError::Status { status: 404 }));
    assert_eq!(classify_response(199, 0), Err(ResponseError::Status { status: 199 }));
}
