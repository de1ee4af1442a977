use subsquid_client::build_height_endpoint;
use subsquid_client::build_query_body;
use subsquid_client::build_worker_endpoint;
use subsquid_client::parse_u64;
use subsquid_client::u64_to_dec;
use subsquid_client::BaseUrl;
use subsquid_client::ClientError;

#[test]
fn parses_plain_decimals() {
    assert_eq!(parse_u64("0"), Ok(0));
    assert_eq!(parse_u64("7"), Ok(7));
    assert_eq!(parse_u64("100"), Ok(100));
    assert_eq!(parse_u64("007"), Ok(7));
    assert_eq!(parse_u64("18446744073709551615"), Ok(u64::MAX));
}

#[test]
fn parses_a_leading_plus_sign() {
    assert_eq!(parse_u64("+42"), Ok(42));
}

#[test]
fn rejects_text_that_is_not_a_decimal() {
    assert_eq!(parse_u64(""), Err(ClientError::IntegerDecoding));
    assert_eq!(parse_u64("+"), Err(ClientError::IntegerDecoding));
    assert_eq!(parse_u64("abc"), Err(ClientError::IntegerDecoding));
    assert_eq!(parse_u64("12a"), Err(ClientError::IntegerDecoding));
    assert_eq!(parse_u64("-1"), Err(ClientError::IntegerDecoding));
    assert_eq!(parse_u64(" 1"), Err(ClientError::IntegerDecoding));
    assert_eq!(parse_u64("1 "), Err(ClientError::IntegerDecoding));
}

#[test]
fn rejects_values_over_sixty_four_bits() {
    assert_eq!(parse_u64("18446744073709551616"), Err(ClientError::IntegerDecoding));
    assert_eq!(parse_u64("99999999999999999999999"), Err(ClientError::IntegerDecoding));
}

#[test]
fn renders_decimals_canonically() {
    assert_eq!(u64_to_dec(0), "0");
    assert_eq!(u64_to_dec(5), "5");
    assert_eq!(u64_to_dec(10), "10");
    assert_eq!(u64_to_dec(12034), "12034");
    assert_eq!(u64_to_dec(u64::MAX), "18446744073709551615");
}

#[test]
fn base_urls_are_canonicalized() {
    let url = BaseUrl::parse("http://example.org").unwrap();
    assert_eq!(url.as_str(), "http://example.org/");
}

#[test]
fn invalid_base_urls_are_rejected() {
    assert!(matches!(BaseUrl::parse("not a url"), Err(ClientError::UrlDecoding)));
    assert!(matches!(BaseUrl::parse(""), Err(ClientError::UrlDecoding)));
}

#[test]
fn builds_the_height_endpoint() {
    assert_eq!(build_height_endpoint("http://b.example"), "http://b.example/height");
}

#[test]
fn builds_the_worker_endpoint() {
    assert_eq!(build_worker_endpoint("http://b.example", 42), "http://b.example/42/worker");
}

#[test]
fn builds_the_query_document() {
    let expected = "{\"fromBlock\": 7, \"toBlock\": 7, \"fields\": {\"transaction\": {\"hash\": true}, \"log\": {}}, \"transactions\": [], \"logs\": [], \"includeAllBlocks\": true}";
    assert_eq!(build_query_body(7), expected);
}
