use std::io::{Cursor, Read};

use time_manager::http::{
    allowed_cors_origin, body_from_bytes, body_read_limit, config_reply, has_valid_ingest_token,
    header_value, ingest_reply, is_config_path, is_usage_events_path, read_limited_body,
    request_reply, with_cors, BodyReadError, Header, IngestOutcome, Reply, RequestMethod,
    COMPANION_EXTENSION_ORIGIN, MAX_INGEST_BODY_BYTES,
};

const INSTALL_TOKEN: &str = "0123456789abcdef0123456789abcdef0123456789abcdef0123456789abcdef";
const COMMITTED_DEV_TOKEN: &str = "superpower-time-manager-dev-token";

fn header(field: &str, value: &str) -> Header {
    Header::new(field, value)
}

fn token_headers() -> Vec<Header> {
    vec![header("x-time-manager-token", INSTALL_TOKEN)]
}

#[test]
fn accepts_only_usage_events_path() {
    assert!(is_usage_events_path("/usage-events"));
    assert!(!is_usage_events_path("/"));
}

#[test]
fn usage_events_path_ignores_query_only() {
    assert!(is_usage_events_path("/usage-events?source=extension"));
    assert!(is_usage_events_path("/usage-events?"));
    assert!(!is_usage_events_path("/usage-events/"));
    assert!(!is_usage_events_path("/usage-eventsx"));
    assert!(!is_usage_events_path("?/usage-events"));
    assert!(!is_usage_events_path(""));
}

#[test]
fn accepts_only_matching_ingest_token() {
    let valid_headers = vec![header("x-time-manager-token", INSTALL_TOKEN)];
    assert!(has_valid_ingest_token(&valid_headers, INSTALL_TOKEN));

    let invalid_headers = vec![header("x-time-manager-token", "wrong-token")];
    assert!(!has_valid_ingest_token(&invalid_headers, INSTALL_TOKEN));

    let committed_headers = vec![header("x-time-manager-token", COMMITTED_DEV_TOKEN)];
    assert!(!has_valid_ingest_token(&committed_headers, INSTALL_TOKEN));

    let missing_headers = vec![header("content-type", "application/json")];
    assert!(!has_valid_ingest_token(&missing_headers, INSTALL_TOKEN));
}

#[test]
fn token_header_name_ignores_ascii_case_and_first_match_wins() {
    let upper = vec![header("X-Time-Manager-Token", INSTALL_TOKEN)];
    assert!(has_valid_ingest_token(&upper, INSTALL_TOKEN));

    let shadowed = vec![
        header("x-time-manager-token", "wrong-token"),
        header("x-time-manager-token", INSTALL_TOKEN),
    ];
    assert!(!has_valid_ingest_token(&shadowed, INSTALL_TOKEN));
}

#[test]
fn header_value_finds_first_header_by_name() {
    let headers = vec![
        header("Content-Type", "application/json"),
        header("Origin", "chrome-extension://abc"),
        header("origin", "https://example.com"),
    ];
    assert_eq!(header_value(&headers, "origin"), Some("chrome-extension://abc"));
    assert_eq!(header_value(&headers, "CONTENT-TYPE"), Some("application/json"));
    assert_eq!(header_value(&headers, "x-missing"), None);
}

#[test]
fn allows_only_chrome_extension_cors_origins() {
    assert_eq!(
        COMPANION_EXTENSION_ORIGIN,
        "chrome-extension://okcchcpgcebnenmenmfjbpnnkjoepien"
    );
    assert_eq!(
        allowed_cors_origin(Some("chrome-extension://okcchcpgcebnenmenmfjbpnnkjoepien")),
        Some("chrome-extension://okcchcpgcebnenmenmfjbpnnkjoepien")
    );
    assert_eq!(allowed_cors_origin(Some("chrome-extension://abcdefghijk")), None);
    assert_eq!(
        allowed_cors_origin(Some("chrome-extension://okcchcpgcebnenmenmfjbpnnkjoepien/x")),
        None
    );
    assert_eq!(allowed_cors_origin(Some("https://example.com")), None);
    assert_eq!(allowed_cors_origin(None), None);
}

fn find_header<'a>(reply: &'a Reply, name: &str) -> Option<&'a str> {
    reply
        .headers
        .iter()
        .find(|h| h.field.eq_ignore_ascii_case(name))
        .map(|h| h.value.as_str())
}

#[test]
fn cors_headers_do_not_allow_arbitrary_web_origins() {
    let response = with_cors(Reply::new(200, "ok"), Some("https://example.com"));
    assert!(response
        .headers
        .iter()
        .all(|header| !header.field.eq_ignore_ascii_case("Access-Control-Allow-Origin")));

    let response = with_cors(Reply::new(200, "ok"), Some("chrome-extension://abcdefghijk"));
    assert_eq!(find_header(&response, "Access-Control-Allow-Origin"), None);

    let response = with_cors(Reply::new(200, "ok"), Some(COMPANION_EXTENSION_ORIGIN));
    let origin = find_header(&response, "Access-Control-Allow-Origin");
    assert_eq!(origin, Some(COMPANION_EXTENSION_ORIGIN));
}

#[test]
fn cors_keeps_reply_and_appends_headers_in_order() {
    let reply = with_cors(Reply::new(202, "ok"), Some(COMPANION_EXTENSION_ORIGIN));
    assert_eq!(reply.status, 202);
    assert_eq!(reply.body, "ok");
    let pairs: Vec<(&str, &str)> = reply
        .headers
        .iter()
        .map(|h| (h.field.as_str(), h.value.as_str()))
        .collect();
    assert_eq!(
        pairs,
        vec![
            ("Access-Control-Allow-Methods", "POST, OPTIONS"),
            ("Access-Control-Allow-Headers", "content-type, x-time-manager-token"),
            ("Vary", "Origin"),
            ("Access-Control-Allow-Origin", COMPANION_EXTENSION_ORIGIN),
        ]
    );

    let plain = with_cors(Reply::new(404, "not found"), None);
    assert_eq!(plain.status, 404);
    assert_eq!(plain.headers.len(), 2);
    assert_eq!(find_header(&plain, "Vary"), None);
}

#[test]
fn rejects_oversized_declared_body_before_reading() {
    let body = "{}";
    let result = read_limited_body(Cursor::new(body), Some(MAX_INGEST_BODY_BYTES + 1));

    assert_eq!(result, Err(BodyReadError::TooLarge));
}

#[test]
fn rejects_oversized_body_without_declared_length() {
    let body = "x".repeat(MAX_INGEST_BODY_BYTES + 1);
    let result = read_limited_body(Cursor::new(body), None);

    assert_eq!(result, Err(BodyReadError::TooLarge));
}

#[test]
fn accepts_body_within_limit() {
    let result = read_limited_body(Cursor::new("{\"ok\":true}"), None);

    assert_eq!(result, Ok("{\"ok\":true}".to_string()));
}

#[test]
fn accepts_body_of_exactly_the_limit() {
    let body = "y".repeat(MAX_INGEST_BODY_BYTES);
    let result = read_limited_body(Cursor::new(body.clone()), Some(MAX_INGEST_BODY_BYTES));
    assert_eq!(result, Ok(body));
    assert_eq!(MAX_INGEST_BODY_BYTES, 16384);
}

#[test]
fn rejects_body_that_is_not_utf8() {
    let result = read_limited_body(Cursor::new(vec![0x7b, 0xff, 0x7d]), None);
    assert_eq!(result, Err(BodyReadError::Invalid));
    assert_eq!(body_from_bytes(Some(vec![0xc3])), Err(BodyReadError::Invalid));
}

struct FailingReader;

impl Read for FailingReader {
    fn read(&mut self, _buf: &mut [u8]) -> std::io::Result<usize> {
        Err(std::io::Error::new(std::io::ErrorKind::Other, "boom"))
    }
}

#[test]
fn reports_read_failure() {
    assert_eq!(read_limited_body(FailingReader, Some(10)), Err(BodyReadError::ReadFailed));
    assert_eq!(body_from_bytes(None), Err(BodyReadError::ReadFailed));
}

#[test]
fn body_from_bytes_decodes_text() {
    assert_eq!(body_from_bytes(Some("héllo".as_bytes().to_vec())), Ok("héllo".to_string()));
    assert_eq!(
        body_from_bytes(Some(vec![b'a'; MAX_INGEST_BODY_BYTES + 1])),
        Err(BodyReadError::TooLarge)
    );
}

#[test]
fn routes_requests_before_reading_the_body() {
    let t = INSTALL_TOKEN;
    let preflight = request_reply(RequestMethod::Options, "/anything", &[], t).unwrap();
    assert_eq!((preflight.status, preflight.body.as_str()), (204, ""));

    let other = request_reply(RequestMethod::Other, "/usage-events", &token_headers(), t).unwrap();
    assert_eq!((other.status, other.body.as_str()), (404, "not found"));

    let get = request_reply(RequestMethod::Get, "/usage-events", &token_headers(), t).unwrap();
    assert_eq!((get.status, get.body.as_str()), (404, "not found"));

    let wrong_path = request_reply(RequestMethod::Post, "/config", &token_headers(), t).unwrap();
    assert_eq!((wrong_path.status, wrong_path.body.as_str()), (404, "not found"));

    let no_token = request_reply(RequestMethod::Post, "/usage-events", &[], t).unwrap();
    assert_eq!((no_token.status, no_token.body.as_str()), (401, "unauthorized"));

    let dev_token = vec![header("x-time-manager-token", COMMITTED_DEV_TOKEN)];
    let committed = request_reply(RequestMethod::Post, "/usage-events", &dev_token, t).unwrap();
    assert_eq!((committed.status, committed.body.as_str()), (401, "unauthorized"));

    assert!(request_reply(RequestMethod::Post, "/usage-events?x=1", &token_headers(), t).is_none());
}

#[test]
fn answers_each_ingest_outcome() {
    let cases = vec![
        (IngestOutcome::BodyRejected(BodyReadError::TooLarge), 413, "payload too large"),
        (IngestOutcome::BodyRejected(BodyReadError::Invalid), 400, "bad request"),
        (IngestOutcome::BodyRejected(BodyReadError::ReadFailed), 400, "bad request"),
        (IngestOutcome::Unparsable, 400, "bad request"),
        (IngestOutcome::StoreUnavailable, 400, "bad request"),
        (IngestOutcome::StoreFailed, 400, "bad request"),
        (IngestOutcome::Stored, 202, "ok"),
    ];
    for (outcome, status, body) in cases {
        let reply = ingest_reply(outcome);
        assert_eq!(reply.status, status);
        assert_eq!(reply.body, body);
        assert!(reply.headers.is_empty());
    }
}

#[test]
fn config_handshake_hands_out_the_install_token() {
    let expected = format!("{{\"ingestToken\":\"{INSTALL_TOKEN}\"}}");
    for url in ["/config", "/config?v=1"] {
        let reply = request_reply(RequestMethod::Get, url, &[], INSTALL_TOKEN).unwrap();
        assert_eq!(reply.status, 200);
        assert_eq!(reply.body, expected);
        assert!(reply.headers.is_empty());
    }
    assert!(is_config_path("/config"));
    assert!(!is_config_path("/config/"));
    assert!(!is_config_path("/usage-events"));

    let opened = with_cors(config_reply(INSTALL_TOKEN), Some(COMPANION_EXTENSION_ORIGIN));
    assert_eq!(find_header(&opened, "Access-Control-Allow-Origin"), Some(COMPANION_EXTENSION_ORIGIN));
    let closed = with_cors(config_reply(INSTALL_TOKEN), Some("https://example.com"));
    assert_eq!(find_header(&closed, "Access-Control-Allow-Origin"), None);
}

#[test]
fn config_body_is_json_for_any_token() {
    for token in ["a\"b\\c", "line\nbreak\ttab\r\u{8}\u{c}", "\u{1}\u{1f}\u{7f}é", ""] {
        let reply = config_reply(token);
        let expected = format!("{{\"ingestToken\":{}}}", serde_json::to_string(token).unwrap());
        assert_eq!(reply.body, expected);
    }
}

#[test]
fn reads_at_most_one_byte_over_the_limit() {
    assert_eq!(body_read_limit(), 16385);
    let mut source = Cursor::new(vec![b'z'; MAX_INGEST_BODY_BYTES + 100]);
    let result = read_limited_body(&mut source, None);
    assert_eq!(result, Err(BodyReadError::TooLarge));
    assert_eq!(source.position(), 16385);

    let mut declared = Cursor::new(vec![b'z'; 10]);
    let result = read_limited_body(&mut declared, Some(MAX_INGEST_BODY_BYTES + 1));
    assert_eq!(result, Err(BodyReadError::TooLarge));
    assert_eq!(declared.position(), 0);
}

#[test]
fn declared_length_within_limit_changes_nothing() {
    let body = "{\"ok\":true}";
    for declared in [None, Some(0), Some(3), Some(MAX_INGEST_BODY_BYTES)] {
        assert_eq!(read_limited_body(Cursor::new(body), declared), Ok(body.to_string()));
    }
}
