//! Decisions of the local ingest endpoint: which requests reach the usage
//! event store, how large a body may be, which reply each outcome gets, and
//! which CORS headers a reply carries.

use std::io::Read;

use vstd::prelude::*;
use vstd::string::StringSliceAdditionalSpecFns;

use crate::token::hex_encode;
use vstd::utf8::{
    decode_utf8, decode_utf8_encode_utf8, encode_utf8, is_ascii_chars, is_ascii_chars_encode_utf8,
    valid_utf8,
};

use crate::text::{
    hex_digit, json_escape_char,
    bytes_equal, eq_ignore_ascii_case, eq_ignore_ascii_case_spec, first_segment,
    first_segment_len, json_escape, push_json_escaped, str_equal,
};

verus! {

/// Address the ingest server listens on.
pub const INGEST_ADDRESS: &'static str = "127.0.0.1:51247";

/// Largest request body, in bytes, that the endpoint accepts.
pub const MAX_INGEST_BODY_BYTES: usize = 16 * 1024;

/// Header that carries the ingest token.
pub const INGEST_TOKEN_HEADER: &'static str = "x-time-manager-token";

/// Path of the endpoint that accepts usage events.
pub const USAGE_EVENTS_PATH: &'static str = "/usage-events";

/// Path of the handshake that hands the companion extension its token.
pub const CONFIG_PATH: &'static str = "/config";

/// The one origin that may read replies across origins: the companion
/// browser extension, whose ID its manifest key fixes.
pub const COMPANION_EXTENSION_ORIGIN: &'static str =
    "chrome-extension://okcchcpgcebnenmenmfjbpnnkjoepien";

/// Why a request body was refused.
#[derive(Debug, PartialEq, Eq, Structural)]
pub enum BodyReadError {
    Invalid,
    ReadFailed,
    TooLarge,
}

/// One HTTP header: its field name and its value.
#[derive(Debug)]
pub struct Header {
    pub field: String,
    pub value: String,
}

impl View for Header {
    type V = (Seq<char>, Seq<char>);

    open spec fn view(&self) -> (Seq<char>, Seq<char>) {
        (self.field@, self.value@)
    }
}

impl Header {
    /// A header with the given field name and value.
    pub fn new(field: &str, value: &str) -> (h: Header)
        ensures
            h@ == (field@, value@),
    {
        Header { field: String::from_str(field), value: String::from_str(value) }
    }
}

/// The request method, as far as the endpoint tells methods apart.
#[derive(Debug, Clone, Copy, PartialEq, Eq, Structural)]
pub enum RequestMethod {
    Get,
    Options,
    Post,
    Other,
}

/// A reply to send: status code, body text and headers in order.
#[derive(Debug)]
pub struct Reply {
    pub status: u16,
    pub body: String,
    pub headers: Vec<Header>,
}

/// What a reply holds, as plain values.
pub struct ReplyView {
    pub status: u16,
    pub body: Seq<char>,
    pub headers: Seq<(Seq<char>, Seq<char>)>,
}

impl View for Reply {
    type V = ReplyView;

    open spec fn view(&self) -> ReplyView {
        ReplyView {
            status: self.status,
            body: self.body@,
            headers: self.headers@.map_values(|h: Header| h@),
        }
    }
}

impl Reply {
    /// A reply with the given status and body and no headers.
    pub fn new(status: u16, body: &str) -> (r: Reply)
        ensures
            r@ == (ReplyView { status, body: body@, headers: Seq::empty() }),
    {
        let r = Reply { status, body: String::from_str(body), headers: Vec::new() };
        assert(r@.headers =~= Seq::<(Seq<char>, Seq<char>)>::empty());
        r
    }
}

/// Whether the request target names the usage-events endpoint: its part
/// before the first `?` is exactly `/usage-events`.
pub open spec fn is_usage_events_target(path: Seq<u8>) -> bool {
    first_segment(path, 0x3f) == USAGE_EVENTS_PATH.spec_bytes()
}

/// Whether the request target names the configuration handshake: its part
/// before the first `?` is exactly `/config`.
pub open spec fn is_config_target(path: Seq<u8>) -> bool {
    first_segment(path, 0x3f) == CONFIG_PATH.spec_bytes()
}

/// Whether `path` (a request URL, possibly with a query) addresses the
/// configuration handshake.
pub fn is_config_path(path: &str) -> (r: bool)
    ensures
        r == is_config_target(path.spec_bytes()),
{
    let bytes = path.as_bytes();
    let n = first_segment_len(bytes, 0x3f);
    let (head, _) = bytes.split_at(n);
    bytes_equal(head, CONFIG_PATH.as_bytes())
}

/// Whether `path` (a request URL, possibly with a query) addresses the
/// usage-events endpoint.
pub fn is_usage_events_path(path: &str) -> (r: bool)
    ensures
        r == is_usage_events_target(path.spec_bytes()),
{
    let bytes = path.as_bytes();
    let n = first_segment_len(bytes, 0x3f);
    let (head, _) = bytes.split_at(n);
    bytes_equal(head, USAGE_EVENTS_PATH.as_bytes())
}

/// Whether a header's field name is `name`, ignoring ASCII case.
pub open spec fn field_is(h: (Seq<char>, Seq<char>), name: Seq<char>) -> bool {
    eq_ignore_ascii_case_spec(encode_utf8(h.0), encode_utf8(name))
}

/// The value of the first header whose field name is `name` (ASCII case
/// ignored), if any.
pub open spec fn lookup_header(headers: Seq<(Seq<char>, Seq<char>)>, name: Seq<char>) -> Option<Seq<char>>
    decreases headers.len(),
{
    if headers.len() == 0 {
        None
    } else if field_is(headers[0], name) {
        Some(headers[0].1)
    } else {
        lookup_header(headers.drop_first(), name)
    }
}

/// The headers of a slice, as plain values.
pub open spec fn headers_view(headers: Seq<Header>) -> Seq<(Seq<char>, Seq<char>)> {
    headers.map_values(|h: Header| h@)
}

/// Views an optional string as its characters.
pub open spec fn opt_str_view(s: Option<&str>) -> Option<Seq<char>> {
    match s {
        Some(v) => Some(v@),
        None => None,
    }
}

/// The value of the first header named `name`, ignoring ASCII case.
pub fn header_value<'a>(headers: &'a [Header], name: &str) -> (r: Option<&'a str>)
    ensures
        opt_str_view(r) == lookup_header(headers_view(headers@), name@),
{
    let ghost all = headers_view(headers@);
    assert(all.skip(0) =~= all);
    let mut i: usize = 0;
    while i < headers.len()
        invariant
            i <= headers@.len(),
            all == headers_view(headers@),
            lookup_header(all, name@) == lookup_header(all.skip(i as int), name@),
        decreases headers@.len() - i,
    {
        let h = &headers[i];
        assert(all.skip(i as int)[0] == h@);
        if eq_ignore_ascii_case(h.field.as_str().as_bytes(), name.as_bytes()) {
            return Some(h.value.as_str());
        }
        assert(all.skip(i as int).drop_first() =~= all.skip(i + 1));
        i = i + 1;
    }
    None
}

/// Whether the headers carry `token`, this install's ingest token, in the
/// `x-time-manager-token` header.
pub open spec fn carries_ingest_token(headers: Seq<(Seq<char>, Seq<char>)>, token: Seq<char>) -> bool {
    lookup_header(headers, INGEST_TOKEN_HEADER@) == Some(token)
}

/// Whether the request headers carry `token`, this install's ingest token.
pub fn has_valid_ingest_token(headers: &[Header], token: &str) -> (r: bool)
    ensures
        r == carries_ingest_token(headers_view(headers@), token@),
{
    match header_value(headers, INGEST_TOKEN_HEADER) {
        Some(value) => str_equal(value, token),
        None => false,
    }
}


/// The origin that may read a reply across origins: `origin` itself when it
/// is exactly the companion extension's origin, and no origin otherwise.
pub open spec fn allowed_origin(origin: Option<&str>) -> Option<&str> {
    match origin {
        Some(o) => if o@ == COMPANION_EXTENSION_ORIGIN@ {
            Some(o)
        } else {
            None
        },
        None => None,
    }
}

/// Keeps `origin` only when it is the companion extension's origin.
pub fn allowed_cors_origin(origin: Option<&str>) -> (r: Option<&str>)
    ensures
        r == allowed_origin(origin),
{
    match origin {
        Some(o) => {
            if str_equal(o, COMPANION_EXTENSION_ORIGIN) {
                Some(o)
            } else {
                None
            }
        },
        None => None,
    }
}

/// The CORS headers that every reply gets, in order.
pub open spec fn base_cors_headers() -> Seq<(Seq<char>, Seq<char>)> {
    seq![
        ("Access-Control-Allow-Methods"@, "POST, OPTIONS"@),
        ("Access-Control-Allow-Headers"@, "content-type, x-time-manager-token"@),
    ]
}

/// The CORS headers appended to a reply for a request from `origin`: the
/// base headers, then `Vary: Origin` and the allowed origin when there is one.
pub open spec fn cors_headers(origin: Option<&str>) -> Seq<(Seq<char>, Seq<char>)> {
    match allowed_origin(origin) {
        Some(o) => base_cors_headers() + seq![
            ("Vary"@, "Origin"@),
            ("Access-Control-Allow-Origin"@, o@),
        ],
        None => base_cors_headers(),
    }
}

fn push_header(reply: &mut Reply, field: &str, value: &str)
    ensures
        final(reply)@ == (ReplyView {
            status: old(reply)@.status,
            body: old(reply)@.body,
            headers: old(reply)@.headers.push((field@, value@)),
        }),
{
    reply.headers.push(Header::new(field, value));
    assert(reply@.headers =~= old(reply)@.headers.push((field@, value@)));
}

/// Adds the CORS headers for a request from `origin` to `reply`.
pub fn with_cors(reply: Reply, origin: Option<&str>) -> (r: Reply)
    ensures
        r@ == (ReplyView {
            status: reply@.status,
            body: reply@.body,
            headers: reply@.headers + cors_headers(origin),
        }),
{
    let mut r = reply;
    push_header(&mut r, "Access-Control-Allow-Methods", "POST, OPTIONS");
    push_header(&mut r, "Access-Control-Allow-Headers", "content-type, x-time-manager-token");
    match allowed_cors_origin(origin) {
        Some(o) => {
            push_header(&mut r, "Vary", "Origin");
            push_header(&mut r, "Access-Control-Allow-Origin", o);
            assert(r@.headers =~= reply@.headers + cors_headers(origin));
        },
        None => {
            assert(r@.headers =~= reply@.headers + cors_headers(origin));
        },
    }
    r
}

/// The body of the configuration handshake: `{"ingestToken":"<token>"}`,
/// the token written as a JSON string.
pub open spec fn config_body(token: Seq<char>) -> Seq<char> {
    "{\"ingestToken\":\""@ + json_escape(token) + "\"}"@
}

/// The reply that a request gets before its body is read, or `None` when
/// the request is an authorised usage-event post whose body is to be read:
/// a preflight gets 204; a `GET /config` gets 200 with the ingest token;
/// anything else but a post to `/usage-events` gets 404; a post without this
/// install's ingest `token` gets 401.
pub open spec fn early_reply(
    method: RequestMethod,
    url: Seq<u8>,
    headers: Seq<(Seq<char>, Seq<char>)>,
    token: Seq<char>,
) -> Option<(u16, Seq<char>)> {
    if method == RequestMethod::Options {
        Some((204u16, ""@))
    } else if method == RequestMethod::Get && is_config_target(url) {
        Some((200u16, config_body(token)))
    } else if method != RequestMethod::Post || !is_usage_events_target(url) {
        Some((404u16, "not found"@))
    } else if !carries_ingest_token(headers, token) {
        Some((401u16, "unauthorized"@))
    } else {
        None
    }
}

/// Whether `r` is a reply with the given status and body and no headers.
pub open spec fn is_plain_reply(r: ReplyView, status: u16, body: Seq<char>) -> bool {
    r.status == status && r.body == body && r.headers == Seq::<(Seq<char>, Seq<char>)>::empty()
}

/// Only an authorised post reaches the event store: a request's body is read
/// exactly when it is a `POST` to `/usage-events` that carries this
/// install's ingest token, and a preflight is always answered 204, with or
/// without a token.
pub proof fn lemma_only_authorised_posts_are_read(
    method: RequestMethod,
    url: Seq<u8>,
    headers: Seq<(Seq<char>, Seq<char>)>,
    token: Seq<char>,
)
    ensures
        early_reply(method, url, headers, token) is None <==> (method == RequestMethod::Post
            && is_usage_events_target(url) && carries_ingest_token(headers, token)),
        method == RequestMethod::Options ==> early_reply(method, url, headers, token) == Some(
            (204u16, ""@),
        ),
{
}

proof fn lemma_json_escape_hex_digit(n: u8)
    requires
        n < 16,
    ensures
        json_escape_char(hex_digit(n)) == seq![hex_digit(n)],
{
    let c = hex_digit(n);
    assert((c as u32) >= 0x30);
    assert(c != '"' && c != '\\');
    assert(c != '\u{8}' && c != '\t' && c != '\n' && c != '\u{c}' && c != '\r');
}

proof fn lemma_json_escape_hex(bytes: Seq<u8>)
    ensures
        json_escape(hex_encode(bytes)) == hex_encode(bytes),
    decreases bytes.len(),
{
    if bytes.len() > 0 {
        let prev = bytes.drop_last();
        lemma_json_escape_hex(prev);
        let hi = (bytes.last() / 16) as u8;
        let lo = (bytes.last() % 16) as u8;
        lemma_json_escape_hex_digit(hi);
        lemma_json_escape_hex_digit(lo);
        let text = hex_encode(bytes);
        let mid = hex_encode(prev) + seq![hex_digit(hi)];
        assert(text == mid + seq![hex_digit(lo)]);
        assert(text.drop_last() =~= mid);
        assert(mid.drop_last() =~= hex_encode(prev));
        assert(json_escape(mid) == json_escape(hex_encode(prev)) + seq![hex_digit(hi)]);
    }
}

/// The handshake hands out a drawn token exactly as drawn: for a token that
/// `generate_ingest_token` can produce, the configuration body is
/// `{"ingestToken":"` followed by the token and `"}`.
pub proof fn lemma_config_body_holds_token(bytes: Seq<u8>)
    ensures
        config_body(hex_encode(bytes)) == "{\"ingestToken\":\""@ + hex_encode(bytes) + "\"}"@,
{
    lemma_json_escape_hex(bytes);
}

/// The routing table, stated on the request itself: a preflight gets 204;
/// a `GET` gets 200 with the token exactly when its target before the first
/// `?` is `/config`, and 404 `not found` otherwise; any other method gets
/// 404; a `POST` to a target other than `/usage-events` gets 404; a `POST`
/// to `/usage-events` gets 401 `unauthorized` unless the first
/// `x-time-manager-token` header holds exactly `token`, in which case its
/// body is read.
pub proof fn lemma_request_routes(
    method: RequestMethod,
    url: Seq<u8>,
    headers: Seq<(Seq<char>, Seq<char>)>,
    token: Seq<char>,
)
    ensures
        method == RequestMethod::Options ==> early_reply(method, url, headers, token) == Some(
            (204u16, ""@),
        ),
        method == RequestMethod::Get && first_segment(url, 0x3f) == "/config".spec_bytes()
            ==> early_reply(method, url, headers, token) == Some((200u16, config_body(token))),
        method == RequestMethod::Get && first_segment(url, 0x3f) != "/config".spec_bytes()
            ==> early_reply(method, url, headers, token) == Some((404u16, "not found"@)),
        method == RequestMethod::Other ==> early_reply(method, url, headers, token) == Some(
            (404u16, "not found"@),
        ),
        method == RequestMethod::Post && first_segment(url, 0x3f) != "/usage-events".spec_bytes()
            ==> early_reply(method, url, headers, token) == Some((404u16, "not found"@)),
        method == RequestMethod::Post && first_segment(url, 0x3f) == "/usage-events".spec_bytes()
            && lookup_header(headers, "x-time-manager-token"@) != Some(token)
            ==> early_reply(method, url, headers, token) == Some((401u16, "unauthorized"@)),
        method == RequestMethod::Post && first_segment(url, 0x3f) == "/usage-events".spec_bytes()
            && lookup_header(headers, "x-time-manager-token"@) == Some(token)
            ==> early_reply(method, url, headers, token) is None,
{
}

/// The reply to the configuration handshake: status 200 and
/// `{"ingestToken":"<token>"}`.
pub fn config_reply(token: &str) -> (r: Reply)
    ensures
        is_plain_reply(r@, 200, config_body(token@)),
{
    let mut body = String::from_str("{\"ingestToken\":\"");
    push_json_escaped(&mut body, token);
    body.append("\"}");
    let r = Reply { status: 200, body, headers: Vec::new() };
    assert(r@.headers =~= Seq::<(Seq<char>, Seq<char>)>::empty());
    r
}

/// Decides what to do with a request before its body is read; `token` is
/// this install's ingest token.
pub fn request_reply(method: RequestMethod, url: &str, headers: &[Header], token: &str) -> (r: Option<Reply>)
    ensures
        match early_reply(method, url.spec_bytes(), headers_view(headers@), token@) {
            Some((status, body)) => r matches Some(reply) && is_plain_reply(reply@, status, body),
            None => r is None,
        },
{
    if method == RequestMethod::Options {
        Some(Reply::new(204, ""))
    } else if method == RequestMethod::Get && is_config_path(url) {
        Some(config_reply(token))
    } else if method != RequestMethod::Post || !is_usage_events_path(url) {
        Some(Reply::new(404, "not found"))
    } else if !has_valid_ingest_token(headers, token) {
        Some(Reply::new(401, "unauthorized"))
    } else {
        None
    }
}

/// How the handling of an authorised usage-event post ended.
#[derive(Debug, PartialEq, Eq, Structural)]
pub enum IngestOutcome {
    /// The body was refused.
    BodyRejected(BodyReadError),
    /// The body is not a usage event.
    Unparsable,
    /// The event store could not be reached.
    StoreUnavailable,
    /// The event store refused the event.
    StoreFailed,
    /// The event was stored.
    Stored,
}

/// The status and body that each outcome of a post is answered with.
pub open spec fn outcome_reply(outcome: IngestOutcome) -> (u16, Seq<char>) {
    match outcome {
        IngestOutcome::BodyRejected(BodyReadError::TooLarge) => (413u16, "payload too large"@),
        IngestOutcome::Stored => (202u16, "ok"@),
        _ => (400u16, "bad request"@),
    }
}

/// The reply to an authorised usage-event post, from how it ended.
pub fn ingest_reply(outcome: IngestOutcome) -> (r: Reply)
    ensures
        is_plain_reply(r@, outcome_reply(outcome).0, outcome_reply(outcome).1),
{
    match outcome {
        IngestOutcome::BodyRejected(BodyReadError::TooLarge) => Reply::new(413, "payload too large"),
        IngestOutcome::Stored => Reply::new(202, "ok"),
        _ => Reply::new(400, "bad request"),
    }
}


/// Calls `std::io::Read::take` with `limit` and `read_to_end` on the
/// adapter it gives, appending what it reads to `buf`; the result tells
/// whether the read ended without error. Claimed, as std documents: bytes
/// already in `buf` stay in front (what is read is appended, also when an
/// error ends the read), and the adapter yields at most `limit` bytes, so at
/// most `limit` bytes are appended. Nothing is claimed of which bytes are
/// read: they depend on the reader.
#[verifier::external_body]
fn read_to_end_limited<R: Read>(reader: R, limit: u64, buf: &mut Vec<u8>) -> (ok: bool)
    ensures
        old(buf)@.is_prefix_of(final(buf)@),
        final(buf)@.len() <= old(buf)@.len() + limit,
{
    match reader.take(limit).read_to_end(buf) {
        Ok(_) => true,
        Err(_) => false,
    }
}

/// Calls `String::from_utf8`. Claimed, as std documents: a string comes back
/// exactly when the bytes are valid UTF-8, and it holds the characters that
/// the bytes encode.
#[verifier::external_body]
fn string_from_utf8(bytes: Vec<u8>) -> (r: Option<String>)
    ensures
        r is Some <==> valid_utf8(bytes@),
        r matches Some(s) ==> s@ == decode_utf8(bytes@),
{
    match String::from_utf8(bytes) {
        Ok(s) => Some(s),
        Err(_) => None,
    }
}

/// Whether a request declares a body longer than the endpoint accepts.
pub open spec fn declared_too_large(body_length: Option<usize>) -> bool {
    body_length matches Some(length) && length > MAX_INGEST_BODY_BYTES
}

/// The text of a body, or why it is refused, from the bytes read (`None`
/// when reading failed): more than the limit is too large, and bytes that
/// are not UTF-8 are invalid.
pub open spec fn body_outcome(read: Option<Seq<u8>>) -> Result<Seq<char>, BodyReadError> {
    match read {
        None => Err(BodyReadError::ReadFailed),
        Some(bytes) => if bytes.len() > MAX_INGEST_BODY_BYTES {
            Err(BodyReadError::TooLarge)
        } else if valid_utf8(bytes) {
            Ok(decode_utf8(bytes))
        } else {
            Err(BodyReadError::Invalid)
        },
    }
}

/// A body result as plain values.
pub open spec fn body_view(r: Result<String, BodyReadError>) -> Result<Seq<char>, BodyReadError> {
    match r {
        Ok(s) => Ok(s@),
        Err(e) => Err(e),
    }
}

/// Optional bytes as plain values.
pub open spec fn opt_bytes_view(read: Option<Vec<u8>>) -> Option<Seq<u8>> {
    match read {
        Some(bytes) => Some(bytes@),
        None => None,
    }
}

/// Turns what was read of a request body (`None` when reading failed) into
/// its text, or the reason it is refused.
pub fn body_from_bytes(read: Option<Vec<u8>>) -> (r: Result<String, BodyReadError>)
    ensures
        body_view(r) == body_outcome(opt_bytes_view(read)),
{
    match read {
        None => Err(BodyReadError::ReadFailed),
        Some(bytes) => {
            if bytes.len() > MAX_INGEST_BODY_BYTES {
                Err(BodyReadError::TooLarge)
            } else {
                match string_from_utf8(bytes) {
                    Some(text) => Ok(text),
                    None => Err(BodyReadError::Invalid),
                }
            }
        },
    }
}

/// How many bytes of a body are read at most: one more than the limit, so
/// that a longer body shows itself without being read whole.
pub fn body_read_limit() -> (n: u64)
    ensures
        n == MAX_INGEST_BODY_BYTES + 1,
{
    (MAX_INGEST_BODY_BYTES + 1) as u64
}

/// Reads a request body of at most `MAX_INGEST_BODY_BYTES` bytes as text.
/// A body declared longer is refused before anything is read; otherwise at
/// most `body_read_limit()` bytes are read, and the outcome is that of
/// `body_outcome` for what the reader gave. The declared length is looked
/// at only to refuse a body declared too long.
pub fn read_limited_body<R: Read>(reader: R, body_length: Option<usize>) -> (r: Result<String, BodyReadError>)
    ensures
        declared_too_large(body_length) ==> r == Err::<String, BodyReadError>(BodyReadError::TooLarge),
        !declared_too_large(body_length) ==> exists|read: Option<Seq<u8>>|
            (read matches Some(bytes) ==> bytes.len() <= MAX_INGEST_BODY_BYTES + 1)
            && body_view(r) == body_outcome(read),
        r matches Ok(text) ==> encode_utf8(text@).len() <= MAX_INGEST_BODY_BYTES,
{
    if let Some(length) = body_length {
        if length > MAX_INGEST_BODY_BYTES {
            return Err(BodyReadError::TooLarge);
        }
    }
    let mut body: Vec<u8> = Vec::new();
    let read = if read_to_end_limited(reader, body_read_limit(), &mut body) {
        Some(body)
    } else {
        None
    };
    let ghost read_view = opt_bytes_view(read);
    let r = body_from_bytes(read);
    proof {
        if let Some(bytes) = read_view {
            if bytes.len() <= MAX_INGEST_BODY_BYTES && valid_utf8(bytes) {
                decode_utf8_encode_utf8(bytes);
            }
        }
    }
    r
}


/// Looking a header up in two lists one after the other finds it in the
/// first list if it is there, and in the second otherwise.
pub proof fn lemma_lookup_header_concat(
    first: Seq<(Seq<char>, Seq<char>)>,
    second: Seq<(Seq<char>, Seq<char>)>,
    name: Seq<char>,
)
    ensures
        lookup_header(first + second, name) == match lookup_header(first, name) {
            Some(v) => Some(v),
            None => lookup_header(second, name),
        },
    decreases first.len(),
{
    if first.len() > 0 {
        assert((first + second)[0] == first[0]);
        assert((first + second).drop_first() =~= first.drop_first() + second);
        lemma_lookup_header_concat(first.drop_first(), second, name);
    } else {
        assert(first + second =~= second);
    }
}

/// CORS never opens a reply to another origin: once `with_cors` has added
/// its headers to a reply that had no `Access-Control-Allow-Origin` header,
/// the reply allows exactly the requesting origin when it is the companion
/// extension's origin, and no origin otherwise.
pub proof fn lemma_cors_allows_only_extension_origins(
    headers: Seq<(Seq<char>, Seq<char>)>,
    origin: Option<&str>,
)
    requires
        lookup_header(headers, "Access-Control-Allow-Origin"@) is None,
    ensures
        lookup_header(headers + cors_headers(origin), "Access-Control-Allow-Origin"@)
            == opt_str_view(allowed_origin(origin)),
{
    reveal_strlit("Access-Control-Allow-Origin");
    reveal_strlit("Access-Control-Allow-Methods");
    reveal_strlit("Access-Control-Allow-Headers");
    reveal_strlit("Vary");
    let acao = "Access-Control-Allow-Origin"@;
    lemma_lookup_header_concat(headers, cors_headers(origin), acao);
    let names = seq![
        "Access-Control-Allow-Methods"@,
        "Access-Control-Allow-Headers"@,
        "Vary"@,
        acao,
    ];
    assert forall|i: int| 0 <= i < names.len() implies encode_utf8(#[trigger] names[i]).len()
        == names[i].len() by {
        assert(is_ascii_chars(names[i]));
        is_ascii_chars_encode_utf8(names[i]);
    }
    assert(encode_utf8(names[0]).len() == 28);
    assert(encode_utf8(names[1]).len() == 28);
    assert(encode_utf8(names[2]).len() == 4);
    assert(encode_utf8(names[3]).len() == 27);
    let c = cors_headers(origin);
    assert(!field_is(c[0], acao));
    assert(!field_is(c[1], acao));
    let d1 = c.drop_first();
    let d2 = d1.drop_first();
    assert(d1[0] == c[1]);
    assert(lookup_header(c, acao) == lookup_header(d1, acao));
    assert(lookup_header(d1, acao) == lookup_header(d2, acao));
    match allowed_origin(origin) {
        Some(o) => {
            assert(d2[0] == c[2]);
            assert(!field_is(c[2], acao));
            let d3 = d2.drop_first();
            assert(d3[0] == c[3]);
            assert(field_is(c[3], acao));
            assert(lookup_header(d2, acao) == lookup_header(d3, acao));
            assert(lookup_header(d3, acao) == Some(o@));
        },
        None => {
            assert(d2.len() == 0);
        },
    }
}

} // verus!
