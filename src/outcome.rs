//! The outcome of one request, and how a response or a failure becomes one.
use vstd::prelude::*;
use crate::text::{decimal, push_decimal, same_text, to_upper, upper_of};

verus! {

/// At most this many body bytes are kept as the response preview.
pub const BODY_PREVIEW_BYTES: usize = 512;

/// The outcome of one request attempt.
#[derive(Clone, Debug)]
pub struct RequestResult {
    pub id: u32,
    /// The response status was in `200..300`.
    pub success: bool,
    /// Absent when no response came back.
    pub status_code: Option<u16>,
    /// From just before sending to the end of the body, or to the failure, in microseconds.
    pub latency_us: u64,
    /// Absent on success; otherwise a short kind such as `Timeout` or `HTTP 503`.
    pub error: Option<String>,
    pub response_size_bytes: usize,
    /// Wall-clock time of sending, in milliseconds since the Unix epoch.
    pub timestamp_ms: u64,
    /// The decoded start of the body, when the body was not empty.
    pub response_body: Option<String>,
}

pub open spec fn opt_view(o: Option<String>) -> Option<Seq<char>> {
    match o {
        Some(s) => Some(s@),
        None => None,
    }
}

/// The outcome was cut short by cancellation.
pub open spec fn is_cancelled(r: RequestResult) -> bool {
    opt_view(r.error) == Some("Cancelled"@)
}

/// A key of the status distribution: a class such as `2xx`, or an exact code.
#[derive(Clone, Copy, Debug, PartialEq, Eq, Structural)]
pub enum StatusKey {
    /// The hundreds of a status code: `Class(2)` is `2xx`.
    Class(u16),
    Exact(u16),
}

impl StatusKey {
    pub open spec fn label_spec(self) -> Seq<char> {
        match self {
            StatusKey::Class(c) => decimal(c as nat) + "xx"@,
            StatusKey::Exact(s) => decimal(s as nat),
        }
    }

    /// The key as shown: `2xx` for a class, `200` for a code.
    pub fn label(&self) -> (r: String)
        ensures
            r@ == self.label_spec(),
    {
        let mut out = String::new();
        match *self {
            StatusKey::Class(c) => {
                push_decimal(&mut out, c as u64);
                out.append("xx");
            },
            StatusKey::Exact(s) => {
                push_decimal(&mut out, s as u64);
            },
        }
        out
    }
}

/// The request method actually sent.
#[derive(Clone, Copy, Debug, PartialEq, Eq, Structural)]
pub enum HttpMethod {
    Get,
    Post,
    Put,
    Delete,
    Patch,
}

/// The method named by an uppercased method string; anything unknown is GET.
pub open spec fn method_named(upper: Seq<char>) -> HttpMethod {
    if upper == "POST"@ {
        HttpMethod::Post
    } else if upper == "PUT"@ {
        HttpMethod::Put
    } else if upper == "DELETE"@ {
        HttpMethod::Delete
    } else if upper == "PATCH"@ {
        HttpMethod::Patch
    } else {
        HttpMethod::Get
    }
}

/// The method to send for a configured method string, read without regard to case.
pub fn select_method(method: &str) -> (r: HttpMethod)
    ensures
        r == method_named(upper_of(method@)),
{
    let upper = to_upper(method);
    let u = upper.as_str();
    if same_text(u, "POST") {
        HttpMethod::Post
    } else if same_text(u, "PUT") {
        HttpMethod::Put
    } else if same_text(u, "DELETE") {
        HttpMethod::Delete
    } else if same_text(u, "PATCH") {
        HttpMethod::Patch
    } else {
        HttpMethod::Get
    }
}

/// What `String::from_utf8_lossy` gives for a byte sequence.
pub uninterp spec fn lossy_of(b: Seq<u8>) -> Seq<char>;

/// Relies on `String::from_utf8_lossy`: the result depends on the bytes alone;
/// each character comes from at least one byte (a valid encoding, or a run of
/// invalid bytes replaced by U+FFFD) and every byte goes into some character, so
/// there are no more characters than bytes, and none exactly when no bytes.
#[verifier::external_body]
fn decode_lossy(b: &[u8]) -> (r: String)
    ensures
        r@ == lossy_of(b@),
        r@.len() <= b@.len(),
        r@.len() == 0 <==> b@.len() == 0,
{
    String::from_utf8_lossy(b).into_owned()
}

/// The preview kept of a body: none for an empty body, else its first
/// `BODY_PREVIEW_BYTES` bytes decoded.
pub open spec fn preview_of(body: Seq<u8>) -> Option<Seq<char>> {
    if body.len() == 0 {
        None
    } else if body.len() <= BODY_PREVIEW_BYTES {
        Some(lossy_of(body))
    } else {
        Some(lossy_of(body.take(BODY_PREVIEW_BYTES as int)))
    }
}

/// The preview kept of a response body.
pub fn body_preview(body: &[u8]) -> (r: Option<String>)
    ensures
        opt_view(r) == preview_of(body@),
        r matches Some(p) ==> 0 < p@.len() <= BODY_PREVIEW_BYTES,
{
    let n = body.len();
    if n == 0 {
        return None;
    }
    let cap = if n < BODY_PREVIEW_BYTES { n } else { BODY_PREVIEW_BYTES };
    let mut head: Vec<u8> = Vec::new();
    let mut i: usize = 0;
    while i < cap
        invariant
            n == body@.len(),
            cap <= n,
            i <= cap,
            head@ == body@.take(i as int),
        decreases cap - i,
    {
        head.push(body[i]);
        assert(body@.take(i + 1) == body@.take(i as int).push(body@[i as int]));
        i = i + 1;
    }
    assert(n <= BODY_PREVIEW_BYTES ==> body@.take(cap as int) == body@);
    Some(decode_lossy(head.as_slice()))
}

/// The error kind for a response status: none for `2xx`, else `HTTP <code>`.
pub open spec fn status_error(status: u16) -> Option<Seq<char>> {
    if 200 <= status < 300 {
        None
    } else {
        Some("HTTP "@ + decimal(status as nat))
    }
}

/// The outcome of a request whose response and body arrived.
pub fn response_outcome(id: u32, status: u16, latency_us: u64, timestamp_ms: u64, body: &[u8]) -> (r: RequestResult)
    ensures
        r.id == id,
        r.success == (200 <= status < 300),
        r.status_code == Some(status),
        r.latency_us == latency_us,
        opt_view(r.error) == status_error(status),
        r.response_size_bytes == body@.len(),
        r.timestamp_ms == timestamp_ms,
        opt_view(r.response_body) == preview_of(body@),
        r.response_body matches Some(p) ==> 0 < p@.len() <= BODY_PREVIEW_BYTES,
{
    let success = 200 <= status && status < 300;
    let error = if success {
        None
    } else {
        let mut e = String::from_str("HTTP ");
        push_decimal(&mut e, status as u64);
        Some(e)
    };
    RequestResult {
        id,
        success,
        status_code: Some(status),
        latency_us,
        error,
        response_size_bytes: body.len(),
        timestamp_ms,
        response_body: body_preview(body),
    }
}

/// The error kind of a transport failure: a timeout, a failed connection, or the
/// failure's own text.
pub open spec fn transport_error_kind(is_timeout: bool, is_connect: bool, detail: Seq<char>) -> Seq<char> {
    if is_timeout {
        "Timeout"@
    } else if is_connect {
        "Connection refused"@
    } else {
        detail
    }
}

/// The outcome of a request that failed before a response arrived.
pub fn transport_error_outcome(
    id: u32,
    latency_us: u64,
    timestamp_ms: u64,
    is_timeout: bool,
    is_connect: bool,
    detail: String,
) -> (r: RequestResult)
    ensures
        r.id == id,
        !r.success,
        r.status_code is None,
        r.latency_us == latency_us,
        opt_view(r.error) == Some(transport_error_kind(is_timeout, is_connect, detail@)),
        r.response_size_bytes == 0,
        r.timestamp_ms == timestamp_ms,
        r.response_body is None,
{
    let kind = if is_timeout {
        String::from_str("Timeout")
    } else if is_connect {
        String::from_str("Connection refused")
    } else {
        detail
    };
    RequestResult {
        id,
        success: false,
        status_code: None,
        latency_us,
        error: Some(kind),
        response_size_bytes: 0,
        timestamp_ms,
        response_body: None,
    }
}

/// The outcome of a request that cancellation cut short.
pub fn cancelled_outcome(id: u32, latency_us: u64, timestamp_ms: u64) -> (r: RequestResult)
    ensures
        r.id == id,
        !r.success,
        r.status_code is None,
        r.latency_us == latency_us,
        is_cancelled(r),
        r.response_size_bytes == 0,
        r.timestamp_ms == timestamp_ms,
        r.response_body is None,
{
    RequestResult {
        id,
        success: false,
        status_code: None,
        latency_us,
        error: Some(String::from_str("Cancelled")),
        response_size_bytes: 0,
        timestamp_ms,
        response_body: None,
    }
}

/// The outcome of a request that could not be built; it was never sent.
pub fn build_error_outcome(id: u32, detail: &str) -> (r: RequestResult)
    ensures
        r.id == id,
        !r.success,
        r.status_code is None,
        r.latency_us == 0,
        opt_view(r.error) == Some("Build error: "@ + detail@),
        r.response_size_bytes == 0,
        r.timestamp_ms == 0,
        r.response_body is None,
{
    let mut e = String::from_str("Build error: ");
    e.append(detail);
    RequestResult {
        id,
        success: false,
        status_code: None,
        latency_us: 0,
        error: Some(e),
        response_size_bytes: 0,
        timestamp_ms: 0,
        response_body: None,
    }
}

} // verus!
